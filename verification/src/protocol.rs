//! The remote protocol: two operations, upload the file content and attach
//! (create or update) the named reference that points at it.
//!
//! Each operation is described as a plain HTTP request value — method, URL,
//! authorization header and JSON body — that the transport sends verbatim,
//! and the response is interpreted from its status code and body text. The
//! create-versus-update choice is made purely from local state: an existing
//! remote reference turns the attach call into an update of that reference,
//! its absence into a create.

use vstd::prelude::*;

verus! {

/// Error raised by a remote operation.
#[derive(Clone, Copy, Debug, PartialEq, Eq, Structural)]
pub enum RemoteError {
    /// The service answered with a non-success status code.
    Status { status: u16 },
    /// A success response lacked the expected `id` field.
    MalformedResponse,
    /// The call never produced a response: connection failure or timeout.
    Transport,
}

/// HTTP method of a remote operation.
#[derive(Clone, Copy, Debug, PartialEq, Eq, Structural)]
pub enum Method {
    Post,
    Put,
}

/// Mathematical model of a remote request.
#[verifier::ext_equal]
pub struct RequestModel {
    pub method: Method,
    pub url: Seq<char>,
    pub bearer: Seq<char>,
    pub body: Seq<char>,
}

/// One remote request, ready to send: `bearer` is the full value of the
/// `Authorization` header.
#[derive(Clone, Debug)]
pub struct HttpRequest {
    pub method: Method,
    pub url: String,
    pub bearer: String,
    pub body: String,
}

impl View for HttpRequest {
    type V = RequestModel;

    open spec fn view(&self) -> RequestModel {
        RequestModel { method: self.method, url: self.url@, bearer: self.bearer@, body: self.body@ }
    }
}

/// Relies on `alloc::string::String::push`: appends the character to the
/// end of the string.
pub assume_specification[ String::push ](s: &mut String, ch: char)
    ensures
        final(s)@ == old(s)@.push(ch),
;

/// Lower-case hexadecimal digit for a value below 16.
pub open spec fn hex_digit(n: int) -> char {
    seq!['0', '1', '2', '3', '4', '5', '6', '7', '8', '9', 'a', 'b', 'c', 'd', 'e', 'f'][n]
}

/// How one character appears inside a JSON string literal.
pub open spec fn escape_char(c: char) -> Seq<char> {
    if c == '"' {
        seq!['\\', '"']
    } else if c == '\\' {
        seq!['\\', '\\']
    } else if c == '\u{0008}' {
        seq!['\\', 'b']
    } else if c == '\u{000C}' {
        seq!['\\', 'f']
    } else if c == '\n' {
        seq!['\\', 'n']
    } else if c == '\r' {
        seq!['\\', 'r']
    } else if c == '\t' {
        seq!['\\', 't']
    } else if (c as u32) < 0x20 {
        seq!['\\', 'u', '0', '0', hex_digit(c as u32 as int / 16), hex_digit(c as u32 as int % 16)]
    } else {
        seq![c]
    }
}

/// The body of a JSON string literal: every character escaped as needed.
pub open spec fn escape_string(s: Seq<char>) -> Seq<char>
    decreases s.len(),
{
    if s.len() == 0 {
        Seq::empty()
    } else {
        escape_string(s.drop_last()) + escape_char(s.last())
    }
}

/// A complete JSON string literal for `s`, quotes included.
pub open spec fn json_string(s: Seq<char>) -> Seq<char> {
    seq!['"'] + escape_string(s) + seq!['"']
}

/// Body of the content-upload call.
pub open spec fn upload_body_spec(name: Seq<char>, content: Seq<char>) -> Seq<char> {
    "{\"name\":"@ + json_string(name) + ",\"content\":"@ + json_string(content) + "}"@
}

/// Body of the attach call on its create path.
pub open spec fn create_body_spec(name: Seq<char>, content_ref: Seq<char>) -> Seq<char> {
    "{\"name\":"@ + json_string(name) + ",\"file_id\":"@ + json_string(content_ref) + "}"@
}

/// Body of the attach call on its update path.
pub open spec fn update_body_spec(content_ref: Seq<char>) -> Seq<char> {
    "{\"file_id\":"@ + json_string(content_ref) + "}"@
}

fn hex_digit_char(n: u32) -> (r: char)
    requires
        n < 16,
    ensures
        r == hex_digit(n as int),
{
    if n == 0 {
        '0'
    } else if n == 1 {
        '1'
    } else if n == 2 {
        '2'
    } else if n == 3 {
        '3'
    } else if n == 4 {
        '4'
    } else if n == 5 {
        '5'
    } else if n == 6 {
        '6'
    } else if n == 7 {
        '7'
    } else if n == 8 {
        '8'
    } else if n == 9 {
        '9'
    } else if n == 10 {
        'a'
    } else if n == 11 {
        'b'
    } else if n == 12 {
        'c'
    } else if n == 13 {
        'd'
    } else if n == 14 {
        'e'
    } else {
        'f'
    }
}

fn push_escaped_char(out: &mut String, c: char)
    ensures
        final(out)@ == old(out)@ + escape_char(c),
{
    let code = c as u32;
    if c == '"' {
        out.push('\\');
        out.push('"');
    } else if c == '\\' {
        out.push('\\');
        out.push('\\');
    } else if c == '\u{0008}' {
        out.push('\\');
        out.push('b');
    } else if c == '\u{000C}' {
        out.push('\\');
        out.push('f');
    } else if c == '\n' {
        out.push('\\');
        out.push('n');
    } else if c == '\r' {
        out.push('\\');
        out.push('r');
    } else if c == '\t' {
        out.push('\\');
        out.push('t');
    } else if code < 0x20 {
        out.push('\\');
        out.push('u');
        out.push('0');
        out.push('0');
        out.push(hex_digit_char(code / 16));
        out.push(hex_digit_char(code % 16));
    } else {
        out.push(c);
    }
    proof {
        assert(final(out)@ =~= old(out)@ + escape_char(c));
    }
}

fn push_json_string(out: &mut String, s: &str)
    ensures
        final(out)@ == old(out)@ + json_string(s@),
{
    out.push('"');
    let n = s.unicode_len();
    let mut i: usize = 0;
    while i < n
        invariant
            n == s@.len(),
            i <= n,
            out@ == old(out)@ + seq!['"'] + escape_string(s@.take(i as int)),
        decreases n - i,
    {
        let c = s.get_char(i);
        push_escaped_char(out, c);
        proof {
            assert(s@.take(i + 1).drop_last() =~= s@.take(i as int));
            assert(s@.take(i + 1).last() == s@[i as int]);
            assert(out@ =~= old(out)@ + seq!['"'] + escape_string(s@.take(i + 1)));
        }
        i = i + 1;
    }
    out.push('"');
    proof {
        assert(s@.take(n as int) =~= s@);
        assert(final(out)@ =~= old(out)@ + json_string(s@));
    }
}

/// The content-upload request: POST to `{base}/agents/files` carrying the
/// file's name and content, authorized by the bearer credential.
pub fn upload_content_request(base_url: &str, credential: &str, name: &str, content: &str) -> (req:
    HttpRequest)
    ensures
        req@.method == Method::Post,
        req@.url == base_url@ + "/agents/files"@,
        req@.bearer == "Bearer "@ + credential@,
        req@.body == upload_body_spec(name@, content@),
{
    let mut url = base_url.to_owned();
    url.append("/agents/files");
    let mut bearer = String::from_str("Bearer ");
    bearer.append(credential);
    let mut body = String::from_str("{\"name\":");
    push_json_string(&mut body, name);
    body.append(",\"content\":");
    push_json_string(&mut body, content);
    body.append("}");
    proof {
        assert(body@ =~= upload_body_spec(name@, content@));
    }
    HttpRequest { method: Method::Post, url, bearer, body }
}

/// The attach request for a content reference: with an existing remote
/// reference it updates that reference in place (PUT), without one it
/// creates a new remote resource (POST).
pub fn attach_reference_request(
    base_url: &str,
    credential: &str,
    name: &str,
    content_ref: &str,
    existing_ref: &Option<String>,
) -> (req: HttpRequest)
    ensures
        req@.bearer == "Bearer "@ + credential@,
        match existing_ref.deep_view() {
            Some(r) => req@.method == Method::Put && req@.url == base_url@ + "/agents/plugs/"@ + r
                && req@.body == update_body_spec(content_ref@),
            None => req@.method == Method::Post && req@.url == base_url@ + "/agents/plugs"@
                && req@.body == create_body_spec(name@, content_ref@),
        },
{
    let mut bearer = String::from_str("Bearer ");
    bearer.append(credential);
    match existing_ref {
        Some(r) => {
            let mut url = base_url.to_owned();
            url.append("/agents/plugs/");
            url.append(r.as_str());
            let mut body = String::from_str("{\"file_id\":");
            push_json_string(&mut body, content_ref);
            body.append("}");
            proof {
                assert(body@ =~= update_body_spec(content_ref@));
            }
            HttpRequest { method: Method::Put, url, bearer, body }
        },
        None => {
            let mut url = base_url.to_owned();
            url.append("/agents/plugs");
            let mut body = String::from_str("{\"name\":");
            push_json_string(&mut body, name);
            body.append(",\"file_id\":");
            push_json_string(&mut body, content_ref);
            body.append("}");
            proof {
                assert(body@ =~= create_body_spec(name@, content_ref@));
            }
            HttpRequest { method: Method::Post, url, bearer, body }
        },
    }
}

/// The string under the top-level key `id` of a JSON document, if the
/// document parses and has one.
pub uninterp spec fn id_field(body: Seq<char>) -> Option<Seq<char>>;

/// Relies on `serde_json::from_str` and `serde_json::Value::{get, as_str}`:
/// parses the body and hands back the string under its top-level key `id`,
/// or nothing if the body does not parse to a document with one. The result
/// depends on the body text alone.
#[verifier::external_body]
fn response_id(body: &str) -> (r: Option<String>)
    ensures
        r.deep_view() == id_field(body@),
{
    match serde_json::from_str::<serde_json::Value>(body) {
        Ok(value) => match value.get("id") {
            Some(v) => match v.as_str() {
                Some(s) => Some(s.to_owned()),
                None => None,
            },
            None => None,
        },
        Err(_) => None,
    }
}

/// View of a remote operation's outcome.
pub open spec fn sync_result_view(r: Result<String, RemoteError>) -> Result<Seq<char>, RemoteError> {
    match r {
        Ok(id) => Ok(id@),
        Err(e) => Err(e),
    }
}

/// What a remote operation's response means: an error for a non-success
/// status, an error for a success response without an `id`, and otherwise
/// the returned identifier.
pub open spec fn interpret_response_spec(status: u16, id: Option<Seq<char>>) -> Result<
    Seq<char>,
    RemoteError,
> {
    if !(200 <= status < 300) {
        Err(RemoteError::Status { status })
    } else {
        match id {
            Some(s) => Ok(s),
            None => Err(RemoteError::MalformedResponse),
        }
    }
}

/// Decides a remote operation's outcome from its status code and whatever
/// `id` its body carried.
pub fn interpret_response(status: u16, id: Option<String>) -> (r: Result<String, RemoteError>)
    ensures
        sync_result_view(r) == interpret_response_spec(status, id.deep_view()),
{
    if status < 200 || status >= 300 {
        Err(RemoteError::Status { status })
    } else {
        match id {
            Some(s) => Ok(s),
            None => Err(RemoteError::MalformedResponse),
        }
    }
}

/// Interprets a remote operation's response: the identifier under the
/// body's `id` field on a success status, an error otherwise.
pub fn parse_response(status: u16, body: &str) -> (r: Result<String, RemoteError>)
    ensures
        sync_result_view(r) == interpret_response_spec(status, id_field(body@)),
{
    let id = response_id(body);
    interpret_response(status, id)
}

} // verus!
