//! Extension filtering for the directory scanner.
//!
//! The filesystem walk itself enumerates paths outside the library; every
//! decision about which enumerated path is a sync candidate is made here.
//! A path's extension is the part of its final `/`-separated component
//! after the last dot, provided that dot is not the component's first
//! character; matching against the accepted extensions is case-sensitive
//! and exact.

use vstd::prelude::*;

use crate::text::str_eq;

verus! {

/// Index of the last occurrence of `c` in `s`, or -1 if `c` does not occur.
pub open spec fn last_index_of(s: Seq<char>, c: char) -> int
    decreases s.len(),
{
    if s.len() == 0 {
        -1
    } else if s.last() == c {
        s.len() - 1
    } else {
        last_index_of(s.drop_last(), c)
    }
}

/// The extension of the path `p`: the characters after the last dot of the
/// final path component, unless that dot starts the component (a hidden
/// file such as `.gitignore` has no extension) or the component has no dot.
pub open spec fn extension_of(p: Seq<char>) -> Option<Seq<char>> {
    let slash = last_index_of(p, '/');
    let dot = last_index_of(p, '.');
    if dot > slash + 1 {
        Some(p.subrange(dot + 1, p.len() as int))
    } else {
        None
    }
}

/// Whether the path `p` is a sync candidate: it has an extension and that
/// extension is one of the accepted ones (case-sensitive exact match).
pub open spec fn is_source_file_spec(p: Seq<char>, types: Seq<Seq<char>>) -> bool {
    match extension_of(p) {
        Some(ext) => types.contains(ext),
        None => false,
    }
}

/// The sublist of `paths` that are sync candidates, in order.
pub open spec fn filter_source_files_spec(paths: Seq<Seq<char>>, types: Seq<Seq<char>>) -> Seq<
    Seq<char>,
>
    decreases paths.len(),
{
    if paths.len() == 0 {
        Seq::empty()
    } else {
        let rest = filter_source_files_spec(paths.drop_last(), types);
        if is_source_file_spec(paths.last(), types) {
            rest.push(paths.last())
        } else {
            rest
        }
    }
}

/// Extends `last_index_of` by one character on the right.
proof fn lemma_last_index_of_push(s: Seq<char>, x: char, c: char)
    ensures
        last_index_of(s.push(x), c) == if x == c {
            s.len() as int
        } else {
            last_index_of(s, c)
        },
{
    assert(s.push(x).last() == x);
    assert(s.push(x).drop_last() =~= s);
}

/// Reports whether `path` names a file of one of the accepted types.
pub fn is_source_file(path: &str, file_types: &[String]) -> (r: bool)
    ensures
        r == is_source_file_spec(path@, file_types.deep_view()),
{
    let n = path.unicode_len();
    let mut slash: Option<usize> = None;
    let mut dot: Option<usize> = None;
    let mut i: usize = 0;
    while i < n
        invariant
            n == path@.len(),
            i <= n,
            match slash {
                Some(k) => k < i && last_index_of(path@.take(i as int), '/') == k as int,
                None => last_index_of(path@.take(i as int), '/') == -1,
            },
            match dot {
                Some(k) => k < i && last_index_of(path@.take(i as int), '.') == k as int,
                None => last_index_of(path@.take(i as int), '.') == -1,
            },
        decreases n - i,
    {
        let c = path.get_char(i);
        proof {
            assert(path@.take(i + 1).drop_last() =~= path@.take(i as int));
            lemma_last_index_of_push(path@.take(i as int), path@[i as int], '/');
            lemma_last_index_of_push(path@.take(i as int), path@[i as int], '.');
            assert(path@.take(i as int).push(path@[i as int]) =~= path@.take(i + 1));
        }
        if c == '/' {
            slash = Some(i);
        } else if c == '.' {
            dot = Some(i);
        }
        i = i + 1;
    }
    proof {
        assert(path@.take(n as int) =~= path@);
    }
    let dot_idx: usize = match dot {
        Some(k) => k,
        None => {
            return false;
        },
    };
    let starts_component: bool = match slash {
        Some(s) => dot_idx > s + 1,
        None => dot_idx > 0,
    };
    if !starts_component {
        return false;
    }
    let ext = path.substring_char(dot_idx + 1, n);
    let mut j: usize = 0;
    while j < file_types.len()
        invariant
            ext@ == extension_of(path@).unwrap(),
            extension_of(path@) is Some,
            j <= file_types@.len(),
            forall|k: int| 0 <= k < j ==> file_types.deep_view()[k] != ext@,
        decreases file_types@.len() - j,
    {
        if str_eq(ext, file_types[j].as_str()) {
            assert(file_types.deep_view()[j as int] == ext@);
            return true;
        }
        j = j + 1;
    }
    assert(!file_types.deep_view().contains(extension_of(path@).unwrap()));
    false
}

/// Keeps exactly the paths that are sync candidates, in their input order.
pub fn filter_source_files(paths: &Vec<String>, file_types: &[String]) -> (r: Vec<String>)
    ensures
        r.deep_view() == filter_source_files_spec(paths.deep_view(), file_types.deep_view()),
{
    let mut out: Vec<String> = Vec::new();
    let mut i: usize = 0;
    while i < paths.len()
        invariant
            i <= paths@.len(),
            out.deep_view() == filter_source_files_spec(
                paths.deep_view().take(i as int),
                file_types.deep_view(),
            ),
        decreases paths@.len() - i,
    {
        proof {
            assert(paths.deep_view().take(i + 1).drop_last() =~= paths.deep_view().take(i as int));
            assert(paths.deep_view().take(i + 1).last() == paths.deep_view()[i as int]);
        }
        if is_source_file(paths[i].as_str(), file_types) {
            out.push(paths[i].clone());
        }
        i = i + 1;
    }
    proof {
        assert(paths.deep_view().take(paths@.len() as int) =~= paths.deep_view());
    }
    out
}

} // verus!
