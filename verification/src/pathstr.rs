//! Positional string helpers for paths and URLs: the directory prefix of a
//! manifest URL (everything up to and including the last slash), the file
//! name of a path (everything after it), and resolving a relative segment
//! URI against such a prefix.

use vstd::prelude::*;

verus! {

/// The index of the last occurrence of `c` in `s`, or `-1` if there is none.
pub open spec fn last_index_of(s: Seq<char>, c: char) -> int
    decreases s.len(),
{
    if s.len() == 0 {
        -1
    } else if s[s.len() - 1] == c {
        s.len() - 1
    } else {
        last_index_of(s.drop_last(), c)
    }
}

/// `last_index_of` stays within the string and lands on `c` when it finds it.
pub proof fn lemma_last_index_of_bounds(s: Seq<char>, c: char)
    ensures
        -1 <= last_index_of(s, c) < s.len(),
        last_index_of(s, c) >= 0 ==> s[last_index_of(s, c)] == c,
    decreases s.len(),
{
    if s.len() > 0 && s[s.len() - 1] != c {
        lemma_last_index_of_bounds(s.drop_last(), c);
        assert(forall|i: int| 0 <= i < s.len() - 1 ==> s.drop_last()[i] == s[i]);
    }
}

/// The directory prefix of a URL or path: everything up to and including the
/// last slash, or empty if there is no slash.
pub open spec fn dir_prefix(s: Seq<char>) -> Seq<char> {
    s.subrange(0, last_index_of(s, '/') + 1)
}

/// The file name of a URL or path: everything after the last slash, or the
/// whole string if there is no slash.
pub open spec fn file_name(s: Seq<char>) -> Seq<char> {
    s.subrange(last_index_of(s, '/') + 1, s.len() as int)
}

/// The index of the last slash in `s`, if there is one.
fn find_last_slash(s: &str) -> (r: Option<usize>)
    ensures
        match r {
            Option::Some(i) => i == last_index_of(s@, '/'),
            Option::None => last_index_of(s@, '/') == -1,
        },
{
    let n = s.unicode_len();
    let mut best: Option<usize> = Option::None;
    let mut i: usize = 0;
    while i < n
        invariant
            0 <= i <= n,
            n == s@.len(),
            match best {
                Option::Some(b) => b == last_index_of(s@.subrange(0, i as int), '/'),
                Option::None => last_index_of(s@.subrange(0, i as int), '/') == -1,
            },
        decreases n - i,
    {
        let ghost pre = s@.subrange(0, i as int);
        let c = s.get_char(i);
        if c == '/' {
            best = Option::Some(i);
        }
        proof {
            let post = s@.subrange(0, i + 1 as int);
            assert(post.drop_last() =~= pre);
            assert(post[post.len() - 1] == s@[i as int]);
        }
        i = i + 1;
    }
    proof {
        assert(s@.subrange(0, n as int) =~= s@);
    }
    best
}

/// The directory prefix of a URL or path, as a fresh string.
pub fn dir_prefix_of(s: &str) -> (b: String)
    ensures
        b@ == dir_prefix(s@),
{
    proof {
        lemma_last_index_of_bounds(s@, '/');
    }
    let n = s.unicode_len();
    match find_last_slash(s) {
        Option::Some(i) => String::from_str(s.substring_char(0, i + 1)),
        Option::None => {
            let b = String::new();
            proof {
                assert(b@ =~= dir_prefix(s@));
            }
            b
        },
    }
}

/// The file name of a URL or path, as a fresh string.
pub fn file_name_of(s: &str) -> (b: String)
    ensures
        b@ == file_name(s@),
{
    proof {
        lemma_last_index_of_bounds(s@, '/');
    }
    let n = s.unicode_len();
    match find_last_slash(s) {
        Option::Some(i) => String::from_str(s.substring_char(i + 1, n)),
        Option::None => {
            let b = String::from_str(s);
            proof {
                assert(b@ =~= file_name(s@));
            }
            b
        },
    }
}

/// A relative URI resolved against a directory prefix: their concatenation.
pub fn resolve_uri(base: &str, uri: &str) -> (r: String)
    ensures
        r@ == base@ + uri@,
{
    let s = String::from_str(base);
    s.concat(uri)
}

} // verus!
