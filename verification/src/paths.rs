use vstd::prelude::*;

verus! {

use vstd::string::StrSliceExecFns;
use vstd::string::StringExecFns;

/// The index of the last occurrence of `c` in `s`, or -1 when `c` does not
/// occur. Paths are modelled as plain text whose components are separated by
/// `/`.
pub open spec fn last_of(s: Seq<char>, c: char) -> int
    decreases s.len(),
{
    if s.len() == 0 {
        -1
    } else if s.last() == c {
        s.len() - 1
    } else {
        last_of(s.drop_last(), c)
    }
}

proof fn lemma_last_of_bounds(s: Seq<char>, c: char)
    ensures
        -1 <= last_of(s, c) < s.len(),
        last_of(s, c) >= 0 ==> s[last_of(s, c)] == c,
        forall|k: int| last_of(s, c) < k < s.len() ==> s[k] != c,
    decreases s.len(),
{
    if s.len() > 0 && s.last() != c {
        lemma_last_of_bounds(s.drop_last(), c);
        assert forall|k: int| last_of(s, c) < k < s.len() implies s[k] != c by {
            if k < s.len() - 1 {
                assert(s[k] == s.drop_last()[k]);
            }
        }
    }
}

proof fn lemma_last_of_none(s: Seq<char>, c: char)
    requires
        forall|k: int| 0 <= k < s.len() ==> s[k] != c,
    ensures
        last_of(s, c) == -1,
    decreases s.len(),
{
    if s.len() > 0 {
        lemma_last_of_none(s.drop_last(), c);
    }
}

proof fn lemma_last_of_at(s: Seq<char>, c: char, m: int)
    requires
        0 <= m < s.len(),
        s[m] == c,
        forall|k: int| m < k < s.len() ==> s[k] != c,
    ensures
        last_of(s, c) == m,
    decreases s.len(),
{
    if m < s.len() - 1 {
        lemma_last_of_at(s.drop_last(), c, m);
    }
}

/// The index of the last occurrence of `c` in `s`, as `last_of` says.
fn rfind_char(s: &str, c: char) -> (r: Option<usize>)
    ensures
        match r {
            Some(i) => i == last_of(s@, c) && i < s@.len(),
            None => last_of(s@, c) == -1,
        },
{
    let n = s.unicode_len();
    let mut j = n;
    while j > 0
        invariant
            j <= n,
            n == s@.len(),
            forall|k: int| j <= k < n ==> s@[k] != c,
        decreases j,
    {
        j = j - 1;
        if s.get_char(j) == c {
            proof {
                lemma_last_of_at(s@, c, j as int);
            }
            return Some(j);
        }
    }
    proof {
        lemma_last_of_none(s@, c);
    }
    None
}

/// What removing the last component leaves of a path: everything before the
/// last `/`, the root `/` alone when that slash is the first character, and
/// empty text when the path has no slash at all.
pub open spec fn parent_of(p: Seq<char>) -> Seq<char> {
    let ls = last_of(p, '/');
    if ls <= 0 {
        p.subrange(0, ls + 1)
    } else {
        p.subrange(0, ls)
    }
}

/// The component after the last `/`, or the whole path when it has none.
pub open spec fn file_name_of(p: Seq<char>) -> Seq<char> {
    p.subrange(last_of(p, '/') + 1, p.len() as int)
}

/// Whether the path ends in a usable file name: one that is not empty and is
/// neither of the relative components `.` and `..`.
pub open spec fn has_stem(p: Seq<char>) -> bool {
    file_name_of(p).len() > 0 && file_name_of(p) != seq!['.'] && file_name_of(p) != seq!['.', '.']
}

/// A file name without its extension: everything before its last `.`, except
/// that a name whose only `.` leads (a hidden file) is kept whole.
pub open spec fn stem_of(name: Seq<char>) -> Seq<char> {
    let ld = last_of(name, '.');
    if ld <= 0 {
        name
    } else {
        name.subrange(0, ld)
    }
}

/// The path with the extension of its file name stripped.
pub open spec fn stripped_of(p: Seq<char>) -> Seq<char> {
    p.subrange(0, last_of(p, '/') + 1) + stem_of(file_name_of(p))
}

/// The sibling path used when the stripped path is already taken: the file
/// stem with `_extracted` appended, next to the archive.
pub open spec fn extracted_of(p: Seq<char>) -> Seq<char> {
    p.subrange(0, last_of(p, '/') + 1) + stem_of(file_name_of(p)) + "_extracted"@
}

/// The parent directory of a path, as `parent_of` says.
pub fn parent_path(path: &str) -> (r: String)
    ensures
        r@ == parent_of(path@),
{
    proof {
        lemma_last_of_bounds(path@, '/');
    }
    match rfind_char(path, '/') {
        Some(i) => {
            if i == 0 {
                path.substring_char(0, 1).to_owned()
            } else {
                path.substring_char(0, i).to_owned()
            }
        },
        None => path.substring_char(0, 0).to_owned(),
    }
}

/// Whether the path ends in a usable file name, as `has_stem` says.
pub fn path_has_stem(path: &str) -> (r: bool)
    ensures
        r == has_stem(path@),
{
    proof {
        lemma_last_of_bounds(path@, '/');
    }
    let n = path.unicode_len();
    let start = match rfind_char(path, '/') {
        Some(i) => i + 1,
        None => 0,
    };
    let len = n - start;
    if len == 0 {
        proof {
            assert(file_name_of(path@).len() == 0);
        }
        false
    } else if len == 1 && path.get_char(start) == '.' {
        proof {
            assert(file_name_of(path@) =~= seq!['.']);
        }
        false
    } else if len == 2 && path.get_char(start) == '.' && path.get_char(start + 1) == '.' {
        proof {
            assert(file_name_of(path@) =~= seq!['.', '.']);
        }
        false
    } else {
        proof {
            let name = file_name_of(path@);
            assert(name.len() == len);
            assert(forall|k: int| 0 <= k < name.len() ==> name[k] == path@[start + k]);
            if name == seq!['.'] {
                assert(name[0] == '.');
                assert(false);
            }
            if name == seq!['.', '.'] {
                assert(name[0] == '.' && name[1] == '.');
                assert(false);
            }
        }
        true
    }
}

/// The end, as a character index into the whole path, of the file stem of
/// `path`: the prefix of the path up to this index is `stripped_of(path)`.
fn stem_end(path: &str) -> (r: usize)
    ensures
        r <= path@.len(),
        path@.subrange(0, r as int) == stripped_of(path@),
{
    proof {
        lemma_last_of_bounds(path@, '/');
    }
    let n = path.unicode_len();
    let start = match rfind_char(path, '/') {
        Some(i) => i + 1,
        None => 0,
    };
    let name = path.substring_char(start, n);
    proof {
        assert(name@ =~= file_name_of(path@));
        lemma_last_of_bounds(name@, '.');
    }
    let e = match rfind_char(name, '.') {
        Some(i) => if i > 0 {
            start + i
        } else {
            n
        },
        None => n,
    };
    proof {
        assert(path@.subrange(0, e as int) =~= stripped_of(path@));
    }
    e
}

/// The path with its extension stripped, as `stripped_of` says.
pub fn stripped_path(path: &str) -> (r: String)
    ensures
        r@ == stripped_of(path@),
{
    let e = stem_end(path);
    path.substring_char(0, e).to_owned()
}

/// The fallback destination beside the archive, as `extracted_of` says.
pub fn extracted_path(path: &str) -> (r: String)
    ensures
        r@ == extracted_of(path@),
{
    let e = stem_end(path);
    let head = path.substring_char(0, e).to_owned();
    head.concat("_extracted")
}

} // verus!
