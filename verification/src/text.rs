use vstd::prelude::*;

verus! {

use vstd::string::StrSliceExecFns;

/// The characters that trimming removes from the ends of a dictionary line:
/// the Unicode white-space characters.
pub open spec fn is_space(c: char) -> bool {
    c == ' ' || c == '\t' || c == '\n' || c == '\u{b}' || c == '\u{c}' || c == '\r'
        || c == '\u{85}' || c == '\u{a0}' || c == '\u{1680}'
        || (0x2000 <= c as u32 && c as u32 <= 0x200a)
        || c == '\u{2028}' || c == '\u{2029}' || c == '\u{202f}' || c == '\u{205f}'
        || c == '\u{3000}'
}

/// Decides `is_space`.
pub fn is_space_char(c: char) -> (r: bool)
    ensures
        r == is_space(c),
{
    let u = c as u32;
    c == ' ' || c == '\t' || c == '\n' || c == '\u{b}' || c == '\u{c}' || c == '\r'
        || c == '\u{85}' || c == '\u{a0}' || c == '\u{1680}'
        || (0x2000 <= u && u <= 0x200a)
        || c == '\u{2028}' || c == '\u{2029}' || c == '\u{202f}' || c == '\u{205f}'
        || c == '\u{3000}'
}

/// A line with its leading white space removed.
pub open spec fn trim_start_rec(s: Seq<char>) -> Seq<char>
    decreases s.len(),
{
    if s.len() > 0 && is_space(s[0]) {
        trim_start_rec(s.drop_first())
    } else {
        s
    }
}

/// A line with its trailing white space removed.
pub open spec fn trim_end_rec(s: Seq<char>) -> Seq<char>
    decreases s.len(),
{
    if s.len() > 0 && is_space(s.last()) {
        trim_end_rec(s.drop_last())
    } else {
        s
    }
}

/// A line with white space removed from both ends.
pub open spec fn trim_spec(s: Seq<char>) -> Seq<char> {
    trim_end_rec(trim_start_rec(s))
}

proof fn lemma_trim_start_skip(s: Seq<char>, i: int)
    requires
        0 <= i <= s.len(),
        forall|k: int| 0 <= k < i ==> is_space(s[k]),
    ensures
        trim_start_rec(s) == trim_start_rec(s.subrange(i, s.len() as int)),
    decreases i,
{
    if i == 0 {
        assert(s.subrange(0, s.len() as int) =~= s);
    } else {
        let t = s.drop_first();
        assert(t =~= s.subrange(1, s.len() as int));
        lemma_trim_start_skip(t, i - 1);
        assert(t.subrange(i - 1, t.len() as int) =~= s.subrange(i, s.len() as int));
    }
}

proof fn lemma_trim_end_skip(s: Seq<char>, j: int)
    requires
        0 <= j <= s.len(),
        forall|k: int| j <= k < s.len() ==> is_space(s[k]),
    ensures
        trim_end_rec(s) == trim_end_rec(s.subrange(0, j)),
    decreases s.len() - j,
{
    if j == s.len() {
        assert(s.subrange(0, s.len() as int) =~= s);
    } else {
        let t = s.drop_last();
        assert(t =~= s.subrange(0, s.len() - 1));
        lemma_trim_end_skip(t, j);
        assert(t.subrange(0, j) =~= s.subrange(0, j));
    }
}

/// Removes white space from both ends of a line, as `trim_spec` says.
pub fn trim(s: &str) -> (r: String)
    ensures
        r@ == trim_spec(s@),
{
    let n = s.unicode_len();
    let mut b: usize = 0;
    while b < n && is_space_char(s.get_char(b))
        invariant
            b <= n,
            n == s@.len(),
            forall|k: int| 0 <= k < b ==> is_space(s@[k]),
        decreases n - b,
    {
        b = b + 1;
    }
    let mut e: usize = n;
    while e > b && is_space_char(s.get_char(e - 1))
        invariant
            b <= e <= n,
            n == s@.len(),
            forall|k: int| e <= k < n ==> is_space(s@[k]),
        decreases e,
    {
        e = e - 1;
    }
    proof {
        lemma_trim_start_skip(s@, b as int);
        let t = s@.subrange(b as int, n as int);
        assert(trim_start_rec(t) == t);
        lemma_trim_end_skip(t, e - b);
        assert(t.subrange(0, e - b) =~= s@.subrange(b as int, e as int));
        assert(trim_end_rec(s@.subrange(b as int, e as int)) == s@.subrange(b as int, e as int));
    }
    s.substring_char(b, e).to_owned()
}

/// The pieces that a text falls into at its line breaks, in order; an empty
/// text is one empty piece, and a trailing line break ends with an empty piece.
pub open spec fn split_lines(s: Seq<char>) -> Seq<Seq<char>>
    decreases s.len(),
{
    if s.len() == 0 {
        seq![Seq::<char>::empty()]
    } else if s.last() == '\n' {
        split_lines(s.drop_last()).push(Seq::<char>::empty())
    } else {
        let rest = split_lines(s.drop_last());
        rest.update(rest.len() - 1, rest.last().push(s.last()))
    }
}

/// `split_lines` never yields an empty sequence of pieces.
pub proof fn lemma_split_lines_len(s: Seq<char>)
    ensures
        split_lines(s).len() >= 1,
    decreases s.len(),
{
    if s.len() > 0 {
        lemma_split_lines_len(s.drop_last());
    }
}

/// The lines of a text, each trimmed of surrounding white space.
pub open spec fn trimmed_lines(s: Seq<char>) -> Seq<Seq<char>> {
    split_lines(s).map_values(|l: Seq<char>| trim_spec(l))
}

/// Splits a text at its line breaks and trims each line, as `trimmed_lines`
/// says.
pub fn split_trimmed_lines(s: &str) -> (r: Vec<String>)
    ensures
        r@.len() == trimmed_lines(s@).len(),
        forall|i: int| 0 <= i < r@.len() ==> r@[i]@ == trimmed_lines(s@)[i],
{
    let n = s.unicode_len();
    let mut result: Vec<String> = Vec::new();
    let mut start: usize = 0;
    let mut i: usize = 0;
    while i < n
        invariant
            start <= i <= n,
            n == s@.len(),
            split_lines(s@.subrange(0, i as int)).len() == result@.len() + 1,
            forall|j: int| 0 <= j < result@.len() ==> result@[j]@ == trim_spec(
                split_lines(s@.subrange(0, i as int))[j],
            ),
            split_lines(s@.subrange(0, i as int)).last() == s@.subrange(start as int, i as int),
        decreases n - i,
    {
        let ghost pre = s@.subrange(0, i as int);
        proof {
            lemma_split_lines_len(pre);
            assert(s@.subrange(0, i + 1).drop_last() =~= pre);
        }
        let c = s.get_char(i);
        if c == '\n' {
            let piece = trim(s.substring_char(start, i));
            result.push(piece);
            start = i + 1;
            proof {
                assert(split_lines(s@.subrange(0, i + 1)) == split_lines(pre).push(
                    Seq::<char>::empty(),
                ));
                assert(s@.subrange(start as int, i + 1) =~= Seq::<char>::empty());
            }
        } else {
            proof {
                let rest = split_lines(pre);
                assert(split_lines(s@.subrange(0, i + 1)) == rest.update(
                    rest.len() - 1,
                    rest.last().push(s@[i as int]),
                ));
                assert(rest.last().push(s@[i as int]) =~= s@.subrange(start as int, i + 1));
            }
        }
        i = i + 1;
    }
    proof {
        assert(s@.subrange(0, n as int) =~= s@);
        lemma_split_lines_len(s@);
    }
    let piece = trim(s.substring_char(start, n));
    result.push(piece);
    proof {
        assert(forall|j: int|
            0 <= j < trimmed_lines(s@).len() ==> trimmed_lines(s@)[j] == trim_spec(
                split_lines(s@)[j],
            ));
    }
    result
}

/// The views of a sequence of owned strings.
pub open spec fn views_of(ss: Seq<String>) -> Seq<Seq<char>> {
    ss.map_values(|s: String| s@)
}

/// Lexicographic order on text, by code point: the empty text comes first, and
/// otherwise the first differing character decides.
pub open spec fn lex_le(a: Seq<char>, b: Seq<char>) -> bool
    decreases a.len(),
{
    if a.len() == 0 {
        true
    } else if b.len() == 0 {
        false
    } else if (a[0] as u32) < (b[0] as u32) {
        true
    } else if (b[0] as u32) < (a[0] as u32) {
        false
    } else {
        lex_le(a.drop_first(), b.drop_first())
    }
}

proof fn lemma_lex_skip(a: Seq<char>, b: Seq<char>, i: int)
    requires
        0 <= i <= a.len(),
        i <= b.len(),
        forall|k: int| 0 <= k < i ==> a[k] == b[k],
    ensures
        lex_le(a, b) == lex_le(a.subrange(i, a.len() as int), b.subrange(i, b.len() as int)),
    decreases i,
{
    if i == 0 {
        assert(a.subrange(0, a.len() as int) =~= a);
        assert(b.subrange(0, b.len() as int) =~= b);
    } else {
        let ta = a.drop_first();
        let tb = b.drop_first();
        assert(ta =~= a.subrange(1, a.len() as int));
        assert(tb =~= b.subrange(1, b.len() as int));
        lemma_lex_skip(ta, tb, i - 1);
        assert(ta.subrange(i - 1, ta.len() as int) =~= a.subrange(i, a.len() as int));
        assert(tb.subrange(i - 1, tb.len() as int) =~= b.subrange(i, b.len() as int));
    }
}

/// Decides `lex_le`.
pub fn lex_le_str(a: &str, b: &str) -> (r: bool)
    ensures
        r == lex_le(a@, b@),
{
    let na = a.unicode_len();
    let nb = b.unicode_len();
    let mut i: usize = 0;
    while i < na && i < nb
        invariant
            i <= na,
            i <= nb,
            na == a@.len(),
            nb == b@.len(),
            forall|k: int| 0 <= k < i ==> a@[k] == b@[k],
        decreases na - i,
    {
        let ca = a.get_char(i);
        let cb = b.get_char(i);
        if (ca as u32) < (cb as u32) {
            proof {
                lemma_lex_skip(a@, b@, i as int);
            }
            return true;
        }
        if (cb as u32) < (ca as u32) {
            proof {
                lemma_lex_skip(a@, b@, i as int);
            }
            return false;
        }
        i = i + 1;
    }
    proof {
        lemma_lex_skip(a@, b@, i as int);
    }
    i == na
}

/// Where a new line belongs in an already ordered run of lines: before the
/// first line it compares less-or-equal to.
pub open spec fn insert_sorted(x: Seq<char>, s: Seq<Seq<char>>) -> Seq<Seq<char>>
    decreases s.len(),
{
    if s.len() == 0 {
        seq![x]
    } else if lex_le(x, s[0]) {
        seq![x] + s
    } else {
        seq![s[0]] + insert_sorted(x, s.drop_first())
    }
}

proof fn lemma_insert_sorted_at(x: Seq<char>, s: Seq<Seq<char>>, j: int)
    requires
        0 <= j <= s.len(),
        forall|k: int| 0 <= k < j ==> !lex_le(x, s[k]),
        j < s.len() ==> lex_le(x, s[j]),
    ensures
        insert_sorted(x, s) == s.insert(j, x),
    decreases s.len(),
{
    if s.len() == 0 {
        assert(s.insert(0, x) =~= seq![x]);
    } else if lex_le(x, s[0]) {
        assert(j == 0);
        assert(s.insert(0, x) =~= seq![x] + s);
    } else {
        let t = s.drop_first();
        assert(forall|k: int| 0 <= k < t.len() ==> t[k] == s[k + 1]);
        lemma_insert_sorted_at(x, t, j - 1);
        assert(s.insert(j, x) =~= seq![s[0]] + t.insert(j - 1, x));
    }
}

/// The lines sorted by `lex_le`, inserting one line at a time.
pub open spec fn sort_lines(s: Seq<Seq<char>>) -> Seq<Seq<char>>
    decreases s.len(),
{
    if s.len() == 0 {
        Seq::empty()
    } else {
        insert_sorted(s.last(), sort_lines(s.drop_last()))
    }
}

/// The lines with each run of equal adjacent lines collapsed to one.
pub open spec fn dedup_adj(s: Seq<Seq<char>>) -> Seq<Seq<char>>
    decreases s.len(),
{
    if s.len() <= 1 {
        s
    } else if s.last() == s[s.len() - 2] {
        dedup_adj(s.drop_last())
    } else {
        dedup_adj(s.drop_last()).push(s.last())
    }
}

/// The lines joined back into one text with a line break between each pair.
pub open spec fn join_lines(lines: Seq<Seq<char>>) -> Seq<char>
    decreases lines.len(),
{
    if lines.len() == 0 {
        Seq::empty()
    } else if lines.len() == 1 {
        lines[0]
    } else {
        join_lines(lines.drop_last()) + seq!['\n'] + lines.last()
    }
}

/// What sanitizing a password text yields: its lines trimmed, ordered by
/// `lex_le`, each run of equal adjacent lines collapsed, and joined back with
/// line breaks.
pub open spec fn sanitize_spec(s: Seq<char>) -> Seq<char> {
    join_lines(dedup_adj(sort_lines(trimmed_lines(s))))
}

/// Places `x` into the ordered run `acc`, as `insert_sorted` says.
fn insert_line(acc: &mut Vec<String>, x: String)
    ensures
        views_of(final(acc)@) == insert_sorted(x@, views_of(old(acc)@)),
{
    let mut j: usize = 0;
    while j < acc.len() && !lex_le_str(x.as_str(), acc[j].as_str())
        invariant
            j <= acc@.len(),
            acc@ == old(acc)@,
            forall|k: int| 0 <= k < j ==> !lex_le(x@, acc@[k]@),
        decreases acc@.len() - j,
    {
        j = j + 1;
    }
    proof {
        lemma_insert_sorted_at(x@, views_of(acc@), j as int);
    }
    acc.insert(j, x);
    proof {
        assert(views_of(acc@) =~= views_of(old(acc)@).insert(j as int, x@));
    }
}

/// Sorts, collapses and rejoins the trimmed lines of a text, as
/// `sanitize_spec` says.
pub fn sanitize_text(s: &str) -> (r: String)
    ensures
        r@ == sanitize_spec(s@),
{
    let lines = split_trimmed_lines(s);
    let ghost all = trimmed_lines(s@);
    proof {
        assert(views_of(lines@) =~= all);
    }
    let mut sorted: Vec<String> = Vec::new();
    let mut i: usize = 0;
    while i < lines.len()
        invariant
            i <= lines@.len(),
            views_of(lines@) == all,
            views_of(sorted@) == sort_lines(all.subrange(0, i as int)),
        decreases lines@.len() - i,
    {
        proof {
            assert(all.subrange(0, i + 1).drop_last() =~= all.subrange(0, i as int));
            assert(all.subrange(0, i + 1).last() == lines@[i as int]@);
        }
        insert_line(&mut sorted, lines[i].clone());
        i = i + 1;
    }
    proof {
        assert(all.subrange(0, all.len() as int) =~= all);
    }
    let mut deduped: Vec<String> = Vec::new();
    let ghost srt = views_of(sorted@);
    let mut i2: usize = 0;
    while i2 < sorted.len()
        invariant
            i2 <= sorted@.len(),
            srt == views_of(sorted@),
            views_of(deduped@) == dedup_adj(srt.subrange(0, i2 as int)),
        decreases sorted@.len() - i2,
    {
        proof {
            assert(srt.subrange(0, i2 + 1).drop_last() =~= srt.subrange(0, i2 as int));
            assert(srt.subrange(0, i2 + 1).last() == sorted@[i2 as int]@);
        }
        if i2 == 0 || !sorted[i2 - 1].eq(&sorted[i2]) {
            deduped.push(sorted[i2].clone());
        }
        i2 = i2 + 1;
    }
    proof {
        assert(srt.subrange(0, srt.len() as int) =~= srt);
    }
    let mut out = String::new();
    let ghost ded = views_of(deduped@);
    let mut i3: usize = 0;
    while i3 < deduped.len()
        invariant
            i3 <= deduped@.len(),
            ded == views_of(deduped@),
            out@ == join_lines(ded.subrange(0, i3 as int)),
        decreases deduped@.len() - i3,
    {
        proof {
            assert(ded.subrange(0, i3 + 1).drop_last() =~= ded.subrange(0, i3 as int));
            assert(ded.subrange(0, i3 + 1).last() == deduped@[i3 as int]@);
            reveal_strlit("\n");
            assert("\n"@ =~= seq!['\n']);
        }
        if i3 > 0 {
            out.append("\n");
        }
        out.append(deduped[i3].as_str());
        i3 = i3 + 1;
    }
    proof {
        assert(ded.subrange(0, ded.len() as int) =~= ded);
    }
    out
}

} // verus!
