//! The mathematical model of buffer text.
//!
//! Text is modelled as a `Seq<char>`. Lines are separated by `'\n'`
//! characters; the line/column position of a character offset is determined
//! by the newlines in the prefix before it. This module defines what it
//! means for a character offset to correspond to a `TextPoint`, and proves
//! the lemmas about splicing text that the edit engine builds on.

use vstd::prelude::*;

use crate::text_range::TextPoint;

verus! {

/// Number of `'\n'` characters in `s`.
pub open spec fn count_nl(s: Seq<char>) -> nat
    decreases s.len(),
{
    if s.len() == 0 {
        0
    } else {
        count_nl(s.drop_last()) + if s.last() == '\n' {
            1nat
        } else {
            0nat
        }
    }
}

/// Number of lines of `s`: one more than the number of line breaks.
pub open spec fn line_count(s: Seq<char>) -> nat {
    count_nl(s) + 1
}

/// Length, in characters, of the longest newline-free suffix of `t`.
pub open spec fn tail_after_nl(t: Seq<char>) -> nat
    decreases t.len(),
{
    if t.len() == 0 {
        0
    } else if t.last() == '\n' {
        0
    } else {
        tail_after_nl(t.drop_last()) + 1
    }
}

/// `o` is the character offset at which line number `line` starts in `s`:
/// it lies just after the `line`-th newline (or at the very beginning), so
/// exactly `line` newlines precede it.
pub open spec fn is_line_start(s: Seq<char>, line: nat, o: int) -> bool {
    &&& 0 <= o <= s.len()
    &&& count_nl(s.take(o)) == line
    &&& (o == 0 || s[o - 1] == '\n')
}

/// `o` is the character offset of the point `p` in `s`: the start of line
/// `p.line` lies `p.col` characters before `o`, with no line break in
/// between.
pub open spec fn is_offset_of(s: Seq<char>, p: TextPoint, o: int) -> bool {
    &&& 0 <= o <= s.len()
    &&& o - p.col >= 0
    &&& is_line_start(s, p.line as nat, o - p.col)
    &&& forall|j: int| o - p.col <= j < o ==> s[j] != '\n'
}

/// `p` denotes a position of `s`: its line exists and its column does not
/// run past the end of that line.
pub open spec fn valid_point(s: Seq<char>, p: TextPoint) -> bool {
    exists|o: int| is_offset_of(s, p, o)
}

/// The result of replacing the characters of `s` between offsets `a` and
/// `b` with `t`.
pub open spec fn splice(s: Seq<char>, a: int, b: int, t: Seq<char>) -> Seq<char> {
    s.take(a) + t + s.skip(b)
}

/// Line of the cursor that lands immediately after inserting `t` at `p`.
pub open spec fn end_line_after(p: TextPoint, t: Seq<char>) -> int {
    p.line + count_nl(t)
}

/// Column of the cursor that lands immediately after inserting `t` at `p`.
pub open spec fn end_col_after(p: TextPoint, t: Seq<char>) -> int {
    if count_nl(t) == 0 {
        p.col + t.len()
    } else {
        tail_after_nl(t) as int
    }
}

/// Counting newlines distributes over concatenation.
pub proof fn lemma_count_nl_concat(a: Seq<char>, b: Seq<char>)
    ensures
        count_nl(a + b) == count_nl(a) + count_nl(b),
    decreases b.len(),
{
    if b.len() == 0 {
        assert(a + b =~= a);
    } else {
        assert((a + b).drop_last() =~= a + b.drop_last());
        assert((a + b).last() == b.last());
        lemma_count_nl_concat(a, b.drop_last());
    }
}

/// Extending a prefix by one character adds that character's newline count.
pub proof fn lemma_count_nl_take_succ(s: Seq<char>, i: int)
    requires
        0 <= i < s.len(),
    ensures
        count_nl(s.take(i + 1)) == count_nl(s.take(i)) + if s[i] == '\n' {
            1nat
        } else {
            0nat
        },
{
    assert(s.take(i + 1).drop_last() =~= s.take(i));
    assert(s.take(i + 1).last() == s[i]);
}

/// A sequence with no newline count has no newline character, and the other
/// way round.
pub proof fn lemma_count_nl_zero(s: Seq<char>)
    ensures
        count_nl(s) == 0 <==> (forall|j: int| 0 <= j < s.len() ==> s[j] != '\n'),
    decreases s.len(),
{
    if s.len() > 0 {
        lemma_count_nl_zero(s.drop_last());
        assert(forall|j: int| 0 <= j < s.len() - 1 ==> s.drop_last()[j] == s[j]);
        if s.last() != '\n' && count_nl(s.drop_last()) == 0 {
            assert(forall|j: int| 0 <= j < s.len() ==> s[j] != '\n') by {
                assert(forall|j: int| 0 <= j < s.len() - 1 ==> s[j] == s.drop_last()[j]);
                assert(s[s.len() - 1] != '\n');
            }
        }
    }
}

/// If no newline occurs between offsets `a` and `b`, both prefixes hold the
/// same number of newlines.
pub proof fn lemma_count_nl_flat_range(s: Seq<char>, a: int, b: int)
    requires
        0 <= a <= b <= s.len(),
        forall|j: int| a <= j < b ==> s[j] != '\n',
    ensures
        count_nl(s.take(b)) == count_nl(s.take(a)),
    decreases b - a,
{
    if a < b {
        lemma_count_nl_flat_range(s, a, b - 1);
        lemma_count_nl_take_succ(s, b - 1);
    }
}

/// Newline counts of prefixes never decrease as the prefix grows.
pub proof fn lemma_count_nl_take_monotone(s: Seq<char>, a: int, b: int)
    requires
        0 <= a <= b <= s.len(),
    ensures
        count_nl(s.take(a)) <= count_nl(s.take(b)),
    decreases b - a,
{
    if a < b {
        lemma_count_nl_take_monotone(s, a, b - 1);
        lemma_count_nl_take_succ(s, b - 1);
    }
}

/// Each line has exactly one start offset.
pub proof fn lemma_line_start_unique(s: Seq<char>, line: nat, o1: int, o2: int)
    requires
        is_line_start(s, line, o1),
        is_line_start(s, line, o2),
    ensures
        o1 == o2,
{
    if o1 < o2 {
        lemma_count_nl_take_monotone(s, o1, o2 - 1);
        lemma_count_nl_take_succ(s, o2 - 1);
    } else if o2 < o1 {
        lemma_count_nl_take_monotone(s, o2, o1 - 1);
        lemma_count_nl_take_succ(s, o1 - 1);
    }
}

/// Each point has exactly one character offset.
pub proof fn lemma_offset_unique(s: Seq<char>, p: TextPoint, o1: int, o2: int)
    requires
        is_offset_of(s, p, o1),
        is_offset_of(s, p, o2),
    ensures
        o1 == o2,
{
    lemma_line_start_unique(s, p.line as nat, o1 - p.col, o2 - p.col);
}

/// The line of a point is the number of newlines before its offset.
pub proof fn lemma_offset_line(s: Seq<char>, p: TextPoint, o: int)
    requires
        is_offset_of(s, p, o),
    ensures
        count_nl(s.take(o)) == p.line,
{
    lemma_count_nl_flat_range(s, o - p.col, o);
}

/// A point's offset only depends on the text before it: if two texts agree
/// on a prefix that covers the offset, the point addresses it in both.
pub proof fn lemma_offset_prefix(s1: Seq<char>, s2: Seq<char>, p: TextPoint, o: int, a: int)
    requires
        is_offset_of(s1, p, o),
        o <= a <= s1.len(),
        a <= s2.len(),
        s1.take(a) == s2.take(a),
    ensures
        is_offset_of(s2, p, o),
{
    assert forall|j: int| 0 <= j < a implies s1[j] == s2[j] by {
        assert(s1.take(a)[j] == s1[j]);
        assert(s2.take(a)[j] == s2[j]);
    }
    assert(s1.take(o - p.col) =~= s2.take(o - p.col));
}

/// Shortening the column within a line keeps the point valid.
pub proof fn lemma_valid_col_shrink(s: Seq<char>, p: TextPoint, c: usize)
    requires
        valid_point(s, p),
        c <= p.col,
    ensures
        valid_point(s, TextPoint { line: p.line, col: c }),
{
    let o = choose|o: int| is_offset_of(s, p, o);
    assert(is_offset_of(s, TextPoint { line: p.line, col: c }, o - p.col + c));
}

/// The newline-free suffix of `t` is never longer than `t`.
pub proof fn lemma_tail_bound(t: Seq<char>)
    ensures
        tail_after_nl(t) <= t.len(),
    decreases t.len(),
{
    if t.len() > 0 {
        lemma_tail_bound(t.drop_last());
    }
}

/// The suffix counted by `tail_after_nl` holds no newline, and the
/// character just before it, if any, is a newline.
pub proof fn lemma_tail_shape(t: Seq<char>)
    ensures
        tail_after_nl(t) <= t.len(),
        forall|j: int| t.len() - tail_after_nl(t) <= j < t.len() ==> t[j] != '\n',
        count_nl(t) > 0 ==> t.len() - tail_after_nl(t) >= 1 && t[t.len() - tail_after_nl(
            t,
        ) - 1] == '\n',
        count_nl(t) == 0 ==> tail_after_nl(t) == t.len(),
    decreases t.len(),
{
    lemma_tail_bound(t);
    if t.len() > 0 {
        lemma_tail_shape(t.drop_last());
        assert(forall|j: int| 0 <= j < t.len() - 1 ==> t.drop_last()[j] == t[j]);
        if t.last() != '\n' {
            assert(t.drop_last().len() == t.len() - 1);
        }
    }
}

/// The newlines of `t` all lie before its newline-free suffix.
pub proof fn lemma_tail_count(t: Seq<char>)
    ensures
        count_nl(t.take(t.len() - tail_after_nl(t))) == count_nl(t),
{
    lemma_tail_shape(t);
    let cut = t.len() - tail_after_nl(t);
    assert(t.take(t.len() as int) =~= t);
    lemma_count_nl_flat_range(t, cut, t.len() as int);
}

/// There are never more newlines than characters.
pub proof fn lemma_count_nl_le_len(s: Seq<char>)
    ensures
        count_nl(s) <= s.len(),
    decreases s.len(),
{
    if s.len() > 0 {
        lemma_count_nl_le_len(s.drop_last());
    }
}

/// The first newline at or after offset `i`, or the end of the text.
pub open spec fn next_nl(s: Seq<char>, i: int) -> int
    decreases s.len() - i,
    when 0 <= i <= s.len()
{
    if i >= s.len() {
        i
    } else if s[i] == '\n' {
        i
    } else {
        next_nl(s, i + 1)
    }
}

/// `next_nl` is the unique offset bounding a newline-free run.
pub proof fn lemma_next_nl_at(s: Seq<char>, i: int, e: int)
    requires
        0 <= i <= e <= s.len(),
        forall|j: int| i <= j < e ==> s[j] != '\n',
        e == s.len() || s[e] == '\n',
    ensures
        next_nl(s, i) == e,
    decreases e - i,
{
    if i < e {
        lemma_next_nl_at(s, i + 1, e);
    }
}

/// The offset at which a line starts; meaningful for lines that exist.
pub open spec fn line_start_spec(s: Seq<char>, line: usize) -> int {
    choose|ls: int| is_line_start(s, line as nat, ls)
}

/// The length of a line in characters, line break not counted.
pub open spec fn line_len_spec(s: Seq<char>, line: usize) -> int {
    next_nl(s, line_start_spec(s, line)) - line_start_spec(s, line)
}

/// UTF-8 encoding distributes over concatenation.
pub proof fn lemma_encode_utf8_concat(a: Seq<char>, b: Seq<char>)
    ensures
        vstd::utf8::encode_utf8(a + b) =~= vstd::utf8::encode_utf8(a) + vstd::utf8::encode_utf8(
            b,
        ),
    decreases a.len(),
{
    if a.len() == 0 {
        assert(a + b =~= b);
        assert(vstd::utf8::encode_utf8(a) =~= Seq::<u8>::empty());
    } else {
        assert((a + b).drop_first() =~= a.drop_first() + b);
        lemma_encode_utf8_concat(a.drop_first(), b);
    }
}

/// A longer prefix never has a shorter UTF-8 encoding.
pub proof fn lemma_encode_take_monotone(s: Seq<char>, i: int, j: int)
    requires
        0 <= i <= j <= s.len(),
    ensures
        vstd::utf8::encode_utf8(s.take(i)).len() <= vstd::utf8::encode_utf8(s.take(j)).len(),
{
    assert(s.take(j) =~= s.take(i) + s.subrange(i, j));
    lemma_encode_utf8_concat(s.take(i), s.subrange(i, j));
}

/// Splicing `t` in place of the span `[a, b)` and then splicing the removed
/// characters back in restores the original text.
pub proof fn lemma_splice_round_trip(s: Seq<char>, a: int, b: int, t: Seq<char>)
    requires
        0 <= a <= b <= s.len(),
    ensures
        splice(splice(s, a, b, t), a, a + t.len(), s.subrange(a, b)) =~= s,
{
}

/// After splicing, the start point of the edit still addresses offset `a`.
pub proof fn lemma_offset_after_splice_start(
    s: Seq<char>,
    p: TextPoint,
    a: int,
    b: int,
    t: Seq<char>,
)
    requires
        is_offset_of(s, p, a),
        a <= b <= s.len(),
    ensures
        is_offset_of(splice(s, a, b, t), p, a),
{
    let s2 = splice(s, a, b, t);
    assert(s.take(a) =~= s2.take(a));
    lemma_offset_prefix(s, s2, p, a, a);
}

/// After inserting `t` at a point with offset `a`, the cursor position
/// `end_line_after`/`end_col_after` addresses the offset just after the
/// inserted text.
pub proof fn lemma_offset_after_splice_end(
    s: Seq<char>,
    p: TextPoint,
    q: TextPoint,
    a: int,
    b: int,
    t: Seq<char>,
)
    requires
        is_offset_of(s, p, a),
        a <= b <= s.len(),
        q.line == end_line_after(p, t),
        q.col == end_col_after(p, t),
    ensures
        is_offset_of(splice(s, a, b, t), q, a + t.len()),
{
    let s2 = splice(s, a, b, t);
    assert(s2.len() == a + t.len() + (s.len() - b));
    assert(forall|j: int| 0 <= j < a ==> s2[j] == s[j]) by {
        assert(forall|j: int| 0 <= j < a ==> s2[j] == s.take(a)[j]);
    }
    assert(forall|j: int| 0 <= j < t.len() ==> s2[a + j] == t[j]);
    lemma_tail_shape(t);
    if count_nl(t) == 0 {
        let ls = a - p.col;
        assert(s2.take(ls) =~= s.take(ls));
        lemma_count_nl_zero(t);
        assert(is_line_start(s2, p.line as nat, ls));
        assert(forall|j: int| ls <= j < a + t.len() ==> s2[j] != '\n') by {
            assert(forall|j: int| ls <= j < a ==> s2[j] == s[j]);
            assert(forall|j: int| a <= j < a + t.len() ==> s2[j] == t[j - a]);
        }
        assert(is_offset_of(s2, q, a + t.len()));
    } else {
        let cut = t.len() - tail_after_nl(t);
        let ls = a + cut;
        assert(s2.take(ls) =~= s.take(a) + t.take(cut));
        lemma_count_nl_concat(s.take(a), t.take(cut));
        lemma_tail_count(t);
        lemma_offset_line(s, p, a);
        assert(s.take(a).take(a) =~= s.take(a));
        assert(count_nl(s2.take(ls)) == p.line + count_nl(t));
        assert(s2[ls - 1] == t[cut - 1]);
        assert(is_line_start(s2, (p.line + count_nl(t)) as nat, ls));
        assert(forall|j: int| ls <= j < a + t.len() ==> s2[j] != '\n') by {
            assert(forall|j: int| ls <= j < a + t.len() ==> s2[j] == t[j - a]);
        }
        assert(is_offset_of(s2, q, a + t.len()));
    }
}

} // verus!
