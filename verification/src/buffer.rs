//! The text buffer: a `ropey::Rope` seen through the model of
//! [`crate::text_model`].
//!
//! The rope itself is outside code; every call into it goes through a small
//! trusted wrapper whose contract speaks about `rope_text`, the sequence of
//! characters the rope holds. The buffer is built with ropey's default line
//! handling disabled, so the only line break is `'\n'`, exactly as the model
//! assumes. The verified helpers below turn line/column points into
//! character offsets and measure lines, against that model.

use vstd::prelude::*;

use crate::text_model::{
    count_nl, is_line_start, is_offset_of, lemma_line_start_unique, lemma_offset_unique,
    line_count, splice, valid_point,
};
use crate::text_range::TextPoint;

verus! {

#[verifier::external_type_specification]
#[verifier::external_body]
pub struct ExRope(ropey::Rope);

/// The characters a rope holds, in order.
pub uninterp spec fn rope_text(r: ropey::Rope) -> Seq<char>;

/// Relies on `ropey::Rope::from_str`: builds a rope holding exactly the
/// given text.
#[verifier::external_body]
pub fn rope_from_str(s: &str) -> (r: ropey::Rope)
    ensures
        rope_text(r) == s@,
{
    ropey::Rope::from_str(s)
}

/// Relies on `String::from(&Rope)`: writes out the rope's characters.
#[verifier::external_body]
pub fn rope_to_string(r: &ropey::Rope) -> (s: String)
    ensures
        s@ == rope_text(*r),
{
    String::from(r)
}

/// Relies on `ropey::Rope::len_chars`: the number of characters held.
#[verifier::external_body]
pub fn rope_len_chars(r: &ropey::Rope) -> (n: usize)
    ensures
        n == rope_text(*r).len(),
{
    r.len_chars()
}

/// Relies on `ropey::Rope::len_lines`: one more than the number of line
/// breaks (only `'\n'`, since ropey's extra line-break features are off).
#[verifier::external_body]
pub fn rope_len_lines(r: &ropey::Rope) -> (n: usize)
    ensures
        n == line_count(rope_text(*r)),
{
    r.len_lines()
}

/// Relies on `ropey::Rope::char`: the character at a char index.
#[verifier::external_body]
pub fn rope_char(r: &ropey::Rope, i: usize) -> (c: char)
    requires
        i < rope_text(*r).len(),
    ensures
        c == rope_text(*r)[i as int],
{
    r.char(i)
}

/// Relies on `ropey::Rope::line_to_char`: the char index at which a line
/// starts; one past the last line gives the end of the text.
#[verifier::external_body]
pub fn rope_line_to_char(r: &ropey::Rope, line: usize) -> (o: usize)
    requires
        line <= line_count(rope_text(*r)),
    ensures
        line <= count_nl(rope_text(*r)) ==> is_line_start(rope_text(*r), line as nat, o as int),
        line == count_nl(rope_text(*r)) + 1 ==> o == rope_text(*r).len(),
{
    r.line_to_char(line)
}

/// Relies on `ropey::Rope::char_to_byte`: the byte index of a char index,
/// that is, the UTF-8 length of the characters before it.
#[verifier::external_body]
pub fn rope_char_to_byte(r: &ropey::Rope, i: usize) -> (b: usize)
    requires
        i <= rope_text(*r).len(),
    ensures
        b == vstd::utf8::encode_utf8(rope_text(*r).take(i as int)).len(),
{
    r.char_to_byte(i)
}

/// Relies on `ropey::Rope::insert`: splices `text` in at a char index.
#[verifier::external_body]
pub fn rope_insert(r: &mut ropey::Rope, i: usize, text: &str)
    requires
        i <= rope_text(*old(r)).len(),
    ensures
        rope_text(*final(r)) == splice(rope_text(*old(r)), i as int, i as int, text@),
{
    r.insert(i, text)
}

/// Relies on `ropey::Rope::remove`: removes the chars of `[a, b)`.
#[verifier::external_body]
pub fn rope_remove(r: &mut ropey::Rope, a: usize, b: usize)
    requires
        a <= b <= rope_text(*old(r)).len(),
    ensures
        rope_text(*final(r)) == splice(rope_text(*old(r)), a as int, b as int, Seq::empty()),
{
    r.remove(a..b)
}

/// Relies on `ropey::Rope::slice` and `RopeSlice::to_string`: copies out the
/// chars of `[a, b)`.
#[verifier::external_body]
pub fn rope_slice_string(r: &ropey::Rope, a: usize, b: usize) -> (s: String)
    requires
        a <= b <= rope_text(*r).len(),
    ensures
        s@ == rope_text(*r).subrange(a as int, b as int),
{
    r.slice(a..b).to_string()
}

/// The number of leading whitespace characters of a line.
pub fn rope_line_ws(r: &ropey::Rope, line: usize) -> (n: usize)
    requires
        line < line_count(rope_text(*r)),
    ensures
        ({
            let s = rope_text(*r);
            let ls = crate::text_model::line_start_spec(s, line);
            &&& is_line_start(s, line as nat, ls)
            &&& n == crate::str_util::ws_prefix(s.skip(ls))
            &&& ls + n <= s.len()
        }),
{
    let ghost s = rope_text(*r);
    let ls = rope_line_to_char(r, line);
    let total = rope_len_chars(r);
    proof {
        let ls0 = crate::text_model::line_start_spec(s, line);
        assert(is_line_start(s, line as nat, ls0));
        lemma_line_start_unique(s, line as nat, ls0, ls as int);
    }
    let mut k: usize = 0;
    while ls + k < total
        invariant
            ls + k <= total,
            total == s.len(),
            s == rope_text(*r),
            is_line_start(s, line as nat, ls as int),
            forall|j: int| 0 <= j < k ==> crate::str_util::is_line_ws(#[trigger] s[ls + j]),
        ensures
            ls + k <= total,
            forall|j: int| 0 <= j < k ==> crate::str_util::is_line_ws(#[trigger] s[ls + j]),
            ls + k == total || !crate::str_util::is_line_ws(s[ls + k]),
        decreases total - (ls + k),
    {
        let c = rope_char(r, ls + k);
        if !crate::str_util::line_ws(c) {
            break;
        }
        k = k + 1;
    }
    proof {
        assert forall|j: int| 0 <= j < k implies crate::str_util::is_line_ws(
            #[trigger] s.skip(ls as int)[j],
        ) by {
            assert(s.skip(ls as int)[j] == s[ls + j]);
        }
        if ls + k < total {
            assert(!crate::str_util::is_line_ws(s.skip(ls as int)[k as int]));
        }
        crate::str_util::lemma_ws_prefix_run(s.skip(ls as int), k as int);
    }
    k
}

/// The character offset a valid point denotes.
pub fn point_offset(r: &ropey::Rope, p: TextPoint) -> (o: usize)
    requires
        valid_point(rope_text(*r), p),
    ensures
        is_offset_of(rope_text(*r), p, o as int),
{
    let ghost s = rope_text(*r);
    let ghost w = choose|w: int| is_offset_of(s, p, w);
    let total = rope_len_chars(r);
    proof {
        crate::text_model::lemma_offset_line(s, p, w);
        crate::text_model::lemma_count_nl_take_monotone(s, w, s.len() as int);
        assert(s.take(s.len() as int) =~= s);
    }
    let ls = rope_line_to_char(r, p.line);
    proof {
        lemma_line_start_unique(s, p.line as nat, ls as int, w - p.col);
    }
    ls + p.col
}

/// The length of a line in characters, not counting its line break: the
/// largest valid column on that line.
pub fn line_len(r: &ropey::Rope, line: usize) -> (n: usize)
    requires
        line < line_count(rope_text(*r)),
    ensures
        valid_point(rope_text(*r), TextPoint { line, col: n }),
        forall|c: usize| valid_point(rope_text(*r), TextPoint { line, col: c }) ==> c <= n,
        ({
            let s = rope_text(*r);
            let ls = crate::text_model::line_start_spec(s, line);
            &&& is_line_start(s, line as nat, ls)
            &&& n == crate::text_model::line_len_spec(s, line)
            &&& ls + n <= s.len()
            &&& (ls + n == s.len() || s[ls + n] == '\n')
        }),
{
    let ghost s = rope_text(*r);
    let nlines = rope_len_lines(r);
    let ls = rope_line_to_char(r, line);
    let next = rope_line_to_char(r, line + 1);
    let total = rope_len_chars(r);
    let last_line = line + 1 >= nlines;
    proof {
        if !last_line {
            // the next line's start lies strictly after this line's start,
            // and the character just before it is this line's '\n'
            if next <= ls {
                crate::text_model::lemma_count_nl_take_monotone(s, next as int, ls as int);
            }
            assert(s[next - 1] == '\n') by {
                crate::text_model::lemma_count_nl_take_succ(s, next as int - 1);
                crate::text_model::lemma_count_nl_take_monotone(s, ls as int, next as int - 1);
            }
            assert forall|j: int| ls <= j < next - 1 implies s[j] != '\n' by {
                if s[j] == '\n' {
                    crate::text_model::lemma_count_nl_take_monotone(s, ls as int, j);
                    crate::text_model::lemma_count_nl_take_succ(s, j);
                    crate::text_model::lemma_count_nl_take_monotone(s, j + 1, next as int - 1);
                    crate::text_model::lemma_count_nl_take_succ(s, next as int - 1);
                }
            }
        } else {
            assert(s.take(s.len() as int) =~= s);
            assert forall|j: int| ls <= j < s.len() implies s[j] != '\n' by {
                if s[j] == '\n' {
                    crate::text_model::lemma_count_nl_take_monotone(s, ls as int, j);
                    crate::text_model::lemma_count_nl_take_succ(s, j);
                    crate::text_model::lemma_count_nl_take_monotone(s, j + 1, s.len() as int);
                }
            }
        }
    }
    let end = if !last_line {
        next - 1
    } else {
        total
    };
    proof {
        let ls0 = crate::text_model::line_start_spec(s, line);
        assert(is_line_start(s, line as nat, ls0));
        lemma_line_start_unique(s, line as nat, ls0, ls as int);
        crate::text_model::lemma_next_nl_at(s, ls as int, end as int);
        assert(is_offset_of(s, TextPoint { line, col: (end - ls) as usize }, end as int));
        assert forall|c: usize|
            valid_point(s, TextPoint { line, col: c }) implies c <= (end - ls) as usize by {
            let o = choose|o: int| is_offset_of(s, TextPoint { line, col: c }, o);
            lemma_line_start_unique(s, line as nat, ls as int, o - c);
            if c + ls > end {
                if !last_line {
                    // the offset would step over this line's '\n'
                    assert(s[end as int] == '\n');
                    assert(false);
                } else {
                    // the offset would run past the end of the text
                    assert(false);
                }
            }
        }
    }
    end - ls
}

} // verus!
