//! A concrete edit: replace the text of a range with a new string.
//!
//! Applying an edit mutates the buffer, informs the tree synchronizer of
//! the exact byte/point delta, and returns the *inverse* edit: the one that
//! deletes the span the inserted text now occupies and puts the removed
//! text back. The contract of [`TextEdit::apply`] pins down both the new
//! buffer content and the fact that applying the inverse restores the old
//! content, character for character.

use vstd::prelude::*;
use vstd::string::StrSliceExecFns;

use crate::buffer::{
    point_offset, rope_char_to_byte, rope_insert, rope_len_chars, rope_len_lines, rope_line_to_char,
    rope_remove, rope_slice_string, rope_text, rope_to_string,
};
use crate::text_model::{
    count_nl, end_col_after, end_line_after, is_line_start, is_offset_of, lemma_count_nl_concat,
    lemma_count_nl_take_monotone, lemma_encode_take_monotone, lemma_line_start_unique,
    lemma_offset_after_splice_end, lemma_offset_after_splice_start, lemma_offset_line,
    lemma_offset_unique, lemma_splice_round_trip, line_count, splice, tail_after_nl, valid_point,
};
use crate::text_range::{TextPoint, TextRange};
use crate::tree_manager::{TreeDelta, TreeManager};

verus! {

/// Where an edit came from; the host uses this to decide whether to echo
/// the edit back to its own buffer.
#[derive(Clone, Copy, PartialEq, Eq, Structural, Debug)]
pub enum EditOrigin {
    /// Typed by the user inside the editor.
    UserTyped,
    /// Applied programmatically, for instance by a language server action.
    External,
    /// Pasted from the clipboard.
    Paste,
}

/// The character offset of a valid point; meaningful only under
/// [`valid_point`].
pub open spec fn point_offset_spec(s: Seq<char>, p: TextPoint) -> int {
    choose|o: int| is_offset_of(s, p, o)
}

/// Both endpoints of the range, once ordered, denote positions of `s`.
pub open spec fn range_valid(s: Seq<char>, rng: TextRange) -> bool {
    &&& valid_point(s, rng.spec_ordered().start)
    &&& valid_point(s, rng.spec_ordered().end)
}

/// The text after replacing the (ordered) range `rng` of `s` with `t`.
#[verifier::opaque]
pub open spec fn edit_applied(s: Seq<char>, rng: TextRange, t: Seq<char>) -> Seq<char> {
    splice(
        s,
        point_offset_spec(s, rng.spec_ordered().start),
        point_offset_spec(s, rng.spec_ordered().end),
        t,
    )
}

/// Points in document order have offsets in the same order.
pub proof fn lemma_offset_order(s: Seq<char>, p1: TextPoint, p2: TextPoint, o1: int, o2: int)
    requires
        is_offset_of(s, p1, o1),
        is_offset_of(s, p2, o2),
        p1.spec_le(p2),
    ensures
        o1 <= o2,
{
    lemma_offset_line(s, p1, o1);
    lemma_offset_line(s, p2, o2);
    if p1.line == p2.line {
        lemma_line_start_unique(s, p1.line as nat, o1 - p1.col, o2 - p2.col);
    } else if o2 < o1 {
        lemma_count_nl_take_monotone(s, o2, o1);
    }
}

/// A run of text edits.
pub struct TextEdit {
    /// The text that replaces the range.
    pub text: String,
    /// The replaced range, in pre-edit coordinates; not necessarily ordered.
    pub range: TextRange,
    /// Who produced the edit.
    pub origin: EditOrigin,
}

/// Counts the newlines of `t` and the length of its newline-free tail.
pub fn text_shape_of(t: &str) -> (r: (usize, usize))
    ensures
        r.0 == count_nl(t@),
        r.1 == tail_after_nl(t@),
        r.0 <= t@.len(),
        r.1 <= t@.len(),
{
    let n = t.unicode_len();
    let mut i: usize = 0;
    let mut nl: usize = 0;
    let mut tail: usize = 0;
    while i < n
        invariant
            i <= n,
            n == t@.len(),
            nl == count_nl(t@.take(i as int)),
            tail == tail_after_nl(t@.take(i as int)),
            nl <= i,
            tail <= i,
        decreases n - i,
    {
        let c = t.get_char(i);
        proof {
            assert(t@.take(i + 1).drop_last() =~= t@.take(i as int));
            assert(t@.take(i + 1).last() == t@[i as int]);
        }
        if c == '\n' {
            nl = nl + 1;
            tail = 0;
        } else {
            tail = tail + 1;
        }
        i = i + 1;
    }
    proof {
        assert(t@.take(n as int) =~= t@);
    }
    (nl, tail)
}

impl TextEdit {
    /// An edit typed by the user: replace `range` with `text`.
    pub fn new(text: String, range: TextRange) -> (e: TextEdit)
        ensures
            e.text == text && e.range == range && e.origin == EditOrigin::UserTyped,
    {
        TextEdit { text, range, origin: EditOrigin::UserTyped }
    }

    /// An edit with an explicit origin tag.
    pub fn new_with_origin(text: String, range: TextRange, origin: EditOrigin) -> (e: TextEdit)
        ensures
            e.text == text && e.range == range && e.origin == origin,
    {
        TextEdit { text, range, origin }
    }

    /// A copy of this edit.
    pub fn duplicate(&self) -> (e: TextEdit)
        ensures
            e == *self,
    {
        TextEdit { text: self.text.clone(), range: self.range, origin: self.origin }
    }

    /// The cursor point immediately after the inserted text.
    pub fn new_end(&self) -> (p: TextPoint)
        requires
            self.range.spec_ordered().start.line + count_nl(self.text@) <= usize::MAX,
            self.range.spec_ordered().start.col + self.text@.len() <= usize::MAX,
        ensures
            p.line == end_line_after(self.range.spec_ordered().start, self.text@),
            p.col == end_col_after(self.range.spec_ordered().start, self.text@),
    {
        let start = self.range.ordered().start;
        let (nl, tail) = text_shape_of(self.text.as_str());
        proof {
            crate::text_model::lemma_tail_bound(self.text@);
        }
        if nl == 0 {
            TextPoint { line: start.line, col: start.col + self.text.as_str().unicode_len() }
        } else {
            TextPoint { line: start.line + nl, col: tail }
        }
    }

    /// Applies this edit to the buffer, re-synchronizes the tree, and
    /// returns the inverse edit. The inverse deletes exactly the span the
    /// inserted text occupies and re-inserts the removed characters, so
    /// applying it brings the buffer back to the old content; its end point
    /// is the cursor position after this edit.
    #[verifier::rlimit(60)]
    pub fn apply(&self, rope: &mut ropey::Rope, tree: &mut TreeManager) -> (inv: TextEdit)
        requires
            range_valid(rope_text(*old(rope)), self.range),
        ensures
            rope_text(*final(rope)) == edit_applied(rope_text(*old(rope)), self.range, self.text@),
            inv.range.start == self.range.spec_ordered().start,
            inv.range.end.line == end_line_after(self.range.spec_ordered().start, self.text@),
            inv.range.end.col == end_col_after(self.range.spec_ordered().start, self.text@),
            inv.range.start.spec_le(inv.range.end),
            is_offset_of(
                rope_text(*final(rope)),
                inv.range.end,
                point_offset_spec(rope_text(*old(rope)), self.range.spec_ordered().start)
                    + self.text@.len(),
            ),
            range_valid(rope_text(*final(rope)), inv.range),
            inv.text@ == rope_text(*old(rope)).subrange(
                point_offset_spec(rope_text(*old(rope)), self.range.spec_ordered().start),
                point_offset_spec(rope_text(*old(rope)), self.range.spec_ordered().end),
            ),
            edit_applied(rope_text(*final(rope)), inv.range, inv.text@) == rope_text(*old(rope)),
            inv.origin == self.origin,
    {
        proof {
            reveal(edit_applied);
        }
        let ghost s = rope_text(*rope);
        let rng = self.range.ordered();
        let a = point_offset(rope, rng.start);
        let b = point_offset(rope, rng.end);
        proof {
            lemma_offset_order(s, rng.start, rng.end, a as int, b as int);
            lemma_offset_unique(s, rng.start, a as int, point_offset_spec(s, rng.start));
            lemma_offset_unique(s, rng.end, b as int, point_offset_spec(s, rng.end));
        }
        // pre-edit byte coordinates for the tree delta
        proof {
            lemma_offset_line(s, rng.start, a as int);
            lemma_offset_line(s, rng.end, b as int);
            lemma_count_nl_take_monotone(s, a as int, s.len() as int);
            lemma_count_nl_take_monotone(s, b as int, s.len() as int);
            assert(s.take(s.len() as int) =~= s);
        }
        let start_line_char = rope_line_to_char(rope, rng.start.line);
        let end_line_char = rope_line_to_char(rope, rng.end.line);
        proof {
            lemma_line_start_unique(s, rng.start.line as nat, start_line_char as int, a - rng.start.col);
            lemma_line_start_unique(s, rng.end.line as nat, end_line_char as int, b - rng.end.col);
        }
        let start_byte = rope_char_to_byte(rope, a);
        let old_end_byte = rope_char_to_byte(rope, b);
        let start_line_byte = rope_char_to_byte(rope, start_line_char);
        let end_line_byte = rope_char_to_byte(rope, end_line_char);
        proof {
            lemma_encode_take_monotone(s, start_line_char as int, a as int);
            lemma_encode_take_monotone(s, end_line_char as int, b as int);
        }
        // the removed characters, for the inverse edit
        let removed = rope_slice_string(rope, a, b);
        // splice the new text in
        rope_remove(rope, a, b);
        proof {
            assert(rope_text(*rope).take(a as int) =~= s.take(a as int));
            assert(rope_text(*rope).skip(a as int) =~= s.skip(b as int));
        }
        rope_insert(rope, a, self.text.as_str());
        let ghost s2 = rope_text(*rope);
        proof {
            assert(s2 =~= splice(s, a as int, b as int, self.text@));
        }
        // the cursor point just after the inserted text
        let tlen = self.text.as_str().unicode_len();
        let (nl, tail) = text_shape_of(self.text.as_str());
        let new_total = rope_len_chars(rope);
        let new_lines = rope_len_lines(rope);
        proof {
            assert(s2.take(a as int) =~= s.take(a as int));
            assert(s2.take(a + tlen) =~= s.take(a as int) + self.text@);
            lemma_count_nl_concat(s.take(a as int), self.text@);
            lemma_count_nl_take_monotone(s2, a + tlen, s2.len() as int);
            assert(s2.take(s2.len() as int) =~= s2);
            crate::text_model::lemma_tail_bound(self.text@);
        }
        let end_point = if nl == 0 {
            TextPoint { line: rng.start.line, col: rng.start.col + tlen }
        } else {
            TextPoint { line: rng.start.line + nl, col: tail }
        };
        proof {
            lemma_offset_after_splice_end(s, rng.start, end_point, a as int, b as int, self.text@);
            lemma_offset_after_splice_start(s, rng.start, a as int, b as int, self.text@);
        }
        // post-edit byte coordinates
        let new_end_char = a + tlen;
        let new_end_byte = rope_char_to_byte(rope, new_end_char);
        let new_line_char = rope_line_to_char(rope, end_point.line);
        proof {
            lemma_offset_line(s2, end_point, new_end_char as int);
            lemma_count_nl_take_monotone(s2, new_end_char as int, s2.len() as int);
            lemma_line_start_unique(
                s2,
                end_point.line as nat,
                new_line_char as int,
                new_end_char - end_point.col,
            );
            lemma_encode_take_monotone(s2, new_line_char as int, new_end_char as int);
        }
        let new_line_byte = rope_char_to_byte(rope, new_line_char);
        let delta = TreeDelta {
            start_byte,
            old_end_byte,
            new_end_byte,
            start_row: rng.start.line,
            start_col: start_byte - start_line_byte,
            old_end_row: rng.end.line,
            old_end_col: old_end_byte - end_line_byte,
            new_end_row: end_point.line,
            new_end_col: new_end_byte - new_line_byte,
        };
        let new_text = rope_to_string(rope);
        tree.update(new_text.as_str(), delta);
        let inv = TextEdit {
            text: removed,
            range: TextRange { start: rng.start, end: end_point },
            origin: self.origin,
        };
        proof {
            // the inverse edit addresses the inserted span in the new text
            let io = point_offset_spec(s2, inv.range.spec_ordered().start);
            let ie = point_offset_spec(s2, inv.range.spec_ordered().end);
            assert(inv.range.spec_ordered() == inv.range);
            lemma_offset_unique(s2, rng.start, io, a as int);
            lemma_offset_unique(s2, end_point, ie, a + self.text@.len());
            lemma_splice_round_trip(s, a as int, b as int, self.text@);
        }
        inv
    }
}

/// Applying an edit and then its inverse restores the text: replacing the
/// span `[a, b)` with `t` and then replacing the span `t` now occupies with
/// the removed characters yields the original sequence again.
pub proof fn lemma_edit_round_trip(s: Seq<char>, rng: TextRange, t: Seq<char>)
    requires
        range_valid(s, rng),
    ensures
        ({
            let a = point_offset_spec(s, rng.spec_ordered().start);
            let b = point_offset_spec(s, rng.spec_ordered().end);
            splice(splice(s, a, b, t), a, a + t.len(), s.subrange(a, b)) == s
        }),
{
    reveal(edit_applied);
    let a = point_offset_spec(s, rng.spec_ordered().start);
    let b = point_offset_spec(s, rng.spec_ordered().end);
    assert(is_offset_of(s, rng.spec_ordered().start, a));
    assert(is_offset_of(s, rng.spec_ordered().end, b));
    lemma_offset_order(s, rng.spec_ordered().start, rng.spec_ordered().end, a, b);
    lemma_splice_round_trip(s, a, b, t);
}

} // verus!
