//! Edit generation policy: pure decisions from user intent to concrete
//! edit.
//!
//! These functions never mutate the buffer; they compute the edit (if any)
//! a keystroke produces, the selection afterwards, and the bookkeeping of
//! the two pairing stacks — the *ignore stack* of pending auto-inserted
//! closers and the *delete-linkage stack* recording which keystrokes
//! brought a linked pair with them.

use vstd::prelude::*;
use vstd::string::StrSliceExecFns;

use crate::buffer::{
    line_len, point_offset, rope_char, rope_len_chars, rope_line_to_char, rope_line_ws,
    rope_slice_string, rope_text,
};
use crate::lang::NewScopeChar;
use crate::str_util::{is_alnum, make_spaces, spaces, ws_prefix};
use crate::text_edit::{edit_applied, point_offset_spec, range_valid, EditOrigin, TextEdit};
use crate::text_model::{
    count_nl, is_line_start, is_offset_of, lemma_line_start_unique, lemma_offset_after_splice_end, lemma_offset_prefix,
    lemma_offset_unique, line_len_spec, line_start_spec, splice, tail_after_nl, valid_point,
};
use crate::text_range::{TextPoint, TextRange};

verus! {

/// How far a delete reaches when the selection is just a cursor.
#[derive(Clone, Copy, PartialEq, Eq, Structural, Debug)]
pub enum TextMovement {
    /// One character.
    Grapheme,
    /// A whole run of alphanumeric characters, or one other character.
    Word,
}

/// The closing delimiter auto-inserted for an opening one.
pub open spec fn closer_of(c: char) -> char {
    if c == '(' {
        ')'
    } else if c == '[' {
        ']'
    } else if c == '{' {
        '}'
    } else {
        c
    }
}

/// Characters that trigger auto-pairing when typed.
pub open spec fn is_pair_opener(c: char) -> bool {
    c == '\'' || c == '"' || c == '(' || c == '[' || c == '{'
}

/// The quote-class openers, whose pairing looks at both neighbours.
pub open spec fn is_quote_opener(c: char) -> bool {
    c == '\'' || c == '"'
}

/// Whether typing the opener `c` at offset `a` of `s` should insert the
/// pair. A quote pairs only when neither neighbour is alphanumeric (the
/// format-string prefix `f` is excepted on the left) and neither
/// neighbour already equals the quote; a bracket only cares about the
/// character after the cursor.
pub open spec fn should_pair(s: Seq<char>, a: int, c: char) -> bool {
    if is_quote_opener(c) {
        &&& !(a > 0 && is_alnum(s[a - 1]) && s[a - 1] != 'f')
        &&& !(a < s.len() && is_alnum(s[a]))
        &&& !(a > 0 && s[a - 1] == c)
        &&& !(a < s.len() && s[a] == c)
    } else {
        !(a < s.len() && is_alnum(s[a]))
    }
}

/// The keystroke types over a pending auto-inserted closer: the selection
/// is a cursor, the typed text is exactly the closer on top of the ignore
/// stack, and that closer indeed stands right after the cursor.
pub open spec fn consumes_closer(
    s: Seq<char>,
    selection: TextRange,
    a: int,
    add: Seq<char>,
    stack: Seq<char>,
) -> bool {
    &&& selection.spec_is_cursor()
    &&& add.len() == 1
    &&& stack.len() > 0
    &&& a < s.len()
    &&& s[a] == stack.last()
    &&& add[0] == stack.last()
    &&& stack.last() != '\n'
}

/// The text an insert-char keystroke actually inserts: the opener plus
/// its closer when pairing applies, the typed text alone otherwise.
pub open spec fn inserted_text(s: Seq<char>, a: int, add: Seq<char>) -> Seq<char> {
    if add.len() == 1 && is_pair_opener(add[0]) && should_pair(s, a, add[0]) {
        seq![add[0], closer_of(add[0])]
    } else {
        add
    }
}

/// `rng` is a cursor at the given line and column.
pub open spec fn is_cursor_at(rng: TextRange, line: int, col: int) -> bool {
    &&& rng.start == rng.end
    &&& rng.start.line == line
    &&& rng.start.col == col
}

/// Computes the edit for typing `add` at the selection, together with the
/// selection afterwards, maintaining the pairing stacks.
///
/// Typing the closer that tops the ignore stack while it stands right
/// after the cursor consumes it: no edit, the cursor steps over it, the
/// ignore stack pops, and the delete-linkage ledger stays as it was — the
/// pairing state is only ever cleared by a cursor teleport. Typing an
/// opener in pairing position inserts opener
/// and closer with the cursor between them and pushes the pairing
/// bookkeeping. Anything else is inserted verbatim, with a placeholder
/// pushed onto the delete-linkage stack so it stays aligned with the
/// keystroke stream.
#[verifier::rlimit(80)]
pub fn edit_for_insert_char(
    selection: TextRange,
    source: &ropey::Rope,
    add: &str,
    input_ignore_stack: &mut Vec<char>,
    paired_delete_stack: &mut Vec<bool>,
) -> (r: (Option<TextEdit>, TextRange))
    requires
        range_valid(rope_text(*source), selection),
        rope_text(*source).len() + add@.len() <= usize::MAX,
    ensures
        ({
            let s = rope_text(*source);
            let rng = selection.spec_ordered();
            let a = point_offset_spec(s, rng.start);
            if consumes_closer(s, selection, a, add@, old(input_ignore_stack)@) {
                &&& r.0 is None
                &&& is_cursor_at(r.1, rng.start.line as int, rng.start.col + 1)
                &&& valid_point(s, r.1.start)
                &&& final(input_ignore_stack)@ == old(input_ignore_stack)@.drop_last()
                &&& final(paired_delete_stack)@ == old(paired_delete_stack)@
            } else {
                &&& r.0 is Some
                &&& ({
                    let e = r.0.unwrap();
                    let paired = add@.len() == 1 && is_pair_opener(add@[0]) && should_pair(
                        s,
                        a,
                        add@[0],
                    );
                    &&& e.range == rng
                    &&& e.origin == EditOrigin::UserTyped
                    &&& if paired {
                        &&& e.text@ == seq![add@[0], closer_of(add@[0])]
                        &&& is_cursor_at(r.1, rng.start.line as int, rng.start.col + 1)
                        &&& final(input_ignore_stack)@ == old(input_ignore_stack)@.push(
                            closer_of(add@[0]),
                        )
                        &&& final(paired_delete_stack)@ == old(paired_delete_stack)@.push(true)
                    } else {
                        &&& e.text@ == add@
                        &&& is_cursor_at(
                            r.1,
                            crate::text_model::end_line_after(rng.start, add@),
                            crate::text_model::end_col_after(rng.start, add@),
                        )
                        &&& final(input_ignore_stack)@ == old(input_ignore_stack)@
                        &&& final(paired_delete_stack)@ == if old(paired_delete_stack)@.len()
                            > 0 {
                            old(paired_delete_stack)@.push(false)
                        } else {
                            old(paired_delete_stack)@
                        }
                    }
                    &&& valid_point(edit_applied(s, e.range, e.text@), r.1.start)
                })
            }
        }),
{
    proof {
        reveal(edit_applied);
    }
    let ghost s = rope_text(*source);
    let rng = selection.ordered();
    let total = rope_len_chars(source);
    let a = point_offset(source, rng.start);
    proof {
        lemma_offset_unique(s, rng.start, a as int, point_offset_spec(s, rng.start));
    }
    let addlen = add.unicode_len();
    // typing over a pending auto-inserted closer
    if selection.is_cursor() && addlen == 1 && input_ignore_stack.len() > 0 && a < total {
        let topc = input_ignore_stack[input_ignore_stack.len() - 1];
        let next = rope_char(source, a);
        if next == topc && topc != '\n' && add.get_char(0) == topc {
            input_ignore_stack.pop();
            let np = TextPoint { line: rng.start.line, col: rng.start.col + 1 };
            proof {
                assert(s[a as int] != '\n');
                assert(is_offset_of(s, np, a + 1));
            }
            return (None, TextRange::new_cursor(np));
        }
    }
    // classify against the pairing table
    let pair: Option<(char, bool)> = if addlen == 1 {
        let c0 = add.get_char(0);
        if c0 == '\'' {
            Some(('\'', true))
        } else if c0 == '"' {
            Some(('"', true))
        } else if c0 == '(' {
            Some((')', false))
        } else if c0 == '[' {
            Some((']', false))
        } else if c0 == '{' {
            Some(('}', false))
        } else {
            None
        }
    } else {
        None
    };
    let mut insert_pair = false;
    if let Some((_closer, for_string)) = pair {
        let c0 = add.get_char(0);
        let next_word = a < total && {
            let nc = rope_char(source, a);
            crate::str_util::alnum(nc)
        };
        let next_same = a < total && rope_char(source, a) == c0;
        let prior_word_not_f = a > 0 && {
            let pc = rope_char(source, a - 1);
            crate::str_util::alnum(pc) && pc != 'f'
        };
        let prior_same = a > 0 && rope_char(source, a - 1) == c0;
        insert_pair = if for_string {
            !prior_word_not_f && !next_word && !prior_same && !next_same
        } else {
            !next_word
        };
    }
    if insert_pair {
        let c0 = add.get_char(0);
        let text = if c0 == '\'' {
            pair_literal_quote()
        } else if c0 == '"' {
            pair_literal_dquote()
        } else if c0 == '(' {
            pair_literal_paren()
        } else if c0 == '[' {
            pair_literal_bracket()
        } else {
            pair_literal_brace()
        };
        let ghost closer = closer_of(add@[0]);
        input_ignore_stack.push(if c0 == '(' {
            ')'
        } else if c0 == '[' {
            ']'
        } else if c0 == '{' {
            '}'
        } else {
            c0
        });
        paired_delete_stack.push(true);
        let edit = TextEdit::new(text, rng);
        let np = TextPoint { line: rng.start.line, col: rng.start.col + 1 };
        let b = point_offset(source, rng.end);
        proof {
            lemma_offset_unique(s, rng.end, b as int, point_offset_spec(s, rng.end));
            crate::text_edit::lemma_offset_order(s, rng.start, rng.end, a as int, b as int);
            let t = edit.text@;
            let s2 = splice(s, a as int, b as int, t);
            let t1 = t.take(1);
            assert(count_nl(t1) == 0) by {
                reveal_with_fuel(count_nl, 2);
                assert(t1.len() == 1 && t1.last() == add@[0]);
                assert(t1.drop_last() =~= Seq::<char>::empty());
            }
            let q = TextPoint { line: rng.start.line, col: (rng.start.col + 1) as usize };
            lemma_offset_after_splice_end(s, rng.start, q, a as int, b as int, t1);
            assert(splice(s, a as int, b as int, t1).take(a + 1) =~= s2.take(a + 1));
            lemma_offset_prefix(splice(s, a as int, b as int, t1), s2, q, a + 1, a + 1);
            assert(valid_point(s2, np));
        }
        return (Some(edit), TextRange::new_cursor(np));
    }
    // verbatim insertion
    if paired_delete_stack.len() > 0 {
        paired_delete_stack.push(false);
    }
    let text = String::from_str(add);
    let edit = TextEdit::new(text, rng);
    let (nl, tail) = crate::text_edit::text_shape_of(add);
    let b = point_offset(source, rng.end);
    proof {
        lemma_offset_unique(s, rng.end, b as int, point_offset_spec(s, rng.end));
        crate::text_edit::lemma_offset_order(s, rng.start, rng.end, a as int, b as int);
        crate::text_model::lemma_offset_line(s, rng.start, a as int);
        crate::text_model::lemma_count_nl_take_monotone(s, a as int, s.len() as int);
        assert(s.take(s.len() as int) =~= s);
        crate::text_model::lemma_count_nl_le_len(s);
        crate::text_model::lemma_tail_bound(add@);
    }
    let np = if nl == 0 {
        TextPoint { line: rng.start.line, col: rng.start.col + addlen }
    } else {
        TextPoint { line: rng.start.line + nl, col: tail }
    };
    proof {
        lemma_offset_after_splice_end(s, rng.start, np, a as int, b as int, add@);
    }
    (Some(edit), TextRange::new_cursor(np))
}

/// Computes the edit for inserting a line break at the selection: the new
/// line is indented like the current one, one indent unit deeper when the
/// current line ends with the language's scope-opening character. The
/// cursor lands at the end of the inserted indentation.
#[verifier::rlimit(60)]
pub fn edit_for_insert_newline(
    selection: TextRange,
    source: &ropey::Rope,
    new_scope_char: NewScopeChar,
) -> (r: (TextEdit, TextRange))
    requires
        range_valid(rope_text(*source), selection),
        rope_text(*source).len() + INDENT_WIDTH + 1 <= usize::MAX,
    ensures
        ({
            let s = rope_text(*source);
            let rng = selection.spec_ordered();
            let ls = line_start_spec(s, rng.start.line);
            let ind = ws_prefix(s.skip(ls));
            let llen = line_len_spec(s, rng.start.line);
            let inc: int = if llen > 0 && s[ls + llen - 1] == new_scope_char.spec_char() {
                INDENT_WIDTH as int
            } else {
                0
            };
            let n = ind + inc;
            &&& r.0.text@ == seq!['\n'] + spaces(n as nat)
            &&& r.0.range == rng
            &&& r.0.origin == EditOrigin::UserTyped
            &&& is_cursor_at(r.1, rng.start.line + 1, n)
            &&& valid_point(edit_applied(s, r.0.range, r.0.text@), r.1.start)
        }),
{
    proof {
        reveal(edit_applied);
    }
    let ghost s = rope_text(*source);
    let rng = selection.ordered();
    let line = rng.start.line;
    proof {
        let w = choose|w: int| is_offset_of(s, rng.start, w);
        crate::text_model::lemma_offset_line(s, rng.start, w);
        crate::text_model::lemma_count_nl_take_monotone(s, w, s.len() as int);
        assert(s.take(s.len() as int) =~= s);
        crate::text_model::lemma_count_nl_le_len(s);
    }
    let ind = rope_line_ws(source, line);
    let llen = line_len(source, line);
    let ls = rope_line_to_char(source, line);
    proof {
        lemma_line_start_unique(s, line as nat, ls as int, line_start_spec(s, line));
    }
    let scope = new_scope_char.char();
    let inc = if llen > 0 && rope_char(source, ls + llen - 1) == scope {
        INDENT_WIDTH
    } else {
        0
    };
    let n = ind + inc;
    let mut text = String::from_str("\n");
    let sp = make_spaces(n);
    text.append(sp.as_str());
    proof {
        reveal_strlit("\n");
        assert(text@ =~= seq!['\n'] + spaces(n as nat));
        lemma_nl_then_spaces(n as nat);
    }
    let edit = TextEdit::new(text, rng);
    let np = TextPoint { line: line + 1, col: n };
    let a = point_offset(source, rng.start);
    let b = point_offset(source, rng.end);
    proof {
        lemma_offset_unique(s, rng.start, a as int, point_offset_spec(s, rng.start));
        lemma_offset_unique(s, rng.end, b as int, point_offset_spec(s, rng.end));
        crate::text_edit::lemma_offset_order(s, rng.start, rng.end, a as int, b as int);
        lemma_offset_after_splice_end(s, rng.start, np, a as int, b as int, edit.text@);
    }
    (edit, TextRange::new_cursor(np))
}

/// One indent unit, in spaces.
pub const INDENT_WIDTH: usize = 4;

/// The characters a word-wise delete swallows: alphanumerics. The line
/// break, never alphanumeric, is written out so that the run provably
/// stays within the line.
pub open spec fn is_word_elem(c: char) -> bool {
    is_alnum(c) && c != '\n'
}

/// Executable form of [`is_word_elem`].
fn word_elem(c: char) -> (r: bool)
    ensures
        r == is_word_elem(c),
{
    c != '\n' && crate::str_util::alnum(c)
}

/// Length of the run of alphanumeric characters just before offset `a`.
pub open spec fn word_run_back(s: Seq<char>, a: int) -> nat
    decreases a,
    when a <= s.len()
{
    if a <= 0 || !is_word_elem(s[a - 1]) {
        0
    } else {
        word_run_back(s, a - 1) + 1
    }
}

/// The word run is exactly the run of alphanumeric characters ending at
/// `a`.
pub proof fn lemma_word_run_at(s: Seq<char>, a: int, k: int)
    requires
        0 <= k <= a <= s.len(),
        forall|j: int| a - k <= j < a ==> is_word_elem(s[j]),
        a - k == 0 || !is_word_elem(s[a - k - 1]),
    ensures
        word_run_back(s, a) == k,
    decreases k,
{
    if k > 0 {
        lemma_word_run_at(s, a - 1, k - 1);
    }
}

/// How many characters before the cursor one delete keystroke removes in
/// the plain case: one, or a whole word for word-wise deletion.
pub open spec fn delete_span(s: Seq<char>, a: int, movement: TextMovement) -> nat {
    match movement {
        TextMovement::Grapheme => 1,
        TextMovement::Word => {
            if word_run_back(s, a) == 0 {
                1
            } else {
                word_run_back(s, a)
            }
        },
    }
}

/// Computes the edit for a backspace at the selection, together with the
/// selection afterwards.
///
/// A non-empty selection (or, for a cursor, a non-empty pseudo-selection)
/// is deleted as a whole. A cursor at the origin is a no-op. A cursor at
/// column zero merges the line with the one above. A cursor sitting at the
/// end of the line's indentation deletes back to the previous
/// multiple-of-indent-unit boundary. Otherwise one character (or word) is
/// removed, and when the delete-linkage stack records that the character
/// brought an auto-inserted partner, the partner right after the cursor
/// goes with it.
#[verifier::rlimit(100)]
pub fn edit_for_delete(
    selection: TextRange,
    source: &ropey::Rope,
    movement: TextMovement,
    pseudo_selection: Option<TextRange>,
    input_ignore_stack: &mut Vec<char>,
    paired_delete_stack: &mut Vec<bool>,
) -> (r: (Option<TextEdit>, TextRange))
    requires
        range_valid(rope_text(*source), selection),
        pseudo_selection is Some ==> range_valid(rope_text(*source), pseudo_selection.unwrap()),
    ensures
        ({
            let s = rope_text(*source);
            let rng = selection.spec_ordered();
            let a = point_offset_spec(s, rng.start);
            let ls = line_start_spec(s, rng.start.line);
            let ind = ws_prefix(s.skip(ls));
            if !selection.spec_is_cursor() {
                &&& del_result(r, s, rng, rng.start)
                &&& stacks_unchanged(
                    old(input_ignore_stack)@,
                    final(input_ignore_stack)@,
                    old(paired_delete_stack)@,
                    final(paired_delete_stack)@,
                )
            } else if pseudo_selection is Some
                && !pseudo_selection.unwrap().spec_is_cursor() {
                &&& del_result(
                    r,
                    s,
                    pseudo_selection.unwrap().spec_ordered(),
                    pseudo_selection.unwrap().spec_ordered().start,
                )
                &&& stacks_unchanged(
                    old(input_ignore_stack)@,
                    final(input_ignore_stack)@,
                    old(paired_delete_stack)@,
                    final(paired_delete_stack)@,
                )
            } else if rng.start.line == 0 && rng.start.col == 0 {
                &&& r.0 is None
                &&& r.1 == selection
                &&& stacks_unchanged(
                    old(input_ignore_stack)@,
                    final(input_ignore_stack)@,
                    old(paired_delete_stack)@,
                    final(paired_delete_stack)@,
                )
            } else if rng.start.col == 0 {
                &&& del_result(
                    r,
                    s,
                    TextRange {
                        start: TextPoint {
                            line: (rng.start.line - 1) as usize,
                            col: line_len_spec(s, (rng.start.line - 1) as usize) as usize,
                        },
                        end: rng.start,
                    },
                    TextPoint {
                        line: (rng.start.line - 1) as usize,
                        col: line_len_spec(s, (rng.start.line - 1) as usize) as usize,
                    },
                )
                &&& stacks_unchanged(
                    old(input_ignore_stack)@,
                    final(input_ignore_stack)@,
                    old(paired_delete_stack)@,
                    final(paired_delete_stack)@,
                )
            } else if rng.start.col == ind {
                &&& del_result(
                    r,
                    s,
                    TextRange {
                        start: TextPoint {
                            line: rng.start.line,
                            col: (((rng.start.col - 1) as usize) / INDENT_WIDTH
                                * INDENT_WIDTH) as usize,
                        },
                        end: rng.start,
                    },
                    TextPoint {
                        line: rng.start.line,
                        col: (((rng.start.col - 1) as usize) / INDENT_WIDTH
                            * INDENT_WIDTH) as usize,
                    },
                )
                &&& stacks_unchanged(
                    old(input_ignore_stack)@,
                    final(input_ignore_stack)@,
                    old(paired_delete_stack)@,
                    final(paired_delete_stack)@,
                )
            } else {
                let k = delete_span(s, a, movement);
                let dstack = old(paired_delete_stack)@;
                let linked = k == 1 && dstack.len() > 0 && dstack.last() && a < s.len() && s[a]
                    != '\n';
                let back = TextPoint { line: rng.start.line, col: (rng.start.col - k) as usize };
                &&& if k == 1 && dstack.len() > 0 {
                    final(paired_delete_stack)@ == dstack.drop_last()
                } else {
                    final(paired_delete_stack)@ == dstack
                }
                &&& if linked && old(input_ignore_stack)@.len() > 0 {
                    final(input_ignore_stack)@ == old(input_ignore_stack)@.drop_last()
                } else {
                    final(input_ignore_stack)@ == old(input_ignore_stack)@
                }
                &&& del_result(
                    r,
                    s,
                    TextRange {
                        start: back,
                        end: if linked {
                            TextPoint { line: rng.start.line, col: (rng.start.col + 1) as usize }
                        } else {
                            rng.start
                        },
                    },
                    back,
                )
            }
        }),
{
    proof {
        reveal(edit_applied);
    }
    let ghost s = rope_text(*source);
    let rng = selection.ordered();
    let total = rope_len_chars(source);
    if !selection.is_cursor() {
        return del_edit(source, rng, rng.start);
    }
    match pseudo_selection {
        Some(ps) => {
            if !ps.is_cursor() {
                let pr = ps.ordered();
                return del_edit(source, pr, pr.start);
            }
        },
        None => {},
    }
    if rng.start.line == 0 && rng.start.col == 0 {
        return (None, selection);
    }
    if rng.start.col == 0 {
        let above = rng.start.line - 1;
        proof {
            let w = choose|w: int| is_offset_of(s, rng.start, w);
            crate::text_model::lemma_offset_line(s, rng.start, w);
            crate::text_model::lemma_count_nl_take_monotone(s, w, s.len() as int);
            assert(s.take(s.len() as int) =~= s);
        }
        let plen = line_len(source, above);
        let start = TextPoint { line: above, col: plen };
        return del_edit(source, TextRange { start, end: rng.start }, start);
    }
    let a = point_offset(source, rng.start);
    proof {
        lemma_offset_unique(s, rng.start, a as int, point_offset_spec(s, rng.start));
        let w = choose|w: int| is_offset_of(s, rng.start, w);
        crate::text_model::lemma_offset_line(s, rng.start, w);
        crate::text_model::lemma_count_nl_take_monotone(s, w, s.len() as int);
        assert(s.take(s.len() as int) =~= s);
    }
    let ind = rope_line_ws(source, rng.start.line);
    proof {
        lemma_line_start_unique(
            s,
            rng.start.line as nat,
            line_start_spec(s, rng.start.line),
            a - rng.start.col,
        );
    }
    if rng.start.col == ind {
        // dedent: back to the previous multiple of the indent unit
        let target = (rng.start.col - 1) / INDENT_WIDTH * INDENT_WIDTH;
        proof {
            assert(target < rng.start.col) by (nonlinear_arith)
                requires
                    target == ((rng.start.col - 1) as usize) / 4usize * 4usize,
                    rng.start.col >= 1,
            ;
            crate::text_model::lemma_valid_col_shrink(
                s,
                rng.start,
                target,
            );
        }
        let start = TextPoint { line: rng.start.line, col: target };
        return del_edit(source, TextRange { start, end: rng.start }, start);
    }
    // plain delete of one character or word before the cursor
    let k: usize = match movement {
        TextMovement::Grapheme => 1,
        TextMovement::Word => {
            let mut k: usize = 0;
            while a - k > 0
                invariant
                    k <= a,
                    a <= total,
                    total == s.len(),
                    s == rope_text(*source),
                    forall|j: int| a - k <= j < a ==> is_word_elem(#[trigger] s[j]),
                ensures
                    k <= a,
                    forall|j: int| a - k <= j < a ==> is_word_elem(#[trigger] s[j]),
                    a - k == 0 || !is_word_elem(s[a - k - 1]),
                decreases a - k,
            {
                let c = rope_char(source, a - k - 1);
                if !word_elem(c) {
                    break;
                }
                k = k + 1;
            }
            proof {
                lemma_word_run_at(s, a as int, k as int);
            }
            if k == 0 {
                1
            } else {
                k
            }
        },
    };
    proof {
        // the run cannot reach past the start of the line
        if k > rng.start.col {
            assert(is_word_elem(s[a - rng.start.col - 1]));
        }
        crate::text_model::lemma_valid_col_shrink(s, rng.start, (rng.start.col - k) as usize);
    }
    let back = TextPoint { line: rng.start.line, col: rng.start.col - k };
    let mut linked = false;
    if k == 1 {
        match paired_delete_stack.pop() {
            Some(was_paired) => {
                if was_paired && a < total {
                    let nc = rope_char(source, a);
                    if nc != '\n' {
                        linked = true;
                        if input_ignore_stack.len() > 0 {
                            input_ignore_stack.pop();
                        }
                    }
                }
            },
            None => {},
        }
    }
    if linked {
        let endp = TextPoint { line: rng.start.line, col: rng.start.col + 1 };
        proof {
            assert(is_offset_of(s, endp, a + 1));
        }
        del_edit(source, TextRange { start: back, end: endp }, back)
    } else {
        del_edit(source, TextRange { start: back, end: rng.start }, back)
    }
}

/// The characters of `t` with one indent unit inserted after every line
/// break; the unit for the first line is prepended by the caller.
pub open spec fn ind_from(t: Seq<char>) -> Seq<char>
    decreases t.len(),
{
    if t.len() == 0 {
        Seq::empty()
    } else if t[0] == '\n' {
        seq!['\n'] + spaces(INDENT_WIDTH as nat) + ind_from(t.skip(1))
    } else {
        seq![t[0]] + ind_from(t.skip(1))
    }
}

/// The characters of `t` with up to `budget` leading spaces removed, the
/// budget being one indent unit at every line start and spent by the first
/// character that is not a space.
pub open spec fn unind_from(t: Seq<char>, budget: nat) -> Seq<char>
    decreases t.len(),
{
    if t.len() == 0 {
        Seq::empty()
    } else if t[0] == ' ' && budget > 0 {
        unind_from(t.skip(1), (budget - 1) as nat)
    } else if t[0] == '\n' {
        seq!['\n'] + unind_from(t.skip(1), INDENT_WIDTH as nat)
    } else {
        seq![t[0]] + unind_from(t.skip(1), 0)
    }
}

/// Indenting grows the text by at most one unit per character.
proof fn lemma_ind_from_len(t: Seq<char>)
    ensures
        ind_from(t).len() <= t.len() * 5,
    decreases t.len(),
{
    if t.len() > 0 {
        lemma_ind_from_len(t.skip(1));
        crate::str_util::lemma_spaces_len(INDENT_WIDTH as nat);
    }
}

/// Unindenting never grows the text.
proof fn lemma_unind_from_len(t: Seq<char>, budget: nat)
    ensures
        unind_from(t, budget).len() <= t.len(),
    decreases t.len(),
{
    if t.len() > 0 {
        lemma_unind_from_len(t.skip(1), (budget - 1) as nat);
        lemma_unind_from_len(t.skip(1), INDENT_WIDTH as nat);
        lemma_unind_from_len(t.skip(1), 0);
    }
}

/// Offsets of line starts grow with the line number.
proof fn lemma_line_start_le(s: Seq<char>, l1: nat, l2: nat, o1: int, o2: int)
    requires
        is_line_start(s, l1, o1),
        is_line_start(s, l2, o2),
        l1 <= l2,
    ensures
        o1 <= o2,
{
    if o2 < o1 {
        crate::text_model::lemma_count_nl_take_monotone(s, o2, o1);
        if l1 == l2 {
            lemma_line_start_unique(s, l1, o1, o2);
        }
    }
}

/// The full-line span the indent commands operate on: from the start of
/// the selection's first line to the end of its last line.
pub open spec fn full_line_range(s: Seq<char>, rng: TextRange) -> TextRange {
    TextRange {
        start: TextPoint { line: rng.start.line, col: 0 },
        end: TextPoint { line: rng.end.line, col: line_len_spec(s, rng.end.line) as usize },
    }
}

/// The characters of the lines touched by `rng`.
pub open spec fn full_line_text(s: Seq<char>, rng: TextRange) -> Seq<char> {
    s.subrange(
        line_start_spec(s, rng.start.line),
        line_start_spec(s, rng.end.line) + line_len_spec(s, rng.end.line),
    )
}

/// Copies out the full lines touched by the (ordered) selection.
#[verifier::rlimit(60)]
fn full_line_slice(selection: TextRange, source: &ropey::Rope) -> (res: (TextRange, String))
    requires
        range_valid(rope_text(*source), selection),
    ensures
        ({
            let s = rope_text(*source);
            let rng = selection.spec_ordered();
            &&& res.0 == full_line_range(s, rng)
            &&& res.1@ == full_line_text(s, rng)
            &&& res.0.start.spec_le(res.0.end)
            &&& res.0.spec_ordered() == res.0
            &&& range_valid(s, res.0)
            &&& res.1@.len() <= s.len()
        }),
{
    let ghost s = rope_text(*source);
    let rng = selection.ordered();
    let total = rope_len_chars(source);
    proof {
        let w1 = choose|w: int| is_offset_of(s, rng.start, w);
        let w2 = choose|w: int| is_offset_of(s, rng.end, w);
        crate::text_model::lemma_offset_line(s, rng.start, w1);
        crate::text_model::lemma_offset_line(s, rng.end, w2);
        crate::text_model::lemma_count_nl_take_monotone(s, w1, s.len() as int);
        crate::text_model::lemma_count_nl_take_monotone(s, w2, s.len() as int);
        assert(s.take(s.len() as int) =~= s);
    }
    let ls0 = rope_line_to_char(source, rng.start.line);
    let elen = line_len(source, rng.end.line);
    let lse = rope_line_to_char(source, rng.end.line);
    proof {
        lemma_line_start_unique(
            s,
            rng.start.line as nat,
            ls0 as int,
            line_start_spec(s, rng.start.line),
        );
        lemma_line_start_unique(
            s,
            rng.end.line as nat,
            lse as int,
            line_start_spec(s, rng.end.line),
        );
        lemma_line_start_le(s, rng.start.line as nat, rng.end.line as nat, ls0 as int, lse as int);
    }
    let u = rope_slice_string(source, ls0, lse + elen);
    let fr = TextRange {
        start: TextPoint { line: rng.start.line, col: 0 },
        end: TextPoint { line: rng.end.line, col: elen },
    };
    proof {
        assert(is_offset_of(s, fr.start, ls0 as int));
        assert(fr.spec_ordered() == fr);
    }
    (fr, u)
}

/// Wraps the replacement text of an indent command into an edit and
/// places the cursor after it.
fn finish_line_edit(source: &ropey::Rope, fr: TextRange, out: String) -> (r: (TextEdit, TextRange))
    requires
        range_valid(rope_text(*source), fr),
        fr.spec_ordered() == fr,
        rope_text(*source).len() + out@.len() + 1 <= usize::MAX,
    ensures
        ({
            let s = rope_text(*source);
            &&& r.0.range == fr
            &&& r.0.text == out
            &&& r.0.origin == EditOrigin::UserTyped
            &&& is_cursor_at(
                r.1,
                crate::text_model::end_line_after(fr.start, out@),
                crate::text_model::end_col_after(fr.start, out@),
            )
            &&& valid_point(edit_applied(s, fr, out@), r.1.start)
        }),
{
    proof {
        reveal(edit_applied);
    }
    let ghost s = rope_text(*source);
    let a = point_offset(source, fr.start);
    let b = point_offset(source, fr.end);
    proof {
        lemma_offset_unique(s, fr.start, a as int, point_offset_spec(s, fr.start));
        lemma_offset_unique(s, fr.end, b as int, point_offset_spec(s, fr.end));
        crate::text_edit::lemma_offset_order(s, fr.start, fr.end, a as int, b as int);
        crate::text_model::lemma_offset_line(s, fr.start, a as int);
        crate::text_model::lemma_count_nl_take_monotone(s, a as int, s.len() as int);
        assert(s.take(s.len() as int) =~= s);
        crate::text_model::lemma_count_nl_le_len(s);
        crate::text_model::lemma_tail_bound(out@);
    }
    let (nl, tail) = crate::text_edit::text_shape_of(out.as_str());
    let np = if nl == 0 {
        TextPoint { line: fr.start.line, col: fr.start.col + out.as_str().unicode_len() }
    } else {
        TextPoint { line: fr.start.line + nl, col: tail }
    };
    proof {
        lemma_offset_after_splice_end(s, fr.start, np, a as int, b as int, out@);
    }
    let edit = TextEdit::new(out, fr);
    (edit, TextRange::new_cursor(np))
}

/// Computes the edit that indents every line touched by the selection by
/// one unit. The whole span of those lines is replaced in one edit; the
/// cursor lands after the re-indented block.
pub fn edit_for_indent(selection: TextRange, source: &ropey::Rope) -> (r: (TextEdit, TextRange))
    requires
        range_valid(rope_text(*source), selection),
        rope_text(*source).len() * 6 + 5 <= usize::MAX,
    ensures
        ({
            let s = rope_text(*source);
            let rng = selection.spec_ordered();
            let t = full_line_text(s, rng);
            &&& r.0.range == full_line_range(s, rng)
            &&& range_valid(s, r.0.range)
            &&& r.0.text@ == spaces(INDENT_WIDTH as nat) + ind_from(t)
            &&& r.0.origin == EditOrigin::UserTyped
            &&& is_cursor_at(
                r.1,
                crate::text_model::end_line_after(r.0.range.start, r.0.text@),
                crate::text_model::end_col_after(r.0.range.start, r.0.text@),
            )
            &&& valid_point(edit_applied(s, r.0.range, r.0.text@), r.1.start)
        }),
{
    let ghost s = rope_text(*source);
    let ghost t = full_line_text(s, selection.spec_ordered());
    let (fr, u) = full_line_slice(selection, source);
    let ulen = u.as_str().unicode_len();
    let mut out = make_spaces(INDENT_WIDTH);
    let mut i: usize = 0;
    proof {
        assert(t.skip(0) =~= t);
        lemma_ind_from_len(t);
    }
    while i < ulen
        invariant
            i <= ulen,
            ulen == u@.len(),
            u@ == t,
            out@ + ind_from(t.skip(i as int)) =~= spaces(INDENT_WIDTH as nat) + ind_from(t),
            out@.len() <= INDENT_WIDTH + 5 * i,
        decreases ulen - i,
    {
        let c = u.as_str().get_char(i);
        proof {
            assert(t.skip(i as int)[0] == t[i as int]);
            assert(t.skip(i as int).skip(1) =~= t.skip(i + 1));
        }
        if c == '\n' {
            crate::str_util::string_push(&mut out, '\n');
            let ghost mid = out@;
            let mut j: usize = 0;
            while j < INDENT_WIDTH
                invariant
                    j <= INDENT_WIDTH,
                    out@ == mid + spaces(j as nat),
                decreases INDENT_WIDTH - j,
            {
                crate::str_util::string_push(&mut out, ' ');
                proof {
                    crate::str_util::lemma_spaces_len((j + 1) as nat);
                    assert(out@ =~= mid + spaces((j + 1) as nat));
                }
                j = j + 1;
            }
            proof {
                crate::str_util::lemma_spaces_len(INDENT_WIDTH as nat);
                assert(out@ + ind_from(t.skip(i + 1)) =~= spaces(INDENT_WIDTH as nat) + ind_from(
                    t,
                ));
            }
        } else {
            crate::str_util::string_push(&mut out, c);
            proof {
                assert(out@ + ind_from(t.skip(i + 1)) =~= spaces(INDENT_WIDTH as nat) + ind_from(
                    t,
                ));
            }
        }
        i = i + 1;
    }
    proof {
        assert(t.skip(ulen as int) =~= Seq::<char>::empty());
        assert(out@ =~= spaces(INDENT_WIDTH as nat) + ind_from(t));
        crate::str_util::lemma_spaces_len(INDENT_WIDTH as nat);
        lemma_ind_from_len(t);
    }
    finish_line_edit(source, fr, out)
}

/// Computes the edit that removes one indent unit — as far as one is
/// present — from the start of every line touched by the selection.
pub fn edit_for_unindent(selection: TextRange, source: &ropey::Rope) -> (r: (TextEdit, TextRange))
    requires
        range_valid(rope_text(*source), selection),
        rope_text(*source).len() * 2 + 5 <= usize::MAX,
    ensures
        ({
            let s = rope_text(*source);
            let rng = selection.spec_ordered();
            let t = full_line_text(s, rng);
            &&& r.0.range == full_line_range(s, rng)
            &&& range_valid(s, r.0.range)
            &&& r.0.text@ == unind_from(t, INDENT_WIDTH as nat)
            &&& r.0.origin == EditOrigin::UserTyped
            &&& is_cursor_at(
                r.1,
                crate::text_model::end_line_after(r.0.range.start, r.0.text@),
                crate::text_model::end_col_after(r.0.range.start, r.0.text@),
            )
            &&& valid_point(edit_applied(s, r.0.range, r.0.text@), r.1.start)
        }),
{
    let ghost s = rope_text(*source);
    let ghost t = full_line_text(s, selection.spec_ordered());
    let (fr, u) = full_line_slice(selection, source);
    let ulen = u.as_str().unicode_len();
    let mut out = String::new();
    let mut budget: usize = INDENT_WIDTH;
    let mut i: usize = 0;
    proof {
        assert(t.skip(0) =~= t);
    }
    while i < ulen
        invariant
            i <= ulen,
            ulen == u@.len(),
            u@ == t,
            budget <= INDENT_WIDTH,
            out@ + unind_from(t.skip(i as int), budget as nat) =~= unind_from(
                t,
                INDENT_WIDTH as nat,
            ),
            out@.len() <= i,
        decreases ulen - i,
    {
        let c = u.as_str().get_char(i);
        proof {
            assert(t.skip(i as int)[0] == t[i as int]);
            assert(t.skip(i as int).skip(1) =~= t.skip(i + 1));
        }
        if c == ' ' && budget > 0 {
            budget = budget - 1;
        } else if c == '\n' {
            crate::str_util::string_push(&mut out, '\n');
            budget = INDENT_WIDTH;
            proof {
                assert(out@ + unind_from(t.skip(i + 1), INDENT_WIDTH as nat) =~= unind_from(
                    t,
                    INDENT_WIDTH as nat,
                ));
            }
        } else {
            crate::str_util::string_push(&mut out, c);
            budget = 0;
            proof {
                assert(out@ + unind_from(t.skip(i + 1), 0nat) =~= unind_from(
                    t,
                    INDENT_WIDTH as nat,
                ));
            }
        }
        i = i + 1;
    }
    proof {
        assert(t.skip(ulen as int) =~= Seq::<char>::empty());
        assert(out@ =~= unind_from(t, INDENT_WIDTH as nat));
        lemma_unind_from_len(t, INDENT_WIDTH as nat);
    }
    finish_line_edit(source, fr, out)
}

/// The delete keystroke falls into the plain case: a cursor, no
/// pseudo-selection, not at the origin, not at column zero, and not at
/// the end of the line's indentation.
pub open spec fn plain_delete_case(
    s: Seq<char>,
    selection: TextRange,
    pseudo: Option<TextRange>,
) -> bool {
    let rng = selection.spec_ordered();
    let ls = line_start_spec(s, rng.start.line);
    let ind = ws_prefix(s.skip(ls));
    &&& selection.spec_is_cursor()
    &&& !(pseudo is Some && !pseudo.unwrap().spec_is_cursor())
    &&& !(rng.start.line == 0 && rng.start.col == 0)
    &&& rng.start.col != 0
    &&& rng.start.col != ind
}

/// In the plain case, whether the deleted character takes its
/// auto-inserted partner after the cursor with it.
pub open spec fn delete_linked(
    s: Seq<char>,
    selection: TextRange,
    movement: TextMovement,
    dstack: Seq<bool>,
) -> bool {
    let rng = selection.spec_ordered();
    let a = point_offset_spec(s, rng.start);
    &&& delete_span(s, a, movement) == 1
    &&& dstack.len() > 0
    &&& dstack.last()
    &&& a < s.len()
    &&& s[a] != '\n'
}

/// The range one delete keystroke removes, or `None` for the no-op at the
/// document origin: the selection itself, the pseudo-selection, the join
/// with the line above, the dedent step, or the character (or word) before
/// the cursor together with a linked partner.
pub open spec fn delete_target(
    s: Seq<char>,
    selection: TextRange,
    pseudo: Option<TextRange>,
    movement: TextMovement,
    dstack: Seq<bool>,
) -> Option<TextRange> {
    let rng = selection.spec_ordered();
    let a = point_offset_spec(s, rng.start);
    let ls = line_start_spec(s, rng.start.line);
    let ind = ws_prefix(s.skip(ls));
    if !selection.spec_is_cursor() {
        Some(rng)
    } else if pseudo is Some && !pseudo.unwrap().spec_is_cursor() {
        Some(pseudo.unwrap().spec_ordered())
    } else if rng.start.line == 0 && rng.start.col == 0 {
        None
    } else if rng.start.col == 0 {
        Some(
            TextRange {
                start: TextPoint {
                    line: (rng.start.line - 1) as usize,
                    col: line_len_spec(s, (rng.start.line - 1) as usize) as usize,
                },
                end: rng.start,
            },
        )
    } else if rng.start.col == ind {
        Some(
            TextRange {
                start: TextPoint {
                    line: rng.start.line,
                    col: (((rng.start.col - 1) as usize) / INDENT_WIDTH * INDENT_WIDTH) as usize,
                },
                end: rng.start,
            },
        )
    } else {
        let k = delete_span(s, a, movement);
        Some(
            TextRange {
                start: TextPoint { line: rng.start.line, col: (rng.start.col - k) as usize },
                end: if delete_linked(s, selection, movement, dstack) {
                    TextPoint { line: rng.start.line, col: (rng.start.col + 1) as usize }
                } else {
                    rng.start
                },
            },
        )
    }
}

/// Both stacks kept exactly as they were.
pub open spec fn stacks_unchanged(
    ign_old: Seq<char>,
    ign_new: Seq<char>,
    del_old: Seq<bool>,
    del_new: Seq<bool>,
) -> bool {
    ign_new == ign_old && del_new == del_old
}

/// `r` deletes exactly the (ordered, valid) range `rng` and leaves the
/// cursor at `target`, which is `rng`'s start.
pub open spec fn del_result(
    r: (Option<TextEdit>, TextRange),
    s: Seq<char>,
    rng: TextRange,
    target: TextPoint,
) -> bool {
    &&& r.0 is Some
    &&& r.0.unwrap().text@ == Seq::<char>::empty()
    &&& r.0.unwrap().range == rng
    &&& range_valid(s, rng)
    &&& r.0.unwrap().origin == EditOrigin::UserTyped
    &&& r.1.start == target && r.1.end == target
    &&& valid_point(edit_applied(s, rng, Seq::empty()), target)
}

/// Builds the deleting edit for a valid range and proves the cursor at its
/// start stays valid.
fn del_edit(source: &ropey::Rope, rng: TextRange, target: TextPoint) -> (r: (
    Option<TextEdit>,
    TextRange,
))
    requires
        range_valid(rope_text(*source), rng),
        rng.start.spec_le(rng.end),
        target == rng.start,
    ensures
        del_result(r, rope_text(*source), rng, target),
{
    proof {
        reveal(edit_applied);
    }
    let ghost s = rope_text(*source);
    let edit = TextEdit::new(String::new(), rng);
    proof {
        let a = point_offset_spec(s, rng.spec_ordered().start);
        let b = point_offset_spec(s, rng.spec_ordered().end);
        assert(rng.spec_ordered() == rng);
        assert(is_offset_of(s, rng.start, a));
        assert(is_offset_of(s, rng.end, b));
        crate::text_edit::lemma_offset_order(s, rng.start, rng.end, a, b);
        crate::text_model::lemma_offset_after_splice_start(s, rng.start, a, b, Seq::empty());
    }
    (Some(edit), TextRange::new_cursor(target))
}

/// A line break followed by `n` spaces holds exactly one newline, and its
/// newline-free tail is the indentation.
proof fn lemma_nl_then_spaces(n: nat)
    ensures
        count_nl(seq!['\n'] + spaces(n)) == 1,
        tail_after_nl(seq!['\n'] + spaces(n)) == n,
    decreases n,
{
    if n == 0 {
        assert(seq!['\n'] + spaces(0) =~= seq!['\n']);
        assert(count_nl(seq!['\n']) == 1) by {
            reveal_with_fuel(count_nl, 2);
            assert(seq!['\n'].drop_last() =~= Seq::<char>::empty());
        }
        assert(tail_after_nl(seq!['\n']) == 0);
    } else {
        lemma_nl_then_spaces((n - 1) as nat);
        let prev = seq!['\n'] + spaces((n - 1) as nat);
        let cur = seq!['\n'] + spaces(n);
        assert(cur =~= prev.push(' '));
        assert(cur.drop_last() =~= prev);
        assert(cur.last() == ' ');
    }
}

fn pair_literal_quote() -> (s: String)
    ensures
        s@ == seq!['\'', '\''],
{
    proof {
        reveal_strlit("''");
    }
    let s = String::from_str("''");
    proof {
        assert(s@ =~= seq!['\'', '\'']);
    }
    s
}

fn pair_literal_dquote() -> (s: String)
    ensures
        s@ == seq!['"', '"'],
{
    proof {
        reveal_strlit("\"\"");
    }
    let s = String::from_str("\"\"");
    proof {
        assert(s@ =~= seq!['"', '"']);
    }
    s
}

fn pair_literal_paren() -> (s: String)
    ensures
        s@ == seq!['(', ')'],
{
    proof {
        reveal_strlit("()");
    }
    let s = String::from_str("()");
    proof {
        assert(s@ =~= seq!['(', ')']);
    }
    s
}

fn pair_literal_bracket() -> (s: String)
    ensures
        s@ == seq!['[', ']'],
{
    proof {
        reveal_strlit("[]");
    }
    let s = String::from_str("[]");
    proof {
        assert(s@ =~= seq!['[', ']']);
    }
    s
}

fn pair_literal_brace() -> (s: String)
    ensures
        s@ == seq!['{', '}'],
{
    proof {
        reveal_strlit("{}");
    }
    let s = String::from_str("{}");
    proof {
        assert(s@ =~= seq!['{', '}']);
    }
    s
}

} // verus!
