//! The edit orchestrator: owns the buffer, the tree synchronizer, the
//! undo/redo history and the pairing stacks, and sequences every mutation
//! so that all of them stay in step.
//!
//! Every content change flows through [`Source::apply_edit_helper`]: it
//! splices the buffer, hands the byte/point delta to the tree, records the
//! exact inverse in the history, clears the redo stack and raises the
//! one-shot changed flag. The struct invariant [`Source::wf`] states that
//! the recorded history is coherent with the current text, which is what
//! makes undo and redo total: they can never address the buffer out of
//! bounds.

use vstd::prelude::*;
use vstd::string::StrSliceExecFns;

use crate::buffer::rope_text;
use crate::edit_generation::{
    closer_of, consumes_closer, edit_for_delete, edit_for_indent, edit_for_insert_char,
    edit_for_insert_newline, edit_for_unindent, full_line_range, full_line_text, ind_from,
    inserted_text, is_cursor_at, is_pair_opener, should_pair, unind_from, TextMovement,
    INDENT_WIDTH,
};
use crate::lang::LanguageConfig;
use crate::str_util::spaces;
use crate::text_edit::{edit_applied, point_offset_spec, range_valid, EditOrigin, TextEdit};
use crate::text_model::{end_col_after, end_line_after, valid_point};
use crate::text_range::{TextPoint, TextRange};
use crate::tree_manager::TreeManager;
use crate::undo_manager::{
    group_fwd, group_unapply, group_undo_ok, redo_coherent, undo_coherent, UndoManager, UndoRecord,
    UndoStopCondition,
};

verus! {

/// The selection state the host hands into every editing call: the real
/// selection, and an optional externally highlighted pseudo-selection such
/// as a matched bracket pair.
pub struct Selections {
    selection: TextRange,
    pseudo_selection: Option<TextRange>,
}

impl Selections {
    pub closed spec fn spec_selection(&self) -> TextRange {
        self.selection
    }

    pub closed spec fn spec_pseudo_selection(&self) -> Option<TextRange> {
        self.pseudo_selection
    }

    /// A cursor at the origin, with no pseudo-selection.
    pub fn new() -> (r: Selections)
        ensures
            is_cursor_at(r.spec_selection(), 0, 0),
            r.spec_pseudo_selection() is None,
    {
        Selections { selection: TextRange::zero(), pseudo_selection: None }
    }

    pub fn selection(&self) -> (r: TextRange)
        ensures
            r == self.spec_selection(),
    {
        self.selection
    }

    pub fn pseudo_selection(&self) -> (r: Option<TextRange>)
        ensures
            r == self.spec_pseudo_selection(),
    {
        self.pseudo_selection
    }

    /// Moves the selection; any pseudo-selection is dropped, since it was
    /// tied to the old cursor.
    pub fn set_selection(&mut self, rng: TextRange)
        ensures
            final(self).spec_selection() == rng,
            final(self).spec_pseudo_selection() is None,
    {
        self.selection = rng;
        self.pseudo_selection = None;
    }

    /// Installs an externally highlighted range.
    pub fn set_pseudo_selection(&mut self, rng: Option<TextRange>)
        ensures
            final(self).spec_selection() == old(self).spec_selection(),
            final(self).spec_pseudo_selection() == rng,
    {
        self.pseudo_selection = rng;
    }
}

/// The document: buffer, syntax tree, history, pairing state and the
/// one-shot changed flag, mutated only in lock-step.
pub struct Source {
    text: ropey::Rope,
    /// The language configuration selected at open time.
    pub language: LanguageConfig,
    tree_manager: TreeManager,
    undo_manager: UndoManager,
    input_ignore_stack: Vec<char>,
    paired_delete_stack: Vec<bool>,
    text_changed: bool,
}

impl Source {
    /// The language configuration in use.
    pub closed spec fn spec_language(&self) -> LanguageConfig {
        self.language
    }

    /// The characters the buffer holds.
    pub closed spec fn content(&self) -> Seq<char> {
        rope_text(self.text)
    }

    /// The one-shot changed flag.
    pub closed spec fn changed(&self) -> bool {
        self.text_changed
    }

    /// The pending auto-inserted closers.
    pub closed spec fn ignore_stack(&self) -> Seq<char> {
        self.input_ignore_stack@
    }

    /// The per-keystroke pair linkage ledger.
    pub closed spec fn delete_stack(&self) -> Seq<bool> {
        self.paired_delete_stack@
    }

    /// The undo history, oldest group first.
    pub closed spec fn undo_groups(&self) -> Seq<Seq<UndoRecord>> {
        self.undo_manager.undo_groups()
    }

    /// The redo history, oldest group first.
    pub closed spec fn redo_groups(&self) -> Seq<Seq<UndoRecord>> {
        self.undo_manager.redo_groups()
    }

    /// Whether the next record may merge into the open undo group.
    pub closed spec fn history_open(&self) -> bool {
        self.undo_manager.is_open()
    }

    /// Whether a record with this stop condition would open a new group.
    pub open spec fn spec_starts_group(&self, stop_before: UndoStopCondition) -> bool {
        ||| stop_before == UndoStopCondition::Always
        ||| !self.history_open()
        ||| self.undo_groups().len() == 0
        ||| self.undo_groups().last().len() == 0
        ||| self.undo_groups().last().last().stop_after
    }

    /// The recorded history is coherent with the current buffer text.
    pub closed spec fn wf(&self) -> bool {
        self.undo_manager.wf(self.content())
    }

    /// The history after recording `rec` under the given stop condition.
    pub open spec fn groups_after(
        groups: Seq<Seq<UndoRecord>>,
        starts: bool,
        rec: UndoRecord,
    ) -> Seq<Seq<UndoRecord>> {
        if starts {
            groups.push(seq![rec])
        } else {
            groups.update(groups.len() - 1, groups.last().push(rec))
        }
    }

    /// What recording one applied edit does to the orchestrator: content
    /// spliced, changed flag raised, redos gone, and a record holding the
    /// edit and its exact inverse appended to the history.
    pub open spec fn applied_edit_post(
        pre: Source,
        post: Source,
        edit: TextEdit,
        stop_before: UndoStopCondition,
        stop_after: bool,
    ) -> bool {
        &&& post.content() == edit_applied(pre.content(), edit.range, edit.text@)
        &&& post.changed()
        &&& post.redo_groups() == Seq::<Seq<UndoRecord>>::empty()
        &&& post.ignore_stack() == pre.ignore_stack()
        &&& post.delete_stack() == pre.delete_stack()
        &&& post.history_open()
        &&& post.spec_language() == pre.spec_language()
        &&& exists|rec: UndoRecord|
            {
                &&& #[trigger] rec.forward == edit
                &&& rec.stop_after == stop_after
                &&& range_valid(post.content(), rec.inverse.range)
                &&& edit_applied(post.content(), rec.inverse.range, rec.inverse.text@)
                    == pre.content()
                &&& post.undo_groups() == Source::groups_after(
                    pre.undo_groups(),
                    pre.spec_starts_group(stop_before),
                    rec,
                )
            }
    }

    /// The history recorded exactly one new edit of the given range and
    /// text, under the given stop policy, together with an inverse that
    /// restores the previous content.
    pub open spec fn history_records(
        pre: Source,
        post: Source,
        rng: TextRange,
        t: Seq<char>,
        stop_before: UndoStopCondition,
        stop_after: bool,
    ) -> bool {
        exists|rec: UndoRecord|
            {
                &&& #[trigger] rec.forward.range == rng
                &&& rec.forward.text@ == t
                &&& rec.stop_after == stop_after
                &&& range_valid(post.content(), rec.inverse.range)
                &&& edit_applied(post.content(), rec.inverse.range, rec.inverse.text@)
                    == pre.content()
                &&& post.undo_groups() == Source::groups_after(
                    pre.undo_groups(),
                    pre.spec_starts_group(stop_before),
                    rec,
                )
            }
    }

    /// A fresh document over the given text. The tree is parsed from
    /// scratch; the history starts empty; the changed flag starts raised
    /// so the first render pass draws the document.
    pub fn new(text: ropey::Rope, language: LanguageConfig) -> (s: Source)
        ensures
            s.content() == rope_text(text),
            s.spec_language() == language,
            s.wf(),
            s.undo_groups() == Seq::<Seq<UndoRecord>>::empty(),
            s.redo_groups() == Seq::<Seq<UndoRecord>>::empty(),
            s.ignore_stack() == Seq::<char>::empty(),
            s.delete_stack() == Seq::<bool>::empty(),
            s.changed(),
    {
        let mut tree_manager = TreeManager::new(&language.tree_sitter());
        let full = crate::buffer::rope_to_string(&text);
        tree_manager.replace(full.as_str());
        Source {
            text,
            language,
            tree_manager,
            undo_manager: UndoManager::new(),
            input_ignore_stack: Vec::new(),
            paired_delete_stack: Vec::new(),
            text_changed: true,
        }
    }

    /// Replaces the whole document: the buffer takes the new text, the
    /// tree is parsed from scratch, and history and pairing state are
    /// fully reset, as on open.
    pub fn set_text(&mut self, text: &str)
        ensures
            final(self).content() == text@,
            final(self).spec_language() == old(self).spec_language(),
            final(self).wf(),
            final(self).undo_groups() == Seq::<Seq<UndoRecord>>::empty(),
            final(self).redo_groups() == Seq::<Seq<UndoRecord>>::empty(),
            final(self).ignore_stack() == Seq::<char>::empty(),
            final(self).delete_stack() == Seq::<bool>::empty(),
            final(self).changed(),
    {
        self.text = crate::buffer::rope_from_str(text);
        self.tree_manager.replace(text);
        self.undo_manager = UndoManager::new();
        self.input_ignore_stack = Vec::new();
        self.paired_delete_stack = Vec::new();
        self.text_changed = true;
    }

    /// The buffer itself.
    pub fn text(&self) -> (r: &ropey::Rope)
        ensures
            rope_text(*r) == self.content(),
    {
        &self.text
    }

    /// The buffer's characters, copied out.
    pub fn text_string(&self) -> (r: String)
        ensures
            r@ == self.content(),
    {
        crate::buffer::rope_to_string(&self.text)
    }

    /// A traversal cursor over the current syntax tree, or `None` when no
    /// parse has succeeded.
    pub fn get_tree_cursor<'a>(&'a self) -> Option<tree_sitter::TreeCursor<'a>> {
        self.tree_manager.get_cursor()
    }

    /// Returns whether the text has changed since the last time this was
    /// called, and rearms the flag: true exactly once per net change.
    pub fn has_text_changed_since_last_check(&mut self) -> (r: bool)
        ensures
            r == old(self).changed(),
            !final(self).changed(),
            final(self).content() == old(self).content(),
            final(self).ignore_stack() == old(self).ignore_stack(),
            final(self).delete_stack() == old(self).delete_stack(),
            final(self).undo_groups() == old(self).undo_groups(),
            final(self).redo_groups() == old(self).redo_groups(),
            final(self).history_open() == old(self).history_open(),
            final(self).spec_language() == old(self).spec_language(),
            old(self).wf() ==> final(self).wf(),
    {
        let changed = self.text_changed;
        self.text_changed = false;
        changed
    }

    /// Applies an edit: buffer, then tree, then history. Returns the
    /// cursor point just after the inserted text.
    fn apply_edit_helper(
        &mut self,
        edit: &TextEdit,
        undo_stop_before: UndoStopCondition,
        undo_stop_after: bool,
    ) -> (end: TextPoint)
        requires
            old(self).wf(),
            range_valid(old(self).content(), edit.range),
        ensures
            final(self).wf(),
            Source::applied_edit_post(
                *old(self),
                *final(self),
                *edit,
                undo_stop_before,
                undo_stop_after,
            ),
            Source::history_records(
                *old(self),
                *final(self),
                edit.range,
                edit.text@,
                undo_stop_before,
                undo_stop_after,
            ),
            end.line == end_line_after(edit.range.spec_ordered().start, edit.text@),
            end.col == end_col_after(edit.range.spec_ordered().start, edit.text@),
            valid_point(final(self).content(), end),
    {
        let ghost s0 = self.content();
        let ghost old_groups = self.undo_groups();
        let ghost starts = self.spec_starts_group(undo_stop_before);
        let inv = edit.apply(&mut self.text, &mut self.tree_manager);
        let ghost s1 = self.content();
        self.undo_manager.add_undo(&inv, edit, undo_stop_before, undo_stop_after);
        self.undo_manager.clear_redos();
        self.text_changed = true;
        let end = inv.range.end;
        proof {
            let rec = UndoRecord { forward: *edit, inverse: inv, stop_after: undo_stop_after };
            assert(self.undo_groups() == Source::groups_after(old_groups, starts, rec));
            // the new record undoes the edit exactly, so the whole history
            // stays coherent with the new text
            assert(undo_coherent(self.undo_groups(), s1)) by {
                if starts {
                    assert(self.undo_groups().last() == seq![rec]);
                    assert(self.undo_groups().drop_last() =~= old_groups);
                    assert(group_undo_ok(seq![rec], s1)) by {
                        reveal_with_fuel(group_undo_ok, 2);
                        assert(seq![rec].last() == rec);
                        assert(seq![rec].drop_last() =~= Seq::<UndoRecord>::empty());
                    }
                    assert(group_unapply(seq![rec], s1) == s0) by {
                        reveal_with_fuel(group_unapply, 2);
                        assert(seq![rec].last() == rec);
                        assert(seq![rec].drop_last() =~= Seq::<UndoRecord>::empty());
                    }
                    assert(undo_coherent(old_groups, s0));
                } else {
                    let g = old_groups.last();
                    assert(old_groups.len() > 0 && g.len() > 0);
                    assert(group_undo_ok(g, s0) && undo_coherent(
                        old_groups.drop_last(),
                        group_unapply(g, s0),
                    ));
                    let g2 = g.push(rec);
                    assert(self.undo_groups().last() == g2);
                    assert(self.undo_groups().drop_last() =~= old_groups.drop_last());
                    assert(g2.last() == rec && g2.drop_last() =~= g);
                    assert(group_undo_ok(g2, s1));
                    assert(group_unapply(g2, s1) == group_unapply(g, s0));
                }
            }
            assert(redo_coherent(self.redo_groups(), s1));
            assert(exists|r0: UndoRecord|
                {
                    &&& #[trigger] r0.forward == *edit
                    &&& r0.stop_after == undo_stop_after
                    &&& range_valid(s1, r0.inverse.range)
                    &&& edit_applied(s1, r0.inverse.range, r0.inverse.text@) == s0
                    &&& self.undo_groups() == Source::groups_after(old_groups, starts, r0)
                }) by {
                assert(rec.forward == *edit);
            }
            assert(exists|r0: UndoRecord|
                {
                    &&& #[trigger] r0.forward.range == edit.range
                    &&& r0.forward.text@ == edit.text@
                    &&& r0.stop_after == undo_stop_after
                    &&& range_valid(s1, r0.inverse.range)
                    &&& edit_applied(s1, r0.inverse.range, r0.inverse.text@) == s0
                    &&& self.undo_groups() == Source::groups_after(old_groups, starts, r0)
                }) by {
                assert(rec.forward.range == edit.range);
            }
        }
        end
    }

    /// Applies an edit and moves the selection to the cursor just after
    /// the inserted text.
    pub fn apply_edit(
        &mut self,
        edit: &TextEdit,
        undo_stop_before: UndoStopCondition,
        undo_stop_after: bool,
        selections: &mut Selections,
    )
        requires
            old(self).wf(),
            range_valid(old(self).content(), edit.range),
        ensures
            final(self).wf(),
            Source::applied_edit_post(
                *old(self),
                *final(self),
                *edit,
                undo_stop_before,
                undo_stop_after,
            ),
            final(selections).spec_selection().spec_is_cursor(),
            final(selections).spec_selection().start.line == end_line_after(
                edit.range.spec_ordered().start,
                edit.text@,
            ),
            final(selections).spec_selection().start.col == end_col_after(
                edit.range.spec_ordered().start,
                edit.text@,
            ),
            valid_point(final(self).content(), final(selections).spec_selection().start),
            final(selections).spec_pseudo_selection() is None,
    {
        let end = self.apply_edit_helper(edit, undo_stop_before, undo_stop_after);
        selections.set_selection(TextRange::new_cursor(end));
    }

    /// Inserts a string over the selection, as its own undo step.
    pub fn insert_str(&mut self, add: &str, selections: &mut Selections)
        requires
            old(self).wf(),
            range_valid(old(self).content(), old(selections).spec_selection()),
        ensures
            final(self).wf(),
            ({
                let rng = old(selections).spec_selection().spec_ordered();
                &&& final(self).content() == edit_applied(old(self).content(), rng, add@)
                &&& final(self).changed()
                &&& final(self).redo_groups() == Seq::<Seq<UndoRecord>>::empty()
                &&& valid_point(final(self).content(), final(selections).spec_selection().start)
                &&& is_cursor_at(
                    final(selections).spec_selection(),
                    end_line_after(rng.start, add@),
                    end_col_after(rng.start, add@),
                )
                &&& Source::history_records(
                    *old(self),
                    *final(self),
                    rng,
                    add@,
                    UndoStopCondition::Always,
                    true,
                )
                &&& final(self).ignore_stack() == old(self).ignore_stack()
                &&& final(self).delete_stack() == old(self).delete_stack()
                &&& final(self).history_open()
                &&& final(self).spec_language() == old(self).spec_language()
            }),
    {
        let old_selection = selections.selection().ordered();
        let edit = TextEdit::new(String::from_str(add), old_selection);
        let end = self.apply_edit_helper(&edit, UndoStopCondition::Always, true);
        proof {
            reveal(edit_applied);
        }
        selections.set_selection(TextRange::new_cursor(end));
    }

    /// Handles typing a single character, with paired-delimiter
    /// completion: see [`edit_for_insert_char`] for the policy.
    pub fn insert_char(&mut self, add: &str, selections: &mut Selections)
        requires
            old(self).wf(),
            range_valid(old(self).content(), old(selections).spec_selection()),
            old(self).content().len() + add@.len() <= usize::MAX,
        ensures
            final(self).wf(),
            final(self).spec_language() == old(self).spec_language(),
            ({
                let s = old(self).content();
                let rng = old(selections).spec_selection().spec_ordered();
                let a = point_offset_spec(s, rng.start);
                let sel = final(selections).spec_selection();
                &&& valid_point(final(self).content(), sel.start)
                &&& sel.spec_is_cursor()
                &&& if consumes_closer(
                    s,
                    old(selections).spec_selection(),
                    a,
                    add@,
                    old(self).ignore_stack(),
                ) {
                    &&& final(self).content() == s
                    &&& is_cursor_at(sel, rng.start.line as int, rng.start.col + 1)
                    &&& final(self).ignore_stack() == old(self).ignore_stack().drop_last()
                    &&& final(self).delete_stack() == old(self).delete_stack()
                    &&& final(self).changed() == old(self).changed()
                    &&& final(self).undo_groups() == old(self).undo_groups()
                    &&& final(self).redo_groups() == old(self).redo_groups()
                    &&& final(self).history_open() == old(self).history_open()
                } else {
                    &&& final(self).content() == edit_applied(
                        s,
                        rng,
                        inserted_text(s, a, add@),
                    )
                    &&& final(self).changed()
                    &&& final(self).redo_groups() == Seq::<Seq<UndoRecord>>::empty()
                    &&& Source::history_records(
                        *old(self),
                        *final(self),
                        rng,
                        inserted_text(s, a, add@),
                        UndoStopCondition::IfNotMerged,
                        false,
                    )
                    &&& final(self).history_open()
                    &&& if add@.len() == 1 && is_pair_opener(add@[0]) && should_pair(
                        s,
                        a,
                        add@[0],
                    ) {
                        &&& is_cursor_at(sel, rng.start.line as int, rng.start.col + 1)
                        &&& final(self).ignore_stack() == old(self).ignore_stack().push(
                            closer_of(add@[0]),
                        )
                        &&& final(self).delete_stack() == old(self).delete_stack().push(true)
                    } else {
                        &&& is_cursor_at(
                            sel,
                            end_line_after(rng.start, add@),
                            end_col_after(rng.start, add@),
                        )
                        &&& final(self).ignore_stack() == old(self).ignore_stack()
                        &&& final(self).delete_stack() == if old(self).delete_stack().len() > 0 {
                            old(self).delete_stack().push(false)
                        } else {
                            old(self).delete_stack()
                        }
                    }
                }
            }),
    {
        let sel = selections.selection();
        let (edit, new_selection) = edit_for_insert_char(
            sel,
            &self.text,
            add,
            &mut self.input_ignore_stack,
            &mut self.paired_delete_stack,
        );
        match edit {
            Some(e) => {
                self.apply_edit_helper(&e, UndoStopCondition::IfNotMerged, false);
            },
            None => {},
        }
        selections.set_selection(new_selection);
    }

    /// Inserts a line break with automatic indentation, as its own undo
    /// step: see [`edit_for_insert_newline`].
    pub fn insert_newline(&mut self, selections: &mut Selections)
        requires
            old(self).wf(),
            range_valid(old(self).content(), old(selections).spec_selection()),
            old(self).content().len() + INDENT_WIDTH + 1 <= usize::MAX,
        ensures
            final(self).wf(),
            ({
                let s = old(self).content();
                let rng = old(selections).spec_selection().spec_ordered();
                let ls = crate::text_model::line_start_spec(s, rng.start.line);
                let ind = crate::str_util::ws_prefix(s.skip(ls));
                let llen = crate::text_model::line_len_spec(s, rng.start.line);
                let inc: int = if llen > 0 && s[ls + llen - 1]
                    == old(self).spec_language().new_scope_char.spec_char() {
                    INDENT_WIDTH as int
                } else {
                    0
                };
                let n = ind + inc;
                let sel = final(selections).spec_selection();
                &&& final(self).content() == edit_applied(s, rng, seq!['\n'] + spaces(n as nat))
                &&& final(self).changed()
                &&& final(self).redo_groups() == Seq::<Seq<UndoRecord>>::empty()
                &&& is_cursor_at(sel, rng.start.line + 1, n)
                &&& valid_point(final(self).content(), sel.start)
                &&& Source::history_records(
                    *old(self),
                    *final(self),
                    rng,
                    seq!['\n'] + spaces(n as nat),
                    UndoStopCondition::Always,
                    false,
                )
                &&& final(self).history_open()
                &&& final(self).spec_language() == old(self).spec_language()
                &&& final(self).ignore_stack() == old(self).ignore_stack()
                &&& final(self).delete_stack() == old(self).delete_stack()
            }),
    {
        let sel = selections.selection();
        let (edit, new_selection) = edit_for_insert_newline(
            sel,
            &self.text,
            self.language.new_scope_char,
        );
        self.apply_edit_helper(&edit, UndoStopCondition::Always, false);
        selections.set_selection(new_selection);
    }

    /// Handles a backspace: see [`edit_for_delete`] for the policy. At the
    /// document origin this is a no-op; every other case deletes exactly
    /// the range [`crate::edit_generation::delete_target`] names and puts
    /// the cursor at its start.
    pub fn delete(&mut self, movement: TextMovement, selections: &mut Selections)
        requires
            old(self).wf(),
            range_valid(old(self).content(), old(selections).spec_selection()),
            old(selections).spec_pseudo_selection() is Some ==> range_valid(
                old(self).content(),
                old(selections).spec_pseudo_selection().unwrap(),
            ),
        ensures
            final(self).wf(),
            final(self).spec_language() == old(self).spec_language(),
            ({
                let s = old(self).content();
                let sel = old(selections).spec_selection();
                let pseudo = old(selections).spec_pseudo_selection();
                let tgt = crate::edit_generation::delete_target(
                    s,
                    sel,
                    pseudo,
                    movement,
                    old(self).delete_stack(),
                );
                match tgt {
                    Option::None => {
                        &&& final(self).content() == s
                        &&& final(selections).spec_selection() == sel
                        &&& final(self).changed() == old(self).changed()
                        &&& final(self).undo_groups() == old(self).undo_groups()
                        &&& final(self).redo_groups() == old(self).redo_groups()
                        &&& final(self).ignore_stack() == old(self).ignore_stack()
                        &&& final(self).delete_stack() == old(self).delete_stack()
                        &&& final(self).history_open() == old(self).history_open()
                    },
                    Option::Some(rng) => {
                        &&& final(self).content() == edit_applied(s, rng, Seq::<char>::empty())
                        &&& is_cursor_at(
                            final(selections).spec_selection(),
                            rng.start.line as int,
                            rng.start.col as int,
                        )
                        &&& valid_point(
                            final(self).content(),
                            final(selections).spec_selection().start,
                        )
                        &&& final(self).changed()
                        &&& final(self).redo_groups() == Seq::<Seq<UndoRecord>>::empty()
                        &&& Source::history_records(
                            *old(self),
                            *final(self),
                            rng,
                            Seq::<char>::empty(),
                            UndoStopCondition::IfNotMerged,
                            false,
                        )
                        &&& final(self).history_open()
                    },
                }
            }),
            ({
                let s = old(self).content();
                let sel = old(selections).spec_selection();
                let pseudo = old(selections).spec_pseudo_selection();
                let a = point_offset_spec(s, sel.spec_ordered().start);
                let plain = crate::edit_generation::plain_delete_case(s, sel, pseudo);
                &&& if plain && crate::edit_generation::delete_span(s, a, movement) == 1 && old(
                    self,
                ).delete_stack().len() > 0 {
                    final(self).delete_stack() == old(self).delete_stack().drop_last()
                } else {
                    final(self).delete_stack() == old(self).delete_stack()
                }
                &&& if plain && crate::edit_generation::delete_linked(
                    s,
                    sel,
                    movement,
                    old(self).delete_stack(),
                ) && old(self).ignore_stack().len() > 0 {
                    final(self).ignore_stack() == old(self).ignore_stack().drop_last()
                } else {
                    final(self).ignore_stack() == old(self).ignore_stack()
                }
            }),
    {
        let sel = selections.selection();
        let pseudo = selections.pseudo_selection();
        let (edit, new_selection) = edit_for_delete(
            sel,
            &self.text,
            movement,
            pseudo,
            &mut self.input_ignore_stack,
            &mut self.paired_delete_stack,
        );
        match edit {
            Some(e) => {
                self.apply_edit_helper(&e, UndoStopCondition::IfNotMerged, false);
                proof {
                    reveal(edit_applied);
                }
                selections.set_selection(new_selection);
            },
            None => {
                selections.set_selection(new_selection);
            },
        }
    }

    /// Indents every line touched by the selection by one unit, as its own
    /// undo step.
    pub fn indent(&mut self, selections: &mut Selections)
        requires
            old(self).wf(),
            range_valid(old(self).content(), old(selections).spec_selection()),
            old(self).content().len() * 6 + 5 <= usize::MAX,
        ensures
            final(self).wf(),
            ({
                let s = old(self).content();
                let rng = old(selections).spec_selection().spec_ordered();
                let t = spaces(INDENT_WIDTH as nat) + ind_from(full_line_text(s, rng));
                &&& final(self).content() == edit_applied(s, full_line_range(s, rng), t)
                &&& final(self).changed()
                &&& valid_point(final(self).content(), final(selections).spec_selection().start)
                &&& is_cursor_at(
                    final(selections).spec_selection(),
                    end_line_after(full_line_range(s, rng).start, t),
                    end_col_after(full_line_range(s, rng).start, t),
                )
                &&& Source::history_records(
                    *old(self),
                    *final(self),
                    full_line_range(s, rng),
                    t,
                    UndoStopCondition::Always,
                    true,
                )
                &&& final(self).history_open()
                &&& final(self).spec_language() == old(self).spec_language()
                &&& final(self).ignore_stack() == old(self).ignore_stack()
                &&& final(self).delete_stack() == old(self).delete_stack()
            }),
    {
        let sel = selections.selection();
        let (edit, new_selection) = edit_for_indent(sel, &self.text);
        self.apply_edit_helper(&edit, UndoStopCondition::Always, true);
        selections.set_selection(new_selection);
    }

    /// Removes up to one indent unit from every line touched by the
    /// selection, as its own undo step.
    pub fn unindent(&mut self, selections: &mut Selections)
        requires
            old(self).wf(),
            range_valid(old(self).content(), old(selections).spec_selection()),
            old(self).content().len() * 2 + 5 <= usize::MAX,
        ensures
            final(self).wf(),
            ({
                let s = old(self).content();
                let rng = old(selections).spec_selection().spec_ordered();
                let t = unind_from(full_line_text(s, rng), INDENT_WIDTH as nat);
                &&& final(self).content() == edit_applied(s, full_line_range(s, rng), t)
                &&& final(self).changed()
                &&& valid_point(final(self).content(), final(selections).spec_selection().start)
                &&& is_cursor_at(
                    final(selections).spec_selection(),
                    end_line_after(full_line_range(s, rng).start, t),
                    end_col_after(full_line_range(s, rng).start, t),
                )
                &&& Source::history_records(
                    *old(self),
                    *final(self),
                    full_line_range(s, rng),
                    t,
                    UndoStopCondition::Always,
                    true,
                )
                &&& final(self).history_open()
                &&& final(self).spec_language() == old(self).spec_language()
                &&& final(self).ignore_stack() == old(self).ignore_stack()
                &&& final(self).delete_stack() == old(self).delete_stack()
            }),
    {
        let sel = selections.selection();
        let (edit, new_selection) = edit_for_unindent(sel, &self.text);
        self.apply_edit_helper(&edit, UndoStopCondition::Always, true);
        selections.set_selection(new_selection);
    }

    /// Undoes the most recent undo group, restoring the buffer to the
    /// state before its edits and moving the selection to where those
    /// edits began. With an empty history nothing changes.
    pub fn undo(&mut self, selections: &mut Selections)
        requires
            old(self).wf(),
        ensures
            final(self).wf(),
            final(self).spec_language() == old(self).spec_language(),
            !final(self).history_open(),
            old(self).undo_groups().len() == 0 ==> {
                &&& final(self).content() == old(self).content()
                &&& final(self).undo_groups() == old(self).undo_groups()
                &&& final(self).redo_groups() == old(self).redo_groups()
                &&& final(selections).spec_selection() == old(selections).spec_selection()
                &&& final(self).changed() == old(self).changed()
            },
            old(self).undo_groups().len() > 0 ==> {
                let g = old(self).undo_groups().last();
                &&& final(self).content() == group_unapply(g, old(self).content())
                &&& final(self).undo_groups() == old(self).undo_groups().drop_last()
                &&& final(self).redo_groups() =~= old(self).redo_groups().push(g)
                &&& final(selections).spec_selection() == g[0].forward.range
                &&& range_valid(final(self).content(), g[0].forward.range)
                &&& final(self).changed()
            },
    {
        match self.undo_manager.apply_undo(&mut self.text, &mut self.tree_manager) {
            Some(new_selection) => {
                self.text_changed = true;
                selections.set_selection(new_selection);
            },
            None => {},
        }
    }

    /// Replays the most recently undone group. With an empty redo stack
    /// nothing changes.
    pub fn redo(&mut self, selections: &mut Selections)
        requires
            old(self).wf(),
        ensures
            final(self).wf(),
            final(self).spec_language() == old(self).spec_language(),
            !final(self).history_open(),
            old(self).redo_groups().len() == 0 ==> {
                &&& final(self).content() == old(self).content()
                &&& final(self).undo_groups() == old(self).undo_groups()
                &&& final(self).redo_groups() == old(self).redo_groups()
                &&& final(selections).spec_selection() == old(selections).spec_selection()
                &&& final(self).changed() == old(self).changed()
            },
            old(self).redo_groups().len() > 0 ==> {
                let g = old(self).redo_groups().last();
                let e = g.last().inverse.range.end;
                &&& final(self).content() == group_fwd(g, old(self).content())
                &&& final(self).redo_groups() == old(self).redo_groups().drop_last()
                &&& final(self).undo_groups() =~= old(self).undo_groups().push(g)
                &&& final(selections).spec_selection() == (TextRange { start: e, end: e })
                &&& valid_point(final(self).content(), e)
                &&& final(self).changed()
            },
    {
        match self.undo_manager.apply_redo(&mut self.text, &mut self.tree_manager) {
            Some(new_selection) => {
                self.text_changed = true;
                selections.set_selection(new_selection);
            },
            None => {},
        }
    }

    /// Tells the document that the cursor moved for a reason other than an
    /// edit: the pairing stacks are cleared together and the open undo
    /// group is force-closed, so later keystrokes start a fresh group.
    pub fn external_cursor_move(&mut self)
        requires
            old(self).wf(),
        ensures
            final(self).wf(),
            final(self).content() == old(self).content(),
            final(self).ignore_stack() == Seq::<char>::empty(),
            final(self).delete_stack() == Seq::<bool>::empty(),
            final(self).undo_groups() == old(self).undo_groups(),
            final(self).redo_groups() == old(self).redo_groups(),
            !final(self).history_open(),
            final(self).spec_language() == old(self).spec_language(),
            final(self).changed() == old(self).changed(),
    {
        self.input_ignore_stack = Vec::new();
        self.paired_delete_stack = Vec::new();
        self.undo_manager.add_undo_stop();
    }
}

} // verus!
