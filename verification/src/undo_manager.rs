//! Grouped undo/redo history.
//!
//! Every applied edit is recorded as an [`UndoRecord`]: the forward edit
//! together with its exact inverse. Records are grouped under a merge
//! policy — a run of plain keystrokes coalesces into one group, while
//! newlines, pastes and the like open fresh groups — and whole groups are
//! undone or redone atomically.
//!
//! The history is *coherent* with the current buffer text: undoing the
//! records of the top group, newest first, walks back through exactly the
//! states the forward edits produced. [`UndoManager::wf`] captures this,
//! and the manager's operations preserve it, which is why replaying a
//! group can never hit an out-of-bounds edit.

use vstd::prelude::*;

use crate::text_edit::{edit_applied, range_valid, TextEdit};
use crate::text_range::TextRange;
use crate::tree_manager::TreeManager;

verus! {

/// One recorded edit: the forward edit as it was applied, its inverse, and
/// whether the following record must start a new group.
pub struct UndoRecord {
    pub forward: TextEdit,
    pub inverse: TextEdit,
    pub stop_after: bool,
}

/// When `add_undo` must start a new group.
#[derive(Clone, Copy, PartialEq, Eq, Structural, Debug)]
pub enum UndoStopCondition {
    /// Unconditionally open a new group.
    Always,
    /// Open a new group only if the record cannot merge into the open one:
    /// there is none, it is empty, or its last record stops after itself.
    IfNotMerged,
}

/// The text reached from `post` by applying the inverses of `g`, newest
/// record first.
pub open spec fn group_unapply(g: Seq<UndoRecord>, post: Seq<char>) -> Seq<char>
    decreases g.len(),
{
    if g.len() == 0 {
        post
    } else {
        group_unapply(
            g.drop_last(),
            edit_applied(post, g.last().inverse.range, g.last().inverse.text@),
        )
    }
}

/// The text reached from `pre` by applying the forward edits of `g` in
/// recorded order.
pub open spec fn group_fwd(g: Seq<UndoRecord>, pre: Seq<char>) -> Seq<char>
    decreases g.len(),
{
    if g.len() == 0 {
        pre
    } else {
        group_fwd(g.skip(1), edit_applied(pre, g[0].forward.range, g[0].forward.text@))
    }
}

/// The records of `g` form a coherent chain ending at `post`: each inverse
/// addresses the state left by its forward edit and undoes it exactly.
pub open spec fn group_undo_ok(g: Seq<UndoRecord>, post: Seq<char>) -> bool
    decreases g.len(),
{
    if g.len() == 0 {
        true
    } else {
        let r = g.last();
        let pre = edit_applied(post, r.inverse.range, r.inverse.text@);
        &&& range_valid(post, r.inverse.range)
        &&& range_valid(pre, r.forward.range)
        &&& edit_applied(pre, r.forward.range, r.forward.text@) == post
        &&& group_undo_ok(g.drop_last(), pre)
    }
}

/// The records of `g` form a coherent chain starting at `pre`: each
/// forward edit applies in turn and its inverse undoes it exactly.
pub open spec fn group_fwd_ok(g: Seq<UndoRecord>, pre: Seq<char>) -> bool
    decreases g.len(),
{
    if g.len() == 0 {
        true
    } else {
        let r = g[0];
        let post = edit_applied(pre, r.forward.range, r.forward.text@);
        &&& range_valid(pre, r.forward.range)
        &&& range_valid(post, r.inverse.range)
        &&& edit_applied(post, r.inverse.range, r.inverse.text@) == pre
        &&& group_fwd_ok(g.skip(1), post)
    }
}

/// Every group of the undo stack is a non-empty coherent chain; the top
/// group ends at the current text `cur`, each earlier group at the state
/// the one above it restores.
pub open spec fn undo_coherent(groups: Seq<Seq<UndoRecord>>, cur: Seq<char>) -> bool
    decreases groups.len(),
{
    if groups.len() == 0 {
        true
    } else {
        &&& groups.last().len() > 0
        &&& group_undo_ok(groups.last(), cur)
        &&& undo_coherent(groups.drop_last(), group_unapply(groups.last(), cur))
    }
}

/// Every group of the redo stack is a non-empty coherent chain; the top
/// group replays from the current text `cur`, each earlier group from the
/// state the one above it produces.
pub open spec fn redo_coherent(groups: Seq<Seq<UndoRecord>>, cur: Seq<char>) -> bool
    decreases groups.len(),
{
    if groups.len() == 0 {
        true
    } else {
        &&& groups.last().len() > 0
        &&& group_fwd_ok(groups.last(), cur)
        &&& redo_coherent(groups.drop_last(), group_fwd(groups.last(), cur))
    }
}

/// Prepending a record to a chain applies its inverse last.
pub proof fn lemma_unapply_prepend(r: UndoRecord, g: Seq<UndoRecord>, post: Seq<char>)
    ensures
        group_unapply(seq![r] + g, post) == edit_applied(
            group_unapply(g, post),
            r.inverse.range,
            r.inverse.text@,
        ),
    decreases g.len(),
{
    reveal_with_fuel(group_unapply, 3);
    if g.len() == 0 {
        assert((seq![r] + g).last() == r);
        assert((seq![r] + g).drop_last() =~= Seq::<UndoRecord>::empty());
    } else {
        assert((seq![r] + g).last() == g.last());
        assert((seq![r] + g).drop_last() =~= seq![r] + g.drop_last());
        lemma_unapply_prepend(
            r,
            g.drop_last(),
            edit_applied(post, g.last().inverse.range, g.last().inverse.text@),
        );
    }
}

/// Appending a record to a chain applies its forward edit last.
pub proof fn lemma_fwd_append(g: Seq<UndoRecord>, r: UndoRecord, pre: Seq<char>)
    ensures
        group_fwd(g.push(r), pre) == edit_applied(
            group_fwd(g, pre),
            r.forward.range,
            r.forward.text@,
        ),
    decreases g.len(),
{
    reveal_with_fuel(group_fwd, 3);
    if g.len() == 0 {
        assert(g.push(r)[0] == r);
        assert(g.push(r).skip(1) =~= Seq::<UndoRecord>::empty());
    } else {
        assert(g.push(r)[0] == g[0]);
        assert(g.push(r).skip(1) =~= g.skip(1).push(r));
        lemma_fwd_append(g.skip(1), r, edit_applied(pre, g[0].forward.range, g[0].forward.text@));
    }
}

/// Likewise for coherence of the extended chain.
pub proof fn lemma_fwd_ok_append(g: Seq<UndoRecord>, r: UndoRecord, pre: Seq<char>)
    requires
        group_fwd_ok(g, pre),
        ({
            let mid = group_fwd(g, pre);
            let post = edit_applied(mid, r.forward.range, r.forward.text@);
            &&& range_valid(mid, r.forward.range)
            &&& range_valid(post, r.inverse.range)
            &&& edit_applied(post, r.inverse.range, r.inverse.text@) == mid
        }),
    ensures
        group_fwd_ok(g.push(r), pre),
    decreases g.len(),
{
    reveal_with_fuel(group_fwd_ok, 3);
    reveal_with_fuel(group_fwd, 3);
    if g.len() == 0 {
        assert(g.push(r)[0] == r);
        assert(g.push(r).skip(1) =~= Seq::<UndoRecord>::empty());
    } else {
        assert(g.push(r)[0] == g[0]);
        assert(g.push(r).skip(1) =~= g.skip(1).push(r));
        lemma_fwd_ok_append(
            g.skip(1),
            r,
            edit_applied(pre, g[0].forward.range, g[0].forward.text@),
        );
    }
}

/// Likewise for coherence with the record's inverse applied last.
pub proof fn lemma_undo_ok_prepend(r: UndoRecord, g: Seq<UndoRecord>, post: Seq<char>)
    requires
        group_undo_ok(g, post),
        ({
            let mid = group_unapply(g, post);
            let pre = edit_applied(mid, r.inverse.range, r.inverse.text@);
            &&& range_valid(mid, r.inverse.range)
            &&& range_valid(pre, r.forward.range)
            &&& edit_applied(pre, r.forward.range, r.forward.text@) == mid
        }),
    ensures
        group_undo_ok(seq![r] + g, post),
    decreases g.len(),
{
    reveal_with_fuel(group_undo_ok, 3);
    reveal_with_fuel(group_unapply, 3);
    if g.len() == 0 {
        assert((seq![r] + g).last() == r);
        assert((seq![r] + g).drop_last() =~= Seq::<UndoRecord>::empty());
    } else {
        assert((seq![r] + g).last() == g.last());
        assert((seq![r] + g).drop_last() =~= seq![r] + g.drop_last());
        lemma_undo_ok_prepend(
            r,
            g.drop_last(),
            edit_applied(post, g.last().inverse.range, g.last().inverse.text@),
        );
    }
}

/// A chain that undoes coherently from `post` replays coherently from the
/// state it restores, and lands back at `post`.
pub proof fn lemma_undo_to_redo(g: Seq<UndoRecord>, post: Seq<char>)
    requires
        group_undo_ok(g, post),
    ensures
        group_fwd_ok(g, group_unapply(g, post)),
        group_fwd(g, group_unapply(g, post)) == post,
    decreases g.len(),
{
    if g.len() > 0 {
        let r = g.last();
        let pre = edit_applied(post, r.inverse.range, r.inverse.text@);
        lemma_undo_to_redo(g.drop_last(), pre);
        lemma_fwd_append(g.drop_last(), r, group_unapply(g.drop_last(), pre));
        lemma_fwd_ok_append(g.drop_last(), r, group_unapply(g.drop_last(), pre));
        assert(g.drop_last().push(r) =~= g);
    }
}

/// A chain that replays coherently from `pre` undoes coherently from the
/// state it produces, and lands back at `pre`.
pub proof fn lemma_redo_to_undo(g: Seq<UndoRecord>, pre: Seq<char>)
    requires
        group_fwd_ok(g, pre),
    ensures
        group_undo_ok(g, group_fwd(g, pre)),
        group_unapply(g, group_fwd(g, pre)) == pre,
    decreases g.len(),
{
    if g.len() > 0 {
        let r = g[0];
        let post = edit_applied(pre, r.forward.range, r.forward.text@);
        lemma_redo_to_undo(g.skip(1), post);
        lemma_unapply_prepend(r, g.skip(1), group_fwd(g.skip(1), post));
        lemma_undo_ok_prepend(r, g.skip(1), group_fwd(g.skip(1), post));
        assert(seq![r] + g.skip(1) =~= g);
    }
}

/// Two stacks of undo groups plus the open-group flag.
pub struct UndoManager {
    undo_stack: Vec<Vec<UndoRecord>>,
    redo_stack: Vec<Vec<UndoRecord>>,
    open: bool,
}

impl UndoManager {
    /// The undo stack, oldest group first.
    pub closed spec fn undo_groups(&self) -> Seq<Seq<UndoRecord>> {
        self.undo_stack@.map_values(|g: Vec<UndoRecord>| g@)
    }

    /// The redo stack, oldest group first.
    pub closed spec fn redo_groups(&self) -> Seq<Seq<UndoRecord>> {
        self.redo_stack@.map_values(|g: Vec<UndoRecord>| g@)
    }

    /// Whether the top undo group is still open for merging.
    pub closed spec fn is_open(&self) -> bool {
        self.open
    }

    /// The whole history is coherent with the current text `cur`.
    pub open spec fn wf(&self, cur: Seq<char>) -> bool {
        &&& undo_coherent(self.undo_groups(), cur)
        &&& redo_coherent(self.redo_groups(), cur)
    }

    /// Whether the next record must open a new group rather than merge
    /// into the current one.
    pub open spec fn spec_starts_group(&self, stop_before: UndoStopCondition) -> bool {
        ||| stop_before == UndoStopCondition::Always
        ||| !self.is_open()
        ||| self.undo_groups().len() == 0
        ||| self.undo_groups().last().len() == 0
        ||| self.undo_groups().last().last().stop_after
    }

    pub fn new() -> (m: UndoManager)
        ensures
            m.undo_groups() =~= Seq::<Seq<UndoRecord>>::empty(),
            m.redo_groups() =~= Seq::<Seq<UndoRecord>>::empty(),
            !m.is_open(),
    {
        UndoManager { undo_stack: Vec::new(), redo_stack: Vec::new(), open: false }
    }

    /// Records one applied edit together with its inverse. A new group is
    /// opened when `stop_before` is `Always`, when no group is open, or
    /// when the previous record stopped after itself; otherwise the record
    /// merges into the open group. `stop_after` is remembered for the next
    /// call's decision.
    pub fn add_undo(
        &mut self,
        inverse: &TextEdit,
        forward: &TextEdit,
        stop_before: UndoStopCondition,
        stop_after: bool,
    )
        ensures
            final(self).redo_groups() == old(self).redo_groups(),
            final(self).is_open(),
            ({
                let rec = UndoRecord {
                    forward: *forward,
                    inverse: *inverse,
                    stop_after,
                };
                if old(self).spec_starts_group(stop_before) {
                    final(self).undo_groups() =~= old(self).undo_groups().push(seq![rec])
                } else {
                    final(self).undo_groups() =~= old(self).undo_groups().update(
                        old(self).undo_groups().len() - 1,
                        old(self).undo_groups().last().push(rec),
                    )
                }
            }),
    {
        let rec = UndoRecord {
            forward: forward.duplicate(),
            inverse: inverse.duplicate(),
            stop_after,
        };
        let n = self.undo_stack.len();
        let needs_new = match stop_before {
            UndoStopCondition::Always => true,
            UndoStopCondition::IfNotMerged => {
                if !self.open || n == 0 {
                    true
                } else {
                    let top = &self.undo_stack[n - 1];
                    let k = top.len();
                    k == 0 || top[k - 1].stop_after
                }
            },
        };
        if needs_new {
            let mut g: Vec<UndoRecord> = Vec::new();
            g.push(rec);
            self.undo_stack.push(g);
        } else {
            let top = &mut self.undo_stack[n - 1];
            top.push(rec);
        }
        self.open = true;
    }

    /// Forgets every redo group. Called on each edit that is not itself an
    /// undo/redo replay.
    pub fn clear_redos(&mut self)
        ensures
            final(self).undo_groups() == old(self).undo_groups(),
            final(self).redo_groups() =~= Seq::<Seq<UndoRecord>>::empty(),
            final(self).is_open() == old(self).is_open(),
    {
        self.redo_stack = Vec::new();
    }

    /// Closes the open group without adding a record, so that the next
    /// record starts a fresh group. Used when the cursor teleports.
    pub fn add_undo_stop(&mut self)
        ensures
            final(self).undo_groups() == old(self).undo_groups(),
            final(self).redo_groups() == old(self).redo_groups(),
            !final(self).is_open(),
    {
        self.open = false;
    }

    /// Undoes the most recent group, applying its inverse edits newest
    /// first, and moves the group onto the redo stack. Returns the
    /// selection that existed before the group's forward edits, or `None`
    /// if there was nothing to undo.
    pub fn apply_undo(&mut self, rope: &mut ropey::Rope, tree: &mut TreeManager) -> (r: Option<
        TextRange,
    >)
        requires
            old(self).wf(crate::buffer::rope_text(*old(rope))),
        ensures
            final(self).wf(crate::buffer::rope_text(*final(rope))),
            old(self).undo_groups().len() == 0 ==> {
                &&& r is None
                &&& crate::buffer::rope_text(*final(rope)) == crate::buffer::rope_text(*old(rope))
                &&& final(self).undo_groups() == old(self).undo_groups()
                &&& final(self).redo_groups() == old(self).redo_groups()
            },
            old(self).undo_groups().len() > 0 ==> {
                let g = old(self).undo_groups().last();
                &&& crate::buffer::rope_text(*final(rope)) == group_unapply(
                    g,
                    crate::buffer::rope_text(*old(rope)),
                )
                &&& final(self).undo_groups() == old(self).undo_groups().drop_last()
                &&& final(self).redo_groups() =~= old(self).redo_groups().push(g)
                &&& r == Some(g[0].forward.range)
                &&& range_valid(crate::buffer::rope_text(*final(rope)), g[0].forward.range)
            },
            !final(self).is_open(),
    {
        self.open = false;
        let ghost s0 = crate::buffer::rope_text(*rope);
        match self.undo_stack.pop() {
            None => {
                proof {
                    assert(self.undo_stack@.len() == 0);
                }
                None
            },
            Some(group) => {
                let ghost g = group@;
                proof {
                    assert(old(self).undo_groups().last() == g);
                    assert(old(self).undo_groups().drop_last() =~= self.undo_groups());
                    assert(group_undo_ok(g, s0) && g.len() > 0);
                }
                let sel = group_first_range(&group);
                let mut i = group.len();
                proof {
                    assert(g.take(i as int) =~= g);
                }
                while i > 0
                    invariant
                        i <= g.len(),
                        group@ == g,
                        g.len() > 0,
                        group_undo_ok(g.take(i as int), crate::buffer::rope_text(*rope)),
                        group_unapply(
                            g.skip(i as int),
                            s0,
                        ) == crate::buffer::rope_text(*rope),
                        i == 0 ==> range_valid(
                            crate::buffer::rope_text(*rope),
                            g[0].forward.range,
                        ),
                    decreases i,
                {
                    let ghost cur = crate::buffer::rope_text(*rope);
                    proof {
                        assert(g.take(i as int).last() == g[i - 1]);
                        assert(g.take(i as int).drop_last() =~= g.take(i - 1));
                    }
                    let rec = &group[i - 1];
                    let _discard = rec.inverse.apply(rope, tree);
                    proof {
                        assert(g.skip(i - 1) =~= seq![g[i - 1]] + g.skip(i as int));
                        lemma_unapply_prepend(g[i - 1], g.skip(i as int), s0);
                    }
                    i = i - 1;
                }
                proof {
                    assert(g.skip(0) =~= g);
                    lemma_undo_to_redo(g, s0);
                }
                self.redo_stack.push(group);
                proof {
                    assert(self.redo_groups() =~= old(self).redo_groups().push(g));
                    let cur = crate::buffer::rope_text(*rope);
                    assert(cur == group_unapply(g, s0));
                    assert(undo_coherent(self.undo_groups(), cur));
                    assert(redo_coherent(self.redo_groups(), cur)) by {
                        assert(self.redo_groups().last() == g);
                        assert(self.redo_groups().drop_last() =~= old(self).redo_groups());
                        assert(group_fwd_ok(g, cur));
                        assert(group_fwd(g, cur) == s0);
                    }
                }
                Some(sel)
            },
        }
    }

    /// Redoes the most recently undone group, replaying its forward edits
    /// in order, and moves it back onto the undo stack. Returns the cursor
    /// range after the group's last edit, or `None` if there was nothing
    /// to redo.
    pub fn apply_redo(&mut self, rope: &mut ropey::Rope, tree: &mut TreeManager) -> (r: Option<
        TextRange,
    >)
        requires
            old(self).wf(crate::buffer::rope_text(*old(rope))),
        ensures
            final(self).wf(crate::buffer::rope_text(*final(rope))),
            old(self).redo_groups().len() == 0 ==> {
                &&& r is None
                &&& crate::buffer::rope_text(*final(rope)) == crate::buffer::rope_text(*old(rope))
                &&& final(self).undo_groups() == old(self).undo_groups()
                &&& final(self).redo_groups() == old(self).redo_groups()
            },
            old(self).redo_groups().len() > 0 ==> {
                let g = old(self).redo_groups().last();
                &&& crate::buffer::rope_text(*final(rope)) == group_fwd(
                    g,
                    crate::buffer::rope_text(*old(rope)),
                )
                &&& final(self).redo_groups() == old(self).redo_groups().drop_last()
                &&& final(self).undo_groups() =~= old(self).undo_groups().push(g)
                &&& ({
                    let e = g.last().inverse.range.end;
                    &&& r == Some(TextRange { start: e, end: e })
                    &&& crate::text_model::valid_point(crate::buffer::rope_text(*final(rope)), e)
                })
            },
            !final(self).is_open(),
    {
        self.open = false;
        let ghost s0 = crate::buffer::rope_text(*rope);
        match self.redo_stack.pop() {
            None => {
                proof {
                    assert(self.redo_stack@.len() == 0);
                }
                None
            },
            Some(group) => {
                let ghost g = group@;
                proof {
                    assert(old(self).redo_groups().last() == g);
                    assert(old(self).redo_groups().drop_last() =~= self.redo_groups());
                    assert(group_fwd_ok(g, s0) && g.len() > 0);
                }
                let sel = TextRange::new_cursor(group_last_end(&group));
                let n = group.len();
                let mut i: usize = 0;
                proof {
                    assert(g.skip(0) =~= g);
                }
                while i < n
                    invariant
                        i <= n,
                        n == g.len(),
                        group@ == g,
                        g.len() > 0,
                        group_fwd_ok(g.skip(i as int), crate::buffer::rope_text(*rope)),
                        group_fwd(g.take(i as int), s0) == crate::buffer::rope_text(*rope),
                        i == n ==> range_valid(
                            crate::buffer::rope_text(*rope),
                            g.last().inverse.range,
                        ),
                    decreases n - i,
                {
                    let ghost cur = crate::buffer::rope_text(*rope);
                    proof {
                        assert(g.skip(i as int)[0] == g[i as int]);
                        assert(g.skip(i as int).skip(1) =~= g.skip(i + 1));
                    }
                    let rec = &group[i];
                    let inv = rec.forward.apply(rope, tree);
                    proof {
                        assert(g.take(i + 1) =~= g.take(i as int).push(g[i as int]));
                        lemma_fwd_append(g.take(i as int), g[i as int], s0);
                        if i + 1 == n {
                            assert(g.last() == g[i as int]);
                        }
                    }
                    i = i + 1;
                }
                proof {
                    assert(g.take(n as int) =~= g);
                    lemma_redo_to_undo(g, s0);
                }
                self.undo_stack.push(group);
                proof {
                    assert(self.undo_groups() =~= old(self).undo_groups().push(g));
                    let cur = crate::buffer::rope_text(*rope);
                    assert(cur == group_fwd(g, s0));
                    // either orientation of the recorded range puts its end
                    // among the valid ordered endpoints
                    assert(crate::text_model::valid_point(cur, g.last().inverse.range.end)) by {
                        let rr = g.last().inverse.range;
                        if rr.start.spec_le(rr.end) {
                            assert(rr.spec_ordered().end == rr.end);
                        } else {
                            assert(rr.spec_ordered().start == rr.end);
                        }
                    }
                    assert(redo_coherent(self.redo_groups(), cur));
                    assert(undo_coherent(self.undo_groups(), cur)) by {
                        assert(self.undo_groups().last() == g);
                        assert(self.undo_groups().drop_last() =~= old(self).undo_groups());
                        assert(group_undo_ok(g, cur));
                        assert(group_unapply(g, cur) == s0);
                    }
                }
                Some(sel)
            },
        }
    }
}

/// The pre-edit selection of a group's first record.
fn group_first_range(g: &Vec<UndoRecord>) -> (r: TextRange)
    requires
        g@.len() > 0,
    ensures
        r == g@[0].forward.range,
{
    g[0].forward.range
}

/// The cursor just after a group's last forward edit: the end point of
/// the recorded inverse's range.
fn group_last_end(g: &Vec<UndoRecord>) -> (p: crate::text_range::TextPoint)
    requires
        g@.len() > 0,
    ensures
        p == g@.last().inverse.range.end,
{
    g[g.len() - 1].inverse.range.end
}

} // verus!
