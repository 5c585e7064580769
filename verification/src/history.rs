//! Snapshot-based undo/redo history of a dialogue graph.
//!
//! `save_snapshot` is called before each edit with the graph as it was; `undo`
//! hands back the most recent snapshot and keeps the current graph for `redo`.
//! The history holds at most `MAX_HISTORY` snapshots in its two stacks together.

use vstd::prelude::*;
use std::time::{Duration, Instant};
use crate::copy::copy_graph;
use crate::model::{graph_view, DialogueGraph, GraphV};

verus! {

/// The largest number of snapshots kept.
pub const MAX_HISTORY: usize = 100;

/// Minimum interval, in milliseconds, between two debounced snapshots.
pub const DEBOUNCE_MS: u128 = 300;

#[verifier::external_type_specification]
#[verifier::external_body]
pub struct ExInstant(std::time::Instant);

/// `std::time::Instant::now`: the current instant of the monotonic clock.
/// Nothing is stated about the value.
#[verifier::external_body]
fn instant_now() -> Instant {
    Instant::now()
}

/// `std::time::Instant::elapsed`: the time passed since `t`. Nothing is stated
/// about the value.
#[verifier::external_body]
fn instant_elapsed(t: &Instant) -> Duration {
    t.elapsed()
}

/// `std::time::Duration::as_millis`: the whole milliseconds of `d`. Nothing
/// is stated about the value.
#[verifier::external_body]
fn duration_millis(d: &Duration) -> u128 {
    d.as_millis()
}

/// The two stacks of a history, as sequences of graph views; the last
/// element of each stack is its top.
pub struct HistoryV {
    pub undo: Seq<GraphV>,
    pub redo: Seq<GraphV>,
}

/// The undo stack after pushing `g`: the oldest snapshot is dropped when the
/// stack would exceed `MAX_HISTORY`.
pub open spec fn push_capped(s: Seq<GraphV>, g: GraphV) -> Seq<GraphV> {
    if s.push(g).len() > MAX_HISTORY {
        s.push(g).drop_first()
    } else {
        s.push(g)
    }
}

/// The history after a snapshot of `g` is taken: `g` is pushed (capped) on
/// the undo stack and the redo stack is emptied.
pub open spec fn spec_save(h: HistoryV, g: GraphV) -> HistoryV {
    HistoryV { undo: push_capped(h.undo, g), redo: Seq::empty() }
}

/// Undo with `current` as the graph being left: the top of the undo stack is
/// returned and `current` is pushed on the redo stack. Nothing changes when
/// there is nothing to undo.
pub open spec fn spec_undo(h: HistoryV, current: GraphV) -> (HistoryV, Option<GraphV>) {
    if h.undo.len() == 0 {
        (h, None)
    } else {
        (HistoryV { undo: h.undo.drop_last(), redo: h.redo.push(current) }, Some(h.undo.last()))
    }
}

/// Redo with `current` as the graph being left: the top of the redo stack is
/// returned and `current` is pushed on the undo stack.
pub open spec fn spec_redo(h: HistoryV, current: GraphV) -> (HistoryV, Option<GraphV>) {
    if h.redo.len() == 0 {
        (h, None)
    } else {
        (HistoryV { undo: h.undo.push(current), redo: h.redo.drop_last() }, Some(h.redo.last()))
    }
}

/// Whether a debounced snapshot is taken, given the milliseconds since the
/// previous snapshot (`None` when there was none).
pub open spec fn debounce_allows(elapsed_ms: Option<u128>) -> bool {
    match elapsed_ms {
        None => true,
        Some(ms) => ms >= DEBOUNCE_MS,
    }
}

/// Snapshot-based undo/redo history.
pub struct UndoHistory {
    undo_stack: Vec<DialogueGraph>,
    redo_stack: Vec<DialogueGraph>,
    last_snapshot_time: Option<Instant>,
}

pub open spec fn stack_view(s: Seq<DialogueGraph>) -> Seq<GraphV> {
    s.map_values(|g: DialogueGraph| graph_view(g))
}

impl UndoHistory {
    #[verifier::type_invariant]
    spec fn bounded(&self) -> bool {
        self.undo_stack.len() + self.redo_stack.len() <= MAX_HISTORY
    }

    /// The two stacks of the history.
    pub closed spec fn view_stacks(&self) -> HistoryV {
        HistoryV { undo: stack_view(self.undo_stack@), redo: stack_view(self.redo_stack@) }
    }

    /// Whether a snapshot has been taken since creation or the last `clear`.
    pub closed spec fn has_timestamp(&self) -> bool {
        self.last_snapshot_time is Some
    }

    /// An empty history.
    pub fn new() -> (h: UndoHistory)
        ensures
            h.view_stacks().undo.len() == 0,
            h.view_stacks().redo.len() == 0,
            !h.has_timestamp(),
    {
        let h = UndoHistory { undo_stack: Vec::new(), redo_stack: Vec::new(), last_snapshot_time: None };
        assert(stack_view(h.undo_stack@) =~= Seq::<GraphV>::empty());
        assert(stack_view(h.redo_stack@) =~= Seq::<GraphV>::empty());
        h
    }

    /// Pushes an owned graph as the newest snapshot and empties the redo stack.
    fn push_snapshot(&mut self, graph: DialogueGraph)
        ensures
            final(self).view_stacks() == spec_save(old(self).view_stacks(), graph_view(graph)),
            final(self).has_timestamp(),
    {
        proof { use_type_invariant(&*self); }
        let mut undo: Vec<DialogueGraph> = Vec::new();
        std::mem::swap(&mut undo, &mut self.undo_stack);
        let mut redo: Vec<DialogueGraph> = Vec::new();
        std::mem::swap(&mut redo, &mut self.redo_stack);
        let ghost before = undo@;
        undo.push(graph);
        if undo.len() > MAX_HISTORY {
            let _oldest = undo.remove(0);
            assert(undo@ =~= before.push(graph).drop_first());
        }
        proof {
            assert(stack_view(before.push(graph)) =~= stack_view(before).push(graph_view(graph)));
            if before.push(graph).len() > MAX_HISTORY {
                assert(stack_view(before.push(graph).drop_first())
                    =~= stack_view(before).push(graph_view(graph)).drop_first());
            }
        }
        self.undo_stack = undo;
        self.last_snapshot_time = Some(instant_now());
        assert(stack_view(self.redo_stack@) =~= Seq::<GraphV>::empty());
    }

    /// Saves a copy of the graph as it is before an edit. The redo stack is
    /// emptied; past `MAX_HISTORY` snapshots the oldest one is dropped.
    pub fn save_snapshot(&mut self, graph: &DialogueGraph)
        ensures
            final(self).view_stacks() == spec_save(old(self).view_stacks(), graph_view(*graph)),
            final(self).has_timestamp(),
    {
        let copy = copy_graph(graph);
        self.push_snapshot(copy);
    }

    /// Pushes an already-copied graph as the newest snapshot, with the same
    /// effect as `save_snapshot`.
    pub fn push_undo(&mut self, graph: DialogueGraph)
        ensures
            final(self).view_stacks() == spec_save(old(self).view_stacks(), graph_view(graph)),
            final(self).has_timestamp(),
    {
        self.push_snapshot(graph);
    }

    /// Saves a snapshot when `elapsed_ms`, the milliseconds since the previous
    /// snapshot, is `None` or at least `DEBOUNCE_MS`; returns whether it did.
    pub fn save_snapshot_after(&mut self, graph: &DialogueGraph, elapsed_ms: Option<u128>) -> (saved: bool)
        ensures
            saved == debounce_allows(elapsed_ms),
            saved ==> final(self).view_stacks() == spec_save(old(self).view_stacks(), graph_view(*graph)),
            saved ==> final(self).has_timestamp(),
            !saved ==> final(self).view_stacks() == old(self).view_stacks(),
            !saved ==> final(self).has_timestamp() == old(self).has_timestamp(),
    {
        match elapsed_ms {
            Some(ms) => {
                if ms < DEBOUNCE_MS {
                    return false;
                }
            },
            None => {},
        }
        self.save_snapshot(graph);
        true
    }

    /// Saves a snapshot only if at least `DEBOUNCE_MS` milliseconds have passed
    /// since the previous one (or there was none); returns whether it did.
    pub fn save_snapshot_debounced(&mut self, graph: &DialogueGraph) -> (saved: bool)
        ensures
            !old(self).has_timestamp() ==> saved,
            saved ==> final(self).view_stacks() == spec_save(old(self).view_stacks(), graph_view(*graph)),
            saved ==> final(self).has_timestamp(),
            !saved ==> final(self).view_stacks() == old(self).view_stacks(),
            !saved ==> final(self).has_timestamp() == old(self).has_timestamp(),
    {
        let elapsed: Option<u128> = match &self.last_snapshot_time {
            Some(t) => {
                let d = instant_elapsed(t);
                Some(duration_millis(&d))
            },
            None => None,
        };
        self.save_snapshot_after(graph, elapsed)
    }

    /// Restores the previous state: returns the newest snapshot and keeps a
    /// copy of `current` for redo. Returns `None`, changing nothing, when there
    /// is nothing to undo.
    pub fn undo(&mut self, current: &DialogueGraph) -> (r: Option<DialogueGraph>)
        ensures
            (final(self).view_stacks(), match r { Some(g) => Some(graph_view(g)), None => None })
                == spec_undo(old(self).view_stacks(), graph_view(*current)),
            final(self).has_timestamp() == old(self).has_timestamp(),
    {
        proof { use_type_invariant(&*self); }
        if self.undo_stack.len() == 0 {
            return None;
        }
        let mut undo: Vec<DialogueGraph> = Vec::new();
        std::mem::swap(&mut undo, &mut self.undo_stack);
        let mut redo: Vec<DialogueGraph> = Vec::new();
        std::mem::swap(&mut redo, &mut self.redo_stack);
        let ghost u0 = undo@;
        let ghost r0 = redo@;
        let top = undo.pop();
        let copy = copy_graph(current);
        redo.push(copy);
        proof {
            assert(stack_view(undo@) =~= stack_view(u0).drop_last());
            assert(stack_view(redo@) =~= stack_view(r0).push(graph_view(*current)));
        }
        self.undo_stack = undo;
        self.redo_stack = redo;
        top
    }

    /// Restores the next state: returns the newest redo snapshot and pushes a
    /// copy of `current` on the undo stack. Returns `None`, changing nothing,
    /// when there is nothing to redo.
    pub fn redo(&mut self, current: &DialogueGraph) -> (r: Option<DialogueGraph>)
        ensures
            (final(self).view_stacks(), match r { Some(g) => Some(graph_view(g)), None => None })
                == spec_redo(old(self).view_stacks(), graph_view(*current)),
            final(self).has_timestamp() == old(self).has_timestamp(),
    {
        proof { use_type_invariant(&*self); }
        if self.redo_stack.len() == 0 {
            return None;
        }
        let mut undo: Vec<DialogueGraph> = Vec::new();
        std::mem::swap(&mut undo, &mut self.undo_stack);
        let mut redo: Vec<DialogueGraph> = Vec::new();
        std::mem::swap(&mut redo, &mut self.redo_stack);
        let ghost u0 = undo@;
        let ghost r0 = redo@;
        let top = redo.pop();
        let copy = copy_graph(current);
        undo.push(copy);
        proof {
            assert(stack_view(redo@) =~= stack_view(r0).drop_last());
            assert(stack_view(undo@) =~= stack_view(u0).push(graph_view(*current)));
        }
        self.redo_stack = redo;
        self.undo_stack = undo;
        top
    }

    /// Whether there is a snapshot to undo to.
    pub fn can_undo(&self) -> (r: bool)
        ensures
            r == (self.view_stacks().undo.len() > 0),
    {
        self.undo_stack.len() > 0
    }

    /// Whether there is a snapshot to redo to.
    pub fn can_redo(&self) -> (r: bool)
        ensures
            r == (self.view_stacks().redo.len() > 0),
    {
        self.redo_stack.len() > 0
    }

    /// Number of snapshots on the undo stack.
    pub fn undo_len(&self) -> (r: usize)
        ensures
            r == self.view_stacks().undo.len(),
            self.view_stacks().undo.len() + self.view_stacks().redo.len() <= MAX_HISTORY,
    {
        proof {
            use_type_invariant(self);
        }
        self.undo_stack.len()
    }

    /// Number of snapshots on the redo stack.
    pub fn redo_len(&self) -> (r: usize)
        ensures
            r == self.view_stacks().redo.len(),
            self.view_stacks().undo.len() + self.view_stacks().redo.len() <= MAX_HISTORY,
    {
        proof {
            use_type_invariant(self);
        }
        self.redo_stack.len()
    }

    /// Forgets every snapshot and the time of the last one.
    pub fn clear(&mut self)
        ensures
            final(self).view_stacks().undo.len() == 0,
            final(self).view_stacks().redo.len() == 0,
            !final(self).has_timestamp(),
    {
        *self = UndoHistory::new();
    }
}

impl Default for UndoHistory {
    fn default() -> (h: UndoHistory)
        ensures
            h.view_stacks().undo.len() == 0,
            h.view_stacks().redo.len() == 0,
            !h.has_timestamp(),
    {
        UndoHistory::new()
    }
}

/// Undo right after a snapshot of `g` gives `g` back, whatever the current graph.
pub proof fn law_undo_restores_snapshot(h: HistoryV, g: GraphV, current: GraphV)
    ensures
        spec_undo(spec_save(h, g), current).1 == Some(g),
{
}

/// A snapshot empties the redo stack: after an edit there is nothing to redo.
pub proof fn law_save_clears_redo(h: HistoryV, g: GraphV, current: GraphV)
    ensures
        spec_save(h, g).redo.len() == 0,
        spec_redo(spec_save(h, g), current).1 is None,
{
}

/// Redo right after an undo gives back the graph that undo left, and the
/// stacks return to what they were before the undo.
pub proof fn law_redo_inverts_undo(h: HistoryV, current: GraphV)
    requires
        h.undo.len() > 0,
    ensures
        spec_redo(spec_undo(h, current).0, h.undo.last()).1 == Some(current),
        spec_redo(spec_undo(h, current).0, h.undo.last()).0 == h,
{
    assert(h.undo.drop_last().push(h.undo.last()) =~= h.undo);
    assert(h.redo.push(current).drop_last() =~= h.redo);
}

/// Undo right after a redo gives back the graph that redo left, and the
/// stacks return to what they were before the redo.
pub proof fn law_undo_inverts_redo(h: HistoryV, current: GraphV)
    requires
        h.redo.len() > 0,
    ensures
        spec_undo(spec_redo(h, current).0, h.redo.last()).1 == Some(current),
        spec_undo(spec_redo(h, current).0, h.redo.last()).0 == h,
{
    assert(h.redo.drop_last().push(h.redo.last()) =~= h.redo);
    assert(h.undo.push(current).drop_last() =~= h.undo);
}

/// After `n` snapshots of `g0, g1, ...` (below the cap), `n` undos return them
/// newest first: the k-th undo returns the snapshot saved k-th from the end.
pub proof fn law_undo_order(h: HistoryV, g: GraphV, g2: GraphV, cur: GraphV, cur2: GraphV)
    requires
        h.undo.len() + 2 <= MAX_HISTORY,
    ensures
        ({
            let h2 = spec_save(spec_save(h, g), g2);
            let (h3, first) = spec_undo(h2, cur);
            let (_h4, second) = spec_undo(h3, cur2);
            first == Some(g2) && second == Some(g)
        }),
{
    let h1 = spec_save(h, g);
    assert(h1.undo == h.undo.push(g));
    let h2 = spec_save(h1, g2);
    assert(h2.undo == h.undo.push(g).push(g2));
    assert(h2.undo.drop_last() =~= h.undo.push(g));
}

/// The history after snapshots of the graphs of `gs`, in order.
pub open spec fn save_all(h: HistoryV, gs: Seq<GraphV>) -> HistoryV
    decreases gs.len(),
{
    if gs.len() == 0 {
        h
    } else {
        spec_save(save_all(h, gs.drop_last()), gs.last())
    }
}

/// The history after successive undos that leave the graphs `curs`, in
/// order, and what each undo returned.
pub open spec fn undo_all(h: HistoryV, curs: Seq<GraphV>) -> (HistoryV, Seq<Option<GraphV>>)
    decreases curs.len(),
{
    if curs.len() == 0 {
        (h, seq![])
    } else {
        let prev = undo_all(h, curs.drop_last());
        let step = spec_undo(prev.0, curs.last());
        (step.0, prev.1.push(step.1))
    }
}

/// How many snapshots of `n` the history keeps.
pub open spec fn kept_count(n: int) -> int {
    if n < MAX_HISTORY { n } else { MAX_HISTORY as int }
}

proof fn lemma_save_all(h: HistoryV, gs: Seq<GraphV>)
    requires
        h.undo.len() == 0,
    ensures
        save_all(h, gs).undo == gs.subrange(gs.len() - kept_count(gs.len() as int), gs.len() as int),
    decreases gs.len(),
{
    if gs.len() > 0 {
        let d = gs.drop_last();
        lemma_save_all(h, d);
        let n = gs.len() as int;
        let s = d.subrange(d.len() - kept_count(d.len() as int), d.len() as int);
        assert(s.push(gs.last()) =~= gs.subrange(n - 1 - kept_count(n - 1), n));
        if s.push(gs.last()).len() > MAX_HISTORY {
            assert(s.push(gs.last()).drop_first() =~= gs.subrange(n - kept_count(n), n));
        } else {
            assert(s.push(gs.last()) =~= gs.subrange(n - kept_count(n), n));
        }
    }
}

proof fn lemma_undo_all(h: HistoryV, curs: Seq<GraphV>)
    ensures
        undo_all(h, curs).1.len() == curs.len(),
        undo_all(h, curs).0.undo == h.undo.take(if curs.len() < h.undo.len() { h.undo.len() - curs.len() } else { 0 }),
        forall|t: int| 0 <= t < curs.len() ==> #[trigger] undo_all(h, curs).1[t]
            == if t < h.undo.len() { Some(h.undo[h.undo.len() - 1 - t]) } else { None::<GraphV> },
    decreases curs.len(),
{
    if curs.len() == 0 {
        assert(h.undo.take(h.undo.len() as int) =~= h.undo);
    } else {
        let d = curs.drop_last();
        lemma_undo_all(h, d);
        let prev = undo_all(h, d);
        let k = d.len() as int;
        let u = h.undo.take(if k < h.undo.len() { h.undo.len() - k } else { 0 });
        assert(prev.0.undo == u);
        if k < h.undo.len() {
            assert(u.last() == h.undo[h.undo.len() - 1 - k]);
            assert(u.drop_last() =~= h.undo.take(h.undo.len() - k - 1));
        } else {
            assert(u.len() == 0);
        }
        let r = undo_all(h, curs);
        assert forall|t: int| 0 <= t < curs.len() implies #[trigger] r.1[t]
            == if t < h.undo.len() { Some(h.undo[h.undo.len() - 1 - t]) } else { None::<GraphV> } by {
            if t < k {
                assert(r.1[t] == prev.1[t]);
            }
        }
    }
}

/// From a history with nothing to undo, after snapshots of `g0 .. g(n-1)`,
/// successive undos return `g(n-1)`, `g(n-2)`, ... back to the oldest kept
/// snapshot, at most `MAX_HISTORY` of them, and every further undo returns
/// nothing: the oldest snapshots are the ones dropped.
pub proof fn law_undos_after_saves(h: HistoryV, gs: Seq<GraphV>, curs: Seq<GraphV>)
    requires
        h.undo.len() == 0,
    ensures
        forall|t: int| 0 <= t < curs.len() ==> #[trigger] undo_all(save_all(h, gs), curs).1[t]
            == if t < kept_count(gs.len() as int) { Some(gs[gs.len() - 1 - t]) } else { None::<GraphV> },
{
    lemma_save_all(h, gs);
    let hs = save_all(h, gs);
    lemma_undo_all(hs, curs);
    let n = gs.len() as int;
    assert forall|t: int| 0 <= t < curs.len() implies #[trigger] undo_all(hs, curs).1[t]
        == if t < kept_count(n) { Some(gs[n - 1 - t]) } else { None::<GraphV> } by {
        if t < kept_count(n) {
            assert(hs.undo[hs.undo.len() - 1 - t] == gs[n - 1 - t]);
        }
    }
}

} // verus!
