//! The periodic redraw: what one tick of the scheduler decides.
//!
//! The scheduler wakes at a fixed rate. At each tick it compares the length
//! of the store with the length it saw at the tick before, and redraws only
//! if the two differ. Whoever runs the scheduler does the waiting; the state
//! and the decision are here.

use crate::canvas::{Canvas, CanvasView};
use crate::point::Point;
use crate::store::PointStore;
use crate::terminal::TermOp;
use vstd::prelude::*;

verus! {

/// Ticks per second.
pub const TICK_HZ: u32 = 120;

/// The time between two ticks, in nanoseconds.
pub const TICK_NANOS: u32 = 1_000_000_000 / TICK_HZ;

/// What a tick leads to.
#[derive(Debug, Clone, Copy, PartialEq, Eq, Structural)]
pub enum TickAction {
    /// The store has changed: all its points are drawn.
    Render,
    /// The store is as long as it was: nothing is drawn.
    Skip,
    /// The scheduler was stopped: nothing is drawn, and no tick follows.
    Halt,
}

/// The state of a scheduler between two ticks.
#[derive(Debug, Clone, Copy)]
pub struct Scheduler {
    seen: usize,
    stopped: bool,
}

/// What a scheduler is, as plain values.
pub struct SchedulerView {
    /// The length of the store at the last tick.
    pub seen: nat,
    /// Whether the stop signal was given.
    pub stopped: bool,
}

impl SchedulerView {
    /// What a tick decides on a store of `len` points.
    pub open spec fn action(self, len: nat) -> TickAction {
        if self.stopped {
            TickAction::Halt
        } else if len == self.seen {
            TickAction::Skip
        } else {
            TickAction::Render
        }
    }

    /// The state after a tick on a store of `len` points.
    pub open spec fn after_tick(self, len: nat) -> SchedulerView {
        if self.stopped {
            self
        } else {
            SchedulerView { seen: len, stopped: false }
        }
    }

    /// What a tick draws on `canvas` when the store holds `points`: all of
    /// them if it renders, nothing otherwise.
    pub open spec fn drawing(self, canvas: CanvasView, points: Seq<Point>) -> Seq<TermOp> {
        if self.action(points.len()) == TickAction::Render {
            canvas.plot_points(points)
        } else {
            Seq::empty()
        }
    }

    /// Whether a tick that finds `points` in the store leads from this state
    /// to the state `after`, with the given action and drawing.
    pub open spec fn ticks_to(
        self,
        canvas: CanvasView,
        points: Seq<Point>,
        after: SchedulerView,
        action: TickAction,
        ops: Seq<TermOp>,
    ) -> bool {
        &&& action == self.action(points.len())
        &&& after == self.after_tick(points.len())
        &&& ops == self.drawing(canvas, points)
    }
}

impl View for Scheduler {
    type V = SchedulerView;

    closed spec fn view(&self) -> SchedulerView {
        SchedulerView { seen: self.seen as nat, stopped: self.stopped }
    }
}

impl Scheduler {
    /// A scheduler that has seen an empty store and was not stopped.
    pub fn new() -> (scheduler: Self)
        ensures
            scheduler@ == (SchedulerView { seen: 0, stopped: false }),
    {
        Scheduler { seen: 0, stopped: false }
    }

    /// Gives the stop signal: every later tick halts.
    pub fn stop(&mut self)
        ensures
            final(self)@ == (SchedulerView { stopped: true, ..old(self)@ }),
    {
        self.stopped = true;
    }

    /// Whether the stop signal was given.
    pub fn is_stopped(&self) -> (stopped: bool)
        ensures
            stopped == self@.stopped,
    {
        self.stopped
    }

    /// One tick. If the scheduler was stopped it halts. Otherwise, if the
    /// store is as long as at the tick before, nothing is drawn; if not, the
    /// operations that draw every point of the store are returned, and the
    /// new length is remembered.
    pub fn tick(&mut self, canvas: &Canvas, store: &PointStore) -> (outcome: (
        TickAction,
        Vec<TermOp>,
    ))
        ensures
            old(self)@.ticks_to(canvas@, store@, final(self)@, outcome.0, outcome.1@),
            outcome.0 == old(self)@.action(store@.len()),
            final(self)@ == old(self)@.after_tick(store@.len()),
            outcome.0 == TickAction::Render ==> outcome.1@ == canvas@.plot_points(store@),
            outcome.0 != TickAction::Render ==> outcome.1@ == Seq::<TermOp>::empty(),
            !old(self)@.stopped && store@.len() == old(self)@.seen ==> outcome.0
                == TickAction::Skip,
    {
        if self.stopped {
            (TickAction::Halt, Vec::new())
        } else if store.len() == self.seen {
            (TickAction::Skip, Vec::new())
        } else {
            self.seen = store.len();
            (TickAction::Render, canvas.plot_points(store.as_slice()))
        }
    }
}

impl Default for Scheduler {
    /// A scheduler that has seen an empty store and was not stopped.
    fn default() -> (scheduler: Self)
        ensures
            scheduler@ == (SchedulerView { seen: 0, stopped: false }),
    {
        Scheduler::new()
    }
}

/// Of two ticks in a row that find the store at the same length, the second
/// does not draw.
pub proof fn lemma_unchanged_length_is_not_redrawn(before: SchedulerView, len: nat)
    ensures
        before.after_tick(len).action(len) != TickAction::Render,
{
}

/// A stopped scheduler stays stopped and never draws again.
pub proof fn lemma_stopped_stays_stopped(before: SchedulerView, len: nat)
    requires
        before.stopped,
    ensures
        before.action(len) == TickAction::Halt,
        before.after_tick(len) == before,
{
}

} // verus!
