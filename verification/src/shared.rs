//! A plot whose store is shared between threads.
//!
//! The store lies behind a mutual-exclusion lock of the `parking_lot` crate,
//! which has no poisoning: a thread that fails cannot leave the store locked
//! for the others. Every operation takes the lock once, for as long as it
//! reads or changes the store, and has let go of it when it returns; no
//! operation waits or sleeps while it holds the lock.
//!
//! What other threads do to the store between two operations is not known
//! here. So an operation says what it computes from the canvas, which never
//! changes, and that what it read of the store was read at one moment. What
//! it does to the store is what the operation of
//! [`PointStore`](crate::store::PointStore) that it calls under the lock
//! says.

use crate::canvas::{Canvas, CanvasView};
use crate::point::Point;
use crate::scatter_plot::PlotUpdate;
use crate::scheduler::{Scheduler, TickAction};
use crate::store::PointStore;
use crate::stream::{DrainStep, StreamEvent, StreamIngestor};
use crate::terminal::TermOp;
use parking_lot::lock_api::Mutex as LockMutex;
use parking_lot::{Mutex, MutexGuard, RawMutex};
use std::sync::Arc;
use vstd::prelude::*;

verus! {

/// `lock_api::Mutex`, the lock that `parking_lot::Mutex` is an instance of.
/// Nothing is said of what it guards.
#[verifier::external_type_specification]
#[verifier::external_body]
#[verifier::reject_recursive_types(R)]
#[verifier::reject_recursive_types(T)]
pub struct ExLockMutex<R, T: ?Sized>(LockMutex<R, T>);

/// `parking_lot::RawMutex`, the raw lock inside a `parking_lot::Mutex`.
#[verifier::external_type_specification]
#[verifier::external_body]
pub struct ExRawMutex(RawMutex);

/// The store while this thread holds its lock: the `MutexGuard` that
/// `Mutex::lock` of `parking_lot` returned. Dropping it releases the lock.
/// The guard is kept from the verifier as a whole, since its type is bound
/// by a trait of `lock_api` and cannot be declared.
#[verifier::external_body]
struct StoreGuard<'a> {
    guard: MutexGuard<'a, PointStore>,
}

/// Calls `Mutex::new` of `parking_lot`, which makes an unlocked lock around
/// the store.
#[verifier::external_body]
fn new_lock(store: PointStore) -> (lock: Mutex<PointStore>) {
    Mutex::new(store)
}

/// Calls `Arc::clone` of std, which makes another pointer to the same lock.
#[verifier::external_body]
fn share_lock(lock: &Arc<Mutex<PointStore>>) -> (shared: Arc<Mutex<PointStore>>) {
    Arc::clone(lock)
}

/// Calls `Mutex::lock` of `parking_lot`, which waits until no other thread
/// holds the lock and then takes it. What the store holds at that moment
/// depends on the other threads: nothing is promised of it. A thread that
/// held the lock already would wait for itself; no function here calls this
/// while it has a guard.
#[verifier::external_body]
fn lock<'a>(lock: &'a Mutex<PointStore>) -> (guard: StoreGuard<'a>) {
    StoreGuard { guard: lock.lock() }
}

/// Dereferences the `MutexGuard` of `parking_lot`, which gives access to the
/// store for as long as the guard is borrowed.
#[verifier::external_body]
fn guarded<'a, 'b>(guard: &'a mut StoreGuard<'b>) -> (store: &'a mut PointStore) {
    &mut *guard.guard
}

/// A plot that several threads work on: its owner, the tasks that drain
/// streams into it, and the scheduler that redraws it.
pub struct SharedPlot {
    canvas: Canvas,
    observed: bool,
    store: Arc<Mutex<PointStore>>,
}

/// What of a shared plot is the same for every thread at every moment.
pub struct SharedPlotView {
    /// The canvas.
    pub canvas: CanvasView,
    /// Whether the owner asked to be told of every change.
    pub observed: bool,
}

impl View for SharedPlot {
    type V = SharedPlotView;

    closed spec fn view(&self) -> SharedPlotView {
        SharedPlotView { canvas: self.canvas@, observed: self.observed }
    }
}

impl SharedPlot {
    /// A plot on the given canvas, with an empty store and no observer.
    pub fn new(canvas: Canvas) -> (plot: Self)
        ensures
            plot@ == (SharedPlotView { canvas: canvas@, observed: false }),
    {
        SharedPlot { canvas, observed: false, store: Arc::new(new_lock(PointStore::new())) }
    }

    /// A plot whose store starts with the given points.
    pub fn new_with_points(canvas: Canvas, points: Vec<Point>) -> (plot: Self)
        ensures
            plot@ == (SharedPlotView { canvas: canvas@, observed: false }),
    {
        SharedPlot {
            canvas,
            observed: false,
            store: Arc::new(new_lock(PointStore::from_points(points))),
        }
    }

    /// A plot whose owner is told of every change: each update of such a
    /// plot has `notify` set.
    pub fn new_with_callback(canvas: Canvas) -> (plot: Self)
        ensures
            plot@ == (SharedPlotView { canvas: canvas@, observed: true }),
    {
        SharedPlot { canvas, observed: true, store: Arc::new(new_lock(PointStore::new())) }
    }

    /// Another handle to the same plot, for another thread.
    pub fn share(&self) -> (plot: Self)
        ensures
            plot@ == self@,
    {
        SharedPlot { canvas: self.canvas, observed: self.observed, store: share_lock(&self.store) }
    }

    /// The canvas of the plot.
    pub fn canvas(&self) -> (canvas: &Canvas)
        ensures
            canvas@ == self@.canvas,
    {
        &self.canvas
    }

    /// The number of points and a copy of them, both read while the lock
    /// was held once: the two agree.
    pub fn snapshot(&self) -> (snapshot: (usize, Vec<Point>))
        ensures
            snapshot.0 == snapshot.1@.len(),
    {
        let mut guard = lock(&self.store);
        let store = guarded(&mut guard);
        store.snapshot()
    }

    /// Adds a point at the end of the store and draws it.
    pub fn add_point(&self, point: Point) -> (update: PlotUpdate)
        ensures
            update.ops@ == self@.canvas.plot_point(point),
            update.notify == self@.observed,
    {
        {
            let mut guard = lock(&self.store);
            let store = guarded(&mut guard);
            store.append(point);
        }
        PlotUpdate { ops: self.canvas.plot_point(&point), notify: self.observed }
    }

    /// Adds the points at the end of the store, in their order, and draws
    /// them.
    pub fn extend(&self, new_points: &[Point]) -> (update: PlotUpdate)
        ensures
            update.ops@ == self@.canvas.plot_points(new_points@),
            update.notify == self@.observed,
    {
        {
            let mut guard = lock(&self.store);
            let store = guarded(&mut guard);
            store.extend(new_points);
        }
        PlotUpdate { ops: self.canvas.plot_points(new_points), notify: self.observed }
    }

    /// Moves the points of `new_points` to the end of the store, in their
    /// order, and draws them. `new_points` is left empty.
    pub fn append(&self, new_points: &mut Vec<Point>) -> (update: PlotUpdate)
        ensures
            final(new_points)@ == Seq::<Point>::empty(),
            update.ops@ == self@.canvas.plot_points(old(new_points)@),
            update.notify == self@.observed,
    {
        let ops = self.canvas.plot_points(new_points.as_slice());
        {
            let mut guard = lock(&self.store);
            let store = guarded(&mut guard);
            store.append_all(new_points);
        }
        PlotUpdate { ops, notify: self.observed }
    }

    /// The operations that draw every point that the store holds at the
    /// moment of the call.
    pub fn update_graph(&self) -> (ops: Vec<TermOp>)
        ensures
            exists|points: Seq<Point>| ops@ == #[trigger] self@.canvas.plot_points(points),
    {
        let mut guard = lock(&self.store);
        let store = guarded(&mut guard);
        let ops = self.canvas.plot_points(store.as_slice());
        assert(ops@ == self@.canvas.plot_points(store@));
        ops
    }

    /// Hands an event of a stream to its ingestor, the store locked.
    pub fn receive(&self, ingestor: &mut StreamIngestor, event: StreamEvent) -> (step: DrainStep)
        ensures
            final(ingestor)@.id == old(ingestor)@.id,
            final(ingestor)@.open == (old(ingestor)@.open && event is Received),
            step == (if final(ingestor)@.open {
                DrainStep::Continue
            } else {
                DrainStep::Exit
            }),
    {
        let mut guard = lock(&self.store);
        let store = guarded(&mut guard);
        ingestor.on_event(store, event)
    }

    /// One tick of the scheduler: the store is locked, looked at and, if it
    /// has grown since the tick before, drawn in whole. The lock is let go
    /// before the call returns, so the wait until the next tick holds no
    /// lock.
    pub fn tick(&self, scheduler: &mut Scheduler) -> (outcome: (TickAction, Vec<TermOp>))
        ensures
            exists|points: Seq<Point>| #[trigger]
                old(scheduler)@.ticks_to(
                    self@.canvas,
                    points,
                    final(scheduler)@,
                    outcome.0,
                    outcome.1@,
                ),
            old(scheduler)@.stopped ==> outcome.0 == TickAction::Halt,
            outcome.0 != TickAction::Render ==> outcome.1@ == Seq::<TermOp>::empty(),
    {
        let mut guard = lock(&self.store);
        let store = guarded(&mut guard);
        let outcome = scheduler.tick(&self.canvas, store);
        assert(old(scheduler)@.ticks_to(
            self@.canvas,
            store@,
            scheduler@,
            outcome.0,
            outcome.1@,
        ));
        outcome
    }
}

} // verus!
