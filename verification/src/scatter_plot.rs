//! The scatter plot: one canvas, the store of its points, and the streams
//! and the scheduler that feed and redraw it.

use crate::canvas::{Canvas, CanvasView};
use crate::point::Point;
use crate::scheduler::{Scheduler, TickAction};
use crate::store::PointStore;
use crate::stream::{DrainStep, StreamEvent, StreamIngestor, StreamIngestorView};
use crate::terminal::TermOp;
use vstd::prelude::*;

verus! {

/// A plot of points on a canvas.
#[derive(Debug)]
pub struct ScatterPlot {
    points: PointStore,
    canvas: Canvas,
    observed: bool,
    streams: usize,
}

/// What a plot is, as plain values.
pub struct ScatterPlotView {
    /// The points of the store, in order.
    pub points: Seq<Point>,
    /// The canvas.
    pub canvas: CanvasView,
    /// Whether the owner asked to be told of every change.
    pub observed: bool,
    /// The number of streams registered so far.
    pub streams: nat,
}

/// What a change of the plot asks of its owner.
#[derive(Debug)]
pub struct PlotUpdate {
    /// The terminal operations that draw the change.
    pub ops: Vec<TermOp>,
    /// Whether the observers of the plot are to be told of the change.
    pub notify: bool,
}

impl View for ScatterPlot {
    type V = ScatterPlotView;

    closed spec fn view(&self) -> ScatterPlotView {
        ScatterPlotView {
            points: self.points@,
            canvas: self.canvas@,
            observed: self.observed,
            streams: self.streams as nat,
        }
    }
}

impl ScatterPlot {
    /// A plot on the given canvas, with no points, no observer and no
    /// streams.
    pub fn new(canvas: Canvas) -> (plot: Self)
        ensures
            plot@ == (ScatterPlotView {
                points: Seq::empty(),
                canvas: canvas@,
                observed: false,
                streams: 0,
            }),
    {
        ScatterPlot { points: PointStore::new(), canvas, observed: false, streams: 0 }
    }

    /// A plot that starts with the given points. They are drawn at the next
    /// refresh.
    pub fn new_with_points(canvas: Canvas, points: Vec<Point>) -> (plot: Self)
        ensures
            plot@ == (ScatterPlotView {
                points: points@,
                canvas: canvas@,
                observed: false,
                streams: 0,
            }),
    {
        ScatterPlot { points: PointStore::from_points(points), canvas, observed: false, streams: 0 }
    }

    /// A plot whose owner is told of every change: each update of such a
    /// plot has `notify` set.
    pub fn new_with_callback(canvas: Canvas) -> (plot: Self)
        ensures
            plot@ == (ScatterPlotView {
                points: Seq::empty(),
                canvas: canvas@,
                observed: true,
                streams: 0,
            }),
    {
        ScatterPlot { points: PointStore::new(), canvas, observed: true, streams: 0 }
    }

    /// The canvas of the plot.
    pub fn canvas(&self) -> (canvas: &Canvas)
        ensures
            canvas@ == self@.canvas,
    {
        &self.canvas
    }

    /// A copy of the points, in order.
    pub fn points(&self) -> (points: Vec<Point>)
        ensures
            points@ == self@.points,
    {
        self.points.snapshot().1
    }

    /// The number of points and a copy of them, as they are at one moment.
    pub fn snapshot(&self) -> (snapshot: (usize, Vec<Point>))
        ensures
            snapshot.0 == self@.points.len(),
            snapshot.1@ == self@.points,
    {
        self.points.snapshot()
    }

    /// Adds a point to the store and draws it.
    pub fn add_point(&mut self, point: Point) -> (update: PlotUpdate)
        ensures
            final(self)@ == (ScatterPlotView {
                points: old(self)@.points.push(point),
                ..old(self)@
            }),
            update.ops@ == old(self)@.canvas.plot_point(point),
            update.notify == old(self)@.observed,
    {
        self.points.append(point);
        PlotUpdate { ops: self.canvas.plot_point(&point), notify: self.observed }
    }

    /// Adds the points to the store, in their order, and draws them.
    pub fn extend(&mut self, new_points: &[Point]) -> (update: PlotUpdate)
        ensures
            final(self)@ == (ScatterPlotView {
                points: old(self)@.points + new_points@,
                ..old(self)@
            }),
            update.ops@ == old(self)@.canvas.plot_points(new_points@),
            update.notify == old(self)@.observed,
    {
        self.points.extend(new_points);
        PlotUpdate { ops: self.canvas.plot_points(new_points), notify: self.observed }
    }

    /// Moves the points of `new_points` to the store, in their order, and
    /// draws them. `new_points` is left empty.
    pub fn append(&mut self, new_points: &mut Vec<Point>) -> (update: PlotUpdate)
        ensures
            final(self)@ == (ScatterPlotView {
                points: old(self)@.points + old(new_points)@,
                ..old(self)@
            }),
            final(new_points)@ == Seq::<Point>::empty(),
            update.ops@ == old(self)@.canvas.plot_points(old(new_points)@),
            update.notify == old(self)@.observed,
    {
        let ops = self.canvas.plot_points(new_points.as_slice());
        self.points.append_all(new_points);
        PlotUpdate { ops, notify: self.observed }
    }

    /// The operations that draw every point of the store once more.
    pub fn refresh(&self) -> (ops: Vec<TermOp>)
        ensures
            ops@ == self@.canvas.plot_points(self@.points),
    {
        self.canvas.plot_points(self.points.as_slice())
    }

    /// The number of streams registered so far.
    pub fn stream_count(&self) -> (count: usize)
        ensures
            count == self@.streams,
    {
        self.streams
    }

    /// Registers a stream and returns the ingestor that its draining task
    /// works with. Streams are numbered in the order of registration.
    pub fn add_stream(&mut self) -> (ingestor: StreamIngestor)
        requires
            old(self)@.streams < usize::MAX,
        ensures
            final(self)@ == (ScatterPlotView {
                streams: old(self)@.streams + 1,
                ..old(self)@
            }),
            ingestor@ == (StreamIngestorView { id: old(self)@.streams as usize, open: true }),
    {
        let ingestor = StreamIngestor::new(self.streams);
        self.streams = self.streams + 1;
        ingestor
    }

    /// Hands an event of a stream to its ingestor: a point that arrived goes
    /// to the end of the store. It is drawn at the next tick or refresh.
    pub fn receive(&mut self, ingestor: &mut StreamIngestor, event: StreamEvent) -> (step:
        DrainStep)
        ensures
            final(ingestor)@.id == old(ingestor)@.id,
            match event {
                StreamEvent::Received(point) if old(ingestor)@.open => {
                    &&& step == DrainStep::Continue
                    &&& final(ingestor)@.open
                    &&& final(self)@ == (ScatterPlotView {
                        points: old(self)@.points.push(point),
                        ..old(self)@
                    })
                },
                _ => {
                    &&& step == DrainStep::Exit
                    &&& !final(ingestor)@.open
                    &&& final(self)@ == old(self)@
                },
            },
    {
        ingestor.on_event(&mut self.points, event)
    }

    /// One tick of the scheduler on this plot: all points are drawn if the
    /// store has grown since the tick before, and nothing otherwise.
    pub fn tick(&self, scheduler: &mut Scheduler) -> (outcome: (TickAction, Vec<TermOp>))
        ensures
            outcome.0 == old(scheduler)@.action(self@.points.len()),
            final(scheduler)@ == old(scheduler)@.after_tick(self@.points.len()),
            outcome.0 == TickAction::Render ==> outcome.1@ == self@.canvas.plot_points(
                self@.points,
            ),
            outcome.0 != TickAction::Render ==> outcome.1@ == Seq::<TermOp>::empty(),
    {
        scheduler.tick(&self.canvas, &self.points)
    }
}

impl Default for ScatterPlot {
    /// An empty plot on the default canvas.
    fn default() -> (plot: Self)
        ensures
            plot@.points == Seq::<Point>::empty(),
            plot@.canvas == Canvas::default_view(),
            !plot@.observed,
            plot@.streams == 0,
    {
        ScatterPlot::new(Canvas::default())
    }
}

} // verus!
