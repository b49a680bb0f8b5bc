//! A live scatter plot for a bordered region of a text terminal.
//!
//! The library maps points of the plane to the cells of a [`Canvas`], keeps
//! the append-only store of the points of a plot, takes points in from
//! streams, and decides at each tick of a scheduler whether a redraw is due.
//!
//! It performs no input or output. Every drawing function returns the
//! [operations](terminal::TermOp) that the terminal is to carry out, in
//! order, and [`screen`] says what a terminal shows after it has done so.
//! Waiting on a channel, sleeping until the next tick and running threads
//! are left to the program around the library, which hands each event to the
//! function here that decides what follows from it.
//!
//! Coordinates are integers. A program with fractional data chooses a grid,
//! say of 65536 steps to the unit, and gives points and bounds on that grid:
//! which cell a point falls into depends on ratios alone, not on the grid.
//!
//! - [`point`]: the coordinate value.
//! - [`scale`]: where a value of an interval lies on a scale of whole steps.
//! - [`canvas`]: dimensions, bounds and style; cells and drawing.
//! - [`terminal`]: the operations on the terminal surface.
//! - [`screen`] and [`rendering`]: what the operations make the screen show.
//! - [`store`]: the store of points.
//! - [`stream`]: draining a stream into the store; interleaved streams.
//! - [`scheduler`]: the tick that redraws on change.
//! - [`scatter_plot`]: the plot of one owner.
//! - [`shared`]: the plot that threads share, behind a lock.

pub mod canvas;
pub mod point;
pub mod rendering;
pub mod scale;
pub mod scatter_plot;
pub mod scheduler;
pub mod screen;
pub mod shared;
pub mod store;
pub mod stream;
pub mod terminal;

pub use canvas::Canvas;
pub use point::Point;
pub use scatter_plot::ScatterPlot;
pub use shared::SharedPlot;
