//! The canvas: a bordered region of the terminal onto which points of a
//! bounded part of the plane are drawn.

use crate::point::Point;
use crate::scale::{
    is_nearest, lemma_doubled_scale_doubles_steps, lemma_nearest_bounds, lemma_steps_at_the_ends,
    rounds_alike_when_doubled, scale_from_high, scale_from_low, steps_from_high, steps_from_low,
};
use crate::terminal::{
    char_at_position, fill_row, spec_char_at_position, spec_write_to_row, TermOp,
};
use std::ops::RangeInclusive;
use vstd::prelude::*;

verus! {

/// Rows that a canvas reserves on the terminal beyond its height: the two
/// border rows, the row of the lowest cells and the row on which the cursor
/// is parked.
pub const MARGIN: u16 = 4;

/// How far the far border lies beyond the dimension: the cells `0..=n` take
/// the places `1` to `n + 1` behind the near border, the far border the
/// place `n + 2`.
pub const FAR_BORDER: u16 = 2;

/// The widest canvas whose right border still has a column on the screen.
pub const MAX_WIDTH: u16 = 65533;

/// The tallest canvas whose count of reserved rows is still a `u16`.
pub const MAX_HEIGHT: u16 = 65531;

/// A rectangular plotting area.
///
/// A canvas of width `w` and height `h` has the cells `(col, row)` with
/// `0 <= col <= w` and `0 <= row <= h`; cell `(0, 0)` is the top left one.
/// The cells show the part of the plane between the bounds, the highest `y`
/// in the top row. On the terminal the canvas begins at `start_row`, with one
/// row and one column of border on each side of the cells.
#[derive(Debug, Clone, Copy)]
pub struct Canvas {
    width: u16,
    height: u16,
    x_min: i64,
    x_max: i64,
    y_min: i64,
    y_max: i64,
    start_row: u16,
    marker: char,
    border_char: char,
}

/// What a canvas is, as plain values.
pub struct CanvasView {
    pub width: u16,
    pub height: u16,
    pub x_min: i64,
    pub x_max: i64,
    pub y_min: i64,
    pub y_max: i64,
    pub start_row: u16,
    pub marker: char,
    pub border_char: char,
}

impl CanvasView {
    /// The invariant of a canvas: positive dimensions, bounds with
    /// `min < max`, and a region that has row and column numbers on the
    /// terminal.
    pub open spec fn wf(self) -> bool {
        &&& 0 < self.width <= MAX_WIDTH
        &&& 0 < self.height
        &&& self.start_row + self.height + MARGIN <= u16::MAX
        &&& self.x_min < self.x_max
        &&& self.y_min < self.y_max
    }

    /// Whether the point lies within the bounds, which are closed intervals.
    pub open spec fn contains(self, p: Point) -> bool {
        &&& self.x_min <= p.x <= self.x_max
        &&& self.y_min <= p.y <= self.y_max
    }

    /// The column of `x`: `(x - x_min) / (x_max - x_min) * width`, rounded to
    /// the nearest integer.
    pub open spec fn col(self, x: int) -> int {
        steps_from_low(x, self.x_min as int, self.x_max as int, self.width as int)
    }

    /// The row of `y`: `(y_max - y) / (y_max - y_min) * height`, rounded to
    /// the nearest integer. Rows grow downward, so the axis is inverted.
    pub open spec fn row(self, y: int) -> int {
        steps_from_high(y, self.y_min as int, self.y_max as int, self.height as int)
    }

    /// The cell of a point: none outside the bounds, otherwise its column
    /// and row.
    pub open spec fn map_point(self, p: Point) -> Option<(u16, u16)> {
        if self.contains(p) {
            Some((self.col(p.x as int) as u16, self.row(p.y as int) as u16))
        } else {
            None
        }
    }

    /// The terminal row `height - 1` rows below the first of the region. The
    /// parking row is counted from it: it lies `MARGIN` rows further down.
    pub open spec fn final_row(self) -> int {
        self.start_row + self.height - 1
    }

    /// The terminal row below the frame, on which the cursor is parked. It
    /// is the last row of the reserved region.
    pub open spec fn exit_row(self) -> int {
        self.final_row() + MARGIN
    }

    /// The terminal row below the reserved region.
    pub open spec fn below_row(self) -> int {
        self.start_row + self.height + MARGIN
    }

    /// The operations that reserve the region: one new line for each of its
    /// rows.
    pub open spec fn reserve(self) -> Seq<TermOp> {
        Seq::new((self.height + MARGIN) as nat, |i: int| TermOp::WriteChar('\n')).push(
            TermOp::Flush,
        )
    }

    /// The terminal row of the bottom border.
    pub open spec fn bottom_row(self) -> int {
        self.start_row + self.height + FAR_BORDER
    }

    /// The terminal column of the right border.
    pub open spec fn right_column(self) -> int {
        self.width + FAR_BORDER
    }

    /// The operations that park the cursor below the frame.
    pub open spec fn park(self) -> Seq<TermOp> {
        seq![TermOp::MoveCursor { row: self.exit_row() as u16, col: 0 }, TermOp::Flush]
    }

    /// The operations that write `ch` into the cell `(column, row)` and park
    /// the cursor. The cell lies one row and one column inside the frame.
    pub open spec fn put(self, row: u16, column: u16, ch: char) -> Seq<TermOp> {
        spec_char_at_position(
            (self.start_row + row + 1) as u16,
            (column + 1) as u16,
            ch,
        ) + self.park()
    }

    /// The operations that draw one point: its marker into its cell, or
    /// nothing for a point outside the bounds.
    pub open spec fn plot_point(self, p: Point) -> Seq<TermOp> {
        match self.map_point(p) {
            Some((col, row)) => self.put(row, col, self.marker),
            None => Seq::empty(),
        }
    }

    /// The operations that draw the points one after the other.
    pub open spec fn plot_points(self, points: Seq<Point>) -> Seq<TermOp>
        decreases points.len(),
    {
        if points.len() == 0 {
            Seq::empty()
        } else {
            self.plot_points(points.drop_last()) + self.plot_point(points.last())
        }
    }

    /// The text of a border row: the border character over the whole width
    /// of the frame.
    pub open spec fn border_text(self) -> Seq<char> {
        Seq::new((self.width + FAR_BORDER + 1) as nat, |i: int| self.border_char)
    }

    /// The operations that draw the left and right border of the first
    /// `rows` rows below the top border.
    pub open spec fn border_sides(self, rows: nat) -> Seq<TermOp>
        decreases rows,
    {
        if rows == 0 {
            Seq::empty()
        } else {
            self.border_sides((rows - 1) as nat) + spec_char_at_position(
                (self.start_row + rows) as u16,
                0,
                self.border_char,
            ) + spec_char_at_position(
                (self.start_row + rows) as u16,
                self.right_column() as u16,
                self.border_char,
            )
        }
    }

    /// The operations that draw the frame: the top row, the bottom row, then
    /// both sides of every row between them, the cursor parked after each
    /// part.
    pub open spec fn border(self) -> Seq<TermOp> {
        spec_write_to_row(self.start_row, self.border_text()) + self.park() + spec_write_to_row(
            self.bottom_row() as u16,
            self.border_text(),
        ) + self.park() + self.border_sides((self.height + 1) as nat) + self.park()
    }

    /// The operations that give the terminal back: the cursor goes to the
    /// row below the reserved region and is shown again.
    pub open spec fn teardown(self) -> Seq<TermOp> {
        seq![
            TermOp::MoveCursor { row: self.below_row() as u16, col: 0 },
            TermOp::Flush,
            TermOp::ShowCursor,
            TermOp::Flush,
        ]
    }
}

impl View for Canvas {
    type V = CanvasView;

    closed spec fn view(&self) -> CanvasView {
        CanvasView {
            width: self.width,
            height: self.height,
            x_min: self.x_min,
            x_max: self.x_max,
            y_min: self.y_min,
            y_max: self.y_max,
            start_row: self.start_row,
            marker: self.marker,
            border_char: self.border_char,
        }
    }
}

/// `RangeInclusive::into_inner` of std takes a range apart into its lower
/// bound and its upper, inclusive bound.
pub assume_specification<Idx>[ RangeInclusive::<Idx>::into_inner ](r: RangeInclusive<Idx>) -> (ret: (
    Idx,
    Idx,
))
    ensures
        ret.0 == r@.start,
        ret.1 == r@.end,
;

/// Whether the range is a closed interval with `min < max`.
pub open spec fn valid_bounds(bounds: RangeInclusive<i64>) -> bool {
    bounds@.start < bounds@.end
}

impl Canvas {
    #[verifier::type_invariant]
    spec fn type_inv(self) -> bool {
        self@.wf()
    }

    /// The default canvas: 20 by 10 cells over `[-10, 10]` on both axes, at
    /// the top of the screen, with `.` for points and `#` for the border.
    pub open spec fn default_view() -> CanvasView {
        CanvasView {
            width: 20,
            height: 10,
            x_min: -10i64,
            x_max: 10,
            y_min: -10i64,
            y_max: 10,
            start_row: 0,
            marker: '.',
            border_char: '#',
        }
    }

    /// A canvas of the given dimensions over `[-10, 10]` on both axes, at
    /// the top of the screen, with `.` for points and `#` for the border.
    pub fn new(width: u16, height: u16) -> (canvas: Self)
        requires
            0 < width <= MAX_WIDTH,
            0 < height <= MAX_HEIGHT,
        ensures
            canvas@ == (CanvasView { width, height, ..Canvas::default_view() }),
    {
        Canvas {
            width,
            height,
            x_min: -10,
            x_max: 10,
            y_min: -10,
            y_max: 10,
            start_row: 0,
            marker: '.',
            border_char: '#',
        }
    }

    /// A canvas with every setting given, at the top of the screen.
    pub fn custom(
        width: u16,
        height: u16,
        x_bounds: RangeInclusive<i64>,
        y_bounds: RangeInclusive<i64>,
        marker: char,
        border_char: char,
    ) -> (canvas: Self)
        requires
            0 < width <= MAX_WIDTH,
            0 < height <= MAX_HEIGHT,
            valid_bounds(x_bounds),
            valid_bounds(y_bounds),
        ensures
            canvas@ == (CanvasView {
                width,
                height,
                x_min: x_bounds@.start,
                x_max: x_bounds@.end,
                y_min: y_bounds@.start,
                y_max: y_bounds@.end,
                start_row: 0,
                marker,
                border_char,
            }),
    {
        let (x_min, x_max) = x_bounds.into_inner();
        let (y_min, y_max) = y_bounds.into_inner();
        Canvas { width, height, x_min, x_max, y_min, y_max, start_row: 0, marker, border_char }
    }

    /// The number of terminal rows that the canvas takes: its height and the
    /// margin.
    pub fn reserved_rows(&self) -> (rows: u16)
        ensures
            rows == self@.height + MARGIN,
    {
        proof {
            use_type_invariant(self);
        }
        self.height + MARGIN
    }

    /// The operations that reserve the region of the canvas on the terminal:
    /// one new line for each of its rows. Afterwards the cursor is moved up
    /// by as many rows, and the row it is then on is where the region
    /// begins.
    pub fn reserve(&self) -> (ops: Vec<TermOp>)
        ensures
            ops@ == self@.reserve(),
    {
        let rows = self.reserved_rows();
        let mut ops: Vec<TermOp> = Vec::new();
        let mut done: u16 = 0;
        while done < rows
            invariant
                done <= rows,
                ops@ == Seq::new(done as nat, |i: int| TermOp::WriteChar('\n')),
            decreases rows - done,
        {
            ops.push(TermOp::WriteChar('\n'));
            done = done + 1;
            assert(ops@ =~= Seq::new(done as nat, |i: int| TermOp::WriteChar('\n')));
        }
        ops.push(TermOp::Flush);
        ops
    }

    /// The canvas placed on the terminal: `start_row` is the row at which
    /// the reserved region begins.
    pub fn init(self, start_row: u16) -> (canvas: Self)
        requires
            start_row + self@.height + MARGIN <= u16::MAX,
        ensures
            canvas@ == (CanvasView { start_row, ..self@ }),
    {
        proof {
            use_type_invariant(self);
        }
        Canvas { start_row, ..self }
    }

    /// The canvas with another marker and border character.
    pub fn style(self, marker: char, border_char: char) -> (canvas: Self)
        ensures
            canvas@ == (CanvasView { marker, border_char, ..self@ }),
    {
        proof {
            use_type_invariant(self);
        }
        Canvas { marker, border_char, ..self }
    }

    /// The canvas with other bounds on the horizontal axis.
    pub fn x_bounds(self, bounds: RangeInclusive<i64>) -> (canvas: Self)
        requires
            valid_bounds(bounds),
        ensures
            canvas@ == (CanvasView { x_min: bounds@.start, x_max: bounds@.end, ..self@ }),
    {
        proof {
            use_type_invariant(self);
        }
        let (x_min, x_max) = bounds.into_inner();
        Canvas { x_min, x_max, ..self }
    }

    /// The canvas with other bounds on the vertical axis.
    pub fn y_bounds(self, bounds: RangeInclusive<i64>) -> (canvas: Self)
        requires
            valid_bounds(bounds),
        ensures
            canvas@ == (CanvasView { y_min: bounds@.start, y_max: bounds@.end, ..self@ }),
    {
        proof {
            use_type_invariant(self);
        }
        let (y_min, y_max) = bounds.into_inner();
        Canvas { y_min, y_max, ..self }
    }

    /// The canvas with other bounds on both axes.
    pub fn bounds(self, x_bounds: RangeInclusive<i64>, y_bounds: RangeInclusive<i64>) -> (canvas:
        Self)
        requires
            valid_bounds(x_bounds),
            valid_bounds(y_bounds),
        ensures
            canvas@ == (CanvasView {
                x_min: x_bounds@.start,
                x_max: x_bounds@.end,
                y_min: y_bounds@.start,
                y_max: y_bounds@.end,
                ..self@
            }),
    {
        self.x_bounds(x_bounds).y_bounds(y_bounds)
    }

    /// Width and height, in cells. Every canvas satisfies the invariant.
    pub fn dimensions(&self) -> (dimensions: (u16, u16))
        ensures
            dimensions == (self@.width, self@.height),
            self@.wf(),
    {
        proof {
            use_type_invariant(self);
        }
        (self.width, self.height)
    }

    /// The lower and the upper bound of the horizontal axis.
    pub fn x_limits(&self) -> (limits: (i64, i64))
        ensures
            limits == (self@.x_min, self@.x_max),
            limits.0 < limits.1,
    {
        proof {
            use_type_invariant(self);
        }
        (self.x_min, self.x_max)
    }

    /// The lower and the upper bound of the vertical axis.
    pub fn y_limits(&self) -> (limits: (i64, i64))
        ensures
            limits == (self@.y_min, self@.y_max),
            limits.0 < limits.1,
    {
        proof {
            use_type_invariant(self);
        }
        (self.y_min, self.y_max)
    }

    /// The terminal row at which the canvas begins.
    pub fn start_row(&self) -> (row: u16)
        ensures
            row == self@.start_row,
    {
        self.start_row
    }

    /// The character drawn for a point.
    pub fn marker(&self) -> (ch: char)
        ensures
            ch == self@.marker,
    {
        self.marker
    }

    /// The character of which the frame is drawn.
    pub fn border_char(&self) -> (ch: char)
        ensures
            ch == self@.border_char,
    {
        self.border_char
    }

    /// The terminal row `height - 1` rows below the first of the region.
    pub fn final_row(&self) -> (row: u16)
        ensures
            row == self@.final_row(),
    {
        proof {
            use_type_invariant(self);
        }
        self.start_row + self.height - 1
    }

    /// The operations that park the cursor below the frame.
    pub fn go_to_exit_pos(&self) -> (ops: Vec<TermOp>)
        ensures
            ops@ == self@.park(),
    {
        proof {
            use_type_invariant(self);
        }
        let mut ops: Vec<TermOp> = Vec::new();
        ops.push(TermOp::MoveCursor { row: self.final_row() + MARGIN, col: 0 });
        ops.push(TermOp::Flush);
        ops
    }

    /// The operations that write `ch` into the cell `(column, row)`.
    fn char_at_position(&self, row: u16, column: u16, ch: char) -> (ops: Vec<TermOp>)
        requires
            row <= self@.height,
            column <= self@.width,
        ensures
            ops@ == self@.put(row, column, ch),
    {
        proof {
            use_type_invariant(self);
        }
        let mut ops = char_at_position(self.start_row + row + 1, column + 1, ch);
        let mut park = self.go_to_exit_pos();
        ops.append(&mut park);
        ops
    }

    /// The operations that draw one point: its marker goes into its cell. A
    /// point outside the bounds is not drawn, and that is no error.
    pub fn plot_point(&self, point: &Point) -> (ops: Vec<TermOp>)
        ensures
            ops@ == self@.plot_point(*point),
    {
        match self.map_point(point) {
            Some((col, row)) => self.char_at_position(row, col, self.marker),
            None => Vec::new(),
        }
    }

    /// The operations that draw the points in order. Nothing is erased:
    /// markers drawn before stay.
    pub fn plot_points(&self, points: &[Point]) -> (ops: Vec<TermOp>)
        ensures
            ops@ == self@.plot_points(points@),
    {
        let mut ops: Vec<TermOp> = Vec::new();
        let mut i: usize = 0;
        while i < points.len()
            invariant
                i <= points.len(),
                ops@ == self@.plot_points(points@.take(i as int)),
            decreases points.len() - i,
        {
            assert(points@.take(i + 1).drop_last() =~= points@.take(i as int));
            let mut more = self.plot_point(&points[i]);
            ops.append(&mut more);
            i = i + 1;
        }
        assert(points@.take(points.len() as int) =~= points@);
        ops
    }

    /// The operations that draw the frame around the cells.
    pub fn print_border(&self) -> (ops: Vec<TermOp>)
        ensures
            ops@ == self@.border(),
    {
        proof {
            use_type_invariant(self);
        }
        let text_len: usize = self.width as usize + FAR_BORDER as usize + 1;
        let mut ops = fill_row(self.start_row, self.border_char, text_len);
        let mut park = self.go_to_exit_pos();
        ops.append(&mut park);
        let mut bottom = fill_row(
            self.start_row + self.height + FAR_BORDER,
            self.border_char,
            text_len,
        );
        ops.append(&mut bottom);
        let mut park = self.go_to_exit_pos();
        ops.append(&mut park);
        let ghost head = ops@;
        let mut row: u16 = 1;
        while row <= self.height + 1
            invariant
                self@.wf(),
                1 <= row <= self@.height + 2,
                ops@ == head + self@.border_sides((row - 1) as nat),
            decreases self@.height + 2 - row,
        {
            let mut left = char_at_position(self.start_row + row, 0, self.border_char);
            let mut right = char_at_position(
                self.start_row + row,
                self.width + FAR_BORDER,
                self.border_char,
            );
            ops.append(&mut left);
            ops.append(&mut right);
            assert(ops@ =~= head + self@.border_sides(row as nat));
            row = row + 1;
        }
        let mut park = self.go_to_exit_pos();
        ops.append(&mut park);
        assert(ops@ =~= self@.border());
        ops
    }

    /// The operations that give the terminal back when the canvas is done
    /// with: the cursor goes to the row below the reserved region and is
    /// shown again.
    pub fn teardown(&self) -> (ops: Vec<TermOp>)
        ensures
            ops@ == self@.teardown(),
    {
        proof {
            use_type_invariant(self);
        }
        let mut ops: Vec<TermOp> = Vec::new();
        ops.push(TermOp::MoveCursor { row: self.start_row + self.height + MARGIN, col: 0 });
        ops.push(TermOp::Flush);
        ops.push(TermOp::ShowCursor);
        ops.push(TermOp::Flush);
        ops
    }

    /// The cell on which a point is drawn, as `(col, row)`, or `None` for a
    /// point outside the bounds.
    pub fn map_point(&self, point: &Point) -> (cell: Option<(u16, u16)>)
        ensures
            cell == self@.map_point(*point),
            cell is Some <==> self@.contains(*point),
            cell matches Some((col, row)) ==> {
                &&& col <= self@.width
                &&& row <= self@.height
                &&& is_nearest(
                    col as int,
                    (point.x - self@.x_min) * self@.width,
                    self@.x_max - self@.x_min,
                )
                &&& is_nearest(
                    row as int,
                    (self@.y_max - point.y) * self@.height,
                    self@.y_max - self@.y_min,
                )
            },
    {
        proof {
            use_type_invariant(self);
        }
        if self.x_min <= point.x && point.x <= self.x_max && self.y_min <= point.y && point.y
            <= self.y_max {
            let col = scale_from_low(point.x, self.x_min, self.x_max, self.width);
            let row = scale_from_high(point.y, self.y_min, self.y_max, self.height);
            Some((col, row))
        } else {
            None
        }
    }
}

impl Default for Canvas {
    /// A canvas of 20 by 10 cells over `[-10, 10]` on both axes, at the top
    /// of the screen, with `.` for points and `#` for the border.
    fn default() -> (canvas: Self)
        ensures
            canvas@ == Canvas::default_view(),
    {
        Canvas {
            width: 20,
            height: 10,
            x_min: -10,
            x_max: 10,
            y_min: -10,
            y_max: 10,
            start_row: 0,
            marker: '.',
            border_char: '#',
        }
    }
}

/// The column and the row of a point within the bounds are a column and a
/// row of the canvas.
pub proof fn lemma_cell_is_on_canvas(v: CanvasView, p: Point)
    requires
        v.wf(),
        v.contains(p),
    ensures
        0 <= v.col(p.x as int) <= v.width,
        0 <= v.row(p.y as int) <= v.height,
{
    let dx = v.x_max - v.x_min;
    let dy = v.y_max - v.y_min;
    assert(0 <= (p.x - v.x_min) * v.width <= v.width * dx) by (nonlinear_arith)
        requires
            0 <= p.x - v.x_min <= dx,
            v.width >= 0,
    ;
    assert(0 <= (v.y_max - p.y) * v.height <= v.height * dy) by (nonlinear_arith)
        requires
            0 <= v.y_max - p.y <= dy,
            v.height >= 0,
    ;
    lemma_nearest_bounds((p.x - v.x_min) * v.width, dx, v.width as int);
    lemma_nearest_bounds((v.y_max - p.y) * v.height, dy, v.height as int);
}

/// The corners of the bounds lie in the corners of the canvas, the highest
/// `y` at the top.
pub proof fn lemma_corners(v: CanvasView)
    requires
        v.wf(),
    ensures
        v.map_point(Point { x: v.x_min, y: v.y_max }) == Some((0u16, 0u16)),
        v.map_point(Point { x: v.x_max, y: v.y_max }) == Some((v.width, 0u16)),
        v.map_point(Point { x: v.x_min, y: v.y_min }) == Some((0u16, v.height)),
        v.map_point(Point { x: v.x_max, y: v.y_min }) == Some((v.width, v.height)),
{
    lemma_steps_at_the_ends(v.x_min as int, v.x_max as int, v.width as int);
    lemma_steps_at_the_ends(v.y_min as int, v.y_max as int, v.height as int);
}

/// On a canvas twice as wide, with the same bounds, a point lies in the same
/// row and in twice the column or in one next to it; in exactly twice the
/// column where its exact horizontal position is within a quarter of a whole
/// column, as it is wherever that position is whole.
pub proof fn lemma_double_width_doubles_columns(v: CanvasView, wide: CanvasView, p: Point)
    requires
        v.wf(),
        wide == (CanvasView { width: wide.width, ..v }),
        wide.width == 2 * v.width,
    ensures
        wide.contains(p) == v.contains(p),
        wide.row(p.y as int) == v.row(p.y as int),
        rounds_alike_when_doubled((p.x - v.x_min) * v.width, v.x_max - v.x_min) <==> wide.col(
            p.x as int,
        ) == 2 * v.col(p.x as int),
        -1 <= wide.col(p.x as int) - 2 * v.col(p.x as int) <= 1,
        ((p.x - v.x_min) * v.width) % (v.x_max - v.x_min) == 0 ==> wide.col(p.x as int) == 2
            * v.col(p.x as int),
{
    lemma_doubled_scale_doubles_steps(p.x as int, v.x_min as int, v.x_max as int, v.width as int);
}

/// Drawing is additive: the drawing of a sequence of points followed by
/// more points begins with the drawing of the sequence, and goes on with the
/// drawing of the others.
pub proof fn lemma_plot_points_is_additive(v: CanvasView, first: Seq<Point>, more: Seq<Point>)
    ensures
        v.plot_points(first + more) == v.plot_points(first) + v.plot_points(more),
    decreases more.len(),
{
    if more.len() == 0 {
        assert(first + more =~= first);
        assert(v.plot_points(first) + v.plot_points(more) =~= v.plot_points(first));
    } else {
        lemma_plot_points_is_additive(v, first, more.drop_last());
        assert((first + more).drop_last() =~= first + more.drop_last());
        assert((first + more).last() == more.last());
        assert(v.plot_points(first + more) =~= v.plot_points(first) + v.plot_points(more));
    }
}

/// Drawing points erases nothing and leaves the cursor hidden: no operation
/// clears a line or shows the cursor.
pub proof fn lemma_plot_points_erases_nothing(v: CanvasView, points: Seq<Point>, i: int)
    requires
        0 <= i < v.plot_points(points).len(),
    ensures
        v.plot_points(points)[i] != TermOp::ClearLine,
        v.plot_points(points)[i] != TermOp::ShowCursor,
    decreases points.len(),
{
    if points.len() > 0 {
        let before = v.plot_points(points.drop_last());
        if i < before.len() {
            lemma_plot_points_erases_nothing(v, points.drop_last(), i);
        }
    }
}

} // verus!
