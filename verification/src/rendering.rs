//! What drawing does to the screen.
//!
//! The drawing functions of a canvas return operations. Here is what the
//! screen shows once they were carried out: markers in the cells of the
//! points, with everything else as it was, and a frame of border characters
//! around the cells.

use crate::canvas::{lemma_cell_is_on_canvas, CanvasView, MARGIN};
use crate::point::Point;
use crate::screen::{
    lemma_char_at_position_shows_it, lemma_run_in_turns, row_of, Position, Screen,
};
use crate::terminal::{
    lemma_char_is_scalar_value, spec_char_at_position, spec_write_text, spec_write_to_row, TermOp,
};
use vstd::prelude::*;

verus! {

impl CanvasView {
    /// Where the cursor is parked.
    pub open spec fn parking(self) -> Position {
        (self.exit_row(), 0)
    }

    /// The position of the screen that shows the cell `(column, row)`: one
    /// row and one column inside the frame.
    pub open spec fn position_of_cell(self, column: int, row: int) -> Position {
        (self.start_row + row + 1, column + 1)
    }

    /// The position of the screen at which a point is drawn, if it is drawn.
    pub open spec fn position_of(self, p: Point) -> Option<Position> {
        match self.map_point(p) {
            Some((col, row)) => Some(self.position_of_cell(col as int, row as int)),
            None => None,
        }
    }

    /// Whether the position lies strictly inside the frame.
    pub open spec fn inside_frame(self, at: Position) -> bool {
        &&& self.start_row < at.0 < self.bottom_row()
        &&& 0 < at.1 < self.right_column()
    }

    /// Whether the position belongs to the frame.
    pub open spec fn on_frame(self, at: Position) -> bool {
        &&& self.start_row <= at.0 <= self.bottom_row()
        &&& 0 <= at.1 <= self.right_column()
        &&& !self.inside_frame(at)
    }

    /// The cells of a screen after the points were drawn over `cells`.
    pub open spec fn painted(self, points: Seq<Point>, cells: Map<Position, char>) -> Map<
        Position,
        char,
    >
        decreases points.len(),
    {
        if points.len() == 0 {
            cells
        } else {
            let before = self.painted(points.drop_last(), cells);
            match self.position_of(points.last()) {
                Some(at) => before.insert(at, self.marker),
                None => before,
            }
        }
    }

    /// Whether one of the points is drawn at the position.
    pub open spec fn marks(self, points: Seq<Point>, at: Position) -> bool {
        exists|i: int| 0 <= i < points.len() && self.position_of(#[trigger] points[i]) == Some(at)
    }
}

/// Parking moves the cursor below the frame and changes nothing else.
pub proof fn lemma_park(v: CanvasView, screen: Screen)
    requires
        v.wf(),
    ensures
        screen.run(v.park()) == (Screen { cursor: v.parking(), ..screen }),
{
    let ops = v.park();
    reveal_with_fuel(Screen::run, 3);
    assert(ops.drop_last() =~= seq![TermOp::MoveCursor { row: v.exit_row() as u16, col: 0 }]);
    assert(ops.drop_last().drop_last() =~= Seq::<TermOp>::empty());
}

/// New lines move the cursor down by their number, to the first column, and
/// show nothing.
pub proof fn lemma_new_lines_move_down(screen: Screen, lines: nat)
    ensures
        screen.run(Seq::new(lines, |i: int| TermOp::WriteChar('\n'))) == (if lines == 0 {
            screen
        } else {
            Screen { cursor: (screen.cursor.0 + lines, 0), ..screen }
        }),
    decreases lines,
{
    let ops = Seq::new(lines, |i: int| TermOp::WriteChar('\n'));
    if lines > 0 {
        lemma_new_lines_move_down(screen, (lines - 1) as nat);
        assert(ops.drop_last() =~= Seq::new((lines - 1) as nat, |i: int| TermOp::WriteChar('\n')));
    }
}

/// Reserving the region of a canvas moves the cursor down by the height and
/// the margin, to the first column, and changes nothing that the screen
/// shows.
pub proof fn lemma_reserve_makes_room(v: CanvasView, screen: Screen)
    requires
        v.wf(),
    ensures
        screen.run(v.reserve()) == (Screen {
            cursor: (screen.cursor.0 + v.height + MARGIN, 0),
            ..screen
        }),
{
    let lines = Seq::new((v.height + MARGIN) as nat, |i: int| TermOp::WriteChar('\n'));
    lemma_new_lines_move_down(screen, (v.height + MARGIN) as nat);
    assert(v.reserve().drop_last() =~= lines);
}

/// Giving the terminal back puts the cursor on the row below the reserved
/// region, visible, and changes nothing that the screen shows.
pub proof fn lemma_teardown_shows_the_cursor(v: CanvasView, screen: Screen)
    requires
        v.wf(),
    ensures
        screen.run(v.teardown()) == (Screen {
            cursor: (v.below_row(), 0),
            cursor_visible: true,
            cells: screen.cells,
        }),
{
    let ops = v.teardown();
    reveal_with_fuel(Screen::run, 5);
    assert(ops.drop_last() =~= seq![
        TermOp::MoveCursor { row: v.below_row() as u16, col: 0 },
        TermOp::Flush,
        TermOp::ShowCursor,
    ]);
    assert(ops.drop_last().drop_last() =~= seq![
        TermOp::MoveCursor { row: v.below_row() as u16, col: 0 },
        TermOp::Flush,
    ]);
    assert(ops.drop_last().drop_last().drop_last() =~= seq![
        TermOp::MoveCursor { row: v.below_row() as u16, col: 0 },
    ]);
    assert(ops.drop_last().drop_last().drop_last().drop_last() =~= Seq::<TermOp>::empty());
}

/// Putting a character into a cell shows it at the position of the cell and
/// changes no other position. The cursor is left hidden where it is parked.
pub proof fn lemma_put_shows_the_character(
    v: CanvasView,
    screen: Screen,
    row: u16,
    column: u16,
    ch: char,
)
    requires
        v.wf(),
        row <= v.height,
        column <= v.width,
        ch != '\n',
    ensures
        screen.run(v.put(row, column, ch)) == (Screen {
            cursor: v.parking(),
            cursor_visible: false,
            cells: screen.cells.insert(v.position_of_cell(column as int, row as int), ch),
        }),
{
    let at_row = (v.start_row + row + 1) as u16;
    let at_column = (column + 1) as u16;
    lemma_run_in_turns(screen, spec_char_at_position(at_row, at_column, ch), v.park());
    lemma_char_at_position_shows_it(screen, at_row, at_column, ch);
    lemma_park(v, screen.run(spec_char_at_position(at_row, at_column, ch)));
}

/// Drawing a point leaves every position as it was but the one of its cell,
/// which shows the marker. A point outside the bounds changes nothing at
/// all.
pub proof fn lemma_plot_point_marks_its_cell(v: CanvasView, screen: Screen, p: Point)
    requires
        v.wf(),
        v.marker != '\n',
    ensures
        match v.position_of(p) {
            Some(at) => {
                &&& v.contains(p)
                &&& v.inside_frame(at)
                &&& screen.run(v.plot_point(p)) == (Screen {
                    cursor: v.parking(),
                    cursor_visible: false,
                    cells: screen.cells.insert(at, v.marker),
                })
            },
            None => !v.contains(p) && screen.run(v.plot_point(p)) == screen,
        },
{
    if v.contains(p) {
        lemma_cell_is_on_canvas(v, p);
        let (col, row) = v.map_point(p)->0;
        lemma_put_shows_the_character(v, screen, row, col, v.marker);
    }
}

/// Drawing points paints their markers over what the screen showed, one
/// after the other.
pub proof fn lemma_plot_points_paints(v: CanvasView, screen: Screen, points: Seq<Point>)
    requires
        v.wf(),
        v.marker != '\n',
    ensures
        screen.run(v.plot_points(points)).cells == v.painted(points, screen.cells),
        v.plot_points(points).len() == 0 ==> screen.run(v.plot_points(points)) == screen,
        v.plot_points(points).len() > 0 ==> {
            &&& screen.run(v.plot_points(points)).cursor == v.parking()
            &&& !screen.run(v.plot_points(points)).cursor_visible
        },
    decreases points.len(),
{
    if points.len() > 0 {
        let before = screen.run(v.plot_points(points.drop_last()));
        lemma_plot_points_paints(v, screen, points.drop_last());
        lemma_run_in_turns(screen, v.plot_points(points.drop_last()), v.plot_point(points.last()));
        lemma_plot_point_marks_its_cell(v, before, points.last());
    }
}

/// Drawing is additive. After points were drawn, every position at which
/// one of them is drawn shows the marker, inside the frame; every other
/// position shows what it showed before. Nothing is erased, and a point
/// outside the bounds leaves no trace.
pub proof fn lemma_painted_adds_markers(
    v: CanvasView,
    points: Seq<Point>,
    cells: Map<Position, char>,
    at: Position,
)
    requires
        v.wf(),
    ensures
        v.marks(points, at) ==> {
            &&& v.inside_frame(at)
            &&& v.painted(points, cells).dom().contains(at)
            &&& v.painted(points, cells)[at] == v.marker
        },
        !v.marks(points, at) ==> {
            &&& v.painted(points, cells).dom().contains(at) == cells.dom().contains(at)
            &&& cells.dom().contains(at) ==> v.painted(points, cells)[at] == cells[at]
        },
    decreases points.len(),
{
    if points.len() > 0 {
        let shorter = points.drop_last();
        lemma_painted_adds_markers(v, shorter, cells, at);
        if v.marks(shorter, at) {
            let i = choose|i: int|
                0 <= i < shorter.len() && v.position_of(#[trigger] shorter[i]) == Some(at);
            assert(points[i] == shorter[i]);
        }
        if v.position_of(points.last()) == Some(at) {
            assert(points[points.len() - 1] == points.last());
            lemma_cell_is_on_canvas(v, points.last());
        }
        if v.marks(points, at) && !v.marks(shorter, at) {
            let i = choose|i: int|
                0 <= i < points.len() && v.position_of(#[trigger] points[i]) == Some(at);
            if i < shorter.len() {
                assert(shorter[i] == points[i]);
            }
        }
    }
}

/// Drawing the whole store again, over a screen on which a first part of it
/// was drawn before, leads to the same cells as drawing all of it at once:
/// the markers of the first part are written a second time and stay what
/// they were.
pub proof fn lemma_redraw_repeats_what_was_drawn(
    v: CanvasView,
    first: Seq<Point>,
    more: Seq<Point>,
    cells: Map<Position, char>,
)
    requires
        v.wf(),
    ensures
        v.painted(first + more, v.painted(first, cells)) == v.painted(first + more, cells),
{
    let all = first + more;
    let once = v.painted(all, cells);
    let again = v.painted(all, v.painted(first, cells));
    assert forall|at: Position| #[trigger]
        again.dom().contains(at) == once.dom().contains(at) && (once.dom().contains(at)
            ==> again[at] == once[at]) by {
        lemma_painted_adds_markers(v, all, cells, at);
        lemma_painted_adds_markers(v, all, v.painted(first, cells), at);
        lemma_painted_adds_markers(v, first, cells, at);
        if v.marks(first, at) {
            let i = choose|i: int|
                0 <= i < first.len() && v.position_of(#[trigger] first[i]) == Some(at);
            assert(all[i] == first[i]);
        }
    }
    assert(again =~= once);
}

/// The cells of a screen after `text` was written over `cells` from the
/// position `from` to the right.
pub open spec fn typed(cells: Map<Position, char>, from: Position, text: Seq<char>) -> Map<
    Position,
    char,
>
    decreases text.len(),
{
    if text.len() == 0 {
        cells
    } else {
        typed(cells, from, text.drop_last()).insert(
            (from.0, from.1 + text.len() - 1),
            text.last(),
        )
    }
}

/// Whether the text holds no new line.
pub open spec fn on_one_line(text: Seq<char>) -> bool {
    forall|i: int| 0 <= i < text.len() ==> text[i] != '\n'
}

/// Text written over cells shows along its row, each character at its
/// place; every other position is as it was.
pub proof fn lemma_typed_shows_the_text(
    cells: Map<Position, char>,
    from: Position,
    text: Seq<char>,
    at: Position,
)
    ensures
        at.0 == from.0 && from.1 <= at.1 < from.1 + text.len() ==> {
            &&& typed(cells, from, text).dom().contains(at)
            &&& typed(cells, from, text)[at] == text[at.1 - from.1]
        },
        !(at.0 == from.0 && from.1 <= at.1 < from.1 + text.len()) ==> {
            &&& typed(cells, from, text).dom().contains(at) == cells.dom().contains(at)
            &&& cells.dom().contains(at) ==> typed(cells, from, text)[at] == cells[at]
        },
    decreases text.len(),
{
    if text.len() > 0 {
        lemma_typed_shows_the_text(cells, from, text.drop_last(), at);
    }
}

/// Writing a text that holds no new line shows it from the cursor to the
/// right and leaves the cursor behind its last character.
pub proof fn lemma_write_text_types(screen: Screen, text: Seq<char>)
    requires
        on_one_line(text),
    ensures
        screen.run(spec_write_text(text)) == (Screen {
            cursor: (screen.cursor.0, screen.cursor.1 + text.len()),
            cells: typed(screen.cells, screen.cursor, text),
            ..screen
        }),
    decreases text.len(),
{
    if text.len() > 0 {
        let shorter = text.drop_last();
        assert(on_one_line(shorter)) by {
            assert forall|i: int| 0 <= i < shorter.len() implies shorter[i] != '\n' by {
                assert(shorter[i] == text[i]);
            }
        }
        lemma_write_text_types(screen, shorter);
        lemma_char_is_scalar_value(text.last());
        let ops = spec_write_text(text);
        assert(ops == spec_write_text(shorter).push(TermOp::WriteChar(text.last())));
        assert(ops.drop_last() =~= spec_write_text(shorter));
        assert(ops.last() == TermOp::WriteChar(text.last()));
        assert(text.last() == text[text.len() - 1]);
    }
}

/// Replacing a row by a text that holds no new line blanks the row and
/// shows the text from its first column. The cursor is left hidden behind
/// the text.
pub proof fn lemma_write_to_row_replaces_the_row(screen: Screen, row: u16, text: Seq<char>)
    requires
        on_one_line(text),
    ensures
        screen.run(spec_write_to_row(row, text)) == (Screen {
            cursor: (row as int, text.len() as int),
            cursor_visible: false,
            cells: typed(screen.cells.remove_keys(row_of(row as int)), (row as int, 0), text),
        }),
{
    let head = seq![TermOp::HideCursor, TermOp::MoveCursor { row, col: 0 }, TermOp::ClearLine];
    let tail = seq![TermOp::Flush];
    assert(spec_write_to_row(row, text) == head + spec_write_text(text) + tail);
    lemma_run_in_turns(screen, head + spec_write_text(text), tail);
    lemma_run_in_turns(screen, head, spec_write_text(text));
    let cleared = screen.run(head);
    assert(cleared == (Screen {
        cursor: (row as int, 0),
        cursor_visible: false,
        cells: screen.cells.remove_keys(row_of(row as int)),
    })) by {
        reveal_with_fuel(Screen::run, 4);
        assert(head.drop_last() =~= seq![TermOp::HideCursor, TermOp::MoveCursor { row, col: 0 }]);
        assert(head.drop_last().drop_last() =~= seq![TermOp::HideCursor]);
        assert(head.drop_last().drop_last().drop_last() =~= Seq::<TermOp>::empty());
    }
    lemma_write_text_types(cleared, text);
    let written = cleared.run(spec_write_text(text));
    assert(written.run(tail) == written) by {
        reveal_with_fuel(Screen::run, 2);
        assert(tail.drop_last() =~= Seq::<TermOp>::empty());
    }
}

impl CanvasView {
    /// The cells of a screen after the left and right border of the first
    /// `rows` rows below the top border were drawn over `cells`.
    pub open spec fn walled(self, rows: nat, cells: Map<Position, char>) -> Map<Position, char>
        decreases rows,
    {
        if rows == 0 {
            cells
        } else {
            self.walled((rows - 1) as nat, cells).insert(
                (self.start_row + rows, 0),
                self.border_char,
            ).insert((self.start_row + rows, self.right_column()), self.border_char)
        }
    }
}

/// The sides drawn over cells show the border character in the first and
/// the last column of the frame, in each of the rows; every other position
/// is as it was.
pub proof fn lemma_walled_shows_the_sides(
    v: CanvasView,
    rows: nat,
    cells: Map<Position, char>,
    at: Position,
)
    ensures
        v.start_row < at.0 <= v.start_row + rows && (at.1 == 0 || at.1 == v.right_column()) ==> {
            &&& v.walled(rows, cells).dom().contains(at)
            &&& v.walled(rows, cells)[at] == v.border_char
        },
        !(v.start_row < at.0 <= v.start_row + rows && (at.1 == 0 || at.1 == v.right_column()))
            ==> {
            &&& v.walled(rows, cells).dom().contains(at) == cells.dom().contains(at)
            &&& cells.dom().contains(at) ==> v.walled(rows, cells)[at] == cells[at]
        },
    decreases rows,
{
    if rows > 0 {
        lemma_walled_shows_the_sides(v, (rows - 1) as nat, cells, at);
    }
}

/// Drawing the sides of the frame changes the cells as `walled` says and
/// nothing else but the cursor.
pub proof fn lemma_border_sides_wall(v: CanvasView, screen: Screen, rows: nat)
    requires
        v.wf(),
        v.border_char != '\n',
        rows <= v.height + 1,
    ensures
        screen.run(v.border_sides(rows)).cells == v.walled(rows, screen.cells),
        rows > 0 ==> !screen.run(v.border_sides(rows)).cursor_visible,
        rows == 0 ==> screen.run(v.border_sides(rows)) == screen,
    decreases rows,
{
    if rows > 0 {
        let shorter = v.border_sides((rows - 1) as nat);
        let row = (v.start_row + rows) as u16;
        let left = spec_char_at_position(row, 0, v.border_char);
        let right = spec_char_at_position(row, v.right_column() as u16, v.border_char);
        lemma_border_sides_wall(v, screen, (rows - 1) as nat);
        lemma_run_in_turns(screen, shorter + left, right);
        lemma_run_in_turns(screen, shorter, left);
        lemma_char_at_position_shows_it(screen.run(shorter), row, 0, v.border_char);
        lemma_char_at_position_shows_it(
            screen.run(shorter).run(left),
            row,
            v.right_column() as u16,
            v.border_char,
        );
    }
}

/// Drawing the frame shows the border character at every position of the
/// frame and leaves every cell inside it as it was. The rows of the top and
/// the bottom border are blank beyond the frame; every other position off
/// the frame is as it was. The cursor is left hidden where it is parked.
pub proof fn lemma_border_draws_the_frame(v: CanvasView, screen: Screen, at: Position)
    requires
        v.wf(),
        v.border_char != '\n',
    ensures
        screen.run(v.border()).cursor == v.parking(),
        !screen.run(v.border()).cursor_visible,
        v.on_frame(at) ==> screen.run(v.border()).shows(at, v.border_char),
        v.inside_frame(at) ==> screen.run(v.border()).same_at(screen, at),
        !v.on_frame(at) && at.0 != v.start_row && at.0 != v.bottom_row() ==> screen.run(
            v.border(),
        ).same_at(screen, at),
        !v.on_frame(at) && (at.0 == v.start_row || at.0 == v.bottom_row()) ==> !screen.run(
            v.border(),
        ).cells.dom().contains(at),
{
    let text = v.border_text();
    let top = spec_write_to_row(v.start_row, text);
    let bottom = spec_write_to_row(v.bottom_row() as u16, text);
    let sides = v.border_sides((v.height + 1) as nat);
    let park = v.park();
    assert(on_one_line(text));

    let s1 = screen.run(top);
    let s2 = s1.run(park);
    let s3 = s2.run(bottom);
    let s4 = s3.run(park);
    let s5 = s4.run(sides);
    let s6 = s5.run(park);
    assert(screen.run(v.border()) == s6) by {
        lemma_run_in_turns(screen, top + park + bottom + park + sides, park);
        lemma_run_in_turns(screen, top + park + bottom + park, sides);
        lemma_run_in_turns(screen, top + park + bottom, park);
        lemma_run_in_turns(screen, top + park, bottom);
        lemma_run_in_turns(screen, top, park);
    }
    lemma_write_to_row_replaces_the_row(screen, v.start_row, text);
    lemma_park(v, s1);
    lemma_write_to_row_replaces_the_row(s2, v.bottom_row() as u16, text);
    lemma_park(v, s3);
    lemma_border_sides_wall(v, s4, (v.height + 1) as nat);
    lemma_park(v, s5);

    let top_cleared = screen.cells.remove_keys(row_of(v.start_row as int));
    let bottom_cleared = s2.cells.remove_keys(row_of(v.bottom_row() as u16 as int));
    lemma_typed_shows_the_text(top_cleared, (v.start_row as int, 0), text, at);
    lemma_typed_shows_the_text(bottom_cleared, (v.bottom_row() as u16 as int, 0), text, at);
    lemma_walled_shows_the_sides(v, (v.height + 1) as nat, s4.cells, at);
}

} // verus!
