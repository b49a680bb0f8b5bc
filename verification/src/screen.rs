//! What the operations do to a screen: a model of the terminal surface.
//!
//! The screen is a grid of positions, each blank or showing a character, with
//! a cursor that is at one position and is visible or hidden. Running a
//! sequence of operations on a screen gives the screen that a terminal shows
//! after it has carried them out. The model has no edges: a screen that
//! scrolls is not described.

use crate::terminal::{spec_char_at_position, TermOp};
use vstd::prelude::*;

verus! {

/// A position of the screen: row and column, counted from zero.
pub type Position = (int, int);

/// The state of a screen.
pub struct Screen {
    /// Where the cursor is.
    pub cursor: Position,
    /// Whether the cursor is visible.
    pub cursor_visible: bool,
    /// The character that each position shows. A position outside the
    /// domain is blank.
    pub cells: Map<Position, char>,
}

/// The positions of one row.
pub open spec fn row_of(row: int) -> Set<Position> {
    Set::new(|at: Position| at.0 == row)
}

impl Screen {
    /// The screen with the line of the cursor blank.
    pub open spec fn clear_line(self) -> Screen {
        Screen { cells: self.cells.remove_keys(row_of(self.cursor.0)), ..self }
    }

    /// The screen after `ch` was written at the cursor. A new line moves the
    /// cursor to the start of the next row; any other character is shown at
    /// the cursor, which moves one column on.
    pub open spec fn write(self, ch: char) -> Screen {
        if ch == '\n' {
            Screen { cursor: (self.cursor.0 + 1, 0), ..self }
        } else {
            Screen {
                cursor: (self.cursor.0, self.cursor.1 + 1),
                cells: self.cells.insert(self.cursor, ch),
                ..self
            }
        }
    }

    /// The screen after one operation.
    pub open spec fn apply(self, op: TermOp) -> Screen {
        match op {
            TermOp::HideCursor => Screen { cursor_visible: false, ..self },
            TermOp::ShowCursor => Screen { cursor_visible: true, ..self },
            TermOp::MoveCursor { row, col } => Screen { cursor: (row as int, col as int), ..self },
            TermOp::ClearLine => self.clear_line(),
            TermOp::WriteChar(ch) => self.write(ch),
            TermOp::Flush => self,
        }
    }

    /// The screen after the operations, carried out in order.
    pub open spec fn run(self, ops: Seq<TermOp>) -> Screen
        decreases ops.len(),
    {
        if ops.len() == 0 {
            self
        } else {
            self.run(ops.drop_last()).apply(ops.last())
        }
    }

    /// Whether the position shows `ch`.
    pub open spec fn shows(self, at: Position, ch: char) -> bool {
        self.cells.dom().contains(at) && self.cells[at] == ch
    }

    /// Whether the position looks the same on both screens.
    pub open spec fn same_at(self, other: Screen, at: Position) -> bool {
        &&& self.cells.dom().contains(at) == other.cells.dom().contains(at)
        &&& self.cells.dom().contains(at) ==> self.cells[at] == other.cells[at]
    }
}

/// Operations carried out in two runs lead to the same screen as in one.
pub proof fn lemma_run_in_turns(screen: Screen, first: Seq<TermOp>, then: Seq<TermOp>)
    ensures
        screen.run(first + then) == screen.run(first).run(then),
    decreases then.len(),
{
    if then.len() == 0 {
        assert(first + then =~= first);
    } else {
        lemma_run_in_turns(screen, first, then.drop_last());
        assert((first + then).drop_last() =~= first + then.drop_last());
        assert((first + then).last() == then.last());
    }
}

/// Writing one character at a position shows it there and changes no other
/// position; the cursor ends up hidden, one column behind the character.
pub proof fn lemma_char_at_position_shows_it(screen: Screen, row: u16, column: u16, ch: char)
    requires
        ch != '\n',
    ensures
        screen.run(spec_char_at_position(row, column, ch)) == (Screen {
            cursor: (row as int, column + 1),
            cursor_visible: false,
            cells: screen.cells.insert((row as int, column as int), ch),
        }),
{
    let ops = spec_char_at_position(row, column, ch);
    reveal_with_fuel(Screen::run, 5);
    assert(ops.drop_last() =~= seq![
        TermOp::HideCursor,
        TermOp::MoveCursor { row, col: column },
        TermOp::WriteChar(ch),
    ]);
    assert(ops.drop_last().drop_last() =~= seq![
        TermOp::HideCursor,
        TermOp::MoveCursor { row, col: column },
    ]);
    assert(ops.drop_last().drop_last().drop_last() =~= seq![TermOp::HideCursor]);
    assert(ops.drop_last().drop_last().drop_last().drop_last() =~= Seq::<TermOp>::empty());
}

} // verus!
