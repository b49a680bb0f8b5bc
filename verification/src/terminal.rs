//! The operations that the plot asks of the terminal it draws on.
//!
//! The library never touches a terminal. A drawing function returns the
//! operations to perform, in order; whoever owns the terminal carries them
//! out. The set is the least a terminal surface has to offer: hiding and
//! showing the cursor, moving it, clearing the line it is on, writing one
//! character, and flushing what was queued.

use vstd::prelude::*;

verus! {

broadcast use vstd::string::group_string_axioms;

/// One operation on the terminal surface. Rows and columns count from zero,
/// from the top left corner of the screen.
#[derive(Debug, Clone, Copy, PartialEq, Eq, Structural)]
pub enum TermOp {
    /// Make the cursor invisible.
    HideCursor,
    /// Make the cursor visible again.
    ShowCursor,
    /// Put the cursor on the given row and column.
    MoveCursor { row: u16, col: u16 },
    /// Erase the line that the cursor is on.
    ClearLine,
    /// Write one character at the cursor, which moves one column on.
    WriteChar(char),
    /// Send everything queued so far to the screen.
    Flush,
}

/// The operations that write each character of `text`, in order.
pub open spec fn spec_write_text(text: Seq<char>) -> Seq<TermOp>
    decreases text.len(),
{
    if text.len() == 0 {
        Seq::empty()
    } else {
        spec_write_text(text.drop_last()).push(TermOp::WriteChar(text.last()))
    }
}

/// The operations that replace the content of `row` by `text`: hide the
/// cursor, go to the start of the row, clear it, write the text, flush.
pub open spec fn spec_write_to_row(row: u16, text: Seq<char>) -> Seq<TermOp> {
    seq![TermOp::HideCursor, TermOp::MoveCursor { row, col: 0 }, TermOp::ClearLine]
        + spec_write_text(text) + seq![TermOp::Flush]
}

/// The operations that put `ch` at one position of the screen: hide the
/// cursor, go there, write the character, flush.
pub open spec fn spec_char_at_position(row: u16, column: u16, ch: char) -> Seq<TermOp> {
    seq![
        TermOp::HideCursor,
        TermOp::MoveCursor { row, col: column },
        TermOp::WriteChar(ch),
        TermOp::Flush,
    ]
}

/// A `char` is a Unicode scalar value: a code point that is no surrogate.
/// Verus knows this of a `char` that it meets as a parameter, and learns it
/// here of one that it met inside a sequence.
pub proof fn lemma_char_is_scalar_value(c: char)
    ensures
        0 <= c as int <= 0xD7FF || 0xE000 <= c as int <= 0x10FFFF,
{
}

/// Writing a text with one more character adds one operation at the end.
pub proof fn lemma_write_text_push(text: Seq<char>, c: char)
    ensures
        spec_write_text(text.push(c)) == spec_write_text(text).push(TermOp::WriteChar(c)),
{
    assert(text.push(c).drop_last() =~= text);
}

/// Replaces the content of a row of the screen by `text`.
pub fn write_to_row(row: u16, text: &str) -> (ops: Vec<TermOp>)
    ensures
        ops@ == spec_write_to_row(row, text@),
{
    let mut ops: Vec<TermOp> = Vec::new();
    ops.push(TermOp::HideCursor);
    ops.push(TermOp::MoveCursor { row, col: 0 });
    ops.push(TermOp::ClearLine);
    let ghost head = ops@;
    assert(spec_write_text(text@.take(0)) =~= Seq::empty());
    for c in it: text.chars()
        invariant
            it.seq() == text@,
            ops@ == head + spec_write_text(text@.take(it.index() as int)),
    {
        proof {
            let written = text@.take(it.index() as int);
            assert(text@.take(it.index() + 1) =~= written.push(c));
            lemma_char_is_scalar_value(c);
            lemma_write_text_push(written, c);
        }
        ops.push(TermOp::WriteChar(c));
        assert(ops@ =~= head + spec_write_text(text@.take(it.index() + 1)));
    }
    assert(text@.take(text@.len() as int) =~= text@);
    ops.push(TermOp::Flush);
    ops
}

/// Replaces the content of a row of the screen by `count` copies of `ch`.
pub fn fill_row(row: u16, ch: char, count: usize) -> (ops: Vec<TermOp>)
    ensures
        ops@ == spec_write_to_row(row, Seq::new(count as nat, |i: int| ch)),
{
    let mut ops: Vec<TermOp> = Vec::new();
    ops.push(TermOp::HideCursor);
    ops.push(TermOp::MoveCursor { row, col: 0 });
    ops.push(TermOp::ClearLine);
    let ghost head = ops@;
    let ghost text = Seq::new(count as nat, |i: int| ch);
    assert(spec_write_text(text.take(0)) =~= Seq::empty());
    let mut written: usize = 0;
    while written < count
        invariant
            written <= count,
            text == Seq::new(count as nat, |i: int| ch),
            ops@ == head + spec_write_text(text.take(written as int)),
        decreases count - written,
    {
        proof {
            assert(text.take(written + 1) =~= text.take(written as int).push(ch));
            lemma_write_text_push(text.take(written as int), ch);
        }
        ops.push(TermOp::WriteChar(ch));
        written = written + 1;
        assert(ops@ =~= head + spec_write_text(text.take(written as int)));
    }
    assert(text.take(count as int) =~= text);
    ops.push(TermOp::Flush);
    ops
}

/// Writes one character at a position of the screen.
pub fn char_at_position(row: u16, column: u16, ch: char) -> (ops: Vec<TermOp>)
    ensures
        ops@ == spec_char_at_position(row, column, ch),
{
    let mut ops: Vec<TermOp> = Vec::new();
    ops.push(TermOp::HideCursor);
    ops.push(TermOp::MoveCursor { row, col: column });
    ops.push(TermOp::WriteChar(ch));
    ops.push(TermOp::Flush);
    ops
}

} // verus!
