use realtime_termgraph::terminal::{char_at_position, fill_row, write_to_row, TermOp};
use realtime_termgraph::{Canvas, Point};
use std::collections::BTreeMap;

/// A screen that carries out operations: what each position shows, and the
/// cursor.
#[derive(Default)]
struct Grid {
    cells: BTreeMap<(u16, u16), char>,
    cursor: (u16, u16),
    hidden: bool,
}

impl Grid {
    fn run(&mut self, ops: &[TermOp]) {
        for op in ops {
            match *op {
                TermOp::HideCursor => self.hidden = true,
                TermOp::ShowCursor => self.hidden = false,
                TermOp::MoveCursor { row, col } => self.cursor = (row, col),
                TermOp::ClearLine => {
                    let row = self.cursor.0;
                    self.cells.retain(|at, _| at.0 != row);
                }
                TermOp::WriteChar('\n') => self.cursor = (self.cursor.0 + 1, 0),
                TermOp::WriteChar(ch) => {
                    self.cells.insert(self.cursor, ch);
                    self.cursor.1 += 1;
                }
                TermOp::Flush => {}
            }
        }
    }

    fn picture(&self, rows: u16, columns: u16) -> Vec<String> {
        (0..rows)
            .map(|row| {
                (0..columns).map(|col| *self.cells.get(&(row, col)).unwrap_or(&' ')).collect()
            })
            .collect()
    }
}

fn park(row: u16) -> Vec<TermOp> {
    vec![TermOp::MoveCursor { row, col: 0 }, TermOp::Flush]
}

fn put(row: u16, col: u16, ch: char) -> Vec<TermOp> {
    vec![TermOp::HideCursor, TermOp::MoveCursor { row, col }, TermOp::WriteChar(ch), TermOp::Flush]
}

fn row_of(row: u16, text: &str) -> Vec<TermOp> {
    let mut ops = vec![TermOp::HideCursor, TermOp::MoveCursor { row, col: 0 }, TermOp::ClearLine];
    ops.extend(text.chars().map(TermOp::WriteChar));
    ops.push(TermOp::Flush);
    ops
}

#[test]
fn test_write() {
    let text: &str = "Hello from Grant!";
    let row = write_to_row(4, text);
    assert_eq!(row.len(), 3 + 17 + 1);
    assert_eq!(row[0], TermOp::HideCursor);
    assert_eq!(row[1], TermOp::MoveCursor { row: 4, col: 0 });
    assert_eq!(row[2], TermOp::ClearLine);
    assert_eq!(row[3], TermOp::WriteChar('H'));
    assert_eq!(row[19], TermOp::WriteChar('!'));
    assert_eq!(row[20], TermOp::Flush);
    assert_eq!(row, row_of(4, text));

    let dot = char_at_position(3, 0, '.');
    assert_eq!(
        dot,
        vec![
            TermOp::HideCursor,
            TermOp::MoveCursor { row: 3, col: 0 },
            TermOp::WriteChar('.'),
            TermOp::Flush,
        ]
    );
}

#[test]
fn write_to_row_takes_any_text() {
    assert_eq!(write_to_row(0, ""), row_of(0, ""));
    assert_eq!(write_to_row(9, "süß ✓"), row_of(9, "süß ✓"));
    assert_eq!(write_to_row(9, "süß ✓").len(), 3 + 5 + 1);
}

#[test]
fn fill_row_repeats_one_character() {
    assert_eq!(fill_row(2, '#', 5), row_of(2, "#####"));
    assert_eq!(fill_row(2, '#', 0), row_of(2, ""));
}

#[test]
fn plot_point_writes_the_marker_one_inside_the_frame() {
    let canvas = Canvas::new(40, 10).style('+', '#').init(7);
    let mut expected = put(7 + 5 + 1, 40 + 1, '+');
    expected.extend(park(7 + 10 - 1 + 4));
    assert_eq!(canvas.plot_point(&Point::new(10, 0)), expected);

    let mut expected = put(7 + 1, 1, '+');
    expected.extend(park(20));
    assert_eq!(canvas.plot_point(&Point::new(-10, 10)), expected);
}

#[test]
fn plot_point_outside_the_bounds_draws_nothing() {
    let canvas = Canvas::default();
    assert_eq!(canvas.plot_point(&Point::new(11, 0)), vec![]);
    assert_eq!(canvas.plot_point(&Point::new(0, -11)), vec![]);
}

#[test]
fn plot_points_draws_in_order_and_skips_what_is_outside() {
    let canvas = Canvas::default().init(2);
    let points = [Point::new(0, 0), Point::new(50, 50), Point::new(10, -10)];
    let mut expected = canvas.plot_point(&points[0]);
    expected.extend(canvas.plot_point(&points[2]));
    assert_eq!(canvas.plot_points(&points), expected);
    assert_eq!(canvas.plot_points(&[]), vec![]);
}

#[test]
fn drawing_is_additive() {
    let canvas = Canvas::default().init(2);
    let first = [Point::new(1, 2), Point::new(-3, 4)];
    let more = [Point::new(5, -6), Point::new(70, 0), Point::new(0, 0)];
    let all: Vec<Point> = first.iter().chain(more.iter()).copied().collect();
    let mut expected = canvas.plot_points(&first);
    expected.extend(canvas.plot_points(&more));
    let drawn = canvas.plot_points(&all);
    assert_eq!(drawn, expected);
    assert!(drawn.iter().all(|op| *op != TermOp::ClearLine && *op != TermOp::ShowCursor));
}

#[test]
fn print_border_frames_the_cells() {
    let canvas = Canvas::new(2, 1).style('o', '%').init(3);
    let exit = park(3 + 1 - 1 + 4);
    let mut expected = row_of(3, "%%%%%");
    expected.extend(exit.clone());
    expected.extend(row_of(3 + 1 + 2, "%%%%%"));
    expected.extend(exit.clone());
    for row in [4, 5] {
        expected.extend(put(row, 0, '%'));
        expected.extend(put(row, 4, '%'));
    }
    expected.extend(exit);
    assert_eq!(canvas.print_border(), expected);
}

#[test]
fn markers_never_touch_the_border() {
    let canvas = Canvas::custom(6, 3, -2..=2, -2..=2, '.', '#').init(10);
    let border = canvas.print_border();
    let frame: Vec<(u16, u16)> = border
        .iter()
        .filter_map(|op| match op {
            TermOp::MoveCursor { row, col } => Some((*row, *col)),
            _ => None,
        })
        .collect();
    for x in -2..=2 {
        for y in -2..=2 {
            let ops = canvas.plot_point(&Point::new(x, y));
            let TermOp::MoveCursor { row, col } = ops[1] else { panic!("no cursor move") };
            assert!(10 < row && row < 10 + 3 + 2);
            assert!(0 < col && col < 6 + 2);
            assert!(!frame.contains(&(row, col)));
        }
    }
}

#[test]
fn teardown_leaves_the_region_and_shows_the_cursor() {
    let canvas = Canvas::new(20, 10).init(5);
    assert_eq!(canvas.final_row(), 14);
    // The region takes the rows 5 to 18; the cursor is parked on the last.
    assert_eq!(canvas.go_to_exit_pos(), park(18));
    assert_eq!(
        canvas.teardown(),
        vec![
            TermOp::MoveCursor { row: 19, col: 0 },
            TermOp::Flush,
            TermOp::ShowCursor,
            TermOp::Flush,
        ]
    );
}

#[test]
fn reserve_makes_room_for_height_and_margin() {
    let canvas = Canvas::new(20, 10);
    let mut expected = vec![TermOp::WriteChar('\n'); 14];
    expected.push(TermOp::Flush);
    assert_eq!(canvas.reserved_rows(), 14);
    assert_eq!(canvas.reserve(), expected);
    // Where the region lies does not change its size.
    assert_eq!(canvas.init(30).reserve(), expected);
}

#[test]
fn builders_set_what_they_name() {
    let canvas = Canvas::new(30, 12).bounds(-1..=1, 0..=9).style('x', '|').init(4);
    assert_eq!(canvas.dimensions(), (30, 12));
    assert_eq!(canvas.x_limits(), (-1, 1));
    assert_eq!(canvas.y_limits(), (0, 9));
    assert_eq!(canvas.marker(), 'x');
    assert_eq!(canvas.border_char(), '|');
    assert_eq!(canvas.start_row(), 4);
    assert_eq!(canvas.reserved_rows(), 16);
    let canvas = canvas.x_bounds(5..=6).y_bounds(-8..=-7);
    assert_eq!(canvas.x_limits(), (5, 6));
    assert_eq!(canvas.y_limits(), (-8, -7));
    assert_eq!(canvas.dimensions(), (30, 12));

    let canvas = Canvas::default();
    assert_eq!(canvas.dimensions(), (20, 10));
    assert_eq!(canvas.x_limits(), (-10, 10));
    assert_eq!(canvas.y_limits(), (-10, 10));
    assert_eq!(canvas.marker(), '.');
    assert_eq!(canvas.border_char(), '#');
    assert_eq!(canvas.start_row(), 0);
}

#[test]
fn the_largest_canvas_still_has_its_frame() {
    let canvas = Canvas::new(65533, 65531);
    assert_eq!(canvas.reserved_rows(), 65535);
    assert_eq!(canvas.map_point(&Point::new(10, -10)), Some((65533, 65531)));
    let ops = canvas.plot_point(&Point::new(10, -10));
    assert_eq!(ops[1], TermOp::MoveCursor { row: 65532, col: 65534 });
    assert_eq!(ops[4], TermOp::MoveCursor { row: 65534, col: 0 });
    assert_eq!(canvas.teardown()[0], TermOp::MoveCursor { row: 65535, col: 0 });
    assert_eq!(canvas.print_border().len(), 2 * (3 + 65536 + 1) + 65532 * 8 + 3 * 2);
}

#[test]
fn the_screen_shows_the_frame_and_the_markers() {
    let canvas = Canvas::custom(6, 2, 0..=6, 0..=2, 'o', '#').init(1);
    let mut screen = Grid::default();
    screen.cells.insert((1, 12), 'x');
    screen.cells.insert((3, 12), 'x');
    screen.run(&canvas.print_border());
    assert_eq!(
        screen.picture(7, 13),
        [
            "             ",
            "#########    ",
            "#       #    ",
            "#       #   x",
            "#       #    ",
            "#########    ",
            "             ",
        ]
    );
    assert_eq!(screen.cursor, (6, 0));
    assert!(screen.hidden);

    screen.run(&canvas.plot_points(&[Point::new(0, 0), Point::new(6, 2), Point::new(9, 9)]));
    let first = [
        "             ",
        "#########    ",
        "#      o#    ",
        "#       #   x",
        "#o      #    ",
        "#########    ",
        "             ",
    ];
    assert_eq!(screen.picture(7, 13), first);
    assert_eq!(screen.cursor, (6, 0));

    // More points: what was drawn stays.
    screen.run(&canvas.plot_point(&Point::new(3, 1)));
    let second = [
        "             ",
        "#########    ",
        "#      o#    ",
        "#   o   #   x",
        "#o      #    ",
        "#########    ",
        "             ",
    ];
    assert_eq!(screen.picture(7, 13), second);

    // Drawing everything once more changes nothing.
    screen.run(&canvas.plot_points(&[
        Point::new(0, 0),
        Point::new(6, 2),
        Point::new(9, 9),
        Point::new(3, 1),
    ]));
    assert_eq!(screen.picture(7, 13), second);

    screen.run(&canvas.teardown());
    assert_eq!(screen.picture(7, 13), second);
    assert_eq!(screen.cursor, (7, 0));
    assert!(!screen.hidden);
}

#[test]
fn reserving_moves_the_cursor_down_by_the_region() {
    let canvas = Canvas::new(20, 10);
    let mut screen = Grid::default();
    screen.cursor = (3, 17);
    screen.run(&canvas.reserve());
    assert_eq!(screen.cursor, (3 + 14, 0));
    assert!(screen.cells.is_empty());
}
