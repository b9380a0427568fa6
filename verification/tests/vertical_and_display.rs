use vim_motion::buffer::{Bias, Buffer, Point};
use vim_motion::display::{DisplayPoint, DisplaySnapshot, RowSpan};
use vim_motion::motion::Motion;
use vim_motion::selection::SelectionGoal;
use vim_motion::syntax::BracketPair;
use vim_motion::window::TextLayoutDetails;
use vim_motion::movement;

fn chars_of(text: &str) -> Vec<char> {
    text.chars().collect()
}

/// Splits a text with one `ˇ` in it into the text and the cursor's offset.
fn parse(marked: &str) -> (String, usize) {
    let mut text = String::new();
    let mut cursor = None;
    for c in marked.chars() {
        if c == 'ˇ' {
            cursor = Some(text.chars().count());
        } else {
            text.push(c);
        }
    }
    (text, cursor.expect("the text marks no cursor"))
}

/// Pairs the brackets of a text as a syntax layer would, by nesting.
fn brackets_of(text: &[char]) -> Vec<BracketPair> {
    let mut pairs = Vec::new();
    let mut open: Vec<(char, usize)> = Vec::new();
    for (i, &c) in text.iter().enumerate() {
        match c {
            '(' | '[' | '{' => open.push((c, i)),
            ')' | ']' | '}' => {
                let wanted = match c {
                    ')' => '(',
                    ']' => '[',
                    _ => '{',
                };
                if let Some(&(o, at)) = open.last() {
                    if o == wanted {
                        open.pop();
                        pairs.push(BracketPair {
                            open_start: at,
                            open_end: at + 1,
                            close_start: i,
                            close_end: i + 1,
                        });
                    }
                }
            }
            _ => {}
        }
    }
    pairs.sort_by_key(|pair| pair.open_start);
    pairs
}

/// A snapshot of a marked text as a cursor in normal mode sees it, with the
/// place of the mark.
fn normal_state(marked: &str) -> (DisplaySnapshot, DisplayPoint) {
    let (text, cursor) = parse(marked);
    let chars = chars_of(&text);
    let pairs = brackets_of(&chars);
    let map = DisplaySnapshot::new(chars, None, true).with_brackets(pairs);
    let point = map.offset_to_display_point(cursor);
    (map, point)
}

/// The text of a snapshot with the cursor marked in it.
fn marked(map: &DisplaySnapshot, point: DisplayPoint) -> String {
    let offset = map.display_point_to_offset(point, Bias::Left);
    let mut out = String::new();
    let len = map.buffer().len();
    for i in 0..len {
        if i == offset {
            out.push('ˇ');
        }
        out.push(map.buffer().char_at_offset(i).unwrap());
    }
    if offset >= len {
        out.push('ˇ');
    }
    out
}

fn layout() -> TextLayoutDetails {
    TextLayoutDetails {
        scroll_anchor: Point { row: 0, column: 0 },
        visible_rows: Some(20),
        vertical_scroll_margin: 3,
    }
}

/// Applies a motion as a keystroke in normal mode does: a motion that fails
/// leaves the cursor in its place, and the cursor is clipped to a character.
fn press(map: &DisplaySnapshot, point: DisplayPoint, motion: &Motion, times: Option<usize>) -> DisplayPoint {
    let landed = motion
        .move_point(map, point, SelectionGoal::Unset, times, &layout())
        .map(|(p, _)| p)
        .unwrap_or(point);
    map.clip_point(landed, Bias::Left)
}

/// Presses one motion on a marked text and marks where the cursor lands.
fn after(marked_text: &str, motion: &Motion, times: Option<usize>) -> String {
    let (map, point) = normal_state(marked_text);
    marked(&map, press(&map, point, motion, times))
}


fn wrapped(text: &str, width: usize, clip: bool) -> DisplaySnapshot {
    DisplaySnapshot::new(chars_of(text), Some(width), clip)
}

fn dp(row: usize, column: usize) -> DisplayPoint {
    DisplayPoint { row, column }
}

#[test]
fn unwrapped_text_has_one_row_per_line() {
    let map = DisplaySnapshot::new(chars_of("one\n\nthree"), None, false);
    assert_eq!(map.max_row(), 2);
    assert_eq!(map.line_len(0), 3);
    assert_eq!(map.line_len(1), 0);
    assert_eq!(map.line_len(2), 5);
    assert_eq!(map.line_len(3), 0);
    assert_eq!(map.max_point(), dp(2, 5));
    assert_eq!(map.buffer().len(), 10);
    assert_eq!(map.buffer().last_row(), 2);
    let same = DisplaySnapshot::new(chars_of("one\n\nthree"), Some(0), false);
    assert_eq!(same.max_point(), dp(2, 5));
}

#[test]
fn empty_text_has_one_empty_row() {
    let map = DisplaySnapshot::new(Vec::new(), None, true);
    assert_eq!(map.max_point(), dp(0, 0));
    assert_eq!(map.clip_point(dp(7, 7), Bias::Left), dp(0, 0));
    assert_eq!(map.display_point_to_offset(dp(3, 1), Bias::Right), 0);
    assert_eq!(map.offset_to_display_point(12), dp(0, 0));
}

#[test]
fn long_lines_wrap_into_rows() {
    // "abcdefgh" in rows of three, then "ij"
    let map = wrapped("abcdefgh\nij", 3, false);
    assert_eq!(map.max_row(), 3);
    assert_eq!(map.line_len(0), 3);
    assert_eq!(map.line_len(1), 3);
    assert_eq!(map.line_len(2), 2);
    assert_eq!(map.line_len(3), 2);
    assert!(!map.row_ends_line(0));
    assert!(!map.row_ends_line(1));
    assert!(map.row_ends_line(2));
    assert!(map.row_ends_line(3));
    // a line that fills its rows exactly has no empty row behind it
    let exact = wrapped("abcdef\nx", 3, false);
    assert_eq!(exact.max_row(), 2);
    assert_eq!(exact.line_len(1), 3);
    assert!(exact.row_ends_line(1));
}

#[test]
fn points_convert_between_spaces() {
    let map = wrapped("abcdefgh\nij", 3, false);
    assert_eq!(map.point_to_display_point(Point { row: 0, column: 0 }), dp(0, 0));
    assert_eq!(map.point_to_display_point(Point { row: 0, column: 2 }), dp(0, 2));
    // where a line is wrapped, the later row shows the point
    assert_eq!(map.point_to_display_point(Point { row: 0, column: 3 }), dp(1, 0));
    assert_eq!(map.point_to_display_point(Point { row: 0, column: 7 }), dp(2, 1));
    assert_eq!(map.point_to_display_point(Point { row: 0, column: 8 }), dp(2, 2));
    assert_eq!(map.point_to_display_point(Point { row: 1, column: 1 }), dp(3, 1));
    // out of range points are clipped
    assert_eq!(map.point_to_display_point(Point { row: 0, column: 80 }), dp(2, 2));
    assert_eq!(map.point_to_display_point(Point { row: 9, column: 1 }), dp(3, 1));

    assert_eq!(map.display_point_to_point(dp(1, 1), Bias::Left), Point { row: 0, column: 4 });
    assert_eq!(map.display_point_to_point(dp(3, 2), Bias::Left), Point { row: 1, column: 2 });
    assert_eq!(map.display_point_to_offset(dp(2, 1), Bias::Left), 7);
    assert_eq!(map.display_point_to_offset(dp(3, 0), Bias::Left), 9);
    assert_eq!(map.offset_to_display_point(9), dp(3, 0));
    assert_eq!(map.offset_to_display_point(8), dp(2, 2));
    assert_eq!(map.buffer().offset_to_point(8), Point { row: 0, column: 8 });
    assert_eq!(map.buffer().point_to_offset(Point { row: 1, column: 2 }), 11);
}

#[test]
fn clipping_rounds_by_bias_at_a_wrap() {
    let map = wrapped("abcdefgh\nij", 3, false);
    assert_eq!(map.clip_point(dp(0, 3), Bias::Right), dp(1, 0));
    assert_eq!(map.clip_point(dp(0, 3), Bias::Left), dp(0, 2));
    assert_eq!(map.clip_point(dp(0, 9), Bias::Right), dp(1, 0));
    assert_eq!(map.clip_point(dp(2, 9), Bias::Right), dp(2, 2));
    assert_eq!(map.clip_point(dp(9, 1), Bias::Left), dp(3, 1));
    assert_eq!(map.clip_point(dp(1, 1), Bias::Left), dp(1, 1));
}

#[test]
fn clipping_keeps_the_cursor_on_a_character() {
    let map = DisplaySnapshot::new(chars_of("one\n\nthree"), None, true);
    assert_eq!(map.clip_point(dp(0, 3), Bias::Right), dp(0, 2));
    assert_eq!(map.clip_point(dp(0, 3), Bias::Left), dp(0, 2));
    assert_eq!(map.clip_point(dp(1, 0), Bias::Left), dp(1, 0));
    assert_eq!(map.clip_point(dp(2, 50), Bias::Left), dp(2, 4));
    assert_eq!(map.clip_ignoring_line_ends(dp(0, 3), Bias::Left), dp(0, 3));
    assert_eq!(map.clip_at_line_end(dp(0, 3)), dp(0, 2));
    assert_eq!(map.clip_at_line_end(dp(0, 1)), dp(0, 1));
    assert!(map.clip_at_line_ends());
}

#[test]
fn line_boundaries_in_both_spaces() {
    let map = wrapped("abcdefgh\nij", 3, false);
    let start = map.prev_line_boundary(Point { row: 0, column: 5 });
    assert_eq!(start, (Point { row: 0, column: 0 }, dp(0, 0)));
    let end = map.next_line_boundary(Point { row: 0, column: 5 });
    assert_eq!(end, (Point { row: 0, column: 8 }, dp(2, 2)));
    let last = map.next_line_boundary(Point { row: 1, column: 0 });
    assert_eq!(last, (Point { row: 1, column: 2 }, dp(3, 2)));
}

#[test]
fn single_steps() {
    let map = wrapped("abcdefgh\nij", 3, false);
    assert_eq!(movement::left(&map, dp(1, 0)), dp(0, 2));
    assert_eq!(movement::left(&map, dp(3, 0)), dp(2, 2));
    assert_eq!(movement::left(&map, dp(0, 0)), dp(0, 0));
    assert_eq!(movement::right(&map, dp(0, 2)), dp(1, 0));
    assert_eq!(movement::right(&map, dp(2, 2)), dp(3, 0));
    assert_eq!(movement::right(&map, dp(3, 2)), dp(3, 2));
    assert_eq!(movement::saturating_left(&map, dp(1, 0)), dp(0, 2));
    assert_eq!(movement::saturating_left(&map, dp(3, 0)), dp(3, 0));
    assert_eq!(movement::saturating_right(&map, dp(2, 2)), dp(2, 2));
    assert_eq!(movement::saturating_right(&map, dp(0, 2)), dp(1, 0));
}

#[test]
fn left_and_right_stay_in_the_line() {
    assert_eq!(after("one twˇo", &Motion::Left, None), "one tˇwo");
    assert_eq!(after("one twˇo", &Motion::Left, Some(4)), "onˇe two");
    assert_eq!(after("one\ntwˇo", &Motion::Left, Some(40)), "one\nˇtwo");
    assert_eq!(after("ˇone two", &Motion::Right, Some(2)), "onˇe two");
    assert_eq!(after("one tˇwo\nthree", &Motion::Right, Some(40)), "one twˇo\nthree");
    let (map, point) = normal_state("ˇone");
    assert_eq!(Motion::Left.move_point(&map, point, SelectionGoal::Unset, None, &layout()), None);
}

#[test]
fn backspace_and_space_cross_lines() {
    assert_eq!(after("one\nˇtwo", &Motion::Backspace, None), "onˇe\ntwo");
    assert_eq!(after("one\ntˇwo", &Motion::Backspace, Some(3)), "oˇne\ntwo");
    assert_eq!(after("onˇe\ntwo", &Motion::Space, None), "one\nˇtwo");
    assert_eq!(after("oˇne\ntwo", &Motion::Space, Some(3)), "one\ntˇwo");
    assert_eq!(after("one\ntˇwo", &Motion::Space, Some(30)), "one\ntwˇo");
}

#[test]
fn down_and_up_keep_the_column() {
    let map = DisplaySnapshot::new(chars_of("one two three\nab\nfour five six"), None, true);
    let start = dp(0, 8);
    let down = Motion::Down { display_lines: false };
    let up = Motion::Up { display_lines: false };
    let (hop1, g1) = down.move_point(&map, start, SelectionGoal::Unset, None, &layout()).unwrap();
    assert_eq!(hop1, dp(1, 1));
    assert_eq!(g1, SelectionGoal::WrappedHorizontalPosition(0, 8));
    let (hop2, g2) = down.move_point(&map, hop1, g1, None, &layout()).unwrap();
    assert_eq!(hop2, dp(2, 8));
    assert_eq!(g2, g1);
    let (hop3, _) = up.move_point(&map, hop2, g2, Some(2), &layout()).unwrap();
    assert_eq!(hop3, dp(0, 8));
    // at the last line the cursor cannot go down
    assert_eq!(down.move_point(&map, dp(2, 3), SelectionGoal::Unset, None, &layout()), None);
    assert_eq!(up.move_point(&map, dp(0, 3), SelectionGoal::Unset, None, &layout()), None);
    // further than the text goes
    let (hop4, _) = down.move_point(&map, dp(0, 0), SelectionGoal::Unset, Some(9), &layout()).unwrap();
    assert_eq!(hop4, dp(2, 0));
}

#[test]
fn down_by_display_rows_walks_through_a_wrapped_line() {
    let map = wrapped("abcdefgh\nij", 3, true);
    let down = Motion::Down { display_lines: true };
    let up = Motion::Up { display_lines: true };
    let (hop1, g1) = down.move_point(&map, dp(0, 1), SelectionGoal::Unset, None, &layout()).unwrap();
    assert_eq!(hop1, dp(1, 1));
    assert_eq!(g1, SelectionGoal::HorizontalPosition(1));
    let (hop2, _) = down.move_point(&map, hop1, g1, Some(2), &layout()).unwrap();
    assert_eq!(hop2, dp(3, 1));
    let (hop3, _) = up.move_point(&map, hop2, g1, Some(3), &layout()).unwrap();
    assert_eq!(hop3, dp(0, 1));
    // by buffer lines the whole wrapped line is one step
    let by_line = Motion::Down { display_lines: false };
    let (hop4, _) = by_line.move_point(&map, dp(0, 1), SelectionGoal::Unset, None, &layout()).unwrap();
    assert_eq!(hop4, dp(3, 1));
    // and the cursor comes back into the row of the wrapped line it left
    let up_line = Motion::Up { display_lines: false };
    let (hop5, g5) = by_line.move_point(&map, dp(1, 2), SelectionGoal::Unset, None, &layout()).unwrap();
    assert_eq!(hop5, dp(3, 1));
    assert_eq!(g5, SelectionGoal::WrappedHorizontalPosition(1, 2));
    let (hop6, _) = up_line.move_point(&map, hop5, g5, None, &layout()).unwrap();
    assert_eq!(hop6, dp(1, 2));
}

#[test]
fn line_motions_by_display_rows() {
    let map = wrapped("abcdefgh\nij", 3, true);
    let start = Motion::StartOfLine { display_lines: true };
    let end = Motion::EndOfLine { display_lines: true };
    let whole_start = Motion::StartOfLine { display_lines: false };
    let whole_end = Motion::EndOfLine { display_lines: false };
    let at = dp(1, 1);
    assert_eq!(start.move_point(&map, at, SelectionGoal::Unset, None, &layout()).unwrap().0, dp(1, 0));
    assert_eq!(end.move_point(&map, at, SelectionGoal::Unset, None, &layout()).unwrap().0, dp(1, 2));
    assert_eq!(whole_start.move_point(&map, at, SelectionGoal::Unset, None, &layout()).unwrap().0, dp(0, 0));
    assert_eq!(whole_end.move_point(&map, at, SelectionGoal::Unset, None, &layout()).unwrap().0, dp(2, 1));
}

#[test]
fn test_clipping_with_inlay_hints() {
    // the snapshot holds the text alone, without the hint that is shown in the empty line
    assert_eq!(
        after("struct Foo {\nˇ\n}\n", &Motion::Down { display_lines: false }, None),
        "struct Foo {\n\nˇ}\n"
    );
}

#[test]
fn test_clipping_with_inlay_hints_end_of_line() {
    // the snapshot holds the text alone, without the hint that is shown behind the line
    assert_eq!(
        after("ˇstruct Foo {\n\n}\n", &Motion::EndOfLine { display_lines: false }, None),
        "struct Foo ˇ{\n\n}\n"
    );
}

fn span(line: usize, start: usize, end: usize) -> RowSpan {
    RowSpan { line, start, end }
}

#[test]
fn rows_can_be_given_as_the_display_lays_them_out() {
    // wrapped between words
    let text = "one two three\nfour";
    let rows = vec![span(0, 0, 4), span(0, 4, 8), span(0, 8, 13), span(1, 0, 4)];
    let map = DisplaySnapshot::from_rows(Buffer::new(chars_of(text)), rows, true).unwrap();
    assert_eq!(map.max_row(), 3);
    assert_eq!(map.line_len(1), 4);
    assert_eq!(map.point_to_display_point(Point { row: 0, column: 9 }), dp(2, 1));
    let down = Motion::Down { display_lines: true };
    let (landed, _) = down.move_point(&map, dp(0, 2), SelectionGoal::Unset, Some(2), &layout()).unwrap();
    assert_eq!(landed, dp(2, 2));
    let w = Motion::NextWordStart { ignore_punctuation: false };
    assert_eq!(press(&map, dp(0, 0), &w, Some(3)), dp(3, 0));
}

#[test]
fn rows_that_do_not_show_the_text_are_refused() {
    let text = "one two three\nfour";
    let refused = |rows: Vec<RowSpan>| {
        DisplaySnapshot::from_rows(Buffer::new(chars_of(text)), rows, true).is_none()
    };
    assert!(refused(Vec::new()));
    // a gap
    assert!(refused(vec![span(0, 0, 4), span(0, 5, 13), span(1, 0, 4)]));
    // a line left out
    assert!(refused(vec![span(0, 0, 13)]));
    // a row that reaches over its line
    assert!(refused(vec![span(0, 0, 14), span(1, 0, 4)]));
    // an empty row in the middle of a line
    assert!(refused(vec![span(0, 0, 0), span(0, 0, 13), span(1, 0, 4)]));
    // a line that does not exist
    assert!(refused(vec![span(0, 0, 13), span(1, 0, 4), span(2, 0, 0)]));
    // the last line cut short
    assert!(refused(vec![span(0, 0, 13), span(1, 0, 3)]));
    assert!(!refused(vec![span(0, 0, 13), span(1, 0, 4)]));
}
