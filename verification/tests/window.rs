use vim_motion::buffer::{Bias, Point};
use vim_motion::display::{DisplayPoint, DisplaySnapshot};
use vim_motion::motion::Motion;
use vim_motion::selection::SelectionGoal;
use vim_motion::syntax::BracketPair;
use vim_motion::window::TextLayoutDetails;

fn chars_of(text: &str) -> Vec<char> {
    text.chars().collect()
}

/// Splits a text with one `ˇ` in it into the text and the cursor's offset.
fn parse(marked: &str) -> (String, usize) {
    let mut text = String::new();
    let mut cursor = None;
    for c in marked.chars() {
        if c == 'ˇ' {
            cursor = Some(text.chars().count());
        } else {
            text.push(c);
        }
    }
    (text, cursor.expect("the text marks no cursor"))
}

/// Pairs the brackets of a text as a syntax layer would, by nesting.
fn brackets_of(text: &[char]) -> Vec<BracketPair> {
    let mut pairs = Vec::new();
    let mut open: Vec<(char, usize)> = Vec::new();
    for (i, &c) in text.iter().enumerate() {
        match c {
            '(' | '[' | '{' => open.push((c, i)),
            ')' | ']' | '}' => {
                let wanted = match c {
                    ')' => '(',
                    ']' => '[',
                    _ => '{',
                };
                if let Some(&(o, at)) = open.last() {
                    if o == wanted {
                        open.pop();
                        pairs.push(BracketPair {
                            open_start: at,
                            open_end: at + 1,
                            close_start: i,
                            close_end: i + 1,
                        });
                    }
                }
            }
            _ => {}
        }
    }
    pairs.sort_by_key(|pair| pair.open_start);
    pairs
}

/// A snapshot of a marked text as a cursor in normal mode sees it, with the
/// place of the mark.
fn normal_state(marked: &str) -> (DisplaySnapshot, DisplayPoint) {
    let (text, cursor) = parse(marked);
    let chars = chars_of(&text);
    let pairs = brackets_of(&chars);
    let map = DisplaySnapshot::new(chars, None, true).with_brackets(pairs);
    let point = map.offset_to_display_point(cursor);
    (map, point)
}

/// The text of a snapshot with the cursor marked in it.
fn marked(map: &DisplaySnapshot, point: DisplayPoint) -> String {
    let offset = map.display_point_to_offset(point, Bias::Left);
    let mut out = String::new();
    let len = map.buffer().len();
    for i in 0..len {
        if i == offset {
            out.push('ˇ');
        }
        out.push(map.buffer().char_at_offset(i).unwrap());
    }
    if offset >= len {
        out.push('ˇ');
    }
    out
}

fn layout() -> TextLayoutDetails {
    TextLayoutDetails {
        scroll_anchor: Point { row: 0, column: 0 },
        visible_rows: Some(20),
        vertical_scroll_margin: 3,
    }
}

/// Applies a motion as a keystroke in normal mode does: a motion that fails
/// leaves the cursor in its place, and the cursor is clipped to a character.
fn press(map: &DisplaySnapshot, point: DisplayPoint, motion: &Motion, times: Option<usize>) -> DisplayPoint {
    let landed = motion
        .move_point(map, point, SelectionGoal::Unset, times, &layout())
        .map(|(p, _)| p)
        .unwrap_or(point);
    map.clip_point(landed, Bias::Left)
}

/// Presses one motion on a marked text and marks where the cursor lands.
fn after(marked_text: &str, motion: &Motion, times: Option<usize>) -> String {
    let (map, point) = normal_state(marked_text);
    marked(&map, press(&map, point, motion, times))
}


const SIX_LINES: &str = "abc\ndef\nparagraph\nthe second\nthird and\nfinal";

fn six_lines_with_cursor(before: &str) -> String {
    let at = SIX_LINES.find(before).expect("the place is in the text") + before.len();
    let mut text = String::from(&SIX_LINES[..at]);
    text.push('ˇ');
    text.push_str(&SIX_LINES[at..]);
    text
}

#[test]
fn test_window_top() {
    assert_eq!(
        after(&six_lines_with_cursor("third "), &Motion::WindowTop, None),
        six_lines_with_cursor("ab")
    );

    // clip point
    assert_eq!(
        after("1 2 3\n4 5 6\n7 8 ˇ9\n", &Motion::WindowTop, None),
        "1 2 ˇ3\n4 5 6\n7 8 9\n"
    );
    assert_eq!(
        after("1 2 3\n4 5 6\nˇ7 8 9\n", &Motion::WindowTop, None),
        "ˇ1 2 3\n4 5 6\n7 8 9\n"
    );
    assert_eq!(
        after("1 2 3\n4 5 ˇ6\n7 8 9", &Motion::WindowTop, Some(9)),
        "1 2 3\n4 5 6\n7 8 ˇ9"
    );
}

#[test]
fn test_window_middle() {
    assert_eq!(
        after(&six_lines_with_cursor("ab"), &Motion::WindowMiddle, None),
        six_lines_with_cursor("def\npa")
    );
    assert_eq!(
        after("1 2 3\n4 5 6\n7 8 ˇ9\n", &Motion::WindowMiddle, None),
        "1 2 3\n4 5 ˇ6\n7 8 9\n"
    );
    assert_eq!(
        after("1 2 3\n4 5 6\nˇ7 8 9\n", &Motion::WindowMiddle, None),
        "1 2 3\nˇ4 5 6\n7 8 9\n"
    );
    assert_eq!(
        after("ˇ1 2 3\n4 5 6\n7 8 9\n", &Motion::WindowMiddle, None),
        "1 2 3\nˇ4 5 6\n7 8 9\n"
    );
    assert_eq!(
        after("1 2 3\nˇ4 5 6\n7 8 9\n", &Motion::WindowMiddle, None),
        "1 2 3\nˇ4 5 6\n7 8 9\n"
    );
    assert_eq!(
        after("1 2 3\n4 5 ˇ6\n7 8 9\n", &Motion::WindowMiddle, None),
        "1 2 3\n4 5 ˇ6\n7 8 9\n"
    );
}

#[test]
fn test_window_bottom() {
    assert_eq!(
        after(&six_lines_with_cursor("abc\nde"), &Motion::WindowBottom, None),
        six_lines_with_cursor("third and\nfi")
    );
    assert_eq!(
        after("1 2 3\n4 5 ˇ6\n7 8 9\n", &Motion::WindowBottom, None),
        "1 2 3\n4 5 6\n7 8 9\nˇ"
    );
    assert_eq!(
        after("1 2 3\nˇ4 5 6\n7 8 9\n", &Motion::WindowBottom, None),
        "1 2 3\n4 5 6\n7 8 9\nˇ"
    );
    assert_eq!(
        after("1 2 ˇ3\n4 5 6\n7 8 9\n", &Motion::WindowBottom, None),
        "1 2 3\n4 5 6\n7 8 9\nˇ"
    );
    assert_eq!(
        after("ˇ1 2 3\n4 5 6\n7 8 9\n", &Motion::WindowBottom, None),
        "1 2 3\n4 5 6\n7 8 9\nˇ"
    );
    assert_eq!(
        after("1 2 3\n4 5 ˇ6\n7 8 9\n", &Motion::WindowBottom, Some(9)),
        "1 2 ˇ3\n4 5 6\n7 8 9\n"
    );
}

fn tall_text() -> Vec<char> {
    let mut text = String::new();
    for i in 0..40 {
        if i > 0 {
            text.push('\n');
        }
        text.push_str("line");
    }
    text.chars().collect()
}

#[test]
fn window_motions_keep_the_scroll_margin() {
    let map = DisplaySnapshot::new(tall_text(), None, true);
    let scrolled = TextLayoutDetails {
        scroll_anchor: Point { row: 10, column: 0 },
        visible_rows: Some(20),
        vertical_scroll_margin: 3,
    };
    let point = DisplayPoint { row: 15, column: 2 };
    let top = Motion::WindowTop
        .move_point(&map, point, SelectionGoal::Unset, None, &scrolled)
        .unwrap();
    assert_eq!(top, (DisplayPoint { row: 13, column: 2 }, SelectionGoal::Unset));
    let top_five = Motion::WindowTop
        .move_point(&map, point, SelectionGoal::Unset, Some(5), &scrolled)
        .unwrap();
    assert_eq!(top_five.0, DisplayPoint { row: 14, column: 2 });
    // a motion that may fail and lands where it began reports failure
    assert_eq!(
        Motion::WindowTop.move_point(&map, point, SelectionGoal::Unset, Some(6), &scrolled),
        None
    );
    let middle = Motion::WindowMiddle
        .move_point(&map, point, SelectionGoal::Unset, None, &scrolled)
        .unwrap();
    assert_eq!(middle.0, DisplayPoint { row: 20, column: 2 });
    let bottom = Motion::WindowBottom
        .move_point(&map, point, SelectionGoal::Unset, None, &scrolled)
        .unwrap();
    assert_eq!(bottom.0, DisplayPoint { row: 26, column: 2 });
    let bottom_six = Motion::WindowBottom
        .move_point(&map, point, SelectionGoal::Unset, Some(7), &scrolled)
        .unwrap();
    assert_eq!(bottom_six.0, DisplayPoint { row: 23, column: 2 });
}

#[test]
fn window_motions_without_known_rows() {
    let map = DisplaySnapshot::new(tall_text(), None, true);
    let unknown = TextLayoutDetails {
        scroll_anchor: Point { row: 10, column: 0 },
        visible_rows: None,
        vertical_scroll_margin: 3,
    };
    let point = DisplayPoint { row: 15, column: 2 };
    assert_eq!(
        Motion::WindowMiddle.move_point(&map, point, SelectionGoal::Unset, None, &unknown),
        None
    );
    assert_eq!(
        Motion::WindowBottom.move_point(&map, point, SelectionGoal::Unset, None, &unknown),
        None
    );
    let top = Motion::WindowTop
        .move_point(&map, point, SelectionGoal::Unset, None, &unknown)
        .unwrap();
    assert_eq!(top.0, DisplayPoint { row: 13, column: 2 });
}

#[test]
fn window_top_keeps_the_column_that_the_row_it_lands_on_has() {
    let map = DisplaySnapshot::new("ab\nabcdefgh\nabcdefgh\nabc\nabcdefgh".chars().collect(), None, true);
    let scrolled = TextLayoutDetails {
        scroll_anchor: Point { row: 0, column: 0 },
        visible_rows: Some(20),
        vertical_scroll_margin: 0,
    };
    let point = DisplayPoint { row: 4, column: 6 };
    let go = |times: usize| {
        Motion::WindowTop
            .move_point(&map, point, SelectionGoal::Unset, Some(times), &scrolled)
            .unwrap()
            .0
    };
    assert_eq!(go(1), DisplayPoint { row: 0, column: 1 });
    assert_eq!(go(2), DisplayPoint { row: 1, column: 6 });
    assert_eq!(go(4), DisplayPoint { row: 3, column: 2 });
}
