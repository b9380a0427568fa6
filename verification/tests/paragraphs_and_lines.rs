use vim_motion::buffer::{Bias, Point};
use vim_motion::display::{DisplayPoint, DisplaySnapshot};
use vim_motion::motion::Motion;
use vim_motion::selection::SelectionGoal;
use vim_motion::syntax::BracketPair;
use vim_motion::window::TextLayoutDetails;

fn chars_of(text: &str) -> Vec<char> {
    text.chars().collect()
}

/// Splits a text with one `ˇ` in it into the text and the cursor's offset.
fn parse(marked: &str) -> (String, usize) {
    let mut text = String::new();
    let mut cursor = None;
    for c in marked.chars() {
        if c == 'ˇ' {
            cursor = Some(text.chars().count());
        } else {
            text.push(c);
        }
    }
    (text, cursor.expect("the text marks no cursor"))
}

/// Pairs the brackets of a text as a syntax layer would, by nesting.
fn brackets_of(text: &[char]) -> Vec<BracketPair> {
    let mut pairs = Vec::new();
    let mut open: Vec<(char, usize)> = Vec::new();
    for (i, &c) in text.iter().enumerate() {
        match c {
            '(' | '[' | '{' => open.push((c, i)),
            ')' | ']' | '}' => {
                let wanted = match c {
                    ')' => '(',
                    ']' => '[',
                    _ => '{',
                };
                if let Some(&(o, at)) = open.last() {
                    if o == wanted {
                        open.pop();
                        pairs.push(BracketPair {
                            open_start: at,
                            open_end: at + 1,
                            close_start: i,
                            close_end: i + 1,
                        });
                    }
                }
            }
            _ => {}
        }
    }
    pairs.sort_by_key(|pair| pair.open_start);
    pairs
}

/// A snapshot of a marked text as a cursor in normal mode sees it, with the
/// place of the mark.
fn normal_state(marked: &str) -> (DisplaySnapshot, DisplayPoint) {
    let (text, cursor) = parse(marked);
    let chars = chars_of(&text);
    let pairs = brackets_of(&chars);
    let map = DisplaySnapshot::new(chars, None, true).with_brackets(pairs);
    let point = map.offset_to_display_point(cursor);
    (map, point)
}

/// The text of a snapshot with the cursor marked in it.
fn marked(map: &DisplaySnapshot, point: DisplayPoint) -> String {
    let offset = map.display_point_to_offset(point, Bias::Left);
    let mut out = String::new();
    let len = map.buffer().len();
    for i in 0..len {
        if i == offset {
            out.push('ˇ');
        }
        out.push(map.buffer().char_at_offset(i).unwrap());
    }
    if offset >= len {
        out.push('ˇ');
    }
    out
}

fn layout() -> TextLayoutDetails {
    TextLayoutDetails {
        scroll_anchor: Point { row: 0, column: 0 },
        visible_rows: Some(20),
        vertical_scroll_margin: 3,
    }
}

/// Applies a motion as a keystroke in normal mode does: a motion that fails
/// leaves the cursor in its place, and the cursor is clipped to a character.
fn press(map: &DisplaySnapshot, point: DisplayPoint, motion: &Motion, times: Option<usize>) -> DisplayPoint {
    let landed = motion
        .move_point(map, point, SelectionGoal::Unset, times, &layout())
        .map(|(p, _)| p)
        .unwrap_or(point);
    map.clip_point(landed, Bias::Left)
}

/// Presses one motion on a marked text and marks where the cursor lands.
fn after(marked_text: &str, motion: &Motion, times: Option<usize>) -> String {
    let (map, point) = normal_state(marked_text);
    marked(&map, press(&map, point, motion, times))
}


const PARAGRAPHS: &str = "abc\ndef\n\nparagraph\nthe second\n\n\n\nthird and\nfinal";

#[test]
fn test_start_end_of_paragraph() {
    let initial = "ˇabc\ndef\n\nparagraph\nthe second\n\n\n\nthird and\nfinal";
    let (map, start) = normal_state(initial);
    assert_eq!(map.buffer().len(), PARAGRAPHS.chars().count());

    // goes down once
    let once = press(&map, start, &Motion::EndOfParagraph, None);
    assert_eq!(marked(&map, once), "abc\ndef\nˇ\nparagraph\nthe second\n\n\n\nthird and\nfinal");

    // goes up once
    let back = press(&map, once, &Motion::StartOfParagraph, None);
    assert_eq!(marked(&map, back), initial);

    // goes down twice
    let twice = press(&map, back, &Motion::EndOfParagraph, Some(2));
    assert_eq!(marked(&map, twice), "abc\ndef\n\nparagraph\nthe second\nˇ\n\n\nthird and\nfinal");

    // goes down over multiple blanks
    let last = press(&map, twice, &Motion::EndOfParagraph, None);
    assert_eq!(marked(&map, last), "abc\ndef\n\nparagraph\nthe second\n\n\n\nthird and\nfinaˇl");

    // goes up twice
    let up = press(&map, last, &Motion::StartOfParagraph, Some(2));
    assert_eq!(marked(&map, up), "abc\ndef\nˇ\nparagraph\nthe second\n\n\n\nthird and\nfinal");
}

#[test]
fn test_next_word_end_newline_last_char() {
    assert_eq!(after("something(ˇfoo)", &Motion::EndOfParagraph, None), "something(fooˇ)");
}

#[test]
fn test_next_line_start() {
    assert_eq!(after("ˇone\n  two\nthree", &Motion::NextLineStart, None), "one\n  ˇtwo\nthree");
}

#[test]
fn test_end_of_line_downward() {
    assert_eq!(
        after("ˇ one\n two \nthree", &Motion::EndOfLineDownward, None),
        " onˇe\n two \nthree"
    );
    let (map, start) = normal_state("ˇ one \n two \nthree");
    let first = press(&map, start, &Motion::EndOfLineDownward, None);
    assert_eq!(marked(&map, first), " onˇe \n two \nthree");
    let second = press(&map, first, &Motion::EndOfLineDownward, Some(2));
    assert_eq!(marked(&map, second), " one \n twˇo \nthree");
}

#[test]
fn previous_line_start_goes_to_first_ink_above() {
    assert_eq!(
        after("one\n  two\nthˇree", &Motion::PreviousLineStart, None),
        "one\n  ˇtwo\nthree"
    );
    assert_eq!(
        after("  one\n  two\nthˇree", &Motion::PreviousLineStart, Some(5)),
        "  ˇone\n  two\nthree"
    );
}

#[test]
fn start_and_end_of_line() {
    assert_eq!(
        after("one twˇo three\nfour", &Motion::StartOfLine { display_lines: false }, None),
        "ˇone two three\nfour"
    );
    assert_eq!(
        after("one twˇo three\nfour", &Motion::EndOfLine { display_lines: false }, None),
        "one two threˇe\nfour"
    );
    assert_eq!(
        after("one twˇo three\nfour", &Motion::EndOfLine { display_lines: false }, Some(2)),
        "one two three\nfouˇr"
    );
    assert_eq!(
        after("  one twˇo", &Motion::FirstNonWhitespace { display_lines: false }, None),
        "  ˇone two"
    );
}

#[test]
fn go_to_column_counts_from_one() {
    assert_eq!(after("one twˇo three", &Motion::GoToColumn, Some(3)), "onˇe two three");
    assert_eq!(after("one twˇo three", &Motion::GoToColumn, None), "ˇone two three");
    assert_eq!(after("one twˇo", &Motion::GoToColumn, Some(40)), "one twˇo");
}

#[test]
fn current_line_is_infallible() {
    let (map, point) = normal_state("one twˇo\nthree");
    let end = Motion::CurrentLine
        .move_point(&map, point, SelectionGoal::Unset, None, &layout())
        .unwrap();
    assert_eq!(marked(&map, end.0), "one twˇo\nthree");
    let below = Motion::CurrentLine
        .move_point(&map, point, SelectionGoal::Unset, Some(2), &layout())
        .unwrap();
    assert_eq!(marked(&map, below.0), "one two\nthreˇe");
}

#[test]
fn sentences_forward_and_backward() {
    assert_eq!(
        after("ˇOne two. Three four! Five", &Motion::SentenceForward, None),
        "One two. ˇThree four! Five"
    );
    assert_eq!(
        after("ˇOne two. Three four! Five", &Motion::SentenceForward, Some(2)),
        "One two. Three four! ˇFive"
    );
    assert_eq!(
        after("One two. Three fˇour! Five", &Motion::SentenceBackward, None),
        "One two. ˇThree four! Five"
    );
    assert_eq!(
        after("One two.) Three fˇour", &Motion::SentenceBackward, None),
        "One two.) ˇThree four"
    );
    // a full stop inside a word ends no sentence
    assert_eq!(
        after("ˇversion 1.2 is out. Next", &Motion::SentenceForward, None),
        "version 1.2 is out. ˇNext"
    );
}

#[test]
fn sentence_forward_stops_at_blank_lines() {
    assert_eq!(
        after("ˇone two\n\nthree", &Motion::SentenceForward, None),
        "one two\nˇ\nthree"
    );
    assert_eq!(
        after("one two\nˇ\nthree", &Motion::SentenceForward, None),
        "one two\n\nˇthree"
    );
}
