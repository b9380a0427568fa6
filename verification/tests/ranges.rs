use vim_motion::buffer::{Bias, Point};
use vim_motion::display::{DisplayPoint, DisplaySnapshot};
use vim_motion::motion::Motion;
use vim_motion::selection::SelectionGoal;
use vim_motion::syntax::BracketPair;
use vim_motion::window::TextLayoutDetails;
use vim_motion::range::DisplayRange;
use vim_motion::scan::FindRange;
use vim_motion::selection::Selection;
use vim_motion::motion::PointRange;

fn chars_of(text: &str) -> Vec<char> {
    text.chars().collect()
}

/// Splits a text with one `ˇ` in it into the text and the cursor's offset.
fn parse(marked: &str) -> (String, usize) {
    let mut text = String::new();
    let mut cursor = None;
    for c in marked.chars() {
        if c == 'ˇ' {
            cursor = Some(text.chars().count());
        } else {
            text.push(c);
        }
    }
    (text, cursor.expect("the text marks no cursor"))
}

/// Pairs the brackets of a text as a syntax layer would, by nesting.
fn brackets_of(text: &[char]) -> Vec<BracketPair> {
    let mut pairs = Vec::new();
    let mut open: Vec<(char, usize)> = Vec::new();
    for (i, &c) in text.iter().enumerate() {
        match c {
            '(' | '[' | '{' => open.push((c, i)),
            ')' | ']' | '}' => {
                let wanted = match c {
                    ')' => '(',
                    ']' => '[',
                    _ => '{',
                };
                if let Some(&(o, at)) = open.last() {
                    if o == wanted {
                        open.pop();
                        pairs.push(BracketPair {
                            open_start: at,
                            open_end: at + 1,
                            close_start: i,
                            close_end: i + 1,
                        });
                    }
                }
            }
            _ => {}
        }
    }
    pairs.sort_by_key(|pair| pair.open_start);
    pairs
}

/// A snapshot of a marked text as a cursor in normal mode sees it, with the
/// place of the mark.
fn normal_state(marked: &str) -> (DisplaySnapshot, DisplayPoint) {
    let (text, cursor) = parse(marked);
    let chars = chars_of(&text);
    let pairs = brackets_of(&chars);
    let map = DisplaySnapshot::new(chars, None, true).with_brackets(pairs);
    let point = map.offset_to_display_point(cursor);
    (map, point)
}

/// The text of a snapshot with the cursor marked in it.
fn marked(map: &DisplaySnapshot, point: DisplayPoint) -> String {
    let offset = map.display_point_to_offset(point, Bias::Left);
    let mut out = String::new();
    let len = map.buffer().len();
    for i in 0..len {
        if i == offset {
            out.push('ˇ');
        }
        out.push(map.buffer().char_at_offset(i).unwrap());
    }
    if offset >= len {
        out.push('ˇ');
    }
    out
}

fn layout() -> TextLayoutDetails {
    TextLayoutDetails {
        scroll_anchor: Point { row: 0, column: 0 },
        visible_rows: Some(20),
        vertical_scroll_margin: 3,
    }
}

/// Applies a motion as a keystroke in normal mode does: a motion that fails
/// leaves the cursor in its place, and the cursor is clipped to a character.
fn press(map: &DisplaySnapshot, point: DisplayPoint, motion: &Motion, times: Option<usize>) -> DisplayPoint {
    let landed = motion
        .move_point(map, point, SelectionGoal::Unset, times, &layout())
        .map(|(p, _)| p)
        .unwrap_or(point);
    map.clip_point(landed, Bias::Left)
}

/// Presses one motion on a marked text and marks where the cursor lands.
fn after(marked_text: &str, motion: &Motion, times: Option<usize>) -> String {
    let (map, point) = normal_state(marked_text);
    marked(&map, press(&map, point, motion, times))
}


/// A snapshot as an operator sees it: the cursor may stand behind the last
/// character of a line.
fn operator_state(marked_text: &str) -> (DisplaySnapshot, Selection) {
    let (text, cursor) = parse(marked_text);
    let chars = chars_of(&text);
    let pairs = brackets_of(&chars);
    let map = DisplaySnapshot::new(chars, None, false).with_brackets(pairs);
    let point = map.offset_to_display_point(cursor);
    (map, Selection::cursor(point))
}

fn dp(row: usize, column: usize) -> DisplayPoint {
    DisplayPoint { row, column }
}

fn range_of(marked_text: &str, motion: &Motion, times: Option<usize>, expand: bool) -> Option<DisplayRange> {
    let (map, selection) = operator_state(marked_text);
    motion.range(&map, selection, times, expand, &layout())
}

#[test]
fn inclusive_motion_takes_in_the_character_it_lands_on() {
    let e = Motion::NextWordEnd { ignore_punctuation: false };
    assert_eq!(
        range_of("ˇone two", &e, None, false),
        Some(DisplayRange { start: dp(0, 0), end: dp(0, 3) })
    );
    let f = Motion::FindForward { before: false, char: 'w', mode: FindRange::SingleLine, smartcase: false };
    assert_eq!(
        range_of("ˇone two", &f, None, false),
        Some(DisplayRange { start: dp(0, 0), end: dp(0, 6) })
    );
    // at the end of the line the range ends with the line
    assert_eq!(
        range_of("one ˇtwo", &e, None, false),
        Some(DisplayRange { start: dp(0, 4), end: dp(0, 7) })
    );
}

#[test]
fn exclusive_motion_ends_in_front_of_the_character_it_lands_on() {
    let w = Motion::NextWordStart { ignore_punctuation: false };
    assert_eq!(
        range_of("ˇone two", &w, None, false),
        Some(DisplayRange { start: dp(0, 0), end: dp(0, 4) })
    );
    let b = Motion::PreviousWordStart { ignore_punctuation: false };
    assert_eq!(
        range_of("one twˇo", &b, None, false),
        Some(DisplayRange { start: dp(0, 4), end: dp(0, 6) })
    );
}

#[test]
fn word_motion_over_a_line_end_stays_in_its_line() {
    let w = Motion::NextWordStart { ignore_punctuation: false };
    assert_eq!(
        range_of("one ˇtwo\nthree", &w, None, false),
        Some(DisplayRange { start: dp(0, 4), end: dp(0, 7) })
    );
}

#[test]
fn exclusive_motion_to_a_line_start_ends_on_the_line_before() {
    assert_eq!(
        range_of("ˇone.\ntwo", &Motion::SentenceForward, None, false),
        Some(DisplayRange { start: dp(0, 0), end: dp(0, 4) })
    );
    // a motion by paragraphs goes by lines
    assert_eq!(
        range_of("ˇone\ntwo\n\nthree", &Motion::EndOfParagraph, None, false),
        Some(DisplayRange { start: dp(0, 0), end: dp(2, 0) })
    );
    // backspace over a line start is left as it is
    assert_eq!(
        range_of("one\nˇtwo", &Motion::Backspace, None, false),
        Some(DisplayRange { start: dp(0, 3), end: dp(1, 0) })
    );
}

#[test]
fn linewise_range_covers_whole_lines() {
    let down = Motion::Down { display_lines: false };
    assert_eq!(
        range_of("one\ntˇwo\nthree\nfour", &down, None, false),
        Some(DisplayRange { start: dp(1, 0), end: dp(2, 5) })
    );
    // with the line break behind it taken in, the range ends where the next line starts
    assert_eq!(
        range_of("one\ntˇwo\nthree\nfour", &down, None, true),
        Some(DisplayRange { start: dp(1, 0), end: dp(3, 0) })
    );
    assert_eq!(
        range_of("one\ntˇwo\nthree\nfour", &Motion::CurrentLine, None, true),
        Some(DisplayRange { start: dp(1, 0), end: dp(2, 0) })
    );
    // on the last line the line break in front of it is taken in instead
    assert_eq!(
        range_of("one\ntwo\nthˇree", &Motion::CurrentLine, None, true),
        Some(DisplayRange { start: dp(1, 3), end: dp(2, 5) })
    );
    // a text of one line has no line break to take in
    assert_eq!(
        range_of("onˇe", &Motion::CurrentLine, None, true),
        Some(DisplayRange { start: dp(0, 0), end: dp(0, 3) })
    );
}

#[test]
fn range_of_a_failed_motion_is_nothing() {
    let f = Motion::FindForward { before: false, char: 'z', mode: FindRange::SingleLine, smartcase: false };
    assert_eq!(range_of("ˇone two", &f, None, false), None);
    assert_eq!(range_of("ˇone two", &Motion::Left, None, false), None);
    let empty = Motion::ZedSearchResult { prior_selections: Vec::new(), new_selections: Vec::new() };
    assert_eq!(range_of("ˇone two", &empty, None, false), None);
}

#[test]
fn search_result_range_spans_both_selections() {
    let prior = PointRange { start: Point { row: 0, column: 4 }, end: Point { row: 0, column: 5 } };
    let new = PointRange { start: Point { row: 1, column: 2 }, end: Point { row: 1, column: 4 } };
    let forward = Motion::ZedSearchResult { prior_selections: vec![prior], new_selections: vec![new] };
    assert_eq!(
        range_of("one tˇwo\nthree", &forward, None, false),
        Some(DisplayRange { start: dp(0, 4), end: dp(1, 4) })
    );
    let backward = Motion::ZedSearchResult { prior_selections: vec![new], new_selections: vec![prior] };
    assert_eq!(
        range_of("one two\nthˇree", &backward, None, false),
        Some(DisplayRange { start: dp(0, 4), end: dp(1, 4) })
    );
    let (map, selection) = operator_state("one tˇwo\nthree");
    assert_eq!(
        forward.move_point(&map, selection.head(), SelectionGoal::Unset, None, &layout()),
        Some((dp(1, 2), SelectionGoal::Unset))
    );
}

#[test]
fn expand_selection_widens_or_leaves_alone() {
    let (map, mut selection) = operator_state("ˇone two");
    let e = Motion::NextWordEnd { ignore_punctuation: false };
    assert!(e.expand_selection(&map, &mut selection, None, false, &layout()));
    assert_eq!(selection.start, dp(0, 0));
    assert_eq!(selection.end, dp(0, 3));
    let before = selection;
    assert!(!Motion::Matching.expand_selection(&map, &mut selection, None, false, &layout()));
    assert_eq!(selection, before);
}

#[test]
fn selection_head_moves_around_its_anchor() {
    let mut selection = Selection::cursor(dp(1, 4));
    selection.set_head(dp(1, 7), SelectionGoal::HorizontalPosition(7));
    assert_eq!((selection.start, selection.end, selection.reversed), (dp(1, 4), dp(1, 7), false));
    assert_eq!(selection.head(), dp(1, 7));
    assert_eq!(selection.tail(), dp(1, 4));
    selection.set_head(dp(0, 9), SelectionGoal::Unset);
    assert_eq!((selection.start, selection.end, selection.reversed), (dp(0, 9), dp(1, 4), true));
    assert_eq!(selection.head(), dp(0, 9));
    assert_eq!(selection.goal, SelectionGoal::Unset);
}

#[test]
fn count_of_zero_is_count_of_one() {
    let motions = vec![
        Motion::Right,
        Motion::Space,
        Motion::Down { display_lines: false },
        Motion::NextWordStart { ignore_punctuation: false },
        Motion::NextWordEnd { ignore_punctuation: true },
        Motion::EndOfLine { display_lines: false },
        Motion::StartOfLineDownward,
        Motion::EndOfLineDownward,
        Motion::EndOfParagraph,
        Motion::SentenceForward,
        Motion::CurrentLine,
        Motion::StartOfDocument,
        Motion::EndOfDocument,
        Motion::NextLineStart,
        Motion::WindowTop,
        Motion::WindowBottom,
        Motion::GoToColumn,
        Motion::Matching,
        Motion::FindForward { before: false, char: 't', mode: FindRange::MultiLine, smartcase: false },
        Motion::RepeatFind {
            last_find: Box::new(Motion::FindForward {
                before: true,
                char: 'w',
                mode: FindRange::SingleLine,
                smartcase: false,
            }),
        },
    ];
    let (map, point) = normal_state("one (tˇwo) three. Four\nfive six\n\nseven");
    for motion in motions.iter() {
        let zero = motion.move_point(&map, point, SelectionGoal::Unset, Some(0), &layout());
        let one = motion.move_point(&map, point, SelectionGoal::Unset, Some(1), &layout());
        assert_eq!(zero, one, "{:?}", motion);
        let none = motion.move_point(&map, point, SelectionGoal::Unset, None, &layout());
        match motion {
            Motion::StartOfDocument | Motion::EndOfDocument => {}
            _ => assert_eq!(none, one, "{:?}", motion),
        }
        let selection = Selection::cursor(point);
        assert_eq!(
            motion.range(&map, selection, Some(0), true, &layout()),
            motion.range(&map, selection, Some(1), true, &layout()),
            "{:?}",
            motion
        );
    }
}

#[test]
fn classification_of_motions() {
    assert!(Motion::Down { display_lines: false }.linewise());
    assert!(Motion::CurrentLine.linewise());
    assert!(Motion::Jump { anchor: Point { row: 0, column: 0 }, line: true }.linewise());
    assert!(!Motion::Jump { anchor: Point { row: 0, column: 0 }, line: false }.linewise());
    assert!(!Motion::NextWordStart { ignore_punctuation: false }.linewise());
    assert!(!Motion::EndOfLine { display_lines: false }.linewise());

    assert!(Motion::StartOfDocument.infallible());
    assert!(Motion::EndOfDocument.infallible());
    assert!(Motion::CurrentLine.infallible());
    assert!(!Motion::Left.infallible());
    assert!(!Motion::Matching.infallible());

    assert!(Motion::NextWordEnd { ignore_punctuation: false }.inclusive());
    assert!(Motion::Matching.inclusive());
    assert!(!Motion::NextWordStart { ignore_punctuation: false }.inclusive());
    assert!(!Motion::Left.inclusive());
    let f = Motion::FindForward { before: false, char: 'a', mode: FindRange::SingleLine, smartcase: false };
    let big_f = Motion::FindBackward { after: false, char: 'a', mode: FindRange::SingleLine, smartcase: false };
    assert!(f.inclusive());
    assert!(!big_f.inclusive());
    assert!(Motion::RepeatFind { last_find: Box::new(f.clone()) }.inclusive());
    assert!(!Motion::RepeatFind { last_find: Box::new(big_f.clone()) }.inclusive());
    assert!(Motion::RepeatFindReversed { last_find: Box::new(f.clone()) }.inclusive());
    assert!(!Motion::RepeatFindReversed { last_find: Box::new(Motion::Left) }.inclusive());
}

#[test]
fn motions_can_be_copied() {
    let prior = PointRange { start: Point { row: 0, column: 4 }, end: Point { row: 0, column: 5 } };
    let motions = vec![
        Motion::Left,
        Motion::UnmatchedForward { char: ')' },
        Motion::Sneak { first_char: 'a', second_char: 'b', smartcase: true },
        Motion::RepeatFindReversed {
            last_find: Box::new(Motion::RepeatFind { last_find: Box::new(Motion::Matching) }),
        },
        Motion::ZedSearchResult { prior_selections: vec![prior], new_selections: vec![prior, prior] },
        Motion::Jump { anchor: Point { row: 3, column: 1 }, line: true },
    ];
    for motion in motions.iter() {
        assert_eq!(&motion.clone(), motion);
    }
}

fn all_motions() -> Vec<Motion> {
    let find = Motion::FindForward { before: true, char: 'e', mode: FindRange::MultiLine, smartcase: true };
    vec![
        Motion::Left,
        Motion::Backspace,
        Motion::Down { display_lines: true },
        Motion::Down { display_lines: false },
        Motion::Up { display_lines: true },
        Motion::Up { display_lines: false },
        Motion::Right,
        Motion::Space,
        Motion::NextWordStart { ignore_punctuation: false },
        Motion::NextWordEnd { ignore_punctuation: false },
        Motion::PreviousWordStart { ignore_punctuation: true },
        Motion::PreviousWordEnd { ignore_punctuation: false },
        Motion::NextSubwordStart { ignore_punctuation: false },
        Motion::NextSubwordEnd { ignore_punctuation: false },
        Motion::PreviousSubwordStart { ignore_punctuation: false },
        Motion::PreviousSubwordEnd { ignore_punctuation: true },
        Motion::FirstNonWhitespace { display_lines: true },
        Motion::CurrentLine,
        Motion::StartOfLine { display_lines: false },
        Motion::EndOfLine { display_lines: true },
        Motion::SentenceBackward,
        Motion::SentenceForward,
        Motion::StartOfParagraph,
        Motion::EndOfParagraph,
        Motion::StartOfDocument,
        Motion::EndOfDocument,
        Motion::Matching,
        Motion::UnmatchedForward { char: ')' },
        Motion::UnmatchedBackward { char: '(' },
        find.clone(),
        Motion::FindBackward { after: true, char: 'o', mode: FindRange::SingleLine, smartcase: false },
        Motion::Sneak { first_char: 't', second_char: 'h', smartcase: false },
        Motion::SneakBackward { first_char: 't', second_char: 'w', smartcase: false },
        Motion::RepeatFind { last_find: Box::new(find.clone()) },
        Motion::RepeatFindReversed { last_find: Box::new(find) },
        Motion::NextLineStart,
        Motion::PreviousLineStart,
        Motion::StartOfLineDownward,
        Motion::EndOfLineDownward,
        Motion::GoToColumn,
        Motion::WindowTop,
        Motion::WindowMiddle,
        Motion::WindowBottom,
        Motion::NextSectionStart,
        Motion::PreviousSectionEnd,
        Motion::NextMethodEnd,
        Motion::PreviousMethodStart,
        Motion::NextComment,
        Motion::PreviousComment,
        Motion::Jump { anchor: Point { row: 1, column: 3 }, line: true },
    ]
}

fn is_place(map: &DisplaySnapshot, p: DisplayPoint) -> bool {
    p.row <= map.max_row()
        && (p.column < map.line_len(p.row) || (p.column == map.line_len(p.row) && map.row_ends_line(p.row)))
}

#[test]
fn motions_land_on_the_display_and_fallible_ones_move() {
    let text = "one (two) three. Four\n\n  five_six sevenEight\n(the) end";
    for clip in [true, false] {
        for width in [None, Some(4), Some(7)] {
            let chars = chars_of(text);
            let pairs = brackets_of(&chars);
            let map = DisplaySnapshot::new(chars, width, clip).with_brackets(pairs);
            for offset in 0..=map.buffer().len() {
                let point = map.clip_point(map.offset_to_display_point(offset), Bias::Left);
                for motion in all_motions().iter() {
                    for times in [None, Some(1), Some(2), Some(5)] {
                        let landed = motion.move_point(&map, point, SelectionGoal::Unset, times, &layout());
                        if let Some((place, _)) = landed {
                            assert!(is_place(&map, place), "{:?} from {:?}", motion, point);
                            assert!(motion.infallible() || place != point, "{:?} from {:?}", motion, point);
                        } else {
                            assert!(!motion.infallible());
                        }
                        let range = motion.range(&map, Selection::cursor(point), times, true, &layout());
                        if let Some(range) = range {
                            assert!(
                                (range.start.row, range.start.column) <= (range.end.row, range.end.column),
                                "{:?} from {:?}",
                                motion,
                                point
                            );
                        }
                    }
                }
            }
        }
    }
}
