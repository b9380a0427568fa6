use vim_motion::buffer::{Bias, Point};
use vim_motion::display::{DisplayPoint, DisplaySnapshot};
use vim_motion::motion::Motion;
use vim_motion::selection::SelectionGoal;
use vim_motion::syntax::BracketPair;
use vim_motion::window::TextLayoutDetails;
use vim_motion::actions::{StartOfLine, UnmatchedForward};
use vim_motion::scan::{scan_backward, scan_forward, Boundary, FindRange, Stop};
use vim_motion::structure::{comment_motion, method_motion, section_motion, Direction};
use vim_motion::syntax::{Excerpt, ObjectRange, TextObject};

fn chars_of(text: &str) -> Vec<char> {
    text.chars().collect()
}

/// Splits a text with one `ˇ` in it into the text and the cursor's offset.
fn parse(marked: &str) -> (String, usize) {
    let mut text = String::new();
    let mut cursor = None;
    for c in marked.chars() {
        if c == 'ˇ' {
            cursor = Some(text.chars().count());
        } else {
            text.push(c);
        }
    }
    (text, cursor.expect("the text marks no cursor"))
}

/// Pairs the brackets of a text as a syntax layer would, by nesting.
fn brackets_of(text: &[char]) -> Vec<BracketPair> {
    let mut pairs = Vec::new();
    let mut open: Vec<(char, usize)> = Vec::new();
    for (i, &c) in text.iter().enumerate() {
        match c {
            '(' | '[' | '{' => open.push((c, i)),
            ')' | ']' | '}' => {
                let wanted = match c {
                    ')' => '(',
                    ']' => '[',
                    _ => '{',
                };
                if let Some(&(o, at)) = open.last() {
                    if o == wanted {
                        open.pop();
                        pairs.push(BracketPair {
                            open_start: at,
                            open_end: at + 1,
                            close_start: i,
                            close_end: i + 1,
                        });
                    }
                }
            }
            _ => {}
        }
    }
    pairs.sort_by_key(|pair| pair.open_start);
    pairs
}

/// A snapshot of a marked text as a cursor in normal mode sees it, with the
/// place of the mark.
fn normal_state(marked: &str) -> (DisplaySnapshot, DisplayPoint) {
    let (text, cursor) = parse(marked);
    let chars = chars_of(&text);
    let pairs = brackets_of(&chars);
    let map = DisplaySnapshot::new(chars, None, true).with_brackets(pairs);
    let point = map.offset_to_display_point(cursor);
    (map, point)
}

/// The text of a snapshot with the cursor marked in it.
fn marked(map: &DisplaySnapshot, point: DisplayPoint) -> String {
    let offset = map.display_point_to_offset(point, Bias::Left);
    let mut out = String::new();
    let len = map.buffer().len();
    for i in 0..len {
        if i == offset {
            out.push('ˇ');
        }
        out.push(map.buffer().char_at_offset(i).unwrap());
    }
    if offset >= len {
        out.push('ˇ');
    }
    out
}

fn layout() -> TextLayoutDetails {
    TextLayoutDetails {
        scroll_anchor: Point { row: 0, column: 0 },
        visible_rows: Some(20),
        vertical_scroll_margin: 3,
    }
}

/// Applies a motion as a keystroke in normal mode does: a motion that fails
/// leaves the cursor in its place, and the cursor is clipped to a character.
fn press(map: &DisplaySnapshot, point: DisplayPoint, motion: &Motion, times: Option<usize>) -> DisplayPoint {
    let landed = motion
        .move_point(map, point, SelectionGoal::Unset, times, &layout())
        .map(|(p, _)| p)
        .unwrap_or(point);
    map.clip_point(landed, Bias::Left)
}

/// Presses one motion on a marked text and marks where the cursor lands.
fn after(marked_text: &str, motion: &Motion, times: Option<usize>) -> String {
    let (map, point) = normal_state(marked_text);
    marked(&map, press(&map, point, motion, times))
}


fn dp(row: usize, column: usize) -> DisplayPoint {
    DisplayPoint { row, column }
}

#[test]
fn document_motions_keep_the_column() {
    assert_eq!(after("one\ntwo\nthrˇee", &Motion::StartOfDocument, None), "onˇe\ntwo\nthree");
    assert_eq!(after("one tˇwo\nthree\nsix", &Motion::EndOfDocument, None), "one two\nthree\nsiˇx");
    assert_eq!(after("ˇone\ntwo\nthree", &Motion::EndOfDocument, None), "one\ntwo\nˇthree");
}

#[test]
fn document_motions_with_a_count_go_to_that_line() {
    assert_eq!(after("one\ntwo\nthrˇee", &Motion::StartOfDocument, Some(2)), "one\ntwˇo\nthree");
    assert_eq!(after("oˇne\ntwo\nthree", &Motion::EndOfDocument, Some(2)), "one\ntˇwo\nthree");
    assert_eq!(after("oˇne\ntwo\nthree", &Motion::EndOfDocument, Some(1)), "oˇne\ntwo\nthree");
    // a line that the text does not have is the last line
    assert_eq!(after("oˇne\ntwo\nthree", &Motion::EndOfDocument, Some(70)), "one\ntwo\ntˇhree");
}

#[test]
fn document_motions_succeed_where_they_stand() {
    let (map, point) = normal_state("ˇone\ntwo");
    assert_eq!(
        Motion::StartOfDocument.move_point(&map, point, SelectionGoal::Unset, None, &layout()),
        Some((point, SelectionGoal::Unset))
    );
    let (map, point) = normal_state("one\nˇtwo");
    assert_eq!(
        Motion::EndOfDocument.move_point(&map, point, SelectionGoal::Unset, None, &layout()),
        Some((point, SelectionGoal::Unset))
    );
}

/// Two excerpts: lines 10 to 12 of one source, then lines 40 and 41 of
/// another.
fn composed() -> DisplaySnapshot {
    DisplaySnapshot::new(chars_of("ten\neleven\ntwelve\nforty\nforty-one"), None, true).with_excerpts(vec![
        Excerpt { start_row: 0, end_row: 2, source_row: 9 },
        Excerpt { start_row: 3, end_row: 4, source_row: 39 },
    ])
}

#[test]
fn go_to_line_counts_lines_of_the_source() {
    let map = composed();
    let go = |from: DisplayPoint, line: usize| {
        Motion::StartOfDocument
            .move_point(&map, from, SelectionGoal::Unset, Some(line), &layout())
            .unwrap()
            .0
    };
    // inside the cursor's own excerpt
    assert_eq!(go(dp(0, 1), 12), dp(2, 1));
    assert_eq!(go(dp(4, 2), 40), dp(3, 2));
    // in another excerpt
    assert_eq!(go(dp(0, 1), 41), dp(4, 1));
    assert_eq!(go(dp(4, 2), 11), dp(1, 2));
    // in front of every excerpt: the start of the first one behind the line
    assert_eq!(go(dp(1, 2), 3), dp(0, 0));
    assert_eq!(go(dp(1, 2), 20), dp(3, 0));
    // behind every excerpt: the last line
    assert_eq!(go(dp(1, 2), 90), dp(4, 2));
}

fn object(start: usize, end: usize, kind: TextObject, depth: usize) -> ObjectRange {
    ObjectRange { start, end, kind, depth }
}

const CODE: &str = "// note\nfn a() {}\nimpl B {\n    fn c() {}\n}\nfn d() {}\n";

fn code() -> DisplaySnapshot {
    let at = |what: &str| CODE.find(what).unwrap();
    let objects = vec![
        object(0, 7, TextObject::AroundComment, 1),
        object(at("fn a"), at("fn a") + 9, TextObject::AroundFunction, 1),
        object(at("impl"), at("fn d") - 1, TextObject::AroundClass, 1),
        object(at("fn c"), at("fn c") + 9, TextObject::AroundFunction, 3),
        object(at("fn d"), at("fn d") + 9, TextObject::AroundFunction, 1),
    ];
    assert_eq!(CODE.len(), CODE.chars().count());
    DisplaySnapshot::new(chars_of(CODE), None, true).with_objects(objects)
}

#[test]
fn method_motion_goes_from_function_to_function() {
    let map = code();
    assert_eq!(method_motion(&map, dp(0, 0), 1, Direction::Next, true), dp(1, 0));
    assert_eq!(method_motion(&map, dp(1, 0), 1, Direction::Next, true), dp(3, 4));
    assert_eq!(method_motion(&map, dp(1, 0), 2, Direction::Next, true), dp(5, 0));
    assert_eq!(method_motion(&map, dp(1, 0), 9, Direction::Next, true), dp(5, 0));
    assert_eq!(method_motion(&map, dp(1, 0), 1, Direction::Next, false), dp(1, 8));
    assert_eq!(method_motion(&map, dp(5, 3), 1, Direction::Prev, true), dp(5, 0));
    assert_eq!(method_motion(&map, dp(5, 0), 1, Direction::Prev, true), dp(3, 4));
    assert_eq!(method_motion(&map, dp(5, 0), 1, Direction::Prev, false), dp(3, 12));
    // nothing in front of the first function
    assert_eq!(method_motion(&map, dp(1, 0), 1, Direction::Prev, true), dp(1, 0));
    assert_eq!(
        Motion::PreviousMethodStart.move_point(&map, dp(1, 0), SelectionGoal::Unset, None, &layout()),
        None
    );
    assert_eq!(
        Motion::NextMethodStart.move_point(&map, dp(0, 0), SelectionGoal::Unset, None, &layout()),
        Some((dp(1, 0), SelectionGoal::Unset))
    );
}

#[test]
fn section_motion_passes_over_nested_functions() {
    let map = code();
    assert_eq!(section_motion(&map, dp(0, 0), 1, Direction::Next, true), dp(1, 0));
    assert_eq!(section_motion(&map, dp(1, 0), 1, Direction::Next, true), dp(2, 0));
    // the function inside the class is no section
    assert_eq!(section_motion(&map, dp(2, 0), 1, Direction::Next, true), dp(5, 0));
    assert_eq!(section_motion(&map, dp(5, 0), 1, Direction::Prev, true), dp(2, 0));
    assert_eq!(section_motion(&map, dp(5, 0), 2, Direction::Prev, true), dp(1, 0));
    // with no section left the motion stays where it is
    assert_eq!(section_motion(&map, dp(1, 0), 1, Direction::Prev, true), dp(1, 0));
    assert_eq!(section_motion(&map, dp(5, 0), 1, Direction::Next, true), dp(5, 0));
    assert_eq!(section_motion(&map, dp(5, 0), 9, Direction::Prev, true), dp(1, 0));
    assert_eq!(
        Motion::NextSectionStart.move_point(&map, dp(5, 0), SelectionGoal::Unset, None, &layout()),
        None
    );
}

#[test]
fn section_motion_without_sections_is_a_no_op() {
    let map = DisplaySnapshot::new(chars_of("ab"), None, false);
    assert_eq!(map.buffer().objects().len(), 0);
    assert_eq!(map.buffer().brackets().len(), 0);
    assert_eq!(map.buffer().tags().len(), 0);
    assert_eq!(map.buffer().excerpts().len(), 0);
    for is_start in [true, false] {
        assert_eq!(section_motion(&map, dp(0, 1), 1, Direction::Prev, is_start), dp(0, 1));
        assert_eq!(section_motion(&map, dp(0, 1), 1, Direction::Next, is_start), dp(0, 1));
        assert_eq!(section_motion(&map, dp(0, 0), 3, Direction::Next, is_start), dp(0, 0));
    }
    assert_eq!(
        Motion::PreviousSectionStart.move_point(&map, dp(0, 1), SelectionGoal::Unset, None, &layout()),
        None
    );
}

#[test]
fn comment_motion_finds_comments() {
    let map = code();
    assert_eq!(comment_motion(&map, dp(3, 0), 1, Direction::Prev), dp(0, 0));
    assert_eq!(comment_motion(&map, dp(0, 0), 1, Direction::Next), dp(0, 6));
    assert_eq!(comment_motion(&map, dp(3, 0), 1, Direction::Next), dp(3, 0));
}

#[test]
fn objects_out_of_order_are_refused() {
    let map = DisplaySnapshot::new(chars_of(CODE), None, true).with_objects(vec![
        object(20, 30, TextObject::AroundFunction, 1),
        object(8, 17, TextObject::AroundFunction, 1),
    ]);
    assert_eq!(map.buffer().objects().len(), 0);
    assert_eq!(method_motion(&map, dp(0, 0), 1, Direction::Next, true), dp(0, 0));
}

#[test]
fn in_a_composed_text_excerpts_are_the_sections() {
    let map = composed();
    // the start of the next excerpt is entered at the column where this one ends
    assert_eq!(section_motion(&map, dp(1, 2), 1, Direction::Next, true), dp(3, 4));
    assert_eq!(section_motion(&map, dp(1, 2), 1, Direction::Next, false), dp(2, 0));
    assert_eq!(section_motion(&map, dp(2, 0), 1, Direction::Next, false), dp(4, 0));
    assert_eq!(section_motion(&map, dp(4, 2), 1, Direction::Prev, true), dp(3, 0));
    assert_eq!(section_motion(&map, dp(3, 0), 1, Direction::Prev, true), dp(0, 0));
    assert_eq!(section_motion(&map, dp(4, 2), 1, Direction::Prev, false), dp(2, 0));
    // methods and comments are not looked for in a composed text
    assert_eq!(method_motion(&map, dp(1, 2), 1, Direction::Next, true), dp(1, 2));
    assert_eq!(comment_motion(&map, dp(1, 2), 1, Direction::Prev), dp(1, 2));
}

#[test]
fn jump_goes_to_the_remembered_place() {
    let (map, point) = normal_state("ˇone\n  two three");
    let there = Motion::Jump { anchor: Point { row: 1, column: 7 }, line: false };
    assert_eq!(marked(&map, press(&map, point, &there, None)), "one\n  two tˇhree");
    let its_line = Motion::Jump { anchor: Point { row: 1, column: 7 }, line: true };
    assert_eq!(marked(&map, press(&map, point, &its_line, None)), "one\n  ˇtwo three");
}

#[test]
fn commands_name_their_motions() {
    assert_eq!(
        StartOfLine { display_lines: true }.motion(),
        Motion::StartOfLine { display_lines: true }
    );
    assert_eq!(UnmatchedForward { char: ']' }.motion(), Motion::UnmatchedForward { char: ']' });
}

#[test]
fn scanner_stops_at_the_first_boundary() {
    let map = DisplaySnapshot::new(chars_of("one two\nthree"), None, false);
    let buffer = map.buffer();
    let word = Boundary::WordStart { ignore_punctuation: false };
    assert_eq!(scan_forward(buffer, 0, FindRange::MultiLine, word), Stop { offset: 4, fired: true });
    assert_eq!(scan_forward(buffer, 4, FindRange::MultiLine, word), Stop { offset: 8, fired: true });
    assert_eq!(scan_forward(buffer, 4, FindRange::SingleLine, word), Stop { offset: 7, fired: false });
    assert_eq!(scan_forward(buffer, 8, FindRange::MultiLine, word), Stop { offset: 13, fired: false });
    assert_eq!(scan_forward(buffer, 13, FindRange::MultiLine, word), Stop { offset: 13, fired: false });
    let back = Boundary::WordStartBackward { ignore_punctuation: false };
    assert_eq!(scan_backward(buffer, 13, FindRange::MultiLine, back), Stop { offset: 8, fired: true });
    assert_eq!(scan_backward(buffer, 6, FindRange::MultiLine, back), Stop { offset: 4, fired: true });
    assert_eq!(scan_backward(buffer, 3, FindRange::MultiLine, back), Stop { offset: 0, fired: false });
    assert_eq!(scan_backward(buffer, 10, FindRange::SingleLine, Boundary::Character { target: 'q', smartcase: false }), Stop { offset: 8, fired: false });
    let pair = Boundary::CharacterPair { first: 't', second: 'h', smartcase: false };
    assert_eq!(scan_forward(buffer, 0, FindRange::MultiLine, pair), Stop { offset: 9, fired: true });
}

#[test]
fn structural_motions_go_the_way_they_are_asked() {
    let map = code();
    let len = map.buffer().len();
    for offset in 0..=len {
        let point = map.clip_point(map.offset_to_display_point(offset), Bias::Left);
        let here = map.display_point_to_offset(point, Bias::Left);
        for times in 1..4 {
            for is_start in [true, false] {
                let back = section_motion(&map, point, times, Direction::Prev, is_start);
                assert!(map.display_point_to_offset(back, Bias::Left) <= here);
                let on = section_motion(&map, point, times, Direction::Next, is_start);
                assert!(map.display_point_to_offset(on, Bias::Left) >= here);
                let back = method_motion(&map, point, times, Direction::Prev, is_start);
                assert!(map.display_point_to_offset(back, Bias::Left) <= here);
                let on = method_motion(&map, point, times, Direction::Next, is_start);
                assert!(map.display_point_to_offset(on, Bias::Left) >= here);
            }
            let back = comment_motion(&map, point, times, Direction::Prev);
            assert!(map.display_point_to_offset(back, Bias::Left) <= here);
            let on = comment_motion(&map, point, times, Direction::Next);
            assert!(map.display_point_to_offset(on, Bias::Left) >= here);
        }
    }
}
