use vim_motion::buffer::{Bias, Point};
use vim_motion::display::{DisplayPoint, DisplaySnapshot};
use vim_motion::motion::Motion;
use vim_motion::selection::SelectionGoal;
use vim_motion::syntax::BracketPair;
use vim_motion::window::TextLayoutDetails;
use vim_motion::chars::{CharClassifier, CharKind};

fn chars_of(text: &str) -> Vec<char> {
    text.chars().collect()
}

/// Splits a text with one `ˇ` in it into the text and the cursor's offset.
fn parse(marked: &str) -> (String, usize) {
    let mut text = String::new();
    let mut cursor = None;
    for c in marked.chars() {
        if c == 'ˇ' {
            cursor = Some(text.chars().count());
        } else {
            text.push(c);
        }
    }
    (text, cursor.expect("the text marks no cursor"))
}

/// Pairs the brackets of a text as a syntax layer would, by nesting.
fn brackets_of(text: &[char]) -> Vec<BracketPair> {
    let mut pairs = Vec::new();
    let mut open: Vec<(char, usize)> = Vec::new();
    for (i, &c) in text.iter().enumerate() {
        match c {
            '(' | '[' | '{' => open.push((c, i)),
            ')' | ']' | '}' => {
                let wanted = match c {
                    ')' => '(',
                    ']' => '[',
                    _ => '{',
                };
                if let Some(&(o, at)) = open.last() {
                    if o == wanted {
                        open.pop();
                        pairs.push(BracketPair {
                            open_start: at,
                            open_end: at + 1,
                            close_start: i,
                            close_end: i + 1,
                        });
                    }
                }
            }
            _ => {}
        }
    }
    pairs.sort_by_key(|pair| pair.open_start);
    pairs
}

/// A snapshot of a marked text as a cursor in normal mode sees it, with the
/// place of the mark.
fn normal_state(marked: &str) -> (DisplaySnapshot, DisplayPoint) {
    let (text, cursor) = parse(marked);
    let chars = chars_of(&text);
    let pairs = brackets_of(&chars);
    let map = DisplaySnapshot::new(chars, None, true).with_brackets(pairs);
    let point = map.offset_to_display_point(cursor);
    (map, point)
}

/// The text of a snapshot with the cursor marked in it.
fn marked(map: &DisplaySnapshot, point: DisplayPoint) -> String {
    let offset = map.display_point_to_offset(point, Bias::Left);
    let mut out = String::new();
    let len = map.buffer().len();
    for i in 0..len {
        if i == offset {
            out.push('ˇ');
        }
        out.push(map.buffer().char_at_offset(i).unwrap());
    }
    if offset >= len {
        out.push('ˇ');
    }
    out
}

fn layout() -> TextLayoutDetails {
    TextLayoutDetails {
        scroll_anchor: Point { row: 0, column: 0 },
        visible_rows: Some(20),
        vertical_scroll_margin: 3,
    }
}

/// Applies a motion as a keystroke in normal mode does: a motion that fails
/// leaves the cursor in its place, and the cursor is clipped to a character.
fn press(map: &DisplaySnapshot, point: DisplayPoint, motion: &Motion, times: Option<usize>) -> DisplayPoint {
    let landed = motion
        .move_point(map, point, SelectionGoal::Unset, times, &layout())
        .map(|(p, _)| p)
        .unwrap_or(point);
    map.clip_point(landed, Bias::Left)
}

/// Presses one motion on a marked text and marks where the cursor lands.
fn after(marked_text: &str, motion: &Motion, times: Option<usize>) -> String {
    let (map, point) = normal_state(marked_text);
    marked(&map, press(&map, point, motion, times))
}


#[test]
fn test_previous_word_end() {
    let ge = Motion::PreviousWordEnd { ignore_punctuation: false };
    let g_shift_e = Motion::PreviousWordEnd { ignore_punctuation: true };
    assert_eq!(after("456 5ˇ67 678\n", &ge, None), "45ˇ6 567 678\n");

    // Test times
    assert_eq!(
        after("123 234 345\n456 5ˇ67 678\n", &ge, Some(4)),
        "12ˇ3 234 345\n456 567 678\n"
    );

    // With punctuation
    assert_eq!(
        after("123 234 345\n4;5.6 5ˇ67 678\n789 890 901\n", &ge, None),
        "123 234 345\n4;5.ˇ6 567 678\n789 890 901\n"
    );

    // With punctuation and count
    assert_eq!(
        after("123 234 345\n4;5.6 5ˇ67 678\n789 890 901\n", &ge, Some(5)),
        "123 234 345\nˇ4;5.6 567 678\n789 890 901\n"
    );

    // newlines
    let (map, start) = normal_state("123 234 345\n\n78ˇ9 890 901\n");
    let first = press(&map, start, &ge, None);
    assert_eq!(marked(&map, first), "123 234 345\nˇ\n789 890 901\n");
    let second = press(&map, first, &ge, None);
    assert_eq!(marked(&map, second), "123 234 34ˇ5\n\n789 890 901\n");

    // With punctuation
    assert_eq!(
        after("123 234 345\n4;5.ˇ6 567 678\n789 890 901\n", &g_shift_e, None),
        "123 234 34ˇ5\n4;5.6 567 678\n789 890 901\n"
    );
}

#[test]
fn classifier_sorts_characters() {
    let plain = CharClassifier::new();
    assert_eq!(plain.kind('a'), CharKind::Word);
    assert_eq!(plain.kind('7'), CharKind::Word);
    assert_eq!(plain.kind('_'), CharKind::Word);
    assert_eq!(plain.kind('é'), CharKind::Word);
    assert_eq!(plain.kind(' '), CharKind::Whitespace);
    assert_eq!(plain.kind('\t'), CharKind::Whitespace);
    assert_eq!(plain.kind('\n'), CharKind::Whitespace);
    assert_eq!(plain.kind('\u{a0}'), CharKind::Whitespace);
    assert_eq!(plain.kind(';'), CharKind::Punctuation);
    assert_eq!(plain.kind('-'), CharKind::Punctuation);

    let wide = plain.ignore_punctuation(true);
    assert_eq!(wide.kind(';'), CharKind::Word);
    assert_eq!(wide.kind(' '), CharKind::Whitespace);
    assert_eq!(wide.kind('\n'), CharKind::Whitespace);
    assert_eq!(wide.kind('a'), CharKind::Word);
}

#[test]
fn next_word_start_steps_over_words_and_punctuation() {
    let w = Motion::NextWordStart { ignore_punctuation: false };
    let big_w = Motion::NextWordStart { ignore_punctuation: true };
    assert_eq!(after("ˇone two", &w, None), "one ˇtwo");
    assert_eq!(after("ˇone.two three", &w, None), "oneˇ.two three");
    assert_eq!(after("ˇone.two three", &big_w, None), "one.two ˇthree");
    assert_eq!(after("ˇone two three four", &w, Some(3)), "one two three ˇfour");
}

#[test]
fn next_word_start_stops_on_each_empty_line() {
    let w = Motion::NextWordStart { ignore_punctuation: false };
    let (map, start) = normal_state("onˇe\n\n\ntwo");
    let first = press(&map, start, &w, None);
    assert_eq!(marked(&map, first), "one\nˇ\n\ntwo");
    let second = press(&map, first, &w, None);
    assert_eq!(marked(&map, second), "one\n\nˇ\ntwo");
    let third = press(&map, second, &w, None);
    assert_eq!(marked(&map, third), "one\n\n\nˇtwo");
}

#[test]
fn next_word_start_crosses_a_line_end() {
    let w = Motion::NextWordStart { ignore_punctuation: false };
    assert_eq!(after("one twˇo\n  three", &w, None), "one two\n  ˇthree");
}

#[test]
fn next_word_end_lands_on_last_character() {
    let e = Motion::NextWordEnd { ignore_punctuation: false };
    let big_e = Motion::NextWordEnd { ignore_punctuation: true };
    assert_eq!(after("ˇone two", &e, None), "onˇe two");
    assert_eq!(after("onˇe two", &e, None), "one twˇo");
    assert_eq!(after("ˇone.two three", &e, Some(2)), "oneˇ.two three");
    assert_eq!(after("ˇone.two three", &big_e, None), "one.twˇo three");
    assert_eq!(after("onˇe\ntwo", &e, None), "one\ntwˇo");
}

#[test]
fn previous_word_start_steps_back() {
    let b = Motion::PreviousWordStart { ignore_punctuation: false };
    let big_b = Motion::PreviousWordStart { ignore_punctuation: true };
    assert_eq!(after("one twˇo", &b, None), "one ˇtwo");
    assert_eq!(after("one ˇtwo", &b, None), "ˇone two");
    assert_eq!(after("one.twˇo", &b, Some(2)), "oneˇ.two");
    assert_eq!(after("one.twˇo", &big_b, None), "ˇone.two");
    assert_eq!(after("one\nˇtwo", &b, None), "ˇone\ntwo");
}

#[test]
fn subword_motions_see_camel_and_snake_case() {
    let start = Motion::NextSubwordStart { ignore_punctuation: false };
    let end = Motion::NextSubwordEnd { ignore_punctuation: false };
    let back = Motion::PreviousSubwordStart { ignore_punctuation: false };
    let back_end = Motion::PreviousSubwordEnd { ignore_punctuation: false };
    assert_eq!(after("ˇcamelCaseWord next", &start, None), "camelˇCaseWord next");
    assert_eq!(after("ˇcamelCaseWord next", &start, Some(2)), "camelCaseˇWord next");
    assert_eq!(after("ˇsnake_case_word next", &start, None), "snake_ˇcase_word next");
    assert_eq!(after("ˇcamelCaseWord next", &end, None), "cameˇlCaseWord next");
    assert_eq!(after("ˇsnake_case_word next", &end, None), "snakˇe_case_word next");
    assert_eq!(after("camelCaseWoˇrd", &back, None), "camelCaseˇWord");
    assert_eq!(after("snake_case_woˇrd", &back, None), "snake_case_ˇword");
    assert_eq!(after("camelCaseWoˇrd", &back_end, None), "camelCasˇeWord");
}

#[test]
fn word_motion_that_cannot_move_fails() {
    let (map, point) = normal_state("one twˇo");
    let w = Motion::NextWordEnd { ignore_punctuation: false };
    assert_eq!(w.move_point(&map, point, SelectionGoal::Unset, None, &layout()), None);
    let (map, point) = normal_state("ˇone two");
    let b = Motion::PreviousWordStart { ignore_punctuation: false };
    assert_eq!(b.move_point(&map, point, SelectionGoal::Unset, None, &layout()), None);
}

#[test]
fn word_motions_do_not_undo_each_other() {
    let w = Motion::NextWordStart { ignore_punctuation: false };
    let b = Motion::PreviousWordStart { ignore_punctuation: false };
    let (map, start) = normal_state("onˇe two");
    let there = press(&map, start, &w, None);
    assert_eq!(marked(&map, there), "one ˇtwo");
    let back = press(&map, there, &b, None);
    assert_eq!(marked(&map, back), "ˇone two");
    assert_ne!(back, start);
}

#[test]
fn counts_add_up() {
    let w = Motion::NextWordStart { ignore_punctuation: false };
    let (map, start) = normal_state("ˇone two, three\n\nfour five");
    for m in 1..5 {
        for n in 1..5 {
            let whole = press(&map, start, &w, Some(m + n));
            let first = press(&map, start, &w, Some(m));
            let both = press(&map, first, &w, Some(n));
            assert_eq!(whole, both, "{} and {}", m, n);
        }
    }
}
