use vim_motion::buffer::{Bias, Point};
use vim_motion::display::{DisplayPoint, DisplaySnapshot};
use vim_motion::motion::Motion;
use vim_motion::selection::SelectionGoal;
use vim_motion::syntax::BracketPair;
use vim_motion::window::TextLayoutDetails;
use vim_motion::find::find_backward;
use vim_motion::scan::FindRange;

fn chars_of(text: &str) -> Vec<char> {
    text.chars().collect()
}

/// Splits a text with one `ˇ` in it into the text and the cursor's offset.
fn parse(marked: &str) -> (String, usize) {
    let mut text = String::new();
    let mut cursor = None;
    for c in marked.chars() {
        if c == 'ˇ' {
            cursor = Some(text.chars().count());
        } else {
            text.push(c);
        }
    }
    (text, cursor.expect("the text marks no cursor"))
}

/// Pairs the brackets of a text as a syntax layer would, by nesting.
fn brackets_of(text: &[char]) -> Vec<BracketPair> {
    let mut pairs = Vec::new();
    let mut open: Vec<(char, usize)> = Vec::new();
    for (i, &c) in text.iter().enumerate() {
        match c {
            '(' | '[' | '{' => open.push((c, i)),
            ')' | ']' | '}' => {
                let wanted = match c {
                    ')' => '(',
                    ']' => '[',
                    _ => '{',
                };
                if let Some(&(o, at)) = open.last() {
                    if o == wanted {
                        open.pop();
                        pairs.push(BracketPair {
                            open_start: at,
                            open_end: at + 1,
                            close_start: i,
                            close_end: i + 1,
                        });
                    }
                }
            }
            _ => {}
        }
    }
    pairs.sort_by_key(|pair| pair.open_start);
    pairs
}

/// A snapshot of a marked text as a cursor in normal mode sees it, with the
/// place of the mark.
fn normal_state(marked: &str) -> (DisplaySnapshot, DisplayPoint) {
    let (text, cursor) = parse(marked);
    let chars = chars_of(&text);
    let pairs = brackets_of(&chars);
    let map = DisplaySnapshot::new(chars, None, true).with_brackets(pairs);
    let point = map.offset_to_display_point(cursor);
    (map, point)
}

/// The text of a snapshot with the cursor marked in it.
fn marked(map: &DisplaySnapshot, point: DisplayPoint) -> String {
    let offset = map.display_point_to_offset(point, Bias::Left);
    let mut out = String::new();
    let len = map.buffer().len();
    for i in 0..len {
        if i == offset {
            out.push('ˇ');
        }
        out.push(map.buffer().char_at_offset(i).unwrap());
    }
    if offset >= len {
        out.push('ˇ');
    }
    out
}

fn layout() -> TextLayoutDetails {
    TextLayoutDetails {
        scroll_anchor: Point { row: 0, column: 0 },
        visible_rows: Some(20),
        vertical_scroll_margin: 3,
    }
}

/// Applies a motion as a keystroke in normal mode does: a motion that fails
/// leaves the cursor in its place, and the cursor is clipped to a character.
fn press(map: &DisplaySnapshot, point: DisplayPoint, motion: &Motion, times: Option<usize>) -> DisplayPoint {
    let landed = motion
        .move_point(map, point, SelectionGoal::Unset, times, &layout())
        .map(|(p, _)| p)
        .unwrap_or(point);
    map.clip_point(landed, Bias::Left)
}

/// Presses one motion on a marked text and marks where the cursor lands.
fn after(marked_text: &str, motion: &Motion, times: Option<usize>) -> String {
    let (map, point) = normal_state(marked_text);
    marked(&map, press(&map, point, motion, times))
}


fn find(c: char, before: bool) -> Motion {
    Motion::FindForward { before, char: c, mode: FindRange::SingleLine, smartcase: false }
}

fn find_back(c: char, after: bool) -> Motion {
    Motion::FindBackward { after, char: c, mode: FindRange::SingleLine, smartcase: false }
}

fn again(last: Motion) -> Motion {
    Motion::RepeatFind { last_find: Box::new(last) }
}

fn reversed(last: Motion) -> Motion {
    Motion::RepeatFindReversed { last_find: Box::new(last) }
}

#[test]
fn test_comma_semicolon() {
    // f and F
    let (map, start) = normal_state("ˇone two three four");
    let p = press(&map, start, &find('o', false), None);
    assert_eq!(marked(&map, p), "one twˇo three four");
    let p = press(&map, p, &reversed(find('o', false)), None);
    assert_eq!(marked(&map, p), "ˇone two three four");
    let p = press(&map, p, &again(find('o', false)), Some(2));
    assert_eq!(marked(&map, p), "one two three fˇour");
    let p = press(&map, p, &find_back('e', false), None);
    assert_eq!(marked(&map, p), "one two threˇe four");
    let p = press(&map, p, &again(find_back('e', false)), Some(2));
    assert_eq!(marked(&map, p), "onˇe two three four");
    let p = press(&map, p, &reversed(find_back('e', false)), None);
    assert_eq!(marked(&map, p), "one two thrˇee four");

    // t and T
    let (map, start) = normal_state("ˇone two three four");
    let p = press(&map, start, &find('o', true), None);
    assert_eq!(marked(&map, p), "one tˇwo three four");
    let p = press(&map, p, &reversed(find('o', true)), None);
    assert_eq!(marked(&map, p), "oˇne two three four");
    let p = press(&map, p, &again(find('o', true)), Some(2));
    assert_eq!(marked(&map, p), "one two three ˇfour");
    let p = press(&map, p, &find_back('e', true), None);
    assert_eq!(marked(&map, p), "one two threeˇ four");
    let p = press(&map, p, &again(find_back('e', true)), Some(3));
    assert_eq!(marked(&map, p), "oneˇ two three four");
    let p = press(&map, p, &reversed(find_back('e', true)), None);
    assert_eq!(marked(&map, p), "one two thˇree four");
}

#[test]
fn find_forward_lands_on_next_occurrence() {
    assert_eq!(after("ˇone two three four", &find('o', false), None), "one twˇo three four");
}

#[test]
fn repeat_find_next_to_a_match_goes_to_the_one_behind() {
    // the cursor stands right in front of a match of `t o`
    let (map, start) = normal_state("one tˇwo three four");
    let p = press(&map, start, &again(find('o', true)), None);
    assert_eq!(marked(&map, p), "one two three ˇfour");
    // and right behind a match of `T e`
    let (map, start) = normal_state("one two threeˇ four");
    let p = press(&map, start, &again(find_back('e', true)), None);
    assert_eq!(marked(&map, p), "one two threˇe four");
}

#[test]
fn find_without_target_fails() {
    let (map, point) = normal_state("ˇone two three four");
    assert_eq!(find('z', false).move_point(&map, point, SelectionGoal::Unset, None, &layout()), None);
    assert_eq!(find('o', false).move_point(&map, point, SelectionGoal::Unset, Some(9), &layout()), None);
    assert_eq!(find_back('o', false).move_point(&map, point, SelectionGoal::Unset, None, &layout()), None);
    assert_eq!(
        again(Motion::Left).move_point(&map, point, SelectionGoal::Unset, None, &layout()),
        None
    );
    assert_eq!(
        reversed(Motion::Matching).move_point(&map, point, SelectionGoal::Unset, None, &layout()),
        None
    );
}

#[test]
fn single_line_find_stays_in_its_line() {
    let (map, point) = normal_state("ˇone\ntwo");
    assert_eq!(find('t', false).move_point(&map, point, SelectionGoal::Unset, None, &layout()), None);
    let wide = Motion::FindForward { before: false, char: 't', mode: FindRange::MultiLine, smartcase: false };
    assert_eq!(marked(&map, press(&map, point, &wide, None)), "one\nˇtwo");
}

#[test]
fn smartcase_find_matches_capitals_for_small_targets() {
    let small = Motion::FindForward { before: false, char: 't', mode: FindRange::SingleLine, smartcase: true };
    let capital = Motion::FindForward { before: false, char: 'T', mode: FindRange::SingleLine, smartcase: true };
    let exact = Motion::FindForward { before: false, char: 't', mode: FindRange::SingleLine, smartcase: false };
    assert_eq!(after("ˇone Two three", &small, None), "one ˇTwo three");
    assert_eq!(after("ˇone two Three", &capital, None), "one two ˇThree");
    assert_eq!(after("ˇone Two three", &exact, None), "one Two ˇthree");
}

#[test]
fn sneak_finds_pairs_of_characters() {
    let s = Motion::Sneak { first_char: 't', second_char: 'h', smartcase: false };
    let big_s = Motion::SneakBackward { first_char: 't', second_char: 'w', smartcase: false };
    assert_eq!(after("ˇone two three", &s, None), "one two ˇthree");
    assert_eq!(after("one two thˇree", &big_s, None), "one ˇtwo three");
    let (map, point) = normal_state("ˇone two three");
    let none = Motion::Sneak { first_char: 'x', second_char: 'y', smartcase: false };
    assert_eq!(none.move_point(&map, point, SelectionGoal::Unset, None, &layout()), None);
    let twice = Motion::Sneak { first_char: 't', second_char: 'h', smartcase: false };
    assert_eq!(
        after("ˇthe thin thing", &again(twice), Some(2)),
        "the thin ˇthing"
    );
}

#[test]
fn searches_work_across_wrapped_rows() {
    let (text, cursor) = parse("ˇone two three four");
    let map = DisplaySnapshot::new(chars_of(&text), Some(4), true);
    let start = map.offset_to_display_point(cursor);
    assert_eq!(start, DisplayPoint { row: 0, column: 0 });
    let till = find('o', true);
    let first = press(&map, start, &till, None);
    assert_eq!(marked(&map, first), "one tˇwo three four");
    assert_eq!(first, DisplayPoint { row: 1, column: 1 });
    // the cursor stands next to the match: the search goes on to the next one
    let second = press(&map, first, &again(till.clone()), None);
    assert_eq!(marked(&map, second), "one two three ˇfour");
    assert_eq!(second, DisplayPoint { row: 3, column: 2 });
    // and there is none behind that
    assert_eq!(
        again(till).move_point(&map, second, SelectionGoal::Unset, None, &layout()),
        None
    );
}

#[test]
fn repeated_sneak_never_stays() {
    let pair = Motion::Sneak { first_char: 't', second_char: 'h', smartcase: false };
    let (map, start) = normal_state("ˇthe thin thing");
    // the cursor stands on a match: the search goes to the next one
    let first = press(&map, start, &again(pair.clone()), None);
    assert_eq!(marked(&map, first), "the ˇthin thing");
    let second = press(&map, first, &again(pair.clone()), None);
    assert_eq!(marked(&map, second), "the thin ˇthing");
    assert_eq!(
        again(pair.clone()).move_point(&map, second, SelectionGoal::Unset, None, &layout()),
        None
    );
    let back = press(&map, second, &reversed(pair.clone()), None);
    assert_eq!(marked(&map, back), "the ˇthin thing");
    // a count that asks for more matches than there are fails
    assert_eq!(
        reversed(pair.clone()).move_point(&map, back, SelectionGoal::Unset, Some(3), &layout()),
        None
    );
    let home = press(&map, back, &reversed(pair.clone()), None);
    assert_eq!(marked(&map, home), "ˇthe thin thing");
    assert_eq!(
        reversed(pair).move_point(&map, home, SelectionGoal::Unset, None, &layout()),
        None
    );
}

#[test]
fn search_that_lands_on_the_cursor_fails() {
    // the cursor stands right in front of the target of `t b`
    let (map, point) = normal_state("ˇab");
    assert_eq!(find('b', true).move_point(&map, point, SelectionGoal::Unset, None, &layout()), None);
    assert_eq!(
        marked(&map, find('b', false).move_point(&map, point, SelectionGoal::Unset, None, &layout()).unwrap().0),
        "aˇb"
    );
    // and right behind the target of `T b`
    let (map, point) = normal_state("bˇa");
    assert_eq!(find_back('b', true).move_point(&map, point, SelectionGoal::Unset, None, &layout()), None);
}

#[test]
fn search_backward_never_goes_forward() {
    let map = DisplaySnapshot::new(chars_of("ba"), None, true);
    let origin = DisplayPoint { row: 0, column: 0 };
    // nothing lies in front of the cursor, though the cursor stands on the target
    for after in [true, false] {
        for mode in [FindRange::SingleLine, FindRange::MultiLine] {
            assert_eq!(find_backward(&map, origin, after, 'b', 1, mode, false), origin);
            let motion = Motion::FindBackward { after, char: 'b', mode, smartcase: false };
            assert_eq!(motion.move_point(&map, origin, SelectionGoal::Unset, None, &layout()), None);
        }
    }
    // a target at the start of the text is found from behind it
    let (map, point) = normal_state("bar bˇaz");
    assert_eq!(marked(&map, find_backward(&map, point, false, 'b', 2, FindRange::SingleLine, false)), "ˇbar baz");
    assert_eq!(marked(&map, find_backward(&map, point, true, 'b', 2, FindRange::SingleLine, false)), "bˇar baz");
    // no target in front of the cursor
    let (map, point) = normal_state("one twˇo three four");
    assert_eq!(find_backward(&map, point, false, 'z', 1, FindRange::SingleLine, false), point);
    assert_eq!(find_back('z', false).move_point(&map, point, SelectionGoal::Unset, None, &layout()), None);
}

#[test]
fn search_with_a_count_passes_over_the_matches_before() {
    let text = "ˇa cab, a crab and a cabal";
    let (map, start) = normal_state(text);
    let plain: String = text.chars().filter(|c| *c != 'ˇ').collect();
    let matches: Vec<usize> =
        plain.char_indices().skip(1).filter(|(_, c)| *c == 'a').map(|(i, _)| i).collect();
    for (n, at) in matches.iter().enumerate() {
        let landed = find('a', false)
            .move_point(&map, start, SelectionGoal::Unset, Some(n + 1), &layout())
            .unwrap()
            .0;
        assert_eq!(map.display_point_to_offset(landed, Bias::Left), *at);
    }
    assert_eq!(
        find('a', false).move_point(&map, start, SelectionGoal::Unset, Some(matches.len() + 1), &layout()),
        None
    );
}
