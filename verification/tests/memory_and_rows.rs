use vim_motion::buffer::{Bias, Point};
use vim_motion::display::{DisplayPoint, DisplaySnapshot};
use vim_motion::motion::Motion;
use vim_motion::selection::SelectionGoal;
use vim_motion::syntax::BracketPair;
use vim_motion::window::TextLayoutDetails;
use vim_motion::actions::{register, Command, Down, NextSubwordEnd, UnmatchedBackward};
use vim_motion::memory::{FindMemory, Search};
use vim_motion::session::{plan_motion, plan_search, Mode, MotionPlan, Pending, Route, SearchPlan};
use vim_motion::scan::FindRange;
use vim_motion::syntax::{Excerpt, ObjectRange, TextObject};
use vim_motion::vertical::{relative_row, start_of_relative_buffer_row};
use vim_motion::word::{next_subword_end, next_word_end};

fn chars_of(text: &str) -> Vec<char> {
    text.chars().collect()
}

/// Splits a text with one `ˇ` in it into the text and the cursor's offset.
fn parse(marked: &str) -> (String, usize) {
    let mut text = String::new();
    let mut cursor = None;
    for c in marked.chars() {
        if c == 'ˇ' {
            cursor = Some(text.chars().count());
        } else {
            text.push(c);
        }
    }
    (text, cursor.expect("the text marks no cursor"))
}

/// Pairs the brackets of a text as a syntax layer would, by nesting.
fn brackets_of(text: &[char]) -> Vec<BracketPair> {
    let mut pairs = Vec::new();
    let mut open: Vec<(char, usize)> = Vec::new();
    for (i, &c) in text.iter().enumerate() {
        match c {
            '(' | '[' | '{' => open.push((c, i)),
            ')' | ']' | '}' => {
                let wanted = match c {
                    ')' => '(',
                    ']' => '[',
                    _ => '{',
                };
                if let Some(&(o, at)) = open.last() {
                    if o == wanted {
                        open.pop();
                        pairs.push(BracketPair {
                            open_start: at,
                            open_end: at + 1,
                            close_start: i,
                            close_end: i + 1,
                        });
                    }
                }
            }
            _ => {}
        }
    }
    pairs.sort_by_key(|pair| pair.open_start);
    pairs
}

/// A snapshot of a marked text as a cursor in normal mode sees it, with the
/// place of the mark.
fn normal_state(marked: &str) -> (DisplaySnapshot, DisplayPoint) {
    let (text, cursor) = parse(marked);
    let chars = chars_of(&text);
    let pairs = brackets_of(&chars);
    let map = DisplaySnapshot::new(chars, None, true).with_brackets(pairs);
    let point = map.offset_to_display_point(cursor);
    (map, point)
}

/// The text of a snapshot with the cursor marked in it.
fn marked(map: &DisplaySnapshot, point: DisplayPoint) -> String {
    let offset = map.display_point_to_offset(point, Bias::Left);
    let mut out = String::new();
    let len = map.buffer().len();
    for i in 0..len {
        if i == offset {
            out.push('ˇ');
        }
        out.push(map.buffer().char_at_offset(i).unwrap());
    }
    if offset >= len {
        out.push('ˇ');
    }
    out
}

fn layout() -> TextLayoutDetails {
    TextLayoutDetails {
        scroll_anchor: Point { row: 0, column: 0 },
        visible_rows: Some(20),
        vertical_scroll_margin: 3,
    }
}

/// Applies a motion as a keystroke in normal mode does: a motion that fails
/// leaves the cursor in its place, and the cursor is clipped to a character.
fn press(map: &DisplaySnapshot, point: DisplayPoint, motion: &Motion, times: Option<usize>) -> DisplayPoint {
    let landed = motion
        .move_point(map, point, SelectionGoal::Unset, times, &layout())
        .map(|(p, _)| p)
        .unwrap_or(point);
    map.clip_point(landed, Bias::Left)
}

/// Presses one motion on a marked text and marks where the cursor lands.
fn after(marked_text: &str, motion: &Motion, times: Option<usize>) -> String {
    let (map, point) = normal_state(marked_text);
    marked(&map, press(&map, point, motion, times))
}


fn dp(row: usize, column: usize) -> DisplayPoint {
    DisplayPoint { row, column }
}

fn find(c: char) -> Motion {
    Motion::FindForward { before: false, char: c, mode: FindRange::SingleLine, smartcase: false }
}

#[test]
fn memory_keeps_the_last_search_that_landed() {
    let mut memory = FindMemory::new();
    assert_eq!(memory.repeat_find(), None);
    assert_eq!(memory.repeat_find_reversed(), None);

    memory.record(&find('a'), true);
    assert_eq!(memory.repeat_find(), Some(Motion::RepeatFind { last_find: Box::new(find('a')) }));
    assert_eq!(
        memory.repeat_find_reversed(),
        Some(Motion::RepeatFindReversed { last_find: Box::new(find('a')) })
    );

    // a search that failed is not remembered
    memory.record(&find('b'), false);
    assert_eq!(memory.last_find, Search::from_motion(&find('a')));

    // no other motion is remembered, nor a repeated search
    memory.record(&Motion::Left, true);
    memory.record(&Motion::RepeatFind { last_find: Box::new(find('c')) }, true);
    assert_eq!(memory.last_find, Search::from_motion(&find('a')));

    let sneak = Motion::SneakBackward { first_char: 'x', second_char: 'y', smartcase: true };
    memory.record(&sneak, true);
    assert_eq!(memory.last_find.map(|search| search.motion()), Some(sneak));
}

#[test]
fn searches_and_motions_correspond() {
    let motions = vec![
        find('q'),
        Motion::FindBackward { after: true, char: 'q', mode: FindRange::MultiLine, smartcase: true },
        Motion::Sneak { first_char: 'a', second_char: 'b', smartcase: false },
        Motion::SneakBackward { first_char: 'a', second_char: 'b', smartcase: false },
    ];
    for motion in motions.iter() {
        assert_eq!(&Search::from_motion(motion).unwrap().motion(), motion);
    }
    assert_eq!(Search::from_motion(&Motion::Matching), None);
}

#[test]
fn remembered_search_is_made_again() {
    let (map, start) = normal_state("ˇone two three four");
    let mut memory = FindMemory::new();
    let first = find('o');
    let landed = first.move_point(&map, start, SelectionGoal::Unset, None, &layout());
    memory.record(&first, landed.is_some());
    let at = landed.unwrap().0;
    assert_eq!(marked(&map, at), "one twˇo three four");
    let again = memory.repeat_find().unwrap();
    let next = press(&map, at, &again, None);
    assert_eq!(marked(&map, next), "one two three fˇour");
    let back = memory.repeat_find_reversed().unwrap();
    assert_eq!(marked(&map, press(&map, next, &back, Some(2))), "ˇone two three four");
}

#[test]
fn rows_relative_to_the_cursor() {
    let map = DisplaySnapshot::new(chars_of("one\n  two\nthree\nfour"), None, true);
    assert_eq!(start_of_relative_buffer_row(&map, dp(1, 3), 1), dp(2, 0));
    assert_eq!(start_of_relative_buffer_row(&map, dp(1, 3), 0), dp(1, 0));
    assert_eq!(start_of_relative_buffer_row(&map, dp(1, 3), -1), dp(0, 0));
    assert_eq!(start_of_relative_buffer_row(&map, dp(1, 3), -9), dp(0, 0));
    assert_eq!(start_of_relative_buffer_row(&map, dp(1, 3), 9), dp(3, 0));
    assert_eq!(start_of_relative_buffer_row(&map, dp(1, 3), isize::MIN), dp(0, 0));
    assert_eq!(start_of_relative_buffer_row(&map, dp(1, 3), isize::MAX), dp(3, 0));
    assert_eq!(relative_row(map.buffer(), 2, -2), 0);
    assert_eq!(relative_row(map.buffer(), 2, 1), 3);
}

#[test]
fn word_end_for_an_operator_stays_in_the_line() {
    let map = DisplaySnapshot::new(chars_of("one two\nthree"), None, false);
    // on the last word of a line the end lies behind the word, in the line
    assert_eq!(next_word_end(&map, dp(0, 4), false, 1, false), dp(0, 7));
    assert_eq!(next_word_end(&map, dp(0, 6), false, 1, false), dp(0, 7));
    assert_eq!(next_word_end(&map, dp(0, 0), false, 1, false), dp(0, 2));
    // free to cross the line end, the motion goes on to the next word
    assert_eq!(next_word_end(&map, dp(0, 6), false, 1, true), dp(1, 5));
    assert_eq!(next_subword_end(&map, dp(0, 4), false, 1, false), dp(0, 7));
    assert_eq!(next_subword_end(&map, dp(0, 0), false, 1, true), dp(0, 2));
}

#[test]
fn syntax_is_added_without_changing_the_text() {
    let pair = BracketPair { open_start: 0, open_end: 1, close_start: 4, close_end: 5 };
    let map = DisplaySnapshot::new(chars_of("(one)\ntwo"), Some(4), true)
        .with_brackets(vec![pair])
        .with_tags(vec![pair, pair])
        .with_objects(vec![ObjectRange { start: 1, end: 4, kind: TextObject::Other, depth: 0 }])
        .with_excerpts(vec![Excerpt { start_row: 0, end_row: 1, source_row: 4 }]);
    assert_eq!(map.buffer().brackets(), &vec![pair]);
    assert_eq!(map.buffer().tags().len(), 2);
    assert_eq!(map.buffer().objects().len(), 1);
    assert_eq!(map.buffer().excerpts().len(), 1);
    assert_eq!(map.buffer().len(), 9);
    assert_eq!(map.max_point(), dp(2, 3));
    assert_eq!(map.line_len(0), 4);
    assert_eq!(map.line_len(1), 1);
}

#[test]
fn commands_ask_for_motions() {
    let mut memory = FindMemory::new();
    assert_eq!(register(Command::Left, &memory), Some(Motion::Left));
    assert_eq!(register(Command::WindowMiddle, &memory), Some(Motion::WindowMiddle));
    assert_eq!(
        register(Command::Down(Down { display_lines: true }), &memory),
        Some(Motion::Down { display_lines: true })
    );
    assert_eq!(
        register(Command::NextSubwordEnd(NextSubwordEnd { ignore_punctuation: true }), &memory),
        Some(Motion::NextSubwordEnd { ignore_punctuation: true })
    );
    assert_eq!(
        register(Command::UnmatchedBackward(UnmatchedBackward { char: '(' }), &memory),
        Some(Motion::UnmatchedBackward { char: '(' })
    );
    // with no search remembered there is nothing to repeat
    assert_eq!(register(Command::RepeatFind, &memory), None);
    assert_eq!(register(Command::RepeatFindReversed, &memory), None);
    memory.record(&find('x'), true);
    assert_eq!(
        register(Command::RepeatFind, &memory),
        Some(Motion::RepeatFind { last_find: Box::new(find('x')) })
    );
    assert_eq!(
        register(Command::RepeatFindReversed, &memory),
        Some(Motion::RepeatFindReversed { last_find: Box::new(find('x')) })
    );
}

#[test]
fn session_plans_a_motion() {
    let plain = plan_motion(Mode::Normal, Pending::Nothing, Pending::Nothing);
    assert_eq!(plain, MotionPlan { drops_search: false, route: Route::Normal });
    // the operator that waited for the target of a search is done with
    let found = plan_motion(Mode::Normal, Pending::Search, Pending::Other);
    assert_eq!(found, MotionPlan { drops_search: true, route: Route::Normal });
    let surround = plan_motion(Mode::Insert, Pending::AddSurrounds, Pending::Nothing);
    assert_eq!(surround, MotionPlan { drops_search: false, route: Route::Surround });
    let below = plan_motion(Mode::Replace, Pending::Search, Pending::AddSurrounds);
    assert_eq!(below, MotionPlan { drops_search: true, route: Route::Surround });
    let visual = plan_motion(Mode::VisualLine, Pending::AddSurrounds, Pending::Nothing);
    assert_eq!(visual.route, Route::Visual);
    let helix = plan_motion(Mode::HelixNormal, Pending::Search, Pending::Nothing);
    assert_eq!(helix, MotionPlan { drops_search: true, route: Route::Helix });
}

#[test]
fn session_plans_a_search_result() {
    assert_eq!(
        plan_search(Mode::Visual, true, false),
        SearchPlan { restores_prior: true, proceeds: true }
    );
    assert_eq!(
        plan_search(Mode::VisualBlock, false, false),
        SearchPlan { restores_prior: false, proceeds: true }
    );
    assert_eq!(
        plan_search(Mode::Normal, true, false),
        SearchPlan { restores_prior: false, proceeds: false }
    );
    assert_eq!(
        plan_search(Mode::Insert, true, true),
        SearchPlan { restores_prior: false, proceeds: true }
    );
    assert_eq!(
        plan_search(Mode::HelixNormal, true, false),
        SearchPlan { restores_prior: false, proceeds: true }
    );
}
