use vim_motion::bracket::matching;
use vim_motion::buffer::{Bias, Point};
use vim_motion::display::{DisplayPoint, DisplaySnapshot};
use vim_motion::motion::Motion;
use vim_motion::selection::SelectionGoal;
use vim_motion::syntax::BracketPair;
use vim_motion::window::TextLayoutDetails;

fn chars_of(text: &str) -> Vec<char> {
    text.chars().collect()
}

/// Splits a text with one `ˇ` in it into the text and the cursor's offset.
fn parse(marked: &str) -> (String, usize) {
    let mut text = String::new();
    let mut cursor = None;
    for c in marked.chars() {
        if c == 'ˇ' {
            cursor = Some(text.chars().count());
        } else {
            text.push(c);
        }
    }
    (text, cursor.expect("the text marks no cursor"))
}

/// Pairs the brackets of a text as a syntax layer would, by nesting.
fn brackets_of(text: &[char]) -> Vec<BracketPair> {
    let mut pairs = Vec::new();
    let mut open: Vec<(char, usize)> = Vec::new();
    for (i, &c) in text.iter().enumerate() {
        match c {
            '(' | '[' | '{' => open.push((c, i)),
            ')' | ']' | '}' => {
                let wanted = match c {
                    ')' => '(',
                    ']' => '[',
                    _ => '{',
                };
                if let Some(&(o, at)) = open.last() {
                    if o == wanted {
                        open.pop();
                        pairs.push(BracketPair {
                            open_start: at,
                            open_end: at + 1,
                            close_start: i,
                            close_end: i + 1,
                        });
                    }
                }
            }
            _ => {}
        }
    }
    pairs.sort_by_key(|pair| pair.open_start);
    pairs
}

/// A snapshot of a marked text as a cursor in normal mode sees it, with the
/// place of the mark.
fn normal_state(marked: &str) -> (DisplaySnapshot, DisplayPoint) {
    let (text, cursor) = parse(marked);
    let chars = chars_of(&text);
    let pairs = brackets_of(&chars);
    let map = DisplaySnapshot::new(chars, None, true).with_brackets(pairs);
    let point = map.offset_to_display_point(cursor);
    (map, point)
}

/// The text of a snapshot with the cursor marked in it.
fn marked(map: &DisplaySnapshot, point: DisplayPoint) -> String {
    let offset = map.display_point_to_offset(point, Bias::Left);
    let mut out = String::new();
    let len = map.buffer().len();
    for i in 0..len {
        if i == offset {
            out.push('ˇ');
        }
        out.push(map.buffer().char_at_offset(i).unwrap());
    }
    if offset >= len {
        out.push('ˇ');
    }
    out
}

fn layout() -> TextLayoutDetails {
    TextLayoutDetails {
        scroll_anchor: Point { row: 0, column: 0 },
        visible_rows: Some(20),
        vertical_scroll_margin: 3,
    }
}

/// Applies a motion as a keystroke in normal mode does: a motion that fails
/// leaves the cursor in its place, and the cursor is clipped to a character.
fn press(map: &DisplaySnapshot, point: DisplayPoint, motion: &Motion, times: Option<usize>) -> DisplayPoint {
    let landed = motion
        .move_point(map, point, SelectionGoal::Unset, times, &layout())
        .map(|(p, _)| p)
        .unwrap_or(point);
    map.clip_point(landed, Bias::Left)
}

/// Presses one motion on a marked text and marks where the cursor lands.
fn after(marked_text: &str, motion: &Motion, times: Option<usize>) -> String {
    let (map, point) = normal_state(marked_text);
    marked(&map, press(&map, point, motion, times))
}


const FUNC: &str = "func (a string) {\n    do(something(with<Types>.and_arrays[0, 2]))\n}";

fn func_with_cursor(before: &str) -> String {
    let at = FUNC.find(before).expect("the place is in the text") + before.len();
    let mut text = String::from(&FUNC[..at]);
    text.push('ˇ');
    text.push_str(&FUNC[at..]);
    text
}

#[test]
fn test_matching() {
    assert_eq!(
        after(&func_with_cursor("func "), &Motion::Matching, None),
        func_with_cursor("func (a string")
    );

    // test it works on the last character of the line
    assert_eq!(
        after(&func_with_cursor("func (a string) "), &Motion::Matching, None),
        func_with_cursor("and_arrays[0, 2]))\n")
    );

    // test it works on immediate nesting
    let (map, start) = normal_state("ˇ{()}");
    let there = press(&map, start, &Motion::Matching, None);
    assert_eq!(marked(&map, there), "{()ˇ}");
    let back = press(&map, there, &Motion::Matching, None);
    assert_eq!(marked(&map, back), "ˇ{()}");

    // test it works on immediate nesting inside braces
    assert_eq!(after("{\n    ˇ{()}\n}", &Motion::Matching, None), "{\n    {()ˇ}\n}");

    // test it jumps to the next paren on a line
    assert_eq!(after("func ˇboop() {\n}", &Motion::Matching, None), "func boop(ˇ) {\n}");
}

#[test]
fn test_unmatched_forward() {
    let brace = Motion::UnmatchedForward { char: '}' };
    let paren = Motion::UnmatchedForward { char: ')' };

    // test it works with curly braces
    assert_eq!(
        after(&func_with_cursor("with<Types>.an"), &brace, None),
        func_with_cursor("and_arrays[0, 2]))\n")
    );

    // test it works with brackets
    assert_eq!(
        after(&func_with_cursor("do(somethi"), &paren, None),
        func_with_cursor("and_arrays[0, 2])")
    );

    assert_eq!(
        after("func (a string) { a((b, cˇ))}", &paren, None),
        "func (a string) { a((b, c)ˇ)}"
    );

    // test it works on immediate nesting
    assert_eq!(after("{ˇ {}{}}", &brace, None), "{ {}{}ˇ}");
    assert_eq!(after("(ˇ ()())", &paren, None), "( ()()ˇ)");

    // test it works on immediate nesting inside braces
    assert_eq!(after("{\n    ˇ {()}\n}", &brace, None), "{\n     {()}\nˇ}");
    assert_eq!(after("(\n    ˇ {()}\n)", &paren, None), "(\n     {()}\nˇ)");
}

#[test]
fn test_unmatched_backward() {
    let brace = Motion::UnmatchedBackward { char: '{' };
    let paren = Motion::UnmatchedBackward { char: '(' };

    // test it works with curly braces
    assert_eq!(
        after(&func_with_cursor("with<Types>.an"), &brace, None),
        func_with_cursor("func (a string) ")
    );

    // test it works with brackets
    assert_eq!(
        after(&func_with_cursor("do(somethi"), &paren, None),
        func_with_cursor("    do")
    );

    // test it works on immediate nesting
    assert_eq!(after("{{}{} ˇ }", &brace, None), "ˇ{{}{}  }");
    assert_eq!(after("(()() ˇ )", &paren, None), "ˇ(()()  )");

    // test it works on immediate nesting inside braces
    assert_eq!(after("{\n    {()} ˇ\n}", &brace, None), "ˇ{\n    {()} \n}");
    assert_eq!(after("(\n    {()} ˇ\n)", &paren, None), "ˇ(\n    {()} \n)");
}

#[test]
fn unmatched_forward_counts_outward() {
    let paren = Motion::UnmatchedForward { char: ')' };
    assert_eq!(after("(a (b (ˇc) d) e)", &paren, Some(2)), "(a (b (c) dˇ) e)");
    assert_eq!(after("(a (b (ˇc) d) e)", &paren, Some(3)), "(a (b (c) d) eˇ)");
    assert_eq!(after("(a (b (ˇc) d) e)", &paren, Some(9)), "(a (b (c) d) eˇ)");
}

#[test]
fn unmatched_motion_without_such_bracket_fails() {
    let (map, point) = normal_state("(a ˇb)");
    let brace = Motion::UnmatchedForward { char: '}' };
    assert_eq!(brace.move_point(&map, point, SelectionGoal::Unset, None, &layout()), None);
    let open = Motion::UnmatchedBackward { char: '[' };
    assert_eq!(open.move_point(&map, point, SelectionGoal::Unset, None, &layout()), None);
}

#[test]
fn matching_without_brackets_fails() {
    let (map, point) = normal_state("no ˇbrackets here");
    assert_eq!(
        Motion::Matching.move_point(&map, point, SelectionGoal::Unset, None, &layout()),
        None
    );
}

fn pair(open_start: usize, open_end: usize, close_start: usize, close_end: usize) -> BracketPair {
    BracketPair { open_start, open_end, close_start, close_end }
}

/// A markup text with its tags paired by hand, as the syntax layer of a
/// markup language would pair them.
fn markup_state(marked_text: &str, brackets: Vec<BracketPair>, tags: Vec<BracketPair>) -> (DisplaySnapshot, DisplayPoint) {
    let (text, cursor) = parse(marked_text);
    let map = DisplaySnapshot::new(chars_of(&text), None, true)
        .with_brackets(brackets)
        .with_tags(tags);
    let point = map.offset_to_display_point(cursor);
    (map, point)
}

#[test]
fn test_matching_tags() {
    // <body></body>
    let brackets = vec![pair(0, 1, 5, 6), pair(6, 8, 12, 13)];
    let tags = vec![pair(0, 6, 6, 13)];
    let (map, start) = markup_state("<bˇody></body>", brackets, tags);
    let there = press(&map, start, &Motion::Matching, None);
    assert_eq!(marked(&map, there), "<body><ˇ/body>");

    // test jumping backwards
    let back = press(&map, there, &Motion::Matching, None);
    assert_eq!(marked(&map, back), "<ˇbody></body>");

    // test self-closing tags
    let brackets = vec![pair(0, 1, 2, 3), pair(3, 4, 6, 8), pair(8, 10, 11, 12)];
    let tags = vec![pair(0, 3, 8, 12)];
    let (map, start) = markup_state("<a><bˇr/></a>", brackets, tags);
    let stay = press(&map, start, &Motion::Matching, None);
    assert_eq!(marked(&map, stay), "<a><bˇr/></a>");

    // test tag with attributes
    let text = "<div class='test' ˇid='main'>\n</div>\n";
    let brackets = vec![pair(0, 1, 27, 28), pair(29, 31, 34, 35)];
    let tags = vec![pair(0, 28, 29, 35)];
    let (map, start) = markup_state(text, brackets, tags);
    let there = press(&map, start, &Motion::Matching, None);
    assert_eq!(marked(&map, there), "<div class='test' id='main'>\n<ˇ/div>\n");

    // test multi-line self-closing tag
    let text = "<a>\n    <br\n        test = \"test\"\n    /ˇ>\n</a>";
    let (plain, _) = parse(text);
    let chars = chars_of(&plain);
    let br = plain.find("<br").unwrap();
    let slash = plain.find("/>").unwrap();
    let close = plain.find("</a>").unwrap();
    assert_eq!(chars.len(), plain.len());
    let brackets = vec![
        pair(0, 1, 2, 3),
        pair(br, br + 1, slash, slash + 2),
        pair(close, close + 2, close + 3, close + 4),
    ];
    let tags = vec![pair(0, 3, close, close + 4)];
    let (map, start) = markup_state(text, brackets, tags);
    let there = press(&map, start, &Motion::Matching, None);
    assert_eq!(
        marked(&map, there),
        "<a>\n    ˇ<br\n        test = \"test\"\n    />\n</a>"
    );
}

#[test]
fn test_visual_match_eol() {
    // in visual mode the cursor may stand behind the last character
    let (text, cursor) = parse("fn aˇ() {\n  return\n}\n");
    let chars = chars_of(&text);
    let pairs = brackets_of(&chars);
    let map = DisplaySnapshot::new(chars, None, false).with_brackets(pairs);
    let start = map.offset_to_display_point(cursor);
    let eol = Motion::EndOfLine { display_lines: false }
        .move_point(&map, start, SelectionGoal::Unset, None, &layout())
        .unwrap()
        .0;
    assert_eq!(marked(&map, eol), "fn a() {ˇ\n  return\n}\n");
    let matched = Motion::Matching
        .move_point(&map, eol, SelectionGoal::Unset, None, &layout())
        .unwrap()
        .0;
    assert_eq!(marked(&map, matched), "fn a() {\n  return\nˇ}\n");
}

#[test]
fn matching_returns_in_a_wrapped_text() {
    let (text, cursor) = parse("call(ˇ[one, two], {three})");
    let chars = chars_of(&text);
    let pairs = brackets_of(&chars);
    let map = DisplaySnapshot::new(chars, Some(7), true).with_brackets(pairs);
    let start = map.offset_to_display_point(cursor);
    let there = press(&map, start, &Motion::Matching, None);
    assert_eq!(marked(&map, there), "call([one, twoˇ], {three})");
    assert_eq!(there, DisplayPoint { row: 2, column: 0 });
    let back = press(&map, there, &Motion::Matching, None);
    assert_eq!(back, start);
}

#[test]
fn brackets_that_are_none_are_refused() {
    let text = "(a)\n[b]";
    let accepted = |pairs: Vec<BracketPair>| {
        let wanted = pairs.clone();
        let map = DisplaySnapshot::new(chars_of(text), None, true).with_brackets(pairs);
        map.buffer().brackets() == &wanted
    };
    assert!(accepted(vec![pair(0, 1, 2, 3), pair(4, 5, 6, 7)]));
    assert!(accepted(Vec::new()));
    // two pairs that share a bracket
    assert!(!accepted(vec![pair(0, 1, 2, 3), pair(0, 1, 6, 7)]));
    assert!(!accepted(vec![pair(0, 1, 6, 7), pair(4, 5, 6, 7)]));
    assert!(!accepted(vec![pair(0, 2, 6, 7), pair(1, 2, 4, 5)]));
    // a closing bracket in front of its opening one
    assert!(!accepted(vec![pair(2, 3, 0, 1)]));
    // an empty bracket
    assert!(!accepted(vec![pair(0, 0, 2, 3)]));
    // a bracket behind the text
    assert!(!accepted(vec![pair(0, 1, 7, 8)]));
    // a bracket that starts with a line break
    assert!(!accepted(vec![pair(0, 1, 3, 4)]));
    // a refused list leaves the brackets that were there
    let map = DisplaySnapshot::new(chars_of(text), None, true)
        .with_brackets(vec![pair(0, 1, 2, 3)])
        .with_brackets(vec![pair(2, 3, 0, 1)]);
    assert_eq!(map.buffer().brackets(), &vec![pair(0, 1, 2, 3)]);
}

#[test]
fn matching_returns_from_every_bracket() {
    let text = "fn a(b: [u8; 2]) { c(d[0], (e)) }\n{ [x] }";
    let chars = chars_of(text);
    let pairs = brackets_of(&chars);
    let map = DisplaySnapshot::new(chars, Some(9), true).with_brackets(pairs.clone());
    assert_eq!(map.buffer().brackets().len(), pairs.len());
    assert_eq!(pairs.len(), 8);
    for found in pairs.iter() {
        let open = map.offset_to_display_point(found.open_start);
        let close = map.offset_to_display_point(found.close_start);
        assert_eq!(matching(&map, open), close);
        assert_eq!(matching(&map, close), open);
    }
}
