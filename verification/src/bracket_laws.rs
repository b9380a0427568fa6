//! What holds of the motion between matching brackets.

use crate::bracket::{
    closer_after, closer_step, closes_ahead, distance, match_stretch, match_walk, matching_at,
    nearest_closer, nearest_opener, opener_before, opener_step, opens_ahead, tag_jump,
    unmatched_backward_at, unmatched_forward_at,
};
use crate::repeat::law_once;
use crate::laws::{law_display_keeps_order, lemma_place_of_own_offset};
use crate::selection::display_before;
use crate::buffer::{Bias, Buffer, Point};
use crate::display::{DisplayPoint, DisplaySnapshot};
use crate::find_laws::lemma_char_is_shown_in_row;
use crate::syntax::BracketPair;
use vstd::prelude::*;

verus! {

/// No delimiter of `pair` stands at offset `o`.
pub open spec fn clear_of(pair: BracketPair, o: int) -> bool {
    !pair.in_open(o) && pair.open_start != o && !pair.in_close(o) && pair.close_start != o
}

/// No bracket pair but number `k` has a delimiter at offset `o`.
pub open spec fn others_clear(map: &DisplaySnapshot, k: int, o: int) -> bool {
    forall|j: int|
        0 <= j < map.text().bracket_pairs().len() && j != k ==> clear_of(
            #[trigger] map.text().bracket_pairs()[j],
            o,
        )
}

/// No bracket pair sends the cursor at offset `o` off as a markup tag
/// would.
pub open spec fn no_tag_decides(map: &DisplaySnapshot, o: int, head: DisplayPoint) -> bool {
    forall|j: int|
        0 <= j < map.text().bracket_pairs().len() ==> tag_jump(
            map,
            #[trigger] map.text().bracket_pairs()[j],
            o,
            head,
        ) is None
}

/// The delimiters of `pair` lie in the text one behind the other, and
/// neither starts with a line break.
pub open spec fn plain_pair(map: &DisplaySnapshot, pair: BracketPair) -> bool {
    &&& pair.open_start < pair.open_end <= pair.close_start < pair.close_end
        <= map.text().chars().len()
    &&& map.text().chars()[pair.open_start as int] != '\n'
    &&& map.text().chars()[pair.close_start as int] != '\n'
}

/// The upper end of the offsets that `matching` asks brackets for.
pub open spec fn asked_high(map: &DisplaySnapshot, head: DisplayPoint) -> int {
    let last = match_stretch(map, head).2;
    if last + 1 < map.text().chars().len() {
        last + 1
    } else {
        map.text().chars().len() as int
    }
}

/// Pair number `k` decides where `matching` goes from `head`: one of its
/// delimiters stands under the cursor, and `d` is where its partner
/// starts.
pub open spec fn decides(map: &DisplaySnapshot, head: DisplayPoint, k: int, d: int) -> bool {
    let pair = map.text().bracket_pairs()[k];
    let o = map.to_offset(head, Bias::Left);
    let low = match_stretch(map, head).0;
    let high = match_stretch(map, head).1;
    &&& pair.near(distance(low, 1), asked_high(map, head))
    &&& (opens_ahead(pair, o, low, high) && distance(pair.open_start as int, o) == 0 && d
        == pair.close_start) || (!opens_ahead(pair, o, low, high) && closes_ahead(
        pair,
        o,
        low,
        high,
    ) && distance(pair.close_start as int, o) == 0 && d == pair.open_start)
}

/// Where one pair has a delimiter under the cursor and no other pair has,
/// the walk over the pairs ends at the partner of that delimiter.
pub proof fn lemma_match_walk(
    map: &DisplaySnapshot,
    head: DisplayPoint,
    i: int,
    dest: Option<int>,
    closest: int,
    k: int,
    d: int,
)
    requires
        map.wf(),
        0 <= k < map.text().bracket_pairs().len(),
        0 <= i <= map.text().bracket_pairs().len(),
        no_tag_decides(map, map.to_offset(head, Bias::Left), head),
        others_clear(map, k, map.to_offset(head, Bias::Left)),
        decides(map, head, k, d),
        i <= k ==> closest >= 1,
        i > k ==> dest == Some(d) && closest == 0,
    ensures
        match_walk(map, head, i, dest, closest) == map.offset_to_display(d),
    decreases map.text().bracket_pairs().len() - i,
{
    let pairs = map.text().bracket_pairs();
    let o = map.to_offset(head, Bias::Left);
    let low = match_stretch(map, head).0;
    let high = match_stretch(map, head).1;
    if i < pairs.len() {
        let pair = pairs[i];
        assert(tag_jump(map, pair, o, head) is None);
        if !pair.near(distance(low, 1), asked_high(map, head)) {
            lemma_match_walk(map, head, i + 1, dest, closest, k, d);
        } else if i == k {
            lemma_match_walk(map, head, i + 1, Some(d), 0, k, d);
        } else {
            assert(clear_of(pair, o));
            if opens_ahead(pair, o, low, high) && distance(pair.open_start as int, o) < closest {
                lemma_match_walk(
                    map,
                    head,
                    i + 1,
                    Some(pair.close_start as int),
                    distance(pair.open_start as int, o),
                    k,
                    d,
                );
            } else if closes_ahead(pair, o, low, high) && distance(pair.close_start as int, o)
                < closest {
                lemma_match_walk(
                    map,
                    head,
                    i + 1,
                    Some(pair.open_start as int),
                    distance(pair.close_start as int, o),
                    k,
                    d,
                );
            } else {
                lemma_match_walk(map, head, i + 1, dest, closest, k, d);
            }
        }
    }
}

/// For a cursor on a character, `matching` looks at the cursor's own line.
pub proof fn lemma_stretch_is_line(map: &DisplaySnapshot, o: int)
    requires
        map.wf(),
        0 <= o < map.text().chars().len(),
        map.text().chars()[o] != '\n',
    ensures
        map.line_end_clipped(map.offset_to_display(o)) == map.offset_to_display(o),
        map.to_offset(map.offset_to_display(o), Bias::Left) == o,
        match_stretch(map, map.offset_to_display(o)).0 <= o < match_stretch(
            map,
            map.offset_to_display(o),
        ).1 <= map.text().chars().len(),
        match_stretch(map, map.offset_to_display(o)).2 + 1 == match_stretch(
            map,
            map.offset_to_display(o),
        ).1,
{
    let buffer = map.text();
    let p = map.offset_to_display(o);
    lemma_char_is_shown_in_row(map, o);
    assert(map.to_offset(p, Bias::Left) == o);
    let pt = buffer.point_of(o);
    buffer.lemma_row_of(o);
    buffer.lemma_point_offset_round_trip(pt, o);
    buffer.lemma_lines(pt.row as int);
    buffer.lemma_clipped(pt);
    map.lemma_to_display(pt);
    assert(map.to_point(p, Bias::Left) == pt);
    assert(pt.column < buffer.line_len(pt.row as int));
    let line_end = map.line_end_of(pt).0;
    let line_start = map.line_start_of(pt).0;
    assert(line_end == Point { row: pt.row, column: buffer.line_len(pt.row as int) as usize });
    assert(line_end != pt);
    let visible_end = Point { row: line_end.row, column: (line_end.column - 1) as usize };
    buffer.lemma_clipped(line_end);
    buffer.lemma_clipped(line_start);
    buffer.lemma_clipped(visible_end);
}

/// In a snapshot no bracket pair but number `k` has a delimiter at an
/// offset at which a delimiter of pair `k` starts.
pub proof fn lemma_others_clear(map: &DisplaySnapshot, k: int)
    requires
        map.wf(),
        0 <= k < map.text().bracket_pairs().len(),
    ensures
        plain_pair(map, map.text().bracket_pairs()[k]),
        others_clear(map, k, map.text().bracket_pairs()[k].open_start as int),
        others_clear(map, k, map.text().bracket_pairs()[k].close_start as int),
{
    let pairs = map.text().bracket_pairs();
    let pair = pairs[k];
    assert(crate::buffer::bracket_of(map.text().chars(), pair));
    assert forall|j: int| 0 <= j < pairs.len() && j != k implies clear_of(
        #[trigger] pairs[j],
        pair.open_start as int,
    ) && clear_of(pairs[j], pair.close_start as int) by {
        assert(crate::buffer::bracket_of(map.text().chars(), pairs[j]));
        if j < k {
            assert(pairs[j].apart_from(pairs[k]));
        } else {
            assert(pairs[k].apart_from(pairs[j]));
        }
    }
}

/// From the bracket that opens a pair, `%` goes to the one that closes it,
/// and from there back to the one that opens it: made twice from a bracket,
/// the motion returns to where it began. This holds of every pair of the
/// snapshot, as long as no pair around is treated as a markup tag.
pub proof fn law_matching_returns(map: &DisplaySnapshot, k: int)
    requires
        map.wf(),
        0 <= k < map.text().bracket_pairs().len(),
        no_tag_decides(
            map,
            map.text().bracket_pairs()[k].open_start as int,
            map.offset_to_display(map.text().bracket_pairs()[k].open_start as int),
        ),
        no_tag_decides(
            map,
            map.text().bracket_pairs()[k].close_start as int,
            map.offset_to_display(map.text().bracket_pairs()[k].close_start as int),
        ),
    ensures
        matching_at(
            map,
            map.offset_to_display(map.text().bracket_pairs()[k].open_start as int),
        ) == map.offset_to_display(map.text().bracket_pairs()[k].close_start as int),
        matching_at(
            map,
            map.offset_to_display(map.text().bracket_pairs()[k].close_start as int),
        ) == map.offset_to_display(map.text().bracket_pairs()[k].open_start as int),
        matching_at(
            map,
            matching_at(
                map,
                map.offset_to_display(map.text().bracket_pairs()[k].open_start as int),
            ),
        ) == map.offset_to_display(map.text().bracket_pairs()[k].open_start as int),
        matching_at(
            map,
            matching_at(
                map,
                map.offset_to_display(map.text().bracket_pairs()[k].close_start as int),
            ),
        ) == map.offset_to_display(map.text().bracket_pairs()[k].close_start as int),
{
    let pair = map.text().bracket_pairs()[k];
    let open = pair.open_start as int;
    let close = pair.close_start as int;
    let p = map.offset_to_display(open);
    let q = map.offset_to_display(close);
    lemma_others_clear(map, k);
    lemma_stretch_is_line(map, open);
    lemma_stretch_is_line(map, close);
    assert(decides(map, p, k, close));
    lemma_match_walk(map, p, 0, None, usize::MAX as int, k, close);
    assert(decides(map, q, k, open));
    lemma_match_walk(map, q, 0, None, usize::MAX as int, k, open);
}

/// In a text without markup no pair is treated as a markup tag: no pair
/// opens with `<`.
pub open spec fn without_markup(map: &DisplaySnapshot) -> bool {
    forall|j: int|
        0 <= j < map.text().bracket_pairs().len() ==> map.text().chars()[(
        #[trigger] map.text().bracket_pairs()[j]).open_start as int] != '<'
}

/// In a text without markup, `%` made twice from any bracket returns to
/// that bracket.
pub proof fn law_matching_returns_without_markup(map: &DisplaySnapshot, k: int)
    requires
        map.wf(),
        0 <= k < map.text().bracket_pairs().len(),
        without_markup(map),
    ensures
        matching_at(
            map,
            matching_at(
                map,
                map.offset_to_display(map.text().bracket_pairs()[k].open_start as int),
            ),
        ) == map.offset_to_display(map.text().bracket_pairs()[k].open_start as int),
        matching_at(
            map,
            matching_at(
                map,
                map.offset_to_display(map.text().bracket_pairs()[k].close_start as int),
            ),
        ) == map.offset_to_display(map.text().bracket_pairs()[k].close_start as int),
{
    let pairs = map.text().bracket_pairs();
    assert forall|o: int, head: DisplayPoint| no_tag_decides(map, o, head) by {
        assert forall|j: int| 0 <= j < pairs.len() implies tag_jump(
            map,
            #[trigger] pairs[j],
            o,
            head,
        ) is None by {
            assert(crate::buffer::bracket_of(map.text().chars(), pairs[j]));
        }
    }
    law_matching_returns(map, k);
}

/// Pair `pair` closes behind offset `o`, around it, with the character
/// `c`.
pub open spec fn closes_around(buffer: &Buffer, pair: BracketPair, o: int, c: char) -> bool {
    pair.encloses(o) && pair.close_start > o && buffer.char_at(pair.close_start as int) == Some(c)
}

/// Pair `pair` opens in front of offset `o`, around it, with the character
/// `c`.
pub open spec fn opens_around(buffer: &Buffer, pair: BracketPair, o: int, c: char) -> bool {
    pair.encloses(o) && pair.open_start < o && buffer.char_at(pair.open_start as int) == Some(c)
}

/// What the search for a closing delimiter has found once it has looked at
/// the pairs in front of number `i`: the start of the nearest one among
/// them that closes around `o` with `c`, or nothing if none of them does.
pub open spec fn nearest_closer_so_far(
    buffer: &Buffer,
    o: int,
    c: char,
    i: int,
    best: Option<int>,
) -> bool {
    let pairs = buffer.bracket_pairs();
    &&& best is Some ==> exists|j: int|
        0 <= j < i && closes_around(buffer, #[trigger] pairs[j], o, c) && pairs[j].close_start
            == best->0
    &&& forall|j: int|
        0 <= j < i && closes_around(buffer, #[trigger] pairs[j], o, c) ==> best is Some && best->0
            <= pairs[j].close_start
}

/// What the search for an opening delimiter has found once it has looked
/// at the pairs in front of number `i`.
pub open spec fn nearest_opener_so_far(
    buffer: &Buffer,
    o: int,
    c: char,
    i: int,
    best: Option<int>,
) -> bool {
    let pairs = buffer.bracket_pairs();
    &&& best is Some ==> exists|j: int|
        0 <= j < i && opens_around(buffer, #[trigger] pairs[j], o, c) && pairs[j].open_start
            == best->0
    &&& forall|j: int|
        0 <= j < i && opens_around(buffer, #[trigger] pairs[j], o, c) ==> best is Some && best->0
            >= pairs[j].open_start
}

/// The search for the closing delimiter keeps what it has found true to
/// the pairs it has looked at.
pub proof fn lemma_nearest_closer(buffer: &Buffer, o: int, c: char, i: int, best: Option<int>)
    requires
        0 <= i <= buffer.bracket_pairs().len(),
        nearest_closer_so_far(buffer, o, c, i, best),
    ensures
        nearest_closer_so_far(
            buffer,
            o,
            c,
            buffer.bracket_pairs().len() as int,
            nearest_closer(buffer, o, c, i, best),
        ),
    decreases buffer.bracket_pairs().len() - i,
{
    let pairs = buffer.bracket_pairs();
    if i < pairs.len() {
        let pair = pairs[i];
        let better = closes_around(buffer, pair, o, c) && (best is None || pair.close_start
            < best->0);
        let next = if better {
            Some(pair.close_start as int)
        } else {
            best
        };
        if better {
            assert(closes_around(buffer, pairs[i], o, c) && pairs[i].close_start == next->0);
        } else if best is Some {
            let j = choose|j: int|
                0 <= j < i && closes_around(buffer, #[trigger] pairs[j], o, c)
                    && pairs[j].close_start == best->0;
            assert(0 <= j < i + 1 && closes_around(buffer, pairs[j], o, c) && pairs[j].close_start
                == next->0);
        }
        assert(nearest_closer_so_far(buffer, o, c, i + 1, next));
        lemma_nearest_closer(buffer, o, c, i + 1, next);
    }
}

/// The search for the opening delimiter keeps what it has found true to
/// the pairs it has looked at.
pub proof fn lemma_nearest_opener(buffer: &Buffer, o: int, c: char, i: int, best: Option<int>)
    requires
        0 <= i <= buffer.bracket_pairs().len(),
        nearest_opener_so_far(buffer, o, c, i, best),
    ensures
        nearest_opener_so_far(
            buffer,
            o,
            c,
            buffer.bracket_pairs().len() as int,
            nearest_opener(buffer, o, c, i, best),
        ),
    decreases buffer.bracket_pairs().len() - i,
{
    let pairs = buffer.bracket_pairs();
    if i < pairs.len() {
        let pair = pairs[i];
        let better = opens_around(buffer, pair, o, c) && (best is None || pair.open_start
            > best->0);
        let next = if better {
            Some(pair.open_start as int)
        } else {
            best
        };
        if better {
            assert(opens_around(buffer, pairs[i], o, c) && pairs[i].open_start == next->0);
        } else if best is Some {
            let j = choose|j: int|
                0 <= j < i && opens_around(buffer, #[trigger] pairs[j], o, c)
                    && pairs[j].open_start == best->0;
            assert(0 <= j < i + 1 && opens_around(buffer, pairs[j], o, c) && pairs[j].open_start
                == next->0);
        }
        assert(nearest_opener_so_far(buffer, o, c, i + 1, next));
        lemma_nearest_opener(buffer, o, c, i + 1, next);
    }
}

/// Moving out of the brackets forward goes to the nearest delimiter that
/// closes around the cursor with the character asked for: to one of the
/// pairs around the cursor, and to none that closes behind another such
/// pair. An inner pair that does not surround the cursor is passed over.
/// Where no pair around the cursor closes with the character, nothing is
/// found.
pub proof fn law_unmatched_forward_is_nearest_enclosing(buffer: &Buffer, o: int, c: char)
    ensures
        nearest_closer_so_far(
            buffer,
            o,
            c,
            buffer.bracket_pairs().len() as int,
            nearest_closer(buffer, o, c, 0, None),
        ),
{
    lemma_nearest_closer(buffer, o, c, 0, None);
}

/// Moving out of the brackets backward goes to the nearest delimiter that
/// opens around the cursor with the character asked for.
pub proof fn law_unmatched_backward_is_nearest_enclosing(buffer: &Buffer, o: int, c: char)
    ensures
        nearest_opener_so_far(
            buffer,
            o,
            c,
            buffer.bracket_pairs().len() as int,
            nearest_opener(buffer, o, c, 0, None),
        ),
{
    lemma_nearest_opener(buffer, o, c, 0, None);
}

/// Moving out of the brackets forward, once, from a place of the display:
/// where the cursor moves, it lands behind where it was, on the character
/// asked for, on the closing delimiter of a pair around the cursor, and no
/// pair around the cursor closes with that character nearer by. The cursor
/// stays only where no pair around it closes behind it with the
/// character.
pub proof fn law_unmatched_forward_lands_on_nearest_closer(
    map: &DisplaySnapshot,
    p: DisplayPoint,
    c: char,
)
    requires
        map.wf(),
        map.valid_display(p),
    ensures
        unmatched_forward_at(map, p, c, 1) == closer_after(map, p, c),
        closer_after(map, p, c) != p ==> display_before(p, closer_after(map, p, c))
            && map.text().char_at(map.to_offset(closer_after(map, p, c), Bias::Left)) == Some(c)
            && nearest_closer_so_far(
            map.text(),
            map.to_offset(p, Bias::Left),
            c,
            map.text().bracket_pairs().len() as int,
            Some(map.to_offset(closer_after(map, p, c), Bias::Left)),
        ),
        closer_after(map, p, c) == p <==> forall|j: int|
            0 <= j < map.text().bracket_pairs().len() ==> !closes_around(
                map.text(),
                #[trigger] map.text().bracket_pairs()[j],
                map.to_offset(p, Bias::Left),
                c,
            ),
{
    let buffer = map.text();
    let o = map.to_offset(p, Bias::Left);
    lemma_place_of_own_offset(map, p);
    lemma_nearest_closer(buffer, o, c, 0, None);
    let found = nearest_closer(buffer, o, c, 0, None);
    assert(closer_step(map, c)(p) == closer_after(map, p, c));
    law_once(closer_step(map, c), p);
    if found is Some {
        let d = found->0;
        let j = choose|j: int|
            0 <= j < buffer.bracket_pairs().len() && closes_around(
                buffer,
                #[trigger] buffer.bracket_pairs()[j],
                o,
                c,
            ) && buffer.bracket_pairs()[j].close_start == d;
        law_display_keeps_order(map, o, d);
    }
}

/// Moving out of the brackets backward, once, from a place of the display:
/// where the cursor moves, it lands in front of where it was, on the
/// character asked for, on the opening delimiter of a pair around the
/// cursor, and no pair around the cursor opens with that character nearer
/// by. The cursor stays only where no pair around it opens in front of it
/// with the character.
pub proof fn law_unmatched_backward_lands_on_nearest_opener(
    map: &DisplaySnapshot,
    p: DisplayPoint,
    c: char,
)
    requires
        map.wf(),
        map.valid_display(p),
    ensures
        unmatched_backward_at(map, p, c, 1) == opener_before(map, p, c),
        opener_before(map, p, c) != p ==> display_before(opener_before(map, p, c), p)
            && map.text().char_at(map.to_offset(opener_before(map, p, c), Bias::Left)) == Some(c)
            && nearest_opener_so_far(
            map.text(),
            map.to_offset(p, Bias::Left),
            c,
            map.text().bracket_pairs().len() as int,
            Some(map.to_offset(opener_before(map, p, c), Bias::Left)),
        ),
        opener_before(map, p, c) == p <==> forall|j: int|
            0 <= j < map.text().bracket_pairs().len() ==> !opens_around(
                map.text(),
                #[trigger] map.text().bracket_pairs()[j],
                map.to_offset(p, Bias::Left),
                c,
            ),
{
    let buffer = map.text();
    let o = map.to_offset(p, Bias::Left);
    lemma_place_of_own_offset(map, p);
    lemma_nearest_opener(buffer, o, c, 0, None);
    let found = nearest_opener(buffer, o, c, 0, None);
    assert(opener_step(map, c)(p) == opener_before(map, p, c));
    law_once(opener_step(map, c), p);
    if found is Some {
        let d = found->0;
        let j = choose|j: int|
            0 <= j < buffer.bracket_pairs().len() && opens_around(
                buffer,
                #[trigger] buffer.bracket_pairs()[j],
                o,
                c,
            ) && buffer.bracket_pairs()[j].open_start == d;
        law_display_keeps_order(map, d, o);
    }
}

} // verus!
