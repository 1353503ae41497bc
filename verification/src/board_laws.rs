//! A board written in the layout of the board messages reads back as
//! that board.

use crate::board::{
    board_shaped, color_index, home_row, start_board, with_loc, BoardView, Color, Loc,
};
use crate::deserialize::{first_from, main_ring_spot, place_home, place_main, place_rows, words_board};
use crate::laws::{law_color_name, law_parse_decimal, lemma_decimal};
use crate::text::{
    color_of_name, spec_parse_usize, color_name, decimal, is_digit, is_markup_word, not_markup, other_than, trimmed,
    without_word,
};
use vstd::prelude::*;

verus! {

/// The color whose pawns stand in row `ci` of a board.
pub open spec fn color_at(ci: int) -> Color {
    if ci == 0 {
        Color::Red
    } else if ci == 1 {
        Color::Blue
    } else if ci == 2 {
        Color::Yellow
    } else {
        Color::Green
    }
}

/// The location of pawn `p` (0 to 15): pawn `p % 4` of row `p / 4`.
pub open spec fn pawn_loc(b: BoardView, p: int) -> Loc {
    b[p / 4][p % 4]
}

/// The sections of a board message.
#[derive(Clone, Copy, Debug, PartialEq, Eq, Structural)]
pub enum Section {
    Start,
    Main,
    Rows,
    Home,
}

/// The section that lists a pawn at `l`: the nest in `start`, a spot of
/// the main ring (below 68) in `main`, another spot in `home-rows`, home
/// in `home`.
pub open spec fn section_of(l: Loc) -> Section {
    match l {
        Loc::Nest => Section::Start,
        Loc::Home => Section::Home,
        Loc::Spot { index } => if index < 68 {
            Section::Main
        } else {
            Section::Rows
        },
    }
}

/// The spot, in the numbering of the board messages, of our spot `k` for
/// a pawn of color `c`.
pub open spec fn message_spot(c: Color, k: int) -> int {
    if k < 68 {
        (k + 18) % 68
    } else {
        k - home_row(c)
    }
}

/// The words of a pawn.
pub open spec fn pawn_words(c: Color, id: int) -> Seq<Seq<char>> {
    seq!["pawn"@, "color"@, color_name(c), "id"@, decimal(id as nat)]
}

/// The words of a pawn standing on spot `r` of the messages' numbering.
pub open spec fn piece_loc_words(c: Color, id: int, r: int) -> Seq<Seq<char>> {
    seq!["piece-loc"@, "pawn"@, "color"@, color_name(c), "id"@, decimal(id as nat), "loc"@, decimal(r as nat)]
}

/// The words that section `sec` of the message of board `b` holds for
/// pawn `p`.
pub open spec fn group_words(b: BoardView, p: int, sec: Section) -> Seq<Seq<char>> {
    let c = color_at(p / 4);
    let l = pawn_loc(b, p);
    if section_of(l) != sec {
        seq![]
    } else {
        match l {
            Loc::Spot { index } => piece_loc_words(c, p % 4, message_spot(c, index as int)),
            _ => pawn_words(c, p % 4),
        }
    }
}

/// The words of section `sec` of the message of board `b`, for the pawns
/// from `p` on.
pub open spec fn section_words(b: BoardView, sec: Section, p: int) -> Seq<Seq<char>>
    decreases 16 - p,
{
    if p < 0 || p >= 16 {
        seq![]
    } else {
        group_words(b, p, sec) + section_words(b, sec, p + 1)
    }
}

/// The words of the message of board `b`: the `start`, `main`,
/// `home-rows` and `home` sections, in that order, each listing its pawns
/// by color and id.
pub open spec fn board_words(b: BoardView) -> Seq<Seq<char>> {
    seq!["start"@] + section_words(b, Section::Start, 0) + seq!["main"@] + section_words(
        b,
        Section::Main,
        0,
    ) + seq!["home-rows"@] + section_words(b, Section::Rows, 0) + seq!["home"@]
        + section_words(b, Section::Home, 0)
}

/// A board whose message can be written: four rows of four, and each
/// pawn on a spot of the main ring or at or past its home row.
pub open spec fn writable(b: BoardView) -> bool {
    &&& board_shaped(b)
    &&& forall|p: int|
        0 <= p < 16 ==> (#[trigger] pawn_loc(b, p) matches Loc::Spot { index } ==> index < 68
            || index >= home_row(color_at(p / 4)))
}

/// The words of a group once the markup words are dropped.
pub open spec fn clean_group(b: BoardView, p: int, sec: Section) -> Seq<Seq<char>> {
    let c = color_at(p / 4);
    let l = pawn_loc(b, p);
    if section_of(l) != sec {
        seq![]
    } else {
        match l {
            Loc::Spot { index } => seq![
                "piece-loc"@,
                color_name(c),
                decimal((p % 4) as nat),
                "loc"@,
                decimal(message_spot(c, index as int) as nat),
            ],
            _ => seq![color_name(c), decimal((p % 4) as nat)],
        }
    }
}

/// The words of a section once the markup words are dropped.
pub open spec fn clean_section(b: BoardView, sec: Section, p: int) -> Seq<Seq<char>>
    decreases 16 - p,
{
    if p < 0 || p >= 16 {
        seq![]
    } else {
        clean_group(b, p, sec) + clean_section(b, sec, p + 1)
    }
}

/// The words that can stand inside a section.
spec fn ordinary(w: Seq<char>) -> bool {
    ||| w == "pawn"@
    ||| w == "color"@
    ||| w == "id"@
    ||| w == "piece-loc"@
    ||| w == "loc"@
    ||| w == "red"@
    ||| w == "blue"@
    ||| w == "yellow"@
    ||| w == "green"@
    ||| (w.len() > 0 && is_digit(w[0]))
}

proof fn lemma_ordinary(w: Seq<char>)
    requires
        ordinary(w),
    ensures
        w != "start"@,
        w != "main"@,
        w != "home-rows"@,
        w != "home"@,
{
    reveal_strlit("pawn");
    reveal_strlit("color");
    reveal_strlit("id");
    reveal_strlit("piece-loc");
    reveal_strlit("loc");
    reveal_strlit("red");
    reveal_strlit("blue");
    reveal_strlit("yellow");
    reveal_strlit("green");
    reveal_strlit("start");
    reveal_strlit("main");
    reveal_strlit("home-rows");
    reveal_strlit("home");
    if w.len() > 0 && is_digit(w[0]) {
        assert(w[0] != "start"@[0]);
        assert(w[0] != "main"@[0]);
        assert(w[0] != "home-rows"@[0]);
        assert(w[0] != "home"@[0]);
    }
}

proof fn lemma_decimal_ordinary(n: nat)
    ensures
        ordinary(decimal(n)),
        !is_markup_word(decimal(n)),
        decimal(n) != "home-rows"@,
{
    lemma_decimal(n);
    reveal_strlit("id");
    reveal_strlit("color");
    reveal_strlit("pawn");
    reveal_strlit("home-rows");
    assert(is_digit(decimal(n)[0]));
    assert(decimal(n)[0] != "id"@[0]);
    assert(decimal(n)[0] != "color"@[0]);
    assert(decimal(n)[0] != "pawn"@[0]);
    assert(decimal(n)[0] != "home-rows"@[0]);
}

proof fn lemma_color_name_ordinary(c: Color)
    ensures
        ordinary(color_name(c)),
        !is_markup_word(color_name(c)),
        color_name(c) != "home-rows"@,
{
    reveal_strlit("red");
    reveal_strlit("blue");
    reveal_strlit("yellow");
    reveal_strlit("green");
    reveal_strlit("id");
    reveal_strlit("color");
    reveal_strlit("pawn");
    reveal_strlit("home-rows");
    assert(color_name(c)[0] != "id"@[0]);
    assert(color_name(c)[0] != "pawn"@[0]);
    assert(color_name(c)[0] != "home-rows"@[0]);
    assert(color_name(c) != "color"@) by {
        if color_name(c).len() == "color"@.len() {
            assert(color_name(c)[0] != "color"@[0]);
        }
    }
}

proof fn lemma_filter_single(x: Seq<char>, pred: spec_fn(Seq<char>) -> bool)
    ensures
        seq![x].filter(pred) == (if pred(x) {
            seq![x]
        } else {
            seq![]
        }),
{
    reveal_with_fuel(Seq::filter, 2);
    assert(seq![x].drop_last() =~= Seq::<Seq<char>>::empty());
}

proof fn lemma_filter_all(s: Seq<Seq<char>>, pred: spec_fn(Seq<char>) -> bool)
    requires
        forall|i: int| 0 <= i < s.len() ==> pred(#[trigger] s[i]),
    ensures
        s.filter(pred) == s,
    decreases s.len(),
{
    reveal_with_fuel(Seq::filter, 1);
    if s.len() > 0 {
        lemma_filter_all(s.drop_last(), pred);
        assert(s.drop_last().push(s.last()) =~= s);
    }
}

proof fn lemma_filter_push(s: Seq<Seq<char>>, x: Seq<char>, pred: spec_fn(Seq<char>) -> bool)
    ensures
        s.push(x).filter(pred) == (if pred(x) {
            s.filter(pred).push(x)
        } else {
            s.filter(pred)
        }),
{
    reveal_with_fuel(Seq::filter, 1);
    assert(s.push(x).drop_last() =~= s);
}

proof fn lemma_trim_group(b: BoardView, p: int, sec: Section)
    ensures
        trimmed(group_words(b, p, sec)) == clean_group(b, p, sec),
{
    let c = color_at(p / 4);
    let l = pawn_loc(b, p);
    let e = Seq::<Seq<char>>::empty();
    reveal_with_fuel(Seq::filter, 1);
    reveal_strlit("pawn");
    reveal_strlit("color");
    reveal_strlit("id");
    reveal_strlit("piece-loc");
    reveal_strlit("loc");
    lemma_color_name_ordinary(c);
    lemma_decimal_ordinary((p % 4) as nat);
    let nm = color_name(c);
    let di = decimal((p % 4) as nat);
    let f = not_markup();
    if section_of(l) == sec {
        match l {
            Loc::Spot { index } => {
                let dr = decimal(message_spot(c, index as int) as nat);
                lemma_decimal_ordinary(message_spot(c, index as int) as nat);
                lemma_filter_push(e, "piece-loc"@, f);
                lemma_filter_push(e.push("piece-loc"@), "pawn"@, f);
                lemma_filter_push(e.push("piece-loc"@).push("pawn"@), "color"@, f);
                lemma_filter_push(e.push("piece-loc"@).push("pawn"@).push("color"@), nm, f);
                lemma_filter_push(e.push("piece-loc"@).push("pawn"@).push("color"@).push(nm), "id"@, f);
                lemma_filter_push(
                    e.push("piece-loc"@).push("pawn"@).push("color"@).push(nm).push("id"@),
                    di,
                    f,
                );
                lemma_filter_push(
                    e.push("piece-loc"@).push("pawn"@).push("color"@).push(nm).push("id"@).push(di),
                    "loc"@,
                    f,
                );
                lemma_filter_push(
                    e.push("piece-loc"@).push("pawn"@).push("color"@).push(nm).push("id"@).push(
                        di,
                    ).push("loc"@),
                    dr,
                    f,
                );
                assert("piece-loc"@.len() == 9 && "loc"@.len() == 3 && "id"@.len() == 2
                    && "color"@.len() == 5 && "pawn"@.len() == 4);
                assert(!is_markup_word("piece-loc"@));
                assert(!is_markup_word("loc"@));
                assert(f("piece-loc"@));
                assert(f("loc"@));
                assert(!f("pawn"@));
                assert(!f("color"@));
                assert(!f("id"@));
                assert(f(nm));
                assert(f(di));
                assert(f(dr));
                assert(e.filter(f) =~= e);
                assert(group_words(b, p, sec) =~= e.push("piece-loc"@).push("pawn"@).push(
                    "color"@,
                ).push(nm).push("id"@).push(di).push("loc"@).push(dr));
                assert(trimmed(group_words(b, p, sec)) =~= clean_group(b, p, sec));
            },
            _ => {
                lemma_filter_push(e, "pawn"@, f);
                lemma_filter_push(e.push("pawn"@), "color"@, f);
                lemma_filter_push(e.push("pawn"@).push("color"@), nm, f);
                lemma_filter_push(e.push("pawn"@).push("color"@).push(nm), "id"@, f);
                lemma_filter_push(e.push("pawn"@).push("color"@).push(nm).push("id"@), di, f);
                assert(!f("pawn"@));
                assert(!f("color"@));
                assert(!f("id"@));
                assert(f(nm));
                assert(f(di));
                assert(e.filter(f) =~= e);
                assert(group_words(b, p, sec) =~= e.push("pawn"@).push("color"@).push(nm).push(
                    "id"@,
                ).push(di));
                assert(trimmed(group_words(b, p, sec)) =~= clean_group(b, p, sec));
            },
        }
    } else {
        assert(group_words(b, p, sec) =~= e);
    }
}

proof fn lemma_trim_section(b: BoardView, sec: Section, p: int)
    ensures
        trimmed(section_words(b, sec, p)) == clean_section(b, sec, p),
    decreases 16 - p,
{
    reveal_with_fuel(Seq::filter, 1);
    if 0 <= p < 16 {
        lemma_trim_section(b, sec, p + 1);
        lemma_trim_group(b, p, sec);
        Seq::filter_distributes_over_add(group_words(b, p, sec), section_words(b, sec, p + 1), not_markup());
    }
}

proof fn lemma_group_ordinary(b: BoardView, p: int, sec: Section)
    ensures
        forall|j: int| 0 <= j < group_words(b, p, sec).len() ==> ordinary(#[trigger] group_words(b, p, sec)[j]),
        forall|j: int| 0 <= j < clean_group(b, p, sec).len() ==> ordinary(#[trigger] clean_group(b, p, sec)[j]),
{
    let c = color_at(p / 4);
    lemma_color_name_ordinary(c);
    lemma_decimal_ordinary((p % 4) as nat);
    if let Loc::Spot { index } = pawn_loc(b, p) {
        lemma_decimal_ordinary(message_spot(c, index as int) as nat);
    }
}

proof fn lemma_section_ordinary(b: BoardView, sec: Section, p: int)
    ensures
        forall|j: int| 0 <= j < section_words(b, sec, p).len() ==> ordinary(#[trigger] section_words(b, sec, p)[j]),
        forall|j: int| 0 <= j < clean_section(b, sec, p).len() ==> ordinary(#[trigger] clean_section(b, sec, p)[j]),
    decreases 16 - p,
{
    if 0 <= p < 16 {
        lemma_section_ordinary(b, sec, p + 1);
        lemma_group_ordinary(b, p, sec);
        let g = group_words(b, p, sec);
        let r = section_words(b, sec, p + 1);
        assert forall|j: int| 0 <= j < (g + r).len() implies ordinary(#[trigger] (g + r)[j]) by {
            if j >= g.len() {
                assert((g + r)[j] == r[j - g.len()]);
            }
        }
        let cg = clean_group(b, p, sec);
        let cr = clean_section(b, sec, p + 1);
        assert forall|j: int| 0 <= j < (cg + cr).len() implies ordinary(#[trigger] (cg + cr)[j]) by {
            if j >= cg.len() {
                assert((cg + cr)[j] == cr[j - cg.len()]);
            }
        }
    }
}

proof fn lemma_first_from_at(t: Seq<Seq<char>>, w: Seq<char>, i: int, k: int)
    requires
        0 <= i <= k < t.len(),
        t[k] == w,
        forall|j: int| i <= j < k ==> t[j] != w,
    ensures
        first_from(t, w, i) == Some(k),
    decreases k - i,
{
    if i < k {
        lemma_first_from_at(t, w, i + 1, k);
    }
}

proof fn lemma_place_main_shift(b: BoardView, p: Seq<Seq<char>>, r: Seq<Seq<char>>, j: int)
    requires
        0 <= j,
    ensures
        place_main(b, p + r, p.len() + j) == place_main(b, r, j),
    decreases r.len() - j,
{
    let t = p + r;
    let i = p.len() + j;
    if j < r.len() {
        assert(t[i] == r[j]);
        if j + 4 < r.len() {
            assert(t[i + 1] == r[j + 1]);
            assert(t[i + 2] == r[j + 2]);
            assert(t[i + 3] == r[j + 3]);
            assert(t[i + 4] == r[j + 4]);
            if let (Some(c), Some(id), Some(x)) = (
                color_of_name(r[j + 1]),
                spec_parse_usize(r[j + 2]),
                spec_parse_usize(r[j + 4]),
            ) {
                let b2 = with_loc(b, c, id as int, Loc::Spot { index: main_ring_spot(x as int) as usize });
                lemma_place_main_shift(b2, p, r, j + 5);
            }
        }
    }
}

proof fn lemma_place_rows_shift(b: BoardView, p: Seq<Seq<char>>, r: Seq<Seq<char>>, j: int)
    requires
        0 <= j,
    ensures
        place_rows(b, p + r, p.len() + j) == place_rows(b, r, j),
    decreases r.len() - j,
{
    let t = p + r;
    let i = p.len() + j;
    if j < r.len() {
        assert(t[i] == r[j]);
        if j + 4 < r.len() {
            assert(t[i + 1] == r[j + 1]);
            assert(t[i + 2] == r[j + 2]);
            assert(t[i + 3] == r[j + 3]);
            assert(t[i + 4] == r[j + 4]);
            if let (Some(c), Some(id), Some(x)) = (
                color_of_name(r[j + 1]),
                spec_parse_usize(r[j + 2]),
                spec_parse_usize(r[j + 4]),
            ) {
                let b2 = with_loc(b, c, id as int, Loc::Spot { index: (x + home_row(c)) as usize });
                lemma_place_rows_shift(b2, p, r, j + 5);
            }
        }
    }
}

proof fn lemma_place_home_shift(b: BoardView, p: Seq<Seq<char>>, r: Seq<Seq<char>>, j: int)
    requires
        0 <= j,
    ensures
        place_home(b, p + r, p.len() + j) == place_home(b, r, j),
    decreases r.len() - j,
{
    let t = p + r;
    let i = p.len() + j;
    if j < r.len() {
        assert(t[i] == r[j]);
        if j + 1 < r.len() {
            assert(t[i + 1] == r[j + 1]);
            if let (Some(c), Some(id)) = (color_of_name(r[j]), spec_parse_usize(r[j + 1])) {
                lemma_place_home_shift(with_loc(b, c, id as int, Loc::Home), p, r, j + 2);
            }
        }
    }
}

/// `b0` with the pawns that section `sec` of the message of `b` lists,
/// from pawn `p` on, placed where `b` has them.
pub open spec fn overlay(b0: BoardView, b: BoardView, sec: Section, p: int) -> BoardView
    decreases 16 - p,
{
    if p < 0 || p >= 16 {
        b0
    } else {
        let next = if section_of(pawn_loc(b, p)) == sec {
            with_loc(b0, color_at(p / 4), p % 4, pawn_loc(b, p))
        } else {
            b0
        };
        overlay(next, b, sec, p + 1)
    }
}

proof fn lemma_overlay(b0: BoardView, b: BoardView, sec: Section, p: int)
    requires
        board_shaped(b0),
        0 <= p <= 16,
    ensures
        board_shaped(overlay(b0, b, sec, p)),
        forall|q: int|
            0 <= q < 16 ==> #[trigger] pawn_loc(overlay(b0, b, sec, p), q) == (if p <= q
                && section_of(pawn_loc(b, q)) == sec {
                pawn_loc(b, q)
            } else {
                pawn_loc(b0, q)
            }),
    decreases 16 - p,
{
    if p < 16 {
        let next = if section_of(pawn_loc(b, p)) == sec {
            with_loc(b0, color_at(p / 4), p % 4, pawn_loc(b, p))
        } else {
            b0
        };
        assert(color_index(color_at(p / 4)) == p / 4);
        assert(board_shaped(next));
        assert forall|q: int| 0 <= q < 16 implies #[trigger] pawn_loc(next, q) == (if q == p
            && section_of(pawn_loc(b, q)) == sec {
            pawn_loc(b, q)
        } else {
            pawn_loc(b0, q)
        }) by {
            assert(q == 4 * (q / 4) + q % 4);
            assert(p == 4 * (p / 4) + p % 4);
        }
        lemma_overlay(next, b, sec, p + 1);
    }
}

proof fn lemma_spot_parse(x: int)
    requires
        0 <= x <= usize::MAX,
    ensures
        spec_parse_usize(decimal(x as nat)) == Some(x as usize),
{
    law_parse_decimal(x as usize);
}

proof fn lemma_place_main_section(b0: BoardView, b: BoardView, p: int)
    requires
        writable(b),
        0 <= p <= 16,
    ensures
        place_main(b0, clean_section(b, Section::Main, p), 0) == Some(overlay(b0, b, Section::Main, p)),
    decreases 16 - p,
{
    reveal_strlit("piece-loc");
    reveal_strlit("loc");
    if p < 16 {
        let g = clean_group(b, p, Section::Main);
        let r = clean_section(b, Section::Main, p + 1);
        let c = color_at(p / 4);
        let l = pawn_loc(b, p);
        if section_of(l) == Section::Main {
            if let Loc::Spot { index } = l {
                let k = index as int;
                let x = message_spot(c, k);
                let b1 = with_loc(b0, c, p % 4, l);
                law_color_name(c);
                lemma_spot_parse(p % 4);
                lemma_spot_parse(x);
                assert(main_ring_spot(x) == k);
                let t = g + r;
                assert(t[0] == "piece-loc"@);
                assert(t[1] == color_name(c));
                assert(t[2] == decimal((p % 4) as nat));
                assert(t[3] == "loc"@);
                assert(t[4] == decimal(x as nat));
                lemma_place_main_shift(b1, g, r, 0);
                lemma_place_main_section(b1, b, p + 1);
                assert(place_main(b0, t, 0) == place_main(b1, t, 5));
            }
        } else {
            assert(g + r =~= r);
            lemma_place_main_section(b0, b, p + 1);
        }
    }
}

proof fn lemma_place_rows_section(b0: BoardView, b: BoardView, p: int)
    requires
        writable(b),
        0 <= p <= 16,
    ensures
        place_rows(b0, clean_section(b, Section::Rows, p), 0) == Some(overlay(b0, b, Section::Rows, p)),
    decreases 16 - p,
{
    reveal_strlit("piece-loc");
    reveal_strlit("loc");
    if p < 16 {
        let g = clean_group(b, p, Section::Rows);
        let r = clean_section(b, Section::Rows, p + 1);
        let c = color_at(p / 4);
        let l = pawn_loc(b, p);
        if section_of(l) == Section::Rows {
            if let Loc::Spot { index } = l {
                let k = index as int;
                let x = message_spot(c, k);
                let b1 = with_loc(b0, c, p % 4, l);
                assert(k >= home_row(c));
                law_color_name(c);
                lemma_spot_parse(p % 4);
                lemma_spot_parse(x);
                let t = g + r;
                assert(t[0] == "piece-loc"@);
                assert(t[1] == color_name(c));
                assert(t[2] == decimal((p % 4) as nat));
                assert(t[3] == "loc"@);
                assert(t[4] == decimal(x as nat));
                lemma_place_rows_shift(b1, g, r, 0);
                lemma_place_rows_section(b1, b, p + 1);
                assert(place_rows(b0, t, 0) == place_rows(b1, t, 5));
            }
        } else {
            assert(g + r =~= r);
            lemma_place_rows_section(b0, b, p + 1);
        }
    }
}

proof fn lemma_place_home_section(b0: BoardView, b: BoardView, p: int)
    requires
        writable(b),
        0 <= p <= 16,
    ensures
        place_home(b0, clean_section(b, Section::Home, p), 0) == Some(overlay(b0, b, Section::Home, p)),
    decreases 16 - p,
{
    if p < 16 {
        let g = clean_group(b, p, Section::Home);
        let r = clean_section(b, Section::Home, p + 1);
        let c = color_at(p / 4);
        let l = pawn_loc(b, p);
        if section_of(l) == Section::Home {
            let b1 = with_loc(b0, c, p % 4, Loc::Home);
            law_color_name(c);
            lemma_spot_parse(p % 4);
            let t = g + r;
            assert(t[0] == color_name(c));
            assert(t[1] == decimal((p % 4) as nat));
            lemma_place_home_shift(b1, g, r, 0);
            lemma_place_home_section(b1, b, p + 1);
            assert(place_home(b0, t, 0) == place_home(b1, t, 2));
        } else {
            assert(g + r =~= r);
            lemma_place_home_section(b0, b, p + 1);
        }
    }
}

proof fn lemma_markers()
    ensures
        !is_markup_word("main"@),
        !is_markup_word("home-rows"@),
        !is_markup_word("home"@),
        "start"@ != "main"@,
        "start"@ != "home"@,
        "main"@ != "home"@,
        "home-rows"@ != "home"@,
        "main"@ != "home-rows"@,
{
    reveal_strlit("start");
    reveal_strlit("main");
    reveal_strlit("home-rows");
    reveal_strlit("home");
    reveal_strlit("id");
    reveal_strlit("color");
    reveal_strlit("pawn");
    assert("home-rows"@.len() == 9 && "home"@.len() == 4 && "id"@.len() == 2
        && "color"@.len() == 5 && "pawn"@.len() == 4);
    assert("main"@[0] != "pawn"@[0]);
    assert("home"@[0] != "pawn"@[0]);
    assert("start"@[0] != "main"@[0]);
    assert("main"@[0] != "home"@[0]);
}

/// A board whose message can be written reads back, from the words of
/// that message (markup words included), as that board.
pub proof fn law_board_words(b: BoardView)
    requires
        writable(b),
    ensures
        words_board(board_words(b)) == Some(b),
{
    let st = section_words(b, Section::Start, 0);
    let m = section_words(b, Section::Main, 0);
    let r = section_words(b, Section::Rows, 0);
    let h = section_words(b, Section::Home, 0);
    let w = board_words(b);
    let s_at: int = 1 + st.len() as int;
    let a_at: int = s_at + 1 + m.len() as int;
    let h_at: int = a_at + 1 + r.len() as int;
    lemma_markers();
    lemma_section_ordinary(b, Section::Start, 0);
    lemma_section_ordinary(b, Section::Main, 0);
    lemma_section_ordinary(b, Section::Rows, 0);
    lemma_section_ordinary(b, Section::Home, 0);
    assert(w.len() == h_at + 1 + h.len());
    assert(w[0] == "start"@);
    assert(w[s_at] == "main"@);
    assert(w[a_at] == "home-rows"@);
    assert(w[h_at] == "home"@);
    assert forall|j: int| 1 <= j < s_at implies #[trigger] w[j] == st[j - 1] by {}
    assert forall|j: int| s_at < j < a_at implies #[trigger] w[j] == m[j - s_at - 1] by {}
    assert forall|j: int| a_at < j < h_at implies #[trigger] w[j] == r[j - a_at - 1] by {}
    assert forall|j: int| 0 <= j < h_at implies #[trigger] w[j] != "home"@ by {
        if 1 <= j < s_at {
            lemma_ordinary(st[j - 1]);
        } else if s_at < j < a_at {
            lemma_ordinary(m[j - s_at - 1]);
        } else if a_at < j < h_at {
            lemma_ordinary(r[j - a_at - 1]);
        }
    }
    assert forall|j: int| 0 <= j < s_at implies #[trigger] w[j] != "main"@ by {
        if 1 <= j {
            lemma_ordinary(st[j - 1]);
        }
    }
    assert forall|j: int| s_at <= j < a_at implies #[trigger] w[j] != "home-rows"@ by {
        if s_at < j {
            lemma_ordinary(m[j - s_at - 1]);
        }
    }
    lemma_first_from_at(w, "main"@, 0, s_at);
    lemma_first_from_at(w, "home"@, 0, h_at);
    lemma_first_from_at(w, "home-rows"@, s_at, a_at);
    lemma_first_from_at(w, "home"@, a_at, h_at);

    // The three sections once their markup words are dropped.
    let cm = clean_section(b, Section::Main, 0);
    let cr = clean_section(b, Section::Rows, 0);
    let ch = clean_section(b, Section::Home, 0);
    lemma_trim_section(b, Section::Main, 0);
    lemma_trim_section(b, Section::Rows, 0);
    lemma_trim_section(b, Section::Home, 0);
    assert(w.subrange(s_at, a_at) =~= seq!["main"@] + m);
    assert(w.subrange(a_at, h_at) =~= seq!["home-rows"@] + r);
    assert(w.subrange(h_at, w.len() as int) =~= seq!["home"@] + h);
    Seq::filter_distributes_over_add(seq!["main"@], m, not_markup());
    Seq::filter_distributes_over_add(seq!["home-rows"@], r, not_markup());
    Seq::filter_distributes_over_add(seq!["home"@], h, not_markup());
    lemma_filter_single("main"@, not_markup());
    lemma_filter_single("home-rows"@, not_markup());
    lemma_filter_single("home"@, not_markup());
    let main_t = trimmed(w.subrange(s_at, a_at));
    let home_t = trimmed(w.subrange(h_at, w.len() as int));
    assert(main_t == seq!["main"@] + cm);
    assert(home_t == seq!["home"@] + ch);
    let rows_t = without_word(trimmed(w.subrange(a_at, h_at)), "home-rows"@);
    assert(trimmed(w.subrange(a_at, h_at)) == seq!["home-rows"@] + cr);
    Seq::filter_distributes_over_add(seq!["home-rows"@], cr, other_than("home-rows"@));
    lemma_filter_single("home-rows"@, other_than("home-rows"@));
    assert forall|j: int| 0 <= j < cr.len() implies #[trigger] other_than("home-rows"@)(cr[j]) by {
        lemma_ordinary(cr[j]);
    }
    lemma_filter_all(cr, other_than("home-rows"@));
    assert(rows_t =~= cr);

    // Placing the pawns section by section.
    let b1 = overlay(start_board(), b, Section::Main, 0);
    let b2 = overlay(b1, b, Section::Rows, 0);
    let b3 = overlay(b2, b, Section::Home, 0);
    lemma_place_main_shift(start_board(), seq!["main"@], cm, 0);
    lemma_place_main_section(start_board(), b, 0);
    lemma_place_rows_section(b1, b, 0);
    lemma_place_home_shift(b2, seq!["home"@], ch, 0);
    lemma_place_home_section(b2, b, 0);
    assert(place_main(start_board(), main_t, 1) == Some(b1));
    assert(place_home(b2, home_t, 1) == Some(b3));

    // The board placed is `b`.
    assert(board_shaped(start_board()));
    lemma_overlay(start_board(), b, Section::Main, 0);
    lemma_overlay(b1, b, Section::Rows, 0);
    lemma_overlay(b2, b, Section::Home, 0);
    assert forall|ci: int, i: int| 0 <= ci < 4 && 0 <= i < 4 implies #[trigger] b3[ci][i] == b[ci][i] by {
        let q = 4 * ci + i;
        assert(q / 4 == ci && q % 4 == i);
        assert(pawn_loc(b3, q) == b3[ci][i]);
        assert(pawn_loc(b, q) == b[ci][i]);
        if section_of(b[ci][i]) == Section::Start {
            assert(b[ci][i] == Loc::Nest);
        }
    }
    assert(b3 =~~= b);
    assert(words_board(w) == Some(b3));
}

} // verus!
