//! What holds of the decoding as a whole.

use crate::board::{Color, Move, MoveType};
use crate::deserialize::{moves_from, push_move, words_moves, words_numbers};
use crate::text::{
    ascii_lower, ascii_lower_char, color_name, color_of_name, decimal, digit_char, digit_value,
    digits_value, is_digit, is_markup_word, spec_parse_usize, trimmed, unsigned_digits,
};
use vstd::prelude::*;

verus! {

/// The decimal writing of a number is digits, at least one, of its value.
pub proof fn lemma_decimal(n: nat)
    ensures
        decimal(n).len() > 0,
        forall|i: int| 0 <= i < decimal(n).len() ==> is_digit(#[trigger] decimal(n)[i]),
        decimal(n)[0] != '+',
        digits_value(decimal(n)) == n,
    decreases n,
{
    if n < 10 {
        assert(digit_char(n) as u32 == 48 + n);
        assert(decimal(n).drop_last() =~= Seq::<char>::empty());
        assert(digits_value(decimal(n)) == digits_value(decimal(n).drop_last()) * 10 + digit_value(decimal(n).last()));
    } else {
        lemma_decimal(n / 10);
        let d = decimal(n);
        assert(d.drop_last() =~= decimal(n / 10));
        assert(digit_char(n % 10) as u32 == 48 + n % 10);
        assert(digit_value(d.last()) == n % 10);
        assert((n / 10) * 10 + n % 10 == n) by (nonlinear_arith);
        assert(digits_value(d) == digits_value(decimal(n / 10)) * 10 + digit_value(d.last()));
        assert forall|i: int| 0 <= i < d.len() implies is_digit(#[trigger] d[i]) by {
            if i < d.len() - 1 {
                assert(d[i] == decimal(n / 10)[i]);
            }
        }
    }
}

/// Reading a number back from its decimal writing gives the number.
pub proof fn law_parse_decimal(n: usize)
    ensures
        spec_parse_usize(decimal(n as nat)) == Some(n),
{
    lemma_decimal(n as nat);
    assert(unsigned_digits(decimal(n as nat)) == decimal(n as nat));
}

/// A color's name names that color.
pub proof fn law_color_name(c: Color)
    ensures
        color_of_name(color_name(c)) == Some(c),
{
    reveal_strlit("red");
    reveal_strlit("blue");
    reveal_strlit("yellow");
    reveal_strlit("green");
    assert(ascii_lower(color_name(c)) =~= color_name(c));
}

/// Color names are read without regard to case: a name and its small
/// letter writing name the same color.
pub proof fn law_color_case(s: Seq<char>)
    ensures
        color_of_name(ascii_lower(s)) == color_of_name(s),
{
    assert(ascii_lower(ascii_lower(s)) =~= ascii_lower(s)) by {
        assert forall|i: int| 0 <= i < s.len() implies #[trigger] ascii_lower_char(
            ascii_lower_char(s[i]),
        ) == ascii_lower_char(s[i]) by {
            let c = s[i];
            if 'A' <= c && c <= 'Z' {
                assert(((c as u32) + 32) as char as u32 == (c as u32) + 32);
            }
        }
    }
}

/// The words of one move: its tag, the pawn's color name and id, and but
/// for `enter-piece` the start and the distance, numbers in decimal.
pub open spec fn move_words(m: Move) -> Seq<Seq<char>> {
    match m.m_type {
        MoveType::EnterPiece => seq![
            "enter-piece"@,
            color_name(m.pawn.color),
            decimal(m.pawn.id as nat),
        ],
        MoveType::MoveHome { start, distance } => seq![
            "move-piece-home"@,
            color_name(m.pawn.color),
            decimal(m.pawn.id as nat),
            decimal(start as nat),
            decimal(distance as nat),
        ],
        MoveType::MoveMain { start, distance } => seq![
            "move-piece-main"@,
            color_name(m.pawn.color),
            decimal(m.pawn.id as nat),
            decimal(start as nat),
            decimal(distance as nat),
        ],
    }
}

/// The words of a sequence of moves, one move after the other.
pub open spec fn moves_words(ms: Seq<Move>) -> Seq<Seq<char>>
    decreases ms.len(),
{
    if ms.len() == 0 {
        seq![]
    } else {
        move_words(ms[0]) + moves_words(ms.drop_first())
    }
}

proof fn lemma_moves_from_shift(p: Seq<Seq<char>>, r: Seq<Seq<char>>, j: int)
    requires
        0 <= j,
    ensures
        moves_from(p + r, p.len() + j) == moves_from(r, j),
    decreases r.len() - j,
{
    let t = p + r;
    let i = p.len() + j;
    if j < r.len() {
        assert(t[i] == r[j]);
        if j + 1 < r.len() {
            assert(t[i + 1] == r[j + 1]);
        }
        if j + 2 < r.len() {
            assert(t[i + 2] == r[j + 2]);
        }
        if j + 3 < r.len() {
            assert(t[i + 3] == r[j + 3]);
        }
        if j + 4 < r.len() {
            assert(t[i + 4] == r[j + 4]);
        }
        if j + 3 <= r.len() {
            lemma_moves_from_shift(p, r, j + 3);
        }
        if j + 5 <= r.len() {
            lemma_moves_from_shift(p, r, j + 5);
        }
    }
}

/// The moves read from the words of a sequence of moves are those moves.
pub proof fn law_moves_words(ms: Seq<Move>)
    ensures
        words_moves(moves_words(ms)) == Some(ms),
    decreases ms.len(),
{
    reveal_strlit("enter-piece");
    reveal_strlit("move-piece-home");
    reveal_strlit("move-piece-main");
    if ms.len() == 0 {
    } else {
        let m = ms[0];
        let w = move_words(m);
        let rest = moves_words(ms.drop_first());
        law_moves_words(ms.drop_first());
        law_color_name(m.pawn.color);
        law_parse_decimal(m.pawn.id);
        lemma_moves_from_shift(w, rest, 0);
        let t = w + rest;
        assert(t[0] == w[0]);
        assert(t[1] == w[1]);
        assert(t[2] == w[2]);
        match m.m_type {
            MoveType::EnterPiece => {
                assert(t[0] == "enter-piece"@);
                assert(moves_from(t, 0) == push_move(m, moves_from(t, 3)));
            },
            MoveType::MoveHome { start, distance } => {
                law_parse_decimal(start);
                law_parse_decimal(distance);
                assert(t[3] == w[3]);
                assert(t[4] == w[4]);
                assert(t[0] != "enter-piece"@);
                assert(moves_from(t, 0) == push_move(m, moves_from(t, 5)));
            },
            MoveType::MoveMain { start, distance } => {
                law_parse_decimal(start);
                law_parse_decimal(distance);
                assert(t[3] == w[3]);
                assert(t[4] == w[4]);
                assert(t[0] != "enter-piece"@);
                assert("move-piece-main"@[11] != "move-piece-home"@[11]);
                assert(t[0] != "move-piece-home"@);
                assert(moves_from(t, 0) == push_move(m, moves_from(t, 5)));
            },
        }
        assert(seq![m] + ms.drop_first() =~= ms);
    }
}

/// The numbers read from the decimal writings of numbers are those numbers.
pub proof fn law_numbers_words(ns: Seq<usize>)
    ensures
        words_numbers(ns.map_values(|n: usize| decimal(n as nat))) == Some(ns),
    decreases ns.len(),
{
    let t = ns.map_values(|n: usize| decimal(n as nat));
    if ns.len() > 0 {
        law_numbers_words(ns.drop_last());
        assert(t.drop_last() =~= ns.drop_last().map_values(|n: usize| decimal(n as nat)));
        law_parse_decimal(ns.last());
        assert(ns.drop_last().push(ns.last()) =~= ns);
    } else {
        assert(t =~= Seq::<Seq<char>>::empty());
    }
}

/// Dropping the markup words leaves no markup word, and dropping them
/// again changes nothing.
pub proof fn law_trimmed(t: Seq<Seq<char>>)
    ensures
        forall|i: int| 0 <= i < trimmed(t).len() ==> !is_markup_word(#[trigger] trimmed(t)[i]),
        trimmed(trimmed(t)) == trimmed(t),
    decreases t.len(),
{
    reveal_with_fuel(Seq::filter, 1);
    if t.len() > 0 {
        law_trimmed(t.drop_last());
        let r = trimmed(t.drop_last());
        if !is_markup_word(t.last()) {
            assert(r.push(t.last()).drop_last() =~= r);
        }
    }
}

} // verus!
