//! What holds of whole messages: the values a message sends are those its
//! words describe, the words of consecutive parts follow one another, and
//! a request is decided by the first event alone.

use crate::board::{BoardView, Color, Move};
use crate::board_laws::{board_words, law_board_words, writable};
use crate::deserialize::{
    collect_from, first_event, message_board, message_color, message_events, message_moves,
    message_request, message_rolls, message_words, push_front, request_of, start_color,
    tag_action, words_numbers, Collect, TagAction, XmlMessage,
};
use crate::laws::{law_moves_words, law_numbers_words, moves_words};
use crate::text::{ascii_bytes, color_name, decimal, spec_parse_usize};
use crate::xml::XmlEventView;
use vstd::prelude::*;

verus! {

/// The words `a` followed by the words `b`, where both are there.
pub open spec fn join_words(a: Option<Seq<Seq<char>>>, b: Option<Seq<Seq<char>>>) -> Option<
    Seq<Seq<char>>,
> {
    match (a, b) {
        (Some(x), Some(y)) => Some(x + y),
        _ => None,
    }
}

/// Whether the events `e` go on to what follows them in collection
/// `mode`: none ends the stream, fails, or is a tag that ends the
/// collection.
pub open spec fn passes_on(e: Seq<XmlEventView>, mode: Collect) -> bool {
    forall|j: int|
        0 <= j < e.len() ==> match #[trigger] e[j] {
            XmlEventView::Eof => false,
            XmlEventView::Failed => false,
            XmlEventView::Start { name, .. } => tag_action(mode, name) != TagAction::Stop,
            _ => true,
        }
}

proof fn lemma_collect_shift(
    p: Seq<XmlEventView>,
    r: Seq<XmlEventView>,
    j: int,
    mode: Collect,
    seen: bool,
)
    requires
        0 <= j,
    ensures
        collect_from(p + r, p.len() + j, mode, seen) == collect_from(r, j, mode, seen),
    decreases r.len() - j,
{
    if j < r.len() {
        assert((p + r)[p.len() + j] == r[j]);
        lemma_collect_shift(p, r, j + 1, mode, seen);
        lemma_collect_shift(p, r, j + 1, mode, true);
    }
}

proof fn lemma_collect_concat_from(
    e1: Seq<XmlEventView>,
    e2: Seq<XmlEventView>,
    i: int,
    mode: Collect,
    seen: bool,
)
    requires
        mode != Collect::DiceTexts,
        passes_on(e1, mode),
        0 <= i <= e1.len(),
    ensures
        collect_from(e1 + e2, i, mode, seen) == join_words(
            collect_from(e1, i, mode, seen),
            collect_from(e2, 0, mode, seen),
        ),
    decreases e1.len() - i,
{
    if i == e1.len() {
        lemma_collect_shift(e1, e2, 0, mode, seen);
        if let Some(y) = collect_from(e2, 0, mode, seen) {
            assert(Seq::<Seq<char>>::empty() + y =~= y);
        }
    } else {
        assert((e1 + e2)[i] == e1[i]);
        let ev = e1[i];
        lemma_collect_concat_from(e1, e2, i + 1, mode, seen);
        let a = collect_from(e1, i + 1, mode, seen);
        let b = collect_from(e2, 0, mode, seen);
        match ev {
            XmlEventView::Text { text } => {
                if let (Some(w), Some(x), Some(y)) = (text, a, b) {
                    assert(seq![w] + (x + y) =~= (seq![w] + x) + y);
                }
            },
            XmlEventView::Start { name, text } => {
                if let (Some(w), Some(x), Some(y)) = (text, a, b) {
                    assert(seq![w] + (x + y) =~= (seq![w] + x) + y);
                }
            },
            _ => {},
        }
    }
}

/// The words collected from two parts of a stream, the first of which
/// goes on to the second, are the words of the first followed by those of
/// the second: every move tag and every text is collected, whatever came
/// before it.
pub proof fn law_collect_concat(e1: Seq<XmlEventView>, e2: Seq<XmlEventView>, mode: Collect)
    requires
        mode != Collect::DiceTexts,
        passes_on(e1, mode),
    ensures
        collect_from(e1 + e2, 0, mode, false) == join_words(
            collect_from(e1, 0, mode, false),
            collect_from(e2, 0, mode, false),
        ),
{
    lemma_collect_concat_from(e1, e2, 0, mode, false);
}

/// A move tag whose content decodes is collected, in front of the words
/// that follow it, wherever it stands.
pub proof fn law_move_tag_collected(
    evs: Seq<XmlEventView>,
    i: int,
    name: Seq<u8>,
    w: Seq<char>,
    seen: bool,
)
    requires
        0 <= i < evs.len(),
        evs[i] == (XmlEventView::Start { name: name, text: Some(w) }),
        name == ascii_bytes("enter-piece"@) || name == ascii_bytes("move-piece-home"@) || name
            == ascii_bytes("move-piece-main"@),
    ensures
        collect_from(evs, i, Collect::MoveTags, seen) == push_front(
            Some(w),
            collect_from(evs, i + 1, Collect::MoveTags, false),
        ),
        collect_from(evs, i, Collect::MoveTags, seen) == collect_from(
            evs,
            i,
            Collect::MoveTags,
            false,
        ),
    decreases evs.len() - i,
{
    lemma_moves_ignore_seen(evs, i + 1, seen);
}

proof fn lemma_moves_ignore_seen(evs: Seq<XmlEventView>, i: int, seen: bool)
    ensures
        collect_from(evs, i, Collect::MoveTags, seen) == collect_from(
            evs,
            i,
            Collect::MoveTags,
            false,
        ),
    decreases evs.len() - i,
{
    if 0 <= i < evs.len() {
        lemma_moves_ignore_seen(evs, i + 1, seen);
    }
}

/// A message whose move words are those of a sequence of moves sends
/// those moves.
pub proof fn law_message_moves(s: Seq<char>, ms: Seq<Move>)
    requires
        message_words(s, Collect::MoveTags) == Some(moves_words(ms)),
    ensures
        message_moves(s) == Some(ms),
{
    law_moves_words(ms);
}

/// A message whose board words are those of a board sends that board:
/// in particular a pawn listed in `main` at spot `r` stands on spot
/// `(r + 50) % 68` of the board, whatever that spot is.
pub proof fn law_message_board(s: Seq<char>, b: BoardView)
    requires
        writable(b),
        message_words(s, Collect::BoardTags) == Some(board_words(b)),
    ensures
        message_board(s) == Some(b),
{
    law_board_words(b);
}

/// A message whose dice texts write the numbers `ns` sends the rolls
/// `ns`, one roll per text, equal rolls included.
pub proof fn law_message_rolls(s: Seq<char>, ns: Seq<usize>)
    requires
        message_words(s, Collect::DiceTexts) == Some(ns.map_values(|n: usize| decimal(n as nat))),
    ensures
        message_rolls(s) == Some(ns),
{
    law_numbers_words(ns);
}

proof fn lemma_numbers_each(t: Seq<Seq<char>>)
    ensures
        words_numbers(t) matches Some(ns) ==> ns.len() == t.len() && forall|i: int|
            0 <= i < t.len() ==> spec_parse_usize(#[trigger] t[i]) == Some(ns[i]),
    decreases t.len(),
{
    if t.len() > 0 {
        lemma_numbers_each(t.drop_last());
        if let Some(ns) = words_numbers(t) {
            assert forall|i: int| 0 <= i < t.len() implies spec_parse_usize(#[trigger] t[i])
                == Some(ns[i]) by {
                if i < t.len() - 1 {
                    assert(t[i] == t.drop_last()[i]);
                }
            }
        }
    }
}

/// The rolls a message sends are the numbers of its dice texts, one roll
/// per text, in order.
pub proof fn law_rolls_per_text(s: Seq<char>)
    ensures
        message_rolls(s) matches Some(ns) ==> message_words(s, Collect::DiceTexts) matches Some(t)
            && ns.len() == t.len() && forall|i: int|
            0 <= i < t.len() ==> spec_parse_usize(#[trigger] t[i]) == Some(ns[i]),
{
    if let Some(t) = message_words(s, Collect::DiceTexts) {
        lemma_numbers_each(t);
    }
}

/// `w` with its first letter made a capital.
pub open spec fn capitalized(w: Seq<char>) -> Seq<char> {
    if w.len() == 0 {
        w
    } else {
        seq![((w[0] as u32) - 32) as char] + w.drop_first()
    }
}

/// The last text of a `start-game` message names the player's color, in
/// small letters or with a capital first letter.
pub proof fn law_start_color(c: Color)
    ensures
        start_color(color_name(c)) == Some(c),
        start_color(capitalized(color_name(c))) == Some(c),
{
    reveal_strlit("red");
    reveal_strlit("blue");
    reveal_strlit("yellow");
    reveal_strlit("green");
    reveal_strlit("Red");
    reveal_strlit("Blue");
    reveal_strlit("Yellow");
    reveal_strlit("Green");
    assert(capitalized("red"@) =~= "Red"@);
    assert(capitalized("blue"@) =~= "Blue"@);
    assert(capitalized("yellow"@) =~= "Yellow"@);
    assert(capitalized("green"@) =~= "Green"@);
}

/// A message whose last text is a color's name, in small letters or with
/// a capital first letter, assigns that color.
pub proof fn law_message_color(s: Seq<char>, c: Color)
    requires
        message_words(s, Collect::AllTexts) matches Some(t) && t.len() > 0 && (t.last()
            == color_name(c) || t.last() == capitalized(color_name(c))),
    ensures
        message_color(s) == Some(c),
{
    law_start_color(c);
}

/// The request of a message is decided by its first event alone: two
/// messages that open alike make the same request, whatever follows.
pub proof fn law_request_by_first_event(s1: Seq<char>, s2: Seq<char>)
    requires
        first_event(message_events(s1)) == first_event(message_events(s2)),
    ensures
        message_request(s1) == message_request(s2),
{
}

/// A message opening with a `start-game`, `do-move` or `doubles-penalty`
/// tag makes that request; one opening with no tag is an error.
pub proof fn law_request_tags(s: Seq<char>)
    ensures
        first_event(message_events(s)) matches XmlEventView::Start { name, .. } ==> {
            &&& name == ascii_bytes("start-game"@) ==> message_request(s) == Some(
                XmlMessage::StartGame,
            )
            &&& name == ascii_bytes("do-move"@) ==> message_request(s) == Some(XmlMessage::DoMove)
            &&& name == ascii_bytes("doubles-penalty"@) ==> message_request(s) == Some(
                XmlMessage::DoublesPenalty,
            )
        },
        !(first_event(message_events(s)) is Start) ==> message_request(s) == Some(
            XmlMessage::Error,
        ),
{
    reveal_strlit("start-game");
    reveal_strlit("do-move");
    reveal_strlit("doubles-penalty");
    let sg = ascii_bytes("start-game"@);
    let dm = ascii_bytes("do-move"@);
    let dp = ascii_bytes("doubles-penalty"@);
    assert(sg.len() == 10 && dm.len() == 7 && dp.len() == 15);
}

} // verus!
