//! Decoding the messages: the words of a message in the order its events
//! come, and the values those words describe.

use crate::board::{
    home_row, start_board, with_loc, Board, BoardView, Color, Dice, Loc, Move,
    MoveType, Pawn,
};
use crate::text::{
    ascii_bytes, bytes_are, color_from_name, color_of_name, parse_usize, remove_word, str_is,
    spec_parse_usize, trim_range, trimmed, views, without_word,
};
use crate::xml::{
    pending_events, read_event, reader_from_str, set_trim_text,
    xml_events, XmlEvent, XmlEventView,
};
pub use crate::text::{build_pawn_from_strings, string_to_color, trim_xml};
use vstd::prelude::*;

verus! {

/// The kinds of requests a player receives.
#[derive(Clone, Copy, Debug, PartialEq, Eq, Structural)]
pub enum XmlMessage {
    StartGame,
    DoMove,
    DoublesPenalty,
    Error,
}

/// The events of a message, its texts trimmed.
pub open spec fn message_events(s: Seq<char>) -> Seq<XmlEventView> {
    xml_events(s, true)
}

/// Which words of a message are collected.
#[derive(Clone, Copy, Debug, PartialEq, Eq, Structural)]
pub enum Collect {
    /// The move tags and all texts.
    MoveTags,
    /// Every tag but `board`, and all texts, up to the `dice` tag.
    BoardTags,
    /// All texts.
    AllTexts,
    /// The texts after the `dice` tag.
    DiceTexts,
}

/// What a start tag does to the collection of words.
#[derive(Clone, Copy, Debug, PartialEq, Eq, Structural)]
pub enum TagAction {
    /// The tag is passed over.
    Skip,
    /// The tag's content is collected.
    Keep,
    /// The collection ends before the tag.
    Stop,
    /// The texts that follow the tag are collected from then on.
    Mark,
}

/// What a start tag with raw name `name` does in collection `mode`.
pub open spec fn tag_action(mode: Collect, name: Seq<u8>) -> TagAction {
    match mode {
        Collect::MoveTags => if name == ascii_bytes("enter-piece"@) || name == ascii_bytes(
            "move-piece-home"@,
        ) || name == ascii_bytes("move-piece-main"@) {
            TagAction::Keep
        } else {
            TagAction::Skip
        },
        Collect::BoardTags => if name == ascii_bytes("board"@) {
            TagAction::Skip
        } else if name == ascii_bytes("dice"@) {
            TagAction::Stop
        } else {
            TagAction::Keep
        },
        Collect::AllTexts => TagAction::Skip,
        Collect::DiceTexts => if name == ascii_bytes("dice"@) {
            TagAction::Mark
        } else {
            TagAction::Skip
        },
    }
}

/// Whether texts are collected in `mode`, `seen` telling whether the tag
/// that starts them was seen.
pub open spec fn keeps_text(mode: Collect, seen: bool) -> bool {
    match mode {
        Collect::DiceTexts => seen,
        _ => true,
    }
}

/// `w` in front of the words `rest`; nothing where either is missing.
pub open spec fn push_front(w: Option<Seq<char>>, rest: Option<Seq<Seq<char>>>) -> Option<
    Seq<Seq<char>>,
> {
    match (w, rest) {
        (Some(w), Some(r)) => Some(seq![w] + r),
        _ => None,
    }
}

/// The words collected in `mode` from event `i` on, `seen` as
/// [`keeps_text`] has it; nothing where the stream failed or a collected
/// content could not be decoded. The collection ends at the end of input.
pub open spec fn collect_from(
    evs: Seq<XmlEventView>,
    i: int,
    mode: Collect,
    seen: bool,
) -> Option<Seq<Seq<char>>>
    decreases evs.len() - i,
{
    if i < 0 || i >= evs.len() {
        Some(seq![])
    } else {
        match evs[i] {
            XmlEventView::Eof => Some(seq![]),
            XmlEventView::Failed => None,
            XmlEventView::Other => collect_from(evs, i + 1, mode, seen),
            XmlEventView::Text { text } => if keeps_text(mode, seen) {
                push_front(text, collect_from(evs, i + 1, mode, seen))
            } else {
                collect_from(evs, i + 1, mode, seen)
            },
            XmlEventView::Start { name, text } => match tag_action(mode, name) {
                TagAction::Skip => collect_from(evs, i + 1, mode, seen),
                TagAction::Keep => push_front(text, collect_from(evs, i + 1, mode, seen)),
                TagAction::Stop => Some(seq![]),
                TagAction::Mark => collect_from(evs, i + 1, mode, true),
            },
        }
    }
}

/// The words collected in `mode` from the message `s`.
pub open spec fn message_words(s: Seq<char>, mode: Collect) -> Option<Seq<Seq<char>>> {
    collect_from(message_events(s), 0, mode, false)
}

/// `acc` in front of `rest`, where there is a `rest`.
pub open spec fn prepend_all<T>(acc: Seq<T>, rest: Option<Seq<T>>) -> Option<Seq<T>> {
    match rest {
        Some(r) => Some(acc + r),
        None => None,
    }
}

/// The views of the strings of an optional vector.
pub open spec fn opt_views(o: Option<Vec<String>>) -> Option<Seq<Seq<char>>> {
    match o {
        Some(v) => Some(views(v@)),
        None => None,
    }
}

fn start_tag_action(mode: Collect, name: &Vec<u8>) -> (a: TagAction)
    ensures
        a == tag_action(mode, name@),
{
    match mode {
        Collect::MoveTags => {
            if bytes_are(name, "enter-piece") || bytes_are(name, "move-piece-home") || bytes_are(
                name,
                "move-piece-main",
            ) {
                TagAction::Keep
            } else {
                TagAction::Skip
            }
        },
        Collect::BoardTags => {
            if bytes_are(name, "board") {
                TagAction::Skip
            } else if bytes_are(name, "dice") {
                TagAction::Stop
            } else {
                TagAction::Keep
            }
        },
        Collect::AllTexts => TagAction::Skip,
        Collect::DiceTexts => {
            if bytes_are(name, "dice") {
                TagAction::Mark
            } else {
                TagAction::Skip
            }
        },
    }
}

proof fn lemma_push_collected(acc: Seq<Seq<char>>, w: Seq<char>, rest: Option<Seq<Seq<char>>>)
    ensures
        prepend_all(acc, push_front(Some(w), rest)) == prepend_all(acc.push(w), rest),
{
    if let Some(r) = rest {
        assert(acc + (seq![w] + r) =~= acc.push(w) + r);
    }
}

/// Reads the message `xml` and collects its words in `mode`.
pub fn collect_words(xml: &str, mode: Collect) -> (r: Option<Vec<String>>)
    ensures
        opt_views(r) == message_words(xml@, mode),
{
    let mut reader = reader_from_str(xml);
    set_trim_text(&mut reader, true);
    let ghost evs = message_events(xml@);
    let mut out: Vec<String> = Vec::new();
    let mut seen = false;
    let ghost mut i: int = 0;
    assert(evs.subrange(0, evs.len() as int) =~= evs);
    loop
        invariant
            0 <= i <= evs.len(),
            evs == message_events(xml@),
            pending_events(reader) == evs.subrange(i, evs.len() as int),
            collect_from(evs, 0, mode, false) == prepend_all(
                views(out@),
                collect_from(evs, i, mode, seen),
            ),
        decreases evs.len() - i,
    {
        let ghost before = pending_events(reader);
        let ev = read_event(&mut reader);
        assert(i < evs.len() ==> ev@ == evs[i]);
        assert(i < evs.len() ==> pending_events(reader) =~= evs.subrange(i + 1, evs.len() as int));
        match ev {
            XmlEvent::Eof => {
                assert(views(out@) + seq![] =~= views(out@));
                return Some(out);
            },
            XmlEvent::Failed => {
                return None;
            },
            XmlEvent::Other => {
                proof {
                    i = i + 1;
                }
            },
            XmlEvent::Text { text } => {
                if mode == Collect::DiceTexts && !seen {
                } else {
                    match text {
                        Some(t) => {
                            proof {
                                lemma_push_collected(
                                    views(out@),
                                    t@,
                                    collect_from(evs, i + 1, mode, seen),
                                );
                            }
                            out.push(t);
                        },
                        None => {
                            return None;
                        },
                    }
                }
                proof {
                    i = i + 1;
                }
            },
            XmlEvent::Start { name, text } => {
                let act = start_tag_action(mode, &name);
                match act {
                    TagAction::Skip => {},
                    TagAction::Mark => {
                        seen = true;
                    },
                    TagAction::Stop => {
                        assert(views(out@) + seq![] =~= views(out@));
                        return Some(out);
                    },
                    TagAction::Keep => {
                        match text {
                            Some(t) => {
                                proof {
                                    lemma_push_collected(
                                        views(out@),
                                        t@,
                                        collect_from(evs, i + 1, mode, seen),
                                    );
                                }
                                out.push(t);
                            },
                            None => {
                                return None;
                            },
                        }
                    },
                }
                proof {
                    i = i + 1;
                }
            },
        }
    }
}

/// `m` in front of the moves `rest`, where there are such moves.
pub open spec fn push_move(m: Move, rest: Option<Seq<Move>>) -> Option<Seq<Move>> {
    match rest {
        Some(r) => Some(seq![m] + r),
        None => None,
    }
}

/// The moves that the words `t` describe from word `i` on: each move is its
/// tag (`enter-piece`, `move-piece-home` or `move-piece-main`), the pawn's
/// color name and id, and for the last two the start and the distance.
/// Nothing where a word is missing, unknown or not a number.
pub open spec fn moves_from(t: Seq<Seq<char>>, i: int) -> Option<Seq<Move>>
    decreases t.len() - i,
{
    if i < 0 || i >= t.len() {
        Some(seq![])
    } else if t[i] == "enter-piece"@ {
        if i + 2 < t.len() {
            match (color_of_name(t[i + 1]), spec_parse_usize(t[i + 2])) {
                (Some(c), Some(id)) => push_move(
                    Move { m_type: MoveType::EnterPiece, pawn: Pawn { color: c, id: id } },
                    moves_from(t, i + 3),
                ),
                _ => None,
            }
        } else {
            None
        }
    } else if t[i] == "move-piece-home"@ || t[i] == "move-piece-main"@ {
        if i + 4 < t.len() {
            match (
                color_of_name(t[i + 1]),
                spec_parse_usize(t[i + 2]),
                spec_parse_usize(t[i + 3]),
                spec_parse_usize(t[i + 4]),
            ) {
                (Some(c), Some(id), Some(start), Some(distance)) => push_move(
                    Move {
                        m_type: if t[i] == "move-piece-home"@ {
                            MoveType::MoveHome { start: start, distance: distance }
                        } else {
                            MoveType::MoveMain { start: start, distance: distance }
                        },
                        pawn: Pawn { color: c, id: id },
                    },
                    moves_from(t, i + 5),
                ),
                _ => None,
            }
        } else {
            None
        }
    } else {
        None
    }
}

/// The moves that the words `t` describe.
pub open spec fn words_moves(t: Seq<Seq<char>>) -> Option<Seq<Move>> {
    moves_from(t, 0)
}

/// The moves that the message `s` sends.
pub open spec fn message_moves(s: Seq<char>) -> Option<Seq<Move>> {
    match message_words(s, Collect::MoveTags) {
        Some(t) => words_moves(t),
        None => None,
    }
}

proof fn lemma_push_move(acc: Seq<Move>, m: Move, rest: Option<Seq<Move>>)
    ensures
        prepend_all(acc, push_move(m, rest)) == prepend_all(acc.push(m), rest),
{
    if let Some(r) = rest {
        assert(acc + (seq![m] + r) =~= acc.push(m) + r);
    }
}

/// The moves that the words `v` describe, if they describe moves.
pub fn moves_from_words(v: &Vec<String>) -> (r: Option<Vec<Move>>)
    ensures
        match r {
            Some(ms) => words_moves(views(v@)) == Some(ms@),
            None => words_moves(views(v@)) is None,
        },
{
    let ghost t = views(v@);
    let n = v.len();
    let mut out: Vec<Move> = Vec::new();
    let mut i: usize = 0;
    while i < n
        invariant
            n == v.len(),
            t == views(v@),
            i <= n,
            moves_from(t, 0) == prepend_all(out@, moves_from(t, i as int)),
        decreases n - i,
    {
        let w = v[i].as_str();
        let is_home = str_is(w, "move-piece-home");
        if str_is(w, "enter-piece") {
            if n - i <= 2 {
                return None;
            }
            let c = match color_from_name(v[i + 1].as_str()) {
                Some(c) => c,
                None => return None,
            };
            let id = match parse_usize(v[i + 2].as_str()) {
                Some(id) => id,
                None => return None,
            };
            let m = Move { m_type: MoveType::EnterPiece, pawn: Pawn { color: c, id: id } };
            proof {
                lemma_push_move(out@, m, moves_from(t, i + 3));
            }
            out.push(m);
            i = i + 3;
        } else if is_home || str_is(w, "move-piece-main") {
            if n - i <= 4 {
                return None;
            }
            let c = match color_from_name(v[i + 1].as_str()) {
                Some(c) => c,
                None => return None,
            };
            let id = match parse_usize(v[i + 2].as_str()) {
                Some(id) => id,
                None => return None,
            };
            let start = match parse_usize(v[i + 3].as_str()) {
                Some(x) => x,
                None => return None,
            };
            let distance = match parse_usize(v[i + 4].as_str()) {
                Some(x) => x,
                None => return None,
            };
            let m_type = if is_home {
                MoveType::MoveHome { start, distance }
            } else {
                MoveType::MoveMain { start, distance }
            };
            let m = Move { m_type, pawn: Pawn { color: c, id: id } };
            proof {
                lemma_push_move(out@, m, moves_from(t, i + 5));
            }
            out.push(m);
            i = i + 5;
        } else {
            return None;
        }
    }
    assert(out@ + seq![] =~= out@);
    Some(out)
}

/// The moves that the words `vec_string` describe: each move is its tag,
/// then the pawn's color and id, then (but for `enter-piece`) the start
/// and the distance.
pub fn vec_string_to_vec_move(vec_string: Vec<String>) -> (r: Vec<Move>)
    requires
        words_moves(views(vec_string@)) is Some,
    ensures
        words_moves(views(vec_string@)) == Some(r@),
{
    match moves_from_words(&vec_string) {
        Some(ms) => ms,
        None => Vec::new(),
    }
}

/// The words of a moves message: the move tags and the texts, in order.
pub fn move_string_to_vec_string(xml: String) -> (r: Vec<String>)
    requires
        message_words(xml@, Collect::MoveTags) is Some,
    ensures
        message_words(xml@, Collect::MoveTags) == Some(views(r@)),
{
    match collect_words(xml.as_str(), Collect::MoveTags) {
        Some(w) => w,
        None => Vec::new(),
    }
}

/// The moves that a moves message sends.
pub fn deserialize_moves(xml: String) -> (r: Vec<Move>)
    requires
        message_moves(xml@) is Some,
    ensures
        message_moves(xml@) == Some(r@),
{
    let string_vec = move_string_to_vec_string(xml);
    vec_string_to_vec_move(string_vec)
}

/// The moves that a moves message sends, or nothing where it does not
/// send moves.
pub fn try_deserialize_moves(xml: String) -> (r: Option<Vec<Move>>)
    ensures
        match r {
            Some(ms) => message_moves(xml@) == Some(ms@),
            None => message_moves(xml@) is None,
        },
{
    match collect_words(xml.as_str(), Collect::MoveTags) {
        None => None,
        Some(words) => match moves_from_words(&words) {
            None => None,
            Some(_) => Some(deserialize_moves(xml)),
        },
    }
}

/// The index of the first word `w` of `t` at or after `i`.
pub open spec fn first_from(t: Seq<Seq<char>>, w: Seq<char>, i: int) -> Option<int>
    decreases t.len() - i,
{
    if i < 0 || i >= t.len() {
        None
    } else if t[i] == w {
        Some(i)
    } else {
        first_from(t, w, i + 1)
    }
}

proof fn lemma_first_from_bounds(t: Seq<Seq<char>>, w: Seq<char>, i: int)
    ensures
        first_from(t, w, i) matches Some(k) ==> i <= k < t.len() && t[k] == w,
    decreases t.len() - i,
{
    if 0 <= i < t.len() && t[i] != w {
        lemma_first_from_bounds(t, w, i + 1);
    }
}

/// The spot of our main ring that the other numbering's spot `r` is.
pub open spec fn main_ring_spot(r: int) -> int {
    (r + 50) % 68
}

/// `b` with the pawns that the `piece-loc` groups of the main section `t`
/// place, from word `i` on, moved: each group is `piece-loc`, a color name,
/// an id, `loc` and a spot in the other numbering. The placing ends at the
/// first word that is not `piece-loc`; nothing where a group is broken.
pub open spec fn place_main(b: BoardView, t: Seq<Seq<char>>, i: int) -> Option<BoardView>
    decreases t.len() - i,
{
    if i < 0 || i >= t.len() || t[i] != "piece-loc"@ {
        Some(b)
    } else if i + 4 >= t.len() {
        None
    } else {
        match (color_of_name(t[i + 1]), spec_parse_usize(t[i + 2]), spec_parse_usize(t[i + 4])) {
            (Some(c), Some(id), Some(r)) => if t[i + 3] == "loc"@ && id < 4 && r + 50
                <= usize::MAX {
                place_main(
                    with_loc(b, c, id as int, Loc::Spot { index: main_ring_spot(r as int) as usize }),
                    t,
                    i + 5,
                )
            } else {
                None
            },
            _ => None,
        }
    }
}

/// As [`place_main`], for the home-row section: a home-row spot `r` of
/// color `c` is our spot `home_row(c) + r`.
pub open spec fn place_rows(b: BoardView, t: Seq<Seq<char>>, i: int) -> Option<BoardView>
    decreases t.len() - i,
{
    if i < 0 || i >= t.len() || t[i] != "piece-loc"@ {
        Some(b)
    } else if i + 4 >= t.len() {
        None
    } else {
        match (color_of_name(t[i + 1]), spec_parse_usize(t[i + 2]), spec_parse_usize(t[i + 4])) {
            (Some(c), Some(id), Some(r)) => if t[i + 3] == "loc"@ && id < 4 && r + home_row(c)
                <= usize::MAX {
                place_rows(
                    with_loc(b, c, id as int, Loc::Spot { index: (r + home_row(c)) as usize }),
                    t,
                    i + 5,
                )
            } else {
                None
            },
            _ => None,
        }
    }
}

/// `b` with the pawns that the home section `t` names from word `i` on
/// (pairs of a color name and an id) moved home; nothing where a pair is
/// broken.
pub open spec fn place_home(b: BoardView, t: Seq<Seq<char>>, i: int) -> Option<BoardView>
    decreases t.len() - i,
{
    if i < 0 || i >= t.len() {
        Some(b)
    } else if i + 1 >= t.len() {
        None
    } else {
        match (color_of_name(t[i]), spec_parse_usize(t[i + 1])) {
            (Some(c), Some(id)) => if id < 4 {
                place_home(with_loc(b, c, id as int, Loc::Home), t, i + 2)
            } else {
                None
            },
            _ => None,
        }
    }
}

/// The board that the words `t` of a board describe. The words hold a
/// `main` section up to `home-rows`, a home-row section up to `home`, and
/// the home section; the markup words are dropped from each, and the
/// `home-rows` word from the second. Starting from a new game's board, the
/// main section then the home-row section place pawns on spots and the
/// home section moves pawns home; the pawns named nowhere stay in their
/// nests.
pub open spec fn words_board(t: Seq<Seq<char>>) -> Option<BoardView> {
    match (first_from(t, "main"@, 0), first_from(t, "home"@, 0)) {
        (Some(s), Some(_)) => match first_from(t, "home-rows"@, s) {
            Some(a) => match first_from(t, "home"@, a) {
                Some(h) => {
                    let main_t = trimmed(t.subrange(s, a));
                    let rows_t = without_word(trimmed(t.subrange(a, h)), "home-rows"@);
                    let home_t = trimmed(t.subrange(h, t.len() as int));
                    match place_main(start_board(), main_t, 1) {
                        Some(b1) => match place_rows(b1, rows_t, 0) {
                            Some(b2) => place_home(b2, home_t, 1),
                            None => None,
                        },
                        None => None,
                    }
                },
                None => None,
            },
            None => None,
        },
        _ => None,
    }
}

/// The board that the message `s` sends.
pub open spec fn message_board(s: Seq<char>) -> Option<BoardView> {
    match message_words(s, Collect::BoardTags) {
        Some(t) => words_board(t),
        None => None,
    }
}

/// The index of the first word `w` of `v` at or after `from`.
pub fn find_word(v: &Vec<String>, w: &str, from: usize) -> (r: Option<usize>)
    ensures
        match r {
            Some(k) => first_from(views(v@), w@, from as int) == Some(k as int),
            None => first_from(views(v@), w@, from as int) is None,
        },
    decreases v.len() - from,
{
    if from >= v.len() {
        None
    } else if str_is(v[from].as_str(), w) {
        Some(from)
    } else {
        find_word(v, w, from + 1)
    }
}

fn spot_color(w: &String) -> (r: Option<Color>)
    ensures
        r == color_of_name(w@),
{
    color_from_name(w.as_str())
}

/// Places the pawns of the main section `t` on `board`.
fn place_on_main(board: &mut Board, t: &Vec<String>) -> (ok: bool)
    ensures
        ok == place_main(old(board)@, views(t@), 1) is Some,
        ok ==> place_main(old(board)@, views(t@), 1) == Some(final(board)@),
{
    let ghost tv = views(t@);
    let n = t.len();
    let mut i: usize = 1;
    while i < n
        invariant
            n == t.len(),
            tv == views(t@),
            1 <= i,
            place_main(old(board)@, tv, 1) == place_main(board@, tv, i as int),
        decreases n - i,
    {
        if !str_is(t[i].as_str(), "piece-loc") {
            return true;
        }
        if n - i <= 4 {
            return false;
        }
        let c = match spot_color(&t[i + 1]) {
            Some(c) => c,
            None => return false,
        };
        let id = match parse_usize(t[i + 2].as_str()) {
            Some(id) => id,
            None => return false,
        };
        let r = match parse_usize(t[i + 4].as_str()) {
            Some(r) => r,
            None => return false,
        };
        if !str_is(t[i + 3].as_str(), "loc") || id >= 4 || r > usize::MAX - 50 {
            return false;
        }
        board.set_loc(c, id, Loc::Spot { index: (r + 50) % 68 });
        i = i + 5;
    }
    true
}

/// Places the pawns of the home-row section `t` on `board`.
fn place_on_rows(board: &mut Board, t: &Vec<String>) -> (ok: bool)
    ensures
        ok == place_rows(old(board)@, views(t@), 0) is Some,
        ok ==> place_rows(old(board)@, views(t@), 0) == Some(final(board)@),
{
    let ghost tv = views(t@);
    let n = t.len();
    let mut i: usize = 0;
    while i < n
        invariant
            n == t.len(),
            tv == views(t@),
            place_rows(old(board)@, tv, 0) == place_rows(board@, tv, i as int),
        decreases n - i,
    {
        if !str_is(t[i].as_str(), "piece-loc") {
            return true;
        }
        if n - i <= 4 {
            return false;
        }
        let c = match spot_color(&t[i + 1]) {
            Some(c) => c,
            None => return false,
        };
        let id = match parse_usize(t[i + 2].as_str()) {
            Some(id) => id,
            None => return false,
        };
        let r = match parse_usize(t[i + 4].as_str()) {
            Some(r) => r,
            None => return false,
        };
        let first = Board::get_home_row(&c);
        if !str_is(t[i + 3].as_str(), "loc") || id >= 4 || r > usize::MAX - first {
            return false;
        }
        board.set_loc(c, id, Loc::Spot { index: r + first });
        i = i + 5;
    }
    true
}

/// Moves the pawns that the home section `t` names home on `board`.
fn place_in_home(board: &mut Board, t: &Vec<String>) -> (ok: bool)
    ensures
        ok == place_home(old(board)@, views(t@), 1) is Some,
        ok ==> place_home(old(board)@, views(t@), 1) == Some(final(board)@),
{
    let ghost tv = views(t@);
    let n = t.len();
    let mut i: usize = 1;
    while i < n
        invariant
            n == t.len(),
            tv == views(t@),
            1 <= i,
            place_home(old(board)@, tv, 1) == place_home(board@, tv, i as int),
        decreases n - i,
    {
        if n - i <= 1 {
            return false;
        }
        let c = match spot_color(&t[i]) {
            Some(c) => c,
            None => return false,
        };
        let id = match parse_usize(t[i + 1].as_str()) {
            Some(id) => id,
            None => return false,
        };
        if id >= 4 {
            return false;
        }
        board.set_loc(c, id, Loc::Home);
        i = i + 2;
    }
    true
}

/// The board that the words `v` describe, if they describe one.
pub fn board_from_words(v: &Vec<String>) -> (r: Option<Board>)
    ensures
        match r {
            Some(b) => words_board(views(v@)) == Some(b@),
            None => words_board(views(v@)) is None,
        },
{
    let s = match find_word(v, "main", 0) {
        Some(s) => s,
        None => return None,
    };
    if find_word(v, "home", 0).is_none() {
        return None;
    }
    let a = match find_word(v, "home-rows", s) {
        Some(a) => a,
        None => return None,
    };
    let h = match find_word(v, "home", a) {
        Some(h) => h,
        None => return None,
    };
    proof {
        lemma_first_from_bounds(views(v@), "home-rows"@, s as int);
        lemma_first_from_bounds(views(v@), "home"@, a as int);
    }
    let main_t = trim_range(v, s, a);
    let rows_trimmed = trim_range(v, a, h);
    let rows_t = remove_word(&rows_trimmed, "home-rows");
    let home_t = trim_range(v, h, v.len());
    let mut board = Board::new();
    if !place_on_main(&mut board, &main_t) {
        return None;
    }
    if !place_on_rows(&mut board, &rows_t) {
        return None;
    }
    if !place_in_home(&mut board, &home_t) {
        return None;
    }
    Some(board)
}

/// The board that the words of a board message describe.
pub fn split_up_vec_xml_string(vec_xml_string: Vec<String>) -> (b: Board)
    requires
        words_board(views(vec_xml_string@)) is Some,
    ensures
        words_board(views(vec_xml_string@)) == Some(b@),
{
    match board_from_words(&vec_xml_string) {
        Some(b) => b,
        None => Board::new(),
    }
}

/// The words of a board message: every tag but `board`, and the texts, up
/// to the `dice` tag.
pub fn xml_board_to_vec_xml_string(xml: String) -> (r: Vec<String>)
    requires
        message_words(xml@, Collect::BoardTags) is Some,
    ensures
        message_words(xml@, Collect::BoardTags) == Some(views(r@)),
{
    match collect_words(xml.as_str(), Collect::BoardTags) {
        Some(w) => w,
        None => Vec::new(),
    }
}

/// The board that a message sends.
pub fn deserialize_board(xml: String) -> (b: Board)
    requires
        message_board(xml@) is Some,
    ensures
        message_board(xml@) == Some(b@),
{
    let vec_xml_string = xml_board_to_vec_xml_string(xml);
    split_up_vec_xml_string(vec_xml_string)
}

/// The numbers that the words `t` write, each in decimal; nothing where a
/// word is not such a number.
pub open spec fn words_numbers(t: Seq<Seq<char>>) -> Option<Seq<usize>>
    decreases t.len(),
{
    if t.len() == 0 {
        Some(seq![])
    } else {
        match (words_numbers(t.drop_last()), spec_parse_usize(t.last())) {
            (Some(ns), Some(n)) => Some(ns.push(n)),
            _ => None,
        }
    }
}

/// The rolls that the message `s` sends: the numbers of the texts after
/// its `dice` tag.
pub open spec fn message_rolls(s: Seq<char>) -> Option<Seq<usize>> {
    match message_words(s, Collect::DiceTexts) {
        Some(t) => words_numbers(t),
        None => None,
    }
}

/// The numbers that the words `v` write, if each is a number.
pub fn numbers_from_words(v: &Vec<String>) -> (r: Option<Vec<usize>>)
    ensures
        match r {
            Some(ns) => words_numbers(views(v@)) == Some(ns@),
            None => words_numbers(views(v@)) is None,
        },
{
    let ghost t = views(v@);
    let mut out: Vec<usize> = Vec::new();
    let mut i: usize = 0;
    while i < v.len()
        invariant
            i <= v.len(),
            t == views(v@),
            words_numbers(t.subrange(0, i as int)) == Some(out@),
        decreases v.len() - i,
    {
        assert(t.subrange(0, i + 1).drop_last() =~= t.subrange(0, i as int));
        match parse_usize(v[i].as_str()) {
            Some(n) => {
                out.push(n);
            },
            None => {
                proof {
                    lemma_numbers_prefix(t, i + 1);
                }
                return None;
            },
        }
        i = i + 1;
    }
    assert(t.subrange(0, v.len() as int) =~= t);
    Some(out)
}

proof fn lemma_numbers_prefix(t: Seq<Seq<char>>, k: int)
    requires
        0 <= k <= t.len(),
        words_numbers(t.subrange(0, k)) is None,
    ensures
        words_numbers(t) is None,
    decreases t.len() - k,
{
    if k < t.len() {
        assert(t.subrange(0, k + 1).drop_last() =~= t.subrange(0, k));
        lemma_numbers_prefix(t, k + 1);
    } else {
        assert(t.subrange(0, k) =~= t);
    }
}

/// The dice that a message sends: the numbers of the texts after its
/// `dice` tag.
pub fn deserialize_dice(xml: String) -> (d: Dice)
    requires
        message_rolls(xml@) is Some,
    ensures
        message_rolls(xml@) == Some(d.rolls@),
{
    let txt = match collect_words(xml.as_str(), Collect::DiceTexts) {
        Some(w) => w,
        None => Vec::new(),
    };
    let usize_vector = match numbers_from_words(&txt) {
        Some(ns) => ns,
        None => Vec::new(),
    };
    Dice { rolls: usize_vector }
}

/// The board and the dice of a `do-move` message.
pub fn deserialize_do_move(xml: String) -> (r: (Board, Dice))
    requires
        message_board(xml@) is Some,
        message_rolls(xml@) is Some,
    ensures
        message_board(xml@) == Some(r.0@),
        message_rolls(xml@) == Some(r.1.rolls@),
{
    let board = deserialize_board(xml.clone());
    let dice = deserialize_dice(xml);
    (board, dice)
}

/// The board and the dice of a `do-move` message, or nothing where it
/// does not send both.
pub fn try_deserialize_do_move(xml: String) -> (r: Option<(Board, Dice)>)
    ensures
        match r {
            Some((b, d)) => message_board(xml@) == Some(b@) && message_rolls(xml@) == Some(
                d.rolls@,
            ),
            None => message_board(xml@) is None || message_rolls(xml@) is None,
        },
{
    let board_ok = match collect_words(xml.as_str(), Collect::BoardTags) {
        None => false,
        Some(words) => board_from_words(&words).is_some(),
    };
    let dice_ok = match collect_words(xml.as_str(), Collect::DiceTexts) {
        None => false,
        Some(words) => numbers_from_words(&words).is_some(),
    };
    if board_ok && dice_ok {
        Some(deserialize_do_move(xml))
    } else {
        None
    }
}

/// The color that a `start-game` message's last text names: `Red` or
/// `red`, `Blue` or `blue`, `Yellow` or `yellow`, `Green` or `green`.
pub open spec fn start_color(w: Seq<char>) -> Option<Color> {
    if w == "Red"@ || w == "red"@ {
        Some(Color::Red)
    } else if w == "Blue"@ || w == "blue"@ {
        Some(Color::Blue)
    } else if w == "Yellow"@ || w == "yellow"@ {
        Some(Color::Yellow)
    } else if w == "Green"@ || w == "green"@ {
        Some(Color::Green)
    } else {
        None
    }
}

/// The color that the message `s` assigns: the color its last text names.
pub open spec fn message_color(s: Seq<char>) -> Option<Color> {
    match message_words(s, Collect::AllTexts) {
        Some(t) => if t.len() > 0 {
            start_color(t.last())
        } else {
            None
        },
        None => None,
    }
}

fn color_of_last(v: &Vec<String>) -> (r: Option<Color>)
    ensures
        r == (if v@.len() > 0 {
            start_color(views(v@).last())
        } else {
            None
        }),
{
    if v.len() == 0 {
        return None;
    }
    let w = v[v.len() - 1].as_str();
    if str_is(w, "Red") || str_is(w, "red") {
        Some(Color::Red)
    } else if str_is(w, "Blue") || str_is(w, "blue") {
        Some(Color::Blue)
    } else if str_is(w, "Yellow") || str_is(w, "yellow") {
        Some(Color::Yellow)
    } else if str_is(w, "Green") || str_is(w, "green") {
        Some(Color::Green)
    } else {
        None
    }
}

/// The color that a `start-game` message assigns to the player.
pub fn deserialize_start_game(request: String) -> (c: Color)
    requires
        message_color(request@) is Some,
    ensures
        message_color(request@) == Some(c),
{
    let txt = match collect_words(request.as_str(), Collect::AllTexts) {
        Some(w) => w,
        None => Vec::new(),
    };
    match color_of_last(&txt) {
        Some(c) => c,
        None => Color::Red,
    }
}

/// The color that a `start-game` message assigns, or nothing where it
/// names none.
pub fn try_deserialize_start_game(request: String) -> (r: Option<Color>)
    ensures
        r == message_color(request@),
{
    let found = match collect_words(request.as_str(), Collect::AllTexts) {
        None => None,
        Some(txt) => color_of_last(&txt),
    };
    if found.is_some() {
        Some(deserialize_start_game(request))
    } else {
        None
    }
}

/// The first event of a stream; end of input for an empty one.
pub open spec fn first_event(evs: Seq<XmlEventView>) -> XmlEventView {
    if evs.len() > 0 {
        evs[0]
    } else {
        XmlEventView::Eof
    }
}

/// The request that an event opens: a `start-game`, `do-move` or
/// `doubles-penalty` tag names one, any other event is an error; nothing
/// for another tag.
pub open spec fn request_of(ev: XmlEventView) -> Option<XmlMessage> {
    match ev {
        XmlEventView::Start { name, .. } => if name == ascii_bytes("start-game"@) {
            Some(XmlMessage::StartGame)
        } else if name == ascii_bytes("do-move"@) {
            Some(XmlMessage::DoMove)
        } else if name == ascii_bytes("doubles-penalty"@) {
            Some(XmlMessage::DoublesPenalty)
        } else {
            None
        },
        _ => Some(XmlMessage::Error),
    }
}

/// The request that the message `s` makes, by its first event.
pub open spec fn message_request(s: Seq<char>) -> Option<XmlMessage> {
    request_of(first_event(message_events(s)))
}

fn first_request(request: &str) -> (r: Option<XmlMessage>)
    ensures
        r == message_request(request@),
{
    let mut reader = reader_from_str(request);
    set_trim_text(&mut reader, true);
    match read_event(&mut reader) {
        XmlEvent::Start { name, .. } => {
            if bytes_are(&name, "start-game") {
                Some(XmlMessage::StartGame)
            } else if bytes_are(&name, "do-move") {
                Some(XmlMessage::DoMove)
            } else if bytes_are(&name, "doubles-penalty") {
                Some(XmlMessage::DoublesPenalty)
            } else {
                None
            }
        },
        _ => Some(XmlMessage::Error),
    }
}

/// Which request a message makes, from its first tag; `Error` where the
/// message does not open with a tag.
pub fn deserialize_decision(request: String) -> (m: XmlMessage)
    requires
        message_request(request@) is Some,
    ensures
        message_request(request@) == Some(m),
{
    match first_request(request.as_str()) {
        Some(m) => m,
        None => XmlMessage::Error,
    }
}

/// Which request a message makes, or nothing where it opens with a tag
/// that names no request.
pub fn try_deserialize_decision(request: String) -> (r: Option<XmlMessage>)
    ensures
        r == message_request(request@),
{
    if first_request(request.as_str()).is_some() {
        Some(deserialize_decision(request))
    } else {
        None
    }
}

} // verus!
