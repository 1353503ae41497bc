use parcheesi_xml::board::{Board, Color, Loc, Move, MoveType, Pawn};
use parcheesi_xml::deserialize::{
    board_from_words, collect_words, move_string_to_vec_string, moves_from_words,
    numbers_from_words, split_up_vec_xml_string, try_deserialize_decision,
    try_deserialize_do_move, try_deserialize_moves, try_deserialize_start_game,
    deserialize_start_game, vec_string_to_vec_move, xml_board_to_vec_xml_string, Collect,
    XmlMessage,
};
use parcheesi_xml::deserialize::{build_pawn_from_strings, string_to_color, trim_xml};
use parcheesi_xml::text::{color_from_name, parse_usize};

fn words(ws: &[&str]) -> Vec<String> {
    ws.iter().map(|w| w.to_string()).collect()
}

#[test]
fn parse_usize_reads_decimal_numbers() {
    assert_eq!(parse_usize("42"), Some(42));
    assert_eq!(parse_usize("0"), Some(0));
    assert_eq!(parse_usize("+7"), Some(7));
    assert_eq!(parse_usize("007"), Some(7));
    assert_eq!(parse_usize("18446744073709551615"), Some(18446744073709551615));
}

#[test]
fn parse_usize_refuses_what_is_no_number() {
    assert_eq!(parse_usize(""), None);
    assert_eq!(parse_usize("+"), None);
    assert_eq!(parse_usize("-1"), None);
    assert_eq!(parse_usize("4a"), None);
    assert_eq!(parse_usize(" 3"), None);
    assert_eq!(parse_usize("18446744073709551616"), None);
    assert_eq!(parse_usize("99999999999999999999999"), None);
}

#[test]
fn color_names_in_any_case() {
    assert_eq!(string_to_color("red".to_string()), Color::Red);
    assert_eq!(string_to_color("BLUE".to_string()), Color::Blue);
    assert_eq!(string_to_color("yElLoW".to_string()), Color::Yellow);
    assert_eq!(string_to_color("Green".to_string()), Color::Green);
    assert_eq!(color_from_name("purple"), None);
    assert_eq!(color_from_name("red "), None);
    assert_eq!(color_from_name(""), None);
}

#[test]
fn pawn_from_strings() {
    let p = build_pawn_from_strings("Yellow".to_string(), "3".to_string());
    assert_eq!(p, Pawn { color: Color::Yellow, id: 3 });
}

#[test]
fn trim_xml_drops_markup_words() {
    let v = words(&["piece-loc", "pawn", "color", "red", "id", "1", "loc", "22", "id"]);
    assert_eq!(trim_xml(&v), words(&["piece-loc", "red", "1", "loc", "22"]));
    let again = trim_xml(&trim_xml(&v));
    assert_eq!(again, trim_xml(&v));
    assert_eq!(trim_xml(&Vec::new()), Vec::<String>::new());
}

#[test]
fn moves_from_their_words() {
    let v = words(&[
        "enter-piece", "Blue", "0", "move-piece-main", "green", "3", "17", "5",
        "move-piece-home", "red", "1", "102", "4",
    ]);
    let expected = vec![
        Move { m_type: MoveType::EnterPiece, pawn: Pawn { color: Color::Blue, id: 0 } },
        Move {
            m_type: MoveType::MoveMain { start: 17, distance: 5 },
            pawn: Pawn { color: Color::Green, id: 3 },
        },
        Move {
            m_type: MoveType::MoveHome { start: 102, distance: 4 },
            pawn: Pawn { color: Color::Red, id: 1 },
        },
    ];
    assert_eq!(vec_string_to_vec_move(v), expected);
    assert_eq!(vec_string_to_vec_move(Vec::new()), Vec::<Move>::new());
}

#[test]
fn broken_move_words_describe_no_moves() {
    assert_eq!(moves_from_words(&words(&["enter-piece", "red"])), None);
    assert_eq!(moves_from_words(&words(&["enter-piece", "pink", "1"])), None);
    assert_eq!(moves_from_words(&words(&["enter-piece", "red", "x"])), None);
    assert_eq!(moves_from_words(&words(&["move-piece-main", "red", "1", "2"])), None);
    assert_eq!(moves_from_words(&words(&["jump", "red", "1"])), None);
}

#[test]
fn move_words_of_a_message() {
    let xml = "<moves> <enter-piece> <pawn> <color> red </color> <id> 2 </id> </pawn> </enter-piece> </moves>".to_string();
    assert_eq!(move_string_to_vec_string(xml), words(&["enter-piece", "red", "2"]));
}

#[test]
fn escaped_texts_are_decoded() {
    let xml = "<moves> <enter-piece> <pawn> <color> &#114;ed </color> <id> &#50; </id> </pawn> </enter-piece> </moves>".to_string();
    assert_eq!(
        try_deserialize_moves(xml),
        Some(vec![Move { m_type: MoveType::EnterPiece, pawn: Pawn { color: Color::Red, id: 2 } }])
    );
}

#[test]
fn broken_messages_send_no_moves() {
    assert_eq!(try_deserialize_moves("<moves> <enter-piece> </oops> </moves>".to_string()), None);
    assert_eq!(try_deserialize_moves("<moves> <enter-piece> <color> red </color> </enter-piece> </moves>".to_string()), None);
    assert_eq!(try_deserialize_moves("<moves> &bogus; </moves>".to_string()), None);
    assert_eq!(try_deserialize_moves("<moves> </moves>".to_string()), Some(Vec::new()));
}

#[test]
fn decision_by_first_tag() {
    assert_eq!(try_deserialize_decision("<not> a tag".to_string()), None);
    assert_eq!(try_deserialize_decision("plain text".to_string()), Some(XmlMessage::Error));
    assert_eq!(try_deserialize_decision("".to_string()), Some(XmlMessage::Error));
    assert_eq!(try_deserialize_decision("<do-move><board/></do-move>".to_string()), Some(XmlMessage::DoMove));
}

#[test]
fn start_game_color_is_the_last_text() {
    assert_eq!(deserialize_start_game("<start-game> Red </start-game>".to_string()), Color::Red);
    assert_eq!(deserialize_start_game("<start-game> x </start-game> green".to_string()), Color::Green);
    assert_eq!(try_deserialize_start_game("<start-game> Blue </start-game>".to_string()), Some(Color::Blue));
    assert_eq!(try_deserialize_start_game("<start-game> yellow </start-game>".to_string()), Some(Color::Yellow));
    assert_eq!(try_deserialize_start_game("<start-game> RED </start-game>".to_string()), None);
    assert_eq!(try_deserialize_start_game("<start-game> </start-game>".to_string()), None);
}

#[test]
fn board_words_stop_at_dice() {
    let xml = "<do-move> <board> <main> </main> </board> <dice> <die> 3 </die> </dice> </do-move>".to_string();
    assert_eq!(xml_board_to_vec_xml_string(xml), words(&["do-move", "main"]));
}

#[test]
fn board_spots_map_to_our_numbering() {
    let v = words(&[
        "main", "piece-loc", "pawn", "color", "red", "id", "0", "loc", "17", "piece-loc",
        "pawn", "color", "blue", "id", "1", "loc", "20", "home-rows", "piece-loc", "pawn",
        "color", "green", "id", "3", "loc", "6", "home", "pawn", "color", "yellow", "id", "2",
    ]);
    let b = split_up_vec_xml_string(v);
    assert_eq!(b.pawn_locs(Color::Red)[0], Loc::Spot { index: 67 });
    assert_eq!(b.pawn_locs(Color::Blue)[1], Loc::Spot { index: 2 });
    assert_eq!(b.pawn_locs(Color::Green)[3], Loc::Spot { index: 406 });
    assert_eq!(b.pawn_locs(Color::Yellow)[2], Loc::Home);
    assert_eq!(b.pawn_locs(Color::Yellow)[0], Loc::Nest);
}

#[test]
fn broken_board_words_describe_no_board() {
    assert!(board_from_words(&words(&["home-rows", "home"])).is_none());
    assert!(board_from_words(&words(&["main", "home"])).is_none());
    assert!(board_from_words(&words(&["main", "home-rows"])).is_none());
    assert!(board_from_words(&words(&["main", "piece-loc", "red", "4", "loc", "3", "home-rows", "home"])).is_none());
    assert!(board_from_words(&words(&["main", "piece-loc", "red", "1", "spot", "3", "home-rows", "home"])).is_none());
    assert!(board_from_words(&words(&["main", "home-rows", "piece-loc", "red", "1", "loc", "18446744073709551600", "home"])).is_none());
    assert!(board_from_words(&words(&["main", "home-rows", "home", "red"])).is_none());
    assert!(board_from_words(&words(&["main", "home-rows", "home", "teal", "1"])).is_none());
    let ok = board_from_words(&words(&["main", "piece-loc", "red", "1", "loc", "3", "stray", "home-rows", "home"]));
    let mut expected = Board::new();
    expected.set_loc(Color::Red, 1, Loc::Spot { index: 53 });
    assert_eq!(ok, Some(expected));
}

#[test]
fn home_rows_start_at_each_colors_offset() {
    assert_eq!(Board::get_home_row(&Color::Red), 100);
    assert_eq!(Board::get_home_row(&Color::Blue), 200);
    assert_eq!(Board::get_home_row(&Color::Yellow), 300);
    assert_eq!(Board::get_home_row(&Color::Green), 400);
}

#[test]
fn dice_words_and_numbers() {
    let xml = "<x> 9 </x> <dice> <die> 6 </die> <die> 1 </die> </dice>";
    assert_eq!(collect_words(xml, Collect::DiceTexts), Some(words(&["6", "1"])));
    assert_eq!(numbers_from_words(&words(&["6", "1"])), Some(vec![6, 1]));
    assert_eq!(numbers_from_words(&words(&["6", "one"])), None);
}

#[test]
fn do_move_needs_board_and_dice() {
    assert!(try_deserialize_do_move("<do-move> <dice> <die> 1 </die> </dice> </do-move>".to_string()).is_none());
    let bad_dice = "<do-move> <board> <main> </main> <home-rows> </home-rows> <home> </home> </board> <dice> <die> six </die> </dice> </do-move>".to_string();
    assert!(try_deserialize_do_move(bad_dice).is_none());
    let good = "<do-move> <board> <main> </main> <home-rows> </home-rows> <home> </home> </board> <dice> <die> 5 </die> </dice> </do-move>".to_string();
    let (b, d) = try_deserialize_do_move(good).unwrap();
    assert_eq!(b, Board::new());
    assert_eq!(d.rolls, vec![5]);
}
