use parcheesi_xml::board::{Board, Color, Dice, Loc, Move, MoveType, Pawn};
use parcheesi_xml::deserialize::{
    deserialize_board, deserialize_decision, deserialize_dice, deserialize_do_move,
    deserialize_moves, XmlMessage,
};

/// The board of a new game, written as the players' board messages write it.
const NEW_BOARD_XML: &str = "<board> <start> <pawn> <color> yellow </color> <id> 3 </id> </pawn> <pawn> <color> yellow </color> <id> 2 </id> </pawn> <pawn> <color> yellow </color> <id> 1 </id> </pawn> <pawn> <color> yellow </color> <id> 0 </id> </pawn> <pawn> <color> red </color> <id> 3 </id> </pawn> <pawn> <color> red </color> <id> 2 </id> </pawn> <pawn> <color> red </color> <id> 1 </id> </pawn> <pawn> <color> red </color> <id> 0 </id> </pawn> <pawn> <color> green </color> <id> 3 </id> </pawn> <pawn> <color> green </color> <id> 2 </id> </pawn> <pawn> <color> green </color> <id> 1 </id> </pawn> <pawn> <color> green </color> <id> 0 </id> </pawn> <pawn> <color> blue </color> <id> 3 </id> </pawn> <pawn> <color> blue </color> <id> 2 </id> </pawn> <pawn> <color> blue </color> <id> 1 </id> </pawn> <pawn> <color> blue </color> <id> 0 </id> </pawn> </start> <main> </main> <home-rows> </home-rows> <home> </home> </board>";

#[test]
fn deserialize_decision_test() {
    let start_response: String = "<start-game> egal".to_string();
    let do_move: String = "<do-move> egal".to_string();
    let doubles_penalty: String = "<doubles-penalty egal".to_string();
    assert!(XmlMessage::StartGame == deserialize_decision(start_response));
    assert!(XmlMessage::DoMove == deserialize_decision(do_move));
    assert!(XmlMessage::DoublesPenalty == deserialize_decision(doubles_penalty));
}

#[test]
fn move_vector_test() {
    let m_1: Move = Move {
        m_type: MoveType::EnterPiece,
        pawn: Pawn { color: Color::Red, id: 2 },
    };
    let m_2: Move = Move {
        m_type: MoveType::MoveHome { start: 101, distance: 3 },
        pawn: Pawn { color: Color::Red, id: 2 },
    };
    let m_3: Move = Move {
        m_type: MoveType::MoveMain { start: 12, distance: 3 },
        pawn: Pawn { color: Color::Red, id: 2 },
    };
    let m_vec: Vec<Move> = vec![m_1.clone(), m_2.clone(), m_3.clone()];
    let xml = "<moves> <enter-piece> <pawn> <color> red </color> <id> 2 </id> </pawn> </enter-piece> <move-piece-home> <pawn> <color> red </color> <id> 2 </id> </pawn> <start> 101 </start> <distance> 3 </distance> </move-piece-home> <move-piece-main> <pawn> <color> red </color> <id> 2 </id> </pawn> <start> 12 </start> <distance> 3 </distance> </move-piece-main> </moves>".to_string();
    let test: Vec<Move> = deserialize_moves(xml);
    assert!(m_vec == test);
}

#[test]
fn deserialize_board_test() {
    assert!(Board::new() == deserialize_board(NEW_BOARD_XML.to_string()));
}

#[test]
fn deserialize_board_real_test() {
    let test_board: Board = Board::from_rows(
        [Loc::Home, Loc::Spot { index: 4 }, Loc::Nest, Loc::Spot { index: 101 }],
        [Loc::Nest, Loc::Spot { index: 202 }, Loc::Home, Loc::Spot { index: 21 }],
        [Loc::Spot { index: 303 }, Loc::Home, Loc::Spot { index: 38 }, Loc::Nest],
        [Loc::Spot { index: 55 }, Loc::Nest, Loc::Spot { index: 400 }, Loc::Home],
    );
    let test_response: String = "<board> <start> <pawn> <color> yellow </color> <id> 3 </id> </pawn> <pawn> <color> red </color> <id> 2 </id> </pawn> <pawn> <color> green </color> <id> 1 </id> </pawn> <pawn> <color> blue </color> <id> 0 </id> </pawn> </start> <main> <piece-loc> <pawn> <color> yellow </color> <id> 2 </id> </pawn> <loc> 56 </loc> </piece-loc> <piece-loc> <pawn> <color> blue </color> <id> 3 </id> </pawn> <loc> 39 </loc> </piece-loc> <piece-loc> <pawn> <color> red </color> <id> 1 </id> </pawn> <loc> 22 </loc> </piece-loc> <piece-loc> <pawn> <color> green </color> <id> 0 </id> </pawn> <loc> 5 </loc> </piece-loc> </main> <home-rows> <piece-loc> <pawn> <color> green </color> <id> 2 </id> </pawn> <loc> 0 </loc> </piece-loc> <piece-loc> <pawn> <color> red </color> <id> 3 </id> </pawn> <loc> 1 </loc> </piece-loc> <piece-loc> <pawn> <color> blue </color> <id> 1 </id> </pawn> <loc> 2 </loc> </piece-loc> <piece-loc> <pawn> <color> yellow </color> <id> 0 </id> </pawn> <loc> 3 </loc> </piece-loc> </home-rows> <home> <pawn> <color> yellow </color> <id> 1 </id> </pawn> <pawn> <color> red </color> <id> 0 </id> </pawn> <pawn> <color> green </color> <id> 3 </id> </pawn> <pawn> <color> blue </color> <id> 2 </id> </pawn> </home> </board>".to_string();
    assert!(test_board == deserialize_board(test_response));
}

#[test]
fn deserialize_board_basic_test() {
    let board: Board = Board::new();
    let test_string = "<board> <start> <pawn> <color> yellow </color> <id> 3 </id> </pawn> <pawn> <color> yellow </color> <id> 2 </id> </pawn> <pawn> <color> yellow </color> <id> 1 </id> </pawn> <pawn> <color> yellow </color> <id> 0 </id> </pawn> <pawn> <color> red </color> <id> 3 </id> </pawn> <pawn> <color> red </color> <id> 2 </id> </pawn> <pawn> <color> red </color> <id> 1 </id> </pawn> <pawn> <color> red </color> <id> 0 </id> </pawn> <pawn> <color> green </color> <id> 3 </id> </pawn> <pawn> <color> green </color> <id> 2 </id> </pawn> <pawn> <color> green </color> <id> 1 </id> </pawn> <pawn> <color> green </color> <id> 0 </id></pawn> <pawn> <color> blue </color> <id> 3 </id> </pawn> <pawn> <color> blue </color> <id> 2 </id> </pawn> <pawn> <color> blue </color> <id> 1 </id> </pawn> <pawn> <color> blue </color> <id> 0 </id> </pawn> </start> <main> </main> <home-rows></home-rows> <home> </home> </board>".to_string();
    assert!(board == deserialize_board(test_string));
}

#[test]
fn deserialize_dice_test() {
    let dice: Dice = Dice { rolls: vec![1, 2, 3, 4] };
    let xml = "<dice> <die> 1 </die> <die> 2 </die> <die> 3 </die> <die> 4 </die> </dice>".to_string();
    assert!(dice == deserialize_dice(xml));
}

#[test]
fn deserialize_do_move_test1() {
    let result: String = "<do-move><board><start><pawn><color>yellow</color><id>3</id></pawn><pawn><color>yellow</color><id>2</id></pawn><pawn><color>yellow</color><id>1</id></pawn><pawn><color>yellow</color><id>0</id></pawn><pawn><color>red</color><id>3</id></pawn><pawn><color>red</color><id>2</id></pawn><pawn><color>red</color><id>1</id></pawn><pawn><color>red</color><id>0</id></pawn><pawn><color>green</color><id>3</id></pawn><pawn><color>green</color><id>2</id></pawn><pawn><color>green</color><id>1</id></pawn><pawn><color>green</color><id>0</id></pawn><pawn><color>blue</color><id>3</id></pawn><pawn><color>blue</color><id>2</id></pawn><pawn><color>blue</color><id>1</id></pawn><pawn><color>blue</color><id>0</id></pawn></start><main></main><home-rows></home-rows><home></home></board><dice><die>2</die><die>3</die></dice></do-move>".to_string();
    let (board, dice) = deserialize_do_move(result);
    let test_dice: Dice = Dice { rolls: vec![2, 3] };
    let test_board: Board = Board::new();
    assert!(test_dice == dice);
    assert!(test_board == board);
}

#[test]
fn deserialize_do_move_test() {
    let board: Board = Board::new();
    let dice: Dice = Dice { rolls: vec![1, 2] };
    let xml = format!(
        "<do-move> {} <dice> <die> 1 </die> <die> 2 </die> </dice> </do-move>",
        NEW_BOARD_XML
    );
    assert!((board.clone(), dice.clone()) == deserialize_do_move(xml));
}
