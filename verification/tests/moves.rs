use chess::{ChessError, Move, Piece, Square};

#[test]
fn new_move_and_getters() {
    let m1 = Move::new(Square::from_str("a4"), Square::from_str("a6"), None);
    let m2 = Move::new(
        Square::from_str("a8"),
        Square::from_index(8),
        Some(Piece::Queen),
    );
    let m3 = Move::new(
        Square::from_index(56),
        Square::from_str("a2"),
        Some(Piece::Queen),
    );

    assert_eq!(Square::from_str("a4"), m1.source());
    assert_eq!(Square::from_index(8), m2.destination());
    assert_eq!(None, m1.promotion());
    assert_eq!(Some(Piece::Queen), m2.promotion());
    assert_eq!(true, m3.is_promotion());
    assert_eq!(m2, m3);
}

#[test]
fn from_uci_ok() {
    let m1 = Move::from_uci("a6b8");
    let m2 = Move::from_uci("b5f2");
    let m3 = Move::from_uci("a7b8n");

    assert_eq!(Square::from_str("a6"), m1.source());
    assert_eq!(Square::from_str("f2"), m2.destination());
    assert_eq!(None, m2.promotion());
    assert_eq!(Some(Piece::Knight), m3.promotion());
    assert_eq!(false, m1.is_promotion());
}

#[test]
#[should_panic]
fn from_uci_err() {
    Move::try_from_uci("q7b6").unwrap();
}

#[test]
fn uci_rejects_bad_square_with_its_text() {
    let e = Move::try_from_uci("q7b6").unwrap_err();
    assert_eq!(e, ChessError::UnknownSquare(String::from("q7")));
}

#[test]
fn uci_rejects_bad_length() {
    let e = Move::try_from_uci("abc").unwrap_err();
    assert_eq!(e, ChessError::UnknownUciMove(String::from("abc")));
    let e2 = Move::try_from_uci("e2e4e5").unwrap_err();
    assert_eq!(e2, ChessError::UnknownUciMove(String::from("e2e4e5")));
}

#[test]
fn uci_rejects_bad_promotion_letter() {
    let e = Move::try_from_uci("e7e8x").unwrap_err();
    assert_eq!(e, ChessError::UnknownPiece(String::from("x")));
}

#[test]
fn uci_round_trip() {
    for text in ["e2e4", "a7a8q", "g8f6", "e7e8n", "h2h1r", "b7b8b"] {
        let m = Move::from_uci(text);
        assert_eq!(m.to_uci(), text);
        assert_eq!(Move::from_uci(&m.to_uci()), m);
    }
}

#[test]
fn square_text_round_trip() {
    for idx in 0..64u8 {
        let sq = Square::from_index(idx);
        let text = sq.to_text();
        assert_eq!(Square::try_from_str(&text).unwrap(), sq);
    }
    assert_eq!(Square::from_str("a1").index(), 0);
    assert_eq!(Square::from_str("h1").index(), 7);
    assert_eq!(Square::from_str("a8").index(), 56);
    assert_eq!(Square::from_str("h8").index(), 63);
    assert_eq!(Square::from_str("e4").rank(), 3);
    assert_eq!(Square::from_str("e4").file(), 4);
}

#[test]
fn square_rejects_bad_input() {
    assert!(Square::try_from_str("i1").is_err());
    assert!(Square::try_from_str("a9").is_err());
    assert!(Square::try_from_str("a").is_err());
    assert!(Square::try_from_str("").is_err());
    assert_eq!(
        Square::try_from_index(64).unwrap_err(),
        ChessError::UnknownSquare(String::from("64"))
    );
    assert!(Square::try_from_index(63).is_ok());
}

#[test]
fn piece_rejects_bad_letter_with_its_text() {
    assert_eq!(
        Piece::try_from_char('x').unwrap_err(),
        ChessError::UnknownPiece(String::from("x"))
    );
}
