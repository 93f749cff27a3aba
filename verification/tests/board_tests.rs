use chess::{Board, ChessError, Color, Move, Piece, Square};

const START_FEN: &str = "rnbqkbnr/pppppppp/8/8/8/8/PPPPPPPP/RNBQKBNR w KQkq - 0 1";

fn perft(b: &Board, depth: u32) -> u64 {
    if depth == 0 {
        return 1;
    }
    let mut nodes: u64 = 0;
    for m in b.legal_moves() {
        let mut nb = *b;
        nb.push(m).unwrap();
        nodes += perft(&nb, depth - 1);
    }
    nodes
}

#[test]
fn start_position_renders_standard_fen() {
    assert_eq!(Board::default().to_fen(), START_FEN);
}

#[test]
fn fen_round_trip() {
    let records = [
        START_FEN,
        "r1bqk2r/ppp2ppp/2n2n2/2bpP3/2Bp4/5N2/PPP2PPP/RNBQKR2 w Qkq d6 0 7",
        "8/8/8/8/8/8/8/K6k w - - 42 99",
        "rnbqkbnr/pppppppp/8/8/4P3/8/PPPP1PPP/RNBQKBNR b KQkq e3 0 1",
        "r3k2r/8/8/8/8/8/8/R3K2R w KQkq - 10 30",
    ];
    for fen in records {
        let b = Board::from_fen(fen).unwrap();
        assert_eq!(b.to_fen(), fen);
        let b2 = Board::from_fen(&b.to_fen()).unwrap();
        assert_eq!(b, b2);
    }
}

#[test]
fn fen_rejects_garbage() {
    let e = Board::from_fen("not a fen").unwrap_err();
    assert_eq!(e, ChessError::InvalidFen(String::from("not a fen")));
    assert!(Board::from_fen("").is_err());
    assert!(Board::from_fen("rnbqkbnr/pppppppp/8/8/8/8/PPPPPPPP/RNBQKBNR w KQkq - 0").is_err());
    assert!(Board::from_fen("rnbqkbnr/pppppppp/8/8/8/8/PPPPPPPP/RNBQKBNR x KQkq - 0 1").is_err());
    assert!(Board::from_fen("rnbqkbnr/pppppppp/8/8/8/8/PPPPPPPP/RNBQKBNR w KQkq - 0 0").is_err());
    assert!(Board::from_fen("rnbqkbnr/pppppppp/8/8/8/PPPPPPPP/RNBQKBNR w KQkq - 0 1").is_err());
}

#[test]
fn fen_rejects_inconsistent_setup() {
    let e = Board::from_fen("k7/8/8/8/8/8/8/KK6 w - - 0 1").unwrap_err();
    assert_eq!(
        e,
        ChessError::BoardSetup(String::from("k7/8/8/8/8/8/8/KK6 w - - 0 1"))
    );
    assert!(Board::from_fen("8/8/8/8/8/8/8/K7 w - - 0 1").is_err());
}

#[test]
fn perft_depth_one_two() {
    let b = Board::default();
    assert_eq!(perft(&b, 1), 20);
    assert_eq!(perft(&b, 2), 400);
}

#[test]
fn perft_depth_three() {
    let b = Board::default();
    assert_eq!(perft(&b, 3), 8902);
}

#[test]
fn kingside_castling_moves_king_and_rook_and_clears_rights() {
    let mut b = Board::from_fen("rnbqkbnr/pppppppp/8/8/8/5N2/PPPPPPPP/RNBQK2R w KQkq - 0 1")
        .unwrap();
    b.push(Move::from_uci("e1g1")).unwrap();
    assert_eq!(
        b.piece_at(Square::from_str("g1").index()),
        Some((Color::White, Piece::King))
    );
    assert_eq!(
        b.piece_at(Square::from_str("f1").index()),
        Some((Color::White, Piece::Rook))
    );
    assert_eq!(b.piece_at(Square::from_str("e1").index()), None);
    assert_eq!(b.piece_at(Square::from_str("h1").index()), None);
    assert!(!b.castling_rights.white_kingside);
    assert!(!b.castling_rights.white_queenside);
    assert!(b.castling_rights.black_kingside);
    assert_eq!(
        b.to_fen(),
        "rnbqkbnr/pppppppp/8/8/8/5N2/PPPPPPPP/RNBQ1RK1 b kq - 1 1"
    );
}

#[test]
fn double_push_sets_en_passant_and_capture_removes_passed_pawn() {
    let mut b = Board::default();
    b.push(Move::from_uci("e2e4")).unwrap();
    assert_eq!(b.en_passant, Some(Square::from_str("e3")));
    b.push(Move::from_uci("a7a6")).unwrap();
    assert_eq!(b.en_passant, None);
    b.push(Move::from_uci("e4e5")).unwrap();
    b.push(Move::from_uci("d7d5")).unwrap();
    assert_eq!(b.en_passant, Some(Square::from_str("d6")));
    // En-passant capture: the white pawn lands on d6 and the passed black
    // pawn on d5 disappears, though d6 itself was empty.
    b.push(Move::from_uci("e5d6")).unwrap();
    assert_eq!(
        b.piece_at(Square::from_str("d6").index()),
        Some((Color::White, Piece::Pawn))
    );
    assert_eq!(b.piece_at(Square::from_str("d5").index()), None);
    assert_eq!(b.piece_at(Square::from_str("e5").index()), None);
}

#[test]
fn illegal_move_is_rejected_and_mutates_nothing() {
    let mut b = Board::default();
    let before = b;
    let e = b.push(Move::from_uci("e2e5")).unwrap_err();
    assert_eq!(e, ChessError::InvalidMove(String::from("e2e5")));
    assert_eq!(b, before);
    // Moving an opponent piece, capturing an own piece, and castling without
    // a clear path are rejected the same way.
    assert!(b.push(Move::from_uci("e7e5")).is_err());
    assert!(b.push(Move::from_uci("a1a2")).is_err());
    assert!(b.push(Move::from_uci("e1g1")).is_err());
    assert_eq!(b, before);
}

#[test]
fn promotion_is_applied_and_required() {
    let mut b = Board::from_fen("k7/6P1/8/8/8/8/8/K7 w - - 0 1").unwrap();
    // A pawn reaching the last rank must name a promotion piece.
    assert!(b.push(Move::from_uci("g7g8")).is_err());
    b.push(Move::from_uci("g7g8q")).unwrap();
    assert_eq!(
        b.piece_at(Square::from_str("g8").index()),
        Some((Color::White, Piece::Queen))
    );
    assert_eq!(b.piece_at(Square::from_str("g7").index()), None);
}

#[test]
fn legal_moves_keep_own_king_safe() {
    // The white king on e1 stands in check from the black rook on e8: every
    // legal move must address the check, e.g. the bishop block on e3.
    let b = Board::from_fen("4r2k/8/8/8/8/8/3B4/4K3 w - - 0 1").unwrap();
    let moves = b.legal_moves();
    for m in &moves {
        let mut nb = b;
        nb.push(*m).unwrap();
        assert!(!nb.attacked(
            nb.bb(Color::White, Piece::King).lowest().unwrap(),
            Color::Black
        ));
    }
    let texts: Vec<String> = moves.iter().map(|m| m.to_uci()).collect();
    assert!(texts.contains(&String::from("d2e3")));
    assert!(!texts.contains(&String::from("d2c3")));
}

#[test]
fn generation_is_deterministic_and_filters_pseudo_legal() {
    let b = Board::from_fen("4r2k/8/8/8/8/8/3B4/4K3 w - - 0 1").unwrap();
    assert_eq!(b.legal_moves(), b.legal_moves());
    let pseudo = b.pseudo_legal_moves();
    let legal = b.legal_moves();
    for m in &legal {
        assert!(pseudo.contains(m));
    }
    assert!(legal.len() < pseudo.len());
}

#[test]
fn halfmove_and_fullmove_clocks_follow_the_rules() {
    let mut b = Board::default();
    b.push(Move::from_uci("g1f3")).unwrap();
    assert_eq!(b.halfmove_clock, 1);
    assert_eq!(b.fullmove_number, 1);
    b.push(Move::from_uci("b8c6")).unwrap();
    assert_eq!(b.halfmove_clock, 2);
    assert_eq!(b.fullmove_number, 2);
    b.push(Move::from_uci("e2e4")).unwrap();
    assert_eq!(b.halfmove_clock, 0);
    assert_eq!(b.fullmove_number, 2);
}

#[test]
fn color_and_castling_text_round_trip() {
    assert_eq!(Color::try_from_str("w").unwrap(), Color::White);
    assert_eq!(Color::try_from_str("b").unwrap(), Color::Black);
    assert_eq!(
        Color::try_from_str("x").unwrap_err(),
        ChessError::UnknownColor(String::from("x"))
    );
    assert_eq!(Color::White.opposite(), Color::Black);
    assert_eq!(Color::White.to_text(), "w");

    let all = chess::CastlingRights::all();
    assert_eq!(all.to_text(), "KQkq");
    assert_eq!(chess::CastlingRights::try_from_str("KQkq").unwrap(), all);
    let none = chess::CastlingRights::none();
    assert_eq!(none.to_text(), "-");
    assert_eq!(chess::CastlingRights::try_from_str("-").unwrap(), none);
    assert_eq!(
        chess::CastlingRights::try_from_str("KX").unwrap_err(),
        ChessError::UnknownCastlingRights(String::from("KX"))
    );
    assert_eq!(
        chess::CastlingRights::try_from_str("").unwrap_err(),
        ChessError::UnknownCastlingRights(String::from(""))
    );
}

#[test]
fn piece_letters_round_trip() {
    assert_eq!(Piece::try_from_char('n').unwrap(), Piece::Knight);
    assert_eq!(Piece::try_from_char('N').unwrap(), Piece::Knight);
    assert!(Piece::try_from_char('x').is_err());
    assert_eq!(Piece::Queen.to_text(), "q");
}

#[test]
fn bitboard_shifts_mask_wraparound() {
    let e4 = chess::Bitboard::empty().insert(Square::from_str("e4").index());
    assert!(e4.shift_north().get(Square::from_str("e5").index()));
    assert!(e4.shift_south().get(Square::from_str("e3").index()));
    assert!(e4.shift_east().get(Square::from_str("f4").index()));
    assert!(e4.shift_west().get(Square::from_str("d4").index()));
    assert!(e4.shift_northeast().get(Square::from_str("f5").index()));
    assert!(e4.shift_northwest().get(Square::from_str("d5").index()));
    assert!(e4.shift_southeast().get(Square::from_str("f3").index()));
    assert!(e4.shift_southwest().get(Square::from_str("d3").index()));
    // An east shift of the h-file must not wrap onto the a-file.
    let h4 = chess::Bitboard::empty().insert(Square::from_str("h4").index());
    assert_eq!(h4.shift_east().count(), 0);
    let a4 = chess::Bitboard::empty().insert(Square::from_str("a4").index());
    assert_eq!(a4.shift_west().count(), 0);
    assert_eq!(a4.shift_southwest().count(), 0);
    let h8 = chess::Bitboard::empty().insert(Square::from_str("h8").index());
    assert_eq!(h8.shift_north().count(), 0);
    assert_eq!(h8.shift_northeast().count(), 0);
}

#[test]
fn bitboard_set_operations() {
    let a = chess::Bitboard::empty().insert(0).insert(9);
    let b = chess::Bitboard::empty().insert(9).insert(63);
    assert!(a.get(0) && a.get(9) && !a.get(1));
    assert_eq!(a.union(b).count(), 3);
    assert_eq!(a.intersect(b).count(), 1);
    assert_eq!(a.difference(b).count(), 1);
    assert_eq!(a.remove(9).count(), 1);
    assert_eq!(a.lowest(), Some(0));
    assert_eq!(chess::Bitboard::empty().lowest(), None);
    assert_eq!(a.complement().count(), 62);
}
