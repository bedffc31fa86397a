use neetroc_bot::board::{Board, Square};
use neetroc_bot::compass_groups::{get_direction, Direction};
use neetroc_bot::exchangers::SeqKind;
use neetroc_bot::occupied_squares::{bit_to_square, generate_ray_path, get_next_sqid, square_to_bit};
use neetroc_bot::pid::Pid;
use neetroc_bot::pieces::{BasicPieceType, Piece, PieceType, Side};

fn entry_text(board: &Board, sq: Square, d: Direction) -> Option<String> {
    let piece = board.get_piece_on(sq).expect("a piece stands there");
    piece.exchanger(d).map(|x| x.to_text())
}

fn built(pids: Vec<&str>) -> Board {
    let mut board = Board::new();
    let refused = board.init_from_pid_list(pids);
    assert!(refused.is_empty());
    board.build_all_xchngrs();
    board
}

fn both_ways(board: &Board, from: Square, to: Square) -> Board {
    let full = board.full_process_move(from, to).expect("a piece stands on the origin");
    let incremental = board.pre_processed_move(from, to).expect("a piece stands on the origin");
    assert_eq!(full.to_ordered_string(), incremental.to_ordered_string());
    incremental
}

#[test]
fn pawn_capture_transfers_file_chain() {
    let board = built(vec![
        "e1K", "e2Q", "e3R", "e4R", "e5P", "e6r", "e7r", "e8q", "f8k", "f6p",
    ]);
    assert_eq!(entry_text(&board, Square::e4, Direction::N), None);
    let after = both_ways(&board, Square::e5, Square::f6);
    assert_eq!(after.get_piece_on(Square::f6).unwrap().get_pid(), "f6P");
    assert!(after.get_piece_on(Square::e5).is_none());
    assert_eq!(entry_text(&after, Square::e4, Direction::N), Some("e6re7re8q".to_string()));
    assert_eq!(entry_text(&after, Square::e6, Direction::S), Some("e4Re3Re2Q".to_string()));
    assert_eq!(after.len(), 9);
}

#[test]
fn discovered_checks_and_en_passant() {
    let board = built(vec!["e1K", "a6k", "a5P", "b7p", "a1R", "g2B", "g1B", "d8N"]);
    let first = both_ways(&board, Square::g2, Square::f1);
    let checks: Vec<&str> = first.checks().iter().map(|p| p.as_str()).collect();
    assert_eq!(checks, vec!["f1B"]);
    assert_eq!(entry_text(&first, Square::a6, Direction::S), Some(">a5Pa1R".to_string()));
    assert_eq!(first.turn(), Side::Black);

    let second = both_ways(&first, Square::b7, Square::b5);
    assert_eq!(second.en_passant_square(), Some(Square::b6));
    assert!(second.checks().is_empty());
    assert_eq!(second.turn(), Side::White);

    let third = both_ways(&second, Square::a5, Square::b6);
    assert!(third.get_piece_on(Square::b5).is_none());
    assert!(third.get_piece_on(Square::a5).is_none());
    let checks: Vec<&str> = third.checks().iter().map(|p| p.as_str()).collect();
    assert_eq!(checks, vec!["f1B", "a1R"]);
    assert_eq!(third.en_passant_square(), None);
    assert_eq!(third.len(), 7);
}

#[test]
fn standard_opening_moves_agree() {
    let mut board = Board::new();
    board.init_standard();
    board.build_all_xchngrs();
    assert_eq!(board.len(), 32);
    let moves = [
        (Square::e2, Square::e4),
        (Square::d7, Square::d5),
        (Square::e4, Square::d5),
        (Square::d8, Square::d5),
        (Square::b1, Square::c3),
        (Square::d5, Square::a5),
    ];
    for (from, to) in moves {
        board = both_ways(&board, from, to);
    }
    assert_eq!(board.len(), 30);
    assert_eq!(board.moves().len(), 6);
}

#[test]
fn custom_positions_agree() {
    let mut board = Board::new();
    board.init_custom1();
    board.build_all_xchngrs();
    for (from, to) in [(Square::d3, Square::f3), (Square::a5, Square::b5), (Square::f7, Square::f3)] {
        board = both_ways(&board, from, to);
    }
    let mut board = Board::new();
    board.init_custom_from();
    board.build_all_xchngrs();
    for (from, to) in [(Square::c6, Square::e7), (Square::g7, Square::b2), (Square::e3, Square::g3)] {
        board = both_ways(&board, from, to);
    }
}

#[test]
fn stale_board_moves_by_rebuild() {
    let mut board = built(vec!["e1K", "e8k", "a1R"]);
    board.create_and_place_piece("d2P").unwrap();
    let full = board.full_process_move(Square::a1, Square::a8).unwrap();
    let incremental = board.pre_processed_move(Square::a1, Square::a8).unwrap();
    assert_eq!(full.to_ordered_string(), incremental.to_ordered_string());
}

#[test]
fn pin_and_skewer_sequences() {
    let board = built(vec!["e1K", "e2B", "e8r", "a5k", "c5N", "h5Q"]);
    let pin = board.get_piece_on(Square::e1).unwrap().exchanger(Direction::N).unwrap();
    assert_eq!(pin.kind, SeqKind::Pin);
    assert_eq!(pin.to_text(), "<e2Be8r");
    let skewer = board.get_piece_on(Square::a5).unwrap().exchanger(Direction::E).unwrap();
    assert_eq!(skewer.kind, SeqKind::Skewer);
    assert_eq!(skewer.to_text(), ">c5Nh5Q");

    let no_pin = built(vec!["e1K", "e2B", "e8b"]);
    assert!(no_pin.get_piece_on(Square::e1).unwrap().exchanger(Direction::N).is_none());
    let attacker_same_side = built(vec!["e1K", "e2B", "e8R"]);
    assert!(attacker_same_side.get_piece_on(Square::e1).unwrap().exchanger(Direction::N).is_none());
}

#[test]
fn rebuild_twice_is_identical() {
    let mut board = Board::new();
    board.init_standard();
    board.build_all_xchngrs();
    let once = board.to_ordered_string();
    board.build_all_xchngrs();
    assert_eq!(once, board.to_ordered_string());
}

#[test]
fn occupancy_matches_pieces() {
    let mut board = Board::new();
    board.init_double_discovered_check();
    board.build_all_xchngrs();
    let board = both_ways(&board, Square::g2, Square::f1);
    let bits = board.get_occupied_bitboard();
    assert_eq!(bits.count_ones() as usize, board.len());
    for piece in board.iter_pieces() {
        let bit = square_to_bit(piece.get_square()).unwrap();
        assert!(bits & (1u64 << bit) != 0);
    }
    assert!(board.is_square_occupied(Square::f1));
    assert!(!board.is_square_occupied(Square::g2));
}

#[test]
fn ordered_dump_format() {
    let mut board = Board::new();
    board.create_and_place_piece("a1R").unwrap();
    board.create_and_place_piece("a3k").unwrap();
    board.build_all_xchngrs();
    assert_eq!(
        board.to_ordered_string(),
        "occupied: 65537, moves: [], turn: White, checks: , en_passant: None\na1R |\na3k | S:a1R\n"
    );
    let moved = board.pre_processed_move(Square::a1, Square::a2).unwrap();
    assert_eq!(
        moved.to_ordered_string(),
        "occupied: 65792, moves: [(a1, a2)], turn: Black, checks: [a2R], en_passant: None\na2R | N:a3k\na3k | S:a2R\n"
    );
}

#[test]
fn per_piece_updates_list_each_direction() {
    let board = built(vec!["d4N", "e6n", "d1R"]);
    let data = PieceType::WhiteKnight.get_data();
    let ups = board.updates_per_piece(&Square::d4, &data);
    let texts: Vec<(Direction, String)> = ups.into_iter().map(|(_, d, t)| (d, t)).collect();
    assert!(texts.contains(&(Direction::NNE, "e6n".to_string())));
    assert!(texts.contains(&(Direction::S, "d1R".to_string())));
    assert!(texts.contains(&(Direction::N, String::new())));
}

#[test]
fn invalid_identifiers_are_refused() {
    let err = Pid::new("z9K").unwrap_err();
    assert_eq!(err, "'z9K' is not a valid 3-letter uppercase code.");
    assert!(Pid::new("e1X").is_err());
    assert!(Pid::new("e1Kk").is_err());
    let mut board = Board::new();
    assert!(board.create_and_place_piece("i1K").is_err());
    assert!(board.is_empty());
    let refused = board.init_from_pid_list(vec!["e1K", "e9q", "a1R"]);
    assert_eq!(refused, vec!["'e9q' is not a valid 3-letter uppercase code.".to_string()]);
    assert_eq!(board.len(), 2);
}

#[test]
fn move_from_empty_square_gives_no_board() {
    let board = built(vec!["e1K"]);
    assert!(board.full_process_move(Square::a1, Square::a2).is_none());
    assert!(board.pre_processed_move(Square::a1, Square::a2).is_none());
}

#[test]
fn pid_text_round_trip() {
    let files = "abcdefgh";
    let ranks = "12345678";
    let letters = "KQRBNPkqrbnp";
    for f in files.chars() {
        for r in ranks.chars() {
            for l in letters.chars() {
                let text: String = [f, r, l].iter().collect();
                let pid = Pid::new(&text).unwrap();
                assert_eq!(pid.as_str(), text);
                let again = Pid::new(pid.as_str()).unwrap();
                assert_eq!(again.as_str(), pid.as_str());
                assert_eq!(pid.get_square(), &text[0..2]);
                assert_eq!(pid.clone().into_string(), text);
            }
        }
    }
    let p = Pid::from_parts(12, PieceType::BlackQueen);
    assert_eq!(p.as_str(), "e2q");
    assert_eq!(p.clone().get_side(), Side::Black);
    assert_eq!(p.get_piece_data().basic_piece_type, BasicPieceType::Queen);
}

#[test]
fn piece_accessors() {
    let piece = Piece::new(Pid::new("c7n").unwrap());
    assert_eq!(piece.get_pid(), "c7n");
    assert_eq!(piece.get_square(), "c7");
    assert_eq!(piece.get_piece_type_as_char(), 'n');
    assert_eq!(piece.get_piece_side(), Side::Black);
    assert!(!piece.get_piece_data().is_sliding);
    assert_eq!(piece.get_piece_data().directions.len(), 8);
    assert_eq!(piece.to_display_string(), "c7n |");
    assert_eq!(BasicPieceType::from_char('q'), Some(BasicPieceType::Queen));
    assert_eq!(PieceType::from_char('q'), Some(PieceType::BlackQueen));
    assert_eq!(PieceType::get_piece_type('x'), None);
    assert_eq!(PieceType::WhitePawn.get_data().directions, vec![Direction::N, Direction::NE, Direction::NW]);
}

#[test]
fn square_text_conversions() {
    assert_eq!(square_to_bit("a1"), Some(0));
    assert_eq!(square_to_bit("h8"), Some(63));
    assert_eq!(square_to_bit("e4"), Some(28));
    assert_eq!(square_to_bit("i4"), None);
    assert_eq!(square_to_bit("e44"), None);
    assert_eq!(bit_to_square(28), Some("e4".to_string()));
    assert_eq!(bit_to_square(64), None);
    assert_eq!(get_next_sqid("h4", Direction::E), None);
    assert_eq!(get_next_sqid("g7", Direction::NNE), None);
    assert_eq!(get_next_sqid("e4", Direction::SW), Some("d3".to_string()));
    assert_eq!(get_next_sqid("x4", Direction::N), None);
    assert_eq!(Square::from_index(28), Square::e4);
    assert_eq!(Square::e4.index(), 28);
}

#[test]
fn ray_paths_are_bounded() {
    let full: u64 = u64::MAX;
    assert_eq!(generate_ray_path("a1", Direction::N, full), Some("a2a3a4a5a6a7a8".to_string()));
    assert_eq!(generate_ray_path("a1", Direction::NE, full), Some("b2c3d4e5f6g7h8".to_string()));
    assert_eq!(generate_ray_path("d4", Direction::NNE, full), Some("e6".to_string()));
    assert_eq!(generate_ray_path("a1", Direction::W, full), None);
    let some: u64 = (1u64 << 3) | (1u64 << 59);
    assert_eq!(generate_ray_path("d4", Direction::N, some), Some("_d8".to_string()));
    assert_eq!(generate_ray_path("d4", Direction::S, some), Some("_d1".to_string()));
    assert_eq!(generate_ray_path("q4", Direction::S, some), None);
}

#[test]
fn directions_between_squares() {
    assert_eq!(get_direction(Square::e1, Square::e8), Some(Direction::N));
    assert_eq!(get_direction(Square::g2, Square::f1), Some(Direction::SW));
    assert_eq!(get_direction(Square::b1, Square::c3), Some(Direction::NNE));
    assert_eq!(get_direction(Square::g1, Square::e2), Some(Direction::WNW));
    assert_eq!(get_direction(Square::a1, Square::b4), None);
    assert_eq!(get_direction(Square::a1, Square::a1), None);
    assert_eq!(Direction::NNE.opposite(), Direction::SSW);
    assert_eq!(Direction::W.opposite(), Direction::E);
}

#[test]
fn remove_and_clear() {
    let mut board = built(vec!["e1K", "e8k"]);
    board.remove_piece_from(Square::e8);
    assert_eq!(board.len(), 1);
    assert_eq!(board.get_occupied_bitboard(), 1u64 << 4);
    board.remove_piece_from(Square::e8);
    assert_eq!(board.len(), 1);
    board.place_piece(Piece::new(Pid::new("h8q").unwrap()));
    assert_eq!(board.get_occupied_bitboard(), (1u64 << 4) | (1u64 << 63));
    board.clear();
    assert!(board.is_empty());
    assert_eq!(board.get_occupied_bitboard(), 0);
}
