use neetroc_bot::board::{Board, Square};


fn move_test_framework(pids: Vec<&str>, moves: Vec<(Square, Square)>) {
    println!("=== Using move_test_framework for position: {pids:?} and moves: {moves:?} ===");

    let mut board = Board::new();
    board.init_from_pid_list(pids);
    board.build_all_xchngrs();

    for (from, to) in moves {
        let next_board = board.full_process_move(from, to).expect("a piece stands on the origin");
        println!("Maximally processed exchangers post move:\n {}", next_board.to_ordered_string());

        let prpsd_board = board.pre_processed_move(from, to).expect("a piece stands on the origin");
        println!("Pre-processed move completed");

        let next_str = next_board.to_ordered_string();
        let prpsd_str = prpsd_board.to_ordered_string();

        println!("next_board piece count: {}", next_board.len());
        println!("prpsd_board piece count: {}", prpsd_board.len());

        assert_eq!(next_str, prpsd_str, "Board string representations differ");

        board = prpsd_board;
    }
}

#[test]
fn test_double_discovered_mate_move_sequence() {
    move_test_framework(
        vec!["e1K", "a6k", "a5P", "b7p", "a1R", "g2B", "g1B", "d8N"],
        vec![(Square::g2, Square::f1), (Square::b7, Square::b5)],
    );
}
