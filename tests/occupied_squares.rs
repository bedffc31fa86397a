use neetroc_bot::compass_groups::Direction;
use neetroc_bot::occupied_squares::{generate_ray_path, get_next_sqid, square_to_bit};

const HALF_WINDS: [Direction; 8] = [
    Direction::NNE,
    Direction::ENE,
    Direction::ESE,
    Direction::SSE,
    Direction::SSW,
    Direction::WSW,
    Direction::WNW,
    Direction::NNW,
];

#[test]
fn test_piece_moves() {
    let tsq = "a1";
    let sq_opt = get_next_sqid(tsq, Direction::N);
    if let Some(sq) = sq_opt {
        assert!(sq == "a2");
    } else {
        println!("{sq_opt:?} was None");
    }

    let tsq = "d4";
    let answers = ["e6", "f5", "f3", "e2", "c2", "b3", "b5", "c6"];
    for (cnt, drctn) in HALF_WINDS.iter().enumerate() {
        let sq_opt = get_next_sqid(tsq, *drctn);
        let answr = answers[cnt];
        if let Some(sq) = sq_opt {
            println!("{drctn:?} from {tsq} = {sq}, {answr:?}");
            assert!(sq == answr);
        } else {
            println!("{drctn:?} from {tsq} = {sq_opt:?}, {answr:?}");
        }
    }
}

#[test]
fn test_knight_movements() {
    println!("Entered test_knight_movements");

    let mut bit_board = 0u64;
    let squares = [
        "a1", "b3", "c2", "a8", "b6", "c7", "h1", "f2", "g3", "h8", "f7", "g6", "a4", "a5", "h4",
        "h5", "d1", "e1", "d8", "e8",
    ];
    let mut path_count = 0;
    let mut none_count = 0;

    for sq in squares {
        if let Some(bit) = square_to_bit(sq) {
            bit_board |= 1u64 << bit;
        }
    }
    for sq in squares {
        for drctn in HALF_WINDS.iter() {
            let path_opt = generate_ray_path(sq, *drctn, bit_board);
            match path_opt {
                None => {
                    none_count += 1;
                    println!("No ray path for {sq} {drctn:?}, count: {none_count}");
                }
                Some(path) => {
                    path_count += 1;
                    println!("Testing {sq} {drctn:?} got path {path}, count: {path_count}");
                }
            }
        }
    }

    assert!(path_count == 32);
    assert!(none_count == 128);
}

fn check_knight_move(origin: &str, direction: Direction, expected_target: &str, should_succeed: bool) {
    let mut occupied = 0u64;
    if let Some(origin_bit) = square_to_bit(origin) {
        occupied |= 1u64 << origin_bit;
    }
    if let Some(target_bit) = square_to_bit(expected_target) {
        occupied |= 1u64 << target_bit;
    }

    let path_opt = generate_ray_path(origin, direction, occupied);
    match path_opt {
        None => {
            println!("No ray path for {origin} {direction:?} to {expected_target}");
        }
        Some(path) => {
            println!("Testing {origin} {direction:?} to {expected_target}: got path '{path}'");
            if should_succeed {
                assert!(!path.is_empty(), "Path should not be empty for valid knight move");
                assert!(path.contains(expected_target), "Path should contain target square");
            } else {
                assert!(path.is_empty(), "Path should be empty for invalid knight move");
            }
        }
    }
}

#[test]
fn test_all_knight_moves() {
    check_knight_move("b1", Direction::ENE, "c3", true);
    check_knight_move("a1", Direction::NNE, "b3", true);

    check_knight_move("a1", Direction::ENE, "c2", true);
    check_knight_move("g1", Direction::NNE, "h3", true);

    check_knight_move("a8", Direction::ESE, "c7", true);
    check_knight_move("g8", Direction::ESE, "h6", false);

    check_knight_move("a8", Direction::SSE, "b6", true);
    check_knight_move("h8", Direction::SSE, "g6", false);

    check_knight_move("h8", Direction::SSW, "g6", true);
    check_knight_move("a8", Direction::SSW, "b6", false);

    check_knight_move("h8", Direction::WSW, "f7", true);
    check_knight_move("a8", Direction::WSW, "c7", false);

    check_knight_move("h1", Direction::WNW, "f2", true);
    check_knight_move("a1", Direction::WNW, "c2", false);

    check_knight_move("h1", Direction::NNW, "g3", true);
    check_knight_move("a1", Direction::NNW, "b3", false);
}
