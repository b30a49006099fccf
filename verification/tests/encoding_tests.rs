use std::str::FromStr;

use chess::{Board, ChessMove};
use chess_mdp::encoding::{get_action, get_state, EncodingError};

fn board_after(moves: &[&str]) -> Board {
    let mut b = Board::default();
    for m in moves {
        b = b.make_move_new(ChessMove::from_str(m).expect("move"));
    }
    b
}

#[test]
fn state_has_768_binary_cells() {
    let b = Board::default();
    for mover_white in [true, false] {
        let v = get_state(&b, mover_white);
        assert_eq!(v.len(), 768);
        assert!(v.iter().all(|&c| c == 0 || c == 1));
    }
}

#[test]
fn state_blocks_match_the_starting_position() {
    let b = Board::default();
    let v = get_state(&b, true);
    // White pawns stand on squares 8..16 (rank 2); block 0 is the mover's pawns.
    for i in 0..64 {
        let expected = if (8..16).contains(&i) { 1 } else { 0 };
        assert_eq!(v[i], expected, "pawn block cell {}", i);
    }
    // The mover's king block (block 5) holds e1 = square 4.
    for i in 0..64 {
        let expected = if i == 4 { 1 } else { 0 };
        assert_eq!(v[5 * 64 + i], expected, "king block cell {}", i);
    }
    // The opponent's pawn block (block 6) holds rank 7, squares 48..56.
    for i in 0..64 {
        let expected = if (48..56).contains(&i) { 1 } else { 0 };
        assert_eq!(v[6 * 64 + i], expected, "opponent pawn cell {}", i);
    }
}

#[test]
fn state_for_the_black_mover_is_mirrored() {
    let b = Board::default();
    let v = get_state(&b, false);
    // Black pawns stand on squares 48..56; mirrored through 63 - i they fill
    // cells 8..16 of the mover's pawn block.
    for i in 0..64 {
        let expected = if (8..16).contains(&i) { 1 } else { 0 };
        assert_eq!(v[i], expected, "mirrored pawn cell {}", i);
    }
    // The black king on e8 = square 60 lands on cell 3 of the king block.
    assert_eq!(v[5 * 64 + 3], 1);
    assert_eq!(v[5 * 64 + 4], 0);
}

#[test]
fn state_mirror_symmetry_on_an_uneven_position() {
    let b = board_after(&["e2e4"]);
    let from_white = get_state(&b, true);
    let from_black = get_state(&b, false);
    for j in 0..6 {
        for i in 0..64 {
            assert_eq!(
                from_white[j * 64 + i],
                from_black[(j + 6) * 64 + (63 - i)],
                "mover block {} cell {}",
                j,
                i
            );
            assert_eq!(
                from_white[(j + 6) * 64 + i],
                from_black[j * 64 + (63 - i)],
                "opponent block {} cell {}",
                j,
                i
            );
        }
    }
}

#[test]
fn state_blocks_hold_one_cell_per_piece() {
    let b = Board::default();
    let v = get_state(&b, true);
    // One queen each: the queen blocks (4 and 10) hold exactly one set cell.
    let mover_queens: i64 = v[4 * 64..5 * 64].iter().sum();
    let opponent_queens: i64 = v[10 * 64..11 * 64].iter().sum();
    assert_eq!(mover_queens, 1);
    assert_eq!(opponent_queens, 1);
    // Eight pawns each.
    let mover_pawns: i64 = v[0..64].iter().sum();
    assert_eq!(mover_pawns, 8);
}

#[test]
fn action_is_one_hot_for_the_white_mover() {
    let v = get_action("e2e4", true).expect("well-formed token");
    assert_eq!(v.len(), 132);
    // e2 is square 12, e4 is square 28.
    for i in 0..64 {
        assert_eq!(v[i], if i == 12 { 1 } else { 0 }, "origin cell {}", i);
        assert_eq!(v[64 + i], if i == 28 { 1 } else { 0 }, "destination cell {}", i);
    }
    assert_eq!(&v[128..132], &[0, 0, 0, 0]);
}

#[test]
fn action_is_mirrored_for_the_black_mover() {
    let v = get_action("e2e4", false).expect("well-formed token");
    for i in 0..64 {
        assert_eq!(v[i], if i == 51 { 1 } else { 0 }, "origin cell {}", i);
        assert_eq!(v[64 + i], if i == 35 { 1 } else { 0 }, "destination cell {}", i);
    }
}

#[test]
fn action_promotion_block() {
    assert_eq!(&get_action("e7e8q", true).unwrap()[128..132], &[0, 0, 0, 1]);
    assert_eq!(&get_action("a7a8b", true).unwrap()[128..132], &[1, 0, 0, 0]);
    assert_eq!(&get_action("a7a8n", true).unwrap()[128..132], &[0, 1, 0, 0]);
    assert_eq!(&get_action("a7a8r", true).unwrap()[128..132], &[0, 0, 1, 0]);
    // An unrecognised promotion letter falls back to the queen.
    assert_eq!(&get_action("a7a8z", true).unwrap()[128..132], &[0, 0, 0, 1]);
    // Without a fifth character the block stays all zero.
    assert_eq!(&get_action("a7a8", true).unwrap()[128..132], &[0, 0, 0, 0]);
}

#[test]
fn action_rejects_malformed_tokens() {
    assert_eq!(get_action("", true), Err(EncodingError::BadLength));
    assert_eq!(get_action("e2", true), Err(EncodingError::BadLength));
    assert_eq!(get_action("e2e4e5", true), Err(EncodingError::BadLength));
    assert_eq!(get_action("i2e4", true), Err(EncodingError::BadSquare));
    assert_eq!(get_action("e9e4", true), Err(EncodingError::BadSquare));
    assert_eq!(get_action("e2i4", true), Err(EncodingError::BadSquare));
    assert_eq!(get_action("12e4", true), Err(EncodingError::BadSquare));
}
