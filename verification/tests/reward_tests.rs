use std::str::FromStr;

use chess::{Board, ChessMove};
use chess_mdp::encoding::get_state;
use chess_mdp::reward::{get_reward, point_difference};

fn board_after(moves: &[&str]) -> Board {
    let mut b = Board::default();
    for m in moves {
        b = b.make_move_new(ChessMove::from_str(m).expect("move"));
    }
    b
}

#[test]
fn ongoing_positions_pay_nothing() {
    let b = Board::default();
    assert_eq!(get_reward(&b, true), 0);
    assert_eq!(get_reward(&b, false), 0);
}

#[test]
fn checkmate_pays_opposite_equal_rewards() {
    // The fastest mate: white is checkmated with white to move.
    let b = board_after(&["f2f3", "e7e5", "g2g4", "d8h4"]);
    assert_eq!(get_reward(&b, true), -100_000);
    assert_eq!(get_reward(&b, false), 100_000);
    assert_eq!(get_reward(&b, true), -get_reward(&b, false));
}

#[test]
fn stalemate_pays_nothing() {
    let b = Board::from_str("k7/2Q5/1K6/8/8/8/8/8 b - - 0 1").expect("position");
    assert_eq!(get_reward(&b, true), 0);
    assert_eq!(get_reward(&b, false), 0);
}

#[test]
fn point_difference_weighs_material() {
    let mut v: Vec<i64> = vec![0; 768];
    // One mover queen: 2 * 1000 * 10.
    v[4 * 64] = 1;
    assert_eq!(point_difference(&v), 20_000);
    // An opponent pawn takes one point back off the balance.
    v[6 * 64 + 5] = 1;
    assert_eq!(point_difference(&v), 18_000);
    // An opponent king is worth nothing.
    v[11 * 64 + 9] = 1;
    assert_eq!(point_difference(&v), 18_000);
    // A mover rook and knight: + 5 + 3.
    v[3 * 64 + 7] = 1;
    v[2 * 64 + 2] = 1;
    assert_eq!(point_difference(&v), 34_000);
}

#[test]
fn point_difference_of_an_empty_board_is_zero() {
    let v: Vec<i64> = vec![0; 768];
    assert_eq!(point_difference(&v), 0);
}

#[test]
fn draw_heuristic_negates_under_the_viewpoint_swap() {
    // After 1. e4 d5 2. exd5 white is a pawn up.
    let b = board_after(&["e2e4", "d7d5", "e4d5"]);
    let from_white = point_difference(&get_state(&b, true));
    let from_black = point_difference(&get_state(&b, false));
    assert_eq!(from_white, 2_000);
    assert_eq!(from_black, -2_000);
    assert_eq!(from_white, -from_black);
}
