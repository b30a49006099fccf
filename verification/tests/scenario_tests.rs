use chess::{Board, MoveGen};
use chess_mdp::encoding::{get_action, get_state};
use chess_mdp::policy::best_index;
use chess_mdp::selfplay::{plays_by_policy, SelfPlay};

// One full mover turn from the starting position: a draw of 0.9 forces the
// policy move; a stub evaluator that prefers the king's pawn double step
// selects it; the state reached afterwards encodes the emptied e2 square and
// the occupied e4 square.
#[test]
fn a_policy_turn_from_the_start_encodes_the_played_move() {
    let board = Board::default();
    let r: u64 = 900;
    assert!(plays_by_policy(r));

    let legal: Vec<chess::ChessMove> = MoveGen::new_legal(&board).collect();
    let scores: Vec<i64> = legal
        .iter()
        .map(|m| if m.to_string() == "e2e4" { 1_000 } else { 0 })
        .collect();
    let chosen = legal[best_index(&scores).expect("moves exist")];
    assert_eq!(chosen.to_string(), "e2e4");

    let state = get_state(&board, true);
    let action = get_action(&chosen.to_string(), true).expect("token");
    let mut game = SelfPlay::new();
    game.begin_turn(r, state, action);

    let next_board = board.make_move_new(chosen);
    let next_state = get_state(&next_board, true);
    // e2 is square 12 and e4 square 28 of the mover's pawn block.
    assert_eq!(next_state[12], 0);
    assert_eq!(next_state[28], 1);

    // The turn pair completes, but a draw of 0.9 is not retained.
    game.finish_reply(0, next_state, next_board);
    assert_eq!(game.into_memory().len(), 0);
}

// With every candidate scored alike, the stub evaluator's tie-break selects
// the last move the generator enumerates.
#[test]
fn a_constant_evaluator_selects_the_last_enumerated_move() {
    let board = Board::default();
    let legal: Vec<chess::ChessMove> = MoveGen::new_legal(&board).collect();
    let scores: Vec<i64> = legal.iter().map(|_| 42).collect();
    let chosen = best_index(&scores).expect("moves exist");
    assert_eq!(chosen, legal.len() - 1);
}
