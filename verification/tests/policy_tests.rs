use chess_mdp::policy::{bellman_label, best_index, compute_q_max, state_action};

#[test]
fn best_index_prefers_the_later_of_equal_scores() {
    assert_eq!(best_index(&vec![5, 5, 5]), Some(2));
    assert_eq!(best_index(&vec![3, 7, 7, 2]), Some(2));
    assert_eq!(best_index(&vec![7, 3, 7]), Some(2));
}

#[test]
fn best_index_finds_the_maximum() {
    assert_eq!(best_index(&vec![4]), Some(0));
    assert_eq!(best_index(&vec![-3, -1, -2]), Some(1));
    assert_eq!(best_index(&vec![10, 2, 3]), Some(0));
}

#[test]
fn best_index_of_no_candidates_is_none() {
    assert_eq!(best_index(&vec![]), None);
}

#[test]
fn q_max_is_zero_at_a_terminal_position() {
    assert_eq!(compute_q_max(&vec![]), 0);
}

#[test]
fn q_max_is_the_largest_score() {
    assert_eq!(compute_q_max(&vec![-5]), -5);
    assert_eq!(compute_q_max(&vec![3, 9, 9, 2]), 9);
    assert_eq!(compute_q_max(&vec![-7, -2, -4]), -2);
}

#[test]
fn bellman_label_at_a_terminal_next_position_is_the_reward() {
    assert_eq!(bellman_label(1_234, 800, &vec![]), 1_234);
    assert_eq!(bellman_label(-100_000, 800, &vec![]), -100_000);
    assert_eq!(bellman_label(0, 1, &vec![]), 0);
}

#[test]
fn bellman_label_discounts_the_best_follow_up() {
    // 100000 + 800 * 2000 / 1000.
    assert_eq!(bellman_label(100_000, 800, &vec![1_000, 2_000]), 101_600);
    // A negative continuation is discounted toward zero.
    assert_eq!(bellman_label(100_000, 800, &vec![-1_000]), 99_200);
    // A full discount hands the continuation through unchanged.
    assert_eq!(bellman_label(0, 1_000, &vec![7, 40]), 40);
    // Rounding is toward zero on both sides.
    assert_eq!(bellman_label(0, 800, &vec![1]), 0);
    assert_eq!(bellman_label(0, 800, &vec![-1]), 0);
}

#[test]
fn state_action_concatenates() {
    assert_eq!(state_action(&vec![1, 2], &vec![3]), vec![1, 2, 3]);
    assert_eq!(state_action(&vec![], &vec![]), Vec::<i64>::new());
}

#[test]
fn state_action_row_has_900_cells() {
    let b = chess::Board::default();
    let state = chess_mdp::encoding::get_state(&b, true);
    let action = chess_mdp::encoding::get_action("e2e4", true).expect("token");
    assert_eq!(state_action(&state, &action).len(), 900);
}
