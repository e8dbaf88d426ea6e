use luckybox::player::Player;

#[test]
fn a_new_player_has_no_name_and_an_empty_grid() {
    let p = Player::new();
    assert_eq!(p.name, "");
    assert_eq!(p.score_arrays, [[0; 3]; 3]);
    assert!(!p.array_full());
}

#[test]
fn a_new_player_offers_all_three_columns() {
    let p = Player::new();
    assert_eq!(p.valid_cols(), vec![0, 1, 2]);
}

#[test]
fn a_name_replaces_the_one_before() {
    let mut p = Player::new();
    p.add_name("Ada");
    assert_eq!(p.name, "Ada");
    p.add_name("");
    assert_eq!(p.name, "");
    p.add_name("Grace");
    assert_eq!(p.name, "Grace");
    assert_eq!(p.score_arrays, [[0; 3]; 3]);
}

#[test]
fn rolls_fill_a_column_from_row_0_upward() {
    let mut p = Player::new();
    assert_eq!(p.add_dice_roll(0, 5), Ok(()));
    assert_eq!(p.score_arrays[0], [5, 0, 0]);
    assert_eq!(p.add_dice_roll(0, 2), Ok(()));
    assert_eq!(p.score_arrays[0], [5, 2, 0]);
    assert_eq!(p.add_dice_roll(0, 6), Ok(()));
    assert_eq!(p.score_arrays[0], [5, 2, 6]);
    assert_eq!(p.score_arrays[1], [0, 0, 0]);
    assert_eq!(p.score_arrays[2], [0, 0, 0]);
}

#[test]
fn a_full_column_is_no_longer_offered() {
    let mut p = Player::new();
    for _ in 0..3 {
        assert_eq!(p.add_dice_roll(1, 3), Ok(()));
    }
    assert_eq!(p.valid_cols(), vec![0, 2]);
    assert!(!p.array_full());
    for _ in 0..3 {
        assert_eq!(p.add_dice_roll(0, 1), Ok(()));
    }
    assert_eq!(p.valid_cols(), vec![2]);
}

#[test]
fn a_roll_into_a_full_column_fails_and_changes_nothing() {
    let mut p = Player::new();
    p.add_name("Ada");
    for v in 1..=3 {
        assert_eq!(p.add_dice_roll(2, v), Ok(()));
    }
    let before = p.score_arrays;
    for _ in 0..4 {
        assert_eq!(p.add_dice_roll(2, 6), Err(false));
        assert_eq!(p.score_arrays, before);
        assert_eq!(p.name, "Ada");
    }
}

#[test]
fn a_grid_with_nine_rolls_is_full() {
    let mut p = Player::new();
    for c in 0..3 {
        for r in 0..3 {
            assert!(!p.array_full());
            assert_eq!(p.add_dice_roll(c, r + 1), Ok(()));
        }
    }
    assert!(p.array_full());
    assert_eq!(p.valid_cols(), Vec::<usize>::new());
    assert_eq!(p.score_arrays, [[1, 2, 3]; 3]);
}

#[test]
fn a_row_holds_one_slot_of_each_column() {
    let mut p = Player::new();
    p.add_score_array(0, [1, 0, 0]);
    p.add_score_array(1, [2, 2, 5]);
    p.add_score_array(2, [6, 1, 3]);
    assert_eq!(p.pretty_print_score_row(0), [1, 2, 6]);
    assert_eq!(p.pretty_print_score_row(1), [0, 2, 1]);
    assert_eq!(p.pretty_print_score_row(2), [0, 5, 3]);
}

#[test]
fn a_column_has_space_while_a_slot_is_empty() {
    let p = Player::new();
    assert!(p.col_has_space([0, 0, 0]));
    assert!(p.col_has_space([4, 0, 0]));
    assert!(p.col_has_space([4, 4, 0]));
    assert!(!p.col_has_space([4, 4, 4]));
}

#[test]
fn a_new_column_replaces_the_old_one_only() {
    let mut p = Player::new();
    p.add_score_array(1, [2, 2, 5]);
    assert_eq!(p.score_arrays, [[0, 0, 0], [2, 2, 5], [0, 0, 0]]);
    p.add_score_array(1, [4, 0, 0]);
    assert_eq!(p.score_arrays, [[0, 0, 0], [4, 0, 0], [0, 0, 0]]);
}
