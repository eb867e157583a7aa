use bingo::bingo::{
    decimal_string, Board, BoardActivity, BoardConfig, BoardMode, BoardPrompts, GameMode,
    WinCondition,
};
use bingo::teams::{Team, TeamSet};

fn prompts(x_size: u8, y_size: u8) -> BoardPrompts {
    let mut list = Vec::new();
    for x in 0..x_size {
        for y in 0..y_size {
            list.push(format!("{}-{}", x, y));
        }
    }
    BoardPrompts { x_size, y_size, prompts: list }
}

fn lockout() -> BoardMode {
    BoardMode { game_mode: GameMode::Lockout, win_condition: WinCondition::FirstTo(3) }
}

#[test]
fn default_mode_is_free_for_all_one_run_of_five() {
    let mode = BoardMode::default();
    assert_eq!(mode.game_mode, GameMode::FFA);
    assert_eq!(mode.win_condition, WinCondition::InRow { length: 5, rows: 1 });
}

#[test]
fn default_prompts_are_five_by_five_and_blank() {
    let p = BoardPrompts::default();
    assert_eq!(p.x_size, 5);
    assert_eq!(p.y_size, 5);
    assert_eq!(p.prompts, vec![String::new(); 25]);
    assert!(p.is_well_formed());
}

#[test]
fn default_board_has_one_empty_activity_set_per_cell() {
    let board = Board::default();
    assert_eq!(board.config, BoardConfig::default());
    assert_eq!(board.activity.activity.len(), 25);
    assert!(board.activity.activity.iter().all(|cell| cell.is_empty()));
    assert!(board.is_well_formed());
    assert_eq!(board.cells(), 25);
}

#[test]
fn offset_is_x_times_y_size_plus_y() {
    let p = prompts(3, 7);
    assert_eq!(p.offset(0, 0), 0);
    assert_eq!(p.offset(0, 6), 6);
    assert_eq!(p.offset(1, 0), 7);
    assert_eq!(p.offset(2, 4), 18);
    let mut board = Board::default();
    board.set_prompts(p);
    assert_eq!(board.offset(2, 4), 18);
    assert_eq!(board.offset(255, 255), 255 * 7 + 255);
}

#[test]
fn offset_of_the_largest_grid() {
    let p = BoardPrompts { x_size: 255, y_size: 255, prompts: Vec::new() };
    assert_eq!(p.offset(254, 254), 254 * 255 + 254);
    assert_eq!(p.offset(255, 255), 65280);
    assert!(!p.is_well_formed());
}

#[test]
fn prompt_reads_the_cell() {
    let p = prompts(3, 4);
    assert_eq!(p.prompt(0, 0), "0-0");
    assert_eq!(p.prompt(2, 3), "2-3");
    assert_eq!(p.prompt(1, 2), "1-2");
    let mut board = Board::default();
    board.set_prompts(p);
    assert_eq!(board.prompt(2, 1), "2-1");
}

#[test]
fn well_formedness_of_prompts() {
    assert!(prompts(4, 6).is_well_formed());
    assert!(prompts(0, 9).is_well_formed());
    let mut short = prompts(4, 6);
    short.prompts.pop();
    assert!(!short.is_well_formed());
    let mut long = prompts(4, 6);
    long.prompts.push(String::new());
    assert!(!long.is_well_formed());
}

#[test]
fn empty_activity_has_the_requested_size() {
    let activity = BoardActivity::empty(7);
    assert_eq!(activity.activity, vec![TeamSet::new(); 7]);
    assert_eq!(BoardActivity::empty(0).activity.len(), 0);
}

#[test]
fn clones_are_equal() {
    let p = prompts(2, 3);
    assert_eq!(p.clone(), p);
    let mut board = Board::default();
    board.set_prompts(prompts(2, 3));
    board.update_activity(Team::Blue, 1, 2, true);
    let copy = board.clone();
    assert_eq!(copy.config, board.config);
    assert_eq!(copy.activity, board.activity);
    assert!(copy.is_active(1, 2, &Team::Blue));
}

#[test]
fn same_as_compares_size_and_prompts() {
    let p = prompts(2, 3);
    assert!(p.same_as(&prompts(2, 3)));
    assert!(!p.same_as(&prompts(3, 2)));
    let mut other = prompts(2, 3);
    other.prompts[4] = String::from("else");
    assert!(!p.same_as(&other));
    let mut other = prompts(2, 3);
    other.prompts.pop();
    assert!(!p.same_as(&other));
}

#[test]
fn from_board_and_same_as_board() {
    let mut board = Board::default();
    board.set_prompts(prompts(4, 2));
    let p = BoardPrompts::from_board(&board);
    assert_eq!(p, prompts(4, 2));
    assert!(p.same_as_board(&board));
    assert!(!prompts(2, 4).same_as_board(&board));
    assert!(!BoardPrompts::default().same_as_board(&board));
}

#[test]
fn set_mode_resets_activity() {
    let mut board = Board::default();
    assert!(board.update_activity(Team::Red, 1, 1, true));
    assert!(board.update_activity(Team::Blue, 4, 0, true));
    board.set_mode(lockout());
    assert_eq!(board.config.mode, lockout());
    assert_eq!(board.config.prompts, BoardPrompts::default());
    assert_eq!(board.activity.activity, vec![TeamSet::new(); 25]);
    assert!(board.is_well_formed());
}

#[test]
fn set_prompts_resets_activity_to_the_new_size() {
    let mut board = Board::default();
    assert!(board.update_activity(Team::Red, 1, 1, true));
    board.set_prompts(prompts(3, 4));
    assert_eq!(board.config.mode, BoardMode::default());
    assert_eq!(board.config.prompts, prompts(3, 4));
    assert_eq!(board.activity.activity, vec![TeamSet::new(); 12]);
    assert!(board.is_well_formed());
    board.set_prompts(prompts(0, 0));
    assert_eq!(board.activity.activity.len(), 0);
    assert!(board.is_well_formed());
}

#[test]
fn reset_activity_keeps_the_configuration() {
    let mut board = Board::default();
    board.set_prompts(prompts(2, 2));
    board.set_mode(lockout());
    assert!(board.update_activity(Team::Cyan, 1, 0, true));
    board.reset_activity();
    assert_eq!(board.config.mode, lockout());
    assert_eq!(board.config.prompts, prompts(2, 2));
    assert_eq!(board.activity.activity, vec![TeamSet::new(); 4]);
}

#[test]
fn claim_marks_exactly_the_cell() {
    let mut board = Board::default();
    assert!(board.update_activity(Team::Green, 2, 3, true));
    for x in 0..5 {
        for y in 0..5 {
            assert_eq!(board.is_active(x, y, &Team::Green), (x, y) == (2, 3));
            assert!(!board.is_active(x, y, &Team::Red));
        }
    }
    assert_eq!(board.activity.activity[2 * 5 + 3].first(), Some(Team::Green));
    assert!(board.activity(2, 3).contains(&Team::Green));
    assert!(board.activity(3, 2).is_empty());
}

#[test]
fn free_for_all_lets_several_teams_mark_a_cell() {
    let mut board = Board::default();
    assert!(board.update_activity(Team::Green, 0, 0, true));
    assert!(board.update_activity(Team::Red, 0, 0, true));
    assert!(board.is_active(0, 0, &Team::Green));
    assert!(board.is_active(0, 0, &Team::Red));
    // A repeated legal claim still counts as a change.
    assert!(board.update_activity(Team::Red, 0, 0, true));
    assert!(board.is_active(0, 0, &Team::Red));
}

#[test]
fn lockout_accepts_one_team_per_cell() {
    let mut board = Board::default();
    board.set_mode(BoardMode {
        game_mode: GameMode::Lockout,
        win_condition: WinCondition::FirstTo(20),
    });
    assert!(board.update_activity(Team::Green, 0, 0, true));
    let before = board.activity.clone();
    assert!(!board.update_activity(Team::Red, 0, 0, true));
    assert!(!board.update_activity(Team::Green, 0, 0, true));
    assert_eq!(board.activity, before);
    assert!(board.update_activity(Team::Red, 0, 1, true));
    // Once the holder lets go the cell can be claimed again.
    assert!(board.update_activity(Team::Green, 0, 0, false));
    assert!(board.update_activity(Team::Red, 0, 0, true));
    assert!(board.is_active(0, 0, &Team::Red));
    assert!(!board.is_active(0, 0, &Team::Green));
}

#[test]
fn unmarking_reports_whether_the_mark_was_there() {
    let mut board = Board::default();
    assert!(!board.update_activity(Team::Pink, 1, 1, false));
    assert!(board.update_activity(Team::Pink, 1, 1, true));
    assert!(board.update_activity(Team::Pink, 1, 1, false));
    assert!(!board.update_activity(Team::Pink, 1, 1, false));
    assert_eq!(board.activity.activity, vec![TeamSet::new(); 25]);
}

#[test]
fn no_claim_once_a_team_has_won() {
    let mut board = Board::default();
    board.set_mode(BoardMode {
        game_mode: GameMode::FFA,
        win_condition: WinCondition::FirstTo(2),
    });
    assert!(board.update_activity(Team::Blue, 0, 0, true));
    assert!(board.update_activity(Team::Blue, 0, 1, true));
    assert_eq!(board.check_win(), Some(Team::Blue));
    let before = board.activity.clone();
    assert!(!board.update_activity(Team::Red, 3, 3, true));
    assert!(!board.update_activity(Team::Blue, 3, 3, true));
    assert_eq!(board.activity, before);
    // Unmarking stays legal, and with the win gone claims are legal again.
    assert!(board.update_activity(Team::Blue, 0, 1, false));
    assert_eq!(board.check_win(), None);
    assert!(board.update_activity(Team::Red, 3, 3, true));
}

#[test]
fn requests_outside_the_grid_are_dropped() {
    let mut board = Board::default();
    board.set_prompts(prompts(3, 4));
    let before = board.activity.clone();
    assert!(!board.update_activity(Team::Red, 3, 0, true));
    assert!(!board.update_activity(Team::Red, 0, 4, true));
    assert!(!board.update_activity(Team::Red, 255, 255, false));
    assert_eq!(board.activity, before);
    assert!(board.update_activity(Team::Red, 2, 3, true));
}

#[test]
fn activity_mut_gives_the_cell() {
    let mut board = Board::default();
    board.activity_mut(4, 4).insert(Team::Yellow);
    assert!(board.is_active(4, 4, &Team::Yellow));
    assert!(board.activity.activity[24].contains(&Team::Yellow));
    board.activity_mut(4, 4).remove(&Team::Yellow);
    assert_eq!(board.activity.activity, vec![TeamSet::new(); 25]);
}

#[test]
fn numbers_in_decimal_digits() {
    assert_eq!(decimal_string(0), "0");
    assert_eq!(decimal_string(7), "7");
    assert_eq!(decimal_string(10), "10");
    assert_eq!(decimal_string(42), "42");
    assert_eq!(decimal_string(99), "99");
    assert_eq!(decimal_string(100), "100");
    assert_eq!(decimal_string(109), "109");
    assert_eq!(decimal_string(255), "255");
    for n in 0..=255u8 {
        assert_eq!(decimal_string(n), format!("{}", n));
    }
}

#[test]
fn labels_of_the_game_modes() {
    assert_eq!(GameMode::Lockout.label(), "Lockout");
    assert_eq!(GameMode::FFA.label(), "FFA");
}

#[test]
fn labels_of_the_win_conditions() {
    assert_eq!(WinCondition::InRow { length: 5, rows: 1 }.label(), "1 rows of 5");
    assert_eq!(WinCondition::InRow { length: 0, rows: 200 }.label(), "200 rows of 0");
    assert_eq!(WinCondition::InRow { length: 255, rows: 13 }.label(), "13 rows of 255");
    assert_eq!(WinCondition::Domination.label(), "Domination");
    assert_eq!(WinCondition::FirstTo(13).label(), "First to 13");
    assert_eq!(WinCondition::FirstTo(0).label(), "First to 0");
    assert_eq!(BoardMode::default().win_condition.label(), "1 rows of 5");
}
