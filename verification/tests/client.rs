use bingo::bingo::{
    Board, BoardActivity, BoardMode, BoardPrompts, GameMode, WinCondition,
};
use bingo::client::{
    validate_username, BoardRes, ClientState, Clients, ConfMode, ConfPrompts, FlatWinCondition,
};
use bingo::protocol::{ClientMessage, ServerMessage};
use bingo::registry::ClientProps;
use bingo::server::{Action, ServerState};
use bingo::teams::{Team, TeamSet};
use std::collections::HashMap;

fn grid(x_size: u8, y_size: u8) -> BoardPrompts {
    BoardPrompts {
        x_size,
        y_size,
        prompts: (0..x_size as usize * y_size as usize).map(|i| format!("p{}", i)).collect(),
    }
}

fn sessions(list: Vec<(u64, bool, &str, Option<Team>)>) -> HashMap<u64, ClientProps> {
    list.into_iter()
        .map(|(id, is_host, name, team)| {
            (id, ClientProps { is_host, username: String::from(name), team })
        })
        .collect()
}

/// A client that is session 7 and plays for `team`.
fn player(team: Option<Team>) -> ClientState {
    let mut state = ClientState::default();
    state.handle_message(ServerMessage::InitClient(7));
    state.handle_message(ServerMessage::SetClients(sessions(vec![
        (3, true, "anna", None),
        (7, false, "bert", team),
    ])));
    state
}

#[test]
fn flatten_forgets_the_numbers() {
    assert_eq!(
        FlatWinCondition::flatten(WinCondition::InRow { length: 3, rows: 2 }),
        FlatWinCondition::InRow
    );
    assert_eq!(FlatWinCondition::flatten(WinCondition::Domination), FlatWinCondition::Domination);
    assert_eq!(FlatWinCondition::flatten(WinCondition::FirstTo(200)), FlatWinCondition::FirstTo);
}

#[test]
fn unflatten_gives_the_starting_numbers() {
    assert_eq!(FlatWinCondition::InRow.unflatten(), WinCondition::InRow { length: 5, rows: 1 });
    assert_eq!(FlatWinCondition::Domination.unflatten(), WinCondition::Domination);
    assert_eq!(FlatWinCondition::FirstTo.unflatten(), WinCondition::FirstTo(13));
    for kind in [FlatWinCondition::InRow, FlatWinCondition::Domination, FlatWinCondition::FirstTo] {
        assert_eq!(FlatWinCondition::flatten(kind.unflatten()), kind);
    }
}

#[test]
fn defaults_of_the_client() {
    let state = ClientState::default();
    assert_eq!(state.clients.self_id, 0);
    assert!(state.clients.data.is_empty());
    assert_eq!(state.board.board.config, Board::default().config);
    assert!(!state.board.changed);
    assert_eq!(state.mode_conf, ConfMode { mode: BoardMode::default(), changed: false });
    assert_eq!(
        state.prompts_conf,
        ConfPrompts { prompts: BoardPrompts::default(), changed: false }
    );
    assert!(!BoardRes::default().changed);
    assert_eq!(Clients::default().self_id, 0);
}

#[test]
fn leaving_lockout_drops_domination() {
    let mut conf = ConfMode {
        mode: BoardMode {
            game_mode: GameMode::Lockout,
            win_condition: WinCondition::Domination,
        },
        changed: false,
    };
    conf.pick_game_mode(GameMode::Lockout);
    assert_eq!(conf.mode.win_condition, WinCondition::Domination);
    assert!(conf.changed);
    conf.pick_game_mode(GameMode::FFA);
    assert_eq!(conf.mode.game_mode, GameMode::FFA);
    assert_eq!(conf.mode.win_condition, WinCondition::InRow { length: 5, rows: 1 });
    let mut conf = ConfMode {
        mode: BoardMode { game_mode: GameMode::Lockout, win_condition: WinCondition::FirstTo(7) },
        changed: false,
    };
    conf.pick_game_mode(GameMode::FFA);
    assert_eq!(conf.mode.win_condition, WinCondition::FirstTo(7));
    assert!(conf.changed);
}

#[test]
fn domination_is_offered_in_lockout_only() {
    assert!(ConfMode::offers(GameMode::Lockout, FlatWinCondition::Domination));
    assert!(!ConfMode::offers(GameMode::FFA, FlatWinCondition::Domination));
    assert!(ConfMode::offers(GameMode::FFA, FlatWinCondition::InRow));
    assert!(ConfMode::offers(GameMode::FFA, FlatWinCondition::FirstTo));
    let mut conf = ConfMode::default();
    assert!(!conf.pick_win_condition(FlatWinCondition::Domination));
    assert_eq!(conf, ConfMode::default());
    assert!(conf.pick_win_condition(FlatWinCondition::FirstTo));
    assert_eq!(conf.mode.win_condition, WinCondition::FirstTo(13));
    assert_eq!(conf.mode.game_mode, GameMode::FFA);
    assert!(conf.changed);
    conf.pick_game_mode(GameMode::Lockout);
    assert!(conf.pick_win_condition(FlatWinCondition::Domination));
    assert_eq!(conf.mode.win_condition, WinCondition::Domination);
}

#[test]
fn init_client_sets_the_own_session() {
    let mut state = ClientState::default();
    assert_eq!(state.handle_message(ServerMessage::InitClient(42)), None);
    assert_eq!(state.clients.self_id, 42);
    assert!(state.clients.own().is_none());
    assert_eq!(state.clients.own_team(), None);
    assert!(!state.clients.is_host());
}

#[test]
fn set_clients_replaces_the_list() {
    let mut state = player(Some(Team::Pink));
    assert_eq!(state.clients.own().unwrap().username, "bert");
    assert_eq!(state.clients.own_team(), Some(Team::Pink));
    assert!(!state.clients.is_host());
    let list = sessions(vec![(7, true, "bert", None)]);
    assert_eq!(state.handle_message(ServerMessage::SetClients(list.clone())), None);
    assert_eq!(state.clients.data, list);
    assert!(state.clients.is_host());
    assert_eq!(state.clients.own_team(), None);
}

#[test]
fn set_mode_replaces_the_draft_and_clears_the_activity() {
    let mut state = player(Some(Team::Pink));
    state.click(1, 1);
    state.mode_conf.pick_game_mode(GameMode::Lockout);
    let mode = BoardMode { game_mode: GameMode::FFA, win_condition: WinCondition::FirstTo(4) };
    assert_eq!(state.handle_message(ServerMessage::SetMode(mode)), None);
    assert_eq!(state.board.board.config.mode, mode);
    assert_eq!(state.mode_conf, ConfMode { mode, changed: false });
    assert_eq!(state.board.board.activity, BoardActivity::empty(25));
}

#[test]
fn set_prompts_replaces_the_draft_and_clears_the_activity() {
    let mut state = player(Some(Team::Pink));
    state.click(1, 1);
    state.prompts_conf.changed = true;
    assert_eq!(state.handle_message(ServerMessage::SetPrompts(grid(2, 3))), None);
    assert_eq!(state.board.board.config.prompts, grid(2, 3));
    assert_eq!(state.prompts_conf, ConfPrompts { prompts: grid(2, 3), changed: false });
    assert_eq!(state.board.board.activity, BoardActivity::empty(6));
    assert_eq!(state.board.board.config.mode, BoardMode::default());
}

#[test]
fn set_activity_makes_a_win_known() {
    let mut state = player(None);
    let mode = BoardMode { game_mode: GameMode::FFA, win_condition: WinCondition::FirstTo(2) };
    state.handle_message(ServerMessage::SetMode(mode));
    let mut cells = vec![TeamSet::new(); 25];
    cells[4].insert(Team::Cyan);
    let one = BoardActivity { activity: cells.clone() };
    assert_eq!(state.handle_message(ServerMessage::SetActivity(one.clone())), None);
    assert_eq!(state.board.board.activity, one);
    cells[9].insert(Team::Cyan);
    let two = BoardActivity { activity: cells };
    assert_eq!(state.handle_message(ServerMessage::SetActivity(two.clone())), Some(Team::Cyan));
    assert_eq!(state.board.board.activity, two);
    // The win is made known again whenever activity arrives while it stands.
    assert_eq!(state.handle_message(ServerMessage::SetActivity(two)), Some(Team::Cyan));
    assert_eq!(state.handle_message(ServerMessage::SetActivity(one)), None);
}

#[test]
fn click_without_a_team_does_nothing() {
    let mut state = player(None);
    assert_eq!(state.click(0, 0), None);
    assert_eq!(state.board.board.activity, BoardActivity::empty(25));
    let mut stranger = ClientState::default();
    assert_eq!(stranger.click(0, 0), None);
}

#[test]
fn click_marks_and_unmarks() {
    let mut state = player(Some(Team::Blue));
    assert_eq!(
        state.click(2, 3),
        Some(ClientMessage::UpdateActivity { team: Team::Blue, x: 2, y: 3, is_active: true })
    );
    assert!(state.board.board.is_active(2, 3, &Team::Blue));
    assert_eq!(
        state.click(2, 3),
        Some(ClientMessage::UpdateActivity { team: Team::Blue, x: 2, y: 3, is_active: false })
    );
    assert_eq!(state.board.board.activity, BoardActivity::empty(25));
}

#[test]
fn click_outside_the_grid_does_nothing() {
    let mut state = player(Some(Team::Blue));
    assert_eq!(state.click(5, 0), None);
    assert_eq!(state.click(0, 5), None);
    assert_eq!(state.board.board.activity, BoardActivity::empty(25));
}

#[test]
fn click_on_a_held_cell_in_lockout_does_nothing() {
    let mut state = player(Some(Team::Blue));
    state.handle_message(ServerMessage::SetMode(BoardMode {
        game_mode: GameMode::Lockout,
        win_condition: WinCondition::Domination,
    }));
    let mut cells = vec![TeamSet::new(); 25];
    cells[0].insert(Team::Red);
    let activity = BoardActivity { activity: cells };
    state.handle_message(ServerMessage::SetActivity(activity.clone()));
    assert_eq!(state.click(0, 0), None);
    assert_eq!(state.board.board.activity, activity);
    assert!(state.click(0, 1).is_some());
}

#[test]
fn click_after_a_win_only_unmarks() {
    let mut state = player(Some(Team::Blue));
    state.handle_message(ServerMessage::SetMode(BoardMode {
        game_mode: GameMode::FFA,
        win_condition: WinCondition::FirstTo(1),
    }));
    assert!(state.click(0, 0).is_some());
    assert_eq!(state.board.board.check_win(), Some(Team::Blue));
    assert_eq!(state.click(1, 1), None);
    assert!(!state.board.board.is_active(1, 1, &Team::Blue));
    assert_eq!(
        state.click(0, 0),
        Some(ClientMessage::UpdateActivity { team: Team::Blue, x: 0, y: 0, is_active: false })
    );
    assert!(state.click(1, 1).is_some());
}

#[test]
fn click_is_what_the_server_does() {
    let mut server = ServerState::new();
    server.handle_message(3, ClientMessage::Join { name: String::from("anna") });
    server.handle_message(7, ClientMessage::Join { name: String::from("bert") });
    server.handle_message(
        3,
        ClientMessage::SetMode(BoardMode {
            game_mode: GameMode::Lockout,
            win_condition: WinCondition::FirstTo(3),
        }),
    );
    let mut client = player(Some(Team::Green));
    client.handle_message(ServerMessage::SetMode(server.board.config.mode));
    for (x, y) in [(0, 0), (1, 0), (0, 0), (9, 9), (2, 2), (0, 0), (3, 3), (4, 4)] {
        match client.click(x, y) {
            Some(request) => {
                let out = server.handle_message(7, request);
                assert_eq!(
                    out,
                    vec![Action::Broadcast(ServerMessage::SetActivity(
                        server.board.activity.clone()
                    ))]
                );
            }
            None => {}
        }
        assert_eq!(client.board.board.activity, server.board.activity);
    }
    assert_eq!(server.board.check_win(), Some(Team::Green));
}

#[test]
fn nothing_to_restart_on_a_fresh_board() {
    let mut state = player(Some(Team::Blue));
    assert!(!state.any_activity());
    assert!(!state.can_restart());
    assert_eq!(state.restart(), vec![]);
}

#[test]
fn restart_clears_the_activity_when_nothing_was_edited() {
    let mut state = player(Some(Team::Blue));
    state.click(4, 4);
    assert!(state.any_activity());
    assert!(state.can_restart());
    assert_eq!(state.restart(), vec![ClientMessage::ResetActivity]);
    // The board is cleared only when the server says so.
    assert!(state.any_activity());
}

#[test]
fn restart_sends_the_edited_drafts() {
    let mut state = player(Some(Team::Blue));
    state.mode_conf.pick_game_mode(GameMode::Lockout);
    let mode = state.mode_conf.mode;
    assert!(state.can_restart());
    assert_eq!(state.restart(), vec![ClientMessage::SetMode(mode)]);
    assert!(state.mode_conf.changed);
    state.prompts_conf.prompts = grid(2, 2);
    state.prompts_conf.changed = true;
    assert_eq!(
        state.restart(),
        vec![ClientMessage::SetMode(mode), ClientMessage::SetPrompts(grid(2, 2))]
    );
    assert!(!state.prompts_conf.changed);
    assert_eq!(state.prompts_conf.prompts, grid(2, 2));
    state.handle_message(ServerMessage::SetMode(mode));
    state.prompts_conf.changed = true;
    assert_eq!(state.restart(), vec![ClientMessage::SetPrompts(grid(2, 2))]);
}

#[test]
fn cancel_takes_the_drafts_from_the_board() {
    let mut state = player(Some(Team::Blue));
    state.handle_message(ServerMessage::SetPrompts(grid(3, 3)));
    state.click(1, 1);
    state.mode_conf.pick_game_mode(GameMode::Lockout);
    state.prompts_conf.prompts = grid(2, 2);
    state.prompts_conf.changed = true;
    state.cancel_changes();
    assert_eq!(state.mode_conf, ConfMode { mode: BoardMode::default(), changed: false });
    assert_eq!(state.prompts_conf, ConfPrompts { prompts: grid(3, 3), changed: false });
    assert!(state.board.board.is_active(1, 1, &Team::Blue));
}

#[test]
fn usernames_of_four_to_thirty_two_bytes() {
    assert!(!validate_username(""));
    assert!(!validate_username("abc"));
    assert!(validate_username("abcd"));
    assert!(validate_username("User1234"));
    assert!(validate_username(&"a".repeat(32)));
    assert!(!validate_username(&"a".repeat(33)));
}

#[test]
fn usernames_of_letters_and_numbers_only() {
    assert!(!validate_username("ab cd"));
    assert!(!validate_username("ab-cd"));
    assert!(!validate_username("abcd!"));
    assert!(!validate_username("abcd\n"));
    assert!(validate_username("1234"));
}

#[test]
fn username_length_counts_bytes() {
    // Two letters of two bytes each.
    assert!(validate_username("äö"));
    // Three bytes.
    assert!(!validate_username("äb"));
    // Seventeen letters of two bytes each.
    assert!(!validate_username(&"ä".repeat(17)));
    assert!(validate_username(&"ä".repeat(16)));
    assert!(validate_username("日本語"));
}

/// Hands every client what the actions deliver to it.
fn deliver(server: &ServerState, clients: &mut HashMap<u64, ClientState>, actions: Vec<Action>) {
    for action in actions {
        let targets = server.targets(&action);
        if let Action::Unicast(_, message) | Action::Broadcast(message) = action {
            for target in targets {
                if let Some(client) = clients.get_mut(&target) {
                    client.handle_message(message.clone());
                }
            }
        }
    }
}

#[test]
fn clients_that_follow_the_server_agree_with_it() {
    let mut server = ServerState::new();
    let mut clients: HashMap<u64, ClientState> = HashMap::new();
    for id in [1, 2, 3] {
        clients.insert(id, ClientState::default());
    }
    let lockout = BoardMode {
        game_mode: GameMode::Lockout,
        win_condition: WinCondition::FirstTo(2),
    };
    let messages = vec![
        (1, ClientMessage::Join { name: String::from("anna") }),
        (1, ClientMessage::UpdateActivity { team: Team::Red, x: 0, y: 0, is_active: true }),
        (2, ClientMessage::Join { name: String::from("bert") }),
        (2, ClientMessage::ChangeTeam(Some(Team::Blue))),
        (2, ClientMessage::SetMode(lockout)),
        (1, ClientMessage::SetPrompts(grid(3, 2))),
        (3, ClientMessage::Join { name: String::from("anna") }),
        (3, ClientMessage::Join { name: String::from("cleo") }),
        (3, ClientMessage::UpdateActivity { team: Team::Blue, x: 2, y: 1, is_active: true }),
        (2, ClientMessage::UpdateActivity { team: Team::Red, x: 2, y: 1, is_active: true }),
        (1, ClientMessage::SetMode(lockout)),
        (2, ClientMessage::UpdateActivity { team: Team::Red, x: 2, y: 1, is_active: true }),
        (3, ClientMessage::UpdateActivity { team: Team::Red, x: 2, y: 1, is_active: false }),
        (1, ClientMessage::Kick(3)),
        (1, ClientMessage::Disconnect),
        (2, ClientMessage::ResetActivity),
    ];
    for (sender, message) in messages {
        let actions = server.handle_message(sender, message);
        deliver(&server, &mut clients, actions);
        for id in server.recipients() {
            let client = &clients[&id];
            assert_eq!(client.clients.self_id, id);
            assert_eq!(client.clients.data, server.registry.sessions);
            assert_eq!(client.board.board.config, server.board.config);
            assert_eq!(client.board.board.activity, server.board.activity);
        }
    }
    assert_eq!(server.recipients(), vec![2]);
    assert!(clients[&2].clients.is_host());
    assert_eq!(server.board.config.prompts, grid(3, 2));
    assert_eq!(server.board.config.mode, lockout);
}
