use bingo::registry::{ClientProps, JoinError, Registry};
use bingo::teams::Team;

fn names(registry: &Registry) -> Vec<(u64, String, bool, Option<Team>)> {
    let mut all: Vec<_> = registry
        .sessions
        .iter()
        .map(|(id, p)| (*id, p.username.clone(), p.is_host, p.team))
        .collect();
    all.sort_by_key(|entry| entry.0);
    all
}

fn hosts(registry: &Registry) -> Vec<u64> {
    let mut ids: Vec<u64> =
        registry.sessions.iter().filter(|(_, p)| p.is_host).map(|(id, _)| *id).collect();
    ids.sort();
    ids
}

fn three() -> Registry {
    let mut registry = Registry::new();
    assert_eq!(registry.join(1, String::from("anna")), Ok(()));
    assert_eq!(registry.join(2, String::from("bert")), Ok(()));
    assert_eq!(registry.join(3, String::from("cleo")), Ok(()));
    registry
}

#[test]
fn new_registry_is_empty() {
    let registry = Registry::new();
    assert!(registry.is_empty());
    assert_eq!(registry.len(), 0);
    assert!(registry.ids().is_empty());
    assert!(!registry.contains(0));
    assert!(!registry.is_host(0));
    assert!(Registry::default().is_empty());
}

#[test]
fn first_to_join_is_host() {
    let mut registry = Registry::new();
    assert_eq!(registry.join(7, String::from("anna")), Ok(()));
    assert_eq!(names(&registry), vec![(7, String::from("anna"), true, None)]);
    assert!(registry.is_host(7));
    assert_eq!(registry.join(4, String::from("bert")), Ok(()));
    assert_eq!(
        names(&registry),
        vec![(4, String::from("bert"), false, None), (7, String::from("anna"), true, None)]
    );
    assert!(!registry.is_host(4));
    assert_eq!(registry.len(), 2);
}

#[test]
fn join_with_a_known_id_is_rejected() {
    let mut registry = three();
    let before = names(&registry);
    assert_eq!(registry.join(2, String::from("dora")), Err(JoinError::DuplicateSession));
    assert_eq!(names(&registry), before);
    // The identifier is looked at before the name.
    assert_eq!(registry.join(2, String::from("anna")), Err(JoinError::DuplicateSession));
    assert_eq!(names(&registry), before);
}

#[test]
fn join_with_a_taken_name_is_rejected() {
    let mut registry = three();
    let before = names(&registry);
    assert_eq!(registry.join(9, String::from("cleo")), Err(JoinError::NameTaken));
    assert_eq!(names(&registry), before);
    assert!(registry.name_taken(&String::from("anna")));
    assert!(!registry.name_taken(&String::from("Anna")));
    assert_eq!(registry.join(9, String::from("Cleo")), Ok(()));
}

#[test]
fn host_leaves_and_exactly_one_other_is_promoted() {
    let mut registry = three();
    assert_eq!(hosts(&registry), vec![1]);
    assert!(registry.leave(1));
    assert_eq!(registry.len(), 2);
    assert!(!registry.contains(1));
    let promoted = hosts(&registry);
    assert_eq!(promoted.len(), 1);
    assert!(promoted[0] == 2 || promoted[0] == 3);
    let other = if promoted[0] == 2 { 3 } else { 2 };
    assert!(!registry.is_host(other));
    assert_eq!(registry.get(2).unwrap().username, "bert");
    assert_eq!(registry.get(3).unwrap().username, "cleo");
    assert_eq!(registry.get(2).unwrap().team, None);
    assert_eq!(registry.get(3).unwrap().team, None);
}

#[test]
fn promotion_keeps_name_and_team() {
    let mut registry = Registry::new();
    registry.join(1, String::from("anna")).unwrap();
    registry.join(2, String::from("bert")).unwrap();
    assert!(registry.change_team(2, Some(Team::Cyan)));
    assert!(registry.leave(1));
    assert_eq!(names(&registry), vec![(2, String::from("bert"), true, Some(Team::Cyan))]);
}

#[test]
fn guest_leaves_and_the_host_stays() {
    let mut registry = three();
    assert!(registry.leave(3));
    assert_eq!(
        names(&registry),
        vec![(1, String::from("anna"), true, None), (2, String::from("bert"), false, None)]
    );
}

#[test]
fn last_session_leaves() {
    let mut registry = Registry::new();
    registry.join(5, String::from("anna")).unwrap();
    assert!(registry.leave(5));
    assert!(registry.is_empty());
    // Whoever joins next is host again, also under the old name.
    registry.join(6, String::from("anna")).unwrap();
    assert!(registry.is_host(6));
}

#[test]
fn leave_of_an_unknown_id_changes_nothing() {
    let mut registry = three();
    let before = names(&registry);
    assert!(!registry.leave(8));
    assert_eq!(names(&registry), before);
    let mut empty = Registry::new();
    assert!(!empty.leave(8));
    assert!(empty.is_empty());
}

#[test]
fn there_is_one_host_all_along() {
    let mut registry = Registry::new();
    for id in 0..6 {
        registry.join(id, format!("user{}", id)).unwrap();
        assert_eq!(hosts(&registry).len(), 1);
    }
    for id in [3, 0, 5, 1, 4] {
        assert!(registry.leave(id));
        assert_eq!(hosts(&registry).len(), 1);
    }
    assert!(registry.leave(2));
    assert_eq!(hosts(&registry).len(), 0);
}

#[test]
fn change_team_sets_only_the_team() {
    let mut registry = three();
    assert!(registry.change_team(2, Some(Team::Magenta)));
    assert_eq!(
        names(&registry),
        vec![
            (1, String::from("anna"), true, None),
            (2, String::from("bert"), false, Some(Team::Magenta)),
            (3, String::from("cleo"), false, None),
        ]
    );
    assert!(registry.change_team(2, None));
    assert_eq!(registry.get(2).unwrap().team, None);
    assert!(registry.change_team(1, Some(Team::Red)));
    assert!(registry.is_host(1));
}

#[test]
fn change_team_of_an_unknown_id_changes_nothing() {
    let mut registry = three();
    let before = names(&registry);
    assert!(!registry.change_team(8, Some(Team::Red)));
    assert_eq!(names(&registry), before);
}

#[test]
fn kick_by_the_host_removes_the_target() {
    let mut registry = three();
    assert!(registry.kick(1, 3));
    assert_eq!(
        names(&registry),
        vec![(1, String::from("anna"), true, None), (2, String::from("bert"), false, None)]
    );
    // A target that is no session: authorised, and nothing to remove.
    assert!(registry.kick(1, 3));
    assert_eq!(registry.len(), 2);
}

#[test]
fn kick_by_a_guest_has_no_effect() {
    let mut registry = three();
    let before = names(&registry);
    assert!(!registry.kick(2, 3));
    assert!(!registry.kick(2, 1));
    assert!(!registry.kick(2, 2));
    assert!(!registry.kick(8, 1));
    assert_eq!(names(&registry), before);
}

#[test]
fn host_kicks_itself() {
    let mut registry = three();
    assert!(registry.kick(1, 1));
    assert!(!registry.contains(1));
    assert_eq!(hosts(&registry).len(), 1);
}

#[test]
fn ids_lists_every_session_once() {
    let registry = three();
    let mut ids = registry.ids();
    ids.sort();
    assert_eq!(ids, vec![1, 2, 3]);
}

#[test]
fn snapshot_copies_the_sessions() {
    let mut registry = three();
    let snapshot = registry.snapshot();
    assert_eq!(snapshot, registry.sessions);
    registry.leave(2);
    assert_eq!(snapshot.len(), 3);
    assert_eq!(
        snapshot.get(&2),
        Some(&ClientProps { is_host: false, username: String::from("bert"), team: None })
    );
}
