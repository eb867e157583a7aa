use bingo::teams::{Team, TeamSet, TEAM_COUNT};

#[test]
fn enumeration_order_is_fixed() {
    let all = Team::all();
    assert_eq!(
        all,
        vec![
            Team::Red,
            Team::Green,
            Team::Blue,
            Team::Cyan,
            Team::Pink,
            Team::Magenta,
            Team::Purple,
            Team::Yellow,
        ]
    );
    assert_eq!(all.len(), TEAM_COUNT as usize);
}

#[test]
fn index_and_from_index_are_inverse() {
    for i in 0..TEAM_COUNT {
        let team = Team::from_index(i).unwrap();
        assert_eq!(team.index(), i);
    }
    for team in Team::all() {
        assert_eq!(Team::from_index(team.index()), Some(team));
    }
}

#[test]
fn from_index_past_the_last_team_is_none() {
    assert_eq!(Team::from_index(8), None);
    assert_eq!(Team::from_index(255), None);
}

#[test]
fn team_colors() {
    assert_eq!(Team::Red.color(), (255, 0, 0));
    assert_eq!(Team::Green.color(), (0, 255, 0));
    assert_eq!(Team::Blue.color(), (0, 0, 255));
    assert_eq!(Team::Cyan.color(), (0, 183, 235));
    assert_eq!(Team::Pink.color(), (255, 105, 180));
    assert_eq!(Team::Magenta.color(), (255, 0, 144));
    assert_eq!(Team::Purple.color(), (186, 85, 211));
    assert_eq!(Team::Yellow.color(), (255, 255, 0));
}

#[test]
fn new_team_set_is_empty() {
    let set = TeamSet::new();
    assert!(set.is_empty());
    assert_eq!(set.first(), None);
    for team in Team::all() {
        assert!(!set.contains(&team));
    }
    assert_eq!(set, TeamSet::default());
}

#[test]
fn team_set_insert_and_remove() {
    let mut set = TeamSet::new();
    assert!(set.insert(Team::Pink));
    assert!(!set.insert(Team::Pink));
    assert!(set.insert(Team::Green));
    assert!(set.contains(&Team::Pink));
    assert!(set.contains(&Team::Green));
    assert!(!set.contains(&Team::Red));
    assert!(!set.is_empty());
    assert_eq!(set.first(), Some(Team::Green));
    assert!(set.remove(&Team::Green));
    assert!(!set.remove(&Team::Green));
    assert_eq!(set.first(), Some(Team::Pink));
    assert!(set.remove(&Team::Pink));
    assert!(set.is_empty());
    assert_eq!(set, TeamSet::new());
}

#[test]
fn team_sets_with_the_same_members_are_equal() {
    let mut a = TeamSet::new();
    a.insert(Team::Yellow);
    a.insert(Team::Red);
    let mut b = TeamSet::new();
    b.insert(Team::Red);
    b.insert(Team::Blue);
    b.insert(Team::Yellow);
    assert_ne!(a, b);
    b.remove(&Team::Blue);
    assert_eq!(a, b);
}

#[test]
fn members_come_in_enumeration_order() {
    let mut set = TeamSet::new();
    assert_eq!(set.members(), vec![]);
    set.insert(Team::Yellow);
    set.insert(Team::Green);
    set.insert(Team::Pink);
    assert_eq!(set.members(), vec![Team::Green, Team::Pink, Team::Yellow]);
    let mut all = TeamSet::new();
    for team in Team::all() {
        all.insert(team);
    }
    assert_eq!(all.members(), Team::all());
}

#[test]
fn set_from_members() {
    assert_eq!(TeamSet::from_members(&vec![]), TeamSet::new());
    let set = TeamSet::from_members(&vec![Team::Blue, Team::Red, Team::Blue]);
    assert_eq!(set.members(), vec![Team::Red, Team::Blue]);
    let mut same = TeamSet::new();
    same.insert(Team::Red);
    same.insert(Team::Blue);
    assert_eq!(set, same);
    assert_eq!(TeamSet::from_members(&set.members()), set);
}
