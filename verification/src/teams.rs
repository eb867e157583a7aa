//! The closed set of teams, and sets of teams.

use vstd::prelude::*;

verus! {

/// One of the eight teams. The declaration order is the enumeration order:
/// wherever teams are visited one after another, they are visited in this
/// order, and ties between teams are broken by it.
#[derive(Clone, Copy, Debug, PartialEq, Eq, Hash, Structural)]
pub enum Team {
    Red,
    Green,
    Blue,
    Cyan,
    Pink,
    Magenta,
    Purple,
    Yellow,
}

/// Number of teams.
pub const TEAM_COUNT: u8 = 8;

impl Team {
    /// Position of the team in the enumeration order.
    pub open spec fn spec_index(self) -> u8 {
        match self {
            Team::Red => 0,
            Team::Green => 1,
            Team::Blue => 2,
            Team::Cyan => 3,
            Team::Pink => 4,
            Team::Magenta => 5,
            Team::Purple => 6,
            Team::Yellow => 7,
        }
    }

    /// The team at a position of the enumeration order; positions past the
    /// last team give the last team.
    pub open spec fn at(i: int) -> Team {
        if i <= 0 {
            Team::Red
        } else if i == 1 {
            Team::Green
        } else if i == 2 {
            Team::Blue
        } else if i == 3 {
            Team::Cyan
        } else if i == 4 {
            Team::Pink
        } else if i == 5 {
            Team::Magenta
        } else if i == 6 {
            Team::Purple
        } else {
            Team::Yellow
        }
    }

    /// All teams in enumeration order.
    pub open spec fn spec_all() -> Seq<Team> {
        Seq::new(TEAM_COUNT as nat, |i: int| Team::at(i))
    }

    /// Position of the team in the enumeration order.
    #[verifier::when_used_as_spec(spec_index)]
    pub fn index(self) -> (i: u8)
        ensures
            i == self.spec_index(),
            i < TEAM_COUNT,
            Team::at(i as int) == self,
    {
        match self {
            Team::Red => 0,
            Team::Green => 1,
            Team::Blue => 2,
            Team::Cyan => 3,
            Team::Pink => 4,
            Team::Magenta => 5,
            Team::Purple => 6,
            Team::Yellow => 7,
        }
    }

    /// The team at position `i` of the enumeration order, if there is one.
    pub fn from_index(i: u8) -> (team: Option<Team>)
        ensures
            i < TEAM_COUNT ==> team == Some(Team::at(i as int)),
            i >= TEAM_COUNT ==> team is None,
            team matches Some(t) ==> t.spec_index() == i,
    {
        match i {
            0 => Some(Team::Red),
            1 => Some(Team::Green),
            2 => Some(Team::Blue),
            3 => Some(Team::Cyan),
            4 => Some(Team::Pink),
            5 => Some(Team::Magenta),
            6 => Some(Team::Purple),
            7 => Some(Team::Yellow),
            _ => None,
        }
    }

    /// All teams in enumeration order.
    pub fn all() -> (teams: Vec<Team>)
        ensures
            teams@ == Team::spec_all(),
    {
        let teams = vec![
            Team::Red,
            Team::Green,
            Team::Blue,
            Team::Cyan,
            Team::Pink,
            Team::Magenta,
            Team::Purple,
            Team::Yellow,
        ];
        assert(teams@ =~= Team::spec_all());
        teams
    }

    /// Display colour of the team as red, green and blue components.
    pub fn color(&self) -> (rgb: (u8, u8, u8))
        ensures
            rgb == self.spec_color(),
    {
        match self {
            Team::Red => (255, 0, 0),
            Team::Green => (0, 255, 0),
            Team::Blue => (0, 0, 255),
            Team::Cyan => (0, 183, 235),
            Team::Pink => (255, 105, 180),
            Team::Magenta => (255, 0, 144),
            Team::Purple => (186, 85, 211),
            Team::Yellow => (255, 255, 0),
        }
    }

    /// The colour table: one fixed colour per team.
    pub open spec fn spec_color(self) -> (u8, u8, u8) {
        match self {
            Team::Red => (255u8, 0u8, 0u8),
            Team::Green => (0u8, 255u8, 0u8),
            Team::Blue => (0u8, 0u8, 255u8),
            Team::Cyan => (0u8, 183u8, 235u8),
            Team::Pink => (255u8, 105u8, 180u8),
            Team::Magenta => (255u8, 0u8, 144u8),
            Team::Purple => (186u8, 85u8, 211u8),
            Team::Yellow => (255u8, 255u8, 0u8),
        }
    }
}

/// The enumeration order is a bijection between teams and `0..TEAM_COUNT`.
pub proof fn lemma_team_index_bijection()
    ensures
        forall|t: Team| #[trigger] Team::at(t.spec_index() as int) == t,
        forall|t: Team| (#[trigger] t.spec_index()) < TEAM_COUNT,
        forall|i: int| 0 <= i < TEAM_COUNT ==> (#[trigger] Team::at(i)).spec_index() == i,
{
}

/// A set of teams: the teams that currently mark one cell.
#[derive(Clone, Copy, Debug, PartialEq, Eq, Hash, Structural)]
pub struct TeamSet {
    red: bool,
    green: bool,
    blue: bool,
    cyan: bool,
    pink: bool,
    magenta: bool,
    purple: bool,
    yellow: bool,
}

impl View for TeamSet {
    type V = Set<Team>;

    closed spec fn view(&self) -> Set<Team> {
        Set::new(|team: Team| self.has(team))
    }
}

impl TeamSet {
    spec fn has(self, team: Team) -> bool {
        match team {
            Team::Red => self.red,
            Team::Green => self.green,
            Team::Blue => self.blue,
            Team::Cyan => self.cyan,
            Team::Pink => self.pink,
            Team::Magenta => self.magenta,
            Team::Purple => self.purple,
            Team::Yellow => self.yellow,
        }
    }

    /// The set without any team.
    pub fn new() -> (set: TeamSet)
        ensures
            set@ == Set::<Team>::empty(),
    {
        let set = TeamSet {
            red: false,
            green: false,
            blue: false,
            cyan: false,
            pink: false,
            magenta: false,
            purple: false,
            yellow: false,
        };
        assert(set@ =~= Set::<Team>::empty());
        set
    }

    /// Whether `team` is in the set.
    pub fn contains(&self, team: &Team) -> (found: bool)
        ensures
            found == self@.contains(*team),
    {
        match team {
            Team::Red => self.red,
            Team::Green => self.green,
            Team::Blue => self.blue,
            Team::Cyan => self.cyan,
            Team::Pink => self.pink,
            Team::Magenta => self.magenta,
            Team::Purple => self.purple,
            Team::Yellow => self.yellow,
        }
    }

    /// Whether no team is in the set.
    pub fn is_empty(&self) -> (empty: bool)
        ensures
            empty == (self@ == Set::<Team>::empty()),
    {
        let empty = !(self.red || self.green || self.blue || self.cyan || self.pink
            || self.magenta || self.purple || self.yellow);
        proof {
            if empty {
                assert(self@ =~= Set::<Team>::empty());
            } else {
                let witness = if self.red {
                    Team::Red
                } else if self.green {
                    Team::Green
                } else if self.blue {
                    Team::Blue
                } else if self.cyan {
                    Team::Cyan
                } else if self.pink {
                    Team::Pink
                } else if self.magenta {
                    Team::Magenta
                } else if self.purple {
                    Team::Purple
                } else {
                    Team::Yellow
                };
                assert(self@.contains(witness));
            }
        }
        empty
    }

    /// Adds `team`; returns whether it was absent before.
    pub fn insert(&mut self, team: Team) -> (added: bool)
        ensures
            final(self)@ == old(self)@.insert(team),
            added == !old(self)@.contains(team),
    {
        let added = !self.contains(&team);
        match team {
            Team::Red => self.red = true,
            Team::Green => self.green = true,
            Team::Blue => self.blue = true,
            Team::Cyan => self.cyan = true,
            Team::Pink => self.pink = true,
            Team::Magenta => self.magenta = true,
            Team::Purple => self.purple = true,
            Team::Yellow => self.yellow = true,
        }
        assert(self@ =~= old(self)@.insert(team));
        added
    }

    /// Removes `team`; returns whether it was present before.
    pub fn remove(&mut self, team: &Team) -> (removed: bool)
        ensures
            final(self)@ == old(self)@.remove(*team),
            removed == old(self)@.contains(*team),
    {
        let removed = self.contains(team);
        match team {
            Team::Red => self.red = false,
            Team::Green => self.green = false,
            Team::Blue => self.blue = false,
            Team::Cyan => self.cyan = false,
            Team::Pink => self.pink = false,
            Team::Magenta => self.magenta = false,
            Team::Purple => self.purple = false,
            Team::Yellow => self.yellow = false,
        }
        assert(self@ =~= old(self)@.remove(*team));
        removed
    }

    /// The members in enumeration order.
    pub fn members(&self) -> (teams: Vec<Team>)
        ensures
            forall|team: Team| teams@.contains(team) <==> self@.contains(team),
            forall|i: int, j: int|
                0 <= i < j < teams.len() ==> teams@[i].spec_index() < teams@[j].spec_index(),
    {
        let mut teams: Vec<Team> = Vec::new();
        let mut i: u8 = 0;
        while i < TEAM_COUNT
            invariant
                i <= TEAM_COUNT,
                forall|team: Team|
                    teams@.contains(team) <==> self@.contains(team) && team.spec_index() < i,
                forall|k: int| 0 <= k < teams.len() ==> teams@[k].spec_index() < i,
                forall|k: int, j: int|
                    0 <= k < j < teams.len() ==> teams@[k].spec_index() < teams@[j].spec_index(),
            decreases TEAM_COUNT - i,
        {
            let team = Team::from_index(i).unwrap();
            let ghost before = teams@;
            if self.contains(&team) {
                teams.push(team);
                assert(teams@[teams.len() - 1] == team);
                assert forall|other: Team| teams@.contains(other) <==> self@.contains(other)
                    && other.spec_index() < i + 1 by {
                    if other == team {
                    } else if teams@.contains(other) {
                        let k = choose|k: int| 0 <= k < teams.len() && teams@[k] == other;
                        assert(before[k] == other);
                        assert(before.contains(other));
                    } else if self@.contains(other) && other.spec_index() < i + 1 {
                        assert(Team::at(other.spec_index() as int) == other);
                        assert(before.contains(other));
                        let k = choose|k: int| 0 <= k < before.len() && before[k] == other;
                        assert(teams@[k] == other);
                    }
                }
            } else {
                assert forall|other: Team| teams@.contains(other) <==> self@.contains(other)
                    && other.spec_index() < i + 1 by {
                    if other.spec_index() == i {
                        assert(Team::at(other.spec_index() as int) == other);
                    }
                }
            }
            i += 1;
        }
        teams
    }

    /// The set of the listed teams.
    pub fn from_members(teams: &Vec<Team>) -> (set: TeamSet)
        ensures
            forall|team: Team| set@.contains(team) <==> teams@.contains(team),
    {
        let mut set = TeamSet::new();
        let mut i: usize = 0;
        while i < teams.len()
            invariant
                i <= teams.len(),
                forall|team: Team|
                    set@.contains(team) <==> exists|k: int| 0 <= k < i && teams@[k] == team,
            decreases teams.len() - i,
        {
            let ghost before = set@;
            set.insert(teams[i]);
            assert forall|team: Team| set@.contains(team) <==> exists|k: int|
                0 <= k < i + 1 && teams@[k] == team by {
                if team == teams@[i as int] {
                } else if before.contains(team) {
                    let k = choose|k: int| 0 <= k < i && teams@[k] == team;
                    assert(0 <= k < i + 1 && teams@[k] == team);
                }
            }
            i += 1;
        }
        set
    }

    /// The member that comes first in the enumeration order, if any.
    pub fn first(&self) -> (team: Option<Team>)
        ensures
            team is None <==> self@ == Set::<Team>::empty(),
            team matches Some(t) ==> self@.contains(t) && forall|u: Team|
                self@.contains(u) ==> t.spec_index() <= u.spec_index(),
    {
        let team = if self.red {
            Some(Team::Red)
        } else if self.green {
            Some(Team::Green)
        } else if self.blue {
            Some(Team::Blue)
        } else if self.cyan {
            Some(Team::Cyan)
        } else if self.pink {
            Some(Team::Pink)
        } else if self.magenta {
            Some(Team::Magenta)
        } else if self.purple {
            Some(Team::Purple)
        } else if self.yellow {
            Some(Team::Yellow)
        } else {
            None
        };
        proof {
            match team {
                Some(t) => {
                    assert(self@.contains(t));
                },
                None => {
                    assert(self@ =~= Set::<Team>::empty());
                },
            }
        }
        team
    }
}

impl Default for TeamSet {
    fn default() -> (set: TeamSet)
        ensures
            set@ == Set::<Team>::empty(),
    {
        TeamSet::new()
    }
}

/// Two team sets with the same members are the same value.
pub proof fn lemma_team_set_extensional(a: TeamSet, b: TeamSet)
    requires
        a@ == b@,
    ensures
        a == b,
{
    assert(a.has(Team::Red) == b@.contains(Team::Red));
    assert(a.has(Team::Green) == b@.contains(Team::Green));
    assert(a.has(Team::Blue) == b@.contains(Team::Blue));
    assert(a.has(Team::Cyan) == b@.contains(Team::Cyan));
    assert(a.has(Team::Pink) == b@.contains(Team::Pink));
    assert(a.has(Team::Magenta) == b@.contains(Team::Magenta));
    assert(a.has(Team::Purple) == b@.contains(Team::Purple));
    assert(a.has(Team::Yellow) == b@.contains(Team::Yellow));
}

/// A set is made again from the list of its members.
pub proof fn lemma_members_make_the_set(set: TeamSet, members: Seq<Team>, made: TeamSet)
    requires
        forall|team: Team| members.contains(team) <==> set@.contains(team),
        forall|team: Team| made@.contains(team) <==> members.contains(team),
    ensures
        made == set,
{
    assert forall|team: Team| made@.contains(team) == set@.contains(team) by {
        assert(members.contains(team) <==> set@.contains(team));
        assert(made@.contains(team) <==> members.contains(team));
    }
    assert(made@ =~= set@);
    lemma_team_set_extensional(made, set);
}

} // verus!
