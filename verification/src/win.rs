//! Win evaluation: which team, if any, satisfies the win condition.
//!
//! The result is always computed afresh from the activity on the board.
//! Teams are tried in enumeration order and the first one that meets the
//! condition is the winner.

use crate::bingo::{Board, BoardView, GameMode, WinCondition, lemma_cells_bound};
use crate::teams::{Team, TEAM_COUNT};
use vstd::prelude::*;

verus! {

/// The four directions in which a straight run of cells can lie.
#[derive(Clone, Copy, Debug, PartialEq, Eq, Structural)]
pub enum Direction {
    /// Along a column: `x` fixed, `y` growing.
    Column,
    /// Along a row: `y` fixed, `x` growing.
    Row,
    /// `x` and `y` growing together.
    Diagonal,
    /// `x` growing while `y` falls.
    AntiDiagonal,
}

impl BoardView {
    /// Number of cells among the first `n` that `team` marks.
    pub open spec fn count_below(self, team: Team, n: nat) -> nat
        decreases n,
    {
        if n == 0 {
            0
        } else {
            self.count_below(team, (n - 1) as nat) + if self.activity[n - 1].contains(team) {
                1nat
            } else {
                0nat
            }
        }
    }

    /// Number of cells that `team` marks.
    pub open spec fn count(self, team: Team) -> nat {
        self.count_below(team, self.activity.len())
    }

    /// Sum of the cell counts of the first `n` teams.
    pub open spec fn occupied_below(self, n: nat) -> nat
        decreases n,
    {
        if n == 0 {
            0
        } else {
            self.occupied_below((n - 1) as nat) + self.count(Team::at(n - 1))
        }
    }

    /// Sum of the cell counts of all teams.
    pub open spec fn occupied(self) -> nat {
        self.occupied_below(TEAM_COUNT as nat)
    }

    /// Number of cells left over when every team's count is taken from the
    /// number of cells.
    pub open spec fn free(self) -> int {
        self.cells() - self.occupied()
    }

    /// `team` would still hold strictly more cells than any other team if
    /// that team took every free cell.
    pub open spec fn dominates(self, team: Team) -> bool {
        forall|other: Team| other != team ==> self.free() + self.count(other) < self.count(team)
    }

    /// The `d`-th cell of the run that starts at `(sx, sy)` in direction `dir`.
    pub open spec fn line_cell(self, dir: Direction, sx: int, sy: int, d: int) -> (int, int) {
        match dir {
            Direction::Column => (sx, sy + d),
            Direction::Row => (sx + d, sy),
            Direction::Diagonal => (sx + d, sy + d),
            Direction::AntiDiagonal => (sx + d, self.prompts.y_size - sy - d - 1),
        }
    }

    /// Number of start columns from which a run of `length` cells in
    /// direction `dir` fits inside the grid (not positive: none).
    pub open spec fn starts_x(self, dir: Direction, length: int) -> int {
        match dir {
            Direction::Column => self.prompts.x_size as int,
            _ => self.prompts.x_size - length + 1,
        }
    }

    /// Number of start rows from which a run of `length` cells in direction
    /// `dir` fits inside the grid (not positive: none).
    pub open spec fn starts_y(self, dir: Direction, length: int) -> int {
        match dir {
            Direction::Row => self.prompts.y_size as int,
            _ => self.prompts.y_size - length + 1,
        }
    }

    /// `team` marks all `length` cells of the run that starts at `(sx, sy)`
    /// in direction `dir`.
    pub open spec fn run_at(self, team: Team, dir: Direction, length: int, sx: int, sy: int)
        -> bool {
        forall|d: int|
            0 <= d < length ==> self.marked(
                team,
                #[trigger] self.line_cell(dir, sx, sy, d).0,
                self.line_cell(dir, sx, sy, d).1,
            )
    }

    /// Number of complete runs of `team` that start in column `sx` at one
    /// of the first `n` rows.
    pub open spec fn runs_in_lane(
        self,
        team: Team,
        dir: Direction,
        length: int,
        sx: int,
        n: nat,
    ) -> nat
        decreases n,
    {
        if n == 0 {
            0
        } else {
            self.runs_in_lane(team, dir, length, sx, (n - 1) as nat) + if self.run_at(
                team,
                dir,
                length,
                sx,
                n - 1,
            ) {
                1nat
            } else {
                0nat
            }
        }
    }

    /// Number of complete runs of `team` that start in one of the first `n`
    /// columns, at any start row where the run fits.
    pub open spec fn runs_in_lanes(self, team: Team, dir: Direction, length: int, n: nat) -> nat
        decreases n,
    {
        if n == 0 {
            0
        } else {
            self.runs_in_lanes(team, dir, length, (n - 1) as nat) + self.runs_in_lane(
                team,
                dir,
                length,
                n - 1,
                self.starts_y(dir, length) as nat,
            )
        }
    }

    /// Number of complete runs of `length` cells of `team` in direction
    /// `dir`, over every start cell from which the run fits inside the grid.
    pub open spec fn runs_along(self, team: Team, dir: Direction, length: int) -> nat {
        if self.starts_x(dir, length) <= 0 || self.starts_y(dir, length) <= 0 {
            0
        } else {
            self.runs_in_lanes(team, dir, length, self.starts_x(dir, length) as nat)
        }
    }

    /// Number of complete runs of `length` cells of `team` in all four
    /// directions together.
    pub open spec fn runs(self, team: Team, length: int) -> nat {
        self.runs_along(team, Direction::Column, length) + self.runs_along(
            team,
            Direction::Row,
            length,
        ) + self.runs_along(team, Direction::Diagonal, length) + self.runs_along(
            team,
            Direction::AntiDiagonal,
            length,
        )
    }

    /// Whether `team` satisfies the win condition `rule` on this board.
    pub open spec fn meets(self, rule: WinCondition, team: Team) -> bool {
        match rule {
            WinCondition::InRow { length, rows } => self.runs(team, length as int) >= rows,
            WinCondition::Domination => self.mode.game_mode == GameMode::Lockout
                && self.dominates(team),
            WinCondition::FirstTo(n) => self.count(team) >= n,
        }
    }

    /// The first team at position `from` or later of the enumeration order
    /// that satisfies `rule`.
    pub open spec fn first_meeting(self, rule: WinCondition, from: nat) -> Option<Team>
        decreases TEAM_COUNT - from,
    {
        if from >= TEAM_COUNT {
            None
        } else if self.meets(rule, Team::at(from as int)) {
            Some(Team::at(from as int))
        } else {
            self.first_meeting(rule, from + 1)
        }
    }

    /// The winner under `rule`: the first team in enumeration order that
    /// satisfies it.
    pub open spec fn winner_under(self, rule: WinCondition) -> Option<Team> {
        self.first_meeting(rule, 0)
    }

    /// The winner under the board's own win condition.
    pub open spec fn winner(self) -> Option<Team> {
        self.winner_under(self.mode.win_condition)
    }
}

/// What `first_meeting` finds lies at or after `from`, satisfies the rule,
/// and no team between `from` and it does; it finds nothing exactly when no
/// team from `from` on satisfies the rule.
pub proof fn lemma_first_meeting(board: BoardView, rule: WinCondition, from: nat)
    ensures
        match board.first_meeting(rule, from) {
            Some(team) => {
                &&& from <= team.spec_index()
                &&& board.meets(rule, team)
                &&& forall|other: Team|
                    from <= other.spec_index() < team.spec_index() ==> !board.meets(rule, other)
            },
            None => forall|other: Team| from <= other.spec_index() ==> !board.meets(rule, other),
        },
    decreases TEAM_COUNT - from,
{
    if from < TEAM_COUNT {
        let here = Team::at(from as int);
        assert(here.spec_index() == from);
        assert(forall|other: Team| other.spec_index() == from ==> other == here);
        if !board.meets(rule, here) {
            lemma_first_meeting(board, rule, from + 1);
        }
    }
}

/// The winner is the first team, in enumeration order, that satisfies the
/// rule: it satisfies the rule and no earlier team does. There is no winner
/// exactly when no team satisfies the rule.
pub proof fn lemma_winner_is_first(board: BoardView, rule: WinCondition)
    ensures
        forall|team: Team|
            board.winner_under(rule) == Some(team) <==> (board.meets(rule, team) && forall|
                other: Team,
            |
                other.spec_index() < team.spec_index() ==> !board.meets(rule, other)),
        board.winner_under(rule) is None <==> forall|team: Team| !board.meets(rule, team),
{
    lemma_first_meeting(board, rule, 0);
    assert forall|team: Team|
        (board.meets(rule, team) && forall|other: Team|
            other.spec_index() < team.spec_index() ==> !board.meets(rule, other))
            implies board.winner_under(rule) == Some(team) by {
        match board.winner_under(rule) {
            Some(found) => {
                if found.spec_index() < team.spec_index() {
                    assert(!board.meets(rule, found));
                } else if team.spec_index() < found.spec_index() {
                    assert(!board.meets(rule, team));
                } else {
                    assert(Team::at(found.spec_index() as int) == found);
                    assert(Team::at(team.spec_index() as int) == team);
                }
            },
            None => {},
        }
    }
}

/// On a board on which `team` marks no cell, its count is zero.
pub proof fn lemma_count_below_none(board: BoardView, team: Team, n: nat)
    requires
        n <= board.activity.len(),
        forall|i: int| 0 <= i < board.activity.len() ==> !board.activity[i].contains(team),
    ensures
        board.count_below(team, n) == 0,
    decreases n,
{
    if n > 0 {
        lemma_count_below_none(board, team, (n - 1) as nat);
    }
}

/// On a board on which `team` marks no cell, no run of at least one cell
/// is complete in a lane.
proof fn lemma_no_runs_in_lane(
    board: BoardView,
    team: Team,
    dir: Direction,
    length: int,
    sx: int,
    n: nat,
)
    requires
        length >= 1,
        forall|i: int| 0 <= i < board.activity.len() ==> !board.activity[i].contains(team),
    ensures
        board.runs_in_lane(team, dir, length, sx, n) == 0,
    decreases n,
{
    if n > 0 {
        lemma_no_runs_in_lane(board, team, dir, length, sx, (n - 1) as nat);
        let first = board.line_cell(dir, sx, n - 1, 0);
        assert(!board.marked(team, first.0, first.1));
    }
}

/// On a board on which `team` marks no cell, no run of at least one cell
/// is complete.
proof fn lemma_no_runs_in_lanes(board: BoardView, team: Team, dir: Direction, length: int, n: nat)
    requires
        length >= 1,
        forall|i: int| 0 <= i < board.activity.len() ==> !board.activity[i].contains(team),
    ensures
        board.runs_in_lanes(team, dir, length, n) == 0,
    decreases n,
{
    if n > 0 {
        lemma_no_runs_in_lanes(board, team, dir, length, (n - 1) as nat);
        lemma_no_runs_in_lane(
            board,
            team,
            dir,
            length,
            n - 1,
            board.starts_y(dir, length) as nat,
        );
    }
}

impl WinCondition {
    /// The rule is met without any mark: it asks for no run, for runs of
    /// no cell, or for no cell.
    pub open spec fn asks_nothing(self) -> bool {
        match self {
            WinCondition::InRow { length, rows } => length == 0 || rows == 0,
            WinCondition::Domination => false,
            WinCondition::FirstTo(n) => n == 0,
        }
    }
}

/// A team that marks no cell does not satisfy a rule, unless the rule asks
/// for nothing. (Under domination this needs a grid that is not smaller
/// than its activity list, as on every well-formed board.)
pub proof fn lemma_no_marks_no_win(board: BoardView, rule: WinCondition, team: Team)
    requires
        !rule.asks_nothing(),
        forall|i: int| 0 <= i < board.activity.len() ==> !board.activity[i].contains(team),
        rule is Domination ==> board.occupied() <= board.cells(),
    ensures
        !board.meets(rule, team),
{
    match rule {
        WinCondition::InRow { length, rows } => {
            let length = length as int;
            lemma_no_runs_in_lanes(
                board,
                team,
                Direction::Column,
                length,
                board.starts_x(Direction::Column, length) as nat,
            );
            lemma_no_runs_in_lanes(
                board,
                team,
                Direction::Row,
                length,
                board.starts_x(Direction::Row, length) as nat,
            );
            lemma_no_runs_in_lanes(
                board,
                team,
                Direction::Diagonal,
                length,
                board.starts_x(Direction::Diagonal, length) as nat,
            );
            lemma_no_runs_in_lanes(
                board,
                team,
                Direction::AntiDiagonal,
                length,
                board.starts_x(Direction::AntiDiagonal, length) as nat,
            );
        },
        WinCondition::Domination => {
            lemma_count_below_none(board, team, board.activity.len());
            let other = if team == Team::Red {
                Team::Green
            } else {
                Team::Red
            };
            assert(!(board.free() + board.count(other) < board.count(team)));
        },
        WinCondition::FirstTo(n) => {
            lemma_count_below_none(board, team, board.activity.len());
        },
    }
}

/// A board without any activity has no winner, unless its rule asks for
/// nothing: after a reset or a change of configuration the game is open.
pub proof fn lemma_blank_board_has_no_winner(board: BoardView)
    requires
        !board.mode.win_condition.asks_nothing(),
    ensures
        board.cleared().winner() is None,
{
    let blank = board.cleared();
    let rule = board.mode.win_condition;
    assert forall|team: Team| !blank.meets(rule, team) by {
        if rule is Domination {
            assert forall|k: nat| k <= TEAM_COUNT implies blank.occupied_below(k) == 0 by {
                lemma_blank_board_is_unoccupied(blank, k);
            }
        }
        lemma_no_marks_no_win(blank, rule, team);
    }
    lemma_winner_is_first(blank, rule);
}

/// On a board without any activity the teams hold no cells.
proof fn lemma_blank_board_is_unoccupied(board: BoardView, teams: nat)
    requires
        forall|i: int| 0 <= i < board.activity.len() ==> board.activity[i] == Set::<Team>::empty(),
    ensures
        board.occupied_below(teams) == 0,
    decreases teams,
{
    if teams > 0 {
        lemma_blank_board_is_unoccupied(board, (teams - 1) as nat);
        lemma_count_below_none(board, Team::at(teams - 1), board.activity.len());
    }
}

/// Under domination at most one team satisfies the rule, as long as the
/// teams together do not hold more cells than there are.
pub proof fn lemma_dominating_team_is_unique(board: BoardView, a: Team, b: Team)
    requires
        board.free() >= 0,
        board.dominates(a),
        board.dominates(b),
    ensures
        a == b,
{
    if a != b {
        assert(board.free() + board.count(b) < board.count(a));
        assert(board.free() + board.count(a) < board.count(b));
    }
}

impl Board {
    /// Number of cells that `team` marks.
    pub fn count(&self, team: &Team) -> (n: usize)
        ensures
            n == self@.count(*team),
            n <= self@.activity.len(),
    {
        let mut n: usize = 0;
        let mut i: usize = 0;
        while i < self.activity.activity.len()
            invariant
                i <= self.activity.activity.len(),
                n == self@.count_below(*team, i as nat),
                n <= i,
            decreases self.activity.activity.len() - i,
        {
            if self.activity.activity[i].contains(team) {
                n += 1;
            }
            i += 1;
        }
        n
    }

    /// Whether `team` marks the cell at column `x`, row `y`; a cell whose
    /// offset lies past the activity list counts as unmarked.
    fn cell_marked(&self, team: &Team, x: usize, y: usize) -> (marked: bool)
        requires
            x <= 255,
            y <= 255,
        ensures
            marked == self@.marked(*team, x as int, y as int),
    {
        proof {
            lemma_cells_bound(x as u8, self.config.prompts.y_size);
        }
        let offset = x * self.config.prompts.y_size as usize + y;
        offset < self.activity.activity.len() && self.activity.activity[offset].contains(team)
    }

    /// Whether `team` marks all `length` cells of the run that starts at
    /// `(sx, sy)` in direction `dir`.
    fn has_run(&self, team: &Team, dir: Direction, length: u8, sx: usize, sy: usize) -> (complete:
        bool)
        requires
            0 <= sx < self@.starts_x(dir, length as int),
            0 <= sy < self@.starts_y(dir, length as int),
        ensures
            complete == self@.run_at(*team, dir, length as int, sx as int, sy as int),
    {
        let y_size = self.config.prompts.y_size as usize;
        let mut d: usize = 0;
        while d < length as usize
            invariant
                d <= length,
                y_size == self@.prompts.y_size,
                0 <= sx < self@.starts_x(dir, length as int),
                0 <= sy < self@.starts_y(dir, length as int),
                forall|e: int|
                    0 <= e < d ==> self@.marked(
                        *team,
                        #[trigger] self@.line_cell(dir, sx as int, sy as int, e).0,
                        self@.line_cell(dir, sx as int, sy as int, e).1,
                    ),
            decreases length - d,
        {
            let (x, y) = match dir {
                Direction::Column => (sx, sy + d),
                Direction::Row => (sx + d, sy),
                Direction::Diagonal => (sx + d, sy + d),
                Direction::AntiDiagonal => (sx + d, y_size - sy - d - 1),
            };
            assert((x as int, y as int) == self@.line_cell(dir, sx as int, sy as int, d as int));
            if !self.cell_marked(team, x, y) {
                return false;
            }
            d += 1;
        }
        true
    }

    /// Number of complete runs of `length` cells of `team` in direction
    /// `dir`.
    pub fn count_runs(&self, team: &Team, dir: Direction, length: u8) -> (runs: usize)
        ensures
            runs == self@.runs_along(*team, dir, length as int),
            runs <= 65536,
    {
        let x_size = self.config.prompts.x_size as usize;
        let y_size = self.config.prompts.y_size as usize;
        let len = length as usize;
        let lanes: usize = match dir {
            Direction::Column => x_size,
            _ => if len <= x_size {
                x_size - len + 1
            } else {
                0
            },
        };
        let starts: usize = match dir {
            Direction::Row => y_size,
            _ => if len <= y_size {
                y_size - len + 1
            } else {
                0
            },
        };
        if lanes == 0 || starts == 0 {
            return 0;
        }
        assert(lanes == self@.starts_x(dir, length as int));
        assert(starts == self@.starts_y(dir, length as int));
        let mut runs: usize = 0;
        let mut sx: usize = 0;
        while sx < lanes
            invariant
                sx <= lanes <= 256,
                0 < starts <= 256,
                lanes == self@.starts_x(dir, length as int),
                starts == self@.starts_y(dir, length as int),
                runs == self@.runs_in_lanes(*team, dir, length as int, sx as nat),
                runs <= sx * 256,
            decreases lanes - sx,
        {
            let mut in_lane: usize = 0;
            let mut sy: usize = 0;
            while sy < starts
                invariant
                    sx < lanes <= 256,
                    sy <= starts <= 256,
                    lanes == self@.starts_x(dir, length as int),
                    starts == self@.starts_y(dir, length as int),
                    in_lane == self@.runs_in_lane(
                        *team,
                        dir,
                        length as int,
                        sx as int,
                        sy as nat,
                    ),
                    in_lane <= sy,
                decreases starts - sy,
            {
                if self.has_run(team, dir, length, sx, sy) {
                    in_lane += 1;
                }
                sy += 1;
            }
            runs += in_lane;
            sx += 1;
        }
        runs
    }

    /// Number of complete runs of `length` cells of `team` in all four
    /// directions together.
    pub fn total_runs(&self, team: &Team, length: u8) -> (runs: usize)
        ensures
            runs == self@.runs(*team, length as int),
    {
        self.count_runs(team, Direction::Column, length) + self.count_runs(
            team,
            Direction::Row,
            length,
        ) + self.count_runs(team, Direction::Diagonal, length) + self.count_runs(
            team,
            Direction::AntiDiagonal,
            length,
        )
    }

    /// The first team with at least `rows` complete runs of `length` cells.
    pub fn check_win_in_row(&self, length: u8, rows: u8) -> (winner: Option<Team>)
        ensures
            winner == self@.winner_under(WinCondition::InRow { length, rows }),
    {
        let ghost rule = WinCondition::InRow { length, rows };
        let mut i: u8 = 0;
        while i < TEAM_COUNT
            invariant
                i <= TEAM_COUNT,
                rule == (WinCondition::InRow { length, rows }),
                self@.winner_under(rule) == self@.first_meeting(rule, i as nat),
            decreases TEAM_COUNT - i,
        {
            let team = Team::from_index(i).unwrap();
            if self.total_runs(&team, length) >= rows as usize {
                return Some(team);
            }
            i += 1;
        }
        None
    }

    /// The first team that marks at least `n` cells.
    pub fn check_win_first_to(&self, n: u8) -> (winner: Option<Team>)
        ensures
            winner == self@.winner_under(WinCondition::FirstTo(n)),
    {
        let ghost rule = WinCondition::FirstTo(n);
        let mut i: u8 = 0;
        while i < TEAM_COUNT
            invariant
                i <= TEAM_COUNT,
                rule == WinCondition::FirstTo(n),
                self@.winner_under(rule) == self@.first_meeting(rule, i as nat),
            decreases TEAM_COUNT - i,
        {
            let team = Team::from_index(i).unwrap();
            if self.count(&team) >= n as usize {
                return Some(team);
            }
            i += 1;
        }
        None
    }

    /// The cell counts of all teams, in enumeration order.
    fn team_counts(&self) -> (counts: Vec<usize>)
        ensures
            counts.len() == TEAM_COUNT,
            forall|i: int| 0 <= i < TEAM_COUNT ==> counts[i] == self@.count(Team::at(i)),
    {
        let mut counts: Vec<usize> = Vec::new();
        let mut i: u8 = 0;
        while i < TEAM_COUNT
            invariant
                i <= TEAM_COUNT,
                counts.len() == i,
                forall|j: int| 0 <= j < i ==> counts[j] == self@.count(Team::at(j)),
            decreases TEAM_COUNT - i,
        {
            let team = Team::from_index(i).unwrap();
            counts.push(self.count(&team));
            i += 1;
        }
        counts
    }

    /// In lockout mode, the team that holds so many cells that no other
    /// team could catch up by taking every free cell; no team otherwise.
    pub fn check_win_domination(&self) -> (winner: Option<Team>)
        ensures
            winner == self@.winner_under(WinCondition::Domination),
    {
        let ghost rule = WinCondition::Domination;
        if self.config.mode.game_mode != GameMode::Lockout {
            proof {
                lemma_winner_is_first(self@, rule);
            }
            return None;
        }
        let counts = self.team_counts();
        let mut occupied: u128 = 0;
        let mut k: usize = 0;
        while k < 8
            invariant
                k <= 8,
                counts.len() == 8,
                forall|i: int| 0 <= i < 8 ==> counts[i] == self@.count(Team::at(i)),
                occupied == self@.occupied_below(k as nat),
                occupied <= k * usize::MAX,
            decreases 8 - k,
        {
            occupied += counts[k] as u128;
            k += 1;
        }
        let cells = self.cells() as u128;
        proof {
            lemma_cells_bound(self.config.prompts.x_size, self.config.prompts.y_size);
        }
        let mut i: u8 = 0;
        while i < TEAM_COUNT
            invariant
                i <= TEAM_COUNT,
                rule == WinCondition::Domination,
                self@.mode.game_mode == GameMode::Lockout,
                counts.len() == 8,
                forall|j: int| 0 <= j < 8 ==> counts[j] == self@.count(Team::at(j)),
                occupied == self@.occupied(),
                occupied <= 8 * usize::MAX,
                cells == self@.cells(),
                cells <= 65025,
                self@.winner_under(rule) == self@.first_meeting(rule, i as nat),
            decreases TEAM_COUNT - i,
        {
            let team = Team::from_index(i).unwrap();
            let mine = counts[i as usize] as u128;
            let mut ahead = true;
            let mut j: u8 = 0;
            while j < TEAM_COUNT
                invariant
                    j <= TEAM_COUNT,
                    i < TEAM_COUNT,
                    team == Team::at(i as int),
                    mine == self@.count(team),
                    mine <= usize::MAX,
                    counts.len() == 8,
                    forall|m: int| 0 <= m < 8 ==> counts[m] == self@.count(Team::at(m)),
                    occupied == self@.occupied(),
                    occupied <= 8 * usize::MAX,
                    cells == self@.cells(),
                    cells <= 65025,
                    ahead == forall|other: Team|
                        (#[trigger] other.spec_index()) < j && other != team ==> self@.free()
                            + self@.count(other) < self@.count(team),
                decreases TEAM_COUNT - j,
            {
                if j != i {
                    let theirs = counts[j as usize] as u128;
                    let ghost rival = Team::at(j as int);
                    assert(rival.spec_index() == j);
                    assert(forall|other: Team| other.spec_index() == j ==> other == rival);
                    if !(cells + theirs < mine + occupied) {
                        ahead = false;
                    }
                } else {
                    assert(forall|other: Team| other.spec_index() == j ==> other == team);
                }
                j += 1;
            }
            if ahead {
                assert forall|other: Team| other != team implies self@.free() + self@.count(
                    other,
                ) < self@.count(team) by {
                    assert(other.spec_index() < TEAM_COUNT);
                }
                return Some(team);
            }
            i += 1;
        }
        None
    }

    /// The team that has won under the board's win condition, if any.
    /// Evaluated afresh from the current activity.
    pub fn check_win(&self) -> (winner: Option<Team>)
        ensures
            winner == self@.winner(),
    {
        match self.config.mode.win_condition {
            WinCondition::InRow { length, rows } => self.check_win_in_row(length, rows),
            WinCondition::Domination => self.check_win_domination(),
            WinCondition::FirstTo(n) => self.check_win_first_to(n),
        }
    }
}

} // verus!
