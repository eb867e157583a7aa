//! What the counts of the win rules count.
//!
//! The win rules are stated over counts that add up cell by cell and start
//! by start. Here each count is shown to be the size of the set it is
//! meant to count: the cells that a team marks, and the start cells of the
//! complete runs of a team.

use crate::bingo::BoardView;
use crate::teams::Team;
use crate::win::Direction;
use vstd::prelude::*;
use vstd::set_lib::lemma_set_disjoint_lens;

verus! {

impl BoardView {
    /// The offsets, below `n`, of the cells that `team` marks.
    pub open spec fn marked_below(self, team: Team, n: nat) -> Set<int> {
        Set::new(|i: int| 0 <= i < n && i < self.activity.len() && self.activity[i].contains(team))
    }

    /// The offsets of the cells that `team` marks.
    pub open spec fn marked_cells(self, team: Team) -> Set<int> {
        self.marked_below(team, self.activity.len())
    }

    /// The start cells in column `sx`, at a row below `n`, of the complete
    /// runs of `length` cells of `team` in direction `dir`.
    pub open spec fn runs_from_lane(
        self,
        team: Team,
        dir: Direction,
        length: int,
        sx: int,
        n: nat,
    ) -> Set<(int, int)> {
        Set::new(
            |start: (int, int)|
                start.0 == sx && 0 <= start.1 < n && self.run_at(team, dir, length, sx, start.1),
        )
    }

    /// The start cells in a column below `n`, at a row below `rows`, of the
    /// complete runs of `length` cells of `team` in direction `dir`.
    pub open spec fn runs_from_lanes(
        self,
        team: Team,
        dir: Direction,
        length: int,
        n: nat,
        rows: nat,
    ) -> Set<(int, int)> {
        Set::new(
            |start: (int, int)|
                0 <= start.0 < n && 0 <= start.1 < rows && self.run_at(
                    team,
                    dir,
                    length,
                    start.0,
                    start.1,
                ),
        )
    }

    /// The start cells of the complete runs of `length` cells of `team` in
    /// direction `dir`, among all start cells from which such a run fits
    /// inside the grid.
    pub open spec fn complete_runs(self, team: Team, dir: Direction, length: int) -> Set<
        (int, int),
    > {
        Set::new(
            |start: (int, int)|
                0 <= start.0 < self.starts_x(dir, length) && 0 <= start.1 < self.starts_y(
                    dir,
                    length,
                ) && self.run_at(team, dir, length, start.0, start.1),
        )
    }
}

/// Among the first `n` cells, the count of a team is the number of cells
/// that it marks.
pub proof fn lemma_count_below_is_cardinality(board: BoardView, team: Team, n: nat)
    requires
        n <= board.activity.len(),
    ensures
        board.marked_below(team, n).finite(),
        board.count_below(team, n) == board.marked_below(team, n).len(),
    decreases n,
{
    if n == 0 {
        assert(board.marked_below(team, 0) =~= Set::<int>::empty());
    } else {
        let before = board.marked_below(team, (n - 1) as nat);
        lemma_count_below_is_cardinality(board, team, (n - 1) as nat);
        if board.activity[n - 1].contains(team) {
            assert(board.marked_below(team, n) =~= before.insert(n - 1));
        } else {
            assert(board.marked_below(team, n) =~= before);
        }
    }
}

/// The count of a team is the number of cells that it marks.
pub proof fn lemma_count_is_cardinality(board: BoardView, team: Team)
    ensures
        board.marked_cells(team).finite(),
        board.count(team) == board.marked_cells(team).len(),
{
    lemma_count_below_is_cardinality(board, team, board.activity.len());
}

/// In one column, the number of runs is the number of start cells of
/// complete runs.
pub proof fn lemma_runs_in_lane_is_cardinality(
    board: BoardView,
    team: Team,
    dir: Direction,
    length: int,
    sx: int,
    n: nat,
)
    ensures
        board.runs_from_lane(team, dir, length, sx, n).finite(),
        board.runs_in_lane(team, dir, length, sx, n) == board.runs_from_lane(
            team,
            dir,
            length,
            sx,
            n,
        ).len(),
    decreases n,
{
    if n == 0 {
        assert(board.runs_from_lane(team, dir, length, sx, 0) =~= Set::<(int, int)>::empty());
    } else {
        let before = board.runs_from_lane(team, dir, length, sx, (n - 1) as nat);
        lemma_runs_in_lane_is_cardinality(board, team, dir, length, sx, (n - 1) as nat);
        if board.run_at(team, dir, length, sx, n - 1) {
            assert(board.runs_from_lane(team, dir, length, sx, n) =~= before.insert((sx, n - 1)));
        } else {
            assert(board.runs_from_lane(team, dir, length, sx, n) =~= before);
        }
    }
}

/// Over the first `n` columns, the number of runs is the number of start
/// cells of complete runs.
pub proof fn lemma_runs_in_lanes_is_cardinality(
    board: BoardView,
    team: Team,
    dir: Direction,
    length: int,
    n: nat,
)
    requires
        board.starts_y(dir, length) >= 0,
    ensures
        board.runs_from_lanes(team, dir, length, n, board.starts_y(dir, length) as nat).finite(),
        board.runs_in_lanes(team, dir, length, n) == board.runs_from_lanes(
            team,
            dir,
            length,
            n,
            board.starts_y(dir, length) as nat,
        ).len(),
    decreases n,
{
    let rows = board.starts_y(dir, length) as nat;
    if n == 0 {
        assert(board.runs_from_lanes(team, dir, length, 0, rows) =~= Set::<(int, int)>::empty());
    } else {
        let before = board.runs_from_lanes(team, dir, length, (n - 1) as nat, rows);
        let lane = board.runs_from_lane(team, dir, length, n - 1, rows);
        lemma_runs_in_lanes_is_cardinality(board, team, dir, length, (n - 1) as nat);
        lemma_runs_in_lane_is_cardinality(board, team, dir, length, n - 1, rows);
        assert(board.runs_from_lanes(team, dir, length, n, rows) =~= before + lane);
        assert(before.disjoint(lane));
        lemma_set_disjoint_lens(before, lane);
    }
}

/// The number of runs of a team in a direction is the number of start
/// cells, among those from which a run fits inside the grid, at which all
/// cells of the run are marked by the team.
pub proof fn lemma_runs_is_cardinality(board: BoardView, team: Team, dir: Direction, length: int)
    ensures
        board.complete_runs(team, dir, length).finite(),
        board.runs_along(team, dir, length) == board.complete_runs(team, dir, length).len(),
{
    let all = board.complete_runs(team, dir, length);
    if board.starts_x(dir, length) <= 0 || board.starts_y(dir, length) <= 0 {
        assert(all =~= Set::<(int, int)>::empty());
    } else {
        let columns = board.starts_x(dir, length) as nat;
        let rows = board.starts_y(dir, length) as nat;
        lemma_runs_in_lanes_is_cardinality(board, team, dir, length, columns);
        assert(all =~= board.runs_from_lanes(team, dir, length, columns, rows));
    }
}

} // verus!
