//! The lockout rule as an invariant of the board.
//!
//! In lockout mode a cell is held by at most one team. The board that a
//! server starts with respects this, and so does every board that comes
//! from one that does by a change of configuration, by a reset or by a mark
//! or unmark request. On such a board the teams together never hold more
//! cells than there are, so the number of free cells is not negative.

use crate::bingo::{BoardMode, BoardView, GameMode, PromptsView};
use crate::teams::{Team, TEAM_COUNT};
use crate::win::lemma_dominating_team_is_unique;
use vstd::prelude::*;

verus! {

impl BoardView {
    /// No cell is marked by two teams.
    pub open spec fn exclusive(self) -> bool {
        forall|i: int, a: Team, b: Team|
            0 <= i < self.activity.len() && #[trigger] self.activity[i].contains(a)
                && #[trigger] self.activity[i].contains(b) ==> a == b
    }

    /// In lockout mode no cell is marked by two teams.
    pub open spec fn lockout_respected(self) -> bool {
        self.mode.game_mode == GameMode::Lockout ==> self.exclusive()
    }

    /// Number of teams among the first `teams` of the enumeration order
    /// that mark the cell at `offset`.
    pub open spec fn holders_below(self, offset: int, teams: nat) -> nat
        decreases teams,
    {
        if teams == 0 {
            0
        } else {
            self.holders_below(offset, (teams - 1) as nat) + if self.activity[offset].contains(
                Team::at(teams - 1),
            ) {
                1nat
            } else {
                0nat
            }
        }
    }

    /// Sum, over the first `teams` teams, of the number of cells among the
    /// first `cells` that the team marks.
    pub open spec fn marks_below(self, teams: nat, cells: nat) -> nat
        decreases teams,
    {
        if teams == 0 {
            0
        } else {
            self.marks_below((teams - 1) as nat, cells) + self.count_below(
                Team::at(teams - 1),
                cells,
            )
        }
    }
}

/// The board a server starts with respects the lockout rule.
pub proof fn lemma_default_respects_lockout()
    ensures
        BoardView::spec_default().lockout_respected(),
        BoardView::spec_default().exclusive(),
{
}

/// A board whose activity was cleared, by a reset or by a change of mode
/// or prompts, respects the lockout rule.
pub proof fn lemma_cleared_respects_lockout(board: BoardView, mode: BoardMode, prompts: PromptsView)
    ensures
        board.cleared().exclusive(),
        board.with_mode(mode).exclusive(),
        board.with_prompts(prompts).exclusive(),
        board.cleared().lockout_respected(),
        board.with_mode(mode).lockout_respected(),
        board.with_prompts(prompts).lockout_respected(),
{
}

/// A mark or unmark request keeps the lockout rule.
pub proof fn lemma_update_respects_lockout(
    board: BoardView,
    team: Team,
    x: int,
    y: int,
    want_active: bool,
)
    requires
        board.lockout_respected(),
    ensures
        board.after_update(team, x, y, want_active).lockout_respected(),
{
    let after = board.after_update(team, x, y, want_active);
    if board.mode.game_mode == GameMode::Lockout && after != board {
        let offset = board.offset(x, y);
        assert forall|i: int, a: Team, b: Team|
            0 <= i < after.activity.len() && #[trigger] after.activity[i].contains(a)
                && #[trigger] after.activity[i].contains(b) implies a == b by {
            if i != offset {
                assert(board.activity[i].contains(a) && board.activity[i].contains(b));
            } else if want_active {
                assert(board.activity[offset] =~= Set::<Team>::empty());
            } else {
                assert(board.activity[i].contains(a) && board.activity[i].contains(b));
            }
        }
    }
}

/// Where a team from position `teams` on is the only one in a cell, no team
/// before that position marks the cell.
proof fn lemma_no_holder_below(board: BoardView, offset: int, teams: nat)
    requires
        0 <= offset < board.activity.len(),
        forall|k: int| 0 <= k < teams ==> !board.activity[offset].contains(#[trigger] Team::at(k)),
    ensures
        board.holders_below(offset, teams) == 0,
    decreases teams,
{
    if teams > 0 {
        lemma_no_holder_below(board, offset, (teams - 1) as nat);
    }
}

/// On a board where no cell is marked by two teams, every cell has at most
/// one holder.
proof fn lemma_one_holder(board: BoardView, offset: int, teams: nat)
    requires
        board.exclusive(),
        0 <= offset < board.activity.len(),
        teams <= TEAM_COUNT,
    ensures
        board.holders_below(offset, teams) <= 1,
    decreases teams,
{
    if teams > 0 {
        let last = Team::at(teams - 1);
        if board.activity[offset].contains(last) {
            assert forall|k: int| 0 <= k < teams - 1 implies !board.activity[offset].contains(
                #[trigger] Team::at(k),
            ) by {
                if board.activity[offset].contains(Team::at(k)) {
                    assert(Team::at(k) == last);
                    assert(Team::at(k).spec_index() == k);
                    assert(last.spec_index() == teams - 1);
                }
            }
            lemma_no_holder_below(board, offset, (teams - 1) as nat);
        } else {
            lemma_one_holder(board, offset, (teams - 1) as nat);
        }
    }
}

/// One more cell adds to the marks of the teams what it has of holders.
proof fn lemma_marks_by_cell(board: BoardView, teams: nat, cells: nat)
    requires
        cells > 0,
    ensures
        board.marks_below(teams, cells) == board.marks_below(teams, (cells - 1) as nat)
            + board.holders_below(cells - 1, teams),
    decreases teams,
{
    if teams > 0 {
        lemma_marks_by_cell(board, (teams - 1) as nat, cells);
    }
}

/// On a board where no cell is marked by two teams, the teams together
/// mark at most as many of the first `cells` cells as there are.
proof fn lemma_marks_bound(board: BoardView, teams: nat, cells: nat)
    requires
        board.exclusive(),
        teams <= TEAM_COUNT,
        cells <= board.activity.len(),
    ensures
        board.marks_below(teams, cells) <= cells,
    decreases cells,
{
    if cells == 0 {
        lemma_no_marks(board, teams);
    } else {
        lemma_marks_bound(board, teams, (cells - 1) as nat);
        lemma_marks_by_cell(board, teams, cells);
        lemma_one_holder(board, cells - 1, teams);
    }
}

/// Among no cells there are no marks.
proof fn lemma_no_marks(board: BoardView, teams: nat)
    ensures
        board.marks_below(teams, 0) == 0,
    decreases teams,
{
    if teams > 0 {
        lemma_no_marks(board, (teams - 1) as nat);
    }
}

/// The sum of the teams' cell counts, counted team by team.
proof fn lemma_occupied_is_marks(board: BoardView, teams: nat)
    ensures
        board.occupied_below(teams) == board.marks_below(teams, board.activity.len()),
    decreases teams,
{
    if teams > 0 {
        lemma_occupied_is_marks(board, (teams - 1) as nat);
    }
}

/// On a well-formed board where no cell is marked by two teams, the teams
/// together hold at most as many cells as there are: the number of free
/// cells is not negative.
pub proof fn lemma_free_is_not_negative(board: BoardView)
    requires
        board.wf(),
        board.exclusive(),
    ensures
        board.occupied() <= board.cells(),
        board.free() >= 0,
{
    lemma_occupied_is_marks(board, TEAM_COUNT as nat);
    lemma_marks_bound(board, TEAM_COUNT as nat, board.activity.len());
}

/// On a well-formed board that respects the lockout rule, at most one team
/// dominates: under domination the winner is the only team that satisfies
/// the rule.
pub proof fn lemma_one_team_dominates(board: BoardView, a: Team, b: Team)
    requires
        board.wf(),
        board.lockout_respected(),
        board.mode.game_mode == GameMode::Lockout,
        board.dominates(a),
        board.dominates(b),
    ensures
        a == b,
{
    lemma_free_is_not_negative(board);
    lemma_dominating_team_is_unique(board, a, b);
}

} // verus!
