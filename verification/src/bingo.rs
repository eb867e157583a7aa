//! The board: game configuration, prompt grid and per-cell team activity.
//!
//! A board has `x_size * y_size` cells. The cell at column `x` and row `y`
//! lives at offset `x * y_size + y` of both the prompt list and the activity
//! list. Contracts speak about a board through its view, [`BoardView`].

use crate::prompts::push_char;
use crate::teams::{Team, TeamSet};
use vstd::prelude::*;

verus! {

/// Bingo game mode.
#[derive(Clone, Copy, Debug, PartialEq, Eq, Structural)]
pub enum GameMode {
    /// A cell accepts marks from at most one team at a time.
    Lockout,
    /// Every team can mark every cell.
    FFA,
}

/// The rule that decides which team has won.
#[derive(Clone, Copy, Debug, PartialEq, Eq, Structural)]
pub enum WinCondition {
    /// Complete `rows` straight runs of `length` cells.
    InRow { length: u8, rows: u8 },
    /// Hold so many cells that no other team can catch up.
    Domination,
    /// Hold at least this many cells.
    FirstTo(u8),
}

/// The decimal digit for `d`.
pub open spec fn digit(d: nat) -> char {
    if d == 0 {
        '0'
    } else if d == 1 {
        '1'
    } else if d == 2 {
        '2'
    } else if d == 3 {
        '3'
    } else if d == 4 {
        '4'
    } else if d == 5 {
        '5'
    } else if d == 6 {
        '6'
    } else if d == 7 {
        '7'
    } else if d == 8 {
        '8'
    } else {
        '9'
    }
}

/// The number in decimal digits, without leading zeros.
pub open spec fn decimal(n: nat) -> Seq<char>
    decreases n,
{
    if n < 10 {
        seq![digit(n)]
    } else {
        decimal(n / 10).push(digit(n % 10))
    }
}

/// The decimal digit for `d`.
fn digit_char(d: u8) -> (c: char)
    requires
        d < 10,
    ensures
        c == digit(d as nat),
{
    match d {
        0 => '0',
        1 => '1',
        2 => '2',
        3 => '3',
        4 => '4',
        5 => '5',
        6 => '6',
        7 => '7',
        8 => '8',
        _ => '9',
    }
}

/// The number in decimal digits, without leading zeros.
pub fn decimal_string(n: u8) -> (text: String)
    ensures
        text@ == decimal(n as nat),
{
    let mut text = String::new();
    if n >= 100 {
        push_char(&mut text, digit_char(n / 100));
    }
    if n >= 10 {
        push_char(&mut text, digit_char((n / 10) % 10));
    }
    push_char(&mut text, digit_char(n % 10));
    proof {
        reveal_with_fuel(decimal, 3);
        assert(text@ =~= decimal(n as nat));
    }
    text
}

impl GameMode {
    /// The name of the game mode as it is shown to players.
    pub open spec fn spec_label(self) -> Seq<char> {
        match self {
            GameMode::Lockout => "Lockout"@,
            GameMode::FFA => "FFA"@,
        }
    }

    /// The name of the game mode as it is shown to players.
    pub fn label(&self) -> (text: String)
        ensures
            text@ == self.spec_label(),
    {
        match self {
            GameMode::Lockout => String::from_str("Lockout"),
            GameMode::FFA => String::from_str("FFA"),
        }
    }
}

impl WinCondition {
    /// The win condition in words, as it is shown to players: "`rows` rows
    /// of `length`", "Domination" or "First to `n`", with the numbers in
    /// decimal digits.
    pub open spec fn spec_label(self) -> Seq<char> {
        match self {
            WinCondition::InRow { length, rows } => decimal(rows as nat) + " rows of "@ + decimal(
                length as nat,
            ),
            WinCondition::Domination => "Domination"@,
            WinCondition::FirstTo(n) => "First to "@ + decimal(n as nat),
        }
    }

    /// The win condition in words, as it is shown to players.
    pub fn label(&self) -> (text: String)
        ensures
            text@ == self.spec_label(),
    {
        match self {
            WinCondition::InRow { length, rows } => {
                let mut text = decimal_string(*rows);
                text.append(" rows of ");
                let number = decimal_string(*length);
                text.append(number.as_str());
                text
            },
            WinCondition::Domination => String::from_str("Domination"),
            WinCondition::FirstTo(n) => {
                let mut text = String::from_str("First to ");
                let number = decimal_string(*n);
                text.append(number.as_str());
                text
            },
        }
    }
}

/// Game mode together with the win condition.
#[derive(Clone, Copy, Debug, PartialEq, Eq, Structural)]
pub struct BoardMode {
    pub game_mode: GameMode,
    pub win_condition: WinCondition,
}

impl BoardMode {
    /// The mode a fresh board starts with: free for all, one run of five.
    pub open spec fn spec_default() -> BoardMode {
        BoardMode {
            game_mode: GameMode::FFA,
            win_condition: WinCondition::InRow { length: 5, rows: 1 },
        }
    }
}

impl Default for BoardMode {
    fn default() -> (mode: BoardMode)
        ensures
            mode == BoardMode::spec_default(),
    {
        BoardMode {
            game_mode: GameMode::FFA,
            win_condition: WinCondition::InRow { length: 5, rows: 1 },
        }
    }
}

/// What a [`BoardPrompts`] value stands for: the grid size and the text of
/// every prompt.
pub struct PromptsView {
    pub x_size: u8,
    pub y_size: u8,
    pub prompts: Seq<Seq<char>>,
}

impl PromptsView {
    /// Number of cells of a grid of this size.
    pub open spec fn cells(self) -> nat {
        (self.x_size * self.y_size) as nat
    }

    /// There is exactly one prompt per cell.
    pub open spec fn wf(self) -> bool {
        self.prompts.len() == self.cells()
    }

    /// Offset of the cell at column `x`, row `y`.
    pub open spec fn offset(self, x: int, y: int) -> int {
        x * self.y_size + y
    }

    /// The grid a fresh board starts with: five by five, all prompts blank.
    pub open spec fn spec_default() -> PromptsView {
        PromptsView { x_size: 5, y_size: 5, prompts: Seq::new(25, |i: int| Seq::<char>::empty()) }
    }
}

/// Size and prompts of the board.
#[derive(Debug, PartialEq, Eq)]
pub struct BoardPrompts {
    pub x_size: u8,
    pub y_size: u8,
    pub prompts: Vec<String>,
}

impl View for BoardPrompts {
    type V = PromptsView;

    open spec fn view(&self) -> PromptsView {
        PromptsView {
            x_size: self.x_size,
            y_size: self.y_size,
            prompts: self.prompts@.map_values(|s: String| s@),
        }
    }
}

/// Every cell of the grid has an offset below the number of cells.
pub proof fn lemma_offset_in_range(x: int, y: int, x_size: int, y_size: int)
    requires
        0 <= x < x_size,
        0 <= y < y_size,
    ensures
        0 <= x * y_size + y < x_size * y_size,
{
    assert(x * y_size + y < x_size * y_size) by (nonlinear_arith)
        requires
            0 <= x < x_size,
            0 <= y < y_size,
    ;
    assert(0 <= x * y_size) by (nonlinear_arith)
        requires
            0 <= x,
            0 <= y_size,
    ;
}

/// Distinct cells of the grid have distinct offsets.
pub proof fn lemma_offset_is_injective(x1: int, y1: int, x2: int, y2: int, y_size: int)
    requires
        0 <= y1 < y_size,
        0 <= y2 < y_size,
        x1 * y_size + y1 == x2 * y_size + y2,
    ensures
        x1 == x2,
        y1 == y2,
{
    assert(x1 == x2) by (nonlinear_arith)
        requires
            0 <= y1 < y_size,
            0 <= y2 < y_size,
            x1 * y_size + y1 == x2 * y_size + y2,
    ;
}

/// The product of two grid sizes fits every machine word.
pub proof fn lemma_cells_bound(x_size: u8, y_size: u8)
    ensures
        0 <= x_size * y_size <= 65025,
{
    assert(0 <= x_size * y_size <= 65025) by (nonlinear_arith)
        requires
            0 <= x_size <= 255,
            0 <= y_size <= 255,
    ;
}

impl BoardPrompts {
    /// There is exactly one prompt per cell.
    pub open spec fn wf(&self) -> bool {
        self@.wf()
    }

    /// Whether there is exactly one prompt per cell.
    pub fn is_well_formed(&self) -> (ok: bool)
        ensures
            ok == self.wf(),
    {
        proof {
            lemma_cells_bound(self.x_size, self.y_size);
        }
        self.prompts.len() == self.x_size as usize * self.y_size as usize
    }

    /// Offset of the cell at column `x`, row `y` in the prompt list.
    pub fn offset(&self, x: u8, y: u8) -> (offset: usize)
        ensures
            offset == self@.offset(x as int, y as int),
    {
        proof {
            lemma_cells_bound(x, self.y_size);
        }
        x as usize * self.y_size as usize + y as usize
    }

    /// The prompt of the cell at column `x`, row `y`.
    pub fn prompt(&self, x: u8, y: u8) -> (prompt: &String)
        requires
            self@.offset(x as int, y as int) < self@.prompts.len(),
        ensures
            prompt@ == self@.prompts[self@.offset(x as int, y as int)],
    {
        let offset = self.offset(x, y);
        &self.prompts[offset]
    }

    /// The prompts of `board`.
    pub fn from_board(board: &Board) -> (prompts: BoardPrompts)
        ensures
            prompts@ == board@.prompts,
    {
        board.config.prompts.clone()
    }

    /// Whether these are the size and prompts of `board`.
    pub fn same_as_board(&self, board: &Board) -> (same: bool)
        ensures
            same == (self@ == board@.prompts),
    {
        self.same_as(&board.config.prompts)
    }

    /// Whether both values have the same size and the same prompts.
    pub fn same_as(&self, other: &BoardPrompts) -> (same: bool)
        ensures
            same == (self@ == other@),
    {
        if self.x_size != other.x_size || self.y_size != other.y_size
            || self.prompts.len() != other.prompts.len() {
            proof {
                if self@.prompts == other@.prompts {
                    assert(self@.prompts.len() == other@.prompts.len());
                }
            }
            return false;
        }
        let mut i: usize = 0;
        while i < self.prompts.len()
            invariant
                i <= self.prompts.len(),
                self.prompts.len() == other.prompts.len(),
                forall|j: int| 0 <= j < i ==> self@.prompts[j] == other@.prompts[j],
            decreases self.prompts.len() - i,
        {
            if self.prompts[i] != other.prompts[i] {
                assert(self@.prompts[i as int] != other@.prompts[i as int]);
                return false;
            }
            i += 1;
        }
        assert(self@.prompts =~= other@.prompts);
        true
    }
}

impl Clone for BoardPrompts {
    fn clone(&self) -> (copy: BoardPrompts)
        ensures
            copy@ == self@,
    {
        let mut prompts: Vec<String> = Vec::new();
        let mut i: usize = 0;
        while i < self.prompts.len()
            invariant
                i <= self.prompts.len(),
                prompts.len() == i,
                forall|j: int| 0 <= j < i ==> prompts@[j]@ == self.prompts@[j]@,
            decreases self.prompts.len() - i,
        {
            prompts.push(self.prompts[i].clone());
            i += 1;
        }
        let copy = BoardPrompts { x_size: self.x_size, y_size: self.y_size, prompts };
        assert(copy@.prompts =~= self@.prompts);
        copy
    }
}

impl Default for BoardPrompts {
    fn default() -> (prompts: BoardPrompts)
        ensures
            prompts@ == PromptsView::spec_default(),
            prompts.wf(),
    {
        let mut list: Vec<String> = Vec::new();
        let mut i: usize = 0;
        while i < 25
            invariant
                i <= 25,
                list.len() == i,
                forall|j: int| 0 <= j < i ==> list@[j]@ == Seq::<char>::empty(),
            decreases 25 - i,
        {
            list.push(String::new());
            i += 1;
        }
        let prompts = BoardPrompts { x_size: 5, y_size: 5, prompts: list };
        assert(prompts@.prompts =~= PromptsView::spec_default().prompts);
        prompts
    }
}

/// The activity grid of `cells` cells in which no team marks any cell.
pub open spec fn no_activity(cells: nat) -> Seq<Set<Team>> {
    Seq::new(cells, |i: int| Set::<Team>::empty())
}

/// Activity of all teams on the board: for every cell, the teams marking it.
#[derive(Debug, PartialEq, Eq)]
pub struct BoardActivity {
    pub activity: Vec<TeamSet>,
}

impl View for BoardActivity {
    type V = Seq<Set<Team>>;

    open spec fn view(&self) -> Seq<Set<Team>> {
        self.activity@.map_values(|cell: TeamSet| cell@)
    }
}

impl BoardActivity {
    /// The grid of `size` cells with no activity.
    pub fn empty(size: usize) -> (activity: BoardActivity)
        ensures
            activity@ == no_activity(size as nat),
    {
        let mut cells: Vec<TeamSet> = Vec::new();
        let mut i: usize = 0;
        while i < size
            invariant
                i <= size,
                cells.len() == i,
                forall|j: int| 0 <= j < i ==> cells@[j]@ == Set::<Team>::empty(),
            decreases size - i,
        {
            cells.push(TeamSet::new());
            i += 1;
        }
        let activity = BoardActivity { activity: cells };
        assert(activity@ =~= no_activity(size as nat));
        activity
    }
}

impl Clone for BoardActivity {
    fn clone(&self) -> (copy: BoardActivity)
        ensures
            copy@ == self@,
    {
        let mut cells: Vec<TeamSet> = Vec::new();
        let mut i: usize = 0;
        while i < self.activity.len()
            invariant
                i <= self.activity.len(),
                cells.len() == i,
                forall|j: int| 0 <= j < i ==> cells@[j] == self.activity@[j],
            decreases self.activity.len() - i,
        {
            cells.push(self.activity[i]);
            i += 1;
        }
        let copy = BoardActivity { activity: cells };
        assert(copy@ =~= self@);
        copy
    }
}

/// The configuration of a game: what stays fixed while it is played.
#[derive(Debug, PartialEq, Eq)]
pub struct BoardConfig {
    pub mode: BoardMode,
    pub prompts: BoardPrompts,
}

impl Clone for BoardConfig {
    fn clone(&self) -> (copy: BoardConfig)
        ensures
            copy.mode == self.mode,
            copy.prompts@ == self.prompts@,
    {
        BoardConfig { mode: self.mode, prompts: self.prompts.clone() }
    }
}

impl Default for BoardConfig {
    fn default() -> (config: BoardConfig)
        ensures
            config.mode == BoardMode::spec_default(),
            config.prompts@ == PromptsView::spec_default(),
    {
        BoardConfig { mode: BoardMode::default(), prompts: BoardPrompts::default() }
    }
}

/// What a [`Board`] stands for.
pub struct BoardView {
    pub mode: BoardMode,
    pub prompts: PromptsView,
    pub activity: Seq<Set<Team>>,
}

impl BoardView {
    /// Number of cells.
    pub open spec fn cells(self) -> nat {
        self.prompts.cells()
    }

    /// There is one prompt and one activity set per cell.
    pub open spec fn wf(self) -> bool {
        &&& self.prompts.wf()
        &&& self.activity.len() == self.cells()
    }

    /// Whether column `x`, row `y` names a cell of the grid.
    pub open spec fn in_grid(self, x: int, y: int) -> bool {
        0 <= x < self.prompts.x_size && 0 <= y < self.prompts.y_size
    }

    /// Offset of the cell at column `x`, row `y`.
    pub open spec fn offset(self, x: int, y: int) -> int {
        self.prompts.offset(x, y)
    }

    /// Whether `team` marks the cell at column `x`, row `y`.
    pub open spec fn marked(self, team: Team, x: int, y: int) -> bool {
        let offset = self.offset(x, y);
        0 <= offset < self.activity.len() && self.activity[offset].contains(team)
    }

    /// The board a server starts with.
    pub open spec fn spec_default() -> BoardView {
        BoardView {
            mode: BoardMode::spec_default(),
            prompts: PromptsView::spec_default(),
            activity: no_activity(25),
        }
    }

    /// The same configuration with no activity.
    pub open spec fn cleared(self) -> BoardView {
        BoardView { activity: no_activity(self.cells()), ..self }
    }

    /// The board after the mode was replaced: the activity starts over.
    pub open spec fn with_mode(self, mode: BoardMode) -> BoardView {
        BoardView { mode, activity: no_activity(self.cells()), ..self }
    }

    /// The board after the prompts were replaced: the activity starts over
    /// on a grid of the new size.
    pub open spec fn with_prompts(self, prompts: PromptsView) -> BoardView {
        BoardView { prompts, activity: no_activity(prompts.cells()), ..self }
    }
}

/// Game configuration and the activity on the board.
#[derive(Debug)]
pub struct Board {
    pub config: BoardConfig,
    pub activity: BoardActivity,
}

impl View for Board {
    type V = BoardView;

    open spec fn view(&self) -> BoardView {
        BoardView {
            mode: self.config.mode,
            prompts: self.config.prompts@,
            activity: self.activity@,
        }
    }
}

impl Clone for Board {
    fn clone(&self) -> (copy: Board)
        ensures
            copy@ == self@,
    {
        Board { config: self.config.clone(), activity: self.activity.clone() }
    }
}

impl Default for Board {
    fn default() -> (board: Board)
        ensures
            board@ == BoardView::spec_default(),
            board.wf(),
    {
        let config = BoardConfig::default();
        let activity = BoardActivity::empty(25);
        Board { config, activity }
    }
}

impl Board {
    /// There is one prompt and one activity set per cell.
    pub open spec fn wf(&self) -> bool {
        self@.wf()
    }

    /// Whether there is one prompt and one activity set per cell.
    pub fn is_well_formed(&self) -> (ok: bool)
        ensures
            ok == self.wf(),
    {
        proof {
            lemma_cells_bound(self.config.prompts.x_size, self.config.prompts.y_size);
        }
        self.config.prompts.is_well_formed() && self.activity.activity.len()
            == self.config.prompts.x_size as usize * self.config.prompts.y_size as usize
    }

    /// Number of cells of the grid.
    pub fn cells(&self) -> (cells: usize)
        ensures
            cells == self@.cells(),
    {
        proof {
            lemma_cells_bound(self.config.prompts.x_size, self.config.prompts.y_size);
        }
        self.config.prompts.x_size as usize * self.config.prompts.y_size as usize
    }

    /// Removes all activity; the configuration stays.
    pub fn reset_activity(&mut self)
        ensures
            final(self)@ == old(self)@.cleared(),
            old(self).config.prompts.wf() ==> final(self).wf(),
    {
        let cells = self.cells();
        self.activity = BoardActivity::empty(cells);
    }

    /// Replaces the mode and removes all activity.
    pub fn set_mode(&mut self, mode: BoardMode)
        ensures
            final(self)@ == old(self)@.with_mode(mode),
            old(self).config.prompts.wf() ==> final(self).wf(),
    {
        self.config.mode = mode;
        self.reset_activity();
    }

    /// Replaces size and prompts, and starts over with no activity on a
    /// grid of the new size.
    pub fn set_prompts(&mut self, prompts: BoardPrompts)
        ensures
            final(self)@ == old(self)@.with_prompts(prompts@),
            prompts.wf() ==> final(self).wf(),
    {
        self.config.prompts = prompts;
        self.reset_activity();
    }

    /// Offset of the cell at column `x`, row `y`.
    pub fn offset(&self, x: u8, y: u8) -> (offset: usize)
        ensures
            offset == self@.offset(x as int, y as int),
    {
        self.config.prompts.offset(x, y)
    }

    /// The prompt of the cell at column `x`, row `y`.
    pub fn prompt(&self, x: u8, y: u8) -> (prompt: &String)
        requires
            self@.offset(x as int, y as int) < self@.prompts.prompts.len(),
        ensures
            prompt@ == self@.prompts.prompts[self@.offset(x as int, y as int)],
    {
        self.config.prompts.prompt(x, y)
    }

    /// The teams that mark the cell at column `x`, row `y`.
    pub fn activity(&self, x: u8, y: u8) -> (teams: &TeamSet)
        requires
            self@.offset(x as int, y as int) < self@.activity.len(),
        ensures
            teams@ == self@.activity[self@.offset(x as int, y as int)],
    {
        let offset = self.offset(x, y);
        &self.activity.activity[offset]
    }

    /// Whether `team` marks the cell at column `x`, row `y`.
    pub fn is_active(&self, x: u8, y: u8, team: &Team) -> (active: bool)
        requires
            self@.offset(x as int, y as int) < self@.activity.len(),
        ensures
            active == self@.marked(*team, x as int, y as int),
    {
        let offset = self.offset(x, y);
        self.activity.activity[offset].contains(team)
    }
}

impl BoardView {
    /// Whether column `x`, row `y` names a cell of the grid that has an
    /// activity set.
    pub open spec fn has_cell(self, x: int, y: int) -> bool {
        self.in_grid(x, y) && self.offset(x, y) < self.activity.len()
    }

    /// Whether a team may newly mark the cell at column `x`, row `y`: the
    /// game is not yet won and, in lockout mode, nobody holds the cell.
    pub open spec fn can_claim(self, x: int, y: int) -> bool {
        &&& self.has_cell(x, y)
        &&& self.winner() is None
        &&& (self.mode.game_mode != GameMode::Lockout || self.activity[self.offset(x, y)]
            =~= Set::<Team>::empty())
    }

    /// The board in which the activity set of the cell at `offset` is
    /// `teams`.
    pub open spec fn with_cell(self, offset: int, teams: Set<Team>) -> BoardView {
        BoardView { activity: self.activity.update(offset, teams), ..self }
    }

    /// The board after `team` asked to mark (`want_active`) or unmark the
    /// cell at column `x`, row `y`. Unmarking is always carried out; marking
    /// only where [`Self::can_claim`] allows it. A request that is not
    /// carried out leaves the board as it is.
    pub open spec fn after_update(self, team: Team, x: int, y: int, want_active: bool)
        -> BoardView {
        let offset = self.offset(x, y);
        if !self.has_cell(x, y) {
            self
        } else if !want_active {
            self.with_cell(offset, self.activity[offset].remove(team))
        } else if self.can_claim(x, y) {
            self.with_cell(offset, self.activity[offset].insert(team))
        } else {
            self
        }
    }

    /// Whether the request counts as a change: a legal claim, or the
    /// removal of a mark that was there.
    pub open spec fn update_changes(self, team: Team, x: int, y: int, want_active: bool) -> bool {
        self.has_cell(x, y) && if want_active {
            self.can_claim(x, y)
        } else {
            self.activity[self.offset(x, y)].contains(team)
        }
    }
}

/// On a well-formed board every cell of the grid has an activity set.
pub proof fn lemma_grid_cells_exist(board: BoardView, x: int, y: int)
    requires
        board.wf(),
        board.in_grid(x, y),
    ensures
        board.has_cell(x, y),
        0 <= board.offset(x, y) < board.cells(),
{
    lemma_offset_in_range(x, y, board.prompts.x_size as int, board.prompts.y_size as int);
}

/// A mark or unmark request keeps the grid and the configuration: the
/// board stays well formed.
pub proof fn lemma_update_keeps_shape(
    board: BoardView,
    team: Team,
    x: int,
    y: int,
    want_active: bool,
)
    ensures
        board.after_update(team, x, y, want_active).mode == board.mode,
        board.after_update(team, x, y, want_active).prompts == board.prompts,
        board.after_update(team, x, y, want_active).activity.len() == board.activity.len(),
        board.wf() ==> board.after_update(team, x, y, want_active).wf(),
{
}

/// A request that does not count as a change leaves the board as it is.
pub proof fn lemma_no_change_no_difference(
    board: BoardView,
    team: Team,
    x: int,
    y: int,
    want_active: bool,
)
    requires
        !board.update_changes(team, x, y, want_active),
    ensures
        board.after_update(team, x, y, want_active) == board,
{
    if board.has_cell(x, y) && !want_active {
        let offset = board.offset(x, y);
        assert(board.activity[offset].remove(team) =~= board.activity[offset]);
        assert(board.activity.update(offset, board.activity[offset]) =~= board.activity);
    }
}

/// Once a team has won, no claim is accepted: the request changes nothing
/// and is reported as no change.
pub proof fn lemma_no_claim_after_win(board: BoardView, team: Team, x: int, y: int)
    requires
        board.winner() is Some,
    ensures
        board.after_update(team, x, y, true) == board,
        !board.update_changes(team, x, y, true),
{
}

/// In lockout mode a claim on a cell that some team holds is not accepted.
pub proof fn lemma_no_claim_on_held_cell(board: BoardView, team: Team, holder: Team, x: int, y: int)
    requires
        board.mode.game_mode == GameMode::Lockout,
        board.marked(holder, x, y),
    ensures
        board.after_update(team, x, y, true) == board,
        !board.update_changes(team, x, y, true),
{
}

impl Board {
    /// Marks (`want_active`) or unmarks the cell at column `x`, row `y` for
    /// `team` and returns whether that counts as a change.
    ///
    /// Unmarking is always legal and changes something if the mark was
    /// there. Marking is legal only while no team has won and, in lockout
    /// mode, only on a cell that no team holds; a legal claim counts as a
    /// change. An illegal request, or one for a cell outside the grid, is
    /// dropped: the board stays as it is and the result is `false`.
    pub fn update_activity(&mut self, team: Team, x: u8, y: u8, want_active: bool) -> (changed:
        bool)
        ensures
            final(self)@ == old(self)@.after_update(team, x as int, y as int, want_active),
            changed == old(self)@.update_changes(team, x as int, y as int, want_active),
            old(self).wf() ==> final(self).wf(),
    {
        if x >= self.config.prompts.x_size || y >= self.config.prompts.y_size {
            return false;
        }
        let offset = self.offset(x, y);
        if offset >= self.activity.activity.len() {
            return false;
        }
        let mut cell = self.activity.activity[offset];
        if want_active {
            let won = self.check_win();
            let lockout = self.config.mode.game_mode == GameMode::Lockout;
            if won.is_some() || (lockout && !cell.is_empty()) {
                return false;
            }
            cell.insert(team);
            self.activity.activity.set(offset, cell);
            assert(self@.activity =~= old(self)@.activity.update(
                offset as int,
                old(self)@.activity[offset as int].insert(team),
            ));
            true
        } else {
            let removed = cell.remove(&team);
            self.activity.activity.set(offset, cell);
            assert(self@.activity =~= old(self)@.activity.update(
                offset as int,
                old(self)@.activity[offset as int].remove(team),
            ));
            removed
        }
    }

    /// Mutable access to the teams that mark the cell at column `x`, row `y`.
    pub fn activity_mut(&mut self, x: u8, y: u8) -> (teams: &mut TeamSet)
        requires
            old(self)@.offset(x as int, y as int) < old(self)@.activity.len(),
        ensures
            teams@ == old(self)@.activity[old(self)@.offset(x as int, y as int)],
            final(self)@.mode == old(self)@.mode,
            final(self)@.prompts == old(self)@.prompts,
            final(self)@.activity =~= old(self)@.activity.update(
                old(self)@.offset(x as int, y as int),
                final(teams)@,
            ),
    {
        let offset = self.offset(x, y);
        &mut self.activity.activity[offset]
    }

    /// Mutable access to the prompt of the cell at column `x`, row `y`.
    pub fn prompt_mut(&mut self, x: u8, y: u8) -> (prompt: &mut String)
        requires
            old(self)@.offset(x as int, y as int) < old(self)@.prompts.prompts.len(),
        ensures
            prompt@ == old(self)@.prompts.prompts[old(self)@.offset(x as int, y as int)],
            final(self)@.mode == old(self)@.mode,
            final(self)@.activity == old(self)@.activity,
            final(self)@.prompts.x_size == old(self)@.prompts.x_size,
            final(self)@.prompts.y_size == old(self)@.prompts.y_size,
            final(self)@.prompts.prompts =~= old(self)@.prompts.prompts.update(
                old(self)@.offset(x as int, y as int),
                final(prompt)@,
            ),
    {
        let offset = self.offset(x, y);
        &mut self.config.prompts.prompts[offset]
    }
}

} // verus!
