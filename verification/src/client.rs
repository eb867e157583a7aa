//! What a client keeps of the game and how it follows the server.
//!
//! A client mirrors the server's board and list of sessions from the
//! messages it receives. Beside the mirrored board the host keeps a draft
//! of the mode and of the prompts that it may send to the server.

use crate::bingo::{
    Board, BoardMode, BoardPrompts, BoardView, GameMode, PromptsView, WinCondition,
};
use crate::protocol::{ClientMessage, ClientMessageView, ServerMessage, ServerMessageView};
use crate::registry::{sessions_view, ClientId, ClientProps, Sessions};
use crate::teams::Team;
use std::collections::HashMap;
use vstd::prelude::*;
use vstd::std_specs::iter::IteratorSpec;
use vstd::string::spec_iter;

verus! {

broadcast use {vstd::std_specs::hash::group_hash_axioms, vstd::string::group_string_axioms};

/// Whether `char::is_alphanumeric` holds of `c`: whether the character is
/// a letter or a number by its Unicode properties.
pub uninterp spec fn is_alphanumeric(c: char) -> bool;

/// `char::is_alphanumeric` of the standard library. The contract names the
/// result; nothing is claimed about which characters are alphanumeric.
#[verifier::external_body]
fn char_is_alphanumeric(c: char) -> (alphanumeric: bool)
    ensures
        alphanumeric == is_alphanumeric(c),
{
    c.is_alphanumeric()
}

/// A name is fit for joining if its length in bytes is between 4 and 32
/// and it holds letters and numbers only.
pub open spec fn valid_username(username: &str) -> bool {
    &&& 4 <= username.len() <= 32
    &&& forall|i: int| 0 <= i < username@.len() ==> is_alphanumeric(#[trigger] username@[i])
}

/// Whether a name is fit for joining, see [`valid_username`].
pub fn validate_username(username: &str) -> (valid: bool)
    ensures
        valid == valid_username(username),
{
    if username.len() < 4 || username.len() > 32 {
        return false;
    }
    let mut valid = true;
    for c in it: username.chars()
        invariant
            it.seq() == spec_iter(username).remaining(),
            4 <= username.len() <= 32,
            valid == forall|i: int| 0 <= i < it.index() ==> is_alphanumeric(#[trigger] it.seq()[i]),
    {
        if !char_is_alphanumeric(c) {
            valid = false;
        }
    }
    valid
}

/// A win condition without its numbers: what the host picks first.
#[derive(Clone, Copy, Debug, PartialEq, Eq, Structural)]
pub enum FlatWinCondition {
    InRow,
    Domination,
    FirstTo,
}

impl FlatWinCondition {
    /// The kind of a win condition.
    pub open spec fn spec_flatten(value: WinCondition) -> FlatWinCondition {
        match value {
            WinCondition::InRow { length: _, rows: _ } => FlatWinCondition::InRow,
            WinCondition::Domination => FlatWinCondition::Domination,
            WinCondition::FirstTo(_) => FlatWinCondition::FirstTo,
        }
    }

    /// The win condition of a kind with the numbers a host starts from: one
    /// run of five, or first to thirteen.
    pub open spec fn spec_unflatten(self) -> WinCondition {
        match self {
            FlatWinCondition::InRow => WinCondition::InRow { length: 5, rows: 1 },
            FlatWinCondition::Domination => WinCondition::Domination,
            FlatWinCondition::FirstTo => WinCondition::FirstTo(13),
        }
    }

    /// The kind of a win condition.
    pub fn flatten(value: WinCondition) -> (kind: FlatWinCondition)
        ensures
            kind == FlatWinCondition::spec_flatten(value),
    {
        match value {
            WinCondition::InRow { length: _, rows: _ } => FlatWinCondition::InRow,
            WinCondition::Domination => FlatWinCondition::Domination,
            WinCondition::FirstTo(_) => FlatWinCondition::FirstTo,
        }
    }

    /// The win condition of this kind with its starting numbers.
    pub fn unflatten(self) -> (value: WinCondition)
        ensures
            value == self.spec_unflatten(),
    {
        match self {
            FlatWinCondition::InRow => WinCondition::InRow { length: 5, rows: 1 },
            FlatWinCondition::Domination => WinCondition::Domination,
            FlatWinCondition::FirstTo => WinCondition::FirstTo(13),
        }
    }
}

/// Every kind is the kind of the win condition made from it.
pub proof fn lemma_flatten_unflatten(kind: FlatWinCondition)
    ensures
        FlatWinCondition::spec_flatten(kind.spec_unflatten()) == kind,
{
}

/// The mirrored board.
#[derive(Debug)]
pub struct BoardRes {
    pub board: Board,
    pub changed: bool,
}

impl Clone for BoardRes {
    fn clone(&self) -> (copy: BoardRes)
        ensures
            copy.board@ == self.board@,
            copy.changed == self.changed,
    {
        BoardRes { board: self.board.clone(), changed: self.changed }
    }
}

impl Default for BoardRes {
    fn default() -> (res: BoardRes)
        ensures
            res.board@ == BoardView::spec_default(),
            !res.changed,
    {
        BoardRes { board: Board::default(), changed: false }
    }
}

/// The host's draft of the mode.
#[derive(Debug, Clone, Copy, PartialEq, Eq, Structural)]
pub struct ConfMode {
    pub mode: BoardMode,
    /// Whether the draft was edited since it was last taken from the server.
    pub changed: bool,
}

impl Default for ConfMode {
    fn default() -> (conf: ConfMode)
        ensures
            conf.mode == BoardMode::spec_default(),
            !conf.changed,
    {
        ConfMode { mode: BoardMode::default(), changed: false }
    }
}

impl ConfMode {
    /// The mode that results from picking `game_mode`: domination needs
    /// lockout, so outside of lockout it gives way to one run of five.
    pub open spec fn with_game_mode(mode: BoardMode, game_mode: GameMode) -> BoardMode {
        BoardMode {
            game_mode,
            win_condition: if game_mode != GameMode::Lockout && mode.win_condition
                == WinCondition::Domination {
                FlatWinCondition::InRow.spec_unflatten()
            } else {
                mode.win_condition
            },
        }
    }

    /// Whether the kind of win condition can be picked under `game_mode`:
    /// domination is offered in lockout only.
    pub open spec fn spec_offers(game_mode: GameMode, kind: FlatWinCondition) -> bool {
        kind == FlatWinCondition::Domination ==> game_mode == GameMode::Lockout
    }

    /// Whether the kind of win condition can be picked under `game_mode`.
    pub fn offers(game_mode: GameMode, kind: FlatWinCondition) -> (offered: bool)
        ensures
            offered == ConfMode::spec_offers(game_mode, kind),
    {
        kind != FlatWinCondition::Domination || game_mode == GameMode::Lockout
    }

    /// Picks the game mode and marks the draft as edited.
    pub fn pick_game_mode(&mut self, game_mode: GameMode)
        ensures
            final(self).mode == ConfMode::with_game_mode(old(self).mode, game_mode),
            final(self).changed,
    {
        self.mode.game_mode = game_mode;
        if game_mode != GameMode::Lockout && self.mode.win_condition == WinCondition::Domination {
            self.mode.win_condition = FlatWinCondition::InRow.unflatten();
        }
        self.changed = true;
    }

    /// Picks the kind of win condition, with its starting numbers, and marks
    /// the draft as edited. A kind that is not offered under the draft's
    /// game mode is not taken.
    pub fn pick_win_condition(&mut self, kind: FlatWinCondition) -> (taken: bool)
        ensures
            taken == ConfMode::spec_offers(old(self).mode.game_mode, kind),
            taken ==> final(self).mode == (BoardMode {
                win_condition: kind.spec_unflatten(),
                ..old(self).mode
            }) && final(self).changed,
            !taken ==> *final(self) == *old(self),
    {
        if !ConfMode::offers(self.mode.game_mode, kind) {
            return false;
        }
        self.mode.win_condition = kind.unflatten();
        self.changed = true;
        true
    }
}

/// Picking a game mode never leaves domination outside of lockout.
pub proof fn lemma_domination_needs_lockout(mode: BoardMode, game_mode: GameMode)
    ensures
        ConfMode::with_game_mode(mode, game_mode).win_condition == WinCondition::Domination
            ==> game_mode == GameMode::Lockout,
        ConfMode::with_game_mode(mode, game_mode).game_mode == game_mode,
        mode.win_condition != WinCondition::Domination ==> ConfMode::with_game_mode(
            mode,
            game_mode,
        ).win_condition == mode.win_condition,
{
}

/// The host's draft of the prompts.
#[derive(Debug, PartialEq, Eq)]
pub struct ConfPrompts {
    pub prompts: BoardPrompts,
    /// Whether the draft was edited since it was last taken from the server.
    pub changed: bool,
}

impl Clone for ConfPrompts {
    fn clone(&self) -> (copy: ConfPrompts)
        ensures
            copy.prompts@ == self.prompts@,
            copy.changed == self.changed,
    {
        ConfPrompts { prompts: self.prompts.clone(), changed: self.changed }
    }
}

impl Default for ConfPrompts {
    fn default() -> (conf: ConfPrompts)
        ensures
            conf.prompts@ == PromptsView::spec_default(),
            !conf.changed,
    {
        ConfPrompts { prompts: BoardPrompts::default(), changed: false }
    }
}

/// Who is connected, and which of the sessions this client is.
#[derive(Debug)]
pub struct Clients {
    pub data: HashMap<ClientId, ClientProps>,
    pub self_id: ClientId,
}

impl Clone for Clients {
    fn clone(&self) -> (copy: Clients)
        ensures
            copy.data@ == self.data@,
            copy.self_id == self.self_id,
    {
        Clients { data: self.data.clone(), self_id: self.self_id }
    }
}

impl Default for Clients {
    fn default() -> (clients: Clients)
        ensures
            clients.data@ == Map::<ClientId, ClientProps>::empty(),
            clients.self_id == 0,
    {
        Clients { data: HashMap::new(), self_id: 0 }
    }
}

impl Clients {
    /// The properties of this client's own session, once the list of
    /// sessions holds it.
    pub fn own(&self) -> (props: Option<&ClientProps>)
        ensures
            props is Some == self.data@.contains_key(self.self_id),
            props matches Some(p) ==> *p == self.data@[self.self_id],
    {
        self.data.get(&self.self_id)
    }

    /// The team this client plays for, if it has a session and a team.
    pub fn own_team(&self) -> (team: Option<Team>)
        ensures
            team == if self.data@.contains_key(self.self_id) {
                self.data@[self.self_id].team
            } else {
                None
            },
    {
        match self.data.get(&self.self_id) {
            Some(props) => props.team,
            None => None,
        }
    }

    /// Whether this client is host.
    pub fn is_host(&self) -> (host: bool)
        ensures
            host == (self.data@.contains_key(self.self_id) && self.data@[self.self_id].is_host),
    {
        match self.data.get(&self.self_id) {
            Some(props) => props.is_host,
            None => false,
        }
    }
}

/// What a [`ClientState`] stands for.
pub struct ClientStateView {
    pub sessions: Sessions,
    pub self_id: ClientId,
    pub board: BoardView,
    pub mode_conf: ConfMode,
    pub prompts_conf: PromptsView,
    pub prompts_changed: bool,
}

impl ClientStateView {
    /// The state after `message` from the server was taken in.
    ///
    /// A new mode or new prompts replace the draft as well and clear the
    /// activity; new activity replaces the mirrored activity as it is.
    pub open spec fn after(self, message: ServerMessageView) -> ClientStateView {
        match message {
            ServerMessageView::InitClient(id) => ClientStateView { self_id: id, ..self },
            ServerMessageView::SetClients(sessions) => ClientStateView { sessions, ..self },
            ServerMessageView::SetMode(mode) => ClientStateView {
                board: self.board.with_mode(mode),
                mode_conf: ConfMode { mode, changed: false },
                ..self
            },
            ServerMessageView::SetPrompts(prompts) => ClientStateView {
                board: self.board.with_prompts(prompts),
                prompts_conf: prompts,
                prompts_changed: false,
                ..self
            },
            ServerMessageView::SetActivity(activity) => ClientStateView {
                board: BoardView { activity, ..self.board },
                ..self
            },
        }
    }

    /// The win that `message` makes known: the winner on the board as it is
    /// after new activity arrived.
    pub open spec fn announced(self, message: ServerMessageView) -> Option<Team> {
        match message {
            ServerMessageView::SetActivity(_) => self.after(message).board.winner(),
            _ => None,
        }
    }

    /// The team this client plays for, if it has a session and a team.
    pub open spec fn own_team(self) -> Option<Team> {
        if self.sessions.contains_key(self.self_id) {
            self.sessions[self.self_id].team
        } else {
            None
        }
    }

    /// Whether this client asks for a mark (rather than for its removal)
    /// when it clicks the cell at column `x`, row `y` for `team`.
    pub open spec fn click_marks(self, team: Team, x: int, y: int) -> bool {
        !self.board.marked(team, x, y)
    }

    /// Whether a draft was edited.
    pub open spec fn different(self) -> bool {
        self.mode_conf.changed || self.prompts_changed
    }

    /// Whether some team marks some cell.
    pub open spec fn any_activity(self) -> bool {
        exists|i: int|
            0 <= i < self.board.activity.len() && #[trigger] self.board.activity[i]
                != Set::<Team>::empty()
    }

    /// Whether there is anything to restart: an edited draft to send, or
    /// activity to clear.
    pub open spec fn can_restart(self) -> bool {
        self.different() || self.any_activity()
    }

    /// What a restart sends: the edited drafts, mode first, or else the
    /// request to clear the activity.
    pub open spec fn restart_messages(self) -> Seq<ClientMessageView> {
        if self.different() {
            (if self.mode_conf.changed {
                seq![ClientMessageView::SetMode(self.mode_conf.mode)]
            } else {
                Seq::<ClientMessageView>::empty()
            }) + (if self.prompts_changed {
                seq![ClientMessageView::SetPrompts(self.prompts_conf)]
            } else {
                Seq::<ClientMessageView>::empty()
            })
        } else {
            seq![ClientMessageView::ResetActivity]
        }
    }
}

/// What a list of client messages stands for.
pub open spec fn messages_view(messages: Seq<ClientMessage>) -> Seq<ClientMessageView> {
    messages.map_values(|message: ClientMessage| message@)
}

/// Everything a client keeps of the game.
#[derive(Debug)]
pub struct ClientState {
    pub clients: Clients,
    pub board: BoardRes,
    pub mode_conf: ConfMode,
    pub prompts_conf: ConfPrompts,
}

impl View for ClientState {
    type V = ClientStateView;

    open spec fn view(&self) -> ClientStateView {
        ClientStateView {
            sessions: sessions_view(self.clients.data@),
            self_id: self.clients.self_id,
            board: self.board.board@,
            mode_conf: self.mode_conf,
            prompts_conf: self.prompts_conf.prompts@,
            prompts_changed: self.prompts_conf.changed,
        }
    }
}

impl ClientStateView {
    /// What a client starts with: nobody known, the board a server starts
    /// with, and drafts without edits.
    pub open spec fn spec_default() -> ClientStateView {
        ClientStateView {
            sessions: Map::<ClientId, crate::registry::ClientPropsView>::empty(),
            self_id: 0,
            board: BoardView::spec_default(),
            mode_conf: ConfMode { mode: BoardMode::spec_default(), changed: false },
            prompts_conf: PromptsView::spec_default(),
            prompts_changed: false,
        }
    }
}

impl Default for ClientState {
    fn default() -> (state: ClientState)
        ensures
            state@ == ClientStateView::spec_default(),
            !state.board.changed,
    {
        let state = ClientState {
            clients: Clients::default(),
            board: BoardRes::default(),
            mode_conf: ConfMode::default(),
            prompts_conf: ConfPrompts::default(),
        };
        assert(state@.sessions =~= Map::<ClientId, crate::registry::ClientPropsView>::empty());
        state
    }
}

impl Clone for ClientState {
    fn clone(&self) -> (copy: ClientState)
        ensures
            copy@ == self@,
            copy.board.changed == self.board.changed,
    {
        ClientState {
            clients: self.clients.clone(),
            board: self.board.clone(),
            mode_conf: self.mode_conf,
            prompts_conf: self.prompts_conf.clone(),
        }
    }
}

impl ClientState {
    /// Takes in a message from the server and returns the team whose win
    /// it makes known, if any.
    pub fn handle_message(&mut self, message: ServerMessage) -> (won: Option<Team>)
        ensures
            final(self)@ == old(self)@.after(message@),
            won == old(self)@.announced(message@),
            final(self).board.changed == old(self).board.changed,
    {
        match message {
            ServerMessage::InitClient(id) => {
                self.clients.self_id = id;
                None
            },
            ServerMessage::SetClients(sessions) => {
                self.clients.data = sessions;
                None
            },
            ServerMessage::SetMode(mode) => {
                self.board.board.set_mode(mode);
                self.mode_conf.mode = mode;
                self.mode_conf.changed = false;
                None
            },
            ServerMessage::SetPrompts(prompts) => {
                self.board.board.set_prompts(prompts.clone());
                self.prompts_conf.prompts = prompts;
                self.prompts_conf.changed = false;
                None
            },
            ServerMessage::SetActivity(activity) => {
                self.board.board.activity = activity;
                self.board.board.check_win()
            },
        }
    }

    /// The click of this client on the cell at column `x`, row `y`.
    ///
    /// A client without a team cannot click. Otherwise the click asks to
    /// remove the own team's mark if it is there, and to set it if not. The
    /// request is applied to the mirrored board by the rules that the server
    /// applies, and it is returned for sending exactly if it changed the
    /// mirrored board's activity or was a legal claim.
    pub fn click(&mut self, x: u8, y: u8) -> (request: Option<ClientMessage>)
        ensures
            final(self)@ == (match old(self)@.own_team() {
                Some(team) => ClientStateView {
                    board: old(self)@.board.after_update(
                        team,
                        x as int,
                        y as int,
                        old(self)@.click_marks(team, x as int, y as int),
                    ),
                    ..old(self)@
                },
                None => old(self)@,
            }),
            match old(self)@.own_team() {
                Some(team) => {
                    let is_active = old(self)@.click_marks(team, x as int, y as int);
                    if old(self)@.board.update_changes(team, x as int, y as int, is_active) {
                        request matches Some(message) && message@
                            == (ClientMessageView::UpdateActivity { team, x, y, is_active })
                    } else {
                        request is None
                    }
                },
                None => request is None,
            },
            final(self).board.changed == old(self).board.changed,
    {
        assert(sessions_view(self.clients.data@).contains_key(self.clients.self_id)
            == self.clients.data@.contains_key(self.clients.self_id));
        let team = match self.clients.own_team() {
            Some(team) => team,
            None => {
                return None;
            },
        };
        let offset = self.board.board.offset(x, y);
        let is_active = !(offset < self.board.board.activity.activity.len()
            && self.board.board.activity.activity[offset].contains(&team));
        if self.board.board.update_activity(team, x, y, is_active) {
            Some(ClientMessage::UpdateActivity { team, x, y, is_active })
        } else {
            None
        }
    }

    /// Whether some team marks some cell of the mirrored board.
    pub fn any_activity(&self) -> (any: bool)
        ensures
            any == self@.any_activity(),
    {
        let mut i: usize = 0;
        while i < self.board.board.activity.activity.len()
            invariant
                i <= self.board.board.activity.activity.len(),
                forall|j: int| 0 <= j < i ==> self@.board.activity[j] == Set::<Team>::empty(),
            decreases self.board.board.activity.activity.len() - i,
        {
            if !self.board.board.activity.activity[i].is_empty() {
                assert(self@.board.activity[i as int] != Set::<Team>::empty());
                return true;
            }
            i += 1;
        }
        false
    }

    /// Whether there is anything to restart, see
    /// [`ClientStateView::can_restart`].
    pub fn can_restart(&self) -> (can: bool)
        ensures
            can == self@.can_restart(),
    {
        self.mode_conf.changed || self.prompts_conf.changed || self.any_activity()
    }

    /// Restarts the game: returns the messages to send, and takes the draft
    /// of the prompts as sent. Where there is nothing to restart, nothing
    /// is sent.
    pub fn restart(&mut self) -> (messages: Vec<ClientMessage>)
        ensures
            messages_view(messages@) == if old(self)@.can_restart() {
                old(self)@.restart_messages()
            } else {
                Seq::<ClientMessageView>::empty()
            },
            final(self)@ == (ClientStateView {
                prompts_changed: old(self)@.prompts_changed && !old(self)@.can_restart(),
                ..old(self)@
            }),
            final(self).board.changed == old(self).board.changed,
    {
        let mut messages: Vec<ClientMessage> = Vec::new();
        if !self.can_restart() {
            assert(messages_view(messages@) =~= Seq::<ClientMessageView>::empty());
            return messages;
        }
        if self.mode_conf.changed || self.prompts_conf.changed {
            if self.mode_conf.changed {
                messages.push(ClientMessage::SetMode(self.mode_conf.mode));
            }
            if self.prompts_conf.changed {
                messages.push(ClientMessage::SetPrompts(self.prompts_conf.prompts.clone()));
                self.prompts_conf.changed = false;
            }
        } else {
            messages.push(ClientMessage::ResetActivity);
        }
        assert(messages_view(messages@) =~= old(self)@.restart_messages());
        messages
    }

    /// Gives up the edits: both drafts are taken from the mirrored board
    /// again.
    pub fn cancel_changes(&mut self)
        ensures
            final(self)@ == (ClientStateView {
                mode_conf: ConfMode { mode: old(self)@.board.mode, changed: false },
                prompts_conf: old(self)@.board.prompts,
                prompts_changed: false,
                ..old(self)@
            }),
            final(self).board.changed == old(self).board.changed,
    {
        self.mode_conf.mode = self.board.board.config.mode;
        self.mode_conf.changed = false;
        self.prompts_conf.prompts = self.board.board.config.prompts.clone();
        self.prompts_conf.changed = false;
    }
}

/// A client that mirrors the server's board asks by its click for exactly
/// what the server then does: after the server handled the request, its
/// board is the client's board again. A click that asks for nothing leaves
/// the client's board as it was.
pub proof fn lemma_click_agrees_with_server(
    client: ClientStateView,
    server: BoardView,
    team: Team,
    x: u8,
    y: u8,
)
    requires
        client.board == server,
        client.own_team() == Some(team),
    ensures
        ({
            let is_active = client.click_marks(team, x as int, y as int);
            let mirrored = client.board.after_update(team, x as int, y as int, is_active);
            &&& mirrored == server.after_update(team, x as int, y as int, is_active)
            &&& !client.board.update_changes(team, x as int, y as int, is_active) ==> mirrored
                == server
        }),
{
    let is_active = client.click_marks(team, x as int, y as int);
    if !client.board.update_changes(team, x as int, y as int, is_active) {
        if client.board.has_cell(x as int, y as int) && !is_active {
            assert(client.board.marked(team, x as int, y as int));
        }
    }
}

/// After a new mode or new prompts arrived, client and server agree on the
/// board: the configuration is the one sent and there is no activity.
pub proof fn lemma_configuration_is_mirrored(
    client: ClientStateView,
    server: BoardView,
    message: ServerMessageView,
)
    requires
        client.board.prompts == server.prompts,
        client.board.mode == server.mode,
        message is SetMode || message is SetPrompts,
    ensures
        message matches ServerMessageView::SetMode(mode) ==> client.after(message).board
            == server.with_mode(mode),
        message matches ServerMessageView::SetPrompts(prompts) ==> client.after(message).board
            == server.with_prompts(prompts),
{
}

} // verus!
