//! The server's state and how one incoming message changes it.
//!
//! The server owns the registry and the board. Messages are handled one at
//! a time; handling a message changes the state and yields the actions that
//! the transport has to carry out, in order. A broadcast goes to every
//! session that is registered once the message has been handled.

use crate::bingo::{Board, BoardView};
use crate::lockout::{lemma_cleared_respects_lockout, lemma_update_respects_lockout};
use crate::protocol::{ClientMessage, ClientMessageView, ServerMessage, ServerMessageView};
use crate::registry::{
    is_host, joined, left, lemma_join_keeps_invariant, lemma_leave_keeps_invariant,
    lemma_team_change_keeps_invariant, name_taken, sessions_wf, team_changed, ClientId, Registry,
    Sessions,
};
use crate::teams::Team;
use vstd::prelude::*;

verus! {

/// Something the transport has to do after a message was handled.
#[derive(Debug, PartialEq, Eq)]
pub enum Action {
    /// Close the connection of this peer.
    Disconnect(ClientId),
    /// Send the message to this session.
    Unicast(ClientId, ServerMessage),
    /// Send the message to every registered session.
    Broadcast(ServerMessage),
}

/// What an [`Action`] stands for.
pub enum ActionView {
    Disconnect(ClientId),
    Unicast(ClientId, ServerMessageView),
    Broadcast(ServerMessageView),
}

impl View for Action {
    type V = ActionView;

    open spec fn view(&self) -> ActionView {
        match self {
            Action::Disconnect(id) => ActionView::Disconnect(*id),
            Action::Unicast(id, message) => ActionView::Unicast(*id, message@),
            Action::Broadcast(message) => ActionView::Broadcast(message@),
        }
    }
}

impl Clone for Action {
    fn clone(&self) -> (copy: Action)
        ensures
            copy@ == self@,
    {
        match self {
            Action::Disconnect(id) => Action::Disconnect(*id),
            Action::Unicast(id, message) => Action::Unicast(*id, message.clone()),
            Action::Broadcast(message) => Action::Broadcast(message.clone()),
        }
    }
}

impl ActionView {
    /// Whether carrying out the action sends a message to `peer`: a
    /// unicast reaches its target, a broadcast every registered session.
    pub open spec fn reaches(self, sessions: Sessions, peer: ClientId) -> bool {
        match self {
            ActionView::Disconnect(_) => false,
            ActionView::Unicast(target, _) => peer == target,
            ActionView::Broadcast(_) => sessions.contains_key(peer),
        }
    }
}

/// What a list of actions stands for.
pub open spec fn actions_view(actions: Seq<Action>) -> Seq<ActionView> {
    actions.map_values(|action: Action| action@)
}

/// What a [`ServerState`] stands for.
pub struct ServerStateView {
    pub sessions: Sessions,
    pub board: BoardView,
}

impl ServerStateView {
    /// The invariant of the server: the registry and the board keep theirs.
    pub open spec fn wf(self) -> bool {
        sessions_wf(self.sessions) && self.board.wf()
    }

    /// The broadcast that tells everybody who is connected.
    pub open spec fn clients_broadcast(self) -> ActionView {
        ActionView::Broadcast(ServerMessageView::SetClients(self.sessions))
    }

    /// The broadcast that tells everybody the whole activity grid.
    pub open spec fn activity_broadcast(self) -> ActionView {
        ActionView::Broadcast(ServerMessageView::SetActivity(self.board.activity))
    }

    /// What a new session is sent: who it is, then the whole board.
    pub open spec fn welcome(self, id: ClientId) -> Seq<ActionView> {
        seq![
            ActionView::Unicast(id, ServerMessageView::InitClient(id)),
            ActionView::Unicast(id, ServerMessageView::SetMode(self.board.mode)),
            ActionView::Unicast(id, ServerMessageView::SetPrompts(self.board.prompts)),
            ActionView::Unicast(id, ServerMessageView::SetActivity(self.board.activity)),
        ]
    }
}

/// Nothing happens: the state stays and there is nothing to send.
pub open spec fn dropped(pre: ServerStateView, post: ServerStateView, out: Seq<ActionView>)
    -> bool {
    post == pre && out == Seq::<ActionView>::empty()
}

/// The peer is cut off and nothing else happens. A session of that peer
/// stays registered until the transport reports that its connection is
/// lost.
pub open spec fn refused(
    pre: ServerStateView,
    peer: ClientId,
    post: ServerStateView,
    out: Seq<ActionView>,
) -> bool {
    post == pre && out == seq![ActionView::Disconnect(peer)]
}

/// `sender` asks to join as `name`. A sender that is a session already, or
/// a name that is taken, gets the connection closed and nothing else
/// happens. Otherwise the session is registered, it is sent the welcome,
/// and everybody is told who is connected.
pub open spec fn join_step(
    pre: ServerStateView,
    sender: ClientId,
    name: Seq<char>,
    post: ServerStateView,
    out: Seq<ActionView>,
) -> bool {
    if pre.sessions.contains_key(sender) || name_taken(pre.sessions, name) {
        refused(pre, sender, post, out)
    } else {
        &&& post.board == pre.board
        &&& post.sessions == joined(pre.sessions, sender, name)
        &&& out == pre.welcome(sender).push(post.clients_broadcast())
    }
}

/// Peer `id` goes away, see [`left`]. With `close` the transport is told
/// to close the peer's connection. If the peer was a session, everybody who
/// remains is told who is connected; if it was not, nothing changes and
/// nothing is sent.
pub open spec fn leave_step(
    pre: ServerStateView,
    id: ClientId,
    close: bool,
    post: ServerStateView,
    out: Seq<ActionView>,
) -> bool {
    &&& post.board == pre.board
    &&& left(pre.sessions, id, post.sessions)
    &&& out == (if close {
        seq![ActionView::Disconnect(id)]
    } else {
        Seq::<ActionView>::empty()
    }) + (if pre.sessions.contains_key(id) {
        seq![post.clients_broadcast()]
    } else {
        Seq::<ActionView>::empty()
    })
}

/// `sender` moves to `team`, if it is a session, and everybody is told who
/// is connected.
pub open spec fn change_team_step(
    pre: ServerStateView,
    sender: ClientId,
    team: Option<Team>,
    post: ServerStateView,
    out: Seq<ActionView>,
) -> bool {
    &&& post.board == pre.board
    &&& post.sessions == team_changed(pre.sessions, sender, team)
    &&& out == seq![post.clients_broadcast()]
}

/// A mark or unmark request is applied to the board; if it counts as a
/// change, everybody is sent the whole activity grid.
pub open spec fn update_step(
    pre: ServerStateView,
    team: Team,
    x: u8,
    y: u8,
    is_active: bool,
    post: ServerStateView,
    out: Seq<ActionView>,
) -> bool {
    &&& post.sessions == pre.sessions
    &&& post.board == pre.board.after_update(team, x as int, y as int, is_active)
    &&& out == if pre.board.update_changes(team, x as int, y as int, is_active) {
        seq![post.activity_broadcast()]
    } else {
        Seq::<ActionView>::empty()
    }
}

/// `post` and `out` are a possible outcome of handling `message` from
/// `sender` in state `pre`.
///
/// The outcome is determined by the state and the message, except for the
/// choice of the next host when the host goes away.
///
/// A change of mode or prompts, a reset and a kick are the host's alone:
/// from anybody else they are dropped, whatever they hold, and the sender
/// stays connected. Prompts from the host that do not fit their grid are not
/// applied; the host is cut off and leaves as with `Disconnect`: its session
/// is removed, one of the others becomes host, and all are told.
pub open spec fn step(
    pre: ServerStateView,
    sender: ClientId,
    message: ClientMessageView,
    post: ServerStateView,
    out: Seq<ActionView>,
) -> bool {
    match message {
        ClientMessageView::Join { name } => join_step(pre, sender, name, post, out),
        ClientMessageView::Disconnect => leave_step(pre, sender, true, post, out),
        ClientMessageView::ChangeTeam(team) => change_team_step(pre, sender, team, post, out),
        ClientMessageView::UpdateActivity { team, x, y, is_active } => update_step(
            pre,
            team,
            x,
            y,
            is_active,
            post,
            out,
        ),
        ClientMessageView::SetMode(mode) => if is_host(pre.sessions, sender) {
            &&& post.sessions == pre.sessions
            &&& post.board == pre.board.with_mode(mode)
            &&& out == seq![ActionView::Broadcast(ServerMessageView::SetMode(mode))]
        } else {
            dropped(pre, post, out)
        },
        ClientMessageView::SetPrompts(prompts) => if !is_host(pre.sessions, sender) {
            dropped(pre, post, out)
        } else if !prompts.wf() {
            leave_step(pre, sender, true, post, out)
        } else {
            &&& post.sessions == pre.sessions
            &&& post.board == pre.board.with_prompts(prompts)
            &&& out == seq![ActionView::Broadcast(ServerMessageView::SetPrompts(prompts))]
        },
        ClientMessageView::ResetActivity => if is_host(pre.sessions, sender) {
            &&& post.sessions == pre.sessions
            &&& post.board == pre.board.cleared()
            &&& out == seq![post.activity_broadcast()]
        } else {
            dropped(pre, post, out)
        },
        ClientMessageView::Kick(target) => if is_host(pre.sessions, sender) {
            leave_step(pre, target, true, post, out)
        } else {
            dropped(pre, post, out)
        },
    }
}

/// The registry and the board of a running server.
#[derive(Debug)]
pub struct ServerState {
    pub registry: Registry,
    pub board: Board,
}

impl View for ServerState {
    type V = ServerStateView;

    open spec fn view(&self) -> ServerStateView {
        ServerStateView { sessions: self.registry@, board: self.board@ }
    }
}

impl ServerState {
    /// The invariant of the server, see [`ServerStateView::wf`].
    pub open spec fn wf(&self) -> bool {
        self@.wf()
    }

    /// The state a server starts in: nobody connected, the default board.
    pub fn new() -> (state: ServerState)
        ensures
            state@.sessions == Map::<ClientId, crate::registry::ClientPropsView>::empty(),
            state@.board == BoardView::spec_default(),
            state.wf(),
    {
        ServerState { registry: Registry::new(), board: Board::default() }
    }

    /// The sessions a broadcast goes to, each once, in no particular order.
    pub fn recipients(&self) -> (ids: Vec<ClientId>)
        ensures
            ids@.to_set() == self@.sessions.dom(),
            ids@.no_duplicates(),
    {
        self.registry.ids()
    }

    /// The peers that `action` sends a message to, each once; for a
    /// broadcast in no particular order.
    pub fn targets(&self, action: &Action) -> (peers: Vec<ClientId>)
        ensures
            forall|peer: ClientId|
                peers@.contains(peer) <==> action@.reaches(self@.sessions, peer),
            peers@.no_duplicates(),
    {
        match action {
            Action::Disconnect(_) => Vec::new(),
            Action::Unicast(target, _) => {
                let peers = vec![*target];
                assert(peers@[0] == *target);
                peers
            },
            Action::Broadcast(_) => {
                let peers = self.registry.ids();
                assert forall|peer: ClientId| peers@.contains(peer) == self@.sessions.contains_key(
                    peer,
                ) by {
                    assert(peers@.to_set().contains(peer) == self@.sessions.dom().contains(peer));
                }
                peers
            },
        }
    }

    /// The broadcast that tells everybody who is connected.
    fn clients_broadcast(&self) -> (action: Action)
        ensures
            action@ == self@.clients_broadcast(),
    {
        Action::Broadcast(ServerMessage::SetClients(self.registry.snapshot()))
    }

    /// The broadcast that tells everybody the whole activity grid.
    fn activity_broadcast(&self) -> (action: Action)
        ensures
            action@ == self@.activity_broadcast(),
    {
        Action::Broadcast(ServerMessage::SetActivity(self.board.activity.clone()))
    }

    /// Handles a request to join.
    fn handle_join(&mut self, sender: ClientId, name: String) -> (out: Vec<Action>)
        ensures
            join_step(old(self)@, sender, name@, final(self)@, actions_view(out@)),
            old(self).wf() ==> final(self).wf(),
    {
        match self.registry.join(sender, name) {
            Err(_) => {
                let out = vec![Action::Disconnect(sender)];
                assert(actions_view(out@) =~= seq![ActionView::Disconnect(sender)]);
                out
            },
            Ok(()) => {
                let out = vec![
                    Action::Unicast(sender, ServerMessage::InitClient(sender)),
                    Action::Unicast(sender, ServerMessage::SetMode(self.board.config.mode)),
                    Action::Unicast(
                        sender,
                        ServerMessage::SetPrompts(self.board.config.prompts.clone()),
                    ),
                    Action::Unicast(sender, ServerMessage::SetActivity(self.board.activity.clone())),
                    self.clients_broadcast(),
                ];
                assert(actions_view(out@) =~= old(self)@.welcome(sender).push(
                    self@.clients_broadcast(),
                ));
                out
            },
        }
    }

    /// Removes session `id`; with `close` the peer's connection is closed
    /// as well.
    fn handle_leave(&mut self, id: ClientId, close: bool) -> (out: Vec<Action>)
        ensures
            leave_step(old(self)@, id, close, final(self)@, actions_view(out@)),
            old(self).wf() ==> final(self).wf(),
    {
        let mut out: Vec<Action> = Vec::new();
        if close {
            out.push(Action::Disconnect(id));
        }
        if self.registry.leave(id) {
            out.push(self.clients_broadcast());
        }
        assert(actions_view(out@) =~= (if close {
            seq![ActionView::Disconnect(id)]
        } else {
            Seq::<ActionView>::empty()
        }) + (if old(self)@.sessions.contains_key(id) {
            seq![self@.clients_broadcast()]
        } else {
            Seq::<ActionView>::empty()
        }));
        out
    }

    /// Handles one message from `sender`.
    ///
    /// The state changes and the returned actions are as [`step`] says. No
    /// message makes the server fail: what is not allowed is dropped, and a
    /// sender that breaks the protocol is cut off.
    pub fn handle_message(&mut self, sender: ClientId, message: ClientMessage) -> (out: Vec<
        Action,
    >)
        ensures
            step(old(self)@, sender, message@, final(self)@, actions_view(out@)),
            old(self).wf() ==> final(self).wf(),
    {
        match message {
            ClientMessage::Join { name } => self.handle_join(sender, name),
            ClientMessage::Disconnect => self.handle_leave(sender, true),
            ClientMessage::ChangeTeam(team) => {
                self.registry.change_team(sender, team);
                let out = vec![self.clients_broadcast()];
                assert(actions_view(out@) =~= seq![self@.clients_broadcast()]);
                out
            },
            ClientMessage::UpdateActivity { team, x, y, is_active } => {
                if self.board.update_activity(team, x, y, is_active) {
                    let out = vec![self.activity_broadcast()];
                    assert(actions_view(out@) =~= seq![self@.activity_broadcast()]);
                    out
                } else {
                    let out: Vec<Action> = Vec::new();
                    assert(actions_view(out@) =~= Seq::<ActionView>::empty());
                    out
                }
            },
            ClientMessage::SetMode(mode) => {
                if self.registry.is_host(sender) {
                    self.board.set_mode(mode);
                    let out = vec![Action::Broadcast(ServerMessage::SetMode(mode))];
                    assert(actions_view(out@) =~= seq![
                        ActionView::Broadcast(ServerMessageView::SetMode(mode)),
                    ]);
                    out
                } else {
                    let out: Vec<Action> = Vec::new();
                    assert(actions_view(out@) =~= Seq::<ActionView>::empty());
                    out
                }
            },
            ClientMessage::SetPrompts(prompts) => {
                if !self.registry.is_host(sender) {
                    let out: Vec<Action> = Vec::new();
                    assert(actions_view(out@) =~= Seq::<ActionView>::empty());
                    out
                } else if !prompts.is_well_formed() {
                    self.handle_leave(sender, true)
                } else {
                    let notice = prompts.clone();
                    self.board.set_prompts(prompts);
                    let out = vec![Action::Broadcast(ServerMessage::SetPrompts(notice))];
                    assert(actions_view(out@) =~= seq![
                        ActionView::Broadcast(ServerMessageView::SetPrompts(prompts@)),
                    ]);
                    out
                }
            },
            ClientMessage::ResetActivity => {
                if self.registry.is_host(sender) {
                    self.board.reset_activity();
                    let out = vec![self.activity_broadcast()];
                    assert(actions_view(out@) =~= seq![self@.activity_broadcast()]);
                    out
                } else {
                    let out: Vec<Action> = Vec::new();
                    assert(actions_view(out@) =~= Seq::<ActionView>::empty());
                    out
                }
            },
            ClientMessage::Kick(target) => {
                if self.registry.is_host(sender) {
                    self.handle_leave(target, true)
                } else {
                    let out: Vec<Action> = Vec::new();
                    assert(actions_view(out@) =~= Seq::<ActionView>::empty());
                    out
                }
            },
        }
    }

    /// Handles the loss of the connection of peer `id`, reported by the
    /// transport or noticed when a send failed: the session, if there is
    /// one, leaves as if it had sent `Disconnect`, only that there is no
    /// connection left to close. For a peer that is no session nothing
    /// changes and nothing is sent.
    pub fn connection_lost(&mut self, id: ClientId) -> (out: Vec<Action>)
        ensures
            leave_step(old(self)@, id, false, final(self)@, actions_view(out@)),
            old(self).wf() ==> final(self).wf(),
    {
        self.handle_leave(id, false)
    }
}

impl Default for ServerState {
    fn default() -> (state: ServerState)
        ensures
            state@.sessions == Map::<ClientId, crate::registry::ClientPropsView>::empty(),
            state@.board == BoardView::spec_default(),
            state.wf(),
    {
        ServerState::new()
    }
}

/// Whatever a message does to a server that keeps its invariant, the
/// server keeps its invariant: in particular there is one activity set per
/// cell of the grid and exactly one host unless nobody is connected.
pub proof fn lemma_step_keeps_invariant(
    pre: ServerStateView,
    sender: ClientId,
    message: ClientMessageView,
    post: ServerStateView,
    out: Seq<ActionView>,
)
    requires
        pre.wf(),
        step(pre, sender, message, post, out),
    ensures
        post.wf(),
        post.board.activity.len() == post.board.prompts.x_size * post.board.prompts.y_size,
{
    match message {
        ClientMessageView::Join { name } => {
            if !(pre.sessions.contains_key(sender) || name_taken(pre.sessions, name)) {
                lemma_join_keeps_invariant(pre.sessions, sender, name);
            }
        },
        ClientMessageView::Disconnect => {
            lemma_leave_keeps_invariant(pre.sessions, sender, post.sessions);
        },
        ClientMessageView::ChangeTeam(team) => {
            lemma_team_change_keeps_invariant(pre.sessions, sender, team);
        },
        ClientMessageView::Kick(target) => {
            if is_host(pre.sessions, sender) {
                lemma_leave_keeps_invariant(pre.sessions, target, post.sessions);
            }
        },
        ClientMessageView::SetPrompts(prompts) => {
            if is_host(pre.sessions, sender) && !prompts.wf() {
                lemma_leave_keeps_invariant(pre.sessions, sender, post.sessions);
            }
        },
        _ => {},
    }
}

/// The loss of a connection keeps the invariant of the server as well.
pub proof fn lemma_connection_loss_keeps_invariant(
    pre: ServerStateView,
    id: ClientId,
    post: ServerStateView,
    out: Seq<ActionView>,
)
    requires
        pre.wf(),
        leave_step(pre, id, false, post, out),
    ensures
        post.wf(),
{
    lemma_leave_keeps_invariant(pre.sessions, id, post.sessions);
}

/// A change of mode or prompts and a reset by anyone but the host have no
/// effect at all, whatever the message holds: board and registry stay as
/// they are and nothing is sent, so the sender stays connected.
pub proof fn lemma_configuration_by_guest_is_dropped(
    pre: ServerStateView,
    sender: ClientId,
    message: ClientMessageView,
    post: ServerStateView,
    out: Seq<ActionView>,
)
    requires
        !is_host(pre.sessions, sender),
        message is SetMode || message is SetPrompts || message is ResetActivity,
        step(pre, sender, message, post, out),
    ensures
        post == pre,
        out.len() == 0,
{
}

/// The departure of a peer that is no session is no event: the registry
/// stays as it is and nobody is told anything.
pub proof fn lemma_unknown_peer_leaves_no_trace(
    pre: ServerStateView,
    id: ClientId,
    post: ServerStateView,
    out: Seq<ActionView>,
)
    requires
        !pre.sessions.contains_key(id),
        leave_step(pre, id, false, post, out),
    ensures
        post == pre,
        out.len() == 0,
{
}

/// A kick by anyone but the host has no effect at all.
pub proof fn lemma_kick_by_guest_is_dropped(
    pre: ServerStateView,
    sender: ClientId,
    target: ClientId,
    post: ServerStateView,
    out: Seq<ActionView>,
)
    requires
        !is_host(pre.sessions, sender),
        step(pre, sender, ClientMessageView::Kick(target), post, out),
    ensures
        post == pre,
        out.len() == 0,
{
}

/// Changing the mode or the prompts leaves an activity grid of the new size
/// in which no team marks any cell.
pub proof fn lemma_new_configuration_clears_activity(
    pre: ServerStateView,
    sender: ClientId,
    message: ClientMessageView,
    post: ServerStateView,
    out: Seq<ActionView>,
)
    requires
        is_host(pre.sessions, sender),
        message.wf(),
        message is SetMode || message is SetPrompts,
        step(pre, sender, message, post, out),
    ensures
        post.board.activity.len() == post.board.prompts.x_size * post.board.prompts.y_size,
        forall|i: int|
            0 <= i < post.board.activity.len() ==> post.board.activity[i] == Set::<Team>::empty(),
        message matches ClientMessageView::SetMode(mode) ==> post.board.mode == mode
            && post.board.prompts == pre.board.prompts,
        message matches ClientMessageView::SetPrompts(prompts) ==> post.board.prompts == prompts
            && post.board.mode == pre.board.mode,
{
}

/// Once a team has won, a request to mark a cell changes nothing and
/// nothing is sent.
pub proof fn lemma_claim_after_win_is_dropped(
    pre: ServerStateView,
    sender: ClientId,
    team: Team,
    x: u8,
    y: u8,
    post: ServerStateView,
    out: Seq<ActionView>,
)
    requires
        pre.board.winner() is Some,
        step(
            pre,
            sender,
            ClientMessageView::UpdateActivity { team, x, y, is_active: true },
            post,
            out,
        ),
    ensures
        post == pre,
        out.len() == 0,
{
}

/// Whatever a message does to a server whose board respects the lockout
/// rule, the board respects it afterwards.
pub proof fn lemma_step_respects_lockout(
    pre: ServerStateView,
    sender: ClientId,
    message: ClientMessageView,
    post: ServerStateView,
    out: Seq<ActionView>,
)
    requires
        pre.board.lockout_respected(),
        step(pre, sender, message, post, out),
    ensures
        post.board.lockout_respected(),
{
    match message {
        ClientMessageView::UpdateActivity { team, x, y, is_active } => {
            lemma_update_respects_lockout(pre.board, team, x as int, y as int, is_active);
        },
        ClientMessageView::SetMode(mode) => {
            lemma_cleared_respects_lockout(pre.board, mode, pre.board.prompts);
        },
        ClientMessageView::SetPrompts(prompts) => {
            lemma_cleared_respects_lockout(pre.board, pre.board.mode, prompts);
        },
        ClientMessageView::ResetActivity => {
            lemma_cleared_respects_lockout(pre.board, pre.board.mode, pre.board.prompts);
        },
        _ => {},
    }
}

} // verus!
