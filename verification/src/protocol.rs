//! The messages that clients and the server exchange.
//!
//! Both sets are closed. How a message is put on the wire is left to the
//! transport; the shapes of the variants are what both sides agree on.

use crate::bingo::{BoardActivity, BoardMode, BoardPrompts, PromptsView};
use crate::registry::{sessions_view, ClientId, ClientProps, Sessions};
use crate::teams::Team;
use std::collections::HashMap;
use vstd::prelude::*;

verus! {

/// A message from a client to the server.
#[derive(Debug, PartialEq, Eq)]
pub enum ClientMessage {
    /// Ask to take part under the given name.
    Join { name: String },
    /// Announce that the client goes away.
    Disconnect,
    /// Move to a team, or to none.
    ChangeTeam(Option<Team>),
    /// Mark (`is_active`) or unmark the cell at column `x`, row `y` for `team`.
    UpdateActivity { team: Team, x: u8, y: u8, is_active: bool },
    /// Replace game mode and win condition; host only.
    SetMode(BoardMode),
    /// Replace size and prompts of the board; host only.
    SetPrompts(BoardPrompts),
    /// Remove all activity from the board; host only.
    ResetActivity,
    /// Remove another session; host only.
    Kick(ClientId),
}

/// What a [`ClientMessage`] stands for.
pub enum ClientMessageView {
    Join { name: Seq<char> },
    Disconnect,
    ChangeTeam(Option<Team>),
    UpdateActivity { team: Team, x: u8, y: u8, is_active: bool },
    SetMode(BoardMode),
    SetPrompts(PromptsView),
    ResetActivity,
    Kick(ClientId),
}

impl View for ClientMessage {
    type V = ClientMessageView;

    open spec fn view(&self) -> ClientMessageView {
        match self {
            ClientMessage::Join { name } => ClientMessageView::Join { name: name@ },
            ClientMessage::Disconnect => ClientMessageView::Disconnect,
            ClientMessage::ChangeTeam(team) => ClientMessageView::ChangeTeam(*team),
            ClientMessage::UpdateActivity { team, x, y, is_active } => {
                ClientMessageView::UpdateActivity {
                    team: *team,
                    x: *x,
                    y: *y,
                    is_active: *is_active,
                }
            },
            ClientMessage::SetMode(mode) => ClientMessageView::SetMode(*mode),
            ClientMessage::SetPrompts(prompts) => ClientMessageView::SetPrompts(prompts@),
            ClientMessage::ResetActivity => ClientMessageView::ResetActivity,
            ClientMessage::Kick(target) => ClientMessageView::Kick(*target),
        }
    }
}

impl Clone for ClientMessage {
    fn clone(&self) -> (copy: ClientMessage)
        ensures
            copy@ == self@,
    {
        match self {
            ClientMessage::Join { name } => ClientMessage::Join { name: name.clone() },
            ClientMessage::Disconnect => ClientMessage::Disconnect,
            ClientMessage::ChangeTeam(team) => ClientMessage::ChangeTeam(*team),
            ClientMessage::UpdateActivity { team, x, y, is_active } => {
                ClientMessage::UpdateActivity { team: *team, x: *x, y: *y, is_active: *is_active }
            },
            ClientMessage::SetMode(mode) => ClientMessage::SetMode(*mode),
            ClientMessage::SetPrompts(prompts) => ClientMessage::SetPrompts(prompts.clone()),
            ClientMessage::ResetActivity => ClientMessage::ResetActivity,
            ClientMessage::Kick(target) => ClientMessage::Kick(*target),
        }
    }
}

impl ClientMessageView {
    /// The message carries a payload that can be applied: prompts come with
    /// exactly one prompt per cell.
    pub open spec fn wf(self) -> bool {
        self matches ClientMessageView::SetPrompts(prompts) ==> prompts.wf()
    }
}

impl ClientMessage {
    /// Whether the payload of the message can be applied, see
    /// [`ClientMessageView::wf`].
    pub fn is_well_formed(&self) -> (ok: bool)
        ensures
            ok == self@.wf(),
    {
        match self {
            ClientMessage::SetPrompts(prompts) => prompts.is_well_formed(),
            _ => true,
        }
    }
}

/// A message from the server to a client.
#[derive(Debug, PartialEq, Eq)]
pub enum ServerMessage {
    /// Tells a client which session it is.
    InitClient(ClientId),
    /// The sessions that are connected, by identifier.
    SetClients(HashMap<ClientId, ClientProps>),
    /// The game mode and win condition in force.
    SetMode(BoardMode),
    /// The size and prompts of the board.
    SetPrompts(BoardPrompts),
    /// The whole activity grid.
    SetActivity(BoardActivity),
}

/// What a [`ServerMessage`] stands for.
pub enum ServerMessageView {
    InitClient(ClientId),
    SetClients(Sessions),
    SetMode(BoardMode),
    SetPrompts(PromptsView),
    SetActivity(Seq<Set<Team>>),
}

impl View for ServerMessage {
    type V = ServerMessageView;

    open spec fn view(&self) -> ServerMessageView {
        match self {
            ServerMessage::InitClient(id) => ServerMessageView::InitClient(*id),
            ServerMessage::SetClients(sessions) => ServerMessageView::SetClients(
                sessions_view(sessions@),
            ),
            ServerMessage::SetMode(mode) => ServerMessageView::SetMode(*mode),
            ServerMessage::SetPrompts(prompts) => ServerMessageView::SetPrompts(prompts@),
            ServerMessage::SetActivity(activity) => ServerMessageView::SetActivity(activity@),
        }
    }
}

impl Clone for ServerMessage {
    fn clone(&self) -> (copy: ServerMessage)
        ensures
            copy@ == self@,
    {
        match self {
            ServerMessage::InitClient(id) => ServerMessage::InitClient(*id),
            ServerMessage::SetClients(sessions) => ServerMessage::SetClients(sessions.clone()),
            ServerMessage::SetMode(mode) => ServerMessage::SetMode(*mode),
            ServerMessage::SetPrompts(prompts) => ServerMessage::SetPrompts(prompts.clone()),
            ServerMessage::SetActivity(activity) => ServerMessage::SetActivity(activity.clone()),
        }
    }
}

} // verus!
