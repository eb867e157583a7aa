//! Agreement between the server and its clients.
//!
//! A client follows the server by what it is sent. Here it is shown that
//! this is enough: a client that mirrors the server before a message is
//! handled mirrors it again once it has taken in what the server sent it,
//! and a client that joins mirrors the server after the welcome.

use crate::bingo::lemma_no_change_no_difference;
use crate::client::ClientStateView;
use crate::protocol::{ClientMessageView, ServerMessageView};
use crate::registry::{name_taken, ClientId, Sessions};
use crate::server::{leave_step, step, ActionView, ServerStateView};
use vstd::prelude::*;

verus! {

/// The client knows the sessions and the board as they are on the server.
pub open spec fn mirrors(client: ClientStateView, server: ServerStateView) -> bool {
    client.sessions == server.sessions && client.board == server.board
}

/// The message that the action delivers to `peer`, if it delivers one: a
/// unicast delivers to its target, a broadcast to every registered session.
pub open spec fn delivered(action: ActionView, sessions: Sessions, peer: ClientId) -> Option<
    ServerMessageView,
> {
    match action {
        ActionView::Disconnect(_) => None,
        ActionView::Unicast(target, message) => if target == peer {
            Some(message)
        } else {
            None
        },
        ActionView::Broadcast(message) => if sessions.contains_key(peer) {
            Some(message)
        } else {
            None
        },
    }
}

/// The client after it took in, in order, what the actions deliver to it.
pub open spec fn after_actions(
    client: ClientStateView,
    actions: Seq<ActionView>,
    sessions: Sessions,
    peer: ClientId,
) -> ClientStateView
    decreases actions.len(),
{
    if actions.len() == 0 {
        client
    } else {
        let before = after_actions(client, actions.drop_last(), sessions, peer);
        match delivered(actions.last(), sessions, peer) {
            Some(message) => before.after(message),
            None => before,
        }
    }
}

/// An action delivers a message exactly to the peers that it reaches.
pub proof fn lemma_delivered_to_whom_it_reaches(
    action: ActionView,
    sessions: Sessions,
    peer: ClientId,
)
    ensures
        delivered(action, sessions, peer) is Some <==> action.reaches(sessions, peer),
{
}

/// One more action: the client takes in what it delivers, after all that
/// came before.
proof fn lemma_after_one_more(
    client: ClientStateView,
    actions: Seq<ActionView>,
    action: ActionView,
    sessions: Sessions,
    peer: ClientId,
)
    ensures
        after_actions(client, actions.push(action), sessions, peer) == (match delivered(
            action,
            sessions,
            peer,
        ) {
            Some(message) => after_actions(client, actions, sessions, peer).after(message),
            None => after_actions(client, actions, sessions, peer),
        }),
{
    assert(actions.push(action).drop_last() =~= actions);
}

/// A client that mirrors the server and stays registered mirrors it again
/// after it took in what the server sent when it handled a message.
pub proof fn lemma_clients_follow_the_server(
    pre: ServerStateView,
    sender: ClientId,
    message: ClientMessageView,
    post: ServerStateView,
    out: Seq<ActionView>,
    client: ClientStateView,
    peer: ClientId,
)
    requires
        step(pre, sender, message, post, out),
        mirrors(client, pre),
        pre.sessions.contains_key(peer),
        post.sessions.contains_key(peer),
    ensures
        mirrors(after_actions(client, out, post.sessions, peer), post),
{
    let none = Seq::<ActionView>::empty();
    if out.len() == 0 {
        if let ClientMessageView::UpdateActivity { team, x, y, is_active } = message {
            lemma_no_change_no_difference(pre.board, team, x as int, y as int, is_active);
        }
    } else if out.len() == 1 {
        assert(out =~= none.push(out[0]));
        lemma_after_one_more(client, none, out[0], post.sessions, peer);
    } else if out.len() == 2 {
        assert(out =~= none.push(out[0]).push(out[1]));
        lemma_after_one_more(client, none, out[0], post.sessions, peer);
        lemma_after_one_more(client, none.push(out[0]), out[1], post.sessions, peer);
    } else {
        // Only a welcome is longer, and it goes to a peer that was no
        // session before.
        assert(message is Join);
        assert(out =~= none.push(out[0]).push(out[1]).push(out[2]).push(out[3]).push(out[4]));
        lemma_after_one_more(client, none, out[0], post.sessions, peer);
        lemma_after_one_more(client, none.push(out[0]), out[1], post.sessions, peer);
        lemma_after_one_more(client, none.push(out[0]).push(out[1]), out[2], post.sessions, peer);
        lemma_after_one_more(
            client,
            none.push(out[0]).push(out[1]).push(out[2]),
            out[3],
            post.sessions,
            peer,
        );
        lemma_after_one_more(
            client,
            none.push(out[0]).push(out[1]).push(out[2]).push(out[3]),
            out[4],
            post.sessions,
            peer,
        );
    }
}

/// A client whose join was accepted mirrors the server after it took in
/// the welcome, whatever it held before, and knows which session it is.
pub proof fn lemma_welcome_brings_in_step(
    pre: ServerStateView,
    sender: ClientId,
    name: Seq<char>,
    post: ServerStateView,
    out: Seq<ActionView>,
    client: ClientStateView,
)
    requires
        step(pre, sender, ClientMessageView::Join { name }, post, out),
        !pre.sessions.contains_key(sender),
        !name_taken(pre.sessions, name),
    ensures
        mirrors(after_actions(client, out, post.sessions, sender), post),
        after_actions(client, out, post.sessions, sender).self_id == sender,
{
    let none = Seq::<ActionView>::empty();
    assert(out =~= none.push(out[0]).push(out[1]).push(out[2]).push(out[3]).push(out[4]));
    lemma_after_one_more(client, none, out[0], post.sessions, sender);
    lemma_after_one_more(client, none.push(out[0]), out[1], post.sessions, sender);
    lemma_after_one_more(client, none.push(out[0]).push(out[1]), out[2], post.sessions, sender);
    lemma_after_one_more(
        client,
        none.push(out[0]).push(out[1]).push(out[2]),
        out[3],
        post.sessions,
        sender,
    );
    lemma_after_one_more(
        client,
        none.push(out[0]).push(out[1]).push(out[2]).push(out[3]),
        out[4],
        post.sessions,
        sender,
    );
    let welcomed = after_actions(client, out, post.sessions, sender);
    assert(welcomed.board.activity == post.board.activity);
    assert(welcomed.board.prompts == post.board.prompts);
    assert(welcomed.board.mode == post.board.mode);
}

/// A client that mirrors the server and stays registered mirrors it again
/// after it took in what the server sent when a connection was lost.
pub proof fn lemma_clients_follow_a_loss(
    pre: ServerStateView,
    lost: ClientId,
    post: ServerStateView,
    out: Seq<ActionView>,
    client: ClientStateView,
    peer: ClientId,
)
    requires
        leave_step(pre, lost, false, post, out),
        mirrors(client, pre),
        post.sessions.contains_key(peer),
    ensures
        mirrors(after_actions(client, out, post.sessions, peer), post),
{
    let none = Seq::<ActionView>::empty();
    if out.len() > 0 {
        assert(out =~= none.push(out[0]));
        lemma_after_one_more(client, none, out[0], post.sessions, peer);
    }
}

} // verus!
