//! The session registry: who is connected, under which name, on which
//! team, and who is host.
//!
//! Whenever the registry is not empty exactly one session is host. The
//! first session to join becomes host; when the host leaves, one of the
//! remaining sessions is promoted in the same step.

use crate::teams::Team;
use std::collections::HashMap;
use vstd::prelude::*;
use vstd::std_specs::hash::spec_keys_iter;
use vstd::std_specs::hash::spec_values_iter;
use vstd::std_specs::iter::IteratorSpec;

verus! {

broadcast use vstd::std_specs::hash::group_hash_axioms;

/// Identifier that the transport assigns to a connection.
pub type ClientId = u64;

/// What the server knows about one connected session.
#[derive(Debug, PartialEq, Eq)]
pub struct ClientProps {
    pub is_host: bool,
    pub username: String,
    pub team: Option<Team>,
}

/// What a [`ClientProps`] value stands for.
pub struct ClientPropsView {
    pub is_host: bool,
    pub username: Seq<char>,
    pub team: Option<Team>,
}

impl View for ClientProps {
    type V = ClientPropsView;

    open spec fn view(&self) -> ClientPropsView {
        ClientPropsView { is_host: self.is_host, username: self.username@, team: self.team }
    }
}

impl Clone for ClientProps {
    fn clone(&self) -> (copy: ClientProps)
        ensures
            copy@ == self@,
    {
        ClientProps { is_host: self.is_host, username: self.username.clone(), team: self.team }
    }
}

/// The sessions of a registry by identifier.
pub type Sessions = Map<ClientId, ClientPropsView>;

/// What a map of session properties stands for.
pub open spec fn sessions_view(sessions: Map<ClientId, ClientProps>) -> Sessions {
    sessions.map_values(|props: ClientProps| props@)
}

/// Some session goes by the name `name`.
pub open spec fn name_taken(sessions: Sessions, name: Seq<char>) -> bool {
    exists|id: ClientId| sessions.contains_key(id) && #[trigger] sessions[id].username == name
}

/// `id` is a session and it is host.
pub open spec fn is_host(sessions: Sessions, id: ClientId) -> bool {
    sessions.contains_key(id) && sessions[id].is_host
}

/// Exactly one session is host, unless there is no session at all.
pub open spec fn one_host(sessions: Sessions) -> bool {
    sessions.dom().is_empty() || exists|host: ClientId|
        #[trigger] is_host(sessions, host) && forall|other: ClientId|
            is_host(sessions, other) ==> other == host
}

/// No two sessions go by the same name.
pub open spec fn unique_names(sessions: Sessions) -> bool {
    forall|a: ClientId, b: ClientId|
        sessions.contains_key(a) && sessions.contains_key(b) && a != b ==> (
        #[trigger] sessions[a]).username != (#[trigger] sessions[b]).username
}

/// The invariant of a registry: finitely many sessions, names that are
/// unique, exactly one host unless it is empty.
pub open spec fn sessions_wf(sessions: Sessions) -> bool {
    &&& sessions.dom().finite()
    &&& one_host(sessions)
    &&& unique_names(sessions)
}

/// The registry after `id` joined as `name`: the newcomer has no team and
/// is host exactly if nobody was there before.
pub open spec fn joined(sessions: Sessions, id: ClientId, name: Seq<char>) -> Sessions {
    sessions.insert(
        id,
        ClientPropsView { is_host: sessions.dom().is_empty(), username: name, team: None },
    )
}

/// The registry in which session `id` has been made host.
pub open spec fn promoted(sessions: Sessions, id: ClientId) -> Sessions {
    sessions.insert(id, ClientPropsView { is_host: true, ..sessions[id] })
}

/// The registry in which session `id`, if there is one, is on `team`.
pub open spec fn team_changed(sessions: Sessions, id: ClientId, team: Option<Team>) -> Sessions {
    if sessions.contains_key(id) {
        sessions.insert(id, ClientPropsView { team, ..sessions[id] })
    } else {
        sessions
    }
}

/// `post` is what `pre` can become when session `id` leaves. An unknown
/// `id` changes nothing. Otherwise the session is removed, and if it was
/// host and others remain, one of them, no matter which, is made host.
pub open spec fn left(pre: Sessions, id: ClientId, post: Sessions) -> bool {
    if !pre.contains_key(id) {
        post == pre
    } else if !pre[id].is_host || pre.remove(id).dom().is_empty() {
        post == pre.remove(id)
    } else {
        exists|heir: ClientId| #[trigger]
            pre.remove(id).contains_key(heir) && post == promoted(pre.remove(id), heir)
    }
}

/// Why a session was not admitted.
#[derive(Clone, Copy, Debug, PartialEq, Eq, Structural)]
pub enum JoinError {
    /// The identifier already belongs to a session.
    DuplicateSession,
    /// Another session already goes by the requested name.
    NameTaken,
}

/// The sessions that are connected right now.
#[derive(Debug)]
pub struct Registry {
    pub sessions: HashMap<ClientId, ClientProps>,
}

impl View for Registry {
    type V = Sessions;

    open spec fn view(&self) -> Sessions {
        sessions_view(self.sessions@)
    }
}

impl Registry {
    /// The invariant of the registry, see [`sessions_wf`].
    pub open spec fn wf(&self) -> bool {
        sessions_wf(self@)
    }

    /// The registry without sessions.
    pub fn new() -> (registry: Registry)
        ensures
            registry@ == Map::<ClientId, ClientPropsView>::empty(),
            registry.wf(),
    {
        let registry = Registry { sessions: HashMap::new() };
        assert(registry@ =~= Map::<ClientId, ClientPropsView>::empty());
        registry
    }

    /// Number of sessions.
    pub fn len(&self) -> (n: usize)
        ensures
            n == self@.dom().len(),
    {
        assert(self@.dom() =~= self.sessions@.dom());
        self.sessions.len()
    }

    /// Whether there is no session.
    pub fn is_empty(&self) -> (empty: bool)
        ensures
            empty == self@.dom().is_empty(),
    {
        assert(self@.dom() =~= self.sessions@.dom());
        self.sessions.is_empty()
    }

    /// Whether `id` is a session.
    pub fn contains(&self, id: ClientId) -> (found: bool)
        ensures
            found == self@.contains_key(id),
    {
        self.sessions.contains_key(&id)
    }

    /// The properties of session `id`.
    pub fn get(&self, id: ClientId) -> (props: Option<&ClientProps>)
        ensures
            props is Some == self@.contains_key(id),
            props matches Some(p) ==> p@ == self@[id],
    {
        self.sessions.get(&id)
    }

    /// Whether `id` is a session and is host.
    pub fn is_host(&self, id: ClientId) -> (host: bool)
        ensures
            host == is_host(self@, id),
    {
        match self.sessions.get(&id) {
            Some(props) => props.is_host,
            None => false,
        }
    }

    /// Whether some session goes by `name`.
    pub fn name_taken(&self, name: &String) -> (taken: bool)
        ensures
            taken == name_taken(self@, name@),
    {
        let mut taken = false;
        for props in it: self.sessions.values()
            invariant
                it.seq() == spec_values_iter(&self.sessions).remaining(),
                taken == exists|i: int|
                    0 <= i < it.index() && #[trigger] it.seq()[i].username@ == name@,
        {
            if props.username == *name {
                taken = true;
            }
        }
        proof {
            let seen = spec_values_iter(&self.sessions).remaining();
            assert(seen.unref().to_set() == self.sessions@.values());
            if taken {
                let i = choose|i: int| 0 <= i < seen.len() && #[trigger] seen[i].username@ == name@;
                assert(seen.unref()[i] == *seen[i]);
                assert(seen.unref().to_set().contains(*seen[i]));
                assert(self.sessions@.values().contains(*seen[i]));
                let id = choose|id: ClientId|
                    self.sessions@.contains_key(id) && self.sessions@[id] == *seen[i];
                assert(self@.contains_key(id) && self@[id].username == name@);
            }
            if name_taken(self@, name@) {
                let id = choose|id: ClientId|
                    self@.contains_key(id) && #[trigger] self@[id].username == name@;
                assert(self.sessions@.values().contains(self.sessions@[id]));
                assert(seen.unref().to_set().contains(self.sessions@[id]));
                assert(seen.unref().contains(self.sessions@[id]));
                let i = choose|i: int|
                    0 <= i < seen.unref().len() && seen.unref()[i] == self.sessions@[id];
                assert(seen[i].username@ == name@);
            }
        }
        taken
    }

    /// The identifiers of all sessions, each once, in no particular order.
    pub fn ids(&self) -> (ids: Vec<ClientId>)
        ensures
            ids@.to_set() == self@.dom(),
            ids@.no_duplicates(),
    {
        let mut ids: Vec<ClientId> = Vec::new();
        for id in it: self.sessions.keys()
            invariant
                it.seq() == spec_keys_iter(&self.sessions).remaining(),
                ids.len() == it.index(),
                forall|j: int| 0 <= j < ids.len() ==> ids@[j] == *(#[trigger] it.seq()[j]),
        {
            ids.push(*id);
        }
        proof {
            let keys = spec_keys_iter(&self.sessions).remaining();
            assert(keys.unref().to_set() == self.sessions@.dom());
            assert(ids@ =~= keys.unref());
            assert(self@.dom() =~= self.sessions@.dom());
            assert forall|i: int, j: int| 0 <= i < ids.len() && 0 <= j < ids.len() && i != j
                implies ids@[i] != ids@[j] by {
                assert(keys[i] != keys[j]);
            }
        }
        ids
    }

    /// A copy of all sessions by identifier.
    pub fn snapshot(&self) -> (sessions: HashMap<ClientId, ClientProps>)
        ensures
            sessions_view(sessions@) == self@,
    {
        self.sessions.clone()
    }

    /// Some session, if there is one.
    fn any_id(&self) -> (found: Option<ClientId>)
        ensures
            found is None <==> self@.dom().is_empty(),
            found matches Some(id) ==> self@.contains_key(id),
    {
        let mut found: Option<ClientId> = None;
        for id in it: self.sessions.keys()
            invariant
                it.seq() == spec_keys_iter(&self.sessions).remaining(),
                found is None <==> it.index() == 0,
                found matches Some(k) ==> it.seq().contains(&k),
        {
            if found.is_none() {
                found = Some(*id);
            }
        }
        proof {
            let keys = spec_keys_iter(&self.sessions).remaining();
            assert(keys.unref().to_set() == self.sessions@.dom());
            assert(self@.dom() =~= self.sessions@.dom());
            match found {
                Some(k) => {
                    let i = choose|i: int| 0 <= i < keys.len() && keys[i] == &k;
                    assert(keys.unref()[i] == k);
                    assert(keys.unref().to_set().contains(k));
                },
                None => {
                    assert(self.sessions@.dom().len() == 0);
                },
            }
        }
        found
    }

    /// Admits session `id` under `username`.
    ///
    /// The session is admitted exactly if `id` is not a session yet and no
    /// session goes by `username`. It starts without a team and is host
    /// exactly if the registry was empty. A rejected request changes nothing;
    /// a known `id` is reported before a taken name.
    pub fn join(&mut self, id: ClientId, username: String) -> (outcome: Result<(), JoinError>)
        ensures
            old(self).wf() ==> final(self).wf(),
            match outcome {
                Ok(()) => {
                    &&& !old(self)@.contains_key(id)
                    &&& !name_taken(old(self)@, username@)
                    &&& final(self)@ == joined(old(self)@, id, username@)
                },
                Err(JoinError::DuplicateSession) => {
                    &&& old(self)@.contains_key(id)
                    &&& final(self)@ == old(self)@
                },
                Err(JoinError::NameTaken) => {
                    &&& !old(self)@.contains_key(id)
                    &&& name_taken(old(self)@, username@)
                    &&& final(self)@ == old(self)@
                },
            },
    {
        if self.sessions.contains_key(&id) {
            return Err(JoinError::DuplicateSession);
        }
        if self.name_taken(&username) {
            return Err(JoinError::NameTaken);
        }
        let is_host = self.is_empty();
        let ghost name = username@;
        self.sessions.insert(id, ClientProps { is_host, username, team: None });
        proof {
            assert(self@ =~= joined(old(self)@, id, name));
            if old(self).wf() {
                lemma_join_keeps_invariant(old(self)@, id, name);
            }
        }
        Ok(())
    }

    /// Makes session `id` host.
    fn promote(&mut self, id: ClientId)
        requires
            old(self)@.contains_key(id),
        ensures
            final(self)@ == promoted(old(self)@, id),
    {
        let props = self.sessions.get(&id).unwrap();
        let raised = ClientProps {
            is_host: true,
            username: props.username.clone(),
            team: props.team,
        };
        self.sessions.insert(id, raised);
        assert(self@ =~= promoted(old(self)@, id));
    }

    /// Removes session `id` and returns whether there was such a session.
    ///
    /// If the session was host and others remain, one of them is made host
    /// before this returns.
    pub fn leave(&mut self, id: ClientId) -> (removed: bool)
        ensures
            old(self).wf() ==> final(self).wf(),
            removed == old(self)@.contains_key(id),
            left(old(self)@, id, final(self)@),
    {
        match self.sessions.remove(&id) {
            None => {
                assert(self@ =~= old(self)@);
                false
            },
            Some(props) => {
                assert(self@ =~= old(self)@.remove(id));
                assert(props@ == old(self)@[id]);
                if props.is_host {
                    match self.any_id() {
                        Some(heir) => {
                            self.promote(heir);
                        },
                        None => {},
                    }
                }
                proof {
                    if old(self).wf() {
                        lemma_leave_keeps_invariant(old(self)@, id, self@);
                    }
                }
                true
            },
        }
    }

    /// Puts session `id` on `team` (or on none) and returns whether there
    /// is such a session; an unknown `id` changes nothing.
    pub fn change_team(&mut self, id: ClientId, team: Option<Team>) -> (changed: bool)
        ensures
            old(self).wf() ==> final(self).wf(),
            changed == old(self)@.contains_key(id),
            final(self)@ == team_changed(old(self)@, id, team),
    {
        let moved = match self.sessions.get(&id) {
            Some(props) => ClientProps {
                is_host: props.is_host,
                username: props.username.clone(),
                team,
            },
            None => {
                assert(self@ =~= team_changed(old(self)@, id, team));
                return false;
            },
        };
        self.sessions.insert(id, moved);
        proof {
            assert(self@ =~= team_changed(old(self)@, id, team));
            if old(self).wf() {
                lemma_team_change_keeps_invariant(old(self)@, id, team);
            }
        }
        true
    }

    /// Removes session `target` on behalf of `requester` and returns whether
    /// the request was authorised.
    ///
    /// Only the host may kick. A request by anyone else changes nothing.
    pub fn kick(&mut self, requester: ClientId, target: ClientId) -> (authorised: bool)
        ensures
            old(self).wf() ==> final(self).wf(),
            authorised == is_host(old(self)@, requester),
            authorised ==> left(old(self)@, target, final(self)@),
            !authorised ==> final(self)@ == old(self)@,
    {
        if !self.is_host(requester) {
            return false;
        }
        self.leave(target);
        true
    }
}

impl Default for Registry {
    fn default() -> (registry: Registry)
        ensures
            registry@ == Map::<ClientId, ClientPropsView>::empty(),
            registry.wf(),
    {
        Registry::new()
    }
}

/// Admitting a session under a fresh identifier and a fresh name keeps the
/// invariant of the registry.
pub proof fn lemma_join_keeps_invariant(sessions: Sessions, id: ClientId, name: Seq<char>)
    requires
        sessions_wf(sessions),
        !sessions.contains_key(id),
        !name_taken(sessions, name),
    ensures
        sessions_wf(joined(sessions, id, name)),
{
    let post = joined(sessions, id, name);
    if sessions.dom().is_empty() {
        assert(is_host(post, id));
        assert forall|other: ClientId| is_host(post, other) implies other == id by {
            if other != id {
                assert(sessions.dom().contains(other));
            }
        }
    } else {
        let host = choose|host: ClientId|
            #[trigger] is_host(sessions, host) && forall|other: ClientId|
                is_host(sessions, other) ==> other == host;
        assert(is_host(post, host));
        assert forall|other: ClientId| is_host(post, other) implies other == host by {
            assert(is_host(sessions, other));
        }
    }
    assert forall|a: ClientId, b: ClientId|
        post.contains_key(a) && post.contains_key(b) && a != b implies (#[trigger] post[a]).username
        != (#[trigger] post[b]).username by {
        if a == id {
            assert(sessions.contains_key(b) && sessions[b].username != name);
        } else if b == id {
            assert(sessions.contains_key(a) && sessions[a].username != name);
        } else {
            assert(sessions[a].username != sessions[b].username);
        }
    }
}

/// Whatever a registry becomes when a session leaves, it keeps its
/// invariant.
pub proof fn lemma_leave_keeps_invariant(pre: Sessions, id: ClientId, post: Sessions)
    requires
        sessions_wf(pre),
        left(pre, id, post),
    ensures
        sessions_wf(post),
{
    if pre.contains_key(id) {
        let rest = pre.remove(id);
        assert forall|a: ClientId, b: ClientId|
            rest.contains_key(a) && rest.contains_key(b) && a != b implies (
        #[trigger] rest[a]).username != (#[trigger] rest[b]).username by {
            assert(pre[a].username != pre[b].username);
        }
        let host = choose|host: ClientId|
            #[trigger] is_host(pre, host) && forall|other: ClientId|
                is_host(pre, other) ==> other == host;
        if !pre[id].is_host {
            assert(host != id);
            assert(is_host(rest, host));
            assert forall|other: ClientId| is_host(rest, other) implies other == host by {
                assert(is_host(pre, other));
            }
        } else if rest.dom().is_empty() {
        } else {
            let heir = choose|heir: ClientId| #[trigger]
                rest.contains_key(heir) && post == promoted(rest, heir);
            assert(is_host(post, heir));
            assert(is_host(pre, id));
            assert forall|other: ClientId| is_host(post, other) implies other == heir by {
                if other != heir {
                    assert(rest.contains_key(other));
                    assert(post[other] == pre[other]);
                    assert(is_host(pre, other));
                }
            }
            assert forall|a: ClientId, b: ClientId|
                post.contains_key(a) && post.contains_key(b) && a != b implies (
            #[trigger] post[a]).username != (#[trigger] post[b]).username by {
                assert(rest.contains_key(a) && rest.contains_key(b));
                assert(rest[a].username != rest[b].username);
            }
        }
    }
}

/// Changing a session's team keeps the invariant of the registry.
pub proof fn lemma_team_change_keeps_invariant(
    sessions: Sessions,
    id: ClientId,
    team: Option<Team>,
)
    requires
        sessions_wf(sessions),
    ensures
        sessions_wf(team_changed(sessions, id, team)),
{
    let post = team_changed(sessions, id, team);
    if sessions.contains_key(id) {
        assert(post.dom() =~= sessions.dom());
        let host = choose|host: ClientId|
            #[trigger] is_host(sessions, host) && forall|other: ClientId|
                is_host(sessions, other) ==> other == host;
        assert(is_host(post, host));
        assert forall|other: ClientId| is_host(post, other) implies other == host by {
            assert(is_host(sessions, other));
        }
        assert forall|a: ClientId, b: ClientId|
            post.contains_key(a) && post.contains_key(b) && a != b implies (
        #[trigger] post[a]).username != (#[trigger] post[b]).username by {
            assert(sessions[a].username != sessions[b].username);
        }
    }
}

/// The first session to join an empty registry is host.
pub proof fn lemma_first_join_is_host(sessions: Sessions, id: ClientId, name: Seq<char>)
    requires
        sessions.dom().is_empty(),
    ensures
        is_host(joined(sessions, id, name), id),
        joined(sessions, id, name).dom() =~= set![id],
{
}

/// A session that joins a registry with sessions in it is not host, and
/// nobody else's properties change.
pub proof fn lemma_later_join_is_not_host(sessions: Sessions, id: ClientId, name: Seq<char>)
    requires
        !sessions.dom().is_empty(),
        !sessions.contains_key(id),
    ensures
        !is_host(joined(sessions, id, name), id),
        forall|other: ClientId|
            sessions.contains_key(other) ==> joined(sessions, id, name)[other] == sessions[other],
{
}

/// When the host leaves and others remain, exactly one of them becomes
/// host, and apart from that flag every remaining session is as it was.
pub proof fn lemma_host_leaves(pre: Sessions, id: ClientId, post: Sessions)
    requires
        sessions_wf(pre),
        is_host(pre, id),
        !pre.remove(id).dom().is_empty(),
        left(pre, id, post),
    ensures
        post.dom() =~= pre.dom().remove(id),
        exists|heir: ClientId|
            {
                &&& #[trigger] is_host(post, heir)
                &&& !is_host(pre, heir)
                &&& post[heir].username == pre[heir].username
                &&& post[heir].team == pre[heir].team
                &&& forall|other: ClientId|
                    post.contains_key(other) && other != heir ==> post[other] == pre[other]
                        && !post[other].is_host
            },
{
    let rest = pre.remove(id);
    let heir = choose|heir: ClientId| #[trigger]
        rest.contains_key(heir) && post == promoted(rest, heir);
    assert(is_host(post, heir));
    assert(!is_host(pre, heir)) by {
        if is_host(pre, heir) {
            let host = choose|host: ClientId|
                #[trigger] is_host(pre, host) && forall|other: ClientId|
                    is_host(pre, other) ==> other == host;
            assert(is_host(pre, id));
        }
    }
    assert forall|other: ClientId| post.contains_key(other) && other != heir implies post[other]
        == pre[other] && !post[other].is_host by {
        if post[other].is_host {
            assert(is_host(pre, other));
            let host = choose|host: ClientId|
                #[trigger] is_host(pre, host) && forall|other: ClientId|
                    is_host(pre, other) ==> other == host;
            assert(is_host(pre, id));
        }
    }
}

/// When a session that is not host leaves, it is removed and nothing else
/// changes.
pub proof fn lemma_guest_leaves(pre: Sessions, id: ClientId, post: Sessions)
    requires
        pre.contains_key(id),
        !pre[id].is_host,
        left(pre, id, post),
    ensures
        post == pre.remove(id),
{
}

} // verus!
