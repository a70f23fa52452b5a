//! The coordinator of the lobbies: which lobbies run, which session is in which lobby,
//! which sessions are connected, and where a client's message goes. It decides; what
//! it decides to send, hand on and start comes back as a list of `CoordinatorAction`.
use vstd::prelude::*;

use crate::{ClientMessage, ErrorMessage, ServerMessage, SessionId};
use crate::game::GameMessage;
use crate::lobby::{HostMessage, LeftLobbyReason, LobbyCode, LobbyMessage};

verus! {

/// What the coordinator tells a lobby.
pub enum LobbyEvent {
    /// the session connected: it joins the lobby, or is back online
    SessionConnected(SessionId),
    /// the session's connection went away
    SessionOffline(SessionId),
    /// a message of the session to its lobby
    Message { session_id: SessionId, message: LobbyMessage },
}

/// What the coordinator asks of the world around it, in order.
pub enum CoordinatorAction {
    /// send a message over the connection of a session
    SendToSession(SessionId, ServerMessage),
    /// hand an event to the lobby with this code
    ToLobby(LobbyCode, LobbyEvent),
    /// start a lobby with this code, the session as its host
    StartLobby(LobbyCode, SessionId),
}

/// The lobbies that run, the lobby of each session that is in one, and the sessions
/// that are connected.
pub struct Coordinator {
    lobbies: Vec<LobbyCode>,
    session_lobby: Vec<(SessionId, LobbyCode)>,
    active_sessions: Vec<SessionId>,
}

/// The memberships of `m` in lobbies other than `code`, in order.
pub open spec fn outside_lobby(m: Seq<(SessionId, Seq<char>)>, code: Seq<char>) -> Seq<(SessionId, Seq<char>)>
    decreases m.len(),
{
    if m.len() == 0 {
        m
    } else {
        let rest = outside_lobby(m.drop_last(), code);
        if m.last().1 == code {
            rest
        } else {
            rest.push(m.last())
        }
    }
}

/// No two entries of `s` are equal.
pub open spec fn distinct<A>(s: Seq<A>) -> bool {
    forall|i: int, j: int| 0 <= i < j < s.len() ==> s[i] != s[j]
}

/// No two memberships are of one session.
pub open spec fn one_lobby_each(m: Seq<(SessionId, Seq<char>)>) -> bool {
    forall|i: int, j: int| 0 <= i < j < m.len() ==> (#[trigger] m[i]).0 != (#[trigger] m[j]).0
}

/// Every membership of `outside_lobby(m, code)` is one of `m`, and not in `code`.
proof fn lemma_outside_lobby(m: Seq<(SessionId, Seq<char>)>, code: Seq<char>)
    ensures
        forall|k: int| 0 <= k < outside_lobby(m, code).len() ==> m.contains(#[trigger] outside_lobby(m, code)[k])
            && outside_lobby(m, code)[k].1 != code,
        forall|e: (SessionId, Seq<char>)| m.contains(e) && e.1 != code ==> outside_lobby(m, code).contains(e),
        one_lobby_each(m) ==> one_lobby_each(outside_lobby(m, code)),
    decreases m.len(),
{
    if m.len() > 0 {
        let t = m.drop_last();
        lemma_outside_lobby(t, code);
        let rest = outside_lobby(t, code);
        assert forall|k: int| 0 <= k < outside_lobby(m, code).len() implies m.contains(#[trigger] outside_lobby(m, code)[k])
            && outside_lobby(m, code)[k].1 != code by {
            if k < rest.len() {
                assert(outside_lobby(m, code)[k] == rest[k]);
                assert(t.contains(rest[k]));
                let j = choose|j: int| 0 <= j < t.len() && t[j] == rest[k];
                assert(m[j] == rest[k]);
            } else {
                assert(m[m.len() - 1] == m.last());
            }
        }
        assert forall|e: (SessionId, Seq<char>)| m.contains(e) && e.1 != code implies outside_lobby(m, code).contains(e) by {
            let j = choose|j: int| 0 <= j < m.len() && m[j] == e;
            if j < m.len() - 1 {
                assert(t[j] == e);
                assert(t.contains(e));
                assert(rest.contains(e));
                let k = choose|k: int| 0 <= k < rest.len() && rest[k] == e;
                assert(outside_lobby(m, code)[k] == e);
            } else {
                assert(outside_lobby(m, code)[rest.len() as int] == e);
            }
        }
        if one_lobby_each(m) {
            assert(one_lobby_each(t)) by {
                assert forall|i: int, j: int| 0 <= i < j < t.len() implies (#[trigger] t[i]).0 != (#[trigger] t[j]).0 by {
                    assert(t[i] == m[i] && t[j] == m[j]);
                }
            }
            let o = outside_lobby(m, code);
            assert forall|i: int, j: int| 0 <= i < j < o.len() implies (#[trigger] o[i]).0 != (#[trigger] o[j]).0 by {
                if j < rest.len() {
                    assert(o[i] == rest[i] && o[j] == rest[j]);
                } else {
                    assert(o[i] == rest[i]);
                    assert(t.contains(rest[i]));
                    let a = choose|a: int| 0 <= a < t.len() && t[a] == rest[i];
                    assert(m[a] == rest[i]);
                    assert(o[j] == m[m.len() - 1]);
                }
            }
        }
    }
}

/// The lobby message that a client message is, if it is one: `None` for the
/// messages the coordinator handles itself, and for closing a lobby, which no lobby
/// handles yet.
pub open spec fn as_lobby_message(message: ClientMessage) -> Option<LobbyMessage> {
    match message {
        ClientMessage::FetchLobbyInfo => Some(LobbyMessage::FetchLobbyInfo),
        ClientMessage::StartGame => Some(LobbyMessage::HostMessage(HostMessage::StartGame)),
        ClientMessage::StartMatch => Some(LobbyMessage::HostMessage(HostMessage::StartMatch)),
        ClientMessage::StartRound => Some(LobbyMessage::HostMessage(HostMessage::StartRound)),
        ClientMessage::TransferHost(p) => Some(LobbyMessage::HostMessage(HostMessage::TransferHost(p))),
        ClientMessage::KickPlayer(p) => Some(LobbyMessage::HostMessage(HostMessage::KickPlayer(p))),
        ClientMessage::SetSettings(s) => Some(LobbyMessage::HostMessage(HostMessage::SetSettings(s))),
        ClientMessage::AddNewRule => Some(LobbyMessage::HostMessage(HostMessage::AddNewRule)),
        ClientMessage::RemoveRule(id) => Some(LobbyMessage::HostMessage(HostMessage::RemoveRule(id))),
        ClientMessage::PerformAction(a) => Some(LobbyMessage::GameMessage(GameMessage::ActionPerformed(a))),
        _ => None,
    }
}

/// The lobby message that a client message is, if it is one: see `as_lobby_message`.
fn to_lobby_message(message: ClientMessage) -> (r: Option<LobbyMessage>)
    ensures
        r == as_lobby_message(message),
{
    match message {
        ClientMessage::FetchLobbyInfo => Some(LobbyMessage::FetchLobbyInfo),
        ClientMessage::StartGame => Some(LobbyMessage::HostMessage(HostMessage::StartGame)),
        ClientMessage::StartMatch => Some(LobbyMessage::HostMessage(HostMessage::StartMatch)),
        ClientMessage::StartRound => Some(LobbyMessage::HostMessage(HostMessage::StartRound)),
        ClientMessage::TransferHost(p) => Some(LobbyMessage::HostMessage(HostMessage::TransferHost(p))),
        ClientMessage::KickPlayer(p) => Some(LobbyMessage::HostMessage(HostMessage::KickPlayer(p))),
        ClientMessage::SetSettings(s) => Some(LobbyMessage::HostMessage(HostMessage::SetSettings(s))),
        ClientMessage::AddNewRule => Some(LobbyMessage::HostMessage(HostMessage::AddNewRule)),
        ClientMessage::RemoveRule(id) => Some(LobbyMessage::HostMessage(HostMessage::RemoveRule(id))),
        ClientMessage::PerformAction(a) => Some(LobbyMessage::GameMessage(GameMessage::ActionPerformed(a))),
        _ => None,
    }
}

impl Coordinator {
    /// The codes of the lobbies that run.
    pub closed spec fn codes(self) -> Seq<Seq<char>> {
        self.lobbies@.map_values(|c: LobbyCode| c.chars())
    }

    /// Each session that is in a lobby, with the code of its lobby.
    pub closed spec fn members(self) -> Seq<(SessionId, Seq<char>)> {
        self.session_lobby@.map_values(|e: (SessionId, LobbyCode)| (e.0, e.1.chars()))
    }

    /// The sessions that are connected.
    pub closed spec fn active(self) -> Seq<SessionId> {
        self.active_sessions@
    }

    /// No lobby runs twice, no session is in two lobbies, and no session is
    /// connected twice.
    pub open spec fn wf(self) -> bool {
        &&& distinct(self.codes())
        &&& one_lobby_each(self.members())
        &&& distinct(self.active())
    }

    /// Whether the session is in a lobby.
    pub open spec fn in_lobby(self, s: SessionId) -> bool {
        exists|i: int| 0 <= i < self.members().len() && self.members()[i].0 == s
    }

    /// The position of the session's membership.
    pub open spec fn member_pos(self, s: SessionId) -> int {
        choose|i: int| 0 <= i < self.members().len() && self.members()[i].0 == s
    }

    /// The code of the session's lobby.
    pub open spec fn lobby_of(self, s: SessionId) -> Seq<char> {
        self.members()[self.member_pos(s)].1
    }

    /// No lobbies, no sessions.
    pub fn new() -> (r: Self)
        ensures
            r.wf(),
            r.codes().len() == 0,
            r.members().len() == 0,
            r.active().len() == 0,
    {
        let r = Coordinator { lobbies: Vec::new(), session_lobby: Vec::new(), active_sessions: Vec::new() };
        assert(r.codes() =~= Seq::<Seq<char>>::empty());
        assert(r.members() =~= Seq::<(SessionId, Seq<char>)>::empty());
        r
    }

    /// The position of the session's membership, if it is in a lobby.
    fn find_member(&self, session_id: &SessionId) -> (r: Option<usize>)
        requires
            self.wf(),
        ensures
            r is None <==> !self.in_lobby(*session_id),
            r matches Some(i) ==> i == self.member_pos(*session_id) && i < self.members().len(),
    {
        let mut i: usize = 0;
        while i < self.session_lobby.len()
            invariant
                self.wf(),
                i <= self.session_lobby@.len(),
                forall|j: int| 0 <= j < i ==> self.members()[j].0 != *session_id,
            decreases self.session_lobby@.len() - i,
        {
            assert(self.members()[i as int].0 == self.session_lobby@[i as int].0);
            if self.session_lobby[i].0.same(session_id) {
                proof {
                    let k = self.member_pos(*session_id);
                    assert(0 <= k < self.members().len() && self.members()[k].0 == *session_id);
                    if k != i {
                        if k < i {
                            assert((self.members()[k]).0 != (self.members()[i as int]).0);
                        } else {
                            assert((self.members()[i as int]).0 != (self.members()[k]).0);
                        }
                    }
                }
                return Some(i);
            }
            i += 1;
        }
        None
    }

    /// The position of the lobby with this code, if it runs.
    fn find_code(&self, code: &LobbyCode) -> (r: Option<usize>)
        ensures
            r is None <==> !self.codes().contains(code.chars()),
            r matches Some(i) ==> i < self.codes().len() && self.codes()[i as int] == code.chars(),
    {
        let mut i: usize = 0;
        while i < self.lobbies.len()
            invariant
                i <= self.lobbies@.len(),
                forall|j: int| 0 <= j < i ==> self.codes()[j] != code.chars(),
            decreases self.lobbies@.len() - i,
        {
            if self.lobbies[i].0 == code.0 {
                assert(self.codes()[i as int] == code.chars());
                return Some(i);
            }
            i += 1;
        }
        None
    }

    /// Whether a lobby with this code runs.
    pub fn has_lobby(&self, code: &LobbyCode) -> (r: bool)
        ensures
            r == self.codes().contains(code.chars()),
    {
        self.find_code(code).is_some()
    }

    /// The position of the session among those connected, if it is connected.
    fn find_active(&self, session_id: &SessionId) -> (r: Option<usize>)
        ensures
            r is None <==> !self.active().contains(*session_id),
            r matches Some(i) ==> i < self.active().len() && self.active()[i as int] == *session_id,
    {
        let mut i: usize = 0;
        while i < self.active_sessions.len()
            invariant
                i <= self.active_sessions@.len(),
                forall|j: int| 0 <= j < i ==> self.active()[j] != *session_id,
            decreases self.active_sessions@.len() - i,
        {
            if self.active_sessions[i].same(session_id) {
                return Some(i);
            }
            i += 1;
        }
        None
    }

    /// Whether the session is connected.
    pub fn is_active(&self, session_id: &SessionId) -> (r: bool)
        ensures
            r == self.active().contains(*session_id),
    {
        self.find_active(session_id).is_some()
    }

    /// `out` hands `event` to the lobby of the session `s`.
    pub open spec fn tells_lobby(self, s: SessionId, event: LobbyEvent, out: CoordinatorAction) -> bool {
        &&& out matches CoordinatorAction::ToLobby(c, e)
        &&& c.chars() == self.lobby_of(s)
        &&& e == event
    }

    /// The code of the lobby of the session at this position.
    fn code_at(&self, i: usize) -> (r: LobbyCode)
        requires
            i < self.members().len(),
        ensures
            r.chars() == self.members()[i as int].1,
    {
        self.session_lobby[i].1.copied()
    }

    /// Takes the membership at position `i` away.
    fn remove_member(&mut self, i: usize)
        requires
            old(self).wf(),
            i < old(self).members().len(),
        ensures
            final(self).wf(),
            final(self).members() == old(self).members().remove(i as int),
            final(self).codes() == old(self).codes(),
            final(self).active() == old(self).active(),
    {
        let ghost before = self.members();
        self.session_lobby.remove(i);
        proof {
            assert(self.members() =~= before.remove(i as int));
            assert forall|a: int, b: int| 0 <= a < b < self.members().len() implies
                (#[trigger] self.members()[a]).0 != (#[trigger] self.members()[b]).0 by {
                let a2 = if a < i { a } else { a + 1 };
                let b2 = if b < i { b } else { b + 1 };
                assert(before[a2].0 != before[b2].0);
            }
        }
    }

    /// A lobby ended: it no longer runs, and its sessions are in no lobby.
    pub fn lobby_closed(&mut self, code: &LobbyCode)
        requires
            old(self).wf(),
        ensures
            final(self).wf(),
            !old(self).codes().contains(code.chars()) ==> final(self).codes() == old(self).codes(),
            old(self).codes().contains(code.chars()) ==> exists|i: int| 0 <= i < old(self).codes().len()
                && old(self).codes()[i] == code.chars() && final(self).codes() == old(self).codes().remove(i),
            final(self).members() == outside_lobby(old(self).members(), code.chars()),
            final(self).active() == old(self).active(),
    {
        let ghost codes0 = self.codes();
        let ghost members0 = self.members();
        if let Some(i) = self.find_code(code) {
            self.lobbies.remove(i);
            proof {
                assert(self.codes() =~= codes0.remove(i as int));
                assert forall|a: int, b: int| 0 <= a < b < self.codes().len() implies self.codes()[a] != self.codes()[b] by {
                    let a2 = if a < i { a } else { a + 1 };
                    let b2 = if b < i { b } else { b + 1 };
                    assert(codes0[a2] != codes0[b2]);
                }
            }
        }
        let mut kept: Vec<(SessionId, LobbyCode)> = Vec::new();
        let mut k: usize = 0;
        while k < self.session_lobby.len()
            invariant
                self.members() == members0,
                k <= self.session_lobby@.len(),
                kept@.map_values(|e: (SessionId, LobbyCode)| (e.0, e.1.chars())) == outside_lobby(members0.subrange(0, k as int), code.chars()),
            decreases self.session_lobby@.len() - k,
        {
            let ghost before = kept@;
            assert(members0.subrange(0, k + 1).drop_last() =~= members0.subrange(0, k as int));
            if !(self.session_lobby[k].1.0 == code.0) {
                let entry = (self.session_lobby[k].0, self.session_lobby[k].1.copied());
                kept.push(entry);
                assert(kept@.map_values(|e: (SessionId, LobbyCode)| (e.0, e.1.chars()))
                    =~= before.map_values(|e: (SessionId, LobbyCode)| (e.0, e.1.chars())).push(members0[k as int]));
            } else {
                assert(kept@ == before);
            }
            k += 1;
        }
        assert(members0.subrange(0, members0.len() as int) =~= members0);
        self.session_lobby = kept;
        proof {
            lemma_outside_lobby(members0, code.chars());
        }
    }

    /// A lobby let a session go: the session is in no lobby.
    pub fn session_released(&mut self, session_id: &SessionId)
        requires
            old(self).wf(),
        ensures
            final(self).wf(),
            final(self).codes() == old(self).codes(),
            final(self).active() == old(self).active(),
            old(self).in_lobby(*session_id) ==> final(self).members() == old(self).members().remove(old(self).member_pos(*session_id)),
            !old(self).in_lobby(*session_id) ==> final(self).members() == old(self).members(),
    {
        if let Some(i) = self.find_member(session_id) {
            self.remove_member(i);
        }
    }

    /// A session connected. Its lobby, if it is in one, is told.
    pub fn session_connected(&mut self, session_id: SessionId) -> (out: Vec<CoordinatorAction>)
        requires
            old(self).wf(),
        ensures
            final(self).wf(),
            final(self).codes() == old(self).codes(),
            final(self).members() == old(self).members(),
            old(self).active().contains(session_id) ==> final(self).active() == old(self).active(),
            !old(self).active().contains(session_id) ==> final(self).active() == old(self).active().push(session_id),
            old(self).in_lobby(session_id) ==> out@.len() == 1
                && old(self).tells_lobby(session_id, LobbyEvent::SessionConnected(session_id), out@[0]),
            !old(self).in_lobby(session_id) ==> out@.len() == 0,
    {
        if !self.is_active(&session_id) {
            let ghost before = self.active();
            self.active_sessions.push(session_id);
            assert forall|a: int, b: int| 0 <= a < b < self.active().len() implies self.active()[a] != self.active()[b] by {
                assert(self.active()[a] == before[a]);
                if b == before.len() {
                    assert(self.active()[b] == session_id);
                    assert(before.contains(before[a]));
                } else {
                    assert(self.active()[b] == before[b]);
                }
            }
        }
        let mut out: Vec<CoordinatorAction> = Vec::new();
        if let Some(i) = self.find_member(&session_id) {
            out.push(CoordinatorAction::ToLobby(self.code_at(i), LobbyEvent::SessionConnected(session_id)));
        }
        out
    }

    /// A session's connection went away. Its lobby, if it is in one, is told.
    pub fn session_disconnected(&mut self, session_id: SessionId) -> (out: Vec<CoordinatorAction>)
        requires
            old(self).wf(),
        ensures
            final(self).wf(),
            final(self).codes() == old(self).codes(),
            final(self).members() == old(self).members(),
            !final(self).active().contains(session_id),
            forall|q: SessionId| q != session_id ==> (final(self).active().contains(q) <==> old(self).active().contains(q)),
            old(self).in_lobby(session_id) ==> out@.len() == 1
                && old(self).tells_lobby(session_id, LobbyEvent::SessionOffline(session_id), out@[0]),
            !old(self).in_lobby(session_id) ==> out@.len() == 0,
    {
        let ghost active0 = self.active();
        if let Some(i) = self.find_active(&session_id) {
            self.active_sessions.remove(i);
            proof {
                assert(self.active() =~= active0.remove(i as int));
                assert forall|a: int, b: int| 0 <= a < b < self.active().len() implies self.active()[a] != self.active()[b] by {
                    let a2 = if a < i { a } else { a + 1 };
                    let b2 = if b < i { b } else { b + 1 };
                    assert(active0[a2] != active0[b2]);
                }
                assert forall|q: SessionId| q != session_id implies (self.active().contains(q) <==> active0.contains(q)) by {
                    if active0.contains(q) {
                        let j = choose|j: int| 0 <= j < active0.len() && active0[j] == q;
                        assert(j != i);
                        let j2 = if j < i { j } else { j - 1 };
                        assert(self.active()[j2] == q);
                    }
                    if self.active().contains(q) {
                        let j = choose|j: int| 0 <= j < self.active().len() && self.active()[j] == q;
                        let j2 = if j < i { j } else { j + 1 };
                        assert(active0[j2] == q);
                    }
                }
                assert(!self.active().contains(session_id)) by {
                    if self.active().contains(session_id) {
                        let j = choose|j: int| 0 <= j < self.active().len() && self.active()[j] == session_id;
                        let j2 = if j < i { j } else { j + 1 };
                        assert(active0[j2] == session_id);
                        assert(active0[i as int] == session_id);
                    }
                }
            }
        }
        let mut out: Vec<CoordinatorAction> = Vec::new();
        if let Some(k) = self.find_member(&session_id) {
            out.push(CoordinatorAction::ToLobby(self.code_at(k), LobbyEvent::SessionOffline(session_id)));
        }
        out
    }

    /// Nothing changed, and the session is answered with the error `e`.
    pub open spec fn answered(self, s: SessionId, e: ErrorMessage, after: Coordinator, out: Seq<CoordinatorAction>) -> bool {
        &&& after == self
        &&& out == seq![CoordinatorAction::SendToSession(s, ServerMessage::Error(e))]
    }

    /// What a client's message did: see `Coordinator::client_message`.
    pub open spec fn client_message_post(self, s: SessionId, message: ClientMessage, after: Coordinator, out: Seq<CoordinatorAction>) -> bool {
        match message {
            ClientMessage::JoinLobby(code) => if self.in_lobby(s) {
                self.answered(s, ErrorMessage::AlreadyInLobby, after, out)
            } else if !self.codes().contains(code.chars()) {
                self.answered(s, ErrorMessage::LobbyDoesNotExist, after, out)
            } else {
                &&& after.codes() == self.codes()
                &&& after.active() == self.active()
                &&& after.members() == self.members().push((s, code.chars()))
                &&& out.len() == 1
                &&& out[0] matches CoordinatorAction::ToLobby(c, LobbyEvent::SessionConnected(q))
                &&& c.chars() == code.chars()
                &&& q == s
            },
            ClientMessage::LeaveLobby => if !self.in_lobby(s) {
                self.answered(s, ErrorMessage::NotInLobby, after, out)
            } else {
                &&& after.codes() == self.codes()
                &&& after.active() == self.active()
                &&& after.members() == self.members().remove(self.member_pos(s))
                &&& out.len() == 2
                &&& self.tells_lobby(s, LobbyEvent::Message { session_id: s, message: LobbyMessage::LeaveLobby }, out[0])
                &&& out[1] == CoordinatorAction::SendToSession(s, ServerMessage::LeftLobby(LeftLobbyReason::Left))
            },
            _ => if !self.in_lobby(s) {
                self.answered(s, ErrorMessage::NotInLobby, after, out)
            } else {
                &&& after == self
                &&& as_lobby_message(message) is None ==> out.len() == 0
                &&& as_lobby_message(message) matches Some(m) ==> out.len() == 1
                    && self.tells_lobby(s, LobbyEvent::Message { session_id: s, message: m }, out[0])
            },
        }
    }

    /// Handles a message of a connected client, other than asking to host a lobby
    /// (see `Coordinator::host_lobby`): joining a lobby, leaving it, or a message for
    /// the lobby the session is in. Returns what is to be sent and handed on, in order.
    pub fn client_message(&mut self, session_id: SessionId, message: ClientMessage) -> (out: Vec<CoordinatorAction>)
        requires
            old(self).wf(),
            old(self).active().contains(session_id),
            !(message is HostLobby),
        ensures
            final(self).wf(),
            old(self).client_message_post(session_id, message, *final(self), out@),
    {
        let mut out: Vec<CoordinatorAction> = Vec::new();
        let member = self.find_member(&session_id);
        match message {
            ClientMessage::JoinLobby(lobby_code) => {
                if member.is_some() {
                    out.push(CoordinatorAction::SendToSession(session_id, ServerMessage::Error(ErrorMessage::AlreadyInLobby)));
                    return out;
                }
                if !self.has_lobby(&lobby_code) {
                    out.push(CoordinatorAction::SendToSession(session_id, ServerMessage::Error(ErrorMessage::LobbyDoesNotExist)));
                    return out;
                }
                out.push(CoordinatorAction::ToLobby(lobby_code.copied(), LobbyEvent::SessionConnected(session_id)));
                let ghost before = self.members();
                self.session_lobby.push((session_id, lobby_code));
                proof {
                    assert(self.members() =~= before.push((session_id, lobby_code.chars())));
                    assert forall|a: int, b: int| 0 <= a < b < self.members().len() implies
                        (#[trigger] self.members()[a]).0 != (#[trigger] self.members()[b]).0 by {
                        assert(self.members()[a] == before[a]);
                        if b < before.len() {
                            assert(self.members()[b] == before[b]);
                        } else {
                            assert(self.members()[b].0 == session_id);
                        }
                    }
                }
            },
            ClientMessage::LeaveLobby => {
                match member {
                    None => {
                        out.push(CoordinatorAction::SendToSession(session_id, ServerMessage::Error(ErrorMessage::NotInLobby)));
                    },
                    Some(i) => {
                        out.push(CoordinatorAction::ToLobby(
                            self.code_at(i),
                            LobbyEvent::Message { session_id, message: LobbyMessage::LeaveLobby },
                        ));
                        self.remove_member(i);
                        out.push(CoordinatorAction::SendToSession(session_id, ServerMessage::LeftLobby(LeftLobbyReason::Left)));
                    },
                }
            },
            message => {
                let lobby_message = to_lobby_message(message);
                match member {
                    None => {
                        out.push(CoordinatorAction::SendToSession(session_id, ServerMessage::Error(ErrorMessage::NotInLobby)));
                    },
                    Some(i) => {
                        if let Some(m) = lobby_message {
                            out.push(CoordinatorAction::ToLobby(self.code_at(i), LobbyEvent::Message { session_id, message: m }));
                        }
                    },
                }
            },
        }
        out
    }

    /// A connected client asks to host a lobby, under `code`, a code that no running
    /// lobby has. Unless the session is in a lobby already, the lobby starts with the
    /// session as its host.
    pub fn host_lobby(&mut self, session_id: SessionId, code: LobbyCode) -> (out: Vec<CoordinatorAction>)
        requires
            old(self).wf(),
            old(self).active().contains(session_id),
            !old(self).codes().contains(code.chars()),
        ensures
            final(self).wf(),
            old(self).in_lobby(session_id) ==> old(self).answered(session_id, ErrorMessage::AlreadyInLobby, *final(self), out@),
            !old(self).in_lobby(session_id) ==> {
                &&& final(self).codes() == old(self).codes().push(code.chars())
                &&& final(self).members() == old(self).members().push((session_id, code.chars()))
                &&& final(self).active() == old(self).active()
                &&& out@.len() == 1
                &&& out@[0] matches CoordinatorAction::StartLobby(c, q)
                &&& c.chars() == code.chars()
                &&& q == session_id
            },
    {
        let mut out: Vec<CoordinatorAction> = Vec::new();
        if self.find_member(&session_id).is_some() {
            out.push(CoordinatorAction::SendToSession(session_id, ServerMessage::Error(ErrorMessage::AlreadyInLobby)));
            return out;
        }
        out.push(CoordinatorAction::StartLobby(code.copied(), session_id));
        let ghost codes0 = self.codes();
        let ghost before = self.members();
        self.lobbies.push(code.copied());
        self.session_lobby.push((session_id, code));
        proof {
            assert(self.codes() =~= codes0.push(code.chars()));
            assert forall|a: int, b: int| 0 <= a < b < self.codes().len() implies self.codes()[a] != self.codes()[b] by {
                assert(self.codes()[a] == codes0[a]);
                if b < codes0.len() {
                    assert(self.codes()[b] == codes0[b]);
                } else {
                    assert(codes0.contains(codes0[a]));
                }
            }
            assert(self.members() =~= before.push((session_id, code.chars())));
            assert forall|a: int, b: int| 0 <= a < b < self.members().len() implies
                (#[trigger] self.members()[a]).0 != (#[trigger] self.members()[b]).0 by {
                assert(self.members()[a] == before[a]);
                if b < before.len() {
                    assert(self.members()[b] == before[b]);
                } else {
                    assert(self.members()[b].0 == session_id);
                }
            }
        }
        out
    }

    /// The server shuts down: every connected session is told, in the order they
    /// connected.
    pub fn server_shutdown(&self) -> (out: Vec<CoordinatorAction>)
        ensures
            out@.len() == self.active().len(),
            forall|i: int| 0 <= i < out@.len() ==> out@[i] == CoordinatorAction::SendToSession(#[trigger] self.active()[i], ServerMessage::ServerClosed),
    {
        let mut out: Vec<CoordinatorAction> = Vec::new();
        for i in 0..self.active_sessions.len()
            invariant
                out@.len() == i,
                forall|j: int| 0 <= j < i ==> out@[j] == CoordinatorAction::SendToSession(#[trigger] self.active()[j], ServerMessage::ServerClosed),
        {
            out.push(CoordinatorAction::SendToSession(self.active_sessions[i], ServerMessage::ServerClosed));
        }
        out
    }
}

} // verus!
