//! The players of a lobby, their public ids and the sessions behind them, and the
//! lobby's own state machine.
use vstd::prelude::*;

use crate::{ErrorMessage, ServerMessage, SessionId};
use crate::game::{GameInfo, GameMessage, GameState, LobbySettings, StartMatchError, active_settings_of, default_lobby_settings};
use crate::random::random_below;
use crate::rules::{RuleInfo, add_rule_post, starting_rules};
use vstd::string::StringExecFns;

verus! {

/// The public incremental id everyone in the lobby knows.
#[derive(Clone, Copy, Debug, PartialEq, Eq, Structural, PartialOrd, Ord, Hash)]
pub struct PlayerId(pub usize);

impl From<usize> for PlayerId {
    fn from(value: usize) -> (r: Self) {
        PlayerId(value)
    }
}

impl vstd::std_specs::convert::FromSpecImpl<usize> for PlayerId {
    open spec fn obeys_from_spec() -> bool {
        true
    }

    open spec fn from_spec(v: usize) -> Self {
        PlayerId(v)
    }
}


/// The ids of entries, in order.
pub open spec fn entry_ids(entries: Seq<(PlayerId, SessionId)>) -> Seq<PlayerId> {
    entries.map_values(|e: (PlayerId, SessionId)| e.0)
}

/// The players of a lobby and the sessions behind them, and the host.
pub struct LobbyPlayers {
    host: PlayerId,
    /// next public player id, for incremental assignment
    next_player_id: usize,
    /// each player with their session, in increasing order of the player ids
    players: Vec<(PlayerId, SessionId)>,
}

/// Why a player could not be added.
pub enum LobbyPlayersInsertError {
    PlayerAlreadyExists,
    SessionAlreadyExists,
    PlayerAndSessionAlreadyExists,
}

/// Why a player could not be removed.
#[derive(Clone, Copy, Debug, PartialEq, Eq, Structural)]
pub enum RemovePlayerError {
    NoPlayersLeft,
    SessionDoesNotExist,
}

impl LobbyPlayers {
    /// Each player with their session, in increasing order of the player ids.
    pub closed spec fn entries(self) -> Seq<(PlayerId, SessionId)> {
        self.players@
    }

    /// The host.
    pub closed spec fn host_id(self) -> PlayerId {
        self.host
    }

    /// The id the next player to join gets.
    pub closed spec fn next_id(self) -> usize {
        self.next_player_id
    }

    /// The players, in increasing order of their ids.
    pub open spec fn ids(self) -> Seq<PlayerId> {
        entry_ids(self.entries())
    }

    /// The position of the entry with a session.
    pub open spec fn session_pos(self, s: SessionId) -> int {
        choose|i: int| 0 <= i < self.entries().len() && self.entries()[i].1 == s
    }

    /// Whether a session belongs to a player of the lobby.
    pub open spec fn has_session(self, s: SessionId) -> bool {
        exists|i: int| 0 <= i < self.entries().len() && self.entries()[i].1 == s
    }

    /// Ids increase along the entries and stay below the next id, no session occurs
    /// twice, there is at least one player, and the host is one of them.
    pub open spec fn wf(self) -> bool {
        &&& self.entries().len() > 0
        &&& forall|i: int, j: int| 0 <= i < j < self.entries().len() ==> (#[trigger] self.entries()[i]).0.0 < (#[trigger] self.entries()[j]).0.0
        &&& forall|i: int| 0 <= i < self.entries().len() ==> (#[trigger] self.entries()[i]).0.0 < self.next_id()
        &&& forall|i: int, j: int| 0 <= i < j < self.entries().len() ==> (#[trigger] self.entries()[i]).1 != (#[trigger] self.entries()[j]).1
        &&& self.ids().contains(self.host_id())
    }

    /// A lobby with the host alone, as player 0.
    pub fn new(host_session: SessionId) -> (r: Self)
        ensures
            r.wf(),
            r.host_id() == PlayerId(0),
            r.next_id() == 1,
            r.entries() == seq![(PlayerId(0), host_session)],
    {
        let host = PlayerId(0);
        let mut players = Vec::new();
        players.push((host, host_session));
        let r = LobbyPlayers { host, next_player_id: 1, players };
        assert(r.entries() =~= seq![(PlayerId(0), host_session)]);
        assert(r.ids()[0] == host);
        r
    }

    /// The number of players.
    pub fn len(&self) -> (n: usize)
        ensures
            n == self.entries().len(),
    {
        self.players.len()
    }

    fn find_session(&self, session_id: &SessionId) -> (r: Option<usize>)
        requires
            self.wf(),
        ensures
            r is None <==> !self.has_session(*session_id),
            r matches Some(i) ==> i < self.entries().len() && self.entries()[i as int].1 == *session_id
                && i == self.session_pos(*session_id),
    {
        let mut i: usize = 0;
        while i < self.players.len()
            invariant
                self.wf(),
                i <= self.players@.len(),
                forall|j: int| 0 <= j < i ==> self.players@[j].1 != *session_id,
            decreases self.players@.len() - i,
        {
            if self.players[i].1.same(session_id) {
                proof {
                    let k = self.session_pos(*session_id);
                    assert(0 <= i < self.entries().len() && self.entries()[i as int].1 == *session_id);
                    assert(0 <= k < self.entries().len() && self.entries()[k].1 == *session_id);
                    if k != i {
                        if k < i {
                            assert(self.entries()[k].1 != self.entries()[i as int].1);
                        } else {
                            assert(self.entries()[i as int].1 != self.entries()[k].1);
                        }
                    }
                }
                return Some(i);
            }
            i += 1;
        }
        None
    }

    /// returns Err if the session already exists, and its corresponding player_id
    pub fn add_player(&mut self, session_id: SessionId) -> (r: Result<PlayerId, PlayerId>)
        requires
            old(self).wf(),
            old(self).next_id() < usize::MAX,
        ensures
            final(self).wf(),
            old(self).has_session(session_id) ==> r == Err::<PlayerId, PlayerId>(old(self).entries()[old(self).session_pos(session_id)].0)
                && *final(self) == *old(self),
            !old(self).has_session(session_id) ==> r == Ok::<PlayerId, PlayerId>(PlayerId(old(self).next_id()))
                && final(self).entries() == old(self).entries().push((PlayerId(old(self).next_id()), session_id))
                && final(self).next_id() == old(self).next_id() + 1
                && final(self).host_id() == old(self).host_id(),
    {
        if let Some(i) = self.find_session(&session_id) {
            return Err(self.players[i].0);
        }
        let player_id = PlayerId(self.next_player_id);
        self.next_player_id += 1;
        let ghost before = self.players@;
        self.players.push((player_id, session_id));
        proof {
            assert forall|i: int| 0 <= i < self.entries().len() implies (#[trigger] self.entries()[i]).0.0 < self.next_id() by {
                if i < before.len() {
                    assert(self.entries()[i] == before[i]);
                }
            }
            assert forall|i: int, j: int| 0 <= i < j < self.entries().len() implies (#[trigger] self.entries()[i]).0.0 < (#[trigger] self.entries()[j]).0.0 by {
                assert(self.entries()[i] == before[i]);
                if j < before.len() {
                    assert(self.entries()[j] == before[j]);
                }
            }
            assert forall|i: int, j: int| 0 <= i < j < self.entries().len() implies (#[trigger] self.entries()[i]).1 != (#[trigger] self.entries()[j]).1 by {
                assert(self.entries()[i] == before[i]);
                if j < before.len() {
                    assert(self.entries()[j] == before[j]);
                }
            }
            let hi = choose|k: int| 0 <= k < before.len() && entry_ids(before)[k] == self.host;
            assert(self.ids()[hi] == self.host);
        }
        Ok(player_id)
    }

    /// The host.
    pub fn host(&self) -> (h: PlayerId)
        ensures
            h == self.host_id(),
    {
        self.host
    }

    /// Whether a player is in the lobby.
    pub fn contains_player(&self, player: &PlayerId) -> (r: bool)
        ensures
            r == self.ids().contains(*player),
    {
        let mut i: usize = 0;
        while i < self.players.len()
            invariant
                i <= self.players@.len(),
                forall|j: int| 0 <= j < i ==> self.players@[j].0 != *player,
            decreases self.players@.len() - i,
        {
            if self.players[i].0 == *player {
                assert(self.ids()[i as int] == *player);
                return true;
            }
            i += 1;
        }
        assert forall|j: int| 0 <= j < self.ids().len() implies self.ids()[j] != *player by {
            assert(self.ids()[j] == self.players@[j].0);
        }
        false
    }

    /// returns Some(old_host) if the host was replaced, else None
    ///
    /// The host will not be replaced if new_host isn't a valid player that exists
    pub fn set_host(&mut self, new_host: PlayerId) -> (r: Option<PlayerId>)
        requires
            old(self).wf(),
        ensures
            final(self).wf(),
            final(self).entries() == old(self).entries(),
            final(self).next_id() == old(self).next_id(),
            (old(self).host_id() == new_host || !old(self).ids().contains(new_host)) ==> r is None
                && *final(self) == *old(self),
            !(old(self).host_id() == new_host || !old(self).ids().contains(new_host)) ==> r == Some(old(self).host_id())
                && final(self).host_id() == new_host,
    {
        if self.host == new_host || !self.contains_player(&new_host) {
            None
        } else {
            let old_host = self.host;
            self.host = new_host;
            Some(old_host)
        }
    }

    /// The players, in increasing order of their ids.
    pub fn players(&self) -> (r: Vec<PlayerId>)
        ensures
            r@ == self.ids(),
    {
        let mut r: Vec<PlayerId> = Vec::new();
        for i in 0..self.players.len()
            invariant
                r@ == self.ids().subrange(0, i as int),
        {
            r.push(self.players[i].0);
            assert(r@ =~= self.ids().subrange(0, i + 1));
        }
        assert(r@ =~= self.ids());
        r
    }

    /// The player whose session this is, if any.
    pub fn get_player_id(&self, session_id: &SessionId) -> (r: Option<&PlayerId>)
        requires
            self.wf(),
        ensures
            r is None <==> !self.has_session(*session_id),
            r matches Some(p) ==> *p == self.entries()[self.session_pos(*session_id)].0,
    {
        match self.find_session(session_id) {
            Some(i) => Some(&self.players[i].0),
            None => None,
        }
    }

    /// The sessions of the players, in increasing order of the player ids.
    pub fn session_tx_values(&self) -> (r: Vec<SessionId>)
        ensures
            r@ == self.entries().map_values(|e: (PlayerId, SessionId)| e.1),
    {
        let mut r: Vec<SessionId> = Vec::new();
        for i in 0..self.players.len()
            invariant
                r@ == self.entries().subrange(0, i as int).map_values(|e: (PlayerId, SessionId)| e.1),
        {
            r.push(self.players[i].1);
            assert(r@ =~= self.entries().subrange(0, i + 1).map_values(|e: (PlayerId, SessionId)| e.1));
        }
        assert(self.entries().subrange(0, self.entries().len() as int) =~= self.entries());
        r
    }

    /// return Err if it didn't remove as this was the last player and now all players are gone,
    /// and there's noone to set as host. When the host leaves, the player with the
    /// lowest id becomes host.
    pub fn remove_by_session_id(&mut self, session_id: &SessionId) -> (r: Result<PlayerId, RemovePlayerError>)
        requires
            old(self).wf(),
        ensures
            final(self).wf(),
            final(self).next_id() == old(self).next_id(),
            old(self).entries().len() <= 1 ==> r == Err::<PlayerId, RemovePlayerError>(RemovePlayerError::NoPlayersLeft)
                && *final(self) == *old(self),
            old(self).entries().len() > 1 && !old(self).has_session(*session_id) ==> r == Err::<PlayerId, RemovePlayerError>(RemovePlayerError::SessionDoesNotExist)
                && *final(self) == *old(self),
            old(self).entries().len() > 1 && old(self).has_session(*session_id) ==> ({
                let i = old(self).session_pos(*session_id);
                let gone = old(self).entries()[i].0;
                &&& r == Ok::<PlayerId, RemovePlayerError>(gone)
                &&& final(self).entries() == old(self).entries().remove(i)
                &&& final(self).host_id() == if gone == old(self).host_id() { final(self).entries()[0].0 } else { old(self).host_id() }
            }),
    {
        if self.players.len() <= 1 {
            return Err(RemovePlayerError::NoPlayersLeft);
        }
        let i = match self.find_session(session_id) {
            Some(i) => i,
            None => {
                return Err(RemovePlayerError::SessionDoesNotExist);
            },
        };
        let ghost before = self.players@;
        let ghost old_host = self.host;
        let (player_id, _session) = self.players.remove(i);
        proof {
            assert forall|a: int| 0 <= a < self.entries().len() implies #[trigger] self.entries()[a] == before[if a < i { a } else { a + 1 }] by {}
            assert forall|a: int, b: int| 0 <= a < b < self.entries().len() implies (#[trigger] self.entries()[a]).0.0 < (#[trigger] self.entries()[b]).0.0 by {
                let a2 = if a < i { a } else { a + 1 };
                let b2 = if b < i { b } else { b + 1 };
                assert(before[a2].0.0 < before[b2].0.0);
            }
            assert forall|a: int, b: int| 0 <= a < b < self.entries().len() implies (#[trigger] self.entries()[a]).1 != (#[trigger] self.entries()[b]).1 by {
                let a2 = if a < i { a } else { a + 1 };
                let b2 = if b < i { b } else { b + 1 };
                assert(before[a2].1 != before[b2].1);
            }
            assert forall|a: int| 0 <= a < self.entries().len() implies (#[trigger] self.entries()[a]).0.0 < self.next_id() by {
                let a2 = if a < i { a } else { a + 1 };
                assert(before[a2].0.0 < self.next_id());
            }
        }
        if player_id == self.host {
            self.host = self.players[0].0;
            assert(self.ids()[0] == self.host);
        } else {
            proof {
                let k = choose|k: int| 0 <= k < before.len() && entry_ids(before)[k] == old_host;
                assert(k != i);
                let k2 = if k < i { k } else { k - 1 };
                assert(self.ids()[k2] == old_host);
            }
        }
        Ok(player_id)
    }
}

/// A code that identifies a lobby, for players to join it by.
#[derive(Clone, Debug, PartialEq, Eq, Hash)]
pub struct LobbyCode(pub String);


/// A message that a lobby sends itself after a delay.
#[derive(Clone, Copy, Debug, PartialEq, Eq, Structural)]
pub enum AutoMessage {
    /// the player took too long to act
    ActionTimeout(PlayerId),
    AutoStartMatch,
    AutoStartRound,
}

/// What the lobby asks of the world around it, in order.
pub enum Outgoing {
    /// send a message to one online player
    SendToPlayer(PlayerId, ServerMessage),
    /// send a message to all online players
    Broadcast(ServerMessage),
    /// deliver `message` to the lobby itself after `delay_ms` milliseconds
    Schedule { delay_ms: u64, message: AutoMessage },
    /// start delivering messages to the player over the connection they just opened
    ConnectPlayer(PlayerId),
    /// stop delivering messages to the player
    DisconnectPlayer(PlayerId),
    /// stop forwarding the session's messages to this lobby
    ReleaseSession(SessionId),
    /// send a message over the connection of a session that is not a player
    SendToSession(SessionId, ServerMessage),
}

/// Why a player left a lobby.
#[derive(Clone, Copy, Debug, PartialEq, Eq, Structural)]
pub enum LeftLobbyReason {
    Left,
    KickedByHost,
    Disconnected,
}

/// A lobby as a player is told of it on connecting.
pub struct LobbyInfo {
    pub you: PlayerId,
    pub lobby_code: LobbyCode,
    pub players: Vec<PlayerId>,
    pub host: PlayerId,
    pub settings: LobbySettings,
    pub current_game: Option<GameInfo>,
}

/// The symbols that lobby codes are made of: the capital letters and digits, without
/// those easily mistaken for one another (I, O, 0, 1).
pub open spec fn code_symbols() -> Seq<char> {
    seq!['A', 'B', 'C', 'D', 'E', 'F', 'G', 'H', 'J', 'K', 'L', 'M', 'N', 'P', 'Q', 'R', 'S', 'T', 'U', 'V', 'W', 'X', 'Y', 'Z', '2', '3', '4', '5', '6', '7', '8', '9']
}

/// The symbol at a position of `code_symbols`, as a string.
fn symbol_str(index: usize) -> (s: &'static str)
    requires
        index < 32,
    ensures
        s@ == seq![code_symbols()[index as int]],
{
    match index {
        0 => {
            proof {
                reveal_strlit("A");
            }
            "A"
        },
        1 => {
            proof {
                reveal_strlit("B");
            }
            "B"
        },
        2 => {
            proof {
                reveal_strlit("C");
            }
            "C"
        },
        3 => {
            proof {
                reveal_strlit("D");
            }
            "D"
        },
        4 => {
            proof {
                reveal_strlit("E");
            }
            "E"
        },
        5 => {
            proof {
                reveal_strlit("F");
            }
            "F"
        },
        6 => {
            proof {
                reveal_strlit("G");
            }
            "G"
        },
        7 => {
            proof {
                reveal_strlit("H");
            }
            "H"
        },
        8 => {
            proof {
                reveal_strlit("J");
            }
            "J"
        },
        9 => {
            proof {
                reveal_strlit("K");
            }
            "K"
        },
        10 => {
            proof {
                reveal_strlit("L");
            }
            "L"
        },
        11 => {
            proof {
                reveal_strlit("M");
            }
            "M"
        },
        12 => {
            proof {
                reveal_strlit("N");
            }
            "N"
        },
        13 => {
            proof {
                reveal_strlit("P");
            }
            "P"
        },
        14 => {
            proof {
                reveal_strlit("Q");
            }
            "Q"
        },
        15 => {
            proof {
                reveal_strlit("R");
            }
            "R"
        },
        16 => {
            proof {
                reveal_strlit("S");
            }
            "S"
        },
        17 => {
            proof {
                reveal_strlit("T");
            }
            "T"
        },
        18 => {
            proof {
                reveal_strlit("U");
            }
            "U"
        },
        19 => {
            proof {
                reveal_strlit("V");
            }
            "V"
        },
        20 => {
            proof {
                reveal_strlit("W");
            }
            "W"
        },
        21 => {
            proof {
                reveal_strlit("X");
            }
            "X"
        },
        22 => {
            proof {
                reveal_strlit("Y");
            }
            "Y"
        },
        23 => {
            proof {
                reveal_strlit("Z");
            }
            "Z"
        },
        24 => {
            proof {
                reveal_strlit("2");
            }
            "2"
        },
        25 => {
            proof {
                reveal_strlit("3");
            }
            "3"
        },
        26 => {
            proof {
                reveal_strlit("4");
            }
            "4"
        },
        27 => {
            proof {
                reveal_strlit("5");
            }
            "5"
        },
        28 => {
            proof {
                reveal_strlit("6");
            }
            "6"
        },
        29 => {
            proof {
                reveal_strlit("7");
            }
            "7"
        },
        30 => {
            proof {
                reveal_strlit("8");
            }
            "8"
        },
        _ => {
            proof {
                reveal_strlit("9");
            }
            "9"
        },
    }
}

impl LobbyCode {
    /// The characters of the code.
    pub open spec fn chars(self) -> Seq<char> {
        self.0@
    }

    /// A random code of six symbols of `code_symbols`.
    pub fn new() -> (code: Self)
        ensures
            code.chars().len() == 6,
            forall|i: int| 0 <= i < 6 ==> code_symbols().contains(#[trigger] code.chars()[i]),
    {
        let mut code = String::new();
        for _k in 0..6
            invariant
                code@.len() == _k,
                forall|i: int| 0 <= i < code@.len() ==> code_symbols().contains(#[trigger] code@[i]),
        {
            let index = random_below(32);
            let symbol = symbol_str(index);
            let ghost before = code@;
            code.append(symbol);
            proof {
                assert(code@ =~= before + seq![code_symbols()[index as int]]);
                assert(code@[code@.len() - 1] == code_symbols()[index as int]);
                assert forall|i: int| 0 <= i < code@.len() implies code_symbols().contains(#[trigger] code@[i]) by {
                    if i < before.len() {
                        assert(code@[i] == before[i]);
                    } else {
                        assert(code_symbols()[index as int] == code@[i]);
                    }
                }
            }
        }
        LobbyCode(code)
    }

    /// A copy of the code.
    pub fn copied(&self) -> (c: Self)
        ensures
            c.chars() == self.chars(),
    {
        LobbyCode(self.0.clone())
    }
}

/// A message of a player to their lobby.
pub enum LobbyMessage {
    LeaveLobby,
    FetchLobbyInfo,
    GameMessage(GameMessage),
    HostMessage(HostMessage),
}

/// A message that only the host of a lobby may send.
pub enum HostMessage {
    StartGame,
    StartMatch,
    StartRound,
    AddNewRule,
    RemoveRule(usize),
    TransferHost(PlayerId),
    // not implemented
    // AddBot,
    KickPlayer(PlayerId),
    SetSettings(LobbySettings),
}

/// A lobby: its code, its players, its settings, and its game if one is on. It
/// decides; what it decides to send, schedule and connect comes back as a list of
/// `Outgoing`, in order.
pub struct Lobby {
    pub lobby_code: LobbyCode,
    pub players: LobbyPlayers,
    pub settings: LobbySettings,
    pub game_state: Option<GameState>,
}

/// The answer to a host whose match could not start for too many cards per player.
pub open spec fn too_many_cards_text() -> Seq<char> {
    "Failed to start round, settings.n_cards_per_player too high for card pool"@
}

/// The answer to a host whose match could not start for too few players.
pub open spec fn too_few_players_text() -> Seq<char> {
    "Failed to start round, too few players in lobby (requires a minimum of 3)"@
}

/// The answer to a session that tried to join a lobby that is full.
pub open spec fn lobby_full_text() -> Seq<char> {
    "Failed to join lobby, the lobby is full"@
}

/// The answer to a host who tried to hand the lobby over to no player of it.
pub open spec fn invalid_host_text() -> Seq<char> {
    "Invalid host transfer recipient"@
}

impl Lobby {
    /// The players are well formed, and so is the game if one is on.
    pub open spec fn wf(self) -> bool {
        &&& self.players.wf()
        &&& self.game_state matches Some(g) ==> g.wf()
    }

    /// The player whose session this is.
    pub open spec fn player_of(self, s: SessionId) -> PlayerId {
        self.players.entries()[self.players.session_pos(s)].0
    }

    /// `info` tells `you` of this lobby.
    pub open spec fn describes(self, info: LobbyInfo, you: PlayerId) -> bool {
        &&& info.you == you
        &&& info.lobby_code.chars() == self.lobby_code.chars()
        &&& info.players@ == self.players.ids()
        &&& info.host == self.players.host_id()
        &&& info.settings == self.settings
        &&& info.current_game is Some <==> self.game_state is Some
        &&& info.current_game matches Some(gi) ==> self.game_state->0.described_by(gi)
    }

    /// `after` is this lobby but for its game.
    pub open spec fn same_but_game(self, after: Lobby) -> bool {
        &&& after.lobby_code == self.lobby_code
        &&& after.players == self.players
        &&& after.settings == self.settings
    }

    /// Nothing changed, and `p` alone is answered with the error `e`.
    pub open spec fn refused(self, p: PlayerId, e: ErrorMessage, after: Lobby, out: Seq<Outgoing>) -> bool {
        &&& after == self
        &&& out == seq![Outgoing::SendToPlayer(p, ServerMessage::Error(e))]
    }

    /// Nothing changed, and `p` alone is answered with an error that says `text`.
    pub open spec fn refused_with(self, p: PlayerId, text: Seq<char>, after: Lobby, out: Seq<Outgoing>) -> bool {
        &&& after == self
        &&& out.len() == 1
        &&& out[0] matches Outgoing::SendToPlayer(q, ServerMessage::Error(ErrorMessage::Other(s)))
        &&& q == p
        &&& s@ == text
    }

    /// A new lobby with its host alone, as player 0, the default settings and no game.
    pub fn new(lobby_code: LobbyCode, host_session: SessionId) -> (r: Self)
        ensures
            r.wf(),
            r.lobby_code == lobby_code,
            r.players.entries() == seq![(PlayerId(0), host_session)],
            r.players.host_id() == PlayerId(0),
            r.players.next_id() == 1,
            r.settings == default_lobby_settings(),
            r.game_state is None,
    {
        Lobby {
            lobby_code,
            players: LobbyPlayers::new(host_session),
            settings: LobbySettings::default(),
            game_state: None,
        }
    }

    /// The lobby as `player` is told of it.
    pub fn info(&self, player: PlayerId) -> (r: LobbyInfo)
        requires
            self.wf(),
        ensures
            self.describes(r, player),
    {
        LobbyInfo {
            you: player,
            lobby_code: self.lobby_code.copied(),
            players: self.players.players(),
            host: self.players.host(),
            settings: self.settings,
            current_game: match &self.game_state {
                Some(state) => Some(state.info()),
                None => None,
            },
        }
    }

    /// Whether another player can still be given an id.
    pub fn can_add_player(&self) -> (r: bool)
        ensures
            r == (self.players.next_id() < usize::MAX),
    {
        self.players.next_player_id < usize::MAX
    }

    /// A session connected: a new player joins, or a player of the lobby is back
    /// online. Those online are told first; then the player's connection is taken
    /// into use, and the player is told of the lobby. A new session finding the lobby
    /// full (`max_players` players) is told so and let go, and the players stay.
    pub fn session_connected(&mut self, session_id: SessionId) -> (out: Vec<Outgoing>)
        requires
            old(self).wf(),
            old(self).players.next_id() < usize::MAX,
        ensures
            final(self).wf(),
            final(self).lobby_code == old(self).lobby_code,
            final(self).settings == old(self).settings,
            final(self).game_state == old(self).game_state,
            old(self).players.has_session(session_id) ==> {
                let p = old(self).player_of(session_id);
                &&& final(self).players == old(self).players
                &&& out@.len() == 3
                &&& out@[0] == Outgoing::Broadcast(ServerMessage::PlayerBackOnline(p))
                &&& out@[1] == Outgoing::ConnectPlayer(p)
                &&& out@[2] matches Outgoing::SendToPlayer(q, ServerMessage::ConnectedToLobby(info))
                &&& q == p
                &&& final(self).describes(info, p)
            },
            !old(self).players.has_session(session_id)
                && old(self).players.entries().len() >= old(self).settings.max_players ==> {
                &&& final(self).players == old(self).players
                &&& out@.len() == 2
                &&& out@[0] matches Outgoing::SendToSession(s, ServerMessage::Error(ErrorMessage::Other(text)))
                &&& s == session_id
                &&& text@ == lobby_full_text()
                &&& out@[1] == Outgoing::ReleaseSession(session_id)
            },
            !old(self).players.has_session(session_id)
                && old(self).players.entries().len() < old(self).settings.max_players ==> {
                let p = PlayerId(old(self).players.next_id());
                &&& final(self).players.entries() == old(self).players.entries().push((p, session_id))
                &&& final(self).players.host_id() == old(self).players.host_id()
                &&& final(self).players.next_id() == old(self).players.next_id() + 1
                &&& out@.len() == 3
                &&& out@[0] == Outgoing::Broadcast(ServerMessage::PlayerJoined(p))
                &&& out@[1] == Outgoing::ConnectPlayer(p)
                &&& out@[2] matches Outgoing::SendToPlayer(q, ServerMessage::ConnectedToLobby(info))
                &&& q == p
                &&& final(self).describes(info, p)
            },
    {
        let mut out: Vec<Outgoing> = Vec::new();
        // a lobby holds at most `max_players`; a new session is turned away from a full one
        if self.players.get_player_id(&session_id).is_none() && self.players.len() >= self.settings.max_players {
            let text = String::from_str("Failed to join lobby, the lobby is full");
            out.push(Outgoing::SendToSession(session_id, ServerMessage::Error(ErrorMessage::Other(text))));
            out.push(Outgoing::ReleaseSession(session_id));
            return out;
        }
        match self.players.add_player(session_id) {
            // player just joined
            Ok(player_id) => {
                // sent to the players online so far, not to the new one
                out.push(Outgoing::Broadcast(ServerMessage::PlayerJoined(player_id)));
                out.push(Outgoing::ConnectPlayer(player_id));
                out.push(Outgoing::SendToPlayer(player_id, ServerMessage::ConnectedToLobby(self.info(player_id))));
            },
            // player already exists and reconnected (there is no way to reach this state by joining on two different devices simultaneously,
            // as they would've been hit with ErrorMessage::AlreadyInLobby at join attempt)
            Err(player_id) => {
                out.push(Outgoing::Broadcast(ServerMessage::PlayerBackOnline(player_id)));
                out.push(Outgoing::ConnectPlayer(player_id));
                out.push(Outgoing::SendToPlayer(player_id, ServerMessage::ConnectedToLobby(self.info(player_id))));
            },
        }
        out
    }

    /// A session went offline: its player's connection is dropped, and the others are
    /// told. A session of no player changes nothing.
    pub fn session_offline(&mut self, session_id: SessionId) -> (out: Vec<Outgoing>)
        requires
            old(self).wf(),
        ensures
            *final(self) == *old(self),
            old(self).players.has_session(session_id) ==> out@ == seq![
                Outgoing::DisconnectPlayer(old(self).player_of(session_id)),
                Outgoing::Broadcast(ServerMessage::PlayerOffline(old(self).player_of(session_id))),
            ],
            !old(self).players.has_session(session_id) ==> out@.len() == 0,
    {
        let mut out: Vec<Outgoing> = Vec::new();
        if let Some(player_id) = self.players.get_player_id(&session_id) {
            out.push(Outgoing::DisconnectPlayer(*player_id));
            out.push(Outgoing::Broadcast(ServerMessage::PlayerOffline(*player_id)));
        }
        out
    }

    /// What a session leaving the lobby did: see `Lobby::session_left`.
    pub open spec fn left_post(self, s: SessionId, reason: LeftLobbyReason, after: Lobby, end: bool, out: Seq<Outgoing>) -> bool {
        &&& out.len() >= 1
        &&& out[0] == Outgoing::ReleaseSession(s)
        &&& after.lobby_code == self.lobby_code
        &&& after.settings == self.settings
        &&& (self.players.entries().len() <= 1 || !self.players.has_session(s))
            ==> after == self && out.len() == 1 && end == (self.players.entries().len() <= 1)
        &&& (self.players.entries().len() > 1 && self.players.has_session(s)) ==> {
            let p = self.player_of(s);
            let host_changed = p == self.players.host_id();
            let k: int = if host_changed { 2 } else { 1 };
            &&& !end
            &&& after.players.entries() == self.players.entries().remove(self.players.session_pos(s))
            &&& after.players.next_id() == self.players.next_id()
            &&& after.players.host_id() == if host_changed { after.players.entries()[0].0 } else { self.players.host_id() }
            &&& host_changed ==> out[1] == Outgoing::Broadcast(ServerMessage::HostChanged(after.players.host_id()))
            &&& out.len() >= k + 2
            &&& out[k] == Outgoing::DisconnectPlayer(p)
            &&& out[k + 1] == Outgoing::Broadcast(ServerMessage::PlayerLeft { player_id: p, reason })
            &&& self.game_state is None ==> after.game_state is None && out.len() == k + 2
            &&& self.game_state matches Some(g) ==> (after.game_state matches Some(g2) && exists|game_out: Seq<Outgoing>| {
                &&& out == out.subrange(0, k + 2) + game_out
                &&& g.player_left(p, g2, game_out)
            })
        }
    }

    /// A session leaves the lobby, for `reason`. Its messages stop coming to this
    /// lobby. If its player was the host, the player with the lowest id becomes host
    /// and all are told, the player leaving included; then the player's connection is
    /// dropped, the others are told, and the player leaves the game too. Returns true
    /// if the lobby should end: the session was of its last player.
    pub fn session_left(&mut self, session_id: SessionId, reason: LeftLobbyReason) -> (r: (bool, Vec<Outgoing>))
        requires
            old(self).wf(),
        ensures
            final(self).wf(),
            old(self).left_post(session_id, reason, *final(self), r.0, r.1@),
    {
        let mut out: Vec<Outgoing> = Vec::new();
        out.push(Outgoing::ReleaseSession(session_id));
        let old_host = self.players.host();
        match self.players.remove_by_session_id(&session_id) {
            Ok(player_id) => {
                if player_id == old_host {
                    out.push(Outgoing::Broadcast(ServerMessage::HostChanged(self.players.host())));
                }
                out.push(Outgoing::DisconnectPlayer(player_id));
                out.push(Outgoing::Broadcast(ServerMessage::PlayerLeft { player_id, reason }));
                let ghost before_game = out@;
                if let Some(game_state) = &mut self.game_state {
                    let game_out = game_state.handle_player_left(&player_id);
                    let ghost go = game_out@;
                    let mut game_out = game_out;
                    out.append(&mut game_out);
                    proof {
                        assert(out@.subrange(0, before_game.len() as int) =~= before_game);
                        assert(out@ =~= out@.subrange(0, before_game.len() as int) + go);
                    }
                }
                (false, out)
            },
            Err(RemovePlayerError::SessionDoesNotExist) => (false, out),
            Err(RemovePlayerError::NoPlayersLeft) => (true, out),
        }
    }

    /// Whether `handle_auto_message` can handle this message without a panic: see
    /// `GameState::auto_message_safe`.
    pub fn auto_message_is_safe(&self, message: &AutoMessage) -> (r: bool)
        requires
            self.wf(),
        ensures
            r == (self.game_state matches Some(g) ==> g.auto_message_safe(*message)),
    {
        match &self.game_state {
            Some(game_state) => game_state.auto_message_is_safe(message),
            None => true,
        }
    }

    /// A message the lobby sent itself goes to the game, if one is on.
    pub fn handle_auto_message(&mut self, message: AutoMessage) -> (out: Vec<Outgoing>)
        requires
            old(self).wf(),
            old(self).game_state matches Some(g) ==> g.auto_message_safe(message),
        ensures
            final(self).wf(),
            final(self).same_but_game(*old(self)),
            old(self).game_state is None ==> final(self).game_state is None && out@.len() == 0,
            old(self).game_state matches Some(g) ==> (final(self).game_state matches Some(g2) && g.auto_message_post(message, old(self).players, g2, out@)),
    {
        match &mut self.game_state {
            Some(game_state) => game_state.handle_auto_message(message, &self.players),
            None => Vec::new(),
        }
    }

    /// `after` is this lobby with a new round started in the match of its game `g`:
    /// see `GameState::round_started`.
    pub open spec fn round_started(self, g: GameState, after: Lobby, out: Seq<Outgoing>) -> bool {
        &&& self.same_but_game(after)
        &&& after.game_state matches Some(g2)
        &&& g.round_started(g2, out)
    }

    /// `after` is this lobby with only the rules of its game `g` changed.
    pub open spec fn only_rules_changed(self, g: GameState, after: Lobby) -> bool {
        &&& self.same_but_game(after)
        &&& after.game_state matches Some(g2)
        &&& g2.settings == g.settings
        &&& g2.current_match == g.current_match
        &&& g2.previous_matches == g.previous_matches
    }

    /// What a message of the host `p` did: see `Lobby::handle_lobby_message`.
    pub open spec fn host_message_post(self, p: PlayerId, h: HostMessage, after: Lobby, out: Seq<Outgoing>) -> bool {
        match h {
            HostMessage::StartGame => match self.game_state {
                Some(_) => self.refused(p, ErrorMessage::AlreadyInGame, after, out),
                None => {
                    &&& self.same_but_game(after)
                    &&& after.game_state matches Some(g)
                    &&& g.settings == active_settings_of(self.settings)
                    &&& g.current_match is None
                    &&& g.previous_matches@.len() == 0
                    &&& g.rule_manager.active_kinds() == starting_rules()
                    &&& out.len() == 1
                    &&& out[0] matches Outgoing::Broadcast(ServerMessage::GameStarted(info))
                    &&& g.described_by(info)
                },
            },
            HostMessage::StartMatch => match self.game_state {
                None => self.refused(p, ErrorMessage::NotInGame, after, out),
                Some(g) => if g.current_match is Some {
                    self.refused(p, ErrorMessage::AlreadyInMatch, after, out)
                } else if self.players.entries().len() < 3 {
                    self.refused_with(p, too_few_players_text(), after, out)
                } else if g.settings.n_cards_per_player * self.players.entries().len() > 61 {
                    self.refused_with(p, too_many_cards_text(), after, out)
                } else {
                    &&& self.same_but_game(after)
                    &&& after.game_state matches Some(g2)
                    &&& g.match_started(self.players, g2, out)
                },
            },
            HostMessage::StartRound => match self.game_state {
                None => self.refused(p, ErrorMessage::NotInGame, after, out),
                Some(g) => match g.current_match {
                    None => self.refused(p, ErrorMessage::NotInMatch, after, out),
                    Some(m) => if m.current_round is Some {
                        self.refused(p, ErrorMessage::AlreadyInRound, after, out)
                    } else {
                        self.round_started(g, after, out)
                    },
                },
            },
            HostMessage::AddNewRule => match self.game_state {
                None => self.refused(p, ErrorMessage::NotInGame, after, out),
                Some(g) => {
                    &&& self.only_rules_changed(g, after)
                    &&& exists|added: Result<RuleInfo, ()>| {
                        &&& add_rule_post(g.rule_manager, after.game_state->0.rule_manager, added)
                        &&& out == match added {
                            Ok(info) => seq![Outgoing::Broadcast(ServerMessage::RuleAdded(info))],
                            Err(_) => Seq::<Outgoing>::empty(),
                        }
                    }
                },
            },
            HostMessage::RemoveRule(id) => match self.game_state {
                None => self.refused(p, ErrorMessage::NotInGame, after, out),
                Some(g) => {
                    let rules = g.rule_manager;
                    let rules2 = after.game_state->0.rule_manager;
                    &&& self.only_rules_changed(g, after)
                    &&& rules2.pool_kinds() == rules.pool_kinds()
                    &&& rules2.rule_pool_kinds() == rules.rule_pool_kinds()
                    &&& id < rules.active_kinds().len() ==> rules2.active_kinds() == rules.active_kinds().remove(id as int)
                        && out == seq![Outgoing::Broadcast(ServerMessage::RuleRemoved(id))]
                    &&& id >= rules.active_kinds().len() ==> rules2.active_kinds() == rules.active_kinds() && out.len() == 0
                },
            },
            HostMessage::TransferHost(new_host) => if new_host != self.players.host_id() && self.players.ids().contains(new_host) {
                &&& after.lobby_code == self.lobby_code
                &&& after.settings == self.settings
                &&& after.game_state == self.game_state
                &&& after.players.entries() == self.players.entries()
                &&& after.players.next_id() == self.players.next_id()
                &&& after.players.host_id() == new_host
                &&& out == seq![Outgoing::Broadcast(ServerMessage::HostChanged(new_host))]
            } else {
                self.refused_with(p, invalid_host_text(), after, out)
            },
            HostMessage::KickPlayer(_) => after == self && out.len() == 0,
            HostMessage::SetSettings(settings) => {
                &&& after.lobby_code == self.lobby_code
                &&& after.players == self.players
                &&& after.settings == settings
                &&& match self.game_state {
                    None => after.game_state is None && out == seq![Outgoing::Broadcast(ServerMessage::LobbySettingsUpdated(settings))],
                    Some(g) => {
                        &&& after.game_state matches Some(g2)
                        &&& g2.settings == active_settings_of(settings)
                        &&& g2.current_match == g.current_match
                        &&& g2.previous_matches == g.previous_matches
                        &&& g2.rule_manager == g.rule_manager
                        &&& out == if g.settings != active_settings_of(settings) {
                            seq![
                                Outgoing::Broadcast(ServerMessage::LobbySettingsUpdated(settings)),
                                Outgoing::Broadcast(ServerMessage::ActiveGameSettingsUpdated(active_settings_of(settings))),
                            ]
                        } else {
                            seq![Outgoing::Broadcast(ServerMessage::LobbySettingsUpdated(settings))]
                        }
                    },
                }
            },
        }
    }

    /// The message of the session `s` at `time` can be handled without a panic: an
    /// action in the game can (see `GameState::message_safe`).
    pub open spec fn lobby_message_safe(self, s: SessionId, message: LobbyMessage, time: int) -> bool {
        match message {
            LobbyMessage::GameMessage(GameMessage::ActionPerformed(a)) => self.game_state matches Some(g)
                ==> g.message_safe(self.player_of(s), a, time),
            _ => true,
        }
    }

    /// What a message of the session `s` at `time` did: see
    /// `Lobby::handle_lobby_message`.
    pub open spec fn lobby_message_post(self, s: SessionId, message: LobbyMessage, time: int, after: Lobby, end: bool, out: Seq<Outgoing>) -> bool {
        let p = self.player_of(s);
        match message {
            LobbyMessage::LeaveLobby => self.left_post(s, LeftLobbyReason::Left, after, end, out),
            LobbyMessage::FetchLobbyInfo => {
                &&& !end
                &&& after == self
                &&& out.len() == 1
                &&& out[0] matches Outgoing::SendToPlayer(q, ServerMessage::ConnectedToLobby(info))
                &&& q == p
                &&& self.describes(info, p)
            },
            LobbyMessage::GameMessage(GameMessage::ActionPerformed(a)) => {
                &&& !end
                &&& self.game_state is None ==> self.refused(p, ErrorMessage::NotInGame, after, out)
                &&& self.game_state matches Some(g) ==> {
                    &&& self.same_but_game(after)
                    &&& after.game_state matches Some(g2)
                    &&& g.message_post(p, a, time, g2, out)
                }
            },
            LobbyMessage::HostMessage(h) => {
                &&& !end
                &&& p != self.players.host_id() ==> self.refused(p, ErrorMessage::InsufficientPermissions, after, out)
                &&& p == self.players.host_id() ==> self.host_message_post(p, h, after, out)
            },
        }
    }

    /// Whether `handle_lobby_message` can handle this message of the session at `time`
    /// without a panic: see `Lobby::lobby_message_safe`.
    pub fn message_is_safe(&self, session_id: &SessionId, message: &LobbyMessage, time: i64) -> (r: bool)
        requires
            self.wf(),
            self.players.has_session(*session_id),
        ensures
            r == self.lobby_message_safe(*session_id, *message, time as int),
    {
        match message {
            LobbyMessage::GameMessage(game_message) => match &self.game_state {
                Some(game_state) => {
                    let player_id = *self.players.get_player_id(session_id).unwrap();
                    game_state.message_is_safe(player_id, game_message, time)
                },
                None => true,
            },
            _ => true,
        }
    }

    /// Handles a message of the session `session_id`, which is of a player of the
    /// lobby, received at `time` (milliseconds since the Unix epoch). Returns true if
    /// the lobby should end (its last player left), and what is to be sent, scheduled
    /// and connected, in order.
    pub fn handle_lobby_message(&mut self, session_id: SessionId, message: LobbyMessage, time: i64) -> (r: (bool, Vec<Outgoing>))
        requires
            old(self).wf(),
            old(self).players.has_session(session_id),
            old(self).lobby_message_safe(session_id, message, time as int),
        ensures
            final(self).wf(),
            old(self).lobby_message_post(session_id, message, time as int, *final(self), r.0, r.1@),
    {
        let player_id = *self.players.get_player_id(&session_id).unwrap();
        let mut out: Vec<Outgoing> = Vec::new();
        match message {
            LobbyMessage::LeaveLobby => {
                return self.session_left(session_id, LeftLobbyReason::Left);
            },
            LobbyMessage::FetchLobbyInfo => {
                out.push(Outgoing::SendToPlayer(player_id, ServerMessage::ConnectedToLobby(self.info(player_id))));
            },
            LobbyMessage::GameMessage(game_message) => match self.game_state.take() {
                Some(mut game_state) => {
                    out = game_state.handle_message(player_id, game_message, time);
                    self.game_state = Some(game_state);
                },
                None => {
                    out.push(Outgoing::SendToPlayer(player_id, ServerMessage::Error(ErrorMessage::NotInGame)));
                },
            },
            LobbyMessage::HostMessage(host_message) => {
                if player_id != self.players.host() {
                    out.push(Outgoing::SendToPlayer(player_id, ServerMessage::Error(ErrorMessage::InsufficientPermissions)));
                } else {
                    out = self.handle_host_message(player_id, host_message);
                }
            },
        }
        (false, out)
    }

    /// Handles a message of the host `player_id`: see `Lobby::host_message_post`.
    fn handle_host_message(&mut self, player_id: PlayerId, host_message: HostMessage) -> (out: Vec<Outgoing>)
        requires
            old(self).wf(),
        ensures
            final(self).wf(),
            old(self).host_message_post(player_id, host_message, *final(self), out@),
    {
        let ghost l0 = *self;
        let mut out: Vec<Outgoing> = Vec::new();
        match host_message {
            HostMessage::StartGame => {
                if self.game_state.is_some() {
                    out.push(Outgoing::SendToPlayer(player_id, ServerMessage::Error(ErrorMessage::AlreadyInGame)));
                    return out;
                }
                let game = GameState::new(&self.settings);
                out.push(Outgoing::Broadcast(ServerMessage::GameStarted(game.info())));
                self.game_state = Some(game);
                assert(l0.host_message_post(player_id, host_message, *self, out@));
            },
            HostMessage::StartMatch => match self.game_state.take() {
                None => {
                    out.push(Outgoing::SendToPlayer(player_id, ServerMessage::Error(ErrorMessage::NotInGame)));
                },
                Some(mut game_state) => {
                    let (result, match_out) = game_state.start_match(&self.players);
                    self.game_state = Some(game_state);
                    match result {
                        Ok(()) => {
                            out = match_out;
                        },
                        Err(StartMatchError::AlreadyOngoingMatch) => {
                            out.push(Outgoing::SendToPlayer(player_id, ServerMessage::Error(ErrorMessage::AlreadyInMatch)));
                        },
                        Err(StartMatchError::TooHighNCardsPerPlayer) => {
                            let text = String::from_str("Failed to start round, settings.n_cards_per_player too high for card pool");
                            out.push(Outgoing::SendToPlayer(player_id, ServerMessage::Error(ErrorMessage::Other(text))));
                        },
                        Err(StartMatchError::TooFewPlayers) => {
                            let text = String::from_str("Failed to start round, too few players in lobby (requires a minimum of 3)");
                            out.push(Outgoing::SendToPlayer(player_id, ServerMessage::Error(ErrorMessage::Other(text))));
                        },
                    }
                    assert(l0.host_message_post(player_id, host_message, *self, out@));
                },
            },
            HostMessage::StartRound => match self.game_state.take() {
                None => {
                    out.push(Outgoing::SendToPlayer(player_id, ServerMessage::Error(ErrorMessage::NotInGame)));
                },
                Some(mut game_state) => {
                    match game_state.start_round() {
                        Ok(round_out) => {
                            out = round_out;
                        },
                        Err(e) => {
                            out.push(Outgoing::SendToPlayer(player_id, ServerMessage::Error(e)));
                        },
                    }
                    self.game_state = Some(game_state);
                    assert(l0.host_message_post(player_id, host_message, *self, out@));
                },
            },
            HostMessage::AddNewRule => match self.game_state.take() {
                None => {
                    out.push(Outgoing::SendToPlayer(player_id, ServerMessage::Error(ErrorMessage::NotInGame)));
                },
                Some(mut game_state) => {
                    let ghost rules0 = game_state.rule_manager;
                    let added = game_state.rule_manager.add_rule();
                    let ghost added0 = added;
                    if let Ok(rule_info) = added {
                        out.push(Outgoing::Broadcast(ServerMessage::RuleAdded(rule_info)));
                    }
                    self.game_state = Some(game_state);
                    proof {
                        assert(add_rule_post(rules0, self.game_state->0.rule_manager, added0));
                        assert(out@ =~= match added0 {
                            Ok(info) => seq![Outgoing::Broadcast(ServerMessage::RuleAdded(info))],
                            Err(_) => Seq::<Outgoing>::empty(),
                        });
                    }
                },
            },
            HostMessage::RemoveRule(id) => match self.game_state.take() {
                None => {
                    out.push(Outgoing::SendToPlayer(player_id, ServerMessage::Error(ErrorMessage::NotInGame)));
                },
                Some(mut game_state) => {
                    if game_state.rule_manager.remove_rule(&id) {
                        out.push(Outgoing::Broadcast(ServerMessage::RuleRemoved(id)));
                    }
                    self.game_state = Some(game_state);
                    assert(l0.host_message_post(player_id, host_message, *self, out@));
                },
            },
            HostMessage::TransferHost(new_host) => {
                if self.players.set_host(new_host).is_some() {
                    out.push(Outgoing::Broadcast(ServerMessage::HostChanged(self.players.host())));
                } else {
                    let text = String::from_str("Invalid host transfer recipient");
                    out.push(Outgoing::SendToPlayer(player_id, ServerMessage::Error(ErrorMessage::Other(text))));
                }
                assert(l0.host_message_post(player_id, host_message, *self, out@));
            },
            HostMessage::KickPlayer(_player_id) => {
                // check if player in game or match, if so call
                // self.game_state.remove_player or the corresponding match variant
                // not implemented
            },
            HostMessage::SetSettings(lobby_settings) => {
                self.settings = lobby_settings;
                out.push(Outgoing::Broadcast(ServerMessage::LobbySettingsUpdated(lobby_settings)));
                assert(out@ =~= seq![Outgoing::Broadcast(ServerMessage::LobbySettingsUpdated(lobby_settings))]);
                if let Some(mut game_state) = self.game_state.take() {
                    if let Some(new_active_game_settings) = game_state.lobby_settings_updated(lobby_settings) {
                        out.push(Outgoing::Broadcast(ServerMessage::ActiveGameSettingsUpdated(new_active_game_settings)));
                        assert(out@ =~= seq![
                            Outgoing::Broadcast(ServerMessage::LobbySettingsUpdated(lobby_settings)),
                            Outgoing::Broadcast(ServerMessage::ActiveGameSettingsUpdated(new_active_game_settings)),
                        ]);
                    }
                    self.game_state = Some(game_state);
                }
                assert(l0.host_message_post(player_id, host_message, *self, out@));
            },
        }
        out
    }
}

} // verus!
