//! Server-side game logic for CrazyTime: the card deck, the counting rules of a
//! round, the players of a match and a lobby, and the messages exchanged with clients.
pub mod card;
pub mod game;
pub mod lobby;
pub mod player;
pub mod player_cards;
pub mod random;
pub mod rules;
pub mod session;

use base64::Engine;
use base64::engine::general_purpose::URL_SAFE_NO_PAD;
use vstd::prelude::*;
use vstd::string::StringExecFns;

use crate::random::random_value;
use crate::game::{ActiveGameSettings, GameInfo, LobbySettings};
use crate::game::game_match::{MatchInfo, MatchTerminationType};
use crate::game::round::{InputPlayerAction, PlayerAction, RoundInfo, RoundTerminationType};
use crate::lobby::{LeftLobbyReason, LobbyCode, LobbyInfo, PlayerId};
use crate::rules::RuleInfo;

verus! {

/// a message sent from the server to a client
pub enum ServerMessage {
    /// only sent on server termination (like ctrl+C)
    ServerClosed,
    /// this is provided whenever a users connects to a lobby or if they fetch lobby info
    ConnectedToLobby(LobbyInfo),
    LeftLobby(LeftLobbyReason),
    /// this updates the lobby settings, and will still apply to the current game if it also causes ActiveGameSettings to update
    LobbySettingsUpdated(LobbySettings),
    PlayerJoined(PlayerId),
    PlayerOffline(PlayerId),
    PlayerBackOnline(PlayerId),
    PlayerLeft { player_id: PlayerId, reason: LeftLobbyReason },
    HostChanged(PlayerId),
    /// will most likely also send MatchStarted at the same time, though not RoundStarted obviously
    GameStarted(GameInfo),
    GameEnded,
    /// if a lobby setting change triggers the current game
    ActiveGameSettingsUpdated(ActiveGameSettings),
    RuleAdded(RuleInfo),
    RuleRemoved(usize),
    MatchStarted(MatchInfo),
    MatchEnded(MatchTerminationType),
    PlayerGotRidOfCardsToPool { player_id: PlayerId, n_cards: usize },
    /// the number of revealed cards picked up, not which ones
    PlayerPickedUpRevealedCards { player_id: PlayerId, n_cards: usize },
    RoundStarted(RoundInfo),
    RoundEnded(RoundTerminationType),
    ActionPerformed(PlayerAction),
    /// response
    Error(ErrorMessage),
}

/// What went wrong with a client's request.
pub enum ErrorMessage {
    InvalidClientMessage,
    NotInLobby,
    NotInGame,
    NotInMatch,
    NotInRound,
    /// if you try to lay a card but you don't have any
    NoCards,
    AlreadyInLobby,
    AlreadyInGame,
    AlreadyInMatch,
    AlreadyInRound,
    LobbyDoesNotExist,
    /// if you are not host and try send host messages
    InsufficientPermissions,
    Other(String),
}

/// a message sent from a client to the server
pub enum ClientMessage {
    JoinLobby(LobbyCode),
    HostLobby,
    LeaveLobby,
    FetchLobbyInfo,
    StartGame,
    StartMatch,
    StartRound,
    TransferHost(PlayerId),
    KickPlayer(PlayerId),
    CloseLobby,
    SetSettings(LobbySettings),
    AddNewRule,
    RemoveRule(usize),
    PerformAction(InputPlayerAction),
}

/// corresponds exactly to the session id of the user, used to authenticate
#[derive(Clone, Copy, Debug, PartialEq, Eq, Hash)]
pub struct SessionId([u8; 32]);

/// The URL-safe base64 text, without padding, of some bytes: what `Engine::encode` of
/// `base64`'s `URL_SAFE_NO_PAD` writes.
pub uninterp spec fn url_safe_base64(bytes: Seq<u8>) -> Seq<char>;

/// The bytes that a text stands for in URL-safe base64 without padding, as
/// `Engine::decode` of `base64`'s `URL_SAFE_NO_PAD` reads it; none if the text is not
/// such base64.
pub uninterp spec fn url_safe_base64_bytes(text: Seq<char>) -> Option<Seq<u8>>;

/// The error that `base64` reports for text that is not valid base64.
#[verifier::external_type_specification]
#[verifier::external_body]
pub struct ExDecodeError(base64::DecodeError);

/// Calls `Engine::encode` of `base64`'s `URL_SAFE_NO_PAD` on the bytes. The text that
/// comes out is named, not written out: `url_safe_base64` of the bytes. Decoding it
/// with the same engine gives the bytes back, which is what base64 is for.
#[verifier::external_body]
fn encode_url_safe(bytes: &[u8; 32]) -> (r: String)
    ensures
        r@ == url_safe_base64(bytes@),
        url_safe_base64_bytes(r@) == Some(bytes@),
{
    URL_SAFE_NO_PAD.encode(bytes)
}

/// Calls `Engine::decode` of `base64`'s `URL_SAFE_NO_PAD` on the text. It succeeds
/// exactly when the text is URL-safe base64 without padding, and then gives the bytes
/// that `url_safe_base64_bytes` names.
#[verifier::external_body]
fn decode_url_safe(text: &str) -> (r: Result<Vec<u8>, base64::DecodeError>)
    ensures
        r is Ok <==> url_safe_base64_bytes(text@) is Some,
        r matches Ok(v) ==> url_safe_base64_bytes(text@) == Some(v@),
{
    URL_SAFE_NO_PAD.decode(text)
}

/// Calls `to_string` on a `base64::DecodeError`, which writes it with the error's
/// `Display` impl. Its words depend on the kind of error and where it was found, which
/// Verus does not see inside the error, so nothing is claimed of them.
#[verifier::external_body]
fn decode_error_text(e: &base64::DecodeError) -> (r: String) {
    e.to_string()
}

/// The character of a decimal digit.
pub open spec fn digit_char(d: nat) -> char {
    (48 + d) as char
}

/// The decimal digits of `n`, the most significant first.
pub open spec fn decimal(n: nat) -> Seq<char>
    decreases n,
{
    if n < 10 {
        seq![digit_char(n)]
    } else {
        decimal(n / 10).push(digit_char(n % 10))
    }
}

/// A decimal digit as a string.
fn digit_str(d: usize) -> (s: &'static str)
    requires
        d < 10,
    ensures
        s@ == seq![digit_char(d as nat)],
{
    match d {
        0 => {
            proof {
                reveal_strlit("0");
            }
            "0"
        },
        1 => {
            proof {
                reveal_strlit("1");
            }
            "1"
        },
        2 => {
            proof {
                reveal_strlit("2");
            }
            "2"
        },
        3 => {
            proof {
                reveal_strlit("3");
            }
            "3"
        },
        4 => {
            proof {
                reveal_strlit("4");
            }
            "4"
        },
        5 => {
            proof {
                reveal_strlit("5");
            }
            "5"
        },
        6 => {
            proof {
                reveal_strlit("6");
            }
            "6"
        },
        7 => {
            proof {
                reveal_strlit("7");
            }
            "7"
        },
        8 => {
            proof {
                reveal_strlit("8");
            }
            "8"
        },
        _ => {
            proof {
                reveal_strlit("9");
            }
            "9"
        },
    }
}

/// `n` in decimal digits.
fn decimal_text(n: usize) -> (r: String)
    ensures
        r@ == decimal(n as nat),
    decreases n,
{
    if n < 10 {
        String::from_str(digit_str(n))
    } else {
        let mut text = decimal_text(n / 10);
        text.append(digit_str(n % 10));
        text
    }
}

/// Why a text is no session id: it is no base64, then what `base64` said of it.
pub open spec fn not_base64_text() -> Seq<char> {
    "invalid base64: "@
}

/// Why a text is no session id: it stands for `n` bytes, not 32.
pub open spec fn wrong_length_text(n: nat) -> Seq<char> {
    "invalid session id length: expected 32 bytes, got "@ + decimal(n)
}

impl SessionId {
    /// A new random id.
    pub fn new() -> (r: Self) {
        SessionId(random_value::<[u8; 32]>())
    }

    /// The id as clients know it: its bytes in URL-safe base64 without padding, which
    /// `SessionId::parse` reads back as this id.
    pub fn to_string(&self) -> (r: String)
        ensures
            r@ == url_safe_base64(self.bytes()),
            url_safe_base64_bytes(r@) == Some(self.bytes()),
    {
        encode_url_safe(&self.0)
    }

    /// The id that a text stands for: 32 bytes in URL-safe base64 without padding.
    /// Otherwise an error that says why not.
    pub fn parse(s: &str) -> (r: Result<SessionId, String>)
        ensures
            url_safe_base64_bytes(s@) is None ==> (r matches Err(e) && e@.take(16) == not_base64_text()),
            url_safe_base64_bytes(s@) matches Some(b) ==> (b.len() != 32 ==> (r matches Err(e) && e@ == wrong_length_text(b.len()))),
            url_safe_base64_bytes(s@) matches Some(b) ==> (b.len() == 32 ==> (r matches Ok(id) && id.bytes() == b)),
    {
        match decode_url_safe(s) {
            Err(e) => {
                let mut text = String::from_str("invalid base64: ");
                let detail = decode_error_text(&e);
                proof {
                    reveal_strlit("invalid base64: ");
                }
                let ghost head = text@;
                text.append(detail.as_str());
                assert(text@.take(16) =~= head);
                Err(text)
            },
            Ok(bytes) => {
                if bytes.len() != 32 {
                    let mut text = String::from_str("invalid session id length: expected 32 bytes, got ");
                    let n = decimal_text(bytes.len());
                    text.append(n.as_str());
                    return Err(text);
                }
                let mut arr: [u8; 32] = [0u8; 32];
                for i in 0..32
                    invariant
                        bytes@.len() == 32,
                        forall|j: int| 0 <= j < i ==> arr@[j] == bytes@[j],
                {
                    arr.set(i, bytes[i]);
                }
                assert(arr@ =~= bytes@);
                Ok(SessionId(arr))
            },
        }
    }

    /// The 32 bytes of the id.
    pub closed spec fn bytes(self) -> Seq<u8> {
        self.0@
    }

    /// An id is its 32 bytes: two ids with the same bytes are the same id. So the id
    /// that `SessionId::parse` reads from `to_string` of an id is that id.
    pub proof fn lemma_bytes_identify(a: SessionId, b: SessionId)
        ensures
            a.bytes().len() == 32,
            a.bytes() == b.bytes() ==> a == b,
    {
        if a.bytes() == b.bytes() {
            vstd::array::axiom_array_ext_equal(a.0, b.0);
            assert(a.0 == b.0);
        }
    }

    /// The id made of these 32 bytes.
    pub fn from_bytes(bytes: [u8; 32]) -> (r: Self)
        ensures
            r.bytes() == bytes@,
    {
        SessionId(bytes)
    }

    /// Whether two ids are the same id.
    pub fn same(&self, other: &SessionId) -> (r: bool)
        ensures
            r == (*self == *other),
            r == (self.bytes() == other.bytes()),
    {
        let mut i: usize = 0;
        while i < 32
            invariant
                i <= 32,
                self.0@.len() == 32,
                other.0@.len() == 32,
                forall|j: int| 0 <= j < i ==> self.0@[j] == other.0@[j],
            decreases 32 - i,
        {
            if self.0[i] != other.0[i] {
                assert(self.0@[i as int] != other.0@[i as int]);
                return false;
            }
            i += 1;
        }
        assert(self.0@ =~= other.0@);
        proof {
            vstd::array::axiom_array_ext_equal(self.0, other.0);
        }
        true
    }
}

impl std::str::FromStr for SessionId {
    type Err = String;

    /// Reads an id as `SessionId::parse` does.
    fn from_str(s: &str) -> (r: Result<Self, Self::Err>)
        ensures
            url_safe_base64_bytes(s@) is None ==> (r matches Err(e) && e@.take(16) == not_base64_text()),
            url_safe_base64_bytes(s@) matches Some(b) ==> (b.len() != 32 ==> (r matches Err(e) && e@ == wrong_length_text(b.len()))),
            url_safe_base64_bytes(s@) matches Some(b) ==> (b.len() == 32 ==> (r matches Ok(id) && id.bytes() == b)),
    {
        SessionId::parse(s)
    }
}

} // verus!
