use crazytime_server::game::GameMessage;
use crazytime_server::game::round::InputPlayerAction;
use crazytime_server::lobby::{HostMessage, LeftLobbyReason, LobbyCode, LobbyMessage, PlayerId};
use crazytime_server::session::{Coordinator, CoordinatorAction, LobbyEvent};
use crazytime_server::{ClientMessage, ErrorMessage, ServerMessage, SessionId};

fn session(n: u8) -> SessionId {
    SessionId::from_bytes([n; 32])
}

fn code(text: &str) -> LobbyCode {
    LobbyCode(text.to_string())
}

fn error_of(out: &[CoordinatorAction]) -> Option<&ErrorMessage> {
    match out {
        [CoordinatorAction::SendToSession(_, ServerMessage::Error(e))] => Some(e),
        _ => None,
    }
}

#[test]
fn session_ids_are_written_in_url_safe_base64() {
    let id = SessionId::from_bytes([0xfb; 32]);
    let text = id.to_string();
    assert_eq!(text.len(), 43);
    assert!(text.starts_with("-_v7"));
    assert_eq!(SessionId::parse(&text), Ok(id));
    let zero = SessionId::from_bytes([0; 32]).to_string();
    assert_eq!(zero, "A".repeat(43));
}

#[test]
fn new_session_ids_read_back() {
    let id = SessionId::new();
    let parsed: SessionId = id.to_string().parse().unwrap();
    assert_eq!(parsed, id);
    assert!(id.same(&parsed));
    assert!(!id.same(&SessionId::from_bytes([7; 32])) || id == SessionId::from_bytes([7; 32]));
}

#[test]
fn session_ids_must_be_base64() {
    match SessionId::parse("not base64!") {
        Err(e) => assert!(e.starts_with("invalid base64: ")),
        Ok(_) => panic!("that is no base64"),
    }
}

#[test]
fn session_ids_must_be_32_bytes() {
    assert_eq!(SessionId::parse("AAAA"), Err("invalid session id length: expected 32 bytes, got 3".to_string()));
    let long = "A".repeat(60);
    assert_eq!(SessionId::parse(&long), Err("invalid session id length: expected 32 bytes, got 45".to_string()));
}

#[test]
fn hosting_starts_a_lobby() {
    let mut c = Coordinator::new();
    c.session_connected(session(1));
    assert!(c.is_active(&session(1)));
    let out = c.host_lobby(session(1), code("AAAAAA"));
    assert!(matches!(&out[..], [CoordinatorAction::StartLobby(k, s)] if k.0 == "AAAAAA" && *s == session(1)));
    assert!(c.has_lobby(&code("AAAAAA")));
    assert!(!c.has_lobby(&code("BBBBBB")));
    let out = c.host_lobby(session(1), code("CCCCCC"));
    assert!(matches!(error_of(&out), Some(ErrorMessage::AlreadyInLobby)));
    assert!(!c.has_lobby(&code("CCCCCC")));
}

#[test]
fn joining_needs_a_running_lobby() {
    let mut c = Coordinator::new();
    c.session_connected(session(1));
    c.session_connected(session(2));
    c.host_lobby(session(1), code("AAAAAA"));
    let out = c.client_message(session(2), ClientMessage::JoinLobby(code("ZZZZZZ")));
    assert!(matches!(error_of(&out), Some(ErrorMessage::LobbyDoesNotExist)));
    let out = c.client_message(session(2), ClientMessage::JoinLobby(code("AAAAAA")));
    assert!(matches!(&out[..], [CoordinatorAction::ToLobby(k, LobbyEvent::SessionConnected(s))] if k.0 == "AAAAAA" && *s == session(2)));
    let out = c.client_message(session(2), ClientMessage::JoinLobby(code("AAAAAA")));
    assert!(matches!(error_of(&out), Some(ErrorMessage::AlreadyInLobby)));
}

#[test]
fn messages_go_to_the_lobby_of_the_session() {
    let mut c = Coordinator::new();
    c.session_connected(session(1));
    c.session_connected(session(3));
    c.host_lobby(session(1), code("AAAAAA"));
    let out = c.client_message(session(3), ClientMessage::StartGame);
    assert!(matches!(error_of(&out), Some(ErrorMessage::NotInLobby)));
    let out = c.client_message(session(1), ClientMessage::StartGame);
    assert!(matches!(&out[..], [CoordinatorAction::ToLobby(k, LobbyEvent::Message { session_id, message: LobbyMessage::HostMessage(HostMessage::StartGame) })]
        if k.0 == "AAAAAA" && *session_id == session(1)));
    let out = c.client_message(session(1), ClientMessage::PerformAction(InputPlayerAction::ReportError));
    assert!(matches!(&out[..], [CoordinatorAction::ToLobby(_, LobbyEvent::Message { message: LobbyMessage::GameMessage(GameMessage::ActionPerformed(InputPlayerAction::ReportError)), .. })]));
    let out = c.client_message(session(1), ClientMessage::RemoveRule(3));
    assert!(matches!(&out[..], [CoordinatorAction::ToLobby(_, LobbyEvent::Message { message: LobbyMessage::HostMessage(HostMessage::RemoveRule(3)), .. })]));
    let out = c.client_message(session(1), ClientMessage::TransferHost(PlayerId(4)));
    assert!(matches!(&out[..], [CoordinatorAction::ToLobby(_, LobbyEvent::Message { message: LobbyMessage::HostMessage(HostMessage::TransferHost(PlayerId(4))), .. })]));
    let out = c.client_message(session(1), ClientMessage::FetchLobbyInfo);
    assert!(matches!(&out[..], [CoordinatorAction::ToLobby(_, LobbyEvent::Message { message: LobbyMessage::FetchLobbyInfo, .. })]));
    assert!(c.client_message(session(1), ClientMessage::CloseLobby).is_empty());
}

#[test]
fn leaving_a_lobby_frees_the_session() {
    let mut c = Coordinator::new();
    c.session_connected(session(1));
    let out = c.client_message(session(1), ClientMessage::LeaveLobby);
    assert!(matches!(error_of(&out), Some(ErrorMessage::NotInLobby)));
    c.host_lobby(session(1), code("AAAAAA"));
    let out = c.client_message(session(1), ClientMessage::LeaveLobby);
    assert_eq!(out.len(), 2);
    assert!(matches!(&out[0], CoordinatorAction::ToLobby(_, LobbyEvent::Message { message: LobbyMessage::LeaveLobby, .. })));
    assert!(matches!(&out[1], CoordinatorAction::SendToSession(_, ServerMessage::LeftLobby(LeftLobbyReason::Left))));
    // free to host again
    let out = c.host_lobby(session(1), code("BBBBBB"));
    assert!(matches!(&out[..], [CoordinatorAction::StartLobby(..)]));
}

#[test]
fn connections_are_reported_to_the_lobby() {
    let mut c = Coordinator::new();
    assert!(c.session_connected(session(1)).is_empty());
    c.host_lobby(session(1), code("AAAAAA"));
    let out = c.session_disconnected(session(1));
    assert!(matches!(&out[..], [CoordinatorAction::ToLobby(_, LobbyEvent::SessionOffline(s))] if *s == session(1)));
    assert!(!c.is_active(&session(1)));
    let out = c.session_connected(session(1));
    assert!(matches!(&out[..], [CoordinatorAction::ToLobby(_, LobbyEvent::SessionConnected(s))] if *s == session(1)));
    c.session_released(&session(1));
    assert!(c.session_disconnected(session(1)).is_empty());
}

#[test]
fn a_closed_lobby_lets_its_sessions_go() {
    let mut c = Coordinator::new();
    c.session_connected(session(1));
    c.session_connected(session(2));
    c.host_lobby(session(1), code("AAAAAA"));
    c.client_message(session(2), ClientMessage::JoinLobby(code("AAAAAA")));
    c.lobby_closed(&code("AAAAAA"));
    assert!(!c.has_lobby(&code("AAAAAA")));
    let out = c.client_message(session(2), ClientMessage::StartMatch);
    assert!(matches!(error_of(&out), Some(ErrorMessage::NotInLobby)));
}

#[test]
fn shutting_down_tells_every_connected_session() {
    let mut c = Coordinator::new();
    c.session_connected(session(1));
    c.session_connected(session(2));
    c.session_connected(session(1));
    let out = c.server_shutdown();
    assert_eq!(out.len(), 2);
    assert!(out.iter().all(|a| matches!(a, CoordinatorAction::SendToSession(_, ServerMessage::ServerClosed))));
}
