use crazytime_server::game::round::{Count, InputPlayerAction, InputPlayerMove, RoundTerminationType};
use crazytime_server::game::{GameMessage, LobbySettings, MaxCardsPickedUpWhenLosing};
use crazytime_server::lobby::{
    AutoMessage, HostMessage, LeftLobbyReason, Lobby, LobbyCode, LobbyMessage, LobbyPlayers, Outgoing, PlayerId,
    RemovePlayerError,
};
use crazytime_server::{ErrorMessage, ServerMessage, SessionId};

fn session(n: u8) -> SessionId {
    SessionId::from_bytes([n; 32])
}

fn lobby_of(n_players: u8) -> Lobby {
    let mut lobby = Lobby::new(LobbyCode("ABCDEF".to_string()), session(0));
    for n in 1..n_players {
        lobby.session_connected(session(n));
    }
    lobby
}

fn host(lobby: &mut Lobby, message: HostMessage) -> Vec<Outgoing> {
    let (end, out) = lobby.handle_lobby_message(session(0), LobbyMessage::HostMessage(message), 0);
    assert!(!end);
    out
}

fn act(lobby: &mut Lobby, player: u8, action: InputPlayerAction, time: i64) -> Vec<Outgoing> {
    let message = LobbyMessage::GameMessage(GameMessage::ActionPerformed(action));
    assert!(lobby.message_is_safe(&session(player), &message, time));
    let (end, out) = lobby.handle_lobby_message(session(player), message, time);
    assert!(!end);
    out
}

fn error_to(out: &[Outgoing], player: PlayerId) -> Option<&ErrorMessage> {
    match out {
        [Outgoing::SendToPlayer(p, ServerMessage::Error(e))] if *p == player => Some(e),
        _ => None,
    }
}

#[test]
fn players_get_incremental_ids() {
    let mut players = LobbyPlayers::new(session(0));
    assert_eq!(players.len(), 1);
    assert_eq!(players.host(), PlayerId(0));
    assert_eq!(players.add_player(session(1)), Ok(PlayerId(1)));
    assert_eq!(players.add_player(session(2)), Ok(PlayerId(2)));
    // a session that is in already keeps its id
    assert_eq!(players.add_player(session(1)), Err(PlayerId(1)));
    assert_eq!(players.len(), 3);
    assert_eq!(players.players(), vec![PlayerId(0), PlayerId(1), PlayerId(2)]);
    assert_eq!(players.get_player_id(&session(2)), Some(&PlayerId(2)));
    assert_eq!(players.get_player_id(&session(9)), None);
    assert!(players.contains_player(&PlayerId(1)));
    assert!(!players.contains_player(&PlayerId(3)));
    assert_eq!(players.session_tx_values(), vec![session(0), session(1), session(2)]);
}

#[test]
fn ids_are_not_given_twice() {
    let mut players = LobbyPlayers::new(session(0));
    players.add_player(session(1)).unwrap();
    players.remove_by_session_id(&session(1)).unwrap();
    assert_eq!(players.add_player(session(1)), Ok(PlayerId(2)));
}

#[test]
fn the_lowest_id_takes_over_from_a_leaving_host() {
    let mut players = LobbyPlayers::new(session(0));
    players.add_player(session(1)).unwrap();
    players.add_player(session(2)).unwrap();
    assert!(matches!(players.remove_by_session_id(&session(7)), Err(RemovePlayerError::SessionDoesNotExist)));
    assert!(matches!(players.remove_by_session_id(&session(0)), Ok(PlayerId(0))));
    assert_eq!(players.host(), PlayerId(1));
    assert!(matches!(players.remove_by_session_id(&session(2)), Ok(PlayerId(2))));
    assert_eq!(players.host(), PlayerId(1));
    assert!(matches!(players.remove_by_session_id(&session(1)), Err(RemovePlayerError::NoPlayersLeft)));
    assert_eq!(players.len(), 1);
}

#[test]
fn the_host_can_only_be_handed_to_another_player() {
    let mut players = LobbyPlayers::new(session(0));
    players.add_player(session(1)).unwrap();
    assert_eq!(players.set_host(PlayerId(0)), None);
    assert_eq!(players.set_host(PlayerId(5)), None);
    assert_eq!(players.host(), PlayerId(0));
    assert_eq!(players.set_host(PlayerId(1)), Some(PlayerId(0)));
    assert_eq!(players.host(), PlayerId(1));
}

#[test]
fn lobby_codes_are_six_unambiguous_symbols() {
    for _ in 0..20 {
        let code = LobbyCode::new();
        assert_eq!(code.0.len(), 6);
        assert!(code.0.chars().all(|c| "ABCDEFGHJKLMNPQRSTUVWXYZ23456789".contains(c)));
        assert_eq!(code.copied(), code);
    }
}

#[test]
fn a_full_lobby_turns_a_new_session_away() {
    let mut lobby = lobby_of(10);
    assert_eq!(lobby.players.len(), 10);
    let out = lobby.session_connected(session(10));
    assert_eq!(out.len(), 2);
    match &out[0] {
        Outgoing::SendToSession(s, ServerMessage::Error(ErrorMessage::Other(text))) => {
            assert_eq!(*s, session(10));
            assert_eq!(text, "Failed to join lobby, the lobby is full");
        },
        _ => panic!("the session should be told that the lobby is full"),
    }
    assert!(matches!(out[1], Outgoing::ReleaseSession(s) if s == session(10)));
    assert_eq!(lobby.players.len(), 10);
    assert_eq!(lobby.players.get_player_id(&session(10)), None);
    // a player of the lobby still comes back
    let out = lobby.session_connected(session(3));
    assert!(matches!(out[0], Outgoing::Broadcast(ServerMessage::PlayerBackOnline(PlayerId(3)))));
}

#[test]
fn joining_is_announced_and_answered_with_the_lobby() {
    let mut lobby = lobby_of(1);
    let out = lobby.session_connected(session(1));
    assert_eq!(out.len(), 3);
    assert!(matches!(out[0], Outgoing::Broadcast(ServerMessage::PlayerJoined(PlayerId(1)))));
    assert!(matches!(out[1], Outgoing::ConnectPlayer(PlayerId(1))));
    match &out[2] {
        Outgoing::SendToPlayer(PlayerId(1), ServerMessage::ConnectedToLobby(info)) => {
            assert_eq!(info.you, PlayerId(1));
            assert_eq!(info.players, vec![PlayerId(0), PlayerId(1)]);
            assert_eq!(info.host, PlayerId(0));
            assert_eq!(info.lobby_code.0, "ABCDEF");
            assert_eq!(info.settings.n_cards_per_player, 7);
            assert!(info.current_game.is_none());
        },
        _ => panic!("the new player should be told of the lobby"),
    }
    // coming back is no new join
    let out = lobby.session_connected(session(1));
    assert!(matches!(out[0], Outgoing::Broadcast(ServerMessage::PlayerBackOnline(PlayerId(1)))));
    assert_eq!(lobby.players.len(), 2);
}

#[test]
fn going_offline_is_announced() {
    let mut lobby = lobby_of(2);
    let out = lobby.session_offline(session(1));
    assert!(matches!(out[..], [Outgoing::DisconnectPlayer(PlayerId(1)), Outgoing::Broadcast(ServerMessage::PlayerOffline(PlayerId(1)))]));
    assert!(lobby.session_offline(session(9)).is_empty());
}

#[test]
fn leaving_hands_the_lobby_on() {
    let mut lobby = lobby_of(3);
    let (end, out) = lobby.handle_lobby_message(session(0), LobbyMessage::LeaveLobby, 0);
    assert!(!end);
    assert!(matches!(out[0], Outgoing::ReleaseSession(_)));
    assert!(matches!(out[1], Outgoing::Broadcast(ServerMessage::HostChanged(PlayerId(1)))));
    assert!(matches!(out[2], Outgoing::DisconnectPlayer(PlayerId(0))));
    assert!(matches!(out[3], Outgoing::Broadcast(ServerMessage::PlayerLeft { player_id: PlayerId(0), reason: LeftLobbyReason::Left })));
    assert_eq!(out.len(), 4);
    let (end, out) = lobby.session_left(session(1), LeftLobbyReason::Disconnected);
    assert!(!end);
    assert_eq!(out.len(), 4);
    let (end, out) = lobby.session_left(session(2), LeftLobbyReason::Left);
    assert!(end);
    assert_eq!(out.len(), 1);
}

#[test]
fn only_the_host_may_run_the_game() {
    let mut lobby = lobby_of(3);
    let (_, out) = lobby.handle_lobby_message(session(1), LobbyMessage::HostMessage(HostMessage::StartGame), 0);
    assert!(matches!(error_to(&out, PlayerId(1)), Some(ErrorMessage::InsufficientPermissions)));
    assert!(lobby.game_state.is_none());
}

#[test]
fn game_steps_need_a_game() {
    let mut lobby = lobby_of(3);
    assert!(matches!(error_to(&host(&mut lobby, HostMessage::StartMatch), PlayerId(0)), Some(ErrorMessage::NotInGame)));
    assert!(matches!(error_to(&host(&mut lobby, HostMessage::StartRound), PlayerId(0)), Some(ErrorMessage::NotInGame)));
    assert!(matches!(error_to(&host(&mut lobby, HostMessage::AddNewRule), PlayerId(0)), Some(ErrorMessage::NotInGame)));
    assert!(matches!(error_to(&host(&mut lobby, HostMessage::RemoveRule(0)), PlayerId(0)), Some(ErrorMessage::NotInGame)));
    let out = act(&mut lobby, 1, InputPlayerAction::ReportError, 0);
    assert!(matches!(error_to(&out, PlayerId(1)), Some(ErrorMessage::NotInGame)));
}

#[test]
fn a_match_needs_three_players() {
    let mut lobby = lobby_of(2);
    let out = host(&mut lobby, HostMessage::StartGame);
    assert!(matches!(out[..], [Outgoing::Broadcast(ServerMessage::GameStarted(_))]));
    assert!(matches!(error_to(&host(&mut lobby, HostMessage::StartGame), PlayerId(0)), Some(ErrorMessage::AlreadyInGame)));
    match error_to(&host(&mut lobby, HostMessage::StartMatch), PlayerId(0)) {
        Some(ErrorMessage::Other(text)) => assert_eq!(text, "Failed to start round, too few players in lobby (requires a minimum of 3)"),
        _ => panic!("two players are too few"),
    }
}

#[test]
fn a_match_needs_enough_cards() {
    let mut lobby = lobby_of(3);
    let mut settings = LobbySettings::default();
    settings.n_cards_per_player = 21;
    let out = host(&mut lobby, HostMessage::SetSettings(settings));
    assert!(matches!(out[..], [Outgoing::Broadcast(ServerMessage::LobbySettingsUpdated(_))]));
    host(&mut lobby, HostMessage::StartGame);
    match error_to(&host(&mut lobby, HostMessage::StartMatch), PlayerId(0)) {
        Some(ErrorMessage::Other(text)) => assert_eq!(text, "Failed to start round, settings.n_cards_per_player too high for card pool"),
        _ => panic!("63 cards are more than the deck"),
    }
    settings.n_cards_per_player = 20;
    let out = host(&mut lobby, HostMessage::SetSettings(settings));
    assert!(matches!(out[..], [Outgoing::Broadcast(ServerMessage::LobbySettingsUpdated(_)), Outgoing::Broadcast(ServerMessage::ActiveGameSettingsUpdated(_))]));
    let out = host(&mut lobby, HostMessage::StartMatch);
    assert!(matches!(out[..], [Outgoing::Broadcast(ServerMessage::MatchStarted(_))]));
    let m = lobby.game_state.as_ref().unwrap().current_match.as_ref().unwrap();
    assert_eq!(m.card_pool.n_cards(), 1);
    for id in 0..3 {
        assert_eq!(m.players.get_hand(&PlayerId(id)).unwrap().len(), 20);
    }
}

#[test]
fn a_wrong_first_move_reported_ends_the_round() {
    let mut lobby = lobby_of(3);
    let mut settings = LobbySettings::default();
    settings.max_cards_picked_up_when_losing = MaxCardsPickedUpWhenLosing::Unlimited;
    host(&mut lobby, HostMessage::SetSettings(settings));
    host(&mut lobby, HostMessage::StartGame);
    host(&mut lobby, HostMessage::StartMatch);
    assert!(matches!(error_to(&act(&mut lobby, 1, InputPlayerAction::ReportError, 0), PlayerId(1)), Some(ErrorMessage::NotInRound)));
    let out = host(&mut lobby, HostMessage::StartRound);
    let starter = match &out[..] {
        [Outgoing::Broadcast(ServerMessage::RoundStarted(info))] => info.starting_player,
        _ => panic!("the round should start"),
    };
    assert!(starter.0 < 3);
    assert!(matches!(error_to(&host(&mut lobby, HostMessage::StartRound), PlayerId(0)), Some(ErrorMessage::AlreadyInRound)));
    // the starter says five o'clock instead of one
    let wrong = InputPlayerAction::Move(InputPlayerMove::CountAndLayCard(Count::Five));
    let out = act(&mut lobby, starter.0 as u8, wrong, 1_000);
    assert_eq!(out.len(), 1);
    assert!(matches!(out[0], Outgoing::Broadcast(ServerMessage::ActionPerformed(_))));
    let reporter = (starter.0 + 1) % 3;
    let out = act(&mut lobby, reporter as u8, InputPlayerAction::ReportError, 1_200);
    assert_eq!(out.len(), 4);
    match &out[1] {
        Outgoing::Broadcast(ServerMessage::RoundEnded(RoundTerminationType::ErrorReported { reporter: r, errors })) => {
            assert_eq!(r.0, reporter);
            assert_eq!(errors[0].player, starter);
        },
        _ => panic!("the round should end on the report"),
    }
    assert!(matches!(out[2], Outgoing::Broadcast(ServerMessage::PlayerPickedUpRevealedCards { player_id, n_cards: 1 }) if player_id == starter));
    assert!(matches!(out[3], Outgoing::Schedule { delay_ms: 3000, message: AutoMessage::AutoStartRound }));
    let m = lobby.game_state.as_ref().unwrap().current_match.as_ref().unwrap();
    assert!(m.current_round.is_none());
    // the loser got the revealed card back
    assert_eq!(m.players.get_hand(&starter).unwrap().len(), 7);
    // and the loser starts the next round
    let out = host(&mut lobby, HostMessage::StartRound);
    assert!(matches!(&out[..], [Outgoing::Broadcast(ServerMessage::RoundStarted(info))] if info.starting_player == starter));
}

#[test]
fn an_action_timeout_ends_the_round() {
    let mut lobby = lobby_of(3);
    host(&mut lobby, HostMessage::StartGame);
    host(&mut lobby, HostMessage::StartMatch);
    host(&mut lobby, HostMessage::StartRound);
    let out = lobby.handle_auto_message(AutoMessage::ActionTimeout(PlayerId(2)));
    assert!(matches!(out[0], Outgoing::Broadcast(ServerMessage::RoundEnded(RoundTerminationType::Timeout(PlayerId(2))))));
    assert!(matches!(out[1], Outgoing::Broadcast(ServerMessage::PlayerPickedUpRevealedCards { player_id: PlayerId(2), n_cards: 0 })));
    assert!(matches!(out[2], Outgoing::Schedule { delay_ms: 3000, message: AutoMessage::AutoStartRound }));
    assert!(lobby.handle_auto_message(AutoMessage::AutoStartMatch).is_empty());
}

#[test]
fn laying_a_card_needs_a_card() {
    let mut lobby = lobby_of(3);
    let mut settings = LobbySettings::default();
    settings.n_cards_per_player = 0;
    host(&mut lobby, HostMessage::SetSettings(settings));
    host(&mut lobby, HostMessage::StartGame);
    host(&mut lobby, HostMessage::StartMatch);
    host(&mut lobby, HostMessage::StartRound);
    let out = act(&mut lobby, 1, InputPlayerAction::Move(InputPlayerMove::LayCard), 5);
    assert!(matches!(error_to(&out, PlayerId(1)), Some(ErrorMessage::NoCards)));
}

#[test]
fn a_player_leaving_cancels_a_match_of_three() {
    let mut lobby = lobby_of(3);
    host(&mut lobby, HostMessage::StartGame);
    host(&mut lobby, HostMessage::StartMatch);
    let (end, out) = lobby.session_left(session(2), LeftLobbyReason::Left);
    assert!(!end);
    assert!(matches!(out.last(), Some(Outgoing::Broadcast(ServerMessage::MatchEnded(_)))));
    let game = lobby.game_state.as_ref().unwrap();
    assert!(game.current_match.is_none());
    assert_eq!(game.previous_matches.len(), 1);
}

#[test]
fn the_host_transfers_and_edits_rules() {
    let mut lobby = lobby_of(3);
    host(&mut lobby, HostMessage::StartGame);
    assert!(host(&mut lobby, HostMessage::AddNewRule).is_empty());
    assert!(matches!(host(&mut lobby, HostMessage::RemoveRule(1))[..], [Outgoing::Broadcast(ServerMessage::RuleRemoved(1))]));
    assert!(host(&mut lobby, HostMessage::RemoveRule(1)).is_empty());
    assert!(host(&mut lobby, HostMessage::KickPlayer(PlayerId(2))).is_empty());
    match error_to(&host(&mut lobby, HostMessage::TransferHost(PlayerId(8))), PlayerId(0)) {
        Some(ErrorMessage::Other(text)) => assert_eq!(text, "Invalid host transfer recipient"),
        _ => panic!("no such player"),
    }
    let out = host(&mut lobby, HostMessage::TransferHost(PlayerId(2)));
    assert!(matches!(out[..], [Outgoing::Broadcast(ServerMessage::HostChanged(PlayerId(2)))]));
    assert_eq!(lobby.players.host(), PlayerId(2));
    let (_, out) = lobby.handle_lobby_message(session(2), LobbyMessage::FetchLobbyInfo, 0);
    assert!(matches!(&out[..], [Outgoing::SendToPlayer(PlayerId(2), ServerMessage::ConnectedToLobby(info))] if info.host == PlayerId(2)));
}

#[test]
fn lobby_codes_are_random() {
    let codes: Vec<String> = (0..8).map(|_| LobbyCode::new().0).collect();
    assert!(codes.iter().any(|c| *c != codes[0]));
}

fn cards_in_match(lobby: &Lobby) -> usize {
    let m = lobby.game_state.as_ref().unwrap().current_match.as_ref().unwrap();
    let mut n = m.card_pool.n_cards();
    for (_, size) in m.players.hand_sizes() {
        n += size;
    }
    if let Some(round) = &m.current_round {
        n += round.revealed_card_stacks.all_cards().len();
    }
    n
}

#[test]
fn no_card_is_lost_or_added_in_a_match() {
    let mut lobby = lobby_of(4);
    host(&mut lobby, HostMessage::StartGame);
    host(&mut lobby, HostMessage::StartMatch);
    assert_eq!(cards_in_match(&lobby), 61);
    let out = host(&mut lobby, HostMessage::StartRound);
    let starter = match &out[..] {
        [Outgoing::Broadcast(ServerMessage::RoundStarted(info))] => info.starting_player.0,
        _ => panic!("the round should start"),
    };
    act(&mut lobby, starter as u8, InputPlayerAction::Move(InputPlayerMove::LayCard), 10);
    assert_eq!(cards_in_match(&lobby), 61);
    act(&mut lobby, ((starter + 1) % 4) as u8, InputPlayerAction::Move(InputPlayerMove::CountAndLayCard(Count::Two)), 20);
    assert_eq!(cards_in_match(&lobby), 61);
    act(&mut lobby, ((starter + 2) % 4) as u8, InputPlayerAction::ReportError, 30);
    assert_eq!(cards_in_match(&lobby), 61);
    lobby.session_left(session(((starter + 3) % 4) as u8), LeftLobbyReason::Left);
    assert_eq!(cards_in_match(&lobby), 61);
}

#[test]
fn a_win_ends_the_match_and_the_winner_starts_next() {
    let mut lobby = lobby_of(3);
    let mut settings = LobbySettings::default();
    settings.n_cards_per_player = 0;
    host(&mut lobby, HostMessage::SetSettings(settings));
    host(&mut lobby, HostMessage::StartGame);
    host(&mut lobby, HostMessage::StartMatch);
    assert!(matches!(error_to(&host(&mut lobby, HostMessage::StartMatch), PlayerId(0)), Some(ErrorMessage::AlreadyInMatch)));
    let out = host(&mut lobby, HostMessage::StartRound);
    let starter = match &out[..] {
        [Outgoing::Broadcast(ServerMessage::RoundStarted(info))] => info.starting_player,
        _ => panic!("the round should start"),
    };
    let out = act(&mut lobby, starter.0 as u8, InputPlayerAction::DeclareWin, 50);
    assert_eq!(out.len(), 4);
    assert!(matches!(out[1], Outgoing::Broadcast(ServerMessage::RoundEnded(RoundTerminationType::PlayerWonMatch(p))) if p == starter));
    assert!(matches!(out[2], Outgoing::Broadcast(ServerMessage::MatchEnded(crazytime_server::game::game_match::MatchTerminationType::PlayerWonMatch(p))) if p == starter));
    assert!(matches!(out[3], Outgoing::Schedule { delay_ms: 10000, message: AutoMessage::AutoStartMatch }));
    let game = lobby.game_state.as_ref().unwrap();
    assert!(game.current_match.is_none());
    assert_eq!(game.info().last_match_winner, Some(starter));
    host(&mut lobby, HostMessage::StartMatch);
    let out = host(&mut lobby, HostMessage::StartRound);
    assert!(matches!(&out[..], [Outgoing::Broadcast(ServerMessage::RoundStarted(info))] if info.starting_player == starter));
}

#[test]
fn automatic_starts_start_rounds_and_matches_as_the_host_would() {
    let mut lobby = lobby_of(3);
    // no game yet: nothing to start
    assert!(lobby.handle_auto_message(AutoMessage::AutoStartRound).is_empty());
    let mut settings = LobbySettings::default();
    settings.n_cards_per_player = 0;
    host(&mut lobby, HostMessage::SetSettings(settings));
    host(&mut lobby, HostMessage::StartGame);
    // no match yet: no round to start
    assert!(lobby.handle_auto_message(AutoMessage::AutoStartRound).is_empty());
    let out = lobby.handle_auto_message(AutoMessage::AutoStartMatch);
    assert!(matches!(&out[..], [Outgoing::Broadcast(ServerMessage::MatchStarted(_))]));
    // a match is on already
    assert!(lobby.handle_auto_message(AutoMessage::AutoStartMatch).is_empty());
    let out = lobby.handle_auto_message(AutoMessage::AutoStartRound);
    let starter = match &out[..] {
        [Outgoing::Broadcast(ServerMessage::RoundStarted(info))] => info.starting_player,
        _ => panic!("the round should start on its own"),
    };
    assert!(lobby.game_state.as_ref().unwrap().current_match.as_ref().unwrap().current_round.is_some());
    // a round is on already
    assert!(lobby.handle_auto_message(AutoMessage::AutoStartRound).is_empty());
    act(&mut lobby, starter.0 as u8, InputPlayerAction::DeclareWin, 50);
    assert!(lobby.game_state.as_ref().unwrap().current_match.is_none());
    let out = lobby.handle_auto_message(AutoMessage::AutoStartMatch);
    assert!(matches!(&out[..], [Outgoing::Broadcast(ServerMessage::MatchStarted(_))]));
    // the winner of the last match starts
    let out = lobby.handle_auto_message(AutoMessage::AutoStartRound);
    assert!(matches!(&out[..], [Outgoing::Broadcast(ServerMessage::RoundStarted(info))] if info.starting_player == starter));
}

#[test]
fn an_automatic_match_start_needs_three_players() {
    let mut lobby = lobby_of(2);
    host(&mut lobby, HostMessage::StartGame);
    assert!(lobby.handle_auto_message(AutoMessage::AutoStartMatch).is_empty());
    assert!(lobby.game_state.as_ref().unwrap().current_match.is_none());
}
