use crazytime_server::card::{Card, ClockType, Time};
use crazytime_server::game::game_match::{MatchPlayers, MatchState, MatchTerminationType};
use crazytime_server::game::round::{InputPlayerAction, InputPlayerMove};
use crazytime_server::game::{ActiveGameSettings, GameMessage, GameState, LobbySettings, MaxCardsPickedUpWhenLosing, StartMatchError};
use crazytime_server::lobby::{LobbyPlayers, Outgoing, PlayerId};
use crazytime_server::player::{PlayerState, ValidPlayerMove};
use crazytime_server::player_cards::PlayerCards;
use crazytime_server::{ErrorMessage, ServerMessage, SessionId};

fn card(clock: ClockType, time: Time) -> Card {
    Card { clock, time }
}

fn lobby_players(n: u8) -> LobbyPlayers {
    let mut players = LobbyPlayers::new(SessionId::from_bytes([0; 32]));
    for k in 1..n {
        players.add_player(SessionId::from_bytes([k; 32])).unwrap();
    }
    players
}

#[test]
fn default_settings() {
    let s = LobbySettings::default();
    assert_eq!(s.max_players, 10);
    assert_eq!(s.expected_error_reaction_time, 2000);
    assert_eq!(s.cards_removed_at_correct_error_report, 0);
    assert_eq!(s.max_cards_picked_up_when_losing, MaxCardsPickedUpWhenLosing::Finite(5));
    assert_eq!(s.n_cards_per_player, 7);
    assert_eq!(s.action_timeout_rate, 10000);
    assert_eq!(s.auto_start_match, Some(10000));
    assert_eq!(s.auto_start_round, Some(3000));
}

#[test]
fn game_settings_follow_the_lobby_settings() {
    let mut lobby = LobbySettings::default();
    let mut active = ActiveGameSettings::from(&lobby);
    assert_eq!(active.n_cards_per_player, 7);
    assert!(!active.update(lobby));
    lobby.max_players = 3;
    // the player limit is no game setting
    assert!(!active.update(lobby));
    lobby.auto_start_round = None;
    assert!(active.update(lobby));
    assert_eq!(active.auto_start_round, None);
    assert!(!active.update(lobby));
}

#[test]
fn starting_a_match_checks_players_and_cards() {
    let mut game = GameState::new(&LobbySettings::default());
    let (r, out) = game.start_match(&lobby_players(2));
    assert!(matches!(r, Err(StartMatchError::TooFewPlayers)));
    assert!(out.is_empty());
    let mut settings = LobbySettings::default();
    settings.n_cards_per_player = 16;
    game.lobby_settings_updated(settings);
    let (r, _) = game.start_match(&lobby_players(4));
    assert!(matches!(r, Err(StartMatchError::TooHighNCardsPerPlayer)));
    settings.n_cards_per_player = 15;
    assert!(game.lobby_settings_updated(settings).is_some());
    assert!(game.lobby_settings_updated(settings).is_none());
    let (r, out) = game.start_match(&lobby_players(4));
    assert!(r.is_ok());
    assert!(matches!(out[..], [Outgoing::Broadcast(ServerMessage::MatchStarted(_))]));
    let m = game.current_match.as_ref().unwrap();
    assert_eq!(m.card_pool.n_cards(), 1);
    assert_eq!(m.players.n_players(), 4);
    let (r, _) = game.start_match(&lobby_players(4));
    assert!(matches!(r, Err(StartMatchError::AlreadyOngoingMatch)));
    let info = game.info();
    assert!(info.current_match.is_some());
    assert_eq!(info.active_rules.len(), 2);
    assert!(info.last_match_winner.is_none());
}

#[test]
fn actions_need_a_match_and_a_round() {
    let mut game = GameState::new(&LobbySettings::default());
    let action = GameMessage::ActionPerformed(InputPlayerAction::Move(InputPlayerMove::LayCard));
    assert!(game.message_is_safe(PlayerId(0), &action, 0));
    let out = game.handle_message(PlayerId(0), action, 0);
    assert!(matches!(out[..], [Outgoing::SendToPlayer(PlayerId(0), ServerMessage::Error(ErrorMessage::NotInMatch))]));
    game.start_match(&lobby_players(3));
    let action = GameMessage::ActionPerformed(InputPlayerAction::DeclareWin);
    let out = game.handle_message(PlayerId(1), action, 0);
    assert!(matches!(out[..], [Outgoing::SendToPlayer(PlayerId(1), ServerMessage::Error(ErrorMessage::NotInRound))]));
}

#[test]
fn a_match_deals_the_deck() {
    let players = lobby_players(3);
    let m = MatchState::new(&players, 7).ok().unwrap();
    assert_eq!(m.card_pool.n_cards(), 61 - 21);
    let mut all: Vec<Card> = Vec::new();
    for id in 0..3 {
        all.extend(m.players.get_hand(&PlayerId(id)).unwrap().iter().copied());
    }
    assert_eq!(all.len(), 21);
    assert_eq!(m.info().players, vec![(PlayerId(0), 7), (PlayerId(1), 7), (PlayerId(2), 7)]);
    assert!(MatchState::new(&players, 21).is_err());
    assert!(MatchState::new(&players, 20).is_ok());
    // a count whose product with the number of players overflows is refused too
    assert!(MatchState::new(&players, usize::MAX / 2).is_err());
    assert!(MatchState::new(&players, usize::MAX).is_err());
}

#[test]
fn a_round_without_a_round_ends_nothing() {
    let players = lobby_players(3);
    let mut m = MatchState::new(&players, 2).ok().unwrap();
    let settings = ActiveGameSettings::from(&LobbySettings::default());
    let (won, messages) = m.round_terminated(crazytime_server::game::round::RoundTerminationType::HitPileLast(PlayerId(1)), &settings);
    assert!(!won);
    assert!(messages.is_empty());
}

#[test]
fn leaving_players_give_their_cards_to_the_pool() {
    let mut game = GameState::new(&LobbySettings::default());
    game.start_match(&lobby_players(4));
    assert!(game.handle_player_left(&PlayerId(9)).is_empty());
    let out = game.handle_player_left(&PlayerId(3));
    assert!(out.is_empty());
    let m = game.current_match.as_ref().unwrap();
    assert_eq!(m.players.n_players(), 3);
    assert_eq!(m.card_pool.n_cards(), 61 - 28 + 7);
    let out = game.handle_player_left(&PlayerId(0));
    assert!(matches!(out[..], [Outgoing::Broadcast(ServerMessage::MatchEnded(MatchTerminationType::MatchCancelled))]));
    assert!(game.current_match.is_none());
    assert!(matches!(game.previous_matches[0].match_termination, Some(MatchTerminationType::MatchCancelled)));
}

#[test]
fn hands_are_stacks_of_cards() {
    let mut hands = PlayerCards::new();
    hands.insert(PlayerId(2), vec![card(ClockType::Sun, Time::One)]);
    hands.insert(PlayerId(0), Vec::new());
    hands.push_card(PlayerId(2), card(ClockType::Watch, Time::Two));
    hands.push_card(PlayerId(5), card(ClockType::Purple, Time::Ten));
    assert_eq!(hands.len(), 3);
    assert_eq!(hands.keys(), vec![PlayerId(2), PlayerId(0), PlayerId(5)]);
    assert_eq!(hands.sizes(), vec![(PlayerId(2), 2), (PlayerId(0), 0), (PlayerId(5), 1)]);
    assert_eq!(hands.pop_card(&PlayerId(2)), Some(card(ClockType::Watch, Time::Two)));
    assert_eq!(hands.pop_card(&PlayerId(0)), None);
    hands.put_under(&PlayerId(0), vec![card(ClockType::Yellow, Time::Three), card(ClockType::Atomic, Time::Four)]);
    assert_eq!(hands.take_cards(&PlayerId(0), 5), vec![card(ClockType::Atomic, Time::Four), card(ClockType::Yellow, Time::Three)]);
    assert_eq!(hands.all_cards(), vec![card(ClockType::Sun, Time::One), card(ClockType::Purple, Time::Ten)]);
    assert!(hands.contains_key(&PlayerId(5)));
    assert_eq!(hands.remove(&PlayerId(5)), Some(vec![card(ClockType::Purple, Time::Ten)]));
    assert!(!hands.contains_key(&PlayerId(5)));
    assert_eq!(hands.copy().len(), 2);
}

#[test]
fn match_players_keep_their_order() {
    let mut hands = PlayerCards::new();
    hands.insert(PlayerId(0), vec![card(ClockType::Sun, Time::One), card(ClockType::Sun, Time::Three)]);
    hands.insert(PlayerId(1), Vec::new());
    let mut players = MatchPlayers::new(vec![PlayerId(0), PlayerId(1)], hands);
    assert_eq!(players.get(1), Some(&PlayerId(1)));
    assert_eq!(players.get(2), None);
    assert_eq!(players.get_index(&PlayerId(1)), Some(1));
    assert_eq!(players.get_index(&PlayerId(7)), None);
    assert_eq!(players.take_card(&PlayerId(0)), Some(card(ClockType::Sun, Time::Three)));
    assert_eq!(players.take_card(&PlayerId(1)), None);
    players.add_cards_to_hand(&PlayerId(1), vec![card(ClockType::Watch, Time::Six)]);
    assert_eq!(players.take_cards(&PlayerId(1), 3), vec![card(ClockType::Watch, Time::Six)]);
    assert_eq!(players.add_player(PlayerId(4), Vec::new()), (true, 2));
    assert_eq!(players.add_player(PlayerId(1), Vec::new()), (false, 1));
    assert_eq!(players.hand_sizes(), vec![(PlayerId(0), 1), (PlayerId(1), 0), (PlayerId(4), 0)]);
    assert_eq!(players.remove_player(&PlayerId(0)), Some(vec![card(ClockType::Sun, Time::One)]));
    assert_eq!(players.get_player_vec(), &vec![PlayerId(1), PlayerId(4)]);
}

#[test]
fn player_states_start_without_cards() {
    let id = crazytime_server::player::PlayerId::new();
    let state = PlayerState::new(id, 3);
    assert_eq!(state.public_id, 3);
    assert!(state.card_hand.is_empty());
    assert!(state.id == id);
    let m = ValidPlayerMove::Count(Time::Two);
    assert!(matches!(m, ValidPlayerMove::Count(Time::Two)));
}
