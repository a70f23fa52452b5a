use crazytime_server::card::{Card, ClockType, Time};
use crazytime_server::game::game_match::MatchPlayers;
use crazytime_server::game::round::{
    ActionChain, ActionError, Count, ErrorReason, HitType, InputPlayerAction, InputPlayerMove, MoveManager,
    PlayerAction, PlayerActionType, PlayerDirection, PlayerMove, RoundState, RoundTerminationType, TimeInterval,
    TurnManager, ValidCount,
    ValidInputPlayerMove, ValidInputPlayerMoveType,
};
use crazytime_server::game::{ActiveGameSettings, LobbySettings};
use crazytime_server::lobby::PlayerId;
use crazytime_server::player_cards::PlayerCards;

fn three_players() -> MatchPlayers {
    let mut hands = PlayerCards::new();
    for id in 0..3usize {
        hands.insert(PlayerId(id), vec![Card { clock: ClockType::Watch, time: Time::Five }]);
    }
    MatchPlayers::new(vec![PlayerId(0), PlayerId(1), PlayerId(2)], hands)
}

fn settings() -> ActiveGameSettings {
    ActiveGameSettings::from(&LobbySettings::default())
}

#[test]
fn counts_and_times_convert_both_ways() {
    assert_eq!(Count::from(Time::Three), Count::Three);
    assert_eq!(Count::from(Time::TwelveThirty), Count::TwelveThirty);
    assert_eq!(Time::try_from(Count::Three), Ok(Time::Three));
    assert_eq!(Time::try_from(Count::TwelveThirty), Ok(Time::TwelveThirty));
    assert_eq!(Time::try_from(Count::Zero), Err(()));
    assert_eq!(Time::try_from(Count::Thirteen), Err(()));
    assert_eq!(Time::try_from(Count::NameOfThisRule), Err(()));
    for i in 0..24usize {
        let t = Time::from_index(i);
        assert_eq!(Time::try_from(Count::from(t)), Ok(t));
    }
}

#[test]
fn valid_counts_are_times_or_the_name_of_the_rule() {
    assert_eq!(ValidCount::try_from(Count::Two), Ok(ValidCount::Time(Time::Two)));
    assert_eq!(ValidCount::try_from(Count::NameOfThisRule), Ok(ValidCount::NameOfThisRule));
    assert_eq!(ValidCount::try_from(Count::NineteenThirty), Err(()));
    assert_eq!(
        ValidInputPlayerMoveType::try_from(InputPlayerMove::CountAndLayCard(Count::One)),
        Ok(ValidInputPlayerMoveType::CountAndLayCard(ValidCount::Time(Time::One)))
    );
    assert_eq!(ValidInputPlayerMoveType::try_from(InputPlayerMove::LayCard), Ok(ValidInputPlayerMoveType::LayCard));
    assert_eq!(ValidInputPlayerMoveType::try_from(InputPlayerMove::Count(Count::Zero)), Err(()));
}

#[test]
fn moves_tell_their_count() {
    assert_eq!(InputPlayerMove::CountAndLayCard(Count::Four).get_count(), Some(Count::Four));
    assert_eq!(InputPlayerMove::Count(Count::Zero).get_count(), Some(Count::Zero));
    assert_eq!(InputPlayerMove::LayCard.get_count(), None);
    let m = ValidInputPlayerMoveType::Count(ValidCount::NameOfThisRule);
    assert_eq!(m.get_count(), Some(&ValidCount::NameOfThisRule));
    assert_eq!(ValidInputPlayerMoveType::LayCard.get_count(), None);
}

#[test]
fn directions_toggle() {
    let mut interval = TimeInterval::one_hour();
    interval.toggle_direction();
    assert_eq!(interval.0, -2);
    interval.toggle_direction();
    assert_eq!(interval.0, 2);
    let mut direction = PlayerDirection::forward();
    direction.toggle_direction();
    assert_eq!(direction.0, PlayerDirection::reverse().0);
}

#[test]
fn the_first_count_is_one_and_then_one_hour_more() {
    let mut moves = MoveManager { count_interval: TimeInterval::one_hour(), next_move: None };
    let mut previous: Vec<ValidInputPlayerMove> = Vec::new();
    let first = moves.process(&previous, InputPlayerMove::CountAndLayCard(Count::One));
    assert_eq!(first, Some(ValidInputPlayerMoveType::CountAndLayCard(ValidCount::Time(Time::One))));
    previous.push(ValidInputPlayerMove { player: PlayerId(0), move_type: first.unwrap() });
    assert_eq!(moves.process(&previous, InputPlayerMove::CountAndLayCard(Count::Three)), None);
    assert_eq!(moves.process(&previous, InputPlayerMove::Count(Count::Two)), None);
    assert_eq!(
        moves.process(&previous, InputPlayerMove::CountAndLayCard(Count::Two)),
        Some(ValidInputPlayerMoveType::CountAndLayCard(ValidCount::Time(Time::Two)))
    );
}

#[test]
fn a_fixed_next_move_is_used_once() {
    let mut moves = MoveManager { count_interval: TimeInterval::one_hour(), next_move: None };
    let previous: Vec<ValidInputPlayerMove> = Vec::new();
    moves.set_next_move(ValidInputPlayerMoveType::LayCard);
    assert_eq!(moves.process(&previous, InputPlayerMove::LayCard), Some(ValidInputPlayerMoveType::LayCard));
    // the fixed move is gone: laying without counting is wrong again
    assert_eq!(moves.process(&previous, InputPlayerMove::LayCard), None);
}

#[test]
fn the_direction_and_the_next_players_can_be_set() {
    let players = three_players();
    let mut turns = TurnManager::new(PlayerId(1));
    assert_eq!(turns.starting_player(), PlayerId(1));
    assert_eq!(turns.direction().0, 1);
    turns.set_direction(PlayerDirection::reverse());
    assert_eq!(turns.direction().0, -1);
    // backwards from player 1 comes player 0
    assert!(!turns.process(PlayerId(2), Some(&PlayerId(1)), &players));
    assert!(turns.process(PlayerId(0), Some(&PlayerId(1)), &players));
    // either of two fixed players may go next, once
    turns.set_next_players(Some(vec![PlayerId(1), PlayerId(2)]));
    assert!(turns.process(PlayerId(2), Some(&PlayerId(0)), &players));
    turns.set_next_players(Some(vec![PlayerId(1), PlayerId(2)]));
    assert!(!turns.process(PlayerId(0), Some(&PlayerId(0)), &players));
    turns.set_next_players(None);
    assert!(turns.process(PlayerId(2), Some(&PlayerId(0)), &players));
}

#[test]
fn turns_go_round_the_order() {
    let players = three_players();
    let mut turns = TurnManager::new(PlayerId(1));
    assert!(!turns.process(PlayerId(0), None, &players));
    assert!(turns.process(PlayerId(1), None, &players));
    assert!(turns.process(PlayerId(2), Some(&PlayerId(1)), &players));
    assert!(turns.process(PlayerId(0), Some(&PlayerId(2)), &players));
    assert!(!turns.process(PlayerId(2), Some(&PlayerId(0)), &players));
    turns.set_next_player(PlayerId(2));
    assert!(turns.process(PlayerId(2), Some(&PlayerId(0)), &players));
}

#[test]
fn a_wrong_move_then_a_report_ends_the_round() {
    let players = three_players();
    let settings = settings();
    let round = RoundState::new(PlayerId(0));
    let mut chain = round.action_chain;
    // player 0 starts, but says five o'clock
    let t = chain.process_action(PlayerId(0), InputPlayerAction::Move(InputPlayerMove::CountAndLayCard(Count::Five)), &settings, &players, 1_000);
    assert!(t.is_none());
    assert!(matches!(chain, ActionChain::ReportError { .. }));
    let t = chain.process_action(PlayerId(1), InputPlayerAction::ReportError, &settings, &players, 1_500);
    match t {
        Some(RoundTerminationType::ErrorReported { reporter, errors }) => {
            assert_eq!(reporter, PlayerId(1));
            assert_eq!(errors.len(), 1);
            assert_eq!(errors[0].player, PlayerId(0));
            assert_eq!(errors[0].occured, 1_000);
            assert!(matches!(errors[0].reason, ErrorReason::InvalidMove));
        },
        _ => panic!("the report should end the round"),
    }
}

#[test]
fn a_report_without_an_error_is_faulty() {
    let players = three_players();
    let settings = settings();
    let mut chain = RoundState::new(PlayerId(0)).action_chain;
    let t = chain.process_action(PlayerId(2), InputPlayerAction::ReportError, &settings, &players, 10);
    assert!(matches!(t, Some(RoundTerminationType::FaultyErrorReport(PlayerId(2)))));
}

#[test]
fn acting_out_of_turn_is_an_error() {
    let players = three_players();
    let settings = settings();
    let mut chain = RoundState::new(PlayerId(0)).action_chain;
    let t = chain.process_action(PlayerId(2), InputPlayerAction::Move(InputPlayerMove::CountAndLayCard(Count::One)), &settings, &players, 10);
    assert!(t.is_none());
    match &chain {
        ActionChain::ReportError { errors, .. } => {
            assert_eq!(errors.len(), 1);
            assert_eq!(errors[0].player, PlayerId(2));
            assert!(matches!(errors[0].reason, ErrorReason::MoveOutOfTurn));
        },
        _ => panic!("acting out of turn should be an error"),
    }
}

#[test]
fn hitting_the_pile_when_no_one_should_is_an_error() {
    let players = three_players();
    let settings = settings();
    let mut chain = RoundState::new(PlayerId(0)).action_chain;
    let t = chain.process_action(PlayerId(1), InputPlayerAction::Hit(HitType::Single), &settings, &players, 10);
    assert!(t.is_none());
    assert!(matches!(chain, ActionChain::ReportError { .. }));
}

#[test]
fn the_last_to_hit_loses() {
    let players = three_players();
    let settings = settings();
    let mut chain = ActionChain::Hit { players: vec![PlayerId(0), PlayerId(1), PlayerId(2)], hit_type: HitType::Single };
    assert!(chain.process_action(PlayerId(1), InputPlayerAction::Hit(HitType::Single), &settings, &players, 10).is_none());
    assert!(chain.process_action(PlayerId(0), InputPlayerAction::Hit(HitType::Single), &settings, &players, 20).is_none());
    let t = chain.process_action(PlayerId(2), InputPlayerAction::Hit(HitType::Single), &settings, &players, 30);
    assert!(matches!(t, Some(RoundTerminationType::HitPileLast(PlayerId(2)))));
}

#[test]
fn losers_of_round_endings() {
    let error = ActionError { player: PlayerId(2), occured: 5, reason: ErrorReason::InvalidMove };
    let reported = RoundTerminationType::ErrorReported { reporter: PlayerId(0), errors: vec![error] };
    assert_eq!(reported.get_loser(), Some(&PlayerId(2)));
    assert_eq!(RoundTerminationType::FaultyErrorReport(PlayerId(1)).get_loser(), Some(&PlayerId(1)));
    assert_eq!(RoundTerminationType::HitPileLast(PlayerId(0)).get_loser(), Some(&PlayerId(0)));
    assert_eq!(RoundTerminationType::FaultyWinDeclaration(PlayerId(1)).get_loser(), Some(&PlayerId(1)));
    assert_eq!(RoundTerminationType::Timeout(PlayerId(2)).get_loser(), Some(&PlayerId(2)));
    assert_eq!(RoundTerminationType::PlayerWonMatch(PlayerId(0)).get_loser(), None);
}

#[test]
fn a_new_round_starts_empty() {
    let round = RoundState::new(PlayerId(4));
    assert_eq!(round.starting_player, PlayerId(4));
    assert_eq!(round.player_actions.len(), 0);
    assert_eq!(round.revealed_card_stacks.len(), 0);
    assert!(round.previous_move().is_none());
    assert_eq!(round.get_previous_moves().len(), 0);
    let info = round.info();
    assert_eq!(info.starting_player, PlayerId(4));
}

#[test]
fn hitting_wrongly_is_an_error() {
    let players = three_players();
    let settings = settings();
    let mut chain = ActionChain::Hit { players: vec![PlayerId(0), PlayerId(1)], hit_type: HitType::Double };
    assert!(chain.process_action(PlayerId(0), InputPlayerAction::Hit(HitType::Single), &settings, &players, 10).is_none());
    match &chain {
        ActionChain::ReportError { errors, .. } => {
            assert_eq!(errors.len(), 1);
            assert!(matches!(errors[0].reason, ErrorReason::InvalidHitType));
        },
        _ => panic!("the wrong hand is an error"),
    }
    let mut chain = ActionChain::Hit { players: vec![PlayerId(0), PlayerId(1)], hit_type: HitType::Double };
    assert!(chain.process_action(PlayerId(2), InputPlayerAction::Hit(HitType::Double), &settings, &players, 10).is_none());
    match &chain {
        ActionChain::ReportError { errors, .. } => assert!(matches!(errors[0].reason, ErrorReason::InvalidHit)),
        _ => panic!("a player who is not to hit errs"),
    }
}

#[test]
fn declaring_a_win_needs_an_empty_hand() {
    let players = three_players();
    let settings = settings();
    let mut chain = RoundState::new(PlayerId(0)).action_chain;
    let t = chain.process_action(PlayerId(0), InputPlayerAction::DeclareWin, &settings, &players, 10);
    assert!(matches!(t, Some(RoundTerminationType::FaultyWinDeclaration(PlayerId(0)))));
    let mut hands = PlayerCards::new();
    for id in 0..3usize {
        hands.insert(PlayerId(id), Vec::new());
    }
    let empty_handed = MatchPlayers::new(vec![PlayerId(0), PlayerId(1), PlayerId(2)], hands);
    let mut chain = RoundState::new(PlayerId(0)).action_chain;
    let t = chain.process_action(PlayerId(0), InputPlayerAction::DeclareWin, &settings, &empty_handed, 10);
    assert!(matches!(t, Some(RoundTerminationType::PlayerWonMatch(PlayerId(0)))));
}

#[test]
fn errors_once_made_stay_first_in_the_chain() {
    let players = three_players();
    let settings = settings();
    let mut chain = RoundState::new(PlayerId(0)).action_chain;
    // out of turn: the first error
    assert!(chain.process_action(PlayerId(2), InputPlayerAction::Move(InputPlayerMove::Count(Count::One)), &settings, &players, 10).is_none());
    // a hit when nobody should hit, long after: a second error, after the first
    assert!(chain.process_action(PlayerId(1), InputPlayerAction::Hit(HitType::Single), &settings, &players, 100_000).is_none());
    // another move out of turn, later still: a third
    assert!(chain.process_action(PlayerId(1), InputPlayerAction::Move(InputPlayerMove::Count(Count::Two)), &settings, &players, 200_000).is_none());
    match &chain {
        ActionChain::ReportError { errors, .. } => {
            assert_eq!(errors.len(), 3);
            assert_eq!(errors[0].player, PlayerId(2));
            assert!(matches!(errors[0].reason, ErrorReason::MoveOutOfTurn));
            assert_eq!(errors[1].player, PlayerId(1));
            assert!(matches!(errors[1].reason, ErrorReason::InvalidHit));
            assert!(matches!(errors[2].reason, ErrorReason::MoveOutOfTurn));
        },
        _ => panic!("the errors should stay in the chain"),
    }
}

#[test]
fn previous_moves_come_in_the_order_they_were_made() {
    let mut round = RoundState::new(PlayerId(0));
    let card = Card { clock: ClockType::Watch, time: Time::One };
    round.player_actions.push(PlayerAction {
        player_id: PlayerId(0),
        time: 1,
        action_type: PlayerActionType::Move(PlayerMove::CountAndLayCard { card, count: Count::One }),
    });
    round.player_actions.push(PlayerAction { player_id: PlayerId(2), time: 2, action_type: PlayerActionType::ReportError });
    round.player_actions.push(PlayerAction {
        player_id: PlayerId(1),
        time: 3,
        action_type: PlayerActionType::Move(PlayerMove::Count(Count::Two)),
    });
    let moves = round.get_previous_moves();
    assert_eq!(moves.len(), 2);
    assert_eq!(moves[0].0, PlayerId(0));
    assert!(matches!(moves[0].1, PlayerMove::CountAndLayCard { count: Count::One, .. }));
    assert_eq!(moves[1].0, PlayerId(1));
    assert!(matches!(moves[1].1, PlayerMove::Count(Count::Two)));
}
