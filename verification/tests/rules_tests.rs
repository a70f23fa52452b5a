use crazytime_server::card::{Card, ClockType, Time};
use crazytime_server::game::GameContext;
use crazytime_server::game::round::{ActionChain, ActionChainMoves, Count, MoveManager, PlayerMove, RoundState, TimeInterval};
use crazytime_server::lobby::PlayerId;
use crazytime_server::player_cards::PlayerCards;
use crazytime_server::rules::{
    Criteria, CriteriaKind, Description, EffectDuration, Rule, RuleKind, RuleManager, apply_rule,
};

fn effect_after(manager: &RuleManager, moves: &Vec<(PlayerId, PlayerMove)>) -> Option<RuleKind> {
    let players = vec![PlayerId(0), PlayerId(1), PlayerId(2)];
    let stacks = PlayerCards::new();
    let ctx = GameContext {
        players: &players,
        n_cards_in_pool: 40,
        previous_match_winner: None,
        previous_moves: moves,
        revealed_card_stacks: &stacks,
    };
    manager.get_new_active_effect(&ctx).map(|e| {
        assert_eq!(e.duration.0, 1);
        e.handler
    })
}

#[test]
fn a_game_starts_with_the_two_starting_rules() {
    let manager = RuleManager::new();
    let rules = manager.active_rules();
    assert_eq!(rules.len(), 2);
    assert_eq!(rules[0].criteria.english, "When the current player says the same time as the card they revealed");
    assert_eq!(rules[0].rule.english, "everyone should hit in the middle with one hand. the latest player loses the round");
    assert_eq!(rules[1].criteria.english, "When the revealed card is of type TimeMachine");
    assert_eq!(rules[1].rule.english, "from now on the count direction should reverse");
}

#[test]
fn a_new_rule_needs_a_rule_to_draw() {
    let mut manager = RuleManager::new();
    // the pool of rules to draw from is empty, so no rule is ever added
    assert!(manager.add_rule().is_err());
    assert_eq!(manager.active_rules().len(), 2);
}

#[test]
fn rules_are_removed_by_position() {
    let mut manager = RuleManager::new();
    assert!(!manager.remove_rule(&2));
    assert_eq!(manager.active_rules().len(), 2);
    assert!(manager.remove_rule(&0));
    let rules = manager.active_rules();
    assert_eq!(rules.len(), 1);
    assert_eq!(rules[0].criteria.english, "When the revealed card is of type TimeMachine");
}

#[test]
fn saying_the_time_of_the_revealed_card_makes_everyone_hit() {
    let manager = RuleManager::new();
    let moves = vec![(PlayerId(0), PlayerMove::CountAndLayCard { card: Card { clock: ClockType::Sun, time: Time::One }, count: Count::One })];
    assert_eq!(effect_after(&manager, &moves), Some(RuleKind::EveryoneHitsOnce));
}

#[test]
fn revealing_a_time_machine_reverses_the_count() {
    let manager = RuleManager::new();
    let moves = vec![(PlayerId(0), PlayerMove::CountAndLayCard { card: Card { clock: ClockType::TimeMachine, time: Time::Four }, count: Count::One })];
    assert_eq!(effect_after(&manager, &moves), Some(RuleKind::ReverseCountDirection));
}

#[test]
fn two_rules_at_once_cancel_out() {
    let manager = RuleManager::new();
    let moves = vec![(PlayerId(0), PlayerMove::CountAndLayCard { card: Card { clock: ClockType::TimeMachine, time: Time::One }, count: Count::One })];
    assert_eq!(effect_after(&manager, &moves), None);
}

#[test]
fn no_rule_applies_without_a_reason() {
    let manager = RuleManager::new();
    let moves = vec![(PlayerId(0), PlayerMove::CountAndLayCard { card: Card { clock: ClockType::Watch, time: Time::Four }, count: Count::One })];
    assert_eq!(effect_after(&manager, &moves), None);
    let none: Vec<(PlayerId, PlayerMove)> = Vec::new();
    assert_eq!(effect_after(&manager, &none), None);
}

#[test]
fn criteria_judge_the_revealed_cards() {
    let players = vec![PlayerId(0), PlayerId(1)];
    let stacks = PlayerCards::new();
    let moves = vec![
        (PlayerId(0), PlayerMove::CountAndLayCard { card: Card { clock: ClockType::Yellow, time: Time::Nine }, count: Count::One }),
        (PlayerId(1), PlayerMove::CountAndLayCard { card: Card { clock: ClockType::Yellow, time: Time::ThreeThirty }, count: Count::Two }),
    ];
    let ctx = GameContext { players: &players, n_cards_in_pool: 0, previous_match_winner: None, previous_moves: &moves, revealed_card_stacks: &stacks };
    assert!(Criteria::of(CriteriaKind::SameClockAsPreviousCard).applies(&ctx));
    assert!(!Criteria::of(CriteriaKind::SameTimeAsPreviousCard).applies(&ctx));
    assert!(Criteria::of(CriteriaKind::RevealedThirty).applies(&ctx));
    assert!(Criteria::of(CriteriaKind::RevealedClock(ClockType::Yellow)).applies(&ctx));
    assert!(Criteria::of(CriteriaKind::RevealedTime(Time::ThreeThirty)).applies(&ctx));
    assert!(!Criteria::of(CriteriaKind::RightAngle).applies(&ctx));
    assert!(!Criteria::of(CriteriaKind::SaidTimeOfRevealedCard).applies(&ctx));
    assert_eq!(ctx.get_just_revealed_card(), Some(Card { clock: ClockType::Yellow, time: Time::ThreeThirty }));
    assert_eq!(ctx.get_just_said_count(), Some(Count::Two));
    assert_eq!(ctx.get_previous_counts(), vec![Count::Two, Count::One]);
    assert_eq!(ctx.get_previous_cards().len(), 2);
    assert_eq!(ctx.get_n_previous_cards(2).unwrap()[1], Card { clock: ClockType::Yellow, time: Time::Nine });
    assert!(ctx.get_n_previous_cards(3).is_none());
}

#[test]
fn rules_reshape_the_chain_of_moves() {
    let players = vec![PlayerId(0), PlayerId(1), PlayerId(2)];
    let stacks = PlayerCards::new();
    let moves: Vec<(PlayerId, PlayerMove)> = Vec::new();
    let ctx = GameContext { players: &players, n_cards_in_pool: 0, previous_match_winner: None, previous_moves: &moves, revealed_card_stacks: &stacks };
    let chain = RoundState::new(PlayerId(0)).action_chain;
    let parts = match chain {
        ActionChain::Moves { previous_moves, turn_manager, move_manager } => ActionChainMoves { previous_moves, turn_manager, move_manager },
        _ => panic!("a round starts with a chain of moves"),
    };
    match apply_rule(RuleKind::ReverseCountDirection, parts, &ctx) {
        ActionChain::Moves { move_manager, .. } => assert_eq!(move_manager.count_interval.0, -2),
        _ => panic!("reversing keeps a chain of moves"),
    }
    let parts = ActionChainMoves {
        previous_moves: Vec::new(),
        turn_manager: crazytime_server::game::round::TurnManager::new(PlayerId(1)),
        move_manager: MoveManager { count_interval: TimeInterval::one_hour(), next_move: None },
    };
    let rule = Rule::of(RuleKind::EveryoneHitsOnce);
    match rule.apply(parts, &ctx) {
        ActionChain::Hit { players: hitters, .. } => assert_eq!(hitters, players),
        _ => panic!("everyone is to hit"),
    }
}

#[test]
fn effects_last_for_their_duration() {
    let mut duration = EffectDuration(2);
    assert!(!duration.decrease());
    assert!(duration.decrease());
    assert_eq!(duration.0, 0);
    assert!(duration.decrease());
}

#[test]
fn descriptions_keep_their_text() {
    let d = Description::new("hello");
    assert_eq!(d.english, "hello");
}
