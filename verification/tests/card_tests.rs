use crazytime_server::card::{Card, CardPool, ClockType, Time};
use crazytime_server::game::round::TimeInterval;

#[test]
fn time_index_counts_half_hours_from_one() {
    assert_eq!(Time::One.get_index(), 0);
    assert_eq!(Time::Three.get_index(), 4);
    assert_eq!(Time::TwelveThirty.get_index(), 23);
    assert_eq!(Time::from_index(4), Time::Three);
    assert_eq!(Time::from_index(23), Time::TwelveThirty);
}

#[test]
fn time_plus_steps_around_the_dial() {
    assert_eq!(Time::One.plus(&TimeInterval::one_hour()), Time::Two);
    assert_eq!(Time::Two.plus(&TimeInterval::thirty_minutes()), Time::TwoThirty);
    assert_eq!(Time::TwelveThirty.plus(&TimeInterval::thirty_minutes()), Time::One);
    assert_eq!(Time::Twelve.plus(&TimeInterval::two_hours()), Time::Two);
    assert_eq!(Time::One.plus(&TimeInterval::minus_one_hour()), Time::Twelve);
    assert_eq!(Time::One.plus(&TimeInterval::minus_thirty_minutes()), Time::TwelveThirty);
    assert_eq!(Time::Three.plus(&TimeInterval::minus_two_hours()), Time::One);
}

#[test]
fn time_plus_then_back_is_the_same_time() {
    let times = [Time::One, Time::FiveThirty, Time::Twelve, Time::TwelveThirty];
    let steps = [
        (TimeInterval::thirty_minutes(), TimeInterval::minus_thirty_minutes()),
        (TimeInterval::one_hour(), TimeInterval::minus_one_hour()),
        (TimeInterval::two_hours(), TimeInterval::minus_two_hours()),
    ];
    for t in times {
        for (forth, back) in steps.iter() {
            assert_eq!(t.plus(forth).plus(back), t);
        }
    }
}

#[test]
fn time_plus_a_full_day_is_the_same_time() {
    assert_eq!(Time::SevenThirty.plus(&TimeInterval(24)), Time::SevenThirty);
    assert_eq!(Time::SevenThirty.plus(&TimeInterval(-24)), Time::SevenThirty);
}

#[test]
fn half_hours_are_thirty() {
    assert!(Time::TwoThirty.is_thirty());
    assert!(Time::TwelveThirty.is_thirty());
    assert!(!Time::Two.is_thirty());
    assert!(!Time::One.is_thirty());
}

#[test]
fn right_angles_need_hands_at_three_or_nine() {
    assert!(Card { clock: ClockType::Watch, time: Time::Three }.is_right_angle());
    assert!(Card { clock: ClockType::Atomic, time: Time::Nine }.is_right_angle());
    assert!(!Card { clock: ClockType::Sun, time: Time::Three }.is_right_angle());
    assert!(!Card { clock: ClockType::Hourglass, time: Time::Nine }.is_right_angle());
    assert!(!Card { clock: ClockType::Chinese, time: Time::Three }.is_right_angle());
    assert!(!Card { clock: ClockType::Watch, time: Time::Four }.is_right_angle());
}

#[test]
fn new_pool_holds_the_standard_deck() {
    let mut pool = CardPool::new();
    assert_eq!(pool.n_cards(), 61);
    let cards = pool.take_cards(61);
    assert_eq!(cards.len(), 61);
    assert_eq!(pool.n_cards(), 0);
    let suns = cards.iter().filter(|c| c.clock == ClockType::Sun).count();
    let time_machines = cards.iter().filter(|c| c.clock == ClockType::TimeMachine).count();
    assert_eq!(suns, 8);
    assert!(time_machines > 0);
    assert!(cards.contains(&Card { clock: ClockType::Sun, time: Time::SevenThirty }));
    assert!(cards.contains(&Card { clock: ClockType::Chinese, time: Time::EightThirty }));
}

#[test]
fn taking_cards_takes_at_most_what_is_there() {
    let mut pool = CardPool::new();
    let seven = pool.take_cards(7);
    assert_eq!(seven.len(), 7);
    assert_eq!(pool.n_cards(), 54);
    let rest = pool.take_cards(100);
    assert_eq!(rest.len(), 54);
    assert_eq!(pool.n_cards(), 0);
    assert_eq!(pool.take_cards(3).len(), 0);
}

#[test]
fn cards_put_back_are_taken_again_last_first() {
    let mut pool = CardPool::new();
    let all = pool.take_cards(61);
    let a = Card { clock: ClockType::Sun, time: Time::One };
    let b = Card { clock: ClockType::Watch, time: Time::Two };
    pool.add_cards(vec![a, b]);
    assert_eq!(pool.n_cards(), 2);
    // the front of the pool is its bottom: the cards come back in the order they went in
    assert_eq!(pool.take_cards(2), vec![a, b]);
    pool.add_cards(all.clone());
    assert_eq!(pool.n_cards(), 61);
}

#[test]
fn new_pools_are_shuffled() {
    let first = CardPool::new().take_cards(61);
    let second = CardPool::new().take_cards(61);
    let third = CardPool::new().take_cards(61);
    // an unshuffled pool would come out the same every time
    assert!(first != second || second != third);
    let mut a = first.clone();
    let mut b = second.clone();
    let key = |c: &Card| (c.clock as usize, c.time.get_index());
    a.sort_by_key(key);
    b.sort_by_key(key);
    assert_eq!(a, b);
}
