//! Cards, clock faces and the half-hour times printed on them, and the shuffled pool
//! that the cards are dealt from.
use std::collections::VecDeque;

use vstd::prelude::*;

use crate::game::round::TimeInterval;
use crate::random::shuffle_in_place;

verus! {

/// The kind of clock drawn on a card.
#[derive(Clone, Copy, Debug, PartialEq, Eq, Structural, Hash)]
pub enum ClockType {
    Sun,
    Hourglass,
    Chinese,
    Yellow,
    Purple,
    Watch,
    Atomic,
    TimeMachine,
}

/// A time of day on a twelve-hour dial, in half-hour steps.
#[derive(Clone, Copy, Debug, PartialEq, Eq, Structural, Hash)]
pub enum Time {
    One,
    OneThirty,
    Two,
    TwoThirty,
    Three,
    ThreeThirty,
    Four,
    FourThirty,
    Five,
    FiveThirty,
    Six,
    SixThirty,
    Seven,
    SevenThirty,
    Eight,
    EightThirty,
    Nine,
    NineThirty,
    Ten,
    TenThirty,
    Eleven,
    ElevenThirty,
    Twelve,
    TwelveThirty,
}

/// A card: a clock face showing a time.
#[derive(Clone, Copy, Debug, PartialEq, Eq, Structural, Hash)]
pub struct Card {
    pub clock: ClockType,
    pub time: Time,
}

/// The position of a time on the dial, counted in half hours from one o'clock (0..24).
pub open spec fn time_index(t: Time) -> int {
    match t {
        Time::One => 0,
        Time::OneThirty => 1,
        Time::Two => 2,
        Time::TwoThirty => 3,
        Time::Three => 4,
        Time::ThreeThirty => 5,
        Time::Four => 6,
        Time::FourThirty => 7,
        Time::Five => 8,
        Time::FiveThirty => 9,
        Time::Six => 10,
        Time::SixThirty => 11,
        Time::Seven => 12,
        Time::SevenThirty => 13,
        Time::Eight => 14,
        Time::EightThirty => 15,
        Time::Nine => 16,
        Time::NineThirty => 17,
        Time::Ten => 18,
        Time::TenThirty => 19,
        Time::Eleven => 20,
        Time::ElevenThirty => 21,
        Time::Twelve => 22,
        Time::TwelveThirty => 23,
    }
}

/// The time at a position of the dial; the inverse of `time_index` on 0..24.
pub open spec fn time_at(i: int) -> Time {
    if i == 0 { Time::One }
    else if i == 1 { Time::OneThirty }
    else if i == 2 { Time::Two }
    else if i == 3 { Time::TwoThirty }
    else if i == 4 { Time::Three }
    else if i == 5 { Time::ThreeThirty }
    else if i == 6 { Time::Four }
    else if i == 7 { Time::FourThirty }
    else if i == 8 { Time::Five }
    else if i == 9 { Time::FiveThirty }
    else if i == 10 { Time::Six }
    else if i == 11 { Time::SixThirty }
    else if i == 12 { Time::Seven }
    else if i == 13 { Time::SevenThirty }
    else if i == 14 { Time::Eight }
    else if i == 15 { Time::EightThirty }
    else if i == 16 { Time::Nine }
    else if i == 17 { Time::NineThirty }
    else if i == 18 { Time::Ten }
    else if i == 19 { Time::TenThirty }
    else if i == 20 { Time::Eleven }
    else if i == 21 { Time::ElevenThirty }
    else if i == 22 { Time::Twelve }
    else { Time::TwelveThirty }
}

/// The time `steps` half hours after `t` (before it, for a negative `steps`), around the dial.
pub open spec fn time_plus(t: Time, steps: int) -> Time {
    time_at((time_index(t) + steps) % 24)
}

/// Whether a time is a half hour (xx:30).
pub open spec fn time_is_thirty(t: Time) -> bool {
    time_index(t) % 2 == 1
}

/// Whether the hands of a card's clock stand at a right angle: three or nine o'clock,
/// on a clock that has hands.
pub open spec fn card_is_right_angle(c: Card) -> bool {
    (c.time == Time::Three || c.time == Time::Nine) && !(c.clock == ClockType::Sun
        || c.clock == ClockType::Hourglass || c.clock == ClockType::Chinese)
}

/// Each time sits at its own position of the dial, and each position holds one time.
pub proof fn lemma_time_index_bijective(t: Time, i: int)
    ensures
        0 <= time_index(t) < 24,
        time_at(time_index(t)) == t,
        0 <= i < 24 ==> time_index(time_at(i)) == i,
{
}

/// Going forward by some half hours and back by as many gives back the time one
/// started from.
pub proof fn lemma_time_plus_undo(t: Time, steps: int)
    ensures
        time_plus(time_plus(t, steps), -steps) == t,
{
    let i = time_index(t);
    let j = (i + steps) % 24;
    assert(0 <= j < 24);
    lemma_time_index_bijective(t, j);
    assert((j - steps) % 24 == i) by (nonlinear_arith)
        requires
            j == (i + steps) % 24,
            0 <= i < 24,
    {
        let q = (i + steps) / 24;
        assert(i + steps == 24 * q + j);
        assert(j - steps == i - 24 * q);
    }
}

/// Going around the dial by a whole day (24 half hours) changes nothing.
pub proof fn lemma_time_plus_full_circle(t: Time)
    ensures
        time_plus(t, 24) == t,
        time_plus(t, 0) == t,
{
    lemma_time_index_bijective(t, 0);
}

impl Card {
    /// Whether the hands of this card's clock stand at a right angle.
    pub fn is_right_angle(&self) -> (r: bool)
        ensures
            r == card_is_right_angle(*self),
    {
        let time_is_right = match self.time {
            Time::Three | Time::Nine => true,
            _ => false,
        };
        let clock_is_right = match self.clock {
            ClockType::Yellow
            | ClockType::Purple
            | ClockType::Watch
            | ClockType::Atomic
            | ClockType::TimeMachine => true,
            _ => false,
        };
        time_is_right && clock_is_right
    }
}

impl Time {
    /// The position of this time on the dial, in half hours from one o'clock.
    pub fn get_index(&self) -> (r: usize)
        ensures
            r == time_index(*self),
            r < 24,
    {
        match self {
            Time::One => 0,
            Time::OneThirty => 1,
            Time::Two => 2,
            Time::TwoThirty => 3,
            Time::Three => 4,
            Time::ThreeThirty => 5,
            Time::Four => 6,
            Time::FourThirty => 7,
            Time::Five => 8,
            Time::FiveThirty => 9,
            Time::Six => 10,
            Time::SixThirty => 11,
            Time::Seven => 12,
            Time::SevenThirty => 13,
            Time::Eight => 14,
            Time::EightThirty => 15,
            Time::Nine => 16,
            Time::NineThirty => 17,
            Time::Ten => 18,
            Time::TenThirty => 19,
            Time::Eleven => 20,
            Time::ElevenThirty => 21,
            Time::Twelve => 22,
            Time::TwelveThirty => 23,
        }
    }

    /// The time at a position of the dial (0..24).
    pub fn from_index(index: usize) -> (t: Time)
        requires
            index < 24,
        ensures
            t == time_at(index as int),
            time_index(t) == index,
    {
        match index {
            0 => Time::One,
            1 => Time::OneThirty,
            2 => Time::Two,
            3 => Time::TwoThirty,
            4 => Time::Three,
            5 => Time::ThreeThirty,
            6 => Time::Four,
            7 => Time::FourThirty,
            8 => Time::Five,
            9 => Time::FiveThirty,
            10 => Time::Six,
            11 => Time::SixThirty,
            12 => Time::Seven,
            13 => Time::SevenThirty,
            14 => Time::Eight,
            15 => Time::EightThirty,
            16 => Time::Nine,
            17 => Time::NineThirty,
            18 => Time::Ten,
            19 => Time::TenThirty,
            20 => Time::Eleven,
            21 => Time::ElevenThirty,
            22 => Time::Twelve,
            _ => Time::TwelveThirty,
        }
    }

    /// The time `time_interval` half hours later (earlier, for a negative interval),
    /// around the dial.
    pub fn plus(&self, time_interval: &TimeInterval) -> (t: Self)
        requires
            isize::MIN <= time_index(*self) + time_interval.0 <= isize::MAX,
        ensures
            t == time_plus(*self, time_interval.0 as int),
    {
        let index = self.get_index();
        let sum: i128 = index as i128 + time_interval.0 as i128;
        let r: i128 = if sum >= 0 { sum % 24 } else {
            let m: i128 = (-sum) % 24;
            if m == 0 { 0 } else { 24 - m }
        };
        assert(r == (index + time_interval.0) % 24) by (nonlinear_arith)
            requires
                sum == index + time_interval.0,
                sum >= 0 ==> r == sum % 24,
                sum < 0 ==> (((-sum) % 24 == 0 && r == 0) || ((-sum) % 24 != 0 && r == 24 - (-sum) % 24)),
        {
            if sum < 0 {
                let q = (-sum) / 24;
                let m = (-sum) % 24;
                assert(-sum == 24 * q + m);
                if m == 0 {
                    assert(sum == 24 * (-q));
                } else {
                    assert(sum == 24 * (-q - 1) + (24 - m));
                }
            }
        }
        Self::from_index(r as usize)
    }

    /// Whether this time is a half hour (xx:30).
    pub fn is_thirty(&self) -> (r: bool)
        ensures
            r == time_is_thirty(*self),
    {
        match self {
            Self::OneThirty
            | Self::TwoThirty
            | Self::ThreeThirty
            | Self::FourThirty
            | Self::FiveThirty
            | Self::SixThirty
            | Self::SevenThirty
            | Self::EightThirty
            | Self::NineThirty
            | Self::TenThirty
            | Self::ElevenThirty
            | Self::TwelveThirty => true,
            _ => false,
        }
    }
}


/// The fixed deck of 61 cards that a pool starts from, in its printed order.
pub open spec fn standard_deck() -> Seq<Card> {
    seq![
        Card { clock: ClockType::Sun, time: Time::One },
        Card { clock: ClockType::Sun, time: Time::Three },
        Card { clock: ClockType::Sun, time: Time::Four },
        Card { clock: ClockType::Sun, time: Time::Five },
        Card { clock: ClockType::Sun, time: Time::Six },
        Card { clock: ClockType::Sun, time: Time::SevenThirty },
        Card { clock: ClockType::Sun, time: Time::Eleven },
        Card { clock: ClockType::Sun, time: Time::Twelve },
        Card { clock: ClockType::Hourglass, time: Time::One },
        Card { clock: ClockType::Hourglass, time: Time::Two },
        Card { clock: ClockType::Hourglass, time: Time::Three },
        Card { clock: ClockType::Hourglass, time: Time::Four },
        Card { clock: ClockType::Hourglass, time: Time::Five },
        Card { clock: ClockType::Hourglass, time: Time::Six },
        Card { clock: ClockType::Hourglass, time: Time::Ten },
        Card { clock: ClockType::Hourglass, time: Time::Eleven },
        Card { clock: ClockType::Chinese, time: Time::One },
        Card { clock: ClockType::Chinese, time: Time::Two },
        Card { clock: ClockType::Chinese, time: Time::Four },
        Card { clock: ClockType::Chinese, time: Time::Five },
        Card { clock: ClockType::Chinese, time: Time::Six },
        Card { clock: ClockType::Chinese, time: Time::Seven },
        Card { clock: ClockType::Chinese, time: Time::EightThirty },
        Card { clock: ClockType::Chinese, time: Time::Twelve },
        Card { clock: ClockType::Yellow, time: Time::One },
        Card { clock: ClockType::Yellow, time: Time::Two },
        Card { clock: ClockType::Yellow, time: Time::Three },
        Card { clock: ClockType::Yellow, time: Time::Five },
        Card { clock: ClockType::Yellow, time: Time::Nine },
        Card { clock: ClockType::Yellow, time: Time::Ten },
        Card { clock: ClockType::Yellow, time: Time::Eleven },
        Card { clock: ClockType::Purple, time: Time::Two },
        Card { clock: ClockType::Purple, time: Time::Six },
        Card { clock: ClockType::Purple, time: Time::Seven },
        Card { clock: ClockType::Purple, time: Time::Eight },
        Card { clock: ClockType::Purple, time: Time::Nine },
        Card { clock: ClockType::Purple, time: Time::TenThirty },
        Card { clock: ClockType::Purple, time: Time::Twelve },
        Card { clock: ClockType::Watch, time: Time::One },
        Card { clock: ClockType::Watch, time: Time::Two },
        Card { clock: ClockType::Watch, time: Time::Seven },
        Card { clock: ClockType::Watch, time: Time::Eight },
        Card { clock: ClockType::Watch, time: Time::Nine },
        Card { clock: ClockType::Watch, time: Time::Ten },
        Card { clock: ClockType::Watch, time: Time::ElevenThirty },
        Card { clock: ClockType::Watch, time: Time::Twelve },
        Card { clock: ClockType::Atomic, time: Time::Two },
        Card { clock: ClockType::Atomic, time: Time::Three },
        Card { clock: ClockType::Atomic, time: Time::Eight },
        Card { clock: ClockType::Atomic, time: Time::Nine },
        Card { clock: ClockType::Atomic, time: Time::Ten },
        Card { clock: ClockType::Atomic, time: Time::Eleven },
        Card { clock: ClockType::Atomic, time: Time::TwelveThirty },
        Card { clock: ClockType::TimeMachine, time: Time::One },
        Card { clock: ClockType::TimeMachine, time: Time::Three },
        Card { clock: ClockType::TimeMachine, time: Time::Four },
        Card { clock: ClockType::TimeMachine, time: Time::Five },
        Card { clock: ClockType::TimeMachine, time: Time::Six },
        Card { clock: ClockType::TimeMachine, time: Time::Seven },
        Card { clock: ClockType::TimeMachine, time: Time::Eight },
        Card { clock: ClockType::TimeMachine, time: Time::NineThirty },
    ]
}

/// The fixed deck as a vector, in the order of `standard_deck`.
fn standard_deck_vec() -> (v: Vec<Card>)
    ensures
        v@ == standard_deck(),
        v@.len() == 61,
{
    let deck: [Card; 61] = [
        Card { clock: ClockType::Sun, time: Time::One },
        Card { clock: ClockType::Sun, time: Time::Three },
        Card { clock: ClockType::Sun, time: Time::Four },
        Card { clock: ClockType::Sun, time: Time::Five },
        Card { clock: ClockType::Sun, time: Time::Six },
        Card { clock: ClockType::Sun, time: Time::SevenThirty },
        Card { clock: ClockType::Sun, time: Time::Eleven },
        Card { clock: ClockType::Sun, time: Time::Twelve },
        Card { clock: ClockType::Hourglass, time: Time::One },
        Card { clock: ClockType::Hourglass, time: Time::Two },
        Card { clock: ClockType::Hourglass, time: Time::Three },
        Card { clock: ClockType::Hourglass, time: Time::Four },
        Card { clock: ClockType::Hourglass, time: Time::Five },
        Card { clock: ClockType::Hourglass, time: Time::Six },
        Card { clock: ClockType::Hourglass, time: Time::Ten },
        Card { clock: ClockType::Hourglass, time: Time::Eleven },
        Card { clock: ClockType::Chinese, time: Time::One },
        Card { clock: ClockType::Chinese, time: Time::Two },
        Card { clock: ClockType::Chinese, time: Time::Four },
        Card { clock: ClockType::Chinese, time: Time::Five },
        Card { clock: ClockType::Chinese, time: Time::Six },
        Card { clock: ClockType::Chinese, time: Time::Seven },
        Card { clock: ClockType::Chinese, time: Time::EightThirty },
        Card { clock: ClockType::Chinese, time: Time::Twelve },
        Card { clock: ClockType::Yellow, time: Time::One },
        Card { clock: ClockType::Yellow, time: Time::Two },
        Card { clock: ClockType::Yellow, time: Time::Three },
        Card { clock: ClockType::Yellow, time: Time::Five },
        Card { clock: ClockType::Yellow, time: Time::Nine },
        Card { clock: ClockType::Yellow, time: Time::Ten },
        Card { clock: ClockType::Yellow, time: Time::Eleven },
        Card { clock: ClockType::Purple, time: Time::Two },
        Card { clock: ClockType::Purple, time: Time::Six },
        Card { clock: ClockType::Purple, time: Time::Seven },
        Card { clock: ClockType::Purple, time: Time::Eight },
        Card { clock: ClockType::Purple, time: Time::Nine },
        Card { clock: ClockType::Purple, time: Time::TenThirty },
        Card { clock: ClockType::Purple, time: Time::Twelve },
        Card { clock: ClockType::Watch, time: Time::One },
        Card { clock: ClockType::Watch, time: Time::Two },
        Card { clock: ClockType::Watch, time: Time::Seven },
        Card { clock: ClockType::Watch, time: Time::Eight },
        Card { clock: ClockType::Watch, time: Time::Nine },
        Card { clock: ClockType::Watch, time: Time::Ten },
        Card { clock: ClockType::Watch, time: Time::ElevenThirty },
        Card { clock: ClockType::Watch, time: Time::Twelve },
        Card { clock: ClockType::Atomic, time: Time::Two },
        Card { clock: ClockType::Atomic, time: Time::Three },
        Card { clock: ClockType::Atomic, time: Time::Eight },
        Card { clock: ClockType::Atomic, time: Time::Nine },
        Card { clock: ClockType::Atomic, time: Time::Ten },
        Card { clock: ClockType::Atomic, time: Time::Eleven },
        Card { clock: ClockType::Atomic, time: Time::TwelveThirty },
        Card { clock: ClockType::TimeMachine, time: Time::One },
        Card { clock: ClockType::TimeMachine, time: Time::Three },
        Card { clock: ClockType::TimeMachine, time: Time::Four },
        Card { clock: ClockType::TimeMachine, time: Time::Five },
        Card { clock: ClockType::TimeMachine, time: Time::Six },
        Card { clock: ClockType::TimeMachine, time: Time::Seven },
        Card { clock: ClockType::TimeMachine, time: Time::Eight },
        Card { clock: ClockType::TimeMachine, time: Time::NineThirty },
    ];
    assert(deck@ =~= standard_deck());
    let mut v: Vec<Card> = Vec::new();
    for i in 0..61
        invariant
            deck@ == standard_deck(),
            deck@.len() == 61,
            v@ == deck@.subrange(0, i as int),
    {
        v.push(deck[i]);
        assert(v@ =~= deck@.subrange(0, i + 1));
    }
    assert(v@ =~= deck@);
    v
}

/// The cards that `k` pops from the back of `s` hand out, in the order they come off:
/// the last card first.
pub open spec fn top_cards(s: Seq<Card>, k: int) -> Seq<Card> {
    Seq::new(k as nat, |i: int| s[s.len() - 1 - i])
}

/// `cards` pushed one by one onto the front of `s`: the last of them ends up first.
pub open spec fn pushed_to_front(cards: Seq<Card>, s: Seq<Card>) -> Seq<Card> {
    Seq::new(cards.len(), |i: int| cards[cards.len() - 1 - i]) + s
}

/// The smaller of two numbers.
pub open spec fn min_nat(a: int, b: int) -> int {
    if a <= b { a } else { b }
}

/// Taking cards off the top of a stack splits its cards between the taken ones and
/// the rest, none lost and none added.
pub proof fn lemma_top_cards_multiset(s: Seq<Card>, k: int)
    requires
        0 <= k <= s.len(),
    ensures
        s.to_multiset() == s.subrange(0, s.len() - k).to_multiset().add(top_cards(s, k).to_multiset()),
{
    let low = s.subrange(0, s.len() - k);
    let high = s.subrange(s.len() - k, s.len() as int);
    assert(s =~= low + high);
    vstd::seq_lib::lemma_multiset_commutative(low, high);
    assert(top_cards(s, k) =~= high.reverse());
    high.lemma_reverse_to_multiset();
}

/// The pool that cards are dealt from. Cards are taken from the back and returned to
/// the front, so that returned cards come round again last.
pub struct CardPool(VecDeque<Card>);

impl View for CardPool {
    type V = Seq<Card>;

    /// The cards of the pool, front first.
    closed spec fn view(&self) -> Seq<Card> {
        self.0@
    }
}

impl CardPool {
    /// A pool holding the standard deck of 61 cards in a random order.
    pub fn new() -> (pool: Self)
        ensures
            pool@.to_multiset() == standard_deck().to_multiset(),
            pool@.len() == 61,
    {
        let mut cards = standard_deck_vec();
        let ghost deck_len = cards@.len();
        shuffle_in_place(&mut cards);
        proof {
            cards@.to_multiset_ensures();
            standard_deck().to_multiset_ensures();
            assert(cards@.len() == cards@.to_multiset().len());
        }
        let mut deque: VecDeque<Card> = VecDeque::new();
        let n = cards.len();
        for i in 0..n
            invariant
                n == cards@.len(),
                deque@ == cards@.subrange(0, i as int),
        {
            deque.push_back(cards[i]);
            assert(deque@ =~= cards@.subrange(0, i + 1));
        }
        assert(deque@ =~= cards@);
        CardPool(deque)
    }

    /// The number of cards in the pool.
    pub fn n_cards(&self) -> (n: usize)
        ensures
            n == self@.len(),
    {
        self.0.len()
    }

    /// Puts cards back at the front of the pool, one after another.
    pub fn add_cards(&mut self, cards: Vec<Card>)
        ensures
            final(self)@ == pushed_to_front(cards@, old(self)@),
    {
        let n = cards.len();
        for i in 0..n
            invariant
                n == cards@.len(),
                self@ == pushed_to_front(cards@.subrange(0, i as int), old(self)@),
        {
            let ghost before = self@;
            self.0.push_front(cards[i]);
            assert(self@ =~= pushed_to_front(cards@.subrange(0, i + 1), old(self)@));
        }
        assert(cards@.subrange(0, n as int) =~= cards@);
    }

    /// Takes `n_cards` cards from the back of the pool, or all of them if it holds
    /// fewer; the backmost card comes first.
    pub fn take_cards(&mut self, n_cards: usize) -> (cards: Vec<Card>)
        ensures
            cards@.len() == min_nat(n_cards as int, old(self)@.len() as int),
            cards@ == top_cards(old(self)@, cards@.len() as int),
            final(self)@ == old(self)@.subrange(0, old(self)@.len() - cards@.len()),
    {
        let mut cards = Vec::new();
        let k = if n_cards < self.0.len() { n_cards } else { self.0.len() };
        let ghost start = self@;
        for j in 0..k
            invariant
                k <= start.len(),
                cards@ == top_cards(start, j as int),
                self@ == start.subrange(0, start.len() - j),
        {
            let card = self.0.pop_back();
            cards.push(card.unwrap());
            assert(cards@ =~= top_cards(start, j + 1));
            assert(self@ =~= start.subrange(0, start.len() - (j + 1)));
        }
        cards
    }
}

} // verus!
