//! The rules of a game: criteria on the public state of a round, the effects that a
//! rule has on the moves expected next, and the manager that picks and applies them.
use vstd::prelude::*;

use crate::card::{Card, ClockType, Time, card_is_right_angle, time_is_thirty};
use crate::game::{GameContext, latest_cards, move_card, move_said_count};
use crate::game::round::{
    ActionChain, ActionChainMoves, ChainModel, HitType, MoveModel, time_of_count,
};
use crate::lobby::PlayerId;
use crate::random::shuffle_in_place;

verus! {

/// A text shown to players, in the languages supported (English for now).
pub struct Description {
    pub english: String,
}

impl Description {
    /// A description with the given English text.
    pub fn new(english: &str) -> (d: Self)
        ensures
            d.english@ == english@,
    {
        Description { english: english.to_owned() }
    }

    /// A copy of this description.
    pub fn copied(&self) -> (d: Self)
        ensures
            d.english@ == self.english@,
    {
        Description { english: self.english.clone() }
    }
}

/// The conditions on the public state of a round under which a rule applies.
#[derive(Clone, Copy, Debug, PartialEq, Eq, Structural)]
pub enum CriteriaKind {
    /// the current player says the same time as the card they revealed
    SaidTimeOfRevealedCard,
    /// the revealed card is of this clock type
    RevealedClock(ClockType),
    /// the revealed card shows this time
    RevealedTime(Time),
    /// the revealed card shows a half hour
    RevealedThirty,
    /// the revealed card has the same time as the card revealed before it
    SameTimeAsPreviousCard,
    /// the hands of the revealed card's clock stand at a right angle
    RightAngle,
    /// the revealed card has the same clock as the card revealed before it
    SameClockAsPreviousCard,
}

/// What a rule makes the players do.
#[derive(Clone, Copy, Debug, PartialEq, Eq, Structural)]
pub enum RuleKind {
    /// everyone should hit in the middle with one hand; the latest player loses the round
    EveryoneHitsOnce,
    /// from now on the count direction reverses
    ReverseCountDirection,
}

/// The text that describes a criteria.
pub open spec fn criteria_text(k: CriteriaKind) -> Seq<char> {
    match k {
        CriteriaKind::SaidTimeOfRevealedCard => "When the current player says the same time as the card they revealed"@,
        CriteriaKind::RevealedClock(c) => match c {
            ClockType::Sun => "When the revealed card is of type Sun"@,
            ClockType::Hourglass => "When the revealed card is of type Hourglass"@,
            ClockType::Chinese => "When the revealed card is of type Chinese"@,
            ClockType::Yellow => "When the revealed card is of type Yellow"@,
            ClockType::Purple => "When the revealed card is of type Purple"@,
            ClockType::Watch => "When the revealed card is of type Watch"@,
            ClockType::Atomic => "When the revealed card is of type Atomic"@,
            ClockType::TimeMachine => "When the revealed card is of type TimeMachine"@,
        },
        CriteriaKind::RevealedTime(t) => match t {
            Time::One => "When the revealed cards shows 01:00"@,
            Time::OneThirty => "When the revealed cards shows 01:30"@,
            Time::Two => "When the revealed cards shows 02:00"@,
            Time::TwoThirty => "When the revealed cards shows 02:30"@,
            Time::Three => "When the revealed cards shows 03:00"@,
            Time::ThreeThirty => "When the revealed cards shows 03:30"@,
            Time::Four => "When the revealed cards shows 04:00"@,
            Time::FourThirty => "When the revealed cards shows 04:30"@,
            Time::Five => "When the revealed cards shows 05:00"@,
            Time::FiveThirty => "When the revealed cards shows 05:30"@,
            Time::Six => "When the revealed cards shows 06:00"@,
            Time::SixThirty => "When the revealed cards shows 06:30"@,
            Time::Seven => "When the revealed cards shows 07:00"@,
            Time::SevenThirty => "When the revealed cards shows 07:30"@,
            Time::Eight => "When the revealed cards shows 08:00"@,
            Time::EightThirty => "When the revealed cards shows 08:30"@,
            Time::Nine => "When the revealed cards shows 09:00"@,
            Time::NineThirty => "When the revealed cards shows 09:30"@,
            Time::Ten => "When the revealed cards shows 10:00"@,
            Time::TenThirty => "When the revealed cards shows 10:30"@,
            Time::Eleven => "When the revealed cards shows 11:00"@,
            Time::ElevenThirty => "When the revealed cards shows 11:30"@,
            Time::Twelve => "When the revealed cards shows 12:00"@,
            Time::TwelveThirty => "When the revealed cards shows 12:30"@,
        },
        CriteriaKind::RevealedThirty => "When the revealed cards shows xx:30"@,
        CriteriaKind::SameTimeAsPreviousCard => "When the revealed card has the same time as the previously revealed card"@,
        CriteriaKind::RightAngle => "When the revealed card's clock's hands are in a right angle"@,
        CriteriaKind::SameClockAsPreviousCard => "When the revealed card has the same clock as the previously revealed card"@,
    }
}

/// The text that describes a rule.
pub open spec fn rule_text(k: RuleKind) -> Seq<char> {
    match k {
        RuleKind::EveryoneHitsOnce => "everyone should hit in the middle with one hand. the latest player loses the round"@,
        RuleKind::ReverseCountDirection => "from now on the count direction should reverse"@,
    }
}

/// A condition under which a rule applies, and its description.
pub struct Criteria {
    description: Description,
    handler: CriteriaKind,
}

/// A rule and its description.
pub struct Rule {
    description: Description,
    handler: RuleKind,
}

fn clock_text(c: ClockType) -> (s: &'static str)
    ensures
        s@ == criteria_text(CriteriaKind::RevealedClock(c)),
{
    match c {
            ClockType::Sun => "When the revealed card is of type Sun",
            ClockType::Hourglass => "When the revealed card is of type Hourglass",
            ClockType::Chinese => "When the revealed card is of type Chinese",
            ClockType::Yellow => "When the revealed card is of type Yellow",
            ClockType::Purple => "When the revealed card is of type Purple",
            ClockType::Watch => "When the revealed card is of type Watch",
            ClockType::Atomic => "When the revealed card is of type Atomic",
            ClockType::TimeMachine => "When the revealed card is of type TimeMachine",
    }
}

fn time_text(t: Time) -> (s: &'static str)
    ensures
        s@ == criteria_text(CriteriaKind::RevealedTime(t)),
{
    match t {
            Time::One => "When the revealed cards shows 01:00",
            Time::OneThirty => "When the revealed cards shows 01:30",
            Time::Two => "When the revealed cards shows 02:00",
            Time::TwoThirty => "When the revealed cards shows 02:30",
            Time::Three => "When the revealed cards shows 03:00",
            Time::ThreeThirty => "When the revealed cards shows 03:30",
            Time::Four => "When the revealed cards shows 04:00",
            Time::FourThirty => "When the revealed cards shows 04:30",
            Time::Five => "When the revealed cards shows 05:00",
            Time::FiveThirty => "When the revealed cards shows 05:30",
            Time::Six => "When the revealed cards shows 06:00",
            Time::SixThirty => "When the revealed cards shows 06:30",
            Time::Seven => "When the revealed cards shows 07:00",
            Time::SevenThirty => "When the revealed cards shows 07:30",
            Time::Eight => "When the revealed cards shows 08:00",
            Time::EightThirty => "When the revealed cards shows 08:30",
            Time::Nine => "When the revealed cards shows 09:00",
            Time::NineThirty => "When the revealed cards shows 09:30",
            Time::Ten => "When the revealed cards shows 10:00",
            Time::TenThirty => "When the revealed cards shows 10:30",
            Time::Eleven => "When the revealed cards shows 11:00",
            Time::ElevenThirty => "When the revealed cards shows 11:30",
            Time::Twelve => "When the revealed cards shows 12:00",
            Time::TwelveThirty => "When the revealed cards shows 12:30",
    }
}

impl Criteria {
    /// The kind of condition.
    pub closed spec fn kind(self) -> CriteriaKind {
        self.handler
    }

    /// The description fits the condition.
    pub closed spec fn wf(self) -> bool {
        self.description.english@ == criteria_text(self.handler)
    }

    /// The criteria of a kind, with its description.
    pub fn of(kind: CriteriaKind) -> (c: Self)
        ensures
            c.kind() == kind,
            c.wf(),
    {
        let text = match kind {
            CriteriaKind::SaidTimeOfRevealedCard => "When the current player says the same time as the card they revealed",
            CriteriaKind::RevealedClock(c) => clock_text(c),
            CriteriaKind::RevealedTime(t) => time_text(t),
            CriteriaKind::RevealedThirty => "When the revealed cards shows xx:30",
            CriteriaKind::SameTimeAsPreviousCard => "When the revealed card has the same time as the previously revealed card",
            CriteriaKind::RightAngle => "When the revealed card's clock's hands are in a right angle",
            CriteriaKind::SameClockAsPreviousCard => "When the revealed card has the same clock as the previously revealed card",
        };
        Criteria { description: Description::new(text), handler: kind }
    }
}

impl Rule {
    /// The kind of rule.
    pub closed spec fn kind(self) -> RuleKind {
        self.handler
    }

    /// The description fits the rule.
    pub closed spec fn wf(self) -> bool {
        self.description.english@ == rule_text(self.handler)
    }

    /// The rule of a kind, with its description.
    pub fn of(kind: RuleKind) -> (r: Self)
        ensures
            r.kind() == kind,
            r.wf(),
    {
        let text = match kind {
            RuleKind::EveryoneHitsOnce => "everyone should hit in the middle with one hand. the latest player loses the round",
            RuleKind::ReverseCountDirection => "from now on the count direction should reverse",
        };
        Rule { description: Description::new(text), handler: kind }
    }
}

/// A rule as the players are told of it.
pub struct RuleInfo {
    pub rule: Description,
    pub criteria: Description,
}


/// The card revealed by the last of `moves`, if it revealed one.
pub open spec fn just_revealed(moves: Seq<(PlayerId, crate::game::round::PlayerMove)>) -> Option<Card> {
    if moves.len() == 0 { None } else { move_card(moves.last().1) }
}

/// Whether a criteria holds after `moves`, the moves of the round so far, in order.
/// Every criteria but the first is about the card revealed by the last move, and fails
/// if that move revealed none; "the previously revealed card" is the card revealed
/// before that one.
pub open spec fn criteria_holds(k: CriteriaKind, moves: Seq<(PlayerId, crate::game::round::PlayerMove)>) -> bool {
    let card = just_revealed(moves);
    let cards = latest_cards(moves);
    match k {
        CriteriaKind::SaidTimeOfRevealedCard => {
            &&& moves.len() > 0
            &&& move_said_count(moves.last().1) matches Some(count)
            &&& card matches Some(c)
            &&& time_of_count(count) == Some(c.time)
        },
        CriteriaKind::RevealedClock(clock) => card matches Some(c) && c.clock == clock,
        CriteriaKind::RevealedTime(t) => card matches Some(c) && c.time == t,
        CriteriaKind::RevealedThirty => card matches Some(c) && time_is_thirty(c.time),
        CriteriaKind::SameTimeAsPreviousCard => card is Some && cards.len() >= 2 && cards[1].time == cards[0].time,
        CriteriaKind::RightAngle => card matches Some(c) && card_is_right_angle(c),
        CriteriaKind::SameClockAsPreviousCard => card is Some && cards.len() >= 2 && cards[1].clock == cards[0].clock,
    }
}

/// The chain of actions that a rule makes of the chain of moves: everyone in the
/// match is to hit the middle once, or the count goes the other way round.
pub open spec fn rule_applied(
    k: RuleKind,
    previous_moves: Seq<crate::game::round::ValidInputPlayerMove>,
    turn: crate::game::round::TurnModel,
    moves: MoveModel,
    players: Seq<PlayerId>,
) -> ChainModel {
    match k {
        RuleKind::EveryoneHitsOnce => ChainModel::Hit { players: players.to_set(), hit_type: HitType::Single },
        RuleKind::ReverseCountDirection => ChainModel::Moves {
            previous_moves,
            turn,
            moves: MoveModel { count_interval: -moves.count_interval, ..moves },
        },
    }
}

/// The rule that everyone hits once asks each player of the match, and nobody else,
/// to hit the middle with one hand: a one-handed hit by any of them is accepted, and
/// a two-handed one is an error.
pub proof fn lemma_everyone_hits_once_with_one_hand(
    previous_moves: Seq<crate::game::round::ValidInputPlayerMove>,
    turn: crate::game::round::TurnModel,
    moves: MoveModel,
    players: Seq<PlayerId>,
    order: Seq<PlayerId>,
    hands: Map<PlayerId, Seq<Card>>,
)
    ensures
        ({
            let c = rule_applied(RuleKind::EveryoneHitsOnce, previous_moves, turn, moves, players);
            &&& c matches ChainModel::Hit { players: s, hit_type }
            &&& hit_type == HitType::Single
            &&& forall|p: PlayerId| s.contains(p) <==> players.contains(p)
            &&& forall|p: PlayerId| players.contains(p) ==> crate::game::round::step_inner(
                c, p, crate::game::round::InputPlayerAction::Hit(HitType::Single), order, hands).1 is None
            &&& forall|p: PlayerId| players.contains(p) ==> crate::game::round::step_inner(
                c, p, crate::game::round::InputPlayerAction::Hit(HitType::Double), order, hands).1
                == Some(crate::game::round::ErrorReason::InvalidHitType)
        }),
{
    let c = rule_applied(RuleKind::EveryoneHitsOnce, previous_moves, turn, moves, players);
    assert forall|p: PlayerId| players.contains(p) implies players.to_set().contains(p) by {}
}

/// The criteria of saying the time of the revealed card holds exactly when the last
/// move counted and laid a card, and the count said is the time printed on that card:
/// a count naming another time, even within the same hour, does not do.
pub proof fn lemma_said_time_of_revealed_card(moves: Seq<(PlayerId, crate::game::round::PlayerMove)>)
    ensures
        criteria_holds(CriteriaKind::SaidTimeOfRevealedCard, moves) <==> {
            &&& moves.len() > 0
            &&& moves.last().1 matches crate::game::round::PlayerMove::CountAndLayCard { card, count }
            &&& time_of_count(count) == Some(card.time)
        },
{
}

impl Criteria {
    /// Whether this criteria holds in the given context.
    pub fn applies(&self, game_ctx: &GameContext) -> (r: bool)
        ensures
            r == criteria_holds(self.kind(), game_ctx.previous_moves@),
    {
        match self.handler {
            CriteriaKind::SaidTimeOfRevealedCard => {
                if let Some(count) = game_ctx.get_just_said_count() {
                    if let Some(card) = game_ctx.get_just_revealed_card() {
                        if let Ok(time) = Time::try_from(count) {
                            return time == card.time;
                        }
                    }
                }
                false
            },
            CriteriaKind::RevealedClock(clock) => {
                if let Some(card) = game_ctx.get_just_revealed_card() {
                    card.clock == clock
                } else {
                    false
                }
            },
            CriteriaKind::RevealedTime(time) => {
                if let Some(card) = game_ctx.get_just_revealed_card() {
                    card.time == time
                } else {
                    false
                }
            },
            CriteriaKind::RevealedThirty => {
                if let Some(card) = game_ctx.get_just_revealed_card() {
                    card.time.is_thirty()
                } else {
                    false
                }
            },
            CriteriaKind::SameTimeAsPreviousCard => {
                if game_ctx.get_just_revealed_card().is_none() {
                    return false;
                }
                match game_ctx.get_n_previous_cards(2) {
                    Some(cards) => cards[1].time == cards[0].time,
                    None => false,
                }
            },
            CriteriaKind::RightAngle => {
                if let Some(card) = game_ctx.get_just_revealed_card() {
                    card.is_right_angle()
                } else {
                    false
                }
            },
            CriteriaKind::SameClockAsPreviousCard => {
                if game_ctx.get_just_revealed_card().is_none() {
                    return false;
                }
                match game_ctx.get_n_previous_cards(2) {
                    Some(cards) => cards[1].clock == cards[0].clock,
                    None => false,
                }
            },
        }
    }
}

impl Rule {
    /// The chain of actions that this rule makes of a chain of moves.
    pub fn apply(&self, action_chain_moves: ActionChainMoves, game_ctx: &GameContext) -> (r: ActionChain)
        requires
            self.kind() == RuleKind::ReverseCountDirection ==> action_chain_moves.move_manager.count_interval.0 != isize::MIN,
        ensures
            r@ == rule_applied(
                self.kind(),
                action_chain_moves.previous_moves@,
                action_chain_moves.turn_manager@,
                action_chain_moves.move_manager@,
                game_ctx.players@,
            ),
    {
        apply_rule(self.handler, action_chain_moves, game_ctx)
    }
}

/// The chain of actions that a rule of kind `kind` makes of a chain of moves.
pub fn apply_rule(kind: RuleKind, action_chain_moves: ActionChainMoves, game_ctx: &GameContext) -> (r: ActionChain)
    requires
        kind == RuleKind::ReverseCountDirection ==> action_chain_moves.move_manager.count_interval.0 != isize::MIN,
    ensures
        r@ == rule_applied(
            kind,
            action_chain_moves.previous_moves@,
            action_chain_moves.turn_manager@,
            action_chain_moves.move_manager@,
            game_ctx.players@,
        ),
{
    match kind {
        RuleKind::EveryoneHitsOnce => {
            ActionChain::Hit { players: game_ctx.players.clone(), hit_type: HitType::Single }
        },
        RuleKind::ReverseCountDirection => {
            let mut move_manager = action_chain_moves.move_manager;
            move_manager.count_interval.toggle_direction();
            ActionChain::Moves {
                previous_moves: action_chain_moves.previous_moves,
                turn_manager: action_chain_moves.turn_manager,
                move_manager,
            }
        },
    }
}


/// How many more moves a rule effect is applied to.
#[derive(Clone, Copy, Debug)]
pub struct EffectDuration(pub usize);

impl EffectDuration {
    /// Counts one application off; returns true once the effect has been applied for
    /// the last time.
    pub fn decrease(&mut self) -> (expired: bool)
        ensures
            expired == (old(self).0 <= 1),
            final(self).0 == if old(self).0 > 0 { old(self).0 - 1 } else { 0 },
    {
        if self.0 > 0 {
            self.0 = self.0 - 1;
        }
        self.0 == 0
    }
}

/// A rule that has been triggered and is being applied to the moves of a round.
#[derive(Clone, Copy, Debug)]
pub struct RuleEffect {
    pub handler: RuleKind,
    pub duration: EffectDuration,
}

/// The rules of a game, and the pools that new rules are drawn from.
pub struct RuleManager {
    game_rules: Vec<(Criteria, Rule)>,
    // these are for selecting new active rules from
    criteria_pool: Vec<Criteria>,
    rule_pool: Vec<Rule>,
}

/// The rules that apply after `moves`: those whose criteria holds, in the order of
/// the rules.
pub open spec fn applying_rules(
    rules: Seq<(CriteriaKind, RuleKind)>,
    moves: Seq<(PlayerId, crate::game::round::PlayerMove)>,
) -> Seq<RuleKind>
    decreases rules.len(),
{
    if rules.len() == 0 {
        Seq::empty()
    } else {
        let rest = applying_rules(rules.drop_last(), moves);
        if criteria_holds(rules.last().0, moves) {
            rest.push(rules.last().1)
        } else {
            rest
        }
    }
}

/// The effect that the rules trigger after `moves`: the one rule that applies, once;
/// none if no rule applies, and none if two or more do (a double rule).
pub open spec fn new_effect(
    rules: Seq<(CriteriaKind, RuleKind)>,
    moves: Seq<(PlayerId, crate::game::round::PlayerMove)>,
) -> Option<RuleKind> {
    let applying = applying_rules(rules, moves);
    if applying.len() == 1 {
        Some(applying[0])
    } else {
        None
    }
}

proof fn lemma_applying_step(
    rules: Seq<(CriteriaKind, RuleKind)>,
    moves: Seq<(PlayerId, crate::game::round::PlayerMove)>,
    i: int,
)
    requires
        0 <= i < rules.len(),
    ensures
        applying_rules(rules.take(i + 1), moves) == if criteria_holds(rules[i].0, moves) {
            applying_rules(rules.take(i), moves).push(rules[i].1)
        } else {
            applying_rules(rules.take(i), moves)
        },
{
    assert(rules.take(i + 1).drop_last() =~= rules.take(i));
    assert(rules.take(i + 1).last() == rules[i]);
}

proof fn lemma_applying_rules_grow(
    rules: Seq<(CriteriaKind, RuleKind)>,
    moves: Seq<(PlayerId, crate::game::round::PlayerMove)>,
    i: int,
)
    requires
        0 <= i <= rules.len(),
    ensures
        applying_rules(rules.take(i), moves).len() <= applying_rules(rules, moves).len(),
        applying_rules(rules.take(i), moves).len() >= 1 ==> applying_rules(rules, moves).len() >= 1
            && applying_rules(rules, moves)[0] == applying_rules(rules.take(i), moves)[0],
    decreases rules.len() - i,
{
    if i < rules.len() {
        lemma_applying_rules_grow(rules, moves, i + 1);
        assert(rules.take(i + 1).drop_last() =~= rules.take(i));
        assert(rules.take(i + 1).last() == rules[i]);
    } else {
        assert(rules.take(i) =~= rules);
    }
}

impl RuleManager {
    /// The rules of the game: each criteria and rule kind, in the order they were added.
    pub closed spec fn active_kinds(self) -> Seq<(CriteriaKind, RuleKind)> {
        self.game_rules@.map_values(|e: (Criteria, Rule)| (e.0.kind(), e.1.kind()))
    }

    /// The criteria that new rules can be made from; the next drawn is the last.
    pub closed spec fn pool_kinds(self) -> Seq<CriteriaKind> {
        self.criteria_pool@.map_values(|c: Criteria| c.kind())
    }

    /// The rules that new rules can be made from; the next drawn is the last.
    pub closed spec fn rule_pool_kinds(self) -> Seq<RuleKind> {
        self.rule_pool@.map_values(|r: Rule| r.kind())
    }

    /// Every description fits its criteria or rule.
    pub closed spec fn wf(self) -> bool {
        &&& forall|i: int| 0 <= i < self.game_rules@.len() ==> (#[trigger] self.game_rules@[i]).0.wf() && self.game_rules@[i].1.wf()
        &&& forall|i: int| 0 <= i < self.criteria_pool@.len() ==> (#[trigger] self.criteria_pool@[i]).wf()
        &&& forall|i: int| 0 <= i < self.rule_pool@.len() ==> (#[trigger] self.rule_pool@[i]).wf()
    }

    /// A manager with the starting rules, the criteria pool in a random order, and
    /// no rules to draw from yet.
    pub fn new() -> (m: Self)
        ensures
            m.wf(),
            m.active_kinds() == starting_rules(),
            m.pool_kinds().to_multiset() == criteria_pool_kinds().to_multiset(),
            m.rule_pool_kinds() == Seq::<RuleKind>::empty(),
    {
        let mut game_rules: Vec<(Criteria, Rule)> = Vec::new();
        game_rules.push(
            (Criteria::of(CriteriaKind::SaidTimeOfRevealedCard), Rule::of(RuleKind::EveryoneHitsOnce)),
        );
        game_rules.push(
            (
                Criteria::of(CriteriaKind::RevealedClock(ClockType::TimeMachine)),
                Rule::of(RuleKind::ReverseCountDirection),
            ),
        );
        let mut criteria_pool = criteria_pool();
        let mut rule_pool: Vec<Rule> = Vec::new();
        let ghost pool_before = criteria_pool@;
        shuffle_in_place(&mut criteria_pool);
        shuffle_in_place(&mut rule_pool);
        let m = RuleManager { game_rules, criteria_pool, rule_pool };
        proof {
            broadcast use vstd::seq_lib::group_to_multiset_ensures;
            assert(m.active_kinds() =~= starting_rules());
            assert(pool_before.map_values(|c: Criteria| c.kind()) =~= criteria_pool_kinds());
            lemma_map_kinds_multiset(pool_before, m.criteria_pool@);
            assert(Seq::<Rule>::empty().to_multiset().len() == 0);
            assert(m.rule_pool@.to_multiset().len() == m.rule_pool@.len());
            assert(m.rule_pool@.len() == 0);
            assert(m.rule_pool_kinds() =~= Seq::<RuleKind>::empty());
            assert forall|i: int| 0 <= i < m.criteria_pool@.len() implies (#[trigger] m.criteria_pool@[i]).wf() by {
                assert(m.criteria_pool@.contains(m.criteria_pool@[i]));
                assert(m.criteria_pool@.to_multiset().count(m.criteria_pool@[i]) > 0);
                assert(pool_before.to_multiset().count(m.criteria_pool@[i]) > 0);
                assert(pool_before.contains(m.criteria_pool@[i]));
                let j = choose|j: int| 0 <= j < pool_before.len() && pool_before[j] == m.criteria_pool@[i];
            }
        }
        m
    }

    /// Makes a new rule from the last criteria and the last rule of the pools;
    /// returns Err if there are no more rules. The criteria is drawn first: when the
    /// rule pool is empty it is drawn and lost all the same.
    pub fn add_rule(&mut self) -> (r: Result<RuleInfo, ()>)
        requires
            old(self).wf(),
        ensures
            final(self).wf(),
            add_rule_post(*old(self), *final(self), r),
    {
        let ghost before = *self;
        let rule = match self.criteria_pool.pop() {
            Some(c) => c,
            None => {
                return Err(());
            },
        };
        proof {
            assert(self.pool_kinds() =~= before.pool_kinds().drop_last());
            assert(before.criteria_pool@[before.criteria_pool@.len() - 1] == rule);
        }
        let criteria = match self.rule_pool.pop() {
            Some(r) => r,
            None => {
                return Err(());
            },
        };
        proof {
            assert(self.rule_pool_kinds() =~= before.rule_pool_kinds().drop_last());
            assert(before.rule_pool@[before.rule_pool@.len() - 1] == criteria);
        }
        let (rule_desc, criteria_desc) = (rule.description.copied(), criteria.description.copied());
        self.game_rules.push((rule, criteria));
        proof {
            assert(self.active_kinds() =~= before.active_kinds().push((rule.kind(), criteria.kind())));
        }
        Ok(RuleInfo { rule: rule_desc, criteria: criteria_desc })
    }

    /// The rules of the game as the players are told of them, in order.
    pub fn active_rules(&self) -> (r: Vec<RuleInfo>)
        requires
            self.wf(),
        ensures
            r@.len() == self.active_kinds().len(),
            forall|i: int| 0 <= i < r@.len() ==> (#[trigger] r@[i]).criteria.english@ == criteria_text(self.active_kinds()[i].0)
                && r@[i].rule.english@ == rule_text(self.active_kinds()[i].1),
    {
        let mut r: Vec<RuleInfo> = Vec::new();
        for i in 0..self.game_rules.len()
            invariant
                self.wf(),
                r@.len() == i,
                forall|j: int| 0 <= j < i ==> (#[trigger] r@[j]).criteria.english@ == criteria_text(self.active_kinds()[j].0)
                    && r@[j].rule.english@ == rule_text(self.active_kinds()[j].1),
        {
            let entry = &self.game_rules[i];
            assert(entry.0.wf() && entry.1.wf());
            r.push(RuleInfo { criteria: entry.0.description.copied(), rule: entry.1.description.copied() });
        }
        r
    }

    /// Removes the rule at position `id`; returns whether there was one.
    pub fn remove_rule(&mut self, id: &usize) -> (removed: bool)
        requires
            old(self).wf(),
        ensures
            final(self).wf(),
            removed == (*id < old(self).active_kinds().len()),
            removed ==> final(self).active_kinds() == old(self).active_kinds().remove(*id as int),
            !removed ==> final(self).active_kinds() == old(self).active_kinds(),
            final(self).pool_kinds() == old(self).pool_kinds(),
            final(self).rule_pool_kinds() == old(self).rule_pool_kinds(),
    {
        if *id < self.game_rules.len() {
            let ghost before = *self;
            let _removed = self.game_rules.remove(*id);
            proof {
                assert(self.active_kinds() =~= before.active_kinds().remove(*id as int));
                assert forall|i: int| 0 <= i < self.game_rules@.len() implies (#[trigger] self.game_rules@[i]).0.wf() && self.game_rules@[i].1.wf() by {
                    if i < *id {
                        assert(self.game_rules@[i] == before.game_rules@[i]);
                    } else {
                        assert(self.game_rules@[i] == before.game_rules@[i + 1]);
                    }
                }
            }
            true
        } else {
            false
        }
    }

    /// The effect that the rules trigger in the given context: that of the one rule
    /// whose criteria holds, applied once; none if no rule or several rules apply.
    pub fn get_new_active_effect(&self, game_ctx: &GameContext) -> (r: Option<RuleEffect>)
        ensures
            match new_effect(self.active_kinds(), game_ctx.previous_moves@) {
                Some(k) => r matches Some(e) && e.handler == k && e.duration.0 == 1,
                None => r is None,
            },
    {
        let ghost rules = self.active_kinds();
        let ghost moves = game_ctx.previous_moves@;
        let mut found: Option<RuleKind> = None;
        for i in 0..self.game_rules.len()
            invariant
                rules == self.active_kinds(),
                moves == game_ctx.previous_moves@,
                applying_rules(rules.take(i as int), moves).len() <= 1,
                match found {
                    Some(k) => applying_rules(rules.take(i as int), moves) == seq![k],
                    None => applying_rules(rules.take(i as int), moves).len() == 0,
                },
        {
            proof {
                lemma_applying_step(rules, moves, i as int);
                assert(rules[i as int] == (self.game_rules@[i as int].0.kind(), self.game_rules@[i as int].1.kind()));
            }
            if self.game_rules[i].0.applies(game_ctx) {
                if found.is_some() {
                    // double rule: no rule applies
                    proof {
                        lemma_applying_rules_grow(rules, moves, i + 1);
                        assert(rules.take(rules.len() as int) =~= rules);
                    }
                    return None;
                }
                found = Some(self.game_rules[i].1.handler);
            }
        }
        proof {
            assert(rules.take(self.game_rules@.len() as int) =~= rules);
        }
        match found {
            Some(handler) => Some(RuleEffect { handler, duration: EffectDuration(1) }),
            None => None,
        }
    }
}

/// What drawing a new rule does: see `RuleManager::add_rule`.
pub open spec fn add_rule_post(before: RuleManager, after: RuleManager, r: Result<RuleInfo, ()>) -> bool {
    &&& before.pool_kinds().len() == 0 ==> r is Err && after.pool_kinds() == before.pool_kinds()
                && after.active_kinds() == before.active_kinds()
                && after.rule_pool_kinds() == before.rule_pool_kinds()
    &&& before.pool_kinds().len() > 0 && before.rule_pool_kinds().len() == 0 ==> r is Err
                && after.pool_kinds() == before.pool_kinds().drop_last()
                && after.active_kinds() == before.active_kinds()
                && after.rule_pool_kinds() == before.rule_pool_kinds()
    &&& before.pool_kinds().len() > 0 && before.rule_pool_kinds().len() > 0 ==> (r matches Ok(info)
                && after.pool_kinds() == before.pool_kinds().drop_last()
                && after.rule_pool_kinds() == before.rule_pool_kinds().drop_last()
                && after.active_kinds() == before.active_kinds().push(
                    (before.pool_kinds().last(), before.rule_pool_kinds().last()),
                )
                && info.rule.english@ == criteria_text(before.pool_kinds().last())
                && info.criteria.english@ == rule_text(before.rule_pool_kinds().last()))
}

/// Shuffling a vector of criteria shuffles their kinds alike.
proof fn lemma_map_kinds_multiset(a: Seq<Criteria>, b: Seq<Criteria>)
    requires
        a.to_multiset() == b.to_multiset(),
    ensures
        a.map_values(|c: Criteria| c.kind()).to_multiset() == b.map_values(|c: Criteria| c.kind()).to_multiset(),
{
    lemma_multiset_map(a, b, |c: Criteria| c.kind());
}

/// Rearranging a sequence rearranges its image under a function alike.
pub proof fn lemma_multiset_map<A, B>(a: Seq<A>, b: Seq<A>, f: spec_fn(A) -> B)
    requires
        a.to_multiset() == b.to_multiset(),
    ensures
        a.map_values(f).to_multiset() == b.map_values(f).to_multiset(),
    decreases a.len(),
{
    broadcast use vstd::seq_lib::group_to_multiset_ensures;
    if a.len() == 0 {
        assert(a.to_multiset().len() == a.len());
        assert(b.to_multiset().len() == b.len());
        assert(b.len() == 0);
        assert(a.map_values(f) =~= Seq::<B>::empty());
        assert(b.map_values(f) =~= Seq::<B>::empty());
    } else {
        let x = a.last();
        let a1 = a.drop_last();
        assert(a1.push(x) =~= a);
        assert(a.to_multiset() == a1.to_multiset().insert(x));
        assert(a.to_multiset().contains(x));
        assert(b.contains(x));
        let j = choose|j: int| 0 <= j < b.len() && b[j] == x;
        let b2 = b.remove(j);
        assert(b2.to_multiset() == b.to_multiset().remove(x));
        assert(a1.to_multiset() =~= a.to_multiset().remove(x));
        lemma_multiset_map(a1, b2, f);
        assert(a.map_values(f) =~= a1.map_values(f).push(f(x)));
        assert(b.map_values(f).remove(j) =~= b2.map_values(f));
        assert(b.map_values(f)[j] == f(x));
        assert(b2.map_values(f).to_multiset() == b.map_values(f).to_multiset().remove(f(x)));
        assert(b.map_values(f).to_multiset().contains(f(x))) by {
            assert(b.map_values(f).contains(f(x)));
        }
        assert(a.map_values(f).to_multiset() =~= b.map_values(f).to_multiset());
    }
}

/// The criteria that new rules are made from, before they are shuffled.
pub open spec fn criteria_pool_kinds() -> Seq<CriteriaKind> {
    seq![
        CriteriaKind::RevealedClock(ClockType::Atomic),
        CriteriaKind::RevealedClock(ClockType::Watch),
        CriteriaKind::RevealedClock(ClockType::Hourglass),
        CriteriaKind::RevealedClock(ClockType::Sun),
        CriteriaKind::RevealedClock(ClockType::Chinese),
        CriteriaKind::RevealedClock(ClockType::Yellow),
        CriteriaKind::RevealedClock(ClockType::Purple),
        CriteriaKind::RevealedTime(Time::One),
        CriteriaKind::RevealedTime(Time::Two),
        CriteriaKind::RevealedTime(Time::Four),
        CriteriaKind::RevealedTime(Time::Five),
        CriteriaKind::RevealedTime(Time::Seven),
        CriteriaKind::RevealedTime(Time::Eleven),
        CriteriaKind::RevealedTime(Time::Twelve),
        CriteriaKind::RevealedThirty,
        CriteriaKind::SameTimeAsPreviousCard,
        CriteriaKind::RightAngle,
        CriteriaKind::SameClockAsPreviousCard,
    ]
}

/// The rules that every game starts with: saying the time of the card one reveals
/// makes everyone hit the middle; revealing a time machine reverses the count.
pub open spec fn starting_rules() -> Seq<(CriteriaKind, RuleKind)> {
    seq![
        (CriteriaKind::SaidTimeOfRevealedCard, RuleKind::EveryoneHitsOnce),
        (CriteriaKind::RevealedClock(ClockType::TimeMachine), RuleKind::ReverseCountDirection),
    ]
}

fn criteria_pool() -> (pool: Vec<Criteria>)
    ensures
        pool@.len() == criteria_pool_kinds().len(),
        forall|i: int| 0 <= i < pool@.len() ==> (#[trigger] pool@[i]).kind() == criteria_pool_kinds()[i] && pool@[i].wf(),
{
    let mut pool: Vec<Criteria> = Vec::new();
    pool.push(Criteria::of(CriteriaKind::RevealedClock(ClockType::Atomic)));
    pool.push(Criteria::of(CriteriaKind::RevealedClock(ClockType::Watch)));
    pool.push(Criteria::of(CriteriaKind::RevealedClock(ClockType::Hourglass)));
    pool.push(Criteria::of(CriteriaKind::RevealedClock(ClockType::Sun)));
    pool.push(Criteria::of(CriteriaKind::RevealedClock(ClockType::Chinese)));
    pool.push(Criteria::of(CriteriaKind::RevealedClock(ClockType::Yellow)));
    pool.push(Criteria::of(CriteriaKind::RevealedClock(ClockType::Purple)));
    pool.push(Criteria::of(CriteriaKind::RevealedTime(Time::One)));
    pool.push(Criteria::of(CriteriaKind::RevealedTime(Time::Two)));
    pool.push(Criteria::of(CriteriaKind::RevealedTime(Time::Four)));
    pool.push(Criteria::of(CriteriaKind::RevealedTime(Time::Five)));
    pool.push(Criteria::of(CriteriaKind::RevealedTime(Time::Seven)));
    pool.push(Criteria::of(CriteriaKind::RevealedTime(Time::Eleven)));
    pool.push(Criteria::of(CriteriaKind::RevealedTime(Time::Twelve)));
    pool.push(Criteria::of(CriteriaKind::RevealedThirty));
    pool.push(Criteria::of(CriteriaKind::SameTimeAsPreviousCard));
    pool.push(Criteria::of(CriteriaKind::RightAngle));
    pool.push(Criteria::of(CriteriaKind::SameClockAsPreviousCard));
    pool
}

} // verus!
