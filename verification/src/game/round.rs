//! A round: the actions of the players, the moves that the rules expect next, and
//! how the round ends.
use vstd::prelude::*;

use crate::card::{Card, Time, time_index, time_plus};
use crate::game::ActiveGameSettings;
use crate::game::game_match::{MatchPlayers, first_position};
use crate::lobby::PlayerId;
use crate::player_cards::PlayerCards;
use crate::rules::RuleEffect;

verus! {

/// A number said aloud when counting: the half hours from zero to nineteen thirty, or
/// the name of a rule.
#[derive(Clone, Copy, Debug, PartialEq, Eq, Structural, Hash)]
pub enum Count {
    Zero,
    ZeroThirty,
    One,
    OneThirty,
    Two,
    TwoThirty,
    Three,
    ThreeThirty,
    Four,
    FourThirty,
    Five,
    FiveThirty,
    Six,
    SixThirty,
    Seven,
    SevenThirty,
    Eight,
    EightThirty,
    Nine,
    NineThirty,
    Ten,
    TenThirty,
    Eleven,
    ElevenThirty,
    Twelve,
    TwelveThirty,
    Thirteen,
    ThirteenThirty,
    Fourteen,
    FourteenThirty,
    Fifteen,
    FifteenThirty,
    Sixteen,
    SixteenThirty,
    Seventeen,
    SeventeenThirty,
    Eighteen,
    EighteenThirty,
    Nineteen,
    NineteenThirty,
    NameOfThisRule,
}

/// The time of the dial that a count names, if it names one (one o'clock to twelve
/// thirty).
pub open spec fn time_of_count(c: Count) -> Option<Time> {
    match c {
        Count::One => Some(Time::One),
        Count::OneThirty => Some(Time::OneThirty),
        Count::Two => Some(Time::Two),
        Count::TwoThirty => Some(Time::TwoThirty),
        Count::Three => Some(Time::Three),
        Count::ThreeThirty => Some(Time::ThreeThirty),
        Count::Four => Some(Time::Four),
        Count::FourThirty => Some(Time::FourThirty),
        Count::Five => Some(Time::Five),
        Count::FiveThirty => Some(Time::FiveThirty),
        Count::Six => Some(Time::Six),
        Count::SixThirty => Some(Time::SixThirty),
        Count::Seven => Some(Time::Seven),
        Count::SevenThirty => Some(Time::SevenThirty),
        Count::Eight => Some(Time::Eight),
        Count::EightThirty => Some(Time::EightThirty),
        Count::Nine => Some(Time::Nine),
        Count::NineThirty => Some(Time::NineThirty),
        Count::Ten => Some(Time::Ten),
        Count::TenThirty => Some(Time::TenThirty),
        Count::Eleven => Some(Time::Eleven),
        Count::ElevenThirty => Some(Time::ElevenThirty),
        Count::Twelve => Some(Time::Twelve),
        Count::TwelveThirty => Some(Time::TwelveThirty),
        _ => None,
    }
}

/// The count that names a time of the dial.
pub open spec fn count_of_time(t: Time) -> Count {
    match t {
        Time::One => Count::One,
        Time::OneThirty => Count::OneThirty,
        Time::Two => Count::Two,
        Time::TwoThirty => Count::TwoThirty,
        Time::Three => Count::Three,
        Time::ThreeThirty => Count::ThreeThirty,
        Time::Four => Count::Four,
        Time::FourThirty => Count::FourThirty,
        Time::Five => Count::Five,
        Time::FiveThirty => Count::FiveThirty,
        Time::Six => Count::Six,
        Time::SixThirty => Count::SixThirty,
        Time::Seven => Count::Seven,
        Time::SevenThirty => Count::SevenThirty,
        Time::Eight => Count::Eight,
        Time::EightThirty => Count::EightThirty,
        Time::Nine => Count::Nine,
        Time::NineThirty => Count::NineThirty,
        Time::Ten => Count::Ten,
        Time::TenThirty => Count::TenThirty,
        Time::Eleven => Count::Eleven,
        Time::ElevenThirty => Count::ElevenThirty,
        Time::Twelve => Count::Twelve,
        Time::TwelveThirty => Count::TwelveThirty,
    }
}

impl From<Time> for Count {
    fn from(value: Time) -> (r: Self) {
        match value {
            Time::One => Self::One,
            Time::OneThirty => Self::OneThirty,
            Time::Two => Self::Two,
            Time::TwoThirty => Self::TwoThirty,
            Time::Three => Self::Three,
            Time::ThreeThirty => Self::ThreeThirty,
            Time::Four => Self::Four,
            Time::FourThirty => Self::FourThirty,
            Time::Five => Self::Five,
            Time::FiveThirty => Self::FiveThirty,
            Time::Six => Self::Six,
            Time::SixThirty => Self::SixThirty,
            Time::Seven => Self::Seven,
            Time::SevenThirty => Self::SevenThirty,
            Time::Eight => Self::Eight,
            Time::EightThirty => Self::EightThirty,
            Time::Nine => Self::Nine,
            Time::NineThirty => Self::NineThirty,
            Time::Ten => Self::Ten,
            Time::TenThirty => Self::TenThirty,
            Time::Eleven => Self::Eleven,
            Time::ElevenThirty => Self::ElevenThirty,
            Time::Twelve => Self::Twelve,
            Time::TwelveThirty => Self::TwelveThirty,
        }
    }
}

impl vstd::std_specs::convert::FromSpecImpl<Time> for Count {
    open spec fn obeys_from_spec() -> bool {
        true
    }

    open spec fn from_spec(v: Time) -> Self {
        count_of_time(v)
    }
}

impl TryFrom<Count> for Time {
    type Error = ();

    fn try_from(value: Count) -> (r: Result<Self, Self::Error>) {
        Ok(match value {
            Count::One => Time::One,
            Count::OneThirty => Time::OneThirty,
            Count::Two => Time::Two,
            Count::TwoThirty => Time::TwoThirty,
            Count::Three => Time::Three,
            Count::ThreeThirty => Time::ThreeThirty,
            Count::Four => Time::Four,
            Count::FourThirty => Time::FourThirty,
            Count::Five => Time::Five,
            Count::FiveThirty => Time::FiveThirty,
            Count::Six => Time::Six,
            Count::SixThirty => Time::SixThirty,
            Count::Seven => Time::Seven,
            Count::SevenThirty => Time::SevenThirty,
            Count::Eight => Time::Eight,
            Count::EightThirty => Time::EightThirty,
            Count::Nine => Time::Nine,
            Count::NineThirty => Time::NineThirty,
            Count::Ten => Time::Ten,
            Count::TenThirty => Time::TenThirty,
            Count::Eleven => Time::Eleven,
            Count::ElevenThirty => Time::ElevenThirty,
            Count::Twelve => Time::Twelve,
            Count::TwelveThirty => Time::TwelveThirty,
            _ => {
                return Err(());
            },
        })
    }
}

impl vstd::std_specs::convert::TryFromSpecImpl<Count> for Time {
    open spec fn obeys_try_from_spec() -> bool {
        true
    }

    open spec fn try_from_spec(v: Count) -> Result<Self, ()> {
        match time_of_count(v) {
            Some(t) => Ok(t),
            None => Err(()),
        }
    }
}


/// A count that names something a player may say: a time of the dial, or the name
/// of a rule.
#[derive(Clone, Copy, Debug, PartialEq, Eq, Structural, Hash)]
pub enum ValidCount {
    Time(Time),
    NameOfThisRule,
}

/// The valid count of a count, if it has one.
pub open spec fn valid_count_of(c: Count) -> Option<ValidCount> {
    if c == Count::NameOfThisRule {
        Some(ValidCount::NameOfThisRule)
    } else {
        match time_of_count(c) {
            Some(t) => Some(ValidCount::Time(t)),
            None => None,
        }
    }
}

impl TryFrom<Count> for ValidCount {
    type Error = ();

    fn try_from(value: Count) -> (r: Result<Self, Self::Error>) {
        Ok(match value {
            Count::NameOfThisRule => Self::NameOfThisRule,
            other => Self::Time(Time::try_from(other)?),
        })
    }
}

impl vstd::std_specs::convert::TryFromSpecImpl<Count> for ValidCount {
    open spec fn obeys_try_from_spec() -> bool {
        true
    }

    open spec fn try_from_spec(v: Count) -> Result<Self, ()> {
        match valid_count_of(v) {
            Some(c) => Ok(c),
            None => Err(()),
        }
    }
}

/// A move as a player makes it, before the server reveals the card laid.
#[derive(Clone, Copy, Debug, PartialEq, Eq, Structural, Hash)]
pub enum InputPlayerMove {
    CountAndLayCard(Count),
    Count(Count),
    LayCard,
}

/// A move whose count, if any, names something a player may say.
#[derive(Clone, Copy, Debug, PartialEq, Eq, Structural, Hash)]
pub enum ValidInputPlayerMoveType {
    CountAndLayCard(ValidCount),
    Count(ValidCount),
    LayCard,
}

/// The valid form of a move, if its count is valid.
pub open spec fn valid_move_of(m: InputPlayerMove) -> Option<ValidInputPlayerMoveType> {
    match m {
        InputPlayerMove::CountAndLayCard(c) => match valid_count_of(c) {
            Some(v) => Some(ValidInputPlayerMoveType::CountAndLayCard(v)),
            None => None,
        },
        InputPlayerMove::Count(c) => match valid_count_of(c) {
            Some(v) => Some(ValidInputPlayerMoveType::Count(v)),
            None => None,
        },
        InputPlayerMove::LayCard => Some(ValidInputPlayerMoveType::LayCard),
    }
}

/// The count said in a valid move, if any.
pub open spec fn move_count(m: ValidInputPlayerMoveType) -> Option<ValidCount> {
    match m {
        ValidInputPlayerMoveType::CountAndLayCard(c) => Some(c),
        ValidInputPlayerMoveType::Count(c) => Some(c),
        ValidInputPlayerMoveType::LayCard => None,
    }
}

impl TryFrom<InputPlayerMove> for ValidInputPlayerMoveType {
    type Error = ();

    fn try_from(value: InputPlayerMove) -> (r: Result<Self, Self::Error>) {
        Ok(match value {
            InputPlayerMove::CountAndLayCard(count) => {
                ValidInputPlayerMoveType::CountAndLayCard(ValidCount::try_from(count)?)
            },
            InputPlayerMove::Count(count) => {
                ValidInputPlayerMoveType::Count(ValidCount::try_from(count)?)
            },
            InputPlayerMove::LayCard => ValidInputPlayerMoveType::LayCard,
        })
    }
}

impl vstd::std_specs::convert::TryFromSpecImpl<InputPlayerMove> for ValidInputPlayerMoveType {
    open spec fn obeys_try_from_spec() -> bool {
        true
    }

    open spec fn try_from_spec(v: InputPlayerMove) -> Result<Self, ()> {
        match valid_move_of(v) {
            Some(m) => Ok(m),
            None => Err(()),
        }
    }
}

impl ValidInputPlayerMoveType {
    /// The count said in this move, if any.
    pub fn get_count(&self) -> (r: Option<&ValidCount>)
        ensures
            r matches Some(c) ==> move_count(*self) == Some(*c),
            r is None <==> move_count(*self) is None,
    {
        match self {
            Self::CountAndLayCard(count) => Some(count),
            Self::Count(count) => Some(count),
            Self::LayCard => None,
        }
    }
}

impl InputPlayerMove {
    /// The count said in this move, if any.
    pub fn get_count(&self) -> (r: Option<Count>)
        ensures
            r == match *self {
                InputPlayerMove::CountAndLayCard(c) => Some(c),
                InputPlayerMove::Count(c) => Some(c),
                InputPlayerMove::LayCard => None,
            },
    {
        match self {
            InputPlayerMove::CountAndLayCard(count) => Some(*count),
            InputPlayerMove::Count(count) => Some(*count),
            InputPlayerMove::LayCard => None,
        }
    }
}

/// A valid move and the player who made it.
#[derive(Clone, Copy, Debug)]
pub struct ValidInputPlayerMove {
    pub player: PlayerId,
    pub move_type: ValidInputPlayerMoveType,
}

/// The ways to hit the middle of the table.
#[derive(Clone, Copy, Debug, PartialEq, Eq, Structural, Hash)]
pub enum HitType {
    /// hit with right hand
    Single,
    /// hit with both hands
    Double,
    /// hit with right hand upside down
    UpsideDown,
}

/// An action as a player sends it.
#[derive(Clone, Copy, Debug, PartialEq, Eq, Structural)]
pub enum InputPlayerAction {
    Move(InputPlayerMove),
    Hit(HitType),
    ReportError,
    DeclareWin,
}

/// A move as the server broadcasts it, with the card that was laid.
#[derive(Clone, Copy, Debug, PartialEq, Eq, Structural)]
pub enum PlayerMove {
    CountAndLayCard { card: Card, count: Count },
    Count(Count),
    LayCard(Card),
}

/// The kind of an action as the server broadcasts it.
#[derive(Clone, Copy, Debug, PartialEq, Eq, Structural)]
pub enum PlayerActionType {
    Move(PlayerMove),
    Hit(HitType),
    ReportError,
    DeclareWin,
}

/// An action made in a round; `time` is in milliseconds since the Unix epoch.
#[derive(Clone, Copy, Debug)]
pub struct PlayerAction {
    pub player_id: PlayerId,
    pub time: i64,
    pub action_type: PlayerActionType,
}

/// Why an action was judged an error.
#[derive(Clone, Copy, Debug, PartialEq, Eq, Structural)]
pub enum ErrorReason {
    MoveOutOfTurn,
    InvalidMove,
    InvalidHit,
    InvalidHitType,
    InvalidWinDeclaration,
}

/// An erroneous action; `occured` is in milliseconds since the Unix epoch.
#[derive(Clone, Copy, Debug)]
pub struct ActionError {
    pub player: PlayerId,
    pub reason: ErrorReason,
    pub occured: i64,
}

/// A step on the dial, in half hours; negative for counting backwards.
#[derive(Clone, Copy, Debug)]
pub struct TimeInterval(pub isize);

impl TimeInterval {
    /// Two hours back.
    pub fn minus_two_hours() -> (r: Self)
        ensures
            r.0 == -4,
    {
        Self(-4)
    }

    /// One hour back.
    pub fn minus_one_hour() -> (r: Self)
        ensures
            r.0 == -2,
    {
        Self(-2)
    }

    /// Thirty minutes back.
    pub fn minus_thirty_minutes() -> (r: Self)
        ensures
            r.0 == -1,
    {
        Self(-1)
    }

    /// Thirty minutes forward.
    pub fn thirty_minutes() -> (r: Self)
        ensures
            r.0 == 1,
    {
        Self(1)
    }

    /// One hour forward.
    pub fn one_hour() -> (r: Self)
        ensures
            r.0 == 2,
    {
        Self(2)
    }

    /// Two hours forward.
    pub fn two_hours() -> (r: Self)
        ensures
            r.0 == 4,
    {
        Self(4)
    }


    /// Counts the other way round the dial.
    pub fn toggle_direction(&mut self)
        requires
            old(self).0 != isize::MIN,
        ensures
            final(self).0 == -old(self).0,
    {
        self.0 = -self.0
    }
}

/// The step from one player to the next in the order: 1 forward, -1 backward.
#[derive(Clone, Copy, Debug)]
pub struct PlayerDirection(pub isize);

impl PlayerDirection {
    /// Forward through the order.
    pub fn forward() -> (r: Self)
        ensures
            r.0 == 1,
    {
        Self(1)
    }

    /// Backward through the order.
    pub fn reverse() -> (r: Self)
        ensures
            r.0 == -1,
    {
        Self(-1)
    }


    /// Turns the direction of play round.
    pub fn toggle_direction(&mut self)
        requires
            old(self).0 != isize::MIN,
        ensures
            final(self).0 == -old(self).0,
    {
        self.0 = -self.0
    }
}


/// What the move manager decides from: the count step, and the moves that a rule has
/// fixed for the next move, if any.
pub struct MoveModel {
    pub count_interval: int,
    pub next_move: Option<Set<ValidInputPlayerMoveType>>,
}

/// What the rules expect of the next move.
pub struct MoveManager {
    pub count_interval: TimeInterval,
    /// moves fixed by a rule for the next move; any one of them is correct
    pub next_move: Option<Vec<ValidInputPlayerMoveType>>,
}

impl View for MoveManager {
    type V = MoveModel;

    open spec fn view(&self) -> MoveModel {
        MoveModel {
            count_interval: self.count_interval.0 as int,
            next_move: match self.next_move {
                Some(v) => Some(v@.to_set()),
                None => None,
            },
        }
    }
}

/// The last time said in a sequence of moves, skipping moves that said no time.
pub open spec fn last_counted_time(moves: Seq<ValidInputPlayerMove>) -> Option<Time>
    decreases moves.len(),
{
    if moves.len() == 0 {
        None
    } else {
        match move_count(moves.last().move_type) {
            Some(ValidCount::Time(t)) => Some(t),
            _ => last_counted_time(moves.drop_last()),
        }
    }
}

/// The time that the next count should say when no rule fixes the next move: the last
/// time said plus the count step, or one o'clock if no time was said yet.
pub open spec fn expected_time(m: MoveModel, previous_moves: Seq<ValidInputPlayerMove>) -> Time {
    match last_counted_time(previous_moves) {
        Some(t) => time_plus(t, m.count_interval),
        None => Time::One,
    }
}

/// How the move manager judges a move: the valid move if correct, `None` if not, and
/// the manager afterwards. A move fixed by a rule is consumed by the judgement, unless
/// the move's count is not valid at all; otherwise a correct move is the expected time
/// said while laying a card.
pub open spec fn move_step(
    m: MoveModel,
    previous_moves: Seq<ValidInputPlayerMove>,
    player_move: InputPlayerMove,
) -> (Option<ValidInputPlayerMoveType>, MoveModel) {
    match valid_move_of(player_move) {
        None => (None, m),
        Some(v) => match m.next_move {
            Some(allowed) => (
                if allowed.contains(v) { Some(v) } else { None },
                MoveModel { next_move: None, ..m },
            ),
            None => (
                if v == ValidInputPlayerMoveType::CountAndLayCard(
                    ValidCount::Time(expected_time(m, previous_moves)),
                ) {
                    Some(v)
                } else {
                    None
                },
                m,
            ),
        },
    }
}

/// The judgement stays within machine integers: stepping from the last time said does
/// not overflow.
pub open spec fn move_step_safe(
    m: MoveModel,
    previous_moves: Seq<ValidInputPlayerMove>,
    player_move: InputPlayerMove,
) -> bool {
    valid_move_of(player_move) is Some && m.next_move is None
        ==> match last_counted_time(previous_moves) {
        Some(t) => isize::MIN <= time_index(t) + m.count_interval <= isize::MAX,
        None => true,
    }
}

fn contains_move(moves: &Vec<ValidInputPlayerMoveType>, m: &ValidInputPlayerMoveType) -> (r: bool)
    ensures
        r == moves@.contains(*m),
{
    let mut i: usize = 0;
    while i < moves.len()
        invariant
            i <= moves@.len(),
            forall|j: int| 0 <= j < i ==> moves@[j] != *m,
        decreases moves@.len() - i,
    {
        if moves[i] == *m {
            return true;
        }
        i += 1;
    }
    false
}

/// The last time said in `moves`.
fn find_last_counted_time(moves: &Vec<ValidInputPlayerMove>) -> (r: Option<Time>)
    ensures
        r == last_counted_time(moves@),
{
    let mut i: usize = moves.len();
    assert(moves@.subrange(0, i as int) =~= moves@);
    while i > 0
        invariant
            i <= moves@.len(),
            last_counted_time(moves@) == last_counted_time(moves@.subrange(0, i as int)),
        decreases i,
    {
        let ghost prefix = moves@.subrange(0, i as int);
        assert(prefix.drop_last() =~= moves@.subrange(0, i - 1));
        assert(prefix.last() == moves@[i - 1]);
        if let Some(ValidCount::Time(time)) = moves[i - 1].move_type.get_count() {
            return Some(*time);
        }
        i -= 1;
    }
    assert(moves@.subrange(0, 0) =~= Seq::<ValidInputPlayerMove>::empty());
    None
}

impl MoveManager {
    /// returns Some if the move was correct, and None if incorrect
    pub fn process(
        &mut self,
        previous_moves: &Vec<ValidInputPlayerMove>,
        player_move: InputPlayerMove,
    ) -> (r: Option<ValidInputPlayerMoveType>)
        requires
            move_step_safe(old(self)@, previous_moves@, player_move),
        ensures
            (r, final(self)@) == move_step(old(self)@, previous_moves@, player_move),
            final(self).count_interval.0 == old(self).count_interval.0,
    {
        let player_move = match ValidInputPlayerMoveType::try_from(player_move) {
            Ok(m) => m,
            Err(_) => {
                return None;
            },
        };
        if let Some(allowed_moves) = self.next_move.take() {
            if contains_move(&allowed_moves, &player_move) {
                return Some(player_move);
            } else {
                return None;
            }
        }
        let previous_time = find_last_counted_time(previous_moves);
        let expected_time = match previous_time {
            Some(time) => time.plus(&self.count_interval),
            None => Time::One,
        };
        match player_move {
            ValidInputPlayerMoveType::CountAndLayCard(count) => {
                if let ValidCount::Time(time) = count {
                    if time == expected_time {
                        return Some(player_move);
                    }
                }
                None
            },
            _ => None,
        }
    }

    /// Fixes the next move to be `valid_move`.
    pub fn set_next_move(&mut self, valid_move: ValidInputPlayerMoveType)
        ensures
            final(self)@ == (MoveModel { next_move: Some(set![valid_move]), ..old(self)@ }),
            final(self).count_interval.0 == old(self).count_interval.0,
    {
        let mut moves = Vec::new();
        moves.push(valid_move);
        self.next_move = Some(moves);
        assert(moves@ =~= seq![valid_move]);
        assert(seq![valid_move].to_set() =~= set![valid_move]) by {
            assert(seq![valid_move][0] == valid_move);
        }
    }
}

/// What the turn manager decides from: who starts, the direction of play, and the
/// players that a rule has fixed for the next turn, if any.
pub struct TurnModel {
    pub starting_player: PlayerId,
    pub direction: int,
    pub next_player: Option<Set<PlayerId>>,
}

/// Whose turn it is.
pub struct TurnManager {
    starting_player: PlayerId,
    pub direction: PlayerDirection,
    /// players fixed by a rule for the next turn; any one of them is correct
    pub next_player: Option<Vec<PlayerId>>,
}

impl View for TurnManager {
    type V = TurnModel;

    closed spec fn view(&self) -> TurnModel {
        TurnModel {
            starting_player: self.starting_player,
            direction: self.direction.0 as int,
            next_player: match self.next_player {
                Some(v) => Some(v@.to_set()),
                None => None,
            },
        }
    }
}

/// The player whose turn it is when no rule fixes it: the one after the previous
/// player in the direction of play, round the order; the starting player if no one
/// has moved yet.
pub open spec fn expected_player(t: TurnModel, previous: Option<PlayerId>, order: Seq<PlayerId>) -> PlayerId {
    match previous {
        Some(q) => order[(first_position(order, q) + t.direction) % (order.len() as int)],
        None => t.starting_player,
    }
}

/// How the turn manager judges whether `p` may act now, and the manager afterwards:
/// a turn fixed by a rule is consumed by the judgement.
pub open spec fn turn_step(t: TurnModel, p: PlayerId, previous: Option<PlayerId>, order: Seq<PlayerId>) -> (bool, TurnModel) {
    match t.next_player {
        Some(allowed) => (allowed.contains(p), TurnModel { next_player: None, ..t }),
        None => (p == expected_player(t, previous, order), t),
    }
}

/// The judgement can be made: the previous player is still in the order, and the
/// step from that player stays within machine integers.
pub open spec fn turn_step_safe(t: TurnModel, previous: Option<PlayerId>, order: Seq<PlayerId>) -> bool {
    t.next_player is None ==> match previous {
        Some(q) => order.contains(q) && order.len() <= isize::MAX
            && isize::MIN <= first_position(order, q) + t.direction <= isize::MAX,
        None => true,
    }
}

fn contains_player(players: &Vec<PlayerId>, p: &PlayerId) -> (r: bool)
    ensures
        r == players@.contains(*p),
{
    let mut i: usize = 0;
    while i < players.len()
        invariant
            i <= players@.len(),
            forall|j: int| 0 <= j < i ==> players@[j] != *p,
        decreases players@.len() - i,
    {
        if players[i] == *p {
            return true;
        }
        i += 1;
    }
    false
}

impl TurnManager {
    /// A turn manager for a round that `starting_player` starts, going forward.
    pub fn new(starting_player: PlayerId) -> (r: Self)
        ensures
            r@ == (TurnModel { starting_player, direction: 1, next_player: None }),
    {
        TurnManager { starting_player, direction: PlayerDirection::forward(), next_player: None }
    }

    /// returns true if the player was correct, and false if incorrect
    pub fn process(
        &mut self,
        player: PlayerId,
        previous_player: Option<&PlayerId>,
        match_players: &MatchPlayers,
    ) -> (r: bool)
        requires
            turn_step_safe(
                old(self)@,
                match previous_player { Some(q) => Some(*q), None => None },
                match_players.order(),
            ),
        ensures
            (r, final(self)@) == turn_step(
                old(self)@,
                player,
                match previous_player { Some(q) => Some(*q), None => None },
                match_players.order(),
            ),
    {
        if let Some(allowed_players) = self.next_player.take() {
            if contains_player(&allowed_players, &player) {
                return true;
            } else {
                return false;
            }
        }
        let next_player = if let Some(previous_player) = previous_player {
            let previous_player_idx = match_players.get_index(previous_player).unwrap();
            let n = match_players.n_players();
            let sum: i128 = previous_player_idx as i128 + self.direction.0 as i128;
            let m: i128 = n as i128;
            let r: i128 = if sum >= 0 { sum % m } else {
                let k: i128 = (-sum) % m;
                if k == 0 { 0 } else { m - k }
            };
            assert(r == (previous_player_idx + self.direction.0) % (n as int) && 0 <= r < n) by (nonlinear_arith)
                requires
                    m == n,
                    n > 0,
                    sum == previous_player_idx + self.direction.0,
                    sum >= 0 ==> r == (sum as int) % (n as int),
                    sum < 0 ==> (((-sum) % (n as int) == 0 && r == 0) || ((-sum) % (n as int) != 0 && r == n - (-sum) % (n as int))),
            {
                let nn = n as int;
                if sum < 0 {
                    let q = (-sum) / nn;
                    let k = (-sum) % nn;
                    assert(-sum == nn * q + k);
                    if k == 0 {
                        assert(sum == nn * (-q));
                    } else {
                        assert(sum == nn * (-q - 1) + (nn - k));
                    }
                }
            }
            *match_players.get(r as usize).unwrap()
        } else {
            self.starting_player
        };
        player == next_player
    }

    /// Fixes the next turn to be `player`'s.
    pub fn set_next_player(&mut self, player: PlayerId)
        ensures
            final(self)@ == (TurnModel { next_player: Some(set![player]), ..old(self)@ }),
    {
        let mut players = Vec::new();
        players.push(player);
        self.next_player = Some(players);
        assert(players@ =~= seq![player]);
        assert(seq![player].to_set() =~= set![player]) by {
            assert(seq![player][0] == player);
        }
    }

    /// Who started the round.
    pub fn starting_player(&self) -> (r: PlayerId)
        ensures
            r == self@.starting_player,
    {
        self.starting_player
    }

    /// Sets the direction of play.
    pub fn set_direction(&mut self, direction: PlayerDirection)
        ensures
            final(self)@ == (TurnModel { direction: direction.0 as int, ..old(self)@ }),
    {
        self.direction = direction;
    }

    /// The direction of play.
    pub fn direction(&self) -> (r: PlayerDirection)
        ensures
            r.0 as int == self@.direction,
    {
        self.direction
    }

    /// Fixes the next turn to be that of any one of `players`, or frees it when
    /// `players` is `None`.
    pub fn set_next_players(&mut self, players: Option<Vec<PlayerId>>)
        ensures
            final(self)@ == (TurnModel {
                next_player: match players {
                    Some(v) => Some(v@.to_set()),
                    None => None,
                },
                ..old(self)@
            }),
    {
        self.next_player = players;
    }
}


/// The moves of a round so far and the managers that judge the next one; what the
/// rules are handed to change.
pub struct ActionChainMoves {
    pub previous_moves: Vec<ValidInputPlayerMove>,
    pub turn_manager: TurnManager,
    pub move_manager: MoveManager,
}

/// The correct chain of actions in a state
pub enum ActionChain {
    Moves {
        previous_moves: Vec<ValidInputPlayerMove>,
        turn_manager: TurnManager,
        move_manager: MoveManager,
    },
    Hit {
        /// when this set becomes empty the round terminates
        players: Vec<PlayerId>,
        hit_type: HitType,
    },
    ReportError {
        errors: Vec<ActionError>,
        chain_before_first_error: Box<ActionChain>,
    },
}

/// An action chain as the rules see it.
pub enum ChainModel {
    /// moves are expected; the valid moves so far, in order
    Moves { previous_moves: Seq<ValidInputPlayerMove>, turn: TurnModel, moves: MoveModel },
    /// these players are still expected to hit the middle this way
    Hit { players: Set<PlayerId>, hit_type: HitType },
    /// errors were made, the first one first; `before` is the chain as it stood
    /// before the first error
    ReportError { errors: Seq<ActionError>, before: Box<ChainModel> },
}

/// The model of an action chain.
pub open spec fn chain_model(c: ActionChain) -> ChainModel
    decreases c,
{
    match c {
        ActionChain::Moves { previous_moves, turn_manager, move_manager } => ChainModel::Moves {
            previous_moves: previous_moves@,
            turn: turn_manager@,
            moves: move_manager@,
        },
        ActionChain::Hit { players, hit_type } => ChainModel::Hit { players: players@.to_set(), hit_type },
        ActionChain::ReportError { errors, chain_before_first_error } => ChainModel::ReportError {
            errors: errors@,
            before: Box::new(chain_model(*chain_before_first_error)),
        },
    }
}

impl View for ActionChain {
    type V = ChainModel;

    open spec fn view(&self) -> ChainModel {
        chain_model(*self)
    }
}

/// A chain of errors holds at least one error, and the chain before the first error
/// is not itself one of errors.
pub open spec fn chain_wf(c: ChainModel) -> bool {
    match c {
        ChainModel::ReportError { errors, before } => errors.len() > 0 && !(*before is ReportError),
        _ => true,
    }
}

/// How a round ended, as the rules see it.
pub enum Termination {
    ErrorReported { reporter: PlayerId, errors: Seq<ActionError> },
    FaultyErrorReport(PlayerId),
    HitPileLast(PlayerId),
    FaultyWinDeclaration(PlayerId),
    PlayerWonMatch(PlayerId),
    Timeout(PlayerId),
}

/// How a round ended.
pub enum RoundTerminationType {
    ErrorReported {
        reporter: PlayerId,
        /// latest error maker in this vec is the loser of the round
        errors: Vec<ActionError>,
    },
    FaultyErrorReport(PlayerId),
    HitPileLast(PlayerId),
    FaultyWinDeclaration(PlayerId),
    PlayerWonMatch(PlayerId),
    /// the player took too long to act
    Timeout(PlayerId),
}

impl View for RoundTerminationType {
    type V = Termination;

    open spec fn view(&self) -> Termination {
        match *self {
            RoundTerminationType::ErrorReported { reporter, errors } => Termination::ErrorReported {
                reporter,
                errors: errors@,
            },
            RoundTerminationType::FaultyErrorReport(p) => Termination::FaultyErrorReport(p),
            RoundTerminationType::HitPileLast(p) => Termination::HitPileLast(p),
            RoundTerminationType::FaultyWinDeclaration(p) => Termination::FaultyWinDeclaration(p),
            RoundTerminationType::PlayerWonMatch(p) => Termination::PlayerWonMatch(p),
            RoundTerminationType::Timeout(p) => Termination::Timeout(p),
        }
    }
}

/// The model of an optional termination.
pub open spec fn termination_model(t: Option<RoundTerminationType>) -> Option<Termination> {
    match t {
        Some(t) => Some(t@),
        None => None,
    }
}

/// The player who lost the round, if someone did: the last to err, the one who
/// reported or declared wrongly, hit last or ran out of time; no one if a player won
/// the match.
pub open spec fn loser(t: Termination) -> Option<PlayerId> {
    match t {
        Termination::ErrorReported { errors, .. } => Some(errors.last().player),
        Termination::FaultyErrorReport(p) => Some(p),
        Termination::HitPileLast(p) => Some(p),
        Termination::FaultyWinDeclaration(p) => Some(p),
        Termination::PlayerWonMatch(_) => None,
        Termination::Timeout(p) => Some(p),
    }
}

impl RoundTerminationType {
    /// A copy of this termination.
    pub fn copied(&self) -> (r: Self)
        ensures
            r@ == self@,
    {
        match self {
            RoundTerminationType::ErrorReported { reporter, errors } => {
                RoundTerminationType::ErrorReported { reporter: *reporter, errors: errors.clone() }
            },
            RoundTerminationType::FaultyErrorReport(p) => RoundTerminationType::FaultyErrorReport(*p),
            RoundTerminationType::HitPileLast(p) => RoundTerminationType::HitPileLast(*p),
            RoundTerminationType::FaultyWinDeclaration(p) => RoundTerminationType::FaultyWinDeclaration(*p),
            RoundTerminationType::PlayerWonMatch(p) => RoundTerminationType::PlayerWonMatch(*p),
            RoundTerminationType::Timeout(p) => RoundTerminationType::Timeout(*p),
        }
    }

    /// The player who lost the round, if someone did.
    pub fn get_loser(&self) -> (r: Option<&PlayerId>)
        requires
            self@ is ErrorReported ==> self@->errors.len() > 0,
        ensures
            match r {
                Some(p) => loser(self@) == Some(*p),
                None => loser(self@) is None,
            },
    {
        match self {
            RoundTerminationType::ErrorReported { errors, .. } => {
                Some(&errors[errors.len() - 1].player)
            },
            RoundTerminationType::FaultyErrorReport(player_id) => Some(player_id),
            RoundTerminationType::HitPileLast(player_id) => Some(player_id),
            RoundTerminationType::FaultyWinDeclaration(player_id) => Some(player_id),
            RoundTerminationType::PlayerWonMatch(_) => None,
            RoundTerminationType::Timeout(player_id) => Some(player_id),
        }
    }
}

/// Whether the first error of a chain of errors was made at most `reaction`
/// milliseconds before `time`: then an action is still judged against the chain as it
/// stood before that error.
pub open spec fn within_reaction(c: ChainModel, reaction: int, time: int) -> bool {
    match c {
        ChainModel::ReportError { errors, .. } => errors.len() > 0 && time - errors[0].occured <= reaction,
        _ => false,
    }
}

/// The chain that an action is judged against.
pub open spec fn focus(c: ChainModel, reaction: int, time: int) -> ChainModel {
    if within_reaction(c, reaction, time) {
        *c->before
    } else {
        c
    }
}

/// `c` with the chain that was judged against replaced by `inner`.
pub open spec fn refocus(c: ChainModel, reaction: int, time: int, inner: ChainModel) -> ChainModel {
    if within_reaction(c, reaction, time) {
        ChainModel::ReportError { errors: c->errors, before: Box::new(inner) }
    } else {
        inner
    }
}

/// `c` with one more error: appended to its errors, or, if it held none, starting
/// a chain of errors with `c` as the chain before the first error.
pub open spec fn bail(c: ChainModel, e: ActionError) -> ChainModel {
    match c {
        ChainModel::ReportError { errors, before } => ChainModel::ReportError { errors: errors.push(e), before },
        _ => ChainModel::ReportError { errors: seq![e], before: Box::new(c) },
    }
}

/// The player of the last valid move, if any.
pub open spec fn last_mover(moves: Seq<ValidInputPlayerMove>) -> Option<PlayerId> {
    if moves.len() == 0 {
        None
    } else {
        Some(moves.last().player)
    }
}

/// How the judged chain takes an action by `p` other than an error report: the
/// judged chain afterwards, the error the action was, if any, and how the round
/// ended, if it did.
pub open spec fn step_inner(
    inner: ChainModel,
    p: PlayerId,
    action: InputPlayerAction,
    order: Seq<PlayerId>,
    hands: Map<PlayerId, Seq<Card>>,
) -> (ChainModel, Option<ErrorReason>, Option<Termination>) {
    match action {
        InputPlayerAction::Move(m) => match inner {
            ChainModel::Moves { previous_moves, turn, moves } => {
                let (turn_ok, turn2) = turn_step(turn, p, last_mover(previous_moves), order);
                if !turn_ok {
                    (ChainModel::Moves { previous_moves, turn: turn2, moves }, Some(ErrorReason::MoveOutOfTurn), None)
                } else {
                    let (judged, moves2) = move_step(moves, previous_moves, m);
                    match judged {
                        None => (
                            ChainModel::Moves { previous_moves, turn: turn2, moves: moves2 },
                            Some(ErrorReason::InvalidMove),
                            None,
                        ),
                        Some(v) => (
                            ChainModel::Moves {
                                previous_moves: previous_moves.push(ValidInputPlayerMove { player: p, move_type: v }),
                                turn: turn2,
                                moves: moves2,
                            },
                            None,
                            None,
                        ),
                    }
                }
            },
            _ => (inner, Some(ErrorReason::MoveOutOfTurn), None),
        },
        InputPlayerAction::Hit(h) => match inner {
            ChainModel::Hit { players, hit_type } => {
                if !players.contains(p) {
                    (inner, Some(ErrorReason::InvalidHit), None)
                } else if h != hit_type {
                    (inner, Some(ErrorReason::InvalidHitType), None)
                } else {
                    let rest = players.remove(p);
                    (
                        ChainModel::Hit { players: rest, hit_type },
                        None,
                        if rest == Set::<PlayerId>::empty() { Some(Termination::HitPileLast(p)) } else { None },
                    )
                }
            },
            _ => (inner, Some(ErrorReason::InvalidHit), None),
        },
        InputPlayerAction::DeclareWin => match inner {
            ChainModel::Moves { previous_moves, turn, moves } => {
                let (turn_ok, turn2) = turn_step(turn, p, last_mover(previous_moves), order);
                let after = ChainModel::Moves { previous_moves, turn: turn2, moves };
                if !turn_ok {
                    (after, Some(ErrorReason::MoveOutOfTurn), None)
                } else if hands[p].len() > 0 {
                    (after, None, Some(Termination::FaultyWinDeclaration(p)))
                } else {
                    (after, None, Some(Termination::PlayerWonMatch(p)))
                }
            },
            _ => (inner, None, Some(Termination::FaultyWinDeclaration(p))),
        },
        InputPlayerAction::ReportError => (inner, None, None),
    }
}

/// How an action chain takes an action by `p` at `time`: the chain afterwards and
/// how the round ended, if it did. An error report ends the round, as a report of the
/// errors made if there are any and as a faulty report otherwise. Any other action is
/// judged against the chain before the first error while that error is at most
/// `reaction` milliseconds old, and against the chain itself otherwise; an erroneous
/// action is added to the errors.
pub open spec fn chain_step(
    c: ChainModel,
    p: PlayerId,
    action: InputPlayerAction,
    reaction: int,
    order: Seq<PlayerId>,
    hands: Map<PlayerId, Seq<Card>>,
    time: int,
) -> (ChainModel, Option<Termination>) {
    match action {
        InputPlayerAction::ReportError => (
            c,
            Some(
                match c {
                    ChainModel::ReportError { errors, .. } => Termination::ErrorReported { reporter: p, errors },
                    _ => Termination::FaultyErrorReport(p),
                },
            ),
        ),
        _ => {
            let (inner2, error, end) = step_inner(focus(c, reaction, time), p, action, order, hands);
            let c2 = refocus(c, reaction, time, inner2);
            (
                match error {
                    Some(r) => bail(c2, ActionError { player: p, reason: r, occured: time as i64 }),
                    None => c2,
                },
                end,
            )
        },
    }
}

/// The action can be judged without a panic: the turn and move judgements can be
/// made, and a declared win can be checked against the player's hand.
pub open spec fn chain_step_safe(
    c: ChainModel,
    p: PlayerId,
    action: InputPlayerAction,
    reaction: int,
    order: Seq<PlayerId>,
    hands: Map<PlayerId, Seq<Card>>,
    time: int,
) -> bool {
    &&& chain_wf(c)
    &&& match (action, focus(c, reaction, time)) {
        (InputPlayerAction::Move(m), ChainModel::Moves { previous_moves, turn, moves }) => {
            &&& turn_step_safe(turn, last_mover(previous_moves), order)
            &&& turn_step(turn, p, last_mover(previous_moves), order).0 ==> move_step_safe(moves, previous_moves, m)
        },
        (InputPlayerAction::DeclareWin, ChainModel::Moves { previous_moves, turn, .. }) => {
            &&& turn_step_safe(turn, last_mover(previous_moves), order)
            &&& turn_step(turn, p, last_mover(previous_moves), order).0 ==> hands.contains_key(p)
        },
        _ => true,
    }
}

/// The count step and the direction of play stay small (at most a day's worth of
/// half hours either way), so that stepping never overflows.
pub open spec fn chain_bounded(c: ChainModel) -> bool
    decreases c,
{
    match c {
        ChainModel::Moves { turn, moves, .. } => -24 <= moves.count_interval <= 24 && -24 <= turn.direction <= 24,
        ChainModel::Hit { .. } => true,
        ChainModel::ReportError { before, .. } => chain_bounded(*before),
    }
}

/// Judging an action keeps the count step and the direction of play as they were.
pub proof fn lemma_chain_step_bounded(
    c: ChainModel,
    p: PlayerId,
    action: InputPlayerAction,
    reaction: int,
    order: Seq<PlayerId>,
    hands: Map<PlayerId, Seq<Card>>,
    time: int,
)
    requires
        chain_wf(c),
        chain_bounded(c),
    ensures
        chain_bounded(chain_step(c, p, action, reaction, order, hands, time).0),
{
    reveal_with_fuel(chain_bounded, 3);
}

/// Judging an action keeps an action chain well formed.
pub proof fn lemma_chain_step_wf(
    c: ChainModel,
    p: PlayerId,
    action: InputPlayerAction,
    reaction: int,
    order: Seq<PlayerId>,
    hands: Map<PlayerId, Seq<Card>>,
    time: int,
)
    requires
        chain_wf(c),
    ensures
        chain_wf(chain_step(c, p, action, reaction, order, hands, time).0),
{
}


/// Judging an action takes back no error: a chain holding errors holds them still
/// afterwards, in order, as the first of its errors. A move never ends the round, and
/// a hit ends it only as the last hit, by the hitter.
pub proof fn lemma_chain_step_keeps_errors(
    c: ChainModel,
    p: PlayerId,
    action: InputPlayerAction,
    reaction: int,
    order: Seq<PlayerId>,
    hands: Map<PlayerId, Seq<Card>>,
    time: int,
)
    requires
        chain_wf(c),
    ensures
        ({
            let (c2, end) = chain_step(c, p, action, reaction, order, hands, time);
            &&& chain_wf(c2)
            &&& c matches ChainModel::ReportError { errors: e0, .. } ==> {
                &&& c2 matches ChainModel::ReportError { errors: e, .. }
                &&& e0.len() <= e.len()
                &&& e.subrange(0, e0.len() as int) == e0
            }
            &&& action is Move ==> end is None
            &&& action is Hit && end is Some ==> end == Some(Termination::HitPileLast(p))
        }),
{
    let (c2, end) = chain_step(c, p, action, reaction, order, hands, time);
    if let ChainModel::ReportError { errors: e0, .. } = c {
        if let ChainModel::ReportError { errors: e, .. } = c2 {
            assert(e.subrange(0, e0.len() as int) =~= e0);
        }
    }
}
/// A win declared against a chain of moves is judged like a move: by a player whose
/// turn it is not, it is an error (a move out of turn, added last to the errors) and
/// ends nothing; by the player whose turn it is, it wins the match with an empty hand
/// and is a faulty declaration otherwise.
pub proof fn lemma_declaring_a_win(
    c: ChainModel,
    p: PlayerId,
    reaction: int,
    order: Seq<PlayerId>,
    hands: Map<PlayerId, Seq<Card>>,
    time: int,
)
    requires
        chain_wf(c),
        focus(c, reaction, time) is Moves,
    ensures
        ({
            let inner = focus(c, reaction, time);
            let (c2, end) = chain_step(c, p, InputPlayerAction::DeclareWin, reaction, order, hands, time);
            let in_turn = turn_step(inner->turn, p, last_mover(inner->previous_moves), order).0;
            &&& !in_turn ==> {
                &&& end is None
                &&& c2 matches ChainModel::ReportError { errors, .. }
                &&& errors.last() == (ActionError { player: p, reason: ErrorReason::MoveOutOfTurn, occured: time as i64 })
            }
            &&& in_turn && hands[p].len() == 0 ==> end == Some(Termination::PlayerWonMatch(p))
            &&& in_turn && hands[p].len() > 0 ==> end == Some(Termination::FaultyWinDeclaration(p))
        }),
{
}

/// `players` without `p`.
fn without_player(players: Vec<PlayerId>, p: PlayerId) -> (r: Vec<PlayerId>)
    ensures
        r@.to_set() == players@.to_set().remove(p),
        (r@.len() == 0) == (players@.to_set().remove(p) == Set::<PlayerId>::empty()),
{
    let mut kept: Vec<PlayerId> = Vec::new();
    for i in 0..players.len()
        invariant
            forall|x: PlayerId| kept@.contains(x) <==> (exists|j: int| 0 <= j < i && players@[j] == x && x != p),
    {
        let q = players[i];
        let ghost old_kept = kept@;
        if !(q == p) {
            kept.push(q);
        }
        assert forall|x: PlayerId| kept@.contains(x) <==> (exists|j: int| 0 <= j < i + 1 && players@[j] == x && x != p) by {
            if kept@.contains(x) {
                if old_kept.contains(x) {
                    let j = choose|j: int| 0 <= j < i && players@[j] == x && x != p;
                    assert(0 <= j < i + 1 && players@[j] == x && x != p);
                } else {
                    let k = choose|k: int| 0 <= k < kept@.len() && kept@[k] == x;
                    if k < old_kept.len() {
                        assert(old_kept[k] == x);
                    }
                    assert(x == q && q != p);
                    assert(players@[i as int] == x);
                }
            }
            if exists|j: int| 0 <= j < i + 1 && players@[j] == x && x != p {
                let j = choose|j: int| 0 <= j < i + 1 && players@[j] == x && x != p;
                if j < i {
                    assert(old_kept.contains(x));
                    let k = choose|k: int| 0 <= k < old_kept.len() && old_kept[k] == x;
                    assert(kept@[k] == x);
                } else {
                    assert(kept@[kept@.len() - 1] == x);
                }
            }
        }
    }
    assert(kept@.to_set() =~= players@.to_set().remove(p)) by {
        assert forall|x: PlayerId| kept@.to_set().contains(x) <==> players@.to_set().remove(p).contains(x) by {
            if players@.contains(x) && x != p {
                let j = choose|j: int| 0 <= j < players@.len() && players@[j] == x;
            }
        }
    }
    if kept.len() == 0 {
        assert(kept@.to_set() =~= Set::<PlayerId>::empty());
    } else {
        assert(kept@.to_set().contains(kept@[0]));
    }
    kept
}

/// `c` with one more error.
fn bail_error(c: ActionChain, error: ActionError) -> (r: ActionChain)
    ensures
        r@ == bail(c@, error),
{
    match c {
        ActionChain::ReportError { mut errors, chain_before_first_error } => {
            errors.push(error);
            ActionChain::ReportError { errors, chain_before_first_error }
        },
        other => {
            let mut errors = Vec::new();
            errors.push(error);
            assert(errors@ =~= seq![error]);
            ActionChain::ReportError { errors, chain_before_first_error: Box::new(other) }
        },
    }
}

/// The player of the last valid move, if any.
fn last_move_player(previous_moves: &Vec<ValidInputPlayerMove>) -> (r: Option<&PlayerId>)
    ensures
        match r { Some(q) => Some(*q), None => None } == last_mover(previous_moves@),
{
    if previous_moves.len() > 0 {
        Some(&previous_moves[previous_moves.len() - 1].player)
    } else {
        None
    }
}

/// Judges an action other than an error report against the chain `inner`.
fn step_inner_exec(
    inner: ActionChain,
    player_id: PlayerId,
    action: InputPlayerAction,
    match_players: &MatchPlayers,
) -> (r: (ActionChain, Option<ErrorReason>, Option<RoundTerminationType>))
    requires
        match_players.wf(),
        !(action is ReportError),
        match (action, inner@) {
            (InputPlayerAction::Move(m), ChainModel::Moves { previous_moves, turn, moves }) => {
                &&& turn_step_safe(turn, last_mover(previous_moves), match_players.order())
                &&& turn_step(turn, player_id, last_mover(previous_moves), match_players.order()).0
                    ==> move_step_safe(moves, previous_moves, m)
            },
            (InputPlayerAction::DeclareWin, ChainModel::Moves { previous_moves, turn, .. }) => {
                &&& turn_step_safe(turn, last_mover(previous_moves), match_players.order())
                &&& turn_step(turn, player_id, last_mover(previous_moves), match_players.order()).0
                    ==> match_players.hands().contains_key(player_id)
            },
            _ => true,
        },
    ensures
        (r.0@, r.1, termination_model(r.2)) == step_inner(
            inner@,
            player_id,
            action,
            match_players.order(),
            match_players.hands(),
        ),
{
    match action {
        InputPlayerAction::Move(player_move) => match inner {
            ActionChain::Moves { mut previous_moves, mut turn_manager, mut move_manager } => {
                let turn_ok = turn_manager.process(
                    player_id,
                    last_move_player(&previous_moves),
                    match_players,
                );
                if !turn_ok {
                    return (
                        ActionChain::Moves { previous_moves, turn_manager, move_manager },
                        Some(ErrorReason::MoveOutOfTurn),
                        None,
                    );
                }
                match move_manager.process(&previous_moves, player_move) {
                    None => (
                        ActionChain::Moves { previous_moves, turn_manager, move_manager },
                        Some(ErrorReason::InvalidMove),
                        None,
                    ),
                    Some(valid_move_type) => {
                        previous_moves.push(
                            ValidInputPlayerMove { player: player_id, move_type: valid_move_type },
                        );
                        (ActionChain::Moves { previous_moves, turn_manager, move_manager }, None, None)
                    },
                }
            },
            other => (other, Some(ErrorReason::MoveOutOfTurn), None),
        },
        InputPlayerAction::Hit(input_hit_type) => match inner {
            ActionChain::Hit { players, hit_type } => {
                if !contains_player(&players, &player_id) {
                    return (ActionChain::Hit { players, hit_type }, Some(ErrorReason::InvalidHit), None);
                }
                if !(input_hit_type == hit_type) {
                    return (
                        ActionChain::Hit { players, hit_type },
                        Some(ErrorReason::InvalidHitType),
                        None,
                    );
                }
                let rest = without_player(players, player_id);
                if rest.len() == 0 {
                    (
                        ActionChain::Hit { players: rest, hit_type },
                        None,
                        Some(RoundTerminationType::HitPileLast(player_id)),
                    )
                } else {
                    (ActionChain::Hit { players: rest, hit_type }, None, None)
                }
            },
            other => (other, Some(ErrorReason::InvalidHit), None),
        },
        InputPlayerAction::DeclareWin => match inner {
            ActionChain::Moves { previous_moves, mut turn_manager, move_manager } => {
                let turn_ok = turn_manager.process(
                    player_id,
                    last_move_player(&previous_moves),
                    match_players,
                );
                let after = ActionChain::Moves { previous_moves, turn_manager, move_manager };
                if !turn_ok {
                    return (after, Some(ErrorReason::MoveOutOfTurn), None);
                }
                if match_players.get_hand(&player_id).unwrap().len() > 0 {
                    (after, None, Some(RoundTerminationType::FaultyWinDeclaration(player_id)))
                } else {
                    (after, None, Some(RoundTerminationType::PlayerWonMatch(player_id)))
                }
            },
            other => (other, None, Some(RoundTerminationType::FaultyWinDeclaration(player_id))),
        },
        InputPlayerAction::ReportError => (inner, None, None),
    }
}

impl TurnManager {
    /// A copy of this turn manager.
    pub fn copied(&self) -> (r: Self)
        ensures
            r@ == self@,
    {
        TurnManager {
            starting_player: self.starting_player,
            direction: self.direction,
            next_player: match &self.next_player {
                Some(v) => Some(v.clone()),
                None => None,
            },
        }
    }
}

impl MoveManager {
    /// A copy of this move manager.
    pub fn copied(&self) -> (r: Self)
        ensures
            r@ == self@,
            r.count_interval.0 == self.count_interval.0,
    {
        MoveManager {
            count_interval: self.count_interval,
            next_move: match &self.next_move {
                Some(v) => Some(v.clone()),
                None => None,
            },
        }
    }
}

impl ActionChain {
    /// A copy of this chain.
    pub fn copied(&self) -> (r: Self)
        ensures
            r@ == self@,
        decreases self,
    {
        match self {
            ActionChain::Moves { previous_moves, turn_manager, move_manager } => ActionChain::Moves {
                previous_moves: previous_moves.clone(),
                turn_manager: turn_manager.copied(),
                move_manager: move_manager.copied(),
            },
            ActionChain::Hit { players, hit_type } => ActionChain::Hit { players: players.clone(), hit_type: *hit_type },
            ActionChain::ReportError { errors, chain_before_first_error } => ActionChain::ReportError {
                errors: errors.clone(),
                chain_before_first_error: Box::new(chain_before_first_error.copied()),
            },
        }
    }

    /// Judges an action of `player_id` made at `time` (milliseconds since the Unix
    /// epoch) and records it in the chain; returns Some if the round terminates.
    pub fn process_action(
        &mut self,
        player_id: PlayerId,
        action: InputPlayerAction,
        settings: &ActiveGameSettings,
        match_players: &MatchPlayers,
        time: i64,
    ) -> (r: Option<RoundTerminationType>)
        requires
            match_players.wf(),
            chain_step_safe(
                old(self)@,
                player_id,
                action,
                settings.expected_error_reaction_time as int,
                match_players.order(),
                match_players.hands(),
                time as int,
            ),
        ensures
            (final(self)@, termination_model(r)) == chain_step(
                old(self)@,
                player_id,
                action,
                settings.expected_error_reaction_time as int,
                match_players.order(),
                match_players.hands(),
                time as int,
            ),
    {
        if let InputPlayerAction::ReportError = action {
            if let ActionChain::ReportError { errors, .. } = self {
                return Some(
                    RoundTerminationType::ErrorReported { reporter: player_id, errors: errors.clone() },
                );
            }
            return Some(RoundTerminationType::FaultyErrorReport(player_id));
        }
        let ghost reaction = settings.expected_error_reaction_time as int;
        let mut chain = ActionChain::Hit { players: Vec::new(), hit_type: HitType::Single };
        std::mem::swap(self, &mut chain);
        let within = match &chain {
            ActionChain::ReportError { errors, .. } => {
                errors.len() > 0 && (time as i128) - (errors[0].occured as i128)
                    <= (settings.expected_error_reaction_time as i128)
            },
            _ => false,
        };
        assert(within == within_reaction(chain@, reaction, time as int));
        if within {
            match chain {
                ActionChain::ReportError { errors, chain_before_first_error } => {
                    let (inner, error, end) = step_inner_exec(
                        *chain_before_first_error,
                        player_id,
                        action,
                        match_players,
                    );
                    let refocused = ActionChain::ReportError {
                        errors,
                        chain_before_first_error: Box::new(inner),
                    };
                    *self = match error {
                        Some(reason) => bail_error(
                            refocused,
                            ActionError { player: player_id, reason, occured: time },
                        ),
                        None => refocused,
                    };
                    end
                },
                other => {
                    *self = other;
                    None
                },
            }
        } else {
            let (inner, error, end) = step_inner_exec(chain, player_id, action, match_players);
            *self = match error {
                Some(reason) => bail_error(inner, ActionError { player: player_id, reason, occured: time }),
                None => inner,
            };
            end
        }
    }
}


/// The moves among a sequence of actions, with their players, in order.
pub open spec fn moves_of(actions: Seq<PlayerAction>) -> Seq<(PlayerId, PlayerMove)>
    decreases actions.len(),
{
    if actions.len() == 0 {
        Seq::empty()
    } else {
        let rest = moves_of(actions.drop_last());
        match actions.last().action_type {
            PlayerActionType::Move(m) => rest.push((actions.last().player_id, m)),
            _ => rest,
        }
    }
}

/// The state of a round.
pub struct RoundState {
    pub starting_player: PlayerId,
    /// every action that is made is pushed onto this stack, to log it, including the terminating action
    pub player_actions: Vec<PlayerAction>,
    /// the cards each player has revealed this round
    pub revealed_card_stacks: PlayerCards,
    /// the active effects, inverse order, should be evaluated from last to first element
    pub active_effects: Vec<RuleEffect>,
    pub action_chain: ActionChain,
    // for when a round is finished
    pub round_termination: Option<RoundTerminationType>,
}

/// A round as the players are told of it.
pub struct RoundInfo {
    pub starting_player: PlayerId,
    pub player_actions: Vec<PlayerAction>,
    pub revealed_card_stacks: PlayerCards,
}

/// The chain of actions at the start of a round: no moves yet, `starting_player` to
/// count first, going forward one hour at a time, starting at one o'clock.
pub open spec fn starting_chain(starting_player: PlayerId) -> ChainModel {
    ChainModel::Moves {
        previous_moves: Seq::empty(),
        turn: TurnModel { starting_player, direction: 1, next_player: None },
        moves: MoveModel { count_interval: 2, next_move: None },
    }
}

impl RoundState {
    /// A new round that `starting_player` starts.
    pub fn new(starting_player: PlayerId) -> (r: Self)
        ensures
            r.starting_player == starting_player,
            r.player_actions@ == Seq::<PlayerAction>::empty(),
            r.revealed_card_stacks.wf(),
            r.revealed_card_stacks@ == Map::<PlayerId, Seq<Card>>::empty(),
            r.revealed_card_stacks.key_seq() == Seq::<PlayerId>::empty(),
            r.active_effects@ == Seq::<RuleEffect>::empty(),
            r.action_chain@ == starting_chain(starting_player),
            r.round_termination is None,
    {
        let previous_moves: Vec<ValidInputPlayerMove> = Vec::new();
        let r = RoundState {
            starting_player,
            player_actions: Vec::new(),
            revealed_card_stacks: PlayerCards::new(),
            active_effects: Vec::new(),
            action_chain: ActionChain::Moves {
                previous_moves,
                turn_manager: TurnManager::new(starting_player),
                move_manager: MoveManager { count_interval: TimeInterval::one_hour(), next_move: None },
            },
            round_termination: None,
        };
        assert(r.action_chain@ =~= starting_chain(starting_player));
        r
    }

    /// The round as the players are told of it.
    pub fn info(&self) -> (r: RoundInfo)
        requires
            self.revealed_card_stacks.wf(),
        ensures
            r.starting_player == self.starting_player,
            r.player_actions@ == self.player_actions@,
            r.revealed_card_stacks.wf(),
            r.revealed_card_stacks@ == self.revealed_card_stacks@,
            r.revealed_card_stacks.key_seq() == self.revealed_card_stacks.key_seq(),
    {
        RoundInfo {
            starting_player: self.starting_player,
            player_actions: self.player_actions.clone(),
            revealed_card_stacks: self.revealed_card_stacks.copy(),
        }
    }

    /// The moves made so far, with their players, in the order they were made: the
    /// latest is the last.
    pub fn get_previous_moves(&self) -> (r: Vec<(PlayerId, PlayerMove)>)
        ensures
            r@ == moves_of(self.player_actions@),
    {
        let mut r: Vec<(PlayerId, PlayerMove)> = Vec::new();
        for i in 0..self.player_actions.len()
            invariant
                r@ == moves_of(self.player_actions@.subrange(0, i as int)),
        {
            proof {
                assert(self.player_actions@.subrange(0, i + 1).drop_last() =~= self.player_actions@.subrange(0, i as int));
            }
            let action = self.player_actions[i];
            if let PlayerActionType::Move(player_move) = action.action_type {
                r.push((action.player_id, player_move));
            }
        }
        assert(self.player_actions@.subrange(0, self.player_actions@.len() as int) =~= self.player_actions@);
        r
    }

    /// The latest move, with its player, if any move was made.
    pub fn previous_move(&self) -> (r: Option<(&PlayerId, &PlayerMove)>)
        ensures
            moves_of(self.player_actions@).len() == 0 ==> r is None,
            moves_of(self.player_actions@).len() > 0 ==> (r matches Some((p, m))
                && (*p, *m) == moves_of(self.player_actions@).last()),
    {
        let mut i: usize = self.player_actions.len();
        let ghost actions = self.player_actions@;
        assert(actions.subrange(0, i as int) =~= actions);
        while i > 0
            invariant
                i <= actions.len(),
                actions == self.player_actions@,
                moves_of(actions).len() == 0 ==> moves_of(actions.subrange(0, i as int)).len() == 0,
                moves_of(actions).len() > 0 ==> moves_of(actions.subrange(0, i as int)).len() > 0
                    && moves_of(actions.subrange(0, i as int)).last() == moves_of(actions).last(),
            decreases i,
        {
            let ghost prefix = actions.subrange(0, i as int);
            assert(prefix.drop_last() =~= actions.subrange(0, i - 1));
            let action = &self.player_actions[i - 1];
            if let PlayerActionType::Move(player_move) = &action.action_type {
                return Some((&action.player_id, player_move));
            }
            i -= 1;
        }
        None
    }
}


impl MoveManager {
    /// Whether judging `player_move` stays within machine integers.
    pub fn step_is_safe(&self, previous_moves: &Vec<ValidInputPlayerMove>, player_move: InputPlayerMove) -> (r: bool)
        ensures
            r == move_step_safe(self@, previous_moves@, player_move),
    {
        if ValidInputPlayerMoveType::try_from(player_move).is_err() {
            return true;
        }
        if self.next_move.is_some() {
            return true;
        }
        match find_last_counted_time(previous_moves) {
            Some(t) => {
                let sum: i128 = t.get_index() as i128 + self.count_interval.0 as i128;
                isize::MIN as i128 <= sum && sum <= isize::MAX as i128
            },
            None => true,
        }
    }
}

impl TurnManager {
    /// Whether judging a turn can be done: see `turn_step_safe`.
    pub fn step_is_safe(&self, previous_player: Option<&PlayerId>, match_players: &MatchPlayers) -> (r: bool)
        ensures
            r == turn_step_safe(
                self@,
                match previous_player { Some(q) => Some(*q), None => None },
                match_players.order(),
            ),
    {
        if self.next_player.is_some() {
            return true;
        }
        match previous_player {
            None => true,
            Some(q) => match match_players.get_index(q) {
                None => false,
                Some(idx) => {
                    let n = match_players.n_players();
                    let sum: i128 = idx as i128 + self.direction.0 as i128;
                    n as i128 <= isize::MAX as i128 && isize::MIN as i128 <= sum && sum <= isize::MAX as i128
                },
            },
        }
    }

    /// Whether `player` may act now, judged without consuming a turn fixed by a rule.
    pub fn would_accept(&self, player: PlayerId, previous_player: Option<&PlayerId>, match_players: &MatchPlayers) -> (r: bool)
        requires
            turn_step_safe(
                self@,
                match previous_player { Some(q) => Some(*q), None => None },
                match_players.order(),
            ),
        ensures
            r == turn_step(
                self@,
                player,
                match previous_player { Some(q) => Some(*q), None => None },
                match_players.order(),
            ).0,
    {
        let mut copy = self.copied();
        copy.process(player, previous_player, match_players)
    }
}

/// `step_inner` reads the hands only to check a declared win: for any other action,
/// the hands make no difference.
pub proof fn lemma_chain_step_hands(
    c: ChainModel,
    p: PlayerId,
    action: InputPlayerAction,
    reaction: int,
    order: Seq<PlayerId>,
    hands1: Map<PlayerId, Seq<Card>>,
    hands2: Map<PlayerId, Seq<Card>>,
    time: int,
)
    requires
        !(action is DeclareWin),
    ensures
        chain_step(c, p, action, reaction, order, hands1, time) == chain_step(c, p, action, reaction, order, hands2, time),
        chain_step_safe(c, p, action, reaction, order, hands1, time) == chain_step_safe(c, p, action, reaction, order, hands2, time),
{
}

impl ActionChain {
    /// Whether `process_action` can judge this action: see `chain_step_safe`.
    pub fn action_is_safe(
        &self,
        player_id: PlayerId,
        action: InputPlayerAction,
        settings: &ActiveGameSettings,
        match_players: &MatchPlayers,
        time: i64,
    ) -> (r: bool)
        requires
            match_players.wf(),
            chain_wf(self@),
        ensures
            r == chain_step_safe(
                self@,
                player_id,
                action,
                settings.expected_error_reaction_time as int,
                match_players.order(),
                match_players.hands(),
                time as int,
            ),
    {
        let within = match self {
            ActionChain::ReportError { errors, .. } => {
                errors.len() > 0 && (time as i128) - (errors[0].occured as i128)
                    <= (settings.expected_error_reaction_time as i128)
            },
            _ => false,
        };
        let inner: &ActionChain = if within {
            match self {
                ActionChain::ReportError { chain_before_first_error, .. } => chain_before_first_error,
                _ => self,
            }
        } else {
            self
        };
        assert(within == within_reaction(self@, settings.expected_error_reaction_time as int, time as int));
        assert(inner@ == focus(self@, settings.expected_error_reaction_time as int, time as int));
        match (action, inner) {
            (InputPlayerAction::Move(m), ActionChain::Moves { previous_moves, turn_manager, move_manager }) => {
                let previous = last_move_player(previous_moves);
                if !turn_manager.step_is_safe(previous, match_players) {
                    return false;
                }
                if turn_manager.would_accept(player_id, previous, match_players) {
                    move_manager.step_is_safe(previous_moves, m)
                } else {
                    true
                }
            },
            (InputPlayerAction::DeclareWin, ActionChain::Moves { previous_moves, turn_manager, .. }) => {
                let previous = last_move_player(previous_moves);
                if !turn_manager.step_is_safe(previous, match_players) {
                    return false;
                }
                if turn_manager.would_accept(player_id, previous, match_players) {
                    match_players.get_hand(&player_id).is_some()
                } else {
                    true
                }
            },
            _ => true,
        }
    }
}

/// A count names a time exactly when it is the count of that time.
pub proof fn lemma_count_time_roundtrip(t: Time, c: Count)
    ensures
        time_of_count(count_of_time(t)) == Some(t),
        time_of_count(c) == Some(t) ==> c == count_of_time(t),
{
}

} // verus!
