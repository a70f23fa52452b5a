//! The state of a game in a lobby: its settings, the current and past matches, and
//! the rules that have been added to it.
use vstd::prelude::*;

use crate::card::Card;
use crate::{ErrorMessage, ServerMessage};
use crate::game::game_match::{MatchInfo, MatchState, MatchTerminationType, match_cards, round_end_post, round_end_safe};
use crate::game::round::{
    ActionChain, ActionChainMoves, ChainModel, InputPlayerMove, PlayerAction, PlayerActionType,
    RoundState, RoundTerminationType, Termination, chain_bounded, chain_step, chain_step_safe, chain_wf, moves_of,
};
use crate::lobby::{AutoMessage, LobbyPlayers, Outgoing};
use crate::rules::RuleManager;
use crate::game::round::{Count, InputPlayerAction, PlayerMove};
use crate::rules::{RuleInfo, RuleKind, add_rule_post, apply_rule, criteria_text, new_effect, rule_applied, rule_text};
use crate::lobby::PlayerId;
use crate::player_cards::{PlayerCards, cards_of, others};
use crate::random::choose_item;
use vstd::multiset::Multiset;

pub mod game_match;
pub mod round;

verus! {

/// How many of the revealed cards the loser of a round picks up.
#[derive(Clone, Copy, Debug, PartialEq, Eq, Structural)]
pub enum MaxCardsPickedUpWhenLosing {
    Finite(usize),
    Unlimited,
}

/// The settings of a lobby. Durations are in milliseconds.
#[derive(Clone, Copy, Debug)]
pub struct LobbySettings {
    /// the max number of players for a lobby
    pub max_players: usize,
    /// the time (in milliseconds) within which a player may still make a move that
    /// would have been correct had another player not just made an error: a move made
    /// that long after the first error of a round is judged against the state before
    /// that error.
    pub expected_error_reaction_time: i64,
    /// if you report an error correctly, how many cards will you get rid of from your pile
    pub cards_removed_at_correct_error_report: usize,
    /// how many of the revealed cards you will pick up if you lose the round
    pub max_cards_picked_up_when_losing: MaxCardsPickedUpWhenLosing,
    /// when a match starts, how many cards are handed out to each player
    pub n_cards_per_player: usize,
    /// how long (in milliseconds) an action may take before the player loses on timeout
    pub action_timeout_rate: u64,
    /// the time (in milliseconds) after a match ends to auto start the next match
    pub auto_start_match: Option<u64>,
    /// the time (in milliseconds) after a round ends to auto start the next round
    pub auto_start_round: Option<u64>,
}

/// The settings that a lobby starts with.
pub open spec fn default_lobby_settings() -> LobbySettings {
    LobbySettings {
        max_players: 10,
        expected_error_reaction_time: 2000,
        cards_removed_at_correct_error_report: 0,
        max_cards_picked_up_when_losing: MaxCardsPickedUpWhenLosing::Finite(5),
        n_cards_per_player: 7,
        action_timeout_rate: 10000,
        auto_start_match: Some(10000),
        auto_start_round: Some(3000),
    }
}

impl Default for LobbySettings {
    fn default() -> (s: Self)
        ensures
            s == default_lobby_settings(),
    {
        LobbySettings {
            max_players: 10,
            expected_error_reaction_time: 2000,
            cards_removed_at_correct_error_report: 0,
            max_cards_picked_up_when_losing: MaxCardsPickedUpWhenLosing::Finite(5),
            n_cards_per_player: 7,
            action_timeout_rate: 10000,
            auto_start_match: Some(10000),
            auto_start_round: Some(3000),
        }
    }
}

/// The settings of a game in progress: those of the lobby but its player limit.
#[derive(Clone, Copy, Debug)]
pub struct ActiveGameSettings {
    /// See [`LobbySettings::expected_error_reaction_time`]
    pub expected_error_reaction_time: i64,
    /// See [`LobbySettings::cards_removed_at_correct_error_report`]
    pub cards_removed_at_correct_error_report: usize,
    /// See [`LobbySettings::max_cards_picked_up_when_losing`]
    pub max_cards_picked_up_when_losing: MaxCardsPickedUpWhenLosing,
    /// See [`LobbySettings::n_cards_per_player`]
    pub n_cards_per_player: usize,
    /// See [`LobbySettings::action_timeout_rate`]
    pub action_timeout_rate: u64,
    /// See [`LobbySettings::auto_start_match`]
    pub auto_start_match: Option<u64>,
    /// See [`LobbySettings::auto_start_round`]
    pub auto_start_round: Option<u64>,
}

/// The game settings that lobby settings call for.
pub open spec fn active_settings_of(s: LobbySettings) -> ActiveGameSettings {
    ActiveGameSettings {
        expected_error_reaction_time: s.expected_error_reaction_time,
        cards_removed_at_correct_error_report: s.cards_removed_at_correct_error_report,
        max_cards_picked_up_when_losing: s.max_cards_picked_up_when_losing,
        n_cards_per_player: s.n_cards_per_player,
        action_timeout_rate: s.action_timeout_rate,
        auto_start_match: s.auto_start_match,
        auto_start_round: s.auto_start_round,
    }
}

fn same_duration(a: Option<u64>, b: Option<u64>) -> (r: bool)
    ensures
        r == (a == b),
{
    match (a, b) {
        (Some(x), Some(y)) => x == y,
        (None, None) => true,
        _ => false,
    }
}

impl ActiveGameSettings {
    /// Takes over the game settings of `new_settings`; returns whether anything changed.
    pub fn update(&mut self, new_settings: LobbySettings) -> (modified: bool)
        ensures
            *final(self) == active_settings_of(new_settings),
            modified == (*old(self) != active_settings_of(new_settings)),
    {
        let mut modified = false;
        if self.expected_error_reaction_time != new_settings.expected_error_reaction_time {
            self.expected_error_reaction_time = new_settings.expected_error_reaction_time;
            modified = true;
        }
        if self.cards_removed_at_correct_error_report
            != new_settings.cards_removed_at_correct_error_report {
            self.cards_removed_at_correct_error_report =
            new_settings.cards_removed_at_correct_error_report;
            modified = true;
        }
        if self.max_cards_picked_up_when_losing != new_settings.max_cards_picked_up_when_losing {
            self.max_cards_picked_up_when_losing = new_settings.max_cards_picked_up_when_losing;
            modified = true;
        }
        if self.n_cards_per_player != new_settings.n_cards_per_player {
            self.n_cards_per_player = new_settings.n_cards_per_player;
            modified = true;
        }
        if self.action_timeout_rate != new_settings.action_timeout_rate {
            self.action_timeout_rate = new_settings.action_timeout_rate;
            modified = true;
        }
        if !same_duration(self.auto_start_match, new_settings.auto_start_match) {
            self.auto_start_match = new_settings.auto_start_match;
            modified = true;
        }
        if !same_duration(self.auto_start_round, new_settings.auto_start_round) {
            self.auto_start_round = new_settings.auto_start_round;
            modified = true;
        }
        modified
    }
}

impl<'a> From<&'a LobbySettings> for ActiveGameSettings {
    fn from(value: &'a LobbySettings) -> (r: Self) {
        ActiveGameSettings {
            expected_error_reaction_time: value.expected_error_reaction_time,
            cards_removed_at_correct_error_report: value.cards_removed_at_correct_error_report,
            max_cards_picked_up_when_losing: value.max_cards_picked_up_when_losing,
            n_cards_per_player: value.n_cards_per_player,
            action_timeout_rate: value.action_timeout_rate,
            auto_start_match: value.auto_start_match,
            auto_start_round: value.auto_start_round,
        }
    }
}

impl<'a> vstd::std_specs::convert::FromSpecImpl<&'a LobbySettings> for ActiveGameSettings {
    open spec fn obeys_from_spec() -> bool {
        true
    }

    open spec fn from_spec(v: &'a LobbySettings) -> Self {
        active_settings_of(*v)
    }
}


/// The card revealed by a move, if it revealed one.
pub open spec fn move_card(m: PlayerMove) -> Option<Card> {
    match m {
        PlayerMove::CountAndLayCard { card, .. } => Some(card),
        PlayerMove::LayCard(card) => Some(card),
        PlayerMove::Count(_) => None,
    }
}

/// The count said in a move, if it said one.
pub open spec fn move_said_count(m: PlayerMove) -> Option<Count> {
    match m {
        PlayerMove::CountAndLayCard { count, .. } => Some(count),
        PlayerMove::Count(count) => Some(count),
        PlayerMove::LayCard(_) => None,
    }
}

/// The cards revealed by a sequence of moves, the latest first.
pub open spec fn latest_cards(moves: Seq<(PlayerId, PlayerMove)>) -> Seq<Card>
    decreases moves.len(),
{
    if moves.len() == 0 {
        Seq::empty()
    } else {
        match move_card(moves.last().1) {
            Some(c) => seq![c] + latest_cards(moves.drop_last()),
            None => latest_cards(moves.drop_last()),
        }
    }
}

/// The counts said in a sequence of moves, the latest first.
pub open spec fn latest_counts(moves: Seq<(PlayerId, PlayerMove)>) -> Seq<Count>
    decreases moves.len(),
{
    if moves.len() == 0 {
        Seq::empty()
    } else {
        match move_said_count(moves.last().1) {
            Some(c) => seq![c] + latest_counts(moves.drop_last()),
            None => latest_counts(moves.drop_last()),
        }
    }
}

/// What the criteria of rules and the rule effects may look at: the public state of
/// the match and round.
pub struct GameContext<'a> {
    pub players: &'a Vec<PlayerId>,
    pub n_cards_in_pool: usize,
    pub previous_match_winner: Option<PlayerId>,
    /// every move that is made is pushed onto this stack, including the last one
    pub previous_moves: &'a Vec<(PlayerId, PlayerMove)>,
    /// the cards each player has revealed this round
    pub revealed_card_stacks: &'a PlayerCards,
}

impl<'a> GameContext<'a> {
    /// The card revealed by the last move; None if no card was revealed last move.
    pub fn get_just_revealed_card(&self) -> (r: Option<Card>)
        ensures
            r == (if self.previous_moves@.len() == 0 { None } else { move_card(self.previous_moves@.last().1) }),
    {
        let n = self.previous_moves.len();
        if n == 0 {
            return None;
        }
        match self.previous_moves[n - 1].1 {
            PlayerMove::CountAndLayCard { card, .. } | PlayerMove::LayCard(card) => Some(card),
            _ => None,
        }
    }

    /// The count said in the last move; None if no count was said last move.
    pub fn get_just_said_count(&self) -> (r: Option<Count>)
        ensures
            r == (if self.previous_moves@.len() == 0 { None } else { move_said_count(self.previous_moves@.last().1) }),
    {
        let n = self.previous_moves.len();
        if n == 0 {
            return None;
        }
        match self.previous_moves[n - 1].1 {
            PlayerMove::CountAndLayCard { count, .. } | PlayerMove::Count(count) => Some(count),
            _ => None,
        }
    }

    /// The counts said so far, from the latest to the earliest.
    pub fn get_previous_counts(&self) -> (r: Vec<Count>)
        ensures
            r@ == latest_counts(self.previous_moves@),
    {
        let mut r: Vec<Count> = Vec::new();
        let mut i: usize = self.previous_moves.len();
        let ghost moves = self.previous_moves@;
        assert(moves.subrange(0, i as int) =~= moves);
        assert(r@ + latest_counts(moves.subrange(0, i as int)) =~= latest_counts(moves));
        while i > 0
            invariant
                i <= moves.len(),
                moves == self.previous_moves@,
                r@ + latest_counts(moves.subrange(0, i as int)) == latest_counts(moves),
            decreases i,
        {
            let ghost prefix = moves.subrange(0, i as int);
            assert(prefix.drop_last() =~= moves.subrange(0, i - 1));
            match self.previous_moves[i - 1].1 {
                PlayerMove::CountAndLayCard { count, .. } | PlayerMove::Count(count) => {
                    let ghost before = r@;
                    r.push(count);
                    assert(r@ + latest_counts(moves.subrange(0, i - 1)) =~= before + latest_counts(prefix));
                },
                _ => {},
            }
            i -= 1;
        }
        assert(latest_counts(moves.subrange(0, 0)) =~= Seq::<Count>::empty());
        assert(r@ =~= r@ + Seq::<Count>::empty());
        r
    }

    /// The cards revealed so far, from the latest to the earliest.
    pub fn get_previous_cards(&self) -> (r: Vec<Card>)
        ensures
            r@ == latest_cards(self.previous_moves@),
    {
        let mut r: Vec<Card> = Vec::new();
        let mut i: usize = self.previous_moves.len();
        let ghost moves = self.previous_moves@;
        assert(moves.subrange(0, i as int) =~= moves);
        assert(r@ + latest_cards(moves.subrange(0, i as int)) =~= latest_cards(moves));
        while i > 0
            invariant
                i <= moves.len(),
                moves == self.previous_moves@,
                r@ + latest_cards(moves.subrange(0, i as int)) == latest_cards(moves),
            decreases i,
        {
            let ghost prefix = moves.subrange(0, i as int);
            assert(prefix.drop_last() =~= moves.subrange(0, i - 1));
            match self.previous_moves[i - 1].1 {
                PlayerMove::CountAndLayCard { card, .. } | PlayerMove::LayCard(card) => {
                    let ghost before = r@;
                    r.push(card);
                    assert(r@ + latest_cards(moves.subrange(0, i - 1)) =~= before + latest_cards(prefix));
                },
                _ => {},
            }
            i -= 1;
        }
        assert(latest_cards(moves.subrange(0, 0)) =~= Seq::<Card>::empty());
        assert(r@ =~= r@ + Seq::<Card>::empty());
        r
    }

    /// The `n` latest revealed cards, the latest first; None if fewer were revealed.
    pub fn get_n_previous_cards(&self, n: usize) -> (r: Option<Vec<Card>>)
        ensures
            latest_cards(self.previous_moves@).len() < n ==> r is None,
            latest_cards(self.previous_moves@).len() >= n ==> (r matches Some(v)
                && v@ == latest_cards(self.previous_moves@).take(n as int)),
    {
        let mut cards = self.get_previous_cards();
        if cards.len() < n {
            None
        } else {
            cards.truncate(n);
            Some(cards)
        }
    }
}

/// A game as the players are told of it.
pub struct GameInfo {
    pub settings: ActiveGameSettings,
    pub current_match: Option<MatchInfo>,
    pub last_match_winner: Option<PlayerId>,
    pub active_rules: Vec<RuleInfo>,
}

/// A message for the game of a lobby.
pub enum GameMessage {
    ActionPerformed(InputPlayerAction),
}


/// The state of the game of a lobby.
pub struct GameState {
    pub settings: ActiveGameSettings,
    pub current_match: Option<MatchState>,
    pub previous_matches: Vec<MatchState>,
    pub rule_manager: RuleManager,
}

/// Why a match could not be started.
#[derive(Clone, Copy, Debug, PartialEq, Eq, Structural)]
pub enum StartMatchError {
    AlreadyOngoingMatch,
    TooHighNCardsPerPlayer,
    TooFewPlayers,
}

/// A round ended with a loser, who starts the next round.
pub open spec fn ended_with_loser(t: Termination) -> bool {
    &&& crate::game::round::loser(t) is Some
    &&& t is ErrorReported ==> t->errors.len() > 0
}

/// Every finished round of the match ended with a loser.
pub open spec fn rounds_have_losers(m: MatchState) -> bool {
    forall|i: int| 0 <= i < m.previous_rounds@.len()
        ==> ((#[trigger] m.previous_rounds@[i]).round_termination matches Some(t) && ended_with_loser(t@))
}

/// Every player in the order of play has a hand.
pub open spec fn order_has_hands(m: MatchState) -> bool {
    forall|i: int| 0 <= i < m.players.order().len() ==> m.players.hands().contains_key(#[trigger] m.players.order()[i])
}

/// A round that ends without the match ending leaves every finished round of the
/// match with a loser, and every player in the order of play with a hand.
proof fn lemma_round_end_keeps_losers(
    before: MatchState,
    t: Termination,
    settings: ActiveGameSettings,
    after: MatchState,
    won: bool,
    msgs: Seq<ServerMessage>,
)
    requires
        rounds_have_losers(before),
        order_has_hands(before),
        round_end_post(before, t, settings, after, won, msgs),
        before.current_round is Some ==> round_end_safe(t, settings, before.players.hands()),
        !won,
    ensures
        rounds_have_losers(after),
        order_has_hands(after),
{
    if before.current_round is Some {
        let hands = before.players.hands();
        let mid = crate::game::game_match::hands_after_report(t, settings, hands);
        assert(mid.dom() =~= hands.dom());
        assert forall|i: int| 0 <= i < after.previous_rounds@.len() implies
            ((#[trigger] after.previous_rounds@[i]).round_termination matches Some(ft) && ended_with_loser(ft@)) by {
            if i < before.previous_rounds@.len() {
                assert(after.previous_rounds@[i] == after.previous_rounds@.drop_last()[i]);
            }
        }
    }
}

/// The winner of the latest match that a player won, if any.
pub open spec fn last_winner(matches: Seq<MatchState>) -> Option<PlayerId>
    decreases matches.len(),
{
    if matches.len() == 0 {
        None
    } else {
        match matches.last().match_termination {
            Some(MatchTerminationType::PlayerWonMatch(p)) => Some(p),
            _ => last_winner(matches.drop_last()),
        }
    }
}

/// The winner of the latest match that a player won, if any.
pub(crate) fn find_last_winner(matches: &Vec<MatchState>) -> (r: Option<PlayerId>)
    ensures
        r == last_winner(matches@),
{
    let mut i: usize = matches.len();
    assert(matches@.subrange(0, i as int) =~= matches@);
    while i > 0
        invariant
            i <= matches@.len(),
            last_winner(matches@) == last_winner(matches@.subrange(0, i as int)),
        decreases i,
    {
        let ghost prefix = matches@.subrange(0, i as int);
        assert(prefix.drop_last() =~= matches@.subrange(0, i - 1));
        if let Some(MatchTerminationType::PlayerWonMatch(player)) = matches[i - 1].match_termination {
            return Some(player);
        }
        i -= 1;
    }
    None
}

impl GameState {
    /// The game is well formed: the rules describe themselves; the current match is
    /// well formed, has at least three players, each with a hand, and every round it
    /// finished had a loser; its pool, its hands and the cards revealed in its current
    /// round are exactly the standard deck, no card lost and none added; and its
    /// current round has no rule effects pending and a well formed chain of actions
    /// with small steps.
    pub open spec fn wf(self) -> bool {
        &&& self.rule_manager.wf()
        &&& self.current_match matches Some(m) ==> {
            &&& m.wf()
            &&& m.players.order().len() >= 3
            &&& match_cards(m) == crate::card::standard_deck().to_multiset()
            &&& order_has_hands(m)
            &&& rounds_have_losers(m)
            &&& m.current_round matches Some(r) ==> {
                &&& r.active_effects@.len() == 0
                &&& chain_wf(r.action_chain@)
                &&& chain_bounded(r.action_chain@)
            }
        }
    }

    /// A new game with the game settings of the lobby, the starting rules, and no match yet.
    pub fn new(settings: &LobbySettings) -> (g: Self)
        ensures
            g.wf(),
            g.settings == active_settings_of(*settings),
            g.current_match is None,
            g.previous_matches@.len() == 0,
            g.rule_manager.active_kinds() == crate::rules::starting_rules(),
    {
        let settings = ActiveGameSettings::from(settings);
        GameState {
            settings,
            current_match: None,
            previous_matches: Vec::new(),
            rule_manager: RuleManager::new(),
        }
    }

    /// Takes over changed lobby settings; the new game settings if any changed.
    pub fn lobby_settings_updated(&mut self, lobby_settings: LobbySettings) -> (r: Option<ActiveGameSettings>)
        ensures
            final(self).settings == active_settings_of(lobby_settings),
            final(self).current_match == old(self).current_match,
            final(self).previous_matches == old(self).previous_matches,
            final(self).rule_manager == old(self).rule_manager,
            old(self).settings != active_settings_of(lobby_settings) ==> r == Some(active_settings_of(lobby_settings)),
            old(self).settings == active_settings_of(lobby_settings) ==> r is None,
    {
        if self.settings.update(lobby_settings) {
            Some(self.settings)
        } else {
            None
        }
    }

    /// `r` tells of this game: its settings, its match, the last winner and the rules
    /// in force, each as its text.
    pub open spec fn described_by(self, r: GameInfo) -> bool {
        &&& r.settings == self.settings
        &&& r.current_match is Some <==> self.current_match is Some
        &&& r.current_match matches Some(mi) ==> self.current_match->0.described_by(mi)
        &&& r.last_match_winner == last_winner(self.previous_matches@)
        &&& r.active_rules@.len() == self.rule_manager.active_kinds().len()
        &&& forall|i: int| 0 <= i < r.active_rules@.len() ==> (#[trigger] r.active_rules@[i]).criteria.english@
            == criteria_text(self.rule_manager.active_kinds()[i].0)
            && r.active_rules@[i].rule.english@ == rule_text(self.rule_manager.active_kinds()[i].1)
    }

    /// The game as the players are told of it.
    pub fn info(&self) -> (r: GameInfo)
        requires
            self.wf(),
        ensures
            self.described_by(r),
    {
        GameInfo {
            settings: self.settings,
            current_match: match &self.current_match {
                Some(current_match) => Some(current_match.info()),
                None => None,
            },
            last_match_winner: find_last_winner(&self.previous_matches),
            active_rules: self.rule_manager.active_rules(),
        }
    }

    /// What a player leaving did to the game: see `GameState::handle_player_left`.
    pub open spec fn player_left(self, p: PlayerId, after: GameState, out: Seq<Outgoing>) -> bool {
        &&& after.settings == self.settings
        &&& after.rule_manager == self.rule_manager
        &&& self.current_match is None ==> after == self && out.len() == 0
        &&& self.current_match matches Some(m) ==> {
            let remaining = others(m.players.order(), p);
            &&& !m.players.hands().contains_key(p) ==> {
                &&& out.len() == 0
                &&& after.previous_matches == self.previous_matches
                &&& after.current_match matches Some(m2)
                &&& m2.players.order() == m.players.order()
                &&& m2.players.hands() == m.players.hands()
                &&& m2.card_pool == m.card_pool
                &&& m2.previous_rounds == m.previous_rounds
                &&& m2.current_round == m.current_round
                &&& m2.match_termination == m.match_termination
            }
            &&& m.players.hands().contains_key(p) && remaining.len() < 3 ==> {
                &&& after.current_match is None
                &&& after.previous_matches@.len() == self.previous_matches@.len() + 1
                &&& after.previous_matches@.drop_last() == self.previous_matches@
                &&& after.previous_matches@.last().match_termination == Some(MatchTerminationType::MatchCancelled)
                &&& after.previous_matches@.last().players.order() == remaining
                &&& after.previous_matches@.last().players.hands() == m.players.hands().remove(p)
                &&& out == seq![Outgoing::Broadcast(ServerMessage::MatchEnded(MatchTerminationType::MatchCancelled))]
            }
            &&& m.players.hands().contains_key(p) && remaining.len() >= 3 ==> {
                &&& after.current_match matches Some(m2)
                &&& m2.players.order() == remaining
                &&& m2.players.hands() == m.players.hands().remove(p)
                &&& m2.card_pool@ == crate::card::pushed_to_front(m.players.hands()[p], m.card_pool@)
                &&& m2.previous_rounds == m.previous_rounds
                &&& m2.current_round == m.current_round
                &&& after.previous_matches == self.previous_matches
                &&& out.len() == 0
            }
        }
    }

    /// A player left the lobby: they leave the current match too, which is cancelled
    /// when fewer than three players remain; otherwise their hand goes to the pool.
    pub fn handle_player_left(&mut self, player: &PlayerId) -> (out: Vec<Outgoing>)
        requires
            old(self).wf(),
        ensures
            final(self).wf(),
            old(self).player_left(*player, *final(self), out@),
    {
        let mut out: Vec<Outgoing> = Vec::new();
        let ghost g0 = *self;
        let mut current_match = match self.current_match.take() {
            Some(m) => m,
            None => {
                assert(*self == g0);
                return out;
            },
        };
        let ghost m0 = current_match;
        match current_match.players.remove_player(player) {
            Some(card_pile) => {
                if current_match.players.n_players() < 3 {
                    current_match.match_termination = Some(MatchTerminationType::MatchCancelled);
                    let ghost before = self.previous_matches@;
                    self.previous_matches.push(current_match);
                    assert(self.previous_matches@.drop_last() =~= before);
                    out.push(Outgoing::Broadcast(ServerMessage::MatchEnded(MatchTerminationType::MatchCancelled)));
                    assert(out@ =~= seq![Outgoing::Broadcast(ServerMessage::MatchEnded(MatchTerminationType::MatchCancelled))]);
                    assert(g0.player_left(*player, *self, out@));
                } else {
                    let ghost pile = card_pile@;
                    current_match.card_pool.add_cards(card_pile);
                    proof {
                        let keys = m0.players.hand_order();
                        let hands = m0.players.hands();
                        m0.players.lemma_hands();
                        crate::player_cards::lemma_cards_of_others(keys, hands, *player);
                        crate::player_cards::lemma_pushed_to_front_cards(pile, m0.card_pool@);
                        let rest = cards_of(others(keys, *player), hands.remove(*player));
                        let revealed = match m0.current_round {
                            Some(r) => cards_of(r.revealed_card_stacks.key_seq(), r.revealed_card_stacks@),
                            None => Multiset::empty(),
                        };
                        assert(match_cards(current_match) == current_match.card_pool@.to_multiset().add(rest).add(revealed));
                        assert forall|x: Card| #[trigger] match_cards(current_match).count(x) == match_cards(m0).count(x) by {
                            assert(rest.add(hands[*player].to_multiset()).count(x) == cards_of(keys, hands).count(x));
                        }
                        assert(match_cards(current_match) =~= match_cards(m0));
                        let order0 = m0.players.order();
                        assert forall|i: int| 0 <= i < current_match.players.order().len() implies
                            current_match.players.hands().contains_key(#[trigger] current_match.players.order()[i]) by {
                            let q = current_match.players.order()[i];
                            assert(others(order0, *player).contains(q));
                            crate::player_cards::lemma_others_contains(order0, *player, q);
                            let j = choose|j: int| 0 <= j < order0.len() && order0[j] == q;
                            assert(m0.players.hands().contains_key(order0[j]));
                        }
                    }
                    self.current_match = Some(current_match);
                    assert(g0.player_left(*player, *self, out@));
                }
            },
            None => {
                proof {
                    let order0 = m0.players.order();
                    assert(!order0.contains(*player)) by {
                        if order0.contains(*player) {
                            let j = choose|j: int| 0 <= j < order0.len() && order0[j] == *player;
                            assert(m0.players.hands().contains_key(order0[j]));
                        }
                    }
                    crate::player_cards::lemma_filter_absent(order0, *player);
                    assert(m0.players.hands().remove(*player) =~= m0.players.hands());
                    m0.players.lemma_hands();
                    crate::player_cards::lemma_filter_absent(m0.players.hand_order(), *player);
                    assert(match_cards(current_match) == match_cards(m0));
                }
                self.current_match = Some(current_match);
                assert(g0.player_left(*player, *self, out@));
            },
        }
        out
    }

    /// A message the lobby sent itself can be handled without a panic: a player who
    /// ran out of time in a round has a hand.
    pub open spec fn auto_message_safe(self, message: AutoMessage) -> bool {
        message is ActionTimeout && self.current_match is Some && self.current_match->0.current_round is Some
            ==> self.current_match->0.players.hands().contains_key(message->ActionTimeout_0)
    }

    /// Whether `handle_auto_message` can handle this message without a panic: see
    /// `GameState::auto_message_safe`.
    pub fn auto_message_is_safe(&self, message: &AutoMessage) -> (r: bool)
        requires
            self.wf(),
        ensures
            r == self.auto_message_safe(*message),
    {
        match message {
            AutoMessage::ActionTimeout(player_id) => match &self.current_match {
                Some(current_match) => {
                    current_match.current_round.is_none() || current_match.players.get_hand(player_id).is_some()
                },
                None => true,
            },
            _ => true,
        }
    }

    /// What a message the lobby sent itself did: see `GameState::handle_auto_message`.
    pub open spec fn auto_message_post(self, message: AutoMessage, lobby_players: LobbyPlayers, after: GameState, out: Seq<Outgoing>) -> bool {
        match message {
            AutoMessage::ActionTimeout(p) => match self.current_match {
                None => {
                    &&& after.settings == self.settings
                    &&& after.rule_manager == self.rule_manager
                    &&& after.previous_matches == self.previous_matches
                    &&& after.current_match == self.current_match
                    &&& out.len() == 0
                },
                Some(m) => {
                    &&& after.settings == self.settings
                    &&& after.rule_manager == self.rule_manager
                    &&& after.previous_matches == self.previous_matches
                    &&& after.current_match matches Some(m2)
                    &&& exists|won: bool, msgs: Seq<ServerMessage>| {
                        &&& round_end_post(m, crate::game::round::Termination::Timeout(p), self.settings, m2, won, msgs)
                        &&& out.len() == msgs.len() + if self.settings.auto_start_round is Some { 1int } else { 0int }
                        &&& forall|i: int| 0 <= i < msgs.len() ==> out[i] == Outgoing::Broadcast(#[trigger] msgs[i])
                        &&& self.settings.auto_start_round matches Some(d) ==> out.last() == (Outgoing::Schedule { delay_ms: d, message: AutoMessage::AutoStartRound })
                    }
                },
            },
            AutoMessage::AutoStartMatch => if self.current_match is None && lobby_players.entries().len() >= 3
                && self.settings.n_cards_per_player * lobby_players.entries().len() <= 61 {
                self.match_started(lobby_players, after, out)
            } else {
                after == self && out.len() == 0
            },
            AutoMessage::AutoStartRound => if self.current_match matches Some(m) && m.current_round is None {
                self.round_started(after, out)
            } else {
                after == self && out.len() == 0
            },
        }
    }

    /// Handles a message the lobby sent itself: a player who took too long to act
    /// loses the round; a match or round due to start on its own starts as it does
    /// when the host asks for it. An automatic start that cannot be made (a match or
    /// round is already on, too few players, too many cards per player) changes
    /// nothing and sends nothing, as there is nobody to answer.
    pub fn handle_auto_message(&mut self, message: AutoMessage, lobby_players: &LobbyPlayers) -> (out: Vec<Outgoing>)
        requires
            old(self).wf(),
            old(self).auto_message_safe(message),
            lobby_players.wf(),
        ensures
            final(self).wf(),
            old(self).auto_message_post(message, *lobby_players, *final(self), out@),
    {
        let mut out: Vec<Outgoing> = Vec::new();
        match message {
            AutoMessage::ActionTimeout(player_id) => {
                if let Some(mut current_match) = self.current_match.take() {
                    let round_termination = RoundTerminationType::Timeout(player_id);
                    let (won, messages) = current_match.round_terminated(round_termination, &self.settings);
                    let ghost msgs = messages@;
                    let mut messages = messages;
                    broadcast_all(&mut out, &mut messages);
                    self.current_match = Some(current_match);
                    if let Some(duration) = self.settings.auto_start_round {
                        out.push(Outgoing::Schedule { delay_ms: duration, message: AutoMessage::AutoStartRound });
                    }
                    assert(round_end_post(old(self).current_match->0, crate::game::round::Termination::Timeout(player_id), old(self).settings, current_match, won, msgs));
                    proof {
                        lemma_round_end_keeps_losers(old(self).current_match->0, crate::game::round::Termination::Timeout(player_id), old(self).settings, current_match, won, msgs);
                        if old(self).current_match->0.current_round is Some {
                            crate::game::game_match::lemma_round_end_keeps_cards(old(self).current_match->0, crate::game::round::Termination::Timeout(player_id), old(self).settings, current_match, won, msgs);
                        }
                    }
                }
            },
            AutoMessage::AutoStartMatch => {
                let (result, match_out) = self.start_match(lobby_players);
                if result.is_ok() {
                    out = match_out;
                }
            },
            AutoMessage::AutoStartRound => {
                if let Ok(round_out) = self.start_round() {
                    out = round_out;
                }
            },
        }
        out
    }

    /// `after` is this game with a new round started in its match, by the player that
    /// `round_starter` names (one of the match's players drawn at random if it names
    /// none); `out` announces the round.
    pub open spec fn round_started(self, after: GameState, out: Seq<Outgoing>) -> bool {
        let m = self.current_match->0;
        &&& self.current_match is Some
        &&& after.settings == self.settings
        &&& after.rule_manager == self.rule_manager
        &&& after.previous_matches == self.previous_matches
        &&& after.current_match matches Some(m2)
        &&& m2.players == m.players
        &&& m2.card_pool == m.card_pool
        &&& m2.previous_rounds == m.previous_rounds
        &&& m2.match_termination == m.match_termination
        &&& m2.current_round matches Some(r)
        &&& match round_starter(self, m) {
            Some(starter) => r.starting_player == starter,
            None => m.players.order().contains(r.starting_player),
        }
        &&& r.player_actions@.len() == 0
        &&& r.revealed_card_stacks@ == Map::<PlayerId, Seq<Card>>::empty()
        &&& r.active_effects@.len() == 0
        &&& r.action_chain@ == crate::game::round::starting_chain(r.starting_player)
        &&& r.round_termination is None
        &&& out.len() == 1
        &&& out[0] matches Outgoing::Broadcast(ServerMessage::RoundStarted(ri))
        &&& ri.starting_player == r.starting_player
        &&& ri.player_actions@.len() == 0
        &&& ri.revealed_card_stacks@ == Map::<PlayerId, Seq<Card>>::empty()
    }

    /// Starts the next round of the current match, by the player that `round_starter`
    /// names; refused when no match is on or a round is on already.
    pub fn start_round(&mut self) -> (r: Result<Vec<Outgoing>, ErrorMessage>)
        requires
            old(self).wf(),
        ensures
            final(self).wf(),
            old(self).current_match is None
                ==> r == Err::<Vec<Outgoing>, ErrorMessage>(ErrorMessage::NotInMatch) && *final(self) == *old(self),
            old(self).current_match matches Some(m) && m.current_round is Some
                ==> r == Err::<Vec<Outgoing>, ErrorMessage>(ErrorMessage::AlreadyInRound) && *final(self) == *old(self),
            old(self).current_match matches Some(m) && m.current_round is None
                ==> (r matches Ok(out) && old(self).round_started(*final(self), out@)),
    {
        let starting_player = match &self.current_match {
            None => {
                return Err(ErrorMessage::NotInMatch);
            },
            Some(current_match) => {
                if current_match.current_round.is_some() {
                    return Err(ErrorMessage::AlreadyInRound);
                }
                next_round_starter(self, current_match)
            },
        };
        let mut current_match = self.current_match.take().unwrap();
        let current_round = RoundState::new(starting_player);
        let mut out: Vec<Outgoing> = Vec::new();
        out.push(Outgoing::Broadcast(ServerMessage::RoundStarted(current_round.info())));
        let ghost m0 = current_match;
        current_match.current_round = Some(current_round);
        assert(match_cards(current_match) =~= match_cards(m0));
        self.current_match = Some(current_match);
        Ok(out)
    }

    /// Handles an action of `player_id` made at `time` (milliseconds since the Unix
    /// epoch): lays the card of a move from the player's hand, logs and broadcasts the
    /// action, judges it, and either ends the round (and maybe the match) as the
    /// judgement calls for, or lets the rules react to a valid move. Returns what is
    /// to be sent and scheduled, in order.
    #[verifier::rlimit(40)]
    pub fn handle_message(&mut self, player_id: PlayerId, message: GameMessage, time: i64) -> (out: Vec<Outgoing>)
        requires
            old(self).wf(),
            match message {
                GameMessage::ActionPerformed(a) => old(self).message_safe(player_id, a, time as int),
            },
        ensures
            final(self).wf(),
            match message {
                GameMessage::ActionPerformed(a) => old(self).message_post(player_id, a, time as int, *final(self), out@),
            },
    {
        let mut out: Vec<Outgoing> = Vec::new();
        let ghost g0 = *self;
        match message {
            GameMessage::ActionPerformed(action) => {
                if self.current_match.is_none() {
                    out.push(Outgoing::SendToPlayer(player_id, ServerMessage::Error(crate::ErrorMessage::NotInMatch)));
                    assert(out@ =~= seq![Outgoing::SendToPlayer(player_id, ServerMessage::Error(crate::ErrorMessage::NotInMatch))]);
                    return out;
                }
                let mut current_match = self.current_match.take().unwrap();
                let ghost m0 = current_match;
                if current_match.current_round.is_none() {
                    self.current_match = Some(current_match);
                    out.push(Outgoing::SendToPlayer(player_id, ServerMessage::Error(crate::ErrorMessage::NotInRound)));
                    assert(out@ =~= seq![Outgoing::SendToPlayer(player_id, ServerMessage::Error(crate::ErrorMessage::NotInRound))]);
                    return out;
                }
                let lays_card = match action {
                    InputPlayerAction::Move(InputPlayerMove::CountAndLayCard(_)) => true,
                    InputPlayerAction::Move(InputPlayerMove::LayCard) => true,
                    _ => false,
                };
                assert(lays_card == needs_card(action));
                if lays_card && current_match.players.get_hand(&player_id).unwrap().len() == 0 {
                    self.current_match = Some(current_match);
                    out.push(Outgoing::SendToPlayer(player_id, ServerMessage::Error(crate::ErrorMessage::NoCards)));
                    assert(out@ =~= seq![Outgoing::SendToPlayer(player_id, ServerMessage::Error(crate::ErrorMessage::NoCards))]);
                    return out;
                }
                let mut round = current_match.current_round.take().unwrap();
                let ghost r0 = round;
                let ghost hands0 = current_match.players.hands();
                let ghost card0 = hands0[player_id].last();
                let player_action_type = match action {
                    InputPlayerAction::Move(InputPlayerMove::CountAndLayCard(count)) => {
                        let card = current_match.players.take_card(&player_id).unwrap();
                        round.revealed_card_stacks.push_card(player_id, card);
                        PlayerActionType::Move(PlayerMove::CountAndLayCard { card, count })
                    },
                    InputPlayerAction::Move(InputPlayerMove::Count(count)) => PlayerActionType::Move(PlayerMove::Count(count)),
                    InputPlayerAction::Move(InputPlayerMove::LayCard) => {
                        let card = current_match.players.take_card(&player_id).unwrap();
                        round.revealed_card_stacks.push_card(player_id, card);
                        PlayerActionType::Move(PlayerMove::LayCard(card))
                    },
                    InputPlayerAction::Hit(hit_type) => PlayerActionType::Hit(hit_type),
                    InputPlayerAction::ReportError => PlayerActionType::ReportError,
                    InputPlayerAction::DeclareWin => PlayerActionType::DeclareWin,
                };
                assert(player_action_type == action_type_of(action, card0));
                let player_action = PlayerAction { player_id, time, action_type: player_action_type };
                round.player_actions.push(player_action);
                out.push(Outgoing::Broadcast(ServerMessage::ActionPerformed(player_action)));
                assert(current_match.players.hands() =~= hands_after_laying(hands0, player_id, action));
                let ghost chain0 = round.action_chain@;
                let round_termination = round.action_chain.process_action(
                    player_id,
                    action,
                    &self.settings,
                    &current_match.players,
                    time,
                );
                proof {
                    crate::game::round::lemma_chain_step_wf(chain0, player_id, action, self.settings.expected_error_reaction_time as int, current_match.players.order(), current_match.players.hands(), time as int);
                    crate::game::round::lemma_chain_step_bounded(chain0, player_id, action, self.settings.expected_error_reaction_time as int, current_match.players.order(), current_match.players.hands(), time as int);
                }
                let ghost chain2 = round.action_chain@;
                let ghost action_model = player_action;
                match round_termination {
                    Some(t) => {
                        current_match.current_round = Some(round);
                        let ghost m1 = current_match;
                        assert(action_recorded(m0, player_id, action, time as int, chain2, m1));
                        let (won, messages) = current_match.round_terminated(t, &self.settings);
                        let ghost msgs = messages@;
                        let mut messages = messages;
                        broadcast_all(&mut out, &mut messages);
                        let ghost m2 = current_match;
                        if won {
                            let ghost before = self.previous_matches@;
                            self.previous_matches.push(current_match);
                            let ghost rm0 = self.rule_manager;
                            let added = self.rule_manager.add_rule();
                            let ghost added0 = added;
                            match added {
                                Ok(rule_info) => {
                                    out.push(Outgoing::Broadcast(ServerMessage::RuleAdded(rule_info)));
                                },
                                Err(()) => {},
                            }
                            if let Some(duration) = self.settings.auto_start_match {
                                out.push(Outgoing::Schedule { delay_ms: duration, message: AutoMessage::AutoStartMatch });
                            }
                            proof {
                                assert(self.previous_matches@ == before.push(m2));
                                assert(forall|i: int| 0 <= i < msgs.len() ==> out@[1 + i] == Outgoing::Broadcast(#[trigger] msgs[i]));
                                assert(g0.match_end_outcome(*self, out@, msgs, added0));
                                assert(g0.round_end_outcome(m0, player_id, action, time as int, chain2, t@, *self, out@, m1, m2, won, msgs));
                                assert(out@[0] == Outgoing::Broadcast(ServerMessage::ActionPerformed(action_model)));
                                assert(self.settings == g0.settings);
                                assert(self.wf());
                                assert(g0.message_post(player_id, action, time as int, *self, out@));
                            }
                            return out;
                        }
                        self.current_match = Some(current_match);
                        if let Some(duration) = self.settings.auto_start_round {
                            out.push(Outgoing::Schedule { delay_ms: duration, message: AutoMessage::AutoStartRound });
                        }
                        proof {
                            lemma_round_end_keeps_losers(m1, t@, self.settings, m2, won, msgs);
                            lemma_laying_keeps_cards(m0, player_id, action, time as int, chain2, m1);
                            crate::game::game_match::lemma_round_end_keeps_cards(m1, t@, self.settings, m2, won, msgs);
                            assert(forall|i: int| 0 <= i < msgs.len() ==> out@[1 + i] == Outgoing::Broadcast(#[trigger] msgs[i]));
                            assert(g0.round_end_outcome(m0, player_id, action, time as int, chain2, t@, *self, out@, m1, m2, won, msgs));
                        }
                        out
                    },
                    None => {
                        let is_move = match action {
                            InputPlayerAction::Move(_) => true,
                            _ => false,
                        };
                        let is_moves_chain = match &round.action_chain {
                            ActionChain::Moves { .. } => true,
                            _ => false,
                        };
                        assert(is_moves_chain == (chain2 is Moves));
                        assert(is_move == (action is Move));
                        let ghost kinds = self.rule_manager.active_kinds();
                        let ghost order = current_match.players.order();
                        if is_move && is_moves_chain {
                            let moves = round.get_previous_moves();
                            let winner = find_last_winner(&self.previous_matches);
                            let game_ctx = GameContext {
                                players: current_match.players.get_player_vec(),
                                n_cards_in_pool: current_match.card_pool.n_cards(),
                                previous_match_winner: winner,
                                previous_moves: &moves,
                                revealed_card_stacks: &round.revealed_card_stacks,
                            };
                            if let Some(rule_effect) = self.rule_manager.get_new_active_effect(&game_ctx) {
                                round.active_effects.push(rule_effect);
                            }
                            let mut active_effects: Vec<crate::rules::RuleEffect> = Vec::new();
                            std::mem::swap(&mut active_effects, &mut round.active_effects);
                            let mut kept_effects: Vec<crate::rules::RuleEffect> = Vec::new();
                            let ghost r_before = round;
                            // the effects are applied from the last to the first
                            #[verifier::loop_isolation(false)]
                            while active_effects.len() > 0
                                invariant
                                    active_effects@.len() <= 1,
                                    kept_effects@.len() == 0,
                                    round.player_actions == r_before.player_actions,
                                    round.revealed_card_stacks == r_before.revealed_card_stacks,
                                    round.starting_player == r_before.starting_player,
                                    round.round_termination == r_before.round_termination,
                                    active_effects@.len() == 1 ==> {
                                        &&& new_effect(kinds, moves@) == Some(active_effects@[0].handler)
                                        &&& active_effects@[0].duration.0 == 1
                                        &&& round.action_chain@ == chain2
                                    },
                                    active_effects@.len() == 0 ==> round.action_chain@ == chain_after_rules(kinds, moves@, action, chain2, order),
                                decreases active_effects@.len(),
                            {
                                let mut rule_effect = active_effects.pop().unwrap();
                                let mut action_chain = ActionChain::Hit { players: Vec::new(), hit_type: crate::game::round::HitType::Single };
                                std::mem::swap(&mut action_chain, &mut round.action_chain);
                                match action_chain {
                                    ActionChain::Moves { previous_moves, turn_manager, move_manager } => {
                                        round.action_chain = apply_rule(
                                            rule_effect.handler,
                                            ActionChainMoves { previous_moves, turn_manager, move_manager },
                                            &game_ctx,
                                        );
                                    },
                                    other => {
                                        // a chain of moves is all that the first effect meets
                                        round.action_chain = other;
                                    },
                                }
                                if !rule_effect.duration.decrease() {
                                    kept_effects.push(rule_effect);
                                }
                            }
                            round.active_effects = kept_effects;
                        }
                        proof {
                            assert(round.player_actions@ == r0.player_actions@.push(action_model));
                        }
                        current_match.current_round = Some(round);
                        self.current_match = Some(current_match);
                        proof {
                            let m2 = self.current_match->0;
                            assert(round.active_effects@ =~= r0.active_effects@);
                            lemma_laying_keeps_cards(m0, player_id, action, time as int, chain_after_rules(kinds, moves_of(r0.player_actions@.push(action_model)), action, chain2, order), m2);
                            assert(round.action_chain@ == chain_after_rules(kinds, moves_of(r0.player_actions@.push(action_model)), action, chain2, order));
                            assert(m2.wf());
                            assert(out@.len() == 1);
                            assert(out@[0] == Outgoing::Broadcast(ServerMessage::ActionPerformed(action_model)));
                            assert(action_recorded(m0, player_id, action, time as int, chain_after_rules(kinds, moves_of(r0.player_actions@.push(action_model)), action, chain2, order), m2));
                            assert(self.wf());
                        }
                        out
                    },
                }
            },
        }
    }

    /// Whether `handle_message` can handle this message of `player_id` at `time`
    /// without a panic: see `GameState::message_safe`.
    pub fn message_is_safe(&self, player_id: PlayerId, message: &GameMessage, time: i64) -> (r: bool)
        requires
            self.wf(),
        ensures
            match *message {
                GameMessage::ActionPerformed(a) => r == self.message_safe(player_id, a, time as int),
            },
    {
        match message {
            GameMessage::ActionPerformed(action) => {
                let action = *action;
                let current_match = match &self.current_match {
                    Some(m) => m,
                    None => {
                        return true;
                    },
                };
                let round = match &current_match.current_round {
                    Some(r) => r,
                    None => {
                        return true;
                    },
                };
                let lays_card = match action {
                    InputPlayerAction::Move(InputPlayerMove::CountAndLayCard(_)) => true,
                    InputPlayerAction::Move(InputPlayerMove::LayCard) => true,
                    _ => false,
                };
                assert(lays_card == needs_card(action));
                if lays_card {
                    match current_match.players.get_hand(&player_id) {
                        None => {
                            return false;
                        },
                        Some(hand) => {
                            if hand.len() == 0 {
                                return true;
                            }
                        },
                    }
                }
                let ghost hands = current_match.players.hands();
                let ghost hands1 = hands_after_laying(hands, player_id, action);
                let ghost reaction = self.settings.expected_error_reaction_time as int;
                let ghost order = current_match.players.order();
                proof {
                    if lays_card {
                        crate::game::round::lemma_chain_step_hands(
                            round.action_chain@, player_id, action, reaction, order, hands, hands1, time as int,
                        );
                    }
                    assert(hands1.dom() =~= hands.dom());
                }
                if !round.action_chain.action_is_safe(player_id, action, &self.settings, &current_match.players, time) {
                    return false;
                }
                let mut chain = round.action_chain.copied();
                match chain.process_action(player_id, action, &self.settings, &current_match.players, time) {
                    None => true,
                    Some(t) => {
                        if let RoundTerminationType::ErrorReported { reporter, errors } = &t {
                            if errors.len() == 0 {
                                return false;
                            }
                            if self.settings.cards_removed_at_correct_error_report > 0
                                && current_match.players.get_hand(reporter).is_none() {
                                return false;
                            }
                        }
                        match t.get_loser() {
                            Some(g) => current_match.players.get_hand(g).is_some(),
                            None => true,
                        }
                    },
                }
            },
        }
    }

    /// `after` is this game with a match started among the players of the lobby, in
    /// the order of their ids, each dealt the number of cards the settings call for
    /// from a fresh pool; `out` announces the match.
    pub open spec fn match_started(self, lobby_players: LobbyPlayers, after: GameState, out: Seq<Outgoing>) -> bool {
        &&& after.settings == self.settings
        &&& after.rule_manager == self.rule_manager
        &&& after.previous_matches == self.previous_matches
        &&& after.current_match matches Some(m)
        &&& m.players.order() == lobby_players.ids()
        &&& m.card_pool@.len() == 61 - self.settings.n_cards_per_player * lobby_players.entries().len()
        &&& forall|i: int| 0 <= i < lobby_players.ids().len()
            ==> (#[trigger] m.players.hands()[lobby_players.ids()[i]]).len() == self.settings.n_cards_per_player
        &&& m.card_pool@.to_multiset().add(crate::game::game_match::cards_in_hands(m.players.hand_order(), m.players.hands()).to_multiset())
            == crate::card::standard_deck().to_multiset()
        &&& m.previous_rounds@.len() == 0
        &&& m.current_round is None
        &&& m.match_termination is None
        &&& out.len() == 1
        &&& out[0] matches Outgoing::Broadcast(ServerMessage::MatchStarted(mi))
        &&& m.described_by(mi)
    }

    /// Starts a match with the players of the lobby, dealing each the number of cards
    /// the settings call for; at least three players are needed.
    pub fn start_match(&mut self, lobby_players: &LobbyPlayers) -> (r: (Result<(), StartMatchError>, Vec<Outgoing>))
        requires
            old(self).wf(),
            lobby_players.wf(),
        ensures
            final(self).wf(),
            old(self).current_match is Some ==> r.0 == Err::<(), StartMatchError>(StartMatchError::AlreadyOngoingMatch)
                && r.1@.len() == 0 && *final(self) == *old(self),
            old(self).current_match is None && lobby_players.entries().len() < 3
                ==> r.0 == Err::<(), StartMatchError>(StartMatchError::TooFewPlayers) && r.1@.len() == 0 && *final(self) == *old(self),
            old(self).current_match is None && lobby_players.entries().len() >= 3
                && old(self).settings.n_cards_per_player * lobby_players.entries().len() > 61
                ==> r.0 == Err::<(), StartMatchError>(StartMatchError::TooHighNCardsPerPlayer) && r.1@.len() == 0 && *final(self) == *old(self),
            old(self).current_match is None && lobby_players.entries().len() >= 3
                && old(self).settings.n_cards_per_player * lobby_players.entries().len() <= 61
                ==> r.0 is Ok && old(self).match_started(*lobby_players, *final(self), r.1@),
    {
        let mut out: Vec<Outgoing> = Vec::new();
        if self.current_match.is_some() {
            return (Err(StartMatchError::AlreadyOngoingMatch), out);
        }
        let n_players = lobby_players.len();
        if n_players < 3 {
            return (Err(StartMatchError::TooFewPlayers), out);
        }
        let n = self.settings.n_cards_per_player;
        if n > 61 / n_players {
            proof {
                assert(n * n_players > 61) by (nonlinear_arith)
                    requires n > 61int / (n_players as int), n_players >= 3;
            }
            return (Err(StartMatchError::TooHighNCardsPerPlayer), out);
        }
        proof {
            assert(n * n_players <= 61) by (nonlinear_arith)
                requires n <= 61int / (n_players as int), n_players >= 3;
        }
        match MatchState::new(lobby_players, n) {
            Ok(m) => {
                proof {
                    crate::game::game_match::lemma_cards_in_hands(m.players.hand_order(), m.players.hands());
                    assert(match_cards(m) =~= m.card_pool@.to_multiset().add(cards_of(m.players.hand_order(), m.players.hands())));
                }
                out.push(Outgoing::Broadcast(ServerMessage::MatchStarted(m.info())));
                self.current_match = Some(m);
                (Ok(()), out)
            },
            Err(()) => (Err(StartMatchError::TooHighNCardsPerPlayer), out),
        }
    }
}


/// Who starts the next round of the match `m` of the game `g`: the loser of the
/// match's last round, or else the winner of the latest match won; none if there is
/// neither (a player of the match drawn at random starts then).
pub open spec fn round_starter(g: GameState, m: MatchState) -> Option<PlayerId> {
    if m.previous_rounds@.len() > 0 {
        crate::game::round::loser(m.previous_rounds@.last().round_termination->0@)
    } else {
        last_winner(g.previous_matches@)
    }
}

/// The player who lost the last finished round of a match starts its next round:
/// the last to err when errors were reported, the faulty reporter, the last to hit,
/// the faulty declarer of a win, or the player who ran out of time.
pub proof fn lemma_loser_starts_next_round(g: GameState, after: GameState, out: Seq<Outgoing>)
    requires
        g.round_started(after, out),
        g.current_match->0.previous_rounds@.len() > 0,
        g.current_match->0.previous_rounds@.last().round_termination is Some,
        !(g.current_match->0.previous_rounds@.last().round_termination->0@ is PlayerWonMatch),
    ensures
        after.current_match->0.current_round->0.starting_player
            == match g.current_match->0.previous_rounds@.last().round_termination->0@ {
                Termination::ErrorReported { errors, .. } => errors.last().player,
                Termination::FaultyErrorReport(p) => p,
                Termination::HitPileLast(p) => p,
                Termination::FaultyWinDeclaration(p) => p,
                Termination::PlayerWonMatch(p) => p,
                Termination::Timeout(p) => p,
            },
{
}

/// The first round of a match is started by the winner of the latest match of the
/// game that a player won.
pub proof fn lemma_last_winner_starts_first_round(g: GameState, after: GameState, out: Seq<Outgoing>, i: int, w: PlayerId)
    requires
        g.round_started(after, out),
        g.current_match->0.previous_rounds@.len() == 0,
        0 <= i < g.previous_matches@.len(),
        g.previous_matches@[i].match_termination == Some(MatchTerminationType::PlayerWonMatch(w)),
        forall|j: int| i < j < g.previous_matches@.len()
            ==> !(#[trigger] g.previous_matches@[j].match_termination matches Some(MatchTerminationType::PlayerWonMatch(_))),
    ensures
        after.current_match->0.current_round->0.starting_player == w,
{
    lemma_latest_winner(g.previous_matches@, i, w);
}

/// The latest match won is the one won at `i` when no later match was won.
proof fn lemma_latest_winner(matches: Seq<MatchState>, i: int, w: PlayerId)
    requires
        0 <= i < matches.len(),
        matches[i].match_termination == Some(MatchTerminationType::PlayerWonMatch(w)),
        forall|j: int| i < j < matches.len()
            ==> !(#[trigger] matches[j].match_termination matches Some(MatchTerminationType::PlayerWonMatch(_))),
    ensures
        last_winner(matches) == Some(w),
    decreases matches.len(),
{
    let n = matches.len() - 1;
    assert(matches.last() == matches[n]);
    if i < n {
        assert(matches.drop_last()[i] == matches[i]);
        assert forall|j: int| i < j < matches.drop_last().len() implies
            !(#[trigger] matches.drop_last()[j].match_termination matches Some(MatchTerminationType::PlayerWonMatch(_))) by {
            assert(matches.drop_last()[j] == matches[j]);
        }
        lemma_latest_winner(matches.drop_last(), i, w);
    }
}

/// Who starts the next round of the current match of a game: see `round_starter`.
fn next_round_starter(game_state: &GameState, current_match: &MatchState) -> (r: PlayerId)
    requires
        game_state.wf(),
        game_state.current_match == Some(*current_match),
    ensures
        match round_starter(*game_state, *current_match) {
            Some(s) => r == s,
            None => current_match.players.order().contains(r),
        },
{
    let n = current_match.previous_rounds.len();
    if n > 0 {
        let last = &current_match.previous_rounds[n - 1];
        assert(current_match.previous_rounds@[n - 1] == current_match.previous_rounds@.last());
        let termination = last.round_termination.as_ref().unwrap();
        *termination.get_loser().unwrap()
    } else {
        match find_last_winner(&game_state.previous_matches) {
            Some(winner) => winner,
            None => choose_item(current_match.players.get_player_vec()).unwrap(),
        }
    }
}

/// Whether an action lays a card from the player's hand.
pub open spec fn needs_card(a: InputPlayerAction) -> bool {
    match a {
        InputPlayerAction::Move(m) => m is CountAndLayCard || m is LayCard,
        _ => false,
    }
}

/// The action as it is broadcast, with the card laid if it lays one.
pub open spec fn action_type_of(a: InputPlayerAction, card: Card) -> PlayerActionType {
    match a {
        InputPlayerAction::Move(m) => PlayerActionType::Move(
            match m {
                InputPlayerMove::CountAndLayCard(count) => PlayerMove::CountAndLayCard { card, count },
                InputPlayerMove::Count(count) => PlayerMove::Count(count),
                InputPlayerMove::LayCard => PlayerMove::LayCard(card),
            },
        ),
        InputPlayerAction::Hit(h) => PlayerActionType::Hit(h),
        InputPlayerAction::ReportError => PlayerActionType::ReportError,
        InputPlayerAction::DeclareWin => PlayerActionType::DeclareWin,
    }
}

/// The hands once the acting player has laid their card, if the action lays one.
pub open spec fn hands_after_laying(hands: Map<PlayerId, Seq<Card>>, p: PlayerId, a: InputPlayerAction) -> Map<PlayerId, Seq<Card>> {
    if needs_card(a) {
        hands.insert(p, hands[p].drop_last())
    } else {
        hands
    }
}

/// The revealed stacks once the acting player has laid `card` on theirs, if the
/// action lays one.
pub open spec fn stacks_after_laying(stacks: Map<PlayerId, Seq<Card>>, p: PlayerId, a: InputPlayerAction, card: Card) -> Map<PlayerId, Seq<Card>> {
    if needs_card(a) {
        stacks.insert(p, if stacks.contains_key(p) { stacks[p].push(card) } else { seq![card] })
    } else {
        stacks
    }
}

/// The chain of actions after a valid move, once the rules have had their say: the
/// one rule that the moves so far trigger, if exactly one does.
pub open spec fn chain_after_rules(
    kinds: Seq<(crate::rules::CriteriaKind, RuleKind)>,
    moves: Seq<(PlayerId, PlayerMove)>,
    a: InputPlayerAction,
    chain: ChainModel,
    order: Seq<PlayerId>,
) -> ChainModel {
    if a is Move && chain is Moves {
        match new_effect(kinds, moves) {
            Some(k) => rule_applied(k, chain->previous_moves, chain->turn, chain->moves, order),
            None => chain,
        }
    } else {
        chain
    }
}

/// `m1` is the match `m0` with an action of `p` at `time` recorded in its current
/// round: the card laid, if any, moved from the hand to the player's revealed stack,
/// the action logged, and the chain of actions now `chain`.
pub open spec fn action_recorded(
    m0: MatchState,
    p: PlayerId,
    a: InputPlayerAction,
    time: int,
    chain: ChainModel,
    m1: MatchState,
) -> bool {
    let r0 = m0.current_round->0;
    let r1 = m1.current_round->0;
    let card = m0.players.hands()[p].last();
    &&& m1.wf()
    &&& m1.current_round is Some
    &&& m1.card_pool == m0.card_pool
    &&& m1.previous_rounds == m0.previous_rounds
    &&& m1.match_termination == m0.match_termination
    &&& m1.players.order() == m0.players.order()
    &&& m1.players.hand_order() == m0.players.hand_order()
    &&& m1.players.hands() == hands_after_laying(m0.players.hands(), p, a)
    &&& r1.starting_player == r0.starting_player
    &&& r1.player_actions@ == r0.player_actions@.push(
        PlayerAction { player_id: p, time: time as i64, action_type: action_type_of(a, card) },
    )
    &&& r1.revealed_card_stacks@ == stacks_after_laying(r0.revealed_card_stacks@, p, a, card)
    &&& r1.revealed_card_stacks.key_seq() == if needs_card(a) && !r0.revealed_card_stacks@.contains_key(p) {
        r0.revealed_card_stacks.key_seq().push(p)
    } else {
        r0.revealed_card_stacks.key_seq()
    }
    &&& r1.action_chain@ == chain
    &&& r1.active_effects@ == r0.active_effects@
    &&& r1.round_termination == r0.round_termination
}

/// Laying a card moves it from the player's hand to their revealed stack: the cards
/// of the match stay the same.
proof fn lemma_laying_keeps_cards(m0: MatchState, p: PlayerId, a: InputPlayerAction, time: int, chain: ChainModel, m1: MatchState)
    requires
        m0.wf(),
        m0.current_round is Some,
        action_recorded(m0, p, a, time, chain, m1),
        needs_card(a) ==> m0.players.hands().contains_key(p) && m0.players.hands()[p].len() > 0,
    ensures
        match_cards(m1) == match_cards(m0),
{
    broadcast use vstd::seq_lib::group_to_multiset_ensures;
    if needs_card(a) {
        let hands = m0.players.hands();
        let keys = m0.players.hand_order();
        let r0 = m0.current_round->0;
        let stacks = r0.revealed_card_stacks;
        let rk = stacks.key_seq();
        let hand = hands[p];
        let card = hand.last();
        let rest = hand.drop_last();
        m0.players.lemma_hands();
        stacks.lemma_keys();
        stacks.lemma_cards();
        assert(hand =~= rest.push(card));
        crate::player_cards::lemma_cards_of_insert(keys, hands, p, rest);
        let h0 = cards_of(keys, hands);
        let h1 = cards_of(keys, m1.players.hands());
        let s0 = cards_of(rk, stacks@);
        let s1 = cards_of(m1.current_round->0.revealed_card_stacks.key_seq(), m1.current_round->0.revealed_card_stacks@);
        assert(s1 == s0.insert(card)) by {
            if stacks@.contains_key(p) {
                crate::player_cards::lemma_cards_of_insert(rk, stacks@, p, stacks@[p].push(card));
                let sp = stacks@[p].to_multiset();
                assert(stacks@[p].push(card).to_multiset() == sp.insert(card));
                assert forall|x: Card| #[trigger] s1.count(x) == s0.insert(card).count(x) by {
                    assert(s1.add(sp).count(x) == s0.add(sp.insert(card)).count(x));
                }
                assert(s1 =~= s0.insert(card));
            } else {
                crate::player_cards::lemma_cards_of_push(rk, stacks@, p, seq![card]);
                assert(seq![card].to_multiset() =~= Multiset::<Card>::empty().insert(card)) by {
                    assert(seq![card] =~= Seq::<Card>::empty().push(card));
                }
                assert(s1 =~= s0.insert(card));
            }
        }
        assert forall|x: Card| #[trigger] h1.insert(card).count(x) == h0.count(x) by {
            assert(h1.add(hand.to_multiset()).count(x) == h0.add(rest.to_multiset()).count(x));
            assert(hand.to_multiset() == rest.to_multiset().insert(card));
        }
        let pool = m0.card_pool@.to_multiset();
        assert(match_cards(m1) == pool.add(h1).add(s1));
        assert(match_cards(m0) == pool.add(h0).add(s0));
        assert forall|x: Card| #[trigger] match_cards(m1).count(x) == match_cards(m0).count(x) by {
            assert(h1.insert(card).count(x) == h0.count(x));
        }
        assert(match_cards(m1) =~= match_cards(m0));
    } else {
        let r0 = m0.current_round->0;
        let r1 = m1.current_round->0;
        assert(m1.players.hands() == m0.players.hands());
        assert(r1.revealed_card_stacks@ == r0.revealed_card_stacks@);
        assert(r1.revealed_card_stacks.key_seq() == r0.revealed_card_stacks.key_seq());
        assert(match_cards(m1) == match_cards(m0));
    }
}

impl GameState {
    /// The action of `p` at `time` can be handled without a panic: a player who lays a
    /// card has a hand, the action can be judged, and the round can be ended as the
    /// judgement calls for (the loser, and a rewarded reporter, have hands).
    pub open spec fn message_safe(self, p: PlayerId, a: InputPlayerAction, time: int) -> bool {
        match self.current_match {
            None => true,
            Some(m) => match m.current_round {
                None => true,
                Some(r) => {
                    let hands = m.players.hands();
                    let hands1 = hands_after_laying(hands, p, a);
                    let reaction = self.settings.expected_error_reaction_time as int;
                    &&& needs_card(a) ==> hands.contains_key(p)
                    &&& (!needs_card(a) || hands[p].len() > 0) ==> {
                        &&& chain_step_safe(r.action_chain@, p, a, reaction, m.players.order(), hands1, time)
                        &&& chain_step(r.action_chain@, p, a, reaction, m.players.order(), hands1, time).1 matches Some(t)
                            ==> round_end_safe(t, self.settings, hands1)
                    }
                },
            },
        }
    }

    /// What handling an action of `p` at `time` does: see `GameState::handle_message`.
    pub open spec fn message_post(self, p: PlayerId, a: InputPlayerAction, time: int, after: GameState, out: Seq<Outgoing>) -> bool {
        match self.current_match {
            None => out == seq![Outgoing::SendToPlayer(p, ServerMessage::Error(crate::ErrorMessage::NotInMatch))] && after == self,
            Some(m) => match m.current_round {
                None => out == seq![Outgoing::SendToPlayer(p, ServerMessage::Error(crate::ErrorMessage::NotInRound))] && after == self,
                Some(r) => {
                    let hands = m.players.hands();
                    if needs_card(a) && hands[p].len() == 0 {
                        out == seq![Outgoing::SendToPlayer(p, ServerMessage::Error(crate::ErrorMessage::NoCards))] && after == self
                    } else {
                        let card = hands[p].last();
                        let action = PlayerAction { player_id: p, time: time as i64, action_type: action_type_of(a, card) };
                        let hands1 = hands_after_laying(hands, p, a);
                        let reaction = self.settings.expected_error_reaction_time as int;
                        let (chain2, term) = chain_step(r.action_chain@, p, a, reaction, m.players.order(), hands1, time);
                        &&& out.len() >= 1
                        &&& out[0] == Outgoing::Broadcast(ServerMessage::ActionPerformed(action))
                        &&& after.settings == self.settings
                        &&& term is None ==> {
                            &&& out.len() == 1
                            &&& after.rule_manager == self.rule_manager
                            &&& after.previous_matches == self.previous_matches
                            &&& after.current_match matches Some(m2)
                            &&& action_recorded(m, p, a, time, chain_after_rules(
                                self.rule_manager.active_kinds(),
                                moves_of(r.player_actions@.push(action)),
                                a,
                                chain2,
                                m.players.order(),
                            ), m2)
                        }
                        &&& term matches Some(t) ==> exists|m1: MatchState, m2: MatchState, won: bool, msgs: Seq<ServerMessage>|
                            #[trigger] self.round_end_outcome(m, p, a, time, chain2, t, after, out, m1, m2, won, msgs)
                    }
                },
            },
        }
    }
}

impl GameState {
    /// How an action that ended the round was handled: the action was recorded in the
    /// match (`m1`), the round ended (`m2`, with `msgs` broadcast after the action),
    /// and then either the match was over, or the next round is scheduled.
    pub open spec fn round_end_outcome(
        self,
        m: MatchState,
        p: PlayerId,
        a: InputPlayerAction,
        time: int,
        chain2: ChainModel,
        t: crate::game::round::Termination,
        after: GameState,
        out: Seq<Outgoing>,
        m1: MatchState,
        m2: MatchState,
        won: bool,
        msgs: Seq<ServerMessage>,
    ) -> bool {
        &&& action_recorded(m, p, a, time, chain2, m1)
        &&& round_end_post(m1, t, self.settings, m2, won, msgs)
        &&& out.len() >= 1 + msgs.len()
        &&& forall|i: int| 0 <= i < msgs.len() ==> out[1 + i] == Outgoing::Broadcast(#[trigger] msgs[i])
        &&& won ==> {
            &&& after.current_match is None
            &&& after.previous_matches@ == self.previous_matches@.push(m2)
            &&& exists|added: Result<RuleInfo, ()>| #[trigger] self.match_end_outcome(after, out, msgs, added)
        }
        &&& !won ==> {
            &&& after.current_match == Some(m2)
            &&& after.previous_matches == self.previous_matches
            &&& after.rule_manager == self.rule_manager
            &&& out.len() == 1 + msgs.len() + (if self.settings.auto_start_round is Some { 1int } else { 0int })
            &&& self.settings.auto_start_round matches Some(d)
                ==> out.last() == (Outgoing::Schedule { delay_ms: d, message: AutoMessage::AutoStartRound })
        }
    }

    /// How the end of a match was handled: a new rule was drawn (`added`) and
    /// announced, and the next match is scheduled if the settings ask for it.
    pub open spec fn match_end_outcome(self, after: GameState, out: Seq<Outgoing>, msgs: Seq<ServerMessage>, added: Result<RuleInfo, ()>) -> bool {
        &&& add_rule_post(self.rule_manager, after.rule_manager, added)
        &&& out.len() == 1 + msgs.len() + (if added is Ok { 1int } else { 0int })
            + (if self.settings.auto_start_match is Some { 1int } else { 0int })
        &&& added matches Ok(info) ==> out[1 + msgs.len() as int] == Outgoing::Broadcast(ServerMessage::RuleAdded(info))
        &&& self.settings.auto_start_match matches Some(d)
            ==> out.last() == (Outgoing::Schedule { delay_ms: d, message: AutoMessage::AutoStartMatch })
    }
}

/// Appends a broadcast of each message, in order.
fn broadcast_all(out: &mut Vec<Outgoing>, messages: &mut Vec<ServerMessage>)
    ensures
        final(out)@.len() == old(out)@.len() + old(messages)@.len(),
        final(out)@.subrange(0, old(out)@.len() as int) == old(out)@,
        forall|i: int| 0 <= i < old(messages)@.len() ==> final(out)@[old(out)@.len() + i] == Outgoing::Broadcast(#[trigger] old(messages)@[i]),
{
    let ghost start = out@;
    let ghost msgs = messages@;
    let mut remaining: Vec<ServerMessage> = Vec::new();
    std::mem::swap(messages, &mut remaining);
    let mut reversed: Vec<ServerMessage> = Vec::new();
    while remaining.len() > 0
        invariant
            reversed@.len() + remaining@.len() == msgs.len(),
            remaining@ == msgs.subrange(0, remaining@.len() as int),
            forall|i: int| 0 <= i < reversed@.len() ==> reversed@[i] == msgs[msgs.len() - 1 - i],
        decreases remaining@.len(),
    {
        let m = remaining.pop().unwrap();
        reversed.push(m);
    }
    while reversed.len() > 0
        invariant
            out@.len() == start.len() + msgs.len() - reversed@.len(),
            reversed@.len() <= msgs.len(),
            out@.subrange(0, start.len() as int) == start,
            forall|i: int| 0 <= i < reversed@.len() ==> reversed@[i] == msgs[msgs.len() - 1 - i],
            forall|i: int| 0 <= i < msgs.len() - reversed@.len() ==> out@[start.len() + i] == Outgoing::Broadcast(#[trigger] msgs[i]),
        decreases reversed@.len(),
    {
        let m = reversed.pop().unwrap();
        let ghost before = out@;
        out.push(Outgoing::Broadcast(m));
        assert(out@.subrange(0, start.len() as int) =~= before.subrange(0, start.len() as int));
    }
}

} // verus!
