//! A match: the players in their order, their hands, the pool, and its rounds.
use vstd::prelude::*;
use vstd::multiset::Multiset;

use crate::ServerMessage;
use crate::card::{Card, CardPool, lemma_top_cards_multiset, min_nat, pushed_to_front, standard_deck, top_cards};
use crate::lobby::LobbyPlayers;
use crate::player_cards::PlayerCards;
use crate::game::{ActiveGameSettings, MaxCardsPickedUpWhenLosing};
use crate::player_cards::{cards_of, flatten_stacks, lemma_cards_of_insert, lemma_flatten_cards_of, lemma_pushed_to_front_cards, others};
use crate::random::shuffle_in_place;
use crate::game::round::{RoundInfo, RoundState, RoundTerminationType, Termination, loser};
use crate::lobby::PlayerId;

verus! {

/// How a match ended.
#[derive(Clone, Copy, Debug, PartialEq, Eq, Structural)]
pub enum MatchTerminationType {
    PlayerWonMatch(PlayerId),
    /// happens if someone leaves and the lobby ends up with fewer than 3 people, or if the host cancels
    MatchCancelled,
}

/// is sent when a new match starts, or a connection is aquired to a lobby with an existing match
pub struct MatchInfo {
    pub players: Vec<(PlayerId, usize)>,
    pub n_cards_in_pool: usize,
    pub current_round: Option<RoundInfo>,
}


/// The state of a match.
pub struct MatchState {
    pub card_pool: CardPool,
    pub players: MatchPlayers,
    pub previous_rounds: Vec<RoundState>,
    pub current_round: Option<RoundState>,
    // if the round is finished
    pub match_termination: Option<MatchTerminationType>,
}

/// How many of `n` revealed cards the loser of a round picks up.
pub open spec fn picked_up_count(limit: MaxCardsPickedUpWhenLosing, n: int) -> int {
    match limit {
        MaxCardsPickedUpWhenLosing::Finite(k) => min_nat(k as int, n),
        MaxCardsPickedUpWhenLosing::Unlimited => n,
    }
}

/// The number of cards that a correct error report lets the reporter return to the
/// pool.
pub open spec fn returned_count(t: Termination, settings: ActiveGameSettings, hands: Map<PlayerId, Seq<Card>>) -> int {
    match t {
        Termination::ErrorReported { reporter, .. } => if settings.cards_removed_at_correct_error_report > 0 {
            min_nat(settings.cards_removed_at_correct_error_report as int, hands[reporter].len() as int)
        } else {
            0
        },
        _ => 0,
    }
}

/// The hands after a correct error report: the reporter's top cards are gone.
pub open spec fn hands_after_report(t: Termination, settings: ActiveGameSettings, hands: Map<PlayerId, Seq<Card>>) -> Map<PlayerId, Seq<Card>> {
    match t {
        Termination::ErrorReported { reporter, .. } => if settings.cards_removed_at_correct_error_report > 0 {
            hands.insert(reporter, hands[reporter].subrange(0, hands[reporter].len() - returned_count(t, settings, hands)))
        } else {
            hands
        },
        _ => hands,
    }
}

/// The pool after a correct error report: the reporter's returned cards are at its front.
pub open spec fn pool_after_report(t: Termination, settings: ActiveGameSettings, hands: Map<PlayerId, Seq<Card>>, pool: Seq<Card>) -> Seq<Card> {
    match t {
        Termination::ErrorReported { reporter, .. } => if settings.cards_removed_at_correct_error_report > 0 {
            pushed_to_front(top_cards(hands[reporter], returned_count(t, settings, hands)), pool)
        } else {
            pool
        },
        _ => pool,
    }
}

/// The ending of a round can be processed without a panic: the reporter of errors
/// and the loser have hands, and a report holds at least one error.
pub open spec fn round_end_safe(t: Termination, settings: ActiveGameSettings, hands: Map<PlayerId, Seq<Card>>) -> bool {
    &&& t is ErrorReported ==> t->errors.len() > 0
    &&& (t is ErrorReported && settings.cards_removed_at_correct_error_report > 0) ==> hands.contains_key(t->reporter)
    &&& loser(t) matches Some(g) ==> hands.contains_key(g)
}

impl MatchState {
    /// The match is well formed: the hands and the revealed stacks of the current
    /// round map each player to one stack.
    pub open spec fn wf(self) -> bool {
        &&& self.players.wf()
        &&& self.current_round matches Some(r) ==> r.revealed_card_stacks.wf()
    }

    /// `r` tells of this match: each player with the size of their hand, the size of
    /// the pool, and the current round.
    pub open spec fn described_by(self, r: MatchInfo) -> bool {
        &&& r.players@.len() == self.players.hand_order().len()
        &&& forall|i: int| 0 <= i < r.players@.len() ==> (#[trigger] r.players@[i]).0 == self.players.hand_order()[i]
            && r.players@[i].1 == self.players.hands()[self.players.hand_order()[i]].len()
        &&& r.n_cards_in_pool == self.card_pool@.len()
        &&& r.current_round is Some <==> self.current_round is Some
        &&& r.current_round matches Some(ri) ==> ri.player_actions@ == self.current_round->0.player_actions@
            && ri.revealed_card_stacks@ == self.current_round->0.revealed_card_stacks@
            && ri.starting_player == self.current_round->0.starting_player
    }

    /// The match as the players are told of it.
    pub fn info(&self) -> (r: MatchInfo)
        requires
            self.wf(),
        ensures
            self.described_by(r),
    {
        MatchInfo {
            players: self.players.hand_sizes(),
            n_cards_in_pool: self.card_pool.n_cards(),
            current_round: match &self.current_round {
                Some(round) => Some(round.info()),
                None => None,
            },
        }
    }

    /// Ends the current round with `round_termination`: the round is filed with its
    /// termination, a correct error reporter returns cards to the pool, and the loser
    /// picks up (some of) the revealed cards, in a random selection, while the rest go
    /// to the pool. Returns true if the match terminated as well (a player won), and
    /// the messages to broadcast, in order. Does nothing without a current round.
    /// doesn't initiate autostartround or autostartmatch
    pub fn round_terminated(
        &mut self,
        round_termination: RoundTerminationType,
        game_settings: &ActiveGameSettings,
    ) -> (r: (bool, Vec<ServerMessage>))
        requires
            old(self).wf(),
            old(self).current_round is Some ==> round_end_safe(round_termination@, *game_settings, old(self).players.hands()),
        ensures
            final(self).wf(),
            round_end_post(*old(self), round_termination@, *game_settings, *final(self), r.0, r.1@),
    {
        let mut messages: Vec<ServerMessage> = Vec::new();
        let mut current_round = match self.current_round.take() {
            Some(round) => round,
            None => {
                return (false, messages);
            },
        };
        let ghost round0 = current_round;
        let ghost before = *old(self);
        current_round.round_termination = Some(round_termination.copied());
        let revealed_card_stacks = current_round.revealed_card_stacks.copy();
        self.previous_rounds.push(current_round);
        assert(self.previous_rounds@.drop_last() =~= before.previous_rounds@);
        messages.push(ServerMessage::RoundEnded(round_termination.copied()));
        let ghost t = round_termination@;
        let ghost hands0 = self.players.hands();
        let ghost pool0 = self.card_pool@;
        let guilty = match round_termination {
            RoundTerminationType::ErrorReported { reporter, errors } => {
                if game_settings.cards_removed_at_correct_error_report > 0 {
                    let cards = self.players.take_cards(
                        &reporter,
                        game_settings.cards_removed_at_correct_error_report,
                    );
                    if cards.len() > 0 {
                        messages.push(
                            ServerMessage::PlayerGotRidOfCardsToPool { player_id: reporter, n_cards: cards.len() },
                        );
                    }
                    self.card_pool.add_cards(cards);
                }
                errors[errors.len() - 1].player
            },
            RoundTerminationType::FaultyErrorReport(player_id) => player_id,
            RoundTerminationType::HitPileLast(player_id) => player_id,
            RoundTerminationType::FaultyWinDeclaration(player_id) => player_id,
            RoundTerminationType::Timeout(player_id) => player_id,
            RoundTerminationType::PlayerWonMatch(player_id) => {
                let match_termination = MatchTerminationType::PlayerWonMatch(player_id);
                self.match_termination = Some(match_termination);
                messages.push(ServerMessage::MatchEnded(match_termination));
                proof {
                    assert(messages@[1] == ServerMessage::MatchEnded(MatchTerminationType::PlayerWonMatch(player_id)));
                    assert(round_end_post(before, t, *game_settings, *self, true, messages@));
                }
                return (true, messages);
            },
        };
        proof {
            assert(self.players.hands() == hands_after_report(t, *game_settings, hands0));
            assert(self.card_pool@ == pool_after_report(t, *game_settings, hands0, pool0));
        }
        let mut revealed_cards = revealed_card_stacks.all_cards();
        let ghost revealed = revealed_cards@;
        shuffle_in_place(&mut revealed_cards);
        let n = revealed_cards.len();
        let keep = match game_settings.max_cards_picked_up_when_losing {
            MaxCardsPickedUpWhenLosing::Finite(limit) => if n > limit { n - limit } else { 0 },
            MaxCardsPickedUpWhenLosing::Unlimited => 0,
        };
        let ghost shuffled = revealed_cards@;
        let picked_up_cards = revealed_cards.split_off(keep);
        proof {
            assert(shuffled =~= revealed_cards@ + picked_up_cards@);
            vstd::seq_lib::lemma_multiset_commutative(revealed_cards@, picked_up_cards@);
            broadcast use vstd::seq_lib::group_to_multiset_ensures;
            shuffled.to_multiset_ensures();
            assert(revealed.to_multiset().len() == revealed.len());
            assert(shuffled.to_multiset().len() == shuffled.len());
        }
        messages.push(
            ServerMessage::PlayerPickedUpRevealedCards { player_id: guilty, n_cards: picked_up_cards.len() },
        );
        let ghost mid_hands = self.players.hands();
        let ghost mid_pool = self.card_pool@;
        let ghost picked = picked_up_cards@;
        let ghost rest = revealed_cards@;
        self.players.add_cards_to_hand(&guilty, picked_up_cards);
        self.card_pool.add_cards(revealed_cards);
        proof {
            assert(picked.to_multiset().add(rest.to_multiset()) == revealed.to_multiset());
            let g = guilty;
            assert(picked.len() == picked_up_count(game_settings.max_cards_picked_up_when_losing, revealed.len() as int));
            assert(self.players.hands() == mid_hands.insert(g, picked + mid_hands[g]));
            assert(self.card_pool@ == pushed_to_front(rest, mid_pool));
            assert(round_end_post(before, t, *game_settings, *self, false, messages@));
        }
        (false, messages)
    }
}


/// The cards of a match: those of its pool, of its players' hands, and those
/// revealed in its current round, counted as a multiset.
pub open spec fn match_cards(m: MatchState) -> Multiset<Card> {
    m.card_pool@.to_multiset()
        .add(cards_of(m.players.hand_order(), m.players.hands()))
        .add(
            match m.current_round {
                Some(r) => cards_of(r.revealed_card_stacks.key_seq(), r.revealed_card_stacks@),
                None => Multiset::empty(),
            },
        )
}

/// The hands laid out in a given order of players hold the cards of those players.
pub proof fn lemma_cards_in_hands(order: Seq<PlayerId>, hands: Map<PlayerId, Seq<Card>>)
    ensures
        cards_in_hands(order, hands).to_multiset() == cards_of(order, hands),
{
    let stacks = order.map_values(|p: PlayerId| hands[p]);
    assert forall|i: int| 0 <= i < order.len() implies #[trigger] stacks[i] == hands[order[i]] by {}
    lemma_flatten_cards_of(stacks, order, hands);
}

/// Ending a round, without ending the match, moves cards but loses and adds none: the
/// reporter's returned cards go to the pool, and the revealed cards go to the loser
/// and the pool.
pub proof fn lemma_round_end_keeps_cards(
    before: MatchState,
    t: Termination,
    settings: ActiveGameSettings,
    after: MatchState,
    won: bool,
    msgs: Seq<ServerMessage>,
)
    requires
        before.wf(),
        before.current_round is Some,
        round_end_post(before, t, settings, after, won, msgs),
        round_end_safe(t, settings, before.players.hands()),
        !won,
    ensures
        match_cards(after) == match_cards(before),
{
    broadcast use vstd::seq_lib::group_to_multiset_ensures;
    let round = before.current_round->0;
    let hands = before.players.hands();
    let keys = before.players.hand_order();
    let pool = before.card_pool@;
    let mid_hands = hands_after_report(t, settings, hands);
    let mid_pool = pool_after_report(t, settings, hands, pool);
    let revealed = flatten_stacks(round.revealed_card_stacks.stack_seq());
    before.players.lemma_hands();
    round.revealed_card_stacks.lemma_cards();
    // the report
    assert(cards_of(keys, mid_hands).add(mid_pool.to_multiset()) == cards_of(keys, hands).add(pool.to_multiset())) by {
        if t is ErrorReported && settings.cards_removed_at_correct_error_report > 0 {
            let r = t->reporter;
            let k = returned_count(t, settings, hands);
            let stack = hands[r];
            let low = stack.subrange(0, stack.len() - k);
            let top = top_cards(stack, k);
            assert(keys.contains(r));
            lemma_cards_of_insert(keys, hands, r, low);
            lemma_top_cards_multiset(stack, k);
            lemma_pushed_to_front_cards(top, pool);
            let a = cards_of(keys, mid_hands);
            let b = cards_of(keys, hands);
            assert(a.add(stack.to_multiset()) == b.add(low.to_multiset()));
            assert(mid_pool.to_multiset() == top.to_multiset().add(pool.to_multiset()));
            assert forall|x: Card| #[trigger] a.add(mid_pool.to_multiset()).count(x) == b.add(pool.to_multiset()).count(x) by {
                assert(a.add(stack.to_multiset()).count(x) == b.add(low.to_multiset()).count(x));
                assert(stack.to_multiset().count(x) == low.to_multiset().add(top.to_multiset()).count(x));
                assert(mid_pool.to_multiset().count(x) == top.to_multiset().add(pool.to_multiset()).count(x));
            }
            assert(a.add(mid_pool.to_multiset()) =~= b.add(pool.to_multiset()));
        }
    }
    // the loser's pick
    let g = loser(t)->0;
    let (picked, rest) = choose|picked: Seq<Card>, rest: Seq<Card>| {
        &&& picked.len() == picked_up_count(settings.max_cards_picked_up_when_losing, revealed.len() as int)
        &&& picked.to_multiset().add(rest.to_multiset()) == revealed.to_multiset()
        &&& after.players.hands() == mid_hands.insert(g, picked + mid_hands[g])
        &&& after.card_pool@ == pushed_to_front(rest, mid_pool)
    };
    assert(mid_hands.dom() =~= hands.dom());
    assert(keys.contains(g));
    lemma_cards_of_insert(keys, mid_hands, g, picked + mid_hands[g]);
    vstd::seq_lib::lemma_multiset_commutative(picked, mid_hands[g]);
    lemma_pushed_to_front_cards(rest, mid_pool);
    let c = cards_of(keys, mid_hands);
    assert(cards_of(keys, after.players.hands()).add(mid_hands[g].to_multiset())
        == c.add(picked.to_multiset().add(mid_hands[g].to_multiset())));
    let h2 = cards_of(keys, after.players.hands());
    let mg = mid_hands[g].to_multiset();
    assert forall|x: Card| #[trigger] h2.count(x) == c.add(picked.to_multiset()).count(x) by {
        assert(h2.add(mg).count(x) == c.add(picked.to_multiset().add(mg)).count(x));
    }
    assert(h2 =~= c.add(picked.to_multiset()));
    let rc = cards_of(round.revealed_card_stacks.key_seq(), round.revealed_card_stacks@);
    assert(revealed.to_multiset() == rc);
    assert(after.card_pool@.to_multiset() == rest.to_multiset().add(mid_pool.to_multiset()));
    assert(match_cards(after) == after.card_pool@.to_multiset().add(h2).add(Multiset::empty()));
    assert(match_cards(before) == pool.to_multiset().add(cards_of(keys, hands)).add(rc));
    assert forall|x: Card| #[trigger] match_cards(after).count(x) == match_cards(before).count(x) by {
        assert(c.add(mid_pool.to_multiset()).count(x) == cards_of(keys, hands).add(pool.to_multiset()).count(x));
        assert(picked.to_multiset().add(rest.to_multiset()).count(x) == revealed.to_multiset().count(x));
    }
    assert(match_cards(after) =~= match_cards(before));
}

/// All the cards of the hands, hand after hand in the given order of players.
pub open spec fn cards_in_hands(order: Seq<PlayerId>, hands: Map<PlayerId, Seq<Card>>) -> Seq<Card> {
    flatten_stacks(order.map_values(|p: PlayerId| hands[p]))
}

impl MatchState {
    /// Deals `n_cards_per_player` cards from a fresh shuffled pool to each player of
    /// the lobby, in the order of their ids; returns Err(()) if too many cards per
    /// player.
    pub fn new(lobby_players: &LobbyPlayers, n_cards_per_player: usize) -> (r: Result<Self, ()>)
        requires
            lobby_players.wf(),
        ensures
            r is Err <==> 61 < n_cards_per_player * lobby_players.entries().len(),
            r matches Ok(m) ==> {
                &&& m.wf()
                &&& m.players.order() == lobby_players.ids()
                &&& m.players.hand_order() == lobby_players.ids()
                &&& forall|i: int| 0 <= i < lobby_players.ids().len()
                    ==> (#[trigger] m.players.hands()[lobby_players.ids()[i]]).len() == n_cards_per_player
                &&& m.players.hands().dom() == lobby_players.ids().to_set()
                &&& m.card_pool@.len() == 61 - n_cards_per_player * lobby_players.entries().len()
                &&& m.card_pool@.to_multiset().add(cards_in_hands(m.players.hand_order(), m.players.hands()).to_multiset())
                    == standard_deck().to_multiset()
                &&& m.previous_rounds@.len() == 0
                &&& m.current_round is None
                &&& m.match_termination is None
            },
    {
        let mut card_pool = CardPool::new();
        let needed = match n_cards_per_player.checked_mul(lobby_players.len()) {
            Some(needed) => needed,
            None => {
                return Err(());
            },
        };
        if card_pool.n_cards() < needed {
            return Err(());
        }
        let order = lobby_players.players();
        let ghost ids = lobby_players.ids();
        let ghost deck = standard_deck();
        let mut hands = PlayerCards::new();
        proof {
            broadcast use vstd::seq_lib::group_to_multiset_ensures;
            assert(order@.map_values(|p: PlayerId| hands@[p]).take(0) =~= Seq::<Seq<Card>>::empty());
            assert(flatten_stacks(Seq::<Seq<Card>>::empty()) =~= Seq::<Card>::empty());
            assert(Seq::<Card>::empty().to_multiset() =~= Multiset::<Card>::empty());
            assert(card_pool@.to_multiset().add(Multiset::empty()) =~= card_pool@.to_multiset());
            assert(n_cards_per_player * 0 == 0);
            assert(ids.take(0) =~= Seq::<PlayerId>::empty());
        }
        for i in 0..order.len()
            invariant
                order@ == ids,
                ids == lobby_players.ids(),
                deck == standard_deck(),
                lobby_players.wf(),
                n_cards_per_player * ids.len() <= card_pool@.len() + n_cards_per_player * i,
                card_pool@.len() + n_cards_per_player * i == 61,
                n_cards_per_player * ids.len() <= 61,
                hands.wf(),
                hands.key_seq() == ids.take(i as int),
                forall|j: int| 0 <= j < i ==> (#[trigger] hands@[ids[j]]).len() == n_cards_per_player,
                card_pool@.to_multiset().add(cards_in_hands(hands.key_seq(), hands@).to_multiset()) == deck.to_multiset(),
        {
            proof {
                assert(n_cards_per_player * (i + 1) <= n_cards_per_player * ids.len()) by (nonlinear_arith)
                    requires i + 1 <= ids.len();
                hands.lemma_keys();
                assert(!hands@.contains_key(ids[i as int])) by {
                    if hands@.contains_key(ids[i as int]) {
                        assert(hands.key_seq().contains(ids[i as int]));
                        let j = choose|j: int| 0 <= j < hands.key_seq().len() && hands.key_seq()[j] == ids[i as int];
                        assert(ids.take(i as int)[j] == ids[j]);
                        assert(lobby_players.entries()[j].0 == ids[j]);
                        assert(lobby_players.entries()[i as int].0 == ids[i as int]);
                        assert(ids[j].0 < ids[i as int].0);
                    }
                }
            }
            let ghost pool_before = card_pool@;
            let ghost hands_before = hands@;
            let ghost keys_before = hands.key_seq();
            assert(n_cards_per_player <= pool_before.len()) by (nonlinear_arith)
                requires
                    n_cards_per_player * ids.len() <= pool_before.len() + n_cards_per_player * i,
                    i + 1 <= ids.len(),
            {
                assert(n_cards_per_player * (i + 1) <= n_cards_per_player * ids.len());
                assert(n_cards_per_player * (i + 1) == n_cards_per_player * i + n_cards_per_player);
            }
            let cards = card_pool.take_cards(n_cards_per_player);
            proof {
                lemma_top_cards_multiset(pool_before, n_cards_per_player as int);
            }
            let ghost taken = cards@;
            let _ = hands.insert(order[i], cards);
            proof {
                assert(hands.key_seq() =~= ids.take(i + 1));
                let stacks_before = keys_before.map_values(|p: PlayerId| hands_before[p]);
                let stacks_after = hands.key_seq().map_values(|p: PlayerId| hands@[p]);
                assert(stacks_after.drop_last() =~= stacks_before) by {
                    assert forall|j: int| 0 <= j < stacks_before.len() implies stacks_after[j] == stacks_before[j] by {
                        assert(keys_before[j] != ids[i as int]);
                    }
                }
                assert(stacks_after.last() == taken);
                vstd::seq_lib::lemma_multiset_commutative(flatten_stacks(stacks_before), taken);
                assert forall|j: int| 0 <= j < i + 1 implies (#[trigger] hands@[ids[j]]).len() == n_cards_per_player by {
                    if j < i {
                        assert(lobby_players.entries()[j].0 == ids[j]);
                        assert(lobby_players.entries()[i as int].0 == ids[i as int]);
                        assert(ids[j] != ids[i as int]);
                    }
                }
                assert(card_pool@.to_multiset().add(cards_in_hands(hands.key_seq(), hands@).to_multiset())
                    =~= deck.to_multiset());
                assert(n_cards_per_player * (i + 1) == n_cards_per_player * i + n_cards_per_player) by (nonlinear_arith);
                assert(card_pool@.len() == pool_before.len() - n_cards_per_player);
            }
        }
        proof {
            assert(ids.take(ids.len() as int) =~= ids);
            assert(hands.key_seq().no_duplicates());
            hands.key_seq().unique_seq_to_set();
            assert(hands@.dom() =~= ids.to_set()) by {
                hands.lemma_keys();
            }
            assert(forall|j: int| 0 <= j < order@.len() ==> hands@.contains_key(#[trigger] order@[j]));
        }
        Ok(MatchState {
            card_pool,
            players: MatchPlayers::new(order, hands),
            previous_rounds: Vec::new(),
            current_round: None,
            match_termination: None,
        })
    }
}

/// What ending the current round of a match does: see `MatchState::round_terminated`.
pub open spec fn round_end_post(
    before: MatchState,
    t: Termination,
    settings: ActiveGameSettings,
    after: MatchState,
    won: bool,
    msgs: Seq<ServerMessage>,
) -> bool {
    &&& before.current_round is None ==> !won && msgs.len() == 0 && after == before
    &&& before.current_round matches Some(round) ==> {
        let hands = before.players.hands();
        let pool = before.card_pool@;
        let mid_hands = hands_after_report(t, settings, hands);
        let mid_pool = pool_after_report(t, settings, hands, pool);
        let revealed = flatten_stacks(round.revealed_card_stacks.stack_seq());
        let k = returned_count(t, settings, hands);
        &&& after.current_round is None
        &&& after.previous_rounds@.len() == before.previous_rounds@.len() + 1
        &&& after.previous_rounds@.drop_last() == before.previous_rounds@
        &&& after.previous_rounds@.last().round_termination matches Some(ft) && ft@ == t
        &&& after.previous_rounds@.last().player_actions == round.player_actions
        &&& after.previous_rounds@.last().revealed_card_stacks == round.revealed_card_stacks
        &&& after.previous_rounds@.last().starting_player == round.starting_player
        &&& after.previous_rounds@.last().active_effects == round.active_effects
        &&& after.previous_rounds@.last().action_chain == round.action_chain
        &&& after.players.order() == before.players.order()
        &&& after.players.hand_order() == before.players.hand_order()
        &&& msgs.len() >= 2
        &&& msgs[0] matches ServerMessage::RoundEnded(et) && et@ == t
        &&& (t is ErrorReported && k > 0) ==> (msgs[1] matches ServerMessage::PlayerGotRidOfCardsToPool { player_id, n_cards }
                && player_id == t->reporter && n_cards == k)
        &&& t is PlayerWonMatch ==> won && after.match_termination == Some(MatchTerminationType::PlayerWonMatch(t->PlayerWonMatch_0))
                && msgs.len() == 2 && msgs[1] == ServerMessage::MatchEnded(MatchTerminationType::PlayerWonMatch(t->PlayerWonMatch_0))
                && after.players.hands() == hands && after.card_pool@ == pool
        &&& !(t is PlayerWonMatch) ==> {
            let g = loser(t)->0;
            &&& !won
            &&& after.match_termination == before.match_termination
            &&& msgs.len() == if t is ErrorReported && k > 0 { 3int } else { 2int }
            &&& msgs.last() == ServerMessage::PlayerPickedUpRevealedCards {
                player_id: g,
                n_cards: picked_up_count(settings.max_cards_picked_up_when_losing, revealed.len() as int) as usize,
            }
            &&& exists|picked: Seq<Card>, rest: Seq<Card>| {
                &&& picked.len() == picked_up_count(settings.max_cards_picked_up_when_losing, revealed.len() as int)
                &&& picked.to_multiset().add(rest.to_multiset()) == revealed.to_multiset()
                &&& after.players.hands() == mid_hands.insert(g, picked + mid_hands[g])
                &&& after.card_pool@ == pushed_to_front(rest, mid_pool)
            }
        }
    }
}

/// The loser of a round that does not end the match picks up as many of the
/// revealed cards as the limit allows: all of them when there is no limit, else the
/// limit or all of them, whichever is fewer. The message says that number, and the
/// loser's hand grows by it.
pub proof fn lemma_loser_picks_up_up_to_the_limit(
    before: MatchState,
    t: Termination,
    settings: ActiveGameSettings,
    after: MatchState,
    won: bool,
    msgs: Seq<ServerMessage>,
)
    requires
        round_end_post(before, t, settings, after, won, msgs),
        before.current_round is Some,
        !(t is PlayerWonMatch),
    ensures
        ({
            let round = before.current_round->0;
            let n = flatten_stacks(round.revealed_card_stacks.stack_seq()).len() as int;
            let expected = match settings.max_cards_picked_up_when_losing {
                MaxCardsPickedUpWhenLosing::Finite(k) => if (k as int) < n { k as int } else { n },
                MaxCardsPickedUpWhenLosing::Unlimited => n,
            };
            let g = loser(t)->0;
            let mid = hands_after_report(t, settings, before.players.hands());
            &&& msgs.last() == ServerMessage::PlayerPickedUpRevealedCards { player_id: g, n_cards: expected as usize }
            &&& after.players.hands()[g].len() == mid[g].len() + expected
            &&& after.card_pool@.len() == pool_after_report(t, settings, before.players.hands(), before.card_pool@).len() + n - expected
        }),
{
    let round = before.current_round->0;
    let revealed = flatten_stacks(round.revealed_card_stacks.stack_seq());
    let hands = before.players.hands();
    let mid_hands = hands_after_report(t, settings, hands);
    let mid_pool = pool_after_report(t, settings, hands, before.card_pool@);
    let g = loser(t)->0;
    let (picked, rest) = choose|picked: Seq<Card>, rest: Seq<Card>| {
        &&& picked.len() == picked_up_count(settings.max_cards_picked_up_when_losing, revealed.len() as int)
        &&& picked.to_multiset().add(rest.to_multiset()) == revealed.to_multiset()
        &&& after.players.hands() == mid_hands.insert(g, picked + mid_hands[g])
        &&& after.card_pool@ == pushed_to_front(rest, mid_pool)
    };
    assert(after.players.hands()[g] == picked + mid_hands[g]);
    // the revealed cards are split between those picked up and the rest
    picked.to_multiset_ensures();
    rest.to_multiset_ensures();
    revealed.to_multiset_ensures();
    assert(picked.len() + rest.len() == revealed.len()) by {
        assert(picked.to_multiset().add(rest.to_multiset()).len() == picked.to_multiset().len() + rest.to_multiset().len());
    }
}

/// The position at which `p` first occurs in `s`.
pub open spec fn first_position(s: Seq<PlayerId>, p: PlayerId) -> int {
    choose|i: int| 0 <= i < s.len() && s[i] == p && forall|j: int| 0 <= j < i ==> s[j] != p
}

/// The players of a match in their order, and each player's hand.
pub struct MatchPlayers {
    /// all match players in order
    players: Vec<PlayerId>,
    hands: PlayerCards,
}

impl MatchPlayers {
    /// The players, in their order.
    pub closed spec fn order(self) -> Seq<PlayerId> {
        self.players@
    }

    /// Each player's hand; the top of a hand is its last card.
    pub closed spec fn hands(self) -> Map<PlayerId, Seq<Card>> {
        self.hands@
    }

    /// The players that hold a hand, in the order they were given one.
    pub closed spec fn hand_order(self) -> Seq<PlayerId> {
        self.hands.key_seq()
    }

    pub closed spec fn wf(self) -> bool {
        self.hands.wf()
    }

    /// The players with a hand are those of `hand_order`, each once.
    pub proof fn lemma_hands(self)
        requires
            self.wf(),
        ensures
            forall|p: PlayerId| #[trigger] self.hands().contains_key(p) <==> self.hand_order().contains(p),
            self.hand_order().no_duplicates(),
    {
        self.hands.lemma_keys();
        self.hands.lemma_cards();
    }

    /// Panics (as a critical bug) unless every player has a hand and there are as many
    /// hands as players.
    pub fn new(player_order: Vec<PlayerId>, hands: PlayerCards) -> (r: Self)
        requires
            hands.wf(),
            hands@.len() == player_order@.len(),
            forall|i: int| 0 <= i < player_order@.len() ==> hands@.contains_key(#[trigger] player_order@[i]),
        ensures
            r.wf(),
            r.order() == player_order@,
            r.hands() == hands@,
            r.hand_order() == hands.key_seq(),
    {
        MatchPlayers { players: player_order, hands }
    }

    /// the number of players
    pub fn n_players(&self) -> (n: usize)
        ensures
            n == self.order().len(),
    {
        self.players.len()
    }

    /// The players, in their order.
    pub fn get_player_vec(&self) -> (r: &Vec<PlayerId>)
        ensures
            r@ == self.order(),
    {
        &self.players
    }

    /// The player at a position of the order.
    pub fn get(&self, index: usize) -> (r: Option<&PlayerId>)
        ensures
            index < self.order().len() ==> r == Some(&self.order()[index as int]),
            index >= self.order().len() ==> r is None,
    {
        if index < self.players.len() {
            Some(&self.players[index])
        } else {
            None
        }
    }

    /// A player's hand, if the player has one.
    pub fn get_hand(&self, player: &PlayerId) -> (r: Option<&Vec<Card>>)
        requires
            self.wf(),
        ensures
            r is None <==> !self.hands().contains_key(*player),
            r matches Some(v) ==> v@ == self.hands()[*player],
    {
        self.hands.get(player)
    }

    /// take a card from highest up in their card stack
    pub fn take_card(&mut self, player: &PlayerId) -> (r: Option<Card>)
        requires
            old(self).wf(),
            old(self).hands().contains_key(*player),
        ensures
            final(self).wf(),
            final(self).order() == old(self).order(),
            final(self).hand_order() == old(self).hand_order(),
            old(self).hands()[*player].len() == 0 ==> r is None && final(self).hands() == old(self).hands(),
            old(self).hands()[*player].len() > 0 ==> r == Some(old(self).hands()[*player].last())
                && final(self).hands() == old(self).hands().insert(*player, old(self).hands()[*player].drop_last()),
    {
        self.hands.pop_card(player)
    }

    /// take n cards from highest up in their card stack. If not enough cards exist, the ones that do still are retrieved
    pub fn take_cards(&mut self, player: &PlayerId, n_cards: usize) -> (cards: Vec<Card>)
        requires
            old(self).wf(),
            old(self).hands().contains_key(*player),
        ensures
            final(self).wf(),
            final(self).order() == old(self).order(),
            final(self).hand_order() == old(self).hand_order(),
            cards@.len() == min_nat(n_cards as int, old(self).hands()[*player].len() as int),
            cards@ == top_cards(old(self).hands()[*player], cards@.len() as int),
            final(self).hands() == old(self).hands().insert(
                *player,
                old(self).hands()[*player].subrange(0, old(self).hands()[*player].len() - cards@.len()),
            ),
    {
        self.hands.take_cards(player, n_cards)
    }

    /// Puts cards at the bottom of a player's hand, below the cards already there.
    pub fn add_cards_to_hand(&mut self, player: &PlayerId, cards: Vec<Card>)
        requires
            old(self).wf(),
            old(self).hands().contains_key(*player),
        ensures
            final(self).wf(),
            final(self).order() == old(self).order(),
            final(self).hand_order() == old(self).hand_order(),
            final(self).hands() == old(self).hands().insert(*player, cards@ + old(self).hands()[*player]),
    {
        self.hands.put_under(player, cards)
    }

    /// Each player that holds a hand, with the size of that hand, in the order the
    /// hands were given.
    pub fn hand_sizes(&self) -> (r: Vec<(PlayerId, usize)>)
        requires
            self.wf(),
        ensures
            r@.len() == self.hand_order().len(),
            forall|i: int| 0 <= i < r@.len() ==> (#[trigger] r@[i]).0 == self.hand_order()[i]
                && r@[i].1 == self.hands()[self.hand_order()[i]].len(),
    {
        self.hands.sizes()
    }

    /// get the index of a player
    pub fn get_index(&self, player: &PlayerId) -> (r: Option<usize>)
        ensures
            r is None <==> !self.order().contains(*player),
            r matches Some(i) ==> i < self.order().len() && self.order()[i as int] == *player
                && i == first_position(self.order(), *player),
    {
        let mut i: usize = 0;
        while i < self.players.len()
            invariant
                i <= self.players@.len(),
                forall|j: int| 0 <= j < i ==> self.players@[j] != *player,
            decreases self.players@.len() - i,
        {
            if self.players[i] == *player {
                proof {
                    let k = first_position(self.order(), *player);
                    assert(0 <= i < self.order().len() && self.order()[i as int] == *player
                        && forall|j: int| 0 <= j < i ==> self.order()[j] != *player);
                    if k != i {
                        assert(k < i ==> self.order()[k] != *player);
                    }
                }
                return Some(i);
            }
            i += 1;
        }
        None
    }

    /// returns (false, index) if the player already exists at a certain index,
    /// else (true, index) if the player was just inserted at a certain index.
    pub fn add_player(&mut self, player: PlayerId, hand: Vec<Card>) -> (r: (bool, usize))
        requires
            old(self).wf(),
        ensures
            final(self).wf(),
            old(self).order().contains(player) ==> !r.0 && r.1 == first_position(old(self).order(), player)
                && *final(self) == *old(self),
            !old(self).order().contains(player) ==> r.0 && r.1 == old(self).order().len()
                && final(self).order() == old(self).order().push(player)
                && final(self).hands() == old(self).hands().insert(player, hand@),
    {
        if let Some(index) = self.get_index(&player) {
            return (false, index);
        }
        self.players.push(player);
        self.hands.insert(player, hand);
        (true, self.players.len() - 1)
    }

    /// returns their card hands if the player was removed, and None if they
    /// don't exist in the set
    pub fn remove_player(&mut self, player: &PlayerId) -> (r: Option<Vec<Card>>)
        requires
            old(self).wf(),
        ensures
            final(self).wf(),
            final(self).order() == others(old(self).order(), *player),
            final(self).hands() == old(self).hands().remove(*player),
            final(self).hand_order() == others(old(self).hand_order(), *player),
            r is Some <==> old(self).hands().contains_key(*player),
            r matches Some(v) ==> v@ == old(self).hands()[*player],
    {
        let mut kept: Vec<PlayerId> = Vec::new();
        let ghost pl = *player;
        for i in 0..self.players.len()
            invariant
                pl == *player,
                kept@ == others(self.players@.subrange(0, i as int), pl),
        {
            let ghost prefix = self.players@.subrange(0, i + 1);
            proof {
                assert(prefix =~= self.players@.subrange(0, i as int).push(self.players@[i as int]));
                crate::player_cards::lemma_others_push(self.players@.subrange(0, i as int), pl, self.players@[i as int]);
            }
            let candidate = self.players[i];
            if !(candidate == *player) {
                kept.push(candidate);
            }
        }
        proof {
            assert(self.players@.subrange(0, self.players@.len() as int) =~= self.players@);
        }
        self.players = kept;
        self.hands.remove(player)
    }
}

} // verus!
