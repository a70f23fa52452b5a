//! A player as the server knows them privately: a secret id, the public id the lobby
//! knows, and the hand of cards.
use vstd::prelude::*;

use crate::card::{Card, Time};
use crate::random::random_value;

verus! {

/// corresponds exactly to the session id of the user, used to authenticate
#[derive(Clone, Copy, PartialEq, Eq, Hash)]
pub struct PlayerId(u128);

/// the public id everyone in the lobby knows
pub struct PublicPlayerId(pub usize);

impl PlayerId {
    /// A new random id.
    pub fn new() -> (r: Self) {
        PlayerId(random_value::<u128>())
    }

    /// The number behind the id.
    pub closed spec fn value(self) -> u128 {
        self.0
    }
}

/// per lobby player state
pub struct PlayerState {
    pub id: PlayerId,
    pub public_id: usize,
    /// the private card hand, not the stack they've revealed
    pub card_hand: Vec<Card>,
}

impl PlayerState {
    /// A player with these ids and no cards yet.
    pub fn new(id: PlayerId, public_id: usize) -> (r: Self)
        ensures
            r.id == id,
            r.public_id == public_id,
            r.card_hand@ == Seq::<Card>::empty(),
    {
        PlayerState { id, public_id, card_hand: Vec::new() }
    }
}

/// A move of a player as the server has checked it.
#[derive(Clone, Copy)]
pub enum ValidPlayerMove {
    CountAndLayCard { card: Card, count: Time },
    Count(Time),
    LayCard(Card),
}

} // verus!
