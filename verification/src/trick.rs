use vstd::prelude::*;

use crate::card::Card;
use crate::error::GameError;
use crate::player::Player;

verus! {

/// One card laid on the table by one player.
#[derive(Debug)]
pub struct Play {
    pub player: Player,
    pub card: Card,
}

impl Play {
    pub fn new(player: Player, card: Card) -> (r: Self)
        ensures
            r.player == player,
            r.card == card,
    {
        Play { player, card }
    }
}

impl Clone for Play {
    fn clone(&self) -> (r: Self)
        ensures
            r == *self,
    {
        Play { player: self.player.clone(), card: self.card }
    }
}

/// A finished trick: exactly five plays in seating order.
pub type TrickArray = Vec<Play>;

/// An in-progress trick: the plays laid so far, at most five of them
/// before it can be resolved.
#[derive(Debug)]
pub struct Trick {
    pub plays: Vec<Play>,
}

impl Trick {
    /// An empty trick, awaiting its five plays.
    pub fn new() -> (r: Self)
        ensures
            r.plays@.len() == 0,
    {
        Trick { plays: Vec::new() }
    }

    /// Appends the next play.
    pub fn add(&mut self, play: Play)
        ensures
            final(self).plays@ == old(self).plays@.push(play),
    {
        self.plays.push(play);
    }

    /// The player who laid the most recent play, if any.
    pub fn last_player(&self) -> (r: Option<Player>)
        ensures
            self.plays@.len() == 0 ==> r is None,
            self.plays@.len() > 0 ==> (r matches Some(p) && p == self.plays@.last().player),
    {
        match self.plays.last() {
            Some(play) => Some(play.player.clone()),
            None => None,
        }
    }

    /// The five plays of a finished trick; fails while the trick is not
    /// finished (or holds more than five plays).
    pub fn array(&self) -> (r: Result<TrickArray, GameError>)
        ensures
            self.plays@.len() == 5 ==> (r matches Ok(a) && a@ == self.plays@),
            self.plays@.len() != 5 ==> (r matches Err(e) && e == GameError::IncompleteTrick),
    {
        if self.plays.len() != 5 {
            return Err(GameError::IncompleteTrick);
        }
        Ok(clone_plays(&self.plays))
    }
}

/// A fresh vector holding the same plays in the same order.
pub fn clone_plays(v: &Vec<Play>) -> (r: Vec<Play>)
    ensures
        r@ == v@,
{
    let mut r: Vec<Play> = Vec::new();
    let mut i: usize = 0;
    while i < v.len()
        invariant
            i <= v@.len(),
            r@ == v@.take(i as int),
        decreases v@.len() - i,
    {
        r.push(v[i].clone());
        proof {
            assert(r@ =~= v@.take(i + 1 as int));
        }
        i = i + 1;
    }
    proof {
        assert(r@ =~= v@);
    }
    r
}

} // verus!
