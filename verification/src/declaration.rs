use vstd::prelude::*;

use crate::card::{Card, Suit};
use crate::error::GameError;
use crate::player::Player;

verus! {

/// The accepted bid of a round: the declaring Napoleon, an optional trump
/// suit (`None` = no-trump), a target number of face cards in [13, 20], and
/// the aide card whose holder becomes the Aide.
#[derive(Debug)]
pub struct Declaration {
    pub napoleon: Player,
    pub suit: Option<Suit>,
    pub number: usize,
    pub aide: Card,
}

impl Declaration {
    /// The target number always lies in [13, 20].
    pub open spec fn wf(&self) -> bool {
        13 <= self.number <= 20
    }

    /// Validates a bid: the target number must lie in [13, 20], anything
    /// else is rejected.
    pub fn new(napoleon: Player, suit: Option<Suit>, number: usize, aide: Card) -> (r: Result<
        Self,
        GameError,
    >)
        ensures
            13 <= number <= 20 ==> (r matches Ok(d) && d.napoleon == napoleon && d.suit == suit
                && d.number == number && d.aide == aide && d.wf()),
            !(13 <= number <= 20) ==> (r matches Err(e) && e == GameError::InvalidDeclarationNumber),
    {
        if !(number > 12 && number < 21) {
            return Err(GameError::InvalidDeclarationNumber);
        }
        Ok(Declaration { napoleon, suit, number, aide })
    }

    /// The bid's base value: how far the target exceeds the half of the
    /// twenty face cards that falls to the Napoleon side by default.
    pub fn base_score(&self) -> (r: usize)
        requires
            self.wf(),
        ensures
            r == self.number - 12,
    {
        self.number - 12
    }
}

impl Clone for Declaration {
    fn clone(&self) -> (r: Self)
        ensures
            r == *self,
    {
        Declaration {
            napoleon: self.napoleon.clone(),
            suit: self.suit,
            number: self.number,
            aide: self.aide,
        }
    }
}

} // verus!
