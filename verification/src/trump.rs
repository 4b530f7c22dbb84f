use vstd::arithmetic::div_mod::{lemma_fundamental_div_mod, lemma_fundamental_div_mod_converse};
use vstd::prelude::*;

use crate::error::GameError;

verus! {

/// The suit of a `Trump`, with the same cyclic "reverse" pairing as the
/// card model's suit.
#[derive(Debug, Clone, Copy, PartialEq, Eq, Structural)]
pub enum Suit {
    Spade,
    Heart,
    Diamond,
    Club,
}

impl Suit {
    /// The position of this suit in the canonical order.
    pub open spec fn index(self) -> int {
        match self {
            Suit::Spade => 0,
            Suit::Heart => 1,
            Suit::Diamond => 2,
            Suit::Club => 3,
        }
    }

    pub open spec fn spec_reverse(&self) -> Suit {
        match self {
            Suit::Spade => Suit::Club,
            Suit::Heart => Suit::Diamond,
            Suit::Diamond => Suit::Heart,
            Suit::Club => Suit::Spade,
        }
    }

    /// The cyclically paired partner suit.
    #[verifier::when_used_as_spec(spec_reverse)]
    pub fn reverse(&self) -> (r: Self)
        ensures
            r == self.spec_reverse(),
    {
        match self {
            Suit::Spade => Suit::Club,
            Suit::Heart => Suit::Diamond,
            Suit::Diamond => Suit::Heart,
            Suit::Club => Suit::Spade,
        }
    }
}

/// A rank-and-suit pair under the same canonical [1, 52] identifier mapping
/// as `Card`.
#[derive(Debug, Clone, Copy, PartialEq, Eq, Structural)]
pub struct Trump {
    pub number: u8,
    pub suit: Suit,
}

/// The trump whose canonical identifier is `id`, for `id` in [1, 52].
pub open spec fn spec_trump_of_id(id: int) -> Trump {
    let q = (id - 1) / 13;
    Trump {
        number: (((id - 1) % 13) + 1) as u8,
        suit: if q == 0 {
            Suit::Spade
        } else if q == 1 {
            Suit::Heart
        } else if q == 2 {
            Suit::Diamond
        } else {
            Suit::Club
        },
    }
}

impl Trump {
    /// A well-formed trump has its rank in [1, 13].
    pub open spec fn valid(self) -> bool {
        1 <= self.number <= 13
    }

    /// The canonical identifier: a bijection from valid trumps onto [1, 52].
    pub open spec fn id(self) -> int {
        self.suit.index() * 13 + self.number
    }

    pub open spec fn spec_is_almighty(&self) -> bool {
        self.number == 1 && self.suit is Spade
    }

    pub open spec fn spec_is_yoromeki(&self) -> bool {
        self.number == 12 && self.suit is Heart
    }

    pub open spec fn spec_is_face(&self) -> bool {
        self.number == 1 || self.number >= 10
    }

    /// The trump that the identifier `id` denotes; ids outside [1, 52] are rejected.
    pub fn from_id(id: u8) -> (r: Result<Self, GameError>)
        ensures
            1 <= id <= 52 ==> r == Ok::<Trump, GameError>(spec_trump_of_id(id as int)),
            !(1 <= id <= 52) ==> r == Err::<Trump, GameError>(GameError::InvalidCardId),
    {
        if id < 1 || id > 52 {
            return Err(GameError::InvalidCardId);
        }
        let number = ((id - 1) % 13) + 1;
        let q = (id - 1) / 13;
        let suit = if q == 0 {
            Suit::Spade
        } else if q == 1 {
            Suit::Heart
        } else if q == 2 {
            Suit::Diamond
        } else {
            Suit::Club
        };
        Ok(Trump { number, suit })
    }

    /// The canonical identifier of this trump.
    pub fn to_id(&self) -> (r: u8)
        requires
            self.valid(),
        ensures
            r == self.id(),
    {
        let suit_num: u8 = match self.suit {
            Suit::Spade => 0,
            Suit::Heart => 1,
            Suit::Diamond => 2,
            Suit::Club => 3,
        };
        (suit_num * 13) + self.number
    }

    /// The Ace of Spades.
    #[verifier::when_used_as_spec(spec_is_almighty)]
    pub fn is_almighty(&self) -> (r: bool)
        ensures
            r == self.spec_is_almighty(),
    {
        (self.number == 1) && (self.suit == Suit::Spade)
    }

    /// The Queen of Hearts.
    #[verifier::when_used_as_spec(spec_is_yoromeki)]
    pub fn is_yoromeki(&self) -> (r: bool)
        ensures
            r == self.spec_is_yoromeki(),
    {
        (self.number == 12) && (self.suit == Suit::Heart)
    }

    /// A capturable card: Ace or rank 10 and above.
    #[verifier::when_used_as_spec(spec_is_face)]
    pub fn is_face(&self) -> (r: bool)
        ensures
            r == self.spec_is_face(),
    {
        (self.number == 1) || (self.number >= 10)
    }
}

/// Identifier round trip, id first: each id in [1, 52] denotes a well-formed
/// trump that maps back to the same id.
pub proof fn lemma_trump_id_round_trip(id: int)
    requires
        1 <= id <= 52,
    ensures
        spec_trump_of_id(id).valid(),
        spec_trump_of_id(id).id() == id,
{
    let q = (id - 1) / 13;
    let r = (id - 1) % 13;
    lemma_fundamental_div_mod(id - 1, 13);
    assert(id - 1 == 13 * q + r);
}

/// Identifier round trip, trump first: every well-formed trump has its id in
/// [1, 52] and is recovered from it.
pub proof fn lemma_trump_round_trip(t: Trump)
    requires
        t.valid(),
    ensures
        1 <= t.id() <= 52,
        spec_trump_of_id(t.id()) == t,
{
    let s = t.suit.index();
    lemma_fundamental_div_mod_converse(t.id() - 1, 13, s, t.number - 1);
}

} // verus!
