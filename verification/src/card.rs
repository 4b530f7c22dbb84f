use vstd::arithmetic::div_mod::{lemma_fundamental_div_mod, lemma_fundamental_div_mod_converse};
use vstd::prelude::*;

use crate::error::GameError;

verus! {

/// One of the four suits. Each suit has a fixed "reverse" partner
/// (Spade-Club, Heart-Diamond) used by the reverse-jack rule.
#[derive(Debug, Clone, Copy, PartialEq, Eq, Hash, Structural)]
pub enum Suit {
    Spade,
    Heart,
    Diamond,
    Club,
}

impl Suit {
    /// The position of this suit in the canonical order, the high digit of a card id.
    pub open spec fn index(self) -> int {
        match self {
            Suit::Spade => 0,
            Suit::Heart => 1,
            Suit::Diamond => 2,
            Suit::Club => 3,
        }
    }

    pub open spec fn spec_reverse(&self) -> Suit {
        match self {
            Suit::Spade => Suit::Club,
            Suit::Heart => Suit::Diamond,
            Suit::Diamond => Suit::Heart,
            Suit::Club => Suit::Spade,
        }
    }

    /// The cyclically paired partner suit.
    #[verifier::when_used_as_spec(spec_reverse)]
    pub fn reverse(&self) -> (r: Self)
        ensures
            r == self.spec_reverse(),
    {
        match self {
            Suit::Spade => Suit::Club,
            Suit::Heart => Suit::Diamond,
            Suit::Diamond => Suit::Heart,
            Suit::Club => Suit::Spade,
        }
    }
}

/// A playing card: a rank in [1, 13] (1 = Ace, 11 = Jack, 12 = Queen,
/// 13 = King) together with a suit.
#[derive(Debug, Clone, Copy, PartialEq, Eq, Hash, Structural)]
pub struct Card {
    pub number: u8,
    pub suit: Suit,
}

/// The card whose canonical identifier is `id`, for `id` in [1, 52].
pub open spec fn spec_card_of_id(id: int) -> Card {
    let q = (id - 1) / 13;
    Card {
        number: (((id - 1) % 13) + 1) as u8,
        suit: if q == 0 {
            Suit::Spade
        } else if q == 1 {
            Suit::Heart
        } else if q == 2 {
            Suit::Diamond
        } else {
            Suit::Club
        },
    }
}

impl Card {
    /// A well-formed card has its rank in [1, 13].
    pub open spec fn valid(self) -> bool {
        1 <= self.number <= 13
    }

    /// The canonical identifier: a bijection from valid cards onto [1, 52].
    pub open spec fn id(self) -> int {
        self.suit.index() * 13 + self.number
    }

    pub open spec fn spec_is_almighty(&self) -> bool {
        self.number == 1 && self.suit is Spade
    }

    pub open spec fn spec_is_yoromeki(&self) -> bool {
        self.number == 12 && self.suit is Heart
    }

    pub open spec fn spec_is_face(&self) -> bool {
        self.number == 1 || self.number >= 10
    }

    /// The card that the identifier `id` denotes; ids outside [1, 52] are rejected.
    pub fn from_id(id: u8) -> (r: Result<Card, GameError>)
        ensures
            1 <= id <= 52 ==> r == Ok::<Card, GameError>(spec_card_of_id(id as int)),
            !(1 <= id <= 52) ==> r == Err::<Card, GameError>(GameError::InvalidCardId),
    {
        if id < 1 || id > 52 {
            return Err(GameError::InvalidCardId);
        }
        let number = ((id - 1) % 13) + 1;
        let q = (id - 1) / 13;
        let suit = if q == 0 {
            Suit::Spade
        } else if q == 1 {
            Suit::Heart
        } else if q == 2 {
            Suit::Diamond
        } else {
            Suit::Club
        };
        Ok(Card { number, suit })
    }

    /// The canonical identifier of this card.
    pub fn to_id(&self) -> (r: u8)
        requires
            self.valid(),
        ensures
            r == self.id(),
    {
        let suit_num: u8 = match self.suit {
            Suit::Spade => 0,
            Suit::Heart => 1,
            Suit::Diamond => 2,
            Suit::Club => 3,
        };
        (suit_num * 13) + self.number
    }

    /// The Ace of Spades, normally the highest-ranking card of the game.
    #[verifier::when_used_as_spec(spec_is_almighty)]
    pub fn is_almighty(&self) -> (r: bool)
        ensures
            r == self.spec_is_almighty(),
    {
        (self.number == 1) && (self.suit == Suit::Spade)
    }

    /// The Queen of Hearts, which outranks the almighty when both are in play.
    #[verifier::when_used_as_spec(spec_is_yoromeki)]
    pub fn is_yoromeki(&self) -> (r: bool)
        ensures
            r == self.spec_is_yoromeki(),
    {
        (self.number == 12) && (self.suit == Suit::Heart)
    }

    /// A capturable card (Ace or rank 10 and above) whose count feeds scoring.
    #[verifier::when_used_as_spec(spec_is_face)]
    pub fn is_face(&self) -> (r: bool)
        ensures
            r == self.spec_is_face(),
    {
        (self.number == 1) || (self.number >= 10)
    }
}

/// The identifier mapping hits every valid card: for each id in [1, 52] the
/// denoted card is well formed and maps back to the same id.
pub proof fn lemma_id_round_trip(id: int)
    requires
        1 <= id <= 52,
    ensures
        spec_card_of_id(id).valid(),
        spec_card_of_id(id).id() == id,
{
    let q = (id - 1) / 13;
    let r = (id - 1) % 13;
    lemma_fundamental_div_mod(id - 1, 13);
    assert(id - 1 == 13 * q + r);
}

/// The identifier mapping is injective on valid cards: every well-formed card
/// has its id in [1, 52] and is recovered from it.
pub proof fn lemma_card_round_trip(c: Card)
    requires
        c.valid(),
    ensures
        1 <= c.id() <= 52,
        spec_card_of_id(c.id()) == c,
{
    let s = c.suit.index();
    lemma_fundamental_div_mod_converse(c.id() - 1, 13, s, c.number - 1);
}

/// A 10-card hand as dealt to one player.
pub type Hands = Vec<Card>;

} // verus!
