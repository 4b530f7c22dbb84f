use vstd::prelude::*;

use crate::card::{Card, Suit};
use crate::error::GameError;
use crate::player::Player;
use crate::trick::{clone_plays, Play, Trick, TrickArray};

verus! {

/// The face cards laid in a trick, in play order.
pub open spec fn face_cards_of(plays: Seq<Play>) -> Seq<Card>
    decreases plays.len(),
{
    if plays.len() == 0 {
        Seq::empty()
    } else {
        let rest = face_cards_of(plays.drop_last());
        if plays.last().card.spec_is_face() {
            rest.push(plays.last().card)
        } else {
            rest
        }
    }
}

/// The index of the first play whose card satisfies `pred`, or -1 when none does.
pub open spec fn first_match(plays: Seq<Play>, pred: spec_fn(Card) -> bool) -> int
    decreases plays.len(),
{
    if plays.len() == 0 {
        -1
    } else if pred(plays[0].card) {
        0
    } else if first_match(plays.drop_first(), pred) == -1 {
        -1
    } else {
        1 + first_match(plays.drop_first(), pred)
    }
}

/// What `first_match` finds: -1 exactly when no play matches, and otherwise
/// the least matching index.
pub proof fn lemma_first_match(plays: Seq<Play>, pred: spec_fn(Card) -> bool)
    ensures
        first_match(plays, pred) == -1 <==> (forall|k: int|
            0 <= k < plays.len() ==> !pred(#[trigger] plays[k].card)),
        first_match(plays, pred) != -1 ==> {
            let i = first_match(plays, pred);
            &&& 0 <= i < plays.len()
            &&& pred(plays[i].card)
            &&& forall|k: int| 0 <= k < i ==> !pred(#[trigger] plays[k].card)
        },
    decreases plays.len(),
{
    if plays.len() > 0 && !pred(plays[0].card) {
        lemma_first_match(plays.drop_first(), pred);
        let rest = plays.drop_first();
        assert(forall|k: int| 1 <= k < plays.len() ==> plays[k] == rest[k - 1]);
    }
}

/// The effective strength of a card within the lead suit: the Ace counts
/// above the King, all other ranks compare numerically.
pub open spec fn eff_rank(c: Card) -> int {
    if c.number == 1 {
        14
    } else {
        c.number as int
    }
}

/// Among the first `upto` plays, the first index of the lead-suit play with
/// the greatest effective rank (the lead play when nothing else qualifies).
pub open spec fn default_winner(plays: Seq<Play>, upto: int) -> int
    decreases upto,
{
    if upto <= 1 {
        0
    } else {
        let best = default_winner(plays, upto - 1);
        if plays[upto - 1].card.suit == plays[0].card.suit && eff_rank(plays[upto - 1].card)
            > eff_rank(plays[best].card) {
            upto - 1
        } else {
            best
        }
    }
}

/// The `default_winner` index stays in range.
pub proof fn lemma_default_winner_in_range(plays: Seq<Play>, upto: int)
    requires
        upto <= plays.len(),
    ensures
        0 <= default_winner(plays, upto) < plays.len() || plays.len() == 0,
    decreases upto,
{
    if upto > 1 {
        lemma_default_winner_in_range(plays, upto - 1);
    }
}

/// What the default tier picks: a lead-suit play that no lead-suit play
/// beats on effective rank, and the first one with that rank.
pub proof fn lemma_default_winner_characterization(plays: Seq<Play>, upto: int)
    requires
        1 <= upto <= plays.len(),
    ensures
        ({
            let w = default_winner(plays, upto);
            &&& 0 <= w < upto
            &&& plays[w].card.suit == plays[0].card.suit
            &&& forall|k: int|
                0 <= k < upto && (#[trigger] plays[k].card).suit == plays[0].card.suit ==> eff_rank(
                    plays[k].card,
                ) <= eff_rank(plays[w].card)
            &&& forall|k: int|
                0 <= k < w && (#[trigger] plays[k].card).suit == plays[0].card.suit ==> eff_rank(
                    plays[k].card,
                ) < eff_rank(plays[w].card)
        }),
    decreases upto,
{
    if upto > 1 {
        lemma_default_winner_characterization(plays, upto - 1);
    }
}

/// Whether every play follows the suit of the lead play.
pub open spec fn all_same_suit(plays: Seq<Play>) -> bool {
    forall|k: int| 0 <= k < plays.len() ==> #[trigger] plays[k].card.suit == plays[0].card.suit
}

/// The first seat holding the Jack of the trump suit, -1 when there is no
/// trump or no such play.
pub open spec fn jack_index(plays: Seq<Play>, suit: Option<Suit>) -> int {
    match suit {
        Some(s) => first_match(plays, |c: Card| c.number == 11 && c.suit == s),
        None => -1,
    }
}

/// The first seat holding the Jack of the trump suit's reverse partner, -1
/// when there is no trump or no such play.
pub open spec fn rev_jack_index(plays: Seq<Play>, suit: Option<Suit>) -> int {
    match suit {
        Some(s) => first_match(plays, |c: Card| c.number == 11 && c.suit == s.spec_reverse()),
        None => -1,
    }
}

/// The winning seat of a finished trick, by the layered precedence rules:
/// the almighty wins unless the yoromeki rides along; then the trump Jack;
/// then the reverse Jack; then (after the first trick, in an all-one-suit
/// trick) the rank 2 of that suit; otherwise the strongest lead-suit card.
pub open spec fn spec_winner_index(plays: Seq<Play>, suit: Option<Suit>, n_round: u8) -> int {
    let alm = first_match(plays, |c: Card| c.spec_is_almighty());
    let yoro = first_match(plays, |c: Card| c.spec_is_yoromeki());
    if alm >= 0 {
        if yoro >= 0 {
            yoro
        } else {
            alm
        }
    } else if jack_index(plays, suit) >= 0 {
        jack_index(plays, suit)
    } else if rev_jack_index(plays, suit) >= 0 {
        rev_jack_index(plays, suit)
    } else if n_round > 1 && all_same_suit(plays) && first_match(plays, |c: Card| c.number == 2)
        >= 0 {
        first_match(plays, |c: Card| c.number == 2)
    } else {
        default_winner(plays, plays.len() as int)
    }
}

/// The winning index of a five-play trick lies among the five seats.
pub proof fn lemma_winner_index_in_range(plays: Seq<Play>, suit: Option<Suit>, n_round: u8)
    requires
        plays.len() == 5,
    ensures
        0 <= spec_winner_index(plays, suit, n_round) < 5,
{
    lemma_first_match(plays, |c: Card| c.spec_is_almighty());
    lemma_first_match(plays, |c: Card| c.spec_is_yoromeki());
    match suit {
        Some(s) => {
            lemma_first_match(plays, |c: Card| c.number == 11 && c.suit == s);
            lemma_first_match(plays, |c: Card| c.number == 11 && c.suit == s.spec_reverse());
        },
        None => {},
    }
    lemma_first_match(plays, |c: Card| c.number == 2);
    lemma_default_winner_in_range(plays, 5);
}

/// A resolved trick: the five plays, the winning player, and every face
/// card laid in the trick (all of them credited to the winner).
#[derive(Debug)]
pub struct TrickResult {
    pub trick: TrickArray,
    pub winner: Player,
    pub face_cards: Vec<Card>,
}

/// The flattened view of a trick assembled once and consumed by the rule
/// chain: the fixed play array and the face cards it holds.
struct TrickResultBuilder {
    trick: TrickArray,
    face_cards: Vec<Card>,
}

impl TrickResultBuilder {
    fn new(trick: &Trick) -> (r: Result<Self, GameError>)
        ensures
            trick.plays@.len() == 5 ==> (r matches Ok(b) && b.trick@ == trick.plays@
                && b.face_cards@ == face_cards_of(trick.plays@)),
            trick.plays@.len() != 5 ==> (r matches Err(e) && e == GameError::IncompleteTrick),
    {
        let arr = trick.array()?;
        let mut face_cards: Vec<Card> = Vec::new();
        let mut i: usize = 0;
        while i < trick.plays.len()
            invariant
                i <= trick.plays@.len(),
                face_cards@ == face_cards_of(trick.plays@.take(i as int)),
            decreases trick.plays@.len() - i,
        {
            proof {
                assert(trick.plays@.take(i + 1 as int).drop_last() =~= trick.plays@.take(i as int));
            }
            if trick.plays[i].card.is_face() {
                face_cards.push(trick.plays[i].card);
            }
            i = i + 1;
        }
        proof {
            assert(trick.plays@.take(trick.plays@.len() as int) =~= trick.plays@);
        }
        Ok(TrickResultBuilder { trick: arr, face_cards })
    }

    fn build(&self, winner_id: usize) -> (r: TrickResult)
        requires
            winner_id < self.trick@.len(),
        ensures
            r.trick@ == self.trick@,
            r.face_cards@ == self.face_cards@,
            r.winner == self.trick@[winner_id as int].player,
    {
        TrickResult {
            trick: clone_plays(&self.trick),
            face_cards: crate::player::clone_cards(&self.face_cards),
            winner: self.trick[winner_id].player.clone(),
        }
    }
}

impl TrickResult {
    /// Resolves a finished trick under the round's trump suit and the
    /// 1-based index of this trick within the round.
    pub fn new(trick: &Trick, suit: Option<Suit>, n_round: u8) -> (r: Result<Self, GameError>)
        ensures
            trick.plays@.len() == 5 ==> (r matches Ok(tr) && tr.trick@ == trick.plays@
                && tr.face_cards@ == face_cards_of(trick.plays@) && tr.winner == trick.plays@[
                spec_winner_index(trick.plays@, suit, n_round)
            ].player),
            trick.plays@.len() != 5 ==> (r matches Err(e) && e == GameError::IncompleteTrick),
    {
        let builder = TrickResultBuilder::new(trick)?;
        let ghost plays = trick.plays@;
        proof {
            lemma_winner_index_in_range(plays, suit, n_round);
        }

        // almighty, whose win the yoromeki steals when both are laid
        let almighty_id = find_almighty(&builder.trick);
        proof {
            lemma_first_match(plays, |c: Card| c.spec_is_almighty());
        }
        if let Some(id) = almighty_id {
            let yoromeki_id = find_yoromeki(&builder.trick);
            proof {
                lemma_first_match(plays, |c: Card| c.spec_is_yoromeki());
            }
            return Ok(
                match yoromeki_id {
                    Some(y) => builder.build(y),
                    None => builder.build(id),
                },
            );
        }

        // trump jack, then reverse jack
        if let Some(s) = suit {
            let jack_id = find_jack(&builder.trick, s);
            proof {
                lemma_first_match(plays, |c: Card| c.number == 11 && c.suit == s);
            }
            if let Some(i) = jack_id {
                return Ok(builder.build(i));
            }
            let rev_suit = s.reverse();
            let rev_jack_id = find_jack(&builder.trick, rev_suit);
            proof {
                lemma_first_match(plays, |c: Card| c.number == 11 && c.suit == s.spec_reverse());
            }
            if let Some(i) = rev_jack_id {
                return Ok(builder.build(i));
            }
        }

        // rank 2 of an all-one-suit trick, from the second trick on
        if n_round > 1 && is_all_same_suit(&builder.trick) {
            let two_id = find_rank(&builder.trick, 2);
            proof {
                lemma_first_match(plays, |c: Card| c.number == 2);
            }
            if let Some(id) = two_id {
                return Ok(builder.build(id));
            }
        }

        // strongest lead-suit card, the Ace above all
        let first_suit = builder.trick[0].card.suit;
        let mut winner_id: usize = 0;
        let mut i: usize = 1;
        while i < 5
            invariant
                1 <= i <= 5,
                builder.trick@.len() == 5,
                builder.trick@ == plays,
                first_suit == plays[0].card.suit,
                winner_id == default_winner(plays, i as int),
                0 <= winner_id < 5,
            decreases 5 - i,
        {
            let c = builder.trick[i].card;
            if c.suit == first_suit {
                let best = builder.trick[winner_id].card;
                let c_rank: u8 = if c.number == 1 {
                    14
                } else {
                    c.number
                };
                let best_rank: u8 = if best.number == 1 {
                    14
                } else {
                    best.number
                };
                if c_rank > best_rank {
                    winner_id = i;
                }
            }
            i = i + 1;
        }
        Ok(builder.build(winner_id))
    }
}

/// The first seat that laid the almighty, if any.
fn find_almighty(plays: &TrickArray) -> (r: Option<usize>)
    ensures
        ({
            let m = first_match(plays@, |c: Card| c.spec_is_almighty());
            match r {
                Some(i) => m == i && i < plays@.len(),
                None => m == -1,
            }
        }),
{
    proof {
        lemma_first_match(plays@, |c: Card| c.spec_is_almighty());
    }
    let mut i: usize = 0;
    while i < plays.len()
        invariant
            i <= plays@.len(),
            forall|k: int| 0 <= k < i ==> !(#[trigger] plays@[k].card).spec_is_almighty(),
        decreases plays@.len() - i,
    {
        if plays[i].card.is_almighty() {
            proof {
                lemma_first_match(plays@, |c: Card| c.spec_is_almighty());
            }
            return Some(i);
        }
        i = i + 1;
    }
    None
}

/// The first seat that laid the yoromeki, if any.
fn find_yoromeki(plays: &TrickArray) -> (r: Option<usize>)
    ensures
        ({
            let m = first_match(plays@, |c: Card| c.spec_is_yoromeki());
            match r {
                Some(i) => m == i && i < plays@.len(),
                None => m == -1,
            }
        }),
{
    proof {
        lemma_first_match(plays@, |c: Card| c.spec_is_yoromeki());
    }
    let mut i: usize = 0;
    while i < plays.len()
        invariant
            i <= plays@.len(),
            forall|k: int| 0 <= k < i ==> !(#[trigger] plays@[k].card).spec_is_yoromeki(),
        decreases plays@.len() - i,
    {
        if plays[i].card.is_yoromeki() {
            proof {
                lemma_first_match(plays@, |c: Card| c.spec_is_yoromeki());
            }
            return Some(i);
        }
        i = i + 1;
    }
    None
}

/// The first seat that laid the Jack of `s`, if any.
fn find_jack(plays: &TrickArray, s: Suit) -> (r: Option<usize>)
    ensures
        ({
            let m = first_match(plays@, |c: Card| c.number == 11 && c.suit == s);
            match r {
                Some(i) => m == i && i < plays@.len(),
                None => m == -1,
            }
        }),
{
    proof {
        lemma_first_match(plays@, |c: Card| c.number == 11 && c.suit == s);
    }
    let mut i: usize = 0;
    while i < plays.len()
        invariant
            i <= plays@.len(),
            forall|k: int|
                0 <= k < i ==> !((#[trigger] plays@[k].card).number == 11 && plays@[k].card.suit
                    == s),
        decreases plays@.len() - i,
    {
        if plays[i].card.number == 11 && plays[i].card.suit == s {
            proof {
                lemma_first_match(plays@, |c: Card| c.number == 11 && c.suit == s);
            }
            return Some(i);
        }
        i = i + 1;
    }
    None
}

/// The first seat that laid a card of rank `n`, if any.
fn find_rank(plays: &TrickArray, n: u8) -> (r: Option<usize>)
    ensures
        ({
            let m = first_match(plays@, |c: Card| c.number == n);
            match r {
                Some(i) => m == i && i < plays@.len(),
                None => m == -1,
            }
        }),
{
    proof {
        lemma_first_match(plays@, |c: Card| c.number == n);
    }
    let mut i: usize = 0;
    while i < plays.len()
        invariant
            i <= plays@.len(),
            forall|k: int| 0 <= k < i ==> (#[trigger] plays@[k].card).number != n,
        decreases plays@.len() - i,
    {
        if plays[i].card.number == n {
            proof {
                lemma_first_match(plays@, |c: Card| c.number == n);
            }
            return Some(i);
        }
        i = i + 1;
    }
    None
}

/// Whether every play follows the suit of the lead play.
fn is_all_same_suit(plays: &TrickArray) -> (r: bool)
    requires
        plays@.len() > 0,
    ensures
        r == all_same_suit(plays@),
{
    let first_suit = plays[0].card.suit;
    let mut i: usize = 0;
    while i < plays.len()
        invariant
            i <= plays@.len(),
            plays@.len() > 0,
            first_suit == plays@[0].card.suit,
            forall|k: int| 0 <= k < i ==> #[trigger] plays@[k].card.suit == plays@[0].card.suit,
        decreases plays@.len() - i,
    {
        if plays[i].card.suit != first_suit {
            return false;
        }
        i = i + 1;
    }
    true
}

} // verus!
