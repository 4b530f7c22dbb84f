use vstd::prelude::*;

use crate::card::{lemma_card_round_trip, lemma_id_round_trip, spec_card_of_id, Card};
use crate::player::{FieldPlayer, FieldPlayers, Players, Role};

verus! {

/// The 52 cards of the deck, in id order.
pub open spec fn full_deck() -> Seq<Card> {
    Seq::new(52, |i: int| spec_card_of_id(i + 1))
}

/// Every card a deal handed out: the five hands in seating order, then the
/// two open cards.
pub open spec fn dealt_cards(fps: &FieldPlayers, opens: Seq<Card>) -> Seq<Card> {
    fps.0@[0].hands@ + fps.0@[1].hands@ + fps.0@[2].hands@ + fps.0@[3].hands@ + fps.0@[4].hands@
        + opens
}

/// Relies on rand's `SliceRandom::shuffle` with `thread_rng`: a Fisher-Yates
/// pass that permutes the slice's elements in place by swaps. Nothing is
/// promised about the order that comes out, only that the cards are the same.
#[verifier::external_body]
fn shuffle_cards(deck: &mut Vec<Card>)
    ensures
        final(deck)@.len() == old(deck)@.len(),
        final(deck)@.to_multiset() == old(deck)@.to_multiset(),
{
    rand::seq::SliceRandom::shuffle(deck.as_mut_slice(), &mut rand::thread_rng());
}

/// Deals a shuffled deck: ten cards to each of the five players, in seating
/// order, and two cards to the open reserve. Whatever order the shuffle
/// produced, the 52 dealt cards are exactly the full deck.
pub fn distribute_cards(players: &Players) -> (r: (FieldPlayers, Vec<Card>))
    requires
        players.wf(),
    ensures
        r.0.wf(),
        r.1@.len() == 2,
        forall|i: int| 0 <= i < 5 ==> (#[trigger] r.0.0@[i]).player == players.0@[i],
        forall|i: int| 0 <= i < 5 ==> (#[trigger] r.0.0@[i]).role == Role::Unassigned,
        dealt_cards(&r.0, r.1@).to_multiset() == full_deck().to_multiset(),
{
    let mut deck: Vec<Card> = Vec::new();
    let mut id: u8 = 1;
    while id <= 52
        invariant
            1 <= id <= 53,
            deck@.len() == id - 1,
            forall|k: int| 0 <= k < deck@.len() ==> deck@[k] == spec_card_of_id(k + 1),
        decreases 53 - id,
    {
        let c = match Card::from_id(id) {
            Ok(c) => c,
            Err(_) => {
                proof {
                    assert(false);
                }
                Card { number: 1, suit: crate::card::Suit::Spade }
            },
        };
        deck.push(c);
        id = id + 1;
    }
    proof {
        assert(deck@ =~= full_deck());
    }
    shuffle_cards(&mut deck);

    let ghost shuffled = deck@;
    let mut fps_vec: Vec<FieldPlayer> = Vec::new();
    let mut pid: usize = 0;
    while pid < 5
        invariant
            pid <= 5,
            deck@ == shuffled,
            deck@.len() == 52,
            players.wf(),
            fps_vec@.len() == pid,
            forall|i: int|
                0 <= i < pid ==> (#[trigger] fps_vec@[i]).hands@ == shuffled.subrange(
                    i * 10,
                    i * 10 + 10,
                ),
            forall|i: int| 0 <= i < pid ==> (#[trigger] fps_vec@[i]).player == players.0@[i],
            forall|i: int| 0 <= i < pid ==> (#[trigger] fps_vec@[i]).role == Role::Unassigned,
            forall|i: int| 0 <= i < pid ==> (#[trigger] fps_vec@[i]).wf(),
        decreases 5 - pid,
    {
        let mut hand: Vec<Card> = Vec::new();
        let mut i: usize = 0;
        while i < 10
            invariant
                i <= 10,
                pid < 5,
                deck@ == shuffled,
                deck@.len() == 52,
                hand@ == shuffled.subrange(pid * 10, pid * 10 + i),
            decreases 10 - i,
        {
            hand.push(deck[pid * 10 + i]);
            proof {
                assert(hand@ =~= shuffled.subrange(pid * 10, pid * 10 + i + 1));
            }
            i = i + 1;
        }
        fps_vec.push(FieldPlayer::new(players.0[pid].clone(), hand));
        pid = pid + 1;
    }
    let mut opens: Vec<Card> = Vec::new();
    opens.push(deck[50]);
    opens.push(deck[51]);

    let fps = FieldPlayers(fps_vec);
    proof {
        assert(dealt_cards(&fps, opens@) =~= shuffled);
    }
    (fps, opens)
}

/// Dealing is a partition: whenever the pooled hands and open reserve hold
/// the deck's cards (as `distribute_cards` guarantees), no card is dealt
/// twice — so the hands and the reserve are pairwise disjoint — and the
/// cards dealt are exactly the 52 valid ones.
pub proof fn lemma_deal_partition(fps: &FieldPlayers, opens: Seq<Card>)
    requires
        dealt_cards(fps, opens).to_multiset() == full_deck().to_multiset(),
    ensures
        dealt_cards(fps, opens).no_duplicates(),
        forall|c: Card| dealt_cards(fps, opens).contains(c) <==> c.valid(),
{
    let dealt = dealt_cards(fps, opens);
    let deck = full_deck();
    assert forall|i: int, j: int| 0 <= i < j < 52 implies deck[i] != deck[j] by {
        lemma_id_round_trip(i + 1);
        lemma_id_round_trip(j + 1);
        assert(deck[i].id() != deck[j].id());
    }
    assert(deck.no_duplicates());
    deck.lemma_multiset_has_no_duplicates();
    broadcast use vstd::seq_lib::group_to_multiset_ensures;

    dealt.lemma_multiset_has_no_duplicates_conv();
    assert forall|c: Card| dealt.contains(c) implies c.valid() by {
        assert(deck.to_multiset().count(c) > 0);
        assert(deck.contains(c));
        let k = choose|k: int| 0 <= k < 52 && deck[k] == c;
        lemma_id_round_trip(k + 1);
    }
    assert forall|c: Card| c.valid() implies dealt.contains(c) by {
        lemma_card_round_trip(c);
        assert(deck[c.id() - 1] == c);
        assert(deck.contains(c));
        assert(dealt.to_multiset().count(c) > 0);
    }
}

/// After a full deal every valid card can be pointed at: it lies in one of
/// the five hands or in the open reserve.
pub proof fn lemma_dealt_card_located(fps: &FieldPlayers, opens: Seq<Card>, c: Card)
    requires
        fps.wf(),
        dealt_cards(fps, opens).to_multiset() == full_deck().to_multiset(),
        c.valid(),
    ensures
        (exists|i: int| 0 <= i < 5 && (#[trigger] fps.0@[i]).hands@.contains(c)) || opens.contains(
            c,
        ),
{
    lemma_deal_partition(fps, opens);
    let dealt = dealt_cards(fps, opens);
    assert(dealt.contains(c));
    let k = choose|k: int| 0 <= k < dealt.len() && dealt[k] == c;
    if k < 10 {
        assert(fps.0@[0].hands@[k] == c);
    } else if k < 20 {
        assert(fps.0@[1].hands@[k - 10] == c);
    } else if k < 30 {
        assert(fps.0@[2].hands@[k - 20] == c);
    } else if k < 40 {
        assert(fps.0@[3].hands@[k - 30] == c);
    } else if k < 50 {
        assert(fps.0@[4].hands@[k - 40] == c);
    } else {
        assert(opens[k - 50] == c);
    }
}

} // verus!
