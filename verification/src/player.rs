use vstd::prelude::*;

use crate::card::{Card, Hands};

verus! {

/// A participant, identified by an opaque string id. Two players are the
/// same exactly when their ids read the same.
#[derive(Debug)]
pub struct Player {
    pub id: String,
}

impl View for Player {
    type V = Seq<char>;

    open spec fn view(&self) -> Seq<char> {
        self.id@
    }
}

impl Clone for Player {
    fn clone(&self) -> (r: Self)
        ensures
            r == *self,
    {
        Player { id: self.id.clone() }
    }
}

impl PartialEq for Player {
    fn eq(&self, other: &Self) -> bool {
        self.id == other.id
    }
}

impl vstd::std_specs::cmp::PartialEqSpecImpl for Player {
    open spec fn obeys_eq_spec() -> bool {
        true
    }

    open spec fn eq_spec(&self, other: &Self) -> bool {
        self@ == other@
    }
}

/// The five players of a game, in seating order.
#[derive(Debug)]
pub struct Players(pub Vec<Player>);

impl Players {
    /// Exactly five players, no two with the same id.
    pub open spec fn wf(&self) -> bool {
        &&& self.0@.len() == 5
        &&& forall|i: int, j: int|
            0 <= i < j < 5 ==> #[trigger] self.0@[i]@ != #[trigger] self.0@[j]@
    }
}

impl Clone for Players {
    fn clone(&self) -> (r: Self)
        ensures
            r.0@ == self.0@,
    {
        let mut v: Vec<Player> = Vec::new();
        let mut i: usize = 0;
        while i < self.0.len()
            invariant
                i <= self.0@.len(),
                v@ == self.0@.take(i as int),
            decreases self.0@.len() - i,
        {
            v.push(self.0[i].clone());
            proof {
                assert(v@ =~= self.0@.take(i + 1 as int));
            }
            i = i + 1;
        }
        proof {
            assert(v@ =~= self.0@);
        }
        Players(v)
    }
}

impl Default for Players {
    /// Five distinct placeholder players named "a" through "e".
    fn default() -> (r: Self)
        ensures
            r.wf(),
            r.0@.len() == 5,
            r.0@[0]@ == "a"@ && r.0@[1]@ == "b"@ && r.0@[2]@ == "c"@ && r.0@[3]@ == "d"@ && r.0@[4]@
                == "e"@,
    {
        let mut v: Vec<Player> = Vec::new();
        v.push(Player { id: String::from_str("a") });
        v.push(Player { id: String::from_str("b") });
        v.push(Player { id: String::from_str("c") });
        v.push(Player { id: String::from_str("d") });
        v.push(Player { id: String::from_str("e") });
        proof {
            reveal_strlit("a");
            reveal_strlit("b");
            reveal_strlit("c");
            reveal_strlit("d");
            reveal_strlit("e");
            assert(v@.len() == 5);
            assert(v@[0]@ == "a"@ && v@[1]@ == "b"@ && v@[2]@ == "c"@ && v@[3]@ == "d"@
                && v@[4]@ == "e"@);
            assert("a"@[0] == 'a' && "b"@[0] == 'b' && "c"@[0] == 'c' && "d"@[0] == 'd'
                && "e"@[0] == 'e');
        }
        Players(v)
    }
}

/// The part a player takes in one round. Exactly one player holds Napoleon
/// after a declaration; at most one holds Aide; before any declaration all
/// five are Unassigned.
#[derive(Debug, Clone, Copy, PartialEq, Eq, Structural)]
pub enum Role {
    Unassigned,
    Napoleon,
    Aide,
    Union,
}

/// A player bound to its round-local 10-card hand and its current role.
#[derive(Debug)]
pub struct FieldPlayer {
    pub player: Player,
    pub hands: Hands,
    pub role: Role,
}

impl FieldPlayer {
    /// A field player always holds exactly ten cards.
    pub open spec fn wf(&self) -> bool {
        self.hands@.len() == 10
    }

    /// Binds a dealt hand to a player; the role starts out unassigned.
    pub fn new(player: Player, hands: Hands) -> (r: Self)
        requires
            hands@.len() == 10,
        ensures
            r.wf(),
            r.player == player,
            r.hands@ == hands@,
            r.role == Role::Unassigned,
    {
        FieldPlayer { player, hands, role: Role::Unassigned }
    }

    /// Replaces the role; hand and identity stay as they are.
    pub fn assign_role(&mut self, role: Role)
        ensures
            final(self).role == role,
            final(self).player == old(self).player,
            final(self).hands == old(self).hands,
    {
        self.role = role;
    }

    /// The open-card exchange: the two open cards join the hand, and the two
    /// chosen discards leave it. The discards must cut the pool back to
    /// exactly ten cards.
    pub fn choice_opens(&mut self, opens: Vec<Card>, discard: Vec<Card>)
        requires
            old(self).wf(),
            opens@.len() == 2,
            discard@.len() == 2,
            (old(self).hands@ + opens@).filter(|c: Card| !discard@.contains(c)).len() == 10,
        ensures
            final(self).wf(),
            final(self).hands@ == (old(self).hands@ + opens@).filter(
                |c: Card| !discard@.contains(c),
            ),
            final(self).player == old(self).player,
            final(self).role == old(self).role,
    {
        let ghost pred = |c: Card| !discard@.contains(c);
        let ghost pool = self.hands@ + opens@;
        let mut cards: Vec<Card> = Vec::new();
        let mut i: usize = 0;
        while i < self.hands.len()
            invariant
                i <= old(self).hands@.len(),
                self == old(self),
                opens@.len() == 2,
                discard@.len() == 2,
                pred == (|c: Card| !discard@.contains(c)),
                pool == self.hands@ + opens@,
                cards@ == pool.take(i as int).filter(pred),
            decreases self.hands@.len() - i,
        {
            let c = self.hands[i];
            proof {
                reveal(Seq::filter);
                assert(pool.take(i + 1 as int).drop_last() =~= pool.take(i as int));
                assert(pool.take(i + 1 as int).last() == c);
            }
            if !contains_card(&discard, c) {
                cards.push(c);
            }
            i = i + 1;
        }
        let mut j: usize = 0;
        while j < opens.len()
            invariant
                j <= opens@.len(),
                self == old(self),
                opens@.len() == 2,
                discard@.len() == 2,
                pred == (|c: Card| !discard@.contains(c)),
                pool == self.hands@ + opens@,
                cards@ == pool.take(self.hands@.len() + j).filter(pred),
            decreases opens@.len() - j,
        {
            let c = opens[j];
            proof {
                reveal(Seq::filter);
                let n = self.hands@.len() as int;
                assert(pool.take(n + j + 1).drop_last() =~= pool.take(n + j));
                assert(pool.take(n + j + 1).last() == c);
            }
            if !contains_card(&discard, c) {
                cards.push(c);
            }
            j = j + 1;
        }
        proof {
            assert(pool.take(pool.len() as int) =~= pool);
        }
        self.hands = cards;
    }

    /// Whether this player's hand holds the given card.
    pub fn has(&self, card: &Card) -> (r: bool)
        ensures
            r == self.hands@.contains(*card),
    {
        contains_card(&self.hands, *card)
    }
}

impl Clone for FieldPlayer {
    fn clone(&self) -> (r: Self)
        ensures
            r.player == self.player,
            r.hands@ == self.hands@,
            r.role == self.role,
    {
        FieldPlayer {
            player: self.player.clone(),
            hands: clone_cards(&self.hands),
            role: self.role,
        }
    }
}

/// The five field players of one round, in seating order.
#[derive(Debug)]
pub struct FieldPlayers(pub Vec<FieldPlayer>);

impl FieldPlayers {
    /// Exactly five seats, each holding ten cards, no two players alike.
    pub open spec fn wf(&self) -> bool {
        &&& self.0@.len() == 5
        &&& forall|i: int| 0 <= i < 5 ==> (#[trigger] self.0@[i]).wf()
        &&& forall|i: int, j: int|
            0 <= i < j < 5 ==> #[trigger] self.0@[i].player@ != #[trigger] self.0@[j].player@
    }

    /// Whether the Napoleon plays alone: no seat holds the Aide role.
    pub fn isolated(&self) -> (r: bool)
        ensures
            r == (forall|i: int| 0 <= i < self.0@.len() ==> #[trigger] self.0@[i].role != Role::Aide),
    {
        let mut i: usize = 0;
        while i < self.0.len()
            invariant
                i <= self.0@.len(),
                forall|k: int| 0 <= k < i ==> #[trigger] self.0@[k].role != Role::Aide,
            decreases self.0@.len() - i,
        {
            if self.0[i].role == Role::Aide {
                return false;
            }
            i = i + 1;
        }
        true
    }
}

/// Whether `v` holds `c`.
pub fn contains_card(v: &Vec<Card>, c: Card) -> (r: bool)
    ensures
        r == v@.contains(c),
{
    let mut i: usize = 0;
    while i < v.len()
        invariant
            i <= v@.len(),
            forall|k: int| 0 <= k < i ==> v@[k] != c,
        decreases v@.len() - i,
    {
        if v[i] == c {
            return true;
        }
        i = i + 1;
    }
    false
}

/// A fresh vector holding the same cards in the same order.
pub fn clone_cards(v: &Vec<Card>) -> (r: Vec<Card>)
    ensures
        r@ == v@,
{
    let mut r: Vec<Card> = Vec::new();
    let mut i: usize = 0;
    while i < v.len()
        invariant
            i <= v@.len(),
            r@ == v@.take(i as int),
        decreases v@.len() - i,
    {
        r.push(v[i]);
        proof {
            assert(r@ =~= v@.take(i + 1 as int));
        }
        i = i + 1;
    }
    proof {
        assert(r@ =~= v@);
    }
    r
}

} // verus!
