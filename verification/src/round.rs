use vstd::prelude::*;

use crate::card::Card;
use crate::cards::{distribute_cards, full_deck, dealt_cards};
use crate::declaration::Declaration;
use crate::error::GameError;
use crate::player::{contains_card, clone_cards, FieldPlayers, Player, Players, Role};
use crate::trick_result::TrickResult;

verus! {

/// The two sides a round's score is split between.
#[derive(Debug, Clone, Copy, PartialEq, Eq, Structural)]
pub enum Team {
    Napoleon,
    Union,
}

/// Whether a role counts for the Napoleon side of the score.
pub open spec fn napo_side(role: Role) -> bool {
    role is Napoleon || role is Aide
}

/// The capture tally: face cards accumulated per winning player, keyed by
/// the first entry whose player id matches.
pub open spec fn counter_lookup(counter: Seq<(Player, Vec<Card>)>, pid: Seq<char>) -> Option<
    Seq<Card>,
>
    decreases counter.len(),
{
    if counter.len() == 0 {
        None
    } else if counter[0].0@ == pid {
        Some(counter[0].1@)
    } else {
        counter_lookup(counter.drop_first(), pid)
    }
}

/// How many face cards the tally holds in all.
pub open spec fn counter_total(counter: Seq<(Player, Vec<Card>)>) -> int
    decreases counter.len(),
{
    if counter.len() == 0 {
        0
    } else {
        counter_total(counter.drop_last()) + counter.last().1@.len()
    }
}

/// A keyed entry is found by `counter_lookup` when nothing before it bears
/// the same key.
proof fn lemma_counter_lookup_at(counter: Seq<(Player, Vec<Card>)>, i: int)
    requires
        0 <= i < counter.len(),
        forall|k: int| 0 <= k < i ==> (#[trigger] counter[k]).0@ != counter[i].0@,
    ensures
        counter_lookup(counter, counter[i].0@) == Some(counter[i].1@),
    decreases i,
{
    if i > 0 {
        let rest = counter.drop_first();
        assert(forall|k: int| 0 <= k < i - 1 ==> (#[trigger] rest[k]).0@ == counter[k + 1].0@);
        lemma_counter_lookup_at(rest, i - 1);
    }
}

/// A key no entry bears is not found.
proof fn lemma_counter_lookup_miss(counter: Seq<(Player, Vec<Card>)>, pid: Seq<char>)
    requires
        forall|k: int| 0 <= k < counter.len() ==> (#[trigger] counter[k]).0@ != pid,
    ensures
        counter_lookup(counter, pid) == None::<Seq<Card>>,
    decreases counter.len(),
{
    if counter.len() > 0 {
        lemma_counter_lookup_miss(counter.drop_first(), pid);
    }
}

/// Replacing the entry at `i` while keeping its key leaves every other
/// key's lookup unchanged.
proof fn lemma_counter_lookup_update_other(
    counter: Seq<(Player, Vec<Card>)>,
    i: int,
    e: (Player, Vec<Card>),
    pid: Seq<char>,
)
    requires
        0 <= i < counter.len(),
        e.0@ == counter[i].0@,
        pid != e.0@,
    ensures
        counter_lookup(counter.update(i, e), pid) == counter_lookup(counter, pid),
    decreases counter.len(),
{
    let updated = counter.update(i, e);
    if counter.len() > 0 {
        if i == 0 {
            assert(updated.drop_first() =~= counter.drop_first());
        } else {
            assert(updated[0] == counter[0]);
            if counter[0].0@ != pid {
                assert(updated.drop_first() =~= counter.drop_first().update(i - 1, e));
                lemma_counter_lookup_update_other(counter.drop_first(), i - 1, e, pid);
            }
        }
    }
}

/// Appending a fresh entry answers lookups for its key and no other.
proof fn lemma_counter_lookup_push(
    counter: Seq<(Player, Vec<Card>)>,
    e: (Player, Vec<Card>),
    pid: Seq<char>,
)
    ensures
        counter_lookup(counter.push(e), pid) == (match counter_lookup(counter, pid) {
            Some(v) => Some(v),
            None => if e.0@ == pid {
                Some(e.1@)
            } else {
                None
            },
        }),
    decreases counter.len(),
{
    let pushed = counter.push(e);
    if counter.len() == 0 {
        assert(pushed[0] == e);
        assert(pushed.drop_first() =~= Seq::<(Player, Vec<Card>)>::empty());
        assert(counter_lookup(pushed.drop_first(), pid) == None::<Seq<Card>>);
        assert(counter_lookup(counter, pid) == None::<Seq<Card>>);
    } else {
        assert(pushed[0] == counter[0]);
        if counter[0].0@ != pid {
            assert(pushed.drop_first() =~= counter.drop_first().push(e));
            lemma_counter_lookup_push(counter.drop_first(), e, pid);
        }
    }
}

/// Replacing the entry at `i` shifts the tally's total by the growth of
/// that entry.
proof fn lemma_counter_total_update(
    counter: Seq<(Player, Vec<Card>)>,
    i: int,
    e: (Player, Vec<Card>),
)
    requires
        0 <= i < counter.len(),
    ensures
        counter_total(counter.update(i, e)) == counter_total(counter) - counter[i].1@.len()
            + e.1@.len(),
    decreases counter.len(),
{
    let updated = counter.update(i, e);
    if i == counter.len() - 1 {
        assert(updated.drop_last() =~= counter.drop_last());
        assert(updated.last() == e);
    } else {
        assert(updated.drop_last() =~= counter.drop_last().update(i, e));
        assert(updated.last() == counter.last());
        lemma_counter_total_update(counter.drop_last(), i, e);
    }
}

/// A tally prefix never holds more cards than the whole tally.
proof fn lemma_counter_total_take(counter: Seq<(Player, Vec<Card>)>, k: int)
    requires
        0 <= k <= counter.len(),
    ensures
        0 <= counter_total(counter.take(k)) <= counter_total(counter),
    decreases counter.len(),
{
    if k == counter.len() {
        assert(counter.take(k) =~= counter);
        if counter.len() > 0 {
            lemma_counter_total_take(counter.drop_last(), k - 1);
        }
    } else {
        assert(counter.drop_last().take(k) =~= counter.take(k));
        lemma_counter_total_take(counter.drop_last(), k);
    }
}

/// One round of the game: the dealt field players, the two open cards, the
/// accepted declaration (set once), the resolved tricks in order, and the
/// capture tally keyed by winning player.
#[derive(Debug)]
pub struct Round {
    pub field_players: FieldPlayers,
    pub opens: Vec<Card>,
    pub trick_results: Vec<TrickResult>,
    pub declaration: Option<Declaration>,
    pub face_card_counter: Vec<(Player, Vec<Card>)>,
}

impl Round {
    /// Whether some seat belongs to the player with id `pid`.
    pub open spec fn has_player(&self, pid: Seq<char>) -> bool {
        exists|i: int| 0 <= i < 5 && (#[trigger] self.field_players.0@[i]).player@ == pid
    }

    /// The seat of the player with id `pid`.
    pub open spec fn seat_of(&self, pid: Seq<char>) -> int {
        choose|i: int| 0 <= i < 5 && (#[trigger] self.field_players.0@[i]).player@ == pid
    }

    /// The role the player with id `pid` holds.
    pub open spec fn role_of(&self, pid: Seq<char>) -> Role {
        self.field_players.0@[self.seat_of(pid)].role
    }

    /// The face cards credited so far to the player with id `pid`.
    pub open spec fn captured(&self, pid: Seq<char>) -> Seq<Card> {
        match counter_lookup(self.face_card_counter@, pid) {
            Some(v) => v,
            None => Seq::empty(),
        }
    }

    /// The Napoleon side's score within the first `counter` entries of the tally.
    pub open spec fn napo_sum(&self, counter: Seq<(Player, Vec<Card>)>) -> int
        decreases counter.len(),
    {
        if counter.len() == 0 {
            0
        } else {
            self.napo_sum(counter.drop_last()) + if napo_side(self.role_of(counter.last().0@)) {
                counter.last().1@.len() as int
            } else {
                0
            }
        }
    }

    /// The Union side's score within the first `counter` entries of the tally.
    pub open spec fn union_sum(&self, counter: Seq<(Player, Vec<Card>)>) -> int
        decreases counter.len(),
    {
        if counter.len() == 0 {
            0
        } else {
            self.union_sum(counter.drop_last()) + if self.role_of(counter.last().0@) is Union {
                counter.last().1@.len() as int
            } else {
                0
            }
        }
    }

    /// Everything that holds of a round in any of its states.
    pub open spec fn wf(&self) -> bool {
        &&& self.field_players.wf()
        &&& self.opens@.len() == 2
        &&& (self.declaration matches Some(d) ==> d.wf())
        &&& (self.declaration is Some ==> {
            &&& forall|i: int|
                0 <= i < 5 ==> (#[trigger] self.field_players.0@[i]).role != Role::Unassigned
            &&& exists|i: int|
                0 <= i < 5 && (#[trigger] self.field_players.0@[i]).role == Role::Napoleon
            &&& forall|i: int, j: int|
                0 <= i < j < 5 ==> !((#[trigger] self.field_players.0@[i]).role == Role::Napoleon
                    && (#[trigger] self.field_players.0@[j]).role == Role::Napoleon)
        })
        &&& (self.declaration is None ==> forall|i: int|
            0 <= i < 5 ==> (#[trigger] self.field_players.0@[i]).role == Role::Unassigned)
        &&& (self.declaration is None ==> self.face_card_counter@.len() == 0)
        &&& forall|k: int|
            0 <= k < self.face_card_counter@.len() ==> self.has_player(
                (#[trigger] self.face_card_counter@[k]).0@,
            )
        &&& forall|k: int, l: int|
            0 <= k < l < self.face_card_counter@.len() ==> (
            #[trigger] self.face_card_counter@[k]).0@ != (
            #[trigger] self.face_card_counter@[l]).0@
        &&& counter_total(self.face_card_counter@) <= usize::MAX
    }

    /// Deals a fresh round for the given players: shuffled hands, two open
    /// cards, no declaration, no tricks.
    pub fn new(players: Players) -> (r: Self)
        requires
            players.wf(),
        ensures
            r.wf(),
            r.spec_declaration() is None,
            r.spec_trick_results()@.len() == 0,
            forall|i: int| 0 <= i < 5 ==> (#[trigger] r.field_players.0@[i]).player == players.0@[i],
            dealt_cards(&r.field_players, r.opens@).to_multiset() == full_deck().to_multiset(),
    {
        let (field_players, opens) = distribute_cards(&players);
        Round {
            field_players,
            opens,
            trick_results: Vec::new(),
            declaration: None,
            face_card_counter: Vec::new(),
        }
    }

    /// The spec view of the accepted declaration.
    pub open spec fn spec_declaration(&self) -> Option<Declaration> {
        self.declaration
    }

    /// The declaration this round accepted, if any.
    pub fn declaration(&self) -> (r: &Option<Declaration>)
        ensures
            r == self.spec_declaration(),
    {
        &self.declaration
    }

    /// The spec view of the resolved tricks.
    pub open spec fn spec_trick_results(&self) -> Vec<TrickResult> {
        self.trick_results
    }

    /// The resolved tricks, in the order they were played.
    pub fn trick_results(&self) -> (r: &Vec<TrickResult>)
        ensures
            r == self.spec_trick_results(),
    {
        &self.trick_results
    }

    /// The seat of the given player, if any.
    fn find_seat(&self, p: &Player) -> (r: Option<usize>)
        requires
            self.wf(),
        ensures
            (r matches Some(i) ==> i < 5 && self.field_players.0@[i as int].player@ == p@),
            r is None ==> !self.has_player(p@),
    {
        let mut i: usize = 0;
        while i < self.field_players.0.len()
            invariant
                self.field_players.0@.len() == 5,
                i <= 5,
                forall|k: int| 0 <= k < i ==> (#[trigger] self.field_players.0@[k]).player@ != p@,
            decreases 5 - i,
        {
            if self.field_players.0[i].player == *p {
                return Some(i);
            }
            i = i + 1;
        }
        None
    }

    /// The tally entry of the given player: the first index bearing the
    /// player's id, if any.
    fn find_counter(&self, p: &Player) -> (r: Option<usize>)
        ensures
            (r matches Some(i) ==> i < self.face_card_counter@.len()
                && self.face_card_counter@[i as int].0@ == p@ && forall|k: int|
                0 <= k < i ==> (#[trigger] self.face_card_counter@[k]).0@ != p@),
            r is None ==> forall|k: int|
                0 <= k < self.face_card_counter@.len() ==> (
                #[trigger] self.face_card_counter@[k]).0@ != p@,
    {
        let mut i: usize = 0;
        while i < self.face_card_counter.len()
            invariant
                i <= self.face_card_counter@.len(),
                forall|k: int| 0 <= k < i ==> (#[trigger] self.face_card_counter@[k]).0@ != p@,
            decreases self.face_card_counter@.len() - i,
        {
            if self.face_card_counter[i].0 == *p {
                return Some(i);
            }
            i = i + 1;
        }
        None
    }

    /// Accepts the round's one declaration and assigns every seat its role
    /// atomically: the declared Napoleon becomes Napoleon, every holder of
    /// the aide card becomes Aide, everyone else Union. Fails without any
    /// change when a declaration is already set, when the aide card is
    /// nowhere to be found, or when no seat belongs to the declared
    /// Napoleon.
    pub fn set_declaration(&mut self, declaration: Declaration) -> (r: Result<(), GameError>)
        requires
            old(self).wf(),
            declaration.wf(),
        ensures
            final(self).wf(),
            old(self).spec_declaration() is Some ==> (r matches Err(e) && e
                == GameError::AlreadyDeclared && *final(self) == *old(self)),
            old(self).spec_declaration() is None && !old(self).aide_located(declaration.aide) ==> (
            r matches Err(e) && e == GameError::AideNotFound && *final(self) == *old(self)),
            old(self).spec_declaration() is None && old(self).aide_located(declaration.aide)
                && !old(self).has_player(declaration.napoleon@) ==> (r matches Err(e) && e
                == GameError::NapoleonNotEstablished && *final(self) == *old(self)),
            old(self).spec_declaration() is None && old(self).aide_located(declaration.aide)
                && old(self).has_player(declaration.napoleon@) ==> {
                &&& r is Ok
                &&& final(self).spec_declaration() == Some(declaration)
                &&& final(self).spec_trick_results() == old(self).spec_trick_results()
                &&& final(self).face_card_counter@ == old(self).face_card_counter@
                &&& final(self).opens == old(self).opens
                &&& final(self).field_players.0@.len() == 5
                &&& forall|i: int|
                    0 <= i < 5 ==> (#[trigger] final(self).field_players.0@[i]).player == old(
                        self,
                    ).field_players.0@[i].player
                &&& forall|i: int|
                    0 <= i < 5 ==> (#[trigger] final(self).field_players.0@[i]).hands@ == old(
                        self,
                    ).field_players.0@[i].hands@
                &&& forall|i: int|
                    0 <= i < 5 ==> (#[trigger] final(self).field_players.0@[i]).role == (if old(
                        self,
                    ).field_players.0@[i].player@ == declaration.napoleon@ {
                        Role::Napoleon
                    } else if old(self).field_players.0@[i].hands@.contains(declaration.aide) {
                        Role::Aide
                    } else {
                        Role::Union
                    })
            },
    {
        if self.declaration.is_some() {
            return Err(GameError::AlreadyDeclared);
        }

        // locate the aide card among the hands and the open reserve
        let mut aide_found = false;
        let mut i: usize = 0;
        while i < 5
            invariant
                self.field_players.0@.len() == 5,
                i <= 5,
                aide_found == (exists|k: int|
                    0 <= k < i && (#[trigger] self.field_players.0@[k]).hands@.contains(
                        declaration.aide,
                    )),
            decreases 5 - i,
        {
            if self.field_players.0[i].has(&declaration.aide) {
                aide_found = true;
            }
            i = i + 1;
        }
        if !aide_found && !contains_card(&self.opens, declaration.aide) {
            return Err(GameError::AideNotFound);
        }

        // the declared napoleon must sit at the table
        if self.find_seat(&declaration.napoleon).is_none() {
            return Err(GameError::NapoleonNotEstablished);
        }

        // assign all five roles
        let ghost before = *self;
        let mut i: usize = 0;
        while i < 5
            invariant
                self.field_players.0@.len() == 5,
                i <= 5,
                before.wf(),
                self.opens == before.opens,
                self.trick_results == before.trick_results,
                self.declaration == before.declaration,
                self.face_card_counter == before.face_card_counter,
                forall|k: int|
                    0 <= k < 5 ==> (#[trigger] self.field_players.0@[k]).player
                        == before.field_players.0@[k].player,
                forall|k: int|
                    0 <= k < 5 ==> (#[trigger] self.field_players.0@[k]).hands@
                        == before.field_players.0@[k].hands@,
                forall|k: int|
                    i <= k < 5 ==> (#[trigger] self.field_players.0@[k]).role
                        == before.field_players.0@[k].role,
                forall|k: int|
                    0 <= k < i ==> (#[trigger] self.field_players.0@[k]).role == (
                    if before.field_players.0@[k].player@ == declaration.napoleon@ {
                        Role::Napoleon
                    } else if before.field_players.0@[k].hands@.contains(declaration.aide) {
                        Role::Aide
                    } else {
                        Role::Union
                    }),
            decreases 5 - i,
        {
            let is_napoleon = self.field_players.0[i].player == declaration.napoleon;
            let has_aide = self.field_players.0[i].has(&declaration.aide);
            let role = if is_napoleon {
                Role::Napoleon
            } else if has_aide {
                Role::Aide
            } else {
                Role::Union
            };
            let ghost prev = self.field_players.0@;
            let mut fp = self.field_players.0.remove(i);
            fp.assign_role(role);
            self.field_players.0.insert(i, fp);
            proof {
                assert(self.field_players.0@ =~= prev.update(
                    i as int,
                    self.field_players.0@[i as int],
                ));
            }
            i = i + 1;
        }
        self.declaration = Some(declaration);
        proof {
            let fps = self.field_players.0@;
            let ns = before.seat_of(declaration.napoleon@);
            assert(0 <= ns < 5 && before.field_players.0@[ns].player@ == declaration.napoleon@);
            assert(fps[ns].role == Role::Napoleon);
            assert forall|a: int, b: int| 0 <= a < b < 5 implies !(fps[a].role == Role::Napoleon
                && fps[b].role == Role::Napoleon) by {
                if fps[a].role == Role::Napoleon && fps[b].role == Role::Napoleon {
                    assert(before.field_players.0@[a].player@ == declaration.napoleon@);
                    assert(before.field_players.0@[b].player@ == declaration.napoleon@);
                }
            }
        }
        Ok(())
    }

    /// Whether the aide card lies in some hand or in the open reserve.
    pub open spec fn aide_located(&self, aide: Card) -> bool {
        (exists|i: int| 0 <= i < 5 && (#[trigger] self.field_players.0@[i]).hands@.contains(aide))
            || self.opens@.contains(aide)
    }

    /// Whether the Napoleon plays alone: no seat holds the Aide role.
    pub fn is_alone(&self) -> (r: bool)
        ensures
            r == (forall|i: int|
                0 <= i < self.field_players.0@.len() ==> (#[trigger] self.field_players.0@[i]).role
                    != Role::Aide),
    {
        self.field_players.isolated()
    }

    /// The player who leads the next trick: the winner of the most recent
    /// trick, or the Napoleon before any trick was played.
    pub fn last_winner(&self) -> (r: Result<Player, GameError>)
        requires
            self.wf(),
        ensures
            self.spec_trick_results()@.len() > 0 ==> (r matches Ok(p) && p == self.spec_trick_results()@.last().winner),
            self.spec_trick_results()@.len() == 0 && self.spec_declaration() is Some ==> (r matches Ok(p)
                && exists|i: int|
                0 <= i < 5 && (#[trigger] self.field_players.0@[i]).role == Role::Napoleon
                    && self.field_players.0@[i].player == p),
            self.spec_trick_results()@.len() == 0 && self.spec_declaration() is None ==> (r matches Err(
                e,
            ) && e == GameError::RoundNotDeclared),
    {
        match self.trick_results.last() {
            Some(result) => Ok(result.winner.clone()),
            None => {
                let mut i: usize = 0;
                while i < self.field_players.0.len()
                    invariant
                        self.wf(),
                        self.spec_trick_results()@.len() == 0,
                        self.field_players.0@.len() == 5,
                        i <= 5,
                        forall|k: int|
                            0 <= k < i ==> (#[trigger] self.field_players.0@[k]).role
                                != Role::Napoleon,
                    decreases 5 - i,
                {
                    if self.field_players.0[i].role == Role::Napoleon {
                        return Ok(self.field_players.0[i].player.clone());
                    }
                    i = i + 1;
                }
                Err(GameError::RoundNotDeclared)
            },
        }
    }

    /// Appends a resolved trick and credits every face card laid in it to
    /// the trick's winner.
    pub fn add(&mut self, result: TrickResult)
        requires
            old(self).wf(),
            old(self).spec_declaration() is Some,
            old(self).has_player(result.winner@),
            counter_total(old(self).face_card_counter@) + result.face_cards@.len() <= usize::MAX,
        ensures
            final(self).wf(),
            final(self).spec_trick_results()@ == old(self).spec_trick_results()@.push(result),
            final(self).captured(result.winner@) == old(self).captured(result.winner@)
                + result.face_cards@,
            forall|pid: Seq<char>|
                pid != result.winner@ ==> final(self).captured(pid) == old(self).captured(pid),
            final(self).spec_declaration() == old(self).spec_declaration(),
            final(self).field_players == old(self).field_players,
            final(self).opens == old(self).opens,
            final(self).face_card_counter@.len() > 0,
            counter_total(final(self).face_card_counter@) == counter_total(
                old(self).face_card_counter@,
            ) + result.face_cards@.len(),
    {
        let ghost old_counter = self.face_card_counter@;
        match self.find_counter(&result.winner) {
            Some(i) => {
                let (p, mut cards) = self.face_card_counter.remove(i);
                let ghost entry_cards = cards@;
                let mut j: usize = 0;
                while j < result.face_cards.len()
                    invariant
                        j <= result.face_cards@.len(),
                        cards@ == entry_cards + result.face_cards@.take(j as int),
                    decreases result.face_cards@.len() - j,
                {
                    cards.push(result.face_cards[j]);
                    proof {
                        assert(entry_cards + result.face_cards@.take(j + 1 as int) =~= (entry_cards
                            + result.face_cards@.take(j as int)).push(result.face_cards@[j as int]));
                    }
                    j = j + 1;
                }
                proof {
                    assert(result.face_cards@.take(result.face_cards@.len() as int)
                        =~= result.face_cards@);
                }
                self.face_card_counter.insert(i, (p, cards));
                proof {
                    let e = (p, cards);
                    assert(self.face_card_counter@ =~= old_counter.update(i as int, e));
                    lemma_counter_lookup_at(old_counter, i as int);
                    lemma_counter_lookup_at(self.face_card_counter@, i as int);
                    lemma_counter_total_update(old_counter, i as int, e);
                    assert forall|pid: Seq<char>| pid != result.winner@ implies counter_lookup(
                        self.face_card_counter@,
                        pid,
                    ) == counter_lookup(old_counter, pid) by {
                        lemma_counter_lookup_update_other(old_counter, i as int, e, pid);
                    }
                }
            },
            None => {
                let entry = (result.winner.clone(), clone_cards(&result.face_cards));
                self.face_card_counter.push(entry);
                proof {
                    let e = self.face_card_counter@.last();
                    assert(self.face_card_counter@ =~= old_counter.push(e));
                    lemma_counter_lookup_miss(old_counter, result.winner@);
                    assert forall|pid: Seq<char>| true implies counter_lookup(
                        self.face_card_counter@,
                        pid,
                    ) == (match counter_lookup(old_counter, pid) {
                        Some(v) => Some(v),
                        None => if e.0@ == pid {
                            Some(e.1@)
                        } else {
                            None
                        },
                    }) by {
                        lemma_counter_lookup_push(old_counter, e, pid);
                    }
                    assert(self.face_card_counter@.drop_last() =~= old_counter);
                    assert(Seq::<Card>::empty() + result.face_cards@ =~= result.face_cards@);
                }
            },
        }
        self.trick_results.push(result);
    }

    /// The two team scores: how many face cards the Napoleon side and the
    /// Union side have captured. Queries before the declaration, or before
    /// any trick, are rejected.
    pub fn team_score(&self) -> (r: Result<(usize, usize), GameError>)
        requires
            self.wf(),
        ensures
            self.spec_declaration() is None ==> (r matches Err(e) && e
                == GameError::RoundNotDeclared),
            self.spec_declaration() is Some && self.face_card_counter@.len() == 0 ==> (r matches Err(
                e,
            ) && e == GameError::RoundNotStarted),
            self.spec_declaration() is Some && self.face_card_counter@.len() > 0 ==> (r matches Ok(
                t,
            ) && t.0 == self.napo_sum(self.face_card_counter@) && t.1 == self.union_sum(
                self.face_card_counter@,
            )),
    {
        if self.declaration.is_none() {
            return Err(GameError::RoundNotDeclared);
        }
        if self.face_card_counter.len() == 0 {
            return Err(GameError::RoundNotStarted);
        }
        let ghost counter = self.face_card_counter@;
        let mut napo_score: usize = 0;
        let mut union_score: usize = 0;
        let mut k: usize = 0;
        while k < self.face_card_counter.len()
            invariant
                self.wf(),
                self.spec_declaration() is Some,
                counter == self.face_card_counter@,
                k <= counter.len(),
                napo_score == self.napo_sum(counter.take(k as int)),
                union_score == self.union_sum(counter.take(k as int)),
                napo_score + union_score <= counter_total(counter.take(k as int)),
            decreases counter.len() - k,
        {
            let s = self.face_card_counter[k].1.len();
            proof {
                assert(self.has_player(counter[k as int].0@));
            }
            let seat = match self.find_seat(&self.face_card_counter[k].0) {
                Some(seat) => seat,
                None => {
                    proof {
                        assert(false);
                    }
                    0
                },
            };
            let role = self.field_players.0[seat].role;
            proof {
                let pid = counter[k as int].0@;
                let cs = self.seat_of(pid);
                assert(0 <= cs < 5 && self.field_players.0@[cs].player@ == pid);
                assert(cs == seat as int);
                assert(role == self.role_of(pid));
                assert(counter.take(k + 1 as int).drop_last() =~= counter.take(k as int));
                lemma_counter_total_take(counter, k + 1 as int);
            }
            match role {
                Role::Napoleon | Role::Aide => {
                    napo_score = napo_score + s;
                },
                Role::Union => {
                    union_score = union_score + s;
                },
                Role::Unassigned => {
                    proof {
                        assert(false);
                    }
                    return Err(GameError::RoleNotSet);
                },
            }
            k = k + 1;
        }
        proof {
            assert(counter.take(counter.len() as int) =~= counter);
        }
        Ok((napo_score, union_score))
    }

    /// The round's outcome policy on given team scores and declared number:
    /// the Union wins outright once the Napoleon side can no longer reach
    /// its target; a target of twenty demands every face card; a full sweep
    /// below that target falls to the Union; otherwise reaching the target
    /// wins, and short of it the round goes on.
    pub open spec fn winner_policy(napo: int, union: int, number: int) -> Option<Team> {
        if union > 20 - number {
            Some(Team::Union)
        } else if number == 20 {
            if napo == 20 {
                Some(Team::Napoleon)
            } else {
                None
            }
        } else if napo == 20 {
            Some(Team::Union)
        } else if napo >= number {
            Some(Team::Napoleon)
        } else {
            None
        }
    }

    /// The round's outcome so far: the winning team, or nothing while the
    /// round is still open. Queries before the declaration, or before any
    /// trick, are rejected.
    pub fn winner(&self) -> (r: Result<Option<Team>, GameError>)
        requires
            self.wf(),
        ensures
            self.spec_declaration() is None ==> (r matches Err(e) && e
                == GameError::RoundNotDeclared),
            self.spec_declaration() is Some && self.face_card_counter@.len() == 0 ==> (r matches Err(
                e,
            ) && e == GameError::RoundNotStarted),
            self.spec_declaration() matches Some(d) ==> (self.face_card_counter@.len() > 0 ==> (
            r matches Ok(w) && w == Self::winner_policy(
                self.napo_sum(self.face_card_counter@),
                self.union_sum(self.face_card_counter@),
                d.number as int,
            ))),
    {
        let scores = self.team_score()?;
        let napo_score = scores.0;
        let union_score = scores.1;
        let number = match &self.declaration {
            Some(d) => d.number,
            None => {
                proof {
                    assert(false);
                }
                13
            },
        };
        if union_score > 20 - number {
            return Ok(Some(Team::Union));
        }
        if number == 20 {
            return if napo_score == 20 {
                Ok(Some(Team::Napoleon))
            } else {
                Ok(None)
            };
        }
        if napo_score == 20 {
            return Ok(Some(Team::Union));
        }
        if napo_score >= number {
            return Ok(Some(Team::Napoleon));
        }
        Ok(None)
    }

    /// The Napoleon side's stake: the base score, quadrupled when the
    /// Napoleon plays alone and doubled otherwise.
    pub fn napoleon_score(&self) -> (r: Result<usize, GameError>)
        requires
            self.wf(),
        ensures
            self.spec_declaration() is None ==> (r matches Err(e) && e
                == GameError::RoundNotDeclared),
            self.spec_declaration() matches Some(d) ==> (r matches Ok(s) && s == (d.number - 12) * (
            if forall|i: int|
                0 <= i < 5 ==> (#[trigger] self.field_players.0@[i]).role != Role::Aide {
                4int
            } else {
                2int
            })),
    {
        let base = match &self.declaration {
            Some(d) => d.base_score(),
            None => {
                return Err(GameError::RoundNotDeclared);
            },
        };
        let mult: usize = if self.is_alone() {
            4
        } else {
            2
        };
        Ok(base * mult)
    }
}

/// Two team-score reads of one unchanged round answer alike: the result is
/// a function of the round's state alone.
pub proof fn lemma_team_score_idempotent(
    round: &Round,
    r1: Result<(usize, usize), GameError>,
    r2: Result<(usize, usize), GameError>,
)
    requires
        round.wf(),
        call_ensures(Round::team_score, (round,), r1),
        call_ensures(Round::team_score, (round,), r2),
    ensures
        r1 == r2,
{
}

/// Two winner reads of one unchanged round answer alike: the result is a
/// function of the round's state alone.
pub proof fn lemma_winner_idempotent(
    round: &Round,
    r1: Result<Option<Team>, GameError>,
    r2: Result<Option<Team>, GameError>,
)
    requires
        round.wf(),
        call_ensures(Round::winner, (round,), r1),
        call_ensures(Round::winner, (round,), r2),
    ensures
        r1 == r2,
{
}

} // verus!
