use vstd::prelude::*;

use crate::card::Card;
use crate::cards::{dealt_cards, distribute_cards, full_deck};
use crate::player::{FieldPlayers, Player, Players, Role};
use crate::round::Round;

verus! {

/// A player's cumulative score across the rounds of a session.
#[derive(Debug)]
pub struct PlayerScore {
    pub player: Player,
    pub score: usize,
}

impl PlayerScore {
    /// A fresh table entry, starting from zero.
    pub fn new(player: Player) -> (r: Self)
        ensures
            r.player == player,
            r.score == 0,
    {
        PlayerScore { player, score: 0 }
    }

    /// Credits `score` to this entry when it belongs to `player`, and
    /// leaves it alone otherwise.
    pub fn add(&mut self, player: Player, score: usize)
        requires
            old(self).score + score <= usize::MAX,
        ensures
            final(self).player == old(self).player,
            old(self).player@ == player@ ==> final(self).score == old(self).score + score,
            old(self).player@ != player@ ==> final(self).score == old(self).score,
    {
        if self.player == player {
            self.score = self.score + score;
        }
    }
}

/// A session: the five players' cumulative score table and the rounds
/// played so far, in order.
#[derive(Debug)]
pub struct Game {
    pub player_scores: Vec<PlayerScore>,
    pub rounds: Vec<Round>,
}

impl Game {
    /// Five score entries, no two for the same player.
    pub open spec fn wf(&self) -> bool {
        &&& self.player_scores@.len() == 5
        &&& forall|i: int, j: int|
            0 <= i < j < 5 ==> (#[trigger] self.player_scores@[i]).player@ != (
            #[trigger] self.player_scores@[j]).player@
    }

    /// Opens a session for the given players, every cumulative score at zero.
    pub fn new(players: Players) -> (r: Self)
        requires
            players.wf(),
        ensures
            r.wf(),
            r.rounds@.len() == 0,
            forall|i: int|
                0 <= i < 5 ==> (#[trigger] r.player_scores@[i]).player == players.0@[i]
                    && r.player_scores@[i].score == 0,
    {
        let mut player_scores: Vec<PlayerScore> = Vec::new();
        let mut i: usize = 0;
        while i < players.0.len()
            invariant
                players.0@.len() == 5,
                i <= 5,
                player_scores@.len() == i,
                forall|k: int|
                    0 <= k < i ==> (#[trigger] player_scores@[k]).player == players.0@[k]
                        && player_scores@[k].score == 0,
            decreases 5 - i,
        {
            player_scores.push(PlayerScore::new(players.0[i].clone()));
            i = i + 1;
        }
        Game { player_scores, rounds: Vec::new() }
    }

    /// Deals a fresh set of hands and open cards for the session's players:
    /// whatever order the shuffle produced, the 52 dealt cards are exactly
    /// the full deck.
    pub fn distribute(&self) -> (r: (FieldPlayers, Vec<Card>))
        requires
            self.wf(),
        ensures
            r.0.wf(),
            r.1@.len() == 2,
            forall|i: int|
                0 <= i < 5 ==> (#[trigger] r.0.0@[i]).player == self.player_scores@[i].player,
            forall|i: int| 0 <= i < 5 ==> (#[trigger] r.0.0@[i]).role == Role::Unassigned,
            dealt_cards(&r.0, r.1@).to_multiset() == full_deck().to_multiset(),
    {
        let mut v: Vec<Player> = Vec::new();
        let mut i: usize = 0;
        while i < self.player_scores.len()
            invariant
                self.player_scores@.len() == 5,
                i <= 5,
                v@.len() == i,
                forall|k: int| 0 <= k < i ==> #[trigger] v@[k] == self.player_scores@[k].player,
            decreases 5 - i,
        {
            v.push(self.player_scores[i].player.clone());
            i = i + 1;
        }
        let players = Players(v);
        distribute_cards(&players)
    }

    /// Records a completed round.
    pub fn add(&mut self, round: Round)
        ensures
            final(self).rounds@ == old(self).rounds@.push(round),
            final(self).player_scores == old(self).player_scores,
    {
        self.rounds.push(round);
    }
}

} // verus!
