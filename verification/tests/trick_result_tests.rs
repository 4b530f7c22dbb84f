use napo::card::{Card, Suit};
use napo::player::Players;
use napo::trick::{Play, Trick};
use napo::trick_result::TrickResult;

type FieldCardIds = [u8; 5];

fn get_trick(ids: &FieldCardIds) -> Trick {
    let players = Players::default();
    let mut trick = Trick::new();
    for (pid, id) in ids.iter().enumerate() {
        trick.add(Play::new(
            players.0[pid].clone(),
            Card::from_id(*id).unwrap(),
        ));
    }
    trick
}

#[test]
fn test_get_field_cards() {
    let v: FieldCardIds = [1, 4, 25, 40, 52];
    let t = get_trick(&v);
    assert_eq!(t.plays.len(), 5);
}

#[test]
fn test_judge_winner_almighty() {
    let v: FieldCardIds = [1, 4, 24, 40, 52];
    let t = get_trick(&v);
    let r = TrickResult::new(&t, None, 1).unwrap();
    assert_eq!(r.winner.id, "a");
    assert_eq!(
        r.face_cards,
        vec![
            Card::from_id(1).unwrap(),
            Card::from_id(24).unwrap(),
            Card::from_id(40).unwrap(),
            Card::from_id(52).unwrap(),
        ],
    );
}

#[test]
fn test_judge_winner_yoromeki() {
    let v: FieldCardIds = [1, 4, 25, 40, 52];
    let t = get_trick(&v);
    let r = TrickResult::new(&t, None, 1).unwrap();
    assert_eq!(r.winner.id, "c");
    assert_eq!(
        r.face_cards,
        vec![
            Card::from_id(1).unwrap(),
            Card::from_id(25).unwrap(),
            Card::from_id(40).unwrap(),
            Card::from_id(52).unwrap(),
        ],
    );
}

#[test]
fn test_judge_winner_jack() {
    let v: FieldCardIds = [2, 11, 24, 40, 52];
    let t = get_trick(&v);
    let r = TrickResult::new(&t, Some(Suit::Spade), 1).unwrap();
    assert_eq!(r.winner.id, "b");
    assert_eq!(
        r.face_cards,
        vec![
            Card::from_id(11).unwrap(),
            Card::from_id(24).unwrap(),
            Card::from_id(40).unwrap(),
            Card::from_id(52).unwrap(),
        ],
    );
}

#[test]
fn test_judge_winner_rev_jack() {
    let v: FieldCardIds = [2, 4, 24, 40, 50];
    let t = get_trick(&v);
    let r = TrickResult::new(&t, Some(Suit::Spade), 1).unwrap();
    assert_eq!(r.winner.id, "e");
    assert_eq!(
        r.face_cards,
        vec![
            Card::from_id(24).unwrap(),
            Card::from_id(40).unwrap(),
            Card::from_id(50).unwrap(),
        ],
    );
}

#[test]
fn test_judge_winner_same2() {
    let v: FieldCardIds = [2, 3, 4, 5, 6];

    let t = get_trick(&v);
    let r = TrickResult::new(&t, None, 2).unwrap();
    assert_eq!(r.winner.id, "a");
    assert_eq!(r.face_cards, Vec::<Card>::new());

    let r = TrickResult::new(&t, None, 1).unwrap();
    assert_eq!(r.winner.id, "e");
    assert_eq!(r.face_cards, Vec::<Card>::new());
}

#[test]
fn test_judge_winner_incomplete_trick() {
    let mut trick = Trick::new();
    let players = Players::default();
    trick.add(Play::new(players.0[0].clone(), Card::from_id(1).unwrap()));
    assert!(TrickResult::new(&trick, None, 1).is_err());
}

#[test]
fn test_judge_winner_lead_ace_wins_default_tier() {
    // an Ace of the lead suit counts above the King even when it leads
    let v: FieldCardIds = [27, 30, 35, 39, 31];
    let t = get_trick(&v);
    let r = TrickResult::new(&t, None, 1).unwrap();
    assert_eq!(r.winner.id, "a");
}

#[test]
fn test_judge_winner_off_suit_never_wins_default_tier() {
    // higher ranks off the lead suit lose to the best lead-suit card
    let v: FieldCardIds = [3, 18, 31, 44, 2];
    let t = get_trick(&v);
    let r = TrickResult::new(&t, None, 1).unwrap();
    assert_eq!(r.winner.id, "a");
}
