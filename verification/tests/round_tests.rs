use napo::card::Card;
use napo::declaration::Declaration;
use napo::player::{FieldPlayers, Players};
use napo::round::{Round, Team};
use napo::trick::{Play, Trick, TrickArray};
use napo::trick_result::TrickResult;

#[test]
fn test_round_new() {
    Round::new(Players::default());
}

#[test]
fn test_set_declaration() {
    let players = Players::default();
    let mut r = Round::new(players.clone());
    let d = Declaration::new(players.0[0].clone(), None, 13, Card::from_id(1).unwrap()).unwrap();
    r.set_declaration(d).unwrap();
}

#[test]
fn test_set_declaration_invalid_napoleon() {
    let players = Players::default();
    let mut r = Round::new(players.clone());
    let d = Declaration::new(players.0[0].clone(), None, 13, Card::from_id(1).unwrap()).unwrap();
    r.set_declaration(d).unwrap();
}

#[test]
fn test_set_declaration_already_set() {
    let players = Players::default();
    let mut r = Round::new(players.clone());
    let d = Declaration::new(players.0[0].clone(), None, 13, Card::from_id(1).unwrap()).unwrap();
    r.set_declaration(d).unwrap();

    let d = Declaration::new(players.0[1].clone(), None, 13, Card::from_id(1).unwrap()).unwrap();
    assert!(r.set_declaration(d).is_err());
}

#[test]
fn test_is_alone() {
    let players = Players::default();
    let mut r = Round::new(players.clone());
    let d = Declaration::new(
        r.field_players.0[0].player.clone(),
        None,
        13,
        r.field_players.0[0].hands[0],
    )
    .unwrap();
    r.set_declaration(d).unwrap();
    assert!(r.is_alone());

    let mut r = Round::new(players.clone());
    let d = Declaration::new(
        r.field_players.0[0].player.clone(),
        None,
        13,
        r.field_players.0[1].hands[0],
    )
    .unwrap();
    r.set_declaration(d).unwrap();
    assert!(!r.is_alone());
}

fn dummy_trick(field_players: &FieldPlayers, i: usize) -> TrickArray {
    let mut trick = Trick::new();
    for p in field_players.0.iter() {
        trick.add(Play::new(p.player.clone(), p.hands[i]));
    }
    trick.array().unwrap()
}

#[test]
fn test_add() {
    let players = Players::default();
    let mut r = Round::new(players.clone());
    let d = Declaration::new(
        r.field_players.0[0].player.clone(),
        None,
        13,
        r.field_players.0[1].hands[0],
    )
    .unwrap();
    r.set_declaration(d).unwrap();

    let trick_result = TrickResult {
        trick: dummy_trick(&r.field_players, 0),
        winner: players.0[0].clone(),
        face_cards: vec![Card::from_id(1).unwrap(), Card::from_id(10).unwrap()],
    };

    r.add(trick_result);
    assert_eq!(r.trick_results().len(), 1);
}

#[test]
fn test_team_score() {
    let players = Players::default();
    let mut r = Round::new(players.clone());
    assert!(r.team_score().is_err());

    let d = Declaration::new(
        r.field_players.0[0].player.clone(),
        None,
        13,
        r.field_players.0[1].hands[0],
    )
    .unwrap();
    r.set_declaration(d).unwrap();

    let trick_result = TrickResult {
        trick: dummy_trick(&r.field_players, 0),
        winner: players.0[0].clone(),
        face_cards: vec![Card::from_id(1).unwrap(), Card::from_id(10).unwrap()],
    };
    r.add(trick_result);

    let trick_result = TrickResult {
        trick: dummy_trick(&r.field_players, 1),
        winner: players.0[2].clone(),
        face_cards: vec![
            Card::from_id(11).unwrap(),
            Card::from_id(12).unwrap(),
            Card::from_id(13).unwrap(),
        ],
    };
    r.add(trick_result);

    let (napo, union) = r.team_score().unwrap();
    assert_eq!(napo, 2);
    assert_eq!(union, 3);
}

#[test]
fn test_winner_napoleon() {
    let players = Players::default();
    let mut r = Round::new(players.clone());
    assert!(r.winner().is_err());

    let d = Declaration::new(
        r.field_players.0[0].player.clone(),
        None,
        13,
        r.field_players.0[1].hands[0],
    )
    .unwrap();
    r.set_declaration(d).unwrap();

    r.add(TrickResult {
        trick: dummy_trick(&r.field_players, 0),
        winner: players.0[0].clone(),
        face_cards: vec![Card::from_id(1).unwrap()],
    });
    // one card for the napoleon: nothing decided yet
    assert_eq!(r.team_score().unwrap().0, 1);
    assert!(r.winner().unwrap().is_none());

    r.add(TrickResult {
        trick: dummy_trick(&r.field_players, 0),
        winner: players.0[1].clone(),
        face_cards: (2..14).map(|i| Card::from_id(i).unwrap()).collect(),
    });
    // the aide takes twelve more: thirteen in all, the target is met
    assert_eq!(r.team_score().unwrap().0, 13);
    assert_eq!(r.winner().unwrap(), Some(Team::Napoleon));

    r.add(TrickResult {
        trick: dummy_trick(&r.field_players, 0),
        winner: players.0[0].clone(),
        face_cards: (14..21).map(|i| Card::from_id(i).unwrap()).collect(),
    });
    // the napoleon side sweeps all twenty below a twenty bid: union wins
    assert_eq!(r.team_score().unwrap().0, 20);
    assert_eq!(r.winner().unwrap(), Some(Team::Union));
}

#[test]
fn test_winner_union() {
    let players = Players::default();
    let mut r = Round::new(players.clone());
    assert!(r.winner().is_err());

    let d = Declaration::new(
        r.field_players.0[0].player.clone(),
        None,
        13,
        r.field_players.0[1].hands[0],
    )
    .unwrap();
    r.set_declaration(d).unwrap();

    r.add(TrickResult {
        trick: dummy_trick(&r.field_players, 0),
        winner: players.0[2].clone(),
        face_cards: vec![Card::from_id(1).unwrap()],
    });
    // one card for the union: nothing decided yet
    assert_eq!(r.team_score().unwrap().1, 1);
    assert!(r.winner().unwrap().is_none());

    r.add(TrickResult {
        trick: dummy_trick(&r.field_players, 0),
        winner: players.0[3].clone(),
        face_cards: (2..9).map(|i| Card::from_id(i).unwrap()).collect(),
    });
    // eight union cards: the napoleon side can no longer reach thirteen
    assert_eq!(r.team_score().unwrap().1, 8);
    assert_eq!(r.winner().unwrap(), Some(Team::Union));
}

#[test]
fn test_last_winner() {
    let players = Players::default();
    let mut r = Round::new(players.clone());
    assert!(r.last_winner().is_err());

    let d = Declaration::new(
        r.field_players.0[0].player.clone(),
        None,
        13,
        r.field_players.0[1].hands[0],
    )
    .unwrap();
    r.set_declaration(d).unwrap();
    assert_eq!(r.last_winner().unwrap(), r.field_players.0[0].player.clone());

    r.add(TrickResult {
        trick: dummy_trick(&r.field_players, 0),
        winner: players.0[2].clone(),
        face_cards: vec![Card::from_id(1).unwrap()],
    });
    assert_eq!(r.last_winner().unwrap(), r.field_players.0[2].player.clone());
}
