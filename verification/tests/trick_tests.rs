use napo::player::Players;
use napo::round::Round;
use napo::trick::{Play, Trick};

#[test]
fn test_trick_add() {
    let mut trick = Trick::new();

    let players = Players::default();
    let r = Round::new(players);
    trick.add(Play::new(
        r.field_players.0[0].player.clone(),
        r.field_players.0[0].hands[0],
    ));
}

#[test]
fn test_trick_last_player() {
    let mut trick = Trick::new();
    assert_eq!(trick.last_player(), None);

    let players = Players::default();
    let r = Round::new(players);
    trick.add(Play::new(
        r.field_players.0[0].player.clone(),
        r.field_players.0[0].hands[0],
    ));
    assert_eq!(
        trick.last_player(),
        Some(r.field_players.0[0].player.clone())
    );

    trick.add(Play::new(
        r.field_players.0[1].player.clone(),
        r.field_players.0[1].hands[0],
    ));
    assert_eq!(
        trick.last_player(),
        Some(r.field_players.0[1].player.clone())
    );
}

#[test]
fn test_trick_array() {
    let mut trick = Trick::new();
    assert!(trick.array().is_err());

    let players = Players::default();
    let r = Round::new(players);
    for p in r.field_players.0.iter() {
        trick.add(Play::new(p.player.clone(), p.hands[0]));
    }

    for (t, p) in std::iter::zip(trick.array().unwrap(), r.field_players.0.iter()) {
        assert_eq!(t.player, p.player);
        assert_eq!(t.card, p.hands[0]);
    }
}
