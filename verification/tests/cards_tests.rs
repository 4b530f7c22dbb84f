use std::collections::HashSet;

use napo::card::Card;
use napo::cards::distribute_cards;
use napo::player::Players;

#[test]
fn test_distribute() {
    let (field_players, opens) = distribute_cards(&Players::default());

    let mut s: HashSet<u8> = HashSet::new();
    for p in field_players.0.iter() {
        assert_eq!(p.hands.len(), 10);
        for c in p.hands.iter() {
            assert!(!s.contains(&c.to_id()));
            s.insert(c.to_id());
        }
    }
    assert_eq!(opens.len(), 2);
    for c in opens.iter() {
        assert!(!s.contains(&c.to_id()));
        s.insert(c.to_id());
    }
    assert_eq!(s.len(), 52);
    for id in 1u8..=52 {
        assert!(s.contains(&id));
    }
}

#[test]
fn test_distribute_preserves_seating() {
    let players = Players::default();
    let (field_players, _) = distribute_cards(&players);
    for (fp, p) in field_players.0.iter().zip(players.0.iter()) {
        assert_eq!(fp.player, *p);
    }
}
