use napo::card::{Card, Suit};

fn check_from_id(id: u8, number: u8, suit: Suit) {
    let t = Card::from_id(id).unwrap();
    assert_eq!(t.number, number);
    assert_eq!(t.suit, suit);
}

#[test]
fn card_test_trump_from_id() {
    check_from_id(1, 1, Suit::Spade);
    check_from_id(36, 10, Suit::Diamond);
    check_from_id(52, 13, Suit::Club);
}

#[test]
fn test_trump_from_id_error() {
    let t = Card::from_id(53);
    assert!(t.is_err());
}

#[test]
fn card_test_trump_to_id() {
    assert_eq!(Card { number: 1, suit: Suit::Spade }.to_id(), 1);
    assert_eq!(Card { number: 10, suit: Suit::Club }.to_id(), 49);
    assert_eq!(Card { number: 13, suit: Suit::Diamond }.to_id(), 39);
}

#[test]
fn card_test_is_almighty() {
    assert_eq!(Card { number: 1, suit: Suit::Spade }.is_almighty(), true);
    assert_eq!(Card { number: 3, suit: Suit::Spade }.is_almighty(), false);
}

#[test]
fn card_test_is_yoromeki() {
    assert_eq!(Card { number: 12, suit: Suit::Heart }.is_yoromeki(), true);
    assert_eq!(Card { number: 3, suit: Suit::Spade }.is_yoromeki(), false);
}

#[test]
fn test_is_face() {
    assert_eq!(Card { number: 1, suit: Suit::Spade }.is_face(), true);
    assert_eq!(Card { number: 10, suit: Suit::Club }.is_face(), true);
    assert_eq!(Card { number: 13, suit: Suit::Diamond }.is_face(), true);
    assert_eq!(Card { number: 2, suit: Suit::Spade }.is_face(), false);
}

#[test]
fn test_card_round_trip_all_ids() {
    for id in 1u8..=52 {
        let card = Card::from_id(id).unwrap();
        assert_eq!(card.to_id(), id);
    }
}

#[test]
fn test_card_round_trip_all_cards() {
    for suit in [Suit::Spade, Suit::Heart, Suit::Diamond, Suit::Club] {
        for number in 1u8..=13 {
            let card = Card { number, suit };
            let back = Card::from_id(card.to_id()).unwrap();
            assert_eq!(back, card);
        }
    }
}

#[test]
fn test_card_from_id_rejects_exactly_the_invalid_bytes() {
    let mut rejected: usize = 0;
    for id in 0u8..=255 {
        let ok = (1..=52).contains(&id);
        let r = Card::from_id(id);
        assert_eq!(r.is_ok(), ok);
        if r.is_err() {
            rejected += 1;
        }
    }
    assert_eq!(rejected, 204);
}

#[test]
fn test_suit_reverse_pairing() {
    assert_eq!(Suit::Spade.reverse(), Suit::Club);
    assert_eq!(Suit::Club.reverse(), Suit::Spade);
    assert_eq!(Suit::Heart.reverse(), Suit::Diamond);
    assert_eq!(Suit::Diamond.reverse(), Suit::Heart);
}
