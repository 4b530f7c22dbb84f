use napo::trump::{Suit, Trump};

#[test]
fn trump_test_trump_from_id() {
    let t = Trump::from_id(1).unwrap();
    assert_eq!(t.number, 1);
    assert_eq!(t.suit, Suit::Spade);

    let t = Trump::from_id(53);
    assert_eq!(t.is_err(), true);

    let t = Trump::from_id(36).unwrap();
    assert_eq!(t.number, 10);
    assert_eq!(t.suit, Suit::Diamond);

    let t = Trump::from_id(52).unwrap();
    assert_eq!(t.number, 13);
    assert_eq!(t.suit, Suit::Club);
}

#[test]
fn trump_test_trump_to_id() {
    let t = Trump { number: 1, suit: Suit::Spade };
    assert_eq!(t.to_id(), 1);

    let t = Trump { number: 10, suit: Suit::Club };
    assert_eq!(t.to_id(), 49);

    let t = Trump { number: 13, suit: Suit::Diamond };
    assert_eq!(t.to_id(), 39);
}

#[test]
fn trump_test_is_almighty() {
    let almighty = Trump { number: 1, suit: Suit::Spade };
    assert_eq!(almighty.is_almighty(), true);

    let normal = Trump { number: 3, suit: Suit::Spade };
    assert_eq!(normal.is_almighty(), false);
}

#[test]
fn trump_test_is_yoromeki() {
    let almighty = Trump { number: 12, suit: Suit::Heart };
    assert_eq!(almighty.is_yoromeki(), true);

    let normal = Trump { number: 3, suit: Suit::Spade };
    assert_eq!(normal.is_yoromeki(), false);
}

#[test]
fn trump_test_round_trip_all_ids() {
    for id in 1u8..=52 {
        let t = Trump::from_id(id).unwrap();
        assert_eq!(t.to_id(), id);
    }
}

#[test]
fn trump_test_is_face() {
    assert_eq!(Trump { number: 1, suit: Suit::Heart }.is_face(), true);
    assert_eq!(Trump { number: 11, suit: Suit::Club }.is_face(), true);
    assert_eq!(Trump { number: 9, suit: Suit::Spade }.is_face(), false);
}

#[test]
fn trump_test_suit_reverse() {
    assert_eq!(Suit::Spade.reverse(), Suit::Club);
    assert_eq!(Suit::Heart.reverse(), Suit::Diamond);
}
