use napo::card::Card;
use napo::declaration::Declaration;
use napo::error::GameError;
use napo::player::Player;

#[test]
fn declaration_new() {
    Declaration::new(
        Player { id: "a".to_string() },
        None,
        13,
        Card::from_id(1).unwrap(),
    )
    .unwrap();
}

#[test]
fn declaration_new_invalid_number() {
    assert!(Declaration::new(
        Player { id: "a".to_string() },
        None,
        12,
        Card::from_id(1).unwrap(),
    )
    .is_err());
}

#[test]
fn declaration_base_score() {
    let d = Declaration::new(
        Player { id: "a".to_string() },
        None,
        13,
        Card::from_id(1).unwrap(),
    )
    .unwrap();
    assert_eq!(d.base_score(), 1);
}

#[test]
fn declaration_number_bounds() {
    let aide = Card::from_id(1).unwrap();
    for number in 13..=20 {
        let p = Player { id: "a".to_string() };
        assert!(Declaration::new(p, None, number, aide).is_ok());
    }
    let p = Player { id: "a".to_string() };
    assert!(matches!(
        Declaration::new(p, None, 12, aide),
        Err(GameError::InvalidDeclarationNumber)
    ));
    let p = Player { id: "a".to_string() };
    assert!(matches!(
        Declaration::new(p, None, 21, aide),
        Err(GameError::InvalidDeclarationNumber)
    ));
}
