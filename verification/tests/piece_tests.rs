use quarto::{GameError, Piece, Property};

#[test]
fn test_new_piece_all_false() {
    let p = Piece::new();
    assert!(!p.get(Property::Tall));
    assert!(!p.get(Property::Round));
    assert!(!p.get(Property::Full));
    assert!(!p.get(Property::Light));
}

#[test]
fn test_new_with_props_reads_back() {
    let p = Piece::new_with_props(Property::Tall.mask() | Property::Light.mask()).unwrap();
    assert!(p.get(Property::Tall));
    assert!(!p.get(Property::Round));
    assert!(!p.get(Property::Full));
    assert!(p.get(Property::Light));

    let q = Piece::new_with_props(15).unwrap();
    assert!(q.get(Property::Tall));
    assert!(q.get(Property::Round));
    assert!(q.get(Property::Full));
    assert!(q.get(Property::Light));
}

#[test]
fn test_new_with_props_rejects_high_bits() {
    assert_eq!(
        Piece::new_with_props(16),
        Err(GameError::InvalidPropertyEncoding)
    );
    assert_eq!(
        Piece::new_with_props(255),
        Err(GameError::InvalidPropertyEncoding)
    );
}

#[test]
fn test_set_changes_only_one_property() {
    let mut p = Piece::new_with_props(Property::Tall.mask()).unwrap();
    p.set(Property::Round, true);
    assert!(p.get(Property::Tall));
    assert!(p.get(Property::Round));
    assert!(!p.get(Property::Full));
    assert!(!p.get(Property::Light));

    p.set(Property::Tall, false);
    assert!(!p.get(Property::Tall));
    assert!(p.get(Property::Round));
    assert!(!p.get(Property::Full));
    assert!(!p.get(Property::Light));
}

#[test]
fn test_pp_write_symbols() {
    let none = Piece::new_with_props(0).unwrap();
    assert_eq!(none.pp_write(), "[\u{1f90f}\u{1f536}\u{2b55}\u{1f3f4}]");

    let all = Piece::new_with_props(15).unwrap();
    assert_eq!(all.pp_write(), "[\u{270b}\u{1f7e0}\u{1f534}\u{2b1c}]");

    let light_tall =
        Piece::new_with_props(Property::Tall.mask() | Property::Light.mask()).unwrap();
    assert_eq!(
        light_tall.pp_write(),
        "[\u{270b}\u{1f536}\u{2b55}\u{2b1c}]"
    );
}
