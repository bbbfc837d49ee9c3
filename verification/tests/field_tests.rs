use quarto::{Field, GameError, Piece, Property};

fn light_tall() -> Piece {
    Piece::new_with_props(Property::Tall.mask() | Property::Light.mask()).unwrap()
}

fn dark_short() -> Piece {
    Piece::new_with_props(0).unwrap()
}

fn short_full_dark_circle() -> Piece {
    Piece::new_with_props(Property::Full.mask() | Property::Round.mask()).unwrap()
}

#[test]
fn test_squares() {
    let mut field = Field::new();
    field.square_mode = true;

    field.put((0, 0), light_tall()).unwrap();
    field.put((0, 1), light_tall()).unwrap();
    field.put((1, 0), light_tall()).unwrap();

    assert!(!field.check_field_for_win());

    field.put((1, 1), light_tall()).unwrap();

    assert!(field.check_field_for_win());
}

#[test]
fn test_wrong_prop_square() {
    let mut field = Field::new();
    field.square_mode = true;

    field.put((0, 0), light_tall()).unwrap();
    field.put((0, 1), dark_short()).unwrap();
    field.put((1, 0), light_tall()).unwrap();
    field.put((1, 1), light_tall()).unwrap();

    assert!(field.check_field_for_win());
}

#[test]
fn test_different_square() {
    let mut field = Field::new();
    field.square_mode = true;

    field.put((2, 2), light_tall()).unwrap();
    field.put((2, 3), light_tall()).unwrap();
    field.put((3, 2), light_tall()).unwrap();
    field.put((3, 3), light_tall()).unwrap();

    assert!(field.check_field_for_win());
}

#[test]
fn test_row() {
    let mut field = Field::new();

    field.put((0, 0), light_tall()).unwrap();
    field.put((0, 1), light_tall()).unwrap();
    field.put((0, 2), light_tall()).unwrap();

    assert!(!field.check_field_for_win());

    field.put((0, 3), light_tall()).unwrap();

    assert!(field.check_field_for_win());
}

#[test]
fn test_wrong_prop_row() {
    let mut field = Field::new();

    field.put((0, 0), light_tall()).unwrap();
    field.put((0, 1), light_tall()).unwrap();
    field.put((0, 2), dark_short()).unwrap();

    assert!(!field.check_field_for_win());

    field.put((0, 3), light_tall()).unwrap();

    assert!(field.check_field_for_win());
}

#[test]
fn test_col() {
    let mut field = Field::new();

    field.put((0, 0), light_tall()).unwrap();
    field.put((1, 0), light_tall()).unwrap();
    field.put((2, 0), light_tall()).unwrap();

    assert!(!field.check_field_for_win());

    field.put((3, 0), light_tall()).unwrap();

    assert!(field.check_field_for_win());
}

#[test]
fn test_wrong_prop_col() {
    let mut field = Field::new();

    field.put((0, 0), light_tall()).unwrap();
    field.put((1, 0), light_tall()).unwrap();
    field.put((2, 0), dark_short()).unwrap();

    assert!(!field.check_field_for_win());

    field.put((3, 0), light_tall()).unwrap();

    assert!(field.check_field_for_win());
}

#[test]
fn test_diag() {
    let mut field = Field::new();

    field.put((0, 0), light_tall()).unwrap();
    field.put((1, 1), light_tall()).unwrap();
    field.put((2, 2), light_tall()).unwrap();

    assert!(!field.check_field_for_win());

    field.put((3, 3), light_tall()).unwrap();

    assert!(field.check_field_for_win());
}

#[test]
fn test_prop_diag_two() {
    let mut field = Field::new();

    field.put((0, 0), light_tall()).unwrap();
    field.put((1, 1), light_tall()).unwrap();
    field.put((2, 2), dark_short()).unwrap();

    assert!(!field.check_field_for_win());

    field.put((3, 3), light_tall()).unwrap();

    assert!(field.check_field_for_win());
}

#[test]
fn test_wrong_prop_diag() {
    let mut field = Field::new();

    field.put((0, 0), light_tall()).unwrap();
    field.put((1, 1), light_tall()).unwrap();
    field.put((2, 2), dark_short()).unwrap();

    assert!(!field.check_field_for_win());

    field.put((3, 3), short_full_dark_circle()).unwrap();

    assert!(!field.check_field_for_win());
}

#[test]
fn test_other_diag() {
    let mut field = Field::new();

    field.put((3, 0), light_tall()).unwrap();
    field.put((2, 1), light_tall()).unwrap();
    field.put((1, 2), light_tall()).unwrap();

    assert!(!field.check_field_for_win());

    field.put((0, 3), light_tall()).unwrap();

    assert!(field.check_field_for_win());
}

#[test]
fn test_empty_board_no_win() {
    let field = Field::new();
    assert!(!field.check_field_for_win());

    let mut field = Field::new();
    field.square_mode = true;
    assert!(!field.check_field_for_win());
}

#[test]
fn test_no_full_line_no_win() {
    let mut field = Field::new();
    field.square_mode = true;

    field.put((0, 0), light_tall()).unwrap();
    field.put((1, 0), light_tall()).unwrap();
    field.put((2, 0), light_tall()).unwrap();
    field.put((0, 1), light_tall()).unwrap();
    field.put((3, 2), light_tall()).unwrap();
    field.put((1, 3), light_tall()).unwrap();

    assert!(!field.check_field_for_win());
}

#[test]
fn test_check_is_idempotent() {
    let mut field = Field::new();

    field.put((0, 0), light_tall()).unwrap();
    field.put((0, 1), light_tall()).unwrap();
    field.put((0, 2), light_tall()).unwrap();
    field.put((0, 3), light_tall()).unwrap();

    let first = field.check_field_for_win();
    assert_eq!(field.check_field_for_win(), first);
    assert_eq!(field.check_field_for_win(), first);
}

#[test]
fn test_column_with_compatible_fourth() {
    let mut field = Field::new();
    let fourth = Piece::new_with_props(
        Property::Tall.mask() | Property::Light.mask() | Property::Round.mask(),
    )
    .unwrap();

    field.put((0, 0), light_tall()).unwrap();
    field.put((0, 1), light_tall()).unwrap();
    field.put((0, 2), light_tall()).unwrap();

    assert!(!field.check_field_for_win());

    field.put((0, 3), fourth).unwrap();

    assert!(field.check_field_for_win());
}

#[test]
fn test_column_no_unanimous_property() {
    let mut field = Field::new();

    field.put((0, 0), light_tall()).unwrap();
    field.put((0, 1), light_tall()).unwrap();
    field.put((0, 2), dark_short()).unwrap();
    field.put((0, 3), short_full_dark_circle()).unwrap();

    assert!(!field.check_field_for_win());
}

#[test]
fn test_square_incremental() {
    let mut field = Field::new();
    field.square_mode = true;

    field.put((2, 2), light_tall()).unwrap();
    field.put((2, 3), light_tall()).unwrap();
    field.put((3, 2), light_tall()).unwrap();

    assert!(!field.check_field_for_win());

    field.put((3, 3), light_tall()).unwrap();

    assert!(field.check_field_for_win());
}

#[test]
fn test_square_needs_square_mode() {
    let mut plain = Field::new();
    plain.put((2, 2), light_tall()).unwrap();
    plain.put((2, 3), light_tall()).unwrap();
    plain.put((3, 2), light_tall()).unwrap();
    plain.put((3, 3), light_tall()).unwrap();
    assert!(!plain.check_field_for_win());

    let mut with_squares = Field::new();
    with_squares.square_mode = true;
    with_squares.put((2, 2), light_tall()).unwrap();
    with_squares.put((2, 3), light_tall()).unwrap();
    with_squares.put((3, 2), light_tall()).unwrap();
    with_squares.put((3, 3), light_tall()).unwrap();
    assert!(with_squares.check_field_for_win());
}

#[test]
fn test_put_occupied_keeps_piece() {
    let mut field = Field::new();

    field.put((1, 1), light_tall()).unwrap();
    let result = field.put((1, 1), dark_short());

    assert_eq!(result, Err(GameError::OccupiedCell));
    assert_eq!(field.get((1, 1)), Some(light_tall()));
    assert_eq!(field.empty_spaces().len(), 15);
}

#[test]
fn test_clear_returns_piece() {
    let mut field = Field::new();

    field.put((2, 1), light_tall()).unwrap();
    assert_eq!(field.clear((2, 1)), Some(light_tall()));
    assert_eq!(field.get((2, 1)), None);
    assert_eq!(field.clear((2, 1)), None);
}

#[test]
fn test_empty_spaces_order() {
    let mut field = Field::new();
    let all: Vec<(usize, usize)> = field.empty_spaces();
    assert_eq!(all.len(), 16);
    assert_eq!(all[0], (0, 0));
    assert_eq!(all[1], (0, 1));
    assert_eq!(all[4], (1, 0));
    assert_eq!(all[15], (3, 3));

    field.put((0, 0), light_tall()).unwrap();
    field.put((2, 3), light_tall()).unwrap();
    let rest = field.empty_spaces();
    assert_eq!(rest.len(), 14);
    assert_eq!(rest[0], (0, 1));
    assert!(!rest.contains(&(0, 0)));
    assert!(!rest.contains(&(2, 3)));
}

#[test]
fn test_check_array_for_win_directly() {
    let matching = [
        Some(light_tall()),
        Some(light_tall()),
        Some(dark_short()),
        Some(light_tall()),
    ];
    assert!(Field::check_array_for_win(&matching));

    let clashing = [
        Some(light_tall()),
        Some(light_tall()),
        Some(dark_short()),
        Some(short_full_dark_circle()),
    ];
    assert!(!Field::check_array_for_win(&clashing));

    let with_hole = [
        Some(light_tall()),
        None,
        Some(light_tall()),
        Some(light_tall()),
    ];
    assert!(!Field::check_array_for_win(&with_hole));
}
