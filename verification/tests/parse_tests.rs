use quarto::try_parse_pos;

#[test]
fn test_parse_simple_pair() {
    assert_eq!(try_parse_pos("2,3"), Ok((2, 3)));
    assert_eq!(try_parse_pos("0,0"), Ok((0, 0)));
    assert_eq!(try_parse_pos("10,7"), Ok((10, 7)));
}

#[test]
fn test_parse_trims_surrounding_whitespace() {
    assert_eq!(try_parse_pos("  1,2  "), Ok((1, 2)));
    assert_eq!(try_parse_pos("\t3,0\n"), Ok((3, 0)));
}

#[test]
fn test_parse_rejects_malformed_input() {
    assert_eq!(try_parse_pos(""), Err(()));
    assert_eq!(try_parse_pos("1"), Err(()));
    assert_eq!(try_parse_pos("1,2,3"), Err(()));
    assert_eq!(try_parse_pos("a,2"), Err(()));
    assert_eq!(try_parse_pos("1,"), Err(()));
    assert_eq!(try_parse_pos(",2"), Err(()));
    assert_eq!(try_parse_pos("1 , 2"), Err(()));
    assert_eq!(try_parse_pos("1,2x"), Err(()));
}

#[test]
fn test_parse_rejects_overflow() {
    assert_eq!(try_parse_pos("99999999999999999999999999,1"), Err(()));
    let max = usize::MAX.to_string();
    let input = format!("{max},{max}");
    assert_eq!(try_parse_pos(&input), Ok((usize::MAX, usize::MAX)));
}
