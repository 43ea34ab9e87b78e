use chess::chess_engine::Move;

#[test]
fn parse_two_tokens() {
    let mv = Move::parse("e2 e4").unwrap();
    assert_eq!(mv.from, (1, 4));
    assert_eq!(mv.to, (3, 4));
}

#[test]
fn parse_corner_coordinates() {
    let mv = Move::parse("a1 h8").unwrap();
    assert_eq!(mv.from, (0, 0));
    assert_eq!(mv.to, (7, 7));
}

#[test]
fn parse_missing_token() {
    assert!(Move::parse("e2").is_none());
    assert!(Move::parse("").is_none());
    assert!(Move::parse("   ").is_none());
}

#[test]
fn parse_short_token() {
    assert!(Move::parse("e e4").is_none());
    assert!(Move::parse("e2 e").is_none());
}

#[test]
fn parse_extra_whitespace() {
    let mv = Move::parse("  e2\te4  ").unwrap();
    assert_eq!(mv.from, (1, 4));
    assert_eq!(mv.to, (3, 4));
}

#[test]
fn parse_extra_characters_ignored() {
    // only the first two characters of a token are read, and a third
    // token is never consulted
    let mv = Move::parse("e2x e4y z9").unwrap();
    assert_eq!(mv.from, (1, 4));
    assert_eq!(mv.to, (3, 4));
}

#[test]
fn parse_below_range_is_malformed() {
    assert!(Move::parse("A2 e4").is_none());
    assert!(Move::parse("e0 e4").is_none());
    assert!(Move::parse("e2 E4").is_none());
}

#[test]
fn parse_above_range_is_passed_through() {
    // indices beyond the board are not the parser's concern; the legality
    // engine rejects them
    let mv = Move::parse("z9 a1").unwrap();
    assert_eq!(mv.from, (8, 25));
    assert_eq!(mv.to, (0, 0));
}
