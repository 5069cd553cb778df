use beejlander::request::{parse_card, matches_land, ParseError};

#[test]
fn parses_name_and_mana_value() {
    let card = parse_card("Lightning Bolt 1\nInstant").unwrap();
    assert_eq!(card.name, "Lightning Bolt");
    assert_eq!(card.cmc, "1");
    assert_eq!(card.type_line, "Instant");
    assert_eq!(card.count, 1);
}

#[test]
fn parses_basic_land_without_mana_value() {
    let card = parse_card("Forest\nBasic Land — Forest").unwrap();
    assert_eq!(card.name, "Forest");
    assert_eq!(card.cmc, "");
    assert_eq!(card.type_line, "Basic Land — Forest");
}

#[test]
fn parses_multi_word_land_name_whole() {
    let card = parse_card("Snow-Covered Island\nBasic Snow Land — Island").unwrap();
    assert_eq!(card.name, "Snow-Covered Island");
    assert_eq!(card.cmc, "");
}

#[test]
fn land_heuristic_is_case_insensitive_substring() {
    assert!(matches_land("Land"));
    assert!(matches_land("Basic Snow Land — Island"));
    assert!(matches_land("LAND"));
    // "Island" contains "land", so the heuristic fires on it too.
    assert!(matches_land("Island"));
    assert!(!matches_land("Instant"));
    assert!(!matches_land("Creature — Elf"));
    assert!(!matches_land(""));
    assert!(!matches_land("lan"));
}

#[test]
fn type_line_island_keeps_whole_first_line() {
    // The heuristic sees "land" inside "Island", so the last token is
    // not peeled off as a mana value.
    let card = parse_card("Mystic Gate 1\nLand — Island").unwrap();
    assert_eq!(card.name, "Mystic Gate 1");
    assert_eq!(card.cmc, "");
}

#[test]
fn single_token_line_is_all_name() {
    let card = parse_card("Ornithopter\nArtifact Creature — Thopter").unwrap();
    assert_eq!(card.name, "Ornithopter");
    assert_eq!(card.cmc, "");
}

#[test]
fn trims_first_line_before_splitting() {
    let card = parse_card("  Lightning Bolt 1  \nInstant").unwrap();
    assert_eq!(card.name, "Lightning Bolt");
    assert_eq!(card.cmc, "1");
}

#[test]
fn strips_carriage_returns() {
    let card = parse_card("Lightning Bolt 1\r\nInstant\r\n").unwrap();
    assert_eq!(card.name, "Lightning Bolt");
    assert_eq!(card.cmc, "1");
    assert_eq!(card.type_line, "Instant");
}

#[test]
fn one_line_response_is_rejected() {
    assert!(matches!(parse_card("Lightning Bolt 1"), Err(ParseError::MissingLines)));
    assert!(matches!(parse_card(""), Err(ParseError::MissingLines)));
    assert!(matches!(parse_card("Lightning Bolt 1\n"), Err(ParseError::MissingLines)));
}

#[test]
fn blank_first_line_is_rejected() {
    assert!(matches!(parse_card("   \nInstant"), Err(ParseError::EmptyName)));
    assert!(matches!(parse_card("\nInstant"), Err(ParseError::EmptyName)));
}

#[test]
fn second_line_may_be_empty() {
    let card = parse_card("Forest\n\nmore").unwrap();
    assert_eq!(card.name, "Forest");
    assert_eq!(card.type_line, "");
}
