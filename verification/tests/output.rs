use beejlander::io::{render_list, u8_digits};
use beejlander::request::{CardList, fetch_cards, FetchOutcome};
use beejlander::Card;

#[test]
fn counts_render_in_decimal() {
    assert_eq!(u8_digits(0), "0");
    assert_eq!(u8_digits(7), "7");
    assert_eq!(u8_digits(10), "10");
    assert_eq!(u8_digits(42), "42");
    assert_eq!(u8_digits(100), "100");
    assert_eq!(u8_digits(255), "255");
}

fn card(name: &str, count: u8) -> Card {
    Card {
        name: name.to_string(),
        cmc: String::new(),
        type_line: "Instant".to_string(),
        count,
    }
}

#[test]
fn renders_one_line_per_entry() {
    let list = CardList { entries: vec![card("Forest", 3), card("Lightning Bolt", 1)] };
    assert_eq!(render_list(&list), "3x Forest\n1x Lightning Bolt\n");
}

#[test]
fn renders_empty_collection_as_empty_text() {
    let list = CardList::new();
    assert_eq!(render_list(&list), "");
}

#[test]
fn rendered_sample_has_one_hundred_occurrences() {
    let mut outcomes = vec![FetchOutcome::Text("Shiny Rare 5\nCreature".to_string())];
    for i in 0..99 {
        outcomes.push(FetchOutcome::Text(format!("Common{i} 2\nInstant")));
    }
    let list = fetch_cards(outcomes).unwrap();
    let rendered = render_list(&list);
    assert_eq!(rendered.lines().count(), 100);
    assert!(rendered.contains("1x Shiny Rare\n"));
    let total: u32 = rendered
        .lines()
        .map(|l| l.split_once('x').unwrap().0.parse::<u32>().unwrap())
        .sum();
    assert_eq!(total, 100);
}
