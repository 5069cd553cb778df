use beejlander::request::{fetch_cards, FetchOutcome, SampleError, Sampler};

fn text(s: &str) -> FetchOutcome {
    FetchOutcome::Text(s.to_string())
}

fn distinct(prefix: &str, n: usize) -> Vec<FetchOutcome> {
    (0..n)
        .map(|i| text(&format!("{prefix}{i} 2\nInstant")))
        .collect()
}

#[test]
fn clean_stream_yields_exactly_one_hundred() {
    let mut outcomes = vec![text("Shiny Rare 5\nCreature — Dragon")];
    outcomes.extend(distinct("Common", 99));
    let list = fetch_cards(outcomes).unwrap();
    assert_eq!(list.total(), 100);
    assert_eq!(list.len(), 100);
    let rare = list.get(list.find("Shiny Rare").unwrap());
    assert_eq!(rare.count, 1);
    assert_eq!(rare.cmc, "5");
}

#[test]
fn duplicates_fold_until_budget_spent() {
    let mut outcomes = vec![text("Shiny Rare 5\nCreature")];
    // One new entry, five folded duplicates, then a sixth duplicate
    // that must be discarded and replaced by further fetches.
    for _ in 0..7 {
        outcomes.push(text("Popular Pick 2\nInstant"));
    }
    outcomes.extend(distinct("Filler", 93));
    let list = fetch_cards(outcomes).unwrap();
    assert_eq!(list.total(), 100);
    assert_eq!(list.len(), 95);
    let pick = list.get(list.find("Popular Pick").unwrap());
    assert_eq!(pick.count, 6);
}

#[test]
fn sixth_duplicate_triggers_retry_not_increment() {
    let mut outcomes = vec![text("Shiny Rare 5\nCreature")];
    for _ in 0..7 {
        outcomes.push(text("Popular Pick 2\nInstant"));
    }
    // Only 92 replacements: the discarded seventh duplicate was not
    // counted, so the stream runs dry one fetch short.
    outcomes.extend(distinct("Filler", 92));
    assert!(matches!(fetch_cards(outcomes), Err(SampleError::Fetch)));
}

#[test]
fn duplicate_of_the_rare_pick_counts_against_budget() {
    let mut outcomes = vec![text("Shiny Rare 5\nCreature")];
    outcomes.push(text("Shiny Rare 5\nCreature"));
    outcomes.extend(distinct("Common", 98));
    let list = fetch_cards(outcomes).unwrap();
    assert_eq!(list.total(), 100);
    assert_eq!(list.len(), 99);
    let rare = list.get(list.find("Shiny Rare").unwrap());
    assert_eq!(rare.count, 2);
}

#[test]
fn fetch_failure_on_fiftieth_fetch_aborts_run() {
    let mut outcomes = vec![text("Shiny Rare 5\nCreature")];
    outcomes.extend(distinct("Common", 48));
    outcomes.push(FetchOutcome::Failed);
    outcomes.extend(distinct("Late", 60));
    assert!(matches!(fetch_cards(outcomes), Err(SampleError::Fetch)));
}

#[test]
fn unparseable_response_aborts_run() {
    let outcomes = vec![
        text("Shiny Rare 5\nCreature"),
        text("no second line"),
    ];
    assert!(matches!(fetch_cards(outcomes), Err(SampleError::Parse)));
}

#[test]
fn exhausted_stream_is_a_fetch_failure() {
    assert!(matches!(fetch_cards(Vec::new()), Err(SampleError::Fetch)));
    let outcomes = vec![text("Shiny Rare 5\nCreature")];
    assert!(matches!(fetch_cards(outcomes), Err(SampleError::Fetch)));
}

#[test]
fn sampler_walks_rare_phase_first() {
    let mut s = Sampler::new();
    assert!(s.needs_rare());
    assert!(!s.is_done());
    assert_eq!(s.accepted(), 0);
    s.accept("Shiny Rare 5\nCreature").unwrap();
    assert!(!s.needs_rare());
    assert_eq!(s.accepted(), 1);
    for i in 0..99 {
        assert!(!s.is_done());
        s.accept(&format!("Common{i} 2\nInstant")).unwrap();
    }
    assert!(s.is_done());
    assert_eq!(s.accepted(), 100);
    let list = s.finish();
    assert_eq!(list.total(), 100);
}
