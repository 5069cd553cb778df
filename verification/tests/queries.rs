use beejlander::query::{generate_queries, pes, start_query, end_query, sb};
use beejlander::Config;

fn config(silver: bool) -> Config {
    Config::parse(silver, vec!["0.1", "0.1", "0.25", "0.2"]).config.unwrap()
}

#[test]
fn rare_query_exact() {
    let q = generate_queries(&config(false));
    assert_eq!(
        q.rare,
        "q=-t%3Aconspiracy+-t%3Acontraption+-border%3Asilver+r>u+usd<%3D0.25+&format=text"
    );
}

#[test]
fn other_query_exact() {
    let q = generate_queries(&config(false));
    assert_eq!(
        q.other,
        "q=-t%3Aconspiracy+-t%3Acontraption+-border%3Asilver+%28%28-t%3Aland+r%3Ac+usd<%3D0.1%29\
         +or+%28-t%3Aland+r%3Au+usd<%3D0.1%29+or+%28t%3Aland+r<r+usd<%3D0.2%29%29+&format=text"
    );
}

#[test]
fn silver_flag_removes_only_border_clause() {
    let with = generate_queries(&config(true));
    let without = generate_queries(&config(false));
    let inserted = "contraption+-border%3Asilver";
    assert_eq!(without.rare, with.rare.replacen("contraption", inserted, 1));
    assert_eq!(without.other, with.other.replacen("contraption", inserted, 1));
}

#[test]
fn queries_are_deterministic() {
    let a = generate_queries(&config(false));
    let b = generate_queries(&config(false));
    assert_eq!(a.rare, b.rare);
    assert_eq!(a.other, b.other);
}

#[test]
fn no_raw_reserved_characters_between_frame_and_suffix() {
    for silver in [true, false] {
        let q = generate_queries(&config(silver));
        for text in [&q.rare, &q.other] {
            let body = text
                .strip_prefix("q=")
                .unwrap()
                .strip_suffix("&format=text")
                .unwrap();
            for c in body.chars() {
                assert!(!['(', ')', ':', '='].contains(&c), "raw {c} in {text}");
            }
        }
    }
}

#[test]
fn prices_are_embedded_verbatim() {
    let config = Config::parse(true, vec!["0.07", "1.5", "12", "0.33"]).config.unwrap();
    let q = generate_queries(&config);
    assert!(q.other.contains("r%3Ac+usd<%3D0.07%29"));
    assert!(q.other.contains("r%3Au+usd<%3D1.5%29"));
    assert!(q.other.contains("t%3Aland+r<r+usd<%3D0.33%29"));
    assert!(q.rare.contains("r>u+usd<%3D12+"));
}

#[test]
fn pes_encodes_each_reserved_symbol() {
    assert_eq!(pes("("), "%28");
    assert_eq!(pes(")"), "%29");
    assert_eq!(pes("+"), "%2B");
    assert_eq!(pes(":"), "%3A");
    assert_eq!(pes("="), "%3D");
    assert_eq!(pes("x"), "");
    assert_eq!(pes(""), "");
}

#[test]
fn start_and_end_pieces() {
    assert_eq!(start_query(true), "q=-t%3Aconspiracy+-t%3Acontraption");
    assert_eq!(
        start_query(false),
        "q=-t%3Aconspiracy+-t%3Acontraption+-border%3Asilver"
    );
    assert_eq!(end_query(), "&format=text");
    assert_eq!(sb(true), "");
    assert_eq!(sb(false), "-border%3Asilver");
}
