use beejlander::{check_price, parse_flag, parse_price, str_eq, Config};
use beejlander::gui::{field_themes, price_or_default, Theme};

#[test]
fn invalid_price_is_flagged_per_field() {
    let parsed = Config::parse(true, vec!["abc", "0.1", "0.25", "0.2"]);
    assert_eq!(parsed.errors, vec![true, false, false, false]);
    assert!(parsed.config.is_none());
}

#[test]
fn all_valid_prices_yield_a_config() {
    let parsed = Config::parse(false, vec!["0.1", "0.1", "0.25", "0.2"]);
    assert_eq!(parsed.errors, vec![false, false, false, false]);
    let config = parsed.config.unwrap();
    assert!(!config.include_sb);
    assert_eq!(config.cmn_price, "0.1");
    assert_eq!(config.unc_price, "0.1");
    assert_eq!(config.rare_price, "0.25");
    assert_eq!(config.land_price, "0.2");
}

#[test]
fn every_invalid_field_is_reported_not_just_the_first() {
    let parsed = Config::parse(true, vec!["x", "0.1", "y", "z"]);
    assert_eq!(parsed.errors, vec![true, false, true, true]);
    assert!(parsed.config.is_none());
}

#[test]
fn price_validation_accepts_plain_decimals_only() {
    assert!(check_price("0.1"));
    assert!(check_price("12"));
    assert!(check_price("1."));
    assert!(check_price(".5"));
    assert!(check_price("0.25"));
    assert!(!check_price(""));
    assert!(!check_price("."));
    assert!(!check_price("abc"));
    assert!(!check_price("1.2.3"));
    assert!(!check_price("-1"));
    assert!(!check_price("1e3"));
    assert!(!check_price(" 0.1"));
}

#[test]
fn preset_config_is_taken_as_is() {
    let preset = Config::parse(false, vec!["0.5", "0.6", "0.7", "0.8"]).config.unwrap();
    let config = Config::new(Some(preset));
    assert!(!config.include_sb);
    assert_eq!(config.cmn_price, "0.5");
}

#[test]
fn missing_preset_falls_back_to_stock_config() {
    let config = Config::new(None);
    assert!(config.include_sb);
    assert_eq!(config.cmn_price, "0.1");
    assert_eq!(config.unc_price, "0.1");
    assert_eq!(config.rare_price, "0.25");
    assert_eq!(config.land_price, "0.2");
}

#[test]
fn flag_parsing_defaults_to_true() {
    assert!(parse_flag(None));
    assert!(parse_flag(Some("true")));
    assert!(parse_flag(Some("junk")));
    assert!(parse_flag(Some("")));
    assert!(!parse_flag(Some("false")));
}

#[test]
fn price_parsing_falls_back_to_default() {
    assert_eq!(parse_price(Some("0.3"), "0.1"), "0.3");
    assert_eq!(parse_price(Some("nope"), "0.1"), "0.1");
    assert_eq!(parse_price(None, "0.25"), "0.25");
}

#[test]
fn string_equality_is_by_characters() {
    assert!(str_eq("", ""));
    assert!(str_eq("abc", "abc"));
    assert!(!str_eq("abc", "abd"));
    assert!(!str_eq("abc", "abcd"));
}

#[test]
fn empty_form_field_takes_stock_price() {
    assert_eq!(price_or_default("", "0.1"), "0.1");
    assert_eq!(price_or_default("0.4", "0.1"), "0.4");
}

#[test]
fn field_colors_follow_validation() {
    let ok = Config::parse(true, vec!["0.1", "0.1", "0.25", "0.2"]);
    assert_eq!(field_themes(&ok), vec![Theme::Normal; 4]);
    let bad = Config::parse(true, vec!["abc", "0.1", "zz", "0.2"]);
    assert_eq!(
        field_themes(&bad),
        vec![Theme::Bad, Theme::Good, Theme::Bad, Theme::Good]
    );
}

#[test]
fn theme_default_is_normal() {
    assert_eq!(Theme::default(), Theme::Normal);
}
