use ponder_db::card::ScryfallCard;
use ponder_db::text::{contains, parse_i32, text_eq};
use ponder_db::typeline::{parse_type_line, split_type_line};

fn card_with_line(line: &str) -> ScryfallCard {
    ScryfallCard { type_line: Some(line.to_string()), ..Default::default() }
}

#[test]
fn legendary_creature_with_two_subtypes() {
    let t = parse_type_line("Legendary Creature \u{2014} Elf Druid");
    assert_eq!(t.supertype, Some("Legendary"));
    assert_eq!(t.main_types, vec!["Creature"]);
    assert_eq!(t.subtypes, vec!["Elf", "Druid"]);
}

#[test]
fn instant_has_no_supertype_and_no_subtypes() {
    let t = parse_type_line("Instant");
    assert_eq!(t.supertype, None);
    assert_eq!(t.main_types, vec!["Instant"]);
    assert!(t.subtypes.is_empty());
}

#[test]
fn basic_land_forest() {
    let t = parse_type_line("Basic Land \u{2014} Forest");
    assert_eq!(t.supertype, Some("Basic"));
    assert_eq!(t.main_types, vec!["Land"]);
    assert_eq!(t.subtypes, vec!["Forest"]);
}

#[test]
fn token_line_yields_nothing() {
    let t = parse_type_line("Elite Token Creature");
    assert_eq!(t.supertype, None);
    assert!(t.main_types.is_empty());
    assert!(t.subtypes.is_empty());
}

#[test]
fn every_supertype_is_recognised_only_in_first_place() {
    for word in ["Legendary", "Basic", "Ongoing", "Snow", "World", "Hero", "Elite"] {
        let line = format!("{} Artifact", word);
        let t = parse_type_line(&line);
        assert_eq!(t.supertype, Some(word));
        assert_eq!(t.main_types, vec!["Artifact"]);
    }
    let t = parse_type_line("Artifact Legendary");
    assert_eq!(t.supertype, None);
    assert_eq!(t.main_types, vec!["Artifact", "Legendary"]);
}

#[test]
fn several_main_types_and_no_supertype() {
    let t = parse_type_line("Artifact Creature \u{2014} Golem");
    assert_eq!(t.supertype, None);
    assert_eq!(t.main_types, vec!["Artifact", "Creature"]);
    assert_eq!(t.subtypes, vec!["Golem"]);
}

#[test]
fn words_are_split_on_any_run_of_white_space() {
    let t = parse_type_line("  Snow   Land\t\u{2014} Island  Swamp ");
    assert_eq!(t.supertype, Some("Snow"));
    assert_eq!(t.main_types, vec!["Land", "\u{2014}", "Island", "Swamp"]);
    assert!(t.subtypes.is_empty());
}

#[test]
fn only_the_first_delimiter_splits() {
    let t = parse_type_line("Creature \u{2014} Elf \u{2014} Druid");
    assert_eq!(t.main_types, vec!["Creature"]);
    assert_eq!(t.subtypes, vec!["Elf", "\u{2014}", "Druid"]);
}

#[test]
fn empty_line_has_no_types() {
    let t = parse_type_line("");
    assert_eq!(t.supertype, None);
    assert!(t.main_types.is_empty());
    assert!(t.subtypes.is_empty());
}

#[test]
fn lone_supertype_leaves_no_main_type() {
    let t = parse_type_line("Legendary");
    assert_eq!(t.supertype, Some("Legendary"));
    assert!(t.main_types.is_empty());
}

#[test]
fn split_type_line_tells_absent_from_empty() {
    assert_eq!(split_type_line("Elite Token Creature"), (None, None, None));
    assert_eq!(split_type_line("Instant"), (None, Some(vec!["Instant"]), None));
    assert_eq!(
        split_type_line("Land \u{2014} "),
        (None, Some(vec!["Land"]), Some(vec![]))
    );
}

#[test]
fn extract_types_of_a_card() {
    let card = card_with_line("Legendary Creature \u{2014} Elf Druid");
    let (supertype, main_types, subtypes) = card.extract_types();
    assert_eq!(supertype, Some("Legendary"));
    assert_eq!(main_types, Some(vec!["Creature"]));
    assert_eq!(subtypes, Some(vec!["Elf", "Druid"]));
}

#[test]
fn extract_types_without_type_line() {
    let card = ScryfallCard::default();
    assert_eq!(card.extract_types(), (None, None, None));
}

#[test]
fn contains_finds_text_anywhere() {
    assert!(contains("Mystery Booster Playtest Cards 2021", "Mystery Booster Playtest"));
    assert!(contains("abc", ""));
    assert!(contains("", ""));
    assert!(!contains("ab", "abc"));
    assert!(contains("xxTokenxx", "Token"));
    assert!(!contains("token", "Token"));
}

#[test]
fn text_eq_compares_whole_texts() {
    assert!(text_eq("Card", "Card"));
    assert!(!text_eq("Card", "Cards"));
    assert!(!text_eq("Cards", "Card"));
    assert!(text_eq("", ""));
}

#[test]
fn parse_i32_reads_decimal_numbers() {
    assert_eq!(parse_i32("0"), Some(0));
    assert_eq!(parse_i32("7"), Some(7));
    assert_eq!(parse_i32("-1"), Some(-1));
    assert_eq!(parse_i32("+13"), Some(13));
    assert_eq!(parse_i32("007"), Some(7));
    assert_eq!(parse_i32("2147483647"), Some(i32::MAX));
    assert_eq!(parse_i32("-2147483648"), Some(i32::MIN));
}

#[test]
fn parse_i32_rejects_what_is_no_number() {
    for text in ["", "+", "-", "*", "1+*", "1.5", " 1", "1 ", "2147483648", "-2147483649",
        "99999999999999999999", "\u{221e}", "--1", "1-"] {
        assert_eq!(parse_i32(text), None, "{:?}", text);
        assert_eq!(parse_i32(text), text.parse::<i32>().ok());
    }
}

#[test]
fn parse_i32_agrees_with_the_standard_parser() {
    for text in ["12", "-12", "+0", "-0", "0000", "2147483647", "-2147483648", "2147483650"] {
        assert_eq!(parse_i32(text), text.parse::<i32>().ok());
    }
}
