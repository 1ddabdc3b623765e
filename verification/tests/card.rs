use ponder_db::card::{flatten, flatten_all, merge_missing, ImageUris, ScryfallCard};
use ponder_db::filter::{card_filter, filter_cards, prepare};
use ponder_db::vocab::{Format, ImageKind, Legality};

fn text(s: &str) -> Option<String> {
    Some(s.to_string())
}

fn list(items: &[&str]) -> Option<Vec<String>> {
    Some(items.iter().map(|s| s.to_string()).collect())
}

fn two_faced() -> ScryfallCard {
    let front = ScryfallCard {
        name: text("Front"),
        colors: list(&["G"]),
        type_line: text("Creature \u{2014} Human Werewolf"),
        ..Default::default()
    };
    let back = ScryfallCard {
        name: text("Back"),
        type_line: text("Creature \u{2014} Werewolf"),
        power: text("4"),
        ..Default::default()
    };
    ScryfallCard {
        id: text("abc-123"),
        name: text("Front // Back"),
        colors: list(&["R", "G"]),
        power: text("2"),
        foil: Some(true),
        cmc: Some(3.0f32.to_bits()),
        arena_id: Some(77),
        legalities: Some(vec![(Format::Modern, Legality::Legal)]),
        image_uris: Some(ImageUris { png: text("https://img/png"), ..Default::default() }),
        card_faces: Some(vec![front, back]),
        ..Default::default()
    }
}

#[test]
fn a_face_inherits_what_it_leaves_unset() {
    let mut card = two_faced();
    card.populate_card_faces();
    let faces = card.card_faces.as_ref().unwrap();
    assert_eq!(faces.len(), 2);
    assert_eq!(faces[1].colors, list(&["R", "G"]));
    assert_eq!(faces[1].id, text("abc-123"));
    assert_eq!(faces[1].foil, Some(true));
    assert_eq!(faces[1].cmc, Some(3.0f32.to_bits()));
    assert_eq!(faces[1].arena_id, Some(77));
    assert_eq!(faces[1].legalities, Some(vec![(Format::Modern, Legality::Legal)]));
    assert_eq!(
        faces[1].image_uris.as_ref().unwrap().uri(ImageKind::Png),
        Some("https://img/png")
    );
    assert_eq!(faces[0].id, text("abc-123"));
}

#[test]
fn a_face_keeps_what_it_sets() {
    let mut card = two_faced();
    card.populate_card_faces();
    let faces = card.card_faces.as_ref().unwrap();
    assert_eq!(faces[0].colors, list(&["G"]));
    assert_eq!(faces[0].name, text("Front"));
    assert_eq!(faces[0].power, text("2"));
    assert_eq!(faces[1].name, text("Back"));
    assert_eq!(faces[1].power, text("4"));
    assert_eq!(faces[1].type_line, text("Creature \u{2014} Werewolf"));
}

#[test]
fn the_card_itself_is_left_as_it_was() {
    let mut card = two_faced();
    card.populate_card_faces();
    assert_eq!(card.name, text("Front // Back"));
    assert_eq!(card.colors, list(&["R", "G"]));
    assert_eq!(card.type_line, None);
}

#[test]
fn faces_do_not_inherit_from_each_other() {
    let mut card = two_faced();
    card.populate_card_faces();
    let faces = card.card_faces.as_ref().unwrap();
    assert_eq!(faces[0].power, text("2"));
    assert_eq!(faces[1].colors, list(&["R", "G"]));
}

#[test]
fn a_card_without_faces_is_untouched() {
    let mut card = ScryfallCard { name: text("Solo"), ..Default::default() };
    card.populate_card_faces();
    assert!(card.card_faces.is_none());
    assert_eq!(card.name, text("Solo"));
}

#[test]
fn merge_missing_fills_only_the_gaps() {
    let parent = ScryfallCard { name: text("P"), rarity: text("rare"), ..Default::default() };
    let child = ScryfallCard { name: text("C"), ..Default::default() };
    let face = merge_missing(child, &parent);
    assert_eq!(face.name, text("C"));
    assert_eq!(face.rarity, text("rare"));
    assert_eq!(face.artist, None);
}

#[test]
fn flatten_gives_one_record_per_face() {
    let records = flatten(two_faced());
    assert_eq!(records.len(), 2);
    assert_eq!(records[0].name, text("Front"));
    assert_eq!(records[0].colors, list(&["G"]));
    assert_eq!(records[1].name, text("Back"));
    assert_eq!(records[1].colors, list(&["R", "G"]));
    assert_eq!(records[1].id, text("abc-123"));
}

#[test]
fn flatten_passes_a_single_card_through() {
    let records = flatten(ScryfallCard { name: text("Solo"), ..Default::default() });
    assert_eq!(records.len(), 1);
    assert_eq!(records[0].name, text("Solo"));
}

#[test]
fn flatten_treats_an_empty_list_of_faces_as_none() {
    let card = ScryfallCard { name: text("Solo"), card_faces: Some(vec![]), ..Default::default() };
    let records = flatten(card);
    assert_eq!(records.len(), 1);
    assert_eq!(records[0].name, text("Solo"));
}

#[test]
fn flatten_all_keeps_the_order() {
    let solo = ScryfallCard { name: text("Solo"), ..Default::default() };
    let last = ScryfallCard { name: text("Last"), ..Default::default() };
    let records = flatten_all(vec![solo, two_faced(), last]);
    let names: Vec<Option<String>> = records.into_iter().map(|c| c.name).collect();
    assert_eq!(names, vec![text("Solo"), text("Front"), text("Back"), text("Last")]);
}

#[test]
fn contains_game_looks_for_the_platform() {
    let card = ScryfallCard { games: list(&["paper", "mtgo"]), ..Default::default() };
    assert!(card.contains_game("paper"));
    assert!(card.contains_game("mtgo"));
    assert!(!card.contains_game("arena"));
    assert!(!ScryfallCard::default().contains_game("paper"));
}

#[test]
fn vanguard_cards_are_left_out() {
    let card = ScryfallCard { set_type: text("vanguard"), ..Default::default() };
    assert!(!card_filter(&card));
    let card = ScryfallCard { set_type: text("expansion"), ..Default::default() };
    assert!(card_filter(&card));
}

#[test]
fn art_cards_are_left_out() {
    let card = ScryfallCard { type_line: text("Card"), ..Default::default() };
    assert!(!card_filter(&card));
    let card = ScryfallCard { type_line: text("Card // Card"), ..Default::default() };
    assert!(card_filter(&card));
}

#[test]
fn playtest_cards_are_left_out() {
    let card =
        ScryfallCard { set_name: text("Mystery Booster Playtest Cards 2019"), ..Default::default() };
    assert!(!card_filter(&card));
    let card = ScryfallCard { set_name: text("Mystery Booster"), ..Default::default() };
    assert!(card_filter(&card));
}

#[test]
fn cards_of_retired_platforms_are_left_out() {
    let card = ScryfallCard { games: list(&["paper", "sega"]), ..Default::default() };
    assert!(!card_filter(&card));
    let card = ScryfallCard { games: list(&["astral"]), ..Default::default() };
    assert!(!card_filter(&card));
    let card = ScryfallCard { games: list(&["paper", "arena", "mtgo"]), ..Default::default() };
    assert!(card_filter(&card));
}

#[test]
fn tokens_are_left_out() {
    let card = ScryfallCard { type_line: text("Token Creature \u{2014} Elf"), ..Default::default() };
    assert!(!card_filter(&card));
}

#[test]
fn an_empty_record_passes_the_filter() {
    assert!(card_filter(&ScryfallCard::default()));
}

#[test]
fn filter_cards_keeps_the_others_in_order() {
    let cards = vec![
        ScryfallCard { name: text("a"), ..Default::default() },
        ScryfallCard { name: text("b"), set_type: text("vanguard"), ..Default::default() },
        ScryfallCard { name: text("c"), type_line: text("Card"), ..Default::default() },
        ScryfallCard { name: text("d"), type_line: text("Instant"), ..Default::default() },
    ];
    let names: Vec<Option<String>> = filter_cards(cards).into_iter().map(|c| c.name).collect();
    assert_eq!(names, vec![text("a"), text("d")]);
}

#[test]
fn prepare_filters_then_flattens() {
    let cards = vec![
        ScryfallCard { name: text("gone"), set_type: text("vanguard"), ..Default::default() },
        two_faced(),
    ];
    let names: Vec<Option<String>> = prepare(cards).into_iter().map(|c| c.name).collect();
    assert_eq!(names, vec![text("Front"), text("Back")]);
}
