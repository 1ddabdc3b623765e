use ponder_db::cache::LookupCache;
use ponder_db::card::ScryfallCard;
use ponder_db::row::{Card, ColorField, EncodingFailure};
use ponder_db::search::{like_pattern, SEARCH_SQL};
use ponder_db::vocab::{Format, ImageKind, Legality};

fn text(s: &str) -> Option<String> {
    Some(s.to_string())
}

fn list(items: &[&str]) -> Option<Vec<String>> {
    Some(items.iter().map(|s| s.to_string()).collect())
}

#[test]
fn the_pattern_lets_the_text_occur_anywhere() {
    assert_eq!(like_pattern("elf"), "%elf%");
    assert_eq!(like_pattern(""), "%%");
    assert_eq!(like_pattern("Llanowar Elves"), "%Llanowar Elves%");
}

#[test]
fn the_pattern_escapes_what_has_a_meaning_of_its_own() {
    assert_eq!(like_pattern("100%"), "%100\\%%");
    assert_eq!(like_pattern("_____"), "%\\_\\_\\_\\_\\_%");
    assert_eq!(like_pattern("a\\b"), "%a\\\\b%");
    assert_eq!(like_pattern("%a_b\\"), "%\\%a\\_b\\\\%");
    assert_eq!(like_pattern("\u{e9}%\u{2014}"), "%\u{e9}\\%\u{2014}%");
}

#[test]
fn the_search_statement_takes_one_pattern() {
    assert_eq!(SEARCH_SQL, "select distinct * from card where name like ? escape '\\'");
    assert_eq!(SEARCH_SQL.matches('?').count(), 1);
}

#[test]
fn a_fresh_cache_knows_no_key() {
    let cache = LookupCache::new();
    assert_eq!(cache.get("Flying"), None);
    assert_eq!(cache.get(""), None);
}

#[test]
fn the_cache_gives_back_what_it_was_told() {
    let mut cache = LookupCache::new();
    cache.insert("Flying".to_string(), 7);
    cache.insert("Reach".to_string(), 9);
    assert_eq!(cache.get("Flying"), Some(7));
    assert_eq!(cache.get("Reach"), Some(9));
    assert_eq!(cache.get("flying"), None);
    assert_eq!(cache.get("Fly"), None);
}

#[test]
fn the_first_id_of_a_key_stays() {
    let mut cache = LookupCache::new();
    cache.insert("Flying".to_string(), 7);
    cache.insert("Flying".to_string(), 8);
    cache.insert("Reach".to_string(), 8);
    assert_eq!(cache.get("Flying"), Some(7));
    assert_eq!(cache.get("Flying"), Some(7));
    assert_eq!(cache.get("Reach"), Some(8));
}

#[test]
fn formats_have_the_names_of_the_catalog() {
    assert_eq!(Format::Standard.name(), "standard");
    assert_eq!(Format::StandardBrawl.name(), "standardbrawl");
    assert_eq!(Format::PauperCommander.name(), "paupercommander");
    assert_eq!(Format::Predh.name(), "predh");
    assert_eq!(Format::Oldschool.name(), "oldschool");
    assert_eq!(Format::Duel.name(), "duel");
}

#[test]
fn there_are_twenty_two_formats_and_none_twice() {
    let all = Format::all();
    assert_eq!(all.len(), 22);
    let names: std::collections::BTreeSet<&str> = all.iter().map(|f| f.name()).collect();
    assert_eq!(names.len(), 22);
    assert_eq!(all[0], Format::Modern);
    assert_eq!(all[21], Format::Duel);
}

#[test]
fn there_are_six_image_kinds_and_none_twice() {
    let all = ImageKind::all();
    assert_eq!(
        all,
        vec![
            ImageKind::ArtCrop,
            ImageKind::Png,
            ImageKind::Normal,
            ImageKind::Large,
            ImageKind::Small,
            ImageKind::BorderCrop
        ]
    );
    let names: Vec<&str> = all.iter().map(|k| k.name()).collect();
    assert_eq!(names, vec!["art_crop", "png", "normal", "large", "small", "border_crop"]);
}

#[test]
fn legalities_have_the_names_of_the_catalog() {
    assert_eq!(Legality::Legal.name(), "legal");
    assert_eq!(Legality::NotLegal.name(), "not_legal");
    assert_eq!(Legality::Banned.name(), "banned");
    assert_eq!(Legality::Restricted.name(), "restricted");
}

#[test]
fn the_row_of_a_record_holds_its_columns() {
    let record = ScryfallCard {
        id: text("id-1"),
        object: text("card"),
        name: text("Gilded Lotus"),
        set: text("dom"),
        cmc: Some(5.0f32.to_bits()),
        colors: list(&[]),
        color_identity: list(&["W", "U", "B", "R", "G"]),
        produced_mana: list(&["C", "T"]),
        color_indicator: None,
        power: text("-1"),
        toughness: text("1+*"),
        games: list(&["mtgo"]),
        promo: Some(false),
        ..Default::default()
    };
    let (row, failures) = Card::of(&record);
    assert!(failures.is_empty());
    assert_eq!(row.card_id, text("id-1"));
    assert_eq!(row.object, text("card"));
    assert_eq!(row.set_short, text("dom"));
    assert_eq!(row.converted_mana_cost, Some(5.0f32.to_bits()));
    assert_eq!(row.colors, Some(0));
    assert_eq!(row.color_identity, Some(31));
    assert_eq!(row.produced_mana, Some(32));
    assert_eq!(row.color_indicator, None);
    assert_eq!(row.power, Some(-1));
    assert_eq!(row.toughness, None);
    assert_eq!((row.mtgo, row.arena, row.paper), (true, false, false));
    assert_eq!(row.promo, Some(false));
    let copy = row.duplicate();
    assert_eq!(copy.values(), row.values());
}

#[test]
fn every_colour_field_that_fails_is_reported_in_the_order_of_the_columns() {
    let record = ScryfallCard {
        id: text("id-1"),
        color_indicator: list(&["Q"]),
        produced_mana: list(&["G"]),
        colors: list(&["W", "U", "?"]),
        color_identity: list(&["W", "", "U"]),
        ..Default::default()
    };
    let (row, failures) = Card::of(&record);
    assert_eq!(
        failures,
        vec![
            EncodingFailure { field: ColorField::ColorIndicator, index: 0 },
            EncodingFailure { field: ColorField::Colors, index: 2 },
            EncodingFailure { field: ColorField::ColorIdentity, index: 1 },
        ]
    );
    assert_eq!(row.color_indicator, None);
    assert_eq!(row.produced_mana, Some(16));
    assert_eq!(row.colors, None);
    assert_eq!(row.color_identity, None);
}

#[test]
fn a_card_with_faces_becomes_one_row_per_face() {
    let card = ScryfallCard {
        id: text("id-2"),
        name: text("Fire // Ice"),
        rarity: text("uncommon"),
        card_faces: Some(vec![
            ScryfallCard { name: text("Fire"), colors: list(&["R"]), ..Default::default() },
            ScryfallCard { name: text("Ice"), colors: list(&["U"]), ..Default::default() },
        ]),
        ..Default::default()
    };
    let rows = Card::from_scryfall(card);
    assert_eq!(rows.len(), 2);
    assert_eq!(rows[0].name, text("Fire"));
    assert_eq!(rows[0].colors, Some(8));
    assert_eq!(rows[0].card_id, text("id-2"));
    assert_eq!(rows[0].rarity, text("uncommon"));
    assert_eq!(rows[1].name, text("Ice"));
    assert_eq!(rows[1].colors, Some(2));
    assert_eq!(rows[1].card_id, text("id-2"));
}

#[test]
fn a_card_without_faces_becomes_one_row() {
    let rows = Card::from_scryfall(ScryfallCard { name: text("Solo"), ..Default::default() });
    assert_eq!(rows.len(), 1);
    assert_eq!(rows[0].name, text("Solo"));
}
