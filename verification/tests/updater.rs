use ponder_db::card::{ImageUris, ScryfallCard};
use ponder_db::program::{Failure, Operation};
use ponder_db::row::{ColorField, EncodingFailure, Value};
use ponder_db::statement::{Answer, Expect, Statement, StatementKind};
use ponder_db::updater::{Action, DatabaseUpdater, BATCH_SIZE};
use ponder_db::vocab::{Format, ImageKind, Legality};
use std::collections::BTreeMap;

fn text(s: &str) -> Option<String> {
    Some(s.to_string())
}

fn list(items: &[&str]) -> Option<Vec<String>> {
    Some(items.iter().map(|s| s.to_string()).collect())
}

/// The tables of a store that keeps what it is told, in memory.
#[derive(Clone, Default, Debug, PartialEq)]
struct Tables {
    formats: BTreeMap<String, i64>,
    image_types: BTreeMap<String, i64>,
    keywords: BTreeMap<String, i64>,
    cards: BTreeMap<String, i64>,
    legalities: BTreeMap<(i64, i64), String>,
    card_keywords: BTreeMap<(i64, i64), ()>,
    images: BTreeMap<(i64, i64), String>,
    supertypes: BTreeMap<i64, String>,
    card_types: BTreeMap<(i64, String), ()>,
    subtypes: BTreeMap<(i64, String), ()>,
    next_id: i64,
}

impl Tables {
    fn counts(&self) -> Vec<usize> {
        vec![
            self.formats.len(),
            self.image_types.len(),
            self.keywords.len(),
            self.cards.len(),
            self.legalities.len(),
            self.card_keywords.len(),
            self.images.len(),
            self.supertypes.len(),
            self.card_types.len(),
            self.subtypes.len(),
        ]
    }

    fn fresh_id(&mut self) -> i64 {
        self.next_id += 1;
        self.next_id
    }
}

#[derive(Default)]
struct Store {
    tables: Tables,
    saved: Tables,
    log: Vec<StatementKind>,
    fail_on: Option<StatementKind>,
}

fn bound_text(v: &Value) -> String {
    match v {
        Value::Text(s) => s.clone(),
        other => panic!("no text: {:?}", other),
    }
}

fn bound_int(v: &Value) -> i64 {
    match v {
        Value::Integer(n) => *n,
        other => panic!("no integer: {:?}", other),
    }
}

impl Store {
    fn answer(&mut self, statement: &Statement) -> Answer {
        let kind = statement.kind();
        self.log.push(kind);
        if self.fail_on == Some(kind) {
            return Answer::Failed;
        }
        let b = statement.binds();
        let t = &mut self.tables;
        match kind {
            StatementKind::Begin => {
                self.saved = t.clone();
                Answer::Done
            }
            StatementKind::Commit => Answer::Done,
            StatementKind::Rollback => {
                self.tables = self.saved.clone();
                Answer::Done
            }
            StatementKind::InsertFormat => {
                let name = bound_text(&b[0]);
                if !t.formats.contains_key(&name) {
                    let id = t.fresh_id();
                    t.formats.insert(name, id);
                }
                Answer::Done
            }
            StatementKind::InsertImageType => {
                let name = bound_text(&b[0]);
                if !t.image_types.contains_key(&name) {
                    let id = t.fresh_id();
                    t.image_types.insert(name, id);
                }
                Answer::Done
            }
            StatementKind::InsertCard => {
                assert_eq!(b.len(), 42);
                let catalog_id = bound_text(&b[0]);
                if !t.cards.contains_key(&catalog_id) {
                    let id = t.fresh_id();
                    t.cards.insert(catalog_id, id);
                }
                Answer::Done
            }
            StatementKind::SelectCardId => match t.cards.get(&bound_text(&b[0])) {
                Some(id) => Answer::Id(*id),
                None => Answer::NoRow,
            },
            StatementKind::SelectFormatId => match t.formats.get(&bound_text(&b[0])) {
                Some(id) => Answer::Id(*id),
                None => Answer::NoRow,
            },
            StatementKind::SelectImageTypeId => match t.image_types.get(&bound_text(&b[0])) {
                Some(id) => Answer::Id(*id),
                None => Answer::NoRow,
            },
            StatementKind::SelectKeywordId => match t.keywords.get(&bound_text(&b[0])) {
                Some(id) => Answer::Id(*id),
                None => Answer::NoRow,
            },
            StatementKind::InsertKeyword => {
                let name = bound_text(&b[0]);
                if t.keywords.contains_key(&name) {
                    Answer::NoRow
                } else {
                    let id = t.fresh_id();
                    t.keywords.insert(name, id);
                    Answer::Id(id)
                }
            }
            StatementKind::InsertLegality => {
                let key = (bound_int(&b[0]), bound_int(&b[1]));
                t.legalities.entry(key).or_insert(bound_text(&b[2]));
                Answer::Done
            }
            StatementKind::InsertCardKeyword => {
                t.card_keywords.entry((bound_int(&b[0]), bound_int(&b[1]))).or_insert(());
                Answer::Done
            }
            StatementKind::InsertImage => {
                let key = (bound_int(&b[0]), bound_int(&b[1]));
                t.images.entry(key).or_insert(bound_text(&b[2]));
                Answer::Done
            }
            StatementKind::InsertSupertype => {
                t.supertypes.entry(bound_int(&b[0])).or_insert(bound_text(&b[1]));
                Answer::Done
            }
            StatementKind::InsertCardType => {
                t.card_types.entry((bound_int(&b[0]), bound_text(&b[1]))).or_insert(());
                Answer::Done
            }
            StatementKind::InsertSubtype => {
                t.subtypes.entry((bound_int(&b[0]), bound_text(&b[1]))).or_insert(());
                Answer::Done
            }
        }
    }
}

fn run(store: &mut Store, cards: Vec<ScryfallCard>) -> DatabaseUpdater {
    let mut updater = DatabaseUpdater::new(cards);
    let mut answer = Answer::Done;
    let mut steps = 0usize;
    loop {
        match updater.update(answer) {
            Action::Run(statement) => answer = store.answer(&statement),
            Action::Finish => break,
        }
        steps += 1;
        assert!(steps < 1_000_000);
    }
    assert!(updater.is_finished());
    updater
}

fn elf() -> ScryfallCard {
    ScryfallCard {
        id: text("id-elf"),
        name: text("Llanowar Elves"),
        type_line: text("Creature \u{2014} Elf Druid"),
        colors: list(&["G"]),
        color_identity: list(&["G"]),
        power: text("1"),
        toughness: text("1"),
        keywords: list(&["Flying", "Reach"]),
        games: list(&["paper", "arena"]),
        legalities: Some(vec![
            (Format::Modern, Legality::Legal),
            (Format::Standard, Legality::NotLegal),
        ]),
        image_uris: Some(ImageUris {
            png: text("https://img/elf.png"),
            small: text("https://img/elf.small"),
            ..Default::default()
        }),
        ..Default::default()
    }
}

fn dragon() -> ScryfallCard {
    ScryfallCard {
        id: text("id-dragon"),
        name: text("Old Dragon"),
        type_line: text("Legendary Creature \u{2014} Dragon"),
        colors: list(&["R"]),
        power: text("*"),
        keywords: list(&["Flying"]),
        legalities: Some(vec![(Format::Modern, Legality::Banned)]),
        ..Default::default()
    }
}

#[test]
fn the_run_starts_with_the_seeding_in_its_own_transaction() {
    let mut store = Store::default();
    run(&mut store, vec![]);
    let mut expected = vec![StatementKind::Begin];
    expected.extend(std::iter::repeat(StatementKind::InsertFormat).take(22));
    expected.extend(std::iter::repeat(StatementKind::InsertImageType).take(6));
    expected.push(StatementKind::Commit);
    assert_eq!(store.log, expected);
    assert_eq!(store.tables.formats.len(), 22);
    assert_eq!(store.tables.image_types.len(), 6);
}

#[test]
fn the_formats_are_seeded_in_their_order() {
    let mut updater = DatabaseUpdater::new(vec![]);
    let mut names = Vec::new();
    let mut kinds = Vec::new();
    let mut action = updater.update(Answer::Done);
    loop {
        match action {
            Action::Run(Statement::InsertFormat(f)) => names.push(f.name()),
            Action::Run(Statement::InsertImageType(k)) => kinds.push(k.name()),
            Action::Run(_) => {}
            Action::Finish => break,
        }
        action = updater.update(Answer::Done);
    }
    assert_eq!(
        names,
        vec![
            "modern", "standardbrawl", "oathbreaker", "commander", "penny", "brawl",
            "paupercommander", "alchemy", "premodern", "predh", "oldschool", "vintage", "legacy",
            "historic", "future", "standard", "pauper", "timeless", "pioneer", "gladiator",
            "explorer", "duel"
        ]
    );
    assert_eq!(kinds, vec!["art_crop", "png", "normal", "large", "small", "border_crop"]);
}

#[test]
fn a_card_is_written_with_all_its_rows() {
    let mut store = Store::default();
    let updater = run(&mut store, vec![elf()]);
    assert_eq!(updater.cards_written(), 1);
    assert!(updater.failures().is_empty());
    let t = &store.tables;
    let card = t.cards["id-elf"];
    assert_eq!(t.cards.len(), 1);
    assert_eq!(t.legalities[&(card, t.formats["modern"])], "legal");
    assert_eq!(t.legalities[&(card, t.formats["standard"])], "not_legal");
    assert_eq!(t.legalities.len(), 2);
    assert_eq!(t.keywords.len(), 2);
    assert!(t.card_keywords.contains_key(&(card, t.keywords["Flying"])));
    assert!(t.card_keywords.contains_key(&(card, t.keywords["Reach"])));
    assert_eq!(t.images[&(card, t.image_types["png"])], "https://img/elf.png");
    assert_eq!(t.images[&(card, t.image_types["small"])], "https://img/elf.small");
    assert_eq!(t.images.len(), 2);
    assert!(t.supertypes.is_empty());
    assert!(t.card_types.contains_key(&(card, "Creature".to_string())));
    assert_eq!(t.card_types.len(), 1);
    assert!(t.subtypes.contains_key(&(card, "Elf".to_string())));
    assert!(t.subtypes.contains_key(&(card, "Druid".to_string())));
    assert_eq!(t.subtypes.len(), 2);
}

#[test]
fn the_rows_of_a_card_come_in_their_order() {
    let mut store = Store::default();
    run(&mut store, vec![elf()]);
    let of_card: Vec<StatementKind> = store.log[30..].to_vec();
    assert_eq!(
        of_card,
        vec![
            StatementKind::Begin,
            StatementKind::InsertCard,
            StatementKind::SelectCardId,
            StatementKind::SelectFormatId,
            StatementKind::InsertLegality,
            StatementKind::SelectFormatId,
            StatementKind::InsertLegality,
            StatementKind::InsertKeyword,
            StatementKind::InsertCardKeyword,
            StatementKind::InsertKeyword,
            StatementKind::InsertCardKeyword,
            StatementKind::SelectImageTypeId,
            StatementKind::InsertImage,
            StatementKind::SelectImageTypeId,
            StatementKind::InsertImage,
            StatementKind::InsertCardType,
            StatementKind::InsertSubtype,
            StatementKind::InsertSubtype,
            StatementKind::Commit,
        ]
    );
}

#[test]
fn ingesting_twice_leaves_the_tables_as_ingesting_once() {
    let mut store = Store::default();
    run(&mut store, vec![elf(), dragon()]);
    let once = store.tables.clone();
    let updater = run(&mut store, vec![elf(), dragon()]);
    assert_eq!(store.tables.counts(), once.counts());
    assert_eq!(store.tables, once);
    assert_eq!(updater.cards_written(), 2);
}

#[test]
fn a_keyword_is_created_once_and_keeps_its_id() {
    let mut store = Store::default();
    run(&mut store, vec![elf(), dragon()]);
    let created = store.log.iter().filter(|k| **k == StatementKind::InsertKeyword).count();
    assert_eq!(created, 2);
    let looked_up = store.log.iter().filter(|k| **k == StatementKind::SelectKeywordId).count();
    assert_eq!(looked_up, 0);
    let t = &store.tables;
    let flying = t.keywords["Flying"];
    assert!(t.card_keywords.contains_key(&(t.cards["id-elf"], flying)));
    assert!(t.card_keywords.contains_key(&(t.cards["id-dragon"], flying)));
}

#[test]
fn a_keyword_that_is_there_already_is_looked_up() {
    let mut store = Store::default();
    run(&mut store, vec![elf()]);
    let flying = store.tables.keywords["Flying"];
    store.log.clear();
    run(&mut store, vec![dragon()]);
    let created = store.log.iter().filter(|k| **k == StatementKind::InsertKeyword).count();
    let looked_up = store.log.iter().filter(|k| **k == StatementKind::SelectKeywordId).count();
    assert_eq!((created, looked_up), (1, 1));
    assert_eq!(store.tables.keywords["Flying"], flying);
    assert!(store.tables.card_keywords.contains_key(&(store.tables.cards["id-dragon"], flying)));
}

#[test]
fn a_format_is_asked_for_once_in_a_run() {
    let mut store = Store::default();
    run(&mut store, vec![elf(), dragon()]);
    let asked = store.log.iter().filter(|k| **k == StatementKind::SelectFormatId).count();
    assert_eq!(asked, 2);
}

#[test]
fn every_reference_points_at_a_row_that_is_there() {
    let mut store = Store::default();
    run(&mut store, vec![elf(), dragon()]);
    let t = &store.tables;
    let has = |m: &BTreeMap<String, i64>, id: i64| m.values().any(|v| *v == id);
    for (card, format) in t.legalities.keys() {
        assert!(has(&t.cards, *card));
        assert!(has(&t.formats, *format));
    }
    for (card, keyword) in t.card_keywords.keys() {
        assert!(has(&t.cards, *card));
        assert!(has(&t.keywords, *keyword));
    }
    for (card, kind) in t.images.keys() {
        assert!(has(&t.cards, *card));
        assert!(has(&t.image_types, *kind));
    }
}

#[test]
fn the_supertype_is_written_apart() {
    let mut store = Store::default();
    run(&mut store, vec![dragon()]);
    let t = &store.tables;
    let card = t.cards["id-dragon"];
    assert_eq!(t.supertypes[&card], "Legendary");
    assert!(t.card_types.contains_key(&(card, "Creature".to_string())));
    assert!(t.subtypes.contains_key(&(card, "Dragon".to_string())));
}

#[test]
fn the_row_of_a_card_binds_its_columns_in_order() {
    let mut updater = DatabaseUpdater::new(vec![elf()]);
    let mut action = updater.update(Answer::Done);
    let row = loop {
        match action {
            Action::Run(Statement::InsertCard(row)) => break row,
            Action::Run(_) => action = updater.update(Answer::Done),
            Action::Finish => panic!("no card row"),
        }
    };
    assert_eq!(row.card_id, text("id-elf"));
    assert_eq!(row.name, text("Llanowar Elves"));
    assert_eq!(row.colors, Some(16));
    assert_eq!(row.color_identity, Some(16));
    assert_eq!(row.color_indicator, None);
    assert_eq!(row.produced_mana, None);
    assert_eq!(row.power, Some(1));
    assert_eq!(row.toughness, Some(1));
    assert_eq!((row.mtgo, row.arena, row.paper), (false, true, true));
    let values = row.values();
    assert_eq!(values.len(), 42);
    assert_eq!(values[0], Value::Text("id-elf".to_string()));
    assert_eq!(values[1], Value::Null);
    assert_eq!(values[2], Value::Text("Llanowar Elves".to_string()));
    assert_eq!(values[17], Value::Integer(16));
    assert_eq!(values[20], Value::Integer(1));
    assert_eq!(values[38], Value::Flag(false));
    assert_eq!(values[39], Value::Flag(true));
    assert_eq!(values[40], Value::Flag(true));
    assert_eq!(values[41], Value::Null);
}

#[test]
fn text_that_is_no_number_is_stored_without_value() {
    let mut updater = DatabaseUpdater::new(vec![dragon()]);
    let mut action = updater.update(Answer::Done);
    let row = loop {
        match action {
            Action::Run(Statement::InsertCard(row)) => break row,
            Action::Run(_) => action = updater.update(Answer::Done),
            Action::Finish => panic!("no card row"),
        }
    };
    assert_eq!(row.power, None);
    assert_eq!(row.colors, Some(8));
}

#[test]
fn an_unknown_colour_is_reported_and_the_card_still_written() {
    let mut card = elf();
    card.colors = list(&["G", "X"]);
    let mut store = Store::default();
    let updater = run(&mut store, vec![card]);
    assert_eq!(updater.cards_written(), 1);
    assert_eq!(store.tables.cards.len(), 1);
    let failures = updater.failures();
    assert_eq!(failures.len(), 1);
    assert_eq!(failures[0].catalog_id, text("id-elf"));
    assert_eq!(failures[0].name, text("Llanowar Elves"));
    assert_eq!(
        failures[0].operation,
        Operation::Encode(EncodingFailure { field: ColorField::Colors, index: 1 })
    );
}

#[test]
fn a_record_without_catalog_id_is_reported_and_skipped() {
    let nameless = ScryfallCard { name: text("Nobody"), ..Default::default() };
    let mut store = Store::default();
    let updater = run(&mut store, vec![nameless, elf()]);
    assert_eq!(updater.cards_written(), 1);
    assert_eq!(store.tables.cards.len(), 1);
    let failures: &Vec<Failure> = updater.failures();
    assert_eq!(failures.len(), 1);
    assert_eq!(failures[0].catalog_id, None);
    assert_eq!(failures[0].name, text("Nobody"));
    assert_eq!(failures[0].operation, Operation::MissingId);
}

#[test]
fn a_failed_write_rolls_the_batch_back_and_ends_the_run() {
    let mut store = Store::default();
    store.fail_on = Some(StatementKind::InsertCardKeyword);
    let updater = run(&mut store, vec![dragon(), elf()]);
    assert_eq!(updater.cards_written(), 0);
    assert_eq!(store.log.last(), Some(&StatementKind::Rollback));
    assert!(store.tables.cards.is_empty());
    assert!(store.tables.keywords.is_empty());
    assert_eq!(store.tables.formats.len(), 22);
    let failures = updater.failures();
    assert_eq!(failures.len(), 1);
    assert_eq!(failures[0].catalog_id, text("id-dragon"));
    assert_eq!(failures[0].name, text("Old Dragon"));
    assert_eq!(failures[0].operation, Operation::Store(StatementKind::InsertCardKeyword));
}

#[test]
fn a_failed_seeding_ends_the_run_before_any_card() {
    let mut store = Store::default();
    store.fail_on = Some(StatementKind::InsertImageType);
    let updater = run(&mut store, vec![elf()]);
    assert_eq!(updater.cards_written(), 0);
    assert!(!store.log.contains(&StatementKind::InsertCard));
    assert_eq!(store.log.last(), Some(&StatementKind::Rollback));
    assert!(store.tables.formats.is_empty());
    let failures = updater.failures();
    assert_eq!(failures.len(), 1);
    assert_eq!(failures[0].catalog_id, None);
    assert_eq!(failures[0].operation, Operation::Store(StatementKind::InsertImageType));
}

#[test]
fn a_failed_begin_ends_the_run_without_rollback() {
    let mut store = Store::default();
    store.fail_on = Some(StatementKind::Begin);
    let updater = run(&mut store, vec![elf()]);
    assert_eq!(store.log, vec![StatementKind::Begin]);
    assert_eq!(updater.failures()[0].operation, Operation::Store(StatementKind::Begin));
}

#[test]
fn a_failed_commit_counts_no_card() {
    let mut updater = DatabaseUpdater::new(vec![elf()]);
    let mut store = Store::default();
    let mut answer = Answer::Done;
    let mut commits = 0;
    loop {
        match updater.update(answer) {
            Action::Run(statement) => {
                answer = store.answer(&statement);
                if statement.kind() == StatementKind::Commit {
                    commits += 1;
                    if commits == 2 {
                        answer = Answer::Failed;
                    }
                }
            }
            Action::Finish => break,
        }
    }
    assert_eq!(updater.cards_written(), 0);
    assert_eq!(updater.failures()[0].operation, Operation::Store(StatementKind::Commit));
    assert_eq!(store.log.last(), Some(&StatementKind::Commit));
}

#[test]
fn an_answer_that_is_not_awaited_counts_as_a_failure() {
    let mut updater = DatabaseUpdater::new(vec![]);
    assert!(matches!(updater.update(Answer::Done), Action::Run(Statement::Begin)));
    assert!(matches!(updater.update(Answer::Done), Action::Run(Statement::InsertFormat(_))));
    assert!(matches!(updater.update(Answer::Id(3)), Action::Run(Statement::Rollback)));
    assert!(matches!(updater.update(Answer::Done), Action::Finish));
    assert!(updater.is_finished());
    assert!(matches!(updater.update(Answer::Done), Action::Finish));
    assert_eq!(updater.failures().len(), 1);
}

#[test]
fn a_card_that_is_not_found_again_fails_the_run() {
    let mut updater = DatabaseUpdater::new(vec![elf()]);
    let mut store = Store::default();
    let mut answer = Answer::Done;
    loop {
        match updater.update(answer) {
            Action::Run(statement) => {
                answer = store.answer(&statement);
                if statement.kind() == StatementKind::SelectCardId {
                    answer = Answer::NoRow;
                }
            }
            Action::Finish => break,
        }
    }
    assert_eq!(updater.failures()[0].operation, Operation::Store(StatementKind::SelectCardId));
    assert_eq!(updater.cards_written(), 0);
}

#[test]
fn cards_are_written_in_batches_of_a_thousand() {
    assert_eq!(BATCH_SIZE, 1000);
    let cards: Vec<ScryfallCard> = (0..2001)
        .map(|i| ScryfallCard { id: Some(format!("id-{}", i)), ..Default::default() })
        .collect();
    let mut store = Store::default();
    let updater = run(&mut store, cards);
    assert_eq!(updater.cards_written(), 2001);
    assert_eq!(store.tables.cards.len(), 2001);
    let begins: Vec<usize> = store
        .log
        .iter()
        .enumerate()
        .filter(|(_, k)| **k == StatementKind::Begin)
        .map(|(i, _)| i)
        .collect();
    assert_eq!(begins.len(), 4);
    let per_batch: Vec<usize> = begins
        .windows(2)
        .map(|w| store.log[w[0]..w[1]].iter().filter(|k| **k == StatementKind::InsertCard).count())
        .collect();
    assert_eq!(per_batch, vec![0, 1000, 1000]);
}

#[test]
fn a_failure_in_a_later_batch_keeps_the_earlier_ones() {
    let cards: Vec<ScryfallCard> = (0..1500)
        .map(|i| ScryfallCard {
            id: Some(format!("id-{}", i)),
            keywords: if i == 1200 { list(&["Flying"]) } else { None },
            ..Default::default()
        })
        .collect();
    let mut store = Store::default();
    store.fail_on = Some(StatementKind::InsertKeyword);
    let updater = run(&mut store, cards);
    assert_eq!(updater.cards_written(), 1000);
    assert_eq!(store.tables.cards.len(), 1000);
    assert_eq!(updater.failures().len(), 1);
    assert_eq!(updater.failures()[0].catalog_id, text("id-1200"));
}

#[test]
fn two_faces_with_one_catalog_id_share_one_card_row() {
    let card = ScryfallCard {
        id: text("id-two"),
        name: text("Day // Night"),
        card_faces: Some(vec![
            ScryfallCard {
                name: text("Day"),
                type_line: text("Creature \u{2014} Human"),
                ..Default::default()
            },
            ScryfallCard {
                name: text("Night"),
                type_line: text("Creature \u{2014} Werewolf"),
                ..Default::default()
            },
        ]),
        ..Default::default()
    };
    let records = ponder_db::filter::prepare(vec![card]);
    assert_eq!(records.len(), 2);
    let mut store = Store::default();
    let updater = run(&mut store, records);
    assert_eq!(updater.cards_written(), 2);
    let t = &store.tables;
    assert_eq!(t.cards.len(), 1);
    let id = t.cards["id-two"];
    assert!(t.subtypes.contains_key(&(id, "Human".to_string())));
    assert!(t.subtypes.contains_key(&(id, "Werewolf".to_string())));
    assert_eq!(t.card_types.len(), 1);
}

#[test]
fn every_kind_of_statement_has_its_text() {
    assert_eq!(StatementKind::InsertFormat.sql(), "insert or ignore into format(name) values(?)");
    assert_eq!(
        StatementKind::InsertKeyword.sql(),
        "insert into keyword(name) values(?) on conflict do nothing returning id"
    );
    assert_eq!(StatementKind::SelectCardId.sql(), "select id from card where card_id = ?");
    let insert = StatementKind::InsertCard.sql();
    assert!(insert.starts_with("insert or ignore into card(card_id, object, name, "));
    assert!(insert.ends_with("?41, ?42)"));
    assert_eq!(insert.matches('?').count(), 42);
}

#[test]
fn every_kind_of_statement_awaits_its_answer() {
    assert_eq!(StatementKind::InsertCard.expects(), Expect::Done);
    assert_eq!(StatementKind::Begin.expects(), Expect::Done);
    assert_eq!(StatementKind::SelectCardId.expects(), Expect::Id);
    assert_eq!(StatementKind::SelectFormatId.expects(), Expect::Id);
    assert_eq!(StatementKind::SelectImageTypeId.expects(), Expect::Id);
    assert_eq!(StatementKind::SelectKeywordId.expects(), Expect::Id);
    assert_eq!(StatementKind::InsertKeyword.expects(), Expect::MaybeId);
    assert!(StatementKind::InsertKeyword.accepts(Answer::NoRow));
    assert!(StatementKind::InsertKeyword.accepts(Answer::Id(1)));
    assert!(!StatementKind::InsertKeyword.accepts(Answer::Done));
    assert!(!StatementKind::SelectCardId.accepts(Answer::NoRow));
    assert!(!StatementKind::InsertCard.accepts(Answer::Failed));
}

#[test]
fn statements_bind_their_values_in_order() {
    let s = Statement::InsertLegality { card_id: 7, format_id: 9, status: Legality::Restricted };
    assert_eq!(
        s.binds(),
        vec![Value::Integer(7), Value::Integer(9), Value::Text("restricted".to_string())]
    );
    assert_eq!(s.sql(), "insert or ignore into legality(card_id, format_id, status) values(?, ?, ?)");
    let s = Statement::InsertImage { card_id: 1, image_type_id: 2, uri: "u".to_string() };
    assert_eq!(s.binds(), vec![Value::Integer(1), Value::Integer(2), Value::Text("u".to_string())]);
    assert_eq!(Statement::SelectImageTypeId(ImageKind::BorderCrop).binds(),
        vec![Value::Text("border_crop".to_string())]);
    assert_eq!(Statement::InsertFormat(Format::PauperCommander).binds(),
        vec![Value::Text("paupercommander".to_string())]);
    assert!(Statement::Begin.binds().is_empty());
}
