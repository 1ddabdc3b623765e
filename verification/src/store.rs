//! A model of the store: what its tables hold, and what each statement
//! does to them and is answered with.
//!
//! The store is an ordinary transactional engine outside this library. The
//! model claims little of it: a write adds its row unless a row with the
//! same key is there, a question is answered from the tables, a rollback
//! gives back the tables as they stood when the transaction began. Which id
//! a new row gets, and whether a statement fails, is the store's choice.
//! What is proved over the model holds whatever the store chooses.

use crate::row::CardRow;
use crate::statement::{Answer, StatementView};
use crate::vocab::Legality;
use vstd::prelude::*;

verus! {

/// A row of the table of cards: its id, and the columns of the card.
pub struct CardEntry {
    pub id: i64,
    pub row: CardRow,
}

/// The tables of the store, each by the key that is unique in it.
pub struct Tables {
    /// Ids of the formats, by name.
    pub formats: Map<Seq<char>, i64>,
    /// Ids of the image kinds, by name.
    pub image_types: Map<Seq<char>, i64>,
    /// Ids of the keywords, by name.
    pub keywords: Map<Seq<char>, i64>,
    /// The cards, by catalog id.
    pub cards: Map<Seq<char>, CardEntry>,
    /// Statuses, by card and format.
    pub legalities: Map<(i64, i64), Legality>,
    /// Which card has which keyword.
    pub card_keywords: Set<(i64, i64)>,
    /// Image addresses, by card and image kind.
    pub images: Map<(i64, i64), Seq<char>>,
    /// Supertypes, by card.
    pub supertypes: Map<i64, Seq<char>>,
    /// Which card has which main type.
    pub card_types: Set<(i64, Seq<char>)>,
    /// Which card has which subtype.
    pub subtypes: Set<(i64, Seq<char>)>,
}

/// The store: its tables, and the tables as they stood when the last
/// transaction began.
pub struct Store {
    pub tables: Tables,
    pub saved: Tables,
}

/// What the store is free to choose when it runs a statement.
pub struct Choice {
    /// Whether the statement fails. A statement that fails changes
    /// nothing.
    pub fails: bool,
    /// The id of the row, where the statement creates one.
    pub id: i64,
}

/// A map after a row is written to it, unless a row with the key is there.
pub open spec fn put<K, V>(rows: Map<K, V>, key: K, value: V) -> Map<K, V> {
    if rows.contains_key(key) {
        rows
    } else {
        rows.insert(key, value)
    }
}

/// The tables after a statement ran. A question changes nothing.
pub open spec fn written(tables: Tables, statement: StatementView, id: i64) -> Tables {
    match statement {
        StatementView::InsertFormat(f) => Tables {
            formats: put(tables.formats, f.spec_name(), id),
            ..tables
        },
        StatementView::InsertImageType(k) => Tables {
            image_types: put(tables.image_types, k.spec_name(), id),
            ..tables
        },
        StatementView::InsertCard(row) => match row.card_id {
            Some(catalog_id) => Tables {
                cards: put(tables.cards, catalog_id, CardEntry { id, row }),
                ..tables
            },
            None => tables,
        },
        StatementView::InsertKeyword { name } => Tables {
            keywords: put(tables.keywords, name, id),
            ..tables
        },
        StatementView::InsertLegality { card_id, format_id, status } => Tables {
            legalities: put(tables.legalities, (card_id, format_id), status),
            ..tables
        },
        StatementView::InsertCardKeyword { card_id, keyword_id } => Tables {
            card_keywords: tables.card_keywords.insert((card_id, keyword_id)),
            ..tables
        },
        StatementView::InsertImage { card_id, image_type_id, uri } => Tables {
            images: put(tables.images, (card_id, image_type_id), uri),
            ..tables
        },
        StatementView::InsertSupertype { card_id, value } => Tables {
            supertypes: put(tables.supertypes, card_id, value),
            ..tables
        },
        StatementView::InsertCardType { card_id, value } => Tables {
            card_types: tables.card_types.insert((card_id, value)),
            ..tables
        },
        StatementView::InsertSubtype { card_id, value } => Tables {
            subtypes: tables.subtypes.insert((card_id, value)),
            ..tables
        },
        _ => tables,
    }
}

/// The id found under a key, or no row.
pub open spec fn looked_up(rows: Map<Seq<char>, i64>, key: Seq<char>) -> Answer {
    if rows.contains_key(key) {
        Answer::Id(rows[key])
    } else {
        Answer::NoRow
    }
}

/// What the store answers to a statement that ran, given the tables as
/// they stood before it.
pub open spec fn answered(tables: Tables, statement: StatementView, id: i64) -> Answer {
    match statement {
        StatementView::SelectCardId { catalog_id } => if tables.cards.contains_key(catalog_id) {
            Answer::Id(tables.cards[catalog_id].id)
        } else {
            Answer::NoRow
        },
        StatementView::SelectFormatId(f) => looked_up(tables.formats, f.spec_name()),
        StatementView::SelectImageTypeId(k) => looked_up(tables.image_types, k.spec_name()),
        StatementView::SelectKeywordId { name } => looked_up(tables.keywords, name),
        StatementView::InsertKeyword { name } => if tables.keywords.contains_key(name) {
            Answer::NoRow
        } else {
            Answer::Id(id)
        },
        _ => Answer::Done,
    }
}

/// The store after it was asked to run a statement, and its answer.
pub open spec fn respond(store: Store, statement: StatementView, choice: Choice) -> (
    Store,
    Answer,
) {
    if choice.fails {
        (store, Answer::Failed)
    } else {
        match statement {
            StatementView::Begin => (Store { saved: store.tables, ..store }, Answer::Done),
            StatementView::Rollback => (Store { tables: store.saved, ..store }, Answer::Done),
            _ => (
                Store { tables: written(store.tables, statement, choice.id), ..store },
                answered(store.tables, statement, choice.id),
            ),
        }
    }
}

/// Whether some row of a table of names has an id.
pub open spec fn has_id(rows: Map<Seq<char>, i64>, id: i64) -> bool {
    exists|key: Seq<char>| #[trigger] rows.contains_key(key) && rows[key] == id
}

/// Whether some card has an id.
pub open spec fn has_card(cards: Map<Seq<char>, CardEntry>, id: i64) -> bool {
    exists|key: Seq<char>| #[trigger] cards.contains_key(key) && cards[key].id == id
}

/// Referential integrity: every row that refers to a card, a format, a
/// keyword or an image kind refers to one that is there.
pub open spec fn intact(tables: Tables) -> bool {
    &&& forall|card: i64, format: i64| #[trigger]
        tables.legalities.contains_key((card, format)) ==> has_card(tables.cards, card) && has_id(
            tables.formats,
            format,
        )
    &&& forall|card: i64, keyword: i64| #[trigger]
        tables.card_keywords.contains((card, keyword)) ==> has_card(tables.cards, card) && has_id(
            tables.keywords,
            keyword,
        )
    &&& forall|card: i64, kind: i64| #[trigger]
        tables.images.contains_key((card, kind)) ==> has_card(tables.cards, card) && has_id(
            tables.image_types,
            kind,
        )
    &&& forall|card: i64| #[trigger]
        tables.supertypes.contains_key(card) ==> has_card(tables.cards, card)
    &&& forall|card: i64, value: Seq<char>| #[trigger]
        tables.card_types.contains((card, value)) ==> has_card(tables.cards, card)
    &&& forall|card: i64, value: Seq<char>| #[trigger]
        tables.subtypes.contains((card, value)) ==> has_card(tables.cards, card)
}

/// Whether one map holds every row of another, unchanged.
pub open spec fn extends<K, V>(larger: Map<K, V>, smaller: Map<K, V>) -> bool {
    forall|key: K| #[trigger]
        smaller.contains_key(key) ==> larger.contains_key(key) && larger[key] == smaller[key]
}

/// Whether tables hold every row of other tables, unchanged.
pub open spec fn grown_from(now: Tables, before: Tables) -> bool {
    &&& extends(now.formats, before.formats)
    &&& extends(now.image_types, before.image_types)
    &&& extends(now.keywords, before.keywords)
    &&& extends(now.cards, before.cards)
    &&& extends(now.legalities, before.legalities)
    &&& before.card_keywords.subset_of(now.card_keywords)
    &&& extends(now.images, before.images)
    &&& extends(now.supertypes, before.supertypes)
    &&& before.card_types.subset_of(now.card_types)
    &&& before.subtypes.subset_of(now.subtypes)
}

/// Nothing is ever updated or deleted: a statement that ran leaves every
/// row that was there as it was.
pub proof fn lemma_written_grows(tables: Tables, statement: StatementView, id: i64)
    ensures
        grown_from(written(tables, statement, id), tables),
{
}

/// Growth leaves the ids that were there in place.
pub proof fn lemma_grown_keeps_ids(now: Tables, before: Tables, id: i64)
    requires
        grown_from(now, before),
    ensures
        has_card(before.cards, id) ==> has_card(now.cards, id),
        has_id(before.formats, id) ==> has_id(now.formats, id),
        has_id(before.keywords, id) ==> has_id(now.keywords, id),
        has_id(before.image_types, id) ==> has_id(now.image_types, id),
{
    if has_card(before.cards, id) {
        let key = choose|key: Seq<char>| #[trigger]
            before.cards.contains_key(key) && before.cards[key].id == id;
        assert(now.cards.contains_key(key) && now.cards[key].id == id);
    }
    if has_id(before.formats, id) {
        let key = choose|key: Seq<char>| #[trigger]
            before.formats.contains_key(key) && before.formats[key] == id;
        assert(now.formats.contains_key(key) && now.formats[key] == id);
    }
    if has_id(before.keywords, id) {
        let key = choose|key: Seq<char>| #[trigger]
            before.keywords.contains_key(key) && before.keywords[key] == id;
        assert(now.keywords.contains_key(key) && now.keywords[key] == id);
    }
    if has_id(before.image_types, id) {
        let key = choose|key: Seq<char>| #[trigger]
            before.image_types.contains_key(key) && before.image_types[key] == id;
        assert(now.image_types.contains_key(key) && now.image_types[key] == id);
    }
}

} // verus!
