//! The statements that ingestion asks the store to run, and what the store
//! may answer.
//!
//! A statement is plain data: which statement it is, and the values bound
//! to it. Whoever holds the connection runs it and hands back the answer.

use crate::row::{value_views, row_values, Card, CardRow, Value, ValueView};
use crate::vocab::{Format, ImageKind, Legality};
use vstd::prelude::*;

verus! {

/// Opens a transaction.
pub const BEGIN: &'static str = "begin";

/// Commits the open transaction.
pub const COMMIT: &'static str = "commit";

/// Drops what the open transaction wrote.
pub const ROLLBACK: &'static str = "rollback";

/// Adds a format, unless it is there.
pub const INSERT_FORMAT: &'static str = "insert or ignore into format(name) values(?)";

/// Adds an image kind, unless it is there.
pub const INSERT_IMAGE_TYPE: &'static str = "insert or ignore into image_type(name) values(?)";

/// Adds a card, unless a card with its catalog id is there.
pub const INSERT_CARD: &'static str =
    "insert or ignore into card(card_id, object, name, color_indicator, \
    produced_mana, loyalty, artist, oracle_id, type_line, lang, \
    content_warning, converted_mana_cost, image_status, flavor_text, arena_id, \
    illustration_id, oracle_text, colors, color_identity, rarity, power, \
    toughness, set_name, set_id, set_type, set_short, penny_rank, variation, \
    mtgo_id, booster, border_color, foil, game_changer, reprint, layout, \
    reserved, digital, mana_cost, mtgo, arena, paper, promo) values(?1, ?2, ?3, \
    ?4, ?5, ?6, ?7, ?8, ?9, ?10, ?11, ?12, ?13, ?14, ?15, ?16, ?17, ?18, ?19, \
    ?20, ?21, ?22, ?23, ?24, ?25, ?26, ?27, ?28, ?29, ?30, ?31, ?32, ?33, ?34, \
    ?35, ?36, ?37, ?38, ?39, ?40, ?41, ?42)";

/// Asks for the id of the card with a catalog id.
pub const SELECT_CARD_ID: &'static str = "select id from card where card_id = ?";

/// Asks for the id of a format.
pub const SELECT_FORMAT_ID: &'static str = "select id from format where name = ?";

/// Asks for the id of an image kind.
pub const SELECT_IMAGE_TYPE_ID: &'static str = "select id from image_type where name = ?";

/// Adds a keyword and gives its id; gives no row where the keyword is there.
pub const INSERT_KEYWORD: &'static str =
    "insert into keyword(name) values(?) on conflict do nothing returning id";

/// Asks for the id of a keyword.
pub const SELECT_KEYWORD_ID: &'static str = "select id from keyword where name = ?";

/// Adds a card's status in a format, unless the card has one there.
pub const INSERT_LEGALITY: &'static str =
    "insert or ignore into legality(card_id, format_id, status) values(?, ?, ?)";

/// Joins a card and a keyword, unless they are joined.
pub const INSERT_CARD_KEYWORD: &'static str =
    "insert or ignore into card_keywords(card_id, keyword_id) values(?, ?)";

/// Adds a card's image of a kind, unless the card has one.
pub const INSERT_IMAGE: &'static str =
    "insert or ignore into images(card_id, image_type_id, uri) values(?, ?, ?)";

/// Adds a card's supertype, unless the card has one.
pub const INSERT_SUPERTYPE: &'static str =
    "insert or ignore into card_supertype(card_id, supertype) values(?, ?)";

/// Adds a main type to a card, unless the card has it.
pub const INSERT_CARD_TYPE: &'static str =
    "insert or ignore into card_type(card_id, type) values(?, ?)";

/// Adds a subtype to a card, unless the card has it.
pub const INSERT_SUBTYPE: &'static str =
    "insert or ignore into card_subtype(card_id, subtype) values(?, ?)";

/// Which statement a statement is, apart from the values bound to it.
#[derive(Debug, Copy, Clone, PartialEq, Eq, Structural, Hash)]
pub enum StatementKind {
    Begin,
    Commit,
    Rollback,
    InsertFormat,
    InsertImageType,
    InsertCard,
    SelectCardId,
    SelectFormatId,
    SelectImageTypeId,
    InsertKeyword,
    SelectKeywordId,
    InsertLegality,
    InsertCardKeyword,
    InsertImage,
    InsertSupertype,
    InsertCardType,
    InsertSubtype,
}

/// What a statement awaits from the store.
#[derive(Debug, Copy, Clone, PartialEq, Eq, Structural)]
pub enum Expect {
    /// Nothing but that it ran.
    Done,
    /// The id of the one row it selects; no row is a failure.
    Id,
    /// The id of the row it created, or no row where the row was there
    /// already.
    MaybeId,
}

/// What the store answered to a statement.
#[derive(Debug, Copy, Clone, PartialEq, Eq, Structural)]
pub enum Answer {
    /// The statement ran.
    Done,
    /// The statement ran and gave this id.
    Id(i64),
    /// The statement ran and gave no row.
    NoRow,
    /// The store reported an error.
    Failed,
}

impl StatementKind {
    /// The text of the statement, with a placeholder for each bound value.
    pub open spec fn spec_sql(self) -> Seq<char> {
        match self {
            StatementKind::Begin => BEGIN@,
            StatementKind::Commit => COMMIT@,
            StatementKind::Rollback => ROLLBACK@,
            StatementKind::InsertFormat => INSERT_FORMAT@,
            StatementKind::InsertImageType => INSERT_IMAGE_TYPE@,
            StatementKind::InsertCard => INSERT_CARD@,
            StatementKind::SelectCardId => SELECT_CARD_ID@,
            StatementKind::SelectFormatId => SELECT_FORMAT_ID@,
            StatementKind::SelectImageTypeId => SELECT_IMAGE_TYPE_ID@,
            StatementKind::InsertKeyword => INSERT_KEYWORD@,
            StatementKind::SelectKeywordId => SELECT_KEYWORD_ID@,
            StatementKind::InsertLegality => INSERT_LEGALITY@,
            StatementKind::InsertCardKeyword => INSERT_CARD_KEYWORD@,
            StatementKind::InsertImage => INSERT_IMAGE@,
            StatementKind::InsertSupertype => INSERT_SUPERTYPE@,
            StatementKind::InsertCardType => INSERT_CARD_TYPE@,
            StatementKind::InsertSubtype => INSERT_SUBTYPE@,
        }
    }

    /// The text of the statement, with a placeholder for each bound value.
    pub fn sql(self) -> (text: &'static str)
        ensures
            text@ == self.spec_sql(),
    {
        match self {
            StatementKind::Begin => BEGIN,
            StatementKind::Commit => COMMIT,
            StatementKind::Rollback => ROLLBACK,
            StatementKind::InsertFormat => INSERT_FORMAT,
            StatementKind::InsertImageType => INSERT_IMAGE_TYPE,
            StatementKind::InsertCard => INSERT_CARD,
            StatementKind::SelectCardId => SELECT_CARD_ID,
            StatementKind::SelectFormatId => SELECT_FORMAT_ID,
            StatementKind::SelectImageTypeId => SELECT_IMAGE_TYPE_ID,
            StatementKind::InsertKeyword => INSERT_KEYWORD,
            StatementKind::SelectKeywordId => SELECT_KEYWORD_ID,
            StatementKind::InsertLegality => INSERT_LEGALITY,
            StatementKind::InsertCardKeyword => INSERT_CARD_KEYWORD,
            StatementKind::InsertImage => INSERT_IMAGE,
            StatementKind::InsertSupertype => INSERT_SUPERTYPE,
            StatementKind::InsertCardType => INSERT_CARD_TYPE,
            StatementKind::InsertSubtype => INSERT_SUBTYPE,
        }
    }

    /// What a statement of this kind awaits from the store.
    pub open spec fn spec_expects(self) -> Expect {
        match self {
            StatementKind::SelectCardId
            | StatementKind::SelectFormatId
            | StatementKind::SelectImageTypeId
            | StatementKind::SelectKeywordId => Expect::Id,
            StatementKind::InsertKeyword => Expect::MaybeId,
            _ => Expect::Done,
        }
    }

    /// What a statement of this kind awaits from the store.
    #[verifier::when_used_as_spec(spec_expects)]
    pub fn expects(self) -> (e: Expect)
        ensures
            e == self.spec_expects(),
    {
        match self {
            StatementKind::SelectCardId
            | StatementKind::SelectFormatId
            | StatementKind::SelectImageTypeId
            | StatementKind::SelectKeywordId => Expect::Id,
            StatementKind::InsertKeyword => Expect::MaybeId,
            _ => Expect::Done,
        }
    }

    /// Whether an answer is one that a statement of this kind awaits.
    pub open spec fn spec_accepts(self, answer: Answer) -> bool {
        match self.spec_expects() {
            Expect::Done => answer == Answer::Done,
            Expect::Id => answer is Id,
            Expect::MaybeId => answer is Id || answer == Answer::NoRow,
        }
    }

    /// Whether an answer is one that a statement of this kind awaits.
    #[verifier::when_used_as_spec(spec_accepts)]
    pub fn accepts(self, answer: Answer) -> (b: bool)
        ensures
            b == self.spec_accepts(answer),
    {
        match self.expects() {
            Expect::Done => match answer {
                Answer::Done => true,
                _ => false,
            },
            Expect::Id => match answer {
                Answer::Id(_) => true,
                _ => false,
            },
            Expect::MaybeId => match answer {
                Answer::Id(_) => true,
                Answer::NoRow => true,
                _ => false,
            },
        }
    }
}

/// A statement for the store, with the values bound to it.
#[derive(Debug)]
pub enum Statement {
    Begin,
    Commit,
    Rollback,
    /// Adds a format to the reference table, unless it is there.
    InsertFormat(Format),
    /// Adds an image kind to the reference table, unless it is there.
    InsertImageType(ImageKind),
    /// Adds a card, unless a card with its catalog id is there.
    InsertCard(Card),
    /// Asks for the id of the card with a catalog id.
    SelectCardId { catalog_id: String },
    /// Asks for the id of a format.
    SelectFormatId(Format),
    /// Asks for the id of an image kind.
    SelectImageTypeId(ImageKind),
    /// Adds a keyword and asks for its id; gives no row where the keyword
    /// is there already.
    InsertKeyword { name: String },
    /// Asks for the id of a keyword.
    SelectKeywordId { name: String },
    /// Adds a card's status in a format, unless the card has one there.
    InsertLegality { card_id: i64, format_id: i64, status: Legality },
    /// Joins a card and a keyword, unless they are joined.
    InsertCardKeyword { card_id: i64, keyword_id: i64 },
    /// Adds a card's image of a kind, unless the card has one.
    InsertImage { card_id: i64, image_type_id: i64, uri: String },
    /// Adds a card's supertype, unless the card has one.
    InsertSupertype { card_id: i64, value: String },
    /// Adds a main type to a card, unless the card has it.
    InsertCardType { card_id: i64, value: String },
    /// Adds a subtype to a card, unless the card has it.
    InsertSubtype { card_id: i64, value: String },
}

/// What a statement holds, as text and plain values.
pub enum StatementView {
    Begin,
    Commit,
    Rollback,
    InsertFormat(Format),
    InsertImageType(ImageKind),
    InsertCard(CardRow),
    SelectCardId { catalog_id: Seq<char> },
    SelectFormatId(Format),
    SelectImageTypeId(ImageKind),
    InsertKeyword { name: Seq<char> },
    SelectKeywordId { name: Seq<char> },
    InsertLegality { card_id: i64, format_id: i64, status: Legality },
    InsertCardKeyword { card_id: i64, keyword_id: i64 },
    InsertImage { card_id: i64, image_type_id: i64, uri: Seq<char> },
    InsertSupertype { card_id: i64, value: Seq<char> },
    InsertCardType { card_id: i64, value: Seq<char> },
    InsertSubtype { card_id: i64, value: Seq<char> },
}

impl View for Statement {
    type V = StatementView;

    open spec fn view(&self) -> StatementView {
        match self {
            Statement::Begin => StatementView::Begin,
            Statement::Commit => StatementView::Commit,
            Statement::Rollback => StatementView::Rollback,
            Statement::InsertFormat(f) => StatementView::InsertFormat(*f),
            Statement::InsertImageType(k) => StatementView::InsertImageType(*k),
            Statement::InsertCard(row) => StatementView::InsertCard(row@),
            Statement::SelectCardId { catalog_id } => StatementView::SelectCardId {
                catalog_id: catalog_id@,
            },
            Statement::SelectFormatId(f) => StatementView::SelectFormatId(*f),
            Statement::SelectImageTypeId(k) => StatementView::SelectImageTypeId(*k),
            Statement::InsertKeyword { name } => StatementView::InsertKeyword { name: name@ },
            Statement::SelectKeywordId { name } => StatementView::SelectKeywordId {
                name: name@,
            },
            Statement::InsertLegality { card_id, format_id, status } => {
                StatementView::InsertLegality {
                    card_id: *card_id,
                    format_id: *format_id,
                    status: *status,
                }
            },
            Statement::InsertCardKeyword { card_id, keyword_id } => {
                StatementView::InsertCardKeyword { card_id: *card_id, keyword_id: *keyword_id }
            },
            Statement::InsertImage { card_id, image_type_id, uri } => StatementView::InsertImage {
                card_id: *card_id,
                image_type_id: *image_type_id,
                uri: uri@,
            },
            Statement::InsertSupertype { card_id, value } => StatementView::InsertSupertype {
                card_id: *card_id,
                value: value@,
            },
            Statement::InsertCardType { card_id, value } => StatementView::InsertCardType {
                card_id: *card_id,
                value: value@,
            },
            Statement::InsertSubtype { card_id, value } => StatementView::InsertSubtype {
                card_id: *card_id,
                value: value@,
            },
        }
    }
}

impl StatementView {
    /// Which statement this is.
    pub open spec fn kind(self) -> StatementKind {
        match self {
            StatementView::Begin => StatementKind::Begin,
            StatementView::Commit => StatementKind::Commit,
            StatementView::Rollback => StatementKind::Rollback,
            StatementView::InsertFormat(_) => StatementKind::InsertFormat,
            StatementView::InsertImageType(_) => StatementKind::InsertImageType,
            StatementView::InsertCard(_) => StatementKind::InsertCard,
            StatementView::SelectCardId { .. } => StatementKind::SelectCardId,
            StatementView::SelectFormatId(_) => StatementKind::SelectFormatId,
            StatementView::SelectImageTypeId(_) => StatementKind::SelectImageTypeId,
            StatementView::InsertKeyword { .. } => StatementKind::InsertKeyword,
            StatementView::SelectKeywordId { .. } => StatementKind::SelectKeywordId,
            StatementView::InsertLegality { .. } => StatementKind::InsertLegality,
            StatementView::InsertCardKeyword { .. } => StatementKind::InsertCardKeyword,
            StatementView::InsertImage { .. } => StatementKind::InsertImage,
            StatementView::InsertSupertype { .. } => StatementKind::InsertSupertype,
            StatementView::InsertCardType { .. } => StatementKind::InsertCardType,
            StatementView::InsertSubtype { .. } => StatementKind::InsertSubtype,
        }
    }

    /// The values bound to the statement, in the order of its
    /// placeholders.
    pub open spec fn binds(self) -> Seq<ValueView> {
        match self {
            StatementView::Begin | StatementView::Commit | StatementView::Rollback => seq![],
            StatementView::InsertFormat(f) => seq![ValueView::Text(f.spec_name())],
            StatementView::InsertImageType(k) => seq![ValueView::Text(k.spec_name())],
            StatementView::InsertCard(row) => row_values(row),
            StatementView::SelectCardId { catalog_id } => seq![ValueView::Text(catalog_id)],
            StatementView::SelectFormatId(f) => seq![ValueView::Text(f.spec_name())],
            StatementView::SelectImageTypeId(k) => seq![ValueView::Text(k.spec_name())],
            StatementView::InsertKeyword { name } => seq![ValueView::Text(name)],
            StatementView::SelectKeywordId { name } => seq![ValueView::Text(name)],
            StatementView::InsertLegality { card_id, format_id, status } => seq![
                ValueView::Integer(card_id),
                ValueView::Integer(format_id),
                ValueView::Text(status.spec_name()),
            ],
            StatementView::InsertCardKeyword { card_id, keyword_id } => seq![
                ValueView::Integer(card_id),
                ValueView::Integer(keyword_id),
            ],
            StatementView::InsertImage { card_id, image_type_id, uri } => seq![
                ValueView::Integer(card_id),
                ValueView::Integer(image_type_id),
                ValueView::Text(uri),
            ],
            StatementView::InsertSupertype { card_id, value } => seq![
                ValueView::Integer(card_id),
                ValueView::Text(value),
            ],
            StatementView::InsertCardType { card_id, value } => seq![
                ValueView::Integer(card_id),
                ValueView::Text(value),
            ],
            StatementView::InsertSubtype { card_id, value } => seq![
                ValueView::Integer(card_id),
                ValueView::Text(value),
            ],
        }
    }
}

fn name_value(name: &str) -> (v: Value)
    ensures
        v@ == ValueView::Text(name@),
{
    Value::Text(name.to_owned())
}

impl Statement {
    /// Which statement this is.
    pub fn kind(&self) -> (kind: StatementKind)
        ensures
            kind == self@.kind(),
    {
        match self {
            Statement::Begin => StatementKind::Begin,
            Statement::Commit => StatementKind::Commit,
            Statement::Rollback => StatementKind::Rollback,
            Statement::InsertFormat(_) => StatementKind::InsertFormat,
            Statement::InsertImageType(_) => StatementKind::InsertImageType,
            Statement::InsertCard(_) => StatementKind::InsertCard,
            Statement::SelectCardId { .. } => StatementKind::SelectCardId,
            Statement::SelectFormatId(_) => StatementKind::SelectFormatId,
            Statement::SelectImageTypeId(_) => StatementKind::SelectImageTypeId,
            Statement::InsertKeyword { .. } => StatementKind::InsertKeyword,
            Statement::SelectKeywordId { .. } => StatementKind::SelectKeywordId,
            Statement::InsertLegality { .. } => StatementKind::InsertLegality,
            Statement::InsertCardKeyword { .. } => StatementKind::InsertCardKeyword,
            Statement::InsertImage { .. } => StatementKind::InsertImage,
            Statement::InsertSupertype { .. } => StatementKind::InsertSupertype,
            Statement::InsertCardType { .. } => StatementKind::InsertCardType,
            Statement::InsertSubtype { .. } => StatementKind::InsertSubtype,
        }
    }

    /// The text of the statement, with a placeholder for each bound value.
    pub fn sql(&self) -> (text: &'static str)
        ensures
            text@ == self@.kind().spec_sql(),
    {
        self.kind().sql()
    }

    /// The values bound to the statement, in the order of its
    /// placeholders.
    pub fn binds(&self) -> (values: Vec<Value>)
        ensures
            value_views(values@) == self@.binds(),
    {
        let values = match self {
            Statement::Begin | Statement::Commit | Statement::Rollback => Vec::new(),
            Statement::InsertFormat(f) => vec![name_value(f.name())],
            Statement::InsertImageType(k) => vec![name_value(k.name())],
            Statement::InsertCard(row) => {
                return row.values();
            },
            Statement::SelectCardId { catalog_id } => vec![name_value(catalog_id.as_str())],
            Statement::SelectFormatId(f) => vec![name_value(f.name())],
            Statement::SelectImageTypeId(k) => vec![name_value(k.name())],
            Statement::InsertKeyword { name } => vec![name_value(name.as_str())],
            Statement::SelectKeywordId { name } => vec![name_value(name.as_str())],
            Statement::InsertLegality { card_id, format_id, status } => vec![
                Value::Integer(*card_id),
                Value::Integer(*format_id),
                name_value(status.name()),
            ],
            Statement::InsertCardKeyword { card_id, keyword_id } => vec![
                Value::Integer(*card_id),
                Value::Integer(*keyword_id),
            ],
            Statement::InsertImage { card_id, image_type_id, uri } => vec![
                Value::Integer(*card_id),
                Value::Integer(*image_type_id),
                name_value(uri.as_str()),
            ],
            Statement::InsertSupertype { card_id, value } => vec![
                Value::Integer(*card_id),
                name_value(value.as_str()),
            ],
            Statement::InsertCardType { card_id, value } => vec![
                Value::Integer(*card_id),
                name_value(value.as_str()),
            ],
            Statement::InsertSubtype { card_id, value } => vec![
                Value::Integer(*card_id),
                name_value(value.as_str()),
            ],
        };
        assert(value_views(values@) =~= self@.binds());
        values
    }
}

} // verus!
