//! The card as it is stored: the row that a record of the bulk export
//! becomes in the `card` table, and the values it binds to a statement.

use crate::card::{flatten, flattened, opt_text, opt_texts, views, CardView, ScryfallCard};
use crate::color::{codes_valid, colors_of, encode, mask_of, Color};
use crate::text::{copy_text, parse_i32, parsed_i32, texts};
use vstd::prelude::*;

verus! {

/// A value bound to a statement.
#[derive(Debug, PartialEq, Eq)]
pub enum Value {
    Null,
    Integer(i64),
    /// The bit pattern of a 32-bit float.
    Real(u32),
    Text(String),
    Flag(bool),
}

/// What a bound value holds, as text and plain values.
pub enum ValueView {
    Null,
    Integer(i64),
    Real(u32),
    Text(Seq<char>),
    Flag(bool),
}

impl View for Value {
    type V = ValueView;

    open spec fn view(&self) -> ValueView {
        match self {
            Value::Null => ValueView::Null,
            Value::Integer(n) => ValueView::Integer(*n),
            Value::Real(bits) => ValueView::Real(*bits),
            Value::Text(s) => ValueView::Text(s@),
            Value::Flag(b) => ValueView::Flag(*b),
        }
    }
}

/// The view of each value of a sequence.
pub open spec fn value_views(values: Seq<Value>) -> Seq<ValueView> {
    values.map_values(|v: Value| v@)
}

/// The value that binds an optional text: null where it is absent.
pub open spec fn text_value(field: Option<Seq<char>>) -> ValueView {
    match field {
        Some(s) => ValueView::Text(s),
        None => ValueView::Null,
    }
}

/// The value that binds an optional mask.
pub open spec fn mask_value(field: Option<u8>) -> ValueView {
    match field {
        Some(m) => ValueView::Integer(m as i64),
        None => ValueView::Null,
    }
}

/// The value that binds an optional number.
pub open spec fn int_value(field: Option<i32>) -> ValueView {
    match field {
        Some(n) => ValueView::Integer(n as i64),
        None => ValueView::Null,
    }
}

/// The value that binds an optional flag.
pub open spec fn flag_value(field: Option<bool>) -> ValueView {
    match field {
        Some(b) => ValueView::Flag(b),
        None => ValueView::Null,
    }
}

/// The value that binds an optional float, held as its bit pattern.
pub open spec fn real_value(field: Option<u32>) -> ValueView {
    match field {
        Some(bits) => ValueView::Real(bits),
        None => ValueView::Null,
    }
}

fn bind_text(field: &Option<String>) -> (v: Value)
    ensures
        v@ == text_value(opt_text(*field)),
{
    match field {
        Some(s) => Value::Text(s.clone()),
        None => Value::Null,
    }
}

fn bind_mask(field: Option<u8>) -> (v: Value)
    ensures
        v@ == mask_value(field),
{
    match field {
        Some(m) => Value::Integer(m as i64),
        None => Value::Null,
    }
}

fn bind_int(field: Option<i32>) -> (v: Value)
    ensures
        v@ == int_value(field),
{
    match field {
        Some(n) => Value::Integer(n as i64),
        None => Value::Null,
    }
}

fn bind_flag(field: Option<bool>) -> (v: Value)
    ensures
        v@ == flag_value(field),
{
    match field {
        Some(b) => Value::Flag(b),
        None => Value::Null,
    }
}

fn bind_real(field: Option<u32>) -> (v: Value)
    ensures
        v@ == real_value(field),
{
    match field {
        Some(bits) => Value::Real(bits),
        None => Value::Null,
    }
}

/// One of the colour fields of a record.
#[derive(Debug, Copy, Clone, PartialEq, Eq, Structural)]
pub enum ColorField {
    ColorIndicator,
    ProducedMana,
    Colors,
    ColorIdentity,
}

/// A colour field that could not be encoded: it held a code that names no
/// colour. The row is written without a value for the field.
#[derive(Debug, Copy, Clone, PartialEq, Eq, Structural)]
pub struct EncodingFailure {
    pub field: ColorField,
    /// Position of the first unknown code in the field.
    pub index: usize,
}

/// A row of the `card` table, column by column.
#[derive(Debug)]
pub struct Card {
    /// The catalog's identifier of the card.
    pub card_id: Option<String>,
    pub object: Option<String>,
    pub name: Option<String>,
    pub color_indicator: Option<u8>,
    pub produced_mana: Option<u8>,
    pub loyalty: Option<String>,
    pub artist: Option<String>,
    pub oracle_id: Option<String>,
    pub type_line: Option<String>,
    pub lang: Option<String>,
    pub content_warning: Option<bool>,
    /// The mana value: the bit pattern of a 32-bit float.
    pub converted_mana_cost: Option<u32>,
    pub image_status: Option<String>,
    pub flavor_text: Option<String>,
    pub arena_id: Option<i32>,
    pub illustration_id: Option<String>,
    pub oracle_text: Option<String>,
    pub colors: Option<u8>,
    pub color_identity: Option<u8>,
    pub rarity: Option<String>,
    pub power: Option<i32>,
    pub toughness: Option<i32>,
    pub set_name: Option<String>,
    pub set_id: Option<String>,
    pub set_type: Option<String>,
    pub set_short: Option<String>,
    pub penny_rank: Option<i32>,
    pub variation: Option<bool>,
    pub mtgo_id: Option<i32>,
    pub booster: Option<bool>,
    pub border_color: Option<String>,
    pub foil: Option<bool>,
    pub game_changer: Option<bool>,
    pub reprint: Option<bool>,
    pub layout: Option<String>,
    pub reserved: Option<bool>,
    pub digital: Option<bool>,
    pub mana_cost: Option<String>,
    pub mtgo: bool,
    pub arena: bool,
    pub paper: bool,
    pub promo: Option<bool>,
}

/// What a row holds, as text and plain values.
pub struct CardRow {
    pub card_id: Option<Seq<char>>,
    pub object: Option<Seq<char>>,
    pub name: Option<Seq<char>>,
    pub color_indicator: Option<u8>,
    pub produced_mana: Option<u8>,
    pub loyalty: Option<Seq<char>>,
    pub artist: Option<Seq<char>>,
    pub oracle_id: Option<Seq<char>>,
    pub type_line: Option<Seq<char>>,
    pub lang: Option<Seq<char>>,
    pub content_warning: Option<bool>,
    pub converted_mana_cost: Option<u32>,
    pub image_status: Option<Seq<char>>,
    pub flavor_text: Option<Seq<char>>,
    pub arena_id: Option<i32>,
    pub illustration_id: Option<Seq<char>>,
    pub oracle_text: Option<Seq<char>>,
    pub colors: Option<u8>,
    pub color_identity: Option<u8>,
    pub rarity: Option<Seq<char>>,
    pub power: Option<i32>,
    pub toughness: Option<i32>,
    pub set_name: Option<Seq<char>>,
    pub set_id: Option<Seq<char>>,
    pub set_type: Option<Seq<char>>,
    pub set_short: Option<Seq<char>>,
    pub penny_rank: Option<i32>,
    pub variation: Option<bool>,
    pub mtgo_id: Option<i32>,
    pub booster: Option<bool>,
    pub border_color: Option<Seq<char>>,
    pub foil: Option<bool>,
    pub game_changer: Option<bool>,
    pub reprint: Option<bool>,
    pub layout: Option<Seq<char>>,
    pub reserved: Option<bool>,
    pub digital: Option<bool>,
    pub mana_cost: Option<Seq<char>>,
    pub mtgo: bool,
    pub arena: bool,
    pub paper: bool,
    pub promo: Option<bool>,
}

impl View for Card {
    type V = CardRow;

    open spec fn view(&self) -> CardRow {
        CardRow {
            card_id: opt_text(self.card_id),
            object: opt_text(self.object),
            name: opt_text(self.name),
            color_indicator: self.color_indicator,
            produced_mana: self.produced_mana,
            loyalty: opt_text(self.loyalty),
            artist: opt_text(self.artist),
            oracle_id: opt_text(self.oracle_id),
            type_line: opt_text(self.type_line),
            lang: opt_text(self.lang),
            content_warning: self.content_warning,
            converted_mana_cost: self.converted_mana_cost,
            image_status: opt_text(self.image_status),
            flavor_text: opt_text(self.flavor_text),
            arena_id: self.arena_id,
            illustration_id: opt_text(self.illustration_id),
            oracle_text: opt_text(self.oracle_text),
            colors: self.colors,
            color_identity: self.color_identity,
            rarity: opt_text(self.rarity),
            power: self.power,
            toughness: self.toughness,
            set_name: opt_text(self.set_name),
            set_id: opt_text(self.set_id),
            set_type: opt_text(self.set_type),
            set_short: opt_text(self.set_short),
            penny_rank: self.penny_rank,
            variation: self.variation,
            mtgo_id: self.mtgo_id,
            booster: self.booster,
            border_color: opt_text(self.border_color),
            foil: self.foil,
            game_changer: self.game_changer,
            reprint: self.reprint,
            layout: opt_text(self.layout),
            reserved: self.reserved,
            digital: self.digital,
            mana_cost: opt_text(self.mana_cost),
            mtgo: self.mtgo,
            arena: self.arena,
            paper: self.paper,
            promo: self.promo,
        }
    }
}

/// The row of each record of a sequence.
pub open spec fn card_rows(records: Seq<CardView>) -> Seq<CardRow> {
    records.map_values(|record: CardView| card_row(record))
}

/// The view of each row of a sequence.
pub open spec fn row_views(rows: Seq<Card>) -> Seq<CardRow> {
    rows.map_values(|row: Card| row@)
}

/// The mask stored for a colour field: none for an absent field, and none
/// for a field that holds a code that names no colour.
pub open spec fn stored_mask(field: Option<Seq<Seq<char>>>) -> Option<u8> {
    match field {
        Some(codes) => if codes_valid(codes) {
            Some(mask_of(colors_of(codes)))
        } else {
            None
        },
        None => None,
    }
}

/// The number stored for a numeric text: none for an absent field, and
/// none for a text that writes no 32-bit integer.
pub open spec fn stored_number(field: Option<Seq<char>>) -> Option<i32> {
    match field {
        Some(text) => parsed_i32(text),
        None => None,
    }
}

/// Whether a record lists a platform.
pub open spec fn lists_game(card: CardView, game: Seq<char>) -> bool {
    card.games is Some && card.games->0.contains(game)
}

/// The row that a record becomes.
pub open spec fn card_row(card: CardView) -> CardRow {
    CardRow {
        card_id: card.id,
        object: card.object,
        name: card.name,
        color_indicator: stored_mask(card.color_indicator),
        produced_mana: stored_mask(card.produced_mana),
        loyalty: card.loyalty,
        artist: card.artist,
        oracle_id: card.oracle_id,
        type_line: card.type_line,
        lang: card.lang,
        content_warning: card.content_warning,
        converted_mana_cost: card.cmc,
        image_status: card.image_status,
        flavor_text: card.flavor_text,
        arena_id: card.arena_id,
        illustration_id: card.illustration_id,
        oracle_text: card.oracle_text,
        colors: stored_mask(card.colors),
        color_identity: stored_mask(card.color_identity),
        rarity: card.rarity,
        power: stored_number(card.power),
        toughness: stored_number(card.toughness),
        set_name: card.set_name,
        set_id: card.set_id,
        set_type: card.set_type,
        set_short: card.set,
        penny_rank: card.penny_rank,
        variation: card.variation,
        mtgo_id: card.mtgo_id,
        booster: card.booster,
        border_color: card.border_color,
        foil: card.foil,
        game_changer: card.game_changer,
        reprint: card.reprint,
        layout: card.layout,
        reserved: card.reserved,
        digital: card.digital,
        mana_cost: card.mana_cost,
        mtgo: lists_game(card, "mtgo"@),
        arena: lists_game(card, "arena"@),
        paper: lists_game(card, "paper"@),
        promo: card.promo,
    }
}

/// Whether a colour field fails to encode.
pub open spec fn fails_to_encode(field: Option<Seq<Seq<char>>>) -> bool {
    field is Some && !codes_valid(field->0)
}

/// The view of each column of the row, in the order of the columns.
pub open spec fn row_values(row: CardRow) -> Seq<ValueView> {
    seq![
        text_value(row.card_id),
        text_value(row.object),
        text_value(row.name),
        mask_value(row.color_indicator),
        mask_value(row.produced_mana),
        text_value(row.loyalty),
        text_value(row.artist),
        text_value(row.oracle_id),
        text_value(row.type_line),
        text_value(row.lang),
        flag_value(row.content_warning),
        real_value(row.converted_mana_cost),
        text_value(row.image_status),
        text_value(row.flavor_text),
        int_value(row.arena_id),
        text_value(row.illustration_id),
        text_value(row.oracle_text),
        mask_value(row.colors),
        mask_value(row.color_identity),
        text_value(row.rarity),
        int_value(row.power),
        int_value(row.toughness),
        text_value(row.set_name),
        text_value(row.set_id),
        text_value(row.set_type),
        text_value(row.set_short),
        int_value(row.penny_rank),
        flag_value(row.variation),
        int_value(row.mtgo_id),
        flag_value(row.booster),
        text_value(row.border_color),
        flag_value(row.foil),
        flag_value(row.game_changer),
        flag_value(row.reprint),
        text_value(row.layout),
        flag_value(row.reserved),
        flag_value(row.digital),
        text_value(row.mana_cost),
        ValueView::Flag(row.mtgo),
        ValueView::Flag(row.arena),
        ValueView::Flag(row.paper),
        flag_value(row.promo),
    ]
}

/// Whether `index` is the place of the first code of a field that names no
/// colour.
pub open spec fn is_first_unknown(codes: Seq<Seq<char>>, index: int) -> bool {
    &&& 0 <= index < codes.len()
    &&& Color::spec_from_code(codes[index]) is None
    &&& codes_valid(codes.subrange(0, index))
}

/// The place of the first code of a field that names no colour.
pub open spec fn first_unknown(codes: Seq<Seq<char>>) -> int {
    choose|index: int| is_first_unknown(codes, index)
}

/// There is one first unknown code at most: whoever finds one has found
/// the value of `first_unknown`.
pub proof fn lemma_first_unknown(codes: Seq<Seq<char>>, index: int)
    requires
        is_first_unknown(codes, index),
    ensures
        first_unknown(codes) == index,
{
    let other = first_unknown(codes);
    assert(is_first_unknown(codes, other));
    if other < index {
        assert(codes.subrange(0, index)[other] == codes[other]);
    }
    if index < other {
        assert(codes.subrange(0, other)[index] == codes[index]);
    }
}

/// The failure reported for a colour field, if it fails to encode.
pub open spec fn field_failure(card: CardView, field: ColorField) -> Seq<EncodingFailure> {
    let codes = field_codes(card, field);
    if fails_to_encode(codes) {
        seq![EncodingFailure { field, index: first_unknown(codes->0) as usize }]
    } else {
        seq![]
    }
}

/// The failures reported for a record, in the order of the columns.
pub open spec fn encoding_failures(card: CardView) -> Seq<EncodingFailure> {
    field_failure(card, ColorField::ColorIndicator) + field_failure(
        card,
        ColorField::ProducedMana,
    ) + field_failure(card, ColorField::Colors) + field_failure(card, ColorField::ColorIdentity)
}

/// The codes that a record holds in a colour field.
pub open spec fn field_codes(card: CardView, field: ColorField) -> Option<Seq<Seq<char>>> {
    match field {
        ColorField::ColorIndicator => card.color_indicator,
        ColorField::ProducedMana => card.produced_mana,
        ColorField::Colors => card.colors,
        ColorField::ColorIdentity => card.color_identity,
    }
}

fn stored_mask_of(field: &Option<Vec<String>>, which: ColorField) -> (out: (
    Option<u8>,
    Option<EncodingFailure>,
))
    ensures
        out.0 == stored_mask(opt_texts(*field)),
        out.1 is Some <==> fails_to_encode(opt_texts(*field)),
        out.1 is Some ==> out.1->0 == (EncodingFailure {
            field: which,
            index: first_unknown(opt_texts(*field)->0) as usize,
        }),
{
    match field {
        Some(codes) => match encode(codes) {
            Ok(mask) => (Some(mask), None),
            Err(e) => {
                proof {
                    let all = texts(codes@);
                    assert(all[e.index as int] == codes[e.index as int]@);
                    lemma_first_unknown(all, e.index as int);
                }
                (None, Some(EncodingFailure { field: which, index: e.index }))
            },
        },
        None => (None, None),
    }
}

fn stored_number_of(field: &Option<String>) -> (number: Option<i32>)
    ensures
        number == stored_number(opt_text(*field)),
{
    match field {
        Some(text) => parse_i32(text.as_str()),
        None => None,
    }
}

impl Card {
    /// Builds the row of a record: texts and flags as they stand, colour
    /// fields as masks, power and toughness as numbers. A colour field that
    /// holds an unknown code is stored without value and reported.
    pub fn of(card: &ScryfallCard) -> (built: (Card, Vec<EncodingFailure>))
        ensures
            built.0@ == card_row(card@),
            built.1@ == encoding_failures(card@),
    {
        let mut failures: Vec<EncodingFailure> = Vec::new();
        let (color_indicator, failure) = stored_mask_of(
            &card.color_indicator,
            ColorField::ColorIndicator,
        );
        if let Some(f) = failure {
            failures.push(f);
        }
        assert(failures@ =~= field_failure(card@, ColorField::ColorIndicator));
        let ghost a = failures@;
        let (produced_mana, failure) = stored_mask_of(
            &card.produced_mana,
            ColorField::ProducedMana,
        );
        if let Some(f) = failure {
            failures.push(f);
        }
        assert(failures@ =~= a + field_failure(card@, ColorField::ProducedMana));
        let ghost b = failures@;
        let (colors, failure) = stored_mask_of(&card.colors, ColorField::Colors);
        if let Some(f) = failure {
            failures.push(f);
        }
        assert(failures@ =~= b + field_failure(card@, ColorField::Colors));
        let ghost c = failures@;
        let (color_identity, failure) = stored_mask_of(
            &card.color_identity,
            ColorField::ColorIdentity,
        );
        if let Some(f) = failure {
            failures.push(f);
        }
        assert(failures@ =~= c + field_failure(card@, ColorField::ColorIdentity));
        let row = Card {
            card_id: copy_text(&card.id),
            object: copy_text(&card.object),
            name: copy_text(&card.name),
            color_indicator,
            produced_mana,
            loyalty: copy_text(&card.loyalty),
            artist: copy_text(&card.artist),
            oracle_id: copy_text(&card.oracle_id),
            type_line: copy_text(&card.type_line),
            lang: copy_text(&card.lang),
            content_warning: card.content_warning,
            converted_mana_cost: card.cmc,
            image_status: copy_text(&card.image_status),
            flavor_text: copy_text(&card.flavor_text),
            arena_id: card.arena_id,
            illustration_id: copy_text(&card.illustration_id),
            oracle_text: copy_text(&card.oracle_text),
            colors,
            color_identity,
            rarity: copy_text(&card.rarity),
            power: stored_number_of(&card.power),
            toughness: stored_number_of(&card.toughness),
            set_name: copy_text(&card.set_name),
            set_id: copy_text(&card.set_id),
            set_type: copy_text(&card.set_type),
            set_short: copy_text(&card.set),
            penny_rank: card.penny_rank,
            variation: card.variation,
            mtgo_id: card.mtgo_id,
            booster: card.booster,
            border_color: copy_text(&card.border_color),
            foil: card.foil,
            game_changer: card.game_changer,
            reprint: card.reprint,
            layout: copy_text(&card.layout),
            reserved: card.reserved,
            digital: card.digital,
            mana_cost: copy_text(&card.mana_cost),
            mtgo: card.contains_game("mtgo"),
            arena: card.contains_game("arena"),
            paper: card.contains_game("paper"),
            promo: card.promo,
        };
        (row, failures)
    }

    /// The rows that a card of the bulk export becomes: one per face, each
    /// with what the face inherits from the card. What fails to encode is
    /// stored without value; `Card::of` tells which fields these are.
    pub fn from_scryfall(card: ScryfallCard) -> (rows: Vec<Card>)
        ensures
            row_views(rows@) == card_rows(flattened(card)),
    {
        let ghost wanted = card_rows(flattened(card));
        let records = flatten(card);
        let mut rows: Vec<Card> = Vec::new();
        let mut i: usize = 0;
        assert(row_views(rows@) =~= wanted.take(0));
        while i < records.len()
            invariant
                i <= records.len(),
                views(records@) == flattened(card),
                wanted == card_rows(flattened(card)),
                row_views(rows@) == wanted.take(i as int),
            decreases records.len() - i,
        {
            let (row, _) = Card::of(&records[i]);
            proof {
                let all = flattened(card);
                assert(all[i as int] == records@[i as int]@);
                assert(wanted.len() == all.len() == records@.len());
                assert(wanted[i as int] == card_row(all[i as int]));
                assert(wanted.take(i + 1) =~= wanted.take(i as int).push(row@));
                assert(row_views(rows@.push(row)) =~= row_views(rows@).push(row@));
            }
            rows.push(row);
            i += 1;
        }
        assert(wanted.take(i as int) =~= wanted);
        rows
    }

    /// A copy that holds the same values.
    pub fn duplicate(&self) -> (copy: Card)
        ensures
            copy@ == self@,
    {
        Card {
            card_id: copy_text(&self.card_id),
            object: copy_text(&self.object),
            name: copy_text(&self.name),
            color_indicator: self.color_indicator,
            produced_mana: self.produced_mana,
            loyalty: copy_text(&self.loyalty),
            artist: copy_text(&self.artist),
            oracle_id: copy_text(&self.oracle_id),
            type_line: copy_text(&self.type_line),
            lang: copy_text(&self.lang),
            content_warning: self.content_warning,
            converted_mana_cost: self.converted_mana_cost,
            image_status: copy_text(&self.image_status),
            flavor_text: copy_text(&self.flavor_text),
            arena_id: self.arena_id,
            illustration_id: copy_text(&self.illustration_id),
            oracle_text: copy_text(&self.oracle_text),
            colors: self.colors,
            color_identity: self.color_identity,
            rarity: copy_text(&self.rarity),
            power: self.power,
            toughness: self.toughness,
            set_name: copy_text(&self.set_name),
            set_id: copy_text(&self.set_id),
            set_type: copy_text(&self.set_type),
            set_short: copy_text(&self.set_short),
            penny_rank: self.penny_rank,
            variation: self.variation,
            mtgo_id: self.mtgo_id,
            booster: self.booster,
            border_color: copy_text(&self.border_color),
            foil: self.foil,
            game_changer: self.game_changer,
            reprint: self.reprint,
            layout: copy_text(&self.layout),
            reserved: self.reserved,
            digital: self.digital,
            mana_cost: copy_text(&self.mana_cost),
            mtgo: self.mtgo,
            arena: self.arena,
            paper: self.paper,
            promo: self.promo,
        }
    }

    /// The values of the row, in the order of the columns.
    pub fn values(&self) -> (values: Vec<Value>)
        ensures
            value_views(values@) == row_values(self@),
    {
        let values = vec![
            bind_text(&self.card_id),
            bind_text(&self.object),
            bind_text(&self.name),
            bind_mask(self.color_indicator),
            bind_mask(self.produced_mana),
            bind_text(&self.loyalty),
            bind_text(&self.artist),
            bind_text(&self.oracle_id),
            bind_text(&self.type_line),
            bind_text(&self.lang),
            bind_flag(self.content_warning),
            bind_real(self.converted_mana_cost),
            bind_text(&self.image_status),
            bind_text(&self.flavor_text),
            bind_int(self.arena_id),
            bind_text(&self.illustration_id),
            bind_text(&self.oracle_text),
            bind_mask(self.colors),
            bind_mask(self.color_identity),
            bind_text(&self.rarity),
            bind_int(self.power),
            bind_int(self.toughness),
            bind_text(&self.set_name),
            bind_text(&self.set_id),
            bind_text(&self.set_type),
            bind_text(&self.set_short),
            bind_int(self.penny_rank),
            bind_flag(self.variation),
            bind_int(self.mtgo_id),
            bind_flag(self.booster),
            bind_text(&self.border_color),
            bind_flag(self.foil),
            bind_flag(self.game_changer),
            bind_flag(self.reprint),
            bind_text(&self.layout),
            bind_flag(self.reserved),
            bind_flag(self.digital),
            bind_text(&self.mana_cost),
            Value::Flag(self.mtgo),
            Value::Flag(self.arena),
            Value::Flag(self.paper),
            bind_flag(self.promo),
        ];
        assert(value_views(values@) =~= row_values(self@));
        values
    }
}

} // verus!
