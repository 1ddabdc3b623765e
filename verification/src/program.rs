//! The work of an ingestion run, laid out as instructions.
//!
//! An instruction names one row to write, by the natural keys of what it
//! refers to. The ids of the rows referred to are not known before the
//! store is asked; the updater resolves them while it works an instruction
//! off. Per card the instructions come in a fixed order: the card itself,
//! its legalities, its keywords, its images, its types.

use crate::card::{opt_text, views, CardView, ScryfallCard};
use crate::row::{encoding_failures, card_row, Card, CardRow, EncodingFailure};
use crate::statement::StatementKind;
use crate::text::{copy_text, slice_texts, texts};
use crate::typeline::parsed;
use crate::vocab::{Format, ImageKind, Legality};
use vstd::prelude::*;

verus! {

/// One row to write, or the opening or closing of a transaction.
#[derive(Debug)]
pub enum Instr {
    Begin,
    Commit,
    SeedFormat(Format),
    SeedImageType(ImageKind),
    /// The row of a card. `card` is the place of the record in the list
    /// given to the updater, here and below.
    Card { card: usize, catalog_id: String, row: Card },
    Legality { card: usize, catalog_id: String, format: Format, status: Legality },
    Keyword { card: usize, catalog_id: String, name: String },
    Image { card: usize, catalog_id: String, kind: ImageKind, uri: String },
    Supertype { card: usize, catalog_id: String, value: String },
    Type { card: usize, catalog_id: String, value: String },
    Subtype { card: usize, catalog_id: String, value: String },
}

/// What an instruction holds, as text and plain values.
pub enum InstrView {
    Begin,
    Commit,
    SeedFormat(Format),
    SeedImageType(ImageKind),
    Card { card: usize, catalog_id: Seq<char>, row: CardRow },
    Legality { card: usize, catalog_id: Seq<char>, format: Format, status: Legality },
    Keyword { card: usize, catalog_id: Seq<char>, name: Seq<char> },
    Image { card: usize, catalog_id: Seq<char>, kind: ImageKind, uri: Seq<char> },
    Supertype { card: usize, catalog_id: Seq<char>, value: Seq<char> },
    Type { card: usize, catalog_id: Seq<char>, value: Seq<char> },
    Subtype { card: usize, catalog_id: Seq<char>, value: Seq<char> },
}

impl View for Instr {
    type V = InstrView;

    open spec fn view(&self) -> InstrView {
        match self {
            Instr::Begin => InstrView::Begin,
            Instr::Commit => InstrView::Commit,
            Instr::SeedFormat(f) => InstrView::SeedFormat(*f),
            Instr::SeedImageType(k) => InstrView::SeedImageType(*k),
            Instr::Card { card, catalog_id, row } => InstrView::Card {
                card: *card,
                catalog_id: catalog_id@,
                row: row@,
            },
            Instr::Legality { card, catalog_id, format, status } => InstrView::Legality {
                card: *card,
                catalog_id: catalog_id@,
                format: *format,
                status: *status,
            },
            Instr::Keyword { card, catalog_id, name } => InstrView::Keyword {
                card: *card,
                catalog_id: catalog_id@,
                name: name@,
            },
            Instr::Image { card, catalog_id, kind, uri } => InstrView::Image {
                card: *card,
                catalog_id: catalog_id@,
                kind: *kind,
                uri: uri@,
            },
            Instr::Supertype { card, catalog_id, value } => InstrView::Supertype {
                card: *card,
                catalog_id: catalog_id@,
                value: value@,
            },
            Instr::Type { card, catalog_id, value } => InstrView::Type {
                card: *card,
                catalog_id: catalog_id@,
                value: value@,
            },
            Instr::Subtype { card, catalog_id, value } => InstrView::Subtype {
                card: *card,
                catalog_id: catalog_id@,
                value: value@,
            },
        }
    }
}

impl InstrView {
    /// The catalog id of the card that the instruction is about.
    pub open spec fn catalog(self) -> Option<Seq<char>> {
        match self {
            InstrView::Card { catalog_id, .. } => Some(catalog_id),
            InstrView::Legality { catalog_id, .. } => Some(catalog_id),
            InstrView::Keyword { catalog_id, .. } => Some(catalog_id),
            InstrView::Image { catalog_id, .. } => Some(catalog_id),
            InstrView::Supertype { catalog_id, .. } => Some(catalog_id),
            InstrView::Type { catalog_id, .. } => Some(catalog_id),
            InstrView::Subtype { catalog_id, .. } => Some(catalog_id),
            _ => None,
        }
    }

    /// The place, in the list given to the updater, of the card that the
    /// instruction is about.
    pub open spec fn card(self) -> Option<usize> {
        match self {
            InstrView::Card { card, .. } => Some(card),
            InstrView::Legality { card, .. } => Some(card),
            InstrView::Keyword { card, .. } => Some(card),
            InstrView::Image { card, .. } => Some(card),
            InstrView::Supertype { card, .. } => Some(card),
            InstrView::Type { card, .. } => Some(card),
            InstrView::Subtype { card, .. } => Some(card),
            _ => None,
        }
    }

    /// The kind of the statement that writes the row of the instruction.
    pub open spec fn write_kind(self) -> StatementKind {
        match self {
            InstrView::Begin => StatementKind::Begin,
            InstrView::Commit => StatementKind::Commit,
            InstrView::SeedFormat(_) => StatementKind::InsertFormat,
            InstrView::SeedImageType(_) => StatementKind::InsertImageType,
            InstrView::Card { .. } => StatementKind::InsertCard,
            InstrView::Legality { .. } => StatementKind::InsertLegality,
            InstrView::Keyword { .. } => StatementKind::InsertCardKeyword,
            InstrView::Image { .. } => StatementKind::InsertImage,
            InstrView::Supertype { .. } => StatementKind::InsertSupertype,
            InstrView::Type { .. } => StatementKind::InsertCardType,
            InstrView::Subtype { .. } => StatementKind::InsertSubtype,
        }
    }

    /// The kind of the statement that asks for the id of what the
    /// instruction refers to besides its card.
    pub open spec fn find_kind(self) -> StatementKind {
        match self {
            InstrView::Legality { .. } => StatementKind::SelectFormatId,
            InstrView::Image { .. } => StatementKind::SelectImageTypeId,
            _ => StatementKind::SelectKeywordId,
        }
    }
}

/// The view of each instruction of a sequence.
pub open spec fn instr_views(program: Seq<Instr>) -> Seq<InstrView> {
    program.map_values(|instr: Instr| instr@)
}

/// What went wrong with a card, or with the run as a whole.
#[derive(Debug, Copy, Clone, PartialEq, Eq, Structural)]
pub enum Operation {
    /// A colour field held a code that names no colour; the card was
    /// written without a value for the field.
    Encode(EncodingFailure),
    /// The record has no catalog id; nothing was written for it.
    MissingId,
    /// The store failed a statement of this kind, or answered it with
    /// what the statement does not await.
    Store(StatementKind),
}

/// A failure of an ingestion run, with the card it befell.
#[derive(Debug)]
pub struct Failure {
    /// The catalog id of the card; none where the record has none, and for
    /// a failure that befell no card.
    pub catalog_id: Option<String>,
    /// The name of the card.
    pub name: Option<String>,
    pub operation: Operation,
}

/// What a failure holds, as text and plain values.
pub struct FailureView {
    pub catalog_id: Option<Seq<char>>,
    pub name: Option<Seq<char>>,
    pub operation: Operation,
}

impl View for Failure {
    type V = FailureView;

    open spec fn view(&self) -> FailureView {
        FailureView {
            catalog_id: opt_text(self.catalog_id),
            name: opt_text(self.name),
            operation: self.operation,
        }
    }
}

/// Whether no failure on record is a failure of the store. Failures known
/// of a card before anything is written (a colour field that does not
/// encode, a record without catalog id) do not stop a run.
pub open spec fn clean(failures: Seq<FailureView>) -> bool {
    forall|i: int| 0 <= i < failures.len() ==> !((#[trigger] failures[i]).operation is Store)
}

/// The view of each failure of a sequence.
pub open spec fn failure_views(failures: Seq<Failure>) -> Seq<FailureView> {
    failures.map_values(|failure: Failure| failure@)
}

/// The instructions that seed the table of formats.
pub open spec fn format_instrs() -> Seq<InstrView> {
    Format::spec_all().map_values(|f: Format| InstrView::SeedFormat(f))
}

/// The instructions that seed the table of image kinds.
pub open spec fn image_type_instrs() -> Seq<InstrView> {
    ImageKind::spec_all().map_values(|k: ImageKind| InstrView::SeedImageType(k))
}

/// The seeding of the reference tables, in a transaction of its own.
pub open spec fn seed_instrs() -> Seq<InstrView> {
    seq![InstrView::Begin] + format_instrs() + image_type_instrs() + seq![InstrView::Commit]
}

/// The instruction that writes the row of a card; none for a record
/// without catalog id.
pub open spec fn row_instrs(card: CardView, index: usize) -> Seq<InstrView> {
    match card.id {
        Some(id) => seq![InstrView::Card { card: index, catalog_id: id, row: card_row(card) }],
        None => seq![],
    }
}

/// The instructions that write the legalities of a card.
pub open spec fn legality_instrs(card: CardView, index: usize) -> Seq<InstrView> {
    match (card.id, card.legalities) {
        (Some(id), Some(pairs)) => Seq::new(
            pairs.len(),
            |i: int|
                InstrView::Legality {
                    card: index,
                    catalog_id: id,
                    format: pairs[i].0,
                    status: pairs[i].1,
                },
        ),
        _ => seq![],
    }
}

/// The instructions that write the keywords of a card.
pub open spec fn keyword_instrs(card: CardView, index: usize) -> Seq<InstrView> {
    match (card.id, card.keywords) {
        (Some(id), Some(names)) => Seq::new(
            names.len(),
            |i: int| InstrView::Keyword { card: index, catalog_id: id, name: names[i] },
        ),
        _ => seq![],
    }
}

/// The instructions that write the images of a card among the first `n`
/// image kinds: one for each kind the card offers an address for.
pub open spec fn image_instrs_upto(card: CardView, index: usize, n: nat) -> Seq<InstrView>
    decreases n,
{
    if n == 0 {
        seq![]
    } else {
        let rest = image_instrs_upto(card, index, (n - 1) as nat);
        let kind = ImageKind::spec_all()[n - 1];
        match (card.id, card.image_uris) {
            (Some(id), Some(uris)) => match uris.uri(kind) {
                Some(uri) => rest.push(
                    InstrView::Image { card: index, catalog_id: id, kind, uri },
                ),
                None => rest,
            },
            _ => rest,
        }
    }
}

/// The instructions that write the images of a card.
pub open spec fn image_instrs(card: CardView, index: usize) -> Seq<InstrView> {
    image_instrs_upto(card, index, ImageKind::spec_all().len())
}

/// The instructions that write the taxonomy of a card: its supertype, if it
/// has one, then its main types, then its subtypes.
pub open spec fn type_instrs(card: CardView, index: usize) -> Seq<InstrView> {
    match (card.id, card.type_line) {
        (Some(id), Some(line)) => {
            let taxonomy = parsed(line);
            let supertype = match taxonomy.supertype {
                Some(value) => seq![InstrView::Supertype { card: index, catalog_id: id, value }],
                None => seq![],
            };
            supertype + Seq::new(
                taxonomy.main_types.len(),
                |i: int|
                    InstrView::Type { card: index, catalog_id: id, value: taxonomy.main_types[i] },
            ) + Seq::new(
                taxonomy.subtypes.len(),
                |i: int|
                    InstrView::Subtype {
                        card: index,
                        catalog_id: id,
                        value: taxonomy.subtypes[i],
                    },
            )
        },
        _ => seq![],
    }
}

/// The instructions that write a card: its row, its legalities, its
/// keywords, its images and its types, in this order. A record without
/// catalog id is not written.
pub open spec fn card_instrs(card: CardView, index: usize) -> Seq<InstrView> {
    row_instrs(card, index) + legality_instrs(card, index) + keyword_instrs(card, index)
        + image_instrs(card, index) + type_instrs(card, index)
}

/// The failures known of a card before anything is written: that it has no
/// catalog id, or else the colour fields that fail to encode.
pub open spec fn card_failures(card: CardView) -> Seq<FailureView> {
    match card.id {
        Some(id) => encoding_failures(card).map_values(
            |e: EncodingFailure|
                FailureView {
                    catalog_id: card.id,
                    name: card.name,
                    operation: Operation::Encode(e),
                },
        ),
        None => seq![
            FailureView { catalog_id: None, name: card.name, operation: Operation::MissingId },
        ],
    }
}

fn push_instr(program: &mut Vec<Instr>, instr: Instr)
    ensures
        instr_views(final(program)@) == instr_views(old(program)@).push(instr@),
{
    program.push(instr);
    assert(instr_views(program@) =~= instr_views(old(program)@).push(instr@));
}

/// Appends the seeding of the table of formats.
pub fn add_formats(program: &mut Vec<Instr>)
    ensures
        instr_views(final(program)@) == instr_views(old(program)@) + format_instrs(),
{
    let formats = Format::all();
    let mut i: usize = 0;
    assert(format_instrs().take(0) =~= Seq::<InstrView>::empty());
    while i < formats.len()
        invariant
            i <= formats.len(),
            formats@ == Format::spec_all(),
            instr_views(program@) == instr_views(old(program)@) + format_instrs().take(i as int),
        decreases formats.len() - i,
    {
        push_instr(program, Instr::SeedFormat(formats[i]));
        assert(format_instrs().take(i + 1) =~= format_instrs().take(i as int).push(
            InstrView::SeedFormat(formats@[i as int]),
        ));
        i += 1;
    }
    assert(format_instrs().take(i as int) =~= format_instrs());
}

/// Appends the seeding of the table of image kinds.
pub fn add_image_types(program: &mut Vec<Instr>)
    ensures
        instr_views(final(program)@) == instr_views(old(program)@) + image_type_instrs(),
{
    let kinds = ImageKind::all();
    let mut i: usize = 0;
    assert(image_type_instrs().take(0) =~= Seq::<InstrView>::empty());
    while i < kinds.len()
        invariant
            i <= kinds.len(),
            kinds@ == ImageKind::spec_all(),
            instr_views(program@) == instr_views(old(program)@) + image_type_instrs().take(
                i as int,
            ),
        decreases kinds.len() - i,
    {
        push_instr(program, Instr::SeedImageType(kinds[i]));
        assert(image_type_instrs().take(i + 1) =~= image_type_instrs().take(i as int).push(
            InstrView::SeedImageType(kinds@[i as int]),
        ));
        i += 1;
    }
    assert(image_type_instrs().take(i as int) =~= image_type_instrs());
}

/// The seeding of the reference tables, in a transaction of its own.
pub fn seed_program() -> (program: Vec<Instr>)
    ensures
        instr_views(program@) == seed_instrs(),
{
    let mut program: Vec<Instr> = Vec::new();
    assert(instr_views(program@) =~= Seq::<InstrView>::empty());
    push_instr(&mut program, Instr::Begin);
    add_formats(&mut program);
    add_image_types(&mut program);
    push_instr(&mut program, Instr::Commit);
    assert(instr_views(program@) =~= seed_instrs());
    program
}

/// Appends the instruction that writes the row of a card, and gives the
/// colour fields that fail to encode. A record without catalog id adds
/// nothing.
pub fn add_card(card: &ScryfallCard, index: usize, program: &mut Vec<Instr>) -> (failed: Vec<
    EncodingFailure,
>)
    ensures
        instr_views(final(program)@) == instr_views(old(program)@) + row_instrs(card@, index),
        failed@ == if card@.id is Some {
            encoding_failures(card@)
        } else {
            seq![]
        },
{
    match &card.id {
        Some(id) => {
            let (row, failed) = Card::of(card);
            push_instr(program, Instr::Card { card: index, catalog_id: id.clone(), row });
            assert(instr_views(program@) =~= instr_views(old(program)@) + row_instrs(
                card@,
                index,
            ));
            failed
        },
        None => {
            assert(instr_views(program@) =~= instr_views(old(program)@) + row_instrs(
                card@,
                index,
            ));
            Vec::new()
        },
    }
}

/// Appends the instructions that write the legalities of a card.
pub fn add_legalities(card: &ScryfallCard, index: usize, program: &mut Vec<Instr>)
    ensures
        instr_views(final(program)@) == instr_views(old(program)@) + legality_instrs(
            card@,
            index,
        ),
{
    let ghost wanted = legality_instrs(card@, index);
    if let Some(id) = &card.id {
        if let Some(pairs) = &card.legalities {
            let mut i: usize = 0;
            assert(wanted.take(0) =~= Seq::<InstrView>::empty());
            while i < pairs.len()
                invariant
                    i <= pairs.len(),
                    card@.id == Some(id@),
                    card@.legalities == Some(pairs@),
                    wanted == legality_instrs(card@, index),
                    instr_views(program@) == instr_views(old(program)@) + wanted.take(i as int),
                decreases pairs.len() - i,
            {
                let (format, status) = pairs[i];
                let instr = Instr::Legality { card: index, catalog_id: id.clone(), format, status };
                assert(wanted.take(i + 1) =~= wanted.take(i as int).push(instr@));
                push_instr(program, instr);
                i += 1;
            }
            assert(wanted.take(i as int) =~= wanted);
            return ;
        }
    }
    assert(instr_views(program@) =~= instr_views(old(program)@) + wanted);
}

/// Appends the instructions that write the keywords of a card.
pub fn add_keywords(card: &ScryfallCard, index: usize, program: &mut Vec<Instr>)
    ensures
        instr_views(final(program)@) == instr_views(old(program)@) + keyword_instrs(
            card@,
            index,
        ),
{
    let ghost wanted = keyword_instrs(card@, index);
    if let Some(id) = &card.id {
        if let Some(names) = &card.keywords {
            let mut i: usize = 0;
            assert(wanted.take(0) =~= Seq::<InstrView>::empty());
            while i < names.len()
                invariant
                    i <= names.len(),
                    card@.id == Some(id@),
                    card@.keywords == Some(texts(names@)),
                    wanted == keyword_instrs(card@, index),
                    instr_views(program@) == instr_views(old(program)@) + wanted.take(i as int),
                decreases names.len() - i,
            {
                let instr = Instr::Keyword {
                    card: index,
                    catalog_id: id.clone(),
                    name: names[i].clone(),
                };
                assert(wanted.take(i + 1) =~= wanted.take(i as int).push(instr@));
                push_instr(program, instr);
                i += 1;
            }
            assert(wanted.take(i as int) =~= wanted);
            return ;
        }
    }
    assert(instr_views(program@) =~= instr_views(old(program)@) + wanted);
}

/// Appends the instructions that write the images of a card: one for each
/// image kind the card offers an address for, in the order of the kinds.
pub fn add_images(card: &ScryfallCard, index: usize, program: &mut Vec<Instr>)
    ensures
        instr_views(final(program)@) == instr_views(old(program)@) + image_instrs(card@, index),
{
    let kinds = ImageKind::all();
    let mut i: usize = 0;
    assert(instr_views(program@) =~= instr_views(old(program)@) + image_instrs_upto(
        card@,
        index,
        0,
    ));
    while i < kinds.len()
        invariant
            i <= kinds.len(),
            kinds@ == ImageKind::spec_all(),
            instr_views(program@) == instr_views(old(program)@) + image_instrs_upto(
                card@,
                index,
                i as nat,
            ),
        decreases kinds.len() - i,
    {
        let ghost before = image_instrs_upto(card@, index, i as nat);
        let kind = kinds[i];
        if let Some(id) = &card.id {
            if let Some(uris) = &card.image_uris {
                if let Some(uri) = uris.uri(kind) {
                    let instr = Instr::Image {
                        card: index,
                        catalog_id: id.clone(),
                        kind,
                        uri: uri.to_owned(),
                    };
                    push_instr(program, instr);
                    assert(instr_views(program@) =~= instr_views(old(program)@) + before.push(
                        instr@,
                    ));
                }
            }
        }
        i += 1;
    }
}

/// Appends the instructions that write the taxonomy of a card, as its type
/// line states it.
pub fn add_card_types(card: &ScryfallCard, index: usize, program: &mut Vec<Instr>)
    ensures
        instr_views(final(program)@) == instr_views(old(program)@) + type_instrs(card@, index),
{
    let ghost wanted = type_instrs(card@, index);
    let ghost before = instr_views(program@);
    let id = match &card.id {
        Some(id) => id,
        None => {
            assert(before =~= before + wanted);
            return ;
        },
    };
    if card.type_line.is_none() {
        assert(before =~= before + wanted);
        return ;
    }
    let ghost taxonomy = parsed(card@.type_line->0);
    let (supertype, main_types, subtypes) = card.extract_types();
    if let Some(value) = supertype {
        push_instr(
            program,
            Instr::Supertype { card: index, catalog_id: id.clone(), value: value.to_owned() },
        );
    }
    let ghost head = match taxonomy.supertype {
        Some(value) => seq![InstrView::Supertype { card: index, catalog_id: id@, value }],
        None => seq![],
    };
    assert(instr_views(program@) =~= before + head);
    let ghost mains = Seq::new(
        taxonomy.main_types.len(),
        |i: int| InstrView::Type { card: index, catalog_id: id@, value: taxonomy.main_types[i] },
    );
    if let Some(list) = main_types {
        let mut i: usize = 0;
        assert(mains.take(0) =~= Seq::<InstrView>::empty());
        while i < list.len()
            invariant
                i <= list.len(),
                slice_texts(list@) == taxonomy.main_types,
                mains == Seq::new(
                    taxonomy.main_types.len(),
                    |i: int|
                        InstrView::Type {
                            card: index,
                            catalog_id: id@,
                            value: taxonomy.main_types[i],
                        },
                ),
                instr_views(program@) == before + head + mains.take(i as int),
            decreases list.len() - i,
        {
            let instr = Instr::Type {
                card: index,
                catalog_id: id.clone(),
                value: list[i].to_owned(),
            };
            assert(slice_texts(list@)[i as int] == list@[i as int]@);
            assert(mains.take(i + 1) =~= mains.take(i as int).push(instr@));
            push_instr(program, instr);
            i += 1;
        }
        assert(mains.take(i as int) =~= mains);
    } else {
        assert(mains =~= Seq::<InstrView>::empty());
        assert(before + head + mains =~= before + head);
    }
    assert(instr_views(program@) == before + head + mains);
    let ghost subs = Seq::new(
        taxonomy.subtypes.len(),
        |i: int| InstrView::Subtype { card: index, catalog_id: id@, value: taxonomy.subtypes[i] },
    );
    if let Some(list) = subtypes {
        let mut i: usize = 0;
        assert(subs.take(0) =~= Seq::<InstrView>::empty());
        while i < list.len()
            invariant
                i <= list.len(),
                slice_texts(list@) == taxonomy.subtypes,
                subs == Seq::new(
                    taxonomy.subtypes.len(),
                    |i: int|
                        InstrView::Subtype {
                            card: index,
                            catalog_id: id@,
                            value: taxonomy.subtypes[i],
                        },
                ),
                instr_views(program@) == before + head + mains + subs.take(i as int),
            decreases list.len() - i,
        {
            let instr = Instr::Subtype {
                card: index,
                catalog_id: id.clone(),
                value: list[i].to_owned(),
            };
            assert(slice_texts(list@)[i as int] == list@[i as int]@);
            assert(subs.take(i + 1) =~= subs.take(i as int).push(instr@));
            push_instr(program, instr);
            i += 1;
        }
        assert(subs.take(i as int) =~= subs);
    } else {
        assert(subs =~= Seq::<InstrView>::empty());
        assert(before + head + mains + subs =~= before + head + mains);
    }
    assert(before + head + mains + subs =~= before + (head + mains + subs));
}

/// The instructions that write the cards `from..to` of a list, card after
/// card.
pub open spec fn cards_instrs(cards: Seq<CardView>, from: int, to: int) -> Seq<InstrView>
    decreases to - from,
{
    if to <= from {
        seq![]
    } else {
        cards_instrs(cards, from, to - 1) + card_instrs(cards[to - 1], (to - 1) as usize)
    }
}

/// The failures known of the cards `from..to` of a list before anything is
/// written, card after card.
pub open spec fn cards_failures(cards: Seq<CardView>, from: int, to: int) -> Seq<FailureView>
    decreases to - from,
{
    if to <= from {
        seq![]
    } else {
        cards_failures(cards, from, to - 1) + card_failures(cards[to - 1])
    }
}

/// How many of the cards `from..to` of a list have a catalog id, and so
/// are written.
pub open spec fn cards_with_id(cards: Seq<CardView>, from: int, to: int) -> nat
    decreases to - from,
{
    if to <= from {
        0
    } else {
        cards_with_id(cards, from, to - 1) + if cards[to - 1].id is Some {
            1nat
        } else {
            0nat
        }
    }
}

/// Counting the written cards of a range is counting those of its two
/// parts.
pub proof fn lemma_cards_with_id_splits(cards: Seq<CardView>, from: int, mid: int, to: int)
    requires
        from <= mid <= to,
    ensures
        cards_with_id(cards, from, to) == cards_with_id(cards, from, mid) + cards_with_id(
            cards,
            mid,
            to,
        ),
    decreases to - mid,
{
    if mid < to {
        lemma_cards_with_id_splits(cards, from, mid, to - 1);
    }
}

/// The failures known of the cards of a range are those of its two parts,
/// one after the other.
pub proof fn lemma_cards_failures_split(cards: Seq<CardView>, from: int, mid: int, to: int)
    requires
        from <= mid <= to,
    ensures
        cards_failures(cards, from, to) == cards_failures(cards, from, mid) + cards_failures(
            cards,
            mid,
            to,
        ),
    decreases to - mid,
{
    if mid < to {
        lemma_cards_failures_split(cards, from, mid, to - 1);
        assert(cards_failures(cards, from, mid) + (cards_failures(cards, mid, to - 1)
            + card_failures(cards[to - 1])) =~= (cards_failures(cards, from, mid) + cards_failures(
            cards,
            mid,
            to - 1,
        )) + card_failures(cards[to - 1]));
    } else {
        assert(cards_failures(cards, from, mid) + cards_failures(cards, mid, to)
            =~= cards_failures(cards, from, mid));
    }
}

/// The failures known of cards before anything is written are no failures
/// of the store.
pub proof fn lemma_cards_failures_clean(cards: Seq<CardView>, from: int, to: int)
    ensures
        clean(cards_failures(cards, from, to)),
    decreases to - from,
{
    if from < to {
        lemma_cards_failures_clean(cards, from, to - 1);
    }
}

/// No more cards are written than there are.
pub proof fn lemma_cards_with_id_bound(cards: Seq<CardView>, from: int, to: int)
    requires
        from <= to,
    ensures
        cards_with_id(cards, from, to) <= to - from,
    decreases to - from,
{
    if from < to {
        lemma_cards_with_id_bound(cards, from, to - 1);
    }
}

/// Whether an instruction is about a card: it names the place of the card
/// and its catalog id.
pub open spec fn is_about(instr: InstrView, card: CardView, index: usize) -> bool {
    instr.card() == Some(index) && card.id is Some && instr.catalog() == card.id
}

proof fn lemma_image_instrs_about(card: CardView, index: usize, n: nat, i: int)
    requires
        0 <= i < image_instrs_upto(card, index, n).len(),
    ensures
        is_about(image_instrs_upto(card, index, n)[i], card, index),
        image_instrs_upto(card, index, n)[i] is Image,
    decreases n,
{
    if n > 0 {
        let rest = image_instrs_upto(card, index, (n - 1) as nat);
        if i < rest.len() {
            lemma_image_instrs_about(card, index, (n - 1) as nat, i);
        }
    }
}

/// Every instruction that writes a card is about that card.
pub proof fn lemma_card_instrs_about(card: CardView, index: usize, i: int)
    requires
        0 <= i < card_instrs(card, index).len(),
    ensures
        is_about(card_instrs(card, index)[i], card, index),
{
    let a = row_instrs(card, index);
    let b = legality_instrs(card, index);
    let c = keyword_instrs(card, index);
    let d = image_instrs(card, index);
    let e = type_instrs(card, index);
    if i < a.len() {
    } else if i < (a + b).len() {
    } else if i < (a + b + c).len() {
    } else if i < (a + b + c + d).len() {
        lemma_image_instrs_about(card, index, ImageKind::spec_all().len(), i - (a + b + c).len());
    } else {
    }
}

/// Every instruction that writes the cards `from..to` of a list is about
/// one of these cards.
pub proof fn lemma_cards_instrs_about(cards: Seq<CardView>, from: int, to: int, i: int)
    requires
        0 <= from <= to <= cards.len(),
        to <= usize::MAX,
        0 <= i < cards_instrs(cards, from, to).len(),
    ensures
        exists|c: int|
            from <= c < to && #[trigger] is_about(
                cards_instrs(cards, from, to)[i],
                cards[c],
                c as usize,
            ),
    decreases to - from,
{
    if from < to {
        let rest = cards_instrs(cards, from, to - 1);
        if i < rest.len() {
            lemma_cards_instrs_about(cards, from, to - 1, i);
            let c = choose|c: int|
                from <= c < to - 1 && #[trigger] is_about(rest[i], cards[c], c as usize);
            assert(is_about(cards_instrs(cards, from, to)[i], cards[c], c as usize));
        } else {
            lemma_card_instrs_about(cards[to - 1], (to - 1) as usize, i - rest.len());
            assert(is_about(
                cards_instrs(cards, from, to)[i],
                cards[to - 1],
                (to - 1) as usize,
            ));
        }
    }
}

/// Every instruction of a batch that names a card names one of the list.
pub proof fn lemma_batch_cards_in_range(cards: Seq<CardView>, from: int, to: int)
    requires
        0 <= from <= to <= cards.len(),
        to <= usize::MAX,
    ensures
        forall|i: int|
            0 <= i < batch_instrs(cards, from, to).len() && (#[trigger] batch_instrs(
                cards,
                from,
                to,
            )[i]).card() is Some ==> batch_instrs(cards, from, to)[i].card()->0 < cards.len(),
{
    let batch = batch_instrs(cards, from, to);
    let middle = cards_instrs(cards, from, to);
    assert forall|i: int|
        0 <= i < batch.len() && (#[trigger] batch[i]).card() is Some implies batch[i].card()->0
            < cards.len() by {
        if 0 < i < batch.len() - 1 {
            assert(batch[i] == middle[i - 1]);
            lemma_cards_instrs_about(cards, from, to, i - 1);
        }
    }
}

/// Whether an instruction is the `j`-th of those that write the `c`-th card
/// of a list.
pub open spec fn is_instr_of(cards: Seq<CardView>, c: int, j: int, instr: InstrView) -> bool {
    &&& 0 <= c < cards.len()
    &&& 0 <= j < card_instrs(cards[c], c as usize).len()
    &&& card_instrs(cards[c], c as usize)[j] == instr
}

/// Every instruction that writes the cards `from..to` of a list is one of
/// those that write one of these cards.
pub proof fn lemma_cards_instrs_member(cards: Seq<CardView>, from: int, to: int, i: int)
    requires
        0 <= from <= to <= cards.len(),
        0 <= i < cards_instrs(cards, from, to).len(),
    ensures
        exists|c: int, j: int|
            from <= c < to && #[trigger] is_instr_of(cards, c, j, cards_instrs(cards, from, to)[i]),
    decreases to - from,
{
    if from < to {
        let rest = cards_instrs(cards, from, to - 1);
        let instr = cards_instrs(cards, from, to)[i];
        if i < rest.len() {
            lemma_cards_instrs_member(cards, from, to - 1, i);
            let (c, j) = choose|c: int, j: int|
                from <= c < to - 1 && #[trigger] is_instr_of(cards, c, j, rest[i]);
            assert(is_instr_of(cards, c, j, instr));
        } else {
            assert(is_instr_of(cards, to - 1, i - rest.len(), instr));
        }
    }
}

/// Every instruction that writes one of the cards `from..to` of a list is
/// among those that write these cards.
pub proof fn lemma_card_in_cards_instrs(cards: Seq<CardView>, from: int, to: int, c: int, j: int)
    requires
        0 <= from <= c < to <= cards.len(),
        0 <= j < card_instrs(cards[c], c as usize).len(),
    ensures
        exists|i: int|
            0 <= i < cards_instrs(cards, from, to).len() && #[trigger] cards_instrs(
                cards,
                from,
                to,
            )[i] == card_instrs(cards[c], c as usize)[j],
    decreases to - from,
{
    let rest = cards_instrs(cards, from, to - 1);
    let all = cards_instrs(cards, from, to);
    if c == to - 1 {
        assert(all[rest.len() + j] == card_instrs(cards[c], c as usize)[j]);
    } else {
        lemma_card_in_cards_instrs(cards, from, to - 1, c, j);
        let i = choose|i: int|
            0 <= i < rest.len() && #[trigger] rest[i] == card_instrs(cards[c], c as usize)[j];
        assert(all[i] == rest[i]);
    }
}

/// Whether an instruction hangs together: the row of a card carries the
/// catalog id that the instruction names.
pub open spec fn is_valid(instr: InstrView) -> bool {
    match instr {
        InstrView::Card { catalog_id, row, .. } => row.card_id == Some(catalog_id),
        _ => true,
    }
}

/// Every instruction that writes a card hangs together.
pub proof fn lemma_card_instrs_valid(card: CardView, index: usize, i: int)
    requires
        0 <= i < card_instrs(card, index).len(),
    ensures
        is_valid(card_instrs(card, index)[i]),
{
    let a = row_instrs(card, index);
    let b = legality_instrs(card, index);
    let c = keyword_instrs(card, index);
    let d = image_instrs(card, index);
    let e = type_instrs(card, index);
    if i < a.len() {
    } else if i < (a + b).len() {
    } else if i < (a + b + c).len() {
    } else if i < (a + b + c + d).len() {
        lemma_image_instrs_about(card, index, ImageKind::spec_all().len(), i - (a + b + c).len());
    } else {
    }
}

/// A batch: the cards `from..to` of a list, written in one transaction.
pub open spec fn batch_instrs(cards: Seq<CardView>, from: int, to: int) -> Seq<InstrView> {
    seq![InstrView::Begin] + cards_instrs(cards, from, to) + seq![InstrView::Commit]
}

fn push_failure(failures: &mut Vec<Failure>, failure: Failure)
    ensures
        failure_views(final(failures)@) == failure_views(old(failures)@).push(failure@),
{
    failures.push(failure);
    assert(failure_views(failures@) =~= failure_views(old(failures)@).push(failure@));
}

/// Appends the instructions that write a card, and the failures known of
/// it before anything is written. Tells whether the card is written: a
/// record without catalog id is not.
pub fn card_program(
    card: &ScryfallCard,
    index: usize,
    program: &mut Vec<Instr>,
    failures: &mut Vec<Failure>,
) -> (written: bool)
    ensures
        instr_views(final(program)@) == instr_views(old(program)@) + card_instrs(card@, index),
        failure_views(final(failures)@) == failure_views(old(failures)@) + card_failures(card@),
        written == card@.id is Some,
{
    let ghost before = instr_views(program@);
    let ghost failed_before = failure_views(failures@);
    if card.id.is_none() {
        push_failure(
            failures,
            Failure {
                catalog_id: None,
                name: copy_text(&card.name),
                operation: Operation::MissingId,
            },
        );
        proof {
            assert(card_instrs(card@, index) =~= Seq::<InstrView>::empty()) by {
                reveal_with_fuel(image_instrs_upto, 7);
            }
            assert(before =~= before + card_instrs(card@, index));
            assert(failure_views(failures@) =~= failed_before + card_failures(card@));
        }
        return false;
    }
    let failed = add_card(card, index, program);
    let ghost wanted = card_failures(card@);
    let mut i: usize = 0;
    assert(wanted.take(0) =~= Seq::<FailureView>::empty());
    while i < failed.len()
        invariant
            i <= failed.len(),
            card@.id is Some,
            failed@ == encoding_failures(card@),
            wanted == card_failures(card@),
            failure_views(failures@) == failed_before + wanted.take(i as int),
        decreases failed.len() - i,
    {
        let failure = Failure {
            catalog_id: copy_text(&card.id),
            name: copy_text(&card.name),
            operation: Operation::Encode(failed[i]),
        };
        assert(wanted.take(i + 1) =~= wanted.take(i as int).push(failure@));
        push_failure(failures, failure);
        i += 1;
    }
    assert(wanted.take(i as int) =~= wanted);
    add_legalities(card, index, program);
    add_keywords(card, index, program);
    add_images(card, index, program);
    add_card_types(card, index, program);
    assert(instr_views(program@) =~= before + card_instrs(card@, index));
    true
}

/// The instructions of a batch: the cards `from..to` of a list, written in
/// one transaction. Appends the failures known of these cards before
/// anything is written, and gives the number of cards that are written.
pub fn batch_program(
    cards: &Vec<ScryfallCard>,
    from: usize,
    to: usize,
    failures: &mut Vec<Failure>,
) -> (batch: (Vec<Instr>, usize))
    requires
        from <= to <= cards.len(),
    ensures
        instr_views(batch.0@) == batch_instrs(views(cards@), from as int, to as int),
        batch.1 == cards_with_id(views(cards@), from as int, to as int),
        failure_views(final(failures)@) == failure_views(old(failures)@) + cards_failures(
            views(cards@),
            from as int,
            to as int,
        ),
{
    let ghost all = views(cards@);
    let ghost failed_before = failure_views(failures@);
    let mut program: Vec<Instr> = Vec::new();
    assert(instr_views(program@) =~= Seq::<InstrView>::empty());
    push_instr(&mut program, Instr::Begin);
    let mut count: usize = 0;
    let mut i: usize = from;
    assert(instr_views(program@) =~= seq![InstrView::Begin] + cards_instrs(
        all,
        from as int,
        from as int,
    ));
    assert(failed_before =~= failed_before + cards_failures(all, from as int, from as int));
    while i < to
        invariant
            from <= i <= to <= cards.len(),
            all == views(cards@),
            instr_views(program@) == seq![InstrView::Begin] + cards_instrs(
                all,
                from as int,
                i as int,
            ),
            failure_views(failures@) == failed_before + cards_failures(all, from as int, i as int),
            count == cards_with_id(all, from as int, i as int),
            count <= i - from,
        decreases to - i,
    {
        let ghost done = instr_views(program@);
        let ghost failed = failure_views(failures@);
        assert(all[i as int] == cards@[i as int]@);
        let written = card_program(&cards[i], i, &mut program, failures);
        if written {
            count += 1;
        }
        proof {
            assert(instr_views(program@) =~= seq![InstrView::Begin] + cards_instrs(
                all,
                from as int,
                i + 1,
            ));
            assert(failure_views(failures@) =~= failed_before + cards_failures(
                all,
                from as int,
                i + 1,
            ));
        }
        i += 1;
    }
    push_instr(&mut program, Instr::Commit);
    (program, count)
}

} // verus!
