//! The ingestion engine: a state machine that writes cards to the store,
//! one statement at a time.
//!
//! The updater holds no connection. It names the next statement to run;
//! whoever holds the connection runs it and hands back what the store
//! answered, and the updater names the next one. The reference tables are
//! seeded first, in a transaction of their own. The cards follow in
//! batches, each batch in one transaction. The first statement that fails
//! ends the run: the open transaction is rolled back, so a batch is written
//! whole or not at all.

use crate::cache::{remembered, LookupCache};
use crate::card::{opt_text, views, CardView, ScryfallCard};
use crate::program::{
    batch_instrs, batch_program, cards_failures, cards_with_id, failure_views, instr_views,
    lemma_batch_cards_in_range, lemma_cards_with_id_bound, seed_instrs, seed_program, Failure,
    FailureView, Instr, InstrView, Operation,
};
use crate::statement::{Answer, Statement, StatementKind, StatementView};
use crate::text::copy_text;
use vstd::prelude::*;

verus! {

/// How many cards are written in one transaction.
pub const BATCH_SIZE: usize = 1000;

/// Where the updater stands.
#[derive(Debug, Copy, Clone, PartialEq, Eq, Structural)]
pub enum Stage {
    /// Nothing was asked of the store yet.
    Fresh,
    /// The store was asked for the id of the card of the instruction at
    /// hand.
    FindingCard,
    /// The store was asked for the id of the format, keyword or image kind
    /// of the instruction at hand.
    FindingRef,
    /// The store was asked to create the keyword of the instruction at
    /// hand.
    Creating,
    /// The store was asked to write the row of the instruction at hand.
    Writing,
    /// A statement failed and the store was asked to roll back.
    RollingBack,
    /// The run is over.
    Finished,
}

/// What the updater asks for next.
#[derive(Debug)]
pub enum Action {
    /// Run this statement and hand back the answer.
    Run(Statement),
    /// The run is over: there is nothing more to run.
    Finish,
}

/// What an action holds, as text and plain values.
pub enum ActionView {
    Run(StatementView),
    Finish,
}

impl View for Action {
    type V = ActionView;

    open spec fn view(&self) -> ActionView {
        match self {
            Action::Run(statement) => ActionView::Run(statement@),
            Action::Finish => ActionView::Finish,
        }
    }
}

/// The kind of the statement that the updater awaits an answer to.
pub open spec fn sent_kind(instr: InstrView, stage: Stage) -> StatementKind {
    match stage {
        Stage::FindingCard => StatementKind::SelectCardId,
        Stage::FindingRef => instr.find_kind(),
        Stage::Creating => StatementKind::InsertKeyword,
        _ => instr.write_kind(),
    }
}

/// Whether the id of the card with a catalog id is at hand.
pub open spec fn card_known(card_id: Option<(Seq<char>, i64)>, catalog_id: Seq<char>) -> bool {
    match card_id {
        Some((known, _)) => known == catalog_id,
        None => false,
    }
}

/// The id at hand for a card.
pub open spec fn id_at_hand(card_id: Option<(Seq<char>, i64)>) -> i64 {
    match card_id {
        Some((_, id)) => id,
        None => 0,
    }
}

/// The statement to run next for an instruction, and the stage it leads
/// to: the question for the id of the card unless that is at hand, else
/// the question for the id of the format, keyword or image kind unless
/// that is remembered, else the statement that writes the row.
pub open spec fn next_statement(
    instr: InstrView,
    card_id: Option<(Seq<char>, i64)>,
    formats: Map<Seq<char>, i64>,
    keywords: Map<Seq<char>, i64>,
    image_types: Map<Seq<char>, i64>,
) -> (StatementView, Stage) {
    match instr {
        InstrView::Begin => (StatementView::Begin, Stage::Writing),
        InstrView::Commit => (StatementView::Commit, Stage::Writing),
        InstrView::SeedFormat(f) => (StatementView::InsertFormat(f), Stage::Writing),
        InstrView::SeedImageType(k) => (StatementView::InsertImageType(k), Stage::Writing),
        InstrView::Card { row, .. } => (StatementView::InsertCard(row), Stage::Writing),
        InstrView::Legality { catalog_id, format, status, .. } => {
            if !card_known(card_id, catalog_id) {
                (StatementView::SelectCardId { catalog_id }, Stage::FindingCard)
            } else if !formats.contains_key(format.spec_name()) {
                (StatementView::SelectFormatId(format), Stage::FindingRef)
            } else {
                (
                    StatementView::InsertLegality {
                        card_id: id_at_hand(card_id),
                        format_id: formats[format.spec_name()],
                        status,
                    },
                    Stage::Writing,
                )
            }
        },
        InstrView::Keyword { catalog_id, name, .. } => {
            if !card_known(card_id, catalog_id) {
                (StatementView::SelectCardId { catalog_id }, Stage::FindingCard)
            } else if !keywords.contains_key(name) {
                (StatementView::InsertKeyword { name }, Stage::Creating)
            } else {
                (
                    StatementView::InsertCardKeyword {
                        card_id: id_at_hand(card_id),
                        keyword_id: keywords[name],
                    },
                    Stage::Writing,
                )
            }
        },
        InstrView::Image { catalog_id, kind, uri, .. } => {
            if !card_known(card_id, catalog_id) {
                (StatementView::SelectCardId { catalog_id }, Stage::FindingCard)
            } else if !image_types.contains_key(kind.spec_name()) {
                (StatementView::SelectImageTypeId(kind), Stage::FindingRef)
            } else {
                (
                    StatementView::InsertImage {
                        card_id: id_at_hand(card_id),
                        image_type_id: image_types[kind.spec_name()],
                        uri,
                    },
                    Stage::Writing,
                )
            }
        },
        InstrView::Supertype { catalog_id, value, .. } => {
            if !card_known(card_id, catalog_id) {
                (StatementView::SelectCardId { catalog_id }, Stage::FindingCard)
            } else {
                (
                    StatementView::InsertSupertype { card_id: id_at_hand(card_id), value },
                    Stage::Writing,
                )
            }
        },
        InstrView::Type { catalog_id, value, .. } => {
            if !card_known(card_id, catalog_id) {
                (StatementView::SelectCardId { catalog_id }, Stage::FindingCard)
            } else {
                (
                    StatementView::InsertCardType { card_id: id_at_hand(card_id), value },
                    Stage::Writing,
                )
            }
        },
        InstrView::Subtype { catalog_id, value, .. } => {
            if !card_known(card_id, catalog_id) {
                (StatementView::SelectCardId { catalog_id }, Stage::FindingCard)
            } else {
                (
                    StatementView::InsertSubtype { card_id: id_at_hand(card_id), value },
                    Stage::Writing,
                )
            }
        },
    }
}

/// The state of an updater, as text and plain values.
pub struct UpdaterView {
    /// The records to write, one per face.
    pub cards: Seq<CardView>,
    /// The first record that is in no batch yet.
    pub next_card: nat,
    /// The instructions of the transaction at hand.
    pub program: Seq<InstrView>,
    /// The instruction at hand.
    pub pc: nat,
    pub stage: Stage,
    /// The card whose id the store gave last, with that id.
    pub card_id: Option<(Seq<char>, i64)>,
    /// The ids that the store gave for formats, by name.
    pub formats: Map<Seq<char>, i64>,
    /// The ids that the store gave for keywords, by name.
    pub keywords: Map<Seq<char>, i64>,
    /// The ids that the store gave for image kinds, by name.
    pub image_types: Map<Seq<char>, i64>,
    /// How many cards the transaction at hand writes.
    pub pending: nat,
    /// How many cards were written in transactions that are committed.
    pub written: nat,
    /// What went wrong so far.
    pub failures: Seq<FailureView>,
}

impl UpdaterView {
    /// The state of an updater that has asked nothing of the store yet.
    pub open spec fn fresh(cards: Seq<CardView>) -> UpdaterView {
        UpdaterView {
            cards,
            next_card: 0,
            program: seq![],
            pc: 0,
            stage: Stage::Fresh,
            card_id: None,
            formats: Map::empty(),
            keywords: Map::empty(),
            image_types: Map::empty(),
            pending: 0,
            written: 0,
            failures: seq![],
        }
    }

    /// Whether the updater awaits the answer to a statement of the
    /// instruction at hand.
    pub open spec fn is_working(self) -> bool {
        self.stage == Stage::FindingCard || self.stage == Stage::FindingRef || self.stage
            == Stage::Creating || self.stage == Stage::Writing
    }

    /// Whether every instruction at hand that names a card names one of
    /// the list.
    pub open spec fn names_cards_of_the_list(self) -> bool {
        forall|i: int|
            0 <= i < self.program.len() && (#[trigger] self.program[i]).card() is Some
                ==> self.program[i].card()->0 < self.cards.len()
    }

    /// What holds of every state that an updater reaches.
    pub open spec fn wf(self) -> bool {
        &&& self.is_working() ==> {
            &&& self.pc < self.program.len()
            &&& self.program[0] is Begin
            &&& self.program.last() is Commit
        }
        &&& self.names_cards_of_the_list()
        &&& self.next_card <= self.cards.len()
        &&& self.cards.len() <= usize::MAX
        &&& self.written + self.pending <= self.next_card
    }

    /// The instruction at hand.
    pub open spec fn instr(self) -> InstrView {
        self.program[self.pc as int]
    }

    /// The state after the seeding of the reference tables is taken up.
    pub open spec fn load_seed(self) -> UpdaterView {
        UpdaterView { program: seed_instrs(), pc: 0, ..self }
    }

    /// Where the next batch ends.
    pub open spec fn batch_end(self) -> nat {
        if self.next_card + BATCH_SIZE <= self.cards.len() {
            self.next_card + BATCH_SIZE as nat
        } else {
            self.cards.len()
        }
    }

    /// The state after the next batch is taken up: its instructions are at
    /// hand, and the failures known of its cards before anything is written
    /// are on record.
    pub open spec fn load_batch(self) -> UpdaterView {
        let from = self.next_card as int;
        let to = self.batch_end() as int;
        UpdaterView {
            program: batch_instrs(self.cards, from, to),
            pc: 0,
            pending: cards_with_id(self.cards, from, to),
            failures: self.failures + cards_failures(self.cards, from, to),
            next_card: to as nat,
            ..self
        }
    }

    /// The state after the updater is told an id for what the instruction
    /// at hand refers to besides its card.
    pub open spec fn remember(self, id: i64) -> UpdaterView {
        match self.instr() {
            InstrView::Legality { format, .. } => UpdaterView {
                formats: remembered(self.formats, format.spec_name(), id),
                ..self
            },
            InstrView::Keyword { name, .. } => UpdaterView {
                keywords: remembered(self.keywords, name, id),
                ..self
            },
            InstrView::Image { kind, .. } => UpdaterView {
                image_types: remembered(self.image_types, kind.spec_name(), id),
                ..self
            },
            _ => self,
        }
    }

    /// Asks the store for what the instruction at hand needs next.
    pub open spec fn issue(self) -> (UpdaterView, ActionView) {
        let (statement, stage) = next_statement(
            self.instr(),
            self.card_id,
            self.formats,
            self.keywords,
            self.image_types,
        );
        (UpdaterView { stage, ..self }, ActionView::Run(statement))
    }

    /// Goes on after the row of the instruction at hand is written: to the
    /// next instruction, or to the next batch, or to the end of the run. A
    /// commit counts the cards of its transaction as written.
    pub open spec fn advance(self) -> (UpdaterView, ActionView) {
        let counted = if self.instr() is Commit {
            UpdaterView { written: self.written + self.pending, pending: 0, ..self }
        } else {
            self
        };
        if self.pc + 1 < self.program.len() {
            (UpdaterView { pc: self.pc + 1, ..counted }).issue()
        } else if self.next_card < self.cards.len() {
            counted.load_batch().issue()
        } else {
            (UpdaterView { stage: Stage::Finished, ..counted }, ActionView::Finish)
        }
    }

    /// The failure of a statement of the instruction at hand.
    pub open spec fn failure(self, kind: StatementKind) -> FailureView {
        FailureView {
            catalog_id: self.instr().catalog(),
            name: match self.instr().card() {
                Some(i) => self.cards[i as int].name,
                None => None,
            },
            operation: Operation::Store(kind),
        }
    }

    /// Ends the run after a statement failed: the failure goes on record,
    /// and the open transaction, if there is one, is rolled back.
    pub open spec fn fail(self, kind: StatementKind) -> (UpdaterView, ActionView) {
        let failures = self.failures.push(self.failure(kind));
        if self.instr() is Begin || self.instr() is Commit {
            (UpdaterView { stage: Stage::Finished, failures, ..self }, ActionView::Finish)
        } else {
            (
                UpdaterView { stage: Stage::RollingBack, failures, ..self },
                ActionView::Run(StatementView::Rollback),
            )
        }
    }

    /// One step of the run: what the updater makes of the answer to the
    /// statement it asked for last, and what it asks for next. The answer
    /// handed to a fresh updater is not looked at.
    pub open spec fn step(self, answer: Answer) -> (UpdaterView, ActionView) {
        match self.stage {
            Stage::Fresh => self.load_seed().issue(),
            Stage::Finished => (self, ActionView::Finish),
            Stage::RollingBack => (
                UpdaterView { stage: Stage::Finished, ..self },
                ActionView::Finish,
            ),
            _ => {
                let kind = sent_kind(self.instr(), self.stage);
                if !kind.spec_accepts(answer) {
                    self.fail(kind)
                } else {
                    match (self.stage, answer) {
                        (Stage::FindingCard, Answer::Id(id)) => match self.instr().catalog() {
                            Some(catalog_id) => (UpdaterView {
                                card_id: Some((catalog_id, id)),
                                ..self
                            }).issue(),
                            None => self.issue(),
                        },
                        (Stage::FindingRef, Answer::Id(id)) => self.remember(id).issue(),
                        (Stage::Creating, Answer::Id(id)) => self.remember(id).issue(),
                        (Stage::Creating, _) => match self.instr() {
                            InstrView::Keyword { name, .. } => (
                                UpdaterView { stage: Stage::FindingRef, ..self },
                                ActionView::Run(StatementView::SelectKeywordId { name }),
                            ),
                            _ => self.issue(),
                        },
                        _ => self.advance(),
                    }
                }
            },
        }
    }
}

/// The card whose id is at hand, as text and plain value.
pub open spec fn card_id_view(card_id: Option<(String, i64)>) -> Option<(Seq<char>, i64)> {
    match card_id {
        Some((catalog_id, id)) => Some((catalog_id@, id)),
        None => None,
    }
}

fn catalog_of(instr: &Instr) -> (catalog_id: Option<String>)
    ensures
        opt_text(catalog_id) == instr@.catalog(),
{
    match instr {
        Instr::Card { catalog_id, .. } => Some(catalog_id.clone()),
        Instr::Legality { catalog_id, .. } => Some(catalog_id.clone()),
        Instr::Keyword { catalog_id, .. } => Some(catalog_id.clone()),
        Instr::Image { catalog_id, .. } => Some(catalog_id.clone()),
        Instr::Supertype { catalog_id, .. } => Some(catalog_id.clone()),
        Instr::Type { catalog_id, .. } => Some(catalog_id.clone()),
        Instr::Subtype { catalog_id, .. } => Some(catalog_id.clone()),
        _ => None,
    }
}

fn card_of(instr: &Instr) -> (card: Option<usize>)
    ensures
        card == instr@.card(),
{
    match instr {
        Instr::Card { card, .. } => Some(*card),
        Instr::Legality { card, .. } => Some(*card),
        Instr::Keyword { card, .. } => Some(*card),
        Instr::Image { card, .. } => Some(*card),
        Instr::Supertype { card, .. } => Some(*card),
        Instr::Type { card, .. } => Some(*card),
        Instr::Subtype { card, .. } => Some(*card),
        _ => None,
    }
}

fn write_kind_of(instr: &Instr) -> (kind: StatementKind)
    ensures
        kind == instr@.write_kind(),
{
    match instr {
        Instr::Begin => StatementKind::Begin,
        Instr::Commit => StatementKind::Commit,
        Instr::SeedFormat(_) => StatementKind::InsertFormat,
        Instr::SeedImageType(_) => StatementKind::InsertImageType,
        Instr::Card { .. } => StatementKind::InsertCard,
        Instr::Legality { .. } => StatementKind::InsertLegality,
        Instr::Keyword { .. } => StatementKind::InsertCardKeyword,
        Instr::Image { .. } => StatementKind::InsertImage,
        Instr::Supertype { .. } => StatementKind::InsertSupertype,
        Instr::Type { .. } => StatementKind::InsertCardType,
        Instr::Subtype { .. } => StatementKind::InsertSubtype,
    }
}

fn sent_kind_of(instr: &Instr, stage: Stage) -> (kind: StatementKind)
    ensures
        kind == sent_kind(instr@, stage),
{
    match stage {
        Stage::FindingCard => StatementKind::SelectCardId,
        Stage::FindingRef => match instr {
            Instr::Legality { .. } => StatementKind::SelectFormatId,
            Instr::Image { .. } => StatementKind::SelectImageTypeId,
            _ => StatementKind::SelectKeywordId,
        },
        Stage::Creating => StatementKind::InsertKeyword,
        _ => write_kind_of(instr),
    }
}

/// The id at hand for the card with a catalog id, if it is at hand.
fn id_of_card(card_id: &Option<(String, i64)>, catalog_id: &String) -> (id: Option<i64>)
    ensures
        id is Some <==> card_known(card_id_view(*card_id), catalog_id@),
        id is Some ==> id->0 == id_at_hand(card_id_view(*card_id)),
{
    match card_id {
        Some((known, id)) => if *known == *catalog_id {
            Some(*id)
        } else {
            None
        },
        None => None,
    }
}

fn next_statement_of(
    instr: &Instr,
    card_id: &Option<(String, i64)>,
    formats: &LookupCache,
    keywords: &LookupCache,
    image_types: &LookupCache,
) -> (next: (Statement, Stage))
    ensures
        (next.0@, next.1) == next_statement(
            instr@,
            card_id_view(*card_id),
            formats@,
            keywords@,
            image_types@,
        ),
{
    match instr {
        Instr::Begin => (Statement::Begin, Stage::Writing),
        Instr::Commit => (Statement::Commit, Stage::Writing),
        Instr::SeedFormat(f) => (Statement::InsertFormat(*f), Stage::Writing),
        Instr::SeedImageType(k) => (Statement::InsertImageType(*k), Stage::Writing),
        Instr::Card { row, .. } => (Statement::InsertCard(row.duplicate()), Stage::Writing),
        Instr::Legality { catalog_id, format, status, .. } => match id_of_card(
            card_id,
            catalog_id,
        ) {
            None => (
                Statement::SelectCardId { catalog_id: catalog_id.clone() },
                Stage::FindingCard,
            ),
            Some(card_id) => match formats.get(format.name()) {
                None => (Statement::SelectFormatId(*format), Stage::FindingRef),
                Some(format_id) => (
                    Statement::InsertLegality { card_id, format_id, status: *status },
                    Stage::Writing,
                ),
            },
        },
        Instr::Keyword { catalog_id, name, .. } => match id_of_card(card_id, catalog_id) {
            None => (
                Statement::SelectCardId { catalog_id: catalog_id.clone() },
                Stage::FindingCard,
            ),
            Some(card_id) => match keywords.get(name.as_str()) {
                None => (Statement::InsertKeyword { name: name.clone() }, Stage::Creating),
                Some(keyword_id) => (
                    Statement::InsertCardKeyword { card_id, keyword_id },
                    Stage::Writing,
                ),
            },
        },
        Instr::Image { catalog_id, kind, uri, .. } => match id_of_card(card_id, catalog_id) {
            None => (
                Statement::SelectCardId { catalog_id: catalog_id.clone() },
                Stage::FindingCard,
            ),
            Some(card_id) => match image_types.get(kind.name()) {
                None => (Statement::SelectImageTypeId(*kind), Stage::FindingRef),
                Some(image_type_id) => (
                    Statement::InsertImage { card_id, image_type_id, uri: uri.clone() },
                    Stage::Writing,
                ),
            },
        },
        Instr::Supertype { catalog_id, value, .. } => match id_of_card(card_id, catalog_id) {
            None => (
                Statement::SelectCardId { catalog_id: catalog_id.clone() },
                Stage::FindingCard,
            ),
            Some(card_id) => (
                Statement::InsertSupertype { card_id, value: value.clone() },
                Stage::Writing,
            ),
        },
        Instr::Type { catalog_id, value, .. } => match id_of_card(card_id, catalog_id) {
            None => (
                Statement::SelectCardId { catalog_id: catalog_id.clone() },
                Stage::FindingCard,
            ),
            Some(card_id) => (
                Statement::InsertCardType { card_id, value: value.clone() },
                Stage::Writing,
            ),
        },
        Instr::Subtype { catalog_id, value, .. } => match id_of_card(card_id, catalog_id) {
            None => (
                Statement::SelectCardId { catalog_id: catalog_id.clone() },
                Stage::FindingCard,
            ),
            Some(card_id) => (
                Statement::InsertSubtype { card_id, value: value.clone() },
                Stage::Writing,
            ),
        },
    }
}

/// An ingestion run over a list of card records.
#[derive(Debug)]
pub struct DatabaseUpdater {
    cards: Vec<ScryfallCard>,
    next_card: usize,
    program: Vec<Instr>,
    pc: usize,
    stage: Stage,
    card_id: Option<(String, i64)>,
    formats: LookupCache,
    keywords: LookupCache,
    image_types: LookupCache,
    pending: usize,
    written: usize,
    failures: Vec<Failure>,
}

impl View for DatabaseUpdater {
    type V = UpdaterView;

    closed spec fn view(&self) -> UpdaterView {
        UpdaterView {
            cards: views(self.cards@),
            next_card: self.next_card as nat,
            program: instr_views(self.program@),
            pc: self.pc as nat,
            stage: self.stage,
            card_id: card_id_view(self.card_id),
            formats: self.formats@,
            keywords: self.keywords@,
            image_types: self.image_types@,
            pending: self.pending as nat,
            written: self.written as nat,
            failures: failure_views(self.failures@),
        }
    }
}

impl DatabaseUpdater {
    /// An updater that is to write the given records, one per face, in
    /// their order.
    pub fn new(cards: Vec<ScryfallCard>) -> (updater: DatabaseUpdater)
        ensures
            updater@ == UpdaterView::fresh(views(cards@)),
            updater@.wf(),
    {
        let count = cards.len();
        assert(views(cards@).len() == count);
        let updater = DatabaseUpdater {
            cards,
            next_card: 0,
            program: Vec::new(),
            pc: 0,
            stage: Stage::Fresh,
            card_id: None,
            formats: LookupCache::new(),
            keywords: LookupCache::new(),
            image_types: LookupCache::new(),
            pending: 0,
            written: 0,
            failures: Vec::new(),
        };
        assert(instr_views(updater.program@) =~= Seq::<InstrView>::empty());
        assert(failure_views(updater.failures@) =~= Seq::<FailureView>::empty());
        updater
    }

    /// Whether the run is over.
    pub fn is_finished(&self) -> (b: bool)
        ensures
            b == (self@.stage == Stage::Finished),
    {
        match self.stage {
            Stage::Finished => true,
            _ => false,
        }
    }

    /// How many cards were written in transactions that are committed.
    pub fn cards_written(&self) -> (n: usize)
        ensures
            n == self@.written,
    {
        self.written
    }

    /// What went wrong so far, in the order in which it came up.
    pub fn failures(&self) -> (failures: &Vec<Failure>)
        ensures
            failure_views(failures@) == self@.failures,
    {
        &self.failures
    }

    fn issue(&mut self) -> (action: Action)
        requires
            old(self)@.pc < old(self)@.program.len(),
        ensures
            (final(self)@, action@) == old(self)@.issue(),
    {
        assert(self@.instr() == self.program@[self.pc as int]@);
        let (statement, stage) = next_statement_of(
            &self.program[self.pc],
            &self.card_id,
            &self.formats,
            &self.keywords,
            &self.image_types,
        );
        self.stage = stage;
        Action::Run(statement)
    }

    fn remember(&mut self, id: i64)
        requires
            old(self)@.pc < old(self)@.program.len(),
        ensures
            final(self)@ == old(self)@.remember(id),
    {
        assert(self@.instr() == self.program@[self.pc as int]@);
        match &self.program[self.pc] {
            Instr::Legality { format, .. } => {
                let key = format.name().to_owned();
                self.formats.insert(key, id);
            },
            Instr::Keyword { name, .. } => {
                let key = name.clone();
                self.keywords.insert(key, id);
            },
            Instr::Image { kind, .. } => {
                let key = kind.name().to_owned();
                self.image_types.insert(key, id);
            },
            _ => {},
        }
    }

    fn load_batch(&mut self)
        requires
            old(self)@.next_card < old(self)@.cards.len(),
            old(self)@.written <= old(self)@.next_card,
        ensures
            final(self)@ == old(self)@.load_batch(),
            final(self)@.program.len() >= 2,
            final(self)@.program[0] is Begin,
            final(self)@.program.last() is Commit,
            final(self)@.written + final(self)@.pending <= final(self)@.next_card,
            final(self)@.next_card <= final(self)@.cards.len(),
            final(self)@.names_cards_of_the_list(),
    {
        let from = self.next_card;
        let to = if self.cards.len() - from >= BATCH_SIZE {
            from + BATCH_SIZE
        } else {
            self.cards.len()
        };
        proof {
            lemma_cards_with_id_bound(views(self.cards@), from as int, to as int);
            lemma_batch_cards_in_range(views(self.cards@), from as int, to as int);
        }
        let (program, count) = batch_program(&self.cards, from, to, &mut self.failures);
        self.program = program;
        self.pc = 0;
        self.pending = count;
        self.next_card = to;
    }

    fn advance(&mut self) -> (action: Action)
        requires
            old(self)@.wf(),
            old(self)@.is_working(),
        ensures
            (final(self)@, action@) == old(self)@.advance(),
            final(self)@.wf(),
    {
        assert(self@.instr() == self.program@[self.pc as int]@);
        assert(self@.program.len() == self.program@.len());
        let commits = match &self.program[self.pc] {
            Instr::Commit => true,
            _ => false,
        };
        if commits {
            self.written = self.written + self.pending;
            self.pending = 0;
        }
        assert(self.pc < self.program.len());
        if self.pc + 1 < self.program.len() {
            self.pc = self.pc + 1;
            self.issue()
        } else if self.next_card < self.cards.len() {
            self.load_batch();
            self.issue()
        } else {
            self.stage = Stage::Finished;
            Action::Finish
        }
    }

    fn fail(&mut self, kind: StatementKind) -> (action: Action)
        requires
            old(self)@.wf(),
            old(self)@.pc < old(self)@.program.len(),
        ensures
            (final(self)@, action@) == old(self)@.fail(kind),
            final(self)@.wf(),
    {
        assert(self@.instr() == self.program@[self.pc as int]@);
        let catalog_id = catalog_of(&self.program[self.pc]);
        let name = match card_of(&self.program[self.pc]) {
            Some(i) => {
                assert(views(self.cards@)[i as int] == self.cards@[i as int]@);
                copy_text(&self.cards[i].name)
            },
            None => None,
        };
        let failure = Failure { catalog_id, name, operation: Operation::Store(kind) };
        assert(failure@ == self@.failure(kind));
        let ghost before = failure_views(self.failures@);
        self.failures.push(failure);
        assert(failure_views(self.failures@) =~= before.push(failure@));
        let closes = match &self.program[self.pc] {
            Instr::Begin => true,
            Instr::Commit => true,
            _ => false,
        };
        if closes {
            self.stage = Stage::Finished;
            Action::Finish
        } else {
            self.stage = Stage::RollingBack;
            Action::Run(Statement::Rollback)
        }
    }

    /// Takes the answer to the statement asked for last, and asks for the
    /// next. A fresh updater is handed any answer; it is not looked at.
    pub fn update(&mut self, answer: Answer) -> (action: Action)
        requires
            old(self)@.wf(),
        ensures
            (final(self)@, action@) == old(self)@.step(answer),
            final(self)@.wf(),
    {
        match self.stage {
            Stage::Fresh => {
                self.program = seed_program();
                self.pc = 0;
                proof {
                    lemma_seed_names_no_card();
                }
                self.issue()
            },
            Stage::Finished => Action::Finish,
            Stage::RollingBack => {
                self.stage = Stage::Finished;
                Action::Finish
            },
            _ => {
                assert(self@.instr() == self.program@[self.pc as int]@);
                let kind = sent_kind_of(&self.program[self.pc], self.stage);
                if !kind.accepts(answer) {
                    return self.fail(kind);
                }
                match (self.stage, answer) {
                    (Stage::FindingCard, Answer::Id(id)) => {
                        match catalog_of(&self.program[self.pc]) {
                            Some(catalog_id) => {
                                self.card_id = Some((catalog_id, id));
                            },
                            None => {},
                        }
                        self.issue()
                    },
                    (Stage::FindingRef, Answer::Id(id)) => {
                        self.remember(id);
                        self.issue()
                    },
                    (Stage::Creating, Answer::Id(id)) => {
                        self.remember(id);
                        self.issue()
                    },
                    (Stage::Creating, _) => {
                        let again = match &self.program[self.pc] {
                            Instr::Keyword { name, .. } => Some(name.clone()),
                            _ => None,
                        };
                        match again {
                            Some(name) => {
                                self.stage = Stage::FindingRef;
                                Action::Run(Statement::SelectKeywordId { name })
                            },
                            None => self.issue(),
                        }
                    },
                    _ => self.advance(),
                }
            },
        }
    }
}

/// No instruction of the seeding names a card.
pub proof fn lemma_seed_names_no_card()
    ensures
        seed_instrs().len() == 30,
        seed_instrs()[0] is Begin,
        seed_instrs().last() is Commit,
        forall|i: int|
            0 <= i < seed_instrs().len() ==> (#[trigger] seed_instrs()[i]).card() is None,
{
}

} // verus!
