//! What holds of every ingestion run, proved over the model of the store.
//!
//! A run is the updater and the store taking turns: the updater asks for a
//! statement, the store runs it and answers. The store's choices (which id
//! a new row gets, whether a statement fails) are given from outside, one
//! per turn, and everything here holds for every sequence of choices.

use crate::card::CardView;
use crate::program::{
    cards_failures, cards_instrs, cards_with_id, clean, lemma_batch_cards_in_range,
    lemma_cards_failures_clean, lemma_cards_failures_split, lemma_cards_with_id_bound,
    lemma_cards_with_id_splits, seed_instrs, InstrView,
};
use crate::statement::{Answer, StatementView};
use crate::store::{
    answered, extends, grown_from, has_card, has_id, intact, lemma_grown_keeps_ids,
    lemma_written_grows, respond, written, Choice, Store, Tables,
};
use crate::updater::{
    card_known, lemma_seed_names_no_card, sent_kind, ActionView, Stage, UpdaterView,
};
use vstd::prelude::*;

verus! {

/// A run at some moment: the updater, the store, and the answer that the
/// store gave last and the updater has not seen yet.
pub struct Run {
    pub updater: UpdaterView,
    pub store: Store,
    pub answer: Answer,
}

/// A run before its first turn.
pub open spec fn begun(cards: Seq<CardView>, store: Store) -> Run {
    Run { updater: UpdaterView::fresh(cards), store, answer: Answer::Done }
}

/// One turn: the updater takes the last answer and asks for a statement,
/// and the store runs it as it chooses to.
#[verifier::opaque]
pub open spec fn turn(run: Run, choice: Choice) -> Run {
    let (updater, action) = run.updater.step(run.answer);
    match action {
        ActionView::Run(statement) => {
            let (store, answer) = respond(run.store, statement, choice);
            Run { updater, store, answer }
        },
        ActionView::Finish => Run { updater, ..run },
    }
}

/// In a turn the updater takes one step.
pub proof fn lemma_turn_steps(run: Run, choice: Choice)
    ensures
        turn(run, choice).updater == run.updater.step(run.answer).0,
{
    reveal(turn);
}

/// A run after as many turns as there are choices.
pub open spec fn after(run: Run, choices: Seq<Choice>) -> Run
    decreases choices.len(),
{
    if choices.len() == 0 {
        run
    } else {
        turn(after(run, choices.drop_last()), choices.last())
    }
}

/// Whether the updater still works on the store: the run is neither over
/// nor being rolled back.
pub open spec fn live(updater: UpdaterView) -> bool {
    updater.stage != Stage::RollingBack && updater.stage != Stage::Finished
}

/// Whether the id of the card of the instruction at hand is at hand.
pub open spec fn card_at_hand(updater: UpdaterView) -> bool {
    match updater.instr().catalog() {
        Some(catalog_id) => card_known(updater.card_id, catalog_id),
        None => false,
    }
}

/// Whether the stage of the updater fits the instruction at hand: the
/// updater asks for a card only for an instruction that names one, and for
/// a format, keyword or image kind only for an instruction that refers to
/// one and once the card is at hand.
pub open spec fn stage_fits(updater: UpdaterView) -> bool {
    match updater.stage {
        Stage::FindingCard => updater.instr().catalog() is Some,
        Stage::FindingRef => (updater.instr() is Legality || updater.instr() is Keyword
            || updater.instr() is Image) && card_at_hand(updater),
        Stage::Creating => updater.instr() is Keyword && card_at_hand(updater),
        _ => true,
    }
}

/// Whether the ids that the updater remembers are those that the store
/// holds.
pub open spec fn caches_agree(updater: UpdaterView, tables: Tables) -> bool {
    &&& extends(tables.formats, updater.formats)
    &&& extends(tables.keywords, updater.keywords)
    &&& extends(tables.image_types, updater.image_types)
    &&& match updater.card_id {
        Some((catalog_id, id)) => tables.cards.contains_key(catalog_id)
            && tables.cards[catalog_id].id == id,
        None => true,
    }
}

/// Whether an id in the answer at hand is the id that the store holds for
/// what the updater asked about.
pub open spec fn answer_agrees(updater: UpdaterView, answer: Answer, tables: Tables) -> bool {
    match (updater.stage, answer) {
        (Stage::FindingCard, Answer::Id(id)) => match updater.instr().catalog() {
            Some(catalog_id) => tables.cards.contains_key(catalog_id)
                && tables.cards[catalog_id].id == id,
            None => true,
        },
        (Stage::FindingRef, Answer::Id(id)) | (Stage::Creating, Answer::Id(id)) => {
            match updater.instr() {
                InstrView::Legality { format, .. } => tables.formats.contains_key(
                    format.spec_name(),
                ) && tables.formats[format.spec_name()] == id,
                InstrView::Keyword { name, .. } => tables.keywords.contains_key(name)
                    && tables.keywords[name] == id,
                InstrView::Image { kind, .. } => tables.image_types.contains_key(kind.spec_name())
                    && tables.image_types[kind.spec_name()] == id,
                _ => true,
            }
        },
        _ => true,
    }
}

/// Updater and store are in step: as long as the updater works on the
/// store, every id it holds or is handed is the id that the store holds
/// under the same key.
pub open spec fn in_step(run: Run) -> bool {
    &&& run.updater.wf()
    &&& live(run.updater) ==> {
        &&& stage_fits(run.updater)
        &&& caches_agree(run.updater, run.store.tables)
        &&& answer_agrees(run.updater, run.answer, run.store.tables)
    }
}

/// A step of the updater keeps its state well-formed.
pub proof fn lemma_step_wf(updater: UpdaterView, answer: Answer)
    requires
        updater.wf(),
    ensures
        updater.step(answer).0.wf(),
{
    lemma_seed_names_no_card();
    if updater.is_working() {
        let to = updater.batch_end() as int;
        if updater.next_card < updater.cards.len() {
            lemma_cards_with_id_bound(updater.cards, updater.next_card as int, to);
            lemma_batch_cards_in_range(updater.cards, updater.next_card as int, to);
        }
    }
}

/// The updater after it took the answer at hand, where it goes on to ask
/// for what its instruction at hand needs next; none where the step ends
/// the run, rolls back, or asks again for a keyword that was there already.
pub open spec fn readied(updater: UpdaterView, answer: Answer) -> Option<UpdaterView> {
    match updater.stage {
        Stage::Fresh => Some(updater.load_seed()),
        Stage::Finished => None,
        Stage::RollingBack => None,
        _ => {
            if !sent_kind(updater.instr(), updater.stage).spec_accepts(answer) {
                None
            } else {
                match (updater.stage, answer) {
                    (Stage::FindingCard, Answer::Id(id)) => match updater.instr().catalog() {
                        Some(catalog_id) => Some(
                            UpdaterView { card_id: Some((catalog_id, id)), ..updater },
                        ),
                        None => Some(updater),
                    },
                    (Stage::FindingRef, Answer::Id(id)) => Some(updater.remember(id)),
                    (Stage::Creating, Answer::Id(id)) => Some(updater.remember(id)),
                    (Stage::Creating, _) => if updater.instr() is Keyword {
                        None
                    } else {
                        Some(updater)
                    },
                    _ => {
                        let counted = if updater.instr() is Commit {
                            UpdaterView {
                                written: updater.written + updater.pending,
                                pending: 0,
                                ..updater
                            }
                        } else {
                            updater
                        };
                        if updater.pc + 1 < updater.program.len() {
                            Some(UpdaterView { pc: updater.pc + 1, ..counted })
                        } else if updater.next_card < updater.cards.len() {
                            Some(counted.load_batch())
                        } else {
                            None
                        }
                    },
                }
            }
        },
    }
}

/// A step either readies the updater and asks for what the instruction at
/// hand needs next, or it is one of three: the end of the run, a rollback
/// after a failure, or the question for a keyword that was there already.
pub proof fn lemma_step_shape(updater: UpdaterView, answer: Answer)
    requires
        updater.wf(),
    ensures
        match readied(updater, answer) {
            Some(ready) => {
                &&& updater.step(answer) == ready.issue()
                &&& ready.pc < ready.program.len()
                &&& live(updater)
            },
            None => {
                let (next, action) = updater.step(answer);
                match action {
                    ActionView::Finish => next.stage == Stage::Finished,
                    ActionView::Run(StatementView::Rollback) => next.stage == Stage::RollingBack,
                    ActionView::Run(StatementView::SelectKeywordId { name }) => {
                        &&& live(updater)
                        &&& next == UpdaterView { stage: Stage::FindingRef, ..updater }
                        &&& updater.instr() is Keyword
                        &&& updater.instr()->Keyword_name == name
                        &&& updater.stage == Stage::Creating
                        &&& answer == Answer::NoRow
                    },
                    _ => false,
                }
            },
        },
{
    lemma_seed_names_no_card();
}

/// Whether every row that a statement refers to by id is there.
pub open spec fn refers_to_rows(statement: StatementView, tables: Tables) -> bool {
    match statement {
        StatementView::InsertLegality { card_id, format_id, .. } => has_card(
            tables.cards,
            card_id,
        ) && has_id(tables.formats, format_id),
        StatementView::InsertCardKeyword { card_id, keyword_id } => has_card(
            tables.cards,
            card_id,
        ) && has_id(tables.keywords, keyword_id),
        StatementView::InsertImage { card_id, image_type_id, .. } => has_card(
            tables.cards,
            card_id,
        ) && has_id(tables.image_types, image_type_id),
        StatementView::InsertSupertype { card_id, .. } => has_card(tables.cards, card_id),
        StatementView::InsertCardType { card_id, .. } => has_card(tables.cards, card_id),
        StatementView::InsertSubtype { card_id, .. } => has_card(tables.cards, card_id),
        _ => true,
    }
}

/// What holds when an updater that agrees with the store asks for what its
/// instruction at hand needs next, and the store runs the statement: the
/// statement refers to rows that are there, the tables only grow, and
/// updater and store agree afterwards, on the answer too.
pub proof fn lemma_issue(ready: UpdaterView, store: Store, choice: Choice)
    requires
        ready.pc < ready.program.len(),
        caches_agree(ready, store.tables),
    ensures
        ({
            let (next, action) = ready.issue();
            &&& action is Run
            &&& !(action->Run_0 is Rollback)
            &&& refers_to_rows(action->Run_0, store.tables)
            &&& live(next)
            &&& next == UpdaterView { stage: next.stage, ..ready }
            &&& stage_fits(next)
            &&& {
                let (stored, answer) = respond(store, action->Run_0, choice);
                &&& grown_from(stored.tables, store.tables)
                &&& stored.tables == if choice.fails || action->Run_0 is Begin {
                    store.tables
                } else {
                    written(store.tables, action->Run_0, choice.id)
                }
                &&& stored.saved == if !choice.fails && action->Run_0 is Begin {
                    store.tables
                } else {
                    store.saved
                }
                &&& caches_agree(next, stored.tables)
                &&& answer_agrees(next, answer, stored.tables)
            }
        }),
{
    let (next, action) = ready.issue();
    let statement = action->Run_0;
    let tables = store.tables;
    lemma_written_grows(tables, statement, choice.id);
    match ready.card_id {
        Some((catalog_id, id)) => {
            assert(tables.cards.contains_key(catalog_id) && tables.cards[catalog_id].id == id);
        },
        None => {},
    }
    match ready.instr() {
        InstrView::Legality { format, .. } => {
            if ready.formats.contains_key(format.spec_name()) {
                assert(tables.formats.contains_key(format.spec_name()));
            }
        },
        InstrView::Keyword { name, .. } => {
            if ready.keywords.contains_key(name) {
                assert(tables.keywords.contains_key(name));
            }
        },
        InstrView::Image { kind, .. } => {
            if ready.image_types.contains_key(kind.spec_name()) {
                assert(tables.image_types.contains_key(kind.spec_name()));
            }
        },
        _ => {},
    }
}

/// A turn keeps updater and store in step.
pub proof fn lemma_turn_in_step(run: Run, choice: Choice)
    requires
        in_step(run),
    ensures
        in_step(turn(run, choice)),
{
    reveal(turn);
    let updater = run.updater;
    let tables = run.store.tables;
    lemma_step_wf(updater, run.answer);
    lemma_step_shape(updater, run.answer);
    match readied(updater, run.answer) {
        Some(ready) => {
            lemma_readied_agrees(run);
            lemma_issue(ready, run.store, choice);
        },
        None => {
            let (next, action) = updater.step(run.answer);
            if action is Run && action->Run_0 is SelectKeywordId {
                let name = updater.instr()->Keyword_name;
                if !choice.fails {
                    assert(turn(run, choice).store.tables == tables);
                }
            }
        },
    }
}

/// Taking an answer keeps the updater in agreement with the store.
pub proof fn lemma_readied_agrees(run: Run)
    requires
        in_step(run),
        readied(run.updater, run.answer) is Some,
    ensures
        caches_agree(readied(run.updater, run.answer)->0, run.store.tables),
{
}

/// Updater and store stay in step for the whole of a run.
pub proof fn lemma_run_in_step(cards: Seq<CardView>, store: Store, choices: Seq<Choice>)
    requires
        cards.len() <= usize::MAX,
    ensures
        in_step(after(begun(cards, store), choices)),
    decreases choices.len(),
{
    if choices.len() > 0 {
        lemma_run_in_step(cards, store, choices.drop_last());
        lemma_turn_in_step(after(begun(cards, store), choices.drop_last()), choices.last());
    }
}

/// A statement that refers to rows that are there leaves the tables
/// intact.
pub proof fn lemma_written_intact(tables: Tables, statement: StatementView, id: i64)
    requires
        intact(tables),
        refers_to_rows(statement, tables),
    ensures
        intact(written(tables, statement, id)),
{
    let now = written(tables, statement, id);
    lemma_written_grows(tables, statement, id);
    assert forall|card: i64, format: i64| #[trigger]
        now.legalities.contains_key((card, format)) implies has_card(now.cards, card) && has_id(
        now.formats,
        format,
    ) by {
        lemma_grown_keeps_ids(now, tables, card);
        lemma_grown_keeps_ids(now, tables, format);
    }
    assert forall|card: i64, keyword: i64| #[trigger]
        now.card_keywords.contains((card, keyword)) implies has_card(now.cards, card) && has_id(
        now.keywords,
        keyword,
    ) by {
        lemma_grown_keeps_ids(now, tables, card);
        lemma_grown_keeps_ids(now, tables, keyword);
    }
    assert forall|card: i64, kind: i64| #[trigger]
        now.images.contains_key((card, kind)) implies has_card(now.cards, card) && has_id(
        now.image_types,
        kind,
    ) by {
        lemma_grown_keeps_ids(now, tables, card);
        lemma_grown_keeps_ids(now, tables, kind);
    }
    assert forall|card: i64| #[trigger] now.supertypes.contains_key(card) implies has_card(
        now.cards,
        card,
    ) by {
        lemma_grown_keeps_ids(now, tables, card);
    }
    assert forall|card: i64, value: Seq<char>| #[trigger]
        now.card_types.contains((card, value)) implies has_card(now.cards, card) by {
        lemma_grown_keeps_ids(now, tables, card);
    }
    assert forall|card: i64, value: Seq<char>| #[trigger]
        now.subtypes.contains((card, value)) implies has_card(now.cards, card) by {
        lemma_grown_keeps_ids(now, tables, card);
    }
}

/// Whether a rollback would give back intact tables, where the updater
/// could ask for one: a transaction is open once its opening was answered.
pub open spec fn rollback_is_safe(run: Run) -> bool {
    run.updater.is_working() && (run.updater.pc > 0 || run.answer == Answer::Done) ==> intact(
        run.store.saved,
    )
}

/// Updater and store are in step and the tables are intact.
pub open spec fn sound(run: Run) -> bool {
    &&& in_step(run)
    &&& intact(run.store.tables)
    &&& rollback_is_safe(run)
}

/// A turn leaves the tables intact.
pub proof fn lemma_turn_intact(run: Run, choice: Choice)
    requires
        sound(run),
    ensures
        sound(turn(run, choice)),
{
    reveal(turn);
    let updater = run.updater;
    lemma_turn_in_step(run, choice);
    lemma_step_shape(updater, run.answer);
    match readied(updater, run.answer) {
        Some(ready) => {
            lemma_readied_agrees(run);
            lemma_issue(ready, run.store, choice);
            let statement = ready.issue().1->Run_0;
            lemma_written_intact(run.store.tables, statement, choice.id);
        },
        None => {},
    }
}

/// Referential integrity: whatever the store chooses, and however far the
/// run has come, every row that refers to a card, a format, a keyword or
/// an image kind refers to one that is there, given that this held of the
/// tables before the run.
pub proof fn lemma_run_intact(cards: Seq<CardView>, store: Store, choices: Seq<Choice>)
    requires
        cards.len() <= usize::MAX,
        intact(store.tables),
    ensures
        sound(after(begun(cards, store), choices)),
        intact(after(begun(cards, store), choices).store.tables),
    decreases choices.len(),
{
    if choices.len() > 0 {
        lemma_run_intact(cards, store, choices.drop_last());
        lemma_turn_intact(after(begun(cards, store), choices.drop_last()), choices.last());
    }
}

/// The statement that the updater asks for in the next turn of a run, if
/// it asks for one.
pub open spec fn asked(run: Run) -> Option<StatementView> {
    match run.updater.step(run.answer).1 {
        ActionView::Run(statement) => Some(statement),
        ActionView::Finish => None,
    }
}

/// Whether the updater asks the store to create a keyword in the next turn
/// of a run.
pub open spec fn creates(run: Run, name: Seq<char>) -> bool {
    asked(run) == Some(StatementView::InsertKeyword { name })
}

/// Whether the updater remembers the id of a keyword, or is about to learn
/// it, or works on the store no more.
pub open spec fn resolved(run: Run, name: Seq<char>) -> bool {
    live(run.updater) ==> {
        ||| run.updater.keywords.contains_key(name)
        ||| {
            &&& run.updater.stage == Stage::Creating || run.updater.stage == Stage::FindingRef
            &&& run.updater.instr() is Keyword
            &&& run.updater.instr()->Keyword_name == name
        }
    }
}

/// A turn leaves every id that the updater remembers as it is.
pub proof fn lemma_turn_keeps_ids(run: Run, choice: Choice)
    requires
        run.updater.wf(),
    ensures
        extends(turn(run, choice).updater.formats, run.updater.formats),
        extends(turn(run, choice).updater.keywords, run.updater.keywords),
        extends(turn(run, choice).updater.image_types, run.updater.image_types),
{
    reveal(turn);
    lemma_step_shape(run.updater, run.answer);
}

/// Once a keyword is asked to be created, it is resolved for the rest of
/// the run, and the updater does not ask to create it again.
pub proof fn lemma_turn_resolved(run: Run, choice: Choice, name: Seq<char>)
    requires
        run.updater.wf(),
        creates(run, name) || resolved(run, name),
    ensures
        resolved(turn(run, choice), name),
        resolved(run, name) ==> !creates(run, name),
{
    reveal(turn);
    lemma_step_shape(run.updater, run.answer);
    lemma_step_wf(run.updater, run.answer);
}

/// A run after the first `n` of its turns.
pub open spec fn at(cards: Seq<CardView>, store: Store, choices: Seq<Choice>, n: int) -> Run {
    after(begun(cards, store), choices.take(n))
}

/// The run after `n + 1` turns is the run after `n` turns and one more.
pub proof fn lemma_at_next(cards: Seq<CardView>, store: Store, choices: Seq<Choice>, n: int)
    requires
        0 <= n < choices.len(),
    ensures
        at(cards, store, choices, n + 1) == turn(at(cards, store, choices, n), choices[n]),
{
    assert(choices.take(n + 1).drop_last() =~= choices.take(n));
}

/// A keyword that is resolved at one turn of a run is resolved at every
/// later turn.
proof fn lemma_resolved_stays(
    cards: Seq<CardView>,
    store: Store,
    choices: Seq<Choice>,
    first: int,
    later: int,
    name: Seq<char>,
)
    requires
        cards.len() <= usize::MAX,
        0 <= first <= later <= choices.len(),
        resolved(at(cards, store, choices, first), name),
    ensures
        resolved(at(cards, store, choices, later), name),
    decreases later - first,
{
    if first < later {
        lemma_resolved_stays(cards, store, choices, first, later - 1, name);
        lemma_run_in_step(cards, store, choices.take(later - 1));
        lemma_at_next(cards, store, choices, later - 1);
        lemma_turn_resolved(at(cards, store, choices, later - 1), choices[later - 1], name);
    }
}

/// Lookup-or-create asks the store to create a row at most once: after the
/// updater asked to create a keyword, it does not ask to create that
/// keyword again in the same run, whatever the store chooses.
pub proof fn lemma_keyword_created_once(
    cards: Seq<CardView>,
    store: Store,
    choices: Seq<Choice>,
    first: int,
    later: int,
    name: Seq<char>,
)
    requires
        cards.len() <= usize::MAX,
        0 <= first < later <= choices.len(),
        creates(at(cards, store, choices, first), name),
    ensures
        !creates(at(cards, store, choices, later), name),
{
    lemma_run_in_step(cards, store, choices.take(first));
    lemma_at_next(cards, store, choices, first);
    lemma_turn_resolved(at(cards, store, choices, first), choices[first], name);
    lemma_resolved_stays(cards, store, choices, first + 1, later, name);
    lemma_run_in_step(cards, store, choices.take(later));
    lemma_turn_resolved(at(cards, store, choices, later), Choice { fails: false, id: 0 }, name);
}

/// Resolving a key again gives the same id: an id that the updater
/// remembers for a format, a keyword or an image kind at one turn of a run
/// is the id it remembers at every later turn. As long as the updater
/// works on the store, it is also the id that the store holds.
pub proof fn lemma_ids_stay(
    cards: Seq<CardView>,
    store: Store,
    choices: Seq<Choice>,
    first: int,
    later: int,
)
    requires
        cards.len() <= usize::MAX,
        0 <= first <= later <= choices.len(),
    ensures
        extends(
            at(cards, store, choices, later).updater.formats,
            at(cards, store, choices, first).updater.formats,
        ),
        extends(
            at(cards, store, choices, later).updater.keywords,
            at(cards, store, choices, first).updater.keywords,
        ),
        extends(
            at(cards, store, choices, later).updater.image_types,
            at(cards, store, choices, first).updater.image_types,
        ),
        live(at(cards, store, choices, later).updater) ==> caches_agree(
            at(cards, store, choices, later).updater,
            at(cards, store, choices, later).store.tables,
        ),
    decreases later - first,
{
    lemma_run_in_step(cards, store, choices.take(later));
    if first < later {
        lemma_ids_stay(cards, store, choices, first, later - 1);
        lemma_run_in_step(cards, store, choices.take(later - 1));
        lemma_at_next(cards, store, choices, later - 1);
        lemma_turn_keeps_ids(at(cards, store, choices, later - 1), choices[later - 1]);
    }
}

/// A keyword has one row at most: asking to create a keyword that is
/// there already changes nothing and is answered with no row.
pub proof fn lemma_create_twice_changes_nothing(tables: Tables, name: Seq<char>, id: i64)
    requires
        tables.keywords.contains_key(name),
    ensures
        written(tables, StatementView::InsertKeyword { name }, id) == tables,
        answered(tables, StatementView::InsertKeyword { name }, id) == Answer::NoRow,
{
}

/// Whether the books of the updater are in order: the cards counted as
/// written or as in the transaction at hand are the cards taken up so far
/// that have a catalog id; the failures on record are those known of the
/// cards taken up so far before anything was written, and after them the
/// one failure of the store that ended the run, if one did.
pub open spec fn tallied(updater: UpdaterView) -> bool {
    let known = cards_failures(updater.cards, 0, updater.next_card as int);
    &&& updater.written + updater.pending == cards_with_id(
        updater.cards,
        0,
        updater.next_card as int,
    )
    &&& if clean(updater.failures) {
        updater.failures == known && updater.stage != Stage::RollingBack
    } else {
        &&& !live(updater)
        &&& updater.failures.len() == known.len() + 1
        &&& updater.failures.drop_last() == known
        &&& updater.failures.last().operation is Store
    }
    &&& updater.stage == Stage::Finished && clean(updater.failures) ==> updater.pending == 0
        && updater.next_card == updater.cards.len()
}

/// A step of the updater keeps its books in order.
pub proof fn lemma_step_tallied(updater: UpdaterView, answer: Answer)
    requires
        updater.wf(),
        tallied(updater),
    ensures
        tallied(updater.step(answer).0),
{
    let next = updater.step(answer).0;
    let cards = updater.cards;
    let from = updater.next_card as int;
    lemma_step_shape(updater, answer);
    lemma_seed_names_no_card();
    lemma_cards_failures_clean(cards, 0, from);
    lemma_cards_failures_clean(cards, 0, next.next_card as int);
    if next.next_card != updater.next_card {
        let to = updater.batch_end() as int;
        lemma_cards_with_id_splits(cards, 0, from, to);
        lemma_cards_failures_split(cards, 0, from, to);
    }
    if next.failures.len() == updater.failures.len() + 1 && next.next_card == updater.next_card {
        let last = next.failures.len() - 1;
        assert(next.failures[last].operation is Store);
        assert(next.failures.drop_last() =~= updater.failures);
    }
}

/// The books of a run: at every turn, the cards counted as written or as
/// in the transaction at hand are the cards taken up so far that have a
/// catalog id. When a run ends without a failure of the store, the cards
/// counted as written are all the cards with a catalog id, and the
/// failures on record are those known of the cards before anything was
/// written, card after card.
pub proof fn lemma_run_tallied(cards: Seq<CardView>, store: Store, choices: Seq<Choice>)
    requires
        cards.len() <= usize::MAX,
    ensures
        tallied(after(begun(cards, store), choices).updater),
        after(begun(cards, store), choices).updater.cards == cards,
        ({
            let end = after(begun(cards, store), choices).updater;
            end.stage == Stage::Finished && clean(end.failures) ==> {
                &&& end.written == cards_with_id(cards, 0, cards.len() as int)
                &&& end.failures == cards_failures(cards, 0, cards.len() as int)
            }
        }),
    decreases choices.len(),
{
    lemma_run_in_step(cards, store, choices);
    if choices.len() > 0 {
        let before = after(begun(cards, store), choices.drop_last());
        lemma_run_tallied(cards, store, choices.drop_last());
        lemma_run_in_step(cards, store, choices.drop_last());
        lemma_turn_steps(before, choices.last());
        lemma_step_tallied(before.updater, before.answer);
        lemma_step_keeps_cards(before.updater, before.answer);
    }
}

/// A step leaves the list of cards as it is, and a run that is over stays
/// over.
pub proof fn lemma_step_keeps_cards(updater: UpdaterView, answer: Answer)
    ensures
        updater.step(answer).0.cards == updater.cards,
        updater.stage == Stage::Finished ==> updater.step(answer).0 == updater,
{
}

/// How many more turns the instruction at hand takes at most, by the stage
/// of the updater.
pub open spec fn stage_cost(stage: Stage) -> nat {
    match stage {
        Stage::FindingCard => 3,
        Stage::Creating => 2,
        Stage::FindingRef => 1,
        _ => 0,
    }
}

/// How many turns the cards that are in no batch yet take at most: four
/// for each of their instructions, and eight for the opening and the
/// closing of a transaction, of which there are no more than cards.
pub open spec fn batches_cost(cards: Seq<CardView>, from: int) -> nat {
    if from <= cards.len() {
        (4 * cards_instrs(cards, from, cards.len() as int).len() + 8 * (cards.len() - from)) as nat
    } else {
        0
    }
}

/// How many turns a run takes at most from a state of the updater until it
/// is over.
pub open spec fn turns_to_come(updater: UpdaterView) -> nat {
    match updater.stage {
        Stage::Finished => 0,
        Stage::RollingBack => 1,
        Stage::Fresh => 4 * seed_instrs().len() + batches_cost(updater.cards, 0) + 3,
        _ => (stage_cost(updater.stage) + 4 * (updater.program.len() - 1 - updater.pc)
            + batches_cost(updater.cards, updater.next_card as int) + 2) as nat,
    }
}

/// The instructions of a range of cards are as many as those of its two
/// parts together.
pub proof fn lemma_cards_instrs_split(cards: Seq<CardView>, from: int, mid: int, to: int)
    requires
        from <= mid <= to,
    ensures
        cards_instrs(cards, from, to).len() == cards_instrs(cards, from, mid).len() + cards_instrs(
            cards,
            mid,
            to,
        ).len(),
    decreases to - mid,
{
    if mid < to {
        lemma_cards_instrs_split(cards, from, mid, to - 1);
    }
}

/// A step brings the end of the run nearer: unless the run is over, fewer
/// turns are to come after it than before.
pub proof fn lemma_step_nearer(updater: UpdaterView, answer: Answer)
    requires
        updater.wf(),
        updater.is_working() ==> stage_fits(updater),
        updater.stage == Stage::Fresh ==> updater.next_card == 0,
        updater.stage != Stage::Finished,
    ensures
        turns_to_come(updater.step(answer).0) < turns_to_come(updater),
        updater.step(answer).0.stage == Stage::Fresh ==> updater.step(answer).0.next_card == 0,
{
    let next = updater.step(answer).0;
    let cards = updater.cards;
    lemma_step_shape(updater, answer);
    lemma_step_wf(updater, answer);
    lemma_seed_names_no_card();
    if next.next_card != updater.next_card {
        let from = updater.next_card as int;
        let to = updater.batch_end() as int;
        lemma_cards_instrs_split(cards, from, to, cards.len() as int);
    }
}

/// Every run ends: whatever the store answers, the run is over after as
/// many turns as its cards and their rows allow for, and it stays over.
pub proof fn lemma_run_ends(cards: Seq<CardView>, store: Store, choices: Seq<Choice>)
    requires
        cards.len() <= usize::MAX,
    ensures
        turns_to_come(after(begun(cards, store), choices).updater) + choices.len() <= turns_to_come(
            UpdaterView::fresh(cards),
        ) || after(begun(cards, store), choices).updater.stage == Stage::Finished,
        after(begun(cards, store), choices).updater.stage == Stage::Fresh ==> after(
            begun(cards, store),
            choices,
        ).updater.next_card == 0,
        choices.len() >= turns_to_come(UpdaterView::fresh(cards)) ==> after(
            begun(cards, store),
            choices,
        ).updater.stage == Stage::Finished,
    decreases choices.len(),
{
    if choices.len() > 0 {
        let before = after(begun(cards, store), choices.drop_last());
        lemma_run_ends(cards, store, choices.drop_last());
        lemma_run_in_step(cards, store, choices.drop_last());
        lemma_turn_steps(before, choices.last());
        if before.updater.stage != Stage::Finished {
            lemma_step_nearer(before.updater, before.answer);
        } else {
            lemma_step_keeps_cards(before.updater, before.answer);
        }
    }
}

} // verus!
