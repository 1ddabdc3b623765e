//! Ingestion is idempotent: a run that ends without a failure of the store
//! leaves every row of its cards in the tables, and a run over tables that
//! hold every row of its cards changes nothing. So running ingestion twice
//! on the same input leaves the tables, and with them the number of rows in
//! each, as running it once.
//!
//! On the way it is shown that no row gets lost between the batches, and
//! that the reference tables are seeded before the first card is written.

use crate::card::CardView;
use crate::laws::{
    after, begun, caches_agree, in_step, lemma_issue, lemma_readied_agrees, lemma_run_in_step,
    lemma_step_shape, lemma_turn_in_step, lemma_turn_steps, readied, turn, Run,
};
use crate::program::{
    batch_instrs, card_instrs, cards_instrs, clean, is_instr_of, is_valid,
    lemma_card_in_cards_instrs, lemma_card_instrs_valid, lemma_cards_instrs_about,
    lemma_cards_instrs_member, seed_instrs, InstrView,
};
use crate::statement::{Answer, StatementView};
use crate::store::{grown_from, respond, written, Choice, Store, Tables};
use crate::updater::{lemma_seed_names_no_card, ActionView, Stage, UpdaterView};
use vstd::prelude::*;

verus! {

/// Whether the row that an instruction writes is in the tables.
pub open spec fn is_done(tables: Tables, instr: InstrView) -> bool {
    match instr {
        InstrView::Begin => true,
        InstrView::Commit => true,
        InstrView::SeedFormat(f) => tables.formats.contains_key(f.spec_name()),
        InstrView::SeedImageType(k) => tables.image_types.contains_key(k.spec_name()),
        InstrView::Card { catalog_id, .. } => tables.cards.contains_key(catalog_id),
        InstrView::Legality { catalog_id, format, .. } => {
            &&& tables.cards.contains_key(catalog_id)
            &&& tables.formats.contains_key(format.spec_name())
            &&& tables.legalities.contains_key(
                (tables.cards[catalog_id].id, tables.formats[format.spec_name()]),
            )
        },
        InstrView::Keyword { catalog_id, name, .. } => {
            &&& tables.cards.contains_key(catalog_id)
            &&& tables.keywords.contains_key(name)
            &&& tables.card_keywords.contains((tables.cards[catalog_id].id, tables.keywords[name]))
        },
        InstrView::Image { catalog_id, kind, .. } => {
            &&& tables.cards.contains_key(catalog_id)
            &&& tables.image_types.contains_key(kind.spec_name())
            &&& tables.images.contains_key(
                (tables.cards[catalog_id].id, tables.image_types[kind.spec_name()]),
            )
        },
        InstrView::Supertype { catalog_id, .. } => {
            &&& tables.cards.contains_key(catalog_id)
            &&& tables.supertypes.contains_key(tables.cards[catalog_id].id)
        },
        InstrView::Type { catalog_id, value, .. } => {
            &&& tables.cards.contains_key(catalog_id)
            &&& tables.card_types.contains((tables.cards[catalog_id].id, value))
        },
        InstrView::Subtype { catalog_id, value, .. } => {
            &&& tables.cards.contains_key(catalog_id)
            &&& tables.subtypes.contains((tables.cards[catalog_id].id, value))
        },
    }
}

/// Whether the tables hold every row that ingestion writes for a list of
/// cards: the reference tables are seeded, and every row of every card is
/// there.
pub open spec fn settled(tables: Tables, cards: Seq<CardView>) -> bool {
    &&& forall|i: int|
        0 <= i < seed_instrs().len() ==> is_done(tables, #[trigger] seed_instrs()[i])
    &&& forall|c: int, j: int, instr: InstrView| #[trigger]
        is_instr_of(cards, c, j, instr) ==> is_done(tables, instr)
}

/// A row that is there stays there as the tables grow.
pub proof fn lemma_done_stays(now: Tables, before: Tables, instr: InstrView)
    requires
        grown_from(now, before),
        is_done(before, instr),
    ensures
        is_done(now, instr),
{
    match instr {
        InstrView::Legality { catalog_id, format, .. } => {
            assert(before.legalities.contains_key(
                (before.cards[catalog_id].id, before.formats[format.spec_name()]),
            ));
        },
        InstrView::Image { catalog_id, kind, .. } => {
            assert(before.images.contains_key(
                (before.cards[catalog_id].id, before.image_types[kind.spec_name()]),
            ));
        },
        _ => {},
    }
}

/// Every instruction of a batch is done in tables that hold every row of
/// the cards.
pub proof fn lemma_batch_done(tables: Tables, cards: Seq<CardView>, from: int, to: int)
    requires
        0 <= from <= to <= cards.len(),
        settled(tables, cards),
    ensures
        forall|q: int|
            0 <= q < batch_instrs(cards, from, to).len() ==> is_done(
                tables,
                #[trigger] batch_instrs(cards, from, to)[q],
            ),
{
    let batch = batch_instrs(cards, from, to);
    let middle = cards_instrs(cards, from, to);
    assert forall|q: int| 0 <= q < batch.len() implies is_done(tables, #[trigger] batch[q]) by {
        if 0 < q < batch.len() - 1 {
            assert(batch[q] == middle[q - 1]);
            lemma_cards_instrs_member(cards, from, to, q - 1);
            let (c, j) = choose|c: int, j: int|
                from <= c < to && #[trigger] is_instr_of(cards, c, j, middle[q - 1]);
            assert(is_instr_of(cards, c, j, batch[q]));
        }
    }
}

/// Asking for a row that is there changes nothing: where the row of the
/// instruction at hand is in the tables, whatever the updater asks the
/// store for leaves the tables as they are.
pub proof fn lemma_done_write_changes_nothing(ready: UpdaterView, tables: Tables, id: i64)
    requires
        ready.pc < ready.program.len(),
        caches_agree(ready, tables),
        is_done(tables, ready.instr()),
        is_valid(ready.instr()),
    ensures
        written(tables, ready.issue().1->Run_0, id) == tables,
{
    let statement = ready.issue().1->Run_0;
    let now = written(tables, statement, id);
    match ready.card_id {
        Some((catalog_id, card)) => {
            assert(tables.cards.contains_key(catalog_id) && tables.cards[catalog_id].id == card);
        },
        None => {},
    }
    match ready.instr() {
        InstrView::Legality { format, .. } => {
            if ready.formats.contains_key(format.spec_name()) {
                assert(tables.formats.contains_key(format.spec_name()));
            }
        },
        InstrView::Keyword { name, .. } => {
            if ready.keywords.contains_key(name) {
                assert(tables.keywords.contains_key(name));
            }
        },
        InstrView::Image { kind, .. } => {
            if ready.image_types.contains_key(kind.spec_name()) {
                assert(tables.image_types.contains_key(kind.spec_name()));
            }
        },
        _ => {},
    }
    assert(now.card_keywords =~= tables.card_keywords);
    assert(now.card_types =~= tables.card_types);
    assert(now.subtypes =~= tables.subtypes);
}

/// What holds all through a run over tables that hold every row of its
/// cards: the tables stay as they are, and so would a rollback leave them.
pub open spec fn quiet(run: Run, tables: Tables) -> bool {
    &&& in_step(run)
    &&& run.store.tables == tables
    &&& settled(tables, run.updater.cards)
    &&& run.updater.is_working() ==> {
        &&& run.updater.pc > 0 || run.answer == Answer::Done ==> run.store.saved == tables
        &&& forall|q: int|
            0 <= q < run.updater.program.len() ==> is_done(
                tables,
                #[trigger] run.updater.program[q],
            ) && is_valid(run.updater.program[q])
    }
}

/// Every instruction of a batch hangs together.
pub proof fn lemma_batch_valid(cards: Seq<CardView>, from: int, to: int)
    requires
        0 <= from <= to <= cards.len(),
    ensures
        forall|q: int|
            0 <= q < batch_instrs(cards, from, to).len() ==> is_valid(
                #[trigger] batch_instrs(cards, from, to)[q],
            ),
{
    let batch = batch_instrs(cards, from, to);
    let middle = cards_instrs(cards, from, to);
    assert forall|q: int| 0 <= q < batch.len() implies is_valid(#[trigger] batch[q]) by {
        if 0 < q < batch.len() - 1 {
            assert(batch[q] == middle[q - 1]);
            lemma_cards_instrs_member(cards, from, to, q - 1);
            let (c, j) = choose|c: int, j: int|
                from <= c < to && #[trigger] is_instr_of(cards, c, j, middle[q - 1]);
            lemma_card_instrs_valid(cards[c], c as usize, j);
        }
    }
}

/// A turn of a run over settled tables changes nothing.
pub proof fn lemma_turn_quiet(run: Run, choice: Choice, tables: Tables)
    requires
        quiet(run, tables),
    ensures
        quiet(turn(run, choice), tables),
        turn(run, choice).updater.cards == run.updater.cards,
{
    reveal(turn);
    let updater = run.updater;
    lemma_turn_in_step(run, choice);
    lemma_step_shape(updater, run.answer);
    lemma_seed_names_no_card();
    match readied(updater, run.answer) {
        Some(ready) => {
            lemma_readied_agrees(run);
            lemma_issue(ready, run.store, choice);
            if ready.program != updater.program {
                if updater.stage == Stage::Fresh {
                } else {
                    let from = updater.next_card as int;
                    let to = updater.batch_end() as int;
                    lemma_batch_done(tables, updater.cards, from, to);
                    lemma_batch_valid(updater.cards, from, to);
                }
            }
            assert(is_done(tables, ready.program[ready.pc as int]));
            lemma_done_write_changes_nothing(ready, tables, choice.id);
        },
        None => {},
    }
}

/// A run over tables that hold every row of its cards changes nothing,
/// whatever the store chooses and however far the run has come.
pub proof fn lemma_settled_run_changes_nothing(
    cards: Seq<CardView>,
    store: Store,
    choices: Seq<Choice>,
)
    requires
        cards.len() <= usize::MAX,
        settled(store.tables, cards),
    ensures
        quiet(after(begun(cards, store), choices), store.tables),
        after(begun(cards, store), choices).updater.cards == cards,
        after(begun(cards, store), choices).store.tables == store.tables,
    decreases choices.len(),
{
    if choices.len() > 0 {
        lemma_settled_run_changes_nothing(cards, store, choices.drop_last());
        lemma_turn_quiet(
            after(begun(cards, store), choices.drop_last()),
            choices.last(),
            store.tables,
        );
    } else {
        lemma_run_in_step(cards, store, choices);
    }
}

/// Whether an instruction is still to come in the transaction at hand.
pub open spec fn ahead(updater: UpdaterView, instr: InstrView) -> bool {
    exists|q: int| updater.pc <= q < updater.program.len() && #[trigger] updater.program[q] == instr
}

/// Whether the row of an instruction is in the tables or still to come.
pub open spec fn done_or_ahead(updater: UpdaterView, tables: Tables, instr: InstrView) -> bool {
    is_done(tables, instr) || ahead(updater, instr)
}

/// Whether every row of the seeding and of the cards taken up so far is in
/// the tables or still to come in the transaction at hand.
pub open spec fn nothing_lost(updater: UpdaterView, tables: Tables) -> bool {
    &&& forall|i: int|
        0 <= i < seed_instrs().len() ==> done_or_ahead(
            updater,
            tables,
            #[trigger] seed_instrs()[i],
        )
    &&& forall|c: int, j: int, instr: InstrView|
        c < updater.next_card && #[trigger] is_instr_of(updater.cards, c, j, instr)
            ==> done_or_ahead(updater, tables, instr)
    &&& forall|q: int| 0 <= q < updater.program.len() ==> is_valid(#[trigger] updater.program[q])
}

/// What holds all through a run as long as the store fails nothing: no row
/// is lost on the way, and once the run is over every row is there.
pub open spec fn on_course(run: Run) -> bool {
    &&& in_step(run)
    &&& clean(run.updater.failures) ==> match run.updater.stage {
        Stage::Fresh => run.updater.next_card == 0,
        Stage::Finished => settled(run.store.tables, run.updater.cards),
        Stage::RollingBack => false,
        _ => {
            &&& nothing_lost(run.updater, run.store.tables)
            &&& run.updater.stage == Stage::Writing && run.answer == Answer::Done ==> is_done(
                run.store.tables,
                run.updater.instr(),
            )
        },
    }
}

/// The statement that writes the row of an instruction puts the row in the
/// tables.
pub proof fn lemma_write_done(ready: UpdaterView, store: Store, choice: Choice)
    requires
        ready.pc < ready.program.len(),
        caches_agree(ready, store.tables),
        is_valid(ready.instr()),
    ensures
        ({
            let (next, action) = ready.issue();
            let (stored, answer) = respond(store, action->Run_0, choice);
            next.stage == Stage::Writing && answer == Answer::Done ==> is_done(
                stored.tables,
                ready.instr(),
            )
        }),
{
    let tables = store.tables;
    match ready.card_id {
        Some((catalog_id, card)) => {
            assert(tables.cards.contains_key(catalog_id) && tables.cards[catalog_id].id == card);
        },
        None => {},
    }
    match ready.instr() {
        InstrView::Legality { format, .. } => {
            if ready.formats.contains_key(format.spec_name()) {
                assert(tables.formats.contains_key(format.spec_name()));
            }
        },
        InstrView::Keyword { name, .. } => {
            if ready.keywords.contains_key(name) {
                assert(tables.keywords.contains_key(name));
            }
        },
        InstrView::Image { kind, .. } => {
            if ready.image_types.contains_key(kind.spec_name()) {
                assert(tables.image_types.contains_key(kind.spec_name()));
            }
        },
        _ => {},
    }
}

/// What is done or to come stays so when the tables grow and the updater
/// stays at its instruction.
proof fn lemma_nothing_lost_grows(
    updater: UpdaterView,
    next: UpdaterView,
    before: Tables,
    now: Tables,
)
    requires
        nothing_lost(updater, before),
        grown_from(now, before),
        next.program == updater.program,
        next.pc == updater.pc,
        next.cards == updater.cards,
        next.next_card == updater.next_card,
    ensures
        nothing_lost(next, now),
{
    assert forall|i: int| 0 <= i < seed_instrs().len() implies done_or_ahead(
        next,
        now,
        #[trigger] seed_instrs()[i],
    ) by {
        let instr = seed_instrs()[i];
        assert(done_or_ahead(updater, before, instr));
        if is_done(before, instr) {
            lemma_done_stays(now, before, instr);
        } else {
            let q = choose|q: int|
                updater.pc <= q < updater.program.len() && #[trigger] updater.program[q] == instr;
            assert(next.program[q] == instr);
        }
    }
    assert forall|c: int, j: int, instr: InstrView|
        c < next.next_card && #[trigger] is_instr_of(
            next.cards,
            c,
            j,
            instr,
        ) implies done_or_ahead(next, now, instr) by {
        assert(done_or_ahead(updater, before, instr));
        if is_done(before, instr) {
            lemma_done_stays(now, before, instr);
        } else {
            let q = choose|q: int|
                updater.pc <= q < updater.program.len() && #[trigger] updater.program[q] == instr;
            assert(next.program[q] == instr);
        }
    }
}

/// After the row of the instruction at hand is written, what was done or
/// to come is done or to come from the next instruction on.
proof fn lemma_nothing_lost_steps(updater: UpdaterView, next: UpdaterView, tables: Tables)
    requires
        nothing_lost(updater, tables),
        updater.pc < updater.program.len(),
        is_done(tables, updater.instr()),
        next.program == updater.program,
        next.pc == updater.pc + 1,
        next.cards == updater.cards,
        next.next_card == updater.next_card,
    ensures
        nothing_lost(next, tables),
{
    assert forall|i: int| 0 <= i < seed_instrs().len() implies done_or_ahead(
        next,
        tables,
        #[trigger] seed_instrs()[i],
    ) by {
        let instr = seed_instrs()[i];
        assert(done_or_ahead(updater, tables, instr));
        if !is_done(tables, instr) {
            let q = choose|q: int|
                updater.pc <= q < updater.program.len() && #[trigger] updater.program[q] == instr;
            assert(next.program[q] == instr);
        }
    }
    assert forall|c: int, j: int, instr: InstrView|
        c < next.next_card && #[trigger] is_instr_of(
            next.cards,
            c,
            j,
            instr,
        ) implies done_or_ahead(next, tables, instr) by {
        assert(done_or_ahead(updater, tables, instr));
        if !is_done(tables, instr) {
            let q = choose|q: int|
                updater.pc <= q < updater.program.len() && #[trigger] updater.program[q] == instr;
            assert(next.program[q] == instr);
        }
    }
}

/// After the last row of a transaction is written, everything that was
/// done or to come is done.
proof fn lemma_all_done_at_end(updater: UpdaterView, tables: Tables)
    requires
        nothing_lost(updater, tables),
        updater.pc + 1 == updater.program.len(),
        is_done(tables, updater.instr()),
    ensures
        forall|i: int|
            0 <= i < seed_instrs().len() ==> is_done(tables, #[trigger] seed_instrs()[i]),
        forall|c: int, j: int, instr: InstrView|
            c < updater.next_card && #[trigger] is_instr_of(updater.cards, c, j, instr)
                ==> is_done(tables, instr),
{
    assert forall|i: int| 0 <= i < seed_instrs().len() implies is_done(
        tables,
        #[trigger] seed_instrs()[i],
    ) by {
        assert(done_or_ahead(updater, tables, seed_instrs()[i]));
    }
    assert forall|c: int, j: int, instr: InstrView|
        c < updater.next_card && #[trigger] is_instr_of(
            updater.cards,
            c,
            j,
            instr,
        ) implies is_done(tables, instr) by {
        assert(done_or_ahead(updater, tables, instr));
    }
}

/// When a batch is taken up after the transaction before it is written,
/// every row of the seeding and of the cards up to the end of the batch is
/// done or to come.
proof fn lemma_nothing_lost_loads(updater: UpdaterView, counted: UpdaterView, tables: Tables)
    requires
        updater.wf(),
        nothing_lost(updater, tables),
        updater.pc + 1 == updater.program.len(),
        is_done(tables, updater.instr()),
        updater.next_card < updater.cards.len(),
        counted.cards == updater.cards,
        counted.next_card == updater.next_card,
    ensures
        nothing_lost(counted.load_batch(), tables),
{
    let next = counted.load_batch();
    let from = updater.next_card as int;
    let to = counted.batch_end() as int;
    let cards = updater.cards;
    lemma_all_done_at_end(updater, tables);
    lemma_batch_valid(cards, from, to);
    assert forall|c: int, j: int, instr: InstrView|
        c < next.next_card && #[trigger] is_instr_of(
            next.cards,
            c,
            j,
            instr,
        ) implies done_or_ahead(next, tables, instr) by {
        if c >= from {
            lemma_card_in_cards_instrs(cards, from, to, c, j);
            let i = choose|i: int|
                0 <= i < cards_instrs(cards, from, to).len() && #[trigger] cards_instrs(
                    cards,
                    from,
                    to,
                )[i] == card_instrs_at(cards, c, j);
            assert(next.program[i + 1] == instr);
        }
    }
}

/// The `j`-th of the instructions that write the `c`-th card of a list.
pub open spec fn card_instrs_at(cards: Seq<CardView>, c: int, j: int) -> InstrView {
    card_instrs(cards[c], c as usize)[j]
}

/// A turn keeps a run on course.
pub proof fn lemma_turn_on_course(run: Run, choice: Choice)
    requires
        on_course(run),
    ensures
        on_course(turn(run, choice)),
        turn(run, choice).updater.cards == run.updater.cards,
{
    reveal(turn);
    let updater = run.updater;
    let tables = run.store.tables;
    let after = turn(run, choice);
    lemma_turn_in_step(run, choice);
    lemma_step_shape(updater, run.answer);
    lemma_seed_names_no_card();
    if clean(after.updater.failures) {
        lemma_failures_kept(updater, run.answer);
        assert(clean(updater.failures)) by {
            assert forall|i: int| 0 <= i < updater.failures.len() implies !((
            #[trigger] updater.failures[i]).operation is Store) by {
                assert(after.updater.failures[i] == updater.failures[i]);
            }
        }
        match readied(updater, run.answer) {
            Some(ready) => {
                lemma_readied_agrees(run);
                lemma_issue(ready, run.store, choice);
                if updater.stage == Stage::Fresh {
                    assert forall|i: int| 0 <= i < seed_instrs().len() implies done_or_ahead(
                        ready,
                        tables,
                        #[trigger] seed_instrs()[i],
                    ) by {
                        assert(ready.program[i] == seed_instrs()[i]);
                    }
                    assert(nothing_lost(ready, tables));
                } else if updater.stage == Stage::Writing {
                    if updater.pc + 1 < updater.program.len() {
                        lemma_nothing_lost_steps(updater, ready, tables);
                    } else {
                        let counted = if updater.instr() is Commit {
                            UpdaterView {
                                written: updater.written + updater.pending,
                                pending: 0,
                                ..updater
                            }
                        } else {
                            updater
                        };
                        lemma_nothing_lost_loads(updater, counted, tables);
                    }
                } else {
                    lemma_nothing_lost_grows(updater, ready, tables, tables);
                }
                assert(nothing_lost(ready, tables));
                lemma_nothing_lost_grows(ready, after.updater, tables, after.store.tables);
                lemma_write_done(ready, run.store, choice);
            },
            None => {
                let (next, action) = updater.step(run.answer);
                match action {
                    ActionView::Finish => {
                        if updater.stage == Stage::Writing {
                            lemma_all_done_at_end(updater, tables);
                        }
                    },
                    ActionView::Run(StatementView::SelectKeywordId { name }) => {
                        lemma_nothing_lost_grows(updater, next, tables, after.store.tables);
                    },
                    _ => {},
                }
            },
        }
    }
}

/// A step of the updater keeps the failures on record and adds to them; a
/// failure of the store is added where the step rolls back or ends the run
/// on a failure.
pub proof fn lemma_failures_kept(updater: UpdaterView, answer: Answer)
    requires
        updater.wf(),
    ensures
        updater.failures.len() <= updater.step(answer).0.failures.len(),
        forall|i: int|
            0 <= i < updater.failures.len() ==> updater.step(answer).0.failures[i]
                == updater.failures[i],
        updater.is_working() && readied(updater, answer) is None && !(updater.step(answer).1
            is Run && updater.step(answer).1->Run_0 is SelectKeywordId) && !(updater.stage
            == Stage::Writing && answer == Answer::Done) ==> !clean(
            updater.step(answer).0.failures,
        ),
{
    let next = updater.step(answer).0;
    if updater.is_working() && readied(updater, answer) is None && !(updater.step(answer).1
        is Run && updater.step(answer).1->Run_0 is SelectKeywordId) && !(updater.stage
        == Stage::Writing && answer == Answer::Done) {
        let last = next.failures.len() - 1;
        assert(next.failures[last].operation is Store);
    }
}

/// A run that ends without a failure of the store leaves every row of its
/// cards in the tables.
pub proof fn lemma_clean_run_settles(cards: Seq<CardView>, store: Store, choices: Seq<Choice>)
    requires
        cards.len() <= usize::MAX,
    ensures
        on_course(after(begun(cards, store), choices)),
        after(begun(cards, store), choices).updater.cards == cards,
        ({
            let end = after(begun(cards, store), choices);
            end.updater.stage == Stage::Finished && clean(end.updater.failures) ==> settled(
                end.store.tables,
                cards,
            )
        }),
    decreases choices.len(),
{
    if choices.len() > 0 {
        lemma_clean_run_settles(cards, store, choices.drop_last());
        lemma_turn_on_course(after(begun(cards, store), choices.drop_last()), choices.last());
    } else {
        lemma_run_in_step(cards, store, choices);
    }
}

/// Whether an instruction seeds a reference table.
pub open spec fn is_seed(instr: InstrView) -> bool {
    instr is SeedFormat || instr is SeedImageType
}

/// Whether the seeding and the cards keep apart: a transaction that seeds
/// writes no card, and a transaction that writes cards seeds nothing.
pub open spec fn kept_apart(updater: UpdaterView) -> bool {
    updater.is_working() ==> {
        ||| forall|q: int|
            0 <= q < updater.program.len() ==> (#[trigger] updater.program[q]).card() is None
        ||| forall|q: int| 0 <= q < updater.program.len() ==> !is_seed(#[trigger] updater.program[q])
    }
}

/// No instruction of a batch seeds a reference table.
pub proof fn lemma_batch_seeds_nothing(cards: Seq<CardView>, from: int, to: int)
    requires
        0 <= from <= to <= cards.len(),
        to <= usize::MAX,
    ensures
        forall|q: int|
            0 <= q < batch_instrs(cards, from, to).len() ==> !is_seed(
                #[trigger] batch_instrs(cards, from, to)[q],
            ),
{
    let batch = batch_instrs(cards, from, to);
    let middle = cards_instrs(cards, from, to);
    assert forall|q: int| 0 <= q < batch.len() implies !is_seed(#[trigger] batch[q]) by {
        if 0 < q < batch.len() - 1 {
            assert(batch[q] == middle[q - 1]);
            lemma_cards_instrs_about(cards, from, to, q - 1);
        }
    }
}

/// A step keeps the seeding and the cards apart.
pub proof fn lemma_step_kept_apart(updater: UpdaterView, answer: Answer)
    requires
        updater.wf(),
        kept_apart(updater),
    ensures
        kept_apart(updater.step(answer).0),
{
    lemma_step_shape(updater, answer);
    lemma_seed_names_no_card();
    if updater.is_working() && updater.next_card < updater.cards.len() {
        lemma_batch_seeds_nothing(
            updater.cards,
            updater.next_card as int,
            updater.batch_end() as int,
        );
    }
}

/// The reference tables are seeded before any card is written: whenever
/// the updater works on the row of a card in a run without a failure of
/// the store, every format and every image kind is in its table.
pub proof fn lemma_seeded_before_cards(cards: Seq<CardView>, store: Store, choices: Seq<Choice>)
    requires
        cards.len() <= usize::MAX,
    ensures
        kept_apart(after(begun(cards, store), choices).updater),
        ({
            let run = after(begun(cards, store), choices);
            run.updater.is_working() && clean(run.updater.failures) && run.updater.instr().card()
                is Some ==> forall|i: int|
                0 <= i < seed_instrs().len() ==> is_done(
                    run.store.tables,
                    #[trigger] seed_instrs()[i],
                )
        }),
    decreases choices.len(),
{
    let run = after(begun(cards, store), choices);
    lemma_clean_run_settles(cards, store, choices);
    if choices.len() > 0 {
        let before = after(begun(cards, store), choices.drop_last());
        lemma_seeded_before_cards(cards, store, choices.drop_last());
        lemma_run_in_step(cards, store, choices.drop_last());
        lemma_turn_steps(before, choices.last());
        lemma_step_kept_apart(before.updater, before.answer);
    }
    if run.updater.is_working() && clean(run.updater.failures) && run.updater.instr().card()
        is Some {
        lemma_run_in_step(cards, store, choices);
        assert forall|i: int| 0 <= i < seed_instrs().len() implies is_done(
            run.store.tables,
            #[trigger] seed_instrs()[i],
        ) by {
            let seed = seed_instrs()[i];
            assert(done_or_ahead(run.updater, run.store.tables, seed));
            if !is_done(run.store.tables, seed) {
                let q = choose|q: int|
                    run.updater.pc <= q < run.updater.program.len()
                        && #[trigger] run.updater.program[q] == seed;
                assert(is_seed(run.updater.program[q]));
                assert(run.updater.program[run.updater.pc as int].card() is Some);
            }
        }
    }
}

/// Idempotence: where a run over a list of cards ends without a failure of
/// the store, a second run over the same list changes nothing. The tables
/// are the same after the second run as after the first, and so is the
/// number of rows in each; this holds whatever the store chooses, and at
/// every turn of the second run.
pub proof fn lemma_ingestion_idempotent(
    cards: Seq<CardView>,
    store: Store,
    first: Seq<Choice>,
    second: Seq<Choice>,
)
    requires
        cards.len() <= usize::MAX,
        after(begun(cards, store), first).updater.stage == Stage::Finished,
        clean(after(begun(cards, store), first).updater.failures),
    ensures
        after(begun(cards, after(begun(cards, store), first).store), second).store.tables == after(
            begun(cards, store),
            first,
        ).store.tables,
{
    let once = after(begun(cards, store), first);
    lemma_clean_run_settles(cards, store, first);
    lemma_settled_run_changes_nothing(cards, once.store, second);
}

} // verus!
