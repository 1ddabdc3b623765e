//! The card filter: which records of the bulk export are left out before
//! ingestion.
//!
//! Left out are the oversized cards of the vanguard sets, playtest cards,
//! cards of retired platforms, art cards and tokens.

use crate::card::{flatten_all, flattened, flattened_all, views, CardView, ScryfallCard};
use crate::text::{contains, contains_text, text_eq, texts};
use crate::typeline::is_token_line;
use vstd::prelude::*;

verus! {

/// Whether a platform is one of the retired ones.
pub open spec fn is_retired_platform(game: Seq<char>) -> bool {
    game == "sega"@ || game == "astral"@
}

/// Whether a list of platforms names a retired one.
pub open spec fn names_retired_platform(games: Seq<Seq<char>>) -> bool {
    exists|i: int| 0 <= i < games.len() && is_retired_platform(#[trigger] games[i])
}

/// Whether a record is left out of ingestion.
pub open spec fn excluded(card: CardView) -> bool {
    ||| card.set_type == Some("vanguard"@)
    ||| card.set_name is Some && contains_text(card.set_name->0, "Mystery Booster Playtest"@)
    ||| card.games is Some && names_retired_platform(card.games->0)
    ||| card.type_line == Some("Card"@)
    ||| card.type_line is Some && is_token_line(card.type_line->0)
}

/// The records of a sequence that are not left out, in their order.
pub open spec fn kept(cards: Seq<ScryfallCard>) -> Seq<ScryfallCard>
    decreases cards.len(),
{
    if cards.len() == 0 {
        Seq::empty()
    } else if excluded(cards.last()@) {
        kept(cards.drop_last())
    } else {
        kept(cards.drop_last()).push(cards.last())
    }
}

fn lists_retired_platform(games: &Vec<String>) -> (b: bool)
    ensures
        b == names_retired_platform(texts(games@)),
{
    let mut i: usize = 0;
    while i < games.len()
        invariant
            i <= games.len(),
            forall|j: int| 0 <= j < i ==> !is_retired_platform(#[trigger] texts(games@)[j]),
        decreases games.len() - i,
    {
        let game = games[i].as_str();
        if text_eq(game, "sega") || text_eq(game, "astral") {
            assert(is_retired_platform(texts(games@)[i as int]));
            return true;
        }
        i += 1;
    }
    false
}

/// Whether a record goes on to ingestion.
pub fn card_filter(card: &ScryfallCard) -> (keep: bool)
    ensures
        keep == !excluded(card@),
{
    if let Some(set_type) = &card.set_type {
        if text_eq(set_type.as_str(), "vanguard") {
            return false;
        }
    }
    if let Some(set_name) = &card.set_name {
        if contains(set_name.as_str(), "Mystery Booster Playtest") {
            return false;
        }
    }
    if let Some(type_line) = &card.type_line {
        if text_eq(type_line.as_str(), "Card") {
            return false;
        }
    }
    if let Some(games) = &card.games {
        if lists_retired_platform(games) {
            return false;
        }
    }
    if let Some(type_line) = &card.type_line {
        if contains(type_line.as_str(), "Token") {
            return false;
        }
    }
    true
}

/// Drops the records that are left out of ingestion and keeps the others
/// in their order.
pub fn filter_cards(cards: Vec<ScryfallCard>) -> (out: Vec<ScryfallCard>)
    ensures
        out@ == kept(cards@),
{
    let ghost before = cards@;
    let mut out: Vec<ScryfallCard> = Vec::new();
    assert(before.take(0) =~= Seq::<ScryfallCard>::empty());
    for card in it: cards
        invariant
            it.seq() == before,
            out@ == kept(before.take(it.index() as int)),
    {
        proof {
            let done = before.take(it.index() as int);
            let next = before.take(it.index() + 1);
            assert(next.drop_last() =~= done);
            assert(next.last() == card);
        }
        if card_filter(&card) {
            out.push(card);
        }
    }
    assert(before.take(before.len() as int) =~= before);
    out
}

/// Readies the records of a bulk export for ingestion: drops those that are
/// left out, then flattens the others into one record per face.
pub fn prepare(cards: Vec<ScryfallCard>) -> (records: Vec<ScryfallCard>)
    ensures
        views(records@) == flattened_all(kept(cards@)),
{
    flatten_all(filter_cards(cards))
}

/// No record that is left out passes the filter, and every record that
/// passes it stood in the input.
pub proof fn lemma_kept_none_excluded(cards: Seq<ScryfallCard>, i: int)
    requires
        0 <= i < kept(cards).len(),
    ensures
        !excluded(kept(cards)[i]@),
        cards.contains(kept(cards)[i]),
    decreases cards.len(),
{
    if cards.len() > 0 {
        let rest = cards.drop_last();
        if i < kept(rest).len() {
            lemma_kept_none_excluded(rest, i);
            let j = choose|j: int| 0 <= j < rest.len() && rest[j] == kept(rest)[i];
            assert(cards[j] == kept(cards)[i]);
        } else {
            assert(cards[cards.len() - 1] == kept(cards)[i]);
        }
    }
}

/// Every record of a flattened list stems from a card of the list.
pub proof fn lemma_flattened_from_card(cards: Seq<ScryfallCard>, i: int)
    requires
        0 <= i < flattened_all(cards).len(),
    ensures
        exists|c: int|
            0 <= c < cards.len() && flattened(#[trigger] cards[c]).contains(
                flattened_all(cards)[i],
            ),
    decreases cards.len(),
{
    if cards.len() > 0 {
        let rest = cards.drop_last();
        let last = cards.last();
        if i < flattened_all(rest).len() {
            lemma_flattened_from_card(rest, i);
            let c = choose|c: int|
                0 <= c < rest.len() && flattened(#[trigger] rest[c]).contains(
                    flattened_all(rest)[i],
                );
            assert(cards[c] == rest[c]);
        } else {
            let k = i - flattened_all(rest).len();
            assert(flattened(last)[k] == flattened_all(cards)[i]);
            assert(cards[cards.len() - 1] == last);
        }
    }
}

/// What is excluded never reaches ingestion: every record that `prepare`
/// hands on is a card of the export, or a face of one, that the filter
/// lets pass.
pub proof fn lemma_prepared_from_kept(cards: Seq<ScryfallCard>, i: int)
    requires
        0 <= i < flattened_all(kept(cards)).len(),
    ensures
        exists|card: ScryfallCard|
            cards.contains(card) && !excluded(card@) && #[trigger] flattened(card).contains(
                flattened_all(kept(cards))[i],
            ),
{
    let passed = kept(cards);
    lemma_flattened_from_card(passed, i);
    let c = choose|c: int|
        0 <= c < passed.len() && flattened(#[trigger] passed[c]).contains(
            flattened_all(passed)[i],
        );
    lemma_kept_none_excluded(cards, c);
    assert(flattened(passed[c]).contains(flattened_all(passed)[i]));
}

/// A record of a vanguard set, and a record whose type line is exactly
/// `Card`, are left out whatever else they hold.
pub proof fn lemma_vanguard_and_art_cards_excluded(card: CardView)
    ensures
        card.set_type == Some("vanguard"@) ==> excluded(card),
        card.type_line == Some("Card"@) ==> excluded(card),
{
}

} // verus!
