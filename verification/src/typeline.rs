//! The type-line parser: from the printed taxonomy line of a card to its
//! supertype, its main types and its subtypes.
//!
//! A line reads like `Legendary Creature`, a long dash, `Elf Druid`. What
//! stands before the dash names the supertype, if the first word is one,
//! and the main types; what stands after it names the subtypes. Tokens are
//! no true cards: a line that holds `Token` yields nothing.

use crate::card::{opt_slice_text, ScryfallCard};
use crate::text::{
    chars_of, contains_text, find_chars, first_occurrence, slice_texts, split_words, text_eq,
    words,
};
use vstd::prelude::*;

verus! {

/// What separates the main types from the subtypes: a long dash with a
/// space on either side.
pub open spec fn delimiter() -> Seq<char> {
    " \u{2014} "@
}

/// The mark of a token.
pub open spec fn token_mark() -> Seq<char> {
    "Token"@
}

/// Whether a word is one of the supertypes.
pub open spec fn is_supertype(word: Seq<char>) -> bool {
    ||| word == "Legendary"@
    ||| word == "Basic"@
    ||| word == "Ongoing"@
    ||| word == "Snow"@
    ||| word == "World"@
    ||| word == "Hero"@
    ||| word == "Elite"@
}

/// Whether a line is that of a token.
pub open spec fn is_token_line(line: Seq<char>) -> bool {
    contains_text(line, token_mark())
}

/// The part of a line that names supertype and main types: what stands
/// before the first delimiter, or the whole line where there is none.
pub open spec fn head_of(line: Seq<char>) -> Seq<char> {
    match first_occurrence(line, delimiter()) {
        Some(at) => line.take(at),
        None => line,
    }
}

/// The part of a line that names the subtypes: what stands after the first
/// delimiter, if there is one.
pub open spec fn tail_of(line: Seq<char>) -> Option<Seq<char>> {
    match first_occurrence(line, delimiter()) {
        Some(at) => Some(line.skip(at + delimiter().len())),
        None => None,
    }
}

/// The taxonomy of a card, as text.
pub struct TypeLineView {
    pub supertype: Option<Seq<char>>,
    pub main_types: Seq<Seq<char>>,
    pub subtypes: Seq<Seq<char>>,
}

/// The taxonomy that a type line states.
pub open spec fn parsed(line: Seq<char>) -> TypeLineView {
    if is_token_line(line) {
        TypeLineView { supertype: None, main_types: Seq::empty(), subtypes: Seq::empty() }
    } else {
        let head = words(head_of(line));
        let subtypes = match tail_of(line) {
            Some(tail) => words(tail),
            None => Seq::empty(),
        };
        if head.len() > 0 && is_supertype(head[0]) {
            TypeLineView { supertype: Some(head[0]), main_types: head.skip(1), subtypes }
        } else {
            TypeLineView { supertype: None, main_types: head, subtypes }
        }
    }
}

/// The taxonomy of a card, in slices of its type line.
#[derive(Debug)]
pub struct TypeLine<'a> {
    pub supertype: Option<&'a str>,
    pub main_types: Vec<&'a str>,
    pub subtypes: Vec<&'a str>,
}

impl<'a> View for TypeLine<'a> {
    type V = TypeLineView;

    open spec fn view(&self) -> TypeLineView {
        TypeLineView {
            supertype: opt_slice_text(self.supertype),
            main_types: slice_texts(self.main_types@),
            subtypes: slice_texts(self.subtypes@),
        }
    }
}

/// The texts of an optional list of slices; none is the empty list.
pub open spec fn listed(list: Option<Vec<&str>>) -> Seq<Seq<char>> {
    match list {
        Some(v) => slice_texts(v@),
        None => Seq::empty(),
    }
}

fn is_supertype_word(word: &str) -> (b: bool)
    ensures
        b == is_supertype(word@),
{
    text_eq(word, "Legendary") || text_eq(word, "Basic") || text_eq(word, "Ongoing") || text_eq(
        word,
        "Snow",
    ) || text_eq(word, "World") || text_eq(word, "Hero") || text_eq(word, "Elite")
}

/// Splits a type line into supertype, main types and subtypes.
///
/// The main types are absent for a token line, and the subtypes are absent
/// for a token line and for a line without delimiter.
pub fn split_type_line<'a>(line: &'a str) -> (parts: (
    Option<&'a str>,
    Option<Vec<&'a str>>,
    Option<Vec<&'a str>>,
))
    ensures
        opt_slice_text(parts.0) == parsed(line@).supertype,
        listed(parts.1) == parsed(line@).main_types,
        listed(parts.2) == parsed(line@).subtypes,
        parts.1 is Some <==> !is_token_line(line@),
        parts.2 is Some <==> !is_token_line(line@) && tail_of(line@) is Some,
{
    let chars = chars_of(line);
    let mark = chars_of("Token");
    if find_chars(&chars, &mark).is_some() {
        return (None, None, None);
    }
    let dash = chars_of(" \u{2014} ");
    let found = find_chars(&chars, &dash);
    let head_end: usize = match found {
        Some(at) => at,
        None => chars.len(),
    };
    assert(line@.subrange(0, head_end as int) =~= head_of(line@));
    let mut head = split_words(line, &chars, 0, head_end);
    let subtypes = match found {
        Some(at) => {
            assert(line@.subrange(at + dash.len(), chars.len() as int) =~= tail_of(line@)->0);
            Some(split_words(line, &chars, at + dash.len(), chars.len()))
        },
        None => None,
    };
    if head.len() > 0 && is_supertype_word(head[0]) {
        let ghost all = head@;
        let first = head.remove(0);
        assert(slice_texts(head@) =~= slice_texts(all).skip(1));
        (Some(first), Some(head), subtypes)
    } else {
        (None, Some(head), subtypes)
    }
}

/// Parses a type line into the taxonomy it states.
pub fn parse_type_line<'a>(line: &'a str) -> (taxonomy: TypeLine<'a>)
    ensures
        taxonomy@ == parsed(line@),
{
    let (supertype, main_types, subtypes) = split_type_line(line);
    let main_types = match main_types {
        Some(list) => list,
        None => Vec::new(),
    };
    let subtypes = match subtypes {
        Some(list) => list,
        None => Vec::new(),
    };
    assert(slice_texts(Seq::<&str>::empty()) =~= Seq::<Seq<char>>::empty());
    TypeLine { supertype, main_types, subtypes }
}

impl ScryfallCard {
    /// The taxonomy that the card's type line states: supertype, main types
    /// and subtypes. A card without type line has none of the three.
    pub fn extract_types(&self) -> (parts: (Option<&str>, Option<Vec<&str>>, Option<Vec<&str>>))
        ensures
            match self@.type_line {
                Some(line) => {
                    &&& opt_slice_text(parts.0) == parsed(line).supertype
                    &&& listed(parts.1) == parsed(line).main_types
                    &&& listed(parts.2) == parsed(line).subtypes
                    &&& parts.1 is Some <==> !is_token_line(line)
                    &&& parts.2 is Some <==> !is_token_line(line) && tail_of(line) is Some
                },
                None => parts.0 is None && parts.1 is None && parts.2 is None,
            },
    {
        match &self.type_line {
            Some(line) => split_type_line(line.as_str()),
            None => (None, None, None),
        }
    }
}

} // verus!
