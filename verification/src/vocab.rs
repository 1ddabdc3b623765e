//! The fixed vocabularies of the catalog: competitive formats, legality
//! statuses and image kinds, each with the name the store keeps it under.

use vstd::prelude::*;

verus! {

/// A competitive format.
#[derive(Debug, Copy, Clone, PartialEq, Eq, Structural, PartialOrd, Ord, Hash)]
pub enum Format {
    Standard,
    Future,
    Historic,
    Timeless,
    Gladiator,
    Pioneer,
    Explorer,
    Modern,
    Legacy,
    Pauper,
    Vintage,
    Penny,
    Commander,
    Oathbreaker,
    StandardBrawl,
    Brawl,
    Alchemy,
    PauperCommander,
    Duel,
    Oldschool,
    Premodern,
    Predh,
}

impl Format {
    /// The name under which the store knows this value.
    pub open spec fn spec_name(self) -> Seq<char> {
        match self {
            Format::Standard => "standard"@,
            Format::Future => "future"@,
            Format::Historic => "historic"@,
            Format::Timeless => "timeless"@,
            Format::Gladiator => "gladiator"@,
            Format::Pioneer => "pioneer"@,
            Format::Explorer => "explorer"@,
            Format::Modern => "modern"@,
            Format::Legacy => "legacy"@,
            Format::Pauper => "pauper"@,
            Format::Vintage => "vintage"@,
            Format::Penny => "penny"@,
            Format::Commander => "commander"@,
            Format::Oathbreaker => "oathbreaker"@,
            Format::StandardBrawl => "standardbrawl"@,
            Format::Brawl => "brawl"@,
            Format::Alchemy => "alchemy"@,
            Format::PauperCommander => "paupercommander"@,
            Format::Duel => "duel"@,
            Format::Oldschool => "oldschool"@,
            Format::Premodern => "premodern"@,
            Format::Predh => "predh"@,
        }
    }

    /// The name under which the store knows this value.
    pub fn name(self) -> (name: &'static str)
        ensures
            name@ == self.spec_name(),
    {
        match self {
            Format::Standard => "standard",
            Format::Future => "future",
            Format::Historic => "historic",
            Format::Timeless => "timeless",
            Format::Gladiator => "gladiator",
            Format::Pioneer => "pioneer",
            Format::Explorer => "explorer",
            Format::Modern => "modern",
            Format::Legacy => "legacy",
            Format::Pauper => "pauper",
            Format::Vintage => "vintage",
            Format::Penny => "penny",
            Format::Commander => "commander",
            Format::Oathbreaker => "oathbreaker",
            Format::StandardBrawl => "standardbrawl",
            Format::Brawl => "brawl",
            Format::Alchemy => "alchemy",
            Format::PauperCommander => "paupercommander",
            Format::Duel => "duel",
            Format::Oldschool => "oldschool",
            Format::Premodern => "premodern",
            Format::Predh => "predh",
        }
    }

    /// Every format, in the order in which the reference table is seeded.
    pub open spec fn spec_all() -> Seq<Format> {
        seq![
            Format::Modern,
            Format::StandardBrawl,
            Format::Oathbreaker,
            Format::Commander,
            Format::Penny,
            Format::Brawl,
            Format::PauperCommander,
            Format::Alchemy,
            Format::Premodern,
            Format::Predh,
            Format::Oldschool,
            Format::Vintage,
            Format::Legacy,
            Format::Historic,
            Format::Future,
            Format::Standard,
            Format::Pauper,
            Format::Timeless,
            Format::Pioneer,
            Format::Gladiator,
            Format::Explorer,
            Format::Duel,
        ]
    }

    /// Every format, in the order in which the reference table is seeded.
    pub fn all() -> (formats: Vec<Format>)
        ensures
            formats@ == Self::spec_all(),
    {
        let formats = vec![
            Format::Modern,
            Format::StandardBrawl,
            Format::Oathbreaker,
            Format::Commander,
            Format::Penny,
            Format::Brawl,
            Format::PauperCommander,
            Format::Alchemy,
            Format::Premodern,
            Format::Predh,
            Format::Oldschool,
            Format::Vintage,
            Format::Legacy,
            Format::Historic,
            Format::Future,
            Format::Standard,
            Format::Pauper,
            Format::Timeless,
            Format::Pioneer,
            Format::Gladiator,
            Format::Explorer,
            Format::Duel,
        ];
        assert(formats@ =~= Self::spec_all());
        formats
    }
}

/// Whether a card may be played in a format.
#[derive(Debug, Copy, Clone, PartialEq, Eq, Structural, PartialOrd, Ord, Hash)]
pub enum Legality {
    Legal,
    NotLegal,
    Banned,
    Restricted,
}

impl Legality {
    /// The name under which the store knows this value.
    pub open spec fn spec_name(self) -> Seq<char> {
        match self {
            Legality::Legal => "legal"@,
            Legality::NotLegal => "not_legal"@,
            Legality::Banned => "banned"@,
            Legality::Restricted => "restricted"@,
        }
    }

    /// The name under which the store knows this value.
    pub fn name(self) -> (name: &'static str)
        ensures
            name@ == self.spec_name(),
    {
        match self {
            Legality::Legal => "legal",
            Legality::NotLegal => "not_legal",
            Legality::Banned => "banned",
            Legality::Restricted => "restricted",
        }
    }
}

/// A resolution or crop in which a card's image is offered.
#[derive(Debug, Copy, Clone, PartialEq, Eq, Structural, PartialOrd, Ord, Hash)]
pub enum ImageKind {
    ArtCrop,
    Png,
    Normal,
    Large,
    Small,
    BorderCrop,
}

impl ImageKind {
    /// The name under which the store knows this value.
    pub open spec fn spec_name(self) -> Seq<char> {
        match self {
            ImageKind::ArtCrop => "art_crop"@,
            ImageKind::Png => "png"@,
            ImageKind::Normal => "normal"@,
            ImageKind::Large => "large"@,
            ImageKind::Small => "small"@,
            ImageKind::BorderCrop => "border_crop"@,
        }
    }

    /// The name under which the store knows this value.
    pub fn name(self) -> (name: &'static str)
        ensures
            name@ == self.spec_name(),
    {
        match self {
            ImageKind::ArtCrop => "art_crop",
            ImageKind::Png => "png",
            ImageKind::Normal => "normal",
            ImageKind::Large => "large",
            ImageKind::Small => "small",
            ImageKind::BorderCrop => "border_crop",
        }
    }

    /// Every image kind, in the order in which the reference table is
    /// seeded and a card's images are written.
    pub open spec fn spec_all() -> Seq<ImageKind> {
        seq![
            ImageKind::ArtCrop,
            ImageKind::Png,
            ImageKind::Normal,
            ImageKind::Large,
            ImageKind::Small,
            ImageKind::BorderCrop,
        ]
    }

    /// Every image kind, in the order in which the reference table is
    /// seeded and a card's images are written.
    pub fn all() -> (kinds: Vec<ImageKind>)
        ensures
            kinds@ == Self::spec_all(),
    {
        let kinds = vec![
            ImageKind::ArtCrop,
            ImageKind::Png,
            ImageKind::Normal,
            ImageKind::Large,
            ImageKind::Small,
            ImageKind::BorderCrop,
        ];
        assert(kinds@ =~= Self::spec_all());
        kinds
    }
}

/// The seeding order leaves no format out.
pub proof fn lemma_all_formats_complete(format: Format)
    ensures
        Format::spec_all().contains(format),
{
    let all = Format::spec_all();
    let at: int = match format {
        Format::Modern => 0,
        Format::StandardBrawl => 1,
        Format::Oathbreaker => 2,
        Format::Commander => 3,
        Format::Penny => 4,
        Format::Brawl => 5,
        Format::PauperCommander => 6,
        Format::Alchemy => 7,
        Format::Premodern => 8,
        Format::Predh => 9,
        Format::Oldschool => 10,
        Format::Vintage => 11,
        Format::Legacy => 12,
        Format::Historic => 13,
        Format::Future => 14,
        Format::Standard => 15,
        Format::Pauper => 16,
        Format::Timeless => 17,
        Format::Pioneer => 18,
        Format::Gladiator => 19,
        Format::Explorer => 20,
        Format::Duel => 21,
    };
    assert(all[at] == format);
}

/// The seeding order leaves no image kind out.
pub proof fn lemma_all_image_kinds_complete(kind: ImageKind)
    ensures
        ImageKind::spec_all().contains(kind),
{
    let all = ImageKind::spec_all();
    let at: int = match kind {
        ImageKind::ArtCrop => 0,
        ImageKind::Png => 1,
        ImageKind::Normal => 2,
        ImageKind::Large => 3,
        ImageKind::Small => 4,
        ImageKind::BorderCrop => 5,
    };
    assert(all[at] == kind);
}

/// No two formats share a name, so each has a row of its own in the
/// reference table.
pub proof fn lemma_format_names_differ(a: Format, b: Format)
    requires
        a != b,
    ensures
        a.spec_name() != b.spec_name(),
{
    reveal_strlit("standard");
    reveal_strlit("future");
    reveal_strlit("historic");
    reveal_strlit("timeless");
    reveal_strlit("gladiator");
    reveal_strlit("pioneer");
    reveal_strlit("explorer");
    reveal_strlit("modern");
    reveal_strlit("legacy");
    reveal_strlit("pauper");
    reveal_strlit("vintage");
    reveal_strlit("penny");
    reveal_strlit("commander");
    reveal_strlit("oathbreaker");
    reveal_strlit("standardbrawl");
    reveal_strlit("brawl");
    reveal_strlit("alchemy");
    reveal_strlit("paupercommander");
    reveal_strlit("duel");
    reveal_strlit("oldschool");
    reveal_strlit("premodern");
    reveal_strlit("predh");
    let x = a.spec_name();
    let y = b.spec_name();
    assert(x.len() != y.len() || x[0] != y[0] || x.last() != y.last());
}

/// No two image kinds share a name.
pub proof fn lemma_image_kind_names_differ(a: ImageKind, b: ImageKind)
    requires
        a != b,
    ensures
        a.spec_name() != b.spec_name(),
{
    reveal_strlit("art_crop");
    reveal_strlit("png");
    reveal_strlit("normal");
    reveal_strlit("large");
    reveal_strlit("small");
    reveal_strlit("border_crop");
    let x = a.spec_name();
    let y = b.spec_name();
    assert(x.len() != y.len() || x[0] != y[0]);
}

/// No two legality statuses share a name.
pub proof fn lemma_legality_names_differ(a: Legality, b: Legality)
    requires
        a != b,
    ensures
        a.spec_name() != b.spec_name(),
{
    reveal_strlit("legal");
    reveal_strlit("not_legal");
    reveal_strlit("banned");
    reveal_strlit("restricted");
    let x = a.spec_name();
    let y = b.spec_name();
    assert(x[0] != y[0]);
}

} // verus!
