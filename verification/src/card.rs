//! Raw card records, and their flattening into one record per face.
//!
//! A record of the bulk export leaves out whatever does not apply, so every
//! field is optional. A card with several faces nests one record per face;
//! a face leaves out what it shares with the card as a whole and inherits
//! it when the card is flattened.

use crate::text::{copy_text, text_eq, texts};
use crate::vocab::{Format, ImageKind, Legality};
use vstd::prelude::*;

verus! {

/// The text of an optional string.
pub open spec fn opt_text(field: Option<String>) -> Option<Seq<char>> {
    match field {
        Some(s) => Some(s@),
        None => None,
    }
}

/// The text of an optional string slice.
pub open spec fn opt_slice_text(field: Option<&str>) -> Option<Seq<char>> {
    match field {
        Some(s) => Some(s@),
        None => None,
    }
}

/// The texts of an optional list of strings.
pub open spec fn opt_texts(field: Option<Vec<String>>) -> Option<Seq<Seq<char>>> {
    match field {
        Some(v) => Some(texts(v@)),
        None => None,
    }
}

/// The entries of an optional list of legalities.
pub open spec fn opt_pairs(field: Option<Vec<(Format, Legality)>>) -> Option<
    Seq<(Format, Legality)>,
> {
    match field {
        Some(v) => Some(v@),
        None => None,
    }
}

/// The view of an optional set of image addresses.
pub open spec fn opt_images(field: Option<ImageUris>) -> Option<ImageUrisView> {
    match field {
        Some(uris) => Some(uris@),
        None => None,
    }
}

/// The addresses of a card's images, one per kind on offer.
#[derive(Debug)]
pub struct ImageUris {
    pub art_crop: Option<String>,
    pub png: Option<String>,
    pub normal: Option<String>,
    pub large: Option<String>,
    pub small: Option<String>,
    pub border_crop: Option<String>,
}

/// What an `ImageUris` holds, as text.
pub struct ImageUrisView {
    pub art_crop: Option<Seq<char>>,
    pub png: Option<Seq<char>>,
    pub normal: Option<Seq<char>>,
    pub large: Option<Seq<char>>,
    pub small: Option<Seq<char>>,
    pub border_crop: Option<Seq<char>>,
}

impl ImageUrisView {
    /// The address on offer for an image kind.
    pub open spec fn uri(self, kind: ImageKind) -> Option<Seq<char>> {
        match kind {
            ImageKind::ArtCrop => self.art_crop,
            ImageKind::Png => self.png,
            ImageKind::Normal => self.normal,
            ImageKind::Large => self.large,
            ImageKind::Small => self.small,
            ImageKind::BorderCrop => self.border_crop,
        }
    }
}

impl View for ImageUris {
    type V = ImageUrisView;

    open spec fn view(&self) -> ImageUrisView {
        ImageUrisView {
            art_crop: opt_text(self.art_crop),
            png: opt_text(self.png),
            normal: opt_text(self.normal),
            large: opt_text(self.large),
            small: opt_text(self.small),
            border_crop: opt_text(self.border_crop),
        }
    }
}

impl ImageUris {
    /// The address on offer for an image kind.
    pub fn uri(&self, kind: ImageKind) -> (uri: Option<&str>)
        ensures
            opt_slice_text(uri) == self@.uri(kind),
    {
        let field = match kind {
            ImageKind::ArtCrop => &self.art_crop,
            ImageKind::Png => &self.png,
            ImageKind::Normal => &self.normal,
            ImageKind::Large => &self.large,
            ImageKind::Small => &self.small,
            ImageKind::BorderCrop => &self.border_crop,
        };
        match field {
            Some(s) => Some(s.as_str()),
            None => None,
        }
    }

    /// A copy that holds the same addresses.
    pub fn duplicate(&self) -> (copy: ImageUris)
        ensures
            copy@ == self@,
    {
        ImageUris {
            art_crop: copy_text(&self.art_crop),
            png: copy_text(&self.png),
            normal: copy_text(&self.normal),
            large: copy_text(&self.large),
            small: copy_text(&self.small),
            border_crop: copy_text(&self.border_crop),
        }
    }
}

impl Default for ImageUris {
    fn default() -> (uris: ImageUris)
        ensures
            uris.art_crop is None,
            uris.png is None,
            uris.normal is None,
            uris.large is None,
            uris.small is None,
            uris.border_crop is None,
    {
        ImageUris {
            art_crop: None,
            png: None,
            normal: None,
            large: None,
            small: None,
            border_crop: None,
        }
    }
}

/// A record of the bulk export: a card, or one face of a card.
#[derive(Debug)]
pub struct ScryfallCard {
    /// The catalog's identifier of the card, stable across exports.
    pub id: Option<String>,
    /// The kind of object the record describes.
    pub object: Option<String>,
    pub name: Option<String>,
    pub color_indicator: Option<Vec<String>>,
    pub loyalty: Option<String>,
    /// The card's status in each format the record lists, as (format, status) pairs.
    pub legalities: Option<Vec<(Format, Legality)>>,
    pub artist: Option<String>,
    pub oracle_id: Option<String>,
    /// The printed taxonomy line, such as "Legendary Creature", a dash and "Elf Druid".
    pub type_line: Option<String>,
    pub defense: Option<String>,
    pub lang: Option<String>,
    /// The faces of a card that has several; each is a record of its own.
    pub card_faces: Option<Vec<ScryfallCard>>,
    pub content_warning: Option<bool>,
    /// The mana value: the bit pattern of a 32-bit float.
    pub cmc: Option<u32>,
    pub image_status: Option<String>,
    pub flavor_text: Option<String>,
    pub arena_id: Option<i32>,
    pub illustration_id: Option<String>,
    pub oracle_text: Option<String>,
    pub colors: Option<Vec<String>>,
    pub color_identity: Option<Vec<String>>,
    pub produced_mana: Option<Vec<String>>,
    pub rarity: Option<String>,
    pub power: Option<String>,
    pub set_name: Option<String>,
    pub penny_rank: Option<i32>,
    pub variation: Option<bool>,
    pub set_id: Option<String>,
    pub toughness: Option<String>,
    pub mtgo_id: Option<i32>,
    pub booster: Option<bool>,
    pub border_color: Option<String>,
    pub foil: Option<bool>,
    pub set_type: Option<String>,
    pub nonfoil: Option<bool>,
    pub game_changer: Option<bool>,
    pub reprint: Option<bool>,
    pub layout: Option<String>,
    pub reserved: Option<bool>,
    pub digital: Option<bool>,
    pub set: Option<String>,
    pub keywords: Option<Vec<String>>,
    pub highres_image: Option<bool>,
    pub mana_cost: Option<String>,
    pub image_uris: Option<ImageUris>,
    /// The platforms on which the card exists.
    pub games: Option<Vec<String>>,
    pub promo: Option<bool>,
}

/// What a record holds of its own, as text and plain values. The faces are
/// records of their own and are not part of it.
pub struct CardView {
    pub id: Option<Seq<char>>,
    pub object: Option<Seq<char>>,
    pub name: Option<Seq<char>>,
    pub color_indicator: Option<Seq<Seq<char>>>,
    pub loyalty: Option<Seq<char>>,
    pub legalities: Option<Seq<(Format, Legality)>>,
    pub artist: Option<Seq<char>>,
    pub oracle_id: Option<Seq<char>>,
    pub type_line: Option<Seq<char>>,
    pub defense: Option<Seq<char>>,
    pub lang: Option<Seq<char>>,
    pub content_warning: Option<bool>,
    pub cmc: Option<u32>,
    pub image_status: Option<Seq<char>>,
    pub flavor_text: Option<Seq<char>>,
    pub arena_id: Option<i32>,
    pub illustration_id: Option<Seq<char>>,
    pub oracle_text: Option<Seq<char>>,
    pub colors: Option<Seq<Seq<char>>>,
    pub color_identity: Option<Seq<Seq<char>>>,
    pub produced_mana: Option<Seq<Seq<char>>>,
    pub rarity: Option<Seq<char>>,
    pub power: Option<Seq<char>>,
    pub set_name: Option<Seq<char>>,
    pub penny_rank: Option<i32>,
    pub variation: Option<bool>,
    pub set_id: Option<Seq<char>>,
    pub toughness: Option<Seq<char>>,
    pub mtgo_id: Option<i32>,
    pub booster: Option<bool>,
    pub border_color: Option<Seq<char>>,
    pub foil: Option<bool>,
    pub set_type: Option<Seq<char>>,
    pub nonfoil: Option<bool>,
    pub game_changer: Option<bool>,
    pub reprint: Option<bool>,
    pub layout: Option<Seq<char>>,
    pub reserved: Option<bool>,
    pub digital: Option<bool>,
    pub set: Option<Seq<char>>,
    pub keywords: Option<Seq<Seq<char>>>,
    pub highres_image: Option<bool>,
    pub mana_cost: Option<Seq<char>>,
    pub image_uris: Option<ImageUrisView>,
    pub games: Option<Seq<Seq<char>>>,
    pub promo: Option<bool>,
}

impl View for ScryfallCard {
    type V = CardView;

    open spec fn view(&self) -> CardView {
        CardView {
            id: opt_text(self.id),
            object: opt_text(self.object),
            name: opt_text(self.name),
            color_indicator: opt_texts(self.color_indicator),
            loyalty: opt_text(self.loyalty),
            legalities: opt_pairs(self.legalities),
            artist: opt_text(self.artist),
            oracle_id: opt_text(self.oracle_id),
            type_line: opt_text(self.type_line),
            defense: opt_text(self.defense),
            lang: opt_text(self.lang),
            content_warning: self.content_warning,
            cmc: self.cmc,
            image_status: opt_text(self.image_status),
            flavor_text: opt_text(self.flavor_text),
            arena_id: self.arena_id,
            illustration_id: opt_text(self.illustration_id),
            oracle_text: opt_text(self.oracle_text),
            colors: opt_texts(self.colors),
            color_identity: opt_texts(self.color_identity),
            produced_mana: opt_texts(self.produced_mana),
            rarity: opt_text(self.rarity),
            power: opt_text(self.power),
            set_name: opt_text(self.set_name),
            penny_rank: self.penny_rank,
            variation: self.variation,
            set_id: opt_text(self.set_id),
            toughness: opt_text(self.toughness),
            mtgo_id: self.mtgo_id,
            booster: self.booster,
            border_color: opt_text(self.border_color),
            foil: self.foil,
            set_type: opt_text(self.set_type),
            nonfoil: self.nonfoil,
            game_changer: self.game_changer,
            reprint: self.reprint,
            layout: opt_text(self.layout),
            reserved: self.reserved,
            digital: self.digital,
            set: opt_text(self.set),
            keywords: opt_texts(self.keywords),
            highres_image: self.highres_image,
            mana_cost: opt_text(self.mana_cost),
            image_uris: opt_images(self.image_uris),
            games: opt_texts(self.games),
            promo: self.promo,
        }
    }
}

impl Default for ScryfallCard {
    /// A record that holds nothing.
    fn default() -> (card: ScryfallCard)
        ensures
            card@ == CardView::empty(),
            card.card_faces is None,
    {
        ScryfallCard {
            id: None,
            object: None,
            name: None,
            color_indicator: None,
            loyalty: None,
            legalities: None,
            artist: None,
            oracle_id: None,
            type_line: None,
            defense: None,
            lang: None,
            card_faces: None,
            content_warning: None,
            cmc: None,
            image_status: None,
            flavor_text: None,
            arena_id: None,
            illustration_id: None,
            oracle_text: None,
            colors: None,
            color_identity: None,
            produced_mana: None,
            rarity: None,
            power: None,
            set_name: None,
            penny_rank: None,
            variation: None,
            set_id: None,
            toughness: None,
            mtgo_id: None,
            booster: None,
            border_color: None,
            foil: None,
            set_type: None,
            nonfoil: None,
            game_changer: None,
            reprint: None,
            layout: None,
            reserved: None,
            digital: None,
            set: None,
            keywords: None,
            highres_image: None,
            mana_cost: None,
            image_uris: None,
            games: None,
            promo: None,
        }
    }
}

impl CardView {
    /// The view of a record that holds nothing.
    pub open spec fn empty() -> CardView {
        CardView {
            id: None,
            object: None,
            name: None,
            color_indicator: None,
            loyalty: None,
            legalities: None,
            artist: None,
            oracle_id: None,
            type_line: None,
            defense: None,
            lang: None,
            content_warning: None,
            cmc: None,
            image_status: None,
            flavor_text: None,
            arena_id: None,
            illustration_id: None,
            oracle_text: None,
            colors: None,
            color_identity: None,
            produced_mana: None,
            rarity: None,
            power: None,
            set_name: None,
            penny_rank: None,
            variation: None,
            set_id: None,
            toughness: None,
            mtgo_id: None,
            booster: None,
            border_color: None,
            foil: None,
            set_type: None,
            nonfoil: None,
            game_changer: None,
            reprint: None,
            layout: None,
            reserved: None,
            digital: None,
            set: None,
            keywords: None,
            highres_image: None,
            mana_cost: None,
            image_uris: None,
            games: None,
            promo: None,
        }
    }
}

/// A field after inheritance: the face's own value where it has one, else
/// the parent's.
pub open spec fn fill<T>(child: Option<T>, parent: Option<T>) -> Option<T> {
    if child is Some {
        child
    } else {
        parent
    }
}

/// A face after inheritance: every field it leaves unset is taken from the
/// parent, every field it sets is kept.
pub open spec fn merged(child: CardView, parent: CardView) -> CardView {
    CardView {
        id: fill(child.id, parent.id),
        object: fill(child.object, parent.object),
        name: fill(child.name, parent.name),
        color_indicator: fill(child.color_indicator, parent.color_indicator),
        loyalty: fill(child.loyalty, parent.loyalty),
        legalities: fill(child.legalities, parent.legalities),
        artist: fill(child.artist, parent.artist),
        oracle_id: fill(child.oracle_id, parent.oracle_id),
        type_line: fill(child.type_line, parent.type_line),
        defense: fill(child.defense, parent.defense),
        lang: fill(child.lang, parent.lang),
        content_warning: fill(child.content_warning, parent.content_warning),
        cmc: fill(child.cmc, parent.cmc),
        image_status: fill(child.image_status, parent.image_status),
        flavor_text: fill(child.flavor_text, parent.flavor_text),
        arena_id: fill(child.arena_id, parent.arena_id),
        illustration_id: fill(child.illustration_id, parent.illustration_id),
        oracle_text: fill(child.oracle_text, parent.oracle_text),
        colors: fill(child.colors, parent.colors),
        color_identity: fill(child.color_identity, parent.color_identity),
        produced_mana: fill(child.produced_mana, parent.produced_mana),
        rarity: fill(child.rarity, parent.rarity),
        power: fill(child.power, parent.power),
        set_name: fill(child.set_name, parent.set_name),
        penny_rank: fill(child.penny_rank, parent.penny_rank),
        variation: fill(child.variation, parent.variation),
        set_id: fill(child.set_id, parent.set_id),
        toughness: fill(child.toughness, parent.toughness),
        mtgo_id: fill(child.mtgo_id, parent.mtgo_id),
        booster: fill(child.booster, parent.booster),
        border_color: fill(child.border_color, parent.border_color),
        foil: fill(child.foil, parent.foil),
        set_type: fill(child.set_type, parent.set_type),
        nonfoil: fill(child.nonfoil, parent.nonfoil),
        game_changer: fill(child.game_changer, parent.game_changer),
        reprint: fill(child.reprint, parent.reprint),
        layout: fill(child.layout, parent.layout),
        reserved: fill(child.reserved, parent.reserved),
        digital: fill(child.digital, parent.digital),
        set: fill(child.set, parent.set),
        keywords: fill(child.keywords, parent.keywords),
        highres_image: fill(child.highres_image, parent.highres_image),
        mana_cost: fill(child.mana_cost, parent.mana_cost),
        image_uris: fill(child.image_uris, parent.image_uris),
        games: fill(child.games, parent.games),
        promo: fill(child.promo, parent.promo),
    }
}

fn copy_texts(list: &Vec<String>) -> (copy: Vec<String>)
    ensures
        copy@ == list@,
{
    let mut copy: Vec<String> = Vec::new();
    let mut i: usize = 0;
    while i < list.len()
        invariant
            i <= list.len(),
            copy@ == list@.subrange(0, i as int),
        decreases list.len() - i,
    {
        copy.push(list[i].clone());
        assert(copy@ =~= list@.subrange(0, i + 1));
        i += 1;
    }
    assert(list@.subrange(0, i as int) =~= list@);
    copy
}

fn copy_pairs(list: &Vec<(Format, Legality)>) -> (copy: Vec<(Format, Legality)>)
    ensures
        copy@ == list@,
{
    let mut copy: Vec<(Format, Legality)> = Vec::new();
    let mut i: usize = 0;
    while i < list.len()
        invariant
            i <= list.len(),
            copy@ == list@.subrange(0, i as int),
        decreases list.len() - i,
    {
        copy.push(list[i]);
        assert(copy@ =~= list@.subrange(0, i + 1));
        i += 1;
    }
    assert(list@.subrange(0, i as int) =~= list@);
    copy
}

fn fill_text(child: Option<String>, parent: &Option<String>) -> (field: Option<String>)
    ensures
        opt_text(field) == fill(opt_text(child), opt_text(*parent)),
{
    match child {
        Some(s) => Some(s),
        None => copy_text(parent),
    }
}

fn fill_texts(child: Option<Vec<String>>, parent: &Option<Vec<String>>) -> (field: Option<
    Vec<String>,
>)
    ensures
        opt_texts(field) == fill(opt_texts(child), opt_texts(*parent)),
{
    match child {
        Some(v) => Some(v),
        None => match parent {
            Some(v) => Some(copy_texts(v)),
            None => None,
        },
    }
}

fn fill_pairs(
    child: Option<Vec<(Format, Legality)>>,
    parent: &Option<Vec<(Format, Legality)>>,
) -> (field: Option<Vec<(Format, Legality)>>)
    ensures
        opt_pairs(field) == fill(opt_pairs(child), opt_pairs(*parent)),
{
    match child {
        Some(v) => Some(v),
        None => match parent {
            Some(v) => Some(copy_pairs(v)),
            None => None,
        },
    }
}

fn fill_images(child: Option<ImageUris>, parent: &Option<ImageUris>) -> (field: Option<ImageUris>)
    ensures
        opt_images(field) == fill(opt_images(child), opt_images(*parent)),
{
    match child {
        Some(uris) => Some(uris),
        None => match parent {
            Some(uris) => Some(uris.duplicate()),
            None => None,
        },
    }
}

fn fill_value<T: Copy>(child: Option<T>, parent: Option<T>) -> (field: Option<T>)
    ensures
        field == fill(child, parent),
{
    match child {
        Some(v) => Some(v),
        None => parent,
    }
}

/// Gives a face what it inherits: every field the face leaves unset is
/// copied from the parent; a field the face sets is never overwritten. The
/// face keeps its own nested faces: inheritance goes one level deep.
pub fn merge_missing(child: ScryfallCard, parent: &ScryfallCard) -> (face: ScryfallCard)
    ensures
        face@ == merged(child@, parent@),
        face.card_faces == child.card_faces,
{
    ScryfallCard {
        id: fill_text(child.id, &parent.id),
        object: fill_text(child.object, &parent.object),
        name: fill_text(child.name, &parent.name),
        color_indicator: fill_texts(child.color_indicator, &parent.color_indicator),
        loyalty: fill_text(child.loyalty, &parent.loyalty),
        legalities: fill_pairs(child.legalities, &parent.legalities),
        artist: fill_text(child.artist, &parent.artist),
        oracle_id: fill_text(child.oracle_id, &parent.oracle_id),
        type_line: fill_text(child.type_line, &parent.type_line),
        defense: fill_text(child.defense, &parent.defense),
        lang: fill_text(child.lang, &parent.lang),
        card_faces: child.card_faces,
        content_warning: fill_value(child.content_warning, parent.content_warning),
        cmc: fill_value(child.cmc, parent.cmc),
        image_status: fill_text(child.image_status, &parent.image_status),
        flavor_text: fill_text(child.flavor_text, &parent.flavor_text),
        arena_id: fill_value(child.arena_id, parent.arena_id),
        illustration_id: fill_text(child.illustration_id, &parent.illustration_id),
        oracle_text: fill_text(child.oracle_text, &parent.oracle_text),
        colors: fill_texts(child.colors, &parent.colors),
        color_identity: fill_texts(child.color_identity, &parent.color_identity),
        produced_mana: fill_texts(child.produced_mana, &parent.produced_mana),
        rarity: fill_text(child.rarity, &parent.rarity),
        power: fill_text(child.power, &parent.power),
        set_name: fill_text(child.set_name, &parent.set_name),
        penny_rank: fill_value(child.penny_rank, parent.penny_rank),
        variation: fill_value(child.variation, parent.variation),
        set_id: fill_text(child.set_id, &parent.set_id),
        toughness: fill_text(child.toughness, &parent.toughness),
        mtgo_id: fill_value(child.mtgo_id, parent.mtgo_id),
        booster: fill_value(child.booster, parent.booster),
        border_color: fill_text(child.border_color, &parent.border_color),
        foil: fill_value(child.foil, parent.foil),
        set_type: fill_text(child.set_type, &parent.set_type),
        nonfoil: fill_value(child.nonfoil, parent.nonfoil),
        game_changer: fill_value(child.game_changer, parent.game_changer),
        reprint: fill_value(child.reprint, parent.reprint),
        layout: fill_text(child.layout, &parent.layout),
        reserved: fill_value(child.reserved, parent.reserved),
        digital: fill_value(child.digital, parent.digital),
        set: fill_text(child.set, &parent.set),
        keywords: fill_texts(child.keywords, &parent.keywords),
        highres_image: fill_value(child.highres_image, parent.highres_image),
        mana_cost: fill_text(child.mana_cost, &parent.mana_cost),
        image_uris: fill_images(child.image_uris, &parent.image_uris),
        games: fill_texts(child.games, &parent.games),
        promo: fill_value(child.promo, parent.promo),
    }
}

impl ScryfallCard {
    /// The faces of the record; none where it lists none.
    pub open spec fn faces(&self) -> Seq<ScryfallCard> {
        match self.card_faces {
            Some(list) => list@,
            None => Seq::empty(),
        }
    }

    /// Whether the card exists on a platform.
    pub fn contains_game(&self, game: &str) -> (b: bool)
        ensures
            b == (self@.games is Some && self@.games->0.contains(game@)),
    {
        match &self.games {
            Some(games) => {
                let mut i: usize = 0;
                while i < games.len()
                    invariant
                        i <= games.len(),
                        self@.games == Some(texts(games@)),
                        forall|j: int| 0 <= j < i ==> texts(games@)[j] != game@,
                    decreases games.len() - i,
                {
                    if text_eq(games[i].as_str(), game) {
                        assert(texts(games@)[i as int] == game@);
                        return true;
                    }
                    i += 1;
                }
                false
            },
            None => false,
        }
    }

    /// Gives every face of the card what it inherits from the card. The
    /// card's own fields stay as they are.
    pub fn populate_card_faces(&mut self)
        ensures
            final(self)@ == old(self)@,
            final(self).card_faces is Some <==> old(self).card_faces is Some,
            final(self).faces().len() == old(self).faces().len(),
            forall|i: int|
                0 <= i < old(self).faces().len() ==> {
                    &&& (#[trigger] final(self).faces()[i])@ == merged(
                        old(self).faces()[i]@,
                        old(self)@,
                    )
                    &&& final(self).faces()[i].card_faces == old(self).faces()[i].card_faces
                },
    {
        let ghost parent = self@;
        let taken = self.card_faces.take();
        match taken {
            Some(list) => {
                let ghost before = list@;
                let mut filled: Vec<ScryfallCard> = Vec::new();
                for face in it: list
                    invariant
                        it.seq() == before,
                        self@ == parent,
                        filled@.len() == it.index(),
                        forall|i: int|
                            0 <= i < filled@.len() ==> {
                                &&& (#[trigger] filled@[i])@ == merged(before[i]@, parent)
                                &&& filled@[i].card_faces == before[i].card_faces
                            },
                {
                    let merged_face = merge_missing(face, self);
                    filled.push(merged_face);
                }
                self.card_faces = Some(filled);
            },
            None => {},
        }
    }
}

/// The view of each record of a sequence.
pub open spec fn views(cards: Seq<ScryfallCard>) -> Seq<CardView> {
    cards.map_values(|card: ScryfallCard| card@)
}

/// The records a card contributes: one per face where it has faces, each
/// with what it inherits from the card; the card itself where it has none.
pub open spec fn flattened(card: ScryfallCard) -> Seq<CardView> {
    if card.faces().len() > 0 {
        Seq::new(card.faces().len(), |i: int| merged(card.faces()[i]@, card@))
    } else {
        seq![card@]
    }
}

/// The records a sequence of cards contributes, card after card.
pub open spec fn flattened_all(cards: Seq<ScryfallCard>) -> Seq<CardView>
    decreases cards.len(),
{
    if cards.len() == 0 {
        Seq::empty()
    } else {
        flattened_all(cards.drop_last()) + flattened(cards.last())
    }
}

/// Inheritance never overwrites: a field the face sets keeps its value, and
/// a field the face leaves unset takes the parent's value as it stands.
pub proof fn lemma_fill_inherits<T>(child: Option<T>, parent: Option<T>)
    ensures
        child is Some ==> fill(child, parent) == child,
        child is None ==> fill(child, parent) == parent,
{
}

/// Inheriting twice from the same parent changes nothing more.
pub proof fn lemma_merged_idempotent(child: CardView, parent: CardView)
    ensures
        merged(merged(child, parent), parent) == merged(child, parent),
{
}

/// Flattens a card into the records it contributes: one per face, or the
/// card itself where it has no faces.
pub fn flatten(card: ScryfallCard) -> (records: Vec<ScryfallCard>)
    ensures
        views(records@) == flattened(card),
{
    let mut card = card;
    let ghost whole = card;
    let taken = card.card_faces.take();
    let mut records: Vec<ScryfallCard> = Vec::new();
    match taken {
        Some(list) => {
            if list.len() == 0 {
                card.card_faces = Some(list);
                records.push(card);
                assert(views(records@) =~= flattened(whole));
            } else {
                let ghost before = list@;
                for face in it: list
                    invariant
                        it.seq() == before,
                        card@ == whole@,
                        records@.len() == it.index(),
                        forall|i: int|
                            0 <= i < records@.len() ==> (#[trigger] records@[i])@ == merged(
                                before[i]@,
                                whole@,
                            ),
                {
                    let merged_face = merge_missing(face, &card);
                    records.push(merged_face);
                }
                assert(views(records@) =~= flattened(whole));
            }
        },
        None => {
            records.push(card);
            assert(views(records@) =~= flattened(whole));
        },
    }
    records
}

/// Flattens every card of a list, keeping their order.
pub fn flatten_all(cards: Vec<ScryfallCard>) -> (records: Vec<ScryfallCard>)
    ensures
        views(records@) == flattened_all(cards@),
{
    let ghost before = cards@;
    let mut records: Vec<ScryfallCard> = Vec::new();
    assert(views(records@) =~= flattened_all(before.take(0)));
    for card in it: cards
        invariant
            it.seq() == before,
            views(records@) == flattened_all(before.take(it.index() as int)),
    {
        let mut more = flatten(card);
        proof {
            let done = before.take(it.index() as int);
            let next = before.take(it.index() + 1);
            assert(next.drop_last() =~= done);
            assert(next.last() == card);
            assert(views(records@ + more@) =~= views(records@) + views(more@));
        }
        records.append(&mut more);
    }
    assert(before.take(before.len() as int) =~= before);
    records
}

} // verus!
