//! Colour codes and their bitmask encoding.
//!
//! Every colour owns one bit; a set of colours is the bitwise OR of its
//! members. Colourless owns no bit, so a colourless card encodes as zero.

use crate::text::texts;
use vstd::prelude::*;

verus! {

/// One colour of the catalog, named in the source data by a single letter.
#[derive(Debug, Copy, Clone, PartialEq, Eq, Structural, PartialOrd, Ord, Hash)]
pub enum Color {
    Colorless,
    White,
    Blue,
    Black,
    Red,
    Green,
    Tap,
}

impl Color {
    /// The bit this colour owns in a mask.
    pub open spec fn spec_bits(self) -> u8 {
        match self {
            Color::Colorless => 0u8,
            Color::White => 1u8,
            Color::Blue => 2u8,
            Color::Black => 4u8,
            Color::Red => 8u8,
            Color::Green => 16u8,
            Color::Tap => 32u8,
        }
    }

    /// The colour a letter stands for, if any.
    pub open spec fn spec_from_char(c: char) -> Option<Color> {
        if c == 'C' {
            Some(Color::Colorless)
        } else if c == 'W' {
            Some(Color::White)
        } else if c == 'U' {
            Some(Color::Blue)
        } else if c == 'B' {
            Some(Color::Black)
        } else if c == 'R' {
            Some(Color::Red)
        } else if c == 'G' {
            Some(Color::Green)
        } else if c == 'T' {
            Some(Color::Tap)
        } else {
            None
        }
    }

    /// The letter that names this colour.
    pub open spec fn spec_letter(self) -> char {
        match self {
            Color::Colorless => 'C',
            Color::White => 'W',
            Color::Blue => 'U',
            Color::Black => 'B',
            Color::Red => 'R',
            Color::Green => 'G',
            Color::Tap => 'T',
        }
    }

    /// The colour a code stands for: the code must be exactly one known letter.
    pub open spec fn spec_from_code(code: Seq<char>) -> Option<Color> {
        if code.len() == 1 {
            Self::spec_from_char(code[0])
        } else {
            None
        }
    }

    /// The bit this colour owns in a mask.
    #[verifier::when_used_as_spec(spec_bits)]
    pub fn bits(self) -> (b: u8)
        ensures
            b == self.spec_bits(),
    {
        match self {
            Color::Colorless => 0,
            Color::White => 1,
            Color::Blue => 2,
            Color::Black => 4,
            Color::Red => 8,
            Color::Green => 16,
            Color::Tap => 32,
        }
    }

    /// The colour a letter stands for, if any.
    pub fn from_char(c: char) -> (r: Option<Color>)
        ensures
            r == Self::spec_from_char(c),
    {
        if c == 'C' {
            Some(Color::Colorless)
        } else if c == 'W' {
            Some(Color::White)
        } else if c == 'U' {
            Some(Color::Blue)
        } else if c == 'B' {
            Some(Color::Black)
        } else if c == 'R' {
            Some(Color::Red)
        } else if c == 'G' {
            Some(Color::Green)
        } else if c == 'T' {
            Some(Color::Tap)
        } else {
            None
        }
    }

    /// The letter that names this colour.
    #[verifier::when_used_as_spec(spec_letter)]
    pub fn letter(self) -> (c: char)
        ensures
            c == self.spec_letter(),
    {
        match self {
            Color::Colorless => 'C',
            Color::White => 'W',
            Color::Blue => 'U',
            Color::Black => 'B',
            Color::Red => 'R',
            Color::Green => 'G',
            Color::Tap => 'T',
        }
    }

    /// The colour a code stands for: the code must be exactly one known
    /// letter.
    pub fn from_code(code: &str) -> (r: Option<Color>)
        ensures
            r == Self::spec_from_code(code@),
    {
        if code.unicode_len() == 1 {
            Self::from_char(code.get_char(0))
        } else {
            None
        }
    }
}

/// The mask of a sequence of colours: the bitwise OR of their bits.
pub open spec fn mask_of(colors: Seq<Color>) -> u8
    decreases colors.len(),
{
    if colors.len() == 0 {
        0u8
    } else {
        mask_of(colors.drop_last()) | colors.last().spec_bits()
    }
}

/// Every code names a colour.
pub open spec fn codes_valid(codes: Seq<Seq<char>>) -> bool {
    forall|i: int| 0 <= i < codes.len() ==> (#[trigger] Color::spec_from_code(codes[i])) is Some
}

/// The colours that a sequence of valid codes names, in order.
pub open spec fn colors_of(codes: Seq<Seq<char>>) -> Seq<Color> {
    Seq::new(codes.len(), |i: int| Color::spec_from_code(codes[i]).unwrap())
}

/// A colour field held a code that names no colour.
#[derive(Debug, Copy, Clone, PartialEq, Eq, Structural)]
pub struct UnknownColor {
    /// Position of the first such code in the field.
    pub index: usize,
}

/// Encodes a list of colour codes as a mask.
///
/// Fails on the first code that is not exactly one known letter.
pub fn encode(codes: &Vec<String>) -> (r: Result<u8, UnknownColor>)
    ensures
        match r {
            Ok(mask) => codes_valid(texts(codes@)) && mask == mask_of(colors_of(texts(codes@))),
            Err(e) => {
                &&& e.index < codes.len()
                &&& Color::spec_from_code(codes[e.index as int]@) is None
                &&& codes_valid(texts(codes@).subrange(0, e.index as int))
            },
        },
{
    let ghost all = texts(codes@);
    let mut mask: u8 = 0;
    let mut i: usize = 0;
    while i < codes.len()
        invariant
            i <= codes.len(),
            all == texts(codes@),
            codes_valid(all.subrange(0, i as int)),
            mask == mask_of(colors_of(all.subrange(0, i as int))),
        decreases codes.len() - i,
    {
        match Color::from_code(codes[i].as_str()) {
            Some(color) => {
                proof {
                    let before = all.subrange(0, i as int);
                    let after = all.subrange(0, i + 1);
                    assert(after.drop_last() =~= before);
                    assert(colors_of(after).drop_last() =~= colors_of(before));
                    assert(colors_of(after).last() == color);
                    assert forall|j: int| 0 <= j < after.len() implies (
                    #[trigger] Color::spec_from_code(after[j])) is Some by {
                        if j < i {
                            assert(after[j] == before[j]);
                        }
                    }
                }
                mask = mask | color.bits();
            },
            None => {
                return Err(UnknownColor { index: i });
            },
        }
        i += 1;
    }
    assert(all.subrange(0, i as int) =~= all);
    Ok(mask)
}

/// Encodes an optional colour field: an absent field stays absent, so that
/// "no value" and "colourless" remain distinct.
pub fn encode_field(field: &Option<Vec<String>>) -> (r: Result<Option<u8>, UnknownColor>)
    ensures
        match (field, r) {
            (None, Ok(None)) => true,
            (Some(codes), Ok(Some(mask))) => codes_valid(texts(codes@)) && mask == mask_of(
                colors_of(texts(codes@)),
            ),
            (Some(codes), Err(e)) => {
                &&& e.index < codes.len()
                &&& Color::spec_from_code(codes[e.index as int]@) is None
                &&& codes_valid(texts(codes@).subrange(0, e.index as int))
            },
            _ => false,
        },
{
    match field {
        None => Ok(None),
        Some(codes) => match encode(codes) {
            Ok(mask) => Ok(Some(mask)),
            Err(e) => Err(e),
        },
    }
}

/// Whether a mask holds the bit of a colour. Colourless owns no bit and is
/// in no mask.
pub open spec fn mask_has(mask: u8, c: Color) -> bool {
    mask & c.spec_bits() != 0
}

/// The colours that own a bit, in the order of their bits.
pub open spec fn palette() -> Seq<Color> {
    seq![Color::White, Color::Blue, Color::Black, Color::Red, Color::Green, Color::Tap]
}

/// The colours of a mask among the first `n` of the palette, in order.
pub open spec fn colors_upto(mask: u8, n: nat) -> Seq<Color>
    decreases n,
{
    if n == 0 {
        Seq::empty()
    } else {
        let rest = colors_upto(mask, (n - 1) as nat);
        let c = palette()[n - 1];
        if mask_has(mask, c) {
            rest.push(c)
        } else {
            rest
        }
    }
}

/// The colours of a mask, in the order of their bits.
pub open spec fn colors_in(mask: u8) -> Seq<Color> {
    colors_upto(mask, 6)
}

/// Decodes a mask into its colours, in the order of their bits.
pub fn decode(mask: u8) -> (colors: Vec<Color>)
    ensures
        colors@ == colors_in(mask),
{
    let mut colors: Vec<Color> = Vec::new();
    assert(colors@ =~= colors_upto(mask, 0));
    if mask & Color::White.bits() != 0 {
        colors.push(Color::White);
    }
    assert(colors@ == colors_upto(mask, 1));
    if mask & Color::Blue.bits() != 0 {
        colors.push(Color::Blue);
    }
    assert(colors@ == colors_upto(mask, 2));
    if mask & Color::Black.bits() != 0 {
        colors.push(Color::Black);
    }
    assert(colors@ == colors_upto(mask, 3));
    if mask & Color::Red.bits() != 0 {
        colors.push(Color::Red);
    }
    assert(colors@ == colors_upto(mask, 4));
    if mask & Color::Green.bits() != 0 {
        colors.push(Color::Green);
    }
    assert(colors@ == colors_upto(mask, 5));
    if mask & Color::Tap.bits() != 0 {
        colors.push(Color::Tap);
    }
    assert(colors@ == colors_upto(mask, 6));
    colors
}

proof fn lemma_bit_meets(b: u8, cb: u8)
    requires
        b == 0 || b == 1 || b == 2 || b == 4 || b == 8 || b == 16 || b == 32,
        cb == 1 || cb == 2 || cb == 4 || cb == 8 || cb == 16 || cb == 32,
    ensures
        (b & cb != 0) <==> b == cb,
{
    assert((b & cb != 0) <==> b == cb) by (bit_vector)
        requires
            b == 0 || b == 1 || b == 2 || b == 4 || b == 8 || b == 16 || b == 32,
            cb == 1 || cb == 2 || cb == 4 || cb == 8 || cb == 16 || cb == 32,
    ;
}

/// A mask holds a colour's bit exactly when the colour is among those it
/// was built from. Colourless owns no bit and is left out.
pub proof fn lemma_mask_membership(colors: Seq<Color>, c: Color)
    requires
        c != Color::Colorless,
    ensures
        mask_has(mask_of(colors), c) <==> colors.contains(c),
        mask_of(colors) <= 63,
    decreases colors.len(),
{
    if colors.len() == 0 {
        let cb = c.spec_bits();
        assert(0u8 & cb == 0) by (bit_vector);
    } else {
        let rest = colors.drop_last();
        let last = colors.last();
        lemma_mask_membership(rest, c);
        let m = mask_of(rest);
        let b = last.spec_bits();
        let cb = c.spec_bits();
        lemma_bit_meets(b, cb);
        assert(((m | b) & cb != 0) <==> (m & cb != 0 || b & cb != 0)) by (bit_vector);
        assert(m | b <= 63) by (bit_vector)
            requires
                m <= 63,
                b <= 32,
        ;
        assert(colors =~= rest.push(last));
        if colors.contains(c) {
            let i = choose|i: int| 0 <= i < colors.len() && colors[i] == c;
            if i < rest.len() {
                assert(rest[i] == c);
            }
        }
        if rest.contains(c) {
            let i = choose|i: int| 0 <= i < rest.len() && rest[i] == c;
            assert(colors[i] == c);
        }
        if last == c {
            assert(colors[colors.len() - 1] == c);
        }
    }
}

/// Encoding is injective on sets of colours: two sequences encode to the
/// same mask exactly when they hold the same colours, Colourless aside
/// (it owns no bit, so its presence leaves a mask unchanged).
pub proof fn lemma_mask_injective(a: Seq<Color>, b: Seq<Color>)
    ensures
        mask_of(a) == mask_of(b) <==> (forall|c: Color|
            c != Color::Colorless ==> (a.contains(c) <==> b.contains(c))),
{
    let ma = mask_of(a);
    let mb = mask_of(b);
    lemma_mask_membership(a, Color::White);
    lemma_mask_membership(a, Color::Blue);
    lemma_mask_membership(a, Color::Black);
    lemma_mask_membership(a, Color::Red);
    lemma_mask_membership(a, Color::Green);
    lemma_mask_membership(a, Color::Tap);
    lemma_mask_membership(b, Color::White);
    lemma_mask_membership(b, Color::Blue);
    lemma_mask_membership(b, Color::Black);
    lemma_mask_membership(b, Color::Red);
    lemma_mask_membership(b, Color::Green);
    lemma_mask_membership(b, Color::Tap);
    if forall|c: Color| c != Color::Colorless ==> (a.contains(c) <==> b.contains(c)) {
        assert(a.contains(Color::White) <==> b.contains(Color::White));
        assert(a.contains(Color::Blue) <==> b.contains(Color::Blue));
        assert(a.contains(Color::Black) <==> b.contains(Color::Black));
        assert(a.contains(Color::Red) <==> b.contains(Color::Red));
        assert(a.contains(Color::Green) <==> b.contains(Color::Green));
        assert(a.contains(Color::Tap) <==> b.contains(Color::Tap));
        assert(ma == mb) by (bit_vector)
            requires
                ma <= 63,
                mb <= 63,
                (ma & 1 != 0) <==> (mb & 1 != 0),
                (ma & 2 != 0) <==> (mb & 2 != 0),
                (ma & 4 != 0) <==> (mb & 4 != 0),
                (ma & 8 != 0) <==> (mb & 8 != 0),
                (ma & 16 != 0) <==> (mb & 16 != 0),
                (ma & 32 != 0) <==> (mb & 32 != 0),
        ;
    }
    if ma == mb {
        assert forall|c: Color| c != Color::Colorless implies (a.contains(c) <==> b.contains(
            c,
        )) by {
            lemma_mask_membership(a, c);
            lemma_mask_membership(b, c);
        }
    }
}

/// Decoding inverts encoding: the colours read back from the mask of a
/// sequence are exactly its members other than Colourless, and encoding
/// them again gives the same mask.
pub proof fn lemma_decode_inverts_encode(colors: Seq<Color>)
    ensures
        forall|c: Color|
            colors_in(mask_of(colors)).contains(c) <==> (c != Color::Colorless && colors.contains(
                c,
            )),
        mask_of(colors_in(mask_of(colors))) == mask_of(colors),
{
    let m = mask_of(colors);
    let back = colors_in(m);
    assert forall|c: Color| back.contains(c) <==> (c != Color::Colorless && colors.contains(
        c,
    )) by {
        lemma_colors_in_membership(m, c);
        if c != Color::Colorless {
            lemma_mask_membership(colors, c);
        } else {
            assert(m & 0u8 == 0) by (bit_vector);
        }
    }
    lemma_mask_injective(back, colors);
}

proof fn lemma_colors_upto_membership(mask: u8, n: nat, c: Color)
    requires
        n <= 6,
    ensures
        colors_upto(mask, n).contains(c) <==> (mask_has(mask, c) && exists|k: int|
            0 <= k < n && palette()[k] == c),
    decreases n,
{
    if n > 0 {
        let rest = colors_upto(mask, (n - 1) as nat);
        let p = palette()[n - 1];
        lemma_colors_upto_membership(mask, (n - 1) as nat, c);
        let now = colors_upto(mask, n);
        if now.contains(c) {
            let i = choose|i: int| 0 <= i < now.len() && now[i] == c;
            if mask_has(mask, p) && i == rest.len() {
                assert(palette()[n - 1] == c);
            } else {
                assert(rest[i] == c);
                let k = choose|k: int| 0 <= k < n - 1 && palette()[k] == c;
                assert(palette()[k] == c);
            }
        }
        if mask_has(mask, c) && exists|k: int| 0 <= k < n && palette()[k] == c {
            let k = choose|k: int| 0 <= k < n && palette()[k] == c;
            if k == n - 1 {
                assert(now[rest.len() as int] == c);
            } else {
                assert(rest.contains(c));
                let i = choose|i: int| 0 <= i < rest.len() && rest[i] == c;
                assert(now[i] == c);
            }
        }
    }
}

/// A colour is read back from a mask exactly when the mask holds its bit.
pub proof fn lemma_colors_in_membership(mask: u8, c: Color)
    ensures
        colors_in(mask).contains(c) <==> mask_has(mask, c),
{
    lemma_colors_upto_membership(mask, 6, c);
    assert(mask & 0u8 == 0) by (bit_vector);
    if mask_has(mask, c) {
        let k: int = match c {
            Color::Colorless => 0,
            Color::White => 0,
            Color::Blue => 1,
            Color::Black => 2,
            Color::Red => 3,
            Color::Green => 4,
            Color::Tap => 5,
        };
        assert(palette()[k] == c);
    }
}

} // verus!
