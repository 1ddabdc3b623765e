use ponder_db::color::{decode, encode, encode_field, Color, UnknownColor};

fn codes(letters: &[&str]) -> Vec<String> {
    letters.iter().map(|s| s.to_string()).collect()
}

#[test]
fn each_colour_owns_its_bit() {
    assert_eq!(Color::Colorless.bits(), 0);
    assert_eq!(Color::White.bits(), 1);
    assert_eq!(Color::Blue.bits(), 2);
    assert_eq!(Color::Black.bits(), 4);
    assert_eq!(Color::Red.bits(), 8);
    assert_eq!(Color::Green.bits(), 16);
    assert_eq!(Color::Tap.bits(), 32);
}

#[test]
fn letters_name_colours() {
    assert_eq!(Color::from_char('C'), Some(Color::Colorless));
    assert_eq!(Color::from_char('W'), Some(Color::White));
    assert_eq!(Color::from_char('U'), Some(Color::Blue));
    assert_eq!(Color::from_char('B'), Some(Color::Black));
    assert_eq!(Color::from_char('R'), Some(Color::Red));
    assert_eq!(Color::from_char('G'), Some(Color::Green));
    assert_eq!(Color::from_char('T'), Some(Color::Tap));
    assert_eq!(Color::from_char('X'), None);
    assert_eq!(Color::from_char('w'), None);
}

#[test]
fn letter_and_from_char_are_inverse() {
    for c in [Color::Colorless, Color::White, Color::Blue, Color::Black, Color::Red,
        Color::Green, Color::Tap] {
        assert_eq!(Color::from_char(c.letter()), Some(c));
    }
}

#[test]
fn a_code_is_exactly_one_letter() {
    assert_eq!(Color::from_code("W"), Some(Color::White));
    assert_eq!(Color::from_code(""), None);
    assert_eq!(Color::from_code("WU"), None);
    assert_eq!(Color::from_code(" W"), None);
}

#[test]
fn white_and_blue_encode_as_three() {
    assert_eq!(encode(&codes(&["W", "U"])), Ok(3));
}

#[test]
fn encode_is_the_or_of_the_members() {
    let letters = ["C", "W", "U", "B", "R", "G"];
    let values = [0u8, 1, 2, 4, 8, 16];
    for subset in 1u32..64 {
        let mut chosen = Vec::new();
        let mut expected = 0u8;
        for k in 0..6 {
            if subset & (1 << k) != 0 {
                chosen.push(letters[k]);
                expected |= values[k];
            }
        }
        assert_eq!(encode(&codes(&chosen)), Ok(expected));
    }
}

#[test]
fn encode_tells_sets_of_colours_apart() {
    let letters = ["W", "U", "B", "R", "G"];
    let mut seen = std::collections::HashSet::new();
    for subset in 0u32..32 {
        let chosen: Vec<&str> =
            (0..5).filter(|k| subset & (1 << k) != 0).map(|k| letters[k]).collect();
        let mask = encode(&codes(&chosen)).unwrap();
        assert!(seen.insert(mask));
    }
}

#[test]
fn a_repeated_colour_counts_once() {
    assert_eq!(encode(&codes(&["R", "R", "G"])), Ok(24));
}

#[test]
fn colourless_encodes_as_zero() {
    assert_eq!(encode(&codes(&["C"])), Ok(0));
    assert_eq!(encode(&codes(&[])), Ok(0));
}

#[test]
fn tap_owns_the_sixth_bit() {
    assert_eq!(encode(&codes(&["T"])), Ok(32));
}

#[test]
fn an_unknown_code_is_reported_with_its_place() {
    assert_eq!(encode(&codes(&["W", "X", "Q"])), Err(UnknownColor { index: 1 }));
    assert_eq!(encode(&codes(&["WU"])), Err(UnknownColor { index: 0 }));
    assert_eq!(encode(&codes(&["G", ""])), Err(UnknownColor { index: 1 }));
}

#[test]
fn an_absent_field_stays_absent() {
    assert_eq!(encode_field(&None), Ok(None));
    assert_eq!(encode_field(&Some(vec![])), Ok(Some(0)));
    assert_eq!(encode_field(&Some(codes(&["B", "G"]))), Ok(Some(20)));
    assert_eq!(encode_field(&Some(codes(&["Z"]))), Err(UnknownColor { index: 0 }));
}

#[test]
fn decode_lists_the_colours_of_a_mask() {
    assert_eq!(decode(0), vec![]);
    assert_eq!(decode(3), vec![Color::White, Color::Blue]);
    assert_eq!(decode(63), vec![Color::White, Color::Blue, Color::Black, Color::Red,
        Color::Green, Color::Tap]);
    assert_eq!(decode(64), vec![]);
}

#[test]
fn decode_inverts_encode() {
    for mask in 0u8..64 {
        let colors = decode(mask);
        let letters: Vec<String> = colors.iter().map(|c| c.letter().to_string()).collect();
        assert_eq!(encode(&letters), Ok(mask));
    }
}
