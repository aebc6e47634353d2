use based16::{
    const_hex_lower, const_hex_upper, hex_lower, hex_lower_to_vec, hex_upper, hex_upper_to_vec,
    unhex_to_vec, CharPair, DecodeError, Decoder, Encoder,
};

#[test]
fn encoder_hands_out_one_pair_for_each_byte() {
    let data = [0x00, 0x7f, 0x80, 0xff, 0x1a];
    let mut encoder = Encoder::lower(&data);
    let mut seen = Vec::new();
    assert_eq!(encoder.len(), 5);
    while let Some(pair) = encoder.next_byte() {
        seen.push(pair.as_str().to_owned());
        assert_eq!(encoder.len(), data.len() - seen.len());
    }
    assert_eq!(seen, ["00", "7f", "80", "ff", "1a"]);
    assert!(encoder.next_byte().is_none());
    assert!(encoder.next_byte().is_none());
    assert_eq!(encoder.len(), 0);
}

#[test]
fn encoder_of_nothing_is_empty() {
    let mut encoder = Encoder::upper(&[]);
    assert_eq!(encoder.len(), 0);
    assert_eq!(encoder.to_string(), "");
    assert_eq!(encoder.to_debug_string(), "\"\"");
    assert!(encoder.next_byte().is_none());
}

#[test]
fn encoder_renders_what_is_left() {
    let data = [0xca, 0xfe, 0xba, 0xbe];
    let mut encoder = Encoder::upper(&data);
    assert_eq!(encoder.to_string(), "CAFEBABE");
    assert_eq!(encoder.to_string(), "CAFEBABE");
    assert_eq!(encoder.len(), 4);
    assert_eq!(encoder.next_byte().expect("a pair").as_str(), "CA");
    assert_eq!(encoder.to_string(), "FEBABE");
    assert_eq!(encoder.to_debug_string(), "\"FEBABE\"");
    assert_eq!(encoder.len(), 3);
}

#[test]
fn encoder_agrees_with_the_engine() {
    let data: Vec<u8> = (0..=255u8).rev().collect();
    let mut lower = vec![0u8; 512];
    let mut upper = vec![0u8; 512];
    assert_eq!(hex_lower(&data, &mut lower), 512);
    assert_eq!(hex_upper(&data, &mut upper), 512);
    assert_eq!(Encoder::lower(&data).to_string().as_bytes(), &lower[..]);
    assert_eq!(Encoder::upper(&data).to_string().as_bytes(), &upper[..]);
}

#[test]
fn decoder_refuses_text_of_odd_length() {
    assert!(Decoder::new("999").is_none());
    assert!(Decoder::new("9").is_none());
    assert!(Decoder::new("").is_some());
    assert!(Decoder::new("99").is_some());
    assert!(Decoder::new("zz").is_some());
}

#[test]
fn decoder_counts_bytes_of_the_text() {
    assert!(Decoder::new("\u{e9}").is_some());
    assert!(Decoder::new("\u{e9}0").is_none());
    let mut decoder = Decoder::new("\u{e9}").expect("two bytes");
    assert_eq!(decoder.next_byte(), Some(Err(DecodeError::InvalidChar(0xc3))));
    assert_eq!(decoder.next_byte(), None);
}

#[test]
fn decoder_hands_out_one_result_for_each_pair() {
    let mut decoder = Decoder::new("99AABB").expect("even length");
    assert_eq!(decoder.len(), 6);
    assert_eq!(decoder.next_byte(), Some(Ok(0x99)));
    assert_eq!(decoder.len(), 4);
    assert_eq!(decoder.next_byte(), Some(Ok(0xAA)));
    assert_eq!(decoder.next_byte(), Some(Ok(0xBB)));
    assert_eq!(decoder.len(), 0);
    assert_eq!(decoder.next_byte(), None);
    assert_eq!(decoder.next_byte(), None);
}

#[test]
fn decoder_goes_on_behind_a_failure() {
    let mut decoder = Decoder::new("0gh1ff-+7F").expect("even length");
    assert_eq!(decoder.next_byte(), Some(Err(DecodeError::InvalidChar(b'g'))));
    assert_eq!(decoder.next_byte(), Some(Err(DecodeError::InvalidChar(b'h'))));
    assert_eq!(decoder.next_byte(), Some(Ok(0xff)));
    assert_eq!(decoder.next_byte(), Some(Err(DecodeError::InvalidChar(b'-'))));
    assert_eq!(decoder.next_byte(), Some(Ok(0x7f)));
    assert_eq!(decoder.next_byte(), None);
}

#[test]
fn pair_views_agree() {
    let mut encoder = Encoder::upper(&[0x4f]);
    let pair = encoder.next_byte().expect("a pair");
    assert_eq!(pair.as_chars(), ['4', 'F']);
    assert_eq!(pair.as_bytes(), b"4F");
    assert_eq!(pair.as_str(), "4F");
}

#[test]
fn pairs_compare_by_their_characters() {
    let pairs = const_hex_upper([0x00, 0x09, 0x0A, 0x10, 0x9F, 0xA0, 0xFF]);
    for (i, left) in pairs.iter().enumerate() {
        for (j, right) in pairs.iter().enumerate() {
            assert_eq!(left == right, i == j);
            assert_eq!(left < right, i < j);
            assert_eq!(left.cmp(right), i.cmp(&j));
            assert_eq!(left.partial_cmp(right), Some(left.as_bytes().cmp(right.as_bytes())));
        }
    }
    let lower = const_hex_lower([0xab])[0];
    let upper = const_hex_upper([0xab])[0];
    assert_ne!(lower, upper);
    assert!(upper < lower);
    assert_eq!(lower.max(upper), lower);
}

#[test]
fn arrays_of_pairs_lie_flat() {
    let pairs = const_hex_lower([0xde, 0xad, 0xbe, 0xef]);
    assert_eq!(CharPair::array_as_bytes(&pairs), b"deadbeef");
    assert_eq!(CharPair::array_as_str(&pairs), "deadbeef");
    let none: [CharPair; 0] = const_hex_upper([]);
    assert_eq!(CharPair::array_as_bytes(&none), b"");
    assert_eq!(CharPair::array_as_str(&none), "");
}

#[test]
fn fixed_arrays_agree_with_the_engine() {
    let mut data = [0u8; 256];
    for (i, byte) in data.iter_mut().enumerate() {
        *byte = (i as u8).wrapping_mul(37).wrapping_add(11);
    }
    let mut lower = [0u8; 512];
    let mut upper = [0u8; 512];
    assert_eq!(hex_lower(&data, &mut lower), 512);
    assert_eq!(hex_upper(&data, &mut upper), 512);
    assert_eq!(CharPair::array_as_bytes(&const_hex_lower(data)), lower);
    assert_eq!(CharPair::array_as_bytes(&const_hex_upper(data)), upper);
}

#[test]
fn appending_text_keeps_what_the_vector_held() {
    let mut out = b"0x".to_vec();
    assert_eq!(hex_upper_to_vec(&[0xc0, 0xff, 0xee], &mut out), 6);
    assert_eq!(out, b"0xC0FFEE");
    assert_eq!(hex_lower_to_vec(&[0xc0, 0xff, 0xee], &mut out), 6);
    assert_eq!(out, b"0xC0FFEEc0ffee");
    assert_eq!(hex_lower_to_vec(&[], &mut out), 0);
    assert_eq!(out, b"0xC0FFEEc0ffee");
}

#[test]
fn appending_bytes_keeps_what_the_vector_held() {
    let mut out = vec![1u8, 2];
    assert_eq!(unhex_to_vec(b"c0FFee", &mut out), Ok(3));
    assert_eq!(out, [1, 2, 0xc0, 0xff, 0xee]);
    assert_eq!(unhex_to_vec(b"7", &mut out), Ok(0));
    assert_eq!(unhex_to_vec(b"", &mut out), Ok(0));
    assert_eq!(unhex_to_vec(b"80f", &mut out), Ok(1));
    assert_eq!(out, [1, 2, 0xc0, 0xff, 0xee, 0x80]);
}

#[test]
fn a_failed_append_shows_nothing() {
    let mut out = vec![1u8, 2];
    assert_eq!(unhex_to_vec(b"c0ffeX", &mut out), Err(DecodeError::InvalidChar(b'X')));
    assert_eq!(out, [1, 2]);
    assert_eq!(unhex_to_vec(b"Yc0ffe", &mut out), Err(DecodeError::InvalidChar(b'Y')));
    assert_eq!(out, [1, 2]);
    let long = [b"00112233445566778899aabbccddeeff".as_slice(), b"0z"].concat();
    assert_eq!(unhex_to_vec(&long, &mut out), Err(DecodeError::InvalidChar(b'z')));
    assert_eq!(out, [1, 2]);
    assert_eq!(out.len(), 2);
}

#[test]
fn decoder_agrees_with_the_engine() {
    let text = "00ff10EFcdAB9a8B7c6D5e4F30211203";
    let mut bulk = [0u8; 16];
    assert_eq!(based16::unhex(text.as_bytes(), &mut bulk), Ok(16));
    let mut decoder = Decoder::new(text).expect("even length");
    for expected in bulk {
        assert_eq!(decoder.next_byte(), Some(Ok(expected)));
    }
    assert_eq!(decoder.next_byte(), None);
}
