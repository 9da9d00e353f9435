use majin::utf8::Utf8Stream;

#[test]
fn passes_ascii_straight_through() {
    let mut stream = Utf8Stream::new();
    assert_eq!(stream.push(b"hello"), "hello");
}

#[test]
fn reassembles_a_character_split_across_chunks() {
    let mut stream = Utf8Stream::new();
    let bytes = "日本語".as_bytes();
    // Cut in the middle of the first character.
    assert_eq!(stream.push(&bytes[..2]), "");
    assert_eq!(stream.push(&bytes[2..]), "日本語");
}

#[test]
fn reassembles_across_many_single_byte_chunks() {
    let mut stream = Utf8Stream::new();
    let mut decoded = String::new();
    for byte in "こんにちは".as_bytes() {
        decoded.push_str(&stream.push(&[*byte]));
    }
    assert_eq!(decoded, "こんにちは");
}

#[test]
fn replaces_invalid_bytes_instead_of_stalling() {
    let mut stream = Utf8Stream::new();
    assert_eq!(stream.push(&[b'a', 0xff, b'b']), "a\u{fffd}b");
}

#[test]
fn finish_flushes_a_dangling_partial_character() {
    let mut stream = Utf8Stream::new();
    assert_eq!(stream.push(&"日".as_bytes()[..1]), "");
    assert_eq!(stream.finish(), "\u{fffd}");
}

#[test]
fn every_way_of_cutting_decodes_to_the_same_text() {
    let text = "a€😀ü\u{fffd}z";
    let bytes = text.as_bytes();
    for cut in 0..=bytes.len() {
        let mut stream = Utf8Stream::new();
        let mut out = stream.push(&bytes[..cut]);
        out.push_str(&stream.push(&bytes[cut..]));
        out.push_str(&stream.finish());
        assert_eq!(out, text, "cut at {cut}");
    }
}

#[test]
fn invalid_bytes_decode_as_the_standard_lossy_conversion() {
    let samples: [&[u8]; 5] = [
        &[0xe6, 0x97, b'x'],
        &[0xc0, 0x80],
        &[0xed, 0xa0, 0x80],
        &[0xf4, 0x90, 0x80, 0x80],
        &[0xf0, 0x9f, 0x98],
    ];
    for sample in samples {
        let mut stream = Utf8Stream::new();
        let mut out = String::new();
        for b in sample {
            out.push_str(&stream.push(&[*b]));
        }
        out.push_str(&stream.finish());
        assert_eq!(out, String::from_utf8_lossy(sample), "sample {sample:?}");
    }
}

#[test]
fn a_complete_character_is_never_held_back() {
    let mut stream = Utf8Stream::new();
    assert_eq!(stream.push("é".as_bytes()), "é");
    assert_eq!(stream.finish(), "");
}

#[test]
fn at_most_one_partial_character_is_held_back() {
    let mut stream = Utf8Stream::new();
    // A lead byte followed by another lead byte: the first is invalid at once.
    assert_eq!(stream.push(&[0xe6, 0xe6]), "\u{fffd}");
    assert_eq!(stream.push(&[0x97, 0xa5]), "日");
}

#[test]
fn finishing_an_empty_stream_yields_nothing() {
    let mut stream = Utf8Stream::new();
    assert_eq!(stream.finish(), "");
    assert_eq!(stream.push(b""), "");
}

#[test]
fn output_so_far_is_the_lossy_decoding_of_all_but_the_held_tail() {
    let bytes: Vec<u8> = [b"a".as_slice(), "€".as_bytes(), &[0xe6, 0xe6], "日".as_bytes()].concat();
    for cut in 0..=bytes.len() {
        let mut stream = Utf8Stream::new();
        let out = stream.push(&bytes[..cut]);
        // The held tail is the truncated character at the end, if any.
        let mut t = 0;
        for len in (1..=3.min(cut)).rev() {
            if let Err(e) = std::str::from_utf8(&bytes[cut - len..cut]) {
                if e.error_len().is_none() && e.valid_up_to() == 0 {
                    t = len;
                    break;
                }
            }
        }
        assert_eq!(out, String::from_utf8_lossy(&bytes[..cut - t]), "cut at {cut}");
        let tail = stream.finish();
        assert_eq!(tail, if t == 0 { "" } else { "\u{fffd}" }, "cut at {cut}");
    }
}
