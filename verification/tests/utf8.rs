use kubecove::utf8::{scan_utf8, take_utf8_prefix, utf8_lossy};

#[test]
fn keeps_incomplete_multibyte_tail_for_next_chunk() {
    let mut pending = "héllo".as_bytes().to_vec();
    let split = 2; // 'h' plus the first byte of 'é'
    let mut remainder = pending.split_off(split);

    let first = take_utf8_prefix(&mut pending).expect("first chunk");
    assert_eq!(first, "h");
    assert!(!pending.is_empty());

    pending.append(&mut remainder);
    assert_eq!(take_utf8_prefix(&mut pending).expect("rest"), "éllo");
    assert!(pending.is_empty());
}

#[test]
fn replaces_invalid_bytes_with_replacement_char() {
    let mut pending = vec![b'a', 0xFF, b'b'];

    assert_eq!(take_utf8_prefix(&mut pending).expect("chunk"), "a\u{FFFD}");
    assert_eq!(take_utf8_prefix(&mut pending).expect("rest"), "b");
    assert!(pending.is_empty());
}

#[test]
fn buffers_entire_incomplete_sequence() {
    let mut pending = "é".as_bytes().to_vec()[..1].to_vec();

    assert!(take_utf8_prefix(&mut pending).is_none());
    assert_eq!(pending.len(), 1);

    pending.push(0xA9);
    assert_eq!(take_utf8_prefix(&mut pending).expect("complete"), "é");
    assert!(pending.is_empty());
}

fn check(bytes: &[u8]) {
    let (valid, invalid) = match std::str::from_utf8(bytes) {
        Ok(_) => (bytes.len(), 0),
        Err(error) => (error.valid_up_to(), error.error_len().unwrap_or(0)),
    };
    assert_eq!(scan_utf8(bytes), (valid, invalid), "{bytes:x?}");
    assert_eq!(
        utf8_lossy(bytes.to_vec()),
        String::from_utf8_lossy(bytes),
        "{bytes:x?}"
    );
}

#[test]
fn short_byte_strings_are_judged_as_the_standard_library_judges_them() {
    check(&[]);
    for a in 0..=255_u8 {
        check(&[a]);
        for b in 0..=255_u8 {
            check(&[a, b]);
        }
    }
}

#[test]
fn longer_byte_strings_are_judged_as_the_standard_library_judges_them() {
    let edges = [
        0x00, 0x41, 0x7f, 0x80, 0x8f, 0x90, 0x9f, 0xa0, 0xbf, 0xc0, 0xc1, 0xc2, 0xdf, 0xe0, 0xe1,
        0xec, 0xed, 0xee, 0xef, 0xf0, 0xf1, 0xf3, 0xf4, 0xf5, 0xff,
    ];
    for a in edges {
        for b in edges {
            for c in edges {
                check(&[a, b, c]);
                for d in edges {
                    check(&[a, b, c, d]);
                }
            }
        }
    }
    for a in [0xe2, 0xf0, 0xf4] {
        for b in edges {
            for c in edges {
                check(&[b'x', a, 0x90, b, c, b'y']);
            }
        }
    }
}

#[test]
fn cutting_anywhere_keeps_the_text() {
    let bytes = b"h\xc3\xa9\xff\xf0\x9f\x98\x80 \xe2\x82 \xf0\x9f".to_vec();
    let whole = String::from_utf8_lossy(&bytes).into_owned();
    for first in 0..=bytes.len() {
        for second in first..=bytes.len() {
            let mut pending = Vec::new();
            let mut text = String::new();
            for part in [&bytes[..first], &bytes[first..second], &bytes[second..]] {
                pending.extend_from_slice(part);
                while let Some(piece) = take_utf8_prefix(&mut pending) {
                    text.push_str(&piece);
                }
            }
            text.push_str(&utf8_lossy(pending));
            assert_eq!(text, whole);
        }
    }
}
