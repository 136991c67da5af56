use telnet_relay::args::Encode;
use telnet_relay::codec::MAX_SHIFT_JIS_INPUT;

#[test]
fn passthrough_decodes_each_byte_to_its_code_point() {
    assert_eq!(Encode::UTF8.decode(&[0x48, 0x69]), "Hi");
    assert_eq!(Encode::UTF8.decode(&[0xE9]), "\u{e9}");
    assert_eq!(Encode::UTF8.decode(&[0x00, 0x7F, 0x80, 0xFF]), "\u{0}\u{7f}\u{80}\u{ff}");
    assert_eq!(Encode::UTF8.decode(&[]), "");
}

#[test]
fn passthrough_does_not_join_multi_byte_sequences() {
    // The three bytes of U+3042 in real UTF-8 stay three characters.
    assert_eq!(Encode::UTF8.decode(&[0xE3, 0x81, 0x82]), "\u{e3}\u{81}\u{82}");
}

#[test]
fn passthrough_encodes_each_character_to_its_low_byte() {
    assert_eq!(Encode::UTF8.encode("Hi"), vec![0x48u8, 0x69u8]);
    assert_eq!(Encode::UTF8.encode("\u{e9}"), vec![0xE9u8]);
    assert_eq!(Encode::UTF8.encode("\u{3042}"), vec![0x42u8]);
    assert_eq!(Encode::UTF8.encode("\u{1F600}"), vec![0x00u8]);
    assert_eq!(Encode::UTF8.encode(""), Vec::<u8>::new());
}

#[test]
fn passthrough_round_trip_gives_every_byte_back() {
    let mut all: Vec<u8> = Vec::new();
    let mut b: u8 = 0;
    loop {
        all.push(b);
        if b == 255 {
            break;
        }
        b += 1;
    }
    let text: String = Encode::UTF8.decode(&all);
    assert_eq!(text.chars().count(), 256);
    assert_eq!(Encode::UTF8.encode(&text), all);
}

#[test]
fn shift_jis_decodes_double_byte_characters() {
    assert_eq!(Encode::SHIFTJIS.decode(&[0x82, 0xA0]), "\u{3042}");
    assert_eq!(
        Encode::SHIFTJIS.decode(&[0x93, 0xFA, 0x96, 0x7B, 0x8C, 0xEA]),
        "\u{65e5}\u{672c}\u{8a9e}"
    );
    assert_eq!(Encode::SHIFTJIS.decode(&[0xB1]), "\u{ff71}");
}

#[test]
fn shift_jis_encodes_double_byte_characters() {
    assert_eq!(Encode::SHIFTJIS.encode("\u{3042}"), vec![0x82u8, 0xA0u8]);
    assert_eq!(
        Encode::SHIFTJIS.encode("\u{65e5}\u{672c}\u{8a9e}"),
        vec![0x93u8, 0xFAu8, 0x96u8, 0x7Bu8, 0x8Cu8, 0xEAu8]
    );
}

#[test]
fn shift_jis_keeps_ascii_as_it_stands() {
    assert_eq!(Encode::SHIFTJIS.decode(b"Hello\r\n"), "Hello\r\n");
    assert_eq!(Encode::SHIFTJIS.encode("Hello\r\n"), b"Hello\r\n".to_vec());
    assert_eq!(Encode::SHIFTJIS.decode(&[0x00]), "\u{0}");
    assert_eq!(Encode::SHIFTJIS.decode(&[]), "");
    assert_eq!(Encode::SHIFTJIS.encode(""), Vec::<u8>::new());
}

#[test]
fn shift_jis_round_trip_gives_representable_bytes_back() {
    let bytes: Vec<u8> = vec![0x41, 0x82, 0xA0, 0x42, 0x93, 0xFA, 0x0D, 0x0A];
    let text: String = Encode::SHIFTJIS.decode(&bytes);
    assert_eq!(text, "A\u{3042}B\u{65e5}\r\n");
    assert_eq!(Encode::SHIFTJIS.encode(&text), bytes);
}

#[test]
fn shift_jis_replaces_malformed_bytes() {
    assert_eq!(Encode::SHIFTJIS.decode(&[0x41, 0xFF]), "A\u{fffd}");
    assert_eq!(Encode::SHIFTJIS.decode(&[0x82]), "\u{fffd}");
}

#[test]
fn shift_jis_reads_a_byte_order_mark_as_shift_jis() {
    assert_eq!(
        Encode::SHIFTJIS.decode(&[0xFF, 0xFE, 0x41, 0x00]),
        "\u{fffd}\u{fffd}A\u{0}"
    );
    assert_eq!(Encode::SHIFTJIS.decode(&[0xFE, 0xFF, 0x00, 0x41]), "\u{fffd}\u{fffd}\u{0}A");
    let text: String = Encode::SHIFTJIS.decode(&[0xEF, 0xBB, 0xBF, 0x82, 0xA0]);
    assert!(text.ends_with("\u{ff7f}\u{3042}"));
    assert!(!Encode::SHIFTJIS.decode(&[0xEF, 0xBB, 0xBF]).is_empty());
}

#[test]
fn shift_jis_replaces_unmappable_characters() {
    assert_eq!(Encode::SHIFTJIS.encode("\u{20ac}"), b"&#8364;".to_vec());
}

#[test]
fn codec_takes_what_it_can_size_a_buffer_for() {
    assert_eq!(MAX_SHIFT_JIS_INPUT, usize::MAX / 128);
    assert!(Encode::UTF8.takes(usize::MAX));
    assert!(Encode::SHIFTJIS.takes(0));
    assert!(Encode::SHIFTJIS.takes(MAX_SHIFT_JIS_INPUT));
    assert!(!Encode::SHIFTJIS.takes(MAX_SHIFT_JIS_INPUT + 1));
}
