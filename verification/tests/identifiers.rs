use mqttui::uuid::Uuid;

#[test]
fn text_has_five_groups_of_lower_case_digits() {
    let uuid = Uuid::from_bytes([
        0x00, 0x01, 0x7f, 0x80, 0x9a, 0xbc, 0xde, 0xf0, 0x12, 0x34, 0x56, 0x78, 0x90, 0xab, 0xcd,
        0xef,
    ]);
    assert_eq!(uuid.to_string(), "00017f80-9abc-def0-1234-567890abcdef");
}

#[test]
fn text_of_zero_and_of_all_ones() {
    assert_eq!(Uuid::from_bytes([0; 16]).to_string(), "00000000-0000-0000-0000-000000000000");
    assert_eq!(Uuid::from_bytes([0xff; 16]).to_string(), "ffffffff-ffff-ffff-ffff-ffffffffffff");
}

#[test]
fn bytes_come_back_as_given() {
    let bytes = [1, 2, 3, 4, 5, 6, 7, 8, 9, 10, 11, 12, 13, 14, 15, 16];
    assert_eq!(Uuid::from_bytes(bytes).as_bytes(), bytes);
}

#[test]
fn random_bytes_get_version_and_variant() {
    let uuid = Uuid::from_random_bytes([0xff; 16]);
    assert_eq!(uuid.to_string(), "ffffffff-ffff-4fff-bfff-ffffffffffff");
    let uuid = Uuid::from_random_bytes([0; 16]);
    assert_eq!(uuid.to_string(), "00000000-0000-4000-8000-000000000000");
    let mut expected = [0x5a; 16];
    expected[6] = 0x4a;
    expected[8] = 0x9a;
    assert_eq!(Uuid::from_random_bytes([0x5a; 16]).as_bytes(), expected);
}

#[test]
fn fresh_identifiers_are_random_and_well_formed() {
    let first = Uuid::new_v4().expect("the system gives random bytes");
    let second = Uuid::new_v4().expect("the system gives random bytes");
    for uuid in [first, second] {
        let bytes = uuid.as_bytes();
        assert_eq!(bytes[6] >> 4, 4);
        assert_eq!(bytes[8] >> 6, 2);
        let text = uuid.to_string();
        assert_eq!(text.len(), 36);
        for (at, c) in text.chars().enumerate() {
            if at == 8 || at == 13 || at == 18 || at == 23 {
                assert_eq!(c, '-');
            } else {
                assert!(c.is_ascii_digit() || ('a'..='f').contains(&c));
            }
        }
    }
    assert_ne!(first.as_bytes(), second.as_bytes());
}

#[test]
fn a_draw_gives_the_identifier_of_its_bytes() {
    let made = Uuid::from_drawn(Ok([0x5a; 16])).expect("the draw gave bytes");
    assert_eq!(made.as_bytes(), Uuid::from_random_bytes([0x5a; 16]).as_bytes());
    assert_eq!(made.to_string(), "5a5a5a5a-5a5a-4a5a-9a5a-5a5a5a5a5a5a");
}

#[test]
fn a_failed_draw_gives_no_identifier() {
    assert!(Uuid::from_drawn(Err(getrandom::Error::UNSUPPORTED)).is_none());
    assert!(Uuid::from_drawn(Err(getrandom::Error::UNEXPECTED)).is_none());
}
