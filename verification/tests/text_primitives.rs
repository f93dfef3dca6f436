use mqttui::text::{find, is_space, read_u16, slice_to_string, starts_with, to_chars, trim_bounds};

fn chars(text: &str) -> Vec<char> {
    text.chars().collect()
}

#[test]
fn characters_come_out_in_order() {
    assert_eq!(to_chars("aé例🙂"), vec!['a', 'é', '例', '🙂']);
    assert_eq!(to_chars(""), Vec::<char>::new());
}

#[test]
fn whitespace_is_what_the_standard_library_calls_whitespace() {
    for code in 0..=0x11_0000u32 {
        if let Some(c) = char::from_u32(code) {
            assert_eq!(is_space(c), c.is_whitespace(), "U+{:04X}", code);
        }
    }
}

#[test]
fn trimming_keeps_the_range_between_the_whitespace() {
    assert_eq!(trim_bounds(&chars("  ab c \n")), (2, 6));
    assert_eq!(trim_bounds(&chars("abc")), (0, 3));
    assert_eq!(trim_bounds(&chars("")), (0, 0));
    assert_eq!(trim_bounds(&chars(" \t ")), (3, 3));
    assert_eq!(trim_bounds(&chars("x ")), (0, 1));
    assert_eq!(trim_bounds(&chars(" x")), (1, 2));
}

#[test]
fn trimming_agrees_with_the_standard_library() {
    for text in ["", " ", "a", " a", "a ", " a b ", "\u{2003}x\u{2003}", "\n\n", "\u{feff}a "] {
        let all = chars(text);
        let (lo, hi) = trim_bounds(&all);
        let kept: String = all[lo..hi].iter().collect();
        assert_eq!(kept, text.trim(), "{:?}", text);
    }
}

#[test]
fn a_prefix_is_found_at_the_start_of_the_range_only() {
    let all = chars("xxmqtt://host");
    assert!(starts_with(&all, 2, 13, &chars("mqtt://")));
    assert!(!starts_with(&all, 0, 13, &chars("mqtt://")));
    assert!(!starts_with(&all, 2, 8, &chars("mqtt://")));
    assert!(starts_with(&all, 2, 9, &chars("mqtt://")));
    assert!(starts_with(&all, 5, 5, &chars("")));
    assert!(!starts_with(&all, 3, 13, &chars("mqtt://")));
}

#[test]
fn the_first_occurrence_is_found() {
    let all = chars("a:b:c");
    assert_eq!(find(&all, 0, 5, ':'), 1);
    assert_eq!(find(&all, 2, 5, ':'), 3);
    assert_eq!(find(&all, 4, 5, ':'), 5);
    assert_eq!(find(&all, 0, 1, ':'), 1);
    assert_eq!(find(&all, 3, 3, ':'), 3);
}

#[test]
fn numbers_are_read_from_a_range() {
    let all = chars("ab1883cd");
    assert_eq!(read_u16(&all, 2, 6), Some(1883));
    assert_eq!(read_u16(&all, 2, 7), None);
    assert_eq!(read_u16(&all, 1, 6), None);
    assert_eq!(read_u16(&all, 3, 3), None);
    assert_eq!(read_u16(&chars("+65535"), 0, 6), Some(65535));
    assert_eq!(read_u16(&chars("65536"), 0, 5), None);
    assert_eq!(read_u16(&chars("+"), 0, 1), None);
    assert_eq!(read_u16(&chars("000"), 0, 3), Some(0));
}

#[test]
fn numbers_are_read_as_the_standard_library_reads_them() {
    for value in 0..=70000u32 {
        let text = value.to_string();
        assert_eq!(read_u16(&chars(&text), 0, text.len()), text.parse::<u16>().ok());
    }
}

#[test]
fn a_range_of_characters_becomes_a_string() {
    assert_eq!(slice_to_string("aé例🙂b", 1, 4), "é例🙂");
    assert_eq!(slice_to_string("abc", 0, 3), "abc");
    assert_eq!(slice_to_string("abc", 2, 2), "");
}
