use ox_settings::text::{
    comes_before, contains_text, copy_texts, insert_text, is_ascii_digit, is_control, is_white_space, number_text,
    parse_u32, place_of_text, sort_texts, trim,
};

fn texts(v: &[&str]) -> Vec<String> {
    v.iter().map(|s| s.to_string()).collect()
}

#[test]
fn trim_takes_white_space_off_both_ends() {
    assert_eq!(trim("  a b \t\n"), "a b");
    assert_eq!(trim("\u{2003}x\u{00a0}"), "x");
    assert_eq!(trim(" \n "), "");
    assert_eq!(trim(""), "");
}

#[test]
fn trimming_again_changes_nothing() {
    for s in ["", "  a ", "\ta b", "x"] {
        assert_eq!(trim(&trim(s)), trim(s));
    }
}

#[test]
fn trim_agrees_with_std() {
    for s in ["\u{feff}a", "\u{3000}b\u{3000}", "c\u{200b}", "\r\n d"] {
        assert_eq!(trim(s), s.trim());
    }
}

#[test]
fn white_space_is_what_std_says() {
    for c in '\0'..=char::MAX {
        assert_eq!(is_white_space(c), c.is_whitespace(), "{c:?}");
    }
}

#[test]
fn numerals_are_read_as_std_reads_them() {
    for s in ["0", "7", "007", "+7", "4294967295", "4294967296", "", "+", "-1", "1a", " 1", "++1"] {
        assert_eq!(parse_u32(s), s.parse::<u32>().ok(), "{s:?}");
    }
}

#[test]
fn numbers_are_written_in_decimal() {
    assert_eq!(number_text(0), "0");
    assert_eq!(number_text(200_000), "200000");
    assert_eq!(number_text(u64::MAX), "18446744073709551615");
}

#[test]
fn written_numbers_read_back() {
    for n in [0u32, 9, 10, 4096, u32::MAX] {
        assert_eq!(parse_u32(&number_text(n as u64)), Some(n));
    }
}

#[test]
fn dictionary_order_is_std_order() {
    let words = ["", "a", "aa", "ab", "b", "B", "é", "名"];
    for a in words {
        assert!(!comes_before(a, a));
        for b in words {
            assert_eq!(comes_before(a, b), a < b, "{a:?} {b:?}");
        }
    }
}

#[test]
fn sorting_drops_duplicates() {
    assert_eq!(sort_texts(&texts(&["b", "a", "b", "c", "a"])), texts(&["a", "b", "c"]));
    assert!(sort_texts(&texts(&[])).is_empty());
}

#[test]
fn inserting_keeps_order() {
    let mut v = texts(&["a", "c"]);
    insert_text(&mut v, "b");
    assert_eq!(v, texts(&["a", "b", "c"]));
    insert_text(&mut v, "b");
    assert_eq!(v, texts(&["a", "b", "c"]));
}

#[test]
fn texts_are_found_at_their_first_place() {
    let v = texts(&["a", "b", "a"]);
    assert_eq!(place_of_text(&v, "a"), Some(0));
    assert_eq!(place_of_text(&v, "b"), Some(1));
    assert_eq!(place_of_text(&v, "c"), None);
    assert!(contains_text(&v, "b"));
    assert!(!contains_text(&v, ""));
    assert_eq!(copy_texts(&v), v);
}

#[test]
fn characters_are_classified_as_std_does() {
    for c in ['0', '9', 'a', ' ', '\u{7}', '\u{7f}', '\u{85}', '٣'] {
        assert_eq!(is_ascii_digit(c), c.is_ascii_digit());
        assert_eq!(is_control(c), c.is_control());
    }
}
