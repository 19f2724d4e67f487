use jevi::text::{
    cat, cat5, chars_of, contains, decimal, list_items, long_decimal, octal4, parse_whole, same,
    shifted_decimal, starts_with, trim, white,
};

#[test]
fn white_space_is_what_unicode_says() {
    for c in (0..=0x10ffff).filter_map(char::from_u32) {
        assert_eq!(white(c), c.is_whitespace(), "{c:?}");
    }
}

#[test]
fn trimming_takes_white_space_off_both_ends() {
    for s in ["", " ", "a", " a", "a ", "\t a b \n", "\u{a0}ñ\u{2003}", "\u{200b}x"] {
        assert_eq!(trim(s), s.trim());
    }
}

#[test]
fn one_text_is_found_in_another() {
    let texts = ["", "a", "ab", "aab", "abab", "mañana", "timed out", "nan"];
    for t in texts {
        for n in texts {
            assert_eq!(contains(t, n), t.contains(n), "{t:?} {n:?}");
            assert_eq!(starts_with(t, n), t.starts_with(n), "{t:?} {n:?}");
            assert_eq!(same(t, n), t == n);
            assert_eq!(cat(t, n), format!("{t}{n}"));
        }
    }
    assert_eq!(cat5("a", "", "b", "ñ", "c"), "abñc");
    assert_eq!(chars_of("añ☃"), ['a', 'ñ', '☃']);
}

#[test]
fn whole_numbers_are_written_in_decimal() {
    for n in [0, 7, 9, 10, 99, 100, 412, 80_000, u64::MAX] {
        assert_eq!(decimal(n), n.to_string());
    }
    for n in [0, u64::MAX as u128 + 1, u128::MAX] {
        assert_eq!(long_decimal(n), n.to_string());
    }
    for n in [1, 5, 9, 1_000_000_007, u64::MAX] {
        for shift in [0, 1, 7, 63] {
            assert_eq!(shifted_decimal(n, shift), ((n as u128) << shift).to_string());
        }
    }
    assert_eq!(shifted_decimal(1, 1023), format!("{:.0}", 2f64.powi(1023)));
}

#[test]
fn modes_are_written_in_octal() {
    for n in [0, 1, 8, 0o600, 0o644, 0o777, 4095] {
        assert_eq!(octal4(n), format!("{n:04o}"));
    }
}

#[test]
fn whole_numbers_are_read_as_the_standard_library_reads_them() {
    for s in [
        "", "+", "-", "0", "007", "+5", "-5", "++5", "5 ", " 5", "5a", "1_000", "٣", "18446744073709551615",
        "18446744073709551616", "99999999999999999999999", "3000",
    ] {
        assert_eq!(parse_whole(s), s.parse::<u64>().ok(), "{s:?}");
    }
}

#[test]
fn a_list_is_split_at_its_commas() {
    for s in ["", ",", "a", "a,b", " a , b ,", ",,a,,b", "a b,c\n,\t", "ñ,☃"] {
        let expected: Vec<String> = s
            .split(',')
            .map(str::trim)
            .filter(|s| !s.is_empty())
            .map(str::to_string)
            .collect();
        assert_eq!(list_items(s), expected);
    }
}

#[test]
fn a_list_splits_as_it_was_joined() {
    for items in [vec!["a"], vec!["bug", "feature", "question"], vec!["ñ ☃", "x", "y z"]] {
        assert_eq!(list_items(&items.join(",")), items);
    }
    // A comma inside an item is a separator like any other.
    assert_eq!(list_items(&["a,b", "c"].join(",")), ["a", "b", "c"]);
}
