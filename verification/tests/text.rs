use nvmon::text::{
    align_left, align_right, can_cut, characters, cut, decimal, is_before, occurs_in, repeated,
    rounded, signed_decimal,
};

#[test]
fn numbers_are_written_in_decimal() {
    for n in [0u64, 7, 9, 10, 99, 100, 12345, u64::MAX] {
        assert_eq!(decimal(n), format!("{}", n));
    }
    for n in [0i32, 7, -7, 1234, -1234, i32::MAX, i32::MIN] {
        assert_eq!(signed_decimal(n), format!("{}", n));
    }
}

#[test]
fn a_numeral_reads_back() {
    for n in [0u64, 5, 10, 907, 4096, u64::MAX] {
        let back: u64 = decimal(n).parse().unwrap();
        assert_eq!(back, n);
    }
}

#[test]
fn padding_counts_characters() {
    assert_eq!(align_right("Mem", 8), "     Mem");
    assert_eq!(align_right("", 3), "   ");
    assert_eq!(align_right("longer than that", 8), "longer than that");
    assert_eq!(align_left("é", 3), "é  ");
    assert_eq!(align_left("日本", 4), format!("{:<4}", "日本"));
    assert_eq!(align_right("▲ PID", 8), format!("{:>8}", "▲ PID"));
}

#[test]
fn repeated_characters_make_a_rule() {
    assert_eq!(repeated('─', 3), "───");
    assert_eq!(repeated('x', 0), "");
    assert_eq!(characters("a─b"), vec!['a', '─', 'b']);
}

#[test]
fn rounding_agrees_with_doubles() {
    assert_eq!(rounded(500, 1000), 0);
    assert_eq!(rounded(1500, 1000), 2);
    assert_eq!(rounded(2500, 1000), 2);
    assert_eq!(rounded(2501, 1000), 3);
    assert_eq!(rounded(u64::MAX, 1), u64::MAX);
    assert_eq!(rounded(25, 2), 12);
    let mut milli: u64 = 0;
    while milli < 20000 {
        let shown = format!("{:.0}", milli as f64 / 1000.0);
        assert_eq!(decimal(rounded(milli, 1000)), shown);
        milli += 1;
    }
    for max in [0u64, 1, 2, 3, 5, 24564, 81559] {
        assert_eq!(decimal(rounded(max, 2)), format!("{:.0}", max as f64 / 2.0));
    }
}

#[test]
fn rounding_moves_by_at_most_one_half() {
    for n in [0u64, 1, 499, 500, 501, 999, 1000, 123456] {
        let r = rounded(n, 1000) as i64 * 1000;
        assert!((2 * (r - n as i64)).abs() <= 1000);
    }
}

#[test]
fn a_text_is_found_where_it_occurs() {
    assert!(occurs_in("python3", "tho"));
    assert!(occurs_in("python3", ""));
    assert!(occurs_in("", ""));
    assert!(occurs_in("aab", "ab"));
    assert!(occurs_in("naïve", "ïv"));
    assert!(!occurs_in("python3", "perl"));
    assert!(!occurs_in("ab", "abc"));
}

#[test]
fn texts_are_ordered_as_strings_are() {
    let texts = ["", "a", "ab", "abc", "b", "é", "日本", "z", "\u{1f600}"];
    for a in texts {
        assert!(!is_before(a, a));
        for b in texts {
            assert_eq!(is_before(a, b), a < b);
            for c in texts {
                if is_before(a, b) && is_before(b, c) {
                    assert!(is_before(a, c));
                }
            }
            if a != b {
                assert!(is_before(a, b) || is_before(b, a));
            }
        }
    }
}

#[test]
fn names_are_cut_to_their_first_bytes() {
    let short = "/usr/bin/python3";
    assert!(can_cut(short));
    assert_eq!(cut(short), short);
    let exact = "0123456789abcdef0123456789abcdef";
    assert_eq!(cut(exact), exact);
    let long = "0123456789abcdef0123456789abcdefXYZ";
    assert!(can_cut(long));
    assert_eq!(cut(long), exact);
    // 31 bytes, then a character of two bytes that the cut would split
    let split = "0123456789abcdef0123456789abcdeé and more";
    assert!(!can_cut(split));
    let clean = "0123456789abcdef0123456789abcdé and more";
    assert!(can_cut(clean));
    assert_eq!(cut(clean), "0123456789abcdef0123456789abcdé");
    assert!(clean.starts_with(cut(clean)));
}
