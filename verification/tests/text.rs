use chat_gateway::text::{
    find, join2, range_is, same_text, split_ranges, string_of, to_chars, trim_range, whitespace,
};

#[test]
fn chars_and_back() {
    let v = to_chars("a✓b");
    assert_eq!(v, vec!['a', '✓', 'b']);
    assert_eq!(string_of(&v, 1, 3), "✓b");
    assert_eq!(string_of(&v, 2, 2), "");
}

#[test]
fn find_gives_first_or_end() {
    let v = to_chars("a:b:c");
    assert_eq!(find(&v, 0, 5, ':'), 1);
    assert_eq!(find(&v, 2, 5, ':'), 3);
    assert_eq!(find(&v, 4, 5, ':'), 5);
    assert_eq!(find(&v, 0, 5, 'x'), 5);
    assert_eq!(find(&v, 3, 3, ':'), 3);
}

#[test]
fn split_keeps_empty_pieces() {
    let v = to_chars(",a,,b,");
    assert_eq!(split_ranges(&v, 0, 6, ','), vec![(0, 0), (1, 2), (3, 3), (4, 5), (6, 6)]);
    assert_eq!(split_ranges(&v, 1, 2, ','), vec![(1, 2)]);
    assert_eq!(split_ranges(&v, 0, 0, ','), vec![(0, 0)]);
}

#[test]
fn trim_takes_white_space_off_both_ends() {
    let v = to_chars(" \t a b\r\n\u{3000}");
    assert_eq!(trim_range(&v, 0, v.len()), (3, 6));
    let v = to_chars("   ");
    let (a, b) = trim_range(&v, 0, 3);
    assert_eq!(a, b);
    let v = to_chars("ab");
    assert_eq!(trim_range(&v, 0, 2), (0, 2));
}

#[test]
fn whitespace_is_that_of_std() {
    let mut c = 0u32;
    while c < 0x3100 {
        if let Some(ch) = char::from_u32(c) {
            assert_eq!(whitespace(ch), ch.is_whitespace());
        }
        c += 1;
    }
}

#[test]
fn range_is_compares_whole_words() {
    let v = to_chars("PINGS");
    assert!(range_is(&v, 0, 4, "PING"));
    assert!(!range_is(&v, 0, 5, "PING"));
    assert!(!range_is(&v, 1, 5, "PING"));
    assert!(range_is(&v, 2, 2, ""));
}

#[test]
fn joining_and_comparing() {
    assert_eq!(join2("ab", "cd"), "abcd");
    assert_eq!(join2("", ""), "");
    assert!(same_text("é", "é"));
    assert!(!same_text("a", "A"));
    assert!(!same_text("a", "ab"));
}
