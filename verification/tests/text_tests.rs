use vodfriends_rs::text::{
    chars_of, contains_text, copy_range, end_without_trailing, find_char, find_in, find_tagged,
    is_space_char, lines_of, matches_at, remove_all_of, rfind_char, starts_with,
    string_of, string_of_range, trimmed,
};

fn text(s: &str) -> Vec<char> {
    s.chars().collect()
}

#[test]
fn chars_and_strings_convert_both_ways() {
    assert_eq!(chars_of("héllo"), vec!['h', 'é', 'l', 'l', 'o']);
    assert_eq!(string_of(&text("héllo")), "héllo");
    assert_eq!(string_of_range(&text("héllo"), 1, 3), "él");
    assert_eq!(copy_range(&text("héllo"), 2, 5), text("llo"));
    assert_eq!(chars_of(""), Vec::<char>::new());
}

#[test]
fn lines_are_the_pieces_between_line_feeds() {
    assert_eq!(lines_of(&text("")), vec![text("")]);
    assert_eq!(lines_of(&text("a")), vec![text("a")]);
    assert_eq!(lines_of(&text("a\nb")), vec![text("a"), text("b")]);
    assert_eq!(lines_of(&text("a\n")), vec![text("a"), text("")]);
    assert_eq!(lines_of(&text("\n\nx\r\n")), vec![text(""), text(""), text("x\r"), text("")]);
}

#[test]
fn lines_agree_with_split() {
    for s in ["", "\n", "one\ntwo\n\nthree", "#EXTM3U\n#EXTINF:1,\na.ts\n"] {
        let expected: Vec<Vec<char>> = s.split('\n').map(text).collect();
        assert_eq!(lines_of(&text(s)), expected);
    }
}

#[test]
fn prefix_and_occurrence() {
    assert!(starts_with(&text("#EXTINF:1"), &text("#EXTINF:")));
    assert!(!starts_with(&text("#EXTIN"), &text("#EXTINF:")));
    assert!(starts_with(&text("abc"), &text("")));
    assert!(matches_at(&text("abcabc"), &text("bc"), 4));
    assert!(!matches_at(&text("abcabc"), &text("bc"), 5));
    assert!(!matches_at(&text("abc"), &text("c"), 9));
    assert_eq!(find_in(&text("abcabc"), &text("bc")), Some(1));
    assert_eq!(find_in(&text("abcabc"), &text("cb")), None);
    assert_eq!(find_in(&text("abc"), &text("")), Some(0));
    assert_eq!(find_in(&text("ab"), &text("abc")), None);
    assert_eq!(find_in(&text("xxabc"), &text("abc")), Some(2));
    assert!(contains_text(&text("seg-muted.ts"), &text("-muted")));
    assert!(!contains_text(&text("seg-mute.ts"), &text("-muted")));
}

#[test]
fn characters_are_found_from_both_ends() {
    assert_eq!(find_char(&text("a/b/c"), '/'), Some(1));
    assert_eq!(rfind_char(&text("a/b/c"), '/'), Some(3));
    assert_eq!(find_char(&text("abc"), '/'), None);
    assert_eq!(rfind_char(&text("abc"), '/'), None);
    assert_eq!(rfind_char(&text(""), '/'), None);
}

#[test]
fn every_occurrence_is_taken_out() {
    assert_eq!(remove_all_of(&text("seg-1-muted.ts"), &text("-muted")), text("seg-1.ts"));
    assert_eq!(remove_all_of(&text("-muted-muted"), &text("-muted")), text(""));
    assert_eq!(remove_all_of(&text("-mu-mutedted"), &text("-muted")), text("-muted"));
    assert_eq!(remove_all_of(&text("aaa"), &text("aa")), text("a"));
    assert_eq!(remove_all_of(&text("abc"), &text("")), text("abc"));
    assert_eq!(remove_all_of(&text("abc"), &text("abcd")), text("abc"));
    for (s, pat) in [("seg-muted-muted.ts", "-muted"), ("ababab", "aba"), ("xyz", "y")] {
        assert_eq!(string_of(&remove_all_of(&text(s), &text(pat))), s.replace(pat, ""));
    }
}

#[test]
fn white_space_comes_off_both_ends() {
    assert_eq!(trimmed(&text("  a b \t\r\n")), text("a b"));
    assert_eq!(trimmed(&text("")), text(""));
    assert_eq!(trimmed(&text(" \u{a0}\u{3000} ")), text(""));
    assert_eq!(trimmed(&text("x")), text("x"));
    for s in ["  2024-01-02T03:04:05\r", "\u{2003}a\u{85}", "a\u{200b}"] {
        assert_eq!(string_of(&trimmed(&text(s))), s.trim());
    }
}

#[test]
fn white_space_is_what_the_standard_says() {
    for n in 0..0x3100u32 {
        if let Some(c) = char::from_u32(n) {
            assert_eq!(is_space_char(c), c.is_whitespace());
        }
    }
}

#[test]
fn trailing_characters_come_off() {
    let line = text("#EXTINF:9.009,,");
    assert_eq!(end_without_trailing(&line, 8, ','), 13);
    assert_eq!(end_without_trailing(&text("#EXTINF:,,,"), 8, ','), 8);
    assert_eq!(end_without_trailing(&text("abc"), 0, ','), 3);
    assert_eq!(end_without_trailing(&text(",,"), 1, ','), 1);
}

#[test]
fn first_line_with_a_tag_is_found() {
    let lines = vec![text("a"), text("#T:1"), text("#T:2")];
    assert_eq!(find_tagged(&lines, &text("#T:")), Some(1));
    assert_eq!(find_tagged(&lines, &text("#U:")), None);
    assert_eq!(find_tagged(&Vec::new(), &text("#T:")), None);
}
