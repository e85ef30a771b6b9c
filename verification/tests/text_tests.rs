use savecodex::text::{
    chars_of, join_strings, replace_str, split_str, str_contains, str_eq, str_starts_with,
    trim_end_matches_char, trim_start_matches_char, trim_str,
};

#[test]
fn replace_scans_left_to_right_without_overlap() {
    assert_eq!(replace_str("aaa", "aa", "b"), "ba");
    assert_eq!(replace_str("{file} and {file}", "{file}", "x.py"), "x.py and x.py");
    assert_eq!(replace_str("nothing here", "{dir}", "."), "nothing here");
    assert_eq!(replace_str("", "x", "y"), "");
    assert_eq!(replace_str("héllo wörld", "ö", "o"), "héllo world");
}

#[test]
fn split_keeps_empty_pieces() {
    assert_eq!(split_str("a,b", ','), vec!["a", "b"]);
    assert_eq!(split_str("", ','), vec![""]);
    assert_eq!(split_str("a,", ','), vec!["a", ""]);
    assert_eq!(split_str(",,", ','), vec!["", "", ""]);
}

#[test]
fn split_then_join_gives_back_the_text() {
    for s in ["a,b,,c", "", ",", "no separator", "ü,ß,"] {
        let parts = split_str(s, ',');
        assert_eq!(join_strings(&parts, ","), s);
        assert!(parts.iter().all(|p| !p.contains(',')));
    }
}

#[test]
fn join_with_spaces() {
    let v = vec!["python3".to_string(), "main.py".to_string()];
    assert_eq!(join_strings(&v, " "), "python3 main.py");
    assert_eq!(join_strings(&Vec::new(), " "), "");
}

#[test]
fn trimming() {
    assert_eq!(trim_str("  py \t"), "py");
    assert_eq!(trim_str("\u{3000}x\u{a0}"), "x");
    assert_eq!(trim_str("   "), "");
    assert_eq!(trim_start_matches_char("//a/b", '/'), "a/b");
    assert_eq!(trim_end_matches_char("out\n\n\n", '\n'), "out");
    assert_eq!(trim_end_matches_char("\n", '\n'), "");
}

#[test]
fn comparisons() {
    assert!(str_eq("light", "light"));
    assert!(!str_eq("light", "lights"));
    assert!(str_starts_with("$ run", "$ "));
    assert!(!str_starts_with("$", "$ "));
    assert!(str_contains("Error: Invalid API Key given", "Invalid API Key"));
    assert!(!str_contains("Invalid API", "Invalid API Key"));
    assert!(str_contains("abc", ""));
    assert_eq!(chars_of("aé"), vec!['a', 'é']);
}
