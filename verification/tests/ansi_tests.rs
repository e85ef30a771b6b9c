use savecodex::ansi::{palette, parse_ansi_line, parse_i32, Rgb, StyledRun};

const FG: Rgb = Rgb(242, 242, 242);

fn simple(runs: &[StyledRun]) -> Vec<(String, Rgb, bool)> {
    runs.iter().map(|r| (r.text.clone(), r.color, r.bold)).collect()
}

#[test]
fn palette_colours() {
    assert_eq!(palette(0, false), Rgb(0x2e, 0x34, 0x36));
    assert_eq!(palette(1, true), Rgb(0xef, 0x29, 0x29));
    assert_eq!(palette(4, false), Rgb(0x34, 0x65, 0xa4));
    assert_eq!(palette(7, true), Rgb(0xee, 0xee, 0xec));
    assert_eq!(palette(8, true), Rgb(0xd3, 0xd7, 0xcf));
    assert_eq!(palette(200, false), Rgb(0xd3, 0xd7, 0xcf));
}

#[test]
fn parse_integers_like_std() {
    for s in ["0", "31", "+7", "-12", "007", "2147483647", "-2147483648", "2147483648", "-2147483649", "", "+", "-", "3a", " 1", "99999999999999999999", "١"] {
        assert_eq!(parse_i32(s), s.parse::<i32>().ok(), "input {:?}", s);
    }
}

#[test]
fn plain_text_is_one_default_run() {
    let runs = parse_ansi_line("hello world", FG);
    assert_eq!(simple(&runs), vec![("hello world".to_string(), FG, false)]);
    assert!(parse_ansi_line("", FG).is_empty());
}

#[test]
fn colour_and_bold_codes() {
    let runs = parse_ansi_line("a\x1b[31mred\x1b[1;32mgreen\x1b[0mplain", FG);
    assert_eq!(
        simple(&runs),
        vec![
            ("a".to_string(), FG, false),
            ("red".to_string(), Rgb(0xcc, 0x00, 0x00), false),
            ("green".to_string(), Rgb(0x8a, 0xe2, 0x34), true),
            ("plain".to_string(), FG, false),
        ]
    );
}

#[test]
fn bright_codes_reset_and_default_colour() {
    let runs = parse_ansi_line("\x1b[93mPS>\x1b[mx\x1b[34;22my\x1b[39mz", FG);
    assert_eq!(
        simple(&runs),
        vec![
            ("PS>".to_string(), Rgb(0xfc, 0xe9, 0x4f), false),
            ("x".to_string(), FG, false),
            ("y".to_string(), Rgb(0x34, 0x65, 0xa4), false),
            ("z".to_string(), FG, false),
        ]
    );
}

#[test]
fn other_sequences_and_controls_are_dropped() {
    let runs = parse_ansi_line("ab\x1b[2Kc\r\x04d", FG);
    assert_eq!(simple(&runs), vec![("abcd".to_string(), FG, false)]);
}

#[test]
fn unknown_and_malformed_parameters_are_skipped() {
    let runs = parse_ansi_line("\x1b[?;31;;45mq", FG);
    assert_eq!(simple(&runs), vec![("q".to_string(), Rgb(0xcc, 0x00, 0x00), false)]);
}

#[test]
fn a_letter_ends_the_sequence() {
    let runs = parse_ansi_line("\x1b[x;31mq", FG);
    assert_eq!(simple(&runs), vec![(";31mq".to_string(), FG, false)]);
}

#[test]
fn unterminated_escape_is_kept_as_text() {
    let runs = parse_ansi_line("\x1b[12", FG);
    assert_eq!(simple(&runs), vec![("\x1b[12".to_string(), FG, false)]);
}

#[test]
fn runs_are_never_empty() {
    let runs = parse_ansi_line("\x1b[31m\x1b[32m\x1b[0m", FG);
    assert!(runs.is_empty());
    let runs = parse_ansi_line("x\x1b[1m\x1b[0my", FG);
    assert!(runs.iter().all(|r| !r.text.is_empty()));
    assert_eq!(runs.len(), 2);
}
