use psoxide::cdrom::cue::{image_name, NoFileDirective};
use psoxide::text::{
    chars_of, eq_ignoring_case, find_from, find_line, parse_hex, push_decimal, push_hex,
    push_text, strip_prefix, strip_prefixes,
    take_before, take_second_field, take_second_word, trim,
};

fn c(s: &str) -> Vec<char> {
    chars_of(s)
}

#[test]
fn a_quoted_image_name_is_found() {
    let cue = "REM x\r\nFILE \"Game (Track 1).bin\" BINARY\r\n  TRACK 01 MODE2/2352\r\n";
    assert_eq!(image_name(cue), Ok(String::from("Game (Track 1).bin")));
}

#[test]
fn a_bare_image_name_is_the_second_word() {
    assert_eq!(image_name("  FILE\tgame.bin BINARY"), Ok(String::from("game.bin")));
    assert_eq!(image_name("FILE   game.bin"), Ok(String::from("game.bin")));
}

#[test]
fn names_outside_ascii_are_kept() {
    assert_eq!(image_name("FILE \"ゲーム é.bin\" BINARY"), Ok(String::from("ゲーム é.bin")));
    // An ideographic space is white space too.
    assert_eq!(image_name("\u{3000}FILE a.bin"), Ok(String::from("a.bin")));
}

#[test]
fn the_first_file_line_counts() {
    assert_eq!(image_name("FILE a.bin\nFILE b.bin\n"), Ok(String::from("a.bin")));
    assert_eq!(image_name("FILEX y\nFILE b.bin\n"), Ok(String::from("y")));
}

#[test]
fn cue_sheets_without_an_image_are_refused() {
    assert_eq!(image_name(""), Err(NoFileDirective {}));
    assert_eq!(image_name("TRACK 01\n"), Err(NoFileDirective {}));
    assert_eq!(image_name("FILE"), Err(NoFileDirective {}));
    assert_eq!(image_name("FILE \"open"), Err(NoFileDirective {}));
    assert_eq!(image_name("file a.bin"), Err(NoFileDirective {}));
}

#[test]
fn white_space_is_trimmed_at_both_ends() {
    assert_eq!(trim(&c(" \t a b \r\n")), &c("a b")[..]);
    assert_eq!(trim(&c("   ")), &c("")[..]);
    assert_eq!(trim(&c("\u{a0}x\u{2003}")), &c("x")[..]);
}

#[test]
fn fields_and_words_are_split() {
    assert_eq!(take_before(&c("NAME;1"), ';'), &c("NAME")[..]);
    assert_eq!(take_before(&c("NAME"), ';'), &c("NAME")[..]);
    assert_eq!(take_second_field(&c("BOOT = x = y"), '='), Some(&c(" x ")[..]));
    assert_eq!(take_second_field(&c("BOOT"), '='), None);
    assert_eq!(take_second_field(&c("BOOT="), '='), Some(&c("")[..]));
    assert_eq!(take_second_word(&c("one")), None);
    assert_eq!(take_second_word(&c(" one  two three")), Some(&c("two")[..]));
    assert_eq!(find_from(&c("abca"), 'a', 1), 3);
    assert_eq!(find_from(&c("abc"), 'x', 0), 3);
}

#[test]
fn prefixes_are_stripped() {
    assert_eq!(strip_prefix(&c("cdrom:A"), &c("cdrom:")), Some(&c("A")[..]));
    assert_eq!(strip_prefix(&c("cdro"), &c("cdrom:")), None);
    assert_eq!(strip_prefixes(&c("0x0x12"), &c("0x")), &c("12")[..]);
    assert_eq!(strip_prefixes(&c("12"), &c("0x")), &c("12")[..]);
}

#[test]
fn lines_are_found_by_their_start() {
    let text = c("A=1\r\nBOOT=2\r\n BOOT=3");
    assert_eq!(find_line(&text, &c("BOOT"), false), Some(&c("BOOT=2")[..]));
    assert_eq!(find_line(&c("x\n BOOT=3"), &c("BOOT"), false), None);
    assert_eq!(find_line(&c("x\n BOOT=3"), &c("BOOT"), true), Some(&c("BOOT=3")[..]));
    // A carriage return at the very end belongs to the line.
    assert_eq!(find_line(&c("BOOT\r"), &c("BOOT"), false), Some(&c("BOOT\r")[..]));
}

#[test]
fn hexadecimal_numbers_are_read() {
    assert_eq!(parse_hex(&c("801FFF00")), Some(0x801F_FF00));
    assert_eq!(parse_hex(&c("+fF")), Some(0xFF));
    assert_eq!(parse_hex(&c("FFFFFFFF")), Some(u32::MAX));
    assert_eq!(parse_hex(&c("000000001")), Some(1));
    assert_eq!(parse_hex(&c("100000000")), None);
    assert_eq!(parse_hex(&c("12g")), None);
    assert_eq!(parse_hex(&c("")), None);
    assert_eq!(parse_hex(&c("+")), None);
    assert_eq!(parse_hex(&c("-1")), None);
}

#[test]
fn case_is_ignored_for_ascii_only() {
    assert!(eq_ignoring_case(&c("System.cnf"), &c("SYSTEM.CNF")));
    assert!(!eq_ignoring_case(&c("SYSTEM"), &c("SYSTEM.CNF")));
    assert!(!eq_ignoring_case(&c("é"), &c("É")));
}

#[test]
fn white_space_is_the_unicode_property() {
    let white = |u: u32| {
        matches!(
            u,
            0x09..=0x0D
                | 0x20
                | 0x85
                | 0xA0
                | 0x1680
                | 0x2000..=0x200A
                | 0x2028
                | 0x2029
                | 0x202F
                | 0x205F
                | 0x3000
        )
    };
    for u in 0..=0x10_FFFFu32 {
        if let Some(ch) = char::from_u32(u) {
            assert_eq!(trim(&[ch]).is_empty(), white(u));
        }
    }
}

#[test]
fn numbers_are_written_out() {
    let mut out = c("x=");
    push_hex(&mut out, 0xBEEF, 2);
    push_text(&mut out, ",");
    push_hex(&mut out, 0xA, 4);
    push_text(&mut out, ",");
    push_decimal(&mut out, 0);
    push_text(&mut out, ",");
    push_decimal(&mut out, u64::MAX);
    assert_eq!(out, c("x=BEEF,000A,0,18446744073709551615"));
}
