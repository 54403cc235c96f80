use dlsite_renamer::extract::ExtractedFields;
use dlsite_renamer::name::{compose, sanitize, substitute};
use dlsite_renamer::text::{chars_of, is_whitespace, string_of, trim};

fn fields(product_id: &str, publisher_name: &str, title: &str) -> ExtractedFields {
    ExtractedFields {
        product_id: product_id.to_string(),
        publisher_name: publisher_name.to_string(),
        title: title.to_string(),
    }
}

fn sanitize_str(s: &str) -> String {
    string_of(&sanitize(&chars_of(s)))
}

fn trim_str(s: &str) -> String {
    string_of(&trim(&chars_of(s)))
}

const RESERVED: [char; 11] = ['/', '\\', '?', '*', '<', '>', '|', '"', ':', '!', '&'];

#[test]
fn compose_replaces_reserved_characters() {
    assert_eq!(
        compose(&fields("RJ123456", "Some Circle", "A/B:Test!")),
        "[RJ123456][Some Circle] A／B：Test！"
    );
}

#[test]
fn compose_keeps_the_space_behind_a_colon() {
    assert_eq!(
        compose(&fields("RJ123456", "Some Circle", "A/B: Test!")),
        "[RJ123456][Some Circle] A／B： Test！"
    );
}

#[test]
fn compose_sets_out_the_three_fields() {
    assert_eq!(compose(&fields("RJ1", "Circle", "Title")), "[RJ1][Circle] Title");
    assert_eq!(compose(&fields("", "", "")), "[][]");
    assert_eq!(compose(&fields("RJ1", "", "T")), "[RJ1][] T");
}

#[test]
fn compose_sanitizes_every_field() {
    assert_eq!(compose(&fields("R/J", "a|b", "c?d")), "[R／J][a｜b] c？d");
}

#[test]
fn compose_trims_the_name() {
    assert_eq!(compose(&fields("RJ1", "C", "Title  \n")), "[RJ1][C] Title");
    assert_eq!(compose(&fields("RJ1", "C", "")), "[RJ1][C]");
    assert_eq!(compose(&fields("RJ1", "C", " \t ")), "[RJ1][C]");
    assert_eq!(compose(&fields("RJ1", " C ", " T ")), "[RJ1][ C ]  T");
}

#[test]
fn compose_output_holds_no_reserved_character() {
    let name = compose(&fields("R:J", "a\"b<c>", "/\\?*<>|\":!& end"));
    for c in RESERVED {
        assert!(!name.contains(c), "{c} in {name}");
    }
    assert_eq!(name, "[R：J][ab＜c＞] ／＼？＊＜＞｜：！＆ end");
}

#[test]
fn compose_is_stable_under_the_substitution_table() {
    for title in ["A/B: Test!", "plain", "\"quoted\"", "a&b|c", "  x  "] {
        let name = compose(&fields("RJ1", "C", title));
        assert_eq!(sanitize_str(&name), name);
        assert_eq!(trim_str(&name), name);
    }
}

#[test]
fn substitution_table() {
    assert_eq!(substitute('/'), Some('／'));
    assert_eq!(substitute('\\'), Some('＼'));
    assert_eq!(substitute('?'), Some('？'));
    assert_eq!(substitute('*'), Some('＊'));
    assert_eq!(substitute('<'), Some('＜'));
    assert_eq!(substitute('>'), Some('＞'));
    assert_eq!(substitute('|'), Some('｜'));
    assert_eq!(substitute('"'), None);
    assert_eq!(substitute(':'), Some('：'));
    assert_eq!(substitute('&'), Some('＆'));
    assert_eq!(substitute('!'), Some('！'));
}

#[test]
fn substitution_table_keeps_other_characters() {
    for c in ['a', 'Z', '0', ' ', '.', '[', ']', '\'', '-', '_', '／', '！', 'あ', '\n'] {
        assert_eq!(substitute(c), Some(c));
    }
}

#[test]
fn no_replacement_is_reserved() {
    for c in RESERVED {
        if let Some(d) = substitute(c) {
            assert!(!RESERVED.contains(&d));
            assert_eq!(substitute(d), Some(d));
        }
    }
}

#[test]
fn sanitize_agrees_with_replacing_in_sequence() {
    for s in ["", "a/b\\c?d*e<f>g|h\"i:j&k!l", "////", "\"\"", "no reserved", "：:：", "!?!?"] {
        let expected = s
            .replace("/", "／")
            .replace("\\", "＼")
            .replace("?", "？")
            .replace("*", "＊")
            .replace("<", "＜")
            .replace(">", "＞")
            .replace("|", "｜")
            .replace("\"", "")
            .replace(":", "：")
            .replace("&", "＆")
            .replace("!", "！");
        assert_eq!(sanitize_str(s), expected);
    }
}

#[test]
fn sanitize_twice_is_sanitize_once() {
    for s in ["a/b", "\"", "x:y:z", "", "?*"] {
        let once = sanitize_str(s);
        assert_eq!(sanitize_str(&once), once);
    }
}

#[test]
fn trim_removes_white_space_at_both_ends() {
    assert_eq!(trim_str("  a b  "), "a b");
    assert_eq!(trim_str("\t\n a\r\n"), "a");
    assert_eq!(trim_str("a"), "a");
    assert_eq!(trim_str(""), "");
    assert_eq!(trim_str("   "), "");
    assert_eq!(trim_str("\u{3000}a\u{a0}"), "a");
    assert_eq!(trim_str("\u{200b}a"), "\u{200b}a");
}

#[test]
fn trim_agrees_with_str_trim() {
    for s in ["", " ", " a", "a ", " a b ", "\u{2003}x\u{2028}", "\u{85}\u{1680}y\u{205f}", "\u{feff}z"] {
        assert_eq!(trim_str(s), s.trim());
    }
}

#[test]
fn white_space_is_what_char_calls_white_space() {
    let mut count = 0;
    for n in 0..=0x10ffffu32 {
        if let Some(c) = char::from_u32(n) {
            assert_eq!(is_whitespace(c), c.is_whitespace(), "U+{n:04X}");
            if is_whitespace(c) {
                count += 1;
            }
        }
    }
    assert_eq!(count, 25);
}

#[test]
fn chars_and_strings_convert_both_ways() {
    assert_eq!(chars_of("aé／"), vec!['a', 'é', '／']);
    assert_eq!(string_of(&vec!['a', 'é', '／']), "aé／");
    assert_eq!(chars_of(""), Vec::<char>::new());
    assert_eq!(string_of(&vec![]), "");
}
