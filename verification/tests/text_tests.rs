use win_script_hub::text::{split_chars, starts_with, trim_string};
use win_script_hub::{decode_dialog_output, file_selection, folder_selection, gbk_to_string, gbk_to_unicode};

#[test]
fn gbk_ascii_unchanged() {
    assert_eq!(gbk_to_string(b"C:\\Scripts\\run.bat"), "C:\\Scripts\\run.bat");
    assert_eq!(gbk_to_string(b""), "");
}

#[test]
fn gbk_two_byte_codes() {
    assert_eq!(gbk_to_string(&[0x4E, 0x2D]), "N-");
    assert_eq!(gbk_to_string(&[0xD6, 0xD0]), "中");
    assert_eq!(gbk_to_string(&[0x41, 0xC4, 0xE3, 0x42]), "A你B");
    assert_eq!(gbk_to_string(&[0xC4, 0xE3, 0xBA, 0xC3, 0x21]), "你好!");
    assert_eq!(
        gbk_to_string(&[0x43, 0x3A, 0x5C, 0xBD, 0xC5, 0xB1, 0xBE, 0x5C, 0x61, 0x2E, 0x62, 0x61, 0x74]),
        "C:\\脚本\\a.bat"
    );
}

#[test]
fn gbk_unassigned_codes_are_dropped() {
    assert_eq!(gbk_to_string(&[0xD8, 0x00, 0x41]), "A");
    assert_eq!(gbk_to_string(&[0xDF, 0xFF]), "");
    assert_eq!(gbk_to_string(&[0x80, 0x41, 0x42]), "B");
}

#[test]
fn gbk_trailing_high_byte_is_latin1() {
    assert_eq!(gbk_to_string(&[0x41, 0xE9]), "A\u{E9}");
}

#[test]
fn gbk_output_never_longer_than_input() {
    let bytes: Vec<u8> = (0u8..=255).collect();
    assert!(gbk_to_string(&bytes).chars().count() <= bytes.len());
}

#[test]
fn gbk_to_unicode_values() {
    assert_eq!(gbk_to_unicode(0xD6D0), Some('中'));
    assert_eq!(gbk_to_unicode(0xB0A1), Some('啊'));
    assert_eq!(gbk_to_unicode(0x8140), Some('丂'));
    assert_eq!(gbk_to_unicode(0xA1A1), Some('\u{3000}'));
    assert_eq!(gbk_to_unicode(0x41), None);
    assert_eq!(gbk_to_unicode(0xD800), None);
    assert_eq!(gbk_to_unicode(0x817F), None);
    assert_eq!(gbk_to_unicode(0xFFFF), None);
}

#[test]
fn dialog_output_utf8_trimmed() {
    assert_eq!(decode_dialog_output("  C:\\脚本\\a.bat\r\n".as_bytes()), "C:\\脚本\\a.bat");
}

#[test]
fn dialog_output_falls_back_when_not_utf8() {
    assert_eq!(decode_dialog_output(&[0xD6, 0xD0, b'\r', b'\n']), "中");
}

#[test]
fn folder_selection_empty_is_refused() {
    assert_eq!(folder_selection(b" \r\n"), Err("No folder selected".to_string()));
    assert_eq!(folder_selection(b"D:\\work\r\n"), Ok("D:\\work".to_string()));
}

#[test]
fn file_selection_empty_is_refused() {
    assert_eq!(file_selection(b""), Err("No file selected".to_string()));
    assert_eq!(file_selection(b"a.json\n"), Ok("a.json".to_string()));
}

#[test]
fn trim_matches_std() {
    for s in ["", "  ", " a b ", "\u{3000}x\u{2000}", "\u{85}y\t", "z"] {
        assert_eq!(trim_string(s), s.trim());
    }
}

#[test]
fn split_matches_std() {
    for s in ["", "+", "a+b", "a++b+", "Ctrl+Shift+S"] {
        let chars: Vec<char> = s.chars().collect();
        let got: Vec<String> = split_chars(&chars, '+').iter().map(|p| p.iter().collect()).collect();
        let want: Vec<String> = s.split('+').map(|p| p.to_string()).collect();
        assert_eq!(got, want);
    }
}

#[test]
fn starts_with_prefixes() {
    assert!(starts_with("C:\\Scripts\\a.bat", "C:\\Scripts"));
    assert!(starts_with("abc", ""));
    assert!(!starts_with("ab", "abc"));
    assert!(!starts_with("脚本", "脚x"));
}
