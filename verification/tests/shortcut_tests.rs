use win_script_hub::{classify_token, parse_shortcut, KeyCode, Shortcut, ShortcutModifiers, Token};

fn mods(ctrl: bool, shift: bool, alt: bool, win: bool) -> ShortcutModifiers {
    ShortcutModifiers { ctrl, shift, alt, win }
}

#[test]
fn parses_default_shortcut() {
    assert_eq!(
        parse_shortcut("Ctrl+Shift+S"),
        Ok(Shortcut { modifiers: mods(true, true, false, false), key: KeyCode::Letter('S') })
    );
}

#[test]
fn parsing_ignores_case_and_spaces() {
    assert_eq!(
        parse_shortcut(" control + alt +f5 "),
        Ok(Shortcut { modifiers: mods(true, false, true, false), key: KeyCode::Function(5) })
    );
    assert_eq!(
        parse_shortcut("win+windows+esc"),
        Ok(Shortcut { modifiers: mods(false, false, false, true), key: KeyCode::Escape })
    );
}

#[test]
fn modifier_order_does_not_matter() {
    assert_eq!(parse_shortcut("Shift+Ctrl+A"), parse_shortcut("Ctrl+Shift+A"));
}

#[test]
fn last_key_wins() {
    assert_eq!(
        parse_shortcut("A+Ctrl+9+Tab"),
        Ok(Shortcut { modifiers: mods(true, false, false, false), key: KeyCode::Tab })
    );
}

#[test]
fn named_and_numbered_keys() {
    let k = |s: &str| parse_shortcut(s).map(|r| r.key);
    assert_eq!(k("F12"), Ok(KeyCode::Function(12)));
    assert_eq!(k("F10"), Ok(KeyCode::Function(10)));
    assert_eq!(k("f1"), Ok(KeyCode::Function(1)));
    assert_eq!(k("0"), Ok(KeyCode::Digit(0)));
    assert_eq!(k("7"), Ok(KeyCode::Digit(7)));
    assert_eq!(k("space"), Ok(KeyCode::Space));
    assert_eq!(k("Return"), Ok(KeyCode::Enter));
    assert_eq!(k("ENTER"), Ok(KeyCode::Enter));
    assert_eq!(k("Escape"), Ok(KeyCode::Escape));
    assert_eq!(k("z"), Ok(KeyCode::Letter('Z')));
}

#[test]
fn unknown_parts_are_ignored() {
    assert_eq!(
        parse_shortcut("Ctrl+Hyper+B"),
        Ok(Shortcut { modifiers: mods(true, false, false, false), key: KeyCode::Letter('B') })
    );
}

#[test]
fn without_key_is_refused() {
    assert_eq!(parse_shortcut("Ctrl+Shift"), Err("无效的快捷键".to_string()));
    assert_eq!(parse_shortcut(""), Err("无效的快捷键".to_string()));
    assert_eq!(parse_shortcut("F13"), Err("无效的快捷键".to_string()));
    assert_eq!(parse_shortcut("F0+F01"), Err("无效的快捷键".to_string()));
    assert_eq!(parse_shortcut("+"), Err("无效的快捷键".to_string()));
}

#[test]
fn classify_upper_case_tokens() {
    let c = |s: &str| classify_token(&s.chars().collect::<Vec<char>>());
    assert_eq!(c("CTRL"), Token::Ctrl);
    assert_eq!(c("SHIFT"), Token::Shift);
    assert_eq!(c("ALT"), Token::Alt);
    assert_eq!(c("WIN"), Token::Win);
    assert_eq!(c("F11"), Token::Key(KeyCode::Function(11)));
    assert_eq!(c("ctrl"), Token::Unknown);
    assert_eq!(c("F"), Token::Key(KeyCode::Letter('F')));
}
