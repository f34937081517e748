//! Parsing of global shortcut descriptions such as `"Ctrl+Shift+S"` into
//! a set of modifiers and one key.
use vstd::prelude::*;
use crate::text::{chars_equal, chars_of, split_chars, split_on, string_from_chars, trim, trim_chars, views_of, lemma_split_nonempty};

verus! {

/// The modifier keys of a shortcut.
#[derive(Clone, Copy, Debug, PartialEq, Eq, Structural)]
pub struct ShortcutModifiers {
    pub ctrl: bool,
    pub shift: bool,
    pub alt: bool,
    /// The Windows (super) key.
    pub win: bool,
}

/// The main key of a shortcut.
#[derive(Clone, Copy, Debug, PartialEq, Eq, Structural)]
pub enum KeyCode {
    /// `F1` to `F12`, by number.
    Function(u8),
    /// `A` to `Z`, as the upper-case letter.
    Letter(char),
    /// `0` to `9`, by value.
    Digit(u8),
    Space,
    Enter,
    Tab,
    Escape,
}

/// A parsed shortcut: its modifiers and its key.
#[derive(Clone, Copy, Debug, PartialEq, Eq, Structural)]
pub struct Shortcut {
    pub modifiers: ShortcutModifiers,
    pub key: KeyCode,
}

/// What one `+`-separated part of a shortcut description denotes.
#[derive(Clone, Copy, Debug, PartialEq, Eq, Structural)]
pub enum Token {
    Ctrl,
    Shift,
    Alt,
    Win,
    Key(KeyCode),
    /// A part that names nothing known; it is ignored.
    Unknown,
}

/// The upper-case form of a string, as `str::to_uppercase` computes it
/// (full Unicode case mapping).
pub uninterp spec fn uppercased(s: Seq<char>) -> Seq<char>;

/// Trusted: calls `str::to_uppercase`; its result is named `uppercased`
/// of the argument, which is a function of the argument's characters alone.
#[verifier::external_body]
fn to_uppercase(s: &str) -> (r: String)
    ensures
        r@ == uppercased(s@),
{
    s.to_uppercase()
}

/// Whether `c` lies in `lo..=hi`.
pub open spec fn char_in(c: char, lo: char, hi: char) -> bool {
    lo <= c && c <= hi
}

/// What an upper-cased, trimmed part denotes.
pub open spec fn classify(t: Seq<char>) -> Token {
    if t == seq!['C', 'T', 'R', 'L'] || t == seq!['C', 'O', 'N', 'T', 'R', 'O', 'L'] {
        Token::Ctrl
    } else if t == seq!['S', 'H', 'I', 'F', 'T'] {
        Token::Shift
    } else if t == seq!['A', 'L', 'T'] {
        Token::Alt
    } else if t == seq!['W', 'I', 'N'] || t == seq!['W', 'I', 'N', 'D', 'O', 'W', 'S'] {
        Token::Win
    } else if t.len() == 2 && t[0] == 'F' && char_in(t[1], '1', '9') {
        Token::Key(KeyCode::Function((t[1] as u32 - 48) as u8))
    } else if t.len() == 3 && t[0] == 'F' && t[1] == '1' && char_in(t[2], '0', '2') {
        Token::Key(KeyCode::Function((t[2] as u32 - 38) as u8))
    } else if t.len() == 1 && char_in(t[0], 'A', 'Z') {
        Token::Key(KeyCode::Letter(t[0]))
    } else if t.len() == 1 && char_in(t[0], '0', '9') {
        Token::Key(KeyCode::Digit((t[0] as u32 - 48) as u8))
    } else if t == seq!['S', 'P', 'A', 'C', 'E'] {
        Token::Key(KeyCode::Space)
    } else if t == seq!['E', 'N', 'T', 'E', 'R'] || t == seq!['R', 'E', 'T', 'U', 'R', 'N'] {
        Token::Key(KeyCode::Enter)
    } else if t == seq!['T', 'A', 'B'] {
        Token::Key(KeyCode::Tab)
    } else if t == seq!['E', 'S', 'C', 'A', 'P', 'E'] || t == seq!['E', 'S', 'C'] {
        Token::Key(KeyCode::Escape)
    } else {
        Token::Unknown
    }
}

/// What one part of a description denotes: the part is trimmed, upper-cased
/// and then classified.
pub open spec fn token_of(part: Seq<char>) -> Token {
    classify(uppercased(trim(part)))
}

/// No modifiers.
pub open spec fn no_modifiers() -> ShortcutModifiers {
    ShortcutModifiers { ctrl: false, shift: false, alt: false, win: false }
}

/// The modifiers and key after reading one more token: a modifier token adds
/// its modifier, a key token replaces the key, an unknown token changes
/// nothing.
pub open spec fn step(state: (ShortcutModifiers, Option<KeyCode>), tok: Token) -> (
    ShortcutModifiers,
    Option<KeyCode>,
) {
    let (m, k) = state;
    match tok {
        Token::Ctrl => (ShortcutModifiers { ctrl: true, ..m }, k),
        Token::Shift => (ShortcutModifiers { shift: true, ..m }, k),
        Token::Alt => (ShortcutModifiers { alt: true, ..m }, k),
        Token::Win => (ShortcutModifiers { win: true, ..m }, k),
        Token::Key(code) => (m, Some(code)),
        Token::Unknown => (m, k),
    }
}

/// The modifiers and key after reading all the parts, left to right.
pub open spec fn read_parts(parts: Seq<Seq<char>>) -> (ShortcutModifiers, Option<KeyCode>)
    decreases parts.len(),
{
    if parts.len() == 0 {
        (no_modifiers(), None)
    } else {
        step(read_parts(parts.drop_last()), token_of(parts.last()))
    }
}

/// The error for a description without any part.
pub open spec fn msg_bad_format() -> Seq<char> {
    "快捷键格式错误"@
}

/// The error for a description that names no key.
pub open spec fn msg_no_key() -> Seq<char> {
    "无效的快捷键"@
}

/// What a description parses to: the parts between `+` signs are read left
/// to right; the result is an error when no part names a key.
pub open spec fn spec_parse_shortcut(s: Seq<char>) -> Result<Shortcut, Seq<char>> {
    let parts = split_on(s, '+');
    if parts.len() == 0 {
        Err(msg_bad_format())
    } else {
        let (m, k) = read_parts(parts);
        match k {
            Some(key) => Ok(Shortcut { modifiers: m, key }),
            None => Err(msg_no_key()),
        }
    }
}

/// Classifies an upper-cased, trimmed part.
pub fn classify_token(t: &[char]) -> (r: Token)
    ensures
        r == classify(t@),
{
    let n = t.len();
    if chars_equal(t, &['C', 'T', 'R', 'L']) || chars_equal(t, &['C', 'O', 'N', 'T', 'R', 'O', 'L']) {
        Token::Ctrl
    } else if chars_equal(t, &['S', 'H', 'I', 'F', 'T']) {
        Token::Shift
    } else if chars_equal(t, &['A', 'L', 'T']) {
        Token::Alt
    } else if chars_equal(t, &['W', 'I', 'N']) || chars_equal(t, &['W', 'I', 'N', 'D', 'O', 'W', 'S']) {
        Token::Win
    } else if n == 2 && t[0] == 'F' && '1' <= t[1] && t[1] <= '9' {
        Token::Key(KeyCode::Function((t[1] as u32 - 48) as u8))
    } else if n == 3 && t[0] == 'F' && t[1] == '1' && '0' <= t[2] && t[2] <= '2' {
        Token::Key(KeyCode::Function((t[2] as u32 - 38) as u8))
    } else if n == 1 && 'A' <= t[0] && t[0] <= 'Z' {
        Token::Key(KeyCode::Letter(t[0]))
    } else if n == 1 && '0' <= t[0] && t[0] <= '9' {
        Token::Key(KeyCode::Digit((t[0] as u32 - 48) as u8))
    } else if chars_equal(t, &['S', 'P', 'A', 'C', 'E']) {
        Token::Key(KeyCode::Space)
    } else if chars_equal(t, &['E', 'N', 'T', 'E', 'R']) || chars_equal(t, &['R', 'E', 'T', 'U', 'R', 'N']) {
        Token::Key(KeyCode::Enter)
    } else if chars_equal(t, &['T', 'A', 'B']) {
        Token::Key(KeyCode::Tab)
    } else if chars_equal(t, &['E', 'S', 'C', 'A', 'P', 'E']) || chars_equal(t, &['E', 'S', 'C']) {
        Token::Key(KeyCode::Escape)
    } else {
        Token::Unknown
    }
}

/// What one part of a description denotes.
pub fn part_token(part: &[char]) -> (r: Token)
    ensures
        r == token_of(part@),
{
    let trimmed = trim_chars(part);
    let s = string_from_chars(trimmed.as_slice());
    let upper = to_uppercase(s.as_str());
    let chars = chars_of(upper.as_str());
    classify_token(chars.as_slice())
}

/// Parses a shortcut description such as `"Ctrl+Shift+S"`.
///
/// The description is split at every `+`; each part is trimmed and
/// upper-cased. `CTRL`/`CONTROL`, `SHIFT`, `ALT` and `WIN`/`WINDOWS` add a
/// modifier; `F1`-`F12`, a letter, a digit, `SPACE`, `ENTER`/`RETURN`,
/// `TAB` and `ESCAPE`/`ESC` set the key (the last one wins); anything else
/// is ignored. Without a key the description is refused.
pub fn parse_shortcut(shortcut: &str) -> (r: Result<Shortcut, String>)
    ensures
        match (r, spec_parse_shortcut(shortcut@)) {
            (Ok(a), Ok(b)) => a == b,
            (Err(e), Err(m)) => e@ == m,
            _ => false,
        },
{
    let chars = chars_of(shortcut);
    let parts = split_chars(chars.as_slice(), '+');
    if parts.len() == 0 {
        return Err("快捷键格式错误".to_string());
    }
    let ghost all = views_of(parts@);
    let mut mods = ShortcutModifiers { ctrl: false, shift: false, alt: false, win: false };
    let mut key: Option<KeyCode> = None;
    let mut i: usize = 0;
    assert(all.take(0) =~= Seq::<Seq<char>>::empty());
    while i < parts.len()
        invariant
            all == views_of(parts@),
            i <= parts@.len(),
            read_parts(all.take(i as int)) == (mods, key),
        decreases parts@.len() - i,
    {
        let tok = part_token(parts[i].as_slice());
        match tok {
            Token::Ctrl => { mods.ctrl = true; },
            Token::Shift => { mods.shift = true; },
            Token::Alt => { mods.alt = true; },
            Token::Win => { mods.win = true; },
            Token::Key(code) => { key = Some(code); },
            Token::Unknown => {},
        }
        assert(all.take(i + 1).drop_last() =~= all.take(i as int));
        assert(all.take(i + 1).last() == parts@[i as int]@);
        i = i + 1;
    }
    assert(all.take(parts@.len() as int) =~= all);
    match key {
        Some(k) => Ok(Shortcut { modifiers: mods, key: k }),
        None => Err("无效的快捷键".to_string()),
    }
}

/// Whether part `p` names a key.
pub open spec fn names_key(p: Seq<char>) -> bool {
    token_of(p) is Key
}

/// The key named by the last part that names one, if any.
pub open spec fn last_key(parts: Seq<Seq<char>>) -> Option<KeyCode>
    decreases parts.len(),
{
    if parts.len() == 0 {
        None
    } else {
        match token_of(parts.last()) {
            Token::Key(k) => Some(k),
            _ => last_key(parts.drop_last()),
        }
    }
}

/// Whether some part denotes the token `t`.
pub open spec fn names_token(parts: Seq<Seq<char>>, t: Token) -> bool {
    exists|i: int| 0 <= i < parts.len() && token_of(#[trigger] parts[i]) == t
}

/// Some part of a non-empty list denotes `t` exactly when the last one does
/// or one before it does.
proof fn lemma_names_token_last(parts: Seq<Seq<char>>, t: Token)
    requires
        parts.len() > 0,
    ensures
        names_token(parts, t) == (names_token(parts.drop_last(), t) || token_of(parts.last()) == t),
{
    let init = parts.drop_last();
    if names_token(parts, t) && token_of(parts.last()) != t {
        let i = choose|i: int| 0 <= i < parts.len() && token_of(#[trigger] parts[i]) == t;
        assert(init[i] == parts[i]);
    }
    if names_token(init, t) {
        let i = choose|i: int| 0 <= i < init.len() && token_of(#[trigger] init[i]) == t;
        assert(parts[i] == init[i]);
    }
}

/// Reading the parts gives, for each modifier, whether some part names it,
/// and the key of the last part that names a key: a modifier is on wherever
/// its part stands.
pub proof fn lemma_read_parts_is(parts: Seq<Seq<char>>)
    ensures
        read_parts(parts) == (
            ShortcutModifiers {
                ctrl: names_token(parts, Token::Ctrl),
                shift: names_token(parts, Token::Shift),
                alt: names_token(parts, Token::Alt),
                win: names_token(parts, Token::Win),
            },
            last_key(parts),
        ),
    decreases parts.len(),
{
    if parts.len() > 0 {
        lemma_read_parts_is(parts.drop_last());
        lemma_names_token_last(parts, Token::Ctrl);
        lemma_names_token_last(parts, Token::Shift);
        lemma_names_token_last(parts, Token::Alt);
        lemma_names_token_last(parts, Token::Win);
    }
}

/// There is a last key exactly when some part names a key, and it is the
/// key of a part after which no part names a key.
pub proof fn lemma_last_key(parts: Seq<Seq<char>>)
    ensures
        last_key(parts) is Some <==> exists|i: int| 0 <= i < parts.len() && names_key(#[trigger] parts[i]),
        last_key(parts) is Some ==> exists|i: int|
            0 <= i < parts.len() && token_of(#[trigger] parts[i]) == Token::Key(last_key(parts)->0)
                && forall|j: int| i < j < parts.len() ==> !names_key(#[trigger] parts[j]),
    decreases parts.len(),
{
    if parts.len() > 0 {
        let init = parts.drop_last();
        let n = parts.len() - 1;
        lemma_last_key(init);
        if !names_key(parts[n]) {
            if last_key(init) is Some {
                let i = choose|i: int|
                    0 <= i < init.len() && token_of(#[trigger] init[i]) == Token::Key(last_key(init)->0)
                        && forall|j: int| i < j < init.len() ==> !names_key(#[trigger] init[j]);
                assert(parts[i] == init[i]);
                assert forall|j: int| i < j < parts.len() implies !names_key(#[trigger] parts[j]) by {
                    if j < n {
                        assert(parts[j] == init[j]);
                    }
                }
            } else {
                assert forall|i: int| 0 <= i < parts.len() implies !names_key(#[trigger] parts[i]) by {
                    if i < n {
                        assert(parts[i] == init[i]);
                    }
                }
            }
            if exists|i: int| 0 <= i < parts.len() && names_key(#[trigger] parts[i]) {
                let i = choose|i: int| 0 <= i < parts.len() && names_key(#[trigger] parts[i]);
                assert(init[i] == parts[i]);
            }
        } else {
            assert(names_key(parts[n]));
        }
    }
}

/// Two descriptions parse alike when their parts name the same modifiers
/// and the same last key: the order of the parts, repeated modifiers,
/// unknown parts, whitespace around parts and the aliases (`CONTROL` for
/// `CTRL`, `WINDOWS` for `WIN`, `RETURN` for `ENTER`, `ESC` for `ESCAPE`)
/// do not matter, and the last part naming a key decides the key.
pub proof fn lemma_shortcut_equivalent(s1: Seq<char>, s2: Seq<char>)
    requires
        ({
            let p1 = split_on(s1, '+');
            let p2 = split_on(s2, '+');
            &&& names_token(p1, Token::Ctrl) == names_token(p2, Token::Ctrl)
            &&& names_token(p1, Token::Shift) == names_token(p2, Token::Shift)
            &&& names_token(p1, Token::Alt) == names_token(p2, Token::Alt)
            &&& names_token(p1, Token::Win) == names_token(p2, Token::Win)
            &&& last_key(p1) == last_key(p2)
        }),
    ensures
        spec_parse_shortcut(s1) == spec_parse_shortcut(s2),
{
    lemma_read_parts_is(split_on(s1, '+'));
    lemma_read_parts_is(split_on(s2, '+'));
    lemma_split_nonempty(s1, '+');
    lemma_split_nonempty(s2, '+');
    assert(read_parts(split_on(s1, '+')) == read_parts(split_on(s2, '+')));
}

/// The aliases denote the same thing: a part is read by what it trims and
/// upper-cases to, and `CONTROL`/`CTRL`, `WINDOWS`/`WIN`, `RETURN`/`ENTER`
/// and `ESC`/`ESCAPE` classify alike.
pub proof fn lemma_aliases()
    ensures
        classify(seq!['C', 'O', 'N', 'T', 'R', 'O', 'L']) == classify(seq!['C', 'T', 'R', 'L']),
        classify(seq!['W', 'I', 'N', 'D', 'O', 'W', 'S']) == classify(seq!['W', 'I', 'N']),
        classify(seq!['R', 'E', 'T', 'U', 'R', 'N']) == classify(seq!['E', 'N', 'T', 'E', 'R']),
        classify(seq!['E', 'S', 'C']) == classify(seq!['E', 'S', 'C', 'A', 'P', 'E']),
        forall|p: Seq<char>, q: Seq<char>|
            uppercased(trim(p)) == uppercased(trim(q)) ==> #[trigger] token_of(p) == #[trigger] token_of(q),
{
    assert(seq!['C', 'O', 'N', 'T', 'R', 'O', 'L'] != seq!['C', 'T', 'R', 'L']);
}

/// The decimal digit character for `d` (at most 9).
pub open spec fn digit_char(d: u8) -> char {
    match d {
        0 => '0',
        1 => '1',
        2 => '2',
        3 => '3',
        4 => '4',
        5 => '5',
        6 => '6',
        7 => '7',
        8 => '8',
        _ => '9',
    }
}

/// Whether `k` is a key that a description can name: `F1` to `F12`, `A`
/// to `Z`, `0` to `9`, or one of the named keys.
pub open spec fn is_nameable_key(k: KeyCode) -> bool {
    match k {
        KeyCode::Function(n) => 1 <= n <= 12,
        KeyCode::Letter(c) => 'A' <= c <= 'Z',
        KeyCode::Digit(d) => d <= 9,
        _ => true,
    }
}

/// The upper-case name of a key, as a description writes it: `F` and the
/// function key's number, the letter, the digit, or the key's word.
pub open spec fn key_name(k: KeyCode) -> Seq<char> {
    match k {
        KeyCode::Function(n) => if n <= 9 {
            seq!['F', digit_char(n)]
        } else {
            seq!['F', '1', digit_char((n - 10) as u8)]
        },
        KeyCode::Letter(c) => seq![c],
        KeyCode::Digit(d) => seq![digit_char(d)],
        KeyCode::Space => seq!['S', 'P', 'A', 'C', 'E'],
        KeyCode::Enter => seq!['E', 'N', 'T', 'E', 'R'],
        KeyCode::Tab => seq!['T', 'A', 'B'],
        KeyCode::Escape => seq!['E', 'S', 'C', 'A', 'P', 'E'],
    }
}

/// Every key can be named: the name of each of `F1`-`F12`, `A`-`Z`,
/// `0`-`9`, `SPACE`, `ENTER`, `TAB` and `ESCAPE` classifies as that very
/// key, so that, for instance, a part `9` sets the key `Digit(9)`.
pub proof fn lemma_key_names_classify(k: KeyCode)
    requires
        is_nameable_key(k),
    ensures
        classify(key_name(k)) == Token::Key(k),
{
    let t = key_name(k);
    match k {
        KeyCode::Function(n) => {
            if n <= 9 {
                assert(t[0] == 'F' && t[1] == digit_char(n) && t.len() == 2);
                assert(t != seq!['C', 'T', 'R', 'L']);
                assert(t != seq!['C', 'O', 'N', 'T', 'R', 'O', 'L']);
                assert(t != seq!['S', 'H', 'I', 'F', 'T']);
                assert(t != seq!['A', 'L', 'T']);
                assert(t != seq!['W', 'I', 'N']);
                assert(t != seq!['W', 'I', 'N', 'D', 'O', 'W', 'S']);
            } else {
                assert(t[0] == 'F' && t[1] == '1' && t[2] == digit_char((n - 10) as u8) && t.len() == 3);
                assert(t != seq!['C', 'T', 'R', 'L']);
                assert(t != seq!['C', 'O', 'N', 'T', 'R', 'O', 'L']);
                assert(t != seq!['S', 'H', 'I', 'F', 'T']);
                assert(t != seq!['A', 'L', 'T']);
                assert(t != seq!['W', 'I', 'N']);
                assert(t != seq!['W', 'I', 'N', 'D', 'O', 'W', 'S']);
            }
        },
        KeyCode::Letter(c) => {
            assert(t.len() == 1 && t[0] == c);
            assert(t != seq!['C', 'T', 'R', 'L']);
            assert(t != seq!['C', 'O', 'N', 'T', 'R', 'O', 'L']);
            assert(t != seq!['S', 'H', 'I', 'F', 'T']);
            assert(t != seq!['A', 'L', 'T']);
            assert(t != seq!['W', 'I', 'N']);
            assert(t != seq!['W', 'I', 'N', 'D', 'O', 'W', 'S']);
        },
        KeyCode::Digit(d) => {
            assert(t.len() == 1 && t[0] == digit_char(d));
            assert(t != seq!['C', 'T', 'R', 'L']);
            assert(t != seq!['C', 'O', 'N', 'T', 'R', 'O', 'L']);
            assert(t != seq!['S', 'H', 'I', 'F', 'T']);
            assert(t != seq!['A', 'L', 'T']);
            assert(t != seq!['W', 'I', 'N']);
            assert(t != seq!['W', 'I', 'N', 'D', 'O', 'W', 'S']);
        },
        KeyCode::Space => {
            assert(t != seq!['S', 'H', 'I', 'F', 'T']);
        },
        KeyCode::Enter => {
            assert(t != seq!['S', 'H', 'I', 'F', 'T']);
        },
        KeyCode::Tab => {
            assert(t != seq!['A', 'L', 'T']);
        },
        KeyCode::Escape => {
            assert(t != seq!['S', 'H', 'I', 'F', 'T']);
            assert(t != seq!['S', 'P', 'A', 'C', 'E']);
        },
    }
}

/// A part classifies as a key only when it is that key's name, or the
/// alias `RETURN` of `ENTER` or `ESC` of `ESCAPE`; as a modifier only when
/// it is the modifier's name or alias; every other part is unknown.
pub proof fn lemma_classify_only_names(t: Seq<char>)
    ensures
        classify(t) matches Token::Key(k) ==> is_nameable_key(k) && (t == key_name(k) || (k
            == KeyCode::Enter && t == seq!['R', 'E', 'T', 'U', 'R', 'N']) || (k == KeyCode::Escape
            && t == seq!['E', 'S', 'C'])),
        classify(t) == Token::Ctrl ==> t == seq!['C', 'T', 'R', 'L'] || t == seq![
            'C',
            'O',
            'N',
            'T',
            'R',
            'O',
            'L',
        ],
        classify(t) == Token::Shift ==> t == seq!['S', 'H', 'I', 'F', 'T'],
        classify(t) == Token::Alt ==> t == seq!['A', 'L', 'T'],
        classify(t) == Token::Win ==> t == seq!['W', 'I', 'N'] || t == seq![
            'W',
            'I',
            'N',
            'D',
            'O',
            'W',
            'S',
        ],
{
    if let Token::Key(k) = classify(t) {
        if t.len() == 2 && t[0] == 'F' && char_in(t[1], '1', '9') && classify(t) == Token::Key(
            KeyCode::Function((t[1] as u32 - 48) as u8),
        ) {
            assert(digit_char((t[1] as u32 - 48) as u8) == t[1]);
            assert(t =~= key_name(k));
        } else if t.len() == 3 && t[0] == 'F' && t[1] == '1' && char_in(t[2], '0', '2')
            && classify(t) == Token::Key(KeyCode::Function((t[2] as u32 - 38) as u8)) {
            assert(digit_char((t[2] as u32 - 48) as u8) == t[2]);
            assert(t =~= key_name(k));
        } else if t.len() == 1 && char_in(t[0], 'A', 'Z') {
            assert(t =~= key_name(k));
        } else if t.len() == 1 && char_in(t[0], '0', '9') {
            assert(digit_char((t[0] as u32 - 48) as u8) == t[0]);
            assert(t =~= key_name(k));
        }
    }
}

} // verus!
