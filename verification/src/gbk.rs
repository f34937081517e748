//! Decoding of the bytes that the file dialogs print: UTF-8 when they are
//! valid UTF-8, otherwise the two-byte fallback decoding of `gbk_to_string`.
use vstd::prelude::*;
use vstd::utf8::{decode_utf8, valid_utf8};
use crate::gbk_table::{gbk_row, gbk_row_entry};
use crate::text::{is_white_space, lemma_trim_clean, push_char, trim, trim_string};

verus! {

/// Whether `v` is a Unicode scalar value (a valid `char`).
pub open spec fn is_scalar_value(v: u32) -> bool {
    v < 0xD800 || (0xDFFF < v && v <= 0x10FFFF)
}

/// The `char` whose scalar value is `v`, if there is one.
pub open spec fn char_of(v: u32) -> Option<char> {
    if is_scalar_value(v) {
        Some(v as char)
    } else {
        None
    }
}

/// Trusted: calls `char::from_u32`, documented to return `Some` of the
/// character with scalar value `v` exactly when `v` is a valid `char`
/// (at most `0x10FFFF` and not a surrogate), and `None` otherwise.
#[verifier::external_body]
fn char_from_u32(v: u32) -> (r: Option<char>)
    ensures
        r == char_of(v),
{
    char::from_u32(v)
}

/// Trusted: calls `String::from_utf8`, which succeeds exactly on valid
/// UTF-8 and then holds the characters that the bytes encode.
#[verifier::external_body]
fn utf8_to_string(bytes: &[u8]) -> (r: Option<String>)
    ensures
        r is Some <==> valid_utf8(bytes@),
        r matches Some(s) ==> s@ == decode_utf8(bytes@),
{
    String::from_utf8(bytes.to_vec()).ok()
}

/// Whether `lead` and `trail` fall in the GBK double-byte table.
pub open spec fn in_gbk_range(lead: u8, trail: u8) -> bool {
    0x81 <= lead <= 0xFE && 0x40 <= trail <= 0xFE
}

/// The character that GBK assigns to the two bytes `lead trail`, if any.
pub open spec fn gbk_char(lead: u8, trail: u8) -> Option<char> {
    if in_gbk_range(lead, trail) {
        let v = gbk_row(lead)[trail - 0x40];
        if v == 0 {
            None
        } else {
            char_of(v as u32)
        }
    } else {
        None
    }
}

/// The character that GBK assigns to the two-byte code `gbk` (high byte
/// first), if any.
pub fn gbk_to_unicode(gbk: u16) -> (r: Option<char>)
    ensures
        r == gbk_char((gbk / 256) as u8, (gbk % 256) as u8),
{
    let lead: u16 = gbk / 256;
    let trail: u16 = gbk % 256;
    if 0x81 <= lead && lead <= 0xFE && 0x40 <= trail && trail <= 0xFE {
        let v = gbk_row_entry(lead as u8, (trail - 0x40) as usize);
        if v == 0 {
            None
        } else {
            char_from_u32(v as u32)
        }
    } else {
        None
    }
}

/// The text that GBK-encoded bytes stand for, as `gbk_to_string` reads
/// them: a byte below `0x80` is that ASCII character; a byte at or above
/// `0x80` followed by another byte is a two-byte GBK code, which yields the
/// character GBK assigns to it and nothing when it assigns none; a final
/// lone byte at or above `0x80` is the Latin-1 character of that value.
pub open spec fn gbk_decode(b: Seq<u8>) -> Seq<char>
    decreases b.len(),
{
    if b.len() == 0 {
        Seq::<char>::empty()
    } else if b[0] < 0x80 {
        seq![b[0] as char] + gbk_decode(b.subrange(1, b.len() as int))
    } else if b.len() >= 2 {
        let head = match gbk_char(b[0], b[1]) {
            Some(c) => seq![c],
            None => Seq::<char>::empty(),
        };
        head + gbk_decode(b.subrange(2, b.len() as int))
    } else {
        seq![b[0] as char]
    }
}

/// Converts GBK-encoded bytes into a string holding the same text (see
/// `gbk_decode`).
pub fn gbk_to_string(bytes: &[u8]) -> (r: String)
    ensures
        r@ == gbk_decode(bytes@),
{
    let mut result = String::new();
    let n = bytes.len();
    let mut i: usize = 0;
    assert(bytes@.subrange(0, n as int) =~= bytes@);
    while i < n
        invariant
            n == bytes@.len(),
            i <= n,
            result@ + gbk_decode(bytes@.subrange(i as int, n as int)) == gbk_decode(bytes@),
        decreases n - i,
    {
        let ghost rest = bytes@.subrange(i as int, n as int);
        let b = bytes[i];
        if b < 0x80 {
            push_char(&mut result, b as char);
            assert(rest.subrange(1, rest.len() as int) =~= bytes@.subrange(i + 1, n as int));
            assert(result@ + gbk_decode(bytes@.subrange(i + 1, n as int)) =~= gbk_decode(bytes@))
                by {
                assert(gbk_decode(rest) == seq![b as char] + gbk_decode(
                    rest.subrange(1, rest.len() as int),
                ));
            }
            i = i + 1;
        } else if i + 1 < n {
            let hi = b as u16;
            let lo = bytes[i + 1] as u16;
            let gbk_code = (hi << 8) | lo;
            assert(((hi << 8u16) | lo) == hi * 256 + lo) by (bit_vector)
                requires
                    hi < 256,
                    lo < 256,
            ;
            let ghost pre = result@;
            assert(gbk_code / 256 == hi && gbk_code % 256 == lo);
            let ghost head = match gbk_char(b, bytes@[i + 1]) {
                Some(c) => seq![c],
                None => Seq::<char>::empty(),
            };
            if let Some(c) = gbk_to_unicode(gbk_code) {
                push_char(&mut result, c);
            }
            assert(result@ =~= pre + head);
            assert(rest.subrange(2, rest.len() as int) =~= bytes@.subrange(i + 2, n as int));
            assert(gbk_decode(rest) == head + gbk_decode(rest.subrange(2, rest.len() as int)));
            assert(result@ + gbk_decode(bytes@.subrange(i + 2, n as int)) =~= gbk_decode(bytes@));
            i = i + 2;
        } else {
            push_char(&mut result, b as char);
            assert(gbk_decode(rest) == seq![b as char]);
            assert(bytes@.subrange(i + 1, n as int) =~= Seq::<u8>::empty());
            assert(result@ + gbk_decode(bytes@.subrange(i + 1, n as int)) =~= gbk_decode(bytes@));
            i = i + 1;
        }
    }
    assert(bytes@.subrange(n as int, n as int) =~= Seq::<u8>::empty());
    assert(result@ + Seq::<char>::empty() =~= result@);
    result
}

/// Every byte below `0x80` decodes to itself: ASCII text is read unchanged.
pub proof fn lemma_gbk_ascii(b: Seq<u8>)
    requires
        forall|i: int| 0 <= i < b.len() ==> b[i] < 0x80,
    ensures
        gbk_decode(b) == b.map_values(|x: u8| x as char),
    decreases b.len(),
{
    if b.len() > 0 {
        let rest = b.subrange(1, b.len() as int);
        lemma_gbk_ascii(rest);
        assert(b.map_values(|x: u8| x as char) =~= seq![b[0] as char] + rest.map_values(
            |x: u8| x as char,
        ));
    } else {
        assert(b.map_values(|x: u8| x as char) =~= Seq::<char>::empty());
    }
}

/// Whether `b` is a GBK encoding of the text `s`: each character, in order,
/// is either one byte below `0x80` (ASCII) or two bytes to which GBK
/// assigns that character.
pub open spec fn gbk_encodes(b: Seq<u8>, s: Seq<char>) -> bool
    decreases s.len(),
{
    if s.len() == 0 {
        b.len() == 0
    } else if b.len() >= 1 && b[0] < 0x80 && b[0] as char == s[0] {
        gbk_encodes(b.subrange(1, b.len() as int), s.subrange(1, s.len() as int))
    } else {
        &&& b.len() >= 2
        &&& gbk_char(b[0], b[1]) == Some(s[0])
        &&& gbk_encodes(b.subrange(2, b.len() as int), s.subrange(1, s.len() as int))
    }
}

/// GBK-encoded bytes decode to the text they encode.
pub proof fn lemma_gbk_decodes_encoding(b: Seq<u8>, s: Seq<char>)
    requires
        gbk_encodes(b, s),
    ensures
        gbk_decode(b) == s,
    decreases s.len(),
{
    if s.len() > 0 {
        let t = s.subrange(1, s.len() as int);
        if b.len() >= 1 && b[0] < 0x80 && b[0] as char == s[0] {
            lemma_gbk_decodes_encoding(b.subrange(1, b.len() as int), t);
        } else {
            lemma_gbk_decodes_encoding(b.subrange(2, b.len() as int), t);
        }
        assert(s =~= seq![s[0]] + t);
    }
}

/// Decoding never yields more characters than there are bytes.
pub proof fn lemma_gbk_len(b: Seq<u8>)
    ensures
        gbk_decode(b).len() <= b.len(),
    decreases b.len(),
{
    if b.len() > 0 {
        if b[0] < 0x80 || b.len() < 2 {
            lemma_gbk_len(b.subrange(1, b.len() as int));
        } else {
            lemma_gbk_len(b.subrange(2, b.len() as int));
        }
    }
}

/// The double-byte table covers every lead byte `0x81`-`0xFE` and every
/// trail byte `0x40`-`0xFE`, both ends included: such a pair decodes to the
/// character of its table entry, or to nothing where the entry is empty; a
/// pair with a lead byte or a trail byte outside those ranges decodes to
/// nothing.
pub proof fn lemma_gbk_char_by_table(lead: u8, trail: u8)
    ensures
        0x81 <= lead <= 0xFE && 0x40 <= trail <= 0xFE ==> gbk_char(lead, trail) == (if gbk_row(
            lead,
        )[trail - 0x40] == 0 {
            None
        } else {
            char_of(gbk_row(lead)[trail - 0x40] as u32)
        }),
        lead < 0x81 || lead == 0xFF || trail < 0x40 || trail == 0xFF ==> gbk_char(lead, trail) is None,
{
}

/// What the dialogs' output becomes: the UTF-8 reading of the bytes when
/// they are valid UTF-8, the `gbk_decode` reading otherwise, trimmed.
pub open spec fn dialog_text(out: Seq<u8>) -> Seq<char> {
    if valid_utf8(out) {
        trim(decode_utf8(out))
    } else {
        trim(gbk_decode(out))
    }
}

/// Reads what a file dialog printed.
pub fn decode_dialog_output(stdout: &[u8]) -> (r: String)
    ensures
        r@ == dialog_text(stdout@),
{
    match utf8_to_string(stdout) {
        Some(s) => trim_string(s.as_str()),
        None => {
            let s = gbk_to_string(stdout);
            trim_string(s.as_str())
        },
    }
}

/// The message when the folder dialog returned nothing.
pub open spec fn msg_no_folder() -> Seq<char> {
    "No folder selected"@
}

/// The message when a file dialog returned nothing.
pub open spec fn msg_no_file() -> Seq<char> {
    "No file selected"@
}

/// The folder picked in the folder dialog, or an error when it printed
/// nothing but whitespace.
pub fn folder_selection(stdout: &[u8]) -> (r: Result<String, String>)
    ensures
        dialog_text(stdout@).len() == 0 ==> (r matches Err(e) && e@ == msg_no_folder()),
        dialog_text(stdout@).len() != 0 ==> (r matches Ok(p) && p@ == dialog_text(stdout@)),
{
    let path = decode_dialog_output(stdout);
    if path.unicode_len() == 0 {
        Err("No folder selected".to_string())
    } else {
        Ok(path)
    }
}

/// The file picked in a file dialog, or an error when it printed nothing
/// but whitespace.
pub fn file_selection(stdout: &[u8]) -> (r: Result<String, String>)
    ensures
        dialog_text(stdout@).len() == 0 ==> (r matches Err(e) && e@ == msg_no_file()),
        dialog_text(stdout@).len() != 0 ==> (r matches Ok(p) && p@ == dialog_text(stdout@)),
{
    let path = decode_dialog_output(stdout);
    if path.unicode_len() == 0 {
        Err("No file selected".to_string())
    } else {
        Ok(path)
    }
}

/// A path read from a dialog never starts or ends with whitespace.
pub proof fn lemma_dialog_text_clean(out: Seq<u8>)
    ensures
        dialog_text(out).len() > 0 ==> !is_white_space(dialog_text(out)[0]) && !is_white_space(
            dialog_text(out).last(),
        ),
{
    if valid_utf8(out) {
        lemma_trim_clean(decode_utf8(out));
    } else {
        lemma_trim_clean(gbk_decode(out));
    }
}

} // verus!
