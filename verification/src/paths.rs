//! Path-level rules: which files count as scripts, what a script is called,
//! where imported and moved scripts go, and whether a script may be run.
use vstd::prelude::*;
use std::path::{Path, PathBuf};
use crate::text::{chars_equal, chars_of};

verus! {

/// Whether `c` separates path components on Windows (`/` and `\`); on Unix
/// only `/` does.
pub open spec fn is_any_separator(c: char) -> bool {
    c == '/' || c == '\u{5C}'
}

/// Whether `s` begins with two separators: the start of a Windows UNC,
/// device or verbatim (`\\?\`) path, which follow rules of their own (a
/// verbatim path is normalised when pushed onto, and in it `/` is no
/// separator).
pub open spec fn starts_with_two_separators(s: Seq<char>) -> bool {
    s.len() >= 2 && is_any_separator(s[0]) && is_any_separator(s[1])
}

/// What joining the plain name `part` onto `base` gives, on Windows and on
/// Unix alike, for a `base` that does not start with two separators: `part`
/// appended to `base`, with no separator when `base` is empty or ends with
/// `/`; with the platform's separator (`/` on Unix, `\` on Windows) when
/// `base` ends with anything but `/`, `\` or `:`; and after a trailing `\`
/// or `:` with `/` (Unix) or with none or `\` (Windows: none after a
/// separator or a bare drive such as `C:`).
pub open spec fn joined(base: Seq<char>, part: Seq<char>, r: Seq<char>) -> bool {
    if base.len() == 0 || base.last() == '/' {
        r == base + part
    } else if base.last() == '\u{5C}' || base.last() == ':' {
        ||| r == base + part
        ||| r == base + seq!['/'] + part
        ||| r == base + seq!['\u{5C}'] + part
    } else {
        ||| r == base + seq!['/'] + part
        ||| r == base + seq!['\u{5C}'] + part
    }
}

/// Trusted: calls `Path::join` on `base` with `part` and reads the result
/// back as a string (lossless here, since both inputs are valid UTF-8).
/// Stated, from `PathBuf::push`'s documentation: the result extends `base`
/// or, where `part` is absolute or rooted, is `part` after any prefix of
/// `base`, so it is not empty when one of the two is not; a relative `part`
/// (a plain name has no root and no prefix) extends `base` with a separator
/// where one is needed, as `joined` describes, and so the result ends with
/// such a name whatever `base` is. Left unsaid: which separator is inserted
/// (`joined` admits the Windows and the Unix one), and the rest of the result
/// for other parts and for bases that start with two separators (a verbatim
/// base is normalised on Windows).
#[verifier::external_body]
fn path_join(base: &str, part: &str) -> (r: String)
    ensures
        base@.len() > 0 || part@.len() > 0 ==> r@.len() > 0,
        is_plain_name(part@) ==> part@.is_suffix_of(r@),
        is_plain_name(part@) && !starts_with_two_separators(base@) ==> joined(base@, part@, r@),
{
    PathBuf::from(base).join(part).to_string_lossy().into_owned()
}

/// Whether `s` is a path of one plain component on every platform: not
/// empty, not `.` or `..`, and free of `/`, `\` and `:` (the characters that
/// separate components or start a prefix).
pub open spec fn is_plain_name(s: Seq<char>) -> bool {
    &&& s.len() > 0
    &&& s != seq!['.']
    &&& s != seq!['.', '.']
    &&& forall|i: int| 0 <= i < s.len() ==> #[trigger] s[i] != '/' && s[i] != '\u{5C}' && s[i] != ':'
}

/// Whether `n` can be a file name as `Path::file_name` gives it: a final
/// component, which is never empty and never `..`.
pub open spec fn is_file_name_like(n: Seq<char>) -> bool {
    n.len() > 0 && n != seq!['.', '.']
}

/// The index of the last `/` in `s`, or -1 when there is none.
pub open spec fn last_slash(s: Seq<char>) -> int
    decreases s.len(),
{
    if s.len() == 0 {
        -1
    } else if s.last() == '/' {
        s.len() - 1
    } else {
        last_slash(s.drop_last())
    }
}

/// The file name of `s` where it does not depend on the platform: the text
/// after the last `/`, when that text is a plain name and `s` does not start
/// with two separators (`/` separates components on Windows and on Unix).
pub open spec fn slash_file_name(s: Seq<char>) -> Option<Seq<char>> {
    let after = s.skip(last_slash(s) + 1);
    if is_plain_name(after) && !starts_with_two_separators(s) {
        Some(after)
    } else {
        None
    }
}

/// The index of the last separator (`/` or `\`) in `s`, or -1 when there is
/// none.
pub open spec fn last_separator(s: Seq<char>) -> int
    decreases s.len(),
{
    if s.len() == 0 {
        -1
    } else if is_any_separator(s.last()) {
        s.len() - 1
    } else {
        last_separator(s.drop_last())
    }
}

/// The last component of `s` as Windows reads it, where that is a plain
/// name and `s` does not start with two separators: the text after the last
/// `/` or `\`. The file name of `s` ends with it on every platform (on
/// Windows it is the file name; on Unix, where `\` is an ordinary
/// character, the file name is the text after the last `/`).
pub open spec fn tail_name(s: Seq<char>) -> Option<Seq<char>> {
    let after = s.skip(last_separator(s) + 1);
    if is_plain_name(after) && !starts_with_two_separators(s) {
        Some(after)
    } else {
        None
    }
}

/// Whether `s` has a `tail_name` with an extension part (a dot after its
/// first character), such as `run.bat` in `C:\Scripts\run.bat`.
pub open spec fn tail_has_extension(s: Seq<char>) -> bool {
    tail_name(s) is Some && last_dot(tail_name(s)->0) > 0
}

/// Trusted: calls `Path::file_name` and reads the name back as a string.
/// Stated, as the documentation of `Path::file_name` and `Path::components`
/// gives it: a name it returns is a final (normal) component, never empty
/// and never `..`; a path that is one plain component is its own file name,
/// and so is the plain name after the last `/` of a path that does not start
/// with two separators; a path whose `tail_name` is a plain name has a file
/// name that ends with it (the name itself where `\` separates components,
/// the text after the last `/` where it does not). Left unsaid: the rest of
/// the name for such paths, and other paths, whose components depend on
/// whether `\` separates them (Windows) or not (Unix).
#[verifier::external_body]
fn path_file_name(path: &str) -> (r: Option<String>)
    ensures
        r matches Some(n) ==> is_file_name_like(n@),
        is_plain_name(path@) ==> r is Some && r->0@ == path@,
        slash_file_name(path@) is Some ==> r is Some && r->0@ == slash_file_name(path@)->0,
        tail_name(path@) is Some ==> r is Some && tail_name(path@)->0.is_suffix_of(r->0@),
{
    match Path::new(path).file_name() {
        Some(n) => Some(n.to_string_lossy().into_owned()),
        None => None,
    }
}

/// The lower-case form of a string, as `str::to_lowercase` computes it
/// (full Unicode case mapping).
pub uninterp spec fn lowercased(s: Seq<char>) -> Seq<char>;

/// Trusted: calls `str::to_lowercase`; its result is named `lowercased` of
/// the argument, which is a function of the argument's characters alone.
#[verifier::external_body]
fn to_lowercase(s: &str) -> (r: String)
    ensures
        r@ == lowercased(s@),
{
    s.to_lowercase()
}

/// The index of the last `.` in `name`, or -1 when there is none.
pub open spec fn last_dot(name: Seq<char>) -> int
    decreases name.len(),
{
    if name.len() == 0 {
        -1
    } else if name.last() == '.' {
        name.len() - 1
    } else {
        last_dot(name.drop_last())
    }
}

/// Whether a file name has no extension part: it is `..`, has no dot, or
/// its only dot is the leading one (as in `.profile`).
pub open spec fn no_extension(name: Seq<char>) -> bool {
    name == seq!['.', '.'] || last_dot(name) <= 0
}

/// The stem of a file name, as `Path::file_stem` gives it: the part before
/// the last dot, or the whole name when it has no extension part.
pub open spec fn file_stem_of(name: Seq<char>) -> Seq<char> {
    if no_extension(name) {
        name
    } else {
        name.take(last_dot(name))
    }
}

/// The extension of a file name, as `Path::extension` gives it: the part
/// after the last dot, if the name has an extension part.
pub open spec fn extension_of(name: Seq<char>) -> Option<Seq<char>> {
    if no_extension(name) {
        None
    } else {
        Some(name.skip(last_dot(name) + 1))
    }
}

proof fn lemma_last_dot_scan(name: Seq<char>, k: int)
    requires
        0 <= k <= name.len(),
        forall|j: int| k <= j < name.len() ==> name[j] != '.',
    ensures
        last_dot(name) == last_dot(name.take(k)),
        -1 <= last_dot(name) < name.len(),
        last_dot(name) >= 0 ==> name[last_dot(name)] == '.',
    decreases name.len(),
{
    if name.len() > 0 {
        if k < name.len() {
            lemma_last_dot_scan(name.drop_last(), k);
            assert(name.drop_last().take(k) =~= name.take(k));
        } else {
            assert(name.take(k) =~= name);
            if name.last() != '.' {
                lemma_last_dot_scan(name.drop_last(), name.len() - 1);
                assert(name.drop_last().take(name.len() - 1) =~= name.drop_last());
            }
        }
    }
}

proof fn lemma_last_dot_append(u: Seq<char>, t: Seq<char>)
    requires
        last_dot(t) >= 0,
    ensures
        last_dot(u + t) == u.len() + last_dot(t),
    decreases t.len(),
{
    if t.last() != '.' {
        lemma_last_dot_append(u, t.drop_last());
        assert((u + t).drop_last() =~= u + t.drop_last());
    }
}

/// A name that ends with a plain name that has an extension part has the
/// same extension, and its stem ends with that plain name's stem: what
/// comes before the last dot does not change the extension.
pub proof fn lemma_name_ending_in(n: Seq<char>, t: Seq<char>)
    requires
        is_plain_name(t),
        last_dot(t) > 0,
        t.is_suffix_of(n),
    ensures
        extension_of(n) == extension_of(t),
        extension_of(t) == Some(t.skip(last_dot(t) + 1)),
        file_stem_of(t).is_suffix_of(file_stem_of(n)),
{
    let u = n.take(n.len() - t.len());
    assert(n =~= u + t);
    lemma_last_dot_scan(t, t.len() as int);
    lemma_last_dot_append(u, t);
    assert(n != seq!['.', '.']) by {
        if n == seq!['.', '.'] {
            assert(u.len() == 0);
            assert(t =~= n);
        }
    }
    assert(n.skip(last_dot(n) + 1) =~= t.skip(last_dot(t) + 1));
    assert(n.take(last_dot(n)) =~= u + t.take(last_dot(t)));
}

/// The position of the last dot in `name`, if any.
fn find_last_dot(name: &[char]) -> (r: Option<usize>)
    ensures
        match r {
            Some(i) => last_dot(name@) == i as int,
            None => last_dot(name@) == -1,
        },
{
    let mut k: usize = name.len();
    while k > 0
        invariant
            k <= name@.len(),
            forall|j: int| k <= j < name@.len() ==> name@[j] != '.',
        decreases k,
    {
        if name[k - 1] == '.' {
            proof {
                lemma_last_dot_scan(name@, k as int);
                assert(name@.take(k as int).last() == '.');
            }
            return Some(k - 1);
        }
        k = k - 1;
    }
    proof {
        lemma_last_dot_scan(name@, 0);
    }
    None
}

/// The stem and the extension of a file name.
pub fn split_file_name(name: &[char]) -> (r: (Vec<char>, Option<Vec<char>>))
    ensures
        r.0@ == file_stem_of(name@),
        match (r.1, extension_of(name@)) {
            (Some(e), Some(x)) => e@ == x,
            (None, None) => true,
            _ => false,
        },
{
    let dot = find_last_dot(name);
    proof {
        lemma_last_dot_scan(name@, name@.len() as int);
    }
    let dotdot = chars_equal(name, &['.', '.']);
    match dot {
        Some(i) if i > 0 && !dotdot => {
            assert(i < name@.len());
            let mut stem: Vec<char> = Vec::new();
            let mut j: usize = 0;
            while j < i
                invariant
                    i < name.len(),
                    j <= i,
                    stem@ == name@.take(j as int),
                decreases i - j,
            {
                stem.push(name[j]);
                j = j + 1;
                assert(stem@ =~= name@.take(j as int));
            }
            let mut ext: Vec<char> = Vec::new();
            let mut p: usize = i + 1;
            while p < name.len()
                invariant
                    i < name.len(),
                    i + 1 <= p <= name@.len(),
                    ext@ == name@.subrange(i + 1, p as int),
                decreases name@.len() - p,
            {
                ext.push(name[p]);
                p = p + 1;
                assert(ext@ =~= name@.subrange(i + 1, p as int));
            }
            assert(ext@ =~= name@.skip(i + 1));
            (stem, Some(ext))
        },
        _ => {
            let mut all: Vec<char> = Vec::new();
            let mut j: usize = 0;
            while j < name.len()
                invariant
                    j <= name@.len(),
                    all@ == name@.take(j as int),
                decreases name@.len() - j,
            {
                all.push(name[j]);
                j = j + 1;
                assert(all@ =~= name@.take(j as int));
            }
            assert(all@ =~= name@);
            (all, None)
        },
    }
}

/// Whether a lower-cased extension marks a batch script.
pub open spec fn is_script_ext_text(lower: Seq<char>) -> bool {
    lower == seq!['b', 'a', 't'] || lower == seq!['c', 'm', 'd']
}

/// Whether an extension marks a batch script: `bat` or `cmd` in any case.
pub open spec fn is_script_extension(ext: Seq<char>) -> bool {
    is_script_ext_text(lowercased(ext))
}

/// Whether an already lower-cased extension is `bat` or `cmd`.
pub fn is_script_ext_lower(lower: &str) -> (r: bool)
    ensures
        r == is_script_ext_text(lower@),
{
    let l = chars_of(lower);
    chars_equal(l.as_slice(), &['b', 'a', 't']) || chars_equal(l.as_slice(), &['c', 'm', 'd'])
}

/// Whether `ext` is the extension of a batch script (`.bat` or `.cmd`, in
/// any case): its lower-case form, as `str::to_lowercase` gives it, is
/// `bat` or `cmd`.
pub fn script_extension(ext: &str) -> (r: bool)
    ensures
        r == is_script_extension(ext@),
{
    let lower = to_lowercase(ext);
    is_script_ext_lower(lower.as_str())
}

/// The name given to a script whose file name is unknown.
pub open spec fn unknown_script_name() -> Seq<char> {
    "未知脚本"@
}

/// The display name of a script: the stem of its file name, or
/// `unknown_script_name` when the path has no file name.
pub open spec fn script_name_of(file_name: Option<Seq<char>>) -> Seq<char> {
    match file_name {
        Some(n) => file_stem_of(n),
        None => unknown_script_name(),
    }
}

/// The display name for a script with the given file name.
pub fn script_name_for(file_name: Option<&str>) -> (r: String)
    ensures
        r@ == script_name_of(
            match file_name {
                Some(n) => Some(n@),
                None => None,
            },
        ),
{
    match file_name {
        Some(n) => {
            let chars = chars_of(n);
            let (stem, _) = split_file_name(chars.as_slice());
            crate::text::string_from_chars(stem.as_slice())
        },
        None => "未知脚本".to_string(),
    }
}

/// A script found while scanning a directory.
#[derive(Debug)]
pub struct DiscoveredScript {
    pub name: String,
    pub path: String,
}

/// Whether a file with this name is picked up by a directory scan: it has
/// an extension and the extension marks a batch script.
pub open spec fn is_script_file_name(name: Seq<char>) -> bool {
    match extension_of(name) {
        Some(e) => is_script_extension(e),
        None => false,
    }
}

/// What a directory scan reports for a file: the file, named by the stem of
/// its file name, when it is a batch script; nothing otherwise.
pub fn discovered_from_file_name(file_name: Option<&str>, path: &str) -> (r: Option<
    DiscoveredScript,
>)
    ensures
        match file_name {
            None => r is None,
            Some(n) => {
                &&& (r is Some <==> is_script_file_name(n@))
                &&& (r matches Some(d) ==> d.name@ == file_stem_of(n@) && d.path@ == path@)
            },
        },
{
    match file_name {
        None => None,
        Some(n) => {
            let chars = chars_of(n);
            let (_, ext) = split_file_name(chars.as_slice());
            match ext {
                Some(e) => {
                    let e_str = crate::text::string_from_chars(e.as_slice());
                    if script_extension(e_str.as_str()) {
                        let name = script_name_for(Some(n));
                        Some(DiscoveredScript { name, path: path.to_string() })
                    } else {
                        None
                    }
                },
                None => None,
            }
        },
    }
}

/// What a directory scan reports for the file at `path`. The file name is
/// taken with `Path::file_name`; from there `discovered_from_file_name`
/// decides.
pub fn discover_script(path: &str) -> (r: Option<DiscoveredScript>)
    ensures
        r matches Some(d) ==> d.path@ == path@ && exists|n: Seq<char>|
            is_file_name_like(n) && is_script_file_name(n) && d.name@ == file_stem_of(n),
        is_plain_name(path@) ==> {
            &&& (r is Some <==> is_script_file_name(path@))
            &&& (r matches Some(d) ==> d.name@ == file_stem_of(path@))
        },
        slash_file_name(path@) is Some ==> {
            let n = slash_file_name(path@)->0;
            &&& (r is Some <==> is_script_file_name(n))
            &&& (r matches Some(d) ==> d.name@ == file_stem_of(n))
        },
        tail_has_extension(path@) ==> {
            let t = tail_name(path@)->0;
            &&& (r is Some <==> is_script_file_name(t))
            &&& (r matches Some(d) ==> file_stem_of(t).is_suffix_of(d.name@))
        },
{
    let name = path_file_name(path);
    match name {
        Some(n) => {
            let r = discovered_from_file_name(Some(n.as_str()), path);
            assert(r matches Some(d) ==> is_file_name_like(n@) && is_script_file_name(n@)
                && d.name@ == file_stem_of(n@));
            proof {
                if tail_has_extension(path@) {
                    lemma_name_ending_in(n@, tail_name(path@)->0);
                }
            }
            r
        },
        None => discovered_from_file_name(None, path),
    }
}

/// The message when the script to run does not exist.
pub open spec fn msg_script_missing() -> Seq<char> {
    "Script file not found"@
}

/// The message when the script to run is not a batch script.
pub open spec fn msg_unsupported() -> Seq<char> {
    "Unsupported script type"@
}

/// The message when a script has been started.
pub open spec fn msg_started() -> Seq<char> {
    "Script started"@
}

/// Whether a script with this file name may be run: its extension (empty
/// when it has none) lower-cases to `bat` or `cmd`.
pub open spec fn runnable_file_name(file_name: Option<Seq<char>>) -> bool {
    let ext = match file_name {
        Some(n) => match extension_of(n) {
            Some(e) => e,
            None => Seq::<char>::empty(),
        },
        None => Seq::<char>::empty(),
    };
    is_script_ext_text(lowercased(ext))
}

/// The answer to a request to run a script with the given file name: an
/// error when the file does not exist or is not a batch script, otherwise
/// the message to report once it has been started.
pub fn run_check_for(exists: bool, file_name: Option<&str>) -> (r: Result<String, String>)
    ensures
        !exists ==> (r matches Err(e) && e@ == msg_script_missing()),
        exists ==> {
            let f = match file_name {
                Some(n) => Some(n@),
                None => None,
            };
            &&& runnable_file_name(f) ==> (r matches Ok(m) && m@ == msg_started())
            &&& !runnable_file_name(f) ==> (r matches Err(e) && e@ == msg_unsupported())
        },
{
    if !exists {
        return Err("Script file not found".to_string());
    }
    let ext: Vec<char> = match file_name {
        Some(n) => {
            let chars = chars_of(n);
            let (_, e) = split_file_name(chars.as_slice());
            match e {
                Some(e) => e,
                None => Vec::new(),
            }
        },
        None => Vec::new(),
    };
    let ext_str = crate::text::string_from_chars(ext.as_slice());
    if script_extension(ext_str.as_str()) {
        Ok("Script started".to_string())
    } else {
        Err("Unsupported script type".to_string())
    }
}

/// The answer to a request to run the script at `path`, whose existence the
/// caller has checked. The file name is taken with `Path::file_name`; from
/// there `run_check_for` decides.
pub fn script_run_check(path: &str, exists: bool) -> (r: Result<String, String>)
    ensures
        !exists ==> (r matches Err(e) && e@ == msg_script_missing()),
        exists ==> (r matches Ok(m) && m@ == msg_started()) || (r matches Err(e) && e@
            == msg_unsupported()),
        exists && is_plain_name(path@) ==> {
            &&& runnable_file_name(Some(path@)) ==> (r matches Ok(m) && m@ == msg_started())
            &&& !runnable_file_name(Some(path@)) ==> (r matches Err(e) && e@ == msg_unsupported())
        },
        exists && slash_file_name(path@) is Some ==> {
            let f = slash_file_name(path@);
            &&& runnable_file_name(f) ==> (r matches Ok(m) && m@ == msg_started())
            &&& !runnable_file_name(f) ==> (r matches Err(e) && e@ == msg_unsupported())
        },
        exists && tail_has_extension(path@) ==> {
            let t = tail_name(path@)->0;
            &&& runnable_file_name(Some(t)) ==> (r matches Ok(m) && m@ == msg_started())
            &&& !runnable_file_name(Some(t)) ==> (r matches Err(e) && e@ == msg_unsupported())
        },
{
    let name = path_file_name(path);
    match name {
        Some(n) => {
            proof {
                if tail_has_extension(path@) {
                    lemma_name_ending_in(n@, tail_name(path@)->0);
                }
            }
            run_check_for(exists, Some(n.as_str()))
        },
        None => run_check_for(exists, None),
    }
}

/// The folder of a category: the script directory joined with the
/// category's name.
pub fn category_folder(script_dir: &str, category: &str) -> (r: String)
    ensures
        script_dir@.len() > 0 || category@.len() > 0 ==> r@.len() > 0,
        is_plain_name(category@) ==> category@.is_suffix_of(r@),
        is_plain_name(category@) && !starts_with_two_separators(script_dir@) ==> joined(
            script_dir@,
            category@,
            r@,
        ),
{
    path_join(script_dir, category)
}

/// Where a script file goes when it is filed under a category.
pub struct Destination {
    /// The category's folder, which must exist before the file is placed.
    pub folder: String,
    /// The full path of the file in that folder.
    pub path: String,
}

/// The message when a path has no file name.
pub open spec fn msg_no_file_name() -> Seq<char> {
    "无法获取文件名"@
}

/// Where the file at `source_path` goes when it is filed under `category`
/// in `script_dir`: the category's folder joined with the file's name. A
/// path without a file name is refused.
pub fn destination_in_category(source_path: &str, category: &str, script_dir: &str) -> (r: Result<
    Destination,
    String,
>)
    ensures
        r matches Err(e) ==> e@ == msg_no_file_name(),
        r matches Ok(d) ==> d.path@.len() > 0 && (script_dir@.len() > 0 || category@.len() > 0
            ==> d.folder@.len() > 0),
        r matches Ok(d) ==> (is_plain_name(category@) && !starts_with_two_separators(script_dir@)
            ==> joined(script_dir@, category@, d.folder@)),
        r matches Ok(d) ==> (is_plain_name(category@) ==> category@.is_suffix_of(d.folder@)),
        r matches Ok(d) ==> (slash_file_name(source_path@) is Some ==> slash_file_name(
            source_path@,
        )->0.is_suffix_of(d.path@)),
        r matches Ok(d) ==> (slash_file_name(source_path@) is Some
            && !starts_with_two_separators(d.folder@) ==> joined(
            d.folder@,
            slash_file_name(source_path@)->0,
            d.path@,
        )),
        is_plain_name(source_path@) ==> r is Ok,
        slash_file_name(source_path@) is Some ==> r is Ok,
        tail_name(source_path@) is Some ==> r is Ok,
{
    match path_file_name(source_path) {
        None => Err("无法获取文件名".to_string()),
        Some(name) => {
            let folder = category_folder(script_dir, category);
            let path = path_join(folder.as_str(), name.as_str());
            proof {
                if slash_file_name(source_path@) is Some {
                    assert(name@ == slash_file_name(source_path@)->0);
                }
            }
            Ok(Destination { folder, path })
        },
    }
}

/// A step in moving a script file to its destination (see
/// `destination_in_category`), once the destination's folder exists.
#[derive(Clone, Copy, Debug, PartialEq, Eq, Structural)]
pub enum MoveStep {
    /// Ask whether a file already exists at the destination.
    CheckTarget,
    /// Remove the file that is at the destination.
    RemoveTarget,
    /// Rename the source file to the destination.
    Rename,
    /// Copy the source file to the destination (renaming failed, as it does
    /// across disks).
    CopyToTarget,
    /// Remove the source file once it has been copied.
    RemoveSource,
    /// The file has been moved.
    Finished,
}

/// The step after `step`, given what it answered: for `CheckTarget` whether
/// the destination exists, for `Rename` whether renaming succeeded; the
/// other steps either succeed or end the move with their error, so their
/// answer does not matter.
pub open spec fn move_transition(step: MoveStep, answer: bool) -> MoveStep {
    match step {
        MoveStep::CheckTarget => if answer {
            MoveStep::RemoveTarget
        } else {
            MoveStep::Rename
        },
        MoveStep::RemoveTarget => MoveStep::Rename,
        MoveStep::Rename => if answer {
            MoveStep::Finished
        } else {
            MoveStep::CopyToTarget
        },
        MoveStep::CopyToTarget => MoveStep::RemoveSource,
        MoveStep::RemoveSource => MoveStep::Finished,
        MoveStep::Finished => MoveStep::Finished,
    }
}

/// Decides the next step of moving a script file from the step just taken
/// and its answer: an existing destination file is removed first, and a
/// failed rename falls back to copying and removing the source.
pub fn next_move_step(step: MoveStep, answer: bool) -> (r: MoveStep)
    ensures
        r == move_transition(step, answer),
{
    match step {
        MoveStep::CheckTarget => if answer {
            MoveStep::RemoveTarget
        } else {
            MoveStep::Rename
        },
        MoveStep::RemoveTarget => MoveStep::Rename,
        MoveStep::Rename => if answer {
            MoveStep::Finished
        } else {
            MoveStep::CopyToTarget
        },
        MoveStep::CopyToTarget => MoveStep::RemoveSource,
        MoveStep::RemoveSource => MoveStep::Finished,
        MoveStep::Finished => MoveStep::Finished,
    }
}

/// A move that starts by checking the destination is finished after at
/// most five steps, whatever the answers; the source is removed only after
/// it was copied, and the destination only when it existed.
pub proof fn lemma_move_finishes(a0: bool, a1: bool, a2: bool, a3: bool, a4: bool)
    ensures
        ({
            let s1 = move_transition(MoveStep::CheckTarget, a0);
            let s2 = move_transition(s1, a1);
            let s3 = move_transition(s2, a2);
            let s4 = move_transition(s3, a3);
            &&& move_transition(s4, a4) == MoveStep::Finished
            &&& (s1 == MoveStep::RemoveTarget <==> a0)
            &&& s3 == MoveStep::RemoveSource ==> s2 == MoveStep::CopyToTarget
            &&& s4 == MoveStep::RemoveSource ==> s3 == MoveStep::CopyToTarget
        }),
{
}

/// The path a script takes when its category folder changes: the new
/// folder joined with the script's file name (empty when it has none).
pub fn path_in_folder(path: &str, folder: &str) -> (r: String)
    ensures
        folder@.len() > 0 ==> r@.len() > 0,
        slash_file_name(path@) is Some ==> slash_file_name(path@)->0.is_suffix_of(r@),
        slash_file_name(path@) is Some && !starts_with_two_separators(folder@) ==> joined(
            folder@,
            slash_file_name(path@)->0,
            r@,
        ),
{
    let name = match path_file_name(path) {
        Some(n) => n,
        None => String::new(),
    };
    path_join(folder, name.as_str())
}

/// The display name for the script file at `path`: the stem of its file
/// name, or `unknown_script_name` when it has none.
pub fn script_name_from_path(path: &str) -> (r: String)
    ensures
        r@ == unknown_script_name() || exists|n: Seq<char>| is_file_name_like(n) && r@
            == file_stem_of(n),
        is_plain_name(path@) ==> r@ == file_stem_of(path@),
        slash_file_name(path@) is Some ==> r@ == file_stem_of(slash_file_name(path@)->0),
        tail_has_extension(path@) ==> file_stem_of(tail_name(path@)->0).is_suffix_of(r@),
{
    match path_file_name(path) {
        Some(n) => {
            let r = script_name_for(Some(n.as_str()));
            assert(is_file_name_like(n@) && r@ == file_stem_of(n@));
            proof {
                if tail_has_extension(path@) {
                    lemma_name_ending_in(n@, tail_name(path@)->0);
                }
            }
            r
        },
        None => script_name_for(None),
    }
}

} // verus!
