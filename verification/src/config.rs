//! The configuration model: scripts, categories and settings, with the
//! edits that the application's commands make to it.
use vstd::prelude::*;
use crate::ids::{generate_id, salt_of_writes, script_id};
use crate::paths::{
    category_folder, file_stem_of, is_file_name_like, is_plain_name, joined, path_in_folder,
    slash_file_name, starts_with_two_separators, tail_has_extension, tail_name,
    script_name_from_path, unknown_script_name,
};
use crate::text::starts_with;

verus! {

/// One managed script.
#[derive(Debug)]
pub struct ScriptInfo {
    pub id: String,
    pub name: String,
    pub path: String,
    pub category: String,
    pub description: String,
    pub auto_start: bool,
}

impl Clone for ScriptInfo {
    fn clone(&self) -> (r: Self)
        ensures
            r == *self,
    {
        ScriptInfo {
            id: self.id.clone(),
            name: self.name.clone(),
            path: self.path.clone(),
            category: self.category.clone(),
            description: self.description.clone(),
            auto_start: self.auto_start,
        }
    }
}

/// The application's configuration.
#[derive(Debug, Clone)]
pub struct AppConfig {
    /// The folder under which every category has its own folder.
    pub script_dir: String,
    pub scripts: Vec<ScriptInfo>,
    pub categories: Vec<String>,
    /// What the close button does: `"to_tray"` hides the window, anything
    /// else (`"quit"`) lets it close.
    pub close_action: String,
    /// The global shortcut that shows the window, such as `"Ctrl+Shift+S"`.
    pub global_shortcut: String,
}

/// The category that always exists and takes the scripts of deleted ones.
pub open spec fn default_category() -> Seq<char> {
    "默认"@
}

/// The close action that hides the window to the tray.
pub open spec fn spec_default_close_action() -> Seq<char> {
    "to_tray"@
}

/// The global shortcut of a fresh configuration.
pub open spec fn default_shortcut() -> Seq<char> {
    "Ctrl+Shift+S"@
}

/// The close action used when the configuration does not name one.
pub fn default_close_action() -> (r: String)
    ensures
        r@ == spec_default_close_action(),
{
    "to_tray".to_string()
}

/// Trusted: calls `dirs::document_dir` and reads the path back as a string.
/// Nothing is stated of the result: it depends on the operating system and
/// the user's settings.
#[verifier::external_body]
fn document_dir() -> Option<String> {
    match dirs::document_dir() {
        Some(p) => Some(p.to_string_lossy().into_owned()),
        None => None,
    }
}

/// The name of the default script folder.
pub open spec fn script_folder_name() -> Seq<char> {
    seq!['脚', '本', '目', '录']
}

/// A folder that the system names, or the drive root `C:\` when it names
/// none.
pub open spec fn folder_or_drive_root(folder: Option<Seq<char>>) -> Seq<char> {
    match folder {
        Some(d) => d,
        None => seq!['C', ':', '\u{5C}'],
    }
}

/// The folder that holds the scripts when the user's document folder is
/// `document_dir`: `脚本目录` in that folder, or in `C:\` when there is none.
pub open spec fn is_default_script_dir(document_dir: Option<Seq<char>>, r: Seq<char>) -> bool {
    let base = folder_or_drive_root(document_dir);
    &&& r.len() > 0
    &&& script_folder_name().is_suffix_of(r)
    &&& !starts_with_two_separators(base) ==> joined(base, script_folder_name(), r)
}

/// The folder that holds the scripts for the given document folder:
/// `脚本目录` in it, or in `C:\` when there is none.
pub fn script_dir_under(document_dir: Option<String>) -> (r: String)
    ensures
        is_default_script_dir(
            match document_dir {
                Some(d) => Some(d@),
                None => None,
            },
            r@,
        ),
{
    proof {
        reveal_strlit("脚本目录");
        reveal_strlit("C:\\");
        assert("脚本目录"@ =~= script_folder_name());
        assert(is_plain_name(script_folder_name()));
    }
    match &document_dir {
        Some(d) => {
            let r = category_folder(d.as_str(), "脚本目录");
            assert(is_default_script_dir(Some(d@), r@));
            r
        },
        None => {
            let r = category_folder("C:\\", "脚本目录");
            assert("C:\\"@ =~= seq!['C', ':', '\u{5C}']);
            assert(is_default_script_dir(None, r@));
            r
        },
    }
}

/// The folder that a fresh configuration keeps scripts in: `script_dir_under`
/// the user's document folder, which `dirs::document_dir` looks up. Whatever
/// that folder is, the result is a path that ends with `脚本目录`.
pub fn default_script_dir() -> (r: String)
    ensures
        r@.len() > 0,
        script_folder_name().is_suffix_of(r@),
{
    script_dir_under(document_dir())
}

/// Trusted: calls `dirs::config_dir` and reads the path back as a string.
/// Nothing is stated of the result: it depends on the operating system and
/// the user's settings.
#[verifier::external_body]
fn config_dir() -> Option<String> {
    match dirs::config_dir() {
        Some(p) => Some(p.to_string_lossy().into_owned()),
        None => None,
    }
}

/// The name of the application's own configuration folder.
pub open spec fn app_folder_name() -> Seq<char> {
    "win-script-hub"@
}

/// The name of the configuration file.
pub open spec fn config_file_name() -> Seq<char> {
    "config.json"@
}

/// Where the configuration is stored.
pub struct ConfigLocation {
    /// The folder, which must exist before the file is written.
    pub folder: String,
    /// The configuration file in that folder.
    pub file: String,
}

/// Where the configuration is stored when the system's configuration folder
/// is `config_dir`: the folder `win-script-hub` in it (in `C:\` when there
/// is none), and the file `config.json` in that folder.
pub fn config_location_under(config_dir: Option<String>) -> (r: ConfigLocation)
    ensures
        ({
            let base = folder_or_drive_root(
                match config_dir {
                    Some(d) => Some(d@),
                    None => None,
                },
            );
            &&& app_folder_name().is_suffix_of(r.folder@)
            &&& !starts_with_two_separators(base) ==> joined(base, app_folder_name(), r.folder@)
            &&& config_file_name().is_suffix_of(r.file@)
            &&& !starts_with_two_separators(r.folder@) ==> joined(
                r.folder@,
                config_file_name(),
                r.file@,
            )
        }),
{
    proof {
        reveal_strlit("win-script-hub");
        reveal_strlit("config.json");
        reveal_strlit("C:\\");
        assert("C:\\"@ =~= seq!['C', ':', '\u{5C}']);
        assert(app_folder_name() =~= seq![
            'w', 'i', 'n', '-', 's', 'c', 'r', 'i', 'p', 't', '-', 'h', 'u', 'b',
        ]);
        assert(is_plain_name(app_folder_name()));
        assert(is_plain_name(config_file_name()));
    }
    let folder = match &config_dir {
        Some(d) => category_folder(d.as_str(), "win-script-hub"),
        None => category_folder("C:\\", "win-script-hub"),
    };
    let file = category_folder(folder.as_str(), "config.json");
    ConfigLocation { folder, file }
}

/// Where the configuration is stored: `config_location_under` the system's
/// configuration folder, which `dirs::config_dir` looks up.
pub fn config_location() -> (r: ConfigLocation)
    ensures
        app_folder_name().is_suffix_of(r.folder@),
        config_file_name().is_suffix_of(r.file@),
        !starts_with_two_separators(r.folder@) ==> joined(r.folder@, config_file_name(), r.file@),
{
    config_location_under(config_dir())
}

/// Whether `c` is a fresh configuration keeping its scripts in `dir`.
pub open spec fn is_fresh_config(c: AppConfig, dir: Seq<char>) -> bool {
    &&& c.script_dir@ == dir
    &&& c.scripts@.len() == 0
    &&& c.categories@.len() == 1
    &&& c.categories@[0]@ == default_category()
    &&& c.close_action@ == spec_default_close_action()
    &&& c.global_shortcut@ == default_shortcut()
}

impl AppConfig {
    /// A fresh configuration keeping its scripts in `script_dir`: no
    /// scripts, only the default category, closing to the tray, and
    /// `Ctrl+Shift+S` as the shortcut.
    pub fn with_script_dir(script_dir: String) -> (r: AppConfig)
        ensures
            is_fresh_config(r, script_dir@),
    {
        let mut categories: Vec<String> = Vec::new();
        categories.push("默认".to_string());
        AppConfig {
            script_dir,
            scripts: Vec::new(),
            categories,
            close_action: default_close_action(),
            global_shortcut: "Ctrl+Shift+S".to_string(),
        }
    }

    /// Whether closing the window hides it to the tray.
    pub fn closes_to_tray(&self) -> (r: bool)
        ensures
            r == (self.close_action@ == spec_default_close_action()),
    {
        let tray = default_close_action();
        self.close_action == tray
    }
}

impl Default for AppConfig {
    /// A fresh configuration keeping its scripts in `default_script_dir`.
    fn default() -> (r: AppConfig)
        ensures
            is_fresh_config(r, r.script_dir@),
            r.script_dir@.len() > 0,
            script_folder_name().is_suffix_of(r.script_dir@),
    {
        AppConfig::with_script_dir(default_script_dir())
    }
}

/// The index of the first element of `s` that satisfies `p`, or `s.len()`
/// when there is none.
pub open spec fn first_index<A>(s: Seq<A>, p: spec_fn(A) -> bool) -> int
    decreases s.len(),
{
    if s.len() == 0 {
        0
    } else if p(s[0]) {
        0
    } else {
        1 + first_index(s.subrange(1, s.len() as int), p)
    }
}

/// `first_index` is the first position whose element satisfies `p`.
pub proof fn lemma_first_index<A>(s: Seq<A>, p: spec_fn(A) -> bool)
    ensures
        0 <= first_index(s, p) <= s.len(),
        forall|j: int| 0 <= j < first_index(s, p) ==> !p(#[trigger] s[j]),
        first_index(s, p) < s.len() ==> p(s[first_index(s, p)]),
        first_index(s, p) == s.len() <==> forall|j: int| 0 <= j < s.len() ==> !p(#[trigger] s[j]),
    decreases s.len(),
{
    if s.len() > 0 && !p(s[0]) {
        let t = s.subrange(1, s.len() as int);
        lemma_first_index(t, p);
        assert forall|j: int| 0 <= j < first_index(s, p) implies !p(#[trigger] s[j]) by {
            if j > 0 {
                assert(s[j] == t[j - 1]);
            }
        }
        if first_index(s, p) == s.len() {
            assert forall|j: int| 0 <= j < s.len() implies !p(#[trigger] s[j]) by {
                if j > 0 {
                    assert(s[j] == t[j - 1]);
                }
            }
        }
        if forall|j: int| 0 <= j < s.len() ==> !p(#[trigger] s[j]) {
            assert forall|j: int| 0 <= j < t.len() implies !p(#[trigger] t[j]) by {
                assert(t[j] == s[j + 1]);
            }
        }
    }
}

/// `first_index` is `i` when nothing before `i` satisfies `p` and `i` does
/// or is the end.
proof fn lemma_first_index_at<A>(s: Seq<A>, p: spec_fn(A) -> bool, i: int)
    requires
        0 <= i <= s.len(),
        forall|j: int| 0 <= j < i ==> !p(#[trigger] s[j]),
        i == s.len() || p(s[i]),
    ensures
        first_index(s, p) == i,
{
    lemma_first_index(s, p);
    let k = first_index(s, p);
    if k < i {
        assert(!p(s[k]));
    }
    if i < k {
        assert(!p(s[i]));
    }
}

/// The test "this script has identifier `id`".
pub open spec fn id_is(id: Seq<char>) -> spec_fn(ScriptInfo) -> bool {
    |s: ScriptInfo| s.id@ == id
}

/// The test "this script does not have identifier `id`".
pub open spec fn id_is_not(id: Seq<char>) -> spec_fn(ScriptInfo) -> bool {
    |s: ScriptInfo| s.id@ != id
}

/// The test "this category is named `name`".
pub open spec fn named(name: Seq<char>) -> spec_fn(String) -> bool {
    |c: String| c@ == name
}

/// The test "this category is not named `name`".
pub open spec fn not_named(name: Seq<char>) -> spec_fn(String) -> bool {
    |c: String| c@ != name
}

/// The position of the first script with identifier `id` (the length of
/// the list when there is none).
pub open spec fn script_position(scripts: Seq<ScriptInfo>, id: Seq<char>) -> int {
    first_index(scripts, id_is(id))
}

/// The position of the first category named `name` (the length of the list
/// when there is none).
pub open spec fn category_position(categories: Seq<String>, name: Seq<char>) -> int {
    first_index(categories, named(name))
}

/// Whether some category is named `name`.
pub open spec fn has_category(categories: Seq<String>, name: Seq<char>) -> bool {
    exists|j: int| 0 <= j < categories.len() && #[trigger] categories[j]@ == name
}

/// The settings of `a` and `b` agree; their scripts and categories may not.
pub open spec fn same_settings(a: AppConfig, b: AppConfig) -> bool {
    &&& a.script_dir == b.script_dir
    &&& a.close_action == b.close_action
    &&& a.global_shortcut == b.global_shortcut
}

/// Finds the first script with identifier `id`.
fn find_script(scripts: &Vec<ScriptInfo>, id: &String) -> (r: usize)
    ensures
        r as int == script_position(scripts@, id@),
{
    let mut i: usize = 0;
    while i < scripts.len()
        invariant
            i <= scripts@.len(),
            forall|j: int| 0 <= j < i ==> !id_is(id@)(#[trigger] scripts@[j]),
        decreases scripts@.len() - i,
    {
        if scripts[i].id == *id {
            proof {
                lemma_first_index_at(scripts@, id_is(id@), i as int);
            }
            return i;
        }
        i = i + 1;
    }
    proof {
        lemma_first_index_at(scripts@, id_is(id@), i as int);
    }
    i
}

/// Finds the first category named `name`.
fn find_category(categories: &Vec<String>, name: &String) -> (r: usize)
    ensures
        r as int == category_position(categories@, name@),
{
    let mut i: usize = 0;
    while i < categories.len()
        invariant
            i <= categories@.len(),
            forall|j: int| 0 <= j < i ==> !named(name@)(#[trigger] categories@[j]),
        decreases categories@.len() - i,
    {
        if categories[i] == *name {
            proof {
                lemma_first_index_at(categories@, named(name@), i as int);
            }
            return i;
        }
        i = i + 1;
    }
    proof {
        lemma_first_index_at(categories@, named(name@), i as int);
    }
    i
}

/// Adds a script at the end of the list.
pub fn add_script(config: &mut AppConfig, script: ScriptInfo)
    ensures
        final(config).scripts@ == old(config).scripts@.push(script),
        final(config).categories@ == old(config).categories@,
        same_settings(*final(config), *old(config)),
{
    config.scripts.push(script);
}

/// The message when no script has the identifier of an update.
pub open spec fn msg_script_not_found() -> Seq<char> {
    "Script not found"@
}

/// Replaces the first script with the same identifier as `script`; refuses
/// when there is none.
pub fn update_script(config: &mut AppConfig, script: ScriptInfo) -> (r: Result<(), String>)
    ensures
        ({
            let k = script_position(old(config).scripts@, script.id@);
            &&& k < old(config).scripts@.len() ==> r is Ok && final(config).scripts@ == old(
                config,
            ).scripts@.update(k, script) && final(config).categories@ == old(config).categories@
                && same_settings(*final(config), *old(config))
            &&& k == old(config).scripts@.len() ==> (r matches Err(e) && e@
                == msg_script_not_found()) && *final(config) == *old(config)
        }),
{
    proof {
        lemma_first_index(config.scripts@, id_is(script.id@));
    }
    let k = find_script(&config.scripts, &script.id);
    if k < config.scripts.len() {
        config.scripts[k] = script;
        Ok(())
    } else {
        Err("Script not found".to_string())
    }
}

/// Removes every script with identifier `id`, keeping the others in order.
pub fn delete_script(config: &mut AppConfig, id: &str)
    ensures
        final(config).scripts@ == old(config).scripts@.filter(id_is_not(id@)),
        final(config).categories@ == old(config).categories@,
        same_settings(*final(config), *old(config)),
{
    let id = id.to_string();
    let mut kept: Vec<ScriptInfo> = Vec::new();
    let mut i: usize = 0;
    let ghost all = config.scripts@;
    assert(all.take(0) =~= Seq::<ScriptInfo>::empty());
    proof {
        reveal_with_fuel(Seq::<_>::filter, 1);
    }
    while i < config.scripts.len()
        invariant
            all == config.scripts@,
            i <= all.len(),
            kept@ == all.take(i as int).filter(id_is_not(id@)),
        decreases all.len() - i,
    {
        proof {
            reveal_with_fuel(Seq::<_>::filter, 1);
            assert(all.take(i + 1).drop_last() =~= all.take(i as int));
        }
        if config.scripts[i].id != id {
            kept.push(config.scripts[i].clone());
        }
        i = i + 1;
    }
    assert(all.take(all.len() as int) =~= all);
    config.scripts = kept;
}

/// The file to remove along with the script `id`: the path of the first
/// script with that identifier, when the path lies under `script_dir` (its
/// text begins with `script_dir`'s). The caller removes it if it exists.
pub fn script_file_to_delete(config: &AppConfig, id: &str, script_dir: &str) -> (r: Option<String>)
    ensures
        ({
            let k = script_position(config.scripts@, id@);
            &&& (k < config.scripts@.len() && script_dir@.is_prefix_of(
                config.scripts@[k].path@,
            )) ==> (r matches Some(p) && p@ == config.scripts@[k].path@)
            &&& !(k < config.scripts@.len() && script_dir@.is_prefix_of(
                config.scripts@[k].path@,
            )) ==> r is None
        }),
{
    let id = id.to_string();
    proof {
        lemma_first_index(config.scripts@, id_is(id@));
    }
    let k = find_script(&config.scripts, &id);
    if k < config.scripts.len() {
        let path = &config.scripts[k].path;
        if starts_with(path.as_str(), script_dir) {
            return Some(path.clone());
        }
    }
    None
}

/// The message when a category to add already exists.
pub open spec fn msg_category_exists() -> Seq<char> {
    "分类已存在"@
}

/// Adds a category at the end of the list; refuses a name that is already
/// there.
pub fn add_category(config: &mut AppConfig, name: String) -> (r: Result<(), String>)
    ensures
        has_category(old(config).categories@, name@) ==> (r matches Err(e) && e@
            == msg_category_exists()) && *final(config) == *old(config),
        !has_category(old(config).categories@, name@) ==> r is Ok && final(config).categories@
            == old(config).categories@.push(name) && final(config).scripts@ == old(
            config,
        ).scripts@ && same_settings(*final(config), *old(config)),
{
    proof {
        lemma_first_index(config.categories@, named(name@));
    }
    let k = find_category(&config.categories, &name);
    if k < config.categories.len() {
        return Err("分类已存在".to_string());
    }
    assert(!has_category(config.categories@, name@));
    config.categories.push(name);
    Ok(())
}

/// How one script changes when category `old` is renamed `new`: a script
/// in category `old` moves to category `new` and keeps identifier, name,
/// description and start-up flag; any other script stays as it is.
pub open spec fn recategorized_one(b: ScriptInfo, a: ScriptInfo, old: Seq<char>, new: Seq<char>) -> bool {
    if b.category@ == old {
        &&& a.category@ == new
        &&& a.id == b.id
        &&& a.name == b.name
        &&& a.description == b.description
        &&& a.auto_start == b.auto_start
    } else {
        a == b
    }
}

/// How the scripts change when category `old` is renamed `new`, one by one.
pub open spec fn recategorized(
    before: Seq<ScriptInfo>,
    after: Seq<ScriptInfo>,
    old: Seq<char>,
    new: Seq<char>,
) -> bool {
    &&& after.len() == before.len()
    &&& forall|i: int|
        0 <= i < before.len() ==> recategorized_one(#[trigger] before[i], after[i], old, new)
}

/// How the path of one script changes when category `old` moves from
/// folder `old_folder` to folder `new_folder`: a script of another category,
/// or whose path does not begin with `old_folder`, keeps its path; one whose
/// path does gets its file's path in `new_folder`: not empty when
/// `new_folder` is not, and `new_folder` joined with the file name where
/// that name does not depend on the platform (see `slash_file_name`).
pub open spec fn rehomed_one(
    b: ScriptInfo,
    a: ScriptInfo,
    old: Seq<char>,
    old_folder: Seq<char>,
    new_folder: Seq<char>,
) -> bool {
    if b.category@ == old && old_folder.is_prefix_of(b.path@) {
        &&& new_folder.len() > 0 ==> a.path@.len() > 0
        &&& slash_file_name(b.path@) is Some && !starts_with_two_separators(new_folder)
            ==> joined(new_folder, slash_file_name(b.path@)->0, a.path@)
    } else {
        a.path == b.path
    }
}

/// `rehomed_one` for every script, position by position.
pub open spec fn rehomed(
    before: Seq<ScriptInfo>,
    after: Seq<ScriptInfo>,
    old: Seq<char>,
    old_folder: Seq<char>,
    new_folder: Seq<char>,
) -> bool {
    forall|i: int|
        0 <= i < before.len() ==> rehomed_one(
            #[trigger] before[i],
            after[i],
            old,
            old_folder,
            new_folder,
        )
}

/// Moves the scripts of category `old_name` to `new_name`. A moved script
/// whose path begins with `old_folder` gets the path of its file in
/// `new_folder`; any other path is kept.
pub fn relocate_scripts(
    scripts: &mut Vec<ScriptInfo>,
    old_name: &str,
    new_name: &str,
    old_folder: &str,
    new_folder: &str,
)
    ensures
        recategorized(old(scripts)@, final(scripts)@, old_name@, new_name@),
        rehomed(old(scripts)@, final(scripts)@, old_name@, old_folder@, new_folder@),
{
    let old_s = old_name.to_string();
    let ghost before = scripts@;
    let mut i: usize = 0;
    while i < scripts.len()
        invariant
            scripts@.len() == before.len(),
            i <= before.len(),
            old_s@ == old_name@,
            forall|j: int| i <= j < before.len() ==> scripts@[j] == before[j],
            forall|j: int|
                0 <= j < i ==> recategorized_one(#[trigger] before[j], scripts@[j], old_name@, new_name@),
            forall|j: int|
                0 <= j < i ==> rehomed_one(
                    #[trigger] before[j],
                    scripts@[j],
                    old_name@,
                    old_folder@,
                    new_folder@,
                ),
        decreases before.len() - i,
    {
        if scripts[i].category == old_s {
            let mut s = scripts[i].clone();
            s.category = new_name.to_string();
            if starts_with(s.path.as_str(), old_folder) {
                s.path = path_in_folder(s.path.as_str(), new_folder);
            }
            scripts[i] = s;
        }
        i = i + 1;
    }
}

/// Whether `f` can be the folder of category `name` under `dir`, as
/// `category_folder` gives it: not empty when `dir` or `name` is not, and
/// `name` joined onto `dir` where that does not depend on the platform, and
/// ending with a plain `name` in any case.
pub open spec fn is_category_folder(dir: Seq<char>, name: Seq<char>, f: Seq<char>) -> bool {
    &&& dir.len() > 0 || name.len() > 0 ==> f.len() > 0
    &&& is_plain_name(name) ==> name.is_suffix_of(f)
    &&& is_plain_name(name) && !starts_with_two_separators(dir) ==> joined(dir, name, f)
}

/// What becomes of the script paths when category `old` under `dir` is
/// renamed `new`: the scripts are rehomed from the old category's folder to
/// the new one's.
pub open spec fn paths_follow_rename(
    before: Seq<ScriptInfo>,
    after: Seq<ScriptInfo>,
    dir: Seq<char>,
    old: Seq<char>,
    new: Seq<char>,
) -> bool {
    exists|old_folder: Seq<char>, new_folder: Seq<char>|
        #[trigger] is_category_folder(dir, old, old_folder) && #[trigger] is_category_folder(
            dir,
            new,
            new_folder,
        ) && rehomed(before, after, old, old_folder, new_folder)
}

/// The message when the category to rename does not exist.
pub open spec fn msg_category_missing() -> Seq<char> {
    "分类不存在"@
}

/// Renames the first category named `old_name` to `new_name` and moves its
/// scripts with it (see `relocate_scripts`; the folders are the category
/// folders of both names under the script directory). Refuses when no
/// category is named `old_name`.
pub fn update_category(config: &mut AppConfig, old_name: &str, new_name: &str) -> (r: Result<
    (),
    String,
>)
    ensures
        ({
            let k = category_position(old(config).categories@, old_name@);
            &&& k < old(config).categories@.len() ==> {
                &&& r is Ok
                &&& final(config).categories@.len() == old(config).categories@.len()
                &&& final(config).categories@[k]@ == new_name@
                &&& forall|j: int|
                    0 <= j < old(config).categories@.len() && j != k
                        ==> #[trigger] final(config).categories@[j] == old(config).categories@[j]
                &&& recategorized(
                    old(config).scripts@,
                    final(config).scripts@,
                    old_name@,
                    new_name@,
                )
                &&& paths_follow_rename(
                    old(config).scripts@,
                    final(config).scripts@,
                    old(config).script_dir@,
                    old_name@,
                    new_name@,
                )
                &&& same_settings(*final(config), *old(config))
            }
            &&& k == old(config).categories@.len() ==> (r matches Err(e) && e@
                == msg_category_missing()) && *final(config) == *old(config)
        }),
{
    let old_s = old_name.to_string();
    proof {
        lemma_first_index(config.categories@, named(old_name@));
    }
    let k = find_category(&config.categories, &old_s);
    if k == config.categories.len() {
        return Err("分类不存在".to_string());
    }
    let old_folder = category_folder(config.script_dir.as_str(), old_name);
    let new_folder = category_folder(config.script_dir.as_str(), new_name);
    config.categories[k] = new_name.to_string();
    relocate_scripts(
        &mut config.scripts,
        old_name,
        new_name,
        old_folder.as_str(),
        new_folder.as_str(),
    );
    assert(is_category_folder(config.script_dir@, old_name@, old_folder@));
    assert(is_category_folder(config.script_dir@, new_name@, new_folder@));
    Ok(())
}

/// The message when the default category is to be deleted.
pub open spec fn msg_default_undeletable() -> Seq<char> {
    "默认分类不能删除"@
}

/// Refuses the deletion of the default category; any other name may be
/// deleted.
pub fn check_category_deletable(name: &str) -> (r: Result<(), String>)
    ensures
        name@ == default_category() ==> (r matches Err(e) && e@ == msg_default_undeletable()),
        name@ != default_category() ==> r is Ok,
{
    let name_s = name.to_string();
    let default_name = "默认".to_string();
    if name_s == default_name {
        Err("默认分类不能删除".to_string())
    } else {
        Ok(())
    }
}

/// How one script changes when category `name` is deleted: a script in
/// that category moves to the default category and keeps everything else;
/// any other script stays as it is.
pub open spec fn moved_to_default_one(b: ScriptInfo, a: ScriptInfo, name: Seq<char>) -> bool {
    if b.category@ == name {
        &&& a.category@ == default_category()
        &&& a.id == b.id
        &&& a.name == b.name
        &&& a.path == b.path
        &&& a.description == b.description
        &&& a.auto_start == b.auto_start
    } else {
        a == b
    }
}

/// How the scripts change when category `name` is deleted, one by one.
pub open spec fn moved_to_default(before: Seq<ScriptInfo>, after: Seq<ScriptInfo>, name: Seq<char>) -> bool {
    &&& after.len() == before.len()
    &&& forall|i: int|
        0 <= i < before.len() ==> moved_to_default_one(#[trigger] before[i], after[i], name)
}

/// Deletes every category named `name`, moving its scripts to the default
/// category. The default category itself cannot be deleted.
pub fn delete_category(config: &mut AppConfig, name: &str) -> (r: Result<(), String>)
    ensures
        name@ == default_category() ==> (r matches Err(e) && e@ == msg_default_undeletable())
            && *final(config) == *old(config),
        name@ != default_category() ==> {
            &&& r is Ok
            &&& final(config).categories@ == old(config).categories@.filter(not_named(name@))
            &&& moved_to_default(old(config).scripts@, final(config).scripts@, name@)
            &&& same_settings(*final(config), *old(config))
        },
{
    check_category_deletable(name)?;
    let name_s = name.to_string();
    let default_name = "默认".to_string();
    let ghost before = config.scripts@;
    let mut i: usize = 0;
    while i < config.scripts.len()
        invariant
            config.scripts@.len() == before.len(),
            i <= before.len(),
            name_s@ == name@,
            default_name@ == default_category(),
            config.categories@ == old(config).categories@,
            same_settings(*config, *old(config)),
            forall|j: int| i <= j < before.len() ==> config.scripts@[j] == before[j],
            forall|j: int|
                0 <= j < i ==> moved_to_default_one(#[trigger] before[j], config.scripts@[j], name@),
        decreases before.len() - i,
    {
        if config.scripts[i].category == name_s {
            let mut s = config.scripts[i].clone();
            s.category = default_name.clone();
            config.scripts[i] = s;
        }
        i = i + 1;
    }
    let ghost cats = config.categories@;
    let ghost moved = config.scripts@;
    let mut kept: Vec<String> = Vec::new();
    let mut j: usize = 0;
    assert(cats.take(0) =~= Seq::<String>::empty());
    proof {
        reveal_with_fuel(Seq::<_>::filter, 1);
    }
    while j < config.categories.len()
        invariant
            cats == config.categories@,
            moved == config.scripts@,
            same_settings(*config, *old(config)),
            j <= cats.len(),
            name_s@ == name@,
            kept@ == cats.take(j as int).filter(not_named(name@)),
        decreases cats.len() - j,
    {
        proof {
            reveal_with_fuel(Seq::<_>::filter, 1);
            assert(cats.take(j + 1).drop_last() =~= cats.take(j as int));
        }
        if config.categories[j] != name_s {
            kept.push(config.categories[j].clone());
        }
        j = j + 1;
    }
    assert(cats.take(cats.len() as int) =~= cats);
    config.categories = kept;
    Ok(())
}

/// The folders of all categories, in order: what must exist for the
/// configuration to be usable.
pub fn category_folders(config: &AppConfig) -> (r: Vec<String>)
    ensures
        r@.len() == config.categories@.len(),
        forall|i: int|
            0 <= i < r@.len() ==> is_category_folder(
                config.script_dir@,
                config.categories@[i]@,
                #[trigger] r@[i]@,
            ),
{
    let mut r: Vec<String> = Vec::new();
    let mut i: usize = 0;
    while i < config.categories.len()
        invariant
            i <= config.categories@.len(),
            r@.len() == i,
            forall|j: int|
                0 <= j < i ==> is_category_folder(
                    config.script_dir@,
                    config.categories@[j]@,
                    #[trigger] r@[j]@,
                ),
        decreases config.categories@.len() - i,
    {
        r.push(category_folder(config.script_dir.as_str(), config.categories[i].as_str()));
        i = i + 1;
    }
    r
}

/// The record of a script file copied from `source_path` to `dest_path`
/// under `category`: a fresh identifier, the source file's stem as name, an
/// empty description and no start-up flag. None when no identifier can be
/// formed (see `generate_id`).
pub fn imported_script(source_path: &str, dest_path: String, category: String) -> (r: Option<
    ScriptInfo,
>)
    ensures
        r matches Some(s) ==> {
            &&& exists|millis: nat, salt: nat| salt < 0x1_0000_0000 && s.id@ == script_id(millis, salt)
            &&& s.name@ == unknown_script_name() || exists|n: Seq<char>| is_file_name_like(n)
                && s.name@ == file_stem_of(n)
            &&& is_plain_name(source_path@) ==> s.name@ == file_stem_of(source_path@)
            &&& slash_file_name(source_path@) is Some ==> s.name@ == file_stem_of(
                slash_file_name(source_path@)->0,
            )
            &&& tail_has_extension(source_path@) ==> file_stem_of(tail_name(source_path@)->0)
                .is_suffix_of(s.name@)
            &&& s.path == dest_path
            &&& s.category == category
            &&& s.description@.len() == 0
            &&& !s.auto_start
        },
{
    let id = match generate_id() {
        Some(id) => id,
        None => return None,
    };
    proof {
        let (m, w) = choose|m: u128, w: Seq<Seq<u8>>|
            0 <= salt_of_writes(w) < 0x1_0000_0000 && id@ == #[trigger] script_id(
                m as nat,
                salt_of_writes(w) as nat,
            );
        assert(id@ == script_id(m as nat, salt_of_writes(w) as nat));
    }
    Some(ScriptInfo {
        id,
        name: script_name_from_path(source_path),
        path: dest_path,
        category,
        description: String::new(),
        auto_start: false,
    })
}

/// Read after write: once a script has replaced the first one with its
/// identifier, looking that identifier up finds the new script at the same
/// place, and the list keeps its length.
pub proof fn lemma_update_then_lookup(scripts: Seq<ScriptInfo>, script: ScriptInfo)
    requires
        script_position(scripts, script.id@) < scripts.len(),
    ensures
        ({
            let k = script_position(scripts, script.id@);
            let u = scripts.update(k, script);
            &&& u.len() == scripts.len()
            &&& script_position(u, script.id@) == k
            &&& u[k] == script
        }),
{
    let k = script_position(scripts, script.id@);
    let u = scripts.update(k, script);
    lemma_first_index(scripts, id_is(script.id@));
    assert forall|j: int| 0 <= j < k implies !id_is(script.id@)(#[trigger] u[j]) by {
        assert(u[j] == scripts[j]);
    }
    lemma_first_index_at(u, id_is(script.id@), k);
}

/// After a deletion no script has the deleted identifier, and every script
/// with another identifier is still there.
pub proof fn lemma_deleted_script_gone(scripts: Seq<ScriptInfo>, id: Seq<char>)
    ensures
        ({
            let kept = scripts.filter(id_is_not(id));
            &&& forall|i: int| 0 <= i < kept.len() ==> (#[trigger] kept[i]).id@ != id
            &&& script_position(kept, id) == kept.len()
            &&& forall|i: int|
                0 <= i < scripts.len() && (#[trigger] scripts[i]).id@ != id ==> kept.contains(
                    scripts[i],
                )
        }),
{
    let kept = scripts.filter(id_is_not(id));
    broadcast use vstd::seq_lib::group_filter_ensures;
    assert forall|i: int| 0 <= i < kept.len() implies (#[trigger] kept[i]).id@ != id by {
        assert(id_is_not(id)(kept[i]));
    }
    assert forall|i: int| 0 <= i < scripts.len() && (#[trigger] scripts[i]).id@ != id implies kept.contains(scripts[i]) by {
        assert(id_is_not(id)(scripts[i]));
    }
    lemma_first_index(kept, id_is(id));
    assert forall|j: int| 0 <= j < kept.len() implies !id_is(id)(#[trigger] kept[j]) by {
        assert(kept[j].id@ != id);
    }
}

/// A category that has just been added is present, so adding it again is
/// refused.
pub proof fn lemma_added_category_present(categories: Seq<String>, name: String)
    ensures
        has_category(categories.push(name), name@),
{
    let c = categories.push(name);
    assert(c[categories.len() as int]@ == name@);
}

/// After category `name` (not the default one) is deleted, no category and
/// no script is left under that name, and the default category, if it was
/// there, still is.
pub proof fn lemma_deleted_category_gone(
    categories: Seq<String>,
    before: Seq<ScriptInfo>,
    after: Seq<ScriptInfo>,
    name: Seq<char>,
)
    requires
        name != default_category(),
        moved_to_default(before, after, name),
    ensures
        ({
            let kept = categories.filter(not_named(name));
            &&& !has_category(kept, name)
            &&& has_category(categories, default_category()) ==> has_category(
                kept,
                default_category(),
            )
            &&& forall|i: int| 0 <= i < after.len() ==> (#[trigger] after[i]).category@ != name
        }),
{
    let kept = categories.filter(not_named(name));
    broadcast use vstd::seq_lib::group_filter_ensures;
    assert forall|i: int| 0 <= i < kept.len() implies (#[trigger] kept[i])@ != name by {
        assert(not_named(name)(kept[i]));
    }
    if has_category(categories, default_category()) {
        let j = choose|j: int| 0 <= j < categories.len() && #[trigger] categories[j]@ == default_category();
        assert(not_named(name)(categories[j]));
        assert(kept.contains(categories[j]));
        let m = choose|m: int| 0 <= m < kept.len() && kept[m] == categories[j];
        assert(kept[m]@ == default_category());
    }
    assert forall|i: int| 0 <= i < after.len() implies (#[trigger] after[i]).category@ != name by {
        assert(moved_to_default_one(before[i], after[i], name));
    }
}

/// After category `old` is renamed to a different name, no script is left
/// in category `old`, and the scripts keep their number and order.
pub proof fn lemma_renamed_category_emptied(
    before: Seq<ScriptInfo>,
    after: Seq<ScriptInfo>,
    old: Seq<char>,
    new: Seq<char>,
)
    requires
        old != new,
        recategorized(before, after, old, new),
    ensures
        after.len() == before.len(),
        forall|i: int| 0 <= i < after.len() ==> (#[trigger] after[i]).category@ != old,
        forall|i: int| 0 <= i < after.len() ==> (#[trigger] after[i]).id == before[i].id,
{
    assert forall|i: int| 0 <= i < after.len() implies (#[trigger] after[i]).category@ != old
        && after[i].id == before[i].id by {
        assert(recategorized_one(before[i], after[i], old, new));
    }
}

} // verus!
