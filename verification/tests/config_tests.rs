use win_script_hub::config::check_category_deletable;
use win_script_hub::{
    add_category, add_script, category_folders, default_close_action, delete_category,
    delete_script, imported_script, relocate_scripts, script_file_to_delete, update_category,
    update_script, AppConfig, ScriptInfo,
};

fn script(id: &str, category: &str, path: &str) -> ScriptInfo {
    ScriptInfo {
        id: id.to_string(),
        name: format!("name-{}", id),
        path: path.to_string(),
        category: category.to_string(),
        description: String::new(),
        auto_start: false,
    }
}

fn sample() -> AppConfig {
    let mut c = AppConfig::with_script_dir("/scripts".to_string());
    c.categories.push("工具".to_string());
    add_script(&mut c, script("a", "默认", "/scripts/默认/a.bat"));
    add_script(&mut c, script("b", "工具", "/scripts/工具/b.cmd"));
    add_script(&mut c, script("c", "工具", "/elsewhere/c.bat"));
    c
}

#[test]
fn default_close_action_is_to_tray() {
    assert_eq!(default_close_action(), "to_tray");
}

#[test]
fn fresh_config_has_defaults() {
    let c = AppConfig::with_script_dir("D:\\MyScripts".to_string());
    assert_eq!(c.script_dir, "D:\\MyScripts");
    assert!(c.scripts.is_empty());
    assert_eq!(c.categories, vec!["默认".to_string()]);
    assert_eq!(c.close_action, "to_tray");
    assert_eq!(c.global_shortcut, "Ctrl+Shift+S");
    assert!(c.closes_to_tray());
}

#[test]
fn default_config_uses_script_folder() {
    let c = AppConfig::default();
    assert!(c.script_dir.ends_with("脚本目录"));
    assert_eq!(c.categories, vec!["默认".to_string()]);
    assert_eq!(c.global_shortcut, "Ctrl+Shift+S");
}

#[test]
fn quit_action_does_not_close_to_tray() {
    let mut c = AppConfig::with_script_dir("x".to_string());
    c.close_action = "quit".to_string();
    assert!(!c.closes_to_tray());
}

#[test]
fn add_script_appends() {
    let c = sample();
    let ids: Vec<&str> = c.scripts.iter().map(|s| s.id.as_str()).collect();
    assert_eq!(ids, vec!["a", "b", "c"]);
}

#[test]
fn update_script_replaces_first_match() {
    let mut c = sample();
    let mut s = script("b", "默认", "/new/b.bat");
    s.description = "updated".to_string();
    assert!(update_script(&mut c, s).is_ok());
    assert_eq!(c.scripts.len(), 3);
    assert_eq!(c.scripts[1].description, "updated");
    assert_eq!(c.scripts[1].path, "/new/b.bat");
    assert_eq!(c.scripts[1].category, "默认");
    assert_eq!(c.scripts[0].id, "a");
}

#[test]
fn update_script_unknown_id_is_refused() {
    let mut c = sample();
    let r = update_script(&mut c, script("zzz", "默认", "p"));
    assert_eq!(r, Err("Script not found".to_string()));
    assert_eq!(c.scripts.len(), 3);
}

#[test]
fn delete_script_removes_every_copy() {
    let mut c = sample();
    add_script(&mut c, script("a", "工具", "/dup"));
    delete_script(&mut c, "a");
    let ids: Vec<&str> = c.scripts.iter().map(|s| s.id.as_str()).collect();
    assert_eq!(ids, vec!["b", "c"]);
    delete_script(&mut c, "nothing");
    assert_eq!(c.scripts.len(), 2);
}

#[test]
fn file_to_delete_only_inside_script_dir() {
    let c = sample();
    assert_eq!(
        script_file_to_delete(&c, "a", "/scripts"),
        Some("/scripts/默认/a.bat".to_string())
    );
    assert_eq!(script_file_to_delete(&c, "c", "/scripts"), None);
    assert_eq!(script_file_to_delete(&c, "missing", "/scripts"), None);
}

#[test]
fn add_category_then_again_is_refused() {
    let mut c = sample();
    assert_eq!(add_category(&mut c, "新分类".to_string()), Ok(()));
    assert_eq!(c.categories.last().unwrap(), "新分类");
    let before = c.categories.len();
    assert_eq!(
        add_category(&mut c, "新分类".to_string()),
        Err("分类已存在".to_string())
    );
    assert_eq!(c.categories.len(), before);
}

#[test]
fn update_category_renames_and_moves_scripts() {
    let mut c = sample();
    assert_eq!(update_category(&mut c, "工具", "实用"), Ok(()));
    assert_eq!(c.categories, vec!["默认".to_string(), "实用".to_string()]);
    assert_eq!(c.scripts[0].category, "默认");
    assert_eq!(c.scripts[1].category, "实用");
    assert_eq!(c.scripts[2].category, "实用");
    assert!(c.scripts[1].path.ends_with("b.cmd"));
    assert!(c.scripts[1].path.contains("实用"));
    assert_eq!(c.scripts[2].path, "/elsewhere/c.bat");
    assert!(c.scripts.iter().all(|s| s.category != "工具"));
}

#[test]
fn update_missing_category_is_refused() {
    let mut c = sample();
    assert_eq!(update_category(&mut c, "无", "有"), Err("分类不存在".to_string()));
    assert_eq!(c.categories.len(), 2);
}

#[test]
fn relocate_keeps_paths_outside_old_folder() {
    let mut scripts = vec![script("x", "old", "/root/old/x.bat"), script("y", "old", "/other/y.bat"), script("z", "keep", "/root/old/z.bat")];
    relocate_scripts(&mut scripts, "old", "new", "/root/old", "/root/new");
    assert_eq!(scripts[0].category, "new");
    assert_eq!(scripts[0].path, "/root/new/x.bat");
    assert_eq!(scripts[1].path, "/other/y.bat");
    assert_eq!(scripts[2].category, "keep");
    assert_eq!(scripts[2].path, "/root/old/z.bat");
}

#[test]
fn default_category_cannot_be_deleted() {
    let mut c = sample();
    assert_eq!(delete_category(&mut c, "默认"), Err("默认分类不能删除".to_string()));
    assert_eq!(c.categories.len(), 2);
}

#[test]
fn deleting_category_moves_scripts_to_default() {
    let mut c = sample();
    assert_eq!(delete_category(&mut c, "工具"), Ok(()));
    assert_eq!(c.categories, vec!["默认".to_string()]);
    assert!(c.scripts.iter().all(|s| s.category == "默认"));
    assert_eq!(c.scripts.len(), 3);
    assert_eq!(c.scripts[2].path, "/elsewhere/c.bat");
}

#[test]
fn category_folders_one_per_category() {
    let c = sample();
    let f = category_folders(&c);
    assert_eq!(f.len(), 2);
    assert!(f[1].starts_with("/scripts"));
    assert!(f[1].ends_with("工具"));
}

#[test]
fn imported_script_record() {
    let s = imported_script("/tmp/source/backup.bat", "/scripts/默认/backup.bat".to_string(), "默认".to_string())
        .unwrap();
    assert!(s.id.starts_with("s_"));
    assert_eq!(s.name, "backup");
    assert_eq!(s.path, "/scripts/默认/backup.bat");
    assert_eq!(s.category, "默认");
    assert_eq!(s.description, "");
    assert!(!s.auto_start);
}

#[test]
fn only_default_category_is_undeletable() {
    assert_eq!(check_category_deletable("默认"), Err("默认分类不能删除".to_string()));
    assert_eq!(check_category_deletable("工具"), Ok(()));
}

#[test]
fn script_dir_under_document_folder() {
    let d = win_script_hub::script_dir_under(Some("/home/u/Documents".to_string()));
    assert_eq!(d, "/home/u/Documents/脚本目录");
    let c = win_script_hub::script_dir_under(None);
    assert!(c.starts_with("C:\\"));
    assert!(c.ends_with("脚本目录"));
}

#[test]
fn config_location_under_config_folder() {
    let l = win_script_hub::config_location_under(Some("/home/u/.config".to_string()));
    assert_eq!(l.folder, "/home/u/.config/win-script-hub");
    assert_eq!(l.file, "/home/u/.config/win-script-hub/config.json");
    let c = win_script_hub::config_location_under(None);
    assert!(c.folder.starts_with("C:\\"));
    assert!(c.folder.ends_with("win-script-hub"));
    assert!(c.file.ends_with("config.json"));
    assert!(c.file.starts_with(c.folder.as_str()));
}

#[test]
fn config_location_names_config_file() {
    let l = win_script_hub::config_location();
    assert!(l.folder.ends_with("win-script-hub"));
    assert!(l.file.ends_with("config.json"));
}
