use std::path::Path;
use win_script_hub::{next_move_step, MoveStep};
use win_script_hub::{
    category_folder, destination_in_category, discover_script, discovered_from_file_name,
    run_check_for, script_extension, script_name_for, script_name_from_path, script_run_check,
    split_file_name,
};

#[test]
fn split_matches_std_path() {
    for name in ["a.bat", "a.b.cmd", ".profile", "noext", "a.", ".a.b", "x..y"] {
        let chars: Vec<char> = name.chars().collect();
        let (stem, ext) = split_file_name(&chars);
        let stem: String = stem.into_iter().collect();
        let ext: Option<String> = ext.map(|e| e.into_iter().collect());
        let p = Path::new(name);
        assert_eq!(Some(stem.as_str()), p.file_stem().and_then(|s| s.to_str()), "{}", name);
        assert_eq!(ext.as_deref(), p.extension().and_then(|s| s.to_str()), "{}", name);
    }
}

#[test]
fn dot_dot_has_no_extension() {
    let (stem, ext) = split_file_name(&['.', '.']);
    assert_eq!(stem, vec!['.', '.']);
    assert!(ext.is_none());
}

#[test]
fn script_extensions_any_case() {
    assert!(script_extension("bat"));
    assert!(script_extension("BAT"));
    assert!(script_extension("Cmd"));
    assert!(!script_extension("ps1"));
    assert!(!script_extension("bats"));
}

#[test]
fn script_names() {
    assert_eq!(script_name_for(Some("backup.bat")), "backup");
    assert_eq!(script_name_for(None), "未知脚本");
    assert_eq!(script_name_from_path("/x/y/deploy.cmd"), "deploy");
    assert_eq!(script_name_from_path("/"), "未知脚本");
}

#[test]
fn discovery_rules() {
    let d = discovered_from_file_name(Some("Build.BAT"), "/s/Build.BAT").unwrap();
    assert_eq!(d.name, "Build");
    assert_eq!(d.path, "/s/Build.BAT");
    assert!(discovered_from_file_name(Some("notes.txt"), "/s/notes.txt").is_none());
    assert!(discovered_from_file_name(Some(".bat"), "/s/.bat").is_none());
    assert!(discovered_from_file_name(None, "/").is_none());
    let d = discover_script("/work/tools/run.cmd").unwrap();
    assert_eq!(d.name, "run");
    assert!(discover_script("/work/tools/readme.md").is_none());
}

#[test]
fn run_checks() {
    assert_eq!(run_check_for(false, Some("a.bat")), Err("Script file not found".to_string()));
    assert_eq!(run_check_for(true, Some("a.BAT")), Ok("Script started".to_string()));
    assert_eq!(run_check_for(true, Some("a.exe")), Err("Unsupported script type".to_string()));
    assert_eq!(run_check_for(true, Some("a")), Err("Unsupported script type".to_string()));
    assert_eq!(run_check_for(true, None), Err("Unsupported script type".to_string()));
    assert_eq!(script_run_check("/x/go.cmd", true), Ok("Script started".to_string()));
    assert_eq!(script_run_check("/x/go.cmd", false), Err("Script file not found".to_string()));
}

#[test]
fn destinations() {
    let d = destination_in_category("/src/a.bat", "工具", "/scripts").unwrap();
    assert_eq!(d.folder, category_folder("/scripts", "工具"));
    assert!(d.folder.ends_with("工具"));
    assert!(d.path.starts_with(&d.folder));
    assert!(d.path.ends_with("a.bat"));
    assert_eq!(destination_in_category("/", "工具", "/scripts").err(), Some("无法获取文件名".to_string()));
}

#[test]
fn plain_names_are_their_own_file_names() {
    let d = discover_script("run.BAT").unwrap();
    assert_eq!(d.name, "run");
    assert_eq!(d.path, "run.BAT");
    assert!(discover_script("run.txt").is_none());
    assert_eq!(script_run_check("go.cmd", true), Ok("Script started".to_string()));
    assert_eq!(script_run_check("go.ps1", true), Err("Unsupported script type".to_string()));
    assert_eq!(script_name_from_path("notes.v2.bat"), "notes.v2");
    let d = destination_in_category("a.bat", "工具", "").unwrap();
    assert!(!d.folder.is_empty());
    assert!(!d.path.is_empty());
}

#[test]
fn joined_paths_are_not_empty() {
    assert!(!category_folder("", "x").is_empty());
    assert!(!category_folder("x", "").is_empty());
    assert!(!win_script_hub::path_in_folder("", "folder").is_empty());
}

#[test]
fn joins_have_the_documented_shape() {
    assert_eq!(category_folder("/scripts", "工具"), "/scripts/工具");
    assert_eq!(category_folder("/scripts/", "工具"), "/scripts/工具");
    assert_eq!(category_folder("", "工具"), "工具");
    let d = destination_in_category("/src/dir/a.bat", "工具", "/scripts").unwrap();
    assert_eq!(d.folder, "/scripts/工具");
    assert_eq!(d.path, "/scripts/工具/a.bat");
    assert_eq!(win_script_hub::path_in_folder("/old/x/run.cmd", "/new/y"), "/new/y/run.cmd");
    assert_eq!(script_name_from_path("/a/b/deploy.v1.bat"), "deploy.v1");
}

#[test]
fn lower_case_extensions() {
    assert!(win_script_hub::is_script_ext_lower("bat"));
    assert!(win_script_hub::is_script_ext_lower("cmd"));
    assert!(!win_script_hub::is_script_ext_lower("BAT"));
    assert!(!win_script_hub::is_script_ext_lower(""));
}

#[test]
fn move_steps() {
    assert_eq!(next_move_step(MoveStep::CheckTarget, true), MoveStep::RemoveTarget);
    assert_eq!(next_move_step(MoveStep::CheckTarget, false), MoveStep::Rename);
    assert_eq!(next_move_step(MoveStep::RemoveTarget, true), MoveStep::Rename);
    assert_eq!(next_move_step(MoveStep::Rename, true), MoveStep::Finished);
    assert_eq!(next_move_step(MoveStep::Rename, false), MoveStep::CopyToTarget);
    assert_eq!(next_move_step(MoveStep::CopyToTarget, true), MoveStep::RemoveSource);
    assert_eq!(next_move_step(MoveStep::RemoveSource, true), MoveStep::Finished);
    assert_eq!(next_move_step(MoveStep::Finished, false), MoveStep::Finished);
}

#[test]
fn joins_after_drive_and_backslash() {
    let d = category_folder("C:\\scripts\\", "工具");
    assert!(d == "C:\\scripts\\工具" || d == "C:\\scripts\\/工具");
    let e = category_folder("C:\\scripts", "工具");
    assert!(e == "C:\\scripts/工具" || e == "C:\\scripts\\工具");
}
