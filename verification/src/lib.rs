//! Verified core of a Windows batch-script manager: the configuration model
//! and its edits, global-shortcut parsing, decoding of file-dialog output,
//! the rules for discovering, naming, filing and running scripts, and script
//! identifiers.
pub mod config;
pub mod gbk;
pub mod gbk_table;
pub mod ids;
pub mod paths;
pub mod shortcut;
pub mod text;

pub use config::{
    add_category, add_script, category_folders, config_location, config_location_under, default_close_action, default_script_dir,
    script_dir_under,
    delete_category, delete_script, imported_script, relocate_scripts, ConfigLocation, script_file_to_delete,
    update_category, update_script, AppConfig, ScriptInfo,
};
pub use gbk::{decode_dialog_output, file_selection, folder_selection, gbk_to_string, gbk_to_unicode};
pub use ids::{format_script_id, id_for_clock, generate_id, rand_u32, truncate_to_u32};
pub use paths::{
    category_folder, destination_in_category, discover_script, discovered_from_file_name,
    is_script_ext_lower, next_move_step, path_in_folder, run_check_for, script_extension, script_name_for, script_name_from_path,
    script_run_check, split_file_name, Destination, DiscoveredScript, MoveStep,
};
pub use shortcut::{classify_token, parse_shortcut, KeyCode, Shortcut, ShortcutModifiers, Token};
