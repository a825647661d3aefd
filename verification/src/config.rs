//! The application's configuration record and user settings.

use vstd::prelude::*;
use vstd::string::StringExecFns;
use crate::backup::Game;
use crate::cloud::Backend;
use crate::cloud::CloudSettings;

verus! {

/// How the save list reacts to expansion.
#[derive(Debug, Clone, Copy, PartialEq, Eq, Structural)]
pub enum SaveListExpandBehavior {
    AlwaysOpen,
    AlwaysClosed,
    RememberLast,
}

impl Default for SaveListExpandBehavior {
    fn default() -> (r: SaveListExpandBehavior)
        ensures
            r is AlwaysClosed,
    {
        SaveListExpandBehavior::AlwaysClosed
    }
}

/// Settings a user can change.
#[derive(Debug, Clone)]
pub struct Settings {
    pub prompt_when_not_described: bool,
    pub extra_backup_when_apply: bool,
    pub show_edit_button: bool,
    pub prompt_when_auto_backup: bool,
    pub exit_to_tray: bool,
    pub cloud_settings: CloudSettings,
    pub locale: String,
    pub default_delete_before_apply: bool,
    pub default_expend_favorites_tree: bool,
    pub home_page: String,
    pub log_to_file: bool,
    pub add_new_to_favorites: bool,
    pub save_list_expand_behavior: SaveListExpandBehavior,
    pub save_list_last_expanded: bool,
}

impl Settings {
    /// The same settings with cloud credentials scrubbed.
    pub fn sanitize(self) -> (r: Settings)
        ensures
            r.cloud_settings.always_sync == self.cloud_settings.always_sync,
            crate::cloud::scrubbed(self.cloud_settings.backend, r.cloud_settings.backend),
            r.locale@ == self.locale@,
            r.exit_to_tray == self.exit_to_tray,
    {
        Settings { cloud_settings: self.cloud_settings.sanitize(), ..self }
    }
}

impl Default for Settings {
    fn default() -> (r: Settings)
        ensures
            r.prompt_when_not_described,
            r.extra_backup_when_apply,
            !r.show_edit_button,
            r.prompt_when_auto_backup,
            r.exit_to_tray,
            !r.cloud_settings.always_sync,
            r.cloud_settings.backend is Disabled,
            r.locale@ == "en_US"@,
            !r.default_delete_before_apply,
            !r.default_expend_favorites_tree,
            r.home_page@ == "/home"@,
            r.log_to_file,
            !r.add_new_to_favorites,
            r.save_list_expand_behavior is AlwaysClosed,
            !r.save_list_last_expanded,
    {
        Settings {
            prompt_when_not_described: true,
            extra_backup_when_apply: true,
            show_edit_button: false,
            prompt_when_auto_backup: true,
            exit_to_tray: true,
            cloud_settings: CloudSettings::default(),
            locale: String::from_str("en_US"),
            default_delete_before_apply: false,
            default_expend_favorites_tree: false,
            home_page: String::from_str("/home"),
            log_to_file: true,
            add_new_to_favorites: false,
            save_list_expand_behavior: SaveListExpandBehavior::AlwaysClosed,
            save_list_last_expanded: false,
        }
    }
}

/// Key bindings for the quick backup and apply actions.
#[derive(Debug, Clone)]
pub struct QuickActionHotkeys {
    pub apply: Vec<String>,
    pub backup: Vec<String>,
}

impl Default for QuickActionHotkeys {
    fn default() -> (r: QuickActionHotkeys)
        ensures
            r.apply@.len() == 3,
            r.backup@.len() == 3,
            forall|i: int| 0 <= i < 3 ==> r.apply@[i]@.len() == 0,
            forall|i: int| 0 <= i < 3 ==> r.backup@[i]@.len() == 0,
    {
        let mut apply: Vec<String> = Vec::new();
        apply.push(String::new());
        apply.push(String::new());
        apply.push(String::new());
        let mut backup: Vec<String> = Vec::new();
        backup.push(String::new());
        backup.push(String::new());
        backup.push(String::new());
        QuickActionHotkeys { apply, backup }
    }
}

/// Where a quick-action sound comes from.
#[derive(Debug, Clone)]
pub enum QuickActionSoundSource {
    Default,
    File { path: String },
}

impl Default for QuickActionSoundSource {
    fn default() -> (r: QuickActionSoundSource)
        ensures
            r is Default,
    {
        QuickActionSoundSource::Default
    }
}

/// One sound per quick-action outcome.
#[derive(Debug, Clone)]
pub struct QuickActionSoundSlots {
    pub success: QuickActionSoundSource,
    pub failure: QuickActionSoundSource,
}

impl Default for QuickActionSoundSlots {
    fn default() -> (r: QuickActionSoundSlots)
        ensures
            r.success is Default,
            r.failure is Default,
    {
        QuickActionSoundSlots {
            success: QuickActionSoundSource::Default,
            failure: QuickActionSoundSource::Default,
        }
    }
}

/// Sound preferences for quick actions.
#[derive(Debug, Clone)]
pub struct QuickActionSoundPreferences {
    pub enable_sound: bool,
    pub sounds: QuickActionSoundSlots,
}

impl Default for QuickActionSoundPreferences {
    fn default() -> (r: QuickActionSoundPreferences)
        ensures
            r.enable_sound,
            r.sounds.success is Default,
            r.sounds.failure is Default,
    {
        QuickActionSoundPreferences { enable_sound: true, sounds: QuickActionSoundSlots::default() }
    }
}

impl QuickActionSoundPreferences {
    /// The sound preferences carried inside the quick-action settings.
    pub fn from_settings(value: &QuickActionsSettings) -> (r: QuickActionSoundPreferences)
        ensures
            r.enable_sound == value.enable_sound,
    {
        QuickActionSoundPreferences {
            enable_sound: value.enable_sound,
            sounds: value.sounds.clone(),
        }
    }
}

/// Settings for the quick backup and apply actions.
#[derive(Debug, Clone)]
pub struct QuickActionsSettings {
    pub quick_action_game: Option<Game>,
    pub hotkeys: QuickActionHotkeys,
    pub enable_sound: bool,
    pub enable_notification: bool,
    pub sounds: QuickActionSoundSlots,
}

impl Default for QuickActionsSettings {
    fn default() -> (r: QuickActionsSettings)
        ensures
            r.quick_action_game is None,
            r.enable_sound,
            r.enable_notification,
    {
        QuickActionsSettings {
            quick_action_game: None,
            hotkeys: QuickActionHotkeys::default(),
            enable_sound: true,
            enable_notification: true,
            sounds: QuickActionSoundSlots::default(),
        }
    }
}

/// A node of the favorites tree shown by the front end.
#[derive(Debug)]
pub struct FavoriteTreeNode {
    pub node_id: String,
    pub label: String,
    pub is_leaf: bool,
    pub children: Option<Vec<FavoriteTreeNode>>,
}

/// A device known to the configuration.
#[derive(Debug, Clone)]
pub struct Device {
    pub id: String,
    pub name: String,
}

/// The whole configuration: version, backup location, games, settings,
/// favorites, quick actions, and the known devices.
#[derive(Debug)]
pub struct Config {
    pub version: String,
    pub backup_path: String,
    pub games: Vec<Game>,
    pub settings: Settings,
    pub favorites: Vec<FavoriteTreeNode>,
    pub quick_action: QuickActionsSettings,
    pub devices: Vec<(String, Device)>,
}

impl Config {
    /// The same configuration with cloud credentials scrubbed.
    pub fn sanitize(self) -> (r: Config)
        ensures
            r.version@ == self.version@,
            r.backup_path@ == self.backup_path@,
            r.games == self.games,
            r.settings.cloud_settings.always_sync == self.settings.cloud_settings.always_sync,
            crate::cloud::scrubbed(
                self.settings.cloud_settings.backend,
                r.settings.cloud_settings.backend,
            ),
    {
        Config { settings: self.settings.sanitize(), ..self }
    }
}

impl Default for Config {
    fn default() -> (r: Config)
        ensures
            r.version@ == "1.5.0"@,
            r.backup_path@ == "./save_data"@,
            r.games@.len() == 0,
            r.favorites@.len() == 0,
            r.devices@.len() == 0,
            r.quick_action.quick_action_game is None,
            r.settings.extra_backup_when_apply,
            r.settings.exit_to_tray,
    {
        Config {
            version: String::from_str("1.5.0"),
            backup_path: String::from_str("./save_data"),
            games: Vec::new(),
            settings: Settings::default(),
            favorites: Vec::new(),
            quick_action: QuickActionsSettings::default(),
            devices: Vec::new(),
        }
    }
}

} // verus!
