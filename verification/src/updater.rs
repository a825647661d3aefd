//! Configuration migration: version probing, compatibility decisions,
//! and the upgrade of the oldest supported configuration layout.
//!
//! Reading and writing the configuration file is the caller's business;
//! this module decides whether a version is supported and what an old
//! layout becomes.

use vstd::prelude::*;
use vstd::string::StringExecFns;
use crate::backup::SaveUnit;
use crate::backup::SaveUnitType;
use crate::config::Device;
use crate::config::FavoriteTreeNode;
use crate::config::QuickActionsSettings;
use crate::config::Settings;

verus! {

/// A parsed version: the numeric triple, and whether a pre-release tag
/// was present.
#[derive(Debug, Clone, Copy, PartialEq, Eq, Structural)]
pub struct Version {
    pub major: u64,
    pub minor: u64,
    pub patch: u64,
    pub pre: bool,
}

/// What parsing a version text yields: a function of the text alone.
pub uninterp spec fn parsed_version(s: Seq<char>) -> Option<(u64, u64, u64, bool)>;

/// Relies on `semver::Version::parse`: the result depends on the text
/// alone; major, minor and patch are the parsed numbers, and `pre` is
/// whether a pre-release tag was present.
#[verifier::external_body]
fn parse_semver(s: &str) -> (r: Option<Version>)
    ensures
        match r {
            Some(v) => parsed_version(s@) == Some((v.major, v.minor, v.patch, v.pre)),
            None => parsed_version(s@) is None,
        },
{
    match semver::Version::parse(s) {
        Ok(v) => Some(
            Version { major: v.major, minor: v.minor, patch: v.patch, pre: !v.pre.is_empty() },
        ),
        Err(_) => None,
    }
}

/// Parses a version text; absent exactly when the text is no version.
pub fn parse_version(s: &str) -> (r: Option<Version>)
    ensures
        match r {
            Some(v) => parsed_version(s@) == Some((v.major, v.minor, v.patch, v.pre)),
            None => parsed_version(s@) is None,
        },
{
    parse_semver(s)
}

/// Version ordering: lexicographic on the numeric triple, with a
/// pre-release sorting before the release it precedes.
pub open spec fn v_lt(a: Version, b: Version) -> bool {
    ||| a.major < b.major
    ||| (a.major == b.major && a.minor < b.minor)
    ||| (a.major == b.major && a.minor == b.minor && a.patch < b.patch)
    ||| (a.major == b.major && a.minor == b.minor && a.patch == b.patch && a.pre && !b.pre)
}

/// Decides the version ordering.
pub fn version_lt(a: &Version, b: &Version) -> (r: bool)
    ensures
        r == v_lt(*a, *b),
{
    if a.major != b.major {
        a.major < b.major
    } else if a.minor != b.minor {
        a.minor < b.minor
    } else if a.patch != b.patch {
        a.patch < b.patch
    } else {
        a.pre && !b.pre
    }
}

/// The configuration version this crate writes.
pub fn current_version() -> (r: Version)
    ensures
        r == (Version { major: 1, minor: 5, patch: 0, pre: false }),
{
    Version { major: 1, minor: 5, patch: 0, pre: false }
}

/// The oldest configuration version migration still accepts.
pub fn min_supported_version() -> (r: Version)
    ensures
        r == (Version { major: 1, minor: 0, patch: 0, pre: false }),
{
    Version { major: 1, minor: 0, patch: 0, pre: false }
}

/// What to do with a configuration of a given version.
#[derive(Debug, Clone, Copy, PartialEq, Eq, Structural)]
pub enum MigrationAction {
    TooNew,
    TooOld,
    UpToDate,
    Migrate,
}

/// Decides the migration: newer than this crate is refused, older than
/// the minimum is refused, the current version needs nothing, and
/// anything between is migrated.
pub fn migration_action(version: &Version, current: &Version, min_supported: &Version) -> (r:
    MigrationAction)
    ensures
        v_lt(*current, *version) ==> r is TooNew,
        (!v_lt(*current, *version) && v_lt(*version, *min_supported)) ==> r is TooOld,
        (!v_lt(*current, *version) && !v_lt(*version, *min_supported) && *version == *current)
            ==> r is UpToDate,
        (!v_lt(*current, *version) && !v_lt(*version, *min_supported) && *version != *current)
            ==> r is Migrate,
{
    if version_lt(current, version) {
        MigrationAction::TooNew
    } else if version_lt(version, min_supported) {
        MigrationAction::TooOld
    } else if version.major == current.major && version.minor == current.minor && version.patch
        == current.patch && version.pre == current.pre {
        MigrationAction::UpToDate
    } else {
        MigrationAction::Migrate
    }
}

/// A save unit as the oldest supported layout wrote it: one path, not
/// yet keyed by device.
#[derive(Debug, Clone)]
pub struct SaveUnit1_4_0 {
    pub unit_type: SaveUnitType,
    pub path: String,
    pub delete_before_apply: bool,
}

/// A game as the oldest supported layout wrote it.
#[derive(Debug)]
pub struct Game {
    pub name: String,
    pub save_paths: Vec<SaveUnit1_4_0>,
    pub game_path: Option<String>,
}

/// A configuration as the oldest supported layout wrote it.
#[derive(Debug)]
pub struct Config {
    pub version: String,
    pub backup_path: String,
    pub games: Vec<Game>,
    pub settings: Settings,
    pub favorites: Vec<FavoriteTreeNode>,
    pub quick_action: QuickActionsSettings,
}

/// The upgraded form of one old game: names kept, every save unit's one
/// path and the optional game path mapped to the current device, all
/// path maps trivially key-unique.
pub open spec fn game_upgraded(r: crate::backup::Game, g: Game, device_id: Seq<char>) -> bool {
    &&& r.name@ == g.name@
    &&& r.save_paths@.len() == g.save_paths@.len()
    &&& forall|k: int|
        0 <= k < g.save_paths@.len() ==> {
            &&& (#[trigger] r.save_paths@[k]).unit_type == g.save_paths@[k].unit_type
            &&& r.save_paths@[k].delete_before_apply == g.save_paths@[k].delete_before_apply
            &&& r.save_paths@[k].paths@.len() == 1
            &&& crate::backup::unique_keys(r.save_paths@[k].paths@)
            &&& r.save_paths@[k].paths@[0].0@ == device_id
            &&& r.save_paths@[k].paths@[0].1@ == g.save_paths@[k].path@
        }
    &&& match g.game_path {
        Some(_) => r.game_paths@.len() == 1 && r.game_paths@[0].0@ == device_id
            && r.game_paths@[0].1@ == g.game_path.deep_view()->Some_0,
        None => r.game_paths@.len() == 0,
    }
    &&& crate::backup::unique_keys(r.game_paths@)
}

/// Upgrades one old game: every path becomes a mapping of the current
/// device to that path.
fn upgrade_game(g: &Game, device_id: &String) -> (r: crate::backup::Game)
    ensures
        game_upgraded(r, *g, device_id@),
{
    let mut save_paths: Vec<SaveUnit> = Vec::new();
    let mut k: usize = 0;
    while k < g.save_paths.len()
        invariant
            k <= g.save_paths@.len(),
            save_paths@.len() == k,
            forall|m: int|
                0 <= m < k ==> {
                    &&& (#[trigger] save_paths@[m]).unit_type == g.save_paths@[m].unit_type
                    &&& save_paths@[m].delete_before_apply
                        == g.save_paths@[m].delete_before_apply
                    &&& save_paths@[m].paths@.len() == 1
                    &&& save_paths@[m].paths@[0].0@ == device_id@
                    &&& save_paths@[m].paths@[0].1@ == g.save_paths@[m].path@
                },
        decreases g.save_paths@.len() - k,
    {
        let u = &g.save_paths[k];
        let mut paths: Vec<(String, String)> = Vec::new();
        paths.push((device_id.clone(), u.path.clone()));
        save_paths.push(
            SaveUnit {
                unit_type: u.unit_type,
                paths,
                delete_before_apply: u.delete_before_apply,
            },
        );
        k = k + 1;
    }
    let mut game_paths: Vec<(String, String)> = Vec::new();
    match &g.game_path {
        Some(p) => {
            game_paths.push((device_id.clone(), p.clone()));
        },
        None => {},
    }
    crate::backup::Game { name: g.name.clone(), save_paths, game_paths }
}

/// Upgrades an old configuration to the current layout: every game's
/// paths become mappings of the current device, which is registered as
/// the only known device; the version becomes this crate's.
pub fn upgrade_config(old: Config, device: &Device) -> (r: crate::config::Config)
    ensures
        r.version@ == "1.5.0"@,
        r.backup_path@ == old.backup_path@,
        r.games@.len() == old.games@.len(),
        forall|k: int|
            0 <= k < r.games@.len() ==> game_upgraded(
                #[trigger] r.games@[k],
                old.games@[k],
                device.id@,
            ),
        r.settings == old.settings,
        r.favorites == old.favorites,
        r.quick_action == old.quick_action,
        r.devices@.len() == 1,
        crate::backup::unique_keys_devices(r.devices@),
        r.devices@[0].0@ == device.id@,
        r.devices@[0].1.id@ == device.id@,
        r.devices@[0].1.name@ == device.name@,
{
    let mut games: Vec<crate::backup::Game> = Vec::new();
    let mut k: usize = 0;
    while k < old.games.len()
        invariant
            k <= old.games@.len(),
            games@.len() == k,
            forall|m: int|
                0 <= m < k ==> game_upgraded(#[trigger] games@[m], old.games@[m], device.id@),
        decreases old.games@.len() - k,
    {
        let g = upgrade_game(&old.games[k], &device.id);
        games.push(g);
        k = k + 1;
    }
    let mut devices: Vec<(String, Device)> = Vec::new();
    devices.push(
        (device.id.clone(), Device { id: device.id.clone(), name: device.name.clone() }),
    );
    crate::config::Config {
        version: String::from_str("1.5.0"),
        backup_path: old.backup_path,
        games,
        settings: old.settings,
        favorites: old.favorites,
        quick_action: old.quick_action,
        devices,
    }
}

} // verus!
