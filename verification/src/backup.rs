//! Save units and game records: what one backup covers, and where.
//!
//! Path maps are association lists from device identifiers to paths; the
//! first entry for a key wins, mirroring map lookup.

use vstd::prelude::*;
use crate::strutil::chars_to_string;
use crate::strutil::to_chars;

verus! {

/// A save unit is a single file or a single folder.
#[derive(Debug, Clone, Copy, PartialEq, Eq, Structural)]
pub enum SaveUnitType {
    File,
    Folder,
}

/// One file or folder that should be backed up for a game, with one path
/// per known device.
#[derive(Debug, Clone)]
pub struct SaveUnit {
    pub unit_type: SaveUnitType,
    pub paths: Vec<(String, String)>,
    pub delete_before_apply: bool,
}

/// First value bound to `id` in an association list, if any.
pub open spec fn assoc_lookup(pairs: Seq<(String, String)>, id: Seq<char>) -> Option<Seq<char>>
    decreases pairs.len(),
{
    if pairs.len() == 0 {
        None
    } else if pairs[0].0@ == id {
        Some(pairs[0].1@)
    } else {
        assoc_lookup(pairs.drop_first(), id)
    }
}

/// No device identifier appears twice: the association list reads as a
/// map.
pub open spec fn unique_keys(pairs: Seq<(String, String)>) -> bool {
    forall|i: int, j: int| 0 <= i < j < pairs.len() ==> (#[trigger] pairs[i]).0@ != (
    #[trigger] pairs[j]).0@
}

/// No device identifier appears twice in a device registry.
pub open spec fn unique_keys_devices(pairs: Seq<(String, crate::config::Device)>) -> bool {
    forall|i: int, j: int| 0 <= i < j < pairs.len() ==> (#[trigger] pairs[i]).0@ != (
    #[trigger] pairs[j]).0@
}

impl SaveUnit {
    /// The path recorded for the given device, if any.
    pub fn get_path_for_device(&self, device_id: &String) -> (r: Option<&String>)
        ensures
            match r {
                Some(p) => assoc_lookup(self.paths@, device_id@) == Some(p@),
                None => assoc_lookup(self.paths@, device_id@) is None,
            },
    {
        let mut i: usize = 0;
        proof {
            assert(self.paths@.skip(0) =~= self.paths@);
        }
        while i < self.paths.len()
            invariant
                i <= self.paths@.len(),
                assoc_lookup(self.paths@, device_id@) == assoc_lookup(
                    self.paths@.skip(i as int),
                    device_id@,
                ),
            decreases self.paths@.len() - i,
        {
            proof {
                assert(self.paths@.skip(i as int)[0] == self.paths@[i as int]);
            }
            if self.paths[i].0.eq(device_id) {
                return Some(&self.paths[i].1);
            }
            proof {
                assert(self.paths@.skip(i as int).drop_first() =~= self.paths@.skip(i + 1));
            }
            i = i + 1;
        }
        None
    }
}

/// A game: its save units and, per device, where the game itself lives.
#[derive(Debug, Clone)]
pub struct Game {
    pub name: String,
    pub save_paths: Vec<SaveUnit>,
    pub game_paths: Vec<(String, String)>,
}

/// One snapshot of a game's save data: an archive on disk.
#[derive(Debug, Clone)]
pub struct Snapshot {
    pub date: String,
    pub describe: String,
    pub path: String,
    pub size: u64,
}

/// The list of snapshots kept for one game.
#[derive(Debug, Clone)]
pub struct GameSnapshots {
    pub name: String,
    pub backups: Vec<Snapshot>,
}

/// A character Windows refuses in file names.
pub open spec fn windows_invalid_char(c: char) -> bool {
    c == '<' || c == '>' || c == ':' || c == '"' || c == '/' || c == '\\' || c == '|' || c == '?'
        || c == '*'
}

/// Replaces a character Windows refuses with an underscore.
pub open spec fn sanitize_char(c: char) -> char {
    if windows_invalid_char(c) {
        '_'
    } else {
        c
    }
}

/// The sequence without trailing spaces and dots.
pub open spec fn strip_trailing_space_dot(s: Seq<char>) -> Seq<char>
    decreases s.len(),
{
    if s.len() > 0 && (s.last() == ' ' || s.last() == '.') {
        strip_trailing_space_dot(s.drop_last())
    } else {
        s
    }
}

/// A name made safe as a Windows path component: invalid characters become
/// underscores, trailing spaces and dots are stripped, and an empty result
/// falls back to a placeholder.
pub open spec fn sanitized_component(s: Seq<char>) -> Seq<char> {
    let t = strip_trailing_space_dot(s.map_values(|c: char| sanitize_char(c)));
    if t.len() == 0 {
        "Game"@
    } else {
        t
    }
}

/// Makes a name safe as a Windows path component.
pub fn sanitize_windows_path_component(name: &str) -> (r: String)
    ensures
        r@ == sanitized_component(name@),
{
    let chars = to_chars(name);
    let mut mapped: Vec<char> = Vec::new();
    let mut i: usize = 0;
    while i < chars.len()
        invariant
            i <= chars@.len(),
            mapped@ == chars@.take(i as int).map_values(|c: char| sanitize_char(c)),
        decreases chars@.len() - i,
    {
        let c = chars[i];
        if c == '<' || c == '>' || c == ':' || c == '"' || c == '/' || c == '\\' || c == '|' || c
            == '?' || c == '*' {
            mapped.push('_');
        } else {
            mapped.push(c);
        }
        i = i + 1;
        proof {
            assert(mapped@ =~= chars@.take(i as int).map_values(|c: char| sanitize_char(c)));
        }
    }
    proof {
        assert(chars@.take(chars@.len() as int) =~= chars@);
        assert(mapped@.take(mapped@.len() as int) =~= mapped@);
    }
    let mut end: usize = mapped.len();
    while end > 0 && (mapped[end - 1] == ' ' || mapped[end - 1] == '.')
        invariant
            end <= mapped@.len(),
            strip_trailing_space_dot(mapped@) == strip_trailing_space_dot(
                mapped@.take(end as int),
            ),
        decreases end,
    {
        proof {
            assert(mapped@.take(end as int).drop_last() =~= mapped@.take(end - 1));
        }
        end = end - 1;
    }
    proof {
        assert(mapped@.take(mapped@.len() as int) =~= mapped@);
        assert(strip_trailing_space_dot(mapped@.take(end as int)) == mapped@.take(end as int));
    }
    if end == 0 {
        let r = String::new();
        let out = r.concat("Game");
        return out;
    }
    let mut kept: Vec<char> = Vec::new();
    let mut j: usize = 0;
    while j < end
        invariant
            j <= end <= mapped@.len(),
            kept@ == mapped@.take(end as int).take(j as int),
        decreases end - j,
    {
        kept.push(mapped[j]);
        j = j + 1;
        proof {
            assert(kept@ =~= mapped@.take(end as int).take(j as int));
        }
    }
    proof {
        assert(mapped@.take(end as int).take(end as int) =~= mapped@.take(end as int));
    }
    chars_to_string(&kept)
}

/// The local backup directory of a game: the configured backup root joined
/// with the sanitized game name, with `/` as separator.
pub open spec fn backup_dir_of(backup_path: Seq<char>, name: Seq<char>) -> Seq<char> {
    backup_path + seq!['/'] + sanitized_component(name)
}

/// Joins the backup root of `config` with a game name made path-safe.
pub fn join_backup_dir(config: &crate::config::Config, name: &str) -> (r: String)
    ensures
        r@ == backup_dir_of(config.backup_path@, name@),
{
    let safe = sanitize_windows_path_component(name);
    let mut out: Vec<char> = to_chars(config.backup_path.as_str());
    out.push('/');
    let safe_chars = to_chars(safe.as_str());
    let mut i: usize = 0;
    while i < safe_chars.len()
        invariant
            i <= safe_chars@.len(),
            out@ == config.backup_path@ + seq!['/'] + safe_chars@.take(i as int),
        decreases safe_chars@.len() - i,
    {
        out.push(safe_chars[i]);
        i = i + 1;
        proof {
            assert(out@ =~= config.backup_path@ + seq!['/'] + safe_chars@.take(i as int));
        }
    }
    proof {
        assert(safe_chars@.take(safe_chars@.len() as int) =~= safe_chars@);
    }
    chars_to_string(&out)
}

} // verus!
