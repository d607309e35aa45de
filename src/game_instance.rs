//! A game instance: its configuration, its paths, and the ordered mod stack
//! with the reserved `base` entry first and `overwrite` entry last.
use vstd::prelude::*;
use crate::instance_mod::{is_anchor_name, InstanceMod, ModInfo};
use crate::text::{leading_slashes, push_path, push_path_str, replace_all, replace_text, trim_leading_slashes, trim_trailing_slashes, trimmed_len};
use crate::vfs_config::VFSConfig;

verus! {

pub fn default_true() -> (r: bool)
    ensures
        r,
{
    true
}

/// Games with specific support.
#[derive(Debug, Clone, Copy, PartialEq, Eq, Structural)]
pub enum GameIdentifier {
    Generic,
    Oblivion,
    Morrowind,
    Skyrim,
    SkyrimSE,
    Fallout3,
    FalloutNV,
    Fallout4,
}

impl GameIdentifier {
    pub fn default() -> (r: Self)
        ensures
            r == GameIdentifier::Generic,
    {
        GameIdentifier::Generic
    }
}

/// A program that can be started from an instance.
#[derive(Debug, Clone)]
pub struct InstanceExecutable {
    pub path: Option<String>,
    pub command: Option<String>,
    pub args: Option<String>,
    pub icon: Option<String>,
    pub name: String,
    pub show_shortcut: Option<bool>,
    pub use_compability: bool,
    pub use_proton_tricks: bool,
}

#[derive(Debug, Clone)]
pub struct CaseFoldingConfig {
    pub enabled: bool,
}

impl Default for CaseFoldingConfig {
    fn default() -> (r: Self)
        ensures
            r.enabled,
    {
        CaseFoldingConfig { enabled: true }
    }
}

#[derive(Debug, Clone)]
pub struct DownloadsConfig {
    pub concurrent_downloads: usize,
    pub threads_per_download: usize,
}

impl Default for DownloadsConfig {
    fn default() -> (r: Self)
        ensures
            r.concurrent_downloads == 2,
            r.threads_per_download == 4,
    {
        DownloadsConfig { concurrent_downloads: 2, threads_per_download: 4 }
    }
}

/// Folders that belong to the instance itself.
#[derive(Debug, Clone)]
pub struct GameInstanceInternalPaths {
    pub mods: String,
    pub downloads: String,
    pub settings: String,
    pub saves: String,
}

/// Folders of the game that receive mounts.
#[derive(Debug, Clone)]
pub struct GameInstanceDeploymentPaths {
    pub mods: String,
    pub settings: Option<String>,
    pub saves: Option<String>,
}

/// `root` is the instance folder, `game` the game folder; the other paths may
/// start with `$instance` or `$game`.
#[derive(Debug, Clone)]
pub struct GameInstancePaths {
    pub root: String,
    pub game: String,
    pub internal: GameInstanceInternalPaths,
    pub deployment: GameInstanceDeploymentPaths,
}

#[derive(Debug, Clone)]
pub struct GameInstanceConfig {
    pub name: String,
    pub steam_id: Option<String>,
    pub paths: GameInstancePaths,
    pub vfs_config: Option<VFSConfig>,
    pub executables: Vec<InstanceExecutable>,
    pub game_identifier: GameIdentifier,
    pub folding_config: CaseFoldingConfig,
    pub downloads_config: DownloadsConfig,
}

/// An instance with its mod stack and the name-to-position cache of that stack.
#[derive(Debug)]
pub struct GameInstance {
    pub config: GameInstanceConfig,
    pub mods: Vec<InstanceMod>,
    pub mods_indexes: Vec<(String, u32)>,
}

/// The length of the path variable `var` at the start of `path`, counted as
/// a whole component (followed by the end of the path or by `/`).
pub open spec fn starts_with_component(path: Seq<char>, var: Seq<char>) -> bool {
    path.len() >= var.len() && path.subrange(0, var.len() as int) == var && (path.len() == var.len()
        || path[var.len() as int] == '/')
}

/// `path` with a leading `var` component replaced by `base`.
pub open spec fn substitute_component(path: Seq<char>, var: Seq<char>, base: Seq<char>) -> Seq<char> {
    if starts_with_component(path, var) {
        push_path(base, trim_leading_slashes(path.subrange(var.len() as int, path.len() as int)))
    } else {
        path
    }
}

/// A path with its `$instance`, then its `$game`, prefix resolved.
pub open spec fn resolve_path(paths: GameInstancePaths, path: Seq<char>) -> Seq<char> {
    substitute_component(
        substitute_component(path, "$instance"@, paths.root@),
        "$game"@,
        paths.game@,
    )
}

/// A command line with every `$instance` and `$game` replaced by the folder
/// (without its final `/`).
pub open spec fn resolve_string(paths: GameInstancePaths, input: Seq<char>) -> Seq<char> {
    replace_all(
        replace_all(input, "$instance"@, trim_trailing_slashes(paths.root@)),
        "$game"@,
        trim_trailing_slashes(paths.game@),
    )
}

fn substitute(path: String, var: &str, base: &str) -> (r: String)
    ensures
        r@ == substitute_component(path@, var@, base@),
{
    let var_len = var.unicode_len();
    let path_len = path.unicode_len();
    if path_len < var_len {
        return path;
    }
    let head = String::from_str(path.as_str().substring_char(0, var_len));
    if head != String::from_str(var) {
        return path;
    }
    if path_len > var_len && path.as_str().get_char(var_len) != '/' {
        return path;
    }
    let rest = path.as_str().substring_char(var_len, path_len);
    let skip = leading_slashes(rest);
    let rest_len = rest.unicode_len();
    let tail = rest.substring_char(skip, rest_len);
    push_path_str(base, tail)
}

fn without_trailing_slashes(s: &str) -> (r: String)
    ensures
        r@ == trim_trailing_slashes(s@),
{
    let n = trimmed_len(s);
    String::from_str(s.substring_char(0, n))
}

impl GameInstance {
    pub fn instance_absolute_path(&self) -> (r: String)
        ensures
            r@ == self.config.paths.root@,
    {
        self.config.paths.root.clone()
    }

    /// Resolves a leading `$instance`, then a leading `$game`, component.
    pub fn parse_path_variables(&self, path: String) -> (r: String)
        ensures
            r@ == resolve_path(self.config.paths, path@),
    {
        let p = substitute(path, "$instance", self.config.paths.root.as_str());
        substitute(p, "$game", self.config.paths.game.as_str())
    }

    /// Replaces every `$instance`, then every `$game`, in a command line.
    pub fn parse_string_variables(&self, input: String) -> (r: String)
        ensures
            r@ == resolve_string(self.config.paths, input@),
    {
        let root = without_trailing_slashes(self.config.paths.root.as_str());
        let game = without_trailing_slashes(self.config.paths.game.as_str());
        proof {
            reveal_strlit("$instance");
            reveal_strlit("$game");
        }
        let once = replace_text(input.as_str(), "$instance", root.as_str());
        replace_text(once.as_str(), "$game", game.as_str())
    }

    pub fn get_mods_absolute_path(&self) -> (r: String)
        ensures
            r@ == resolve_path(self.config.paths, self.config.paths.internal.mods@),
    {
        self.parse_path_variables(self.config.paths.internal.mods.clone())
    }

    pub fn get_deployment_mods_absolute_path(&self) -> (r: String)
        ensures
            r@ == resolve_path(self.config.paths, self.config.paths.deployment.mods@),
    {
        self.parse_path_variables(self.config.paths.deployment.mods.clone())
    }

    pub fn get_downloads_absolute_path(&self) -> (r: String)
        ensures
            r@ == resolve_path(self.config.paths, self.config.paths.internal.downloads@),
    {
        self.parse_path_variables(self.config.paths.internal.downloads.clone())
    }

    pub fn get_game_absolute_path(&self) -> (r: String)
        ensures
            r@ == self.config.paths.game@,
    {
        self.config.paths.game.clone()
    }

    /// The folder of the `overwrite` entry, inside the mods folder.
    pub fn overwrite_relative_path(&self) -> (r: String)
        ensures
            r@ == push_path(resolve_path(self.config.paths, self.config.paths.internal.mods@), "overwrite"@),
    {
        let mods = self.get_mods_absolute_path();
        push_path_str(mods.as_str(), "overwrite")
    }
}

} // verus!
