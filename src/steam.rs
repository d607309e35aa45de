//! Matching the supported games against the games that Steam has installed.
use vstd::prelude::*;
use crate::game_instance::{GameIdentifier, InstanceExecutable};

verus! {

#[derive(Debug, Clone)]
pub struct SupportedSteamGamePaths {
    pub mods_root: String,
    pub profiles_root: String,
    pub saves_root: String,
}

#[derive(Debug, Clone)]
pub struct SupportedSteamGame {
    pub app_id: u32,
    pub public_name: String,
    pub known_binaries: Vec<InstanceExecutable>,
    pub paths: SupportedSteamGamePaths,
    pub game_identifier: Option<GameIdentifier>,
}

#[derive(Debug, Clone)]
pub struct FoundSteamGame {
    pub absolute_path: String,
    pub steam_game: SupportedSteamGame,
}

/// The install folder recorded for `app_id` in the first matching entry of
/// `apps`; `None` when Steam knows the app but has no data for it, or does
/// not know it.
pub open spec fn app_folder(apps: Seq<(u32, Option<String>)>, app_id: u32) -> Option<Seq<char>>
    decreases apps.len(),
{
    if apps.len() == 0 {
        None
    } else if apps[0].0 == app_id {
        match apps[0].1 {
            Some(p) => Some(p@),
            None => None,
        }
    } else {
        app_folder(apps.drop_first(), app_id)
    }
}

/// Positions, among the first `n` supported games, of those that Steam has
/// installed, in order.
pub open spec fn installed_indices(supported: Seq<SupportedSteamGame>, apps: Seq<(u32, Option<String>)>, n: int) -> Seq<int>
    decreases n,
{
    if n <= 0 || n > supported.len() {
        Seq::empty()
    } else {
        let prev = installed_indices(supported, apps, n - 1);
        if app_folder(apps, supported[n - 1].app_id) is Some {
            prev.push(n - 1)
        } else {
            prev
        }
    }
}

/// `found` is the supported game at `i` with its install folder.
pub open spec fn found_as(found: FoundSteamGame, supported: Seq<SupportedSteamGame>, apps: Seq<(u32, Option<String>)>, i: int) -> bool {
    let g = supported[i];
    &&& 0 <= i < supported.len()
    &&& app_folder(apps, g.app_id) == Some(found.absolute_path@)
    &&& found.steam_game.app_id == g.app_id
    &&& found.steam_game.public_name == g.public_name
    &&& found.steam_game.known_binaries@ == g.known_binaries@
    &&& found.steam_game.paths == g.paths
    &&& found.steam_game.game_identifier == g.game_identifier
}

proof fn lemma_installed_indices(supported: Seq<SupportedSteamGame>, apps: Seq<(u32, Option<String>)>, n: int)
    requires
        0 <= n <= supported.len(),
    ensures
        forall|k: int| 0 <= k < installed_indices(supported, apps, n).len() ==> 0 <= #[trigger] installed_indices(supported, apps, n)[k] < n,
    decreases n,
{
    if n > 0 {
        lemma_installed_indices(supported, apps, n - 1);
        let prev = installed_indices(supported, apps, n - 1);
        let cur = installed_indices(supported, apps, n);
        assert forall|k: int| 0 <= k < cur.len() implies 0 <= #[trigger] cur[k] < n by {
            if k < prev.len() {
                assert(cur[k] == prev[k]);
            }
        }
    }
}

fn copy_opt_string(o: &Option<String>) -> (r: Option<String>)
    ensures
        r == *o,
{
    match o {
        Some(s) => Some(s.clone()),
        None => None,
    }
}

impl InstanceExecutable {
    /// A field-by-field copy.
    pub fn duplicate(&self) -> (r: Self)
        ensures
            r == *self,
    {
        InstanceExecutable {
            path: copy_opt_string(&self.path),
            command: copy_opt_string(&self.command),
            args: copy_opt_string(&self.args),
            icon: copy_opt_string(&self.icon),
            name: self.name.clone(),
            show_shortcut: self.show_shortcut,
            use_compability: self.use_compability,
            use_proton_tricks: self.use_proton_tricks,
        }
    }
}

impl SupportedSteamGame {
    /// A copy with the same fields and the same executables.
    pub fn duplicate(&self) -> (r: Self)
        ensures
            r.app_id == self.app_id,
            r.public_name == self.public_name,
            r.known_binaries@ == self.known_binaries@,
            r.paths == self.paths,
            r.game_identifier == self.game_identifier,
    {
        let mut binaries: Vec<InstanceExecutable> = Vec::new();
        let mut i: usize = 0;
        while i < self.known_binaries.len()
            invariant
                i <= self.known_binaries.len(),
                binaries@ == self.known_binaries@.subrange(0, i as int),
            decreases self.known_binaries.len() - i,
        {
            binaries.push(self.known_binaries[i].duplicate());
            i = i + 1;
            assert(binaries@ =~= self.known_binaries@.subrange(0, i as int));
        }
        assert(self.known_binaries@.subrange(0, i as int) =~= self.known_binaries@);
        SupportedSteamGame {
            app_id: self.app_id,
            public_name: self.public_name.clone(),
            known_binaries: binaries,
            paths: SupportedSteamGamePaths {
                mods_root: self.paths.mods_root.clone(),
                profiles_root: self.paths.profiles_root.clone(),
                saves_root: self.paths.saves_root.clone(),
            },
            game_identifier: self.game_identifier,
        }
    }
}

fn find_app(apps: &Vec<(u32, Option<String>)>, app_id: u32) -> (r: Option<String>)
    ensures
        crate::file_structure::opt_view(r) == app_folder(apps@, app_id),
{
    let mut i: usize = 0;
    assert(apps@.subrange(0, apps@.len() as int) =~= apps@);
    while i < apps.len()
        invariant
            i <= apps.len(),
            app_folder(apps@, app_id) == app_folder(apps@.subrange(i as int, apps@.len() as int), app_id),
        decreases apps.len() - i,
    {
        let ghost rest = apps@.subrange(i as int, apps@.len() as int);
        assert(rest.drop_first() =~= apps@.subrange(i + 1, apps@.len() as int));
        if apps[i].0 == app_id {
            return copy_opt_string(&apps[i].1);
        }
        i = i + 1;
    }
    None
}

/// The supported games that Steam has installed, given the installed apps as
/// app id and install folder (`None` where Steam has no data for the app), in
/// the order of `supported_games`.
pub fn scan_for_steam_games(supported_games: &Vec<SupportedSteamGame>, steam_apps: &Vec<(u32, Option<String>)>) -> (r: Vec<FoundSteamGame>)
    ensures
        r@.len() == installed_indices(supported_games@, steam_apps@, supported_games@.len() as int).len(),
        forall|k: int| 0 <= k < r@.len() ==> found_as(
            #[trigger] r@[k],
            supported_games@,
            steam_apps@,
            installed_indices(supported_games@, steam_apps@, supported_games@.len() as int)[k],
        ),
{
    let mut found: Vec<FoundSteamGame> = Vec::new();
    let mut i: usize = 0;
    while i < supported_games.len()
        invariant
            i <= supported_games.len(),
            found@.len() == installed_indices(supported_games@, steam_apps@, i as int).len(),
            forall|k: int| 0 <= k < found@.len() ==> found_as(
                #[trigger] found@[k],
                supported_games@,
                steam_apps@,
                installed_indices(supported_games@, steam_apps@, i as int)[k],
            ),
        decreases supported_games.len() - i,
    {
        proof {
            lemma_installed_indices(supported_games@, steam_apps@, i as int);
        }
        let game = &supported_games[i];
        match find_app(steam_apps, game.app_id) {
            Some(path) => {
                let copy = game.duplicate();
                found.push(FoundSteamGame { absolute_path: path, steam_game: copy });
            },
            None => {},
        }
        i = i + 1;
        proof {
            let idx = installed_indices(supported_games@, steam_apps@, i as int);
            assert forall|k: int| 0 <= k < found@.len() implies found_as(
                #[trigger] found@[k],
                supported_games@,
                steam_apps@,
                idx[k],
            ) by {
                if k < installed_indices(supported_games@, steam_apps@, i - 1).len() {
                    assert(idx[k] == installed_indices(supported_games@, steam_apps@, i - 1)[k]);
                }
            }
        }
    }
    found
}

} // verus!
