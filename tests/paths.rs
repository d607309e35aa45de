use rusty_mod_manager::game_instance::{
    default_true, GameIdentifier, GameInstance, GameInstanceDeploymentPaths, GameInstanceInternalPaths,
    GameInstancePaths, InstanceExecutable,
};
use rusty_mod_manager::instance_mod::{check_folder_deletion, InstanceMod, ModInfo};
use rusty_mod_manager::steam::{scan_for_steam_games, SupportedSteamGame, SupportedSteamGamePaths};
use rusty_mod_manager::text::{join_paths, list_files_recursively_relative_flattened};
use rusty_mod_manager::vfs_config::{VFSConfig, VFSImplementation};

fn instance() -> GameInstance {
    GameInstance::new(
        String::from("Skyrim"),
        GameInstancePaths {
            root: String::from("/inst/"),
            game: String::from("/games/skyrim"),
            internal: GameInstanceInternalPaths {
                mods: String::from("$instance/mods"),
                downloads: String::from("/elsewhere/dl"),
                settings: String::from("$instance/settings"),
                saves: String::from("$instance/saves"),
            },
            deployment: GameInstanceDeploymentPaths { mods: String::from("$game"), settings: None, saves: None },
        },
    )
}

#[test]
fn path_variables_are_resolved_as_leading_components() {
    let inst = instance();
    assert_eq!(inst.parse_path_variables(String::from("$instance/mods")), "/inst/mods");
    assert_eq!(inst.parse_path_variables(String::from("$game/Data")), "/games/skyrim/Data");
    assert_eq!(inst.parse_path_variables(String::from("$instancex/mods")), "$instancex/mods");
    assert_eq!(inst.parse_path_variables(String::from("/abs/$game")), "/abs/$game");
    assert_eq!(inst.get_downloads_absolute_path(), "/elsewhere/dl");
    assert_eq!(inst.get_deployment_mods_absolute_path(), "/games/skyrim/");
    assert_eq!(inst.get_game_absolute_path(), "/games/skyrim");
    assert_eq!(inst.instance_absolute_path(), "/inst/");
    assert_eq!(inst.overwrite_relative_path(), "/inst/mods/overwrite");
}

#[test]
fn string_variables_are_replaced_everywhere() {
    let inst = instance();
    assert_eq!(
        inst.parse_string_variables(String::from("$game/run.sh --data $instance/x $game")),
        "/games/skyrim/run.sh --data /inst/x /games/skyrim"
    );
}

#[test]
fn join_paths_treats_second_as_relative() {
    assert_eq!(join_paths(String::from("/a/b"), String::from("/c/d")), "/a/b/c/d");
    assert_eq!(join_paths(String::from("/a/b/"), String::from("c")), "/a/b/c");
    assert_eq!(join_paths(String::new(), String::from("c")), "c");
}

#[test]
fn listed_files_become_relative() {
    let files = vec![String::from("/root/x/a.txt"), String::from("/root/x/sub/b.txt")];
    assert_eq!(
        list_files_recursively_relative_flattened(files, "/root/x"),
        vec![String::from("/a.txt"), String::from("/sub/b.txt")]
    );
}

#[test]
fn instance_mod_versions() {
    let mut m = InstanceMod::new(String::from("/inst/mods"), String::from("Armor"), None, ModInfo::default());
    assert_eq!(m.absolute_path, "/inst/mods/Armor");
    assert_eq!(m.selected_version_identifier, "invalid");
    assert!(m.enabled);
    assert_eq!(m.get_versions_path(), "/inst/mods/Armor/versions");
    assert!(m.add_version(String::from("1")).is_ok());
    assert!(m.add_version(String::from("1")).is_err());
    assert!(m.has_version(String::from("1")));
    assert!(!m.has_version(String::from("2")));
    assert_eq!(m.get_selected_version_absolute_path(), "/inst/mods/Armor/versions/1");
    assert!(m.set_active_version(String::from("2")).is_err());
    m.set_enabled(false);
    assert!(!m.enabled);
    assert!(m.delete_version(String::from("2")).is_err());
    assert_eq!(m.delete_version(String::from("1")).unwrap(), "/inst/mods/Armor/versions/1");
    assert!(m.versions.is_empty());
    let with = InstanceMod::new(String::from("/inst/mods"), String::from("W"), Some(String::from("3")), ModInfo::default());
    assert_eq!(with.versions, vec![String::from("3")]);
    assert_eq!(with.selected_version_identifier, "3");
}

#[test]
fn anchors_use_their_own_folder_for_every_version() {
    let base = InstanceMod::new(String::from("/games"), String::from("base"), None, ModInfo::default());
    assert_eq!(base.get_version_absolute_path(String::from("9")), "/games/base");
}

#[test]
fn folder_deletion_checks() {
    assert!(check_folder_deletion("/inst/mods/a", "/inst/mods").is_ok());
    assert!(check_folder_deletion("/inst/mods/a", "/inst/mods/").is_ok());
    assert!(check_folder_deletion("/inst/modsx/a", "/inst/mods").is_err());
    assert!(check_folder_deletion("/home/a", "/home").is_err());
    assert!(check_folder_deletion("/x", "/").is_err());
    let m = InstanceMod::new(String::from("/inst/mods"), String::from("A"), None, ModInfo::default());
    assert_eq!(m.delete_mod(String::from("/inst/mods")).unwrap(), "/inst/mods/A");
    assert!(m.delete_mod(String::from("/other")).is_err());
}

#[test]
fn defaults() {
    assert!(default_true());
    assert_eq!(GameIdentifier::default(), GameIdentifier::Generic);
    let c = VFSConfig::new();
    assert_eq!(c.implementation, VFSImplementation::UnionFSFuse);
    assert!(c.command.is_none());
}

fn supported(app_id: u32, name: &str) -> SupportedSteamGame {
    SupportedSteamGame {
        app_id,
        public_name: String::from(name),
        known_binaries: vec![InstanceExecutable {
            path: Some(String::from("game.exe")),
            command: None,
            args: None,
            icon: None,
            name: String::from("Game"),
            show_shortcut: None,
            use_compability: true,
            use_proton_tricks: true,
        }],
        paths: SupportedSteamGamePaths {
            mods_root: String::from("Data"),
            profiles_root: String::from("p"),
            saves_root: String::from("s"),
        },
        game_identifier: Some(GameIdentifier::Skyrim),
    }
}

#[test]
fn steam_scan_keeps_installed_supported_games() {
    let games = vec![supported(1, "One"), supported(2, "Two"), supported(3, "Three")];
    let apps = vec![(3, Some(String::from("/steam/three"))), (2, None), (1, Some(String::from("/steam/one")))];
    let found = scan_for_steam_games(&games, &apps);
    assert_eq!(found.len(), 2);
    assert_eq!(found[0].absolute_path, "/steam/one");
    assert_eq!(found[0].steam_game.public_name, "One");
    assert_eq!(found[1].absolute_path, "/steam/three");
    assert_eq!(found[1].steam_game.known_binaries.len(), 1);
}

#[test]
fn listed_files_stay_with_empty_root() {
    let files = vec![String::from("/root/x/a.txt")];
    assert_eq!(list_files_recursively_relative_flattened(files.clone(), ""), files);
}
