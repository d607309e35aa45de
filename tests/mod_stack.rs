use rusty_mod_manager::game_instance::{
    GameInstance, GameInstanceDeploymentPaths, GameInstanceInternalPaths, GameInstancePaths,
};
use rusty_mod_manager::instance_mod::ModInfo;
use rusty_mod_manager::mod_stack::ModStackError;

fn paths() -> GameInstancePaths {
    GameInstancePaths {
        root: String::from("/inst"),
        game: String::from("/games/skyrim"),
        internal: GameInstanceInternalPaths {
            mods: String::from("$instance/mods"),
            downloads: String::from("$instance/downloads"),
            settings: String::from("$instance/settings"),
            saves: String::from("$instance/saves"),
        },
        deployment: GameInstanceDeploymentPaths {
            mods: String::from("$game/Data"),
            settings: None,
            saves: None,
        },
    }
}

fn names(inst: &GameInstance) -> Vec<String> {
    inst.mods.iter().map(|m| m.name.clone()).collect()
}

fn stack(mods: &[&str]) -> GameInstance {
    let mut inst = GameInstance::new(String::from("Skyrim"), paths());
    for m in mods {
        inst.create_empty_mod(m.to_string(), Some(String::from("1.0"))).unwrap();
    }
    inst
}

fn check_anchors_and_cache(inst: &GameInstance) {
    let n = inst.mods.len();
    assert!(n >= 2);
    assert_eq!(inst.mods[0].name, "base");
    assert_eq!(inst.mods[n - 1].name, "overwrite");
    assert_eq!(inst.mods_indexes.len(), n);
    for (i, (name, idx)) in inst.mods_indexes.iter().enumerate() {
        assert_eq!(*name, inst.mods[i].name);
        assert_eq!(*idx as usize, i);
    }
}

#[test]
fn new_instance_holds_only_the_anchors() {
    let inst = GameInstance::new(String::from("Skyrim"), paths());
    assert_eq!(names(&inst), vec!["base", "overwrite"]);
    assert_eq!(inst.mods[0].absolute_path, "/games/skyrim/Data");
    assert_eq!(inst.mods[1].absolute_path, "/inst/mods/overwrite");
    check_anchors_and_cache(&inst);
}

#[test]
fn anchors_hold_through_insert_move_delete() {
    let mut inst = stack(&["a", "b", "c"]);
    check_anchors_and_cache(&inst);
    inst.move_mod_by_index(0, 3);
    check_anchors_and_cache(&inst);
    inst.move_mod_by_index(4, 1);
    check_anchors_and_cache(&inst);
    inst.move_mod_by_index(2, 7);
    check_anchors_and_cache(&inst);
    inst.move_mods_by_indexes(vec![0, 1, 4], 0);
    check_anchors_and_cache(&inst);
    inst.delete_mod(String::from("b")).unwrap();
    check_anchors_and_cache(&inst);
    inst.move_mod_by_name(String::from("overwrite"), 1).unwrap();
    check_anchors_and_cache(&inst);
    assert_eq!(inst.mods.len(), 4);
}

#[test]
fn move_to_first_position_lands_after_base() {
    let mut inst = stack(&["a", "b", "c"]);
    inst.move_mod_by_index(3, 0);
    assert_eq!(names(&inst), vec!["base", "c", "a", "b", "overwrite"]);
}

#[test]
fn move_to_last_position_lands_before_overwrite() {
    let mut inst = stack(&["a", "b", "c"]);
    inst.move_mod_by_index(1, 4);
    assert_eq!(names(&inst), vec!["base", "b", "c", "a", "overwrite"]);
}

#[test]
fn move_index_two_to_zero_clamps_to_one() {
    let mut inst = stack(&["a", "b"]);
    assert_eq!(inst.mods.len(), 4);
    inst.move_mod_by_index(2, 0);
    assert_eq!(names(&inst), vec!["base", "b", "a", "overwrite"]);
    let mut same = stack(&["a", "b"]);
    same.move_mod_by_index(2, 1);
    assert_eq!(names(&inst), names(&same));
}

#[test]
fn move_to_same_index_is_noop() {
    let mut inst = stack(&["a", "b"]);
    inst.move_mod_by_index(2, 2);
    assert_eq!(names(&inst), vec!["base", "a", "b", "overwrite"]);
}

#[test]
fn batch_move_keeps_relative_order() {
    let mut inst = stack(&["a", "b", "c", "d"]);
    let positions = inst.move_mods_by_indexes(vec![4, 2], 1);
    assert_eq!(names(&inst), vec!["base", "b", "d", "a", "c", "overwrite"]);
    assert_eq!(positions, vec![1, 2]);
}

#[test]
fn batch_move_ignores_last_index() {
    let mut with_last = stack(&["a", "b", "c"]);
    let mut without_last = stack(&["a", "b", "c"]);
    let p1 = with_last.move_mods_by_indexes(vec![1, 4, 3], 4);
    let p2 = without_last.move_mods_by_indexes(vec![1, 3], 4);
    assert_eq!(names(&with_last), names(&without_last));
    assert_eq!(p1, p2);
    assert_eq!(names(&with_last), vec!["base", "b", "a", "c", "overwrite"]);
    assert_eq!(p1, vec![2, 3]);
}

#[test]
fn insert_refuses_duplicate_name() {
    let mut inst = stack(&["a"]);
    let r = inst.create_empty_mod(String::from("a"), None);
    assert!(matches!(r, Err(ModStackError::DuplicateName(_))));
    let r = inst.create_empty_mod(String::from("base"), None);
    assert!(matches!(r, Err(ModStackError::DuplicateName(_))));
    assert_eq!(names(&inst), vec!["base", "a", "overwrite"]);
}

#[test]
fn inserted_mod_goes_before_overwrite() {
    let mut inst = stack(&["a"]);
    let pos = inst.create_empty_mod(String::from("z"), None).unwrap();
    assert_eq!(pos, 2);
    assert_eq!(names(&inst), vec!["base", "a", "z", "overwrite"]);
    assert_eq!(inst.mods[2].absolute_path, "/inst/mods/z");
}

#[test]
fn delete_refuses_anchors_and_unknown_names() {
    let mut inst = stack(&["a"]);
    assert!(matches!(inst.delete_mod(String::from("base")), Err(ModStackError::ReservedEntry(_))));
    assert!(matches!(inst.delete_mod(String::from("overwrite")), Err(ModStackError::ReservedEntry(_))));
    assert!(matches!(inst.delete_mod(String::from("nope")), Err(ModStackError::ModNotFound(_))));
    inst.delete_mod(String::from("a")).unwrap();
    assert_eq!(names(&inst), vec!["base", "overwrite"]);
}

#[test]
fn move_by_name_uses_the_cache() {
    let mut inst = stack(&["a", "b", "c"]);
    inst.move_mod_by_name(String::from("c"), 1).unwrap();
    assert_eq!(names(&inst), vec!["base", "c", "a", "b", "overwrite"]);
    assert!(matches!(
        inst.move_mod_by_name(String::from("zz"), 1),
        Err(ModStackError::ModNotFound(_))
    ));
}

#[test]
fn versions_are_added_selected_and_deleted() {
    let mut inst = stack(&["a"]);
    let pos = inst.create_mod_version(String::from("a"), String::from("2.0"), ModInfo::default()).unwrap();
    assert_eq!(pos, 1);
    assert_eq!(inst.mods[1].versions, vec!["1.0", "2.0"]);
    assert_eq!(inst.mods[1].selected_version_identifier, "2.0");
    assert!(matches!(
        inst.create_mod_version(String::from("a"), String::from("2.0"), ModInfo::default()),
        Err(ModStackError::VersionError(_))
    ));
    assert!(matches!(
        inst.create_mod_version(String::new(), String::from("1"), ModInfo::default()),
        Err(ModStackError::EmptyName)
    ));
    inst.set_mod_active_version(String::from("a"), String::from("1.0")).unwrap();
    assert_eq!(inst.mods[1].selected_version_identifier, "1.0");
    assert!(inst.set_mod_active_version(String::from("a"), String::from("9")).is_err());
    let folder = inst.delete_mod_version(String::from("a"), Some(String::from("2.0"))).unwrap();
    assert_eq!(folder, "/inst/mods/a/versions/2.0");
    assert_eq!(inst.mods[1].versions, vec!["1.0"]);
    let whole = inst.delete_mod_version(String::from("a"), None).unwrap();
    assert_eq!(whole, "/inst/mods/a");
}

#[test]
fn create_mod_version_creates_missing_mod() {
    let mut inst = stack(&[]);
    let pos = inst.create_mod_version(String::from("new"), String::from("0.1"), ModInfo::default()).unwrap();
    assert_eq!(pos, 1);
    assert_eq!(names(&inst), vec!["base", "new", "overwrite"]);
    assert_eq!(inst.mods[1].versions, vec!["0.1"]);
}

#[test]
fn enabled_mods_and_lookup() {
    let mut inst = stack(&["a", "b"]);
    inst.set_mod_enabled(String::from("a"), false).unwrap();
    assert_eq!(inst.get_enabled_mods(), vec![0, 2, 3]);
    assert_eq!(inst.get_mod_by_name(String::from("b")), Some(2));
    assert_eq!(inst.get_mod_by_name(String::from("x")), None);
    assert!(inst.set_mod_enabled(String::from("x"), true).is_err());
}

#[test]
fn open_mod_folder_points_at_game_for_base() {
    let inst = stack(&["a"]);
    assert_eq!(inst.open_mod_folder(String::from("base")), "/games/skyrim");
    assert_eq!(inst.open_mod_folder(String::from("a")), "/inst/mods/a");
}

#[test]
fn loaded_mods_follow_the_recorded_order() {
    let mut inst = stack(&["a", "b", "c"]);
    inst.move_mod_by_index(3, 1);
    assert_eq!(names(&inst), vec!["base", "c", "a", "b", "overwrite"]);
    let loaded: Vec<_> = ["a", "b", "x", "c", "base", "a"]
        .iter()
        .map(|n| {
            rusty_mod_manager::instance_mod::InstanceMod::new(
                String::from("/inst/mods"),
                n.to_string(),
                None,
                ModInfo::default(),
            )
        })
        .collect();
    let rejected = inst.load_mods(loaded);
    assert_eq!(rejected, vec![String::from("base"), String::from("a")]);
    assert_eq!(names(&inst), vec!["base", "c", "a", "b", "x", "overwrite"]);
    assert_eq!(inst.mods[0].absolute_path, "/games/skyrim/Data");
    assert_eq!(inst.mods[5].absolute_path, "/inst/mods/overwrite");
    check_anchors_and_cache(&inst);
}

#[test]
fn batch_move_returns_final_positions() {
    let mut inst = stack(&["a"]);
    let positions = inst.move_mods_by_indexes(vec![1], 0);
    assert_eq!(names(&inst), vec!["base", "a", "overwrite"]);
    assert_eq!(positions, vec![1]);
    for (k, name) in ["a"].iter().enumerate() {
        assert_eq!(inst.mods[positions[k] as usize].name, *name);
    }
}

#[test]
fn move_past_end_onto_itself_is_noop() {
    let mut inst = stack(&["a"]);
    inst.move_mod_by_index(9, 9);
    assert_eq!(names(&inst), vec!["base", "a", "overwrite"]);
}
