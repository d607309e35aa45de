use rusty_mod_manager::engines::{BaseVFS, UnionFS, UnionFSFuse};
use rusty_mod_manager::game_instance::{
    GameInstance, GameInstanceDeploymentPaths, GameInstanceInternalPaths, GameInstancePaths,
};
use rusty_mod_manager::mount_machine::{accept_version, MountAction, MountEvent, MountMachine, MountPhase};
use rusty_mod_manager::mount_plan::MountOrchestrator;
use rusty_mod_manager::vfs::{build_layers, MountState, VFSMountConfig, VFSMountPaths, VfsError};
use rusty_mod_manager::vfs_config::VFSConfig;

fn config(target: &str, overlay: bool, command: Option<&str>) -> VFSMountConfig {
    VFSMountConfig {
        mount_name: String::from("Skyrimmods"),
        command: command.map(String::from),
        paths: VFSMountPaths {
            target: String::from(target),
            sources: vec![String::from("/m/A"), String::from("/m/B"), String::from("/m/C")],
            overwrite: String::from("/m/overwrite"),
            workdir: String::from("/inst/.vfs_workdir/mods"),
        },
        should_overlay_target: overlay,
    }
}

fn output(ran: bool, stdout: &str, stderr: &str) -> MountEvent {
    MountEvent::CommandOutput { ran, stdout: String::from(stdout), stderr: String::from(stderr) }
}

fn ok() -> MountEvent {
    MountEvent::StepDone(Ok(()))
}

fn inspected(temp_exists: bool, temp_empty: Result<bool, String>, flags: Vec<bool>) -> MountEvent {
    MountEvent::PathsInspected { temp_exists, temp_empty, sources_exist: flags }
}

fn strings(v: &[&str]) -> Vec<String> {
    v.iter().map(|s| s.to_string()).collect()
}

fn to_inspection(m: &mut MountMachine, cfg: &VFSMountConfig) -> MountAction {
    let a = m.step(cfg, MountEvent::Begin);
    assert!(matches!(&a, MountAction::RunVersion { command } if command == "unionfs"));
    let a = m.step(cfg, output(true, "unionfs-fuse version: 3.3\n", ""));
    assert!(matches!(&a, MountAction::RunVersion { command } if command == "unionfs"));
    m.step(cfg, output(true, "unionfs-fuse version: 3.3\n", ""))
}

const LAYERS: &str = "dirs=/m/overwrite=RW:/m/C=RO:/m/B=RO:/m/A=RO:/games/.rmm-temp-Data=RO";

#[test]
fn dirty_temp_folder_skips_swap() {
    let cfg = config("/games/Data", true, None);
    let mut m = UnionFSFuse { config: cfg.clone() }.mount();
    let a = to_inspection(&mut m, &cfg);
    match &a {
        MountAction::InspectPaths { temp, sources } => {
            assert_eq!(temp.as_deref(), Some("/games/.rmm-temp-Data"));
            assert_eq!(*sources, cfg.paths.sources);
        }
        other => panic!("unexpected {:?}", other),
    }
    let a = m.step(&cfg, inspected(true, Ok(false), vec![true, true, true]));
    match a {
        MountAction::RunMount { command, args } => {
            assert_eq!(command, "unionfs");
            assert_eq!(
                args,
                strings(&["-o", "cow", "-o", "max_files=327680", "-o", "hide_meta_files", "-o", LAYERS, "/games/Data"])
            );
        }
        other => panic!("unexpected {:?}", other),
    }
    let a = m.step(&cfg, output(true, "", ""));
    match a {
        MountAction::Mounted(st) => {
            assert!(st.mounted);
            assert_eq!(st.target, "/games/Data");
            assert_eq!(st.mount_name, "Skyrimmods");
            assert_eq!(st.temp_original.as_deref(), Some("/games/.rmm-temp-Data"));
        }
        other => panic!("unexpected {:?}", other),
    }
    assert_eq!(m.phase, MountPhase::Finished);
}

#[test]
fn clean_mount_swaps_target_first() {
    let cfg = config("/games/Data", true, None);
    let mut m = UnionFSFuse { config: cfg.clone() }.mount();
    to_inspection(&mut m, &cfg);
    let a = m.step(&cfg, inspected(false, Ok(true), vec![true, true, true]));
    assert!(matches!(&a, MountAction::MoveFolder { from, to } if from == "/games/Data" && to == "/games/.rmm-temp-Data"));
    assert!(matches!(m.step(&cfg, ok()), MountAction::Settle { millis: 300 }));
    assert!(matches!(&m.step(&cfg, ok()), MountAction::CreateFolder { path } if path == "/games/Data"));
    assert!(matches!(m.step(&cfg, ok()), MountAction::Settle { millis: 300 }));
    let a = m.step(&cfg, ok());
    assert!(matches!(&a, MountAction::RunMount { args, .. } if args[7] == LAYERS));
    assert!(matches!(m.step(&cfg, output(true, "", "")), MountAction::Mounted(_)));
}

#[test]
fn layers_list_sources_highest_priority_first() {
    let lower = strings(&["/m/C", "/m/B", "/m/A", "/orig"]);
    assert_eq!(build_layers("/ow", &lower), "/ow=RW:/m/C=RO:/m/B=RO:/m/A=RO:/orig=RO");
    assert_eq!(build_layers("/ow", &Vec::new()), "/ow=RW");
}

#[test]
fn missing_sources_are_left_out() {
    let cfg = config("/games/Data", false, Some("unionfs-fuse"));
    let mut m = UnionFSFuse { config: cfg.clone() }.mount();
    let a = m.step(&cfg, MountEvent::Begin);
    assert!(matches!(&a, MountAction::RunVersion { command } if command == "unionfs-fuse"));
    assert!(matches!(m.step(&cfg, output(true, "unionfs-fuse version: 2.1", "")), MountAction::InspectPaths { .. }));
    let a = m.step(&cfg, inspected(false, Ok(true), vec![true, false, true]));
    match a {
        MountAction::RunMount { command, args } => {
            assert_eq!(command, "unionfs-fuse");
            assert_eq!(args[7], "dirs=/m/overwrite=RW:/m/C=RO:/m/A=RO");
        }
        other => panic!("unexpected {:?}", other),
    }
}

#[test]
fn second_probe_is_used_when_first_fails() {
    let cfg = config("/games/Data", true, None);
    let mut m = UnionFSFuse { config: cfg.clone() }.mount();
    m.step(&cfg, MountEvent::Begin);
    let a = m.step(&cfg, output(false, "", ""));
    assert!(matches!(&a, MountAction::RunVersion { command } if command == "unionfs-fuse"));
    let a = m.step(&cfg, output(true, "unionfs-fuse version: 3.3", ""));
    assert!(matches!(&a, MountAction::RunVersion { command } if command == "unionfs-fuse"));
}

#[test]
fn no_engine_found() {
    let cfg = config("/games/Data", true, None);
    let mut m = UnionFSFuse { config: cfg.clone() }.mount();
    m.step(&cfg, MountEvent::Begin);
    m.step(&cfg, output(true, "", "not found"));
    let a = m.step(&cfg, output(false, "", ""));
    assert!(matches!(a, MountAction::Failed(VfsError::EngineNotFound(_))));
}

#[test]
fn unparseable_version_is_refused() {
    let cfg = config("/games/Data", true, Some("unionfs"));
    let mut m = UnionFSFuse { config: cfg.clone() }.mount();
    m.step(&cfg, MountEvent::Begin);
    let a = m.step(&cfg, output(true, "some other tool 1.0", ""));
    assert!(matches!(a, MountAction::Failed(VfsError::EngineVersionUnparseable(_))));
}

#[test]
fn version_run_with_error_output_is_engine_not_found() {
    let cfg = config("/games/Data", true, Some("unionfs"));
    let mut m = UnionFSFuse { config: cfg.clone() }.mount();
    m.step(&cfg, MountEvent::Begin);
    let a = m.step(&cfg, output(true, "unionfs-fuse version: 3.3", "warning"));
    assert!(matches!(a, MountAction::Failed(VfsError::EngineNotFound(_))));
}

#[test]
fn mount_error_stream_means_failure() {
    let cfg = config("/games/Data", true, None);
    let mut m = UnionFSFuse { config: cfg.clone() }.mount();
    to_inspection(&mut m, &cfg);
    m.step(&cfg, inspected(true, Ok(false), vec![true, true, true]));
    let a = m.step(&cfg, output(true, "", "fuse: device busy"));
    assert!(matches!(&a, MountAction::Failed(VfsError::MountFailed(msg)) if msg == "fuse: device busy"));
}

#[test]
fn unreadable_temp_folder_is_filesystem_error() {
    let cfg = config("/games/Data", true, None);
    let mut m = UnionFSFuse { config: cfg.clone() }.mount();
    to_inspection(&mut m, &cfg);
    let a = m.step(&cfg, inspected(true, Err(String::from("denied")), vec![]));
    assert!(matches!(&a, MountAction::Failed(VfsError::FilesystemError { path, .. }) if path == "/games/.rmm-temp-Data"));
}

#[test]
fn failed_swap_is_filesystem_error() {
    let cfg = config("/games/Data", true, None);
    let mut m = UnionFSFuse { config: cfg.clone() }.mount();
    to_inspection(&mut m, &cfg);
    m.step(&cfg, inspected(false, Ok(true), vec![]));
    let a = m.step(&cfg, MountEvent::StepDone(Err(String::from("busy"))));
    assert!(matches!(&a, MountAction::Failed(VfsError::FilesystemError { path, .. }) if path == "/games/Data"));
}

#[test]
fn target_without_name_is_configuration_error() {
    let cfg = config("/", true, None);
    let mut m = UnionFSFuse { config: cfg.clone() }.mount();
    let a = to_inspection(&mut m, &cfg);
    assert!(matches!(a, MountAction::Failed(VfsError::ConfigurationError(_))));
}

#[test]
fn unexpected_event_is_configuration_error() {
    let cfg = config("/games/Data", true, None);
    let mut m = UnionFSFuse { config: cfg.clone() }.mount();
    m.step(&cfg, MountEvent::Begin);
    let a = m.step(&cfg, ok());
    assert!(matches!(a, MountAction::Failed(VfsError::ConfigurationError(_))));
    assert!(matches!(m.step(&cfg, ok()), MountAction::Failed(VfsError::ConfigurationError(_))));
}

fn unmount_overlaid(cfg: &VFSMountConfig) -> MountAction {
    let mut m = UnionFSFuse { config: cfg.clone() }.unmount();
    let a = m.step(cfg, MountEvent::Begin);
    assert!(matches!(&a, MountAction::RunUnmount { target } if target == "/games/Data"));
    let a = m.step(cfg, MountEvent::UnmountOutput { ran: true, success: true, stderr: String::new() });
    assert!(matches!(a, MountAction::Settle { millis: 100 }));
    let a = m.step(cfg, ok());
    assert!(matches!(&a, MountAction::RemoveEmptyFolder { path } if path == "/games/Data"));
    let a = m.step(cfg, ok());
    assert!(matches!(&a, MountAction::MoveFolder { from, to } if from == "/games/.rmm-temp-Data" && to == "/games/Data"));
    m.step(cfg, ok())
}

#[test]
fn unmount_twice_succeeds_both_times() {
    let cfg = config("/games/Data", true, None);
    assert!(matches!(unmount_overlaid(&cfg), MountAction::Unmounted));
    let mut again = UnionFSFuse { config: cfg.clone() }.unmount();
    again.step(&cfg, MountEvent::Begin);
    let a = again.step(
        &cfg,
        MountEvent::UnmountOutput { ran: true, success: false, stderr: String::from("umount: /games/Data: not mounted.") },
    );
    assert!(matches!(a, MountAction::Unmounted));
}

#[test]
fn unmount_errors() {
    let cfg = config("/games/Data", true, None);
    let mut m = UnionFSFuse { config: cfg.clone() }.unmount();
    m.step(&cfg, MountEvent::Begin);
    let a = m.step(&cfg, MountEvent::UnmountOutput { ran: true, success: false, stderr: String::from("target is busy") });
    assert!(matches!(a, MountAction::Failed(VfsError::UnmountFailed(_))));
    let mut m = UnionFSFuse { config: cfg.clone() }.unmount();
    m.step(&cfg, MountEvent::Begin);
    m.step(&cfg, MountEvent::UnmountOutput { ran: true, success: true, stderr: String::new() });
    m.step(&cfg, ok());
    let a = m.step(&cfg, MountEvent::StepDone(Err(String::from("not empty"))));
    assert!(matches!(a, MountAction::Failed(VfsError::RestoreFailed(_))));
}

#[test]
fn older_engine_layers_highest_priority_first() {
    let cfg = config("/games/Data", false, None);
    let mut m = UnionFS { config: cfg.clone() }.mount();
    let a = m.step(&cfg, MountEvent::Begin);
    assert!(matches!(&a, MountAction::LocateCommand { command } if command == "unionfs"));
    let a = m.step(&cfg, output(true, "/usr/bin/unionfs\n", ""));
    assert!(matches!(&a, MountAction::InspectPaths { temp: None, .. }));
    let a = m.step(&cfg, inspected(false, Ok(true), vec![true, false, true]));
    match a {
        MountAction::RunMount { args, .. } => {
            assert_eq!(args[3], "max_files=32768");
            assert_eq!(args[7], "dirs=/m/overwrite=RW:/m/C=RO:/m/A=RO:/games/Data=RO");
        }
        other => panic!("unexpected {:?}", other),
    }
    let empty = config("/games/Data", false, Some(""));
    let mut m = UnionFS { config: empty.clone() }.mount();
    assert!(matches!(m.step(&empty, MountEvent::Begin), MountAction::Failed(VfsError::ConfigurationError(_))));
}

#[test]
fn temp_mount_folder_sits_beside_target() {
    let fuse = |t: &str| UnionFSFuse { config: config(t, true, None) }.get_temp_mount_folder();
    assert_eq!(fuse("/games/Data").as_deref(), Some("/games/.rmm-temp-Data"));
    assert_eq!(fuse("/games/Data/").as_deref(), Some("/games/.rmm-temp-Data"));
    assert_eq!(fuse("Data").as_deref(), Some(".rmm-temp-Data"));
    assert_eq!(fuse("/Data").as_deref(), Some("/.rmm-temp-Data"));
    assert_eq!(fuse("/"), None);
    assert_eq!(fuse("/games/.."), None);
}

fn instance_paths(saves: Option<&str>, settings: Option<&str>) -> GameInstancePaths {
    GameInstancePaths {
        root: String::from("/inst"),
        game: String::from("/games/skyrim"),
        internal: GameInstanceInternalPaths {
            mods: String::from("$instance/mods"),
            downloads: String::from("$instance/downloads"),
            settings: String::from("$instance/settings"),
            saves: String::from("$instance/saves"),
        },
        deployment: GameInstanceDeploymentPaths {
            mods: String::from("$game/Data"),
            settings: settings.map(String::from),
            saves: saves.map(String::from),
        },
    }
}

#[test]
fn mount_spec_takes_enabled_mods_with_versions_only() {
    let mut inst = GameInstance::new(String::from("Skyrim"), instance_paths(None, None));
    inst.create_empty_mod(String::from("modA"), Some(String::from("1.0"))).unwrap();
    inst.create_empty_mod(String::from("modB"), Some(String::from("1.0"))).unwrap();
    inst.set_mod_enabled(String::from("modB"), false).unwrap();
    let groups = inst.mount_vfs(VFSConfig::new());
    assert_eq!(groups.len(), 1);
    let mods = &groups[0];
    assert_eq!(mods.name, "mods");
    assert_eq!(mods.config.mount_name, "Skyrimmods");
    assert_eq!(mods.config.paths.sources, vec![String::from("/inst/mods/modA/versions/1.0")]);
    assert_eq!(mods.config.paths.target, "/games/skyrim/Data");
    assert_eq!(mods.config.paths.overwrite, "/inst/mods/overwrite");
    assert_eq!(mods.config.paths.workdir, "/inst/.vfs_workdir/mods");
    assert!(mods.config.should_overlay_target);
}

#[test]
fn mount_spec_skips_mods_without_versions() {
    let mut inst = GameInstance::new(String::from("Skyrim"), instance_paths(None, None));
    inst.create_empty_mod(String::from("empty"), None).unwrap();
    inst.create_empty_mod(String::from("full"), Some(String::from("2"))).unwrap();
    let groups = inst.mount_vfs(VFSConfig::new());
    assert_eq!(groups[0].config.paths.sources, vec![String::from("/inst/mods/full/versions/2")]);
}

#[test]
fn saves_and_settings_groups_follow_mods() {
    let inst = GameInstance::new(String::from("Skyrim"), instance_paths(Some("/home/u/saves"), Some("$game/ini")));
    let groups = inst.mount_vfs(VFSConfig::new());
    assert_eq!(groups.len(), 3);
    assert_eq!(groups[1].name, "saves");
    assert_eq!(groups[1].config.paths.target, "/home/u/saves");
    assert_eq!(groups[1].config.paths.overwrite, "/inst/saves");
    assert!(groups[1].config.paths.sources.is_empty());
    assert_eq!(groups[1].required_dir.as_deref(), Some("/home/u/saves"));
    assert_eq!(groups[1].create_dir.as_deref(), Some("/inst/saves"));
    assert!(!groups[1].config.should_overlay_target);
    assert_eq!(groups[2].name, "settings");
    assert_eq!(groups[2].config.paths.target, "/games/skyrim/ini");
    assert_eq!(groups[2].config.paths.sources, vec![String::from("/inst/settings")]);
    assert_eq!(groups[2].config.paths.overwrite, "/inst/mods/overwrite");
    assert_eq!(groups[2].config.paths.workdir, "/inst/.vfs_workdir/settings");
}

#[test]
fn orchestrator_stops_at_first_failure() {
    let inst = GameInstance::new(String::from("Skyrim"), instance_paths(Some("/s"), Some("/t")));
    let mut o = MountOrchestrator::new(inst.mount_vfs(VFSConfig::new()));
    assert_eq!(o.next_group(), Some(0));
    o.record(Ok(MountState {
        mounted: true,
        mount_name: String::from("Skyrimmods"),
        target: String::from("/games/skyrim/Data"),
        temp_original: None,
    }));
    assert_eq!(o.next_group(), Some(1));
    o.record(Err(VfsError::MountFailed(String::from("boom"))));
    assert_eq!(o.next_group(), None);
    assert_eq!(o.mounted.len(), 1);
    assert_eq!(o.failure.as_ref().map(|f| f.0.as_str()), Some("saves"));
    assert!(!o.is_complete());
}

#[test]
fn captured_version_must_be_present_and_non_empty() {
    assert!(accept_version(&Some(String::from("3.3"))));
    assert!(!accept_version(&Some(String::new())));
    assert!(!accept_version(&None));
}

#[test]
fn empty_version_output_is_unparseable() {
    let cfg = config("/games/Data", true, Some("unionfs"));
    let mut m = UnionFSFuse { config: cfg.clone() }.mount();
    m.step(&cfg, MountEvent::Begin);
    let a = m.step(&cfg, output(true, "", ""));
    assert!(matches!(a, MountAction::Failed(VfsError::EngineVersionUnparseable(_))));
}

#[test]
fn older_engine_not_found_by_which() {
    let cfg = config("/games/Data", false, None);
    let mut m = UnionFS { config: cfg.clone() }.mount();
    m.step(&cfg, MountEvent::Begin);
    let a = m.step(&cfg, output(true, "", ""));
    assert!(matches!(a, MountAction::Failed(VfsError::EngineNotFound(_))));
}
