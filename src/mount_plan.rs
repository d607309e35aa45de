//! Turning an instance into the mounts it needs (mods, saves, settings), and
//! mounting those groups one after another, stopping at the first failure.
use vstd::prelude::*;
use crate::game_instance::{resolve_path, GameInstance, GameInstancePaths};
use crate::instance_mod::{is_anchor_name, version_path, InstanceMod};
use crate::mount_machine::MountEngine;
use crate::text::{push_path, push_path_str};
use crate::vfs::{MountState, VFSMountConfig, VFSMountPaths, VfsError};
use crate::vfs_config::{VFSConfig, VFSImplementation};

verus! {

/// One named mount of an instance, with the folders to check or create first.
#[derive(Debug)]
pub struct MountGroup {
    pub name: String,
    pub engine: MountEngine,
    pub config: VFSMountConfig,
    /// A deployment folder that must already be a directory.
    pub required_dir: Option<String>,
    /// An instance folder to create before mounting.
    pub create_dir: Option<String>,
}

/// The entry takes part in the mods mount: enabled, with a version, and not
/// one of the anchors.
pub open spec fn deployable(m: InstanceMod) -> bool {
    m.enabled && m.versions@.len() > 0 && !is_anchor_name(m.name@)
}

/// The selected-version folders of the deployable entries among the first
/// `n`, lowest priority first.
pub open spec fn mod_sources(mods: Seq<InstanceMod>, n: int) -> Seq<Seq<char>>
    decreases n,
{
    if n <= 0 || n > mods.len() {
        Seq::empty()
    } else if deployable(mods[n - 1]) {
        mod_sources(mods, n - 1).push(version_path(mods[n - 1], mods[n - 1].selected_version_identifier@))
    } else {
        mod_sources(mods, n - 1)
    }
}

/// The instance's own engine settings, else the fallback.
pub open spec fn effective_vfs(inst: GameInstance, fallback: VFSConfig) -> VFSConfig {
    match inst.config.vfs_config {
        Some(c) => c,
        None => fallback,
    }
}

/// The scratch folder of a group.
pub open spec fn workdir_of(paths: GameInstancePaths, group: Seq<char>) -> Seq<char> {
    push_path(push_path(paths.root@, ".vfs_workdir"@), group)
}

/// The overwrite folder of an instance, resolved.
pub open spec fn overwrite_of(paths: GameInstancePaths) -> Seq<char> {
    resolve_path(paths, push_path(resolve_path(paths, paths.internal.mods@), "overwrite"@))
}

/// A group built for the instance: named `<instance><group>`, using the FUSE
/// engine and the effective command.
pub open spec fn group_header(inst: GameInstance, fallback: VFSConfig, g: MountGroup, name: Seq<char>, overlay: bool) -> bool {
    &&& g.name@ == name
    &&& g.engine == MountEngine::UnionFSFuse
    &&& g.config.mount_name@ == inst.config.name@ + name
    &&& g.config.command == effective_vfs(inst, fallback).command
    &&& g.config.should_overlay_target == overlay
    &&& g.config.paths.workdir@ == workdir_of(inst.config.paths, name)
}

/// The mods group: the deployable entries over the deployment folder, with the
/// deployment folder's own content as the lowest layer.
pub open spec fn is_mods_group(inst: GameInstance, fallback: VFSConfig, g: MountGroup) -> bool {
    let paths = inst.config.paths;
    &&& group_header(inst, fallback, g, "mods"@, true)
    &&& g.config.paths.target@ == resolve_path(paths, paths.deployment.mods@)
    &&& g.config.paths.sources.deep_view() == mod_sources(inst.mods@, inst.mods@.len() as int)
    &&& g.config.paths.overwrite@ == overwrite_of(paths)
    &&& g.required_dir is None && g.create_dir is None
}

/// The saves group: the instance's saves folder as the writable layer over
/// the game's saves folder.
pub open spec fn is_saves_group(inst: GameInstance, fallback: VFSConfig, g: MountGroup, deploy: Seq<char>) -> bool {
    let paths = inst.config.paths;
    &&& group_header(inst, fallback, g, "saves"@, false)
    &&& g.config.paths.target@ == resolve_path(paths, deploy)
    &&& g.config.paths.sources@.len() == 0
    &&& g.config.paths.overwrite@ == resolve_path(paths, paths.internal.saves@)
    &&& g.required_dir matches Some(d) && d@ == deploy
    &&& g.create_dir matches Some(d) && d@ == resolve_path(paths, paths.internal.saves@)
}

/// The settings group: the instance's settings folder over the game's
/// settings folder, writing to the overwrite folder.
pub open spec fn is_settings_group(inst: GameInstance, fallback: VFSConfig, g: MountGroup, deploy: Seq<char>) -> bool {
    let paths = inst.config.paths;
    &&& group_header(inst, fallback, g, "settings"@, false)
    &&& g.config.paths.target@ == resolve_path(paths, deploy)
    &&& g.config.paths.sources.deep_view() == seq![resolve_path(paths, paths.internal.settings@)]
    &&& g.config.paths.overwrite@ == overwrite_of(paths)
    &&& g.required_dir matches Some(d) && d@ == deploy
    &&& g.create_dir matches Some(d) && d@ == resolve_path(paths, paths.internal.settings@)
}

fn copy_opt(o: &Option<String>) -> (r: Option<String>)
    ensures
        r == *o,
{
    match o {
        Some(s) => Some(s.clone()),
        None => None,
    }
}

impl GameInstance {
    /// The selected-version folders of the deployable entries, lowest
    /// priority first.
    pub fn get_mod_sources(&self) -> (r: Vec<String>)
        ensures
            r.deep_view() == mod_sources(self.mods@, self.mods@.len() as int),
    {
        let mut r: Vec<String> = Vec::new();
        let mut i: usize = 0;
        while i < self.mods.len()
            invariant
                i <= self.mods.len(),
                r.deep_view() == mod_sources(self.mods@, i as int),
            decreases self.mods.len() - i,
        {
            let m = &self.mods[i];
            if m.enabled && m.versions.len() > 0 && !(m.name == String::from_str("base") || m.name
                == String::from_str("overwrite")) {
                r.push(m.get_selected_version_absolute_path());
            }
            i = i + 1;
            assert(r.deep_view() =~= mod_sources(self.mods@, i as int));
        }
        r
    }

    /// One group of this instance, named after the instance and the group.
    pub fn mount_vfs_sub(
        &self,
        name: &str,
        vfs_config: &VFSConfig,
        mount_paths: VFSMountPaths,
        should_overlay_target: bool,
    ) -> (r: MountGroup)
        ensures
            r.name@ == name@,
            r.engine == MountEngine::UnionFSFuse,
            r.config.mount_name@ == self.config.name@ + name@,
            r.config.command == vfs_config.command,
            r.config.paths == mount_paths,
            r.config.should_overlay_target == should_overlay_target,
            r.required_dir is None,
            r.create_dir is None,
    {
        let mut mount_name = self.config.name.clone();
        mount_name.append(name);
        let engine = match vfs_config.implementation {
            VFSImplementation::UnionFSFuse => MountEngine::UnionFSFuse,
            VFSImplementation::OverlayFS => MountEngine::UnionFSFuse,
        };
        MountGroup {
            name: String::from_str(name),
            engine,
            config: VFSMountConfig {
                mount_name,
                command: copy_opt(&vfs_config.command),
                paths: mount_paths,
                should_overlay_target,
            },
            required_dir: None,
            create_dir: None,
        }
    }

    fn workdir(&self, group: &str) -> (r: String)
        ensures
            r@ == workdir_of(self.config.paths, group@),
    {
        let base = push_path_str(self.config.paths.root.as_str(), ".vfs_workdir");
        push_path_str(base.as_str(), group)
    }

    /// The mounts of this instance: the mods group, then a saves group and a
    /// settings group when the instance names those deployment folders.
    pub fn mount_vfs(&self, fallback_vfs_config: VFSConfig) -> (r: Vec<MountGroup>)
        ensures
            r@.len() == 1 + (if self.config.paths.deployment.saves is Some { 1int } else { 0 }) + (
            if self.config.paths.deployment.settings is Some { 1int } else { 0 }),
            is_mods_group(*self, fallback_vfs_config, r@[0]),
            self.config.paths.deployment.saves matches Some(d) ==> is_saves_group(
                *self,
                fallback_vfs_config,
                r@[1],
                d@,
            ),
            self.config.paths.deployment.settings matches Some(d) ==> is_settings_group(
                *self,
                fallback_vfs_config,
                r@[r@.len() - 1],
                d@,
            ),
    {
        let vfs_config = match &self.config.vfs_config {
            Some(c) => VFSConfig { implementation: c.implementation, command: copy_opt(&c.command) },
            None => VFSConfig { implementation: fallback_vfs_config.implementation, command: copy_opt(&fallback_vfs_config.command) },
        };
        let mut groups: Vec<MountGroup> = Vec::new();
        let overwrite = self.parse_path_variables(self.overwrite_relative_path());
        let mods_paths = VFSMountPaths {
            target: self.parse_path_variables(self.config.paths.deployment.mods.clone()),
            sources: self.get_mod_sources(),
            overwrite: overwrite.clone(),
            workdir: self.workdir("mods"),
        };
        groups.push(self.mount_vfs_sub("mods", &vfs_config, mods_paths, true));
        match &self.config.paths.deployment.saves {
            Some(deploy) => {
                let internal = self.parse_path_variables(self.config.paths.internal.saves.clone());
                let paths = VFSMountPaths {
                    target: self.parse_path_variables(deploy.clone()),
                    sources: Vec::new(),
                    overwrite: internal.clone(),
                    workdir: self.workdir("saves"),
                };
                let mut g = self.mount_vfs_sub("saves", &vfs_config, paths, false);
                g.required_dir = Some(deploy.clone());
                g.create_dir = Some(internal);
                groups.push(g);
            },
            None => {},
        }
        match &self.config.paths.deployment.settings {
            Some(deploy) => {
                let internal = self.parse_path_variables(self.config.paths.internal.settings.clone());
                let sources = vec![internal.clone()];
                assert(sources.deep_view() =~= seq![internal@]);
                let paths = VFSMountPaths {
                    target: self.parse_path_variables(deploy.clone()),
                    sources,
                    overwrite: overwrite.clone(),
                    workdir: self.workdir("settings"),
                };
                let mut g = self.mount_vfs_sub("settings", &vfs_config, paths, false);
                g.required_dir = Some(deploy.clone());
                g.create_dir = Some(internal);
                groups.push(g);
            },
            None => {},
        }
        groups
    }
}

/// Mounting a list of groups in order: each success is recorded, and the
/// first failure ends the sequence with the groups mounted so far kept.
#[derive(Debug)]
pub struct MountOrchestrator {
    pub groups: Vec<MountGroup>,
    pub mounted: Vec<MountState>,
    pub failure: Option<(String, VfsError)>,
}

impl MountOrchestrator {
    /// The progress agrees with the list: no more mounts than groups.
    pub open spec fn wf(&self) -> bool {
        self.mounted@.len() <= self.groups@.len()
    }

    pub fn new(groups: Vec<MountGroup>) -> (r: Self)
        ensures
            r.wf(),
            r.groups == groups,
            r.mounted@.len() == 0,
            r.failure is None,
    {
        MountOrchestrator { groups, mounted: Vec::new(), failure: None }
    }

    /// The group to mount next, while nothing has failed.
    pub fn next_group(&self) -> (r: Option<usize>)
        requires
            self.wf(),
        ensures
            r == (if self.failure is None && self.mounted@.len() < self.groups@.len() {
                Some(self.mounted@.len() as usize)
            } else {
                None
            }),
    {
        if self.failure.is_none() && self.mounted.len() < self.groups.len() {
            Some(self.mounted.len())
        } else {
            None
        }
    }

    /// Records how the next group's mount ended.
    pub fn record(&mut self, outcome: Result<MountState, VfsError>)
        requires
            old(self).wf(),
            old(self).failure is None,
            old(self).mounted@.len() < old(self).groups@.len(),
        ensures
            final(self).wf(),
            final(self).groups == old(self).groups,
            match outcome {
                Ok(st) => final(self).mounted@ == old(self).mounted@.push(st) && final(self).failure is None,
                Err(e) => final(self).mounted == old(self).mounted && (final(self).failure matches Some(
                    f,
                ) && f.0@ == old(self).groups@[old(self).mounted@.len() as int].name@ && f.1 == e),
            },
    {
        match outcome {
            Ok(st) => self.mounted.push(st),
            Err(e) => {
                let name = self.groups[self.mounted.len()].name.clone();
                self.failure = Some((name, e));
            },
        }
    }

    /// Every group is mounted.
    pub fn is_complete(&self) -> (r: bool)
        ensures
            r == (self.failure is None && self.mounted@.len() == self.groups@.len()),
    {
        self.failure.is_none() && self.mounted.len() == self.groups.len()
    }
}

} // verus!
