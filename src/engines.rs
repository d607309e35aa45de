//! The two mount engines, each holding the configuration of one mount.
use vstd::prelude::*;
use crate::file_structure::opt_view;
use crate::mount_machine::{MountEngine, MountMachine, MountPhase};
use crate::vfs::{temp_folder_for, temp_folder_of, VFSMountConfig};

verus! {

/// A mount engine: it holds its configuration and starts mount and unmount
/// sequences for it.
pub trait BaseVFS {
    spec fn mount_config(&self) -> VFSMountConfig;

    spec fn engine(&self) -> MountEngine;

    fn set_config(&mut self, config: VFSMountConfig) -> (r: Result<(), String>)
        ensures
            r is Ok,
            final(self).mount_config() == config,
            final(self).engine() == old(self).engine(),
    ;

    fn mount(&self) -> (m: MountMachine)
        ensures
            m.phase == MountPhase::Start,
            !m.unmounting,
            m.engine == self.engine(),
            m.temp is None,
    ;

    fn unmount(&self) -> (m: MountMachine)
        ensures
            m.phase == MountPhase::Start,
            m.unmounting,
            m.engine == self.engine(),
            m.temp is None,
    ;
}

/// The older union-mount engine: the target itself is the lowest layer.
#[derive(Debug, Clone)]
pub struct UnionFS {
    pub config: VFSMountConfig,
}

/// The FUSE union-mount engine, which moves an overlaid target aside first.
#[derive(Debug, Clone)]
pub struct UnionFSFuse {
    pub config: VFSMountConfig,
}

impl UnionFSFuse {
    /// The folder that holds the target's original content while it is overlaid.
    pub fn get_temp_mount_folder(&self) -> (r: Option<String>)
        requires
            self.config.paths.target@.len() < i64::MAX,
        ensures
            opt_view(r) == temp_folder_of(self.config.paths.target@),
    {
        temp_folder_for(self.config.paths.target.as_str())
    }
}

impl BaseVFS for UnionFS {
    open spec fn mount_config(&self) -> VFSMountConfig {
        self.config
    }

    open spec fn engine(&self) -> MountEngine {
        MountEngine::UnionFS
    }

    fn set_config(&mut self, config: VFSMountConfig) -> (r: Result<(), String>) {
        self.config = config;
        Ok(())
    }

    fn mount(&self) -> (m: MountMachine) {
        MountMachine::new(MountEngine::UnionFS, false)
    }

    fn unmount(&self) -> (m: MountMachine) {
        MountMachine::new(MountEngine::UnionFS, true)
    }
}

impl BaseVFS for UnionFSFuse {
    open spec fn mount_config(&self) -> VFSMountConfig {
        self.config
    }

    open spec fn engine(&self) -> MountEngine {
        MountEngine::UnionFSFuse
    }

    fn set_config(&mut self, config: VFSMountConfig) -> (r: Result<(), String>) {
        self.config = config;
        Ok(())
    }

    fn mount(&self) -> (m: MountMachine) {
        MountMachine::new(MountEngine::UnionFSFuse, false)
    }

    fn unmount(&self) -> (m: MountMachine) {
        MountMachine::new(MountEngine::UnionFSFuse, true)
    }
}

} // verus!
