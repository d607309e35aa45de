//! Which mount engine to use and how to invoke it.
use vstd::prelude::*;

verus! {

/// The mount engines that can back a deployment.
#[derive(Debug, Clone, Copy, PartialEq, Eq, Structural)]
pub enum VFSImplementation {
    UnionFSFuse,
    OverlayFS,
}

impl Default for VFSImplementation {
    fn default() -> (r: Self)
        ensures
            r == VFSImplementation::UnionFSFuse,
    {
        VFSImplementation::UnionFSFuse
    }
}

/// Engine choice plus an optional explicit executable.
#[derive(Debug, Clone)]
pub struct VFSConfig {
    pub implementation: VFSImplementation,
    pub command: Option<String>,
}

impl VFSConfig {
    pub fn new() -> (r: Self)
        ensures
            r.implementation == VFSImplementation::UnionFSFuse,
            r.command is None,
    {
        VFSConfig { implementation: VFSImplementation::UnionFSFuse, command: None }
    }

    /// A field-by-field copy.
    pub fn duplicate(&self) -> (r: Self)
        ensures
            r.implementation == self.implementation,
            r.command == self.command,
    {
        VFSConfig {
            implementation: self.implementation,
            command: match &self.command {
                Some(c) => Some(c.clone()),
                None => None,
            },
        }
    }
}

} // verus!
