//! One entry of the mod stack: a named content root with its versions.
use vstd::prelude::*;
use crate::text::{push_path, push_path_str, trim_trailing_slashes, trimmed_len};

verus! {

/// Descriptive data of a mod.
#[derive(Debug, Clone)]
pub struct ModInfo {
    pub author: Option<String>,
    pub website: Option<String>,
    pub description: Option<String>,
    pub categories: Vec<String>,
}

impl Default for ModInfo {
    fn default() -> (r: Self)
        ensures
            r.author is None,
            r.website is None,
            r.description is None,
            r.categories@.len() == 0,
    {
        ModInfo { author: None, website: None, description: None, categories: Vec::new() }
    }
}

/// A mod: its folder, unique name, versions, selected version and whether it
/// takes part in deployment.
#[derive(Debug, Clone)]
pub struct InstanceMod {
    pub absolute_path: String,
    pub name: String,
    pub versions: Vec<String>,
    pub selected_version_identifier: String,
    pub enabled: bool,
    pub info: ModInfo,
}

/// The two reserved, position-pinned entries of a stack.
pub open spec fn is_anchor_name(name: Seq<char>) -> bool {
    name == "base"@ || name == "overwrite"@
}

/// The folder of one version of a mod; the reserved entries have no versions
/// and use their own folder.
pub open spec fn version_path(m: InstanceMod, version: Seq<char>) -> Seq<char> {
    if is_anchor_name(m.name@) {
        m.absolute_path@
    } else {
        push_path(push_path(m.absolute_path@, "versions"@), version)
    }
}

/// `seq` without the elements equal to `v`.
pub open spec fn remove_all(seq: Seq<Seq<char>>, v: Seq<char>) -> Seq<Seq<char>>
    decreases seq.len(),
{
    if seq.len() == 0 {
        seq
    } else if seq.last() == v {
        remove_all(seq.drop_last(), v)
    } else {
        remove_all(seq.drop_last(), v).push(seq.last())
    }
}

/// Folders that may never serve as the parent of a deletion.
pub open spec fn denied_parent(parent: Seq<char>) -> bool {
    parent == "/"@ || parent == "/home"@ || parent == "/root"@ || parent == "/usr"@ || parent
        == "/var"@ || parent == "/dev"@
}

/// `path` lies at or below `parent`, comparing whole components.
pub open spec fn path_within(path: Seq<char>, parent: Seq<char>) -> bool {
    let p = trim_trailing_slashes(parent);
    p.len() == 0 || (path.len() >= p.len() && path.subrange(0, p.len() as int) == p && (path.len()
        == p.len() || path[p.len() as int] == '/'))
}

/// A folder may be deleted when its parent is not a system folder and the
/// folder lies inside that parent.
pub open spec fn deletion_allowed(path: Seq<char>, parent: Seq<char>) -> bool {
    !denied_parent(parent) && path_within(path, parent)
}

/// Decides whether `path` may be deleted as a folder inside `parent`.
pub fn check_folder_deletion(path: &str, parent: &str) -> (r: Result<(), String>)
    ensures
        r is Ok <==> deletion_allowed(path@, parent@),
{
    let p = String::from_str(parent);
    if p == String::from_str("/") || p == String::from_str("/home") || p == String::from_str("/root")
        || p == String::from_str("/usr") || p == String::from_str("/var") || p == String::from_str("/dev") {
        return Err(String::from_str("Parent path is denied"));
    }
    let n = trimmed_len(parent);
    if n == 0 {
        return Ok(());
    }
    let path_len = path.unicode_len();
    if path_len < n {
        return Err(String::from_str("Path is not a child of parent_path"));
    }
    let head = String::from_str(path.substring_char(0, n));
    let stem = String::from_str(parent.substring_char(0, n));
    if head != stem {
        return Err(String::from_str("Path is not a child of parent_path"));
    }
    if path_len > n && path.get_char(n) != '/' {
        return Err(String::from_str("Path is not a child of parent_path"));
    }
    Ok(())
}

fn contains_version(versions: &Vec<String>, v: &String) -> (r: bool)
    ensures
        r == versions.deep_view().contains(v@),
{
    let mut i: usize = 0;
    while i < versions.len()
        invariant
            i <= versions.len(),
            forall|k: int| 0 <= k < i ==> versions.deep_view()[k] != v@,
        decreases versions.len() - i,
    {
        if versions[i] == *v {
            assert(versions.deep_view()[i as int] == v@);
            return true;
        }
        i = i + 1;
    }
    false
}

impl InstanceMod {
    /// The folder that holds the versions of this mod.
    pub fn get_versions_path(&self) -> (r: String)
        ensures
            r@ == push_path(self.absolute_path@, "versions"@),
    {
        push_path_str(self.absolute_path.as_str(), "versions")
    }

    /// A mod in folder `location/name`, enabled; with a version, that version
    /// is its only and selected one.
    pub fn new(location: String, name: String, version: Option<String>, info: ModInfo) -> (r: Self)
        ensures
            r.absolute_path@ == push_path(location@, name@),
            r.name == name,
            r.enabled,
            r.info == info,
            match version {
                Some(v) => r.versions.deep_view() == seq![v@] && r.selected_version_identifier@ == v@,
                None => r.versions@.len() == 0 && r.selected_version_identifier@ == "invalid"@,
            },
    {
        let absolute_path = push_path_str(location.as_str(), name.as_str());
        match version {
            Some(v) => {
                let mut versions: Vec<String> = Vec::new();
                let selected = v.clone();
                versions.push(v);
                assert(versions.deep_view() =~= seq![selected@]);
                InstanceMod { absolute_path, name, versions, selected_version_identifier: selected, enabled: true, info }
            },
            None => InstanceMod {
                absolute_path,
                name,
                versions: Vec::new(),
                selected_version_identifier: String::from_str("invalid"),
                enabled: true,
                info,
            },
        }
    }

    /// The folder of the given version.
    pub fn get_version_absolute_path(&self, version_identifier: String) -> (r: String)
        ensures
            r@ == version_path(*self, version_identifier@),
    {
        if self.name == String::from_str("overwrite") || self.name == String::from_str("base") {
            return self.absolute_path.clone();
        }
        let versions = self.get_versions_path();
        push_path_str(versions.as_str(), version_identifier.as_str())
    }

    /// The folder of the selected version.
    pub fn get_selected_version_absolute_path(&self) -> (r: String)
        ensures
            r@ == version_path(*self, self.selected_version_identifier@),
    {
        self.get_version_absolute_path(self.selected_version_identifier.clone())
    }

    /// The folder to remove when this mod is deleted from `mods_path`, if the
    /// deletion is allowed.
    pub fn delete_mod(&self, mods_path: String) -> (r: Result<String, String>)
        ensures
            r is Ok <==> deletion_allowed(self.absolute_path@, mods_path@),
            r matches Ok(p) ==> p@ == self.absolute_path@,
    {
        match check_folder_deletion(self.absolute_path.as_str(), mods_path.as_str()) {
            Ok(()) => Ok(self.absolute_path.clone()),
            Err(e) => Err(e),
        }
    }

    pub fn set_enabled(&mut self, enabled: bool)
        ensures
            *final(self) == (InstanceMod { enabled, ..*old(self) }),
    {
        self.enabled = enabled;
    }

    pub fn has_version(&self, version_identifier: String) -> (r: bool)
        ensures
            r == self.versions.deep_view().contains(version_identifier@),
    {
        contains_version(&self.versions, &version_identifier)
    }

    /// Selects a version that the mod has.
    pub fn set_active_version(&mut self, version_identifier: String) -> (r: Result<(), String>)
        ensures
            r is Ok <==> old(self).versions.deep_view().contains(version_identifier@),
            r is Ok ==> *final(self) == (InstanceMod {
                selected_version_identifier: version_identifier,
                ..*old(self)
            }),
            r is Err ==> *final(self) == *old(self),
            r matches Err(m) ==> m@ == "Version not found!"@,
    {
        if !self.has_version(version_identifier.clone()) {
            return Err(String::from_str("Version not found!"));
        }
        self.selected_version_identifier = version_identifier;
        Ok(())
    }

    /// Adds a new version and selects it.
    pub fn add_version(&mut self, version_identifier: String) -> (r: Result<(), String>)
        ensures
            r is Ok <==> !old(self).versions.deep_view().contains(version_identifier@),
            r is Ok ==> final(self).versions@ == old(self).versions@.push(version_identifier)
                && final(self).selected_version_identifier == version_identifier
                && final(self).absolute_path == old(self).absolute_path
                && final(self).name == old(self).name && final(self).enabled == old(self).enabled
                && final(self).info == old(self).info,
            r is Err ==> *final(self) == *old(self),
            r matches Err(m) ==> m@ == "Version already exists!"@,
    {
        if self.has_version(version_identifier.clone()) {
            return Err(String::from_str("Version already exists!"));
        }
        let selected = version_identifier.clone();
        self.versions.push(version_identifier);
        self.selected_version_identifier = selected;
        Ok(())
    }

    /// Drops a version from the list and returns its folder, to be removed,
    /// when that folder lies inside the versions folder.
    pub fn delete_version(&mut self, version_identifier: String) -> (r: Result<String, String>)
        ensures
            !old(self).versions.deep_view().contains(version_identifier@) ==> (r matches Err(m) && m@
                == "Cannot delete inexistent version."@) && *final(self) == *old(self),
            old(self).versions.deep_view().contains(version_identifier@) ==> {
                &&& final(self).versions.deep_view() == remove_all(old(self).versions.deep_view(), version_identifier@)
                &&& final(self).absolute_path == old(self).absolute_path
                &&& final(self).name == old(self).name
                &&& final(self).selected_version_identifier == old(self).selected_version_identifier
                &&& final(self).enabled == old(self).enabled
                &&& final(self).info == old(self).info
                &&& (r is Ok <==> deletion_allowed(
                    version_path(*old(self), version_identifier@),
                    push_path(old(self).absolute_path@, "versions"@),
                ))
                &&& r matches Ok(p) ==> p@ == version_path(*old(self), version_identifier@)
            },
    {
        if !self.has_version(version_identifier.clone()) {
            return Err(String::from_str("Cannot delete inexistent version."));
        }
        let ghost before = self.versions.deep_view();
        let mut kept: Vec<String> = Vec::new();
        let mut i: usize = 0;
        while i < self.versions.len()
            invariant
                i <= self.versions.len(),
                before == self.versions.deep_view(),
                kept.deep_view() == remove_all(before.subrange(0, i as int), version_identifier@),
            decreases self.versions.len() - i,
        {
            if self.versions[i] != version_identifier {
                kept.push(self.versions[i].clone());
            }
            proof {
                assert(before.subrange(0, i + 1).drop_last() =~= before.subrange(0, i as int));
            }
            i = i + 1;
            assert(kept.deep_view() =~= remove_all(before.subrange(0, i as int), version_identifier@));
        }
        assert(before.subrange(0, before.len() as int) =~= before);
        let folder = self.get_version_absolute_path(version_identifier.clone());
        let versions_path = self.get_versions_path();
        self.versions = kept;
        match check_folder_deletion(folder.as_str(), versions_path.as_str()) {
            Ok(()) => Ok(folder),
            Err(e) => Err(e),
        }
    }
}

} // verus!
