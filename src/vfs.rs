//! Overlay mounts: the mount specification, the layer string handed to the
//! union-mount executable, and the mount / unmount state machine.
use vstd::prelude::*;
use crate::file_structure::opt_view;
use crate::text::{last_slash, last_slash_before, trim_trailing_slashes, trimmed_len};

verus! {

/// Prefix of the folder that holds a target's original content while it is overlaid.
pub const UNION_FS_TEMP_FOLDER_PREFIX: &'static str = ".rmm-temp-";

/// What to combine into one view.
#[derive(Debug, Clone)]
pub struct VFSMountPaths {
    /// The directory that becomes the combined view.
    pub target: String,
    /// Content roots, lowest priority first.
    pub sources: Vec<String>,
    /// The writable layer that receives every change.
    pub overwrite: String,
    /// Scratch directory of the engine.
    pub workdir: String,
}

/// One named mount: its paths, the executable to use and whether the target's
/// own content is kept as the lowest layer.
#[derive(Debug, Clone)]
pub struct VFSMountConfig {
    pub mount_name: String,
    pub command: Option<String>,
    pub paths: VFSMountPaths,
    pub should_overlay_target: bool,
}

/// Failures of the mount engine.
#[derive(Debug, Clone)]
pub enum VfsError {
    ConfigurationError(String),
    EngineNotFound(String),
    EngineVersionUnparseable(String),
    FilesystemError { path: String, message: String },
    MountFailed(String),
    UnmountFailed(String),
    RestoreFailed(String),
}

/// Record of a live mount; its presence after a restart signals an active or
/// dirty mount.
#[derive(Debug, Clone)]
pub struct MountState {
    pub mounted: bool,
    pub mount_name: String,
    pub target: String,
    pub temp_original: Option<String>,
}

/// Name of the last component of a path, trailing `/` ignored.
pub open spec fn file_name_of(path: Seq<char>) -> Seq<char> {
    let t = trim_trailing_slashes(path);
    t.subrange(last_slash(t) + 1, t.len() as int)
}

/// Where the target's original content is parked while overlaid: the
/// target's parent, then the reserved prefix and the target's own name.
/// A path without a name (empty, `/`, ending in `.` or `..`) has none.
pub open spec fn temp_folder_of(target: Seq<char>) -> Option<Seq<char>> {
    let t = trim_trailing_slashes(target);
    let name = file_name_of(target);
    if name.len() == 0 || name == seq!['.'] || name == seq!['.', '.'] {
        None
    } else if last_slash(t) < 0 {
        Some(UNION_FS_TEMP_FOLDER_PREFIX@ + name)
    } else {
        Some(t.subrange(0, last_slash(t) + 1) + UNION_FS_TEMP_FOLDER_PREFIX@ + name)
    }
}

/// Computes the temporary-original folder of `target`.
pub fn temp_folder_for(target: &str) -> (r: Option<String>)
    requires
        target@.len() < i64::MAX,
    ensures
        opt_view(r) == temp_folder_of(target@),
{
    let n = trimmed_len(target);
    let slash = last_slash_before(target, n);
    let ghost t = target@.subrange(0, n as int);
    proof {
        crate::text::lemma_last_slash_bounds(t);
    }
    let start: usize = (slash + 1) as usize;
    let name = target.substring_char(start, n);
    assert(name@ =~= file_name_of(target@));
    let name_len = n - start;
    if name_len == 0 {
        return None;
    }
    if name_len <= 2 {
        let c0 = name.get_char(0);
        if c0 == '.' && (name_len == 1 || name.get_char(1) == '.') {
            assert(name_len == 1 ==> name@ =~= seq!['.']);
            assert(name_len == 2 ==> name@ =~= seq!['.', '.']);
            return None;
        }
    }
    assert(name@ != seq!['.'] && name@ != seq!['.', '.']) by {
        if name@ == seq!['.'] || name@ == seq!['.', '.'] {
            assert(name@[0] == '.');
        }
    }
    let mut r = String::from_str(target.substring_char(0, start));
    r.append(UNION_FS_TEMP_FOLDER_PREFIX);
    r.append(name);
    assert(slash < 0 ==> t.subrange(0, 0) =~= Seq::<char>::empty());
    Some(r)
}

/// The read-only part of a layer string: `:<path>=RO` for each path, in order.
pub open spec fn ro_layers(paths: Seq<Seq<char>>) -> Seq<char>
    decreases paths.len(),
{
    if paths.len() == 0 {
        Seq::empty()
    } else {
        ro_layers(paths.drop_last()) + ":"@ + paths.last() + "=RO"@
    }
}

/// The layer string: the writable layer first, then the read-only layers in
/// the order given (highest priority first).
pub open spec fn layer_string(overwrite: Seq<char>, lower: Seq<Seq<char>>) -> Seq<char> {
    overwrite + "=RW"@ + ro_layers(lower)
}

/// The paths of `sources[i..]` whose flag is set, highest index first.
pub open spec fn kept_descending(sources: Seq<Seq<char>>, present: Seq<bool>, i: int) -> Seq<Seq<char>>
    decreases sources.len() - i,
{
    if i < 0 || i >= sources.len() {
        Seq::empty()
    } else {
        let rest = kept_descending(sources, present, i + 1);
        if i < present.len() && present[i] {
            rest.push(sources[i])
        } else {
            rest
        }
    }
}

/// Builds the layer string from the writable layer and the read-only layers.
pub fn build_layers(overwrite: &str, lower: &Vec<String>) -> (r: String)
    ensures
        r@ == layer_string(overwrite@, lower.deep_view()),
{
    let mut r = String::from_str(overwrite);
    r.append("=RW");
    let mut i: usize = 0;
    while i < lower.len()
        invariant
            i <= lower.len(),
            r@ == overwrite@ + "=RW"@ + ro_layers(lower.deep_view().subrange(0, i as int)),
        decreases lower.len() - i,
    {
        let ghost before = lower.deep_view().subrange(0, i as int);
        r.append(":");
        r.append(lower[i].as_str());
        r.append("=RO");
        proof {
            let after = lower.deep_view().subrange(0, i + 1);
            assert(after.drop_last() =~= before);
            assert(after.last() == lower@[i as int]@);
        }
        i = i + 1;
    }
    assert(lower.deep_view().subrange(0, lower.len() as int) =~= lower.deep_view());
    r
}

/// The sources whose flag is set, highest priority first.
pub fn select_descending(sources: &Vec<String>, present: &Vec<bool>) -> (r: Vec<String>)
    ensures
        r.deep_view() == kept_descending(sources.deep_view(), present@, 0),
{
    let mut r: Vec<String> = Vec::new();
    let mut i: usize = sources.len();
    while i > 0
        invariant
            i <= sources.len(),
            r.deep_view() == kept_descending(sources.deep_view(), present@, i as int),
        decreases i,
    {
        i = i - 1;
        if i < present.len() && present[i] {
            r.push(sources[i].clone());
        }
        assert(r.deep_view() =~= kept_descending(sources.deep_view(), present@, i as int));
    }
    r
}

/// The arguments of the mount executable: copy-on-write, the open-file limit,
/// hidden metadata files, the layers, then the target.
pub open spec fn mount_args_of(max_files: Seq<char>, layers: Seq<char>, target: Seq<char>) -> Seq<Seq<char>> {
    seq![
        "-o"@,
        "cow"@,
        "-o"@,
        max_files,
        "-o"@,
        "hide_meta_files"@,
        "-o"@,
        "dirs="@ + layers,
        target,
    ]
}

/// Builds the argument list of the mount executable.
pub fn mount_args(max_files: &str, layers: &str, target: &str) -> (r: Vec<String>)
    ensures
        r.deep_view() == mount_args_of(max_files@, layers@, target@),
{
    let mut dirs = String::from_str("dirs=");
    dirs.append(layers);
    let r = vec![
        String::from_str("-o"),
        String::from_str("cow"),
        String::from_str("-o"),
        String::from_str(max_files),
        String::from_str("-o"),
        String::from_str("hide_meta_files"),
        String::from_str("-o"),
        dirs,
        String::from_str(target),
    ];
    assert(r.deep_view() =~= mount_args_of(max_files@, layers@, target@));
    r
}

proof fn lemma_all_present_reversed(sources: Seq<Seq<char>>, present: Seq<bool>, i: int)
    requires
        0 <= i <= sources.len(),
        present.len() >= sources.len(),
        forall|k: int| 0 <= k < sources.len() ==> #[trigger] present[k],
    ensures
        kept_descending(sources, present, i) == sources.subrange(i, sources.len() as int).reverse(),
    decreases sources.len() - i,
{
    if i < sources.len() {
        lemma_all_present_reversed(sources, present, i + 1);
        let tail = sources.subrange(i + 1, sources.len() as int);
        let whole = sources.subrange(i, sources.len() as int);
        assert(kept_descending(sources, present, i) =~= whole.reverse());
    } else {
        assert(sources.subrange(i, sources.len() as int).reverse() =~= Seq::<Seq<char>>::empty());
    }
}

/// When every source exists, the read-only layers list the sources from the
/// highest priority down to the lowest, followed by the original content
/// when the target is overlaid.
pub proof fn lemma_layers_highest_priority_first(
    overwrite: Seq<char>,
    sources: Seq<Seq<char>>,
    present: Seq<bool>,
    original: Seq<char>,
)
    requires
        present.len() >= sources.len(),
        forall|k: int| 0 <= k < sources.len() ==> #[trigger] present[k],
    ensures
        layer_string(overwrite, kept_descending(sources, present, 0)) == overwrite + "=RW"@ + ro_layers(
            sources.reverse(),
        ),
        layer_string(overwrite, kept_descending(sources, present, 0).push(original)) == overwrite
            + "=RW"@ + ro_layers(sources.reverse()) + ":"@ + original + "=RO"@,
{
    lemma_all_present_reversed(sources, present, 0);
    assert(sources.subrange(0, sources.len() as int) =~= sources);
    let lower = sources.reverse().push(original);
    assert(lower.drop_last() =~= sources.reverse());
    assert((overwrite + "=RW"@ + ro_layers(sources.reverse()) + ":"@ + original + "=RO"@) =~= (
    overwrite + "=RW"@ + (ro_layers(sources.reverse()) + ":"@ + original + "=RO"@)));
}

} // verus!
