//! The mount and unmount protocols as a state machine. The caller performs
//! each action (a subprocess, a filesystem step, a pause) and hands the
//! outcome back as the next event; every decision is taken here.
use vstd::prelude::*;
use crate::file_structure::opt_view;
use crate::text::{contains_text, occurs_in};
use crate::vfs::{
    build_layers, kept_descending, layer_string, mount_args, mount_args_of,
    select_descending, temp_folder_for, temp_folder_of, MountState, VFSMountConfig,
    VfsError,
};

verus! {

/// Pattern that extracts the version from the engine's `--version` output.
pub const VERSION_REGEX: &'static str = "unionfs-fuse version: ([0-9\\.]{1,10})";

/// Open-file limit passed to the FUSE engine.
pub const FUSE_MAX_FILES: &'static str = "max_files=327680";

/// Open-file limit passed to the older engine.
pub const UNIONFS_MAX_FILES: &'static str = "max_files=32768";

/// What the first capture group of `pattern` matches at the leftmost match in
/// `text`; `None` when the pattern does not compile, does not match, or its
/// first group takes no part in the match.
pub uninterp spec fn first_capture(pattern: Seq<char>, text: Seq<char>) -> Option<Seq<char>>;

/// Relies on `regex::Regex::new`, `regex::Regex::captures` and
/// `regex::Captures::get`: the text of group 1 of the first match.
#[verifier::external_body]
fn capture_first_group(pattern: &str, text: &str) -> (r: Option<String>)
    ensures
        opt_view(r) == first_capture(pattern@, text@),
{
    let re = match regex::Regex::new(pattern) {
        Ok(re) => re,
        Err(_) => return None,
    };
    match re.captures(text) {
        Some(caps) => match caps.get(1) {
            Some(m) => Some(m.as_str().to_string()),
            None => None,
        },
        None => None,
    }
}

/// A captured version lets the mount go on when it is present and non-empty.
pub fn accept_version(captured: &Option<String>) -> (r: bool)
    ensures
        r == (opt_view(*captured) matches Some(v) && v.len() > 0),
{
    match captured {
        Some(v) => v.unicode_len() > 0,
        None => false,
    }
}

/// The engines that can drive a mount.
#[derive(Debug, Clone, Copy, PartialEq, Eq, Structural)]
pub enum MountEngine {
    UnionFS,
    UnionFSFuse,
}

/// Where a mount or unmount sequence stands.
#[derive(Debug, Clone, Copy, PartialEq, Eq, Structural)]
pub enum MountPhase {
    Start,
    ProbeUnionfs,
    ProbeUnionfsFuse,
    LocateCommand,
    CheckVersion,
    Inspect,
    MoveTarget,
    SettleAfterMove,
    CreateTarget,
    SettleAfterCreate,
    Mounting,
    Unmounting,
    SettleAfterUnmount,
    RemoveTarget,
    RestoreTarget,
    Finished,
}

/// The outcome of the last action, handed back by the caller.
#[derive(Debug)]
pub enum MountEvent {
    /// Begins the sequence.
    Begin,
    /// A subprocess ran (or could not be started, `ran == false`).
    CommandOutput { ran: bool, stdout: String, stderr: String },
    /// Whether the temporary-original folder exists and is empty, and which
    /// sources exist, one flag per source of the configuration.
    PathsInspected { temp_exists: bool, temp_empty: Result<bool, String>, sources_exist: Vec<bool> },
    /// A filesystem step or a pause finished.
    StepDone(Result<(), String>),
    /// The unmount command ran: whether it could start, its status and error text.
    UnmountOutput { ran: bool, success: bool, stderr: String },
}

/// What the caller is to do next.
#[derive(Debug)]
pub enum MountAction {
    /// Run `<command> --version`.
    RunVersion { command: String },
    /// Run `which <command>`.
    LocateCommand { command: String },
    /// Report on the temporary-original folder (if any) and on each source.
    InspectPaths { temp: Option<String>, sources: Vec<String> },
    MoveFolder { from: String, to: String },
    CreateFolder { path: String },
    RemoveEmptyFolder { path: String },
    Settle { millis: u64 },
    /// Run the mount executable with these arguments.
    RunMount { command: String, args: Vec<String> },
    /// Run `umount <target>`.
    RunUnmount { target: String },
    Mounted(MountState),
    Unmounted,
    Failed(VfsError),
}

/// A mount or unmount sequence in progress.
pub struct MountMachine {
    pub engine: MountEngine,
    pub unmounting: bool,
    pub phase: MountPhase,
    /// The executable chosen for the mount.
    pub command: String,
    /// The temporary-original folder of the target, once computed.
    pub temp: Option<String>,
    /// The layer string, once computed.
    pub layers: String,
}

/// A configured, non-empty executable.
pub open spec fn configured_command(cfg: VFSMountConfig) -> Option<Seq<char>> {
    match cfg.command {
        Some(c) => if c@.len() > 0 { Some(c@) } else { None },
        None => None,
    }
}

/// The subprocess started and wrote nothing on its error stream.
pub open spec fn ran_clean(e: MountEvent) -> bool {
    e matches MountEvent::CommandOutput { ran, stderr, .. } && ran && stderr@.len() == 0
}

/// `n` continues `m` in phase `p`, every other field unchanged.
pub open spec fn moves_to(m: MountMachine, n: MountMachine, p: MountPhase) -> bool {
    &&& n.phase == p
    &&& n.engine == m.engine
    &&& n.unmounting == m.unmounting
    &&& n.command@ == m.command@
    &&& opt_view(n.temp) == opt_view(m.temp)
    &&& n.layers@ == m.layers@
}

/// The sequence ends in failure.
pub open spec fn fails(m: MountMachine, n: MountMachine, a: MountAction) -> bool {
    moves_to(m, n, MountPhase::Finished) && a is Failed
}

pub open spec fn fails_with_config(m: MountMachine, n: MountMachine, a: MountAction) -> bool {
    fails(m, n, a) && a->Failed_0 is ConfigurationError
}

/// The read-only layers below the writable one for a mount.
pub open spec fn lower_layers(m: MountMachine, cfg: VFSMountConfig, present: Seq<bool>) -> Seq<Seq<char>> {
    let sources = cfg.paths.sources.deep_view();
    if m.engine == MountEngine::UnionFSFuse {
        if cfg.should_overlay_target {
            kept_descending(sources, present, 0).push(m.temp->0@)
        } else {
            kept_descending(sources, present, 0)
        }
    } else {
        kept_descending(sources, present, 0).push(cfg.paths.target@)
    }
}

/// The open-file option of an engine.
pub open spec fn max_files_of(engine: MountEngine) -> Seq<char> {
    if engine == MountEngine::UnionFSFuse {
        FUSE_MAX_FILES@
    } else {
        UNIONFS_MAX_FILES@
    }
}

/// The action that runs the mount executable with the stored layers.
pub open spec fn runs_mount(n: MountMachine, cfg: VFSMountConfig, a: MountAction) -> bool {
    a matches MountAction::RunMount { command, args } && command@ == n.command@ && args.deep_view()
        == mount_args_of(max_files_of(n.engine), n.layers@, cfg.paths.target@)
}

/// `n` continues `m` in phase `p` with the executable `c`, every other field unchanged.
pub open spec fn moves_with_command(m: MountMachine, n: MountMachine, p: MountPhase, c: Seq<char>) -> bool {
    &&& n.phase == p
    &&& n.engine == m.engine
    &&& n.unmounting == m.unmounting
    &&& n.command@ == c
    &&& opt_view(n.temp) == opt_view(m.temp)
    &&& n.layers@ == m.layers@
}

/// The first step of a sequence.
pub open spec fn start_step(m: MountMachine, cfg: VFSMountConfig, n: MountMachine, a: MountAction) -> bool {
    if m.unmounting {
        if m.engine == MountEngine::UnionFSFuse && cfg.should_overlay_target && temp_folder_of(
            cfg.paths.target@,
        ) is None {
            fails_with_config(m, n, a)
        } else {
            &&& n.phase == MountPhase::Unmounting
            &&& n.engine == m.engine && n.unmounting == m.unmounting
            &&& n.command@ == m.command@ && n.layers@ == m.layers@
            &&& opt_view(n.temp) == temp_folder_of(cfg.paths.target@)
            &&& a matches MountAction::RunUnmount { target } && target@ == cfg.paths.target@
        }
    } else if m.engine == MountEngine::UnionFSFuse {
        match configured_command(cfg) {
            Some(c) => {
                &&& moves_with_command(m, n, MountPhase::CheckVersion, c)
                &&& a matches MountAction::RunVersion { command } && command@ == c
            },
            None => {
                &&& moves_to(m, n, MountPhase::ProbeUnionfs)
                &&& a matches MountAction::RunVersion { command } && command@ == "unionfs"@
            },
        }
    } else {
        let c = match cfg.command {
            Some(c) => c@,
            None => "unionfs"@,
        };
        if c.len() == 0 {
            fails_with_config(m, n, a)
        } else {
            &&& moves_with_command(m, n, MountPhase::LocateCommand, c)
            &&& a matches MountAction::LocateCommand { command } && command@ == c
        }
    }
}

/// Probing the two known executables in order.
pub open spec fn probe_step(m: MountMachine, e: MountEvent, n: MountMachine, a: MountAction) -> bool {
    if !(e is CommandOutput) {
        fails_with_config(m, n, a)
    } else if m.phase == MountPhase::ProbeUnionfs {
        if ran_clean(e) {
            &&& moves_with_command(m, n, MountPhase::CheckVersion, "unionfs"@)
            &&& a matches MountAction::RunVersion { command } && command@ == "unionfs"@
        } else {
            &&& moves_to(m, n, MountPhase::ProbeUnionfsFuse)
            &&& a matches MountAction::RunVersion { command } && command@ == "unionfs-fuse"@
        }
    } else {
        if ran_clean(e) {
            &&& moves_with_command(m, n, MountPhase::CheckVersion, "unionfs-fuse"@)
            &&& a matches MountAction::RunVersion { command } && command@ == "unionfs-fuse"@
        } else {
            fails(m, n, a) && a->Failed_0 is EngineNotFound
        }
    }
}

/// The version output lets the mount go on: the run was clean, printed
/// something, and the pattern captured a non-empty version.
pub open spec fn version_accepted(e: MountEvent) -> bool {
    &&& ran_clean(e)
    &&& e->CommandOutput_stdout@.len() > 0
    &&& first_capture(VERSION_REGEX@, e->CommandOutput_stdout@) matches Some(v) && v.len() > 0
}

/// Checking the engine's version (FUSE engine) or its presence (older engine).
pub open spec fn check_step(m: MountMachine, cfg: VFSMountConfig, e: MountEvent, n: MountMachine, a: MountAction) -> bool {
    if !(e is CommandOutput) {
        fails_with_config(m, n, a)
    } else if m.phase == MountPhase::CheckVersion {
        if !ran_clean(e) {
            fails(m, n, a) && a->Failed_0 is EngineNotFound
        } else if !version_accepted(e) {
            fails(m, n, a) && a->Failed_0 is EngineVersionUnparseable
        } else if temp_folder_of(cfg.paths.target@) is None {
            fails_with_config(m, n, a)
        } else {
            &&& n.phase == MountPhase::Inspect
            &&& n.engine == m.engine && n.unmounting == m.unmounting
            &&& n.command@ == m.command@ && n.layers@ == m.layers@
            &&& opt_view(n.temp) == temp_folder_of(cfg.paths.target@)
            &&& a matches MountAction::InspectPaths { temp, sources } && opt_view(temp)
                == temp_folder_of(cfg.paths.target@) && sources.deep_view()
                == cfg.paths.sources.deep_view()
        }
    } else {
        if !ran_clean(e) || e->CommandOutput_stdout@.len() == 0 {
            fails(m, n, a) && a->Failed_0 is EngineNotFound
        } else {
            &&& moves_to(m, n, MountPhase::Inspect)
            &&& a matches MountAction::InspectPaths { temp, sources } && temp is None
                && sources.deep_view() == cfg.paths.sources.deep_view()
        }
    }
}

/// A previous session already moved the target's content aside.
pub open spec fn swap_already_done(e: MountEvent) -> bool {
    e->PathsInspected_temp_exists && e->PathsInspected_temp_empty == Ok::<bool, String>(false)
}

/// Deciding, from what exists on disk, whether to move the target aside.
pub open spec fn inspect_step(m: MountMachine, cfg: VFSMountConfig, e: MountEvent, n: MountMachine, a: MountAction) -> bool {
    if !(e is PathsInspected) {
        fails_with_config(m, n, a)
    } else if m.engine == MountEngine::UnionFSFuse && e->PathsInspected_temp_exists
        && e->PathsInspected_temp_empty is Err {
        fails(m, n, a) && (a->Failed_0 matches VfsError::FilesystemError { path, .. } && opt_view(
            Some(path),
        ) == opt_view(m.temp))
    } else {
        let present = e->PathsInspected_sources_exist@;
        &&& n.engine == m.engine && n.unmounting == m.unmounting
        &&& n.command@ == m.command@ && opt_view(n.temp) == opt_view(m.temp)
        &&& n.layers@ == layer_string(cfg.paths.overwrite@, lower_layers(m, cfg, present))
        &&& if m.engine == MountEngine::UnionFSFuse && cfg.should_overlay_target
            && !swap_already_done(e) {
            &&& n.phase == MountPhase::MoveTarget
            &&& a matches MountAction::MoveFolder { from, to } && from@ == cfg.paths.target@
                && opt_view(Some(to)) == opt_view(m.temp)
        } else {
            &&& n.phase == MountPhase::Mounting
            &&& runs_mount(n, cfg, a)
        }
    }
}

/// Moving the target aside and recreating it empty, with pauses between.
pub open spec fn swap_step(m: MountMachine, cfg: VFSMountConfig, e: MountEvent, n: MountMachine, a: MountAction) -> bool {
    if !(e is StepDone) {
        fails_with_config(m, n, a)
    } else if m.phase == MountPhase::MoveTarget || m.phase == MountPhase::CreateTarget {
        if e->StepDone_0 is Err {
            fails(m, n, a) && (a->Failed_0 matches VfsError::FilesystemError { path, .. } && path@
                == cfg.paths.target@)
        } else {
            &&& moves_to(
                m,
                n,
                if m.phase == MountPhase::MoveTarget {
                    MountPhase::SettleAfterMove
                } else {
                    MountPhase::SettleAfterCreate
                },
            )
            &&& a == MountAction::Settle { millis: 300 }
        }
    } else if m.phase == MountPhase::SettleAfterMove {
        &&& moves_to(m, n, MountPhase::CreateTarget)
        &&& a matches MountAction::CreateFolder { path } && path@ == cfg.paths.target@
    } else {
        &&& moves_to(m, n, MountPhase::Mounting)
        &&& runs_mount(n, cfg, a)
    }
}

/// Running the mount executable: success is an empty error stream.
pub open spec fn mount_step(m: MountMachine, cfg: VFSMountConfig, e: MountEvent, n: MountMachine, a: MountAction) -> bool {
    if !(e is CommandOutput) {
        fails_with_config(m, n, a)
    } else if ran_clean(e) {
        &&& moves_to(m, n, MountPhase::Finished)
        &&& a matches MountAction::Mounted(st) && st.mounted && st.mount_name@ == cfg.mount_name@
            && st.target@ == cfg.paths.target@ && opt_view(st.temp_original) == (if m.engine
            == MountEngine::UnionFSFuse && cfg.should_overlay_target {
            opt_view(m.temp)
        } else {
            None
        })
    } else {
        fails(m, n, a) && (a->Failed_0 matches VfsError::MountFailed(msg) && (e->CommandOutput_ran
            ==> msg@ == e->CommandOutput_stderr@))
    }
}

/// The unmount command reported that the target was not mounted.
pub open spec fn not_mounted_reported(e: MountEvent) -> bool {
    e->UnmountOutput_ran && !e->UnmountOutput_success && e->UnmountOutput_stderr@.len() > 0
        && occurs_in("not mounted"@, e->UnmountOutput_stderr@)
}

/// The target's original content is to be put back after the unmount.
pub open spec fn restores_target(m: MountMachine, cfg: VFSMountConfig) -> bool {
    m.engine == MountEngine::UnionFSFuse && cfg.should_overlay_target
}

/// Unmounting, then putting the target's original content back.
pub open spec fn unmount_step(m: MountMachine, cfg: VFSMountConfig, e: MountEvent, n: MountMachine, a: MountAction) -> bool {
    if m.phase == MountPhase::Unmounting {
        if !(e is UnmountOutput) {
            fails_with_config(m, n, a)
        } else if not_mounted_reported(e) {
            moves_to(m, n, MountPhase::Finished) && a is Unmounted
        } else if !e->UnmountOutput_ran || !e->UnmountOutput_success {
            fails(m, n, a) && a->Failed_0 is UnmountFailed
        } else {
            moves_to(m, n, MountPhase::SettleAfterUnmount) && a == MountAction::Settle { millis: 100 }
        }
    } else if !(e is StepDone) {
        fails_with_config(m, n, a)
    } else if m.phase == MountPhase::SettleAfterUnmount {
        if restores_target(m, cfg) {
            &&& moves_to(m, n, MountPhase::RemoveTarget)
            &&& a matches MountAction::RemoveEmptyFolder { path } && path@ == cfg.paths.target@
        } else {
            moves_to(m, n, MountPhase::Finished) && a is Unmounted
        }
    } else if e->StepDone_0 is Err {
        fails(m, n, a) && a->Failed_0 is RestoreFailed
    } else if m.phase == MountPhase::RemoveTarget {
        &&& moves_to(m, n, MountPhase::RestoreTarget)
        &&& a matches MountAction::MoveFolder { from, to } && opt_view(Some(from)) == opt_view(m.temp)
            && to@ == cfg.paths.target@
    } else {
        moves_to(m, n, MountPhase::Finished) && a is Unmounted
    }
}

/// One transition of the machine.
pub open spec fn step_spec(m: MountMachine, cfg: VFSMountConfig, e: MountEvent, n: MountMachine, a: MountAction) -> bool {
    match m.phase {
        MountPhase::Start => start_step(m, cfg, n, a),
        MountPhase::ProbeUnionfs | MountPhase::ProbeUnionfsFuse => probe_step(m, e, n, a),
        MountPhase::LocateCommand | MountPhase::CheckVersion => check_step(m, cfg, e, n, a),
        MountPhase::Inspect => inspect_step(m, cfg, e, n, a),
        MountPhase::MoveTarget | MountPhase::SettleAfterMove | MountPhase::CreateTarget
        | MountPhase::SettleAfterCreate => swap_step(m, cfg, e, n, a),
        MountPhase::Mounting => mount_step(m, cfg, e, n, a),
        MountPhase::Unmounting | MountPhase::SettleAfterUnmount | MountPhase::RemoveTarget
        | MountPhase::RestoreTarget => unmount_step(m, cfg, e, n, a),
        MountPhase::Finished => fails_with_config(m, n, a),
    }
}

/// The machine's phases agree with its direction and its stored fields.
pub open spec fn machine_wf(m: MountMachine, cfg: VFSMountConfig) -> bool {
    &&& m.unmounting ==> (m.phase == MountPhase::Start || m.phase == MountPhase::Unmounting
        || m.phase == MountPhase::SettleAfterUnmount || m.phase == MountPhase::RemoveTarget
        || m.phase == MountPhase::RestoreTarget || m.phase == MountPhase::Finished)
    &&& !m.unmounting ==> !(m.phase == MountPhase::Unmounting || m.phase == MountPhase::SettleAfterUnmount
        || m.phase == MountPhase::RemoveTarget || m.phase == MountPhase::RestoreTarget)
    &&& m.engine == MountEngine::UnionFS ==> !(m.phase == MountPhase::ProbeUnionfs || m.phase == MountPhase::ProbeUnionfsFuse
        || m.phase == MountPhase::CheckVersion || m.phase == MountPhase::MoveTarget
        || m.phase == MountPhase::SettleAfterMove || m.phase == MountPhase::CreateTarget
        || m.phase == MountPhase::SettleAfterCreate)
    &&& m.engine == MountEngine::UnionFSFuse ==> m.phase != MountPhase::LocateCommand
    &&& (m.engine == MountEngine::UnionFSFuse && (m.phase == MountPhase::Inspect || m.phase
        == MountPhase::MoveTarget || m.phase == MountPhase::SettleAfterMove || m.phase
        == MountPhase::CreateTarget || m.phase == MountPhase::SettleAfterCreate || m.phase
        == MountPhase::Mounting)) ==> m.temp is Some
    &&& (m.phase == MountPhase::RemoveTarget || m.phase == MountPhase::RestoreTarget) ==> restores_target(m, cfg)
    &&& (restores_target(m, cfg) && (m.phase == MountPhase::Unmounting || m.phase
        == MountPhase::SettleAfterUnmount || m.phase == MountPhase::RemoveTarget || m.phase
        == MountPhase::RestoreTarget)) ==> m.temp is Some
}

fn text(s: &str) -> (r: String)
    ensures
        r@ == s@,
{
    String::from_str(s)
}

impl MountMachine {
    /// A sequence that has not begun.
    pub fn new(engine: MountEngine, unmounting: bool) -> (r: Self)
        ensures
            r.engine == engine,
            r.unmounting == unmounting,
            r.phase == MountPhase::Start,
            r.temp is None,
    {
        MountMachine { engine, unmounting, phase: MountPhase::Start, command: String::new(), temp: None, layers: String::new() }
    }

    fn fail(&mut self, err: VfsError) -> (a: MountAction)
        ensures
            moves_to(*old(self), *final(self), MountPhase::Finished),
            a == MountAction::Failed(err),
    {
        self.phase = MountPhase::Finished;
        MountAction::Failed(err)
    }

    fn unexpected(&mut self) -> (a: MountAction)
        ensures
            fails_with_config(*old(self), *final(self), a),
    {
        self.fail(VfsError::ConfigurationError(text("unexpected event for this step of the mount sequence")))
    }

    fn run_mount(&self, cfg: &VFSMountConfig) -> (a: MountAction)
        ensures
            runs_mount(*self, *cfg, a),
    {
        let max_files = if self.engine == MountEngine::UnionFSFuse {
            FUSE_MAX_FILES
        } else {
            UNIONFS_MAX_FILES
        };
        MountAction::RunMount {
            command: self.command.clone(),
            args: mount_args(max_files, self.layers.as_str(), cfg.paths.target.as_str()),
        }
    }

    fn start(&mut self, cfg: &VFSMountConfig) -> (a: MountAction)
        requires
            old(self).phase == MountPhase::Start,
            machine_wf(*old(self), *cfg),
            cfg.paths.target@.len() < i64::MAX,
        ensures
            start_step(*old(self), *cfg, *final(self), a),
            machine_wf(*final(self), *cfg),
    {
        if self.unmounting {
            let temp = temp_folder_for(cfg.paths.target.as_str());
            if self.engine == MountEngine::UnionFSFuse && cfg.should_overlay_target && temp.is_none() {
                return self.fail(VfsError::ConfigurationError(text("the unmount target has no folder name")));
            }
            self.temp = temp;
            self.phase = MountPhase::Unmounting;
            return MountAction::RunUnmount { target: cfg.paths.target.clone() };
        }
        if self.engine == MountEngine::UnionFSFuse {
            match &cfg.command {
                Some(c) if c.unicode_len() > 0 => {
                    self.command = c.clone();
                    self.phase = MountPhase::CheckVersion;
                    MountAction::RunVersion { command: c.clone() }
                },
                _ => {
                    self.phase = MountPhase::ProbeUnionfs;
                    MountAction::RunVersion { command: text("unionfs") }
                },
            }
        } else {
            let c = match &cfg.command {
                Some(c) => c.clone(),
                None => text("unionfs"),
            };
            if c.unicode_len() == 0 {
                return self.fail(VfsError::ConfigurationError(text("Invalid command provided, cannot be empty string!")));
            }
            self.command = c.clone();
            self.phase = MountPhase::LocateCommand;
            MountAction::LocateCommand { command: c }
        }
    }

    fn probe(&mut self, event: &MountEvent) -> (a: MountAction)
        requires
            old(self).phase == MountPhase::ProbeUnionfs || old(self).phase == MountPhase::ProbeUnionfsFuse,
        ensures
            probe_step(*old(self), *event, *final(self), a),
    {
        let clean = match event {
            MountEvent::CommandOutput { ran, stderr, .. } => *ran && stderr.unicode_len() == 0,
            _ => return self.unexpected(),
        };
        if self.phase == MountPhase::ProbeUnionfs {
            if clean {
                self.command = text("unionfs");
                self.phase = MountPhase::CheckVersion;
                MountAction::RunVersion { command: text("unionfs") }
            } else {
                self.phase = MountPhase::ProbeUnionfsFuse;
                MountAction::RunVersion { command: text("unionfs-fuse") }
            }
        } else if clean {
            self.command = text("unionfs-fuse");
            self.phase = MountPhase::CheckVersion;
            MountAction::RunVersion { command: text("unionfs-fuse") }
        } else {
            self.fail(VfsError::EngineNotFound(text("No command provided and neither of \"unionfs\" or \"unionfs-fuse\" were found.")))
        }
    }

    fn check(&mut self, cfg: &VFSMountConfig, event: &MountEvent) -> (a: MountAction)
        requires
            old(self).phase == MountPhase::CheckVersion || old(self).phase == MountPhase::LocateCommand,
            old(self).phase == MountPhase::LocateCommand ==> old(self).engine == MountEngine::UnionFS,
            cfg.paths.target@.len() < i64::MAX,
        ensures
            check_step(*old(self), *cfg, *event, *final(self), a),
            final(self).phase == MountPhase::Inspect && old(self).engine == MountEngine::UnionFSFuse ==> final(self).temp is Some,
    {
        let (clean, stdout) = match event {
            MountEvent::CommandOutput { ran, stdout, stderr } => (*ran && stderr.unicode_len() == 0, stdout),
            _ => return self.unexpected(),
        };
        if !clean {
            return self.fail(VfsError::EngineNotFound(text("the mount executable could not be run")));
        }
        if self.phase == MountPhase::LocateCommand {
            if stdout.unicode_len() == 0 {
                return self.fail(VfsError::EngineNotFound(text("the mount executable was not found")));
            }
            self.phase = MountPhase::Inspect;
            return MountAction::InspectPaths { temp: None, sources: cfg.paths.sources.clone() };
        }
        let version = capture_first_group(VERSION_REGEX, stdout.as_str());
        if stdout.unicode_len() == 0 || !accept_version(&version) {
            return self.fail(VfsError::EngineVersionUnparseable(stdout.clone()));
        }
        let temp = temp_folder_for(cfg.paths.target.as_str());
        match temp {
            Some(t) => {
                self.temp = Some(t.clone());
                self.phase = MountPhase::Inspect;
                MountAction::InspectPaths { temp: Some(t), sources: cfg.paths.sources.clone() }
            },
            None => self.fail(VfsError::ConfigurationError(text("the mount target has no folder name"))),
        }
    }

    fn inspect(&mut self, cfg: &VFSMountConfig, event: &MountEvent) -> (a: MountAction)
        requires
            old(self).phase == MountPhase::Inspect,
            old(self).engine == MountEngine::UnionFSFuse ==> old(self).temp is Some,
        ensures
            inspect_step(*old(self), *cfg, *event, *final(self), a),
    {
        let (temp_exists, temp_empty, present) = match event {
            MountEvent::PathsInspected { temp_exists, temp_empty, sources_exist } => (*temp_exists, temp_empty, sources_exist),
            _ => return self.unexpected(),
        };
        let fuse = self.engine == MountEngine::UnionFSFuse;
        let mut swapped = false;
        if fuse && temp_exists {
            match temp_empty {
                Err(msg) => {
                    let path = match &self.temp {
                        Some(t) => t.clone(),
                        None => String::new(),
                    };
                    return self.fail(VfsError::FilesystemError { path, message: msg.clone() });
                },
                Ok(empty) => {
                    swapped = !*empty;
                },
            }
        }
        proof {
            if fuse && temp_exists {
                assert(swapped == swap_already_done(*event));
            }
        }
        let mut lower = select_descending(&cfg.paths.sources, present);
        let ghost kept = lower.deep_view();
        if fuse {
            if cfg.should_overlay_target {
                match &self.temp {
                    Some(t) => lower.push(t.clone()),
                    None => {},
                }
            }
        } else {
            lower.push(cfg.paths.target.clone());
        }
        proof {
            assert(lower.deep_view() =~= lower_layers(*old(self), *cfg, present@));
        }
        self.layers = build_layers(cfg.paths.overwrite.as_str(), &lower);
        if fuse && cfg.should_overlay_target && !swapped {
            let to = match &self.temp {
                Some(t) => t.clone(),
                None => String::new(),
            };
            self.phase = MountPhase::MoveTarget;
            MountAction::MoveFolder { from: cfg.paths.target.clone(), to }
        } else {
            self.phase = MountPhase::Mounting;
            self.run_mount(cfg)
        }
    }

    fn swap(&mut self, cfg: &VFSMountConfig, event: &MountEvent) -> (a: MountAction)
        requires
            old(self).phase == MountPhase::MoveTarget || old(self).phase == MountPhase::SettleAfterMove
                || old(self).phase == MountPhase::CreateTarget || old(self).phase == MountPhase::SettleAfterCreate,
        ensures
            swap_step(*old(self), *cfg, *event, *final(self), a),
    {
        let done = match event {
            MountEvent::StepDone(r) => r,
            _ => return self.unexpected(),
        };
        if self.phase == MountPhase::MoveTarget || self.phase == MountPhase::CreateTarget {
            match done {
                Err(msg) => {
                    return self.fail(VfsError::FilesystemError { path: cfg.paths.target.clone(), message: msg.clone() });
                },
                Ok(()) => {},
            }
            self.phase = if self.phase == MountPhase::MoveTarget {
                MountPhase::SettleAfterMove
            } else {
                MountPhase::SettleAfterCreate
            };
            MountAction::Settle { millis: 300 }
        } else if self.phase == MountPhase::SettleAfterMove {
            self.phase = MountPhase::CreateTarget;
            MountAction::CreateFolder { path: cfg.paths.target.clone() }
        } else {
            self.phase = MountPhase::Mounting;
            self.run_mount(cfg)
        }
    }

    fn finish_mount(&mut self, cfg: &VFSMountConfig, event: &MountEvent) -> (a: MountAction)
        requires
            old(self).phase == MountPhase::Mounting,
        ensures
            mount_step(*old(self), *cfg, *event, *final(self), a),
    {
        let (ran, stderr) = match event {
            MountEvent::CommandOutput { ran, stderr, .. } => (*ran, stderr),
            _ => return self.unexpected(),
        };
        if !ran {
            return self.fail(VfsError::MountFailed(text("the mount executable could not be started")));
        }
        if stderr.unicode_len() > 0 {
            return self.fail(VfsError::MountFailed(stderr.clone()));
        }
        let temp_original = if self.engine == MountEngine::UnionFSFuse && cfg.should_overlay_target {
            match &self.temp {
                Some(t) => Some(t.clone()),
                None => None,
            }
        } else {
            None
        };
        self.phase = MountPhase::Finished;
        MountAction::Mounted(
            MountState {
                mounted: true,
                mount_name: cfg.mount_name.clone(),
                target: cfg.paths.target.clone(),
                temp_original,
            },
        )
    }

    fn unmount(&mut self, cfg: &VFSMountConfig, event: &MountEvent) -> (a: MountAction)
        requires
            old(self).phase == MountPhase::Unmounting || old(self).phase == MountPhase::SettleAfterUnmount
                || old(self).phase == MountPhase::RemoveTarget || old(self).phase == MountPhase::RestoreTarget,
            restores_target(*old(self), *cfg) ==> old(self).temp is Some,
            old(self).phase == MountPhase::RemoveTarget || old(self).phase == MountPhase::RestoreTarget
                ==> restores_target(*old(self), *cfg),
        ensures
            unmount_step(*old(self), *cfg, *event, *final(self), a),
    {
        if self.phase == MountPhase::Unmounting {
            let (ran, success, stderr) = match event {
                MountEvent::UnmountOutput { ran, success, stderr } => (*ran, *success, stderr),
                _ => return self.unexpected(),
            };
            if ran && !success && stderr.unicode_len() > 0 && contains_text(stderr.as_str(), "not mounted") {
                self.phase = MountPhase::Finished;
                return MountAction::Unmounted;
            }
            if !ran {
                return self.fail(VfsError::UnmountFailed(text("the unmount command could not be started")));
            }
            if !success {
                return self.fail(VfsError::UnmountFailed(stderr.clone()));
            }
            self.phase = MountPhase::SettleAfterUnmount;
            return MountAction::Settle { millis: 100 };
        }
        let done = match event {
            MountEvent::StepDone(r) => r,
            _ => return self.unexpected(),
        };
        if self.phase == MountPhase::SettleAfterUnmount {
            if self.engine == MountEngine::UnionFSFuse && cfg.should_overlay_target {
                self.phase = MountPhase::RemoveTarget;
                return MountAction::RemoveEmptyFolder { path: cfg.paths.target.clone() };
            }
            self.phase = MountPhase::Finished;
            return MountAction::Unmounted;
        }
        match done {
            Err(msg) => {
                return self.fail(VfsError::RestoreFailed(msg.clone()));
            },
            Ok(()) => {},
        }
        if self.phase == MountPhase::RemoveTarget {
            let from = match &self.temp {
                Some(t) => t.clone(),
                None => String::new(),
            };
            self.phase = MountPhase::RestoreTarget;
            MountAction::MoveFolder { from, to: cfg.paths.target.clone() }
        } else {
            self.phase = MountPhase::Finished;
            MountAction::Unmounted
        }
    }

    /// Takes the outcome of the last action and returns the next action.
    pub fn step(&mut self, cfg: &VFSMountConfig, event: MountEvent) -> (a: MountAction)
        requires
            machine_wf(*old(self), *cfg),
            cfg.paths.target@.len() < i64::MAX,
        ensures
            step_spec(*old(self), *cfg, event, *final(self), a),
            machine_wf(*final(self), *cfg),
    {
        match self.phase {
            MountPhase::Start => self.start(cfg),
            MountPhase::ProbeUnionfs | MountPhase::ProbeUnionfsFuse => self.probe(&event),
            MountPhase::LocateCommand | MountPhase::CheckVersion => self.check(cfg, &event),
            MountPhase::Inspect => self.inspect(cfg, &event),
            MountPhase::MoveTarget | MountPhase::SettleAfterMove | MountPhase::CreateTarget
            | MountPhase::SettleAfterCreate => self.swap(cfg, &event),
            MountPhase::Mounting => self.finish_mount(cfg, &event),
            MountPhase::Unmounting | MountPhase::SettleAfterUnmount | MountPhase::RemoveTarget
            | MountPhase::RestoreTarget => self.unmount(cfg, &event),
            MountPhase::Finished => self.unexpected(),
        }
    }
}

/// A mount that finds the target's original content already parked aside by
/// an earlier session leaves it there and runs the mount executable next.
pub proof fn lemma_dirty_target_skips_swap(
    m: MountMachine,
    cfg: VFSMountConfig,
    e: MountEvent,
    n: MountMachine,
    a: MountAction,
)
    requires
        m.phase == MountPhase::Inspect,
        e is PathsInspected,
        swap_already_done(e),
        step_spec(m, cfg, e, n, a),
    ensures
        n.phase == MountPhase::Mounting,
        a is RunMount,
        runs_mount(n, cfg, a),
{
}

/// An unmount whose command reports that the target is not mounted succeeds,
/// and touches nothing on disk: unmounting an unmounted target succeeds again.
pub proof fn lemma_unmount_not_mounted_succeeds(
    m: MountMachine,
    cfg: VFSMountConfig,
    e: MountEvent,
    n: MountMachine,
    a: MountAction,
)
    requires
        m.phase == MountPhase::Unmounting,
        e matches MountEvent::UnmountOutput { ran, success, stderr } && ran && !success
            && stderr@.len() > 0 && occurs_in("not mounted"@, stderr@),
        step_spec(m, cfg, e, n, a),
    ensures
        n.phase == MountPhase::Finished,
        a is Unmounted,
{
}

} // verus!
