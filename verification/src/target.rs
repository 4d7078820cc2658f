//! Which process to watch, and how it is acquired.

use vstd::prelude::*;

verus! {

/// The identifier that the operating system gave to a process. It names the
/// process only while the process lives.
#[derive(Clone, Copy, Debug, PartialEq, Eq, Hash, Structural)]
pub struct ProcessId {
    raw: i32,
}

/// The signed number that an identifier handed out by the operating system
/// stands for: the same 32 bits, read as a signed integer.
pub open spec fn signed_of(id: u32) -> int {
    if id <= i32::MAX {
        id as int
    } else {
        id - 0x1_0000_0000
    }
}

impl ProcessId {
    /// The identifier as a number.
    pub closed spec fn view(&self) -> int {
        self.raw as int
    }

    /// The identifier as the signed number that the operating system's
    /// interfaces take.
    pub fn raw(&self) -> (raw: i32)
        ensures
            raw == self@,
    {
        self.raw
    }

    /// The identifier that a caller supplied, if it can name a process: a
    /// positive number. Anything else is an `InvalidTarget`.
    pub fn attach(raw: i32) -> (pid: Result<ProcessId, WatchError>)
        ensures
            raw >= 1 ==> pid is Ok && pid->Ok_0@ == raw,
            raw < 1 ==> pid == Err::<ProcessId, WatchError>(WatchError::InvalidTarget),
    {
        if raw < 1 {
            Err(WatchError::InvalidTarget)
        } else {
            Ok(ProcessId { raw })
        }
    }

    /// The identifier that the operating system reported for a process it
    /// started or is running.
    pub fn from_os(id: u32) -> (pid: ProcessId)
        ensures
            pid@ == signed_of(id),
    {
        if id <= 0x7fff_ffff {
            ProcessId { raw: id as i32 }
        } else {
            let low: i32 = (id - 0x8000_0000) as i32;
            ProcessId { raw: low + i32::MIN }
        }
    }
}

/// Why a watch could not start. Both are fatal.
#[derive(Clone, Copy, Debug, PartialEq, Eq, Structural)]
pub enum WatchError {
    /// The identifier supplied for the target cannot name a process.
    InvalidTarget,
    /// The command could not be started.
    LaunchFailure,
}

impl WatchError {
    /// The diagnostic shown to the user.
    pub fn message(&self) -> (text: String)
        ensures
            *self == WatchError::InvalidTarget ==> text@ == "Invalid pid"@,
            *self == WatchError::LaunchFailure ==> text@ == "failed to execute process"@,
    {
        match self {
            WatchError::InvalidTarget => String::from_str("Invalid pid"),
            WatchError::LaunchFailure => String::from_str("failed to execute process"),
        }
    }

    /// The status with which the program ends on this error: never zero.
    pub fn exit_code(&self) -> (code: i32)
        ensures
            code == 1,
    {
        1
    }
}

/// How the target is acquired.
#[derive(Clone, Debug, PartialEq, Eq)]
pub enum TargetMode {
    /// Watch the running process with this identifier.
    Attach(i32),
    /// Start this command with these arguments, and watch the child.
    Launch(String, Vec<String>),
    /// Watch the calling process.
    SelfWatch,
}

/// The process to watch, and whether its end has to be waited for while it
/// is watched.
#[derive(Clone, Copy, Debug, PartialEq, Eq, Structural)]
pub struct Target {
    pub pid: ProcessId,
    pub wait_owed: bool,
}

/// What `resolve` returns, as the identifier's number and whether a wait is
/// owed.
///
/// * Attach: the supplied identifier if it is positive, `InvalidTarget` if
///   not; nothing is waited for, and `os_pid` plays no part.
/// * Launch: the child's identifier, with a wait owed; `LaunchFailure` where
///   the operating system started no child.
/// * Self: the caller's own identifier, nothing waited for; `InvalidTarget`
///   where the caller names none.
pub open spec fn resolve_spec(mode: TargetMode, os_pid: Option<u32>) -> Result<
    (int, bool),
    WatchError,
> {
    match mode {
        TargetMode::Attach(raw) => if raw >= 1 {
            Ok((raw as int, false))
        } else {
            Err(WatchError::InvalidTarget)
        },
        TargetMode::Launch(_, _) => match os_pid {
            Some(id) => Ok((signed_of(id), true)),
            None => Err(WatchError::LaunchFailure),
        },
        TargetMode::SelfWatch => match os_pid {
            Some(id) => Ok((signed_of(id), false)),
            None => Err(WatchError::InvalidTarget),
        },
    }
}

/// Resolves a mode to the process to watch.
///
/// `os_pid` is the identifier that the operating system supplied for this
/// mode: the child's after a launch, the caller's own in self mode, and
/// `None` where it supplied none.
pub fn resolve(mode: &TargetMode, os_pid: Option<u32>) -> (target: Result<Target, WatchError>)
    ensures
        match target {
            Ok(t) => resolve_spec(*mode, os_pid) == Ok::<(int, bool), WatchError>(
                (t.pid@, t.wait_owed),
            ),
            Err(e) => resolve_spec(*mode, os_pid) == Err::<(int, bool), WatchError>(e),
        },
{
    match mode {
        TargetMode::Attach(raw) => match ProcessId::attach(*raw) {
            Ok(pid) => Ok(Target { pid, wait_owed: false }),
            Err(e) => Err(e),
        },
        TargetMode::Launch(_, _) => match os_pid {
            Some(id) => Ok(Target { pid: ProcessId::from_os(id), wait_owed: true }),
            None => Err(WatchError::LaunchFailure),
        },
        TargetMode::SelfWatch => match os_pid {
            Some(id) => Ok(Target { pid: ProcessId::from_os(id), wait_owed: false }),
            None => Err(WatchError::InvalidTarget),
        },
    }
}

/// The settings of one watch.
#[derive(Clone, Debug, PartialEq, Eq)]
pub struct WatchConfig {
    mode: TargetMode,
    interval_ms: u64,
    debug: bool,
}

/// The interval at which a watch polls: what was asked for, zero where
/// nothing was, and always zero in self mode.
pub open spec fn poll_interval_spec(mode: TargetMode, interval_ms: Option<u64>) -> u64 {
    match (mode, interval_ms) {
        (TargetMode::SelfWatch, _) => 0,
        (_, Some(ms)) => ms,
        (_, None) => 0,
    }
}

impl WatchConfig {
    /// The mode of acquisition.
    pub closed spec fn spec_mode(&self) -> TargetMode {
        self.mode
    }

    /// The poll interval in milliseconds.
    pub closed spec fn spec_interval_ms(&self) -> u64 {
        self.interval_ms
    }

    /// The debug flag.
    pub closed spec fn spec_debug(&self) -> bool {
        self.debug
    }

    /// The settings for a mode, a poll interval in milliseconds if one was
    /// asked for, and a debug flag.
    pub fn new(mode: TargetMode, interval_ms: Option<u64>, debug: bool) -> (config: WatchConfig)
        ensures
            config.spec_mode() == mode,
            config.spec_interval_ms() == poll_interval_spec(mode, interval_ms),
            config.spec_debug() == debug,
    {
        let interval_ms = match (&mode, interval_ms) {
            (TargetMode::SelfWatch, _) => 0,
            (_, Some(ms)) => ms,
            (_, None) => 0,
        };
        WatchConfig { mode, interval_ms, debug }
    }

    /// The mode of acquisition.
    pub fn mode(&self) -> (mode: &TargetMode)
        ensures
            *mode == self.spec_mode(),
    {
        &self.mode
    }

    /// The poll interval in milliseconds; zero means a single snapshot.
    pub fn interval_ms(&self) -> (interval_ms: u64)
        ensures
            interval_ms == self.spec_interval_ms(),
    {
        self.interval_ms
    }

    /// Whether the watch takes a single snapshot and ends.
    pub fn is_single_shot(&self) -> (single: bool)
        ensures
            single == (self.spec_interval_ms() == 0),
    {
        self.interval_ms == 0
    }

    /// Whether diagnostics were asked for.
    pub fn debug(&self) -> (debug: bool)
        ensures
            debug == self.spec_debug(),
    {
        self.debug
    }
}

} // verus!
