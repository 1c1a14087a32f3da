//! Single-instance protocol of the tray host and the GUI: named mutexes, the
//! acquisition retry loop and the polling waits, as state machines that the
//! caller drives with the results of the Win32 calls.
use vstd::prelude::*;

use crate::win32::wide::{wide_null, wide_null_spec};

verus! {

/// Name of the tray host's singleton mutex.
pub const TRAY_MUTEX_NAME: &'static str = "MemoryCleanr_Tray_{B8F3A7E2-4C1D-4F5A-9B6E-2D8C3F7A1E9B}";

/// Name of the GUI's singleton mutex.
pub const GUI_MUTEX_NAME: &'static str = "MemoryCleanr_Gui_{C9F4B8F3-5D2E-4A6C-8C7F-3E9D4A2B1F0C}";

/// Attempts the tray host makes to take its mutex.
pub const TRAY_STARTUP_RETRIES: u32 = 30;

/// How long a launcher waits for the tray host to appear.
pub const TRAY_WAIT_MS: u32 = 15000;

/// How long the tray host waits for the GUI to exit.
pub const GUI_EXIT_WAIT_MS: u32 = 5000;

/// Pause between two attempts to take a singleton mutex.
pub const ACQUIRE_RETRY_MS: u32 = 50;

/// Pause between two mutex probes.
pub const MUTEX_POLL_MS: u32 = 50;

/// Pause between two process snapshots.
pub const PROCESS_POLL_MS: u32 = 100;

/// Which singleton a process holds.
#[derive(Clone, Copy, Debug, PartialEq, Eq, Structural)]
pub enum InstanceRole {
    Tray,
    Gui,
}

impl InstanceRole {
    pub open spec fn mutex_name_spec(self) -> Seq<char> {
        match self {
            InstanceRole::Tray => TRAY_MUTEX_NAME@,
            InstanceRole::Gui => GUI_MUTEX_NAME@,
        }
    }

    pub fn mutex_name(self) -> (r: &'static str)
        ensures
            r@ == self.mutex_name_spec(),
    {
        match self {
            InstanceRole::Tray => TRAY_MUTEX_NAME,
            InstanceRole::Gui => GUI_MUTEX_NAME,
        }
    }

    pub open spec fn already_running_spec(self) -> Seq<char> {
        match self {
            InstanceRole::Tray => "Tray host is already running"@,
            InstanceRole::Gui => "GUI is already running"@,
        }
    }

    /// The error reported when another process holds this role's mutex.
    pub fn already_running_message(self) -> (r: &'static str)
        ensures
            r@ == self.already_running_spec(),
    {
        match self {
            InstanceRole::Tray => "Tray host is already running",
            InstanceRole::Gui => "GUI is already running",
        }
    }
}

/// The two roles use different mutexes.
pub proof fn lemma_mutex_names_differ()
    ensures
        InstanceRole::Tray.mutex_name_spec() != InstanceRole::Gui.mutex_name_spec(),
{
    reveal_strlit("MemoryCleanr_Tray_{B8F3A7E2-4C1D-4F5A-9B6E-2D8C3F7A1E9B}");
    reveal_strlit("MemoryCleanr_Gui_{C9F4B8F3-5D2E-4A6C-8C7F-3E9D4A2B1F0C}");
    assert(TRAY_MUTEX_NAME@[13] != GUI_MUTEX_NAME@[13]);
}

/// A mutex name as a NUL-terminated UTF-16 string.
pub fn wide_name(name: &str) -> (r: Vec<u16>)
    ensures
        r@ == wide_null_spec(name@),
{
    wide_null(name)
}

pub fn tray_startup_retry_limit() -> (r: u32)
    ensures
        r == TRAY_STARTUP_RETRIES,
{
    TRAY_STARTUP_RETRIES
}

// ---------------------------------------------------------------------------
// Taking the singleton mutex
// ---------------------------------------------------------------------------

/// What `CreateMutexW` reported.
#[derive(Clone, Copy, Debug, PartialEq, Eq, Structural)]
pub enum CreateOutcome {
    /// The call failed with this Win32 error.
    Failed(u32),
    /// The mutex already existed (`ERROR_ALREADY_EXISTS`): another process holds the role.
    AlreadyExists,
    /// The mutex was created and is now held.
    Created,
}

/// What the acquiring process does next.
#[derive(Clone, Copy, Debug, PartialEq, Eq, Structural)]
pub enum AcquireAction {
    /// Call `CreateMutexW` with the role's name.
    TryCreate,
    /// Close the handle just obtained, sleep this many milliseconds, then try again.
    CloseSleepAndRetry(u32),
    /// Keep the handle: the role is ours.
    Hold,
    /// Give up: the Win32 call failed with this error.
    Failed(u32),
    /// Give up: another process holds the role.
    AlreadyRunning,
}

/// The acquisition of a role's mutex with a bounded number of attempts.
#[derive(Clone, Copy, Debug, PartialEq, Eq, Structural)]
pub struct SingletonAcquire {
    pub role: InstanceRole,
    pub retries: u32,
    /// Attempts made so far.
    pub attempts: u32,
}

impl SingletonAcquire {
    pub open spec fn wf(self) -> bool {
        self.attempts <= self.retries
    }

    pub fn new(role: InstanceRole, retries: u32) -> (r: SingletonAcquire)
        ensures
            r == (SingletonAcquire { role, retries, attempts: 0 }),
            r.wf(),
    {
        SingletonAcquire { role, retries, attempts: 0 }
    }

    /// The first step: with no attempt allowed the role counts as taken.
    pub fn begin(&self) -> (r: AcquireAction)
        requires
            self.wf(),
        ensures
            self.attempts < self.retries ==> r == AcquireAction::TryCreate,
            self.attempts >= self.retries ==> r == AcquireAction::AlreadyRunning,
    {
        if self.attempts < self.retries {
            AcquireAction::TryCreate
        } else {
            AcquireAction::AlreadyRunning
        }
    }

    /// The step after an attempt: a created mutex is held, an existing one
    /// leads to another attempt while attempts remain, a failure ends the loop.
    pub fn after_create(&mut self, outcome: CreateOutcome) -> (r: AcquireAction)
        requires
            old(self).wf(),
            old(self).attempts < old(self).retries,
        ensures
            final(self).wf(),
            final(self).role == old(self).role,
            final(self).retries == old(self).retries,
            final(self).attempts == old(self).attempts + 1,
            outcome == CreateOutcome::Created ==> r == AcquireAction::Hold,
            outcome matches CreateOutcome::Failed(e) ==> r == AcquireAction::Failed(e),
            outcome == CreateOutcome::AlreadyExists && old(self).attempts + 1 < old(self).retries
                ==> r == AcquireAction::CloseSleepAndRetry(ACQUIRE_RETRY_MS),
            outcome == CreateOutcome::AlreadyExists && old(self).attempts + 1 >= old(self).retries
                ==> r == AcquireAction::AlreadyRunning,
    {
        self.attempts = self.attempts + 1;
        match outcome {
            CreateOutcome::Created => AcquireAction::Hold,
            CreateOutcome::Failed(e) => AcquireAction::Failed(e),
            CreateOutcome::AlreadyExists => {
                if self.attempts < self.retries {
                    AcquireAction::CloseSleepAndRetry(ACQUIRE_RETRY_MS)
                } else {
                    AcquireAction::AlreadyRunning
                }
            },
        }
    }
}

/// Acquire the tray singleton. Retries briefly so a dying tray host can release the mutex.
pub fn ensure_tray_singleton() -> (r: SingletonAcquire)
    ensures
        r == (SingletonAcquire { role: InstanceRole::Tray, retries: TRAY_STARTUP_RETRIES, attempts: 0 }),
{
    SingletonAcquire::new(InstanceRole::Tray, TRAY_STARTUP_RETRIES)
}

/// Acquire the GUI singleton. Only one GUI process may run at a time.
pub fn ensure_gui_singleton() -> (r: SingletonAcquire)
    ensures
        r == (SingletonAcquire { role: InstanceRole::Gui, retries: 1, attempts: 0 }),
{
    SingletonAcquire::new(InstanceRole::Gui, 1)
}

/// The number of `CreateMutexW` calls is bounded by the retry limit: every
/// attempt is counted, and an attempt is only asked for while attempts remain.
pub proof fn lemma_acquire_attempts_bounded(s: SingletonAcquire)
    requires
        s.wf(),
    ensures
        s.attempts <= s.retries,
{
}

// ---------------------------------------------------------------------------
// Polling waits
// ---------------------------------------------------------------------------

/// What the waiting process does next.
#[derive(Clone, Copy, Debug, PartialEq, Eq, Structural)]
pub enum PollAction {
    /// Probe the condition now.
    Check,
    /// Sleep this many milliseconds.
    Sleep(u32),
    /// Stop waiting with this answer.
    Done(bool),
}

/// A bounded polling wait: up to `steps` probes, each followed by a sleep when
/// it fails, then (when `final_check`) one last probe whose answer is the result.
#[derive(Clone, Copy, Debug, PartialEq, Eq, Structural)]
pub struct PollWait {
    pub steps: u32,
    pub interval_ms: u32,
    pub final_check: bool,
    /// Probes of the loop still to make.
    pub remaining: u32,
    /// The probe being awaited is the last one.
    pub in_final: bool,
}

impl PollWait {
    pub open spec fn wf(self) -> bool {
        &&& self.remaining <= self.steps
        &&& self.in_final ==> self.final_check && self.remaining == 0
    }

    /// Probes made or still possible: the loop's and the final one.
    pub open spec fn probes_left(self) -> nat {
        self.remaining as nat + if self.final_check && !self.in_final {
            1nat
        } else {
            0nat
        }
    }

    /// A wait of `timeout_ms` probing every `interval_ms`.
    pub fn new(timeout_ms: u32, interval_ms: u32, final_check: bool) -> (r: PollWait)
        requires
            interval_ms > 0,
        ensures
            r.wf(),
            r.steps == timeout_ms / interval_ms,
            r.remaining == r.steps,
            r.interval_ms == interval_ms,
            r.final_check == final_check,
            !r.in_final,
    {
        let steps = timeout_ms / interval_ms;
        PollWait { steps, interval_ms, final_check, remaining: steps, in_final: false }
    }

    /// The first action: probe, unless there is nothing to probe.
    pub fn begin(&mut self) -> (r: PollAction)
        requires
            old(self).wf(),
            !old(self).in_final,
            old(self).remaining == old(self).steps,
        ensures
            final(self).wf(),
            old(self).steps > 0 ==> r == PollAction::Check && *final(self) == *old(self),
            old(self).steps == 0 && old(self).final_check ==> r == PollAction::Check
                && final(self).in_final,
            old(self).steps == 0 && !old(self).final_check ==> r == PollAction::Done(false),
            final(self).steps == old(self).steps && final(self).final_check == old(self).final_check,
    {
        if self.remaining > 0 {
            PollAction::Check
        } else if self.final_check {
            self.in_final = true;
            PollAction::Check
        } else {
            PollAction::Done(false)
        }
    }

    /// The action after a probe: a probe that saw the awaited state ends the
    /// wait with `true`; the final probe's answer is the result; a failed loop
    /// probe is followed by a sleep.
    pub fn probed(&mut self, matched: bool) -> (r: PollAction)
        requires
            old(self).wf(),
            old(self).in_final || old(self).remaining > 0,
        ensures
            final(self).wf(),
            final(self).steps == old(self).steps && final(self).final_check == old(self).final_check,
            final(self).interval_ms == old(self).interval_ms,
            old(self).in_final ==> r == PollAction::Done(matched),
            !old(self).in_final && matched ==> r == PollAction::Done(true),
            !old(self).in_final && !matched ==> r == PollAction::Sleep(old(self).interval_ms)
                && final(self).remaining == old(self).remaining - 1 && !final(self).in_final,
    {
        if self.in_final {
            PollAction::Done(matched)
        } else if matched {
            PollAction::Done(true)
        } else {
            self.remaining = self.remaining - 1;
            PollAction::Sleep(self.interval_ms)
        }
    }

    /// The action after a sleep: probe again while loop probes remain, then
    /// the final probe, or give up with `false`.
    pub fn slept(&mut self) -> (r: PollAction)
        requires
            old(self).wf(),
            !old(self).in_final,
        ensures
            final(self).wf(),
            final(self).steps == old(self).steps && final(self).final_check == old(self).final_check,
            final(self).interval_ms == old(self).interval_ms,
            final(self).remaining == old(self).remaining,
            old(self).remaining > 0 ==> r == PollAction::Check && !final(self).in_final,
            old(self).remaining == 0 && old(self).final_check ==> r == PollAction::Check
                && final(self).in_final,
            old(self).remaining == 0 && !old(self).final_check ==> r == PollAction::Done(false),
    {
        if self.remaining > 0 {
            PollAction::Check
        } else if self.final_check {
            self.in_final = true;
            PollAction::Check
        } else {
            PollAction::Done(false)
        }
    }
}

/// Every probe consumes one of the probes left: a wait makes at most
/// `steps + 1` probes (`steps` without the final one) and then ends.
pub proof fn lemma_probe_consumes(before: PollWait, after: PollWait, matched: bool, r: PollAction)
    requires
        before.wf(),
        before.in_final || before.remaining > 0,
        after.wf(),
        after.steps == before.steps && after.final_check == before.final_check,
        before.in_final ==> r == PollAction::Done(matched),
        !before.in_final && matched ==> r == PollAction::Done(true),
        !before.in_final && !matched ==> r == PollAction::Sleep(before.interval_ms)
            && after.remaining == before.remaining - 1 && !after.in_final,
    ensures
        r is Sleep ==> after.probes_left() + 1 == before.probes_left(),
        before.probes_left() <= before.steps + 1,
{
}

/// Block until no GUI process holds the GUI singleton mutex: probe its
/// absence every 50 ms for `timeout_ms`, then once more.
pub fn wait_for_gui_exit(timeout_ms: u32) -> (r: PollWait)
    ensures
        r.wf(),
        r.steps == timeout_ms / MUTEX_POLL_MS,
        r.remaining == r.steps,
        r.interval_ms == MUTEX_POLL_MS,
        r.final_check,
        !r.in_final,
{
    PollWait::new(timeout_ms, MUTEX_POLL_MS, true)
}

/// Wait until the tray host holds its mutex: probe its presence every 50 ms
/// for `timeout_ms`, then once more (after the ready signal did not come).
pub fn wait_for_tray_host(timeout_ms: u32) -> (r: PollWait)
    ensures
        r.wf(),
        r.steps == timeout_ms / MUTEX_POLL_MS,
        r.remaining == r.steps,
        r.interval_ms == MUTEX_POLL_MS,
        r.final_check,
        !r.in_final,
{
    PollWait::new(timeout_ms, MUTEX_POLL_MS, true)
}

/// Wait until no process with a given name runs: a snapshot every 100 ms, then a last one.
pub fn wait_for_process_exit(timeout_ms: u32) -> (r: PollWait)
    ensures
        r.wf(),
        r.steps == timeout_ms / PROCESS_POLL_MS,
        r.remaining == r.steps,
        r.interval_ms == PROCESS_POLL_MS,
        r.final_check,
        !r.in_final,
{
    PollWait::new(timeout_ms, PROCESS_POLL_MS, true)
}

/// Wait until an elevated copy of this program appears: a snapshot every
/// 100 ms, no last probe.
pub fn wait_for_elevated_relaunch(timeout_ms: u32) -> (r: PollWait)
    ensures
        r.wf(),
        r.steps == timeout_ms / PROCESS_POLL_MS,
        r.remaining == r.steps,
        r.interval_ms == PROCESS_POLL_MS,
        !r.final_check,
        !r.in_final,
{
    PollWait::new(timeout_ms, PROCESS_POLL_MS, false)
}

} // verus!
