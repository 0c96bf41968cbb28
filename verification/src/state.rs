//! Run control shared between a long scan and the commands that steer it.
//!
//! The state machine lives here; the desktop shell keeps one value of it behind
//! a lock, wakes waiting scans after every change and blocks a scan thread for
//! as long as `wait_if_paused_with` answers that it has to wait.
use vstd::prelude::*;

verus! {

#[derive(Debug, Default)]
pub struct ScanControlState {
    pub running: bool,
    pub paused: bool,
    pub cancel_requested: bool,
    pub current: usize,
    pub total: usize,
    pub path: String,
    pub message: String,
    pub phase: String,
    pub directory: String,
}

/// The mathematical value of a scan-control state.
pub struct ScanStateView {
    pub running: bool,
    pub paused: bool,
    pub cancel_requested: bool,
    pub current: nat,
    pub total: nat,
    pub path: Seq<char>,
    pub message: Seq<char>,
    pub phase: Seq<char>,
    pub directory: Seq<char>,
}

impl View for ScanControlState {
    type V = ScanStateView;

    open spec fn view(&self) -> ScanStateView {
        ScanStateView {
            running: self.running,
            paused: self.paused,
            cancel_requested: self.cancel_requested,
            current: self.current as nat,
            total: self.total as nat,
            path: self.path@,
            message: self.message@,
            phase: self.phase@,
            directory: self.directory@,
        }
    }
}

/// No scan: every flag cleared, every counter and text empty.
pub open spec fn idle_state() -> ScanStateView {
    ScanStateView {
        running: false,
        paused: false,
        cancel_requested: false,
        current: 0,
        total: 0,
        path: Seq::empty(),
        message: Seq::empty(),
        phase: Seq::empty(),
        directory: Seq::empty(),
    }
}

/// A freshly started scan.
pub open spec fn started_state() -> ScanStateView {
    ScanStateView { running: true, ..idle_state() }
}

/// `try_start`: the next state and whether the scan may run.
pub open spec fn start_step(s: ScanStateView) -> (ScanStateView, bool) {
    if s.running {
        (s, false)
    } else {
        (started_state(), true)
    }
}

/// `request_cancel`: only a running scan records the request.
pub open spec fn cancel_step(s: ScanStateView) -> (ScanStateView, bool) {
    if s.running {
        (ScanStateView { cancel_requested: true, ..s }, true)
    } else {
        (s, false)
    }
}

/// Outcome of a pause or resume request: next state, status, running flag
/// and the message shown to the user.
pub struct ControlOutcome {
    pub state: ScanStateView,
    pub status: Seq<char>,
    pub running: bool,
    pub message: Seq<char>,
}

pub open spec fn pause_step(s: ScanStateView) -> ControlOutcome {
    if !s.running {
        ControlOutcome {
            state: s,
            status: "idle"@,
            running: false,
            message: "当前没有正在运行的扫描任务。"@,
        }
    } else if s.cancel_requested {
        ControlOutcome {
            state: s,
            status: "cancelling"@,
            running: true,
            message: "扫描正在取消，暂不能暂停。"@,
        }
    } else if s.paused {
        ControlOutcome { state: s, status: "paused"@, running: true, message: "扫描已暂停。"@ }
    } else {
        ControlOutcome {
            state: ScanStateView { paused: true, ..s },
            status: "pausing"@,
            running: true,
            message: "已请求暂停，当前图片处理完成后暂停。"@,
        }
    }
}

pub open spec fn resume_step(s: ScanStateView) -> ControlOutcome {
    if !s.running {
        ControlOutcome {
            state: s,
            status: "idle"@,
            running: false,
            message: "当前没有暂停中的扫描任务。"@,
        }
    } else if s.cancel_requested {
        ControlOutcome {
            state: s,
            status: "cancelling"@,
            running: true,
            message: "扫描正在取消，不能继续。"@,
        }
    } else if s.paused {
        ControlOutcome {
            state: ScanStateView { paused: false, ..s },
            status: "resumed"@,
            running: true,
            message: "扫描已继续。"@,
        }
    } else {
        ControlOutcome { state: s, status: "running"@, running: true, message: "扫描正在运行。"@ }
    }
}

/// `update_phase_progress`: progress values replaced; an empty phase keeps
/// the previous one.
pub open spec fn progress_step(
    s: ScanStateView,
    current: nat,
    total: nat,
    path: Seq<char>,
    message: Seq<char>,
    phase: Seq<char>,
) -> ScanStateView {
    ScanStateView {
        current,
        total,
        path,
        message,
        phase: if phase.len() == 0 {
            s.phase
        } else {
            phase
        },
        ..s
    }
}

/// A scan that reaches a pause point has to wait while this holds.
pub open spec fn must_wait(s: ScanStateView) -> bool {
    s.running && s.paused && !s.cancel_requested
}

#[derive(Debug, Clone)]
pub struct ScanControlResponse {
    pub status: String,
    pub running: bool,
    pub message: String,
}

#[derive(Debug, Clone)]
pub struct ScanProgressSnapshot {
    pub current: usize,
    pub total: usize,
    pub path: String,
    pub message: String,
    pub phase: String,
    pub directory: String,
    pub running: bool,
}

#[derive(Debug, Clone, Copy)]
pub struct PauseWaitResult {
    pub was_paused: bool,
    pub cancelled: bool,
}

pub struct ScanControl {
    pub state: ScanControlState,
}

fn empty_string() -> (r: String)
    ensures
        r@ == Seq::<char>::empty(),
{
    String::new()
}

fn response(status: &str, running: bool, message: &str) -> (r: ScanControlResponse)
    ensures
        r.status@ == status@,
        r.running == running,
        r.message@ == message@,
{
    ScanControlResponse {
        status: crate::text::owned(status),
        running,
        message: crate::text::owned(message),
    }
}

impl ScanControl {
    pub fn new() -> (r: Self)
        ensures
            r.state@ == idle_state(),
    {
        ScanControl {
            state: ScanControlState {
                running: false,
                paused: false,
                cancel_requested: false,
                current: 0,
                total: 0,
                path: empty_string(),
                message: empty_string(),
                phase: empty_string(),
                directory: empty_string(),
            },
        }
    }

    fn reset(&mut self, running: bool)
        ensures
            final(self).state@ == (ScanStateView { running, ..idle_state() }),
    {
        self.state.running = running;
        self.state.paused = false;
        self.state.cancel_requested = false;
        self.state.current = 0;
        self.state.total = 0;
        self.state.path = empty_string();
        self.state.message = empty_string();
        self.state.phase = empty_string();
        self.state.directory = empty_string();
    }

    /// Claim the control for a new scan; refused while one is running.
    pub fn try_start(&mut self) -> (ok: bool)
        ensures
            (final(self).state@, ok) == start_step(old(self).state@),
    {
        if self.state.running {
            return false;
        }
        self.reset(true);
        true
    }

    /// Release the control and clear every flag and progress value.
    pub fn finish(&mut self)
        ensures
            final(self).state@ == idle_state(),
    {
        self.reset(false);
    }

    /// Ask a running scan to stop; returns whether a scan was running.
    pub fn request_cancel(&mut self) -> (running: bool)
        ensures
            (final(self).state@, running) == cancel_step(old(self).state@),
    {
        let running = self.state.running;
        if running {
            self.state.cancel_requested = true;
        }
        running
    }

    pub fn is_cancelled(&self) -> (b: bool)
        ensures
            b == self.state@.cancel_requested,
    {
        self.state.cancel_requested
    }

    /// Record which directory the running scan belongs to.
    pub fn set_directory(&mut self, directory: &str)
        ensures
            final(self).state@ == (ScanStateView { directory: directory@, ..old(self).state@ }),
    {
        self.state.directory = crate::text::owned(directory);
    }

    pub fn update_progress(&mut self, current: usize, total: usize, path: &str, message: &str)
        ensures
            final(self).state@ == progress_step(old(self).state@, current as nat, total as nat, path@, message@, Seq::empty()),
    {
        proof {
            reveal_strlit("");
        }
        self.update_phase_progress(current, total, path, message, "");
    }

    /// Record progress; an empty phase keeps the previous phase.
    pub fn update_phase_progress(
        &mut self,
        current: usize,
        total: usize,
        path: &str,
        message: &str,
        phase: &str,
    )
        ensures
            final(self).state@ == progress_step(old(self).state@, current as nat, total as nat, path@, message@, phase@),
    {
        self.state.current = current;
        self.state.total = total;
        self.state.path = crate::text::owned(path);
        self.state.message = crate::text::owned(message);
        if !phase.is_empty() {
            self.state.phase = crate::text::owned(phase);
        }
    }

    pub fn snapshot(&self) -> (r: ScanProgressSnapshot)
        ensures
            r.current == self.state.current,
            r.total == self.state.total,
            r.path@ == self.state.path@,
            r.message@ == self.state.message@,
            r.phase@ == self.state.phase@,
            r.directory@ == self.state.directory@,
            r.running == self.state.running,
    {
        ScanProgressSnapshot {
            current: self.state.current,
            total: self.state.total,
            path: self.state.path.clone(),
            message: self.state.message.clone(),
            phase: self.state.phase.clone(),
            directory: self.state.directory.clone(),
            running: self.state.running,
        }
    }

    pub fn request_pause(&mut self) -> (r: ScanControlResponse)
        ensures
            final(self).state@ == pause_step(old(self).state@).state,
            r.status@ == pause_step(old(self).state@).status,
            r.running == pause_step(old(self).state@).running,
            r.message@ == pause_step(old(self).state@).message,
    {
        if !self.state.running {
            response("idle", false, "当前没有正在运行的扫描任务。")
        } else if self.state.cancel_requested {
            response("cancelling", true, "扫描正在取消，暂不能暂停。")
        } else if self.state.paused {
            response("paused", true, "扫描已暂停。")
        } else {
            self.state.paused = true;
            response("pausing", true, "已请求暂停，当前图片处理完成后暂停。")
        }
    }

    pub fn request_resume(&mut self) -> (r: ScanControlResponse)
        ensures
            final(self).state@ == resume_step(old(self).state@).state,
            r.status@ == resume_step(old(self).state@).status,
            r.running == resume_step(old(self).state@).running,
            r.message@ == resume_step(old(self).state@).message,
    {
        if !self.state.running {
            response("idle", false, "当前没有暂停中的扫描任务。")
        } else if self.state.cancel_requested {
            response("cancelling", true, "扫描正在取消，不能继续。")
        } else if self.state.paused {
            self.state.paused = false;
            response("resumed", true, "扫描已继续。")
        } else {
            response("running", true, "扫描正在运行。")
        }
    }

    /// Whether a scan arriving at a pause point finds itself paused; the shell
    /// then reports the snapshot once before it starts waiting.
    pub fn pause_begins(&self) -> (b: bool)
        ensures
            b == must_wait(self.state@),
    {
        self.state.paused && self.state.running && !self.state.cancel_requested
    }

    /// One decision of a scan waiting at a pause point: `None` while it has to
    /// keep waiting, otherwise how the wait ended.
    pub fn wait_if_paused_with(&self, was_paused: bool) -> (r: Option<PauseWaitResult>)
        ensures
            r is None <==> must_wait(self.state@),
            r matches Some(res) ==> (res.was_paused == was_paused && res.cancelled
                == self.state@.cancel_requested),
    {
        if self.state.running && self.state.paused && !self.state.cancel_requested {
            None
        } else {
            Some(PauseWaitResult { was_paused, cancelled: self.state.cancel_requested })
        }
    }
}

/// A second start is refused while a scan runs, and does not disturb it.
pub proof fn law_start_is_exclusive(s: ScanStateView)
    ensures
        start_step(s).1 ==> !start_step(start_step(s).0).1,
        !start_step(start_step(s).0).1,
        start_step(start_step(s).0).0 == start_step(s).0,
{
}

/// A started scan begins unpaused, uncancelled and with no progress.
pub proof fn law_start_resets_flags(s: ScanStateView)
    requires
        !s.running,
    ensures
        start_step(s).1,
        start_step(s).0 == started_state(),
        !start_step(s).0.cancel_requested,
        !start_step(s).0.paused,
{
}

/// After `finish` a new scan can always start, and a cancel request has no
/// running scan to reach.
pub proof fn law_finish_then_start(s: ScanStateView)
    ensures
        start_step(idle_state()).1,
        !cancel_step(idle_state()).1,
        cancel_step(idle_state()).0 == idle_state(),
{
}

/// A cancel request is recorded exactly when a scan runs.
pub proof fn law_cancel_only_when_running(s: ScanStateView)
    ensures
        cancel_step(s).1 == s.running,
        cancel_step(s).0.cancel_requested == (s.cancel_requested || s.running),
{
}

/// Pausing a running scan and resuming it restores the state it had.
pub proof fn law_pause_then_resume(s: ScanStateView)
    requires
        s.running,
        !s.paused,
        !s.cancel_requested,
    ensures
        pause_step(s).status == "pausing"@,
        pause_step(pause_step(s).state).status == "paused"@,
        resume_step(pause_step(s).state).status == "resumed"@,
        resume_step(pause_step(s).state).state == s,
        resume_step(s).status == "running"@,
{
}

/// A paused scan waits until it is resumed or cancelled, and a cancel request
/// always ends the wait.
pub proof fn law_wait_ends_on_resume_or_cancel(s: ScanStateView)
    requires
        must_wait(s),
    ensures
        !must_wait(resume_step(s).state),
        !must_wait(cancel_step(s).0),
        cancel_step(s).0.cancel_requested,
        !must_wait(idle_state()),
{
}

/// Guard of an exclusive training run; hand it back to release the run.
pub struct TrainingGuard {
    _private: (),
}

/// At most one personal-model training runs at a time.
pub struct TrainingControl {
    pub running: bool,
}

impl TrainingControl {
    pub fn new() -> (r: Self)
        ensures
            !r.running,
    {
        TrainingControl { running: false }
    }

    /// Claim the training slot; `None` while another run holds it.
    pub fn try_start(&mut self) -> (r: Option<TrainingGuard>)
        ensures
            r is Some <==> !old(self).running,
            final(self).running,
    {
        if self.running {
            None
        } else {
            self.running = true;
            Some(TrainingGuard { _private: () })
        }
    }

    /// Release the slot held by `guard`.
    pub fn release(&mut self, guard: TrainingGuard)
        ensures
            !final(self).running,
    {
        self.running = false;
    }

    pub fn is_running(&self) -> (b: bool)
        ensures
            b == self.running,
    {
        self.running
    }
}

} // verus!
