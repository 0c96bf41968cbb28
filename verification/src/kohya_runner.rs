//! The state of a LoRA training run: what the desktop page shows while the
//! trainer runs, once it exits and once it is stopped. The shell owns the
//! process, its output pipes and the clock, and reports each event here, so
//! the page can re-attach to a run after a remount.
use vstd::prelude::*;
use crate::kohya::{epoch_of, loss_of, parse_progress, steps_of};
use crate::text::{concat3, copy_opt, copy_strings, decimal, decimal_string, owned, signed_decimal, signed_decimal_string, trim, trim_str};

verus! {

/// How many lines of trainer output the snapshot keeps.
pub const MAX_LOG_LINES: usize = 400;
pub const PROGRESS_EVENT: &'static str = "kohya://progress";
pub const FINISHED_EVENT: &'static str = "kohya://finished";

/// What the page shows of a run.
#[derive(Debug, Clone)]
pub struct KohyaTrainingSnapshot {
    pub running: bool,
    pub finished: bool,
    pub stopping: bool,
    pub exit_code: Option<i32>,
    pub output_dir: String,
    pub output_name: String,
    pub base_model: String,
    pub dataset_config: String,
    pub log_path: String,
    pub started_at: u64,
    pub elapsed_secs: u64,
    pub epoch: Option<u32>,
    pub step: Option<u32>,
    pub total_steps: Option<u32>,
    /// The last loss, as the text the trainer printed.
    pub loss_text: Option<String>,
    pub message: String,
    pub artifacts: Vec<String>,
    /// The last lines of output, oldest first.
    pub log_tail: Vec<String>,
}

/// Bookkeeping written into the snapshot when a run starts.
#[derive(Debug, Clone)]
pub struct RunMetadata {
    pub output_dir: String,
    pub output_name: String,
    pub base_model: String,
    pub dataset_config: String,
    pub log_path: String,
}

/// The run the page follows.
pub struct KohyaManager {
    pub snapshot: KohyaTrainingSnapshot,
    /// A trainer process is attached to the run.
    pub attached: bool,
    /// The run's clock is on: the shell reports its elapsed time.
    pub timing: bool,
}

/// The snapshot of no run at all.
pub open spec fn is_idle(s: KohyaTrainingSnapshot) -> bool {
    &&& !s.running && !s.finished && !s.stopping
    &&& s.exit_code is None
    &&& s.output_dir@.len() == 0 && s.output_name@.len() == 0 && s.base_model@.len() == 0
    &&& s.dataset_config@.len() == 0 && s.log_path@.len() == 0
    &&& s.started_at == 0 && s.elapsed_secs == 0
    &&& s.epoch is None && s.step is None && s.total_steps is None && s.loss_text is None
    &&& s.message@.len() == 0
    &&& s.artifacts@.len() == 0 && s.log_tail@.len() == 0
}

/// Two snapshots that agree field by field.
pub open spec fn same_snapshot(a: KohyaTrainingSnapshot, b: KohyaTrainingSnapshot) -> bool {
    &&& a.running == b.running && a.finished == b.finished && a.stopping == b.stopping
    &&& a.exit_code == b.exit_code
    &&& a.output_dir == b.output_dir && a.output_name == b.output_name && a.base_model == b.base_model
    &&& a.dataset_config == b.dataset_config && a.log_path == b.log_path
    &&& a.started_at == b.started_at && a.elapsed_secs == b.elapsed_secs
    &&& a.epoch == b.epoch && a.step == b.step && a.total_steps == b.total_steps && a.loss_text == b.loss_text
    &&& a.message == b.message
    &&& a.artifacts@ == b.artifacts@ && a.log_tail@ == b.log_tail@
}

/// The last `MAX_LOG_LINES` lines of `lines`.
pub open spec fn keep_last(lines: Seq<String>) -> Seq<String> {
    if lines.len() > MAX_LOG_LINES {
        lines.subrange(lines.len() - MAX_LOG_LINES, lines.len() as int)
    } else {
        lines
    }
}

pub open spec fn dot_count(s: Seq<char>) -> nat
    decreases s.len(),
{
    if s.len() == 0 {
        0
    } else {
        dot_count(s.drop_last()) + if s.last() == '.' {
            1nat
        } else {
            0nat
        }
    }
}

/// Whether a run of digits and dots reads as a float (`f64::from_str`
/// accepts digits with at most one decimal point, at least one digit).
pub open spec fn reads_as_float(t: Seq<char>) -> bool {
    dot_count(t) <= 1 && exists|i: int| 0 <= i < t.len() && crate::text::is_digit(#[trigger] t[i])
}

fn reads_as_float_exec(t: &str) -> (b: bool)
    ensures
        b == reads_as_float(t@),
{
    let v = crate::text::to_chars(t);
    let mut dots: usize = 0;
    let mut digit = false;
    let mut i: usize = 0;
    while i < v.len()
        invariant
            i <= v@.len(),
            v@ == t@,
            dots as nat == dot_count(v@.subrange(0, i as int)),
            dots <= i,
            digit == exists|k: int| 0 <= k < i && crate::text::is_digit(#[trigger] v@[k]),
        decreases v@.len() - i,
    {
        assert(v@.subrange(0, i + 1).drop_last() =~= v@.subrange(0, i as int));
        if v[i] == '.' {
            dots = dots + 1;
        }
        let c = v[i];
        if '0' <= c && c <= '9' {
            digit = true;
            assert(crate::text::is_digit(v@[i as int]));
        } else {
            assert(!crate::text::is_digit(v@[i as int]));
            assert forall|k: int| 0 <= k < i + 1 && crate::text::is_digit(#[trigger] v@[k]) implies k < i by {}
        }
        i = i + 1;
    }
    assert(v@.subrange(0, v@.len() as int) =~= v@);
    dots <= 1 && digit
}

/// The snapshot after one line of output: the line joins the tail (which
/// keeps the last `MAX_LOG_LINES`), each progress value the line carries
/// replaces the previous one, and a non-blank line becomes the message.
pub open spec fn after_line(old: KohyaTrainingSnapshot, new: KohyaTrainingSnapshot, line: String) -> bool {
    &&& new.log_tail@ == keep_last(old.log_tail@.push(line))
    &&& new.epoch == (if epoch_of(line@) is Some { epoch_of(line@) } else { old.epoch })
    &&& new.step == (match steps_of(line@) {
        Some(p) => Some(p.0),
        None => old.step,
    })
    &&& new.total_steps == (match steps_of(line@) {
        Some(p) => Some(p.1),
        None => old.total_steps,
    })
    &&& (match loss_of(line@) {
        Some(t) => if reads_as_float(t) {
            new.loss_text is Some && new.loss_text->0@ == t
        } else {
            new.loss_text == old.loss_text
        },
        None => new.loss_text == old.loss_text,
    })
    &&& (if trim(line@).len() > 0 { new.message@ == trim(line@) } else { new.message == old.message })
    &&& new.running == old.running && new.finished == old.finished && new.stopping == old.stopping
    &&& new.exit_code == old.exit_code
    &&& new.output_dir == old.output_dir && new.output_name == old.output_name
    &&& new.base_model == old.base_model && new.dataset_config == old.dataset_config
    &&& new.log_path == old.log_path && new.started_at == old.started_at
    &&& new.elapsed_secs == old.elapsed_secs && new.artifacts@ == old.artifacts@
}

/// The message once the trainer exited with `code`.
pub open spec fn exit_message(code: Option<i32>) -> Seq<char> {
    match code {
        Some(0i32) => "训练完成。"@,
        Some(v) => "训练进程退出（退出码 "@ + signed_decimal(v as int) + "），请查看日志。"@,
        None => "训练进程已结束，请查看日志。"@,
    }
}

/// The run once the trainer exited with `code` and `artifacts` lie in the
/// output folder: without an attached trainer nothing changes and nothing is
/// reported; otherwise the run is finished, detached, and its final
/// snapshot is reported. Tail, progress and paths stay as they were.
pub open spec fn after_exit(
    old: KohyaManager,
    new: KohyaManager,
    code: Option<i32>,
    artifacts: Seq<String>,
    r: Option<KohyaTrainingSnapshot>,
) -> bool {
    &&& !old.attached ==> r is None && new.snapshot == old.snapshot && new.attached == old.attached
        && new.timing == old.timing
    &&& old.attached ==> {
        &&& !new.attached && !new.timing
        &&& !new.snapshot.running && new.snapshot.finished && !new.snapshot.stopping
        &&& new.snapshot.exit_code == code
        &&& new.snapshot.artifacts@ == artifacts
        &&& new.snapshot.message@ == exit_message(code)
        &&& r matches Some(s) && same_snapshot(s, new.snapshot)
    }
    &&& new.snapshot.output_dir == old.snapshot.output_dir
    &&& new.snapshot.output_name == old.snapshot.output_name
    &&& new.snapshot.log_tail@ == old.snapshot.log_tail@
    &&& new.snapshot.started_at == old.snapshot.started_at
    &&& new.snapshot.epoch == old.snapshot.epoch
    &&& new.snapshot.step == old.snapshot.step
    &&& new.snapshot.total_steps == old.snapshot.total_steps
    &&& new.snapshot.loss_text == old.snapshot.loss_text
}

/// The exit of a run is reported once: after `finish` has reported it, a
/// second `finish` reports nothing and changes nothing.
pub proof fn law_exit_reported_once(
    m0: KohyaManager,
    m1: KohyaManager,
    m2: KohyaManager,
    code1: Option<i32>,
    code2: Option<i32>,
    artifacts1: Seq<String>,
    artifacts2: Seq<String>,
    r1: Option<KohyaTrainingSnapshot>,
    r2: Option<KohyaTrainingSnapshot>,
)
    requires
        after_exit(m0, m1, code1, artifacts1, r1),
        after_exit(m1, m2, code2, artifacts2, r2),
        r1 is Some,
    ensures
        r2 is None,
        m2.snapshot == m1.snapshot,
{
}

/// A stop request: nothing to do (`false`) without an attached trainer;
/// otherwise the run is marked as stopping.
pub open spec fn stop_step(old: KohyaManager, new: KohyaManager, r: Result<bool, String>) -> bool {
    &&& r == Ok::<bool, String>(old.attached)
    &&& !old.attached ==> new.snapshot == old.snapshot
    &&& old.attached ==> new.snapshot.stopping && new.snapshot.message@ == "正在停止训练…"@
        && new.snapshot.running == old.snapshot.running && new.snapshot.finished == old.snapshot.finished
        && new.snapshot.log_tail@ == old.snapshot.log_tail@ && new.snapshot.artifacts@ == old.snapshot.artifacts@
        && new.snapshot.exit_code == old.snapshot.exit_code
    &&& new.attached == old.attached
    &&& new.timing == old.timing
}

fn exit_message_text(code: Option<i32>) -> (r: String)
    ensures
        r@ == exit_message(code),
{
    match code {
        Some(0i32) => owned("训练完成。"),
        Some(v) => concat3("训练进程退出（退出码 ", signed_decimal_string(v as i64).as_str(), "），请查看日志。"),
        None => owned("训练进程已结束，请查看日志。"),
    }
}

fn idle_snapshot() -> (r: KohyaTrainingSnapshot)
    ensures
        is_idle(r),
{
    KohyaTrainingSnapshot {
        running: false,
        finished: false,
        stopping: false,
        exit_code: None,
        output_dir: String::new(),
        output_name: String::new(),
        base_model: String::new(),
        dataset_config: String::new(),
        log_path: String::new(),
        started_at: 0,
        elapsed_secs: 0,
        epoch: None,
        step: None,
        total_steps: None,
        loss_text: None,
        message: String::new(),
        artifacts: Vec::new(),
        log_tail: Vec::new(),
    }
}

fn copy_snapshot(s: &KohyaTrainingSnapshot) -> (r: KohyaTrainingSnapshot)
    ensures
        same_snapshot(r, *s),
{
    KohyaTrainingSnapshot {
        running: s.running,
        finished: s.finished,
        stopping: s.stopping,
        exit_code: s.exit_code,
        output_dir: s.output_dir.clone(),
        output_name: s.output_name.clone(),
        base_model: s.base_model.clone(),
        dataset_config: s.dataset_config.clone(),
        log_path: s.log_path.clone(),
        started_at: s.started_at,
        elapsed_secs: s.elapsed_secs,
        epoch: s.epoch,
        step: s.step,
        total_steps: s.total_steps,
        loss_text: copy_opt(&s.loss_text),
        message: s.message.clone(),
        artifacts: copy_strings(&s.artifacts),
        log_tail: copy_strings(&s.log_tail),
    }
}

impl KohyaManager {
    /// The tail never holds more than `MAX_LOG_LINES` lines.
    pub open spec fn wf(&self) -> bool {
        self.snapshot.log_tail@.len() <= MAX_LOG_LINES
    }

    pub fn new() -> (r: Self)
        ensures
            r.wf(),
            is_idle(r.snapshot),
            !r.attached,
            !r.timing,
    {
        KohyaManager { snapshot: idle_snapshot(), attached: false, timing: false }
    }

    /// Whether the trainer is still running.
    pub fn is_running(&self) -> (b: bool)
        ensures
            b == self.snapshot.running,
    {
        self.snapshot.running
    }

    /// A run may start only while no trainer is attached.
    pub fn check_start(&self) -> (r: Result<(), String>)
        ensures
            r is Ok <==> !self.attached,
            r matches Err(m) ==> m@ == "已经有一个训练任务在运行，请先停止它。"@,
    {
        if self.attached {
            Err(owned("已经有一个训练任务在运行，请先停止它。"))
        } else {
            Ok(())
        }
    }

    /// The trainer with process id `pid` was started at `started_at`
    /// (seconds since the epoch): a fresh running snapshot with an empty
    /// tail.
    pub fn begin(&mut self, meta: RunMetadata, pid: u32, started_at: u64)
        requires
            !old(self).attached,
        ensures
            final(self).wf(),
            final(self).attached && final(self).timing,
            final(self).snapshot.running && !final(self).snapshot.finished && !final(self).snapshot.stopping,
            final(self).snapshot.exit_code is None,
            final(self).snapshot.message@ == "训练进程已启动（PID "@ + decimal(pid as nat) + "）"@,
            final(self).snapshot.output_dir == meta.output_dir,
            final(self).snapshot.output_name == meta.output_name,
            final(self).snapshot.base_model == meta.base_model,
            final(self).snapshot.dataset_config == meta.dataset_config,
            final(self).snapshot.log_path == meta.log_path,
            final(self).snapshot.started_at == started_at,
            final(self).snapshot.elapsed_secs == 0,
            final(self).snapshot.epoch is None && final(self).snapshot.step is None,
            final(self).snapshot.total_steps is None && final(self).snapshot.loss_text is None,
            final(self).snapshot.artifacts@.len() == 0 && final(self).snapshot.log_tail@.len() == 0,
    {
        let mut s = idle_snapshot();
        s.running = true;
        s.message = concat3("训练进程已启动（PID ", decimal_string(pid as u64).as_str(), "）");
        s.output_dir = meta.output_dir;
        s.output_name = meta.output_name;
        s.base_model = meta.base_model;
        s.dataset_config = meta.dataset_config;
        s.log_path = meta.log_path;
        s.started_at = started_at;
        self.snapshot = s;
        self.attached = true;
        self.timing = true;
    }

    /// One line of trainer output.
    pub fn record_line(&mut self, line: String)
        requires
            old(self).wf(),
        ensures
            final(self).wf(),
            after_line(old(self).snapshot, final(self).snapshot, line),
            final(self).attached == old(self).attached,
            final(self).timing == old(self).timing,
    {
        let progress = parse_progress(line.as_str());
        if progress.epoch.is_some() {
            self.snapshot.epoch = progress.epoch;
        }
        if progress.step.is_some() {
            self.snapshot.step = progress.step;
        }
        if progress.total_steps.is_some() {
            self.snapshot.total_steps = progress.total_steps;
        }
        match progress.loss_text {
            Some(t) => if reads_as_float_exec(t.as_str()) {
                self.snapshot.loss_text = Some(t);
            },
            None => {},
        }
        let trimmed = trim_str(line.as_str());
        if !crate::text::is_blank(line.as_str()) {
            self.snapshot.message = trimmed;
        }
        let ghost before = self.snapshot.log_tail@;
        self.snapshot.log_tail.push(line);
        if self.snapshot.log_tail.len() > MAX_LOG_LINES {
            self.snapshot.log_tail.remove(0);
            assert(self.snapshot.log_tail@ =~= keep_last(before.push(line)));
        }
    }

    /// The trainer exited with `code` (none when killed by a signal);
    /// `artifacts` are the LoRA files now in the output folder. Returns the
    /// final snapshot, once: nothing when no trainer was attached.
    pub fn finish(&mut self, code: Option<i32>, artifacts: Vec<String>) -> (r: Option<KohyaTrainingSnapshot>)
        requires
            old(self).wf(),
        ensures
            final(self).wf(),
            after_exit(*old(self), *final(self), code, artifacts@, r),
    {
        if !self.attached {
            return None;
        }
        self.attached = false;
        self.snapshot.running = false;
        self.snapshot.finished = true;
        self.snapshot.stopping = false;
        self.snapshot.exit_code = code;
        self.snapshot.artifacts = artifacts;
        self.snapshot.message = exit_message_text(code);
        self.timing = false;
        Some(copy_snapshot(&self.snapshot))
    }

    /// A stop request: nothing to do (`false`) without an attached trainer;
    /// otherwise the run is marked as stopping and the shell ends the
    /// process, then reports `stopped`.
    pub fn stop(&mut self) -> (r: Result<bool, String>)
        requires
            old(self).wf(),
        ensures
            final(self).wf(),
            stop_step(*old(self), *final(self), r),
    {
        if !self.attached {
            return Ok(false);
        }
        self.snapshot.stopping = true;
        self.snapshot.message = owned("正在停止训练…");
        Ok(true)
    }

    /// The trainer was ended on request; `artifacts` are the LoRA files now
    /// in the output folder.
    pub fn stopped(&mut self, artifacts: Vec<String>)
        requires
            old(self).wf(),
        ensures
            final(self).wf(),
            !final(self).attached && !final(self).timing,
            !final(self).snapshot.running && final(self).snapshot.finished && !final(self).snapshot.stopping,
            final(self).snapshot.artifacts@ == artifacts@,
            final(self).snapshot.message@ == "训练已停止。"@,
            final(self).snapshot.exit_code == old(self).snapshot.exit_code,
            final(self).snapshot.log_tail@ == old(self).snapshot.log_tail@,
            final(self).snapshot.output_dir == old(self).snapshot.output_dir,
    {
        self.attached = false;
        self.snapshot.running = false;
        self.snapshot.finished = true;
        self.snapshot.stopping = false;
        self.snapshot.artifacts = artifacts;
        self.snapshot.message = owned("训练已停止。");
        self.timing = false;
    }

    /// The snapshot for the page: with the clock on, `elapsed_secs` is the
    /// run's age; with an output folder, `artifacts` (the LoRA files listed
    /// there now) replace the earlier list.
    pub fn snapshot(&mut self, elapsed_secs: u64, artifacts: Vec<String>) -> (r: KohyaTrainingSnapshot)
        requires
            old(self).wf(),
        ensures
            final(self).wf(),
            final(self).snapshot.elapsed_secs == (if old(self).timing { elapsed_secs } else { old(self).snapshot.elapsed_secs }),
            final(self).snapshot.artifacts@ == (if old(self).snapshot.output_dir@.len() > 0 { artifacts@ } else { old(self).snapshot.artifacts@ }),
            same_snapshot(r, final(self).snapshot),
            final(self).attached == old(self).attached,
            final(self).timing == old(self).timing,
            final(self).snapshot.running == old(self).snapshot.running,
            final(self).snapshot.finished == old(self).snapshot.finished,
            final(self).snapshot.message == old(self).snapshot.message,
            final(self).snapshot.log_tail@ == old(self).snapshot.log_tail@,
    {
        if self.timing {
            self.snapshot.elapsed_secs = elapsed_secs;
        }
        if crate::text::to_chars(self.snapshot.output_dir.as_str()).len() > 0 {
            self.snapshot.artifacts = artifacts;
        }
        copy_snapshot(&self.snapshot)
    }
}

} // verus!
