//! One-click LoRA training against the user's own kohya/sd-scripts install:
//! the status page, the environment check and the preparation of a run.
//! The shell starts processes, reads and writes files and watches the run.
use vstd::prelude::*;
use crate::kohya::{arguments, build_arguments, string_views, KohyaStatus, TrainerKind, TrainingRequest};
use crate::paths::{file_name, file_name_of, file_stem, file_stem_of, join, join_path, parent, parent_path};
use crate::text::{
    char_views, concat, concat3, decimal, from_chars, is_prefix, join_chars, join_with, lines,
    owned, split_lines, to_chars, trim, trim_str,
};

verus! {

pub const PROBE_TIMEOUT_SECS: u64 = 120;

pub const ENV_MARKER: &'static str = "KOHYA_ENV:";

#[derive(Debug, Clone)]
pub struct KohyaStatusPayload {
    pub status: KohyaStatus,
    /// The arguments a default run would use, so the page can show the
    /// exact command.
    pub arguments_preview: Vec<String>,
}

#[derive(Debug, Clone)]
pub struct KohyaEnvironment {
    pub executable: String,
    pub python_version: Option<String>,
    pub torch_version: Option<String>,
    pub cuda_version: Option<String>,
    pub cuda_available: bool,
    pub device_name: Option<String>,
    pub xformers_version: Option<String>,
    pub bitsandbytes_version: Option<String>,
    pub error: Option<String>,
    pub exit_code: Option<i32>,
    pub stderr: String,
}

/// Trained LoRA files land beside the exported sets: in `loras` next to the
/// portable `output\datasets`, else in `lora-models` beside the set folder.
pub open spec fn training_output_spec(dataset_dir: Seq<char>) -> Seq<char> {
    let base = match parent(dataset_dir) {
        Some(p) => p,
        None => dataset_dir,
    };
    let folder = if file_name(dataset_dir) == Some("datasets"@) {
        "loras"@
    } else {
        "lora-models"@
    };
    join(base, folder)
}

pub fn default_training_output_dir(dataset_dir: &str) -> (r: String)
    ensures
        r@ == training_output_spec(dataset_dir@),
{
    let base = match parent_path(dataset_dir) {
        Some(p) => p,
        None => owned(dataset_dir),
    };
    let is_datasets = match file_name_of(dataset_dir) {
        Some(n) => crate::text::str_eq(n.as_str(), "datasets"),
        None => false,
    };
    if is_datasets {
        join_path(base.as_str(), "loras")
    } else {
        join_path(base.as_str(), "lora-models")
    }
}

/// The trainer page: the status with the data and output folders filled in
/// (the configured output folder unless blank) and, when kohya and the base
/// model are both there, the arguments of a default SD1.5 run.
pub fn status_payload(
    status: KohyaStatus,
    dataset_dir: String,
    configured_output_dir: &str,
) -> (r: KohyaStatusPayload)
    ensures
        r.status.train_data_dir == dataset_dir,
        r.status.output_dir@ == (if trim(configured_output_dir@).len() > 0 {
            configured_output_dir@
        } else {
            training_output_spec(dataset_dir@)
        }),
        r.status.installed == status.installed,
        r.status.base_model == status.base_model,
        r.status.base_model_exists == status.base_model_exists,
        r.status.configured == status.configured,
        r.status.root == status.root,
        r.status.python == status.python,
        r.status.error == status.error,
        status.installed && status.base_model_exists ==> exists|q: TrainingRequest|
            crate::kohya::is_default_request(
                q,
                TrainerKind::Sd15,
                join(dataset_dir@, "dataset.toml"@),
                r.status.output_dir@,
                status.base_model@,
            ) && string_views(r.arguments_preview@) == arguments(q, join(r.status.output_dir@, "logs"@)),
        !(status.installed && status.base_model_exists) ==> r.arguments_preview@.len() == 0,
{
    let output_dir = if crate::text::is_blank(configured_output_dir) {
        default_training_output_dir(dataset_dir.as_str())
    } else {
        owned(configured_output_dir)
    };
    let ghost mut witness: Option<TrainingRequest> = None;
    let preview = if status.installed && status.base_model_exists {
        let config = join_path(dataset_dir.as_str(), "dataset.toml");
        let request = TrainingRequest::default_for(
            TrainerKind::Sd15,
            config.as_str(),
            output_dir.as_str(),
            status.base_model.as_str(),
        );
        let logs = join_path(output_dir.as_str(), "logs");
        let args = build_arguments(&request, logs.as_str());
        assert(crate::kohya::is_default_request(
            request,
            TrainerKind::Sd15,
            join(dataset_dir@, "dataset.toml"@),
            output_dir@,
            status.base_model@,
        ) && string_views(args@) == arguments(request, join(output_dir@, "logs"@)));
        proof {
            witness = Some(request);
        }
        args
    } else {
        Vec::new()
    };
    let ghost base_model = status.base_model@;
    let mut status = status;
    status.train_data_dir = dataset_dir;
    status.output_dir = output_dir;
    let r = KohyaStatusPayload { status, arguments_preview: preview };
    proof {
        if witness is Some {
            let q = witness->0;
            assert(crate::kohya::is_default_request(
                q,
                TrainerKind::Sd15,
                join(r.status.train_data_dir@, "dataset.toml"@),
                r.status.output_dir@,
                base_model,
            ));
        }
    }
    r
}

/// The environment check could not be completed.
pub fn probe_failure(python: &str, message: String, exit_code: Option<i32>, stderr: String) -> (r:
    KohyaEnvironment)
    ensures
        r.executable@ == python@,
        r.error == Some(message),
        r.exit_code == exit_code,
        r.stderr == stderr,
        !r.cuda_available,
        r.python_version is None && r.torch_version is None && r.cuda_version is None,
        r.device_name is None && r.xformers_version is None && r.bitsandbytes_version is None,
{
    KohyaEnvironment {
        executable: owned(python),
        python_version: None,
        torch_version: None,
        cuda_version: None,
        cuda_available: false,
        device_name: None,
        xformers_version: None,
        bitsandbytes_version: None,
        error: Some(message),
        exit_code,
        stderr,
    }
}

/// The message of a check that did not return in time.
pub fn probe_timeout_message() -> (r: String)
    ensures
        r@ == "训练环境检查超过 "@ + decimal(PROBE_TIMEOUT_SECS as nat) + " 秒未返回，请确认该 Python 的 torch 能正常导入。"@,
{
    let digits = crate::text::decimal_string(PROBE_TIMEOUT_SECS);
    concat3("训练环境检查超过 ", digits.as_str(), " 秒未返回，请确认该 Python 的 torch 能正常导入。")
}

pub open spec fn marker() -> Seq<char> {
    "KOHYA_ENV:"@
}

pub open spec fn non_marker_lines(ls: Seq<Seq<char>>) -> Seq<Seq<char>>
    decreases ls.len(),
{
    if ls.len() == 0 {
        Seq::empty()
    } else if is_prefix(marker(), ls.last()) {
        non_marker_lines(ls.drop_last())
    } else {
        non_marker_lines(ls.drop_last()).push(ls.last())
    }
}

/// The output shown as the check's error text: the lines that are not the
/// result line, joined by newlines, at most 2000 characters.
pub open spec fn probe_stderr_spec(raw: Seq<char>) -> Seq<char> {
    let all = join_with(non_marker_lines(lines(raw)), seq!['\n']);
    if all.len() > 2000 {
        all.subrange(0, 2000)
    } else {
        all
    }
}

pub fn probe_stderr(raw: &str) -> (r: String)
    ensures
        r@ == probe_stderr_spec(raw@),
{
    let ls = split_lines(to_chars(raw).as_slice());
    let m = to_chars(ENV_MARKER);
    proof {
        reveal_strlit("KOHYA_ENV:");
    }
    let mut kept: Vec<Vec<char>> = Vec::new();
    let mut i: usize = 0;
    while i < ls.len()
        invariant
            i <= ls@.len(),
            m@ == marker(),
            char_views(kept@) == non_marker_lines(char_views(ls@).subrange(0, i as int)),
        decreases ls@.len() - i,
    {
        let ghost sub = char_views(ls@).subrange(0, i + 1);
        assert(sub.drop_last() =~= char_views(ls@).subrange(0, i as int));
        assert(sub.last() == ls@[i as int]@);
        if !crate::text::starts_with_chars(ls[i].as_slice(), m.as_slice()) {
            let ghost before = kept@;
            kept.push(ls[i].clone());
            assert(char_views(kept@) =~= char_views(before).push(ls@[i as int]@));
        }
        i = i + 1;
    }
    assert(char_views(ls@).subrange(0, ls@.len() as int) =~= char_views(ls@));
    let nl: [char; 1] = ['\n'];
    assert(nl@ =~= seq!['\n']);
    let all = join_chars(&kept, &nl);
    if all.len() > 2000 {
        let cut = crate::text::copy_chars(all.as_slice(), 0, 2000);
        from_chars(cut.as_slice())
    } else {
        from_chars(all.as_slice())
    }
}

/// The result line of the check: the text after the marker on the last line
/// that carries it.
pub open spec fn result_line_spec(ls: Seq<Seq<char>>) -> Option<Seq<char>>
    decreases ls.len(),
{
    if ls.len() == 0 {
        None
    } else if is_prefix(marker(), ls.last()) {
        Some(ls.last().subrange(marker().len() as int, ls.last().len() as int))
    } else {
        result_line_spec(ls.drop_last())
    }
}

pub fn probe_result_line(raw: &str) -> (r: Option<String>)
    ensures
        match r {
            Some(t) => result_line_spec(lines(raw@)) == Some(t@),
            None => result_line_spec(lines(raw@)) is None,
        },
{
    let ls = split_lines(to_chars(raw).as_slice());
    let m = to_chars(ENV_MARKER);
    proof {
        reveal_strlit("KOHYA_ENV:");
    }
    let mut i: usize = ls.len();
    assert(char_views(ls@).subrange(0, ls@.len() as int) =~= char_views(ls@));
    while i > 0
        invariant
            i <= ls@.len(),
            m@ == marker(),
            char_views(ls@) == lines(raw@),
            result_line_spec(char_views(ls@)) == result_line_spec(char_views(ls@).subrange(0, i as int)),
        decreases i,
    {
        let ghost sub = char_views(ls@).subrange(0, i as int);
        assert(sub.drop_last() =~= char_views(ls@).subrange(0, i - 1));
        assert(sub.last() == ls@[i - 1]@);
        if crate::text::starts_with_chars(ls[i - 1].as_slice(), m.as_slice()) {
            let rest = crate::text::copy_chars(ls[i - 1].as_slice(), m.len(), ls[i - 1].len());
            return Some(from_chars(rest.as_slice()));
        }
        i = i - 1;
    }
    assert(char_views(ls@).subrange(0, 0) =~= Seq::<Seq<char>>::empty());
    None
}

/// What the result line of the check reported, field by field.
#[derive(Debug, Clone)]
pub struct ProbeReport {
    pub executable: Option<String>,
    pub python_version: Option<String>,
    pub torch_version: Option<String>,
    pub cuda_version: Option<String>,
    pub cuda_available: Option<bool>,
    pub device_name: Option<String>,
    pub xformers_version: Option<String>,
    pub bitsandbytes_version: Option<String>,
    pub error: Option<String>,
}

/// The environment from a finished check: what it reported, the interpreter
/// path where it did not name one, CUDA off unless reported.
pub fn environment_from_report(
    python: &str,
    report: ProbeReport,
    exit_code: Option<i32>,
    stderr: String,
) -> (r: KohyaEnvironment)
    ensures
        r.executable@ == (match report.executable {
            Some(e) => e@,
            None => python@,
        }),
        r.python_version == report.python_version,
        r.torch_version == report.torch_version,
        r.cuda_version == report.cuda_version,
        r.cuda_available == (report.cuda_available == Some(true)),
        r.device_name == report.device_name,
        r.xformers_version == report.xformers_version,
        r.bitsandbytes_version == report.bitsandbytes_version,
        r.error == report.error,
        r.exit_code == exit_code,
        r.stderr == stderr,
{
    KohyaEnvironment {
        executable: match report.executable {
            Some(e) => e,
            None => owned(python),
        },
        python_version: report.python_version,
        torch_version: report.torch_version,
        cuda_version: report.cuda_version,
        cuda_available: match report.cuda_available {
            Some(b) => b,
            None => false,
        },
        device_name: report.device_name,
        xformers_version: report.xformers_version,
        bitsandbytes_version: report.bitsandbytes_version,
        error: report.error,
        exit_code,
        stderr,
    }
}

/// Whether the install provides the script the request asks for.
pub fn trainer_available(trainers: &Vec<String>, script: &str) -> (b: bool)
    ensures
        b == string_views(trainers@).contains(script@),
{
    let mut i: usize = 0;
    while i < trainers.len()
        invariant
            i <= trainers@.len(),
            forall|k: int| 0 <= k < i ==> #[trigger] trainers@[k]@ != script@,
        decreases trainers@.len() - i,
    {
        if crate::text::str_eq(trainers[i].as_str(), script) {
            assert(string_views(trainers@)[i as int] == script@);
            return true;
        }
        i = i + 1;
    }
    proof {
        if string_views(trainers@).contains(script@) {
            let k = choose|k: int| 0 <= k < string_views(trainers@).len() && string_views(trainers@)[k] == script@;
            assert(trainers@[k]@ == script@);
        }
    }
    false
}

/// The refusal when the requested trainer script is missing.
pub fn trainer_missing_message(sd_scripts: &str, script: &str, label: &str) -> (r: String)
    ensures
        r@ == sd_scripts@ + " 下没有找到 "@ + script@ + "，无法按 "@ + label@ + " 训练。"@,
{
    let a = concat(sd_scripts, " 下没有找到 ");
    let b = concat(a.as_str(), script);
    let c = concat(b.as_str(), "，无法按 ");
    let d = concat(c.as_str(), label);
    concat(d.as_str(), " 训练。")
}

/// `Path::with_file_name`: the name replaced, or appended to a path that has
/// none.
pub open spec fn with_file_name(p: Seq<char>, name: Seq<char>) -> Seq<char> {
    match file_name(p) {
        Some(_) => match parent(p) {
            Some(par) => join(par, name),
            None => join(p, name),
        },
        None => join(p, name),
    }
}

/// The copy of a set configuration with caption shuffling switched off:
/// `<stem>.cache-te.toml` beside the original (`dataset` when it has no
/// stem).
pub open spec fn cache_te_config_spec(config: Seq<char>) -> Seq<char> {
    let stem = match file_stem(config) {
        Some(s) => s,
        None => "dataset"@,
    };
    with_file_name(config, stem + ".cache-te.toml"@)
}

pub fn cache_te_config_path(config: &str) -> (r: String)
    ensures
        r@ == cache_te_config_spec(config@),
{
    let stem = match file_stem_of(config) {
        Some(s) => s,
        None => owned("dataset"),
    };
    let name = concat(stem.as_str(), ".cache-te.toml");
    match file_name_of(config) {
        Some(_) => match parent_path(config) {
            Some(par) => join_path(par.as_str(), name.as_str()),
            None => join_path(config, name.as_str()),
        },
        None => join_path(config, name.as_str()),
    }
}

/// The log of a run: `<name>-training.log` in the output folder, `lora` when
/// the run has no name.
pub fn training_log_path(output_dir: &str, output_name: &str) -> (r: String)
    ensures
        r@ == join(
            trim(output_dir@),
            (if trim(output_name@).len() > 0 {
                trim(output_name@)
            } else {
                "lora"@
            }) + "-training.log"@,
        ),
{
    let name = if crate::text::is_blank(output_name) {
        owned("lora")
    } else {
        trim_str(output_name)
    };
    let file = concat(name.as_str(), "-training.log");
    join_path(trim_str(output_dir).as_str(), file.as_str())
}

/// Where a finished LoRA is copied: its file name in ComfyUI's `loras`
/// folder; `None` when the source names no file.
pub fn lora_install_destination(source: &str, loras_dir: &str) -> (r: Option<String>)
    ensures
        match file_name(trim(source@)) {
            Some(n) => r is Some && r->0@ == join(loras_dir@, n),
            None => r is None,
        },
{
    let t = trim_str(source);
    match file_name_of(t.as_str()) {
        Some(n) => Some(join_path(loras_dir, n.as_str())),
        None => None,
    }
}

} // verus!
