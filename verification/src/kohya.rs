//! Detect and drive the user's own kohya_ss / sd-scripts LoRA trainer.
//!
//! The application never bundles a trainer: kohya_ss and sd-scripts are
//! separate projects with their own licences, so this module only decides
//! where an existing installation keeps its scripts and interpreter, checks a
//! training request and builds the argument list for its training script.
use vstd::prelude::*;
use crate::paths::{join, join_path, parent, parent_path, extension};
use crate::text::{
    concat, concat3, from_chars, lower_ascii, owned, to_chars, trim, trim_chars, trim_str, is_blank,
    lines, join_with,
};

verus! {

pub const SD15_TRAINER: &'static str = "train_network.py";

pub const SDXL_TRAINER: &'static str = "sdxl_train_network.py";

pub const MIN_NETWORK_DIM: u32 = 1;

pub const MAX_NETWORK_DIM: u32 = 512;

/// Learning rates are carried in units of 1e-8, the precision the trainer is
/// given (`--learning_rate` is written with eight decimals).
pub const MIN_LEARNING_RATE_E8: u64 = 100;

pub const MAX_LEARNING_RATE_E8: u64 = 10_000_000;

pub const MIN_EPOCHS: u32 = 1;

pub const MAX_EPOCHS: u32 = 1000;

pub const MIN_BATCH_SIZE: u32 = 1;

pub const MAX_BATCH_SIZE: u32 = 16;

pub const MIN_ACCUMULATION: u32 = 1;

pub const MAX_ACCUMULATION: u32 = 64;

pub const MAX_DATA_LOADER_WORKERS: u32 = 8;

/// Noise offsets are carried in units of 1e-4 (written with four decimals).
pub const MAX_NOISE_OFFSET_E4: u32 = 10_000;

/// Where the Python interpreter came from, so the UI can explain the choice.
#[derive(Debug, Clone, Copy, PartialEq, Eq)]
pub enum PythonSource {
    Settings,
    VirtualEnv,
    Embedded,
    Path,
}

pub open spec fn source_label(s: PythonSource) -> Seq<char> {
    match s {
        PythonSource::Settings => "设置中指定"@,
        PythonSource::VirtualEnv => "训练器自带虚拟环境"@,
        PythonSource::Embedded => "便携版内置 Python"@,
        PythonSource::Path => "系统 PATH"@,
    }
}

impl PythonSource {
    pub fn label(self) -> (r: &'static str)
        ensures
            r@ == source_label(self),
    {
        match self {
            PythonSource::Settings => "设置中指定",
            PythonSource::VirtualEnv => "训练器自带虚拟环境",
            PythonSource::Embedded => "便携版内置 Python",
            PythonSource::Path => "系统 PATH",
        }
    }
}

#[derive(Debug, Clone, PartialEq)]
pub struct KohyaPaths {
    pub root: String,
    pub sd_scripts: String,
    pub python: String,
    pub python_source: PythonSource,
    pub python_exists: bool,
    pub trainers: Vec<String>,
}

#[derive(Debug, Clone, PartialEq)]
pub struct KohyaStatus {
    pub configured: bool,
    pub installed: bool,
    pub root: String,
    pub sd_scripts_dir: String,
    pub python: String,
    pub python_source: String,
    pub trainers: Vec<String>,
    pub base_model: String,
    pub base_model_exists: bool,
    pub train_data_dir: String,
    pub output_dir: String,
    pub error: Option<String>,
}

pub open spec fn unconfigured_text() -> Seq<char> {
    "还没有配置 LoRA 训练器目录。请指定 kohya_ss 或 sd-scripts 的安装目录。"@
}

impl KohyaStatus {
    /// Status of a trainer that is not set up; `base_model_is_file` is what
    /// the file system says about the base model path.
    pub fn unconfigured(base_model: &str, base_model_is_file: bool) -> (r: Self)
        ensures
            !r.configured,
            !r.installed,
            r.root@.len() == 0,
            r.sd_scripts_dir@.len() == 0,
            r.python@.len() == 0,
            r.python_source@ == source_label(PythonSource::Path),
            r.trainers@.len() == 0,
            r.base_model@ == base_model@,
            r.base_model_exists == (trim(base_model@).len() > 0 && base_model_is_file),
            r.train_data_dir@.len() == 0,
            r.output_dir@.len() == 0,
            (r.error matches Some(e) && e@ == unconfigured_text()),
    {
        KohyaStatus {
            configured: false,
            installed: false,
            root: String::new(),
            sd_scripts_dir: String::new(),
            python: String::new(),
            python_source: owned(PythonSource::Path.label()),
            trainers: Vec::new(),
            base_model: owned(base_model),
            base_model_exists: !is_blank(base_model) && base_model_is_file,
            train_data_dir: String::new(),
            output_dir: String::new(),
            error: Some(owned("还没有配置 LoRA 训练器目录。请指定 kohya_ss 或 sd-scripts 的安装目录。")),
        }
    }
}

/// The files and folders the shell probes under a configured trainer root.
pub struct KohyaProbe {
    pub root_is_dir: bool,
    /// `root\sd-scripts\train_network.py`, `root\sd-scripts\sdxl_train_network.py`.
    pub sd15_in_sd_scripts: bool,
    pub sdxl_in_sd_scripts: bool,
    /// `root\train_network.py`, `root\sdxl_train_network.py`.
    pub sd15_in_root: bool,
    pub sdxl_in_root: bool,
    /// `root\venv`, `root\.venv`, `root\sd-scripts\venv`, `root\sd-scripts\.venv`,
    /// each followed by `Scripts\python.exe`.
    pub root_venv: bool,
    pub root_dot_venv: bool,
    pub sd_scripts_venv: bool,
    pub sd_scripts_dot_venv: bool,
    /// `root\python\python.exe` and `<parent>\python_embeded\python.exe`.
    pub root_embedded: bool,
    pub parent_embedded: bool,
    /// The configured interpreter override is a file.
    pub override_is_file: bool,
}

pub open spec fn venv_python(dir: Seq<char>, venv: Seq<char>) -> Seq<char> {
    join(join(join(dir, venv), "Scripts"@), "python.exe"@)
}

pub open spec fn sd15() -> Seq<char> {
    "train_network.py"@
}

pub open spec fn sdxl() -> Seq<char> {
    "sdxl_train_network.py"@
}

pub open spec fn found_trainers(sd15_found: bool, sdxl_found: bool) -> Seq<Seq<char>> {
    (if sd15_found {
        seq![sd15()]
    } else {
        Seq::empty()
    }) + (if sdxl_found {
        seq![sdxl()]
    } else {
        Seq::empty()
    })
}

/// The value of a resolved trainer layout.
pub struct KohyaPathsView {
    pub root: Seq<char>,
    pub sd_scripts: Seq<char>,
    pub python: Seq<char>,
    pub python_source: PythonSource,
    pub python_exists: bool,
    pub trainers: Seq<Seq<char>>,
}

pub open spec fn string_views(v: Seq<String>) -> Seq<Seq<char>> {
    v.map_values(|s: String| s@)
}

impl View for KohyaPaths {
    type V = KohyaPathsView;

    open spec fn view(&self) -> KohyaPathsView {
        KohyaPathsView {
            root: self.root@,
            sd_scripts: self.sd_scripts@,
            python: self.python@,
            python_source: self.python_source,
            python_exists: self.python_exists,
            trainers: string_views(self.trainers@),
        }
    }
}

pub open spec fn no_trainer_text(root: Seq<char>) -> Seq<char> {
    root + " 下没有找到 train_network.py 或 sdxl_train_network.py，请确认这是 kohya_ss 或 sd-scripts 目录。"@
}

/// Interpreter and its origin: the override, a virtual environment of the
/// trainer, an embedded Python of the package, or `python` from `PATH`.
pub open spec fn choose_python(
    root: Seq<char>,
    sd_scripts: Seq<char>,
    in_sd_scripts: bool,
    python_override: Seq<char>,
    probe: KohyaProbe,
) -> (Seq<char>, PythonSource, bool) {
    let o = trim(python_override);
    let sd_venv = if in_sd_scripts { probe.sd_scripts_venv } else { probe.root_venv };
    let sd_dot_venv = if in_sd_scripts { probe.sd_scripts_dot_venv } else { probe.root_dot_venv };
    if o.len() > 0 {
        (o, PythonSource::Settings, probe.override_is_file)
    } else if probe.root_venv {
        (venv_python(root, "venv"@), PythonSource::VirtualEnv, true)
    } else if probe.root_dot_venv {
        (venv_python(root, ".venv"@), PythonSource::VirtualEnv, true)
    } else if sd_venv {
        (venv_python(sd_scripts, "venv"@), PythonSource::VirtualEnv, true)
    } else if sd_dot_venv {
        (venv_python(sd_scripts, ".venv"@), PythonSource::VirtualEnv, true)
    } else if probe.root_embedded {
        (join(join(root, "python"@), "python.exe"@), PythonSource::Embedded, true)
    } else if probe.parent_embedded && parent(root) is Some {
        (
            join(join(parent(root)->0, "python_embeded"@), "python.exe"@),
            PythonSource::Embedded,
            true,
        )
    } else {
        ("python"@, PythonSource::Path, true)
    }
}

/// The trainer layout of a configured root; `Err` holds the message shown.
pub open spec fn kohya_layout(root: Seq<char>, python_override: Seq<char>, probe: KohyaProbe) -> Result<
    KohyaPathsView,
    Seq<char>,
> {
    let r = trim(root);
    if r.len() == 0 {
        Err("还没有配置 LoRA 训练器目录。"@)
    } else if !probe.root_is_dir {
        Err("训练器目录不存在："@ + r)
    } else {
        let in_sd = probe.sd15_in_sd_scripts || probe.sdxl_in_sd_scripts;
        let in_root = probe.sd15_in_root || probe.sdxl_in_root;
        if !in_sd && !in_root {
            Err(no_trainer_text(r))
        } else {
            let sd = if in_sd { join(r, "sd-scripts"@) } else { r };
            let trainers = if in_sd {
                found_trainers(probe.sd15_in_sd_scripts, probe.sdxl_in_sd_scripts)
            } else {
                found_trainers(probe.sd15_in_root, probe.sdxl_in_root)
            };
            let py = choose_python(r, sd, in_sd, python_override, probe);
            Ok(
                KohyaPathsView {
                    root: r,
                    sd_scripts: sd,
                    python: py.0,
                    python_source: py.1,
                    python_exists: py.2,
                    trainers,
                },
            )
        }
    }
}

/// Candidate files the shell has to probe under a configured root.
pub struct KohyaProbeTargets {
    pub sd15_in_sd_scripts: String,
    pub sdxl_in_sd_scripts: String,
    pub sd15_in_root: String,
    pub sdxl_in_root: String,
    pub root_venv: String,
    pub root_dot_venv: String,
    pub sd_scripts_venv: String,
    pub sd_scripts_dot_venv: String,
    pub root_embedded: String,
    pub parent_embedded: Option<String>,
}

pub fn kohya_probe_targets(root: &str) -> (r: KohyaProbeTargets)
    ensures
        r.sd15_in_sd_scripts@ == join(join(trim(root@), "sd-scripts"@), sd15()),
        r.sdxl_in_sd_scripts@ == join(join(trim(root@), "sd-scripts"@), sdxl()),
        r.sd15_in_root@ == join(trim(root@), sd15()),
        r.sdxl_in_root@ == join(trim(root@), sdxl()),
        r.root_venv@ == venv_python(trim(root@), "venv"@),
        r.root_dot_venv@ == venv_python(trim(root@), ".venv"@),
        r.sd_scripts_venv@ == venv_python(join(trim(root@), "sd-scripts"@), "venv"@),
        r.sd_scripts_dot_venv@ == venv_python(join(trim(root@), "sd-scripts"@), ".venv"@),
        r.root_embedded@ == join(join(trim(root@), "python"@), "python.exe"@),
        r.parent_embedded is Some <==> parent(trim(root@)) is Some,
        r.parent_embedded matches Some(p) ==> p@ == join(
            join(parent(trim(root@))->0, "python_embeded"@),
            "python.exe"@,
        ),
{
    let r = trim_str(root);
    let sd = join_path(r.as_str(), "sd-scripts");
    KohyaProbeTargets {
        sd15_in_sd_scripts: join_path(sd.as_str(), SD15_TRAINER),
        sdxl_in_sd_scripts: join_path(sd.as_str(), SDXL_TRAINER),
        sd15_in_root: join_path(r.as_str(), SD15_TRAINER),
        sdxl_in_root: join_path(r.as_str(), SDXL_TRAINER),
        root_venv: venv_python_path(r.as_str(), "venv"),
        root_dot_venv: venv_python_path(r.as_str(), ".venv"),
        sd_scripts_venv: venv_python_path(sd.as_str(), "venv"),
        sd_scripts_dot_venv: venv_python_path(sd.as_str(), ".venv"),
        root_embedded: join_path(join_path(r.as_str(), "python").as_str(), "python.exe"),
        parent_embedded: match parent_path(r.as_str()) {
            Some(p) => Some(join_path(join_path(p.as_str(), "python_embeded").as_str(), "python.exe")),
            None => None,
        },
    }
}

fn venv_python_path(dir: &str, venv: &str) -> (r: String)
    ensures
        r@ == venv_python(dir@, venv@),
{
    join_path(join_path(join_path(dir, venv).as_str(), "Scripts").as_str(), "python.exe")
}

fn trainer_list(sd15_found: bool, sdxl_found: bool) -> (r: Vec<String>)
    ensures
        string_views(r@) == found_trainers(sd15_found, sdxl_found),
{
    let mut v: Vec<String> = Vec::new();
    if sd15_found {
        v.push(owned(SD15_TRAINER));
    }
    if sdxl_found {
        v.push(owned(SDXL_TRAINER));
    }
    assert(string_views(v@) =~= found_trainers(sd15_found, sdxl_found));
    v
}

/// Resolve the trainer layout from the configured root and Python override.
pub fn resolve_paths(root: &str, python_override: &str, probe: &KohyaProbe) -> (r: Result<
    KohyaPaths,
    String,
>)
    ensures
        match r {
            Ok(p) => kohya_layout(root@, python_override@, *probe) == Ok::<KohyaPathsView, Seq<char>>(p@),
            Err(e) => kohya_layout(root@, python_override@, *probe) == Err::<KohyaPathsView, Seq<char>>(e@),
        },
{
    let r = trim_str(root);
    if r.as_str().is_empty() {
        return Err(owned("还没有配置 LoRA 训练器目录。"));
    }
    if !probe.root_is_dir {
        return Err(concat("训练器目录不存在：", r.as_str()));
    }
    let in_sd = probe.sd15_in_sd_scripts || probe.sdxl_in_sd_scripts;
    let in_root = probe.sd15_in_root || probe.sdxl_in_root;
    if !in_sd && !in_root {
        return Err(
            concat(
                r.as_str(),
                " 下没有找到 train_network.py 或 sdxl_train_network.py，请确认这是 kohya_ss 或 sd-scripts 目录。",
            ),
        );
    }
    let sd = if in_sd {
        join_path(r.as_str(), "sd-scripts")
    } else {
        r.clone()
    };
    let trainers = if in_sd {
        trainer_list(probe.sd15_in_sd_scripts, probe.sdxl_in_sd_scripts)
    } else {
        trainer_list(probe.sd15_in_root, probe.sdxl_in_root)
    };
    let sd_venv = if in_sd { probe.sd_scripts_venv } else { probe.root_venv };
    let sd_dot_venv = if in_sd { probe.sd_scripts_dot_venv } else { probe.root_dot_venv };
    let o = trim_str(python_override);
    let (python, source, exists) = if !o.as_str().is_empty() {
        let e = probe.override_is_file;
        (o, PythonSource::Settings, e)
    } else if probe.root_venv {
        (venv_python_path(r.as_str(), "venv"), PythonSource::VirtualEnv, true)
    } else if probe.root_dot_venv {
        (venv_python_path(r.as_str(), ".venv"), PythonSource::VirtualEnv, true)
    } else if sd_venv {
        (venv_python_path(sd.as_str(), "venv"), PythonSource::VirtualEnv, true)
    } else if sd_dot_venv {
        (venv_python_path(sd.as_str(), ".venv"), PythonSource::VirtualEnv, true)
    } else if probe.root_embedded {
        (
            join_path(join_path(r.as_str(), "python").as_str(), "python.exe"),
            PythonSource::Embedded,
            true,
        )
    } else {
        let embedded = if probe.parent_embedded {
            match parent_path(r.as_str()) {
                Some(p) => Some(
                    join_path(join_path(p.as_str(), "python_embeded").as_str(), "python.exe"),
                ),
                None => None,
            }
        } else {
            None
        };
        match embedded {
            Some(e) => (e, PythonSource::Embedded, true),
            None => (owned("python"), PythonSource::Path, true),
        }
    };
    Ok(
        KohyaPaths {
            root: r,
            sd_scripts: sd,
            python,
            python_source: source,
            python_exists: exists,
            trainers,
        },
    )
}

pub open spec fn missing_python_text(python: Seq<char>) -> Seq<char> {
    "找不到可用的 Python："@ + python + "。请在设置里指定训练用的 python.exe。"@
}

/// The trainer status shown in the UI.
pub fn status(
    root: &str,
    python_override: &str,
    base_model: &str,
    probe: &KohyaProbe,
    base_model_is_file: bool,
) -> (r: KohyaStatus)
    ensures
        r.base_model@ == trim(base_model@),
        r.base_model_exists == (trim(base_model@).len() > 0 && base_model_is_file),
        r.train_data_dir@.len() == 0,
        r.output_dir@.len() == 0,
        match kohya_layout(root@, python_override@, *probe) {
            Ok(p) => r.configured && r.installed == p.python_exists && r.root@ == p.root
                && r.sd_scripts_dir@ == p.sd_scripts && r.python@ == p.python
                && r.python_source@ == source_label(p.python_source) && string_views(r.trainers@)
                == p.trainers && (if p.python_exists {
                r.error is None
            } else {
                (r.error matches Some(e) && e@ == missing_python_text(p.python))
            }),
            Err(e) => !r.configured && !r.installed && r.root@.len() == 0 && r.python@.len() == 0
                && r.trainers@.len() == 0 && r.python_source@ == source_label(PythonSource::Path)
                && (r.error matches Some(m) && m@ == e),
        },
{
    let base = trim_str(base_model);
    match resolve_paths(root, python_override, probe) {
        Ok(paths) => {
            let exists = !base.as_str().is_empty() && base_model_is_file;
            let error = if paths.python_exists {
                None
            } else {
                Some(
                    concat3(
                        "找不到可用的 Python：",
                        paths.python.as_str(),
                        "。请在设置里指定训练用的 python.exe。",
                    ),
                )
            };
            KohyaStatus {
                configured: true,
                installed: paths.python_exists,
                root: paths.root,
                sd_scripts_dir: paths.sd_scripts,
                python: paths.python,
                python_source: owned(paths.python_source.label()),
                trainers: paths.trainers,
                base_model: base,
                base_model_exists: exists,
                train_data_dir: String::new(),
                output_dir: String::new(),
                error,
            }
        },
        Err(error) => {
            let mut s = KohyaStatus::unconfigured(base.as_str(), base_model_is_file);
            proof {
                assert(trim(trim(base_model@)) == trim(base_model@)) by {
                    crate::text::lemma_trim_idempotent(base_model@);
                }
            }
            s.error = Some(error);
            s
        },
    }
}

/// Which training script to run for a base model family.
#[derive(Debug, Clone, Copy, PartialEq, Eq)]
pub enum TrainerKind {
    Sd15,
    Sdxl,
}

impl TrainerKind {
    pub fn script(self) -> (r: &'static str)
        ensures
            r@ == (match self {
                TrainerKind::Sd15 => sd15(),
                TrainerKind::Sdxl => sdxl(),
            }),
    {
        match self {
            TrainerKind::Sd15 => SD15_TRAINER,
            TrainerKind::Sdxl => SDXL_TRAINER,
        }
    }

    pub fn label(self) -> (r: &'static str)
        ensures
            r@ == (match self {
                TrainerKind::Sd15 => "SD1.5 / SD2.x"@,
                TrainerKind::Sdxl => "SDXL"@,
            }),
    {
        match self {
            TrainerKind::Sd15 => "SD1.5 / SD2.x",
            TrainerKind::Sdxl => "SDXL",
        }
    }

    /// Parse a trainer name; blank means SD1.5.
    pub fn parse(value: &str) -> (r: Result<Self, String>)
        ensures
            ({
                let k = lower_ascii(trim(value@));
                if k == ""@ || k == "sd15"@ || k == "sd1.5"@ || k == "sd"@ {
                    r == Ok::<TrainerKind, String>(TrainerKind::Sd15)
                } else if k == "sdxl"@ {
                    r == Ok::<TrainerKind, String>(TrainerKind::Sdxl)
                } else {
                    r matches Err(e) && e@ == "未知的训练脚本类型："@ + k
                }
            }),
    {
        let v = to_chars(value);
        let t = trim_chars(v.as_slice());
        let low = crate::text::lower_chars(t.as_slice());
        let k = from_chars(low.as_slice());
        if crate::text::str_eq(k.as_str(), "") || crate::text::str_eq(k.as_str(), "sd15")
            || crate::text::str_eq(k.as_str(), "sd1.5") || crate::text::str_eq(k.as_str(), "sd") {
            Ok(TrainerKind::Sd15)
        } else if crate::text::str_eq(k.as_str(), "sdxl") {
            Ok(TrainerKind::Sdxl)
        } else {
            Err(concat("未知的训练脚本类型：", k.as_str()))
        }
    }
}

/// Is this file a LoRA a training run produced (`.safetensors` or `.pt`)?
pub open spec fn is_lora_file(path: Seq<char>) -> bool {
    match extension(path) {
        Some(e) => lower_ascii(e) == "safetensors"@ || lower_ascii(e) == "pt"@,
        None => false,
    }
}

pub fn is_lora_artifact(path: &str) -> (b: bool)
    ensures
        b == is_lora_file(path@),
{
    match crate::paths::extension_of(path) {
        Some(e) => {
            let v = to_chars(e.as_str());
            let l = from_chars(crate::text::lower_chars(v.as_slice()).as_slice());
            crate::text::str_eq(l.as_str(), "safetensors") || crate::text::str_eq(l.as_str(), "pt")
        },
        None => false,
    }
}

/// The LoRA files among the plain files of an output folder, sorted.
pub fn lora_files(files: Vec<String>) -> (r: Vec<String>)
    ensures
        crate::order::sorted_views(r@),
        r@.to_multiset() == files@.filter(|p: String| is_lora_file(p@)).to_multiset(),
{
    let ghost pred = |p: String| is_lora_file(p@);
    let mut kept: Vec<String> = Vec::new();
    let mut i: usize = 0;
    assert(files@.subrange(0, 0).filter(pred) =~= kept@);
    while i < files.len()
        invariant
            i <= files@.len(),
            pred == (|p: String| is_lora_file(p@)),
            kept@ == files@.subrange(0, i as int).filter(pred),
        decreases files@.len() - i,
    {
        assert(files@.subrange(0, i + 1) =~= files@.subrange(0, i as int).push(files@[i as int]));
        proof {
            files@.subrange(0, i as int).lemma_filter_push(files@[i as int], pred);
        }
        if is_lora_artifact(files[i].as_str()) {
            kept.push(files[i].clone());
        }
        i = i + 1;
    }
    assert(files@.subrange(0, files@.len() as int) =~= files@);
    crate::order::sort_strings(kept)
}


#[derive(Debug, Clone, PartialEq)]
pub struct TrainingRequest {
    pub dataset_config: String,
    pub output_dir: String,
    pub output_name: String,
    pub base_model: String,
    pub trainer: TrainerKind,
    pub network_dim: u32,
    pub network_alpha: u32,
    /// Learning rate in units of 1e-8.
    pub learning_rate_e8: u64,
    pub max_train_epochs: u32,
    pub train_batch_size: u32,
    pub gradient_accumulation_steps: u32,
    pub optimizer: String,
    pub mixed_precision: String,
    pub save_every_n_epochs: u32,
    pub seed: u64,
    pub max_data_loader_n_workers: u32,
    pub gradient_checkpointing: bool,
    pub cache_latents: bool,
    pub network_train_unet_only: bool,
    /// Cache the text-encoder outputs and free both text encoders; kohya
    /// requires UNet-only training and no caption shuffling for this.
    pub cache_text_encoder_outputs: bool,
    pub flip_aug: bool,
    /// Noise offset in units of 1e-4.
    pub noise_offset_e4: u32,
}

/// The request `default_for` builds: every field but the paths and the
/// trainer at its default.
pub open spec fn is_default_request(
    r: TrainingRequest,
    trainer: TrainerKind,
    dataset_config: Seq<char>,
    output_dir: Seq<char>,
    base_model: Seq<char>,
) -> bool {
    &&& r.dataset_config@ == dataset_config
    &&& r.output_dir@ == output_dir
    &&& r.output_name@ == "lora"@
    &&& r.base_model@ == base_model
    &&& r.trainer == trainer
    &&& r.network_dim == 32
    &&& r.network_alpha == 16
    &&& r.learning_rate_e8 == 10_000
    &&& r.max_train_epochs == 10
    &&& r.train_batch_size == 1
    &&& r.gradient_accumulation_steps == 1
    &&& r.optimizer@ == "AdamW8bit"@
    &&& r.mixed_precision@ == "fp16"@
    &&& r.save_every_n_epochs == 1
    &&& r.seed == 42
    &&& r.max_data_loader_n_workers == 2
    &&& r.gradient_checkpointing
    &&& r.cache_latents
    &&& r.network_train_unet_only
    &&& !r.cache_text_encoder_outputs
    &&& !r.flip_aug
    &&& r.noise_offset_e4 == 0
}

impl TrainingRequest {
    /// A conservative starting point for a 6 GB card: AdamW8bit, gradient
    /// checkpointing and cached latents keep SD1.5 training inside VRAM.
    pub fn default_for(trainer: TrainerKind, dataset_config: &str, output_dir: &str, base_model: &str) -> (r: Self)
        ensures
            r.dataset_config@ == dataset_config@,
            r.output_dir@ == output_dir@,
            r.output_name@ == "lora"@,
            r.base_model@ == base_model@,
            r.trainer == trainer,
            r.network_dim == 32,
            r.network_alpha == 16,
            r.learning_rate_e8 == 10_000,
            r.max_train_epochs == 10,
            r.train_batch_size == 1,
            r.gradient_accumulation_steps == 1,
            r.optimizer@ == "AdamW8bit"@,
            r.mixed_precision@ == "fp16"@,
            r.save_every_n_epochs == 1,
            r.seed == 42,
            r.max_data_loader_n_workers == 2,
            r.gradient_checkpointing,
            r.cache_latents,
            r.network_train_unet_only,
            !r.cache_text_encoder_outputs,
            !r.flip_aug,
            r.noise_offset_e4 == 0,
            is_default_request(r, trainer, dataset_config@, output_dir@, base_model@),
    {
        TrainingRequest {
            dataset_config: owned(dataset_config),
            output_dir: owned(output_dir),
            output_name: owned("lora"),
            base_model: owned(base_model),
            trainer,
            network_dim: 32,
            network_alpha: 16,
            learning_rate_e8: 10_000,
            max_train_epochs: 10,
            train_batch_size: 1,
            gradient_accumulation_steps: 1,
            optimizer: owned("AdamW8bit"),
            mixed_precision: owned("fp16"),
            save_every_n_epochs: 1,
            seed: 42,
            max_data_loader_n_workers: 2,
            gradient_checkpointing: true,
            cache_latents: true,
            network_train_unet_only: true,
            cache_text_encoder_outputs: false,
            flip_aug: false,
            noise_offset_e4: 0,
        }
    }
}

/// Characters a LoRA file name may not hold.
pub open spec fn forbidden_name_chars() -> Seq<char> {
    seq!['/', '\\', ':', '*', '?', '"', '<', '>', '|']
}

pub open spec fn has_forbidden_char(s: Seq<char>) -> bool {
    exists|i: int| 0 <= i < s.len() && forbidden_name_chars().contains(#[trigger] s[i])
}

/// The first problem of a training request, in the order the checks run;
/// `dataset_is_file` and `base_is_file` are what the file system says about
/// the two trimmed paths.
pub open spec fn request_error(r: TrainingRequest, dataset_is_file: bool, base_is_file: bool) -> Option<
    Seq<char>,
> {
    if trim(r.dataset_config@).len() == 0 {
        Some("缺少训练集配置（dataset.toml）。"@)
    } else if !dataset_is_file {
        Some("找不到训练集配置："@ + r.dataset_config@ + "（请先导出训练集）"@)
    } else if trim(r.output_dir@).len() == 0 {
        Some("缺少训练输出目录。"@)
    } else if trim(r.output_name@).len() == 0 {
        Some("请填写 LoRA 名称。"@)
    } else if has_forbidden_char(trim(r.output_name@)) {
        Some("LoRA 名称不能包含 / \\ : * ? \" < > | 等字符。"@)
    } else if trim(r.base_model@).len() == 0 {
        Some("请选择训练用的底模（.safetensors）。"@)
    } else if !base_is_file {
        Some("找不到底模文件："@ + r.base_model@)
    } else if !(MIN_NETWORK_DIM <= r.network_dim <= MAX_NETWORK_DIM) {
        Some("network_dim 必须在 1 到 512 之间。"@)
    } else if !(MIN_NETWORK_DIM <= r.network_alpha <= MAX_NETWORK_DIM) {
        Some("network_alpha 必须在 1 到 512 之间。"@)
    } else if !(MIN_LEARNING_RATE_E8 <= r.learning_rate_e8 <= MAX_LEARNING_RATE_E8) {
        Some("学习率必须在 0.000001 到 0.1 之间。"@)
    } else if !(MIN_EPOCHS <= r.max_train_epochs <= MAX_EPOCHS) {
        Some("训练轮数必须在 1 到 1000 之间。"@)
    } else if !(MIN_BATCH_SIZE <= r.train_batch_size <= MAX_BATCH_SIZE) {
        Some("batch size 必须在 1 到 16 之间。"@)
    } else if !(MIN_ACCUMULATION <= r.gradient_accumulation_steps <= MAX_ACCUMULATION) {
        Some("梯度累积必须在 1 到 64 之间。"@)
    } else if r.max_data_loader_n_workers > MAX_DATA_LOADER_WORKERS {
        Some("数据加载进程数不能超过 8（Windows 下过大会占满内存）。"@)
    } else if r.cache_text_encoder_outputs && !r.network_train_unet_only {
        Some("缓存文本编码器输出时只能训练 UNet（请同时勾选“仅训练 UNet”）。"@)
    } else if r.noise_offset_e4 > MAX_NOISE_OFFSET_E4 {
        Some("noise_offset 必须在 0 到 1 之间。"@)
    } else if !(r.mixed_precision@ == "no"@ || r.mixed_precision@ == "fp16"@ || r.mixed_precision@
        == "bf16"@) {
        Some("mixed_precision 只能是 no / fp16 / bf16。"@)
    } else {
        None
    }
}

fn has_forbidden(v: &[char]) -> (b: bool)
    ensures
        b == has_forbidden_char(v@),
{
    let set: [char; 9] = ['/', '\\', ':', '*', '?', '"', '<', '>', '|'];
    assert(set@ =~= forbidden_name_chars());
    let mut i: usize = 0;
    while i < v.len()
        invariant
            i <= v@.len(),
            set@ == forbidden_name_chars(),
            forall|j: int| 0 <= j < i ==> !forbidden_name_chars().contains(#[trigger] v@[j]),
        decreases v@.len() - i,
    {
        if crate::text::in_set(set.as_slice(), v[i]) {
            return true;
        }
        i = i + 1;
    }
    false
}

impl TrainingRequest {
    /// Check a request before a run; `Err` holds the message shown.
    pub fn validate(&self, dataset_is_file: bool, base_is_file: bool) -> (r: Result<(), String>)
        ensures
            match request_error(*self, dataset_is_file, base_is_file) {
                None => r is Ok,
                Some(m) => r matches Err(e) && e@ == m,
            },
    {
        if is_blank(self.dataset_config.as_str()) {
            return Err(owned("缺少训练集配置（dataset.toml）。"));
        }
        if !dataset_is_file {
            return Err(concat3("找不到训练集配置：", self.dataset_config.as_str(), "（请先导出训练集）"));
        }
        if is_blank(self.output_dir.as_str()) {
            return Err(owned("缺少训练输出目录。"));
        }
        let name = trim_chars(to_chars(self.output_name.as_str()).as_slice());
        if name.len() == 0 {
            return Err(owned("请填写 LoRA 名称。"));
        }
        if has_forbidden(name.as_slice()) {
            return Err(owned("LoRA 名称不能包含 / \\ : * ? \" < > | 等字符。"));
        }
        if is_blank(self.base_model.as_str()) {
            return Err(owned("请选择训练用的底模（.safetensors）。"));
        }
        if !base_is_file {
            return Err(concat("找不到底模文件：", self.base_model.as_str()));
        }
        if !(MIN_NETWORK_DIM <= self.network_dim && self.network_dim <= MAX_NETWORK_DIM) {
            return Err(owned("network_dim 必须在 1 到 512 之间。"));
        }
        if !(MIN_NETWORK_DIM <= self.network_alpha && self.network_alpha <= MAX_NETWORK_DIM) {
            return Err(owned("network_alpha 必须在 1 到 512 之间。"));
        }
        if !(MIN_LEARNING_RATE_E8 <= self.learning_rate_e8 && self.learning_rate_e8
            <= MAX_LEARNING_RATE_E8) {
            return Err(owned("学习率必须在 0.000001 到 0.1 之间。"));
        }
        if !(MIN_EPOCHS <= self.max_train_epochs && self.max_train_epochs <= MAX_EPOCHS) {
            return Err(owned("训练轮数必须在 1 到 1000 之间。"));
        }
        if !(MIN_BATCH_SIZE <= self.train_batch_size && self.train_batch_size <= MAX_BATCH_SIZE) {
            return Err(owned("batch size 必须在 1 到 16 之间。"));
        }
        if !(MIN_ACCUMULATION <= self.gradient_accumulation_steps
            && self.gradient_accumulation_steps <= MAX_ACCUMULATION) {
            return Err(owned("梯度累积必须在 1 到 64 之间。"));
        }
        if self.max_data_loader_n_workers > MAX_DATA_LOADER_WORKERS {
            return Err(owned("数据加载进程数不能超过 8（Windows 下过大会占满内存）。"));
        }
        if self.cache_text_encoder_outputs && !self.network_train_unet_only {
            return Err(owned("缓存文本编码器输出时只能训练 UNet（请同时勾选“仅训练 UNet”）。"));
        }
        if self.noise_offset_e4 > MAX_NOISE_OFFSET_E4 {
            return Err(owned("noise_offset 必须在 0 到 1 之间。"));
        }
        let mp = self.mixed_precision.as_str();
        if !(crate::text::str_eq(mp, "no") || crate::text::str_eq(mp, "fp16")
            || crate::text::str_eq(mp, "bf16")) {
            return Err(owned("mixed_precision 只能是 no / fp16 / bf16。"));
        }
        Ok(())
    }
}

/// `n / 10^k` and its `k` fractional digits, as `{:.k$}` prints the value
/// `n * 10^-k`.
pub open spec fn fixed_point(n: nat, k: nat, scale: nat) -> Seq<char> {
    crate::text::decimal(n / scale) + "."@ + crate::text::dec_digits(n, k)
}

fn fixed_point_text(n: u64, k: u64, scale: u64) -> (r: String)
    requires
        scale > 0,
    ensures
        r@ == fixed_point(n as nat, k as nat, scale as nat),
{
    let mut v: Vec<char> = Vec::new();
    crate::text::push_decimal(&mut v, n / scale);
    v.push('.');
    crate::text::push_dec_digits(&mut v, n, k);
    proof {
        reveal_strlit(".");
    }
    assert(v@ =~= fixed_point(n as nat, k as nat, scale as nat));
    from_chars(v.as_slice())
}

pub open spec fn flag(on: bool, name: Seq<char>) -> Seq<Seq<char>> {
    if on {
        seq![name]
    } else {
        Seq::empty()
    }
}

pub open spec fn dec(n: nat) -> Seq<char> {
    crate::text::decimal(n)
}

pub open spec fn path_args(r: TrainingRequest, logging_dir: Seq<char>) -> Seq<Seq<char>> {
    seq![
        "--pretrained_model_name_or_path"@, trim(r.base_model@),
        "--dataset_config"@, trim(r.dataset_config@),
        "--output_dir"@, trim(r.output_dir@),
        "--output_name"@, trim(r.output_name@),
        "--logging_dir"@, logging_dir,
        "--network_module"@, "networks.lora"@,
    ]
}

pub open spec fn network_args(r: TrainingRequest) -> Seq<Seq<char>> {
    seq![
        "--network_dim"@, dec(r.network_dim as nat),
        "--network_alpha"@, dec(r.network_alpha as nat),
        "--learning_rate"@, fixed_point(r.learning_rate_e8 as nat, 8, 100_000_000),
        "--max_train_epochs"@, dec(r.max_train_epochs as nat),
        "--train_batch_size"@, dec(r.train_batch_size as nat),
        "--gradient_accumulation_steps"@, dec(r.gradient_accumulation_steps as nat),
    ]
}

pub open spec fn run_args(r: TrainingRequest) -> Seq<Seq<char>> {
    seq![
        "--optimizer_type"@, trim(r.optimizer@),
        "--mixed_precision"@, r.mixed_precision@,
        "--save_precision"@, "fp16"@,
        "--save_every_n_epochs"@, dec(r.save_every_n_epochs as nat),
        "--seed"@, dec(r.seed as nat),
        "--max_data_loader_n_workers"@, dec(r.max_data_loader_n_workers as nat),
        "--noise_offset"@, fixed_point(r.noise_offset_e4 as nat, 4, 10_000),
    ]
}

pub open spec fn flag_args(r: TrainingRequest) -> Seq<Seq<char>> {
    flag(r.gradient_checkpointing, "--gradient_checkpointing"@) + flag(
        r.cache_latents,
        "--cache_latents"@,
    ) + flag(r.network_train_unet_only, "--network_train_unet_only"@) + flag(
        r.cache_text_encoder_outputs,
        "--cache_text_encoder_outputs"@,
    ) + flag(r.flip_aug, "--flip_aug"@)
}

/// The sd-scripts command line of a request. Resolution, batch layout and
/// caption extension come from the dataset config and are never repeated.
pub open spec fn arguments(r: TrainingRequest, logging_dir: Seq<char>) -> Seq<Seq<char>> {
    path_args(r, logging_dir) + network_args(r) + run_args(r) + flag_args(r)
}

fn push_pair(args: &mut Vec<String>, name: &str, value: String)
    ensures
        string_views(final(args)@) == string_views(old(args)@) + seq![name@, value@],
{
    args.push(owned(name));
    args.push(value);
    assert(string_views(args@) =~= string_views(old(args)@) + seq![name@, value@]);
}

fn push_flag(args: &mut Vec<String>, on: bool, name: &str)
    ensures
        string_views(final(args)@) == string_views(old(args)@) + flag(on, name@),
{
    if on {
        args.push(owned(name));
    }
    assert(string_views(args@) =~= string_views(old(args)@) + flag(on, name@));
}

fn push_path_args(a: &mut Vec<String>, request: &TrainingRequest, logging_dir: &str)
    ensures
        string_views(final(a)@) == string_views(old(a)@) + path_args(*request, logging_dir@),
{
    push_pair(a, "--pretrained_model_name_or_path", trim_str(request.base_model.as_str()));
    push_pair(a, "--dataset_config", trim_str(request.dataset_config.as_str()));
    push_pair(a, "--output_dir", trim_str(request.output_dir.as_str()));
    push_pair(a, "--output_name", trim_str(request.output_name.as_str()));
    push_pair(a, "--logging_dir", owned(logging_dir));
    push_pair(a, "--network_module", owned("networks.lora"));
    assert(string_views(a@) =~= string_views(old(a)@) + path_args(*request, logging_dir@));
}

fn push_network_args(a: &mut Vec<String>, request: &TrainingRequest)
    ensures
        string_views(final(a)@) == string_views(old(a)@) + network_args(*request),
{
    push_pair(a, "--network_dim", crate::text::decimal_string(request.network_dim as u64));
    push_pair(a, "--network_alpha", crate::text::decimal_string(request.network_alpha as u64));
    push_pair(a, "--learning_rate", fixed_point_text(request.learning_rate_e8, 8, 100_000_000));
    push_pair(a, "--max_train_epochs", crate::text::decimal_string(request.max_train_epochs as u64));
    push_pair(a, "--train_batch_size", crate::text::decimal_string(request.train_batch_size as u64));
    push_pair(
        a,
        "--gradient_accumulation_steps",
        crate::text::decimal_string(request.gradient_accumulation_steps as u64),
    );
    assert(string_views(a@) =~= string_views(old(a)@) + network_args(*request));
}

fn push_run_args(a: &mut Vec<String>, request: &TrainingRequest)
    ensures
        string_views(final(a)@) == string_views(old(a)@) + run_args(*request),
{
    push_pair(a, "--optimizer_type", trim_str(request.optimizer.as_str()));
    push_pair(a, "--mixed_precision", request.mixed_precision.clone());
    push_pair(a, "--save_precision", owned("fp16"));
    push_pair(a, "--save_every_n_epochs", crate::text::decimal_string(request.save_every_n_epochs as u64));
    push_pair(a, "--seed", crate::text::decimal_string(request.seed));
    push_pair(
        a,
        "--max_data_loader_n_workers",
        crate::text::decimal_string(request.max_data_loader_n_workers as u64),
    );
    push_pair(a, "--noise_offset", fixed_point_text(request.noise_offset_e4 as u64, 4, 10_000));
    assert(string_views(a@) =~= string_views(old(a)@) + run_args(*request));
}

fn push_flag_args(a: &mut Vec<String>, request: &TrainingRequest)
    ensures
        string_views(final(a)@) == string_views(old(a)@) + flag_args(*request),
{
    push_flag(a, request.gradient_checkpointing, "--gradient_checkpointing");
    push_flag(a, request.cache_latents, "--cache_latents");
    push_flag(a, request.network_train_unet_only, "--network_train_unet_only");
    push_flag(a, request.cache_text_encoder_outputs, "--cache_text_encoder_outputs");
    push_flag(a, request.flip_aug, "--flip_aug");
    assert(string_views(a@) =~= string_views(old(a)@) + flag_args(*request));
}

/// Build the sd-scripts argument list.
pub fn build_arguments(request: &TrainingRequest, logging_dir: &str) -> (r: Vec<String>)
    ensures
        string_views(r@) == arguments(*request, logging_dir@),
{
    let mut a: Vec<String> = Vec::new();
    push_path_args(&mut a, request, logging_dir);
    push_network_args(&mut a, request);
    push_run_args(&mut a, request);
    push_flag_args(&mut a, request);
    assert(string_views(a@) =~= arguments(*request, logging_dir@));
    a
}


pub open spec fn shuffle_key() -> Seq<char> {
    "shuffle_caption"@
}

/// A dataset-config line that turns caption shuffling on:
/// `shuffle_caption = true` (any ASCII case, any spacing).
pub open spec fn shuffles_captions(line: Seq<char>) -> bool {
    let t = trim(line);
    is_prefix_of(shuffle_key(), t) && {
        let rest = t.subrange(15, t.len() as int);
        let k = crate::text::first_occurrence(rest, "="@);
        k >= 0 && lower_ascii(trim(rest.subrange(k + 1, rest.len() as int))) == "true"@
    }
}

pub open spec fn is_prefix_of(p: Seq<char>, s: Seq<char>) -> bool {
    crate::text::is_prefix(p, s)
}

pub open spec fn fixed_line(line: Seq<char>) -> Seq<char> {
    if shuffles_captions(line) {
        "shuffle_caption = false"@
    } else {
        line
    }
}

/// The config with every shuffling line switched off, or `None` when no
/// line shuffles. A final newline is kept.
pub open spec fn without_caption_shuffle(config: Seq<char>) -> Option<Seq<char>> {
    let ls = lines(config);
    if !(exists|i: int| 0 <= i < ls.len() && shuffles_captions(#[trigger] ls[i])) {
        None
    } else {
        Some(
            join_with(ls.map_values(|l: Seq<char>| fixed_line(l)), "\n"@) + (if config.len() > 0
                && config.last() == '\n' {
                "\n"@
            } else {
                Seq::empty()
            }),
        )
    }
}

fn line_shuffles(line: &[char], key: &[char], eq: &[char]) -> (b: bool)
    requires
        key@ == shuffle_key(),
        eq@ == "="@,
        key@.len() == 15,
        eq@.len() == 1,
    ensures
        b == shuffles_captions(line@),
{
    let t = trim_chars(line);
    if !crate::text::starts_with_chars(t.as_slice(), key) {
        return false;
    }
    let rest = crate::text::copy_chars(t.as_slice(), 15, t.len());
    match crate::text::find_from(rest.as_slice(), eq, 0) {
        None => false,
        Some(k) => {
            proof {
                crate::text::lemma_first_occurrence_bounds(rest@, eq@, 0);
            }
            let value = crate::text::copy_chars(rest.as_slice(), k + 1, rest.len());
            let tv = trim_chars(value.as_slice());
            let low = crate::text::lower_chars(tv.as_slice());
            let truth = to_chars("true");
            proof {
                reveal_strlit("true");
            }
            crate::text::chars_eq(low.as_slice(), truth.as_slice())
        },
    }
}

/// sd-scripts refuses to cache text-encoder outputs while captions are
/// shuffled, so a copy of the dataset config with shuffling turned off is
/// used for such a run; `None` when the config never shuffles.
pub fn disable_caption_shuffle(config: &str) -> (r: Option<String>)
    ensures
        match r {
            Some(t) => without_caption_shuffle(config@) == Some(t@),
            None => without_caption_shuffle(config@) is None,
        },
{
    let v = to_chars(config);
    let ls = crate::text::split_lines(v.as_slice());
    let key = to_chars("shuffle_caption");
    let eq = to_chars("=");
    let replacement = to_chars("shuffle_caption = false");
    proof {
        reveal_strlit("shuffle_caption");
        reveal_strlit("=");
        reveal_strlit("shuffle_caption = false");
    }
    let ghost lv = lines(v@);
    let mut out: Vec<Vec<char>> = Vec::new();
    let mut changed = false;
    let mut i: usize = 0;
    while i < ls.len()
        invariant
            i <= ls@.len(),
            crate::text::char_views(ls@) == lv,
            key@ == shuffle_key(),
            key@.len() == 15,
            eq@ == "="@,
            eq@.len() == 1,
            replacement@ == "shuffle_caption = false"@,
            crate::text::char_views(out@) == lv.subrange(0, i as int).map_values(|l: Seq<char>| fixed_line(l)),
            changed == exists|j: int| 0 <= j < i && shuffles_captions(#[trigger] lv[j]),
        decreases ls@.len() - i,
    {
        let ghost before = crate::text::char_views(out@);
        assert(lv[i as int] == ls@[i as int]@);
        let ghost f = |l: Seq<char>| fixed_line(l);
        assert(lv.subrange(0, i + 1).map_values(f) =~= lv.subrange(0, i as int).map_values(f).push(
            fixed_line(lv[i as int]),
        ));
        let ghost old_out = out@;
        if line_shuffles(ls[i].as_slice(), key.as_slice(), eq.as_slice()) {
            let item = crate::text::copy_chars(replacement.as_slice(), 0, replacement.len());
            assert(item@ =~= replacement@);
            out.push(item);
            changed = true;
        } else {
            let item = crate::text::copy_chars(ls[i].as_slice(), 0, ls[i].len());
            assert(item@ =~= ls@[i as int]@);
            out.push(item);
        }
        assert(out@ == old_out.push(out@.last()));
        assert(out@.last()@ == fixed_line(lv[i as int]));
        assert(crate::text::char_views(out@) =~= before.push(fixed_line(lv[i as int])));
        i = i + 1;
    }
    assert(lv.subrange(0, lv.len() as int) =~= lv);
    if !changed {
        return None;
    }
    let nl: [char; 1] = ['\n'];
    assert(nl@ =~= "\n"@) by {
        reveal_strlit("\n");
    }
    let mut text = crate::text::join_chars(&out, nl.as_slice());
    if v.len() > 0 && v[v.len() - 1] == '\n' {
        text.push('\n');
        assert(text@ =~= join_with(lv.map_values(|l: Seq<char>| fixed_line(l)), "\n"@) + "\n"@);
    } else {
        assert(text@ =~= join_with(lv.map_values(|l: Seq<char>| fixed_line(l)), "\n"@) + Seq::<char>::empty());
    }
    Some(from_chars(text.as_slice()))
}

/// Progress found in one line of sd-scripts / tqdm output. The loss is
/// handed on as the text of the number; reading it as a float is left to
/// the caller.
#[derive(Debug, Clone, PartialEq)]
pub struct KohyaProgress {
    pub epoch: Option<u32>,
    pub step: Option<u32>,
    pub total_steps: Option<u32>,
    pub loss_text: Option<String>,
}

pub open spec fn is_num_char(c: char) -> bool {
    crate::text::is_digit(c) || c == '.'
}

/// The longest prefix of digits and dots.
pub open spec fn number_prefix(s: Seq<char>) -> Seq<char>
    decreases s.len(),
{
    if s.len() > 0 && is_num_char(s[0]) {
        seq![s[0]] + number_prefix(s.drop_first())
    } else {
        Seq::empty()
    }
}

pub open spec fn epoch_of(line: Seq<char>) -> Option<u32> {
    match crate::text::second_piece(line, "epoch "@) {
        Some(rest) => crate::text::parse_u32_spec(crate::text::digit_prefix(rest)),
        None => None,
    }
}

pub open spec fn loss_of(line: Seq<char>) -> Option<Seq<char>> {
    match crate::text::second_piece(line, "loss="@) {
        Some(rest) => if number_prefix(rest).len() > 0 {
            Some(number_prefix(rest))
        } else {
            None
        },
        None => None,
    }
}

pub open spec fn step_marks() -> Seq<char> {
    seq!['%', ']', '[']
}

/// `180/1500` (possibly wrapped in `%`, `]` or `[` at the end) as a step and
/// a positive total.
pub open spec fn step_of_chunk(chunk: Seq<char>) -> Option<(u32, u32)> {
    let t = crate::text::trim_end_in(chunk, step_marks());
    let k = crate::text::first_occurrence(t, "/"@);
    if k < 0 {
        None
    } else {
        let left = crate::text::parse_u32_spec(crate::text::only_digits(t.subrange(0, k)));
        let right = crate::text::parse_u32_spec(
            crate::text::only_digits(t.subrange(k + 1, t.len() as int)),
        );
        match (left, right) {
            (Some(a), Some(b)) => if b > 0 {
                Some((a, b))
            } else {
                None
            },
            _ => None,
        }
    }
}

pub open spec fn first_step(chunks: Seq<Seq<char>>) -> Option<(u32, u32)>
    decreases chunks.len(),
{
    if chunks.len() == 0 {
        None
    } else {
        match step_of_chunk(chunks[0]) {
            Some(p) => Some(p),
            None => first_step(chunks.drop_first()),
        }
    }
}

/// tqdm prints `steps:  12%|#2| 180/1500 [00:20<02:30, 1.2it/s]`.
pub open spec fn steps_of(line: Seq<char>) -> Option<(u32, u32)> {
    if crate::text::contains(line, "steps:"@) {
        first_step(crate::text::words(line))
    } else {
        None
    }
}

fn number_prefix_of(v: &[char]) -> (r: Vec<char>)
    ensures
        r@ == number_prefix(v@),
{
    let mut i: usize = 0;
    let n = v.len();
    assert(v@.subrange(0, n as int) =~= v@);
    while i < n && (('0' <= v[i] && v[i] <= '9') || v[i] == '.')
        invariant
            i <= n,
            n == v@.len(),
            number_prefix(v@) == v@.subrange(0, i as int) + number_prefix(v@.subrange(i as int, n as int)),
        decreases n - i,
    {
        let ghost rest = v@.subrange(i as int, n as int);
        assert(rest.drop_first() =~= v@.subrange(i + 1, n as int));
        assert(v@.subrange(0, i + 1) =~= v@.subrange(0, i as int) + seq![v@[i as int]]);
        i = i + 1;
    }
    assert(number_prefix(v@.subrange(i as int, n as int)) =~= Seq::<char>::empty());
    crate::text::copy_chars(v, 0, i)
}

fn chunk_step(chunk: &[char], marks: &[char], slash: &[char]) -> (r: Option<(u32, u32)>)
    requires
        marks@ == step_marks(),
        slash@ == "/"@,
        slash@.len() == 1,
    ensures
        r == step_of_chunk(chunk@),
{
    let t = crate::text::trim_end_matching(chunk, marks);
    let tn = t.len();
    match crate::text::find_from(t.as_slice(), slash, 0) {
        None => None,
        Some(k) => {
            proof {
                crate::text::lemma_first_occurrence_bounds(t@, slash@, 0);
            }
            let l = crate::text::only_digits_of(crate::text::copy_chars(t.as_slice(), 0, k).as_slice());
            let rr = crate::text::only_digits_of(
                crate::text::copy_chars(t.as_slice(), k + 1, tn).as_slice(),
            );
            let a = crate::text::parse_u32_digits(l.as_slice());
            let b = crate::text::parse_u32_digits(rr.as_slice());
            match (a, b) {
                (Some(x), Some(y)) => if y > 0 {
                    Some((x, y))
                } else {
                    None
                },
                _ => None,
            }
        },
    }
}

/// Parse one line of sd-scripts/tqdm output for progress information.
pub fn parse_progress(line: &str) -> (r: KohyaProgress)
    ensures
        r.epoch == epoch_of(line@),
        r.step == (match steps_of(line@) {
            Some(p) => Some(p.0),
            None => None,
        }),
        r.total_steps == (match steps_of(line@) {
            Some(p) => Some(p.1),
            None => None,
        }),
        match r.loss_text {
            Some(t) => loss_of(line@) == Some(t@),
            None => loss_of(line@) is None,
        },
{
    let v = to_chars(line);
    let ep = to_chars("epoch ");
    let lo = to_chars("loss=");
    let st = to_chars("steps:");
    let slash = to_chars("/");
    let marks: [char; 3] = ['%', ']', '['];
    proof {
        reveal_strlit("epoch ");
        reveal_strlit("loss=");
        reveal_strlit("steps:");
        reveal_strlit("/");
        assert(marks@ =~= step_marks());
    }
    let epoch = match crate::text::second_piece_of(v.as_slice(), ep.as_slice()) {
        Some(rest) => crate::text::parse_u32_digits(crate::text::digit_prefix_of(rest.as_slice()).as_slice()),
        None => None,
    };
    let loss_text = match crate::text::second_piece_of(v.as_slice(), lo.as_slice()) {
        Some(rest) => {
            let run = number_prefix_of(rest.as_slice());
            if run.len() > 0 {
                Some(from_chars(run.as_slice()))
            } else {
                None
            }
        },
        None => None,
    };
    let mut step: Option<u32> = None;
    let mut total: Option<u32> = None;
    if crate::text::contains_chars(v.as_slice(), st.as_slice()) {
        let chunks = crate::text::split_words(v.as_slice());
        let ghost ws = crate::text::words(v@);
        let mut i: usize = 0;
        assert(ws.subrange(0, ws.len() as int) =~= ws);
        while i < chunks.len()
            invariant
                i <= chunks@.len(),
                crate::text::char_views(chunks@) == ws,
                marks@ == step_marks(),
                slash@ == "/"@,
                slash@.len() == 1,
                first_step(ws) == first_step(ws.subrange(i as int, ws.len() as int)),
                step is None && total is None,
                v@ == line@,
                ws == crate::text::words(line@),
                steps_of(line@) == first_step(ws),
                epoch == epoch_of(line@),
                match loss_text {
                    Some(t) => loss_of(line@) == Some(t@),
                    None => loss_of(line@) is None,
                },
            decreases chunks@.len() - i,
        {
            let ghost rest = ws.subrange(i as int, ws.len() as int);
            assert(rest[0] == chunks@[i as int]@);
            assert(rest.drop_first() =~= ws.subrange(i + 1, ws.len() as int));
            match chunk_step(chunks[i].as_slice(), marks.as_slice(), slash.as_slice()) {
                Some((a, b)) => {
                    return KohyaProgress {
                        epoch,
                        step: Some(a),
                        total_steps: Some(b),
                        loss_text,
                    };
                },
                None => {},
            }
            i = i + 1;
        }
    }
    KohyaProgress { epoch, step, total_steps: total, loss_text }
}


proof fn lemma_strip_cr_keeps_shuffling(l: Seq<char>)
    ensures
        shuffles_captions(crate::text::strip_cr(l)) == shuffles_captions(l),
{
    if l.len() > 0 && l.last() == '\r' {
        crate::text::lemma_trim_without_last_ws(l);
    }
}

proof fn lemma_replacement_line()
    ensures
        !shuffles_captions("shuffle_caption = false"@),
        crate::text::has_no_newline("shuffle_caption = false"@),
        !shuffles_captions(Seq::<char>::empty()),
{
    reveal_strlit("shuffle_caption = false");
    reveal_strlit("shuffle_caption");
    reveal_strlit("=");
    reveal_strlit("true");
    let s = "shuffle_caption = false"@;
    assert(crate::text::trim_start(s) == s);
    assert(crate::text::trim_end(s) == s);
    let rest = s.subrange(15, s.len() as int);
    assert(rest =~= seq![' ', '=', ' ', 'f', 'a', 'l', 's', 'e']);
    assert(rest.subrange(0, 1)[0] == ' ');
    assert(!crate::text::occurs_at(rest, "="@, 0));
    assert(rest.subrange(1, 2) =~= "="@);
    assert(crate::text::first_occurrence_from(rest, "="@, 1) == 1);
    assert(crate::text::first_occurrence(rest, "="@) == 1);
    let v = rest.subrange(2, rest.len() as int);
    assert(v =~= seq![' ', 'f', 'a', 'l', 's', 'e']);
    assert(v.drop_first() =~= seq!['f', 'a', 'l', 's', 'e']);
    assert(crate::text::trim_start(v.drop_first()) == v.drop_first());
    assert(crate::text::trim_start(v) == v.drop_first());
    assert(crate::text::trim_end(v.drop_first()) == v.drop_first());
    assert(lower_ascii(trim(v)).len() == 5);
    assert(crate::text::trim_start(Seq::<char>::empty()) =~= Seq::<char>::empty());
    assert(crate::text::trim_end(Seq::<char>::empty()) =~= Seq::<char>::empty());
}

/// A rewritten config needs no second rewrite: no line of it turns caption
/// shuffling on any more.
pub proof fn law_rewritten_config_is_left_alone(config: Seq<char>)
    requires
        without_caption_shuffle(config) is Some,
    ensures
        without_caption_shuffle(without_caption_shuffle(config)->0) is None,
{
    reveal_strlit("\n");
    assert("\n"@ =~= crate::text::newline());
    let ls = lines(config);
    let f = ls.map_values(|l: Seq<char>| fixed_line(l));
    let tail = if config.len() > 0 && config.last() == '\n' {
        "\n"@
    } else {
        Seq::<char>::empty()
    };
    let t = join_with(f, "\n"@) + tail;
    assert(without_caption_shuffle(config)->0 == t);
    crate::text::lemma_lines_no_newline(config);
    lemma_replacement_line();
    let ok = |x: Seq<char>| !shuffles_captions(x);
    assert forall|i: int| 0 <= i < f.len() implies crate::text::has_no_newline(#[trigger] f[i]) by {
        assert(f[i] == fixed_line(ls[i]));
    }
    assert forall|i: int| 0 <= i < f.len() implies ok(#[trigger] f[i]) && ok(crate::text::strip_cr(f[i])) by {
        assert(f[i] == fixed_line(ls[i]));
        lemma_strip_cr_keeps_shuffling(f[i]);
    }
    crate::text::lemma_lines_of_join(f, tail, ok);
    let lt = lines(t);
    assert forall|i: int| 0 <= i < lt.len() implies !shuffles_captions(#[trigger] lt[i]) by {
        assert(ok(lt[i]));
    }
}


/// A line that ends with a carriage return.
pub open spec fn ends_with_cr(l: Seq<char>) -> bool {
    l.len() > 0 && l.last() == '\r'
}

/// Text that ends with a line feed.
pub open spec fn ends_with_newline(s: Seq<char>) -> bool {
    s.len() > 0 && s.last() == '\n'
}

/// The lines a rewritten config reads as: the config's lines with every
/// shuffling line replaced by `shuffle_caption = false`, each line losing a
/// final carriage return where a line feed now follows it.
pub open spec fn rewritten_lines(ls: Seq<Seq<char>>, final_newline: bool) -> Seq<Seq<char>> {
    crate::text::joined_lines(ls.map_values(|l: Seq<char>| fixed_line(l)), final_newline)
}

proof fn lemma_join_last(g: Seq<Seq<char>>, sep: Seq<char>)
    requires
        g.len() > 0,
        g.last().len() > 0,
    ensures
        join_with(g, sep).len() > 0,
        join_with(g, sep).last() == g.last().last(),
{
}

/// Turning shuffling off rewrites exactly the shuffling lines: the config is
/// left alone when no line shuffles; otherwise the lines of the result are
/// the config's lines with each shuffling line replaced (a carriage return
/// before a line feed dropped, as `str::lines` drops it), and the result ends
/// with a line feed exactly when the config does.
pub proof fn law_rewrite_replaces_shuffling_lines(config: Seq<char>)
    ensures
        without_caption_shuffle(config) is None <==> forall|i: int|
            0 <= i < lines(config).len() ==> !shuffles_captions(#[trigger] lines(config)[i]),
        without_caption_shuffle(config) is Some ==> lines(without_caption_shuffle(config)->0) == rewritten_lines(
            lines(config),
            ends_with_newline(config),
        ) && ends_with_newline(without_caption_shuffle(config)->0) == ends_with_newline(config),
        without_caption_shuffle(config) is Some && (forall|i: int|
            0 <= i < lines(config).len() ==> !ends_with_cr(#[trigger] lines(config)[i]))
            ==> lines(without_caption_shuffle(config)->0) == lines(config).map_values(|l: Seq<char>| fixed_line(l)),
{
    if without_caption_shuffle(config) is Some {
        reveal_strlit("\n");
        reveal_strlit("shuffle_caption = false");
        assert("\n"@ =~= crate::text::newline());
        let ls = lines(config);
        let f = ls.map_values(|l: Seq<char>| fixed_line(l));
        let nl = ends_with_newline(config);
        let tail = if nl {
            "\n"@
        } else {
            Seq::<char>::empty()
        };
        let t = join_with(f, "\n"@) + tail;
        assert(without_caption_shuffle(config)->0 == t);
        crate::text::lemma_lines_no_newline(config);
        lemma_replacement_line();
        assert forall|i: int| 0 <= i < f.len() implies crate::text::has_no_newline(#[trigger] f[i]) by {
            assert(f[i] == fixed_line(ls[i]));
        }
        assert(ls.len() > 0);
        if !nl {
            assert(config.len() > 0);
            crate::text::lemma_last_line_not_empty(config);
            assert(f.last() == fixed_line(ls.last()));
            assert(f.last().len() > 0);
            lemma_join_last(f, "\n"@);
            assert(crate::text::has_no_newline(f.last()));
            assert(t =~= join_with(f, "\n"@));
        }
        crate::text::lemma_lines_of_join_exact(f, tail);
        assert(lines(t) == rewritten_lines(ls, nl));
        if forall|i: int| 0 <= i < ls.len() ==> !ends_with_cr(#[trigger] ls[i]) {
            assert forall|i: int| 0 <= i < f.len() implies crate::text::strip_cr(#[trigger] f[i]) == f[i] by {
                assert(f[i] == fixed_line(ls[i]));
                assert(!ends_with_cr(ls[i]));
            }
            assert(lines(t) =~= f);
        }
    }
}


/// The network size and alpha reach sd-scripts as given: in every argument
/// list, `--network_dim` is followed by the decimal text of the request's
/// dimension and `--network_alpha` by that of its alpha.
pub proof fn law_network_size_is_passed_through(r: TrainingRequest, logging_dir: Seq<char>)
    ensures
        arguments(r, logging_dir).len() > 15,
        arguments(r, logging_dir)[12] == "--network_dim"@,
        arguments(r, logging_dir)[13] == crate::text::decimal(r.network_dim as nat),
        arguments(r, logging_dir)[14] == "--network_alpha"@,
        arguments(r, logging_dir)[15] == crate::text::decimal(r.network_alpha as nat),
{
    let a = arguments(r, logging_dir);
    assert(path_args(r, logging_dir).len() == 12);
    assert(a[12] == network_args(r)[0]);
    assert(a[13] == network_args(r)[1]);
    assert(a[14] == network_args(r)[2]);
    assert(a[15] == network_args(r)[3]);
}


proof fn lemma_digit_run_then_other(d: Seq<char>, u: Seq<char>)
    requires
        crate::text::all_digits(d),
        u.len() == 0 || !crate::text::is_digit(u[0]),
    ensures
        crate::text::digit_prefix(d + u) == d,
    decreases d.len(),
{
    if d.len() == 0 {
        assert(d + u =~= u);
    } else {
        assert((d + u).drop_first() =~= d.drop_first() + u);
        lemma_digit_run_then_other(d.drop_first(), u);
        assert(d =~= seq![d[0]] + d.drop_first());
    }
}

/// The epoch of a progress line is the whole number written after
/// `epoch `, however many digits it has: for every epoch `n` and every text
/// after it that does not go on with a digit, the line reads as epoch `n`.
pub proof fn law_epoch_reads_the_whole_number(n: u32, tail: Seq<char>)
    requires
        tail.len() == 0 || !crate::text::is_digit(tail[0]),
    ensures
        epoch_of("epoch "@ + crate::text::decimal(n as nat) + tail) == Some(n),
{
    reveal_strlit("epoch ");
    let e = "epoch "@;
    let d = crate::text::decimal(n as nat);
    crate::app_settings::lemma_decimal_parses(n as nat);
    let line = e + d + tail;
    assert(e.len() == 6);
    assert(line.subrange(0, 6) =~= e);
    assert(crate::text::first_occurrence(line, e) == 0);
    let rest = line.subrange(6, line.len() as int);
    assert(rest =~= d + tail);
    let j = crate::text::first_occurrence(rest, e);
    crate::text::lemma_first_occurrence_bounds(rest, e, 0);
    if j >= 0 {
        assert(rest.subrange(j, j + 6) == e);
        assert(rest[j] == rest.subrange(j, j + 6)[0]);
        assert(e[0] == 'e');
        if j < d.len() {
            assert(rest[j] == d[j]);
            assert(crate::text::is_digit(d[j]));
        }
        let u = tail.subrange(0, j - d.len());
        assert(rest.subrange(0, j) =~= d + u);
        if u.len() > 0 {
            assert(u[0] == tail[0]);
        }
        lemma_digit_run_then_other(d, u);
    } else {
        lemma_digit_run_then_other(d, tail);
    }
}


proof fn lemma_number_run_then_other(d: Seq<char>, u: Seq<char>)
    requires
        forall|i: int| 0 <= i < d.len() ==> is_num_char(#[trigger] d[i]),
        u.len() == 0 || !is_num_char(u[0]),
    ensures
        number_prefix(d + u) == d,
    decreases d.len(),
{
    if d.len() == 0 {
        assert(d + u =~= u);
    } else {
        assert((d + u).drop_first() =~= d.drop_first() + u);
        assert forall|i: int| 0 <= i < d.drop_first().len() implies is_num_char(#[trigger] d.drop_first()[i]) by {
            assert(d.drop_first()[i] == d[i + 1]);
        }
        lemma_number_run_then_other(d.drop_first(), u);
        assert(d =~= seq![d[0]] + d.drop_first());
    }
}

/// The loss of a progress line is the whole run of digits and dots written
/// after `loss=`: for every such non-empty run followed by text that does
/// not go on with a digit or a dot, the line reads as that loss.
pub proof fn law_loss_reads_the_whole_number(d: Seq<char>, tail: Seq<char>)
    requires
        d.len() > 0,
        forall|i: int| 0 <= i < d.len() ==> is_num_char(#[trigger] d[i]),
        tail.len() == 0 || !is_num_char(tail[0]),
    ensures
        loss_of("loss="@ + d + tail) == Some(d),
{
    reveal_strlit("loss=");
    let e = "loss="@;
    let line = e + d + tail;
    assert(e.len() == 5);
    assert(line.subrange(0, 5) =~= e);
    assert(crate::text::first_occurrence(line, e) == 0);
    let rest = line.subrange(5, line.len() as int);
    assert(rest =~= d + tail);
    let j = crate::text::first_occurrence(rest, e);
    crate::text::lemma_first_occurrence_bounds(rest, e, 0);
    if j >= 0 {
        assert(rest.subrange(j, j + 5) == e);
        assert(rest[j] == rest.subrange(j, j + 5)[0]);
        assert(e[0] == 'l');
        if j < d.len() {
            assert(rest[j] == d[j]);
            assert(is_num_char(d[j]));
        }
        let u = tail.subrange(0, j - d.len());
        assert(rest.subrange(0, j) =~= d + u);
        if u.len() > 0 {
            assert(u[0] == tail[0]);
        }
        lemma_number_run_then_other(d, u);
    } else {
        lemma_number_run_then_other(d, tail);
    }
}

/// Every training setting reaches sd-scripts under its own flag: in every
/// argument list each flag below is followed by the request's value for it.
pub proof fn law_training_values_follow_their_flags(r: TrainingRequest, logging_dir: Seq<char>)
    ensures
        arguments(r, logging_dir).len() >= 38,
        arguments(r, logging_dir)[0] == "--pretrained_model_name_or_path"@,
        arguments(r, logging_dir)[1] == trim(r.base_model@),
        arguments(r, logging_dir)[2] == "--dataset_config"@,
        arguments(r, logging_dir)[3] == trim(r.dataset_config@),
        arguments(r, logging_dir)[4] == "--output_dir"@,
        arguments(r, logging_dir)[5] == trim(r.output_dir@),
        arguments(r, logging_dir)[6] == "--output_name"@,
        arguments(r, logging_dir)[7] == trim(r.output_name@),
        arguments(r, logging_dir)[8] == "--logging_dir"@,
        arguments(r, logging_dir)[9] == logging_dir,
        arguments(r, logging_dir)[16] == "--learning_rate"@,
        arguments(r, logging_dir)[17] == fixed_point(r.learning_rate_e8 as nat, 8, 100_000_000),
        arguments(r, logging_dir)[18] == "--max_train_epochs"@,
        arguments(r, logging_dir)[19] == crate::text::decimal(r.max_train_epochs as nat),
        arguments(r, logging_dir)[20] == "--train_batch_size"@,
        arguments(r, logging_dir)[21] == crate::text::decimal(r.train_batch_size as nat),
        arguments(r, logging_dir)[22] == "--gradient_accumulation_steps"@,
        arguments(r, logging_dir)[23] == crate::text::decimal(r.gradient_accumulation_steps as nat),
        arguments(r, logging_dir)[24] == "--optimizer_type"@,
        arguments(r, logging_dir)[25] == trim(r.optimizer@),
        arguments(r, logging_dir)[26] == "--mixed_precision"@,
        arguments(r, logging_dir)[27] == r.mixed_precision@,
        arguments(r, logging_dir)[30] == "--save_every_n_epochs"@,
        arguments(r, logging_dir)[31] == crate::text::decimal(r.save_every_n_epochs as nat),
        arguments(r, logging_dir)[32] == "--seed"@,
        arguments(r, logging_dir)[33] == crate::text::decimal(r.seed as nat),
        arguments(r, logging_dir)[34] == "--max_data_loader_n_workers"@,
        arguments(r, logging_dir)[35] == crate::text::decimal(r.max_data_loader_n_workers as nat),
        arguments(r, logging_dir)[36] == "--noise_offset"@,
        arguments(r, logging_dir)[37] == fixed_point(r.noise_offset_e4 as nat, 4, 10_000),
{
    let a = arguments(r, logging_dir);
    let pa = path_args(r, logging_dir);
    let na = network_args(r);
    let ra = run_args(r);
    assert(pa.len() == 12 && na.len() == 12 && ra.len() == 14);
    assert forall|i: int| 0 <= i < 12 implies a[i] == pa[i] by {}
    assert forall|i: int| 12 <= i < 24 implies a[i] == na[i - 12] by {}
    assert forall|i: int| 24 <= i < 38 implies a[i] == ra[i - 24] by {}
}

} // verus!
