//! Integration with a user-installed ComfyUI (kept external on purpose).
//!
//! ComfyUI is GPL-3.0 while this project ships under MIT, so the application
//! never bundles it: it only detects an existing installation, optionally
//! starts it and drives it over its local HTTP API. This module holds the
//! layout rules and the text handling; the shell probes the file system and
//! talks HTTP.
use vstd::prelude::*;
use crate::paths::{join, join_path, parent, parent_path};
use crate::workflow::{as_array, as_text, field, get_field, items_model, model, string_items, Json, JsonModel};
use crate::text::{
    decimal, concat, from_chars, is_prefix, join_chars, join_with, lines, owned, split_lines, split_words,
    to_chars, trim, trim_chars, trim_in, trim_matching, trim_start_in, trim_start_matching, words,
    char_views, concat3, contains, decimal_string, trim_str,
};

verus! {

pub const DEFAULT_COMFY_PORT: u16 = 8188;

pub const MIN_COMFY_PORT: u16 = 1024;

#[derive(Debug)]
pub enum ComfyError {
    NotConfigured,
    InvalidRoot(String),
    NotRunning(String),
    Request(String),
    Response(String),
    Template(String),
    Io(String),
}

/// The value of a [`ComfyError`]: its variant and its text.
pub enum ComfyErrorView {
    NotConfigured,
    InvalidRoot(Seq<char>),
    NotRunning(Seq<char>),
    Request(Seq<char>),
    Response(Seq<char>),
    Template(Seq<char>),
    Io(Seq<char>),
}

impl View for ComfyError {
    type V = ComfyErrorView;

    open spec fn view(&self) -> ComfyErrorView {
        match self {
            ComfyError::NotConfigured => ComfyErrorView::NotConfigured,
            ComfyError::InvalidRoot(s) => ComfyErrorView::InvalidRoot(s@),
            ComfyError::NotRunning(s) => ComfyErrorView::NotRunning(s@),
            ComfyError::Request(s) => ComfyErrorView::Request(s@),
            ComfyError::Response(s) => ComfyErrorView::Response(s@),
            ComfyError::Template(s) => ComfyErrorView::Template(s@),
            ComfyError::Io(s) => ComfyErrorView::Io(s@),
        }
    }
}

pub open spec fn error_text(e: ComfyErrorView) -> Seq<char> {
    match e {
        ComfyErrorView::NotConfigured => "未配置 ComfyUI 目录"@,
        ComfyErrorView::InvalidRoot(s) => "ComfyUI 目录无效："@ + s,
        ComfyErrorView::NotRunning(s) => "ComfyUI 未运行："@ + s,
        ComfyErrorView::Request(s) => "ComfyUI 请求失败："@ + s,
        ComfyErrorView::Response(s) => "ComfyUI 返回错误："@ + s,
        ComfyErrorView::Template(s) => "工作流模板无效："@ + s,
        ComfyErrorView::Io(s) => "文件操作失败："@ + s,
    }
}

impl ComfyError {
    /// The message shown to the user.
    pub fn message(&self) -> (r: String)
        ensures
            r@ == error_text(self@),
    {
        match self {
            ComfyError::NotConfigured => owned("未配置 ComfyUI 目录"),
            ComfyError::InvalidRoot(s) => concat("ComfyUI 目录无效：", s.as_str()),
            ComfyError::NotRunning(s) => concat("ComfyUI 未运行：", s.as_str()),
            ComfyError::Request(s) => concat("ComfyUI 请求失败：", s.as_str()),
            ComfyError::Response(s) => concat("ComfyUI 返回错误：", s.as_str()),
            ComfyError::Template(s) => concat("工作流模板无效：", s.as_str()),
            ComfyError::Io(s) => concat("文件操作失败：", s.as_str()),
        }
    }
}

/// Paths derived from the configured ComfyUI root.
#[derive(Debug, Clone, PartialEq, Eq)]
pub struct ComfyPaths {
    /// Directory that contains `ComfyUI/`, `python/` and the launcher.
    pub root: String,
    pub app_dir: String,
    pub python: String,
    pub main_script: String,
    pub models_dir: String,
    pub loras_dir: String,
    pub output_dir: String,
}

pub struct ComfyPathsView {
    pub root: Seq<char>,
    pub app_dir: Seq<char>,
    pub python: Seq<char>,
    pub main_script: Seq<char>,
    pub models_dir: Seq<char>,
    pub loras_dir: Seq<char>,
    pub output_dir: Seq<char>,
}

impl View for ComfyPaths {
    type V = ComfyPathsView;

    open spec fn view(&self) -> ComfyPathsView {
        ComfyPathsView {
            root: self.root@,
            app_dir: self.app_dir@,
            python: self.python@,
            main_script: self.main_script@,
            models_dir: self.models_dir@,
            loras_dir: self.loras_dir@,
            output_dir: self.output_dir@,
        }
    }
}

/// What the file system says about the candidate files of a ComfyUI root:
/// `root\ComfyUI\main.py`, `root\main.py`, `root\python\python.exe`,
/// `<parent>\python\python.exe` and `<parent>\venv\Scripts\python.exe`.
pub struct ComfyLayoutProbe {
    pub nested_main: bool,
    pub direct_main: bool,
    pub root_python: bool,
    pub parent_python: bool,
    pub parent_venv_python: bool,
}

pub open spec fn python_under(dir: Seq<char>) -> Seq<char> {
    join(join(dir, "python"@), "python.exe"@)
}

pub open spec fn venv_python_under(dir: Seq<char>) -> Seq<char> {
    join(join(join(dir, "venv"@), "Scripts"@), "python.exe"@)
}

/// The files the shell has to probe for a configured root.
pub struct ComfyProbeTargets {
    pub nested_main: String,
    pub direct_main: String,
    pub root_python: String,
    pub parent_python: Option<String>,
    pub parent_venv_python: Option<String>,
}

pub fn probe_targets(root: &str) -> (r: ComfyProbeTargets)
    ensures
        r.nested_main@ == join(join(trim(root@), "ComfyUI"@), "main.py"@),
        r.direct_main@ == join(trim(root@), "main.py"@),
        r.root_python@ == python_under(trim(root@)),
        r.parent_python is Some <==> parent(trim(root@)) is Some,
        r.parent_venv_python is Some <==> parent(trim(root@)) is Some,
        r.parent_python matches Some(p) ==> p@ == python_under(parent(trim(root@))->0),
        r.parent_venv_python matches Some(p) ==> p@ == venv_python_under(parent(trim(root@))->0),
{
    let r = crate::text::trim_str(root);
    let app = join_path(r.as_str(), "ComfyUI");
    let (pp, pv) = match parent_path(r.as_str()) {
        Some(p) => (Some(python_path(p.as_str())), Some(venv_python_path(p.as_str()))),
        None => (None, None),
    };
    ComfyProbeTargets {
        nested_main: join_path(app.as_str(), "main.py"),
        direct_main: join_path(r.as_str(), "main.py"),
        root_python: python_path(r.as_str()),
        parent_python: pp,
        parent_venv_python: pv,
    }
}

fn python_path(dir: &str) -> (r: String)
    ensures
        r@ == python_under(dir@),
{
    join_path(join_path(dir, "python").as_str(), "python.exe")
}

fn venv_python_path(dir: &str) -> (r: String)
    ensures
        r@ == venv_python_under(dir@),
{
    join_path(join_path(join_path(dir, "venv").as_str(), "Scripts").as_str(), "python.exe")
}

pub open spec fn missing_main_text(root: Seq<char>) -> Seq<char> {
    root + " 下没有找到 ComfyUI\\main.py"@
}

pub open spec fn missing_python_text(python: Seq<char>) -> Seq<char> {
    python + " 下没有找到 python.exe"@
}

pub open spec fn layout_paths(
    root_dir: Seq<char>,
    app: Seq<char>,
    python: Seq<char>,
    output_override: Seq<char>,
) -> ComfyPathsView {
    let models = join(app, "models"@);
    ComfyPathsView {
        root: root_dir,
        app_dir: app,
        python,
        main_script: join(app, "main.py"@),
        models_dir: models,
        loras_dir: join(models, "loras"@),
        output_dir: if trim(output_override).len() == 0 {
            join(join(root_dir, "Images"@), "generated"@)
        } else {
            trim(output_override)
        },
    }
}

/// The ComfyUI layout for a configured root, given what the file system says
/// about its candidate files: either a portable package holding `ComfyUI\`
/// and `python\`, or the `ComfyUI` app directory itself.
pub open spec fn comfy_layout(root: Seq<char>, output_override: Seq<char>, probe: ComfyLayoutProbe) -> Result<
    ComfyPathsView,
    ComfyErrorView,
> {
    let r = trim(root);
    if r.len() == 0 {
        Err(ComfyErrorView::NotConfigured)
    } else if probe.nested_main {
        if probe.root_python {
            Ok(layout_paths(r, join(r, "ComfyUI"@), python_under(r), output_override))
        } else {
            Err(ComfyErrorView::InvalidRoot(missing_python_text(python_under(r))))
        }
    } else if probe.direct_main {
        match parent(r) {
            None => Err(ComfyErrorView::InvalidRoot(root)),
            Some(p) => {
                let python = if probe.parent_python {
                    python_under(p)
                } else {
                    venv_python_under(p)
                };
                if probe.parent_python || probe.parent_venv_python {
                    Ok(layout_paths(p, r, python, output_override))
                } else {
                    Err(ComfyErrorView::InvalidRoot(missing_python_text(python)))
                }
            },
        }
    } else {
        Err(ComfyErrorView::InvalidRoot(missing_main_text(r)))
    }
}

fn build_paths(root_dir: String, app: String, python: String, output_override: &str) -> (r:
    ComfyPaths)
    ensures
        r@ == layout_paths(root_dir@, app@, python@, output_override@),
{
    let models = join_path(app.as_str(), "models");
    let loras = join_path(models.as_str(), "loras");
    let main_script = join_path(app.as_str(), "main.py");
    let o = crate::text::trim_str(output_override);
    let output_dir = if o.as_str().is_empty() {
        join_path(join_path(root_dir.as_str(), "Images").as_str(), "generated")
    } else {
        o
    };
    ComfyPaths {
        root: root_dir,
        app_dir: app,
        python,
        main_script,
        models_dir: models,
        loras_dir: loras,
        output_dir,
    }
}

/// Resolve the ComfyUI layout from the configured root.
pub fn resolve_paths(root: &str, output_override: &str, _port: u16, probe: &ComfyLayoutProbe) -> (r:
    Result<ComfyPaths, ComfyError>)
    ensures
        match r {
            Ok(p) => comfy_layout(root@, output_override@, *probe) == Ok::<
                ComfyPathsView,
                ComfyErrorView,
            >(p@),
            Err(e) => comfy_layout(root@, output_override@, *probe) == Err::<
                ComfyPathsView,
                ComfyErrorView,
            >(e@),
        },
{
    let r = crate::text::trim_str(root);
    if r.as_str().is_empty() {
        return Err(ComfyError::NotConfigured);
    }
    if probe.nested_main {
        let python = python_path(r.as_str());
        if !probe.root_python {
            return Err(ComfyError::InvalidRoot(concat(python.as_str(), " 下没有找到 python.exe")));
        }
        let app = join_path(r.as_str(), "ComfyUI");
        return Ok(build_paths(r, app, python, output_override));
    }
    if probe.direct_main {
        match parent_path(r.as_str()) {
            None => {
                return Err(ComfyError::InvalidRoot(owned(root)));
            },
            Some(p) => {
                let python = if probe.parent_python {
                    python_path(p.as_str())
                } else {
                    venv_python_path(p.as_str())
                };
                if !(probe.parent_python || probe.parent_venv_python) {
                    return Err(
                        ComfyError::InvalidRoot(concat(python.as_str(), " 下没有找到 python.exe")),
                    );
                }
                return Ok(build_paths(p, r, python, output_override));
            },
        }
    }
    Err(ComfyError::InvalidRoot(concat(r.as_str(), " 下没有找到 ComfyUI\\main.py")))
}

pub const SUMMARY_LIMIT: usize = 300;

/// A reply body shortened for an error message: white space collapsed to
/// single spaces, and cut to 300 characters followed by `…`.
pub open spec fn summary(text: Seq<char>) -> Seq<char> {
    let collapsed = join_with(words(text), " "@);
    if collapsed.len() > 300 {
        collapsed.subrange(0, 300).push('…')
    } else {
        collapsed
    }
}

pub fn summarize(text: &str) -> (r: String)
    ensures
        r@ == summary(text@),
{
    let v = to_chars(text);
    let w = split_words(v.as_slice());
    let space: [char; 1] = [' '];
    proof {
        reveal_strlit(" ");
        assert(space@ =~= " "@);
    }
    let joined = join_chars(&w, space.as_slice());
    if joined.len() > SUMMARY_LIMIT {
        let mut cut = crate::text::copy_chars(joined.as_slice(), 0, SUMMARY_LIMIT);
        cut.push('…');
        from_chars(cut.as_slice())
    } else {
        from_chars(joined.as_slice())
    }
}

pub open spec fn version_key() -> Seq<char> {
    "__version__"@
}

pub open spec fn eq_space() -> Seq<char> {
    seq!['=', ' ']
}

pub open spec fn quotes() -> Seq<char> {
    seq!['"', '\'']
}

/// The value of a `__version__ = "x"` line.
pub open spec fn version_value(line: Seq<char>) -> Seq<char> {
    let t = trim(line);
    trim_in(trim(trim_start_in(t.subrange(11, t.len() as int), eq_space())), quotes())
}

/// The value of the first line that starts with `__version__`.
pub open spec fn first_version(ls: Seq<Seq<char>>) -> Option<Seq<char>>
    decreases ls.len(),
{
    if ls.len() == 0 {
        None
    } else if is_prefix(version_key(), trim(ls[0])) {
        Some(version_value(ls[0]))
    } else {
        first_version(ls.drop_first())
    }
}

/// The version that `comfyui_version.py` declares, read without importing it.
pub fn parse_version(source: &str) -> (r: Option<String>)
    ensures
        match r {
            Some(v) => first_version(lines(source@)) == Some(v@),
            None => first_version(lines(source@)) is None,
        },
{
    let v = to_chars(source);
    let ls = split_lines(v.as_slice());
    let key = to_chars("__version__");
    let es: [char; 2] = ['=', ' '];
    let qs: [char; 2] = ['"', '\''];
    proof {
        reveal_strlit("__version__");
        assert(key@ =~= version_key());
        assert(es@ =~= eq_space());
        assert(qs@ =~= quotes());
    }
    assert(key@.len() == 11);
    assert(lines(v@).subrange(0, lines(v@).len() as int) =~= lines(v@));
    let mut i: usize = 0;
    while i < ls.len()
        invariant
            i <= ls@.len(),
            key@ == version_key(),
            key@.len() == 11,
            es@ == eq_space(),
            qs@ == quotes(),
            char_views(ls@) == lines(v@),
            v@ == source@,
            first_version(lines(v@)) == first_version(lines(v@).subrange(i as int, lines(v@).len() as int)),
        decreases ls@.len() - i,
    {
        let ghost rest = lines(v@).subrange(i as int, lines(v@).len() as int);
        assert(rest[0] == ls@[i as int]@);
        assert(rest.drop_first() =~= lines(v@).subrange(i + 1, lines(v@).len() as int));
        let t = trim_chars(ls[i].as_slice());
        if crate::text::starts_with_chars(t.as_slice(), key.as_slice()) {
            let after = crate::text::copy_chars(t.as_slice(), 11, t.len());
            let a = trim_start_matching(after.as_slice(), es.as_slice());
            let b = trim_chars(a.as_slice());
            let c = trim_matching(b.as_slice(), qs.as_slice());
            return Some(from_chars(c.as_slice()));
        }
        i = i + 1;
    }
    None
}

pub fn default_steps() -> (r: u32)
    ensures
        r == 24,
{
    24
}

pub fn default_sampler() -> (r: String)
    ensures
        r@ == "euler_ancestral"@,
{
    owned("euler_ancestral")
}

pub fn default_scheduler() -> (r: String)
    ensures
        r@ == "normal"@,
{
    owned("normal")
}

pub fn default_size() -> (r: u32)
    ensures
        r == 832,
{
    832
}

pub fn default_batch() -> (r: u32)
    ensures
        r == 1,
{
    1
}

/// `-1` asks for a random seed.
pub fn default_seed() -> (r: i64)
    ensures
        r == -1,
{
    -1
}

#[derive(Debug, Clone)]
pub struct ComfyModelList {
    pub checkpoints: Vec<String>,
    pub loras: Vec<String>,
    pub samplers: Vec<String>,
    pub schedulers: Vec<String>,
}

#[derive(Debug, Clone, PartialEq)]
pub struct ComfyGeneratedImage {
    pub filename: String,
    pub subfolder: String,
    pub path: String,
}

#[derive(Debug, Clone)]
pub struct ComfyGenerateResult {
    pub prompt_id: String,
    pub images: Vec<ComfyGeneratedImage>,
    pub output_dir: String,
    pub elapsed_ms: u64,
    pub seed: i64,
}

#[derive(Debug, Clone)]
pub struct ComfyProgress {
    pub phase: String,
    pub current: usize,
    pub total: usize,
    pub message: String,
    pub prompt_id: Option<String>,
}

/// A fresh random number (`uuid::Uuid::new_v4().as_u128()`); nothing is
/// claimed of its value.
#[verifier::external_body]
fn random_u128() -> (r: u128) {
    uuid::Uuid::new_v4().as_u128()
}

/// The seed a run uses: a non-negative seed as given; a negative one asks for
/// a random seed, taken from `random` and kept below 2^31 - 1 so it survives
/// a trip through JavaScript numbers.
pub fn seed_from_random(seed: i64, random: u128) -> (r: i64)
    ensures
        seed >= 0 ==> r == seed,
        seed < 0 ==> r == (random % 2_147_483_647) as i64,
        0 <= r,
{
    if seed >= 0 {
        seed
    } else {
        (random % 2_147_483_647) as i64
    }
}

/// ComfyUI's API rejects a negative seed; a negative request seed means "any
/// seed", resolved here so the value reported afterwards is the one used.
pub fn resolved_seed(seed: i64) -> (r: i64)
    ensures
        seed >= 0 ==> r == seed,
        seed < 0 ==> 0 <= r < 2_147_483_647,
{
    if seed >= 0 {
        seed
    } else {
        seed_from_random(seed, random_u128())
    }
}

/// One image of a history entry, as far as its JSON gave the fields.
#[derive(Debug, Clone)]
pub struct HistoryImage {
    pub filename: Option<String>,
    pub subfolder: Option<String>,
}

pub open spec fn images_of(outputs: Seq<Vec<HistoryImage>>) -> Seq<(Seq<char>, Seq<char>)>
    decreases outputs.len(),
{
    if outputs.len() == 0 {
        Seq::empty()
    } else {
        images_of(outputs.drop_last()) + named_images(outputs.last()@)
    }
}

pub open spec fn named_images(items: Seq<HistoryImage>) -> Seq<(Seq<char>, Seq<char>)>
    decreases items.len(),
{
    if items.len() == 0 {
        Seq::empty()
    } else {
        let rest = named_images(items.drop_last());
        match items.last().filename {
            Some(f) => rest.push((f@, match items.last().subfolder {
                Some(s) => s@,
                None => Seq::empty(),
            })),
            None => rest,
        }
    }
}

/// The images a finished run produced, output by output (as the history
/// lists them): every image with a file name, its subfolder or none.
pub fn collect_images(outputs: &Vec<Vec<HistoryImage>>) -> (r: Vec<ComfyGeneratedImage>)
    ensures
        r@.len() == images_of(outputs@).len(),
        forall|k: int| 0 <= k < r@.len() ==> (#[trigger] r@[k]).filename@ == images_of(outputs@)[k].0
            && r@[k].subfolder@ == images_of(outputs@)[k].1 && r@[k].path@.len() == 0,
{
    let mut images: Vec<ComfyGeneratedImage> = Vec::new();
    let mut i: usize = 0;
    while i < outputs.len()
        invariant
            i <= outputs@.len(),
            images@.len() == images_of(outputs@.subrange(0, i as int)).len(),
            forall|k: int| 0 <= k < images@.len() ==> (#[trigger] images@[k]).filename@ == images_of(outputs@.subrange(0, i as int))[k].0
                && images@[k].subfolder@ == images_of(outputs@.subrange(0, i as int))[k].1 && images@[k].path@.len() == 0,
        decreases outputs@.len() - i,
    {
        let ghost sub = outputs@.subrange(0, i + 1);
        assert(sub.drop_last() =~= outputs@.subrange(0, i as int));
        assert(sub.last() == outputs@[i as int]);
        let ghost start = images@;
        let ghost base = images_of(outputs@.subrange(0, i as int));
        let items = &outputs[i];
        let mut j: usize = 0;
        while j < items.len()
            invariant
                j <= items@.len(),
                start.len() == base.len(),
                images@.len() == base.len() + named_images(items@.subrange(0, j as int)).len(),
                forall|k: int| 0 <= k < start.len() ==> images@[k] == start[k],
                forall|k: int| 0 <= k < images@.len() ==> (#[trigger] images@[k]).filename@ == (base + named_images(items@.subrange(0, j as int)))[k].0
                    && images@[k].subfolder@ == (base + named_images(items@.subrange(0, j as int)))[k].1 && images@[k].path@.len() == 0,
                forall|k: int| 0 <= k < start.len() ==> (#[trigger] start[k]).filename@ == base[k].0 && start[k].subfolder@ == base[k].1 && start[k].path@.len() == 0,
            decreases items@.len() - j,
        {
            let ghost isub = items@.subrange(0, j + 1);
            assert(isub.drop_last() =~= items@.subrange(0, j as int));
            assert(isub.last() == items@[j as int]);
            let ghost prev = images@;
            match &items[j].filename {
                Some(f) => {
                    let sub_folder = match &items[j].subfolder {
                        Some(s) => s.clone(),
                        None => String::new(),
                    };
                    images.push(ComfyGeneratedImage { filename: f.clone(), subfolder: sub_folder, path: String::new() });
                    proof {
                        let now = base + named_images(isub);
                        assert(now =~= (base + named_images(items@.subrange(0, j as int))).push(named_images(isub).last()));
                    }
                },
                None => {
                    assert(base + named_images(isub) =~= base + named_images(items@.subrange(0, j as int)));
                },
            }
            j = j + 1;
        }
        assert(items@.subrange(0, items@.len() as int) =~= items@);
        assert(images_of(sub) =~= base + named_images(items@));
        i = i + 1;
    }
    assert(outputs@.subrange(0, outputs@.len() as int) =~= outputs@);
    images
}

/// What one poll of a running generation found.
#[derive(Debug, Clone)]
pub enum HistoryPoll {
    /// The entry exists and lists its outputs: the run is over.
    Finished,
    /// No entry yet, or one without outputs.
    Pending,
    /// Asking failed.
    Failed(String),
}

/// What the generation loop does next.
#[derive(Debug, Clone)]
pub enum PollStep {
    /// The user cancelled: interrupt ComfyUI and stop.
    Interrupt,
    /// Collect the outputs.
    Collect,
    /// Report progress and poll again.
    Wait(ComfyProgress),
    /// Report the failure and stop.
    Fail(ComfyProgress),
}

/// One turn of the polling loop: a cancel request wins; then the history
/// decides.
pub fn poll_step(cancel_requested: bool, poll: HistoryPoll, elapsed_secs: u64, prompt_id: &str) -> (r: PollStep)
    ensures
        cancel_requested ==> r is Interrupt,
        !cancel_requested ==> match poll {
            HistoryPoll::Finished => r is Collect,
            HistoryPoll::Pending => r matches PollStep::Wait(p) && p.phase@ == "running"@ && p.current == 0 && p.total == 0
                && p.message@ == "正在生成…（已用 "@ + decimal(elapsed_secs as nat) + " 秒）"@ && p.prompt_id is Some && p.prompt_id->0@ == prompt_id@,
            HistoryPoll::Failed(e) => r matches PollStep::Fail(p) && p.phase@ == "error"@ && p.current == 0 && p.total == 0
                && p.message == e && p.prompt_id is Some && p.prompt_id->0@ == prompt_id@,
        },
{
    if cancel_requested {
        return PollStep::Interrupt;
    }
    match poll {
        HistoryPoll::Finished => PollStep::Collect,
        HistoryPoll::Pending => PollStep::Wait(ComfyProgress {
            phase: owned("running"),
            current: 0,
            total: 0,
            message: crate::text::concat3("正在生成…（已用 ", crate::text::decimal_string(elapsed_secs).as_str(), " 秒）"),
            prompt_id: Some(owned(prompt_id)),
        }),
        HistoryPoll::Failed(e) => PollStep::Fail(ComfyProgress {
            phase: owned("error"),
            current: 0,
            total: 0,
            message: e,
            prompt_id: Some(owned(prompt_id)),
        }),
    }
}

/// The progress events of a generation outside the polling loop.
#[derive(Debug, Clone, Copy, PartialEq, Eq)]
pub enum GenerationStage {
    Queued,
    Cancelled,
    /// Saving image `index` (from 0) of `total`.
    Downloading { index: usize, total: usize },
    Completed { total: usize },
}

pub open spec fn generation_message(stage: GenerationStage) -> Seq<char> {
    match stage {
        GenerationStage::Queued => "正在提交工作流…"@,
        GenerationStage::Cancelled => "已取消生成。"@,
        GenerationStage::Downloading { index, total } => "正在保存生成图 "@ + decimal((index + 1) as nat) + "/"@ + decimal(total as nat) + "…"@,
        GenerationStage::Completed { total } => "已生成 "@ + decimal(total as nat) + " 张图片。"@,
    }
}

pub fn generation_progress(stage: GenerationStage, prompt_id: Option<String>) -> (r: ComfyProgress)
    requires
        stage matches GenerationStage::Downloading { index, .. } ==> index < usize::MAX,
    ensures
        r.message@ == generation_message(stage),
        r.prompt_id == prompt_id,
        r.phase@ == (match stage {
            GenerationStage::Queued => "queued"@,
            GenerationStage::Cancelled => "cancelled"@,
            GenerationStage::Downloading { .. } => "downloading"@,
            GenerationStage::Completed { .. } => "completed"@,
        }),
        (r.current, r.total) == (match stage {
            GenerationStage::Queued => (0usize, 0usize),
            GenerationStage::Cancelled => (0usize, 0usize),
            GenerationStage::Downloading { index, total } => (index, total),
            GenerationStage::Completed { total } => (total, total),
        }),
{
    match stage {
        GenerationStage::Queued => ComfyProgress {
            phase: owned("queued"),
            current: 0,
            total: 0,
            message: owned("正在提交工作流…"),
            prompt_id,
        },
        GenerationStage::Cancelled => ComfyProgress {
            phase: owned("cancelled"),
            current: 0,
            total: 0,
            message: owned("已取消生成。"),
            prompt_id,
        },
        GenerationStage::Downloading { index, total } => {
            let a = crate::text::concat3("正在保存生成图 ", crate::text::decimal_string((index + 1) as u64).as_str(), "/");
            ComfyProgress {
                phase: owned("downloading"),
                current: index,
                total,
                message: crate::text::concat3(a.as_str(), crate::text::decimal_string(total as u64).as_str(), "…"),
                prompt_id,
            }
        },
        GenerationStage::Completed { total } => ComfyProgress {
            phase: owned("completed"),
            current: total,
            total,
            message: crate::text::concat3("已生成 ", crate::text::decimal_string(total as u64).as_str(), " 张图片。"),
            prompt_id,
        },
    }
}

/// A line of `netstat -ano -p tcp` for a TCP socket listening on `port`:
/// its process id, when the last column reads as one.
pub open spec fn listening_pid(line: Seq<char>, port: u16) -> Option<u32> {
    let cols = crate::text::words(line);
    if cols.len() >= 5 && crate::text::lower_ascii(cols[0]) == "tcp"@ && crate::text::is_suffix(":"@ + decimal(port as nat), cols[1])
        && crate::text::lower_ascii(cols[3]) == "listening"@ {
        match crate::app_settings::parse_unsigned(cols[4], u32::MAX as nat) {
            Some(n) => Some(n as u32),
            None => None,
        }
    } else {
        None
    }
}

/// The first listening line's process id.
pub open spec fn first_listener(ls: Seq<Seq<char>>, port: u16) -> Option<u32>
    decreases ls.len(),
{
    if ls.len() == 0 {
        None
    } else if listening_pid(ls[0], port) is Some {
        listening_pid(ls[0], port)
    } else {
        first_listener(ls.drop_first(), port)
    }
}

fn ascii_lower_is(v: &Vec<char>, word: &str) -> (b: bool)
    ensures
        b == (crate::text::lower_ascii(v@) == word@),
{
    let low = crate::text::lower_chars(v.as_slice());
    let w = crate::text::to_chars(word);
    crate::text::chars_eq(low.as_slice(), w.as_slice())
}

fn line_listener(line: &Vec<char>, needle: &Vec<char>, port: u16) -> (r: Option<u32>)
    requires
        needle@ == ":"@ + decimal(port as nat),
    ensures
        r == listening_pid(line@, port),
{
    let cols = crate::text::split_words(line.as_slice());
    let ghost cv = crate::text::words(line@);
    if cols.len() < 5 {
        return None;
    }
    assert(cols@[0]@ == cv[0] && cols@[1]@ == cv[1] && cols@[3]@ == cv[3] && cols@[4]@ == cv[4]);
    if !ascii_lower_is(&cols[0], "tcp") || !crate::text::ends_with_chars(cols[1].as_slice(), needle.as_slice())
        || !ascii_lower_is(&cols[3], "listening") {
        return None;
    }
    let last = crate::text::from_chars(cols[4].as_slice());
    match crate::app_settings::parse_unsigned_exec(last.as_str(), u32::MAX as u64) {
        Some(n) => Some(n as u32),
        None => None,
    }
}

/// The process listening on `port`, from the text `netstat -ano -p tcp`
/// printed.
pub fn listener_pid_in(netstat: &str, port: u16) -> (r: Option<u32>)
    ensures
        r == first_listener(crate::text::lines(netstat@), port),
{
    let text = crate::text::to_chars(netstat);
    let ls = crate::text::split_lines(text.as_slice());
    let ghost lv = crate::text::lines(netstat@);
    let needle_text = concat(":", decimal_string(port as u64).as_str());
    let needle = crate::text::to_chars(needle_text.as_str());
    let mut i: usize = 0;
    assert(lv.subrange(0, lv.len() as int) =~= lv);
    while i < ls.len()
        invariant
            i <= ls@.len(),
            crate::text::char_views(ls@) == lv,
            lv == crate::text::lines(netstat@),
            needle@ == ":"@ + decimal(port as nat),
            first_listener(lv, port) == first_listener(lv.subrange(i as int, lv.len() as int), port),
        decreases ls@.len() - i,
    {
        let ghost rest = lv.subrange(i as int, lv.len() as int);
        assert(lv.len() == ls@.len());
        assert(rest.len() > 0);
        assert(rest[0] == ls@[i as int]@);
        assert(rest.drop_first() =~= lv.subrange(i + 1, lv.len() as int));
        match line_listener(&ls[i], &needle, port) {
            Some(pid) => return Some(pid),
            None => {},
        }
        i = i + 1;
    }
    None
}

/// The image name on the first line of `tasklist /FO CSV /NH`, when there is
/// one.
pub open spec fn task_name(text: Seq<char>) -> Option<Seq<char>> {
    let ls = crate::text::lines(text);
    if ls.len() == 0 {
        None
    } else {
        let t = crate::text::trim_in(trim(ls[0]), seq!['"']);
        let k = crate::text::first_occurrence(t, "\",\""@);
        let name = if k >= 0 {
            t.subrange(0, k)
        } else {
            t
        };
        if name.len() == 0 {
            None
        } else {
            Some(name)
        }
    }
}

pub fn task_name_in(tasklist: &str) -> (r: Option<String>)
    ensures
        match r {
            Some(n) => task_name(tasklist@) == Some(n@),
            None => task_name(tasklist@) is None,
        },
{
    let text = crate::text::to_chars(tasklist);
    let ls = crate::text::split_lines(text.as_slice());
    if ls.len() == 0 {
        return None;
    }
    assert(ls@[0]@ == crate::text::lines(tasklist@)[0]);
    let first = crate::text::trim_chars(ls[0].as_slice());
    let quote: [char; 1] = ['"'];
    assert(quote@ =~= seq!['"']);
    let t = crate::text::trim_matching(first.as_slice(), &quote);
    let sep = crate::text::to_chars("\",\"");
    proof {
        reveal_strlit("\",\"");
    }
    let name = match crate::text::find_from(t.as_slice(), sep.as_slice(), 0) {
        Some(k) => {
            proof { crate::text::lemma_first_occurrence_bounds(t@, sep@, 0); }
            crate::text::copy_chars(t.as_slice(), 0, k)
        },
        None => t,
    };
    if name.len() == 0 {
        None
    } else {
        Some(crate::text::from_chars(name.as_slice()))
    }
}

/// What to do about a process that holds the ComfyUI port.
#[derive(Debug, Clone, PartialEq, Eq)]
pub enum ListenerAction {
    /// It is a Python process: end it.
    Stop,
    /// Leave it running and say why.
    Leave(String),
}

/// Only a Python process (by its image name, any ASCII case) is ended; an
/// unknown or other process is left alone with an explanation.
pub fn foreign_listener_action(port: u16, pid: u32, name: Option<String>) -> (r: ListenerAction)
    ensures
        match name {
            None => r matches ListenerAction::Leave(m) && m@ == "端口 "@ + decimal(port as nat) + " 被 PID "@ + decimal(pid as nat) + " 占用，但无法确认进程名。"@,
            Some(n) => if contains(crate::text::lower_ascii(n@), "python"@) {
                r == ListenerAction::Stop
            } else {
                r matches ListenerAction::Leave(m) && m@ == "端口 "@ + decimal(port as nat) + " 被 "@ + n@ + "（PID "@ + decimal(pid as nat)
                    + "）占用，它不是 Python/ComfyUI 进程，未自动结束。"@
            },
        },
{
    let p = decimal_string(port as u64);
    let id = decimal_string(pid as u64);
    match name {
        None => {
            let a = concat3("端口 ", p.as_str(), " 被 PID ");
            ListenerAction::Leave(concat3(a.as_str(), id.as_str(), " 占用，但无法确认进程名。"))
        },
        Some(n) => {
            let low = crate::text::lower_chars(crate::text::to_chars(n.as_str()).as_slice());
            let py = crate::text::to_chars("python");
            if crate::text::contains_chars(low.as_slice(), py.as_slice()) {
                ListenerAction::Stop
            } else {
                let a = concat3("端口 ", p.as_str(), " 被 ");
                let b = concat3(a.as_str(), n.as_str(), "（PID ");
                ListenerAction::Leave(concat3(b.as_str(), id.as_str(), "）占用，它不是 Python/ComfyUI 进程，未自动结束。"))
            }
        },
    }
}

/// The report when ending the process failed.
pub fn stop_failure_message(name: &str, pid: u32, stderr: &str) -> (r: String)
    ensures
        r@ == "结束 "@ + name@ + "（PID "@ + decimal(pid as nat) + "）失败："@ + trim(stderr@),
{
    let a = concat3("结束 ", name, "（PID ");
    let b = concat3(a.as_str(), decimal_string(pid as u64).as_str(), "）失败：");
    concat(b.as_str(), trim_str(stderr).as_str())
}

/// The command line ComfyUI is started with, after the interpreter: its
/// main script, listening on the loopback address at `port`, without
/// previews, and `--lowvram` when asked for.
pub open spec fn launch_args_spec(main_script: Seq<char>, port: u16, low_vram: bool) -> Seq<Seq<char>> {
    let base = seq![main_script, "--listen"@, "127.0.0.1"@, "--port"@, decimal(port as nat), "--preview-method"@, "none"@];
    if low_vram {
        base.push("--lowvram"@)
    } else {
        base
    }
}

pub fn launch_arguments(main_script: &str, port: u16, low_vram: bool) -> (r: Vec<String>)
    ensures
        crate::text::string_views(r@) == launch_args_spec(main_script@, port, low_vram),
{
    let mut a: Vec<String> = Vec::new();
    a.push(owned(main_script));
    a.push(owned("--listen"));
    a.push(owned("127.0.0.1"));
    a.push(owned("--port"));
    a.push(decimal_string(port as u64));
    a.push(owned("--preview-method"));
    a.push(owned("none"));
    if low_vram {
        a.push(owned("--lowvram"));
    }
    assert(crate::text::string_views(a@) =~= launch_args_spec(main_script@, port, low_vram));
    a
}

/// The refusal to start ComfyUI a second time.
pub fn already_started_error() -> (r: ComfyError)
    ensures
        r@ == ComfyErrorView::Response("ComfyUI 已由本应用启动"@),
{
    ComfyError::Response(owned("ComfyUI 已由本应用启动"))
}


/// What the shell sees of the ComfyUI process it holds: none, one still
/// running, or one that has exited (or could not be asked).
#[derive(Debug, Clone, Copy, PartialEq, Eq)]
pub enum ChildState {
    Missing,
    Running,
    Exited,
}

/// Whether this application started the ComfyUI process the shell holds.
/// Only a process it started may be stopped again; a ComfyUI the user
/// launched keeps running.
pub struct ComfyManager {
    pub owned: bool,
}

impl ComfyManager {
    pub fn new() -> (r: Self)
        ensures
            !r.owned,
    {
        ComfyManager { owned: false }
    }

    pub fn is_owned(&self) -> (b: bool)
        ensures
            b == self.owned,
    {
        self.owned
    }

    /// True while the process this application started is still alive. A
    /// started process that has exited is forgotten (the shell then drops
    /// its handle); otherwise nothing changes.
    pub fn owns_running_process(&mut self, child: ChildState) -> (b: bool)
        ensures
            b == (old(self).owned && child == ChildState::Running),
            final(self).owned == (old(self).owned && child != ChildState::Exited),
    {
        if !self.owned {
            return false;
        }
        match child {
            ChildState::Running => true,
            ChildState::Exited => {
                self.owned = false;
                false
            },
            ChildState::Missing => false,
        }
    }

    /// Whether a start may go ahead: refused while the process this
    /// application started still runs.
    pub fn check_start(&mut self, child: ChildState) -> (r: Result<(), ComfyError>)
        ensures
            match r {
                Ok(()) => !(old(self).owned && child == ChildState::Running),
                Err(e) => old(self).owned && child == ChildState::Running
                    && e@ == ComfyErrorView::Response("ComfyUI 已由本应用启动"@),
            },
            final(self).owned == (old(self).owned && child != ChildState::Exited),
    {
        if self.owns_running_process(child) {
            return Err(already_started_error());
        }
        Ok(())
    }

    /// Record that the shell has spawned the process.
    pub fn started(&mut self)
        ensures
            final(self).owned,
    {
        self.owned = true;
    }

    /// Stop: `true` exactly when this application started the process, which
    /// the shell then kills; a process it did not start is left alone.
    pub fn stop(&mut self) -> (stopped: bool)
        ensures
            stopped == old(self).owned,
            !final(self).owned,
    {
        if !self.owned {
            return false;
        }
        self.owned = false;
        true
    }
}


/// The strings of an array value, in order; nothing when the value is not
/// an array.
pub open spec fn reply_string_items(v: JsonModel) -> Seq<Seq<char>> {
    match v {
        JsonModel::Arr(items) => string_items(items),
        _ => Seq::empty(),
    }
}

/// The names a `/models/<folder>` reply lists: the strings of the array.
pub fn reply_strings(v: &Json) -> (r: Vec<String>)
    ensures
        crate::text::string_views(r@) == reply_string_items(model(*v)),
{
    let mut out: Vec<String> = Vec::new();
    let items = match as_array(v) {
        Some(items) => items,
        None => {
            assert(crate::text::string_views(out@) =~= Seq::<Seq<char>>::empty());
            return out;
        },
    };
    let ghost all = items_model(items@);
    let mut i: usize = 0;
    assert(crate::text::string_views(out@) =~= string_items(all.subrange(0, 0)));
    while i < items.len()
        invariant
            i <= items@.len(),
            all == items_model(items@),
            crate::text::string_views(out@) == string_items(all.subrange(0, i as int)),
        decreases items@.len() - i,
    {
        let ghost sub = all.subrange(0, i + 1);
        assert(sub.drop_last() =~= all.subrange(0, i as int));
        assert(sub.last() == model(items@[i as int]));
        let ghost before = out@;
        match as_text(&items[i]) {
            Some(t) => {
                out.push(t.clone());
                assert(crate::text::string_views(out@) =~= crate::text::string_views(before).push(t@));
            },
            None => {},
        }
        i = i + 1;
    }
    assert(all.subrange(0, items@.len() as int) =~= all);
    out
}

/// The choices `/object_info/<node_class>` offers for one input: the
/// strings of the first item of the input's entry, looked up among the
/// required inputs when the node has them, else among the optional ones.
pub open spec fn input_options(info: JsonModel, node_class: Seq<char>, input_name: Seq<char>) -> Seq<Seq<char>> {
    let input = match field(info, node_class) {
        Some(node) => field(node, "input"@),
        None => None,
    };
    let group = match input {
        Some(i) => match field(i, "required"@) {
            Some(g) => Some(g),
            None => field(i, "optional"@),
        },
        None => None,
    };
    match group {
        Some(g) => match field(g, input_name) {
            Some(JsonModel::Arr(entry)) => if entry.len() > 0 {
                reply_string_items(entry[0])
            } else {
                Seq::empty()
            },
            _ => Seq::empty(),
        },
        None => Seq::empty(),
    }
}

/// Node input options, e.g. the sampler or scheduler choices, from an
/// `/object_info/<node_class>` reply.
pub fn node_input_options(info: &Json, node_class: &str, input_name: &str) -> (r: Vec<String>)
    ensures
        crate::text::string_views(r@) == input_options(model(*info), node_class@, input_name@),
{
    let none: Vec<String> = Vec::new();
    assert(crate::text::string_views(none@) =~= Seq::<Seq<char>>::empty());
    let node = match get_field(info, node_class) {
        Some(n) => n,
        None => return none,
    };
    let input = match get_field(node, "input") {
        Some(i) => i,
        None => return none,
    };
    let group = match get_field(input, "required") {
        Some(g) => g,
        None => match get_field(input, "optional") {
            Some(g) => g,
            None => return none,
        },
    };
    let entry = match get_field(group, input_name) {
        Some(e) => e,
        None => return none,
    };
    match as_array(entry) {
        Some(items) => if items.len() > 0 {
            proof { assert(items_model(items@)[0] == model(items@[0])); }
            reply_strings(&items[0])
        } else {
            none
        },
        None => none,
    }
}

/// The refusal of a reply whose HTTP status is not a success.
pub fn http_failure_error(path: &str, status: u16, body: &str) -> (r: ComfyError)
    ensures
        r@ == ComfyErrorView::Response(path@ + " -> HTTP "@ + decimal(status as nat) + ": "@ + summary(body@)),
{
    let head = concat3(path, " -> HTTP ", decimal_string(status as u64).as_str());
    let with_sep = concat(head.as_str(), ": ");
    ComfyError::Response(concat(with_sep.as_str(), summarize(body).as_str()))
}


/// ComfyUI is started on the configured port: the launch arguments always
/// hold `--port` followed by the decimal text of that port, listening on the
/// loopback address only.
pub proof fn law_comfy_listens_on_the_configured_port(main_script: Seq<char>, port: u16, low_vram: bool)
    ensures
        launch_args_spec(main_script, port, low_vram).len() >= 7,
        launch_args_spec(main_script, port, low_vram)[0] == main_script,
        launch_args_spec(main_script, port, low_vram)[2] == "127.0.0.1"@,
        launch_args_spec(main_script, port, low_vram)[3] == "--port"@,
        launch_args_spec(main_script, port, low_vram)[4] == crate::text::decimal(port as nat),
        launch_args_spec(main_script, port, low_vram).len() == 8 <==> low_vram,
{
}

} // verus!
