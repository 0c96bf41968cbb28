//! Persisted, user-tunable application settings.
//!
//! Each value is its own row of the settings table, so older versions keep
//! working when keys are added, and every read falls back to the documented
//! default instead of failing the whole set. The two fractional settings are
//! held in fixed point: the similarity threshold in hundredths and the font
//! size in half pixels.
use vstd::prelude::*;
use crate::database::{
    BACKGROUND_PRIORITY_SETTING, COMFY_AUTO_START_SETTING, COMFY_LOW_VRAM_SETTING,
    COMFY_OUTPUT_DIR_SETTING, COMFY_PORT_SETTING, COMFY_ROOT_SETTING, CUDA_RUNTIME_DIR_SETTING,
    LORA_TRAINER_BASE_MODEL_SETTING, LORA_TRAINER_OUTPUT_DIR_SETTING, LORA_TRAINER_PYTHON_SETTING,
    LORA_TRAINER_ROOT_SETTING, NETWORK_PROXY_SETTING, RECOGNIZER_MODEL_SETTING,
    REFERENCE_BACKEND_SETTING, REFERENCE_MATCHING_SETTING, SIMILARITY_ARCHIVE_DIR_SETTING,
    SIMILARITY_INCLUDE_SUBFOLDERS_SETTING, SIMILARITY_THRESHOLD_SETTING, SIMILARITY_WORKERS_SETTING,
    UI_FONT_SIZE_SETTING, WORKER_ONNX_THREADS_SETTING, WORKER_SKIP_ANNOTATED_SETTING,
};
use crate::text::{
    all_digits, concat, contains, decimal, decimal_string, digits_value, from_chars, lower_ascii,
    lower_chars, owned, to_chars, trim, trim_chars, trim_str,
};

verus! {

pub const MIN_SIMILARITY_WORKERS: u32 = 1;

pub const MAX_SIMILARITY_WORKERS: u32 = 32;

pub const MIN_ONNX_THREADS: u32 = 1;

pub const MAX_ONNX_THREADS: u32 = 16;

/// The similarity threshold bounds, in hundredths (0.50 and 0.99).
pub const MIN_SIMILARITY_THRESHOLD_HUNDREDTHS: u32 = 50;

pub const MAX_SIMILARITY_THRESHOLD_HUNDREDTHS: u32 = 99;

pub const MAX_ARCHIVE_DIR_NAME: usize = 64;

/// Font sizes in half pixels: 14 px baseline, 12 to 20 px.
pub const UI_FONT_BASE_HALF_PX: u32 = 28;

pub const MIN_UI_FONT_HALF_PX: u32 = 24;

pub const MAX_UI_FONT_HALF_PX: u32 = 40;

pub const MIN_COMFY_PORT: u16 = 1024;

pub const MAX_COMFY_PORT: u16 = 65535;

pub const DEFAULT_COMFY_PORT: u16 = 8188;

pub const DEFAULT_NETWORK_PROXY: &'static str = "127.0.0.1:7890";

#[derive(Debug, Clone)]
pub struct AppSettings {
    /// Intra-op threads of CPU recognition inference.
    pub recognition_onnx_threads: u32,
    /// Default of the "skip already annotated" switch of a scan.
    pub recognition_skip_annotated: bool,
    /// Threads that decode and hash images in a similarity scan.
    pub similarity_workers: u32,
    /// Default match sensitivity of new similarity scans, in hundredths.
    pub similarity_threshold_hundredths: u32,
    pub similarity_include_subfolders: bool,
    /// Archive folder name of the similarity governance bar.
    pub similarity_archive_dir: String,
    /// UI font size in half pixels.
    pub ui_font_half_px: u32,
    /// Root of the user's own ComfyUI package (never bundled).
    pub comfy_root: String,
    pub comfy_port: u16,
    /// Start ComfyUI with `--lowvram`.
    pub comfy_low_vram: bool,
    pub comfy_auto_start: bool,
    /// Empty means `<comfy_root>/../Images/generated`.
    pub comfy_output_dir: String,
    /// Root of the user's own kohya_ss / sd-scripts install (never bundled).
    pub lora_trainer_root: String,
    pub lora_trainer_python: String,
    pub lora_trainer_base_model: String,
    pub lora_trainer_output_dir: String,
    /// Folder with CUDA 12 / cuDNN 9 DLLs; empty uses the system search path.
    pub cuda_runtime_dir: String,
    /// Recognizer model id; empty uses the installed default.
    pub recognition_recognizer_model: String,
    /// `below_normal` keeps background inference polite; `normal` runs flat out.
    pub background_priority: String,
    pub reference_matching_enabled: bool,
    /// `ccip` or `embedding`.
    pub reference_backend: String,
    /// HTTP(S) proxy of downloads, stored without a scheme when plain.
    pub network_proxy: String,
}

/// The settings with every text taken by its view.
pub struct SettingsView {
    pub recognition_onnx_threads: u32,
    pub recognition_skip_annotated: bool,
    pub similarity_workers: u32,
    pub similarity_threshold_hundredths: u32,
    pub similarity_include_subfolders: bool,
    pub similarity_archive_dir: Seq<char>,
    pub ui_font_half_px: u32,
    pub comfy_root: Seq<char>,
    pub comfy_port: u16,
    pub comfy_low_vram: bool,
    pub comfy_auto_start: bool,
    pub comfy_output_dir: Seq<char>,
    pub lora_trainer_root: Seq<char>,
    pub lora_trainer_python: Seq<char>,
    pub lora_trainer_base_model: Seq<char>,
    pub lora_trainer_output_dir: Seq<char>,
    pub cuda_runtime_dir: Seq<char>,
    pub recognition_recognizer_model: Seq<char>,
    pub background_priority: Seq<char>,
    pub reference_matching_enabled: bool,
    pub reference_backend: Seq<char>,
    pub network_proxy: Seq<char>,
}

impl View for AppSettings {
    type V = SettingsView;

    open spec fn view(&self) -> SettingsView {
        SettingsView {
            recognition_onnx_threads: self.recognition_onnx_threads,
            recognition_skip_annotated: self.recognition_skip_annotated,
            similarity_workers: self.similarity_workers,
            similarity_threshold_hundredths: self.similarity_threshold_hundredths,
            similarity_include_subfolders: self.similarity_include_subfolders,
            similarity_archive_dir: self.similarity_archive_dir@,
            ui_font_half_px: self.ui_font_half_px,
            comfy_root: self.comfy_root@,
            comfy_port: self.comfy_port,
            comfy_low_vram: self.comfy_low_vram,
            comfy_auto_start: self.comfy_auto_start,
            comfy_output_dir: self.comfy_output_dir@,
            lora_trainer_root: self.lora_trainer_root@,
            lora_trainer_python: self.lora_trainer_python@,
            lora_trainer_base_model: self.lora_trainer_base_model@,
            lora_trainer_output_dir: self.lora_trainer_output_dir@,
            cuda_runtime_dir: self.cuda_runtime_dir@,
            recognition_recognizer_model: self.recognition_recognizer_model@,
            background_priority: self.background_priority@,
            reference_matching_enabled: self.reference_matching_enabled,
            reference_backend: self.reference_backend@,
            network_proxy: self.network_proxy@,
        }
    }
}

/// The default number of similarity workers: the machine's parallelism (4
/// when unknown), between 1 and 8.
pub open spec fn default_workers_spec(parallelism: Option<u32>) -> u32 {
    let p = match parallelism {
        Some(p) => p,
        None => 4,
    };
    if p < MIN_SIMILARITY_WORKERS {
        MIN_SIMILARITY_WORKERS
    } else if p > 8 {
        8
    } else {
        p
    }
}

pub fn default_similarity_workers(parallelism: Option<u32>) -> (r: u32)
    ensures
        r == default_workers_spec(parallelism),
{
    let p = match parallelism {
        Some(p) => p,
        None => 4,
    };
    if p < MIN_SIMILARITY_WORKERS {
        MIN_SIMILARITY_WORKERS
    } else if p > 8 {
        8
    } else {
        p
    }
}

/// The documented defaults.
pub open spec fn defaults_spec(workers: u32) -> SettingsView {
    SettingsView {
        recognition_onnx_threads: 4,
        recognition_skip_annotated: true,
        similarity_workers: workers,
        similarity_threshold_hundredths: 85,
        similarity_include_subfolders: true,
        similarity_archive_dir: "_duplicates"@,
        ui_font_half_px: UI_FONT_BASE_HALF_PX,
        comfy_root: Seq::empty(),
        comfy_port: DEFAULT_COMFY_PORT,
        comfy_low_vram: true,
        comfy_auto_start: false,
        comfy_output_dir: Seq::empty(),
        lora_trainer_root: Seq::empty(),
        lora_trainer_python: Seq::empty(),
        lora_trainer_base_model: Seq::empty(),
        lora_trainer_output_dir: Seq::empty(),
        cuda_runtime_dir: Seq::empty(),
        recognition_recognizer_model: Seq::empty(),
        background_priority: "below_normal"@,
        reference_matching_enabled: false,
        reference_backend: "ccip"@,
        network_proxy: DEFAULT_NETWORK_PROXY@,
    }
}

impl AppSettings {
    /// The defaults, with the machine's default number of similarity
    /// workers.
    pub fn defaults(similarity_workers: u32) -> (r: Self)
        ensures
            r@ == defaults_spec(similarity_workers),
    {
        AppSettings {
            recognition_onnx_threads: 4,
            recognition_skip_annotated: true,
            similarity_workers,
            similarity_threshold_hundredths: 85,
            similarity_include_subfolders: true,
            similarity_archive_dir: owned("_duplicates"),
            ui_font_half_px: UI_FONT_BASE_HALF_PX,
            comfy_root: String::new(),
            comfy_port: DEFAULT_COMFY_PORT,
            comfy_low_vram: true,
            comfy_auto_start: false,
            comfy_output_dir: String::new(),
            lora_trainer_root: String::new(),
            lora_trainer_python: String::new(),
            lora_trainer_base_model: String::new(),
            lora_trainer_output_dir: String::new(),
            cuda_runtime_dir: String::new(),
            recognition_recognizer_model: String::new(),
            background_priority: owned("below_normal"),
            reference_matching_enabled: false,
            reference_backend: owned("ccip"),
            network_proxy: owned(DEFAULT_NETWORK_PROXY),
        }
    }
}

/// What the URL parser of reqwest makes of a text: its scheme and whether it
/// has a host, or `None` when it is no URL.
pub uninterp spec fn url_facts(s: Seq<char>) -> Option<(Seq<char>, bool)>;

/// `reqwest::Url::parse`, keeping the scheme and whether a host is present.
#[verifier::external_body]
fn parse_url(s: &str) -> (r: Option<(String, bool)>)
    ensures
        match r {
            Some((scheme, host)) => url_facts(s@) == Some((scheme@, host)),
            None => url_facts(s@) is None,
        },
{
    match reqwest::Url::parse(s) {
        Ok(url) => Some((url.scheme().to_string(), url.host_str().is_some())),
        Err(_) => None,
    }
}

/// The proxy URL handed to downloads: nothing when blank; the trimmed value
/// (with `http://` in front when it names no scheme) when it parses as an
/// `http` or `https` URL with a host.
pub open spec fn proxy_url_spec(value: Seq<char>) -> Option<Seq<char>> {
    let t = trim(value);
    let candidate = if contains(t, "://"@) {
        t
    } else {
        "http://"@ + t
    };
    if t.len() == 0 {
        None
    } else {
        match url_facts(candidate) {
            Some((scheme, host)) => if (scheme == "http"@ || scheme == "https"@) && host {
                Some(candidate)
            } else {
                None
            },
            None => None,
        }
    }
}

pub fn proxy_url(value: &str) -> (r: Option<String>)
    ensures
        match r {
            Some(u) => proxy_url_spec(value@) == Some(u@),
            None => proxy_url_spec(value@) is None,
        },
{
    let t = trim_str(value);
    let tc = to_chars(t.as_str());
    if tc.len() == 0 {
        return None;
    }
    let sep = to_chars("://");
    let candidate = if crate::text::contains_chars(tc.as_slice(), sep.as_slice()) {
        t
    } else {
        concat("http://", t.as_str())
    };
    match parse_url(candidate.as_str()) {
        Some((scheme, host)) => {
            if (crate::text::str_eq(scheme.as_str(), "http") || crate::text::str_eq(scheme.as_str(), "https")) && host {
                Some(candidate)
            } else {
                None
            }
        },
        None => None,
    }
}

pub open spec fn is_forbidden_archive_char(c: char) -> bool {
    c == '/' || c == '\\' || c == ':' || c == '*' || c == '?' || c == '"' || c == '<' || c == '>'
        || c == '|'
}

/// Why an archive folder name is refused, once trimmed.
pub open spec fn archive_error(name: Seq<char>) -> Option<Seq<char>> {
    let t = trim(name);
    if t.len() == 0 || t.len() > MAX_ARCHIVE_DIR_NAME {
        Some("归档文件夹名不能为空，且不超过 64 个字符。"@)
    } else if exists|i: int| 0 <= i < t.len() && is_forbidden_archive_char(#[trigger] t[i]) {
        Some("归档文件夹名不能包含 / \\ : * ? \" < > | 等字符。"@)
    } else if t == "."@ || t == ".."@ {
        Some("归档文件夹名不能是 . 或 .."@)
    } else {
        None
    }
}

pub open spec fn clamp_font(h: u32) -> u32 {
    if h < MIN_UI_FONT_HALF_PX {
        MIN_UI_FONT_HALF_PX
    } else if h > MAX_UI_FONT_HALF_PX {
        MAX_UI_FONT_HALF_PX
    } else {
        h
    }
}

/// The first refusal of `validated`, in the order it checks.
pub open spec fn settings_error(s: SettingsView) -> Option<Seq<char>> {
    if !(MIN_ONNX_THREADS <= s.recognition_onnx_threads <= MAX_ONNX_THREADS) {
        Some("识别并行线程数必须在 1 到 16 之间。"@)
    } else if !(MIN_SIMILARITY_WORKERS <= s.similarity_workers <= MAX_SIMILARITY_WORKERS) {
        Some("相似度并行度必须在 1 到 32 之间。"@)
    } else if !(MIN_SIMILARITY_THRESHOLD_HUNDREDTHS <= s.similarity_threshold_hundredths <= MAX_SIMILARITY_THRESHOLD_HUNDREDTHS) {
        Some("默认相似度阈值必须在 0.5 到 0.99 之间。"@)
    } else if archive_error(s.similarity_archive_dir) is Some {
        archive_error(s.similarity_archive_dir)
    } else if !(MIN_COMFY_PORT <= s.comfy_port) {
        Some("ComfyUI 端口必须在 1024 到 65535 之间。"@)
    } else if trim(s.network_proxy).len() > 0 && proxy_url_spec(trim(s.network_proxy)) is None {
        Some("网络代理必须是 host:port 或 http(s)://host:port 格式。"@)
    } else {
        None
    }
}

/// The settings `validated` returns when it accepts: texts trimmed, the
/// font size clamped, the priority and the backend reduced to their two
/// values each.
pub open spec fn normalized(s: SettingsView) -> SettingsView {
    SettingsView {
        similarity_archive_dir: trim(s.similarity_archive_dir),
        ui_font_half_px: clamp_font(s.ui_font_half_px),
        comfy_root: trim(s.comfy_root),
        comfy_output_dir: trim(s.comfy_output_dir),
        lora_trainer_root: trim(s.lora_trainer_root),
        lora_trainer_python: trim(s.lora_trainer_python),
        lora_trainer_base_model: trim(s.lora_trainer_base_model),
        lora_trainer_output_dir: trim(s.lora_trainer_output_dir),
        cuda_runtime_dir: trim(s.cuda_runtime_dir),
        recognition_recognizer_model: trim(s.recognition_recognizer_model),
        background_priority: if lower_ascii(trim(s.background_priority)) == "normal"@ {
            "normal"@
        } else {
            "below_normal"@
        },
        reference_backend: if lower_ascii(trim(s.reference_backend)) == "embedding"@ {
            "embedding"@
        } else {
            "ccip"@
        },
        network_proxy: trim(s.network_proxy),
        ..s
    }
}

pub open spec fn validated_spec(s: SettingsView) -> Result<SettingsView, Seq<char>> {
    match settings_error(s) {
        Some(m) => Err(m),
        None => Ok(normalized(s)),
    }
}

fn archive_check(name: &str) -> (r: Result<String, String>)
    ensures
        match archive_error(name@) {
            Some(m) => r matches Err(e) && e@ == m,
            None => r matches Ok(t) && t@ == trim(name@),
        },
{
    let t = trim_chars(to_chars(name).as_slice());
    if t.len() == 0 || t.len() > MAX_ARCHIVE_DIR_NAME {
        return Err(owned("归档文件夹名不能为空，且不超过 64 个字符。"));
    }
    let mut i: usize = 0;
    while i < t.len()
        invariant
            i <= t@.len(),
            t@ == trim(name@),
            0 < t@.len() <= MAX_ARCHIVE_DIR_NAME,
            forall|k: int| 0 <= k < i ==> !is_forbidden_archive_char(#[trigger] t@[k]),
        decreases t@.len() - i,
    {
        let c = t[i];
        if c == '/' || c == '\\' || c == ':' || c == '*' || c == '?' || c == '"' || c == '<' || c == '>' || c == '|' {
            assert(is_forbidden_archive_char(t@[i as int]));
            return Err(owned("归档文件夹名不能包含 / \\ : * ? \" < > | 等字符。"));
        }
        i = i + 1;
    }
    let dot = to_chars(".");
    let dots = to_chars("..");
    if crate::text::chars_eq(t.as_slice(), dot.as_slice()) || crate::text::chars_eq(t.as_slice(), dots.as_slice()) {
        return Err(owned("归档文件夹名不能是 . 或 .."));
    }
    Ok(from_chars(t.as_slice()))
}

fn lowered_trim_is(s: &str, word: &str) -> (b: bool)
    ensures
        b == (lower_ascii(trim(s@)) == word@),
{
    let v = lower_chars(trim_chars(to_chars(s).as_slice()).as_slice());
    let w = to_chars(word);
    crate::text::chars_eq(v.as_slice(), w.as_slice())
}

impl AppSettings {
    /// Check every range and normalize every field, or say what cannot be
    /// repaired. Trainer paths are only trimmed: files move, and refusing
    /// them would reset every other setting on load.
    pub fn validated(self) -> (r: Result<Self, String>)
        ensures
            match validated_spec(self@) {
                Ok(t) => r matches Ok(v) && v@ == t,
                Err(m) => r matches Err(e) && e@ == m,
            },
    {
        let mut s = self;
        if !(MIN_ONNX_THREADS <= s.recognition_onnx_threads && s.recognition_onnx_threads <= MAX_ONNX_THREADS) {
            return Err(owned("识别并行线程数必须在 1 到 16 之间。"));
        }
        if !(MIN_SIMILARITY_WORKERS <= s.similarity_workers && s.similarity_workers <= MAX_SIMILARITY_WORKERS) {
            return Err(owned("相似度并行度必须在 1 到 32 之间。"));
        }
        if !(MIN_SIMILARITY_THRESHOLD_HUNDREDTHS <= s.similarity_threshold_hundredths
            && s.similarity_threshold_hundredths <= MAX_SIMILARITY_THRESHOLD_HUNDREDTHS) {
            return Err(owned("默认相似度阈值必须在 0.5 到 0.99 之间。"));
        }
        let archive = match archive_check(s.similarity_archive_dir.as_str()) {
            Ok(a) => a,
            Err(e) => return Err(e),
        };
        if s.comfy_port < MIN_COMFY_PORT {
            return Err(owned("ComfyUI 端口必须在 1024 到 65535 之间。"));
        }
        let proxy = trim_str(s.network_proxy.as_str());
        if to_chars(proxy.as_str()).len() > 0 {
            match proxy_url(proxy.as_str()) {
                None => return Err(owned("网络代理必须是 host:port 或 http(s)://host:port 格式。")),
                Some(_) => {},
            }
        }
        let ghost before = s@;
        s.similarity_archive_dir = archive;
        s.ui_font_half_px = if s.ui_font_half_px < MIN_UI_FONT_HALF_PX {
            MIN_UI_FONT_HALF_PX
        } else if s.ui_font_half_px > MAX_UI_FONT_HALF_PX {
            MAX_UI_FONT_HALF_PX
        } else {
            s.ui_font_half_px
        };
        s.comfy_root = trim_str(s.comfy_root.as_str());
        s.comfy_output_dir = trim_str(s.comfy_output_dir.as_str());
        s.lora_trainer_root = trim_str(s.lora_trainer_root.as_str());
        s.lora_trainer_python = trim_str(s.lora_trainer_python.as_str());
        s.lora_trainer_base_model = trim_str(s.lora_trainer_base_model.as_str());
        s.lora_trainer_output_dir = trim_str(s.lora_trainer_output_dir.as_str());
        s.cuda_runtime_dir = trim_str(s.cuda_runtime_dir.as_str());
        s.network_proxy = proxy;
        s.recognition_recognizer_model = trim_str(s.recognition_recognizer_model.as_str());
        s.background_priority = if lowered_trim_is(s.background_priority.as_str(), "normal") {
            owned("normal")
        } else {
            owned("below_normal")
        };
        s.reference_backend = if lowered_trim_is(s.reference_backend.as_str(), "embedding") {
            owned("embedding")
        } else {
            owned("ccip")
        };
        assert(s@ == normalized(before));
        Ok(s)
    }
}

/// `str::parse` of an unsigned integer type whose largest value is `max`:
/// an optional `+`, then at least one decimal digit, the value fitting.
pub open spec fn parse_unsigned(s: Seq<char>, max: nat) -> Option<nat> {
    let digits = if s.len() > 0 && s[0] == '+' {
        s.drop_first()
    } else {
        s
    };
    if digits.len() > 0 && all_digits(digits) && digits_value(digits) <= max {
        Some(digits_value(digits))
    } else {
        None
    }
}

pub(crate) fn parse_unsigned_exec(s: &str, max: u64) -> (r: Option<u64>)
    ensures
        match r {
            Some(v) => parse_unsigned(s@, max as nat) == Some(v as nat),
            None => parse_unsigned(s@, max as nat) is None,
        },
{
    let v = to_chars(s);
    let digits = if v.len() > 0 && v[0] == '+' {
        crate::text::copy_chars(v.as_slice(), 1, v.len())
    } else {
        v
    };
    proof {
        if s@.len() > 0 && s@[0] == '+' {
            assert(digits@ =~= s@.drop_first());
        }
    }
    match crate::text::parse_digits(digits.as_slice()) {
        Some(n) => if n <= max {
            Some(n)
        } else {
            None
        },
        None => None,
    }
}

/// A stored switch: `true`/`1` and `false`/`0`; anything else, or nothing,
/// keeps the fallback.
pub open spec fn parse_bool_spec(value: Option<Seq<char>>, fallback: bool) -> bool {
    match value {
        Some(v) => if v == "true"@ || v == "1"@ {
            true
        } else if v == "false"@ || v == "0"@ {
            false
        } else {
            fallback
        },
        None => fallback,
    }
}

pub open spec fn opt_view(s: Option<String>) -> Option<Seq<char>> {
    match s {
        Some(v) => Some(v@),
        None => None,
    }
}

pub fn parse_bool(value: Option<String>, fallback: bool) -> (b: bool)
    ensures
        b == parse_bool_spec(opt_view(value), fallback),
{
    match value {
        Some(v) => {
            if crate::text::str_eq(v.as_str(), "true") || crate::text::str_eq(v.as_str(), "1") {
                true
            } else if crate::text::str_eq(v.as_str(), "false") || crate::text::str_eq(v.as_str(), "0") {
                false
            } else {
                fallback
            }
        },
        None => fallback,
    }
}

/// The stored rows as the shell read them: the text of each key, if any.
/// The two fractional settings come already read: the threshold in
/// hundredths when it was a finite number from 0.50 to 0.99, the font size
/// in half pixels when it was a finite size from 12 to 20.
#[derive(Debug, Clone)]
pub struct SettingRows {
    pub onnx_threads: Option<String>,
    pub skip_annotated: Option<String>,
    pub similarity_workers: Option<String>,
    pub similarity_threshold_hundredths: Option<u32>,
    pub include_subfolders: Option<String>,
    pub archive_dir: Option<String>,
    pub ui_font_half_px: Option<u32>,
    pub comfy_root: Option<String>,
    pub comfy_port: Option<String>,
    pub comfy_low_vram: Option<String>,
    pub comfy_auto_start: Option<String>,
    pub comfy_output_dir: Option<String>,
    pub lora_trainer_root: Option<String>,
    pub lora_trainer_python: Option<String>,
    pub lora_trainer_base_model: Option<String>,
    pub lora_trainer_output_dir: Option<String>,
    pub cuda_runtime_dir: Option<String>,
    pub recognizer_model: Option<String>,
    pub background_priority: Option<String>,
    pub reference_matching: Option<String>,
    pub reference_backend: Option<String>,
    pub network_proxy: Option<String>,
}

pub struct RowsView {
    pub onnx_threads: Option<Seq<char>>,
    pub skip_annotated: Option<Seq<char>>,
    pub similarity_workers: Option<Seq<char>>,
    pub similarity_threshold_hundredths: Option<u32>,
    pub include_subfolders: Option<Seq<char>>,
    pub archive_dir: Option<Seq<char>>,
    pub ui_font_half_px: Option<u32>,
    pub comfy_root: Option<Seq<char>>,
    pub comfy_port: Option<Seq<char>>,
    pub comfy_low_vram: Option<Seq<char>>,
    pub comfy_auto_start: Option<Seq<char>>,
    pub comfy_output_dir: Option<Seq<char>>,
    pub lora_trainer_root: Option<Seq<char>>,
    pub lora_trainer_python: Option<Seq<char>>,
    pub lora_trainer_base_model: Option<Seq<char>>,
    pub lora_trainer_output_dir: Option<Seq<char>>,
    pub cuda_runtime_dir: Option<Seq<char>>,
    pub recognizer_model: Option<Seq<char>>,
    pub background_priority: Option<Seq<char>>,
    pub reference_matching: Option<Seq<char>>,
    pub reference_backend: Option<Seq<char>>,
    pub network_proxy: Option<Seq<char>>,
}

impl View for SettingRows {
    type V = RowsView;

    open spec fn view(&self) -> RowsView {
        RowsView {
            onnx_threads: opt_view(self.onnx_threads),
            skip_annotated: opt_view(self.skip_annotated),
            similarity_workers: opt_view(self.similarity_workers),
            similarity_threshold_hundredths: self.similarity_threshold_hundredths,
            include_subfolders: opt_view(self.include_subfolders),
            archive_dir: opt_view(self.archive_dir),
            ui_font_half_px: self.ui_font_half_px,
            comfy_root: opt_view(self.comfy_root),
            comfy_port: opt_view(self.comfy_port),
            comfy_low_vram: opt_view(self.comfy_low_vram),
            comfy_auto_start: opt_view(self.comfy_auto_start),
            comfy_output_dir: opt_view(self.comfy_output_dir),
            lora_trainer_root: opt_view(self.lora_trainer_root),
            lora_trainer_python: opt_view(self.lora_trainer_python),
            lora_trainer_base_model: opt_view(self.lora_trainer_base_model),
            lora_trainer_output_dir: opt_view(self.lora_trainer_output_dir),
            cuda_runtime_dir: opt_view(self.cuda_runtime_dir),
            recognizer_model: opt_view(self.recognizer_model),
            background_priority: opt_view(self.background_priority),
            reference_matching: opt_view(self.reference_matching),
            reference_backend: opt_view(self.reference_backend),
            network_proxy: opt_view(self.network_proxy),
        }
    }
}

pub open spec fn or_empty(s: Option<Seq<char>>) -> Seq<char> {
    match s {
        Some(t) => t,
        None => Seq::empty(),
    }
}

/// A number read from its row, kept when it parses and lies in `lo..=hi`.
pub open spec fn ranged(text: Option<Seq<char>>, max: nat, lo: nat, hi: nat, fallback: nat) -> nat {
    match text {
        Some(t) => match parse_unsigned(t, max) {
            Some(n) => if lo <= n <= hi {
                n
            } else {
                fallback
            },
            None => fallback,
        },
        None => fallback,
    }
}

/// The settings read from their rows before validation: each value that
/// is missing or unusable falls back to its default.
pub open spec fn from_rows_spec(rows: RowsView, workers: u32) -> SettingsView {
    let d = defaults_spec(workers);
    SettingsView {
        recognition_onnx_threads: ranged(rows.onnx_threads, u32::MAX as nat, 1, 16, 4) as u32,
        recognition_skip_annotated: parse_bool_spec(rows.skip_annotated, true),
        similarity_workers: ranged(rows.similarity_workers, u32::MAX as nat, 1, 32, workers as nat) as u32,
        similarity_threshold_hundredths: match rows.similarity_threshold_hundredths {
            Some(h) => h,
            None => 85,
        },
        similarity_include_subfolders: parse_bool_spec(rows.include_subfolders, true),
        similarity_archive_dir: match rows.archive_dir {
            Some(a) => if trim(a).len() > 0 {
                a
            } else {
                d.similarity_archive_dir
            },
            None => d.similarity_archive_dir,
        },
        ui_font_half_px: match rows.ui_font_half_px {
            Some(h) => h,
            None => UI_FONT_BASE_HALF_PX,
        },
        comfy_root: or_empty(rows.comfy_root),
        comfy_port: ranged(rows.comfy_port, u16::MAX as nat, 1024, 65535, 8188) as u16,
        comfy_low_vram: parse_bool_spec(rows.comfy_low_vram, true),
        comfy_auto_start: parse_bool_spec(rows.comfy_auto_start, false),
        comfy_output_dir: or_empty(rows.comfy_output_dir),
        lora_trainer_root: or_empty(rows.lora_trainer_root),
        lora_trainer_python: or_empty(rows.lora_trainer_python),
        lora_trainer_base_model: or_empty(rows.lora_trainer_base_model),
        lora_trainer_output_dir: or_empty(rows.lora_trainer_output_dir),
        cuda_runtime_dir: or_empty(rows.cuda_runtime_dir),
        recognition_recognizer_model: or_empty(rows.recognizer_model),
        background_priority: match rows.background_priority {
            Some(p) => if p == "normal"@ || p == "below_normal"@ {
                p
            } else {
                d.background_priority
            },
            None => d.background_priority,
        },
        reference_matching_enabled: parse_bool_spec(rows.reference_matching, false),
        reference_backend: match rows.reference_backend {
            Some(b) => if b == "ccip"@ || b == "embedding"@ {
                b
            } else {
                d.reference_backend
            },
            None => d.reference_backend,
        },
        network_proxy: match rows.network_proxy {
            Some(p) => p,
            None => d.network_proxy,
        },
    }
}

/// Loading: the values read from the rows, validated; when validation
/// refuses them, the defaults.
pub open spec fn load_spec(rows: RowsView, workers: u32) -> SettingsView {
    match validated_spec(from_rows_spec(rows, workers)) {
        Ok(t) => t,
        Err(_) => defaults_spec(workers),
    }
}

fn text_or_empty(s: Option<String>) -> (r: String)
    ensures
        r@ == or_empty(opt_view(s)),
{
    match s {
        Some(t) => t,
        None => String::new(),
    }
}

fn ranged_exec(text: Option<String>, max: u64, lo: u64, hi: u64, fallback: u64) -> (r: u64)
    requires
        fallback <= hi,
    ensures
        r as nat == ranged(opt_view(text), max as nat, lo as nat, hi as nat, fallback as nat),
        r <= hi,
{
    match text {
        Some(t) => match parse_unsigned_exec(t.as_str(), max) {
            Some(n) => if lo <= n && n <= hi {
                n
            } else {
                fallback
            },
            None => fallback,
        },
        None => fallback,
    }
}

/// The settings as stored, validated; the defaults when validation refuses
/// them.
pub fn load_app_settings(rows: SettingRows, similarity_workers: u32) -> (r: AppSettings)
    ensures
        r@ == load_spec(rows@, similarity_workers),
{
    let ghost rv = rows@;
    let onnx = ranged_exec(rows.onnx_threads, u32::MAX as u64, 1, 16, 4) as u32;
    let workers_fallback: u64 = similarity_workers as u64;
    let workers = if workers_fallback <= 32 {
        ranged_exec(rows.similarity_workers, u32::MAX as u64, 1, 32, workers_fallback) as u32
    } else {
        match rows.similarity_workers {
            Some(t) => match parse_unsigned_exec(t.as_str(), u32::MAX as u64) {
                Some(n) => if 1 <= n && n <= 32 {
                    n as u32
                } else {
                    similarity_workers
                },
                None => similarity_workers,
            },
            None => similarity_workers,
        }
    };
    let archive = match rows.archive_dir {
        Some(a) => if crate::text::is_blank(a.as_str()) {
            owned("_duplicates")
        } else {
            a
        },
        None => owned("_duplicates"),
    };
    let priority = match rows.background_priority {
        Some(p) => if crate::text::str_eq(p.as_str(), "normal") || crate::text::str_eq(p.as_str(), "below_normal") {
            p
        } else {
            owned("below_normal")
        },
        None => owned("below_normal"),
    };
    let backend = match rows.reference_backend {
        Some(b) => if crate::text::str_eq(b.as_str(), "ccip") || crate::text::str_eq(b.as_str(), "embedding") {
            b
        } else {
            owned("ccip")
        },
        None => owned("ccip"),
    };
    let proxy = match rows.network_proxy {
        Some(p) => p,
        None => owned(DEFAULT_NETWORK_PROXY),
    };
    let read = AppSettings {
        recognition_onnx_threads: onnx,
        recognition_skip_annotated: parse_bool(rows.skip_annotated, true),
        similarity_workers: workers,
        similarity_threshold_hundredths: match rows.similarity_threshold_hundredths {
            Some(h) => h,
            None => 85,
        },
        similarity_include_subfolders: parse_bool(rows.include_subfolders, true),
        similarity_archive_dir: archive,
        ui_font_half_px: match rows.ui_font_half_px {
            Some(h) => h,
            None => UI_FONT_BASE_HALF_PX,
        },
        comfy_root: text_or_empty(rows.comfy_root),
        comfy_port: ranged_exec(rows.comfy_port, u16::MAX as u64, 1024, 65535, 8188) as u16,
        comfy_low_vram: parse_bool(rows.comfy_low_vram, true),
        comfy_auto_start: parse_bool(rows.comfy_auto_start, false),
        comfy_output_dir: text_or_empty(rows.comfy_output_dir),
        lora_trainer_root: text_or_empty(rows.lora_trainer_root),
        lora_trainer_python: text_or_empty(rows.lora_trainer_python),
        lora_trainer_base_model: text_or_empty(rows.lora_trainer_base_model),
        lora_trainer_output_dir: text_or_empty(rows.lora_trainer_output_dir),
        cuda_runtime_dir: text_or_empty(rows.cuda_runtime_dir),
        recognition_recognizer_model: text_or_empty(rows.recognizer_model),
        background_priority: priority,
        reference_matching_enabled: parse_bool(rows.reference_matching, false),
        reference_backend: backend,
        network_proxy: proxy,
    };
    assert(read@ == from_rows_spec(rv, similarity_workers));
    match read.validated() {
        Ok(s) => s,
        Err(_) => AppSettings::defaults(similarity_workers),
    }
}

pub open spec fn bool_text(b: bool) -> Seq<char> {
    if b {
        "true"@
    } else {
        "false"@
    }
}

/// `{:.2}` of a threshold of 0.50 to 0.99 given in hundredths.
pub open spec fn threshold_text(h: u32) -> Seq<char> {
    "0."@ + decimal(h as nat)
}

/// `{:.1}` of a size given in half pixels.
pub open spec fn font_text(h: u32) -> Seq<char> {
    decimal((h / 2) as nat) + (if h % 2 == 1 {
        ".5"@
    } else {
        ".0"@
    })
}

/// The values `save_app_settings` writes, as the texts of their rows.
pub open spec fn stored_texts(s: SettingsView) -> Seq<(Seq<char>, Seq<char>)> {
    seq![
        (WORKER_ONNX_THREADS_SETTING@, decimal(s.recognition_onnx_threads as nat)),
        (WORKER_SKIP_ANNOTATED_SETTING@, bool_text(s.recognition_skip_annotated)),
        (SIMILARITY_WORKERS_SETTING@, decimal(s.similarity_workers as nat)),
        (SIMILARITY_THRESHOLD_SETTING@, threshold_text(s.similarity_threshold_hundredths)),
        (SIMILARITY_INCLUDE_SUBFOLDERS_SETTING@, bool_text(s.similarity_include_subfolders)),
        (SIMILARITY_ARCHIVE_DIR_SETTING@, s.similarity_archive_dir),
        (UI_FONT_SIZE_SETTING@, font_text(s.ui_font_half_px)),
        (COMFY_ROOT_SETTING@, s.comfy_root),
        (COMFY_PORT_SETTING@, decimal(s.comfy_port as nat)),
        (COMFY_LOW_VRAM_SETTING@, bool_text(s.comfy_low_vram)),
        (COMFY_AUTO_START_SETTING@, bool_text(s.comfy_auto_start)),
        (COMFY_OUTPUT_DIR_SETTING@, s.comfy_output_dir),
        (LORA_TRAINER_ROOT_SETTING@, s.lora_trainer_root),
        (LORA_TRAINER_PYTHON_SETTING@, s.lora_trainer_python),
        (LORA_TRAINER_BASE_MODEL_SETTING@, s.lora_trainer_base_model),
        (LORA_TRAINER_OUTPUT_DIR_SETTING@, s.lora_trainer_output_dir),
        (CUDA_RUNTIME_DIR_SETTING@, s.cuda_runtime_dir),
        (RECOGNIZER_MODEL_SETTING@, s.recognition_recognizer_model),
        (BACKGROUND_PRIORITY_SETTING@, s.background_priority),
        (REFERENCE_MATCHING_SETTING@, bool_text(s.reference_matching_enabled)),
        (REFERENCE_BACKEND_SETTING@, s.reference_backend),
        (NETWORK_PROXY_SETTING@, s.network_proxy),
    ]
}

fn bool_string(b: bool) -> (r: String)
    ensures
        r@ == bool_text(b),
{
    if b {
        owned("true")
    } else {
        owned("false")
    }
}

fn threshold_string(h: u32) -> (r: String)
    ensures
        r@ == threshold_text(h),
{
    concat("0.", decimal_string(h as u64).as_str())
}

fn font_string(h: u32) -> (r: String)
    ensures
        r@ == font_text(h),
{
    let whole = decimal_string((h / 2) as u64);
    if h % 2 == 1 {
        concat(whole.as_str(), ".5")
    } else {
        concat(whole.as_str(), ".0")
    }
}

pub open spec fn pair_views(v: Seq<(String, String)>) -> Seq<(Seq<char>, Seq<char>)> {
    v.map_values(|p: (String, String)| (p.0@, p.1@))
}

/// The rows to write for a settings change: the validated settings, key by
/// key, in one batch (the shell writes them in one transaction so nothing
/// is ever half saved). The refusal of `validated` when there is one.
pub fn settings_entries(settings: AppSettings) -> (r: Result<Vec<(String, String)>, String>)
    ensures
        match validated_spec(settings@) {
            Ok(t) => r matches Ok(es) && pair_views(es@) == stored_texts(t),
            Err(m) => r matches Err(e) && e@ == m,
        },
{
    let s = match settings.validated() {
        Ok(s) => s,
        Err(e) => return Err(e),
    };
    let mut es: Vec<(String, String)> = Vec::new();
    es.push((owned(WORKER_ONNX_THREADS_SETTING), decimal_string(s.recognition_onnx_threads as u64)));
    es.push((owned(WORKER_SKIP_ANNOTATED_SETTING), bool_string(s.recognition_skip_annotated)));
    es.push((owned(SIMILARITY_WORKERS_SETTING), decimal_string(s.similarity_workers as u64)));
    es.push((owned(SIMILARITY_THRESHOLD_SETTING), threshold_string(s.similarity_threshold_hundredths)));
    es.push((owned(SIMILARITY_INCLUDE_SUBFOLDERS_SETTING), bool_string(s.similarity_include_subfolders)));
    es.push((owned(SIMILARITY_ARCHIVE_DIR_SETTING), s.similarity_archive_dir.clone()));
    es.push((owned(UI_FONT_SIZE_SETTING), font_string(s.ui_font_half_px)));
    es.push((owned(COMFY_ROOT_SETTING), s.comfy_root.clone()));
    es.push((owned(COMFY_PORT_SETTING), decimal_string(s.comfy_port as u64)));
    es.push((owned(COMFY_LOW_VRAM_SETTING), bool_string(s.comfy_low_vram)));
    es.push((owned(COMFY_AUTO_START_SETTING), bool_string(s.comfy_auto_start)));
    es.push((owned(COMFY_OUTPUT_DIR_SETTING), s.comfy_output_dir.clone()));
    es.push((owned(LORA_TRAINER_ROOT_SETTING), s.lora_trainer_root.clone()));
    es.push((owned(LORA_TRAINER_PYTHON_SETTING), s.lora_trainer_python.clone()));
    es.push((owned(LORA_TRAINER_BASE_MODEL_SETTING), s.lora_trainer_base_model.clone()));
    es.push((owned(LORA_TRAINER_OUTPUT_DIR_SETTING), s.lora_trainer_output_dir.clone()));
    es.push((owned(CUDA_RUNTIME_DIR_SETTING), s.cuda_runtime_dir.clone()));
    es.push((owned(RECOGNIZER_MODEL_SETTING), s.recognition_recognizer_model.clone()));
    es.push((owned(BACKGROUND_PRIORITY_SETTING), s.background_priority.clone()));
    es.push((owned(REFERENCE_MATCHING_SETTING), bool_string(s.reference_matching_enabled)));
    es.push((owned(REFERENCE_BACKEND_SETTING), s.reference_backend.clone()));
    es.push((owned(NETWORK_PROXY_SETTING), s.network_proxy.clone()));
    assert(pair_views(es@) =~= stored_texts(s@));
    Ok(es)
}

/// The rows as the shell reads them back after `save_app_settings` wrote
/// `s`: the text of each value, the two fractional ones as written.
pub open spec fn stored_rows(s: SettingsView) -> RowsView {
    RowsView {
        onnx_threads: Some(decimal(s.recognition_onnx_threads as nat)),
        skip_annotated: Some(bool_text(s.recognition_skip_annotated)),
        similarity_workers: Some(decimal(s.similarity_workers as nat)),
        similarity_threshold_hundredths: Some(s.similarity_threshold_hundredths),
        include_subfolders: Some(bool_text(s.similarity_include_subfolders)),
        archive_dir: Some(s.similarity_archive_dir),
        ui_font_half_px: Some(s.ui_font_half_px),
        comfy_root: Some(s.comfy_root),
        comfy_port: Some(decimal(s.comfy_port as nat)),
        comfy_low_vram: Some(bool_text(s.comfy_low_vram)),
        comfy_auto_start: Some(bool_text(s.comfy_auto_start)),
        comfy_output_dir: Some(s.comfy_output_dir),
        lora_trainer_root: Some(s.lora_trainer_root),
        lora_trainer_python: Some(s.lora_trainer_python),
        lora_trainer_base_model: Some(s.lora_trainer_base_model),
        lora_trainer_output_dir: Some(s.lora_trainer_output_dir),
        cuda_runtime_dir: Some(s.cuda_runtime_dir),
        recognizer_model: Some(s.recognition_recognizer_model),
        background_priority: Some(s.background_priority),
        reference_matching: Some(bool_text(s.reference_matching_enabled)),
        reference_backend: Some(s.reference_backend),
        network_proxy: Some(s.network_proxy),
    }
}

/// Decimal text reads back as the number it spells.
pub proof fn lemma_decimal_parses(n: nat)
    ensures
        decimal(n).len() > 0,
        all_digits(decimal(n)),
        digits_value(decimal(n)) == n,
        decimal(n)[0] != '+',
    decreases n,
{
    if n < 10 {
        assert(decimal(n) == seq![crate::text::digit_char(n)]);
        assert(crate::text::digit_char(n) as u32 == ('0' as u32) + n);
        assert(seq![crate::text::digit_char(n)].drop_last() =~= Seq::<char>::empty());
        assert(digits_value(Seq::<char>::empty()) == 0);
        assert(seq![crate::text::digit_char(n)].last() == crate::text::digit_char(n));
        assert(digits_value(seq![crate::text::digit_char(n)]) == n);
    } else {
        lemma_decimal_parses(n / 10);
        let d = decimal(n / 10);
        let c = crate::text::digit_char(n % 10);
        assert(c as u32 == ('0' as u32) + n % 10);
        assert(decimal(n) == d.push(c));
        assert(d.push(c).drop_last() =~= d);
        assert(d.push(c)[0] == d[0]);
        assert forall|i: int| 0 <= i < d.push(c).len() implies crate::text::is_digit(#[trigger] d.push(c)[i]) by {
            if i < d.len() {
                assert(d.push(c)[i] == d[i]);
            }
        }
        assert(digits_value(d.push(c)) == digits_value(d) * 10 + (n % 10));
        assert((n / 10) * 10 + n % 10 == n) by (nonlinear_arith);
    }
}

proof fn lemma_parse_decimal(n: nat, max: nat)
    requires
        n <= max,
    ensures
        parse_unsigned(decimal(n), max) == Some(n),
{
    lemma_decimal_parses(n);
}

/// Validation is a normal form: what it accepts, it accepts again unchanged.
pub proof fn law_validated_is_a_normal_form(s: SettingsView, t: SettingsView)
    requires
        validated_spec(s) == Ok::<SettingsView, Seq<char>>(t),
    ensures
        validated_spec(t) == Ok::<SettingsView, Seq<char>>(t),
{
    crate::text::lemma_trim_idempotent(s.similarity_archive_dir);
    crate::text::lemma_trim_idempotent(s.comfy_root);
    crate::text::lemma_trim_idempotent(s.comfy_output_dir);
    crate::text::lemma_trim_idempotent(s.lora_trainer_root);
    crate::text::lemma_trim_idempotent(s.lora_trainer_python);
    crate::text::lemma_trim_idempotent(s.lora_trainer_base_model);
    crate::text::lemma_trim_idempotent(s.lora_trainer_output_dir);
    crate::text::lemma_trim_idempotent(s.cuda_runtime_dir);
    crate::text::lemma_trim_idempotent(s.recognition_recognizer_model);
    crate::text::lemma_trim_idempotent(s.network_proxy);
    lemma_fixed_words();
    assert(normalized(t) == t);
}

/// The four words validation reduces the priority and the backend to stay
/// themselves when trimmed and lower-cased.
proof fn lemma_fixed_words()
    ensures
        lower_ascii(trim("normal"@)) == "normal"@,
        lower_ascii(trim("below_normal"@)) == "below_normal"@,
        lower_ascii(trim("embedding"@)) == "embedding"@,
        lower_ascii(trim("ccip"@)) == "ccip"@,
        lower_ascii(trim("below_normal"@)) != "normal"@,
        lower_ascii(trim("ccip"@)) != "embedding"@,
{
    reveal_strlit("normal");
    reveal_strlit("below_normal");
    reveal_strlit("embedding");
    reveal_strlit("ccip");
    lemma_plain_word("normal"@);
    lemma_plain_word("below_normal"@);
    lemma_plain_word("embedding"@);
    lemma_plain_word("ccip"@);
    assert(lower_ascii("normal"@) =~= "normal"@);
    assert(lower_ascii("below_normal"@) =~= "below_normal"@);
    assert(lower_ascii("embedding"@) =~= "embedding"@);
    assert(lower_ascii("ccip"@) =~= "ccip"@);
    assert("below_normal"@.len() != "normal"@.len());
    assert("ccip"@.len() != "embedding"@.len());
}

/// A word whose first and last characters are not white space is its own
/// trim.
proof fn lemma_plain_word(w: Seq<char>)
    requires
        w.len() > 0,
        !crate::text::is_ws(w[0]),
        !crate::text::is_ws(w.last()),
    ensures
        trim(w) == w,
{
    assert(crate::text::trim_start(w) == w);
    assert(crate::text::trim_end(w) == w);
}

/// Saving then loading gives the settings back: for settings that
/// validation leaves as they are, reading the rows `save_app_settings`
/// writes yields exactly those settings.
pub proof fn law_settings_round_trip(s: SettingsView, workers: u32)
    requires
        validated_spec(s) == Ok::<SettingsView, Seq<char>>(s),
    ensures
        load_spec(stored_rows(s), workers) == s,
{
    lemma_parse_decimal(s.recognition_onnx_threads as nat, u32::MAX as nat);
    lemma_parse_decimal(s.similarity_workers as nat, u32::MAX as nat);
    lemma_parse_decimal(s.comfy_port as nat, u16::MAX as nat);
    reveal_strlit("true");
    reveal_strlit("false");
    reveal_strlit("1");
    reveal_strlit("0");
    assert("true"@.len() == 4 && "1"@.len() == 1 && "false"@.len() == 5 && "0"@.len() == 1);
    let r = from_rows_spec(stored_rows(s), workers);
    assert(r == s);
}


/// The keys of the settings table, in the order a save writes them.
pub open spec fn setting_keys() -> Seq<Seq<char>> {
    seq![
        WORKER_ONNX_THREADS_SETTING@,
        WORKER_SKIP_ANNOTATED_SETTING@,
        SIMILARITY_WORKERS_SETTING@,
        SIMILARITY_THRESHOLD_SETTING@,
        SIMILARITY_INCLUDE_SUBFOLDERS_SETTING@,
        SIMILARITY_ARCHIVE_DIR_SETTING@,
        UI_FONT_SIZE_SETTING@,
        COMFY_ROOT_SETTING@,
        COMFY_PORT_SETTING@,
        COMFY_LOW_VRAM_SETTING@,
        COMFY_AUTO_START_SETTING@,
        COMFY_OUTPUT_DIR_SETTING@,
        LORA_TRAINER_ROOT_SETTING@,
        LORA_TRAINER_PYTHON_SETTING@,
        LORA_TRAINER_BASE_MODEL_SETTING@,
        LORA_TRAINER_OUTPUT_DIR_SETTING@,
        CUDA_RUNTIME_DIR_SETTING@,
        RECOGNIZER_MODEL_SETTING@,
        BACKGROUND_PRIORITY_SETTING@,
        REFERENCE_MATCHING_SETTING@,
        REFERENCE_BACKEND_SETTING@,
        NETWORK_PROXY_SETTING@,
    ]
}

/// The setting keys are all different, and they are the keys a save writes.
proof fn lemma_setting_keys(s: SettingsView)
    ensures
        setting_keys().len() == 22,
        stored_texts(s).len() == 22,
        forall|i: int| 0 <= i < 22 ==> (#[trigger] stored_texts(s)[i]).0 == setting_keys()[i],
        forall|i: int, j: int| 0 <= i < j < 22 ==> setting_keys()[i] != setting_keys()[j],
{
    reveal_strlit("worker.onnx_threads");
    assert(WORKER_ONNX_THREADS_SETTING@ == "worker.onnx_threads"@);
    reveal_strlit("recognition.skip_annotated");
    assert(WORKER_SKIP_ANNOTATED_SETTING@ == "recognition.skip_annotated"@);
    reveal_strlit("similarity.workers");
    assert(SIMILARITY_WORKERS_SETTING@ == "similarity.workers"@);
    reveal_strlit("similarity.threshold");
    assert(SIMILARITY_THRESHOLD_SETTING@ == "similarity.threshold"@);
    reveal_strlit("similarity.include_subfolders");
    assert(SIMILARITY_INCLUDE_SUBFOLDERS_SETTING@ == "similarity.include_subfolders"@);
    reveal_strlit("similarity.archive_dir");
    assert(SIMILARITY_ARCHIVE_DIR_SETTING@ == "similarity.archive_dir"@);
    reveal_strlit("ui.font_size");
    assert(UI_FONT_SIZE_SETTING@ == "ui.font_size"@);
    reveal_strlit("comfy.root");
    assert(COMFY_ROOT_SETTING@ == "comfy.root"@);
    reveal_strlit("comfy.port");
    assert(COMFY_PORT_SETTING@ == "comfy.port"@);
    reveal_strlit("comfy.low_vram");
    assert(COMFY_LOW_VRAM_SETTING@ == "comfy.low_vram"@);
    reveal_strlit("comfy.auto_start");
    assert(COMFY_AUTO_START_SETTING@ == "comfy.auto_start"@);
    reveal_strlit("comfy.output_dir");
    assert(COMFY_OUTPUT_DIR_SETTING@ == "comfy.output_dir"@);
    reveal_strlit("lora_trainer.root");
    assert(LORA_TRAINER_ROOT_SETTING@ == "lora_trainer.root"@);
    reveal_strlit("lora_trainer.python");
    assert(LORA_TRAINER_PYTHON_SETTING@ == "lora_trainer.python"@);
    reveal_strlit("lora_trainer.base_model");
    assert(LORA_TRAINER_BASE_MODEL_SETTING@ == "lora_trainer.base_model"@);
    reveal_strlit("lora_trainer.output_dir");
    assert(LORA_TRAINER_OUTPUT_DIR_SETTING@ == "lora_trainer.output_dir"@);
    reveal_strlit("worker.cuda_runtime_dir");
    assert(CUDA_RUNTIME_DIR_SETTING@ == "worker.cuda_runtime_dir"@);
    reveal_strlit("recognition.recognizer_model");
    assert(RECOGNIZER_MODEL_SETTING@ == "recognition.recognizer_model"@);
    reveal_strlit("worker.background_priority");
    assert(BACKGROUND_PRIORITY_SETTING@ == "worker.background_priority"@);
    reveal_strlit("recognition.reference_matching");
    assert(REFERENCE_MATCHING_SETTING@ == "recognition.reference_matching"@);
    reveal_strlit("recognition.reference_backend");
    assert(REFERENCE_BACKEND_SETTING@ == "recognition.reference_backend"@);
    reveal_strlit("network.proxy");
    assert(NETWORK_PROXY_SETTING@ == "network.proxy"@);
    let ks = setting_keys();
    assert(stored_texts(s).map_values(|p: (Seq<char>, Seq<char>)| p.0) =~= ks);
    assert forall|i: int| 0 <= i < 22 implies (#[trigger] stored_texts(s)[i]).0 == ks[i] by {
        assert(stored_texts(s).map_values(|p: (Seq<char>, Seq<char>)| p.0)[i] == stored_texts(s)[i].0);
    }
    assert forall|i: int, j: int| 0 <= i < j < 22 implies ks[i] != ks[j] by {
        if i == 0 {
            assert(ks[0] == WORKER_ONNX_THREADS_SETTING@);
            if j == 1 {
                assert(ks[0].len() != ks[1].len());
            } else if j == 2 {
                assert(ks[0].len() != ks[2].len());
            } else if j == 3 {
                assert(ks[0].len() != ks[3].len());
            } else if j == 4 {
                assert(ks[0].len() != ks[4].len());
            } else if j == 5 {
                assert(ks[0].len() != ks[5].len());
            } else if j == 6 {
                assert(ks[0].len() != ks[6].len());
            } else if j == 7 {
                assert(ks[0].len() != ks[7].len());
            } else if j == 8 {
                assert(ks[0].len() != ks[8].len());
            } else if j == 9 {
                assert(ks[0].len() != ks[9].len());
            } else if j == 10 {
                assert(ks[0].len() != ks[10].len());
            } else if j == 11 {
                assert(ks[0].len() != ks[11].len());
            } else if j == 12 {
                assert(ks[0].len() != ks[12].len());
            } else if j == 13 {
                assert(ks[0][0] == 'w' && ks[13][0] == 'l');
            } else if j == 14 {
                assert(ks[0].len() != ks[14].len());
            } else if j == 15 {
                assert(ks[0].len() != ks[15].len());
            } else if j == 16 {
                assert(ks[0].len() != ks[16].len());
            } else if j == 17 {
                assert(ks[0].len() != ks[17].len());
            } else if j == 18 {
                assert(ks[0].len() != ks[18].len());
            } else if j == 19 {
                assert(ks[0].len() != ks[19].len());
            } else if j == 20 {
                assert(ks[0].len() != ks[20].len());
            } else if j == 21 {
                assert(ks[0].len() != ks[21].len());
            }
        } else if i == 1 {
            assert(ks[1] == WORKER_SKIP_ANNOTATED_SETTING@);
            if j == 2 {
                assert(ks[1].len() != ks[2].len());
            } else if j == 3 {
                assert(ks[1].len() != ks[3].len());
            } else if j == 4 {
                assert(ks[1].len() != ks[4].len());
            } else if j == 5 {
                assert(ks[1].len() != ks[5].len());
            } else if j == 6 {
                assert(ks[1].len() != ks[6].len());
            } else if j == 7 {
                assert(ks[1].len() != ks[7].len());
            } else if j == 8 {
                assert(ks[1].len() != ks[8].len());
            } else if j == 9 {
                assert(ks[1].len() != ks[9].len());
            } else if j == 10 {
                assert(ks[1].len() != ks[10].len());
            } else if j == 11 {
                assert(ks[1].len() != ks[11].len());
            } else if j == 12 {
                assert(ks[1].len() != ks[12].len());
            } else if j == 13 {
                assert(ks[1].len() != ks[13].len());
            } else if j == 14 {
                assert(ks[1].len() != ks[14].len());
            } else if j == 15 {
                assert(ks[1].len() != ks[15].len());
            } else if j == 16 {
                assert(ks[1].len() != ks[16].len());
            } else if j == 17 {
                assert(ks[1].len() != ks[17].len());
            } else if j == 18 {
                assert(ks[1][0] == 'r' && ks[18][0] == 'w');
            } else if j == 19 {
                assert(ks[1].len() != ks[19].len());
            } else if j == 20 {
                assert(ks[1].len() != ks[20].len());
            } else if j == 21 {
                assert(ks[1].len() != ks[21].len());
            }
        } else if i == 2 {
            assert(ks[2] == SIMILARITY_WORKERS_SETTING@);
            if j == 3 {
                assert(ks[2].len() != ks[3].len());
            } else if j == 4 {
                assert(ks[2].len() != ks[4].len());
            } else if j == 5 {
                assert(ks[2].len() != ks[5].len());
            } else if j == 6 {
                assert(ks[2].len() != ks[6].len());
            } else if j == 7 {
                assert(ks[2].len() != ks[7].len());
            } else if j == 8 {
                assert(ks[2].len() != ks[8].len());
            } else if j == 9 {
                assert(ks[2].len() != ks[9].len());
            } else if j == 10 {
                assert(ks[2].len() != ks[10].len());
            } else if j == 11 {
                assert(ks[2].len() != ks[11].len());
            } else if j == 12 {
                assert(ks[2].len() != ks[12].len());
            } else if j == 13 {
                assert(ks[2].len() != ks[13].len());
            } else if j == 14 {
                assert(ks[2].len() != ks[14].len());
            } else if j == 15 {
                assert(ks[2].len() != ks[15].len());
            } else if j == 16 {
                assert(ks[2].len() != ks[16].len());
            } else if j == 17 {
                assert(ks[2].len() != ks[17].len());
            } else if j == 18 {
                assert(ks[2].len() != ks[18].len());
            } else if j == 19 {
                assert(ks[2].len() != ks[19].len());
            } else if j == 20 {
                assert(ks[2].len() != ks[20].len());
            } else if j == 21 {
                assert(ks[2].len() != ks[21].len());
            }
        } else if i == 3 {
            assert(ks[3] == SIMILARITY_THRESHOLD_SETTING@);
            if j == 4 {
                assert(ks[3].len() != ks[4].len());
            } else if j == 5 {
                assert(ks[3].len() != ks[5].len());
            } else if j == 6 {
                assert(ks[3].len() != ks[6].len());
            } else if j == 7 {
                assert(ks[3].len() != ks[7].len());
            } else if j == 8 {
                assert(ks[3].len() != ks[8].len());
            } else if j == 9 {
                assert(ks[3].len() != ks[9].len());
            } else if j == 10 {
                assert(ks[3].len() != ks[10].len());
            } else if j == 11 {
                assert(ks[3].len() != ks[11].len());
            } else if j == 12 {
                assert(ks[3].len() != ks[12].len());
            } else if j == 13 {
                assert(ks[3].len() != ks[13].len());
            } else if j == 14 {
                assert(ks[3].len() != ks[14].len());
            } else if j == 15 {
                assert(ks[3].len() != ks[15].len());
            } else if j == 16 {
                assert(ks[3].len() != ks[16].len());
            } else if j == 17 {
                assert(ks[3].len() != ks[17].len());
            } else if j == 18 {
                assert(ks[3].len() != ks[18].len());
            } else if j == 19 {
                assert(ks[3].len() != ks[19].len());
            } else if j == 20 {
                assert(ks[3].len() != ks[20].len());
            } else if j == 21 {
                assert(ks[3].len() != ks[21].len());
            }
        } else if i == 4 {
            assert(ks[4] == SIMILARITY_INCLUDE_SUBFOLDERS_SETTING@);
            if j == 5 {
                assert(ks[4].len() != ks[5].len());
            } else if j == 6 {
                assert(ks[4].len() != ks[6].len());
            } else if j == 7 {
                assert(ks[4].len() != ks[7].len());
            } else if j == 8 {
                assert(ks[4].len() != ks[8].len());
            } else if j == 9 {
                assert(ks[4].len() != ks[9].len());
            } else if j == 10 {
                assert(ks[4].len() != ks[10].len());
            } else if j == 11 {
                assert(ks[4].len() != ks[11].len());
            } else if j == 12 {
                assert(ks[4].len() != ks[12].len());
            } else if j == 13 {
                assert(ks[4].len() != ks[13].len());
            } else if j == 14 {
                assert(ks[4].len() != ks[14].len());
            } else if j == 15 {
                assert(ks[4].len() != ks[15].len());
            } else if j == 16 {
                assert(ks[4].len() != ks[16].len());
            } else if j == 17 {
                assert(ks[4].len() != ks[17].len());
            } else if j == 18 {
                assert(ks[4].len() != ks[18].len());
            } else if j == 19 {
                assert(ks[4].len() != ks[19].len());
            } else if j == 20 {
                assert(ks[4][0] == 's' && ks[20][0] == 'r');
            } else if j == 21 {
                assert(ks[4].len() != ks[21].len());
            }
        } else if i == 5 {
            assert(ks[5] == SIMILARITY_ARCHIVE_DIR_SETTING@);
            if j == 6 {
                assert(ks[5].len() != ks[6].len());
            } else if j == 7 {
                assert(ks[5].len() != ks[7].len());
            } else if j == 8 {
                assert(ks[5].len() != ks[8].len());
            } else if j == 9 {
                assert(ks[5].len() != ks[9].len());
            } else if j == 10 {
                assert(ks[5].len() != ks[10].len());
            } else if j == 11 {
                assert(ks[5].len() != ks[11].len());
            } else if j == 12 {
                assert(ks[5].len() != ks[12].len());
            } else if j == 13 {
                assert(ks[5].len() != ks[13].len());
            } else if j == 14 {
                assert(ks[5].len() != ks[14].len());
            } else if j == 15 {
                assert(ks[5].len() != ks[15].len());
            } else if j == 16 {
                assert(ks[5].len() != ks[16].len());
            } else if j == 17 {
                assert(ks[5].len() != ks[17].len());
            } else if j == 18 {
                assert(ks[5].len() != ks[18].len());
            } else if j == 19 {
                assert(ks[5].len() != ks[19].len());
            } else if j == 20 {
                assert(ks[5].len() != ks[20].len());
            } else if j == 21 {
                assert(ks[5].len() != ks[21].len());
            }
        } else if i == 6 {
            assert(ks[6] == UI_FONT_SIZE_SETTING@);
            if j == 7 {
                assert(ks[6].len() != ks[7].len());
            } else if j == 8 {
                assert(ks[6].len() != ks[8].len());
            } else if j == 9 {
                assert(ks[6].len() != ks[9].len());
            } else if j == 10 {
                assert(ks[6].len() != ks[10].len());
            } else if j == 11 {
                assert(ks[6].len() != ks[11].len());
            } else if j == 12 {
                assert(ks[6].len() != ks[12].len());
            } else if j == 13 {
                assert(ks[6].len() != ks[13].len());
            } else if j == 14 {
                assert(ks[6].len() != ks[14].len());
            } else if j == 15 {
                assert(ks[6].len() != ks[15].len());
            } else if j == 16 {
                assert(ks[6].len() != ks[16].len());
            } else if j == 17 {
                assert(ks[6].len() != ks[17].len());
            } else if j == 18 {
                assert(ks[6].len() != ks[18].len());
            } else if j == 19 {
                assert(ks[6].len() != ks[19].len());
            } else if j == 20 {
                assert(ks[6].len() != ks[20].len());
            } else if j == 21 {
                assert(ks[6].len() != ks[21].len());
            }
        } else if i == 7 {
            assert(ks[7] == COMFY_ROOT_SETTING@);
            if j == 8 {
                assert(ks[7][6] == 'r' && ks[8][6] == 'p');
            } else if j == 9 {
                assert(ks[7].len() != ks[9].len());
            } else if j == 10 {
                assert(ks[7].len() != ks[10].len());
            } else if j == 11 {
                assert(ks[7].len() != ks[11].len());
            } else if j == 12 {
                assert(ks[7].len() != ks[12].len());
            } else if j == 13 {
                assert(ks[7].len() != ks[13].len());
            } else if j == 14 {
                assert(ks[7].len() != ks[14].len());
            } else if j == 15 {
                assert(ks[7].len() != ks[15].len());
            } else if j == 16 {
                assert(ks[7].len() != ks[16].len());
            } else if j == 17 {
                assert(ks[7].len() != ks[17].len());
            } else if j == 18 {
                assert(ks[7].len() != ks[18].len());
            } else if j == 19 {
                assert(ks[7].len() != ks[19].len());
            } else if j == 20 {
                assert(ks[7].len() != ks[20].len());
            } else if j == 21 {
                assert(ks[7].len() != ks[21].len());
            }
        } else if i == 8 {
            assert(ks[8] == COMFY_PORT_SETTING@);
            if j == 9 {
                assert(ks[8].len() != ks[9].len());
            } else if j == 10 {
                assert(ks[8].len() != ks[10].len());
            } else if j == 11 {
                assert(ks[8].len() != ks[11].len());
            } else if j == 12 {
                assert(ks[8].len() != ks[12].len());
            } else if j == 13 {
                assert(ks[8].len() != ks[13].len());
            } else if j == 14 {
                assert(ks[8].len() != ks[14].len());
            } else if j == 15 {
                assert(ks[8].len() != ks[15].len());
            } else if j == 16 {
                assert(ks[8].len() != ks[16].len());
            } else if j == 17 {
                assert(ks[8].len() != ks[17].len());
            } else if j == 18 {
                assert(ks[8].len() != ks[18].len());
            } else if j == 19 {
                assert(ks[8].len() != ks[19].len());
            } else if j == 20 {
                assert(ks[8].len() != ks[20].len());
            } else if j == 21 {
                assert(ks[8].len() != ks[21].len());
            }
        } else if i == 9 {
            assert(ks[9] == COMFY_LOW_VRAM_SETTING@);
            if j == 10 {
                assert(ks[9].len() != ks[10].len());
            } else if j == 11 {
                assert(ks[9].len() != ks[11].len());
            } else if j == 12 {
                assert(ks[9].len() != ks[12].len());
            } else if j == 13 {
                assert(ks[9].len() != ks[13].len());
            } else if j == 14 {
                assert(ks[9].len() != ks[14].len());
            } else if j == 15 {
                assert(ks[9].len() != ks[15].len());
            } else if j == 16 {
                assert(ks[9].len() != ks[16].len());
            } else if j == 17 {
                assert(ks[9].len() != ks[17].len());
            } else if j == 18 {
                assert(ks[9].len() != ks[18].len());
            } else if j == 19 {
                assert(ks[9].len() != ks[19].len());
            } else if j == 20 {
                assert(ks[9].len() != ks[20].len());
            } else if j == 21 {
                assert(ks[9].len() != ks[21].len());
            }
        } else if i == 10 {
            assert(ks[10] == COMFY_AUTO_START_SETTING@);
            if j == 11 {
                assert(ks[10][6] == 'a' && ks[11][6] == 'o');
            } else if j == 12 {
                assert(ks[10].len() != ks[12].len());
            } else if j == 13 {
                assert(ks[10].len() != ks[13].len());
            } else if j == 14 {
                assert(ks[10].len() != ks[14].len());
            } else if j == 15 {
                assert(ks[10].len() != ks[15].len());
            } else if j == 16 {
                assert(ks[10].len() != ks[16].len());
            } else if j == 17 {
                assert(ks[10].len() != ks[17].len());
            } else if j == 18 {
                assert(ks[10].len() != ks[18].len());
            } else if j == 19 {
                assert(ks[10].len() != ks[19].len());
            } else if j == 20 {
                assert(ks[10].len() != ks[20].len());
            } else if j == 21 {
                assert(ks[10].len() != ks[21].len());
            }
        } else if i == 11 {
            assert(ks[11] == COMFY_OUTPUT_DIR_SETTING@);
            if j == 12 {
                assert(ks[11].len() != ks[12].len());
            } else if j == 13 {
                assert(ks[11].len() != ks[13].len());
            } else if j == 14 {
                assert(ks[11].len() != ks[14].len());
            } else if j == 15 {
                assert(ks[11].len() != ks[15].len());
            } else if j == 16 {
                assert(ks[11].len() != ks[16].len());
            } else if j == 17 {
                assert(ks[11].len() != ks[17].len());
            } else if j == 18 {
                assert(ks[11].len() != ks[18].len());
            } else if j == 19 {
                assert(ks[11].len() != ks[19].len());
            } else if j == 20 {
                assert(ks[11].len() != ks[20].len());
            } else if j == 21 {
                assert(ks[11].len() != ks[21].len());
            }
        } else if i == 12 {
            assert(ks[12] == LORA_TRAINER_ROOT_SETTING@);
            if j == 13 {
                assert(ks[12].len() != ks[13].len());
            } else if j == 14 {
                assert(ks[12].len() != ks[14].len());
            } else if j == 15 {
                assert(ks[12].len() != ks[15].len());
            } else if j == 16 {
                assert(ks[12].len() != ks[16].len());
            } else if j == 17 {
                assert(ks[12].len() != ks[17].len());
            } else if j == 18 {
                assert(ks[12].len() != ks[18].len());
            } else if j == 19 {
                assert(ks[12].len() != ks[19].len());
            } else if j == 20 {
                assert(ks[12].len() != ks[20].len());
            } else if j == 21 {
                assert(ks[12].len() != ks[21].len());
            }
        } else if i == 13 {
            assert(ks[13] == LORA_TRAINER_PYTHON_SETTING@);
            if j == 14 {
                assert(ks[13].len() != ks[14].len());
            } else if j == 15 {
                assert(ks[13].len() != ks[15].len());
            } else if j == 16 {
                assert(ks[13].len() != ks[16].len());
            } else if j == 17 {
                assert(ks[13].len() != ks[17].len());
            } else if j == 18 {
                assert(ks[13].len() != ks[18].len());
            } else if j == 19 {
                assert(ks[13].len() != ks[19].len());
            } else if j == 20 {
                assert(ks[13].len() != ks[20].len());
            } else if j == 21 {
                assert(ks[13].len() != ks[21].len());
            }
        } else if i == 14 {
            assert(ks[14] == LORA_TRAINER_BASE_MODEL_SETTING@);
            if j == 15 {
                assert(ks[14][13] == 'b' && ks[15][13] == 'o');
            } else if j == 16 {
                assert(ks[14][0] == 'l' && ks[16][0] == 'w');
            } else if j == 17 {
                assert(ks[14].len() != ks[17].len());
            } else if j == 18 {
                assert(ks[14].len() != ks[18].len());
            } else if j == 19 {
                assert(ks[14].len() != ks[19].len());
            } else if j == 20 {
                assert(ks[14].len() != ks[20].len());
            } else if j == 21 {
                assert(ks[14].len() != ks[21].len());
            }
        } else if i == 15 {
            assert(ks[15] == LORA_TRAINER_OUTPUT_DIR_SETTING@);
            if j == 16 {
                assert(ks[15][0] == 'l' && ks[16][0] == 'w');
            } else if j == 17 {
                assert(ks[15].len() != ks[17].len());
            } else if j == 18 {
                assert(ks[15].len() != ks[18].len());
            } else if j == 19 {
                assert(ks[15].len() != ks[19].len());
            } else if j == 20 {
                assert(ks[15].len() != ks[20].len());
            } else if j == 21 {
                assert(ks[15].len() != ks[21].len());
            }
        } else if i == 16 {
            assert(ks[16] == CUDA_RUNTIME_DIR_SETTING@);
            if j == 17 {
                assert(ks[16].len() != ks[17].len());
            } else if j == 18 {
                assert(ks[16].len() != ks[18].len());
            } else if j == 19 {
                assert(ks[16].len() != ks[19].len());
            } else if j == 20 {
                assert(ks[16].len() != ks[20].len());
            } else if j == 21 {
                assert(ks[16].len() != ks[21].len());
            }
        } else if i == 17 {
            assert(ks[17] == RECOGNIZER_MODEL_SETTING@);
            if j == 18 {
                assert(ks[17].len() != ks[18].len());
            } else if j == 19 {
                assert(ks[17].len() != ks[19].len());
            } else if j == 20 {
                assert(ks[17].len() != ks[20].len());
            } else if j == 21 {
                assert(ks[17].len() != ks[21].len());
            }
        } else if i == 18 {
            assert(ks[18] == BACKGROUND_PRIORITY_SETTING@);
            if j == 19 {
                assert(ks[18].len() != ks[19].len());
            } else if j == 20 {
                assert(ks[18].len() != ks[20].len());
            } else if j == 21 {
                assert(ks[18].len() != ks[21].len());
            }
        } else if i == 19 {
            assert(ks[19] == REFERENCE_MATCHING_SETTING@);
            if j == 20 {
                assert(ks[19].len() != ks[20].len());
            } else if j == 21 {
                assert(ks[19].len() != ks[21].len());
            }
        } else if i == 20 {
            assert(ks[20] == REFERENCE_BACKEND_SETTING@);
            if j == 21 {
                assert(ks[20].len() != ks[21].len());
            }
        }
    }
}


/// The text `serde_json::to_string` writes for a string.
pub uninterp spec fn json_text_of(value: Seq<char>) -> Seq<char>;

/// The string `serde_json::from_str::<String>` reads from a text, where it
/// reads one.
pub uninterp spec fn json_string_of(value_json: Seq<char>) -> Option<Seq<char>>;

/// `serde_json::to_string` of a string: its JSON string literal, which
/// `serde_json::from_str::<String>` reads back as the same string.
/// Serialising a `&str` does not fail.
#[verifier::external_body]
pub fn encode_setting_value(value: &str) -> (r: String)
    ensures
        r@ == json_text_of(value@),
        json_string_of(r@) == Some(value@),
{
    serde_json::to_string(value).unwrap_or_default()
}

/// `serde_json::from_str::<String>`: the string a stored value holds. The
/// error text is serde_json's own message; what it says is not stated.
#[verifier::external_body]
pub fn decode_setting_value(value_json: &str) -> (r: Result<String, String>)
    ensures
        match r {
            Ok(t) => json_string_of(value_json@) == Some(t@),
            Err(_) => json_string_of(value_json@) is None,
        },
{
    serde_json::from_str::<String>(value_json).map_err(|error| error.to_string())
}

/// The stored JSON of the first row of the settings table with `key`.
pub open spec fn stored_json(table: Seq<(Seq<char>, Seq<char>)>, key: Seq<char>) -> Option<Seq<char>>
    decreases table.len(),
{
    if table.len() == 0 {
        None
    } else if table[0].0 == key {
        Some(table[0].1)
    } else {
        stored_json(table.drop_first(), key)
    }
}

/// Reading one setting: nothing when no row has the key, the string its
/// JSON holds, or a failure (`None`) when the JSON is not a string.
pub open spec fn read_setting(table: Seq<(Seq<char>, Seq<char>)>, key: Seq<char>) -> Option<Option<Seq<char>>> {
    match stored_json(table, key) {
        None => Some(None),
        Some(j) => match json_string_of(j) {
            Some(t) => Some(Some(t)),
            None => None,
        },
    }
}

/// The prefix of the message of a stored value that is not a JSON string.
pub open spec fn json_failure_prefix() -> Seq<char> {
    "无法序列化个人特征向量: "@
}

/// Read one setting from the rows (key, stored JSON) of the settings table.
pub fn setting_text(table: &Vec<(String, String)>, key: &str) -> (r: Result<Option<String>, String>)
    ensures
        match read_setting(pair_views(table@), key@) {
            Some(v) => r matches Ok(o) && opt_view(o) == v,
            None => r matches Err(m) && crate::text::is_prefix(json_failure_prefix(), m@),
        },
{
    let ghost pv = pair_views(table@);
    let mut i: usize = 0;
    assert(pv.subrange(0, pv.len() as int) =~= pv);
    while i < table.len()
        invariant
            i <= table@.len(),
            pv == pair_views(table@),
            pv.len() == table@.len(),
            stored_json(pv, key@) == stored_json(pv.subrange(i as int, pv.len() as int), key@),
        decreases table@.len() - i,
    {
        let ghost rest = pv.subrange(i as int, pv.len() as int);
        assert(rest[0] == pv[i as int]);
        assert(rest.drop_first() =~= pv.subrange(i + 1, pv.len() as int));
        if crate::text::str_eq(table[i].0.as_str(), key) {
            return match decode_setting_value(table[i].1.as_str()) {
                Ok(t) => Ok(Some(t)),
                Err(e) => {
                    let m = concat("无法序列化个人特征向量: ", e.as_str());
                    proof {
                        reveal_strlit("无法序列化个人特征向量: ");
                        assert(m@.subrange(0, json_failure_prefix().len() as int) =~= json_failure_prefix());
                    }
                    Err(m)
                },
            };
        }
        i = i + 1;
    }
    assert(pv.subrange(pv.len() as int, pv.len() as int) =~= Seq::<(Seq<char>, Seq<char>)>::empty());
    Ok(None)
}

proof fn lemma_stored_json_at(t: Seq<(Seq<char>, Seq<char>)>, key: Seq<char>, i: int)
    requires
        0 <= i < t.len(),
        t[i].0 == key,
        forall|j: int| 0 <= j < i ==> (#[trigger] t[j]).0 != key,
    ensures
        stored_json(t, key) == Some(t[i].1),
    decreases i,
{
    if i > 0 {
        assert forall|j: int| 0 <= j < i - 1 implies (#[trigger] t.drop_first()[j]).0 != key by {
            assert(t.drop_first()[j] == t[j + 1]);
        }
        lemma_stored_json_at(t.drop_first(), key, i - 1);
    }
}

/// The rows a save writes into the settings table: each key with the JSON
/// of its text.
pub open spec fn table_rows(s: SettingsView) -> Seq<(Seq<char>, Seq<char>)> {
    Seq::new(22, |i: int| (stored_texts(s)[i].0, json_text_of(stored_texts(s)[i].1)))
}

/// The rows to write for a settings change, and what they read back as:
/// every setting key reads, from the written rows, as exactly the text
/// saved for it.
pub fn setting_table_rows(settings: AppSettings) -> (r: Result<Vec<(String, String)>, String>)
    ensures
        match validated_spec(settings@) {
            Ok(t) => r matches Ok(rows) && pair_views(rows@) == table_rows(t) && (forall|i: int|
                0 <= i < 22 ==> read_setting(pair_views(rows@), #[trigger] stored_texts(t)[i].0) == Some(
                    Some(stored_texts(t)[i].1),
                )),
            Err(m) => r matches Err(e) && e@ == m,
        },
{
    let entries = match settings_entries(settings) {
        Ok(es) => es,
        Err(e) => return Err(e),
    };
    let ghost t = validated_spec(settings@)->Ok_0;
    proof { lemma_setting_keys(t); }
    let mut rows: Vec<(String, String)> = Vec::new();
    let mut i: usize = 0;
    while i < entries.len()
        invariant
            i <= entries@.len(),
            pair_views(entries@) == stored_texts(t),
            stored_texts(t).len() == 22,
            rows@.len() == i,
            forall|k: int| 0 <= k < i ==> (#[trigger] rows@[k]).0@ == stored_texts(t)[k].0
                && rows@[k].1@ == json_text_of(stored_texts(t)[k].1)
                && json_string_of(rows@[k].1@) == Some(stored_texts(t)[k].1),
        decreases entries@.len() - i,
    {
        assert(pair_views(entries@)[i as int] == (entries@[i as int].0@, entries@[i as int].1@));
        let value = encode_setting_value(entries[i].1.as_str());
        rows.push((entries[i].0.clone(), value));
        i = i + 1;
    }
    let ghost pv = pair_views(rows@);
    assert(pv =~= table_rows(t));
    proof {
        lemma_setting_keys(t);
        assert forall|i: int| 0 <= i < 22 implies read_setting(pv, #[trigger] stored_texts(t)[i].0) == Some(
            Some(stored_texts(t)[i].1),
        ) by {
            assert forall|j: int| 0 <= j < i implies (#[trigger] pv[j]).0 != stored_texts(t)[i].0 by {
                assert(pv[j].0 == setting_keys()[j]);
            }
            lemma_stored_json_at(pv, stored_texts(t)[i].0, i);
        }
    }
    Ok(rows)
}

} // verus!
