//! Library browsing: preview eligibility, scan bookkeeping and batch moves.
//!
//! The shell enumerates folders, talks to the recognition worker and moves
//! files; this module decides what each of those steps reports.
use vstd::prelude::*;
use crate::ipc::{core_error, failure, success, IpcEnvelope, IpcError};
use crate::paths::{extension, extension_of, file_name, file_name_of, file_stem, file_stem_of, join, join_path};
use crate::text::{
    concat, decimal, decimal_string, from_chars, lower_ascii, lower_chars, owned, to_chars, trim,
    trim_chars, trim_str,
};

verus! {

#[derive(Debug, Clone)]
pub struct LibrarySelection {
    pub path: String,
    pub display_name: String,
}

#[derive(Debug, Clone)]
pub struct ScanProgress {
    pub phase: String,
    pub current: usize,
    pub total: usize,
    pub path: String,
    pub message: String,
}

#[derive(Debug, Clone)]
pub struct ScanError {
    pub path: String,
    pub code: String,
    pub message: String,
    pub detail: Option<String>,
}

#[derive(Debug, Clone)]
pub struct MovedFileItem {
    pub source: String,
    pub destination: String,
}

#[derive(Debug, Clone)]
pub struct MoveFileErrorItem {
    pub source: String,
    pub error: String,
}

#[derive(Debug, Clone)]
pub struct BatchMoveResult {
    pub success_count: usize,
    pub failed_count: usize,
    pub moved: Vec<MovedFileItem>,
    pub errors: Vec<MoveFileErrorItem>,
}

#[derive(Debug, Clone)]
pub struct ScanCancellation {
    pub requested: bool,
    pub running: bool,
    pub message: String,
}

#[derive(Debug, Clone)]
pub struct UpdateInfo {
    pub status: String,
    pub current_version: String,
    pub version: Option<String>,
    pub date: Option<String>,
    pub body: Option<String>,
    pub message: String,
}

#[derive(Debug, Clone)]
pub struct UpdateProgress {
    pub phase: String,
    pub downloaded: u64,
    pub total: Option<u64>,
    pub percent: Option<u64>,
    pub message: String,
}

/// The image formats the desktop preview can show.
pub open spec fn preview_extensions() -> Seq<Seq<char>> {
    seq!["png"@, "jpg"@, "jpeg"@, "webp"@, "gif"@]
}

/// The last path component, or the empty text where there is none.
pub open spec fn display_name_spec(path: Seq<char>) -> Seq<char> {
    match file_name(path) {
        Some(name) => name,
        None => Seq::empty(),
    }
}

/// Whether the extension, compared without regard to ASCII case, is one of
/// the preview formats.
pub open spec fn is_preview_image(path: Seq<char>) -> bool {
    match extension(path) {
        Some(ext) => preview_extensions().contains(lower_ascii(ext)),
        None => false,
    }
}

/// The name shown for a selected file or folder: its last path component.
pub fn display_name_for_path(path: &str) -> (r: String)
    ensures
        r@ == display_name_spec(path@),
{
    match file_name_of(path) {
        Some(name) => name,
        None => String::new(),
    }
}

fn is_preview_extension(ext: &[char]) -> (b: bool)
    ensures
        b == preview_extensions().contains(ext@),
{
    let png = to_chars("png");
    let jpg = to_chars("jpg");
    let jpeg = to_chars("jpeg");
    let webp = to_chars("webp");
    let gif = to_chars("gif");
    proof {
        reveal_strlit("png");
        reveal_strlit("jpg");
        reveal_strlit("jpeg");
        reveal_strlit("webp");
        reveal_strlit("gif");
    }
    let b = crate::text::chars_eq(ext, png.as_slice()) || crate::text::chars_eq(ext, jpg.as_slice())
        || crate::text::chars_eq(ext, jpeg.as_slice()) || crate::text::chars_eq(
        ext,
        webp.as_slice(),
    ) || crate::text::chars_eq(ext, gif.as_slice());
    proof {
        let s = preview_extensions();
        if b {
            if ext@ == png@ {
                assert(s[0] == ext@);
            } else if ext@ == jpg@ {
                assert(s[1] == ext@);
            } else if ext@ == jpeg@ {
                assert(s[2] == ext@);
            } else if ext@ == webp@ {
                assert(s[3] == ext@);
            } else {
                assert(s[4] == ext@);
            }
        } else {
            assert forall|i: int| 0 <= i < s.len() implies s[i] != ext@ by {}
        }
    }
    b
}

/// Whether the file can be shown by the preview (PNG, JPG, JPEG, WEBP, GIF in
/// any letter case).
pub fn is_supported_preview_image(path: &str) -> (b: bool)
    ensures
        b == is_preview_image(path@),
{
    match extension_of(path) {
        Some(ext) => {
            let v = to_chars(ext.as_str());
            let lower = lower_chars(v.as_slice());
            is_preview_extension(lower.as_slice())
        },
        None => false,
    }
}


/// `None` and `Some(0)` mean "no upper bound"; any other limit is kept.
pub fn clamp_scan_limit(limit: Option<u32>) -> (r: Option<usize>)
    ensures
        match limit {
            None => r is None,
            Some(v) => if v == 0 { r is None } else { r == Some(v as usize) },
        },
{
    match limit {
        None => None,
        Some(v) => if v == 0 {
            None
        } else {
            Some(v as usize)
        },
    }
}

/// The number of images a folder holds: the worker's `total_count` where it
/// reports one that fits in `usize`, else the number of records it sent.
pub fn total_discovered_from_count(total_count: Option<u64>, image_count: usize) -> (r: usize)
    ensures
        match total_count {
            Some(c) => if c <= usize::MAX { r == c } else { r == image_count },
            None => r == image_count,
        },
{
    match total_count {
        Some(c) => if c <= usize::MAX as u64 {
            c as usize
        } else {
            image_count
        },
        None => image_count,
    }
}

/// How many images a scan will visit: all that were found, or the limit.
pub fn scan_total(total_discovered: usize, limit: Option<usize>) -> (r: usize)
    ensures
        match limit {
            Some(l) => r == if total_discovered <= l { total_discovered } else { l },
            None => r == total_discovered,
        },
{
    match limit {
        Some(l) => if total_discovered <= l {
            total_discovered
        } else {
            l
        },
        None => total_discovered,
    }
}

/// What the recognition worker answered when a request failed.
#[derive(Debug, Clone)]
pub enum WorkerFailure {
    /// The worker ran and refused the request with its own code.
    Response { code: String, message: String },
    /// Any other failure (transport, protocol, timeout), with its text.
    Other { detail: String },
}

/// A worker refusal keeps its code and message; any other failure becomes
/// `RECOGNITION_FAILED` with the failure text as detail.
pub fn scan_error_from_worker(path: &str, error: WorkerFailure) -> (r: ScanError)
    ensures
        r.path@ == path@,
        match error {
            WorkerFailure::Response { code, message } => r.code == code && r.message == message
                && r.detail is None,
            WorkerFailure::Other { detail } => r.code@ == "RECOGNITION_FAILED"@ && r.message@
                == "图片识别失败，已跳过此文件。"@ && r.detail == Some(detail),
        },
{
    match error {
        WorkerFailure::Response { code, message } => ScanError {
            path: owned(path),
            code,
            message,
            detail: None,
        },
        WorkerFailure::Other { detail } => ScanError {
            path: owned(path),
            code: owned("RECOGNITION_FAILED"),
            message: owned("图片识别失败，已跳过此文件。"),
            detail: Some(detail),
        },
    }
}

/// An image the worker could not read while listing a folder; a missing path
/// is reported as empty and a missing message as a generic one.
pub fn enumeration_error(path: Option<String>, message: Option<String>) -> (r: ScanError)
    ensures
        r.path@ == (match path {
            Some(p) => p@,
            None => Seq::empty(),
        }),
        r.message@ == (match message {
            Some(m) => m@,
            None => "无法读取图片"@,
        }),
        r.code@ == "ENUMERATE_IMAGE_FAILED"@,
        r.detail is None,
{
    ScanError {
        path: match path {
            Some(p) => p,
            None => String::new(),
        },
        code: owned("ENUMERATE_IMAGE_FAILED"),
        message: match message {
            Some(m) => m,
            None => owned("无法读取图片"),
        },
        detail: None,
    }
}

/// The error recorded for an image record that carries no path.
pub fn invalid_image_record() -> (r: ScanError)
    ensures
        r.path@.len() == 0,
        r.code@ == "INVALID_IMAGE_RECORD"@,
        r.message@ == "Worker 返回的图片记录缺少 path。"@,
        r.detail is None,
{
    ScanError {
        path: String::new(),
        code: owned("INVALID_IMAGE_RECORD"),
        message: owned("Worker 返回的图片记录缺少 path。"),
        detail: None,
    }
}

/// The answer to a cancel request: it is always recorded; whether a scan was
/// running decides the message.
pub fn scan_cancellation(running: bool) -> (r: ScanCancellation)
    ensures
        r.requested,
        r.running == running,
        r.message@ == if running {
            "已请求取消扫描，当前图片处理完成后停止。"@
        } else {
            "当前没有正在运行的扫描任务。"@
        },
{
    ScanCancellation {
        requested: true,
        running,
        message: if running {
            owned("已请求取消扫描，当前图片处理完成后停止。")
        } else {
            owned("当前没有正在运行的扫描任务。")
        },
    }
}


/// Where the personal-model part of a recognition request comes from.
#[derive(Debug, Clone, Copy, PartialEq, Eq)]
pub enum PersonalContextSource {
    /// The base model alone: no personal prototypes at all.
    BaseOnly,
    /// The stored artifact of the requested model version.
    Version(i64),
    /// The artifact of the activated personal model.
    Active,
    /// The verified prototypes collected so far, without a trained model.
    LivePrototypes,
}

/// The label shown for each personal-model choice.
pub open spec fn personal_model_name(source: PersonalContextSource) -> Seq<char> {
    match source {
        PersonalContextSource::BaseOnly => "基础通用模型"@,
        PersonalContextSource::Version(v) => "个人模型 v"@ + decimal(v as nat),
        PersonalContextSource::Active => "个人模型 (已激活)"@,
        PersonalContextSource::LivePrototypes => "基础模型 (包含学习样本)"@,
    }
}

/// Version 0 asks for the base model; a positive version is used when its
/// artifact exists; otherwise the activated model, and failing that the live
/// prototypes. `version_artifact_found` and `active_found` are what the
/// database answered.
pub open spec fn personal_source_spec(
    model_version: Option<i64>,
    version_artifact_found: bool,
    active_found: bool,
) -> PersonalContextSource {
    if model_version == Some(0i64) {
        PersonalContextSource::BaseOnly
    } else if model_version matches Some(v) && v > 0 && version_artifact_found {
        PersonalContextSource::Version(model_version->0)
    } else if active_found {
        PersonalContextSource::Active
    } else {
        PersonalContextSource::LivePrototypes
    }
}

/// Choose the personal-model context of a scan and its label.
pub fn personal_scan_context(
    model_version: Option<i64>,
    version_artifact_found: bool,
    active_found: bool,
) -> (r: (PersonalContextSource, String))
    ensures
        r.0 == personal_source_spec(model_version, version_artifact_found, active_found),
        r.1@ == personal_model_name(r.0),
{
    let source = match model_version {
        Some(v) => if v == 0 {
            PersonalContextSource::BaseOnly
        } else if v > 0 && version_artifact_found {
            PersonalContextSource::Version(v)
        } else if active_found {
            PersonalContextSource::Active
        } else {
            PersonalContextSource::LivePrototypes
        },
        None => if active_found {
            PersonalContextSource::Active
        } else {
            PersonalContextSource::LivePrototypes
        },
    };
    let name = match source {
        PersonalContextSource::BaseOnly => owned("基础通用模型"),
        PersonalContextSource::Version(v) => {
            let digits = decimal_string(v as u64);
            concat("个人模型 v", digits.as_str())
        },
        PersonalContextSource::Active => owned("个人模型 (已激活)"),
        PersonalContextSource::LivePrototypes => owned("基础模型 (包含学习样本)"),
    };
    (source, name)
}

/// The error recorded when the personal model could not be read; the scan
/// then goes on with the base model.
pub fn personal_model_read_failure(directory: &str, detail: String) -> (r: ScanError)
    ensures
        r.path@ == directory@,
        r.code@ == "PERSONAL_MODEL_READ_FAILED"@,
        r.message@ == "读取个人分类特征失败，已跳过个人融合。"@,
        r.detail == Some(detail),
{
    ScanError {
        path: owned(directory),
        code: owned("PERSONAL_MODEL_READ_FAILED"),
        message: owned("读取个人分类特征失败，已跳过个人融合。"),
        detail: Some(detail),
    }
}

/// The error recorded when the database was busy; the scan then goes on
/// with the base model.
pub fn database_busy_failure(directory: &str) -> (r: ScanError)
    ensures
        r.path@ == directory@,
        r.code@ == "DATABASE_LOCK_FAILED"@,
        r.message@ == "本地数据库暂时被占用，已跳过个人融合。"@,
        r.detail is None,
{
    ScanError {
        path: owned(directory),
        code: owned("DATABASE_LOCK_FAILED"),
        message: owned("本地数据库暂时被占用，已跳过个人融合。"),
        detail: None,
    }
}

/// What one recognition request asks of the worker.
#[derive(Debug, Clone)]
pub struct RecognitionRequest {
    pub path: String,
    pub top_k: u32,
    /// The recognizer model chosen in the settings, trimmed; `None` keeps
    /// the worker's default.
    pub recognizer: Option<String>,
    pub reference_library_path: Option<String>,
    pub personal: PersonalContextSource,
}

/// Build the request for one image: the five best candidates, the trimmed
/// recognizer preference unless blank, and the reference library if any.
pub fn recognition_request(
    path: String,
    recognizer_model: &str,
    reference_library_path: Option<String>,
    personal: PersonalContextSource,
) -> (r: RecognitionRequest)
    ensures
        r.path == path,
        r.top_k == 5,
        r.recognizer is Some <==> trim(recognizer_model@).len() > 0,
        r.recognizer matches Some(m) ==> m@ == trim(recognizer_model@),
        r.reference_library_path == reference_library_path,
        r.personal == personal,
{
    let recognizer = if crate::text::is_blank(recognizer_model) {
        None
    } else {
        Some(trim_str(recognizer_model))
    };
    RecognitionRequest { path, top_k: 5, recognizer, reference_library_path, personal }
}

/// What a scan does with one record of the folder listing.
#[derive(Debug, Clone, Copy, PartialEq, Eq)]
pub enum ImageAction {
    /// The record has no path: it is counted as an error.
    InvalidRecord,
    /// The image already carries manual annotations and the user asked to
    /// skip such images.
    SkipAnnotated,
    /// The image goes to the recognizer.
    Recognize,
}

pub fn plan_image(has_path: bool, skip_annotated: bool, is_annotated: bool) -> (r: ImageAction)
    ensures
        !has_path ==> r == ImageAction::InvalidRecord,
        has_path && skip_annotated && is_annotated ==> r == ImageAction::SkipAnnotated,
        has_path && !(skip_annotated && is_annotated) ==> r == ImageAction::Recognize,
{
    if !has_path {
        ImageAction::InvalidRecord
    } else if skip_annotated && is_annotated {
        ImageAction::SkipAnnotated
    } else {
        ImageAction::Recognize
    }
}

/// The stages a scan reports for one image.
#[derive(Debug, Clone, Copy, PartialEq, Eq)]
pub enum ImageStage {
    Paused,
    Resumed,
    Recognizing,
    InvalidRecord,
    SkippedAnnotated { loaded: bool },
    Recognized,
    Failed,
}

pub open spec fn stage_phase(stage: ImageStage) -> Seq<char> {
    match stage {
        ImageStage::Paused => "paused"@,
        ImageStage::Resumed => "running"@,
        ImageStage::Recognizing => "recognizing"@,
        ImageStage::InvalidRecord => "error"@,
        ImageStage::SkippedAnnotated { .. } => "completed"@,
        ImageStage::Recognized => "completed"@,
        ImageStage::Failed => "error"@,
    }
}

pub open spec fn stage_message(stage: ImageStage) -> Seq<char> {
    match stage {
        ImageStage::Paused => "扫描已暂停，等待继续或终止。"@,
        ImageStage::Resumed => "扫描已继续。"@,
        ImageStage::Recognizing => "正在识别图片…"@,
        ImageStage::InvalidRecord => "图片记录无效，已跳过。"@,
        ImageStage::SkippedAnnotated { loaded } => if loaded {
            "已跳过已标注图片（已直接载入人工标注）。"@
        } else {
            "已跳过已标注图片。"@
        },
        ImageStage::Recognized => "图片识别完成。"@,
        ImageStage::Failed => "图片识别失败，已继续处理。"@,
    }
}

/// The progress event of one stage; an invalid record reports no path.
pub fn image_progress(stage: ImageStage, current: usize, total: usize, path: &str) -> (r:
    ScanProgress)
    ensures
        r.phase@ == stage_phase(stage),
        r.message@ == stage_message(stage),
        r.current == current,
        r.total == total,
        r.path@ == if stage == ImageStage::InvalidRecord {
            Seq::<char>::empty()
        } else {
            path@
        },
{
    let phase = match stage {
        ImageStage::Paused => owned("paused"),
        ImageStage::Resumed => owned("running"),
        ImageStage::Recognizing => owned("recognizing"),
        ImageStage::InvalidRecord => owned("error"),
        ImageStage::SkippedAnnotated { .. } => owned("completed"),
        ImageStage::Recognized => owned("completed"),
        ImageStage::Failed => owned("error"),
    };
    let message = match stage {
        ImageStage::Paused => owned("扫描已暂停，等待继续或终止。"),
        ImageStage::Resumed => owned("扫描已继续。"),
        ImageStage::Recognizing => owned("正在识别图片…"),
        ImageStage::InvalidRecord => owned("图片记录无效，已跳过。"),
        ImageStage::SkippedAnnotated { loaded } => if loaded {
            owned("已跳过已标注图片（已直接载入人工标注）。")
        } else {
            owned("已跳过已标注图片。")
        },
        ImageStage::Recognized => owned("图片识别完成。"),
        ImageStage::Failed => owned("图片识别失败，已继续处理。"),
    };
    let shown = match stage {
        ImageStage::InvalidRecord => String::new(),
        _ => owned(path),
    };
    ScanProgress { phase, current, total, path: shown, message }
}

/// The closing event of a scan. It counts as cancelled only when a cancel
/// was requested before every image was processed.
pub fn scan_completion(cancel_requested: bool, processed: usize, total: usize, directory: &str) -> (r:
    (bool, ScanProgress))
    ensures
        r.0 == (cancel_requested && processed < total),
        r.1.phase@ == if r.0 { "cancelled"@ } else { "complete"@ },
        r.1.message@ == if r.0 {
            "已取消扫描，已完成的识别结果仍会保留。"@
        } else {
            "扫描与识别完成。"@
        },
        r.1.current == processed,
        r.1.total == total,
        r.1.path@ == directory@,
{
    let cancelled = cancel_requested && processed < total;
    let progress = ScanProgress {
        phase: if cancelled {
            owned("cancelled")
        } else {
            owned("complete")
        },
        current: processed,
        total,
        path: owned(directory),
        message: if cancelled {
            owned("已取消扫描，已完成的识别结果仍会保留。")
        } else {
            owned("扫描与识别完成。")
        },
    };
    (cancelled, progress)
}


/// Characters that cannot stand in a folder name on Windows.
pub open spec fn is_forbidden_name_char(c: char) -> bool {
    c == '\\' || c == '/' || c == ':' || c == '*' || c == '?' || c == '"' || c == '<' || c
        == '>' || c == '|'
}

/// The text with every forbidden character removed.
pub open spec fn without_forbidden(s: Seq<char>) -> Seq<char>
    decreases s.len(),
{
    if s.len() == 0 {
        s
    } else if is_forbidden_name_char(s.last()) {
        without_forbidden(s.drop_last())
    } else {
        without_forbidden(s.drop_last()).push(s.last())
    }
}

/// A category name made safe as a folder name: forbidden characters
/// dropped, then trimmed.
pub open spec fn clean_subfolder_spec(sub: Seq<char>) -> Seq<char> {
    trim(without_forbidden(sub))
}

pub fn clean_subfolder(sub: &str) -> (r: String)
    ensures
        r@ == clean_subfolder_spec(sub@),
{
    let v = to_chars(sub);
    let mut out: Vec<char> = Vec::new();
    let mut i: usize = 0;
    while i < v.len()
        invariant
            i <= v@.len(),
            out@ == without_forbidden(v@.subrange(0, i as int)),
        decreases v@.len() - i,
    {
        let c = v[i];
        assert(v@.subrange(0, i + 1).drop_last() =~= v@.subrange(0, i as int));
        if !(c == '\\' || c == '/' || c == ':' || c == '*' || c == '?' || c == '"' || c == '<'
            || c == '>' || c == '|') {
            out.push(c);
        }
        i = i + 1;
    }
    assert(v@.subrange(0, v@.len() as int) =~= v@);
    let t = trim_chars(out.as_slice());
    from_chars(t.as_slice())
}

/// The folder files are moved into: the destination itself, or the cleaned
/// category folder under it when one is given and something is left of it.
pub open spec fn move_target_spec(dest_base: Seq<char>, sub: Option<Seq<char>>) -> Seq<char> {
    match sub {
        Some(s) => if trim(s).len() > 0 && clean_subfolder_spec(s).len() > 0 {
            join(dest_base, clean_subfolder_spec(s))
        } else {
            dest_base
        },
        None => dest_base,
    }
}

pub fn move_target_dir(dest_base: &str, subfolder: Option<String>) -> (r: String)
    ensures
        r@ == move_target_spec(dest_base@, match subfolder {
            Some(s) => Some(s@),
            None => None,
        }),
{
    match subfolder {
        Some(sub) => {
            if crate::text::is_blank(sub.as_str()) {
                owned(dest_base)
            } else {
                let clean = clean_subfolder(sub.as_str());
                if crate::text::is_blank(clean.as_str()) {
                    proof {
                        crate::text::lemma_trim_idempotent(without_forbidden(sub@));
                    }
                    owned(dest_base)
                } else {
                    proof {
                        crate::text::lemma_trim_idempotent(without_forbidden(sub@));
                    }
                    join_path(dest_base, clean.as_str())
                }
            }
        },
        None => owned(dest_base),
    }
}

/// The name tried when a file of the same name already exists:
/// `stem_n.ext`, or `stem_n` when there is no extension.
pub open spec fn numbered_name_spec(stem: Seq<char>, counter: nat, ext: Seq<char>) -> Seq<char> {
    if ext.len() == 0 {
        stem + "_"@ + decimal(counter)
    } else {
        stem + "_"@ + decimal(counter) + "."@ + ext
    }
}

pub fn numbered_file_name(stem: &str, counter: u64, ext: &str) -> (r: String)
    ensures
        r@ == numbered_name_spec(stem@, counter as nat, ext@),
{
    let digits = decimal_string(counter);
    let head = concat(stem, "_");
    let numbered = concat(head.as_str(), digits.as_str());
    let ext_chars = to_chars(ext);
    if ext_chars.len() == 0 {
        numbered
    } else {
        let dotted = concat(numbered.as_str(), ".");
        concat(dotted.as_str(), ext)
    }
}

/// The stem and extension a renamed copy keeps; `file` and no extension where
/// the source has none.
pub fn collision_parts(source: &str) -> (r: (String, String))
    ensures
        r.0@ == (match file_stem(source@) {
            Some(s) => s,
            None => "file"@,
        }),
        r.1@ == (match extension(source@) {
            Some(e) => e,
            None => Seq::<char>::empty(),
        }),
{
    let stem = match file_stem_of(source) {
        Some(s) => s,
        None => owned("file"),
    };
    let ext = match extension_of(source) {
        Some(e) => e,
        None => String::new(),
    };
    (stem, ext)
}

/// The reason recorded for a source that is missing or not a plain file.
pub fn missing_source_error(source: String) -> (r: MoveFileErrorItem)
    ensures
        r.source == source,
        r.error@ == "源文件不存在或不是普通文件。"@,
{
    MoveFileErrorItem { source, error: owned("源文件不存在或不是普通文件。") }
}

/// The reason recorded for a source whose name cannot be taken.
pub fn unnamed_source_error(source: String) -> (r: MoveFileErrorItem)
    ensures
        r.source == source,
        r.error@ == "无法获取源文件名。"@,
{
    MoveFileErrorItem { source, error: owned("无法获取源文件名。") }
}

/// The reason recorded when the file system refused the move.
pub fn move_failed_error(source: String, detail: &str) -> (r: MoveFileErrorItem)
    ensures
        r.source == source,
        r.error@ == "移动文件失败: "@ + detail@,
{
    MoveFileErrorItem { source, error: concat("移动文件失败: ", detail) }
}

/// The summary of a batch move: its counts are those of the two lists.
pub fn batch_move_result(moved: Vec<MovedFileItem>, errors: Vec<MoveFileErrorItem>) -> (r:
    BatchMoveResult)
    ensures
        r.success_count == moved.len(),
        r.failed_count == errors.len(),
        r.moved == moved,
        r.errors == errors,
{
    BatchMoveResult { success_count: moved.len(), failed_count: errors.len(), moved, errors }
}

/// What the shell found of a path the user chose, step by step; a step is
/// only taken when the ones before it passed.
#[derive(Debug, Clone)]
pub struct ChosenPath {
    /// The first check: the path is absolute (and, for a folder, names one).
    pub accepted: bool,
    /// The canonical path in the user's spelling (verbatim prefix removed)
    /// and whether it has the wanted kind, or why it could not be resolved.
    pub canonical: Option<Result<(String, bool), String>>,
    /// Granting the preview scope to the canonical path.
    pub scope: Option<Result<(), String>>,
}

/// The steps were taken in order: each answer is present exactly when the
/// steps before it passed.
pub open spec fn steps_taken(c: ChosenPath, format_ok: spec_fn(Seq<char>) -> bool) -> bool {
    &&& c.accepted ==> c.canonical is Some
    &&& (c.canonical matches Some(Ok((p, true))) && format_ok(p@)) ==> c.scope is Some
}

/// A refusal: code, message, detail and whether a retry may help.
pub open spec fn refusal(e: IpcError, code: Seq<char>, message: Seq<char>, detail: Option<Seq<char>>, retryable: bool) -> bool {
    &&& e.code@ == code
    &&& e.message@ == message
    &&& (match detail {
        Some(d) => e.detail matches Some(t) && t@ == d,
        None => e.detail is None,
    })
    &&& e.retryable == retryable
}

pub open spec fn selection_of(r: IpcEnvelope<LibrarySelection>, path: Seq<char>) -> bool {
    &&& r.error is None
    &&& r.payload matches Some(sel) && sel.path@ == crate::path_utils::strip_verbatim(path)
        && sel.display_name@ == display_name_spec(path)
}

pub open spec fn refused_with(
    r: IpcEnvelope<LibrarySelection>,
    code: Seq<char>,
    message: Seq<char>,
    detail: Option<Seq<char>>,
    retryable: bool,
) -> bool {
    &&& r.payload is None
    &&& r.error matches Some(e) && refusal(e, code, message, detail, retryable)
}

pub open spec fn any_format() -> spec_fn(Seq<char>) -> bool {
    |p: Seq<char>| true
}

pub open spec fn preview_format() -> spec_fn(Seq<char>) -> bool {
    |p: Seq<char>| is_preview_image(p)
}

fn selection_reply(message_type: &str, request_id: String, path: &str) -> (r: IpcEnvelope<LibrarySelection>)
    ensures
        selection_of(r, path@),
        r.request_id == request_id,
        r.message_type@ == message_type@,
{
    success(
        message_type,
        request_id,
        LibrarySelection { path: crate::path_utils::display_path(path), display_name: display_name_for_path(path) },
    )
}

fn refusal_reply(
    message_type: &str,
    request_id: String,
    code: &str,
    message: &str,
    detail: Option<String>,
    retryable: bool,
) -> (r: IpcEnvelope<LibrarySelection>)
    ensures
        r.payload is None,
        r.error matches Some(e) && e.code@ == code@ && e.message@ == message@ && e.detail == detail
            && e.retryable == retryable,
        r.request_id == request_id,
        r.message_type@ == message_type@,
{
    let e = core_error(request_id.as_str(), code, message, detail, retryable);
    failure(message_type, request_id, e)
}

/// The answer to choosing a library folder: it must be an absolute path to
/// an existing folder whose canonical form is a folder and can be granted
/// to the preview; the reply names it in the user's spelling.
pub fn library_selection(request_id: String, chosen: ChosenPath) -> (r: IpcEnvelope<LibrarySelection>)
    requires
        steps_taken(chosen, any_format()),
    ensures
        r.request_id == request_id,
        r.message_type@ == "library.select"@,
        !chosen.accepted ==> refused_with(r, "INVALID_LIBRARY_DIRECTORY"@, "请选择一个存在的本地文件夹。"@, Some("path must be an absolute directory"@), false),
        chosen.accepted ==> match chosen.canonical {
            Some(Err(e)) => refused_with(r, "INVALID_LIBRARY_DIRECTORY"@, "无法访问选择的图片文件夹。"@, Some(e@), false),
            Some(Ok((dir, is_dir))) => if !is_dir {
                refused_with(r, "INVALID_LIBRARY_DIRECTORY"@, "选择的路径不是文件夹。"@, None, false)
            } else {
                match chosen.scope {
                    Some(Err(d)) => refused_with(r, "ASSET_SCOPE_FAILED"@, "无法授权预览所选图片文件夹。"@, Some(d@), true),
                    _ => selection_of(r, dir@),
                }
            },
            None => true,
        },
{
    let kind = "library.select";
    if !chosen.accepted {
        return refusal_reply(kind, request_id, "INVALID_LIBRARY_DIRECTORY", "请选择一个存在的本地文件夹。", Some(owned("path must be an absolute directory")), false);
    }
    match chosen.canonical {
        Some(Err(e)) => refusal_reply(kind, request_id, "INVALID_LIBRARY_DIRECTORY", "无法访问选择的图片文件夹。", Some(e), false),
        Some(Ok((dir, is_dir))) => if !is_dir {
            refusal_reply(kind, request_id, "INVALID_LIBRARY_DIRECTORY", "选择的路径不是文件夹。", None, false)
        } else {
            match chosen.scope {
                Some(Err(d)) => refusal_reply(kind, request_id, "ASSET_SCOPE_FAILED", "无法授权预览所选图片文件夹。", Some(d), true),
                _ => selection_reply(kind, request_id, dir.as_str()),
            }
        },
        None => selection_reply(kind, request_id, ""),
    }
}

/// The answer to choosing one image to preview: an absolute path whose
/// canonical form is a plain file of a preview format that can be granted
/// to the preview.
pub fn preview_file_selection(request_id: String, chosen: ChosenPath) -> (r: IpcEnvelope<LibrarySelection>)
    requires
        steps_taken(chosen, preview_format()),
    ensures
        r.request_id == request_id,
        r.message_type@ == "library.preview.file"@,
        !chosen.accepted ==> refused_with(r, "INVALID_PREVIEW_FILE"@, "预览文件路径必须是绝对路径。"@, None, false),
        chosen.accepted ==> match chosen.canonical {
            Some(Err(e)) => refused_with(r, "INVALID_PREVIEW_FILE"@, "无法访问选择的图片文件。"@, Some(e@), false),
            Some(Ok((file, is_file))) => if !is_file {
                refused_with(r, "INVALID_PREVIEW_FILE"@, "请选择一个普通图片文件。"@, None, false)
            } else if !is_preview_image(file@) {
                refused_with(r, "UNSUPPORTED_PREVIEW_FORMAT"@, "当前仅支持 PNG、JPG、JPEG、WEBP 和 GIF 图片预览。"@, None, false)
            } else {
                match chosen.scope {
                    Some(Err(d)) => refused_with(r, "ASSET_SCOPE_FAILED"@, "无法授权预览所选图片文件。"@, Some(d@), true),
                    _ => selection_of(r, file@),
                }
            },
            None => true,
        },
{
    let kind = "library.preview.file";
    if !chosen.accepted {
        return refusal_reply(kind, request_id, "INVALID_PREVIEW_FILE", "预览文件路径必须是绝对路径。", None, false);
    }
    match chosen.canonical {
        Some(Err(e)) => refusal_reply(kind, request_id, "INVALID_PREVIEW_FILE", "无法访问选择的图片文件。", Some(e), false),
        Some(Ok((file, is_file))) => if !is_file {
            refusal_reply(kind, request_id, "INVALID_PREVIEW_FILE", "请选择一个普通图片文件。", None, false)
        } else if !is_supported_preview_image(file.as_str()) {
            refusal_reply(kind, request_id, "UNSUPPORTED_PREVIEW_FORMAT", "当前仅支持 PNG、JPG、JPEG、WEBP 和 GIF 图片预览。", None, false)
        } else {
            match chosen.scope {
                Some(Err(d)) => refusal_reply(kind, request_id, "ASSET_SCOPE_FAILED", "无法授权预览所选图片文件。", Some(d), true),
                _ => selection_reply(kind, request_id, file.as_str()),
            }
        },
        None => selection_reply(kind, request_id, ""),
    }
}

} // verus!
