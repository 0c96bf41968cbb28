//! Records of the local database and the rules computed from its rows.
//!
//! The SQL itself runs in the shell; this module holds the setting keys, the
//! plain records the queries fill, and the computations made from query rows
//! (training settings and readiness of the personal model).
use vstd::prelude::*;
use crate::ipc::{core_error, IpcError};
use crate::personal_model::{artifact_error, identity_text, prototype_error, ArtifactFacts, PrototypeFacts};
use crate::text::{concat, decimal, decimal_string, is_blank, owned, str_eq, to_chars, trim};

verus! {

pub const CURRENT_SCHEMA_VERSION: i64 = 5;

/// Version of the similarity feature payload; bumped when extraction started
/// recording more than one frame, so stale animation caches are refreshed.
pub const SIMILARITY_FEATURE_VERSION: i64 = 2;

pub const PERSONAL_EMBEDDING_DIMENSION: usize = 2048;

pub const MIN_PERSONAL_TRAINING_SAMPLES: usize = 3;

pub const MIN_PERSONAL_SAMPLES_PER_CLASS: usize = 3;

pub const MIN_PERSONAL_TRAINING_CLASSES: usize = 2;

pub const WORKER_RUNTIME_MODE_SETTING: &'static str = "worker.runtime_mode";

pub const WORKER_COMPUTE_DEVICE_SETTING: &'static str = "worker.compute_device";

pub const WORKER_ONNX_THREADS_SETTING: &'static str = "worker.onnx_threads";

pub const WORKER_SKIP_ANNOTATED_SETTING: &'static str = "recognition.skip_annotated";

pub const SIMILARITY_WORKERS_SETTING: &'static str = "similarity.workers";

pub const SIMILARITY_THRESHOLD_SETTING: &'static str = "similarity.threshold";

pub const SIMILARITY_INCLUDE_SUBFOLDERS_SETTING: &'static str = "similarity.include_subfolders";

pub const SIMILARITY_ARCHIVE_DIR_SETTING: &'static str = "similarity.archive_dir";

pub const UI_FONT_SIZE_SETTING: &'static str = "ui.font_size";

pub const COMFY_ROOT_SETTING: &'static str = "comfy.root";

pub const COMFY_PORT_SETTING: &'static str = "comfy.port";

pub const COMFY_LOW_VRAM_SETTING: &'static str = "comfy.low_vram";

pub const COMFY_AUTO_START_SETTING: &'static str = "comfy.auto_start";

pub const COMFY_OUTPUT_DIR_SETTING: &'static str = "comfy.output_dir";

pub const LORA_TRAINER_ROOT_SETTING: &'static str = "lora_trainer.root";

pub const LORA_TRAINER_PYTHON_SETTING: &'static str = "lora_trainer.python";

pub const LORA_TRAINER_BASE_MODEL_SETTING: &'static str = "lora_trainer.base_model";

pub const LORA_TRAINER_OUTPUT_DIR_SETTING: &'static str = "lora_trainer.output_dir";

/// Optional folder holding CUDA 12 / cuDNN 9 DLLs for GPU inference.
pub const CUDA_RUNTIME_DIR_SETTING: &'static str = "worker.cuda_runtime_dir";

/// Character recognizer in use; empty means the installed default.
pub const RECOGNIZER_MODEL_SETTING: &'static str = "recognition.recognizer_model";

/// `below_normal` keeps scans from starving the desktop; `normal` lets long
/// jobs take all the CPU they can get.
pub const BACKGROUND_PRIORITY_SETTING: &'static str = "worker.background_priority";

/// Whether scans consult the reference-image library.
pub const REFERENCE_MATCHING_SETTING: &'static str = "recognition.reference_matching";

/// Similarity backend of the reference library: `ccip` or `embedding`.
pub const REFERENCE_BACKEND_SETTING: &'static str = "recognition.reference_backend";

/// HTTP(S) proxy used by CUDA/model downloads and the AI Worker.
pub const NETWORK_PROXY_SETTING: &'static str = "network.proxy";

#[derive(Debug, Clone)]
pub struct DatabaseHealth {
    pub status: String,
    pub path: String,
    pub schema_version: i64,
    pub table_count: i64,
    pub message: String,
}

#[derive(Debug, Clone, PartialEq)]
pub struct CharacterIdentity {
    pub id: String,
    pub display_name: String,
    pub created_at: String,
    pub updated_at: String,
}

#[derive(Debug, Clone, PartialEq)]
pub struct IdentitySampleSummary {
    pub identity_id: String,
    pub display_name: String,
    pub label_name: String,
    pub image_count: usize,
    pub manual_count: usize,
}

#[derive(Debug, Clone, PartialEq)]
pub struct PersonalTrainingSettings {
    pub min_total_samples: usize,
    pub min_samples_per_class: usize,
    pub auto_activate: bool,
}

#[derive(Debug, Clone, PartialEq)]
pub struct TrainingClassProgress {
    pub identity_id: String,
    pub display_name: String,
    pub sample_count: usize,
    pub min_required: usize,
    pub eligible: bool,
}

#[derive(Debug, Clone, PartialEq)]
pub struct TrainingReadiness {
    pub verified_sample_count: usize,
    pub verified_class_count: usize,
    pub eligible_class_count: usize,
    pub ready: bool,
    pub reasons: Vec<String>,
    pub class_progress: Vec<TrainingClassProgress>,
}

/// A stored minimum is raised to at least 1; an amount that does not fit
/// falls back to the documented default.
pub open spec fn clamp_minimum(stored: i64, fallback: usize) -> usize {
    let v = if stored < 1 { 1int } else { stored as int };
    if v <= usize::MAX {
        v as usize
    } else {
        fallback
    }
}

fn clamp_minimum_exec(stored: i64, fallback: usize) -> (r: usize)
    ensures
        r == clamp_minimum(stored, fallback),
{
    let v: i64 = if stored < 1 { 1 } else { stored };
    if (v as u64) <= (usize::MAX as u64) {
        v as usize
    } else {
        fallback
    }
}

/// The training settings row (`min_total_samples`, `min_samples_per_class`,
/// `auto_activate`) as the application uses it.
pub fn training_settings_from_row(min_total: i64, min_per_class: i64, auto_activate: i64) -> (r:
    PersonalTrainingSettings)
    ensures
        r.min_total_samples == clamp_minimum(min_total, MIN_PERSONAL_TRAINING_SAMPLES),
        r.min_samples_per_class == clamp_minimum(min_per_class, MIN_PERSONAL_SAMPLES_PER_CLASS),
        r.auto_activate == (auto_activate != 0),
{
    PersonalTrainingSettings {
        min_total_samples: clamp_minimum_exec(min_total, MIN_PERSONAL_TRAINING_SAMPLES),
        min_samples_per_class: clamp_minimum_exec(min_per_class, MIN_PERSONAL_SAMPLES_PER_CLASS),
        auto_activate: auto_activate != 0,
    }
}

/// One row of the readiness query: identity, display name, sample count.
pub struct ClassCountRow {
    pub identity_id: String,
    pub display_name: String,
    pub count: i64,
}

pub open spec fn row_count(row: ClassCountRow) -> nat {
    if row.count < 0 {
        0
    } else {
        row.count as nat
    }
}

pub open spec fn total_count(rows: Seq<ClassCountRow>) -> nat
    decreases rows.len(),
{
    if rows.len() == 0 {
        0
    } else {
        total_count(rows.drop_last()) + row_count(rows.last())
    }
}

pub open spec fn eligible_count(rows: Seq<ClassCountRow>, min: nat) -> nat
    decreases rows.len(),
{
    if rows.len() == 0 {
        0
    } else {
        eligible_count(rows.drop_last(), min) + if row_count(rows.last()) >= min {
            1nat
        } else {
            0nat
        }
    }
}

/// The reasons training cannot start yet, in the order they are shown.
pub open spec fn readiness_reasons(total: nat, classes: nat, eligible: nat, settings: PersonalTrainingSettings) -> Seq<
    Seq<char>,
> {
    (if total < settings.min_total_samples {
        seq![
            "至少需要 "@ + decimal(settings.min_total_samples as nat) + " 个已验证样本，当前为 "@
                + decimal(total) + " 个"@,
        ]
    } else {
        Seq::empty()
    }) + (if classes < MIN_PERSONAL_TRAINING_CLASSES {
        if classes == 0 {
            seq!["尚未有可用于训练的分类"@]
        } else {
            seq!["至少需要 2 个分类，当前为 "@ + decimal(classes) + " 个"@]
        }
    } else {
        Seq::empty()
    }) + (if classes > 0 && eligible != classes {
        seq![
            "每个分类至少需要 "@ + decimal(settings.min_samples_per_class as nat) + " 个样本，当前 "@
                + decimal(eligible) + "/"@ + decimal(classes) + " 个分类达标"@,
        ]
    } else {
        Seq::empty()
    })
}

pub open spec fn string_views(v: Seq<String>) -> Seq<Seq<char>> {
    v.map_values(|s: String| s@)
}

fn cat(parts: &Vec<String>) -> (r: String)
    ensures
        r@ == crate::text::join_with(string_views(parts@), Seq::empty()),
{
    let mut acc = String::new();
    let mut i: usize = 0;
    while i < parts.len()
        invariant
            i <= parts@.len(),
            acc@ == crate::text::join_with(string_views(parts@).subrange(0, i as int), Seq::empty()),
        decreases parts@.len() - i,
    {
        let ghost prefix = string_views(parts@).subrange(0, i as int);
        let ghost next = string_views(parts@).subrange(0, i + 1);
        assert(next.drop_last() =~= prefix);
        acc = concat(acc.as_str(), parts[i].as_str());
        proof {
            if i == 0 {
                assert(acc@ =~= parts@[0]@);
            } else {
                assert(acc@ =~= crate::text::join_with(prefix, Seq::empty()) + Seq::<char>::empty()
                    + parts@[i as int]@);
            }
        }
        i = i + 1;
    }
    assert(string_views(parts@).subrange(0, parts@.len() as int) =~= string_views(parts@));
    acc
}

/// Readiness of the personal model from the per-class counts of verified
/// samples; `rows` keeps the query's order.
pub fn readiness_from_rows(rows: &Vec<ClassCountRow>, settings: &PersonalTrainingSettings) -> (r:
    TrainingReadiness)
    requires
        total_count(rows@) <= usize::MAX,
    ensures
        r.verified_sample_count == total_count(rows@),
        r.verified_class_count == rows@.len(),
        r.eligible_class_count == eligible_count(rows@, settings.min_samples_per_class as nat),
        string_views(r.reasons@) == readiness_reasons(
            total_count(rows@),
            rows@.len(),
            eligible_count(rows@, settings.min_samples_per_class as nat),
            *settings,
        ),
        r.ready == (r.reasons@.len() == 0),
        r.class_progress@.len() == rows@.len(),
        forall|i: int|
            0 <= i < rows@.len() ==> {
                let p = #[trigger] r.class_progress@[i];
                &&& p.identity_id@ == rows@[i].identity_id@
                &&& p.display_name@ == rows@[i].display_name@
                &&& p.sample_count == row_count(rows@[i])
                &&& p.min_required == settings.min_samples_per_class
                &&& p.eligible == (row_count(rows@[i]) >= settings.min_samples_per_class)
            },
{
    let min = settings.min_samples_per_class;
    let mut progress: Vec<TrainingClassProgress> = Vec::new();
    let mut total: usize = 0;
    let mut eligible: usize = 0;
    let mut i: usize = 0;
    while i < rows.len()
        invariant
            i <= rows@.len(),
            min == settings.min_samples_per_class,
            total_count(rows@) <= usize::MAX,
            total == total_count(rows@.subrange(0, i as int)),
            eligible == eligible_count(rows@.subrange(0, i as int), min as nat),
            eligible <= i,
            progress@.len() == i,
            forall|k: int|
                0 <= k < i ==> {
                    let p = #[trigger] progress@[k];
                    &&& p.identity_id@ == rows@[k].identity_id@
                    &&& p.display_name@ == rows@[k].display_name@
                    &&& p.sample_count == row_count(rows@[k])
                    &&& p.min_required == min
                    &&& p.eligible == (row_count(rows@[k]) >= min)
                },
        decreases rows@.len() - i,
    {
        let row = &rows[i];
        assert(rows@.subrange(0, i + 1).drop_last() =~= rows@.subrange(0, i as int));
        proof {
            lemma_total_prefix_bound(rows@, i as int + 1);
        }
        let count: usize = if row.count < 0 {
            0
        } else {
            assert(row.count as nat <= total_count(rows@.subrange(0, i + 1)));
            row.count as usize
        };
        total = total + count;
        let ok = count >= min;
        if ok {
            eligible = eligible + 1;
        }
        progress.push(
            TrainingClassProgress {
                identity_id: row.identity_id.clone(),
                display_name: row.display_name.clone(),
                sample_count: count,
                min_required: min,
                eligible: ok,
            },
        );
        i = i + 1;
    }
    assert(rows@.subrange(0, rows@.len() as int) =~= rows@);
    let classes = rows.len();
    let mut reasons: Vec<String> = Vec::new();
    let ghost st = total as nat;
    if total < settings.min_total_samples {
        let mut parts: Vec<String> = Vec::new();
        parts.push(owned("至少需要 "));
        parts.push(decimal_string(settings.min_total_samples as u64));
        parts.push(owned(" 个已验证样本，当前为 "));
        parts.push(decimal_string(total as u64));
        parts.push(owned(" 个"));
        let line = cat(&parts);
        proof {
            reveal_with_fuel(crate::text::join_with, 6);
        }
        reasons.push(line);
    }
    let ghost after_total = string_views(reasons@);
    if classes < MIN_PERSONAL_TRAINING_CLASSES {
        if classes == 0 {
            reasons.push(owned("尚未有可用于训练的分类"));
        } else {
            let mut parts: Vec<String> = Vec::new();
            parts.push(owned("至少需要 2 个分类，当前为 "));
            parts.push(decimal_string(classes as u64));
            parts.push(owned(" 个"));
            let line = cat(&parts);
            proof {
                reveal_with_fuel(crate::text::join_with, 4);
            }
            reasons.push(line);
        }
    }
    let ghost after_classes = string_views(reasons@);
    if classes > 0 && eligible != classes {
        let mut parts: Vec<String> = Vec::new();
        parts.push(owned("每个分类至少需要 "));
        parts.push(decimal_string(min as u64));
        parts.push(owned(" 个样本，当前 "));
        parts.push(decimal_string(eligible as u64));
        parts.push(owned("/"));
        parts.push(decimal_string(classes as u64));
        parts.push(owned(" 个分类达标"));
        let line = cat(&parts);
        proof {
            reveal_with_fuel(crate::text::join_with, 8);
        }
        reasons.push(line);
    }
    assert(string_views(reasons@) =~= readiness_reasons(
        total_count(rows@),
        rows@.len(),
        eligible_count(rows@, settings.min_samples_per_class as nat),
        *settings,
    ));
    let ready = reasons.len() == 0;
    TrainingReadiness {
        verified_sample_count: total,
        verified_class_count: classes,
        eligible_class_count: eligible,
        ready,
        reasons,
        class_progress: progress,
    }
}

/// Totals of a prefix never exceed the totals of the whole list.
pub proof fn lemma_total_prefix_bound(rows: Seq<ClassCountRow>, k: int)
    requires
        0 <= k <= rows.len(),
    ensures
        total_count(rows.subrange(0, k)) <= total_count(rows),
    decreases rows.len() - k,
{
    if k < rows.len() {
        lemma_total_prefix_bound(rows, k + 1);
        assert(rows.subrange(0, k + 1).drop_last() =~= rows.subrange(0, k));
    } else {
        assert(rows.subrange(0, k) =~= rows);
    }
}


/// How a stored artifact gives its `schema_version`: as a string, as a JSON
/// number (with the integer it reads as, where it is one), or otherwise.
#[derive(Debug, Clone)]
pub enum SchemaVersion {
    Text(String),
    Number(Option<i64>),
    Other,
}

/// What the artifact check reads of a stored personal-model artifact; its
/// prototypes are read as for a freshly trained artifact.
/// `thresholds_in_range` says whether `strict_threshold` and `min_margin` are
/// both finite numbers in `0..=1`; `prototypes` is `None` where that key does
/// not hold an array.
#[derive(Debug, Clone)]
pub struct StoredArtifactFacts {
    pub is_object: bool,
    pub schema_version: SchemaVersion,
    pub algorithm: Option<String>,
    pub version: Option<String>,
    pub thresholds_in_range: bool,
    pub prototypes: Option<Vec<PrototypeFacts>>,
}

pub open spec fn schema_version_ok(s: SchemaVersion) -> bool {
    match s {
        SchemaVersion::Text(t) => t@ == "1.0"@ || t@ == "1"@,
        SchemaVersion::Number(n) => n == Some(1i64),
        SchemaVersion::Other => false,
    }
}

/// The identity of a prototype, empty where it has none.
pub open spec fn prototype_identity(p: PrototypeFacts) -> Seq<char> {
    match p.identity_id {
        Some(id) => id@,
        None => Seq::empty(),
    }
}

/// One prototype is usable on its own: an object with a non-blank identity,
/// a display name, a full-length finite embedding and at least one sample.
pub open spec fn prototype_ok(p: PrototypeFacts) -> bool {
    &&& p.is_object
    &&& p.identity_id is Some
    &&& trim(prototype_identity(p)).len() > 0
    &&& p.display_name_is_text
    &&& p.embedding_len == Some(PERSONAL_EMBEDDING_DIMENSION)
    &&& p.embedding_finite
    &&& match p.sample_count {
        Some(n) => n > 0,
        None => false,
    }
}

/// The first `k` prototypes are each usable and name distinct identities.
pub open spec fn prototypes_ok_upto(ps: Seq<PrototypeFacts>, k: int) -> bool {
    &&& forall|i: int| 0 <= i < k ==> #[trigger] prototype_ok(ps[i])
    &&& forall|i: int, j: int|
        0 <= i < j < k ==> prototype_identity(#[trigger] ps[i]) != prototype_identity(#[trigger] ps[j])
}

/// A stored artifact the recognizer can load: schema `1`, the
/// `normalized_centroid_v1` algorithm, a non-empty version, thresholds in
/// range, and a non-empty list of usable prototypes with distinct identities.
pub open spec fn artifact_ok(a: StoredArtifactFacts) -> bool {
    &&& a.is_object
    &&& schema_version_ok(a.schema_version)
    &&& match a.algorithm {
        Some(t) => t@ == "normalized_centroid_v1"@,
        None => false,
    }
    &&& match a.version {
        Some(v) => v@.len() > 0,
        None => false,
    }
    &&& a.thresholds_in_range
    &&& match a.prototypes {
        Some(ps) => ps@.len() > 0 && prototypes_ok_upto(ps@, ps@.len() as int),
        None => false,
    }
}

fn schema_version_is_one(s: &SchemaVersion) -> (b: bool)
    ensures
        b == schema_version_ok(*s),
{
    match s {
        SchemaVersion::Text(t) => str_eq(t.as_str(), "1.0") || str_eq(t.as_str(), "1"),
        SchemaVersion::Number(n) => match n {
            Some(v) => *v == 1,
            None => false,
        },
        SchemaVersion::Other => false,
    }
}

fn usable_prototype(p: &PrototypeFacts) -> (b: bool)
    ensures
        b == prototype_ok(*p),
{
    if !p.is_object || !p.display_name_is_text || !p.embedding_finite {
        return false;
    }
    match p.embedding_len {
        Some(n) => {
            if n != PERSONAL_EMBEDDING_DIMENSION {
                return false;
            }
        },
        None => return false,
    }
    match p.sample_count {
        Some(n) => {
            if n == 0 {
                return false;
            }
        },
        None => return false,
    }
    match &p.identity_id {
        Some(id) => !is_blank(id.as_str()),
        None => false,
    }
}

/// Whether a stored personal-model artifact can be loaded by the recognizer.
pub fn valid_personal_model_artifact(a: &StoredArtifactFacts) -> (b: bool)
    ensures
        b == artifact_ok(*a),
{
    if !a.is_object || !schema_version_is_one(&a.schema_version) || !a.thresholds_in_range {
        return false;
    }
    match &a.algorithm {
        Some(t) => {
            if !str_eq(t.as_str(), "normalized_centroid_v1") {
                return false;
            }
        },
        None => return false,
    }
    match &a.version {
        Some(v) => {
            if to_chars(v.as_str()).len() == 0 {
                return false;
            }
        },
        None => return false,
    }
    let ps = match &a.prototypes {
        Some(ps) => ps,
        None => return false,
    };
    if ps.len() == 0 {
        return false;
    }
    let mut k: usize = 0;
    while k < ps.len()
        invariant
            k <= ps@.len(),
            a.prototypes matches Some(p) && p@ == ps@,
            prototypes_ok_upto(ps@, k as int),
        decreases ps@.len() - k,
    {
        if !usable_prototype(&ps[k]) {
            assert(!prototype_ok(ps@[k as int]));
            return false;
        }
        let id: &String = match &ps[k].identity_id {
            Some(id) => id,
            None => return false,
        };
        let mut j: usize = 0;
        while j < k
            invariant
                j <= k < ps@.len(),
                a.prototypes matches Some(p) && p@ == ps@,
                prototypes_ok_upto(ps@, k as int),
                prototype_ok(ps@[k as int]),
                id@ == prototype_identity(ps@[k as int]),
                forall|i: int| 0 <= i < j ==> prototype_identity(#[trigger] ps@[i]) != id@,
            decreases k - j,
        {
            let other: &String = match &ps[j].identity_id {
                Some(o) => o,
                None => {
                    assert(prototype_ok(ps@[j as int]));
                    return false;
                },
            };
            if str_eq(other.as_str(), id.as_str()) {
                assert(prototype_identity(ps@[j as int]) == prototype_identity(ps@[k as int]));
                return false;
            }
            j = j + 1;
        }
        k = k + 1;
    }
    true
}


proof fn lemma_usable_prototypes_pass(ps: Seq<PrototypeFacts>, i: int)
    requires
        0 <= i,
        prototypes_ok_upto(ps, ps.len() as int),
    ensures
        prototype_error(ps, i) is None,
    decreases ps.len() - i,
{
    if i < ps.len() {
        lemma_usable_prototypes_pass(ps, i + 1);
        assert(prototype_ok(ps[i]));
        assert forall|j: int| 0 <= j < i implies #[trigger] identity_text(ps[j]) != identity_text(ps[i]) by {
            assert(prototype_ok(ps[j]));
            assert(prototype_identity(ps[j]) != prototype_identity(ps[i]));
        }
    }
}

/// An artifact the store accepts as loadable also passes the check made on
/// a freshly trained artifact.
pub proof fn law_stored_artifact_passes_training_check(a: StoredArtifactFacts)
    requires
        artifact_ok(a),
    ensures
        artifact_error((ArtifactFacts { is_object: a.is_object, prototypes: a.prototypes })) is None,
{
    match a.prototypes {
        Some(ps) => lemma_usable_prototypes_pass(ps@, 0),
        None => {},
    }
}


/// What an `IpcError` made by `core_error` holds.
pub open spec fn is_core_error(
    e: IpcError,
    request_id: Seq<char>,
    code: Seq<char>,
    message: Seq<char>,
    detail: Option<Seq<char>>,
    retryable: bool,
) -> bool {
    &&& e.code@ == code
    &&& e.message@ == message
    &&& match e.detail {
        Some(d) => detail == Some(d@),
        None => detail is None,
    }
    &&& e.retryable == retryable
    &&& e.request_id@ == request_id
    &&& e.task_id is None
}

/// The optimistic check of an annotation save: a base revision, when given,
/// must be the image's current revision and not negative. A conflict carries
/// the current revision.
pub fn revision_conflict(base_revision: Option<i64>, current_revision: i64) -> (r: Option<i64>)
    ensures
        r == (match base_revision {
            Some(b) => if b < 0 || b != current_revision {
                Some(current_revision)
            } else {
                None
            },
            None => None,
        }),
{
    match base_revision {
        Some(b) => if b < 0 || b != current_revision {
            Some(current_revision)
        } else {
            None
        },
        None => None,
    }
}

/// The reply to a save that lost the revision race: worth retrying after a
/// reload, with the current revision as detail.
pub fn revision_conflict_error(request_id: &str, current_revision: i64) -> (r: IpcError)
    ensures
        is_core_error(
            r,
            request_id@,
            "ANNOTATION_REVISION_CONFLICT"@,
            "图片标注已被其他操作更新，请重新加载后再保存。"@,
            Some("current_revision="@ + crate::text::signed_decimal(current_revision as int)),
            true,
        ),
{
    let detail = concat("current_revision=", crate::text::signed_decimal_string(current_revision).as_str());
    core_error(request_id, "ANNOTATION_REVISION_CONFLICT", "图片标注已被其他操作更新，请重新加载后再保存。", Some(detail), true)
}

/// The version text a trained artifact must carry: `personal-v<version>`.
pub open spec fn expected_artifact_version(version: i64) -> Seq<char> {
    "personal-v"@ + crate::text::signed_decimal(version as int)
}

/// Whether a trained model may be saved as `version`, and if so whether it
/// becomes the active model. It is refused unless its artifact is valid,
/// names `personal-v<version>` as its version and the model's algorithm as
/// its algorithm; an overwrite must also name an existing version of at
/// least 2 (the base model is never overwritten), and a new model must be
/// the version after the highest stored one (`next_version`). A saved model
/// is activated exactly when activation is automatic and the model is
/// eligible. `version_exists` is only consulted for an overwrite,
/// `next_version` only for a new version.
pub fn trained_model_save_decision(
    artifact_valid: bool,
    artifact_version: &Option<String>,
    artifact_algorithm: &Option<String>,
    algorithm: &str,
    version: i64,
    is_overwrite: bool,
    version_exists: bool,
    next_version: i64,
    auto_activate: bool,
    eligible: bool,
) -> (r: Option<bool>)
    ensures
        r is Some <==> {
            &&& artifact_valid
            &&& (match artifact_version {
                Some(v) => v@ == expected_artifact_version(version),
                None => false,
            })
            &&& (match artifact_algorithm {
                Some(a) => a@ == algorithm@,
                None => false,
            })
            &&& (is_overwrite ==> version >= 2 && version_exists)
            &&& (!is_overwrite ==> version == next_version)
        },
        r matches Some(activate) ==> activate == (auto_activate && eligible),
{
    if !artifact_valid {
        return None;
    }
    let expected = concat("personal-v", crate::text::signed_decimal_string(version).as_str());
    match artifact_version {
        Some(v) => if !str_eq(v.as_str(), expected.as_str()) {
            return None;
        },
        None => return None,
    }
    match artifact_algorithm {
        Some(a) => if !str_eq(a.as_str(), algorithm) {
            return None;
        },
        None => return None,
    }
    if is_overwrite && (version < 2 || !version_exists) {
        return None;
    }
    if !is_overwrite && version != next_version {
        return None;
    }
    Some(auto_activate && eligible)
}

/// The refusal of a version deletion, if any: the active version is never
/// deleted (the shell then runs no deletion), and a deletion that removed no
/// row names a version that does not exist.
pub fn version_deletion_refusal(request_id: &str, is_active: bool, rows_deleted: usize) -> (r: Option<IpcError>)
    ensures
        is_active ==> (r matches Some(e) && is_core_error(
            e,
            request_id@,
            "CANNOT_DELETE_ACTIVE_MODEL"@,
            "不能直接删除当前激活的个人模型。请先将其他版本设为激活，或使用基础模型后再删除。"@,
            None,
            false,
        )),
        !is_active && rows_deleted == 0 ==> (r matches Some(e) && is_core_error(
            e,
            request_id@,
            "PERSONAL_MODEL_VERSION_NOT_FOUND"@,
            "找不到指定的个人模型版本，无法删除。"@,
            None,
            false,
        )),
        !is_active && rows_deleted > 0 ==> r is None,
{
    if is_active {
        Some(core_error(
            request_id,
            "CANNOT_DELETE_ACTIVE_MODEL",
            "不能直接删除当前激活的个人模型。请先将其他版本设为激活，或使用基础模型后再删除。",
            None,
            false,
        ))
    } else if rows_deleted == 0 {
        Some(core_error(request_id, "PERSONAL_MODEL_VERSION_NOT_FOUND", "找不到指定的个人模型版本，无法删除。", None, false))
    } else {
        None
    }
}


/// Whether `serde_json::from_str::<serde_json::Value>` reads the text as JSON.
pub uninterp spec fn is_json_text(text: Seq<char>) -> bool;

/// The list of strings `serde_json::from_str::<Vec<String>>` reads from the
/// text, where it reads one.
pub uninterp spec fn json_string_list_of(text: Seq<char>) -> Option<Seq<Seq<char>>>;

/// `serde_json::from_str::<serde_json::Value>(text).is_ok()`.
#[verifier::external_body]
fn json_parses(text: &str) -> (b: bool)
    ensures
        b == is_json_text(text@),
{
    serde_json::from_str::<serde_json::Value>(text).is_ok()
}

/// `serde_json::from_str::<Vec<String>>(text).ok()`.
#[verifier::external_body]
fn decode_string_list(text: &str) -> (r: Option<Vec<String>>)
    ensures
        match r {
            Some(v) => json_string_list_of(text@) == Some(string_views(v@)),
            None => json_string_list_of(text@) is None,
        },
{
    serde_json::from_str::<Vec<String>>(text).ok()
}

/// One row of `personal_model_versions` as the query reads it.
#[derive(Debug, Clone)]
pub struct VersionRow {
    pub id: String,
    pub version: i64,
    pub status: String,
    pub sample_count: i64,
    pub class_count: i64,
    pub algorithm: String,
    pub artifact_json: Option<String>,
    pub metrics_json: String,
    pub warnings_json: String,
    pub eligible_for_activation: i64,
    pub error_code: Option<String>,
    pub error_message: Option<String>,
    pub created_at: String,
    pub updated_at: String,
    pub activated_at: Option<String>,
}

/// A stored version of the personal model, as the status page shows it.
/// The artifact and the metrics are held as JSON text that parses.
#[derive(Debug, Clone)]
pub struct PersonalModelVersionRecord {
    pub id: String,
    pub version: i64,
    pub status: String,
    pub sample_count: usize,
    pub class_count: usize,
    pub algorithm: String,
    pub artifact_json: Option<String>,
    pub metrics_json: String,
    pub warnings: Vec<String>,
    pub eligible_for_activation: bool,
    pub error_code: Option<String>,
    pub error_message: Option<String>,
    pub created_at: String,
    pub updated_at: String,
    pub activated_at: Option<String>,
}

/// The status of personal-model training: the training state row, the
/// readiness and settings, the active version and every stored version,
/// newest first.
#[derive(Debug, Clone)]
pub struct PersonalTrainingStatus {
    pub status: String,
    pub message: String,
    pub readiness: TrainingReadiness,
    pub settings: PersonalTrainingSettings,
    pub active_version: Option<i64>,
    pub versions: Vec<PersonalModelVersionRecord>,
    pub updated_at: String,
    pub last_error: Option<String>,
}

/// A stored count, negative ones read as 0.
pub open spec fn stored_count(n: i64) -> usize {
    if n < 0 {
        0usize
    } else {
        n as usize
    }
}

/// What reading a version row gives: counts below 0 become 0; an artifact
/// that is not JSON is dropped; metrics that are not JSON become `{}`;
/// warnings that are not a JSON list of strings become no warnings;
/// eligibility is any non-zero flag; every other field is kept.
pub open spec fn is_record_of(r: PersonalModelVersionRecord, raw: VersionRow) -> bool {
    &&& r.id == raw.id
    &&& r.version == raw.version
    &&& r.status == raw.status
    &&& r.sample_count == stored_count(raw.sample_count)
    &&& r.class_count == stored_count(raw.class_count)
    &&& r.algorithm == raw.algorithm
    &&& r.artifact_json == match raw.artifact_json {
        Some(a) => if is_json_text(a@) {
            Some(a)
        } else {
            None
        },
        None => None,
    }
    &&& r.metrics_json@ == if is_json_text(raw.metrics_json@) {
        raw.metrics_json@
    } else {
        "{}"@
    }
    &&& string_views(r.warnings@) == match json_string_list_of(raw.warnings_json@) {
        Some(w) => w,
        None => Seq::empty(),
    }
    &&& r.eligible_for_activation == (raw.eligible_for_activation != 0)
    &&& r.error_code == raw.error_code
    &&& r.error_message == raw.error_message
    &&& r.created_at == raw.created_at
    &&& r.updated_at == raw.updated_at
    &&& r.activated_at == raw.activated_at
}

/// Read one version row.
pub fn version_record(raw: VersionRow) -> (r: PersonalModelVersionRecord)
    ensures
        is_record_of(r, raw),
{
    let sample_count: usize = if raw.sample_count < 0 {
        0
    } else {
        raw.sample_count as usize
    };
    let class_count: usize = if raw.class_count < 0 {
        0
    } else {
        raw.class_count as usize
    };
    let artifact_json = match raw.artifact_json {
        Some(a) => if json_parses(a.as_str()) {
            Some(a)
        } else {
            None
        },
        None => None,
    };
    let metrics_json = if json_parses(raw.metrics_json.as_str()) {
        raw.metrics_json
    } else {
        owned("{}")
    };
    let warnings = match decode_string_list(raw.warnings_json.as_str()) {
        Some(w) => w,
        None => {
            let empty: Vec<String> = Vec::new();
            assert(string_views(empty@) =~= Seq::<Seq<char>>::empty());
            empty
        },
    };
    PersonalModelVersionRecord {
        id: raw.id,
        version: raw.version,
        status: raw.status,
        sample_count,
        class_count,
        algorithm: raw.algorithm,
        artifact_json,
        metrics_json,
        warnings,
        eligible_for_activation: raw.eligible_for_activation != 0,
        error_code: raw.error_code,
        error_message: raw.error_message,
        created_at: raw.created_at,
        updated_at: raw.updated_at,
        activated_at: raw.activated_at,
    }
}


fn copy_text(o: &Option<String>) -> (c: Option<String>)
    ensures
        c == *o,
{
    match o {
        Some(t) => Some(t.clone()),
        None => None,
    }
}

fn copy_row(r: &VersionRow) -> (c: VersionRow)
    ensures
        c == *r,
{
    VersionRow {
        id: r.id.clone(),
        version: r.version,
        status: r.status.clone(),
        sample_count: r.sample_count,
        class_count: r.class_count,
        algorithm: r.algorithm.clone(),
        artifact_json: copy_text(&r.artifact_json),
        metrics_json: r.metrics_json.clone(),
        warnings_json: r.warnings_json.clone(),
        eligible_for_activation: r.eligible_for_activation,
        error_code: copy_text(&r.error_code),
        error_message: copy_text(&r.error_message),
        created_at: r.created_at.clone(),
        updated_at: r.updated_at.clone(),
        activated_at: copy_text(&r.activated_at),
    }
}

/// The training status: the state row, readiness and settings as given,
/// and every version row read as [`version_record`] reads it, in order.
pub fn personal_training_status(
    status: String,
    message: String,
    last_error: Option<String>,
    updated_at: String,
    readiness: TrainingReadiness,
    settings: PersonalTrainingSettings,
    active_version: Option<i64>,
    rows: Vec<VersionRow>,
) -> (r: PersonalTrainingStatus)
    ensures
        r.status == status,
        r.message == message,
        r.last_error == last_error,
        r.updated_at == updated_at,
        r.readiness == readiness,
        r.settings == settings,
        r.active_version == active_version,
        r.versions@.len() == rows@.len(),
        forall|i: int| 0 <= i < rows@.len() ==> is_record_of(#[trigger] r.versions@[i], rows@[i]),
{
    let mut versions: Vec<PersonalModelVersionRecord> = Vec::new();
    let mut i: usize = 0;
    while i < rows.len()
        invariant
            i <= rows@.len(),
            versions@.len() == i,
            forall|k: int| 0 <= k < i ==> is_record_of(#[trigger] versions@[k], rows@[k]),
        decreases rows@.len() - i,
    {
        versions.push(version_record(copy_row(&rows[i])));
        i = i + 1;
    }
    PersonalTrainingStatus {
        status,
        message,
        readiness,
        settings,
        active_version,
        versions,
        updated_at,
        last_error,
    }
}

} // verus!
