//! Training the personal classifier from verified samples: which version a
//! run writes, what the worker is told, and whether its answer can be kept.
use vstd::prelude::*;
use crate::database::{TrainingReadiness, PERSONAL_EMBEDDING_DIMENSION};
use crate::ipc::{core_error, IpcError};
use crate::library::WorkerFailure;
use crate::order::{sorted_unique, strictly_sorted};
use crate::text::{char_views, concat, concat3, decimal, decimal_string, join_chars, join_with, owned, string_views, to_chars, trim};

verus! {

/// Why a training run does not start.
#[derive(Debug, Clone, Copy, PartialEq, Eq)]
pub enum TrainingRefusal {
    /// Version 1 is the shipped base model and cannot be overwritten.
    ProtectedBaseModel,
    /// The version to overwrite does not exist.
    VersionNotFound,
}

/// The version a run writes and whether it overwrites one: a requested
/// version of 2 or more that exists, else the next free version.
/// `version_exists` answers for the requested version and `next_version` is
/// the next free one; each is read only where it matters.
pub fn training_target(
    overwrite_version: Option<i64>,
    version_exists: bool,
    next_version: i64,
) -> (r: Result<(i64, bool), TrainingRefusal>)
    ensures
        match overwrite_version {
            Some(v) => if v < 2 {
                r == Err::<(i64, bool), TrainingRefusal>(TrainingRefusal::ProtectedBaseModel)
            } else if !version_exists {
                r == Err::<(i64, bool), TrainingRefusal>(TrainingRefusal::VersionNotFound)
            } else {
                r == Ok::<(i64, bool), TrainingRefusal>((v, true))
            },
            None => r == Ok::<(i64, bool), TrainingRefusal>((next_version, false)),
        },
{
    match overwrite_version {
        Some(v) => if v < 2 {
            Err(TrainingRefusal::ProtectedBaseModel)
        } else if !version_exists {
            Err(TrainingRefusal::VersionNotFound)
        } else {
            Ok((v, true))
        },
        None => Ok((next_version, false)),
    }
}

/// The model version label the worker writes into the artifact.
pub fn model_version_label(version: i64) -> (r: String)
    ensures
        r@ == "personal-v"@ + crate::text::signed_decimal(version as int),
{
    concat("personal-v", crate::text::signed_decimal_string(version).as_str())
}

/// The reasons a run is not ready, joined by `；`.
pub fn readiness_detail(reasons: &Vec<String>) -> (r: String)
    ensures
        r@ == join_with(string_views(reasons@), "；"@),
{
    let mut items: Vec<Vec<char>> = Vec::new();
    let mut i: usize = 0;
    while i < reasons.len()
        invariant
            i <= reasons@.len(),
            char_views(items@) == string_views(reasons@).subrange(0, i as int),
        decreases reasons@.len() - i,
    {
        let ghost before = items@;
        items.push(to_chars(reasons[i].as_str()));
        assert(char_views(items@) =~= char_views(before).push(reasons@[i as int]@));
        i = i + 1;
        assert(char_views(items@) =~= string_views(reasons@).subrange(0, i as int));
    }
    assert(string_views(reasons@).subrange(0, reasons@.len() as int) =~= string_views(reasons@));
    let sep = to_chars("；");
    crate::text::from_chars(join_chars(&items, sep.as_slice()).as_slice())
}

/// The number of classes among the samples: their distinct identities.
pub fn class_count(identity_ids: Vec<String>) -> (r: usize)
    ensures
        exists|u: Seq<String>|
            strictly_sorted(u) && u.len() == r && forall|s: Seq<char>|
                string_views(u).contains(s) <==> string_views(identity_ids@).contains(s),
{
    let u = sorted_unique(identity_ids);
    u.len()
}

/// A worker refusal keeps its code; any other failure is a failed training.
pub fn training_failure_error(request_id: &str, error: WorkerFailure) -> (r: IpcError)
    ensures
        r.request_id@ == request_id@,
        match error {
            WorkerFailure::Response { code, message } => r.code@ == code@ && r.message@ == message@
                && r.detail is None && !r.retryable,
            WorkerFailure::Other { detail } => r.code@ == "PERSONAL_TRAINING_FAILED"@ && r.message@
                == "个人模型训练失败。"@ && r.detail == Some(detail) && r.retryable,
        },
{
    match error {
        WorkerFailure::Response { code, message } => core_error(
            request_id,
            code.as_str(),
            message.as_str(),
            None,
            false,
        ),
        WorkerFailure::Other { detail } => core_error(
            request_id,
            "PERSONAL_TRAINING_FAILED",
            "个人模型训练失败。",
            Some(detail),
            true,
        ),
    }
}

/// A failure reading the database during training: retryable, with the
/// database error as detail.
pub fn training_database_error(request_id: &str, code: &str, message: &str, error: String) -> (r:
    IpcError)
    ensures
        r.request_id@ == request_id@,
        r.code@ == code@,
        r.message@ == message@,
        r.detail == Some(error),
        r.retryable,
{
    core_error(request_id, code, message, Some(error), true)
}

/// One prototype of a trained artifact, as far as its JSON gave the fields.
#[derive(Debug, Clone)]
pub struct PrototypeFacts {
    pub is_object: bool,
    pub identity_id: Option<String>,
    pub display_name_is_text: bool,
    pub embedding_len: Option<usize>,
    /// Every component of the embedding is a finite number.
    pub embedding_finite: bool,
    /// `None` when missing or not a non-negative integer.
    pub sample_count: Option<u64>,
}

/// A trained artifact: whether it is an object and its prototype list.
#[derive(Debug, Clone)]
pub struct ArtifactFacts {
    pub is_object: bool,
    pub prototypes: Option<Vec<PrototypeFacts>>,
}

pub open spec fn indexed(prefix: Seq<char>, i: int, suffix: Seq<char>) -> Seq<char> {
    prefix + decimal(i as nat) + suffix
}

pub open spec fn identity_text(p: PrototypeFacts) -> Option<Seq<char>> {
    match p.identity_id {
        Some(t) => if trim(t@).len() > 0 {
            Some(t@)
        } else {
            None
        },
        None => None,
    }
}

/// The first problem of prototype `i` and the ones after it.
pub open spec fn prototype_error(ps: Seq<PrototypeFacts>, i: int) -> Option<Seq<char>>
    decreases ps.len() - i,
{
    if i < 0 || i >= ps.len() {
        None
    } else {
        let p = ps[i];
        if !p.is_object {
            Some(indexed("artifact.prototypes["@, i, "] 必须是对象"@))
        } else if identity_text(p) is None {
            Some(indexed("artifact.prototypes["@, i, "].identity_id 无效"@))
        } else if exists|j: int| 0 <= j < i && #[trigger] identity_text(ps[j]) == identity_text(p) {
            Some("artifact.prototypes 包含重复 identity_id: "@ + identity_text(p)->0)
        } else if !p.display_name_is_text {
            Some(indexed("artifact.prototypes["@, i, "].display_name 必须是字符串"@))
        } else if p.embedding_len is None {
            Some(indexed("artifact.prototypes["@, i, "].embedding 必须是数组"@))
        } else if p.embedding_len != Some(PERSONAL_EMBEDDING_DIMENSION) || !p.embedding_finite {
            Some(indexed("artifact.prototypes["@, i, "].embedding 必须是有限的 2048 维向量"@))
        } else if p.sample_count is None {
            Some(indexed("artifact.prototypes["@, i, "].sample_count 必须是非负整数"@))
        } else if p.sample_count == Some(0u64) {
            Some(indexed("artifact.prototypes["@, i, "].sample_count 必须大于 0"@))
        } else {
            prototype_error(ps, i + 1)
        }
    }
}

/// Why an artifact is not a usable personal model, if it is not.
pub open spec fn artifact_error(a: ArtifactFacts) -> Option<Seq<char>> {
    if !a.is_object {
        Some("artifact 必须是 JSON 对象"@)
    } else {
        match a.prototypes {
            None => Some("artifact 必须包含 prototypes 数组"@),
            Some(ps) => if ps@.len() == 0 {
                Some("artifact.prototypes 不能为空"@)
            } else {
                prototype_error(ps@, 0)
            },
        }
    }
}

fn indexed_message(prefix: &str, i: usize, suffix: &str) -> (r: String)
    ensures
        r@ == indexed(prefix@, i as int, suffix@),
{
    concat3(prefix, decimal_string(i as u64).as_str(), suffix)
}

/// Check an artifact: an object with a non-empty prototype list whose
/// entries each have a non-blank, unrepeated identity, a display name, a
/// finite 2048-dimensional embedding and a positive sample count.
pub fn validate_training_artifact(a: &ArtifactFacts) -> (r: Result<(), String>)
    ensures
        match artifact_error(*a) {
            Some(m) => r matches Err(e) && e@ == m,
            None => r is Ok,
        },
{
    if !a.is_object {
        return Err(owned("artifact 必须是 JSON 对象"));
    }
    let ps = match &a.prototypes {
        None => return Err(owned("artifact 必须包含 prototypes 数组")),
        Some(ps) => ps,
    };
    if ps.len() == 0 {
        return Err(owned("artifact.prototypes 不能为空"));
    }
    let mut i: usize = 0;
    while i < ps.len()
        invariant
            i <= ps@.len(),
            artifact_error(*a) == prototype_error(ps@, 0),
            prototype_error(ps@, 0) == prototype_error(ps@, i as int),
        decreases ps@.len() - i,
    {
        let p = &ps[i];
        if !p.is_object {
            return Err(indexed_message("artifact.prototypes[", i, "] 必须是对象"));
        }
        let id_ok = match &p.identity_id {
            Some(t) => !crate::text::is_blank(t.as_str()),
            None => false,
        };
        if !id_ok {
            return Err(indexed_message("artifact.prototypes[", i, "].identity_id 无效"));
        }
        let id = p.identity_id.as_ref().unwrap();
        let mut j: usize = 0;
        let mut dup = false;
        while j < i
            invariant
                j <= i < ps@.len(),
                identity_text(ps@[i as int]) == Some(id@),
                dup == exists|q: int| 0 <= q < j && #[trigger] identity_text(ps@[q]) == identity_text(ps@[i as int]),
            decreases i - j,
        {
            let other_same = match &ps[j].identity_id {
                Some(t) => !crate::text::is_blank(t.as_str()) && crate::text::str_eq(t.as_str(), id.as_str()),
                None => false,
            };
            if other_same {
                dup = true;
            }
            assert(identity_text(ps@[j as int]) == identity_text(ps@[j as int]));
            j = j + 1;
        }
        if dup {
            return Err(concat("artifact.prototypes 包含重复 identity_id: ", id.as_str()));
        }
        if !p.display_name_is_text {
            return Err(indexed_message("artifact.prototypes[", i, "].display_name 必须是字符串"));
        }
        match p.embedding_len {
            None => return Err(indexed_message("artifact.prototypes[", i, "].embedding 必须是数组")),
            Some(n) => if n != PERSONAL_EMBEDDING_DIMENSION || !p.embedding_finite {
                return Err(indexed_message("artifact.prototypes[", i, "].embedding 必须是有限的 2048 维向量"));
            },
        }
        match p.sample_count {
            None => return Err(indexed_message("artifact.prototypes[", i, "].sample_count 必须是非负整数")),
            Some(c) => if c == 0 {
                return Err(indexed_message("artifact.prototypes[", i, "].sample_count 必须大于 0"));
            },
        }
        i = i + 1;
    }
    Ok(())
}

/// A prototype of the live model kept in the database, as far as merging
/// needs it.
#[derive(Debug, Clone)]
pub struct LivePrototypeFacts {
    pub identity_id: String,
    pub display_name: String,
    /// A finite 2048-dimensional embedding.
    pub embedding_ok: bool,
    pub sample_count: u64,
}

/// Where a prototype of the merged artifact comes from.
#[derive(Debug, Clone, Copy, PartialEq, Eq)]
pub enum PrototypeSource {
    /// The artifact's own prototype.
    Kept,
    /// The live prototype at this position.
    Live(usize),
}

/// How live prototypes enter an artifact: each prototype of the artifact
/// is kept or replaced, then the live ones it lacks are appended.
#[derive(Debug, Clone)]
pub struct MergePlan {
    pub existing: Vec<PrototypeSource>,
    pub appended: Vec<usize>,
}

pub open spec fn live_ok(l: LivePrototypeFacts) -> bool {
    &&& trim(l.identity_id@).len() > 0
    &&& trim(l.display_name@).len() > 0
    &&& l.embedding_ok
    &&& l.sample_count > 0
}

/// Live prototypes are usable when each is complete and no identity
/// repeats.
pub open spec fn live_usable(live: Seq<LivePrototypeFacts>) -> bool {
    &&& forall|j: int| 0 <= j < live.len() ==> live_ok(#[trigger] live[j])
    &&& forall|i: int, j: int| 0 <= i < j < live.len() ==> (#[trigger] live[i]).identity_id@ != (#[trigger] live[j]).identity_id@
}

/// The artifact holds a prototype of this identity.
pub open spec fn in_artifact(ps: Seq<PrototypeFacts>, id: Seq<char>) -> bool {
    exists|t: int| 0 <= t < ps.len() && #[trigger] identity_text(ps[t]) == Some(id)
}

/// The source of an artifact prototype of identity `id`: the live
/// prototype of that identity, else its own.
pub open spec fn source_ok(src: PrototypeSource, live: Seq<LivePrototypeFacts>, id: Option<Seq<char>>) -> bool {
    match src {
        PrototypeSource::Live(j) => j < live.len() && Some(live[j as int].identity_id@) == id,
        PrototypeSource::Kept => no_live_of(live, id),
    }
}

pub open spec fn no_live_of(live: Seq<LivePrototypeFacts>, id: Option<Seq<char>>) -> bool {
    forall|j: int| 0 <= j < live.len() ==> Some((#[trigger] live[j]).identity_id@) != id
}

/// The plan of a merge: nothing (the artifact stays as it is) without live
/// prototypes, for an invalid artifact or for unusable live prototypes.
/// Otherwise each artifact prototype takes the live one of its identity if
/// there is one, and the live prototypes of other identities follow in
/// ascending order of identity.
pub open spec fn merge_plan_ok(ps: Seq<PrototypeFacts>, live: Seq<LivePrototypeFacts>, plan: MergePlan) -> bool {
    &&& plan.existing@.len() == ps.len()
    &&& forall|t: int| 0 <= t < ps.len() ==> source_ok(#[trigger] plan.existing@[t], live, identity_text(ps[t]))
    &&& forall|k: int| 0 <= k < plan.appended@.len() ==> (#[trigger] plan.appended@[k]) < live.len()
        && !in_artifact(ps, live[plan.appended@[k] as int].identity_id@)
    &&& forall|j: int| 0 <= j < live.len() && !in_artifact(ps, (#[trigger] live[j]).identity_id@) ==> plan.appended@.contains(j as usize)
    &&& forall|k: int, l: int| 0 <= k < l < plan.appended@.len() ==> crate::order::seq_less(
        live[(#[trigger] plan.appended@[k]) as int].identity_id@,
        live[(#[trigger] plan.appended@[l]) as int].identity_id@,
    )
}

fn live_checked(live: &Vec<LivePrototypeFacts>) -> (b: bool)
    ensures
        b == live_usable(live@),
{
    let mut i: usize = 0;
    while i < live.len()
        invariant
            i <= live@.len(),
            forall|j: int| 0 <= j < i ==> live_ok(#[trigger] live@[j]),
            forall|a: int, b: int| 0 <= a < b < i ==> (#[trigger] live@[a]).identity_id@ != (#[trigger] live@[b]).identity_id@,
        decreases live@.len() - i,
    {
        let l = &live[i];
        if crate::text::is_blank(l.identity_id.as_str()) || crate::text::is_blank(l.display_name.as_str())
            || !l.embedding_ok || l.sample_count == 0 {
            assert(!live_ok(live@[i as int]));
            return false;
        }
        let mut j: usize = 0;
        while j < i
            invariant
                j <= i < live@.len(),
                *l == live@[i as int],
                forall|b: int| 0 <= b < j ==> (#[trigger] live@[b]).identity_id@ != live@[i as int].identity_id@,
            decreases i - j,
        {
            if crate::text::str_eq(live[j].identity_id.as_str(), l.identity_id.as_str()) {
                assert(live@[j as int].identity_id@ == live@[i as int].identity_id@);
                return false;
            }
            j = j + 1;
        }
        i = i + 1;
    }
    true
}

/// The live prototype of an identity, if any.
fn live_of(live: &Vec<LivePrototypeFacts>, id: &str) -> (r: Option<usize>)
    ensures
        match r {
            Some(j) => j < live@.len() && live@[j as int].identity_id@ == id@,
            None => forall|j: int| 0 <= j < live@.len() ==> (#[trigger] live@[j]).identity_id@ != id@,
        },
{
    let mut j: usize = 0;
    while j < live.len()
        invariant
            j <= live@.len(),
            forall|b: int| 0 <= b < j ==> (#[trigger] live@[b]).identity_id@ != id@,
        decreases live@.len() - j,
    {
        if crate::text::str_eq(live[j].identity_id.as_str(), id) {
            return Some(j);
        }
        j = j + 1;
    }
    None
}

/// Whether the artifact holds a prototype of this identity.
fn in_artifact_exec(ps: &Vec<PrototypeFacts>, id: &str) -> (b: bool)
    ensures
        b == in_artifact(ps@, id@),
{
    let mut t: usize = 0;
    while t < ps.len()
        invariant
            t <= ps@.len(),
            forall|q: int| 0 <= q < t ==> #[trigger] identity_text(ps@[q]) != Some(id@),
        decreases ps@.len() - t,
    {
        let same = match &ps[t].identity_id {
            Some(x) => !crate::text::is_blank(x.as_str()) && crate::text::str_eq(x.as_str(), id),
            None => false,
        };
        if same {
            assert(identity_text(ps@[t as int]) == Some(id@));
            return true;
        }
        t = t + 1;
    }
    false
}

/// Merge the live prototypes into a trained artifact, keeping everything
/// else of the artifact (its calibration) as it is: the plan, or nothing
/// when the artifact is to stay untouched.
pub fn merge_plan(a: &ArtifactFacts, live: &Vec<LivePrototypeFacts>) -> (r: Option<MergePlan>)
    ensures
        r is None <==> (live@.len() == 0 || artifact_error(*a) is Some || !live_usable(live@)),
        r matches Some(plan) ==> a.prototypes is Some && merge_plan_ok(a.prototypes->0@, live@, plan),
{
    if live.len() == 0 {
        return None;
    }
    if validate_training_artifact(a).is_err() {
        return None;
    }
    if !live_checked(live) {
        return None;
    }
    let ps = match &a.prototypes {
        Some(ps) => ps,
        None => return None,
    };
    let mut existing: Vec<PrototypeSource> = Vec::new();
    let mut t: usize = 0;
    while t < ps.len()
        invariant
            t <= ps@.len(),
            existing@.len() == t,
            forall|q: int| 0 <= q < t ==> source_ok(#[trigger] existing@[q], live@, identity_text(ps@[q])),
        decreases ps@.len() - t,
    {
        let src = match &ps[t].identity_id {
            Some(x) => if crate::text::is_blank(x.as_str()) {
                PrototypeSource::Kept
            } else {
                match live_of(live, x.as_str()) {
                    Some(j) => PrototypeSource::Live(j),
                    None => PrototypeSource::Kept,
                }
            },
            None => PrototypeSource::Kept,
        };
        proof {
            if src == PrototypeSource::Kept {
                assert forall|j: int| 0 <= j < live@.len() implies Some((#[trigger] live@[j]).identity_id@) != identity_text(ps@[t as int]) by {
                    if identity_text(ps@[t as int]) is Some {
                        assert(ps@[t as int].identity_id is Some);
                    }
                }
                assert(no_live_of(live@, identity_text(ps@[t as int])));
            }
            assert(source_ok(src, live@, identity_text(ps@[t as int])));
        }
        existing.push(src);
        t = t + 1;
    }
    let mut appended: Vec<usize> = Vec::new();
    let mut j: usize = 0;
    while j < live.len()
        invariant
            j <= live@.len(),
            forall|k: int| 0 <= k < appended@.len() ==> (#[trigger] appended@[k]) < j
                && !in_artifact(ps@, live@[appended@[k] as int].identity_id@),
            forall|i: int| 0 <= i < j && !in_artifact(ps@, (#[trigger] live@[i]).identity_id@) ==> appended@.contains(i as usize),
            forall|k: int, l: int| 0 <= k < l < appended@.len() ==> crate::order::seq_less(
                live@[(#[trigger] appended@[k]) as int].identity_id@,
                live@[(#[trigger] appended@[l]) as int].identity_id@,
            ),
            live_usable(live@),
        decreases live@.len() - j,
    {
        if !in_artifact_exec(ps, live[j].identity_id.as_str()) {
            let xid = live[j].identity_id.as_str();
            let mut p: usize = 0;
            while p < appended.len() && crate::order::less_exec(live[appended[p]].identity_id.as_str(), xid)
                invariant
                    p <= appended@.len(),
                    j < live@.len(),
                    forall|k: int| 0 <= k < appended@.len() ==> (#[trigger] appended@[k]) < j,
                    forall|k: int| 0 <= k < p ==> crate::order::seq_less(live@[(#[trigger] appended@[k]) as int].identity_id@, xid@),
                decreases appended@.len() - p,
            {
                p = p + 1;
            }
            let ghost before = appended@;
            let ghost x = live@[j as int].identity_id@;
            proof {
                assert forall|k: int| p <= k < before.len() implies crate::order::seq_less(x, live@[(#[trigger] before[k]) as int].identity_id@) by {
                    let y = live@[before[k] as int].identity_id@;
                    let yp = live@[before[p as int] as int].identity_id@;
                    crate::order::lemma_trichotomy(yp, x);
                    assert(before[p as int] != j);
                    assert(yp != x);
                    if k > p {
                        crate::order::lemma_transitive(x, yp, y);
                    }
                }
            }
            appended.insert(p, j);
            proof {
                assert(appended@ == before.insert(p as int, j));
                assert forall|k: int, l: int| 0 <= k < l < appended@.len() implies crate::order::seq_less(
                    live@[(#[trigger] appended@[k]) as int].identity_id@,
                    live@[(#[trigger] appended@[l]) as int].identity_id@,
                ) by {
                    if k < p && l == p {
                        assert(appended@[k] == before[k]);
                    } else if k < p && l > p {
                        assert(appended@[k] == before[k]);
                        assert(appended@[l] == before[l - 1]);
                        crate::order::lemma_transitive(live@[before[k] as int].identity_id@, x, live@[before[l - 1] as int].identity_id@);
                    } else if k == p {
                        assert(appended@[l] == before[l - 1]);
                    } else if k > p {
                        assert(appended@[k] == before[k - 1]);
                        assert(appended@[l] == before[l - 1]);
                    } else {
                        assert(appended@[k] == before[k]);
                        assert(appended@[l] == before[l]);
                    }
                }
                assert forall|i: int| 0 <= i < j + 1 && !in_artifact(ps@, (#[trigger] live@[i]).identity_id@) implies appended@.contains(i as usize) by {
                    if i < j {
                        let w = choose|w: int| 0 <= w < before.len() && before[w] == i as usize;
                        if w < p {
                            assert(appended@[w] == i as usize);
                        } else {
                            assert(appended@[w + 1] == i as usize);
                        }
                    } else {
                        assert(appended@[p as int] == j);
                    }
                }
                assert forall|k: int| 0 <= k < appended@.len() implies (#[trigger] appended@[k]) < j + 1
                    && !in_artifact(ps@, live@[appended@[k] as int].identity_id@) by {
                    if k < p {
                        assert(appended@[k] == before[k]);
                    } else if k > p {
                        assert(appended@[k] == before[k - 1]);
                    }
                }
            }
        }
        j = j + 1;
    }
    Some(MergePlan { existing, appended })
}

/// The answer of a training run, as far as its JSON gave the fields.
#[derive(Debug, Clone)]
pub struct TrainedModelFacts {
    pub artifact: Option<ArtifactFacts>,
    pub metrics_present: bool,
    pub metrics_is_object: bool,
    /// `sample_count` of the answer, else of its metrics; `None` when
    /// neither is a non-negative integer.
    pub sample_count: Option<u64>,
    pub class_count: Option<u64>,
    /// `algorithm` of the answer, else of the artifact.
    pub algorithm: Option<String>,
    pub eligible_for_activation: Option<bool>,
    /// `None` without warnings; each entry is `None` when it is not text.
    pub warnings: Option<Option<Vec<Option<String>>>>,
}

pub open spec fn warning_error(ws: Seq<Option<String>>, i: int) -> Option<Seq<char>>
    decreases ws.len() - i,
{
    if i < 0 || i >= ws.len() {
        None
    } else if ws[i] matches Some(w) && trim(w@).len() > 0 {
        warning_error(ws, i + 1)
    } else {
        Some(indexed("warnings["@, i, "] 必须是非空字符串"@))
    }
}

/// Why an answer cannot be saved, in the order the checks run: the
/// artifact, the metrics, the counts (which must equal the local readiness),
/// the algorithm, the activation flag (never set while not ready), the
/// warnings.
pub open spec fn trained_model_error(m: TrainedModelFacts, readiness: TrainingReadiness) -> Option<Seq<char>> {
    match m.artifact {
        None => Some("personal_model.train 缺少 artifact"@),
        Some(a) => if artifact_error(a) is Some {
            artifact_error(a)
        } else if !m.metrics_present {
            Some("personal_model.train 缺少 metrics"@)
        } else if !m.metrics_is_object {
            Some("personal_model.train.metrics 必须是对象"@)
        } else if m.sample_count is None {
            Some("sample_count 必须是非负整数"@)
        } else if m.class_count is None {
            Some("class_count 必须是非负整数"@)
        } else if m.sample_count->0 != readiness.verified_sample_count {
            Some("Worker 返回 sample_count="@ + decimal(m.sample_count->0 as nat) + "，当前已验证样本为 "@ + decimal(readiness.verified_sample_count as nat))
        } else if m.class_count->0 != readiness.verified_class_count {
            Some("Worker 返回 class_count="@ + decimal(m.class_count->0 as nat) + "，当前已验证分类为 "@ + decimal(readiness.verified_class_count as nat))
        } else if !(m.algorithm matches Some(t) && trim(t@).len() > 0) {
            Some("personal_model.train 缺少非空 algorithm"@)
        } else if m.eligible_for_activation is None {
            Some("personal_model.train 缺少 eligible_for_activation 布尔值"@)
        } else if m.eligible_for_activation == Some(true) && !readiness.ready {
            Some("Worker 在本地 readiness 未达标时返回可激活模型"@)
        } else {
            match m.warnings {
                None => None,
                Some(None) => Some("warnings 必须是字符串数组"@),
                Some(Some(ws)) => warning_error(ws@, 0),
            }
        }
    }
}

pub fn check_trained_model(m: &TrainedModelFacts, readiness: &TrainingReadiness) -> (r: Result<(), String>)
    ensures
        match trained_model_error(*m, *readiness) {
            Some(e) => r matches Err(x) && x@ == e,
            None => r is Ok,
        },
{
    let a = match &m.artifact {
        None => return Err(owned("personal_model.train 缺少 artifact")),
        Some(a) => a,
    };
    match validate_training_artifact(a) {
        Err(e) => return Err(e),
        Ok(()) => {},
    }
    if !m.metrics_present {
        return Err(owned("personal_model.train 缺少 metrics"));
    }
    if !m.metrics_is_object {
        return Err(owned("personal_model.train.metrics 必须是对象"));
    }
    let samples = match m.sample_count {
        None => return Err(owned("sample_count 必须是非负整数")),
        Some(c) => c,
    };
    let classes = match m.class_count {
        None => return Err(owned("class_count 必须是非负整数")),
        Some(c) => c,
    };
    if samples != readiness.verified_sample_count as u64 {
        let a1 = concat("Worker 返回 sample_count=", decimal_string(samples).as_str());
        let a2 = concat(a1.as_str(), "，当前已验证样本为 ");
        return Err(concat(a2.as_str(), decimal_string(readiness.verified_sample_count as u64).as_str()));
    }
    if classes != readiness.verified_class_count as u64 {
        let a1 = concat("Worker 返回 class_count=", decimal_string(classes).as_str());
        let a2 = concat(a1.as_str(), "，当前已验证分类为 ");
        return Err(concat(a2.as_str(), decimal_string(readiness.verified_class_count as u64).as_str()));
    }
    let algorithm_ok = match &m.algorithm {
        Some(t) => !crate::text::is_blank(t.as_str()),
        None => false,
    };
    if !algorithm_ok {
        return Err(owned("personal_model.train 缺少非空 algorithm"));
    }
    let eligible = match m.eligible_for_activation {
        None => return Err(owned("personal_model.train 缺少 eligible_for_activation 布尔值")),
        Some(e) => e,
    };
    if eligible && !readiness.ready {
        return Err(owned("Worker 在本地 readiness 未达标时返回可激活模型"));
    }
    match &m.warnings {
        None => Ok(()),
        Some(None) => Err(owned("warnings 必须是字符串数组")),
        Some(Some(ws)) => {
            let mut i: usize = 0;
            while i < ws.len()
                invariant
                    i <= ws@.len(),
                    trained_model_error(*m, *readiness) == warning_error(ws@, 0),
                    warning_error(ws@, 0) == warning_error(ws@, i as int),
                decreases ws@.len() - i,
            {
                let ok = match &ws[i] {
                    Some(w) => !crate::text::is_blank(w.as_str()),
                    None => false,
                };
                if !ok {
                    return Err(indexed_message("warnings[", i, "] 必须是非空字符串"));
                }
                i = i + 1;
            }
            Ok(())
        },
    }
}

} // verus!
