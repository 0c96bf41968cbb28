//! Manual annotations of images: which images and labels are accepted, how a
//! batch of boxes gets its identities, and how the worker's embeddings are
//! matched back to the boxes.
use vstd::prelude::*;
use crate::ipc::{core_error, IpcError};
use crate::library::{is_preview_image, is_supported_preview_image, WorkerFailure};
use crate::result_store::{to_lowercase, unicode_lowercase};
use crate::text::{concat, decimal, decimal_string, owned, string_views, to_chars, trim, trim_chars, trim_str};

verus! {

pub const MAX_ANNOTATIONS_PER_IMAGE: usize = 100;

#[derive(Debug, Clone)]
pub struct AnnotationPathError {
    pub code: String,
    pub message: String,
    pub detail: Option<String>,
}

/// The image of an annotation must be an absolute path to an existing plain
/// file of a previewable format; the canonical path is returned. `probe` is
/// what the file system said: `None` when the path is not absolute; else the
/// canonical path and whether it is a plain file, or why it could not be
/// resolved.
pub fn validate_annotation_image_path(probe: Option<Result<(String, bool), String>>) -> (r: Result<String, AnnotationPathError>)
    ensures
        match probe {
            None => r matches Err(e) && e.code@ == "INVALID_IMAGE_PATH"@ && e.message@ == "图片路径必须是绝对路径。"@ && e.detail is None,
            Some(Err(d)) => r matches Err(e) && e.code@ == "INVALID_IMAGE_PATH"@ && e.message@ == "无法访问指定图片。"@ && e.detail == Some(d),
            Some(Ok((file, is_file))) => if !is_file {
                r matches Err(e) && e.code@ == "INVALID_IMAGE_PATH"@ && e.message@ == "指定路径不是普通图片文件。"@ && e.detail is None
            } else if !is_preview_image(file@) {
                r matches Err(e) && e.code@ == "UNSUPPORTED_IMAGE_FORMAT"@ && e.message@ == "当前仅支持 PNG、JPG、JPEG、WEBP 和 GIF 图片。"@ && e.detail is None
            } else {
                r == Ok::<String, AnnotationPathError>(file)
            },
        },
{
    match probe {
        None => Err(AnnotationPathError {
            code: owned("INVALID_IMAGE_PATH"),
            message: owned("图片路径必须是绝对路径。"),
            detail: None,
        }),
        Some(Err(d)) => Err(AnnotationPathError {
            code: owned("INVALID_IMAGE_PATH"),
            message: owned("无法访问指定图片。"),
            detail: Some(d),
        }),
        Some(Ok((file, is_file))) => {
            if !is_file {
                Err(AnnotationPathError {
                    code: owned("INVALID_IMAGE_PATH"),
                    message: owned("指定路径不是普通图片文件。"),
                    detail: None,
                })
            } else if !is_supported_preview_image(file.as_str()) {
                Err(AnnotationPathError {
                    code: owned("UNSUPPORTED_IMAGE_FORMAT"),
                    message: owned("当前仅支持 PNG、JPG、JPEG、WEBP 和 GIF 图片。"),
                    detail: None,
                })
            } else {
                Ok(file)
            }
        },
    }
}

/// Width and height must each be between 1 and 100000.
pub fn validate_image_size(image_size: [u32; 2]) -> (r: Result<(), String>)
    ensures
        r is Ok <==> (1 <= image_size[0] <= 100_000 && 1 <= image_size[1] <= 100_000),
        r matches Err(m) ==> m@ == "image_size 必须是 1 到 100000 之间的正整数宽高。"@,
{
    if image_size[0] == 0 || image_size[1] == 0 || image_size[0] > 100_000 || image_size[1] > 100_000 {
        Err(owned("image_size 必须是 1 到 100000 之间的正整数宽高。"))
    } else {
        Ok(())
    }
}

/// `char::is_control`: the Unicode control characters (category Cc).
pub open spec fn is_control(c: char) -> bool {
    (c as u32) <= 0x1f || (0x7f <= (c as u32) && (c as u32) <= 0x9f)
}

/// A label is 1 to 256 characters once trimmed, with no control character.
pub open spec fn label_error(label: Seq<char>) -> Option<Seq<char>> {
    let t = trim(label);
    if t.len() == 0 || t.len() > 256 {
        Some("label_name 必须是 1 到 256 个字符。"@)
    } else if exists|i: int| 0 <= i < t.len() && is_control(#[trigger] t[i]) {
        Some("label_name 不能包含控制字符。"@)
    } else {
        None
    }
}

/// A hexadecimal digit, in either case.
pub open spec fn is_hex_char(c: char) -> bool {
    ('0' <= c && c <= '9') || ('a' <= c && c <= 'f') || ('A' <= c && c <= 'F')
}

/// 36 characters: hexadecimal digits with hyphens at 8, 13, 18 and 23.
pub open spec fn is_hyphenated_uuid(s: Seq<char>) -> bool {
    &&& s.len() == 36
    &&& forall|i: int|
        0 <= i < 36 ==> if i == 8 || i == 13 || i == 18 || i == 23 {
            s[i] == '-'
        } else {
            is_hex_char(#[trigger] s[i])
        }
}

/// The texts `uuid::Uuid::parse_str` accepts: 32 hexadecimal digits; the
/// hyphenated form; the hyphenated form in braces; or the hyphenated form
/// after `urn:uuid:` in any ASCII case.
pub open spec fn is_uuid_text(s: Seq<char>) -> bool {
    ||| (s.len() == 32 && forall|i: int| 0 <= i < 32 ==> is_hex_char(#[trigger] s[i]))
    ||| is_hyphenated_uuid(s)
    ||| (s.len() == 38 && s[0] == '{' && s[37] == '}' && is_hyphenated_uuid(s.subrange(1, 37)))
    ||| (s.len() == 45 && crate::text::lower_ascii(s.subrange(0, 9)) == "urn:uuid:"@ && is_hyphenated_uuid(
        s.subrange(9, 45),
    ))
}

/// `uuid::Uuid::parse_str(s).is_ok()`: the uuid crate's parser (`try_parse`
/// in its parser.rs) accepts exactly the four forms of [`is_uuid_text`]; the
/// hexadecimal check is its `decode_hex32`.
#[verifier::external_body]
fn uuid_parses(s: &str) -> (b: bool)
    ensures
        b == is_uuid_text(s@),
{
    uuid::Uuid::parse_str(s).is_ok()
}

/// The checks of one box other than its coordinates, in order: label,
/// source (`model` or `manual`), then the ids, which must be UUIDs.
pub open spec fn annotation_input_error(
    label: Seq<char>,
    source: Seq<char>,
    id: Option<Seq<char>>,
    identity_id: Option<Seq<char>>,
) -> Option<Seq<char>> {
    if label_error(label) is Some {
        label_error(label)
    } else if !(source == "model"@ || source == "manual"@) {
        Some("source 必须是 model 或 manual。"@)
    } else if id matches Some(i) && !is_uuid_text(i) {
        Some("annotation id 必须是 UUID。"@)
    } else if identity_id matches Some(i) && !is_uuid_text(i) {
        Some("identity_id 必须是 UUID。"@)
    } else {
        None
    }
}

pub open spec fn opt_view(s: Option<String>) -> Option<Seq<char>> {
    match s {
        Some(v) => Some(v@),
        None => None,
    }
}

pub fn validate_annotation_input(
    label: &str,
    source: &str,
    id: &Option<String>,
    identity_id: &Option<String>,
) -> (r: Result<(), String>)
    ensures
        match annotation_input_error(label@, source@, opt_view(*id), opt_view(*identity_id)) {
            Some(m) => r matches Err(e) && e@ == m,
            None => r is Ok,
        },
{
    let t = trim_chars(to_chars(label).as_slice());
    if t.len() == 0 || t.len() > 256 {
        return Err(owned("label_name 必须是 1 到 256 个字符。"));
    }
    let mut i: usize = 0;
    while i < t.len()
        invariant
            i <= t@.len(),
            t@ == trim(label@),
            0 < t@.len() <= 256,
            forall|k: int| 0 <= k < i ==> !is_control(#[trigger] t@[k]),
        decreases t@.len() - i,
    {
        let c = t[i] as u32;
        if c <= 0x1f || (0x7f <= c && c <= 0x9f) {
            assert(is_control(t@[i as int]));
            return Err(owned("label_name 不能包含控制字符。"));
        }
        i = i + 1;
    }
    if !(crate::text::str_eq(source, "model") || crate::text::str_eq(source, "manual")) {
        return Err(owned("source 必须是 model 或 manual。"));
    }
    match id {
        Some(v) => if !uuid_parses(v.as_str()) {
            return Err(owned("annotation id 必须是 UUID。"));
        },
        None => {},
    }
    match identity_id {
        Some(v) => if !uuid_parses(v.as_str()) {
            return Err(owned("identity_id 必须是 UUID。"));
        },
        None => {},
    }
    Ok(())
}

/// The stored form of a label: trimmed.
pub fn normalize_label_name(value: &str) -> (r: String)
    ensures
        r@ == trim(value@),
{
    trim_str(value)
}

/// A worker refusal keeps its code and message; any other failure means the
/// embeddings could not be extracted and nothing was saved.
pub fn worker_error_as_core(request_id: &str, error: WorkerFailure) -> (r: IpcError)
    ensures
        r.request_id@ == request_id@,
        match error {
            WorkerFailure::Response { code, message } => r.code@ == code@ && r.message@ == message@
                && r.detail is None && !r.retryable,
            WorkerFailure::Other { detail } => r.code@ == "EMBEDDING_FAILED"@ && r.message@
                == "无法提取人工标注的个人特征，标注未保存。"@ && r.detail == Some(detail) && r.retryable,
        },
{
    match error {
        WorkerFailure::Response { code, message } => core_error(
            request_id,
            code.as_str(),
            message.as_str(),
            None,
            false,
        ),
        WorkerFailure::Other { detail } => core_error(
            request_id,
            "EMBEDDING_FAILED",
            "无法提取人工标注的个人特征，标注未保存。",
            Some(detail),
            true,
        ),
    }
}

/// A batch holds at most `MAX_ANNOTATIONS_PER_IMAGE` boxes.
pub fn check_annotation_count(count: usize) -> (r: Result<(), String>)
    ensures
        r is Ok <==> count <= MAX_ANNOTATIONS_PER_IMAGE,
        r matches Err(m) ==> m@ == "单张图片最多保存 "@ + decimal(MAX_ANNOTATIONS_PER_IMAGE as nat) + " 个识别框。"@,
{
    if count > MAX_ANNOTATIONS_PER_IMAGE {
        let d = decimal_string(MAX_ANNOTATIONS_PER_IMAGE as u64);
        Err(crate::text::concat3("单张图片最多保存 ", d.as_str(), " 个识别框。"))
    } else {
        Ok(())
    }
}

/// Key and identity pairs in plain values.
pub open spec fn pair_views(v: Seq<(String, String)>) -> Seq<(Seq<char>, Seq<char>)> {
    v.map_values(|p: (String, String)| (p.0@, p.1@))
}

/// The identity last fixed for `name`, if any.
pub open spec fn identity_in(names: Seq<(Seq<char>, Seq<char>)>, name: Seq<char>) -> Option<Seq<char>>
    decreases names.len(),
{
    if names.len() == 0 {
        None
    } else if names.last().0 == name {
        Some(names.last().1)
    } else {
        identity_in(names.drop_last(), name)
    }
}

/// The identity last paired with `name` in `pairs`.
pub fn lookup_identity(pairs: &Vec<(String, String)>, name: &str) -> (r: Option<String>)
    ensures
        opt_view(r) == identity_in(pair_views(pairs@), name@),
{
    let ghost pv = pair_views(pairs@);
    let mut i: usize = pairs.len();
    assert(pv.subrange(0, pv.len() as int) =~= pv);
    while i > 0
        invariant
            i <= pairs@.len(),
            pv == pair_views(pairs@),
            identity_in(pv, name@) == identity_in(pv.subrange(0, i as int), name@),
        decreases i,
    {
        let ghost sub = pv.subrange(0, i as int);
        assert(sub.drop_last() =~= pv.subrange(0, i - 1));
        assert(sub.last() == pv[i - 1]);
        if crate::text::str_eq(pairs[i - 1].0.as_str(), name) {
            return Some(pairs[i - 1].1.clone());
        }
        i = i - 1;
    }
    None
}

/// The running state of a batch of boxes being turned into records.
pub struct AnnotationBatch {
    /// The ids taken so far.
    pub ids: Vec<String>,
    /// Lower-cased label and identity, in the order they were fixed.
    pub names: Vec<(String, String)>,
}

/// How the identity of one box is settled.
#[derive(Debug, Clone)]
pub enum IdentityStep {
    /// Use this identity (given with the box, or already chosen for the label).
    Use(String),
    /// The box names another identity than an earlier box of the same label.
    Conflict,
    /// Neither given nor chosen yet: ask the database, else mint one.
    Lookup,
}

impl AnnotationBatch {
    pub fn new() -> (r: Self)
        ensures
            r.ids@.len() == 0,
            r.names@.len() == 0,
    {
        AnnotationBatch { ids: Vec::new(), names: Vec::new() }
    }

    /// Take an id for a box; each id may occur once per batch.
    pub fn claim_id(&mut self, id: String) -> (r: Result<(), String>)
        ensures
            string_views(old(self).ids@).contains(id@) ==> (r matches Err(m) && m@ == "annotation id 重复: "@ + id@ && final(self).ids@ == old(self).ids@),
            !string_views(old(self).ids@).contains(id@) ==> r is Ok && final(self).ids@ == old(self).ids@.push(id),
            final(self).names@ == old(self).names@,
    {
        let mut i: usize = 0;
        while i < self.ids.len()
            invariant
                i <= self.ids@.len(),
                forall|k: int| 0 <= k < i ==> #[trigger] self.ids@[k]@ != id@,
            decreases self.ids@.len() - i,
        {
            if crate::text::str_eq(self.ids[i].as_str(), id.as_str()) {
                assert(string_views(self.ids@)[i as int] == id@);
                return Err(concat("annotation id 重复: ", id.as_str()));
            }
            i = i + 1;
        }
        proof {
            if string_views(self.ids@).contains(id@) {
                let k = choose|k: int| 0 <= k < string_views(self.ids@).len() && string_views(self.ids@)[k] == id@;
                assert(self.ids@[k]@ == id@);
            }
        }
        self.ids.push(id);
        Ok(())
    }

    /// Settle the identity of a box with the lower-cased label `name`.
    pub fn identity_step(&self, name: &str, given: Option<String>) -> (r: IdentityStep)
        ensures
            match given {
                Some(g) => match identity_in(pair_views(self.names@), name@) {
                    Some(p) => if p == g@ {
                        r matches IdentityStep::Use(u) && u == g
                    } else {
                        r is Conflict
                    },
                    None => r matches IdentityStep::Use(u) && u == g,
                },
                None => match identity_in(pair_views(self.names@), name@) {
                    Some(p) => r matches IdentityStep::Use(u) && u@ == p,
                    None => r is Lookup,
                },
            },
    {
        let known = lookup_identity(&self.names, name);
        match given {
            Some(g) => match known {
                Some(p) => if crate::text::str_eq(p.as_str(), g.as_str()) {
                    IdentityStep::Use(g)
                } else {
                    IdentityStep::Conflict
                },
                None => IdentityStep::Use(g),
            },
            None => match known {
                Some(p) => IdentityStep::Use(p),
                None => IdentityStep::Lookup,
            },
        }
    }

    /// Fix the identity of a label for the rest of the batch.
    pub fn remember(&mut self, name: String, identity: String)
        ensures
            final(self).names@ == old(self).names@.push((name, identity)),
            pair_views(final(self).names@) == pair_views(old(self).names@).push((name@, identity@)),
            final(self).ids@ == old(self).ids@,
    {
        self.names.push((name, identity));
        assert(pair_views(self.names@) =~= pair_views(old(self).names@).push((self.names@.last().0@, self.names@.last().1@)));
    }
}

/// The key by which labels are matched: the trimmed label in lower case.
pub fn label_key(label: &str) -> (r: String)
    ensures
        r@ == unicode_lowercase(trim(label@)),
{
    let t = trim_str(label);
    to_lowercase(t.as_str())
}

/// The refusal when one batch gives one label two identities.
pub fn identity_conflict_message(label: &str) -> (r: String)
    ensures
        r@ == "同一批次中同名分类对应了多个 identity_id: "@ + label@,
{
    concat("同一批次中同名分类对应了多个 identity_id: ", label)
}

/// One box as it was sent, without its coordinates; `bbox_error` is what
/// the check of the coordinates said.
#[derive(Debug, Clone)]
pub struct AnnotationDraft {
    pub id: Option<String>,
    pub identity_id: Option<String>,
    pub label_name: String,
    pub source: String,
    pub manually_adjusted: bool,
    pub bbox_error: Option<String>,
}

/// Why a box is refused on its own: its label, source and ids, then its
/// coordinates.
pub open spec fn draft_error(d: AnnotationDraft) -> Option<Seq<char>> {
    match annotation_input_error(d.label_name@, d.source@, opt_view(d.id), opt_view(d.identity_id)) {
        Some(m) => Some(m),
        None => opt_view(d.bbox_error),
    }
}

/// A record in plain values: id, identity, label, source, adjusted.
pub open spec fn record_view(r: RecordFacts) -> (Seq<char>, Seq<char>, Seq<char>, Seq<char>, bool) {
    (r.id@, r.identity_id@, r.label_name@, r.source@, r.manually_adjusted)
}

pub open spec fn record_views(v: Seq<RecordFacts>) -> Seq<(Seq<char>, Seq<char>, Seq<char>, Seq<char>, bool)> {
    v.map_values(|r: RecordFacts| record_view(r))
}

/// The ids taken, the identities fixed by key, and the records so far.
pub open spec fn batch_state(
    ids: Seq<Seq<char>>,
    names: Seq<(Seq<char>, Seq<char>)>,
    records: Seq<(Seq<char>, Seq<char>, Seq<char>, Seq<char>, bool)>,
) -> (Seq<Seq<char>>, Seq<(Seq<char>, Seq<char>)>, Seq<(Seq<char>, Seq<char>, Seq<char>, Seq<char>, bool)>) {
    (ids, names, records)
}

/// One box of a batch. Its id is the given one, else `fresh_id`; an id may
/// not repeat. Its identity is the given one (which must agree with what
/// the batch fixed for the same label), else the one fixed for the label,
/// else the stored one, else `fresh_identity`.
pub open spec fn box_step(
    d: AnnotationDraft,
    stored: Seq<(Seq<char>, Seq<char>)>,
    fresh_id: Seq<char>,
    fresh_identity: Seq<char>,
    st: (Seq<Seq<char>>, Seq<(Seq<char>, Seq<char>)>, Seq<(Seq<char>, Seq<char>, Seq<char>, Seq<char>, bool)>),
) -> Result<(Seq<Seq<char>>, Seq<(Seq<char>, Seq<char>)>, Seq<(Seq<char>, Seq<char>, Seq<char>, Seq<char>, bool)>), Seq<char>> {
    let ids = st.0;
    let names = st.1;
    let recs = st.2;
    let id = match d.id {
        Some(v) => v@,
        None => fresh_id,
    };
    let label = trim(d.label_name@);
    let key = unicode_lowercase(label);
    if draft_error(d) is Some {
        Err(draft_error(d)->0)
    } else if ids.contains(id) {
        Err("annotation id 重复: "@ + id)
    } else {
        match d.identity_id {
            Some(g) => if identity_in(names, key) is Some && identity_in(names, key)->0 != g@ {
                Err("同一批次中同名分类对应了多个 identity_id: "@ + label)
            } else {
                Ok(batch_state(ids.push(id), names.push((key, g@)), recs.push((id, g@, label, d.source@, d.manually_adjusted))))
            },
            None => match identity_in(names, key) {
                Some(p) => Ok(batch_state(ids.push(id), names, recs.push((id, p, label, d.source@, d.manually_adjusted)))),
                None => {
                    let ident = match identity_in(stored, key) {
                        Some(s) => s,
                        None => fresh_identity,
                    };
                    Ok(batch_state(ids.push(id), names.push((key, ident)), recs.push((id, ident, label, d.source@, d.manually_adjusted))))
                },
            },
        }
    }
}

/// The batch after its first `n` boxes, or the first refusal.
pub open spec fn batch_run(
    drafts: Seq<AnnotationDraft>,
    stored: Seq<(Seq<char>, Seq<char>)>,
    fresh_ids: Seq<Seq<char>>,
    fresh_identities: Seq<Seq<char>>,
    n: nat,
) -> Result<(Seq<Seq<char>>, Seq<(Seq<char>, Seq<char>)>, Seq<(Seq<char>, Seq<char>, Seq<char>, Seq<char>, bool)>), Seq<char>>
    decreases n,
{
    if n == 0 {
        Ok(batch_state(Seq::empty(), Seq::empty(), Seq::empty()))
    } else {
        match batch_run(drafts, stored, fresh_ids, fresh_identities, (n - 1) as nat) {
            Err(m) => Err(m),
            Ok(st) => box_step(drafts[n - 1], stored, fresh_ids[n - 1], fresh_identities[n - 1], st),
        }
    }
}

/// What a batch comes to: the refusal, or exactly the records of the run.
pub open spec fn batch_outcome(
    drafts: Seq<AnnotationDraft>,
    stored: Seq<(Seq<char>, Seq<char>)>,
    fresh_ids: Seq<Seq<char>>,
    fresh_identities: Seq<Seq<char>>,
    r: Result<Vec<RecordFacts>, String>,
) -> bool {
    match batch_run(drafts, stored, fresh_ids, fresh_identities, drafts.len()) {
        Err(m) => r matches Err(e) && e@ == m,
        Ok(st) => r matches Ok(v) && record_views(v@) == st.2,
    }
}

proof fn lemma_refusal_sticks(
    drafts: Seq<AnnotationDraft>,
    stored: Seq<(Seq<char>, Seq<char>)>,
    fresh_ids: Seq<Seq<char>>,
    fresh_identities: Seq<Seq<char>>,
    i: nat,
    n: nat,
)
    requires
        i <= n,
        batch_run(drafts, stored, fresh_ids, fresh_identities, i) is Err,
    ensures
        batch_run(drafts, stored, fresh_ids, fresh_identities, n) == batch_run(drafts, stored, fresh_ids, fresh_identities, i),
    decreases n - i,
{
    if i < n {
        lemma_refusal_sticks(drafts, stored, fresh_ids, fresh_identities, i, (n - 1) as nat);
    }
}

proof fn lemma_identity_in_push(names: Seq<(Seq<char>, Seq<char>)>, k: Seq<char>, v: Seq<char>, key: Seq<char>)
    ensures
        identity_in(names.push((k, v)), key) == (if key == k { Some(v) } else { identity_in(names, key) }),
{
    assert(names.push((k, v)).drop_last() =~= names);
}

/// Every record of a run so far has the identity the batch fixed for its
/// label's key.
proof fn lemma_batch_consistent(
    drafts: Seq<AnnotationDraft>,
    stored: Seq<(Seq<char>, Seq<char>)>,
    fresh_ids: Seq<Seq<char>>,
    fresh_identities: Seq<Seq<char>>,
    n: nat,
)
    requires
        batch_run(drafts, stored, fresh_ids, fresh_identities, n) is Ok,
    ensures
        ({
            let st = batch_run(drafts, stored, fresh_ids, fresh_identities, n)->Ok_0;
            forall|i: int| 0 <= i < st.2.len() ==> identity_in(st.1, unicode_lowercase((#[trigger] st.2[i]).2)) == Some(st.2[i].1)
        }),
    decreases n,
{
    if n > 0 {
        let prev = batch_run(drafts, stored, fresh_ids, fresh_identities, (n - 1) as nat);
        assert(prev is Ok);
        lemma_batch_consistent(drafts, stored, fresh_ids, fresh_identities, (n - 1) as nat);
        let st0 = prev->Ok_0;
        let st = batch_run(drafts, stored, fresh_ids, fresh_identities, n)->Ok_0;
        let d = drafts[n - 1];
        let label = trim(d.label_name@);
        let key = unicode_lowercase(label);
        assert forall|i: int| 0 <= i < st.2.len() implies identity_in(st.1, unicode_lowercase((#[trigger] st.2[i]).2)) == Some(st.2[i].1) by {
            if i < st0.2.len() {
                assert(st.2[i] == st0.2[i]);
                let ki = unicode_lowercase(st0.2[i].2);
                if st.1 != st0.1 {
                    lemma_identity_in_push(st0.1, key, st.1.last().1, ki);
                    assert(st.1 == st0.1.push((key, st.1.last().1)));
                }
            } else {
                assert(st.2[i].2 == label);
                if st.1 != st0.1 {
                    lemma_identity_in_push(st0.1, key, st.1.last().1, key);
                    assert(st.1 == st0.1.push((key, st.1.last().1)));
                }
            }
        }
    }
}

/// Within one batch, boxes whose labels agree once trimmed and lower-cased
/// get one identity.
pub proof fn law_one_identity_per_label(
    drafts: Seq<AnnotationDraft>,
    stored: Seq<(Seq<char>, Seq<char>)>,
    fresh_ids: Seq<Seq<char>>,
    fresh_identities: Seq<Seq<char>>,
    i: int,
    j: int,
)
    requires
        batch_run(drafts, stored, fresh_ids, fresh_identities, drafts.len()) is Ok,
        0 <= i < batch_run(drafts, stored, fresh_ids, fresh_identities, drafts.len())->Ok_0.2.len(),
        0 <= j < batch_run(drafts, stored, fresh_ids, fresh_identities, drafts.len())->Ok_0.2.len(),
        unicode_lowercase(batch_run(drafts, stored, fresh_ids, fresh_identities, drafts.len())->Ok_0.2[i].2)
            == unicode_lowercase(batch_run(drafts, stored, fresh_ids, fresh_identities, drafts.len())->Ok_0.2[j].2),
    ensures
        batch_run(drafts, stored, fresh_ids, fresh_identities, drafts.len())->Ok_0.2[i].1
            == batch_run(drafts, stored, fresh_ids, fresh_identities, drafts.len())->Ok_0.2[j].1,
{
    lemma_batch_consistent(drafts, stored, fresh_ids, fresh_identities, drafts.len());
    let st = batch_run(drafts, stored, fresh_ids, fresh_identities, drafts.len())->Ok_0;
    assert(identity_in(st.1, unicode_lowercase(st.2[i].2)) == Some(st.2[i].1));
    assert(identity_in(st.1, unicode_lowercase(st.2[j].2)) == Some(st.2[j].1));
}

/// The refusal of a batch with more boxes than the worker takes.
pub open spec fn too_many_boxes_text() -> Seq<char> {
    "单张图片最多保存 "@ + decimal(MAX_ANNOTATIONS_PER_IMAGE as nat) + " 个识别框。"@
}

/// Turn a batch of boxes into records, with `fresh_ids[i]` and
/// `fresh_identities[i]` as the new id and new identity that box `i` would
/// take; `stored` pairs each lower-cased label already saved with its
/// identity.
pub fn build_annotation_records(
    drafts: &Vec<AnnotationDraft>,
    stored: &Vec<(String, String)>,
    fresh_ids: &Vec<String>,
    fresh_identities: &Vec<String>,
) -> (r: Result<Vec<RecordFacts>, String>)
    requires
        fresh_ids@.len() == drafts@.len(),
        fresh_identities@.len() == drafts@.len(),
    ensures
        drafts@.len() > MAX_ANNOTATIONS_PER_IMAGE ==> (r matches Err(m) && m@ == too_many_boxes_text()),
        drafts@.len() <= MAX_ANNOTATIONS_PER_IMAGE ==> batch_outcome(drafts@, pair_views(stored@), string_views(fresh_ids@), string_views(fresh_identities@), r),
{
    if let Err(m) = check_annotation_count(drafts.len()) {
        return Err(m);
    }
    let ghost sv = pair_views(stored@);
    let ghost fi = string_views(fresh_ids@);
    let ghost fd = string_views(fresh_identities@);
    let mut batch = AnnotationBatch::new();
    let mut records: Vec<RecordFacts> = Vec::new();
    let mut i: usize = 0;
    assert(string_views(batch.ids@) =~= Seq::<Seq<char>>::empty());
    assert(pair_views(batch.names@) =~= Seq::<(Seq<char>, Seq<char>)>::empty());
    assert(record_views(records@) =~= Seq::<(Seq<char>, Seq<char>, Seq<char>, Seq<char>, bool)>::empty());
    while i < drafts.len()
        invariant
            i <= drafts@.len(),
            fresh_ids@.len() == drafts@.len(),
            fresh_identities@.len() == drafts@.len(),
            sv == pair_views(stored@),
            fi == string_views(fresh_ids@),
            fd == string_views(fresh_identities@),
            drafts@.len() <= MAX_ANNOTATIONS_PER_IMAGE,
            batch_run(drafts@, sv, fi, fd, i as nat) == Ok::<_, Seq<char>>(batch_state(string_views(batch.ids@), pair_views(batch.names@), record_views(records@))),
        decreases drafts@.len() - i,
    {
        let d = &drafts[i];
        let ghost st = batch_state(string_views(batch.ids@), pair_views(batch.names@), record_views(records@));
        assert(batch_run(drafts@, sv, fi, fd, (i + 1) as nat) == box_step(*d, sv, fi[i as int], fd[i as int], st));
        if let Err(m) = validate_annotation_input(d.label_name.as_str(), d.source.as_str(), &d.id, &d.identity_id) {
            proof { lemma_refusal_sticks(drafts@, sv, fi, fd, (i + 1) as nat, drafts@.len()); }
            return Err(m);
        }
        if let Some(m) = &d.bbox_error {
            proof { lemma_refusal_sticks(drafts@, sv, fi, fd, (i + 1) as nat, drafts@.len()); }
            return Err(m.clone());
        }
        let id = match &d.id {
            Some(v) => v.clone(),
            None => fresh_ids[i].clone(),
        };
        let ghost old_ids = batch.ids@;
        match batch.claim_id(id.clone()) {
            Err(m) => {
                proof { lemma_refusal_sticks(drafts@, sv, fi, fd, (i + 1) as nat, drafts@.len()); }
                return Err(m);
            },
            Ok(()) => {},
        }
        assert(string_views(batch.ids@) =~= string_views(old_ids).push(id@));
        let label = normalize_label_name(d.label_name.as_str());
        let key = to_lowercase(label.as_str());
        let given = match &d.identity_id {
            Some(g) => Some(g.clone()),
            None => None,
        };
        let identity = match batch.identity_step(key.as_str(), given) {
            IdentityStep::Conflict => {
                proof { lemma_refusal_sticks(drafts@, sv, fi, fd, (i + 1) as nat, drafts@.len()); }
                return Err(identity_conflict_message(label.as_str()));
            },
            IdentityStep::Use(u) => {
                if d.identity_id.is_some() {
                    batch.remember(key.clone(), u.clone());
                }
                u
            },
            IdentityStep::Lookup => {
                let ident = match lookup_identity(stored, key.as_str()) {
                    Some(s) => s,
                    None => fresh_identities[i].clone(),
                };
                batch.remember(key.clone(), ident.clone());
                ident
            },
        };
        let rec = RecordFacts {
            id: id,
            identity_id: identity,
            label_name: label,
            source: d.source.clone(),
            manually_adjusted: d.manually_adjusted,
        };
        let ghost old_records = records@;
        records.push(rec);
        assert(record_views(records@) =~= record_views(old_records).push(record_view(rec)));
        i = i + 1;
    }
    assert(drafts@.len() == i as nat);
    Ok(records)
}

/// Turn a batch of boxes into records, minting a random version-4 UUID for each box
/// without an id and for each label that is neither given an identity, nor
/// fixed earlier in the batch, nor stored. `stored` pairs each lower-cased
/// label already saved with its identity.
pub fn annotation_records(drafts: &Vec<AnnotationDraft>, stored: &Vec<(String, String)>) -> (r: Result<Vec<RecordFacts>, String>)
    ensures
        drafts@.len() > MAX_ANNOTATIONS_PER_IMAGE ==> (r matches Err(m) && m@ == too_many_boxes_text()),
        drafts@.len() <= MAX_ANNOTATIONS_PER_IMAGE ==> exists|fresh_ids: Seq<Seq<char>>, fresh_identities: Seq<Seq<char>>|
            fresh_ids.len() == drafts@.len() && fresh_identities.len() == drafts@.len()
            && (forall|k: int| 0 <= k < drafts@.len() ==> crate::ipc::is_v4_uuid_text(#[trigger] fresh_ids[k])
                && crate::ipc::is_v4_uuid_text(fresh_identities[k]))
            && #[trigger] batch_outcome(drafts@, pair_views(stored@), fresh_ids, fresh_identities, r),
{
    let mut fresh_ids: Vec<String> = Vec::new();
    let mut fresh_identities: Vec<String> = Vec::new();
    let mut i: usize = 0;
    while i < drafts.len()
        invariant
            i <= drafts@.len(),
            fresh_ids@.len() == i,
            fresh_identities@.len() == i,
            forall|k: int| 0 <= k < i ==> crate::ipc::is_v4_uuid_text((#[trigger] fresh_ids@[k])@),
            forall|k: int| 0 <= k < i ==> crate::ipc::is_v4_uuid_text((#[trigger] fresh_identities@[k])@),
        decreases drafts@.len() - i,
    {
        let a = crate::ipc::new_uuid_string();
        let b = crate::ipc::new_uuid_string();
        fresh_ids.push(a);
        fresh_identities.push(b);
        assert(fresh_ids@[i as int] == a);
        assert(fresh_identities@[i as int] == b);
        i = i + 1;
    }
    let r = build_annotation_records(drafts, stored, &fresh_ids, &fresh_identities);
    proof {
        let fi = string_views(fresh_ids@);
        let fd = string_views(fresh_identities@);
        assert forall|k: int| 0 <= k < drafts@.len() implies crate::ipc::is_v4_uuid_text(#[trigger] fi[k])
            && crate::ipc::is_v4_uuid_text(fd[k]) by {
            assert(crate::ipc::is_v4_uuid_text(fresh_ids@[k]@));
            assert(crate::ipc::is_v4_uuid_text(fresh_identities@[k]@));
        }
        if drafts@.len() <= MAX_ANNOTATIONS_PER_IMAGE {
            assert(batch_outcome(drafts@, pair_views(stored@), fi, fd, r));
        }
    }
    r
}

/// A saved box as far as matching embeddings needs it.
#[derive(Debug, Clone)]
pub struct RecordFacts {
    pub id: String,
    pub identity_id: String,
    pub label_name: String,
    pub source: String,
    pub manually_adjusted: bool,
}

/// One vector the worker returned, as far as matching needs it.
#[derive(Debug, Clone)]
pub struct EmbeddingFacts {
    pub annotation_id: String,
    pub dimension: usize,
    /// Every component is a finite number.
    pub finite: bool,
}

/// What a vector is stored with.
#[derive(Debug, Clone)]
pub struct EmbeddingLink {
    pub annotation_id: String,
    pub identity_id: String,
    pub manually_verified: bool,
}

pub open spec fn record_index(records: Seq<RecordFacts>, id: Seq<char>) -> int
    decreases records.len(),
{
    if records.len() == 0 {
        -1
    } else if records[0].id@ == id {
        0
    } else {
        let k = record_index(records.drop_first(), id);
        if k < 0 {
            -1
        } else {
            k + 1
        }
    }
}

proof fn lemma_record_index(records: Seq<RecordFacts>, id: Seq<char>)
    ensures
        -1 <= record_index(records, id) < records.len(),
        record_index(records, id) >= 0 ==> records[record_index(records, id)].id@ == id,
        record_index(records, id) < 0 ==> forall|k: int| 0 <= k < records.len() ==> #[trigger] records[k].id@ != id,
    decreases records.len(),
{
    if records.len() > 0 {
        lemma_record_index(records.drop_first(), id);
        if records[0].id@ != id && record_index(records.drop_first(), id) < 0 {
            assert forall|k: int| 0 <= k < records.len() implies #[trigger] records[k].id@ != id by {
                if k > 0 {
                    assert(records[k] == records.drop_first()[k - 1]);
                }
            }
        }
    }
}

fn find_record(records: &Vec<RecordFacts>, id: &str) -> (r: Option<usize>)
    ensures
        match r {
            Some(k) => k as int == record_index(records@, id@),
            None => record_index(records@, id@) == -1,
        },
{
    let mut i: usize = 0;
    assert(records@.subrange(0, records@.len() as int) =~= records@);
    while i < records.len()
        invariant
            i <= records@.len(),
            record_index(records@, id@) == (if record_index(records@.subrange(i as int, records@.len() as int), id@) < 0 {
                -1
            } else {
                record_index(records@.subrange(i as int, records@.len() as int), id@) + i
            }),
        decreases records@.len() - i,
    {
        let ghost rest = records@.subrange(i as int, records@.len() as int);
        assert(rest[0] == records@[i as int]);
        assert(rest.drop_first() =~= records@.subrange(i + 1, records@.len() as int));
        if crate::text::str_eq(records[i].id.as_str(), id) {
            return Some(i);
        }
        i = i + 1;
    }
    None
}

/// Why the worker's embeddings are refused.
pub open spec fn embeddings_error(records: Seq<RecordFacts>, items: Seq<EmbeddingFacts>) -> Option<Seq<char>> {
    if items.len() != records.len() {
        Some("recognition.embedding 返回 "@ + decimal(items.len()) + " 个向量，预期 "@ + decimal(records.len()) + " 个"@)
    } else {
        first_item_error(records, items, 0)
    }
}

/// The first bad item from position `i` on: a vector that is not a finite
/// 2048-dimensional one, an id that came before, or an id of no box.
pub open spec fn first_item_error(records: Seq<RecordFacts>, items: Seq<EmbeddingFacts>, i: int) -> Option<Seq<char>>
    decreases items.len() - i,
{
    if i < 0 || i >= items.len() {
        None
    } else if items[i].dimension != crate::database::PERSONAL_EMBEDDING_DIMENSION || !items[i].finite {
        Some("recognition.embedding 必须返回有限的 2048 维向量"@)
    } else if exists|j: int| 0 <= j < i && #[trigger] items[j].annotation_id@ == items[i].annotation_id@ {
        Some("recognition.embedding 返回了重复 annotation_id"@)
    } else if record_index(records, items[i].annotation_id@) < 0 {
        Some("recognition.embedding 返回未知 annotation_id: "@ + items[i].annotation_id@)
    } else {
        first_item_error(records, items, i + 1)
    }
}

pub open spec fn link_matches(l: EmbeddingLink, item: EmbeddingFacts, records: Seq<RecordFacts>) -> bool {
    let r = records[record_index(records, item.annotation_id@)];
    &&& l.annotation_id == item.annotation_id
    &&& l.identity_id == r.identity_id
    &&& l.manually_verified == (r.source@ == "manual"@ || r.manually_adjusted)
}

/// Match the worker's vectors to the boxes: one per box, in the worker's
/// order; each link carries the box's identity and whether a person
/// confirmed it (a manual box or an adjusted one).
pub fn match_embeddings(records: &Vec<RecordFacts>, items: &Vec<EmbeddingFacts>) -> (r: Result<Vec<EmbeddingLink>, String>)
    ensures
        match embeddings_error(records@, items@) {
            Some(m) => r matches Err(e) && e@ == m,
            None => r matches Ok(links) && links@.len() == items@.len() && forall|k: int|
                0 <= k < items@.len() ==> link_matches(#[trigger] links@[k], items@[k], records@),
        },
{
    if items.len() != records.len() {
        let a = concat("recognition.embedding 返回 ", decimal_string(items.len() as u64).as_str());
        let b = concat(a.as_str(), " 个向量，预期 ");
        let c = concat(b.as_str(), decimal_string(records.len() as u64).as_str());
        return Err(concat(c.as_str(), " 个"));
    }
    let mut links: Vec<EmbeddingLink> = Vec::new();
    let mut i: usize = 0;
    while i < items.len()
        invariant
            i <= items@.len(),
            items@.len() == records@.len(),
            first_item_error(records@, items@, 0) == first_item_error(records@, items@, i as int),
            links@.len() == i,
            forall|k: int| 0 <= k < i ==> link_matches(#[trigger] links@[k], items@[k], records@),
        decreases items@.len() - i,
    {
        let it = &items[i];
        if it.dimension != crate::database::PERSONAL_EMBEDDING_DIMENSION || !it.finite {
            return Err(owned("recognition.embedding 必须返回有限的 2048 维向量"));
        }
        let mut j: usize = 0;
        let mut dup = false;
        while j < i
            invariant
                j <= i < items@.len(),
                dup == exists|q: int| 0 <= q < j && #[trigger] items@[q].annotation_id@ == items@[i as int].annotation_id@,
            decreases i - j,
        {
            if crate::text::str_eq(items[j].annotation_id.as_str(), items[i].annotation_id.as_str()) {
                dup = true;
            }
            assert(items@[j as int].annotation_id@ == items@[j as int].annotation_id@);
            j = j + 1;
        }
        if dup {
            return Err(owned("recognition.embedding 返回了重复 annotation_id"));
        }
        let found = find_record(records, it.annotation_id.as_str());
        match found {
            None => {
                return Err(concat("recognition.embedding 返回未知 annotation_id: ", it.annotation_id.as_str()));
            },
            Some(k) => {
                proof {
                    lemma_record_index(records@, it.annotation_id@);
                }
                let rec = &records[k];
                let verified = crate::text::str_eq(rec.source.as_str(), "manual") || rec.manually_adjusted;
                links.push(EmbeddingLink {
                    annotation_id: it.annotation_id.clone(),
                    identity_id: rec.identity_id.clone(),
                    manually_verified: verified,
                });
            },
        }
        i = i + 1;
    }
    Ok(links)
}

} // verus!
