//! Duplicate and near-duplicate detection: cache reuse, governance decisions
//! (keep, archive, delete) and the bookkeeping of a result set.
//!
//! Scores and similarities are floating-point values that this module never
//! reads; they travel through it as the bit patterns of their `f64`.
use vstd::prelude::*;
use crate::database::SIMILARITY_FEATURE_VERSION;
use crate::paths::{extension, extension_of, join, join_path, parent, parent_path};
use crate::state::{ScanControlResponse, ScanProgressSnapshot};
use crate::text::{concat, decimal, decimal_string, lower_ascii, lower_chars, owned, to_chars, trim, trim_str};

verus! {

#[derive(Debug, Clone)]
pub struct SimilarityGroupItem {
    pub path: String,
    pub file_size: i64,
    pub dimensions: [i64; 2],
    pub format: String,
    /// `f64::to_bits` of the clarity score.
    pub clarity_score_bits: u64,
    pub is_recommended: bool,
    pub recommend_reason: Option<String>,
    pub decision: Option<String>,
}

#[derive(Debug, Clone)]
pub struct SimilarityGroup {
    pub group_id: String,
    pub group_type: String,
    /// `f64::to_bits` of the average similarity.
    pub average_similarity_bits: u64,
    pub items: Vec<SimilarityGroupItem>,
}

#[derive(Debug, Clone)]
pub struct SimilarityScanProgress {
    pub phase: String,
    pub current: usize,
    pub total: usize,
    pub path: Option<String>,
    pub message: String,
    pub directory: Option<String>,
}

#[derive(Debug, Clone)]
pub struct SimilarityScanState {
    pub running: bool,
    pub directory: Option<String>,
    pub phase: String,
    pub current: usize,
    pub total: usize,
    pub path: Option<String>,
    pub message: String,
}

#[derive(Debug, Clone)]
pub struct SimilarityScanPayload {
    pub directory: String,
    pub total_scanned: usize,
    pub groups: Vec<SimilarityGroup>,
    pub duplicates_count: usize,
    pub potential_space_saved: u64,
    pub cancelled: bool,
    pub completed_at: Option<String>,
}

#[derive(Debug, Clone)]
pub struct SimilarityItemDecision {
    pub path: String,
    pub action: String,
}

#[derive(Debug, Clone)]
pub struct SimilarityDecisionRequest {
    pub archive_directory: Option<String>,
    pub archive_directory_name: Option<String>,
    pub result_directory: Option<String>,
    pub decisions: Vec<SimilarityItemDecision>,
}

#[derive(Debug, Clone)]
pub struct SimilarityProcessedItem {
    pub path: String,
    pub action: String,
    pub destination: Option<String>,
}

#[derive(Debug, Clone)]
pub struct SimilarityItemError {
    pub path: String,
    pub error: String,
}

#[derive(Debug, Clone)]
pub struct SimilarityDecisionResult {
    pub success_count: usize,
    pub failed_count: usize,
    pub processed: Vec<SimilarityProcessedItem>,
    pub errors: Vec<SimilarityItemError>,
    pub freed_bytes: u64,
}

/// Whether a cached feature record can be reused: current records always,
/// older ones only for formats that cannot be animated (GIF and WEBP caches
/// from before multi-frame extraction hold only the first frame).
pub open spec fn feature_cache_current_spec(feature_version: i64, path: Seq<char>) -> bool {
    feature_version >= SIMILARITY_FEATURE_VERSION || !(match extension(path) {
        Some(e) => lower_ascii(e) == "gif"@ || lower_ascii(e) == "webp"@,
        None => false,
    })
}

pub fn feature_cache_is_current(feature_version: i64, path: &str) -> (b: bool)
    ensures
        b == feature_cache_current_spec(feature_version, path@),
{
    if feature_version >= SIMILARITY_FEATURE_VERSION {
        return true;
    }
    match extension_of(path) {
        Some(e) => {
            let lower = lower_chars(to_chars(e.as_str()).as_slice());
            let gif = to_chars("gif");
            let webp = to_chars("webp");
            !(crate::text::chars_eq(lower.as_slice(), gif.as_slice()) || crate::text::chars_eq(
                lower.as_slice(),
                webp.as_slice(),
            ))
        },
        None => true,
    }
}

/// A cached record stands in for extraction when the file still has the
/// recorded, positive size and the record is current for its format.
pub fn cache_hit(cached_size: i64, actual_size: i64, feature_version: i64, path: &str) -> (b: bool)
    ensures
        b == (cached_size == actual_size && actual_size > 0 && feature_cache_current_spec(
            feature_version,
            path@,
        )),
{
    cached_size == actual_size && actual_size > 0 && feature_cache_is_current(feature_version, path)
}

/// The text of an optional field when it holds something besides blanks.
pub open spec fn non_blank(s: Option<String>) -> Option<Seq<char>> {
    match s {
        Some(v) => if trim(v@).len() > 0 {
            Some(v@)
        } else {
            None
        },
        None => None,
    }
}

/// Where archived files go: an explicit archive directory; otherwise the
/// archive folder (trimmed name, `_duplicates` by default) under the result
/// directory, or under the folder of the first decided file.
pub open spec fn archive_directory_spec(request: SimilarityDecisionRequest) -> Option<Seq<char>> {
    match non_blank(request.archive_directory) {
        Some(d) => Some(d),
        None => {
            let base = match non_blank(request.result_directory) {
                Some(d) => Some(d),
                None => if request.decisions@.len() > 0 {
                    parent(request.decisions@[0].path@)
                } else {
                    None
                },
            };
            let name = match request.archive_directory_name {
                Some(n) => if trim(n@).len() > 0 {
                    trim(n@)
                } else {
                    "_duplicates"@
                },
                None => "_duplicates"@,
            };
            match base {
                Some(b) => Some(join(b, name)),
                None => None,
            }
        },
    }
}

pub fn resolve_archive_directory(request: &SimilarityDecisionRequest) -> (r: Option<String>)
    ensures
        match r {
            Some(d) => archive_directory_spec(*request) == Some(d@),
            None => archive_directory_spec(*request) is None,
        },
{
    match &request.archive_directory {
        Some(d) => {
            if !crate::text::is_blank(d.as_str()) {
                return Some(d.clone());
            }
        },
        None => {},
    }
    let base: Option<String> = match &request.result_directory {
        Some(d) => if !crate::text::is_blank(d.as_str()) {
            Some(d.clone())
        } else if request.decisions.len() > 0 {
            parent_path(request.decisions[0].path.as_str())
        } else {
            None
        },
        None => if request.decisions.len() > 0 {
            parent_path(request.decisions[0].path.as_str())
        } else {
            None
        },
    };
    let name: String = match &request.archive_directory_name {
        Some(n) => if crate::text::is_blank(n.as_str()) {
            owned("_duplicates")
        } else {
            trim_str(n.as_str())
        },
        None => owned("_duplicates"),
    };
    match base {
        Some(b) => Some(join_path(b.as_str(), name.as_str())),
        None => None,
    }
}

/// Archived and deleted files leave their groups.
pub open spec fn is_removal(action: Seq<char>) -> bool {
    action == "archive"@ || action == "delete"@
}

pub open spec fn removed_path(processed: Seq<SimilarityProcessedItem>, path: Seq<char>) -> bool {
    exists|i: int| 0 <= i < processed.len() && #[trigger] processed[i].path@ == path && is_removal(processed[i].action@)
}

/// The action last decided for a path.
pub open spec fn decision_for(decisions: Seq<SimilarityItemDecision>, path: Seq<char>) -> Option<String>
    decreases decisions.len(),
{
    if decisions.len() == 0 {
        None
    } else if decisions.last().path@ == path {
        Some(decisions.last().action)
    } else {
        decision_for(decisions.drop_last(), path)
    }
}

/// The item with its recorded decision replaced by the one just made.
pub open spec fn updated_item(item: SimilarityGroupItem, decisions: Seq<SimilarityItemDecision>) -> SimilarityGroupItem {
    match decision_for(decisions, item.path@) {
        Some(a) => SimilarityGroupItem {
            path: item.path,
            file_size: item.file_size,
            dimensions: item.dimensions,
            format: item.format,
            clarity_score_bits: item.clarity_score_bits,
            is_recommended: item.is_recommended,
            recommend_reason: item.recommend_reason,
            decision: Some(a),
        },
        None => item,
    }
}

/// The items that stay in a group, in order, with their decisions updated.
pub open spec fn kept_items(
    items: Seq<SimilarityGroupItem>,
    decisions: Seq<SimilarityItemDecision>,
    processed: Seq<SimilarityProcessedItem>,
) -> Seq<SimilarityGroupItem>
    decreases items.len(),
{
    if items.len() == 0 {
        Seq::empty()
    } else {
        let rest = kept_items(items.drop_last(), decisions, processed);
        if removed_path(processed, items.last().path@) {
            rest
        } else {
            rest.push(updated_item(items.last(), decisions))
        }
    }
}

/// For each group that still holds two items or more: its index and the
/// items it keeps.
pub open spec fn pruned_plan(
    groups: Seq<SimilarityGroup>,
    decisions: Seq<SimilarityItemDecision>,
    processed: Seq<SimilarityProcessedItem>,
) -> Seq<(int, Seq<SimilarityGroupItem>)>
    decreases groups.len(),
{
    if groups.len() == 0 {
        Seq::empty()
    } else {
        let rest = pruned_plan(groups.drop_last(), decisions, processed);
        let items = kept_items(groups.last().items@, decisions, processed);
        if items.len() >= 2 {
            rest.push((groups.len() - 1, items))
        } else {
            rest
        }
    }
}

proof fn lemma_kept_items_remain(
    items: Seq<SimilarityGroupItem>,
    decisions: Seq<SimilarityItemDecision>,
    processed: Seq<SimilarityProcessedItem>,
)
    ensures
        forall|t: int| 0 <= t < kept_items(items, decisions, processed).len()
            ==> !removed_path(processed, (#[trigger] kept_items(items, decisions, processed)[t]).path@),
    decreases items.len(),
{
    if items.len() > 0 {
        lemma_kept_items_remain(items.drop_last(), decisions, processed);
    }
}

proof fn lemma_plan_groups_remain(
    groups: Seq<SimilarityGroup>,
    decisions: Seq<SimilarityItemDecision>,
    processed: Seq<SimilarityProcessedItem>,
)
    ensures
        forall|k: int| 0 <= k < pruned_plan(groups, decisions, processed).len() ==> {
            let items = (#[trigger] pruned_plan(groups, decisions, processed)[k]).1;
            &&& items.len() >= 2
            &&& forall|t: int| 0 <= t < items.len() ==> !removed_path(processed, (#[trigger] items[t]).path@)
        },
    decreases groups.len(),
{
    if groups.len() > 0 {
        lemma_plan_groups_remain(groups.drop_last(), decisions, processed);
        lemma_kept_items_remain(groups.last().items@, decisions, processed);
    }
}

/// After decisions are applied, every group left holds two files or more
/// and none of them was archived or deleted.
pub proof fn law_groups_hold_only_remaining_duplicates(
    out: Seq<SimilarityGroup>,
    groups: Seq<SimilarityGroup>,
    decisions: Seq<SimilarityItemDecision>,
    processed: Seq<SimilarityProcessedItem>,
)
    requires
        follows_plan(out, groups, pruned_plan(groups, decisions, processed)),
    ensures
        forall|k: int| 0 <= k < out.len() ==> (#[trigger] out[k]).items@.len() >= 2,
        forall|k: int, t: int| 0 <= k < out.len() && 0 <= t < out[k].items@.len()
            ==> !removed_path(processed, (#[trigger] out[k].items@[t]).path@),
{
    lemma_plan_groups_remain(groups, decisions, processed);
    let plan = pruned_plan(groups, decisions, processed);
    assert forall|k: int| 0 <= k < out.len() implies (#[trigger] out[k]).items@.len() >= 2 by {
        assert(group_matches(out[k], groups[plan[k].0], plan[k].1));
    }
    assert forall|k: int, t: int| 0 <= k < out.len() && 0 <= t < out[k].items@.len()
        implies !removed_path(processed, (#[trigger] out[k].items@[t]).path@) by {
        assert(group_matches(out[k], groups[plan[k].0], plan[k].1));
        assert(out[k].items@[t] == plan[k].1[t]);
    }
}

/// `out` is the group list the plan describes: each group keeps its id,
/// type and similarity and holds exactly the planned items.
pub open spec fn follows_plan(
    out: Seq<SimilarityGroup>,
    groups: Seq<SimilarityGroup>,
    plan: Seq<(int, Seq<SimilarityGroupItem>)>,
) -> bool {
    &&& out.len() == plan.len()
    &&& forall|k: int|
        0 <= k < out.len() ==> #[trigger] group_matches(out[k], groups[plan[k].0], plan[k].1)
}

/// A group of the new list: the header of its source and the given items.
pub open spec fn group_matches(
    g: SimilarityGroup,
    src: SimilarityGroup,
    items: Seq<SimilarityGroupItem>,
) -> bool {
    &&& g.items@ == items
    &&& g.group_id == src.group_id
    &&& g.group_type == src.group_type
    &&& g.average_similarity_bits == src.average_similarity_bits
}

proof fn lemma_plan_indices(
    groups: Seq<SimilarityGroup>,
    decisions: Seq<SimilarityItemDecision>,
    processed: Seq<SimilarityProcessedItem>,
)
    ensures
        forall|k: int|
            0 <= k < pruned_plan(groups, decisions, processed).len() ==> 0 <= #[trigger] pruned_plan(
                groups,
                decisions,
                processed,
            )[k].0 < groups.len(),
    decreases groups.len(),
{
    if groups.len() > 0 {
        let rest_groups = groups.drop_last();
        lemma_plan_indices(rest_groups, decisions, processed);
        let plan = pruned_plan(groups, decisions, processed);
        let rest = pruned_plan(rest_groups, decisions, processed);
        assert forall|k: int| 0 <= k < plan.len() implies 0 <= #[trigger] plan[k].0 < groups.len() by {
            if k < rest.len() {
                assert(plan[k] == rest[k]);
            }
        }
    }
}

fn is_removal_exec(action: &str) -> (b: bool)
    ensures
        b == is_removal(action@),
{
    crate::text::str_eq(action, "archive") || crate::text::str_eq(action, "delete")
}

fn removed_exec(processed: &[SimilarityProcessedItem], path: &str) -> (b: bool)
    ensures
        b == removed_path(processed@, path@),
{
    let mut i: usize = 0;
    while i < processed.len()
        invariant
            i <= processed@.len(),
            forall|j: int| 0 <= j < i ==> !(#[trigger] processed@[j].path@ == path@ && is_removal(processed@[j].action@)),
        decreases processed@.len() - i,
    {
        if crate::text::str_eq(processed[i].path.as_str(), path) && is_removal_exec(
            processed[i].action.as_str(),
        ) {
            return true;
        }
        i = i + 1;
    }
    false
}

fn decision_exec(decisions: &[SimilarityItemDecision], path: &str) -> (r: Option<String>)
    ensures
        r == decision_for(decisions@, path@),
{
    let mut i: usize = decisions.len();
    assert(decisions@.subrange(0, decisions@.len() as int) =~= decisions@);
    while i > 0
        invariant
            i <= decisions@.len(),
            decision_for(decisions@, path@) == decision_for(decisions@.subrange(0, i as int), path@),
        decreases i,
    {
        let ghost sub = decisions@.subrange(0, i as int);
        assert(sub.drop_last() =~= decisions@.subrange(0, i - 1));
        assert(sub.last() == decisions@[i - 1]);
        if crate::text::str_eq(decisions[i - 1].path.as_str(), path) {
            return Some(decisions[i - 1].action.clone());
        }
        i = i - 1;
    }
    assert(decisions@.subrange(0, 0) =~= Seq::<SimilarityItemDecision>::empty());
    None
}

fn copy_reason(r: &Option<String>) -> (c: Option<String>)
    ensures
        c == *r,
{
    match r {
        Some(s) => Some(s.clone()),
        None => None,
    }
}

fn copy_item(item: &SimilarityGroupItem, decision: Option<String>) -> (r: SimilarityGroupItem)
    ensures
        r.path == item.path,
        r.file_size == item.file_size,
        r.dimensions == item.dimensions,
        r.format == item.format,
        r.clarity_score_bits == item.clarity_score_bits,
        r.is_recommended == item.is_recommended,
        r.recommend_reason == item.recommend_reason,
        r.decision == decision,
{
    SimilarityGroupItem {
        path: item.path.clone(),
        file_size: item.file_size,
        dimensions: [item.dimensions[0], item.dimensions[1]],
        format: item.format.clone(),
        clarity_score_bits: item.clarity_score_bits,
        is_recommended: item.is_recommended,
        recommend_reason: copy_reason(&item.recommend_reason),
        decision,
    }
}

fn keep_items(
    items: &Vec<SimilarityGroupItem>,
    decisions: &[SimilarityItemDecision],
    processed: &[SimilarityProcessedItem],
) -> (r: Vec<SimilarityGroupItem>)
    ensures
        r@ == kept_items(items@, decisions@, processed@),
{
    let mut out: Vec<SimilarityGroupItem> = Vec::new();
    let mut i: usize = 0;
    while i < items.len()
        invariant
            i <= items@.len(),
            out@ == kept_items(items@.subrange(0, i as int), decisions@, processed@),
        decreases items@.len() - i,
    {
        let ghost sub = items@.subrange(0, i + 1);
        assert(sub.drop_last() =~= items@.subrange(0, i as int));
        assert(sub.last() == items@[i as int]);
        let item = &items[i];
        if !removed_exec(processed, item.path.as_str()) {
            let found = decision_exec(decisions, item.path.as_str());
            let fresh = match found {
                Some(a) => copy_item(item, Some(a)),
                None => copy_item(item, copy_reason(&item.decision)),
            };
            proof {
                let u = updated_item(items@[i as int], decisions@);
                assert(fresh.dimensions =~= u.dimensions);
                assert(fresh == u);
            }
            out.push(fresh);
        }
        i = i + 1;
    }
    assert(items@.subrange(0, items@.len() as int) =~= items@);
    out
}

/// Drop archived and deleted items, record the new decisions, and drop the
/// groups left with fewer than two items.
pub fn prune_similarity_groups(
    groups: &Vec<SimilarityGroup>,
    decisions: &[SimilarityItemDecision],
    processed: &[SimilarityProcessedItem],
) -> (r: Vec<SimilarityGroup>)
    ensures
        follows_plan(r@, groups@, pruned_plan(groups@, decisions@, processed@)),
{
    let mut out: Vec<SimilarityGroup> = Vec::new();
    let mut i: usize = 0;
    while i < groups.len()
        invariant
            i <= groups@.len(),
            follows_plan(out@, groups@, pruned_plan(groups@.subrange(0, i as int), decisions@, processed@)),
        decreases groups@.len() - i,
    {
        let ghost sub = groups@.subrange(0, i + 1);
        let ghost before = out@;
        assert(sub.drop_last() =~= groups@.subrange(0, i as int));
        assert(sub.last() == groups@[i as int]);
        let g = &groups[i];
        let items = keep_items(&g.items, decisions, processed);
        if items.len() >= 2 {
            out.push(SimilarityGroup {
                group_id: g.group_id.clone(),
                group_type: g.group_type.clone(),
                average_similarity_bits: g.average_similarity_bits,
                items,
            });
            proof {
                let plan = pruned_plan(sub, decisions@, processed@);
                let prev = pruned_plan(groups@.subrange(0, i as int), decisions@, processed@);
                assert(plan == prev.push((i as int, kept_items(groups@[i as int].items@, decisions@, processed@))));
                assert forall|k: int| 0 <= k < out@.len() implies #[trigger] group_matches(
                    out@[k],
                    groups@[plan[k].0],
                    plan[k].1,
                ) by {
                    if k < before.len() {
                        assert(plan[k] == prev[k]);
                        assert(out@[k] == before[k]);
                        assert(group_matches(before[k], groups@[prev[k].0], prev[k].1));
                    } else {
                        assert(k == before.len());
                        assert(plan[k].0 == i);
                    }
                }
                assert(before.len() == prev.len());
                assert(out@.len() == plan.len());
                assert(follows_plan(out@, groups@, plan));
            }
        } else {
            proof {
                let plan = pruned_plan(sub, decisions@, processed@);
                let prev = pruned_plan(groups@.subrange(0, i as int), decisions@, processed@);
                assert(plan == prev);
                assert(follows_plan(out@, groups@, plan));
            }
        }
        i = i + 1;
    }
    assert(groups@.subrange(0, groups@.len() as int) =~= groups@);
    out
}

/// The bytes a file frees: its size, negative sizes counting as nothing.
pub open spec fn item_bytes(item: SimilarityGroupItem) -> int {
    if item.file_size > 0 {
        item.file_size as int
    } else {
        0
    }
}

pub open spec fn marked_for_delete(item: SimilarityGroupItem) -> bool {
    item.decision matches Some(d) && d@ == "delete"@
}

/// The bytes of the items of one list that are marked for deletion.
pub open spec fn delete_bytes(items: Seq<SimilarityGroupItem>) -> int
    decreases items.len(),
{
    if items.len() == 0 {
        0
    } else {
        delete_bytes(items.drop_last()) + if marked_for_delete(items.last()) {
            item_bytes(items.last())
        } else {
            0
        }
    }
}

/// The items of a list beyond the first one.
pub open spec fn extra_items(items: Seq<SimilarityGroupItem>) -> int {
    if items.len() > 0 {
        items.len() - 1
    } else {
        0
    }
}

pub open spec fn lists_duplicates(lists: Seq<Seq<SimilarityGroupItem>>) -> int
    decreases lists.len(),
{
    if lists.len() == 0 {
        0
    } else {
        lists_duplicates(lists.drop_last()) + extra_items(lists.last())
    }
}

pub open spec fn lists_delete_bytes(lists: Seq<Seq<SimilarityGroupItem>>) -> int
    decreases lists.len(),
{
    if lists.len() == 0 {
        0
    } else {
        lists_delete_bytes(lists.drop_last()) + delete_bytes(lists.last())
    }
}

pub open spec fn group_lists(groups: Seq<SimilarityGroup>) -> Seq<Seq<SimilarityGroupItem>> {
    groups.map_values(|g: SimilarityGroup| g.items@)
}

pub open spec fn plan_lists(plan: Seq<(int, Seq<SimilarityGroupItem>)>) -> Seq<Seq<SimilarityGroupItem>> {
    plan.map_values(|p: (int, Seq<SimilarityGroupItem>)| p.1)
}

proof fn lemma_delete_bytes_prefix(items: Seq<SimilarityGroupItem>, j: int)
    requires
        0 <= j <= items.len(),
    ensures
        0 <= delete_bytes(items.subrange(0, j)) <= delete_bytes(items),
    decreases items.len(),
{
    if j == items.len() {
        assert(items.subrange(0, j) =~= items);
        if items.len() > 0 {
            lemma_delete_bytes_prefix(items.drop_last(), 0);
        }
    } else {
        assert(items.subrange(0, j) =~= items.drop_last().subrange(0, j));
        lemma_delete_bytes_prefix(items.drop_last(), j);
    }
}

proof fn lemma_lists_prefix(lists: Seq<Seq<SimilarityGroupItem>>, i: int)
    requires
        0 <= i <= lists.len(),
    ensures
        0 <= lists_delete_bytes(lists.subrange(0, i)) <= lists_delete_bytes(lists),
        0 <= lists_duplicates(lists.subrange(0, i)) <= lists_duplicates(lists),
    decreases lists.len(),
{
    if lists.len() > 0 {
        lemma_delete_bytes_prefix(lists.last(), 0);
    }
    if i == lists.len() {
        assert(lists.subrange(0, i) =~= lists);
        if lists.len() > 0 {
            lemma_lists_prefix(lists.drop_last(), 0);
        }
    } else {
        assert(lists.subrange(0, i) =~= lists.drop_last().subrange(0, i));
        lemma_lists_prefix(lists.drop_last(), i);
    }
}

/// The duplicate count and the bytes marked for deletion of a group list,
/// or `None` when either does not fit its integer type.
pub fn similarity_totals(groups: &Vec<SimilarityGroup>) -> (r: Option<(usize, u64)>)
    ensures
        match r {
            Some((d, b)) => d == lists_duplicates(group_lists(groups@)) && b == lists_delete_bytes(
                group_lists(groups@),
            ),
            None => lists_duplicates(group_lists(groups@)) > usize::MAX || lists_delete_bytes(
                group_lists(groups@),
            ) > u64::MAX,
        },
{
    let ghost lists = group_lists(groups@);
    let mut dups: usize = 0;
    let mut bytes: u64 = 0;
    let mut i: usize = 0;
    while i < groups.len()
        invariant
            i <= groups@.len(),
            lists == group_lists(groups@),
            dups == lists_duplicates(lists.subrange(0, i as int)),
            bytes == lists_delete_bytes(lists.subrange(0, i as int)),
        decreases groups@.len() - i,
    {
        proof {
            lemma_lists_prefix(lists, i + 1);
            assert(lists.subrange(0, i + 1).drop_last() =~= lists.subrange(0, i as int));
            assert(lists.subrange(0, i + 1).last() == groups@[i as int].items@);
        }
        let items = &groups[i].items;
        let extra: usize = if items.len() > 0 {
            items.len() - 1
        } else {
            0
        };
        match dups.checked_add(extra) {
            Some(d) => {
                dups = d;
            },
            None => {
                return None;
            },
        }
        let mut j: usize = 0;
        while j < items.len()
            invariant
                i < groups@.len(),
                j <= items@.len(),
                items@ == groups@[i as int].items@,
                lists == group_lists(groups@),
                bytes == lists_delete_bytes(lists.subrange(0, i as int)) + delete_bytes(
                    items@.subrange(0, j as int),
                ),
            decreases items@.len() - j,
        {
            proof {
                lemma_delete_bytes_prefix(items@, j + 1);
                lemma_lists_prefix(lists, i + 1);
                assert(lists.subrange(0, i + 1).drop_last() =~= lists.subrange(0, i as int));
                assert(items@.subrange(0, j + 1).drop_last() =~= items@.subrange(0, j as int));
            }
            let it = &items[j];
            let add: u64 = if it.decision.is_some() && crate::text::str_eq(
                it.decision.as_ref().unwrap().as_str(),
                "delete",
            ) && it.file_size > 0 {
                it.file_size as u64
            } else {
                0
            };
            match bytes.checked_add(add) {
                Some(b) => {
                    bytes = b;
                },
                None => {
                    return None;
                },
            }
            j = j + 1;
        }
        assert(items@.subrange(0, items@.len() as int) =~= items@);
        i = i + 1;
    }
    assert(lists.subrange(0, groups@.len() as int) =~= lists);
    Some((dups, bytes))
}

proof fn lemma_follows_plan_lists(
    out: Seq<SimilarityGroup>,
    groups: Seq<SimilarityGroup>,
    plan: Seq<(int, Seq<SimilarityGroupItem>)>,
)
    requires
        follows_plan(out, groups, plan),
    ensures
        group_lists(out) == plan_lists(plan),
{
    assert forall|k: int| 0 <= k < out.len() implies group_lists(out)[k] == plan_lists(plan)[k] by {
        assert(group_matches(out[k], groups[plan[k].0], plan[k].1));
    }
    assert(group_lists(out) =~= plan_lists(plan));
}

/// Record decisions in a stored result set: archived and deleted files
/// leave their groups, the other decided files keep the decision, groups
/// left with fewer than two items are dropped, and the duplicate count and
/// the bytes marked for deletion are counted again. `None` where either
/// count does not fit its integer type.
pub fn apply_decisions_to_similarity_result(
    payload: SimilarityScanPayload,
    decisions: &[SimilarityItemDecision],
    processed: &[SimilarityProcessedItem],
) -> (r: Option<SimilarityScanPayload>)
    ensures
        ({
            let plan = pruned_plan(payload.groups@, decisions@, processed@);
            match r {
                Some(p) => {
                    &&& follows_plan(p.groups@, payload.groups@, plan)
                    &&& p.duplicates_count == lists_duplicates(plan_lists(plan))
                    &&& p.potential_space_saved == lists_delete_bytes(plan_lists(plan))
                    &&& p.directory == payload.directory
                    &&& p.total_scanned == payload.total_scanned
                    &&& p.cancelled == payload.cancelled
                    &&& p.completed_at == payload.completed_at
                },
                None => lists_duplicates(plan_lists(plan)) > usize::MAX || lists_delete_bytes(
                    plan_lists(plan),
                ) > u64::MAX,
            }
        }),
{
    let groups = prune_similarity_groups(&payload.groups, decisions, processed);
    proof {
        lemma_follows_plan_lists(
            groups@,
            payload.groups@,
            pruned_plan(payload.groups@, decisions@, processed@),
        );
    }
    match similarity_totals(&groups) {
        Some((duplicates_count, potential_space_saved)) => Some(
            SimilarityScanPayload {
                directory: payload.directory,
                total_scanned: payload.total_scanned,
                groups,
                duplicates_count,
                potential_space_saved,
                cancelled: payload.cancelled,
                completed_at: payload.completed_at,
            },
        ),
        None => None,
    }
}

pub open spec fn has_removal(processed: Seq<SimilarityProcessedItem>) -> bool {
    exists|i: int| 0 <= i < processed.len() && is_removal(#[trigger] processed[i].action@)
}

/// Drop archived and deleted files from the groups (decisions are not
/// recorded here) and the groups left with fewer than two items. When
/// nothing was archived or deleted the groups stay exactly as they were.
pub fn remove_processed_items_from_groups(
    groups: &mut Vec<SimilarityGroup>,
    processed: &[SimilarityProcessedItem],
)
    ensures
        !has_removal(processed@) ==> final(groups)@ == old(groups)@,
        has_removal(processed@) ==> follows_plan(
            final(groups)@,
            old(groups)@,
            pruned_plan(old(groups)@, Seq::empty(), processed@),
        ),
{
    let mut any = false;
    let mut i: usize = 0;
    while i < processed.len()
        invariant
            i <= processed@.len(),
            any == exists|j: int| 0 <= j < i && is_removal(#[trigger] processed@[j].action@),
        decreases processed@.len() - i,
    {
        if is_removal_exec(processed[i].action.as_str()) {
            any = true;
        }
        i = i + 1;
    }
    if !any {
        return;
    }
    let no_decisions: Vec<SimilarityItemDecision> = Vec::new();
    assert(no_decisions@ =~= Seq::<SimilarityItemDecision>::empty());
    let pruned = prune_similarity_groups(groups, no_decisions.as_slice(), processed);
    *groups = pruned;
}

/// What happens to one decided file.
#[derive(Debug, Clone, Copy, PartialEq, Eq)]
pub enum DecisionPlan {
    Keep,
    Archive,
    Delete,
    /// The file to archive or delete does not exist.
    Missing,
    /// An archive was asked for but no archive directory could be resolved.
    NoArchiveDirectory,
    /// The action is none of `keep`, `archive`, `delete`.
    Unsupported,
}

pub open spec fn decision_plan_spec(action: Seq<char>, exists: bool, has_archive_directory: bool) -> DecisionPlan {
    if action == "keep"@ {
        DecisionPlan::Keep
    } else if action == "archive"@ {
        if !exists {
            DecisionPlan::Missing
        } else if !has_archive_directory {
            DecisionPlan::NoArchiveDirectory
        } else {
            DecisionPlan::Archive
        }
    } else if action == "delete"@ {
        if !exists {
            DecisionPlan::Missing
        } else {
            DecisionPlan::Delete
        }
    } else {
        DecisionPlan::Unsupported
    }
}

pub fn plan_similarity_decision(action: &str, exists: bool, has_archive_directory: bool) -> (r:
    DecisionPlan)
    ensures
        r == decision_plan_spec(action@, exists, has_archive_directory),
{
    if crate::text::str_eq(action, "keep") {
        DecisionPlan::Keep
    } else if crate::text::str_eq(action, "archive") {
        if !exists {
            DecisionPlan::Missing
        } else if !has_archive_directory {
            DecisionPlan::NoArchiveDirectory
        } else {
            DecisionPlan::Archive
        }
    } else if crate::text::str_eq(action, "delete") {
        if !exists {
            DecisionPlan::Missing
        } else {
            DecisionPlan::Delete
        }
    } else {
        DecisionPlan::Unsupported
    }
}

/// Why a decision could not be carried out.
#[derive(Debug, Clone)]
pub enum DecisionFailure {
    Missing,
    NoArchiveDirectory,
    ArchiveFailed(String),
    DeleteFailed(String),
    Unsupported(String),
    ResultUpdateFailed(String),
}

pub open spec fn failure_text(f: DecisionFailure) -> Seq<char> {
    match f {
        DecisionFailure::Missing => "目标文件不存在"@,
        DecisionFailure::NoArchiveDirectory => "未指定归档目录"@,
        DecisionFailure::ArchiveFailed(e) => "归档移动失败: "@ + e@,
        DecisionFailure::DeleteFailed(e) => "删除失败: "@ + e@,
        DecisionFailure::Unsupported(a) => "不支持的治理动作: "@ + a@,
        DecisionFailure::ResultUpdateFailed(e) => "结果文件更新失败: "@ + e@,
    }
}

pub fn decision_failure_text(f: &DecisionFailure) -> (r: String)
    ensures
        r@ == failure_text(*f),
{
    match f {
        DecisionFailure::Missing => owned("目标文件不存在"),
        DecisionFailure::NoArchiveDirectory => owned("未指定归档目录"),
        DecisionFailure::ArchiveFailed(e) => concat("归档移动失败: ", e.as_str()),
        DecisionFailure::DeleteFailed(e) => concat("删除失败: ", e.as_str()),
        DecisionFailure::Unsupported(a) => concat("不支持的治理动作: ", a.as_str()),
        DecisionFailure::ResultUpdateFailed(e) => concat("结果文件更新失败: ", e.as_str()),
    }
}

impl SimilarityDecisionResult {
    /// Nothing processed yet.
    pub fn new() -> (r: Self)
        ensures
            r.success_count == 0,
            r.failed_count == 0,
            r.processed@.len() == 0,
            r.errors@.len() == 0,
            r.freed_bytes == 0,
    {
        SimilarityDecisionResult {
            success_count: 0,
            failed_count: 0,
            processed: Vec::new(),
            errors: Vec::new(),
            freed_bytes: 0,
        }
    }

    /// A file was kept, archived to `destination`, or deleted freeing
    /// `freed` bytes.
    pub fn record_done(&mut self, path: String, action: &str, destination: Option<String>, freed: u64)
        requires
            old(self).success_count < usize::MAX,
            old(self).freed_bytes + freed <= u64::MAX,
        ensures
            final(self).success_count == old(self).success_count + 1,
            final(self).failed_count == old(self).failed_count,
            final(self).freed_bytes == old(self).freed_bytes + freed,
            final(self).errors@ == old(self).errors@,
            final(self).processed@.len() == old(self).processed@.len() + 1,
            final(self).processed@.drop_last() == old(self).processed@,
            final(self).processed@.last().path == path,
            final(self).processed@.last().action@ == action@,
            final(self).processed@.last().destination == destination,
    {
        self.success_count = self.success_count + 1;
        self.freed_bytes = self.freed_bytes + freed;
        let ghost before = self.processed@;
        self.processed.push(SimilarityProcessedItem { path, action: owned(action), destination });
        assert(self.processed@.drop_last() =~= before);
    }

    /// A file could not be processed.
    pub fn record_failure(&mut self, path: String, failure: &DecisionFailure)
        requires
            old(self).failed_count < usize::MAX,
        ensures
            final(self).failed_count == old(self).failed_count + 1,
            final(self).success_count == old(self).success_count,
            final(self).freed_bytes == old(self).freed_bytes,
            final(self).processed@ == old(self).processed@,
            final(self).errors@.len() == old(self).errors@.len() + 1,
            final(self).errors@.drop_last() == old(self).errors@,
            final(self).errors@.last().path == path,
            final(self).errors@.last().error@ == failure_text(*failure),
    {
        self.failed_count = self.failed_count + 1;
        let ghost before = self.errors@;
        self.errors.push(SimilarityItemError { path, error: decision_failure_text(failure) });
        assert(self.errors@.drop_last() =~= before);
    }
}

/// A result set without groups: the folder held fewer than two images, or
/// the scan was cancelled before clustering.
pub fn empty_similarity_payload(directory: String, total_scanned: usize, cancelled: bool) -> (r:
    SimilarityScanPayload)
    ensures
        r.directory == directory,
        r.total_scanned == total_scanned,
        r.groups@.len() == 0,
        r.duplicates_count == 0,
        r.potential_space_saved == 0,
        r.cancelled == cancelled,
        r.completed_at is None,
{
    SimilarityScanPayload {
        directory,
        total_scanned,
        groups: Vec::new(),
        duplicates_count: 0,
        potential_space_saved: 0,
        cancelled,
        completed_at: None,
    }
}

/// The result of a finished clustering: counts the worker did not report
/// are zero.
pub fn clustered_payload(
    directory: String,
    total_scanned: usize,
    groups: Vec<SimilarityGroup>,
    duplicates_count: Option<u64>,
    potential_space_saved: Option<u64>,
) -> (r: SimilarityScanPayload)
    ensures
        r.directory == directory,
        r.total_scanned == total_scanned,
        r.groups == groups,
        r.duplicates_count == (match duplicates_count {
            Some(d) => d as usize,
            None => 0usize,
        }),
        r.potential_space_saved == (match potential_space_saved {
            Some(p) => p,
            None => 0u64,
        }),
        !r.cancelled,
        r.completed_at is None,
{
    SimilarityScanPayload {
        directory,
        total_scanned,
        groups,
        duplicates_count: match duplicates_count {
            Some(d) => d as usize,
            None => 0,
        },
        potential_space_saved: match potential_space_saved {
            Some(p) => p,
            None => 0,
        },
        cancelled: false,
        completed_at: None,
    }
}

/// The stages a similarity scan reports.
#[derive(Debug, Clone, Copy, PartialEq, Eq)]
pub enum SimilarityStage {
    Enumerating,
    /// Fewer than two images: nothing to compare.
    FinishedEarly { total: usize },
    CheckingCache { total: usize },
    /// Cache lookups are done; the rest is extracted.
    ExtractionPlanned { cached: usize, uncached: usize, total: usize },
    /// One batch of extraction starts after `done` images.
    Extracting { done: usize, batch: usize, total: usize },
    Cancelling { done: usize, total: usize },
    Clustering { total: usize },
    Finalizing { groups: usize, total: usize },
    /// Terminal events, sent once the result file is written.
    Cancelled { scanned: usize },
    Completed { scanned: usize, groups: usize, duplicates: usize },
}

pub open spec fn similarity_phase(stage: SimilarityStage) -> Seq<char> {
    match stage {
        SimilarityStage::Enumerating => "enumerating"@,
        SimilarityStage::FinishedEarly { .. } => "finalizing"@,
        SimilarityStage::CheckingCache { .. } => "checking_cache"@,
        SimilarityStage::ExtractionPlanned { .. } => "extracting"@,
        SimilarityStage::Extracting { .. } => "extracting"@,
        SimilarityStage::Cancelling { .. } => "cancelling"@,
        SimilarityStage::Clustering { .. } => "clustering"@,
        SimilarityStage::Finalizing { .. } => "finalizing"@,
        SimilarityStage::Cancelled { .. } => "cancelled"@,
        SimilarityStage::Completed { .. } => "completed"@,
    }
}

pub open spec fn similarity_counts(stage: SimilarityStage) -> (int, int) {
    match stage {
        SimilarityStage::Enumerating => (0, 0),
        SimilarityStage::FinishedEarly { total } => (total as int, total as int),
        SimilarityStage::CheckingCache { total } => (0, total as int),
        SimilarityStage::ExtractionPlanned { cached, total, .. } => (cached as int, total as int),
        SimilarityStage::Extracting { done, total, .. } => (done as int, total as int),
        SimilarityStage::Cancelling { done, total } => (done as int, total as int),
        SimilarityStage::Clustering { total } => (total as int, total as int),
        SimilarityStage::Finalizing { total, .. } => (total as int, total as int),
        SimilarityStage::Cancelled { scanned } => (scanned as int, scanned as int),
        SimilarityStage::Completed { scanned, .. } => (scanned as int, scanned as int),
    }
}

pub open spec fn similarity_message(stage: SimilarityStage) -> Seq<char> {
    match stage {
        SimilarityStage::Enumerating => "正在发现目录中的图片文件..."@,
        SimilarityStage::FinishedEarly { .. } => "扫描完成，正在写入结果文件..."@,
        SimilarityStage::CheckingCache { .. } => "正在比对已有特征缓存..."@,
        SimilarityStage::ExtractionPlanned { cached, uncached, .. } => "已命中缓存 "@ + decimal(
            cached as nat,
        ) + " 张，正在提取剩余 "@ + decimal(uncached as nat) + " 张图片的视觉特征..."@,
        SimilarityStage::Extracting { done, batch, total } => "正在提取特征 ("@ + decimal(
            (done + batch) as nat,
        ) + "/"@ + decimal(total as nat) + ")..."@,
        SimilarityStage::Cancelling { .. } => "用户已取消相似度扫描，正在保存已扫描结果..."@,
        SimilarityStage::Clustering { .. } => "正在分析视觉特征并聚类相似图片组..."@,
        SimilarityStage::Finalizing { groups, .. } => "扫描完成，发现 "@ + decimal(groups as nat)
            + " 个相似分组，正在写入结果文件..."@,
        SimilarityStage::Cancelled { scanned } => "扫描已取消，已保存 "@ + decimal(scanned as nat)
            + " 张图片的部分结果。"@,
        SimilarityStage::Completed { groups, duplicates, .. } => "扫描完成！发现 "@ + decimal(
            groups as nat,
        ) + " 个相似分组，共 "@ + decimal(duplicates as nat) + " 张重复/变体图片。"@,
    }
}

/// The progress event of a stage; `path` is the first file of a batch.
pub fn similarity_progress(stage: SimilarityStage, path: Option<String>, directory: Option<String>) -> (r:
    SimilarityScanProgress)
    requires
        stage matches SimilarityStage::Extracting { done, batch, .. } ==> done + batch <= usize::MAX,
    ensures
        r.phase@ == similarity_phase(stage),
        r.current == similarity_counts(stage).0,
        r.total == similarity_counts(stage).1,
        r.message@ == similarity_message(stage),
        r.path == path,
        r.directory == directory,
{
    let phase = match stage {
        SimilarityStage::Enumerating => owned("enumerating"),
        SimilarityStage::FinishedEarly { .. } => owned("finalizing"),
        SimilarityStage::CheckingCache { .. } => owned("checking_cache"),
        SimilarityStage::ExtractionPlanned { .. } => owned("extracting"),
        SimilarityStage::Extracting { .. } => owned("extracting"),
        SimilarityStage::Cancelling { .. } => owned("cancelling"),
        SimilarityStage::Clustering { .. } => owned("clustering"),
        SimilarityStage::Finalizing { .. } => owned("finalizing"),
        SimilarityStage::Cancelled { .. } => owned("cancelled"),
        SimilarityStage::Completed { .. } => owned("completed"),
    };
    let (current, total) = match stage {
        SimilarityStage::Enumerating => (0, 0),
        SimilarityStage::FinishedEarly { total } => (total, total),
        SimilarityStage::CheckingCache { total } => (0, total),
        SimilarityStage::ExtractionPlanned { cached, total, .. } => (cached, total),
        SimilarityStage::Extracting { done, total, .. } => (done, total),
        SimilarityStage::Cancelling { done, total } => (done, total),
        SimilarityStage::Clustering { total } => (total, total),
        SimilarityStage::Finalizing { total, .. } => (total, total),
        SimilarityStage::Cancelled { scanned } => (scanned, scanned),
        SimilarityStage::Completed { scanned, .. } => (scanned, scanned),
    };
    let message = match stage {
        SimilarityStage::Enumerating => owned("正在发现目录中的图片文件..."),
        SimilarityStage::FinishedEarly { .. } => owned("扫描完成，正在写入结果文件..."),
        SimilarityStage::CheckingCache { .. } => owned("正在比对已有特征缓存..."),
        SimilarityStage::ExtractionPlanned { cached, uncached, .. } => {
            let a = concat("已命中缓存 ", decimal_string(cached as u64).as_str());
            let b = concat(a.as_str(), " 张，正在提取剩余 ");
            let c = concat(b.as_str(), decimal_string(uncached as u64).as_str());
            concat(c.as_str(), " 张图片的视觉特征...")
        },
        SimilarityStage::Extracting { done, batch, total } => {
            let a = concat("正在提取特征 (", decimal_string((done + batch) as u64).as_str());
            let b = concat(a.as_str(), "/");
            let c = concat(b.as_str(), decimal_string(total as u64).as_str());
            concat(c.as_str(), ")...")
        },
        SimilarityStage::Cancelling { .. } => owned("用户已取消相似度扫描，正在保存已扫描结果..."),
        SimilarityStage::Clustering { .. } => owned("正在分析视觉特征并聚类相似图片组..."),
        SimilarityStage::Finalizing { groups, .. } => {
            let a = concat("扫描完成，发现 ", decimal_string(groups as u64).as_str());
            concat(a.as_str(), " 个相似分组，正在写入结果文件...")
        },
        SimilarityStage::Cancelled { scanned } => {
            let a = concat("扫描已取消，已保存 ", decimal_string(scanned as u64).as_str());
            concat(a.as_str(), " 张图片的部分结果。")
        },
        SimilarityStage::Completed { groups, duplicates, .. } => {
            let a = concat("扫描完成！发现 ", decimal_string(groups as u64).as_str());
            let b = concat(a.as_str(), " 个相似分组，共 ");
            let c = concat(b.as_str(), decimal_string(duplicates as u64).as_str());
            concat(c.as_str(), " 张重复/变体图片。")
        },
    };
    SimilarityScanProgress { phase, current, total, path, message, directory }
}

/// Whether a scan is still running, as the page sees it after re-mounting:
/// empty directory and path texts are reported as absent.
pub fn similarity_scan_state(snapshot: ScanProgressSnapshot) -> (r: SimilarityScanState)
    ensures
        r.running == snapshot.running,
        r.directory is Some <==> snapshot.directory@.len() > 0,
        r.directory matches Some(d) ==> d == snapshot.directory,
        r.path is Some <==> snapshot.path@.len() > 0,
        r.path matches Some(p) ==> p == snapshot.path,
        r.phase == snapshot.phase,
        r.current == snapshot.current,
        r.total == snapshot.total,
        r.message == snapshot.message,
{
    let dir_empty = to_chars(snapshot.directory.as_str()).len() == 0;
    let path_empty = to_chars(snapshot.path.as_str()).len() == 0;
    SimilarityScanState {
        running: snapshot.running,
        directory: if dir_empty {
            None
        } else {
            Some(snapshot.directory)
        },
        phase: snapshot.phase,
        current: snapshot.current,
        total: snapshot.total,
        path: if path_empty {
            None
        } else {
            Some(snapshot.path)
        },
        message: snapshot.message,
    }
}

/// The answer to a request to cancel the similarity scan.
pub fn similarity_cancel_response(running: bool) -> (r: ScanControlResponse)
    ensures
        r.running == running,
        r.status@ == if running { "cancelling"@ } else { "idle"@ },
        r.message@ == if running {
            "已请求取消相似度扫描，正在停止。"@
        } else {
            "当前没有运行中的相似度扫描。"@
        },
{
    ScanControlResponse {
        status: if running {
            owned("cancelling")
        } else {
            owned("idle")
        },
        running,
        message: if running {
            owned("已请求取消相似度扫描，正在停止。")
        } else {
            owned("当前没有运行中的相似度扫描。")
        },
    }
}


/// A file marked for deletion is deleted, never moved to the archive, and
/// whether an archive folder exists plays no part in it; only a file marked
/// for archiving is archived, and keeping touches nothing.
pub proof fn law_delete_means_delete(action: Seq<char>, exists: bool, has_archive_directory: bool)
    ensures
        decision_plan_spec("delete"@, true, has_archive_directory) == DecisionPlan::Delete,
        decision_plan_spec("delete"@, exists, has_archive_directory) == decision_plan_spec("delete"@, exists, !has_archive_directory),
        decision_plan_spec(action, exists, has_archive_directory) == DecisionPlan::Archive ==> action == "archive"@ && exists && has_archive_directory,
        decision_plan_spec(action, exists, has_archive_directory) == DecisionPlan::Delete ==> action == "delete"@ && exists,
        decision_plan_spec("keep"@, exists, has_archive_directory) == DecisionPlan::Keep,
{
    reveal_strlit("delete");
    reveal_strlit("keep");
    reveal_strlit("archive");
    assert("delete"@.len() == 6 && "keep"@.len() == 4 && "archive"@.len() == 7);
}

} // verus!
