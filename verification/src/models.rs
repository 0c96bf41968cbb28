//! The model inventory: what the application ships, can download or finds
//! in a Hugging Face cache.
//!
//! Two delivery paths exist: `models_dir` models are downloaded into
//! `models\<kind>\<id>\` by the worker; `hf_cache` models stay in the shared
//! Hugging Face cache. This module holds the naming rules, which repositories
//! are still missing and where an older cache could supply them.
use vstd::prelude::*;
use crate::order::{sorted_unique, strictly_sorted};
use crate::paths::{join, join_path};
use crate::text::{all_digits, concat, digits_value, from_chars, owned, parse_digits, string_views, to_chars, trim, trim_str};
use crate::workflow::{as_array, as_text, field, get_field, model, Json, JsonModel};

verus! {


/// The worker folder of a model kind; other kinds have none.
pub open spec fn kind_directory_spec(kind: Seq<char>) -> Option<Seq<char>> {
    if kind == "character_recognizer"@ {
        Some("recognizer"@)
    } else if kind == "head_detector"@ {
        Some("detector"@)
    } else {
        None
    }
}

pub fn kind_directory(kind: &str) -> (r: Option<&'static str>)
    ensures
        match r {
            Some(d) => kind_directory_spec(kind@) == Some(d@),
            None => kind_directory_spec(kind@) is None,
        },
{
    if crate::text::str_eq(kind, "character_recognizer") {
        Some("recognizer")
    } else if crate::text::str_eq(kind, "head_detector") {
        Some("detector")
    } else {
        None
    }
}

pub fn default_delivery() -> (r: String)
    ensures
        r@ == "models_dir"@,
{
    owned("models_dir")
}

#[derive(Debug, Clone)]
pub struct CatalogFile {
    /// A repository of its own; otherwise the entry's.
    pub repo_id: Option<String>,
    pub path: String,
    pub name: String,
}

/// The fields of a catalog entry that decide where it comes from.
#[derive(Debug, Clone)]
pub struct CatalogSource {
    pub id: String,
    pub delivery: String,
    pub repo_id: String,
    pub files: Vec<CatalogFile>,
}

#[derive(Debug, Clone)]
pub struct LegacyCache {
    pub path: String,
    pub repos: Vec<String>,
    pub bytes: u64,
}

pub open spec fn uses_cache_spec(e: CatalogSource) -> bool {
    e.delivery@ == "hf_cache"@
}

pub fn uses_cache(e: &CatalogSource) -> (b: bool)
    ensures
        b == uses_cache_spec(*e),
{
    crate::text::str_eq(e.delivery.as_str(), "hf_cache")
}

pub open spec fn file_repo_step(acc: Seq<Seq<char>>, f: CatalogFile) -> Seq<Seq<char>> {
    match f.repo_id {
        Some(r) => if trim(r@).len() > 0 && !acc.contains(trim(r@)) {
            acc.push(trim(r@))
        } else {
            acc
        },
        None => acc,
    }
}

pub open spec fn add_file_repos(acc: Seq<Seq<char>>, files: Seq<CatalogFile>) -> Seq<Seq<char>>
    decreases files.len(),
{
    if files.len() == 0 {
        acc
    } else {
        file_repo_step(add_file_repos(acc, files.drop_last()), files.last())
    }
}

/// Every repository an entry needs: its own (trimmed, unless blank), then
/// the files' own repositories in order, each once.
pub open spec fn repo_ids_spec(e: CatalogSource) -> Seq<Seq<char>> {
    let init = if trim(e.repo_id@).len() > 0 {
        seq![trim(e.repo_id@)]
    } else {
        Seq::empty()
    };
    add_file_repos(init, e.files@)
}

fn contains_view(v: &Vec<String>, s: &[char]) -> (b: bool)
    ensures
        b == string_views(v@).contains(s@),
{
    let mut i: usize = 0;
    while i < v.len()
        invariant
            i <= v@.len(),
            forall|k: int| 0 <= k < i ==> #[trigger] v@[k]@ != s@,
        decreases v@.len() - i,
    {
        if crate::text::chars_eq(to_chars(v[i].as_str()).as_slice(), s) {
            assert(string_views(v@)[i as int] == s@);
            return true;
        }
        i = i + 1;
    }
    proof {
        if string_views(v@).contains(s@) {
            let k = choose|k: int| 0 <= k < string_views(v@).len() && string_views(v@)[k] == s@;
            assert(v@[k]@ == s@);
        }
    }
    false
}

pub fn repo_ids(e: &CatalogSource) -> (r: Vec<String>)
    ensures
        string_views(r@) == repo_ids_spec(*e),
{
    let mut repos: Vec<String> = Vec::new();
    if !crate::text::is_blank(e.repo_id.as_str()) {
        repos.push(trim_str(e.repo_id.as_str()));
        assert(string_views(repos@) =~= seq![trim(e.repo_id@)]);
    } else {
        assert(string_views(repos@) =~= Seq::<Seq<char>>::empty());
    }
    let ghost init = string_views(repos@);
    let mut i: usize = 0;
    while i < e.files.len()
        invariant
            i <= e.files@.len(),
            string_views(repos@) == add_file_repos(init, e.files@.subrange(0, i as int)),
        decreases e.files@.len() - i,
    {
        let ghost sub = e.files@.subrange(0, i + 1);
        assert(sub.drop_last() =~= e.files@.subrange(0, i as int));
        assert(sub.last() == e.files@[i as int]);
        match &e.files[i].repo_id {
            Some(r) => {
                let t = trim_str(r.as_str());
                let tc = to_chars(t.as_str());
                if tc.len() > 0 && !contains_view(&repos, tc.as_slice()) {
                    let ghost before = repos@;
                    repos.push(t);
                    assert(string_views(repos@) =~= string_views(before).push(trim(r@)));
                }
            },
            None => {},
        }
        i = i + 1;
    }
    assert(e.files@.subrange(0, e.files@.len() as int) =~= e.files@);
    repos
}

/// The cache status the worker reported for an id: the last report wins.
pub open spec fn status_of(statuses: Seq<(String, String)>, id: Seq<char>) -> Option<Seq<char>>
    decreases statuses.len(),
{
    if statuses.len() == 0 {
        None
    } else if statuses.last().0@ == id {
        Some(statuses.last().1@)
    } else {
        status_of(statuses.drop_last(), id)
    }
}

pub open spec fn cache_installed(statuses: Seq<(String, String)>, id: Seq<char>) -> bool {
    status_of(statuses, id) == Some("installed"@)
}

/// The repositories of cache-backed entries that are not installed, with
/// repeats, in catalog order.
pub open spec fn wanted_repos(catalog: Seq<CatalogSource>, statuses: Seq<(String, String)>) -> Seq<Seq<char>>
    decreases catalog.len(),
{
    if catalog.len() == 0 {
        Seq::empty()
    } else {
        let e = catalog.last();
        wanted_repos(catalog.drop_last(), statuses) + if uses_cache_spec(e) && !cache_installed(
            statuses,
            e.id@,
        ) {
            repo_ids_spec(e)
        } else {
            Seq::empty()
        }
    }
}

fn installed_exec(statuses: &Vec<(String, String)>, id: &str) -> (b: bool)
    ensures
        b == cache_installed(statuses@, id@),
{
    let mut i: usize = statuses.len();
    assert(statuses@.subrange(0, statuses@.len() as int) =~= statuses@);
    while i > 0
        invariant
            i <= statuses@.len(),
            status_of(statuses@, id@) == status_of(statuses@.subrange(0, i as int), id@),
        decreases i,
    {
        let ghost sub = statuses@.subrange(0, i as int);
        assert(sub.drop_last() =~= statuses@.subrange(0, i - 1));
        assert(sub.last() == statuses@[i - 1]);
        if crate::text::str_eq(statuses[i - 1].0.as_str(), id) {
            return crate::text::str_eq(statuses[i - 1].1.as_str(), "installed");
        }
        i = i - 1;
    }
    false
}

/// The repositories still missing from the application cache, sorted and
/// each once (as a `BTreeSet` would list them).
pub fn missing_cache_repos(catalog: &Vec<CatalogSource>, statuses: &Vec<(String, String)>) -> (r:
    Vec<String>)
    ensures
        strictly_sorted(r@),
        forall|s: Seq<char>| string_views(r@).contains(s) <==> wanted_repos(catalog@, statuses@).contains(s),
{
    let mut all: Vec<String> = Vec::new();
    let mut i: usize = 0;
    while i < catalog.len()
        invariant
            i <= catalog@.len(),
            string_views(all@) == wanted_repos(catalog@.subrange(0, i as int), statuses@),
        decreases catalog@.len() - i,
    {
        let ghost sub = catalog@.subrange(0, i + 1);
        assert(sub.drop_last() =~= catalog@.subrange(0, i as int));
        assert(sub.last() == catalog@[i as int]);
        let e = &catalog[i];
        if uses_cache(e) && !installed_exec(statuses, e.id.as_str()) {
            let repos = repo_ids(e);
            let ghost before = string_views(all@);
            let mut j: usize = 0;
            while j < repos.len()
                invariant
                    j <= repos@.len(),
                    string_views(all@) == before + string_views(repos@).subrange(0, j as int),
                decreases repos@.len() - j,
            {
                let ghost old_all = all@;
                all.push(repos[j].clone());
                assert(string_views(all@) =~= string_views(old_all).push(repos@[j as int]@));
                assert(string_views(repos@).subrange(0, j + 1) =~= string_views(repos@).subrange(0, j as int).push(repos@[j as int]@));
                j = j + 1;
                assert(string_views(all@) =~= before + string_views(repos@).subrange(0, j as int));
            }
            assert(string_views(repos@).subrange(0, repos@.len() as int) =~= string_views(repos@));
        } else {
            assert(string_views(all@) =~= string_views(all@) + Seq::<Seq<char>>::empty());
        }
        i = i + 1;
    }
    assert(catalog@.subrange(0, catalog@.len() as int) =~= catalog@);
    sorted_unique(all)
}

/// Hugging Face keeps a repository in `models--<owner>--<name>`.
pub open spec fn cache_repo_folder_spec(repo_id: Seq<char>) -> Seq<char> {
    "models--"@ + slash_to_dashes(trim(repo_id))
}

pub open spec fn slash_to_dashes(s: Seq<char>) -> Seq<char>
    decreases s.len(),
{
    if s.len() == 0 {
        s
    } else if s.last() == '/' {
        slash_to_dashes(s.drop_last()) + "--"@
    } else {
        slash_to_dashes(s.drop_last()).push(s.last())
    }
}

/// Where a repository would be in a cache; `None` for a blank cache folder
/// or repository. The shell keeps it only when it is a folder.
pub fn cache_repo_dir(cache_dir: &str, repo_id: &str) -> (r: Option<String>)
    ensures
        r is Some <==> trim(cache_dir@).len() > 0 && trim(repo_id@).len() > 0,
        r matches Some(p) ==> p@ == join(cache_dir@, cache_repo_folder_spec(repo_id@)),
{
    if crate::text::is_blank(cache_dir) || crate::text::is_blank(repo_id) {
        return None;
    }
    let t = to_chars(trim_str(repo_id).as_str());
    let mut out: Vec<char> = to_chars("models--");
    let ghost start = out@;
    let mut i: usize = 0;
    while i < t.len()
        invariant
            i <= t@.len(),
            out@ == start + slash_to_dashes(t@.subrange(0, i as int)),
        decreases t@.len() - i,
    {
        assert(t@.subrange(0, i + 1).drop_last() =~= t@.subrange(0, i as int));
        if t[i] == '/' {
            out.push('-');
            out.push('-');
            proof {
                reveal_strlit("--");
                assert(out@ =~= start + slash_to_dashes(t@.subrange(0, i + 1)));
            }
        } else {
            out.push(t[i]);
            assert(out@ =~= start + slash_to_dashes(t@.subrange(0, i + 1)));
        }
        i = i + 1;
    }
    assert(t@.subrange(0, t@.len() as int) =~= t@);
    let folder = from_chars(out.as_slice());
    Some(join_path(cache_dir, folder.as_str()))
}

/// The folders that may hold an older Hugging Face cache, in the documented
/// order: `HF_HUB_CACHE`, then `HF_HOME\hub` and `HF_HOME`, then the per-user
/// locations.
pub open spec fn legacy_candidates_spec(
    hub_cache: Option<Seq<char>>,
    hf_home: Option<Seq<char>>,
    user_profile: Option<Seq<char>>,
    local_app_data: Option<Seq<char>>,
) -> Seq<Seq<char>> {
    (match hub_cache {
        Some(h) => seq![h],
        None => Seq::empty(),
    }) + (match hf_home {
        Some(h) => seq![join(h, "hub"@), h],
        None => Seq::empty(),
    }) + (match user_profile {
        Some(p) => seq![join(p, ".cache/huggingface/hub"@)],
        None => Seq::empty(),
    }) + (match local_app_data {
        Some(l) => seq![join(l, "huggingface/hub"@)],
        None => Seq::empty(),
    })
}

pub open spec fn opt_view(s: Option<String>) -> Option<Seq<char>> {
    match s {
        Some(v) => Some(v@),
        None => None,
    }
}

pub fn legacy_cache_candidates(
    hub_cache: Option<String>,
    hf_home: Option<String>,
    user_profile: Option<String>,
    local_app_data: Option<String>,
) -> (r: Vec<String>)
    ensures
        string_views(r@) == legacy_candidates_spec(
            opt_view(hub_cache),
            opt_view(hf_home),
            opt_view(user_profile),
            opt_view(local_app_data),
        ),
{
    let mut r: Vec<String> = Vec::new();
    let ghost a = match opt_view(hub_cache) {
        Some(h) => seq![h],
        None => Seq::<Seq<char>>::empty(),
    };
    match hub_cache {
        Some(h) => r.push(h),
        None => {},
    }
    assert(string_views(r@) =~= a);
    let ghost b = match opt_view(hf_home) {
        Some(h) => seq![join(h, "hub"@), h],
        None => Seq::<Seq<char>>::empty(),
    };
    match hf_home {
        Some(h) => {
            r.push(join_path(h.as_str(), "hub"));
            r.push(h);
        },
        None => {},
    }
    assert(string_views(r@) =~= a + b);
    let ghost c = match opt_view(user_profile) {
        Some(p) => seq![join(p, ".cache/huggingface/hub"@)],
        None => Seq::<Seq<char>>::empty(),
    };
    match user_profile {
        Some(p) => r.push(join_path(p.as_str(), ".cache/huggingface/hub")),
        None => {},
    }
    assert(string_views(r@) =~= a + b + c);
    let ghost d = match opt_view(local_app_data) {
        Some(l) => seq![join(l, "huggingface/hub"@)],
        None => Seq::<Seq<char>>::empty(),
    };
    match local_app_data {
        Some(l) => r.push(join_path(l.as_str(), "huggingface/hub")),
        None => {},
    }
    assert(string_views(r@) =~= a + b + c + d);
    r
}

/// A candidate folder and whether it exists as a folder.
#[derive(Debug, Clone)]
pub struct CacheCandidate {
    pub path: String,
    pub is_dir: bool,
}

pub open spec fn roots_step(acc: Seq<Seq<char>>, c: CacheCandidate) -> Seq<Seq<char>> {
    if c.path@.len() > 0 && c.is_dir && !acc.contains(c.path@) {
        acc.push(c.path@)
    } else {
        acc
    }
}

pub open spec fn roots_kept(cs: Seq<CacheCandidate>) -> Seq<Seq<char>>
    decreases cs.len(),
{
    if cs.len() == 0 {
        Seq::empty()
    } else {
        roots_step(roots_kept(cs.drop_last()), cs.last())
    }
}

/// The usable roots: existing folders, each once, never the application's
/// own cache nor its `hub`.
pub open spec fn legacy_roots_spec(cs: Seq<CacheCandidate>, own: Option<Seq<char>>) -> Seq<Seq<char>> {
    match own {
        Some(o) => without_own(roots_kept(cs), o),
        None => roots_kept(cs),
    }
}

/// The roots other than the application's cache and its `hub`.
pub open spec fn without_own(roots: Seq<Seq<char>>, own: Seq<char>) -> Seq<Seq<char>>
    decreases roots.len(),
{
    if roots.len() == 0 {
        roots
    } else if roots.last() == own || roots.last() == join(own, "hub"@) {
        without_own(roots.drop_last(), own)
    } else {
        without_own(roots.drop_last(), own).push(roots.last())
    }
}

pub open spec fn no_repeats(v: Seq<Seq<char>>) -> bool {
    forall|i: int, j: int| 0 <= i < j < v.len() ==> #[trigger] v[i] != #[trigger] v[j]
}

proof fn lemma_roots_kept_once(cs: Seq<CacheCandidate>)
    ensures
        no_repeats(roots_kept(cs)),
    decreases cs.len(),
{
    if cs.len() > 0 {
        lemma_roots_kept_once(cs.drop_last());
        let acc = roots_kept(cs.drop_last());
        let c = cs.last();
        if c.path@.len() > 0 && c.is_dir && !acc.contains(c.path@) {
            assert forall|i: int, j: int| 0 <= i < j < acc.push(c.path@).len() implies #[trigger] acc.push(c.path@)[i]
                != #[trigger] acc.push(c.path@)[j] by {
                if j == acc.len() {
                    assert(acc.push(c.path@)[i] == acc[i]);
                }
            }
        }
    }
}

proof fn lemma_without_own(roots: Seq<Seq<char>>, own: Seq<char>)
    requires
        no_repeats(roots),
    ensures
        no_repeats(without_own(roots, own)),
        forall|i: int| 0 <= i < without_own(roots, own).len() ==> {
            let r = #[trigger] without_own(roots, own)[i];
            &&& r != own
            &&& r != join(own, "hub"@)
            &&& roots.contains(r)
        },
    decreases roots.len(),
{
    if roots.len() > 0 {
        let init = roots.drop_last();
        assert forall|i: int, j: int| 0 <= i < j < init.len() implies #[trigger] init[i] != #[trigger] init[j] by {
            assert(init[i] == roots[i] && init[j] == roots[j]);
        }
        lemma_without_own(init, own);
        let w = without_own(init, own);
        assert forall|i: int| 0 <= i < w.len() implies roots.contains(#[trigger] w[i]) by {
            let k = choose|k: int| 0 <= k < init.len() && init[k] == w[i];
            assert(roots[k] == init[k]);
        }
        if !(roots.last() == own || roots.last() == join(own, "hub"@)) {
            let x = roots.last();
            assert forall|i: int| 0 <= i < w.len() implies #[trigger] w[i] != x by {
                let k = choose|k: int| 0 <= k < init.len() && init[k] == w[i];
                assert(roots[k] == init[k]);
                assert(roots[k] != roots[roots.len() - 1]);
            }
            assert forall|i: int, j: int| 0 <= i < j < w.push(x).len() implies #[trigger] w.push(x)[i]
                != #[trigger] w.push(x)[j] by {
                if j == w.len() {
                    assert(w.push(x)[i] == w[i]);
                }
            }
            assert forall|i: int| 0 <= i < w.push(x).len() implies roots.contains(#[trigger] w.push(x)[i]) by {
                if i == w.len() {
                    assert(roots[roots.len() - 1] == x);
                }
            }
        }
    }
}

/// The roots offered for adoption name each folder once and never the
/// application's own cache nor its `hub`.
pub proof fn law_own_cache_never_offered(cs: Seq<CacheCandidate>, own: Seq<char>)
    ensures
        no_repeats(legacy_roots_spec(cs, Some(own))),
        forall|i: int| 0 <= i < legacy_roots_spec(cs, Some(own)).len() ==> {
            let r = #[trigger] legacy_roots_spec(cs, Some(own))[i];
            r != own && r != join(own, "hub"@)
        },
{
    lemma_roots_kept_once(cs);
    lemma_without_own(roots_kept(cs), own);
}

/// Keep the candidates that exist, once each, and drop the application's
/// own cache (both spellings), so adopting never copies a folder onto itself.
pub fn legacy_cache_roots_from(candidates: Vec<CacheCandidate>, own_cache: Option<String>) -> (r:
    Vec<String>)
    ensures
        string_views(r@) == legacy_roots_spec(candidates@, opt_view(own_cache)),
{
    let mut roots: Vec<String> = Vec::new();
    let mut i: usize = 0;
    while i < candidates.len()
        invariant
            i <= candidates@.len(),
            string_views(roots@) == roots_kept(candidates@.subrange(0, i as int)),
        decreases candidates@.len() - i,
    {
        let ghost sub = candidates@.subrange(0, i + 1);
        assert(sub.drop_last() =~= candidates@.subrange(0, i as int));
        assert(sub.last() == candidates@[i as int]);
        let c = &candidates[i];
        let pc = to_chars(c.path.as_str());
        if pc.len() > 0 && c.is_dir && !contains_view(&roots, pc.as_slice()) {
            let ghost before = roots@;
            roots.push(c.path.clone());
            assert(string_views(roots@) =~= string_views(before).push(c.path@));
        }
        i = i + 1;
    }
    assert(candidates@.subrange(0, candidates@.len() as int) =~= candidates@);
    match own_cache {
        None => roots,
        Some(own) => {
            let own_hub = join_path(own.as_str(), "hub");
            let ghost kept = string_views(roots@);
            let mut out: Vec<String> = Vec::new();
            let mut j: usize = 0;
            while j < roots.len()
                invariant
                    j <= roots@.len(),
                    kept == string_views(roots@),
                    own_hub@ == join(own@, "hub"@),
                    string_views(out@) == without_own(kept.subrange(0, j as int), own@),
                decreases roots@.len() - j,
            {
                let ghost sub = kept.subrange(0, j + 1);
                assert(sub.drop_last() =~= kept.subrange(0, j as int));
                assert(sub.last() == roots@[j as int]@);
                let keep = !crate::text::str_eq(roots[j].as_str(), own.as_str()) && !crate::text::str_eq(
                    roots[j].as_str(),
                    own_hub.as_str(),
                );
                if keep {
                    let ghost before = out@;
                    out.push(roots[j].clone());
                    assert(string_views(out@) =~= string_views(before).push(roots@[j as int]@));
                }
                j = j + 1;
            }
            assert(kept.subrange(0, roots@.len() as int) =~= kept);
            out
        },
    }
}

/// What a root offers: the missing repositories it holds, in the order they
/// were asked for, and their total size; `None` when it holds none. `found`
/// gives, per missing repository, the size of its folder in this root or
/// `None` where there is no such folder.
pub open spec fn offered_repos(missing: Seq<String>, found: Seq<Option<u64>>) -> Seq<Seq<char>>
    decreases missing.len(),
{
    if missing.len() == 0 || found.len() != missing.len() {
        Seq::empty()
    } else {
        let rest = offered_repos(missing.drop_last(), found.drop_last());
        if found.last() is Some {
            rest.push(missing.last()@)
        } else {
            rest
        }
    }
}

pub open spec fn offered_bytes(found: Seq<Option<u64>>) -> nat
    decreases found.len(),
{
    if found.len() == 0 {
        0
    } else {
        offered_bytes(found.drop_last()) + match found.last() {
            Some(b) => b as nat,
            None => 0,
        }
    }
}

/// The sizes are added with saturation, as the folder sizes themselves are.
pub fn legacy_repos_in(root: &str, missing: &Vec<String>, found: &Vec<Option<u64>>) -> (r: Option<LegacyCache>)
    requires
        found@.len() == missing@.len(),
    ensures
        r is Some <==> offered_repos(missing@, found@).len() > 0,
        r matches Some(c) ==> c.path@ == root@ && string_views(c.repos@) == offered_repos(
            missing@,
            found@,
        ) && c.bytes == (if offered_bytes(found@) > u64::MAX {
            u64::MAX as nat
        } else {
            offered_bytes(found@)
        }),
{
    let mut repos: Vec<String> = Vec::new();
    let mut bytes: u64 = 0;
    let mut i: usize = 0;
    while i < missing.len()
        invariant
            i <= missing@.len(),
            found@.len() == missing@.len(),
            string_views(repos@) == offered_repos(missing@.subrange(0, i as int), found@.subrange(0, i as int)),
            bytes == (if offered_bytes(found@.subrange(0, i as int)) > u64::MAX {
                u64::MAX as nat
            } else {
                offered_bytes(found@.subrange(0, i as int))
            }),
        decreases missing@.len() - i,
    {
        assert(missing@.subrange(0, i + 1).drop_last() =~= missing@.subrange(0, i as int));
        assert(found@.subrange(0, i + 1).drop_last() =~= found@.subrange(0, i as int));
        assert(found@.subrange(0, i + 1).last() == found@[i as int]);
        assert(missing@.subrange(0, i + 1).last() == missing@[i as int]);
        match found[i] {
            Some(b) => {
                let ghost before = repos@;
                repos.push(missing[i].clone());
                assert(string_views(repos@) =~= string_views(before).push(missing@[i as int]@));
                bytes = bytes.saturating_add(b);
            },
            None => {},
        }
        i = i + 1;
    }
    assert(missing@.subrange(0, missing@.len() as int) =~= missing@);
    assert(found@.subrange(0, found@.len() as int) =~= found@);
    if repos.len() == 0 {
        None
    } else {
        Some(LegacyCache { path: owned(root), repos, bytes })
    }
}

/// The first offer that is there.
pub open spec fn first_offer(offers: Seq<Option<LegacyCache>>) -> Option<LegacyCache>
    decreases offers.len(),
{
    if offers.len() == 0 {
        None
    } else if offers[0] is Some {
        offers[0]
    } else {
        first_offer(offers.drop_first())
    }
}

/// The first root that can supply anything (`offers` holds, root by root,
/// what each offers); nothing when nothing is missing.
#[verifier::loop_isolation(false)]
pub fn legacy_cache_in(offers: Vec<Option<LegacyCache>>, missing_count: usize) -> (r: Option<
    LegacyCache,
>)
    ensures
        r == (if missing_count == 0 {
            None
        } else {
            first_offer(offers@)
        }),
{
    if missing_count == 0 {
        return None;
    }
    let ghost orig = offers@;
    let mut list = offers;
    let mut i: usize = 0;
    assert(orig.subrange(0, orig.len() as int) =~= orig);
    while i < list.len()
        invariant
            i <= list@.len(),
            list@ == orig,
            first_offer(orig) == first_offer(orig.subrange(i as int, orig.len() as int)),
        decreases list@.len() - i,
    {
        let ghost rest = orig.subrange(i as int, orig.len() as int);
        assert(rest[0] == orig[i as int]);
        assert(rest.drop_first() =~= orig.subrange(i + 1, orig.len() as int));
        if list[i].is_some() {
            let r = list.remove(i);
            return r;
        }
        i = i + 1;
    }
    None
}


/// Where a repository would be in a cache, as `cache_repo_dir` gives it.
pub open spec fn cache_repo_dir_spec(cache_dir: Seq<char>, repo_id: Seq<char>) -> Option<Seq<char>> {
    if trim(cache_dir).len() > 0 && trim(repo_id).len() > 0 {
        Some(join(cache_dir, cache_repo_folder_spec(repo_id)))
    } else {
        None
    }
}

/// The folder a `models_dir` entry is installed to: `<models>\<kind
/// folder>\<id>`, for the kinds that have a folder.
pub open spec fn model_dir_spec(models_dir: Seq<char>, kind: Seq<char>, id: Seq<char>) -> Option<Seq<char>> {
    match kind_directory_spec(kind) {
        Some(name) => Some(join(join(models_dir, name), id)),
        None => None,
    }
}

pub fn model_dir_candidate(models_dir: &str, kind: &str, id: &str) -> (r: Option<String>)
    ensures
        opt_string_view(r) == model_dir_spec(models_dir@, kind@, id@),
{
    match kind_directory(kind) {
        Some(name) => {
            let dir = join_path(models_dir, name);
            Some(join_path(dir.as_str(), id))
        },
        None => None,
    }
}

pub open spec fn opt_string_view(s: Option<String>) -> Option<Seq<char>> {
    match s {
        Some(v) => Some(v@),
        None => None,
    }
}

/// What the worker reported of one cache-backed entry.
#[derive(Debug, Clone)]
pub struct CacheStatus {
    pub status: String,
    pub total_bytes: u64,
    pub path: Option<String>,
}

/// Which candidate folders of an entry exist: the repository folder in the
/// cache (`cache_repo_dir`) and the install folder (`model_dir_candidate`).
#[derive(Debug, Clone, Copy)]
pub struct FolderProbe {
    pub cache_repo_dir: bool,
    pub model_dir: bool,
}

/// How the inventory shows an entry of the catalog.
#[derive(Debug, Clone)]
pub struct InventoryState {
    pub status: String,
    pub installed_bytes: u64,
    pub path: Option<String>,
    pub downloadable: bool,
    pub active: bool,
}

/// The status, size and folder of an entry the worker does not list as
/// installed: a cache-backed entry takes what the cache report says (its
/// folder, else the repository folder when it exists); anything else is
/// missing. A folder is only shown when there is one: failing the above,
/// the install folder when it exists.
pub open spec fn catalog_state(
    entry: CatalogSource,
    kind: Seq<char>,
    cache: Option<CacheStatus>,
    models_dir: Seq<char>,
    cache_dir: Seq<char>,
    probe: FolderProbe,
) -> (Seq<char>, u64, Option<Seq<char>>) {
    let repo_dir = if probe.cache_repo_dir {
        cache_repo_dir_spec(cache_dir, entry.repo_id@)
    } else {
        None
    };
    let (status, bytes, path) = if uses_cache_spec(entry) {
        match cache {
            Some(c) => (c.status@, c.total_bytes, match c.path {
                Some(p) => Some(p@),
                None => repo_dir,
            }),
            None => ("missing"@, 0u64, None),
        }
    } else {
        ("missing"@, 0u64, None)
    };
    let fallback = if probe.model_dir {
        model_dir_spec(models_dir, kind, entry.id@)
    } else {
        None
    };
    (status, bytes, if path is Some { path } else { fallback })
}

/// An entry of the catalog that the worker does not list as installed. It
/// can be downloaded when it lists files or carries metadata, and it is the
/// active recognizer when it is a character recognizer with the active id.
pub fn catalog_only_entry(
    entry: &CatalogSource,
    kind: &str,
    has_metadata: bool,
    cache: Option<&CacheStatus>,
    models_dir: &str,
    cache_dir: &str,
    active: &str,
    probe: FolderProbe,
) -> (r: InventoryState)
    ensures
        ({
            let cache_value = match cache {
                Some(c) => Some(*c),
                None => None,
            };
            let st = catalog_state(*entry, kind@, cache_value, models_dir@, cache_dir@, probe);
            &&& r.status@ == st.0
            &&& r.installed_bytes == st.1
            &&& opt_string_view(r.path) == st.2
        }),
        r.downloadable == (entry.files@.len() > 0 || has_metadata),
        r.active == (kind@ == "character_recognizer"@ && entry.id@ == active@),
{
    let (status, installed_bytes, path) = if uses_cache(entry) {
        match cache {
            Some(c) => {
                let p = match &c.path {
                    Some(p) => Some(p.clone()),
                    None => if probe.cache_repo_dir {
                        cache_repo_dir(cache_dir, entry.repo_id.as_str())
                    } else {
                        None
                    },
                };
                (c.status.clone(), c.total_bytes, p)
            },
            None => (owned("missing"), 0u64, None),
        }
    } else {
        (owned("missing"), 0u64, None)
    };
    let path = match path {
        Some(p) => Some(p),
        None => if probe.model_dir {
            model_dir_candidate(models_dir, kind, entry.id.as_str())
        } else {
            None
        },
    };
    InventoryState {
        status,
        installed_bytes,
        path,
        downloadable: entry.files.len() > 0 || has_metadata,
        active: crate::text::str_eq(kind, "character_recognizer") && crate::text::str_eq(entry.id.as_str(), active),
    }
}

proof fn lemma_views_contain(v: Seq<String>, s: Seq<char>)
    ensures
        string_views(v).contains(s) <==> exists|k: int| 0 <= k < v.len() && (#[trigger] v[k])@ == s,
{
    if string_views(v).contains(s) {
        let k = choose|k: int| 0 <= k < string_views(v).len() && string_views(v)[k] == s;
        assert(v[k]@ == s);
    }
    if exists|k: int| 0 <= k < v.len() && (#[trigger] v[k])@ == s {
        let k = choose|k: int| 0 <= k < v.len() && (#[trigger] v[k])@ == s;
        assert(string_views(v)[k] == s);
    }
}

/// How the inventory shows a model the worker lists as installed.
#[derive(Debug, Clone)]
pub struct InstalledState {
    pub status: String,
    pub path: Option<String>,
    /// Shipped with the application: not in the catalog.
    pub bundled: bool,
    pub downloadable: bool,
    pub active: bool,
}

/// A model the worker lists: its reported status (`installed` when it gives
/// none), its install folder when that exists, bundled exactly when the
/// catalog does not know it (and then not downloadable), active when it is
/// the active character recognizer.
pub fn installed_entry(
    id: &str,
    kind: &str,
    status: Option<String>,
    in_catalog: bool,
    models_dir: &str,
    active: &str,
    model_dir_exists: bool,
) -> (r: InstalledState)
    ensures
        r.status@ == (match status {
            Some(t) => t@,
            None => "installed"@,
        }),
        opt_string_view(r.path) == (if model_dir_exists { model_dir_spec(models_dir@, kind@, id@) } else { None }),
        r.bundled == !in_catalog,
        r.downloadable == in_catalog,
        r.active == (kind@ == "character_recognizer"@ && id@ == active@),
{
    InstalledState {
        status: match status {
            Some(t) => t,
            None => owned("installed"),
        },
        path: if model_dir_exists {
            model_dir_candidate(models_dir, kind, id)
        } else {
            None
        },
        bundled: !in_catalog,
        downloadable: in_catalog,
        active: crate::text::str_eq(kind, "character_recognizer") && crate::text::str_eq(id, active),
    }
}

/// The catalog entries the worker did not list, by position in the
/// catalog; they follow the listed models in the inventory.
pub fn unlisted_catalog_entries(listed_ids: &Vec<String>, catalog: &Vec<CatalogSource>) -> (r: Vec<usize>)
    ensures
        forall|k: int| 0 <= k < r@.len() ==> #[trigger] r@[k] < catalog@.len()
            && !string_views(listed_ids@).contains(catalog@[r@[k] as int].id@),
        forall|k: int, l: int| 0 <= k < l < r@.len() ==> r@[k] < r@[l],
        forall|j: int| 0 <= j < catalog@.len() && !string_views(listed_ids@).contains(#[trigger] catalog@[j].id@)
            ==> r@.contains(j as usize),
{
    let mut out: Vec<usize> = Vec::new();
    let mut j: usize = 0;
    while j < catalog.len()
        invariant
            j <= catalog@.len(),
            forall|k: int| 0 <= k < out@.len() ==> #[trigger] out@[k] < j
                && !string_views(listed_ids@).contains(catalog@[out@[k] as int].id@),
            forall|k: int, l: int| 0 <= k < l < out@.len() ==> out@[k] < out@[l],
            forall|i: int| 0 <= i < j && !string_views(listed_ids@).contains(#[trigger] catalog@[i].id@)
                ==> out@.contains(i as usize),
        decreases catalog@.len() - j,
    {
        let listed = crate::result_store::contains_text(listed_ids, catalog[j].id.as_str());
        proof { lemma_views_contain(listed_ids@, catalog@[j as int].id@); }
        if !listed {
            let ghost before = out@;
            out.push(j);
            assert forall|i: int| 0 <= i < j + 1 && !string_views(listed_ids@).contains(#[trigger] catalog@[i].id@)
                implies out@.contains(i as usize) by {
                if i < j {
                    let w = choose|w: int| 0 <= w < before.len() && before[w] == i as usize;
                    assert(out@[w] == i as usize);
                } else {
                    assert(out@[before.len() as int] == j);
                }
            }
        }
        j = j + 1;
    }
    out
}


/// The text of a value, where it is a string.
pub open spec fn text_value(v: Option<JsonModel>) -> Option<Seq<char>> {
    match v {
        Some(JsonModel::Str(t)) => Some(t),
        _ => None,
    }
}

/// The value of a number written as a non-negative integer that fits in
/// 64 bits.
pub open spec fn count_value(v: Option<JsonModel>) -> Option<nat> {
    match v {
        Some(JsonModel::Num(t)) => if t.len() > 0 && all_digits(t) && digits_value(t) <= u64::MAX {
            Some(digits_value(t))
        } else {
            None
        },
        _ => None,
    }
}

/// The path of the first file, from position `i` on, that is present and
/// names its path.
pub open spec fn present_path_from(files: Seq<JsonModel>, i: int) -> Option<Seq<char>>
    decreases files.len() - i,
{
    if i < 0 || i >= files.len() {
        None
    } else if field(files[i], "present"@) == Some(JsonModel::Bool(true)) && text_value(
        field(files[i], "path"@),
    ) is Some {
        text_value(field(files[i], "path"@))
    } else {
        present_path_from(files, i + 1)
    }
}

/// What one reported entry says: its status (`missing` when it gives none),
/// its size in bytes (0 when it gives none) and the first present file.
pub open spec fn reported_status(e: JsonModel) -> (Seq<char>, nat, Option<Seq<char>>) {
    (
        match text_value(field(e, "status"@)) {
            Some(t) => t,
            None => "missing"@,
        },
        match count_value(field(e, "total_bytes"@)) {
            Some(n) => n,
            None => 0,
        },
        match field(e, "files"@) {
            Some(JsonModel::Arr(fs)) => present_path_from(fs, 0),
            _ => None,
        },
    )
}

/// The statuses of the entries that name their id, in report order.
pub open spec fn reported_statuses(es: Seq<JsonModel>) -> Seq<(Seq<char>, (Seq<char>, nat, Option<Seq<char>>))>
    decreases es.len(),
{
    if es.len() == 0 {
        Seq::empty()
    } else {
        let rest = reported_statuses(es.drop_last());
        match text_value(field(es.last(), "id"@)) {
            Some(id) => rest.push((id, reported_status(es.last()))),
            None => rest,
        }
    }
}

/// The entries of a cache report.
pub open spec fn report_entries(payload: JsonModel) -> Seq<JsonModel> {
    match field(payload, "entries"@) {
        Some(JsonModel::Arr(es)) => es,
        _ => Seq::empty(),
    }
}

pub open spec fn status_view(s: (String, CacheStatus)) -> (Seq<char>, (Seq<char>, nat, Option<Seq<char>>)) {
    (s.0@, (s.1.status@, s.1.total_bytes as nat, opt_view(s.1.path)))
}

fn text_field(j: &Json, key: &str) -> (r: Option<String>)
    ensures
        opt_view(r) == text_value(field(model(*j), key@)),
{
    match get_field(j, key) {
        Some(v) => match as_text(v) {
            Some(t) => Some(t.clone()),
            None => None,
        },
        None => None,
    }
}

fn count_field(j: &Json, key: &str) -> (r: Option<u64>)
    ensures
        match r {
            Some(n) => count_value(field(model(*j), key@)) == Some(n as nat),
            None => count_value(field(model(*j), key@)) is None,
        },
{
    match get_field(j, key) {
        Some(Json::Num(t)) => parse_digits(to_chars(t.as_str()).as_slice()),
        _ => None,
    }
}

fn first_present_path(files: &Vec<Json>) -> (r: Option<String>)
    ensures
        opt_view(r) == present_path_from(items_of(files@), 0),
{
    let ghost fs = items_of(files@);
    let mut i: usize = 0;
    while i < files.len()
        invariant
            i <= files@.len(),
            fs == items_of(files@),
            present_path_from(fs, 0) == present_path_from(fs, i as int),
        decreases files@.len() - i,
    {
        let present = match get_field(&files[i], "present") {
            Some(Json::Bool(b)) => *b,
            _ => false,
        };
        if present {
            let p = text_field(&files[i], "path");
            if p.is_some() {
                return p;
            }
        }
        i = i + 1;
    }
    None
}

pub open spec fn items_of(v: Seq<Json>) -> Seq<JsonModel> {
    Seq::new(v.len(), |i: int| model(v[i]))
}

/// Read the worker's cache report: for each entry that names its id, its
/// status, size and first present file, in report order (a later entry for
/// the same id wins, as [`status_of`] looks from the end).
pub fn parse_cache_statuses(payload: &Json) -> (r: Vec<(String, CacheStatus)>)
    ensures
        Seq::new(r@.len(), |i: int| status_view(r@[i])) == reported_statuses(report_entries(model(*payload))),
{
    let mut out: Vec<(String, CacheStatus)> = Vec::new();
    let entries = match get_field(payload, "entries") {
        Some(e) => match as_array(e) {
            Some(v) => v,
            None => {
                assert(Seq::new(out@.len(), |i: int| status_view(out@[i])) =~= Seq::empty());
                return out;
            },
        },
        None => {
            assert(Seq::new(out@.len(), |i: int| status_view(out@[i])) =~= Seq::empty());
            return out;
        },
    };
    let ghost es = items_of(entries@);
    assert(es =~= report_entries(model(*payload)));
    let mut k: usize = 0;
    while k < entries.len()
        invariant
            k <= entries@.len(),
            es == items_of(entries@),
            Seq::new(out@.len(), |i: int| status_view(out@[i])) == reported_statuses(es.subrange(0, k as int)),
        decreases entries@.len() - k,
    {
        let ghost sub = es.subrange(0, k + 1);
        assert(sub.drop_last() =~= es.subrange(0, k as int));
        assert(sub.last() == model(entries@[k as int]));
        let e = &entries[k];
        let ghost before = out@;
        match text_field(e, "id") {
            Some(id) => {
                let status = match text_field(e, "status") {
                    Some(t) => t,
                    None => owned("missing"),
                };
                let total_bytes = match count_field(e, "total_bytes") {
                    Some(n) => n,
                    None => 0,
                };
                let path = match get_field(e, "files") {
                    Some(f) => match as_array(f) {
                        Some(files) => first_present_path(files),
                        None => None,
                    },
                    None => None,
                };
                out.push((id, CacheStatus { status, total_bytes, path }));
                assert(Seq::new(out@.len(), |i: int| status_view(out@[i])) =~= Seq::new(
                    before.len(),
                    |i: int| status_view(before[i]),
                ).push(status_view(out@[before.len() as int])));
            },
            None => {},
        }
        k = k + 1;
    }
    assert(es.subrange(0, entries@.len() as int) =~= es);
    out
}

} // verus!
