//! Where versioned scan results live, and how a library directory is keyed.
//!
//! Results are stored under `<data>\scan-results\<kind>\<key>\`, where the key
//! is a stable FNV-1a hash of the normalized directory so that private
//! absolute paths never appear in folder names. Reading and writing the files
//! is left to the shell; this module decides every name.
use vstd::prelude::*;
use crate::text::{to_chars, from_chars, lower_ascii, lower_char, is_prefix, hex_digits, push_hex};
use crate::paths::join;

verus! {

pub const RESULT_SCHEMA_VERSION: u32 = 1;

#[derive(Debug, Clone, Copy)]
pub enum ResultKind {
    Recognition,
    Similarity,
}

pub open spec fn kind_name(kind: ResultKind) -> Seq<char> {
    match kind {
        ResultKind::Recognition => "recognition"@,
        ResultKind::Similarity => "similarity"@,
    }
}

impl ResultKind {
    pub fn directory_name(self) -> (r: &'static str)
        ensures
            r@ == kind_name(self),
    {
        match self {
            ResultKind::Recognition => "recognition",
            ResultKind::Similarity => "similarity",
        }
    }
}

/// Unicode lower-casing as `str::to_lowercase` performs it.
pub uninterp spec fn unicode_lowercase(s: Seq<char>) -> Seq<char>;

/// std `str::to_lowercase`; its result is named, not restated.
#[verifier::external_body]
pub(crate) fn to_lowercase(s: &str) -> (r: String)
    ensures
        r@ == unicode_lowercase(s@),
{
    s.to_lowercase()
}

pub open spec fn backslash_to_slash(s: Seq<char>) -> Seq<char> {
    s.map_values(|c: char| if c == '\\' { '/' } else { c })
}

pub open spec fn trim_end_slashes(s: Seq<char>) -> Seq<char>
    decreases s.len(),
{
    if s.len() > 0 && s.last() == '/' {
        trim_end_slashes(s.drop_last())
    } else {
        s
    }
}

pub open spec fn unc_slash_prefix() -> Seq<char> {
    seq!['/', '/', '?', '/', 'u', 'n', 'c', '/']
}

pub open spec fn verbatim_slash_prefix() -> Seq<char> {
    seq!['/', '/', '?', '/']
}

/// Verbatim prefixes removed, compared without regard to ASCII case for UNC.
pub open spec fn strip_slash_verbatim(s: Seq<char>) -> Seq<char> {
    if s.len() >= 8 && lower_ascii(s.subrange(0, 8)) == unc_slash_prefix() {
        seq!['/', '/'] + s.subrange(8, s.len() as int)
    } else if is_prefix(verbatim_slash_prefix(), s) {
        s.subrange(4, s.len() as int)
    } else {
        s
    }
}

pub open spec fn fold(s: Seq<char>, fold_case: bool) -> Seq<char> {
    if fold_case {
        unicode_lowercase(s)
    } else {
        s
    }
}

/// The spelling of a library directory that its result key is derived from:
/// forward slashes, no verbatim prefix, no trailing slash, and lower case on
/// case-insensitive file systems (`fold_case`).
pub open spec fn normalized_directory(d: Seq<char>, fold_case: bool) -> Seq<char> {
    fold(trim_end_slashes(strip_slash_verbatim(backslash_to_slash(d))), fold_case)
}

/// The spelling older releases keyed results by (verbatim prefix kept).
pub open spec fn legacy_normalized_directory(d: Seq<char>, fold_case: bool) -> Seq<char> {
    fold(trim_end_slashes(backslash_to_slash(d)), fold_case)
}

pub const FNV_OFFSET: u64 = 0xcbf29ce484222325;

pub const FNV_PRIME: u64 = 0x100000001b3;

/// 64-bit FNV-1a over a byte sequence.
pub open spec fn fnv1a(bytes: Seq<u8>) -> u64
    decreases bytes.len(),
{
    if bytes.len() == 0 {
        FNV_OFFSET
    } else {
        (fnv1a(bytes.drop_last()) ^ (bytes.last() as u64)).wrapping_mul(FNV_PRIME)
    }
}

/// The key of a (normalized) directory: FNV-1a of its UTF-8 bytes as 16
/// lower-case hexadecimal digits.
pub open spec fn key_of(s: Seq<char>) -> Seq<char> {
    hex_digits(fnv1a(vstd::utf8::encode_utf8(s)) as nat, 16)
}

fn replace_backslashes(v: &[char]) -> (r: Vec<char>)
    ensures
        r@ == backslash_to_slash(v@),
{
    let mut r: Vec<char> = Vec::new();
    let mut i: usize = 0;
    while i < v.len()
        invariant
            i <= v@.len(),
            r@ == backslash_to_slash(v@.subrange(0, i as int)),
        decreases v@.len() - i,
    {
        let c = v[i];
        r.push(if c == '\\' { '/' } else { c });
        i = i + 1;
        assert(r@ =~= backslash_to_slash(v@.subrange(0, i as int)));
    }
    assert(v@.subrange(0, v@.len() as int) =~= v@);
    r
}

fn trim_slashes(v: &[char]) -> (r: Vec<char>)
    ensures
        r@ == trim_end_slashes(v@),
{
    let mut e = v.len();
    assert(v@.subrange(0, e as int) =~= v@);
    while e > 0 && v[e - 1] == '/'
        invariant
            e <= v@.len(),
            trim_end_slashes(v@) == trim_end_slashes(v@.subrange(0, e as int)),
        decreases e,
    {
        assert(v@.subrange(0, e as int).drop_last() =~= v@.subrange(0, e - 1));
        e = e - 1;
    }
    copy_range(v, 0, e)
}

fn copy_range(v: &[char], lo: usize, hi: usize) -> (r: Vec<char>)
    requires
        lo <= hi <= v@.len(),
    ensures
        r@ == v@.subrange(lo as int, hi as int),
{
    let mut r: Vec<char> = Vec::new();
    let mut i = lo;
    while i < hi
        invariant
            lo <= i <= hi <= v@.len(),
            r@ == v@.subrange(lo as int, i as int),
        decreases hi - i,
    {
        r.push(v[i]);
        i = i + 1;
        assert(r@ =~= v@.subrange(lo as int, i as int));
    }
    r
}

fn strip_verbatim_slash(v: &[char]) -> (r: Vec<char>)
    ensures
        r@ == strip_slash_verbatim(v@),
{
    if v.len() >= 8 {
        let head = copy_range(v, 0, 8);
        let low = crate::text::lower_chars(head.as_slice());
        let unc = to_chars("//?/unc/");
        proof {
            reveal_strlit("//?/unc/");
            assert(unc@ =~= unc_slash_prefix());
        }
        if crate::text::chars_eq(low.as_slice(), unc.as_slice()) {
            let rest = copy_range(v, 8, v.len());
            let mut out: Vec<char> = Vec::new();
            out.push('/');
            out.push('/');
            let mut rest2 = rest;
            out.append(&mut rest2);
            assert(out@ =~= seq!['/', '/'] + v@.subrange(8, v@.len() as int));
            return out;
        }
    }
    let plain = to_chars("//?/");
    proof {
        reveal_strlit("//?/");
        assert(plain@ =~= verbatim_slash_prefix());
    }
    if crate::text::starts_with_chars(v, plain.as_slice()) {
        copy_range(v, 4, v.len())
    } else {
        copy_range(v, 0, v.len())
    }
}

fn fold_exec(v: Vec<char>, fold_case: bool) -> (r: String)
    ensures
        r@ == fold(v@, fold_case),
{
    let s = from_chars(v.as_slice());
    if fold_case {
        to_lowercase(s.as_str())
    } else {
        s
    }
}

pub fn normalize_directory(directory: &str, fold_case: bool) -> (r: String)
    ensures
        r@ == normalized_directory(directory@, fold_case),
{
    let v = to_chars(directory);
    let a = replace_backslashes(v.as_slice());
    let b = strip_verbatim_slash(a.as_slice());
    let c = trim_slashes(b.as_slice());
    fold_exec(c, fold_case)
}

pub fn stable_directory_key(directory: &str) -> (r: String)
    ensures
        r@ == key_of(directory@),
{
    let bytes = directory.as_bytes();
    let mut hash: u64 = FNV_OFFSET;
    let mut i: usize = 0;
    while i < bytes.len()
        invariant
            i <= bytes@.len(),
            bytes@ == vstd::utf8::encode_utf8(directory@),
            hash == fnv1a(bytes@.subrange(0, i as int)),
        decreases bytes@.len() - i,
    {
        let ghost prev = bytes@.subrange(0, i as int);
        hash = (hash ^ (bytes[i] as u64)).wrapping_mul(FNV_PRIME);
        i = i + 1;
        assert(bytes@.subrange(0, i as int).drop_last() =~= prev);
    }
    assert(bytes@.subrange(0, bytes@.len() as int) =~= bytes@);
    let mut out: Vec<char> = Vec::new();
    push_hex(&mut out, hash, 16);
    assert(out@ =~= key_of(directory@));
    from_chars(out.as_slice())
}

/// Key of the folder that holds the results of a library directory.
pub fn directory_key(directory: &str, fold_case: bool) -> (r: String)
    ensures
        r@ == key_of(normalized_directory(directory@, fold_case)),
{
    stable_directory_key(normalize_directory(directory, fold_case).as_str())
}

/// Key that releases before verbatim-prefix stripping used.
pub fn legacy_directory_key(directory: &str, fold_case: bool) -> (r: String)
    ensures
        r@ == key_of(legacy_normalized_directory(directory@, fold_case)),
{
    let v = to_chars(directory);
    let a = replace_backslashes(v.as_slice());
    let c = trim_slashes(a.as_slice());
    let s = fold_exec(c, fold_case);
    stable_directory_key(s.as_str())
}

/// Whether two spellings name the same library directory without asking the
/// file system.
pub fn directories_match_by_name(left: &str, right: &str, fold_case: bool) -> (b: bool)
    ensures
        b == (normalized_directory(left@, fold_case) == normalized_directory(right@, fold_case)),
{
    let l = normalize_directory(left, fold_case);
    let r = normalize_directory(right, fold_case);
    crate::text::str_eq(l.as_str(), r.as_str())
}

pub open spec fn result_dir_spec(
    data_dir: Seq<char>,
    kind: ResultKind,
    directory: Seq<char>,
    fold_case: bool,
) -> Seq<char> {
    join(
        join(join(data_dir, "scan-results"@), kind_name(kind)),
        key_of(normalized_directory(directory, fold_case)),
    )
}

/// `<data>\scan-results\<kind>\<key>`.
pub fn result_directory(data_dir: &str, kind: ResultKind, directory: &str, fold_case: bool) -> (r:
    String)
    ensures
        r@ == result_dir_spec(data_dir@, kind, directory@, fold_case),
{
    let a = crate::paths::join_path(data_dir, "scan-results");
    let b = crate::paths::join_path(a.as_str(), kind.directory_name());
    let key = directory_key(directory, fold_case);
    crate::paths::join_path(b.as_str(), key.as_str())
}

/// `<data>\scan-results\<kind>`.
pub fn kind_root(data_dir: &str, kind: ResultKind) -> (r: String)
    ensures
        r@ == join(join(data_dir@, "scan-results"@), kind_name(kind)),
{
    let a = crate::paths::join_path(data_dir, "scan-results");
    crate::paths::join_path(a.as_str(), kind.directory_name())
}

pub open spec fn views(v: Seq<String>) -> Seq<Seq<char>> {
    v.map_values(|s: String| s@)
}

pub open spec fn key_list(directory: Seq<char>, canonical: Option<Seq<char>>, fold_case: bool) -> Seq<
    Seq<char>,
> {
    let own = seq![
        key_of(normalized_directory(directory, fold_case)),
        key_of(legacy_normalized_directory(directory, fold_case)),
    ];
    match canonical {
        Some(c) => own + seq![
            key_of(normalized_directory(c, fold_case)),
            key_of(legacy_normalized_directory(c, fold_case)),
        ],
        None => own,
    }
}

/// Every key a query for `directory` has to look under: the current and the
/// legacy key of the spelling given and, when the shell could canonicalize
/// it, of the canonical spelling too, each once.
pub fn candidate_keys(directory: &str, canonical: Option<&str>, fold_case: bool) -> (r: Vec<String>)
    ensures
        views(r@).no_duplicates(),
        views(r@).to_set() == key_list(
            directory@,
            match canonical {
                Some(c) => Some(c@),
                None => None,
            },
            fold_case,
        ).to_set(),
{
    let mut keys: Vec<String> = Vec::new();
    keys.push(directory_key(directory, fold_case));
    keys.push(legacy_directory_key(directory, fold_case));
    match canonical {
        Some(c) => {
            keys.push(directory_key(c, fold_case));
            keys.push(legacy_directory_key(c, fold_case));
        },
        None => {},
    }
    let ghost cv = match canonical {
        Some(c) => Some(c@),
        None => None,
    };
    assert(views(keys@) =~= key_list(directory@, cv, fold_case));
    dedup_strings(keys)
}

/// Does `v` hold a string with the text `s`?
pub fn contains_text(v: &Vec<String>, s: &str) -> (b: bool)
    ensures
        b == exists|k: int| 0 <= k < v@.len() && (#[trigger] v@[k])@ == s@,
{
    let mut j: usize = 0;
    while j < v.len()
        invariant
            j <= v@.len(),
            forall|k: int| 0 <= k < j ==> (#[trigger] v@[k])@ != s@,
        decreases v@.len() - j,
    {
        if crate::text::str_eq(v[j].as_str(), s) {
            return true;
        }
        j = j + 1;
    }
    false
}

/// Keep the first occurrence of every text, in order.
pub fn dedup_strings(v: Vec<String>) -> (r: Vec<String>)
    ensures
        views(r@).no_duplicates(),
        views(r@).to_set() == views(v@).to_set(),
{
    let mut r: Vec<String> = Vec::new();
    let mut i: usize = 0;
    while i < v.len()
        invariant
            i <= v@.len(),
            views(r@).no_duplicates(),
            views(r@).to_set() == views(v@.subrange(0, i as int)).to_set(),
        decreases v@.len() - i,
    {
        let s = v[i].clone();
        let ghost before = views(v@.subrange(0, i as int));
        assert(views(v@.subrange(0, i + 1)) =~= before.push(v@[i as int]@));
        let found = contains_text(&r, s.as_str());
        proof {
            if found {
                let k = choose|k: int| 0 <= k < r@.len() && (#[trigger] r@[k])@ == s@;
                assert(views(r@)[k] == s@);
                assert(views(r@).contains(s@));
            }
        }
        if !found {
            let ghost old_r = views(r@);
            assert(!old_r.contains(s@)) by {
                if old_r.contains(s@) {
                    let k = choose|k: int| 0 <= k < old_r.len() && old_r[k] == s@;
                    assert(r@[k]@ == s@);
                    assert(false);
                }
            }
            r.push(s);
            assert(views(r@) =~= old_r.push(v@[i as int]@));
            proof {
                old_r.lemma_push_to_set_commute(v@[i as int]@);
                before.lemma_push_to_set_commute(v@[i as int]@);
            }
        } else {
            proof {
                before.lemma_push_to_set_commute(v@[i as int]@);
                assert(views(r@).to_set().contains(v@[i as int]@));
                assert(views(r@).to_set().insert(v@[i as int]@) =~= views(r@).to_set());
            }
        }
        i = i + 1;
    }
    assert(v@.subrange(0, v@.len() as int) =~= v@);
    r
}


/// `{:020}` of a timestamp: twenty digits, zero padded, a minus sign taking
/// the place of the first digit of a negative one.
pub open spec fn padded_timestamp(t: int) -> Seq<char> {
    if t < 0 {
        "-"@ + crate::text::dec_digits((-t) as nat, 19)
    } else {
        crate::text::dec_digits(t as nat, 20)
    }
}

/// The file a result is saved to: `<timestamp>-<result id>.json`, the
/// timestamp in nanoseconds and padded so file names sort by age.
pub fn result_file_name(timestamp_nanos: i64, result_id: &str) -> (r: String)
    ensures
        r@ == padded_timestamp(timestamp_nanos as int) + "-"@ + result_id@ + ".json"@,
{
    let mut v: Vec<char> = Vec::new();
    if timestamp_nanos < 0 {
        v.push('-');
        let magnitude: u64 = (-(timestamp_nanos as i128)) as u64;
        crate::text::push_dec_digits(&mut v, magnitude, 19);
        proof {
            reveal_strlit("-");
            assert(v@ =~= padded_timestamp(timestamp_nanos as int));
        }
    } else {
        crate::text::push_dec_digits(&mut v, timestamp_nanos as u64, 20);
        assert(v@ =~= padded_timestamp(timestamp_nanos as int));
    }
    let stamp = from_chars(v.as_slice());
    crate::text::concat3(stamp.as_str(), crate::text::concat("-", result_id).as_str(), ".json")
}

/// The sort key of a listed file: its name (every listed entry has one).
pub open spec fn name_key(path: Seq<char>) -> Seq<char> {
    match crate::paths::file_name(path) {
        Some(n) => n,
        None => Seq::empty(),
    }
}

fn name_key_exec(path: &str) -> (r: String)
    ensures
        r@ == name_key(path@),
{
    match crate::paths::file_name_of(path) {
        Some(n) => n,
        None => String::new(),
    }
}

/// A saved result: a file with the extension `json`.
pub open spec fn is_result_file(path: Seq<char>) -> bool {
    crate::paths::extension(path) == Some("json"@)
}

pub fn is_result_file_name(path: &str) -> (b: bool)
    ensures
        b == is_result_file(path@),
{
    proof { reveal_strlit("json"); }
    match crate::paths::extension_of(path) {
        Some(e) => crate::text::str_eq(e.as_str(), "json"),
        None => false,
    }
}

broadcast use vstd::seq_lib::to_multiset_build, vstd::seq_lib::to_multiset_insert;

pub open spec fn names_newest_first(v: Seq<String>) -> bool {
    forall|i: int, j: int| 0 <= i < j < v.len() ==> crate::order::seq_le(name_key((#[trigger] v[j])@), name_key((#[trigger] v[i])@))
}

/// The saved results among the files listed in the result folders, newest
/// first: by file name, descending.
pub fn newest_results(paths: Vec<String>) -> (r: Vec<String>)
    ensures
        names_newest_first(r@),
        r@.to_multiset() == paths@.filter(|p: String| is_result_file(p@)).to_multiset(),
{
    let ghost pred = |p: String| is_result_file(p@);
    let mut kept: Vec<String> = Vec::new();
    let mut i: usize = 0;
    assert(paths@.subrange(0, 0).filter(pred) =~= kept@);
    while i < paths.len()
        invariant
            i <= paths@.len(),
            pred == (|p: String| is_result_file(p@)),
            kept@ == paths@.subrange(0, i as int).filter(pred),
        decreases paths@.len() - i,
    {
        assert(paths@.subrange(0, i + 1) =~= paths@.subrange(0, i as int).push(paths@[i as int]));
        proof {
            paths@.subrange(0, i as int).lemma_filter_push(paths@[i as int], pred);
        }
        if is_result_file_name(paths[i].as_str()) {
            kept.push(paths[i].clone());
        }
        i = i + 1;
    }
    assert(paths@.subrange(0, paths@.len() as int) =~= paths@);
    let mut out: Vec<String> = Vec::new();
    let mut j: usize = 0;
    assert(kept@.subrange(0, 0) =~= out@);
    while j < kept.len()
        invariant
            j <= kept@.len(),
            names_newest_first(out@),
            out@.to_multiset() == kept@.subrange(0, j as int).to_multiset(),
        decreases kept@.len() - j,
    {
        let x = kept[j].clone();
        let xk = name_key_exec(x.as_str());
        let mut p: usize = 0;
        while p < out.len() && !crate::order::less_exec(name_key_exec(out[p].as_str()).as_str(), xk.as_str())
            invariant
                p <= out@.len(),
                xk@ == name_key(x@),
                forall|k: int| 0 <= k < p ==> !crate::order::seq_less(name_key((#[trigger] out@[k])@), name_key(x@)),
            decreases out@.len() - p,
        {
            p = p + 1;
        }
        let ghost before = out@;
        let ghost kx = name_key(x@);
        proof {
            assert forall|k: int| 0 <= k < p implies crate::order::seq_le(kx, name_key((#[trigger] before[k])@)) by {
                crate::order::lemma_trichotomy(kx, name_key(before[k]@));
            }
            assert forall|k: int| p <= k < before.len() implies crate::order::seq_less(name_key((#[trigger] before[k])@), kx) by {
                if k > p {
                    assert(crate::order::seq_le(name_key(before[k]@), name_key(before[p as int]@)));
                    if name_key(before[p as int]@) != name_key(before[k]@) {
                        crate::order::lemma_transitive(name_key(before[k]@), name_key(before[p as int]@), kx);
                    }
                }
            }
        }
        out.insert(p, x);
        proof {
            assert(out@ == before.insert(p as int, kept@[j as int]));
            assert forall|a: int, b: int| 0 <= a < b < out@.len() implies crate::order::seq_le(
                name_key((#[trigger] out@[b])@),
                name_key((#[trigger] out@[a])@),
            ) by {
                if a < p && b == p {
                } else if a < p && b > p {
                    assert(out@[b] == before[b - 1]);
                    if b - 1 >= p {
                        if name_key(before[a]@) != kx {
                            crate::order::lemma_transitive(name_key(before[b - 1]@), kx, name_key(before[a]@));
                        }
                    }
                } else if a == p {
                    assert(out@[b] == before[b - 1]);
                } else if a > p {
                    assert(out@[a] == before[a - 1]);
                    assert(out@[b] == before[b - 1]);
                } else {
                    assert(out@[a] == before[a]);
                    assert(out@[b] == before[b]);
                }
            }
            assert(kept@.subrange(0, j + 1) =~= kept@.subrange(0, j as int).push(kept@[j as int]));
        }
        j = j + 1;
    }
    assert(kept@.subrange(0, kept@.len() as int) =~= kept@);
    out
}

/// A result just saved: its id, completion time and file.
#[derive(Debug, Clone)]
pub struct SavedResult {
    pub result_id: String,
    pub completed_at: String,
    pub path: String,
}

/// What a saved result file says of itself, when it could be read.
#[derive(Debug, Clone)]
pub struct StoredFacts {
    pub schema_version: u32,
    pub directory: String,
    /// The stored directory and the asked one resolve to the same folder
    /// on disk.
    pub same_on_disk: bool,
}

/// A stored result belongs to the asked directory when its schema is the
/// current one and the directories match by name or on disk.
pub open spec fn belongs(f: StoredFacts, directory: Seq<char>, fold_case: bool) -> bool {
    f.schema_version == RESULT_SCHEMA_VERSION && (normalized_directory(f.directory@, fold_case)
        == normalized_directory(directory, fold_case) || f.same_on_disk)
}

pub open spec fn record_belongs(rec: Option<StoredFacts>, directory: Seq<char>, fold_case: bool) -> bool {
    match rec {
        Some(f) => belongs(f, directory, fold_case),
        None => false,
    }
}

/// The latest result of a directory: the first of the files (newest first)
/// that could be read and belongs to it.
pub fn latest_result(records: &Vec<Option<StoredFacts>>, directory: &str, fold_case: bool) -> (r: Option<usize>)
    ensures
        match r {
            Some(k) => k < records@.len() && record_belongs(records@[k as int], directory@, fold_case)
                && forall|j: int| 0 <= j < k ==> !record_belongs(#[trigger] records@[j], directory@, fold_case),
            None => forall|j: int| 0 <= j < records@.len() ==> !record_belongs(#[trigger] records@[j], directory@, fold_case),
        },
{
    let mut i: usize = 0;
    while i < records.len()
        invariant
            i <= records@.len(),
            forall|j: int| 0 <= j < i ==> !record_belongs(#[trigger] records@[j], directory@, fold_case),
        decreases records@.len() - i,
    {
        match &records[i] {
            Some(f) => {
                if f.schema_version == RESULT_SCHEMA_VERSION
                    && (directories_match_by_name(f.directory.as_str(), directory, fold_case) || f.same_on_disk) {
                    return Some(i);
                }
            },
            None => {},
        }
        i = i + 1;
    }
    None
}

/// A drive path and its verbatim spelling (`\\?\C:\...`) name the same
/// directory and share its result key.
pub proof fn law_verbatim_drive_paths_share_keys(q: Seq<char>, fold_case: bool)
    requires
        !is_prefix(seq!['/', '/'], backslash_to_slash(q)),
        !(q.len() >= 4 && lower_ascii(backslash_to_slash(q).subrange(0, 4)) == seq!['u', 'n', 'c', '/']),
    ensures
        normalized_directory(seq!['\\', '\\', '?', '\\'] + q, fold_case) == normalized_directory(q, fold_case),
        key_of(normalized_directory(seq!['\\', '\\', '?', '\\'] + q, fold_case)) == key_of(normalized_directory(q, fold_case)),
{
    let c = backslash_to_slash(q);
    let v = seq!['\\', '\\', '?', '\\'] + q;
    let cv = backslash_to_slash(v);
    assert(cv =~= seq!['/', '/', '?', '/'] + c);
    if cv.len() >= 8 && lower_ascii(cv.subrange(0, 8)) == unc_slash_prefix() {
        assert(lower_ascii(c.subrange(0, 4)) =~= lower_ascii(cv.subrange(0, 8)).subrange(4, 8));
        assert(lower_ascii(c.subrange(0, 4)) =~= seq!['u', 'n', 'c', '/']);
        assert(false);
    }
    assert(cv.subrange(0, 4) =~= verbatim_slash_prefix());
    assert(is_prefix(verbatim_slash_prefix(), cv));
    assert(cv.subrange(4, cv.len() as int) =~= c);
    if c.len() >= 8 && lower_ascii(c.subrange(0, 8)) == unc_slash_prefix() {
        assert(lower_char(c[0]) == '/' && lower_char(c[1]) == '/');
        assert(c.subrange(0, 2) =~= seq!['/', '/']);
        assert(false);
    }
    if is_prefix(verbatim_slash_prefix(), c) {
        assert(c.subrange(0, 2) =~= seq!['/', '/']);
        assert(false);
    }
}

/// A share path (`\\server\share`) and its verbatim spelling
/// (`\\?\UNC\server\share`) name the same directory and share its result
/// key.
pub proof fn law_verbatim_unc_paths_share_keys(r: Seq<char>, fold_case: bool)
    requires
        !(r.len() > 0 && r[0] == '?'),
    ensures
        normalized_directory(seq!['\\', '\\', '?', '\\', 'U', 'N', 'C', '\\'] + r, fold_case)
            == normalized_directory(seq!['\\', '\\'] + r, fold_case),
        key_of(normalized_directory(seq!['\\', '\\', '?', '\\', 'U', 'N', 'C', '\\'] + r, fold_case))
            == key_of(normalized_directory(seq!['\\', '\\'] + r, fold_case)),
{
    let cr = backslash_to_slash(r);
    let v = seq!['\\', '\\', '?', '\\', 'U', 'N', 'C', '\\'] + r;
    let w = seq!['\\', '\\'] + r;
    let cv = backslash_to_slash(v);
    let cw = backslash_to_slash(w);
    assert(cv =~= seq!['/', '/', '?', '/', 'U', 'N', 'C', '/'] + cr);
    assert(cw =~= seq!['/', '/'] + cr);
    assert(lower_ascii(cv.subrange(0, 8)) =~= unc_slash_prefix());
    assert(cv.subrange(8, cv.len() as int) =~= cr);
    assert(seq!['/', '/'] + cv.subrange(8, cv.len() as int) =~= cw);
    if cw.len() >= 8 && lower_ascii(cw.subrange(0, 8)) == unc_slash_prefix() {
        assert(lower_ascii(cw.subrange(0, 8))[2] == lower_char(cw[2]));
        assert(cw[2] == cr[0]);
        assert(false);
    }
    if is_prefix(verbatim_slash_prefix(), cw) {
        assert(cw.subrange(0, 4)[2] == cw[2]);
        assert(false);
    }
}

} // verus!
