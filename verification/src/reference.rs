//! The reference-image library built from corrected samples.
//!
//! The library lives in `data\reference-library.json`; the worker reads it by
//! path, so the vectors never travel with each recognition request.
use vstd::prelude::*;
use crate::paths::{join, join_path};
use crate::text::{from_chars, lower_ascii, lower_chars, owned, to_chars, trim, trim_chars};

verus! {

pub const REFERENCE_LIBRARY_FILE: &'static str = "reference-library.json";

/// The two ways the worker can build reference vectors.
pub open spec fn is_backend(s: Seq<char>) -> bool {
    s == "ccip"@ || s == "embedding"@
}

pub fn library_path(data_dir: &str) -> (r: String)
    ensures
        r@ == join(data_dir@, REFERENCE_LIBRARY_FILE@),
{
    join_path(data_dir, REFERENCE_LIBRARY_FILE)
}

#[derive(Debug, Clone)]
pub struct ReferenceCharacterSummary {
    pub identity_id: String,
    pub display_name: String,
    pub references: usize,
}

#[derive(Debug, Clone)]
pub struct ReferenceLibraryStatus {
    pub enabled: bool,
    pub backend: String,
    pub path: String,
    pub exists: bool,
    pub identities: usize,
    pub references: usize,
    pub built_at: Option<String>,
    pub characters: Vec<ReferenceCharacterSummary>,
}

/// One entry of the library file, as far as its JSON gave the fields.
#[derive(Debug, Clone)]
pub struct LibraryEntryFacts {
    pub identity_id: Option<String>,
    pub display_name: Option<String>,
    /// The length of the `vectors` array, where there is one.
    pub vector_count: Option<usize>,
}

/// What a readable library file holds.
#[derive(Debug, Clone)]
pub struct LibraryFileFacts {
    pub backend: Option<String>,
    pub built_at: Option<String>,
    pub entries: Option<Vec<LibraryEntryFacts>>,
}

pub open spec fn entry_references(e: LibraryEntryFacts) -> nat {
    match e.vector_count {
        Some(n) => n as nat,
        None => 0,
    }
}

pub open spec fn total_references(es: Seq<LibraryEntryFacts>) -> nat
    decreases es.len(),
{
    if es.len() == 0 {
        0
    } else {
        total_references(es.drop_last()) + entry_references(es.last())
    }
}

pub open spec fn text_or_empty(s: Option<String>) -> Seq<char> {
    match s {
        Some(t) => t@,
        None => Seq::empty(),
    }
}

pub open spec fn summary_matches(c: ReferenceCharacterSummary, e: LibraryEntryFacts) -> bool {
    c.identity_id@ == text_or_empty(e.identity_id) && c.display_name@ == text_or_empty(
        e.display_name,
    ) && c.references == entry_references(e)
}

fn text_of(s: &Option<String>) -> (r: String)
    ensures
        r@ == text_or_empty(*s),
{
    match s {
        Some(t) => t.clone(),
        None => String::new(),
    }
}

/// The library as shown in the settings: the configured switch and backend;
/// when the file could be read, the backend and build time it records and
/// one summary per character with its number of reference vectors.
pub fn reference_status(
    enabled: bool,
    configured_backend: String,
    path: String,
    file: Option<LibraryFileFacts>,
) -> (r: ReferenceLibraryStatus)
    requires
        file matches Some(f) && f.entries matches Some(es) ==> total_references(es@) <= usize::MAX,
    ensures
        r.enabled == enabled,
        r.path == path,
        r.exists == file is Some,
        match file {
            None => r.backend == configured_backend && r.identities == 0 && r.references == 0
                && r.built_at is None && r.characters@.len() == 0,
            Some(f) => {
                &&& r.backend == (match f.backend {
                    Some(b) => b,
                    None => configured_backend,
                })
                &&& r.built_at == f.built_at
                &&& match f.entries {
                    None => r.identities == 0 && r.references == 0 && r.characters@.len() == 0,
                    Some(es) => {
                        &&& r.identities == es@.len()
                        &&& r.references == total_references(es@)
                        &&& r.characters@.len() == es@.len()
                        &&& forall|i: int|
                            0 <= i < es@.len() ==> summary_matches(#[trigger] r.characters@[i], es@[i])
                    },
                }
            },
        },
{
    match file {
        None => ReferenceLibraryStatus {
            enabled,
            backend: configured_backend,
            path,
            exists: false,
            identities: 0,
            references: 0,
            built_at: None,
            characters: Vec::new(),
        },
        Some(f) => {
            let backend = match f.backend {
                Some(b) => b,
                None => configured_backend,
            };
            let mut characters: Vec<ReferenceCharacterSummary> = Vec::new();
            let mut references: usize = 0;
            let mut identities: usize = 0;
            match &f.entries {
                Some(es) => {
                    let mut i: usize = 0;
                    while i < es.len()
                        invariant
                            i <= es@.len(),
                            total_references(es@) <= usize::MAX,
                            references == total_references(es@.subrange(0, i as int)),
                            characters@.len() == i,
                            forall|k: int|
                                0 <= k < i ==> summary_matches(#[trigger] characters@[k], es@[k]),
                        decreases es@.len() - i,
                    {
                        proof {
                            assert(es@.subrange(0, i + 1).drop_last() =~= es@.subrange(0, i as int));
                            lemma_total_prefix(es@, i + 1);
                        }
                        let e = &es[i];
                        let n: usize = match e.vector_count {
                            Some(n) => n,
                            None => 0,
                        };
                        references = references + n;
                        characters.push(
                            ReferenceCharacterSummary {
                                identity_id: text_of(&e.identity_id),
                                display_name: text_of(&e.display_name),
                                references: n,
                            },
                        );
                        i = i + 1;
                    }
                    assert(es@.subrange(0, es@.len() as int) =~= es@);
                    identities = es.len();
                },
                None => {},
            }
            ReferenceLibraryStatus {
                enabled,
                backend,
                path,
                exists: true,
                identities,
                references,
                built_at: f.built_at,
                characters,
            }
        },
    }
}

proof fn lemma_total_prefix(es: Seq<LibraryEntryFacts>, i: int)
    requires
        0 <= i <= es.len(),
    ensures
        total_references(es.subrange(0, i)) <= total_references(es),
    decreases es.len(),
{
    if i < es.len() {
        assert(es.subrange(0, i) =~= es.drop_last().subrange(0, i));
        lemma_total_prefix(es.drop_last(), i);
    } else {
        assert(es.subrange(0, i) =~= es);
    }
}

/// The backend of a build: the requested one (trimmed, ASCII lower case)
/// when it is a known backend, else the configured one; an error when that
/// is not a known backend either.
pub open spec fn build_backend_spec(requested: Option<Seq<char>>, configured: Seq<char>) -> Option<Seq<char>> {
    let chosen = match requested {
        Some(r) => if is_backend(lower_ascii(trim(r))) {
            lower_ascii(trim(r))
        } else {
            configured
        },
        None => configured,
    };
    if is_backend(chosen) {
        Some(chosen)
    } else {
        None
    }
}

pub fn choose_build_backend(requested: Option<String>, configured: String) -> (r: Result<String, String>)
    ensures
        match r {
            Ok(b) => build_backend_spec(
                match requested {
                    Some(q) => Some(q@),
                    None => None,
                },
                configured@,
            ) == Some(b@),
            Err(m) => build_backend_spec(
                match requested {
                    Some(q) => Some(q@),
                    None => None,
                },
                configured@,
            ) is None && m@ == "参考库后端只能是 ccip / embedding"@,
        },
{
    let ccip = to_chars("ccip");
    let embedding = to_chars("embedding");
    let chosen: String = match requested {
        Some(q) => {
            let v = lower_chars(trim_chars(to_chars(q.as_str()).as_slice()).as_slice());
            if crate::text::chars_eq(v.as_slice(), ccip.as_slice()) || crate::text::chars_eq(
                v.as_slice(),
                embedding.as_slice(),
            ) {
                from_chars(v.as_slice())
            } else {
                configured
            }
        },
        None => configured,
    };
    let c = to_chars(chosen.as_str());
    if crate::text::chars_eq(c.as_slice(), ccip.as_slice()) || crate::text::chars_eq(
        c.as_slice(),
        embedding.as_slice(),
    ) {
        Ok(chosen)
    } else {
        Err(owned("参考库后端只能是 ccip / embedding"))
    }
}

/// The library handed to the worker during scans: only when matching is
/// switched on and the library file exists.
pub fn active_library_path(enabled: bool, data_dir: &str, library_is_file: bool) -> (r: Option<String>)
    ensures
        r is Some <==> enabled && library_is_file,
        r matches Some(p) ==> p@ == join(data_dir@, REFERENCE_LIBRARY_FILE@),
{
    if enabled && library_is_file {
        Some(library_path(data_dir))
    } else {
        None
    }
}

/// The counts reported after a build; counts the worker left out are zero.
pub fn count_or_zero(value: Option<u64>) -> (r: u64)
    ensures
        r == (match value {
            Some(v) => v,
            None => 0u64,
        }),
{
    match value {
        Some(v) => v,
        None => 0,
    }
}

} // verus!
