//! The AI runtime environment, installed apart from the desktop application.
//!
//! Application packages stay small; the matching CPU or GPU worker archive is
//! downloaded once, checked, staged beside its destination and switched into
//! `app\runtime` / `app\env`. This module names the archive, reads the
//! published checksum, hashes the download, screens archive entries and
//! words the status; the shell downloads, unpacks and renames.
use vstd::prelude::*;
use sha2::Digest;
use crate::paths::{is_sep, join, join_path};
use crate::text::{
    char_views, concat, from_chars, lower_ascii, lower_chars, owned, to_chars, trim, trim_chars,
    words,
};

verus! {

pub const RELEASE_ROOT: &'static str = "https://github.com/RoamerFly/anime-pic-manage/releases/download";

pub const PROGRESS_EVENT: &'static str = "worker-environment://install";

#[derive(Debug, Clone)]
pub struct WorkerEnvironmentManifest {
    pub version: String,
    pub flavor: String,
    pub asset_name: String,
    pub installed_at: String,
}

#[derive(Debug, Clone)]
pub struct WorkerEnvironmentStatus {
    pub installed: bool,
    pub version: Option<String>,
    pub flavor: String,
    pub directory: String,
    pub asset_name: String,
    pub message: String,
}

/// The package flavor from `BUILD_FLAVOR.txt`: `cpu` or `gpu` (trimmed, any
/// ASCII case); anything else, or no file, means `cpu`.
pub open spec fn flavor_spec(file_text: Option<Seq<char>>) -> Seq<char> {
    match file_text {
        Some(t) => if lower_ascii(trim(t)) == "gpu"@ {
            "gpu"@
        } else {
            "cpu"@
        },
        None => "cpu"@,
    }
}

pub fn build_flavor(file_text: Option<String>) -> (r: String)
    ensures
        r@ == flavor_spec(match file_text {
            Some(t) => Some(t@),
            None => None,
        }),
{
    match file_text {
        Some(t) => {
            let v = lower_chars(trim_chars(to_chars(t.as_str()).as_slice()).as_slice());
            let gpu = to_chars("gpu");
            if crate::text::chars_eq(v.as_slice(), gpu.as_slice()) {
                owned("gpu")
            } else {
                owned("cpu")
            }
        },
        None => owned("cpu"),
    }
}

/// The release asset that holds the environment of a version and flavor.
pub fn asset_name(version: &str, flavor: &str) -> (r: String)
    ensures
        r@ == "AnimePicManage-"@ + version@ + "-windows-x64-"@ + flavor@ + "-runtime.zip"@,
{
    let a = concat("AnimePicManage-", version);
    let b = concat(a.as_str(), "-windows-x64-");
    let c = concat(b.as_str(), flavor);
    concat(c.as_str(), "-runtime.zip")
}

/// Where the asset of a version is published.
pub fn download_url(version: &str, asset: &str) -> (r: String)
    ensures
        r@ == RELEASE_ROOT@ + "/v"@ + version@ + "/"@ + asset@,
{
    let a = concat(RELEASE_ROOT, "/v");
    let b = concat(a.as_str(), version);
    let c = concat(b.as_str(), "/");
    concat(c.as_str(), asset)
}

/// The two files whose presence makes an environment usable.
pub fn environment_probe_targets(app_dir: &str) -> (r: (String, String))
    ensures
        r.0@ == join(join(app_dir@, "runtime"@), "ai-worker.exe"@),
        r.1@ == join(join(join(app_dir@, "env"@), "Scripts"@), "python.exe"@),
{
    let worker = join_path(join_path(app_dir, "runtime").as_str(), "ai-worker.exe");
    let python = join_path(
        join_path(join_path(app_dir, "env").as_str(), "Scripts").as_str(),
        "python.exe",
    );
    (worker, python)
}

/// An environment is ready when the worker and the Python interpreter are
/// both files.
pub fn environment_ready(worker_is_file: bool, python_is_file: bool) -> (b: bool)
    ensures
        b == (worker_is_file && python_is_file),
{
    worker_is_file && python_is_file
}

/// The status of the environment under a package root.
pub fn status_for_root(
    root: &str,
    flavor: String,
    app_version: &str,
    manifest_version: Option<String>,
    installed: bool,
) -> (r: WorkerEnvironmentStatus)
    ensures
        r.installed == installed,
        r.version == manifest_version,
        r.flavor == flavor,
        r.directory@ == join(root@, "app"@),
        r.asset_name@ == "AnimePicManage-"@ + app_version@ + "-windows-x64-"@ + flavor@ + "-runtime.zip"@,
        r.message@ == if installed {
            "AI 运行环境已独立安装，应用更新会继续复用。"@
        } else {
            "尚未安装 AI 运行环境；首次准备后，后续应用更新无需重复下载。"@
        },
{
    let asset = asset_name(app_version, flavor.as_str());
    WorkerEnvironmentStatus {
        installed,
        version: manifest_version,
        flavor,
        directory: join_path(root, "app"),
        asset_name: asset,
        message: if installed {
            owned("AI 运行环境已独立安装，应用更新会继续复用。")
        } else {
            owned("尚未安装 AI 运行环境；首次准备后，后续应用更新无需重复下载。")
        },
    }
}

/// Bytes taken by one character in UTF-8.
pub open spec fn utf8_width(c: char) -> nat {
    if (c as u32) < 0x80 {
        1
    } else if (c as u32) < 0x800 {
        2
    } else if (c as u32) < 0x10000 {
        3
    } else {
        4
    }
}

/// `str::len`: the length of the text in UTF-8 bytes.
pub open spec fn utf8_len(s: Seq<char>) -> nat
    decreases s.len(),
{
    if s.len() == 0 {
        0
    } else {
        utf8_len(s.drop_last()) + utf8_width(s.last())
    }
}

proof fn lemma_utf8_len_prefix(s: Seq<char>, i: int)
    requires
        0 <= i <= s.len(),
    ensures
        utf8_len(s.subrange(0, i)) <= utf8_len(s),
    decreases s.len(),
{
    if i < s.len() {
        assert(s.subrange(0, i) =~= s.drop_last().subrange(0, i));
        lemma_utf8_len_prefix(s.drop_last(), i);
    } else {
        assert(s.subrange(0, i) =~= s);
    }
}

fn utf8_len_is(v: &[char], n: usize) -> (b: bool)
    ensures
        b == (utf8_len(v@) == n),
{
    let mut count: usize = 0;
    let mut i: usize = 0;
    while i < v.len()
        invariant
            i <= v@.len(),
            count == utf8_len(v@.subrange(0, i as int)),
            count <= n,
        decreases v@.len() - i,
    {
        assert(v@.subrange(0, i + 1).drop_last() =~= v@.subrange(0, i as int));
        let c = v[i];
        let w: usize = if (c as u32) < 0x80 {
            1
        } else if (c as u32) < 0x800 {
            2
        } else if (c as u32) < 0x10000 {
            3
        } else {
            4
        };
        if w > n - count {
            proof {
                lemma_utf8_len_prefix(v@, i + 1);
            }
            return false;
        }
        count = count + w;
        i = i + 1;
    }
    assert(v@.subrange(0, v@.len() as int) =~= v@);
    count == n
}

/// The expected digest from a published `.sha256` file: its first word in
/// ASCII lower case, when that is 64 bytes long.
pub open spec fn expected_sha256_spec(text: Seq<char>) -> Option<Seq<char>> {
    if words(text).len() > 0 && utf8_len(lower_ascii(words(text)[0])) == 64 {
        Some(lower_ascii(words(text)[0]))
    } else {
        None
    }
}

pub fn parse_expected_sha256(text: &str) -> (r: Option<String>)
    ensures
        match r {
            Some(d) => expected_sha256_spec(text@) == Some(d@),
            None => expected_sha256_spec(text@) is None,
        },
{
    let ws = crate::text::split_words(to_chars(text).as_slice());
    if ws.len() == 0 {
        return None;
    }
    assert(char_views(ws@)[0] == ws@[0]@);
    let lowered = lower_chars(ws[0].as_slice());
    if utf8_len_is(lowered.as_slice(), 64) {
        Some(from_chars(lowered.as_slice()))
    } else {
        None
    }
}

/// Text up to the first path separator: the top-level folder of an entry.
pub open spec fn first_component(s: Seq<char>) -> Seq<char>
    decreases s.len(),
{
    if s.len() == 0 {
        s
    } else if is_sep(s[0]) {
        first_component(s.drop_first())
    } else {
        first_word_until_sep(s)
    }
}

pub open spec fn first_word_until_sep(s: Seq<char>) -> Seq<char>
    decreases s.len(),
{
    if s.len() == 0 || is_sep(s[0]) {
        Seq::empty()
    } else {
        seq![s[0]] + first_word_until_sep(s.drop_first())
    }
}

/// Why an archive entry is refused.
#[derive(Debug, Clone)]
pub enum ArchiveEntryError {
    /// The entry's name leaves the destination (absolute, `..`).
    Unsafe(String),
    /// The entry is outside `runtime` and `env`.
    UnknownTopLevel(String),
}

pub open spec fn entry_error_text(e: ArchiveEntryError) -> Seq<char> {
    match e {
        ArchiveEntryError::Unsafe(n) => "运行环境包含不安全路径："@ + n@,
        ArchiveEntryError::UnknownTopLevel(p) => "运行环境包含未知顶层目录："@ + p@,
    }
}

pub fn archive_entry_error_text(e: &ArchiveEntryError) -> (r: String)
    ensures
        r@ == entry_error_text(*e),
{
    match e {
        ArchiveEntryError::Unsafe(n) => concat("运行环境包含不安全路径：", n.as_str()),
        ArchiveEntryError::UnknownTopLevel(p) => concat("运行环境包含未知顶层目录：", p.as_str()),
    }
}

/// An archive entry may be unpacked when its enclosed (safe) relative path
/// exists and starts with `runtime` or `env` in any ASCII case.
pub open spec fn entry_allowed_spec(relative: Seq<char>) -> bool {
    lower_ascii(first_component(relative)) == "runtime"@ || lower_ascii(first_component(relative))
        == "env"@
}

fn first_component_of(v: &[char]) -> (r: Vec<char>)
    ensures
        r@ == first_component(v@),
{
    let mut i: usize = 0;
    assert(v@.subrange(0, v@.len() as int) =~= v@);
    while i < v.len() && (v[i] == '\\' || v[i] == '/')
        invariant
            i <= v@.len(),
            first_component(v@) == first_component(v@.subrange(i as int, v@.len() as int)),
        decreases v@.len() - i,
    {
        let ghost rest = v@.subrange(i as int, v@.len() as int);
        assert(rest.drop_first() =~= v@.subrange(i + 1, v@.len() as int));
        i = i + 1;
    }
    let start = i;
    let mut j: usize = i;
    let ghost rest = v@.subrange(start as int, v@.len() as int);
    proof {
        if rest.len() > 0 {
            assert(rest[0] == v@[start as int]);
        }
    }
    while j < v.len() && !(v[j] == '\\' || v[j] == '/')
        invariant
            start <= j <= v@.len(),
            rest == v@.subrange(start as int, v@.len() as int),
            first_word_until_sep(rest) == v@.subrange(start as int, j as int) + first_word_until_sep(
                v@.subrange(j as int, v@.len() as int),
            ),
        decreases v@.len() - j,
    {
        let ghost tail = v@.subrange(j as int, v@.len() as int);
        assert(tail.drop_first() =~= v@.subrange(j + 1, v@.len() as int));
        assert(tail[0] == v@[j as int]);
        assert(v@.subrange(start as int, j + 1) =~= v@.subrange(start as int, j as int) + seq![v@[j as int]]);
        j = j + 1;
    }
    proof {
        let tail = v@.subrange(j as int, v@.len() as int);
        if tail.len() > 0 {
            assert(tail[0] == v@[j as int]);
        }
        assert(first_word_until_sep(tail) =~= Seq::<char>::empty());
        assert(v@.subrange(start as int, start as int) + first_word_until_sep(rest) =~= first_word_until_sep(rest));
    }
    crate::text::copy_chars(v, start, j)
}

/// Screen one archive entry: `relative` is its enclosed name, `None` where
/// the archive gave none; `raw_name` is the name as stored.
pub fn check_archive_entry(relative: Option<String>, raw_name: String) -> (r: Result<String, ArchiveEntryError>)
    ensures
        match relative {
            None => r matches Err(ArchiveEntryError::Unsafe(n)) && n == raw_name,
            Some(p) => if entry_allowed_spec(p@) {
                r == Ok::<String, ArchiveEntryError>(p)
            } else {
                r matches Err(ArchiveEntryError::UnknownTopLevel(q)) && q == p
            },
        },
{
    match relative {
        None => Err(ArchiveEntryError::Unsafe(raw_name)),
        Some(p) => {
            let first = lower_chars(first_component_of(to_chars(p.as_str()).as_slice()).as_slice());
            let runtime = to_chars("runtime");
            let env = to_chars("env");
            if crate::text::chars_eq(first.as_slice(), runtime.as_slice()) || crate::text::chars_eq(
                first.as_slice(),
                env.as_slice(),
            ) {
                Ok(p)
            } else {
                Err(ArchiveEntryError::UnknownTopLevel(p))
            }
        },
    }
}

/// Where a download resumes: a partial file is continued only when the
/// server answered with partial content; the total adds what was there.
pub fn resume_plan(existing: u64, partial_content: bool, content_length: Option<u64>) -> (r: (bool, u64, u64))
    requires
        existing > 0 && partial_content ==> existing + (match content_length {
            Some(l) => l,
            None => 0u64,
        }) <= u64::MAX,
    ensures
        r.0 == (existing > 0 && partial_content),
        r.1 == if r.0 { existing } else { 0 },
        r.2 == r.1 + (match content_length {
            Some(l) => l,
            None => 0u64,
        }),
{
    let resumed = existing > 0 && partial_content;
    let offset = if resumed {
        existing
    } else {
        0
    };
    let len = match content_length {
        Some(l) => l,
        None => 0,
    };
    (resumed, offset, offset + len)
}

/// The digest of the download must be the published one.
pub fn checksum_matches(actual: &str, expected: &str) -> (b: bool)
    ensures
        b == (actual@ == expected@),
{
    crate::text::str_eq(actual, expected)
}


/// The SHA-256 state of a download being read. Only the sha2 crate can
/// advance it, so it is held as the crate's `Sha256` behind the three
/// trusted methods below.
#[verifier::external_body]
pub struct DownloadDigest {
    h: sha2::Sha256,
}

/// The bytes fed into a digest so far.
pub uninterp spec fn digest_input(d: DownloadDigest) -> Seq<u8>;

/// The SHA-256 of the bytes, written as lower-case hexadecimal (`{:x}` of
/// sha2's digest output).
pub uninterp spec fn sha256_hex_of(bytes: Seq<u8>) -> Seq<char>;

impl DownloadDigest {
    /// `sha2::Sha256::new()`: a digest that has read nothing.
    #[verifier::external_body]
    pub fn new() -> (d: Self)
        ensures
            digest_input(d) == Seq::<u8>::empty(),
    {
        DownloadDigest { h: sha2::Sha256::new() }
    }

    /// `Digest::update`: the block is appended to what was read.
    #[verifier::external_body]
    pub fn update(&mut self, block: &[u8])
        ensures
            digest_input(*final(self)) == digest_input(*old(self)) + block@,
    {
        self.h.update(block);
    }

    /// `Digest::finalize`, written with `{:x}`: the digest of everything
    /// read, as lower-case hexadecimal.
    #[verifier::external_body]
    pub fn finish_hex(self) -> (r: String)
        ensures
            r@ == sha256_hex_of(digest_input(self)),
    {
        format!("{:x}", self.h.finalize())
    }
}

/// Check a finished download against the published digest: kept when the
/// digest of everything read equals it, otherwise refused (and the shell
/// removes the damaged file).
pub fn check_download(d: DownloadDigest, expected: &str) -> (r: Result<(), String>)
    ensures
        r is Ok <==> sha256_hex_of(digest_input(d)) == expected@,
        r matches Err(m) ==> m@ == "AI 运行环境 SHA-256 校验失败，已删除损坏下载。"@,
{
    let actual = d.finish_hex();
    if checksum_matches(actual.as_str(), expected) {
        Ok(())
    } else {
        Err(owned("AI 运行环境 SHA-256 校验失败，已删除损坏下载。"))
    }
}

} // verus!
