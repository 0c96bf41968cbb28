//! Fetching the CUDA 12 / cuDNN 9 runtime into the portable package.
//!
//! NVIDIA binaries are never redistributed: the official `nvidia-*` wheels
//! are fetched from PyPI on request and their DLLs extracted into
//! `app\cuda\`. This module decides which packages, which wheel, which files
//! and what the user is told; the shell downloads and unpacks.
use vstd::prelude::*;
use crate::order::{sort_strings, sorted_views};
use crate::paths::{extension, extension_of, join};
use crate::portable::PortableLayout;
use crate::text::{
    concat, contains, contains_chars, decimal, decimal_string, from_chars, is_suffix, lower_ascii,
    lower_chars, owned, string_views, to_chars,
};

verus! {

pub const CUDA_PROGRESS_EVENT: &'static str = "cuda://install";

/// The packages fetched, with the names shown for them. cuFFT is a hard
/// dependency of the ONNX Runtime CUDA provider.
pub open spec fn cuda_packages_spec() -> Seq<(Seq<char>, Seq<char>)> {
    seq![
        ("nvidia-cuda-runtime-cu12"@, "CUDA Runtime 12"@),
        ("nvidia-cublas-cu12"@, "cuBLAS 12"@),
        ("nvidia-cufft-cu12"@, "cuFFT 12"@),
        ("nvidia-cudnn-cu12"@, "cuDNN 9"@),
    ]
}

pub fn cuda_packages() -> (r: Vec<(String, String)>)
    ensures
        r@.len() == 4,
        forall|i: int| 0 <= i < 4 ==> #[trigger] r@[i].0@ == cuda_packages_spec()[i].0 && r@[i].1@ == cuda_packages_spec()[i].1,
{
    let mut r: Vec<(String, String)> = Vec::new();
    r.push((owned("nvidia-cuda-runtime-cu12"), owned("CUDA Runtime 12")));
    r.push((owned("nvidia-cublas-cu12"), owned("cuBLAS 12")));
    r.push((owned("nvidia-cufft-cu12"), owned("cuFFT 12")));
    r.push((owned("nvidia-cudnn-cu12"), owned("cuDNN 9")));
    r
}

/// The PyPI JSON endpoint of a package.
pub fn pypi_url(package: &str) -> (r: String)
    ensures
        r@ == "https://pypi.org/pypi/"@ + package@ + "/json"@,
{
    let head = concat("https://pypi.org/pypi/", package);
    concat(head.as_str(), "/json")
}

/// One file of a PyPI release, as far as its JSON gave the two fields.
#[derive(Debug, Clone)]
pub struct ReleaseFile {
    pub filename: Option<String>,
    pub url: Option<String>,
}

pub open spec fn is_windows_wheel(f: ReleaseFile) -> bool {
    f.filename matches Some(n) && is_suffix("win_amd64.whl"@, n@)
}

/// The first file whose name ends in `win_amd64.whl`; its URL, if it has one.
pub open spec fn wheel_url_spec(files: Seq<ReleaseFile>) -> Option<Seq<char>>
    decreases files.len(),
{
    if files.len() == 0 {
        None
    } else if is_windows_wheel(files[0]) {
        match files[0].url {
            Some(u) => Some(u@),
            None => None,
        }
    } else {
        wheel_url_spec(files.drop_first())
    }
}

pub fn select_wheel(files: &Vec<ReleaseFile>) -> (r: Option<String>)
    ensures
        match r {
            Some(u) => wheel_url_spec(files@) == Some(u@),
            None => wheel_url_spec(files@) is None,
        },
{
    let suffix = to_chars("win_amd64.whl");
    let mut i: usize = 0;
    assert(files@.subrange(0, files@.len() as int) =~= files@);
    while i < files.len()
        invariant
            i <= files@.len(),
            suffix@ == "win_amd64.whl"@,
            wheel_url_spec(files@) == wheel_url_spec(files@.subrange(i as int, files@.len() as int)),
        decreases files@.len() - i,
    {
        let ghost rest = files@.subrange(i as int, files@.len() as int);
        assert(rest[0] == files@[i as int]);
        assert(rest.drop_first() =~= files@.subrange(i + 1, files@.len() as int));
        let matches = match &files[i].filename {
            Some(n) => crate::text::ends_with_chars(to_chars(n.as_str()).as_slice(), suffix.as_slice()),
            None => false,
        };
        if matches {
            return match &files[i].url {
                Some(u) => Some(u.clone()),
                None => None,
            };
        }
        i = i + 1;
    }
    None
}

/// The DLLs inside an `nvidia-*` wheel that ONNX Runtime loads: entries
/// under a `bin` folder ending in `.dll`, in any letter case.
pub open spec fn is_runtime_dll_spec(name: Seq<char>) -> bool {
    is_suffix(".dll"@, lower_ascii(name)) && contains(lower_ascii(name), "/bin/"@)
}

pub fn is_runtime_dll(name: &str) -> (b: bool)
    ensures
        b == is_runtime_dll_spec(name@),
{
    let lowered = lower_chars(to_chars(name).as_slice());
    let dll = to_chars(".dll");
    let bin = to_chars("/bin/");
    crate::text::ends_with_chars(lowered.as_slice(), dll.as_slice()) && contains_chars(
        lowered.as_slice(),
        bin.as_slice(),
    )
}

pub open spec fn slashes(s: Seq<char>) -> Seq<char> {
    s.map_values(|c: char| if c == '\\' { '/' } else { c })
}

/// The text after the last `/` (all of it when there is none).
pub open spec fn last_segment(s: Seq<char>) -> Seq<char>
    decreases s.len(),
{
    if s.len() == 0 {
        s
    } else if s.last() == '/' {
        Seq::empty()
    } else {
        last_segment(s.drop_last()).push(s.last())
    }
}

/// The file a wheel entry is extracted to, flattened to its last name; only
/// runtime DLLs are extracted.
pub open spec fn wheel_entry_target_spec(entry: Seq<char>) -> Option<Seq<char>> {
    if is_runtime_dll_spec(slashes(entry)) {
        Some(last_segment(slashes(entry)))
    } else {
        None
    }
}

pub fn wheel_entry_target(entry: &str) -> (r: Option<String>)
    ensures
        match r {
            Some(n) => wheel_entry_target_spec(entry@) == Some(n@),
            None => wheel_entry_target_spec(entry@) is None,
        },
{
    let v = to_chars(entry);
    let mut norm: Vec<char> = Vec::new();
    let mut i: usize = 0;
    while i < v.len()
        invariant
            i <= v@.len(),
            norm@ == slashes(v@.subrange(0, i as int)),
        decreases v@.len() - i,
    {
        norm.push(if v[i] == '\\' { '/' } else { v[i] });
        i = i + 1;
        assert(norm@ =~= slashes(v@.subrange(0, i as int)));
    }
    assert(v@.subrange(0, v@.len() as int) =~= v@);
    let name = from_chars(norm.as_slice());
    if !is_runtime_dll(name.as_str()) {
        return None;
    }
    let mut k: usize = norm.len();
    assert(norm@.subrange(0, norm@.len() as int) =~= norm@);
    assert(norm@.subrange(norm@.len() as int, norm@.len() as int) =~= Seq::<char>::empty());
    assert(last_segment(norm@) + Seq::<char>::empty() =~= last_segment(norm@));
    while k > 0 && norm[k - 1] != '/'
        invariant
            k <= norm@.len(),
            last_segment(norm@) == last_segment(norm@.subrange(0, k as int)) + norm@.subrange(
                k as int,
                norm@.len() as int,
            ),
        decreases k,
    {
        let ghost pre = norm@.subrange(0, k as int);
        assert(pre.drop_last() =~= norm@.subrange(0, k - 1));
        assert(norm@.subrange(k - 1, norm@.len() as int) =~= seq![norm@[k - 1]] + norm@.subrange(
            k as int,
            norm@.len() as int,
        ));
        k = k - 1;
    }
    proof {
        assert(norm@.subrange(0, norm@.len() as int) =~= norm@);
        if k > 0 {
            assert(norm@.subrange(0, k as int).last() == '/');
        }
        assert(last_segment(norm@.subrange(0, k as int)) =~= Seq::<char>::empty());
    }
    let tail = crate::text::copy_chars(norm.as_slice(), k, norm.len());
    assert(tail@ =~= Seq::<char>::empty() + norm@.subrange(k as int, norm@.len() as int));
    Some(from_chars(tail.as_slice()))
}

/// The name the downloaded wheel is saved under.
pub fn wheel_file_name(package: &str, version: &str) -> (r: String)
    ensures
        r@ == package@ + "-"@ + version@ + ".whl"@,
{
    let a = concat(package, "-");
    let b = concat(a.as_str(), version);
    concat(b.as_str(), ".whl")
}

/// The line recorded for an installed package.
pub fn installed_package_line(label: &str, version: &str, dll_count: usize) -> (r: String)
    ensures
        r@ == label@ + " "@ + version@ + "（"@ + decimal(dll_count as nat) + " 个 DLL）"@,
{
    let a = concat(label, " ");
    let b = concat(a.as_str(), version);
    let c = concat(b.as_str(), "（");
    let d = concat(c.as_str(), decimal_string(dll_count as u64).as_str());
    concat(d.as_str(), " 个 DLL）")
}

/// The runtime folder: `app\cuda` under the program folder, or under the
/// portable root derived from the data folder when the program folder is
/// unknown.
pub fn cuda_dir_for(exe_dir: Option<String>, data_dir: &str) -> (r: String)
    ensures
        r@ == join(
            join(
                match exe_dir {
                    Some(e) => e@,
                    None => match crate::paths::parent(data_dir@) {
                        Some(p) => p,
                        None => data_dir@,
                    },
                },
                "app"@,
            ),
            "cuda"@,
        ),
{
    match exe_dir {
        Some(e) => PortableLayout { root: e }.cuda_dir(),
        None => PortableLayout::from_data_dir(data_dir).cuda_dir(),
    }
}

#[derive(Debug, Clone)]
pub struct CudaRuntimeStatus {
    pub directory: String,
    pub installed: bool,
    /// The DLLs present, sorted.
    pub packages: Vec<String>,
    /// The size of the folder's files in bytes; the page shows it in MB.
    pub size_bytes: u64,
    pub message: String,
}

pub open spec fn is_dll_name(name: Seq<char>) -> bool {
    match extension(name) {
        Some(e) => lower_ascii(e) == "dll"@,
        None => false,
    }
}

pub open spec fn dll_names(names: Seq<String>) -> Seq<String>
    decreases names.len(),
{
    if names.len() == 0 {
        Seq::empty()
    } else if is_dll_name(names.last()@) {
        dll_names(names.drop_last()).push(names.last())
    } else {
        dll_names(names.drop_last())
    }
}

/// The state of the runtime folder from the names of its entries: the DLLs
/// among them, sorted; installed when there is one.
pub fn runtime_status(directory: String, entry_names: Vec<String>, size_bytes: u64) -> (r:
    CudaRuntimeStatus)
    ensures
        r.directory == directory,
        r.size_bytes == size_bytes,
        sorted_views(r.packages@),
        r.packages@.to_multiset() == dll_names(entry_names@).to_multiset(),
        r.installed == (dll_names(entry_names@).len() > 0),
        r.message@ == if r.installed {
            "已下载 CUDA 运行时，推理引擎会优先使用它。"@
        } else {
            "尚未下载 CUDA 运行时；GPU 版目前会回落到 CPU。"@
        },
{
    let mut dlls: Vec<String> = Vec::new();
    let mut i: usize = 0;
    while i < entry_names.len()
        invariant
            i <= entry_names@.len(),
            dlls@ == dll_names(entry_names@.subrange(0, i as int)),
        decreases entry_names@.len() - i,
    {
        let ghost sub = entry_names@.subrange(0, i + 1);
        assert(sub.drop_last() =~= entry_names@.subrange(0, i as int));
        assert(sub.last() == entry_names@[i as int]);
        let is_dll = match extension_of(entry_names[i].as_str()) {
            Some(e) => {
                let lower = lower_chars(to_chars(e.as_str()).as_slice());
                let dll = to_chars("dll");
                crate::text::chars_eq(lower.as_slice(), dll.as_slice())
            },
            None => false,
        };
        if is_dll {
            dlls.push(entry_names[i].clone());
        }
        i = i + 1;
    }
    assert(entry_names@.subrange(0, entry_names@.len() as int) =~= entry_names@);
    let ghost unsorted = dlls@;
    let packages = sort_strings(dlls);
    proof {
        vstd::seq_lib::to_multiset_len(unsorted);
        vstd::seq_lib::to_multiset_len(packages@);
    }
    let installed = packages.len() > 0;
    CudaRuntimeStatus {
        directory,
        installed,
        packages,
        size_bytes,
        message: if installed {
            owned("已下载 CUDA 运行时，推理引擎会优先使用它。")
        } else {
            owned("尚未下载 CUDA 运行时；GPU 版目前会回落到 CPU。")
        },
    }
}

} // verus!
