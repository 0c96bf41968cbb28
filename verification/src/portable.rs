//! Portable-package layout.
//!
//! A released build keeps only the launcher, the executable and the user guide
//! in its root and moves everything else into fixed folders:
//! `app\` (runtime, env, cuda), `models\`, `resources\`, `data\`, `output\`
//! (generated, loras, datasets) and `temp\`.
use vstd::prelude::*;
use crate::paths::{backslash, ends_with_colon, is_sep, join, join_path, last_index_where, parent, parent_path, sep_pred, strip_seps};

verus! {

/// Root of the portable package that contains the given executable.
pub fn portable_root(exe_dir: &str) -> (r: String)
    ensures
        r@ == exe_dir@,
{
    crate::text::owned(exe_dir)
}

pub fn portable_app_dir(exe_dir: &str) -> (r: String)
    ensures
        r@ == join(exe_dir@, "app"@),
{
    join_path(portable_root(exe_dir).as_str(), "app")
}

pub fn portable_data_dir(exe_dir: &str) -> (r: String)
    ensures
        r@ == join(exe_dir@, "data"@),
{
    join_path(portable_root(exe_dir).as_str(), "data")
}

pub fn portable_temp_dir(exe_dir: &str) -> (r: String)
    ensures
        r@ == join(exe_dir@, "temp"@),
{
    join_path(portable_root(exe_dir).as_str(), "temp")
}

pub fn portable_output_dir(exe_dir: &str) -> (r: String)
    ensures
        r@ == join(exe_dir@, "output"@),
{
    join_path(portable_root(exe_dir).as_str(), "output")
}

/// Where a downloaded CUDA 12 / cuDNN 9 runtime lives.
pub fn portable_cuda_dir(exe_dir: &str) -> (r: String)
    ensures
        r@ == join(join(exe_dir@, "app"@), "cuda"@),
{
    join_path(portable_app_dir(exe_dir).as_str(), "cuda")
}

/// Layout derived from an application data directory, which is always
/// `<root>\data`: the portable root is its parent.
#[derive(Debug, Clone, PartialEq, Eq)]
pub struct PortableLayout {
    pub root: String,
}

impl PortableLayout {
    /// The parent of the data directory, or the directory itself when it has
    /// no parent.
    pub fn from_data_dir(data_dir: &str) -> (r: Self)
        ensures
            r.root@ == (match parent(data_dir@) {
                Some(p) => p,
                None => data_dir@,
            }),
    {
        match parent_path(data_dir) {
            Some(p) => PortableLayout { root: p },
            None => PortableLayout { root: crate::text::owned(data_dir) },
        }
    }

    pub fn output_dir(&self) -> (r: String)
        ensures
            r@ == join(self.root@, "output"@),
    {
        join_path(self.root.as_str(), "output")
    }

    /// Exported kohya training sets.
    pub fn dataset_dir(&self) -> (r: String)
        ensures
            r@ == join(join(self.root@, "output"@), "datasets"@),
    {
        join_path(self.output_dir().as_str(), "datasets")
    }

    /// Trained LoRA files.
    pub fn lora_dir(&self) -> (r: String)
        ensures
            r@ == join(join(self.root@, "output"@), "loras"@),
    {
        join_path(self.output_dir().as_str(), "loras")
    }

    /// Generated images when ComfyUI has no output directory configured.
    pub fn generated_dir(&self) -> (r: String)
        ensures
            r@ == join(join(self.root@, "output"@), "generated"@),
    {
        join_path(self.output_dir().as_str(), "generated")
    }

    pub fn cuda_dir(&self) -> (r: String)
        ensures
            r@ == join(join(self.root@, "app"@), "cuda"@),
    {
        join_path(join_path(self.root.as_str(), "app").as_str(), "cuda")
    }
}

proof fn lemma_last_sep_before_plain_suffix(a: Seq<char>, suffix: Seq<char>)
    requires
        forall|i: int| 0 <= i < suffix.len() ==> !is_sep(#[trigger] suffix[i]),
    ensures
        last_index_where(a + suffix, sep_pred()) == last_index_where(a, sep_pred()),
    decreases suffix.len(),
{
    if suffix.len() > 0 {
        let s2 = suffix.drop_last();
        assert((a + suffix).drop_last() =~= a + s2);
        assert((a + suffix).last() == suffix.last());
        assert(!is_sep(suffix[suffix.len() - 1]));
        lemma_last_sep_before_plain_suffix(a, s2);
    } else {
        assert(a + suffix =~= a);
    }
}

/// The data folder of a package is `<root>\data`, so the root is found
/// again as its parent (for a root that names a folder: not empty, without
/// a trailing separator and not a bare drive).
pub proof fn law_root_is_parent_of_data_dir(root: Seq<char>)
    requires
        root.len() > 0,
        !is_sep(root.last()),
        !ends_with_colon(root),
    ensures
        parent(join(root, "data"@)) == Some(root),
{
    reveal_strlit("data");
    let data = "data"@;
    let p = join(root, data);
    assert(p == (root + backslash()) + data);
    assert(strip_seps(p) == p);
    lemma_last_sep_before_plain_suffix(root + backslash(), data);
    assert((root + backslash()).drop_last() =~= root);
    assert(last_index_where(root + backslash(), sep_pred()) == root.len());
    assert(p.subrange(0, root.len() as int) =~= root);
    assert(strip_seps(root) == root);
}

} // verus!
