//! LoRA training-set export: where sets and trained models go, and how the
//! export request is filled in.
use vstd::prelude::*;
use crate::database::IdentitySampleSummary;
use crate::paths::{file_name, file_name_of, join, join_path, parent, parent_path};
use crate::portable::PortableLayout;
use crate::result_store::{to_lowercase, unicode_lowercase};
use crate::text::{from_chars, is_prefix, owned, to_chars, trim};

verus! {

/// Folder the application exports training sets into, next to ComfyUI.
pub const MANAGED_DATASET_DIR: &'static str = "lora-datasets-manage";

/// Folder the application writes trained LoRA files into, next to ComfyUI.
pub const MANAGED_LORA_DIR: &'static str = "lora-models-manage";

#[derive(Debug, Clone)]
pub struct LoraExportCandidates {
    pub identities: Vec<IdentitySampleSummary>,
    pub default_output_dir: String,
}

pub fn default_crop_mode() -> (r: String)
    ensures
        r@ == "person"@,
{
    owned("person")
}

pub fn default_resolution() -> (r: u32)
    ensures
        r == 1024,
{
    1024
}

pub fn default_max_images() -> (r: u32)
    ensures
        r == 40,
{
    40
}

pub fn default_duplicate_distance() -> (r: u32)
    ensures
        r == 4,
{
    4
}

pub fn default_quality_preset() -> (r: String)
    ensures
        r@ == "pony"@,
{
    owned("pony")
}

pub fn default_repeats() -> (r: u32)
    ensures
        r == 10,
{
    10
}

pub fn default_true() -> (r: bool)
    ensures
        r,
{
    true
}

pub open spec fn datasets_prefix() -> Seq<char> {
    "lora-datasets"@
}

pub open spec fn models_prefix() -> Seq<char> {
    "lora-models"@
}

/// The folder for trained LoRA files beside a `lora-datasets…` folder: the
/// same name with `lora-models` in place of `lora-datasets`. Other folders
/// have no such sibling.
pub open spec fn lora_dir_spec(dataset_dir: Seq<char>) -> Option<Seq<char>> {
    match file_name(dataset_dir) {
        Some(name) => if is_prefix(datasets_prefix(), name) {
            match parent(dataset_dir) {
                Some(p) => Some(join(p, models_prefix() + name.subrange(13, name.len() as int))),
                None => None,
            }
        } else {
            None
        },
        None => None,
    }
}

pub fn lora_dir_for(dataset_dir: &str) -> (r: Option<String>)
    ensures
        match r {
            Some(d) => lora_dir_spec(dataset_dir@) == Some(d@),
            None => lora_dir_spec(dataset_dir@) is None,
        },
{
    let name = match file_name_of(dataset_dir) {
        Some(n) => n,
        None => return None,
    };
    let v = to_chars(name.as_str());
    let pre = to_chars("lora-datasets");
    proof {
        reveal_strlit("lora-datasets");
        reveal_strlit("lora-models");
    }
    if !crate::text::starts_with_chars(v.as_slice(), pre.as_slice()) {
        return None;
    }
    let parent_dir = match parent_path(dataset_dir) {
        Some(p) => p,
        None => return None,
    };
    let mut renamed = to_chars("lora-models");
    let tail = crate::text::copy_chars(v.as_slice(), 13, v.len());
    let mut i: usize = 0;
    let ghost start = renamed@;
    while i < tail.len()
        invariant
            i <= tail@.len(),
            renamed@ == start + tail@.subrange(0, i as int),
        decreases tail@.len() - i,
    {
        renamed.push(tail[i]);
        i = i + 1;
        assert(renamed@ =~= start + tail@.subrange(0, i as int));
    }
    assert(tail@.subrange(0, tail@.len() as int) =~= tail@);
    let lora_name = from_chars(renamed.as_slice());
    Some(join_path(parent_dir.as_str(), lora_name.as_str()))
}

/// Where exported sets go by default: `lora-datasets-manage` beside the
/// ComfyUI root when one is configured and resolved, else the portable
/// `output\datasets`.
pub open spec fn default_dataset_dir_spec(comfy_root: Option<Seq<char>>, data_dir: Seq<char>) -> Seq<char> {
    let portable_root = match parent(data_dir) {
        Some(p) => p,
        None => data_dir,
    };
    let fallback = join(join(portable_root, "output"@), "datasets"@);
    match comfy_root {
        Some(root) => match parent(root) {
            Some(p) => join(p, "lora-datasets-manage"@),
            None => fallback,
        },
        None => fallback,
    }
}

/// `comfy_root` is the resolved ComfyUI root, when the settings name one
/// that resolves.
pub fn default_dataset_dir(comfy_root: Option<String>, data_dir: &str) -> (r: String)
    ensures
        r@ == default_dataset_dir_spec(
            match comfy_root {
                Some(c) => Some(c@),
                None => None,
            },
            data_dir@,
        ),
{
    match comfy_root {
        Some(root) => match parent_path(root.as_str()) {
            Some(p) => return join_path(p.as_str(), MANAGED_DATASET_DIR),
            None => {},
        },
        None => {},
    }
    PortableLayout::from_data_dir(data_dir).dataset_dir()
}

/// The text with every space replaced by an underscore.
pub open spec fn spaces_to_underscores(s: Seq<char>) -> Seq<char> {
    s.map_values(|c: char| if c == ' ' { '_' } else { c })
}

/// The trigger word of an export: the one given unless blank, else the
/// identity's label in lower case with underscores for spaces.
pub fn export_trigger(trigger: Option<String>, label_name: &str) -> (r: String)
    ensures
        match trigger {
            Some(t) => if trim(t@).len() > 0 {
                r == t
            } else {
                r@ == spaces_to_underscores(unicode_lowercase(label_name@))
            },
            None => r@ == spaces_to_underscores(unicode_lowercase(label_name@)),
        },
{
    match trigger {
        Some(t) => {
            if !crate::text::is_blank(t.as_str()) {
                return t;
            }
        },
        None => {},
    }
    let lower = to_lowercase(label_name);
    let v = to_chars(lower.as_str());
    let mut out: Vec<char> = Vec::new();
    let mut i: usize = 0;
    while i < v.len()
        invariant
            i <= v@.len(),
            out@ == spaces_to_underscores(v@.subrange(0, i as int)),
        decreases v@.len() - i,
    {
        let c = v[i];
        out.push(if c == ' ' { '_' } else { c });
        i = i + 1;
        assert(out@ =~= spaces_to_underscores(v@.subrange(0, i as int)));
    }
    assert(v@.subrange(0, v@.len() as int) =~= v@);
    from_chars(out.as_slice())
}

/// The folder of an export: the one given unless blank, else the default.
pub fn export_output_dir(output_dir: Option<String>, default_dir: String) -> (r: String)
    ensures
        match output_dir {
            Some(d) => if trim(d@).len() > 0 { r == d } else { r == default_dir },
            None => r == default_dir,
        },
{
    match output_dir {
        Some(d) => if crate::text::is_blank(d.as_str()) {
            default_dir
        } else {
            d
        },
        None => default_dir,
    }
}

/// Why an export cannot start.
#[derive(Debug, Clone, Copy, PartialEq, Eq)]
pub enum ExportRefusal {
    /// The identity has no annotated images at all.
    IdentityNotFound,
    /// The identity is known but none of its samples remain.
    DatasetEmpty,
}

/// An export needs the identity's summary and at least one sample.
pub fn check_export(summary_found: bool, sample_count: usize) -> (r: Result<(), ExportRefusal>)
    ensures
        !summary_found ==> r == Err::<(), ExportRefusal>(ExportRefusal::IdentityNotFound),
        summary_found && sample_count == 0 ==> r == Err::<(), ExportRefusal>(ExportRefusal::DatasetEmpty),
        summary_found && sample_count > 0 ==> r is Ok,
{
    if !summary_found {
        Err(ExportRefusal::IdentityNotFound)
    } else if sample_count == 0 {
        Err(ExportRefusal::DatasetEmpty)
    } else {
        Ok(())
    }
}

} // verus!
