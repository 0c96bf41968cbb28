//! Workflow templates and the binding of a request's parameters into the
//! ComfyUI prompt graph.
//!
//! A template is an envelope around an API-format prompt: `bindings` maps a
//! parameter name to the path of the input it sets (`["4", "inputs",
//! "ckpt_name"]`), and `prompt` is the node graph. JSON is held as a tree of
//! plain values; a number is held as the text serde_json writes for it, so
//! the only numbers that read as the integers 0 and 1 are `0` and `1`.
use vstd::prelude::*;
use crate::comfy::{resolved_seed, ComfyError};
use crate::text::{concat, decimal, decimal_string, owned, trim, trim_str};

verus! {

/// A JSON value.
#[derive(Debug)]
pub enum Json {
    Null,
    Bool(bool),
    Num(String),
    Str(String),
    Arr(Vec<Json>),
    Obj(Vec<(String, Json)>),
}

/// The value of a [`Json`] tree.
pub enum JsonModel {
    Null,
    Bool(bool),
    Num(Seq<char>),
    Str(Seq<char>),
    Arr(Seq<JsonModel>),
    Obj(Seq<(Seq<char>, JsonModel)>),
}

/// The value a JSON tree holds.
pub open spec fn model(j: Json) -> JsonModel
    decreases j,
{
    match j {
        Json::Null => JsonModel::Null,
        Json::Bool(b) => JsonModel::Bool(b),
        Json::Num(t) => JsonModel::Num(t@),
        Json::Str(t) => JsonModel::Str(t@),
        Json::Arr(v) => JsonModel::Arr(Seq::new(v@.len(), |i: int| if 0 <= i < v@.len() { model(v@[i]) } else { JsonModel::Null })),
        Json::Obj(es) => JsonModel::Obj(Seq::new(es@.len(), |i: int| if 0 <= i < es@.len() { (es@[i].0@, model(es@[i].1)) } else { (Seq::empty(), JsonModel::Null) })),
    }
}

/// A copy of a JSON tree.
#[verifier::loop_isolation(false)]
pub fn copy_json(j: &Json) -> (r: Json)
    ensures
        model(r) == model(*j),
    decreases j,
{
    match j {
        Json::Null => Json::Null,
        Json::Bool(b) => Json::Bool(*b),
        Json::Num(t) => Json::Num(t.clone()),
        Json::Str(t) => Json::Str(t.clone()),
        Json::Arr(v) => {
            let mut out: Vec<Json> = Vec::new();
            let mut i: usize = 0;
            while i < v.len()
                invariant
                    i <= v@.len(),
                    out@.len() == i,
                    forall|k: int| 0 <= k < i ==> model(#[trigger] out@[k]) == model(v@[k]),
                decreases v@.len() - i,
            {
                proof {
                    vstd::std_specs::vec::axiom_vec_index_decreases(*v, i as int);
                    assert(decreases_to!(*j => *v));
                    assert(decreases_to!(*j => v[i as int]));
                }
                let c = copy_json(&v[i]);
                out.push(c);
                i = i + 1;
            }
            let r = Json::Arr(out);
            assert(model(r) =~= model(*j)) by {
                if let JsonModel::Arr(a) = model(r) {
                    if let JsonModel::Arr(b) = model(*j) {
                        assert(a =~= b);
                    }
                }
            }
            r
        },
        Json::Obj(es) => {
            let mut out: Vec<(String, Json)> = Vec::new();
            let mut i: usize = 0;
            while i < es.len()
                invariant
                    i <= es@.len(),
                    out@.len() == i,
                    forall|k: int| 0 <= k < i ==> (#[trigger] out@[k]).0@ == es@[k].0@ && model(out@[k].1) == model(es@[k].1),
                decreases es@.len() - i,
            {
                proof {
                    vstd::std_specs::vec::axiom_vec_index_decreases(*es, i as int);
                    assert(decreases_to!(es@[i as int] => es@[i as int].1));
                    assert(decreases_to!(*j => *es));
                    assert(decreases_to!(*j => es[i as int].1));
                }
                let c = copy_json(&es[i].1);
                out.push((es[i].0.clone(), c));
                i = i + 1;
            }
            let r = Json::Obj(out);
            assert(model(r) =~= model(*j)) by {
                if let JsonModel::Obj(a) = model(r) {
                    if let JsonModel::Obj(b) = model(*j) {
                        assert(a =~= b);
                    }
                }
            }
            r
        },
    }
}


/// The entries of an object, as values.
pub open spec fn entries_model(es: Seq<(String, Json)>) -> Seq<(Seq<char>, JsonModel)> {
    Seq::new(es.len(), |i: int| (es[i].0@, model(es[i].1)))
}

proof fn lemma_obj_model(es: Vec<(String, Json)>)
    ensures
        model(Json::Obj(es)) == JsonModel::Obj(entries_model(es@)),
{
    if let JsonModel::Obj(a) = model(Json::Obj(es)) {
        assert(a =~= entries_model(es@));
    }
}

/// The position of the first entry with `key`, or -1.
pub open spec fn find_key(es: Seq<(Seq<char>, JsonModel)>, key: Seq<char>) -> int
    decreases es.len(),
{
    if es.len() == 0 {
        -1
    } else if es[0].0 == key {
        0
    } else {
        let k = find_key(es.drop_first(), key);
        if k < 0 {
            -1
        } else {
            k + 1
        }
    }
}

proof fn lemma_find_key(es: Seq<(Seq<char>, JsonModel)>, key: Seq<char>)
    ensures
        -1 <= find_key(es, key) < es.len(),
        find_key(es, key) >= 0 ==> es[find_key(es, key)].0 == key,
        forall|j: int| 0 <= j < find_key(es, key) ==> (#[trigger] es[j]).0 != key,
        find_key(es, key) < 0 ==> forall|j: int| 0 <= j < es.len() ==> (#[trigger] es[j]).0 != key,
    decreases es.len(),
{
    if es.len() > 0 {
        lemma_find_key(es.drop_first(), key);
        assert forall|j: int| 1 <= j < es.len() implies #[trigger] es[j] == es.drop_first()[j - 1] by {}
    }
}

/// The first position of `key` among the entries.
pub fn find_entry(es: &Vec<(String, Json)>, key: &str) -> (r: Option<usize>)
    ensures
        match r {
            Some(k) => k as int == find_key(entries_model(es@), key@),
            None => find_key(entries_model(es@), key@) < 0,
        },
{
    let ghost m = entries_model(es@);
    proof { lemma_find_key(m, key@); }
    let mut i: usize = 0;
    while i < es.len()
        invariant
            i <= es@.len(),
            m == entries_model(es@),
            -1 <= find_key(m, key@) < m.len(),
            find_key(m, key@) >= 0 ==> m[find_key(m, key@)].0 == key@,
            forall|j: int| 0 <= j < find_key(m, key@) ==> (#[trigger] m[j]).0 != key@,
            find_key(m, key@) < 0 ==> forall|j: int| 0 <= j < m.len() ==> (#[trigger] m[j]).0 != key@,
            forall|j: int| 0 <= j < i ==> (#[trigger] m[j]).0 != key@,
        decreases es@.len() - i,
    {
        assert(m[i as int].0 == es@[i as int].0@);
        if crate::text::str_eq(es[i].0.as_str(), key) {
            return Some(i);
        }
        i = i + 1;
    }
    None
}

/// The items of an array, as values.
pub open spec fn items_model(v: Seq<Json>) -> Seq<JsonModel> {
    Seq::new(v.len(), |i: int| model(v[i]))
}

proof fn lemma_arr_model(v: Vec<Json>)
    ensures
        model(Json::Arr(v)) == JsonModel::Arr(items_model(v@)),
{
    if let JsonModel::Arr(a) = model(Json::Arr(v)) {
        assert(a =~= items_model(v@));
    }
}

/// The strings among the items, in order.
pub open spec fn string_items(items: Seq<JsonModel>) -> Seq<Seq<char>>
    decreases items.len(),
{
    if items.len() == 0 {
        Seq::empty()
    } else {
        let rest = string_items(items.drop_last());
        match items.last() {
            JsonModel::Str(t) => rest.push(t),
            _ => rest,
        }
    }
}

/// The path a parameter is bound to: the strings of its binding, when there
/// are at least two (a node and an input).
pub open spec fn binding_path(bindings: Seq<(Seq<char>, JsonModel)>, key: Seq<char>) -> Option<Seq<Seq<char>>> {
    let k = find_key(bindings, key);
    if k < 0 {
        None
    } else {
        match bindings[k].1 {
            JsonModel::Arr(items) => if string_items(items).len() < 2 {
                None
            } else {
                Some(string_items(items))
            },
            _ => None,
        }
    }
}

pub fn binding(bindings: &Vec<(String, Json)>, key: &str) -> (r: Option<Vec<String>>)
    ensures
        match r {
            Some(p) => binding_path(entries_model(bindings@), key@) == Some(crate::text::string_views(p@)),
            None => binding_path(entries_model(bindings@), key@) is None,
        },
{
    let k = match find_entry(bindings, key) {
        Some(k) => k,
        None => return None,
    };
    let ghost m = entries_model(bindings@);
    proof { lemma_find_key(m, key@); }
    assert(m[k as int].1 == model(bindings@[k as int].1));
    match &bindings[k].1 {
        Json::Arr(items) => {
            proof { lemma_arr_model(*items); }
            let ghost im = items_model(items@);
            let mut parts: Vec<String> = Vec::new();
            let mut i: usize = 0;
            assert(im.subrange(0, 0) =~= Seq::<JsonModel>::empty());
            while i < items.len()
                invariant
                    i <= items@.len(),
                    im == items_model(items@),
                    crate::text::string_views(parts@) == string_items(im.subrange(0, i as int)),
                decreases items@.len() - i,
            {
                assert(im.subrange(0, i + 1).drop_last() =~= im.subrange(0, i as int));
                assert(im.subrange(0, i + 1).last() == model(items@[i as int]));
                let ghost before = parts@;
                match &items[i] {
                    Json::Str(t) => {
                        parts.push(t.clone());
                        assert(crate::text::string_views(parts@) =~= crate::text::string_views(before).push(t@));
                    },
                    _ => {},
                }
                i = i + 1;
            }
            assert(im.subrange(0, items@.len() as int) =~= im);
            if parts.len() < 2 {
                None
            } else {
                Some(parts)
            }
        },
        _ => None,
    }
}

/// `Map::insert` on an object: the entry of `key` takes `value`; a new key
/// is appended.
pub open spec fn insert_entry(es: Seq<(Seq<char>, JsonModel)>, key: Seq<char>, value: JsonModel) -> Seq<(Seq<char>, JsonModel)> {
    let k = find_key(es, key);
    if k >= 0 {
        es.update(k, (key, value))
    } else {
        es.push((key, value))
    }
}

/// `value` set at `path` inside `v`: each step enters the entry of an
/// object, the last sets an entry of an object. Where a step finds no
/// object, or no such entry, nothing changes.
pub open spec fn set_in(v: JsonModel, path: Seq<Seq<char>>, value: JsonModel) -> JsonModel
    decreases path.len(),
{
    if path.len() == 0 {
        v
    } else {
        match v {
            JsonModel::Obj(es) => if path.len() == 1 {
                JsonModel::Obj(insert_entry(es, path[0], value))
            } else {
                let k = find_key(es, path[0]);
                if k < 0 {
                    v
                } else {
                    JsonModel::Obj(es.update(k, (es[k].0, set_in(es[k].1, path.drop_first(), value))))
                }
            },
            _ => v,
        }
    }
}

/// A bound parameter set in the prompt: the path names a node first, then
/// where inside it the value goes.
pub open spec fn set_bound_spec(prompt: Seq<(Seq<char>, JsonModel)>, path: Seq<Seq<char>>, value: JsonModel) -> Seq<(Seq<char>, JsonModel)> {
    let k = find_key(prompt, path[0]);
    if k < 0 {
        prompt
    } else {
        prompt.update(k, (prompt[k].0, set_in(prompt[k].1, path.drop_first(), value)))
    }
}

fn set_inside(v: Json, path: &Vec<String>, i: usize, value: Json) -> (r: Json)
    requires
        i < path@.len(),
    ensures
        model(r) == set_in(model(v), crate::text::string_views(path@).subrange(i as int, path@.len() as int), model(value)),
    decreases path@.len() - i,
{
    let ghost sp = crate::text::string_views(path@).subrange(i as int, path@.len() as int);
    assert(sp[0] == path@[i as int]@);
    match v {
        Json::Obj(mut es) => {
            proof { lemma_obj_model(es); lemma_find_key(entries_model(es@), path@[i as int]@); }
            let ghost before = es@;
            let found = find_entry(&es, path[i].as_str());
            if i == path.len() - 1 {
                assert(sp.len() == 1);
                match found {
                    Some(k) => {
                        es.set(k, (path[i].clone(), value));
                        assert(entries_model(es@) =~= entries_model(before).update(k as int, (path@[i as int]@, model(value))));
                    },
                    None => {
                        es.push((path[i].clone(), value));
                        assert(entries_model(es@) =~= entries_model(before).push((path@[i as int]@, model(value))));
                    },
                }
                proof { lemma_obj_model(es); }
                Json::Obj(es)
            } else {
                assert(sp.drop_first() =~= crate::text::string_views(path@).subrange(i + 1, path@.len() as int));
                match found {
                    None => Json::Obj(es),
                    Some(k) => {
                        let (key, child) = es.remove(k);
                        assert(key == before[k as int].0 && child == before[k as int].1);
                        let updated = set_inside(child, path, i + 1, value);
                        es.insert(k, (key, updated));
                        assert(es@ =~= before.update(k as int, (before[k as int].0, updated)));
                        assert(entries_model(es@) =~= entries_model(before).update(
                            k as int,
                            (entries_model(before)[k as int].0, model(updated)),
                        ));
                        proof { lemma_obj_model(es); }
                        Json::Obj(es)
                    },
                }
            }
        },
        other => other,
    }
}

/// Set the input a parameter is bound to; a parameter without a binding,
/// or whose node is missing, changes nothing.
pub fn set_bound(prompt: &mut Vec<(String, Json)>, bindings: &Vec<(String, Json)>, key: &str, value: Json)
    ensures
        entries_model(final(prompt)@) == (match binding_path(entries_model(bindings@), key@) {
            Some(p) => set_bound_spec(entries_model(old(prompt)@), p, model(value)),
            None => entries_model(old(prompt)@),
        }),
{
    let parts = match binding(bindings, key) {
        Some(p) => p,
        None => return,
    };
    let ghost sp = crate::text::string_views(parts@);
    let ghost before = prompt@;
    proof { lemma_find_key(entries_model(before), sp[0]); }
    assert(sp[0] == parts@[0]@);
    let k = match find_entry(prompt, parts[0].as_str()) {
        Some(k) => k,
        None => return,
    };
    let (name, node) = prompt.remove(k);
    assert(name == before[k as int].0 && node == before[k as int].1);
    let updated = set_inside(node, &parts, 1, value);
    assert(sp.subrange(1, sp.len() as int) =~= sp.drop_first());
    prompt.insert(k, (name, updated));
    assert(prompt@ =~= before.update(k as int, (before[k as int].0, updated)));
    assert(entries_model(prompt@) =~= entries_model(before).update(
        k as int,
        (entries_model(before)[k as int].0, model(updated)),
    ));
}

/// The value of an object's entry.
pub open spec fn field(v: JsonModel, key: Seq<char>) -> Option<JsonModel> {
    match v {
        JsonModel::Obj(es) => if find_key(es, key) >= 0 {
            Some(es[find_key(es, key)].1)
        } else {
            None
        },
        _ => None,
    }
}

/// The value of an object's entry, where the value is an object that has it.
pub fn get_field<'a>(j: &'a Json, key: &str) -> (r: Option<&'a Json>)
    ensures
        match r {
            Some(x) => field(model(*j), key@) == Some(model(*x)),
            None => field(model(*j), key@) is None,
        },
{
    match j {
        Json::Obj(es) => {
            proof {
                lemma_obj_model(*es);
                lemma_find_key(entries_model(es@), key@);
            }
            match find_entry(es, key) {
                Some(k) => Some(&es[k].1),
                None => None,
            }
        },
        _ => None,
    }
}

/// The items of an array value.
pub fn as_array(j: &Json) -> (r: Option<&Vec<Json>>)
    ensures
        match r {
            Some(v) => model(*j) == JsonModel::Arr(items_model(v@)),
            None => !(model(*j) is Arr),
        },
{
    match j {
        Json::Arr(v) => {
            proof { lemma_arr_model(*v); }
            Some(v)
        },
        _ => None,
    }
}

/// The text of a string value.
pub fn as_text(j: &Json) -> (r: Option<&String>)
    ensures
        match r {
            Some(t) => model(*j) == JsonModel::Str(t@),
            None => !(model(*j) is Str),
        },
{
    match j {
        Json::Str(t) => Some(t),
        _ => None,
    }
}

/// An input that takes output 0 or 1 of node `node_id` (`[node_id, 0]`)
/// takes `model_ref` or `clip_ref` instead; any other value stays.
pub open spec fn rewired_value(v: JsonModel, node_id: Seq<char>, model_ref: JsonModel, clip_ref: JsonModel) -> JsonModel {
    match v {
        JsonModel::Arr(items) => if items.len() >= 2 && items[0] == JsonModel::Str(node_id) {
            if items[1] == JsonModel::Num("0"@) {
                model_ref
            } else if items[1] == JsonModel::Num("1"@) {
                clip_ref
            } else {
                v
            }
        } else {
            v
        },
        _ => v,
    }
}

/// A node whose inputs (an object under `inputs`) are each rewired.
pub open spec fn rewired_node(n: JsonModel, node_id: Seq<char>, model_ref: JsonModel, clip_ref: JsonModel) -> JsonModel {
    match n {
        JsonModel::Obj(es) => {
            let k = find_key(es, "inputs"@);
            if k >= 0 {
                match es[k].1 {
                    JsonModel::Obj(ins) => JsonModel::Obj(es.update(k, (es[k].0, JsonModel::Obj(Seq::new(
                        ins.len(),
                        |i: int| (ins[i].0, rewired_value(ins[i].1, node_id, model_ref, clip_ref)),
                    ))))),
                    _ => n,
                }
            } else {
                n
            }
        },
        _ => n,
    }
}

/// The refusal when the LoRA node cannot be taken out.
pub open spec fn unwirable_text() -> Seq<char> {
    "LoRA 节点缺少 model/clip 输入，无法在不选择 LoRA 时旁路"@
}

/// The prompt without its LoRA node: the node named by the `lora_name`
/// binding is removed and every input that took its model or clip output
/// takes the node's own `model` or `clip` input instead. Without such a
/// binding or node nothing changes; a node without both inputs cannot be
/// bypassed.
pub open spec fn without_lora(prompt: Seq<(Seq<char>, JsonModel)>, bindings: Seq<(Seq<char>, JsonModel)>) -> Result<Seq<(Seq<char>, JsonModel)>, Seq<char>> {
    match binding_path(bindings, "lora_name"@) {
        None => Ok(prompt),
        Some(p) => {
            let k = find_key(prompt, p[0]);
            if k < 0 {
                Ok(prompt)
            } else {
                let inputs = field(prompt[k].1, "inputs"@);
                let model_ref = match inputs {
                    Some(i) => field(i, "model"@),
                    None => None,
                };
                let clip_ref = match inputs {
                    Some(i) => field(i, "clip"@),
                    None => None,
                };
                if model_ref is None || clip_ref is None {
                    Err(unwirable_text())
                } else {
                    let rest = prompt.remove(k);
                    Ok(Seq::new(rest.len(), |i: int| (rest[i].0, rewired_node(rest[i].1, p[0], model_ref->0, clip_ref->0))))
                }
            }
        },
    }
}

fn is_text(v: &Json, text: &str) -> (b: bool)
    ensures
        b == (model(*v) == JsonModel::Str(text@)),
{
    match v {
        Json::Str(t) => crate::text::str_eq(t.as_str(), text),
        _ => false,
    }
}

fn is_number(v: &Json, text: &str) -> (b: bool)
    ensures
        b == (model(*v) == JsonModel::Num(text@)),
{
    match v {
        Json::Num(t) => crate::text::str_eq(t.as_str(), text),
        _ => false,
    }
}

fn rewire_value(v: Json, node_id: &str, model_ref: &Json, clip_ref: &Json) -> (r: Json)
    ensures
        model(r) == rewired_value(model(v), node_id@, model(*model_ref), model(*clip_ref)),
{
    let (refers, output) = match &v {
        Json::Arr(items) => {
            proof { lemma_arr_model(*items); }
            if items.len() >= 2 && is_text(&items[0], node_id) {
                (true, if is_number(&items[1], "0") {
                    0u8
                } else if is_number(&items[1], "1") {
                    1u8
                } else {
                    2u8
                })
            } else {
                (false, 2u8)
            }
        },
        _ => (false, 2u8),
    };
    if refers && output == 0 {
        copy_json(model_ref)
    } else if refers && output == 1 {
        copy_json(clip_ref)
    } else {
        v
    }
}

fn rewire_inputs(ins: Vec<(String, Json)>, node_id: &str, model_ref: &Json, clip_ref: &Json) -> (r: Vec<(String, Json)>)
    ensures
        entries_model(r@) == Seq::new(
            ins@.len(),
            |i: int| (ins@[i].0@, rewired_value(model(ins@[i].1), node_id@, model(*model_ref), model(*clip_ref))),
        ),
{
    let ghost target = Seq::new(
        ins@.len(),
        |i: int| (ins@[i].0@, rewired_value(model(ins@[i].1), node_id@, model(*model_ref), model(*clip_ref))),
    );
    let ghost all = ins@;
    let mut rest = ins;
    let mut out: Vec<(String, Json)> = Vec::new();
    while rest.len() > 0
        invariant
            out@.len() + rest@.len() == all.len(),
            rest@ == all.subrange(out@.len() as int, all.len() as int),
            target.len() == all.len(),
            target == Seq::new(
                all.len(),
                |i: int| (all[i].0@, rewired_value(model(all[i].1), node_id@, model(*model_ref), model(*clip_ref))),
            ),
            entries_model(out@) == target.subrange(0, out@.len() as int),
        decreases rest@.len(),
    {
        let ghost n: int = out@.len() as int;
        let (key, value) = rest.remove(0);
        assert((key, value) == all[n]);
        let updated = rewire_value(value, node_id, model_ref, clip_ref);
        out.push((key, updated));
        assert(rest@ =~= all.subrange(n + 1, all.len() as int));
        assert(entries_model(out@) =~= target.subrange(0, n + 1));
    }
    assert(target.subrange(0, all.len() as int) =~= target);
    out
}

fn rewire_node(n: Json, node_id: &str, model_ref: &Json, clip_ref: &Json) -> (r: Json)
    ensures
        model(r) == rewired_node(model(n), node_id@, model(*model_ref), model(*clip_ref)),
{
    match n {
        Json::Obj(mut es) => {
            proof { lemma_obj_model(es); lemma_find_key(entries_model(es@), "inputs"@); }
            let ghost before = es@;
            match find_entry(&es, "inputs") {
                Some(k) => {
                    let (key, inner) = es.remove(k);
                    assert(key == before[k as int].0 && inner == before[k as int].1);
                    match inner {
                        Json::Obj(ins) => {
                            proof { lemma_obj_model(ins); }
                            let ghost ins_m = entries_model(ins@);
                            let rewired = rewire_inputs(ins, node_id, model_ref, clip_ref);
                            let new_inner = Json::Obj(rewired);
                            proof {
                                lemma_obj_model(rewired);
                                assert(entries_model(rewired@) =~= Seq::new(
                                    ins_m.len(),
                                    |i: int| (ins_m[i].0, rewired_value(ins_m[i].1, node_id@, model(*model_ref), model(*clip_ref))),
                                ));
                            }
                            es.insert(k, (key, new_inner));
                            assert(es@ =~= before.update(k as int, (before[k as int].0, new_inner)));
                            assert(entries_model(es@) =~= entries_model(before).update(
                                k as int,
                                (entries_model(before)[k as int].0, model(new_inner)),
                            ));
                            proof { lemma_obj_model(es); }
                            Json::Obj(es)
                        },
                        other => {
                            es.insert(k, (key, other));
                            assert(es@ =~= before);
                            Json::Obj(es)
                        },
                    }
                },
                None => Json::Obj(es),
            }
        },
        other => other,
    }
}

fn field_of<'a>(v: &'a Json, key: &str) -> (r: Option<&'a Json>)
    ensures
        match r {
            Some(f) => field(model(*v), key@) == Some(model(*f)),
            None => field(model(*v), key@) is None,
        },
{
    match v {
        Json::Obj(es) => {
            proof { lemma_obj_model(*es); lemma_find_key(entries_model(es@), key@); }
            match find_entry(es, key) {
                Some(k) => Some(&es[k].1),
                None => None,
            }
        },
        _ => None,
    }
}

/// Take the LoRA node out of the prompt and reconnect its consumers to the
/// node's own model and clip inputs (ComfyUI checks the inputs of every
/// node, even a bypassed one, so an empty LoRA name cannot stay).
pub fn remove_lora_node(prompt: &mut Vec<(String, Json)>, bindings: &Vec<(String, Json)>) -> (r: Result<(), ComfyError>)
    ensures
        match without_lora(entries_model(old(prompt)@), entries_model(bindings@)) {
            Ok(p) => r is Ok && entries_model(final(prompt)@) == p,
            Err(m) => r matches Err(ComfyError::Template(t)) && t@ == m && entries_model(final(prompt)@) == entries_model(old(prompt)@),
        },
{
    let parts = match binding(bindings, "lora_name") {
        Some(p) => p,
        None => return Ok(()),
    };
    let ghost sp = crate::text::string_views(parts@);
    let ghost before = prompt@;
    proof { lemma_find_key(entries_model(before), sp[0]); }
    assert(sp[0] == parts@[0]@);
    let node_id = parts[0].clone();
    let k = match find_entry(prompt, node_id.as_str()) {
        Some(k) => k,
        None => return Ok(()),
    };
    let (model_ref, clip_ref) = {
        let node = &prompt[k].1;
        assert(entries_model(before)[k as int].1 == model(*node));
        match field_of(node, "inputs") {
            Some(inputs) => match (field_of(inputs, "model"), field_of(inputs, "clip")) {
                (Some(m), Some(c)) => (copy_json(m), copy_json(c)),
                _ => return Err(ComfyError::Template(owned("LoRA 节点缺少 model/clip 输入，无法在不选择 LoRA 时旁路"))),
            },
            None => return Err(ComfyError::Template(owned("LoRA 节点缺少 model/clip 输入，无法在不选择 LoRA 时旁路"))),
        }
    };
    prompt.remove(k);
    let ghost rest = before.remove(k as int);
    assert(prompt@ =~= rest);
    let mut out: Vec<(String, Json)> = Vec::new();
    let ghost target = Seq::new(
        rest.len(),
        |i: int| (rest[i].0@, rewired_node(model(rest[i].1), node_id@, model(model_ref), model(clip_ref))),
    );
    while prompt.len() > 0
        invariant
            out@.len() + prompt@.len() == rest.len(),
            prompt@ == rest.subrange(out@.len() as int, rest.len() as int),
            target == Seq::new(
                rest.len(),
                |i: int| (rest[i].0@, rewired_node(model(rest[i].1), node_id@, model(model_ref), model(clip_ref))),
            ),
            entries_model(out@) == target.subrange(0, out@.len() as int),
        decreases prompt@.len(),
    {
        let ghost n: int = out@.len() as int;
        let (name, node) = prompt.remove(0);
        assert((name, node) == rest[n]);
        let updated = rewire_node(node, node_id.as_str(), &model_ref, &clip_ref);
        out.push((name, updated));
        assert(prompt@ =~= rest.subrange(n + 1, rest.len() as int));
        assert(entries_model(out@) =~= target.subrange(0, n + 1));
    }
    *prompt = out;
    proof {
        assert(target.subrange(0, rest.len() as int) =~= target);
        let m = entries_model(before);
        assert(entries_model(rest) =~= m.remove(k as int));
    }
    assert(entries_model(prompt@) =~= without_lora(entries_model(before), entries_model(bindings@))->Ok_0);
    Ok(())
}

pub const TEMPLATE_VERSION: u32 = 1;

/// A workflow template: the bindings of parameter names to input paths and
/// the prompt graph, node by node.
#[derive(Debug)]
pub struct WorkflowTemplate {
    pub version: u32,
    pub name: String,
    pub description: String,
    pub bindings: Vec<(String, Json)>,
    pub prompt: Vec<(String, Json)>,
}

/// A template file must carry the supported envelope version.
pub fn check_template_version(version: u32, path: &str) -> (r: Result<(), ComfyError>)
    ensures
        r is Ok <==> version == TEMPLATE_VERSION,
        r matches Err(e) ==> e@ == crate::comfy::ComfyErrorView::Template(path@ + ": 不支持的模板版本 "@ + decimal(version as nat)),
{
    if version != TEMPLATE_VERSION {
        let a = concat(path, ": 不支持的模板版本 ");
        Err(ComfyError::Template(concat(a.as_str(), decimal_string(version as u64).as_str())))
    } else {
        Ok(())
    }
}

/// The LoRA chosen for a run: its file name and its strength (a JSON
/// number).
#[derive(Debug)]
pub struct LoraChoice {
    pub name: String,
    pub strength: Json,
}

/// The parameters of one generation; the CFG scale is a JSON number.
#[derive(Debug)]
pub struct PromptRequest {
    pub checkpoint: String,
    pub positive: String,
    pub negative: String,
    pub steps: u32,
    pub cfg: Json,
    pub sampler: String,
    pub scheduler: String,
    pub width: u32,
    pub height: u32,
    pub batch: u32,
    /// A negative seed asks for a random one.
    pub seed: i64,
    pub filename_prefix: Option<String>,
    pub lora: Option<LoraChoice>,
}

/// The prompt after one parameter is set where its binding points.
pub open spec fn bound(
    prompt: Seq<(Seq<char>, JsonModel)>,
    bindings: Seq<(Seq<char>, JsonModel)>,
    key: Seq<char>,
    value: JsonModel,
) -> Seq<(Seq<char>, JsonModel)> {
    match binding_path(bindings, key) {
        Some(path) => set_bound_spec(prompt, path, value),
        None => prompt,
    }
}

pub open spec fn number(n: nat) -> JsonModel {
    JsonModel::Num(decimal(n))
}

/// The file name prefix of the saved images.
pub open spec fn prefix_of(req: PromptRequest) -> Seq<char> {
    match req.filename_prefix {
        Some(p) => p@,
        None => "anime-pic-manage"@,
    }
}

/// The prompt with every request parameter bound, in the documented order,
/// and `seed` as the seed.
pub open spec fn parameters_bound(
    prompt: Seq<(Seq<char>, JsonModel)>,
    b: Seq<(Seq<char>, JsonModel)>,
    req: PromptRequest,
    seed: nat,
) -> Seq<(Seq<char>, JsonModel)> {
    sampling_bound(texts_bound(prompt, b, req), b, req, seed)
}

/// The checkpoint, the prompts and the sampler settings bound.
pub open spec fn texts_bound(
    prompt: Seq<(Seq<char>, JsonModel)>,
    b: Seq<(Seq<char>, JsonModel)>,
    req: PromptRequest,
) -> Seq<(Seq<char>, JsonModel)> {
    let p1 = bound(prompt, b, "checkpoint"@, JsonModel::Str(req.checkpoint@));
    let p2 = bound(p1, b, "positive"@, JsonModel::Str(req.positive@));
    let p3 = bound(p2, b, "negative"@, JsonModel::Str(req.negative@));
    let p4 = bound(p3, b, "steps"@, number(req.steps as nat));
    let p5 = bound(p4, b, "cfg"@, model(req.cfg));
    bound(p5, b, "sampler"@, JsonModel::Str(req.sampler@))
}

/// The scheduler, the image size, the seed and the file name prefix bound.
pub open spec fn sampling_bound(
    prompt: Seq<(Seq<char>, JsonModel)>,
    b: Seq<(Seq<char>, JsonModel)>,
    req: PromptRequest,
    seed: nat,
) -> Seq<(Seq<char>, JsonModel)> {
    let p7 = bound(prompt, b, "scheduler"@, JsonModel::Str(req.scheduler@));
    let p8 = bound(p7, b, "width"@, number(req.width as nat));
    let p9 = bound(p8, b, "height"@, number(req.height as nat));
    let p10 = bound(p9, b, "batch"@, number(req.batch as nat));
    let p11 = bound(p10, b, "seed"@, number(seed));
    bound(p11, b, "filename_prefix"@, JsonModel::Str(prefix_of(req)))
}

/// The chosen LoRA bound and its node switched on (mode 0).
pub open spec fn lora_bound(
    prompt: Seq<(Seq<char>, JsonModel)>,
    b: Seq<(Seq<char>, JsonModel)>,
    l: LoraChoice,
) -> Seq<(Seq<char>, JsonModel)> {
    let q1 = bound(prompt, b, "lora_name"@, JsonModel::Str(trim(l.name@)));
    let q2 = bound(q1, b, "lora_strength_model"@, model(l.strength));
    let q3 = bound(q2, b, "lora_strength_clip"@, model(l.strength));
    bound(q3, b, "lora_mode"@, JsonModel::Num("0"@))
}

/// A LoRA is wanted when one is chosen with a non-blank name.
pub open spec fn wants_lora(req: PromptRequest) -> bool {
    req.lora matches Some(l) && trim(l.name@).len() > 0
}

/// The prompt of one request with `seed`: the parameters bound; then, for
/// a template with a LoRA node, the chosen LoRA bound and its node switched
/// on (mode 0), or the node taken out when none is wanted; a template
/// without one refuses a chosen LoRA. An empty graph is refused.
pub open spec fn prompt_for(
    prompt: Seq<(Seq<char>, JsonModel)>,
    b: Seq<(Seq<char>, JsonModel)>,
    req: PromptRequest,
    seed: nat,
) -> Result<Seq<(Seq<char>, JsonModel)>, Seq<char>> {
    let p = parameters_bound(prompt, b, req, seed);
    let with_lora = if binding_path(b, "lora_name"@) is Some {
        if wants_lora(req) {
            Ok(lora_bound(p, b, req.lora->0))
        } else {
            without_lora(p, b)
        }
    } else if req.lora is Some {
        Err("该工作流模板没有 LoRA 加载节点"@)
    } else {
        Ok(p)
    };
    match with_lora {
        Err(m) => Err(m),
        Ok(q) => if q.len() == 0 {
            Err("模板缺少 prompt 节点图"@)
        } else {
            Ok(q)
        },
    }
}

pub open spec fn template_error(r: Result<Vec<(String, Json)>, ComfyError>, m: Seq<char>) -> bool {
    r matches Err(e) && e@ == crate::comfy::ComfyErrorView::Template(m)
}

/// What building a prompt came to, against `prompt_for`.
pub open spec fn built_as(
    r: Result<Vec<(String, Json)>, ComfyError>,
    expected: Result<Seq<(Seq<char>, JsonModel)>, Seq<char>>,
) -> bool {
    match expected {
        Ok(q) => r matches Ok(v) && entries_model(v@) == q,
        Err(m) => template_error(r, m),
    }
}

fn copy_entries(es: &Vec<(String, Json)>) -> (r: Vec<(String, Json)>)
    ensures
        entries_model(r@) == entries_model(es@),
{
    let mut out: Vec<(String, Json)> = Vec::new();
    let mut i: usize = 0;
    while i < es.len()
        invariant
            i <= es@.len(),
            entries_model(out@) == entries_model(es@).subrange(0, i as int),
        decreases es@.len() - i,
    {
        let c = copy_json(&es[i].1);
        let key = es[i].0.clone();
        assert(key@ == es@[i as int].0@);
        let ghost before = out@;
        out.push((key, c));
        assert(out@ == before.push((key, c)));
        assert(entries_model(out@) =~= entries_model(before).push((es@[i as int].0@, model(es@[i as int].1))));
        assert(entries_model(es@).subrange(0, i + 1) =~= entries_model(es@).subrange(0, i as int).push(entries_model(es@)[i as int]));
        i = i + 1;
    }
    assert(entries_model(es@).subrange(0, es@.len() as int) =~= entries_model(es@));
    out
}

fn bind_texts(p: &mut Vec<(String, Json)>, b: &Vec<(String, Json)>, request: &PromptRequest)
    ensures
        entries_model(final(p)@) == texts_bound(entries_model(old(p)@), entries_model(b@), *request),
{
    set_bound(p, b, "checkpoint", Json::Str(request.checkpoint.clone()));
    set_bound(p, b, "positive", Json::Str(request.positive.clone()));
    set_bound(p, b, "negative", Json::Str(request.negative.clone()));
    set_bound(p, b, "steps", Json::Num(decimal_string(request.steps as u64)));
    set_bound(p, b, "cfg", copy_json(&request.cfg));
    set_bound(p, b, "sampler", Json::Str(request.sampler.clone()));
}

fn bind_sampling(p: &mut Vec<(String, Json)>, b: &Vec<(String, Json)>, request: &PromptRequest, seed: u64)
    ensures
        entries_model(final(p)@) == sampling_bound(entries_model(old(p)@), entries_model(b@), *request, seed as nat),
{
    set_bound(p, b, "scheduler", Json::Str(request.scheduler.clone()));
    set_bound(p, b, "width", Json::Num(decimal_string(request.width as u64)));
    set_bound(p, b, "height", Json::Num(decimal_string(request.height as u64)));
    set_bound(p, b, "batch", Json::Num(decimal_string(request.batch as u64)));
    set_bound(p, b, "seed", Json::Num(decimal_string(seed)));
    let prefix = match &request.filename_prefix {
        Some(t) => t.clone(),
        None => owned("anime-pic-manage"),
    };
    set_bound(p, b, "filename_prefix", Json::Str(prefix));
}

fn bind_lora(p: &mut Vec<(String, Json)>, b: &Vec<(String, Json)>, l: &LoraChoice)
    ensures
        entries_model(final(p)@) == lora_bound(entries_model(old(p)@), entries_model(b@), *l),
{
    set_bound(p, b, "lora_name", Json::Str(trim_str(l.name.as_str())));
    set_bound(p, b, "lora_strength_model", copy_json(&l.strength));
    set_bound(p, b, "lora_strength_clip", copy_json(&l.strength));
    proof { reveal_strlit("0"); }
    set_bound(p, b, "lora_mode", Json::Num(owned("0")));
}

impl WorkflowTemplate {
    /// Whether the template has a LoRA node to bind.
    pub fn supports_lora(&self) -> (b: bool)
        ensures
            b == binding_path(entries_model(self.bindings@), "lora_name"@) is Some,
    {
        binding(&self.bindings, "lora_name").is_some()
    }

    /// The prompt of one request with the seed `seed` (which must not be
    /// negative: ComfyUI refuses negative seeds).
    pub fn build_prompt_with_seed(&self, request: &PromptRequest, seed: i64) -> (r: Result<Vec<(String, Json)>, ComfyError>)
        requires
            seed >= 0,
        ensures
            built_as(r, prompt_for(entries_model(self.prompt@), entries_model(self.bindings@), *request, seed as nat)),
    {
        let b = &self.bindings;
        let mut p = copy_entries(&self.prompt);
        bind_texts(&mut p, b, request);
        bind_sampling(&mut p, b, request, seed as u64);
        if self.supports_lora() {
            let chosen = match &request.lora {
                Some(l) => if !crate::text::is_blank(l.name.as_str()) {
                    Some(l)
                } else {
                    None
                },
                None => None,
            };
            match chosen {
                Some(l) => bind_lora(&mut p, b, l),
                None => {
                    match remove_lora_node(&mut p, b) {
                        Ok(()) => {},
                        Err(e) => return Err(e),
                    }
                },
            }
        } else if request.lora.is_some() {
            return Err(ComfyError::Template(owned("该工作流模板没有 LoRA 加载节点")));
        }
        if p.len() == 0 {
            return Err(ComfyError::Template(owned("模板缺少 prompt 节点图")));
        }
        Ok(p)
    }

    /// The prompt of one request; a negative seed is replaced by a random
    /// one below 2^31 - 1.
    pub fn build_prompt(&self, request: &PromptRequest) -> (r: Result<Vec<(String, Json)>, ComfyError>)
        ensures
            exists|seed: nat| #[trigger] built_as(r, prompt_for(entries_model(self.prompt@), entries_model(self.bindings@), *request, seed))
                && (request.seed >= 0 ==> seed == request.seed)
                && (request.seed < 0 ==> seed < 2_147_483_647),
    {
        let seed = resolved_seed(request.seed);
        let r = self.build_prompt_with_seed(request, seed);
        assert(built_as(r, prompt_for(entries_model(self.prompt@), entries_model(self.bindings@), *request, seed as nat)));
        r
    }
}

/// An input that takes output 0 or 1 of node `node_id`.
pub open spec fn takes_output_of(v: JsonModel, node_id: Seq<char>) -> bool {
    &&& v matches JsonModel::Arr(items)
    &&& items.len() >= 2
    &&& items[0] == JsonModel::Str(node_id)
    &&& (items[1] == JsonModel::Num("0"@) || items[1] == JsonModel::Num("1"@))
}

/// The inputs of a node: the entries of its `inputs` object.
pub open spec fn node_inputs(n: JsonModel) -> Seq<(Seq<char>, JsonModel)> {
    match field(n, "inputs"@) {
        Some(JsonModel::Obj(ins)) => ins,
        _ => Seq::empty(),
    }
}

proof fn lemma_find_key_update(es: Seq<(Seq<char>, JsonModel)>, k: int, v: JsonModel, key: Seq<char>)
    requires
        0 <= k < es.len(),
    ensures
        find_key(es.update(k, (es[k].0, v)), key) == find_key(es, key),
    decreases es.len(),
{
    let u = es.update(k, (es[k].0, v));
    if k > 0 {
        assert(u.drop_first() =~= es.drop_first().update(k - 1, (es.drop_first()[k - 1].0, v)));
        lemma_find_key_update(es.drop_first(), k - 1, v, key);
    } else {
        assert(u.drop_first() =~= es.drop_first());
    }
}

/// Once the LoRA node is taken out, no node's input takes its model or
/// clip output any more, provided the node's own model and clip inputs did
/// not name the node itself.
pub proof fn law_bypass_leaves_no_dangling_input(prompt: Seq<(Seq<char>, JsonModel)>, bindings: Seq<(Seq<char>, JsonModel)>)
    requires
        binding_path(bindings, "lora_name"@) is Some,
        find_key(prompt, binding_path(bindings, "lora_name"@)->0[0]) >= 0,
        without_lora(prompt, bindings) is Ok,
        !takes_output_of(
            field(field(prompt[find_key(prompt, binding_path(bindings, "lora_name"@)->0[0])].1, "inputs"@)->0, "model"@)->0,
            binding_path(bindings, "lora_name"@)->0[0],
        ),
        !takes_output_of(
            field(field(prompt[find_key(prompt, binding_path(bindings, "lora_name"@)->0[0])].1, "inputs"@)->0, "clip"@)->0,
            binding_path(bindings, "lora_name"@)->0[0],
        ),
    ensures
        ({
            let q = without_lora(prompt, bindings)->Ok_0;
            let id = binding_path(bindings, "lora_name"@)->0[0];
            forall|n: int, i: int| 0 <= n < q.len() && 0 <= i < node_inputs(q[n].1).len()
                ==> !takes_output_of((#[trigger] node_inputs(#[trigger] q[n].1)[i]).1, id)
        }),
{
    let id = binding_path(bindings, "lora_name"@)->0[0];
    let k = find_key(prompt, id);
    let inputs = field(prompt[k].1, "inputs"@)->0;
    let m = field(inputs, "model"@)->0;
    let c = field(inputs, "clip"@)->0;
    let rest = prompt.remove(k);
    let q = without_lora(prompt, bindings)->Ok_0;
    assert forall|n: int, i: int| 0 <= n < q.len() && 0 <= i < node_inputs(q[n].1).len()
        implies !takes_output_of((#[trigger] node_inputs(#[trigger] q[n].1)[i]).1, id) by {
        let node = rest[n].1;
        assert(q[n].1 == rewired_node(node, id, m, c));
        if let JsonModel::Obj(es) = node {
            let f = find_key(es, "inputs"@);
            lemma_find_key(es, "inputs"@);
            if f >= 0 {
                if let JsonModel::Obj(ins) = es[f].1 {
                    let new_ins = Seq::new(ins.len(), |t: int| (ins[t].0, rewired_value(ins[t].1, id, m, c)));
                    let es2 = es.update(f, (es[f].0, JsonModel::Obj(new_ins)));
                    lemma_find_key_update(es, f, JsonModel::Obj(new_ins), "inputs"@);
                    assert(q[n].1 == JsonModel::Obj(es2));
                    assert(node_inputs(q[n].1) == new_ins);
                    assert(node_inputs(q[n].1)[i].1 == rewired_value(ins[i].1, id, m, c));
                }
            }
        }
    }
}

/// The folder name of the shipped workflow templates.
pub const TEMPLATE_FOLDER: &'static str = "comfy-workflows";
/// The file, in the data folder, that keeps the per-node edits of templates.
pub const OVERRIDES_FILE: &'static str = "comfy-template-overrides.json";

/// A template name is a bare file name: not blank once trimmed, without a
/// path separator or drive colon.
pub open spec fn template_name_ok(name: Seq<char>) -> bool {
    let t = trim(name);
    t.len() > 0 && !t.contains('/') && !t.contains('\\') && !t.contains(':')
}

/// The files a template may be read from, one per template folder, in the
/// order the folders are searched; a bad name is refused.
pub fn template_candidates(roots: &Vec<String>, name: &str) -> (r: Result<Vec<String>, String>)
    ensures
        template_name_ok(name@) ==> (r matches Ok(files) && files@.len() == roots@.len() && forall|i: int|
            0 <= i < roots@.len() ==> (#[trigger] files@[i])@ == crate::paths::join(roots@[i]@, trim(name@) + ".json"@)),
        !template_name_ok(name@) ==> (r matches Err(m) && m@ == "工作流模板名不合法。"@),
{
    let t = trim_str(name);
    let v = crate::text::to_chars(t.as_str());
    let mut i: usize = 0;
    let mut bad = false;
    while i < v.len()
        invariant
            i <= v@.len(),
            v@ == trim(name@),
            bad == exists|k: int| 0 <= k < i && (v@[k] == '/' || v@[k] == '\\' || v@[k] == ':'),
        decreases v@.len() - i,
    {
        if v[i] == '/' || v[i] == '\\' || v[i] == ':' {
            bad = true;
        }
        i = i + 1;
    }
    proof {
        if trim(name@).contains('/') {
            let k = choose|k: int| 0 <= k < trim(name@).len() && trim(name@)[k] == '/';
            assert(v@[k] == '/');
        }
        if trim(name@).contains('\\') {
            let k = choose|k: int| 0 <= k < trim(name@).len() && trim(name@)[k] == '\\';
            assert(v@[k] == '\\');
        }
        if trim(name@).contains(':') {
            let k = choose|k: int| 0 <= k < trim(name@).len() && trim(name@)[k] == ':';
            assert(v@[k] == ':');
        }
        if bad {
            let k = choose|k: int| 0 <= k < v@.len() && (v@[k] == '/' || v@[k] == '\\' || v@[k] == ':');
            assert(trim(name@)[k] == v@[k]);
        }
    }
    if v.len() == 0 || bad {
        return Err(owned("工作流模板名不合法。"));
    }
    let file = concat(t.as_str(), ".json");
    let mut out: Vec<String> = Vec::new();
    let mut j: usize = 0;
    while j < roots.len()
        invariant
            j <= roots@.len(),
            out@.len() == j,
            file@ == trim(name@) + ".json"@,
            forall|k: int| 0 <= k < j ==> (#[trigger] out@[k])@ == crate::paths::join(roots@[k]@, file@),
        decreases roots@.len() - j,
    {
        out.push(crate::paths::join_path(roots[j].as_str(), file.as_str()));
        j = j + 1;
    }
    Ok(out)
}

/// The template a file of a template folder holds: the stem of a `.json`
/// file.
pub open spec fn template_name_of(p: Seq<char>) -> Option<Seq<char>> {
    if crate::paths::extension(p) == Some("json"@) {
        crate::paths::file_stem(p)
    } else {
        None
    }
}

/// The templates among the files, in file order.
pub open spec fn template_names_in(files: Seq<String>) -> Seq<Seq<char>>
    decreases files.len(),
{
    if files.len() == 0 {
        Seq::empty()
    } else {
        let rest = template_names_in(files.drop_last());
        match template_name_of(files.last()@) {
            Some(n) => rest.push(n),
            None => rest,
        }
    }
}

/// The templates one folder holds, given its files: the stems of the `.json`
/// files, sorted.
pub fn template_names(files: &Vec<String>) -> (r: Vec<String>)
    ensures
        crate::order::sorted_views(r@),
        exists|names: Seq<String>|
            #![trigger crate::text::string_views(names)]
            crate::text::string_views(names) == template_names_in(files@) && r@.to_multiset() == names.to_multiset(),
{
    let mut names: Vec<String> = Vec::new();
    let mut i: usize = 0;
    while i < files.len()
        invariant
            i <= files@.len(),
            crate::text::string_views(names@) == template_names_in(files@.subrange(0, i as int)),
        decreases files@.len() - i,
    {
        let ghost sub = files@.subrange(0, i + 1);
        assert(sub.drop_last() =~= files@.subrange(0, i as int));
        let ghost before = names@;
        let is_json = match crate::paths::extension_of(files[i].as_str()) {
            Some(e) => crate::text::str_eq(e.as_str(), "json"),
            None => false,
        };
        if is_json {
            match crate::paths::file_stem_of(files[i].as_str()) {
                Some(stem) => {
                    names.push(stem);
                    assert(crate::text::string_views(names@) =~= crate::text::string_views(before).push(
                        names@[before.len() as int]@,
                    ));
                },
                None => {},
            }
        }
        i = i + 1;
    }
    assert(files@.subrange(0, files@.len() as int) =~= files@);
    let ghost kept = names@;
    let r = crate::order::sort_strings(names);
    assert(crate::text::string_views(kept) == template_names_in(files@) && r@.to_multiset() == kept.to_multiset());
    r
}

/// The refusal when no template folder holds the file.
pub fn template_not_found(name: &str) -> (r: String)
    ensures
        r@ == "未找到工作流模板 "@ + trim(name@) + ".json"@,
{
    let t = trim_str(name);
    crate::text::concat3("未找到工作流模板 ", t.as_str(), ".json")
}

/// The edits of one node are kept when they are a non-empty object.
pub open spec fn kept_edit(v: JsonModel) -> bool {
    v matches JsonModel::Obj(es) && es.len() > 0
}

/// The per-node edits worth keeping: non-empty objects only.
pub fn cleaned_overrides(nodes: Vec<(String, Json)>) -> (r: Vec<(String, Json)>)
    ensures
        entries_model(r@) == entries_model(nodes@).filter(|e: (Seq<char>, JsonModel)| kept_edit(e.1)),
{
    let ghost pred = |e: (Seq<char>, JsonModel)| kept_edit(e.1);
    let ghost all = entries_model(nodes@);
    let ghost src = nodes@;
    assert(nodes@.len() == nodes.len());
    let mut rest = nodes;
    let mut out: Vec<(String, Json)> = Vec::new();
    let mut i: usize = 0;
    assert(all.subrange(0, 0).filter(pred) =~= entries_model(out@));
    while rest.len() > 0
        invariant
            i + rest@.len() == src.len(),
            src.len() <= usize::MAX,
            all == entries_model(src),
            rest@ == src.subrange(i as int, src.len() as int),
            pred == (|e: (Seq<char>, JsonModel)| kept_edit(e.1)),
            entries_model(out@) == all.subrange(0, i as int).filter(pred),
        decreases rest@.len(),
    {
        let (key, value) = rest.remove(0);
        assert((key, value) == src[i as int]);
        assert(all.subrange(0, i + 1) =~= all.subrange(0, i as int).push(all[i as int]));
        proof { all.subrange(0, i as int).lemma_filter_push(all[i as int], pred); }
        let keep = match &value {
            Json::Obj(es) => {
                proof { lemma_obj_model(*es); }
                es.len() > 0
            },
            _ => false,
        };
        if keep {
            let ghost before = out@;
            out.push((key, value));
            assert(entries_model(out@) =~= entries_model(before).push(all[i as int]));
        }
        i = i + 1;
        assert(rest@ =~= src.subrange(i as int, src.len() as int));
    }
    assert(all.subrange(0, all.len() as int) =~= all);
    out
}

/// `Map::remove`: the entry of `key`, if any, taken out.
pub open spec fn remove_entry(es: Seq<(Seq<char>, JsonModel)>, key: Seq<char>) -> Seq<(Seq<char>, JsonModel)> {
    let k = find_key(es, key);
    if k >= 0 {
        es.remove(k)
    } else {
        es
    }
}

/// The saved edits after a template's edits change: no edits remove the
/// template's entry, otherwise they replace it.
pub fn with_template_overrides(stored: Vec<(String, Json)>, name: &str, cleaned: Vec<(String, Json)>) -> (r: Vec<(String, Json)>)
    ensures
        entries_model(r@) == (if cleaned@.len() == 0 {
            remove_entry(entries_model(stored@), trim(name@))
        } else {
            insert_entry(entries_model(stored@), trim(name@), JsonModel::Obj(entries_model(cleaned@)))
        }),
{
    let key = trim_str(name);
    let mut out = stored;
    let ghost before = out@;
    proof { lemma_find_key(entries_model(before), key@); }
    let found = find_entry(&out, key.as_str());
    if cleaned.len() == 0 {
        match found {
            Some(k) => {
                out.remove(k);
                assert(entries_model(out@) =~= entries_model(before).remove(k as int));
            },
            None => {},
        }
    } else {
        let ghost cm = entries_model(cleaned@);
        let value = Json::Obj(cleaned);
        proof { lemma_obj_model(cleaned); }
        match found {
            Some(k) => {
                out.set(k, (key, value));
                assert(entries_model(out@) =~= entries_model(before).update(k as int, (trim(name@), JsonModel::Obj(cm))));
            },
            None => {
                out.push((key, value));
                assert(entries_model(out@) =~= entries_model(before).push((trim(name@), JsonModel::Obj(cm))));
            },
        }
    }
    out
}

/// The edits saved for a template, an empty object when there are none.
pub fn template_overrides(stored: &Vec<(String, Json)>, name: &str) -> (r: Json)
    ensures
        model(r) == (match field(JsonModel::Obj(entries_model(stored@)), trim(name@)) {
            Some(v) => v,
            None => JsonModel::Obj(Seq::empty()),
        }),
{
    let key = trim_str(name);
    proof { lemma_find_key(entries_model(stored@), key@); }
    match find_entry(stored, key.as_str()) {
        Some(k) => copy_json(&stored[k].1),
        None => {
            let empty: Vec<(String, Json)> = Vec::new();
            proof { lemma_obj_model(empty); }
            assert(entries_model(empty@) =~= Seq::<(Seq<char>, JsonModel)>::empty());
            Json::Obj(empty)
        },
    }
}


/// The value found by following a path of keys through nested objects.
pub open spec fn value_in(v: JsonModel, path: Seq<Seq<char>>) -> Option<JsonModel>
    decreases path.len(),
{
    if path.len() == 0 {
        Some(v)
    } else {
        match field(v, path[0]) {
            Some(x) => value_in(x, path.drop_first()),
            None => None,
        }
    }
}

/// The value at a path of a prompt: the node named by its first key, then
/// the keys inside it.
pub open spec fn value_at(prompt: Seq<(Seq<char>, JsonModel)>, path: Seq<Seq<char>>) -> Option<JsonModel> {
    value_in(JsonModel::Obj(prompt), path)
}

/// A path that can be written: every object on the way exists, and the last
/// key lands in an object.
pub open spec fn reachable(v: JsonModel, path: Seq<Seq<char>>) -> bool
    decreases path.len(),
{
    if path.len() == 0 {
        false
    } else if path.len() == 1 {
        v is Obj
    } else {
        match field(v, path[0]) {
            Some(x) => reachable(x, path.drop_first()),
            None => false,
        }
    }
}

/// Two paths that part somewhere: neither leads into the other.
pub open spec fn apart(p: Seq<Seq<char>>, q: Seq<Seq<char>>) -> bool
    decreases p.len(),
{
    p.len() > 0 && q.len() > 0 && (p[0] != q[0] || apart(p.drop_first(), q.drop_first()))
}

proof fn lemma_find_key_push(es: Seq<(Seq<char>, JsonModel)>, e: (Seq<char>, JsonModel), key: Seq<char>)
    ensures
        find_key(es, key) >= 0 ==> find_key(es.push(e), key) == find_key(es, key),
        find_key(es, key) < 0 && e.0 == key ==> find_key(es.push(e), key) == es.len(),
        find_key(es, key) < 0 && e.0 != key ==> find_key(es.push(e), key) < 0,
{
    lemma_find_key(es, key);
    lemma_find_key(es.push(e), key);
    let f = find_key(es.push(e), key);
    if f >= 0 && f < es.len() {
        assert(es.push(e)[f] == es[f]);
    }
    if find_key(es, key) >= 0 {
        assert(es.push(e)[find_key(es, key)] == es[find_key(es, key)]);
        if f >= 0 && f < find_key(es, key) {
            assert(es.push(e)[f] == es[f]);
        }
    }
    if find_key(es, key) < 0 && e.0 == key {
        assert(es.push(e)[es.len() as int] == e);
    }
}

proof fn lemma_field_after_insert(es: Seq<(Seq<char>, JsonModel)>, key: Seq<char>, x: JsonModel, other: Seq<char>)
    ensures
        field(JsonModel::Obj(insert_entry(es, key, x)), key) == Some(x),
        other != key ==> field(JsonModel::Obj(insert_entry(es, key, x)), other) == field(JsonModel::Obj(es), other),
{
    lemma_find_key(es, key);
    lemma_find_key(es, other);
    let k = find_key(es, key);
    if k >= 0 {
        lemma_find_key_update(es, k, x, key);
        lemma_find_key_update(es, k, x, other);
        assert(insert_entry(es, key, x) == es.update(k, (es[k].0, x)));
        let ko = find_key(es, other);
        assert(es[k].0 == key);
        if ko >= 0 && other != key {
            assert(es[ko].0 == other);
            assert(ko != k);
        }
    } else {
        lemma_find_key_push(es, (key, x), key);
        lemma_find_key_push(es, (key, x), other);
        let ko = find_key(es, other);
        if ko >= 0 {
            assert(es.push((key, x))[ko] == es[ko]);
        }
    }
}

proof fn lemma_field_after_update(es: Seq<(Seq<char>, JsonModel)>, k: int, y: JsonModel, other: Seq<char>)
    requires
        0 <= k < es.len(),
    ensures
        es[k].0 == other ==> field(JsonModel::Obj(es.update(k, (es[k].0, y))), other) == (
        if find_key(es, other) == k {
            Some(y)
        } else {
            field(JsonModel::Obj(es), other)
        }),
        es[k].0 != other ==> field(JsonModel::Obj(es.update(k, (es[k].0, y))), other) == field(JsonModel::Obj(es), other),
{
    lemma_find_key(es, other);
    lemma_find_key_update(es, k, y, other);
}

/// Writing a reachable path makes it hold the value written, and leaves it
/// reachable.
pub proof fn lemma_set_then_get(v: JsonModel, path: Seq<Seq<char>>, x: JsonModel)
    requires
        reachable(v, path),
    ensures
        value_in(set_in(v, path, x), path) == Some(x),
        reachable(set_in(v, path, x), path),
    decreases path.len(),
{
    if let JsonModel::Obj(es) = v {
        if path.len() == 1 {
            lemma_field_after_insert(es, path[0], x, path[0]);
            assert(path.drop_first().len() == 0);
            assert(value_in(x, path.drop_first()) == Some(x));
            assert(set_in(v, path, x) == JsonModel::Obj(insert_entry(es, path[0], x)));
        } else {
            lemma_find_key(es, path[0]);
            let k = find_key(es, path[0]);
            let inner = set_in(es[k].1, path.drop_first(), x);
            lemma_set_then_get(es[k].1, path.drop_first(), x);
            lemma_field_after_update(es, k, inner, path[0]);
            assert(set_in(v, path, x) == JsonModel::Obj(es.update(k, (es[k].0, inner))));
        }
    }
}

/// Writing a path leaves the value at every path apart from it as it was,
/// and whether that path is reachable.
pub proof fn lemma_set_elsewhere(v: JsonModel, q: Seq<Seq<char>>, x: JsonModel, p: Seq<Seq<char>>)
    requires
        apart(p, q),
    ensures
        value_in(set_in(v, q, x), p) == value_in(v, p),
        reachable(set_in(v, q, x), p) == reachable(v, p),
    decreases p.len(),
{
    if let JsonModel::Obj(es) = v {
        let w = set_in(v, q, x);
        if p[0] != q[0] {
            if q.len() == 1 {
                lemma_field_after_insert(es, q[0], x, p[0]);
            } else {
                lemma_find_key(es, q[0]);
                let k = find_key(es, q[0]);
                if k >= 0 {
                    lemma_field_after_update(es, k, set_in(es[k].1, q.drop_first(), x), p[0]);
                }
            }
            assert(field(w, p[0]) == field(v, p[0]));
        } else {
            assert(apart(p.drop_first(), q.drop_first()));
            lemma_find_key(es, q[0]);
            let k = find_key(es, q[0]);
            if k >= 0 {
                let inner = set_in(es[k].1, q.drop_first(), x);
                lemma_field_after_update(es, k, inner, p[0]);
                lemma_set_elsewhere(es[k].1, q.drop_first(), x, p.drop_first());
            }
        }
    }
}

proof fn lemma_set_bound_is_set_in(prompt: Seq<(Seq<char>, JsonModel)>, path: Seq<Seq<char>>, x: JsonModel)
    requires
        path.len() >= 2,
    ensures
        JsonModel::Obj(set_bound_spec(prompt, path, x)) == set_in(JsonModel::Obj(prompt), path, x),
        set_bound_spec(prompt, path, x).len() == prompt.len(),
{
    lemma_find_key(prompt, path[0]);
}

/// A parameter's binding is a path of at least two keys.
proof fn lemma_binding_path_len(b: Seq<(Seq<char>, JsonModel)>, key: Seq<char>)
    ensures
        binding_path(b, key) matches Some(path) ==> path.len() >= 2,
{
}

/// Whether the path a parameter is bound to stays apart from `path`.
pub open spec fn bound_apart(b: Seq<(Seq<char>, JsonModel)>, key: Seq<char>, path: Seq<Seq<char>>) -> bool {
    match binding_path(b, key) {
        Some(q) => apart(path, q),
        None => true,
    }
}

proof fn lemma_bound_elsewhere(
    p: Seq<(Seq<char>, JsonModel)>,
    b: Seq<(Seq<char>, JsonModel)>,
    key: Seq<char>,
    x: JsonModel,
    path: Seq<Seq<char>>,
)
    requires
        bound_apart(b, key, path),
    ensures
        value_at(bound(p, b, key, x), path) == value_at(p, path),
        reachable(JsonModel::Obj(bound(p, b, key, x)), path) == reachable(JsonModel::Obj(p), path),
        bound(p, b, key, x).len() == p.len(),
{
    lemma_binding_path_len(b, key);
    if let Some(q) = binding_path(b, key) {
        lemma_set_bound_is_set_in(p, q, x);
        lemma_set_elsewhere(JsonModel::Obj(p), q, x, path);
    }
}

proof fn lemma_bound_here(
    p: Seq<(Seq<char>, JsonModel)>,
    b: Seq<(Seq<char>, JsonModel)>,
    key: Seq<char>,
    x: JsonModel,
    path: Seq<Seq<char>>,
)
    requires
        binding_path(b, key) == Some(path),
        reachable(JsonModel::Obj(p), path),
    ensures
        value_at(bound(p, b, key, x), path) == Some(x),
        reachable(JsonModel::Obj(bound(p, b, key, x)), path),
        bound(p, b, key, x).len() == p.len(),
{
    lemma_binding_path_len(b, key);
    lemma_set_bound_is_set_in(p, path, x);
    lemma_set_then_get(JsonModel::Obj(p), path, x);
}

/// The keys a request binds, other than the image size.
pub open spec fn others_apart(b: Seq<(Seq<char>, JsonModel)>, path: Seq<Seq<char>>) -> bool {
    &&& bound_apart(b, "checkpoint"@, path)
    &&& bound_apart(b, "positive"@, path)
    &&& bound_apart(b, "negative"@, path)
    &&& bound_apart(b, "steps"@, path)
    &&& bound_apart(b, "cfg"@, path)
    &&& bound_apart(b, "sampler"@, path)
    &&& bound_apart(b, "scheduler"@, path)
    &&& bound_apart(b, "batch"@, path)
    &&& bound_apart(b, "seed"@, path)
    &&& bound_apart(b, "filename_prefix"@, path)
}

/// The requested image size lands where the template binds it: when the
/// template binds `width` and `height` to reachable paths that no other
/// parameter's path runs into, the bound prompt holds the request's width
/// at the width path and its height at the height path, whatever the other
/// values of the request.
pub proof fn law_image_size_is_bound_where_the_template_says(
    prompt: Seq<(Seq<char>, JsonModel)>,
    b: Seq<(Seq<char>, JsonModel)>,
    req: PromptRequest,
    seed: nat,
    wp: Seq<Seq<char>>,
    hp: Seq<Seq<char>>,
)
    requires
        binding_path(b, "width"@) == Some(wp),
        binding_path(b, "height"@) == Some(hp),
        reachable(JsonModel::Obj(prompt), wp),
        reachable(JsonModel::Obj(prompt), hp),
        apart(wp, hp),
        others_apart(b, wp),
        others_apart(b, hp),
    ensures
        value_at(parameters_bound(prompt, b, req, seed), wp) == Some(number(req.width as nat)),
        value_at(parameters_bound(prompt, b, req, seed), hp) == Some(number(req.height as nat)),
        parameters_bound(prompt, b, req, seed).len() == prompt.len(),
{
    lemma_size_at(prompt, b, req, seed, wp, hp, "width"@, "height"@, number(req.width as nat), number(req.height as nat));
    assert(apart(hp, wp)) by { lemma_apart_symmetric(wp, hp); }
    lemma_size_at(prompt, b, req, seed, hp, wp, "height"@, "width"@, number(req.height as nat), number(req.width as nat));
}

proof fn lemma_apart_symmetric(p: Seq<Seq<char>>, q: Seq<Seq<char>>)
    requires
        apart(p, q),
    ensures
        apart(q, p),
    decreases p.len(),
{
    if p[0] == q[0] {
        lemma_apart_symmetric(p.drop_first(), q.drop_first());
    }
}

proof fn lemma_size_at(
    prompt: Seq<(Seq<char>, JsonModel)>,
    b: Seq<(Seq<char>, JsonModel)>,
    req: PromptRequest,
    seed: nat,
    path: Seq<Seq<char>>,
    other_path: Seq<Seq<char>>,
    key: Seq<char>,
    other_key: Seq<char>,
    x: JsonModel,
    y: JsonModel,
)
    requires
        (key == "width"@ && other_key == "height"@ && x == number(req.width as nat) && y == number(req.height as nat))
            || (key == "height"@ && other_key == "width"@ && x == number(req.height as nat) && y == number(req.width as nat)),
        binding_path(b, key) == Some(path),
        binding_path(b, other_key) == Some(other_path),
        reachable(JsonModel::Obj(prompt), path),
        apart(path, other_path),
        others_apart(b, path),
    ensures
        value_at(parameters_bound(prompt, b, req, seed), path) == Some(x),
        parameters_bound(prompt, b, req, seed).len() == prompt.len(),
{
    reveal_strlit("width");
    reveal_strlit("height");
    assert("width"@.len() == 5 && "height"@.len() == 6);
    let p1 = bound(prompt, b, "checkpoint"@, JsonModel::Str(req.checkpoint@));
    let p2 = bound(p1, b, "positive"@, JsonModel::Str(req.positive@));
    let p3 = bound(p2, b, "negative"@, JsonModel::Str(req.negative@));
    let p4 = bound(p3, b, "steps"@, number(req.steps as nat));
    let p5 = bound(p4, b, "cfg"@, model(req.cfg));
    let p6 = bound(p5, b, "sampler"@, JsonModel::Str(req.sampler@));
    lemma_bound_elsewhere(prompt, b, "checkpoint"@, JsonModel::Str(req.checkpoint@), path);
    lemma_bound_elsewhere(p1, b, "positive"@, JsonModel::Str(req.positive@), path);
    lemma_bound_elsewhere(p2, b, "negative"@, JsonModel::Str(req.negative@), path);
    lemma_bound_elsewhere(p3, b, "steps"@, number(req.steps as nat), path);
    lemma_bound_elsewhere(p4, b, "cfg"@, model(req.cfg), path);
    lemma_bound_elsewhere(p5, b, "sampler"@, JsonModel::Str(req.sampler@), path);
    assert(texts_bound(prompt, b, req) == p6);
    let p7 = bound(p6, b, "scheduler"@, JsonModel::Str(req.scheduler@));
    lemma_bound_elsewhere(p6, b, "scheduler"@, JsonModel::Str(req.scheduler@), path);
    let p8 = bound(p7, b, "width"@, number(req.width as nat));
    let p9 = bound(p8, b, "height"@, number(req.height as nat));
    if key == "width"@ {
        lemma_bound_here(p7, b, "width"@, number(req.width as nat), path);
        lemma_bound_elsewhere(p8, b, "height"@, number(req.height as nat), path);
    } else {
        lemma_bound_elsewhere(p7, b, "width"@, number(req.width as nat), path);
        lemma_bound_here(p8, b, "height"@, number(req.height as nat), path);
    }
    let p10 = bound(p9, b, "batch"@, number(req.batch as nat));
    let p11 = bound(p10, b, "seed"@, number(seed));
    let p12 = bound(p11, b, "filename_prefix"@, JsonModel::Str(prefix_of(req)));
    lemma_bound_elsewhere(p9, b, "batch"@, number(req.batch as nat), path);
    lemma_bound_elsewhere(p10, b, "seed"@, number(seed), path);
    lemma_bound_elsewhere(p11, b, "filename_prefix"@, JsonModel::Str(prefix_of(req)), path);
    assert(sampling_bound(p6, b, req, seed) == p12);
}


/// The LoRA parameters are bound apart from `path`.
pub open spec fn lora_apart(b: Seq<(Seq<char>, JsonModel)>, path: Seq<Seq<char>>) -> bool {
    &&& bound_apart(b, "lora_name"@, path)
    &&& bound_apart(b, "lora_strength_model"@, path)
    &&& bound_apart(b, "lora_strength_clip"@, path)
    &&& bound_apart(b, "lora_mode"@, path)
}

/// The prompt that is built (for a template without a LoRA node and a
/// request without a LoRA, or a request that selects a LoRA for a template
/// that has one) succeeds and holds the request's width and height where
/// the template binds them.
pub proof fn law_built_prompt_has_the_requested_size(
    prompt: Seq<(Seq<char>, JsonModel)>,
    b: Seq<(Seq<char>, JsonModel)>,
    req: PromptRequest,
    seed: nat,
    wp: Seq<Seq<char>>,
    hp: Seq<Seq<char>>,
)
    requires
        binding_path(b, "width"@) == Some(wp),
        binding_path(b, "height"@) == Some(hp),
        reachable(JsonModel::Obj(prompt), wp),
        reachable(JsonModel::Obj(prompt), hp),
        apart(wp, hp),
        others_apart(b, wp),
        others_apart(b, hp),
        (binding_path(b, "lora_name"@) is None && req.lora is None) || (binding_path(b, "lora_name"@) is Some
            && wants_lora(req) && lora_apart(b, wp) && lora_apart(b, hp)),
    ensures
        prompt_for(prompt, b, req, seed) matches Ok(q) && value_at(q, wp) == Some(number(req.width as nat))
            && value_at(q, hp) == Some(number(req.height as nat)),
{
    law_image_size_is_bound_where_the_template_says(prompt, b, req, seed, wp, hp);
    let p = parameters_bound(prompt, b, req, seed);
    lemma_binding_path_len(b, "width"@);
    lemma_find_key(prompt, wp[0]);
    assert(prompt.len() > 0);
    if binding_path(b, "lora_name"@) is Some {
        let l = req.lora->0;
        let q1 = bound(p, b, "lora_name"@, JsonModel::Str(trim(l.name@)));
        let q2 = bound(q1, b, "lora_strength_model"@, model(l.strength));
        let q3 = bound(q2, b, "lora_strength_clip"@, model(l.strength));
        let q4 = bound(q3, b, "lora_mode"@, JsonModel::Num("0"@));
        lemma_bound_elsewhere(p, b, "lora_name"@, JsonModel::Str(trim(l.name@)), wp);
        lemma_bound_elsewhere(q1, b, "lora_strength_model"@, model(l.strength), wp);
        lemma_bound_elsewhere(q2, b, "lora_strength_clip"@, model(l.strength), wp);
        lemma_bound_elsewhere(q3, b, "lora_mode"@, JsonModel::Num("0"@), wp);
        lemma_bound_elsewhere(p, b, "lora_name"@, JsonModel::Str(trim(l.name@)), hp);
        lemma_bound_elsewhere(q1, b, "lora_strength_model"@, model(l.strength), hp);
        lemma_bound_elsewhere(q2, b, "lora_strength_clip"@, model(l.strength), hp);
        lemma_bound_elsewhere(q3, b, "lora_mode"@, JsonModel::Num("0"@), hp);
        assert(lora_bound(p, b, l) == q4);
    }
}


/// The parameters a request binds into a template.
pub open spec fn is_parameter(key: Seq<char>) -> bool {
    key == "checkpoint"@ || key == "positive"@ || key == "negative"@ || key == "steps"@ || key == "cfg"@ || key == "sampler"@ || key == "scheduler"@ || key == "width"@ || key == "height"@ || key == "batch"@ || key == "seed"@ || key == "filename_prefix"@
}

/// The value a request gives each parameter: its texts as strings, its
/// numbers as numbers, the seed in use and the file name prefix.
pub open spec fn parameter_value(req: PromptRequest, seed: nat, key: Seq<char>) -> JsonModel {
    if key == "checkpoint"@ {
        JsonModel::Str(req.checkpoint@)
    } else if key == "positive"@ {
        JsonModel::Str(req.positive@)
    } else if key == "negative"@ {
        JsonModel::Str(req.negative@)
    } else if key == "steps"@ {
        number(req.steps as nat)
    } else if key == "cfg"@ {
        model(req.cfg)
    } else if key == "sampler"@ {
        JsonModel::Str(req.sampler@)
    } else if key == "scheduler"@ {
        JsonModel::Str(req.scheduler@)
    } else if key == "width"@ {
        number(req.width as nat)
    } else if key == "height"@ {
        number(req.height as nat)
    } else if key == "batch"@ {
        number(req.batch as nat)
    } else if key == "seed"@ {
        number(seed)
    } else {
        JsonModel::Str(prefix_of(req))
    }
}

proof fn lemma_parameter_names()
    ensures
        "checkpoint"@.len() == 10 && "positive"@.len() == 8 && "negative"@.len() == 8 && "steps"@.len() == 5 && "cfg"@.len() == 3 && "sampler"@.len() == 7 && "scheduler"@.len() == 9 && "width"@.len() == 5 && "height"@.len() == 6 && "batch"@.len() == 5 && "seed"@.len() == 4 && "filename_prefix"@.len() == 15,
        "checkpoint"@[0] == 'c' && "positive"@[0] == 'p' && "negative"@[0] == 'n' && "steps"@[0] == 's' && "cfg"@[0] == 'c' && "sampler"@[0] == 's' && "scheduler"@[0] == 's' && "width"@[0] == 'w' && "height"@[0] == 'h' && "batch"@[0] == 'b' && "seed"@[0] == 's' && "filename_prefix"@[0] == 'f',
{
    reveal_strlit("checkpoint");
    reveal_strlit("positive");
    reveal_strlit("negative");
    reveal_strlit("steps");
    reveal_strlit("cfg");
    reveal_strlit("sampler");
    reveal_strlit("scheduler");
    reveal_strlit("width");
    reveal_strlit("height");
    reveal_strlit("batch");
    reveal_strlit("seed");
    reveal_strlit("filename_prefix");
}

/// Every parameter lands where the template binds it: when a parameter's
/// path is reachable in the template and every other parameter's path stays
/// apart from it, the bound prompt holds that parameter's value there.
pub proof fn law_each_parameter_is_bound_where_the_template_says(
    prompt: Seq<(Seq<char>, JsonModel)>,
    b: Seq<(Seq<char>, JsonModel)>,
    req: PromptRequest,
    seed: nat,
    key: Seq<char>,
    path: Seq<Seq<char>>,
)
    requires
        is_parameter(key),
        binding_path(b, key) == Some(path),
        reachable(JsonModel::Obj(prompt), path),
        forall|k: Seq<char>| is_parameter(k) && k != key ==> #[trigger] bound_apart(b, k, path),
    ensures
        value_at(parameters_bound(prompt, b, req, seed), path) == Some(parameter_value(req, seed, key)),
{
    lemma_parameter_names();
    let q1 = bound(prompt, b, "checkpoint"@, JsonModel::Str(req.checkpoint@));
    if key == "checkpoint"@ {
        lemma_bound_here(prompt, b, "checkpoint"@, JsonModel::Str(req.checkpoint@), path);
    } else {
        lemma_bound_elsewhere(prompt, b, "checkpoint"@, JsonModel::Str(req.checkpoint@), path);
    }
    let q2 = bound(q1, b, "positive"@, JsonModel::Str(req.positive@));
    if key == "positive"@ {
        lemma_bound_here(q1, b, "positive"@, JsonModel::Str(req.positive@), path);
    } else {
        lemma_bound_elsewhere(q1, b, "positive"@, JsonModel::Str(req.positive@), path);
    }
    let q3 = bound(q2, b, "negative"@, JsonModel::Str(req.negative@));
    if key == "negative"@ {
        lemma_bound_here(q2, b, "negative"@, JsonModel::Str(req.negative@), path);
    } else {
        lemma_bound_elsewhere(q2, b, "negative"@, JsonModel::Str(req.negative@), path);
    }
    let q4 = bound(q3, b, "steps"@, number(req.steps as nat));
    if key == "steps"@ {
        lemma_bound_here(q3, b, "steps"@, number(req.steps as nat), path);
    } else {
        lemma_bound_elsewhere(q3, b, "steps"@, number(req.steps as nat), path);
    }
    let q5 = bound(q4, b, "cfg"@, model(req.cfg));
    if key == "cfg"@ {
        lemma_bound_here(q4, b, "cfg"@, model(req.cfg), path);
    } else {
        lemma_bound_elsewhere(q4, b, "cfg"@, model(req.cfg), path);
    }
    let q6 = bound(q5, b, "sampler"@, JsonModel::Str(req.sampler@));
    if key == "sampler"@ {
        lemma_bound_here(q5, b, "sampler"@, JsonModel::Str(req.sampler@), path);
    } else {
        lemma_bound_elsewhere(q5, b, "sampler"@, JsonModel::Str(req.sampler@), path);
    }
    let q7 = bound(q6, b, "scheduler"@, JsonModel::Str(req.scheduler@));
    if key == "scheduler"@ {
        lemma_bound_here(q6, b, "scheduler"@, JsonModel::Str(req.scheduler@), path);
    } else {
        lemma_bound_elsewhere(q6, b, "scheduler"@, JsonModel::Str(req.scheduler@), path);
    }
    let q8 = bound(q7, b, "width"@, number(req.width as nat));
    if key == "width"@ {
        lemma_bound_here(q7, b, "width"@, number(req.width as nat), path);
    } else {
        lemma_bound_elsewhere(q7, b, "width"@, number(req.width as nat), path);
    }
    let q9 = bound(q8, b, "height"@, number(req.height as nat));
    if key == "height"@ {
        lemma_bound_here(q8, b, "height"@, number(req.height as nat), path);
    } else {
        lemma_bound_elsewhere(q8, b, "height"@, number(req.height as nat), path);
    }
    let q10 = bound(q9, b, "batch"@, number(req.batch as nat));
    if key == "batch"@ {
        lemma_bound_here(q9, b, "batch"@, number(req.batch as nat), path);
    } else {
        lemma_bound_elsewhere(q9, b, "batch"@, number(req.batch as nat), path);
    }
    let q11 = bound(q10, b, "seed"@, number(seed));
    if key == "seed"@ {
        lemma_bound_here(q10, b, "seed"@, number(seed), path);
    } else {
        lemma_bound_elsewhere(q10, b, "seed"@, number(seed), path);
    }
    let q12 = bound(q11, b, "filename_prefix"@, JsonModel::Str(prefix_of(req)));
    if key == "filename_prefix"@ {
        lemma_bound_here(q11, b, "filename_prefix"@, JsonModel::Str(prefix_of(req)), path);
    } else {
        lemma_bound_elsewhere(q11, b, "filename_prefix"@, JsonModel::Str(prefix_of(req)), path);
    }
    assert(texts_bound(prompt, b, req) == q6);
    assert(sampling_bound(q6, b, req, seed) == q12);
}

} // verus!
