use anime_pic_manage::comfy::ComfyError;
use anime_pic_manage::workflow::{
    check_template_version, cleaned_overrides, template_candidates, template_not_found, template_overrides,
    with_template_overrides, Json, LoraChoice, PromptRequest, WorkflowTemplate,
};

fn s(text: &str) -> Json {
    Json::Str(text.to_string())
}

fn n(text: &str) -> Json {
    Json::Num(text.to_string())
}

fn obj(entries: Vec<(&str, Json)>) -> Json {
    Json::Obj(entries.into_iter().map(|(k, v)| (k.to_string(), v)).collect())
}

fn path(parts: &[&str]) -> Json {
    Json::Arr(parts.iter().map(|p| s(p)).collect())
}

fn link(node: &str, output: &str) -> Json {
    Json::Arr(vec![s(node), n(output)])
}

fn get<'a>(entries: &'a [(String, Json)], key: &str) -> Option<&'a Json> {
    entries.iter().find(|(k, _)| k == key).map(|(_, v)| v)
}

fn at<'a>(prompt: &'a [(String, Json)], node: &str, input: &str) -> &'a Json {
    match get(prompt, node) {
        Some(Json::Obj(fields)) => match get(fields, "inputs") {
            Some(Json::Obj(inputs)) => get(inputs, input).expect("input exists"),
            _ => panic!("node {node} has no inputs"),
        },
        _ => panic!("node {node} missing"),
    }
}

fn text(j: &Json) -> String {
    match j {
        Json::Str(t) => format!("s:{t}"),
        Json::Num(t) => format!("n:{t}"),
        Json::Arr(items) => format!("[{}]", items.iter().map(text).collect::<Vec<_>>().join(",")),
        Json::Obj(_) => "obj".to_string(),
        Json::Bool(b) => format!("b:{b}"),
        Json::Null => "null".to_string(),
    }
}

fn template() -> WorkflowTemplate {
    let bindings = vec![
        ("checkpoint", path(&["4", "inputs", "ckpt_name"])),
        ("positive", path(&["6", "inputs", "text"])),
        ("negative", path(&["7", "inputs", "text"])),
        ("steps", path(&["3", "inputs", "steps"])),
        ("cfg", path(&["3", "inputs", "cfg"])),
        ("sampler", path(&["3", "inputs", "sampler_name"])),
        ("scheduler", path(&["3", "inputs", "scheduler"])),
        ("width", path(&["5", "inputs", "width"])),
        ("height", path(&["5", "inputs", "height"])),
        ("batch", path(&["5", "inputs", "batch_size"])),
        ("seed", path(&["3", "inputs", "seed"])),
        ("filename_prefix", path(&["9", "inputs", "filename_prefix"])),
        ("lora_name", path(&["10", "inputs", "lora_name"])),
        ("lora_strength_model", path(&["10", "inputs", "strength_model"])),
        ("lora_strength_clip", path(&["10", "inputs", "strength_clip"])),
        ("lora_mode", path(&["10", "mode"])),
    ];
    let prompt = vec![
        ("3", obj(vec![("class_type", s("KSampler")), ("inputs", obj(vec![
            ("steps", n("20")), ("cfg", n("7.0")), ("sampler_name", s("euler")), ("scheduler", s("normal")),
            ("seed", n("1")), ("model", link("10", "0")),
        ]))])),
        ("4", obj(vec![("class_type", s("CheckpointLoaderSimple")), ("inputs", obj(vec![("ckpt_name", s("old.safetensors"))]))])),
        ("5", obj(vec![("class_type", s("EmptyLatentImage")), ("inputs", obj(vec![
            ("width", n("512")), ("height", n("512")), ("batch_size", n("1")),
        ]))])),
        ("6", obj(vec![("class_type", s("CLIPTextEncode")), ("inputs", obj(vec![("text", s("")), ("clip", link("10", "1"))]))])),
        ("7", obj(vec![("class_type", s("CLIPTextEncode")), ("inputs", obj(vec![("text", s("")), ("clip", link("10", "1"))]))])),
        ("9", obj(vec![("class_type", s("SaveImage")), ("inputs", obj(vec![("filename_prefix", s("ComfyUI"))]))])),
        ("10", obj(vec![("class_type", s("LoraLoader")), ("inputs", obj(vec![
            ("model", link("4", "0")), ("clip", link("4", "1")), ("lora_name", s("")),
            ("strength_model", n("1.0")), ("strength_clip", n("1.0")),
        ])), ("mode", n("4"))])),
    ];
    WorkflowTemplate {
        version: 1,
        name: "txt2img".to_string(),
        description: "test".to_string(),
        bindings: bindings.into_iter().map(|(k, v)| (k.to_string(), v)).collect(),
        prompt: prompt.into_iter().map(|(k, v)| (k.to_string(), v)).collect(),
    }
}

fn request() -> PromptRequest {
    PromptRequest {
        checkpoint: "illustriousXL_v01.safetensors".to_string(),
        positive: "score_9, character_alpha".to_string(),
        negative: "worst quality".to_string(),
        steps: 28,
        cfg: n("6.5"),
        sampler: "dpmpp_2m".to_string(),
        scheduler: "karras".to_string(),
        width: 1024,
        height: 1024,
        batch: 2,
        seed: 12345,
        filename_prefix: Some("anime".to_string()),
        lora: Some(LoraChoice { name: "character_alpha.safetensors".to_string(), strength: n("0.8") }),
    }
}

#[test]
fn binds_every_parameter_into_the_prompt() {
    let built = template().build_prompt(&request()).expect("prompt builds");

    assert_eq!(text(at(&built, "4", "ckpt_name")), "s:illustriousXL_v01.safetensors");
    assert_eq!(text(at(&built, "6", "text")), "s:score_9, character_alpha");
    assert_eq!(text(at(&built, "7", "text")), "s:worst quality");
    assert_eq!(text(at(&built, "3", "steps")), "n:28");
    assert_eq!(text(at(&built, "3", "cfg")), "n:6.5");
    assert_eq!(text(at(&built, "3", "sampler_name")), "s:dpmpp_2m");
    assert_eq!(text(at(&built, "3", "scheduler")), "s:karras");
    assert_eq!(text(at(&built, "3", "seed")), "n:12345");
    assert_eq!(text(at(&built, "5", "width")), "n:1024");
    assert_eq!(text(at(&built, "5", "batch_size")), "n:2");
    assert_eq!(text(at(&built, "9", "filename_prefix")), "s:anime");
    assert_eq!(text(at(&built, "10", "lora_name")), "s:character_alpha.safetensors");
    assert_eq!(text(at(&built, "10", "strength_model")), "n:0.8");
    match get(&built, "10") {
        Some(Json::Obj(fields)) => assert_eq!(text(get(fields, "mode").unwrap()), "n:0"),
        _ => panic!("LoRA node kept"),
    }
}

#[test]
fn negative_seeds_are_resolved_before_binding() {
    let mut negative = request();
    negative.seed = -1;
    let built = template().build_prompt(&negative).expect("prompt builds with a random seed");
    let seed: i64 = match at(&built, "3", "seed") {
        Json::Num(t) => t.parse().expect("seed is an integer"),
        other => panic!("unexpected {other:?}"),
    };
    assert!((0..2_147_483_647).contains(&seed));
    let fixed = template().build_prompt_with_seed(&negative, 77).unwrap();
    assert_eq!(text(at(&fixed, "3", "seed")), "n:77");
}

#[test]
fn without_a_lora_the_loader_is_removed_and_rewired() {
    let mut request = request();
    request.lora = None;

    let built = template().build_prompt(&request).expect("prompt builds");

    assert!(get(&built, "10").is_none());
    assert_eq!(text(at(&built, "3", "model")), "[s:4,n:0]");
    assert_eq!(text(at(&built, "6", "clip")), "[s:4,n:1]");
    assert_eq!(text(at(&built, "7", "clip")), "[s:4,n:1]");
}

#[test]
fn an_empty_lora_name_is_treated_as_no_lora() {
    let mut request = request();
    request.lora = Some(LoraChoice { name: "   ".to_string(), strength: n("0.8") });

    let built = template().build_prompt(&request).expect("prompt builds");

    assert!(get(&built, "10").is_none());
    assert_eq!(text(at(&built, "3", "model")), "[s:4,n:0]");
}

#[test]
fn missing_prompt_graph_is_rejected() {
    let mut template = template();
    template.prompt.clear();

    assert!(matches!(template.build_prompt(&request()), Err(ComfyError::Template(_))));
}

#[test]
fn a_lora_needs_a_template_with_a_lora_node() {
    let mut template = template();
    template.bindings.retain(|(k, _)| !k.starts_with("lora"));
    assert!(!template.supports_lora());
    match template.build_prompt(&request()) {
        Err(ComfyError::Template(m)) => assert_eq!(m, "该工作流模板没有 LoRA 加载节点"),
        other => panic!("unexpected {other:?}"),
    }
    let mut plain = request();
    plain.lora = None;
    assert!(template.build_prompt(&plain).is_ok());
}

#[test]
fn a_lora_node_without_model_and_clip_cannot_be_bypassed() {
    let mut template = template();
    for (key, node) in template.prompt.iter_mut() {
        if key == "10" {
            *node = obj(vec![("class_type", s("LoraLoader")), ("inputs", obj(vec![("lora_name", s(""))]))]);
        }
    }
    let mut request = request();
    request.lora = None;
    match template.build_prompt(&request) {
        Err(ComfyError::Template(m)) => assert_eq!(m, "LoRA 节点缺少 model/clip 输入，无法在不选择 LoRA 时旁路"),
        other => panic!("unexpected {other:?}"),
    }
}

#[test]
fn template_versions_are_checked() {
    assert!(check_template_version(1, "a.json").is_ok());
    match check_template_version(2, "a.json") {
        Err(ComfyError::Template(m)) => assert_eq!(m, "a.json: 不支持的模板版本 2"),
        other => panic!("unexpected {other:?}"),
    }
}

#[test]
fn template_names_must_be_bare_file_names() {
    let roots = vec!["D:\\app\\resources\\comfy-workflows".to_string(), "D:\\work".to_string()];
    let files = template_candidates(&roots, " txt2img ").expect("valid name");
    assert_eq!(files, vec!["D:\\app\\resources\\comfy-workflows\\txt2img.json", "D:\\work\\txt2img.json"]);
    for bad in ["", "  ", "a/b", "a\\b", "C:x"] {
        assert_eq!(template_candidates(&roots, bad).unwrap_err(), "工作流模板名不合法。");
    }
    assert_eq!(template_not_found(" txt2img "), "未找到工作流模板 txt2img.json");
}

#[test]
fn empty_node_edits_are_dropped_and_clear_the_template_entry() {
    let edits = vec![
        ("3".to_string(), obj(vec![("steps", n("30"))])),
        ("4".to_string(), obj(vec![])),
        ("5".to_string(), s("not an object")),
    ];
    let cleaned = cleaned_overrides(edits);
    assert_eq!(cleaned.len(), 1);
    assert_eq!(cleaned[0].0, "3");

    let stored = with_template_overrides(vec![], " txt2img ", cleaned);
    assert_eq!(stored.len(), 1);
    assert_eq!(stored[0].0, "txt2img");
    match template_overrides(&stored, "txt2img") {
        Json::Obj(nodes) => assert_eq!(nodes[0].0, "3"),
        other => panic!("unexpected {other:?}"),
    }
    let cleared = with_template_overrides(stored, "txt2img", cleaned_overrides(vec![("3".to_string(), obj(vec![]))]));
    assert!(cleared.is_empty());
    match template_overrides(&cleared, "txt2img") {
        Json::Obj(nodes) => assert!(nodes.is_empty()),
        other => panic!("unexpected {other:?}"),
    }
}

#[test]
fn template_names_are_sorted_json_stems() {
    let files = vec![
        "C:\\app\\comfy_workflows\\txt2img_lora.json".to_string(),
        "C:\\app\\comfy_workflows\\README.md".to_string(),
        "C:\\app\\comfy_workflows\\txt2img.json".to_string(),
        "C:\\app\\comfy_workflows\\upper.JSON".to_string(),
    ];
    assert_eq!(
        anime_pic_manage::workflow::template_names(&files),
        vec!["txt2img".to_string(), "txt2img_lora".to_string()]
    );
    assert!(anime_pic_manage::workflow::template_names(&Vec::new()).is_empty());
}
