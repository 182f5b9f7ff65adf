use comfyui_openai_api::json::Json;
use comfyui_openai_api::payload::{
    create_json_payload, lacks_title, node_role, parse_dimensions, rewrite_node, translate, NodeRole,
    Translation,
};
use comfyui_openai_api::proxy::ProxyError;
use comfyui_openai_api::workflows::Workflows;
use serde_json::Value;

const WORKFLOW: &str = r#"{
    "3": {"class_type": "KSampler", "inputs": {"seed": 1, "cfg": 7.5, "steps": 20}},
    "4": {"class_type": "CheckpointLoaderSimple", "inputs": {"ckpt_name": "model.safetensors"}},
    "5": {"class_type": "EmptyLatentImage", "inputs": {"width": 64, "height": 64, "batch_size": 1}},
    "6": {"class_type": "CLIPTextEncode", "_meta": {"title": "Positive Prompt"}, "inputs": {"text": "old", "clip": ["4", 1]}},
    "7": {"class_type": "CLIPTextEncode", "_meta": {"title": "Negative Prompt"}, "inputs": {"text": "bad"}},
    "8": {"class_type": "CLIPTextEncode", "_meta": {"title": "Something else"}, "inputs": {"text": "kept"}}
}"#;

fn workflows() -> Workflows {
    let mut workflows = Workflows::new();
    workflows.insert("animagine".to_string(), Json::from_str(WORKFLOW).unwrap());
    workflows.insert("list".to_string(), Json::from_str("[1,2]").unwrap());
    workflows
}

fn value_of(json: &Json) -> Value {
    serde_json::from_slice(&json.to_bytes().unwrap()).unwrap()
}

fn payload(body: &str) -> Value {
    match create_json_payload(body.as_bytes(), &workflows(), "client-1") {
        Ok(bytes) => serde_json::from_slice(&bytes).unwrap(),
        _ => panic!("no payload"),
    }
}

fn refusal(body: &str) -> String {
    match create_json_payload(body.as_bytes(), &workflows(), "client-1") {
        Err(ProxyError::Json(message)) => message,
        _ => panic!("not refused"),
    }
}

#[test]
fn request_is_translated() {
    let sent = payload(
        r#"{"model":"animagine","prompt":"a cat","negative_prompt":"dogs","seed":42,"size":"1024x768","n":3}"#,
    );
    assert_eq!(sent["client_id"], "client-1");
    let nodes = &sent["prompt"];
    assert_eq!(nodes["3"]["inputs"]["seed"], "42");
    assert_eq!(nodes["3"]["inputs"]["steps"], 20);
    assert_eq!(nodes["3"]["inputs"]["cfg"], 7.5);
    assert_eq!(nodes["5"]["inputs"]["width"], "1024");
    assert_eq!(nodes["5"]["inputs"]["height"], "768");
    assert_eq!(nodes["5"]["inputs"]["batch_size"], "3");
    assert_eq!(nodes["6"]["inputs"]["text"], "a cat");
    assert_eq!(nodes["6"]["inputs"]["clip"][1], 1);
    assert_eq!(nodes["7"]["inputs"]["text"], "dogs");
    assert_eq!(nodes["8"]["inputs"]["text"], "kept");
    assert_eq!(nodes["4"]["inputs"]["ckpt_name"], "model.safetensors");
    assert_eq!(sent.as_object().unwrap().len(), 2);
    assert_eq!(nodes.as_object().unwrap().len(), 6);
}

#[test]
fn exact_bytes_of_a_payload() {
    let mut workflows = Workflows::new();
    workflows.insert(
        "m".to_string(),
        Json::from_str(r#"{"1":{"inputs":{"z":1.50},"class_type":"KSampler"}}"#).unwrap(),
    );
    let sent = create_json_payload(br#"{"seed":-7,"model":"m"}"#, &workflows, "c").unwrap();
    assert_eq!(
        String::from_utf8(sent).unwrap(),
        r#"{"client_id":"c","prompt":{"1":{"class_type":"KSampler","inputs":{"seed":"-7","z":1.5}}}}"#
    );
}

#[test]
fn optional_parameters_keep_workflow_defaults() {
    let sent = payload(r#"{"model":"animagine","prompt":"p","size":"640x480","seed":1}"#);
    assert_eq!(sent["prompt"]["5"]["inputs"]["batch_size"], 1);
    assert_eq!(sent["prompt"]["7"]["inputs"]["text"], "bad");
}

#[test]
fn missing_seed_is_drawn_below_a_million() {
    for _ in 0..20 {
        let sent = payload(r#"{"model":"animagine","prompt":"p","size":"640x480"}"#);
        let seed: u32 = sent["prompt"]["3"]["inputs"]["seed"].as_str().unwrap().parse().unwrap();
        assert!(seed < 1_000_000);
    }
}

#[test]
fn drawn_seeds_vary() {
    let first = payload(r#"{"model":"animagine","prompt":"p","size":"640x480"}"#);
    let mut differs = false;
    for _ in 0..50 {
        let sent = payload(r#"{"model":"animagine","prompt":"p","size":"640x480"}"#);
        differs = differs || sent != first;
    }
    assert!(differs);
}

#[test]
fn seed_that_is_no_integer_is_drawn() {
    let request = Json::from_str(r#"{"model":"animagine","seed":1.0,"prompt":"p","size":"1x1"}"#).unwrap();
    match translate(&request, &workflows(), "c", &vec![11, 12, 13, 14, 15, 16]) {
        Translation::Payload(sent) => {
            assert_eq!(value_of(&sent)["prompt"]["3"]["inputs"]["seed"], "11")
        }
        _ => panic!("refused"),
    }
}

#[test]
fn given_seed_leaves_nothing_to_chance() {
    let request = Json::from_str(r#"{"model":"animagine","seed":5,"prompt":"p","size":"1x1"}"#).unwrap();
    let one = translate(&request, &workflows(), "c", &vec![1, 2, 3, 4, 5, 6]);
    let other = translate(&request, &workflows(), "c", &vec![7, 8, 9, 10, 11, 12]);
    match (one, other) {
        (Translation::Payload(one), Translation::Payload(other)) => {
            assert_eq!(value_of(&one), value_of(&other))
        }
        _ => panic!("refused"),
    }
}

#[test]
fn refusals_of_requests() {
    assert_eq!(refusal("{}"), "Failed to get model name from JSON");
    assert_eq!(refusal(r#"{"model":3}"#), "Failed to get model name from JSON");
    assert_eq!(refusal(r#"{"model":"nope"}"#), "Workflow 'nope' not found");
    assert_eq!(
        refusal(r#"{"model":"animagine","prompt":"p"}"#),
        "Failed to get size from JSON"
    );
    assert_eq!(
        refusal(r#"{"model":"animagine","size":"1x1"}"#),
        "Failed to get prompt from JSON"
    );
    assert_eq!(
        refusal("{"),
        "Failed to parse JSON: EOF while parsing an object at line 1 column 1"
    );
}

#[test]
fn first_refusal_in_node_order_wins() {
    // Node 5 wants the size before node 6 wants the prompt.
    assert_eq!(refusal(r#"{"model":"animagine"}"#), "Failed to get size from JSON");
}

#[test]
fn empty_body_stays_empty() {
    let sent = create_json_payload(b"", &workflows(), "c").unwrap();
    assert!(sent.is_empty());
}

#[test]
fn body_that_is_no_object_sends_placeholders() {
    let sent = create_json_payload(b"[1]", &workflows(), "c").unwrap();
    assert_eq!(String::from_utf8(sent).unwrap(), r#"{"client_id":"","prompt":""}"#);
}

#[test]
fn workflow_that_is_no_object_is_sent_as_it_is() {
    let sent = payload(r#"{"model":"list"}"#);
    assert_eq!(sent["prompt"][1], 2);
}

#[test]
fn text_node_without_title_is_refused() {
    let mut workflows = Workflows::new();
    workflows.insert(
        "m".to_string(),
        Json::from_str(
            r#"{"1":{"class_type":"EmptyLatentImage","inputs":{}},"2":{"class_type":"CLIPTextEncode","_meta":{}}}"#,
        )
        .unwrap(),
    );
    let message = |body: &[u8]| match create_json_payload(body, &workflows, "c") {
        Err(ProxyError::Json(message)) => message,
        _ => panic!("not refused"),
    };
    assert_eq!(message(br#"{"model":"m","size":"1x1"}"#), "Failed to get title from workflow");
    // The refusal by the node before it comes first.
    assert_eq!(message(br#"{"model":"m"}"#), "Failed to get size from JSON");
}

#[test]
fn roles_of_nodes() {
    let role = |text: &str| node_role(&Json::from_str(text).unwrap());
    assert!(role(r#"{"class_type":"KSampler"}"#) == NodeRole::Sampler);
    assert!(role(r#"{"class_type":"EmptySD3LatentImage"}"#) == NodeRole::LatentImage);
    assert!(role(r#"{"class_type":"EmptyLatentImage"}"#) == NodeRole::LatentImage);
    assert!(
        role(r#"{"class_type":"CLIPTextEncode","_meta":{"title":"Positive Prompt"}}"#)
            == NodeRole::PositivePrompt
    );
    assert!(
        role(r#"{"class_type":"CLIPTextEncode","_meta":{"title":"Negative Prompt"}}"#)
            == NodeRole::NegativePrompt
    );
    assert!(role(r#"{"class_type":"CLIPTextEncode","_meta":{"title":5}}"#) == NodeRole::Other);
    assert!(role(r#"{"class_type":"CLIPTextEncode"}"#) == NodeRole::Other);
    assert!(role(r#"{"class_type":"ksampler"}"#) == NodeRole::Other);
    assert!(role("[]") == NodeRole::Other);
    let untitled = Json::from_str(r#"{"class_type":"CLIPTextEncode","_meta":{}}"#).unwrap();
    assert!(lacks_title(&untitled));
}

#[test]
fn node_without_inputs_gets_null() {
    let node = Json::from_str(r#"{"class_type":"KSampler"}"#).unwrap();
    let request = Json::from_str("{}").unwrap();
    let rewritten = rewrite_node(&node, &request, 9).unwrap();
    assert_eq!(
        String::from_utf8(rewritten.to_bytes().unwrap()).unwrap(),
        r#"{"class_type":"KSampler","inputs":null}"#
    );
}

#[test]
fn node_with_inputs_that_are_no_object_is_kept() {
    let node = Json::from_str(r#"{"class_type":"KSampler","inputs":[1]}"#).unwrap();
    let rewritten = rewrite_node(&node, &Json::Null, 9).unwrap();
    assert_eq!(value_of(&rewritten), value_of(&node));
}

#[test]
fn rewriting_twice_is_rewriting_once() {
    let request =
        Json::from_str(r#"{"model":"animagine","prompt":"p","size":"12x34","n":2,"seed":5}"#).unwrap();
    let nodes = Json::from_str(WORKFLOW).unwrap();
    let nodes = nodes.as_object().unwrap();
    for i in 0..nodes.len() {
        let once = rewrite_node(nodes.value(i), &request, 0).unwrap();
        let twice = rewrite_node(&once, &request, 0).unwrap();
        assert_eq!(value_of(&once), value_of(&twice));
    }
}

#[test]
fn dimensions_of_sizes() {
    assert_eq!(parse_dimensions("1024x1024"), (1024, 1024));
    assert_eq!(parse_dimensions("640x480x3"), (640, 480));
    assert_eq!(parse_dimensions("640"), (640, 512));
    assert_eq!(parse_dimensions(""), (512, 512));
    assert_eq!(parse_dimensions("x"), (512, 512));
    assert_eq!(parse_dimensions("wide x480"), (512, 480));
    assert_eq!(parse_dimensions("+12x-34"), (12, -34));
    assert_eq!(parse_dimensions("99999999999x2147483648"), (512, 512));
    assert_eq!(parse_dimensions("2147483647x-2147483648"), (2147483647, -2147483648));
    assert_eq!(parse_dimensions("007x 8"), (7, 512));
    assert_eq!(parse_dimensions("-x+"), (512, 512));
}

#[test]
fn refusal_does_not_hang_on_seeds_or_client() {
    let request = Json::from_str(r#"{"model":"animagine","size":"1x1"}"#).unwrap();
    for (client, first) in [("a", 1), ("b", 999_999)] {
        match translate(&request, &workflows(), client, &vec![first; 6]) {
            Translation::Refused(ProxyError::Json(message)) => {
                assert_eq!(message, "Failed to get prompt from JSON")
            }
            _ => panic!("not refused"),
        }
    }
}

#[test]
fn rewriting_keeps_all_but_the_inputs() {
    let node = Json::from_str(
        r#"{"a":[null],"class_type":"KSampler","inputs":{"model":["4",0],"seed":1},"z":{"y":true}}"#,
    )
    .unwrap();
    let rewritten = rewrite_node(&node, &Json::from_str(r#"{"seed":"text"}"#).unwrap(), 77).unwrap();
    assert_eq!(
        String::from_utf8(rewritten.to_bytes().unwrap()).unwrap(),
        r#"{"a":[null],"class_type":"KSampler","inputs":{"model":["4",0],"seed":"77"},"z":{"y":true}}"#
    );
    assert!(node_role(&rewritten) == NodeRole::Sampler);
}
