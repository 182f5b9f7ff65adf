use comfyui_openai_api::config::{ComfyUiProxyConfig, Config, RoutingConfig, ServerConfig};
use comfyui_openai_api::headers::{find_authorization, response_headers, upstream_headers, Header};
use comfyui_openai_api::json::{Json, JsonObject};
use comfyui_openai_api::proxy::{
    handle_request_error, handle_timeout_error, proxy_handler, Endpoint, ProxyError, ProxyState,
    RequestFailure,
};
use comfyui_openai_api::text::{
    compare_texts, equals_ignoring_ascii_case, same_text, signed_text, unsigned_text, TextOrder,
};
use comfyui_openai_api::workflows::{
    FileName, FolderEntry, FolderFile, FolderListing, Workflows, WorkflowsLoader,
};

fn upstream(error: ProxyError) -> String {
    match error {
        ProxyError::Upstream(message) => message,
        _ => panic!("another kind of error"),
    }
}

fn failure(is_timeout: bool, is_connect: bool, is_request: bool) -> RequestFailure {
    RequestFailure { is_timeout, is_connect, is_request, text: "boom".to_string() }
}

#[test]
fn request_errors_are_told_apart() {
    assert_eq!(
        upstream(handle_request_error(failure(true, true, true), "http://b/x")),
        "Request timeout to http://b/x: boom"
    );
    assert_eq!(
        upstream(handle_request_error(failure(false, true, true), "http://b/x")),
        "Connection failed to http://b/x: boom - Check if backend server is running"
    );
    assert_eq!(
        upstream(handle_request_error(failure(false, false, true), "http://b/x")),
        "Request error to http://b/x: boom"
    );
    assert_eq!(
        upstream(handle_request_error(failure(false, false, false), "http://b/x")),
        "Network error to http://b/x: boom"
    );
}

#[test]
fn timeout_error_names_seconds_and_address() {
    assert_eq!(
        upstream(handle_timeout_error("http://b/prompt", 130)),
        "Request hung/timed out after 130 seconds to http://b/prompt"
    );
}

#[test]
fn errors_from_texts() {
    assert_eq!(upstream(ProxyError::from_request_text("gone")), "Request error: gone");
    let error = serde_json::from_str::<serde_json::Value>("{").unwrap_err();
    assert!(matches!(
        ProxyError::from(error),
        ProxyError::Json(m) if m == "JSON error: EOF while parsing an object at line 1 column 1"
    ));
}

#[test]
fn statuses_of_errors() {
    let reply = |error: ProxyError| {
        let reply = error.into_response();
        assert_eq!(reply.body.code, reply.status as u32);
        assert_eq!(reply.body.message, "m");
        reply.status
    };
    assert_eq!(reply(ProxyError::Internal("m".to_string())), 500);
    assert_eq!(reply(ProxyError::Upstream("m".to_string())), 502);
    assert_eq!(reply(ProxyError::Json("m".to_string())), 400);
    assert_eq!(reply(ProxyError::Validation("m".to_string())), 400);
    assert_eq!(reply(ProxyError::Implementation("m".to_string())), 400);
}

#[test]
fn only_generations_is_offered() {
    assert!(matches!(proxy_handler("generations"), Ok(Endpoint::Generations)));
    assert!(matches!(
        proxy_handler("edits"),
        Err(ProxyError::Implementation(message)) if message == "Path not supported: edits"
    ));
    assert!(proxy_handler("generations/").is_err());
}

fn config() -> Config {
    Config {
        log_level: "debug".to_string(),
        server: ServerConfig { host: "0.0.0.0".to_string(), port: 8080 },
        comfyui_backend: ComfyUiProxyConfig {
            host: "localhost".to_string(),
            port: 8188,
            client_id: "openai-proxy-client".to_string(),
            workflows_folder: "./workflows".to_string(),
            use_ws: true,
        },
        routing: RoutingConfig { timeout_seconds: 120, max_payload_size_mb: 10 },
    }
}

#[test]
fn state_of_a_configuration() {
    let state = ProxyState::new(&config(), Workflows::new());
    assert_eq!(state.target_base(), "localhost:8188");
    assert_eq!(state.timeout, 130);
    assert_eq!(state.body_limit(), 10485760);
    assert_eq!(state.backend_client_id, "openai-proxy-client");
    assert!(state.use_ws);
    assert_eq!(config().server_address(), "0.0.0.0:8080");
}

#[test]
fn configuration_file() {
    assert_eq!(Config::path(None), "./config/config.yaml");
    assert_eq!(Config::path(Some("/etc/p.yaml".to_string())), "/etc/p.yaml");
    assert_eq!(Config::file_text("p", Ok("log_level: info".to_string())).unwrap(), "log_level: info");
    assert_eq!(
        Config::file_text("p", Err("not found".to_string())).unwrap_err(),
        "Failed to read config file 'p': not found"
    );
}

#[test]
fn numbers_as_text() {
    assert_eq!(unsigned_text(0), "0");
    assert_eq!(unsigned_text(10), "10");
    assert_eq!(unsigned_text(u64::MAX), "18446744073709551615");
    assert_eq!(signed_text(-1), "-1");
    assert_eq!(signed_text(i64::MIN), "-9223372036854775808");
    assert_eq!(signed_text(i64::MAX), "9223372036854775807");
}

#[test]
fn texts_are_ordered_as_strings_are() {
    let words = ["", "a", "aa", "b", "B", "10", "9", "\u{e9}", "\u{10ffff}", "\u{e000}", "z"];
    for a in words {
        for b in words {
            let expected = if a < b {
                TextOrder::Before
            } else if a == b {
                TextOrder::Same
            } else {
                TextOrder::After
            };
            assert!(compare_texts(a, b) == expected);
            assert_eq!(same_text(a, b), a == b);
        }
    }
}

#[test]
fn ascii_case_is_ignored() {
    assert!(equals_ignoring_ascii_case("JsOn", "json"));
    assert!(!equals_ignoring_ascii_case("jso", "json"));
    assert!(!equals_ignoring_ascii_case("\u{c9}", "\u{e9}"));
    assert!(!equals_ignoring_ascii_case("[", "{"));
}

#[test]
fn object_members_stay_sorted_and_unique() {
    let mut object = JsonObject::new();
    object.insert("b".to_string(), Json::Bool(true));
    object.insert("c".to_string(), Json::Null);
    object.insert("a".to_string(), Json::from_i64(-5));
    object.insert("b".to_string(), Json::Text("x\"y".to_string()));
    assert_eq!(object.len(), 3);
    assert_eq!(object.key(0), "a");
    assert_eq!(object.get("a").unwrap().as_i64(), Some(-5));
    assert!(object.get("d").is_none());
    let json = Json::Object(object);
    assert_eq!(
        String::from_utf8(json.to_bytes().unwrap()).unwrap(),
        r#"{"a":-5,"b":"x\"y","c":null}"#
    );
    assert!(json.clone().get("c").unwrap().is_null());
}

#[test]
fn documents_survive_reading_and_writing() {
    let text = r#"{"a":[1,-2,3.25,1e300,18446744073709551615],"b":{"c":"é","d":[]},"e":false}"#;
    let json = Json::from_str(text).unwrap();
    let same = Json::from_bytes(&json.to_bytes().unwrap()).unwrap();
    let left: serde_json::Value = serde_json::from_slice(&same.to_bytes().unwrap()).unwrap();
    let right: serde_json::Value = serde_json::from_str(text).unwrap();
    assert_eq!(left, right);
    assert_eq!(json.get_array("a").unwrap()[0].as_i64(), Some(1));
    assert_eq!(json.get_array("a").unwrap()[1].as_i64(), Some(-2));
    assert_eq!(json.get_array("a").unwrap()[2].as_i64(), None);
    assert_eq!(json.get_array("a").unwrap()[4].as_i64(), None);
    assert_eq!(json.get_object("b").unwrap().len(), 2);
}

#[test]
fn integers_are_told_by_how_they_are_written() {
    for text in ["0", "7", "-7", "9223372036854775807", "-9223372036854775808"] {
        let json = Json::from_str(text).unwrap();
        assert_eq!(json.as_i64().map(|n| n.to_string()), Some(text.to_string()));
    }
    for text in ["1.0", "-0", "1e2", "9223372036854775808", "1e20", "0.5"] {
        assert_eq!(Json::from_str(text).unwrap().as_i64(), None);
        let number: serde_json::Number = serde_json::from_str(text).unwrap();
        assert!(number.to_string().parse::<i64>().is_err());
    }
}

fn header(name: &str, value: &[u8]) -> Header {
    Header { name: name.to_string(), value: value.to_vec() }
}

#[test]
fn authorization_is_found_and_checked() {
    let headers = vec![
        header("host", b"h"),
        header("authorization", b"Bearer one"),
        header("authorization", b"Bearer two"),
    ];
    assert_eq!(find_authorization(&headers).unwrap(), b"Bearer one");
    assert!(find_authorization(&vec![header("host", b"h")]).is_none());
    assert!(find_authorization(&vec![header("authorization", b"a\nb")]).is_none());
    assert!(find_authorization(&vec![header("authorization", b"a\x7fb")]).is_none());
    assert_eq!(find_authorization(&vec![header("authorization", b"a\t\xff")]).unwrap(), b"a\t\xff");
}

#[test]
fn headers_for_the_backend() {
    let sent = upstream_headers(true, &Some(b"Bearer t".to_vec()));
    assert_eq!(sent.len(), 2);
    assert_eq!((sent[0].name.as_str(), sent[0].value.as_slice()), ("content-type", &b"application/json"[..]));
    assert_eq!((sent[1].name.as_str(), sent[1].value.as_slice()), ("authorization", &b"Bearer t"[..]));
    assert!(upstream_headers(false, &None).is_empty());
}

#[test]
fn headers_for_the_client() {
    let given = vec![
        header("Content-Length", b"17"),
        header("x-a", b"1"),
        header("bad name", b"1"),
        header("x-b", b"\x01"),
        header("x-a", b"2"),
    ];
    let passed = response_headers(&given, 1234);
    assert_eq!(passed.len(), 2);
    assert_eq!((passed[0].name.as_str(), passed[0].value.as_slice()), ("content-length", &b"1234"[..]));
    assert_eq!((passed[1].name.as_str(), passed[1].value.as_slice()), ("x-a", &b"2"[..]));
}

fn file(name: &str, content: Result<&str, &str>) -> FolderEntry {
    named(FileName::Unicode(name.to_string()), content)
}

fn named(name: FileName, content: Result<&str, &str>) -> FolderEntry {
    FolderEntry::File(FolderFile {
        path: "w/file".to_string(),
        quoted_path: "\"w/file\"".to_string(),
        name,
        content: match content {
            Ok(text) => Ok(text.to_string()),
            Err(reason) => Err(reason.to_string()),
        },
    })
}

fn load(entries: Vec<FolderEntry>) -> Result<Workflows, String> {
    WorkflowsLoader::load_from_folder("w", &FolderListing::Entries(entries))
}

fn failed(result: Result<Workflows, String>) -> String {
    match result {
        Ok(_) => panic!("loaded"),
        Err(message) => message,
    }
}

#[test]
fn json_files_are_loaded_by_stem() {
    let workflows = load(vec![
        file("animagine-xl-4.json", Ok(r#"{"a":1}"#)),
        file("notes.txt", Err("never read")),
        file("other.JSON", Ok("[]")),
        file("plain", Ok("{")),
        file(".json", Ok("{")),
        file("..", Ok("{")),
        file("json.", Ok("{")),
        file("v1.2.json", Ok("7")),
        file("\u{e9}.jsoN", Ok("8")),
        named(FileName::Other { extension: None }, Ok("{")),
        named(FileName::Other { extension: Some("png".to_string()) }, Ok("{")),
        file("other.json", Ok("5")),
    ])
    .unwrap();
    assert_eq!(workflows.get("animagine-xl-4").unwrap().get_i64("a"), Some(1));
    assert_eq!(workflows.get("other").unwrap().as_i64(), Some(5));
    assert!(workflows.get("notes").is_none());
    assert!(workflows.get("plain").is_none());
    assert!(workflows.get("").is_none());
    assert!(workflows.get(".json").is_none());
    assert_eq!(workflows.get("v1.2").unwrap().as_i64(), Some(7));
    assert_eq!(workflows.get("\u{e9}").unwrap().as_i64(), Some(8));
}

#[test]
fn loading_fails_with_the_first_failure() {
    let nameless = || named(FileName::Other { extension: Some("json".to_string()) }, Ok(""));
    let good = || file("a.json", Ok("{}"));
    assert_eq!(
        failed(WorkflowsLoader::load_from_folder("w", &FolderListing::Missing)),
        "Workflows folder does not exist: w"
    );
    assert_eq!(
        failed(WorkflowsLoader::load_from_folder("w", &FolderListing::NotAFolder)),
        "Workflows path is not a directory: w"
    );
    assert_eq!(
        failed(WorkflowsLoader::load_from_folder("w", &FolderListing::Unreadable("no".to_string()))),
        "Failed to read workflows directory: no"
    );
    assert_eq!(
        failed(load(vec![good(), FolderEntry::Unreadable("x".to_string()), nameless()])),
        "Failed to read directory entry: x"
    );
    assert_eq!(
        failed(load(vec![good(), nameless()])),
        "Failed to get filename for: \"w/file\""
    );
    assert_eq!(
        failed(load(vec![file("b.json", Err("denied"))])),
        "Failed to read JSON file w/file: denied"
    );
    assert_eq!(
        failed(load(vec![file("b.json", Ok("nul"))])),
        "Failed to parse JSON from w/file: EOF while parsing a value at line 1 column 3"
    );
}

#[test]
fn storing_a_member_again_changes_nothing() {
    let mut object = JsonObject::new();
    for _ in 0..2 {
        object.insert("k".to_string(), Json::Text("v".to_string()));
        object.insert("a".to_string(), Json::Null);
        assert_eq!(object.get("k").unwrap().as_str(), Some("v"));
    }
    assert_eq!(object.len(), 2);
    assert_eq!((object.key(0), object.key(1)), ("a", "k"));
}

#[test]
fn header_names_are_put_in_lower_case() {
    let passed = |name: &str| {
        let headers = response_headers(&vec![header(name, b"v")], 0);
        headers.first().map(|header| header.name.clone())
    };
    assert_eq!(passed("X-Mixed_Case.1").unwrap(), "x-mixed_case.1");
    assert_eq!(passed("!#$%&'*+-.^_`|~09azAZ").unwrap(), "!#$%&'*+-.^_`|~09azaz");
    for bad in ["", " ", "a b", "a:b", "\"q\"", "(a)", "a/b", "a\u{e9}", "{", "@", "a\t"] {
        assert!(passed(bad).is_none());
    }
    assert_eq!(passed(&"A".repeat(65)).unwrap(), "a".repeat(65));
    assert_eq!(passed(&"A".repeat(65535)).unwrap(), "a".repeat(65535));
    assert!(passed(&"A".repeat(65536)).is_none());
    for c in (0..128u8).map(char::from) {
        let valid = c.is_ascii_alphanumeric() || "!#$%&'*+-.^_`|~".contains(c);
        assert_eq!(passed(&c.to_string()).is_some(), valid);
    }
}
