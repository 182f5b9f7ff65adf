use comfyui_openai_api::headers::Header;
use comfyui_openai_api::history::ImageFile;
use comfyui_openai_api::json::Json;
use comfyui_openai_api::proxy::{ProxyError, ProxyState, RequestFailure};
use comfyui_openai_api::session::{
    after_call, after_clock, after_pause, after_wait, generations_response, query_string, reply_error,
    Call, Job, Method, Next, Outcome, Reply, Stage,
};
use comfyui_openai_api::workflows::Workflows;
use serde_json::Value;

fn state(use_ws: bool) -> ProxyState {
    let mut workflows = Workflows::new();
    workflows.insert(
        "m".to_string(),
        Json::from_str(r#"{"1":{"class_type":"KSampler","inputs":{}}}"#).unwrap(),
    );
    workflows.insert(
        "untitled".to_string(),
        Json::from_str(r#"{"1":{"class_type":"CLIPTextEncode","_meta":{}}}"#).unwrap(),
    );
    ProxyState {
        backend_url: "backend".to_string(),
        backend_port: "8188".to_string(),
        backend_client_id: "id".to_string(),
        max_payload_size_mb: 1,
        timeout: 130,
        use_ws,
        workflows,
    }
}

fn header(name: &str, value: &str) -> Header {
    Header { name: name.to_string(), value: value.as_bytes().to_vec() }
}

fn client_headers() -> Vec<Header> {
    vec![header("accept", "*/*"), header("authorization", "Bearer client")]
}

fn begin(use_ws: bool, body: &[u8]) -> Next {
    let params = vec![
        ("a".to_string(), "1".to_string()),
        ("b".to_string(), "x y".to_string()),
    ];
    generations_response(&state(use_ws), &params, &client_headers(), Ok(body.to_vec()))
}

fn answer(body: &[u8]) -> Outcome {
    Outcome::Answered {
        status: 201,
        headers: vec![
            header("content-length", "9"),
            header("server", "comfy"),
            header("authorization", "Bearer backend"),
        ],
        body: Ok(body.to_vec()),
    }
}

fn call_of(next: Next) -> (Call, Stage) {
    match next {
        Next::Call { call, stage } => (call, stage),
        _ => panic!("no call"),
    }
}

fn reply_of(next: Next) -> Reply {
    match next {
        Next::Reply(reply) => reply,
        _ => panic!("no reply"),
    }
}

fn message_of(next: Next) -> (u16, String) {
    match next {
        Next::Fail(error) => {
            let reply = error.into_response();
            (reply.status, reply.body.message)
        }
        _ => panic!("no failure"),
    }
}

fn job() -> Job {
    Job {
        target_base: "backend:8188".to_string(),
        prompt_id: "p1".to_string(),
        authorization: Some(b"Bearer client".to_vec()),
        status: 200,
        headers: vec![header("content-length", "9"), header("authorization", "Bearer backend")],
    }
}

fn header_value<'a>(headers: &'a [Header], name: &str) -> Option<&'a [u8]> {
    headers.iter().find(|header| header.name == name).map(|header| header.value.as_slice())
}

const HISTORY: &[u8] = br#"{"p1":{"outputs":{
    "9":{"images":[{"type":"output","filename":"a b.png","subfolder":""},
                   {"type":"temp","filename":"t.png","subfolder":""},
                   {"type":"output","filename":"c.png"}]},
    "10":{"images":[{"type":"output","filename":"\u00e9&.png","subfolder":"s/1"}]},
    "11":{"text":["x"]}}}}"#;

#[test]
fn images_come_back_when_the_queue_is_watched() {
    let (call, stage) = call_of(begin(false, br#"{"model":"m","seed":3}"#));
    assert!(call.method == Method::Post);
    assert_eq!(call.url, "http://backend:8188/prompt?a=1&b=x y");
    assert_eq!(call.timeout_seconds, 130);
    assert_eq!(header_value(&call.headers, "content-type").unwrap(), b"application/json");
    assert_eq!(header_value(&call.headers, "authorization").unwrap(), b"Bearer client");
    let sent: Value = serde_json::from_slice(&call.body).unwrap();
    assert_eq!(sent["prompt"]["1"]["inputs"]["seed"], "3");

    let (call, stage) = call_of(after_call(call, stage, answer(br#"{"prompt_id":"p1","number":1}"#)));
    assert!(call.method == Method::Get);
    assert_eq!(call.url, "http://backend:8188/queue");
    assert_eq!(call.timeout_seconds, 5);
    assert!(call.body.is_empty());
    assert_eq!(header_value(&call.headers, "authorization").unwrap(), b"Bearer backend");

    let queue = br#"{"queue_running":[[0,"p1",{}]],"queue_pending":[]}"#;
    let (job, millis) = match after_call(call, stage, answer(queue)) {
        Next::Pause { job, millis } => (job, millis),
        _ => panic!("no pause"),
    };
    assert_eq!(millis, 2000);

    let (call, stage) = call_of(after_pause(job));
    let queue = br#"{"queue_running":[[0,"p2"]],"queue_pending":[["p1"],"p1"]}"#;
    let (call, stage) = call_of(after_call(call, stage, answer(queue)));
    assert_eq!(call.url, "http://backend:8188/history/p1");
    assert_eq!(header_value(&call.headers, "authorization").unwrap(), b"Bearer client");

    let (call, stage) = call_of(after_call(call, stage, answer(HISTORY)));
    assert_eq!(
        call.url,
        "http://backend:8188/view?filename=%C3%A9%26.png&subfolder=s%2F1&type=output"
    );
    let (call, stage) = call_of(after_call(call, stage, answer(b"\x00\xff")));
    assert_eq!(call.url, "http://backend:8188/view?filename=a+b.png&subfolder=&type=output");
    let (job, entries) = match after_call(call, stage, answer(b"abc")) {
        Next::ReadClock { job, entries } => (job, entries),
        _ => panic!("no clock"),
    };
    let reply = reply_of(after_clock(job, entries, Some(1700000000)));
    let expected = r#"{"created":1700000000,"data":[{"b64_json":"AP8="},{"b64_json":"YWJj"}]}"#;
    assert_eq!(String::from_utf8(reply.body).unwrap(), expected);
    assert_eq!(reply.status, 201);
    let length = expected.len().to_string();
    assert_eq!(header_value(&reply.headers, "content-length").unwrap(), length.as_bytes());
    assert_eq!(header_value(&reply.headers, "server").unwrap(), b"comfy");
}

#[test]
fn completion_is_awaited_over_the_socket() {
    let (call, stage) = call_of(begin(true, br#"{"model":"m"}"#));
    let (job, limit) = match after_call(call, stage, answer(br#"{"prompt_id":"p1"}"#)) {
        Next::AwaitJob { job, limit_seconds } => (job, limit_seconds),
        _ => panic!("no wait"),
    };
    assert_eq!(limit, 600);
    assert_eq!(job.prompt_id, "p1");
    let (call, _) = call_of(after_wait(job));
    assert_eq!(call.url, "http://backend:8188/history/p1");
}

#[test]
fn job_without_images_gives_empty_data() {
    let stage = Stage::History { job: job() };
    let (call, _) = call_of(after_wait(job()));
    let (job, entries) = match after_call(call, stage, answer(br#"{"p1":{"outputs":3}}"#)) {
        Next::ReadClock { job, entries } => (job, entries),
        _ => panic!("no clock"),
    };
    let reply = reply_of(after_clock(job, entries, Some(-1)));
    assert_eq!(String::from_utf8(reply.body).unwrap(), r#"{"created":-1,"data":[]}"#);
}

#[test]
fn empty_request_is_handed_in_without_content_type() {
    let (call, _) = call_of(begin(false, b""));
    assert!(call.body.is_empty());
    assert_eq!(call.headers.len(), 1);
    assert_eq!(call.headers[0].name, "authorization");
}

#[test]
fn failures_before_the_backend_is_called() {
    assert_eq!(
        message_of(generations_response(
            &state(false),
            &Vec::new(),
            &client_headers(),
            Err("length limit exceeded".to_string())
        )),
        (500, "Failed to read request body: length limit exceeded".to_string())
    );
    assert_eq!(message_of(begin(false, b"{}")), (400, "Failed to get model name from JSON".to_string()));
    assert_eq!(
        message_of(begin(false, br#"{"model":"untitled"}"#)),
        (400, "Failed to get title from workflow".to_string())
    );
}

#[test]
fn failures_of_the_backend() {
    let next = |stage: Stage, outcome: Outcome| {
        let (call, _) = call_of(after_wait(job()));
        message_of(after_call(call, stage, outcome))
    };
    let submission = || Stage::Submission {
        target_base: "b".to_string(),
        use_ws: false,
        authorization: None,
    };
    let unread = || Outcome::Answered { status: 200, headers: Vec::new(), body: Err("cut".to_string()) };
    assert_eq!(
        next(submission(), answer(b"x")),
        (400, "Failed to parse JSON: expected value at line 1 column 1".to_string())
    );
    assert_eq!(
        next(submission(), answer(br#"{"prompt_id":7}"#)),
        (502, "No prompt_id received.".to_string())
    );
    assert_eq!(next(submission(), unread()), (502, "Failed to read response body: cut".to_string()));
    assert_eq!(
        next(Stage::Queue { job: job() }, answer(b"")),
        (400, "Failed to queu history JSON: EOF while parsing a value at line 1 column 0".to_string())
    );
    assert_eq!(
        next(Stage::Queue { job: job() }, unread()),
        (502, "Failed to read queu response body: cut".to_string())
    );
    assert_eq!(
        next(Stage::History { job: job() }, answer(b"]")),
        (400, "Failed to parse history JSON: expected value at line 1 column 1".to_string())
    );
    assert_eq!(
        next(Stage::History { job: job() }, answer(br#"{"p2":{}}"#)),
        (502, "No prompt_id history found.".to_string())
    );
    assert_eq!(
        next(Stage::History { job: job() }, unread()),
        (502, "Failed to read history response body: cut".to_string())
    );
    let image = || Stage::Image { job: job(), files: Vec::new(), entries: Vec::new() };
    assert_eq!(next(image(), unread()), (502, "Request error: cut".to_string()));
    assert_eq!(
        next(image(), Outcome::TimedOut),
        (502, "Request hung/timed out after 5 seconds to http://backend:8188/history/p1".to_string())
    );
    let failure = RequestFailure {
        is_timeout: false,
        is_connect: true,
        is_request: true,
        text: "refused".to_string(),
    };
    assert_eq!(
        next(image(), Outcome::Failed(failure)),
        (
            502,
            "Connection failed to http://backend:8188/history/p1: refused - Check if backend server is running"
                .to_string()
        )
    );
}

#[test]
fn error_page_is_no_image() {
    let answered = |status: u16, body: &[u8]| Outcome::Answered {
        status,
        headers: Vec::new(),
        body: Ok(body.to_vec()),
    };
    let file = || ImageFile {
        filename: "a.png".to_string(),
        subfolder: "".to_string(),
        type_field: "output".to_string(),
    };
    let image = || Stage::Image { job: job(), files: vec![file()], entries: Vec::new() };
    let next = |stage: Stage, outcome: Outcome| {
        let (call, _) = call_of(after_wait(job()));
        after_call(call, stage, outcome)
    };
    assert_eq!(
        message_of(next(image(), answered(404, b"Not Found"))),
        (502, "Image request failed with status 404".to_string())
    );
    for status in [199, 300, 500] {
        assert_eq!(message_of(next(image(), answered(status, b""))).0, 502);
        assert_eq!(
            message_of(next(Stage::History { job: job() }, answered(status, HISTORY))),
            (502, format!("History request failed with status {}", status))
        );
        assert_eq!(
            message_of(next(Stage::History { job: job() }, answered(status, b"Oops"))),
            (400, "Failed to parse history JSON: expected value at line 1 column 1".to_string())
        );
        assert_eq!(
            message_of(next(Stage::History { job: job() }, answered(status, b"{}"))),
            (502, "No prompt_id history found.".to_string())
        );
    }
    for status in [200, 299] {
        assert!(matches!(next(image(), answered(status, b"x")), Next::ReadClock { .. }));
        assert!(matches!(
            next(Stage::History { job: job() }, answered(status, HISTORY)),
            Next::Call { .. }
        ));
    }
}

#[test]
fn clock_that_cannot_tell() {
    assert_eq!(
        message_of(after_clock(job(), Vec::new(), None)),
        (500, "Failed to get current time".to_string())
    );
}

#[test]
fn reply_that_cannot_be_put_together() {
    assert!(matches!(
        reply_error("bad"),
        ProxyError::Internal(message) if message == "Failed to build regular response: bad"
    ));
}

#[test]
fn query_strings() {
    assert_eq!(query_string(&Vec::new()), "");
    assert_eq!(query_string(&vec![("k".to_string(), "v".to_string())]), "?k=v");
    assert_eq!(
        query_string(&vec![
            ("k".to_string(), "".to_string()),
            ("l".to_string(), "&".to_string()),
            ("m".to_string(), "1".to_string())
        ]),
        "?k=&l=&&m=1"
    );
}
