use comfyui_openai_api::history::{
    check_queue, encode_image, extract_prompt_id, find_images, images_response, job_left_queue, view_url,
    ImageFile,
};
use comfyui_openai_api::json::Json;
use comfyui_openai_api::ws::{
    find_completed_job, CompletedJobsBuffer, JobWait, SocketEvent, WebSocketManager,
};

fn text(value: &str) -> SocketEvent {
    SocketEvent::Text(value.to_string())
}

fn completion(job: &str) -> SocketEvent {
    text(&format!(r#"{{"type":"executing","data":{{"prompt_id":"{}","node":null}}}}"#, job))
}

#[test]
fn last_hundred_jobs_are_kept() {
    let mut buffer = CompletedJobsBuffer::new();
    assert!(!buffer.contains(""));
    for i in 0..250 {
        buffer.add(format!("job-{}", i));
        for j in 0..260 {
            assert_eq!(buffer.contains(&format!("job-{}", j)), j <= i && i - j < 100);
        }
    }
}

#[test]
fn repeated_jobs_take_places() {
    let mut buffer = CompletedJobsBuffer::new();
    buffer.add("old".to_string());
    for _ in 0..99 {
        buffer.add("same".to_string());
    }
    assert!(buffer.contains("old"));
    buffer.add("same".to_string());
    assert!(!buffer.contains("old"));
    assert!(buffer.contains("same"));
}

#[test]
fn completions_are_followed() {
    let mut manager = WebSocketManager::new();
    let again = JobWait::LookAgain { after_millis: 500 };
    assert!(manager.wait_for_job_completion("a") == again);
    assert!(manager.message_listener(&text("no json")));
    assert!(manager.message_listener(&SocketEvent::Other));
    assert!(manager
        .message_listener(&text(r#"{"type":"executing","data":{"prompt_id":"a","node":"3"}}"#)));
    assert!(manager.wait_for_job_completion("a") == again);
    assert!(manager.message_listener(&completion("a")));
    assert!(manager.wait_for_job_completion("a") == JobWait::Done);
    assert!(manager.wait_for_job_completion("b") == again);
    assert!(!manager.message_listener(&SocketEvent::Failed));
    assert!(!manager.message_listener(&SocketEvent::Closed));
    assert!(manager.wait_for_job_completion("a") == JobWait::Done);
    for i in 0..100 {
        manager.message_listener(&completion(&format!("n{}", i)));
    }
    assert!(manager.wait_for_job_completion("a") == again);
}

#[test]
fn messages_that_tell_of_no_completion() {
    let told = |message: &str| find_completed_job(&Json::from_str(message).unwrap());
    assert_eq!(
        told(r#"{"type":"executing","data":{"prompt_id":"x","node":null}}"#).unwrap(),
        "x"
    );
    assert!(told(r#"{"type":"executing","data":{"prompt_id":"x"}}"#).is_none());
    assert!(told(r#"{"type":"progress","data":{"prompt_id":"x","node":null}}"#).is_none());
    assert!(told(r#"{"type":"executing","data":{"prompt_id":1,"node":null}}"#).is_none());
    assert!(told(r#"{"type":"executing","data":[]}"#).is_none());
    assert!(told(r#"{"data":{"prompt_id":"x","node":null}}"#).is_none());
    assert!(told("null").is_none());
}

#[test]
fn address_of_the_socket() {
    assert_eq!(
        WebSocketManager::socket_url("localhost", "8188", "me"),
        "ws://localhost:8188/ws?clientId=me"
    );
}

#[test]
fn prompt_id_of_an_answer() {
    assert_eq!(extract_prompt_id(br#"{"prompt_id":"u"}"#).unwrap().unwrap(), "u");
    assert!(extract_prompt_id(b"[]").unwrap().is_none());
    assert!(extract_prompt_id(b"\xff").is_err());
}

#[test]
fn jobs_in_the_queue() {
    let left = |queue: &str| job_left_queue(&Json::from_str(queue).unwrap(), "p");
    assert!(!left(r#"{"queue_running":[[1,"q"],[2,"p"]]}"#));
    assert!(!left(r#"{"queue_pending":[[2,"p"]]}"#));
    assert!(left(r#"{"queue_running":[["p",2],["p"],"p",{"1":"p"}],"queue_pending":{"1":"p"}}"#));
    assert!(left("[]"));
    assert!(check_queue(b"{}", "p").unwrap());
    assert!(check_queue(b"", "p").is_err());
}

#[test]
fn images_in_the_history() {
    let history = Json::from_str(
        r#"{"j":{"outputs":{"2":{"images":[
            {"type":"output","filename":"1.png","subfolder":"a"},
            {"type":"temp","filename":"2.png","subfolder":"a"},
            {"type":"output","filename":3,"subfolder":"a"},
            {"type":"output","filename":"4.png","subfolder":""}]},
            "1":{"images":[{"subfolder":"z","filename":"0.png","type":"output"}]},
            "3":{"images":{}}}},"k":[]}"#,
    )
    .unwrap();
    let files = find_images(&history, "j").unwrap();
    let names: Vec<&str> = files.iter().map(|file| file.filename.as_str()).collect();
    assert_eq!(names, ["0.png", "1.png", "4.png"]);
    assert_eq!(files[0].subfolder, "z");
    assert!(files.iter().all(|file| file.type_field == "output"));
    assert!(find_images(&history, "k").is_none());
    assert!(find_images(&history, "x").is_none());
}

#[test]
fn addresses_of_images() {
    let file = ImageFile {
        filename: "a-b_c.d*e~f%/\u{20ac}".to_string(),
        subfolder: "x=y&z +".to_string(),
        type_field: "output".to_string(),
    };
    assert_eq!(
        view_url("h:1", &file).unwrap(),
        "http://h:1/view?filename=a-b_c.d*e%7Ef%25%2F%E2%82%AC&subfolder=x%3Dy%26z+%2B&type=output"
    );
}

#[test]
fn images_in_base64() {
    let encoded = |image: &[u8]| encode_image(&image.to_vec()).get_str("b64_json").unwrap().to_string();
    assert_eq!(encoded(b""), "");
    assert_eq!(encoded(b"f"), "Zg==");
    assert_eq!(encoded(b"fo"), "Zm8=");
    assert_eq!(encoded(b"foo"), "Zm9v");
    assert_eq!(encoded(b"foob"), "Zm9vYg==");
    assert_eq!(encoded(b"\xfb\xff\xbf"), "+/+/");
    let mut seen = Vec::new();
    for first in 0..=255u8 {
        for second in [0u8, 1, 127, 255] {
            seen.push(encoded(&[first, second]));
        }
    }
    let count = seen.len();
    seen.sort();
    seen.dedup();
    assert_eq!(seen.len(), count);
}

#[test]
fn answer_with_images() {
    let entries = vec![encode_image(&b"foo".to_vec()), encode_image(&Vec::new())];
    let answer = images_response(entries, 12);
    assert_eq!(
        String::from_utf8(answer.to_bytes().unwrap()).unwrap(),
        r#"{"created":12,"data":[{"b64_json":"Zm9v"},{"b64_json":""}]}"#
    );
}
