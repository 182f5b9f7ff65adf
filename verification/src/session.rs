//! The course of an image generation, from the request of a client to the answer that it gets.
//!
//! Each function here takes what has happened and says what is to be done next: a call to the
//! backend, a pause, a look at the clock, or the answer.
use vstd::prelude::*;

use crate::headers::{find_authorization, header_views, optional_bytes, response_headers, upstream_headers, Header, HeaderView};
use crate::history::{check_queue, encode_image, extract_prompt_id, file_views, images_response, read_history, view_url, ImageFile, ImageFileView};
use crate::json::{Json, JsonTree};
use crate::payload::create_json_payload;
use crate::proxy::{handle_request_error, handle_timeout_error, internal_refusal, json_refusal, prefixed, upstream_refusal, ProxyError, ProxyState, Refusal, RequestFailure};
use crate::text::unsigned_text;

verus! {

/// Seconds that a call for the queue, the history or an image may take.
pub const LOOKUP_TIMEOUT_SECONDS: u64 = 5;

/// Seconds that the completion of a job is waited for over the WebSocket.
pub const COMPLETION_LIMIT_SECONDS: u64 = 600;

/// Milliseconds between two looks at the queue.
pub const QUEUE_POLL_MILLIS: u64 = 2000;

/// An HTTP method.
#[derive(Clone, Copy, PartialEq, Eq, Structural, Debug)]
pub enum Method {
    Get,
    Post,
}

/// A call to the backend.
pub struct Call {
    pub method: Method,
    pub url: String,
    pub headers: Vec<Header>,
    pub body: Vec<u8>,
    /// Seconds after which it is given up
    pub timeout_seconds: u64,
}

/// What a call says.
pub struct CallView {
    pub method: Method,
    pub url: Seq<char>,
    pub headers: Seq<HeaderView>,
    pub body: Seq<u8>,
    pub timeout_seconds: u64,
}

impl View for Call {
    type V = CallView;

    open spec fn view(&self) -> CallView {
        CallView {
            method: self.method,
            url: self.url@,
            headers: header_views(self.headers@),
            body: self.body@,
            timeout_seconds: self.timeout_seconds,
        }
    }
}

/// A job that the backend has taken on.
pub struct Job {
    /// Host and port of the backend
    pub target_base: String,
    /// The name that the backend gave it
    pub prompt_id: String,
    /// The authorization of the client
    pub authorization: Option<Vec<u8>>,
    /// The status with which the backend took it on
    pub status: u16,
    /// The headers with which the backend took it on
    pub headers: Vec<Header>,
}

/// What is known of a job.
pub struct JobView {
    pub target_base: Seq<char>,
    pub prompt_id: Seq<char>,
    pub authorization: Option<Seq<u8>>,
    pub status: u16,
    pub headers: Seq<HeaderView>,
}

impl View for Job {
    type V = JobView;

    open spec fn view(&self) -> JobView {
        JobView {
            target_base: self.target_base@,
            prompt_id: self.prompt_id@,
            authorization: optional_bytes(self.authorization),
            status: self.status,
            headers: header_views(self.headers@),
        }
    }
}

/// What a call to the backend is for.
pub enum Stage {
    /// To hand in the prompt
    Submission {
        /// Host and port of the backend
        target_base: String,
        /// Whether completion is waited for over the WebSocket
        use_ws: bool,
        /// The authorization of the client
        authorization: Option<Vec<u8>>,
    },
    /// To see whether the job is still in the queue
    Queue {
        job: Job,
    },
    /// To learn which images the job made
    History {
        job: Job,
    },
    /// To fetch an image
    Image {
        job: Job,
        /// The files of all images
        files: Vec<ImageFile>,
        /// The images that have come, encoded
        entries: Vec<Json>,
    },
}

/// What is known of a stage.
pub enum StageView {
    Submission { target_base: Seq<char>, use_ws: bool, authorization: Option<Seq<u8>> },
    Queue { job: JobView },
    History { job: JobView },
    Image { job: JobView, files: Seq<ImageFileView>, entries: Seq<JsonTree> },
}

/// What documents hold.
pub open spec fn entry_trees(entries: Seq<Json>) -> Seq<JsonTree> {
    entries.map_values(|entry: Json| entry@)
}

impl View for Stage {
    type V = StageView;

    open spec fn view(&self) -> StageView {
        match self {
            Stage::Submission { target_base, use_ws, authorization } => StageView::Submission {
                target_base: target_base@,
                use_ws: *use_ws,
                authorization: optional_bytes(*authorization),
            },
            Stage::Queue { job } => StageView::Queue { job: job@ },
            Stage::History { job } => StageView::History { job: job@ },
            Stage::Image { job, files, entries } => StageView::Image {
                job: job@,
                files: file_views(files@),
                entries: entry_trees(entries@),
            },
        }
    }
}

/// What came of a call.
pub enum Outcome {
    /// The backend answered.
    Answered {
        status: u16,
        headers: Vec<Header>,
        /// The body, or why it could not be read
        body: Result<Vec<u8>, String>,
    },
    /// The call failed.
    Failed(RequestFailure),
    /// The call was given up.
    TimedOut,
}

/// The answer to the client.
pub struct Reply {
    pub status: u16,
    pub headers: Vec<Header>,
    pub body: Vec<u8>,
}

/// What the answer to the client says.
pub struct ReplyView {
    pub status: u16,
    pub headers: Seq<HeaderView>,
    pub body: Seq<u8>,
}

impl View for Reply {
    type V = ReplyView;

    open spec fn view(&self) -> ReplyView {
        ReplyView { status: self.status, headers: header_views(self.headers@), body: self.body@ }
    }
}

/// What is to be done next.
pub enum Next {
    /// To call the backend, for what the stage says
    Call { call: Call, stage: Stage },
    /// To wait until the job has completed or the limit is over
    AwaitJob { job: Job, limit_seconds: u64 },
    /// To pause before the queue is looked at again
    Pause { job: Job, millis: u64 },
    /// To read the clock for the answer
    ReadClock { job: Job, entries: Vec<Json> },
    /// To answer the client
    Reply(Reply),
    /// To refuse the client
    Fail(ProxyError),
}

/// What is known of what is to be done next.
pub enum NextView {
    Call { call: CallView, stage: StageView },
    AwaitJob { job: JobView, limit_seconds: u64 },
    Pause { job: JobView, millis: u64 },
    ReadClock { job: JobView, entries: Seq<JsonTree> },
    Reply(ReplyView),
    Fail(Refusal),
}

impl View for Next {
    type V = NextView;

    open spec fn view(&self) -> NextView {
        match self {
            Next::Call { call, stage } => NextView::Call { call: call@, stage: stage@ },
            Next::AwaitJob { job, limit_seconds } => NextView::AwaitJob {
                job: job@,
                limit_seconds: *limit_seconds,
            },
            Next::Pause { job, millis } => NextView::Pause { job: job@, millis: *millis },
            Next::ReadClock { job, entries } => NextView::ReadClock {
                job: job@,
                entries: entry_trees(entries@),
            },
            Next::Reply(reply) => NextView::Reply(reply@),
            Next::Fail(error) => NextView::Fail(error@),
        }
    }
}

/// The query part of an address with parameters as they are given.
pub open spec fn query_text(params: Seq<(Seq<char>, Seq<char>)>) -> Seq<char>
    decreases params.len(),
{
    if params.len() == 0 {
        Seq::empty()
    } else {
        let separator = if params.len() == 1 {
            "?"@
        } else {
            "&"@
        };
        query_text(params.drop_last()) + separator + params.last().0 + "="@ + params.last().1
    }
}

/// What parameters say.
pub open spec fn param_views(params: Seq<(String, String)>) -> Seq<(Seq<char>, Seq<char>)> {
    params.map_values(|param: (String, String)| (param.0@, param.1@))
}

/// Builds the query part of an address from parameters.
pub fn query_string(params: &Vec<(String, String)>) -> (query: String)
    ensures
        query@ == query_text(param_views(params@)),
{
    let ghost views = param_views(params@);
    let mut query = "".to_owned();
    proof {
        reveal_strlit("");
        assert(query@ =~= Seq::empty());
    }
    for i in 0..params.len()
        invariant
            views == param_views(params@),
            query@ == query_text(views.take(i as int)),
    {
        let ghost next = views.take(i + 1);
        assert(next.drop_last() =~= views.take(i as int));
        assert(next.last() == (params@[i as int].0@, params@[i as int].1@));
        query.append(if i == 0 { "?" } else { "&" });
        query.append(params[i].0.as_str());
        query.append("=");
        query.append(params[i].1.as_str());
    }
    assert(views.take(params@.len() as int) =~= views);
    query
}

/// Where prompts are handed in at a backend.
pub open spec fn prompt_address(target_base: Seq<char>) -> Seq<char> {
    "http://"@ + target_base + "/prompt"@
}

/// A call for something that the backend knows.
pub open spec fn lookup_call(url: Seq<char>, authorization: Option<Seq<u8>>) -> CallView {
    CallView {
        method: Method::Get,
        url,
        headers: crate::headers::request_headers(false, authorization),
        body: Seq::empty(),
        timeout_seconds: LOOKUP_TIMEOUT_SECONDS,
    }
}

/// The call for the queue, with the authorization that came when the job was taken on.
pub open spec fn queue_call(job: JobView) -> CallView {
    lookup_call(
        "http://"@ + job.target_base + "/queue"@,
        crate::headers::authorization_of(job.headers),
    )
}

/// The call for what became of a job, with the authorization of the client.
pub open spec fn history_call(job: JobView) -> CallView {
    lookup_call("http://"@ + job.target_base + "/history/"@ + job.prompt_id, job.authorization)
}

/// The call for an image, with the authorization of the client.
pub open spec fn image_call(job: JobView, file: ImageFileView) -> CallView {
    lookup_call(crate::history::image_address(job.target_base, file), job.authorization)
}

/// To call for the queue.
pub open spec fn asks_queue(job: JobView) -> NextView {
    NextView::Call { call: queue_call(job), stage: StageView::Queue { job } }
}

/// To call for what became of a job.
pub open spec fn asks_history(job: JobView) -> NextView {
    NextView::Call { call: history_call(job), stage: StageView::History { job } }
}

/// To call for the next image, or to read the clock where all have come.
pub open spec fn asks_image(
    job: JobView,
    files: Seq<ImageFileView>,
    entries: Seq<JsonTree>,
) -> NextView {
    if entries.len() < files.len() {
        NextView::Call {
            call: image_call(job, files[entries.len() as int]),
            stage: StageView::Image { job, files, entries },
        }
    } else {
        NextView::ReadClock { job, entries }
    }
}

/// To hand in a prompt with the parameters and the authorization of the client.
pub open spec fn asks_submission(
    target_base: Seq<char>,
    use_ws: bool,
    timeout: u64,
    params: Seq<(Seq<char>, Seq<char>)>,
    headers: Seq<HeaderView>,
    payload: Seq<u8>,
) -> NextView {
    let authorization = crate::headers::authorization_of(headers);
    NextView::Call {
        call: CallView {
            method: Method::Post,
            url: prompt_address(target_base) + query_text(params),
            headers: crate::headers::request_headers(payload.len() > 0, authorization),
            body: payload,
            timeout_seconds: timeout,
        },
        stage: StageView::Submission { target_base, use_ws, authorization },
    }
}

/// After the backend was handed a prompt: a job that it took on is waited for.
pub open spec fn after_submission(
    target_base: Seq<char>,
    use_ws: bool,
    authorization: Option<Seq<u8>>,
    status: u16,
    headers: Seq<HeaderView>,
    body: Seq<u8>,
) -> NextView {
    match crate::document::parsed_json(body) {
        Err(message) => NextView::Fail(json_refusal("Failed to parse JSON: "@ + message)),
        Ok(answer) => match crate::history::prompt_id_in(answer) {
            None => NextView::Fail(upstream_refusal("No prompt_id received."@)),
            Some(prompt_id) => {
                let job = JobView { target_base, prompt_id, authorization, status, headers };
                if use_ws {
                    NextView::AwaitJob { job, limit_seconds: COMPLETION_LIMIT_SECONDS }
                } else {
                    asks_queue(job)
                }
            },
        },
    }
}

/// After the backend told of its queue: the history is asked for once the job has left it.
pub open spec fn after_queue(job: JobView, body: Seq<u8>) -> NextView {
    match crate::document::parsed_json(body) {
        Err(message) => NextView::Fail(json_refusal("Failed to queu history JSON: "@ + message)),
        Ok(queue) => if crate::history::in_queue(queue, job.prompt_id) {
            NextView::Pause { job, millis: QUEUE_POLL_MILLIS }
        } else {
            asks_history(job)
        },
    }
}

/// After the backend told what became of the job: its images are fetched.
pub open spec fn after_history(job: JobView, body: Seq<u8>) -> NextView {
    match crate::document::parsed_json(body) {
        Err(message) => NextView::Fail(json_refusal("Failed to parse history JSON: "@ + message)),
        Ok(history) => match crate::history::images_of_job(history, job.prompt_id) {
            None => NextView::Fail(upstream_refusal("No prompt_id history found."@)),
            Some(files) => asks_image(job, files, Seq::empty()),
        },
    }
}

/// After an image came: it is encoded, and the next is fetched.
pub open spec fn after_image(
    job: JobView,
    files: Seq<ImageFileView>,
    entries: Seq<JsonTree>,
    image: Seq<u8>,
) -> NextView {
    asks_image(job, files, entries.push(crate::history::image_entry(image)))
}

/// What is said where the body of an answer could not be read.
pub open spec fn unreadable_body(stage: StageView, reason: Seq<char>) -> Refusal {
    match stage {
        StageView::Submission { .. } => upstream_refusal("Failed to read response body: "@ + reason),
        StageView::Queue { .. } => upstream_refusal("Failed to read queu response body: "@ + reason),
        StageView::History { .. } => upstream_refusal(
            "Failed to read history response body: "@ + reason,
        ),
        StageView::Image { .. } => upstream_refusal("Request error: "@ + reason),
    }
}

/// A status that says that a request succeeded.
pub open spec fn is_success(status: u16) -> bool {
    200 <= status < 300
}

/// What is said where a lookup was answered with a status that tells of no success.
pub open spec fn failed_lookup(opening: Seq<char>, status: u16) -> Refusal {
    upstream_refusal(opening + crate::text::decimal(status as int))
}

/// After a call: what its stage makes of the answer, or the error that it failed with.
pub open spec fn after(call: CallView, stage: StageView, outcome: Outcome) -> NextView {
    match outcome {
        Outcome::Failed(failure) => NextView::Fail(
            upstream_refusal(crate::proxy::request_failure_message(failure, call.url)),
        ),
        Outcome::TimedOut => NextView::Fail(
            upstream_refusal(crate::proxy::timeout_message(call.url, call.timeout_seconds)),
        ),
        Outcome::Answered { body: Err(reason), .. } => NextView::Fail(
            unreadable_body(stage, reason@),
        ),
        Outcome::Answered { status, headers, body: Ok(body) } => match stage {
            StageView::Submission { target_base, use_ws, authorization } => after_submission(
                target_base,
                use_ws,
                authorization,
                status,
                header_views(headers@),
                body@,
            ),
            StageView::Queue { job } => after_queue(job, body@),
            StageView::History { job } => {
                let next = after_history(job, body@);
                if is_success(status) || next is Fail {
                    next
                } else {
                    NextView::Fail(failed_lookup("History request failed with status "@, status))
                }
            },
            StageView::Image { job, files, entries } => if is_success(status) {
                after_image(job, files, entries, body@)
            } else {
                NextView::Fail(failed_lookup("Image request failed with status "@, status))
            },
        },
    }
}

/// The answer to the client with the images that came for a job.
pub open spec fn final_reply(job: JobView, entries: Seq<JsonTree>, created: i64) -> ReplyView {
    let body = crate::document::serialized_json(
        JsonTree::Object(
            seq![
                ("created"@, JsonTree::Number(crate::text::decimal(created as int))),
                ("data"@, JsonTree::Array(entries)),
            ],
        ),
    );
    ReplyView {
        status: job.status,
        headers: crate::headers::passed_headers(job.headers, body.len()),
        body,
    }
}

/// Makes a call for something that the backend knows.
fn look_up(url: String, authorization: &Option<Vec<u8>>) -> (call: Call)
    ensures
        call@ == lookup_call(url@, optional_bytes(*authorization)),
{
    let body: Vec<u8> = Vec::new();
    assert(body@ =~= Seq::<u8>::empty());
    Call {
        method: Method::Get,
        url,
        headers: upstream_headers(false, authorization),
        body,
        timeout_seconds: LOOKUP_TIMEOUT_SECONDS,
    }
}

/// Asks for the queue.
fn ask_queue(job: Job) -> (next: Next)
    ensures
        next@ == asks_queue(job@),
{
    let mut url = prefixed("http://", job.target_base.as_str());
    url.append("/queue");
    let call = look_up(url, &find_authorization(&job.headers));
    Next::Call { call, stage: Stage::Queue { job } }
}

/// Asks what became of a job.
fn ask_history(job: Job) -> (next: Next)
    ensures
        next@ == asks_history(job@),
{
    let mut url = prefixed("http://", job.target_base.as_str());
    url.append("/history/");
    url.append(job.prompt_id.as_str());
    let call = look_up(url, &job.authorization);
    Next::Call { call, stage: Stage::History { job } }
}

/// Asks for the next image, or for the time where all have come.
fn ask_image(job: Job, files: Vec<ImageFile>, entries: Vec<Json>) -> (next: Next)
    ensures
        next@ == asks_image(job@, file_views(files@), entry_trees(entries@)),
{
    if entries.len() < files.len() {
        match view_url(job.target_base.as_str(), &files[entries.len()]) {
            Ok(url) => {
                let call = look_up(url, &job.authorization);
                Next::Call { call, stage: Stage::Image { job, files, entries } }
            },
            Err(error) => Next::Fail(error),
        }
    } else {
        Next::ReadClock { job, entries }
    }
}

/// Hands in a prompt: builds the call to the backend from the parameters and the authorization of
/// the client.
pub fn submit(
    state: &ProxyState,
    params: &Vec<(String, String)>,
    headers: &Vec<Header>,
    payload: Vec<u8>,
) -> (next: Next)
    ensures
        next@ == asks_submission(
            crate::proxy::address(state.backend_url@, state.backend_port@),
            state.use_ws,
            state.timeout,
            param_views(params@),
            header_views(headers@),
            payload@,
        ),
{
    let target_base = state.target_base();
    let authorization = find_authorization(headers);
    let mut url = prefixed("http://", target_base.as_str());
    url.append("/prompt");
    url.append(query_string(params).as_str());
    let call_headers = upstream_headers(payload.len() > 0, &authorization);
    Next::Call {
        call: Call {
            method: Method::Post,
            url,
            headers: call_headers,
            body: payload,
            timeout_seconds: state.timeout,
        },
        stage: Stage::Submission { target_base, use_ws: state.use_ws, authorization },
    }
}

/// What comes of a request of a client: the error for a body that could not be read, the refusal
/// of a request that cannot be translated, or the prompt to be handed in.
pub open spec fn begun(
    state: ProxyState,
    params: Seq<(Seq<char>, Seq<char>)>,
    headers: Seq<HeaderView>,
    body: Seq<u8>,
    next: NextView,
) -> bool {
    exists|payload: Result<Seq<u8>, Refusal>|
        {
            &&& #[trigger] crate::payload::payload_result(
                body,
                state.workflows@,
                state.backend_client_id@,
                payload,
            )
            &&& next == match payload {
                Ok(bytes) => asks_submission(
                    crate::proxy::address(state.backend_url@, state.backend_port@),
                    state.use_ws,
                    state.timeout,
                    params,
                    headers,
                    bytes,
                ),
                Err(refusal) => NextView::Fail(refusal),
            }
        }
}

/// Handles OpenAI API image generation requests.
///
/// This is where image generation begins. It reads the request in the format of the OpenAI API,
/// translates it to the format of ComfyUI, and has it handed in at the backend.
pub fn generations_response(
    state: &ProxyState,
    params: &Vec<(String, String)>,
    headers: &Vec<Header>,
    body: Result<Vec<u8>, String>,
) -> (next: Next)
    ensures
        match body {
            Err(reason) => next@ == NextView::Fail(
                internal_refusal("Failed to read request body: "@ + reason@),
            ),
            Ok(bytes) => begun(*state, param_views(params@), header_views(headers@), bytes@, next@),
        },
{
    let bytes = match body {
        Ok(bytes) => bytes,
        Err(reason) => {
            return Next::Fail(
                ProxyError::Internal(prefixed("Failed to read request body: ", reason.as_str())),
            );
        },
    };
    let answer = create_json_payload(
        bytes.as_slice(),
        &state.workflows,
        state.backend_client_id.as_str(),
    );
    let ghost shown = crate::payload::shown(answer);
    assert(crate::payload::payload_result(
        bytes@,
        state.workflows@,
        state.backend_client_id@,
        shown,
    ));
    match answer {
        Ok(payload) => submit(state, params, headers, payload),
        Err(error) => Next::Fail(error),
    }
}

/// Takes the answer to the prompt: extracts the prompt_id, and has the job waited for.
fn handle_regular_response(
    target_base: String,
    use_ws: bool,
    authorization: Option<Vec<u8>>,
    status: u16,
    headers: Vec<Header>,
    body: &Vec<u8>,
) -> (next: Next)
    ensures
        next@ == after_submission(
            target_base@,
            use_ws,
            optional_bytes(authorization),
            status,
            header_views(headers@),
            body@,
        ),
{
    match extract_prompt_id(body.as_slice()) {
        Err(error) => Next::Fail(error),
        Ok(None) => Next::Fail(ProxyError::Upstream("No prompt_id received.".to_owned())),
        Ok(Some(prompt_id)) => {
            let job = Job { target_base, prompt_id, authorization, status, headers };
            if use_ws {
                Next::AwaitJob { job, limit_seconds: COMPLETION_LIMIT_SECONDS }
            } else {
                ask_queue(job)
            }
        },
    }
}

/// The error for the body of an answer that could not be read.
fn body_error(stage: &Stage, reason: &str) -> (error: ProxyError)
    ensures
        error@ == unreadable_body(stage@, reason@),
{
    match stage {
        Stage::Submission { .. } => ProxyError::Upstream(
            prefixed("Failed to read response body: ", reason),
        ),
        Stage::Queue { .. } => ProxyError::Upstream(
            prefixed("Failed to read queu response body: ", reason),
        ),
        Stage::History { .. } => ProxyError::Upstream(
            prefixed("Failed to read history response body: ", reason),
        ),
        Stage::Image { .. } => ProxyError::from_request_text(reason),
    }
}

/// Whether a status says that a request succeeded.
fn succeeded(status: u16) -> (success: bool)
    ensures
        success == is_success(status),
{
    200 <= status && status < 300
}

/// The error for a lookup that was answered with a status that tells of no success.
fn lookup_error(opening: &str, status: u16) -> (error: ProxyError)
    ensures
        error@ == failed_lookup(opening@, status),
{
    ProxyError::Upstream(prefixed(opening, unsigned_text(status as u64).as_str()))
}

/// Takes what came of a call, and says what is to be done next.
pub fn after_call(call: Call, stage: Stage, outcome: Outcome) -> (next: Next)
    requires
        stage is Image ==> (outcome matches Outcome::Answered { status, body: Ok(image), .. }
            ==> is_success(status) ==> crate::encoding::base64_len(image@.len()) <= isize::MAX),
    ensures
        next@ == after(call@, stage@, outcome),
{
    let (status, headers, body) = match outcome {
        Outcome::Failed(failure) => {
            return Next::Fail(handle_request_error(failure, call.url.as_str()));
        },
        Outcome::TimedOut => {
            return Next::Fail(handle_timeout_error(call.url.as_str(), call.timeout_seconds));
        },
        Outcome::Answered { status, headers, body } => (status, headers, body),
    };
    let body = match body {
        Ok(body) => body,
        Err(reason) => {
            return Next::Fail(body_error(&stage, reason.as_str()));
        },
    };
    match stage {
        Stage::Submission { target_base, use_ws, authorization } => handle_regular_response(
            target_base,
            use_ws,
            authorization,
            status,
            headers,
            &body,
        ),
        Stage::Queue { job } => match check_queue(body.as_slice(), job.prompt_id.as_str()) {
            Ok(true) => ask_history(job),
            Ok(false) => Next::Pause { job, millis: QUEUE_POLL_MILLIS },
            Err(error) => Next::Fail(error),
        },
        Stage::History { job } => match read_history(body.as_slice(), job.prompt_id.as_str()) {
            Ok(files) => {
                if !succeeded(status) {
                    return Next::Fail(lookup_error("History request failed with status ", status));
                }
                let entries: Vec<Json> = Vec::new();
                assert(entry_trees(entries@) =~= Seq::<JsonTree>::empty());
                ask_image(job, files, entries)
            },
            Err(error) => Next::Fail(error),
        },
        Stage::Image { job, files, entries } => {
            if !succeeded(status) {
                return Next::Fail(lookup_error("Image request failed with status ", status));
            }
            let mut entries = entries;
            let ghost before = entries@;
            entries.push(encode_image(&body));
            assert(entry_trees(entries@) =~= entry_trees(before).push(
                crate::history::image_entry(body@),
            ));
            ask_image(job, files, entries)
        },
    }
}

/// After the wait for the completion of a job, however it ended, its images are asked for.
pub fn after_wait(job: Job) -> (next: Next)
    ensures
        next@ == asks_history(job@),
{
    ask_history(job)
}

/// After a pause the queue is looked at again.
pub fn after_pause(job: Job) -> (next: Next)
    ensures
        next@ == asks_queue(job@),
{
    ask_queue(job)
}

/// Makes the answer to the client of the images that came, with the seconds since 1970 if the
/// clock could tell.
pub fn after_clock(job: Job, entries: Vec<Json>, created: Option<i64>) -> (next: Next)
    ensures
        match created {
            Some(created) => next@ == NextView::Reply(final_reply(job@, entry_trees(entries@), created)),
            None => next@ == NextView::Fail(internal_refusal("Failed to get current time"@)),
        },
{
    let created = match created {
        Some(created) => created,
        None => {
            return Next::Fail(ProxyError::Internal("Failed to get current time".to_owned()));
        },
    };
    match images_response(entries, created).to_bytes() {
        Ok(body) => {
            let headers = response_headers(&job.headers, body.len());
            Next::Reply(Reply { status: job.status, headers, body })
        },
        Err(message) => Next::Fail(
            ProxyError::Json(prefixed("Failed to serialize JSON: ", message.as_str())),
        ),
    }
}

/// The error for an answer to the client that could not be put together.
pub fn reply_error(reason: &str) -> (error: ProxyError)
    ensures
        error@ == internal_refusal("Failed to build regular response: "@ + reason@),
{
    ProxyError::Internal(prefixed("Failed to build regular response: ", reason))
}

/// What is to be done after calls that came out one after the other, where every wait and every
/// pause comes to its end.
pub open spec fn pursued(next: NextView, outcomes: Seq<Outcome>) -> NextView
    decreases outcomes.len(), if next is Call { 0int } else { 1 },
{
    match next {
        NextView::AwaitJob { job, .. } => pursued(asks_history(job), outcomes),
        NextView::Pause { job, .. } => pursued(asks_queue(job), outcomes),
        NextView::Call { call, stage } => if outcomes.len() == 0 {
            next
        } else {
            pursued(after(call, stage, outcomes[0]), outcomes.drop_first())
        },
        other => other,
    }
}

/// The outcome is an answer that tells of success, with this body.
pub open spec fn answers_well(outcome: Outcome, body: Seq<u8>) -> bool {
    outcome matches Outcome::Answered { status, body: Ok(bytes), .. } && is_success(status) && bytes@
        == body
}

/// The outcomes are answers that tell of success, with these bodies.
pub open spec fn answers_with(outcomes: Seq<Outcome>, bodies: Seq<Seq<u8>>) -> bool {
    &&& outcomes.len() == bodies.len()
    &&& forall|i: int| 0 <= i < outcomes.len() ==> answers_well(#[trigger] outcomes[i], bodies[i])
}

proof fn images_gather(
    job: JobView,
    files: Seq<ImageFileView>,
    entries: Seq<JsonTree>,
    outcomes: Seq<Outcome>,
    images: Seq<Seq<u8>>,
)
    requires
        answers_with(outcomes, images),
        entries.len() + images.len() == files.len(),
    ensures
        pursued(asks_image(job, files, entries), outcomes) == (NextView::ReadClock {
            job,
            entries: entries + images.map_values(
                |image: Seq<u8>| crate::history::image_entry(image),
            ),
        }),
    decreases images.len(),
{
    let encoded = images.map_values(|image: Seq<u8>| crate::history::image_entry(image));
    if images.len() == 0 {
        assert(entries + encoded =~= entries);
    } else {
        let entry = crate::history::image_entry(images[0]);
        let rest = images.drop_first();
        assert(answers_well(outcomes[0], images[0]));
        assert forall|i: int| 0 <= i < outcomes.drop_first().len() implies answers_well(
            #[trigger] outcomes.drop_first()[i],
            rest[i],
        ) by {
            assert(answers_well(outcomes[i + 1], images[i + 1]));
        }
        images_gather(job, files, entries.push(entry), outcomes.drop_first(), rest);
        assert(entries.push(entry) + rest.map_values(
            |image: Seq<u8>| crate::history::image_entry(image),
        ) =~= entries + encoded);
    }
}

/// The client gets every image of the job, in the order of the history, encoded in Base64, in the
/// format of the OpenAI API.
pub proof fn client_gets_all_images(
    job: JobView,
    history: Seq<u8>,
    files: Seq<ImageFileView>,
    outcomes: Seq<Outcome>,
    images: Seq<Seq<u8>>,
    created: i64,
)
    requires
        crate::document::parsed_json(history) matches Ok(tree) && crate::history::images_of_job(
            tree,
            job.prompt_id,
        ) == Some(files),
        images.len() == files.len(),
        answers_with(outcomes, images),
    ensures
        ({
            let entries = images.map_values(|image: Seq<u8>| crate::history::image_entry(image));
            &&& pursued(after_history(job, history), outcomes) == (NextView::ReadClock {
                job,
                entries,
            })
            &&& final_reply(job, entries, created).status == job.status
            &&& final_reply(job, entries, created).body == crate::document::serialized_json(
                crate::history::images_answer(images, created),
            )
        }),
{
    images_gather(job, files, Seq::empty(), outcomes, images);
    let entries = images.map_values(|image: Seq<u8>| crate::history::image_entry(image));
    assert(Seq::<JsonTree>::empty() + entries =~= entries);
}

/// The backend says that a job is running or pending.
pub open spec fn says_queued(outcome: Outcome, prompt_id: Seq<char>) -> bool {
    outcome matches Outcome::Answered { body: Ok(body), .. } && (crate::document::parsed_json(
        body@,
    ) matches Ok(queue) && crate::history::in_queue(queue, prompt_id))
}

/// The backend says that a job is neither running nor pending.
pub open spec fn says_left(outcome: Outcome, prompt_id: Seq<char>) -> bool {
    outcome matches Outcome::Answered { body: Ok(body), .. } && (crate::document::parsed_json(
        body@,
    ) matches Ok(queue) && !crate::history::in_queue(queue, prompt_id))
}

/// The history of a job is asked for only once the backend says that the job is neither running
/// nor pending; as long as it is, the queue is looked at again.
pub proof fn images_wait_for_queue(call: CallView, job: JobView, outcome: Outcome)
    ensures
        ({
            let next = after(call, StageView::Queue { job }, outcome);
            &&& says_left(outcome, job.prompt_id) <==> next == asks_history(job)
            &&& says_queued(outcome, job.prompt_id) <==> next == NextView::Pause {
                job,
                millis: QUEUE_POLL_MILLIS,
            }
            &&& !says_left(outcome, job.prompt_id) && !says_queued(outcome, job.prompt_id)
                <==> next is Fail
        }),
{
}

/// The queue is looked at until the job has left it.
pub open spec fn looks_until_left(looks: Seq<Outcome>, prompt_id: Seq<char>) -> bool {
    &&& looks.len() > 0
    &&& forall|i: int| 0 <= i < looks.len() - 1 ==> says_queued(#[trigger] looks[i], prompt_id)
    &&& says_left(looks.last(), prompt_id)
}

proof fn queue_is_watched(job: JobView, looks: Seq<Outcome>, rest: Seq<Outcome>)
    requires
        looks_until_left(looks, job.prompt_id),
    ensures
        pursued(asks_queue(job), looks + rest) == pursued(asks_history(job), rest),
    decreases looks.len(),
{
    let later = looks.drop_first();
    assert((looks + rest)[0] == looks[0]);
    assert((looks + rest).drop_first() =~= later + rest);
    images_wait_for_queue(queue_call(job), job, looks[0]);
    let next = after(queue_call(job), StageView::Queue { job }, looks[0]);
    assert(pursued(asks_queue(job), looks + rest) == pursued(next, later + rest));
    if looks.len() == 1 {
        assert(later + rest =~= rest);
    } else {
        assert(says_queued(looks[0], job.prompt_id));
        assert forall|i: int| 0 <= i < later.len() - 1 implies says_queued(
            #[trigger] later[i],
            job.prompt_id,
        ) by {
            assert(says_queued(looks[i + 1], job.prompt_id));
        }
        assert(pursued(next, later + rest) == pursued(asks_queue(job), later + rest));
        queue_is_watched(job, later, rest);
    }
}

/// A job that the backend takes on is followed to its images, over the WebSocket or by looking at
/// the queue until it has left it: its history is asked for, and every image in it is fetched.
pub proof fn job_is_followed_to_its_images(
    use_ws: bool,
    job: JobView,
    answer: Seq<u8>,
    looks: Seq<Outcome>,
    told: Outcome,
    history: Seq<u8>,
    files: Seq<ImageFileView>,
    outcomes: Seq<Outcome>,
    images: Seq<Seq<u8>>,
)
    requires
        crate::document::parsed_json(answer) matches Ok(tree) && crate::history::prompt_id_in(tree)
            == Some(job.prompt_id),
        use_ws ==> looks.len() == 0,
        !use_ws ==> looks_until_left(looks, job.prompt_id),
        answers_well(told, history),
        crate::document::parsed_json(history) matches Ok(tree) && crate::history::images_of_job(
            tree,
            job.prompt_id,
        ) == Some(files),
        images.len() == files.len(),
        answers_with(outcomes, images),
    ensures
        pursued(
            after_submission(
                job.target_base,
                use_ws,
                job.authorization,
                job.status,
                job.headers,
                answer,
            ),
            looks + (seq![told] + outcomes),
        ) == (NextView::ReadClock {
            job,
            entries: images.map_values(|image: Seq<u8>| crate::history::image_entry(image)),
        }),
{
    let rest = seq![told] + outcomes;
    assert(rest[0] == told);
    assert(rest.drop_first() =~= outcomes);
    assert(pursued(asks_history(job), rest) == pursued(after_history(job, history), outcomes));
    client_gets_all_images(job, history, files, outcomes, images, 0);
    if use_ws {
        assert(looks + rest =~= rest);
    } else {
        queue_is_watched(job, looks, rest);
    }
}

/// A call that fails or is given up is answered as an error of the backend, at whatever stage.
pub proof fn lost_backend_is_bad_gateway(call: CallView, stage: StageView, outcome: Outcome)
    requires
        outcome is Failed || outcome is TimedOut,
    ensures
        after(call, stage, outcome) matches NextView::Fail(refusal) && crate::proxy::status_of(
            refusal.kind,
        ) == 502,
{
}

/// A lookup of the history or of an image that is answered with an error status is answered to the
/// client with an error: no error page is taken for a history or an image. It is an error of the
/// backend, but for the page in place of a history that is no JSON, which is an error of JSON.
pub proof fn failed_lookup_is_refused(call: CallView, stage: StageView, outcome: Outcome)
    requires
        stage is History || stage is Image,
        outcome matches Outcome::Answered { status, .. } && !is_success(status),
    ensures
        after(call, stage, outcome) matches NextView::Fail(refusal) && {
            let no_json = outcome matches Outcome::Answered { body: Ok(body), .. }
                && crate::document::parsed_json(body@) is Err;
            crate::proxy::status_of(refusal.kind) == if stage is History && no_json {
                400u16
            } else {
                502
            }
        },
{
}

/// A status tells of success where its first digit is a two.
pub proof fn success_begins_with_two(status: u16)
    ensures
        is_success(status) <==> status / 100 == 2,
{
}

/// Parameters are written as `name=value`, a question mark before the first and an ampersand before
/// each other, in their order and however many there are.
pub proof fn parameters_follow_each_other(
    params: Seq<(Seq<char>, Seq<char>)>,
    more: Seq<(Seq<char>, Seq<char>)>,
    name: Seq<char>,
    value: Seq<char>,
)
    requires
        params.len() > 0,
        more.len() > 0,
    ensures
        query_text(Seq::empty()) == Seq::<char>::empty(),
        query_text(seq![(name, value)]) == "?"@ + name + "="@ + value,
        query_text(more).len() > 0,
        query_text(more)[0] == '?',
        query_text(params + more) == query_text(params) + "&"@ + query_text(more).skip(1),
    decreases more.len(),
{
    reveal_strlit("?");
    reveal_strlit("&");
    let one = seq![(name, value)];
    assert(one.drop_last() =~= Seq::empty());
    assert(query_text(one.drop_last()) =~= Seq::<char>::empty());
    assert(query_text(one) =~= "?"@ + name + "="@ + value);
    let joined = params + more;
    let front = more.drop_last();
    assert(joined.drop_last() =~= params + front);
    assert(joined.last() == more.last());
    if more.len() == 1 {
        assert(params + front =~= params);
        assert(query_text(front) =~= Seq::<char>::empty());
        assert(query_text(more) =~= "?"@ + more.last().0 + "="@ + more.last().1);
        assert(query_text(more).skip(1) =~= more.last().0 + "="@ + more.last().1);
    } else {
        parameters_follow_each_other(params, front, name, value);
        assert(query_text(more)[0] == query_text(front)[0]);
        assert(query_text(more).skip(1) =~= query_text(front).skip(1) + "&"@ + more.last().0 + "="@
            + more.last().1);
    }
    assert(query_text(joined) =~= query_text(params) + "&"@ + query_text(more).skip(1));
}

/// A call goes where it should: its address is these texts one after the other.
pub open spec fn goes_to(call: CallView, first: Seq<char>, second: Seq<char>, third: Seq<char>) -> bool {
    &&& call.url.len() == first.len() + second.len() + third.len()
    &&& call.url.take(first.len() as int) == first
    &&& call.url.subrange(first.len() as int, (first.len() + second.len()) as int) == second
    &&& call.url.skip((first.len() + second.len()) as int) == third
}

/// A call carries the authorization, where there is one, and says that its body is JSON where it
/// has one.
pub open spec fn carries(call: CallView, authorization: Option<Seq<u8>>) -> bool {
    forall|header: HeaderView| #[trigger]
        call.headers.contains(header) <==> (call.body.len() > 0 && header.name == "content-type"@
            && header.value == vstd::utf8::encode_utf8("application/json"@)) || (header.name
            == "authorization"@ && authorization == Some(header.value))
}

proof fn headers_carry(has_body: bool, authorization: Option<Seq<u8>>)
    ensures
        forall|header: HeaderView| #[trigger]
            crate::headers::request_headers(has_body, authorization).contains(header) <==> (has_body
                && header.name == "content-type"@ && header.value == vstd::utf8::encode_utf8(
                "application/json"@,
            )) || (header.name == "authorization"@ && authorization == Some(header.value)),
{
    assert forall|header: HeaderView| #[trigger]
        crate::headers::request_headers(has_body, authorization).contains(header) <==> (has_body
            && header.name == "content-type"@ && header.value == vstd::utf8::encode_utf8(
            "application/json"@,
        )) || (header.name == "authorization"@ && authorization == Some(header.value)) by {
        crate::headers::requests_carry_content_type_and_authorization(has_body, authorization, header);
    }
}

/// The prompt is handed in at the backend with the parameters, the authorization of the client and
/// the whole payload, and the backend is given the configured time.
pub proof fn submission_hands_in_payload(
    target_base: Seq<char>,
    use_ws: bool,
    timeout: u64,
    params: Seq<(Seq<char>, Seq<char>)>,
    headers: Seq<HeaderView>,
    payload: Seq<u8>,
)
    ensures
        asks_submission(target_base, use_ws, timeout, params, headers, payload) matches NextView::Call {
            call,
            stage,
        } && {
            &&& call.method == Method::Post
            &&& goes_to(call, "http://"@, target_base, "/prompt"@ + query_text(params))
            &&& call.body == payload
            &&& call.timeout_seconds == timeout
            &&& carries(call, crate::headers::authorization_of(headers))
            &&& stage == (StageView::Submission {
                target_base,
                use_ws,
                authorization: crate::headers::authorization_of(headers),
            })
        },
{
    let call = asks_submission(target_base, use_ws, timeout, params, headers, payload)->Call_call;
    headers_carry(payload.len() > 0, crate::headers::authorization_of(headers));
    let rest = "/prompt"@ + query_text(params);
    assert(call.url =~= "http://"@ + target_base + rest);
    assert(call.url.take("http://"@.len() as int) =~= "http://"@);
    assert(call.url.subrange("http://"@.len() as int, ("http://"@.len() + target_base.len()) as int)
        =~= target_base);
    assert(call.url.skip(("http://"@.len() + target_base.len()) as int) =~= rest);
}

/// The queue, the history of the job and the next image that has not come are asked for at the
/// backend, for five seconds and without a body: the queue with the authorization of the backend's
/// answer, the others with that of the client.
pub proof fn lookups_ask_backend(job: JobView, files: Seq<ImageFileView>, entries: Seq<JsonTree>)
    ensures
        asks_queue(job) matches NextView::Call { call, stage } && {
            &&& call.method == Method::Get && call.body.len() == 0 && call.timeout_seconds == 5
            &&& goes_to(call, "http://"@, job.target_base, "/queue"@)
            &&& carries(call, crate::headers::authorization_of(job.headers))
            &&& stage == StageView::Queue { job }
        },
        asks_history(job) matches NextView::Call { call, stage } && {
            &&& call.method == Method::Get && call.body.len() == 0 && call.timeout_seconds == 5
            &&& goes_to(call, "http://"@, job.target_base, "/history/"@ + job.prompt_id)
            &&& carries(call, job.authorization)
            &&& stage == StageView::History { job }
        },
        entries.len() < files.len() ==> (asks_image(job, files, entries) matches NextView::Call {
            call,
            stage,
        } && {
            &&& call.method == Method::Get && call.body.len() == 0 && call.timeout_seconds == 5
            &&& call.url == crate::history::image_address(
                job.target_base,
                files[entries.len() as int],
            )
            &&& carries(call, job.authorization)
            &&& stage == (StageView::Image { job, files, entries })
        }),
        entries.len() >= files.len() ==> asks_image(job, files, entries) == (NextView::ReadClock {
            job,
            entries,
        }),
{
    headers_carry(false, job.authorization);
    headers_carry(false, crate::headers::authorization_of(job.headers));
    let scheme = "http://"@;
    let base = job.target_base;
    let queue = asks_queue(job)->Call_call;
    assert(queue.url.take(scheme.len() as int) =~= scheme);
    assert(queue.url.subrange(scheme.len() as int, (scheme.len() + base.len()) as int) =~= base);
    assert(queue.url.skip((scheme.len() + base.len()) as int) =~= "/queue"@);
    let history = asks_history(job)->Call_call;
    assert(history.url =~= scheme + base + ("/history/"@ + job.prompt_id));
    assert(history.url.take(scheme.len() as int) =~= scheme);
    assert(history.url.subrange(scheme.len() as int, (scheme.len() + base.len()) as int) =~= base);
    assert(history.url.skip((scheme.len() + base.len()) as int) =~= "/history/"@ + job.prompt_id);
}

/// An answer with a prompt id begins the wait for that job, for ten minutes over the WebSocket or by
/// looking at the queue; one without, or one that is no JSON, is an error.
pub proof fn prompt_id_begins_the_wait(
    call: CallView,
    target_base: Seq<char>,
    use_ws: bool,
    authorization: Option<Seq<u8>>,
    outcome: Outcome,
    members: Seq<(Seq<char>, JsonTree)>,
    prompt_id: Seq<char>,
)
    requires
        crate::json::keys_ascend(members),
    ensures
        outcome matches Outcome::Answered { status, headers, body: Ok(body) } ==> {
            let next = after(
                call,
                StageView::Submission { target_base, use_ws, authorization },
                outcome,
            );
            &&& crate::document::parsed_json(body@) == Ok::<JsonTree, Seq<char>>(
                JsonTree::Object(members),
            ) && members.contains(("prompt_id"@, JsonTree::Text(prompt_id))) ==> {
                let job = JobView {
                    target_base,
                    prompt_id,
                    authorization,
                    status,
                    headers: header_views(headers@),
                };
                next == if use_ws {
                    NextView::AwaitJob { job, limit_seconds: 600 }
                } else {
                    asks_queue(job)
                }
            }
            &&& crate::document::parsed_json(body@) == Ok::<JsonTree, Seq<char>>(
                JsonTree::Object(members),
            ) && (forall|other: Seq<char>|
                !(#[trigger] members.contains(("prompt_id"@, JsonTree::Text(other))))) ==> next
                == NextView::Fail(upstream_refusal("No prompt_id received."@))
            &&& crate::document::parsed_json(body@) matches Err(reason) ==> next == NextView::Fail(
                json_refusal("Failed to parse JSON: "@ + reason),
            )
        },
{
    crate::history::prompt_id_stands_under_its_key(members, prompt_id);
    if let Some(found) = crate::history::prompt_id_in(JsonTree::Object(members)) {
        crate::history::prompt_id_stands_under_its_key(members, found);
        assert(members.contains(("prompt_id"@, JsonTree::Text(found))));
    }
}

/// What came of a call is told to the client where it is no answer that can be read: how it failed
/// at which address, or which body could not be read and why.
pub proof fn lost_answers_are_told(call: CallView, stage: StageView, outcome: Outcome)
    ensures
        match outcome {
            Outcome::Failed(failure) => after(call, stage, outcome) == NextView::Fail(
                upstream_refusal(crate::proxy::request_failure_message(failure, call.url)),
            ),
            Outcome::TimedOut => after(call, stage, outcome) == NextView::Fail(
                upstream_refusal(crate::proxy::timeout_message(call.url, call.timeout_seconds)),
            ),
            Outcome::Answered { body: Err(reason), .. } => after(call, stage, outcome) == NextView::Fail(
                upstream_refusal(
                    match stage {
                        StageView::Submission { .. } => "Failed to read response body: "@,
                        StageView::Queue { .. } => "Failed to read queu response body: "@,
                        StageView::History { .. } => "Failed to read history response body: "@,
                        StageView::Image { .. } => "Request error: "@,
                    } + reason@,
                ),
            ),
            _ => true,
        },
{
}

/// An answer with a body that is no JSON where JSON is due, a history without the job, and an error
/// status are told with these words.
pub proof fn unfit_answers_are_told(call: CallView, job: JobView, outcome: Outcome, files: Seq<ImageFileView>, entries: Seq<JsonTree>)
    ensures
        outcome matches Outcome::Answered { status, body: Ok(body), .. } ==> {
            let queue = after(call, StageView::Queue { job }, outcome);
            let history = after(call, StageView::History { job }, outcome);
            let image = after(call, StageView::Image { job, files, entries }, outcome);
            &&& crate::document::parsed_json(body@) matches Err(reason) ==> queue == NextView::Fail(
                json_refusal("Failed to queu history JSON: "@ + reason),
            ) && history == NextView::Fail(json_refusal("Failed to parse history JSON: "@ + reason))
            &&& (crate::document::parsed_json(body@) matches Ok(tree) && crate::history::images_of_job(
                tree,
                job.prompt_id,
            ) is None) ==> history == NextView::Fail(upstream_refusal("No prompt_id history found."@))
            &&& (crate::document::parsed_json(body@) matches Ok(tree) && crate::history::images_of_job(
                tree,
                job.prompt_id,
            ) is Some) && status / 100 != 2 ==> history == NextView::Fail(
                upstream_refusal(
                    "History request failed with status "@ + crate::text::decimal(status as int),
                ),
            )
            &&& status / 100 != 2 ==> image == NextView::Fail(
                upstream_refusal(
                    "Image request failed with status "@ + crate::text::decimal(status as int),
                ),
            )
        },
{
}

/// The client is answered with the status and the headers that the backend took the job on with,
/// the content length being that of the new body.
pub proof fn reply_passes_on_status_and_headers(job: JobView, entries: Seq<JsonTree>, created: i64, place: int)
    requires
        0 <= place < job.headers.len(),
        job.headers[place].name == "content-length"@,
        crate::headers::valid_header_value(job.headers[place].value),
    ensures
        ({
            let reply = final_reply(job, entries, created);
            &&& reply.status == job.status
            &&& reply.headers == crate::headers::passed_headers(job.headers, reply.body.len())
            &&& reply.headers.contains(
                HeaderView {
                    name: "content-length"@,
                    value: vstd::utf8::encode_utf8(crate::text::decimal(reply.body.len() as int)),
                },
            )
        }),
{
    let reply = final_reply(job, entries, created);
    crate::headers::content_length_is_renewed(job.headers, reply.body.len(), place);
}

/// The answer to the client is an object with the time and all entries, in their order.
pub proof fn reply_holds_all_entries(job: JobView, entries: Seq<JsonTree>, created: i64)
    ensures
        exists|members: Seq<(Seq<char>, JsonTree)>|
            {
                &&& final_reply(job, entries, created).body == #[trigger] crate::document::serialized_json(
                    JsonTree::Object(members),
                )
                &&& members.len() == 2
                &&& members[0] == ("created"@, JsonTree::Number(crate::text::decimal(created as int)))
                &&& members[1] == ("data"@, JsonTree::Array(entries))
            },
{
    let members = seq![
        ("created"@, JsonTree::Number(crate::text::decimal(created as int))),
        ("data"@, JsonTree::Array(entries)),
    ];
    assert(final_reply(job, entries, created).body == crate::document::serialized_json(
        JsonTree::Object(members),
    ));
}

/// A request is either handed in at the backend, with a payload that its body is answered with, or
/// refused with what its body is refused with.
pub proof fn request_is_handed_in_or_refused(
    state: ProxyState,
    params: Seq<(Seq<char>, Seq<char>)>,
    headers: Seq<HeaderView>,
    body: Seq<u8>,
    next: NextView,
)
    requires
        begun(state, params, headers, body, next),
    ensures
        match next {
            NextView::Call { call, stage } => {
                &&& crate::payload::payload_result(
                    body,
                    state.workflows@,
                    state.backend_client_id@,
                    Ok(call.body),
                )
                &&& next == asks_submission(
                    crate::proxy::address(state.backend_url@, state.backend_port@),
                    state.use_ws,
                    state.timeout,
                    params,
                    headers,
                    call.body,
                )
            },
            NextView::Fail(refusal) => crate::payload::payload_result(
                body,
                state.workflows@,
                state.backend_client_id@,
                Err(refusal),
            ),
            _ => false,
        },
{
}

/// What is known of documents and of parameters is known of all of them, at their places.
pub proof fn lists_are_seen_whole(entries: Seq<Json>, params: Seq<(String, String)>)
    ensures
        entry_trees(entries).len() == entries.len(),
        forall|i: int| 0 <= i < entries.len() ==> #[trigger] entry_trees(entries)[i] == entries[i]@,
        param_views(params).len() == params.len(),
        forall|i: int|
            0 <= i < params.len() ==> (#[trigger] param_views(params)[i]).0 == params[i].0@ && param_views(
                params,
            )[i].1 == params[i].1@,
{
}

/// What is known of a call, a job and an answer is all that they hold.
pub proof fn calls_jobs_and_replies_are_seen_whole(call: Call, job: Job, reply: Reply)
    ensures
        call@.method == call.method,
        call@.url == call.url@,
        call@.headers == header_views(call.headers@),
        call@.body == call.body@,
        call@.timeout_seconds == call.timeout_seconds,
        job@.target_base == job.target_base@,
        job@.prompt_id == job.prompt_id@,
        job@.authorization == optional_bytes(job.authorization),
        job@.status == job.status,
        job@.headers == header_views(job.headers@),
        reply@.status == reply.status,
        reply@.headers == header_views(reply.headers@),
        reply@.body == reply.body@,
{
}

/// What is known of a stage is all that it holds.
pub proof fn stages_are_seen_whole(stage: Stage)
    ensures
        match stage {
            Stage::Submission { target_base, use_ws, authorization } => stage@ == (StageView::Submission {
                target_base: target_base@,
                use_ws,
                authorization: optional_bytes(authorization),
            }),
            Stage::Queue { job } => stage@ == (StageView::Queue { job: job@ }),
            Stage::History { job } => stage@ == (StageView::History { job: job@ }),
            Stage::Image { job, files, entries } => stage@ == (StageView::Image {
                job: job@,
                files: file_views(files@),
                entries: entry_trees(entries@),
            }),
        },
{
}

/// What is known of what is to be done next is all that it holds.
pub proof fn next_steps_are_seen_whole(next: Next)
    ensures
        match next {
            Next::Call { call, stage } => next@ == (NextView::Call { call: call@, stage: stage@ }),
            Next::AwaitJob { job, limit_seconds } => next@ == (NextView::AwaitJob {
                job: job@,
                limit_seconds,
            }),
            Next::Pause { job, millis } => next@ == (NextView::Pause { job: job@, millis }),
            Next::ReadClock { job, entries } => next@ == (NextView::ReadClock {
                job: job@,
                entries: entry_trees(entries@),
            }),
            Next::Reply(reply) => next@ == NextView::Reply(reply@),
            Next::Fail(error) => next@ == NextView::Fail(error@),
        },
{
}

} // verus!
