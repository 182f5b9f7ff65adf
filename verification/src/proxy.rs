//! Errors of the proxy and the answers that they are given, and the choice of an endpoint.
use vstd::prelude::*;

use crate::config::Config;
use crate::document::error_text;
use crate::text::{same_text, unsigned_text};
use crate::workflows::Workflows;

verus! {

/// Seconds that the proxy waits beyond the configured timeout of a request.
pub const TIMEOUT_BUFFER_SECONDS: u64 = 10;

/// Shared state passed to all request handlers.
pub struct ProxyState {
    /// ComfyUI backend host address
    pub backend_url: String,
    /// ComfyUI backend port number
    pub backend_port: String,
    /// Unique client ID for ComfyUI WebSocket connections
    pub backend_client_id: String,
    /// Maximum allowed request body size in megabytes
    pub max_payload_size_mb: usize,
    /// Request timeout in seconds
    pub timeout: u64,
    /// Whether to use or not WebSockets
    pub use_ws: bool,
    /// Pre-loaded workflows keyed by model name
    pub workflows: Workflows,
}

/// Host and port with a colon between them.
pub open spec fn address(host: Seq<char>, port: Seq<char>) -> Seq<char> {
    host + ":"@ + port
}

/// The number of bytes in some megabytes.
pub open spec fn megabytes(count: int) -> int {
    count * 1048576
}

impl ProxyState {
    /// The state for a configuration and the workflows that were loaded.
    pub fn new(config: &Config, workflows: Workflows) -> (state: ProxyState)
        ensures
            state.backend_url@ == config.comfyui_backend.host@,
            state.backend_port@ == crate::text::decimal(config.comfyui_backend.port as int),
            state.backend_client_id@ == config.comfyui_backend.client_id@,
            state.max_payload_size_mb == config.routing.max_payload_size_mb,
            state.timeout == config.routing.timeout_seconds + TIMEOUT_BUFFER_SECONDS,
            state.use_ws == config.comfyui_backend.use_ws,
            state.workflows == workflows,
    {
        ProxyState {
            backend_url: config.comfyui_backend.host.clone(),
            backend_port: unsigned_text(config.comfyui_backend.port as u64),
            backend_client_id: config.comfyui_backend.client_id.clone(),
            max_payload_size_mb: config.routing.max_payload_size_mb as usize,
            timeout: config.routing.timeout_seconds as u64 + TIMEOUT_BUFFER_SECONDS,
            use_ws: config.comfyui_backend.use_ws,
            workflows,
        }
    }

    /// Host and port of the backend.
    pub fn target_base(&self) -> (base: String)
        ensures
            base@ == address(self.backend_url@, self.backend_port@),
    {
        let mut base = prefixed(self.backend_url.as_str(), ":");
        base.append(self.backend_port.as_str());
        base
    }

    /// The largest body of a request, in bytes.
    pub fn body_limit(&self) -> (limit: usize)
        requires
            megabytes(self.max_payload_size_mb as int) <= usize::MAX,
        ensures
            limit == megabytes(self.max_payload_size_mb as int),
    {
        self.max_payload_size_mb * 1024 * 1024
    }
}

/// Error types for proxy operations.
///
/// Categorizes different error scenarios to enable appropriate HTTP status codes and error
/// messages in responses.
#[derive(Debug)]
pub enum ProxyError {
    /// Internal server errors (500)
    Internal(String),
    /// Upstream/backend errors (502)
    Upstream(String),
    /// JSON parsing/serialization errors (400)
    Json(String),
    /// Request validation errors (400)
    Validation(String),
    /// Unimplemented features (400)
    Implementation(String),
}

/// The category of an error.
pub enum ErrorKind {
    Internal,
    Upstream,
    Json,
    Validation,
    Implementation,
}

/// What an error says: its category and its message.
pub struct Refusal {
    pub kind: ErrorKind,
    pub message: Seq<char>,
}

impl View for ProxyError {
    type V = Refusal;

    open spec fn view(&self) -> Refusal {
        match self {
            ProxyError::Internal(message) => Refusal { kind: ErrorKind::Internal, message: message@ },
            ProxyError::Upstream(message) => Refusal { kind: ErrorKind::Upstream, message: message@ },
            ProxyError::Json(message) => Refusal { kind: ErrorKind::Json, message: message@ },
            ProxyError::Validation(message) => Refusal { kind: ErrorKind::Validation, message: message@ },
            ProxyError::Implementation(message) => Refusal {
                kind: ErrorKind::Implementation,
                message: message@,
            },
        }
    }
}

/// An error of the category for JSON.
pub open spec fn json_refusal(message: Seq<char>) -> Refusal {
    Refusal { kind: ErrorKind::Json, message }
}

/// An error of the category for the backend.
pub open spec fn upstream_refusal(message: Seq<char>) -> Refusal {
    Refusal { kind: ErrorKind::Upstream, message }
}

/// An error of the category for the proxy itself.
pub open spec fn internal_refusal(message: Seq<char>) -> Refusal {
    Refusal { kind: ErrorKind::Internal, message }
}

/// The HTTP status for a category of errors.
pub open spec fn status_of(kind: ErrorKind) -> u16 {
    match kind {
        ErrorKind::Internal => 500,
        ErrorKind::Upstream => 502,
        ErrorKind::Json => 400,
        ErrorKind::Validation => 400,
        ErrorKind::Implementation => 400,
    }
}

/// HTTP response body for error messages.
pub struct ErrorResponse {
    /// HTTP status code
    pub code: u32,
    /// Error message
    pub message: String,
}

/// The answer that an error is given.
pub struct ErrorReply {
    /// HTTP status code
    pub status: u16,
    /// What the body holds, as JSON
    pub body: ErrorResponse,
}

impl ProxyError {
    /// Converts the error into the answer with the status of its category and its message.
    pub fn into_response(self) -> (reply: ErrorReply)
        ensures
            reply.status == status_of(self@.kind),
            reply.body.code == status_of(self@.kind),
            reply.body.message@ == self@.message,
    {
        let (status, message) = match self {
            ProxyError::Internal(message) => (500u16, message),
            ProxyError::Upstream(message) => (502u16, message),
            ProxyError::Json(message) => (400u16, message),
            ProxyError::Validation(message) => (400u16, message),
            ProxyError::Implementation(message) => (400u16, message),
        };
        ErrorReply { status, body: ErrorResponse { code: status as u32, message } }
    }

    /// The error for a failure of the HTTP client that is described by `text`.
    pub fn from_request_text(text: &str) -> (error: ProxyError)
        ensures
            error@ == upstream_refusal("Request error: "@ + text@),
    {
        ProxyError::Upstream(prefixed("Request error: ", text))
    }
}

/// Convert JSON serialization error to ProxyError.
impl From<serde_json::Error> for ProxyError {
    fn from(err: serde_json::Error) -> (error: ProxyError)
        ensures
            error@ == json_refusal("JSON error: "@ + crate::document::error_message(err)),
    {
        ProxyError::Json(prefixed("JSON error: ", error_text(&err).as_str()))
    }
}

/// What the conversion gives is said by its own contract: by what the error shows.
impl vstd::std_specs::convert::FromSpecImpl<serde_json::Error> for ProxyError {
    open spec fn obeys_from_spec() -> bool {
        false
    }

    open spec fn from_spec(err: serde_json::Error) -> ProxyError {
        arbitrary()
    }
}

/// A text with another before it.
pub(crate) fn prefixed(prefix: &str, text: &str) -> (joined: String)
    ensures
        joined@ == prefix@ + text@,
{
    let mut joined = prefix.to_owned();
    joined.append(text);
    joined
}

/// How a request by the HTTP client failed.
pub struct RequestFailure {
    /// It took too long
    pub is_timeout: bool,
    /// No connection was made
    pub is_connect: bool,
    /// It could not be sent
    pub is_request: bool,
    /// The client's own words
    pub text: String,
}

/// What is said of a failed request to `url`.
pub open spec fn request_failure_message(failure: RequestFailure, url: Seq<char>) -> Seq<char> {
    if failure.is_timeout {
        "Request timeout to "@ + url + ": "@ + failure.text@
    } else if failure.is_connect {
        "Connection failed to "@ + url + ": "@ + failure.text@ + " - Check if backend server is running"@
    } else if failure.is_request {
        "Request error to "@ + url + ": "@ + failure.text@
    } else {
        "Network error to "@ + url + ": "@ + failure.text@
    }
}

/// Handles request errors from the HTTP client.
///
/// Categorizes the error (timeout, connection, etc.) and returns an error of the backend with a
/// user-friendly message.
pub fn handle_request_error(e: RequestFailure, full_url: &str) -> (error: ProxyError)
    ensures
        error@ == upstream_refusal(request_failure_message(e, full_url@)),
{
    let opening = if e.is_timeout {
        "Request timeout to "
    } else if e.is_connect {
        "Connection failed to "
    } else if e.is_request {
        "Request error to "
    } else {
        "Network error to "
    };
    let mut message = prefixed(opening, full_url);
    message.append(": ");
    message.append(e.text.as_str());
    if !e.is_timeout && e.is_connect {
        message.append(" - Check if backend server is running");
    }
    ProxyError::Upstream(message)
}

/// What is said of a request to `url` that was given up after some seconds.
pub open spec fn timeout_message(url: Seq<char>, seconds: u64) -> Seq<char> {
    "Request hung/timed out after "@ + crate::text::decimal(seconds as int) + " seconds to "@ + url
}

/// Handles timeout errors for requests that exceed the configured timeout.
pub fn handle_timeout_error(full_url: &str, timeout_seconds: u64) -> (error: ProxyError)
    ensures
        error@ == upstream_refusal(timeout_message(full_url@, timeout_seconds)),
{
    let mut message = prefixed(
        "Request hung/timed out after ",
        unsigned_text(timeout_seconds).as_str(),
    );
    message.append(" seconds to ");
    message.append(full_url);
    ProxyError::Upstream(message)
}

/// What the proxy offers under `/v1/images/`.
#[derive(Clone, Copy, PartialEq, Eq, Structural, Debug)]
pub enum Endpoint {
    /// Image generation
    Generations,
}

/// Routes a request by the path segment after `/v1/images/`.
///
/// Any path but `generations` is refused as not implemented.
pub fn proxy_handler(path: &str) -> (result: Result<Endpoint, ProxyError>)
    ensures
        match result {
            Ok(endpoint) => path@ == "generations"@ && endpoint == Endpoint::Generations,
            Err(error) => path@ != "generations"@ && error@ == (Refusal {
                kind: ErrorKind::Implementation,
                message: "Path not supported: "@ + path@,
            }),
        },
{
    if same_text(path, "generations") {
        Ok(Endpoint::Generations)
    } else {
        Err(ProxyError::Implementation(prefixed("Path not supported: ", path)))
    }
}

/// The address has the host, a colon and the port, each whole and at its place.
pub proof fn address_has_its_parts(host: Seq<char>, port: Seq<char>)
    ensures
        address(host, port).len() == host.len() + 1 + port.len(),
        address(host, port).take(host.len() as int) == host,
        address(host, port)[host.len() as int] == ':',
        address(host, port).skip(host.len() + 1int) == port,
{
    reveal_strlit(":");
    assert(address(host, port).take(host.len() as int) =~= host);
    assert(address(host, port).skip(host.len() + 1int) =~= port);
}

/// A megabyte is 1024 times 1024 bytes.
pub proof fn megabytes_are_counted_in_bytes(count: int)
    ensures
        megabytes(count) == count * (1024 * 1024),
{
}

/// What an error shows is its category and its whole message, and the category has its status.
pub proof fn errors_show_category_and_message(error: ProxyError)
    ensures
        match error {
            ProxyError::Internal(message) => error@.message == message@ && status_of(error@.kind) == 500
                && error@ == internal_refusal(message@),
            ProxyError::Upstream(message) => error@.message == message@ && status_of(error@.kind) == 502
                && error@ == upstream_refusal(message@),
            ProxyError::Json(message) => error@.message == message@ && status_of(error@.kind) == 400
                && error@ == json_refusal(message@),
            ProxyError::Validation(message) => error@.message == message@ && status_of(error@.kind) == 400,
            ProxyError::Implementation(message) => error@.message == message@ && status_of(error@.kind)
                == 400,
        },
{
}

/// What is said of a failed request tells the kind of failure, the whole address and the client's
/// own words; a timeout comes before a failed connection, and that before any other failure.
pub proof fn failure_message_tells_all(failure: RequestFailure, url: Seq<char>)
    ensures
        ({
            let opening = if failure.is_timeout {
                "Request timeout to "@
            } else if failure.is_connect {
                "Connection failed to "@
            } else if failure.is_request {
                "Request error to "@
            } else {
                "Network error to "@
            };
            let closing = if !failure.is_timeout && failure.is_connect {
                " - Check if backend server is running"@
            } else {
                Seq::<char>::empty()
            };
            let message = request_failure_message(failure, url);
            let url_end = opening.len() + url.len();
            let text_end = url_end + 2 + failure.text@.len();
            &&& message.len() == text_end + closing.len()
            &&& message.take(opening.len() as int) == opening
            &&& message.subrange(opening.len() as int, url_end as int) == url
            &&& message.subrange(url_end as int, url_end + 2int) == ": "@
            &&& message.subrange(url_end + 2int, text_end as int) == failure.text@
            &&& message.skip(text_end as int) == closing
        }),
{
    reveal_strlit(": ");
    let opening = if failure.is_timeout {
        "Request timeout to "@
    } else if failure.is_connect {
        "Connection failed to "@
    } else if failure.is_request {
        "Request error to "@
    } else {
        "Network error to "@
    };
    let closing = if !failure.is_timeout && failure.is_connect {
        " - Check if backend server is running"@
    } else {
        Seq::<char>::empty()
    };
    let message = request_failure_message(failure, url);
    let url_end = opening.len() + url.len();
    let text_end = url_end + 2 + failure.text@.len();
    assert(message =~= opening + url + ": "@ + failure.text@ + closing);
    assert(message.take(opening.len() as int) =~= opening);
    assert(message.subrange(opening.len() as int, url_end as int) =~= url);
    assert(message.subrange(url_end as int, url_end + 2int) =~= ": "@);
    assert(message.subrange(url_end + 2int, text_end as int) =~= failure.text@);
    assert(message.skip(text_end as int) =~= closing);
}

/// What is said of a request that was given up ends with the whole address and tells the seconds.
pub proof fn timeout_message_tells_all(url: Seq<char>, seconds: u64)
    ensures
        ({
            let opening = "Request hung/timed out after "@;
            let middle = " seconds to "@;
            let number = crate::text::decimal(seconds as int);
            let message = timeout_message(url, seconds);
            let number_end = opening.len() + number.len();
            let middle_end = number_end + middle.len();
            &&& message.len() == middle_end + url.len()
            &&& message.take(opening.len() as int) == opening
            &&& message.subrange(opening.len() as int, number_end as int) == number
            &&& message.subrange(number_end as int, middle_end as int) == middle
            &&& message.skip(middle_end as int) == url
        }),
{
    let opening = "Request hung/timed out after "@;
    let middle = " seconds to "@;
    let number = crate::text::decimal(seconds as int);
    let message = timeout_message(url, seconds);
    let number_end = opening.len() + number.len();
    let middle_end = number_end + middle.len();
    assert(message.take(opening.len() as int) =~= opening);
    assert(message.subrange(opening.len() as int, number_end as int) =~= number);
    assert(message.subrange(number_end as int, middle_end as int) =~= middle);
    assert(message.skip(middle_end as int) =~= url);
}

} // verus!
