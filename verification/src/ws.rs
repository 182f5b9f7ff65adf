//! Tracking of job completion by the messages that the ComfyUI backend sends over a WebSocket.
//!
//! Jobs are identified by prompt_id, and a circular buffer remembers those that completed
//! recently.
use vstd::prelude::*;

use crate::json::{Json, JsonTree};
use crate::text::same_text;

verus! {

/// Maximum number of completed job IDs to keep in memory.
/// Using a circular buffer prevents unbounded memory growth.
pub const COMPLETED_JOBS_CAPACITY: usize = 100;

/// The pause between two looks at the completed jobs, in milliseconds.
pub const COMPLETION_POLL_MILLIS: u64 = 500;

/// Circular buffer for efficiently tracking recently completed job IDs.
///
/// Stores up to COMPLETED_JOBS_CAPACITY job IDs in a fixed-size circular buffer. When full, new
/// entries overwrite the oldest ones. This enables quick checking of whether a job has recently
/// completed without memory leaks.
pub struct CompletedJobsBuffer {
    /// Fixed-size vector of completed job IDs
    jobs: Vec<String>,
    /// Current write position in the circular buffer
    index: usize,
    /// Flag indicating if the buffer has been filled once
    is_full: bool,
}

impl CompletedJobsBuffer {
    #[verifier::type_invariant]
    spec fn well_formed(self) -> bool {
        &&& self.jobs@.len() <= COMPLETED_JOBS_CAPACITY
        &&& self.index < COMPLETED_JOBS_CAPACITY
        &&& !self.is_full ==> self.index == 0
        &&& self.is_full == (self.jobs@.len() == COMPLETED_JOBS_CAPACITY)
    }

    /// The job IDs in the order in which they stand in the buffer.
    pub closed spec fn slots(self) -> Seq<Seq<char>> {
        self.jobs@.map_values(|job: String| job@)
    }

    /// The slot that is written next once the buffer is full.
    pub closed spec fn position(self) -> int {
        self.index as int
    }

    /// The buffer has been filled once.
    pub closed spec fn filled(self) -> bool {
        self.is_full
    }

    /// The slots and the write position are within bounds, and the flag tells of a full buffer.
    pub open spec fn in_bounds(self) -> bool {
        &&& within_bounds(self.slots(), self.position())
        &&& self.filled() == (self.slots().len() == COMPLETED_JOBS_CAPACITY)
    }

    /// The job IDs, from the oldest to the newest.
    pub open spec fn recent(self) -> Seq<Seq<char>> {
        oldest_first(self.slots(), self.position())
    }
}

/// There are no more slots than the capacity, the write position is one of them, and it is the
/// first until the buffer has been filled.
pub open spec fn within_bounds(slots: Seq<Seq<char>>, position: int) -> bool {
    &&& slots.len() <= COMPLETED_JOBS_CAPACITY
    &&& 0 <= position < COMPLETED_JOBS_CAPACITY
    &&& slots.len() < COMPLETED_JOBS_CAPACITY ==> position == 0
}

/// What stands in slots, from the oldest, which the write position points to, to the newest.
pub open spec fn oldest_first(slots: Seq<Seq<char>>, position: int) -> Seq<Seq<char>> {
    Seq::new(slots.len(), |i: int| slots[(position + i) % COMPLETED_JOBS_CAPACITY as int])
}

/// Slots and write position after one more job: it is appended below capacity; at capacity it
/// overwrites the slot at the write position, which moves forward.
pub open spec fn written(slots: Seq<Seq<char>>, position: int, job: Seq<char>) -> (
    Seq<Seq<char>>,
    int,
) {
    if slots.len() < COMPLETED_JOBS_CAPACITY {
        (slots.push(job), position)
    } else {
        (slots.update(position, job), (position + 1) % COMPLETED_JOBS_CAPACITY as int)
    }
}

/// Slots and write position after jobs that completed one after the other.
pub open spec fn written_all(completed: Seq<Seq<char>>) -> (Seq<Seq<char>>, int)
    decreases completed.len(),
{
    if completed.len() == 0 {
        (Seq::empty(), 0)
    } else {
        let (slots, position) = written_all(completed.drop_last());
        written(slots, position, completed.last())
    }
}

impl View for CompletedJobsBuffer {
    type V = Seq<Seq<char>>;

    open spec fn view(&self) -> Seq<Seq<char>> {
        self.recent()
    }
}

/// The remembered jobs after one more: the oldest is dropped where they would be too many.
pub open spec fn remembered(jobs: Seq<Seq<char>>, job: Seq<char>) -> Seq<Seq<char>> {
    if jobs.len() < COMPLETED_JOBS_CAPACITY {
        jobs.push(job)
    } else {
        jobs.drop_first().push(job)
    }
}

/// What is remembered of jobs that completed one after the other.
pub open spec fn remembered_of(completed: Seq<Seq<char>>) -> Seq<Seq<char>>
    decreases completed.len(),
{
    if completed.len() == 0 {
        Seq::empty()
    } else {
        remembered(remembered_of(completed.drop_last()), completed.last())
    }
}

/// What is remembered are the last jobs, in order, as many as the capacity allows.
pub proof fn last_jobs_are_remembered(completed: Seq<Seq<char>>)
    ensures
        remembered_of(completed) == if completed.len() <= COMPLETED_JOBS_CAPACITY {
            completed
        } else {
            completed.skip(completed.len() - COMPLETED_JOBS_CAPACITY)
        },
    decreases completed.len(),
{
    if completed.len() == 0 {
        assert(remembered_of(completed) =~= completed);
    } else {
        last_jobs_are_remembered(completed.drop_last());
        if completed.len() <= COMPLETED_JOBS_CAPACITY {
            assert(remembered_of(completed) =~= completed);
        } else {
            assert(remembered_of(completed) =~= completed.skip(
                completed.len() - COMPLETED_JOBS_CAPACITY,
            ));
        }
    }
}

/// A job is remembered until as many others as the capacity have completed after it.
pub proof fn recent_job_is_remembered(completed: Seq<Seq<char>>, place: int)
    requires
        0 <= place < completed.len(),
        completed.len() - place <= COMPLETED_JOBS_CAPACITY,
    ensures
        remembered_of(completed).contains(completed[place]),
{
    last_jobs_are_remembered(completed);
    let kept = remembered_of(completed);
    if completed.len() <= COMPLETED_JOBS_CAPACITY {
        assert(kept[place] == completed[place]);
    } else {
        assert(kept[place - (completed.len() - COMPLETED_JOBS_CAPACITY)] == completed[place]);
    }
}

/// Memory stays bounded: one more job keeps slots and write position within bounds, and there are
/// as many slots as before and one more, up to the capacity. The remembered jobs change as they
/// should.
pub proof fn bounds_are_kept(slots: Seq<Seq<char>>, position: int, job: Seq<char>)
    requires
        within_bounds(slots, position),
    ensures
        ({
            let (after, next) = written(slots, position, job);
            &&& within_bounds(after, next)
            &&& after.len() == if slots.len() < COMPLETED_JOBS_CAPACITY {
                slots.len() + 1
            } else {
                COMPLETED_JOBS_CAPACITY as nat
            }
            &&& oldest_first(after, next) == remembered(oldest_first(slots, position), job)
        }),
{
    let (after, next) = written(slots, position, job);
    assert(oldest_first(after, next) =~= remembered(oldest_first(slots, position), job));
}

/// After some jobs the write position is that of the job beyond the capacity that comes next, and
/// what stands in the slots are the remembered jobs.
pub proof fn write_position_follows_jobs(completed: Seq<Seq<char>>)
    ensures
        ({
            let (slots, position) = written_all(completed);
            &&& within_bounds(slots, position)
            &&& slots.len() == if completed.len() < COMPLETED_JOBS_CAPACITY {
                completed.len()
            } else {
                COMPLETED_JOBS_CAPACITY as nat
            }
            &&& position == if completed.len() < COMPLETED_JOBS_CAPACITY {
                0
            } else {
                completed.len() % COMPLETED_JOBS_CAPACITY as nat
            }
            &&& oldest_first(slots, position) == remembered_of(completed)
        }),
    decreases completed.len(),
{
    if completed.len() == 0 {
        assert(oldest_first(Seq::empty(), 0) =~= Seq::<Seq<char>>::empty());
    } else {
        write_position_follows_jobs(completed.drop_last());
        let (slots, position) = written_all(completed.drop_last());
        bounds_are_kept(slots, position, completed.last());
    }
}

impl CompletedJobsBuffer {
    /// Create a new empty circular buffer.
    pub fn new() -> (buffer: CompletedJobsBuffer)
        ensures
            buffer@ == Seq::<Seq<char>>::empty(),
            buffer.slots() == Seq::<Seq<char>>::empty(),
            buffer.position() == 0,
            !buffer.filled(),
            buffer.in_bounds(),
    {
        let buffer = CompletedJobsBuffer {
            jobs: Vec::with_capacity(COMPLETED_JOBS_CAPACITY),
            index: 0,
            is_full: false,
        };
        assert(buffer.slots() =~= Seq::<Seq<char>>::empty());
        assert(buffer@ =~= Seq::<Seq<char>>::empty());
        buffer
    }

    /// Add a completed job ID to the circular buffer.
    ///
    /// If the buffer is not yet full, appends to the end.
    /// If full, overwrites the oldest entry and moves the index forward.
    pub fn add(&mut self, job_id: String)
        ensures
            final(self)@ == remembered(old(self)@, job_id@),
            (final(self).slots(), final(self).position()) == written(
                old(self).slots(),
                old(self).position(),
                job_id@,
            ),
            old(self).in_bounds(),
            final(self).in_bounds(),
    {
        proof {
            use_type_invariant(&*self);
        }
        let ghost before = self.slots();
        let ghost position = self.position();
        let ghost added = job_id@;
        let mut emptied = CompletedJobsBuffer { jobs: Vec::new(), index: 0, is_full: false };
        std::mem::swap(&mut emptied, self);
        let CompletedJobsBuffer { mut jobs, index, .. } = emptied;
        if jobs.len() < COMPLETED_JOBS_CAPACITY {
            jobs.push(job_id);
            let filled = jobs.len() == COMPLETED_JOBS_CAPACITY;
            *self = CompletedJobsBuffer { jobs, index, is_full: filled };
            assert(self.slots() =~= before.push(added));
        } else {
            jobs.set(index, job_id);
            let next: usize = (index + 1) % COMPLETED_JOBS_CAPACITY;
            *self = CompletedJobsBuffer { jobs, index: next, is_full: true };
            assert(self.slots() =~= before.update(position, added));
        }
        proof {
            bounds_are_kept(before, position, added);
        }
    }

    /// Check if a job ID is in the completed jobs buffer.
    ///
    /// Returns true if the job_id has been recorded in the buffer.
    /// Note: Only recent jobs are tracked (up to COMPLETED_JOBS_CAPACITY).
    pub fn contains(&self, job_id: &str) -> (found: bool)
        ensures
            found == self@.contains(job_id@),
            self.in_bounds(),
    {
        proof {
            use_type_invariant(self);
        }
        for i in 0..self.jobs.len()
            invariant
                self.well_formed(),
                forall|j: int| 0 <= j < i ==> (#[trigger] self.jobs@[j])@ != job_id@,
        {
            if same_text(self.jobs[i].as_str(), job_id) {
                proof {
                    let place = (i - self.index + COMPLETED_JOBS_CAPACITY)
                        % COMPLETED_JOBS_CAPACITY as int;
                    assert(0 <= place < self.jobs@.len());
                    assert((self.index + place) % COMPLETED_JOBS_CAPACITY as int == i);
                    assert(self@[place] == job_id@);
                }
                return true;
            }
        }
        proof {
            assert forall|k: int| 0 <= k < self@.len() implies self@[k] != job_id@ by {
                assert(self@[k] == self.jobs@[(self.index + k) % COMPLETED_JOBS_CAPACITY as int]@);
            }
        }
        false
    }
}

/// The job whose completion a message tells: an "executing" event with the node `null`.
pub open spec fn completed_job(message: JsonTree) -> Option<Seq<char>> {
    if message.text_member("type"@) != Some("executing"@) {
        None
    } else {
        match message.object_member("data"@) {
            None => None,
            Some(data) => if JsonTree::Object(data).member("node"@) == Some(JsonTree::Null) {
                JsonTree::Object(data).text_member("prompt_id"@)
            } else {
                None
            },
        }
    }
}

/// The job whose completion a text message tells. One that is no JSON tells none.
pub open spec fn job_completed_by(text: Seq<char>) -> Option<Seq<char>> {
    match crate::document::parsed_json_text(text) {
        Ok(message) => completed_job(message),
        Err(_) => None,
    }
}

/// The job whose completion a message tells.
///
/// ComfyUI WebSocket message format:
/// ```json
/// {
///   "type": "executing",
///   "data": {
///     "prompt_id": "...",
///     "node": null          // null = job complete, otherwise node ID
///   }
/// }
/// ```
pub fn find_completed_job(message: &Json) -> (job: Option<String>)
    ensures
        match job {
            Some(job) => completed_job(message@) == Some(job@),
            None => completed_job(message@) is None,
        },
{
    match message.get_str("type") {
        Some(kind) => {
            if !same_text(kind, "executing") {
                return None;
            }
        },
        None => {
            return None;
        },
    }
    let data = match message.get_object("data") {
        Some(data) => data,
        None => {
            return None;
        },
    };
    match data.get("node") {
        Some(node) => {
            if !node.is_null() {
                return None;
            }
        },
        None => {
            return None;
        },
    }
    match data.get("prompt_id") {
        Some(prompt_id) => match prompt_id.as_str() {
            Some(prompt_id) => Some(prompt_id.to_owned()),
            None => None,
        },
        None => None,
    }
}

/// What comes out of the WebSocket.
pub enum SocketEvent {
    /// A text message
    Text(String),
    /// A message of another kind
    Other,
    /// The connection failed
    Failed,
    /// The connection was closed by the server
    Closed,
}

/// What remains to be done for a job that is waited for.
#[derive(Clone, Copy, PartialEq, Eq, Structural, Debug)]
pub enum JobWait {
    /// Nothing: it has completed
    Done,
    /// To look again after a pause
    LookAgain {
        /// The pause in milliseconds
        after_millis: u64,
    },
}

/// Follows the messages of a persistent WebSocket connection to the ComfyUI backend.
///
/// The connection to ws://backend:port/ws?clientId=X tells of execution progress and completion
/// of jobs.
pub struct WebSocketManager {
    /// Circular buffer of recently completed job IDs
    completed_jobs: CompletedJobsBuffer,
}

impl View for WebSocketManager {
    type V = Seq<Seq<char>>;

    closed spec fn view(&self) -> Seq<Seq<char>> {
        self.completed_jobs@
    }
}

/// The address of the WebSocket of a backend.
pub open spec fn socket_address(
    backend_url: Seq<char>,
    backend_port: Seq<char>,
    client_id: Seq<char>,
) -> Seq<char> {
    "ws://"@ + backend_url + ":"@ + backend_port + "/ws?clientId="@ + client_id
}

/// The remembered jobs after an event.
pub open spec fn after_event(jobs: Seq<Seq<char>>, event: SocketEvent) -> Seq<Seq<char>> {
    match event {
        SocketEvent::Text(text) => match job_completed_by(text@) {
            Some(job) => remembered(jobs, job),
            None => jobs,
        },
        _ => jobs,
    }
}

impl WebSocketManager {
    /// A manager that knows of no completed job.
    pub fn new() -> (manager: WebSocketManager)
        ensures
            manager@ == Seq::<Seq<char>>::empty(),
    {
        WebSocketManager { completed_jobs: CompletedJobsBuffer::new() }
    }

    /// The address to connect to: ws://backend:port/ws?clientId=clientId.
    pub fn socket_url(backend_url: &str, backend_port: &str, client_id: &str) -> (url: String)
        ensures
            url@ == socket_address(backend_url@, backend_port@, client_id@),
    {
        let mut url = "ws://".to_owned();
        url.append(backend_url);
        url.append(":");
        url.append(backend_port);
        url.append("/ws?clientId=");
        url.append(client_id);
        url
    }

    /// Takes in what came out of the WebSocket, and says whether to go on listening.
    ///
    /// Looks for "executing" events with null node values, which indicate job completion, and
    /// remembers the jobs that finish. Listening ends when the connection is lost.
    pub fn message_listener(&mut self, event: &SocketEvent) -> (listening: bool)
        ensures
            final(self)@ == after_event(old(self)@, *event),
            listening == !(*event is Failed || *event is Closed),
    {
        match event {
            SocketEvent::Text(text) => {
                match Json::from_str(text.as_str()) {
                    Ok(message) => match find_completed_job(&message) {
                        Some(job) => {
                            self.completed_jobs.add(job);
                        },
                        None => {},
                    },
                    Err(_) => {},
                }
                true
            },
            SocketEvent::Other => true,
            SocketEvent::Failed => false,
            SocketEvent::Closed => false,
        }
    }

    /// Looks whether a job has completed.
    ///
    /// Since the messages that come in fill the buffer of completed jobs, looking again and again
    /// waits for the message that tells of the completion.
    pub fn wait_for_job_completion(&self, prompt_id: &str) -> (wait: JobWait)
        ensures
            wait == if self@.contains(prompt_id@) {
                JobWait::Done
            } else {
                JobWait::LookAgain { after_millis: COMPLETION_POLL_MILLIS }
            },
    {
        if self.completed_jobs.contains(prompt_id) {
            JobWait::Done
        } else {
            JobWait::LookAgain { after_millis: COMPLETION_POLL_MILLIS }
        }
    }
}

/// What a manager remembers after the events that came in one after the other.
pub open spec fn after_events(events: Seq<SocketEvent>) -> Seq<Seq<char>>
    decreases events.len(),
{
    if events.len() == 0 {
        Seq::empty()
    } else {
        after_event(after_events(events.drop_last()), events.last())
    }
}

/// The jobs whose completion events tell, in order.
pub open spec fn completions(events: Seq<SocketEvent>) -> Seq<Seq<char>>
    decreases events.len(),
{
    if events.len() == 0 {
        Seq::empty()
    } else {
        match events.last() {
            SocketEvent::Text(text) => match job_completed_by(text@) {
                Some(job) => completions(events.drop_last()).push(job),
                None => completions(events.drop_last()),
            },
            _ => completions(events.drop_last()),
        }
    }
}

/// A manager remembers the jobs whose completion it was told of, the last as many as the capacity
/// allows, and no others.
pub proof fn told_completions_are_remembered(events: Seq<SocketEvent>)
    ensures
        after_events(events) == remembered_of(completions(events)),
    decreases events.len(),
{
    if events.len() > 0 {
        told_completions_are_remembered(events.drop_last());
        let before = completions(events.drop_last());
        if let SocketEvent::Text(text) = events.last() {
            if let Some(job) = job_completed_by(text@) {
                assert(before.push(job).drop_last() =~= before);
            }
        }
    }
}

/// A message tells the completion of a job where it is an `executing` event whose data give `null`
/// for the node and the job's prompt id, whatever text that is.
pub proof fn executing_without_node_is_completion(
    members: Seq<(Seq<char>, JsonTree)>,
    data: Seq<(Seq<char>, JsonTree)>,
    job: Seq<char>,
)
    requires
        crate::json::keys_ascend(members),
        members.contains(("data"@, JsonTree::Object(data))),
        crate::json::keys_ascend(data),
    ensures
        completed_job(JsonTree::Object(members)) == Some(job) <==> {
            &&& members.contains(("type"@, JsonTree::Text("executing"@)))
            &&& data.contains(("node"@, JsonTree::Null))
            &&& data.contains(("prompt_id"@, JsonTree::Text(job)))
        },
{
    crate::json::typed_member_is_found_by_key(members, "type"@);
    crate::json::typed_member_is_found_by_key(members, "data"@);
    crate::json::typed_member_is_found_by_key(data, "prompt_id"@);
    crate::json::member_is_found_by_key(data, "node"@, JsonTree::Null);
    assert(JsonTree::Object(members).text_member("type"@) == Some("executing"@) <==> members.contains(
        ("type"@, JsonTree::Text("executing"@)),
    ));
    assert(JsonTree::Object(data).text_member("prompt_id"@) == Some(job) <==> data.contains(
        ("prompt_id"@, JsonTree::Text(job)),
    ));
}

/// A message without an object of data tells no completion.
pub proof fn completion_needs_data(message: JsonTree)
    requires
        message matches JsonTree::Object(members) ==> crate::json::keys_ascend(members) && forall|
            data: Seq<(Seq<char>, JsonTree)>,
        | !(#[trigger] members.contains(("data"@, JsonTree::Object(data)))),
    ensures
        completed_job(message) is None,
{
    if let JsonTree::Object(members) = message {
        crate::json::typed_member_is_found_by_key(members, "data"@);
        if let Some(data) = message.object_member("data"@) {
            assert(members.contains(("data"@, JsonTree::Object(data))));
        }
    }
}

/// After a message that tells the completion of a job, the job is among the remembered ones, as
/// the newest.
pub proof fn told_job_is_remembered(
    jobs: Seq<Seq<char>>,
    event: SocketEvent,
    members: Seq<(Seq<char>, JsonTree)>,
    data: Seq<(Seq<char>, JsonTree)>,
    job: Seq<char>,
)
    requires
        event matches SocketEvent::Text(text) && crate::document::parsed_json_text(text@) == Ok::<
            JsonTree,
            Seq<char>,
        >(JsonTree::Object(members)),
        crate::json::keys_ascend(members),
        members.contains(("type"@, JsonTree::Text("executing"@))),
        members.contains(("data"@, JsonTree::Object(data))),
        crate::json::keys_ascend(data),
        data.contains(("node"@, JsonTree::Null)),
        data.contains(("prompt_id"@, JsonTree::Text(job))),
    ensures
        after_event(jobs, event).contains(job),
        after_event(jobs, event).len() > 0,
        after_event(jobs, event).last() == job,
        jobs.len() < COMPLETED_JOBS_CAPACITY ==> after_event(jobs, event).drop_last() == jobs,
        jobs.len() >= COMPLETED_JOBS_CAPACITY ==> after_event(jobs, event).drop_last()
            == jobs.drop_first(),
{
    executing_without_node_is_completion(members, data, job);
    let after = after_event(jobs, event);
    assert(after[after.len() - 1] == job);
    if jobs.len() < COMPLETED_JOBS_CAPACITY {
        assert(after.drop_last() =~= jobs);
    } else {
        assert(after.drop_last() =~= jobs.drop_first());
    }
}

/// An event that is no text, no JSON, or tells no completion leaves the remembered jobs.
pub proof fn other_events_change_nothing(jobs: Seq<Seq<char>>, event: SocketEvent)
    requires
        event matches SocketEvent::Text(text) ==> (crate::document::parsed_json_text(
            text@,
        ) matches Ok(message) ==> completed_job(message) is None),
    ensures
        after_event(jobs, event) == jobs,
{
}

/// The address of the WebSocket is made of host, port and client, each whole and at its place.
pub proof fn socket_address_has_its_parts(
    backend_url: Seq<char>,
    backend_port: Seq<char>,
    client_id: Seq<char>,
)
    ensures
        ({
            let address = socket_address(backend_url, backend_port, client_id);
            let host_end = 5 + backend_url.len() as int;
            let port_end = host_end + 1 + backend_port.len();
            &&& address.len() == port_end + 13 + client_id.len()
            &&& address.subrange(0, 5) == "ws://"@
            &&& address.subrange(5, host_end) == backend_url
            &&& address.subrange(host_end, host_end + 1) == ":"@
            &&& address.subrange(host_end + 1, port_end) == backend_port
            &&& address.subrange(port_end, port_end + 13) == "/ws?clientId="@
            &&& address.skip(port_end + 13) == client_id
        }),
{
    reveal_strlit("ws://");
    reveal_strlit(":");
    reveal_strlit("/ws?clientId=");
    let address = socket_address(backend_url, backend_port, client_id);
    let host_end = 5 + backend_url.len() as int;
    let port_end = host_end + 1 + backend_port.len();
    assert(address.subrange(0, 5) =~= "ws://"@);
    assert(address.subrange(5, host_end) =~= backend_url);
    assert(address.subrange(host_end, host_end + 1) =~= ":"@);
    assert(address.subrange(host_end + 1, port_end) =~= backend_port);
    assert(address.subrange(port_end, port_end + 13) =~= "/ws?clientId="@);
    assert(address.skip(port_end + 13) =~= client_id);
}

} // verus!
