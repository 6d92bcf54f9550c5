//! The decisions of the HTTP boundary: who is let in, and what each route
//! answers and does to the coordinator.

use vstd::prelude::*;
use crate::auth::{authorized, verify_signature};
use crate::coordinator::{Coordinator, QueueSnapshot};
use crate::state::StartCommand;

verus! {

/// The body of a webhook call.
#[derive(Debug)]
pub struct Payload {
    pub parameters: Option<Vec<(String, String)>>,
}

impl Default for Payload {
    fn default() -> (p: Payload)
        ensures
            p.parameters is None,
    {
        Payload { parameters: None }
    }
}

/// What a route answers.
#[derive(Debug)]
pub enum Reply {
    /// 200 with an empty body.
    Accepted,
    /// 200 with a plain-text body.
    Text(String),
    /// 200 with the queue projection, to be sent as JSON.
    Queue(QueueSnapshot),
    /// 400: the body of a POST could not be read as a payload.
    BadRequest,
    /// 401: the signature is missing or wrong.
    Unauthorized,
    /// 503: no further task id can be given out.
    Unavailable,
}

impl Reply {
    /// The HTTP status code of each reply.
    pub open spec fn code(self) -> u16 {
        match self {
            Reply::Accepted => 200,
            Reply::Text(_) => 200,
            Reply::Queue(_) => 200,
            Reply::BadRequest => 400,
            Reply::Unauthorized => 401,
            Reply::Unavailable => 503,
        }
    }

    /// The HTTP status code to send.
    pub fn status_code(&self) -> (c: u16)
        ensures
            c == self.code(),
    {
        match self {
            Reply::Accepted => 200,
            Reply::Text(_) => 200,
            Reply::Queue(_) => 200,
            Reply::BadRequest => 400,
            Reply::Unauthorized => 401,
            Reply::Unavailable => 503,
        }
    }
}

/// What a webhook call led to: the answer, and the start commands to send
/// to the workers.
#[derive(Debug)]
pub struct WebhookResult {
    pub reply: Reply,
    pub started: Vec<StartCommand>,
}

/// The parameters of the task that a webhook call asks for. A POST takes
/// them from its payload, and is malformed (`None`) when no payload could
/// be read from its body; a payload without parameters, and any other
/// method, gives none.
pub fn webhook_parameters(is_post: bool, parsed: Option<Payload>) -> (r: Option<
    Vec<(String, String)>,
>)
    ensures
        r is None <==> is_post && parsed is None,
        is_post && parsed is Some && parsed.unwrap().parameters is Some ==> r
            == parsed.unwrap().parameters,
        !is_post || (parsed is Some && parsed.unwrap().parameters is None) ==> r is Some
            && r.unwrap()@.len() == 0,
{
    if !is_post {
        return Some(Vec::new());
    }
    match parsed {
        None => None,
        Some(payload) => match payload.parameters {
            Some(parameters) => Some(parameters),
            None => Some(Vec::new()),
        },
    }
}

/// The index route: the queue projection for a caller with the right
/// signature, 401 for any other. Discloses nothing before the signature is
/// checked, and changes nothing.
pub fn index(coordinator: &Coordinator, expected: &[u8], presented: Option<&[u8]>) -> (reply: Reply)
    ensures
        match reply {
            Reply::Queue(snapshot) => authorized(expected@, presented) && snapshot.shows(
                coordinator@,
            ),
            Reply::Unauthorized => !authorized(expected@, presented),
            _ => false,
        },
{
    if !verify_signature(expected, presented) {
        return Reply::Unauthorized;
    }
    Reply::Queue(coordinator.get_queue_snapshot())
}

/// The webhook route. Without the right signature: 401, and nothing
/// changes. With it: 400 for a malformed body (`parameters` is `None`), 503
/// when the ids are used up, and otherwise the task `name` with
/// `parameters` is submitted and dispatched, and the answer is 200 at once.
pub fn webhook(
    coordinator: &mut Coordinator,
    name: String,
    parameters: Option<Vec<(String, String)>>,
    expected: &[u8],
    presented: Option<&[u8]>,
    now: u64,
) -> (r: WebhookResult)
    requires
        old(coordinator)@.wf(),
    ensures
        final(coordinator)@.wf(),
        r.reply.code() == (if !authorized(expected@, presented) {
            401u16
        } else if parameters is None {
            400u16
        } else if old(coordinator)@.next_id == u64::MAX {
            503u16
        } else {
            200u16
        }),
        r.reply.code() == 200 ==> r.reply == Reply::Accepted && final(coordinator)@ == old(
            coordinator,
        )@.enqueue(name, parameters.unwrap(), now).dispatch(now) && r.started@ == old(
            coordinator,
        )@.enqueue(name, parameters.unwrap(), now).dispatch_commands(now),
        r.reply.code() != 200 ==> final(coordinator)@ == old(coordinator)@ && r.started@
            == Seq::<StartCommand>::empty(),
        r.reply.code() == 401 ==> r.reply == Reply::Unauthorized,
        r.reply.code() == 400 ==> r.reply == Reply::BadRequest,
        r.reply.code() == 503 ==> r.reply == Reply::Unavailable,
{
    if !verify_signature(expected, presented) {
        return WebhookResult { reply: Reply::Unauthorized, started: Vec::new() };
    }
    match parameters {
        None => WebhookResult { reply: Reply::BadRequest, started: Vec::new() },
        Some(parameters) => {
            if !coordinator.can_submit() {
                return WebhookResult { reply: Reply::Unavailable, started: Vec::new() };
            }
            let started = coordinator.submit(name, parameters, now);
            WebhookResult { reply: Reply::Accepted, started }
        },
    }
}

/// The health check: always 200 with the plain text `Hello!`, whatever the
/// state of the coordinator.
pub fn healthcheck() -> (reply: Reply)
    ensures
        reply matches Reply::Text(body) && body@ == "Hello!"@,
{
    Reply::Text("Hello!".to_owned())
}

} // verus!
