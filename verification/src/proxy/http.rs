//! How the proxy forwards HTTP requests.
use crate::json::{Doc, JsonView};
use crate::proxy::limits::KodoConfig;
use crate::proxy::validation;
use crate::proxy::validation::{ForwardMetadata, ForwardMetadataError};
use crate::{json, text};
use serde_json::Value;
use vstd::prelude::*;
use vstd::string::*;

verus! {

/// The largest answer of a broker, in bytes.
pub const MAX_BACKEND_RESPONSE_BYTES: usize = 16_777_216;

/// The ports on which a gateway for Kodo serves statistics, one for each ordinal.
pub const KODO_STATS_HTTP_PORTS: [u16; 3] = [4151, 4154, 4155];

/// The port on which a gateway for Kodo serves its metrics.
pub const KODO_METRICS_HTTP_PORT: u16 = 4160;

/// How long a gateway gathers statistics, in nanoseconds.
pub const KODO_STATS_TIMEOUT: u128 = 10_000_000_000;

/// An answer of the proxy itself.
#[derive(Clone, Copy, Debug, PartialEq, Eq)]
pub struct ProxyReply {
    pub status: u16,
    pub body: &'static str,
    /// After how many seconds the caller may try again.
    pub retry_after: Option<u64>,
}

/// `ProxyReply` with its body as a text.
pub struct ProxyReplyView {
    pub status: u16,
    pub body: Seq<char>,
    pub retry_after: Option<u64>,
}

impl View for ProxyReply {
    type V = ProxyReplyView;

    open spec fn view(&self) -> ProxyReplyView {
        ProxyReplyView { status: self.status, body: self.body@, retry_after: self.retry_after }
    }
}

/// An answer to stay with.
pub open spec fn final_answer(status: u16, body: Seq<char>) -> ProxyReplyView {
    ProxyReplyView { status, body, retry_after: None }
}

/// An answer after which the caller may try again in a second.
pub open spec fn retryable(status: u16, body: Seq<char>) -> ProxyReplyView {
    ProxyReplyView { status, body, retry_after: Some(1) }
}

/// No broker takes the request.
pub fn unavailable() -> (r: ProxyReply)
    ensures
        r@ == retryable(503, "E_NO_BROKER no publish-ready broker"@),
{
    ProxyReply { status: 503, body: "E_NO_BROKER no publish-ready broker", retry_after: Some(1) }
}

/// Nobody knows whether the request was carried out.
pub fn ambiguous() -> (r: ProxyReply)
    ensures
        r@ == final_answer(
            502,
            "E_AMBIGUOUS backend may have committed the request; automatic retry is unsafe"@,
        ),
{
    ProxyReply {
        status: 502,
        body: "E_AMBIGUOUS backend may have committed the request; automatic retry is unsafe",
        retry_after: None,
    }
}

/// The request is too large.
pub fn body_too_large() -> (r: ProxyReply)
    ensures
        r@ == final_answer(413, "E_BAD_BODY body exceeds proxy limit"@),
{
    ProxyReply { status: 413, body: "E_BAD_BODY body exceeds proxy limit", retry_after: None }
}

/// The request did not arrive in time.
pub fn body_timeout() -> (r: ProxyReply)
    ensures
        r@ == final_answer(408, "E_BODY_TIMEOUT proxy request body read timed out"@),
{
    ProxyReply {
        status: 408,
        body: "E_BODY_TIMEOUT proxy request body read timed out",
        retry_after: None,
    }
}

/// There is no memory for the request.
pub fn throttled() -> (r: ProxyReply)
    ensures
        r@ == retryable(429, "E_THROTTLED proxy publish byte budget is exhausted"@),
{
    ProxyReply {
        status: 429,
        body: "E_THROTTLED proxy publish byte budget is exhausted",
        retry_after: Some(1),
    }
}

/// There is no memory for statistics.
pub fn stats_throttled() -> (r: ProxyReply)
    ensures
        r@ == retryable(429, "E_THROTTLED proxy stats byte budget is exhausted"@),
{
    ProxyReply {
        status: 429,
        body: "E_THROTTLED proxy stats byte budget is exhausted",
        retry_after: Some(1),
    }
}

/// The statistics were not gathered in time.
pub fn stats_timeout() -> (r: ProxyReply)
    ensures
        r@ == final_answer(504, "E_STATS_TIMEOUT proxy stats collection timed out"@),
{
    ProxyReply {
        status: 504,
        body: "E_STATS_TIMEOUT proxy stats collection timed out",
        retry_after: None,
    }
}

/// The answer to a ping.
pub fn ping() -> (r: &'static str)
    ensures
        r@ == "OK"@,
{
    "OK"
}

/// Whether the proxy is ready: it is where it knows a broker.
pub fn health(brokers: usize) -> (r: (u16, Value))
    ensures
        r.0 == if brokers > 0 {
            200u16
        } else {
            503u16
        },
        json::json_held(r.1) == JsonView::object().text(
            "status"@,
            if brokers > 0 {
                "ready"@
            } else {
                "not_ready"@
            },
        ).number("brokers"@, brokers as int),
{
    if brokers > 0 {
        (200, Doc::new().text("status", "ready").count("brokers", brokers as u64).done())
    } else {
        (503, Doc::new().text("status", "not_ready").count("brokers", brokers as u64).done())
    }
}

/// Whether a method changes nothing.
pub open spec fn reads_only(method: Seq<char>) -> bool {
    method == "GET"@ || method == "HEAD"@ || method == "OPTIONS"@
}

/// Whether a request with this method may be sent again.
pub fn retry_safe_method(method: &str) -> (r: bool)
    ensures
        r == reads_only(method@),
{
    text::str_eq(method, "GET") || text::str_eq(method, "HEAD") || text::str_eq(method, "OPTIONS")
}

/// Whether a header of a request is passed on to the broker. Names are in lower case.
pub fn forwards_header(name: &str) -> (r: bool)
    ensures
        r == (name@ != "host"@ && name@ != "content-length"@),
{
    !text::str_eq(name, "host") && !text::str_eq(name, "content-length")
}

/// Whether a header of an answer is passed on to the caller. Names are in lower case.
pub fn returns_header(name: &str) -> (r: bool)
    ensures
        r == (name@ != "content-length"@ && name@ != "transfer-encoding"@),
{
    !text::str_eq(name, "content-length") && !text::str_eq(name, "transfer-encoding")
}

/// The settings of a gateway that serves the statistics of another ordinal.
pub fn state_for_stats_shard(config: &KodoConfig, ordinal: usize) -> (r: KodoConfig)
    ensures
        r == (KodoConfig { ordinal, ..*config }),
{
    KodoConfig {
        ordinal,
        cleanup_enabled: config.cleanup_enabled,
        cleanup_token: text::clone_opt(&config.cleanup_token),
        registry_token: text::clone_opt(&config.registry_token),
    }
}

/// What a port serves.
#[derive(Clone, Copy, Debug, PartialEq, Eq, Structural)]
pub enum Listener {
    /// Everything; of a gateway for Kodo with the statistics of this ordinal.
    Full(Option<usize>),
    /// Metrics.
    Metrics,
}

/// The ports that are served, with what they serve. A gateway for Kodo serves fixed ports.
pub fn listeners(kodo: bool, port: u16) -> (r: Option<Vec<(u16, Listener)>>)
    ensures
        r is None <==> kodo && port != KODO_STATS_HTTP_PORTS[0],
        r matches Some(v) ==> v@ == if kodo {
            Seq::empty().push((4151u16, Listener::Full(Some(0)))).push(
                (4154u16, Listener::Full(Some(1))),
            ).push((4155u16, Listener::Full(Some(2)))).push((4160u16, Listener::Metrics))
        } else {
            Seq::empty().push((port, Listener::Full(None)))
        },
{
    let mut v: Vec<(u16, Listener)> = Vec::new();
    if kodo {
        if port != KODO_STATS_HTTP_PORTS[0] {
            return None;
        }
        v.push((KODO_STATS_HTTP_PORTS[0], Listener::Full(Some(0))));
        v.push((KODO_STATS_HTTP_PORTS[1], Listener::Full(Some(1))));
        v.push((KODO_STATS_HTTP_PORTS[2], Listener::Full(Some(2))));
        v.push((KODO_METRICS_HTTP_PORT, Listener::Metrics));
    } else {
        v.push((port, Listener::Full(None)));
    }
    Some(v)
}

/// A request that is being forwarded.
#[derive(Clone, Debug)]
pub struct Forward {
    /// The path and the query that brokers are asked for.
    pub path_and_query: String,
    /// Whether the request may be sent again.
    pub retry_safe: bool,
    /// The largest body, in bytes.
    pub max_body_bytes: usize,
    pub stage: Stage,
}

/// How far a request has come.
#[derive(Clone, Copy, Debug, PartialEq, Eq, Structural)]
pub enum Stage {
    /// Memory is asked for.
    Reserving,
    /// The body is read.
    Reading,
    /// Brokers are chosen.
    Choosing,
    /// The request was sent to the broker at a position, out of so many brokers.
    Sent { position: usize, brokers: usize },
    /// The answer of a broker is read.
    Relaying,
    /// The request was answered.
    Answered,
}

/// What happened to a request.
#[derive(Clone, Copy, Debug, PartialEq, Eq, Structural)]
pub enum ForwardEvent {
    /// Whether there was memory.
    Reserved(bool),
    /// The body was read.
    BodyRead,
    /// The body was too large, or its sender failed.
    BodyFailed,
    /// The body did not arrive in time.
    BodyTimedOut,
    /// So many brokers were chosen.
    Chosen(usize),
    /// A broker has answered.
    Answer,
    /// A broker could not be asked, or it did not answer.
    SendFailed,
    /// Whether a broker's answer was read in full.
    AnswerRead(bool),
}

/// What is done with a request.
#[derive(Clone, Copy, Debug, PartialEq, Eq)]
pub enum ForwardAction {
    /// Ask for so much memory.
    Reserve(u32),
    /// Read at most so many bytes.
    ReadBody(usize),
    /// Choose at most so many brokers.
    Choose(usize),
    /// Send the request to the broker at this position.
    Send(usize),
    /// Read the broker's answer.
    ReadAnswer,
    /// Pass the broker's answer on.
    Relay,
    /// Answer; `ambiguous` where the failure is to be counted as ambiguous.
    Reply { reply: ProxyReply, ambiguous: bool },
}

/// `ForwardAction` with texts.
pub enum ForwardActionView {
    Reserve(u32),
    ReadBody(usize),
    Choose(usize),
    Send(usize),
    ReadAnswer,
    Relay,
    Reply { reply: ProxyReplyView, ambiguous: bool },
}

impl View for ForwardAction {
    type V = ForwardActionView;

    open spec fn view(&self) -> ForwardActionView {
        match self {
            ForwardAction::Reserve(n) => ForwardActionView::Reserve(*n),
            ForwardAction::ReadBody(n) => ForwardActionView::ReadBody(*n),
            ForwardAction::Choose(n) => ForwardActionView::Choose(*n),
            ForwardAction::Send(n) => ForwardActionView::Send(*n),
            ForwardAction::ReadAnswer => ForwardActionView::ReadAnswer,
            ForwardAction::Relay => ForwardActionView::Relay,
            ForwardAction::Reply { reply, ambiguous } => ForwardActionView::Reply {
                reply: reply@,
                ambiguous: *ambiguous,
            },
        }
    }
}

/// An answer that is not counted as ambiguous.
pub open spec fn says(reply: ProxyReplyView) -> ForwardActionView {
    ForwardActionView::Reply { reply, ambiguous: false }
}

/// What is done with a request that came too late to be carried out once for sure.
pub open spec fn given_up(retry_safe: bool) -> ForwardActionView {
    if retry_safe {
        says(retryable(503, "E_NO_BROKER no publish-ready broker"@))
    } else {
        ForwardActionView::Reply {
            reply: final_answer(
                502,
                "E_AMBIGUOUS backend may have committed the request; automatic retry is unsafe"@,
            ),
            ambiguous: true,
        }
    }
}

/// What is done first with a request: it is refused, or memory is asked for.
pub open spec fn first_action(
    kodo: bool,
    metadata: Result<(Seq<char>, Option<nat>), ForwardMetadataError>,
    max_body_bytes: nat,
) -> ForwardActionView {
    if kodo {
        says(final_answer(404, "E_NOT_FOUND Kodo Gateway HTTP forwarding is disabled"@))
    } else {
        match metadata {
            Err(ForwardMetadataError::BodyTooLarge) => says(
                final_answer(413, "E_BAD_BODY body exceeds proxy limit"@),
            ),
            Err(ForwardMetadataError::Invalid) => says(
                final_answer(400, "E_BAD_REQUEST invalid proxy request"@),
            ),
            Ok((_, declared)) => {
                let bytes = match declared {
                    Some(n) => n,
                    None => max_body_bytes,
                };
                let reserved = if bytes == 0 {
                    1
                } else {
                    bytes
                };
                if reserved > u32::MAX {
                    says(retryable(429, "E_THROTTLED proxy publish byte budget is exhausted"@))
                } else {
                    ForwardActionView::Reserve(reserved as u32)
                }
            },
        }
    }
}

/// What is done after something has happened to a request, and how far it has come then.
/// Nothing where that cannot happen at this stage.
pub open spec fn next_action(
    stage: Stage,
    retry_safe: bool,
    max_body_bytes: usize,
    event: ForwardEvent,
) -> Option<(Stage, ForwardActionView)> {
    match (stage, event) {
        (Stage::Reserving, ForwardEvent::Reserved(true)) => Some(
            (Stage::Reading, ForwardActionView::ReadBody(max_body_bytes)),
        ),
        (Stage::Reserving, ForwardEvent::Reserved(false)) => Some(
            (
                Stage::Answered,
                says(retryable(429, "E_THROTTLED proxy publish byte budget is exhausted"@)),
            ),
        ),
        (Stage::Reading, ForwardEvent::BodyRead) => Some(
            (
                Stage::Choosing,
                ForwardActionView::Choose(
                    if retry_safe {
                        2
                    } else {
                        1
                    },
                ),
            ),
        ),
        (Stage::Reading, ForwardEvent::BodyFailed) => Some(
            (Stage::Answered, says(final_answer(413, "E_BAD_BODY body exceeds proxy limit"@))),
        ),
        (Stage::Reading, ForwardEvent::BodyTimedOut) => Some(
            (
                Stage::Answered,
                says(final_answer(408, "E_BODY_TIMEOUT proxy request body read timed out"@)),
            ),
        ),
        (Stage::Choosing, ForwardEvent::Chosen(brokers)) => if brokers == 0 {
            Some(
                (Stage::Answered, says(retryable(503, "E_NO_BROKER no publish-ready broker"@))),
            )
        } else {
            Some((Stage::Sent { position: 0, brokers }, ForwardActionView::Send(0)))
        },
        (Stage::Sent { .. }, ForwardEvent::Answer) => Some(
            (Stage::Relaying, ForwardActionView::ReadAnswer),
        ),
        (Stage::Sent { position, brokers }, ForwardEvent::SendFailed) => if position + 1 < brokers {
            Some(
                (
                    Stage::Sent { position: (position + 1) as usize, brokers },
                    ForwardActionView::Send((position + 1) as usize),
                ),
            )
        } else {
            Some((Stage::Answered, given_up(retry_safe)))
        },
        (Stage::Relaying, ForwardEvent::AnswerRead(true)) => Some(
            (Stage::Answered, ForwardActionView::Relay),
        ),
        (Stage::Relaying, ForwardEvent::AnswerRead(false)) => Some(
            (Stage::Answered, given_up(retry_safe)),
        ),
        _ => None,
    }
}

fn answer_with(reply: ProxyReply) -> (r: ForwardAction)
    ensures
        r@ == says(reply@),
{
    ForwardAction::Reply { reply, ambiguous: false }
}

fn give_up(retry_safe: bool) -> (r: ForwardAction)
    ensures
        r@ == given_up(retry_safe),
{
    if retry_safe {
        answer_with(unavailable())
    } else {
        ForwardAction::Reply { reply: ambiguous(), ambiguous: true }
    }
}

impl Forward {
    /// Takes a request on, from what is forwarded of its head.
    pub fn begin(
        kodo: bool,
        method: &str,
        metadata: Result<ForwardMetadata, ForwardMetadataError>,
        max_body_bytes: usize,
    ) -> (r: (Forward, ForwardAction))
        ensures
            r.1@ == first_action(kodo, validation::metadata_view(metadata), max_body_bytes as nat),
            r.0.retry_safe == reads_only(method@),
            r.0.max_body_bytes == max_body_bytes,
            r.0.stage == if r.1@ is Reserve {
                Stage::Reserving
            } else {
                Stage::Answered
            },
            r.1@ is Reserve ==> (metadata matches Ok(m) && r.0.path_and_query@ == m.path_and_query@),
    {
        let retry_safe = retry_safe_method(method);
        let refused = Forward {
            path_and_query: String::new(),
            retry_safe,
            max_body_bytes,
            stage: Stage::Answered,
        };
        if kodo {
            let reply = ProxyReply {
                status: 404,
                body: "E_NOT_FOUND Kodo Gateway HTTP forwarding is disabled",
                retry_after: None,
            };
            return (refused, answer_with(reply));
        }
        match metadata {
            Err(ForwardMetadataError::BodyTooLarge) => (refused, answer_with(body_too_large())),
            Err(ForwardMetadataError::Invalid) => {
                let reply = ProxyReply {
                    status: 400,
                    body: "E_BAD_REQUEST invalid proxy request",
                    retry_after: None,
                };
                (refused, answer_with(reply))
            },
            Ok(metadata) => {
                let bytes: usize = match metadata.declared_bytes {
                    Some(n) => n,
                    None => max_body_bytes,
                };
                let reserved: usize = if bytes == 0 {
                    1
                } else {
                    bytes
                };
                if reserved as u64 > u32::MAX as u64 {
                    return (refused, answer_with(throttled()));
                }
                let taken = Forward {
                    path_and_query: metadata.path_and_query,
                    retry_safe,
                    max_body_bytes,
                    stage: Stage::Reserving,
                };
                (taken, ForwardAction::Reserve(reserved as u32))
            },
        }
    }

    /// Goes on after something has happened. Where that cannot happen at this stage the
    /// request stays as it is.
    pub fn next(&mut self, event: ForwardEvent) -> (r: Option<ForwardAction>)
        ensures
            final(self).path_and_query == old(self).path_and_query,
            final(self).retry_safe == old(self).retry_safe,
            final(self).max_body_bytes == old(self).max_body_bytes,
            match next_action(
                old(self).stage,
                old(self).retry_safe,
                old(self).max_body_bytes,
                event,
            ) {
                Some((stage, action)) => r matches Some(a) && a@ == action && final(self).stage
                    == stage,
                None => r is None && final(self).stage == old(self).stage,
            },
    {
        match (self.stage, event) {
            (Stage::Reserving, ForwardEvent::Reserved(true)) => {
                self.stage = Stage::Reading;
                Some(ForwardAction::ReadBody(self.max_body_bytes))
            },
            (Stage::Reserving, ForwardEvent::Reserved(false)) => {
                self.stage = Stage::Answered;
                Some(answer_with(throttled()))
            },
            (Stage::Reading, ForwardEvent::BodyRead) => {
                self.stage = Stage::Choosing;
                Some(
                    ForwardAction::Choose(
                        if self.retry_safe {
                            2
                        } else {
                            1
                        },
                    ),
                )
            },
            (Stage::Reading, ForwardEvent::BodyFailed) => {
                self.stage = Stage::Answered;
                Some(answer_with(body_too_large()))
            },
            (Stage::Reading, ForwardEvent::BodyTimedOut) => {
                self.stage = Stage::Answered;
                Some(answer_with(body_timeout()))
            },
            (Stage::Choosing, ForwardEvent::Chosen(brokers)) => {
                if brokers == 0 {
                    self.stage = Stage::Answered;
                    Some(answer_with(unavailable()))
                } else {
                    self.stage = Stage::Sent { position: 0, brokers };
                    Some(ForwardAction::Send(0))
                }
            },
            (Stage::Sent { .. }, ForwardEvent::Answer) => {
                self.stage = Stage::Relaying;
                Some(ForwardAction::ReadAnswer)
            },
            (Stage::Sent { position, brokers }, ForwardEvent::SendFailed) => {
                if position < brokers && position + 1 < brokers {
                    self.stage = Stage::Sent { position: position + 1, brokers };
                    Some(ForwardAction::Send(position + 1))
                } else {
                    self.stage = Stage::Answered;
                    Some(give_up(self.retry_safe))
                }
            },
            (Stage::Relaying, ForwardEvent::AnswerRead(read)) => {
                self.stage = Stage::Answered;
                if read {
                    Some(ForwardAction::Relay)
                } else {
                    Some(give_up(self.retry_safe))
                }
            },
            _ => None,
        }
    }
}

/// Whether a stage can be reached: as many brokers were chosen as were asked for, or fewer.
pub open spec fn reachable(stage: Stage, retry_safe: bool) -> bool {
    stage matches Stage::Sent { position, brokers } ==> position < brokers && brokers <= (
    if retry_safe {
        2
    } else {
        1int
    })
}

/// Whether an event can happen at a stage: no more brokers are chosen than were asked for.
pub open spec fn possible(retry_safe: bool, event: ForwardEvent) -> bool {
    event matches ForwardEvent::Chosen(n) ==> n <= (if retry_safe {
        2
    } else {
        1int
    })
}

/// A request that changes something is sent once: after it was sent, whatever happens, it is
/// not sent again. Every request is sent twice at most.
pub proof fn law_mutating_requests_are_sent_once(
    stage: Stage,
    retry_safe: bool,
    max_body_bytes: usize,
    event: ForwardEvent,
)
    requires
        reachable(stage, retry_safe),
        possible(retry_safe, event),
    ensures
        next_action(stage, retry_safe, max_body_bytes, event) matches Some((after, action)) ==> {
            &&& reachable(after, retry_safe)
            &&& action matches ForwardActionView::Send(n) ==> n < 2 && (stage is Sent
                ==> retry_safe)
        },
{
}

/// A request that changes something, and that was sent without an answer that could be read in
/// full, is answered as ambiguous, and is not to be tried again.
pub proof fn law_lost_answers_are_ambiguous(
    stage: Stage,
    max_body_bytes: usize,
    event: ForwardEvent,
)
    requires
        reachable(stage, false),
        (stage is Sent && event is SendFailed) || (stage is Relaying && event
            == ForwardEvent::AnswerRead(false)),
    ensures
        next_action(stage, false, max_body_bytes, event) matches Some((_, action)) && (
        action matches ForwardActionView::Reply { reply, ambiguous } && ambiguous && reply.status
            == 502 && reply.retry_after is None),
{
}

/// Without a broker the caller is asked to try again.
pub proof fn law_no_broker_is_retryable(retry_safe: bool, max_body_bytes: usize)
    ensures
        next_action(Stage::Choosing, retry_safe, max_body_bytes, ForwardEvent::Chosen(0)) matches Some(
            (_, action),
        ) && (action matches ForwardActionView::Reply { reply, ambiguous } && !ambiguous
            && reply.status == 503 && reply.retry_after == Some(1u64)),
{
}

/// A request takes memory for the body that it declares, or for the largest one where it
/// declares none, and at least for a byte; it is turned away only where that cannot be had.
pub proof fn law_requests_take_memory_for_their_body(
    path: Seq<char>,
    declared: Option<nat>,
    max_body_bytes: nat,
)
    ensures
        ({
            let action = first_action(false, Ok((path, declared)), max_body_bytes);
            let size = if declared is Some {
                declared->0
            } else {
                max_body_bytes
            };
            &&& 1 <= size <= u32::MAX ==> action == ForwardActionView::Reserve(size as u32)
            &&& size == 0 ==> action == ForwardActionView::Reserve(1)
            &&& size > u32::MAX ==> (action matches ForwardActionView::Reply { reply, ambiguous }
                && reply.status == 429 && reply.retry_after == Some(1u64) && !ambiguous)
        }),
{
}

/// Requests that cannot be forwarded are told why: gateways for Kodo forward none, bodies have
/// a limit, and targets have to be readable.
pub proof fn law_refusals_tell_the_reason(
    metadata: Result<(Seq<char>, Option<nat>), ForwardMetadataError>,
    max_body_bytes: nat,
)
    ensures
        first_action(true, metadata, max_body_bytes) matches ForwardActionView::Reply {
            reply,
            ambiguous,
        } && reply.status == 404 && reply.retry_after is None && !ambiguous,
        metadata == Err::<(Seq<char>, Option<nat>), ForwardMetadataError>(
            ForwardMetadataError::BodyTooLarge,
        ) ==> (first_action(false, metadata, max_body_bytes) matches ForwardActionView::Reply {
            reply,
            ambiguous,
        } && reply.status == 413 && reply.retry_after is None),
        metadata == Err::<(Seq<char>, Option<nat>), ForwardMetadataError>(
            ForwardMetadataError::Invalid,
        ) ==> (first_action(false, metadata, max_body_bytes) matches ForwardActionView::Reply {
            reply,
            ambiguous,
        } && reply.status == 400 && reply.retry_after is None),
{
}

/// A request goes its way step by step: with memory its body is read, then brokers are chosen,
/// the first of them is asked, and its answer is passed on as it is.
pub proof fn law_requests_go_their_way(
    retry_safe: bool,
    max_body_bytes: usize,
    position: usize,
    brokers: usize,
)
    ensures
        next_action(Stage::Reserving, retry_safe, max_body_bytes, ForwardEvent::Reserved(true))
            == Some((Stage::Reading, ForwardActionView::ReadBody(max_body_bytes))),
        next_action(Stage::Reading, retry_safe, max_body_bytes, ForwardEvent::BodyRead) matches Some(
            (stage, action),
        ) && stage is Choosing && (action matches ForwardActionView::Choose(n) && n >= 1 && (n == 2
            <==> retry_safe) && n <= 2),
        brokers > 0 ==> next_action(
            Stage::Choosing,
            retry_safe,
            max_body_bytes,
            ForwardEvent::Chosen(brokers),
        ) == Some((Stage::Sent { position: 0, brokers }, ForwardActionView::Send(0))),
        next_action(
            Stage::Sent { position, brokers },
            retry_safe,
            max_body_bytes,
            ForwardEvent::Answer,
        ) == Some((Stage::Relaying, ForwardActionView::ReadAnswer)),
        next_action(Stage::Relaying, retry_safe, max_body_bytes, ForwardEvent::AnswerRead(true))
            == Some((Stage::Answered, ForwardActionView::Relay)),
{
}

/// A request that changes nothing is sent to the next broker where one does not answer, and is
/// answered as one that may be tried again where none is left.
pub proof fn law_reads_go_to_the_next_broker(
    max_body_bytes: usize,
    position: usize,
    brokers: usize,
)
    requires
        position < brokers,
    ensures
        position + 1 < brokers ==> next_action(
            Stage::Sent { position, brokers },
            true,
            max_body_bytes,
            ForwardEvent::SendFailed,
        ) == Some(
            (
                Stage::Sent { position: (position + 1) as usize, brokers },
                ForwardActionView::Send((position + 1) as usize),
            ),
        ),
        position + 1 == brokers ==> (next_action(
            Stage::Sent { position, brokers },
            true,
            max_body_bytes,
            ForwardEvent::SendFailed,
        ) matches Some((_, action)) && (action matches ForwardActionView::Reply { reply, ambiguous }
            && reply.status == 503 && reply.retry_after == Some(1u64) && !ambiguous)),
        next_action(
            Stage::Relaying,
            true,
            max_body_bytes,
            ForwardEvent::AnswerRead(false),
        ) matches Some((_, action)) && (action matches ForwardActionView::Reply { reply, ambiguous }
            && reply.status == 503 && !ambiguous),
{
}

/// Failures before a broker was asked are told as what they are, and none of them as ambiguous.
pub proof fn law_failures_before_a_broker_are_not_ambiguous(
    retry_safe: bool,
    max_body_bytes: usize,
)
    ensures
        next_action(
            Stage::Reserving,
            retry_safe,
            max_body_bytes,
            ForwardEvent::Reserved(false),
        ) matches Some((_, action)) && (action matches ForwardActionView::Reply { reply, ambiguous }
            && reply.status == 429 && reply.retry_after == Some(1u64) && !ambiguous),
        next_action(Stage::Reading, retry_safe, max_body_bytes, ForwardEvent::BodyFailed) matches Some(
            (_, action),
        ) && (action matches ForwardActionView::Reply { reply, ambiguous } && reply.status == 413
            && !ambiguous),
        next_action(
            Stage::Reading,
            retry_safe,
            max_body_bytes,
            ForwardEvent::BodyTimedOut,
        ) matches Some((_, action)) && (action matches ForwardActionView::Reply { reply, ambiguous }
            && reply.status == 408 && !ambiguous),
{
}

/// Reading, and nothing else, may be done twice: publishing and deleting may not.
pub proof fn law_only_reads_may_be_repeated()
    ensures
        reads_only("GET"@),
        reads_only("HEAD"@),
        reads_only("OPTIONS"@),
        !reads_only("POST"@),
        !reads_only("PUT"@),
        !reads_only("DELETE"@),
        !reads_only("PATCH"@),
{
    reveal_strlit("GET");
    reveal_strlit("HEAD");
    reveal_strlit("OPTIONS");
    reveal_strlit("POST");
    reveal_strlit("PUT");
    reveal_strlit("DELETE");
    reveal_strlit("PATCH");
    assert("GET"@[0] == 'G' && "HEAD"@[0] == 'H' && "OPTIONS"@[0] == 'O' && "POST"@[0] == 'P'
        && "PUT"@[0] == 'P' && "DELETE"@[0] == 'D' && "PATCH"@[0] == 'P');
}

/// The proxy is ready exactly while it knows a broker.
pub proof fn law_ready_with_a_broker(brokers: usize, r: (u16, Value))
    requires
        call_ensures(health, (brokers,), r),
    ensures
        r.0 == 200 <==> brokers > 0,
        r.0 == 503 <==> brokers == 0,
        json::member(json::json_held(r.1), "brokers"@) == Some(JsonView::Number(brokers as int)),
{
    reveal(JsonView::with);
}

/// A gateway for Kodo serves each ordinal on a port of its own, and its metrics on another;
/// any other proxy serves the port that it is given.
pub proof fn law_ports_are_served_once(kodo: bool, port: u16, r: Option<Vec<(u16, Listener)>>)
    requires
        call_ensures(listeners, (kodo, port), r),
        r is Some,
    ensures
        forall|i: int, j: int|
            0 <= i < j < r->0@.len() ==> (#[trigger] r->0@[i]).0 != (#[trigger] r->0@[j]).0,
        r->0@[0].0 == port,
        kodo ==> r->0@.len() == 4 && forall|n: usize|
            n < 3 ==> (#[trigger] r->0@[n as int]).1 == Listener::Full(Some(n)) && r->0@[n as int].0
                == KODO_STATS_HTTP_PORTS[n as int],
        !kodo ==> r->0@.len() == 1 && r->0@[0].1 == Listener::Full(None),
{
}

} // verus!
