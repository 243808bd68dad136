//! A gateway at which the protocol of producers ends.
use crate::discovery::model::VERSION;
use crate::json::{Doc, JsonView};
use crate::protocol::command::Command;
use crate::protocol::frame::FrameType;
use crate::protocol::identify::{IdentifyRequest, IdentifyResponse, IdentifyResponseView};
use crate::protocol::{frame, MAGIC_V2, OK};
use crate::proxy::backend::{Backend, BackendPool};
use crate::{digest, json, text, wire};
use serde_json::Value;
use vstd::prelude::*;
use vstd::slice::slice_to_vec;
use vstd::string::*;
use vstd::utf8::*;

verus! {

/// The largest frame of a broker, in bytes.
pub const MAX_BACKEND_FRAME_BYTES: usize = 1_048_576;

/// How long a connection to a broker may take, in nanoseconds.
pub const BACKEND_CONNECT_TIMEOUT: u128 = 2_000_000_000;

/// How long a broker may take to answer IDENTIFY, in nanoseconds.
pub const BACKEND_IDENTIFY_TIMEOUT: u128 = 5_000_000_000;

/// How long it may take to send a message to a broker, in nanoseconds.
pub const BACKEND_WRITE_TIMEOUT: u128 = 12_000_000_000;

/// How long a broker may take to answer a message, in nanoseconds.
pub const BACKEND_TIMEOUT: u128 = 15_000_000_000;

/// How many brokers are tried for one message.
pub const MAX_PUBLISH_ATTEMPTS: usize = 3;

/// How long a producer may have to wait for the answer to a message, in nanoseconds.
pub const PUBLISH_DEADLINE: u128 = 55_000_000_000;

/// How much of that time must be left for another broker to be tried.
pub const NEW_ATTEMPT_BUDGET: u128 = 34_000_000_000;

/// How long Kodo's producers wait for an answer, in nanoseconds.
pub const PRODUCER_TIMEOUT: u128 = 60_000_000_000;

/// How often heartbeats are sent unless the producer asks otherwise, in milliseconds.
pub const DEFAULT_HEARTBEAT_MS: u64 = 30_000;

/// Two slow attempts that fail before a broker has the message, and a third that succeeds, fit
/// the time that Kodo's producers wait.
pub proof fn law_slow_attempts_fit_the_producer_timeout()
    ensures
        BACKEND_CONNECT_TIMEOUT + BACKEND_IDENTIFY_TIMEOUT + BACKEND_WRITE_TIMEOUT
            + NEW_ATTEMPT_BUDGET < PUBLISH_DEADLINE,
        PUBLISH_DEADLINE < PRODUCER_TIMEOUT,
        NEW_ATTEMPT_BUDGET >= BACKEND_CONNECT_TIMEOUT + BACKEND_IDENTIFY_TIMEOUT
            + BACKEND_WRITE_TIMEOUT + BACKEND_TIMEOUT,
{
}

/// Whether some bytes begin with others.
pub open spec fn begins(s: Seq<u8>, p: Seq<u8>) -> bool {
    p.len() <= s.len() && s.take(p.len() as int) == p
}

fn begins_with(s: &[u8], p: &[u8]) -> (r: bool)
    ensures
        r == begins(s@, p@),
{
    if p.len() > s.len() {
        return false;
    }
    let mut i: usize = 0;
    while i < p.len()
        invariant
            i <= p@.len() <= s@.len(),
            forall|j: int| 0 <= j < i ==> s@[j] == p@[j],
        decreases p@.len() - i,
    {
        if s[i] != p[i] {
            assert(s@.take(p@.len() as int)[i as int] != p@[i as int]);
            return false;
        }
        i += 1;
    }
    assert(s@.take(p@.len() as int) =~= p@);
    true
}

/// Whether a producer speaks the protocol, by the bytes that it sends first.
pub fn speaks_v2(magic: &[u8]) -> (r: bool)
    ensures
        r == (magic@ == MAGIC_V2@),
{
    wire::same_bytes(magic, MAGIC_V2.as_slice())
}

/// Whether a broker's error says that it does not have the message, and another broker may
/// take it.
pub open spec fn retriable(body: Seq<u8>) -> bool {
    ||| begins(body, encode_utf8("E_DRAINING"@))
    ||| begins(body, encode_utf8("E_CLOSING"@))
    ||| begins(body, encode_utf8("E_THROTTLED"@))
    ||| begins(body, encode_utf8("E_PUB_RETRY"@))
}

/// Whether a broker's error says that it does not have the message, and another broker may
/// take it.
pub fn retriable_error(body: &[u8]) -> (r: bool)
    ensures
        r == retriable(body@),
{
    begins_with(body, digest::text_bytes("E_DRAINING")) || begins_with(
        body,
        digest::text_bytes("E_CLOSING"),
    ) || begins_with(body, digest::text_bytes("E_THROTTLED")) || begins_with(
        body,
        digest::text_bytes("E_PUB_RETRY"),
    )
}

/// The size of a frame's body, by the size that stands before it; nothing where that is not
/// allowed.
pub fn frame_body_size(size: u32) -> (r: Option<usize>)
    ensures
        r == if 4 <= size <= MAX_BACKEND_FRAME_BYTES {
            Some((size - 4) as usize)
        } else {
            None
        },
{
    if 4 <= size && size as usize <= MAX_BACKEND_FRAME_BYTES {
        Some(size as usize - 4)
    } else {
        None
    }
}

/// What came of sending a message to a broker.
#[derive(Debug)]
pub enum BrokerEvent {
    /// The message was not sent in full.
    NotSent,
    /// The message was handed over, but it is not known whether it arrived.
    NotFlushed,
    /// The broker has answered.
    Frame { frame_type: i32, body: Vec<u8> },
    /// The answer could not be read.
    ReadFailed(String),
    /// There was no answer in time.
    TimedOut,
}

/// What became of a message at a broker.
#[derive(Debug)]
pub enum Attempt {
    /// The broker has it.
    Success,
    /// The broker does not have it, and another one may take it.
    Retry(Vec<u8>),
    /// The broker refuses it.
    Final(Vec<u8>),
    /// Nobody knows.
    Ambiguous(String),
}

/// `BrokerEvent` with its texts.
pub enum BrokerEventView {
    NotSent,
    NotFlushed,
    Frame { frame_type: int, body: Seq<u8> },
    ReadFailed(Seq<char>),
    TimedOut,
}

/// `Attempt` with its texts.
pub enum AttemptView {
    Success,
    Retry(Seq<u8>),
    Final(Seq<u8>),
    Ambiguous(Seq<char>),
}

impl View for BrokerEvent {
    type V = BrokerEventView;

    open spec fn view(&self) -> BrokerEventView {
        match self {
            BrokerEvent::NotSent => BrokerEventView::NotSent,
            BrokerEvent::NotFlushed => BrokerEventView::NotFlushed,
            BrokerEvent::Frame { frame_type, body } => BrokerEventView::Frame {
                frame_type: *frame_type as int,
                body: body@,
            },
            BrokerEvent::ReadFailed(e) => BrokerEventView::ReadFailed(e@),
            BrokerEvent::TimedOut => BrokerEventView::TimedOut,
        }
    }
}

impl View for Attempt {
    type V = AttemptView;

    open spec fn view(&self) -> AttemptView {
        match self {
            Attempt::Success => AttemptView::Success,
            Attempt::Retry(e) => AttemptView::Retry(e@),
            Attempt::Final(e) => AttemptView::Final(e@),
            Attempt::Ambiguous(e) => AttemptView::Ambiguous(e@),
        }
    }
}

/// What became of a message, by what came of sending it.
pub open spec fn judged(event: BrokerEventView) -> AttemptView {
    match event {
        BrokerEventView::NotSent => AttemptView::Retry(
            encode_utf8(
                "E_PUB_RETRY Broker connection failed before the publish body was complete"@,
            ),
        ),
        BrokerEventView::NotFlushed => AttemptView::Ambiguous(
            "Broker connection failed after sending the body"@,
        ),
        BrokerEventView::Frame { frame_type, body } => if frame_type
            == FrameType::Response.spec_number() && body == OK@ {
            AttemptView::Success
        } else if frame_type == FrameType::Error.spec_number() {
            if retriable(body) {
                AttemptView::Retry(body)
            } else {
                AttemptView::Final(body)
            }
        } else {
            AttemptView::Ambiguous("Broker returned an invalid publish response"@)
        },
        BrokerEventView::ReadFailed(e) => AttemptView::Ambiguous("Broker response failed: "@ + e),
        BrokerEventView::TimedOut => AttemptView::Ambiguous("Broker publish response timed out"@),
    }
}

/// What became of a message, by what came of sending it.
pub fn attempt(event: BrokerEvent) -> (r: Attempt)
    ensures
        r@ == judged(event@),
{
    match event {
        BrokerEvent::NotSent => Attempt::Retry(
            slice_to_vec(
                digest::text_bytes(
                    "E_PUB_RETRY Broker connection failed before the publish body was complete",
                ),
            ),
        ),
        BrokerEvent::NotFlushed => Attempt::Ambiguous(
            "Broker connection failed after sending the body".to_owned(),
        ),
        BrokerEvent::Frame { frame_type, body } => {
            if frame_type == 0 && wire::same_bytes(body.as_slice(), OK.as_slice()) {
                Attempt::Success
            } else if frame_type == 1 {
                if retriable_error(body.as_slice()) {
                    Attempt::Retry(body)
                } else {
                    Attempt::Final(body)
                }
            } else {
                Attempt::Ambiguous("Broker returned an invalid publish response".to_owned())
            }
        },
        BrokerEvent::ReadFailed(e) => {
            let mut detail = "Broker response failed: ".to_owned();
            detail.append(e.as_str());
            Attempt::Ambiguous(detail)
        },
        BrokerEvent::TimedOut => Attempt::Ambiguous("Broker publish response timed out".to_owned()),
    }
}

/// A message is only sent again where a broker does not have it: the body was not sent in full,
/// or the broker has said so.
pub proof fn law_only_failures_before_commit_are_retried(event: BrokerEventView)
    requires
        judged(event) is Retry,
    ensures
        event is NotSent || (event matches BrokerEventView::Frame { frame_type, body } && frame_type
            == FrameType::Error.spec_number() && retriable(body)),
{
}

/// Why a message was not published.
#[derive(Debug, Eq, PartialEq)]
pub enum PublishFailure {
    /// The broker's refusal.
    Final(Vec<u8>),
    /// No broker has it; the producer should connect to another gateway.
    RetryByReconnect,
    /// Nobody knows whether a broker has it.
    Ambiguous(Vec<u8>),
}

/// `PublishFailure` with its bytes.
pub enum PublishFailureView {
    Final(Seq<u8>),
    RetryByReconnect,
    Ambiguous(Seq<u8>),
}

impl View for PublishFailure {
    type V = PublishFailureView;

    open spec fn view(&self) -> PublishFailureView {
        match self {
            PublishFailure::Final(e) => PublishFailureView::Final(e@),
            PublishFailure::RetryByReconnect => PublishFailureView::RetryByReconnect,
            PublishFailure::Ambiguous(e) => PublishFailureView::Ambiguous(e@),
        }
    }
}

/// What follows from an attempt.
#[derive(Debug)]
pub enum Verdict {
    /// The message is published, and the connection can be used again.
    Published,
    /// Another broker is tried.
    TryAnother,
    /// The message is not published.
    Failed(PublishFailure),
}

/// `Verdict` with its bytes.
pub enum VerdictView {
    Published,
    TryAnother,
    Failed(PublishFailureView),
}

impl View for Verdict {
    type V = VerdictView;

    open spec fn view(&self) -> VerdictView {
        match self {
            Verdict::Published => VerdictView::Published,
            Verdict::TryAnother => VerdictView::TryAnother,
            Verdict::Failed(f) => VerdictView::Failed(f@),
        }
    }
}

/// What follows from an attempt.
pub open spec fn verdict_of(attempt: AttemptView) -> VerdictView {
    match attempt {
        AttemptView::Success => VerdictView::Published,
        AttemptView::Retry(_) => VerdictView::TryAnother,
        AttemptView::Final(e) => VerdictView::Failed(PublishFailureView::Final(e)),
        AttemptView::Ambiguous(detail) => VerdictView::Failed(
            PublishFailureView::Ambiguous(encode_utf8("E_AMBIGUOUS "@ + detail)),
        ),
    }
}

/// What follows from an attempt.
pub fn verdict(attempt: Attempt) -> (r: Verdict)
    ensures
        r@ == verdict_of(attempt@),
{
    match attempt {
        Attempt::Success => Verdict::Published,
        Attempt::Retry(_) => Verdict::TryAnother,
        Attempt::Final(e) => Verdict::Failed(PublishFailure::Final(e)),
        Attempt::Ambiguous(detail) => {
            let mut e = "E_AMBIGUOUS ".to_owned();
            e.append(detail.as_str());
            Verdict::Failed(PublishFailure::Ambiguous(slice_to_vec(digest::text_bytes(e.as_str()))))
        },
    }
}

/// After a message may have reached a broker, no other broker is tried.
pub proof fn law_messages_are_not_sent_twice(event: BrokerEventView)
    requires
        event is NotFlushed || event is ReadFailed || event is TimedOut,
    ensures
        verdict_of(judged(event)) is Failed,
        verdict_of(judged(event))->Failed_0 is Ambiguous,
{
}

/// The search for a broker that takes a message. Times are in nanoseconds.
#[derive(Debug)]
pub struct Publish {
    pub deadline: u128,
    /// The numbers of the brokers that were tried.
    pub attempted: Vec<u64>,
    /// The brokers to be tried.
    pub candidates: Vec<Backend>,
    /// How many of them were looked at.
    pub position: usize,
    /// Whether there were brokers to be tried.
    pub offered: bool,
}

/// `Publish` as values.
#[verifier::ext_equal]
pub struct PublishView {
    pub deadline: u128,
    pub attempted: Seq<u64>,
    pub candidates: Seq<Backend>,
    pub position: int,
    pub offered: bool,
}

impl View for Publish {
    type V = PublishView;

    open spec fn view(&self) -> PublishView {
        PublishView {
            deadline: self.deadline,
            attempted: self.attempted@,
            candidates: self.candidates@,
            position: self.position as int,
            offered: self.offered,
        }
    }
}

/// What is done next to publish a message.
#[derive(Debug)]
pub enum PublishStep {
    /// The connection that there is is used.
    UseCurrent,
    /// Brokers are drawn from the pool.
    Draw,
    /// A connection to a broker is made, and used.
    Connect(Backend),
    /// The message is published, or it is not.
    Done(Result<(), PublishFailure>),
}

/// `PublishStep` with its bytes.
pub enum PublishStepView {
    UseCurrent,
    Draw,
    Connect(Backend),
    Done(Result<(), PublishFailureView>),
}

impl View for PublishStep {
    type V = PublishStepView;

    open spec fn view(&self) -> PublishStepView {
        match self {
            PublishStep::UseCurrent => PublishStepView::UseCurrent,
            PublishStep::Draw => PublishStepView::Draw,
            PublishStep::Connect(b) => PublishStepView::Connect(*b),
            PublishStep::Done(Ok(())) => PublishStepView::Done(Ok(())),
            PublishStep::Done(Err(f)) => PublishStepView::Done(Err(f@)),
        }
    }
}

/// What came of a step.
#[derive(Debug)]
pub enum PublishEvent {
    /// These brokers were drawn.
    Drawn(Vec<Backend>),
    /// No connection was made.
    NotConnected,
    /// The message was sent, or it was tried to.
    Attempted(Attempt),
}

/// `PublishEvent` with its texts.
pub enum PublishEventView {
    Drawn(Seq<Backend>),
    NotConnected,
    Attempted(AttemptView),
}

impl View for PublishEvent {
    type V = PublishEventView;

    open spec fn view(&self) -> PublishEventView {
        match self {
            PublishEvent::Drawn(v) => PublishEventView::Drawn(v@),
            PublishEvent::NotConnected => PublishEventView::NotConnected,
            PublishEvent::Attempted(a) => PublishEventView::Attempted(a@),
        }
    }
}

/// What is done where no broker has settled the message yet: brokers are drawn once, then one
/// after the other is tried, and where none is left the producer connects elsewhere.
pub open spec fn searched(p: PublishView, now: u128) -> (PublishView, PublishStepView) {
    let found = untried(p.candidates, p.attempted, p.position);
    if !p.offered {
        (p, PublishStepView::Draw)
    } else if may_try(p.attempted, p.deadline, now) && found is Some {
        (
            PublishView {
                attempted: p.attempted.push(p.candidates[found->0].node_id),
                position: found->0 + 1,
                ..p
            },
            PublishStepView::Connect(p.candidates[found->0]),
        )
    } else {
        (p, PublishStepView::Done(Err(PublishFailureView::RetryByReconnect)))
    }
}

/// What is done after what came of a step. Brokers count the first time that they are drawn.
pub open spec fn stepped(p: PublishView, event: PublishEventView, now: u128) -> (
    PublishView,
    PublishStepView,
) {
    match event {
        PublishEventView::Drawn(candidates) => searched(
            if p.offered {
                p
            } else {
                PublishView { candidates, position: 0, offered: true, ..p }
            },
            now,
        ),
        PublishEventView::NotConnected => searched(p, now),
        PublishEventView::Attempted(attempt) => match verdict_of(attempt) {
            VerdictView::Published => (p, PublishStepView::Done(Ok(()))),
            VerdictView::Failed(f) => (p, PublishStepView::Done(Err(f))),
            VerdictView::TryAnother => searched(p, now),
        },
    }
}

/// The first broker from a position on that was not tried.
pub open spec fn untried(candidates: Seq<Backend>, attempted: Seq<u64>, k: int) -> Option<int>
    decreases candidates.len() - k,
{
    if k < 0 || k >= candidates.len() {
        None
    } else if !attempted.contains(candidates[k].node_id) {
        Some(k)
    } else {
        untried(candidates, attempted, k + 1)
    }
}

/// Whether another broker may be tried: not too many were, and enough time is left.
pub open spec fn may_try(attempted: Seq<u64>, deadline: u128, now: u128) -> bool {
    attempted.len() < MAX_PUBLISH_ATTEMPTS && deadline - now >= NEW_ATTEMPT_BUDGET
}

/// Whether the pool holds the broker of a connection.
pub open spec fn still_known(pool: BackendPool, current: Option<&Backend>) -> bool {
    match current {
        Some(c) => exists|i: int|
            0 <= i < pool.backends@.len() && (#[trigger] pool.backends@[i]).same_as(c),
        None => false,
    }
}

impl Publish {
    /// Whether no broker was tried twice, and not too many were.
    pub open spec fn wf(&self) -> bool {
        &&& self.attempted@.len() <= MAX_PUBLISH_ATTEMPTS
        &&& self.attempted@.no_duplicates()
    }

    /// Begins with a message: the connection that there is is used first, where its broker is
    /// still known.
    pub fn begin(current: Option<&Backend>, pool: &BackendPool, now: u128) -> (r: (
        Publish,
        PublishStep,
    ))
        requires
            now + PUBLISH_DEADLINE <= u128::MAX,
        ensures
            r.0.wf(),
            r.0@ == (PublishView {
                deadline: (now + PUBLISH_DEADLINE) as u128,
                attempted: if still_known(*pool, current) {
                    seq![current->0.node_id]
                } else {
                    Seq::empty()
                },
                candidates: Seq::empty(),
                position: 0,
                offered: false,
            }),
            r.1@ == if still_known(*pool, current) {
                PublishStepView::UseCurrent
            } else {
                PublishStepView::Draw
            },
    {
        let mut attempted: Vec<u64> = Vec::new();
        let reused = match current {
            Some(c) => pool.holds(c),
            None => false,
        };
        if reused {
            if let Some(c) = current {
                attempted.push(c.node_id);
            }
        }
        let step = if reused {
            PublishStep::UseCurrent
        } else {
            PublishStep::Draw
        };
        (
            Publish {
                deadline: now + PUBLISH_DEADLINE,
                attempted,
                candidates: Vec::new(),
                position: 0,
                offered: false,
            },
            step,
        )
    }

    /// What is done next.
    pub fn step(&mut self, event: PublishEvent, now: u128) -> (r: PublishStep)
        requires
            old(self).wf(),
        ensures
            final(self).wf(),
            (final(self)@, r@) == stepped(old(self)@, event@, now),
    {
        match event {
            PublishEvent::Drawn(candidates) => {
                if !self.offered {
                    self.candidates = candidates;
                    self.position = 0;
                    self.offered = true;
                }
            },
            PublishEvent::NotConnected => {},
            PublishEvent::Attempted(attempt) => match verdict(attempt) {
                Verdict::Published => {
                    return PublishStep::Done(Ok(()));
                },
                Verdict::Failed(f) => {
                    return PublishStep::Done(Err(f));
                },
                Verdict::TryAnother => {},
            },
        }
        if !self.offered {
            return PublishStep::Draw;
        }
        match self.next(now) {
            Some(backend) => PublishStep::Connect(backend),
            None => PublishStep::Done(Err(PublishFailure::RetryByReconnect)),
        }
    }

    fn tried(&self, node_id: u64) -> (r: bool)
        ensures
            r == self.attempted@.contains(node_id),
    {
        let mut i: usize = 0;
        while i < self.attempted.len()
            invariant
                i <= self.attempted@.len(),
                forall|j: int| 0 <= j < i ==> self.attempted@[j] != node_id,
            decreases self.attempted@.len() - i,
        {
            if self.attempted[i] == node_id {
                return true;
            }
            i += 1;
        }
        false
    }

    /// The broker to be tried next; nothing where no other is to be tried.
    fn next(&mut self, now: u128) -> (r: Option<Backend>)
        requires
            old(self).wf(),
        ensures
            final(self).wf(),
            final(self).deadline == old(self).deadline,
            final(self).candidates == old(self).candidates,
            final(self).offered == old(self).offered,
            ({
                let before = old(self).attempted@;
                let found = untried(old(self).candidates@, before, old(self).position as int);
                if may_try(before, old(self).deadline, now) && found is Some {
                    &&& r == Some(old(self).candidates@[found->0])
                    &&& final(self).attempted@ == before.push(
                        old(self).candidates@[found->0].node_id,
                    )
                    &&& final(self).position == found->0 + 1
                } else {
                    r is None && final(self).attempted@ == before && final(self).position == old(
                        self,
                    ).position
                }
            }),
    {
        if self.attempted.len() >= MAX_PUBLISH_ATTEMPTS || self.deadline < now || self.deadline
            - now < NEW_ATTEMPT_BUDGET {
            return None;
        }
        let mut k: usize = self.position;
        while k < self.candidates.len()
            invariant
                self == old(self),
                self.wf(),
                old(self).position <= k,
                untried(self.candidates@, self.attempted@, k as int) == untried(
                    self.candidates@,
                    self.attempted@,
                    old(self).position as int,
                ),
                may_try(self.attempted@, self.deadline, now),
            decreases self.candidates@.len() - k,
        {
            let node_id = self.candidates[k].node_id;
            if !self.tried(node_id) {
                let backend = self.candidates[k].duplicate();
                self.attempted.push(node_id);
                self.position = k + 1;
                proof {
                    let before = old(self).attempted@;
                    assert forall|i: int, j: int|
                        0 <= i < self.attempted@.len() && 0 <= j < self.attempted@.len() && i
                            != j implies self.attempted@[i] != self.attempted@[j] by {
                        if i < before.len() {
                            assert(before.contains(before[i]));
                        }
                        if j < before.len() {
                            assert(before.contains(before[j]));
                        }
                    }
                }
                return Some(backend);
            }
            k += 1;
        }
        None
    }
}

/// Every broker that is tried for a message was not tried before.
pub proof fn law_brokers_are_tried_once(
    candidates: Seq<Backend>,
    attempted: Seq<u64>,
    position: int,
)
    requires
        0 <= position,
    ensures
        untried(candidates, attempted, position) matches Some(k) ==> position <= k
            < candidates.len() && !attempted.contains(candidates[k].node_id),
    decreases candidates.len() - position,
{
    if position < candidates.len() && attempted.contains(candidates[position].node_id) {
        law_brokers_are_tried_once(candidates, attempted, position + 1);
    }
}

/// An attempt that does not ask for another broker is the last: a success publishes the
/// message, and an error or a lost answer is what the producer is told.
pub proof fn law_settled_attempts_are_the_last(p: PublishView, attempt: AttemptView, now: u128)
    ensures
        stepped(p, PublishEventView::Attempted(attempt), now).1 == match attempt {
            AttemptView::Success => PublishStepView::Done(Ok(())),
            AttemptView::Final(e) => PublishStepView::Done(Err(PublishFailureView::Final(e))),
            AttemptView::Ambiguous(detail) => PublishStepView::Done(
                Err(PublishFailureView::Ambiguous(encode_utf8("E_AMBIGUOUS "@ + detail))),
            ),
            AttemptView::Retry(_) => searched(p, now).1,
        },
{
}

/// Brokers are drawn once, none is tried twice and at most three are; each one that is tried
/// brings the search nearer to its end, and where none is left the producer connects elsewhere.
pub proof fn law_searches_end(p: PublishView, event: PublishEventView, now: u128)
    requires
        p.attempted.no_duplicates(),
        p.attempted.len() <= MAX_PUBLISH_ATTEMPTS,
        0 <= p.position,
    ensures
        ({
            let (q, step) = stepped(p, event, now);
            &&& q.attempted.no_duplicates()
            &&& q.attempted.len() <= MAX_PUBLISH_ATTEMPTS
            &&& p.offered ==> q.offered && !(step is Draw)
            &&& event is Drawn ==> !(step is Draw)
            &&& step matches PublishStepView::Connect(b) ==> q.attempted == p.attempted.push(
                b.node_id,
            ) && !p.attempted.contains(b.node_id)
            &&& step is Draw || step is Connect || step is Done
            &&& (event is Drawn || event is NotConnected) && q.offered && untried(
                q.candidates,
                p.attempted,
                if p.offered {
                    p.position
                } else {
                    0
                },
            ) is None ==> step == PublishStepView::Done(
                Err(PublishFailureView::RetryByReconnect),
            )
        }),
{
    let s = match event {
        PublishEventView::Drawn(candidates) => if p.offered {
            p
        } else {
            PublishView { candidates, position: 0, offered: true, ..p }
        },
        _ => p,
    };
    law_brokers_are_tried_once(s.candidates, s.attempted, s.position);
    let found = untried(s.candidates, s.attempted, s.position);
    if found is Some {
        let n = s.candidates[found->0].node_id;
        let after = s.attempted.push(n);
        assert forall|i: int, j: int|
            0 <= i < after.len() && 0 <= j < after.len() && i != j implies after[i] != after[j] by {
            if i < s.attempted.len() {
                assert(s.attempted.contains(s.attempted[i]));
            }
            if j < s.attempted.len() {
                assert(s.attempted.contains(s.attempted[j]));
            }
        }
    }
}

/// Where a search has come after some events, each at its time.
pub open spec fn after_events(p: PublishView, events: Seq<(PublishEventView, u128)>) -> PublishView
    decreases events.len(),
{
    if events.len() == 0 {
        p
    } else {
        stepped(after_events(p, events.drop_last()), events.last().0, events.last().1).0
    }
}

/// Whatever happens while a message is published, no broker is tried twice, and at most three
/// are.
pub proof fn law_messages_try_three_brokers_at_most(
    p: PublishView,
    events: Seq<(PublishEventView, u128)>,
)
    requires
        p.attempted.no_duplicates(),
        p.attempted.len() <= MAX_PUBLISH_ATTEMPTS,
        0 <= p.position,
    ensures
        after_events(p, events).attempted.no_duplicates(),
        after_events(p, events).attempted.len() <= MAX_PUBLISH_ATTEMPTS,
        0 <= after_events(p, events).position,
    decreases events.len(),
{
    if events.len() > 0 {
        let q = after_events(p, events.drop_last());
        law_messages_try_three_brokers_at_most(p, events.drop_last());
        law_searches_end(q, events.last().0, events.last().1);
        match events.last().0 {
            PublishEventView::Drawn(candidates) => {
                law_brokers_are_tried_once(candidates, q.attempted, 0);
            },
            _ => {},
        }
        law_brokers_are_tried_once(q.candidates, q.attempted, q.position);
    }
}

/// What a producer is told about a message.
#[derive(Debug)]
pub enum PublishReply {
    /// A success.
    Success,
    /// An error, after which the producer may go on.
    Error(Vec<u8>),
    /// An error, after which the connection is closed.
    ErrorAndClose(Vec<u8>),
    /// Nothing: the connection is closed, and the producer connects to another gateway.
    Close,
}

/// What a producer is told about a message.
pub fn publish_reply(result: Result<(), PublishFailure>) -> (r: PublishReply)
    ensures
        match result {
            Ok(()) => r is Success,
            Err(PublishFailure::Final(e)) => r == PublishReply::Error(e),
            Err(PublishFailure::RetryByReconnect) => r is Close,
            Err(PublishFailure::Ambiguous(e)) => r == PublishReply::ErrorAndClose(e),
        },
{
    match result {
        Ok(()) => PublishReply::Success,
        Err(PublishFailure::Final(e)) => PublishReply::Error(e),
        Err(PublishFailure::RetryByReconnect) => PublishReply::Close,
        Err(PublishFailure::Ambiguous(e)) => PublishReply::ErrorAndClose(e),
    }
}

/// What a gateway says of itself to a broker, from what its producer says.
pub open spec fn identify_for_broker(document: Option<JsonView>) -> Option<Seq<u8>> {
    match document {
        Some(d) => if d is Object {
            Some(
                json::json_bytes(
                    d.flag("feature_negotiation"@, true).number("heartbeat_interval"@, -1).flag(
                        "tls_v1"@,
                        false,
                    ).flag("snappy"@, false).flag("deflate"@, false),
                ),
            )
        } else {
            None
        },
        None => None,
    }
}

/// What an optional document holds.
pub open spec fn document_view(d: Option<Value>) -> Option<JsonView> {
    match d {
        Some(v) => Some(json::json_held(v)),
        None => None,
    }
}

/// Some bytes, where there are any.
pub open spec fn bytes_view(b: Option<Vec<u8>>) -> Option<Seq<u8>> {
    match b {
        Some(v) => Some(v@),
        None => None,
    }
}

/// What a gateway says of itself to a broker: what its producer says, without heartbeats,
/// encryption and compression.
pub fn backend_identify_of(document: Option<Value>) -> (r: Option<Vec<u8>>)
    ensures
        bytes_view(r) == identify_for_broker(document_view(document)),
{
    let value = match document {
        Some(v) => v,
        None => {
            return None;
        },
    };
    let object = match Doc::of_object(value) {
        Some(o) => o,
        None => {
            return None;
        },
    };
    let identify = object.flag("feature_negotiation", true).number("heartbeat_interval", -1).flag(
        "tls_v1",
        false,
    ).flag("snappy", false).flag("deflate", false).done();
    Some(json::json_to_vec(&identify))
}

/// What a gateway says of itself to a broker, from the body of its producer's IDENTIFY.
pub fn backend_identify_body(body: &[u8]) -> (r: Option<Vec<u8>>)
    ensures
        bytes_view(r) == identify_for_broker(json::json_read(body@)),
{
    backend_identify_of(json::json_from_slice(body))
}

/// What a gateway says of itself to a broker before its producer has said anything.
pub open spec fn default_identify() -> JsonView {
    JsonView::object().flag("feature_negotiation"@, true).number("heartbeat_interval"@, -1).flag(
        "tls_v1"@,
        false,
    ).flag("snappy"@, false).flag("deflate"@, false).text("user_agent"@, "rustqueue-kodo-gateway"@)
}

/// What a gateway says of itself to a broker before its producer has said anything.
pub fn default_backend_identify() -> (r: Vec<u8>)
    ensures
        r@ == json::json_bytes(default_identify()),
{
    let identify = Doc::new().flag("feature_negotiation", true).number(
        "heartbeat_interval",
        -1,
    ).flag("tls_v1", false).flag("snappy", false).flag("deflate", false).text(
        "user_agent",
        "rustqueue-kodo-gateway",
    ).done();
    json::json_to_vec(&identify)
}

/// What a gateway sends to a broker first.
pub open spec fn handshake_bytes(identify: Seq<u8>) -> Seq<u8> {
    MAGIC_V2@ + encode_utf8("IDENTIFY\n"@) + wire::be(frame::size_field(identify.len()), 4)
        + identify
}

/// What a gateway sends to a broker first.
pub fn handshake(identify: &[u8]) -> (r: Vec<u8>)
    ensures
        r@ == handshake_bytes(identify@),
{
    let mut r: Vec<u8> = slice_to_vec(MAGIC_V2.as_slice());
    wire::push_all(&mut r, digest::text_bytes("IDENTIFY\n"));
    proof {
        wire::lemma_be_round_trip(frame::size_field(identify@.len()), 4);
    }
    wire::push_be(&mut r, (identify.len() as u64) % 0x1_0000_0000u64, 4);
    wire::push_all(&mut r, identify);
    r
}

/// Why a broker cannot be used.
#[derive(Clone, Copy, Debug, PartialEq, Eq, Structural)]
pub enum HandshakeError {
    /// The broker has refused.
    Refused,
    /// The broker has sent something else.
    InvalidFrame,
}

/// Whether a broker can be used, by its first answer.
pub fn handshake_reply(frame_type: i32) -> (r: Result<(), HandshakeError>)
    ensures
        r == if frame_type == FrameType::Error.spec_number() {
            Err::<(), HandshakeError>(HandshakeError::Refused)
        } else if frame_type != FrameType::Response.spec_number() {
            Err::<(), HandshakeError>(HandshakeError::InvalidFrame)
        } else {
            Ok::<(), HandshakeError>(())
        },
{
    if frame_type == 1 {
        Err(HandshakeError::Refused)
    } else if frame_type != 0 {
        Err(HandshakeError::InvalidFrame)
    } else {
        Ok(())
    }
}

/// A text on one line.
pub open spec fn one_line(s: Seq<char>) -> Seq<char> {
    s.map_values(
        |c: char|
            if c == '\r' || c == '\n' {
                ' '
            } else {
                c
            },
    )
}

/// The body of an error frame.
pub fn error_body(code: &str, detail: &str) -> (r: Vec<u8>)
    ensures
        r@ == encode_utf8(code@ + " "@ + one_line(detail@)),
{
    let v = text::chars_of(detail);
    let mut line = String::new();
    let mut i: usize = 0;
    assert(line@ =~= one_line(v@.take(0)));
    while i < v.len()
        invariant
            i <= v@.len(),
            line@ == one_line(v@.take(i as int)),
        decreases v@.len() - i,
    {
        let c: char = v[i];
        line.push(
            if c == '\r' || c == '\n' {
                ' '
            } else {
                c
            },
        );
        assert(line@ =~= one_line(v@.take(i + 1)));
        i += 1;
    }
    assert(v@.take(i as int) =~= v@);
    let mut r = code.to_owned();
    r.append(" ");
    r.append(line.as_str());
    slice_to_vec(digest::text_bytes(r.as_str()))
}

/// What a gateway knows of a producer.
#[derive(Debug)]
pub struct Session {
    /// Whether the producer has identified itself.
    pub identified: bool,
    /// How often heartbeats are sent, in milliseconds.
    pub heartbeat_ms: Option<u64>,
    /// What the gateway says of itself to brokers.
    pub backend_identify: Vec<u8>,
}

/// What a gateway does with a command.
#[derive(Debug)]
pub enum SessionAction {
    /// The producer is answered what the gateway can do.
    Respond(IdentifyResponse),
    /// The message is published.
    Publish,
    /// Nothing is done.
    Ignore,
    /// The producer gets an error, and the connection is closed.
    Refuse { code: &'static str, detail: &'static str },
    /// The connection is closed.
    Close,
}

/// `SessionAction` as values.
pub enum SessionActionView {
    Respond(IdentifyResponseView),
    Publish,
    Ignore,
    Refuse { code: Seq<char>, detail: Seq<char> },
    Close,
}

/// What a gateway answers on IDENTIFY, with this timeout of messages.
pub open spec fn gateway_response(msg_timeout: i64) -> IdentifyResponseView {
    IdentifyResponseView {
        max_rdy_count: 2_500,
        version: VERSION@,
        max_msg_timeout: 900_000,
        msg_timeout,
        tls_v1: false,
        deflate: false,
        deflate_level: 0,
        max_deflate_level: 0,
        snappy: false,
        sample_rate: 0,
        auth_required: false,
        output_buffer_size: 16_384,
        output_buffer_timeout: 250,
    }
}

impl View for SessionAction {
    type V = SessionActionView;

    open spec fn view(&self) -> SessionActionView {
        match self {
            SessionAction::Respond(r) => SessionActionView::Respond(r@),
            SessionAction::Publish => SessionActionView::Publish,
            SessionAction::Ignore => SessionActionView::Ignore,
            SessionAction::Refuse { code, detail } => SessionActionView::Refuse {
                code: code@,
                detail: detail@,
            },
            SessionAction::Close => SessionActionView::Close,
        }
    }
}

/// The error that refuses a command.
pub open spec fn refused(code: Seq<char>, detail: Seq<char>) -> SessionActionView {
    SessionActionView::Refuse { code, detail }
}

/// How often heartbeats are sent to a producer that asks for this interval; nothing where that
/// is not allowed.
pub open spec fn heartbeat_setting(asked: Option<i64>) -> Option<Option<u64>> {
    match asked {
        None => Some(Some(DEFAULT_HEARTBEAT_MS)),
        Some(n) => if n == -1 {
            Some(None)
        } else if 1_000 <= n <= 300_000 {
            Some(Some(n as u64))
        } else {
            None
        },
    }
}

/// What a gateway does on the first IDENTIFY of a producer. `request` is what the body says,
/// where it can be read, and `identify` what brokers are told.
pub open spec fn on_identify(
    request: Option<IdentifyRequest>,
    identify: Option<Seq<u8>>,
) -> SessionActionView {
    match request {
        None => refused("E_BAD_BODY"@, "IDENTIFY body is invalid"@),
        Some(q) => if q.tls_v1 || q.snappy || q.deflate {
            refused(
                "E_IDENTIFY_FAILED"@,
                "Kodo publish gateways do not negotiate TLS or compression"@,
            )
        } else if heartbeat_setting(q.heartbeat_interval) is None {
            refused("E_IDENTIFY_FAILED"@, "heartbeat_interval is outside 1000..=300000"@)
        } else if identify is None {
            SessionActionView::Close
        } else {
            let asked = match q.msg_timeout {
                Some(n) => n,
                None => 60_000,
            };
            SessionActionView::Respond(
                gateway_response(
                    if asked < 1_000 {
                        1_000
                    } else {
                        asked
                    },
                ),
            )
        },
    }
}

/// What a gateway does with a command of a producer.
pub open spec fn on_command(
    identified: bool,
    command: Command,
    request: Option<IdentifyRequest>,
    identify: Option<Seq<u8>>,
) -> SessionActionView {
    match command {
        Command::Identify => if identified {
            refused("E_INVALID"@, "IDENTIFY may only be sent once"@)
        } else {
            on_identify(request, identify)
        },
        Command::Publish { .. } | Command::MultiPublish { .. } | Command::DeferredPublish {
            ..
        } => SessionActionView::Publish,
        Command::Noop => SessionActionView::Ignore,
        Command::Auth => refused("E_AUTH_DISABLED"@, "AUTH disabled"@),
        _ => refused(
            "E_INVALID"@,
            "publish Gateway accepts only IDENTIFY, PUB, MPUB, DPUB, and NOP"@,
        ),
    }
}

fn refuse(code: &'static str, detail: &'static str) -> (r: SessionAction)
    ensures
        r@ == refused(code@, detail@),
{
    SessionAction::Refuse { code, detail }
}

impl Session {
    /// A producer that has said nothing.
    pub fn new() -> (r: Self)
        ensures
            !r.identified,
            r.heartbeat_ms == Some(DEFAULT_HEARTBEAT_MS),
            r.backend_identify@ == json::json_bytes(default_identify()),
    {
        Session {
            identified: false,
            heartbeat_ms: Some(DEFAULT_HEARTBEAT_MS),
            backend_identify: default_backend_identify(),
        }
    }

    fn identify(&mut self, request: Option<&IdentifyRequest>, identify: Option<Vec<u8>>) -> (r:
        SessionAction)
        requires
            !old(self).identified,
        ensures
            r@ == on_identify(
                match request {
                    Some(q) => Some(*q),
                    None => None,
                },
                bytes_view(identify),
            ),
            r is Respond ==> {
                &&& final(self).identified
                &&& request is Some
                &&& heartbeat_setting(request->0.heartbeat_interval) == Some(
                    final(self).heartbeat_ms,
                )
                &&& bytes_view(identify) == Some(final(self).backend_identify@)
            },
            !(r is Respond) ==> *final(self) == *old(self),
    {
        let request = match request {
            None => {
                return refuse("E_BAD_BODY", "IDENTIFY body is invalid");
            },
            Some(q) => q,
        };
        if request.tls_v1 || request.snappy || request.deflate {
            return refuse(
                "E_IDENTIFY_FAILED",
                "Kodo publish gateways do not negotiate TLS or compression",
            );
        }
        let heartbeat: Option<u64> = match request.heartbeat_interval {
            None => Some(DEFAULT_HEARTBEAT_MS),
            Some(n) => if n == -1 {
                None
            } else if 1_000 <= n && n <= 300_000 {
                Some(n as u64)
            } else {
                return refuse("E_IDENTIFY_FAILED", "heartbeat_interval is outside 1000..=300000");
            },
        };
        let identify = match identify {
            None => {
                return SessionAction::Close;
            },
            Some(i) => i,
        };
        let asked: i64 = match request.msg_timeout {
            Some(n) => n,
            None => 60_000,
        };
        self.identified = true;
        self.heartbeat_ms = heartbeat;
        self.backend_identify = identify;
        SessionAction::Respond(
            IdentifyResponse {
                max_rdy_count: 2_500,
                version: VERSION.to_owned(),
                max_msg_timeout: 900_000,
                msg_timeout: if asked < 1_000 {
                    1_000
                } else {
                    asked
                },
                tls_v1: false,
                deflate: false,
                deflate_level: 0,
                max_deflate_level: 0,
                snappy: false,
                sample_rate: 0,
                auth_required: false,
                output_buffer_size: 16_384,
                output_buffer_timeout: 250,
            },
        )
    }

    /// What is done with a command. `body` is that of the command and `request` what it says,
    /// where the command is IDENTIFY and the body can be read.
    pub fn command(
        &mut self,
        command: &Command,
        body: &[u8],
        request: Option<&IdentifyRequest>,
    ) -> (r: SessionAction)
        ensures
            r@ == on_command(
                old(self).identified,
                *command,
                match request {
                    Some(q) => Some(*q),
                    None => None,
                },
                identify_for_broker(json::json_read(body@)),
            ),
            r is Respond ==> {
                &&& final(self).identified
                &&& request is Some
                &&& heartbeat_setting(request->0.heartbeat_interval) == Some(
                    final(self).heartbeat_ms,
                )
                &&& identify_for_broker(json::json_read(body@)) == Some(
                    final(self).backend_identify@,
                )
            },
            !(r is Respond) ==> *final(self) == *old(self),
    {
        match command {
            Command::Identify => {
                if self.identified {
                    refuse("E_INVALID", "IDENTIFY may only be sent once")
                } else {
                    self.identify(request, backend_identify_body(body))
                }
            },
            Command::Publish { .. } => SessionAction::Publish,
            Command::MultiPublish { .. } => SessionAction::Publish,
            Command::DeferredPublish { .. } => SessionAction::Publish,
            Command::Noop => SessionAction::Ignore,
            Command::Auth => refuse("E_AUTH_DISABLED", "AUTH disabled"),
            _ => refuse(
                "E_INVALID",
                "publish Gateway accepts only IDENTIFY, PUB, MPUB, DPUB, and NOP",
            ),
        }
    }

    /// After how many milliseconds the next heartbeat is due; a year where none are sent.
    pub fn heartbeat_due(&self) -> (r: u64)
        ensures
            r == match self.heartbeat_ms {
                Some(n) => n,
                None => 31_536_000_000,
            },
    {
        match self.heartbeat_ms {
            Some(n) => n,
            None => 31_536_000_000,
        }
    }
}

/// A producer identifies itself once: afterwards IDENTIFY is refused.
pub proof fn law_identify_is_accepted_once(
    request: Option<IdentifyRequest>,
    identify: Option<Seq<u8>>,
)
    ensures
        on_command(true, Command::Identify, request, identify) is Refuse,
{
}

/// A gateway publishes for producers and does nothing else for them: commands of consumers are
/// refused.
pub proof fn law_gateways_serve_producers_only(
    identified: bool,
    command: Command,
    request: Option<IdentifyRequest>,
    identify: Option<Seq<u8>>,
)
    requires
        command is Subscribe || command is Ready || command is Finish || command is Requeue
            || command is Touch || command is Close || command is Auth,
    ensures
        on_command(identified, command, request, identify) is Refuse,
{
}

/// Whatever was said before, a message of a producer is published, and a NOP does nothing:
/// neither waits for IDENTIFY, nor ends with it.
pub proof fn law_messages_are_published_at_any_time(
    identified: bool,
    command: Command,
    request: Option<IdentifyRequest>,
    identify: Option<Seq<u8>>,
)
    ensures
        command is Publish || command is MultiPublish || command is DeferredPublish ==> on_command(
            identified,
            command,
            request,
            identify,
        ) is Publish,
        on_command(identified, command, request, identify) is Publish ==> command is Publish
            || command is MultiPublish || command is DeferredPublish,
        command is Noop <==> on_command(identified, command, request, identify) is Ignore,
{
}

/// The first IDENTIFY is answered where it can be read, asks for neither encryption nor
/// compression, and for heartbeats that are off or between a second and five minutes apart.
pub proof fn law_identify_is_answered_where_it_can_be_met(
    request: Option<IdentifyRequest>,
    identify: Option<Seq<u8>>,
)
    ensures
        on_command(false, Command::Identify, request, identify) is Respond <==> {
            &&& request is Some
            &&& !request->0.tls_v1 && !request->0.snappy && !request->0.deflate
            &&& request->0.heartbeat_interval is None || request->0.heartbeat_interval->0 == -1
                || 1_000 <= request->0.heartbeat_interval->0 <= 300_000
            &&& identify is Some
        },
        on_command(false, Command::Identify, request, identify) matches SessionActionView::Respond(r)
            ==> {
            &&& r.msg_timeout >= 1_000
            &&& request->0.msg_timeout is None ==> r.msg_timeout == 60_000
            &&& request->0.msg_timeout is Some && request->0.msg_timeout->0 >= 1_000
                ==> r.msg_timeout == request->0.msg_timeout->0
            &&& request->0.msg_timeout is Some && request->0.msg_timeout->0 < 1_000
                ==> r.msg_timeout == 1_000
            &&& !r.tls_v1 && !r.snappy && !r.deflate && !r.auth_required
            &&& r.max_rdy_count == 2_500 && r.max_msg_timeout == 900_000
        },
        request is None ==> on_command(false, Command::Identify, request, identify) == refused(
            "E_BAD_BODY"@,
            "IDENTIFY body is invalid"@,
        ),
{
}

/// Heartbeats are sent as often as the producer asks, never where it asks for none, and every
/// half minute where it does not say.
pub proof fn law_heartbeats_are_as_asked(asked: Option<i64>)
    ensures
        asked is None ==> heartbeat_setting(asked) == Some(Some(30_000u64)),
        asked == Some(-1i64) ==> heartbeat_setting(asked) == Some(None::<u64>),
        asked is Some && 1_000 <= asked->0 <= 300_000 ==> heartbeat_setting(asked) == Some(
            Some(asked->0 as u64),
        ),
        asked is Some && asked->0 != -1 && !(1_000 <= asked->0 <= 300_000) ==> heartbeat_setting(
            asked,
        ) is None,
{
}

/// A broker has a message exactly where it answers with the response OK; another broker is
/// tried where the message was not sent in full, or the broker says that it drains, closes, is
/// overloaded or wants it sent again; any other error is final, and all else is not known.
pub proof fn law_answers_of_brokers_are_taken_as_said(event: BrokerEventView)
    ensures
        judged(event) is Success <==> event == (BrokerEventView::Frame {
            frame_type: 0,
            body: seq![79u8, 75u8],
        }),
        judged(event) is Retry <==> event is NotSent || (event matches BrokerEventView::Frame {
            frame_type,
            body,
        } && frame_type == 1 && (begins(body, encode_utf8("E_DRAINING"@)) || begins(
            body,
            encode_utf8("E_CLOSING"@),
        ) || begins(body, encode_utf8("E_THROTTLED"@)) || begins(
            body,
            encode_utf8("E_PUB_RETRY"@),
        ))),
        judged(event) is Final ==> (event matches BrokerEventView::Frame { frame_type, body }
            && frame_type == 1 && judged(event) == AttemptView::Final(body)),
        event matches BrokerEventView::Frame { frame_type, body } ==> (frame_type == 1 ==> judged(
            event,
        ) is Final || judged(event) is Retry),
        event is NotFlushed || event is ReadFailed || event is TimedOut ==> judged(
            event,
        ) is Ambiguous,
{
    assert(OK@ =~= seq![79u8, 75u8]);
}

/// What a gateway tells a broker is what its producer said, but that heartbeats, encryption and
/// compression are off.
pub proof fn law_brokers_are_told_what_the_producer_said(d: JsonView, key: Seq<char>) -> (told:
    JsonView)
    requires
        d is Object,
    ensures
        identify_for_broker(Some(d)) == Some(json::json_bytes(told)),
        json::member(told, "tls_v1"@) == Some(JsonView::Bool(false)),
        json::member(told, "snappy"@) == Some(JsonView::Bool(false)),
        json::member(told, "deflate"@) == Some(JsonView::Bool(false)),
        json::member(told, "feature_negotiation"@) == Some(JsonView::Bool(true)),
        json::member(told, "heartbeat_interval"@) == Some(JsonView::Number(-1)),
        key != "tls_v1"@ && key != "snappy"@ && key != "deflate"@ && key
            != "feature_negotiation"@ && key != "heartbeat_interval"@ ==> json::member(told, key)
            == json::member(d, key),
{
    reveal(JsonView::with);
    reveal_strlit("tls_v1");
    reveal_strlit("snappy");
    reveal_strlit("deflate");
    reveal_strlit("feature_negotiation");
    reveal_strlit("heartbeat_interval");
    assert("tls_v1"@[0] == 't' && "snappy"@[0] == 's' && "deflate"@[0] == 'd'
        && "feature_negotiation"@[0] == 'f' && "heartbeat_interval"@[0] == 'h');
    d.flag("feature_negotiation"@, true).number("heartbeat_interval"@, -1).flag(
        "tls_v1"@,
        false,
    ).flag("snappy"@, false).flag("deflate"@, false)
}

/// A producer is told of success only where the message is published, and loses its connection
/// exactly where it should connect elsewhere or nobody knows.
pub proof fn law_replies_tell_the_outcome(result: Result<(), PublishFailure>, r: PublishReply)
    requires
        call_ensures(publish_reply, (result,), r),
    ensures
        r is Success <==> result is Ok,
        r is Close <==> result == Err::<(), PublishFailure>(PublishFailure::RetryByReconnect),
        r is ErrorAndClose <==> result is Err && result->Err_0 is Ambiguous,
        r matches PublishReply::Error(e) ==> result == Err::<(), PublishFailure>(
            PublishFailure::Final(e),
        ),
{
}

/// A further broker is tried exactly while fewer than three were, half a minute and a little more
/// is left, and one of those drawn was not tried; else the producer is to connect again.
pub proof fn law_another_broker_is_tried_while_there_is_time(p: PublishView, k: int, now: u128)
    requires
        p.offered,
        0 <= p.position,
    ensures
        ({
            let step = stepped(p, PublishEventView::NotConnected, now).1;
            let time = p.attempted.len() < 3 && now + 34_000_000_000 <= p.deadline;
            &&& p.position <= k < p.candidates.len() && !p.attempted.contains(
                p.candidates[k].node_id,
            ) && time ==> step is Connect
            &&& step is Connect ==> time && !p.attempted.contains(step->Connect_0.node_id)
                && p.candidates.contains(step->Connect_0)
            &&& !time ==> step == PublishStepView::Done(Err(PublishFailureView::RetryByReconnect))
        }),
{
    law_brokers_are_tried_once(p.candidates, p.attempted, p.position);
    if p.position <= k < p.candidates.len() && !p.attempted.contains(p.candidates[k].node_id) {
        lemma_untried(p.candidates, p.attempted, p.position, k);
    }
}

proof fn lemma_untried(candidates: Seq<Backend>, attempted: Seq<u64>, position: int, k: int)
    requires
        0 <= position <= k < candidates.len(),
        !attempted.contains(candidates[k].node_id),
    ensures
        untried(candidates, attempted, position) is Some,
    decreases k - position,
{
    if position < k && attempted.contains(candidates[position].node_id) {
        lemma_untried(candidates, attempted, position + 1, k);
    }
}

/// A message has 55 seconds, and goes first to the broker of its connection where that is still
/// known.
pub proof fn law_messages_begin_with_the_broker_at_hand(
    current: Option<&Backend>,
    pool: BackendPool,
    now: u128,
    r: (Publish, PublishStep),
)
    requires
        call_ensures(Publish::begin, (current, &pool, now), r),
        now + 55_000_000_000 <= u128::MAX,
    ensures
        r.0.deadline == now + 55_000_000_000,
        !r.0.offered && r.0.candidates@.len() == 0,
        r.1 is UseCurrent || r.1 is Draw,
        current is None ==> r.1 is Draw && r.0.attempted@.len() == 0,
        r.1 is UseCurrent <==> current is Some && exists|i: int|
            0 <= i < pool.backends@.len() && (#[trigger] pool.backends@[i]).same_as(current->0),
        r.1 is UseCurrent ==> r.0.attempted@ == seq![current->0.node_id],
{
}

/// Four answers of brokers are no verdict on the message, whatever follows them.
pub proof fn law_four_answers_allow_another_broker(rest: Seq<u8>)
    ensures
        retriable(encode_utf8("E_DRAINING"@) + rest),
        retriable(encode_utf8("E_CLOSING"@) + rest),
        retriable(encode_utf8("E_THROTTLED"@) + rest),
        retriable(encode_utf8("E_PUB_RETRY"@) + rest),
        retriable(rest) ==> begins(rest, encode_utf8("E_DRAINING"@)) || begins(
            rest,
            encode_utf8("E_CLOSING"@),
        ) || begins(rest, encode_utf8("E_THROTTLED"@)) || begins(rest, encode_utf8("E_PUB_RETRY"@)),
{
    let a = encode_utf8("E_DRAINING"@);
    assert((a + rest).take(a.len() as int) =~= a);
    let a = encode_utf8("E_CLOSING"@);
    assert((a + rest).take(a.len() as int) =~= a);
    let a = encode_utf8("E_THROTTLED"@);
    assert((a + rest).take(a.len() as int) =~= a);
    let a = encode_utf8("E_PUB_RETRY"@);
    assert((a + rest).take(a.len() as int) =~= a);
}

/// Frames of brokers are read where their size counts its own type and stays within a mebibyte.
pub proof fn law_frames_of_brokers_have_a_size(size: u32, r: Option<usize>)
    requires
        call_ensures(frame_body_size, (size,), r),
    ensures
        r is Some <==> 4 <= size <= 1_048_576,
        r is Some ==> r->0 + 4 == size,
{
}

/// A session is identified exactly by an answer to IDENTIFY, and then has the heartbeat and the
/// greeting of that; any other command leaves it as it was.
pub proof fn law_sessions_change_with_identify_alone(
    command: Command,
    body: &[u8],
    request: Option<&IdentifyRequest>,
    r: SessionAction,
)
    ensures
        forall|s: &mut Session| #[trigger]
            call_ensures(Session::command, (s, &command, body, request), r) ==> {
                &&& r is Respond ==> final(s).identified && !s.identified && command is Identify
                &&& !(r is Respond) ==> *final(s) == *s
                &&& r is Publish <==> command is Publish || command is MultiPublish
                    || command is DeferredPublish
            },
{
}

/// What is sent to a broker first is the protocol's mark, the command, and the
/// body behind its size in four bytes.
pub proof fn law_handshakes_carry_the_size_of_their_body(identify: &[u8], r: Vec<u8>)
    requires
        call_ensures(handshake, (identify,), r),
        identify@.len() < 0x1_0000_0000,
    ensures
        r@.len() >= identify@.len() + 4,
        r@.skip(r@.len() - identify@.len()) == identify@,
        wire::be_value(
            r@.subrange(r@.len() - identify@.len() - 4, r@.len() - identify@.len()),
        ) == identify@.len(),
        r@.take(r@.len() - identify@.len() - 4) == MAGIC_V2@ + encode_utf8("IDENTIFY\n"@),
{
    let n = identify@.len();
    wire::lemma_be_limits();
    wire::lemma_be_round_trip(n, 4);
    let head = MAGIC_V2@ + encode_utf8("IDENTIFY\n"@);
    let size = wire::be(n, 4);
    assert(r@ == head + size + identify@);
    assert(r@.skip(r@.len() - n) =~= identify@);
    assert(r@.subrange(r@.len() - n - 4, r@.len() - n) =~= size);
    assert(r@.take(r@.len() - n - 4) =~= head);
}

/// A broker can be used where it answers with a response, which has the number
/// nought; an error, which has the number one, is a refusal.
pub proof fn law_brokers_answer_with_a_response(frame_type: i32, r: Result<(), HandshakeError>)
    requires
        call_ensures(handshake_reply, (frame_type,), r),
    ensures
        r is Ok <==> frame_type == 0,
        r == Err::<(), HandshakeError>(HandshakeError::Refused) <==> frame_type == 1,
{
}

/// The body of an error frame is its code, a blank and the detail on one line:
/// the ends of lines are blanks, and every other character stays where it is.
pub proof fn law_errors_stand_on_one_line(code: &str, detail: &str, r: Vec<u8>) -> (line: Seq<
    char,
>)
    requires
        call_ensures(error_body, (code, detail), r),
    ensures
        r@ == encode_utf8(code@ + " "@ + line),
        line.len() == detail@.len(),
        forall|i: int|
            0 <= i < line.len() ==> (#[trigger] line[i]) != '\n' && line[i] != '\r' && (detail@[i]
                == '\n' || detail@[i] == '\r' ==> line[i] == ' ') && (detail@[i] != '\n'
                && detail@[i] != '\r' ==> line[i] == detail@[i]),
{
    one_line(detail@)
}

} // verus!
