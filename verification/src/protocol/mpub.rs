//! Batches of messages: a count, then each message behind its length.
use crate::wire;
use bytes::Bytes;
use vstd::prelude::*;
use vstd::slice::slice_to_vec;

verus! {

/// `bytes::Bytes`, a shared immutable buffer.
#[verifier::external_type_specification]
#[verifier::external_body]
pub struct ExBytes(Bytes);

/// The bytes that a shared buffer holds.
pub uninterp spec fn bytes_held(b: Bytes) -> Seq<u8>;

/// `Bytes::as_ref`: the bytes of a shared buffer.
#[verifier::external_body]
pub(crate) fn bytes_slice(b: &Bytes) -> (r: &[u8])
    ensures
        r@ == bytes_held(*b),
{
    b.as_ref()
}

/// `Bytes::slice`: a buffer that shares the bytes of a range. It panics on a
/// range outside the buffer, which is left out.
#[verifier::external_body]
pub(crate) fn bytes_range(b: &Bytes, from: usize, to: usize) -> (r: Bytes)
    requires
        from <= to <= bytes_held(*b).len(),
    ensures
        bytes_held(r) == bytes_held(*b).subrange(from as int, to as int),
{
    b.slice(from..to)
}

/// `Bytes::copy_from_slice`: a buffer with a copy of the bytes.
#[verifier::external_body]
pub(crate) fn bytes_copy(s: &[u8]) -> (r: Bytes)
    ensures
        bytes_held(r) == s@,
{
    Bytes::copy_from_slice(s)
}

/// The largest number of messages in one batch.
pub const MAX_MPUB_MESSAGES: usize = 65_536;

/// Why a batch is refused.
#[derive(Clone, Copy, Debug, PartialEq, Eq)]
pub enum MpubError {
    /// The batch as a whole is malformed.
    BadBody(&'static str),
    /// One of its messages is malformed.
    BadMessage(&'static str),
}

/// `MpubError` with its reason as text.
pub enum MpubErrorView {
    BadBody(Seq<char>),
    BadMessage(Seq<char>),
}

impl View for MpubError {
    type V = MpubErrorView;

    open spec fn view(&self) -> MpubErrorView {
        match self {
            MpubError::BadBody(m) => MpubErrorView::BadBody(m@),
            MpubError::BadMessage(m) => MpubErrorView::BadMessage(m@),
        }
    }
}

impl MpubError {
    /// The protocol error code.
    pub fn code(&self) -> (r: &'static str)
        ensures
            *self is BadBody ==> r@ == "E_BAD_BODY"@,
            *self is BadMessage ==> r@ == "E_BAD_MESSAGE"@,
    {
        match self {
            MpubError::BadBody(_) => "E_BAD_BODY",
            MpubError::BadMessage(_) => "E_BAD_MESSAGE",
        }
    }

    /// What the error says.
    pub fn message(&self) -> (r: &'static str)
        ensures
            self@ == MpubErrorView::BadBody(r@) || self@ == MpubErrorView::BadMessage(r@),
    {
        match self {
            MpubError::BadBody(m) => m,
            MpubError::BadMessage(m) => m,
        }
    }
}

/// The `left` messages from `at` on, behind those already read.
pub open spec fn batch_from(
    body: Seq<u8>,
    at: int,
    left: nat,
    max: nat,
    read: Seq<Seq<u8>>,
) -> Result<Seq<Seq<u8>>, MpubErrorView>
    decreases left,
{
    if left == 0 {
        if at == body.len() {
            Ok(read)
        } else {
            Err(MpubErrorView::BadBody("batch contains trailing bytes"@))
        }
    } else if body.len() < at + 4 {
        Err(MpubErrorView::BadMessage("truncated message length"@))
    } else {
        let length = wire::be_value(body.subrange(at, at + 4));
        let start = at + 4;
        let end = start + length;
        if length == 0 || length > max || end > body.len() {
            Err(MpubErrorView::BadMessage("invalid message length"@))
        } else {
            batch_from(
                body,
                end,
                (left - 1) as nat,
                max,
                read.push(body.subrange(start, end)),
            )
        }
    }
}

/// The messages of a batch, each of at most `max` bytes.
pub open spec fn batch(body: Seq<u8>, max: nat) -> Result<Seq<Seq<u8>>, MpubErrorView> {
    if body.len() < 4 {
        Err(MpubErrorView::BadBody("missing batch count"@))
    } else {
        let count = wire::be_value(body.subrange(0, 4));
        if count == 0 || count > MAX_MPUB_MESSAGES {
            Err(MpubErrorView::BadBody("invalid batch count"@))
        } else {
            batch_from(body, 4, count, max, Seq::empty())
        }
    }
}

/// The contents of a sequence of shared buffers.
pub open spec fn all_held(v: Seq<Bytes>) -> Seq<Seq<u8>> {
    v.map_values(|b: Bytes| bytes_held(b))
}

/// The contents of a sequence of byte vectors.
pub open spec fn all_bytes(v: Seq<Vec<u8>>) -> Seq<Seq<u8>> {
    v.map_values(|b: Vec<u8>| b@)
}

/// Splits a batch into its messages, each sharing the bytes of the batch.
pub fn parse_mpub_bytes(body: Bytes, max_message_bytes: usize) -> (r: Result<
    Vec<Bytes>,
    MpubError,
>)
    ensures
        match r {
            Ok(messages) => batch(bytes_held(body), max_message_bytes as nat) == Ok::<
                Seq<Seq<u8>>,
                MpubErrorView,
            >(all_held(messages@)),
            Err(e) => batch(bytes_held(body), max_message_bytes as nat) == Err::<
                Seq<Seq<u8>>,
                MpubErrorView,
            >(e@),
        },
{
    let bytes = bytes_slice(&body);
    let ghost held = bytes_held(body);
    if bytes.len() < 4 {
        return Err(MpubError::BadBody("missing batch count"));
    }
    let count: usize = wire::read_u32(bytes, 0) as usize;
    if count == 0 || count > MAX_MPUB_MESSAGES {
        return Err(MpubError::BadBody("invalid batch count"));
    }
    let mut offset: usize = 4;
    let mut messages: Vec<Bytes> = Vec::new();
    let mut i: usize = 0;
    assert(all_held(messages@) =~= Seq::<Seq<u8>>::empty());
    while i < count
        invariant
            i <= count,
            held == bytes_held(body),
            bytes@ == held,
            4 <= offset <= held.len(),
            batch(held, max_message_bytes as nat) == batch_from(
                held,
                offset as int,
                (count - i) as nat,
                max_message_bytes as nat,
                all_held(messages@),
            ),
        decreases count - i,
    {
        if bytes.len() - offset < 4 {
            return Err(MpubError::BadMessage("truncated message length"));
        }
        let length: usize = wire::read_u32(bytes, offset) as usize;
        offset += 4;
        if length == 0 || length > max_message_bytes || length > bytes.len() - offset {
            return Err(MpubError::BadMessage("invalid message length"));
        }
        let end: usize = offset + length;
        let message = bytes_range(&body, offset, end);
        let ghost before = messages@;
        messages.push(message);
        assert(all_held(messages@) =~= all_held(before).push(
            held.subrange(offset as int, end as int),
        ));
        offset = end;
        i += 1;
    }
    if offset != bytes.len() {
        return Err(MpubError::BadBody("batch contains trailing bytes"));
    }
    Ok(messages)
}

/// Splits a batch into copies of its messages.
pub fn parse_mpub_body(body: &[u8], max_message_bytes: usize) -> (r: Result<
    Vec<Vec<u8>>,
    MpubError,
>)
    ensures
        match r {
            Ok(messages) => batch(body@, max_message_bytes as nat) == Ok::<
                Seq<Seq<u8>>,
                MpubErrorView,
            >(all_bytes(messages@)),
            Err(e) => batch(body@, max_message_bytes as nat) == Err::<
                Seq<Seq<u8>>,
                MpubErrorView,
            >(e@),
        },
{
    let messages = match parse_mpub_bytes(bytes_copy(body), max_message_bytes) {
        Ok(messages) => messages,
        Err(e) => {
            return Err(e);
        },
    };
    let mut out: Vec<Vec<u8>> = Vec::new();
    let mut i: usize = 0;
    let ghost t = all_held(messages@);
    while i < messages.len()
        invariant
            i <= messages@.len(),
            t == all_held(messages@),
            all_bytes(out@) == t.take(i as int),
        decreases messages@.len() - i,
    {
        let ghost before = out@;
        out.push(slice_to_vec(bytes_slice(&messages[i])));
        assert(all_bytes(out@) =~= all_bytes(before).push(t[i as int]));
        assert(t.take(i + 1) =~= t.take(i as int).push(t[i as int]));
        i += 1;
    }
    assert(t.take(messages@.len() as int) =~= t);
    Ok(out)
}

/// Each message behind its length.
pub open spec fn framed(messages: Seq<Seq<u8>>) -> Seq<u8>
    decreases messages.len(),
{
    if messages.len() == 0 {
        Seq::empty()
    } else {
        framed(messages.drop_last()) + wire::be(messages.last().len(), 4) + messages.last()
    }
}

/// The batch that carries the messages.
pub open spec fn batch_of(messages: Seq<Seq<u8>>) -> Seq<u8> {
    wire::be(messages.len(), 4) + framed(messages)
}

/// What a batch may carry: between one message and the largest number of them,
/// none empty, none above `max` or four gibibytes.
pub open spec fn batch_fits(messages: Seq<Seq<u8>>, max: nat) -> bool {
    &&& 0 < messages.len() <= MAX_MPUB_MESSAGES
    &&& forall|i: int|
        0 <= i < messages.len() ==> 0 < (#[trigger] messages[i]).len() <= max && messages[i].len()
            < 0x1_0000_0000
}

proof fn lemma_framed_split(messages: Seq<Seq<u8>>, k: int)
    requires
        0 <= k < messages.len(),
    ensures
        framed(messages) == framed(messages.take(k)) + wire::be(messages[k].len(), 4) + messages[k]
            + framed(messages.skip(k + 1)),
    decreases messages.len(),
{
    if k == messages.len() - 1 {
        assert(messages.take(k) =~= messages.drop_last());
        assert(messages.skip(k + 1) =~= Seq::<Seq<u8>>::empty());
        assert(framed(messages) =~= framed(messages.take(k)) + wire::be(messages[k].len(), 4)
            + messages[k] + Seq::<u8>::empty());
    } else {
        let d = messages.drop_last();
        lemma_framed_split(d, k);
        assert(d.take(k) =~= messages.take(k));
        assert(d[k] == messages[k]);
        let rest = messages.skip(k + 1);
        assert(rest.drop_last() =~= d.skip(k + 1));
        assert(rest.last() == messages.last());
        assert(framed(messages) =~= framed(messages.take(k)) + wire::be(messages[k].len(), 4)
            + messages[k] + framed(rest));
    }
}

proof fn lemma_batch_from(messages: Seq<Seq<u8>>, max: nat, k: int)
    requires
        batch_fits(messages, max),
        0 <= k <= messages.len(),
    ensures
        batch_from(
            batch_of(messages),
            4 + framed(messages.take(k)).len() as int,
            (messages.len() - k) as nat,
            max,
            messages.take(k),
        ) == Ok::<Seq<Seq<u8>>, MpubErrorView>(messages),
    decreases messages.len() - k,
{
    let body = batch_of(messages);
    let at: int = 4 + framed(messages.take(k)).len() as int;
    wire::lemma_be_round_trip(messages.len(), 4);
    if k == messages.len() {
        assert(messages.take(k) =~= messages);
    } else {
        let m = messages[k];
        let read = messages.take(k);
        lemma_framed_split(messages, k);
        wire::lemma_be_round_trip(m.len(), 4);
        wire::lemma_be_limits();
        let before = wire::be(messages.len(), 4) + framed(read);
        let after = framed(messages.skip(k + 1));
        assert(body =~= before + wire::be(m.len(), 4) + m + after);
        assert(body.subrange(at, at + 4) =~= wire::be(m.len(), 4));
        assert(body.subrange(at + 4, at + 4 + m.len()) =~= m);
        assert(messages.take(k + 1) =~= read.push(m));
        assert(read.push(m).drop_last() =~= read);
        lemma_batch_from(messages, max, k + 1);
        assert(framed(messages.take(k + 1)).len() == framed(read).len() + 4 + m.len());
    }
}

/// A batch gives back the messages that were put into it.
pub proof fn law_batch_round_trip(messages: Seq<Seq<u8>>, max: nat)
    requires
        batch_fits(messages, max),
    ensures
        batch(batch_of(messages), max) == Ok::<Seq<Seq<u8>>, MpubErrorView>(messages),
{
    wire::lemma_be_round_trip(messages.len(), 4);
    wire::lemma_be_limits();
    let body = batch_of(messages);
    assert(body.subrange(0, 4) =~= wire::be(messages.len(), 4));
    lemma_batch_from(messages, max, 0);
    assert(messages.take(0) =~= Seq::<Seq<u8>>::empty());
}

proof fn lemma_accepted_messages(
    body: Seq<u8>,
    at: int,
    left: nat,
    max: nat,
    read: Seq<Seq<u8>>,
)
    requires
        0 <= at,
        batch_from(body, at, left, max, read) is Ok,
        forall|i: int| 0 <= i < read.len() ==> 0 < (#[trigger] read[i]).len() <= max,
    ensures
        ({
            let r = batch_from(body, at, left, max, read)->Ok_0;
            &&& r.len() == read.len() + left
            &&& forall|i: int| 0 <= i < r.len() ==> 0 < (#[trigger] r[i]).len() <= max
        }),
    decreases left,
{
    if left > 0 {
        let length = wire::be_value(body.subrange(at, at + 4));
        let message = body.subrange(at + 4, at + 4 + length);
        lemma_accepted_messages(
            body,
            at + 4 + length,
            (left - 1) as nat,
            max,
            read.push(message),
        );
    }
}

/// Every message of an accepted batch has between one byte and `max` bytes, and
/// there are at least one and at most the largest number of them.
pub proof fn law_accepted_batch_is_bounded(body: Seq<u8>, max: nat)
    requires
        batch(body, max) is Ok,
    ensures
        ({
            let r = batch(body, max)->Ok_0;
            &&& 0 < r.len() <= MAX_MPUB_MESSAGES
            &&& forall|i: int| 0 <= i < r.len() ==> 0 < (#[trigger] r[i]).len() <= max
        }),
{
    let count = wire::be_value(body.subrange(0, 4));
    lemma_accepted_messages(body, 4, count, max, Seq::empty());
}

/// A batch without a count, with none or with too many messages, is refused as a whole.
pub proof fn law_batches_have_a_count(body: Seq<u8>, max: nat)
    ensures
        body.len() < 4 ==> batch(body, max) matches Err(MpubErrorView::BadBody(_)),
        body.len() >= 4 && (wire::be_value(body.subrange(0, 4)) == 0 || wire::be_value(
            body.subrange(0, 4),
        ) > 65_536) ==> batch(body, max) matches Err(MpubErrorView::BadBody(_)),
        batch(body, max) is Ok ==> batch(body, max)->Ok_0.len() == wire::be_value(
            body.subrange(0, 4),
        ),
{
    if batch(body, max) is Ok {
        lemma_batch_count(body, 4, wire::be_value(body.subrange(0, 4)), max, Seq::empty());
    }
}

proof fn lemma_batch_count(body: Seq<u8>, at: int, left: nat, max: nat, read: Seq<Seq<u8>>)
    requires
        batch_from(body, at, left, max, read) is Ok,
    ensures
        batch_from(body, at, left, max, read)->Ok_0.len() == read.len() + left,
    decreases left,
{
    if left > 0 {
        let length = wire::be_value(body.subrange(at, at + 4));
        let start = at + 4;
        let end = start + length;
        lemma_batch_count(
            body,
            end,
            (left - 1) as nat,
            max,
            read.push(body.subrange(start, end)),
        );
    }
}

proof fn lemma_batch_bytes(body: Seq<u8>, at: int, left: nat, max: nat, read: Seq<Seq<u8>>)
    requires
        batch_from(body, at, left, max, read) is Ok,
        0 <= at <= body.len(),
        framed(read) == body.subrange(4, at),
        4 <= at,
        body.len() < 0x1_0000_0000,
    ensures
        framed(batch_from(body, at, left, max, read)->Ok_0) == body.skip(4),
    decreases left,
{
    if left == 0 {
        assert(body.subrange(4, at) =~= body.skip(4));
    } else {
        let length = wire::be_value(body.subrange(at, at + 4));
        let start = at + 4;
        let end = start + length;
        let m = body.subrange(start, end);
        let next = read.push(m);
        assert(next.drop_last() =~= read);
        wire::lemma_be_of_value(body.subrange(at, at + 4));
        assert(framed(next) =~= body.subrange(4, end));
        lemma_batch_bytes(body, end, (left - 1) as nat, max, next);
    }
}

/// A batch that is accepted holds its messages and nothing else: the bytes of the one are the
/// bytes of the others, each behind its length.
pub proof fn law_accepted_batches_are_their_messages(body: Seq<u8>, max: nat)
    requires
        batch(body, max) is Ok,
        body.len() < 0x1_0000_0000,
    ensures
        framed(batch(body, max)->Ok_0) == body.skip(4),
{
    assert(framed(Seq::empty()) =~= body.subrange(4, 4));
    lemma_batch_bytes(body, 4, wire::be_value(body.subrange(0, 4)), max, Seq::empty());
}

} // verus!
