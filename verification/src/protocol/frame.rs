//! Frames that a broker sends: a size, a type and a body.
use crate::text;
use crate::wire;
use bytes::BytesMut;
use vstd::prelude::*;

verus! {

/// `bytes::BytesMut`, a growable buffer.
#[verifier::external_type_specification]
#[verifier::external_body]
pub struct ExBytesMut(BytesMut);

/// The bytes that a growable buffer holds.
pub uninterp spec fn buffer_held(b: BytesMut) -> Seq<u8>;

/// `BytesMut::with_capacity` for two parts, then `BytesMut::extend_from_slice` of each: the
/// buffer holds the one behind the other. It has room for both from the start, so that it
/// never grows; a capacity above `isize::MAX` panics and is left out.
#[verifier::external_body]
pub(crate) fn buffer_of(head: &[u8], body: &[u8]) -> (r: BytesMut)
    requires
        head@.len() + body@.len() <= isize::MAX,
    ensures
        buffer_held(r) == head@ + body@,
{
    let mut buffer = BytesMut::with_capacity(head.len() + body.len());
    buffer.extend_from_slice(head);
    buffer.extend_from_slice(body);
    buffer
}

/// The type of a frame.
#[derive(Clone, Copy, Debug, PartialEq, Eq, Structural)]
pub enum FrameType {
    Response,
    Error,
    Message,
}

impl FrameType {
    /// The number of the type on the wire.
    pub open spec fn spec_number(self) -> nat {
        match self {
            FrameType::Response => 0,
            FrameType::Error => 1,
            FrameType::Message => 2,
        }
    }

    /// The number of the type on the wire.
    pub fn number(self) -> (r: u32)
        ensures
            r == self.spec_number(),
    {
        match self {
            FrameType::Response => 0,
            FrameType::Error => 1,
            FrameType::Message => 2,
        }
    }
}

/// The low 32 bits of a size.
pub open spec fn size_field(size: nat) -> nat {
    size % 0x1_0000_0000
}

/// A frame: its size behind the size field, its type and its body.
pub open spec fn frame(frame_type: FrameType, body: Seq<u8>) -> Seq<u8> {
    wire::be(size_field(4 + body.len()), 4) + wire::be(frame_type.spec_number(), 4) + body
}

/// The lower-case hexadecimal notation of an ID, as ASCII bytes.
pub open spec fn hex_id(id: nat) -> Seq<u8> {
    text::hex_fixed(id, 16).map_values(|c: char| c as u8)
}

/// The part of a message frame before the message body.
pub open spec fn message_header(timestamp_ns: int, attempts: nat, id: nat, body_len: nat) -> Seq<
    u8,
> {
    wire::be(size_field(30 + body_len), 4) + wire::be(FrameType::Message.spec_number(), 4)
        + wire::be(wire::twos_complement(timestamp_ns), 8) + wire::be(attempts, 2) + hex_id(id)
}

/// Encodes a frame.
pub fn encode_frame(frame_type: FrameType, body: &[u8]) -> (r: BytesMut)
    requires
        body@.len() + 8 <= isize::MAX,
    ensures
        buffer_held(r) == frame(frame_type, body@),
{
    let size: usize = 4 + body.len();
    let mut head: Vec<u8> = Vec::new();
    wire::push_be(&mut head, (size as u64) % 0x1_0000_0000u64, 4);
    wire::push_be(&mut head, frame_type.number() as u64, 4);
    proof {
        wire::lemma_be_round_trip(size_field(4 + body@.len()), 4);
        wire::lemma_be_round_trip(frame_type.spec_number(), 4);
    }
    let out = buffer_of(head.as_slice(), body);
    assert(buffer_held(out) =~= frame(frame_type, body@));
    out
}

/// Encodes the header of a message frame.
pub fn encode_message_header(timestamp_ns: i64, attempts: u16, id: u64, body_len: usize) -> (r: [u8;
    34])
    requires
        body_len + 30 <= usize::MAX,
    ensures
        r@ == message_header(timestamp_ns as int, attempts as nat, id as nat, body_len as nat),
{
    let mut head: Vec<u8> = Vec::new();
    let size: usize = 4 + (26 + body_len);
    wire::push_be(&mut head, (size as u64) % 0x1_0000_0000u64, 4);
    wire::push_be(&mut head, FrameType::Message.number() as u64, 4);
    wire::push_be(&mut head, wire::to_unsigned(timestamp_ns), 8);
    wire::push_be(&mut head, attempts as u64, 2);
    encode_hex_id(id, &mut head);
    let ghost full = message_header(
        timestamp_ns as int,
        attempts as nat,
        id as nat,
        body_len as nat,
    );
    proof {
        wire::lemma_be_round_trip(size_field(30 + body_len as nat), 4);
        wire::lemma_be_round_trip(2, 4);
        wire::lemma_be_round_trip(wire::twos_complement(timestamp_ns as int), 8);
        wire::lemma_be_round_trip(attempts as nat, 2);
        lemma_hex_id(id as nat);
        assert(head@ =~= full);
        assert(head@.len() == 34);
    }
    let mut out: [u8; 34] = [0; 34];
    let mut i: usize = 0;
    while i < 34
        invariant
            i <= 34,
            head@.len() == 34,
            out@.len() == 34,
            forall|j: int| 0 <= j < i ==> out@[j] == head@[j],
        decreases 34 - i,
    {
        out[i] = head[i];
        i += 1;
    }
    assert(out@ =~= head@);
    out
}

proof fn lemma_hex_fixed_len(n: nat, width: nat)
    ensures
        text::hex_fixed(n, width).len() == width,
    decreases width,
{
    if width > 0 {
        lemma_hex_fixed_len(n / 16, (width - 1) as nat);
    }
}

proof fn lemma_hex_id(id: nat)
    ensures
        hex_id(id).len() == 16,
{
    lemma_hex_fixed_len(id, 16);
}

/// Appends the hexadecimal notation of an ID.
fn encode_hex_id(id: u64, out: &mut Vec<u8>)
    ensures
        final(out)@ == old(out)@ + hex_id(id as nat),
{
    push_hex(id, 16, out);
}

fn push_hex(id: u64, width: usize, out: &mut Vec<u8>)
    ensures
        final(out)@ == old(out)@ + text::hex_fixed(id as nat, width as nat).map_values(
            |c: char| c as u8,
        ),
    decreases width,
{
    let ghost f = |c: char| c as u8;
    if width > 0 {
        push_hex(id / 16, width - 1, out);
        let ghost before = out@;
        let c: char = text::hex_to_char((id % 16) as u8);
        out.push(c as u8);
        assert(text::hex_fixed(id as nat, width as nat).map_values(f) =~= text::hex_fixed(
            (id / 16) as nat,
            (width - 1) as nat,
        ).map_values(f).push(c as u8));
        assert(out@ =~= old(out)@ + text::hex_fixed(id as nat, width as nat).map_values(f));
    } else {
        assert(out@ =~= old(out)@ + text::hex_fixed(id as nat, width as nat).map_values(f));
    }
}

/// Encodes a message frame.
pub fn encode_message(timestamp_ns: i64, attempts: u16, id: u64, body: &[u8]) -> (r: BytesMut)
    requires
        body@.len() + 34 <= isize::MAX,
    ensures
        buffer_held(r) == message_header(
            timestamp_ns as int,
            attempts as nat,
            id as nat,
            body@.len(),
        ) + body@,
{
    let header = encode_message_header(timestamp_ns, attempts, id, body.len());
    buffer_of(header.as_slice(), body)
}

/// A message frame is the frame whose type is `Message` and whose body is the
/// timestamp, the attempts, the ID and the message, where its size fits 32 bits.
pub proof fn law_message_is_a_frame(timestamp_ns: int, attempts: nat, id: nat, body: Seq<u8>)
    ensures
        message_header(timestamp_ns, attempts, id, body.len()) + body == frame(
            FrameType::Message,
            wire::be(wire::twos_complement(timestamp_ns), 8) + wire::be(attempts, 2) + hex_id(id)
                + body,
        ),
{
    let inner = wire::be(wire::twos_complement(timestamp_ns), 8) + wire::be(attempts, 2) + hex_id(
        id,
    ) + body;
    wire::lemma_be_round_trip(wire::twos_complement(timestamp_ns), 8);
    wire::lemma_be_round_trip(attempts, 2);
    lemma_hex_id(id);
    assert(inner.len() == 26 + body.len());
    assert(message_header(timestamp_ns, attempts, id, body.len()) + body =~= frame(
        FrameType::Message,
        inner,
    ));
}

/// The size field of a frame says how many bytes follow it, where they fit 32
/// bits.
pub proof fn law_size_field_counts_the_rest(frame_type: FrameType, body: Seq<u8>)
    requires
        4 + body.len() < 0x1_0000_0000,
    ensures
        wire::be_value(frame(frame_type, body).take(4)) == frame(frame_type, body).len() - 4,
{
    wire::lemma_be_round_trip(4 + body.len(), 4);
    wire::lemma_be_round_trip(frame_type.spec_number(), 4);
    wire::lemma_be_limits();
    assert(frame(frame_type, body).take(4) =~= wire::be(4 + body.len(), 4));
}

/// A frame tells its type behind its size, and its body behind that.
pub proof fn law_frames_tell_their_type(frame_type: FrameType, body: Seq<u8>)
    ensures
        ({
            let f = frame(frame_type, body);
            &&& f.len() == 8 + body.len()
            &&& f.skip(8) == body
            &&& wire::be_value(f.subrange(4, 8)) == match frame_type {
                FrameType::Response => 0nat,
                FrameType::Error => 1nat,
                FrameType::Message => 2nat,
            }
        }),
{
    let f = frame(frame_type, body);
    let n = frame_type.spec_number();
    wire::lemma_be_round_trip(size_field(4 + body.len()), 4);
    wire::lemma_be_limits();
    wire::lemma_be_round_trip(n, 4);
    assert(f.subrange(4, 8) =~= wire::be(n, 4));
    assert(f.skip(8) =~= body);
}

} // verus!
