//! Digests and checksums, and the hexadecimal notation of bytes.
use crate::text;
use crate::wire;
use sha2::Digest;
use vstd::prelude::*;
use vstd::string::*;
use vstd::utf8::*;

verus! {

/// The SHA-256 digest of bytes.
pub uninterp spec fn sha256(data: Seq<u8>) -> Seq<u8>;

/// The SHA-256 digest of bytes, by `sha2::Sha256::digest`: 32 bytes.
#[verifier::external_body]
pub(crate) fn sha256_of(data: &[u8]) -> (r: Vec<u8>)
    ensures
        r@ == sha256(data@),
        r@.len() == 32,
{
    sha2::Sha256::digest(data).to_vec()
}

/// The CRC-32C checksum of bytes.
pub uninterp spec fn crc32c(data: Seq<u8>) -> u32;

/// The CRC-32C checksum of bytes, by `crc32c::crc32c`.
#[verifier::external_body]
pub(crate) fn crc32c_of(data: &[u8]) -> (r: u32)
    ensures
        r == crc32c(data@),
{
    crc32c::crc32c(data)
}

/// Bytes in lower-case hexadecimal, two digits each.
pub open spec fn hex_text(bytes: Seq<u8>) -> Seq<char>
    decreases bytes.len(),
{
    if bytes.len() == 0 {
        Seq::empty()
    } else {
        hex_text(bytes.drop_last()) + text::hex_fixed(bytes.last() as nat, 2)
    }
}

/// Bytes in lower-case hexadecimal, two digits each, by `hex::encode`.
#[verifier::external_body]
pub(crate) fn hex_of(bytes: &[u8]) -> (r: String)
    ensures
        r@ == hex_text(bytes@),
{
    hex::encode(bytes)
}

/// Hexadecimal notation has two digits for each byte.
pub proof fn lemma_hex_text_len(bytes: Seq<u8>)
    ensures
        hex_text(bytes).len() == 2 * bytes.len(),
    decreases bytes.len(),
{
    if bytes.len() > 0 {
        lemma_hex_text_len(bytes.drop_last());
        reveal_with_fuel(text::hex_fixed, 3);
    }
}

/// Hexadecimal notation is ASCII.
pub proof fn lemma_hex_text_ascii(bytes: Seq<u8>)
    ensures
        is_ascii_chars(hex_text(bytes)),
    decreases bytes.len(),
{
    if bytes.len() > 0 {
        lemma_hex_text_ascii(bytes.drop_last());
        let n = bytes.last() as nat;
        reveal_with_fuel(text::hex_fixed, 3);
        let h = text::hex_fixed(n, 2);
        assert(h.len() == 2);
        assert(is_ascii_chars(h));
    }
}

/// The first eight bytes of a digest, as a number.
pub open spec fn digest_number(digest: Seq<u8>) -> u64 {
    wire::be_value(digest.take(8)) as u64
}

/// The first sixteen bytes of a digest, in hexadecimal.
pub open spec fn digest_tag(digest: Seq<u8>) -> Seq<char> {
    hex_text(digest.take(16))
}

/// The first eight bytes of a digest, as a number.
pub fn number_of(digest: &[u8]) -> (r: u64)
    requires
        digest@.len() >= 8,
    ensures
        r == digest_number(digest@),
{
    wire::read_u64(digest)
}

/// The first sixteen bytes of a digest, in hexadecimal.
pub fn tag_of(digest: &[u8]) -> (r: String)
    requires
        digest@.len() >= 16,
    ensures
        r@ == digest_tag(digest@),
        r@.len() == 32,
{
    let mut head: Vec<u8> = Vec::new();
    let mut i: usize = 0;
    while i < 16
        invariant
            i <= 16 <= digest@.len(),
            head@ == digest@.take(i as int),
        decreases 16 - i,
    {
        head.push(digest[i]);
        i += 1;
        assert(digest@.take(i as int) =~= digest@.take(i - 1).push(digest@[i - 1]));
    }
    proof {
        lemma_hex_text_len(head@);
    }
    hex_of(head.as_slice())
}

/// The bytes of a text.
pub fn text_bytes(s: &str) -> (r: &[u8])
    ensures
        r@ == encode_utf8(s@),
{
    s.as_bytes()
}

/// The number of a digest is made of its first eight bytes, the first of them
/// the most significant, and of nothing else.
pub proof fn law_the_first_eight_bytes_make_the_number(digest: &[u8], r: u64)
    requires
        digest@.len() >= 8,
        call_ensures(number_of, (digest,), r),
    ensures
        r == digest@[0] * 0x100_0000_0000_0000 + digest@[1] * 0x1_0000_0000_0000 + digest@[2]
            * 0x100_0000_0000 + digest@[3] * 0x1_0000_0000 + digest@[4] * 0x100_0000 + digest@[5]
            * 0x1_0000 + digest@[6] * 0x100 + digest@[7],
{
    let d = digest@.take(8);
    reveal_with_fuel(wire::be_value, 9);
    assert(d.drop_last() =~= digest@.take(7));
    assert(digest@.take(7).drop_last() =~= digest@.take(6));
    assert(digest@.take(6).drop_last() =~= digest@.take(5));
    assert(digest@.take(5).drop_last() =~= digest@.take(4));
    assert(digest@.take(4).drop_last() =~= digest@.take(3));
    assert(digest@.take(3).drop_last() =~= digest@.take(2));
    assert(digest@.take(2).drop_last() =~= digest@.take(1));
    assert(digest@.take(1).drop_last() =~= Seq::<u8>::empty());
}

/// The tag of a digest writes its first sixteen bytes in hexadecimal notation,
/// two digits for each, in their order.
pub proof fn law_tags_write_sixteen_bytes(digest: &[u8], r: String, i: int)
    requires
        digest@.len() >= 16,
        call_ensures(tag_of, (digest,), r),
        0 <= i < 16,
    ensures
        text::digit_of(r@[2 * i], 16) == Some((digest@[i] / 16) as nat),
        text::digit_of(r@[2 * i + 1], 16) == Some((digest@[i] % 16) as nat),
{
    lemma_hex_text_at(digest@.take(16), i);
}

proof fn lemma_hex_text_at(s: Seq<u8>, i: int)
    requires
        0 <= i < s.len(),
    ensures
        hex_text(s).len() == 2 * s.len(),
        text::digit_of(hex_text(s)[2 * i], 16) == Some((s[i] / 16) as nat),
        text::digit_of(hex_text(s)[2 * i + 1], 16) == Some((s[i] % 16) as nat),
    decreases s.len(),
{
    lemma_hex_text_len(s);
    lemma_hex_text_len(s.drop_last());
    if i < s.len() - 1 {
        lemma_hex_text_at(s.drop_last(), i);
    } else {
        let n = s.last() as nat;
        reveal_with_fuel(text::hex_fixed, 3);
        assert((n / 16) % 16 == n / 16);
        assert(text::hex_fixed(n, 2).len() == 2);
        assert(text::hex_fixed(n, 2)[0] == text::hex_char(n / 16));
        assert(text::hex_fixed(n, 2)[1] == text::hex_char(n % 16));
    }
}

} // verus!
