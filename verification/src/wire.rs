//! Big-endian byte notation of integers.
use vstd::prelude::*;

verus! {

/// The lowest `width` bytes of `n`, the most significant first.
pub open spec fn be(n: nat, width: nat) -> Seq<u8>
    decreases width,
{
    if width == 0 {
        Seq::empty()
    } else {
        be(n / 256, (width - 1) as nat).push((n % 256) as u8)
    }
}

/// The number that big-endian bytes denote.
pub open spec fn be_value(s: Seq<u8>) -> nat
    decreases s.len(),
{
    if s.len() == 0 {
        0
    } else {
        be_value(s.drop_last()) * 256 + s.last() as nat
    }
}

/// `256` to the power of `width`.
pub open spec fn be_limit(width: nat) -> nat
    decreases width,
{
    if width == 0 {
        1
    } else {
        be_limit((width - 1) as nat) * 256
    }
}

/// A 64-bit integer in two's complement, as a natural number.
pub open spec fn twos_complement(n: int) -> nat {
    if n < 0 {
        (n + 0x1_0000_0000_0000_0000) as nat
    } else {
        n as nat
    }
}

/// Big-endian bytes have the asked width and denote the number, where it fits.
pub proof fn lemma_be_round_trip(n: nat, width: nat)
    ensures
        be(n, width).len() == width,
        n < be_limit(width) ==> be_value(be(n, width)) == n,
    decreases width,
{
    if width > 0 {
        lemma_be_round_trip(n / 256, (width - 1) as nat);
        assert(be(n, width).drop_last() =~= be(n / 256, (width - 1) as nat));
        assert(((n % 256) as u8) as nat == n % 256);
    }
}

/// The widths in use.
pub proof fn lemma_be_limits()
    ensures
        be_limit(2) == 0x1_0000,
        be_limit(4) == 0x1_0000_0000,
        be_limit(8) == 0x1_0000_0000_0000_0000,
{
    reveal_with_fuel(be_limit, 9);
}

/// Appends the big-endian bytes of a number.
pub fn push_be(out: &mut Vec<u8>, n: u64, width: usize)
    ensures
        final(out)@ == old(out)@ + be(n as nat, width as nat),
    decreases width,
{
    if width > 0 {
        push_be(out, n / 256, width - 1);
        out.push((n % 256) as u8);
        assert(old(out)@ + be((n / 256) as nat, (width - 1) as nat).push(((n % 256) as u8)) =~= (
        old(out)@ + be((n / 256) as nat, (width - 1) as nat)).push((n % 256) as u8));
    } else {
        assert(old(out)@ + Seq::<u8>::empty() =~= old(out)@);
    }
}

/// A 64-bit integer in two's complement.
pub fn to_unsigned(n: i64) -> (r: u64)
    ensures
        r == twos_complement(n as int),
{
    if n < 0 {
        ((n as i128) + 0x1_0000_0000_0000_0000i128) as u64
    } else {
        n as u64
    }
}

/// Appends a slice of bytes.
pub fn push_all(out: &mut Vec<u8>, bytes: &[u8])
    ensures
        final(out)@ == old(out)@ + bytes@,
{
    let mut i: usize = 0;
    assert(old(out)@ + bytes@.take(0) =~= old(out)@);
    while i < bytes.len()
        invariant
            i <= bytes@.len(),
            out@ == old(out)@ + bytes@.take(i as int),
        decreases bytes@.len() - i,
    {
        out.push(bytes[i]);
        assert(old(out)@ + bytes@.take(i + 1) =~= (old(out)@ + bytes@.take(i as int)).push(
            bytes@[i as int],
        ));
        i += 1;
    }
    assert(bytes@.take(bytes@.len() as int) =~= bytes@);
}

/// Reads four bytes at an offset as a number.
pub fn read_u32(bytes: &[u8], at: usize) -> (r: u32)
    requires
        at + 4 <= bytes@.len(),
    ensures
        r == be_value(bytes@.subrange(at as int, at + 4)),
{
    let n: usize = bytes.len();
    let a: u32 = bytes[at] as u32;
    let b: u32 = bytes[at + 1] as u32;
    let c: u32 = bytes[at + 2] as u32;
    let d: u32 = bytes[at + 3] as u32;
    proof {
        let s = bytes@.subrange(at as int, at + 4);
        reveal_with_fuel(be_value, 5);
        assert(s.drop_last().drop_last().drop_last().drop_last() =~= Seq::<u8>::empty());
        assert(s.last() == bytes@[at + 3]);
        assert(s.drop_last().last() == bytes@[at + 2]);
        assert(s.drop_last().drop_last().last() == bytes@[at + 1]);
        assert(s.drop_last().drop_last().drop_last().last() == bytes@[at as int]);
    }
    ((a * 256 + b) * 256 + c) * 256 + d
}

/// Reads the first eight bytes as a number.
pub fn read_u64(bytes: &[u8]) -> (r: u64)
    requires
        bytes@.len() >= 8,
    ensures
        r == be_value(bytes@.take(8)),
{
    let high: u32 = read_u32(bytes, 0);
    let low: u32 = read_u32(bytes, 4);
    proof {
        let s = bytes@.take(8);
        let h = bytes@.subrange(0, 4);
        let l = bytes@.subrange(4, 8);
        reveal_with_fuel(be_value, 9);
        assert(l.drop_last().drop_last().drop_last().drop_last() =~= Seq::<u8>::empty());
        assert(s.drop_last().drop_last().drop_last().drop_last() =~= h);
        assert(l.last() == s.last());
        assert(l.drop_last().last() == s.drop_last().last());
        assert(l.drop_last().drop_last().last() == s.drop_last().drop_last().last());
        assert(l.drop_last().drop_last().drop_last().last()
            == s.drop_last().drop_last().drop_last().last());
        let h4 = be_value(h);
        assert(be_value(s) == (((h4 * 256 + l[0]) * 256 + l[1]) * 256 + l[2]) * 256 + l[3]);
        assert(be_value(l) == ((l[0] * 256 + l[1]) * 256 + l[2]) * 256 + l[3]);
    }
    (high as u64) * 0x1_0000_0000u64 + (low as u64)
}

/// Whether bytes are the same.
pub fn same_bytes(a: &[u8], b: &[u8]) -> (r: bool)
    ensures
        r == (a@ == b@),
{
    if a.len() != b.len() {
        return false;
    }
    let mut i: usize = 0;
    while i < a.len()
        invariant
            i <= a@.len(),
            a@.len() == b@.len(),
            forall|j: int| 0 <= j < i ==> a@[j] == b@[j],
        decreases a@.len() - i,
    {
        if a[i] != b[i] {
            return false;
        }
        i += 1;
    }
    assert(a@ =~= b@);
    true
}

/// The number of some bytes is written as these bytes.
pub proof fn lemma_be_of_value(s: Seq<u8>)
    ensures
        be(be_value(s), s.len()) == s,
    decreases s.len(),
{
    if s.len() > 0 {
        let d = s.drop_last();
        lemma_be_of_value(d);
        let n = be_value(s);
        assert(n / 256 == be_value(d) && n % 256 == s.last() as nat);
        assert(be(n, s.len()) =~= s);
    } else {
        assert(be(be_value(s), 0) =~= s);
    }
}

} // verus!
