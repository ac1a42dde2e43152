//! Variable-length quantities: big-endian groups of seven bits, where a set
//! high bit says that another byte follows. At most four bytes are read.
use vstd::prelude::*;

verus! {

/// How many bytes the quantity at the front of `b` occupies: up to and
/// including the first byte below 0x80, and never more than four. Where `b`
/// ends before such a byte, the result exceeds `b.len()`.
pub open spec fn vlq_len(b: Seq<u8>) -> nat {
    if b.len() > 0 && b[0] < 0x80 {
        1
    } else if b.len() > 1 && b[1] < 0x80 {
        2
    } else if b.len() > 2 && b[2] < 0x80 {
        3
    } else {
        4
    }
}

/// The big-endian base-128 number whose digits are the low seven bits of
/// each byte of `b`.
pub open spec fn base128(b: Seq<u8>) -> nat
    decreases b.len(),
{
    if b.len() == 0 {
        0
    } else {
        base128(b.drop_last()) * 128 + (b.last() % 128) as nat
    }
}

/// The value of the quantity at the front of `b`.
pub open spec fn vlq_value(b: Seq<u8>) -> nat {
    base128(b.take(vlq_len(b) as int))
}

/// A base-128 number of `n` digits is below 2 to the power `7 * n`.
pub proof fn lemma_base128_bound(b: Seq<u8>)
    ensures
        b.len() <= 4 ==> base128(b) < pow128(b.len()),
    decreases b.len(),
{
    if b.len() > 0 {
        lemma_base128_bound(b.drop_last());
    }
}

/// 128 to the power `n`.
pub open spec fn pow128(n: nat) -> nat
    decreases n,
{
    if n == 0 {
        1
    } else {
        128 * pow128((n - 1) as nat)
    }
}

/// The value of a quantity of at most four bytes fits in 28 bits.
pub proof fn lemma_vlq_value_bound(b: Seq<u8>)
    requires
        vlq_len(b) <= b.len(),
    ensures
        vlq_value(b) <= 0x0FFF_FFFF,
{
    let t = b.take(vlq_len(b) as int);
    lemma_base128_bound(t);
    lemma_pow128_mono(t.len(), 4);
    reveal_with_fuel(pow128, 5);
}

/// A byte below 0x80 is a quantity of its own: whatever follows, it occupies
/// one byte and its value is the byte itself.
pub proof fn lemma_single_byte_vlq(b: u8, rest: Seq<u8>)
    requires
        b <= 127,
    ensures
        vlq_len(seq![b] + rest) == 1,
        vlq_value(seq![b] + rest) == b,
{
    let s = seq![b] + rest;
    assert(s[0] == b);
    let t = s.take(1);
    assert(t.drop_last() =~= Seq::<u8>::empty());
    assert(base128(Seq::<u8>::empty()) == 0);
    assert(t.last() == b);
    assert(base128(t) == base128(t.drop_last()) * 128 + (t.last() % 128) as nat);
}

/// Up to four bytes that hold one variable-length quantity, first byte first.
/// Bytes after the one that ends the quantity are ignored.
#[derive(Debug)]
pub struct Vlq(pub [u8; 4]);

impl View for Vlq {
    type V = Seq<u8>;

    open spec fn view(&self) -> Seq<u8> {
        self.0@
    }
}

impl From<[u8; 4]> for Vlq {
    fn from(bytes: [u8; 4]) -> Vlq {
        Vlq(bytes)
    }
}

impl vstd::std_specs::convert::FromSpecImpl<[u8; 4]> for Vlq {
    open spec fn obeys_from_spec() -> bool {
        true
    }

    open spec fn from_spec(v: [u8; 4]) -> Vlq {
        Vlq(v)
    }
}

impl From<Vlq> for u32 {
    fn from(vlq: Vlq) -> u32 {
        let ghost b = vlq@;
        let mut result: u32 = 0;
        let mut i: usize = 0;
        while i < 4
            invariant
                b == vlq@,
                i <= 4,
                b.len() == 4,
                i <= vlq_len(b),
                i < 4 ==> i < vlq_len(b),
                result as nat == base128(b.take(i as int)),
                result < pow128(i as nat),
            decreases 4 - i,
        {
            let byte = vlq.0[i];
            let low = byte & 0x7f;
            assert(byte & 0x7f == byte % 128) by (bit_vector);
            proof {
                assert(b.take(i + 1).drop_last() =~= b.take(i as int));
                reveal_with_fuel(pow128, 5);
                assert(pow128(i as nat + 1) == 128 * pow128(i as nat));
                assert(pow128(4) == 0x1000_0000);
                assert(i < 4);
                if i < 3 {
                    assert(pow128(3) == 0x20_0000);
                    lemma_pow128_mono(i as nat, 3);
                }
                assert(result * 128 + low < pow128(i as nat + 1)) by (nonlinear_arith)
                    requires
                        result < pow128(i as nat),
                        low < 128,
                        pow128(i as nat + 1) == 128 * pow128(i as nat),
                ;
            }
            result = result * 128 + low as u32;
            i += 1;
            if byte < 0x80 {
                assert(vlq_len(b) == i);
                return result;
            }
        }
        result
    }
}

/// Powers of 128 grow with the exponent.
proof fn lemma_pow128_mono(m: nat, n: nat)
    requires
        m <= n,
    ensures
        pow128(m) <= pow128(n),
    decreases n - m,
{
    if m < n {
        lemma_pow128_mono(m, (n - 1) as nat);
    }
}

impl vstd::std_specs::convert::FromSpecImpl<Vlq> for u32 {
    open spec fn obeys_from_spec() -> bool {
        true
    }

    open spec fn from_spec(v: Vlq) -> u32 {
        vlq_value(v@) as u32
    }
}

} // verus!
