//! Unsigned integers in network byte order: the mathematical model and the
//! code that writes and reads it.
use vstd::prelude::*;

verus! {

/// The number of distinct values that `n` bytes can hold: `256` to the power `n`.
pub open spec fn byte_range(n: nat) -> nat
    decreases n,
{
    if n == 0 {
        1
    } else {
        256 * byte_range((n - 1) as nat)
    }
}

/// The `n` bytes that hold `v` in network byte order, most significant byte
/// first: byte `i` is base-256 digit `n - 1 - i` of `v`. Only the low `8 * n`
/// bits of `v` are kept.
pub open spec fn be_bytes(v: nat, n: nat) -> Seq<u8> {
    Seq::new(n, |i: int| ((v / byte_range((n - 1 - i) as nat)) % 256) as u8)
}

/// The number that `bytes` hold in network byte order.
pub open spec fn be_value(bytes: Seq<u8>) -> nat
    decreases bytes.len(),
{
    if bytes.len() == 0 {
        0
    } else {
        be_value(bytes.drop_last()) * 256 + bytes.last() as nat
    }
}

/// `byte_range` is positive and grows with the number of bytes.
pub proof fn lemma_byte_range_monotonic(i: nat, j: nat)
    requires
        i <= j,
    ensures
        1 <= byte_range(i) <= byte_range(j),
    decreases j,
{
    if j > i {
        lemma_byte_range_monotonic(i, (j - 1) as nat);
    } else if i > 0 {
        lemma_byte_range_monotonic((i - 1) as nat, (i - 1) as nat);
    }
}

/// The byte counts of the integer types of the wire format.
pub proof fn lemma_byte_range_values()
    ensures
        byte_range(1) == 0x100,
        byte_range(2) == 0x1_0000,
        byte_range(3) == 0x100_0000,
        byte_range(4) == 0x1_0000_0000,
        byte_range(7) == 0x100_0000_0000_0000,
        byte_range(8) == 0x1_0000_0000_0000_0000,
{
    reveal_with_fuel(byte_range, 9);
}

/// The bytes of `v` are the bytes of `v / 256` followed by its lowest byte.
pub proof fn lemma_be_bytes_step(v: nat, n: nat)
    ensures
        be_bytes(v, 0) == Seq::<u8>::empty(),
        be_bytes(v, n + 1) == be_bytes(v / 256, n).push((v % 256) as u8),
{
    assert(be_bytes(v, 0) =~= Seq::<u8>::empty());
    let lhs = be_bytes(v, n + 1);
    let rhs = be_bytes(v / 256, n).push((v % 256) as u8);
    assert forall|i: int| 0 <= i < n + 1 implies lhs[i] == rhs[i] by {
        if i < n {
            let k = (n - 1 - i) as nat;
            assert(byte_range(k + 1) == 256 * byte_range(k));
            lemma_byte_range_monotonic(0, k);
            vstd::arithmetic::div_mod::lemma_div_denominator(v as int, 256, byte_range(k) as int);
            assert((n + 1 - 1 - i) as nat == k + 1);
        } else {
            assert((n + 1 - 1 - i) as nat == 0);
            assert(byte_range(0) == 1);
        }
    }
    assert(lhs =~= rhs);
}

/// `n` bytes hold a value below `byte_range(n)`.
pub proof fn lemma_be_value_bound(bytes: Seq<u8>)
    ensures
        be_value(bytes) < byte_range(bytes.len()),
    decreases bytes.len(),
{
    if bytes.len() > 0 {
        let rest = bytes.drop_last();
        lemma_be_value_bound(rest);
        let a = be_value(rest);
        let r = byte_range(rest.len());
        let b = bytes.last();
        assert(a * 256 + b < 256 * r) by (nonlinear_arith)
            requires
                a < r,
                b < 256,
        ;
    }
}

/// Reading back the bytes of a value that fits gives the value.
pub proof fn lemma_be_value_of_bytes(v: nat, n: nat)
    requires
        v < byte_range(n),
    ensures
        be_value(be_bytes(v, n)) == v,
    decreases n,
{
    lemma_be_bytes_step(v, (n - 1) as nat);
    if n > 0 {
        let high = v / 256;
        let r = byte_range((n - 1) as nat);
        assert(high < r) by (nonlinear_arith)
            requires
                v < 256 * r,
                high == v / 256,
        ;
        lemma_be_value_of_bytes(high, (n - 1) as nat);
        let s = be_bytes(v, n);
        assert(s.drop_last() =~= be_bytes(high, (n - 1) as nat));
    }
}

/// Writing out the value that some bytes hold gives those bytes back.
pub proof fn lemma_be_bytes_of_value(bytes: Seq<u8>)
    ensures
        be_bytes(be_value(bytes), bytes.len()) =~= bytes,
    decreases bytes.len(),
{
    if bytes.len() > 0 {
        let rest = bytes.drop_last();
        lemma_be_bytes_of_value(rest);
        let v = be_value(bytes);
        lemma_be_bytes_step(v, rest.len());
        assert(v / 256 == be_value(rest));
        assert(v % 256 == bytes.last());
        assert(bytes =~= rest.push(bytes.last()));
    }
}

/// Appends the low `n` bytes of `v`, most significant first, to `out`.
pub fn be_write(v: u64, n: usize, out: &mut Vec<u8>)
    ensures
        final(out)@ == old(out)@ + be_bytes(v as nat, n as nat),
    decreases n,
{
    if n > 0 {
        be_write(v / 256, n - 1, out);
        out.push((v % 256) as u8);
        proof {
            lemma_be_bytes_step(v as nat, (n - 1) as nat);
            let head = be_bytes((v / 256) as nat, (n - 1) as nat);
            assert(old(out)@ + head.push((v % 256) as u8) =~= (old(out)@ + head).push(
                (v % 256) as u8,
            ));
        }
    } else {
        proof {
            lemma_be_bytes_step(v as nat, 0);
        }
        assert(old(out)@ + be_bytes(v as nat, 0) =~= old(out)@);
    }
}

/// The number held by the first `n` bytes of `bytes`, in network byte order.
pub fn be_read(bytes: &[u8], n: usize) -> (v: u64)
    requires
        n <= 8,
        n <= bytes@.len(),
    ensures
        v == be_value(bytes@.take(n as int)),
{
    let mut v: u64 = 0;
    let mut i: usize = 0;
    assert(bytes@.take(0) =~= Seq::<u8>::empty());
    while i < n
        invariant
            i <= n,
            n <= 8,
            n <= bytes@.len(),
            v == be_value(bytes@.take(i as int)),
        decreases n - i,
    {
        proof {
            lemma_be_value_bound(bytes@.take(i as int));
            lemma_byte_range_monotonic(i as nat, 7);
            lemma_byte_range_values();
            assert(bytes@.take(i as int + 1).drop_last() =~= bytes@.take(i as int));
        }
        v = v * 256 + bytes[i] as u64;
        i += 1;
    }
    v
}

} // verus!
