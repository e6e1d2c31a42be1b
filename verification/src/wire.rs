//! Big-endian integers as byte sequences.

use vstd::prelude::*;

verus! {

/// The number that `s` spells in base 256, most significant byte first.
pub open spec fn be_value(s: Seq<u8>) -> nat
    decreases s.len(),
{
    if s.len() == 0 {
        0
    } else {
        be_value(s.drop_last()) * 256 + s.last() as nat
    }
}

/// The `n` low base-256 digits of `v`, most significant first.
pub open spec fn be_bytes(v: nat, n: nat) -> Seq<u8>
    decreases n,
{
    if n == 0 {
        Seq::empty()
    } else {
        be_bytes(v / 256, (n - 1) as nat).push((v % 256) as u8)
    }
}

/// How many values `n` bytes can spell.
pub open spec fn be_range(n: nat) -> nat
    decreases n,
{
    if n == 0 {
        1
    } else {
        256 * be_range((n - 1) as nat)
    }
}

pub proof fn lemma_be_bytes_len(v: nat, n: nat)
    ensures
        be_bytes(v, n).len() == n,
    decreases n,
{
    if n > 0 {
        lemma_be_bytes_len(v / 256, (n - 1) as nat);
    }
}

pub proof fn lemma_be_range()
    ensures
        be_range(1) == 0x100,
        be_range(2) == 0x1_0000,
        be_range(3) == 0x100_0000,
        be_range(4) == 0x1_0000_0000,
        be_range(8) == 0x1_0000_0000_0000_0000,
{
    reveal_with_fuel(be_range, 9);
}

pub proof fn lemma_be_value_bound(s: Seq<u8>)
    ensures
        be_value(s) < be_range(s.len()),
    decreases s.len(),
{
    if s.len() > 0 {
        lemma_be_value_bound(s.drop_last());
    }
}

/// Reading back what was written gives the number again.
pub proof fn lemma_value_of_bytes(v: nat, n: nat)
    requires
        v < be_range(n),
    ensures
        be_value(be_bytes(v, n)) == v,
    decreases n,
{
    if n > 0 {
        let high = be_bytes(v / 256, (n - 1) as nat);
        assert(v / 256 < be_range((n - 1) as nat)) by (nonlinear_arith)
            requires
                v < 256 * be_range((n - 1) as nat),
        ;
        lemma_value_of_bytes(v / 256, (n - 1) as nat);
        assert(be_bytes(v, n).drop_last() =~= high);
    }
}

/// Writing the number that some bytes spell gives those bytes again.
pub proof fn lemma_bytes_of_value(s: Seq<u8>)
    ensures
        be_bytes(be_value(s), s.len()) == s,
    decreases s.len(),
{
    if s.len() > 0 {
        lemma_bytes_of_value(s.drop_last());
        let v = be_value(s);
        let high = be_value(s.drop_last());
        assert(v / 256 == high && v % 256 == s.last());
        assert(be_bytes(v, s.len()) =~= s.drop_last().push(s.last()));
        assert(s.drop_last().push(s.last()) =~= s);
    } else {
        assert(s =~= Seq::empty());
    }
}

/// Digits above the `n`th do not show.
pub proof fn lemma_be_bytes_wraps(w: nat, k: nat, n: nat)
    ensures
        be_bytes(w + k * be_range(n), n) == be_bytes(w, n),
    decreases n,
{
    if n > 0 {
        let r = be_range((n - 1) as nat);
        let t = k * r;
        let v = w + k * be_range(n);
        assert(v == w + 256 * t) by (nonlinear_arith)
            requires
                v == w + k * (256 * r),
                t == k * r,
        ;
        assert(v / 256 == w / 256 + t && v % 256 == w % 256);
        lemma_be_bytes_wraps(w / 256, k, (n - 1) as nat);
    }
}

/// A length that is cut to 32 bits shows its four low digits.
pub proof fn lemma_low_u32(len: usize)
    ensures
        be_bytes((len as u32) as nat, 4) == be_bytes(len as nat, 4),
{
    let wide = len as u64;
    assert((len as u64) as u32 == len as u32) by (bit_vector);
    assert((wide as u32) == wide % 0x1_0000_0000) by (bit_vector);
    lemma_be_range();
    lemma_be_bytes_wraps((wide % 0x1_0000_0000) as nat, (wide / 0x1_0000_0000) as nat, 4);
}

/// Reads the big-endian number in the `n` bytes at `at`.
fn read_be(data: &[u8], at: usize, n: usize) -> (value: u64)
    requires
        n <= 8,
        at + n <= data@.len(),
    ensures
        value == be_value(data@.subrange(at as int, at + n)),
{
    let mut value: u64 = 0;
    let mut i: usize = 0;
    proof {
        lemma_be_range();
    }
    while i < n
        invariant
            i <= n <= 8,
            at + n <= data.len(),
            value == be_value(data@.subrange(at as int, at + i)),
            be_range(8) == 0x1_0000_0000_0000_0000,
        decreases n - i,
    {
        proof {
            let next = data@.subrange(at as int, at + i + 1);
            assert(next.drop_last() =~= data@.subrange(at as int, at + i));
            assert(next.last() == data@[at + i]);
            lemma_be_value_bound(next);
            lemma_be_range_monotonic(next.len(), 8);
        }
        value = value * 256 + data[at + i] as u64;
        i = i + 1;
    }
    value
}

proof fn lemma_be_range_monotonic(a: nat, b: nat)
    requires
        a <= b,
    ensures
        be_range(a) <= be_range(b),
    decreases b,
{
    if a < b {
        lemma_be_range_monotonic(a, (b - 1) as nat);
    }
}

pub fn read_u16(data: &[u8], at: usize) -> (value: u16)
    requires
        at + 2 <= data@.len(),
    ensures
        value == be_value(data@.subrange(at as int, at + 2)),
{
    proof {
        lemma_be_range();
        lemma_be_value_bound(data@.subrange(at as int, at + 2));
    }
    read_be(data, at, 2) as u16
}

pub fn read_u24(data: &[u8], at: usize) -> (value: usize)
    requires
        at + 3 <= data@.len(),
    ensures
        value == be_value(data@.subrange(at as int, at + 3)),
        value < 0x100_0000,
{
    proof {
        lemma_be_range();
        lemma_be_value_bound(data@.subrange(at as int, at + 3));
    }
    read_be(data, at, 3) as usize
}

pub fn read_u32(data: &[u8], at: usize) -> (value: u32)
    requires
        at + 4 <= data@.len(),
    ensures
        value == be_value(data@.subrange(at as int, at + 4)),
{
    proof {
        lemma_be_range();
        lemma_be_value_bound(data@.subrange(at as int, at + 4));
    }
    read_be(data, at, 4) as u32
}

pub fn read_u64(data: &[u8], at: usize) -> (value: u64)
    requires
        at + 8 <= data@.len(),
    ensures
        value == be_value(data@.subrange(at as int, at + 8)),
{
    read_be(data, at, 8)
}

/// Appends the `n` low base-256 digits of `value`.
pub fn push_be(out: &mut Vec<u8>, value: u64, n: usize)
    requires
        n <= 8,
    ensures
        final(out)@ == old(out)@ + be_bytes(value as nat, n as nat),
    decreases n,
{
    if n > 0 {
        push_be(out, value / 256, n - 1);
        out.push((value % 256) as u8);
    }
    assert(out@ =~= old(out)@ + be_bytes(value as nat, n as nat));
}

/// Whether two runs of bytes are the same.
pub fn same_bytes(a: &[u8], b: &[u8]) -> (yes: bool)
    ensures
        yes == (a@ == b@),
{
    if a.len() != b.len() {
        return false;
    }
    let mut i: usize = 0;
    while i < a.len()
        invariant
            i <= a.len(),
            a@.len() == b@.len(),
            forall|j: int| 0 <= j < i ==> a@[j] == b@[j],
        decreases a.len() - i,
    {
        if a[i] != b[i] {
            return false;
        }
        i = i + 1;
    }
    assert(a@ =~= b@);
    true
}

/// A copy of the `N` bytes at `at`.
pub fn array_at<const N: usize>(data: &[u8], at: usize) -> (out: [u8; N])
    requires
        at + N <= data@.len(),
    ensures
        out@ == data@.subrange(at as int, at + N),
{
    let mut out: [u8; N] = [0u8; N];
    let mut i: usize = 0;
    while i < N
        invariant
            i <= N,
            at + N <= data.len(),
            forall|j: int| 0 <= j < i ==> out@[j] == data@[at + j],
        decreases N - i,
    {
        out[i] = data[at + i];
        i = i + 1;
    }
    assert(out@ =~= data@.subrange(at as int, at + N));
    out
}

} // verus!
