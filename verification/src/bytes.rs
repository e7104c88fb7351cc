//! Byte strings: equality, the lexicographic order and big-endian integers.
use vstd::prelude::*;

verus! {

/// The lexicographic order of byte strings: `a` comes strictly before `b`.
pub open spec fn bytes_lt(a: Seq<u8>, b: Seq<u8>) -> bool
    decreases a.len(),
{
    if b.len() == 0 {
        false
    } else if a.len() == 0 {
        true
    } else if a[0] != b[0] {
        a[0] < b[0]
    } else {
        bytes_lt(a.drop_first(), b.drop_first())
    }
}

/// No byte string comes before itself.
pub proof fn lemma_bytes_lt_irreflexive(a: Seq<u8>)
    ensures
        !bytes_lt(a, a),
    decreases a.len(),
{
    if a.len() > 0 {
        lemma_bytes_lt_irreflexive(a.drop_first());
    }
}

/// The order of byte strings is transitive.
pub proof fn lemma_bytes_lt_transitive(a: Seq<u8>, b: Seq<u8>, c: Seq<u8>)
    requires
        bytes_lt(a, b),
        bytes_lt(b, c),
    ensures
        bytes_lt(a, c),
    decreases a.len(),
{
    if a.len() > 0 && a[0] == b[0] && b[0] == c[0] {
        lemma_bytes_lt_transitive(a.drop_first(), b.drop_first(), c.drop_first());
    }
}

/// Of two different byte strings one comes before the other.
pub proof fn lemma_bytes_lt_total(a: Seq<u8>, b: Seq<u8>)
    requires
        a != b,
    ensures
        bytes_lt(a, b) || bytes_lt(b, a),
    decreases a.len(),
{
    if a.len() == 0 {
        assert(b.len() != 0) by {
            if b.len() == 0 {
                assert(a =~= b);
            }
        }
    } else if b.len() > 0 && a[0] == b[0] {
        assert(a.drop_first() != b.drop_first()) by {
            if a.drop_first() == b.drop_first() {
                assert(a =~= seq![a[0]] + a.drop_first());
                assert(b =~= seq![b[0]] + b.drop_first());
            }
        }
        lemma_bytes_lt_total(a.drop_first(), b.drop_first());
    }
}

/// Whether `a` comes strictly before `b` in the lexicographic order.
pub fn lt(a: &Vec<u8>, b: &Vec<u8>) -> (r: bool)
    ensures
        r == bytes_lt(a@, b@),
{
    let mut i: usize = 0;
    proof {
        assert(a@.skip(0) =~= a@);
        assert(b@.skip(0) =~= b@);
    }
    while i < a.len() && i < b.len()
        invariant
            i <= a.len(),
            i <= b.len(),
            bytes_lt(a@, b@) == bytes_lt(a@.skip(i as int), b@.skip(i as int)),
        decreases a.len() - i,
    {
        if a[i] != b[i] {
            return a[i] < b[i];
        }
        proof {
            assert(a@.skip(i as int).drop_first() =~= a@.skip(i + 1));
            assert(b@.skip(i as int).drop_first() =~= b@.skip(i + 1));
        }
        i += 1;
    }
    i < b.len()
}

/// Whether two byte strings are the same.
pub fn same(a: &[u8], b: &[u8]) -> (r: bool)
    ensures
        r == (a@ == b@),
{
    if a.len() != b.len() {
        return false;
    }
    let mut i: usize = 0;
    while i < a.len()
        invariant
            i <= a.len(),
            a.len() == b.len(),
            forall|j: int| 0 <= j < i ==> a@[j] == b@[j],
        decreases a.len() - i,
    {
        if a[i] != b[i] {
            return false;
        }
        i += 1;
    }
    assert(a@ =~= b@);
    true
}

/// `bytes` in a vector of their own.
pub fn copied(bytes: &[u8]) -> (r: Vec<u8>)
    ensures
        r@ == bytes@,
{
    let mut r: Vec<u8> = Vec::new();
    r.extend_from_slice(bytes);
    assert(r@ =~= bytes@);
    r
}

/// The number that `bytes` writes in base 256, most significant byte first.
pub open spec fn be_value(bytes: Seq<u8>) -> nat
    decreases bytes.len(),
{
    if bytes.len() == 0 {
        0
    } else {
        be_value(bytes.drop_last()) * 256 + bytes.last() as nat
    }
}

/// The eight big-endian bytes of `n`.
pub open spec fn be_bytes(n: u64) -> Seq<u8> {
    seq![
        (n / 0x100_0000_0000_0000 % 256) as u8,
        (n / 0x1_0000_0000_0000 % 256) as u8,
        (n / 0x100_0000_0000 % 256) as u8,
        (n / 0x1_0000_0000 % 256) as u8,
        (n / 0x100_0000 % 256) as u8,
        (n / 0x1_0000 % 256) as u8,
        (n / 0x100 % 256) as u8,
        (n % 256) as u8,
    ]
}

/// The eight big-endian bytes of `n`.
pub fn to_be_bytes(n: u64) -> (r: Vec<u8>)
    ensures
        r@ == be_bytes(n),
{
    vec![
        (n / 0x100_0000_0000_0000 % 256) as u8,
        (n / 0x1_0000_0000_0000 % 256) as u8,
        (n / 0x100_0000_0000 % 256) as u8,
        (n / 0x1_0000_0000 % 256) as u8,
        (n / 0x100_0000 % 256) as u8,
        (n / 0x1_0000 % 256) as u8,
        (n / 0x100 % 256) as u8,
        (n % 256) as u8,
    ]
}

/// One more byte multiplies by 256 and adds.
proof fn lemma_be_value_push(bytes: Seq<u8>, b: u8)
    ensures
        be_value(bytes.push(b)) == be_value(bytes) * 256 + b,
{
    assert(bytes.push(b).drop_last() =~= bytes);
}

/// Splitting off one base 256 digit.
proof fn lemma_digit(n: int, d: int)
    requires
        0 <= n,
        0 < d,
    ensures
        n / (d * 256) * 256 + n / d % 256 == n / d,
{
    vstd::arithmetic::div_mod::lemma_div_denominator(n, d, 256);
    vstd::arithmetic::div_mod::lemma_fundamental_div_mod(n / d, 256);
}

/// Appending the next base 256 digit of `n` to its leading digits.
proof fn lemma_be_value_digit(bytes: Seq<u8>, n: u64, d: int)
    requires
        0 < d,
        be_value(bytes) == n as int / (d * 256),
    ensures
        be_value(bytes.push((n as int / d % 256) as u8)) == n as int / d,
{
    let b = (n as int / d % 256) as u8;
    lemma_be_value_push(bytes, b);
    lemma_digit(n as int, d);
}

/// The eight bytes of a number write that number.
pub proof fn law_be_bytes_value(n: u64)
    ensures
        be_bytes(n).len() == 8,
        be_value(be_bytes(n)) == n,
{
    let b = be_bytes(n);
    let s0 = Seq::<u8>::empty();
    let s1 = s0.push(b[0]);
    let s2 = s1.push(b[1]);
    let s3 = s2.push(b[2]);
    let s4 = s3.push(b[3]);
    let s5 = s4.push(b[4]);
    let s6 = s5.push(b[5]);
    let s7 = s6.push(b[6]);
    assert(b =~= s7.push(b[7]));
    lemma_be_value_digit(s0, n, 0x100_0000_0000_0000);
    lemma_be_value_digit(s1, n, 0x1_0000_0000_0000);
    lemma_be_value_digit(s2, n, 0x100_0000_0000);
    lemma_be_value_digit(s3, n, 0x1_0000_0000);
    lemma_be_value_digit(s4, n, 0x100_0000);
    lemma_be_value_digit(s5, n, 0x1_0000);
    lemma_be_value_digit(s6, n, 0x100);
    lemma_be_value_digit(s7, n, 1);
}

/// Eight bytes write the sum of their values at their places.
pub proof fn law_be_value_places(b: Seq<u8>)
    requires
        b.len() == 8,
    ensures
        be_value(b) == b[0] * 0x100_0000_0000_0000 + b[1] * 0x1_0000_0000_0000 + b[2]
            * 0x100_0000_0000 + b[3] * 0x1_0000_0000 + b[4] * 0x100_0000 + b[5] * 0x1_0000 + b[6]
            * 0x100 + b[7],
{
    assert(b.take(0) =~= Seq::<u8>::empty());
    assert(b.take(1) =~= b.take(0).push(b[0]));
    assert(b.take(2) =~= b.take(1).push(b[1]));
    assert(b.take(3) =~= b.take(2).push(b[2]));
    assert(b.take(4) =~= b.take(3).push(b[3]));
    assert(b.take(5) =~= b.take(4).push(b[4]));
    assert(b.take(6) =~= b.take(5).push(b[5]));
    assert(b.take(7) =~= b.take(6).push(b[6]));
    assert(b =~= b.take(7).push(b[7]));
    lemma_be_value_push(b.take(0), b[0]);
    lemma_be_value_push(b.take(1), b[1]);
    lemma_be_value_push(b.take(2), b[2]);
    lemma_be_value_push(b.take(3), b[3]);
    lemma_be_value_push(b.take(4), b[4]);
    lemma_be_value_push(b.take(5), b[5]);
    lemma_be_value_push(b.take(6), b[6]);
    lemma_be_value_push(b.take(7), b[7]);
}

/// Byte strings of one length that write the same number are the same.
pub proof fn law_be_value_determines(a: Seq<u8>, b: Seq<u8>)
    requires
        a.len() == b.len(),
        be_value(a) == be_value(b),
    ensures
        a == b,
    decreases a.len(),
{
    if a.len() > 0 {
        law_be_value_determines(a.drop_last(), b.drop_last());
        assert(a =~= a.drop_last().push(a.last()));
        assert(b =~= b.drop_last().push(b.last()));
    } else {
        assert(a =~= b);
    }
}

/// Where two byte strings first differ decides their order: the smaller byte
/// comes first, and a byte string comes before its continuations.
pub proof fn law_bytes_lt(a: Seq<u8>, b: Seq<u8>, k: int)
    requires
        0 <= k <= a.len(),
        k <= b.len(),
        a.take(k) == b.take(k),
    ensures
        k < a.len() && k < b.len() && a[k] < b[k] ==> bytes_lt(a, b),
        k < a.len() && k < b.len() && a[k] > b[k] ==> !bytes_lt(a, b),
        k == a.len() < b.len() ==> bytes_lt(a, b),
        k == b.len() ==> !bytes_lt(a, b),
    decreases k,
{
    if k > 0 {
        let c = a.drop_first();
        let d = b.drop_first();
        assert(a[0] == a.take(k)[0] && b[0] == b.take(k)[0]);
        assert(c.take(k - 1) =~= a.take(k).drop_first());
        assert(d.take(k - 1) =~= b.take(k).drop_first());
        law_bytes_lt(c, d, k - 1);
    }
}

} // verus!
