//! Byte-sequence encodings of unsigned integers, little and big endian,
//! and the integer value of a byte sequence.

use vstd::prelude::*;

verus! {

/// Value of a byte sequence read as a little-endian integer.
pub open spec fn le_int(s: Seq<u8>) -> nat
    decreases s.len(),
{
    if s.len() == 0 {
        0
    } else {
        (s[0] as nat) + 256 * le_int(s.drop_first())
    }
}

/// Value of a byte sequence read as a big-endian integer.
pub open spec fn be_int(s: Seq<u8>) -> nat
    decreases s.len(),
{
    if s.len() == 0 {
        0
    } else {
        (s.last() as nat) + 256 * be_int(s.drop_last())
    }
}

/// 256 to the power `n`.
pub open spec fn pow256(n: nat) -> nat
    decreases n,
{
    if n == 0 {
        1
    } else {
        256 * pow256((n - 1) as nat)
    }
}

/// The `i`-th little-endian byte of `x`.
pub open spec fn le_byte(x: nat, i: nat) -> u8 {
    ((x / pow256(i)) % 256) as u8
}

/// The `n`-byte little-endian encoding of `x` (mod 256^n).
pub open spec fn le_bytes(x: nat, n: nat) -> Seq<u8> {
    Seq::new(n, |i: int| le_byte(x, i as nat))
}

pub proof fn lemma_pow256_pos(n: nat)
    ensures
        pow256(n) >= 1,
    decreases n,
{
    if n > 0 {
        lemma_pow256_pos((n - 1) as nat);
    }
}

pub proof fn lemma_pow256_add(a: nat, b: nat)
    ensures
        pow256(a + b) == pow256(a) * pow256(b),
    decreases a,
{
    if a == 0 {
        assert(pow256(0 + b) == 1 * pow256(b)) by {
            vstd::arithmetic::mul::lemma_mul_basics(pow256(b) as int);
        }
    } else {
        lemma_pow256_add((a - 1) as nat, b);
        assert(((a + b) - 1) as nat == (a - 1) as nat + b);
        assert(pow256(a + b) == 256 * (pow256((a - 1) as nat) * pow256(b)));
        assert(256 * (pow256((a - 1) as nat) * pow256(b)) == (256 * pow256((a - 1) as nat))
            * pow256(b)) by {
            vstd::arithmetic::mul::lemma_mul_is_associative(
                256,
                pow256((a - 1) as nat) as int,
                pow256(b) as int,
            );
        }
    }
}

/// A byte sequence's value is below 256 to its length.
pub proof fn lemma_le_int_bound(s: Seq<u8>)
    ensures
        le_int(s) < pow256(s.len()),
    decreases s.len(),
{
    if s.len() > 0 {
        lemma_le_int_bound(s.drop_first());
    }
}

pub proof fn lemma_be_int_bound(s: Seq<u8>)
    ensures
        be_int(s) < pow256(s.len()),
    decreases s.len(),
{
    if s.len() > 0 {
        lemma_be_int_bound(s.drop_last());
    }
}

/// Splitting a sequence splits its little-endian value.
pub proof fn lemma_le_int_split(s: Seq<u8>, k: nat)
    requires
        k <= s.len(),
    ensures
        le_int(s) == le_int(s.take(k as int)) + pow256(k) * le_int(s.skip(k as int)),
    decreases k,
{
    if k == 0 {
        assert(s.take(0) =~= Seq::<u8>::empty());
        assert(s.skip(0) =~= s);
        assert(le_int(s) == 0 + 1 * le_int(s)) by {
            vstd::arithmetic::mul::lemma_mul_basics(le_int(s) as int);
        }
    } else {
        let t = s.drop_first();
        lemma_le_int_split(t, (k - 1) as nat);
        assert(s.take(k as int).drop_first() =~= t.take(k - 1));
        assert(s.skip(k as int) =~= t.skip(k - 1));
        assert(le_int(s.take(k as int)) == (s[0] as nat) + 256 * le_int(t.take(k - 1)));
        assert(le_int(s) == (s[0] as nat) + 256 * (le_int(t.take(k - 1)) + pow256((k - 1) as nat)
            * le_int(t.skip(k - 1))));
        assert(256 * (le_int(t.take(k - 1)) + pow256((k - 1) as nat) * le_int(t.skip(k - 1)))
            == 256 * le_int(t.take(k - 1)) + 256 * (pow256((k - 1) as nat) * le_int(t.skip(k
            - 1)))) by {
            vstd::arithmetic::mul::lemma_mul_is_distributive_add(
                256,
                le_int(t.take(k - 1)) as int,
                (pow256((k - 1) as nat) * le_int(t.skip(k - 1))) as int,
            );
        }
        assert(256 * (pow256((k - 1) as nat) * le_int(t.skip(k - 1))) == (256 * pow256((k
            - 1) as nat)) * le_int(t.skip(k - 1))) by {
            vstd::arithmetic::mul::lemma_mul_is_associative(
                256,
                pow256((k - 1) as nat) as int,
                le_int(t.skip(k - 1)) as int,
            );
        }
    }
}

/// Appending sequences adds their values with a shift.
pub proof fn lemma_le_int_append(a: Seq<u8>, b: Seq<u8>)
    ensures
        le_int(a + b) == le_int(a) + pow256(a.len()) * le_int(b),
{
    lemma_le_int_split(a + b, a.len());
    assert((a + b).take(a.len() as int) =~= a);
    assert((a + b).skip(a.len() as int) =~= b);
}

/// Reads eight bytes as a little-endian 64-bit integer.
pub fn le_bytes_to_u64(s: &[u8]) -> (r: u64)
    requires
        s@.len() == 8,
    ensures
        r == le_int(s@),
{
    let mut r: u64 = 0;
    let mut i: usize = 8;
    while i > 0
        invariant
            i <= 8,
            s@.len() == 8,
            r == le_int(s@.skip(i as int)),
        decreases i,
    {
        proof {
            lemma_le_int_bound(s@.skip(i as int));
            lemma_pow256_bytes();
            assert(pow256((8 - i) as nat) <= pow256(7nat)) by {
                lemma_pow256_mono((8 - i) as nat, 7nat);
            }
            assert(s@.skip(i - 1).drop_first() =~= s@.skip(i as int));
        }
        i = i - 1;
        r = r * 256 + (s[i] as u64);
    }
    proof {
        assert(s@.skip(0) =~= s@);
    }
    r
}

/// Reads eight bytes as a big-endian 64-bit integer.
pub fn be_bytes_to_u64(s: &[u8]) -> (r: u64)
    requires
        s@.len() == 8,
    ensures
        r == be_int(s@),
{
    let mut r: u64 = 0;
    let mut i: usize = 0;
    while i < 8
        invariant
            i <= 8,
            s@.len() == 8,
            r == be_int(s@.take(i as int)),
        decreases 8 - i,
    {
        proof {
            lemma_be_int_bound(s@.take(i as int));
            lemma_pow256_bytes();
            assert(pow256(i as nat) <= pow256(7nat)) by {
                lemma_pow256_mono(i as nat, 7nat);
            }
            assert(s@.take(i + 1).drop_last() =~= s@.take(i as int));
            assert(s@.take(i + 1).last() == s@[i as int]);
        }
        r = r * 256 + (s[i] as u64);
        i = i + 1;
    }
    proof {
        assert(s@.take(8) =~= s@);
    }
    r
}

pub proof fn lemma_pow256_mono(a: nat, b: nat)
    requires
        a <= b,
    ensures
        pow256(a) <= pow256(b),
    decreases b,
{
    if a < b {
        lemma_pow256_mono(a, (b - 1) as nat);
        lemma_pow256_pos((b - 1) as nat);
    }
}

/// Concrete powers of 256 that arithmetic around 64-bit words needs.
pub proof fn lemma_pow256_bytes()
    ensures
        pow256(1) == 0x100,
        pow256(2) == 0x10000,
        pow256(3) == 0x1000000,
        pow256(4) == 0x100000000,
        pow256(5) == 0x10000000000,
        pow256(6) == 0x1000000000000,
        pow256(7) == 0x100000000000000,
        pow256(8) == 0x10000000000000000,
{
    reveal_with_fuel(pow256, 9);
}

/// Appends the `n`-byte little-endian encoding of `x` to `out`.
pub fn push_le_bytes(out: &mut Vec<u8>, x: u64, n: usize)
    ensures
        final(out)@ == old(out)@ + le_bytes(x as nat, n as nat),
{
    let mut x = x;
    let mut i: usize = 0;
    let ghost x0 = x as nat;
    proof {
        assert(le_bytes(x0, 0nat) =~= Seq::<u8>::empty());
        assert(x0 / 1 == x0) by {
            vstd::arithmetic::div_mod::lemma_div_basics(x0 as int);
        }
    }
    while i < n
        invariant
            i <= n,
            out@ == old(out)@ + le_bytes(x0, i as nat),
            x == x0 / pow256(i as nat),
        decreases n - i,
    {
        proof {
            lemma_pow256_pos(i as nat);
            lemma_pow256_add(i as nat, 1);
            vstd::arithmetic::div_mod::lemma_div_denominator(
                x0 as int,
                pow256(i as nat) as int,
                256,
            );
            assert(le_bytes(x0, (i + 1) as nat) =~= le_bytes(x0, i as nat).push(
                le_byte(x0, i as nat),
            ));
        }
        out.push((x % 256) as u8);
        x = x / 256;
        i = i + 1;
    }
}

/// Appends the `n`-byte big-endian encoding of `x` to `out`.
pub fn push_be_bytes(out: &mut Vec<u8>, x: u64, n: usize)
    ensures
        final(out)@ == old(out)@ + le_bytes(x as nat, n as nat).reverse(),
{
    let mut tmp: Vec<u8> = Vec::new();
    push_le_bytes(&mut tmp, x, n);
    let mut i: usize = tmp.len();
    while i > 0
        invariant
            i <= tmp@.len(),
            tmp@ == le_bytes(x as nat, n as nat),
            out@ == old(out)@ + tmp@.skip(i as int).reverse(),
        decreases i,
    {
        i = i - 1;
        proof {
            assert(tmp@.skip(i as int).reverse() =~= tmp@.skip(i + 1).reverse().push(tmp@[i as int]));
        }
        out.push(tmp[i]);
    }
    proof {
        assert(tmp@.skip(0) =~= tmp@);
    }
}

/// The little-endian bytes of `x` read back as an integer give `x` again,
/// provided `x` fits in `n` bytes.
pub proof fn lemma_le_bytes_value(x: nat, n: nat)
    requires
        x < pow256(n),
    ensures
        le_int(le_bytes(x, n)) == x,
    decreases n,
{
    if n == 0 {
    } else {
        let s = le_bytes(x, n);
        let x1 = x / 256;
        lemma_pow256_pos((n - 1) as nat);
        assert(x1 < pow256((n - 1) as nat)) by {
            vstd::arithmetic::div_mod::lemma_div_is_ordered(x as int, pow256(n) as int, 256);
            vstd::arithmetic::div_mod::lemma_div_multiples_vanish(
                pow256((n - 1) as nat) as int,
                256,
            );
            if x1 >= pow256((n - 1) as nat) {
                vstd::arithmetic::div_mod::lemma_fundamental_div_mod(x as int, 256);
                assert(x == 256 * x1 + x % 256);
                vstd::arithmetic::mul::lemma_mul_inequality(
                    pow256((n - 1) as nat) as int,
                    x1 as int,
                    256,
                );
            }
        }
        lemma_le_bytes_value(x1, (n - 1) as nat);
        assert(s.drop_first() =~= le_bytes(x1, (n - 1) as nat)) by {
            assert forall|i: int| 0 <= i < n - 1 implies s.drop_first()[i] == le_byte(
                x1,
                i as nat,
            ) by {
                lemma_pow256_pos(i as nat);
                vstd::arithmetic::div_mod::lemma_div_denominator(
                    x as int,
                    256,
                    pow256(i as nat) as int,
                );
                assert((x / 256) / pow256(i as nat) == x / (256 * pow256(i as nat)));
                assert(256 * pow256(i as nat) == pow256((i + 1) as nat));
            }
        }
        assert(s[0] == le_byte(x, 0));
        assert(pow256(0nat) == 1);
        assert(x / 1 == x) by {
            vstd::arithmetic::div_mod::lemma_div_basics(x as int);
        }
        assert(s[0] as nat == x % 256);
        vstd::arithmetic::div_mod::lemma_fundamental_div_mod(x as int, 256);
    }
}

/// The value of a one-byte string is that byte.
pub proof fn lemma_le_int_singleton(x: u8)
    ensures
        le_int(seq![x]) == x as nat,
{
    reveal_with_fuel(le_int, 2);
    assert(seq![x].drop_first() =~= Seq::<u8>::empty());
    assert(le_int(seq![x].drop_first()) == 0);
}

/// Pushing a byte raises the value by that byte at the top position.
pub proof fn lemma_le_int_push(s: Seq<u8>, x: u8)
    ensures
        le_int(s.push(x)) == le_int(s) + pow256(s.len()) * (x as nat),
{
    lemma_le_int_append(s, seq![x]);
    assert(s.push(x) =~= s + seq![x]);
    lemma_le_int_singleton(x);
}

/// Compares two equally long little-endian byte strings as integers.
pub fn le_geq(a: &[u8], b: &[u8]) -> (r: bool)
    requires
        a@.len() == b@.len(),
    ensures
        r == (le_int(a@) >= le_int(b@)),
{
    let n = a.len();
    let mut i: usize = n;
    while i > 0
        invariant
            i <= n,
            a@.len() == n,
            b@.len() == n,
            a@.skip(i as int) =~= b@.skip(i as int),
        decreases i,
    {
        i = i - 1;
        if a[i] != b[i] {
            proof {
                lemma_le_int_split(a@, i as nat);
                lemma_le_int_split(b@, i as nat);
                lemma_le_int_bound(a@.take(i as int));
                lemma_le_int_bound(b@.take(i as int));
                assert(a@.skip(i as int).drop_first() =~= a@.skip(i + 1));
                assert(b@.skip(i as int).drop_first() =~= b@.skip(i + 1));
                assert(le_int(a@.skip(i as int)) == (a@[i as int] as nat) + 256 * le_int(
                    a@.skip(i + 1),
                ));
                assert(le_int(b@.skip(i as int)) == (b@[i as int] as nat) + 256 * le_int(
                    b@.skip(i + 1),
                ));
                let d = le_int(a@.skip(i as int)) as int - le_int(b@.skip(i as int)) as int;
                assert(d == a@[i as int] - b@[i as int]);
                assert(pow256(i as nat) * le_int(a@.skip(i as int)) - pow256(i as nat) * le_int(
                    b@.skip(i as int),
                ) == pow256(i as nat) * d) by {
                    vstd::arithmetic::mul::lemma_mul_is_distributive_sub(
                        pow256(i as nat) as int,
                        le_int(a@.skip(i as int)) as int,
                        le_int(b@.skip(i as int)) as int,
                    );
                }
                lemma_pow256_pos(i as nat);
                if d >= 1 {
                    assert(pow256(i as nat) * d >= pow256(i as nat) * 1) by {
                        vstd::arithmetic::mul::lemma_mul_inequality(
                            1,
                            d,
                            pow256(i as nat) as int,
                        );
                        vstd::arithmetic::mul::lemma_mul_is_commutative(
                            pow256(i as nat) as int,
                            d,
                        );
                    }
                } else {
                    assert(d <= -1);
                    assert(pow256(i as nat) * d <= pow256(i as nat) * (-1)) by {
                        vstd::arithmetic::mul::lemma_mul_inequality(
                            d,
                            -1,
                            pow256(i as nat) as int,
                        );
                        vstd::arithmetic::mul::lemma_mul_is_commutative(
                            pow256(i as nat) as int,
                            d,
                        );
                    }
                }
            }
            return a[i] > b[i];
        }
        proof {
            assert forall|j: int| 0 <= j < n - i implies a@.skip(i as int)[j] == b@.skip(
                i as int,
            )[j] by {
                if j > 0 {
                    assert(a@.skip(i + 1)[j - 1] == b@.skip(i + 1)[j - 1]);
                }
            }
            assert(a@.skip(i as int) =~= b@.skip(i as int));
        }
    }
    proof {
        assert(a@.skip(0) =~= a@);
        assert(b@.skip(0) =~= b@);
        assert(a@ =~= b@);
    }
    true
}

/// Subtracts one little-endian byte string from a larger one, byte by byte
/// with borrows; both strings and the result share one length.
pub fn le_sub(a: &[u8], b: &[u8]) -> (r: Vec<u8>)
    requires
        a@.len() == b@.len(),
        le_int(a@) >= le_int(b@),
    ensures
        r@.len() == a@.len(),
        le_int(r@) == le_int(a@) - le_int(b@),
{
    let n = a.len();
    let mut r: Vec<u8> = Vec::new();
    let mut borrow: u16 = 0;
    let mut i: usize = 0;
    while i < n
        invariant
            i <= n,
            a@.len() == n,
            b@.len() == n,
            r@.len() == i,
            borrow <= 1,
            le_int(r@) + le_int(b@.take(i as int)) == le_int(a@.take(i as int)) + (borrow as nat)
                * pow256(i as nat),
        decreases n - i,
    {
        let ai: u16 = a[i] as u16;
        let bb: u16 = (b[i] as u16) + borrow;
        let (digit, nb): (u16, u16) = if ai >= bb {
            (ai - bb, 0)
        } else {
            (ai + 256 - bb, 1)
        };
        proof {
            let ghost ta = a@.take(i as int);
            let ghost tb = b@.take(i as int);
            assert(a@.take(i + 1) =~= ta.push(a@[i as int]));
            assert(b@.take(i + 1) =~= tb.push(b@[i as int]));
            lemma_le_int_push(ta, a@[i as int]);
            lemma_le_int_push(tb, b@[i as int]);
            lemma_le_int_push(r@, digit as u8);
            lemma_pow256_add(i as nat, 1);
            assert(pow256((i + 1) as nat) == pow256(i as nat) * 256);
            let p = pow256(i as nat) as int;
            assert(digit as int == a@[i as int] - b@[i as int] - borrow + 256 * (nb as int));
            assert(p * (digit as int) == p * (a@[i as int] as int) - p * (b@[i as int] as int)
                - p * (borrow as int) + (nb as int) * (p * 256)) by (nonlinear_arith)
                requires
                    digit as int == a@[i as int] - b@[i as int] - borrow + 256 * (nb as int),
            ;
        }
        r.push(digit as u8);
        borrow = nb;
        i = i + 1;
    }
    proof {
        assert(a@.take(n as int) =~= a@);
        assert(b@.take(n as int) =~= b@);
        if borrow == 1 {
            lemma_le_int_bound(r@);
        }
    }
    r
}

/// Copies a 32-byte vector into a fixed array.
pub fn to_array32(v: &[u8]) -> (r: [u8; 32])
    requires
        v@.len() == 32,
    ensures
        r@ == v@,
{
    let mut r = [0u8; 32];
    let mut i: usize = 0;
    while i < 32
        invariant
            i <= 32,
            v@.len() == 32,
            r@.len() == 32,
            forall|j: int| 0 <= j < i ==> r@[j] == v@[j],
        decreases 32 - i,
    {
        r[i] = v[i];
        i = i + 1;
    }
    proof {
        assert(r@ =~= v@);
    }
    r
}

/// Compares two byte slices for equality.
pub fn bytes_eq(a: &[u8], b: &[u8]) -> (r: bool)
    ensures
        r == (a@ == b@),
{
    if a.len() != b.len() {
        proof {
            assert(a@.len() != b@.len());
        }
        return false;
    }
    let mut i: usize = 0;
    while i < a.len()
        invariant
            i <= a@.len(),
            a@.len() == b@.len(),
            forall|j: int| 0 <= j < i ==> a@[j] == b@[j],
        decreases a@.len() - i,
    {
        if a[i] != b[i] {
            return false;
        }
        i = i + 1;
    }
    proof {
        assert(a@ =~= b@);
    }
    true
}

} // verus!
