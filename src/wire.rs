//! Little-endian byte model shared by every fixed-width encoding.
use vstd::prelude::*;

verus! {

/// 256 raised to the power `n`: one more than the largest value of `n` bytes.
pub open spec fn pow256(n: nat) -> nat
    decreases n,
{
    if n == 0 {
        1
    } else {
        256 * pow256((n - 1) as nat)
    }
}

/// The `n` low-order bytes of `v`, least significant first.
pub open spec fn le_bytes(v: nat, n: nat) -> Seq<u8>
    decreases n,
{
    if n == 0 {
        Seq::empty()
    } else {
        seq![(v % 256) as u8] + le_bytes(v / 256, (n - 1) as nat)
    }
}

/// The unsigned number that bytes denote, least significant first.
pub open spec fn le_value(s: Seq<u8>) -> nat
    decreases s.len(),
{
    if s.len() == 0 {
        0
    } else {
        s[0] as nat + 256 * le_value(s.drop_first())
    }
}

/// `n` zero bytes.
pub open spec fn zeros(n: nat) -> Seq<u8> {
    Seq::new(n, |i: int| 0u8)
}

pub proof fn lemma_pow256_values()
    ensures
        pow256(1) == 0x100,
        pow256(2) == 0x1_0000,
        pow256(3) == 0x100_0000,
        pow256(4) == 0x1_0000_0000,
        pow256(8) == 0x1_0000_0000_0000_0000,
        pow256(16) == 0x1_0000_0000_0000_0000_0000_0000_0000_0000,
{
    reveal_with_fuel(pow256, 17);
}

pub proof fn lemma_pow256_monotone(a: nat, b: nat)
    requires
        a <= b,
    ensures
        pow256(a) <= pow256(b),
    decreases b,
{
    if a < b {
        lemma_pow256_monotone(a, (b - 1) as nat);
    }
}

pub proof fn lemma_le_bytes_len(v: nat, n: nat)
    ensures
        le_bytes(v, n).len() == n,
    decreases n,
{
    if n > 0 {
        lemma_le_bytes_len(v / 256, (n - 1) as nat);
    }
}

/// Reading back the bytes of a value that fits gives the value.
pub proof fn lemma_le_value_of_bytes(v: nat, n: nat)
    requires
        v < pow256(n),
    ensures
        le_value(le_bytes(v, n)) == v,
        le_bytes(v, n).len() == n,
    decreases n,
{
    lemma_le_bytes_len(v, n);
    if n > 0 {
        let p = pow256((n - 1) as nat);
        assert(v / 256 < p) by (nonlinear_arith)
            requires
                v < 256 * p,
        ;
        lemma_le_value_of_bytes(v / 256, (n - 1) as nat);
        assert(le_bytes(v, n).drop_first() =~= le_bytes(v / 256, (n - 1) as nat));
    }
}

/// The value of `n` bytes is below 256^n.
pub proof fn lemma_le_value_bound(s: Seq<u8>)
    ensures
        le_value(s) < pow256(s.len()),
    decreases s.len(),
{
    if s.len() > 0 {
        lemma_le_value_bound(s.drop_first());
        let x = le_value(s.drop_first());
        let p = pow256((s.len() - 1) as nat);
        assert(s[0] as nat + 256 * x < 256 * p) by (nonlinear_arith)
            requires
                x < p,
                s[0] < 256,
        ;
    }
}

/// The `n` low-order bytes of `v`, least significant first.
pub fn le_encode(v: u128, n: usize) -> (r: Vec<u8>)
    ensures
        r@ == le_bytes(v as nat, n as nat),
{
    let mut r: Vec<u8> = Vec::new();
    let mut x: u128 = v;
    let mut i: usize = 0;
    while i < n
        invariant
            i <= n,
            r@ + le_bytes(x as nat, (n - i) as nat) == le_bytes(v as nat, n as nat),
        decreases n - i,
    {
        let ghost rest = le_bytes(x as nat / 256, (n - i - 1) as nat);
        assert(le_bytes(x as nat, (n - i) as nat) == seq![(x as nat % 256) as u8] + rest);
        r.push((x % 256) as u8);
        assert(r@ + rest =~= le_bytes(v as nat, n as nat));
        x = x / 256;
        i = i + 1;
    }
    assert(r@ + le_bytes(x as nat, 0) =~= r@);
    r
}

/// The number that `n` bytes of `buffer` from `at` denote, least significant first.
pub fn le_decode(buffer: &[u8], at: usize, n: usize) -> (r: u128)
    requires
        at + n <= buffer@.len(),
        at + n <= usize::MAX,
        n <= 16,
    ensures
        r as nat == le_value(buffer@.subrange(at as int, at + n)),
{
    let mut acc: u128 = 0;
    let mut k: usize = n;
    proof {
        assert(buffer@.subrange(at + n, at + n).len() == 0);
    }
    while k > 0
        invariant
            k <= n <= 16,
            at + n <= buffer@.len(),
            at + n <= usize::MAX,
            acc as nat == le_value(buffer@.subrange(at + k, at + n)),
        decreases k,
    {
        let ghost tail = buffer@.subrange(at + k, at + n);
        let ghost whole = buffer@.subrange(at + k - 1, at + n);
        proof {
            assert(whole.drop_first() =~= tail);
            lemma_le_value_bound(tail);
            lemma_pow256_monotone(tail.len(), 15);
            lemma_pow256_values();
            reveal_with_fuel(pow256, 2);
            assert(acc * 256 + 255 < pow256(16)) by (nonlinear_arith)
                requires
                    acc < pow256(tail.len()),
                    pow256(tail.len()) <= pow256(15),
                    pow256(16) == 256 * pow256(15),
            ;
        }
        acc = acc * 256 + buffer[at + k - 1] as u128;
        k = k - 1;
    }
    acc
}

} // verus!
