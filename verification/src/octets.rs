//! Big-endian integers in byte buffers.

use vstd::prelude::*;

verus! {

/// The number of values that `n` bytes can tell apart.
pub open spec fn pow256(n: nat) -> nat
    decreases n,
{
    if n == 0 {
        1
    } else {
        256 * pow256((n - 1) as nat)
    }
}

/// The value that the bytes of `s` spell, most significant byte first.
pub open spec fn be_value(s: Seq<u8>) -> nat
    decreases s.len(),
{
    if s.len() == 0 {
        0
    } else {
        be_value(s.drop_last()) * 256 + s.last() as nat
    }
}

/// The `n` low bytes of `x`, most significant byte first.
pub open spec fn be_bytes(x: nat, n: nat) -> Seq<u8>
    decreases n,
{
    if n == 0 {
        Seq::empty()
    } else {
        be_bytes(x / 256, (n - 1) as nat).push((x % 256) as u8)
    }
}

/// The value of the `n` bytes of `s` that start at `at`.
pub open spec fn be_at(s: Seq<u8>, at: int, n: int) -> nat {
    be_value(s.subrange(at, at + n))
}

/// The widths that headers use, written out.
pub proof fn lemma_pow256_values()
    ensures
        pow256(1) == 0x100,
        pow256(2) == 0x1_0000,
        pow256(4) == 0x1_0000_0000,
        pow256(16) == 0x1_0000_0000_0000_0000_0000_0000_0000_0000,
{
    reveal_with_fuel(pow256, 17);
}

pub proof fn lemma_pow256_increases(m: nat, n: nat)
    requires
        m <= n,
    ensures
        0 < pow256(m) <= pow256(n),
    decreases n,
{
    if m < n {
        lemma_pow256_increases(m, (n - 1) as nat);
    } else if n > 0 {
        lemma_pow256_increases((n - 1) as nat, (n - 1) as nat);
    }
}

/// `n` bytes spell a value below `pow256(n)`.
pub proof fn lemma_be_value_bound(s: Seq<u8>)
    ensures
        be_value(s) < pow256(s.len()),
    decreases s.len(),
{
    if s.len() > 0 {
        lemma_be_value_bound(s.drop_last());
    }
}

pub broadcast proof fn lemma_be_bytes_len(x: nat, n: nat)
    ensures
        #[trigger] be_bytes(x, n).len() == n,
    decreases n,
{
    if n > 0 {
        lemma_be_bytes_len(x / 256, (n - 1) as nat);
    }
}

/// Writing a value that fits into `n` bytes and reading it back gives the value.
pub proof fn lemma_be_round_trip(x: nat, n: nat)
    requires
        x < pow256(n),
    ensures
        be_bytes(x, n).len() == n,
        be_value(be_bytes(x, n)) == x,
    decreases n,
{
    lemma_be_bytes_len(x, n);
    if n > 0 {
        let high = be_bytes(x / 256, (n - 1) as nat);
        lemma_be_round_trip(x / 256, (n - 1) as nat);
        assert(be_bytes(x, n).drop_last() =~= high);
    }
}

/// Appends the `n` low bytes of `x`, most significant byte first.
pub fn push_be(out: &mut Vec<u8>, x: u128, n: usize)
    ensures
        final(out)@ == old(out)@ + be_bytes(x as nat, n as nat),
    decreases n,
{
    if n > 0 {
        push_be(out, x / 256, n - 1);
        out.push((x % 256) as u8);
    }
}

/// Reads the `n` bytes of `buf` that start at `at` as one integer, most significant byte first.
pub fn read_be(buf: &[u8], at: usize, n: usize) -> (x: u128)
    requires
        n <= 16,
        at + n <= buf.len(),
    ensures
        x == be_at(buf@, at as int, n as int),
        x < pow256(n as nat),
{
    let mut x: u128 = 0;
    let mut i: usize = 0;
    assert(buf@.subrange(at as int, at as int) =~= Seq::empty());
    while i < n
        invariant
            i <= n <= 16,
            at + n <= buf.len(),
            x == be_at(buf@, at as int, i as int),
        decreases n - i,
    {
        proof {
            let next = buf@.subrange(at as int, at + i + 1);
            assert(next.drop_last() =~= buf@.subrange(at as int, at + i));
            lemma_be_value_bound(next);
            lemma_pow256_increases(next.len(), 16);
            lemma_pow256_values();
        }
        x = x * 256 + buf[at + i] as u128;
        i += 1;
    }
    proof {
        lemma_be_value_bound(buf@.subrange(at as int, at + n));
    }
    x
}

/// Bytes are read from the most significant one on: the first of them counts `pow256` of those
/// behind it, no bytes are zero, and each byte more multiplies what a byte counts by 256.
pub proof fn law_most_significant_first(s: Seq<u8>, n: nat)
    ensures
        s.len() == 0 ==> be_value(s) == 0,
        s.len() > 0 ==> be_value(s) == s[0] * pow256((s.len() - 1) as nat) + be_value(s.skip(1)),
        pow256(0) == 1,
        pow256(n + 1) == 256 * pow256(n),
    decreases s.len(),
{
    reveal_with_fuel(pow256, 2);
    reveal_with_fuel(be_value, 2);
    if s.len() > 1 {
        let rest = s.drop_last();
        let k = (rest.len() - 1) as nat;
        law_most_significant_first(rest, 0);
        assert(rest.skip(1) =~= s.skip(1).drop_last());
        assert(rest[0] == s[0]);
        assert(s[0] * pow256(k) * 256 == s[0] * (256 * pow256(k))) by (nonlinear_arith);
    } else if s.len() == 1 {
        assert(s.drop_last() =~= Seq::empty());
        assert(s.skip(1) =~= Seq::empty());
    }
}

/// Bytes that are written spell the value that they were written from, as far as they can.
pub proof fn law_written_bytes_spell(x: nat, n: nat)
    ensures
        be_bytes(x, n).len() == n,
        be_value(be_bytes(x, n)) == x % pow256(n),
    decreases n,
{
    lemma_be_bytes_len(x, n);
    lemma_pow256_increases(0, n);
    if n > 0 {
        let m = (n - 1) as nat;
        let p = pow256(m);
        law_written_bytes_spell(x / 256, m);
        lemma_pow256_increases(0, m);
        assert(be_bytes(x, n).drop_last() =~= be_bytes(x / 256, m));
        vstd::arithmetic::div_mod::lemma_mod_breakdown(x as int, 256, p as int);
    }
}

/// Two and four bytes, written out.
pub proof fn lemma_be_at_words(s: Seq<u8>, at: int)
    requires
        0 <= at,
        at + 2 <= s.len(),
    ensures
        be_at(s, at, 2) == s[at] * 0x100 + s[at + 1],
        at + 4 <= s.len() ==> be_at(s, at, 4) == s[at] * 0x100_0000 + s[at + 1] * 0x1_0000 + s[at
            + 2] * 0x100 + s[at + 3],
{
    reveal_with_fuel(be_value, 5);
    let two = s.subrange(at, at + 2);
    assert(two.drop_last() =~= s.subrange(at, at + 1));
    assert(two.drop_last().drop_last() =~= Seq::empty());
    if at + 4 <= s.len() {
        let four = s.subrange(at, at + 4);
        assert(four.drop_last() =~= s.subrange(at, at + 3));
        assert(four.drop_last().drop_last() =~= two);
    }
}

} // verus!
