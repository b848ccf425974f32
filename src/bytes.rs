use vstd::prelude::*;

verus! {

/// `256^n`.
pub open spec fn pow256(n: nat) -> nat
    decreases n,
{
    if n == 0 {
        1
    } else {
        256 * pow256((n - 1) as nat)
    }
}

/// The unsigned little-endian integer held by the `n` bytes of `s` that start at `i`.
pub open spec fn le_uint(s: Seq<u8>, i: int, n: nat) -> nat
    decreases n,
{
    if n == 0 {
        0
    } else {
        (s[i] as nat + 256 * le_uint(s, i + 1, (n - 1) as nat)) as nat
    }
}

/// Reinterprets an `n`-byte unsigned value as a two's complement signed value.
pub open spec fn sign_extended(v: int, n: nat) -> int {
    if n >= 1 && v >= 128 * pow256((n - 1) as nat) {
        v - 256 * pow256((n - 1) as nat)
    } else {
        v
    }
}

pub proof fn lemma_pow256_values()
    ensures
        pow256(0) == 1,
        pow256(1) == 0x100,
        pow256(2) == 0x1_0000,
        pow256(3) == 0x100_0000,
        pow256(4) == 0x1_0000_0000,
        pow256(5) == 0x100_0000_0000,
        pow256(6) == 0x1_0000_0000_0000,
        pow256(7) == 0x100_0000_0000_0000,
        pow256(8) == 0x1_0000_0000_0000_0000,
{
    reveal_with_fuel(pow256, 9);
}

pub proof fn lemma_le_uint_bound(s: Seq<u8>, i: int, n: nat)
    ensures
        le_uint(s, i, n) < pow256(n),
    decreases n,
{
    if n > 0 {
        lemma_le_uint_bound(s, i + 1, (n - 1) as nat);
    }
}

/// Reads the unsigned little-endian integer of `n` bytes (at most 8) at `offset`.
pub fn read_le(data: &[u8], offset: usize, n: usize) -> (r: u64)
    requires
        n <= 8,
        offset + n <= data@.len(),
    ensures
        r == le_uint(data@, offset as int, n as nat),
{
    proof {
        lemma_pow256_values();
    }
    let len: usize = data.len();
    let mut v: u64 = 0;
    let mut k: usize = n;
    while k > 0
        invariant
            k <= n <= 8,
            offset + n <= data@.len() == len,
            v == le_uint(data@, offset + k, (n - k) as nat),
            pow256(8) == 0x1_0000_0000_0000_0000,
        decreases k,
    {
        k = k - 1;
        proof {
            lemma_le_uint_bound(data@, offset + k + 1, (n - k - 1) as nat);
            lemma_pow256_le((n - k - 1) as nat, 7);
            lemma_pow256_values();
        }
        let idx: usize = offset + k;
        let b: u8 = data[idx];
        v = v * 256 + b as u64;
    }
    v
}

pub proof fn lemma_pow256_le(a: nat, b: nat)
    requires
        a <= b,
    ensures
        1 <= pow256(a) <= pow256(b),
    decreases b,
{
    if b > a {
        lemma_pow256_le(a, (b - 1) as nat);
    } else if a > 0 {
        lemma_pow256_le((a - 1) as nat, (a - 1) as nat);
    }
}

/// Widens a field of `byte_count` bytes (1 to 8) to 64 bits, copying its sign bit
/// into the upper bits.
pub fn sign_extend(value: u64, byte_count: u8) -> (r: i64)
    requires
        1 <= byte_count <= 8,
        value < pow256(byte_count as nat),
    ensures
        r == sign_extended(value as int, byte_count as nat),
{
    proof {
        lemma_pow256_values();
        lemma_pow256_le((byte_count - 1) as nat, 7);
    }
    let mut p: u64 = 1;
    let mut i: u8 = 0;
    while i < byte_count - 1
        invariant
            i <= byte_count - 1,
            byte_count <= 8,
            p == pow256(i as nat),
            pow256(7) == 0x100_0000_0000_0000,
        decreases byte_count - 1 - i,
    {
        proof {
            lemma_pow256_le(i as nat, 6);
        }
        p = p * 256;
        i = i + 1;
    }
    let half: u64 = 128 * p;
    let mask: u64 = (half - 1) + half;
    if value >= half {
        -((mask - value) as i64) - 1
    } else {
        value as i64
    }
}

} // verus!
