use vstd::prelude::*;

verus! {

/// Byte `k` of the `n` low bytes of `v`, most significant first.
pub open spec fn be_byte(v: u128, n: nat, k: nat) -> u8 {
    ((v >> ((8 * (n - 1 - k)) as u128)) & 255u128) as u8
}

/// The `n` low bytes of `v`, most significant first.
pub open spec fn be_bytes(v: u128, n: nat) -> Seq<u8> {
    Seq::new(n, |k: int| be_byte(v, n, k as nat))
}

/// `v` fits in `n` bytes.
pub open spec fn fits(v: u128, n: nat) -> bool {
    n >= 16 || v >> ((8 * n) as u128) == 0
}

proof fn lemma_low_byte(x: u128)
    by (bit_vector)
    ensures
        x & 255u128 < 256,
{
}

proof fn lemma_shift_in_byte(acc: u128, b: u128, s: u128)
    by (bit_vector)
    requires
        b < 256,
        s <= 112,
    ensures
        (((acc << 8u128) | b) >> (s + 8)) & 255u128 == (acc >> s) & 255u128,
        ((acc << 8u128) | b) >> 0u128 == (acc << 8u128) | b,
        ((acc << 8u128) | b) & 255u128 == b,
        acc >> s == 0 ==> ((acc << 8u128) | b) >> (s + 8) == 0,
{
}

proof fn lemma_first_byte(b: u128)
    by (bit_vector)
    requires
        b < 256,
    ensures
        ((0u128 << 8u128) | b) >> 8u128 == 0,
{
}

proof fn lemma_bytes_determine_value_4(a: u128, b: u128)
    by (bit_vector)
    requires
        a >> 32u128 == 0,
        b >> 32u128 == 0,
        (a >> 24u128) & 255u128 == (b >> 24u128) & 255u128,
        (a >> 16u128) & 255u128 == (b >> 16u128) & 255u128,
        (a >> 8u128) & 255u128 == (b >> 8u128) & 255u128,
        (a >> 0u128) & 255u128 == (b >> 0u128) & 255u128,
    ensures
        a == b,
{
}
proof fn lemma_bytes_determine_value_8(a: u128, b: u128)
    by (bit_vector)
    requires
        a >> 64u128 == 0,
        b >> 64u128 == 0,
        (a >> 56u128) & 255u128 == (b >> 56u128) & 255u128,
        (a >> 48u128) & 255u128 == (b >> 48u128) & 255u128,
        (a >> 40u128) & 255u128 == (b >> 40u128) & 255u128,
        (a >> 32u128) & 255u128 == (b >> 32u128) & 255u128,
        (a >> 24u128) & 255u128 == (b >> 24u128) & 255u128,
        (a >> 16u128) & 255u128 == (b >> 16u128) & 255u128,
        (a >> 8u128) & 255u128 == (b >> 8u128) & 255u128,
        (a >> 0u128) & 255u128 == (b >> 0u128) & 255u128,
    ensures
        a == b,
{
}
proof fn lemma_bytes_determine_value_16(a: u128, b: u128)
    by (bit_vector)
    requires
        (a >> 120u128) & 255u128 == (b >> 120u128) & 255u128,
        (a >> 112u128) & 255u128 == (b >> 112u128) & 255u128,
        (a >> 104u128) & 255u128 == (b >> 104u128) & 255u128,
        (a >> 96u128) & 255u128 == (b >> 96u128) & 255u128,
        (a >> 88u128) & 255u128 == (b >> 88u128) & 255u128,
        (a >> 80u128) & 255u128 == (b >> 80u128) & 255u128,
        (a >> 72u128) & 255u128 == (b >> 72u128) & 255u128,
        (a >> 64u128) & 255u128 == (b >> 64u128) & 255u128,
        (a >> 56u128) & 255u128 == (b >> 56u128) & 255u128,
        (a >> 48u128) & 255u128 == (b >> 48u128) & 255u128,
        (a >> 40u128) & 255u128 == (b >> 40u128) & 255u128,
        (a >> 32u128) & 255u128 == (b >> 32u128) & 255u128,
        (a >> 24u128) & 255u128 == (b >> 24u128) & 255u128,
        (a >> 16u128) & 255u128 == (b >> 16u128) & 255u128,
        (a >> 8u128) & 255u128 == (b >> 8u128) & 255u128,
        (a >> 0u128) & 255u128 == (b >> 0u128) & 255u128,
    ensures
        a == b,
{
}

proof fn lemma_byte_eq(a: u128, b: u128, n: nat, k: nat)
    requires
        k < n,
        be_bytes(a, n)[k as int] == be_bytes(b, n)[k as int],
    ensures
        (a >> ((8 * (n - 1 - k)) as u128)) & 255u128 == (b >> ((8 * (n - 1 - k)) as u128)) & 255u128,
{
    lemma_low_byte(a >> ((8 * (n - 1 - k)) as u128));
    lemma_low_byte(b >> ((8 * (n - 1 - k)) as u128));
}

/// Equal byte strings of the same width come from equal values.
pub proof fn lemma_be_bytes_injective(a: u128, b: u128, n: nat)
    requires
        n == 4 || n == 8 || n == 16,
        fits(a, n),
        fits(b, n),
        be_bytes(a, n) == be_bytes(b, n),
    ensures
        a == b,
{
    if n == 4 {
        lemma_byte_eq(a, b, 4, 0);
        lemma_byte_eq(a, b, 4, 1);
        lemma_byte_eq(a, b, 4, 2);
        lemma_byte_eq(a, b, 4, 3);
        lemma_bytes_determine_value_4(a, b);
    } else if n == 8 {
        lemma_byte_eq(a, b, 8, 0);
        lemma_byte_eq(a, b, 8, 1);
        lemma_byte_eq(a, b, 8, 2);
        lemma_byte_eq(a, b, 8, 3);
        lemma_byte_eq(a, b, 8, 4);
        lemma_byte_eq(a, b, 8, 5);
        lemma_byte_eq(a, b, 8, 6);
        lemma_byte_eq(a, b, 8, 7);
        lemma_bytes_determine_value_8(a, b);
    } else {
        lemma_byte_eq(a, b, 16, 0);
        lemma_byte_eq(a, b, 16, 1);
        lemma_byte_eq(a, b, 16, 2);
        lemma_byte_eq(a, b, 16, 3);
        lemma_byte_eq(a, b, 16, 4);
        lemma_byte_eq(a, b, 16, 5);
        lemma_byte_eq(a, b, 16, 6);
        lemma_byte_eq(a, b, 16, 7);
        lemma_byte_eq(a, b, 16, 8);
        lemma_byte_eq(a, b, 16, 9);
        lemma_byte_eq(a, b, 16, 10);
        lemma_byte_eq(a, b, 16, 11);
        lemma_byte_eq(a, b, 16, 12);
        lemma_byte_eq(a, b, 16, 13);
        lemma_byte_eq(a, b, 16, 14);
        lemma_byte_eq(a, b, 16, 15);
        lemma_bytes_determine_value_16(a, b);
    }
}

/// Appends the `n` low bytes of `v`, most significant first.
pub fn push_be(out: &mut Vec<u8>, v: u128, n: usize)
    requires
        n <= 16,
    ensures
        final(out)@ == old(out)@ + be_bytes(v, n as nat),
{
    let ghost start = old(out)@;
    let mut k: usize = 0;
    while k < n
        invariant
            n <= 16,
            k <= n,
            out@ == start + be_bytes(v, n as nat).take(k as int),
        decreases n - k,
    {
        let shifted: u128 = v >> (8 * (n - 1 - k) as u128);
        proof {
            lemma_low_byte(shifted);
        }
        let b: u8 = (shifted & 255u128) as u8;
        out.push(b);
        assert(be_bytes(v, n as nat).take(k + 1) =~= be_bytes(v, n as nat).take(k as int).push(b));
        k = k + 1;
    }
    assert(be_bytes(v, n as nat).take(n as int) =~= be_bytes(v, n as nat));
}

/// Reads `n` bytes from `start` as a big-endian number.
pub fn read_be(s: &[u8], start: usize, n: usize) -> (r: u128)
    requires
        1 <= n <= 16,
        start + n <= s@.len(),
    ensures
        be_bytes(r, n as nat) == s@.subrange(start as int, start + n),
        fits(r, n as nat),
{
    let mut acc: u128 = 0;
    let mut i: usize = 0;
    while i < n
        invariant
            1 <= n <= 16,
            start + n <= s.len(),
            i <= n,
            forall|j: int|
                0 <= j < i ==> (acc >> ((8 * (i - 1 - j)) as u128)) & 255u128 == (
                #[trigger] s@[start + j]) as u128,
            i == 0 ==> acc == 0,
            0 < i < 16 ==> acc >> ((8 * i) as u128) == 0,
        decreases n - i,
    {
        let b: u128 = s[start + i] as u128;
        let next: u128 = (acc << 8u128) | b;
        proof {
            assert forall|j: int| 0 <= j < i + 1 implies (next >> ((8 * (i + 1 - 1 - j)) as u128))
                & 255u128 == (#[trigger] s@[start + j]) as u128 by {
                if j < i {
                    lemma_shift_in_byte(acc, b, (8 * (i - 1 - j)) as u128);
                    assert((8 * (i - 1 - j)) as u128 + 8 == (8 * (i + 1 - 1 - j)) as u128);
                } else {
                    lemma_shift_in_byte(acc, b, 0);
                }
            }
            if i == 0 {
                lemma_first_byte(b);
            } else if i + 1 < 16 {
                lemma_shift_in_byte(acc, b, (8 * i) as u128);
                assert((8 * i) as u128 + 8 == (8 * (i + 1)) as u128);
            }
        }
        acc = next;
        i = i + 1;
    }
    assert forall|k: int| 0 <= k < n implies #[trigger] be_bytes(acc, n as nat)[k]
        == s@.subrange(start as int, start + n)[k] by {
        assert(s@.subrange(start as int, start + n)[k] == s@[start + k]);
        lemma_low_byte(acc >> ((8 * (n - 1 - k)) as u128));
    }
    assert(be_bytes(acc, n as nat) =~= s@.subrange(start as int, start + n));
    acc
}

} // verus!
