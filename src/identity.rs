use vstd::prelude::*;

verus! {

/// The handle of a job: a 128-bit value chosen by the transfer engine.
#[derive(Clone, Copy, Debug, PartialEq, Eq, Hash, Structural)]
pub struct JobIdentity {
    pub value: u128,
}

/// Length of the canonical text `XXXXXXXX-XXXX-XXXX-XXXX-XXXXXXXXXXXX`.
pub const CANONICAL_LEN: usize = 36;

/// The `k`-th hex digit of `v`, most significant first (`k < 32`).
pub open spec fn nibble(v: u128, k: nat) -> u128 {
    (v >> ((124 - 4 * k) as u128)) & 15u128
}

/// The upper-case ASCII hex digit for `d < 16`.
pub open spec fn hex_char(d: u128) -> u8 {
    if d < 10 {
        (48 + d) as u8
    } else {
        (55 + d) as u8
    }
}

/// The value of an ASCII hex digit of either case.
pub open spec fn hex_value(c: u8) -> Option<u128> {
    if 48 <= c <= 57 {
        Some((c - 48) as u128)
    } else if 65 <= c <= 70 {
        Some((c - 55) as u128)
    } else if 97 <= c <= 102 {
        Some((c - 87) as u128)
    } else {
        None
    }
}

/// Where the hyphens of the canonical text stand.
pub open spec fn is_hyphen_pos(p: int) -> bool {
    p == 8 || p == 13 || p == 18 || p == 23
}

/// The position in the canonical text of the `k`-th hex digit.
pub open spec fn digit_pos(k: int) -> int {
    if k < 8 {
        k
    } else if k < 12 {
        k + 1
    } else if k < 16 {
        k + 2
    } else if k < 20 {
        k + 3
    } else {
        k + 4
    }
}

/// Which hex digit stands at position `p` of the canonical text (not a hyphen).
pub open spec fn digit_index(p: int) -> int {
    if p < 8 {
        p
    } else if p < 13 {
        p - 1
    } else if p < 18 {
        p - 2
    } else if p < 23 {
        p - 3
    } else {
        p - 4
    }
}

/// The canonical text of `v`: 32 upper-case hex digits, most significant
/// first, grouped 8-4-4-4-12 by hyphens.
pub open spec fn canonical_text(v: u128) -> Seq<u8> {
    Seq::new(
        CANONICAL_LEN as nat,
        |p: int|
            if is_hyphen_pos(p) {
                45u8
            } else {
                hex_char(nibble(v, digit_index(p) as nat))
            },
    )
}

/// A canonical text in either case: hyphens where they belong, hex digits
/// everywhere else.
pub open spec fn is_canonical(s: Seq<u8>) -> bool {
    &&& s.len() == CANONICAL_LEN
    &&& forall|p: int| 0 <= p < CANONICAL_LEN && is_hyphen_pos(p) ==> s[p] == 45u8
    &&& forall|k: int| 0 <= k < 32 ==> (#[trigger] hex_value(s[digit_pos(k)])).is_some()
}

/// `s` is a canonical text whose hex digits are those of `v`.
pub open spec fn parses_to(s: Seq<u8>, v: u128) -> bool {
    &&& is_canonical(s)
    &&& forall|k: int|
        0 <= k < 32 ==> nibble(v, k as nat) == (#[trigger] hex_value(s[digit_pos(k)])).unwrap()
}

fn hex_char_of(d: u128) -> (c: u8)
    requires
        d < 16,
    ensures
        c == hex_char(d),
{
    if d < 10 {
        48 + d as u8
    } else {
        55 + d as u8
    }
}

fn hex_value_of(c: u8) -> (r: Option<u128>)
    ensures
        r == hex_value(c),
{
    if 48 <= c && c <= 57 {
        Some((c - 48) as u128)
    } else if 65 <= c && c <= 70 {
        Some((c - 55) as u128)
    } else if 97 <= c && c <= 102 {
        Some((c - 87) as u128)
    } else {
        None
    }
}

proof fn lemma_shift_in_digit(acc: u128, d: u128, s: u128)
    by (bit_vector)
    requires
        d < 16,
        s <= 120,
    ensures
        (((acc << 4u128) | d) >> (s + 4)) & 15u128 == (acc >> s) & 15u128,
        ((acc << 4u128) | d) & 15u128 == d,
        ((acc << 4u128) | d) >> 0u128 == (acc << 4u128) | d,
{
}

proof fn lemma_low_digit_bound(x: u128)
    by (bit_vector)
    ensures
        x & 15u128 < 16,
{
}

proof fn lemma_digits_determine_value(a: u128, b: u128)
    by (bit_vector)
    requires
        (a >> 124u128) & 15u128 == (b >> 124u128) & 15u128,
        (a >> 120u128) & 15u128 == (b >> 120u128) & 15u128,
        (a >> 116u128) & 15u128 == (b >> 116u128) & 15u128,
        (a >> 112u128) & 15u128 == (b >> 112u128) & 15u128,
        (a >> 108u128) & 15u128 == (b >> 108u128) & 15u128,
        (a >> 104u128) & 15u128 == (b >> 104u128) & 15u128,
        (a >> 100u128) & 15u128 == (b >> 100u128) & 15u128,
        (a >> 96u128) & 15u128 == (b >> 96u128) & 15u128,
        (a >> 92u128) & 15u128 == (b >> 92u128) & 15u128,
        (a >> 88u128) & 15u128 == (b >> 88u128) & 15u128,
        (a >> 84u128) & 15u128 == (b >> 84u128) & 15u128,
        (a >> 80u128) & 15u128 == (b >> 80u128) & 15u128,
        (a >> 76u128) & 15u128 == (b >> 76u128) & 15u128,
        (a >> 72u128) & 15u128 == (b >> 72u128) & 15u128,
        (a >> 68u128) & 15u128 == (b >> 68u128) & 15u128,
        (a >> 64u128) & 15u128 == (b >> 64u128) & 15u128,
        (a >> 60u128) & 15u128 == (b >> 60u128) & 15u128,
        (a >> 56u128) & 15u128 == (b >> 56u128) & 15u128,
        (a >> 52u128) & 15u128 == (b >> 52u128) & 15u128,
        (a >> 48u128) & 15u128 == (b >> 48u128) & 15u128,
        (a >> 44u128) & 15u128 == (b >> 44u128) & 15u128,
        (a >> 40u128) & 15u128 == (b >> 40u128) & 15u128,
        (a >> 36u128) & 15u128 == (b >> 36u128) & 15u128,
        (a >> 32u128) & 15u128 == (b >> 32u128) & 15u128,
        (a >> 28u128) & 15u128 == (b >> 28u128) & 15u128,
        (a >> 24u128) & 15u128 == (b >> 24u128) & 15u128,
        (a >> 20u128) & 15u128 == (b >> 20u128) & 15u128,
        (a >> 16u128) & 15u128 == (b >> 16u128) & 15u128,
        (a >> 12u128) & 15u128 == (b >> 12u128) & 15u128,
        (a >> 8u128) & 15u128 == (b >> 8u128) & 15u128,
        (a >> 4u128) & 15u128 == (b >> 4u128) & 15u128,
        (a >> 0u128) & 15u128 == (b >> 0u128) & 15u128,
    ensures
        a == b,
{
}

/// The canonical text of an identity reads back as that identity and no other.
pub proof fn lemma_canonical_text_parses_back(v: u128, w: u128)
    ensures
        parses_to(canonical_text(v), w) <==> w == v,
{
    let t = canonical_text(v);
    assert forall|k: int| 0 <= k < 32 implies (#[trigger] hex_value(t[digit_pos(k)])).is_some()
        && hex_value(t[digit_pos(k)]).unwrap() == nibble(v, k as nat) by {
        assert(digit_index(digit_pos(k)) == k);
        assert(!is_hyphen_pos(digit_pos(k)));
        lemma_low_digit_bound(v >> ((124 - 4 * k) as u128));
    }
    assert forall|p: int| 0 <= p < CANONICAL_LEN && is_hyphen_pos(p) implies t[p] == 45u8 by {}
    assert(is_canonical(t));
    if parses_to(t, w) {
        assert(hex_value(t[digit_pos(0)]).is_some());
        assert(hex_value(t[digit_pos(1)]).is_some());
        assert(hex_value(t[digit_pos(2)]).is_some());
        assert(hex_value(t[digit_pos(3)]).is_some());
        assert(hex_value(t[digit_pos(4)]).is_some());
        assert(hex_value(t[digit_pos(5)]).is_some());
        assert(hex_value(t[digit_pos(6)]).is_some());
        assert(hex_value(t[digit_pos(7)]).is_some());
        assert(hex_value(t[digit_pos(8)]).is_some());
        assert(hex_value(t[digit_pos(9)]).is_some());
        assert(hex_value(t[digit_pos(10)]).is_some());
        assert(hex_value(t[digit_pos(11)]).is_some());
        assert(hex_value(t[digit_pos(12)]).is_some());
        assert(hex_value(t[digit_pos(13)]).is_some());
        assert(hex_value(t[digit_pos(14)]).is_some());
        assert(hex_value(t[digit_pos(15)]).is_some());
        assert(hex_value(t[digit_pos(16)]).is_some());
        assert(hex_value(t[digit_pos(17)]).is_some());
        assert(hex_value(t[digit_pos(18)]).is_some());
        assert(hex_value(t[digit_pos(19)]).is_some());
        assert(hex_value(t[digit_pos(20)]).is_some());
        assert(hex_value(t[digit_pos(21)]).is_some());
        assert(hex_value(t[digit_pos(22)]).is_some());
        assert(hex_value(t[digit_pos(23)]).is_some());
        assert(hex_value(t[digit_pos(24)]).is_some());
        assert(hex_value(t[digit_pos(25)]).is_some());
        assert(hex_value(t[digit_pos(26)]).is_some());
        assert(hex_value(t[digit_pos(27)]).is_some());
        assert(hex_value(t[digit_pos(28)]).is_some());
        assert(hex_value(t[digit_pos(29)]).is_some());
        assert(hex_value(t[digit_pos(30)]).is_some());
        assert(hex_value(t[digit_pos(31)]).is_some());
        lemma_digits_determine_value(w, v);
    }
}

impl JobIdentity {
    pub fn new(value: u128) -> (r: JobIdentity)
        ensures
            r.value == value,
    {
        JobIdentity { value }
    }

    pub fn value(&self) -> (r: u128)
        ensures
            r == self.value,
    {
        self.value
    }

    /// The canonical text of this identity, in ASCII.
    pub fn to_canonical(&self) -> (text: Vec<u8>)
        ensures
            text@ == canonical_text(self.value),
    {
        let mut text: Vec<u8> = Vec::new();
        let mut p: usize = 0;
        while p < CANONICAL_LEN
            invariant
                p <= CANONICAL_LEN,
                text@.len() == p,
                forall|q: int| 0 <= q < p ==> text@[q] == canonical_text(self.value)[q],
            decreases CANONICAL_LEN - p,
        {
            if p == 8 || p == 13 || p == 18 || p == 23 {
                text.push(45u8);
            } else {
                let k: usize = if p < 8 {
                    p
                } else if p < 13 {
                    p - 1
                } else if p < 18 {
                    p - 2
                } else if p < 23 {
                    p - 3
                } else {
                    p - 4
                };
                let shifted: u128 = self.value >> (124 - 4 * k as u128);
                let d: u128 = shifted & 15u128;
                proof {
                    lemma_low_digit_bound(shifted);
                }
                text.push(hex_char_of(d));
            }
            p = p + 1;
        }
        assert(text@ =~= canonical_text(self.value));
        text
    }

    /// Reads a canonical text of either case. Returns `None` exactly when the
    /// text is not canonical; otherwise each hex digit of the result is the
    /// digit written at its place.
    pub fn parse(text: &[u8]) -> (r: Option<JobIdentity>)
        ensures
            r is Some <==> is_canonical(text@),
            r is Some ==> parses_to(text@, r->Some_0.value),
    {
        if text.len() != CANONICAL_LEN {
            return None;
        }
        if text[8] != 45u8 || text[13] != 45u8 || text[18] != 45u8 || text[23] != 45u8 {
            assert(is_hyphen_pos(8) && is_hyphen_pos(13) && is_hyphen_pos(18) && is_hyphen_pos(23));
            return None;
        }
        let mut acc: u128 = 0;
        let mut k: usize = 0;
        while k < 32
            invariant
                k <= 32,
                text@.len() == CANONICAL_LEN,
                forall|p: int| 0 <= p < CANONICAL_LEN && is_hyphen_pos(p) ==> text@[p] == 45u8,
                forall|j: int| 0 <= j < k ==> (#[trigger] hex_value(text@[digit_pos(j)])).is_some(),
                forall|j: int|
                    0 <= j < k ==> (acc >> ((4 * (k - 1 - j)) as u128)) & 15u128 == (
                    #[trigger] hex_value(text@[digit_pos(j)])).unwrap(),
            decreases 32 - k,
        {
            let pos: usize = if k < 8 {
                k
            } else if k < 12 {
                k + 1
            } else if k < 16 {
                k + 2
            } else if k < 20 {
                k + 3
            } else {
                k + 4
            };
            let d = match hex_value_of(text[pos]) {
                Some(d) => d,
                None => {
                    assert(!(hex_value(text@[digit_pos(k as int)])).is_some());
                    return None;
                },
            };
            let next: u128 = (acc << 4u128) | d;
            proof {
                assert forall|j: int| 0 <= j < k + 1 implies (next >> ((4 * (k + 1 - 1 - j)) as u128))
                    & 15u128 == (#[trigger] hex_value(text@[digit_pos(j)])).unwrap() by {
                    if j < k {
                        lemma_shift_in_digit(acc, d, (4 * (k - 1 - j)) as u128);
                        assert((4 * (k - 1 - j)) as u128 + 4 == (4 * (k + 1 - 1 - j)) as u128);
                    } else {
                        lemma_shift_in_digit(acc, d, 0);
                        assert((next >> 0u128) & 15u128 == d);
                    }
                }
            }
            acc = next;
            k = k + 1;
        }
        Some(JobIdentity { value: acc })
    }
}

} // verus!
