//! Client and device ids are UUIDs, carried here as their 128-bit value;
//! their text form is the one the `uuid` crate writes.
use vstd::prelude::*;

verus! {

/// The lowercase hexadecimal digit for a value below 16.
pub open spec fn hex_digit_char(n: int) -> char {
    if n < 10 {
        (48 + n) as char
    } else {
        (87 + n) as char
    }
}

/// The `k`-th hexadecimal digit of `id`, counted from the most significant.
pub open spec fn nibble(id: u128, k: int) -> int {
    (id as int / vstd::arithmetic::power2::pow2((4 * (31 - k)) as nat) as int) % 16
}

/// The 32 lowercase hexadecimal digits of `id`, most significant first.
pub open spec fn hex32(id: u128) -> Seq<char> {
    Seq::new(32, |k: int| hex_digit_char(nibble(id, k)))
}

/// The hyphenated text of a UUID: its 32 digits in groups of 8-4-4-4-12.
pub open spec fn uuid_text(id: u128) -> Seq<char> {
    let s = hex32(id);
    s.subrange(0, 8) + "-"@ + s.subrange(8, 12) + "-"@ + s.subrange(12, 16) + "-"@ + s.subrange(
        16,
        20,
    ) + "-"@ + s.subrange(20, 32)
}

/// The value of the `j` most significant hexadecimal digits of `id`.
spec fn leading(id: u128, j: int) -> int {
    id as int / vstd::arithmetic::power2::pow2((4 * (32 - j)) as nat) as int
}

proof fn lemma_leading_step(id: u128, j: int)
    requires
        0 <= j < 32,
    ensures
        leading(id, j + 1) == leading(id, j) * 16 + nibble(id, j),
        0 <= nibble(id, j) < 16,
{
    let lo = (4 * (31 - j)) as nat;
    let p = vstd::arithmetic::power2::pow2(lo) as int;
    vstd::arithmetic::power2::lemma_pow2_pos(lo);
    vstd::arithmetic::power2::lemma_pow2_adds(lo, 4);
    vstd::arithmetic::power2::lemma2_to64();
    assert((4 * (32 - j)) as nat == lo + 4);
    let x = id as int / p;
    vstd::arithmetic::div_mod::lemma_fundamental_div_mod(x, 16);
    vstd::arithmetic::div_mod::lemma_div_denominator(id as int, p, 16);
    vstd::arithmetic::div_mod::lemma_mod_bound(x, 16);
    assert(leading(id, j + 1) == x);
    assert(leading(id, j) == x / 16);
}

proof fn lemma_leading_ends(id: u128)
    ensures
        leading(id, 0) == 0,
        leading(id, 32) == id,
{
    vstd::arithmetic::power2::lemma2_to64();
    vstd::arithmetic::power2::lemma_pow2_adds(64, 64);
    vstd::arithmetic::div_mod::lemma_basic_div(id as int, vstd::arithmetic::power2::pow2(128) as int);
    vstd::arithmetic::div_mod::lemma_div_basics(id as int);
    assert((4 * (32 - 32int)) as nat == 0);
}

/// Ids with the same digits agree on their leading digits.
proof fn lemma_leading_agree(a: u128, b: u128, j: int)
    requires
        0 <= j <= 32,
        forall|k: int| 0 <= k < 32 ==> nibble(a, k) == nibble(b, k),
    ensures
        leading(a, j) == leading(b, j),
    decreases j,
{
    if j == 0 {
        lemma_leading_ends(a);
        lemma_leading_ends(b);
    } else {
        lemma_leading_agree(a, b, j - 1);
        lemma_leading_step(a, j - 1);
        lemma_leading_step(b, j - 1);
    }
}

/// Two ids with the same digits are the same id.
proof fn lemma_nibbles_determine(a: u128, b: u128)
    requires
        forall|k: int| 0 <= k < 32 ==> nibble(a, k) == nibble(b, k),
    ensures
        a == b,
{
    lemma_leading_ends(a);
    lemma_leading_ends(b);
    lemma_leading_agree(a, b, 32);
}

/// The text of a UUID has 36 characters.
pub proof fn lemma_uuid_text_len(id: u128)
    ensures
        uuid_text(id).len() == 36,
{
    reveal_strlit("-");
}

/// Different ids have different texts.
pub proof fn lemma_uuid_text_injective(a: u128, b: u128)
    requires
        uuid_text(a) == uuid_text(b),
    ensures
        a == b,
{
    reveal_strlit("-");
    let ua = uuid_text(a);
    let ub = uuid_text(b);
    assert forall|k: int| 0 <= k < 32 implies nibble(a, k) == nibble(b, k) by {
        let pos = if k < 8 {
            k
        } else if k < 12 {
            k + 1
        } else if k < 16 {
            k + 2
        } else if k < 20 {
            k + 3
        } else {
            k + 4
        };
        assert(ua[pos] == hex32(a)[k]);
        assert(ub[pos] == hex32(b)[k]);
        lemma_nibble_range(a, k);
        lemma_nibble_range(b, k);
    }
    lemma_nibbles_determine(a, b);
}

proof fn lemma_nibble_range(id: u128, k: int)
    ensures
        0 <= nibble(id, k) < 16,
{
    vstd::arithmetic::div_mod::lemma_mod_bound(
        id as int / vstd::arithmetic::power2::pow2((4 * (31 - k)) as nat) as int,
        16,
    );
}

/// `Uuid::from_u128(id).to_string()`: the `uuid` crate writes a UUID as its
/// 32 lowercase hexadecimal digits (big-endian) in hyphenated groups
/// 8-4-4-4-12.
#[verifier::external_body]
pub(crate) fn uuid_string(id: u128) -> (r: String)
    ensures
        r@ == uuid_text(id),
{
    uuid::Uuid::from_u128(id).to_string()
}

} // verus!
