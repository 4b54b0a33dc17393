//! UUIDs and the text that they are written as.

use vstd::prelude::*;

verus! {

/// A UUID, as the number that its bits stand for.
#[derive(Clone, Copy, Debug, PartialEq, Eq, Structural)]
pub struct Uuid {
    pub value: u128,
}

/// The `k`-th of the 32 hexadecimal digits of `value`, counted from the most
/// significant one.
pub open spec fn nibble(value: u128, k: int) -> u128 {
    (value >> ((124 - 4 * k) as u128)) & 15
}

/// The character for a hexadecimal digit, in lowercase.
pub open spec fn hex_char(digit: u128) -> char {
    if digit < 10 {
        ('0' as u32 + digit) as char
    } else {
        ('a' as u32 + (digit - 10)) as char
    }
}

/// Position `i` of a hyphenated UUID holds a hyphen.
pub open spec fn is_hyphen_position(i: int) -> bool {
    i == 8 || i == 13 || i == 18 || i == 23
}

/// Which of the digits stands at position `i` of a hyphenated UUID.
pub open spec fn digit_at(i: int) -> int {
    if i < 8 {
        i
    } else if i < 13 {
        i - 1
    } else if i < 18 {
        i - 2
    } else if i < 23 {
        i - 3
    } else {
        i - 4
    }
}

/// The hyphenated text of a UUID, such as `67e55044-10b1-426f-9247-bb680e5fe0c8`.
pub open spec fn hyphenated(value: u128) -> Seq<char> {
    Seq::new(
        36,
        |i: int|
            if is_hyphen_position(i) {
                '-'
            } else {
                hex_char(nibble(value, digit_at(i)))
            },
    )
}

/// Formats `uuid::Uuid::from_u128(value)` with its `Display`, which writes the
/// hyphenated text: 32 lowercase hexadecimal digits, most significant first, in
/// groups of 8, 4, 4, 4 and 12.
#[verifier::external_body]
fn format_uuid(value: u128) -> (r: String)
    ensures
        r@ == hyphenated(value),
{
    uuid::Uuid::from_u128(value).to_string()
}

impl Uuid {
    /// The UUID whose bits stand for `value`.
    pub fn from_u128(value: u128) -> (r: Uuid)
        ensures
            r.value == value,
    {
        Uuid { value }
    }

    /// The hyphenated text of the UUID.
    pub fn text(&self) -> (r: String)
        ensures
            r@ == hyphenated(self.value),
    {
        format_uuid(self.value)
    }
}

proof fn lemma_top_digit(a: u128, b: u128)
    by (bit_vector)
    requires
        (a >> 124u128) & 15 == (b >> 124u128) & 15,
    ensures
        a >> 124u128 == b >> 124u128,
{
}

proof fn lemma_next_digit(a: u128, b: u128, low: u128, high: u128)
    by (bit_vector)
    requires
        low <= 120,
        high == low + 4,
        a >> high == b >> high,
        (a >> low) & 15 == (b >> low) & 15,
    ensures
        a >> low == b >> low,
{
}

/// Numbers that agree in their first `k + 1` digits agree in what those digits stand
/// for.
proof fn lemma_leading_digits(a: u128, b: u128, k: int)
    requires
        0 <= k < 32,
        forall|i: int| 0 <= i < 32 ==> #[trigger] nibble(a, i) == nibble(b, i),
    ensures
        a >> ((124 - 4 * k) as u128) == b >> ((124 - 4 * k) as u128),
    decreases k,
{
    assert(nibble(a, k) == nibble(b, k));
    if k == 0 {
        lemma_top_digit(a, b);
    } else {
        lemma_leading_digits(a, b, k - 1);
        lemma_next_digit(a, b, (124 - 4 * k) as u128, (128 - 4 * k) as u128);
    }
}

proof fn lemma_hex_char_injective(a: u128, b: u128)
    requires
        a < 16,
        b < 16,
        hex_char(a) == hex_char(b),
    ensures
        a == b,
{
    let code_a: int = if a < 10 { 48 + a } else { 87 + a };
    let code_b: int = if b < 10 { 48 + b } else { 87 + b };
    assert(hex_char(a) as int == code_a);
    assert(hex_char(b) as int == code_b);
}

/// Different UUIDs have different texts.
pub proof fn lemma_hyphenated_injective(a: u128, b: u128)
    requires
        hyphenated(a) == hyphenated(b),
    ensures
        a == b,
{
    assert forall|k: int| 0 <= k < 32 implies #[trigger] nibble(a, k) == nibble(b, k) by {
        let i = if k < 8 {
            k
        } else if k < 12 {
            k + 1
        } else if k < 16 {
            k + 2
        } else if k < 20 {
            k + 3
        } else {
            k + 4
        };
        assert(digit_at(i) == k && !is_hyphen_position(i));
        assert(hyphenated(a)[i] == hex_char(nibble(a, digit_at(i))));
        assert(hyphenated(b)[i] == hex_char(nibble(b, digit_at(i))));
        let shift = (124 - 4 * k) as u128;
        assert((a >> shift) & 15 < 16) by (bit_vector);
        assert((b >> shift) & 15 < 16) by (bit_vector);
        assert(hex_char(nibble(a, k)) == hex_char(nibble(b, k)));
        lemma_hex_char_injective(nibble(a, k), nibble(b, k));
    }
    lemma_leading_digits(a, b, 31);
    assert(a >> 0u128 == a) by (bit_vector);
    assert(b >> 0u128 == b) by (bit_vector);
}

/// The text of a UUID has its 32 digits from the most significant one on, in groups of
/// 8, 4, 4, 4 and 12 with a hyphen between them.
pub proof fn lemma_hyphenated_groups(value: u128, k: int)
    requires
        0 <= k < 32,
    ensures
        hyphenated(value).len() == 36,
        hyphenated(value)[8] == '-',
        hyphenated(value)[13] == '-',
        hyphenated(value)[18] == '-',
        hyphenated(value)[23] == '-',
        ({
            let at = k + if k < 8 {
                0int
            } else if k < 12 {
                1
            } else if k < 16 {
                2
            } else if k < 20 {
                3
            } else {
                4
            };
            let digit = (value >> ((4 * (31 - k)) as u128)) & 15;
            hyphenated(value)[at] as int == if digit < 10 {
                '0' as int + digit
            } else {
                'a' as int + digit - 10
            }
        }),
{
    let at = k + if k < 8 {
        0int
    } else if k < 12 {
        1
    } else if k < 16 {
        2
    } else if k < 20 {
        3
    } else {
        4
    };
    let shift = (4 * (31 - k)) as u128;
    assert((value >> shift) & 15 < 16) by (bit_vector);
    assert(digit_at(at) == k && !is_hyphen_position(at));
    assert(hyphenated(value)[at] == hex_char(nibble(value, k)));
}

} // verus!
