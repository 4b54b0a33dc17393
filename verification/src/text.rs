//! Operations on strings, stated over the sequences of characters that they view as.

use vstd::prelude::*;

verus! {

/// `String::push` appends the given character to the end of the string.
pub assume_specification[ String::push ](s: &mut String, c: char)
    ensures
        final(s)@ == old(s)@.push(c),
;

/// The lowercase equivalent of a text, by the Unicode rules that
/// `str::to_lowercase` follows.
pub uninterp spec fn lowercase(text: Seq<char>) -> Seq<char>;

/// The lowercase equivalent of an ASCII character.
pub open spec fn ascii_lower(c: char) -> char {
    if 'A' <= c <= 'Z' {
        (c as u32 + 32) as char
    } else {
        c
    }
}

/// The lowercase equivalent of an ASCII text.
pub open spec fn ascii_lowercase(text: Seq<char>) -> Seq<char> {
    text.map_values(|c: char| ascii_lower(c))
}

/// The text consists of ASCII characters.
pub open spec fn all_ascii(text: Seq<char>) -> bool {
    forall|i: int| 0 <= i < text.len() ==> (#[trigger] text[i] as u32) < 128
}

/// `str::to_lowercase` returns the lowercase equivalent of a text, which
/// `lowercase` names. Besides that, the contract says that ASCII characters at the
/// start of the text are turned into lowercase one by one, whatever follows them,
/// and that nothing is added to a text that holds no other characters.
pub assume_specification[ str::to_lowercase ](text: &str) -> (r: String)
    ensures
        r@ == lowercase(text@),
        forall|n: int|
            0 <= n <= text@.len() && all_ascii(#[trigger] text@.take(n)) ==> n <= r@.len()
                && r@.take(n) == ascii_lowercase(text@.take(n)),
        all_ascii(text@) ==> r@.len() == text@.len(),
;

/// The lowercase equivalent of a text.
pub(crate) fn lowercase_string(text: &str) -> (r: String)
    ensures
        r@ == lowercase(text@),
        forall|n: int|
            0 <= n <= text@.len() && all_ascii(#[trigger] text@.take(n)) ==> n <= r@.len()
                && r@.take(n) == ascii_lowercase(text@.take(n)),
        all_ascii(text@) ==> r@ == ascii_lowercase(text@),
{
    let r = text.to_lowercase();
    proof {
        let n = text@.len() as int;
        assert(text@.take(n) =~= text@);
        if all_ascii(text@) {
            assert(all_ascii(text@.take(n)));
            assert(r@.take(n) =~= r@);
        }
    }
    r
}

/// The text without its first characters if it starts with `prefix`.
pub open spec fn without_prefix(text: Seq<char>, prefix: Seq<char>) -> Option<Seq<char>> {
    if prefix.is_prefix_of(text) {
        Some(text.skip(prefix.len() as int))
    } else {
        None
    }
}

/// The text with every `from` turned into `to`.
pub open spec fn replaced(text: Seq<char>, from: char, to: char) -> Seq<char> {
    text.map_values(|c: char| if c == from { to } else { c })
}

/// The view of an optional string.
pub open spec fn view_opt(s: Option<String>) -> Option<Seq<char>> {
    match s {
        Some(s) => Some(s@),
        None => None,
    }
}

/// The decimal digits of `n`, without leading zeros.
pub open spec fn decimal(n: nat) -> Seq<char>
    decreases n,
{
    if n < 10 {
        seq![(48 + n) as char]
    } else {
        decimal(n / 10).push((48 + n % 10) as char)
    }
}

pub(crate) fn starts_with(text: &str, prefix: &str) -> (r: bool)
    ensures
        r == prefix@.is_prefix_of(text@),
{
    let n: usize = prefix.unicode_len();
    if text.unicode_len() < n {
        return false;
    }
    let mut i: usize = 0;
    while i < n
        invariant
            n == prefix@.len(),
            n <= text@.len(),
            i <= n,
            forall|j: int| 0 <= j < i ==> text@[j] == prefix@[j],
        decreases n - i,
    {
        if text.get_char(i) != prefix.get_char(i) {
            assert(text@.subrange(0, n as int)[i as int] == text@[i as int]);
            return false;
        }
        i = i + 1;
    }
    assert(prefix@ =~= text@.subrange(0, n as int));
    true
}

pub(crate) fn str_eq(a: &str, b: &str) -> (r: bool)
    ensures
        r == (a@ == b@),
{
    if a.unicode_len() != b.unicode_len() {
        return false;
    }
    let r = starts_with(a, b);
    assert(a@.subrange(0, a@.len() as int) =~= a@);
    r
}

pub(crate) fn strip_prefix<'a>(text: &'a str, prefix: &str) -> (r: Option<&'a str>)
    ensures
        match r {
            Some(rest) => without_prefix(text@, prefix@) == Some(rest@),
            None => without_prefix(text@, prefix@) is None,
        },
{
    if starts_with(text, prefix) {
        Some(text.substring_char(prefix.unicode_len(), text.unicode_len()))
    } else {
        None
    }
}

pub(crate) fn ends_with_char(text: &str, c: char) -> (r: bool)
    ensures
        r == (text@.len() > 0 && text@.last() == c),
{
    let n: usize = text.unicode_len();
    n > 0 && text.get_char(n - 1) == c
}

pub(crate) fn concat(a: &str, b: &str) -> (r: String)
    ensures
        r@ == a@ + b@,
{
    let mut s = a.to_owned();
    s.append(b);
    s
}

pub(crate) fn replace_char(text: &str, from: char, to: char) -> (r: String)
    ensures
        r@ == replaced(text@, from, to),
{
    let mut out = String::new();
    for c in it: text.chars()
        invariant
            it.seq() == text@,
            out@ == replaced(text@.take(it.index()), from, to),
    {
        assert(text@.take(it.index() + 1) == text@.take(it.index()).push(c));
        if c == from {
            out.push(to);
        } else {
            out.push(c);
        }
    }
    assert(text@.take(text@.len() as int) == text@);
    out
}

pub(crate) fn decimal_string(n: u64) -> (r: String)
    ensures
        r@ == decimal(n as nat),
    decreases n,
{
    let digit: char = (48 + (n % 10) as u8) as char;
    let mut s = if n < 10 {
        String::new()
    } else {
        decimal_string(n / 10)
    };
    s.push(digit);
    s
}

/// A decimal numeral starts with a digit.
pub proof fn lemma_decimal_starts_with_digit(n: nat)
    ensures
        decimal(n).len() > 0,
        '0' <= decimal(n)[0] <= '9',
    decreases n,
{
    if n >= 10 {
        lemma_decimal_starts_with_digit(n / 10);
    }
}

/// Different numbers have different decimal numerals.
pub proof fn lemma_decimal_injective(a: nat, b: nat)
    requires
        decimal(a) == decimal(b),
    ensures
        a == b,
    decreases a,
{
    lemma_decimal_starts_with_digit(a / 10);
    lemma_decimal_starts_with_digit(b / 10);
    assert(decimal(a).last() == (48 + a % 10) as char);
    assert(decimal(b).last() == (48 + b % 10) as char);
    assert(a % 10 == b % 10);
    if a >= 10 && b >= 10 {
        assert(decimal(a).drop_last() =~= decimal(a / 10));
        assert(decimal(b).drop_last() =~= decimal(b / 10));
        lemma_decimal_injective(a / 10, b / 10);
    }
}

/// Texts that are equal once the same text is put before them are equal.
pub proof fn lemma_same_start(start: Seq<char>, a: Seq<char>, b: Seq<char>)
    requires
        start + a == start + b,
    ensures
        a == b,
{
    assert((start + a).skip(start.len() as int) =~= a);
    assert((start + b).skip(start.len() as int) =~= b);
}

/// An ASCII text is one whose characters are all below 128.
pub proof fn lemma_all_ascii(text: Seq<char>)
    ensures
        all_ascii(text) <==> forall|i: int| 0 <= i < text.len() ==> (#[trigger] text[i] as u32)
            <= 127,
{
}

/// The lowercase equivalent of an ASCII text has a character for each of the text: 32
/// more than an uppercase letter, and any other character itself.
pub proof fn lemma_ascii_lowercase(text: Seq<char>, i: int)
    requires
        0 <= i < text.len(),
    ensures
        ascii_lowercase(text).len() == text.len(),
        'A' <= text[i] <= 'Z' ==> ascii_lowercase(text)[i] as int == text[i] as int + 32,
        text[i] < 'A' || 'Z' < text[i] ==> ascii_lowercase(text)[i] == text[i],
{
}

/// A text loses a prefix exactly if it consists of the prefix and what is left.
pub proof fn lemma_without_prefix(text: Seq<char>, prefix: Seq<char>, rest: Seq<char>)
    ensures
        without_prefix(text, prefix) == Some(rest) <==> text == prefix + rest,
        without_prefix(text, prefix) is None ==> text != prefix + rest,
{
    if text == prefix + rest {
        assert(text.subrange(0, prefix.len() as int) =~= prefix);
        assert(text.skip(prefix.len() as int) =~= rest);
    }
    if without_prefix(text, prefix) == Some(rest) {
        assert(text =~= prefix + rest);
    }
}

/// A replacement keeps every character but the replaced one, and its place.
pub proof fn lemma_replaced(text: Seq<char>, from: char, to: char, i: int)
    requires
        0 <= i < text.len(),
    ensures
        replaced(text, from, to).len() == text.len(),
        text[i] == from ==> replaced(text, from, to)[i] == to,
        text[i] != from ==> replaced(text, from, to)[i] == text[i],
{
}

/// An optional string views as its text, if there is one.
pub proof fn lemma_view_opt(s: Option<String>)
    ensures
        s matches Some(text) ==> view_opt(s) == Some(text@),
        s is None ==> view_opt(s) is None,
{
}

/// A numeral of one digit is that digit, and a further digit makes a number ten times
/// as large, and larger by the digit.
pub proof fn lemma_decimal_digits(n: nat, digit: nat)
    requires
        digit < 10,
    ensures
        decimal(digit).len() == 1,
        decimal(digit)[0] as int == '0' as int + digit,
        n > 0 ==> decimal(10 * n + digit) == decimal(n) + decimal(digit),
{
    if n > 0 {
        assert((10 * n + digit) / 10 == n && (10 * n + digit) % 10 == digit);
        assert(decimal(10 * n + digit) =~= decimal(n) + decimal(digit));
    }
}

} // verus!
