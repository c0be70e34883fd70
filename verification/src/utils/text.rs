//! Building strings: characters, decimal numbers, case folding.

use vstd::prelude::*;

verus! {

/// Appends one character to a `String` (`String::push`).
#[verifier::external_body]
pub(crate) fn push_char(s: &mut String, c: char)
    ensures
        final(s)@ == old(s)@.push(c),
{
    s.push(c);
}

/// The ASCII digit for a value below ten.
pub open spec fn spec_digit_char(d: int) -> char {
    if d == 0 { '0' }
    else if d == 1 { '1' }
    else if d == 2 { '2' }
    else if d == 3 { '3' }
    else if d == 4 { '4' }
    else if d == 5 { '5' }
    else if d == 6 { '6' }
    else if d == 7 { '7' }
    else if d == 8 { '8' }
    else { '9' }
}

/// The decimal representation of `n`, without sign or leading zeros
/// (zero is written "0").
pub open spec fn spec_decimal(n: nat) -> Seq<char>
    decreases n,
{
    if n < 10 {
        seq![spec_digit_char(n as int)]
    } else {
        spec_decimal(n / 10).push(spec_digit_char((n % 10) as int))
    }
}

/// The decimal text of a number is a non-empty run of ASCII digits with no
/// leading zero, except for zero itself.
pub proof fn lemma_decimal_is_digits(n: nat)
    ensures
        spec_decimal(n).len() >= 1,
        forall|i: int| 0 <= i < spec_decimal(n).len() ==> '0' <= #[trigger] spec_decimal(n)[i] <= '9',
        n > 0 ==> spec_decimal(n)[0] != '0',
    decreases n,
{
    if n >= 10 {
        lemma_decimal_is_digits(n / 10);
        assert(spec_decimal(n)[0] == spec_decimal(n / 10)[0]);
    }
}

/// The digit for `d` is the character with code 48 + `d`.
proof fn lemma_digit_code(d: int)
    requires
        0 <= d < 10,
    ensures
        spec_digit_char(d) as int == 48 + d,
{
}

/// Different numbers have different decimal texts.
pub proof fn lemma_decimal_injective(a: nat, b: nat)
    requires
        spec_decimal(a) == spec_decimal(b),
    ensures
        a == b,
    decreases a,
{
    lemma_decimal_is_digits(a / 10);
    lemma_decimal_is_digits(b / 10);
    if a >= 10 && b >= 10 {
        assert(spec_decimal(a / 10) == spec_decimal(a).drop_last());
        assert(spec_decimal(b / 10) == spec_decimal(b).drop_last());
        lemma_decimal_injective(a / 10, b / 10);
        assert(spec_decimal(a).last() == spec_digit_char((a % 10) as int));
        assert(spec_decimal(b).last() == spec_digit_char((b % 10) as int));
        lemma_digit_code((a % 10) as int);
        lemma_digit_code((b % 10) as int);
        assert(a % 10 == b % 10);
        assert(a == (a / 10) * 10 + a % 10);
        assert(b == (b / 10) * 10 + b % 10);
    } else if a >= 10 {
        assert(spec_decimal(a).len() >= 2);
        assert(spec_decimal(b).len() == 1);
        assert(false);
    } else if b >= 10 {
        assert(spec_decimal(b).len() >= 2);
        assert(spec_decimal(a).len() == 1);
        assert(false);
    } else {
        assert(spec_decimal(a)[0] == spec_digit_char(a as int));
        assert(spec_decimal(b)[0] == spec_digit_char(b as int));
        lemma_digit_code(a as int);
        lemma_digit_code(b as int);
    }
}

/// The ASCII digit for `d`.
pub fn digit_char(d: u64) -> (c: char)
    requires
        d < 10,
    ensures
        c == spec_digit_char(d as int),
{
    if d == 0 { '0' }
    else if d == 1 { '1' }
    else if d == 2 { '2' }
    else if d == 3 { '3' }
    else if d == 4 { '4' }
    else if d == 5 { '5' }
    else if d == 6 { '6' }
    else if d == 7 { '7' }
    else if d == 8 { '8' }
    else { '9' }
}

/// Appends the decimal representation of `n` to `s`.
pub fn push_decimal(s: &mut String, n: u64)
    ensures
        final(s)@ == old(s)@ + spec_decimal(n as nat),
    decreases n,
{
    if n >= 10 {
        push_decimal(s, n / 10);
    }
    let c = digit_char(n % 10);
    push_char(s, c);
    proof {
        if n >= 10 {
            assert(final(s)@ =~= old(s)@ + spec_decimal(n as nat));
        } else {
            assert(final(s)@ =~= old(s)@ + spec_decimal(n as nat));
        }
    }
}

/// The decimal representation of `n`.
pub fn u64_to_decimal(n: u64) -> (s: String)
    ensures
        s@ == spec_decimal(n as nat),
{
    let mut s = String::new();
    push_decimal(&mut s, n);
    assert(s@ =~= spec_decimal(n as nat));
    s
}

/// The lowercase form of a string as `str::to_lowercase` computes it
/// (Unicode lowercase mapping); it depends on the characters alone.
pub uninterp spec fn spec_to_lowercase(s: Seq<char>) -> Seq<char>;

/// The ASCII lowercase form of a character: `A`-`Z` become `a`-`z`,
/// every other character stays.
pub open spec fn spec_ascii_lower_char(c: char) -> char {
    if 'A' <= c <= 'Z' {
        ((c as u32) + 32) as char
    } else {
        c
    }
}

/// The ASCII lowercase form of a character sequence.
pub open spec fn spec_ascii_lowercase(s: Seq<char>) -> Seq<char> {
    Seq::new(s.len(), |i: int| spec_ascii_lower_char(s[i]))
}

/// The lowercase form of `s` (`str::to_lowercase`): the Unicode lowercase
/// mapping, which on ASCII text maps `A`-`Z` to `a`-`z` and leaves every
/// other character as it is. Beyond ASCII text nothing is stated.
#[verifier::external_body]
pub(crate) fn to_lowercase(s: &str) -> (r: String)
    ensures
        r@ == spec_to_lowercase(s@),
        vstd::utf8::is_ascii_chars(s@) ==> r@ == spec_ascii_lowercase(s@),
{
    s.to_lowercase()
}

} // verus!
