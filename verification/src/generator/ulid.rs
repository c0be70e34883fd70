//! The ULID algorithm (Universally Unique Lexicographically Sortable
//! Identifier): 128 bits, a 48-bit millisecond timestamp followed by 80
//! random bits, written as 26 characters of Crockford's Base32
//! (`0-9` and `A-Z` without `I`, `L`, `O`, `U`).

use vstd::prelude::*;

use crate::error::AppError;
use crate::generator::IdGenerator;
use crate::utils::time::{current_timestamp_millis, spec_millis};

verus! {

/// A ULID of the `ulid` crate.
#[verifier::external_type_specification]
#[verifier::external_body]
pub struct ExUlid(::ulid::Ulid);

/// A ULID for the current time with random low bits (`ulid::Ulid::new`).
/// It depends on the clock and on chance, so nothing is stated of it.
#[verifier::external_body]
fn new_ulid() -> (u: ::ulid::Ulid) {
    ::ulid::Ulid::new()
}

/// The 128-bit value of a ULID (`From<Ulid> for u128`, which hands out the
/// value the ULID holds). Nothing is stated of a value produced by chance.
#[verifier::external_body]
fn ulid_value(u: ::ulid::Ulid) -> (v: u128) {
    u128::from(u)
}

/// The 32 digits of Crockford's Base32, in order of value.
pub const CROCKFORD_ALPHABET: &'static str = "0123456789ABCDEFGHJKMNPQRSTVWXYZ";

/// The last `n` Base32 digits of `value`, most significant first.
pub open spec fn spec_base32_digits(value: nat, n: nat) -> Seq<char>
    decreases n,
{
    if n == 0 {
        Seq::empty()
    } else {
        spec_base32_digits(value / 32, (n - 1) as nat).push(CROCKFORD_ALPHABET@[(value % 32) as int])
    }
}

/// The 26-character text of the ULID with value `value`.
pub open spec fn spec_ulid_text(value: u128) -> Seq<char> {
    spec_base32_digits(value as nat, 26)
}

/// The text of the ULID with value `value` (`ulid::Ulid::to_string`, which
/// writes the 26 digits of the value in Crockford's Base32, least significant
/// digit last).
#[verifier::external_body]
fn encode_ulid(value: u128) -> (s: String)
    ensures
        s@ == spec_ulid_text(value),
{
    ::ulid::Ulid::from(value).to_string()
}

/// The text of the ULID with value `value`.
pub fn ulid_to_string(value: u128) -> (s: String)
    ensures
        s@ == spec_ulid_text(value),
{
    encode_ulid(value)
}

/// A character of Crockford's Base32: an ASCII digit or an uppercase ASCII
/// letter other than `I`, `L`, `O` and `U`.
pub open spec fn is_crockford_char(c: char) -> bool {
    &&& ('0' <= c <= '9' || 'A' <= c <= 'Z')
    &&& c != 'I' && c != 'L' && c != 'O' && c != 'U'
}

/// Base32 digits are Crockford characters, one per digit.
pub proof fn lemma_base32_digits_format(value: nat, n: nat)
    ensures
        spec_base32_digits(value, n).len() == n,
        forall|i: int| 0 <= i < n ==> is_crockford_char(#[trigger] spec_base32_digits(value, n)[i]),
    decreases n,
{
    reveal_strlit("0123456789ABCDEFGHJKMNPQRSTVWXYZ");
    if n > 0 {
        lemma_base32_digits_format(value / 32, (n - 1) as nat);
        let d = (value % 32) as int;
        assert(forall|k: int| 0 <= k < 32 ==> is_crockford_char(#[trigger] CROCKFORD_ALPHABET@[k]));
        assert(is_crockford_char(CROCKFORD_ALPHABET@[d]));
    }
}

/// Every ULID text is 26 characters of Crockford's Base32.
pub proof fn lemma_ulid_text_format(value: u128)
    ensures
        spec_ulid_text(value).len() == 26,
        forall|i: int| 0 <= i < 26 ==> is_crockford_char(#[trigger] spec_ulid_text(value)[i]),
{
    lemma_base32_digits_format(value as nat, 26);
}

/// `a` comes before `b` in dictionary order of character codes, where the
/// two are of equal length.
pub open spec fn text_precedes(a: Seq<char>, b: Seq<char>) -> bool {
    exists|k: int|
        0 <= k < a.len() && a.len() == b.len() && #[trigger] a.take(k) == b.take(k) && (a[k] as u32) < (
        b[k] as u32)
}

/// 32 to the power `n`.
pub open spec fn pow32(n: nat) -> nat
    decreases n,
{
    if n == 0 {
        1
    } else {
        32 * pow32((n - 1) as nat)
    }
}

/// The digits of Crockford's Base32 are in increasing order of character code.
proof fn lemma_alphabet_increasing(a: int, b: int)
    requires
        0 <= a < b < 32,
    ensures
        (CROCKFORD_ALPHABET@[a] as u32) < (CROCKFORD_ALPHABET@[b] as u32),
{
    reveal_strlit("0123456789ABCDEFGHJKMNPQRSTVWXYZ");
}

/// Of two values below 32^n, the smaller has the earlier `n`-digit text.
proof fn lemma_base32_digits_order(v1: nat, v2: nat, n: nat)
    requires
        v1 < v2 < pow32(n),
    ensures
        text_precedes(spec_base32_digits(v1, n), spec_base32_digits(v2, n)),
    decreases n,
{
    lemma_base32_digits_format(v1, n);
    lemma_base32_digits_format(v2, n);
    let d1 = spec_base32_digits(v1, n);
    let d2 = spec_base32_digits(v2, n);
    let p1 = spec_base32_digits(v1 / 32, (n - 1) as nat);
    let p2 = spec_base32_digits(v2 / 32, (n - 1) as nat);
    lemma_base32_digits_format(v1 / 32, (n - 1) as nat);
    lemma_base32_digits_format(v2 / 32, (n - 1) as nat);
    assert(n > 0);
    if v1 / 32 < v2 / 32 {
        assert(v2 / 32 < pow32((n - 1) as nat));
        lemma_base32_digits_order(v1 / 32, v2 / 32, (n - 1) as nat);
        let k = choose|k: int|
            0 <= k < p1.len() && p1.len() == p2.len() && #[trigger] p1.take(k) == p2.take(k)
                && (p1[k] as u32) < (p2[k] as u32);
        assert(d1.take(k) =~= p1.take(k));
        assert(d2.take(k) =~= p2.take(k));
        assert(d1[k] == p1[k]);
        assert(d2[k] == p2[k]);
        assert(d1.take(k) == d2.take(k));
    } else {
        assert(v1 / 32 == v2 / 32);
        assert(v1 % 32 < v2 % 32);
        lemma_alphabet_increasing((v1 % 32) as int, (v2 % 32) as int);
        let k = (n - 1) as int;
        assert(d1.take(k) =~= p1);
        assert(d2.take(k) =~= p2);
        assert(d1.take(k) == d2.take(k));
    }
}

/// ULID texts sort as their values: the smaller value has the text that
/// comes first in dictionary order.
pub proof fn lemma_ulid_text_order(v1: u128, v2: u128)
    requires
        v1 < v2,
    ensures
        text_precedes(spec_ulid_text(v1), spec_ulid_text(v2)),
{
    assert(pow32(26) == 0x4_0000_0000_0000_0000_0000_0000_0000_0000) by {
        reveal_with_fuel(pow32, 27);
    }
    lemma_base32_digits_order(v1 as nat, v2 as nat, 26);
}

/// The ULID value with the low 48 bits of `timestamp_ms` on top and the low
/// 80 bits of `random` below.
pub fn compose_ulid(timestamp_ms: u64, random: u128) -> (v: u128)
    ensures
        v >> 80u128 == timestamp_ms as u128 & 0xFFFF_FFFF_FFFF,
        v & 0xFFFF_FFFF_FFFF_FFFF_FFFF == random & 0xFFFF_FFFF_FFFF_FFFF_FFFF,
{
    let t: u128 = timestamp_ms as u128;
    let v = ((t & 0xFFFF_FFFF_FFFF) << 80u128) | (random & 0xFFFF_FFFF_FFFF_FFFF_FFFF);
    assert(v >> 80u128 == t & 0xFFFF_FFFF_FFFF && v & 0xFFFF_FFFF_FFFF_FFFF_FFFF == random
        & 0xFFFF_FFFF_FFFF_FFFF_FFFF) by (bit_vector)
        requires
            v == ((t & 0xFFFF_FFFF_FFFF) << 80u128) | (random & 0xFFFF_FFFF_FFFF_FFFF_FFFF),
    ;
    v
}

/// 32 to any power is positive.
proof fn lemma_pow32_positive(n: nat)
    ensures
        pow32(n) > 0,
    decreases n,
{
    if n > 0 {
        lemma_pow32_positive((n - 1) as nat);
    }
}

/// The `n + m` digits of a value are the `n` digits of its part above the
/// last `m` digits, followed by those last `m` digits.
proof fn lemma_base32_digits_split(v: nat, n: nat, m: nat)
    ensures
        spec_base32_digits(v, n + m) == spec_base32_digits(v / pow32(m), n) + spec_base32_digits(v, m),
    decreases m,
{
    if m == 0 {
        assert(pow32(0) == 1);
        assert(v / pow32(m) == v);
        assert(spec_base32_digits(v, 0) == Seq::<char>::empty());
        assert(spec_base32_digits(v, n) =~= spec_base32_digits(v, n) + Seq::<char>::empty());
    } else {
        let m1 = (m - 1) as nat;
        lemma_base32_digits_split(v / 32, n, m1);
        lemma_pow32_positive(m1);
        vstd::arithmetic::div_mod::lemma_div_denominator(v as int, 32, pow32(m1) as int);
        assert(v / 32 / pow32(m1) == v / pow32(m));
        assert((n + m - 1) as nat == n + m1);
        assert(spec_base32_digits(v, n + m) == spec_base32_digits(v / 32, n + m1).push(
            CROCKFORD_ALPHABET@[(v % 32) as int],
        ));
        assert(spec_base32_digits(v, n + m) =~= spec_base32_digits(v / pow32(m), n) + spec_base32_digits(
            v,
            m,
        ));
    }
}

/// The first 10 characters of a ULID's text are the Base32 digits of its
/// 48-bit timestamp, and the last 16 those of its random part.
pub proof fn lemma_ulid_text_time_prefix(value: u128)
    ensures
        spec_ulid_text(value).subrange(0, 10) == spec_base32_digits((value >> 80u128) as nat, 10),
        spec_ulid_text(value).subrange(10, 26) == spec_base32_digits(
            (value & 0xFFFF_FFFF_FFFF_FFFF_FFFF) as nat,
            16,
        ),
{
    assert(pow32(16) == 0x1_0000_0000_0000_0000_0000) by {
        reveal_with_fuel(pow32, 17);
    }
    assert(value >> 80u128 == value / 0x1_0000_0000_0000_0000_0000) by (bit_vector);
    assert(value & 0xFFFF_FFFF_FFFF_FFFF_FFFF == value % 0x1_0000_0000_0000_0000_0000) by (bit_vector);
    lemma_base32_digits_split(value as nat, 10, 16);
    lemma_base32_digits_format((value / 0x1_0000_0000_0000_0000_0000) as nat, 10);
    lemma_base32_digits_format(value as nat, 16);
    lemma_base32_digits_low(value as nat, 16);
    assert(spec_ulid_text(value).subrange(0, 10) =~= spec_base32_digits((value >> 80u128) as nat, 10));
    assert(spec_ulid_text(value).subrange(10, 26) =~= spec_base32_digits(
        (value & 0xFFFF_FFFF_FFFF_FFFF_FFFF) as nat,
        16,
    ));
}

/// The last `n` digits of a value depend only on the value modulo 32^n.
proof fn lemma_base32_digits_low(v: nat, n: nat)
    ensures
        spec_base32_digits(v, n) == spec_base32_digits(v % pow32(n), n),
    decreases n,
{
    if n > 0 {
        let n1 = (n - 1) as nat;
        lemma_pow32_positive(n1);
        let p = pow32(n1);
        let r = v % pow32(n);
        lemma_base32_digits_low(v / 32, n1);
        lemma_base32_digits_low(r / 32, n1);
        assert(pow32(n) == 32 * p);
        vstd::arithmetic::div_mod::lemma_mod_mod(v as int, 32, p as int);
        vstd::arithmetic::div_mod::lemma_mod_breakdown(v as int, 32, p as int);
        let a = (v / 32) % p;
        let b = v % 32;
        assert(r == 32 * a + b);
        assert((32 * a + b) / 32 == a) by (nonlinear_arith)
            requires
                0 <= b < 32,
                a >= 0,
        ;
        assert(r / 32 == a);
        vstd::arithmetic::div_mod::lemma_mod_twice((v / 32) as int, p as int);
        assert((r / 32) % p == (v / 32) % p);
    }
}

/// A ULID of a later millisecond sorts after a ULID of an earlier one,
/// whatever their random parts: its value is larger and its text comes later.
pub proof fn lemma_ulid_time_order(v1: u128, v2: u128)
    requires
        (v1 >> 80u128) < (v2 >> 80u128),
    ensures
        v1 < v2,
        text_precedes(spec_ulid_text(v1), spec_ulid_text(v2)),
{
    assert(v1 < v2) by (bit_vector)
        requires
            (v1 >> 80u128) < (v2 >> 80u128),
    ;
    lemma_ulid_text_order(v1, v2);
}

/// A ULID, held as its 128-bit value: the millisecond timestamp in the top
/// 48 bits, the random part in the low 80.
#[derive(Debug, Clone, Copy, PartialEq, Eq, Structural)]
pub struct UlidValue(pub u128);

impl UlidValue {
    /// The 26-character text of the ULID.
    pub fn to_string(&self) -> (s: String)
        ensures
            s@ == spec_ulid_text(self.0),
    {
        ulid_to_string(self.0)
    }
}

/// A ULID generator.
pub struct ULIDGenerator {
    /// The texts that `generate` has handed out, in order.
    history: Ghost<Seq<Seq<char>>>,
}

impl ULIDGenerator {
    /// Creates a ULID generator.
    pub fn new() -> (g: Self)
        ensures
            g.spec_history() == Seq::<Seq<char>>::empty(),
    {
        ULIDGenerator { history: Ghost(Seq::empty()) }
    }

    /// A new ULID for the current time: the clock's Unix milliseconds (their
    /// low 48 bits) on top, and the random low 80 bits of a ULID that the
    /// `ulid` crate draws.
    pub fn next_id(&self) -> (u: UlidValue)
        ensures
            exists|secs: i64, ms: u16|
                ms < 1000 && u.0 >> 80u128 == (#[trigger] spec_millis(secs, ms)) as u128 & 0xFFFF_FFFF_FFFF,
    {
        let now = current_timestamp_millis();
        let random = ulid_value(new_ulid());
        UlidValue(compose_ulid(now, random))
    }
}

impl Default for ULIDGenerator {
    fn default() -> (g: Self)
        ensures
            g.spec_history() == Seq::<Seq<char>>::empty(),
    {
        ULIDGenerator::new()
    }
}

impl IdGenerator for ULIDGenerator {
    /// The text of some ULID.
    open spec fn spec_issues(&self, id: Seq<char>) -> bool {
        exists|value: u128| id == #[trigger] spec_ulid_text(value)
    }

    /// It never fails.
    open spec fn spec_fails_with(&self, e: AppError) -> bool {
        false
    }

    closed spec fn spec_history(&self) -> Seq<Seq<char>> {
        self.history@
    }

    /// Issues the text of a new ULID: 26 characters of Crockford's Base32.
    fn generate(&mut self) -> (r: Result<String, AppError>)
        ensures
            r matches Ok(s) ==> {
                &&& s@.len() == 26
                &&& forall|i: int| 0 <= i < 26 ==> is_crockford_char(#[trigger] s@[i])
            },
            r is Ok,
            r matches Ok(s) ==> exists|secs: i64, ms: u16, value: u128|
                #![trigger spec_millis(secs, ms), spec_ulid_text(value)]
                ms < 1000 && s@ == spec_ulid_text(value) && value >> 80u128 == spec_millis(secs, ms) as u128
                    & 0xFFFF_FFFF_FFFF,
    {
        let id = self.next_id();
        proof {
            lemma_ulid_text_format(id.0);
        }
        let text = id.to_string();
        proof {
            self.history@ = self.history@.push(text@);
        }
        Ok(text)
    }

    fn name(&self) -> (n: &str)
        ensures
            n@ == "ulid"@,
    {
        "ulid"
    }
}

} // verus!
