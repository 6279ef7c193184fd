//! Decimal rendering and parsing for the numeric header values, with
//! round-trip lemmas relating the two.

use vstd::prelude::*;

verus! {

/// The ASCII digit character for a single decimal digit.
pub open spec fn dec_digit(d: nat) -> char
    recommends
        d < 10,
{
    ((d + 48) as u8) as char
}

/// The decimal representation of a natural number, most significant
/// digit first, with no leading zeros (`0` is rendered as `"0"`).
pub open spec fn dec_str(n: nat) -> Seq<char>
    decreases n,
{
    if n < 10 {
        seq![dec_digit(n)]
    } else {
        dec_str(n / 10).push(dec_digit(n % 10))
    }
}

/// The decimal representation of a signed number: a leading `'-'` for
/// negative values, then the digits of the magnitude.
pub open spec fn dec_str_signed(n: int) -> Seq<char> {
    if n >= 0 {
        dec_str(n as nat)
    } else {
        seq!['-'] + dec_str((-n) as nat)
    }
}

/// True when every character of `s` is an ASCII decimal digit.
pub open spec fn all_digits(s: Seq<char>) -> bool {
    forall|i: int| 0 <= i < s.len() ==> '0' <= #[trigger] s[i] <= '9'
}

/// The numeric value of a sequence of ASCII decimal digits.
pub open spec fn digits_val(s: Seq<char>) -> nat
    decreases s.len(),
{
    if s.len() == 0 {
        0
    } else {
        (digits_val(s.drop_last()) * 10 + (s.last() as int - 48)) as nat
    }
}

/// Every character of a decimal rendering is an ASCII digit, and the
/// rendering is never empty.
pub proof fn lemma_dec_str_digits(n: nat)
    ensures
        dec_str(n).len() >= 1,
        all_digits(dec_str(n)),
    decreases n,
{
    if n >= 10 {
        lemma_dec_str_digits(n / 10);
        assert(all_digits(dec_str(n))) by {
            let s = dec_str(n / 10);
            assert(forall|i: int| 0 <= i < s.len() ==> '0' <= #[trigger] dec_str(n)[i] <= '9');
        }
    }
}

/// Reading the decimal rendering of `n` back as a number yields `n`.
pub proof fn lemma_dec_round_trip(n: nat)
    ensures
        digits_val(dec_str(n)) == n,
    decreases n,
{
    if n < 10 {
        assert(dec_digit(n) as int == n + 48);
        assert(dec_str(n).drop_last() =~= Seq::<char>::empty());
        assert(dec_str(n).last() == dec_digit(n));
        assert(digits_val(Seq::<char>::empty()) == 0);
    } else {
        lemma_dec_round_trip(n / 10);
        vstd::arithmetic::div_mod::lemma_fundamental_div_mod(n as int, 10);
        assert(dec_digit(n % 10) as int == (n % 10) + 48);
        assert(dec_str(n).drop_last() =~= dec_str(n / 10));
        assert(dec_str(n).last() == dec_digit(n % 10));
    }
}

/// Converts a vector of ASCII bytes into the string made of exactly those
/// characters.
///
/// Relies on `String::from_utf8`: ASCII bytes are valid UTF-8, and each
/// such byte decodes to the character with the same code point.
#[verifier::external_body]
fn ascii_to_string(bytes: Vec<u8>) -> (s: String)
    requires
        forall|i: int| 0 <= i < bytes@.len() ==> #[trigger] bytes@[i] < 128,
    ensures
        s@ == bytes@.map_values(|b: u8| b as char),
{
    match String::from_utf8(bytes) {
        Ok(s) => s,
        Err(_) => String::new(),
    }
}

/// The decimal bytes of `n`, as pushed by `push_dec_bytes`.
pub open spec fn dec_bytes(n: nat) -> Seq<u8>
    decreases n,
{
    if n < 10 {
        seq![(n + 48) as u8]
    } else {
        dec_bytes(n / 10).push((n % 10 + 48) as u8)
    }
}

/// The bytes of a decimal rendering are the ASCII codes of its characters.
pub proof fn lemma_dec_bytes_chars(n: nat)
    ensures
        dec_bytes(n).map_values(|b: u8| b as char) =~= dec_str(n),
        forall|i: int| 0 <= i < dec_bytes(n).len() ==> 48 <= #[trigger] dec_bytes(n)[i] <= 57,
    decreases n,
{
    if n >= 10 {
        lemma_dec_bytes_chars(n / 10);
    }
}

/// Appends the decimal digits of `n` to `out`, most significant first.
fn push_dec_bytes(n: u64, out: &mut Vec<u8>)
    ensures
        final(out)@ == old(out)@ + dec_bytes(n as nat),
    decreases n,
{
    if n >= 10 {
        push_dec_bytes(n / 10, out);
    }
    out.push((n % 10) as u8 + 48);
    assert(final(out)@ =~= old(out)@ + dec_bytes(n as nat));
}

/// Renders `n` in decimal, without leading zeros.
pub fn u64_to_dec_string(n: u64) -> (s: String)
    ensures
        s@ == dec_str(n as nat),
{
    let mut bytes: Vec<u8> = Vec::new();
    push_dec_bytes(n, &mut bytes);
    proof {
        lemma_dec_bytes_chars(n as nat);
    }
    ascii_to_string(bytes)
}

/// Renders `n` in decimal, with a leading `'-'` when `n` is negative.
pub fn i64_to_dec_string(n: i64) -> (s: String)
    ensures
        s@ == dec_str_signed(n as int),
{
    if n >= 0 {
        u64_to_dec_string(n as u64)
    } else {
        let magnitude: u64 = if n == i64::MIN {
            9223372036854775808u64
        } else {
            (-n) as u64
        };
        let mut bytes: Vec<u8> = Vec::new();
        bytes.push(45u8);
        push_dec_bytes(magnitude, &mut bytes);
        proof {
            lemma_dec_bytes_chars(magnitude as nat);
            assert(bytes@.map_values(|b: u8| b as char) =~= seq!['-'] + dec_str(
                magnitude as nat,
            ));
        }
        ascii_to_string(bytes)
    }
}

/// Parses a string of ASCII decimal digits as a `u64`.
///
/// Returns `Some` exactly when the string is non-empty, every character is
/// a digit, and the value fits in a `u64`.
pub fn parse_u64_dec(s: &str) -> (r: Option<u64>)
    ensures
        match r {
            Some(v) => s@.len() >= 1 && all_digits(s@) && digits_val(s@) == v,
            None => !(s@.len() >= 1 && all_digits(s@) && digits_val(s@) <= u64::MAX),
        },
{
    let n = s.unicode_len();
    if n == 0 {
        return None;
    }
    let mut acc: u64 = 0;
    let mut i: usize = 0;
    while i < n
        invariant
            0 <= i <= n,
            n == s@.len(),
            all_digits(s@.take(i as int)),
            acc == digits_val(s@.take(i as int)),
        decreases n - i,
    {
        let c = s.get_char(i);
        if c < '0' || c > '9' {
            proof {
                assert(s@.take(n as int) =~= s@);
            }
            return None;
        }
        let d: u64 = (c as u32) as u64 - 48;
        if acc > 1844674407370955161u64 || (acc == 1844674407370955161u64 && d > 5) {
            proof {
                if all_digits(s@) {
                    lemma_digits_val_monotonic(s@, i as int + 1);
                    assert(s@.take(i as int + 1).drop_last() =~= s@.take(i as int));
                    assert(digits_val(s@.take(i as int + 1)) > u64::MAX);
                }
            }
            return None;
        }
        acc = acc * 10 + d;
        proof {
            assert(s@.take(i as int + 1).drop_last() =~= s@.take(i as int));
        }
        i = i + 1;
    }
    proof {
        assert(s@.take(n as int) =~= s@);
    }
    Some(acc)
}

/// A digit string's value is at least the value of any of its prefixes;
/// so a prefix that already overflows makes the whole string overflow.
proof fn lemma_digits_val_monotonic(s: Seq<char>, i: int)
    requires
        0 < i <= s.len(),
        all_digits(s),
    ensures
        digits_val(s.take(i)) <= digits_val(s),
    decreases s.len() - i,
{
    if i == s.len() {
        assert(s.take(i) =~= s);
    } else {
        lemma_digits_val_monotonic(s, i + 1);
        assert(s.take(i + 1).drop_last() =~= s.take(i));
        assert('0' <= s[i] <= '9');
        assert(digits_val(s.take(i)) <= digits_val(s.take(i + 1)));
    }
}

} // verus!
