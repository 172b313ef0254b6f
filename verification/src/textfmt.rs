//! Decimal rendering of the numeric values the interface reports: usage
//! values with trailing-zero suppression, byte sizes with a fixed number of
//! decimals, and vendor-name normalization.

use crate::metrics::{div_round, lemma_div_round_bound};
use vstd::prelude::*;
use vstd::string::*;

verus! {

/// Relies on `String::push` from std: it appends exactly the one given
/// character at the end of the string.
#[verifier::external_body]
pub(crate) fn push_char(s: &mut String, c: char)
    ensures
        final(s)@ == old(s)@.push(c),
{
    s.push(c);
}

/// The decimal digit character for a value below ten.
pub open spec fn digit_char(d: nat) -> char {
    if d == 0 {
        '0'
    } else if d == 1 {
        '1'
    } else if d == 2 {
        '2'
    } else if d == 3 {
        '3'
    } else if d == 4 {
        '4'
    } else if d == 5 {
        '5'
    } else if d == 6 {
        '6'
    } else if d == 7 {
        '7'
    } else if d == 8 {
        '8'
    } else {
        '9'
    }
}

/// The usual decimal rendering of a natural number, without leading zeroes.
pub open spec fn dec_rep(n: nat) -> Seq<char>
    decreases n,
{
    if n < 10 {
        seq![digit_char(n)]
    } else {
        dec_rep(n / 10) + seq![digit_char(n % 10)]
    }
}

/// Fixed-width decimal rendering of `n`'s lowest `width` digits, padded
/// with leading zeroes.
pub open spec fn dec_pad(n: nat, width: nat) -> Seq<char>
    decreases width,
{
    if width == 0 {
        Seq::empty()
    } else {
        dec_pad(n / 10, (width - 1) as nat) + seq![digit_char(n % 10)]
    }
}

/// Append one decimal digit character.
fn push_digit(out: &mut String, d: u64)
    requires
        d < 10,
    ensures
        final(out)@ == old(out)@.push(digit_char(d as nat)),
{
    if d == 0 {
        push_char(out, '0');
    } else if d == 1 {
        push_char(out, '1');
    } else if d == 2 {
        push_char(out, '2');
    } else if d == 3 {
        push_char(out, '3');
    } else if d == 4 {
        push_char(out, '4');
    } else if d == 5 {
        push_char(out, '5');
    } else if d == 6 {
        push_char(out, '6');
    } else if d == 7 {
        push_char(out, '7');
    } else if d == 8 {
        push_char(out, '8');
    } else {
        push_char(out, '9');
    }
}

/// Append the decimal rendering of `n`.
pub fn push_u64(out: &mut String, n: u64)
    ensures
        final(out)@ == old(out)@ + dec_rep(n as nat),
    decreases n,
{
    if n < 10 {
        push_digit(out, n);
        proof {
            assert(old(out)@.push(digit_char(n as nat)) =~= old(out)@ + dec_rep(n as nat));
        }
    } else {
        push_u64(out, n / 10);
        push_digit(out, n % 10);
        proof {
            assert((old(out)@ + dec_rep((n / 10) as nat)).push(digit_char((n % 10) as nat))
                =~= old(out)@ + dec_rep(n as nat));
        }
    }
}

/// Append the decimal rendering of `n`'s lowest `width` digits, padded with
/// leading zeroes.
pub fn push_padded(out: &mut String, n: u64, width: usize)
    ensures
        final(out)@ == old(out)@ + dec_pad(n as nat, width as nat),
    decreases width,
{
    if width == 0 {
        proof {
            assert(old(out)@ + dec_pad(n as nat, 0) =~= old(out)@);
        }
    } else {
        push_padded(out, n / 10, width - 1);
        push_digit(out, n % 10);
        proof {
            assert((old(out)@ + dec_pad((n / 10) as nat, (width - 1) as nat)).push(
                digit_char((n % 10) as nat),
            ) =~= old(out)@ + dec_pad(n as nat, width as nat));
        }
    }
}

/// The decimal rendering of a number as a fresh string.
pub fn u64_to_string(n: u64) -> (r: String)
    ensures
        r@ == dec_rep(n as nat),
{
    let mut out = String::new();
    push_u64(&mut out, n);
    proof {
        assert(Seq::<char>::empty() + dec_rep(n as nat) =~= dec_rep(n as nat));
    }
    out
}

/// How a usage value held in tenths of a unit reads: integral values render
/// with no decimal places, fractional ones with exactly one.
pub open spec fn usage_string(tenths: nat) -> Seq<char> {
    if tenths % 10 == 0 {
        dec_rep(tenths / 10)
    } else {
        dec_rep(tenths / 10) + seq!['.', digit_char(tenths % 10)]
    }
}

/// Render a usage value held in tenths of a unit, suppressing a trailing
/// zero decimal: a whole number renders bare, anything else with exactly
/// one decimal place.
pub fn format_usage(tenths: u64) -> (r: String)
    ensures
        r@ == usage_string(tenths as nat),
{
    let whole = tenths / 10;
    let frac = tenths % 10;
    let mut out = u64_to_string(whole);
    if frac != 0 {
        push_char(&mut out, '.');
        push_digit(&mut out, frac);
        proof {
            assert(dec_rep(whole as nat).push('.').push(digit_char(frac as nat))
                =~= usage_string(tenths as nat));
        }
    }
    out
}

/// Powers of ten.
pub open spec fn pow10(p: nat) -> nat
    decreases p,
{
    if p == 0 {
        1
    } else {
        10 * pow10((p - 1) as nat)
    }
}

proof fn lemma_pow10_le_100000(p: nat)
    requires
        p <= 5,
    ensures
        1 <= pow10(p) <= 100000,
{
    assert(pow10(0) == 1);
    assert(pow10(1) == 10);
    assert(pow10(2) == 100);
    assert(pow10(3) == 1000);
    assert(pow10(4) == 10000);
    assert(pow10(5) == 100000);
}

/// Ten to the `p`th power.
fn pow10_u64(p: usize) -> (r: u64)
    requires
        p <= 5,
    ensures
        r == pow10(p as nat),
        1 <= r <= 100000,
{
    proof {
        lemma_pow10_le_100000(p as nat);
    }
    let mut r: u64 = 1;
    let mut i: usize = 0;
    while i < p
        invariant
            i <= p,
            p <= 5,
            r == pow10(i as nat),
            r <= 100000,
        decreases p - i,
    {
        proof {
            lemma_pow10_le_100000((i + 1) as nat);
        }
        r = r * 10;
        i = i + 1;
    }
    r
}

/// `amount / unit` scaled to `precision` decimal places, rounded to the
/// nearest (ties away from zero), as tenths-to-the-precision units.
pub open spec fn scaled_value(amount: nat, unit: nat, precision: nat) -> nat {
    div_round(amount * pow10(precision), unit)
}

/// The rendering of `amount / unit` with exactly `precision` decimal
/// places.
pub open spec fn scaled_string(amount: nat, unit: nat, precision: nat) -> Seq<char> {
    let scaled = scaled_value(amount, unit, precision);
    if precision == 0 {
        dec_rep(scaled)
    } else {
        dec_rep(scaled / pow10(precision)) + seq!['.'] + dec_pad(
            scaled % pow10(precision),
            precision,
        )
    }
}

/// Append the rendering of `amount / unit` with exactly `precision`
/// decimal places.
fn push_scaled(out: &mut String, amount: u64, unit: u64, precision: usize)
    requires
        unit >= 1024 * 1024,
        precision <= 5,
    ensures
        final(out)@ == old(out)@ + scaled_string(amount as nat, unit as nat, precision as nat),
{
    let p10 = pow10_u64(precision);
    proof {
        assert(amount as nat * pow10(precision as nat) <= unit as nat * u64::MAX as nat)
            by (nonlinear_arith)
            requires
                pow10(precision as nat) <= 100000,
                unit >= 1024 * 1024,
                amount <= u64::MAX,
        ;
        lemma_div_round_bound(
            amount as nat * pow10(precision as nat),
            unit as nat,
            u64::MAX as nat,
        );
    }
    let scaled = crate::metrics::div_round_wide(
        (amount as u128) * (p10 as u128),
        unit as u128,
    );
    if precision == 0 {
        push_u64(out, scaled);
        proof {
            assert(old(out)@ + dec_rep(scaled as nat) =~= old(out)@ + scaled_string(
                amount as nat,
                unit as nat,
                0,
            ));
        }
    } else {
        push_u64(out, scaled / p10);
        push_char(out, '.');
        push_padded(out, scaled % p10, precision);
        proof {
            assert((old(out)@ + dec_rep((scaled / p10) as nat)).push('.') + dec_pad(
                (scaled % p10) as nat,
                precision as nat,
            ) =~= old(out)@ + scaled_string(amount as nat, unit as nat, precision as nat));
        }
    }
}

pub const KILOBYTE: u64 = 1024;

pub const MEGABYTE: u64 = 1024 * 1024;

pub const GIGABYTE: u64 = 1024 * 1024 * 1024;

/// How a byte count reads: gigabytes or megabytes with the requested number
/// of decimal places, or a plain byte count below one megabyte.
pub open spec fn size_string(bytes: nat, precision: nat) -> Seq<char> {
    if bytes >= GIGABYTE {
        scaled_string(bytes, GIGABYTE as nat, precision) + " GB"@
    } else if bytes >= MEGABYTE {
        scaled_string(bytes, MEGABYTE as nat, precision) + " MB"@
    } else {
        dec_rep(bytes) + " bytes"@
    }
}

/// Render a byte count with its unit: gigabytes or megabytes to
/// `precision` decimal places (rounded to the nearest, ties away from
/// zero), or the plain count below one megabyte.
pub fn format_size(bytes: u64, precision: usize) -> (r: String)
    requires
        precision <= 5,
    ensures
        r@ == size_string(bytes as nat, precision as nat),
{
    let mut out = String::new();
    if bytes >= GIGABYTE {
        push_scaled(&mut out, bytes, GIGABYTE, precision);
        out.append(" GB");
    } else if bytes >= MEGABYTE {
        push_scaled(&mut out, bytes, MEGABYTE, precision);
        out.append(" MB");
    } else {
        push_u64(&mut out, bytes);
        out.append(" bytes");
    }
    proof {
        assert(out@ =~= size_string(bytes as nat, precision as nat));
    }
    out
}

/// A kibibyte count to be rendered with a fixed number of decimal places.
pub struct RoundedKibibytes {
    pub kibibytes: u64,
    pub precision: usize,
}

/// How a kibibyte count reads: the plain count below a thousand, otherwise
/// megabytes or gigabytes with the requested decimal places.
pub open spec fn kibibytes_string(kib: nat, precision: nat) -> Seq<char> {
    if kib < 1000 {
        dec_rep(kib) + " KB"@
    } else if kib < 1000000 {
        scaled_string(kib, 1024, precision) + " MB"@
    } else {
        scaled_string(kib, 1024 * 1024, precision) + " GB"@
    }
}

impl RoundedKibibytes {
    /// Render the count with its unit.
    pub fn format(&self) -> (r: String)
        requires
            self.precision <= 5,
        ensures
            r@ == kibibytes_string(self.kibibytes as nat, self.precision as nat),
    {
        let mut out = String::new();
        if self.kibibytes < 1000 {
            push_u64(&mut out, self.kibibytes);
            out.append(" KB");
        } else if self.kibibytes < 1000000 {
            push_scaled_kib(&mut out, self.kibibytes, 1024, self.precision);
            out.append(" MB");
        } else {
            push_scaled_kib(&mut out, self.kibibytes, 1024 * 1024, self.precision);
            out.append(" GB");
        }
        proof {
            assert(out@ =~= kibibytes_string(self.kibibytes as nat, self.precision as nat));
        }
        out
    }
}

/// As `push_scaled`, for the kibibyte units, whose divisors are smaller.
fn push_scaled_kib(out: &mut String, amount: u64, unit: u64, precision: usize)
    requires
        unit == 1024 || unit == 1024 * 1024,
        unit == 1024 ==> amount < 1000000,
        precision <= 5,
    ensures
        final(out)@ == old(out)@ + scaled_string(amount as nat, unit as nat, precision as nat),
{
    let p10 = pow10_u64(precision);
    proof {
        if unit == 1024 {
            assert(amount as nat * pow10(precision as nat) <= 1024 * (u64::MAX as nat))
                by (nonlinear_arith)
                requires
                    pow10(precision as nat) <= 100000,
                    amount < 1000000,
            ;
        } else {
            assert(amount as nat * pow10(precision as nat) <= (1024 * 1024) * (
            u64::MAX as nat)) by (nonlinear_arith)
                requires
                    pow10(precision as nat) <= 100000,
                    amount <= u64::MAX,
            ;
        }
        lemma_div_round_bound(
            amount as nat * pow10(precision as nat),
            unit as nat,
            u64::MAX as nat,
        );
    }
    let scaled = crate::metrics::div_round_wide(
        (amount as u128) * (p10 as u128),
        unit as u128,
    );
    if precision == 0 {
        push_u64(out, scaled);
        proof {
            assert(old(out)@ + dec_rep(scaled as nat) =~= old(out)@ + scaled_string(
                amount as nat,
                unit as nat,
                0,
            ));
        }
    } else {
        push_u64(out, scaled / p10);
        push_char(out, '.');
        push_padded(out, scaled % p10, precision);
        proof {
            assert((old(out)@ + dec_rep((scaled / p10) as nat)).push('.') + dec_pad(
                (scaled % p10) as nat,
                precision as nat,
            ) =~= old(out)@ + scaled_string(amount as nat, unit as nat, precision as nat));
        }
    }
}

/// The ASCII lower-case fold of one character: the twenty-six upper-case
/// letters map to their lower-case forms, every other character stands as
/// itself.
pub open spec fn ascii_lower_char(c: char) -> char {
    if c == 'A' {
        'a'
    } else if c == 'B' {
        'b'
    } else if c == 'C' {
        'c'
    } else if c == 'D' {
        'd'
    } else if c == 'E' {
        'e'
    } else if c == 'F' {
        'f'
    } else if c == 'G' {
        'g'
    } else if c == 'H' {
        'h'
    } else if c == 'I' {
        'i'
    } else if c == 'J' {
        'j'
    } else if c == 'K' {
        'k'
    } else if c == 'L' {
        'l'
    } else if c == 'M' {
        'm'
    } else if c == 'N' {
        'n'
    } else if c == 'O' {
        'o'
    } else if c == 'P' {
        'p'
    } else if c == 'Q' {
        'q'
    } else if c == 'R' {
        'r'
    } else if c == 'S' {
        's'
    } else if c == 'T' {
        't'
    } else if c == 'U' {
        'u'
    } else if c == 'V' {
        'v'
    } else if c == 'W' {
        'w'
    } else if c == 'X' {
        'x'
    } else if c == 'Y' {
        'y'
    } else if c == 'Z' {
        'z'
    } else {
        c
    }
}

/// The ASCII lower-case fold of a character sequence.
pub open spec fn ascii_lower(s: Seq<char>) -> Seq<char> {
    s.map_values(|c: char| ascii_lower_char(c))
}

/// Fold one character to ASCII lower case.
pub fn to_ascii_lower_char(c: char) -> (r: char)
    ensures
        r == ascii_lower_char(c),
{
    match c {
        'A' => 'a',
        'B' => 'b',
        'C' => 'c',
        'D' => 'd',
        'E' => 'e',
        'F' => 'f',
        'G' => 'g',
        'H' => 'h',
        'I' => 'i',
        'J' => 'j',
        'K' => 'k',
        'L' => 'l',
        'M' => 'm',
        'N' => 'n',
        'O' => 'o',
        'P' => 'p',
        'Q' => 'q',
        'R' => 'r',
        'S' => 's',
        'T' => 't',
        'U' => 'u',
        'V' => 'v',
        'W' => 'w',
        'X' => 'x',
        'Y' => 'y',
        'Z' => 'z',
        _ => c,
    }
}

/// The ASCII lower-case fold of a string slice.
pub fn to_ascii_lower(s: &str) -> (r: String)
    ensures
        r@ == ascii_lower(s@),
{
    let mut out = String::new();
    let n = s.unicode_len();
    let mut i: usize = 0;
    while i < n
        invariant
            i <= n,
            n == s@.len(),
            out@ =~= ascii_lower(s@.subrange(0, i as int)),
        decreases n - i,
    {
        let folded = to_ascii_lower_char(s.get_char(i));
        push_char(&mut out, folded);
        proof {
            assert(out@ =~= ascii_lower(s@.subrange(0, i + 1 as int)));
        }
        i = i + 1;
    }
    proof {
        assert(s@.subrange(0, n as int) =~= s@);
        assert(out@ =~= ascii_lower(s@));
    }
    out
}

/// Whether two string slices hold the same characters.
pub fn str_eq(a: &str, b: &str) -> (r: bool)
    ensures
        r == (a@ == b@),
{
    let sa = String::from_str(a);
    let sb = String::from_str(b);
    sa == sb
}

/// How a CPU vendor identifier reads: the common vendor identification
/// strings map to the short brand names, anything else passes through.
pub open spec fn vendor_label(v: Seq<char>) -> Seq<char> {
    if v == "GenuineIntel"@ {
        "Intel"@
    } else if v == "AuthenticAMD"@ {
        "AMD"@
    } else {
        v
    }
}

/// Normalize a CPU vendor identifier to a display name.
pub fn format_vendor_name(vendor_id: &str) -> (r: String)
    ensures
        r@ == vendor_label(vendor_id@),
{
    if str_eq(vendor_id, "GenuineIntel") {
        String::from_str("Intel")
    } else if str_eq(vendor_id, "AuthenticAMD") {
        String::from_str("AMD")
    } else {
        String::from_str(vendor_id)
    }
}

} // verus!
