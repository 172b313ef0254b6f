//! Primitives of the persisted settings format: JSON string escaping and
//! the parsers for the pieces the format is made of (string literals,
//! small numbers, booleans, fixed text), each with its exec form proved
//! against the spec form, and round-trip lemmas showing that parsing
//! recovers exactly what encoding produced.

use crate::textfmt::push_char;
use vstd::prelude::*;
use vstd::string::*;

verus! {

broadcast use vstd::string::group_string_axioms;

/// Whether a character is a lower-case hexadecimal digit.
pub open spec fn is_hex_lower(c: char) -> bool {
    ('0' <= c && c <= '9') || ('a' <= c && c <= 'f')
}

/// The value of a lower-case hexadecimal digit character.
pub open spec fn hexv(c: char) -> nat {
    if '0' <= c && c <= '9' {
        (c as u32 - '0' as u32) as nat
    } else {
        (c as u32 - 'a' as u32 + 10) as nat
    }
}

/// The lower-case hexadecimal digit character for a value below sixteen.
pub open spec fn hex_digit_char(d: nat) -> char {
    if d == 0 {
        '0'
    } else if d == 1 {
        '1'
    } else if d == 2 {
        '2'
    } else if d == 3 {
        '3'
    } else if d == 4 {
        '4'
    } else if d == 5 {
        '5'
    } else if d == 6 {
        '6'
    } else if d == 7 {
        '7'
    } else if d == 8 {
        '8'
    } else if d == 9 {
        '9'
    } else if d == 10 {
        'a'
    } else if d == 11 {
        'b'
    } else if d == 12 {
        'c'
    } else if d == 13 {
        'd'
    } else if d == 14 {
        'e'
    } else {
        'f'
    }
}

/// The character with the given scalar value; used for the control
/// characters a string escape denotes.
pub open spec fn ctrl_char(n: nat) -> char {
    (n as u32) as char
}

/// How one character is written inside a JSON string literal: quote and
/// backslash get a backslash escape, control characters a four-digit
/// hexadecimal escape, everything else stands as itself.
pub open spec fn esc_char(c: char) -> Seq<char> {
    if c == '"' {
        seq!['\\', '"']
    } else if c == '\\' {
        seq!['\\', '\\']
    } else if (c as u32) < 32 {
        seq!['\\', 'u', '0', '0', hex_digit_char((c as u32 / 16) as nat), hex_digit_char(
            (c as u32 % 16) as nat,
        )]
    } else {
        seq![c]
    }
}

/// The escaped body of a JSON string literal.
pub open spec fn escape(s: Seq<char>) -> Seq<char>
    decreases s.len(),
{
    if s.len() == 0 {
        Seq::empty()
    } else {
        esc_char(s[0]) + escape(s.drop_first())
    }
}

/// A whole JSON string literal: the escaped body between quotes.
pub open spec fn json_string(s: Seq<char>) -> Seq<char> {
    seq!['"'] + escape(s) + seq!['"']
}

/// Escaping one more character appends that character's escape.
pub proof fn lemma_escape_snoc(s: Seq<char>, c: char)
    ensures
        escape(s.push(c)) == escape(s) + esc_char(c),
    decreases s.len(),
{
    if s.len() == 0 {
        assert(s.push(c).len() == 1);
        assert(s.push(c)[0] == c);
        assert(s.push(c).drop_first() =~= Seq::<char>::empty());
        assert(escape(Seq::<char>::empty()) =~= Seq::<char>::empty());
        assert(escape(s.push(c)) == esc_char(c) + escape(Seq::<char>::empty()));
        assert(escape(s.push(c)) =~= escape(s) + esc_char(c));
    } else {
        assert(s.push(c)[0] == s[0]);
        assert(s.push(c).drop_first() =~= s.drop_first().push(c));
        lemma_escape_snoc(s.drop_first(), c);
        assert(escape(s.push(c)) == esc_char(s[0]) + escape(s.drop_first().push(c)));
        assert(escape(s.push(c)) =~= escape(s) + esc_char(c));
    }
}

/// Whether a character is one of the five short escape letters.
pub open spec fn is_short_escape(c: char) -> bool {
    c == 't' || c == 'n' || c == 'r' || c == 'b' || c == 'f'
}

/// The character a short escape letter denotes.
pub open spec fn short_escape_char(c: char) -> char {
    if c == 't' {
        '\t'
    } else if c == 'n' {
        '\n'
    } else if c == 'r' {
        '\r'
    } else if c == 'b' {
        '\u{8}'
    } else {
        '\u{c}'
    }
}

/// Parse the body of a JSON string literal, the opening quote already
/// consumed: the decoded characters, and what follows the closing quote.
/// The rendering always writes control characters in the four-digit
/// hexadecimal form, but the parser also reads the five short escapes.
pub open spec fn parse_strbody(t: Seq<char>) -> Option<(Seq<char>, Seq<char>)>
    decreases t.len(),
{
    if t.len() == 0 {
        None
    } else if t[0] == '"' {
        Some((Seq::empty(), t.drop_first()))
    } else if t[0] == '\\' {
        if t.len() >= 2 && (t[1] == '"' || t[1] == '\\') {
            match parse_strbody(t.skip(2)) {
                Some((v, r)) => Some((seq![t[1]] + v, r)),
                None => None,
            }
        } else if t.len() >= 2 && is_short_escape(t[1]) {
            match parse_strbody(t.skip(2)) {
                Some((v, r)) => Some((seq![short_escape_char(t[1])] + v, r)),
                None => None,
            }
        } else if t.len() >= 6 && t[1] == 'u' && t[2] == '0' && t[3] == '0' && is_hex_lower(
            t[4],
        ) && is_hex_lower(t[5]) && 16 * hexv(t[4]) + hexv(t[5]) < 32 {
            match parse_strbody(t.skip(6)) {
                Some((v, r)) => Some((seq![ctrl_char(16 * hexv(t[4]) + hexv(t[5]))] + v, r)),
                None => None,
            }
        } else {
            None
        }
    } else {
        match parse_strbody(t.drop_first()) {
            Some((v, r)) => Some((seq![t[0]] + v, r)),
            None => None,
        }
    }
}

/// A character's scalar value converts back to the same character.
proof fn lemma_char_scalar_roundtrip(c: char)
    ensures
        ((c as u32) as char) == c,
{
}

/// The hexadecimal digit characters are digits, and reading one back gives
/// the value it was written from.
proof fn lemma_hex_digit_char(d: nat)
    requires
        d < 16,
    ensures
        is_hex_lower(hex_digit_char(d)),
        hexv(hex_digit_char(d)) == d,
{
}

/// Parsing an escaped body recovers exactly the characters it was written
/// from, and leaves exactly what followed the closing quote.
pub proof fn lemma_parse_escape(v: Seq<char>, rest: Seq<char>)
    ensures
        parse_strbody(escape(v) + seq!['"'] + rest) == Some((v, rest)),
    decreases v.len(),
{
    if v.len() == 0 {
        let t = escape(v) + seq!['"'] + rest;
        assert(t =~= seq!['"'] + rest);
        assert(t[0] == '"');
        assert(t.drop_first() =~= rest);
        assert(parse_strbody(t) == Some((Seq::<char>::empty(), rest)));
        assert(v =~= Seq::<char>::empty());
    } else {
        let c = v[0];
        let v2 = v.drop_first();
        let t = escape(v) + seq!['"'] + rest;
        let t2 = escape(v2) + seq!['"'] + rest;
        assert(escape(v) == esc_char(c) + escape(v2));
        lemma_parse_escape(v2, rest);
        if c == '"' {
            assert(t =~= seq!['\\', '"'] + t2);
            assert(t[0] == '\\' && t.len() >= 2 && t[1] == '"');
            assert(t.skip(2) =~= t2);
            assert(seq![t[1]] + v2 =~= v);
        } else if c == '\\' {
            assert(t =~= seq!['\\', '\\'] + t2);
            assert(t[0] == '\\' && t.len() >= 2 && t[1] == '\\');
            assert(t.skip(2) =~= t2);
            assert(seq![t[1]] + v2 =~= v);
        } else if (c as u32) < 32 {
            let h1 = hex_digit_char((c as u32 / 16) as nat);
            let h2 = hex_digit_char((c as u32 % 16) as nat);
            assert(t =~= seq!['\\', 'u', '0', '0', h1, h2] + t2);
            assert(t[0] == '\\' && t.len() >= 6 && t[1] == 'u' && t[2] == '0' && t[3] == '0');
            lemma_hex_digit_char((c as u32 / 16) as nat);
            lemma_hex_digit_char((c as u32 % 16) as nat);
            assert(t[4] == h1 && t[5] == h2);
            assert(16 * hexv(h1) + hexv(h2) == c as u32);
            lemma_char_scalar_roundtrip(c);
            assert(ctrl_char(16 * hexv(t[4]) + hexv(t[5])) == c);
            assert(t[1] != '"' && t[1] != '\\');
            assert(t.skip(6) =~= t2);
            assert(seq![c] + v2 =~= v);
        } else {
            assert(t =~= seq![c] + t2);
            assert(t[0] == c && c != '"' && c != '\\');
            assert(t.drop_first() =~= t2);
            assert(seq![c] + v2 =~= v);
        }
    }
}

/// Append one lower-case hexadecimal digit character.
fn push_hex_digit(out: &mut String, d: u32)
    requires
        d < 16,
    ensures
        final(out)@ == old(out)@.push(hex_digit_char(d as nat)),
{
    if d == 0 {
        push_char(out, '0');
    } else if d == 1 {
        push_char(out, '1');
    } else if d == 2 {
        push_char(out, '2');
    } else if d == 3 {
        push_char(out, '3');
    } else if d == 4 {
        push_char(out, '4');
    } else if d == 5 {
        push_char(out, '5');
    } else if d == 6 {
        push_char(out, '6');
    } else if d == 7 {
        push_char(out, '7');
    } else if d == 8 {
        push_char(out, '8');
    } else if d == 9 {
        push_char(out, '9');
    } else if d == 10 {
        push_char(out, 'a');
    } else if d == 11 {
        push_char(out, 'b');
    } else if d == 12 {
        push_char(out, 'c');
    } else if d == 13 {
        push_char(out, 'd');
    } else if d == 14 {
        push_char(out, 'e');
    } else {
        push_char(out, 'f');
    }
}

/// Append a whole JSON string literal holding the given characters.
pub fn push_json_string(out: &mut String, s: &str)
    ensures
        final(out)@ == old(out)@ + json_string(s@),
{
    push_char(out, '"');
    let n = s.unicode_len();
    let mut i: usize = 0;
    while i < n
        invariant
            i <= n,
            n == s@.len(),
            out@ == old(out)@ + seq!['"'] + escape(s@.subrange(0, i as int)),
        decreases n - i,
    {
        let ghost pre = out@;
        let c = s.get_char(i);
        if c == '"' {
            push_char(out, '\\');
            push_char(out, '"');
            proof {
                assert(out@ =~= pre + esc_char(c));
            }
        } else if c == '\\' {
            push_char(out, '\\');
            push_char(out, '\\');
            proof {
                assert(out@ =~= pre + esc_char(c));
            }
        } else if (c as u32) < 32 {
            let v = c as u32;
            push_char(out, '\\');
            push_char(out, 'u');
            push_char(out, '0');
            push_char(out, '0');
            push_hex_digit(out, v / 16);
            push_hex_digit(out, v % 16);
            proof {
                assert(out@ =~= pre + esc_char(c));
            }
        } else {
            push_char(out, c);
            proof {
                assert(out@ =~= pre + esc_char(c));
            }
        }
        proof {
            assert(s@.subrange(0, i + 1 as int) =~= s@.subrange(0, i as int).push(
                s@[i as int],
            ));
            lemma_escape_snoc(s@.subrange(0, i as int), s@[i as int]);
            assert(out@ =~= old(out)@ + seq!['"'] + escape(s@.subrange(0, i + 1 as int)));
        }
        i = i + 1;
    }
    push_char(out, '"');
    proof {
        assert(s@.subrange(0, n as int) =~= s@);
        assert(out@ =~= old(out)@ + json_string(s@));
    }
}

/// The value of a lower-case hexadecimal digit character, or `None` for
/// any other character.
fn hex_lower_value(c: char) -> (r: Option<u32>)
    ensures
        r is Some <==> is_hex_lower(c),
        r matches Some(v) ==> v == hexv(c) && v < 16,
{
    if '0' <= c && c <= '9' {
        Some(c as u32 - '0' as u32)
    } else if 'a' <= c && c <= 'f' {
        Some(c as u32 - 'a' as u32 + 10)
    } else {
        None
    }
}

/// Parse the body of a JSON string literal starting at `pos` (the opening
/// quote already consumed): the decoded string and the position after the
/// closing quote.
pub fn parse_string_body(s: &str, pos: usize) -> (r: Option<(String, usize)>)
    requires
        pos <= s@.len(),
    ensures
        match r {
            Some(v) => pos <= v.1 <= s@.len() && parse_strbody(s@.skip(pos as int)) == Some(
                (v.0@, s@.skip(v.1 as int)),
            ),
            None => parse_strbody(s@.skip(pos as int)) is None,
        },
    decreases s@.len() - pos,
{
    let n = s.unicode_len();
    let ghost t = s@.skip(pos as int);
    proof {
        assert(t.len() == n - pos);
    }
    if pos == n {
        return None;
    }
    let c = s.get_char(pos);
    proof {
        assert(t[0] == c);
    }
    if c == '"' {
        proof {
            assert(t.drop_first() =~= s@.skip(pos + 1 as int));
        }
        return Some((String::new(), pos + 1));
    }
    if c == '\\' {
        if n - pos >= 2 {
            let c1 = s.get_char(pos + 1);
            proof {
                assert(t[1] == c1);
            }
            if c1 == '"' || c1 == '\\' {
                proof {
                    assert(t.skip(2) =~= s@.skip(pos + 2 as int));
                }
                match parse_string_body(s, pos + 2) {
                    Some((tail, p2)) => {
                        let mut out = String::new();
                        push_char(&mut out, c1);
                        out.append(tail.as_str());
                        proof {
                            assert(out@ =~= seq![t[1]] + tail@);
                        }
                        return Some((out, p2));
                    },
                    None => {
                        return None;
                    },
                }
            } else if c1 == 't' || c1 == 'n' || c1 == 'r' || c1 == 'b' || c1 == 'f' {
                let decoded = match c1 {
                    't' => '\t',
                    'n' => '\n',
                    'r' => '\r',
                    'b' => '\u{8}',
                    _ => '\u{c}',
                };
                proof {
                    assert(decoded == short_escape_char(t[1]));
                    assert(t.skip(2) =~= s@.skip(pos + 2 as int));
                }
                match parse_string_body(s, pos + 2) {
                    Some((tail, p2)) => {
                        let mut out = String::new();
                        push_char(&mut out, decoded);
                        out.append(tail.as_str());
                        proof {
                            assert(out@ =~= seq![short_escape_char(t[1])] + tail@);
                        }
                        return Some((out, p2));
                    },
                    None => {
                        return None;
                    },
                }
            } else if c1 == 'u' && n - pos >= 6 {
                let c2 = s.get_char(pos + 2);
                let c3 = s.get_char(pos + 3);
                let h1 = hex_lower_value(s.get_char(pos + 4));
                let h2 = hex_lower_value(s.get_char(pos + 5));
                proof {
                    assert(t[2] == c2 && t[3] == c3);
                    assert(t[4] == s@[pos + 4] && t[5] == s@[pos + 5]);
                }
                match (h1, h2) {
                    (Some(v1), Some(v2)) => {
                        if c2 == '0' && c3 == '0' && 16 * v1 + v2 < 32 {
                            proof {
                                assert(t.skip(6) =~= s@.skip(pos + 6 as int));
                            }
                            match parse_string_body(s, pos + 6) {
                                Some((tail, p2)) => {
                                    let decoded = ((16 * v1 + v2) as u8) as char;
                                    proof {
                                        assert(decoded == ctrl_char(
                                            16 * hexv(t[4]) + hexv(t[5]),
                                        ));
                                    }
                                    let mut out = String::new();
                                    push_char(&mut out, decoded);
                                    out.append(tail.as_str());
                                    proof {
                                        assert(out@ =~= seq![ctrl_char(
                                            16 * hexv(t[4]) + hexv(t[5]),
                                        )] + tail@);
                                    }
                                    return Some((out, p2));
                                },
                                None => {
                                    return None;
                                },
                            }
                        } else {
                            return None;
                        }
                    },
                    _ => {
                        return None;
                    },
                }
            } else {
                return None;
            }
        } else {
            return None;
        }
    }
    proof {
        assert(t.drop_first() =~= s@.skip(pos + 1 as int));
    }
    match parse_string_body(s, pos + 1) {
        Some((tail, p2)) => {
            let mut out = String::new();
            push_char(&mut out, c);
            out.append(tail.as_str());
            proof {
                assert(out@ =~= seq![t[0]] + tail@);
            }
            Some((out, p2))
        },
        None => None,
    }
}

/// Consume an expected piece of fixed text: the position after it, if the
/// text stands at `pos`.
pub open spec fn take_lit(t: Seq<char>, lit: Seq<char>) -> Option<Seq<char>> {
    if lit.is_prefix_of(t) {
        Some(t.skip(lit.len() as int))
    } else {
        None
    }
}

/// Fixed text followed by anything parses to exactly that remainder.
pub proof fn lemma_take_lit(lit: Seq<char>, rest: Seq<char>)
    ensures
        take_lit(lit + rest, lit) == Some(rest),
{
    assert(lit.is_prefix_of(lit + rest)) by {
        assert((lit + rest).subrange(0, lit.len() as int) =~= lit);
    }
    assert((lit + rest).skip(lit.len() as int) =~= rest);
}

/// Consume the expected fixed text starting at `pos`.
pub fn take_lit_at(s: &str, pos: usize, lit: &str) -> (r: Option<usize>)
    requires
        pos <= s@.len(),
    ensures
        match r {
            Some(p2) => pos <= p2 <= s@.len() && p2 == pos + lit@.len() && take_lit(
                s@.skip(pos as int),
                lit@,
            ) == Some(s@.skip(p2 as int)),
            None => take_lit(s@.skip(pos as int), lit@) is None,
        },
{
    let n = s.unicode_len();
    let llen = lit.unicode_len();
    let ghost t = s@.skip(pos as int);
    if n - pos < llen {
        proof {
            assert(!lit@.is_prefix_of(t));
        }
        return None;
    }
    let mut j: usize = 0;
    while j < llen
        invariant
            j <= llen,
            llen == lit@.len(),
            n == s@.len(),
            pos + llen <= n,
            t == s@.skip(pos as int),
            forall|k: int| 0 <= k < j ==> t[k] == lit@[k],
        decreases llen - j,
    {
        if s.get_char(pos + j) != lit.get_char(j) {
            proof {
                assert(t[j as int] == s@[pos + j]);
                assert(!lit@.is_prefix_of(t)) by {
                    if lit@.is_prefix_of(t) {
                        assert(t.subrange(0, llen as int)[j as int] == t[j as int]);
                    }
                }
            }
            return None;
        }
        proof {
            assert(t[j as int] == s@[pos + j]);
        }
        j = j + 1;
    }
    proof {
        assert(lit@.is_prefix_of(t)) by {
            assert(t.subrange(0, llen as int) =~= lit@);
        }
        assert(t.skip(llen as int) =~= s@.skip((pos + llen) as int));
    }
    Some(pos + llen)
}

/// Whether a character is a decimal digit.
pub open spec fn is_digit(c: char) -> bool {
    '0' <= c && c <= '9'
}

/// The value of a decimal digit character.
pub open spec fn digit_val(c: char) -> nat {
    (c as u32 - '0' as u32) as nat
}

/// Parse a small decimal number: one to three digits whose value fits a
/// byte, and what follows them.
pub open spec fn parse_u8(t: Seq<char>) -> Option<(u8, Seq<char>)> {
    if t.len() >= 1 && is_digit(t[0]) {
        if t.len() >= 2 && is_digit(t[1]) {
            if t.len() >= 3 && is_digit(t[2]) {
                if t.len() >= 4 && is_digit(t[3]) {
                    None
                } else {
                    let v = 100 * digit_val(t[0]) + 10 * digit_val(t[1]) + digit_val(t[2]);
                    if v <= 255 {
                        Some((v as u8, t.skip(3)))
                    } else {
                        None
                    }
                }
            } else {
                Some(((10 * digit_val(t[0]) + digit_val(t[1])) as u8, t.skip(2)))
            }
        } else {
            Some((digit_val(t[0]) as u8, t.skip(1)))
        }
    } else {
        None
    }
}

/// The decimal digit characters are digits, and reading one back gives the
/// value it was written from.
proof fn lemma_digit_char(d: nat)
    requires
        d < 10,
    ensures
        is_digit(crate::textfmt::digit_char(d)),
        digit_val(crate::textfmt::digit_char(d)) == d,
{
}

/// A byte's decimal rendering followed by anything that does not start
/// with a digit parses back to exactly that byte.
pub proof fn lemma_parse_u8(n: u8, rest: Seq<char>)
    requires
        rest.len() == 0 || !is_digit(rest[0]),
    ensures
        parse_u8(crate::textfmt::dec_rep(n as nat) + rest) == Some((n, rest)),
{
    let d = crate::textfmt::dec_rep(n as nat);
    let t = d + rest;
    if n < 10 {
        assert(d =~= seq![crate::textfmt::digit_char(n as nat)]);
        lemma_digit_char(n as nat);
        assert(t[0] == crate::textfmt::digit_char(n as nat));
        if t.len() >= 2 {
            assert(t[1] == rest[0]);
        }
        assert(t.skip(1) =~= rest);
    } else if n < 100 {
        let hi = (n / 10) as nat;
        let lo = (n % 10) as nat;
        assert(crate::textfmt::dec_rep(hi) =~= seq![crate::textfmt::digit_char(hi)]);
        assert(d =~= seq![crate::textfmt::digit_char(hi), crate::textfmt::digit_char(lo)]);
        lemma_digit_char(hi);
        lemma_digit_char(lo);
        assert(t[0] == crate::textfmt::digit_char(hi) && t[1] == crate::textfmt::digit_char(
            lo,
        ));
        if t.len() >= 3 {
            assert(t[2] == rest[0]);
        }
        assert(10 * digit_val(t[0]) + digit_val(t[1]) == n);
        assert(t.skip(2) =~= rest);
    } else {
        let hi = ((n / 10) / 10) as nat;
        let mid = ((n / 10) % 10) as nat;
        let lo = (n % 10) as nat;
        assert(crate::textfmt::dec_rep(hi) =~= seq![crate::textfmt::digit_char(hi)]);
        assert(crate::textfmt::dec_rep((n / 10) as nat) =~= seq![
            crate::textfmt::digit_char(hi),
            crate::textfmt::digit_char(mid),
        ]);
        assert(d =~= seq![
            crate::textfmt::digit_char(hi),
            crate::textfmt::digit_char(mid),
            crate::textfmt::digit_char(lo),
        ]);
        lemma_digit_char(hi);
        lemma_digit_char(mid);
        lemma_digit_char(lo);
        assert(t[0] == crate::textfmt::digit_char(hi) && t[1] == crate::textfmt::digit_char(
            mid,
        ) && t[2] == crate::textfmt::digit_char(lo));
        if t.len() >= 4 {
            assert(t[3] == rest[0]);
        }
        assert(100 * digit_val(t[0]) + 10 * digit_val(t[1]) + digit_val(t[2]) == n);
        assert(t.skip(3) =~= rest);
    }
}

/// The value of a decimal digit character, or `None` for any other
/// character.
fn digit_value(c: char) -> (r: Option<u32>)
    ensures
        r is Some <==> is_digit(c),
        r matches Some(v) ==> v == digit_val(c) && v < 10,
{
    if '0' <= c && c <= '9' {
        Some(c as u32 - '0' as u32)
    } else {
        None
    }
}

/// Parse a small decimal number starting at `pos`.
pub fn parse_u8_at(s: &str, pos: usize) -> (r: Option<(u8, usize)>)
    requires
        pos <= s@.len(),
    ensures
        match r {
            Some(v) => pos <= v.1 <= s@.len() && parse_u8(s@.skip(pos as int)) == Some(
                (v.0, s@.skip(v.1 as int)),
            ),
            None => parse_u8(s@.skip(pos as int)) is None,
        },
{
    let n = s.unicode_len();
    let ghost t = s@.skip(pos as int);
    let d0 = if pos < n {
        proof {
            assert(t[0] == s@[pos as int]);
        }
        digit_value(s.get_char(pos))
    } else {
        None
    };
    let v0 = match d0 {
        Some(v) => v,
        None => {
            return None;
        },
    };
    let d1 = if pos + 1 < n {
        proof {
            assert(t[1] == s@[pos + 1]);
        }
        digit_value(s.get_char(pos + 1))
    } else {
        None
    };
    let v1 = match d1 {
        Some(v) => v,
        None => {
            proof {
                assert(t.skip(1) =~= s@.skip(pos + 1 as int));
            }
            return Some(((v0 as u8), pos + 1));
        },
    };
    let d2 = if pos + 2 < n {
        proof {
            assert(t[2] == s@[pos + 2]);
        }
        digit_value(s.get_char(pos + 2))
    } else {
        None
    };
    let v2 = match d2 {
        Some(v) => v,
        None => {
            proof {
                assert(t.skip(2) =~= s@.skip(pos + 2 as int));
            }
            return Some(((10 * v0 + v1) as u8, pos + 2));
        },
    };
    let d3 = if pos + 3 < n {
        proof {
            assert(t[3] == s@[pos + 3]);
        }
        digit_value(s.get_char(pos + 3))
    } else {
        None
    };
    match d3 {
        Some(_) => None,
        None => {
            let v = 100 * v0 + 10 * v1 + v2;
            if v <= 255 {
                proof {
                    assert(t.skip(3) =~= s@.skip(pos + 3 as int));
                }
                Some((v as u8, pos + 3))
            } else {
                None
            }
        },
    }
}

/// Parse a boolean literal: the word `true` or the word `false`.
pub open spec fn parse_bool(t: Seq<char>) -> Option<(bool, Seq<char>)> {
    match take_lit(t, "true"@) {
        Some(r) => Some((true, r)),
        None => match take_lit(t, "false"@) {
            Some(r) => Some((false, r)),
            None => None,
        },
    }
}

/// A boolean's rendering followed by anything parses back to exactly that
/// boolean.
pub proof fn lemma_parse_bool(b: bool, rest: Seq<char>)
    ensures
        parse_bool((if b {
            "true"@
        } else {
            "false"@
        }) + rest) == Some((b, rest)),
{
    reveal_strlit("true");
    reveal_strlit("false");
    assert("true"@.len() == 4);
    assert("false"@.len() == 5);
    if b {
        lemma_take_lit("true"@, rest);
    } else {
        lemma_take_lit("false"@, rest);
        let t = "false"@ + rest;
        assert(t[0] == 'f');
        assert(!"true"@.is_prefix_of(t)) by {
            if "true"@.is_prefix_of(t) {
                assert(t.subrange(0, 4)[0] == t[0]);
            }
        }
    }
}

/// Parse a boolean literal starting at `pos`.
pub fn parse_bool_at(s: &str, pos: usize) -> (r: Option<(bool, usize)>)
    requires
        pos <= s@.len(),
    ensures
        match r {
            Some(v) => pos <= v.1 <= s@.len() && parse_bool(s@.skip(pos as int)) == Some(
                (v.0, s@.skip(v.1 as int)),
            ),
            None => parse_bool(s@.skip(pos as int)) is None,
        },
{
    match take_lit_at(s, pos, "true") {
        Some(p2) => Some((true, p2)),
        None => match take_lit_at(s, pos, "false") {
            Some(p2) => Some((false, p2)),
            None => None,
        },
    }
}

} // verus!
