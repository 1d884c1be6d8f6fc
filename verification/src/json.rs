//! The JSON grammar fragments the wire format uses: whitespace, string
//! escaping, booleans, numbers and unsigned integers.
//!
//! Each piece of the grammar is a spec function over a `Seq<char>` and a
//! position, and each executable scanner is proved to return exactly what the
//! spec function says.

use vstd::prelude::*;

verus! {

/// JSON insignificant whitespace.
pub open spec fn is_ws(c: char) -> bool {
    c == ' ' || c == '\t' || c == '\n' || c == '\r'
}

/// The first position at or after `i` holding no whitespace.
pub open spec fn spec_skip_ws(s: Seq<char>, i: int) -> int
    decreases s.len() - i,
{
    if 0 <= i < s.len() && is_ws(s[i]) {
        spec_skip_ws(s, i + 1)
    } else {
        i
    }
}

/// Skips whitespace, landing on the first significant character.
pub fn skip_ws(s: &Vec<char>, i: usize) -> (j: usize)
    requires
        i <= s@.len(),
    ensures
        j == spec_skip_ws(s@, i as int),
        i <= j <= s@.len(),
{
    let mut p = i;
    while p < s.len() && (s[p] == ' ' || s[p] == '\t' || s[p] == '\n' || s[p] == '\r')
        invariant
            i <= p <= s@.len(),
            spec_skip_ws(s@, i as int) == spec_skip_ws(s@, p as int),
        decreases s@.len() - p,
    {
        p = p + 1;
    }
    p
}

/// An ASCII decimal digit.
pub open spec fn is_digit(c: char) -> bool {
    ('0' as u32) <= (c as u32) && (c as u32) <= ('9' as u32)
}

/// The numeric value of a hexadecimal digit, or `-1`.
pub open spec fn hex_val(c: char) -> int {
    if ('0' as u32) <= (c as u32) && (c as u32) <= ('9' as u32) {
        (c as u32) - ('0' as u32)
    } else if ('a' as u32) <= (c as u32) && (c as u32) <= ('f' as u32) {
        (c as u32) - ('a' as u32) + 10
    } else if ('A' as u32) <= (c as u32) && (c as u32) <= ('F' as u32) {
        (c as u32) - ('A' as u32) + 10
    } else {
        -1
    }
}

/// The lower-case hexadecimal digit for a value below 16.
pub open spec fn hex_digit(d: int) -> char {
    if d == 0 { '0' } else if d == 1 { '1' } else if d == 2 { '2' }
    else if d == 3 { '3' } else if d == 4 { '4' } else if d == 5 { '5' }
    else if d == 6 { '6' } else if d == 7 { '7' } else if d == 8 { '8' }
    else if d == 9 { '9' } else if d == 10 { 'a' } else if d == 11 { 'b' }
    else if d == 12 { 'c' } else if d == 13 { 'd' } else if d == 14 { 'e' }
    else { 'f' }
}

/// Computes the hexadecimal value of a digit character, if it is one.
pub fn hex_val_ex(c: char) -> (r: Option<u32>)
    ensures
        match r {
            Some(v) => hex_val(c) == v as int && v < 16,
            None => hex_val(c) < 0,
        },
{
    let u = c as u32;
    if ('0' as u32) <= u && u <= ('9' as u32) {
        Some(u - ('0' as u32))
    } else if ('a' as u32) <= u && u <= ('f' as u32) {
        Some(u - ('a' as u32) + 10)
    } else if ('A' as u32) <= u && u <= ('F' as u32) {
        Some(u - ('A' as u32) + 10)
    } else {
        None
    }
}

/// Writes the hexadecimal digit for a value below 16.
pub fn hex_digit_ex(d: u32) -> (c: char)
    requires
        d < 16,
    ensures
        c == hex_digit(d as int),
{
    if d == 0 { '0' } else if d == 1 { '1' } else if d == 2 { '2' }
    else if d == 3 { '3' } else if d == 4 { '4' } else if d == 5 { '5' }
    else if d == 6 { '6' } else if d == 7 { '7' } else if d == 8 { '8' }
    else if d == 9 { '9' } else if d == 10 { 'a' } else if d == 11 { 'b' }
    else if d == 12 { 'c' } else if d == 13 { 'd' } else if d == 14 { 'e' }
    else { 'f' }
}

/// A character that must be written escaped inside a JSON string: the
/// quote, the backslash, and the control characters.
pub open spec fn needs_escape(c: char) -> bool {
    c == '"' || c == '\\' || (c as u32) < 0x20
}

/// How one character is written inside a JSON string: the quote, the
/// backslash and the common control characters get their two-character
/// escapes, the remaining control characters a `\u00XX` escape, and every
/// other character stands for itself.
pub open spec fn escape_char(c: char) -> Seq<char> {
    if c == '"' {
        seq!['\\', '"']
    } else if c == '\\' {
        seq!['\\', '\\']
    } else if c == '\n' {
        seq!['\\', 'n']
    } else if c == '\r' {
        seq!['\\', 'r']
    } else if c == '\t' {
        seq!['\\', 't']
    } else if (c as u32) < 0x20 {
        seq!['\\', 'u', '0', '0', hex_digit((c as u32) as int / 16), hex_digit((c as u32) as int % 16)]
    } else {
        seq![c]
    }
}

/// The body of a JSON string holding exactly the characters of `s`.
pub open spec fn escape_seq(s: Seq<char>) -> Seq<char>
    decreases s.len(),
{
    if s.len() == 0 {
        Seq::<char>::empty()
    } else {
        escape_char(s[0]) + escape_seq(s.skip(1))
    }
}

/// Escaping distributes over concatenation.
pub proof fn lemma_escape_seq_concat(a: Seq<char>, b: Seq<char>)
    ensures
        escape_seq(a + b) == escape_seq(a) + escape_seq(b),
    decreases a.len(),
{
    if a.len() == 0 {
        assert(a + b =~= b);
        assert(escape_seq(a) + escape_seq(b) =~= escape_seq(b));
    } else {
        lemma_escape_seq_concat(a.skip(1), b);
        assert((a + b).skip(1) =~= a.skip(1) + b);
        assert(escape_seq(a + b) =~= escape_seq(a) + escape_seq(b));
    }
}

/// Appends the escaped form of `s` to `out`.
pub fn escape_into(out: &mut Vec<char>, s: &Vec<char>)
    ensures
        final(out)@ == old(out)@ + escape_seq(s@),
{
    let ghost base = out@;
    let mut i: usize = 0;
    while i < s.len()
        invariant
            i <= s@.len(),
            out@ == base + escape_seq(s@.subrange(0, i as int)),
        decreases s@.len() - i,
    {
        let c = s[i];
        if c == '"' {
            out.push('\\');
            out.push('"');
        } else if c == '\\' {
            out.push('\\');
            out.push('\\');
        } else if c == '\n' {
            out.push('\\');
            out.push('n');
        } else if c == '\r' {
            out.push('\\');
            out.push('r');
        } else if c == '\t' {
            out.push('\\');
            out.push('t');
        } else if (c as u32) < 0x20 {
            out.push('\\');
            out.push('u');
            out.push('0');
            out.push('0');
            out.push(hex_digit_ex((c as u32) / 16));
            out.push(hex_digit_ex((c as u32) % 16));
        } else {
            out.push(c);
        }
        proof {
            let pre = s@.subrange(0, i as int);
            let one = s@.subrange(i as int, i as int + 1);
            assert(one.len() == 1 && one[0] == s@[i as int]);
            assert(escape_seq(one) =~= escape_char(s@[i as int]) + escape_seq(one.skip(1)));
            assert(one.skip(1) =~= Seq::<char>::empty());
            lemma_escape_seq_concat(pre, one);
            assert(s@.subrange(0, i as int + 1) =~= pre + one);
            assert(out@ =~= base + escape_seq(s@.subrange(0, i as int + 1)));
        }
        i = i + 1;
    }
    proof {
        assert(s@.subrange(0, s@.len() as int) =~= s@);
    }
}

/// Relies on `char::from_u32`: it returns `Some` exactly on the Unicode
/// scalar values (below the surrogate range, or between it and `0x10FFFF`),
/// and the returned character has that code.
#[verifier::external_body]
pub fn char_from_code(v: u32) -> (r: Option<char>)
    ensures
        (r is Some) <==> (v < 0xD800 || (0xE000 <= v && v <= 0x10FFFF)),
        match r {
            Some(c) => c as u32 == v,
            None => true,
        },
{
    char::from_u32(v)
}

/// Parses the body of a JSON string from position `i` (just past the opening
/// quote) with the characters read so far in `acc`, up to and including the
/// closing quote. Unterminated bodies, raw control characters, unknown
/// escapes and `\u` escapes naming a surrogate are rejected.
pub open spec fn spec_parse_string_body(s: Seq<char>, i: int, acc: Seq<char>) -> Option<(Seq<char>, int)>
    decreases s.len() - i,
{
    if i < 0 || i >= s.len() {
        None
    } else if s[i] == '"' {
        Some((acc, i + 1))
    } else if s[i] == '\\' {
        if i + 1 >= s.len() {
            None
        } else {
            let e = s[i + 1];
            if e == '"' {
                spec_parse_string_body(s, i + 2, acc.push('"'))
            } else if e == '\\' {
                spec_parse_string_body(s, i + 2, acc.push('\\'))
            } else if e == '/' {
                spec_parse_string_body(s, i + 2, acc.push('/'))
            } else if e == 'n' {
                spec_parse_string_body(s, i + 2, acc.push('\n'))
            } else if e == 'r' {
                spec_parse_string_body(s, i + 2, acc.push('\r'))
            } else if e == 't' {
                spec_parse_string_body(s, i + 2, acc.push('\t'))
            } else if e == 'b' {
                spec_parse_string_body(s, i + 2, acc.push('\u{8}'))
            } else if e == 'f' {
                spec_parse_string_body(s, i + 2, acc.push('\u{c}'))
            } else if e == 'u' {
                if i + 6 > s.len() {
                    None
                } else {
                    let v = hex_val(s[i + 2]) * 4096 + hex_val(s[i + 3]) * 256
                        + hex_val(s[i + 4]) * 16 + hex_val(s[i + 5]);
                    if hex_val(s[i + 2]) >= 0 && hex_val(s[i + 3]) >= 0
                        && hex_val(s[i + 4]) >= 0 && hex_val(s[i + 5]) >= 0
                        && (v < 0xD800 || 0xE000 <= v) {
                        spec_parse_string_body(s, i + 6, acc.push((v as u32) as char))
                    } else {
                        None
                    }
                }
            } else {
                None
            }
        }
    } else if (s[i] as u32) < 0x20 {
        None
    } else {
        spec_parse_string_body(s, i + 1, acc.push(s[i]))
    }
}

/// Scans a JSON string body, returning its characters and the position just
/// past the closing quote.
pub fn parse_string_body(s: &Vec<char>, i: usize) -> (r: Option<(Vec<char>, usize)>)
    requires
        i <= s@.len(),
    ensures
        match r {
            Some(t) => Some((t.0@, t.1 as int)) == spec_parse_string_body(s@, i as int, Seq::<char>::empty())
                && i <= t.1 <= s@.len(),
            None => spec_parse_string_body(s@, i as int, Seq::<char>::empty()) is None,
        },
{
    let mut acc: Vec<char> = Vec::new();
    let mut p = i;
    loop
        invariant
            i <= p <= s@.len(),
            spec_parse_string_body(s@, i as int, Seq::<char>::empty())
                == spec_parse_string_body(s@, p as int, acc@),
        decreases s@.len() - p,
    {
        if p >= s.len() {
            return None;
        }
        let c = s[p];
        if c == '"' {
            return Some((acc, p + 1));
        } else if c == '\\' {
            if p + 1 >= s.len() {
                return None;
            }
            let e = s[p + 1];
            if e == '"' {
                acc.push('"');
                p = p + 2;
            } else if e == '\\' {
                acc.push('\\');
                p = p + 2;
            } else if e == '/' {
                acc.push('/');
                p = p + 2;
            } else if e == 'n' {
                acc.push('\n');
                p = p + 2;
            } else if e == 'r' {
                acc.push('\r');
                p = p + 2;
            } else if e == 't' {
                acc.push('\t');
                p = p + 2;
            } else if e == 'b' {
                acc.push('\u{8}');
                p = p + 2;
            } else if e == 'f' {
                acc.push('\u{c}');
                p = p + 2;
            } else if e == 'u' {
                if s.len() - p < 6 {
                    return None;
                }
                let d0 = hex_val_ex(s[p + 2]);
                let d1 = hex_val_ex(s[p + 3]);
                let d2 = hex_val_ex(s[p + 4]);
                let d3 = hex_val_ex(s[p + 5]);
                match (d0, d1, d2, d3) {
                    (Some(v0), Some(v1), Some(v2), Some(v3)) => {
                        let v = v0 * 4096 + v1 * 256 + v2 * 16 + v3;
                        if v < 0xD800 || 0xE000 <= v {
                            match char_from_code(v) {
                                Some(ch) => {
                                    proof {
                                        vstd::utf8::char_u32_cast(ch, v);
                                    }
                                    acc.push(ch);
                                    p = p + 6;
                                },
                                None => {
                                    // unreachable: v is a scalar value
                                    return None;
                                },
                            }
                        } else {
                            return None;
                        }
                    },
                    _ => {
                        return None;
                    },
                }
            } else {
                return None;
            }
        } else if (c as u32) < 0x20 {
            return None;
        } else {
            acc.push(c);
            p = p + 1;
        }
    }
}

/// Parses a complete JSON string at `i`: an opening quote, a body, a closing
/// quote.
pub open spec fn spec_parse_string_at(s: Seq<char>, i: int) -> Option<(Seq<char>, int)> {
    if 0 <= i < s.len() && s[i] == '"' {
        spec_parse_string_body(s, i + 1, Seq::<char>::empty())
    } else {
        None
    }
}

/// Scans a complete JSON string at `i`.
pub fn parse_string_at(s: &Vec<char>, i: usize) -> (r: Option<(Vec<char>, usize)>)
    requires
        i <= s@.len(),
    ensures
        match r {
            Some(t) => Some((t.0@, t.1 as int)) == spec_parse_string_at(s@, i as int)
                && i <= t.1 <= s@.len(),
            None => spec_parse_string_at(s@, i as int) is None,
        },
{
    if i < s.len() && s[i] == '"' {
        parse_string_body(s, i + 1)
    } else {
        None
    }
}

/// Parses the literal `true` or `false` at `i`.
pub open spec fn spec_parse_bool(s: Seq<char>, i: int) -> Option<(bool, int)> {
    if 0 <= i && i + 4 <= s.len() && s[i] == 't' && s[i + 1] == 'r' && s[i + 2] == 'u'
        && s[i + 3] == 'e' {
        Some((true, i + 4))
    } else if 0 <= i && i + 5 <= s.len() && s[i] == 'f' && s[i + 1] == 'a' && s[i + 2] == 'l'
        && s[i + 3] == 's' && s[i + 4] == 'e' {
        Some((false, i + 5))
    } else {
        None
    }
}

/// Scans the literal `true` or `false` at `i`.
pub fn parse_bool(s: &Vec<char>, i: usize) -> (r: Option<(bool, usize)>)
    requires
        i <= s@.len(),
    ensures
        match r {
            Some(t) => Some((t.0, t.1 as int)) == spec_parse_bool(s@, i as int)
                && i <= t.1 <= s@.len(),
            None => spec_parse_bool(s@, i as int) is None,
        },
{
    if i < s.len() && s.len() - i >= 4 && s[i] == 't' && s[i + 1] == 'r' && s[i + 2] == 'u'
        && s[i + 3] == 'e' {
        Some((true, i + 4))
    } else if i < s.len() && s.len() - i >= 5 && s[i] == 'f' && s[i + 1] == 'a' && s[i + 2] == 'l'
        && s[i + 3] == 's' && s[i + 4] == 'e' {
        Some((false, i + 5))
    } else {
        None
    }
}

/// Parses the literal `null` at `i`.
pub open spec fn spec_parse_null(s: Seq<char>, i: int) -> Option<int> {
    if 0 <= i && i + 4 <= s.len() && s[i] == 'n' && s[i + 1] == 'u' && s[i + 2] == 'l'
        && s[i + 3] == 'l' {
        Some(i + 4)
    } else {
        None
    }
}

/// Scans the literal `null` at `i`.
pub fn parse_null(s: &Vec<char>, i: usize) -> (r: Option<usize>)
    requires
        i <= s@.len(),
    ensures
        match r {
            Some(j) => Some(j as int) == spec_parse_null(s@, i as int) && i <= j <= s@.len(),
            None => spec_parse_null(s@, i as int) is None,
        },
{
    if i < s.len() && s.len() - i >= 4 && s[i] == 'n' && s[i + 1] == 'u' && s[i + 2] == 'l'
        && s[i + 3] == 'l' {
        Some(i + 4)
    } else {
        None
    }
}

/// The first position at or after `i` holding no decimal digit.
pub open spec fn spec_scan_digits(s: Seq<char>, i: int) -> int
    decreases s.len() - i,
{
    if 0 <= i < s.len() && is_digit(s[i]) {
        spec_scan_digits(s, i + 1)
    } else {
        i
    }
}

/// Skips a run of decimal digits.
pub fn scan_digits(s: &Vec<char>, i: usize) -> (j: usize)
    requires
        i <= s@.len(),
    ensures
        j == spec_scan_digits(s@, i as int),
        i <= j <= s@.len(),
{
    let mut p = i;
    while p < s.len() && ('0' as u32) <= (s[p] as u32) && (s[p] as u32) <= ('9' as u32)
        invariant
            i <= p <= s@.len(),
            spec_scan_digits(s@, i as int) == spec_scan_digits(s@, p as int),
        decreases s@.len() - p,
    {
        p = p + 1;
    }
    p
}

/// Scans an optional fraction part (`.` and at least one digit) at `i`,
/// `None` on a lone dot.
pub open spec fn spec_scan_frac(s: Seq<char>, i: int) -> Option<int> {
    if 0 <= i < s.len() && s[i] == '.' {
        if i + 1 < s.len() && is_digit(s[i + 1]) {
            Some(spec_scan_digits(s, i + 1))
        } else {
            None
        }
    } else {
        Some(i)
    }
}

/// Scans an optional exponent part at `i`.
pub open spec fn spec_scan_exp(s: Seq<char>, i: int) -> Option<int> {
    if 0 <= i < s.len() && (s[i] == 'e' || s[i] == 'E') {
        let j = if i + 1 < s.len() && (s[i + 1] == '+' || s[i + 1] == '-') {
            i + 2
        } else {
            i + 1
        };
        if j < s.len() && is_digit(s[j]) {
            Some(spec_scan_digits(s, j))
        } else {
            None
        }
    } else {
        Some(i)
    }
}

/// Scans a JSON number at `i`: optional minus sign, an integer part with no
/// leading zero, an optional fraction, an optional exponent. Returns the
/// position just past the number.
pub open spec fn spec_scan_number(s: Seq<char>, i: int) -> Option<int> {
    let j = if 0 <= i < s.len() && s[i] == '-' {
        i + 1
    } else {
        i
    };
    if 0 <= j < s.len() && is_digit(s[j]) {
        let k = if s[j] == '0' {
            j + 1
        } else {
            spec_scan_digits(s, j)
        };
        match spec_scan_frac(s, k) {
            Some(l) => spec_scan_exp(s, l),
            None => None,
        }
    } else {
        None
    }
}

/// A complete text that is one JSON number.
pub open spec fn wf_number(t: Seq<char>) -> bool {
    spec_scan_number(t, 0) == Some(t.len() as int)
}

/// Scans a JSON number at `i`.
pub fn scan_number(s: &Vec<char>, i: usize) -> (r: Option<usize>)
    requires
        i <= s@.len(),
    ensures
        match r {
            Some(j) => Some(j as int) == spec_scan_number(s@, i as int) && i <= j <= s@.len(),
            None => spec_scan_number(s@, i as int) is None,
        },
{
    let j = if i < s.len() && s[i] == '-' {
        i + 1
    } else {
        i
    };
    if j < s.len() && ('0' as u32) <= (s[j] as u32) && (s[j] as u32) <= ('9' as u32) {
        let k = if s[j] == '0' {
            j + 1
        } else {
            scan_digits(s, j)
        };
        // fraction
        let l_opt: Option<usize> = if k < s.len() && s[k] == '.' {
            if k + 1 < s.len() && ('0' as u32) <= (s[k + 1] as u32) && (s[k + 1] as u32) <= ('9' as u32) {
                Some(scan_digits(s, k + 1))
            } else {
                None
            }
        } else {
            Some(k)
        };
        match l_opt {
            Some(l) => {
                // exponent
                if l < s.len() && (s[l] == 'e' || s[l] == 'E') {
                    let m = if l + 1 < s.len() && (s[l + 1] == '+' || s[l + 1] == '-') {
                        l + 2
                    } else {
                        l + 1
                    };
                    if m < s.len() && ('0' as u32) <= (s[m] as u32) && (s[m] as u32) <= ('9' as u32) {
                        Some(scan_digits(s, m))
                    } else {
                        None
                    }
                } else {
                    Some(l)
                }
            },
            None => None,
        }
    } else {
        None
    }
}

/// The value of a run of decimal digits.
pub open spec fn spec_digits_val(s: Seq<char>, i: int, j: int, acc: int) -> int
    decreases j - i,
{
    if i < j && 0 <= i < s.len() {
        spec_digits_val(s, i + 1, j, acc * 10 + ((s[i] as u32) - ('0' as u32)))
    } else {
        acc
    }
}

/// Parses an unsigned decimal integer at `i` into a `u64`; `None` when no
/// digit stands at `i` or the value does not fit.
pub open spec fn spec_parse_u64(s: Seq<char>, i: int) -> Option<(u64, int)> {
    if 0 <= i < s.len() && is_digit(s[i]) {
        let j = spec_scan_digits(s, i);
        let v = spec_digits_val(s, i, j, 0);
        if v <= u64::MAX {
            Some((v as u64, j))
        } else {
            None
        }
    } else {
        None
    }
}

/// The accumulator-shifted value of a digit run is monotone in the
/// accumulator and grows past any bound once the run is long.
proof fn lemma_digits_val_ge_acc(s: Seq<char>, i: int, j: int, acc: int)
    requires
        acc >= 0,
        0 <= i,
        j <= s.len(),
        forall|k: int| i <= k < j ==> #[trigger] is_digit(s[k]),
    ensures
        spec_digits_val(s, i, j, acc) >= acc,
    decreases j - i,
{
    if i < j {
        assert(is_digit(s[i]));
        lemma_digits_val_ge_acc(s, i + 1, j, acc * 10 + ((s[i] as u32) - ('0' as u32)));
    }
}

/// Parses an unsigned decimal integer into a `u64`.
pub fn parse_u64_at(s: &Vec<char>, i: usize) -> (r: Option<(u64, usize)>)
    requires
        i <= s@.len(),
    ensures
        match r {
            Some(t) => Some((t.0, t.1 as int)) == spec_parse_u64(s@, i as int)
                && i <= t.1 <= s@.len(),
            None => spec_parse_u64(s@, i as int) is None,
        },
{
    if i >= s.len() {
        return None;
    }
    let c0 = s[i] as u32;
    if c0 < ('0' as u32) || c0 > ('9' as u32) {
        return None;
    }
    let j = scan_digits(s, i);
    proof {
        lemma_scan_digits_all_digits(s@, i as int);
    }
    let ghost jg = j as int;
    let mut acc: u64 = 0;
    let mut p = i;
    while p < j
        invariant
            i <= p <= j <= s@.len(),
            jg == j as int,
            j as int == spec_scan_digits(s@, i as int),
            forall|k: int| i <= k < jg ==> #[trigger] is_digit(s@[k]),
            spec_digits_val(s@, i as int, jg, 0) == spec_digits_val(s@, p as int, jg, acc as int),
        decreases j - p,
    {
        proof {
            assert(is_digit(s@[p as int]));
        }
        let d: u32 = (s[p] as u32) - ('0' as u32);
        if acc > (u64::MAX - (d as u64)) / 10 {
            proof {
                let m = (u64::MAX - (d as u64)) as int;
                vstd::arithmetic::div_mod::lemma_fundamental_div_mod(m, 10);
                assert(acc as int * 10 + d as int > u64::MAX);
                lemma_digits_val_ge_acc(s@, p as int + 1, jg,
                    acc as int * 10 + ((s@[p as int] as u32) - ('0' as u32)));
            }
            return None;
        }
        acc = acc * 10 + (d as u64);
        p = p + 1;
    }
    Some((acc, j))
}

/// Digit positions strictly before the scan's end hold digits.
pub proof fn lemma_scan_digits_all_digits(s: Seq<char>, i: int)
    requires
        0 <= i <= s.len(),
    ensures
        i <= spec_scan_digits(s, i) <= s.len(),
        forall|k: int| i <= k < spec_scan_digits(s, i) ==> #[trigger] is_digit(s[k]),
    decreases s.len() - i,
{
    if i < s.len() && is_digit(s[i]) {
        lemma_scan_digits_all_digits(s, i + 1);
    }
}

} // verus!
