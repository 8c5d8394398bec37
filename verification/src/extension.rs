//! Parsing of extension values from strings: IP addresses (dotted-quad
//! IPv4 and eight-group IPv6, no `::` compression) and fixed-point
//! decimals with up to fourteen integer and four fraction digits.

use vstd::prelude::*;

use crate::text::find_in_range;
use crate::text::find_char;
use crate::text::ascii_chars_of;
use crate::value::ExtValue;
use crate::value::SpecExt;

verus! {

/// Whether `c` is a decimal digit.
pub open spec fn is_digit(c: char) -> bool {
    '0' <= c && c <= '9'
}

/// The value of a decimal digit.
pub open spec fn dv(c: char) -> int {
    c as u32 - '0' as u32
}

/// Whether every character of `[i, end)` is a digit, and there is at least
/// one.
pub open spec fn digits_ok(s: Seq<char>, i: int, end: int) -> bool {
    i < end && end <= s.len() && forall|k: int| i <= k < end ==> is_digit(#[trigger] s[k])
}

/// The number denoted by the digits of `[i, end)`.
pub open spec fn digits_val(s: Seq<char>, i: int, end: int) -> int
    decreases end - i,
{
    if i >= end {
        0
    } else {
        digits_val(s, i, end - 1) * 10 + dv(s[end - 1])
    }
}

/// Ten to the `k`.
pub open spec fn pow10(k: nat) -> int
    decreases k,
{
    if k == 0 {
        1
    } else {
        10 * pow10((k - 1) as nat)
    }
}

pub proof fn lemma_pow10_mono(a: nat, b: nat)
    requires
        a <= b,
    ensures
        pow10(a) <= pow10(b),
        1 <= pow10(a),
    decreases b,
{
    if b > 0 {
        if a == b {
            lemma_pow10_mono((a - 1) as nat, (b - 1) as nat);
        } else {
            lemma_pow10_mono(a, (b - 1) as nat);
        }
    }
}

/// Digits of a bounded count denote a bounded number.
pub proof fn lemma_digits_val_bound(s: Seq<char>, i: int, end: int)
    requires
        i <= end <= s.len(),
        forall|k: int| i <= k < end ==> is_digit(#[trigger] s[k]),
    ensures
        0 <= digits_val(s, i, end) <= pow10((end - i) as nat) - 1,
    decreases end - i,
{
    if i >= end {
    } else {
        lemma_digits_val_bound(s, i, end - 1);
        lemma_pow10_mono(0, (end - 1 - i) as nat);
        assert(pow10((end - i) as nat) == 10 * pow10((end - 1 - i) as nat));
        assert(0 <= dv(s[end - 1]) <= 9);
    }
}

/// One octet of a dotted quad: one to three digits, no leading zero, at
/// most 255.
pub open spec fn spec_parse_octet(s: Seq<char>, i: int, end: int) -> Option<u8> {
    let len = end - i;
    if len < 1 || len > 3 || end > s.len() || i < 0 {
        None
    } else if !digits_ok(s, i, end) {
        None
    } else if len > 1 && s[i] == '0' {
        None
    } else if digits_val(s, i, end) > 255 {
        None
    } else {
        Some(digits_val(s, i, end) as u8)
    }
}

/// The grammar of an IPv4 address: four octets joined by dots.
pub open spec fn spec_parse_ipv4(s: Seq<char>) -> Option<(u8, u8, u8, u8)> {
    let n = s.len() as int;
    if !vstd::utf8::is_ascii_chars(s) {
        None
    } else {
        let d1 = find_in_range(s, '.', 0, n);
        if d1 == -1 {
            None
        } else {
            let d2 = find_in_range(s, '.', d1 + 1, n);
            if d2 == -1 {
                None
            } else {
                let d3 = find_in_range(s, '.', d2 + 1, n);
                if d3 == -1 || find_in_range(s, '.', d3 + 1, n) != -1 {
                    None
                } else {
                    match (
                        spec_parse_octet(s, 0, d1),
                        spec_parse_octet(s, d1 + 1, d2),
                        spec_parse_octet(s, d2 + 1, d3),
                        spec_parse_octet(s, d3 + 1, n),
                    ) {
                        (Some(a), Some(b), Some(c), Some(d)) => Some((a, b, c, d)),
                        _ => None,
                    }
                }
            }
        }
    }
}

/// Whether `c` is a hexadecimal digit.
pub open spec fn is_hex(c: char) -> bool {
    is_digit(c) || ('a' <= c && c <= 'f') || ('A' <= c && c <= 'F')
}

/// The value of a hexadecimal digit.
pub open spec fn hv(c: char) -> int {
    if is_digit(c) {
        dv(c)
    } else if 'a' <= c && c <= 'f' {
        c as u32 - 'a' as u32 + 10
    } else {
        c as u32 - 'A' as u32 + 10
    }
}

/// The number denoted by the hexadecimal digits of `[i, end)`.
pub open spec fn hex_val(s: Seq<char>, i: int, end: int) -> int
    decreases end - i,
{
    if i >= end {
        0
    } else {
        hex_val(s, i, end - 1) * 16 + hv(s[end - 1])
    }
}

/// One group of an IPv6 address: one to four hexadecimal digits.
pub open spec fn spec_parse_group(s: Seq<char>, i: int, end: int) -> Option<int> {
    let len = end - i;
    if len < 1 || len > 4 || end > s.len() || i < 0 {
        None
    } else if !(forall|k: int| i <= k < end ==> is_hex(#[trigger] s[k])) {
        None
    } else {
        Some(hex_val(s, i, end))
    }
}

/// The colon-separated groups of `[i, end)`, when each parses.
pub open spec fn spec_groups(s: Seq<char>, i: int, end: int) -> Option<Seq<int>>
    decreases end - i,
    when i <= end
{
    let j = find_in_range(s, ':', i, end);
    if j == -1 {
        match spec_parse_group(s, i, end) {
            Some(g) => Some(seq![g]),
            None => None,
        }
    } else if j < i || j >= end {
        None
    } else {
        match (spec_parse_group(s, i, j), spec_groups(s, j + 1, end)) {
            (Some(g), Some(rest)) => Some(seq![g] + rest),
            _ => None,
        }
    }
}

/// The grammar of an IPv6 address accepted here: exactly eight groups,
/// yielding the two 64-bit halves.
pub open spec fn spec_parse_ipv6(s: Seq<char>) -> Option<(u64, u64)> {
    let n = s.len() as int;
    if !vstd::utf8::is_ascii_chars(s) {
        None
    } else {
        match spec_groups(s, 0, n) {
            Some(gs) => if gs.len() == 8 {
                let hi = ((gs[0] * 65536 + gs[1]) * 65536 + gs[2]) * 65536 + gs[3];
                let lo = ((gs[4] * 65536 + gs[5]) * 65536 + gs[6]) * 65536 + gs[7];
                Some((hi as u64, lo as u64))
            } else {
                None
            },
            None => None,
        }
    }
}

/// What an `ip` extension argument denotes: an IPv4 address when it has
/// that shape, else an IPv6 address when it has that shape, else nothing.
pub open spec fn spec_parse_ip(s: Seq<char>) -> Option<SpecExt> {
    match spec_parse_ipv4(s) {
        Some((a, b, c, d)) => Some(SpecExt::Ipv4(a, b, c, d)),
        None => match spec_parse_ipv6(s) {
            Some((hi, lo)) => Some(SpecExt::Ipv6(hi, lo)),
            None => None,
        },
    }
}

/// The grammar of a decimal string: an optional minus sign, one to
/// fourteen integer digits without a leading zero (unless the part is
/// `0`), a dot, and one to four fraction digits; the value is scaled by
/// ten thousand.
pub open spec fn spec_parse_decimal(s: Seq<char>) -> Option<i64> {
    let n = s.len() as int;
    if !vstd::utf8::is_ascii_chars(s) {
        None
    } else {
        let neg = n > 0 && s[0] == '-';
        let i0: int = if neg {
            1
        } else {
            0
        };
        let dot = find_in_range(s, '.', 0, n);
        if dot == -1 || find_in_range(s, '.', dot + 1, n) != -1 {
            None
        } else if !(i0 < dot && digits_ok(s, i0, dot)) {
            None
        } else if dot - i0 > 14 || (dot - i0 > 1 && s[i0] == '0') {
            None
        } else if !(dot + 1 < n && digits_ok(s, dot + 1, n)) {
            None
        } else if n - dot - 1 > 4 {
            None
        } else {
            let mag = digits_val(s, i0, dot) * 10000 + digits_val(s, dot + 1, n) * pow10(
                (4 - (n - dot - 1)) as nat,
            );
            if neg {
                Some((0 - mag) as i64)
            } else {
                Some(mag as i64)
            }
        }
    }
}

/// Whether `c` is a decimal digit.
pub fn digit_check(c: char) -> (r: bool)
    ensures
        r == is_digit(c),
{
    '0' <= c && c <= '9'
}

/// The value of a decimal digit.
fn digitv(c: char) -> (r: u32)
    requires
        is_digit(c),
    ensures
        r as int == dv(c),
{
    c as u32 - 48
}

/// Whether `c` is a hexadecimal digit.
fn hex_check(c: char) -> (r: bool)
    ensures
        r == is_hex(c),
{
    ('0' <= c && c <= '9') || ('a' <= c && c <= 'f') || ('A' <= c && c <= 'F')
}

/// The value of a hexadecimal digit.
fn hexv(c: char) -> (r: u32)
    requires
        is_hex(c),
    ensures
        r as int == hv(c),
{
    if '0' <= c && c <= '9' {
        c as u32 - 48
    } else if 'a' <= c && c <= 'f' {
        c as u32 - 87
    } else {
        c as u32 - 55
    }
}

/// Parses one octet over `[start, end)` of `v`.
fn parse_octet_exec(v: &Vec<char>, start: usize, end: usize) -> (r: Option<u8>)
    requires
        start <= end <= v@.len(),
    ensures
        r == spec_parse_octet(v@, start as int, end as int),
{
    let len = end - start;
    if len < 1 || len > 3 {
        return None;
    }
    let mut k: usize = start;
    while k < end
        invariant
            start <= k <= end <= v@.len(),
            forall|j: int| start <= j < k ==> is_digit(#[trigger] v@[j]),
        decreases end - k,
    {
        if !digit_check(v[k]) {
            assert(!is_digit(v@[k as int]));
            return None;
        }
        k = k + 1;
    }
    assert(digits_ok(v@, start as int, end as int));
    if len > 1 && v[start] == '0' {
        return None;
    }
    proof {
        reveal_with_fuel(digits_val, 4);
    }
    let val: u32 = if len == 1 {
        digitv(v[start])
    } else if len == 2 {
        digitv(v[start]) * 10 + digitv(v[start + 1])
    } else {
        digitv(v[start]) * 100 + digitv(v[start + 1]) * 10 + digitv(v[start + 2])
    };
    proof {
        assert(val as int == digits_val(v@, start as int, end as int));
    }
    if val > 255 {
        return None;
    }
    Some(val as u8)
}

/// Parses a dotted-quad IPv4 address.
pub fn parse_ipv4(s: &str) -> (r: Option<(u8, u8, u8, u8)>)
    ensures
        r == spec_parse_ipv4(s@),
{
    let v = match ascii_chars_of(s) {
        Some(v) => v,
        None => {
            return None;
        },
    };
    let n = v.len();
    let d1 = match find_char(&v, '.', 0, n) {
        Some(j) => j,
        None => {
            return None;
        },
    };
    let d2 = match find_char(&v, '.', d1 + 1, n) {
        Some(j) => j,
        None => {
            return None;
        },
    };
    let d3 = match find_char(&v, '.', d2 + 1, n) {
        Some(j) => j,
        None => {
            return None;
        },
    };
    match find_char(&v, '.', d3 + 1, n) {
        Some(_) => {
            return None;
        },
        None => {},
    }
    let o1 = match parse_octet_exec(&v, 0, d1) {
        Some(o) => o,
        None => {
            return None;
        },
    };
    let o2 = match parse_octet_exec(&v, d1 + 1, d2) {
        Some(o) => o,
        None => {
            return None;
        },
    };
    let o3 = match parse_octet_exec(&v, d2 + 1, d3) {
        Some(o) => o,
        None => {
            return None;
        },
    };
    let o4 = match parse_octet_exec(&v, d3 + 1, n) {
        Some(o) => o,
        None => {
            return None;
        },
    };
    Some((o1, o2, o3, o4))
}

/// The images of parsed groups.
pub open spec fn groups_view(g: Vec<u16>) -> Seq<int> {
    Seq::new(g@.len(), |i: int| g@[i] as int)
}

/// Parses one IPv6 group over `[start, end)` of `v`.
#[verifier::rlimit(60)]
fn parse_group_exec(v: &Vec<char>, start: usize, end: usize) -> (r: Option<u16>)
    requires
        start <= end <= v@.len(),
    ensures
        match r {
            Some(g) => spec_parse_group(v@, start as int, end as int) == Some(g as int),
            None => spec_parse_group(v@, start as int, end as int) is None,
        },
{
    let len = end - start;
    if len < 1 || len > 4 {
        return None;
    }
    let mut k: usize = start;
    while k < end
        invariant
            start <= k <= end <= v@.len(),
            forall|j: int| start <= j < k ==> is_hex(#[trigger] v@[j]),
        decreases end - k,
    {
        if !hex_check(v[k]) {
            assert(!is_hex(v@[k as int]));
            return None;
        }
        k = k + 1;
    }
    proof {
        reveal_with_fuel(hex_val, 5);
    }
    let val: u32 = if len == 1 {
        hexv(v[start])
    } else if len == 2 {
        hexv(v[start]) * 16 + hexv(v[start + 1])
    } else if len == 3 {
        (hexv(v[start]) * 16 + hexv(v[start + 1])) * 16 + hexv(v[start + 2])
    } else {
        ((hexv(v[start]) * 16 + hexv(v[start + 1])) * 16 + hexv(v[start + 2])) * 16 + hexv(
            v[start + 3],
        )
    };
    proof {
        assert(val as int == hex_val(v@, start as int, end as int));
    }
    Some(val as u16)
}

/// Parses the colon-separated groups of `[start, end)` of `v`.
fn parse_groups_exec(v: &Vec<char>, start: usize, end: usize) -> (r: Option<Vec<u16>>)
    requires
        start <= end <= v@.len(),
    ensures
        match r {
            Some(g) => spec_groups(v@, start as int, end as int) == Some(groups_view(g)),
            None => spec_groups(v@, start as int, end as int) is None,
        },
    decreases end - start,
{
    match find_char(v, ':', start, end) {
        None => {
            match parse_group_exec(v, start, end) {
                Some(g) => {
                    let mut out: Vec<u16> = Vec::new();
                    out.push(g);
                    proof {
                        assert(groups_view(out) =~= seq![g as int]);
                    }
                    Some(out)
                },
                None => None,
            }
        },
        Some(j) => {
            let g = match parse_group_exec(v, start, j) {
                Some(g) => g,
                None => {
                    return None;
                },
            };
            let mut rest = match parse_groups_exec(v, j + 1, end) {
                Some(rest) => rest,
                None => {
                    return None;
                },
            };
            let ghost rest0 = rest@;
            let ghost grest = groups_view(rest);
            let mut out: Vec<u16> = Vec::new();
            out.push(g);
            out.append(&mut rest);
            proof {
                assert(out@ =~= seq![g] + rest0);
                assert(groups_view(out) =~= seq![g as int] + grest);
            }
            Some(out)
        },
    }
}

/// Parses an eight-group IPv6 address.
pub fn parse_ipv6(s: &str) -> (r: Option<(u64, u64)>)
    ensures
        r == spec_parse_ipv6(s@),
{
    let v = match ascii_chars_of(s) {
        Some(v) => v,
        None => {
            return None;
        },
    };
    let n = v.len();
    let gs = match parse_groups_exec(&v, 0, n) {
        Some(gs) => gs,
        None => {
            return None;
        },
    };
    if gs.len() != 8 {
        return None;
    }
    let hi = ((gs[0] as u64 * 65536 + gs[1] as u64) * 65536 + gs[2] as u64) * 65536 + gs[3] as u64;
    let lo = ((gs[4] as u64 * 65536 + gs[5] as u64) * 65536 + gs[6] as u64) * 65536 + gs[7] as u64;
    Some((hi, lo))
}

/// Parses an `ip` extension argument: IPv4 first, IPv6 second.
pub fn parse_ip(s: &str) -> (r: Option<ExtValue>)
    ensures
        match r {
            Some(e) => spec_parse_ip(s@) == Some(e@),
            None => spec_parse_ip(s@) is None,
        },
{
    match parse_ipv4(s) {
        Some((a, b, c, d)) => Some(ExtValue::Ipv4(a, b, c, d)),
        None => match parse_ipv6(s) {
            Some((hi, lo)) => Some(ExtValue::Ipv6(hi, lo)),
            None => None,
        },
    }
}

/// Parses the digits of `[start, end)` of `v` into their number.
fn digits_value(v: &Vec<char>, start: usize, end: usize) -> (r: Option<i64>)
    requires
        start <= end <= v@.len(),
        end - start <= 14,
    ensures
        match r {
            Some(x) => digits_ok(v@, start as int, end as int) && x as int == digits_val(
                v@,
                start as int,
                end as int,
            ),
            None => !digits_ok(v@, start as int, end as int),
        },
{
    if start >= end {
        return None;
    }
    let mut acc: i64 = 0;
    let mut i: usize = start;
    while i < end
        invariant
            start <= i <= end <= v@.len(),
            end - start <= 14,
            forall|k: int| start <= k < i ==> is_digit(#[trigger] v@[k]),
            acc as int == digits_val(v@, start as int, i as int),
            0 <= acc as int <= pow10((i - start) as nat) - 1,
        decreases end - i,
    {
        let c = v[i];
        if !digit_check(c) {
            assert(!is_digit(v@[i as int]));
            return None;
        }
        proof {
            lemma_pow10_mono((i - start + 1) as nat, 14);
            reveal_with_fuel(pow10, 15);
            assert(pow10(14) == 100000000000000);
            assert(pow10((i - start + 1) as nat) == 10 * pow10((i - start) as nat));
        }
        let d = digitv(c);
        acc = acc * 10 + (d as i64);
        i = i + 1;
    }
    proof {
        assert(digits_ok(v@, start as int, end as int));
    }
    Some(acc)
}

/// Parses a decimal string into its value scaled by ten thousand.
pub fn parse_decimal(s: &str) -> (r: Option<i64>)
    ensures
        r == spec_parse_decimal(s@),
{
    let v = match ascii_chars_of(s) {
        Some(v) => v,
        None => {
            return None;
        },
    };
    let n = v.len();
    let neg = n > 0 && v[0] == '-';
    let i0: usize = if neg {
        1
    } else {
        0
    };
    let dot = match find_char(&v, '.', 0, n) {
        Some(j) => j,
        None => {
            return None;
        },
    };
    match find_char(&v, '.', dot + 1, n) {
        Some(_) => {
            return None;
        },
        None => {},
    }
    if !(i0 < dot) {
        return None;
    }
    if dot - i0 > 14 {
        proof {
            assert(spec_parse_decimal(s@) is None);
        }
        return None;
    }
    let iv = match digits_value(&v, i0, dot) {
        Some(x) => x,
        None => {
            return None;
        },
    };
    if dot - i0 > 1 && v[i0] == '0' {
        return None;
    }
    if !(dot + 1 < n) {
        return None;
    }
    let fl = n - dot - 1;
    if fl > 4 {
        return None;
    }
    let fv = match digits_value(&v, dot + 1, n) {
        Some(x) => x,
        None => {
            return None;
        },
    };
    let scale: i64 = if fl == 1 {
        1000
    } else if fl == 2 {
        100
    } else if fl == 3 {
        10
    } else {
        1
    };
    proof {
        reveal_with_fuel(pow10, 15);
        assert(scale as int == pow10((4 - (n - dot - 1)) as nat));
        lemma_digits_val_bound(v@, i0 as int, dot as int);
        lemma_digits_val_bound(v@, dot as int + 1, n as int);
        lemma_pow10_mono((dot - i0) as nat, 14);
        lemma_pow10_mono((n - dot - 1) as nat, 4);
    }
    let mag = iv * 10000 + fv * scale;
    if neg {
        Some(-mag)
    } else {
        Some(mag)
    }
}

} // verus!
