//! Character-level utilities: ASCII views of strings and the lexicographic
//! order used to compare string values.

use vstd::prelude::*;
use vstd::string::StringSliceAdditionalSpecFns;

verus! {

broadcast use {vstd::string::is_ascii_spec_bytes, vstd::utf8::is_ascii_chars_encode_utf8};

/// The characters of an ASCII string, or `None` when the string holds a
/// character outside ASCII.
pub fn ascii_chars_of(s: &str) -> (r: Option<Vec<char>>)
    ensures
        match r {
            Some(v) => vstd::utf8::is_ascii_chars(s@) && v@ == s@,
            None => !vstd::utf8::is_ascii_chars(s@),
        },
{
    if !s.is_ascii() {
        return None;
    }
    let b = s.as_bytes();
    let n = b.len();
    let mut out: Vec<char> = Vec::new();
    let mut i: usize = 0;
    while i < n
        invariant
            vstd::utf8::is_ascii_chars(s@),
            b@ == s.spec_bytes(),
            n == b@.len(),
            n == s@.len(),
            0 <= i <= n,
            out@.len() == i,
            forall|j: int| 0 <= j < i ==> out@[j] == s@[j],
        decreases n - i,
    {
        let c = b[i] as char;
        proof {
            assert(b@[i as int] == s@[i as int] as u8);
            assert('\0' <= s@[i as int] <= '\u{7f}');
        }
        out.push(c);
        i = i + 1;
    }
    proof {
        assert(out@ =~= s@);
    }
    Some(out)
}

/// The first index in `[i, end)` holding `c`, or `-1`.
pub open spec fn find_in_range(s: Seq<char>, c: char, i: int, end: int) -> int
    decreases end - i,
{
    if i < 0 || i >= end || end > s.len() {
        -1
    } else if s[i] == c {
        i
    } else {
        find_in_range(s, c, i + 1, end)
    }
}

/// Whether `c` can start an identifier: a letter or an underscore.
pub open spec fn is_ident_start(c: char) -> bool {
    ('a' <= c && c <= 'z') || ('A' <= c && c <= 'Z') || c == '_'
}

/// Whether `c` can continue an identifier: a letter, a digit or an
/// underscore.
pub open spec fn is_ident_char(c: char) -> bool {
    is_ident_start(c) || ('0' <= c && c <= '9')
}

/// Whether `c` may appear in the quoted id of an entity identity: any
/// character but the quote and the backslash (escapes are not supported).
pub open spec fn is_id_char(c: char) -> bool {
    c != '"' && c != '\\'
}

/// Continues a type path after its first character: identifier characters,
/// with `::` joints each followed by a fresh identifier.
pub open spec fn path_rest_ok(s: Seq<char>, i: int, end: int) -> bool
    decreases end - i,
{
    if i >= end {
        true
    } else if is_ident_char(s[i]) {
        path_rest_ok(s, i + 1, end)
    } else if s[i] == ':' {
        i + 2 < end && s[i + 1] == ':' && is_ident_start(s[i + 2]) && path_rest_ok(s, i + 3, end)
    } else {
        false
    }
}

/// A type path: identifiers joined by `::`, as in `App::User`.
pub open spec fn type_path_ok(s: Seq<char>, i: int, end: int) -> bool {
    i < end && is_ident_start(s[i]) && path_rest_ok(s, i + 1, end)
}

/// Whether every character of `[i, end)` may appear in a quoted id.
pub open spec fn id_ok(s: Seq<char>, i: int, end: int) -> bool {
    forall|k: int| i <= k < end ==> is_id_char(#[trigger] s[k])
}

/// The grammar of an entity identity string: ASCII text of the shape
/// `Type::"id"`, where `Type` is a type path and the quoted id holds no
/// quote and no backslash. Yields the two parts, or `None` when the text is
/// not of that shape.
pub open spec fn spec_parse_uid(s: Seq<char>) -> Option<crate::entity::SpecUid> {
    let n = s.len() as int;
    let q = find_in_range(s, '"', 0, n);
    if !vstd::utf8::is_ascii_chars(s) {
        None
    } else if q < 3 {
        None
    } else if s[q - 2] != ':' || s[q - 1] != ':' {
        None
    } else if q >= n - 1 {
        None
    } else if s[n - 1] != '"' {
        None
    } else if !type_path_ok(s, 0, q - 2) {
        None
    } else if !id_ok(s, q + 1, n - 1) {
        None
    } else {
        Some(
            crate::entity::SpecUid { etype: s.subrange(0, q - 2), id: s.subrange(q + 1, n - 1) },
        )
    }
}

/// Whether `c` can start an identifier.
pub fn ident_start(c: char) -> (r: bool)
    ensures
        r == is_ident_start(c),
{
    ('a' <= c && c <= 'z') || ('A' <= c && c <= 'Z') || c == '_'
}

/// Whether `c` can continue an identifier.
pub fn ident_char(c: char) -> (r: bool)
    ensures
        r == is_ident_char(c),
{
    ident_start(c) || ('0' <= c && c <= '9')
}

/// The first index in `[from, end)` of `v` holding `c`, if any.
pub fn find_char(v: &Vec<char>, c: char, from: usize, end: usize) -> (r: Option<usize>)
    requires
        from <= end <= v@.len(),
    ensures
        match r {
            Some(j) => from <= j < end && find_in_range(v@, c, from as int, end as int) == j,
            None => find_in_range(v@, c, from as int, end as int) == -1,
        },
{
    let mut i: usize = from;
    while i < end
        invariant
            from <= i <= end <= v@.len(),
            find_in_range(v@, c, from as int, end as int) == find_in_range(
                v@,
                c,
                i as int,
                end as int,
            ),
        decreases end - i,
    {
        if v[i] == c {
            return Some(i);
        }
        i = i + 1;
    }
    None
}

/// Checks a type path over `[start, end)` of `v`.
fn type_path_check(v: &Vec<char>, start: usize, end: usize) -> (r: bool)
    requires
        start <= end <= v@.len(),
    ensures
        r == type_path_ok(v@, start as int, end as int),
{
    if start >= end {
        return false;
    }
    if !ident_start(v[start]) {
        return false;
    }
    let mut i: usize = start + 1;
    while i < end
        invariant
            start + 1 <= i <= end <= v@.len(),
            path_rest_ok(v@, start as int + 1, end as int) == path_rest_ok(
                v@,
                i as int,
                end as int,
            ),
        decreases end - i,
    {
        let c = v[i];
        if ident_char(c) {
            i = i + 1;
        } else if c == ':' {
            if end - i <= 2 {
                return false;
            }
            if v[i + 1] != ':' {
                return false;
            }
            if !ident_start(v[i + 2]) {
                return false;
            }
            i = i + 3;
        } else {
            return false;
        }
    }
    true
}

/// Checks the quoted-id characters over `[start, end)` of `v`.
fn id_check(v: &Vec<char>, start: usize, end: usize) -> (r: bool)
    requires
        start <= end <= v@.len(),
    ensures
        r == id_ok(v@, start as int, end as int),
{
    let mut i: usize = start;
    while i < end
        invariant
            start <= i <= end <= v@.len(),
            forall|k: int| start <= k < i ==> is_id_char(#[trigger] v@[k]),
        decreases end - i,
    {
        let c = v[i];
        if c == '"' || c == '\\' {
            return false;
        }
        i = i + 1;
    }
    true
}

/// Every index of an ASCII string is a character boundary of its UTF-8
/// encoding.
pub proof fn lemma_ascii_boundary(s: Seq<char>, mid: int)
    requires
        vstd::utf8::is_ascii_chars(s),
        0 <= mid <= s.len(),
    ensures
        vstd::utf8::is_char_boundary(vstd::utf8::encode_utf8(s), mid),
{
    let bytes = vstd::utf8::encode_utf8(s);
    vstd::utf8::encode_utf8_valid_utf8(s);
    vstd::utf8::is_ascii_chars_encode_utf8(s);
    if mid == bytes.len() {
        vstd::utf8::is_char_boundary_start_end_of_seq(bytes);
    } else if mid == 0 {
    } else {
        vstd::utf8::is_char_boundary_iff_not_is_continuation_byte(bytes, mid);
        assert(bytes[mid] == s[mid] as u8);
        assert(s[mid] <= '\u{7f}');
        assert(s[mid] as u8 <= 0x7f);
        assert(!vstd::utf8::is_continuation_byte(bytes[mid]));
    }
}

/// A piece of an ASCII string whose bytes are a slice of the original's
/// bytes has the matching slice of characters.
pub proof fn lemma_ascii_piece(orig: Seq<char>, piece: &str, a: int, b: int)
    requires
        vstd::utf8::is_ascii_chars(orig),
        0 <= a <= b <= orig.len(),
        piece.spec_bytes() == vstd::utf8::encode_utf8(orig).subrange(a, b),
    ensures
        piece@ == orig.subrange(a, b),
        vstd::utf8::is_ascii_chars(piece@),
{
    let sub = orig.subrange(a, b);
    assert(vstd::utf8::is_ascii_chars(sub));
    vstd::utf8::is_ascii_chars_encode_utf8(orig);
    vstd::utf8::is_ascii_chars_encode_utf8(sub);
    assert(vstd::utf8::encode_utf8(sub) =~= vstd::utf8::encode_utf8(orig).subrange(a, b));
    vstd::utf8::encode_utf8_decode_utf8(piece@);
    vstd::utf8::encode_utf8_decode_utf8(sub);
    assert(vstd::utf8::encode_utf8(piece@) == vstd::utf8::encode_utf8(sub));
    assert(piece@ == sub);
}

/// Parses an entity identity string of the shape `Type::"id"`.
pub fn parse_entity_uid(s: &str) -> (r: Option<crate::entity::EntityUID>)
    ensures
        match r {
            Some(u) => spec_parse_uid(s@) == Some(u@),
            None => spec_parse_uid(s@) is None,
        },
{
    let v = match ascii_chars_of(s) {
        Some(v) => v,
        None => {
            return None;
        },
    };
    let n = v.len();
    let q = match find_char(&v, '"', 0, n) {
        Some(q) => q,
        None => {
            return None;
        },
    };
    if q < 3 {
        return None;
    }
    if v[q - 2] != ':' || v[q - 1] != ':' {
        return None;
    }
    if q >= n - 1 {
        return None;
    }
    if v[n - 1] != '"' {
        return None;
    }
    if !type_path_check(&v, 0, q - 2) {
        return None;
    }
    if !id_check(&v, q + 1, n - 1) {
        return None;
    }
    proof {
        lemma_ascii_boundary(s@, q as int - 2);
    }
    let (tp, _) = s.split_at(q - 2);
    proof {
        lemma_ascii_piece(s@, tp, 0, q as int - 2);
        lemma_ascii_boundary(s@, q as int + 1);
    }
    let (_, tail) = s.split_at(q + 1);
    proof {
        lemma_ascii_piece(s@, tail, q as int + 1, n as int);
        lemma_ascii_boundary(tail@, tail@.len() - 1);
    }
    let tail_len = tail.len();
    let (idp, _) = tail.split_at(tail_len - 1);
    proof {
        lemma_ascii_piece(tail@, idp, 0, tail@.len() - 1);
        assert(tail@.subrange(0, tail@.len() - 1) =~= s@.subrange(q as int + 1, n as int - 1));
    }
    let etype = tp.to_owned();
    let id = idp.to_owned();
    Some(crate::entity::EntityUID { etype, id })
}

/// Strict lexicographic order on byte sequences.
pub open spec fn lex_lt_from(a: Seq<u8>, b: Seq<u8>, i: int) -> bool
    decreases a.len() - i,
{
    if i < 0 || i >= b.len() {
        false
    } else if i >= a.len() {
        true
    } else if a[i] == b[i] {
        lex_lt_from(a, b, i + 1)
    } else {
        a[i] < b[i]
    }
}

/// Strict lexicographic order of two strings, compared by their UTF-8
/// encodings byte for byte. On ASCII strings this is the familiar
/// character-by-character order.
pub open spec fn str_lt_spec(a: Seq<char>, b: Seq<char>) -> bool {
    lex_lt_from(vstd::utf8::encode_utf8(a), vstd::utf8::encode_utf8(b), 0)
}

/// Decides the lexicographic order of two strings.
pub fn str_lt(a: &str, b: &str) -> (r: bool)
    ensures
        r == str_lt_spec(a@, b@),
{
    let ba = a.as_bytes();
    let bb = b.as_bytes();
    let na = ba.len();
    let nb = bb.len();
    let mut i: usize = 0;
    loop
        invariant
            ba@ == vstd::utf8::encode_utf8(a@),
            bb@ == vstd::utf8::encode_utf8(b@),
            na == ba@.len(),
            nb == bb@.len(),
            0 <= i,
            i <= na,
            i <= nb,
            lex_lt_from(ba@, bb@, 0) == lex_lt_from(ba@, bb@, i as int),
        decreases na - i,
    {
        if i >= nb {
            return false;
        }
        if i >= na {
            return true;
        }
        let x = ba[i];
        let y = bb[i];
        if x == y {
            i = i + 1;
        } else {
            return x < y;
        }
    }
}

} // verus!
