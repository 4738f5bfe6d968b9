//! Minimal, proved parsing of an HTTP/1.1 response head: locating the end
//! of the head, reading the status code out of the status line, and
//! recognising a `Content-Encoding: gzip` header. The connection
//! controller needs exactly these three facts; everything else about the
//! response stays with the transport.

use vstd::prelude::*;

verus! {

/// The position of the first occurrence of `b` at or after `from`.
pub open spec fn find_byte(s: Seq<u8>, b: u8, from: int) -> Option<int>
    decreases s.len() - from,
{
    if from < 0 || from >= s.len() {
        Option::None
    } else if s[from] == b {
        Option::Some(from)
    } else {
        find_byte(s, b, from + 1)
    }
}

/// Finds the first occurrence of `b` at or after `from`.
pub fn find_byte_exec(s: &[u8], b: u8, from: usize) -> (r: Option<usize>)
    ensures
        r matches Some(z) ==> from <= z < s@.len() && find_byte(s@, b, from as int)
            == Option::Some(z as int),
        r is None ==> find_byte(s@, b, from as int) is None,
{
    let mut i: usize = from;
    if i >= s.len() {
        return None;
    }
    while i < s.len()
        invariant
            from <= i <= s.len(),
            find_byte(s@, b, from as int) == find_byte(s@, b, i as int),
        decreases s.len() - i,
    {
        if s[i] == b {
            return Some(i);
        }
        i = i + 1;
    }
    None
}

/// The position just past the first `CRLF CRLF` at or after `from`, which
/// ends an HTTP head.
pub open spec fn head_end_from(s: Seq<u8>, from: int) -> Option<int>
    decreases s.len() - from,
{
    if from < 0 || from + 4 > s.len() {
        Option::None
    } else if s[from] == 13 && s[from + 1] == 10 && s[from + 2] == 13 && s[from + 3] == 10 {
        Option::Some(from + 4)
    } else {
        head_end_from(s, from + 1)
    }
}

/// The position just past the blank line that ends the head, if the whole
/// head has arrived.
pub open spec fn head_end_of(s: Seq<u8>) -> Option<int> {
    head_end_from(s, 0)
}

/// Finds the end of the head in the bytes received so far.
pub fn find_head_end(s: &[u8]) -> (r: Option<usize>)
    ensures
        r matches Some(n) ==> 4 <= n <= s@.len() && head_end_of(s@) == Option::Some(n as int),
        r is None ==> head_end_of(s@) is None,
{
    if s.len() < 4 {
        return None;
    }
    let mut i: usize = 0;
    while i <= s.len() - 4
        invariant
            s@.len() >= 4,
            i <= s.len() - 3,
            head_end_from(s@, 0) == head_end_from(s@, i as int),
        decreases s.len() - i,
    {
        if s[i] == 13 && s[i + 1] == 10 && s[i + 2] == 13 && s[i + 3] == 10 {
            return Some(i + 4);
        }
        i = i + 1;
    }
    None
}

/// An ASCII decimal digit.
pub open spec fn is_digit(b: u8) -> bool {
    0x30 <= b <= 0x39
}

/// The status code of an HTTP status line: the three digits after the
/// first space, which must be followed by a space or the end of the line.
pub open spec fn status_of_line(line: Seq<u8>) -> Option<u16> {
    match find_byte(line, 0x20, 0) {
        Option::None => Option::None,
        Option::Some(sp) => {
            if sp + 4 <= line.len() && is_digit(line[sp + 1]) && is_digit(line[sp + 2]) && is_digit(
                line[sp + 3],
            ) && (sp + 4 == line.len() || line[sp + 4] == 0x20) {
                Option::Some(
                    (100 * (line[sp + 1] - 0x30) + 10 * (line[sp + 2] - 0x30) + (line[sp + 3]
                        - 0x30)) as u16,
                )
            } else {
                Option::None
            }
        },
    }
}

/// Reads the status code out of a status line.
pub fn parse_status_line(line: &[u8]) -> (r: Option<u16>)
    ensures
        r == status_of_line(line@),
{
    match find_byte_exec(line, 0x20, 0) {
        None => None,
        Some(sp) => {
            if line.len() >= 4 && sp <= line.len() - 4 {
                let d1 = line[sp + 1];
                let d2 = line[sp + 2];
                let d3 = line[sp + 3];
                if d1 >= 0x30 && d1 <= 0x39 && d2 >= 0x30 && d2 <= 0x39 && d3 >= 0x30 && d3 <= 0x39
                    && (sp + 4 == line.len() || line[sp + 4] == 0x20) {
                    Some(100 * ((d1 - 0x30) as u16) + 10 * ((d2 - 0x30) as u16) + ((d3
                        - 0x30) as u16))
                } else {
                    None
                }
            } else {
                None
            }
        },
    }
}

/// Linear whitespace inside a header line: space and horizontal tab.
pub open spec fn is_lws(b: u8) -> bool {
    b == 0x20 || b == 0x09
}

/// The first index at or after `i` holding something besides whitespace.
pub open spec fn skip_lws_front(s: Seq<u8>, i: int) -> int
    decreases s.len() - i,
{
    if 0 <= i < s.len() && is_lws(s[i]) {
        skip_lws_front(s, i + 1)
    } else {
        i
    }
}

/// The index just past the last non-whitespace byte before `j`.
pub open spec fn skip_lws_back(s: Seq<u8>, j: int) -> int
    decreases j,
{
    if 0 < j <= s.len() && is_lws(s[j - 1]) {
        skip_lws_back(s, j - 1)
    } else {
        j
    }
}

/// The line with leading and trailing whitespace removed.
pub open spec fn trimmed(s: Seq<u8>) -> Seq<u8> {
    let a = skip_lws_front(s, 0);
    let b = skip_lws_back(s, s.len() as int);
    if a <= b {
        s.subrange(a, b)
    } else {
        Seq::empty()
    }
}

/// The byte lowered to its ASCII lowercase form.
pub open spec fn lower_byte(b: u8) -> u8 {
    if 0x41 <= b <= 0x5a {
        (b + 0x20) as u8
    } else {
        b
    }
}

/// The bytes of the header name `content-encoding`.
pub open spec fn content_encoding_name() -> Seq<u8> {
    seq![
        0x63u8,
        0x6f,
        0x6e,
        0x74,
        0x65,
        0x6e,
        0x74,
        0x2d,
        0x65,
        0x6e,
        0x63,
        0x6f,
        0x64,
        0x69,
        0x6e,
        0x67,
    ]
}

/// The bytes of the token `gzip`.
pub open spec fn gzip_token() -> Seq<u8> {
    seq![0x67u8, 0x7a, 0x69, 0x70]
}

/// A header line that declares gzip content encoding: a colon, a name
/// that case-insensitively reads `content-encoding`, and a value that is
/// exactly `gzip` once surrounding whitespace is dropped.
pub open spec fn is_gzip_header_line(line: Seq<u8>) -> bool {
    match find_byte(line, 0x3a, 0) {
        Option::None => false,
        Option::Some(c) => {
            &&& line.take(c).map(|i: int, b: u8| lower_byte(b)) == content_encoding_name()
            &&& trimmed(line.skip(c + 1)) == gzip_token()
        },
    }
}

/// The expected header-name bytes, as runtime data.
fn content_encoding_name_vec() -> (v: Vec<u8>)
    ensures
        v@ == content_encoding_name(),
{
    let mut v: Vec<u8> = Vec::new();
    v.push(0x63);
    v.push(0x6f);
    v.push(0x6e);
    v.push(0x74);
    v.push(0x65);
    v.push(0x6e);
    v.push(0x74);
    v.push(0x2d);
    v.push(0x65);
    v.push(0x6e);
    v.push(0x63);
    v.push(0x6f);
    v.push(0x64);
    v.push(0x69);
    v.push(0x6e);
    v.push(0x67);
    proof {
        assert(v@ =~= content_encoding_name());
    }
    v
}

/// Decides whether two byte strings are equal.
fn bytes_eq(a: &[u8], b: &[u8]) -> (r: bool)
    ensures
        r == (a@ == b@),
{
    if a.len() != b.len() {
        return false;
    }
    let mut i: usize = 0;
    while i < a.len()
        invariant
            i <= a.len(),
            a@.len() == b@.len(),
            forall|j: int| 0 <= j < i ==> a@[j] == #[trigger] b@[j],
        decreases a.len() - i,
    {
        if a[i] != b[i] {
            return false;
        }
        i = i + 1;
    }
    proof {
        assert(a@ =~= b@);
    }
    true
}

/// Trims linear whitespace off both ends of a line.
fn trim_lws(s: &[u8]) -> (r: Vec<u8>)
    ensures
        r@ == trimmed(s@),
{
    let mut a: usize = 0;
    while a < s.len() && (s[a] == 0x20 || s[a] == 0x09)
        invariant
            a <= s.len(),
            skip_lws_front(s@, 0) == skip_lws_front(s@, a as int),
        decreases s.len() - a,
    {
        a = a + 1;
    }
    let mut b: usize = s.len();
    while b > 0 && (s[b - 1] == 0x20 || s[b - 1] == 0x09)
        invariant
            b <= s.len(),
            skip_lws_back(s@, s@.len() as int) == skip_lws_back(s@, b as int),
        decreases b,
    {
        b = b - 1;
    }
    let mut out: Vec<u8> = Vec::new();
    if a >= b {
        proof {
            assert(out@ =~= trimmed(s@));
        }
        return out;
    }
    let mut i: usize = a;
    while i < b
        invariant
            a <= i <= b <= s@.len(),
            out@ == s@.subrange(a as int, i as int),
        decreases b - i,
    {
        out.push(s[i]);
        proof {
            assert(out@ =~= s@.subrange(a as int, i + 1));
        }
        i = i + 1;
    }
    proof {
        assert(out@ =~= trimmed(s@));
    }
    out
}

/// Decides whether one header line declares gzip content encoding.
pub fn line_declares_gzip(line: &[u8]) -> (r: bool)
    ensures
        r == is_gzip_header_line(line@),
{
    match find_byte_exec(line, 0x3a, 0) {
        None => false,
        Some(c) => {
            let ghost colon: int = c as int;
            let mut name: Vec<u8> = Vec::new();
            let mut i: usize = 0;
            while i < c
                invariant
                    colon == c as int,
                    i <= c,
                    c < line@.len(),
                    name@ == line@.take(colon).map(|k: int, b: u8| lower_byte(b)).take(i as int),
                decreases c - i,
            {
                let raw = line[i];
                let lowered: u8 = if raw >= 0x41 && raw <= 0x5a {
                    raw + 0x20
                } else {
                    raw
                };
                name.push(lowered);
                proof {
                    let mapped = line@.take(colon).map(|k: int, b: u8| lower_byte(b));
                    assert(line@.take(colon)[i as int] == line@[i as int]);
                    assert(mapped[i as int] == lower_byte(line@[i as int]));
                    assert(mapped.take(i + 1) =~= mapped.take(i as int).push(mapped[i as int]));
                    assert(name@ =~= mapped.take(i + 1));
                }
                i = i + 1;
            }
            proof {
                let mapped = line@.take(colon).map(|k: int, b: u8| lower_byte(b));
                assert(mapped.take(mapped.len() as int) =~= mapped);
            }
            let expected = content_encoding_name_vec();
            if !bytes_eq(name.as_slice(), expected.as_slice()) {
                return false;
            }
            let value_raw: &[u8] = vstd::slice::slice_subrange(line, c + 1, line.len());
            proof {
                assert(value_raw@ =~= line@.skip(colon + 1));
            }
            let value = trim_lws(value_raw);
            let mut gz: Vec<u8> = Vec::new();
            gz.push(0x67);
            gz.push(0x7a);
            gz.push(0x69);
            gz.push(0x70);
            proof {
                assert(gz@ =~= gzip_token());
            }
            bytes_eq(value.as_slice(), gz.as_slice())
        },
    }
}

/// Decides whether any of the head's header lines declares gzip content
/// encoding, as the controller's routing decision requires.
pub fn head_declares_gzip(lines: &Vec<Vec<u8>>) -> (r: bool)
    ensures
        r == exists|i: int|
            0 <= i < lines.deep_view().len() && is_gzip_header_line(
                #[trigger] lines.deep_view()[i],
            ),
{
    let mut i: usize = 0;
    while i < lines.len()
        invariant
            i <= lines.len(),
            forall|j: int| 0 <= j < i ==> !is_gzip_header_line(#[trigger] lines.deep_view()[j]),
        decreases lines.len() - i,
    {
        proof {
            assert(lines.deep_view()[i as int] == lines@[i as int]@);
        }
        if line_declares_gzip(lines[i].as_slice()) {
            return true;
        }
        i = i + 1;
    }
    false
}

} // verus!
