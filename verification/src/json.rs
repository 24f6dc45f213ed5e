//! The request and response texts of the service: a parser for the JSON
//! request body and the rendering of the JSON response and error bodies. The
//! request schema is strict by design: the body must be one object with
//! exactly one member, the string `password` — a second member, whatever its
//! name, is rejected as invalid rather than skipped. Everything works on
//! bytes; escape sequences in the request string (including `\uXXXX` and
//! surrogate pairs) decode to the UTF-8 bytes they denote.

use vstd::prelude::*;

verus! {

/// How a request body fails to yield a password.
#[derive(Clone, Copy, Debug, PartialEq, Eq, Structural)]
pub enum ReqError {
    /// The body is not an object of the shape the endpoint accepts.
    InvalidJson,
    /// The body is an object without the `password` member.
    MissingField,
    /// The `password` member is present but its value is not a string.
    WrongType,
}

/// JSON insignificant whitespace.
pub open spec fn is_ws(b: u8) -> bool {
    b == 0x20 || b == 0x09 || b == 0x0a || b == 0x0d
}

/// The first position at or after `i` holding no whitespace.
pub open spec fn spec_skip_ws(s: Seq<u8>, i: int) -> int
    decreases s.len() - i,
{
    if 0 <= i < s.len() && is_ws(s[i]) {
        spec_skip_ws(s, i + 1)
    } else {
        i
    }
}

pub open spec fn is_hex_digit(b: u8) -> bool {
    (0x30 <= b <= 0x39) || (0x41 <= b <= 0x46) || (0x61 <= b <= 0x66)
}

/// The value of a hex digit (meaningful only when `is_hex_digit(b)`).
pub open spec fn spec_hex_val(b: u8) -> int {
    if 0x30 <= b <= 0x39 {
        b - 0x30
    } else if 0x41 <= b <= 0x46 {
        b - 0x37
    } else {
        b - 0x57
    }
}

/// Whether four hex digits stand at `i`.
pub open spec fn spec_hex4_ok(s: Seq<u8>, i: int) -> bool {
    i + 4 <= s.len() && is_hex_digit(s[i]) && is_hex_digit(s[i + 1]) && is_hex_digit(s[i + 2])
        && is_hex_digit(s[i + 3])
}

/// The value of the four hex digits at `i`.
pub open spec fn spec_hex4(s: Seq<u8>, i: int) -> int {
    spec_hex_val(s[i]) * 0x1000 + spec_hex_val(s[i + 1]) * 0x100 + spec_hex_val(s[i + 2]) * 0x10
        + spec_hex_val(s[i + 3])
}

/// The UTF-8 encoding of the code point `c` (for `0 <= c < 0x110000`).
pub open spec fn spec_utf8_enc(c: int) -> Seq<u8> {
    if c < 0x80 {
        seq![c as u8]
    } else if c < 0x800 {
        seq![(0xc0 + c / 0x40) as u8, (0x80 + c % 0x40) as u8]
    } else if c < 0x10000 {
        seq![
            (0xe0 + c / 0x1000) as u8,
            (0x80 + (c / 0x40) % 0x40) as u8,
            (0x80 + c % 0x40) as u8,
        ]
    } else {
        seq![
            (0xf0 + c / 0x40000) as u8,
            (0x80 + (c / 0x1000) % 0x40) as u8,
            (0x80 + (c / 0x40) % 0x40) as u8,
            (0x80 + c % 0x40) as u8,
        ]
    }
}

/// The bytes an escape sequence denotes, `i` standing on the byte after the
/// backslash, and the position after the sequence. `None` where no valid
/// escape stands at `i` (a lone or misordered surrogate included).
pub open spec fn spec_escape(s: Seq<u8>, i: int) -> Option<(Seq<u8>, int)> {
    if i < 0 || i >= s.len() {
        None
    } else if s[i] == 0x22 {
        Some((seq![0x22u8], i + 1))
    } else if s[i] == 0x5c {
        Some((seq![0x5cu8], i + 1))
    } else if s[i] == 0x2f {
        Some((seq![0x2fu8], i + 1))
    } else if s[i] == 0x62 {
        Some((seq![0x08u8], i + 1))
    } else if s[i] == 0x66 {
        Some((seq![0x0cu8], i + 1))
    } else if s[i] == 0x6e {
        Some((seq![0x0au8], i + 1))
    } else if s[i] == 0x72 {
        Some((seq![0x0du8], i + 1))
    } else if s[i] == 0x74 {
        Some((seq![0x09u8], i + 1))
    } else if s[i] == 0x75 {
        if !spec_hex4_ok(s, i + 1) {
            None
        } else {
            let c1 = spec_hex4(s, i + 1);
            if 0xd800 <= c1 < 0xdc00 {
                if i + 7 <= s.len() && s[i + 5] == 0x5c && s[i + 6] == 0x75 && spec_hex4_ok(s, i + 7) {
                    let c2 = spec_hex4(s, i + 7);
                    if 0xdc00 <= c2 < 0xe000 {
                        Some((spec_utf8_enc(0x10000 + (c1 - 0xd800) * 0x400 + (c2 - 0xdc00)), i + 11))
                    } else {
                        None
                    }
                } else {
                    None
                }
            } else if 0xdc00 <= c1 < 0xe000 {
                None
            } else {
                Some((spec_utf8_enc(c1), i + 5))
            }
        }
    } else {
        None
    }
}

/// The decoded content of a JSON string whose opening quote stands just
/// before `i`, and the position after the closing quote. `None` where the
/// string is unterminated, holds an unescaped control byte, or holds a bad
/// escape.
pub open spec fn spec_str_body(s: Seq<u8>, i: int) -> Option<(Seq<u8>, int)>
    decreases s.len() - i,
{
    if i < 0 || i >= s.len() {
        None
    } else if s[i] == 0x22 {
        Some((Seq::empty(), i + 1))
    } else if s[i] == 0x5c {
        match spec_escape(s, i + 1) {
            None => None,
            Some((eb, j)) => if j <= i {
                None
            } else {
                match spec_str_body(s, j) {
                    None => None,
                    Some((rest, k)) => Some((eb + rest, k)),
                }
            },
        }
    } else if s[i] >= 0x20 {
        match spec_str_body(s, i + 1) {
            None => None,
            Some((rest, k)) => Some((seq![s[i]] + rest, k)),
        }
    } else {
        None
    }
}

/// The bytes of the member name `password`.
pub open spec fn spec_password_key() -> Seq<u8> {
    seq![0x70u8, 0x61, 0x73, 0x73, 0x77, 0x6f, 0x72, 0x64]
}

/// Why the part of a member after its name fails to parse.
#[derive(Clone, Copy, Debug, PartialEq, Eq, Structural)]
pub enum ValueIssue {
    /// The value does not start a string.
    NotAString,
    /// The colon, the value string or the close of the object is malformed.
    Malformed,
}

/// The rest of the one-member object after its member name, which ends at
/// `k`: a colon, a string value, the closing brace and the end of the input
/// (each side of any JSON whitespace). Yields the decoded value.
pub open spec fn spec_member_close(s: Seq<u8>, k: int) -> Result<Seq<u8>, ValueIssue> {
    let m = spec_skip_ws(s, k);
    if !(m < s.len() && s[m] == 0x3a) {
        Err(ValueIssue::Malformed)
    } else {
        let v = spec_skip_ws(s, m + 1);
        if !(v < s.len()) {
            Err(ValueIssue::Malformed)
        } else if s[v] != 0x22 {
            Err(ValueIssue::NotAString)
        } else {
            match spec_str_body(s, v + 1) {
                None => Err(ValueIssue::Malformed),
                Some((value, e)) => {
                    let f = spec_skip_ws(s, e);
                    if !(f < s.len() && s[f] == 0x7d) {
                        Err(ValueIssue::Malformed)
                    } else if spec_skip_ws(s, f + 1) == s.len() {
                        Ok(value)
                    } else {
                        Err(ValueIssue::Malformed)
                    }
                },
            }
        }
    }
}

/// What the request body yields under the endpoint's schema, which is strict
/// by design: the body must be exactly one JSON object with exactly one
/// member, `password`, holding a string (with any JSON whitespace around the
/// tokens). The password bytes come back, or the error that describes the
/// body: an empty object, or a well-formed one-member object named
/// otherwise, lacks the field; a `password` member whose value does not
/// start a string has the wrong type; everything else — a second member
/// included — is invalid.
pub open spec fn spec_parse_request(s: Seq<u8>) -> Result<Seq<u8>, ReqError> {
    let i = spec_skip_ws(s, 0);
    if !(i < s.len() && s[i] == 0x7b) {
        Err(ReqError::InvalidJson)
    } else {
        let j = spec_skip_ws(s, i + 1);
        if j < s.len() && s[j] == 0x7d {
            if spec_skip_ws(s, j + 1) == s.len() {
                Err(ReqError::MissingField)
            } else {
                Err(ReqError::InvalidJson)
            }
        } else if j < s.len() && s[j] == 0x22 {
            match spec_str_body(s, j + 1) {
                None => Err(ReqError::InvalidJson),
                Some((key, k)) => match spec_member_close(s, k) {
                    Ok(pw) => if key == spec_password_key() {
                        Ok(pw)
                    } else {
                        Err(ReqError::MissingField)
                    },
                    Err(ValueIssue::NotAString) => if key == spec_password_key() {
                        Err(ReqError::WrongType)
                    } else {
                        Err(ReqError::InvalidJson)
                    },
                    Err(ValueIssue::Malformed) => Err(ReqError::InvalidJson),
                },
            }
        } else {
            Err(ReqError::InvalidJson)
        }
    }
}

fn is_ws_byte(b: u8) -> (r: bool)
    ensures
        r == is_ws(b),
{
    b == 0x20 || b == 0x09 || b == 0x0a || b == 0x0d
}

fn skip_ws(s: &[u8], i: usize) -> (r: usize)
    requires
        i <= s@.len(),
    ensures
        i <= r <= s@.len(),
        r as int == spec_skip_ws(s@, i as int),
{
    let mut j: usize = i;
    while j < s.len() && is_ws_byte(s[j])
        invariant
            i <= j <= s@.len(),
            spec_skip_ws(s@, i as int) == spec_skip_ws(s@, j as int),
        decreases s@.len() - j,
    {
        j = j + 1;
    }
    j
}

fn is_hex_byte(b: u8) -> (r: bool)
    ensures
        r == is_hex_digit(b),
{
    (0x30 <= b && b <= 0x39) || (0x41 <= b && b <= 0x46) || (0x61 <= b && b <= 0x66)
}

fn hex_val_byte(b: u8) -> (r: u8)
    requires
        is_hex_digit(b),
    ensures
        r as int == spec_hex_val(b),
        r <= 15,
{
    if b <= 0x39 {
        b - 0x30
    } else if b <= 0x46 {
        b - 0x37
    } else {
        b - 0x57
    }
}

fn parse_hex4(s: &[u8], i: usize) -> (r: Option<u32>)
    requires
        i <= s@.len(),
    ensures
        match r {
            Some(c) => spec_hex4_ok(s@, i as int) && c as int == spec_hex4(s@, i as int) && c
                <= 0xffff,
            None => !spec_hex4_ok(s@, i as int),
        },
{
    if s.len() - i < 4 {
        return None;
    }
    let b0 = s[i];
    let b1 = s[i + 1];
    let b2 = s[i + 2];
    let b3 = s[i + 3];
    if !(is_hex_byte(b0) && is_hex_byte(b1) && is_hex_byte(b2) && is_hex_byte(b3)) {
        return None;
    }
    let c: u32 = (hex_val_byte(b0) as u32) * 0x1000 + (hex_val_byte(b1) as u32) * 0x100 + (
    hex_val_byte(b2) as u32) * 0x10 + (hex_val_byte(b3) as u32);
    Some(c)
}

fn utf8_enc(c: u32) -> (r: Vec<u8>)
    requires
        c < 0x110000,
    ensures
        r@ == spec_utf8_enc(c as int),
{
    let mut r: Vec<u8> = Vec::new();
    if c < 0x80 {
        r.push(c as u8);
    } else if c < 0x800 {
        r.push((0xc0 + c / 0x40) as u8);
        r.push((0x80 + c % 0x40) as u8);
    } else if c < 0x10000 {
        r.push((0xe0 + c / 0x1000) as u8);
        r.push((0x80 + (c / 0x40) % 0x40) as u8);
        r.push((0x80 + c % 0x40) as u8);
    } else {
        r.push((0xf0 + c / 0x40000) as u8);
        r.push((0x80 + (c / 0x1000) % 0x40) as u8);
        r.push((0x80 + (c / 0x40) % 0x40) as u8);
        r.push((0x80 + c % 0x40) as u8);
    }
    proof {
        assert(r@ =~= spec_utf8_enc(c as int));
    }
    r
}

fn parse_escape(s: &[u8], i: usize) -> (r: Option<(Vec<u8>, usize)>)
    requires
        i <= s@.len(),
    ensures
        match r {
            Some(p) => spec_escape(s@, i as int) == Some((p.0@, p.1 as int)) && i < p.1
                <= s@.len(),
            None => spec_escape(s@, i as int) is None,
        },
{
    if i >= s.len() {
        return None;
    }
    let b = s[i];
    if b == 0x22 || b == 0x5c || b == 0x2f {
        let v: Vec<u8> = vec![b];
        proof {
            assert(v@ =~= seq![b]);
        }
        return Some((v, i + 1));
    }
    if b == 0x62 {
        let v: Vec<u8> = vec![0x08u8];
        proof {
            assert(v@ =~= seq![0x08u8]);
        }
        return Some((v, i + 1));
    }
    if b == 0x66 {
        let v: Vec<u8> = vec![0x0cu8];
        proof {
            assert(v@ =~= seq![0x0cu8]);
        }
        return Some((v, i + 1));
    }
    if b == 0x6e {
        let v: Vec<u8> = vec![0x0au8];
        proof {
            assert(v@ =~= seq![0x0au8]);
        }
        return Some((v, i + 1));
    }
    if b == 0x72 {
        let v: Vec<u8> = vec![0x0du8];
        proof {
            assert(v@ =~= seq![0x0du8]);
        }
        return Some((v, i + 1));
    }
    if b == 0x74 {
        let v: Vec<u8> = vec![0x09u8];
        proof {
            assert(v@ =~= seq![0x09u8]);
        }
        return Some((v, i + 1));
    }
    if b != 0x75 {
        return None;
    }
    let c1 = match parse_hex4(s, i + 1) {
        None => {
            return None;
        },
        Some(c) => c,
    };
    if 0xd800 <= c1 && c1 < 0xdc00 {
        if s.len() - i < 7 {
            return None;
        }
        if !(s[i + 5] == 0x5c && s[i + 6] == 0x75) {
            return None;
        }
        let c2 = match parse_hex4(s, i + 7) {
            None => {
                return None;
            },
            Some(c) => c,
        };
        if !(0xdc00 <= c2 && c2 < 0xe000) {
            return None;
        }
        let cp: u32 = 0x10000 + (c1 - 0xd800) * 0x400 + (c2 - 0xdc00);
        let v = utf8_enc(cp);
        Some((v, i + 11))
    } else if 0xdc00 <= c1 && c1 < 0xe000 {
        None
    } else {
        let v = utf8_enc(c1);
        Some((v, i + 5))
    }
}

/// The invariant the string-content loop keeps: what remains to parse at `j`,
/// prefixed with what `acc` already holds, is what the whole string starting
/// at `start` yields.
spec fn str_body_continues(s: Seq<u8>, start: int, acc: Seq<u8>, j: int) -> bool {
    match spec_str_body(s, j) {
        None => spec_str_body(s, start) is None,
        Some((rest, k)) => spec_str_body(s, start) == Some((acc + rest, k)),
    }
}

fn parse_string(s: &[u8], i: usize) -> (r: Option<(Vec<u8>, usize)>)
    requires
        i < s@.len(),
        s@[i as int] == 0x22,
    ensures
        match r {
            Some(p) => spec_str_body(s@, i as int + 1) == Some((p.0@, p.1 as int)) && i + 1 < p.1
                <= s@.len(),
            None => spec_str_body(s@, i as int + 1) is None,
        },
{
    let ghost start: int = i as int + 1;
    let n = s.len();
    let mut acc: Vec<u8> = Vec::new();
    let mut j: usize = i + 1;
    loop
        invariant
            n == s@.len(),
            i as int + 1 <= j as int <= s@.len(),
            str_body_continues(s@, start, acc@, j as int),
            start == i as int + 1,
        decreases s@.len() - j,
    {
        if j == n {
            return None;
        }
        let b = s[j];
        if b == 0x22 {
            proof {
                assert(acc@ + Seq::<u8>::empty() =~= acc@);
            }
            return Some((acc, j + 1));
        } else if b == 0x5c {
            match parse_escape(s, j + 1) {
                None => {
                    return None;
                },
                Some(p) => {
                    let (eb, k) = p;
                    let ghost old_acc = acc@;
                    acc.extend_from_slice(eb.as_slice());
                    proof {
                        let jj = j as int;
                        assert(acc@ =~= old_acc + eb@);
                        assert(spec_escape(s@, jj + 1) == Some((eb@, k as int)));
                        if spec_str_body(s@, k as int) is Some {
                            let t = spec_str_body(s@, k as int)->Some_0;
                            assert(spec_str_body(s@, jj) == Some((eb@ + t.0, t.1)));
                            assert(spec_str_body(s@, start) == Some((old_acc + (eb@ + t.0), t.1)));
                            assert((old_acc + eb@) + t.0 =~= old_acc + (eb@ + t.0));
                        } else {
                            assert(spec_str_body(s@, jj) is None);
                            assert(spec_str_body(s@, start) is None);
                        }
                        assert(str_body_continues(s@, start, acc@, k as int));
                    }
                    j = k;
                },
            }
        } else if b >= 0x20 {
            let ghost old_acc = acc@;
            acc.push(b);
            proof {
                let jj = j as int;
                assert(acc@ =~= old_acc + seq![b]);
                if spec_str_body(s@, jj + 1) is Some {
                    let t = spec_str_body(s@, jj + 1)->Some_0;
                    assert(spec_str_body(s@, jj) == Some((seq![b] + t.0, t.1)));
                    assert(spec_str_body(s@, start) == Some((old_acc + (seq![b] + t.0), t.1)));
                    assert((old_acc + seq![b]) + t.0 =~= old_acc + (seq![b] + t.0));
                } else {
                    assert(spec_str_body(s@, jj) is None);
                    assert(spec_str_body(s@, start) is None);
                }
                assert(str_body_continues(s@, start, acc@, jj + 1));
            }
            j = j + 1;
        } else {
            return None;
        }
    }
}

fn is_password_key(key: &Vec<u8>) -> (r: bool)
    ensures
        r == (key@ == spec_password_key()),
{
    if key.len() != 8 {
        proof {
            assert(key@.len() != spec_password_key().len());
        }
        return false;
    }
    let r = key[0] == 0x70 && key[1] == 0x61 && key[2] == 0x73 && key[3] == 0x73 && key[4] == 0x77
        && key[5] == 0x6f && key[6] == 0x72 && key[7] == 0x64;
    proof {
        if r {
            assert(key@ =~= spec_password_key());
        }
    }
    r
}

fn parse_member_close(s: &[u8], k: usize) -> (r: Result<Vec<u8>, ValueIssue>)
    requires
        k <= s@.len(),
    ensures
        match r {
            Ok(value) => spec_member_close(s@, k as int) == Ok::<Seq<u8>, ValueIssue>(value@),
            Err(v) => spec_member_close(s@, k as int) == Err::<Seq<u8>, ValueIssue>(v),
        },
{
    let m = skip_ws(s, k);
    if !(m < s.len() && s[m] == 0x3a) {
        return Err(ValueIssue::Malformed);
    }
    let v = skip_ws(s, m + 1);
    if v >= s.len() {
        return Err(ValueIssue::Malformed);
    }
    if s[v] != 0x22 {
        return Err(ValueIssue::NotAString);
    }
    let (value, e) = match parse_string(s, v) {
        None => {
            return Err(ValueIssue::Malformed);
        },
        Some(p) => p,
    };
    let f = skip_ws(s, e);
    if !(f < s.len() && s[f] == 0x7d) {
        return Err(ValueIssue::Malformed);
    }
    let g = skip_ws(s, f + 1);
    if g != s.len() {
        return Err(ValueIssue::Malformed);
    }
    Ok(value)
}

/// Parses the request body and returns the password bytes, or the error the
/// body earns: exactly what `spec_parse_request` says of it.
pub fn parse_request(body: &[u8]) -> (r: Result<Vec<u8>, ReqError>)
    ensures
        match r {
            Ok(pw) => spec_parse_request(body@) == Ok::<Seq<u8>, ReqError>(pw@),
            Err(e) => spec_parse_request(body@) == Err::<Seq<u8>, ReqError>(e),
        },
{
    let i = skip_ws(body, 0);
    if !(i < body.len() && body[i] == 0x7b) {
        return Err(ReqError::InvalidJson);
    }
    let j = skip_ws(body, i + 1);
    if j < body.len() && body[j] == 0x7d {
        let k = skip_ws(body, j + 1);
        if k == body.len() {
            return Err(ReqError::MissingField);
        } else {
            return Err(ReqError::InvalidJson);
        }
    }
    if !(j < body.len() && body[j] == 0x22) {
        return Err(ReqError::InvalidJson);
    }
    let (key, k) = match parse_string(body, j) {
        None => {
            return Err(ReqError::InvalidJson);
        },
        Some(p) => p,
    };
    let is_pw = is_password_key(&key);
    match parse_member_close(body, k) {
        Ok(pw) => if is_pw {
            Ok(pw)
        } else {
            Err(ReqError::MissingField)
        },
        Err(ValueIssue::NotAString) => if is_pw {
            Err(ReqError::WrongType)
        } else {
            Err(ReqError::InvalidJson)
        },
        Err(ValueIssue::Malformed) => Err(ReqError::InvalidJson),
    }
}

/// The fixed opening of the response body, the bytes of
/// `{"encrypted_password":"`.
pub open spec fn spec_response_prefix() -> Seq<u8> {
    seq![
        0x7bu8, 0x22, 0x65, 0x6e, 0x63, 0x72, 0x79, 0x70,
        0x74, 0x65, 0x64, 0x5f, 0x70, 0x61, 0x73, 0x73,
        0x77, 0x6f, 0x72, 0x64, 0x22, 0x3a, 0x22,
    ]
}

/// The response body for the token `token`:
/// `{"encrypted_password":"<token>"}`.
pub open spec fn spec_render_response(token: Seq<u8>) -> Seq<u8> {
    spec_response_prefix() + token + seq![0x22u8, 0x7d]
}

pub fn render_response(token: &[u8]) -> (r: Vec<u8>)
    ensures
        r@ == spec_render_response(token@),
{
    let mut r: Vec<u8> = vec![
        0x7bu8, 0x22, 0x65, 0x6e, 0x63, 0x72, 0x79, 0x70,
        0x74, 0x65, 0x64, 0x5f, 0x70, 0x61, 0x73, 0x73,
        0x77, 0x6f, 0x72, 0x64, 0x22, 0x3a, 0x22,
    ];
    r.extend_from_slice(token);
    r.push(0x22);
    r.push(0x7d);
    proof {
        assert(r@ =~= spec_render_response(token@));
    }
    r
}

/// The error body for `e`, a one-member JSON object named `error` whose
/// value tells the caller what was wrong.
pub open spec fn spec_render_error(e: ReqError) -> Seq<u8> {
    match e {
        ReqError::InvalidJson => seq![
            0x7bu8, 0x22, 0x65, 0x72, 0x72, 0x6f, 0x72, 0x22,
            0x3a, 0x22, 0x69, 0x6e, 0x76, 0x61, 0x6c, 0x69,
            0x64, 0x20, 0x72, 0x65, 0x71, 0x75, 0x65, 0x73,
            0x74, 0x20, 0x62, 0x6f, 0x64, 0x79, 0x22, 0x7d,
        ],
        ReqError::MissingField => seq![
            0x7bu8, 0x22, 0x65, 0x72, 0x72, 0x6f, 0x72, 0x22,
            0x3a, 0x22, 0x6d, 0x69, 0x73, 0x73, 0x69, 0x6e,
            0x67, 0x20, 0x66, 0x69, 0x65, 0x6c, 0x64, 0x3a,
            0x20, 0x70, 0x61, 0x73, 0x73, 0x77, 0x6f, 0x72,
            0x64, 0x22, 0x7d,
        ],
        ReqError::WrongType => seq![
            0x7bu8, 0x22, 0x65, 0x72, 0x72, 0x6f, 0x72, 0x22,
            0x3a, 0x22, 0x66, 0x69, 0x65, 0x6c, 0x64, 0x20,
            0x70, 0x61, 0x73, 0x73, 0x77, 0x6f, 0x72, 0x64,
            0x20, 0x6d, 0x75, 0x73, 0x74, 0x20, 0x62, 0x65,
            0x20, 0x61, 0x20, 0x73, 0x74, 0x72, 0x69, 0x6e,
            0x67, 0x22, 0x7d,
        ],
    }
}

pub fn render_error(e: ReqError) -> (r: Vec<u8>)
    ensures
        r@ == spec_render_error(e),
{
    match e {
        ReqError::InvalidJson => {
            let r: Vec<u8> = vec![
                0x7bu8, 0x22, 0x65, 0x72, 0x72, 0x6f, 0x72, 0x22,
                0x3a, 0x22, 0x69, 0x6e, 0x76, 0x61, 0x6c, 0x69,
                0x64, 0x20, 0x72, 0x65, 0x71, 0x75, 0x65, 0x73,
                0x74, 0x20, 0x62, 0x6f, 0x64, 0x79, 0x22, 0x7d,
            ];
            proof {
                assert(r@ =~= spec_render_error(e));
            }
            r
        },
        ReqError::MissingField => {
            let r: Vec<u8> = vec![
                0x7bu8, 0x22, 0x65, 0x72, 0x72, 0x6f, 0x72, 0x22,
                0x3a, 0x22, 0x6d, 0x69, 0x73, 0x73, 0x69, 0x6e,
                0x67, 0x20, 0x66, 0x69, 0x65, 0x6c, 0x64, 0x3a,
                0x20, 0x70, 0x61, 0x73, 0x73, 0x77, 0x6f, 0x72,
                0x64, 0x22, 0x7d,
            ];
            proof {
                assert(r@ =~= spec_render_error(e));
            }
            r
        },
        ReqError::WrongType => {
            let r: Vec<u8> = vec![
                0x7bu8, 0x22, 0x65, 0x72, 0x72, 0x6f, 0x72, 0x22,
                0x3a, 0x22, 0x66, 0x69, 0x65, 0x6c, 0x64, 0x20,
                0x70, 0x61, 0x73, 0x73, 0x77, 0x6f, 0x72, 0x64,
                0x20, 0x6d, 0x75, 0x73, 0x74, 0x20, 0x62, 0x65,
                0x20, 0x61, 0x20, 0x73, 0x74, 0x72, 0x69, 0x6e,
                0x67, 0x22, 0x7d,
            ];
            proof {
                assert(r@ =~= spec_render_error(e));
            }
            r
        },
    }
}

} // verus!
