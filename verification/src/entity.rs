//! The entity-resolution engine: turns a loosely-typed [`RawEntity`] into a
//! semantically meaningful [`Entity`] by decoding its transfer encoding,
//! resolving its character set, or splitting its multipart body on the
//! declared boundary (RFC 2045/2046). Unsupported shapes come back as
//! [`Entity::Unknown`]; malformation inside a shape the engine does
//! interpret is a hard error.

use vstd::prelude::*;
use vstd::slice::{slice_index_get, slice_subrange};
use vstd::utf8::{decode_utf8, encode_utf8, valid_utf8};

use crate::error::Error;
use crate::mime::{ContentTransferEncoding, Entity, MimeType, RawEntity};
use crate::time::lower8;

verus! {

/// Byte-slice equality, decided element by element.
fn bytes_eq(a: &[u8], b: &[u8]) -> (r: bool)
    ensures
        r == (a@ == b@),
{
    if a.len() != b.len() {
        return false;
    }
    let mut i: usize = 0;
    while i < a.len()
        invariant
            0 <= i <= a@.len(),
            a@.len() == b@.len(),
            forall|j: int| 0 <= j < i ==> a@[j] == b@[j],
        decreases a@.len() - i,
    {
        if *slice_index_get(a, i) != *slice_index_get(b, i) {
            return false;
        }
        i += 1;
    }
    proof {
        assert(a@ =~= b@);
    }
    true
}

/// An owned copy of a byte slice.
fn copy_bytes(a: &[u8]) -> (r: Vec<u8>)
    ensures
        r@ == a@,
{
    let mut out: Vec<u8> = Vec::new();
    let mut i: usize = 0;
    while i < a.len()
        invariant
            0 <= i <= a@.len(),
            out@ == a@.take(i as int),
        decreases a@.len() - i,
    {
        out.push(*slice_index_get(a, i));
        proof {
            assert(a@.take(i as int + 1) =~= a@.take(i as int).push(a@[i as int]));
        }
        i += 1;
    }
    proof {
        assert(a@.take(a@.len() as int) =~= a@);
    }
    out
}

/// The value of the first parameter whose (lower-cased) key equals `key`.
pub open spec fn param_value_spec(params: Seq<(String, String)>, key: Seq<char>) -> Option<
    Seq<char>,
>
    decreases params.len(),
{
    if params.len() == 0 {
        None
    } else if params[0].0@ == key {
        Some(params[0].1@)
    } else {
        param_value_spec(params.skip(1), key)
    }
}

/// Looks a parameter up by key, first match wins.
fn find_param<'a>(params: &'a Vec<(String, String)>, key: &String) -> (r: Option<&'a String>)
    ensures
        match r {
            Some(v) => param_value_spec(params@, key@) == Some(v@),
            None => param_value_spec(params@, key@) is None,
        },
{
    proof {
        assert(params@.skip(0) =~= params@);
    }
    let mut i: usize = 0;
    while i < params.len()
        invariant
            0 <= i <= params@.len(),
            param_value_spec(params@, key@) == param_value_spec(params@.skip(i as int), key@),
        decreases params@.len() - i,
    {
        proof {
            assert(params@.skip(i as int).skip(1) =~= params@.skip(i as int + 1));
            assert(params@.skip(i as int)[0] == params@[i as int]);
        }
        let p = &params[i];
        if p.0 == *key {
            return Some(&p.1);
        }
        i += 1;
    }
    None
}

/// The character sets this engine resolves itself.
#[derive(Debug, PartialEq, Eq, Structural, Clone, Copy)]
pub enum Charset {
    Utf8,
    Ascii,
    Latin1,
    Unsupported,
}

/// ASCII lower-casing of a whole byte sequence.
pub open spec fn lower_bytes(s: Seq<u8>) -> Seq<u8> {
    s.map_values(|b: u8| lower8(b))
}

/// Which supported character set a (case-insensitive) charset name names:
/// `utf-8`, `us-ascii` or `iso-8859-1`; anything else is unsupported.
pub open spec fn charset_spec(bs: Seq<u8>) -> Charset {
    if lower_bytes(bs) == seq![117u8, 116, 102, 45, 56] {
        Charset::Utf8
    } else if lower_bytes(bs) == seq![117u8, 115, 45, 97, 115, 99, 105, 105] {
        Charset::Ascii
    } else if lower_bytes(bs) == seq![105u8, 115, 111, 45, 56, 56, 53, 57, 45, 49] {
        Charset::Latin1
    } else {
        Charset::Unsupported
    }
}

/// Lower-cases a charset name and classifies it.
fn classify_charset(bs: &[u8]) -> (r: Charset)
    ensures
        r == charset_spec(bs@),
{
    let mut low: Vec<u8> = Vec::new();
    let mut i: usize = 0;
    while i < bs.len()
        invariant
            0 <= i <= bs@.len(),
            low@ == lower_bytes(bs@.take(i as int)),
        decreases bs@.len() - i,
    {
        low.push(crate::time::to_lower(*slice_index_get(bs, i)));
        proof {
            assert(lower_bytes(bs@.take(i as int + 1)) =~= lower_bytes(bs@.take(i as int)).push(
                lower8(bs@[i as int]),
            ));
        }
        i += 1;
    }
    proof {
        assert(bs@.take(bs@.len() as int) =~= bs@);
    }
    let utf8_name: [u8; 5] = [117, 116, 102, 45, 56];
    let ascii_name: [u8; 8] = [117, 115, 45, 97, 115, 99, 105, 105];
    let latin1_name: [u8; 10] = [105, 115, 111, 45, 56, 56, 53, 57, 45, 49];
    proof {
        assert(utf8_name@ =~= seq![117u8, 116, 102, 45, 56]);
        assert(ascii_name@ =~= seq![117u8, 115, 45, 97, 115, 99, 105, 105]);
        assert(latin1_name@ =~= seq![105u8, 115, 111, 45, 56, 56, 53, 57, 45, 49]);
    }
    if bytes_eq(low.as_slice(), utf8_name.as_slice()) {
        Charset::Utf8
    } else if bytes_eq(low.as_slice(), ascii_name.as_slice()) {
        Charset::Ascii
    } else if bytes_eq(low.as_slice(), latin1_name.as_slice()) {
        Charset::Latin1
    } else {
        Charset::Unsupported
    }
}

/// The value of one base64 alphabet byte, if it is in the standard
/// alphabet.
pub open spec fn b64_val(b: u8) -> Option<u8> {
    if 65 <= b <= 90 {
        Some((b - 65) as u8)
    } else if 97 <= b <= 122 {
        Some((b - 71) as u8)
    } else if 48 <= b <= 57 {
        Some((b + 4) as u8)
    } else if b == 43 {
        Some(62u8)
    } else if b == 47 {
        Some(63u8)
    } else {
        None
    }
}

/// Whitespace tolerated inside a base64 body.
pub open spec fn is_b64_ws(b: u8) -> bool {
    b == 32 || b == 9 || b == 13 || b == 10
}

/// First output byte of a base64 group.
pub open spec fn b64_byte_a(v0: u8, v1: u8) -> u8 {
    (v0 * 4 + v1 / 16) as u8
}

/// Second output byte of a base64 group.
pub open spec fn b64_byte_b(v1: u8, v2: u8) -> u8 {
    ((v1 % 16) * 16 + v2 / 4) as u8
}

/// Third output byte of a base64 group.
pub open spec fn b64_byte_c(v2: u8, v3: u8) -> u8 {
    ((v2 % 4) * 64 + v3) as u8
}

/// Decoder state: still well-formed, bytes emitted, alphabet values of the
/// current group not yet emitted, and how much padding has been seen
/// (0 none, 1 one `=` after two values, 2 padding complete).
pub type B64State = (bool, Seq<u8>, Seq<u8>, int);

/// One byte of base64 input applied to the decoder state.
pub open spec fn b64_step(st: B64State, b: u8) -> B64State {
    let (ok, out, pend, pads) = st;
    if !ok {
        st
    } else if is_b64_ws(b) {
        st
    } else if b == 61 {
        if pads == 1 {
            (true, out.push(b64_byte_a(pend[0], pend[1])), Seq::empty(), 2)
        } else if pads == 2 {
            (false, out, pend, pads)
        } else if pend.len() == 2 {
            (true, out, pend, 1)
        } else if pend.len() == 3 {
            (true, out.push(b64_byte_a(pend[0], pend[1])).push(b64_byte_b(pend[1], pend[2])), Seq::empty(), 2)
        } else {
            (false, out, pend, pads)
        }
    } else {
        match b64_val(b) {
            Some(v) => {
                if pads != 0 {
                    (false, out, pend, pads)
                } else if pend.len() == 3 {
                    (
                        true,
                        out.push(b64_byte_a(pend[0], pend[1])).push(
                            b64_byte_b(pend[1], pend[2]),
                        ).push(b64_byte_c(pend[2], v)),
                        Seq::empty(),
                        0,
                    )
                } else {
                    (true, out, pend.push(v), 0)
                }
            },
            None => (false, out, pend, pads),
        }
    }
}

/// The decoder state after the whole input.
pub open spec fn b64_fold(s: Seq<u8>) -> B64State
    decreases s.len(),
{
    if s.len() == 0 {
        (true, Seq::empty(), Seq::empty(), 0int)
    } else {
        b64_step(b64_fold(s.drop_last()), s.last())
    }
}

/// Standard-alphabet base64 decoding: embedded whitespace is accepted, an
/// invalid character or misplaced padding refuses the input, and a final
/// group of two or three values is accepted with or without padding.
pub open spec fn b64_decode(s: Seq<u8>) -> Option<Seq<u8>> {
    let (ok, out, pend, pads) = b64_fold(s);
    if !ok || pads == 1 || pend.len() == 1 {
        None
    } else if pend.len() == 2 {
        Some(out.push(b64_byte_a(pend[0], pend[1])))
    } else if pend.len() == 3 {
        Some(out.push(b64_byte_a(pend[0], pend[1])).push(b64_byte_b(pend[1], pend[2])))
    } else {
        Some(out)
    }
}

/// The base64 alphabet value of one byte, executably.
fn b64_digit(b: u8) -> (r: Option<u8>)
    ensures
        r == b64_val(b),
{
    if b >= 65 && b <= 90 {
        Some(b - 65)
    } else if b >= 97 && b <= 122 {
        Some(b - 71)
    } else if b >= 48 && b <= 57 {
        Some(b + 4)
    } else if b == 43 {
        Some(62)
    } else if b == 47 {
        Some(63)
    } else {
        None
    }
}

/// Decodes a base64 body, or reports the hard error that the input is not
/// well-formed base64.
pub fn decode_base64(input: &[u8]) -> (r: Result<Vec<u8>, Error>)
    ensures
        match r {
            Ok(out) => b64_decode(input@) == Some(out@),
            Err(e) => b64_decode(input@) is None && e is Known,
        },
{
    let mut ok = true;
    let mut out: Vec<u8> = Vec::new();
    let mut pend: Vec<u8> = Vec::new();
    let mut pads: u8 = 0;
    let mut i: usize = 0;
    while i < input.len()
        invariant
            0 <= i <= input@.len(),
            pads <= 2,
            pend@.len() <= 3,
            pads == 1 ==> pend@.len() == 2,
            forall|j: int| 0 <= j < pend@.len() ==> pend@[j] < 64,
            b64_fold(input@.take(i as int)) == (ok, out@, pend@, pads as int),
        decreases input@.len() - i,
    {
        let b = *slice_index_get(input, i);
        proof {
            assert(input@.take(i as int + 1).drop_last() =~= input@.take(i as int));
            assert(input@.take(i as int + 1).last() == input@[i as int]);
        }
        if ok {
            if b == 32 || b == 9 || b == 13 || b == 10 {
            } else if b == 61 {
                if pads == 1 {
                    let v0 = *slice_index_get(pend.as_slice(), 0);
                    let v1 = *slice_index_get(pend.as_slice(), 1);
                    out.push(v0 * 4 + v1 / 16);
                    pend.clear();
                    pads = 2;
                } else if pads == 2 {
                    ok = false;
                } else if pend.len() == 2 {
                    pads = 1;
                } else if pend.len() == 3 {
                    let v0 = *slice_index_get(pend.as_slice(), 0);
                    let v1 = *slice_index_get(pend.as_slice(), 1);
                    let v2 = *slice_index_get(pend.as_slice(), 2);
                    out.push(v0 * 4 + v1 / 16);
                    out.push((v1 % 16) * 16 + v2 / 4);
                    pend.clear();
                    pads = 2;
                } else {
                    ok = false;
                }
            } else {
                match b64_digit(b) {
                    Some(v) => {
                        if pads != 0 {
                            ok = false;
                        } else if pend.len() == 3 {
                            let v0 = *slice_index_get(pend.as_slice(), 0);
                            let v1 = *slice_index_get(pend.as_slice(), 1);
                            let v2 = *slice_index_get(pend.as_slice(), 2);
                            out.push(v0 * 4 + v1 / 16);
                            out.push((v1 % 16) * 16 + v2 / 4);
                            out.push((v2 % 4) * 64 + v);
                            pend.clear();
                        } else {
                            pend.push(v);
                        }
                    },
                    None => {
                        ok = false;
                    },
                }
            }
        }
        i += 1;
    }
    proof {
        assert(input@.take(input@.len() as int) =~= input@);
    }
    if !ok || pads == 1 || pend.len() == 1 {
        return Err(Error::Known("invalid base64 data"));
    }
    if pend.len() == 2 {
        let v0 = *slice_index_get(pend.as_slice(), 0);
        let v1 = *slice_index_get(pend.as_slice(), 1);
        out.push(v0 * 4 + v1 / 16);
    } else if pend.len() == 3 {
        let v0 = *slice_index_get(pend.as_slice(), 0);
        let v1 = *slice_index_get(pend.as_slice(), 1);
        let v2 = *slice_index_get(pend.as_slice(), 2);
        out.push(v0 * 4 + v1 / 16);
        out.push((v1 % 16) * 16 + v2 / 4);
    }
    Ok(out)
}

/// True of an ASCII hex digit, either case.
pub open spec fn is_hex(b: u8) -> bool {
    (48 <= b <= 57) || (65 <= b <= 70) || (97 <= b <= 102)
}

/// The value of an ASCII hex digit.
pub open spec fn hex_val(b: u8) -> u8 {
    if 48 <= b <= 57 {
        (b - 48) as u8
    } else if 65 <= b <= 70 {
        (b - 55) as u8
    } else {
        (b - 87) as u8
    }
}

/// Quoted-printable decoder state: still well-formed, bytes emitted, and
/// the pending bytes of a partially read escape (`=`, then a carriage
/// return or the first hex digit).
pub type QpState = (bool, Seq<u8>, Seq<u8>);

/// One byte of quoted-printable input applied to the decoder state.
pub open spec fn qp_step(st: QpState, b: u8) -> QpState {
    let (ok, out, held) = st;
    if !ok {
        st
    } else if held.len() == 0 {
        if b == 61 {
            (true, out, seq![b])
        } else {
            (true, out.push(b), held)
        }
    } else if held.len() == 1 {
        if b == 10 {
            (true, out, Seq::empty())
        } else if b == 13 {
            (true, out, held.push(b))
        } else if is_hex(b) {
            (true, out, held.push(b))
        } else {
            (false, out, held)
        }
    } else {
        if held[1] == 13 {
            if b == 10 {
                (true, out, Seq::empty())
            } else {
                (false, out, held)
            }
        } else {
            if is_hex(b) {
                (true, out.push((hex_val(held[1]) * 16 + hex_val(b)) as u8), Seq::empty())
            } else {
                (false, out, held)
            }
        }
    }
}

/// The decoder state after the whole input.
pub open spec fn qp_fold(s: Seq<u8>) -> QpState
    decreases s.len(),
{
    if s.len() == 0 {
        (true, Seq::empty(), Seq::empty())
    } else {
        qp_step(qp_fold(s.drop_last()), s.last())
    }
}

/// Quoted-printable decoding: `=XX` hex escapes decoded, soft line breaks
/// (`=` before a line end) removed, and any other escape — including one
/// cut short by the end of the input — a hard error.
pub open spec fn qp_decode(s: Seq<u8>) -> Option<Seq<u8>> {
    let (ok, out, held) = qp_fold(s);
    if ok && held.len() == 0 {
        Some(out)
    } else {
        None
    }
}

/// Decodes a quoted-printable body, or reports the hard error that an
/// escape sequence is invalid.
pub fn decode_qp(input: &[u8]) -> (r: Result<Vec<u8>, Error>)
    ensures
        match r {
            Ok(out) => qp_decode(input@) == Some(out@),
            Err(e) => qp_decode(input@) is None && e is Known,
        },
{
    let mut ok = true;
    let mut out: Vec<u8> = Vec::new();
    let mut held: Vec<u8> = Vec::new();
    let mut i: usize = 0;
    while i < input.len()
        invariant
            0 <= i <= input@.len(),
            held@.len() <= 2,
            qp_fold(input@.take(i as int)) == (ok, out@, held@),
        decreases input@.len() - i,
    {
        let b = *slice_index_get(input, i);
        proof {
            assert(input@.take(i as int + 1).drop_last() =~= input@.take(i as int));
            assert(input@.take(i as int + 1).last() == input@[i as int]);
        }
        if ok {
            if held.len() == 0 {
                if b == 61 {
                    held.push(b);
                } else {
                    out.push(b);
                }
            } else if held.len() == 1 {
                if b == 10 {
                    held.clear();
                } else if b == 13 {
                    held.push(b);
                } else if (b >= 48 && b <= 57) || (b >= 65 && b <= 70) || (b >= 97 && b <= 102) {
                    held.push(b);
                } else {
                    ok = false;
                }
            } else {
                let h1 = *slice_index_get(held.as_slice(), 1);
                if h1 == 13 {
                    if b == 10 {
                        held.clear();
                    } else {
                        ok = false;
                    }
                } else {
                    if (b >= 48 && b <= 57) || (b >= 65 && b <= 70) || (b >= 97 && b <= 102) {
                        let hv = if h1 >= 48 && h1 <= 57 {
                            h1 - 48
                        } else if h1 >= 65 && h1 <= 70 {
                            h1 - 55
                        } else {
                            h1 - 87
                        };
                        let bv = if b >= 48 && b <= 57 {
                            b - 48
                        } else if b >= 65 && b <= 70 {
                            b - 55
                        } else {
                            b - 87
                        };
                        out.push(hv * 16 + bv);
                        held.clear();
                    } else {
                        ok = false;
                    }
                }
            }
        }
        i += 1;
    }
    proof {
        assert(input@.take(input@.len() as int) =~= input@);
    }
    if ok && held.len() == 0 {
        Ok(out)
    } else {
        Err(Error::Known("invalid quoted-printable escape"))
    }
}

/// ISO-8859-1 decoding: every byte maps to the Unicode code point of the
/// same value, so the decoding never fails.
pub open spec fn latin1_decode(s: Seq<u8>) -> Seq<char> {
    s.map_values(|b: u8| b as char)
}

/// Decodes an ISO-8859-1 body byte for byte.
pub fn decode_latin1(input: &[u8]) -> (r: String)
    ensures
        r@ == latin1_decode(input@),
{
    let mut out = String::new();
    let mut i: usize = 0;
    while i < input.len()
        invariant
            0 <= i <= input@.len(),
            out@ == latin1_decode(input@.take(i as int)),
        decreases input@.len() - i,
    {
        let b = *slice_index_get(input, i);
        push_char(&mut out, b as char);
        proof {
            assert(latin1_decode(input@.take(i as int + 1)) =~= latin1_decode(
                input@.take(i as int),
            ).push(input@[i as int] as char));
        }
        i += 1;
    }
    proof {
        assert(input@.take(input@.len() as int) =~= input@);
    }
    out
}

/// Splitter state while walking a multipart body: whether the first
/// delimiter has been seen, whether the closing delimiter has been seen,
/// the sections already closed, the bytes of the section being collected,
/// and the bytes of the line being collected.
pub type MpState = (bool, bool, Seq<Seq<u8>>, Seq<u8>, Seq<u8>);

/// A line without its trailing line end (LF, or CRLF).
pub open spec fn strip_eol(line: Seq<u8>) -> Seq<u8> {
    let l1 = if line.len() > 0 && line.last() == 10 {
        line.drop_last()
    } else {
        line
    };
    if l1.len() > 0 && l1.last() == 13 {
        l1.drop_last()
    } else {
        l1
    }
}

/// One completed line applied to the splitter state. A line holding
/// exactly the delimiter closes the current section and opens the next; a
/// line holding the delimiter followed by two hyphens closes the body;
/// before the first delimiter, content lines are preamble and are
/// discarded; after the closing line everything is epilogue. The line end
/// before a delimiter line belongs to the delimiter.
pub open spec fn mp_line(st: MpState, line: Seq<u8>, delim: Seq<u8>) -> MpState {
    let (found, closed, done, cur, _) = st;
    if closed {
        (found, closed, done, cur, Seq::empty())
    } else {
        let core = strip_eol(line);
        if core == delim {
            if found {
                (true, false, done.push(strip_eol(cur)), Seq::empty(), Seq::empty())
            } else {
                (true, false, done, Seq::empty(), Seq::empty())
            }
        } else if core == delim + seq![45u8, 45u8] {
            if found {
                (true, true, done.push(strip_eol(cur)), Seq::empty(), Seq::empty())
            } else {
                (true, true, done, Seq::empty(), Seq::empty())
            }
        } else if found {
            (true, false, done, cur + line, Seq::empty())
        } else {
            (false, false, done, cur, Seq::empty())
        }
    }
}

/// One byte of the body applied to the splitter state: a line feed
/// completes the current line.
pub open spec fn mp_byte(st: MpState, b: u8, delim: Seq<u8>) -> MpState {
    let (found, closed, done, cur, line) = st;
    if b == 10 {
        mp_line((found, closed, done, cur, Seq::empty()), line.push(b), delim)
    } else {
        (found, closed, done, cur, line.push(b))
    }
}

/// The splitter state after the whole body.
pub open spec fn mp_fold(s: Seq<u8>, delim: Seq<u8>) -> MpState
    decreases s.len(),
{
    if s.len() == 0 {
        (false, false, Seq::<Seq<u8>>::empty(), Seq::<u8>::empty(), Seq::<u8>::empty())
    } else {
        mp_byte(mp_fold(s.drop_last(), delim), s.last(), delim)
    }
}

/// The boundary-delimited sections of a multipart body, in source order,
/// or `None` when the closing delimiter line never comes.
pub open spec fn mp_split(body: Seq<u8>, delim: Seq<u8>) -> Option<Seq<Seq<u8>>> {
    let st0 = mp_fold(body, delim);
    let st = if st0.4.len() > 0 {
        mp_line((st0.0, st0.1, st0.2, st0.3, Seq::<u8>::empty()), st0.4, delim)
    } else {
        st0
    };
    if st.1 {
        Some(st.2)
    } else {
        None
    }
}

/// Applies one completed line to the splitter's executable state, which
/// mirrors [`mp_line`] on the views.
#[verifier::rlimit(60)]
fn apply_line(
    found: &mut bool,
    closed: &mut bool,
    done: &mut Vec<Vec<u8>>,
    cur: &mut Vec<u8>,
    line: Vec<u8>,
    delim: &[u8],
    Ghost(dv): Ghost<Seq<Seq<u8>>>,
) -> (rdv: Ghost<Seq<Seq<u8>>>)
    requires
        dv.len() == old(done)@.len(),
        forall|k: int| 0 <= k < dv.len() ==> #[trigger] old(done)@[k]@ == dv[k],
    ensures
        rdv@.len() == final(done)@.len(),
        forall|k: int| 0 <= k < rdv@.len() ==> #[trigger] final(done)@[k]@ == rdv@[k],
        (*final(found), *final(closed), rdv@, final(cur)@, Seq::<u8>::empty()) == mp_line(
            (*old(found), *old(closed), dv, old(cur)@, Seq::<u8>::empty()),
            line@,
            delim@,
        ),
{
    if *closed {
        return Ghost(dv);
    }
    let mut end: usize = line.len();
    if end > 0 && *slice_index_get(line.as_slice(), end - 1) == 10 {
        end -= 1;
    }
    if end > 0 && *slice_index_get(line.as_slice(), end - 1) == 13 {
        end -= 1;
    }
    let core = slice_subrange(line.as_slice(), 0, end);
    proof {
        assert(core@ =~= strip_eol(line@));
    }
    let is_delim = bytes_eq(core, delim);
    let mut is_close = false;
    if !is_delim && core.len() >= 2 && core.len() - 2 == delim.len() {
        if bytes_eq(slice_subrange(core, 0, core.len() - 2), delim) {
            if *slice_index_get(core, core.len() - 2) == 45 && *slice_index_get(
                core,
                core.len() - 1,
            ) == 45 {
                is_close = true;
                proof {
                    assert(core@ =~= delim@ + seq![45u8, 45u8]);
                }
            }
        }
    }
    proof {
        if !is_delim && !is_close && core@ == delim@ + seq![45u8, 45u8] {
            assert(core@.take(core@.len() - 2) =~= delim@);
            assert(false);
        }
    }
    if is_delim || is_close {
        let ghost dv2: Seq<Seq<u8>> = if *found {
            dv.push(strip_eol(cur@))
        } else {
            dv
        };
        if *found {
            let mut end2: usize = cur.len();
            if end2 > 0 && *slice_index_get(cur.as_slice(), end2 - 1) == 10 {
                end2 -= 1;
            }
            if end2 > 0 && *slice_index_get(cur.as_slice(), end2 - 1) == 13 {
                end2 -= 1;
            }
            let stripped = copy_bytes(slice_subrange(cur.as_slice(), 0, end2));
            proof {
                assert(stripped@ =~= strip_eol(cur@));
            }
            done.push(stripped);
        }
        *found = true;
        if is_close {
            *closed = true;
        }
        cur.clear();
        return Ghost(dv2);
    }
    if *found {
        let mut j: usize = 0;
        let ghost cur0 = cur@;
        while j < line.len()
            invariant
                0 <= j <= line@.len(),
                cur@ == cur0 + line@.take(j as int),
            decreases line@.len() - j,
        {
            cur.push(*slice_index_get(line.as_slice(), j));
            proof {
                assert(cur0 + line@.take(j as int + 1) =~= (cur0 + line@.take(j as int)).push(
                    line@[j as int],
                ));
            }
            j += 1;
        }
        proof {
            assert(cur0 + line@.take(line@.len() as int) =~= cur0 + line@);
        }
    }
    Ghost(dv)
}

/// Splits a multipart body on its boundary delimiter lines, returning the
/// sections in source order, or `None` when the body has no well-formed
/// closing delimiter.
pub fn split_multipart(body: &[u8], delim: &[u8]) -> (r: Option<Vec<Vec<u8>>>)
    ensures
        match r {
            Some(parts) => mp_split(body@, delim@) matches Some(secs) && parts@.len() == secs.len()
                && (forall|k: int| 0 <= k < secs.len() ==> #[trigger] parts@[k]@ == secs[k]),
            None => mp_split(body@, delim@) is None,
        },
{
    let mut found = false;
    let mut closed = false;
    let mut done: Vec<Vec<u8>> = Vec::new();
    let mut cur: Vec<u8> = Vec::new();
    let mut line: Vec<u8> = Vec::new();
    let ghost mut dv: Seq<Seq<u8>> = Seq::empty();
    let mut i: usize = 0;
    while i < body.len()
        invariant
            0 <= i <= body@.len(),
            dv.len() == done@.len(),
            forall|k: int| 0 <= k < dv.len() ==> #[trigger] done@[k]@ == dv[k],
            mp_fold(body@.take(i as int), delim@) == (found, closed, dv, cur@, line@),
        decreases body@.len() - i,
    {
        let b = *slice_index_get(body, i);
        proof {
            assert(body@.take(i as int + 1).drop_last() =~= body@.take(i as int));
            assert(body@.take(i as int + 1).last() == body@[i as int]);
        }
        line.push(b);
        if b == 10 {
            let lv = line;
            line = Vec::new();
            let Ghost(ndv) = apply_line(
                &mut found,
                &mut closed,
                &mut done,
                &mut cur,
                lv,
                delim,
                Ghost(dv),
            );
            proof {
                dv = ndv;
            }
        }
        i += 1;
    }
    proof {
        assert(body@.take(body@.len() as int) =~= body@);
    }
    if line.len() > 0 {
        let lv = line;
        let Ghost(ndv) = apply_line(
            &mut found,
            &mut closed,
            &mut done,
            &mut cur,
            lv,
            delim,
            Ghost(dv),
        );
        proof {
            dv = ndv;
        }
    }
    if closed {
        Some(done)
    } else {
        None
    }
}

/// True of a raw entity that stands for one section of a multipart body
/// with the default metadata of RFC 2045: text/plain, seven-bit, no
/// parameters, and the section's bytes verbatim.
pub open spec fn is_default_part(r: RawEntity, bytes: Seq<u8>) -> bool {
    &&& r.mime_type is Text
    &&& r.subtype@ == "plain"@
    &&& r.description is None
    &&& r.id is None
    &&& r.parameters@.len() == 0
    &&& r.disposition is None
    &&& r.encoding is SevenBit
    &&& r.value@ == bytes
    &&& r.additional_headers@.len() == 0
}

/// The delimiter that the boundary parameter names: two hyphens then the
/// boundary text, UTF-8 encoded.
pub open spec fn boundary_delim(b: Seq<char>) -> Seq<u8> {
    seq![45u8, 45u8] + encode_utf8(b)
}

/// What resolution returns for a raw entity.
///
/// A multipart entity is split on its boundary parameter: a missing
/// boundary or an unclosed body is a hard error, and each section becomes
/// a still-raw child in source order. A text entity whose charset and
/// transfer encoding are both supported is transfer-decoded and then
/// charset-decoded, with malformed base64, quoted-printable or UTF-8 a
/// hard error; the charset defaults to us-ascii. Every other entity —
/// including text under an unsupported charset or encoding — comes back
/// unmodified as [`Entity::Unknown`].
pub open spec fn resolve_spec(raw: RawEntity, r: Result<Entity, Error>) -> bool {
    if raw.mime_type is Multipart {
        match param_value_spec(raw.parameters@, "boundary"@) {
            None => r is Err,
            Some(bnd) => match mp_split(raw.value@, boundary_delim(bnd)) {
                None => r is Err,
                Some(secs) => r matches Ok(Entity::Multipart { subtype, content }) && subtype@
                    == raw.subtype@ && content@.len() == secs.len() && (forall|k: int|
                    0 <= k < secs.len() ==> is_default_part(#[trigger] content@[k], secs[k])),
            },
        }
    } else if raw.mime_type is Text {
        let cs = match param_value_spec(raw.parameters@, "charset"@) {
            Some(c) => c,
            None => "us-ascii"@,
        };
        let kind = charset_spec(encode_utf8(cs));
        if kind is Unsupported || raw.encoding is Other {
            r matches Ok(Entity::Unknown(inner)) && *inner == raw
        } else {
            let decoded = match raw.encoding {
                ContentTransferEncoding::Base64 => b64_decode(raw.value@),
                ContentTransferEncoding::QuotedPrintable => qp_decode(raw.value@),
                _ => Some(raw.value@),
            };
            match decoded {
                None => r is Err,
                Some(bytes) => if kind is Latin1 {
                    r matches Ok(Entity::Text { subtype, value }) && subtype@ == raw.subtype@
                        && value@ == latin1_decode(bytes)
                } else if valid_utf8(bytes) {
                    r matches Ok(Entity::Text { subtype, value }) && subtype@ == raw.subtype@
                        && value@ == decode_utf8(bytes)
                } else {
                    r is Err
                },
            }
        }
    } else {
        r matches Ok(Entity::Unknown(inner)) && *inner == raw
    }
}

/// Resolves a raw entity: the sole entry point of the engine. Multipart
/// bodies are split into still-raw children, supported text is decoded,
/// anything else comes back as [`Entity::Unknown`]; malformation inside a
/// shape the engine does interpret is a hard error.
pub fn resolve_entity(raw: RawEntity) -> (r: Result<Entity, Error>)
    ensures
        resolve_spec(raw, r),
{
    match &raw.mime_type {
        MimeType::Multipart => {
            let key = "boundary".to_owned();
            let bnd = match find_param(&raw.parameters, &key) {
                Some(v) => v,
                None => {
                    return Err(Error::Known("multipart entity has no boundary parameter"));
                },
            };
            let ghost bnd_chars = bnd@;
            let bb = bnd.as_str().as_bytes();
            let mut delim: Vec<u8> = Vec::new();
            delim.push(45);
            delim.push(45);
            let mut j: usize = 0;
            while j < bb.len()
                invariant
                    0 <= j <= bb@.len(),
                    delim@ == seq![45u8, 45u8] + bb@.take(j as int),
                decreases bb@.len() - j,
            {
                delim.push(*slice_index_get(bb, j));
                proof {
                    assert(seq![45u8, 45u8] + bb@.take(j as int + 1) =~= (seq![45u8, 45u8]
                        + bb@.take(j as int)).push(bb@[j as int]));
                }
                j += 1;
            }
            proof {
                assert(bb@.take(bb@.len() as int) =~= bb@);
                assert(delim@ == boundary_delim(bnd_chars));
            }
            let mut parts = match split_multipart(raw.value.as_slice(), delim.as_slice()) {
                Some(p) => p,
                None => {
                    return Err(
                        Error::Known("multipart body has no boundary-delimited sections"),
                    );
                },
            };
            let ghost pviews = Seq::new(parts@.len(), |k: int| parts@[k]@);
            proof {
                let secs = mp_split(raw.value@, boundary_delim(bnd_chars))->Some_0;
                assert(pviews =~= secs);
            }
            let mut content: Vec<RawEntity> = Vec::new();
            while parts.len() > 0
                invariant
                    content@.len() + parts@.len() == pviews.len(),
                    forall|k: int|
                        0 <= k < content@.len() ==> is_default_part(
                            #[trigger] content@[k],
                            pviews[k],
                        ),
                    forall|k: int|
                        0 <= k < parts@.len() ==> #[trigger] parts@[k]@ == pviews[content@.len()
                            + k],
                decreases parts@.len(),
            {
                let p = parts.remove(0);
                content.push(RawEntity::from_part_bytes(p));
            }
            Ok(Entity::Multipart { subtype: raw.subtype, content })
        },
        MimeType::Text => {
            let ckey = "charset".to_owned();
            let kind = match find_param(&raw.parameters, &ckey) {
                Some(v) => classify_charset(v.as_str().as_bytes()),
                None => {
                    let default_cs = "us-ascii".to_owned();
                    classify_charset(default_cs.as_str().as_bytes())
                },
            };
            let kind_unsupported = match kind {
                Charset::Unsupported => true,
                _ => false,
            };
            let enc_other = match &raw.encoding {
                ContentTransferEncoding::Other(_) => true,
                _ => false,
            };
            if kind_unsupported || enc_other {
                return Ok(Entity::Unknown(Box::new(raw)));
            }
            let decoded_res = match &raw.encoding {
                ContentTransferEncoding::Base64 => decode_base64(raw.value.as_slice()),
                ContentTransferEncoding::QuotedPrintable => decode_qp(raw.value.as_slice()),
                _ => Ok(copy_bytes(raw.value.as_slice())),
            };
            let decoded = match decoded_res {
                Ok(d) => d,
                Err(e) => {
                    return Err(e);
                },
            };
            match kind {
                Charset::Latin1 => {
                    let s = decode_latin1(decoded.as_slice());
                    Ok(Entity::Text { subtype: raw.subtype, value: s })
                },
                Charset::Unsupported => Ok(Entity::Unknown(Box::new(raw))),
                _ => {
                    match string_from_utf8(decoded) {
                        Some(s) => Ok(Entity::Text { subtype: raw.subtype, value: s }),
                        None => Err(Error::Known("text entity is not valid utf-8")),
                    }
                },
            }
        },
        _ => Ok(Entity::Unknown(Box::new(raw))),
    }
}

/// Relies on `String::push`: appends the given character to the end of the
/// string.
#[verifier::external_body]
fn push_char(s: &mut String, c: char)
    ensures
        final(s)@ == old(s)@.push(c),
{
    s.push(c);
}

/// Relies on `String::from_utf8`: builds the string whose character
/// sequence is the UTF-8 decoding of the given bytes, failing exactly on
/// input that is not valid UTF-8 (no lossy substitution).
#[verifier::external_body]
fn string_from_utf8(v: Vec<u8>) -> (r: Option<String>)
    ensures
        r is Some <==> valid_utf8(v@),
        r matches Some(s) ==> s@ == decode_utf8(v@),
{
    String::from_utf8(v).ok()
}

} // verus!
