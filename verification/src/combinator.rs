//! Byte-level primitives shared by every grammar rule: literal matching,
//! optional application, folding whitespace, comments, and digit scanning.
//!
//! Every primitive is a pure function from an input byte slice to a
//! [`Res`](crate::error::Res): on success the unconsumed suffix of the input
//! and a value, on failure an [`Error`](crate::error::Error) value. No
//! primitive panics; short or malformed input always yields an error.

use vstd::prelude::*;
use vstd::slice::{slice_index_get, slice_subrange};

use crate::error::{Error, Res};

verus! {

/// True of a space or horizontal tab, the WSP class of RFC 5322.
pub open spec fn is_wsp(b: u8) -> bool {
    b == 32 || b == 9
}

/// True of an ASCII decimal digit.
pub open spec fn is_digit(b: u8) -> bool {
    48 <= b <= 57
}

/// The input starts with the given literal.
pub open spec fn starts_with(s: Seq<u8>, lit: Seq<u8>) -> bool {
    s.len() >= lit.len() && s.take(lit.len() as int) == lit
}

/// Succeeds iff the input starts with the literal `expected`, and advances
/// past it; any other input yields a `TagError`, so that a caller may treat
/// the failure as "try a different alternative".
pub fn tag<'a>(input: &'a [u8], expected: &[u8]) -> (r: Res<'a, ()>)
    ensures
        match r {
            Ok((rest, _)) => starts_with(input@, expected@) && rest@ == input@.skip(
                expected@.len() as int,
            ),
            Err(e) => !starts_with(input@, expected@) && e is TagError,
        },
{
    if expected.len() > input.len() {
        return Err(Error::TagError("expected a literal, but the input is too short"));
    }
    let mut i: usize = 0;
    while i < expected.len()
        invariant
            0 <= i <= expected@.len() <= input@.len(),
            forall|j: int| 0 <= j < i ==> input@[j] == expected@[j],
        decreases expected@.len() - i,
    {
        if *slice_index_get(input, i) != *slice_index_get(expected, i) {
            assert(input@.take(expected@.len() as int)[i as int] != expected@[i as int]);
            return Err(Error::TagError("expected a literal"));
        }
        i += 1;
    }
    assert(input@.take(expected@.len() as int) =~= expected@);
    Ok((slice_subrange(input, expected.len(), input.len()), ()))
}

/// A single ASCII digit, returned as its numeric value.
pub fn digit(input: &[u8]) -> (r: Res<u8>)
    ensures
        match r {
            Ok((rest, v)) => input@.len() >= 1 && is_digit(input@[0]) && v == input@[0] - 48
                && rest@ == input@.skip(1),
            Err(e) => (input@.len() == 0 || !is_digit(input@[0])) && e is Known,
        },
{
    if input.len() == 0 {
        return Err(Error::Known("expected a digit, but the input is empty"));
    }
    let b = *slice_index_get(input, 0);
    if b < 48 || b > 57 {
        return Err(Error::Known("expected a digit"));
    }
    Ok((slice_subrange(input, 1, input.len()), b - 48))
}

/// The numeric value of the two-digit group at the start of the input.
pub open spec fn two_digit_val(s: Seq<u8>) -> int {
    (s[0] - 48) * 10 + (s[1] - 48)
}

/// Exactly two ASCII digits, returned as one numeric value (0 to 99).
pub fn two_digits(input: &[u8]) -> (r: Res<u8>)
    ensures
        match r {
            Ok((rest, v)) => input@.len() >= 2 && is_digit(input@[0]) && is_digit(input@[1])
                && v == two_digit_val(input@) && rest@ == input@.skip(2),
            Err(e) => (input@.len() < 2 || !is_digit(input@[0]) || !is_digit(input@[1]))
                && e is Known,
        },
{
    if input.len() < 2 {
        return Err(Error::Known("expected two digits, but characters are missing"));
    }
    let b0 = *slice_index_get(input, 0);
    let b1 = *slice_index_get(input, 1);
    if b0 < 48 || b0 > 57 || b1 < 48 || b1 > 57 {
        return Err(Error::Known("expected two digits"));
    }
    Ok((slice_subrange(input, 2, input.len()), (b0 - 48) * 10 + (b1 - 48)))
}

/// Applies a sub-rule; on the sub-rule's failure, returns the *original*
/// input unchanged and no value, never propagating the error. This is the
/// grammar's only first-class backtracking mechanism: a rule author wraps
/// every construct that may be absent in `optional` explicitly.
pub fn optional<'a, T, F: Fn(&'a [u8]) -> Res<'a, T>>(input: &'a [u8], parser: F) -> (r: (
    &'a [u8],
    Option<T>,
))
    requires
        call_requires(parser, (input,)),
    ensures
        (match r.1 {
            Some(v) => call_ensures(parser, (input,), Ok((r.0, v))),
            None => r.0 == input && (exists|e: Error| call_ensures(parser, (input,), Err(e))),
        }),
{
    match parser(input) {
        Ok((rest, v)) => (rest, Some(v)),
        Err(e) => {
            proof {
                assert(call_ensures(parser, (input,), Err(e)));
            }
            (input, None)
        },
    }
}

/// Length of the maximal run of WSP bytes at the start of the input.
pub open spec fn wsp_run(s: Seq<u8>) -> int
    decreases s.len(),
{
    if s.len() > 0 && is_wsp(s[0]) {
        1 + wsp_run(s.skip(1))
    } else {
        0
    }
}

pub proof fn lemma_wsp_run_bounds(s: Seq<u8>)
    ensures
        0 <= wsp_run(s) <= s.len(),
    decreases s.len(),
{
    if s.len() > 0 && is_wsp(s[0]) {
        lemma_wsp_run_bounds(s.skip(1));
    }
}

/// Scans the maximal WSP run beginning at `from`, returning its end index.
fn wsp_scan(input: &[u8], from: usize) -> (r: usize)
    requires
        from <= input@.len(),
    ensures
        from <= r <= input@.len(),
        r - from == wsp_run(input@.skip(from as int)),
{
    proof {
        lemma_wsp_run_bounds(input@.skip(from as int));
    }
    let mut i: usize = from;
    while i < input.len() && (*slice_index_get(input, i) == 32 || *slice_index_get(input, i) == 9)
        invariant
            from <= i <= input@.len(),
            wsp_run(input@.skip(from as int)) == i - from + wsp_run(input@.skip(i as int)),
        decreases input@.len() - i,
    {
        proof {
            assert(input@.skip(i as int).skip(1) =~= input@.skip(i as int + 1));
            lemma_wsp_run_bounds(input@.skip(i as int + 1));
        }
        i += 1;
    }
    proof {
        assert(wsp_run(input@.skip(i as int)) == 0);
    }
    i
}

/// Where folding whitespace at the start of the input ends: an optional run
/// of WSP followed by CRLF, then at least one WSP; or, failing that, at
/// least one WSP. `None` when no folding whitespace is present at all.
pub open spec fn fws_len(s: Seq<u8>) -> Option<int> {
    let a = wsp_run(s);
    if a + 2 <= s.len() && s[a] == 13 && s[a + 1] == 10 && wsp_run(s.skip(a + 2)) > 0 {
        Some(a + 2 + wsp_run(s.skip(a + 2)))
    } else if a > 0 {
        Some(a)
    } else {
        None
    }
}

/// Folding whitespace of RFC 5322: whitespace that may be split across one
/// line fold. At least the syntactically mandated whitespace must be
/// present, else the rule fails.
pub fn fws<'a>(input: &'a [u8]) -> (r: Res<'a, ()>)
    ensures
        match r {
            Ok((rest, _)) => fws_len(input@) matches Some(n) && rest@ == input@.skip(n),
            Err(e) => fws_len(input@) is None && e is Known,
        },
{
    proof {
        assert(input@.skip(0) =~= input@);
    }
    let a = wsp_scan(input, 0);
    if input.len() >= 2 && a <= input.len() - 2 && *slice_index_get(input, a) == 13
        && *slice_index_get(input, a + 1) == 10 {
        let b = wsp_scan(input, a + 2);
        if b > a + 2 {
            return Ok((slice_subrange(input, b, input.len()), ()));
        }
    }
    if a > 0 {
        Ok((slice_subrange(input, a, input.len()), ()))
    } else {
        Err(Error::Known("expected folding whitespace"))
    }
}

/// Length of the maximal run of ASCII digits at the start of the input.
pub open spec fn digit_run(s: Seq<u8>) -> int
    decreases s.len(),
{
    if s.len() > 0 && is_digit(s[0]) {
        1 + digit_run(s.skip(1))
    } else {
        0
    }
}

pub proof fn lemma_digit_run_bounds(s: Seq<u8>)
    ensures
        0 <= digit_run(s) <= s.len(),
        forall|i: int| 0 <= i < digit_run(s) ==> is_digit(#[trigger] s[i]),
    decreases s.len(),
{
    if s.len() > 0 && is_digit(s[0]) {
        lemma_digit_run_bounds(s.skip(1));
        assert forall|i: int| 0 <= i < digit_run(s) implies is_digit(#[trigger] s[i]) by {
            if i > 0 {
                assert(s.skip(1)[i - 1] == s[i]);
            }
        }
    }
}

/// One or more digits: the "take while the predicate holds" scanner, whose
/// variadic form fails if zero characters match.
pub fn take_digits1<'a>(input: &'a [u8]) -> (r: Res<'a, &'a [u8]>)
    ensures
        match r {
            Ok((rest, run)) => digit_run(input@) > 0 && run@ == input@.take(digit_run(input@))
                && rest@ == input@.skip(digit_run(input@)),
            Err(e) => digit_run(input@) == 0 && e is Known,
        },
{
    proof {
        lemma_digit_run_bounds(input@);
        assert(input@.skip(0) =~= input@);
    }
    let mut i: usize = 0;
    while i < input.len() && *slice_index_get(input, i) >= 48 && *slice_index_get(input, i) <= 57
        invariant
            0 <= i <= input@.len(),
            digit_run(input@) == i + digit_run(input@.skip(i as int)),
        decreases input@.len() - i,
    {
        proof {
            assert(input@.skip(i as int).skip(1) =~= input@.skip(i as int + 1));
            lemma_digit_run_bounds(input@.skip(i as int + 1));
        }
        i += 1;
    }
    proof {
        assert(digit_run(input@.skip(i as int)) == 0);
    }
    if i == 0 {
        Err(Error::Known("expected at least one digit"))
    } else {
        Ok((slice_subrange(input, i, input.len()), slice_subrange(input, 0, i)))
    }
}

/// Comments may nest at most this deep inside [`cfws`]; deeper input is
/// rejected with a defined error instead of exhausting the call stack.
pub const MAX_COMMENT_DEPTH: usize = 64;

/// True of the whitespace bytes tolerated between comments: space, tab,
/// carriage return and line feed.
pub open spec fn is_cfws_ws(b: u8) -> bool {
    b == 32 || b == 9 || b == 13 || b == 10
}

/// Outcome of scanning comment-and-folding-whitespace: the position where
/// the run ends, or the way the scan failed.
pub enum CfwsScan {
    Done(int),
    Unterminated,
    TooDeep,
}

/// Scans whitespace and parenthesised comments from position `i`. `depth`
/// counts the comment parentheses currently open: at depth 0 the scan is
/// between units and stops at the first byte that opens neither whitespace
/// nor a comment; inside a comment, `\` quotes the next byte and nesting
/// beyond [`MAX_COMMENT_DEPTH`] is rejected.
pub open spec fn cfws_scan(s: Seq<u8>, i: int, depth: int) -> CfwsScan
    decreases s.len() - i,
{
    if i < 0 || i >= s.len() {
        if depth == 0 {
            CfwsScan::Done(i)
        } else {
            CfwsScan::Unterminated
        }
    } else if depth == 0 {
        if s[i] == 40 {
            cfws_scan(s, i + 1, 1)
        } else if is_cfws_ws(s[i]) {
            cfws_scan(s, i + 1, 0)
        } else {
            CfwsScan::Done(i)
        }
    } else {
        if s[i] == 40 {
            if depth >= MAX_COMMENT_DEPTH {
                CfwsScan::TooDeep
            } else {
                cfws_scan(s, i + 1, depth + 1)
            }
        } else if s[i] == 41 {
            cfws_scan(s, i + 1, depth - 1)
        } else if s[i] == 92 {
            if i + 2 <= s.len() {
                cfws_scan(s, i + 2, depth)
            } else {
                CfwsScan::Unterminated
            }
        } else {
            cfws_scan(s, i + 1, depth)
        }
    }
}

/// True of the error reported when comments nest beyond the maximum depth.
pub open spec fn is_depth_error(e: Error) -> bool {
    e matches Error::Known(m) && m@ == "comment nesting exceeds the maximum depth"@
}

/// Comment-and-folding-whitespace of RFC 5322: a non-empty run of
/// whitespace and parenthesised comments, which may nest. Nesting beyond
/// [`MAX_COMMENT_DEPTH`] yields a defined depth error rather than relying
/// on the host's call stack; the scan is iterative.
pub fn cfws<'a>(input: &'a [u8]) -> (r: Res<'a, ()>)
    ensures
        match r {
            Ok((rest, _)) => cfws_scan(input@, 0, 0) matches CfwsScan::Done(n) && n > 0 && rest@
                == input@.skip(n),
            Err(e) => !(cfws_scan(input@, 0, 0) matches CfwsScan::Done(n) && n > 0) && e is Known
                && (cfws_scan(input@, 0, 0) is TooDeep ==> is_depth_error(e)),
        },
{
    let mut i: usize = 0;
    let mut depth: usize = 0;
    loop
        invariant
            0 <= i <= input@.len(),
            depth <= MAX_COMMENT_DEPTH,
            cfws_scan(input@, 0, 0) == cfws_scan(input@, i as int, depth as int),
        ensures
            0 <= i <= input@.len(),
            cfws_scan(input@, 0, 0) == CfwsScan::Done(i as int),
        decreases input@.len() - i,
    {
        if i >= input.len() {
            if depth == 0 {
                break ;
            }
            return Err(Error::Known("unterminated comment"));
        }
        let b = *slice_index_get(input, i);
        if depth == 0 {
            if b == 40 {
                i += 1;
                depth = 1;
            } else if b == 32 || b == 9 || b == 13 || b == 10 {
                i += 1;
            } else {
                break ;
            }
        } else {
            if b == 40 {
                if depth >= MAX_COMMENT_DEPTH {
                    return Err(Error::Known("comment nesting exceeds the maximum depth"));
                }
                i += 1;
                depth += 1;
            } else if b == 41 {
                i += 1;
                depth -= 1;
            } else if b == 92 {
                if input.len() - i >= 2 {
                    i += 2;
                } else {
                    return Err(Error::Known("unterminated comment"));
                }
            } else {
                i += 1;
            }
        }
    }
    if i == 0 {
        return Err(Error::Known("expected whitespace or a comment"));
    }
    Ok((slice_subrange(input, i, input.len()), ()))
}

/// The numeric value of a span of ASCII digits read in base ten.
pub open spec fn digits_val(s: Seq<u8>) -> int
    decreases s.len(),
{
    if s.len() == 0 {
        0
    } else {
        digits_val(s.drop_last()) * 10 + (s.last() - 48)
    }
}

pub proof fn lemma_digits_val_nonneg(s: Seq<u8>)
    requires
        forall|i: int| 0 <= i < s.len() ==> is_digit(#[trigger] s[i]),
    ensures
        digits_val(s) >= 0,
    decreases s.len(),
{
    if s.len() > 0 {
        lemma_digits_val_nonneg(s.drop_last());
    }
}

pub proof fn lemma_digits_val_prefix(s: Seq<u8>, k: int)
    requires
        forall|i: int| 0 <= i < s.len() ==> is_digit(#[trigger] s[i]),
        0 <= k <= s.len(),
    ensures
        digits_val(s) >= digits_val(s.take(k)),
    decreases s.len(),
{
    if k < s.len() {
        assert(s.drop_last().take(k) =~= s.take(k));
        lemma_digits_val_prefix(s.drop_last(), k);
        lemma_digits_val_nonneg(s.drop_last());
    } else {
        assert(s.take(k) =~= s);
    }
}

/// Converts an already-validated ASCII-digit span to its numeric value, or
/// `None` when the value does not fit in the machine's word.
pub fn digits_to_usize(digits: &[u8]) -> (r: Option<usize>)
    requires
        forall|i: int| 0 <= i < digits@.len() ==> is_digit(#[trigger] digits@[i]),
    ensures
        match r {
            Some(v) => v == digits_val(digits@),
            None => digits_val(digits@) > usize::MAX,
        },
{
    let mut acc: usize = 0;
    let mut i: usize = 0;
    while i < digits.len()
        invariant
            0 <= i <= digits@.len(),
            forall|j: int| 0 <= j < digits@.len() ==> is_digit(#[trigger] digits@[j]),
            acc == digits_val(digits@.take(i as int)),
        decreases digits@.len() - i,
    {
        let d = *slice_index_get(digits, i) - 48;
        proof {
            assert(digits@.take(i as int + 1).drop_last() =~= digits@.take(i as int));
            assert(digits@.take(i as int + 1).last() == digits@[i as int]);
        }
        if acc > (usize::MAX - d as usize) / 10 {
            proof {
                assert(acc * 10 + d > usize::MAX) by (nonlinear_arith)
                    requires
                        acc > (usize::MAX - d as usize) / 10,
                        0 <= d <= 9,
                ;
                lemma_digits_val_prefix(digits@, i as int + 1);
            }
            return None;
        }
        proof {
            assert(acc * 10 + d <= usize::MAX) by (nonlinear_arith)
                requires
                    acc <= (usize::MAX - d as usize) / 10,
                    0 <= d <= 9,
            ;
        }
        acc = acc * 10 + d as usize;
        i += 1;
    }
    proof {
        assert(digits@.take(i as int) =~= digits@);
    }
    Some(acc)
}

} // verus!
