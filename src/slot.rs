//! The grammar of a slot body: argument references, counts and the format
//! specification, as spec functions and as the parsers proved against them.

use vstd::prelude::*;
use crate::types::{
    Align, Argument, ArgumentView, Count, CountView, FormatSlot, FormatSlotView, FormatSpec,
    FormatSpecView, Percision, PercisionView, Sign, Type, opt_view,
};
use crate::xid::{id_continue, id_start, is_xid_continue, is_xid_start};
use crate::text::{push_range, to_chars};

verus! {

// ---------------------------------------------------------------------------
// The grammar of a slot body, over characters. Each rule takes the text and a
// position and gives what it recognised with the position after it; an
// optional rule that does not match leaves the position where it was.
// ---------------------------------------------------------------------------

/// End of the run of identifier-continuing characters starting at `i`.
pub open spec fn ident_run_end(s: Seq<char>, i: int) -> int
    decreases s.len() - i,
{
    if 0 <= i < s.len() && id_continue(s[i]) {
        ident_run_end(s, i + 1)
    } else {
        i
    }
}

/// An identifier: one identifier-starting character, then identifier-continuing ones.
pub open spec fn identifier_at(s: Seq<char>, i: int) -> Option<(Seq<char>, int)> {
    if 0 <= i < s.len() && id_start(s[i]) {
        let e = ident_run_end(s, i + 1);
        Some((s.subrange(i, e), e))
    } else {
        None
    }
}

pub open spec fn is_digit(c: char) -> bool {
    '0' <= c && c <= '9'
}

/// End of the run of decimal digits starting at `i`.
pub open spec fn digit_run_end(s: Seq<char>, i: int) -> int
    decreases s.len() - i,
{
    if 0 <= i < s.len() && is_digit(s[i]) {
        digit_run_end(s, i + 1)
    } else {
        i
    }
}

/// The number that a sequence of decimal digits denotes.
pub open spec fn decimal_value(d: Seq<char>) -> nat
    decreases d.len(),
{
    if d.len() == 0 {
        0
    } else {
        decimal_value(d.drop_last()) * 10 + ((d.last() as u32 - '0' as u32) as nat)
    }
}

/// A non-empty run of decimal digits whose value fits in `usize`.
pub open spec fn integer_at(s: Seq<char>, i: int) -> Option<(usize, int)> {
    let e = digit_run_end(s, i);
    if e > i && decimal_value(s.subrange(i, e)) <= usize::MAX {
        Some((decimal_value(s.subrange(i, e)) as usize, e))
    } else {
        None
    }
}

/// An argument reference: an identifier, else an integer.
pub open spec fn argument_at(s: Seq<char>, i: int) -> Option<(ArgumentView, int)> {
    match identifier_at(s, i) {
        Some((name, e)) => Some((ArgumentView::Identifier(name), e)),
        None => match integer_at(s, i) {
            Some((n, e)) => Some((ArgumentView::Integer(n), e)),
            None => None,
        },
    }
}

/// A count: an identifier immediately followed by `$`, else an integer.
/// An identifier without the `$` is no count at all.
pub open spec fn count_at(s: Seq<char>, i: int) -> Option<(CountView, int)> {
    match identifier_at(s, i) {
        Some((name, e)) => if e < s.len() && s[e] == '$' {
            Some((CountView::Parameter(ArgumentView::Identifier(name)), e + 1))
        } else {
            None
        },
        None => match integer_at(s, i) {
            Some((n, e)) => Some((CountView::Integer(n), e)),
            None => None,
        },
    }
}

pub open spec fn align_of(c: char) -> Option<Align> {
    if c == '<' {
        Some(Align::Left)
    } else if c == '^' {
        Some(Align::Center)
    } else if c == '>' {
        Some(Align::Right)
    } else {
        None
    }
}

/// `[fill]align`: a fill character is taken only when an alignment follows it.
pub open spec fn fill_align_at(s: Seq<char>, i: int) -> (Option<char>, Option<Align>, int) {
    if 0 <= i && i + 1 < s.len() && align_of(s[i + 1]) is Some {
        (Some(s[i]), align_of(s[i + 1]), i + 2)
    } else if 0 <= i < s.len() && align_of(s[i]) is Some {
        (None, align_of(s[i]), i + 1)
    } else {
        (None, None, i)
    }
}

pub open spec fn sign_at(s: Seq<char>, i: int) -> (Option<Sign>, int) {
    if 0 <= i < s.len() && s[i] == '+' {
        (Some(Sign::Positive), i + 1)
    } else if 0 <= i < s.len() && s[i] == '-' {
        (Some(Sign::Negative), i + 1)
    } else {
        (None, i)
    }
}

/// Whether the character at `i` is `c`.
pub open spec fn char_at(s: Seq<char>, i: int, c: char) -> bool {
    0 <= i < s.len() && s[i] == c
}

/// `.` followed by a count or `*`; without either, the `.` is left in place.
pub open spec fn precision_at(s: Seq<char>, i: int) -> (Option<PercisionView>, int) {
    if char_at(s, i, '.') {
        match count_at(s, i + 1) {
            Some((c, e)) => (Some(PercisionView::Count(c)), e),
            None => if char_at(s, i + 1, '*') {
                (Some(PercisionView::SpecifiedPercision), i + 2)
            } else {
                (None, i)
            },
        }
    } else {
        (None, i)
    }
}

pub open spec fn kind_at(s: Seq<char>, i: int) -> (Type, int) {
    if char_at(s, i, 'x') {
        if char_at(s, i + 1, '?') {
            (Type::DebugLowerHex, i + 2)
        } else {
            (Type::LowerHex, i + 1)
        }
    } else if char_at(s, i, 'X') {
        if char_at(s, i + 1, '?') {
            (Type::DebugUpperHex, i + 2)
        } else {
            (Type::UpperHex, i + 1)
        }
    } else if char_at(s, i, '?') {
        (Type::Debug, i + 1)
    } else if char_at(s, i, 'o') {
        (Type::Octal, i + 1)
    } else if char_at(s, i, 'p') {
        (Type::Pointer, i + 1)
    } else if char_at(s, i, 'b') {
        (Type::Binary, i + 1)
    } else if char_at(s, i, 'e') {
        (Type::LowerExp, i + 1)
    } else if char_at(s, i, 'E') {
        (Type::UpperExp, i + 1)
    } else {
        (Type::Plain, i)
    }
}

/// The specification after the `:`, its seven fields in their fixed order.
pub open spec fn format_spec_at(s: Seq<char>, i: int) -> (FormatSpecView, int) {
    let (fill, align, p1) = fill_align_at(s, i);
    let (sign, p2) = sign_at(s, p1);
    let alternate = char_at(s, p2, '#');
    let p3 = if alternate { p2 + 1 } else { p2 };
    let pad_with_zeros = char_at(s, p3, '0');
    let p4 = if pad_with_zeros { p3 + 1 } else { p3 };
    let (width, p5) = match count_at(s, p4) {
        Some((c, e)) => (Some(c), e),
        None => (None, p4),
    };
    let (percision, p6) = precision_at(s, p5);
    let (kind, p7) = kind_at(s, p6);
    (FormatSpecView { fill, align, sign, alternate, pad_with_zeros, width, percision, kind }, p7)
}

/// A slot body: an optional argument, then optionally `:` and a specification.
/// The position is where recognition stopped; the body is complete only if it
/// is the end of the text.
pub open spec fn slot_at(s: Seq<char>) -> (FormatSlotView, int) {
    let (arg, p) = match argument_at(s, 0) {
        Some((a, e)) => (Some(a), e),
        None => (None, 0int),
    };
    if char_at(s, p, ':') {
        let (spec, e) = format_spec_at(s, p + 1);
        (FormatSlotView { arg, fmt_spec: Some(spec) }, e)
    } else {
        (FormatSlotView { arg, fmt_spec: None }, p)
    }
}

// ---------------------------------------------------------------------------
// Executable parsers. Each works on the characters `s` from position `i`,
// and returns what it recognised with the position after it.
// ---------------------------------------------------------------------------

fn parse_identifier(s: &[char], i: usize) -> (r: Option<(String, usize)>)
    requires
        i <= s@.len(),
    ensures
        match r {
            Some((name, e)) => identifier_at(s@, i as int) == Some((name@, e as int)) && e <= s@.len(),
            None => identifier_at(s@, i as int) is None,
        },
{
    let n = s.len();
    if i >= n || !is_xid_start(s[i]) {
        return None;
    }
    let mut e: usize = i + 1;
    loop
        invariant
            n == s@.len(),
            i < e <= n,
            ident_run_end(s@, i + 1) == ident_run_end(s@, e as int),
        ensures
            i < e <= n,
            ident_run_end(s@, i + 1) == e,
        decreases n - e,
    {
        if e >= n || !is_xid_continue(s[e]) {
            break;
        }
        e = e + 1;
    }
    let mut name = String::new();
    push_range(&mut name, s, i, e);
    assert(name@ =~= s@.subrange(i as int, e as int));
    Some((name, e))
}

fn parse_integer(s: &[char], i: usize) -> (r: Option<(usize, usize)>)
    requires
        i <= s@.len(),
    ensures
        match r {
            Some((v, e)) => integer_at(s@, i as int) == Some((v, e as int)) && e <= s@.len(),
            None => integer_at(s@, i as int) is None,
        },
{
    let n = s.len();
    let mut e: usize = i;
    let mut v: usize = 0;
    let mut overflow = false;
    loop
        invariant
            n == s@.len(),
            i <= e <= n,
            digit_run_end(s@, i as int) == digit_run_end(s@, e as int),
            !overflow ==> decimal_value(s@.subrange(i as int, e as int)) == v,
            overflow ==> decimal_value(s@.subrange(i as int, e as int)) > usize::MAX,
        ensures
            i <= e <= n,
            digit_run_end(s@, i as int) == e,
            !overflow ==> decimal_value(s@.subrange(i as int, e as int)) == v,
            overflow ==> decimal_value(s@.subrange(i as int, e as int)) > usize::MAX,
        decreases n - e,
    {
        if e >= n {
            break;
        }
        let c = s[e];
        if !('0' <= c && c <= '9') {
            break;
        }
        let d = (c as u32 - '0' as u32) as usize;
        assert(s@.subrange(i as int, e + 1).drop_last() =~= s@.subrange(i as int, e as int));
        if !overflow {
            match v.checked_mul(10) {
                Some(t) => match t.checked_add(d) {
                    Some(w) => {
                        v = w;
                    },
                    None => {
                        overflow = true;
                    },
                },
                None => {
                    overflow = true;
                },
            }
        }
        e = e + 1;
    }
    if e == i || overflow {
        None
    } else {
        Some((v, e))
    }
}

fn parse_argument(s: &[char], i: usize) -> (r: Option<(Argument, usize)>)
    requires
        i <= s@.len(),
    ensures
        match r {
            Some((a, e)) => argument_at(s@, i as int) == Some((a@, e as int)) && e <= s@.len(),
            None => argument_at(s@, i as int) is None,
        },
{
    match parse_identifier(s, i) {
        Some((name, e)) => Some((Argument::Identifier(name), e)),
        None => match parse_integer(s, i) {
            Some((v, e)) => Some((Argument::Integer(v), e)),
            None => None,
        },
    }
}

fn parse_count(s: &[char], i: usize) -> (r: Option<(Count, usize)>)
    requires
        i <= s@.len(),
    ensures
        match r {
            Some((c, e)) => count_at(s@, i as int) == Some((c@, e as int)) && e <= s@.len(),
            None => count_at(s@, i as int) is None,
        },
{
    let n = s.len();
    match parse_identifier(s, i) {
        Some((name, e)) => {
            if e < n && s[e] == '$' {
                Some((Count::Parameter(Argument::Identifier(name)), e + 1))
            } else {
                None
            }
        },
        None => match parse_integer(s, i) {
            Some((v, e)) => Some((Count::Integer(v), e)),
            None => None,
        },
    }
}

/// Whether position `i` holds the character `c`.
fn next_is(s: &[char], i: usize, c: char) -> (r: bool)
    ensures
        r == char_at(s@, i as int, c),
        s@.len() <= usize::MAX,
{
    let n = s.len();
    i < n && s[i] == c
}

fn parse_align(c: char) -> (r: Option<Align>)
    ensures
        r == align_of(c),
{
    if c == '<' {
        Some(Align::Left)
    } else if c == '^' {
        Some(Align::Center)
    } else if c == '>' {
        Some(Align::Right)
    } else {
        None
    }
}

fn parse_fill_align(s: &[char], i: usize) -> (r: (Option<char>, Option<Align>, usize))
    requires
        i <= s@.len(),
    ensures
        fill_align_at(s@, i as int) == (r.0, r.1, r.2 as int),
        r.2 <= s@.len(),
{
    let n = s.len();
    if n > 0 && i < n - 1 {
        let a = parse_align(s[i + 1]);
        if a.is_some() {
            return (Some(s[i]), a, i + 2);
        }
    }
    if i < n {
        let a = parse_align(s[i]);
        if a.is_some() {
            return (None, a, i + 1);
        }
    }
    (None, None, i)
}

fn parse_sign(s: &[char], i: usize) -> (r: (Option<Sign>, usize))
    requires
        i <= s@.len(),
    ensures
        sign_at(s@, i as int) == (r.0, r.1 as int),
        r.1 <= s@.len(),
{
    if next_is(s, i, '+') {
        (Some(Sign::Positive), i + 1)
    } else if next_is(s, i, '-') {
        (Some(Sign::Negative), i + 1)
    } else {
        (None, i)
    }
}

/// A `.` without a count or `*` after it is left in place.
fn parse_precision(s: &[char], i: usize) -> (r: (Option<Percision>, usize))
    requires
        i <= s@.len(),
    ensures
        precision_at(s@, i as int) == (opt_view(r.0), r.1 as int),
        r.1 <= s@.len(),
{
    if !next_is(s, i, '.') {
        return (None, i);
    }
    match parse_count(s, i + 1) {
        Some((c, e)) => (Some(Percision::Count(c)), e),
        None => {
            if next_is(s, i + 1, '*') {
                (Some(Percision::SpecifiedPercision), i + 2)
            } else {
                (None, i)
            }
        },
    }
}

fn parse_kind(s: &[char], i: usize) -> (r: (Type, usize))
    requires
        i <= s@.len(),
    ensures
        kind_at(s@, i as int) == (r.0, r.1 as int),
        r.1 <= s@.len(),
{
    let n = s.len();
    if i >= n {
        return (Type::Plain, i);
    }
    let c = s[i];
    if c == 'x' {
        if next_is(s, i + 1, '?') {
            (Type::DebugLowerHex, i + 2)
        } else {
            (Type::LowerHex, i + 1)
        }
    } else if c == 'X' {
        if next_is(s, i + 1, '?') {
            (Type::DebugUpperHex, i + 2)
        } else {
            (Type::UpperHex, i + 1)
        }
    } else if c == '?' {
        (Type::Debug, i + 1)
    } else if c == 'o' {
        (Type::Octal, i + 1)
    } else if c == 'p' {
        (Type::Pointer, i + 1)
    } else if c == 'b' {
        (Type::Binary, i + 1)
    } else if c == 'e' {
        (Type::LowerExp, i + 1)
    } else if c == 'E' {
        (Type::UpperExp, i + 1)
    } else {
        (Type::Plain, i)
    }
}

/// Parses the specification that follows a slot's `:`.
fn parse_format_spec(s: &[char], i: usize) -> (r: (FormatSpec, usize))
    requires
        i <= s@.len(),
    ensures
        format_spec_at(s@, i as int) == (r.0@, r.1 as int),
        r.1 <= s@.len(),
{
    let (fill, align, p) = parse_fill_align(s, i);
    let (sign, p) = parse_sign(s, p);
    let mut p = p;
    // alternate form and zero padding
    let alternate = next_is(s, p, '#');
    if alternate {
        p = p + 1;
    }
    let pad_with_zeros = next_is(s, p, '0');
    if pad_with_zeros {
        p = p + 1;
    }
    // width
    let width = match parse_count(s, p) {
        Some((c, e)) => {
            p = e;
            Some(c)
        },
        None => None,
    };
    let (percision, p) = parse_precision(s, p);
    let (kind, e) = parse_kind(s, p);
    let spec = FormatSpec { fill, align, sign, alternate, pad_with_zeros, width, percision, kind };
    (spec, e)
}

/// Parses a slot body; the position returned is where recognition stopped.
pub(crate) fn parse_slot_body(s: &[char]) -> (r: (FormatSlot, usize))
    ensures
        slot_at(s@) == (r.0@, r.1 as int),
        r.1 <= s@.len(),
{
    let (arg, p) = match parse_argument(s, 0) {
        Some((a, e)) => (Some(a), e),
        None => (None, 0),
    };
    if next_is(s, p, ':') {
        let (spec, e) = parse_format_spec(s, p + 1);
        (FormatSlot { arg, fmt_spec: Some(spec) }, e)
    } else {
        (FormatSlot { arg, fmt_spec: None }, p)
    }
}

/// Parses a slot body (the text between a slot's braces) and returns the
/// text that was left unrecognised, then the slot.
pub fn parse_fmt_spec(input: &str) -> (r: (&str, FormatSlot))
    ensures
        r.1@ == slot_at(input@).0,
        r.0@ == input@.subrange(slot_at(input@).1, input@.len() as int),
{
    let chars = to_chars(input);
    let (slot, e) = parse_slot_body(&chars);
    (input.substring_char(e, chars.len()), slot)
}

} // verus!
