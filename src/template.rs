//! The template scanner: literal text, escaped braces and slots.

use vstd::prelude::*;
use crate::types::{
    FormatSlot, FormatString, FormatStringView, ParseError, PossibleFormatSlot, SlotView,
    slots_view, texts_view,
};
use crate::slot::{parse_slot_body, slot_at};
use crate::text::{push_char, push_range, to_chars};
use vstd::slice::slice_subrange;

verus! {

// ---------------------------------------------------------------------------
// The scanner, over characters: literal text, escaped braces and slots.
// ---------------------------------------------------------------------------

/// First position at or after `j` that holds `}`; the length if there is none.
pub open spec fn close_brace_from(s: Seq<char>, j: int) -> int
    decreases s.len() - j,
{
    if 0 <= j < s.len() {
        if s[j] == '}' {
            j
        } else {
            close_brace_from(s, j + 1)
        }
    } else {
        s.len() as int
    }
}

/// A template that is one literal segment and no slot.
pub open spec fn only_text(t: Seq<char>) -> FormatStringView {
    FormatStringView { text: seq![t], maybe_fmt: Seq::empty() }
}

/// Puts literal text in front of the first segment of a parse.
pub open spec fn prepend_text(t: Seq<char>, r: Result<FormatStringView, ParseError>) -> Result<
    FormatStringView,
    ParseError,
> {
    match r {
        Ok(v) => Ok(FormatStringView { text: v.text.update(0, t + v.text[0]), maybe_fmt: v.maybe_fmt }),
        Err(e) => Err(e),
    }
}

/// Puts a slot, preceded by an empty segment, in front of a parse.
pub open spec fn prepend_slot(sl: SlotView, r: Result<FormatStringView, ParseError>) -> Result<
    FormatStringView,
    ParseError,
> {
    match r {
        Ok(v) => Ok(
            FormatStringView {
                text: seq![Seq::<char>::empty()] + v.text,
                maybe_fmt: seq![sl] + v.maybe_fmt,
            },
        ),
        Err(e) => Err(e),
    }
}

/// The parse of the template `s` from position `i` on. An opening brace
/// without a closing one, or with nothing before it, ends the parse: the text
/// after the braces joins the current segment. A lone `}` is literal text.
pub open spec fn scan_from(s: Seq<char>, i: int) -> Result<FormatStringView, ParseError>
    decreases s.len() - i,
{
    if i < 0 || i >= s.len() {
        Ok(only_text(Seq::empty()))
    } else if i + 1 < s.len() && s[i] == '{' && s[i + 1] == '{' {
        prepend_slot(SlotView::LeftBrace, scan_from(s, i + 2))
    } else if i + 1 < s.len() && s[i] == '}' && s[i + 1] == '}' {
        prepend_slot(SlotView::RightBrace, scan_from(s, i + 2))
    } else if s[i] == '{' {
        let j = close_brace_from(s, i + 1);
        if j >= s.len() {
            Ok(only_text(s.subrange(i + 1, s.len() as int)))
        } else if j <= i + 1 {
            Ok(only_text(s.subrange(i + 2, s.len() as int)))
        } else {
            let body = s.subrange(i + 1, j);
            let (slot, e) = slot_at(body);
            if e < body.len() {
                if slot.fmt_spec is None {
                    Err(ParseError::MalformedSlot { offset: i as usize })
                } else {
                    Err(ParseError::TrailingSlotData { offset: i as usize })
                }
            } else {
                prepend_slot(SlotView::FormatSlot(slot), scan_from(s, j + 1))
            }
        }
    } else {
        prepend_text(seq![s[i]], scan_from(s, i + 1))
    }
}

/// The parse of a whole template.
pub open spec fn parse_template(s: Seq<char>) -> Result<FormatStringView, ParseError> {
    scan_from(s, 0)
}

/// Whether a parse has the shape of a template: one more segment than slots.
pub open spec fn well_formed(v: FormatStringView) -> bool {
    v.text.len() == v.maybe_fmt.len() + 1
}

/// The parse of a whole template, with segments `text` and slots `slots`
/// already emitted and `cur` the segment being built, when `r` is the parse of
/// what is left.
pub open spec fn emit(
    text: Seq<Seq<char>>,
    slots: Seq<SlotView>,
    cur: Seq<char>,
    r: Result<FormatStringView, ParseError>,
) -> Result<FormatStringView, ParseError> {
    match r {
        Ok(v) => Ok(
            FormatStringView {
                text: text + seq![cur + v.text[0]] + v.text.drop_first(),
                maybe_fmt: slots + v.maybe_fmt,
            },
        ),
        Err(e) => Err(e),
    }
}

pub(crate) proof fn lemma_scan_well_formed(s: Seq<char>, i: int)
    ensures
        scan_from(s, i) matches Ok(v) ==> well_formed(v),
    decreases s.len() - i,
{
    if 0 <= i < s.len() {
        if i + 1 < s.len() && (s[i] == '{' || s[i] == '}') && s[i + 1] == s[i] {
            lemma_scan_well_formed(s, i + 2);
        } else if s[i] == '{' {
            let j = close_brace_from(s, i + 1);
            if i + 1 < j < s.len() {
                lemma_scan_well_formed(s, j + 1);
            }
        } else {
            lemma_scan_well_formed(s, i + 1);
        }
    }
}

proof fn lemma_emit_text(
    text: Seq<Seq<char>>,
    slots: Seq<SlotView>,
    cur: Seq<char>,
    t: Seq<char>,
    r: Result<FormatStringView, ParseError>,
)
    requires
        r matches Ok(v) ==> well_formed(v),
    ensures
        emit(text, slots, cur, prepend_text(t, r)) == emit(text, slots, cur + t, r),
{
    if let Ok(v) = r {
        assert(cur + (t + v.text[0]) =~= cur + t + v.text[0]);
        assert(v.text.update(0, t + v.text[0]).drop_first() =~= v.text.drop_first());
        let a = emit(text, slots, cur, prepend_text(t, r))->Ok_0;
        let b = emit(text, slots, cur + t, r)->Ok_0;
        assert(a.text =~= b.text);
    }
}

proof fn lemma_emit_slot(
    text: Seq<Seq<char>>,
    slots: Seq<SlotView>,
    cur: Seq<char>,
    sl: SlotView,
    r: Result<FormatStringView, ParseError>,
)
    requires
        r matches Ok(v) ==> well_formed(v),
    ensures
        emit(text, slots, cur, prepend_slot(sl, r)) == emit(
            text.push(cur),
            slots.push(sl),
            Seq::empty(),
            r,
        ),
{
    if let Ok(v) = r {
        assert(cur + Seq::<char>::empty() =~= cur);
        assert(Seq::<char>::empty() + v.text[0] =~= v.text[0]);
        let a = emit(text, slots, cur, prepend_slot(sl, r))->Ok_0;
        let b = emit(text.push(cur), slots.push(sl), Seq::empty(), r)->Ok_0;
        assert((seq![Seq::<char>::empty()] + v.text).drop_first() =~= v.text);
        assert(v.text =~= seq![v.text[0]] + v.text.drop_first());
        assert(a.text =~= b.text);
        assert(a.maybe_fmt =~= b.maybe_fmt);
    }
}

proof fn lemma_emit_end(text: Seq<Seq<char>>, slots: Seq<SlotView>, cur: Seq<char>, t: Seq<char>)
    ensures
        emit(text, slots, cur, Ok(only_text(t))) == Ok::<FormatStringView, ParseError>(
            FormatStringView { text: text.push(cur + t), maybe_fmt: slots },
        ),
{
    let a = emit(text, slots, cur, Ok(only_text(t)))->Ok_0;
    assert(a.text =~= text.push(cur + t));
    assert(a.maybe_fmt =~= slots);
}

/// Position of the first `}` at or after `j`, or `n` if there is none.
fn find_close(input: &[char], j: usize) -> (r: usize)
    requires
        j <= input@.len(),
    ensures
        j <= r <= input@.len(),
        r == close_brace_from(input@, j as int),
{
    let n = input.len();
    let mut k: usize = j;
    loop
        invariant
            n == input@.len(),
            j <= k <= n,
            close_brace_from(input@, j as int) == close_brace_from(input@, k as int),
        ensures
            j <= k <= n,
            close_brace_from(input@, j as int) == k,
        decreases n - k,
    {
        if k >= n || input[k] == '}' {
            break;
        }
        k = k + 1;
    }
    k
}

/// Closes the current segment and appends a slot after it.
fn push_slot(text: &mut Vec<String>, slots: &mut Vec<PossibleFormatSlot>, cur: String, mark: PossibleFormatSlot)
    ensures
        texts_view(final(text)@) == texts_view(old(text)@).push(cur@),
        slots_view(final(slots)@) == slots_view(old(slots)@).push(mark@),
{
    let ghost c = cur@;
    let ghost m = mark@;
    text.push(cur);
    slots.push(mark);
    assert(texts_view(text@) =~= texts_view(old(text)@).push(c));
    assert(slots_view(slots@) =~= slots_view(old(slots)@).push(m));
}

/// Closes the current segment as the last one.
fn finish(text: Vec<String>, slots: Vec<PossibleFormatSlot>, cur: String) -> (r: FormatString)
    ensures
        r@ == (FormatStringView { text: texts_view(text@).push(cur@), maybe_fmt: slots_view(slots@) }),
{
    let ghost c = cur@;
    let ghost t0 = text@;
    let mut text = text;
    text.push(cur);
    assert(texts_view(text@) =~= texts_view(t0).push(c));
    FormatString { text, maybe_fmt: slots }
}

/// Parses a template into its literal segments and slots.
#[verifier::rlimit(40)]
pub fn parse_fmt_str(input: &str) -> (r: Result<FormatString, ParseError>)
    ensures
        match r {
            Ok(v) => parse_template(input@) == Ok::<FormatStringView, ParseError>(v@),
            Err(e) => parse_template(input@) == Err::<FormatStringView, ParseError>(e),
        },
        r matches Ok(v) ==> well_formed(v@),
{
    let ghost s = input@;
    proof {
        lemma_scan_well_formed(s, 0);
    }
    let chars = to_chars(input);
    let n = chars.len();
    let mut text: Vec<String> = Vec::new();
    let mut slots: Vec<PossibleFormatSlot> = Vec::new();
    let mut cur = String::new();
    let mut i: usize = 0;
    proof {
        lemma_scan_well_formed(s, 0);
        lemma_emit_end(Seq::empty(), Seq::empty(), Seq::empty(), Seq::empty());
        if let Ok(v) = scan_from(s, 0) {
            assert(Seq::<Seq<char>>::empty() + seq![Seq::<char>::empty() + v.text[0]]
                + v.text.drop_first() =~= v.text);
            assert(Seq::<SlotView>::empty() + v.maybe_fmt =~= v.maybe_fmt);
        }
        assert(texts_view(text@) =~= Seq::empty());
        assert(slots_view(slots@) =~= Seq::empty());
    }
    while i < n
        invariant
            s == input@,
            s == chars@,
            n == s.len(),
            i <= n,
            parse_template(s) == emit(texts_view(text@), slots_view(slots@), cur@, scan_from(s, i as int)),
            parse_template(s) matches Ok(v) ==> well_formed(v),
        decreases n - i,
    {
        let c = chars[i];
        if i + 1 < n && (c == '{' || c == '}') && chars[i + 1] == c {
            let mark = if c == '{' {
                PossibleFormatSlot::LeftBrace
            } else {
                PossibleFormatSlot::RightBrace
            };
            proof {
                lemma_scan_well_formed(s, i + 2);
                lemma_emit_slot(texts_view(text@), slots_view(slots@), cur@, mark@, scan_from(s, i + 2));
            }
            push_slot(&mut text, &mut slots, cur, mark);
            cur = String::new();
            i = i + 2;
        } else if c == '{' {
            let j = find_close(&chars, i + 1);
            if j >= n || j == i + 1 {
                let from = if j >= n {
                    i + 1
                } else {
                    i + 2
                };
                proof {
                    lemma_emit_end(texts_view(text@), slots_view(slots@), cur@, s.subrange(from as int, n as int));
                }
                push_range(&mut cur, &chars, from, n);
                return Ok(finish(text, slots, cur));
            }
            let body = slice_subrange(chars.as_slice(), i + 1, j);
            let (slot, e) = parse_slot_body(body);
            if e < j - i - 1 {
                if slot.fmt_spec.is_none() {
                    return Err(ParseError::MalformedSlot { offset: i });
                } else {
                    return Err(ParseError::TrailingSlotData { offset: i });
                }
            }
            let mark = PossibleFormatSlot::FormatSlot(slot);
            proof {
                lemma_scan_well_formed(s, j + 1);
                lemma_emit_slot(texts_view(text@), slots_view(slots@), cur@, mark@, scan_from(s, j + 1));
            }
            push_slot(&mut text, &mut slots, cur, mark);
            cur = String::new();
            i = j + 1;
        } else {
            let ghost old_cur = cur@;
            proof {
                lemma_scan_well_formed(s, i + 1);
                lemma_emit_text(texts_view(text@), slots_view(slots@), cur@, seq![c], scan_from(s, i + 1));
            }
            push_char(&mut cur, c);
            assert(cur@ =~= old_cur + seq![c]);
            i = i + 1;
        }
    }
    proof {
        lemma_emit_end(texts_view(text@), slots_view(slots@), cur@, Seq::empty());
        assert(cur@ + Seq::<char>::empty() =~= cur@);
    }
    Ok(finish(text, slots, cur))
}

} // verus!
