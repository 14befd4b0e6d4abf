//! Properties of the parser that relate its rules to one another.

use vstd::prelude::*;
use crate::types::{FormatStringView, ParseError, SlotView};
use crate::slot::slot_at;
use crate::template::{
    close_brace_from, lemma_scan_well_formed, only_text, parse_template, prepend_slot,
    prepend_text, scan_from, well_formed,
};

verus! {

pub open spec fn is_brace(c: char) -> bool {
    c == '{' || c == '}'
}

pub open spec fn brace_free(t: Seq<char>) -> bool {
    forall|k: int| 0 <= k < t.len() ==> !is_brace(#[trigger] t[k])
}

/// The literal character a slot stands for: a brace for an escaped brace,
/// nothing for a format slot.
pub open spec fn slot_literal(sl: SlotView) -> Seq<char> {
    match sl {
        SlotView::LeftBrace => seq!['{'],
        SlotView::RightBrace => seq!['}'],
        SlotView::FormatSlot(_) => Seq::empty(),
    }
}

/// The literal text that segments and slots spell out, in order.
pub open spec fn literal_text(text: Seq<Seq<char>>, slots: Seq<SlotView>) -> Seq<char>
    decreases slots.len(),
{
    if text.len() == 0 {
        Seq::empty()
    } else if slots.len() == 0 {
        text[0]
    } else {
        text[0] + slot_literal(slots[0]) + literal_text(text.drop_first(), slots.drop_first())
    }
}

proof fn lemma_prepend_text_twice(a: Seq<char>, b: Seq<char>, r: Result<FormatStringView, ParseError>)
    requires
        r matches Ok(v) ==> well_formed(v),
    ensures
        prepend_text(a, prepend_text(b, r)) == prepend_text(a + b, r),
{
    if let Ok(v) = r {
        assert(a + (b + v.text[0]) =~= a + b + v.text[0]);
        assert(v.text.update(0, b + v.text[0]).update(0, a + (b + v.text[0])) =~= v.text.update(
            0,
            a + b + v.text[0],
        ));
    }
}

/// Scanning over characters that are not braces only adds them to the
/// current segment.
proof fn lemma_plain_run(s: Seq<char>, i: int, k: int)
    requires
        0 <= i <= k <= s.len(),
        forall|m: int| i <= m < k ==> !is_brace(#[trigger] s[m]),
    ensures
        scan_from(s, i) == prepend_text(s.subrange(i, k), scan_from(s, k)),
    decreases k - i,
{
    lemma_scan_well_formed(s, k);
    if i == k {
        if let Ok(v) = scan_from(s, k) {
            assert(Seq::<char>::empty() + v.text[0] =~= v.text[0]);
            assert(v.text.update(0, v.text[0]) =~= v.text);
        }
        assert(s.subrange(i, k) =~= Seq::<char>::empty());
    } else {
        lemma_plain_run(s, i + 1, k);
        lemma_prepend_text_twice(seq![s[i]], s.subrange(i + 1, k), scan_from(s, k));
        assert(seq![s[i]] + s.subrange(i + 1, k) =~= s.subrange(i, k));
    }
}

proof fn lemma_close_brace(s: Seq<char>, j: int, k: int)
    requires
        0 <= j <= k < s.len(),
        s[k] == '}',
        forall|m: int| j <= m < k ==> s[m] != '}',
    ensures
        close_brace_from(s, j) == k,
    decreases k - j,
{
    if j < k {
        lemma_close_brace(s, j + 1, k);
    }
}

/// A template without braces parses to exactly one segment, the template
/// itself, and no slot.
pub proof fn law_text_without_braces(s: Seq<char>)
    requires
        brace_free(s),
    ensures
        parse_template(s) == Ok::<FormatStringView, ParseError>(only_text(s)),
{
    lemma_plain_run(s, 0, s.len() as int);
    assert(s.subrange(0, s.len() as int) =~= s);
    assert(s + Seq::<char>::empty() =~= s);
    assert(seq![Seq::<char>::empty()].update(0, s + Seq::<char>::empty()) =~= seq![s]);
}

/// A doubled brace after literal text never opens a slot: the text before it
/// is the current segment, the pair becomes one brace marker, and scanning
/// resumes right after the pair. The marker spells out one literal brace.
pub proof fn law_escaped_brace(t: Seq<char>, b: char, u: Seq<char>)
    requires
        brace_free(t),
        is_brace(b),
    ensures
        ({
            let s = t + seq![b, b] + u;
            let mark = if b == '{' {
                SlotView::LeftBrace
            } else {
                SlotView::RightBrace
            };
            &&& parse_template(s) == prepend_text(t, prepend_slot(mark, scan_from(s, t.len() + 2int)))
            &&& scan_from(s, t.len() + 2int) matches Ok(w) ==> parse_template(s) matches Ok(v)
                && literal_text(v.text, v.maybe_fmt) == t + seq![b] + literal_text(w.text, w.maybe_fmt)
        }),
{
    let s = t + seq![b, b] + u;
    let k = t.len() + 2int;
    lemma_plain_run(s, 0, t.len() as int);
    assert(s.subrange(0, t.len() as int) =~= t);
    lemma_scan_well_formed(s, k);
    if let Ok(w) = scan_from(s, k) {
        let mark = if b == '{' {
            SlotView::LeftBrace
        } else {
            SlotView::RightBrace
        };
        let m = prepend_slot(mark, scan_from(s, k))->Ok_0;
        let v = prepend_text(t, prepend_slot(mark, scan_from(s, k)))->Ok_0;
        assert(m.text.drop_first() =~= w.text);
        assert(m.maybe_fmt.drop_first() =~= w.maybe_fmt);
        assert(literal_text(m.text, m.maybe_fmt) =~= seq![b] + literal_text(w.text, w.maybe_fmt));
        assert(v.text.drop_first() =~= w.text);
        assert(v.maybe_fmt == m.maybe_fmt);
        assert(literal_text(v.text, v.maybe_fmt) =~= t + seq![b] + literal_text(w.text, w.maybe_fmt));
    }
}

/// A slot whose body the grammar does not consume to its end rejects the
/// whole template, at the offset of the slot's opening brace.
pub proof fn law_incomplete_slot_fails(t: Seq<char>, body: Seq<char>, u: Seq<char>)
    requires
        brace_free(t),
        body.len() > 0,
        body[0] != '{',
        forall|k: int| 0 <= k < body.len() ==> #[trigger] body[k] != '}',
        slot_at(body).1 < body.len(),
    ensures
        parse_template(t + seq!['{'] + body + seq!['}'] + u) == Err::<FormatStringView, ParseError>(
            if slot_at(body).0.fmt_spec is None {
                ParseError::MalformedSlot { offset: t.len() as usize }
            } else {
                ParseError::TrailingSlotData { offset: t.len() as usize }
            },
        ),
{
    let s = t + seq!['{'] + body + seq!['}'] + u;
    let i = t.len() as int;
    let k = i + 1 + body.len();
    lemma_plain_run(s, 0, i);
    lemma_close_brace(s, i + 1, k);
    assert(s.subrange(i + 1, k) =~= body);
}

/// The fields of a specification come in a fixed order: a sign after the
/// alternate flag `#` is not read as a sign, and rejects the template.
pub proof fn law_sign_after_alternate_fails(t: Seq<char>, g: char, w: Seq<char>, u: Seq<char>)
    requires
        brace_free(t),
        g == '+' || g == '-',
        forall|k: int| 0 <= k < w.len() ==> #[trigger] w[k] != '}',
    ensures
        parse_template(t + seq!['{'] + (seq![':', '#', g] + w) + seq!['}'] + u) == Err::<
            FormatStringView,
            ParseError,
        >(ParseError::TrailingSlotData { offset: t.len() as usize }),
{
    let body = seq![':', '#', g] + w;
    assert(body[0] == ':' && body[1] == '#' && body[2] == g);
    assert forall|k: int| 0 <= k < body.len() implies #[trigger] body[k] != '}' by {
        if k >= 3 {
            assert(body[k] == w[k - 3]);
        }
    }
    assert(slot_at(body).1 == 2);
    law_incomplete_slot_fails(t, body, u);
}

} // verus!
