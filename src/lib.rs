//! Parser for `format!`-style template strings: literal text runs
//! interleaved with brace-delimited slots, each slot carrying an optional
//! argument reference and an optional format specification.

mod types;
mod text;
mod xid;
mod slot;
mod template;
mod laws;

pub use types::{
    opt_view, slots_view, texts_view, Align, Argument, ArgumentView, Count, CountView, Fill,
    FormatSlot, FormatSlotView, FormatSpec, FormatSpecView, FormatString, FormatStringView,
    ParseError, Percision, PercisionView, PossibleFormatSlot, Sign, SlotView, Type,
};
pub use xid::{id_continue, id_start, is_ascii_letter, xid_continue, xid_start};
pub use slot::{
    align_of, argument_at, char_at, count_at, decimal_value, digit_run_end, fill_align_at,
    format_spec_at, ident_run_end, identifier_at, integer_at, is_digit, kind_at, parse_fmt_spec,
    precision_at, sign_at, slot_at,
};
pub use template::{
    close_brace_from, emit, only_text, parse_fmt_str, parse_template, prepend_slot, prepend_text,
    scan_from, well_formed,
};
pub use laws::{
    brace_free, is_brace, law_escaped_brace, literal_text, slot_literal, law_incomplete_slot_fails,
    law_sign_after_alternate_fails, law_text_without_braces,
};
