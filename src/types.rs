//! The syntax tree of a template, and its mathematical model.

use vstd::prelude::*;

verus! {

/// The character used to pad a value up to its width.
pub type Fill = char;

#[derive(Debug, Clone, Copy, PartialEq, Eq, Structural)]
pub enum Align {
    Left,
    Center,
    Right,
}

#[derive(Debug, Clone, Copy, PartialEq, Eq, Structural)]
pub enum Sign {
    Positive,
    Negative,
}

/// The value to format: a named reference or a zero-based position.
#[derive(Debug, PartialEq, Eq)]
pub enum Argument {
    Identifier(String),
    Integer(usize),
}

/// A width or precision: a literal integer, or a parameter bound at format time.
#[derive(Debug, PartialEq, Eq)]
pub enum Count {
    Parameter(Argument),
    Integer(usize),
}

#[derive(Debug, PartialEq, Eq)]
pub enum Percision {
    Count(Count),
    /// The `*` form: the precision is supplied separately at format time.
    SpecifiedPercision,
}

/// The presentation kind of a slot.
#[derive(Debug, Clone, Copy, PartialEq, Eq, Structural)]
pub enum Type {
    Debug,
    DebugLowerHex,
    DebugUpperHex,
    Octal,
    LowerHex,
    UpperHex,
    Pointer,
    Binary,
    LowerExp,
    UpperExp,
    /// No kind character: the default display form.
    Plain,
}

#[derive(Debug, PartialEq, Eq)]
pub struct FormatSpec {
    pub fill: Option<Fill>,
    pub align: Option<Align>,
    pub sign: Option<Sign>,
    pub alternate: bool,
    pub pad_with_zeros: bool,
    pub width: Option<Count>,
    pub percision: Option<Percision>,
    pub kind: Type,
}

#[derive(Debug, PartialEq, Eq)]
pub struct FormatSlot {
    pub arg: Option<Argument>,
    pub fmt_spec: Option<FormatSpec>,
}

#[derive(Debug, PartialEq, Eq)]
pub enum PossibleFormatSlot {
    FormatSlot(FormatSlot),
    LeftBrace,
    RightBrace,
}

/// A parsed template: `text[0]`, `maybe_fmt[0]`, `text[1]`, ... with one
/// more text segment than slots.
#[derive(Debug, PartialEq, Eq)]
pub struct FormatString {
    pub text: Vec<String>,
    pub maybe_fmt: Vec<PossibleFormatSlot>,
}

/// Why a template was rejected; `offset` is the character index of the
/// opening brace of the offending slot.
#[derive(Debug, Clone, Copy, PartialEq, Eq, Structural)]
pub enum ParseError {
    /// The slot body is not an argument optionally followed by `:` and a specification.
    MalformedSlot { offset: usize },
    /// The slot's specification parsed, but characters were left after it.
    TrailingSlotData { offset: usize },
}

impl ParseError {
    /// A human-readable description of the error.
    pub fn message(&self) -> (r: &'static str)
        ensures
            self is MalformedSlot ==> r@ == "invalid format string: slot did not parse"@,
            self is TrailingSlotData ==> r@ == "invalid format string: slot had additional data"@,
    {
        match self {
            ParseError::MalformedSlot { .. } => "invalid format string: slot did not parse",
            ParseError::TrailingSlotData { .. } => "invalid format string: slot had additional data",
        }
    }

    /// The character index of the opening brace of the offending slot.
    pub fn offset(&self) -> (r: usize)
        ensures
            r == match self {
                ParseError::MalformedSlot { offset } => *offset,
                ParseError::TrailingSlotData { offset } => *offset,
            },
    {
        match self {
            ParseError::MalformedSlot { offset } => *offset,
            ParseError::TrailingSlotData { offset } => *offset,
        }
    }
}

// Mathematical models of the syntax tree, with text as character sequences.

pub ghost enum ArgumentView {
    Identifier(Seq<char>),
    Integer(usize),
}

pub ghost enum CountView {
    Parameter(ArgumentView),
    Integer(usize),
}

pub ghost enum PercisionView {
    Count(CountView),
    SpecifiedPercision,
}

pub ghost struct FormatSpecView {
    pub fill: Option<char>,
    pub align: Option<Align>,
    pub sign: Option<Sign>,
    pub alternate: bool,
    pub pad_with_zeros: bool,
    pub width: Option<CountView>,
    pub percision: Option<PercisionView>,
    pub kind: Type,
}

pub ghost struct FormatSlotView {
    pub arg: Option<ArgumentView>,
    pub fmt_spec: Option<FormatSpecView>,
}

pub ghost enum SlotView {
    FormatSlot(FormatSlotView),
    LeftBrace,
    RightBrace,
}

pub ghost struct FormatStringView {
    pub text: Seq<Seq<char>>,
    pub maybe_fmt: Seq<SlotView>,
}

impl View for Argument {
    type V = ArgumentView;

    open spec fn view(&self) -> ArgumentView {
        match self {
            Argument::Identifier(s) => ArgumentView::Identifier(s@),
            Argument::Integer(n) => ArgumentView::Integer(*n),
        }
    }
}

impl View for Count {
    type V = CountView;

    open spec fn view(&self) -> CountView {
        match self {
            Count::Parameter(a) => CountView::Parameter(a@),
            Count::Integer(n) => CountView::Integer(*n),
        }
    }
}

impl View for Percision {
    type V = PercisionView;

    open spec fn view(&self) -> PercisionView {
        match self {
            Percision::Count(c) => PercisionView::Count(c@),
            Percision::SpecifiedPercision => PercisionView::SpecifiedPercision,
        }
    }
}

pub open spec fn opt_view<T: View>(o: Option<T>) -> Option<T::V> {
    match o {
        Some(x) => Some(x@),
        None => None,
    }
}

impl View for FormatSpec {
    type V = FormatSpecView;

    open spec fn view(&self) -> FormatSpecView {
        FormatSpecView {
            fill: self.fill,
            align: self.align,
            sign: self.sign,
            alternate: self.alternate,
            pad_with_zeros: self.pad_with_zeros,
            width: opt_view(self.width),
            percision: opt_view(self.percision),
            kind: self.kind,
        }
    }
}

impl View for FormatSlot {
    type V = FormatSlotView;

    open spec fn view(&self) -> FormatSlotView {
        FormatSlotView { arg: opt_view(self.arg), fmt_spec: opt_view(self.fmt_spec) }
    }
}

impl View for PossibleFormatSlot {
    type V = SlotView;

    open spec fn view(&self) -> SlotView {
        match self {
            PossibleFormatSlot::FormatSlot(s) => SlotView::FormatSlot(s@),
            PossibleFormatSlot::LeftBrace => SlotView::LeftBrace,
            PossibleFormatSlot::RightBrace => SlotView::RightBrace,
        }
    }
}

pub open spec fn texts_view(v: Seq<String>) -> Seq<Seq<char>> {
    v.map_values(|s: String| s@)
}

pub open spec fn slots_view(v: Seq<PossibleFormatSlot>) -> Seq<SlotView> {
    v.map_values(|p: PossibleFormatSlot| p@)
}

impl View for FormatString {
    type V = FormatStringView;

    open spec fn view(&self) -> FormatStringView {
        FormatStringView { text: texts_view(self.text@), maybe_fmt: slots_view(self.maybe_fmt@) }
    }
}

} // verus!
