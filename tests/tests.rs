use parse_fmt_str::{
    parse_fmt_spec, parse_fmt_str, Align, Argument, Count, FormatSpec, ParseError, Percision,
    PossibleFormatSlot, Sign, Type,
};

#[test]
fn hello_fmt_str() {
    let formatstr = parse_fmt_str("Hello, {:}!").unwrap();
    assert_eq!(formatstr.text, vec!["Hello, ", "!"]);
    assert_eq!(formatstr.maybe_fmt.len(), 1);
    assert!(match &formatstr.maybe_fmt[0] {
        PossibleFormatSlot::FormatSlot(fmt) => {
            assert!(fmt.arg.is_none());
            assert!(fmt.fmt_spec.is_some());
            let fmt_spec = fmt.fmt_spec.as_ref().unwrap();
            assert!(fmt_spec.fill.is_none());
            assert!(fmt_spec.align.is_none());
            assert!(fmt_spec.sign.is_none());
            assert!(!fmt_spec.alternate);
            assert!(!fmt_spec.pad_with_zeros);
            assert!(fmt_spec.width.is_none());
            assert!(fmt_spec.percision.is_none());
            assert_eq!(fmt_spec.kind, Type::Plain);
            true
        }
        _ => false,
    });
}

#[test]
fn all_in_one() {
    let formatstr = parse_fmt_str("Hello, {argument:-^+#0wide$.*X?}!").unwrap();
    assert_eq!(formatstr.text, vec!["Hello, ", "!"]);
    assert_eq!(formatstr.maybe_fmt.len(), 1);
    assert!(match &formatstr.maybe_fmt[0] {
        PossibleFormatSlot::FormatSlot(fmt) => {
            assert!(match fmt.arg.as_ref().unwrap() {
                Argument::Identifier(str) => {
                    assert_eq!(str, "argument");
                    true
                }
                _ => false,
            });
            assert!(fmt.fmt_spec.is_some());
            let fmt_spec = fmt.fmt_spec.as_ref().unwrap();
            assert_eq!(fmt_spec.fill.as_ref().unwrap(), &'-');
            assert_eq!(fmt_spec.align.as_ref().unwrap(), &Align::Center);
            assert_eq!(fmt_spec.sign.as_ref().unwrap(), &Sign::Positive);
            assert!(fmt_spec.alternate);
            assert!(fmt_spec.pad_with_zeros);
            assert!(match fmt_spec.width.as_ref().unwrap() {
                Count::Parameter(param) => match param {
                    Argument::Identifier(wide) => wide == "wide",
                    _ => false,
                },
                _ => false,
            });
            assert_eq!(fmt_spec.percision.as_ref().unwrap(), &Percision::SpecifiedPercision);
            assert_eq!(fmt_spec.kind, Type::DebugUpperHex);
            true
        }
        _ => false,
    });
}

/// The specification of the single slot of `template`.
fn only_spec(template: &str) -> FormatSpec {
    let mut parsed = parse_fmt_str(template).unwrap();
    assert_eq!(parsed.maybe_fmt.len(), 1);
    match parsed.maybe_fmt.remove(0) {
        PossibleFormatSlot::FormatSlot(slot) => slot.fmt_spec.unwrap(),
        other => panic!("not a slot: {:?}", other),
    }
}

fn spec(fill: Option<char>, align: Option<Align>, width: Option<Count>, kind: Type) -> FormatSpec {
    FormatSpec {
        fill,
        align,
        sign: None,
        alternate: false,
        pad_with_zeros: false,
        width,
        percision: None,
        kind,
    }
}

#[test]
fn text_without_braces_is_one_segment() {
    let parsed = parse_fmt_str("plain text, no slots").unwrap();
    assert_eq!(parsed.text, vec!["plain text, no slots"]);
    assert!(parsed.maybe_fmt.is_empty());
    let empty = parse_fmt_str("").unwrap();
    assert_eq!(empty.text, vec![""]);
    assert!(empty.maybe_fmt.is_empty());
}

#[test]
fn escaped_braces_are_markers() {
    let parsed = parse_fmt_str("a{{b}}c").unwrap();
    assert_eq!(parsed.text, vec!["a", "b", "c"]);
    assert_eq!(parsed.maybe_fmt, vec![PossibleFormatSlot::LeftBrace, PossibleFormatSlot::RightBrace]);
    let only = parse_fmt_str("{{}}").unwrap();
    assert_eq!(only.text, vec!["", "", ""]);
    assert_eq!(only.maybe_fmt, vec![PossibleFormatSlot::LeftBrace, PossibleFormatSlot::RightBrace]);
}

#[test]
fn lone_right_brace_is_text() {
    let parsed = parse_fmt_str("a}b").unwrap();
    assert_eq!(parsed.text, vec!["a}b"]);
    assert!(parsed.maybe_fmt.is_empty());
}

#[test]
fn unterminated_or_empty_brace_ends_as_text() {
    let open = parse_fmt_str("ab{cd").unwrap();
    assert_eq!(open.text, vec!["abcd"]);
    assert!(open.maybe_fmt.is_empty());
    let empty = parse_fmt_str("x{0}ab{}cd{1}").unwrap();
    assert_eq!(empty.text, vec!["x", "abcd{1}"]);
    assert_eq!(empty.maybe_fmt.len(), 1);
}

#[test]
fn fields_out_of_order_fail() {
    assert_eq!(parse_fmt_str("{:#+}"), Err(ParseError::TrailingSlotData { offset: 0 }));
    assert_eq!(parse_fmt_str("ab{:+*^}"), Err(ParseError::TrailingSlotData { offset: 2 }));
    assert_eq!(parse_fmt_str("{:x0}"), Err(ParseError::TrailingSlotData { offset: 0 }));
}

#[test]
fn fill_and_align() {
    assert_eq!(only_spec("{:*^}"), spec(Some('*'), Some(Align::Center), None, Type::Plain));
    assert_eq!(only_spec("{:>}"), spec(None, Some(Align::Right), None, Type::Plain));
    assert_eq!(only_spec("{:5}"), spec(None, None, Some(Count::Integer(5)), Type::Plain));
    assert_eq!(only_spec("{:<<}"), spec(Some('<'), Some(Align::Left), None, Type::Plain));
}

#[test]
fn debug_hex_kinds() {
    assert_eq!(only_spec("{:x?}").kind, Type::DebugLowerHex);
    assert_eq!(only_spec("{:X?}").kind, Type::DebugUpperHex);
    assert_eq!(only_spec("{:x}").kind, Type::LowerHex);
    assert_eq!(only_spec("{:X}").kind, Type::UpperHex);
    assert_eq!(only_spec("{:?}").kind, Type::Debug);
    assert_eq!(only_spec("{:o}").kind, Type::Octal);
    assert_eq!(only_spec("{:p}").kind, Type::Pointer);
    assert_eq!(only_spec("{:b}").kind, Type::Binary);
    assert_eq!(only_spec("{:e}").kind, Type::LowerExp);
    assert_eq!(only_spec("{:E}").kind, Type::UpperExp);
}

#[test]
fn count_parameter_or_literal() {
    let wide = Count::Parameter(Argument::Identifier("wide".to_string()));
    assert_eq!(only_spec("{:wide$}").width, Some(wide));
    assert_eq!(only_spec("{:10}").width, Some(Count::Integer(10)));
    assert_eq!(only_spec("{:.5}").percision, Some(Percision::Count(Count::Integer(5))));
    let p = Count::Parameter(Argument::Identifier("p".to_string()));
    assert_eq!(only_spec("{:.p$}").percision, Some(Percision::Count(p)));
    assert_eq!(parse_fmt_str("{:wide}"), Err(ParseError::TrailingSlotData { offset: 0 }));
}

#[test]
fn malformed_precision_is_left_in_place() {
    assert_eq!(parse_fmt_str("{:.}"), Err(ParseError::TrailingSlotData { offset: 0 }));
    let (rest, slot) = parse_fmt_spec(":5.!");
    assert_eq!(rest, ".!");
    assert_eq!(slot.fmt_spec.unwrap().percision, None);
}

#[test]
fn trailing_text_after_kind_fails() {
    assert_eq!(parse_fmt_str("Hi {:x!}"), Err(ParseError::TrailingSlotData { offset: 3 }));
    assert_eq!(parse_fmt_str("{:?z}"), Err(ParseError::TrailingSlotData { offset: 0 }));
}

#[test]
fn malformed_slot_without_spec() {
    assert_eq!(parse_fmt_str("{a b}"), Err(ParseError::MalformedSlot { offset: 0 }));
    assert_eq!(parse_fmt_str("xy{!}"), Err(ParseError::MalformedSlot { offset: 2 }));
    assert_eq!(
        parse_fmt_str("{99999999999999999999999}"),
        Err(ParseError::MalformedSlot { offset: 0 })
    );
}

#[test]
fn positional_and_named_arguments() {
    let parsed = parse_fmt_str("{0}{name}{12:}").unwrap();
    assert_eq!(parsed.text, vec!["", "", "", ""]);
    let args: Vec<Option<Argument>> = parsed
        .maybe_fmt
        .into_iter()
        .map(|p| match p {
            PossibleFormatSlot::FormatSlot(s) => s.arg,
            _ => None,
        })
        .collect();
    assert_eq!(
        args,
        vec![
            Some(Argument::Integer(0)),
            Some(Argument::Identifier("name".to_string())),
            Some(Argument::Integer(12)),
        ]
    );
}

#[test]
fn identifiers_follow_xid() {
    let (rest, slot) = parse_fmt_spec("é_1x:");
    assert_eq!(rest, "");
    assert_eq!(slot.arg, Some(Argument::Identifier("é_1x".to_string())));
    assert_eq!(parse_fmt_str("{_x}"), Err(ParseError::MalformedSlot { offset: 0 }));
    let (rest, slot) = parse_fmt_spec("arg:<3!");
    assert_eq!(rest, "!");
    assert_eq!(slot.arg, Some(Argument::Identifier("arg".to_string())));
    let s = slot.fmt_spec.unwrap();
    assert_eq!(s.align, Some(Align::Left));
    assert_eq!(s.width, Some(Count::Integer(3)));
}

#[test]
fn sign_and_flags() {
    let s = only_spec("{:-#08.3e}");
    assert_eq!(s.sign, Some(Sign::Negative));
    assert!(s.alternate);
    assert!(s.pad_with_zeros);
    assert_eq!(s.width, Some(Count::Integer(8)));
    assert_eq!(s.percision, Some(Percision::Count(Count::Integer(3))));
    assert_eq!(s.kind, Type::LowerExp);
}

#[test]
fn error_message_and_offset() {
    let e = parse_fmt_str("ñé{:x!}").unwrap_err();
    assert_eq!(e.offset(), 2);
    assert_eq!(e.message(), "invalid format string: slot had additional data");
    let m = parse_fmt_str("{a b}").unwrap_err();
    assert_eq!(m.offset(), 0);
    assert_eq!(m.message(), "invalid format string: slot did not parse");
}

#[test]
fn remainder_is_counted_in_characters() {
    let (rest, slot) = parse_fmt_spec("é:x?ü");
    assert_eq!(rest, "ü");
    assert_eq!(slot.fmt_spec.unwrap().kind, Type::DebugLowerHex);
    let parsed = parse_fmt_str("ü{{ñ").unwrap();
    assert_eq!(parsed.text, vec!["ü", "ñ"]);
}
