use bytecheck_repr::repr::{DirectiveError, DirectiveItem, ErrorKind, Repr};
use bytecheck_repr::vocab::{BaseRepr, IntRepr, Modifier};
use proc_macro2::{Span, TokenStream, TokenTree};

fn item(ident: &str, args: &[&str]) -> DirectiveItem {
    item_at(ident, args, Span::call_site())
}

fn item_at(ident: &str, args: &[&str], span: Span) -> DirectiveItem {
    DirectiveItem {
        ident: ident.to_string(),
        args: args.iter().map(|a| a.to_string()).collect(),
        span,
    }
}

fn kind(r: Result<(), DirectiveError>) -> Option<ErrorKind> {
    match r {
        Ok(()) => None,
        Err(e) => Some(e.kind),
    }
}

fn record(items: &[(&str, &[&str])]) -> (Repr, Vec<Option<ErrorKind>>) {
    let mut repr = Repr::default();
    let mut results = Vec::new();
    for (ident, args) in items {
        results.push(kind(repr.parse_list_meta(item(ident, args))));
    }
    (repr, results)
}

fn spans_of(source: &str) -> Vec<Span> {
    let stream: TokenStream = source.parse().unwrap();
    stream
        .into_iter()
        .filter_map(|t| match t {
            TokenTree::Ident(i) => Some(i.span()),
            _ => None,
        })
        .collect()
}

const ALL_BASES: [(&str, BaseRepr); 12] = [
    ("transparent", BaseRepr::Transparent),
    ("C", BaseRepr::C),
    ("i8", BaseRepr::Int(IntRepr::I8)),
    ("i16", BaseRepr::Int(IntRepr::I16)),
    ("i32", BaseRepr::Int(IntRepr::I32)),
    ("i64", BaseRepr::Int(IntRepr::I64)),
    ("i128", BaseRepr::Int(IntRepr::I128)),
    ("u8", BaseRepr::Int(IntRepr::U8)),
    ("u16", BaseRepr::Int(IntRepr::U16)),
    ("u32", BaseRepr::Int(IntRepr::U32)),
    ("u64", BaseRepr::Int(IntRepr::U64)),
    ("u128", BaseRepr::Int(IntRepr::U128)),
];

#[test]
fn empty_model_renders_nothing() {
    let repr = Repr::default();
    let (base, modifier) = repr.current_state();
    assert_eq!(base, None);
    assert!(modifier.is_none());
    assert_eq!(repr.render(), "");
}

#[test]
fn one_base_and_one_modifier_both_recorded() {
    let (repr, results) = record(&[("u16", &[]), ("packed", &[])]);
    assert_eq!(results, vec![None, None]);
    let (base, modifier) = repr.current_state();
    assert_eq!(base, Some(BaseRepr::Int(IntRepr::U16)));
    assert_eq!(modifier, Some(&Modifier::Packed));
    assert_eq!(repr.render(), "u16, packed,");
}

#[test]
fn only_a_modifier_recorded() {
    let (repr, results) = record(&[("align", &["8"])]);
    assert_eq!(results, vec![None]);
    let (base, modifier) = repr.current_state();
    assert_eq!(base, None);
    assert_eq!(modifier, Some(&Modifier::Align("8".to_string())));
    assert_eq!(repr.render(), "align(8),");
}

#[test]
fn every_base_spelling_round_trips() {
    for (name, expected) in ALL_BASES {
        let (repr, results) = record(&[(name, &[])]);
        assert_eq!(results, vec![None]);
        assert_eq!(repr.current_state().0, Some(expected));
        assert!(repr.current_state().1.is_none());
        assert_eq!(repr.render(), format!("{},", name));
        assert_eq!(expected.name(), name);
    }
}

#[test]
fn modifiers_round_trip() {
    let (repr, _) = record(&[("packed", &[])]);
    assert_eq!(repr.render(), "packed,");
    let (repr, _) = record(&[("align", &["16"])]);
    assert_eq!(repr.render(), "align(16),");
    let (repr, _) = record(&[("align", &["0x10"])]);
    assert_eq!(repr.render(), "align(0x10),");
}

#[test]
fn second_base_is_rejected_and_first_kept() {
    let (repr, results) = record(&[("C", &[]), ("u8", &[])]);
    assert_eq!(results, vec![None, Some(ErrorKind::DuplicateBaseRepr)]);
    assert_eq!(repr.current_state().0, Some(BaseRepr::C));

    let (repr, results) = record(&[("u8", &[]), ("C", &[])]);
    assert_eq!(results, vec![None, Some(ErrorKind::DuplicateBaseRepr)]);
    assert_eq!(repr.current_state().0, Some(BaseRepr::Int(IntRepr::U8)));
}

#[test]
fn same_base_twice_is_rejected() {
    let (repr, results) = record(&[("transparent", &[]), ("transparent", &[])]);
    assert_eq!(results, vec![None, Some(ErrorKind::DuplicateBaseRepr)]);
    assert_eq!(repr.render(), "transparent,");
}

#[test]
fn second_modifier_is_rejected() {
    let pairs: [(&str, &[&str], &str, &[&str]); 4] = [
        ("packed", &[], "packed", &[]),
        ("packed", &[], "align", &["4"]),
        ("align", &["4"], "packed", &[]),
        ("align", &["4"], "align", &["8"]),
    ];
    for (a, a_args, b, b_args) in pairs {
        let (repr, results) = record(&[(a, a_args), (b, b_args)]);
        assert_eq!(results, vec![None, Some(ErrorKind::DuplicateModifier)]);
        let expected = if a == "packed" {
            Modifier::Packed
        } else {
            Modifier::Align("4".to_string())
        };
        assert_eq!(repr.current_state().1, Some(&expected));
    }
}

#[test]
fn align_without_argument_is_malformed() {
    let (repr, results) = record(&[("align", &[])]);
    assert_eq!(results, vec![Some(ErrorKind::MalformedAlignArgument)]);
    assert!(repr.current_state().1.is_none());
}

#[test]
fn align_with_two_arguments_is_malformed() {
    let (repr, results) = record(&[("align", &["4", "8"])]);
    assert_eq!(results, vec![Some(ErrorKind::MalformedAlignArgument)]);
    assert!(repr.current_state().1.is_none());
}

#[test]
fn align_with_non_literal_is_malformed() {
    for arg in ["x", "4 8", "1.5", "\"4\"", ""] {
        let (_, results) = record(&[("align", &[arg])]);
        assert_eq!(results, vec![Some(ErrorKind::MalformedAlignArgument)], "{}", arg);
    }
}

#[test]
fn align_stores_its_literal() {
    let (repr, results) = record(&[("align", &["4"])]);
    assert_eq!(results, vec![None]);
    assert_eq!(repr.current_state().1, Some(&Modifier::Align("4".to_string())));
}

#[test]
fn align_value_is_not_checked() {
    let (repr, results) = record(&[("align", &["0"])]);
    assert_eq!(results, vec![None]);
    assert_eq!(repr.render(), "align(0),");
    let (_, results) = record(&[("align", &["3u32"])]);
    assert_eq!(results, vec![None]);
}

#[test]
fn unknown_identifier_is_unrecognized() {
    for name in ["weird", "c", "U32", "Transparent", "u3", "u322", "usize", ""] {
        let (repr, results) = record(&[(name, &[])]);
        assert_eq!(results, vec![Some(ErrorKind::UnrecognizedDirective)], "{}", name);
        assert_eq!(repr.render(), "");
    }
}

fn error_of(ident: &str, args: &[&str], before: &[(&str, &[&str])]) -> DirectiveError {
    let (mut repr, _) = record(before);
    repr.parse_list_meta(item(ident, args)).unwrap_err()
}

#[test]
fn unrecognized_message_lists_every_base_spelling() {
    let err = error_of("weird", &[], &[]);
    let message = err.message();
    for (name, _) in ALL_BASES {
        assert!(message.contains(name), "{}", name);
    }
}

#[test]
fn messages_of_each_error() {
    assert_eq!(
        error_of("u8", &[], &[("C", &[])]).message(),
        "only one repr may be specified"
    );
    assert_eq!(
        error_of("packed", &[], &[("align", &["2"])]).message(),
        "only one repr modifier may be specified"
    );
    assert_eq!(
        error_of("align", &["4", "8"], &[]).message(),
        "align requires only one argument"
    );
    assert_eq!(
        error_of("align", &["4", "8"], &[("packed", &[])]).message(),
        "align requires only one argument"
    );
    assert_eq!(error_of("align", &[], &[]).message(), "expected integer literal");
    assert_eq!(error_of("align", &["x"], &[]).message(), "expected integer literal");
}

#[test]
fn align_argument_with_delimiter_or_non_ascii_is_malformed() {
    for arg in ["(4)", "4)", "[4]", "{4}", "4\u{a0}", "\u{3000}4"] {
        let (repr, results) = record(&[("align", &[arg])]);
        assert_eq!(results, vec![Some(ErrorKind::MalformedAlignArgument)], "{}", arg);
        assert!(repr.current_state().1.is_none());
    }
}

#[test]
fn rejected_item_leaves_model_unchanged() {
    let (repr, results) = record(&[
        ("C", &[]),
        ("weird", &[]),
        ("align", &[]),
        ("u64", &[]),
        ("align", &["2"]),
    ]);
    assert_eq!(
        results,
        vec![
            None,
            Some(ErrorKind::UnrecognizedDirective),
            Some(ErrorKind::MalformedAlignArgument),
            Some(ErrorKind::DuplicateBaseRepr),
            None,
        ]
    );
    assert_eq!(repr.render(), "C, align(2),");
}

#[test]
fn record_order_does_not_matter() {
    let (first, results_a) = record(&[("packed", &[]), ("C", &[])]);
    let (second, results_b) = record(&[("C", &[]), ("packed", &[])]);
    assert_eq!(results_a, vec![None, None]);
    assert_eq!(results_b, vec![None, None]);
    assert_eq!(first.current_state(), second.current_state());
    assert_eq!(first.render(), second.render());
    assert_eq!(first.render(), "C, packed,");
}

#[test]
fn c_with_align_end_to_end() {
    let (repr, results) = record(&[("C", &[]), ("align", &["16"])]);
    assert_eq!(results, vec![None, None]);
    let (base, modifier) = repr.current_state();
    assert_eq!(base, Some(BaseRepr::C));
    assert_eq!(modifier, Some(&Modifier::Align("16".to_string())));
    assert_eq!(repr.render(), "C, align(16),");
}

#[test]
fn duplicate_base_points_at_second_item() {
    let spans = spans_of("u32 u64");
    let mut repr = Repr::default();
    assert!(repr.parse_list_meta(item_at("u32", &[], spans[0])).is_ok());
    let err = repr.parse_list_meta(item_at("u64", &[], spans[1])).unwrap_err();
    assert_eq!(err.kind, ErrorKind::DuplicateBaseRepr);
    assert_eq!(err.span.start().column, spans[1].start().column);
    assert_ne!(err.span.start().column, spans[0].start().column);
    let (_, recorded_span) = repr.base_repr.unwrap();
    assert_eq!(recorded_span.start().column, spans[0].start().column);
}

#[test]
fn record_item_follows_the_literal_verdict() {
    let mut repr = Repr::default();
    let r = repr.record_item(item("align", &["x"]), true);
    assert!(r.is_ok());
    assert_eq!(repr.render(), "align(x),");

    let mut repr = Repr::default();
    let r = repr.record_item(item("align", &["16"]), false);
    assert_eq!(kind(r), Some(ErrorKind::MalformedAlignArgument));

    let mut repr = Repr::default();
    let r = repr.record_item(item("u8", &[]), false);
    assert!(r.is_ok());
    assert_eq!(repr.render(), "u8,");
}
