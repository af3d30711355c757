use procon_lg::{ConfigErrorKind, MacroArgs, OptionToken};

fn ident(s: &str) -> OptionToken {
    OptionToken::Ident(s.to_string())
}

fn int_lit(s: &str) -> OptionToken {
    OptionToken::Literal(s.to_string())
}

fn punct(c: char) -> OptionToken {
    OptionToken::Punct(c)
}

fn error_of(toks: Vec<OptionToken>) -> (ConfigErrorKind, usize, String) {
    let e = MacroArgs::parse(&toks).unwrap_err();
    let m = e.message();
    (e.kind, e.at, m)
}

#[test]
fn empty_list_gives_the_defaults() {
    let a = MacroArgs::parse(&vec![]).unwrap();
    assert_eq!(a.recursion_limit, None);
    assert!(!a.show_return);
    assert!(!a.has_no_return());
    let d = MacroArgs::new();
    assert_eq!(d.recursion_limit, None);
    assert!(!d.show_return && !d.no_return);
    let d = MacroArgs::default();
    assert!(!d.show_return && !d.no_return && d.recursion_limit.is_none());
}

#[test]
fn all_options_together() {
    let toks = vec![
        ident("recursion_limit"),
        punct('='),
        int_lit("100"),
        punct(','),
        ident("show_return"),
        punct(','),
    ];
    let a = MacroArgs::parse(&toks).unwrap();
    assert_eq!(a.recursion_limit, Some(100));
    assert!(a.show_return);
    assert!(!a.has_no_return());
}

#[test]
fn no_return_is_read() {
    let a = MacroArgs::parse(&vec![ident("no_return")]).unwrap();
    assert!(a.has_no_return());
    assert!(!a.shows_return_value(false));
    assert!(!a.shows_return_value(true));
}

#[test]
fn return_value_defaults() {
    let d = MacroArgs::new();
    assert!(d.shows_return_value(false));
    assert!(!d.shows_return_value(true));
    let a = MacroArgs::parse(&vec![ident("show_return")]).unwrap();
    assert!(a.shows_return_value(true));
}

#[test]
fn unknown_option_is_named() {
    let (k, at, m) = error_of(vec![ident("no_return"), punct(','), ident("verbose")]);
    assert!(matches!(k, ConfigErrorKind::UnknownArgument(ref n) if n == "verbose"));
    assert_eq!(at, 2);
    assert_eq!(m, "unknown argument `verbose`");
}

#[test]
fn zero_limit_is_refused() {
    let (k, at, m) = error_of(vec![ident("recursion_limit"), punct('='), int_lit("0")]);
    assert!(matches!(k, ConfigErrorKind::ZeroLimit));
    assert_eq!(at, 2);
    assert_eq!(m, "recursion_limit must be greater than 0");
}

#[test]
fn integer_literals_in_any_form() {
    let toks = vec![ident("recursion_limit"), punct('='), int_lit("1_000usize")];
    assert_eq!(MacroArgs::parse(&toks).unwrap().recursion_limit, Some(1000));
    let toks = vec![ident("recursion_limit"), punct('='), int_lit("0x10")];
    assert_eq!(MacroArgs::parse(&toks).unwrap().recursion_limit, Some(16));
    let (k, at, _) = error_of(vec![ident("recursion_limit"), punct('='), int_lit("2.5")]);
    assert!(matches!(k, ConfigErrorKind::ExpectedInteger));
    assert_eq!(at, 2);
    let (k, _, _) = error_of(vec![ident("recursion_limit"), punct('='), int_lit("0b0")]);
    assert!(matches!(k, ConfigErrorKind::ZeroLimit));
}

#[test]
fn limit_beyond_usize_is_refused() {
    let (k, at, _) = error_of(vec![
        ident("recursion_limit"),
        punct('='),
        int_lit("99999999999999999999999"),
    ]);
    assert!(matches!(k, ConfigErrorKind::LimitTooLarge));
    assert_eq!(at, 2);
}

#[test]
fn limit_needs_equals_and_integer() {
    let (k, at, _) = error_of(vec![ident("recursion_limit")]);
    assert!(matches!(k, ConfigErrorKind::ExpectedEquals));
    assert_eq!(at, 1);
    let (k, at, _) = error_of(vec![ident("recursion_limit"), int_lit("3")]);
    assert!(matches!(k, ConfigErrorKind::ExpectedEquals));
    assert_eq!(at, 1);
    let (k, at, _) = error_of(vec![ident("recursion_limit"), punct('=')]);
    assert!(matches!(k, ConfigErrorKind::ExpectedInteger));
    assert_eq!(at, 2);
    let (k, at, _) = error_of(vec![
        ident("recursion_limit"),
        punct('='),
        OptionToken::Literal("\"5\"".to_string()),
    ]);
    assert!(matches!(k, ConfigErrorKind::ExpectedInteger));
    assert_eq!(at, 2);
}

#[test]
fn options_need_commas_between_them() {
    let (k, at, m) = error_of(vec![ident("no_return"), ident("show_return")]);
    assert!(matches!(k, ConfigErrorKind::ExpectedComma));
    assert_eq!(at, 1);
    assert_eq!(m, "expected `,` between arguments");
}

#[test]
fn option_name_must_be_an_identifier() {
    let (k, at, _) = error_of(vec![int_lit("5")]);
    assert!(matches!(k, ConfigErrorKind::ExpectedName));
    assert_eq!(at, 0);
    let (k, at, _) = error_of(vec![ident("no_return"), punct(','), punct(',')]);
    assert!(matches!(k, ConfigErrorKind::ExpectedName));
    assert_eq!(at, 2);
}

#[test]
fn return_options_conflict() {
    let (k, at, m) = error_of(vec![ident("show_return"), punct(','), ident("no_return")]);
    assert!(matches!(k, ConfigErrorKind::ConflictingReturnOptions));
    assert_eq!(at, 2);
    assert_eq!(m, "`no_return` and `show_return` cannot be combined");
}

#[test]
fn decimal_numbers_round_trip() {
    assert_eq!(procon_lg::parse_decimal("0"), Some(0));
    assert_eq!(procon_lg::parse_decimal("1234"), Some(1234));
    assert_eq!(procon_lg::parse_decimal(""), None);
    assert_eq!(procon_lg::parse_decimal("12a"), None);
    assert_eq!(procon_lg::parse_decimal("18446744073709551616"), None);
    assert_eq!(procon_lg::decimal_text(0), "0");
    assert_eq!(procon_lg::decimal_text(907), "907");
    assert_eq!(procon_lg::decimal_text(usize::MAX), usize::MAX.to_string());
    assert!(procon_lg::same_text("ab", "ab"));
    assert!(!procon_lg::same_text("ab", "abc"));
}
