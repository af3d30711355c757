use procon_lg::{
    exit_statement, is_unit_return_type, limit_message, AnnotationError, CodeGenerator,
    FunctionSignature, GenerateError, MacroArgs, ParamAttr, ParamInfo,
};

fn tokens(s: &str) -> String {
    s.parse::<proc_macro2::TokenStream>().unwrap().to_string()
}

fn fmt_attr(formatter: Option<&str>) -> ParamAttr {
    ParamAttr {
        name: "fmt".to_string(),
        args: formatter.map(|f| f.to_string()),
        text: "#[fmt]".to_string(),
    }
}

fn named_attr(name: &str) -> ParamAttr {
    ParamAttr {
        name: name.to_string(),
        args: None,
        text: format!("#[{}]", name),
    }
}

fn param(name: &str, ty: &str, attrs: Vec<ParamAttr>) -> ParamInfo {
    ParamInfo {
        binding: Some(name.to_string()),
        mutable: false,
        ty: ty.to_string(),
        attrs,
    }
}

fn signature(name: &str, output: Option<&str>, params: Vec<ParamInfo>) -> FunctionSignature {
    FunctionSignature {
        attrs: String::new(),
        vis: "pub".to_string(),
        is_unsafe: false,
        name: name.to_string(),
        generics: String::new(),
        where_clause: String::new(),
        output: output.map(|o| o.to_string()),
        params,
    }
}

#[test]
fn gcd_is_instrumented() {
    let g = CodeGenerator {
        input_fn: signature(
            "gcd",
            Some("u64"),
            vec![
                param("a", "u64", vec![fmt_attr(None)]),
                param("b", "u64", vec![fmt_attr(None)]),
            ],
        ),
        macro_args: MacroArgs::new(),
    };
    let body = "{ if b == 0 { a } else { __procon_lg_recurse(b, a % b, __lg_guard.nested()) } }";
    let code = g.generate(body).unwrap();
    let expected = r#"
        pub fn gcd(a: u64, b: u64,) -> u64 {
            fn __procon_lg_recurse(a: u64, b: u64, __lg_guard: ::procon_lg::DepthGuard) -> u64 {
                #[allow(unused_mut)]
                let mut __lg_args: ::std::vec::Vec<::procon_lg::TraceArg> = ::std::vec::Vec::new();
                __lg_args.push(::procon_lg::TraceArg::labeled("a", ::std::format!("{}", format!("{:?}", a))));
                __lg_args.push(::procon_lg::TraceArg::labeled("b", ::std::format!("{}", format!("{:?}", b))));
                ::std::eprintln!("{}", ::procon_lg::render_entry(__lg_guard.current_depth(), "gcd", &__lg_args));
                let __lg_result = { if b == 0 { a } else { __procon_lg_recurse(b, a % b, __lg_guard.nested()) } };
                ::std::eprintln!("{}", ::procon_lg::render_exit(__lg_guard.current_depth(), ::std::option::Option::Some(::std::format!("{:?}", __lg_result))));
                __lg_result
            }
            __procon_lg_recurse(a, b, ::procon_lg::DepthGuard::new())
        }
    "#;
    assert_eq!(tokens(&code), tokens(expected));
    assert!(syn::parse_str::<syn::ItemFn>(&code).is_ok());
}

#[test]
fn unit_function_with_limit_and_hidden_parameters() {
    let mut p = param("count", "u32", vec![fmt_attr(None)]);
    p.mutable = true;
    let g = CodeGenerator {
        input_fn: signature(
            "countdown",
            None,
            vec![
                param("secret", "&str", vec![]),
                p,
                param("memo", "&mut Vec<u8>", vec![named_attr("no_debug")]),
                param("tag", "char", vec![named_attr("no_name"), fmt_attr(Some("tag.to_uppercase()"))]),
            ],
        ),
        macro_args: MacroArgs {
            recursion_limit: Some(5),
            show_return: false,
            no_return: false,
        },
    };
    let code = g.generate("{ }").unwrap();
    let expected = r#"
        pub fn countdown(secret: &str, count: u32, memo: &mut Vec<u8>, tag: char,) {
            fn __procon_lg_recurse(secret: &str, mut count: u32, memo: &mut Vec<u8>, tag: char, __lg_guard: ::procon_lg::DepthGuard) {
                if __lg_guard.exceeds(5) {
                    ::std::panic!("{}", ::procon_lg::limit_message("countdown", 5));
                }
                #[allow(unused_mut)]
                let mut __lg_args: ::std::vec::Vec<::procon_lg::TraceArg> = ::std::vec::Vec::new();
                __lg_args.push(::procon_lg::TraceArg::labeled("count", ::std::format!("{}", format!("{:?}", count))));
                __lg_args.push(::procon_lg::TraceArg::unlabeled(::std::format!("{}", (|tag: & char| tag.to_uppercase())(&tag))));
                ::std::eprintln!("{}", ::procon_lg::render_entry(__lg_guard.current_depth(), "countdown", &__lg_args));
                let __lg_result = { };
                ::std::eprintln!("{}", ::procon_lg::render_exit(__lg_guard.current_depth(), ::std::option::Option::None));
                __lg_result
            }
            __procon_lg_recurse(secret, count, memo, tag, ::procon_lg::DepthGuard::new())
        }
    "#;
    assert_eq!(tokens(&code), tokens(expected));
    assert!(!code.contains("\"secret\""));
    assert!(!code.contains("\"memo\""));
    assert!(syn::parse_str::<syn::ItemFn>(&code).is_ok());
}

#[test]
fn qualifiers_pass_through() {
    let mut sig = signature("walk", Some("T"), vec![param("x", "T", vec![named_attr("allow")])]);
    sig.attrs = "#[inline]".to_string();
    sig.vis = String::new();
    sig.is_unsafe = true;
    sig.generics = "<T: Clone + std::fmt::Debug>".to_string();
    sig.where_clause = "where T: Default".to_string();
    let g = CodeGenerator {
        input_fn: sig,
        macro_args: MacroArgs::new(),
    };
    let code = g.generate("{ x }").unwrap();
    let item = syn::parse_str::<syn::ItemFn>(&code).unwrap();
    assert_eq!(item.sig.ident, "walk");
    assert!(item.sig.unsafety.is_some());
    assert_eq!(item.attrs.len(), 1);
    assert!(code.contains("unsafe fn __procon_lg_recurse<T: Clone + std::fmt::Debug>(#[allow] x: T, "));
    assert!(code.contains("where T: Default {"));
}

#[test]
fn receivers_and_patterns_are_refused() {
    let mut sig = signature("m", None, vec![param("a", "u8", vec![])]);
    sig.params.push(ParamInfo {
        binding: None,
        mutable: false,
        ty: "Self".to_string(),
        attrs: vec![],
    });
    let g = CodeGenerator {
        input_fn: sig,
        macro_args: MacroArgs::new(),
    };
    assert!(matches!(
        g.generate("{}"),
        Err(GenerateError::UnsupportedParameter { index: 1 })
    ));
}

#[test]
fn contradicting_annotations_are_refused() {
    let sig = signature(
        "f",
        None,
        vec![
            param("a", "u8", vec![fmt_attr(None)]),
            param("b", "u8", vec![named_attr("no_debug"), fmt_attr(None)]),
        ],
    );
    let g = CodeGenerator {
        input_fn: sig,
        macro_args: MacroArgs::new(),
    };
    assert!(matches!(
        g.check(),
        Some(GenerateError::Annotation {
            index: 1,
            error: AnnotationError::HiddenAndShown
        })
    ));
    assert!(g.generate("{}").is_err());
}

#[test]
fn printable_arguments_skip_hidden_ones() {
    let g = CodeGenerator {
        input_fn: signature(
            "f",
            None,
            vec![
                param("a", "u8", vec![]),
                param("b", "u8", vec![fmt_attr(None)]),
                param("c", "u8", vec![named_attr("no_debug")]),
                param("d", "u8", vec![fmt_attr(Some("d * 2"))]),
            ],
        ),
        macro_args: MacroArgs::new(),
    };
    assert_eq!(g.extract_printable_args(), vec![1, 3]);
    let pushes = g.generate_arg_format_expressions();
    assert!(pushes.contains("labeled(\"b\""));
    assert!(pushes.contains("labeled(\"d\""));
    assert!(!pushes.contains("\"a\""));
    assert!(!pushes.contains("\"c\""));
}

#[test]
fn unit_return_types() {
    assert!(is_unit_return_type(&None));
    assert!(is_unit_return_type(&Some("()".to_string())));
    assert!(!is_unit_return_type(&Some("(())".to_string())));
    assert!(!is_unit_return_type(&Some("u32".to_string())));
}

#[test]
fn return_value_shown_by_default_for_values_only() {
    let value_fn = CodeGenerator {
        input_fn: signature("f", Some("i64"), vec![]),
        macro_args: MacroArgs::new(),
    };
    assert!(value_fn.shows_return_value());
    assert!(value_fn.visitor().show_return);
    let unit_fn = CodeGenerator {
        input_fn: signature("g", None, vec![]),
        macro_args: MacroArgs::new(),
    };
    assert!(!unit_fn.shows_return_value());
    let forced = CodeGenerator {
        input_fn: signature("g", Some("()"), vec![]),
        macro_args: MacroArgs {
            recursion_limit: None,
            show_return: true,
            no_return: false,
        },
    };
    assert!(forced.shows_return_value());
    assert_eq!(
        forced.generate_return_output("v"),
        exit_statement(true, "v")
    );
}

#[test]
fn limit_message_names_function_and_limit() {
    assert_eq!(
        limit_message("walk", 12),
        "Recursion limit exceeded: walk reached maximum depth of 12"
    );
}
