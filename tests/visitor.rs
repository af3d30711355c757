use procon_lg::{LogMacro, Visitor};

fn tokens(s: &str) -> String {
    s.parse::<proc_macro2::TokenStream>().unwrap().to_string()
}

fn visitor(name: &str, show_return: bool) -> Visitor {
    Visitor {
        fn_name: name.to_string(),
        show_return,
    }
}

#[test]
fn visitor_test_println() {
    let v = visitor("test_fn", true);
    let multi = v.visit_macro("println", "\"line1\\nline2\\nline3\"").unwrap();
    let expected = "::std::print!(\"{}\", ::procon_lg::render_log_block(__lg_guard.current_depth(), &::std::format!(\"line1\\nline2\\nline3\")))";
    assert_eq!(tokens(&multi), tokens(expected));

    let with_arg = v.visit_macro("println", "\"computing value for {}\", n").unwrap();
    let expected = "::std::print!(\"{}\", ::procon_lg::render_log_block(__lg_guard.current_depth(), &::std::format!(\"computing value for {}\", n)))";
    assert_eq!(tokens(&with_arg), tokens(expected));

    let blank = v.visit_macro("println", "").unwrap();
    let expected = "::std::print!(\"{}\", ::procon_lg::render_blank_line(__lg_guard.current_depth()))";
    assert_eq!(tokens(&blank), tokens(expected));
}

#[test]
fn test_recursive_call() {
    let v = visitor("fib", true);
    let call = v.visit_call("fib").unwrap();
    assert_eq!(call.callee, "__procon_lg_recurse");
    assert_eq!(call.extra_arg, "__lg_guard.nested()");
    assert!(v.visit_call("fibonacci").is_none());
    assert!(v.visit_call("other").is_none());
}

#[test]
fn printing_macros_are_classified() {
    assert!(matches!(LogMacro::classify("println"), Some(LogMacro::Println)));
    assert!(matches!(LogMacro::classify("eprintln"), Some(LogMacro::Eprintln)));
    assert!(matches!(LogMacro::classify("print"), Some(LogMacro::Print)));
    assert!(matches!(LogMacro::classify("eprint"), Some(LogMacro::Eprint)));
    assert!(LogMacro::classify("format").is_none());
    assert!(LogMacro::classify("std :: println").is_none());
}

#[test]
fn each_printing_macro_keeps_its_channel() {
    let v = visitor("f", false);
    let e = v.visit_macro("eprintln", "\"x\"").unwrap();
    assert!(e.starts_with("::std::eprint!(\"{}\", ::procon_lg::render_log_block("));
    let p = v.visit_macro("print", "\"x\"").unwrap();
    assert!(p.starts_with("::std::print!(\"{}\", ::procon_lg::render_log_text("));
    let ep = v.visit_macro("eprint", "\"x\"").unwrap();
    assert!(ep.starts_with("::std::eprint!(\"{}\", ::procon_lg::render_log_text("));
    assert!(v.visit_macro("print", "").is_none());
    assert!(v.visit_macro("vec", "1, 2").is_none());
}

#[test]
fn early_return_writes_the_exit_line() {
    let shown = visitor("f", true);
    let block = shown.transform_return_expr(Some("a + b"));
    let expected = "{ let __lg_return_val = a + b; ::std::eprintln!(\"{}\", ::procon_lg::render_exit(__lg_guard.current_depth(), ::std::option::Option::Some(::std::format!(\"{:?}\", __lg_return_val)))); return __lg_return_val; }";
    assert_eq!(tokens(&block), tokens(expected));

    let hidden = visitor("f", false);
    let bare = hidden.transform_return_expr(None);
    let expected = "{ let __lg_return_val = (); ::std::eprintln!(\"{}\", ::procon_lg::render_exit(__lg_guard.current_depth(), ::std::option::Option::None)); return __lg_return_val; }";
    assert_eq!(tokens(&bare), tokens(expected));
}
