//! Rewriting of the statements of a traced function's body.
//!
//! Three kinds of node change: the four printing macros, whose output is
//! indented to the current depth; `return`, which writes the exit line before
//! it leaves; and calls of the function itself, which go to the worker with a
//! handle one level deeper. Everything else stays as written.
use vstd::prelude::*;
use crate::codegen::{call_args_text, exit_statement, exit_stmt, shows_return, worker_tail, CodeGenerator};
use crate::text::same_text;

verus! {

/// One of the printing macros whose output is indented.
#[derive(Debug, Clone, Copy)]
pub enum LogMacro {
    /// `println!`
    Println,
    /// `eprintln!`
    Eprintln,
    /// `print!`
    Print,
    /// `eprint!`
    Eprint,
}

/// The rewriting of one function's body.
#[derive(Debug, Clone)]
pub struct Visitor {
    /// The function's name: calls of it are recursive calls.
    pub fn_name: String,
    /// Whether exit lines show the returned value.
    pub show_return: bool,
}

/// How a recursive call site changes: the function it calls, and the
/// argument added after the others.
#[derive(Debug, Clone)]
pub struct CallRewrite {
    pub callee: String,
    pub extra_arg: String,
}

/// The printing macro that a macro path names, if any.
pub open spec fn classify(path: Seq<char>) -> Option<LogMacro> {
    if path == "println"@ {
        Some(LogMacro::Println)
    } else if path == "eprintln"@ {
        Some(LogMacro::Eprintln)
    } else if path == "print"@ {
        Some(LogMacro::Print)
    } else if path == "eprint"@ {
        Some(LogMacro::Eprint)
    } else {
        None
    }
}

/// Whether the macro writes to the diagnostic channel rather than to
/// standard output.
pub open spec fn to_stderr(kind: LogMacro) -> bool {
    kind is Eprintln || kind is Eprint
}

/// Whether the macro ends its output with a line feed.
pub open spec fn ends_line(kind: LogMacro) -> bool {
    kind is Println || kind is Eprintln
}

/// The macro that writes a rendered log text to the macro's own channel.
pub open spec fn writer(kind: LogMacro) -> Seq<char> {
    if to_stderr(kind) {
        "::std::eprint!(\"{}\", ::procon_lg::"@
    } else {
        "::std::print!(\"{}\", ::procon_lg::"@
    }
}

/// The replacement of a printing macro of kind `kind` with arguments
/// `tokens`; `None` where it stays as written (`print!` and `eprint!`
/// without arguments, which the compiler refuses anyway).
pub open spec fn log_rewrite(kind: LogMacro, tokens: Seq<char>) -> Option<Seq<char>> {
    if tokens.len() == 0 {
        if ends_line(kind) {
            Some(writer(kind) + "render_blank_line(__lg_guard.current_depth()))"@)
        } else {
            None
        }
    } else if ends_line(kind) {
        Some(
            writer(kind) + "render_log_block(__lg_guard.current_depth(), &::std::format!("@
                + tokens + ")))"@,
        )
    } else {
        Some(
            writer(kind) + "render_log_text(__lg_guard.current_depth(), &::std::format!("@
                + tokens + ")))"@,
        )
    }
}

/// The value that `return expr` returns: `expr`, or `()` for `return` alone.
pub open spec fn returned_value(expr: Option<&str>) -> Seq<char> {
    match expr {
        Some(e) => e@,
        None => "()"@,
    }
}

/// The block that replaces a `return` of `value`: it keeps the value, writes
/// the exit line for it as the end of the body does, and returns it.
pub open spec fn return_rewrite(show: bool, value: Seq<char>) -> Seq<char> {
    "{\nlet __lg_return_val = "@ + value + ";\n"@ + exit_stmt(show, "__lg_return_val"@)
        + "return __lg_return_val;\n}"@
}

/// An early `return` writes exactly one exit line, and it is written as the
/// end of the body writes its own: where the visitor belongs to generator
/// `g`, the block that replaces `return value` binds the value, runs the
/// very exit statement that follows the body (for its own variable), and
/// returns the value.
pub proof fn lemma_early_return_exit(g: CodeGenerator, v: Visitor, value: Seq<char>, body: Seq<
    char,
>)
    requires
        v.show_return == shows_return(g),
    ensures
        return_rewrite(v.show_return, value) == "{\nlet __lg_return_val = "@ + value + ";\n"@
            + exit_stmt(shows_return(g), "__lg_return_val"@) + "return __lg_return_val;\n}"@,
        worker_tail(g, body) == "let __lg_result = "@ + body + ";\n"@ + exit_stmt(
            shows_return(g),
            "__lg_result"@,
        ) + "__lg_result\n}\n__procon_lg_recurse("@ + call_args_text(g.input_fn.params@)
            + "::procon_lg::DepthGuard::new())\n}\n"@,
{
}

fn writer_text(kind: &LogMacro) -> (r: &'static str)
    ensures
        r@ == writer(*kind),
{
    match kind {
        LogMacro::Eprintln => "::std::eprint!(\"{}\", ::procon_lg::",
        LogMacro::Eprint => "::std::eprint!(\"{}\", ::procon_lg::",
        _ => "::std::print!(\"{}\", ::procon_lg::",
    }
}

impl LogMacro {
    /// The printing macro that a macro path names, if any.
    pub fn classify(path: &str) -> (r: Option<LogMacro>)
        ensures
            r == classify(path@),
    {
        if same_text(path, "println") {
            Some(LogMacro::Println)
        } else if same_text(path, "eprintln") {
            Some(LogMacro::Eprintln)
        } else if same_text(path, "print") {
            Some(LogMacro::Print)
        } else if same_text(path, "eprint") {
            Some(LogMacro::Eprint)
        } else {
            None
        }
    }

    /// The replacement of this macro called with arguments `tokens`, if it
    /// changes.
    pub fn rewrite(&self, tokens: &str) -> (r: Option<String>)
        ensures
            r matches Some(s) ==> log_rewrite(*self, tokens@) == Some(s@),
            r is None <==> log_rewrite(*self, tokens@) is None,
    {
        let line = match self {
            LogMacro::Println => true,
            LogMacro::Eprintln => true,
            _ => false,
        };
        let mut s = String::from_str(writer_text(self));
        if tokens.unicode_len() == 0 {
            if line {
                s.append("render_blank_line(__lg_guard.current_depth()))");
                Some(s)
            } else {
                None
            }
        } else {
            if line {
                s.append("render_log_block(__lg_guard.current_depth(), &::std::format!(");
            } else {
                s.append("render_log_text(__lg_guard.current_depth(), &::std::format!(");
            }
            s.append(tokens);
            s.append(")))");
            Some(s)
        }
    }
}

impl Visitor {
    /// The replacement of a macro call with path `path` and arguments
    /// `tokens`, if it changes.
    pub fn visit_macro(&self, path: &str, tokens: &str) -> (r: Option<String>)
        ensures
            r matches Some(s) ==> (classify(path@) matches Some(k) && log_rewrite(k, tokens@)
                == Some(s@)),
            r is None <==> (classify(path@) matches Some(k) ==> log_rewrite(k, tokens@) is None),
    {
        match LogMacro::classify(path) {
            Some(k) => k.rewrite(tokens),
            None => None,
        }
    }

    /// The block that replaces `return expr`, or `return` alone where `expr`
    /// is `None`.
    pub fn transform_return_expr(&self, expr: Option<&str>) -> (r: String)
        ensures
            r@ == return_rewrite(self.show_return, returned_value(expr)),
    {
        let mut s = String::from_str("{\nlet __lg_return_val = ");
        match expr {
            Some(e) => s.append(e),
            None => s.append("()"),
        }
        s.append(";\n");
        let exit = exit_statement(self.show_return, "__lg_return_val");
        s.append(exit.as_str());
        s.append("return __lg_return_val;\n}");
        s
    }

    /// How a call of the function at path `callee` changes: `Some` exactly
    /// when it is a call of the traced function itself.
    pub fn visit_call(&self, callee: &str) -> (r: Option<CallRewrite>)
        ensures
            r is Some <==> callee@ == self.fn_name@,
            r matches Some(c) ==> c.callee@ == "__procon_lg_recurse"@ && c.extra_arg@
                == "__lg_guard.nested()"@,
    {
        if same_text(callee, self.fn_name.as_str()) {
            Some(
                CallRewrite {
                    callee: String::from_str("__procon_lg_recurse"),
                    extra_arg: String::from_str("__lg_guard.nested()"),
                },
            )
        } else {
            None
        }
    }
}

} // verus!
