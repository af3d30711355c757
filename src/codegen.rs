//! Assembly of the instrumented function's source text.
//!
//! The function keeps its name, attributes, visibility, generics and
//! parameters, and its body becomes a call of an inner worker. The worker
//! takes the depth handle as an extra parameter, checks the recursion limit,
//! writes the entry line, runs the rewritten body, writes the exit line and
//! returns the body's value. Recursive calls in the body go to the worker with
//! a handle one level deeper, so the depth travels as an explicit value and no
//! state is shared between calls; a call of another traced function starts a
//! chain of its own.
use vstd::prelude::*;
use crate::arg_attrs::{
    annotation_error, annotations_of, first_formatter, format_expr, has_no_name, recognized,
    shown, AnnotationError, ArgAttributes, ParamAttr,
};
use crate::options::{shows_value, MacroArgs};
use crate::depth::over_limit;
use crate::text::{decimal_digits, decimal_text, decimal_value, lemma_decimal_round_trip, same_text};
use crate::visitor::Visitor;

verus! {

/// One parameter of the function to instrument.
#[derive(Debug, Clone)]
pub struct ParamInfo {
    /// The parameter's name, when its pattern is a plain identifier; `None`
    /// for a receiver or a destructuring pattern.
    pub binding: Option<String>,
    /// Whether the identifier is bound with `mut`.
    pub mutable: bool,
    /// The parameter's type, as written.
    pub ty: String,
    /// The parameter's attributes.
    pub attrs: Vec<ParamAttr>,
}

/// The function to instrument: its signature, with every part that tracing
/// does not read kept as written.
#[derive(Debug, Clone)]
pub struct FunctionSignature {
    /// Outer attributes, as written.
    pub attrs: String,
    /// Visibility, as written.
    pub vis: String,
    /// Whether the function is `unsafe`.
    pub is_unsafe: bool,
    pub name: String,
    /// Generic parameters with their bounds, as written (`<T: Debug>`).
    pub generics: String,
    /// The `where` clause, as written.
    pub where_clause: String,
    /// The return type, as written; `None` where the signature has none.
    pub output: Option<String>,
    pub params: Vec<ParamInfo>,
}

/// Code generator of one instrumented function.
#[derive(Debug, Clone)]
pub struct CodeGenerator {
    pub input_fn: FunctionSignature,
    pub macro_args: MacroArgs,
}

/// Why a function cannot be instrumented.
#[derive(Debug, Clone)]
pub enum GenerateError {
    /// The parameter at `index` is a receiver or a pattern: the worker can
    /// only forward plain identifiers.
    UnsupportedParameter { index: usize },
    /// The annotations of the parameter at `index` contradict each other.
    Annotation { index: usize, error: AnnotationError },
}

/// The text of a diagnostic for a generation error.
pub open spec fn generate_message(e: GenerateError) -> Seq<char> {
    match e {
        GenerateError::UnsupportedParameter { .. } => "a traced function's parameters must be plain identifiers, without `self` or patterns"@,
        GenerateError::Annotation { error, .. } => match error {
            AnnotationError::DuplicateFormat => "a parameter takes at most one `fmt` annotation"@,
            AnnotationError::HiddenAndShown => "`no_debug` contradicts `fmt` on the same parameter"@,
        },
    }
}

impl GenerateError {
    /// The diagnostic text of this error.
    pub fn message(&self) -> (r: String)
        ensures
            r@ == generate_message(*self),
    {
        match self {
            GenerateError::UnsupportedParameter { .. } => String::from_str(
                "a traced function's parameters must be plain identifiers, without `self` or patterns",
            ),
            GenerateError::Annotation { error, .. } => match error {
                AnnotationError::DuplicateFormat => String::from_str(
                    "a parameter takes at most one `fmt` annotation",
                ),
                AnnotationError::HiddenAndShown => String::from_str(
                    "`no_debug` contradicts `fmt` on the same parameter",
                ),
            },
        }
    }

    /// The index of the parameter the error is about.
    pub fn index(&self) -> (r: usize)
        ensures
            r == match *self {
                GenerateError::UnsupportedParameter { index } => index,
                GenerateError::Annotation { index, .. } => index,
            },
    {
        match self {
            GenerateError::UnsupportedParameter { index } => *index,
            GenerateError::Annotation { index, .. } => *index,
        }
    }
}

/// Whether a return type is `()`: absent, or the empty tuple.
pub open spec fn unit_output(output: Option<String>) -> bool {
    match output {
        Some(t) => t@ == "()"@,
        None => true,
    }
}

/// Whether the function's return type is `()`.
pub fn is_unit_return_type(output: &Option<String>) -> (r: bool)
    ensures
        r == unit_output(*output),
{
    match output {
        Some(t) => same_text(t.as_str(), "()"),
        None => true,
    }
}

/// The parameter's name, or nothing where it has none.
pub open spec fn binding_of(p: ParamInfo) -> Seq<char> {
    match p.binding {
        Some(b) => b@,
        None => Seq::empty(),
    }
}

/// Whether the parameter is shown in entry lines.
pub open spec fn is_shown_param(p: ParamInfo) -> bool {
    shown(annotations_of(p.attrs@))
}

/// The first reason why the parameters cannot be instrumented, if any.
pub open spec fn first_error(params: Seq<ParamInfo>) -> Option<GenerateError>
    decreases params.len(),
{
    if params.len() == 0 {
        None
    } else {
        match first_error(params.drop_last()) {
            Some(e) => Some(e),
            None => {
                let i = (params.len() - 1) as usize;
                if params.last().binding is None {
                    Some(GenerateError::UnsupportedParameter { index: i })
                } else {
                    match annotation_error(annotations_of(params.last().attrs@)) {
                        Some(e) => Some(GenerateError::Annotation { index: i, error: e }),
                        None => None,
                    }
                }
            },
        }
    }
}

/// The attributes that tracing does not read, each followed by a space.
pub open spec fn kept_attrs_text(attrs: Seq<ParamAttr>) -> Seq<char>
    decreases attrs.len(),
{
    if attrs.len() == 0 {
        Seq::empty()
    } else {
        kept_attrs_text(attrs.drop_last()) + if recognized(attrs.last()) is None {
            attrs.last().text@ + " "@
        } else {
            Seq::empty()
        }
    }
}

/// A parameter of the outer function: annotations removed, `mut` removed.
pub open spec fn outer_param(p: ParamInfo) -> Seq<char> {
    kept_attrs_text(p.attrs@) + binding_of(p) + ": "@ + p.ty@ + ", "@
}

/// A parameter of the worker: annotations removed, `mut` kept.
pub open spec fn inner_param(p: ParamInfo) -> Seq<char> {
    kept_attrs_text(p.attrs@) + (if p.mutable {
        "mut "@
    } else {
        Seq::empty()
    }) + binding_of(p) + ": "@ + p.ty@ + ", "@
}

pub open spec fn outer_params_text(params: Seq<ParamInfo>) -> Seq<char>
    decreases params.len(),
{
    if params.len() == 0 {
        Seq::empty()
    } else {
        outer_params_text(params.drop_last()) + outer_param(params.last())
    }
}

pub open spec fn inner_params_text(params: Seq<ParamInfo>) -> Seq<char>
    decreases params.len(),
{
    if params.len() == 0 {
        Seq::empty()
    } else {
        inner_params_text(params.drop_last()) + inner_param(params.last())
    }
}

/// The arguments with which the outer function calls the worker.
pub open spec fn call_args_text(params: Seq<ParamInfo>) -> Seq<char>
    decreases params.len(),
{
    if params.len() == 0 {
        Seq::empty()
    } else {
        call_args_text(params.drop_last()) + binding_of(params.last()) + ", "@
    }
}

/// The indices of the parameters shown in entry lines, in order.
pub open spec fn printable_indices(params: Seq<ParamInfo>) -> Seq<int>
    decreases params.len(),
{
    if params.len() == 0 {
        Seq::empty()
    } else {
        let init = printable_indices(params.drop_last());
        if is_shown_param(params.last()) {
            init.push(params.len() - 1)
        } else {
            init
        }
    }
}

/// The statement that adds a shown parameter to the entry line's arguments.
pub open spec fn arg_push(p: ParamInfo) -> Seq<char> {
    let a = annotations_of(p.attrs@);
    let value = "::std::format!(\"{}\", "@ + format_expr(binding_of(p), p.ty@, first_formatter(a))
        + ")"@;
    if has_no_name(a) {
        "__lg_args.push(::procon_lg::TraceArg::unlabeled("@ + value + "));\n"@
    } else {
        "__lg_args.push(::procon_lg::TraceArg::labeled(\""@ + binding_of(p) + "\", "@ + value
            + "));\n"@
    }
}

/// The statements that add the parameters at `idx` to the entry line's
/// arguments.
pub open spec fn arg_pushes(params: Seq<ParamInfo>, idx: Seq<int>) -> Seq<char>
    decreases idx.len(),
{
    if idx.len() == 0 {
        Seq::empty()
    } else {
        arg_pushes(params, idx.drop_last()) + arg_push(params[idx.last()])
    }
}

/// The check of the recursion limit at the start of the worker.
pub open spec fn limit_check(name: Seq<char>, limit: Option<usize>) -> Seq<char> {
    match limit {
        Some(n) => "if __lg_guard.exceeds("@ + decimal_digits(n as nat)
            + ") {\n::std::panic!(\"{}\", ::procon_lg::limit_message(\""@ + name + "\", "@
            + decimal_digits(n as nat) + "));\n}\n"@,
        None => Seq::empty(),
    }
}

/// The statement that writes the exit line for the value held by `var`.
pub open spec fn exit_stmt(show: bool, var: Seq<char>) -> Seq<char> {
    if show {
        "::std::eprintln!(\"{}\", ::procon_lg::render_exit(__lg_guard.current_depth(), ::std::option::Option::Some(::std::format!(\"{:?}\", "@
            + var + "))));\n"@
    } else {
        "::std::eprintln!(\"{}\", ::procon_lg::render_exit(__lg_guard.current_depth(), ::std::option::Option::None));\n"@
    }
}

/// The text ` -> T` of a return type, or nothing.
pub open spec fn ret_text(output: Option<String>) -> Seq<char> {
    match output {
        Some(t) => " -> "@ + t@,
        None => Seq::empty(),
    }
}

pub open spec fn unsafe_text(is_unsafe: bool) -> Seq<char> {
    if is_unsafe {
        "unsafe "@
    } else {
        Seq::empty()
    }
}

/// Whether the exit lines of the function show its return value.
pub open spec fn shows_return(g: CodeGenerator) -> bool {
    shows_value(g.macro_args, unit_output(g.input_fn.output))
}

/// The worker's header, up to its opening brace.
pub open spec fn worker_header(f: FunctionSignature) -> Seq<char> {
    unsafe_text(f.is_unsafe) + "fn __procon_lg_recurse"@ + f.generics@ + "("@ + inner_params_text(
        f.params@,
    ) + "__lg_guard: ::procon_lg::DepthGuard)"@ + ret_text(f.output) + " "@ + f.where_clause@
        + " {\n"@
}

/// The worker's statements before the body: limit check, entry arguments and
/// entry line.
pub open spec fn worker_entry(g: CodeGenerator) -> Seq<char> {
    let f = g.input_fn;
    limit_check(f.name@, g.macro_args.recursion_limit)
        + "#[allow(unused_mut)]\nlet mut __lg_args: ::std::vec::Vec<::procon_lg::TraceArg> = ::std::vec::Vec::new();\n"@
        + arg_pushes(f.params@, printable_indices(f.params@))
        + "::std::eprintln!(\"{}\", ::procon_lg::render_entry(__lg_guard.current_depth(), \""@
        + f.name@ + "\", &__lg_args));\n"@
}

/// The outer function's header, up to its opening brace.
pub open spec fn outer_header(f: FunctionSignature) -> Seq<char> {
    f.attrs@ + " "@ + f.vis@ + " "@ + unsafe_text(f.is_unsafe) + "fn "@ + f.name@ + f.generics@
        + "("@ + outer_params_text(f.params@) + ")"@ + ret_text(f.output) + " "@ + f.where_clause@
        + " {\n"@
}

/// The worker's statements from the body on, and the outer function's call
/// of the worker.
pub open spec fn worker_tail(g: CodeGenerator, body: Seq<char>) -> Seq<char> {
    "let __lg_result = "@ + body + ";\n"@ + exit_stmt(shows_return(g), "__lg_result"@)
        + "__lg_result\n}\n__procon_lg_recurse("@ + call_args_text(g.input_fn.params@)
        + "::procon_lg::DepthGuard::new())\n}\n"@
}

/// The whole instrumented function for the rewritten body `body`.
pub open spec fn generated_source(g: CodeGenerator, body: Seq<char>) -> Seq<char> {
    outer_header(g.input_fn) + worker_header(g.input_fn) + worker_entry(g) + worker_tail(g, body)
}

/// The result of instrumenting: the first error, or the function's text.
pub open spec fn generate_result(g: CodeGenerator, body: Seq<char>, r: Result<
    String,
    GenerateError,
>) -> bool {
    match first_error(g.input_fn.params@) {
        Some(e) => r == Err::<String, GenerateError>(e),
        None => r matches Ok(s) && s@ == generated_source(g, body),
    }
}

fn kept_attrs(attrs: &Vec<ParamAttr>) -> (r: String)
    ensures
        r@ == kept_attrs_text(attrs@),
{
    let mut s = String::new();
    let mut i: usize = 0;
    while i < attrs.len()
        invariant
            i <= attrs@.len(),
            s@ == kept_attrs_text(attrs@.subrange(0, i as int)),
        decreases attrs@.len() - i,
    {
        proof {
            assert(attrs@.subrange(0, i as int + 1).drop_last() =~= attrs@.subrange(0, i as int));
        }
        if !is_recognized(&attrs[i]) {
            s.append(attrs[i].text.as_str());
            s.append(" ");
        }
        i = i + 1;
    }
    proof {
        assert(attrs@.subrange(0, attrs@.len() as int) =~= attrs@);
    }
    s
}

fn is_recognized(a: &ParamAttr) -> (r: bool)
    ensures
        r == (recognized(*a) is Some),
{
    same_text(a.name.as_str(), "fmt") || same_text(a.name.as_str(), "no_debug") || same_text(
        a.name.as_str(),
        "no_name",
    )
}

fn binding_text(p: &ParamInfo) -> (r: &str)
    ensures
        r@ == binding_of(*p),
{
    proof {
        reveal_strlit("");
    }
    match &p.binding {
        Some(b) => b.as_str(),
        None => "",
    }
}

impl CodeGenerator {
    /// The first reason why the function cannot be instrumented, if any.
    pub fn check(&self) -> (r: Option<GenerateError>)
        ensures
            r == first_error(self.input_fn.params@),
    {
        let params = &self.input_fn.params;
        let mut i: usize = 0;
        while i < params.len()
            invariant
                params@ == self.input_fn.params@,
                i <= params@.len(),
                first_error(params@.subrange(0, i as int)) is None,
            decreases params@.len() - i,
        {
            let ghost sub = params@.subrange(0, i as int + 1);
            proof {
                assert(sub.drop_last() =~= params@.subrange(0, i as int));
            }
            let p = &params[i];
            proof {
                assert(sub.last() == params@[i as int]);
            }
            if p.binding.is_none() {
                proof {
                    assert(first_error(sub) == Some(GenerateError::UnsupportedParameter { index: i }));
                    lemma_first_error_prefix(params@, i as int + 1);
                }
                return Some(GenerateError::UnsupportedParameter { index: i });
            }
            let a = ArgAttributes::from_attrs(&p.attrs);
            match a.check() {
                Some(e) => {
                    proof {
                        assert(first_error(sub) == Some(GenerateError::Annotation { index: i, error: e }));
                        lemma_first_error_prefix(params@, i as int + 1);
                    }
                    return Some(GenerateError::Annotation { index: i, error: e });
                },
                None => {},
            }
            i = i + 1;
        }
        proof {
            assert(params@.subrange(0, params@.len() as int) =~= params@);
        }
        None
    }

    /// The indices of the parameters shown in entry lines, in order.
    pub fn extract_printable_args(&self) -> (r: Vec<usize>)
        ensures
            r@.len() == printable_indices(self.input_fn.params@).len(),
            forall|k: int|
                0 <= k < r@.len() ==> #[trigger] r@[k] as int == printable_indices(
                    self.input_fn.params@,
                )[k],
    {
        let params = &self.input_fn.params;
        let mut out: Vec<usize> = Vec::new();
        let mut i: usize = 0;
        while i < params.len()
            invariant
                i <= params@.len(),
                out@.len() == printable_indices(params@.subrange(0, i as int)).len(),
                forall|k: int|
                    0 <= k < out@.len() ==> #[trigger] out@[k] as int == printable_indices(
                        params@.subrange(0, i as int),
                    )[k],
            decreases params@.len() - i,
        {
            proof {
                assert(params@.subrange(0, i as int + 1).drop_last() =~= params@.subrange(
                    0,
                    i as int,
                ));
            }
            let a = ArgAttributes::from_attrs(&params[i].attrs);
            if a.should_print() {
                out.push(i);
            }
            i = i + 1;
        }
        proof {
            assert(params@.subrange(0, params@.len() as int) =~= params@);
        }
        out
    }

    /// The statement that adds parameter `p` to the entry line's arguments.
    fn arg_push_text(p: &ParamInfo) -> (r: String)
        ensures
            r@ == arg_push(*p),
    {
        let a = ArgAttributes::from_attrs(&p.attrs);
        let name = binding_text(p);
        let mut value = String::from_str("::std::format!(\"{}\", ");
        let f = a.generate_format_tokens(name, p.ty.as_str());
        value.append(f.as_str());
        value.append(")");
        if a.should_hide_name() {
            let mut s = String::from_str("__lg_args.push(::procon_lg::TraceArg::unlabeled(");
            s.append(value.as_str());
            s.append("));\n");
            s
        } else {
            let mut s = String::from_str("__lg_args.push(::procon_lg::TraceArg::labeled(\"");
            s.append(name);
            s.append("\", ");
            s.append(value.as_str());
            s.append("));\n");
            s
        }
    }

    /// The statements that build the entry line's arguments from the shown
    /// parameters.
    pub fn generate_arg_format_expressions(&self) -> (r: String)
        ensures
            r@ == arg_pushes(self.input_fn.params@, printable_indices(self.input_fn.params@)),
    {
        let params = &self.input_fn.params;
        let idx = self.extract_printable_args();
        let ghost want = printable_indices(params@);
        proof {
            lemma_printable_in_range(params@);
        }
        let mut s = String::new();
        let mut k: usize = 0;
        while k < idx.len()
            invariant
                k <= idx@.len(),
                idx@.len() == want.len(),
                want == printable_indices(params@),
                forall|j: int| 0 <= j < idx@.len() ==> #[trigger] idx@[j] as int == want[j],
                forall|j: int| 0 <= j < want.len() ==> 0 <= #[trigger] want[j] < params@.len(),
                s@ == arg_pushes(params@, want.subrange(0, k as int)),
            decreases idx@.len() - k,
        {
            proof {
                assert(want.subrange(0, k as int + 1).drop_last() =~= want.subrange(0, k as int));
                assert(idx@[k as int] as int == want[k as int]);
            }
            let t = Self::arg_push_text(&params[idx[k]]);
            s.append(t.as_str());
            k = k + 1;
        }
        proof {
            assert(want.subrange(0, want.len() as int) =~= want);
        }
        s
    }

    /// The check of the recursion limit, where one is configured.
    fn generate_recursion_check(&self) -> (r: String)
        ensures
            r@ == limit_check(self.input_fn.name@, self.macro_args.recursion_limit),
    {
        match self.macro_args.recursion_limit {
            Some(n) => {
                let d = decimal_text(n);
                let mut s = String::from_str("if __lg_guard.exceeds(");
                s.append(d.as_str());
                s.append(") {\n::std::panic!(\"{}\", ::procon_lg::limit_message(\"");
                s.append(self.input_fn.name.as_str());
                s.append("\", ");
                s.append(d.as_str());
                s.append("));\n}\n");
                s
            },
            None => String::new(),
        }
    }

    /// Whether exit lines show the return value.
    pub fn shows_return_value(&self) -> (r: bool)
        ensures
            r == shows_return(*self),
    {
        let unit = is_unit_return_type(&self.input_fn.output);
        self.macro_args.shows_return_value(unit)
    }

    /// The rewriting of the body of this function.
    pub fn visitor(&self) -> (r: Visitor)
        ensures
            r.fn_name@ == self.input_fn.name@,
            r.show_return == shows_return(*self),
    {
        Visitor { fn_name: self.input_fn.name.clone(), show_return: self.shows_return_value() }
    }

    fn outer_fn_args(params: &Vec<ParamInfo>) -> (r: String)
        ensures
            r@ == outer_params_text(params@),
    {
        let mut s = String::new();
        let mut i: usize = 0;
        while i < params.len()
            invariant
                i <= params@.len(),
                s@ == outer_params_text(params@.subrange(0, i as int)),
            decreases params@.len() - i,
        {
            proof {
                assert(params@.subrange(0, i as int + 1).drop_last() =~= params@.subrange(
                    0,
                    i as int,
                ));
            }
            let p = &params[i];
            let a = kept_attrs(&p.attrs);
            s.append(a.as_str());
            s.append(binding_text(p));
            s.append(": ");
            s.append(p.ty.as_str());
            s.append(", ");
            i = i + 1;
        }
        proof {
            assert(params@.subrange(0, params@.len() as int) =~= params@);
        }
        s
    }

    fn inner_fn_args(params: &Vec<ParamInfo>) -> (r: String)
        ensures
            r@ == inner_params_text(params@),
    {
        let mut s = String::new();
        let mut i: usize = 0;
        while i < params.len()
            invariant
                i <= params@.len(),
                s@ == inner_params_text(params@.subrange(0, i as int)),
            decreases params@.len() - i,
        {
            proof {
                assert(params@.subrange(0, i as int + 1).drop_last() =~= params@.subrange(
                    0,
                    i as int,
                ));
            }
            let p = &params[i];
            let a = kept_attrs(&p.attrs);
            s.append(a.as_str());
            if p.mutable {
                s.append("mut ");
            }
            s.append(binding_text(p));
            s.append(": ");
            s.append(p.ty.as_str());
            s.append(", ");
            i = i + 1;
        }
        proof {
            assert(params@.subrange(0, params@.len() as int) =~= params@);
        }
        s
    }

    fn all_arg_names(params: &Vec<ParamInfo>) -> (r: String)
        ensures
            r@ == call_args_text(params@),
    {
        let mut s = String::new();
        let mut i: usize = 0;
        while i < params.len()
            invariant
                i <= params@.len(),
                s@ == call_args_text(params@.subrange(0, i as int)),
            decreases params@.len() - i,
        {
            proof {
                assert(params@.subrange(0, i as int + 1).drop_last() =~= params@.subrange(
                    0,
                    i as int,
                ));
            }
            s.append(binding_text(&params[i]));
            s.append(", ");
            i = i + 1;
        }
        proof {
            assert(params@.subrange(0, params@.len() as int) =~= params@);
        }
        s
    }

    /// The statement that writes the exit line for the value held by `var`.
    pub fn generate_return_output(&self, var: &str) -> (r: String)
        ensures
            r@ == exit_stmt(shows_return(*self), var@),
    {
        exit_statement(self.shows_return_value(), var)
    }

    fn generate_outer_header(&self) -> (r: String)
        ensures
            r@ == outer_header(self.input_fn),
    {
        let f = &self.input_fn;
        let mut s = f.attrs.clone();
        s.append(" ");
        s.append(f.vis.as_str());
        s.append(" ");
        if f.is_unsafe {
            s.append("unsafe ");
        }
        s.append("fn ");
        s.append(f.name.as_str());
        s.append(f.generics.as_str());
        s.append("(");
        let outer = Self::outer_fn_args(&f.params);
        s.append(outer.as_str());
        s.append(")");
        let ret = return_text(&f.output);
        s.append(ret.as_str());
        s.append(" ");
        s.append(f.where_clause.as_str());
        s.append(" {\n");
        s
    }

    fn generate_worker_header(&self) -> (r: String)
        ensures
            r@ == worker_header(self.input_fn),
    {
        let f = &self.input_fn;
        let mut s = String::new();
        if f.is_unsafe {
            s.append("unsafe ");
        }
        s.append("fn __procon_lg_recurse");
        s.append(f.generics.as_str());
        s.append("(");
        let inner = Self::inner_fn_args(&f.params);
        s.append(inner.as_str());
        s.append("__lg_guard: ::procon_lg::DepthGuard)");
        let ret = return_text(&f.output);
        s.append(ret.as_str());
        s.append(" ");
        s.append(f.where_clause.as_str());
        s.append(" {\n");
        s
    }

    fn generate_worker_entry(&self) -> (r: String)
        ensures
            r@ == worker_entry(*self),
    {
        let mut s = self.generate_recursion_check();
        s.append(
            "#[allow(unused_mut)]\nlet mut __lg_args: ::std::vec::Vec<::procon_lg::TraceArg> = ::std::vec::Vec::new();\n",
        );
        let pushes = self.generate_arg_format_expressions();
        s.append(pushes.as_str());
        s.append(
            "::std::eprintln!(\"{}\", ::procon_lg::render_entry(__lg_guard.current_depth(), \"",
        );
        s.append(self.input_fn.name.as_str());
        s.append("\", &__lg_args));\n");
        s
    }

    fn generate_worker_tail(&self, body: &str) -> (r: String)
        ensures
            r@ == worker_tail(*self, body@),
    {
        let mut s = String::from_str("let __lg_result = ");
        s.append(body);
        s.append(";\n");
        let exit = self.generate_return_output("__lg_result");
        s.append(exit.as_str());
        s.append("__lg_result\n}\n__procon_lg_recurse(");
        let names = Self::all_arg_names(&self.input_fn.params);
        s.append(names.as_str());
        s.append("::procon_lg::DepthGuard::new())\n}\n");
        s
    }

    /// The instrumented function, with `body` as its rewritten body; or why
    /// the function cannot be instrumented.
    pub fn generate(&self, body: &str) -> (r: Result<String, GenerateError>)
        ensures
            generate_result(*self, body@, r),
    {
        match self.check() {
            Some(e) => return Err(e),
            None => {},
        }
        let mut s = self.generate_outer_header();
        let t = self.generate_worker_header();
        s.append(t.as_str());
        let t = self.generate_worker_entry();
        s.append(t.as_str());
        let t = self.generate_worker_tail(body);
        s.append(t.as_str());
        Ok(s)
    }
}

/// The statement that writes the exit line for the value held by `var`,
/// showing the value exactly when `show` holds.
pub fn exit_statement(show: bool, var: &str) -> (r: String)
    ensures
        r@ == exit_stmt(show, var@),
{
    if show {
        let mut s = String::from_str(
            "::std::eprintln!(\"{}\", ::procon_lg::render_exit(__lg_guard.current_depth(), ::std::option::Option::Some(::std::format!(\"{:?}\", ",
        );
        s.append(var);
        s.append("))));\n");
        s
    } else {
        String::from_str(
            "::std::eprintln!(\"{}\", ::procon_lg::render_exit(__lg_guard.current_depth(), ::std::option::Option::None));\n",
        )
    }
}

fn return_text(output: &Option<String>) -> (r: String)
    ensures
        r@ == ret_text(*output),
{
    match output {
        Some(t) => {
            let mut s = String::from_str(" -> ");
            s.append(t.as_str());
            s
        },
        None => String::new(),
    }
}

proof fn lemma_first_error_prefix(params: Seq<ParamInfo>, i: int)
    requires
        0 <= i <= params.len(),
        first_error(params.subrange(0, i)) is Some,
    ensures
        first_error(params) == first_error(params.subrange(0, i)),
    decreases params.len() - i,
{
    if i < params.len() {
        assert(params.subrange(0, i + 1).drop_last() =~= params.subrange(0, i));
        lemma_first_error_prefix(params, i + 1);
    } else {
        assert(params.subrange(0, i) =~= params);
    }
}

/// The entry-argument statements of a parameter list, parameter by parameter.
pub open spec fn args_code(params: Seq<ParamInfo>) -> Seq<char>
    decreases params.len(),
{
    if params.len() == 0 {
        Seq::empty()
    } else {
        args_code(params.drop_last()) + if is_shown_param(params.last()) {
            arg_push(params.last())
        } else {
            Seq::empty()
        }
    }
}

proof fn lemma_arg_pushes_drop_last(params: Seq<ParamInfo>, idx: Seq<int>)
    requires
        params.len() > 0,
        forall|j: int| 0 <= j < idx.len() ==> 0 <= #[trigger] idx[j] < params.len() - 1,
    ensures
        arg_pushes(params, idx) == arg_pushes(params.drop_last(), idx),
    decreases idx.len(),
{
    if idx.len() > 0 {
        lemma_arg_pushes_drop_last(params, idx.drop_last());
        assert(params[idx.last()] == params.drop_last()[idx.last()]);
    }
}

proof fn lemma_entry_code_by_parameter(params: Seq<ParamInfo>)
    ensures
        arg_pushes(params, printable_indices(params)) == args_code(params),
    decreases params.len(),
{
    if params.len() > 0 {
        let init = printable_indices(params.drop_last());
        lemma_entry_code_by_parameter(params.drop_last());
        lemma_printable_in_range(params.drop_last());
        lemma_arg_pushes_drop_last(params, init);
        if is_shown_param(params.last()) {
            assert(init.push(params.len() - 1).drop_last() =~= init);
        }
    }
}

proof fn lemma_args_code_remove(params: Seq<ParamInfo>, i: int)
    requires
        0 <= i < params.len(),
        !is_shown_param(params[i]),
    ensures
        args_code(params.remove(i)) == args_code(params),
    decreases params.len(),
{
    if i == params.len() - 1 {
        assert(params.remove(i) =~= params.drop_last());
    } else {
        let r = params.remove(i);
        assert(r.drop_last() =~= params.drop_last().remove(i));
        assert(r.last() == params.last());
        lemma_args_code_remove(params.drop_last(), i);
    }
}

proof fn lemma_printable_are_shown(params: Seq<ParamInfo>)
    ensures
        forall|j: int|
            0 <= j < printable_indices(params).len() ==> is_shown_param(
                params[#[trigger] printable_indices(params)[j]],
            ),
    decreases params.len(),
{
    if params.len() > 0 {
        let init = printable_indices(params.drop_last());
        lemma_printable_are_shown(params.drop_last());
        lemma_printable_in_range(params.drop_last());
        assert forall|j: int| 0 <= j < init.len() implies is_shown_param(
            params[#[trigger] init[j]],
        ) by {
            assert(params[init[j]] == params.drop_last()[init[j]]);
        }
    }
}

/// A hidden parameter appears nowhere in entry lines, wherever it stands:
/// its index is not among the printable ones, and the statements that build
/// the entry line's arguments are the same as for the list without it.
pub proof fn lemma_hidden_parameter_absent(params: Seq<ParamInfo>, i: int)
    requires
        0 <= i < params.len(),
        !is_shown_param(params[i]),
    ensures
        !printable_indices(params).contains(i),
        arg_pushes(params, printable_indices(params)) == arg_pushes(
            params.remove(i),
            printable_indices(params.remove(i)),
        ),
{
    lemma_printable_are_shown(params);
    if printable_indices(params).contains(i) {
        let j = choose|j: int| 0 <= j < printable_indices(params).len() && printable_indices(params)[j] == i;
        assert(is_shown_param(params[printable_indices(params)[j]]));
    }
    lemma_entry_code_by_parameter(params);
    lemma_entry_code_by_parameter(params.remove(i));
    lemma_args_code_remove(params, i);
}

/// With `recursion_limit = n`, the worker's first statement checks the limit
/// `n`, as written in the generated text, before the entry line and the
/// body; a call at depth `n` fails the check and every call at a smaller
/// depth, `n - 1` included, passes it.
pub proof fn lemma_limit_boundary(g: CodeGenerator, n: usize)
    requires
        g.macro_args.recursion_limit == Some(n),
        n > 0,
    ensures
        worker_entry(g).subrange(0, limit_check(g.input_fn.name@, Some(n)).len() as int)
            == limit_check(g.input_fn.name@, Some(n)),
        limit_check(g.input_fn.name@, Some(n)) == "if __lg_guard.exceeds("@ + decimal_digits(
            n as nat,
        ) + ") {\n::std::panic!(\"{}\", ::procon_lg::limit_message(\""@ + g.input_fn.name@
            + "\", "@ + decimal_digits(n as nat) + "));\n}\n"@,
        decimal_value(decimal_digits(n as nat)) == n,
        over_limit(n as nat, n as nat),
        forall|d: nat| d < n ==> !#[trigger] over_limit(d, n as nat),
{
    lemma_decimal_round_trip(n as nat);
    let c = limit_check(g.input_fn.name@, Some(n));
    assert(worker_entry(g).subrange(0, c.len() as int) =~= c);
}

/// Every index listed as printable is an index of the parameter list.
pub proof fn lemma_printable_in_range(params: Seq<ParamInfo>)
    ensures
        forall|j: int|
            0 <= j < printable_indices(params).len() ==> 0 <= #[trigger] printable_indices(
                params,
            )[j] < params.len(),
    decreases params.len(),
{
    if params.len() > 0 {
        lemma_printable_in_range(params.drop_last());
        let init = printable_indices(params.drop_last());
        assert forall|j: int| 0 <= j < init.len() implies 0 <= #[trigger] init[j] < params.len() by {
            assert(0 <= init[j] < params.drop_last().len());
        }
    }
}

} // verus!
