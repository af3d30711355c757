//! Annotations on a traced function's parameters.
//!
//! A parameter is shown in entry lines only when it is annotated: `#[fmt]`
//! shows its `Debug` form, `#[fmt(expr)]` the `Display` form of `expr`
//! (arguments that are no expression count as a plain `#[fmt]`).
//! `#[no_name]` leaves out the `name:` label, and `#[no_debug]` marks a
//! parameter as hidden, which no `fmt` annotation may contradict.
use vstd::prelude::*;
use crate::syntax::{is_expression, parses_as_expr};
use crate::text::same_text;

verus! {

/// An attribute written on a parameter, as the compiler hands it over.
#[derive(Debug, Clone)]
pub struct ParamAttr {
    /// The attribute's path, as written (`fmt`, `no_debug`, `doc`, ...).
    pub name: String,
    /// The text inside the attribute's delimiters, for an attribute written
    /// with arguments (`fmt(node.key)`).
    pub args: Option<String>,
    /// The whole attribute, as written.
    pub text: String,
}

/// An annotation that tracing reads.
#[derive(Debug, Clone)]
pub enum ArgAttribute {
    /// `#[fmt]`: shown with its `Debug` form.
    Fmt,
    /// `#[fmt(expr)]`: shown as the `Display` form of `expr`.
    FmtWithExpression { formatter: String },
    /// `#[no_debug]`: hidden.
    NoDebug,
    /// `#[no_name]`: shown without its label.
    NoName,
}

/// The annotations of one parameter, in the order written.
#[derive(Debug, Clone)]
pub struct ArgAttributes {
    pub attrs: Vec<ArgAttribute>,
}

/// What is wrong with the annotations of one parameter.
#[derive(Debug, Clone, Copy)]
pub enum AnnotationError {
    /// More than one `fmt` annotation.
    DuplicateFormat,
    /// `no_debug` together with a `fmt` annotation.
    HiddenAndShown,
}

/// The annotation that an attribute stands for, if tracing reads it.
pub open spec fn recognized(a: ParamAttr) -> Option<ArgAttribute> {
    if a.name@ == "fmt"@ {
        match a.args {
            Some(f) => if parses_as_expr(f@) {
                Some(ArgAttribute::FmtWithExpression { formatter: f })
            } else {
                Some(ArgAttribute::Fmt)
            },
            None => Some(ArgAttribute::Fmt),
        }
    } else if a.name@ == "no_debug"@ {
        Some(ArgAttribute::NoDebug)
    } else if a.name@ == "no_name"@ {
        Some(ArgAttribute::NoName)
    } else {
        None
    }
}

/// The annotations among a list of attributes, in order.
pub open spec fn annotations_of(attrs: Seq<ParamAttr>) -> Seq<ArgAttribute>
    decreases attrs.len(),
{
    if attrs.len() == 0 {
        Seq::empty()
    } else {
        let init = annotations_of(attrs.drop_last());
        match recognized(attrs.last()) {
            Some(a) => init.push(a),
            None => init,
        }
    }
}

pub open spec fn is_format(a: ArgAttribute) -> bool {
    a is Fmt || a is FmtWithExpression
}

/// How many `fmt` annotations a list holds.
pub open spec fn format_count(a: Seq<ArgAttribute>) -> nat
    decreases a.len(),
{
    if a.len() == 0 {
        0
    } else {
        format_count(a.drop_last()) + if is_format(a.last()) {
            1nat
        } else {
            0nat
        }
    }
}

/// Whether a list holds the annotation `no_debug`.
pub open spec fn has_no_debug(a: Seq<ArgAttribute>) -> bool {
    exists|k: int| 0 <= k < a.len() && a[k] is NoDebug
}

/// Whether a list holds the annotation `no_name`.
pub open spec fn has_no_name(a: Seq<ArgAttribute>) -> bool {
    exists|k: int| 0 <= k < a.len() && a[k] is NoName
}

/// The expression of the first `fmt(expr)` annotation.
pub open spec fn first_formatter(a: Seq<ArgAttribute>) -> Option<String>
    decreases a.len(),
{
    if a.len() == 0 {
        None
    } else {
        match first_formatter(a.drop_last()) {
            Some(f) => Some(f),
            None => match a.last() {
                ArgAttribute::FmtWithExpression { formatter } => Some(formatter),
                _ => None,
            },
        }
    }
}

/// Whether the parameter is shown in entry lines.
pub open spec fn shown(a: Seq<ArgAttribute>) -> bool {
    format_count(a) > 0 && !has_no_debug(a)
}

/// The first error of a list of annotations, if there is one.
pub open spec fn annotation_error(a: Seq<ArgAttribute>) -> Option<AnnotationError> {
    if format_count(a) > 1 {
        Some(AnnotationError::DuplicateFormat)
    } else if format_count(a) == 1 && has_no_debug(a) {
        Some(AnnotationError::HiddenAndShown)
    } else {
        None
    }
}

/// The source text of the expression that formats parameter `name` of type
/// `ty` for an entry line: a call of the custom formatter on a reference to
/// the value, or the value's `Debug` form.
pub open spec fn format_expr(name: Seq<char>, ty: Seq<char>, formatter: Option<String>) -> Seq<
    char,
> {
    match formatter {
        Some(f) => "(|"@ + name + ": & "@ + ty + "| "@ + f@ + ")(&"@ + name + ")"@,
        None => "format!(\"{:?}\", "@ + name + ")"@,
    }
}

/// Whether a list of attributes holds `#[no_debug]`.
pub fn has_no_debug_attr(attrs: &Vec<ParamAttr>) -> (r: bool)
    ensures
        r == exists|k: int| 0 <= k < attrs@.len() && #[trigger] attrs@[k].name@ == "no_debug"@,
{
    let mut i: usize = 0;
    while i < attrs.len()
        invariant
            i <= attrs@.len(),
            forall|k: int| 0 <= k < i ==> #[trigger] attrs@[k].name@ != "no_debug"@,
        decreases attrs@.len() - i,
    {
        if same_text(attrs[i].name.as_str(), "no_debug") {
            return true;
        }
        i = i + 1;
    }
    false
}

fn recognize(a: &ParamAttr) -> (r: Option<ArgAttribute>)
    ensures
        r == recognized(*a),
{
    if same_text(a.name.as_str(), "fmt") {
        match &a.args {
            Some(f) => if is_expression(f.as_str()) {
                Some(ArgAttribute::FmtWithExpression { formatter: f.clone() })
            } else {
                Some(ArgAttribute::Fmt)
            },
            None => Some(ArgAttribute::Fmt),
        }
    } else if same_text(a.name.as_str(), "no_debug") {
        Some(ArgAttribute::NoDebug)
    } else if same_text(a.name.as_str(), "no_name") {
        Some(ArgAttribute::NoName)
    } else {
        None
    }
}

impl ArgAttributes {
    /// The annotations among a parameter's attributes; attributes that
    /// tracing does not read are left out.
    pub fn from_attrs(attrs: &Vec<ParamAttr>) -> (r: ArgAttributes)
        ensures
            r.attrs@ == annotations_of(attrs@),
    {
        let mut out: Vec<ArgAttribute> = Vec::new();
        let mut i: usize = 0;
        while i < attrs.len()
            invariant
                i <= attrs@.len(),
                out@ == annotations_of(attrs@.subrange(0, i as int)),
            decreases attrs@.len() - i,
        {
            proof {
                assert(attrs@.subrange(0, i as int + 1).drop_last() =~= attrs@.subrange(
                    0,
                    i as int,
                ));
            }
            match recognize(&attrs[i]) {
                Some(a) => out.push(a),
                None => {},
            }
            i = i + 1;
        }
        proof {
            assert(attrs@.subrange(0, attrs@.len() as int) =~= attrs@);
        }
        ArgAttributes { attrs: out }
    }

    /// How many `fmt` annotations the parameter has.
    fn count_formats(&self) -> (r: usize)
        ensures
            r as nat == format_count(self.attrs@),
    {
        let mut c: usize = 0;
        let mut i: usize = 0;
        while i < self.attrs.len()
            invariant
                i <= self.attrs@.len(),
                c as nat == format_count(self.attrs@.subrange(0, i as int)),
                c <= i,
            decreases self.attrs@.len() - i,
        {
            proof {
                assert(self.attrs@.subrange(0, i as int + 1).drop_last() =~= self.attrs@.subrange(
                    0,
                    i as int,
                ));
            }
            match &self.attrs[i] {
                ArgAttribute::Fmt => c = c + 1,
                ArgAttribute::FmtWithExpression { .. } => c = c + 1,
                _ => {},
            }
            i = i + 1;
        }
        proof {
            assert(self.attrs@.subrange(0, self.attrs@.len() as int) =~= self.attrs@);
        }
        c
    }

    /// Whether the parameter has a `no_debug` annotation.
    fn is_hidden(&self) -> (r: bool)
        ensures
            r == has_no_debug(self.attrs@),
    {
        let mut i: usize = 0;
        while i < self.attrs.len()
            invariant
                i <= self.attrs@.len(),
                forall|k: int| 0 <= k < i ==> !(#[trigger] self.attrs@[k] is NoDebug),
            decreases self.attrs@.len() - i,
        {
            if let ArgAttribute::NoDebug = &self.attrs[i] {
                return true;
            }
            i = i + 1;
        }
        false
    }

    /// Whether the parameter is shown in entry lines.
    pub fn should_print(&self) -> (r: bool)
        ensures
            r == shown(self.attrs@),
    {
        self.count_formats() > 0 && !self.is_hidden()
    }

    /// Whether the parameter is shown without its label.
    pub fn should_hide_name(&self) -> (r: bool)
        ensures
            r == has_no_name(self.attrs@),
    {
        let mut i: usize = 0;
        while i < self.attrs.len()
            invariant
                i <= self.attrs@.len(),
                forall|k: int| 0 <= k < i ==> !(#[trigger] self.attrs@[k] is NoName),
            decreases self.attrs@.len() - i,
        {
            if let ArgAttribute::NoName = &self.attrs[i] {
                return true;
            }
            i = i + 1;
        }
        false
    }

    /// The expression of the first `fmt(expr)` annotation.
    pub fn get_custom_formatter(&self) -> (r: Option<&String>)
        ensures
            r matches Some(f) ==> first_formatter(self.attrs@) == Some(*f),
            r is None <==> first_formatter(self.attrs@) is None,
    {
        let mut i: usize = 0;
        while i < self.attrs.len()
            invariant
                i <= self.attrs@.len(),
                first_formatter(self.attrs@.subrange(0, i as int)) is None,
            decreases self.attrs@.len() - i,
        {
            proof {
                assert(self.attrs@.subrange(0, i as int + 1).drop_last() =~= self.attrs@.subrange(
                    0,
                    i as int,
                ));
            }
            if let ArgAttribute::FmtWithExpression { formatter } = &self.attrs[i] {
                proof {
                    lemma_first_formatter_prefix(self.attrs@, i as int + 1);
                }
                return Some(formatter);
            }
            i = i + 1;
        }
        proof {
            assert(self.attrs@.subrange(0, self.attrs@.len() as int) =~= self.attrs@);
        }
        None
    }

    /// The first error among the parameter's annotations, if there is one.
    pub fn check(&self) -> (r: Option<AnnotationError>)
        ensures
            r == annotation_error(self.attrs@),
    {
        let c = self.count_formats();
        if c > 1 {
            Some(AnnotationError::DuplicateFormat)
        } else if c == 1 && self.is_hidden() {
            Some(AnnotationError::HiddenAndShown)
        } else {
            None
        }
    }

    /// The source text of the expression that formats parameter `arg_name`
    /// of type `arg_type` for an entry line.
    pub fn generate_format_tokens(&self, arg_name: &str, arg_type: &str) -> (r: String)
        ensures
            r@ == format_expr(arg_name@, arg_type@, first_formatter(self.attrs@)),
    {
        match self.get_custom_formatter() {
            Some(f) => {
                let mut s = String::from_str("(|");
                s.append(arg_name);
                s.append(": & ");
                s.append(arg_type);
                s.append("| ");
                s.append(f.as_str());
                s.append(")(&");
                s.append(arg_name);
                s.append(")");
                s
            },
            None => {
                let mut s = String::from_str("format!(\"{:?}\", ");
                s.append(arg_name);
                s.append(")");
                s
            },
        }
    }
}

/// Once a prefix has a formatter, every longer prefix has the same one.
proof fn lemma_first_formatter_prefix(a: Seq<ArgAttribute>, i: int)
    requires
        0 <= i <= a.len(),
        first_formatter(a.subrange(0, i)) is Some,
    ensures
        first_formatter(a) == first_formatter(a.subrange(0, i)),
    decreases a.len() - i,
{
    if i < a.len() {
        assert(a.subrange(0, i + 1).drop_last() =~= a.subrange(0, i));
        lemma_first_formatter_prefix(a, i + 1);
    } else {
        assert(a.subrange(0, i) =~= a);
    }
}

} // verus!
