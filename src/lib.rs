//! Instrumentation of recursive functions with an indented call trace.
//!
//! The library turns a function definition, described by plain values, into
//! the source text of an instrumented version that writes a tree-shaped trace
//! of every call, its shown arguments, nested calls, user log lines and return
//! values. It also holds the runtime pieces that the generated code calls:
//! the depth handle and the trace renderer.
pub mod arg_attrs;
pub mod codegen;
pub mod depth;
pub mod render;
pub mod options;
pub mod syntax;
pub mod text;
pub mod visitor;

pub use arg_attrs::{has_no_debug_attr, AnnotationError, ArgAttribute, ArgAttributes, ParamAttr};
pub use codegen::{
    exit_statement, is_unit_return_type, CodeGenerator, FunctionSignature, GenerateError,
    ParamInfo,
};
pub use depth::{limit_message, DepthGuard};
pub use options::{ConfigError, ConfigErrorKind, MacroArgs, OptionToken};
pub use render::{
    indent, render_blank_line, render_entry, render_exit, render_log_block, render_log_lines,
    render_log_text, TraceArg,
};
pub use text::{decimal_text, parse_decimal, same_text};
pub use visitor::{CallRewrite, LogMacro, Visitor};
