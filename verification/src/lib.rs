//! Mixin expansion engine: runs foreign source text embedded in a program at
//! build time and hands its output back as host-language syntax.
//!
//! The engine works on plain values. The host supplies tokens, runs the
//! processes and writes the files that the engine asks for; every decision in
//! between is made here.

pub mod diagnostics;
pub mod expander;
pub mod external_mixin;
pub mod options;
pub mod parser_any_macro;
pub mod process;
pub mod rust_mixin;
pub mod sandbox;
pub mod text;

pub use diagnostics::{Diagnostic, DiagnosticView, Diagnostics, Level, Span};
pub use expander::{MixinExpander, Output};
pub use options::Options;
pub use parser_any_macro::ParserAnyMacro;
pub use process::{run_mixin_command, ProcessResult};
