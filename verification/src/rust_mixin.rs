//! The compiled extension: the embedded program is built by the host
//! language's compiler and the binary is run.

use crate::diagnostics::{Diagnostics, Span};
use crate::external_mixin::{Command, Plugin};
use crate::options::{arguments, plain_values, report_unknown_options, unknown_errors, values_of, Options};
use crate::text::texts;
use vstd::prelude::*;
use vstd::string::StringExecFns;

verus! {

/// The extension's name.
pub const NAME: &'static str = "rust_mixin";

/// The name of the binary that the compiler is made to write. Every
/// invocation reuses it.
pub const TARGET: &'static str = "rust_mixin_output_binary";

/// The compiler.
pub const COMPILER: &'static str = "rustc";

/// The two options that pin the binary's name, each with its value.
pub open spec fn forced_arguments() -> Seq<Seq<char>> {
    seq!["--crate-name"@, TARGET@, "-o"@, TARGET@]
}

/// How the binary is started from the sandbox.
pub open spec fn artifact_text() -> Seq<char> {
    "./"@ + TARGET@
}

/// How the binary is started from the sandbox.
pub fn artifact() -> (r: String)
    ensures
        r@ == artifact_text(),
{
    let mut r = String::from_str("./");
    r.append(TARGET);
    r
}

/// The compiled extension, as the only one to register.
pub fn plugin_registrar() -> (r: Vec<Plugin>)
    ensures
        r@.len() == 1,
        r@[0].name@ == NAME@,
        r@[0].interpreter is None,
{
    let mut r: Vec<Plugin> = Vec::new();
    r.push(Plugin { name: String::from_str(NAME), interpreter: None });
    r
}

/// Decides what the compiled extension runs first: the compiler, with the
/// values of `arg` in their order, then the two options that pin the
/// binary's name, each with its value, then the input file. Each option other than `arg` is
/// reported as unknown, and the command comes all the same.
pub fn mixin(cx: &mut Diagnostics, sp: Span, options: &Options, file: &str) -> (r: Command)
    ensures
        final(cx)@ == old(cx)@ + unknown_errors(NAME@, options@, false),
        r.binary@ == COMPILER@,
        texts(r.args@) == plain_values(values_of(options@, "arg"@)) + forced_arguments(),
        r.file is Some && r.file->Some_0@ == file@,
{
    let mut args = arguments(options);
    let ghost declared = args@;
    report_unknown_options(cx, NAME, options, false);
    args.push(String::from_str("--crate-name"));
    args.push(String::from_str(TARGET));
    args.push(String::from_str("-o"));
    args.push(String::from_str(TARGET));
    assert(texts(args@) =~= texts(declared) + forced_arguments());
    Command { binary: String::from_str(COMPILER), args, file: Some(String::from_str(file)) }
}

} // verus!
