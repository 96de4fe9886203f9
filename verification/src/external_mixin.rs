//! The interpreted extensions: one that takes its interpreter from the
//! options, and one for each interpreter that is fixed by name.

use crate::diagnostics::{error_at, note_at, DiagnosticView, Diagnostics, Span};
use crate::options::{
    arguments, plain_values, report_unknown_options, unknown_errors, value_views, values_of,
    Options,
};
use crate::process::{prefix, prefix_text};
use crate::text::texts;
use vstd::prelude::*;
use vstd::string::StringExecFns;

verus! {

/// A process to start in the sandbox: the binary, its arguments, and the
/// input file that follows them where there is one.
#[derive(Debug)]
pub struct Command {
    pub binary: String,
    pub args: Vec<String>,
    pub file: Option<String>,
}

/// One extension to register: its name, and its interpreter where the name
/// fixes it.
#[derive(Debug)]
pub struct Plugin {
    pub name: String,
    pub interpreter: Option<String>,
}

/// The name of the extension for `interpreter`, or of the generic one.
pub open spec fn macro_name_text(interpreter: Option<Seq<char>>) -> Seq<char> {
    match interpreter {
        Some(i) => i + "_mixin"@,
        None => "external"@ + "_mixin"@,
    }
}

fn plugin(interpreter: Option<&str>) -> (r: Plugin)
    ensures
        r.name@ == macro_name_text(
            match interpreter {
                Some(i) => Some(i@),
                None => None,
            },
        ),
        match interpreter {
            Some(i) => r.interpreter is Some && r.interpreter->Some_0@ == i@,
            None => r.interpreter is None,
        },
{
    match interpreter {
        Some(i) => {
            let mut name = String::from_str(i);
            name.append("_mixin");
            Plugin { name, interpreter: Some(String::from_str(i)) }
        },
        None => {
            let mut name = String::from_str("external");
            name.append("_mixin");
            Plugin { name, interpreter: None }
        },
    }
}

/// The interpreted extensions, in the order of registration: the generic
/// one, then those for `python`, `ruby`, `sh` and `perl`.
pub fn plugin_registrar() -> (r: Vec<Plugin>)
    ensures
        r@.len() == 5,
        r@[0].interpreter is None && r@[0].name@ == macro_name_text(None),
        forall|i: int|
            1 <= i < 5 ==> (#[trigger] r@[i]).interpreter is Some && r@[i].name@
                == macro_name_text(Some(r@[i].interpreter->Some_0@)),
        r@[1].interpreter->Some_0@ == "python"@,
        r@[2].interpreter->Some_0@ == "ruby"@,
        r@[3].interpreter->Some_0@ == "sh"@,
        r@[4].interpreter->Some_0@ == "perl"@,
{
    let mut r: Vec<Plugin> = Vec::new();
    r.push(plugin(None));
    r.push(plugin(Some("python")));
    r.push(plugin(Some("ruby")));
    r.push(plugin(Some("sh")));
    r.push(plugin(Some("perl")));
    r
}

/// What is reported where the interpreter is not declared exactly once.
pub open spec fn interpreter_errors(name: Seq<char>, sp: Span, declared: Seq<(Seq<char>, Span)>)
    -> Seq<DiagnosticView> {
    if declared.len() == 0 {
        seq![error_at(sp, prefix_text(name) + "missing option `interpreter`"@)]
    } else if declared.len() == 1 {
        Seq::empty()
    } else {
        seq![error_at(sp, prefix_text(name) + "option `interpreter` specified multiple times"@)]
            + Seq::new(declared.len(), |i: int| note_at(declared[i].1, "specified here"@))
    }
}

/// Decides what an interpreted extension runs. Each unknown option is
/// reported first, one error for each occurrence, whatever else holds; with a
/// fixed interpreter `interpreter` is no known option. With a fixed
/// interpreter the command always comes. Without one the option
/// `interpreter` must be declared exactly once: a missing one is one error, a
/// repeated one an error and a note at each declaration, and no command
/// comes. The arguments are the values of `arg` in their order, and the input
/// file follows them.
pub fn mixin(
    name: &str,
    interpreter: Option<&str>,
    cx: &mut Diagnostics,
    sp: Span,
    options: &Options,
    file: &str,
) -> (r: Result<Command, ()>)
    ensures
        match interpreter {
            Some(i) => r is Ok && r->Ok_0.binary@ == i@ && final(cx)@ == old(cx)@ + unknown_errors(
                name@,
                options@,
                false,
            ),
            None => {
                let declared = values_of(options@, "interpreter"@);
                &&& r is Ok <==> declared.len() == 1
                &&& r is Ok ==> r->Ok_0.binary@ == declared[0].0
                &&& final(cx)@ == old(cx)@ + unknown_errors(name@, options@, true)
                    + interpreter_errors(name@, sp, declared)
            },
        },
        r is Ok ==> texts(r->Ok_0.args@) == plain_values(values_of(options@, "arg"@)),
        r is Ok ==> r->Ok_0.file is Some && r->Ok_0.file->Some_0@ == file@,
{
    report_unknown_options(cx, name, options, interpreter.is_none());
    let ghost before = cx@;
    let binary = match interpreter {
        Some(s) => String::from_str(s),
        None => {
            let interps = options.get("interpreter");
            let ghost declared = values_of(options@, "interpreter"@);
            assert(value_views(interps@) == declared);
            if interps.len() == 1 {
                assert(value_views(interps@)[0] == declared[0]);
                assert(before + interpreter_errors(name@, sp, declared) =~= before);
                interps[0].0.clone()
            } else if interps.len() == 0 {
                let mut msg = prefix(name);
                msg.append("missing option `interpreter`");
                cx.span_err(sp, msg);
                assert(cx@ =~= before + interpreter_errors(name@, sp, declared));
                return Err(());
            } else {
                let mut msg = prefix(name);
                msg.append("option `interpreter` specified multiple times");
                cx.span_err(sp, msg);
                let ghost first = cx@;
                let mut i: usize = 0;
                while i < interps.len()
                    invariant
                        i <= interps@.len(),
                        value_views(interps@) == declared,
                        cx@ == first + Seq::new(
                            i as nat,
                            |j: int| note_at(declared[j].1, "specified here"@),
                        ),
                    decreases interps@.len() - i,
                {
                    assert(value_views(interps@)[i as int] == declared[i as int]);
                    cx.span_note(interps[i].1, String::from_str("specified here"));
                    i = i + 1;
                    assert(cx@ =~= first + Seq::new(
                        i as nat,
                        |j: int| note_at(declared[j].1, "specified here"@),
                    ));
                }
                assert(cx@ =~= before + interpreter_errors(name@, sp, declared));
                return Err(());
            }
        },
    };
    let args = arguments(options);
    Ok(Command { binary, args, file: Some(String::from_str(file)) })
}

} // verus!
