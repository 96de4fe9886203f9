//! What a finished process left behind, and how it is classified.

use crate::diagnostics::{
    count_level, error_at, lemma_count_level_concat, note_at, warning_at, DiagnosticView,
    Diagnostics, Level, Span,
};
use crate::text::{from_utf8_lossy, join, joined, lossy_text, texts};
use vstd::prelude::*;
use vstd::string::StringExecFns;

verus! {

/// Exit status and captured streams of one process that ran to its end.
#[derive(Debug)]
pub struct ProcessResult {
    /// Whether the process exited with status zero.
    pub success: bool,
    /// The exit status as the platform words it.
    pub status: String,
    pub stdout: Vec<u8>,
    pub stderr: Vec<u8>,
}

/// The stage of the pipeline that a process belongs to.
#[derive(Clone, Copy, Debug, PartialEq, Eq, Structural)]
pub enum Stage {
    /// The interpreter running the embedded program.
    Code,
    /// The compiler building the embedded program.
    Compiler,
    /// The compiled program itself.
    Binary,
}

impl Stage {
    /// The word by which diagnostics call the stage.
    pub open spec fn label_text(self) -> Seq<char> {
        match self {
            Stage::Code => "code"@,
            Stage::Compiler => "compiler"@,
            Stage::Binary => "binary"@,
        }
    }

    /// The word by which diagnostics call the stage.
    pub fn label(self) -> (r: &'static str)
        ensures
            r@ == self.label_text(),
    {
        match self {
            Stage::Code => "code",
            Stage::Compiler => "compiler",
            Stage::Binary => "binary",
        }
    }
}

/// The start of every message: the extension's name as the user writes it.
pub open spec fn prefix_text(name: Seq<char>) -> Seq<char> {
    "`"@ + name + "!`: "@
}

/// The start of every message: the extension's name as the user writes it.
pub fn prefix(name: &str) -> (r: String)
    ensures
        r@ == prefix_text(name@),
{
    let mut r = String::from_str("`");
    r.append(name);
    r.append("!`: ");
    r
}

/// The error for a process that exited with a status other than zero.
pub open spec fn failure_text(name: Seq<char>, stage: Stage, status: Seq<char>) -> Seq<char> {
    prefix_text(name) + "the "@ + stage.label_text() + " did not execute successfully: "@ + status
}

/// The note that follows a failure: what the process wrote to stderr.
pub open spec fn failure_note_text(stage: Stage, stderr: Seq<u8>) -> Seq<char> {
    if stderr.len() == 0 {
        "there was no output on stderr"@
    } else {
        "the "@ + stage.label_text() + " emitted the following on stderr:\n"@ + lossy_text(stderr)
    }
}

/// The warning for a process that succeeded and still wrote to stderr.
pub open spec fn warning_text(name: Seq<char>, stage: Stage) -> Seq<char> {
    prefix_text(name) + "the "@ + stage.label_text()
        + " ran successfully, but had output on stderr"@
}

/// The note that follows that warning.
pub open spec fn warning_note_text(stderr: Seq<u8>) -> Seq<char> {
    "output:\n"@ + lossy_text(stderr)
}

/// The diagnostics that classifying one finished process reports.
pub open spec fn classify_diagnostics(
    sp: Span,
    name: Seq<char>,
    stage: Stage,
    success: bool,
    status: Seq<char>,
    stderr: Seq<u8>,
) -> Seq<DiagnosticView> {
    if !success {
        seq![
            error_at(sp, failure_text(name, stage, status)),
            note_at(sp, failure_note_text(stage, stderr)),
        ]
    } else if stderr.len() > 0 {
        seq![warning_at(sp, warning_text(name, stage)), note_at(sp, warning_note_text(stderr))]
    } else {
        Seq::empty()
    }
}

/// Classifies a finished process: `Err` exactly when it exited with a status
/// other than zero. A failure reports one error and one note, a success with
/// output on stderr one warning and one note, a clean success nothing.
pub fn check_errors_raw(
    cx: &mut Diagnostics,
    sp: Span,
    name: &str,
    kind: Stage,
    output: &ProcessResult,
) -> (r: Result<(), ()>)
    ensures
        r is Ok <==> output.success,
        final(cx)@ == old(cx)@ + classify_diagnostics(
            sp,
            name@,
            kind,
            output.success,
            output.status@,
            output.stderr@,
        ),
        count_level(final(cx)@, Level::Error) == count_level(old(cx)@, Level::Error) + if output.success {
            0nat
        } else {
            1nat
        },
        count_level(final(cx)@, Level::Warning) == count_level(old(cx)@, Level::Warning)
            + if output.success && output.stderr@.len() > 0 {
            1nat
        } else {
            0nat
        },
{
    let ghost before = cx@;
    proof {
        let reported = classify_diagnostics(
            sp,
            name@,
            kind,
            output.success,
            output.status@,
            output.stderr@,
        );
        lemma_count_level_concat(before, reported, Level::Error);
        lemma_count_level_concat(before, reported, Level::Warning);
        lemma_classify_counts(sp, name@, kind, output.success, output.status@, output.stderr@);
    }
    if !output.success {
        let mut msg = prefix(name);
        msg.append("the ");
        msg.append(kind.label());
        msg.append(" did not execute successfully: ");
        msg.append(output.status.as_str());
        cx.span_err(sp, msg);
        let note = if output.stderr.len() == 0 {
            String::from_str("there was no output on stderr")
        } else {
            let mut note = String::from_str("the ");
            note.append(kind.label());
            note.append(" emitted the following on stderr:\n");
            note.append(from_utf8_lossy(&output.stderr).as_str());
            note
        };
        cx.span_note(sp, note);
        assert(cx@ =~= before + classify_diagnostics(
            sp,
            name@,
            kind,
            output.success,
            output.status@,
            output.stderr@,
        ));
        return Err(());
    } else if output.stderr.len() != 0 {
        let mut msg = prefix(name);
        msg.append("the ");
        msg.append(kind.label());
        msg.append(" ran successfully, but had output on stderr");
        cx.span_warn(sp, msg);
        let mut note = String::from_str("output:\n");
        note.append(from_utf8_lossy(&output.stderr).as_str());
        cx.span_note(sp, note);
        assert(cx@ =~= before + classify_diagnostics(
            sp,
            name@,
            kind,
            output.success,
            output.status@,
            output.stderr@,
        ));
    } else {
        assert(cx@ =~= before + classify_diagnostics(
            sp,
            name@,
            kind,
            output.success,
            output.status@,
            output.stderr@,
        ));
    }
    Ok(())
}

/// The arguments that a process is started with: the declared ones, then the
/// input file if there is one.
pub open spec fn command_line_text(args: Seq<Seq<char>>, file: Option<Seq<char>>) -> Seq<
    Seq<char>,
> {
    match file {
        Some(f) => args.push(f),
        None => args,
    }
}

/// The arguments that a process is started with: the declared ones, then the
/// input file if there is one.
pub fn command_line(args: &Vec<String>, file: Option<&str>) -> (r: Vec<String>)
    ensures
        texts(r@) == command_line_text(
            texts(args@),
            match file {
                Some(f) => Some(f@),
                None => None,
            },
        ),
{
    let mut r: Vec<String> = Vec::new();
    let mut i: usize = 0;
    while i < args.len()
        invariant
            i <= args@.len(),
            r@.len() == i,
            forall|j: int| 0 <= j < i ==> (#[trigger] r@[j])@ == args@[j]@,
        decreases args@.len() - i,
    {
        r.push(args[i].clone());
        i = i + 1;
    }
    assert(texts(r@) =~= texts(args@));
    match file {
        Some(f) => {
            r.push(String::from_str(f));
            assert(texts(r@) =~= texts(args@).push(f@));
        },
        None => {},
    }
    r
}

/// The error for a process that could not be started: it names the binary
/// and, where there are any, all the arguments.
pub open spec fn launch_failure_text(
    name: Seq<char>,
    binary: Seq<char>,
    args: Seq<Seq<char>>,
    error: Seq<char>,
) -> Seq<char> {
    if args.len() == 0 {
        prefix_text(name) + "could not execute `"@ + binary + "`: "@ + error
    } else {
        prefix_text(name) + "could not execute `"@ + binary + "` with argument"@ + (if args.len()
            == 1 {
            ""@
        } else {
            "s"@
        }) + " `"@ + joined(args, "`, `"@) + "`: "@ + error
    }
}

/// Takes what came of starting `binary` with `args`: a finished process is
/// handed on untouched, a failure to start is reported as one error and
/// becomes `Err`.
pub fn run_mixin_command(
    cx: &mut Diagnostics,
    sp: Span,
    plugin_name: &str,
    binary: &str,
    args: &Vec<String>,
    launched: Result<ProcessResult, String>,
) -> (r: Result<ProcessResult, ()>)
    ensures
        match launched {
            Ok(o) => r == Ok::<ProcessResult, ()>(o) && final(cx)@ == old(cx)@,
            Err(e) => r is Err && final(cx)@ == old(cx)@.push(
                error_at(sp, launch_failure_text(plugin_name@, binary@, texts(args@), e@)),
            ),
        },
{
    match launched {
        Ok(o) => Ok(o),
        Err(e) => {
            let mut msg = prefix(plugin_name);
            msg.append("could not execute `");
            msg.append(binary);
            if args.len() == 0 {
                msg.append("`: ");
            } else {
                msg.append("` with argument");
                msg.append(if args.len() == 1 { "" } else { "s" });
                msg.append(" `");
                msg.append(join(args, "`, `").as_str());
                msg.append("`: ");
            }
            msg.append(e.as_str());
            cx.span_err(sp, msg);
            Err(())
        },
    }
}

/// How many errors and warnings classifying one finished process reports.
/// A process that exits with a status other than zero is reported by exactly
/// one error, which says that the stage did not execute successfully, and by
/// no warning. One that exits with status zero and has written to stderr is
/// reported by exactly one warning and by no error. A clean one is reported
/// by neither.
pub proof fn lemma_classify_counts(
    sp: Span,
    name: Seq<char>,
    stage: Stage,
    success: bool,
    status: Seq<char>,
    stderr: Seq<u8>,
)
    ensures
        count_level(classify_diagnostics(sp, name, stage, success, status, stderr), Level::Error)
            == if success {
            0nat
        } else {
            1nat
        },
        count_level(classify_diagnostics(sp, name, stage, success, status, stderr), Level::Warning)
            == if success && stderr.len() > 0 {
            1nat
        } else {
            0nat
        },
        !success ==> classify_diagnostics(sp, name, stage, success, status, stderr)[0] == error_at(
            sp,
            failure_text(name, stage, status),
        ),
        success && stderr.len() > 0 ==> classify_diagnostics(
            sp,
            name,
            stage,
            success,
            status,
            stderr,
        )[0] == warning_at(sp, warning_text(name, stage)),
{
    let d = classify_diagnostics(sp, name, stage, success, status, stderr);
    reveal_with_fuel(count_level, 3);
    if d.len() == 2 {
        assert(d.drop_last().drop_last() =~= Seq::<DiagnosticView>::empty());
    }
}

} // verus!
