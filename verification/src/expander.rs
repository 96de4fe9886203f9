//! The expansion of one invocation, from its tokens to the text that is
//! parsed in its place. The host performs what the engine asks for between
//! the steps: it writes the file and runs the processes.

use crate::diagnostics::{count_level, error_at, DiagnosticView, Diagnostics, Level, Span};
use crate::options::{
    body_trees, header_tokens, parse_header, parse_options, token_views, Delimiter, Options, Token,
    TokenKind, TokenTree, TokenView,
};
use crate::process::{
    check_errors_raw, classify_diagnostics, launch_failure_text, prefix, prefix_text,
    run_mixin_command, ProcessResult, Stage,
};
use crate::sandbox::{code_file_name, final_component, materialize, materialized_bytes};
use crate::text::{decimal, decimal_text, from_utf8, utf8_error_text};
use vstd::prelude::*;
use vstd::string::{StringExecFns, StringSliceAdditionalSpecFns};
use vstd::utf8::{decode_utf8, encode_utf8, valid_utf8};

verus! {

/// What the first process of an invocation left behind.
#[derive(Debug)]
pub enum Output {
    /// An interpreter ran the program: its output is the program's.
    Interpreted(ProcessResult),
    /// A compiler built the program into the named binary, which has yet to
    /// run.
    Compiled(ProcessResult, String),
}

impl Output {
    /// The finished process.
    pub open spec fn result(self) -> ProcessResult {
        match self {
            Output::Interpreted(out) => out,
            Output::Compiled(out, _) => out,
        }
    }

    /// The stage that the finished process belongs to.
    pub open spec fn stage(self) -> Stage {
        match self {
            Output::Interpreted(_) => Stage::Code,
            Output::Compiled(_, _) => Stage::Compiler,
        }
    }
}

/// What follows the first process.
#[derive(Debug)]
pub enum Step {
    /// The expansion has its output.
    Done(Vec<u8>),
    /// The expansion failed, and the failure was reported.
    Failed,
    /// The named binary is to be run in the sandbox, without arguments.
    RunBinary(String),
}

/// What an invocation asks of its host before any process runs.
#[derive(Debug)]
pub struct Expansion {
    /// The options of the invocation.
    pub options: Options,
    /// The name of the file to write, relative to the sandbox.
    pub code_file: String,
    /// The bytes to write into it.
    pub contents: Vec<u8>,
}

/// The text to parse in place of the invocation, and the name under which
/// its own diagnostics appear.
#[derive(Debug)]
pub struct Emitted {
    pub name: String,
    pub code: String,
}

/// The steps of materializing a file at which the host can fail.
#[derive(Clone, Copy, Debug, PartialEq, Eq, Structural)]
pub enum SandboxStep {
    CreateDirectory,
    CreateFile,
    Write,
    Flush,
}

impl SandboxStep {
    /// How the failure of a step is worded.
    pub open spec fn failure_text(self) -> Seq<char> {
        match self {
            SandboxStep::CreateDirectory => "could not create temporary directory: "@,
            SandboxStep::CreateFile => "could not create temporary file: "@,
            SandboxStep::Write => "could not write output: "@,
            SandboxStep::Flush => "could not flush output: "@,
        }
    }

    /// How the failure of a step is worded.
    pub fn failure(self) -> (r: &'static str)
        ensures
            r@ == self.failure_text(),
    {
        match self {
            SandboxStep::CreateDirectory => "could not create temporary directory: ",
            SandboxStep::CreateFile => "could not create temporary file: ",
            SandboxStep::Write => "could not write output: ",
            SandboxStep::Flush => "could not flush output: ",
        }
    }
}

/// The start of the name of an extension's sandbox directory.
pub open spec fn temp_dir_prefix_text(name: Seq<char>) -> Seq<char> {
    "rustc_external_mixin_"@ + name
}

/// The start of the name of an extension's sandbox directory. It holds the
/// extension's name, so that two extensions never share a directory.
pub fn temp_dir_prefix(name: &str) -> (r: String)
    ensures
        r@ == temp_dir_prefix_text(name@),
{
    let mut r = String::from_str("rustc_external_mixin_");
    r.append(name);
    r
}

/// The error of an invocation whose body is not exactly one string literal,
/// or `None` where it is one.
pub open spec fn body_error(name: Seq<char>, sp: Span, body: Seq<TokenTree>) -> Option<
    DiagnosticView,
> {
    if body.len() == 0 {
        Some(error_at(sp, "`"@ + name + "!` takes 1 argument"@))
    } else {
        match body[0] {
            TokenTree::Delimited(_, span, _) => Some(
                error_at(span, "argument must be a string literal"@),
            ),
            TokenTree::Token(t) => if t.kind != TokenKind::Str {
                Some(error_at(t.span, "argument must be a string literal"@))
            } else if body.len() > 1 {
                Some(error_at(sp, "`"@ + name + "!` takes 1 argument"@))
            } else {
                None
            },
        }
    }
}

/// The source text of a body that is one string literal.
pub open spec fn body_text(body: Seq<TokenTree>) -> Seq<char> {
    body[0]->Token_0.text@
}

/// The name under which the emitted text is parsed.
pub open spec fn source_name_text(filename: Seq<char>, first_line: u64, name: Seq<char>) -> Seq<
    char,
> {
    "<"@ + filename + ":"@ + decimal_text(first_line as nat) + " "@ + name + "!>"@
}

/// One registered extension: its name and its sandbox directory.
#[derive(Debug)]
pub struct MixinExpander {
    pub name: String,
    pub dir: String,
}

impl MixinExpander {
    /// Makes the extension `name` from what came of creating its sandbox
    /// directory: the directory's path, or the text of the error. A failure
    /// is reported as one error and no extension is made.
    pub fn new(cx: &mut Diagnostics, sp: Span, name: String, dir: Result<String, String>) -> (r:
        Result<MixinExpander, ()>)
        ensures
            match dir {
                Ok(d) => r is Ok && r->Ok_0.name == name && r->Ok_0.dir == d && final(cx)@ == old(
                    cx,
                )@,
                Err(e) => r is Err && final(cx)@ == old(cx)@.push(
                    error_at(
                        sp,
                        prefix_text(name@) + SandboxStep::CreateDirectory.failure_text() + e@,
                    ),
                ),
            },
    {
        match dir {
            Ok(d) => Ok(MixinExpander { name, dir: d }),
            Err(e) => {
                let mut msg = prefix(name.as_str());
                msg.append(SandboxStep::CreateDirectory.failure());
                msg.append(e.as_str());
                cx.span_err(sp, msg);
                Err(())
            },
        }
    }

    /// Reports that the host failed at `step` while it materialized the file,
    /// with the text of its error.
    pub fn sandbox_failure(&self, cx: &mut Diagnostics, sp: Span, step: SandboxStep, error: &str)
        ensures
            final(cx)@ == old(cx)@.push(
                error_at(sp, prefix_text(self.name@) + step.failure_text() + error@),
            ),
    {
        let mut msg = prefix(self.name.as_str());
        msg.append(step.failure());
        msg.append(error);
        cx.span_err(sp, msg);
    }

    /// Reads one invocation: its arguments, the name of the file that holds
    /// it and the line on which its body starts. A group in braces at the
    /// start is the option header; without one no option is set. What
    /// follows is the body. The invocation fails where the header is
    /// malformed, with the header's errors, or where the body is not exactly
    /// one string literal, with one error. Else it gives the options, and
    /// the file to write: named by the final component of `filename`,
    /// holding the literal's text behind `first_line - 1` line breaks.
    pub fn expand(
        &self,
        cx: &mut Diagnostics,
        sp: Span,
        raw_tts: &Vec<TokenTree>,
        filename: &str,
        first_line: u64,
    ) -> (r: Option<Expansion>)
        requires
            first_line >= 1,
        ensures
            ({
                let header = parse_header(header_tokens(raw_tts@));
                let body = body_error(self.name@, sp, body_trees(raw_tts@));
                if header.errors.len() > 0 {
                    r is None && final(cx)@ == old(cx)@ + header.errors
                } else if body is Some {
                    r is None && final(cx)@ == old(cx)@.push(body->Some_0)
                } else {
                    &&& final(cx)@ == old(cx)@
                    &&& r is Some
                    &&& r->Some_0.options@ == header.entries
                    &&& r->Some_0.code_file@ == final_component(filename@)
                    &&& r->Some_0.contents@ == materialized_bytes(
                        first_line,
                        encode_utf8(body_text(body_trees(raw_tts@))),
                    )
                }
            }),
    {
        let ghost before = cx@;
        let ghost body = body_trees(raw_tts@);
        let no_options: Vec<Token> = Vec::new();
        assert(token_views(no_options@) =~= Seq::<TokenView>::empty());
        let mut start: usize = 0;
        let mut option_tts: &Vec<Token> = &no_options;
        if raw_tts.len() > 0 {
            match &raw_tts[0] {
                TokenTree::Delimited(delim, _, inner) => {
                    if *delim == Delimiter::Brace {
                        start = 1;
                        option_tts = inner;
                    }
                },
                TokenTree::Token(_) => {},
            }
        }
        assert(token_views(option_tts@) == header_tokens(raw_tts@));
        assert(start <= raw_tts@.len() && body =~= raw_tts@.skip(start as int));
        let options = match parse_options(cx, option_tts) {
            Ok(o) => o,
            Err(_) => {
                return None;
            },
        };
        assert(cx@ =~= before);
        if start >= raw_tts.len() {
            self.takes_one_argument(cx, sp);
            return None;
        }
        assert(body[0] == raw_tts@[start as int]);
        match &raw_tts[start] {
            TokenTree::Delimited(_, span, _) => {
                cx.span_err(*span, String::from_str("argument must be a string literal"));
                None
            },
            TokenTree::Token(t) => {
                if t.kind != TokenKind::Str {
                    cx.span_err(t.span, String::from_str("argument must be a string literal"));
                    None
                } else if raw_tts.len() - start > 1 {
                    self.takes_one_argument(cx, sp);
                    None
                } else {
                    let code_file = code_file_name(filename);
                    let contents = materialize(first_line, t.text.as_str());
                    Some(Expansion { options, code_file, contents })
                }
            },
        }
    }

    fn takes_one_argument(&self, cx: &mut Diagnostics, sp: Span)
        ensures
            final(cx)@ == old(cx)@.push(error_at(sp, "`"@ + self.name@ + "!` takes 1 argument"@)),
    {
        let mut msg = String::from_str("`");
        msg.append(self.name.as_str());
        msg.append("!` takes 1 argument");
        cx.span_err(sp, msg);
    }

    /// Classifies the first process of an invocation. An interpreter that
    /// succeeded ends the expansion with its output. A compiler that
    /// succeeded asks for its binary to be run. A process that failed ends
    /// the expansion, and a binary is asked for in no other case than the
    /// compiler's success.
    pub fn handle(&self, cx: &mut Diagnostics, sp: Span, output: Output) -> (r: Step)
        ensures
            final(cx)@ == old(cx)@ + classify_diagnostics(
                sp,
                self.name@,
                output.stage(),
                output.result().success,
                output.result().status@,
                output.result().stderr@,
            ),
            match output {
                Output::Interpreted(out) => if out.success {
                    r == Step::Done(out.stdout)
                } else {
                    r is Failed
                },
                Output::Compiled(out, exe) => if out.success {
                    r == Step::RunBinary(exe)
                } else {
                    r is Failed
                },
            },
            r is RunBinary <==> output is Compiled && output.result().success,
            !output.result().success ==> r is Failed && count_level(final(cx)@, Level::Error)
                == count_level(old(cx)@, Level::Error) + 1,
            output.result().success ==> count_level(final(cx)@, Level::Error) == count_level(
                old(cx)@,
                Level::Error,
            ),
            output.result().success && output.result().stderr@.len() > 0 ==> count_level(
                final(cx)@,
                Level::Warning,
            ) == count_level(old(cx)@, Level::Warning) + 1,
    {
        match output {
            Output::Interpreted(out) => {
                match check_errors_raw(cx, sp, self.name.as_str(), Stage::Code, &out) {
                    Ok(_) => Step::Done(out.stdout),
                    Err(_) => Step::Failed,
                }
            },
            Output::Compiled(out, exe) => {
                match check_errors_raw(cx, sp, self.name.as_str(), Stage::Compiler, &out) {
                    Ok(_) => Step::RunBinary(exe),
                    Err(_) => Step::Failed,
                }
            },
        }
    }

    /// Takes what came of running the compiled binary `exe` without
    /// arguments: a failure to start it is reported as one error, a finished
    /// run is classified, and a successful one gives its output.
    pub fn handle_binary(
        &self,
        cx: &mut Diagnostics,
        sp: Span,
        exe: &str,
        launched: Result<ProcessResult, String>,
    ) -> (r: Result<Vec<u8>, ()>)
        ensures
            match launched {
                Ok(out) => {
                    &&& final(cx)@ == old(cx)@ + classify_diagnostics(
                        sp,
                        self.name@,
                        Stage::Binary,
                        out.success,
                        out.status@,
                        out.stderr@,
                    )
                    &&& if out.success {
                        r == Ok::<Vec<u8>, ()>(out.stdout)
                    } else {
                        r is Err
                    }
                },
                Err(e) => r is Err && final(cx)@ == old(cx)@.push(
                    error_at(
                        sp,
                        launch_failure_text(self.name@, exe@, Seq::<Seq<char>>::empty(), e@),
                    ),
                ),
            },
    {
        let no_args: Vec<String> = Vec::new();
        assert(crate::text::texts(no_args@) =~= Seq::<Seq<char>>::empty());
        let out = match run_mixin_command(cx, sp, self.name.as_str(), exe, &no_args, launched) {
            Ok(o) => o,
            Err(_) => {
                return Err(());
            },
        };
        match check_errors_raw(cx, sp, self.name.as_str(), Stage::Binary, &out) {
            Ok(_) => Ok(out.stdout),
            Err(_) => Err(()),
        }
    }

    /// Takes the decoding of the output: the text gets the name under which
    /// it is parsed, a decoding error is reported as one error.
    pub fn finish_decoded(
        &self,
        cx: &mut Diagnostics,
        sp: Span,
        filename: &str,
        first_line: u64,
        decoded: Result<String, String>,
    ) -> (r: Option<Emitted>)
        ensures
            match decoded {
                Ok(code) => {
                    &&& final(cx)@ == old(cx)@
                    &&& r is Some
                    &&& r->Some_0.code == code
                    &&& r->Some_0.name@ == source_name_text(filename@, first_line, self.name@)
                },
                Err(e) => r is None && final(cx)@ == old(cx)@.push(
                    error_at(sp, prefix_text(self.name@) + "emitted invalid UTF-8: "@ + e@),
                ),
            },
    {
        match decoded {
            Ok(code) => {
                let mut name = String::from_str("<");
                name.append(filename);
                name.append(":");
                name.append(decimal(first_line).as_str());
                name.append(" ");
                name.append(self.name.as_str());
                name.append("!>");
                Some(Emitted { name, code })
            },
            Err(e) => {
                let mut msg = prefix(self.name.as_str());
                msg.append("emitted invalid UTF-8: ");
                msg.append(e.as_str());
                cx.span_err(sp, msg);
                None
            },
        }
    }

    /// Turns the output of a finished expansion into the text to parse:
    /// exactly when the bytes are valid UTF-8, and then the text that they
    /// encode. Invalid bytes are reported as one error.
    pub fn finish(
        &self,
        cx: &mut Diagnostics,
        sp: Span,
        filename: &str,
        first_line: u64,
        output: Vec<u8>,
    ) -> (r: Option<Emitted>)
        ensures
            r is Some <==> valid_utf8(output@),
            r is Some ==> {
                &&& final(cx)@ == old(cx)@
                &&& r->Some_0.code@ == decode_utf8(output@)
                &&& r->Some_0.name@ == source_name_text(filename@, first_line, self.name@)
            },
            r is None ==> final(cx)@ == old(cx)@.push(
                error_at(
                    sp,
                    prefix_text(self.name@) + "emitted invalid UTF-8: "@ + utf8_error_text(
                        output@,
                    ),
                ),
            ),
    {
        let decoded = from_utf8(output);
        self.finish_decoded(cx, sp, filename, first_line, decoded)
    }
}

} // verus!
