use external_mixin_umbrella::diagnostics::{Diagnostics, Level, Span};
use external_mixin_umbrella::expander::{
    temp_dir_prefix, MixinExpander, Output, SandboxStep, Step,
};
use external_mixin_umbrella::external_mixin;
use external_mixin_umbrella::options::{
    arguments, parse_options, report_unknown_options, Delimiter, Options, Token, TokenKind,
    TokenTree,
};
use external_mixin_umbrella::parser_any_macro::{ParserAnyMacro, Shape};
use external_mixin_umbrella::process::{
    check_errors_raw, command_line, prefix, run_mixin_command, ProcessResult, Stage,
};
use external_mixin_umbrella::rust_mixin;
use external_mixin_umbrella::sandbox::{code_file_name, materialize};
use external_mixin_umbrella::text::{decimal, join};

const SP: Span = Span { lo: 3, hi: 90 };

fn token(kind: TokenKind, text: &str, lo: u32, hi: u32) -> Token {
    Token { kind, text: text.to_string(), span: Span { lo, hi } }
}

fn ident(text: &str, lo: u32) -> Token {
    token(TokenKind::Ident, text, lo, lo + 1)
}

fn eq(lo: u32) -> Token {
    token(TokenKind::Eq, "=", lo, lo + 1)
}

fn comma(lo: u32) -> Token {
    token(TokenKind::Comma, ",", lo, lo + 1)
}

fn string(text: &str, lo: u32) -> Token {
    token(TokenKind::Str, text, lo, lo + 1)
}

fn other(text: &str, lo: u32) -> Token {
    token(TokenKind::Other, text, lo, lo + 1)
}

fn semi(lo: u32) -> Token {
    token(TokenKind::Semi, ";", lo, lo + 1)
}

fn braces(tokens: Vec<Token>) -> TokenTree {
    TokenTree::Delimited(Delimiter::Brace, Span { lo: 5, hi: 39 }, tokens)
}

fn finished(success: bool, status: &str, stdout: &[u8], stderr: &[u8]) -> ProcessResult {
    ProcessResult {
        success,
        status: status.to_string(),
        stdout: stdout.to_vec(),
        stderr: stderr.to_vec(),
    }
}

fn expander(name: &str) -> MixinExpander {
    let mut cx = Diagnostics::new();
    let made = MixinExpander::new(&mut cx, SP, name.to_string(), Ok("/tmp/dir".to_string()));
    assert_eq!(cx.len(), 0);
    made.unwrap()
}

fn messages(cx: &Diagnostics) -> Vec<(Level, Span, String)> {
    (0..cx.len()).map(|i| (cx.get(i).level, cx.get(i).span, cx.get(i).message.clone())).collect()
}

fn options(pairs: &[(&str, &str)]) -> Options {
    let mut options = Options::new();
    for (i, (key, value)) in pairs.iter().enumerate() {
        let at = 10 * i as u32;
        options.push(key.to_string(), value.to_string(), Span { lo: at, hi: at + 5 });
    }
    options
}

#[test]
fn header_keeps_declared_values_in_order() {
    let tokens = vec![
        ident("interpreter", 0),
        eq(1),
        string("sh", 2),
        comma(3),
        ident("arg", 4),
        eq(5),
        string("-c", 6),
        comma(7),
        ident("arg", 8),
        eq(9),
        string("echo 1", 10),
    ];
    let mut cx = Diagnostics::new();
    let parsed = parse_options(&mut cx, &tokens).unwrap();
    assert_eq!(cx.len(), 0);
    assert_eq!(parsed.len(), 3);
    assert_eq!(parsed.entry(0).key, "interpreter");
    assert_eq!(parsed.entry(0).value, "sh");
    assert_eq!(parsed.entry(0).span, Span { lo: 0, hi: 3 });
    assert_eq!(
        parsed.get("arg"),
        vec![
            ("-c".to_string(), Span { lo: 4, hi: 7 }),
            ("echo 1".to_string(), Span { lo: 8, hi: 11 })
        ]
    );
    assert_eq!(parsed.get("interpreter"), vec![("sh".to_string(), Span { lo: 0, hi: 3 })]);
    assert!(parsed.get("missing").is_empty());
    assert_eq!(arguments(&parsed), vec!["-c".to_string(), "echo 1".to_string()]);
}

#[test]
fn empty_header_has_no_options() {
    let mut cx = Diagnostics::new();
    let parsed = parse_options(&mut cx, &Vec::new()).unwrap();
    assert_eq!(parsed.len(), 0);
    assert_eq!(cx.len(), 0);
}

#[test]
fn header_may_end_in_a_comma() {
    let tokens = vec![ident("arg", 0), eq(1), string("x", 2), comma(3)];
    let mut cx = Diagnostics::new();
    let parsed = parse_options(&mut cx, &tokens).unwrap();
    assert_eq!(parsed.len(), 1);
    assert_eq!(cx.len(), 0);
}

#[test]
fn each_malformed_entry_is_reported_and_the_header_fails() {
    let tokens = vec![
        ident("arg", 0),
        eq(1),
        other("1", 2),
        comma(3),
        ident("arg", 4),
        eq(5),
        string("fine", 6),
        comma(7),
        other("?", 8),
        comma(9),
        comma(10),
        ident("interpreter", 11),
        eq(12),
        other("2", 13),
        other("+", 14),
        other("3", 15),
    ];
    let mut cx = Diagnostics::new();
    assert!(parse_options(&mut cx, &tokens).is_err());
    assert_eq!(
        messages(&cx),
        vec![
            (Level::Error, Span { lo: 0, hi: 3 }, "option must be a string literal".to_string()),
            (
                Level::Error,
                Span { lo: 8, hi: 9 },
                "expected an option of the form `name = \"value\"`".to_string()
            ),
            (
                Level::Error,
                Span { lo: 10, hi: 11 },
                "expected an option of the form `name = \"value\"`".to_string()
            ),
            (Level::Error, Span { lo: 11, hi: 16 }, "option must be a string literal".to_string()),
        ]
    );
    assert_eq!(cx.count(Level::Error), 4);
    assert_eq!(cx.count(Level::Warning), 0);
}

#[test]
fn entries_need_a_comma_between_them() {
    let tokens =
        vec![ident("arg", 0), eq(1), string("x", 2), ident("arg", 3), eq(4), string("y", 5)];
    let mut cx = Diagnostics::new();
    assert!(parse_options(&mut cx, &tokens).is_err());
    assert_eq!(cx.len(), 1);
    assert_eq!(cx.get(0).span, Span { lo: 0, hi: 6 });
}

#[test]
fn unknown_option_is_reported_once() {
    let opts = options(&[("arg", "a"), ("foo", "x"), ("interpreter", "sh"), ("arg", "b")]);
    let mut cx = Diagnostics::new();
    let command = external_mixin::mixin("external_mixin", None, &mut cx, SP, &opts, "f.rs").unwrap();
    assert_eq!(command.binary, "sh");
    assert_eq!(command.args, vec!["a".to_string(), "b".to_string()]);
    assert_eq!(command.file.as_deref(), Some("f.rs"));
    assert_eq!(
        messages(&cx),
        vec![(
            Level::Error,
            Span { lo: 10, hi: 15 },
            "`external_mixin!`: unknown option `foo`".to_string()
        )]
    );

    let mut cx = Diagnostics::new();
    let command = rust_mixin::mixin(&mut cx, SP, &opts, "f.rs");
    assert_eq!(command.args.len(), 6);
    assert_eq!(
        messages(&cx),
        vec![
            (
                Level::Error,
                Span { lo: 10, hi: 15 },
                "`rust_mixin!`: unknown option `foo`".to_string()
            ),
            (
                Level::Error,
                Span { lo: 20, hi: 25 },
                "`rust_mixin!`: unknown option `interpreter`".to_string()
            ),
        ]
    );
}

#[test]
fn unknown_options_are_reported_per_occurrence() {
    let opts = options(&[("foo", "x"), ("arg", "a"), ("foo", "y")]);
    let mut cx = Diagnostics::new();
    report_unknown_options(&mut cx, "python_mixin", &opts, false);
    assert_eq!(cx.len(), 2);
    assert_eq!(cx.get(0).span, Span { lo: 0, hi: 5 });
    assert_eq!(cx.get(1).span, Span { lo: 20, hi: 25 });
    assert_eq!(cx.get(1).message, "`python_mixin!`: unknown option `foo`");
}

#[test]
fn fixed_interpreter_does_not_take_the_option() {
    let opts = options(&[("interpreter", "ruby")]);
    let mut cx = Diagnostics::new();
    let command =
        external_mixin::mixin("python_mixin", Some("python"), &mut cx, SP, &opts, "f.rs").unwrap();
    assert_eq!(command.binary, "python");
    assert_eq!(cx.len(), 1);
    assert_eq!(cx.get(0).message, "`python_mixin!`: unknown option `interpreter`");
}

#[test]
fn missing_interpreter_is_an_error() {
    let opts = options(&[("arg", "a")]);
    let mut cx = Diagnostics::new();
    assert!(external_mixin::mixin("external_mixin", None, &mut cx, SP, &opts, "f.rs").is_err());
    assert_eq!(
        messages(&cx),
        vec![(Level::Error, SP, "`external_mixin!`: missing option `interpreter`".to_string())]
    );
}

#[test]
fn unknown_option_is_reported_even_where_the_interpreter_is_missing() {
    let opts = options(&[("foo", "x")]);
    let mut cx = Diagnostics::new();
    assert!(external_mixin::mixin("external_mixin", None, &mut cx, SP, &opts, "f.rs").is_err());
    assert_eq!(
        messages(&cx),
        vec![
            (
                Level::Error,
                Span { lo: 0, hi: 5 },
                "`external_mixin!`: unknown option `foo`".to_string()
            ),
            (Level::Error, SP, "`external_mixin!`: missing option `interpreter`".to_string()),
        ]
    );
}

#[test]
fn repeated_interpreter_is_an_error_with_a_note_for_each() {
    let opts = options(&[("interpreter", "foo"), ("interpreter", "bar")]);
    let mut cx = Diagnostics::new();
    assert!(external_mixin::mixin("external_mixin", None, &mut cx, SP, &opts, "f.rs").is_err());
    assert_eq!(
        messages(&cx),
        vec![
            (
                Level::Error,
                SP,
                "`external_mixin!`: option `interpreter` specified multiple times".to_string()
            ),
            (Level::Note, Span { lo: 0, hi: 5 }, "specified here".to_string()),
            (Level::Note, Span { lo: 10, hi: 15 }, "specified here".to_string()),
        ]
    );
}

#[test]
fn interpreted_extensions_are_registered_in_order() {
    let plugins = external_mixin::plugin_registrar();
    let names: Vec<&str> = plugins.iter().map(|p| p.name.as_str()).collect();
    assert_eq!(
        names,
        vec!["external_mixin", "python_mixin", "ruby_mixin", "sh_mixin", "perl_mixin"]
    );
    let fixed: Vec<Option<&str>> = plugins.iter().map(|p| p.interpreter.as_deref()).collect();
    assert_eq!(fixed, vec![None, Some("python"), Some("ruby"), Some("sh"), Some("perl")]);
}

#[test]
fn failed_process_is_one_error_and_a_note() {
    let mut cx = Diagnostics::new();
    let out = finished(false, "exit status: 1", b"partial", b"boom\n");
    assert!(check_errors_raw(&mut cx, SP, "python_mixin", Stage::Code, &out).is_err());
    assert_eq!(
        messages(&cx),
        vec![
            (
                Level::Error,
                SP,
                "`python_mixin!`: the code did not execute successfully: exit status: 1"
                    .to_string()
            ),
            (Level::Note, SP, "the code emitted the following on stderr:\nboom\n".to_string()),
        ]
    );
    assert_eq!(cx.count(Level::Error), 1);
    assert_eq!(cx.count(Level::Note), 1);
}

#[test]
fn failed_process_without_stderr_says_so() {
    let mut cx = Diagnostics::new();
    let out = finished(false, "signal: 11", b"", b"");
    assert!(check_errors_raw(&mut cx, SP, "rust_mixin", Stage::Binary, &out).is_err());
    assert_eq!(
        messages(&cx),
        vec![
            (
                Level::Error,
                SP,
                "`rust_mixin!`: the binary did not execute successfully: signal: 11".to_string()
            ),
            (Level::Note, SP, "there was no output on stderr".to_string()),
        ]
    );
}

#[test]
fn output_on_stderr_is_one_warning() {
    let mut cx = Diagnostics::new();
    let out = finished(true, "exit status: 0", b"()", b"this is on stderr");
    assert!(check_errors_raw(&mut cx, SP, "python_mixin", Stage::Code, &out).is_ok());
    assert_eq!(
        messages(&cx),
        vec![
            (
                Level::Warning,
                SP,
                "`python_mixin!`: the code ran successfully, but had output on stderr".to_string()
            ),
            (Level::Note, SP, "output:\nthis is on stderr".to_string()),
        ]
    );
    assert_eq!(cx.count(Level::Warning), 1);
    assert_eq!(cx.count(Level::Error), 0);

    let mut cx = Diagnostics::new();
    let step = expander("python_mixin").handle(&mut cx, SP, Output::Interpreted(out));
    assert!(matches!(step, Step::Done(bytes) if bytes == b"()"));
    assert_eq!(cx.count(Level::Warning), 1);
}

#[test]
fn stderr_that_is_not_text_is_decoded_with_replacements() {
    let mut cx = Diagnostics::new();
    let out = finished(true, "exit status: 0", b"", &[b'a', 0xff, b'b']);
    assert!(check_errors_raw(&mut cx, SP, "sh_mixin", Stage::Compiler, &out).is_ok());
    assert_eq!(cx.get(0).message, "`sh_mixin!`: the compiler ran successfully, but had output on stderr");
    assert_eq!(cx.get(1).message, "output:\na\u{fffd}b");
}

#[test]
fn clean_process_reports_nothing() {
    let mut cx = Diagnostics::new();
    let out = finished(true, "exit status: 0", b"3", b"");
    assert!(check_errors_raw(&mut cx, SP, "sh_mixin", Stage::Code, &out).is_ok());
    assert_eq!(cx.len(), 0);
}

#[test]
fn failed_interpreter_gives_no_output() {
    let mut cx = Diagnostics::new();
    let out = finished(false, "exit status: 2", b"half", b"");
    let step = expander("sh_mixin").handle(&mut cx, SP, Output::Interpreted(out));
    assert!(matches!(step, Step::Failed));
    assert_eq!(cx.count(Level::Error), 1);
    assert_eq!(
        cx.get(0).message,
        "`sh_mixin!`: the code did not execute successfully: exit status: 2"
    );
}

#[test]
fn failed_compiler_never_runs_the_binary() {
    let mut cx = Diagnostics::new();
    let out = finished(false, "exit status: 101", b"", b"error: expected item");
    let step =
        expander("rust_mixin").handle(&mut cx, SP, Output::Compiled(out, rust_mixin::artifact()));
    assert!(matches!(step, Step::Failed));
    assert_eq!(
        cx.get(0).message,
        "`rust_mixin!`: the compiler did not execute successfully: exit status: 101"
    );
    assert_eq!(
        cx.get(1).message,
        "the compiler emitted the following on stderr:\nerror: expected item"
    );
}

#[test]
fn successful_compiler_asks_for_the_binary() {
    let mut cx = Diagnostics::new();
    let out = finished(true, "exit status: 0", b"ignored", b"");
    let e = expander("rust_mixin");
    let step = e.handle(&mut cx, SP, Output::Compiled(out, rust_mixin::artifact()));
    let exe = match step {
        Step::RunBinary(exe) => exe,
        other => panic!("unexpected step {:?}", other),
    };
    assert_eq!(exe, "./rust_mixin_output_binary");

    let ran = finished(false, "exit status: 101", b"", b"panicked");
    assert!(e.handle_binary(&mut cx, SP, &exe, Ok(ran)).is_err());
    assert_eq!(
        cx.get(0).message,
        "`rust_mixin!`: the binary did not execute successfully: exit status: 101"
    );

    let mut cx = Diagnostics::new();
    assert!(e.handle_binary(&mut cx, SP, &exe, Err("No such file".to_string())).is_err());
    assert_eq!(
        messages(&cx),
        vec![(
            Level::Error,
            SP,
            "`rust_mixin!`: could not execute `./rust_mixin_output_binary`: No such file"
                .to_string()
        )]
    );

    let mut cx = Diagnostics::new();
    let ran = finished(true, "exit status: 0", b"()", b"");
    assert_eq!(e.handle_binary(&mut cx, SP, &exe, Ok(ran)), Ok(b"()".to_vec()));
    assert_eq!(cx.len(), 0);
}

#[test]
fn launch_failure_names_binary_and_arguments() {
    let mut cx = Diagnostics::new();
    let none: Vec<String> = Vec::new();
    let one = vec!["-c".to_string()];
    let two = vec!["-c".to_string(), "echo".to_string()];
    let failed = || Err("not found".to_string());
    assert!(run_mixin_command(&mut cx, SP, "sh_mixin", "sh", &none, failed()).is_err());
    assert!(run_mixin_command(&mut cx, SP, "sh_mixin", "sh", &one, failed()).is_err());
    assert!(run_mixin_command(&mut cx, SP, "sh_mixin", "sh", &two, failed()).is_err());
    assert_eq!(cx.get(0).message, "`sh_mixin!`: could not execute `sh`: not found");
    assert_eq!(
        cx.get(1).message,
        "`sh_mixin!`: could not execute `sh` with argument `-c`: not found"
    );
    assert_eq!(
        cx.get(2).message,
        "`sh_mixin!`: could not execute `sh` with arguments `-c`, `echo`: not found"
    );
    assert_eq!(cx.count(Level::Error), 3);

    let ran = run_mixin_command(
        &mut cx,
        SP,
        "sh_mixin",
        "sh",
        &none,
        Ok(finished(false, "exit status: 1", b"o", b"e")),
    )
    .unwrap();
    assert!(!ran.success);
    assert_eq!(ran.stdout, b"o");
    assert_eq!(cx.len(), 3);
}

#[test]
fn command_line_ends_with_the_input_file() {
    let args = vec!["-a".to_string(), "-b".to_string()];
    assert_eq!(command_line(&args, Some("code.rs")), vec!["-a", "-b", "code.rs"]);
    assert_eq!(command_line(&args, None), vec!["-a", "-b"]);
    assert!(command_line(&Vec::new(), None).is_empty());
}

#[test]
fn text_helpers() {
    assert_eq!(prefix("x"), "`x!`: ");
    assert_eq!(join(&Vec::new(), ", "), "");
    assert_eq!(join(&vec!["a".to_string()], ", "), "a");
    assert_eq!(join(&vec!["a".to_string(), "b".to_string(), "c".to_string()], "`, `"), "a`, `b`, `c");
    assert_eq!(decimal(0), "0");
    assert_eq!(decimal(7), "7");
    assert_eq!(decimal(10), "10");
    assert_eq!(decimal(1905), "1905");
    assert_eq!(decimal(u64::MAX), "18446744073709551615");
    assert_eq!(temp_dir_prefix("perl_mixin"), "rustc_external_mixin_perl_mixin");
    assert_eq!(Stage::Code.label(), "code");
    assert_eq!(Stage::Compiler.label(), "compiler");
    assert_eq!(Stage::Binary.label(), "binary");
}

#[test]
fn sandbox_that_cannot_be_created_fails_the_registration() {
    let mut cx = Diagnostics::new();
    let made =
        MixinExpander::new(&mut cx, SP, "ruby_mixin".to_string(), Err("read-only".to_string()));
    assert!(made.is_err());
    assert_eq!(
        messages(&cx),
        vec![(
            Level::Error,
            SP,
            "`ruby_mixin!`: could not create temporary directory: read-only".to_string()
        )]
    );
    let e = expander("ruby_mixin");
    assert_eq!(e.name, "ruby_mixin");
    assert_eq!(e.dir, "/tmp/dir");
    e.sandbox_failure(&mut cx, SP, SandboxStep::CreateFile, "denied");
    e.sandbox_failure(&mut cx, SP, SandboxStep::Write, "full");
    e.sandbox_failure(&mut cx, SP, SandboxStep::Flush, "gone");
    assert_eq!(cx.get(1).message, "`ruby_mixin!`: could not create temporary file: denied");
    assert_eq!(cx.get(2).message, "`ruby_mixin!`: could not write output: full");
    assert_eq!(cx.get(3).message, "`ruby_mixin!`: could not flush output: gone");
}

#[test]
fn materialized_text_starts_on_its_own_line() {
    assert_eq!(materialize(1, "print(1)"), b"print(1)");
    assert_eq!(materialize(4, "print(1)\nprint(2)"), b"\n\n\nprint(1)\nprint(2)");
    assert_eq!(materialize(3, ""), b"\n\n");
    let file = String::from_utf8(materialize(12, "x = 1\ny = 2\n")).unwrap();
    let first = file.lines().position(|line| !line.is_empty()).unwrap() + 1;
    assert_eq!(first, 12);
    assert_eq!(materialize(2, "\u{e9}"), vec![b'\n', 0xc3, 0xa9]);
}

#[test]
fn code_file_is_named_by_the_final_component() {
    assert_eq!(code_file_name("/home/user/src/main.rs"), "main.rs");
    assert_eq!(code_file_name("tests/mixin.rs"), "mixin.rs");
    assert_eq!(code_file_name("lib.rs"), "lib.rs");
    assert_eq!(code_file_name("dir/"), "");
    assert_eq!(code_file_name(""), "");
    assert_eq!(code_file_name("d\u{e9}j\u{e0}/v\u{fc}.rs"), "v\u{fc}.rs");
}

#[test]
fn body_must_be_one_string_literal() {
    let e = expander("sh_mixin");
    let mut cx = Diagnostics::new();
    assert!(e.expand(&mut cx, SP, &Vec::new(), "a.rs", 1).is_none());
    assert!(e.expand(&mut cx, SP, &vec![TokenTree::Token(other("1", 40))], "a.rs", 1).is_none());
    let two = vec![TokenTree::Token(string("a", 40)), TokenTree::Token(string("b", 50))];
    assert!(e.expand(&mut cx, SP, &two, "a.rs", 1).is_none());
    let only_header = vec![braces(Vec::new())];
    assert!(e.expand(&mut cx, SP, &only_header, "a.rs", 1).is_none());
    let group = vec![TokenTree::Delimited(
        Delimiter::Paren,
        Span { lo: 60, hi: 70 },
        vec![string("a", 61)],
    )];
    assert!(e.expand(&mut cx, SP, &group, "a.rs", 1).is_none());
    let twice = vec![braces(Vec::new()), braces(Vec::new()), TokenTree::Token(string("a", 40))];
    assert!(e.expand(&mut cx, SP, &twice, "a.rs", 1).is_none());
    assert_eq!(
        messages(&cx),
        vec![
            (Level::Error, SP, "`sh_mixin!` takes 1 argument".to_string()),
            (Level::Error, Span { lo: 40, hi: 41 }, "argument must be a string literal".to_string()),
            (Level::Error, SP, "`sh_mixin!` takes 1 argument".to_string()),
            (Level::Error, SP, "`sh_mixin!` takes 1 argument".to_string()),
            (Level::Error, Span { lo: 60, hi: 70 }, "argument must be a string literal".to_string()),
            (Level::Error, Span { lo: 5, hi: 39 }, "argument must be a string literal".to_string()),
        ]
    );
}

#[test]
fn header_is_a_leading_group_in_braces() {
    let e = expander("sh_mixin");
    let mut cx = Diagnostics::new();
    let raw = vec![
        braces(vec![ident("arg", 10), eq(11), string("-x", 12)]),
        TokenTree::Token(string("echo 1", 40)),
    ];
    let expansion = e.expand(&mut cx, SP, &raw, "/src/deep/a.rs", 3).unwrap();
    assert_eq!(expansion.options.len(), 1);
    assert_eq!(expansion.options.get("arg"), vec![("-x".to_string(), Span { lo: 10, hi: 13 })]);
    assert_eq!(expansion.code_file, "a.rs");
    assert_eq!(expansion.contents, b"\n\necho 1");

    let raw = vec![braces(Vec::new()), TokenTree::Token(string("echo 2", 40))];
    let expansion = e.expand(&mut cx, SP, &raw, "a.rs", 1).unwrap();
    assert_eq!(expansion.options.len(), 0);
    assert_eq!(expansion.contents, b"echo 2");

    let raw = vec![TokenTree::Token(string("echo 3", 40))];
    let expansion = e.expand(&mut cx, SP, &raw, "a.rs", 2).unwrap();
    assert_eq!(expansion.options.len(), 0);
    assert_eq!(expansion.contents, b"\necho 3");
    assert_eq!(cx.len(), 0);
}

#[test]
fn malformed_header_fails_the_expansion() {
    let e = expander("sh_mixin");
    let mut cx = Diagnostics::new();
    let raw = vec![
        braces(vec![ident("arg", 0), eq(1), other("1", 2)]),
        TokenTree::Token(string("echo", 40)),
    ];
    assert!(e.expand(&mut cx, SP, &raw, "a.rs", 1).is_none());
    assert_eq!(cx.len(), 1);
    assert_eq!(cx.get(0).message, "option must be a string literal");
}

#[test]
fn output_must_be_text() {
    let e = expander("perl_mixin");
    let mut cx = Diagnostics::new();
    assert!(e.finish(&mut cx, SP, "src/a.rs", 3, vec![b'1', 0xff]).is_none());
    assert_eq!(cx.len(), 1);
    assert_eq!(cx.get(0).level, Level::Error);
    assert_eq!(cx.get(0).span, SP);
    assert!(cx.get(0).message.starts_with("`perl_mixin!`: emitted invalid UTF-8: "));

    let emitted = e.finish(&mut cx, SP, "src/a.rs", 120, "caf\u{e9}".as_bytes().to_vec()).unwrap();
    assert_eq!(emitted.code, "caf\u{e9}");
    assert_eq!(emitted.name, "<src/a.rs:120 perl_mixin!>");
    assert_eq!(cx.len(), 1);

    assert!(e.finish_decoded(&mut cx, SP, "a.rs", 1, Err("bad byte".to_string())).is_none());
    assert_eq!(cx.get(1).message, "`perl_mixin!`: emitted invalid UTF-8: bad byte");
}

#[test]
fn expression_may_end_in_one_semicolon() {
    let mut cx = Diagnostics::new();
    let parser = ParserAnyMacro::new(vec![other("3", 0), semi(1)]);
    assert!(parser.make_expr(&mut cx, 1));
    let parser = ParserAnyMacro::new(vec![other("3", 0), semi(1)]);
    assert!(parser.make_stmt(&mut cx, 1));
    assert_eq!(cx.len(), 0);

    let parser = ParserAnyMacro::new(vec![other("3", 0), semi(1), semi(2)]);
    assert!(!parser.make_expr(&mut cx, 1));
    let parser = ParserAnyMacro::new(vec![other("x", 0), semi(7)]);
    assert!(!parser.make_pat(&mut cx, 1));
    let parser = ParserAnyMacro::new(vec![other("3", 0), other("4", 5)]);
    assert!(!parser.make_single(&mut cx, Shape::Stmt, 1));
    assert_eq!(
        messages(&cx),
        vec![
            (
                Level::Error,
                Span { lo: 2, hi: 3 },
                "macro expansion ignores token `;` and any following".to_string()
            ),
            (
                Level::Error,
                Span { lo: 7, hi: 8 },
                "macro expansion ignores token `;` and any following".to_string()
            ),
            (
                Level::Error,
                Span { lo: 5, hi: 6 },
                "macro expansion ignores token `4` and any following".to_string()
            ),
        ]
    );
}

fn two_items() -> Vec<Token> {
    vec![
        other("fn", 0),
        other("a", 3),
        other("(", 4),
        other(")", 5),
        other("{", 6),
        other("}", 7),
        other("struct", 9),
        other("B", 16),
        semi(17),
    ]
}

#[test]
fn items_must_use_every_token() {
    let mut cx = Diagnostics::new();
    let parser = ParserAnyMacro::new(two_items());
    assert_eq!(parser.make_items(&mut cx, &vec![6, 3]), 2);
    assert_eq!(cx.len(), 0);

    let mut tokens = two_items();
    tokens.push(other("]", 19));
    let parser = ParserAnyMacro::new(tokens);
    assert_eq!(parser.make_items(&mut cx, &vec![6, 3]), 2);
    assert_eq!(
        messages(&cx),
        vec![(
            Level::Error,
            Span { lo: 19, hi: 20 },
            "macro expansion ignores token `]` and any following".to_string()
        )]
    );

    let mut cx = Diagnostics::new();
    let mut tokens = two_items();
    tokens.push(semi(19));
    let parser = ParserAnyMacro::new(tokens);
    assert_eq!(parser.make_items(&mut cx, &vec![6, 3]), 2);
    assert_eq!(cx.len(), 1);

    let parser = ParserAnyMacro::new(Vec::new());
    assert_eq!(parser.make_items(&mut cx, &Vec::new()), 0);
    assert_eq!(cx.len(), 1);
}

#[test]
fn impl_items_are_asked_for_until_the_end() {
    let mut cx = Diagnostics::new();
    let parser = ParserAnyMacro::new(two_items());
    assert_eq!(parser.make_impl_items(&mut cx, &vec![6, 3, 4]), 2);
    assert_eq!(cx.len(), 0);

    let parser = ParserAnyMacro::new(two_items());
    assert_eq!(parser.make_impl_items(&mut cx, &vec![6]), 1);
    assert_eq!(cx.len(), 1);
    assert_eq!(cx.get(0).span, Span { lo: 9, hi: 10 });
    assert_eq!(cx.get(0).message, "macro expansion ignores token `struct` and any following");
}

#[test]
fn parser_reads_forward_only() {
    let mut parser = ParserAnyMacro::new(two_items());
    assert_eq!(parser.tokens_left(), 9);
    assert!(!parser.at_eof());
    parser.bump(8);
    assert_eq!(parser.tokens_left(), 1);
    let mut cx = Diagnostics::new();
    assert!(parser.ensure_complete_parse(&mut cx, true));
    assert!(parser.at_eof());
    parser.bump(100);
    assert!(parser.at_eof());
    assert!(parser.ensure_complete_parse(&mut cx, false));
    assert_eq!(cx.len(), 0);
    assert!(Shape::Expr.allows_semi());
    assert!(Shape::Stmt.allows_semi());
    assert!(!Shape::Pat.allows_semi());
    assert!(!Shape::Items.allows_semi());
    assert!(!Shape::ImplItems.allows_semi());
}
