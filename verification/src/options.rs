//! The option header of an invocation: `{ key = "value", ... }`.

use crate::diagnostics::{error_at, DiagnosticView, Diagnostics, Span};
use vstd::prelude::*;
use vstd::string::StringExecFns;

verus! {

/// The kinds of token that the engine tells apart.
#[derive(Clone, Copy, Debug, PartialEq, Eq, Structural)]
pub enum TokenKind {
    /// An identifier; the token's text is its name.
    Ident,
    /// The sign `=`.
    Eq,
    /// A comma.
    Comma,
    /// A semicolon.
    Semi,
    /// A string literal; the token's text is the string that it denotes.
    Str,
    /// Any other token.
    Other,
}

/// One token of the host language, with its place in the program.
#[derive(Debug)]
pub struct Token {
    pub kind: TokenKind,
    pub text: String,
    pub span: Span,
}

/// The mathematical content of a [`Token`].
pub struct TokenView {
    pub kind: TokenKind,
    pub text: Seq<char>,
    pub span: Span,
}

impl View for Token {
    type V = TokenView;

    open spec fn view(&self) -> TokenView {
        TokenView { kind: self.kind, text: self.text@, span: self.span }
    }
}

/// The brackets that can enclose a group of tokens.
#[derive(Clone, Copy, Debug, PartialEq, Eq, Structural)]
pub enum Delimiter {
    Paren,
    Bracket,
    Brace,
}

/// One argument of an invocation as the host hands it over: a single token,
/// or a bracketed group with its span and the tokens inside.
#[derive(Debug)]
pub enum TokenTree {
    Token(Token),
    Delimited(Delimiter, Span, Vec<Token>),
}

/// Whether an invocation starts with an option header: a group in braces.
pub open spec fn has_header(raw: Seq<TokenTree>) -> bool {
    raw.len() > 0 && raw[0] is Delimited && raw[0]->Delimited_0 == Delimiter::Brace
}

/// The tokens of the option header; none where the invocation has no header.
pub open spec fn header_tokens(raw: Seq<TokenTree>) -> Seq<TokenView> {
    if has_header(raw) {
        token_views(raw[0]->Delimited_2@)
    } else {
        Seq::empty()
    }
}

/// The arguments behind the option header.
pub open spec fn body_trees(raw: Seq<TokenTree>) -> Seq<TokenTree> {
    if has_header(raw) {
        raw.skip(1)
    } else {
        raw
    }
}

/// The views of a list of tokens.
pub open spec fn token_views(v: Seq<Token>) -> Seq<TokenView> {
    Seq::new(v.len(), |i: int| v[i]@)
}

/// One declared option: `key = "value"`, with the span from the key's start
/// to the value's end.
#[derive(Debug)]
pub struct OptionEntry {
    pub key: String,
    pub value: String,
    pub span: Span,
}

/// The mathematical content of an [`OptionEntry`].
pub struct OptionView {
    pub key: Seq<char>,
    pub value: Seq<char>,
    pub span: Span,
}

impl View for OptionEntry {
    type V = OptionView;

    open spec fn view(&self) -> OptionView {
        OptionView { key: self.key@, value: self.value@, span: self.span }
    }
}

/// The values declared for `key`, each with its span, in the order of
/// declaration.
pub open spec fn values_of(entries: Seq<OptionView>, key: Seq<char>) -> Seq<(Seq<char>, Span)>
    decreases entries.len(),
{
    if entries.len() == 0 {
        Seq::empty()
    } else if entries.last().key == key {
        values_of(entries.drop_last(), key).push((entries.last().value, entries.last().span))
    } else {
        values_of(entries.drop_last(), key)
    }
}

/// The views of a list of values with their spans.
pub open spec fn value_views(v: Seq<(String, Span)>) -> Seq<(Seq<char>, Span)> {
    Seq::new(v.len(), |i: int| (v[i].0@, v[i].1))
}

/// The options of one invocation: every declared entry, in the order of
/// declaration. A key may occur more than once.
#[derive(Debug)]
pub struct Options {
    entries: Vec<OptionEntry>,
}

impl View for Options {
    type V = Seq<OptionView>;

    closed spec fn view(&self) -> Seq<OptionView> {
        Seq::new(self.entries@.len(), |i: int| self.entries@[i]@)
    }
}

impl Options {
    /// No options at all.
    pub fn new() -> (r: Options)
        ensures
            r@ == Seq::<OptionView>::empty(),
    {
        let r = Options { entries: Vec::new() };
        assert(r@ =~= Seq::<OptionView>::empty());
        r
    }

    /// Adds one entry behind those that are there.
    pub fn push(&mut self, key: String, value: String, span: Span)
        ensures
            final(self)@ == old(self)@.push(OptionView { key: key@, value: value@, span }),
    {
        let ghost before = self@;
        let ghost added = OptionView { key: key@, value: value@, span };
        self.entries.push(OptionEntry { key, value, span });
        assert(self@ =~= before.push(added));
    }

    /// The number of entries.
    pub fn len(&self) -> (n: usize)
        ensures
            n == self@.len(),
    {
        self.entries.len()
    }

    /// The `i`-th entry, in the order of declaration.
    pub fn entry(&self, i: usize) -> (e: &OptionEntry)
        requires
            i < self@.len(),
        ensures
            e@ == self@[i as int],
    {
        &self.entries[i]
    }

    /// The values declared for `key`, each with its span, in the order of
    /// declaration; empty where the key was not declared.
    pub fn get(&self, key: &str) -> (r: Vec<(String, Span)>)
        ensures
            value_views(r@) == values_of(self@, key@),
    {
        let mut r: Vec<(String, Span)> = Vec::new();
        let wanted = String::from_str(key);
        let mut i: usize = 0;
        while i < self.entries.len()
            invariant
                i <= self.entries@.len(),
                wanted@ == key@,
                value_views(r@) == values_of(self@.take(i as int), key@),
            decreases self.entries@.len() - i,
        {
            proof {
                assert(self@.take(i + 1).drop_last() =~= self@.take(i as int));
                assert(self@.take(i + 1).last() == self.entries@[i as int]@);
            }
            let e = &self.entries[i];
            if e.key == wanted {
                let ghost before = r@;
                r.push((e.value.clone(), e.span));
                assert(value_views(r@) =~= value_views(before).push((e.value@, e.span)));
            }
            i = i + 1;
        }
        assert(self@.take(i as int) =~= self@);
        r
    }
}

/// What a header parses to: the well-formed entries, and one error for each
/// malformed one.
pub struct ParsedHeader {
    pub entries: Seq<OptionView>,
    pub errors: Seq<DiagnosticView>,
}

/// The index of the first comma at or after `from`, or the number of tokens
/// where there is none.
pub open spec fn segment_end(toks: Seq<TokenView>, from: int) -> int
    decreases toks.len() - from,
{
    if from < 0 || from >= toks.len() {
        toks.len() as int
    } else if toks[from].kind == TokenKind::Comma {
        from
    } else {
        segment_end(toks, from + 1)
    }
}

/// Whether the tokens from `from` up to `end` are an identifier, `=` and a
/// string literal.
pub open spec fn is_entry(toks: Seq<TokenView>, from: int, end: int) -> bool {
    &&& end - from == 3
    &&& toks[from].kind == TokenKind::Ident
    &&& toks[from + 1].kind == TokenKind::Eq
    &&& toks[from + 2].kind == TokenKind::Str
}

/// The span of the entry whose tokens run from `from` up to `end`: from its
/// first token's start to its last token's end. An entry without tokens has
/// the span of the comma that ends it.
pub open spec fn entry_span(toks: Seq<TokenView>, from: int, end: int) -> Span {
    if end > from {
        Span { lo: toks[from].span.lo, hi: toks[end - 1].span.hi }
    } else {
        toks[from].span
    }
}

/// The entry that well-formed tokens declare.
pub open spec fn entry_at(toks: Seq<TokenView>, from: int) -> OptionView {
    OptionView {
        key: toks[from].text,
        value: toks[from + 2].text,
        span: entry_span(toks, from, from + 3),
    }
}

/// The text of the error for a malformed entry.
pub open spec fn malformed_text(toks: Seq<TokenView>, from: int, end: int) -> Seq<char> {
    if end - from >= 2 && toks[from].kind == TokenKind::Ident && toks[from + 1].kind
        == TokenKind::Eq {
        "option must be a string literal"@
    } else {
        "expected an option of the form `name = \"value\"`"@
    }
}

/// The entries and errors of the tokens from `from` on. Commas separate the
/// entries; a comma at the very end is allowed.
pub open spec fn parse_from(toks: Seq<TokenView>, from: int) -> ParsedHeader
    decreases toks.len() - from,
    via parse_from_decreases
{
    if from < 0 || from >= toks.len() {
        ParsedHeader { entries: Seq::empty(), errors: Seq::empty() }
    } else {
        let end = segment_end(toks, from);
        let rest = if end < toks.len() {
            parse_from(toks, end + 1)
        } else {
            ParsedHeader { entries: Seq::empty(), errors: Seq::empty() }
        };
        if is_entry(toks, from, end) {
            ParsedHeader { entries: seq![entry_at(toks, from)] + rest.entries, errors: rest.errors }
        } else {
            ParsedHeader {
                entries: rest.entries,
                errors: seq![
                    error_at(entry_span(toks, from, end), malformed_text(toks, from, end)),
                ] + rest.errors,
            }
        }
    }
}

#[via_fn]
proof fn parse_from_decreases(toks: Seq<TokenView>, from: int) {
    if 0 <= from < toks.len() {
        lemma_segment_end(toks, from);
    }
}

/// A segment ends at or after its start, within the tokens, and holds no
/// comma.
pub proof fn lemma_segment_end(toks: Seq<TokenView>, from: int)
    requires
        0 <= from <= toks.len(),
    ensures
        from <= segment_end(toks, from) <= toks.len(),
        segment_end(toks, from) < toks.len() ==> toks[segment_end(toks, from)].kind
            == TokenKind::Comma,
        forall|j: int| from <= j < segment_end(toks, from) ==> toks[j].kind != TokenKind::Comma,
    decreases toks.len() - from,
{
    if from < toks.len() && toks[from].kind != TokenKind::Comma {
        lemma_segment_end(toks, from + 1);
    }
}

/// What a whole header parses to.
pub open spec fn parse_header(toks: Seq<TokenView>) -> ParsedHeader {
    parse_from(toks, 0)
}

/// Parses the tokens of an option header. Each malformed entry is reported as
/// one error and skipped, up to the next comma. The header is accepted exactly
/// when no entry is malformed; the options are then the declared entries in
/// their order.
pub fn parse_options(cx: &mut Diagnostics, option_tts: &Vec<Token>) -> (r: Result<Options, ()>)
    ensures
        final(cx)@ == old(cx)@ + parse_header(token_views(option_tts@)).errors,
        r is Ok <==> parse_header(token_views(option_tts@)).errors.len() == 0,
        r is Ok ==> r->Ok_0@ == parse_header(token_views(option_tts@)).entries,
{
    let ghost toks = token_views(option_tts@);
    let ghost before = cx@;
    let ghost mut errors: Seq<DiagnosticView> = Seq::empty();
    let mut error_occurred = false;
    let mut options = Options::new();
    let mut i: usize = 0;
    assert(options@ + parse_from(toks, 0).entries =~= parse_from(toks, 0).entries);
    assert(errors + parse_from(toks, 0).errors =~= parse_from(toks, 0).errors);
    assert(before + errors =~= before);
    while i < option_tts.len()
        invariant
            toks == token_views(option_tts@),
            i <= option_tts@.len(),
            cx@ == before + errors,
            error_occurred <==> errors.len() > 0,
            parse_header(toks).entries == options@ + parse_from(toks, i as int).entries,
            parse_header(toks).errors == errors + parse_from(toks, i as int).errors,
        decreases option_tts@.len() - i,
    {
        let mut end: usize = i;
        while end < option_tts.len() && option_tts[end].kind != TokenKind::Comma
            invariant
                toks == token_views(option_tts@),
                i <= end <= option_tts@.len(),
                segment_end(toks, i as int) == segment_end(toks, end as int),
            decreases option_tts@.len() - end,
        {
            end = end + 1;
        }
        let ghost rest = parse_from(toks, end + 1);
        assert(end == toks.len() ==> rest.entries =~= Seq::<OptionView>::empty() && rest.errors
            =~= Seq::<DiagnosticView>::empty());
        let ghost old_entries = options@;
        let ghost old_errors = errors;
        assert(segment_end(toks, end as int) == end);
        if end - i == 3 && option_tts[i].kind == TokenKind::Ident && option_tts[i + 1].kind
            == TokenKind::Eq && option_tts[i + 2].kind == TokenKind::Str {
            let span = Span { lo: option_tts[i].span.lo, hi: option_tts[i + 2].span.hi };
            options.push(option_tts[i].text.clone(), option_tts[i + 2].text.clone(), span);
            assert(is_entry(toks, i as int, end as int));
            assert(options@ + rest.entries =~= old_entries + (seq![entry_at(toks, i as int)]
                + rest.entries));
        } else {
            let span = if end > i {
                Span { lo: option_tts[i].span.lo, hi: option_tts[end - 1].span.hi }
            } else {
                option_tts[i].span
            };
            let msg = if end - i >= 2 && option_tts[i].kind == TokenKind::Ident && option_tts[i
                + 1].kind == TokenKind::Eq {
                String::from_str("option must be a string literal")
            } else {
                String::from_str("expected an option of the form `name = \"value\"`")
            };
            let ghost d = error_at(span, msg@);
            cx.span_err(span, msg);
            error_occurred = true;
            proof {
                assert(!is_entry(toks, i as int, end as int));
                assert(d == error_at(
                    entry_span(toks, i as int, end as int),
                    malformed_text(toks, i as int, end as int),
                ));
                errors = errors.push(d);
                assert(errors + rest.errors =~= old_errors + (seq![d] + rest.errors));
                assert(cx@ =~= before + errors);
            }
        }
        if end < option_tts.len() {
            i = end + 1;
        } else {
            i = end;
        }
    }
    assert(options@ + parse_from(toks, i as int).entries =~= options@);
    assert(errors + parse_from(toks, i as int).errors =~= errors);
    if error_occurred {
        Err(())
    } else {
        Ok(options)
    }
}

/// Whether the `k`-th group of four tokens is a well-formed entry, followed
/// by a comma unless the tokens end there.
pub open spec fn declared_at(toks: Seq<TokenView>, k: int) -> bool {
    &&& is_entry(toks, 4 * k, 4 * k + 3)
    &&& 4 * k + 3 < toks.len() ==> toks[4 * k + 3].kind == TokenKind::Comma
}

/// Whether `toks` is a valid header of `n` entries: each an identifier, `=`
/// and a string literal, with commas between them and possibly one at the
/// end.
pub open spec fn declares(toks: Seq<TokenView>, n: nat) -> bool {
    &&& toks.len() == 4 * n || (n > 0 && toks.len() == 4 * n - 1)
    &&& forall|k: int| 0 <= k < n ==> #[trigger] declared_at(toks, k)
}

proof fn lemma_declared_tail(toks: Seq<TokenView>, n: nat, k: int)
    requires
        declares(toks, n),
        0 <= k <= n,
    ensures
        parse_from(toks, 4 * k).errors.len() == 0,
        parse_from(toks, 4 * k).entries.len() == n - k,
        forall|j: int|
            0 <= j < n - k ==> #[trigger] parse_from(toks, 4 * k).entries[j] == entry_at(
                toks,
                4 * (k + j),
            ),
    decreases n - k,
{
    if k < n {
        assert(declared_at(toks, k));
        reveal_with_fuel(segment_end, 4);
        assert(segment_end(toks, 4 * k) == 4 * k + 3);
        if 4 * k + 3 < toks.len() {
            lemma_declared_tail(toks, n, k + 1);
            let rest = parse_from(toks, 4 * (k + 1));
            assert forall|j: int| 0 <= j < n - k implies #[trigger] parse_from(
                toks,
                4 * k,
            ).entries[j] == entry_at(toks, 4 * (k + j)) by {
                if j > 0 {
                    assert(rest.entries[j - 1] == entry_at(toks, 4 * (k + 1 + (j - 1))));
                }
            }
        }
    }
}

/// A valid header parses without error to the entries that it declares: as
/// many, in the order of declaration, each with the key and the value that
/// was written. Repeated keys stay in that order.
pub proof fn lemma_valid_header_recovers_declarations(toks: Seq<TokenView>, n: nat)
    requires
        declares(toks, n),
    ensures
        parse_header(toks).errors.len() == 0,
        parse_header(toks).entries.len() == n,
        forall|k: int|
            0 <= k < n ==> #[trigger] parse_header(toks).entries[k] == entry_at(toks, 4 * k),
{
    lemma_declared_tail(toks, n, 0);
}

/// Whether an extension knows the option `key`: every extension takes `arg`,
/// and one without a fixed interpreter takes `interpreter`.
pub open spec fn is_known(key: Seq<char>, with_interpreter: bool) -> bool {
    key == "arg"@ || (with_interpreter && key == "interpreter"@)
}

/// The text of the error for an option that the extension does not know.
pub open spec fn unknown_text(name: Seq<char>, key: Seq<char>) -> Seq<char> {
    "`"@ + name + "!`: "@ + "unknown option `"@ + key + "`"@
}

/// One error for each entry with an unknown key, at the entry's span, in the
/// order of declaration.
pub open spec fn unknown_errors(
    name: Seq<char>,
    entries: Seq<OptionView>,
    with_interpreter: bool,
) -> Seq<DiagnosticView>
    decreases entries.len(),
{
    if entries.len() == 0 {
        Seq::empty()
    } else if is_known(entries.last().key, with_interpreter) {
        unknown_errors(name, entries.drop_last(), with_interpreter)
    } else {
        unknown_errors(name, entries.drop_last(), with_interpreter).push(
            error_at(entries.last().span, unknown_text(name, entries.last().key)),
        )
    }
}

/// Reports each entry with an unknown key; the known ones are passed over.
pub fn report_unknown_options(
    cx: &mut Diagnostics,
    name: &str,
    options: &Options,
    with_interpreter: bool,
)
    ensures
        final(cx)@ == old(cx)@ + unknown_errors(name@, options@, with_interpreter),
{
    let ghost before = cx@;
    let arg = String::from_str("arg");
    let interpreter = String::from_str("interpreter");
    let mut i: usize = 0;
    assert(before + unknown_errors(name@, options@.take(0), with_interpreter) =~= before);
    while i < options.len()
        invariant
            i <= options@.len(),
            arg@ == "arg"@,
            interpreter@ == "interpreter"@,
            cx@ == before + unknown_errors(name@, options@.take(i as int), with_interpreter),
        decreases options@.len() - i,
    {
        proof {
            assert(options@.take(i + 1).drop_last() =~= options@.take(i as int));
            assert(options@.take(i + 1).last() == options@[i as int]);
        }
        let e = options.entry(i);
        if !(e.key == arg || (with_interpreter && e.key == interpreter)) {
            let mut msg = String::from_str("`");
            msg.append(name);
            msg.append("!`: ");
            msg.append("unknown option `");
            msg.append(e.key.as_str());
            msg.append("`");
            cx.span_err(e.span, msg);
            assert(cx@ =~= before + unknown_errors(
                name@,
                options@.take(i + 1),
                with_interpreter,
            ));
        }
        i = i + 1;
    }
    assert(options@.take(i as int) =~= options@);
}

/// Where exactly one entry has an unknown key, exactly one error is
/// reported: it names that key and stands at that entry, however many known
/// options the header holds beside it.
pub proof fn lemma_one_unknown_option(
    name: Seq<char>,
    entries: Seq<OptionView>,
    k: int,
    with_interpreter: bool,
)
    requires
        0 <= k < entries.len(),
        !is_known(entries[k].key, with_interpreter),
        forall|j: int|
            0 <= j < entries.len() && j != k ==> is_known(
                (#[trigger] entries[j]).key,
                with_interpreter,
            ),
    ensures
        unknown_errors(name, entries, with_interpreter) == seq![
            error_at(entries[k].span, unknown_text(name, entries[k].key)),
        ],
    decreases entries.len(),
{
    let init = entries.drop_last();
    if k == entries.len() - 1 {
        lemma_all_known(name, init, with_interpreter);
        assert(unknown_errors(name, entries, with_interpreter) =~= seq![
            error_at(entries[k].span, unknown_text(name, entries[k].key)),
        ]);
    } else {
        assert(is_known(entries[entries.len() - 1].key, with_interpreter));
        assert(init[k] == entries[k]);
        assert forall|j: int| 0 <= j < init.len() && j != k implies is_known(
            (#[trigger] init[j]).key,
            with_interpreter,
        ) by {
            assert(init[j] == entries[j]);
        }
        lemma_one_unknown_option(name, init, k, with_interpreter);
    }
}

/// Where every key is known, nothing is reported.
pub proof fn lemma_all_known(name: Seq<char>, entries: Seq<OptionView>, with_interpreter: bool)
    requires
        forall|j: int|
            0 <= j < entries.len() ==> is_known((#[trigger] entries[j]).key, with_interpreter),
    ensures
        unknown_errors(name, entries, with_interpreter) == Seq::<DiagnosticView>::empty(),
    decreases entries.len(),
{
    if entries.len() > 0 {
        let init = entries.drop_last();
        assert(is_known(entries[entries.len() - 1].key, with_interpreter));
        assert forall|j: int| 0 <= j < init.len() implies is_known(
            (#[trigger] init[j]).key,
            with_interpreter,
        ) by {
            assert(init[j] == entries[j]);
        }
        lemma_all_known(name, init, with_interpreter);
    }
}

/// The values only, without their spans.
pub open spec fn plain_values(values: Seq<(Seq<char>, Span)>) -> Seq<Seq<char>> {
    Seq::new(values.len(), |i: int| values[i].0)
}

/// The extra arguments that the options declare: the values of `arg`, in the
/// order of declaration.
pub fn arguments(options: &Options) -> (r: Vec<String>)
    ensures
        crate::text::texts(r@) == plain_values(values_of(options@, "arg"@)),
{
    let found = options.get("arg");
    let ghost all = found@;
    let mut r: Vec<String> = Vec::new();
    let mut i: usize = 0;
    while i < found.len()
        invariant
            i <= found@.len(),
            r@.len() == i,
            found@ == all,
            forall|j: int| 0 <= j < i ==> (#[trigger] r@[j])@ == all[j].0@,
        decreases found@.len() - i,
    {
        r.push(found[i].0.clone());
        i = i + 1;
    }
    assert(crate::text::texts(r@) =~= plain_values(value_views(all)));
    r
}

} // verus!
