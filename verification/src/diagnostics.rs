//! Source spans and the diagnostics that an expansion reports to its host.

use vstd::prelude::*;

verus! {

/// A region of the enclosing program, as a pair of byte positions.
#[derive(Clone, Copy, Debug, PartialEq, Eq, Structural)]
pub struct Span {
    pub lo: u32,
    pub hi: u32,
}

/// How severe a diagnostic is.
#[derive(Clone, Copy, Debug, PartialEq, Eq, Structural)]
pub enum Level {
    Error,
    Warning,
    Note,
}

/// One message for the user, tied to a span.
#[derive(Debug)]
pub struct Diagnostic {
    pub level: Level,
    pub span: Span,
    pub message: String,
}

/// The mathematical content of a [`Diagnostic`].
pub struct DiagnosticView {
    pub level: Level,
    pub span: Span,
    pub message: Seq<char>,
}

impl View for Diagnostic {
    type V = DiagnosticView;

    open spec fn view(&self) -> DiagnosticView {
        DiagnosticView { level: self.level, span: self.span, message: self.message@ }
    }
}

/// An error with the given span and text.
pub open spec fn error_at(span: Span, message: Seq<char>) -> DiagnosticView {
    DiagnosticView { level: Level::Error, span, message }
}

/// A warning with the given span and text.
pub open spec fn warning_at(span: Span, message: Seq<char>) -> DiagnosticView {
    DiagnosticView { level: Level::Warning, span, message }
}

/// A note with the given span and text.
pub open spec fn note_at(span: Span, message: Seq<char>) -> DiagnosticView {
    DiagnosticView { level: Level::Note, span, message }
}

/// How many diagnostics of `level` the sequence holds.
pub open spec fn count_level(diags: Seq<DiagnosticView>, level: Level) -> nat
    decreases diags.len(),
{
    if diags.len() == 0 {
        0
    } else {
        count_level(diags.drop_last(), level) + if diags.last().level == level {
            1nat
        } else {
            0nat
        }
    }
}

/// Counting goes through concatenation: what two sequences hold of a level
/// is what each holds, added up.
pub proof fn lemma_count_level_concat(a: Seq<DiagnosticView>, b: Seq<DiagnosticView>, level: Level)
    ensures
        count_level(a + b, level) == count_level(a, level) + count_level(b, level),
    decreases b.len(),
{
    if b.len() == 0 {
        assert(a + b =~= a);
    } else {
        lemma_count_level_concat(a, b.drop_last(), level);
        assert((a + b).drop_last() =~= a + b.drop_last());
        assert((a + b).last() == b.last());
    }
}

/// The ordered list of diagnostics reported so far. Nothing is ever removed
/// from it.
pub struct Diagnostics {
    items: Vec<Diagnostic>,
}

impl View for Diagnostics {
    type V = Seq<DiagnosticView>;

    closed spec fn view(&self) -> Seq<DiagnosticView> {
        Seq::new(self.items@.len(), |i: int| self.items@[i]@)
    }
}

impl Diagnostics {
    /// An empty list.
    pub fn new() -> (r: Diagnostics)
        ensures
            r@ == Seq::<DiagnosticView>::empty(),
    {
        let r = Diagnostics { items: Vec::new() };
        assert(r@ =~= Seq::<DiagnosticView>::empty());
        r
    }

    fn report(&mut self, level: Level, span: Span, message: String)
        ensures
            final(self)@ == old(self)@.push(
                DiagnosticView { level, span, message: message@ },
            ),
    {
        let ghost before = self@;
        let ghost text = message@;
        self.items.push(Diagnostic { level, span, message });
        assert(self@ =~= before.push(DiagnosticView { level, span, message: text }));
    }

    /// Reports an error.
    pub fn span_err(&mut self, span: Span, message: String)
        ensures
            final(self)@ == old(self)@.push(error_at(span, message@)),
    {
        self.report(Level::Error, span, message)
    }

    /// Reports a warning.
    pub fn span_warn(&mut self, span: Span, message: String)
        ensures
            final(self)@ == old(self)@.push(warning_at(span, message@)),
    {
        self.report(Level::Warning, span, message)
    }

    /// Attaches a note to what was reported before.
    pub fn span_note(&mut self, span: Span, message: String)
        ensures
            final(self)@ == old(self)@.push(note_at(span, message@)),
    {
        self.report(Level::Note, span, message)
    }

    /// The number of diagnostics reported.
    pub fn len(&self) -> (n: usize)
        ensures
            n == self@.len(),
    {
        self.items.len()
    }

    /// The `i`-th diagnostic, in the order of reporting.
    pub fn get(&self, i: usize) -> (d: &Diagnostic)
        requires
            i < self@.len(),
        ensures
            d@ == self@[i as int],
    {
        &self.items[i]
    }

    /// The number of diagnostics of the given level.
    pub fn count(&self, level: Level) -> (n: usize)
        ensures
            n == count_level(self@, level),
    {
        let mut n: usize = 0;
        let mut i: usize = 0;
        while i < self.items.len()
            invariant
                i <= self.items@.len(),
                n <= i,
                n == count_level(self@.take(i as int), level),
            decreases self.items@.len() - i,
        {
            proof {
                assert(self@.take(i + 1).drop_last() =~= self@.take(i as int));
            }
            if self.items[i].level == level {
                n = n + 1;
            }
            i = i + 1;
        }
        assert(self@.take(i as int) =~= self@);
        n
    }
}

} // verus!
