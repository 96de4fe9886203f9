//! The deferred parser: it holds the tokens of the emitted text and sees to
//! it that the shape asked for uses all of them. The host parses the shapes
//! themselves and says how many tokens each took.

use crate::diagnostics::{error_at, DiagnosticView, Diagnostics};
use crate::options::{token_views, Token, TokenKind, TokenView};
use vstd::prelude::*;
use vstd::string::StringExecFns;

verus! {

/// The syntactic shapes that an expansion can be asked for.
#[derive(Clone, Copy, Debug, PartialEq, Eq, Structural)]
pub enum Shape {
    Expr,
    Pat,
    Stmt,
    Items,
    ImplItems,
}

impl Shape {
    /// Whether one semicolon behind the shape is passed over in silence.
    pub open spec fn allows_semi_spec(self) -> bool {
        self == Shape::Expr || self == Shape::Stmt
    }

    /// Whether one semicolon behind the shape is passed over in silence.
    #[verifier::when_used_as_spec(allows_semi_spec)]
    pub fn allows_semi(self) -> (r: bool)
        ensures
            r == self.allows_semi_spec(),
    {
        match self {
            Shape::Expr => true,
            Shape::Stmt => true,
            _ => false,
        }
    }
}

/// The tokens left after `n` of them were taken, or none where fewer were
/// there.
pub open spec fn skip_clamped(rest: Seq<TokenView>, n: int) -> Seq<TokenView> {
    if n >= rest.len() {
        Seq::empty()
    } else if n <= 0 {
        rest
    } else {
        rest.skip(n)
    }
}

/// The tokens left after one leading semicolon was passed over, where that
/// is allowed and one is there.
pub open spec fn after_semi(rest: Seq<TokenView>, allow_semi: bool) -> Seq<TokenView> {
    if allow_semi && rest.len() > 0 && rest[0].kind == TokenKind::Semi {
        rest.skip(1)
    } else {
        rest
    }
}

/// The text of the error for tokens that the shape did not use.
pub open spec fn ignored_text(token: Seq<char>) -> Seq<char> {
    "macro expansion ignores token `"@ + token + "` and any following"@
}

/// What the completeness check reports for the tokens left: nothing where
/// none is left, else one error at the first of them.
pub open spec fn completeness_errors(rest: Seq<TokenView>, allow_semi: bool) -> Seq<
    DiagnosticView,
> {
    let left = after_semi(rest, allow_semi);
    if left.len() > 0 {
        seq![error_at(left[0].span, ignored_text(left[0].text))]
    } else {
        Seq::empty()
    }
}

/// The sum of the lengths.
pub open spec fn total(lengths: Seq<usize>) -> int
    decreases lengths.len(),
{
    if lengths.len() == 0 {
        0
    } else {
        total(lengths.drop_last()) + lengths.last()
    }
}

/// The tokens of the emitted text and how far they have been read.
#[derive(Debug)]
pub struct ParserAnyMacro {
    tokens: Vec<Token>,
    pos: usize,
}

impl ParserAnyMacro {
    #[verifier::type_invariant]
    spec fn well_formed(&self) -> bool {
        self.pos <= self.tokens@.len()
    }

    /// The tokens that have not been read yet.
    pub closed spec fn remaining(&self) -> Seq<TokenView> {
        token_views(self.tokens@).skip(self.pos as int)
    }

    /// A parser at the start of `tokens`.
    pub fn new(tokens: Vec<Token>) -> (r: ParserAnyMacro)
        ensures
            r.remaining() == token_views(tokens@),
    {
        let r = ParserAnyMacro { tokens, pos: 0 };
        assert(r.remaining() =~= token_views(tokens@));
        r
    }

    /// Whether every token has been read.
    pub fn at_eof(&self) -> (r: bool)
        ensures
            r == (self.remaining().len() == 0),
    {
        proof {
            use_type_invariant(self);
        }
        self.pos >= self.tokens.len()
    }

    /// The number of tokens that have not been read yet.
    pub fn tokens_left(&self) -> (r: usize)
        ensures
            r == self.remaining().len(),
    {
        proof {
            use_type_invariant(self);
        }
        self.tokens.len() - self.pos
    }

    /// Passes over the next `n` tokens, or over all that are left where they
    /// are fewer.
    pub fn bump(&mut self, n: usize)
        ensures
            final(self).remaining() == skip_clamped(old(self).remaining(), n as int),
    {
        proof {
            use_type_invariant(&*self);
        }
        let ghost before = self.remaining();
        if n >= self.tokens.len() - self.pos {
            self.pos = self.tokens.len();
        } else {
            self.pos = self.pos + n;
        }
        assert(self.remaining() =~= skip_clamped(before, n as int));
    }

    /// Makes sure that no token is left, so that nothing is dropped in
    /// silence. Where `allow_semi` holds, one semicolon is passed over first.
    /// A token that is left then is reported as one error at its span, which
    /// names it. The result says whether none was left.
    pub fn ensure_complete_parse(&mut self, cx: &mut Diagnostics, allow_semi: bool) -> (r: bool)
        ensures
            final(self).remaining() == after_semi(old(self).remaining(), allow_semi),
            final(cx)@ == old(cx)@ + completeness_errors(old(self).remaining(), allow_semi),
            r == (completeness_errors(old(self).remaining(), allow_semi).len() == 0),
    {
        proof {
            use_type_invariant(&*self);
        }
        let ghost rest = self.remaining();
        let ghost before = cx@;
        if allow_semi && self.pos < self.tokens.len() && self.tokens[self.pos].kind
            == TokenKind::Semi {
            self.pos = self.pos + 1;
        }
        assert(self.remaining() =~= after_semi(rest, allow_semi));
        if self.pos < self.tokens.len() {
            let token = &self.tokens[self.pos];
            assert(token@ == self.remaining()[0]);
            let mut msg = String::from_str("macro expansion ignores token `");
            msg.append(token.text.as_str());
            msg.append("` and any following");
            cx.span_err(token.span, msg);
            assert(cx@ =~= before + completeness_errors(rest, allow_semi));
            false
        } else {
            assert(cx@ =~= before + completeness_errors(rest, allow_semi));
            true
        }
    }

    /// Finishes a shape that is parsed in one piece, of which the host's
    /// parser took `consumed` tokens.
    pub fn make_single(self, cx: &mut Diagnostics, shape: Shape, consumed: usize) -> (r: bool)
        ensures
            final(cx)@ == old(cx)@ + completeness_errors(
                skip_clamped(self.remaining(), consumed as int),
                shape.allows_semi_spec(),
            ),
            r == (completeness_errors(
                skip_clamped(self.remaining(), consumed as int),
                shape.allows_semi_spec(),
            ).len() == 0),
    {
        let mut parser = self;
        parser.bump(consumed);
        parser.ensure_complete_parse(cx, shape.allows_semi())
    }

    /// Finishes an expression of `consumed` tokens: one semicolon may follow
    /// it, nothing else.
    pub fn make_expr(self, cx: &mut Diagnostics, consumed: usize) -> (r: bool)
        ensures
            final(cx)@ == old(cx)@ + completeness_errors(
                skip_clamped(self.remaining(), consumed as int),
                true,
            ),
            r == (completeness_errors(skip_clamped(self.remaining(), consumed as int), true).len()
                == 0),
    {
        self.make_single(cx, Shape::Expr, consumed)
    }

    /// Finishes a pattern of `consumed` tokens: nothing may follow it.
    pub fn make_pat(self, cx: &mut Diagnostics, consumed: usize) -> (r: bool)
        ensures
            final(cx)@ == old(cx)@ + completeness_errors(
                skip_clamped(self.remaining(), consumed as int),
                false,
            ),
            r == (completeness_errors(skip_clamped(self.remaining(), consumed as int), false).len()
                == 0),
    {
        self.make_single(cx, Shape::Pat, consumed)
    }

    /// Finishes a statement of `consumed` tokens: one semicolon may follow
    /// it, nothing else.
    pub fn make_stmt(self, cx: &mut Diagnostics, consumed: usize) -> (r: bool)
        ensures
            final(cx)@ == old(cx)@ + completeness_errors(
                skip_clamped(self.remaining(), consumed as int),
                true,
            ),
            r == (completeness_errors(skip_clamped(self.remaining(), consumed as int), true).len()
                == 0),
    {
        self.make_single(cx, Shape::Stmt, consumed)
    }

    /// Finishes a sequence of items, of which the host's parser found as
    /// many as `lengths` has entries, each of that many tokens, before it
    /// found no further one. Every item is kept; whatever follows the last
    /// is reported. The result is the number of items.
    pub fn make_items(self, cx: &mut Diagnostics, lengths: &Vec<usize>) -> (r: usize)
        ensures
            r == lengths@.len(),
            final(cx)@ == old(cx)@ + completeness_errors(
                skip_clamped(self.remaining(), total(lengths@)),
                false,
            ),
    {
        let ghost rest = self.remaining();
        let mut parser = self;
        let mut i: usize = 0;
        assert(lengths@.take(0) =~= Seq::<usize>::empty());
        while i < lengths.len()
            invariant
                i <= lengths@.len(),
                0 <= total(lengths@.take(i as int)),
                parser.remaining() == skip_clamped(rest, total(lengths@.take(i as int))),
            decreases lengths@.len() - i,
        {
            proof {
                assert(lengths@.take(i + 1).drop_last() =~= lengths@.take(i as int));
            }
            parser.bump(lengths[i]);
            assert(parser.remaining() =~= skip_clamped(rest, total(lengths@.take(i + 1))));
            i = i + 1;
        }
        assert(lengths@.take(i as int) =~= lengths@);
        parser.ensure_complete_parse(cx, false);
        i
    }

    /// Finishes a sequence of impl members. The host's parser is asked for
    /// one member after the other until no token is left; `lengths` holds
    /// the number of tokens of each member that it can find. The result is
    /// the number of members that were asked for: the first count at which
    /// the tokens are used up, or all of `lengths`. Whatever follows them is
    /// reported.
    pub fn make_impl_items(self, cx: &mut Diagnostics, lengths: &Vec<usize>) -> (r: usize)
        ensures
            r <= lengths@.len(),
            forall|j: int| 0 <= j < r ==> total(#[trigger] lengths@.take(j)) < self.remaining().len(),
            r < lengths@.len() ==> total(lengths@.take(r as int)) >= self.remaining().len(),
            final(cx)@ == old(cx)@ + completeness_errors(
                skip_clamped(self.remaining(), total(lengths@.take(r as int))),
                false,
            ),
    {
        let ghost rest = self.remaining();
        let mut parser = self;
        let mut i: usize = 0;
        assert(lengths@.take(0) =~= Seq::<usize>::empty());
        while i < lengths.len() && !parser.at_eof()
            invariant
                i <= lengths@.len(),
                0 <= total(lengths@.take(i as int)),
                parser.remaining() == skip_clamped(rest, total(lengths@.take(i as int))),
                forall|j: int| 0 <= j < i ==> total(#[trigger] lengths@.take(j)) < rest.len(),
            decreases lengths@.len() - i,
        {
            proof {
                assert(lengths@.take(i + 1).drop_last() =~= lengths@.take(i as int));
            }
            parser.bump(lengths[i]);
            assert(parser.remaining() =~= skip_clamped(rest, total(lengths@.take(i + 1))));
            i = i + 1;
        }
        parser.ensure_complete_parse(cx, false);
        i
    }
}

/// Where the items use up the emitted tokens, an item sequence reports
/// nothing. With one stray token behind them it reports exactly one error,
/// which stands at that token and names it.
pub proof fn lemma_items_completeness(rest: Seq<TokenView>, stray: TokenView, lengths: Seq<usize>)
    requires
        total(lengths) == rest.len(),
    ensures
        completeness_errors(skip_clamped(rest, total(lengths)), false) == Seq::<
            DiagnosticView,
        >::empty(),
        completeness_errors(skip_clamped(rest.push(stray), total(lengths)), false) == seq![
            error_at(stray.span, ignored_text(stray.text)),
        ],
{
    let longer = rest.push(stray);
    let left = skip_clamped(longer, total(lengths));
    assert(left.len() == 1);
    assert(left[0] == stray);
}

/// No token is ever dropped in silence: the completeness check reports
/// nothing only where no token is left, but for one semicolon where that is
/// allowed.
pub proof fn lemma_nothing_dropped(rest: Seq<TokenView>, allow_semi: bool)
    ensures
        completeness_errors(rest, allow_semi).len() == 0 <==> (rest.len() == 0 || (allow_semi
            && rest.len() == 1 && rest[0].kind == TokenKind::Semi)),
{
}

} // verus!
