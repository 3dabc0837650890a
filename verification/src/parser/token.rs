//! Tokens and the lexer that reads them from source text.

use super::evaluator::deferred_count;
use super::grammar::{
    lemma_run_end, lemma_scanned_span, lemma_scanned_well_formed, lexed, scan_from, scanned,
    CharClass,
};
use super::scanner::{lemma_len_fits, run, token_at};
use super::types::{Type, TypeView, Width};
use crate::text::{chars_of, text_between};
use vstd::prelude::*;

verus! {

/// Why source text yields no tokens.
#[derive(Debug, PartialEq, Eq, Clone, Copy, Structural)]
pub enum LexerError {
    /// Some piece of the text is no directive of the language.
    SyntaxError,
}

/// A directive of the source language, with its arguments already read.
#[derive(Debug, PartialEq, Eq, Clone)]
pub enum Token {
    /// `@fn NAME` opens a function.
    Fn(String),
    /// `@go NAME` jumps to a function.
    Go(String),
    /// `@load %REGISTER, INTEGER` puts a constant into a register.
    Load(String, i64),
    /// `@radd %TARGET, %SOURCE` adds the source register to the target.
    Radd(String, String),
    /// `@rsub %TARGET, %SOURCE` subtracts the source register from the
    /// target.
    Rsub(String, String),
    /// `@sum WIDTH, %REGISTER, OPERAND, ...` puts the sum of the operands
    /// into a register.
    Sum(String, String, Vec<Type>),
    /// `@syscall` calls the environment.
    Syscall,
    /// `@ret` returns from the function.
    Ret,
    /// `@nop` does nothing.
    Nop,
    /// `$global` makes the function that is closed next visible to other
    /// units.
    Global,
    /// `@endfn` closes the open function.
    EndFn,
}

/// What a [`Token`] stands for. Register names are kept without their `%`,
/// the operands of a sum with it.
pub ghost enum TokenView {
    Fn(Seq<char>),
    Go(Seq<char>),
    Load(Seq<char>, i64),
    Radd(Seq<char>, Seq<char>),
    Rsub(Seq<char>, Seq<char>),
    Sum(Seq<char>, Seq<char>, Seq<TypeView>),
    Syscall,
    Ret,
    Nop,
    Global,
    EndFn,
}

impl TokenView {
    /// Whether a token is one that source text can denote: a sum names
    /// its width, has at least two operands, and its integers are of that
    /// width.
    pub open spec fn well_formed(self) -> bool {
        match self {
            TokenView::Sum(tag, _, operands) => {
                &&& Width::tagged(tag) is Some
                &&& operands.len() >= 2
                &&& of_width(operands, Width::tagged(tag)->Some_0)
            },
            _ => true,
        }
    }
}

/// Whether every integer among the operands is of the given width and
/// within its range.
pub open spec fn of_width(operands: Seq<TypeView>, width: Width) -> bool {
    forall|i: int|
        0 <= i < operands.len() ==> (#[trigger] operands[i] matches TypeView::Int {
            width: w,
            value,
        } ==> w == width && width.holds(value))
}

/// Whether every token of a list is one that source text can denote.
pub open spec fn all_well_formed(tokens: Seq<TokenView>) -> bool {
    forall|i: int| 0 <= i < tokens.len() ==> (#[trigger] tokens[i]).well_formed()
}

impl DeepView for Token {
    type V = TokenView;

    open spec fn deep_view(&self) -> TokenView {
        match self {
            Token::Fn(name) => TokenView::Fn(name@),
            Token::Go(name) => TokenView::Go(name@),
            Token::Load(dist, value) => TokenView::Load(dist@, *value),
            Token::Radd(target, source) => TokenView::Radd(target@, source@),
            Token::Rsub(target, source) => TokenView::Rsub(target@, source@),
            Token::Sum(tag, dist, operands) => TokenView::Sum(tag@, dist@, operands.deep_view()),
            Token::Syscall => TokenView::Syscall,
            Token::Ret => TokenView::Ret,
            Token::Nop => TokenView::Nop,
            Token::Global => TokenView::Global,
            Token::EndFn => TokenView::EndFn,
        }
    }
}

impl View for Token {
    type V = TokenView;

    open spec fn view(&self) -> TokenView {
        self.deep_view()
    }
}

/// By how much a token moves the program counter: by 4 for an instruction,
/// by 4 and the number of its deferred operands for a sum, and not at all
/// for the tokens that only frame a function.
pub open spec fn span(token: TokenView) -> nat {
    match token {
        TokenView::Fn(_) => 0,
        TokenView::EndFn => 0,
        TokenView::Global => 0,
        TokenView::Sum(_, _, operands) => 4 + deferred_count(operands),
        _ => 4,
    }
}

/// By how much a run of tokens moves the program counter.
pub open spec fn total_span(tokens: Seq<TokenView>) -> nat
    decreases tokens.len(),
{
    if tokens.len() == 0 {
        0
    } else {
        total_span(tokens.drop_last()) + span(tokens.last())
    }
}

/// A longer run of tokens moves the program counter no less than any of its
/// beginnings.
pub proof fn lemma_total_span_monotone(tokens: Seq<TokenView>, n: int)
    requires
        0 <= n <= tokens.len(),
    ensures
        total_span(tokens.take(n)) <= total_span(tokens),
    decreases tokens.len() - n,
{
    if n == tokens.len() {
        assert(tokens.take(n) =~= tokens);
    } else {
        lemma_total_span_monotone(tokens, n + 1);
        assert(tokens.take(n + 1).drop_last() =~= tokens.take(n));
    }
}

/// Reads all of the text. Gives the tokens in their order, and beside them
/// every piece of text that is no directive, so that each can be reported:
/// a piece that is not understood runs up to the next blank, and reading
/// goes on behind it.
pub fn scan(input: &str) -> (found: (Vec<Token>, Vec<String>))
    ensures
        found.0.deep_view() == scanned(input@).0,
        found.1.deep_view() == scanned(input@).1,
        total_span(found.0.deep_view()) <= input@.len() <= usize::MAX,
        all_well_formed(found.0.deep_view()),
{
    let chars = chars_of(input);
    proof {
        lemma_scanned_span(input@);
        lemma_scanned_well_formed(input@);
        lemma_len_fits(&chars);
    }
    let mut tokens: Vec<Token> = Vec::new();
    let mut rejected: Vec<String> = Vec::new();
    let mut pos: usize = 0;
    assert(tokens.deep_view() =~= Seq::<TokenView>::empty());
    assert(rejected.deep_view() =~= Seq::<Seq<char>>::empty());
    loop
        invariant
            chars@ == input@,
            pos <= chars@.len() <= usize::MAX,
            total_span(scanned(input@).0) <= input@.len(),
            all_well_formed(scanned(input@).0),
            scan_from(chars@, pos as int, tokens.deep_view(), rejected.deep_view()) == scanned(
                input@,
            ),
        decreases chars@.len() - pos,
    {
        let start = run(&chars, CharClass::Space, pos);
        if start >= chars.len() {
            return (tokens, rejected);
        }
        match token_at(&chars, start) {
            Some((token, end)) => {
                let ghost before = tokens.deep_view();
                let ghost added = token@;
                tokens.push(token);
                assert(tokens.deep_view() =~= before.push(added));
                pos = end;
            },
            None => {
                let end = run(&chars, CharClass::Mark, start);
                let piece = text_between(&chars, start, end);
                let ghost before = rejected.deep_view();
                let ghost added = piece@;
                rejected.push(piece);
                assert(rejected.deep_view() =~= before.push(added));
                proof {
                    lemma_run_end(chars@, CharClass::Space, pos as int);
                    lemma_run_end(chars@, CharClass::Mark, start as int);
                }
                pos = end;
            },
        }
    }
}

/// Reads the tokens of a source text. All of the text is read before the
/// outcome is decided: it is a syntax error as soon as one piece of the text
/// is no directive.
pub fn get_tokens(input: String) -> (r: Result<Vec<Token>, LexerError>)
    ensures
        match lexed(input@) {
            Some(tokens) => r is Ok && r->Ok_0.deep_view() == tokens,
            None => r == Err::<Vec<Token>, LexerError>(LexerError::SyntaxError),
        },
        r matches Ok(tokens) ==> total_span(tokens.deep_view()) <= input@.len() <= usize::MAX,
        r matches Ok(tokens) ==> all_well_formed(tokens.deep_view()),
{
    let (tokens, rejected) = scan(input.as_str());
    if rejected.len() == 0 {
        Ok(tokens)
    } else {
        Err(LexerError::SyntaxError)
    }
}

} // verus!
