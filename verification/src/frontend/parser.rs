//! Syntax trees from tokens.
use crate::error::{CompileError, Problem};
use crate::frontend::ast::{forms_of, lemma_list_form, merged, Expr, ExprKind, Form, FormKind, Program, Span};
use crate::frontend::lexer::{lex, lexed, lexemes, Lexeme, LexemeKind, Token, TokenKind};
use crate::text::{decimal, decimal_text, join};
use vstd::prelude::*;

verus! {

broadcast use vstd::seq_lib::group_seq_properties;

/// The form that starts at a token, and the position behind it.
pub open spec fn form_at(tokens: Seq<Lexeme>, cursor: int) -> Result<(Form, int), Problem>
    decreases tokens.len() - cursor, 0nat,
{
    if cursor < 0 || cursor >= tokens.len() {
        Err(Problem::Parse("unexpected end of file"@))
    } else {
        let span = tokens[cursor].span;
        match tokens[cursor].kind {
            LexemeKind::Integer(value) => Ok((Form { kind: FormKind::Integer(value), span }, cursor + 1)),
            LexemeKind::Boolean(value) => Ok((Form { kind: FormKind::Boolean(value), span }, cursor + 1)),
            LexemeKind::Char(value) => Ok((Form { kind: FormKind::Char(value), span }, cursor + 1)),
            LexemeKind::Text(value) => Ok((Form { kind: FormKind::Text(value), span }, cursor + 1)),
            LexemeKind::Symbol(value) => Ok((Form { kind: FormKind::Symbol(value), span }, cursor + 1)),
            LexemeKind::Quote => match form_at(tokens, cursor + 1) {
                Err(problem) => Err(problem),
                Ok((inner, next)) => Ok(
                    (
                        Form { kind: FormKind::Quote(Box::new(inner)), span: merged(span, inner.span) },
                        next,
                    ),
                ),
            },
            LexemeKind::LParen => list_from(tokens, cursor + 1, span.start, Seq::empty()),
            LexemeKind::RParen => Err(
                Problem::Parse("unexpected ')' at byte "@ + decimal_text(span.start as nat)),
            ),
            LexemeKind::Dot => Err(
                Problem::Parse("unexpected '.' at byte "@ + decimal_text(span.start as nat)),
            ),
        }
    }
}

/// The list whose items so far are given, from a token on, and the position behind it.
pub open spec fn list_from(tokens: Seq<Lexeme>, cursor: int, start: usize, items: Seq<Form>) -> Result<(Form, int), Problem>
    decreases tokens.len() - cursor, 1nat,
{
    if cursor < 0 || cursor >= tokens.len() {
        Err(Problem::Parse("unterminated list starting at byte "@ + decimal_text(start as nat)))
    } else if tokens[cursor].kind is RParen {
        Ok(
            (
                Form {
                    kind: FormKind::List { items, tail: None },
                    span: Span { start, end: tokens[cursor].span.end },
                },
                cursor + 1,
            ),
        )
    } else if tokens[cursor].kind is Dot && items.len() > 0 {
        match form_at(tokens, cursor + 1) {
            Err(problem) => Err(problem),
            Ok((tail, next)) => if next < 0 || next >= tokens.len() {
                Err(Problem::Parse("unterminated list starting at byte "@ + decimal_text(start as nat)))
            } else if tokens[next].kind is RParen {
                Ok(
                    (
                        Form {
                            kind: FormKind::List { items, tail: Some(Box::new(tail)) },
                            span: Span { start, end: tokens[next].span.end },
                        },
                        next + 1,
                    ),
                )
            } else {
                Err(
                    Problem::Parse(
                        "expected ')' after the tail of a list at byte "@ + decimal_text(
                            tokens[next].span.start as nat,
                        ),
                    ),
                )
            },
        }
    } else {
        match form_at(tokens, cursor) {
            Err(problem) => Err(problem),
            Ok((item, next)) => if next <= cursor || next > tokens.len() {
                Err(Problem::Parse(Seq::empty()))
            } else {
                list_from(tokens, next, start, items.push(item))
            },
        }
    }
}

/// All forms from a token on, behind those before it.
pub open spec fn forms_from(tokens: Seq<Lexeme>, cursor: int, forms: Seq<Form>) -> Result<Seq<Form>, Problem>
    decreases tokens.len() - cursor,
{
    if cursor < 0 || cursor >= tokens.len() {
        Ok(forms)
    } else {
        match form_at(tokens, cursor) {
            Err(problem) => Err(problem),
            Ok((form, next)) => if next <= cursor || next > tokens.len() {
                Err(Problem::Parse(Seq::empty()))
            } else {
                forms_from(tokens, next, forms.push(form))
            },
        }
    }
}

/// Whether a token is a symbol without characters.
pub open spec fn is_empty_symbol(lexeme: Lexeme) -> bool {
    match lexeme.kind {
        LexemeKind::Symbol(name) => name.len() == 0,
        _ => false,
    }
}

/// The forms that a row of tokens makes up. No symbol may be empty.
pub open spec fn parsed_tokens(tokens: Seq<Lexeme>) -> Result<Seq<Form>, Problem> {
    if exists|i: int| 0 <= i < tokens.len() && is_empty_symbol(#[trigger] tokens[i]) {
        Err(Problem::Lex("empty symbol is not allowed"@))
    } else {
        forms_from(tokens, 0, Seq::empty())
    }
}

/// The forms of a source.
pub open spec fn parsed(source: Seq<char>) -> Result<Seq<Form>, Problem> {
    match lexed(source) {
        Ok(tokens) => parsed_tokens(tokens),
        Err(problem) => Err(problem),
    }
}

/// A parser: tokens, and the place of the next of them.
pub struct Parser {
    pub tokens: Vec<Token>,
    pub cursor: usize,
}

fn atom(kind: ExprKind, span: Span) -> (expr: Expr)
    ensures
        expr.kind == kind,
        expr.span == span,
{
    Expr { kind, span }
}

fn parse_problem<T>(start: &str, position: usize) -> (result: Result<T, CompileError>)
    ensures
        result is Err,
        result->Err_0@ == Problem::Parse(start@ + decimal_text(position as nat)),
{
    Err(CompileError::Parse(join(start, decimal(position).as_str())))
}

impl Parser {
    /// A parser at the start of a source.
    pub fn new(source: &str) -> (result: Result<Parser, CompileError>)
        ensures
            match result {
                Ok(parser) => parser.cursor == 0 && lexed(source@) == Ok::<Seq<Lexeme>, Problem>(
                    lexemes(parser.tokens@),
                ),
                Err(error) => lexed(source@) == Err::<Seq<Lexeme>, Problem>(error@),
            },
    {
        let tokens = lex(source)?;
        Ok(Parser { tokens, cursor: 0 })
    }

    /// The form at the cursor, which moves behind it.
    fn parse_expr(&mut self) -> (result: Result<Expr, CompileError>)
        requires
            old(self).cursor <= old(self).tokens@.len(),
        ensures
            final(self).tokens == old(self).tokens,
            match result {
                Ok(expr) => form_at(lexemes(old(self).tokens@), old(self).cursor as int) == Ok::<
                    (Form, int),
                    Problem,
                >((expr@, final(self).cursor as int)) && old(self).cursor < final(self).cursor <= old(self).tokens@.len(),
                Err(error) => form_at(lexemes(old(self).tokens@), old(self).cursor as int) == Err::<
                    (Form, int),
                    Problem,
                >(error@),
            },
        decreases old(self).tokens@.len() - old(self).cursor, 0nat,
    {
        let ghost tokens = lexemes(self.tokens@);
        if self.cursor >= self.tokens.len() {
            return Err(CompileError::Parse("unexpected end of file".to_owned()));
        }
        let place: usize = self.cursor;
        assert(tokens[place as int] == self.tokens@[place as int]@);
        let span = self.tokens[place].span;
        self.cursor = place + 1;
        match &self.tokens[place].kind {
            TokenKind::Integer(value) => Ok(atom(ExprKind::Integer(*value), span)),
            TokenKind::Boolean(value) => Ok(atom(ExprKind::Boolean(*value), span)),
            TokenKind::Char(value) => Ok(atom(ExprKind::Char(*value), span)),
            TokenKind::String(value) => Ok(atom(ExprKind::String(value.clone()), span)),
            TokenKind::Symbol(value) => Ok(atom(ExprKind::Symbol(value.clone()), span)),
            TokenKind::Quote => {
                let inner = self.parse_expr()?;
                let whole = span.merge(inner.span);
                Ok(atom(ExprKind::Quote(Box::new(inner)), whole))
            },
            TokenKind::LParen => self.parse_list(span.start),
            TokenKind::RParen => parse_problem("unexpected ')' at byte ", span.start),
            TokenKind::Dot => parse_problem("unexpected '.' at byte ", span.start),
        }
    }

    /// The rest of a list from the cursor on, which moves behind it.
    fn parse_list(&mut self, start: usize) -> (result: Result<Expr, CompileError>)
        requires
            old(self).cursor <= old(self).tokens@.len(),
        ensures
            final(self).tokens == old(self).tokens,
            match result {
                Ok(expr) => list_from(
                    lexemes(old(self).tokens@),
                    old(self).cursor as int,
                    start,
                    Seq::empty(),
                ) == Ok::<(Form, int), Problem>((expr@, final(self).cursor as int)) && old(self).cursor < final(self).cursor <= old(self).tokens@.len(),
                Err(error) => list_from(
                    lexemes(old(self).tokens@),
                    old(self).cursor as int,
                    start,
                    Seq::empty(),
                ) == Err::<(Form, int), Problem>(error@),
            },
        decreases old(self).tokens@.len() - old(self).cursor, 1nat,
    {
        let ghost tokens = lexemes(self.tokens@);
        let mut items: Vec<Expr> = Vec::new();
        assert(forms_of(items@) =~= Seq::<Form>::empty());
        while self.cursor < self.tokens.len()
            invariant
                self.tokens == old(self).tokens,
                old(self).cursor <= self.cursor <= self.tokens@.len(),
                tokens == lexemes(self.tokens@),
                list_from(tokens, old(self).cursor as int, start, Seq::empty()) == list_from(
                    tokens,
                    self.cursor as int,
                    start,
                    forms_of(items@),
                ),
            decreases self.tokens@.len() - self.cursor,
        {
            let place: usize = self.cursor;
            assert(tokens[place as int] == self.tokens@[place as int]@);
            if matches!(&self.tokens[place].kind, TokenKind::RParen) {
                let end: usize = self.tokens[place].span.end;
                self.cursor = place + 1;
                let list = Expr { kind: ExprKind::List { items, tail: None }, span: Span { start, end } };
                proof {
                    lemma_list_form(list);
                }
                return Ok(list);
            }
            if matches!(&self.tokens[place].kind, TokenKind::Dot) && items.len() > 0 {
                self.cursor = place + 1;
                let tail = self.parse_expr()?;
                let next: usize = self.cursor;
                if next >= self.tokens.len() {
                    return parse_problem("unterminated list starting at byte ", start);
                }
                assert(tokens[next as int] == self.tokens@[next as int]@);
                if matches!(&self.tokens[next].kind, TokenKind::RParen) {
                    let end: usize = self.tokens[next].span.end;
                    self.cursor = next + 1;
                    let list = Expr {
                        kind: ExprKind::List { items, tail: Some(Box::new(tail)) },
                        span: Span { start, end },
                    };
                    proof {
                        lemma_list_form(list);
                    }
                    return Ok(list);
                }
                return parse_problem(
                    "expected ')' after the tail of a list at byte ",
                    self.tokens[next].span.start,
                );
            }
            let item = self.parse_expr()?;
            let ghost before = forms_of(items@);
            items.push(item);
            assert(forms_of(items@) =~= before.push(item@));
        }
        parse_problem("unterminated list starting at byte ", start)
    }

    /// The forms of the source.
    pub fn parse_program(self) -> (result: Result<Program, CompileError>)
        requires
            self.cursor == 0,
        ensures
            match result {
                Ok(program) => parsed_tokens(lexemes(self.tokens@)) == Ok::<Seq<Form>, Problem>(
                    forms_of(program.forms@),
                ),
                Err(error) => parsed_tokens(lexemes(self.tokens@)) == Err::<Seq<Form>, Problem>(error@),
            },
    {
        check_symbols(&self.tokens)?;
        let ghost tokens = lexemes(self.tokens@);
        let mut parser = self;
        let mut forms: Vec<Expr> = Vec::new();
        assert(forms_of(forms@) =~= Seq::<Form>::empty());
        while parser.cursor < parser.tokens.len()
            invariant
                parser.cursor <= parser.tokens@.len(),
                tokens == lexemes(parser.tokens@),
                tokens == lexemes(self.tokens@),
                forms_from(tokens, 0, Seq::empty()) == forms_from(
                    tokens,
                    parser.cursor as int,
                    forms_of(forms@),
                ),
                parsed_tokens(tokens) == forms_from(tokens, 0, Seq::empty()),
            decreases parser.tokens@.len() - parser.cursor,
        {
            let form = parser.parse_expr()?;
            let ghost before = forms_of(forms@);
            forms.push(form);
            assert(forms_of(forms@) =~= before.push(form@));
        }
        Ok(Program { forms })
    }
}

/// Refuses symbols without characters.
fn check_symbols(tokens: &Vec<Token>) -> (result: Result<(), CompileError>)
    ensures
        match result {
            Ok(()) => forall|i: int| 0 <= i < tokens@.len() ==> !is_empty_symbol(#[trigger] lexemes(tokens@)[i]),
            Err(error) => error@ == Problem::Lex("empty symbol is not allowed"@) && exists|i: int|
                0 <= i < tokens@.len() && is_empty_symbol(#[trigger] lexemes(tokens@)[i]),
        },
{
    let mut index: usize = 0;
    while index < tokens.len()
        invariant
            index <= tokens@.len(),
            forall|i: int| 0 <= i < index ==> !is_empty_symbol(#[trigger] lexemes(tokens@)[i]),
        decreases tokens@.len() - index,
    {
        assert(lexemes(tokens@)[index as int] == tokens@[index as int]@);
        if let TokenKind::Symbol(name) = &tokens[index].kind {
            if name.as_str().is_empty() {
                assert(is_empty_symbol(lexemes(tokens@)[index as int]));
                return Err(CompileError::Lex("empty symbol is not allowed".to_owned()));
            }
        }
        index = index + 1;
    }
    Ok(())
}

/// The forms of a source.
pub fn parse_program(source: &str) -> (result: Result<Program, CompileError>)
    ensures
        match result {
            Ok(program) => parsed(source@) == Ok::<Seq<Form>, Problem>(forms_of(program.forms@)),
            Err(error) => parsed(source@) == Err::<Seq<Form>, Problem>(error@),
        },
{
    let parser = Parser::new(source)?;
    parser.parse_program()
}

} // verus!
