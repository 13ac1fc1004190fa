use mlisp::error::CompileError;
use mlisp::frontend::ast::{Expr, ExprKind, Span};
use mlisp::frontend::lexer::{lex, TokenKind};
use mlisp::frontend::parser::parse_program;

fn kinds(source: &str) -> Vec<TokenKind> {
    lex(source).unwrap().into_iter().map(|token| token.kind).collect()
}

fn spans(source: &str) -> Vec<(usize, usize)> {
    lex(source).unwrap().iter().map(|token| (token.span.start, token.span.end)).collect()
}

fn lex_error(source: &str) -> String {
    match lex(source) {
        Err(CompileError::Lex(message)) => message,
        Err(other) => panic!("expected a lexical error, got {other:?}"),
        Ok(_) => panic!("expected a lexical error"),
    }
}

fn parse_error(source: &str) -> String {
    match parse_program(source) {
        Err(CompileError::Parse(message)) => message,
        other => panic!("expected a parse error, got {other:?}"),
    }
}

fn symbol(name: &str) -> TokenKind {
    TokenKind::Symbol(name.to_string())
}

#[test]
fn splits_sources_into_tokens() {
    assert!(kinds(" \t\r\n; nothing").is_empty());
    assert!(matches!(
        kinds("('a . b)").as_slice(),
        [
            TokenKind::LParen,
            TokenKind::Quote,
            TokenKind::Symbol(_),
            TokenKind::Dot,
            TokenKind::Symbol(_),
            TokenKind::RParen
        ]
    ));
    assert_eq!(spans("(ab -12) ; end"), [(0, 1), (1, 3), (4, 7), (7, 8)]);
    assert_eq!(spans("#t\"a\\n\"#\\space"), [(0, 2), (2, 7), (7, 14)]);
}

#[test]
fn reads_numbers_and_symbols() {
    assert!(kinds("-12") == [TokenKind::Integer(-12)]);
    assert!(kinds("9223372036854775807 -9223372036854775808")
        == [TokenKind::Integer(i64::MAX), TokenKind::Integer(i64::MIN)]);
    assert!(kinds("- -a 1a 1.5 ... a.b") == [
        symbol("-"),
        symbol("-a"),
        symbol("1a"),
        symbol("1.5"),
        symbol("..."),
        symbol("a.b")
    ]);
    assert!(kinds("h\u{e9}llo") == [symbol("h\u{e9}llo")]);
    assert_eq!(
        lex_error("9223372036854775808"),
        "invalid integer at byte 0: number too large to fit in target type"
    );
    assert_eq!(
        lex_error("1 -9223372036854775809"),
        "invalid integer at byte 2: number too small to fit in target type"
    );
}

#[test]
fn reads_literals() {
    assert!(kinds("#t #f") == [TokenKind::Boolean(true), TokenKind::Boolean(false)]);
    assert!(kinds("#\\a #\\space #\\newline #\\\u{3bb}") == [
        TokenKind::Char('a'),
        TokenKind::Char(' '),
        TokenKind::Char('\n'),
        TokenKind::Char('\u{3bb}')
    ]);
    assert!(kinds("\"a\\\"\\\\\\n\\r\\t\"") == [TokenKind::String("a\"\\\n\r\t".to_string())]);
    assert!(kinds("\"\u{e9}\"") == [TokenKind::String("\u{c3}\u{a9}".to_string())]);
    assert_eq!(lex_error("#"), "unterminated boolean literal");
    assert_eq!(lex_error("a #x"), "unsupported reader literal '#x' at byte 2");
    assert_eq!(lex_error("#\\"), "empty character literal at byte 0");
    assert_eq!(lex_error("#\\tab"), "unsupported character literal '#\\tab' at byte 0");
    assert_eq!(lex_error("\"a\\q\""), "unsupported string escape '\\q' at byte 3");
    assert_eq!(lex_error("\"a\\"), "unterminated string escape");
    assert_eq!(lex_error("(\"a"), "unterminated string literal starting at byte 1");
}

fn only(source: &str) -> Expr {
    let mut program = parse_program(source).unwrap();
    assert_eq!(program.forms.len(), 1);
    program.forms.remove(0)
}

#[test]
fn parses_forms() {
    assert!(parse_program("").unwrap().forms.is_empty());
    assert_eq!(parse_program("1 (2) 'x").unwrap().forms.len(), 3);
    assert!(matches!(only("5").kind, ExprKind::Integer(5)));
    assert!(matches!(only("#f").kind, ExprKind::Boolean(false)));
    assert!(matches!(only("#\\q").kind, ExprKind::Char('q')));
    assert!(matches!(only("\"t\"").kind, ExprKind::String(text) if text == "t"));
    let ExprKind::List { items, tail: None } = only("(a (b) ())").kind else {
        panic!("expected a list");
    };
    assert_eq!(items.len(), 3);
    assert_eq!(items[1].span, Span { start: 3, end: 6 });
    let ExprKind::List { items, tail: Some(tail) } = only("(a b . c)").kind else {
        panic!("expected a dotted list");
    };
    assert_eq!(items.len(), 2);
    assert!(matches!(&tail.kind, ExprKind::Symbol(name) if name == "c"));
    let quoted = only(" '(x)");
    assert_eq!(quoted.span, Span { start: 1, end: 5 });
    assert!(matches!(quoted.kind, ExprKind::Quote(_)));
}

#[test]
fn refuses_malformed_sources() {
    assert_eq!(parse_error("(a (b)"), "unterminated list starting at byte 0");
    assert_eq!(parse_error("a )"), "unexpected ')' at byte 2");
    assert_eq!(parse_error("'"), "unexpected end of file");
    assert_eq!(parse_error("(. a)"), "unexpected '.' at byte 1");
    assert_eq!(parse_error("(a . b c)"), "expected ')' after the tail of a list at byte 7");
    assert_eq!(parse_error("(a . b"), "unterminated list starting at byte 0");
}

#[test]
fn spans_merge() {
    let left = Span { start: 3, end: 5 };
    let right = Span { start: 1, end: 4 };
    assert_eq!(left.merge(right), Span { start: 1, end: 5 });
    assert_eq!(right.merge(left), Span { start: 1, end: 5 });
    assert_eq!(Span::default(), Span { start: 0, end: 0 });
}

#[test]
fn compile_errors_have_texts() {
    let io = |path: Option<&str>| CompileError::Io { path: path.map(str::to_string), message: "gone".to_string() };
    assert_eq!(io(Some("a.scm")).text(), "io error for a.scm: gone");
    assert_eq!(io(None).text(), "io error: gone");
    assert_eq!(CompileError::Usage("m".to_string()).text(), "usage error: m");
    assert_eq!(CompileError::Lex("m".to_string()).text(), "lex error: m");
    assert_eq!(CompileError::Parse("m".to_string()).text(), "parse error: m");
    assert_eq!(CompileError::Expand("m".to_string()).text(), "expand error: m");
    assert_eq!(CompileError::Lower("m".to_string()).text(), "lowering error: m");
    assert_eq!(CompileError::Codegen("m".to_string()).text(), "codegen error: m");
    assert_eq!(CompileError::Thread("m".to_string()).text(), "thread error: m");
}

fn well_placed(expr: &Expr) {
    assert!(expr.span.start < expr.span.end);
    let mut parts: Vec<&Expr> = Vec::new();
    match &expr.kind {
        ExprKind::Quote(inner) => parts.push(inner),
        ExprKind::List { items, tail } => {
            parts.extend(items);
            parts.extend(tail.iter().map(|tail| &**tail));
        }
        _ => {}
    }
    for pair in parts.windows(2) {
        assert!(pair[0].span.end <= pair[1].span.start);
    }
    for part in parts {
        assert!(expr.span.start <= part.span.start && part.span.end <= expr.span.end);
        well_placed(part);
    }
}

#[test]
fn forms_lie_within_each_other() {
    let source = "(define (f x . y) '(a \"b\" #\\c)) ; end\n (f 1 (g '2))";
    let program = parse_program(source).unwrap();
    assert_eq!(program.forms.len(), 2);
    assert!(program.forms[0].span.end <= program.forms[1].span.start);
    assert_eq!(program.forms[1].span.end, source.len());
    for form in &program.forms {
        well_placed(form);
    }
}

#[test]
fn sources_can_be_read_where_parentheses_balance_and_quotes_quote() {
    for source in ["", "a", "()", "(a (b) 'c)", "''a '(b) \"x\" #t", "(()(()))", "'()"] {
        assert!(lex(source).is_ok());
        assert!(parse_program(source).is_ok(), "{source}");
    }
    for source in ["(", ")", "(a", "a)", ")(", "(()", "'", "(')", "(a ')", "(a))(", "''"] {
        assert!(lex(source).is_ok());
        assert!(parse_program(source).is_err(), "{source}");
    }
    assert!(parse_program("(#x)").is_err());
}
