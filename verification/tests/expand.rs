use mlisp::error::CompileError;
use mlisp::expand::libraries::{expand_program, LibraryFile};
use mlisp::expand::outcome::Halt;
use mlisp::expand::paths::library_candidates;
use mlisp::expand::shelf::Shelf;
use mlisp::frontend::ast::{Expr, ExprKind, Program};
use mlisp::frontend::parser::parse_program;

const LIMIT: usize = 100;

fn expand(source: &str) -> Result<Program, Halt> {
    let program = parse_program(source).unwrap();
    let files = Shelf::new();
    expand_program(&files, &program, LIMIT)
}

fn library(name: &[&str], text: &str) -> Shelf<LibraryFile> {
    let mut files = Shelf::new();
    files.put(
        name.iter().map(|part| part.to_string()).collect(),
        LibraryFile::Source { path: format!("{}.sld", name.join("/")), text: text.to_string() },
    );
    files
}

fn expand_with(files: &Shelf<LibraryFile>, source: &str) -> Result<Program, Halt> {
    let program = parse_program(source).unwrap();
    expand_program(files, &program, LIMIT)
}

fn message(result: Result<Program, Halt>) -> String {
    match result {
        Err(Halt::Failed(CompileError::Expand(message))) => message,
        other => panic!("expected an expansion error, got {other:?}"),
    }
}

/// A form as it is written.
fn written(expr: &Expr) -> String {
    match &expr.kind {
        ExprKind::Integer(value) => value.to_string(),
        ExprKind::Boolean(true) => "#t".to_string(),
        ExprKind::Boolean(false) => "#f".to_string(),
        ExprKind::Char(value) => format!("#\\{value}"),
        ExprKind::String(value) => format!("{value:?}"),
        ExprKind::Symbol(value) => value.clone(),
        ExprKind::Quote(inner) => format!("'{}", written(inner)),
        ExprKind::List { items, tail } => {
            let mut parts: Vec<String> = items.iter().map(written).collect();
            if let Some(tail) = tail {
                parts.push(".".to_string());
                parts.push(written(tail));
            }
            format!("({})", parts.join(" "))
        }
    }
}

fn all_written(program: &Program) -> Vec<String> {
    program.forms.iter().map(written).collect()
}

#[test]
fn expands_local_syntax_rules_macro() {
    let program = parse_program(
        "(define-syntax inc (syntax-rules () ((inc x) (+ x 1)))) (inc 4)\n",
    )
    .unwrap();
    let expanded = expand_program(&Shelf::new(), &program, LIMIT).unwrap();
    assert_eq!(expanded.forms.len(), 1);
    assert!(format!("{:?}", expanded.forms[0].kind).contains("List"));
    assert_eq!(written(&expanded.forms[0]), "(+ 4 1)");
}

#[test]
fn expands_import_sets_and_library_renaming() {
    let files = library(
        &["lib", "demo"],
        "(define-library (lib demo)\n  (export (rename add2 sum2) inc)\n  (begin\n    (define (add2 x) (+ x 2))\n    (define-syntax inc (syntax-rules () ((inc x) (add2 x))))))\n",
    );
    let program = parse_program(
        "(import (prefix (rename (only (lib demo) sum2 inc) (sum2 add2)) demo:)) (demo:inc 4)\n",
    )
    .unwrap();
    let expanded = expand_program(&files, &program, LIMIT).unwrap();
    let rendered = format!("{:#?}", expanded.forms);
    assert!(rendered.contains("__lib_lib_demo_add2"));
    assert!(rendered.contains("demo:add2"));
    assert!(rendered.contains("+"));
}

#[test]
fn expands_repeated_composite_patterns() {
    let program = parse_program(
        "(define-syntax pair-sums (syntax-rules () ((pair-sums ((a b) ...)) (list (+ a b) ...)))) (pair-sums ((1 2) (3 4)))\n",
    )
    .unwrap();
    let expanded = expand_program(&Shelf::new(), &program, LIMIT).unwrap();
    let ExprKind::List { items, tail: None } = &expanded.forms[0].kind else {
        panic!("expected expanded pair-sums form to be a proper list");
    };
    assert!(matches!(&items[0].kind, ExprKind::Symbol(name) if name == "list"));
    assert_eq!(items.len(), 3);
    for (expected_lhs, expected_rhs, item) in [(1, 2, &items[1]), (3, 4, &items[2])] {
        let ExprKind::List { items: sum_items, tail: None } = &item.kind else {
            panic!("expected pair-sums element to be a proper list");
        };
        assert!(matches!(&sum_items[0].kind, ExprKind::Symbol(name) if name == "+"));
        assert!(matches!(&sum_items[1].kind, ExprKind::Integer(value) if *value == expected_lhs));
        assert!(matches!(&sum_items[2].kind, ExprKind::Integer(value) if *value == expected_rhs));
    }
}

#[test]
fn expands_multiple_ellipsis_segments() {
    let program = parse_program(
        "(define-syntax gather (syntax-rules () ((gather (a ...) (b ...)) (list a ... b ...)))) (gather (1 2) (3 4))\n",
    )
    .unwrap();
    let expanded = expand_program(&Shelf::new(), &program, LIMIT).unwrap();
    let ExprKind::List { items, tail: None } = &expanded.forms[0].kind else {
        panic!("expected expanded gather form to be a proper list");
    };
    assert!(matches!(&items[0].kind, ExprKind::Symbol(name) if name == "list"));
    assert_eq!(items.len(), 5);
    for (expected, item) in [1, 2, 3, 4].into_iter().zip(&items[1..]) {
        assert!(matches!(&item.kind, ExprKind::Integer(value) if *value == expected));
    }
}

#[test]
fn hygienically_renames_introduced_binders() {
    let program = parse_program(
        "(define-syntax capture-test (syntax-rules () ((capture-test x) (let ((tmp 1)) x)))) (let ((tmp 9)) (capture-test tmp))\n",
    )
    .unwrap();
    let expanded = expand_program(&Shelf::new(), &program, LIMIT).unwrap();
    let rendered = format!("{expanded:#?}");
    assert!(rendered.contains("__macro_tmp_"));
    assert!(!rendered.contains("kind: Symbol(\n                                \"tmp\""));
    assert_eq!(written(&expanded.forms[0]), "(let ((tmp 9)) (let ((__macro_tmp_0 1)) tmp))");
}

#[test]
fn resolves_free_template_identifiers_at_definition_site() {
    let program = parse_program(
        "(define helper 1) (define-syntax use-helper (syntax-rules () ((use-helper) helper))) (let ((helper 9)) (use-helper))\n",
    )
    .unwrap();
    let expanded = expand_program(&Shelf::new(), &program, LIMIT).unwrap();
    let rendered = format!("{expanded:#?}");
    assert!(rendered.contains("__macro_ref_helper_"));
    let last = expanded.forms.last().expect("expected expanded use");
    let ExprKind::List { items, .. } = &last.kind else {
        panic!("expected expanded use to be a list");
    };
    assert!(matches!(&items[0].kind, ExprKind::Symbol(name) if name == "let"));
    let body = items.last().expect("expected let body");
    assert!(matches!(&body.kind, ExprKind::Symbol(name) if name.starts_with("__macro_ref_helper_")));
}

#[test]
fn forms_without_macros_stay_as_they_are() {
    let source = "(define x '(a . b)) (if x (begin 1 \"two\" #\\3) (lambda (y . z) (y z))) (let ((a 1)) a)";
    let expanded = expand(source).unwrap();
    assert_eq!(
        all_written(&expanded),
        [
            "(define x '(a . b))",
            "(if x (begin 1 \"two\" #\\3) (lambda (y . z) (y z)))",
            "(let ((a 1)) a)"
        ]
    );
}

#[test]
fn quoted_data_is_left_alone() {
    let expanded = expand("(define-syntax m (syntax-rules () ((m) 1))) '(m) (quote (m)) (m)").unwrap();
    assert_eq!(all_written(&expanded), ["'(m)", "(quote (m))", "1"]);
}

#[test]
fn the_first_clause_that_matches_counts() {
    let expanded = expand(
        "(define-syntax my-or (syntax-rules () ((my-or) #f) ((my-or e) e) ((my-or e r ...) (let ((t e)) (if t t (my-or r ...)))))) (my-or 1 2)",
    )
    .unwrap();
    assert_eq!(all_written(&expanded), ["(let ((__macro_t_0 1)) (if __macro_t_0 __macro_t_0 2))"]);
}

#[test]
fn literals_match_themselves_only() {
    let source = "(define-syntax is (syntax-rules (then) ((is a then b) b) ((is a c b) c))) (is 1 then 2) (is 1 other 2)";
    assert_eq!(all_written(&expand(source).unwrap()), ["2", "other"]);
}

#[test]
fn binders_of_templates_get_new_names() {
    let source = "(define-syntax fn (syntax-rules () ((fn e) (lambda (a b . c) (set! a e) (list a b c))))) (fn a)";
    assert_eq!(
        all_written(&expand(source).unwrap()),
        ["(lambda (__macro_a_0 __macro_b_1 . __macro_c_2) (set! __macro_a_0 a) (list __macro_a_0 __macro_b_1 __macro_c_2))"]
    );
}

#[test]
fn definitions_in_templates_get_new_names() {
    let source = "(define-syntax def (syntax-rules () ((def e) (define (f x) (g x e))))) (def 1)";
    assert_eq!(all_written(&expand(source).unwrap()), ["(define (__macro_f_0 __macro_x_1) (g __macro_x_1 1))"]);
}

#[test]
fn uses_that_match_no_clause_fail() {
    assert_eq!(
        message(expand("(define-syntax one (syntax-rules () ((one a) a))) (one 1 2)")),
        "macro expansion failed to match any syntax-rules clause"
    );
}

#[test]
fn endless_macros_exhaust_the_limit() {
    let source = "(define-syntax again (syntax-rules () ((again) (again)))) (again)";
    assert!(matches!(expand(source), Err(Halt::Exhausted)));
}

#[test]
fn unequal_repetitions_fail() {
    let result = expand(
        "(define-syntax zip (syntax-rules () ((zip (a ...) (b ...)) (list (+ a b) ...)))) (zip (1 2) (3))",
    );
    assert!(matches!(result, Err(Halt::Failed(CompileError::Expand(_)))));
}

#[test]
fn malformed_macro_definitions_fail() {
    assert_eq!(message(expand("(define-syntax 1 (syntax-rules () ((m) 1)))")), "define-syntax name must be an identifier");
    assert_eq!(message(expand("(define-syntax m 1)")), "syntax-rules transformer must be a list");
    assert_eq!(message(expand("(define-syntax m (rules))")), "define-syntax requires a syntax-rules transformer");
    assert_eq!(
        message(expand("(define-syntax m (syntax-rules x ((m) 1)))")),
        "syntax-rules literal list must be a proper list"
    );
    assert_eq!(message(expand("(define-syntax m (syntax-rules () 1))")), "syntax-rules clause must be a two-item list");
    assert_eq!(
        message(expand("(define-syntax m (syntax-rules () ((m))))")),
        "syntax-rules clause must contain a pattern and template"
    );
}

#[test]
fn malformed_bindings_and_definitions_fail() {
    assert_eq!(message(expand("(let ((a)) a)")), "let binding must be a two-item list");
    assert_eq!(message(expand("(define 1 2)")), "define target must be an identifier or parameter list");
    assert_eq!(
        message(expand("(define-library (a) (export)) 1")),
        "define-library is only valid as the whole contents of a library file"
    );
}

#[test]
fn a_library_that_is_not_known_is_asked_for() {
    match expand("(import (a b))") {
        Err(Halt::Needs(name)) => assert_eq!(name, ["a", "b"]),
        other => panic!("expected a request for a library, got {other:?}"),
    }
}

#[test]
fn libraries_without_files_fail() {
    let mut files = Shelf::new();
    files.put(vec!["a".to_string(), "b".to_string()], LibraryFile::Missing);
    assert_eq!(message(expand_with(&files, "(import (a b))")), "could not resolve library (a b)");
    let mut files = Shelf::new();
    files.put(
        vec!["a".to_string()],
        LibraryFile::Unreadable { path: "a.sld".to_string(), message: "denied".to_string() },
    );
    match expand_with(&files, "(import (a))") {
        Err(Halt::Failed(CompileError::Io { path, message })) => {
            assert_eq!(path, Some("a.sld".to_string()));
            assert_eq!(message, "denied");
        }
        other => panic!("expected an io error, got {other:?}"),
    }
}

#[test]
fn libraries_are_renamed_and_aliased() {
    let files = library(
        &["m"],
        "(define-library (m) (export f) (begin (define (f x) (g x)) (define (g y) (let ((f y)) f))))",
    );
    let expanded = expand_with(&files, "(import (m)) (import (m)) (f 1)").unwrap();
    assert_eq!(
        all_written(&expanded),
        [
            "(define (__lib_m_f x) (__lib_m_g x))",
            "(define (__lib_m_g y) (let ((f y)) f))",
            "(define f __lib_m_f)",
            "(define f __lib_m_f)",
            "(f 1)"
        ]
    );
}

#[test]
fn cyclic_imports_fail() {
    let mut files = library(&["a"], "(define-library (a) (import (b)))");
    files.put(
        vec!["b".to_string()],
        LibraryFile::Source { path: "b.sld".to_string(), text: "(define-library (b) (import (a)))".to_string() },
    );
    assert_eq!(message(expand_with(&files, "(import (a))")), "cyclic library import detected for (a)");
}

#[test]
fn library_files_must_hold_their_library() {
    assert_eq!(
        message(expand_with(&library(&["a"], "(define-library (b))"), "(import (a))")),
        "library file a.sld defines (b) but was imported as (a)"
    );
    assert_eq!(
        message(expand_with(&library(&["a"], "1 2"), "(import (a))")),
        "library file must contain exactly one define-library form"
    );
    assert_eq!(
        message(expand_with(&library(&["a"], "1"), "(import (a))")),
        "library file must contain a define-library form"
    );
}

#[test]
fn import_sets_check_names() {
    let files = library(&["m"], "(define-library (m) (export f g) (begin (define f 1) (define g 2)))");
    assert_eq!(message(expand_with(&files, "(import (only (m) h))")), "only import references unknown export 'h'");
    assert_eq!(message(expand_with(&files, "(import (except (m) h))")), "except import references unknown export 'h'");
    assert_eq!(
        message(expand_with(&files, "(import (rename (m) (h i)))")),
        "rename import references unknown export 'h'"
    );
    assert_eq!(
        message(expand_with(&files, "(import (rename (m) (f g)))")),
        "duplicate binding for 'g' after rename import"
    );
    assert_eq!(
        message(expand_with(&files, "(import (rename (m) (f a) (f b)))")),
        "duplicate rename source 'f'"
    );
    assert_eq!(
        message(expand_with(&files, "(import (only (m) f f))")),
        "duplicate binding for 'f' in only import"
    );
    let expanded = expand_with(&files, "(import (except (prefix (m) m:) m:f))").unwrap();
    assert_eq!(all_written(&expanded).last().unwrap(), "(define m:g __lib_m_g)");
    assert_eq!(expanded.forms.len(), 3);
}

#[test]
fn exports_may_not_collide() {
    let files = library(&["m"], "(define-library (m) (export f (rename g f)) (begin (define f 1) (define g 2)))");
    assert_eq!(message(expand_with(&files, "(import (m))")), "duplicate value binding for 'f'");
}

#[test]
fn macros_may_not_be_imported_twice() {
    let files = library(
        &["m"],
        "(define-library (m) (export k) (define-syntax k (syntax-rules () ((k) 1))))",
    );
    assert_eq!(message(expand_with(&files, "(import (m)) (import (m))")), "duplicate macro binding for 'k'");
}

#[test]
fn a_program_that_is_a_library_stands_for_its_forms() {
    let expanded = expand("(define-library (x y) (export a) (define a 1) (begin (set! a 2)))").unwrap();
    assert_eq!(all_written(&expanded), ["(define __lib_x_y_a 1)", "(set! __lib_x_y_a 2)"]);
}

#[test]
fn a_higher_limit_changes_no_result() {
    let source = "(define-syntax two (syntax-rules () ((two a) (one a)))) (define-syntax one (syntax-rules () ((one a) (+ a 1)))) (two 5)";
    let program = parse_program(source).unwrap();
    let files = Shelf::new();
    assert!(matches!(expand_program(&files, &program, 1), Err(Halt::Exhausted)));
    let low = expand_program(&files, &program, 2).unwrap();
    let high = expand_program(&files, &program, 1000).unwrap();
    assert_eq!(all_written(&low), ["(+ 5 1)"]);
    assert_eq!(all_written(&low), all_written(&high));
}

#[test]
fn files_not_asked_for_change_nothing() {
    let source = "(define-syntax one (syntax-rules () ((one) 1))) (one) (define x 2)";
    let plain = expand(source).unwrap();
    let files = library(&["never"], "(this is (no library");
    let with_files = expand_with(&files, source).unwrap();
    assert_eq!(all_written(&plain), all_written(&with_files));
}

#[test]
fn imports_bring_what_they_name() {
    let files = library(
        &["m"],
        "(define-library (m) (export f g k) (begin (define f 1) (define g 2)) (define-syntax k (syntax-rules () ((k) 7))))",
    );
    let expanded = expand_with(&files, "(import (rename (except (m) g) (f first) (k seven))) (seven)").unwrap();
    let forms = all_written(&expanded);
    assert!(forms.contains(&"(define first __lib_m_f)".to_string()));
    assert!(!forms.iter().any(|form| form.starts_with("(define g ")));
    assert_eq!(forms.last().unwrap(), "7");
}

#[test]
fn new_names_are_never_given_out_twice() {
    let source = "(define-syntax m (syntax-rules () ((m e) (let ((t e)) t)))) (m (m 1)) (m 2)";
    assert_eq!(
        all_written(&expand(source).unwrap()),
        ["(let ((__macro_t_0 (let ((__macro_t_1 1)) __macro_t_1))) __macro_t_0)", "(let ((__macro_t_2 2)) __macro_t_2)"]
    );
}

fn candidates(base: &str, name: &[&str]) -> Vec<String> {
    library_candidates(base, &name.iter().map(|part| part.to_string()).collect())
}

#[test]
fn libraries_are_looked_for_in_four_files() {
    assert_eq!(
        candidates("dir", &["math", "trig"]),
        ["dir/math/trig.sld", "dir/math/trig.scm", "dir/math/trig/main.sld", "dir/math/trig/main.scm"]
    );
    assert_eq!(candidates("", &["math"]), ["math.sld", "math.scm", "math/main.sld", "math/main.scm"]);
    assert_eq!(candidates("dir/", &["math"])[0], "dir/math.sld");
}

#[test]
fn candidates_agree_with_paths() {
    let bases = ["", ".", "/", "dir", "dir/", "./dir", "/abs/dir.d", ".."];
    let names: [&[&str]; 16] = [
        &[],
        &["a"],
        &["a", "b"],
        &["a.b"],
        &["a.b", "c.d.e"],
        &[".a"],
        &["a."],
        &["..a"],
        &["..."],
        &["."],
        &[".."],
        &["a", "."],
        &["a/"],
        &["a.b//"],
        &["/root", "a"],
        &["a", "/b.c/."],
    ];
    for base in bases {
        for name in names {
            let mut path = std::path::PathBuf::from(base);
            for part in name {
                path.push(part);
            }
            let expected =
                [path.with_extension("sld"), path.with_extension("scm"), path.join("main.sld"), path.join("main.scm")];
            let shown: Vec<String> = expected.iter().map(|path| path.display().to_string()).collect();
            assert_eq!(candidates(base, name), shown);
        }
    }
}

#[test]
fn programs_without_macros_are_left_as_they_are() {
    for source in ["", "1 'a (f 1 . 2)", "(define x (let ((y 1) (z (let () 2))) (lambda (a) (if a y z))))", "(let x)"] {
        let program = parse_program(source).unwrap();
        assert_eq!(format!("{:?}", expand(source).unwrap().forms), format!("{:?}", program.forms));
    }
    match expand("(define x (let ((y 1 2)) y))") {
        Err(Halt::Failed(CompileError::Expand(message))) => {
            assert_eq!(message, "let binding must be a two-item list");
        }
        other => panic!("expected a refusal, got {other:?}"),
    }
    assert!(expand("(define 5 1)").is_err());
}
