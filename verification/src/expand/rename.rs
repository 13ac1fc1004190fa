//! Renaming of what a library defines, so that libraries do not get into each other's way.
use crate::error::{CompileError, Problem};
use crate::expand::declarations::{identifiers, parse_identifier_list};
use crate::expand::forms::{
    as_proper_list, clone_exprs, clone_tail, dotted_expr, dotted_form, expand_error, expand_error_with,
    list_expr, list_form, list_items, list_tail, prepend, prepend_two, proper_items, required_symbol,
    symbol_expr, symbol_form, symbol_name, symbol_of, symbol_value,
};
use crate::expand::template::is_let_keyword;
use crate::frontend::ast::{forms_of, lemma_list_form, Expr, ExprKind, Form, FormKind};
use crate::names::{with_names, Duplicate, NameMap, NameSet};
use crate::text::{join, same};
use vstd::prelude::*;

verus! {

broadcast use vstd::seq_lib::group_seq_properties;

/// What a name is called after renaming, where the names `bound` belong to the program itself.
pub open spec fn renamed_name(name: Seq<char>, renaming: Map<Seq<char>, Seq<char>>, bound: Set<Seq<char>>) -> Seq<
    char,
> {
    if !bound.contains(name) && renaming.contains_key(name) {
        renaming[name]
    } else {
        name
    }
}

/// The names `bound` and the parameters of a list from one on.
#[verifier::opaque]
pub open spec fn with_parameters(
    formals: Form,
    start: nat,
    context: Seq<char>,
    rest_context: Seq<char>,
    bound: Set<Seq<char>>,
) -> Result<Set<Seq<char>>, Problem> {
    match identifiers(list_items(formals), start, context, Seq::empty()) {
        Err(problem) => Err(problem),
        Ok(names) => match list_tail(formals) {
            None => Ok(bound + names.to_set()),
            Some(tail) => match required_symbol(*tail, rest_context) {
                Err(problem) => Err(problem),
                Ok(rest) => Ok((bound + names.to_set()).insert(rest)),
            },
        },
    }
}

/// The names `bound` and the parameters of a lambda expression.
#[verifier::opaque]
pub open spec fn with_formals(formals: Form, bound: Set<Seq<char>>) -> Result<Set<Seq<char>>, Problem> {
    match formals.kind {
        FormKind::Symbol(name) => Ok(bound.insert(name)),
        FormKind::List { items, tail } => with_parameters(
            formals,
            0,
            "lambda parameter"@,
            "lambda rest parameter"@,
            bound,
        ),
        _ => Err(Problem::Expand("lambda formals must be an identifier or parameter list"@)),
    }
}

/// A form after renaming.
pub open spec fn renamed(form: Form, renaming: Map<Seq<char>, Seq<char>>, bound: Set<Seq<char>>) -> Result<Form, Problem>
    decreases form, 30nat, 0nat,
{
    match form.kind {
        FormKind::Symbol(name) => Ok(symbol_form(renamed_name(name, renaming, bound), form.span)),
        FormKind::List { items, tail } => {
            let keyword = if items.len() > 0 { symbol_of(items[0]) } else { None };
            if keyword == Some("lambda"@) {
                renamed_lambda(form, renaming, bound)
            } else if keyword == Some("define"@) {
                renamed_define(form, renaming, bound)
            } else if keyword is Some && is_let_keyword(keyword->0) {
                renamed_let(form, keyword->0, renaming, bound)
            } else if keyword == Some("set!"@) {
                renamed_set(form, renaming, bound)
            } else if keyword == Some("quote"@) || keyword == Some("import"@) || keyword == Some("export"@)
                || keyword == Some("define-library"@) {
                Ok(form)
            } else {
                renamed_list(form, renaming, bound)
            }
        },
        _ => Ok(form),
    }
}

/// The items of a list from one on after renaming.
pub open spec fn renamed_items(form: Form, index: nat, renaming: Map<Seq<char>, Seq<char>>, bound: Set<Seq<char>>) -> Result<
    Seq<Form>,
    Problem,
>
    decreases form, 10nat, list_items(form).len() - index,
{
    let items = list_items(form);
    if index >= items.len() {
        Ok(Seq::empty())
    } else {
        match renamed(items[index as int], renaming, bound) {
            Err(problem) => Err(problem),
            Ok(first) => match renamed_items(form, index + 1, renaming, bound) {
                Err(problem) => Err(problem),
                Ok(rest) => Ok(seq![first] + rest),
            },
        }
    }
}

/// A list that binds nothing after renaming.
pub open spec fn renamed_list(form: Form, renaming: Map<Seq<char>, Seq<char>>, bound: Set<Seq<char>>) -> Result<
    Form,
    Problem,
>
    decreases form, 20nat, 0nat,
{
    match renamed_items(form, 0, renaming, bound) {
        Err(problem) => Err(problem),
        Ok(items) => match form.kind {
            FormKind::List { items: _, tail: Some(tail) } => match renamed(*tail, renaming, bound) {
                Err(problem) => Err(problem),
                Ok(tail) => Ok(dotted_form(items, Some(Box::new(tail)), form.span)),
            },
            _ => Ok(list_form(items, form.span)),
        },
    }
}

/// A lambda expression after renaming.
pub open spec fn renamed_lambda(form: Form, renaming: Map<Seq<char>, Seq<char>>, bound: Set<Seq<char>>) -> Result<
    Form,
    Problem,
>
    decreases form, 20nat, 0nat,
{
    let items = list_items(form);
    if items.len() < 3 {
        Ok(form)
    } else {
        match with_formals(items[1], bound) {
            Err(problem) => Err(problem),
            Ok(bound) => match renamed_items(form, 2, renaming, bound) {
                Err(problem) => Err(problem),
                Ok(body) => Ok(dotted_form(seq![items[0], items[1]] + body, list_tail(form), form.span)),
            },
        }
    }
}

/// A definition after renaming.
pub open spec fn renamed_define(form: Form, renaming: Map<Seq<char>, Seq<char>>, bound: Set<Seq<char>>) -> Result<
    Form,
    Problem,
>
    decreases form, 20nat, 0nat,
{
    let items = list_items(form);
    if items.len() < 3 {
        Ok(form)
    } else {
        match items[1].kind {
            FormKind::Symbol(name) => match renamed_items(form, 2, renaming, bound) {
                Err(problem) => Err(problem),
                Ok(body) => Ok(
                    list_form(
                        seq![items[0], symbol_form(renamed_name(name, renaming, bound), items[1].span)] + body,
                        form.span,
                    ),
                ),
            },
            FormKind::List { items: signature, tail } => if signature.len() == 0 {
                Err(Problem::Expand("define target must be an identifier or parameter list"@))
            } else {
                match with_parameters(
                    items[1],
                    1,
                    "procedure parameter"@,
                    "procedure rest parameter"@,
                    bound,
                ) {
                    Err(problem) => Err(problem),
                    Ok(body_bound) => match required_symbol(signature[0], "procedure definition name"@) {
                        Err(problem) => Err(problem),
                        Ok(name) => match renamed_items(form, 2, renaming, body_bound) {
                            Err(problem) => Err(problem),
                            Ok(body) => Ok(
                                list_form(
                                    seq![
                                        items[0],
                                        dotted_form(
                                            seq![
                                                symbol_form(
                                                    renamed_name(name, renaming, bound),
                                                    signature[0].span,
                                                ),
                                            ] + signature.skip(1),
                                            tail,
                                            items[1].span,
                                        ),
                                    ] + body,
                                    form.span,
                                ),
                            ),
                        },
                    },
                }
            },
            _ => Err(Problem::Expand("define target must be an identifier or parameter list"@)),
        }
    }
}

/// An assignment after renaming.
pub open spec fn renamed_set(form: Form, renaming: Map<Seq<char>, Seq<char>>, bound: Set<Seq<char>>) -> Result<
    Form,
    Problem,
>
    decreases form, 20nat, 0nat,
{
    let items = list_items(form);
    if items.len() != 3 {
        Ok(form)
    } else {
        match required_symbol(items[1], "set! target"@) {
            Err(problem) => Err(problem),
            Ok(target) => match renamed(items[2], renaming, bound) {
                Err(problem) => Err(problem),
                Ok(value) => Ok(
                    list_form(
                        seq![
                            items[0],
                            symbol_form(renamed_name(target, renaming, bound), items[1].span),
                            value,
                        ],
                        form.span,
                    ),
                ),
            },
        }
    }
}

/// The name that a binding binds, if it is a list of two that starts with a symbol.
pub open spec fn bound_name(binding: Form) -> Option<Seq<char>> {
    match proper_items(binding) {
        Some(items) => if items.len() == 2 { symbol_of(items[0]) } else { None },
        None => None,
    }
}

/// The names that bindings bind.
pub open spec fn bound_names(bindings: Seq<Form>) -> Set<Seq<char>> {
    Set::new(|name: Seq<char>| exists|i: int| 0 <= i < bindings.len() && bound_name(#[trigger] bindings[i]) == Some(name))
}

/// The names that are bound where the value of a binding is computed.
#[verifier::opaque]
pub open spec fn init_bound(keyword: Seq<char>, bindings: Seq<Form>, bound: Set<Seq<char>>, body_bound: Set<Seq<char>>) -> Set<
    Seq<char>,
> {
    if keyword == "let*"@ {
        body_bound
    } else if keyword == "letrec"@ || keyword == "letrec*"@ {
        body_bound + bound_names(bindings)
    } else {
        bound
    }
}

/// The bindings from one on after renaming, and the names that are bound in the body.
pub open spec fn renamed_bindings(
    bindings: Form,
    index: nat,
    keyword: Seq<char>,
    renaming: Map<Seq<char>, Seq<char>>,
    bound: Set<Seq<char>>,
    body_bound: Set<Seq<char>>,
) -> Result<(Seq<Form>, Set<Seq<char>>), Problem>
    decreases bindings, 15nat, list_items(bindings).len() - index,
{
    let items = list_items(bindings);
    if index >= items.len() {
        Ok((Seq::empty(), body_bound))
    } else {
        match items[index as int].kind {
            FormKind::List { items: parts, tail: None } => if parts.len() != 2 {
                Err(Problem::Expand(keyword + " binding must be a two-item list"@))
            } else {
                match required_symbol(parts[0], keyword + " binding name"@) {
                    Err(problem) => Err(problem),
                    Ok(name) => match renamed(
                        parts[1],
                        renaming,
                        init_bound(keyword, items, bound, body_bound),
                    ) {
                        Err(problem) => Err(problem),
                        Ok(init) => match renamed_bindings(
                            bindings,
                            index + 1,
                            keyword,
                            renaming,
                            bound,
                            body_bound.insert(name),
                        ) {
                            Err(problem) => Err(problem),
                            Ok((rest, body_bound)) => Ok(
                                (
                                    seq![list_form(seq![parts[0], init], items[index as int].span)] + rest,
                                    body_bound,
                                ),
                            ),
                        },
                    },
                }
            },
            _ => Err(Problem::Expand(keyword + " binding must be a two-item list"@)),
        }
    }
}

/// A `let` or one of its relatives after renaming.
pub open spec fn renamed_let(
    form: Form,
    keyword: Seq<char>,
    renaming: Map<Seq<char>, Seq<char>>,
    bound: Set<Seq<char>>,
) -> Result<Form, Problem>
    decreases form, 20nat, 0nat,
{
    let items = list_items(form);
    if items.len() < 3 || proper_items(items[1]) is None {
        Ok(form)
    } else {
        match renamed_bindings(items[1], 0, keyword, renaming, bound, bound) {
            Err(problem) => Err(problem),
            Ok((bindings, body_bound)) => match renamed_items(form, 2, renaming, body_bound) {
                Err(problem) => Err(problem),
                Ok(body) => Ok(
                    list_form(seq![items[0], list_form(bindings, items[1].span)] + body, form.span),
                ),
            },
        }
    }
}

/// Whether renaming did what is expected of it.
pub open spec fn renamed_as<V: View>(result: Result<V, CompileError>, expected: Result<V::V, Problem>) -> bool {
    match result {
        Ok(value) => expected == Ok::<V::V, Problem>(value@),
        Err(error) => expected == Err::<V::V, Problem>(error@),
    }
}

fn rename_symbol(symbol: &str, renaming: &NameMap<String>, bound: &NameSet) -> (name: String)
    ensures
        name@ == renamed_name(symbol@, renaming@, bound@),
{
    if bound.contains(symbol) {
        return symbol.to_owned();
    }
    match renaming.get(symbol) {
        Some(renamed) => renamed.clone(),
        None => symbol.to_owned(),
    }
}

fn bind_signature_formals(formals: &Expr, start: usize, context: &str, rest_context: &str, bound: &NameSet) -> (result: Result<
    NameSet,
    CompileError,
>)
    requires
        formals.kind is List,
        start <= list_items(formals@).len(),
    ensures
        renamed_as(result, with_parameters(formals@, start as nat, context@, rest_context@, bound@)),
{
    reveal(with_parameters);
    proof {
        lemma_list_form(*formals);
    }
    if let ExprKind::List { items, tail } = &formals.kind {
        let names = parse_identifier_list(items, start, context)?;
        let mut extended = with_names(bound, &names);
        if let Some(tail) = tail {
            let rest = symbol_name(tail, rest_context)?;
            extended.insert(rest);
        }
        return Ok(extended);
    }
    Ok(bound.duplicate())
}

fn bind_formals(formals: &Expr, bound: &NameSet) -> (result: Result<NameSet, CompileError>)
    ensures
        renamed_as(result, with_formals(formals@, bound@)),
{
    reveal(with_formals);
    match &formals.kind {
        ExprKind::Symbol(symbol) => {
            let mut extended = bound.duplicate();
            extended.insert(symbol.clone());
            Ok(extended)
        },
        ExprKind::List { items: _, tail: _ } => bind_signature_formals(
            formals,
            0,
            "lambda parameter",
            "lambda rest parameter",
            bound,
        ),
        _ => expand_error("lambda formals must be an identifier or parameter list"),
    }
}

/// A form of a library after renaming.
pub fn rename_library_expr(expr: &Expr, renaming: &NameMap<String>) -> (result: Result<Expr, CompileError>)
    ensures
        renamed_as(result, renamed(expr@, renaming@, Set::empty())),
{
    let bound = NameSet::new();
    rename_expr(expr, renaming, &bound)
}

fn rename_expr(expr: &Expr, renaming: &NameMap<String>, bound: &NameSet) -> (result: Result<Expr, CompileError>)
    ensures
        renamed_as(result, renamed(expr@, renaming@, bound@)),
    decreases *expr, 30nat, 0nat,
{
    proof {
        lemma_list_form(*expr);
    }
    match &expr.kind {
        ExprKind::Symbol(symbol) => {
            let name = rename_symbol(symbol.as_str(), renaming, bound);
            Ok(symbol_expr(name.as_str(), expr.span))
        },
        ExprKind::List { items, tail: _ } => {
            if items.len() > 0 {
                assert(forms_of(items@)[0] == items@[0]@);
                if let Some(keyword) = symbol_value(&items[0]) {
                    if same(keyword, "lambda") {
                        return rename_lambda_form(expr, renaming, bound);
                    }
                    if same(keyword, "define") {
                        return rename_define_form(expr, renaming, bound);
                    }
                    if same(keyword, "let") || same(keyword, "let*") || same(keyword, "letrec") || same(
                        keyword,
                        "letrec*",
                    ) {
                        return rename_let_like(expr, keyword, renaming, bound);
                    }
                    if same(keyword, "set!") {
                        return rename_set_form(expr, renaming, bound);
                    }
                    if same(keyword, "quote") || same(keyword, "import") || same(keyword, "export") || same(
                        keyword,
                        "define-library",
                    ) {
                        return Ok(expr.duplicate());
                    }
                }
            }
            rename_list(expr, renaming, bound)
        },
        _ => Ok(expr.duplicate()),
    }
}

pub fn rename_items(expr: &Expr, index: usize, renaming: &NameMap<String>, bound: &NameSet) -> (result: Result<
    Vec<Expr>,
    CompileError,
>)
    requires
        expr.kind is List,
        index <= list_items(expr@).len(),
    ensures
        match result {
            Ok(items) => renamed_items(expr@, index as nat, renaming@, bound@) == Ok::<Seq<Form>, Problem>(
                forms_of(items@),
            ),
            Err(error) => renamed_items(expr@, index as nat, renaming@, bound@) == Err::<Seq<Form>, Problem>(
                error@,
            ),
        },
    decreases *expr, 10nat, list_items(expr@).len() - index,
{
    proof {
        lemma_list_form(*expr);
    }
    if let ExprKind::List { items, tail: _ } = &expr.kind {
        if index < items.len() {
            assert(forms_of(items@)[index as int] == items@[index as int]@);
            let first = rename_expr(&items[index], renaming, bound)?;
            let rest = rename_items(expr, index + 1, renaming, bound)?;
            return Ok(prepend(first, rest));
        }
    }
    let none: Vec<Expr> = Vec::new();
    assert(forms_of(none@) =~= Seq::<Form>::empty());
    Ok(none)
}

fn rename_list(expr: &Expr, renaming: &NameMap<String>, bound: &NameSet) -> (result: Result<Expr, CompileError>)
    requires
        expr.kind is List,
    ensures
        renamed_as(result, renamed_list(expr@, renaming@, bound@)),
    decreases *expr, 20nat, 0nat,
{
    proof {
        lemma_list_form(*expr);
    }
    let items = rename_items(expr, 0, renaming, bound)?;
    if let ExprKind::List { items: _, tail: Some(tail) } = &expr.kind {
        let renamed_tail = rename_expr(tail, renaming, bound)?;
        return Ok(dotted_expr(items, Some(Box::new(renamed_tail)), expr.span));
    }
    Ok(list_expr(items, expr.span))
}

fn rename_lambda_form(expr: &Expr, renaming: &NameMap<String>, bound: &NameSet) -> (result: Result<
    Expr,
    CompileError,
>)
    requires
        expr.kind is List,
    ensures
        renamed_as(result, renamed_lambda(expr@, renaming@, bound@)),
    decreases *expr, 20nat, 0nat,
{
    proof {
        lemma_list_form(*expr);
    }
    if let ExprKind::List { items, tail } = &expr.kind {
        if items.len() >= 3 {
            assert(forms_of(items@)[0] == items@[0]@);
            assert(forms_of(items@)[1] == items@[1]@);
            let body_bound = bind_formals(&items[1], bound)?;
            let body = rename_items(expr, 2, renaming, &body_bound)?;
            let row = prepend_two(items[0].duplicate(), items[1].duplicate(), body);
            return Ok(dotted_expr(row, clone_tail(tail), expr.span));
        }
    }
    Ok(expr.duplicate())
}

fn rename_define_form(expr: &Expr, renaming: &NameMap<String>, bound: &NameSet) -> (result: Result<
    Expr,
    CompileError,
>)
    requires
        expr.kind is List,
    ensures
        renamed_as(result, renamed_define(expr@, renaming@, bound@)),
    decreases *expr, 20nat, 0nat,
{
    proof {
        lemma_list_form(*expr);
    }
    if let ExprKind::List { items, tail: _ } = &expr.kind {
        if items.len() >= 3 {
            assert(forms_of(items@)[0] == items@[0]@);
            assert(forms_of(items@)[1] == items@[1]@);
            proof {
                lemma_list_form(items@[1]);
            }
            return match &items[1].kind {
                ExprKind::Symbol(symbol) => {
                    let name = rename_symbol(symbol.as_str(), renaming, bound);
                    let body = rename_items(expr, 2, renaming, bound)?;
                    let target = symbol_expr(name.as_str(), items[1].span);
                    Ok(list_expr(prepend_two(items[0].duplicate(), target, body), expr.span))
                },
                ExprKind::List { items: signature, tail } => {
                    if signature.len() == 0 {
                        return expand_error("define target must be an identifier or parameter list");
                    }
                    assert(forms_of(signature@)[0] == signature@[0]@);
                    let body_bound = bind_signature_formals(
                        &items[1],
                        1,
                        "procedure parameter",
                        "procedure rest parameter",
                        bound,
                    )?;
                    let original = symbol_name(&signature[0], "procedure definition name")?;
                    let name = rename_symbol(original.as_str(), renaming, bound);
                    let body = rename_items(expr, 2, renaming, &body_bound)?;
                    let params = clone_exprs(signature, 1);
                    let target = symbol_expr(name.as_str(), signature[0].span);
                    let head = dotted_expr(prepend(target, params), clone_tail(tail), items[1].span);
                    Ok(list_expr(prepend_two(items[0].duplicate(), head, body), expr.span))
                },
                _ => expand_error("define target must be an identifier or parameter list"),
            };
        }
    }
    Ok(expr.duplicate())
}

fn rename_set_form(expr: &Expr, renaming: &NameMap<String>, bound: &NameSet) -> (result: Result<Expr, CompileError>)
    requires
        expr.kind is List,
    ensures
        renamed_as(result, renamed_set(expr@, renaming@, bound@)),
    decreases *expr, 20nat, 0nat,
{
    proof {
        lemma_list_form(*expr);
    }
    if let ExprKind::List { items, tail: _ } = &expr.kind {
        if items.len() == 3 {
            assert(forms_of(items@)[0] == items@[0]@);
            assert(forms_of(items@)[1] == items@[1]@);
            assert(forms_of(items@)[2] == items@[2]@);
            let target = symbol_name(&items[1], "set! target")?;
            let name = rename_symbol(target.as_str(), renaming, bound);
            let value = rename_expr(&items[2], renaming, bound)?;
            let row: Vec<Expr> = vec![items[0].duplicate(), symbol_expr(name.as_str(), items[1].span), value];
            assert(forms_of(row@) =~= seq![items@[0]@, symbol_form(name@, items@[1].span), value@]);
            return Ok(list_expr(row, expr.span));
        }
    }
    Ok(expr.duplicate())
}

fn binding_name(binding: &Expr) -> (name: Option<&str>)
    ensures
        match name {
            Some(name) => bound_name(binding@) == Some(name@),
            None => bound_name(binding@) is None,
        },
{
    if let Some(items) = as_proper_list(binding) {
        if items.len() == 2 {
            assert(forms_of(items@)[0] == items@[0]@);
            return symbol_value(&items[0]);
        }
    }
    None
}

/// A set with the names that bindings bind added.
fn with_bound_names(bound: &NameSet, bindings: &Vec<Expr>) -> (extended: NameSet)
    ensures
        extended@ == bound@ + bound_names(forms_of(bindings@)),
{
    let mut extended = bound.duplicate();
    let mut index: usize = 0;
    assert(extended@ =~= bound@ + bound_names(forms_of(bindings@).subrange(0, 0)));
    while index < bindings.len()
        invariant
            index <= bindings@.len(),
            extended@ == bound@ + bound_names(forms_of(bindings@).subrange(0, index as int)),
        decreases bindings@.len() - index,
    {
        let ghost before_names = extended@;
        let found = binding_name(&bindings[index]);
        if let Some(name) = found {
            extended.insert(name.to_owned());
        }
        proof {
            let all = forms_of(bindings@);
            let shorter = all.subrange(0, index as int);
            let next = all.subrange(0, index + 1);
            assert(all[index as int] == bindings@[index as int]@);
            assert forall|x: Seq<char>| bound_names(next).contains(x) <==> bound_names(shorter).contains(x) || bound_name(
                all[index as int],
            ) == Some(x) by {
                if bound_names(shorter).contains(x) {
                    let k = choose|k: int| 0 <= k < shorter.len() && bound_name(#[trigger] shorter[k]) == Some(x);
                    assert(next[k] == shorter[k]);
                }
                if bound_names(next).contains(x) {
                    let k = choose|k: int| 0 <= k < next.len() && bound_name(#[trigger] next[k]) == Some(x);
                    if k < index {
                        assert(shorter[k] == next[k]);
                    }
                }
                assert(next[index as int] == all[index as int]);
            }
            assert(extended@ =~= bound@ + bound_names(next));
        }
        index = index + 1;
    }
    assert(forms_of(bindings@).subrange(0, bindings@.len() as int) =~= forms_of(bindings@));
    extended
}

fn names_for_init(keyword: &str, bindings: &Vec<Expr>, bound: &NameSet, body_bound: &NameSet) -> (names: NameSet)
    ensures
        names@ == init_bound(keyword@, forms_of(bindings@), bound@, body_bound@),
{
    reveal(init_bound);
    if same(keyword, "let*") {
        return body_bound.duplicate();
    }
    if same(keyword, "letrec") || same(keyword, "letrec*") {
        return with_bound_names(body_bound, bindings);
    }
    bound.duplicate()
}

fn rename_bindings(
    bindings: &Expr,
    index: usize,
    keyword: &str,
    renaming: &NameMap<String>,
    bound: &NameSet,
    body_bound: &NameSet,
) -> (result: Result<(Vec<Expr>, NameSet), CompileError>)
    requires
        bindings.kind is List,
        index <= list_items(bindings@).len(),
    ensures
        match result {
            Ok((forms, names)) => renamed_bindings(
                bindings@,
                index as nat,
                keyword@,
                renaming@,
                bound@,
                body_bound@,
            ) == Ok::<(Seq<Form>, Set<Seq<char>>), Problem>((forms_of(forms@), names@)),
            Err(error) => renamed_bindings(
                bindings@,
                index as nat,
                keyword@,
                renaming@,
                bound@,
                body_bound@,
            ) == Err::<(Seq<Form>, Set<Seq<char>>), Problem>(error@),
        },
    decreases *bindings, 15nat, list_items(bindings@).len() - index,
{
    proof {
        lemma_list_form(*bindings);
    }
    if let ExprKind::List { items, tail: _ } = &bindings.kind {
        if index < items.len() {
            assert(forms_of(items@)[index as int] == items@[index as int]@);
            proof {
                lemma_list_form(items@[index as int]);
            }
            if let ExprKind::List { items: parts, tail: None } = &items[index].kind {
                if parts.len() == 2 {
                    assert(forms_of(parts@)[0] == parts@[0]@);
                    assert(forms_of(parts@)[1] == parts@[1]@);
                    let context = join(keyword, " binding name");
                    let name = symbol_name(&parts[0], context.as_str())?;
                    let init_names = names_for_init(keyword, items, bound, body_bound);
                    let init = rename_expr(&parts[1], renaming, &init_names)?;
                    let mut next_bound = body_bound.duplicate();
                    next_bound.insert(name);
                    let (rest, names) = rename_bindings(
                        bindings,
                        index + 1,
                        keyword,
                        renaming,
                        bound,
                        &next_bound,
                    )?;
                    let row: Vec<Expr> = vec![parts[0].duplicate(), init];
                    assert(forms_of(row@) =~= seq![parts@[0]@, init@]);
                    let pair = list_expr(row, items[index].span);
                    return Ok((prepend(pair, rest), names));
                }
            }
            return expand_error_with(join(keyword, " binding must be a two-item list"));
        }
    }
    let none: Vec<Expr> = Vec::new();
    assert(forms_of(none@) =~= Seq::<Form>::empty());
    Ok((none, body_bound.duplicate()))
}

fn rename_let_like(expr: &Expr, keyword: &str, renaming: &NameMap<String>, bound: &NameSet) -> (result: Result<
    Expr,
    CompileError,
>)
    requires
        expr.kind is List,
    ensures
        renamed_as(result, renamed_let(expr@, keyword@, renaming@, bound@)),
    decreases *expr, 20nat, 0nat,
{
    proof {
        lemma_list_form(*expr);
    }
    if let ExprKind::List { items, tail: _ } = &expr.kind {
        if items.len() >= 3 {
            assert(forms_of(items@)[0] == items@[0]@);
            assert(forms_of(items@)[1] == items@[1]@);
            if as_proper_list(&items[1]).is_some() {
                let (bindings, body_bound) = rename_bindings(&items[1], 0, keyword, renaming, bound, bound)?;
                let body = rename_items(expr, 2, renaming, &body_bound)?;
                let head = list_expr(bindings, items[1].span);
                return Ok(list_expr(prepend_two(items[0].duplicate(), head, body), expr.span));
            }
        }
    }
    Ok(expr.duplicate())
}

} // verus!
