//! Uses of macros inside forms.
use crate::error::{CompileError, Problem};
use crate::expand::declarations::{rule_forms, SyntaxRules, Transformer};
use crate::expand::forms::{
    as_proper_list, clone_tail, dotted_expr, dotted_form, list_expr, list_form, list_items, list_tail, prepend,
    prepend_two, proper_items, symbol_of, symbol_value,
};
use crate::expand::matching::{match_form, match_pattern, no_bindings, MatchEnv};
use crate::expand::outcome::{grown, grown_row, Growth, Halt, NameSource, Stop};
use crate::expand::template::{fill, is_let_keyword, Filling, TemplateFiller};
use crate::frontend::ast::{forms_of, lemma_list_form, Expr, ExprKind, Form, FormKind};
use crate::names::{Duplicate, NameMap};
use crate::text::{join, same};
use vstd::prelude::*;

verus! {

broadcast use vstd::seq_lib::group_seq_properties;

/// The macros that are known, by their names.
pub type Macros = Map<Seq<char>, Transformer>;

/// What a use of a macro stands for: the template of the first clause from one on that matches.
pub open spec fn macro_call(rules: Transformer, form: Form, index: nat, counter: nat) -> Growth<Form>
    decreases rules.rules.len() - index,
{
    if index >= rules.rules.len() {
        Err(Stop::Failed(Problem::Expand("macro expansion failed to match any syntax-rules clause"@)))
    } else {
        match match_form(rules.rules[index as int].0, form, rules.literals, no_bindings(), false) {
            Some(env) => fill(
                rules.rules[index as int].1,
                Filling { values: rules.values, env, repetition: None },
                Map::empty(),
                counter,
            ),
            None => macro_call(rules, form, index + 1, counter),
        }
    }
}

/// A form without uses of macros. A macro may expand to a use of a macro, and so on, `limit`
/// times.
pub open spec fn expanded(form: Form, macros: Macros, limit: nat, counter: nat) -> Growth<Form>
    decreases limit, form, 30nat, 0nat,
{
    match form.kind {
        FormKind::List { items, tail } => {
            let keyword = if items.len() > 0 { symbol_of(items[0]) } else { None };
            if keyword is Some && macros.contains_key(keyword->0) {
                if limit == 0 {
                    Err(Stop::Exhausted)
                } else {
                    match macro_call(macros[keyword->0], form, 0, counter) {
                        Err(stop) => Err(stop),
                        Ok((counter, form)) => expanded(form, macros, (limit - 1) as nat, counter),
                    }
                }
            } else if keyword == Some("quote"@) {
                Ok((counter, form))
            } else if keyword == Some("lambda"@) {
                expanded_lambda(form, macros, limit, counter)
            } else if keyword == Some("define"@) {
                expanded_define(form, macros, limit, counter)
            } else if keyword == Some("define-syntax"@) || keyword == Some("syntax-rules"@) || keyword == Some(
                "import"@,
            ) || keyword == Some("define-library"@) {
                Ok((counter, form))
            } else if keyword is Some && is_let_keyword(keyword->0) {
                expanded_let(form, keyword->0, macros, limit, counter)
            } else {
                expanded_list(form, macros, limit, counter)
            }
        },
        _ => Ok((counter, form)),
    }
}

/// The items of a list from one on without uses of macros.
pub open spec fn expanded_items(form: Form, index: nat, macros: Macros, limit: nat, counter: nat) -> Growth<Seq<Form>>
    decreases limit, form, 10nat, list_items(form).len() - index,
{
    let items = list_items(form);
    if index >= items.len() {
        Ok((counter, Seq::empty()))
    } else {
        match expanded(items[index as int], macros, limit, counter) {
            Err(stop) => Err(stop),
            Ok((counter, first)) => match expanded_items(form, index + 1, macros, limit, counter) {
                Err(stop) => Err(stop),
                Ok((counter, rest)) => Ok((counter, seq![first] + rest)),
            },
        }
    }
}

/// A list without uses of macros.
pub open spec fn expanded_list(form: Form, macros: Macros, limit: nat, counter: nat) -> Growth<Form>
    decreases limit, form, 20nat, 0nat,
{
    match expanded_items(form, 0, macros, limit, counter) {
        Err(stop) => Err(stop),
        Ok((counter, items)) => match form.kind {
            FormKind::List { items: _, tail: Some(tail) } => match expanded(*tail, macros, limit, counter) {
                Err(stop) => Err(stop),
                Ok((counter, tail)) => Ok((counter, dotted_form(items, Some(Box::new(tail)), form.span))),
            },
            _ => Ok((counter, list_form(items, form.span))),
        },
    }
}

/// A lambda expression without uses of macros.
pub open spec fn expanded_lambda(form: Form, macros: Macros, limit: nat, counter: nat) -> Growth<Form>
    decreases limit, form, 20nat, 0nat,
{
    let items = list_items(form);
    if items.len() < 3 {
        Ok((counter, form))
    } else {
        match expanded_items(form, 2, macros, limit, counter) {
            Err(stop) => Err(stop),
            Ok((counter, body)) => Ok(
                (counter, dotted_form(seq![items[0], items[1]] + body, list_tail(form), form.span)),
            ),
        }
    }
}

/// A definition without uses of macros.
pub open spec fn expanded_define(form: Form, macros: Macros, limit: nat, counter: nat) -> Growth<Form>
    decreases limit, form, 20nat, 0nat,
{
    let items = list_items(form);
    if items.len() < 3 {
        Ok((counter, form))
    } else {
        match expanded_items(form, 2, macros, limit, counter) {
            Err(stop) => Err(stop),
            Ok((counter, body)) => Ok(
                (counter, list_form(seq![items[0], items[1]] + body, form.span)),
            ),
        }
    }
}

/// The bindings from one on without uses of macros.
pub open spec fn expanded_bindings(
    bindings: Form,
    index: nat,
    keyword: Seq<char>,
    macros: Macros,
    limit: nat,
    counter: nat,
) -> Growth<Seq<Form>>
    decreases limit, bindings, 15nat, list_items(bindings).len() - index,
{
    let items = list_items(bindings);
    if index >= items.len() {
        Ok((counter, Seq::empty()))
    } else {
        match items[index as int].kind {
            FormKind::List { items: parts, tail: None } => if parts.len() != 2 {
                Err(Stop::Failed(Problem::Expand(keyword + " binding must be a two-item list"@)))
            } else {
                match expanded(parts[1], macros, limit, counter) {
                    Err(stop) => Err(stop),
                    Ok((counter, init)) => match expanded_bindings(
                        bindings,
                        index + 1,
                        keyword,
                        macros,
                        limit,
                        counter,
                    ) {
                        Err(stop) => Err(stop),
                        Ok((counter, rest)) => Ok(
                            (
                                counter,
                                seq![list_form(seq![parts[0], init], items[index as int].span)] + rest,
                            ),
                        ),
                    },
                }
            },
            _ => Err(Stop::Failed(Problem::Expand(keyword + " binding must be a two-item list"@))),
        }
    }
}

/// A `let` or one of its relatives without uses of macros.
pub open spec fn expanded_let(form: Form, keyword: Seq<char>, macros: Macros, limit: nat, counter: nat) -> Growth<Form>
    decreases limit, form, 20nat, 0nat,
{
    let items = list_items(form);
    if items.len() < 3 || proper_items(items[1]) is None {
        Ok((counter, form))
    } else {
        match expanded_bindings(items[1], 0, keyword, macros, limit, counter) {
            Err(stop) => Err(stop),
            Ok((counter, bindings)) => match expanded_items(form, 2, macros, limit, counter) {
                Err(stop) => Err(stop),
                Ok((counter, body)) => Ok(
                    (
                        counter,
                        list_form(
                            seq![items[0], list_form(bindings, items[1].span)] + body,
                            form.span,
                        ),
                    ),
                ),
            },
        }
    }
}

/// What a use of a macro stands for.
pub fn expand_macro_call(rules: &SyntaxRules, expr: &Expr, names: &mut NameSource) -> (result: Result<Expr, Halt>)
    ensures
        grown(result, final(names)@, macro_call(rules@, expr@, 0, old(names)@)),
{
    let mut index: usize = 0;
    while index < rules.rules.len()
        invariant
            index <= rules.rules@.len(),
            names@ == old(names)@,
            macro_call(rules@, expr@, 0, old(names)@) == macro_call(rules@, expr@, index as nat, old(names)@),
        decreases rules.rules@.len() - index,
    {
        let rule = &rules.rules[index];
        assert(rule_forms(rules.rules@)[index as int] == (rule.pattern@, rule.template@));
        let found = match_pattern(&rule.pattern, expr, &rules.literals, MatchEnv::new(), false);
        if let Some(env) = found {
            let scope: NameMap<String> = NameMap::new();
            let filler = TemplateFiller { values: &rules.definition_values, env: &env };
            return filler.expand_template(&rule.template, None, &scope, names);
        }
        index = index + 1;
    }
    Err(
        Halt::Failed(
            CompileError::Expand("macro expansion failed to match any syntax-rules clause".to_owned()),
        ),
    )
}

/// A form without uses of macros.
pub fn expand_expr(expr: &Expr, macros: &NameMap<SyntaxRules>, limit: usize, names: &mut NameSource) -> (result: Result<
    Expr,
    Halt,
>)
    ensures
        grown(result, final(names)@, expanded(expr@, macros@, limit as nat, old(names)@)),
    decreases limit, *expr, 30nat, 0nat,
{
    proof {
        lemma_list_form(*expr);
    }
    if let ExprKind::List { items, tail: _ } = &expr.kind {
        if items.len() > 0 {
            assert(forms_of(items@)[0] == items@[0]@);
            if let Some(name) = symbol_value(&items[0]) {
                if let Some(rules) = macros.get(name) {
                    if limit == 0 {
                        return Err(Halt::Exhausted);
                    }
                    let form = expand_macro_call(rules, expr, names)?;
                    return expand_expr(&form, macros, limit - 1, names);
                }
                if same(name, "quote") {
                    return Ok(expr.duplicate());
                }
                if same(name, "lambda") {
                    return expand_lambda(expr, macros, limit, names);
                }
                if same(name, "define") {
                    return expand_define(expr, macros, limit, names);
                }
                if same(name, "define-syntax") || same(name, "syntax-rules") || same(name, "import") || same(
                    name,
                    "define-library",
                ) {
                    return Ok(expr.duplicate());
                }
                if same(name, "let") || same(name, "let*") || same(name, "letrec") || same(name, "letrec*") {
                    return expand_let_like(expr, name, macros, limit, names);
                }
            }
        }
        return expand_list(expr, macros, limit, names);
    }
    Ok(expr.duplicate())
}

fn expand_items(
    expr: &Expr,
    index: usize,
    macros: &NameMap<SyntaxRules>,
    limit: usize,
    names: &mut NameSource,
) -> (result: Result<Vec<Expr>, Halt>)
    requires
        expr.kind is List,
        index <= list_items(expr@).len(),
    ensures
        grown_row(
            result,
            final(names)@,
            expanded_items(expr@, index as nat, macros@, limit as nat, old(names)@),
        ),
    decreases limit, *expr, 10nat, list_items(expr@).len() - index,
{
    proof {
        lemma_list_form(*expr);
    }
    if let ExprKind::List { items, tail: _ } = &expr.kind {
        if index < items.len() {
            assert(forms_of(items@)[index as int] == items@[index as int]@);
            let first = expand_expr(&items[index], macros, limit, names)?;
            let rest = expand_items(expr, index + 1, macros, limit, names)?;
            return Ok(prepend(first, rest));
        }
    }
    let none: Vec<Expr> = Vec::new();
    assert(forms_of(none@) =~= Seq::<Form>::empty());
    Ok(none)
}

fn expand_list(expr: &Expr, macros: &NameMap<SyntaxRules>, limit: usize, names: &mut NameSource) -> (result: Result<
    Expr,
    Halt,
>)
    requires
        expr.kind is List,
    ensures
        grown(result, final(names)@, expanded_list(expr@, macros@, limit as nat, old(names)@)),
    decreases limit, *expr, 20nat, 0nat,
{
    proof {
        lemma_list_form(*expr);
    }
    let items = expand_items(expr, 0, macros, limit, names)?;
    if let ExprKind::List { items: _, tail: Some(tail) } = &expr.kind {
        let last = expand_expr(tail, macros, limit, names)?;
        return Ok(dotted_expr(items, Some(Box::new(last)), expr.span));
    }
    Ok(list_expr(items, expr.span))
}

fn expand_lambda(expr: &Expr, macros: &NameMap<SyntaxRules>, limit: usize, names: &mut NameSource) -> (result: Result<
    Expr,
    Halt,
>)
    requires
        expr.kind is List,
    ensures
        grown(result, final(names)@, expanded_lambda(expr@, macros@, limit as nat, old(names)@)),
    decreases limit, *expr, 20nat, 0nat,
{
    proof {
        lemma_list_form(*expr);
    }
    if let ExprKind::List { items, tail } = &expr.kind {
        if items.len() >= 3 {
            assert(forms_of(items@)[0] == items@[0]@);
            assert(forms_of(items@)[1] == items@[1]@);
            let body = expand_items(expr, 2, macros, limit, names)?;
            let row = prepend_two(items[0].duplicate(), items[1].duplicate(), body);
            return Ok(dotted_expr(row, clone_tail(tail), expr.span));
        }
    }
    Ok(expr.duplicate())
}

fn expand_define(expr: &Expr, macros: &NameMap<SyntaxRules>, limit: usize, names: &mut NameSource) -> (result: Result<
    Expr,
    Halt,
>)
    requires
        expr.kind is List,
    ensures
        grown(result, final(names)@, expanded_define(expr@, macros@, limit as nat, old(names)@)),
    decreases limit, *expr, 20nat, 0nat,
{
    proof {
        lemma_list_form(*expr);
    }
    if let ExprKind::List { items, tail: _ } = &expr.kind {
        if items.len() >= 3 {
            assert(forms_of(items@)[0] == items@[0]@);
            assert(forms_of(items@)[1] == items@[1]@);
            let body = expand_items(expr, 2, macros, limit, names)?;
            let row = prepend_two(items[0].duplicate(), items[1].duplicate(), body);
            return Ok(list_expr(row, expr.span));
        }
    }
    Ok(expr.duplicate())
}

fn expand_bindings(
    bindings: &Expr,
    index: usize,
    keyword: &str,
    macros: &NameMap<SyntaxRules>,
    limit: usize,
    names: &mut NameSource,
) -> (result: Result<Vec<Expr>, Halt>)
    requires
        bindings.kind is List,
        index <= list_items(bindings@).len(),
    ensures
        grown_row(
            result,
            final(names)@,
            expanded_bindings(bindings@, index as nat, keyword@, macros@, limit as nat, old(names)@),
        ),
    decreases limit, *bindings, 15nat, list_items(bindings@).len() - index,
{
    proof {
        lemma_list_form(*bindings);
    }
    if let ExprKind::List { items, tail: _ } = &bindings.kind {
        if index < items.len() {
            assert(forms_of(items@)[index as int] == items@[index as int]@);
            proof {
                lemma_list_form(items@[index as int]);
            }
            if let ExprKind::List { items: parts, tail: None } = &items[index].kind {
                if parts.len() == 2 {
                    assert(forms_of(parts@)[0] == parts@[0]@);
                    assert(forms_of(parts@)[1] == parts@[1]@);
                    let init = expand_expr(&parts[1], macros, limit, names)?;
                    let rest = expand_bindings(bindings, index + 1, keyword, macros, limit, names)?;
                    let row: Vec<Expr> = vec![parts[0].duplicate(), init];
                    assert(forms_of(row@) =~= seq![parts@[0]@, init@]);
                    let pair = list_expr(row, items[index].span);
                    return Ok(prepend(pair, rest));
                }
            }
            return Err(
                Halt::Failed(CompileError::Expand(join(keyword, " binding must be a two-item list"))),
            );
        }
    }
    let none: Vec<Expr> = Vec::new();
    assert(forms_of(none@) =~= Seq::<Form>::empty());
    Ok(none)
}

fn expand_let_like(
    expr: &Expr,
    keyword: &str,
    macros: &NameMap<SyntaxRules>,
    limit: usize,
    names: &mut NameSource,
) -> (result: Result<Expr, Halt>)
    requires
        expr.kind is List,
    ensures
        grown(result, final(names)@, expanded_let(expr@, keyword@, macros@, limit as nat, old(names)@)),
    decreases limit, *expr, 20nat, 0nat,
{
    proof {
        lemma_list_form(*expr);
    }
    if let ExprKind::List { items, tail: _ } = &expr.kind {
        if items.len() >= 3 {
            assert(forms_of(items@)[0] == items@[0]@);
            assert(forms_of(items@)[1] == items@[1]@);
            if as_proper_list(&items[1]).is_some() {
                let bindings = expand_bindings(&items[1], 0, keyword, macros, limit, names)?;
                let body = expand_items(expr, 2, macros, limit, names)?;
                let head = list_expr(bindings, items[1].span);
                return Ok(list_expr(prepend_two(items[0].duplicate(), head, body), expr.span));
            }
        }
    }
    Ok(expr.duplicate())
}

} // verus!
