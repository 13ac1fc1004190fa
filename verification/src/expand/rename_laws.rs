//! What renaming does: a name that is to be renamed gets its new name wherever the program itself does not
//! bind it, and all else stays.
use crate::expand::declarations::identifiers;
use crate::expand::forms::{dotted_form, list_form, list_items, list_tail, proper_items, symbol_of};
use crate::expand::rename::{
    bound_name, bound_names, init_bound, renamed, renamed_bindings, renamed_define, renamed_items, renamed_lambda,
    renamed_let, renamed_list, renamed_set, with_formals, with_parameters,
};
use crate::expand::template_laws::{binds, is_binding, is_bound, starts, starts_let};
use crate::frontend::ast::{Form, FormKind};
use vstd::prelude::*;

verus! {

broadcast use vstd::seq_lib::group_seq_properties;

/// What a symbol becomes, where `bound` holds what binds names around it.
pub open spec fn is_renamed_symbol(
    form: Form,
    name: Seq<char>,
    result: Form,
    renaming: Map<Seq<char>, Seq<char>>,
    bound: Seq<Form>,
) -> bool {
    &&& result.span == form.span
    &&& symbol_of(result) == Some(
        if renaming.contains_key(name) && !is_bound(bound, name) {
            renaming[name]
        } else {
            name
        },
    )
}

/// Whether a list is left as it is.
pub open spec fn is_left_alone(items: Seq<Form>) -> bool {
    ||| starts(items, "quote"@) || starts(items, "import"@) || starts(items, "export"@) || starts(items, "define-library"@)
    ||| starts(items, "lambda"@) && items.len() < 3
    ||| starts(items, "define"@) && items.len() < 3
    ||| starts_let(items) && (items.len() < 3 || proper_items(items[1]) is None)
    ||| starts(items, "set!"@) && items.len() != 3
}

/// Whether a form is another after renaming.
pub open spec fn is_renamed(form: Form, result: Form, renaming: Map<Seq<char>, Seq<char>>, bound: Seq<Form>) -> bool
    decreases form, 30nat, 0nat,
{
    match form.kind {
        FormKind::Symbol(name) => is_renamed_symbol(form, name, result, renaming, bound),
        FormKind::List { items, tail } => if is_left_alone(items) {
            result == form
        } else {
            let parts = list_items(result);
            &&& result.kind is List
            &&& result.span == form.span
            &&& if starts(items, "lambda"@) {
                &&& list_tail(result) == tail
                &&& parts.len() >= 2 && parts[0] == items[0] && parts[1] == items[1]
                &&& are_renamed(form, 2, parts.skip(2), renaming, bound.push(items[1]))
            } else if starts(items, "define"@) {
                &&& list_tail(result) is None
                &&& parts.len() >= 2 && parts[0] == items[0]
                &&& match items[1].kind {
                    FormKind::Symbol(name) => is_renamed_symbol(items[1], name, parts[1], renaming, bound) && are_renamed(
                        form,
                        2,
                        parts.skip(2),
                        renaming,
                        bound,
                    ),
                    FormKind::List { items: signature, tail: rest } => {
                        let target = list_items(parts[1]);
                        &&& parts[1].kind is List && parts[1].span == items[1].span && list_tail(parts[1]) == rest
                        &&& signature.len() > 0 && target.len() == signature.len()
                        &&& target.skip(1) == signature.skip(1)
                        &&& symbol_of(signature[0]) matches Some(name)
                        &&& is_renamed_symbol(signature[0], name, target[0], renaming, bound)
                        &&& are_renamed(
                            form,
                            2,
                            parts.skip(2),
                            renaming,
                            bound.push(dotted_form(signature.skip(1), rest, items[1].span)),
                        )
                    },
                    _ => false,
                }
            } else if starts_let(items) {
                &&& list_tail(result) is None
                &&& parts.len() >= 2 && parts[0] == items[0]
                &&& parts[1].span == items[1].span && proper_items(parts[1]) is Some
                &&& are_renamed_bindings(items[1], 0, symbol_of(items[0])->0, list_items(parts[1]), renaming, bound)
                &&& are_renamed(form, 2, parts.skip(2), renaming, bound.push(items[1]))
            } else if starts(items, "set!"@) {
                &&& list_tail(result) is None
                &&& parts.len() == 3 && parts[0] == items[0]
                &&& symbol_of(items[1]) matches Some(name)
                &&& is_renamed_symbol(items[1], name, parts[1], renaming, bound)
                &&& is_renamed(items[2], parts[2], renaming, bound)
            } else {
                &&& are_renamed(form, 0, parts, renaming, bound)
                &&& match tail {
                    Some(tail) => list_tail(result) matches Some(rest) && is_renamed(*tail, *rest, renaming, bound),
                    None => list_tail(result) is None,
                }
            }
        },
        _ => result == form,
    }
}

/// The same for the items of a list from one on.
pub open spec fn are_renamed(
    form: Form,
    index: nat,
    results: Seq<Form>,
    renaming: Map<Seq<char>, Seq<char>>,
    bound: Seq<Form>,
) -> bool
    decreases form, 10nat, list_items(form).len() - index,
{
    if index >= list_items(form).len() {
        results.len() == 0
    } else {
        results.len() > 0 && is_renamed(list_items(form)[index as int], results[0], renaming, bound) && are_renamed(
            form,
            index + 1,
            results.skip(1),
            renaming,
            bound,
        )
    }
}

/// What binds names around the value of a binding: nothing more in a `let`, the bindings before it in a
/// `let*`, and all bindings in the others.
pub open spec fn value_bound(bindings: Form, index: nat, keyword: Seq<char>, bound: Seq<Form>) -> Seq<Form> {
    if keyword == "let*"@ {
        bound.push(list_form(list_items(bindings).subrange(0, index as int), bindings.span))
    } else if keyword == "letrec"@ || keyword == "letrec*"@ {
        bound.push(bindings)
    } else {
        bound
    }
}

/// The same for bindings from one on: the names stay.
pub open spec fn are_renamed_bindings(
    bindings: Form,
    index: nat,
    keyword: Seq<char>,
    results: Seq<Form>,
    renaming: Map<Seq<char>, Seq<char>>,
    bound: Seq<Form>,
) -> bool
    decreases bindings, 15nat, list_items(bindings).len() - index,
{
    let items = list_items(bindings);
    if index >= items.len() {
        results.len() == 0
    } else {
        &&& results.len() > 0
        &&& is_binding(results[0]) && results[0].span == items[index as int].span
        &&& match items[index as int].kind {
            FormKind::List { items: parts, tail: None } => {
                &&& parts.len() == 2 && parts[0].kind is Symbol
                &&& list_items(results[0])[0] == parts[0]
                &&& is_renamed(
                    parts[1],
                    list_items(results[0])[1],
                    renaming,
                    value_bound(bindings, index, keyword, bound),
                )
            },
            _ => false,
        }
        &&& are_renamed_bindings(bindings, index + 1, keyword, results.skip(1), renaming, bound)
    }
}

/// Whether a set holds the names that are bound around a place.
pub open spec fn are_bound(names: Set<Seq<char>>, bound: Seq<Form>) -> bool {
    forall|name: Seq<char>| #[trigger] names.contains(name) <==> is_bound(bound, name)
}

proof fn lemma_bound_pushed(names: Set<Seq<char>>, more: Set<Seq<char>>, bound: Seq<Form>, binders: Form)
    requires
        are_bound(names, bound),
        forall|name: Seq<char>| #[trigger] more.contains(name) <==> names.contains(name) || binds(binders, name),
    ensures
        are_bound(more, bound.push(binders)),
{
    let all = bound.push(binders);
    assert forall|name: Seq<char>| #[trigger] more.contains(name) <==> is_bound(all, name) by {
        if is_bound(all, name) {
            let i = choose|i: int| 0 <= i < all.len() && #[trigger] binds(all[i], name);
            if i < bound.len() {
                assert(binds(bound[i], name));
            }
        }
        if names.contains(name) {
            let i = choose|i: int| 0 <= i < bound.len() && #[trigger] binds(bound[i], name);
            assert(binds(all[i], name));
        }
        if binds(binders, name) {
            assert(binds(all[bound.len() as int], name));
        }
    }
}

proof fn lemma_identifiers(items: Seq<Form>, index: nat, context: Seq<char>, found: Seq<Seq<char>>)
    ensures
        identifiers(items, index, context, found) matches Ok(names) ==> (forall|i: int|
            index <= i < items.len() ==> symbol_of(#[trigger] items[i]) is Some) && (forall|name: Seq<char>| #[trigger]
            names.contains(name) <==> found.contains(name) || exists|i: int|
                index <= i < items.len() && symbol_of(#[trigger] items[i]) == Some(name)),
    decreases items.len() - index,
{
    if index < items.len() {
        if let Some(first) = symbol_of(items[index as int]) {
            let next = found.push(first);
            lemma_identifiers(items, index + 1, context, next);
            assert forall|name: Seq<char>| #[trigger] next.contains(name) <==> found.contains(name) || name == first by {
                if found.contains(name) {
                    let i = choose|i: int| 0 <= i < found.len() && found[i] == name;
                    assert(next[i] == name);
                }
                assert(next[found.len() as int] == first);
            }
        }
    }
}

/// Parameters bind the names that their list names.
proof fn lemma_parameters_bound(
    formals: Form,
    start: nat,
    context: Seq<char>,
    rest_context: Seq<char>,
    names: Set<Seq<char>>,
    bound: Seq<Form>,
)
    requires
        formals.kind is List,
        start <= list_items(formals).len(),
        are_bound(names, bound),
    ensures
        with_parameters(formals, start, context, rest_context, names) matches Ok(more) ==> are_bound(
            more,
            bound.push(dotted_form(list_items(formals).skip(start as int), list_tail(formals), formals.span)),
        ),
{
    reveal(with_parameters);
    let items = list_items(formals);
    lemma_identifiers(items, start, context, Seq::empty());
    if let Ok(more) = with_parameters(formals, start, context, rest_context, names) {
        let binders = dotted_form(items.skip(start as int), list_tail(formals), formals.span);
        let found = identifiers(items, start, context, Seq::empty())->Ok_0;
        assert forall|name: Seq<char>| #[trigger] more.contains(name) <==> names.contains(name) || binds(binders, name) by {
            assert(found.to_set().contains(name) == found.contains(name));
            if found.contains(name) {
                let i = choose|i: int| start <= i < items.len() && symbol_of(#[trigger] items[i]) == Some(name);
                assert(list_items(binders)[i - start] == items[i]);
            }
            if exists|i: int|
                0 <= i < list_items(binders).len() && (symbol_of(#[trigger] list_items(binders)[i]) == Some(name) || starts(
                    list_items(list_items(binders)[i]),
                    name,
                )) {
                let i = choose|i: int|
                    0 <= i < list_items(binders).len() && (symbol_of(#[trigger] list_items(binders)[i]) == Some(name)
                        || starts(list_items(list_items(binders)[i]), name));
                assert(list_items(binders)[i] == items[i + start]);
                assert(symbol_of(items[i + start]) is Some);
            }
        }
        lemma_bound_pushed(names, more, bound, binders);
    }
}

proof fn lemma_formals_bound(formals: Form, names: Set<Seq<char>>, bound: Seq<Form>)
    requires
        are_bound(names, bound),
    ensures
        with_formals(formals, names) matches Ok(more) ==> are_bound(more, bound.push(formals)),
{
    reveal(with_formals);
    match formals.kind {
        FormKind::Symbol(symbol) => {
            lemma_bound_pushed(names, names.insert(symbol), bound, formals);
        },
        FormKind::List { items, tail } => {
            lemma_parameters_bound(formals, 0, "lambda parameter"@, "lambda rest parameter"@, names, bound);
            assert(items.skip(0) =~= items);
        },
        _ => {},
    }
}

/// A form after renaming has its new names where they belong.
proof fn lemma_is_renamed(form: Form, renaming: Map<Seq<char>, Seq<char>>, names: Set<Seq<char>>, bound: Seq<Form>)
    requires
        are_bound(names, bound),
    ensures
        renamed(form, renaming, names) matches Ok(result) ==> is_renamed(form, result, renaming, bound),
    decreases form, 30nat, 0nat,
{
    if let FormKind::List { items, tail } = form.kind {
        lemma_keywords();
        if starts(items, "lambda"@) {
            if items.len() >= 3 {
                lemma_formals_bound(items[1], names, bound);
                if let Ok(more) = with_formals(items[1], names) {
                    lemma_are_renamed(form, 2, renaming, more, bound.push(items[1]));
                    if let Ok(body) = renamed_items(form, 2, renaming, more) {
                        assert((seq![items[0], items[1]] + body).skip(2) =~= body);
                    }
                }
            }
            assert(renamed(form, renaming, names) == renamed_lambda(form, renaming, names));
        } else if starts(items, "define"@) {
            lemma_define_renamed(form, renaming, names, bound);
            assert(renamed(form, renaming, names) == renamed_define(form, renaming, names));
        } else if starts_let(items) {
            lemma_let_renamed(form, symbol_of(items[0])->0, renaming, names, bound);
            assert(renamed(form, renaming, names) == renamed_let(form, symbol_of(items[0])->0, renaming, names));
        } else if starts(items, "set!"@) {
            if items.len() == 3 {
                lemma_is_renamed(items[2], renaming, names, bound);
            }
            assert(renamed(form, renaming, names) == renamed_set(form, renaming, names));
        } else if !is_left_alone(items) {
            lemma_are_renamed(form, 0, renaming, names, bound);
            if let Some(tail) = tail {
                lemma_is_renamed(*tail, renaming, names, bound);
            }
            assert(renamed(form, renaming, names) == renamed_list(form, renaming, names));
        }
    }
}

/// Keywords that start forms of their own kind differ.
proof fn lemma_keywords()
    ensures
        "lambda"@ != "define"@ && "lambda"@ != "let"@ && "lambda"@ != "let*"@ && "lambda"@ != "letrec"@ && "lambda"@
            != "letrec*"@ && "lambda"@ != "set!"@,
        "define"@ != "let"@ && "define"@ != "let*"@ && "define"@ != "letrec"@ && "define"@ != "letrec*"@ && "define"@
            != "set!"@,
        "set!"@ != "let"@ && "set!"@ != "let*"@ && "set!"@ != "letrec"@ && "set!"@ != "letrec*"@,
        "quote"@ != "lambda"@ && "quote"@ != "define"@ && "quote"@ != "let"@ && "quote"@ != "let*"@ && "quote"@ != "letrec"@
            && "quote"@ != "letrec*"@ && "quote"@ != "set!"@,
        "import"@ != "lambda"@ && "import"@ != "define"@ && "import"@ != "let"@ && "import"@ != "let*"@ && "import"@
            != "letrec"@ && "import"@ != "letrec*"@ && "import"@ != "set!"@,
        "export"@ != "lambda"@ && "export"@ != "define"@ && "export"@ != "let"@ && "export"@ != "let*"@ && "export"@
            != "letrec"@ && "export"@ != "letrec*"@ && "export"@ != "set!"@,
        "define-library"@ != "lambda"@ && "define-library"@ != "define"@ && "define-library"@ != "let"@ && "define-library"@
            != "let*"@ && "define-library"@ != "letrec"@ && "define-library"@ != "letrec*"@ && "define-library"@ != "set!"@,
        "let"@ != "let*"@ && "let"@ != "letrec"@ && "let"@ != "letrec*"@,
{
    reveal_strlit("lambda");
    reveal_strlit("define");
    reveal_strlit("let");
    reveal_strlit("let*");
    reveal_strlit("letrec");
    reveal_strlit("letrec*");
    reveal_strlit("set!");
    reveal_strlit("quote");
    reveal_strlit("import");
    reveal_strlit("export");
    reveal_strlit("define-library");
    assert("lambda"@[0] == 'l' && "lambda"@[1] == 'a' && "define"@[0] == 'd' && "set!"@[0] == 's' && "quote"@[0] == 'q');
    assert("let"@[0] == 'l' && "let"@[1] == 'e' && "let*"@[0] == 'l' && "let*"@[1] == 'e');
    assert("letrec"@[0] == 'l' && "letrec"@[1] == 'e' && "letrec*"@[0] == 'l' && "letrec*"@[1] == 'e');
    assert("import"@[0] == 'i' && "export"@[0] == 'e' && "define-library"@[0] == 'd');
    assert("define"@.len() == 6 && "define-library"@.len() == 14);
    assert("let"@.len() == 3 && "let*"@.len() == 4 && "letrec"@.len() == 6 && "letrec*"@.len() == 7);
}

proof fn lemma_are_renamed(form: Form, index: nat, renaming: Map<Seq<char>, Seq<char>>, names: Set<Seq<char>>, bound: Seq<Form>)
    requires
        are_bound(names, bound),
    ensures
        renamed_items(form, index, renaming, names) matches Ok(results) ==> are_renamed(
            form,
            index,
            results,
            renaming,
            bound,
        ),
    decreases form, 10nat, list_items(form).len() - index,
{
    let items = list_items(form);
    if index < items.len() {
        lemma_is_renamed(items[index as int], renaming, names, bound);
        lemma_are_renamed(form, index + 1, renaming, names, bound);
        if let Ok(first) = renamed(items[index as int], renaming, names) {
            if let Ok(rest) = renamed_items(form, index + 1, renaming, names) {
                assert((seq![first] + rest).skip(1) =~= rest);
            }
        }
    }
}

proof fn lemma_define_renamed(form: Form, renaming: Map<Seq<char>, Seq<char>>, names: Set<Seq<char>>, bound: Seq<Form>)
    requires
        form.kind is List,
        starts(list_items(form), "define"@),
        are_bound(names, bound),
    ensures
        renamed_define(form, renaming, names) matches Ok(result) ==> is_renamed(form, result, renaming, bound),
    decreases form, 20nat, 0nat,
{
    lemma_keywords();
    let items = list_items(form);
    if items.len() >= 3 {
        match items[1].kind {
            FormKind::Symbol(name) => {
                lemma_are_renamed(form, 2, renaming, names, bound);
                if let Ok(result) = renamed_define(form, renaming, names) {
                    let body = renamed_items(form, 2, renaming, names)->Ok_0;
                    assert(list_items(result).skip(2) =~= body);
                }
            },
            FormKind::List { items: signature, tail } => {
                if signature.len() > 0 {
                    let context = "procedure parameter"@;
                    let rest_context = "procedure rest parameter"@;
                    lemma_parameters_bound(items[1], 1, context, rest_context, names, bound);
                    if let Ok(more) = with_parameters(items[1], 1, context, rest_context, names) {
                        lemma_are_renamed(
                            form,
                            2,
                            renaming,
                            more,
                            bound.push(dotted_form(signature.skip(1), tail, items[1].span)),
                        );
                        if let Ok(result) = renamed_define(form, renaming, names) {
                            let body = renamed_items(form, 2, renaming, more)->Ok_0;
                            assert(list_items(result).skip(2) =~= body);
                            let target = list_items(list_items(result)[1]);
                            assert(target.skip(1) =~= signature.skip(1));
                        }
                    }
                }
            },
            _ => {},
        }
    }
}

proof fn lemma_let_renamed(
    form: Form,
    keyword: Seq<char>,
    renaming: Map<Seq<char>, Seq<char>>,
    names: Set<Seq<char>>,
    bound: Seq<Form>,
)
    requires
        form.kind is List,
        starts(list_items(form), keyword),
        starts_let(list_items(form)),
        are_bound(names, bound),
    ensures
        renamed_let(form, keyword, renaming, names) matches Ok(result) ==> is_renamed(form, result, renaming, bound),
    decreases form, 20nat, 0nat,
{
    lemma_keywords();
    let items = list_items(form);
    if items.len() >= 3 && proper_items(items[1]) is Some {
        let none = list_form(list_items(items[1]).subrange(0, 0), items[1].span);
        assert(forall|name: Seq<char>| !binds(none, name));
        lemma_bound_pushed(names, names, bound, none);
        lemma_bindings_renamed(items[1], 0, keyword, renaming, names, names, bound);
        if let Ok((bindings, more)) = renamed_bindings(items[1], 0, keyword, renaming, names, names) {
            lemma_are_renamed(form, 2, renaming, more, bound.push(items[1]));
            if let Ok(result) = renamed_let(form, keyword, renaming, names) {
                let body = renamed_items(form, 2, renaming, more)->Ok_0;
                assert(list_items(result).skip(2) =~= body);
            }
        }
    }
}

proof fn lemma_bindings_renamed(
    bindings: Form,
    index: nat,
    keyword: Seq<char>,
    renaming: Map<Seq<char>, Seq<char>>,
    names: Set<Seq<char>>,
    body_names: Set<Seq<char>>,
    bound: Seq<Form>,
)
    requires
        proper_items(bindings) is Some,
        index <= list_items(bindings).len(),
        are_bound(names, bound),
        are_bound(
            body_names,
            bound.push(list_form(list_items(bindings).subrange(0, index as int), bindings.span)),
        ),
        forall|i: int| 0 <= i < index ==> bound_name(#[trigger] list_items(bindings)[i]) is Some,
    ensures
        renamed_bindings(bindings, index, keyword, renaming, names, body_names) matches Ok((results, more)) ==> {
            &&& are_renamed_bindings(bindings, index, keyword, results, renaming, bound)
            &&& are_bound(more, bound.push(bindings))
            &&& forall|i: int|
                0 <= i < list_items(bindings).len() ==> bound_name(#[trigger] list_items(bindings)[i]) is Some
        },
    decreases bindings, 15nat, list_items(bindings).len() - index,
{
    let items = list_items(bindings);
    let before = list_form(items.subrange(0, index as int), bindings.span);
    if index >= items.len() {
        assert(items.subrange(0, index as int) =~= items);
    } else if let FormKind::List { items: parts, tail: None } = items[index as int].kind {
        if parts.len() == 2 {
            if let Some(name) = symbol_of(parts[0]) {
                let after = list_form(items.subrange(0, index as int + 1), bindings.span);
                let more = body_names.insert(name);
                lemma_one_more_bound(bindings, index, name, names, body_names, bound);
                lemma_bindings_renamed(bindings, index + 1, keyword, renaming, names, more, bound);
                let inits = init_bound(keyword, items, names, body_names);
                let around = value_bound(bindings, index, keyword, bound);
                if let Ok((rest, last)) = renamed_bindings(bindings, index + 1, keyword, renaming, names, more) {
                    assert(are_bound(inits, around)) by {
                        reveal(init_bound);
                        if keyword != "let*"@ && (keyword == "letrec"@ || keyword == "letrec*"@) {
                            lemma_all_bound(bindings, index, names, body_names, bound);
                        }
                    }
                    lemma_is_renamed(parts[1], renaming, inits, around);
                    if let Ok(init) = renamed(parts[1], renaming, inits) {
                        let one = list_form(seq![parts[0], init], items[index as int].span);
                        assert((seq![one] + rest).skip(1) =~= rest);
                    }
                }
            }
        }
    }
}

proof fn lemma_one_more_bound(
    bindings: Form,
    index: nat,
    name: Seq<char>,
    names: Set<Seq<char>>,
    body_names: Set<Seq<char>>,
    bound: Seq<Form>,
)
    requires
        index < list_items(bindings).len(),
        bound_name(list_items(bindings)[index as int]) == Some(name),
        are_bound(names, bound),
        are_bound(
            body_names,
            bound.push(list_form(list_items(bindings).subrange(0, index as int), bindings.span)),
        ),
    ensures
        are_bound(
            body_names.insert(name),
            bound.push(list_form(list_items(bindings).subrange(0, index as int + 1), bindings.span)),
        ),
{
    let items = list_items(bindings);
    let before = list_form(items.subrange(0, index as int), bindings.span);
    let after = list_form(items.subrange(0, index as int + 1), bindings.span);
    let more = body_names.insert(name);
    assert forall|other: Seq<char>| #[trigger] more.contains(other) <==> names.contains(other) || binds(after, other) by {
        assert(body_names.contains(other) <==> is_bound(bound.push(before), other));
        lemma_pushed(bound, before, other);
        let held = list_items(before);
        let all = list_items(after);
        if binds(before, other) {
            let i = choose|i: int|
                0 <= i < held.len() && (symbol_of(#[trigger] held[i]) == Some(other) || starts(list_items(held[i]), other));
            assert(all[i] == held[i]);
        }
        if binds(after, other) {
            let i = choose|i: int|
                0 <= i < all.len() && (symbol_of(#[trigger] all[i]) == Some(other) || starts(list_items(all[i]), other));
            if i < index {
                assert(held[i] == all[i]);
            } else {
                assert(all[i] == items[index as int]);
            }
        }
        assert(all[index as int] == items[index as int]);
        assert(starts(list_items(all[index as int]), name));
    }
    lemma_bound_pushed(names, more, bound, after);
}

proof fn lemma_pushed(bound: Seq<Form>, binders: Form, name: Seq<char>)
    ensures
        is_bound(bound.push(binders), name) <==> is_bound(bound, name) || binds(binders, name),
{
    let all = bound.push(binders);
    if is_bound(bound, name) {
        let i = choose|i: int| 0 <= i < bound.len() && #[trigger] binds(bound[i], name);
        assert(binds(all[i], name));
    }
    if binds(binders, name) {
        assert(binds(all[bound.len() as int], name));
    }
    if is_bound(all, name) {
        let i = choose|i: int| 0 <= i < all.len() && #[trigger] binds(all[i], name);
        if i < bound.len() {
            assert(binds(bound[i], name));
        }
    }
}

/// All bindings of a list together bind what the first and all of them bind.
proof fn lemma_all_bound(bindings: Form, index: nat, names: Set<Seq<char>>, body_names: Set<Seq<char>>, bound: Seq<Form>)
    requires
        proper_items(bindings) is Some,
        index <= list_items(bindings).len(),
        are_bound(names, bound),
        are_bound(
            body_names,
            bound.push(list_form(list_items(bindings).subrange(0, index as int), bindings.span)),
        ),
        forall|i: int| 0 <= i < list_items(bindings).len() ==> bound_name(#[trigger] list_items(bindings)[i]) is Some,
    ensures
        are_bound(body_names + bound_names(list_items(bindings)), bound.push(bindings)),
{
    let items = list_items(bindings);
    let before = list_form(items.subrange(0, index as int), bindings.span);
    let more = body_names + bound_names(items);
    assert forall|other: Seq<char>| #[trigger] more.contains(other) <==> names.contains(other) || binds(bindings, other) by {
        assert(more.contains(other) <==> body_names.contains(other) || bound_names(items).contains(other));
        assert(body_names.contains(other) <==> is_bound(bound.push(before), other));
        lemma_pushed(bound, before, other);
        let held = list_items(before);
        if binds(before, other) {
            let i = choose|i: int|
                0 <= i < held.len() && (symbol_of(#[trigger] held[i]) == Some(other) || starts(list_items(held[i]), other));
            assert(items[i] == held[i]);
        }
        if bound_names(items).contains(other) {
            let i = choose|i: int| 0 <= i < items.len() && bound_name(#[trigger] items[i]) == Some(other);
            assert(starts(list_items(items[i]), other));
        }
        if binds(bindings, other) {
            let i = choose|i: int|
                0 <= i < items.len() && (symbol_of(#[trigger] items[i]) == Some(other) || starts(list_items(items[i]), other));
            assert(bound_name(items[i]) is Some);
            assert(bound_name(items[i]) == Some(other));
        }
    }
    lemma_bound_pushed(names, more, bound, bindings);
}

/// Renaming gives a name its new name wherever the form itself does not bind it, keeps the names that it
/// binds, and keeps the shape of the form.
pub proof fn lemma_renamed(form: Form, renaming: Map<Seq<char>, Seq<char>>)
    ensures
        renamed(form, renaming, Set::empty()) matches Ok(result) ==> is_renamed(form, result, renaming, Seq::empty()),
{
    lemma_is_renamed(form, renaming, Set::empty(), Seq::empty());
}

} // verus!
