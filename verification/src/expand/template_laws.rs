//! What filling a template in does: it puts what the pattern variables stand for in their places,
//! at every depth and under quotes, and leaves the rest as it is but for the names that it binds.
use crate::expand::forms::{dotted_form, list_form, list_items, list_tail, proper_items, symbol_of};
use crate::expand::matching::{counted_in_items, counted_repeats, repeats_of, Bindings};
use crate::expand::template::{
    fill, fill_binder, fill_bindings, fill_define, fill_each, fill_formals, fill_items, fill_lambda, fill_let,
    fill_list, fill_params, fill_plain, fill_repeats, fill_symbol, Filling, Renames,
};
use crate::frontend::ast::{Form, FormKind};
use vstd::prelude::*;

verus! {

broadcast use vstd::seq_lib::group_seq_properties;

/// Whether a name occurs in a form.
pub open spec fn occurs(name: Seq<char>, form: Form) -> bool
    decreases form, 0nat,
{
    match form.kind {
        FormKind::Symbol(other) => name == other,
        FormKind::Quote(inner) => occurs(name, *inner),
        FormKind::List { items, tail } => occurs_among(name, items, items.len()) || (tail matches Some(tail) && occurs(
            name,
            *tail,
        )),
        _ => false,
    }
}

/// Whether a name occurs in one of the first forms of a row.
pub open spec fn occurs_among(name: Seq<char>, items: Seq<Form>, end: nat) -> bool
    decreases items, end,
{
    0 < end <= items.len() && (occurs(name, items[end - 1]) || occurs_among(name, items, (end - 1) as nat))
}

/// Whether an item of a template comes as many times as the variables under an ellipsis that occur
/// in it have forms.
pub open spec fn is_row_length(item: Form, env: Bindings, count: nat) -> bool {
    &&& exists|name: Seq<char>| #[trigger] occurs(name, item) && env.repeats.contains_key(name)
    &&& forall|name: Seq<char>| #[trigger]
        occurs(name, item) && env.repeats.contains_key(name) ==> env.repeats[name].len() == count
}

/// Whether an ellipsis stands behind an item.
pub open spec fn is_before_ellipsis(items: Seq<Form>, index: int) -> bool {
    index + 1 < items.len() && symbol_of(items[index + 1]) == Some("..."@)
}

/// Whether a form is a symbol that starts a form of its own kind.
pub open spec fn starts(items: Seq<Form>, keyword: Seq<char>) -> bool {
    items.len() > 0 && symbol_of(items[0]) == Some(keyword)
}

/// Whether a list starts with `let` or one of its relatives.
pub open spec fn starts_let(items: Seq<Form>) -> bool {
    starts(items, "let"@) || starts(items, "let*"@) || starts(items, "letrec"@) || starts(items, "letrec*"@)
}

/// Whether a parameter list or a list of bindings binds a name.
pub open spec fn binds(binders: Form, name: Seq<char>) -> bool {
    ||| symbol_of(binders) == Some(name)
    ||| (exists|i: int|
        0 <= i < list_items(binders).len() && (symbol_of(#[trigger] list_items(binders)[i]) == Some(name) || starts(
            list_items(list_items(binders)[i]),
            name,
        )))
    ||| list_tail(binders) matches Some(tail) && symbol_of(*tail) == Some(name)
}

/// Whether one of the forms that bind names around a place binds a name.
pub open spec fn is_bound(bound: Seq<Form>, name: Seq<char>) -> bool {
    exists|i: int| 0 <= i < bound.len() && #[trigger] binds(bound[i], name)
}

/// Whether each form is a symbol.
pub open spec fn are_symbols(forms: Seq<Form>) -> bool {
    forall|i: int| 0 <= i < forms.len() ==> (#[trigger] forms[i]).kind is Symbol
}

/// Whether a parameter list has as many parameters as the one of the template.
pub open spec fn fits_formals(formals: Form, filled: Form) -> bool {
    match formals.kind {
        FormKind::Symbol(_) => filled.kind is Symbol,
        FormKind::List { items, tail } => {
            &&& filled.span == formals.span
            &&& filled.kind is List
            &&& are_symbols(list_items(filled))
            &&& list_items(filled).len() == items.len()
            &&& match tail {
                Some(_) => list_tail(filled) matches Some(rest) && rest.kind is Symbol,
                None => list_tail(filled) is None,
            }
        },
        _ => false,
    }
}

/// Whether a form is a template with its variables replaced, where `bound` holds what binds names
/// around it. A variable under an ellipsis stands for its form of the repetition, another variable
/// for its form. A name that the template binds becomes a symbol. A name that the place of the
/// definition knows becomes the name there. All else stays.
pub open spec fn fits(template: Form, filled: Form, filling: Filling, bound: Seq<Form>) -> bool
    decreases template, 30nat, 0nat,
{
    match template.kind {
        FormKind::Symbol(name) => if filling.repetition is Some && filling.env.repeats.contains_key(name) {
            filling.repetition->0 < filling.env.repeats[name].len() && filled
                == filling.env.repeats[name][filling.repetition->0 as int]
        } else if filling.env.singles.contains_key(name) {
            filled == filling.env.singles[name]
        } else if is_bound(bound, name) {
            filled.kind is Symbol && filled.span == template.span
        } else if filling.values.contains_key(name) {
            filled == (Form { kind: FormKind::Symbol(filling.values[name]), span: template.span })
        } else {
            filled == template
        },
        FormKind::Quote(inner) => {
            &&& filled.span == template.span
            &&& filled.kind matches FormKind::Quote(quoted)
            &&& fits(*inner, *quoted, filling, bound)
        },
        FormKind::List { items, tail } => if starts(items, "lambda"@) {
            if items.len() < 3 {
                filled == template
            } else {
                let parts = list_items(filled);
                &&& filled.span == template.span
                &&& filled.kind is List && list_tail(filled) == tail
                &&& parts.len() >= 2 && parts[0] == items[0]
                &&& fits_formals(items[1], parts[1])
                &&& fits_each(template, 2, parts.skip(2), filling, bound.push(items[1]))
            }
        } else if starts_let(items) {
            if items.len() < 3 || proper_items(items[1]) is None || !are_bindings(items[1]) {
                filled == template
            } else {
                let parts = list_items(filled);
                &&& filled.span == template.span
                &&& filled.kind is List && list_tail(filled) is None
                &&& parts.len() >= 2 && parts[0] == items[0]
                &&& parts[1].span == items[1].span && proper_items(parts[1]) is Some
                &&& fits_bindings(
                    items[1],
                    0,
                    list_items(parts[1]),
                    filling,
                    if starts(items, "let"@) {
                        bound
                    } else {
                        bound.push(items[1])
                    },
                )
                &&& fits_each(template, 2, parts.skip(2), filling, bound.push(items[1]))
            }
        } else if starts(items, "set!"@) {
            if items.len() != 3 {
                filled == template
            } else {
                let parts = list_items(filled);
                &&& filled.span == template.span
                &&& filled.kind is List && list_tail(filled) is None
                &&& parts.len() == 3 && parts[0] == items[0]
                &&& fits(items[1], parts[1], filling, bound)
                &&& fits(items[2], parts[2], filling, bound)
            }
        } else if starts(items, "define"@) {
            if items.len() < 3 || !(items[1].kind is Symbol || list_items(items[1]).len() > 0) {
                filled == template
            } else {
                let parts = list_items(filled);
                &&& filled.span == template.span
                &&& filled.kind is List && list_tail(filled) is None
                &&& parts.len() >= 2 && parts[0] == items[0]
                &&& fits_formals(items[1], parts[1])
                &&& fits_each(
                    template,
                    2,
                    parts.skip(2),
                    filling,
                    if items[1].kind is Symbol {
                        bound
                    } else {
                        bound.push(items[1])
                    },
                )
            }
        } else {
            &&& filled.span == template.span
            &&& filled.kind is List
            &&& fits_items(template, 0, list_items(filled), filling, bound)
            &&& match tail {
                Some(tail) => list_tail(filled) matches Some(rest) && fits(*tail, *rest, filling, bound),
                None => list_tail(filled) is None,
            }
        },
        _ => filled == template,
    }
}

/// The same for the items of a list from one on. An item before an ellipsis comes once for each form
/// of its variables, in their order.
pub open spec fn fits_items(template: Form, index: nat, filled: Seq<Form>, filling: Filling, bound: Seq<Form>) -> bool
    decreases template, 10nat, list_items(template).len() - index,
{
    let items = list_items(template);
    if index >= items.len() {
        filled.len() == 0
    } else if is_before_ellipsis(items, index as int) {
        exists|count: nat| #[trigger]
            is_row_length(items[index as int], filling.env, count) && count <= filled.len() && (forall|k: int|
                0 <= k < count ==> fits(
                    items[index as int],
                    #[trigger] filled[k],
                    Filling { repetition: Some(k as nat), ..filling },
                    bound,
                )) && fits_items(template, index + 2, filled.skip(count as int), filling, bound)
    } else {
        filled.len() > 0 && fits(items[index as int], filled[0], filling, bound) && fits_items(
            template,
            index + 1,
            filled.skip(1),
            filling,
            bound,
        )
    }
}

/// The same for the items of a list from one on, each by itself.
pub open spec fn fits_each(template: Form, index: nat, filled: Seq<Form>, filling: Filling, bound: Seq<Form>) -> bool
    decreases template, 10nat, list_items(template).len() - index,
{
    let items = list_items(template);
    if index >= items.len() {
        filled.len() == 0
    } else {
        filled.len() > 0 && fits(items[index as int], filled[0], filling, bound) && fits_each(
            template,
            index + 1,
            filled.skip(1),
            filling,
            bound,
        )
    }
}

/// Whether a form is a list of two items.
pub open spec fn is_binding(form: Form) -> bool {
    proper_items(form) is Some && list_items(form).len() == 2
}

/// Whether each item of a list is a list of two items.
pub open spec fn are_bindings(bindings: Form) -> bool {
    forall|i: int| 0 <= i < list_items(bindings).len() ==> #[trigger] is_binding(list_items(bindings)[i])
}

/// The same for bindings from one on: a symbol, and what the value of the template became.
pub open spec fn fits_bindings(bindings: Form, index: nat, filled: Seq<Form>, filling: Filling, bound: Seq<Form>) -> bool
    decreases bindings, 15nat, list_items(bindings).len() - index,
{
    let items = list_items(bindings);
    if index >= items.len() {
        filled.len() == 0
    } else {
        &&& filled.len() > 0
        &&& is_binding(filled[0]) && filled[0].span == items[index as int].span
        &&& list_items(filled[0])[0].kind is Symbol
        &&& match items[index as int].kind {
            FormKind::List { items: parts, tail: None } => parts.len() == 2 && fits(
                parts[1],
                list_items(filled[0])[1],
                filling,
                bound,
            ),
            _ => false,
        }
        &&& fits_bindings(bindings, index + 1, filled.skip(1), filling, bound)
    }
}

/// Whether every name that a scope renames is bound around the place.
pub open spec fn is_in_scope(scope: Renames, bound: Seq<Form>) -> bool {
    forall|name: Seq<char>| #[trigger] scope.contains_key(name) ==> is_bound(bound, name)
}

proof fn lemma_bound_more(bound: Seq<Form>, binders: Form)
    ensures
        forall|name: Seq<char>|
            #![trigger is_bound(bound.push(binders), name)]
            (is_bound(bound, name) ==> is_bound(bound.push(binders), name)) && (binds(binders, name) ==> is_bound(
                bound.push(binders),
                name,
            )),
{
    assert forall|name: Seq<char>|
        #![trigger is_bound(bound.push(binders), name)]
        (is_bound(bound, name) ==> is_bound(bound.push(binders), name)) && (binds(binders, name) ==> is_bound(
            bound.push(binders),
            name,
        )) by {
        let more = bound.push(binders);
        if is_bound(bound, name) {
            let i = choose|i: int| 0 <= i < bound.len() && #[trigger] binds(bound[i], name);
            assert(binds(more[i], name));
        }
        if binds(binders, name) {
            assert(binds(more[bound.len() as int], name));
        }
    }
}

proof fn lemma_counted(template: Form, env: Bindings, before: Option<nat>)
    ensures
        counted_repeats(template, env, before) matches Ok(count) ==> (before is Some ==> count == before) && (forall|
            name: Seq<char>,
        | #[trigger]
            occurs(name, template) && env.repeats.contains_key(name) ==> count == Some(env.repeats[name].len())) && (
        count is Some && before is None ==> exists|name: Seq<char>| #[trigger]
            occurs(name, template) && env.repeats.contains_key(name)),
    decreases template, 1nat, 0nat,
{
    match template.kind {
        FormKind::Symbol(name) => {
            assert(occurs(name, template));
        },
        FormKind::Quote(inner) => {
            lemma_counted(*inner, env, before);
            assert(forall|name: Seq<char>|
                #![trigger occurs(name, template)]
                #![trigger occurs(name, *inner)]
                occurs(name, template) == occurs(name, *inner));
        },
        FormKind::List { items, tail } => {
            lemma_counted_items(items, env, before, items.len());
            if let Ok(count) = counted_in_items(items, env, before, items.len()) {
                if let Some(tail) = tail {
                    lemma_counted(*tail, env, count);
                }
                assert(forall|name: Seq<char>| #[trigger]
                    occurs(name, template) == (occurs_among(name, items, items.len()) || (tail matches Some(tail)
                        && occurs(name, *tail))));
                if before is None {
                    if count is Some {
                        let name = choose|name: Seq<char>| #[trigger]
                            occurs_among(name, items, items.len()) && env.repeats.contains_key(name);
                        assert(occurs(name, template));
                    } else if let Some(tail) = tail {
                        if let Ok(Some(_)) = counted_repeats(*tail, env, count) {
                            let name = choose|name: Seq<char>| #[trigger]
                                occurs(name, *tail) && env.repeats.contains_key(name);
                            assert(occurs(name, template));
                        }
                    }
                }
            }
        },
        _ => {},
    }
}

proof fn lemma_counted_items(items: Seq<Form>, env: Bindings, before: Option<nat>, end: nat)
    requires
        end <= items.len(),
    ensures
        counted_in_items(items, env, before, end) matches Ok(count) ==> (before is Some ==> count == before) && (forall|
            name: Seq<char>,
        | #[trigger]
            occurs_among(name, items, end) && env.repeats.contains_key(name) ==> count == Some(
                env.repeats[name].len(),
            )) && (count is Some && before is None ==> exists|name: Seq<char>| #[trigger]
            occurs_among(name, items, end) && env.repeats.contains_key(name)),
    decreases items, 0nat, end,
{
    if end > 0 {
        let less = (end - 1) as nat;
        lemma_counted_items(items, env, before, less);
        assert(forall|name: Seq<char>| #[trigger]
            occurs_among(name, items, end) == (occurs(name, items[end - 1]) || occurs_among(name, items, less)));
        if let Ok(count) = counted_in_items(items, env, before, less) {
            lemma_counted(items[end - 1], env, count);
            if before is None {
                if count is Some {
                    let name = choose|name: Seq<char>| #[trigger]
                        occurs_among(name, items, less) && env.repeats.contains_key(name);
                    assert(occurs_among(name, items, end));
                } else if let Ok(Some(_)) = counted_repeats(items[end - 1], env, count) {
                    let name = choose|name: Seq<char>| #[trigger]
                        occurs(name, items[end - 1]) && env.repeats.contains_key(name);
                    assert(occurs_among(name, items, end));
                }
            }
        }
    }
}

/// What a template is filled in to is the template with its variables replaced.
proof fn lemma_fits(template: Form, filling: Filling, scope: Renames, bound: Seq<Form>, counter: nat)
    requires
        is_in_scope(scope, bound),
    ensures
        fill(template, filling, scope, counter) matches Ok((_, filled)) ==> fits(template, filled, filling, bound),
    decreases template, 30nat, 0nat,
{
    match template.kind {
        FormKind::Symbol(name) => {
            reveal(fill_symbol);
        },
        FormKind::Quote(inner) => {
            lemma_fits(*inner, filling, scope, bound, counter);
        },
        FormKind::List { items, tail } => {
            lemma_list_fits(template, filling, scope, bound, counter);
        },
        _ => {},
    }
}

proof fn lemma_list_fits(template: Form, filling: Filling, scope: Renames, bound: Seq<Form>, counter: nat)
    requires
        template.kind is List,
        is_in_scope(scope, bound),
    ensures
        fill_list(template, filling, scope, counter) matches Ok((_, filled)) ==> fits(template, filled, filling, bound),
    decreases template, 25nat, 0nat,
{
    let items = list_items(template);
    if starts(items, "lambda"@) {
        lemma_lambda_fits(template, filling, scope, bound, counter);
    } else if starts_let(items) {
        lemma_let_fits(template, symbol_of(items[0])->0, filling, scope, bound, counter);
    } else if starts(items, "set!"@) {
        if items.len() == 3 {
            lemma_fits(items[1], filling, scope, bound, counter);
            if let Ok((counter, _)) = fill(items[1], filling, scope, counter) {
                lemma_fits(items[2], filling, scope, bound, counter);
            }
        }
    } else if starts(items, "define"@) {
        lemma_define_fits(template, filling, scope, bound, counter);
    } else {
        lemma_items_fit(template, 0, filling, scope, bound, counter);
        if let Ok((counter, filled)) = fill_items(template, 0, filling, scope, counter) {
            match template.kind {
                FormKind::List { items: _, tail: Some(tail) } => {
                    lemma_fits(*tail, filling, scope, bound, counter);
                },
                _ => {},
            }
        }
    }
}

proof fn lemma_lambda_fits(template: Form, filling: Filling, scope: Renames, bound: Seq<Form>, counter: nat)
    requires
        template.kind is List,
        starts(list_items(template), "lambda"@),
        is_in_scope(scope, bound),
    ensures
        fill_lambda(template, filling, scope, counter) matches Ok((_, filled)) ==> fits(
            template,
            filled,
            filling,
            bound,
        ),
    decreases template, 20nat, 0nat,
{
    let items = list_items(template);
    if items.len() >= 3 {
        lemma_formals_fit(items[1], filling, scope, counter);
        lemma_bound_more(bound, items[1]);
        if let Ok((counter, (formals, body_scope))) = fill_formals(items[1], filling, scope, counter) {
            lemma_each_fit(template, 2, filling, body_scope, bound.push(items[1]), counter);
            if let Ok((_, body)) = fill_each(template, 2, filling, body_scope, counter) {
                assert((seq![items[0], formals] + body).skip(2) =~= body);
            }
        }
    }
}

proof fn lemma_define_fits(template: Form, filling: Filling, scope: Renames, bound: Seq<Form>, counter: nat)
    requires
        template.kind is List,
        starts(list_items(template), "define"@),
        !starts(list_items(template), "lambda"@),
        !starts_let(list_items(template)),
        !starts(list_items(template), "set!"@),
        is_in_scope(scope, bound),
    ensures
        fill_define(template, filling, scope, counter) matches Ok((_, filled)) ==> fits(
            template,
            filled,
            filling,
            bound,
        ),
    decreases template, 20nat, 0nat,
{
    let items = list_items(template);
    if items.len() >= 3 {
        match items[1].kind {
            FormKind::Symbol(name) => {
                if let Ok((counter, (target, renamed))) = fill_binder(items[1], filling, scope, counter) {
                    lemma_each_fit(template, 2, filling, scope, bound, counter);
                    if let Ok((_, body)) = fill_each(template, 2, filling, scope, counter) {
                        assert((seq![items[0], target] + body).skip(2) =~= body);
                    }
                }
            },
            FormKind::List { items: signature, tail } => {
                if signature.len() > 0 {
                    if let Ok((counter, (name, renamed))) = fill_binder(signature[0], filling, scope, counter) {
                        lemma_params_fit(items[1], 1, filling, scope, counter);
                        lemma_bound_more(bound, items[1]);
                        if let Ok((counter, (params, rest, body_scope))) = fill_params(
                            items[1],
                            1,
                            filling,
                            scope,
                            counter,
                        ) {
                            lemma_each_fit(template, 2, filling, body_scope, bound.push(items[1]), counter);
                            if let Ok((_, body)) = fill_each(template, 2, filling, body_scope, counter) {
                                let head = seq![name] + params;
                                let whole = dotted_form(head, rest, items[1].span);
                                assert((seq![items[0], whole] + body).skip(2) =~= body);
                                assert(are_symbols(head)) by {
                                    assert forall|i: int| 0 <= i < head.len() implies (#[trigger] head[i]).kind is Symbol by {
                                        if i > 0 {
                                            assert(head[i] == params[i - 1]);
                                        }
                                    }
                                }
                            }
                        }
                    }
                }
            },
            _ => {},
        }
    }
}

proof fn lemma_let_fits(template: Form, keyword: Seq<char>, filling: Filling, scope: Renames, bound: Seq<Form>, counter: nat)
    requires
        template.kind is List,
        starts(list_items(template), keyword),
        starts_let(list_items(template)),
        !starts(list_items(template), "lambda"@),
        is_in_scope(scope, bound),
    ensures
        fill_let(template, keyword, filling, scope, counter) matches Ok((_, filled)) ==> fits(
            template,
            filled,
            filling,
            bound,
        ),
    decreases template, 20nat, 0nat,
{
    let items = list_items(template);
    if items.len() >= 3 && proper_items(items[1]) is Some {
        lemma_bound_more(bound, items[1]);
        lemma_bindings_fit(items[1], 0, keyword, filling, scope, scope, bound, counter);
        if let Ok((counter, Some((bindings, body_scope)))) = fill_bindings(
            items[1],
            0,
            keyword,
            filling,
            scope,
            scope,
            counter,
        ) {
            lemma_each_fit(template, 2, filling, body_scope, bound.push(items[1]), counter);
            if let Ok((_, body)) = fill_each(template, 2, filling, body_scope, counter) {
                assert((seq![items[0], list_form(bindings, items[1].span)] + body).skip(2) =~= body);
            }
        }
    }
}

proof fn lemma_items_fit(template: Form, index: nat, filling: Filling, scope: Renames, bound: Seq<Form>, counter: nat)
    requires
        is_in_scope(scope, bound),
    ensures
        fill_items(template, index, filling, scope, counter) matches Ok((_, filled)) ==> fits_items(
            template,
            index,
            filled,
            filling,
            bound,
        ),
    decreases template, 10nat, list_items(template).len() - index,
{
    let items = list_items(template);
    if index < items.len() {
        let item = items[index as int];
        if is_before_ellipsis(items, index as int) {
            if let Ok(count) = repeats_of(item, filling.env) {
                assert(is_row_length(item, filling.env, count)) by {
                    reveal(repeats_of);
                    lemma_counted(item, filling.env, None);
                }
                lemma_repeats_fit(item, count, filling, scope, bound, counter);
                if let Ok((counter, forms)) = fill_repeats(item, count, filling, scope, counter) {
                    lemma_items_fit(template, index + 2, filling, scope, bound, counter);
                    if let Ok((_, rest)) = fill_items(template, index + 2, filling, scope, counter) {
                        let all = forms + rest;
                        assert(all.skip(count as int) =~= rest);
                        assert forall|k: int| 0 <= k < count implies fits(
                            item,
                            #[trigger] all[k],
                            Filling { repetition: Some(k as nat), ..filling },
                            bound,
                        ) by {
                            assert(all[k] == forms[k]);
                        }
                    }
                }
            }
        } else {
            lemma_fits(item, filling, scope, bound, counter);
            if let Ok((counter, form)) = fill(item, filling, scope, counter) {
                lemma_items_fit(template, index + 1, filling, scope, bound, counter);
                if let Ok((_, rest)) = fill_items(template, index + 1, filling, scope, counter) {
                    assert((seq![form] + rest).skip(1) =~= rest);
                }
            }
        }
    }
}

proof fn lemma_repeats_fit(template: Form, count: nat, filling: Filling, scope: Renames, bound: Seq<Form>, counter: nat)
    requires
        is_in_scope(scope, bound),
    ensures
        fill_repeats(template, count, filling, scope, counter) matches Ok((_, forms)) ==> forms.len() == count && forall|
            k: int,
        |
            0 <= k < count ==> fits(
                template,
                #[trigger] forms[k],
                Filling { repetition: Some(k as nat), ..filling },
                bound,
            ),
    decreases template, 31nat, count,
{
    if count > 0 {
        lemma_repeats_fit(template, (count - 1) as nat, filling, scope, bound, counter);
        if let Ok((counter, before)) = fill_repeats(template, (count - 1) as nat, filling, scope, counter) {
            let one = Filling { repetition: Some((count - 1) as nat), ..filling };
            lemma_fits(template, one, scope, bound, counter);
        }
    }
}

proof fn lemma_each_fit(template: Form, index: nat, filling: Filling, scope: Renames, bound: Seq<Form>, counter: nat)
    requires
        is_in_scope(scope, bound),
    ensures
        fill_each(template, index, filling, scope, counter) matches Ok((_, filled)) ==> fits_each(
            template,
            index,
            filled,
            filling,
            bound,
        ),
    decreases template, 10nat, list_items(template).len() - index,
{
    let items = list_items(template);
    if index < items.len() {
        lemma_fits(items[index as int], filling, scope, bound, counter);
        if let Ok((counter, form)) = fill(items[index as int], filling, scope, counter) {
            lemma_each_fit(template, index + 1, filling, scope, bound, counter);
            if let Ok((_, rest)) = fill_each(template, index + 1, filling, scope, counter) {
                assert((seq![form] + rest).skip(1) =~= rest);
            }
        }
    }
}

/// The parameters become symbols, and the new names are theirs.
proof fn lemma_formals_fit(formals: Form, filling: Filling, scope: Renames, counter: nat)
    ensures
        fill_formals(formals, filling, scope, counter) matches Ok((_, (filled, body_scope))) ==> fits_formals(
            formals,
            filled,
        ) && forall|name: Seq<char>| #[trigger]
            body_scope.contains_key(name) ==> scope.contains_key(name) || binds(formals, name),
{
    match formals.kind {
        FormKind::List { items, tail } => {
            lemma_params_fit(formals, 0, filling, scope, counter);
        },
        _ => {},
    }
}

proof fn lemma_params_fit(formals: Form, index: nat, filling: Filling, scope: Renames, counter: nat)
    requires
        formals.kind is List,
        index <= list_items(formals).len(),
    ensures
        fill_params(formals, index, filling, scope, counter) matches Ok((_, (params, rest, body_scope))) ==> {
            &&& are_symbols(params)
            &&& params.len() == list_items(formals).len() - index
            &&& (list_tail(formals) is Some ==> (rest matches Some(rest) && rest.kind is Symbol))
            &&& (list_tail(formals) is None ==> rest is None)
            &&& forall|name: Seq<char>| #[trigger]
                body_scope.contains_key(name) ==> scope.contains_key(name) || binds(formals, name)
        },
    decreases list_items(formals).len() - index,
{
    let items = list_items(formals);
    if index >= items.len() {
        if let Some(tail) = list_tail(formals) {
            if let Some(original) = symbol_of(*tail) {
                assert(binds(formals, original));
                if let Ok((_, (binder, renamed))) = fill_binder(*tail, filling, scope, counter) {
                    assert(binder.kind is Symbol);
                }
            }
        }
    } else {
        if let Some(original) = symbol_of(items[index as int]) {
            if let Ok((counter, (binder, renamed))) = fill_binder(items[index as int], filling, scope, counter) {
                let more = scope.insert(original, renamed);
                lemma_params_fit(formals, index + 1, filling, more, counter);
                assert(binds(formals, original));
                if let Ok((_, (params, rest, body_scope))) = fill_params(formals, index + 1, filling, more, counter) {
                    let all = seq![binder] + params;
                    assert forall|i: int| 0 <= i < all.len() implies (#[trigger] all[i]).kind is Symbol by {
                        if i > 0 {
                            assert(all[i] == params[i - 1]);
                        }
                    }
                }
            }
        }
    }
}

/// Bindings become bindings, and the new names are theirs.
proof fn lemma_bindings_fit(
    bindings: Form,
    index: nat,
    keyword: Seq<char>,
    filling: Filling,
    scope: Renames,
    body_scope: Renames,
    bound: Seq<Form>,
    counter: nat,
)
    requires
        bindings.kind is List,
        is_in_scope(scope, bound),
        is_in_scope(body_scope, bound.push(bindings)),
        forall|i: int| 0 <= i < index && i < list_items(bindings).len() ==> #[trigger] is_binding(list_items(bindings)[i]),
    ensures
        fill_bindings(bindings, index, keyword, filling, scope, body_scope, counter) matches Ok((_, found)) ==> match found {
            Some((filled, names)) => {
                &&& are_bindings(bindings)
                &&& fits_bindings(
                    bindings,
                    index,
                    filled,
                    filling,
                    if keyword == "let"@ {
                        bound
                    } else {
                        bound.push(bindings)
                    },
                )
                &&& is_in_scope(names, bound.push(bindings))
            },
            None => !are_bindings(bindings),
        },
    decreases bindings, 15nat, list_items(bindings).len() - index,
{
    let items = list_items(bindings);
    if index < items.len() {
        let inner = if keyword == "let"@ {
            bound
        } else {
            bound.push(bindings)
        };
        let init_scope = if keyword == "let"@ {
            scope
        } else {
            body_scope
        };
        match items[index as int].kind {
            FormKind::List { items: parts, tail: None } => {
                if parts.len() == 2 {
                    assert(is_binding(items[index as int]));
                    if let Ok((counter, (binder, renamed))) = fill_binder(parts[0], filling, body_scope, counter) {
                        lemma_fits(parts[1], filling, init_scope, inner, counter);
                        if let Ok((counter, init)) = fill(parts[1], filling, init_scope, counter) {
                            if let Some(original) = symbol_of(parts[0]) {
                                let more = body_scope.insert(original, renamed);
                                assert(binds(bindings, original)) by {
                                    assert(starts(list_items(items[index as int]), original));
                                }
                                lemma_bound_more(bound, bindings);
                                lemma_bindings_fit(
                                    bindings,
                                    index + 1,
                                    keyword,
                                    filling,
                                    scope,
                                    more,
                                    bound,
                                    counter,
                                );
                                if let Ok((_, Some((rest, names)))) = fill_bindings(
                                    bindings,
                                    index + 1,
                                    keyword,
                                    filling,
                                    scope,
                                    more,
                                    counter,
                                ) {
                                    let one = list_form(seq![binder, init], items[index as int].span);
                                    assert((seq![one] + rest).skip(1) =~= rest);
                                }
                            }
                        }
                    }
                } else {
                    assert(!is_binding(items[index as int]));
                }
            },
            _ => {
                assert(!is_binding(items[index as int]));
            },
        }
    } else {
        assert(are_bindings(bindings));
    }
}

/// Filling a template in replaces the pattern variables wherever they stand, at every depth and
/// under quotes. What is no variable, is not bound by the template and is unknown where the macro was
/// defined stays as it is.
pub proof fn lemma_template_substituted(template: Form, filling: Filling, counter: nat)
    ensures
        fill(template, filling, Map::empty(), counter) matches Ok((_, filled)) ==> fits(
            template,
            filled,
            filling,
            Seq::empty(),
        ),
{
    lemma_fits(template, filling, Map::empty(), Seq::empty(), counter);
}

/// Whether a template holds no form that binds names and no ellipsis.
pub open spec fn is_flat(template: Form) -> bool
    decreases template, 30nat, 0nat,
{
    match template.kind {
        FormKind::Quote(inner) => is_flat(*inner),
        FormKind::List { items, tail } => {
            &&& !starts(items, "lambda"@) && !starts_let(items) && !starts(items, "set!"@) && !starts(items, "define"@)
            &&& is_flat_from(template, 0)
            &&& (tail matches Some(tail) ==> is_flat(*tail))
        },
        _ => true,
    }
}

/// The same for the items of a list from one on.
pub open spec fn is_flat_from(template: Form, index: nat) -> bool
    decreases template, 10nat, list_items(template).len() - index,
{
    index < list_items(template).len() ==> !is_before_ellipsis(list_items(template), index as int) && is_flat(
        list_items(template)[index as int],
    ) && is_flat_from(template, index + 1)
}

/// A form that is a template with its variables replaced one for one has the shape of the template.
pub proof fn lemma_flat_shape(template: Form, index: nat, filled: Seq<Form>, filling: Filling, bound: Seq<Form>)
    requires
        is_flat_from(template, index),
        index <= list_items(template).len(),
        fits_items(template, index, filled, filling, bound),
    ensures
        filled.len() == list_items(template).len() - index,
        forall|i: int|
            index <= i < list_items(template).len() ==> fits(
                #[trigger] list_items(template)[i],
                filled[i - index],
                filling,
                bound,
            ),
    decreases list_items(template).len() - index,
{
    if index < list_items(template).len() {
        lemma_flat_shape(template, index + 1, filled.skip(1), filling, bound);
        assert forall|i: int| index <= i < list_items(template).len() implies fits(
            #[trigger] list_items(template)[i],
            filled[i - index],
            filling,
            bound,
        ) by {
            if i > index {
                assert(filled.skip(1)[i - index - 1] == filled[i - index]);
            }
        }
    }
}

/// A template without ellipses that binds no names can always be filled in, and takes no new name.
pub proof fn lemma_flat_template_filled(template: Form, filling: Filling, counter: nat)
    requires
        is_flat(template),
        filling.repetition is None,
    ensures
        fill(template, filling, Map::empty(), counter) matches Ok((after, filled)) && after == counter && fits(
            template,
            filled,
            filling,
            Seq::empty(),
        ),
{
    lemma_flat_filled(template, filling, counter);
    lemma_template_substituted(template, filling, counter);
}

proof fn lemma_flat_filled(template: Form, filling: Filling, counter: nat)
    requires
        is_flat(template),
        filling.repetition is None,
    ensures
        fill(template, filling, Map::empty(), counter) matches Ok((after, filled)) && after == counter,
    decreases template, 30nat, 0nat,
{
    match template.kind {
        FormKind::Symbol(name) => {
            reveal(fill_symbol);
        },
        FormKind::Quote(inner) => {
            lemma_flat_filled(*inner, filling, counter);
        },
        FormKind::List { items, tail } => {
            lemma_flat_items_filled(template, 0, filling, counter);
            assert(fill_list(template, filling, Map::empty(), counter) == fill_plain(
                template,
                filling,
                Map::empty(),
                counter,
            ));
            if let Some(tail) = tail {
                lemma_flat_filled(*tail, filling, counter);
            }
        },
        _ => {},
    }
}

proof fn lemma_flat_items_filled(template: Form, index: nat, filling: Filling, counter: nat)
    requires
        is_flat_from(template, index),
        filling.repetition is None,
    ensures
        fill_items(template, index, filling, Map::empty(), counter) matches Ok((after, filled)) && after == counter,
    decreases template, 10nat, list_items(template).len() - index,
{
    if index < list_items(template).len() {
        lemma_flat_filled(list_items(template)[index as int], filling, counter);
        lemma_flat_items_filled(template, index + 1, filling, counter);
    }
}

} // verus!
