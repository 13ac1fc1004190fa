//! What holds of expansion as a whole.
use crate::expand::expressions::{
    expanded, expanded_bindings, expanded_define, expanded_items, expanded_lambda, expanded_let, expanded_list,
    macro_call, Macros,
};
use crate::expand::forms::{list_form, list_items, proper_items, symbol_form, symbol_of};
use crate::expand::matching::{has_ellipsis, no_bindings, match_form, repeats_of};
use crate::expand::declarations::Transformer;
use crate::expand::outcome::{fresh_name, Growth, Stop};
use crate::expand::template::{
    fill, fill_binder, fill_bindings, fill_define, fill_each, fill_formals, fill_items, fill_list,
    fill_params, fill_repeats, fill_symbol, is_let_keyword, Filling, Renames,
};
use crate::frontend::ast::{Form, FormKind};
use crate::text::{decimal_text, digit_char};
use vstd::prelude::*;

verus! {

broadcast use vstd::seq_lib::group_seq_properties;

/// Whether at least `counter` new names have been given out in the end.
pub open spec fn no_fewer<T>(counter: nat, growth: Growth<T>) -> bool {
    match growth {
        Ok((after, value)) => counter <= after,
        Err(_) => true,
    }
}

/// Whether macros expanded to macros too often, or there were no new names left.
pub open spec fn is_exhausted<T>(growth: Growth<T>) -> bool {
    growth == Err::<(nat, T), Stop>(Stop::Exhausted)
}

/// The digits of a number are digits, and there is at least one.
proof fn lemma_decimal_digits(number: nat)
    ensures
        decimal_text(number).len() > 0,
        forall|i: int| 0 <= i < decimal_text(number).len() ==> '0' <= #[trigger] decimal_text(number)[i] <= '9',
    decreases number,
{
    if number >= 10 {
        lemma_decimal_digits(number / 10);
    }
}

/// Different numbers have different digits.
proof fn lemma_decimal_differs(left: nat, right: nat)
    requires
        decimal_text(left) == decimal_text(right),
    ensures
        left == right,
    decreases left,
{
    lemma_decimal_digits(left);
    lemma_decimal_digits(right);
    if left >= 10 && right >= 10 {
        lemma_decimal_digits(left / 10);
        lemma_decimal_digits(right / 10);
        assert(decimal_text(left).drop_last() =~= decimal_text(left / 10));
        assert(decimal_text(right).drop_last() =~= decimal_text(right / 10));
        assert(decimal_text(left).last() == digit_char(left % 10));
        assert(decimal_text(right).last() == digit_char(right % 10));
        lemma_decimal_differs(left / 10, right / 10);
    } else if left >= 10 {
        lemma_decimal_digits(left / 10);
        assert(decimal_text(left).len() >= 2);
        assert(decimal_text(right).len() == 1);
    } else if right >= 10 {
        lemma_decimal_digits(right / 10);
        assert(decimal_text(right).len() >= 2);
        assert(decimal_text(left).len() == 1);
    } else {
        assert(decimal_text(left)[0] == digit_char(left));
        assert(decimal_text(right)[0] == digit_char(right));
    }
}

/// New names are new: the names that belong to two different numbers are different, whatever
/// they were made from.
pub proof fn lemma_fresh_names_differ(
    prefix: Seq<char>,
    base: Seq<char>,
    counter: nat,
    other_prefix: Seq<char>,
    other_base: Seq<char>,
    other_counter: nat,
)
    requires
        counter != other_counter,
    ensures
        match (fresh_name(prefix, base, counter), fresh_name(other_prefix, other_base, other_counter)) {
            (Ok((after, name)), Ok((other_after, other_name))) => name != other_name,
            _ => true,
        },
{
    reveal(fresh_name);
    reveal_strlit("_");
    let name = prefix + base + "_"@ + decimal_text(counter);
    let other = other_prefix + other_base + "_"@ + decimal_text(other_counter);
    let digits = decimal_text(counter);
    let other_digits = decimal_text(other_counter);
    lemma_decimal_digits(counter);
    lemma_decimal_digits(other_counter);
    if name == other {
        assert(name[name.len() - digits.len() - 1] == '_');
        assert(other[other.len() - other_digits.len() - 1] == '_');
        if digits.len() < other_digits.len() {
            let place = name.len() - digits.len() - 1;
            assert(other[place] == other_digits[place - (other.len() - other_digits.len())]);
        } else if digits.len() > other_digits.len() {
            let place = other.len() - other_digits.len() - 1;
            assert(name[place] == digits[place - (name.len() - digits.len())]);
        }
        assert(digits =~= name.subrange(name.len() - digits.len(), name.len() as int));
        assert(other_digits =~= other.subrange(other.len() - other_digits.len(), other.len() as int));
        lemma_decimal_differs(counter, other_counter);
    }
}

/// What stands for a pattern variable comes into a template as it is: none of its names is
/// replaced.
pub proof fn lemma_pattern_variable_kept(template: Form, name: Seq<char>, filling: Filling, scope: Renames, counter: nat)
    requires
        template.kind == FormKind::Symbol(name),
        filling.repetition is None || !filling.env.repeats.contains_key(name),
        filling.env.singles.contains_key(name),
    ensures
        fill(template, filling, scope, counter) == Ok::<(nat, Form), Stop>((counter, filling.env.singles[name])),
{
    reveal(fill_symbol);
}

/// A name that a template binds by itself is replaced by a new one, which refers to the binding
/// wherever the name occurs in its scope.
pub proof fn lemma_introduced_binder_renamed(binder: Form, name: Seq<char>, filling: Filling, scope: Renames, counter: nat)
    requires
        binder.kind == FormKind::Symbol(name),
        counter < usize::MAX,
        !filling.env.singles.contains_key(name),
        !filling.env.repeats.contains_key(name),
        !scope.contains_key(name),
        !filling.values.contains_key(name),
    ensures
        ({
            let fresh = "__macro_"@ + name + "_"@ + decimal_text(counter);
            &&& fill_binder(binder, filling, scope, counter) == Ok::<(nat, (Form, Seq<char>)), Stop>(
                (counter + 1, (symbol_form(fresh, binder.span), fresh)),
            )
            &&& forall|later: nat|
                #[trigger] fill(binder, filling, scope.insert(name, fresh), later) == Ok::<(nat, Form), Stop>(
                    (later, symbol_form(fresh, binder.span)),
                )
        }),
{
    reveal(fill_symbol);
    reveal(fresh_name);
}

/// A name that a template refers to, and that neither the pattern nor the template binds, means
/// what it meant where the macro was defined.
pub proof fn lemma_definition_site_reference(template: Form, name: Seq<char>, filling: Filling, scope: Renames, counter: nat)
    requires
        template.kind == FormKind::Symbol(name),
        !filling.env.singles.contains_key(name),
        !filling.env.repeats.contains_key(name),
        !scope.contains_key(name),
        filling.values.contains_key(name),
    ensures
        fill(template, filling, scope, counter) == Ok::<(nat, Form), Stop>(
            (counter, symbol_form(filling.values[name], template.span)),
        ),
{
    reveal(fill_symbol);
}

/// No new name is given out twice while a template is filled in.
pub proof fn lemma_fill_counts(template: Form, filling: Filling, scope: Renames, counter: nat)
    ensures
        no_fewer(counter, fill(template, filling, scope, counter)),
    decreases template, 30nat, 0nat,
{
    match template.kind {
        FormKind::List { items, tail } => {
            lemma_fill_list_counts(template, filling, scope, counter);
        },
        FormKind::Quote(inner) => {
            lemma_fill_counts(*inner, filling, scope, counter);
        },
        _ => {},
    }
}

proof fn lemma_fill_list_counts(template: Form, filling: Filling, scope: Renames, counter: nat)
    ensures
        no_fewer(counter, fill_list(template, filling, scope, counter)),
    decreases template, 25nat, 0nat,
{
    let items = list_items(template);
    let keyword = if items.len() > 0 { symbol_of(items[0]) } else { None };
    if keyword == Some("lambda"@) {
        if items.len() >= 3 {
            lemma_fill_formals_counts(items[1], filling, scope, counter);
            if let Ok((counter, (formals, body_scope))) = fill_formals(items[1], filling, scope, counter) {
                lemma_fill_each_counts(template, 2, filling, body_scope, counter);
            }
        }
    } else if keyword is Some && is_let_keyword(keyword->0) {
        if items.len() >= 3 {
            lemma_fill_bindings_counts(items[1], 0, keyword->0, filling, scope, scope, counter);
            if let Ok((counter, Some((bindings, body_scope)))) = fill_bindings(
                items[1],
                0,
                keyword->0,
                filling,
                scope,
                scope,
                counter,
            ) {
                lemma_fill_each_counts(template, 2, filling, body_scope, counter);
            }
        }
    } else if keyword == Some("set!"@) {
        if items.len() == 3 {
            lemma_fill_counts(items[1], filling, scope, counter);
            if let Ok((counter, target)) = fill(items[1], filling, scope, counter) {
                lemma_fill_counts(items[2], filling, scope, counter);
            }
        }
    } else if keyword == Some("define"@) {
        lemma_fill_define_counts(template, filling, scope, counter);
    } else {
        lemma_fill_items_counts(template, 0, filling, scope, counter);
        if let Ok((counter, row)) = fill_items(template, 0, filling, scope, counter) {
            if let FormKind::List { items: _, tail: Some(tail) } = template.kind {
                lemma_fill_counts(*tail, filling, scope, counter);
            }
        }
    }
}

proof fn lemma_fill_define_counts(template: Form, filling: Filling, scope: Renames, counter: nat)
    ensures
        no_fewer(counter, fill_define(template, filling, scope, counter)),
    decreases template, 20nat, 0nat,
{
    let items = list_items(template);
    if items.len() >= 3 {
        match items[1].kind {
            FormKind::Symbol(name) => {
                lemma_fill_binder_counts(items[1], filling, scope, counter);
                if let Ok((counter, (target, renamed))) = fill_binder(items[1], filling, scope, counter) {
                    lemma_fill_each_counts(template, 2, filling, scope, counter);
                }
            },
            FormKind::List { items: signature, tail } => {
                if signature.len() > 0 {
                    lemma_fill_binder_counts(signature[0], filling, scope, counter);
                    if let Ok((counter, (name, renamed))) = fill_binder(signature[0], filling, scope, counter) {
                        lemma_fill_params_counts(items[1], 1, filling, scope, counter);
                        if let Ok((counter, (params, rest, body_scope))) = fill_params(
                            items[1],
                            1,
                            filling,
                            scope,
                            counter,
                        ) {
                            lemma_fill_each_counts(template, 2, filling, body_scope, counter);
                        }
                    }
                }
            },
            _ => {},
        }
    }
}

proof fn lemma_fill_items_counts(template: Form, index: nat, filling: Filling, scope: Renames, counter: nat)
    ensures
        no_fewer(counter, fill_items(template, index, filling, scope, counter)),
    decreases template, 10nat, list_items(template).len() - index,
{
    let items = list_items(template);
    if index < items.len() {
        if has_ellipsis(items, index as int) {
            if let Ok(count) = repeats_of(items[index as int], filling.env) {
                lemma_fill_repeats_counts(items[index as int], count, filling, scope, counter);
                if let Ok((counter, forms)) = fill_repeats(items[index as int], count, filling, scope, counter) {
                    lemma_fill_items_counts(template, index + 2, filling, scope, counter);
                }
            }
        } else {
            lemma_fill_counts(items[index as int], filling, scope, counter);
            if let Ok((counter, form)) = fill(items[index as int], filling, scope, counter) {
                lemma_fill_items_counts(template, index + 1, filling, scope, counter);
            }
        }
    }
}

proof fn lemma_fill_repeats_counts(template: Form, count: nat, filling: Filling, scope: Renames, counter: nat)
    ensures
        no_fewer(counter, fill_repeats(template, count, filling, scope, counter)),
    decreases template, 31nat, count,
{
    if count > 0 {
        lemma_fill_repeats_counts(template, (count - 1) as nat, filling, scope, counter);
        if let Ok((counter, before)) = fill_repeats(template, (count - 1) as nat, filling, scope, counter) {
            lemma_fill_counts(
                template,
                Filling { repetition: Some((count - 1) as nat), ..filling },
                scope,
                counter,
            );
        }
    }
}

proof fn lemma_fill_each_counts(template: Form, index: nat, filling: Filling, scope: Renames, counter: nat)
    ensures
        no_fewer(counter, fill_each(template, index, filling, scope, counter)),
    decreases template, 10nat, list_items(template).len() - index,
{
    let items = list_items(template);
    if index < items.len() {
        lemma_fill_counts(items[index as int], filling, scope, counter);
        if let Ok((counter, form)) = fill(items[index as int], filling, scope, counter) {
            lemma_fill_each_counts(template, index + 1, filling, scope, counter);
        }
    }
}

proof fn lemma_fill_binder_counts(binder: Form, filling: Filling, scope: Renames, counter: nat)
    ensures
        no_fewer(counter, fill_binder(binder, filling, scope, counter)),
    decreases binder, 40nat, 0nat,
{
    reveal(fresh_name);
    lemma_fill_counts(binder, filling, scope, counter);
}

proof fn lemma_fill_formals_counts(formals: Form, filling: Filling, scope: Renames, counter: nat)
    ensures
        no_fewer(counter, fill_formals(formals, filling, scope, counter)),
    decreases formals, 50nat, 0nat,
{
    match formals.kind {
        FormKind::Symbol(name) => {
            lemma_fill_binder_counts(formals, filling, scope, counter);
        },
        FormKind::List { items, tail } => {
            lemma_fill_params_counts(formals, 0, filling, scope, counter);
        },
        _ => {},
    }
}

proof fn lemma_fill_params_counts(formals: Form, index: nat, filling: Filling, scope: Renames, counter: nat)
    ensures
        no_fewer(counter, fill_params(formals, index, filling, scope, counter)),
    decreases formals, 15nat, list_items(formals).len() - index,
{
    let items = list_items(formals);
    if index >= items.len() {
        if let FormKind::List { items: _, tail: Some(tail) } = formals.kind {
            lemma_fill_binder_counts(*tail, filling, scope, counter);
        }
    } else {
        lemma_fill_binder_counts(items[index as int], filling, scope, counter);
        if let Some(original) = symbol_of(items[index as int]) {
            if let Ok((counter, (binder, renamed))) = fill_binder(
                items[index as int],
                filling,
                scope,
                counter,
            ) {
                lemma_fill_params_counts(formals, index + 1, filling, scope.insert(original, renamed), counter);
            }
        }
    }
}

proof fn lemma_fill_bindings_counts(
    bindings: Form,
    index: nat,
    keyword: Seq<char>,
    filling: Filling,
    scope: Renames,
    body_scope: Renames,
    counter: nat,
)
    ensures
        no_fewer(counter, fill_bindings(bindings, index, keyword, filling, scope, body_scope, counter)),
    decreases bindings, 15nat, list_items(bindings).len() - index,
{
    let items = list_items(bindings);
    if index < items.len() {
        if let FormKind::List { items: parts, tail: None } = items[index as int].kind {
            if parts.len() == 2 {
                lemma_fill_binder_counts(parts[0], filling, body_scope, counter);
                if let Ok((counter, (binder, renamed))) = fill_binder(parts[0], filling, body_scope, counter) {
                    let init_scope = if keyword == "let"@ { scope } else { body_scope };
                    lemma_fill_counts(parts[1], filling, init_scope, counter);
                    if let Ok((counter, init)) = fill(parts[1], filling, init_scope, counter) {
                        if let Some(original) = symbol_of(parts[0]) {
                            lemma_fill_bindings_counts(
                                bindings,
                                index + 1,
                                keyword,
                                filling,
                                scope,
                                body_scope.insert(original, renamed),
                                counter,
                            );
                        }
                    }
                }
            }
        }
    }
}

proof fn lemma_macro_call_counts(rules: Transformer, form: Form, index: nat, counter: nat)
    ensures
        no_fewer(counter, macro_call(rules, form, index, counter)),
    decreases rules.rules.len() - index,
{
    if index < rules.rules.len() {
        match match_form(rules.rules[index as int].0, form, rules.literals, no_bindings(), false) {
            Some(env) => {
                lemma_fill_counts(
                    rules.rules[index as int].1,
                    Filling { values: rules.values, env, repetition: None },
                    Map::empty(),
                    counter,
                );
            },
            None => {
                lemma_macro_call_counts(rules, form, index + 1, counter);
            },
        }
    }
}

/// No new name is given out twice while uses of macros are expanded.
pub proof fn lemma_expansion_counts(form: Form, macros: Macros, limit: nat, counter: nat)
    ensures
        no_fewer(counter, expanded(form, macros, limit, counter)),
    decreases limit, form, 30nat, 0nat,
{
    if let FormKind::List { items, tail } = form.kind {
        let keyword = if items.len() > 0 { symbol_of(items[0]) } else { None };
        if keyword is Some && macros.contains_key(keyword->0) {
            if limit > 0 {
                lemma_macro_call_counts(macros[keyword->0], form, 0, counter);
                if let Ok((counter, form)) = macro_call(macros[keyword->0], form, 0, counter) {
                    lemma_expansion_counts(form, macros, (limit - 1) as nat, counter);
                }
            }
        } else if keyword == Some("lambda"@) {
            lemma_expanded_items_count(form, 2, macros, limit, counter);
            assert(no_fewer(counter, expanded_lambda(form, macros, limit, counter)));
        } else if keyword == Some("define"@) {
            lemma_expanded_items_count(form, 2, macros, limit, counter);
            assert(no_fewer(counter, expanded_define(form, macros, limit, counter)));
        } else if keyword is Some && is_let_keyword(keyword->0) {
            if items.len() >= 3 {
                lemma_expanded_bindings_count(items[1], 0, keyword->0, macros, limit, counter);
                if let Ok((counter, bindings)) = expanded_bindings(
                    items[1],
                    0,
                    keyword->0,
                    macros,
                    limit,
                    counter,
                ) {
                    lemma_expanded_items_count(form, 2, macros, limit, counter);
                }
            }
            assert(no_fewer(counter, expanded_let(form, keyword->0, macros, limit, counter)));
        } else {
            lemma_expanded_items_count(form, 0, macros, limit, counter);
            if let Ok((counter, row)) = expanded_items(form, 0, macros, limit, counter) {
                if let Some(tail) = tail {
                    lemma_expansion_counts(*tail, macros, limit, counter);
                }
            }
            assert(no_fewer(counter, expanded_list(form, macros, limit, counter)));
        }
    }
}

proof fn lemma_expanded_items_count(form: Form, index: nat, macros: Macros, limit: nat, counter: nat)
    ensures
        no_fewer(counter, expanded_items(form, index, macros, limit, counter)),
    decreases limit, form, 10nat, list_items(form).len() - index,
{
    let items = list_items(form);
    if index < items.len() {
        lemma_expansion_counts(items[index as int], macros, limit, counter);
        if let Ok((counter, first)) = expanded(items[index as int], macros, limit, counter) {
            lemma_expanded_items_count(form, index + 1, macros, limit, counter);
        }
    }
}

proof fn lemma_expanded_bindings_count(
    bindings: Form,
    index: nat,
    keyword: Seq<char>,
    macros: Macros,
    limit: nat,
    counter: nat,
)
    ensures
        no_fewer(counter, expanded_bindings(bindings, index, keyword, macros, limit, counter)),
    decreases limit, bindings, 15nat, list_items(bindings).len() - index,
{
    let items = list_items(bindings);
    if index < items.len() {
        if let FormKind::List { items: parts, tail: None } = items[index as int].kind {
            if parts.len() == 2 {
                lemma_expansion_counts(parts[1], macros, limit, counter);
                if let Ok((counter, init)) = expanded(parts[1], macros, limit, counter) {
                    lemma_expanded_bindings_count(bindings, index + 1, keyword, macros, limit, counter);
                }
            }
        }
    }
}

/// A higher limit changes no result: what expands, or fails, within a limit does so within every
/// higher one.
pub proof fn lemma_higher_limit(form: Form, macros: Macros, limit: nat, higher: nat, counter: nat)
    requires
        limit <= higher,
        !is_exhausted(expanded(form, macros, limit, counter)),
    ensures
        expanded(form, macros, higher, counter) == expanded(form, macros, limit, counter),
    decreases limit, form, 30nat, 0nat,
{
    if let FormKind::List { items, tail } = form.kind {
        let keyword = if items.len() > 0 { symbol_of(items[0]) } else { None };
        if keyword is Some && macros.contains_key(keyword->0) {
            if let Ok((counter, form)) = macro_call(macros[keyword->0], form, 0, counter) {
                lemma_higher_limit(form, macros, (limit - 1) as nat, (higher - 1) as nat, counter);
            }
        } else if keyword == Some("quote"@) {
        } else if keyword == Some("lambda"@) {
            assert(expanded(form, macros, limit, counter) == expanded_lambda(form, macros, limit, counter));
            if items.len() >= 3 {
                lemma_higher_limit_items(form, 2, macros, limit, higher, counter);
            }
            assert(expanded_lambda(form, macros, limit, counter) == expanded_lambda(form, macros, higher, counter));
        } else if keyword == Some("define"@) {
            assert(expanded(form, macros, limit, counter) == expanded_define(form, macros, limit, counter));
            if items.len() >= 3 {
                lemma_higher_limit_items(form, 2, macros, limit, higher, counter);
            }
            assert(expanded_define(form, macros, limit, counter) == expanded_define(form, macros, higher, counter));
        } else if keyword == Some("define-syntax"@) || keyword == Some("syntax-rules"@) || keyword == Some(
            "import"@,
        ) || keyword == Some("define-library"@) {
        } else if keyword is Some && is_let_keyword(keyword->0) {
            assert(expanded(form, macros, limit, counter) == expanded_let(
                form,
                keyword->0,
                macros,
                limit,
                counter,
            ));
            if items.len() >= 3 && proper_items(items[1]) is Some {
                lemma_higher_limit_bindings(items[1], 0, keyword->0, macros, limit, higher, counter);
                if let Ok((counter, bindings)) = expanded_bindings(
                    items[1],
                    0,
                    keyword->0,
                    macros,
                    limit,
                    counter,
                ) {
                    lemma_higher_limit_items(form, 2, macros, limit, higher, counter);
                }
            }
            assert(expanded_let(form, keyword->0, macros, limit, counter) == expanded_let(
                form,
                keyword->0,
                macros,
                higher,
                counter,
            ));
        } else {
            assert(expanded(form, macros, limit, counter) == expanded_list(form, macros, limit, counter));
            lemma_higher_limit_items(form, 0, macros, limit, higher, counter);
            if let Ok((counter, row)) = expanded_items(form, 0, macros, limit, counter) {
                if let Some(tail) = tail {
                    lemma_higher_limit(*tail, macros, limit, higher, counter);
                }
            }
            assert(expanded_list(form, macros, limit, counter) == expanded_list(form, macros, higher, counter));
        }
    }
}

proof fn lemma_higher_limit_items(form: Form, index: nat, macros: Macros, limit: nat, higher: nat, counter: nat)
    requires
        limit <= higher,
        !is_exhausted(expanded_items(form, index, macros, limit, counter)),
    ensures
        expanded_items(form, index, macros, higher, counter) == expanded_items(form, index, macros, limit, counter),
    decreases limit, form, 10nat, list_items(form).len() - index,
{
    let items = list_items(form);
    if index < items.len() {
        lemma_higher_limit(items[index as int], macros, limit, higher, counter);
        if let Ok((counter, first)) = expanded(items[index as int], macros, limit, counter) {
            lemma_higher_limit_items(form, index + 1, macros, limit, higher, counter);
        }
    }
}

proof fn lemma_higher_limit_bindings(
    bindings: Form,
    index: nat,
    keyword: Seq<char>,
    macros: Macros,
    limit: nat,
    higher: nat,
    counter: nat,
)
    requires
        limit <= higher,
        !is_exhausted(expanded_bindings(bindings, index, keyword, macros, limit, counter)),
    ensures
        expanded_bindings(bindings, index, keyword, macros, higher, counter) == expanded_bindings(
            bindings,
            index,
            keyword,
            macros,
            limit,
            counter,
        ),
    decreases limit, bindings, 15nat, list_items(bindings).len() - index,
{
    let items = list_items(bindings);
    if index < items.len() {
        if let FormKind::List { items: parts, tail: None } = items[index as int].kind {
            if parts.len() == 2 {
                lemma_higher_limit(parts[1], macros, limit, higher, counter);
                if let Ok((counter, init)) = expanded(parts[1], macros, limit, counter) {
                    lemma_higher_limit_bindings(bindings, index + 1, keyword, macros, limit, higher, counter);
                }
            }
        }
    }
}

/// Whether no definition and no `let` that expansion looks into is a dotted list.
pub open spec fn undotted(form: Form) -> bool
    decreases form, 30nat, 0nat,
{
    match form.kind {
        FormKind::List { items, tail } => {
            let keyword = if items.len() > 0 { symbol_of(items[0]) } else { None };
            if keyword == Some("quote"@) {
                true
            } else if keyword == Some("lambda"@) {
                items.len() < 3 || undotted_items(form, 2)
            } else if keyword == Some("define"@) {
                items.len() < 3 || (tail is None && undotted_items(form, 2))
            } else if keyword == Some("define-syntax"@) || keyword == Some("syntax-rules"@) || keyword == Some(
                "import"@,
            ) || keyword == Some("define-library"@) {
                true
            } else if keyword is Some && is_let_keyword(keyword->0) {
                items.len() < 3 || proper_items(items[1]) is None || (tail is None && undotted_values(
                    items[1],
                    0,
                ) && undotted_items(form, 2))
            } else {
                undotted_items(form, 0) && match tail {
                    Some(tail) => undotted(*tail),
                    None => true,
                }
            }
        },
        _ => true,
    }
}

/// The same for the items of a list from one on.
pub open spec fn undotted_items(form: Form, index: nat) -> bool
    decreases form, 10nat, list_items(form).len() - index,
{
    let items = list_items(form);
    index >= items.len() || (undotted(items[index as int]) && undotted_items(form, index + 1))
}

/// The same for the values of bindings from one on.
pub open spec fn undotted_values(bindings: Form, index: nat) -> bool
    decreases bindings, 10nat, list_items(bindings).len() - index,
{
    let items = list_items(bindings);
    index >= items.len() || (undotted_values(bindings, index + 1) && match items[index as int].kind {
        FormKind::List { items: parts, tail: None } => parts.len() != 2 || undotted(parts[1]),
        _ => true,
    })
}

/// Whether the bindings of every `let` that expansion looks into are lists of two items.
pub open spec fn well_bound(form: Form) -> bool
    decreases form, 30nat, 0nat,
{
    match form.kind {
        FormKind::List { items, tail } => {
            let keyword = if items.len() > 0 { symbol_of(items[0]) } else { None };
            if keyword == Some("quote"@) {
                true
            } else if keyword == Some("lambda"@) || keyword == Some("define"@) {
                items.len() < 3 || well_bound_items(form, 2)
            } else if keyword == Some("define-syntax"@) || keyword == Some("syntax-rules"@) || keyword == Some(
                "import"@,
            ) || keyword == Some("define-library"@) {
                true
            } else if keyword is Some && is_let_keyword(keyword->0) {
                items.len() < 3 || proper_items(items[1]) is None || (well_bound_values(items[1], 0)
                    && well_bound_items(form, 2))
            } else {
                well_bound_items(form, 0) && match tail {
                    Some(tail) => well_bound(*tail),
                    None => true,
                }
            }
        },
        _ => true,
    }
}

/// The same for the items of a list from one on.
pub open spec fn well_bound_items(form: Form, index: nat) -> bool
    decreases form, 10nat, list_items(form).len() - index,
{
    let items = list_items(form);
    index >= items.len() || (well_bound(items[index as int]) && well_bound_items(form, index + 1))
}

/// Whether the bindings from one on are lists of two items, and the same holds in their values.
pub open spec fn well_bound_values(bindings: Form, index: nat) -> bool
    decreases bindings, 10nat, list_items(bindings).len() - index,
{
    let items = list_items(bindings);
    index >= items.len() || (well_bound_values(bindings, index + 1) && match items[index as int].kind {
        FormKind::List { items: parts, tail: None } => parts.len() == 2 && well_bound(parts[1]),
        _ => false,
    })
}

/// Without macros a form is left as it is, and no new name is given out. It is refused only where
/// a binding of a `let` is not a list of two items.
pub proof fn lemma_no_macros(form: Form, limit: nat, counter: nat)
    requires
        undotted(form),
    ensures
        match expanded(form, Map::empty(), limit, counter) {
            Ok(growth) => well_bound(form) && growth == (counter, form),
            Err(_) => !well_bound(form),
        },
    decreases form, 30nat, 0nat,
{
    let macros = Map::<Seq<char>, Transformer>::empty();
    if let FormKind::List { items, tail } = form.kind {
        let keyword = if items.len() > 0 { symbol_of(items[0]) } else { None };
        if keyword == Some("quote"@) {
        } else if keyword == Some("lambda"@) {
            if items.len() >= 3 {
                lemma_no_macros_items(form, 2, limit, counter);
                assert(seq![items[0], items[1]] + items.subrange(2, items.len() as int) =~= items);
            }
            assert(match expanded_lambda(form, macros, limit, counter) {
                Ok(growth) => well_bound(form) && growth == (counter, form),
                Err(_) => !well_bound(form),
            });
        } else if keyword == Some("define"@) {
            if items.len() >= 3 {
                lemma_no_macros_items(form, 2, limit, counter);
                assert(seq![items[0], items[1]] + items.subrange(2, items.len() as int) =~= items);
            }
            assert(match expanded_define(form, macros, limit, counter) {
                Ok(growth) => well_bound(form) && growth == (counter, form),
                Err(_) => !well_bound(form),
            });
        } else if keyword == Some("define-syntax"@) || keyword == Some("syntax-rules"@) || keyword == Some(
            "import"@,
        ) || keyword == Some("define-library"@) {
        } else if keyword is Some && is_let_keyword(keyword->0) {
            if items.len() >= 3 && proper_items(items[1]) is Some {
                lemma_no_macros_bindings(items[1], 0, keyword->0, limit, counter);
                lemma_no_macros_items(form, 2, limit, counter);
                let bindings = list_items(items[1]);
                assert(bindings.subrange(0, bindings.len() as int) =~= bindings);
                assert(list_form(bindings, items[1].span) == items[1]);
                assert(seq![items[0], items[1]] + items.subrange(2, items.len() as int) =~= items);
            }
            assert(match expanded_let(form, keyword->0, macros, limit, counter) {
                Ok(growth) => well_bound(form) && growth == (counter, form),
                Err(_) => !well_bound(form),
            });
        } else {
            lemma_no_macros_items(form, 0, limit, counter);
            assert(items.subrange(0, items.len() as int) =~= items);
            if let Some(tail) = tail {
                lemma_no_macros(*tail, limit, counter);
            }
            assert(match expanded_list(form, macros, limit, counter) {
                Ok(growth) => well_bound(form) && growth == (counter, form),
                Err(_) => !well_bound(form),
            });
        }
    }
}

proof fn lemma_no_macros_items(form: Form, index: nat, limit: nat, counter: nat)
    requires
        index <= list_items(form).len(),
        undotted_items(form, index),
    ensures
        match expanded_items(form, index, Map::empty(), limit, counter) {
            Ok(growth) => well_bound_items(form, index) && growth == (
                counter,
                list_items(form).subrange(index as int, list_items(form).len() as int),
            ),
            Err(_) => !well_bound_items(form, index),
        },
    decreases form, 10nat, list_items(form).len() - index,
{
    let items = list_items(form);
    if index < items.len() {
        lemma_no_macros(items[index as int], limit, counter);
        lemma_no_macros_items(form, index + 1, limit, counter);
        assert(seq![items[index as int]] + items.subrange(index as int + 1, items.len() as int) =~= items.subrange(
            index as int,
            items.len() as int,
        ));
    }
}

proof fn lemma_no_macros_bindings(bindings: Form, index: nat, keyword: Seq<char>, limit: nat, counter: nat)
    requires
        index <= list_items(bindings).len(),
        undotted_values(bindings, index),
    ensures
        match expanded_bindings(bindings, index, keyword, Map::empty(), limit, counter) {
            Ok(growth) => well_bound_values(bindings, index) && growth == (
                counter,
                list_items(bindings).subrange(index as int, list_items(bindings).len() as int),
            ),
            Err(_) => !well_bound_values(bindings, index),
        },
    decreases bindings, 10nat, list_items(bindings).len() - index,
{
    let items = list_items(bindings);
    if index < items.len() {
        if let FormKind::List { items: parts, tail: None } = items[index as int].kind {
            if parts.len() == 2 {
                lemma_no_macros(parts[1], limit, counter);
                lemma_no_macros_bindings(bindings, index + 1, keyword, limit, counter);
                assert(seq![parts[0], parts[1]] =~= parts);
                assert(list_form(parts, items[index as int].span) == items[index as int]);
                assert(seq![items[index as int]] + items.subrange(index as int + 1, items.len() as int)
                    =~= items.subrange(index as int, items.len() as int));
            }
        }
    }
}

} // verus!
