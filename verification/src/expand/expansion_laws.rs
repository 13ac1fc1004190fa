//! What expansion does: every use of a macro in a form is replaced, in the body of procedures, definitions
//! and binding forms too, and all else stays in its place.
use crate::expand::expressions::{
    expanded, expanded_bindings, expanded_define, expanded_items, expanded_lambda, expanded_let, expanded_list,
    macro_call, Macros,
};
use crate::expand::forms::{list_form, list_items, list_tail, proper_items, symbol_of};
use crate::expand::template_laws::{is_binding, starts, starts_let};
use crate::frontend::ast::{Form, FormKind};
use vstd::prelude::*;

verus! {

broadcast use vstd::seq_lib::group_seq_properties;

/// Whether a list is a use of a macro.
pub open spec fn uses_macro(items: Seq<Form>, macros: Macros) -> bool {
    items.len() > 0 && (symbol_of(items[0]) matches Some(name) && macros.contains_key(name))
}

/// Whether a list that is no use of a macro is left as it is.
pub open spec fn is_kept(items: Seq<Form>) -> bool {
    ||| starts(items, "quote"@) || starts(items, "define-syntax"@) || starts(items, "syntax-rules"@) || starts(
        items,
        "import"@,
    ) || starts(items, "define-library"@)
    ||| (starts(items, "lambda"@) || starts(items, "define"@)) && items.len() < 3
    ||| starts_let(items) && (items.len() < 3 || proper_items(items[1]) is None)
}

/// Whether a form is another with all uses of macros replaced.
pub open spec fn is_expansion(form: Form, result: Form, macros: Macros, limit: nat) -> bool
    decreases limit, form, 30nat, 0nat,
{
    match form.kind {
        FormKind::List { items, tail } => if uses_macro(items, macros) {
            limit > 0 && exists|counter: nat|
                (#[trigger] macro_call(macros[symbol_of(items[0])->0], form, 0, counter)) matches Ok((_, middle))
                    && is_expansion(middle, result, macros, (limit - 1) as nat)
        } else if is_kept(items) {
            result == form
        } else {
            let parts = list_items(result);
            &&& result.kind is List
            &&& result.span == form.span
            &&& if starts(items, "lambda"@) {
                &&& list_tail(result) == tail
                &&& parts.len() >= 2 && parts[0] == items[0] && parts[1] == items[1]
                &&& are_expansions(form, 2, parts.skip(2), macros, limit)
            } else if starts(items, "define"@) {
                &&& list_tail(result) is None
                &&& parts.len() >= 2 && parts[0] == items[0] && parts[1] == items[1]
                &&& are_expansions(form, 2, parts.skip(2), macros, limit)
            } else if starts_let(items) {
                &&& list_tail(result) is None
                &&& parts.len() >= 2 && parts[0] == items[0]
                &&& parts[1].span == items[1].span && proper_items(parts[1]) is Some
                &&& are_expanded_bindings(items[1], 0, list_items(parts[1]), macros, limit)
                &&& are_expansions(form, 2, parts.skip(2), macros, limit)
            } else {
                &&& are_expansions(form, 0, parts, macros, limit)
                &&& match tail {
                    Some(tail) => list_tail(result) matches Some(rest) && is_expansion(*tail, *rest, macros, limit),
                    None => list_tail(result) is None,
                }
            }
        },
        _ => result == form,
    }
}

/// The same for the items of a list from one on.
pub open spec fn are_expansions(form: Form, index: nat, results: Seq<Form>, macros: Macros, limit: nat) -> bool
    decreases limit, form, 10nat, list_items(form).len() - index,
{
    if index >= list_items(form).len() {
        results.len() == 0
    } else {
        results.len() > 0 && is_expansion(list_items(form)[index as int], results[0], macros, limit) && are_expansions(
            form,
            index + 1,
            results.skip(1),
            macros,
            limit,
        )
    }
}

/// The same for the values of bindings from one on: the names stay.
pub open spec fn are_expanded_bindings(bindings: Form, index: nat, results: Seq<Form>, macros: Macros, limit: nat) -> bool
    decreases limit, bindings, 15nat, list_items(bindings).len() - index,
{
    let items = list_items(bindings);
    if index >= items.len() {
        results.len() == 0
    } else {
        &&& results.len() > 0
        &&& is_binding(results[0]) && results[0].span == items[index as int].span
        &&& match items[index as int].kind {
            FormKind::List { items: parts, tail: None } => parts.len() == 2 && list_items(results[0])[0] == parts[0]
                && is_expansion(parts[1], list_items(results[0])[1], macros, limit),
            _ => false,
        }
        &&& are_expanded_bindings(bindings, index + 1, results.skip(1), macros, limit)
    }
}

/// A form after expansion is the form with all uses of macros replaced.
pub proof fn lemma_expansion(form: Form, macros: Macros, limit: nat, counter: nat)
    ensures
        expanded(form, macros, limit, counter) matches Ok((_, result)) ==> is_expansion(form, result, macros, limit),
    decreases limit, form, 30nat, 0nat,
{
    if let FormKind::List { items, tail } = form.kind {
        lemma_expansion_keywords();
        if uses_macro(items, macros) {
            if limit > 0 {
                let rules = macros[symbol_of(items[0])->0];
                if let Ok((after, middle)) = macro_call(rules, form, 0, counter) {
                    lemma_expansion(middle, macros, (limit - 1) as nat, after);
                }
            }
        } else if starts(items, "quote"@) {
        } else if starts(items, "lambda"@) {
            assert(expanded(form, macros, limit, counter) == expanded_lambda(form, macros, limit, counter));
            if items.len() >= 3 {
                lemma_expansions(form, 2, macros, limit, counter);
                if let Ok((_, body)) = expanded_items(form, 2, macros, limit, counter) {
                    assert((seq![items[0], items[1]] + body).skip(2) =~= body);
                }
            }
        } else if starts(items, "define"@) {
            assert(expanded(form, macros, limit, counter) == expanded_define(form, macros, limit, counter));
            if items.len() >= 3 {
                lemma_expansions(form, 2, macros, limit, counter);
                if let Ok((_, body)) = expanded_items(form, 2, macros, limit, counter) {
                    assert((seq![items[0], items[1]] + body).skip(2) =~= body);
                }
            }
        } else if starts_let(items) {
            let keyword = symbol_of(items[0])->0;
            assert(expanded(form, macros, limit, counter) == expanded_let(form, keyword, macros, limit, counter));
            if items.len() >= 3 && proper_items(items[1]) is Some {
                lemma_expanded_values(items[1], 0, keyword, macros, limit, counter);
                if let Ok((counter, bindings)) = expanded_bindings(items[1], 0, keyword, macros, limit, counter) {
                    lemma_expansions(form, 2, macros, limit, counter);
                    if let Ok((_, body)) = expanded_items(form, 2, macros, limit, counter) {
                        assert((seq![items[0], list_form(bindings, items[1].span)] + body).skip(2) =~= body);
                    }
                }
            }
        } else if !is_kept(items) {
            assert(expanded(form, macros, limit, counter) == expanded_list(form, macros, limit, counter));
            lemma_expansions(form, 0, macros, limit, counter);
            if let Ok((counter, _)) = expanded_items(form, 0, macros, limit, counter) {
                if let Some(tail) = tail {
                    lemma_expansion(*tail, macros, limit, counter);
                }
            }
        }
    }
}

proof fn lemma_expansion_keywords()
    ensures
        "quote"@ != "lambda"@ && "quote"@ != "define"@ && "quote"@ != "let"@ && "quote"@ != "let*"@ && "quote"@ != "letrec"@
            && "quote"@ != "letrec*"@,
        "define-syntax"@ != "lambda"@ && "define-syntax"@ != "define"@ && "define-syntax"@ != "let"@ && "define-syntax"@
            != "let*"@ && "define-syntax"@ != "letrec"@ && "define-syntax"@ != "letrec*"@,
        "syntax-rules"@ != "lambda"@ && "syntax-rules"@ != "define"@ && "syntax-rules"@ != "let"@ && "syntax-rules"@
            != "let*"@ && "syntax-rules"@ != "letrec"@ && "syntax-rules"@ != "letrec*"@,
        "import"@ != "lambda"@ && "import"@ != "define"@ && "import"@ != "let"@ && "import"@ != "let*"@ && "import"@
            != "letrec"@ && "import"@ != "letrec*"@,
        "define-library"@ != "lambda"@ && "define-library"@ != "define"@ && "define-library"@ != "let"@ && "define-library"@
            != "let*"@ && "define-library"@ != "letrec"@ && "define-library"@ != "letrec*"@,
        "lambda"@ != "define"@ && "lambda"@ != "let"@ && "lambda"@ != "let*"@ && "lambda"@ != "letrec"@ && "lambda"@
            != "letrec*"@,
        "define"@ != "let"@ && "define"@ != "let*"@ && "define"@ != "letrec"@ && "define"@ != "letrec*"@,
{
    reveal_strlit("lambda");
    reveal_strlit("define");
    reveal_strlit("let");
    reveal_strlit("let*");
    reveal_strlit("letrec");
    reveal_strlit("letrec*");
    reveal_strlit("quote");
    reveal_strlit("import");
    reveal_strlit("define-syntax");
    reveal_strlit("syntax-rules");
    reveal_strlit("define-library");
    assert("lambda"@[1] == 'a' && "define"@[0] == 'd' && "quote"@[0] == 'q' && "import"@[0] == 'i');
    assert("syntax-rules"@[0] == 's' && "define-syntax"@[0] == 'd' && "define-library"@[0] == 'd');
    assert("define"@.len() == 6 && "define-syntax"@.len() == 13 && "define-library"@.len() == 14);
    assert("let"@[1] == 'e' && "let*"@[1] == 'e' && "letrec"@[1] == 'e' && "letrec*"@[1] == 'e');
    assert("lambda"@[0] == 'l' && "let"@[0] == 'l' && "let*"@[0] == 'l' && "letrec"@[0] == 'l' && "letrec*"@[0] == 'l');
}

proof fn lemma_expansions(form: Form, index: nat, macros: Macros, limit: nat, counter: nat)
    ensures
        expanded_items(form, index, macros, limit, counter) matches Ok((_, results)) ==> are_expansions(
            form,
            index,
            results,
            macros,
            limit,
        ),
    decreases limit, form, 10nat, list_items(form).len() - index,
{
    let items = list_items(form);
    if index < items.len() {
        lemma_expansion(items[index as int], macros, limit, counter);
        if let Ok((counter, first)) = expanded(items[index as int], macros, limit, counter) {
            lemma_expansions(form, index + 1, macros, limit, counter);
            if let Ok((_, rest)) = expanded_items(form, index + 1, macros, limit, counter) {
                assert((seq![first] + rest).skip(1) =~= rest);
            }
        }
    }
}

proof fn lemma_expanded_values(bindings: Form, index: nat, keyword: Seq<char>, macros: Macros, limit: nat, counter: nat)
    ensures
        expanded_bindings(bindings, index, keyword, macros, limit, counter) matches Ok((_, results))
            ==> are_expanded_bindings(bindings, index, results, macros, limit),
    decreases limit, bindings, 15nat, list_items(bindings).len() - index,
{
    let items = list_items(bindings);
    if index < items.len() {
        if let FormKind::List { items: parts, tail: None } = items[index as int].kind {
            if parts.len() == 2 {
                lemma_expansion(parts[1], macros, limit, counter);
                if let Ok((counter, init)) = expanded(parts[1], macros, limit, counter) {
                    lemma_expanded_values(bindings, index + 1, keyword, macros, limit, counter);
                    if let Ok((_, rest)) = expanded_bindings(bindings, index + 1, keyword, macros, limit, counter) {
                        let one = list_form(seq![parts[0], init], items[index as int].span);
                        assert((seq![one] + rest).skip(1) =~= rest);
                    }
                }
            }
        }
    }
}

} // verus!
