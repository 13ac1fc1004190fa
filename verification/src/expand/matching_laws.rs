//! What matching a pattern does: a form matches where it is the pattern with something in place of each
//! variable, and the variables stand for what is in their places.
use crate::expand::declarations::Transformer;
use crate::expand::expressions::macro_call;
use crate::expand::forms::{list_items, list_tail, symbol_of};
use crate::expand::matching::{
    has_ellipsis, match_ellipsis, match_form, match_identifier, match_repeated, match_segments, no_bindings,
    repeated_forms, rest_of_list, Bindings,
};
use crate::expand::template::{fill, Filling};
use crate::expand::template_laws::is_before_ellipsis;
use crate::frontend::ast::{Form, FormKind};
use vstd::prelude::*;

verus! {

broadcast use vstd::seq_lib::group_seq_properties;

/// Whether what variables stand for is kept: single forms stay, and rows only become longer.
pub open spec fn keeps_bindings(before: Bindings, after: Bindings) -> bool {
    &&& forall|name: Seq<char>| #[trigger]
        before.singles.contains_key(name) ==> after.singles.contains_key(name) && after.singles[name]
            == before.singles[name]
    &&& forall|name: Seq<char>| #[trigger]
        before.repeats.contains_key(name) ==> after.repeats.contains_key(name) && before.repeats[name].is_prefix_of(
            after.repeats[name],
        )
}

/// Whether a form is a pattern with something in place of each variable: `_` takes anything, a literal
/// only itself, a variable the form that it stands for, and one under an ellipsis one of the forms that it
/// stands for.
pub open spec fn is_match(pattern: Form, form: Form, literals: Set<Seq<char>>, env: Bindings, repeated: bool) -> bool
    decreases pattern, 30nat, 0nat,
{
    match pattern.kind {
        FormKind::Symbol(name) => {
            ||| name == "_"@
            ||| literals.contains(name) && symbol_of(form) == Some(name)
            ||| !literals.contains(name) && repeated && env.repeats.contains_key(name) && env.repeats[name].contains(form)
            ||| !literals.contains(name) && !repeated && env.singles.contains_key(name) && env.singles[name] == form
        },
        FormKind::Quote(inner) => form.kind matches FormKind::Quote(quoted) && is_match(
            *inner,
            *quoted,
            literals,
            env,
            repeated,
        ),
        FormKind::List { items, tail } => form.kind is List && is_match_from(
            pattern,
            0,
            form,
            0,
            literals,
            env,
            repeated,
        ),
        kind => form.kind == kind,
    }
}

/// Whether a list has so many items from one on.
pub open spec fn is_taken(items: Seq<Form>, from: nat, count: nat) -> bool {
    from + count <= items.len()
}

/// The same for the items of a list pattern from one on and the items of a list from one on. An item before
/// an ellipsis takes any number of forms.
pub open spec fn is_match_from(
    pattern: Form,
    at: nat,
    form: Form,
    from: nat,
    literals: Set<Seq<char>>,
    env: Bindings,
    repeated: bool,
) -> bool
    decreases pattern, 20nat, list_items(pattern).len() - at,
{
    let patterns = list_items(pattern);
    let items = list_items(form);
    if at >= patterns.len() {
        match pattern.kind {
            FormKind::List { items: _, tail: Some(tail) } => is_match(
                *tail,
                rest_of_list(form, from as int),
                literals,
                env,
                repeated,
            ),
            _ => from >= items.len() && list_tail(form) is None,
        }
    } else if is_before_ellipsis(patterns, at as int) {
        exists|count: nat| #[trigger]
            is_taken(items, from, count) && is_row_match(
                pattern,
                at,
                items.subrange(from as int, (from + count) as int),
                literals,
                env,
            ) && is_match_from(pattern, at + 2, form, from + count, literals, env, repeated)
    } else {
        from < items.len() && is_match(patterns[at as int], items[from as int], literals, env, repeated) && is_match_from(
            pattern,
            at + 1,
            form,
            from + 1,
            literals,
            env,
            repeated,
        )
    }
}

/// Whether each of a row of forms is an item of a pattern under an ellipsis.
pub open spec fn is_row_match(pattern: Form, at: nat, row: Seq<Form>, literals: Set<Seq<char>>, env: Bindings) -> bool
    decreases pattern, 10nat, 0nat,
{
    at < list_items(pattern).len() && forall|k: int|
        0 <= k < row.len() ==> is_match(list_items(pattern)[at as int], #[trigger] row[k], literals, env, true)
}

proof fn lemma_keeps_on(first: Bindings, second: Bindings, third: Bindings)
    requires
        keeps_bindings(first, second),
        keeps_bindings(second, third),
    ensures
        keeps_bindings(first, third),
{
    assert forall|name: Seq<char>| #[trigger] first.repeats.contains_key(name) implies third.repeats.contains_key(name)
        && first.repeats[name].is_prefix_of(third.repeats[name]) by {
        let short = first.repeats[name];
        let long = third.repeats[name];
        assert(second.repeats.contains_key(name));
        assert(short =~= long.subrange(0, short.len() as int)) by {
            assert forall|i: int| 0 <= i < short.len() implies short[i] == long[i] by {
                assert(short[i] == second.repeats[name][i]);
            }
        }
    }
}

proof fn lemma_keeps_itself(env: Bindings)
    ensures
        keeps_bindings(env, env),
{
    assert forall|name: Seq<char>| #[trigger] env.repeats.contains_key(name) implies env.repeats[name].is_prefix_of(
        env.repeats[name],
    ) by {
        assert(env.repeats[name] =~= env.repeats[name].subrange(0, env.repeats[name].len() as int));
    }
}

/// What matches goes on matching where variables stand for more.
proof fn lemma_match_kept(pattern: Form, form: Form, literals: Set<Seq<char>>, env: Bindings, more: Bindings, repeated: bool)
    requires
        is_match(pattern, form, literals, env, repeated),
        keeps_bindings(env, more),
    ensures
        is_match(pattern, form, literals, more, repeated),
    decreases pattern, 30nat, 0nat,
{
    match pattern.kind {
        FormKind::Symbol(name) => {
            if repeated && env.repeats.contains_key(name) && env.repeats[name].contains(form) {
                let i = choose|i: int| 0 <= i < env.repeats[name].len() && env.repeats[name][i] == form;
                assert(more.repeats[name][i] == form);
            }
        },
        FormKind::Quote(inner) => {
            if let FormKind::Quote(quoted) = form.kind {
                lemma_match_kept(*inner, *quoted, literals, env, more, repeated);
            }
        },
        FormKind::List { items, tail } => {
            lemma_match_kept_from(pattern, 0, form, 0, literals, env, more, repeated);
        },
        _ => {},
    }
}

proof fn lemma_match_kept_from(
    pattern: Form,
    at: nat,
    form: Form,
    from: nat,
    literals: Set<Seq<char>>,
    env: Bindings,
    more: Bindings,
    repeated: bool,
)
    requires
        is_match_from(pattern, at, form, from, literals, env, repeated),
        keeps_bindings(env, more),
    ensures
        is_match_from(pattern, at, form, from, literals, more, repeated),
    decreases pattern, 20nat, list_items(pattern).len() - at,
{
    let patterns = list_items(pattern);
    let items = list_items(form);
    if at >= patterns.len() {
        if let FormKind::List { items: _, tail: Some(tail) } = pattern.kind {
            lemma_match_kept(*tail, rest_of_list(form, from as int), literals, env, more, repeated);
        }
    } else if is_before_ellipsis(patterns, at as int) {
        let count = choose|count: nat| #[trigger]
            is_taken(items, from, count) && is_row_match(
                pattern,
                at,
                items.subrange(from as int, (from + count) as int),
                literals,
                env,
            ) && is_match_from(pattern, at + 2, form, from + count, literals, env, repeated);
        let row = items.subrange(from as int, (from + count) as int);
        assert(is_taken(items, from, count));
        assert(is_row_match(pattern, at, row, literals, more)) by {
            assert forall|k: int| 0 <= k < row.len() implies is_match(
                patterns[at as int],
                #[trigger] row[k],
                literals,
                more,
                true,
            ) by {
                lemma_match_kept(patterns[at as int], row[k], literals, env, more, true);
            }
        }
        lemma_match_kept_from(pattern, at + 2, form, from + count, literals, env, more, repeated);
    } else {
        lemma_match_kept(patterns[at as int], items[from as int], literals, env, more, repeated);
        lemma_match_kept_from(pattern, at + 1, form, from + 1, literals, env, more, repeated);
    }
}

proof fn lemma_identifier(name: Seq<char>, form: Form, literals: Set<Seq<char>>, env: Bindings, repeated: bool)
    ensures
        match_identifier(name, form, literals, env, repeated) matches Some(after) ==> keeps_bindings(env, after) && (name
            == "_"@ || (literals.contains(name) && symbol_of(form) == Some(name)) || (!literals.contains(name) && repeated
            && after.repeats.contains_key(name) && after.repeats[name].contains(form)) || (!literals.contains(name)
            && !repeated && after.singles.contains_key(name) && after.singles[name] == form)),
{
    reveal(match_identifier);
    lemma_keeps_itself(env);
    if let Some(after) = match_identifier(name, form, literals, env, repeated) {
        if name != "_"@ && !literals.contains(name) && repeated {
            let row = repeated_forms(env, name);
            assert(after.repeats[name] == row.push(form));
            assert(after.repeats[name].last() == form);
            assert(row =~= row.push(form).subrange(0, row.len() as int));
        }
    }
}

/// A form that a pattern matches is the pattern with something in place of each variable, and what the
/// variables stood for before is kept.
pub proof fn lemma_matched(pattern: Form, form: Form, literals: Set<Seq<char>>, env: Bindings, repeated: bool)
    ensures
        match_form(pattern, form, literals, env, repeated) matches Some(after) ==> keeps_bindings(env, after) && is_match(
            pattern,
            form,
            literals,
            after,
            repeated,
        ),
    decreases pattern, 2 * list_items(pattern).len() + 2, 0nat,
{
    match pattern.kind {
        FormKind::Symbol(name) => {
            lemma_identifier(name, form, literals, env, repeated);
        },
        FormKind::Quote(inner) => {
            if let FormKind::Quote(quoted) = form.kind {
                lemma_matched(*inner, *quoted, literals, env, repeated);
            }
        },
        FormKind::List { items, tail } => {
            if form.kind is List {
                lemma_segments_matched(pattern, 0, form, 0, literals, env, repeated);
            }
        },
        _ => {
            lemma_keeps_itself(env);
        },
    }
}

proof fn lemma_segments_matched(
    pattern: Form,
    at: nat,
    form: Form,
    from: nat,
    literals: Set<Seq<char>>,
    env: Bindings,
    repeated: bool,
)
    requires
        pattern.kind is List,
    ensures
        match_segments(pattern, at, form, from, literals, env, repeated) matches Some(after) ==> keeps_bindings(env, after)
            && is_match_from(pattern, at, form, from, literals, after, repeated),
    decreases pattern, 2 * (list_items(pattern).len() - at) + 1, 0nat,
{
    let patterns = list_items(pattern);
    let items = list_items(form);
    lemma_keeps_itself(env);
    if at >= patterns.len() {
        if let FormKind::List { items: _, tail: Some(tail) } = pattern.kind {
            lemma_matched(*tail, rest_of_list(form, from as int), literals, env, repeated);
        }
    } else if has_ellipsis(patterns, at as int) {
        lemma_ellipsis_matched(pattern, at, form, from, 0, literals, env, repeated);
    } else if from < items.len() {
        lemma_matched(patterns[at as int], items[from as int], literals, env, repeated);
        if let Some(next) = match_form(patterns[at as int], items[from as int], literals, env, repeated) {
            lemma_segments_matched(pattern, at + 1, form, from + 1, literals, next, repeated);
            if let Some(after) = match_segments(pattern, at + 1, form, from + 1, literals, next, repeated) {
                lemma_keeps_on(env, next, after);
                lemma_match_kept(patterns[at as int], items[from as int], literals, next, after, repeated);
            }
        }
    }
}

proof fn lemma_ellipsis_matched(
    pattern: Form,
    at: nat,
    form: Form,
    from: nat,
    consumed: nat,
    literals: Set<Seq<char>>,
    env: Bindings,
    repeated: bool,
)
    requires
        pattern.kind is List,
        has_ellipsis(list_items(pattern), at as int),
    ensures
        match_ellipsis(pattern, at, form, from, consumed, literals, env, repeated) matches Some(after) ==> keeps_bindings(
            env,
            after,
        ) && is_match_from(pattern, at, form, from, literals, after, repeated),
    decreases pattern, 2 * (list_items(pattern).len() - at), list_items(form).len() - from - consumed + 1,
{
    let patterns = list_items(pattern);
    let items = list_items(form);
    if at < patterns.len() && from + consumed <= items.len() {
        let item = patterns[at as int];
        lemma_repeated_matched(item, items, from, consumed, literals, env);
        let found = match match_repeated(item, items, from, consumed, literals, env) {
            None => None,
            Some(trial) => match_segments(pattern, at + 2, form, from + consumed, literals, trial, repeated),
        };
        if let Some(trial) = match_repeated(item, items, from, consumed, literals, env) {
            lemma_segments_matched(pattern, at + 2, form, from + consumed, literals, trial, repeated);
            if let Some(after) = found {
                lemma_keeps_on(env, trial, after);
                let row = items.subrange(from as int, (from + consumed) as int);
                assert(is_taken(items, from, consumed));
                assert(is_row_match(pattern, at, row, literals, after)) by {
                    assert forall|k: int| 0 <= k < row.len() implies is_match(
                        item,
                        #[trigger] row[k],
                        literals,
                        after,
                        true,
                    ) by {
                        assert(row[k] == items[from + k]);
                        lemma_match_kept(item, row[k], literals, trial, after, true);
                    }
                }
            }
        }
        if found is None {
            lemma_ellipsis_matched(pattern, at, form, from, consumed + 1, literals, env, repeated);
        }
    }
}

proof fn lemma_repeated_matched(
    pattern: Form,
    items: Seq<Form>,
    from: nat,
    count: nat,
    literals: Set<Seq<char>>,
    env: Bindings,
)
    requires
        from + count <= items.len(),
    ensures
        match_repeated(pattern, items, from, count, literals, env) matches Some(after) ==> keeps_bindings(env, after)
            && forall|k: int| from <= k < from + count ==> is_match(pattern, #[trigger] items[k], literals, after, true),
    decreases pattern, 2 * list_items(pattern).len() + 3, count,
{
    lemma_keeps_itself(env);
    if count > 0 {
        let less = (count - 1) as nat;
        lemma_repeated_matched(pattern, items, from, less, literals, env);
        if let Some(next) = match_repeated(pattern, items, from, less, literals, env) {
            let last = items[from + count - 1];
            lemma_matched(pattern, last, literals, next, true);
            if let Some(after) = match_form(pattern, last, literals, next, true) {
                lemma_keeps_on(env, next, after);
                assert forall|k: int| from <= k < from + count implies is_match(
                    pattern,
                    #[trigger] items[k],
                    literals,
                    after,
                    true,
                ) by {
                    if k < from + less {
                        lemma_match_kept(pattern, items[k], literals, next, after, true);
                    }
                }
            }
        }
    }
}

/// A variable under an ellipsis stands for the forms that the ellipsis takes, in their order.
pub proof fn lemma_row_collected(
    pattern: Form,
    name: Seq<char>,
    items: Seq<Form>,
    from: nat,
    count: nat,
    literals: Set<Seq<char>>,
    env: Bindings,
)
    requires
        pattern.kind == FormKind::Symbol(name),
        name != "_"@,
        !literals.contains(name),
        from + count <= items.len(),
        count > 0,
    ensures
        match_repeated(pattern, items, from, count, literals, env) matches Some(after) && after.repeats.contains_key(name)
            && after.repeats[name] == (if env.repeats.contains_key(name) {
            env.repeats[name]
        } else {
            Seq::empty()
        }) + items.subrange(from as int, (from + count) as int),
    decreases count,
{
    reveal(match_identifier);
    let before = repeated_forms(env, name);
    let row = items.subrange(from as int, (from + count) as int);
    assert(row =~= items.subrange(from as int, from + count - 1).push(items[from + count - 1]));
    if count > 1 {
        let less = (count - 1) as nat;
        lemma_row_collected(pattern, name, items, from, less, literals, env);
        let next = match_repeated(pattern, items, from, less, literals, env)->0;
        assert(match_form(pattern, items[from + count - 1], literals, next, true) == match_identifier(
            name,
            items[from + count - 1],
            literals,
            next,
            true,
        ));
        assert(before + row =~= (before + items.subrange(from as int, (from + less) as int)).push(row.last()));
    } else {
        reveal_with_fuel(match_repeated, 2);
        assert(match_form(pattern, items[from as int], literals, env, true) == match_identifier(
            name,
            items[from as int],
            literals,
            env,
            true,
        ));
        assert(items.subrange(from as int, from as int) =~= Seq::<Form>::empty());
        assert(before + row =~= before.push(row[0]));
    }
}

/// Whether a pattern has no ellipsis.
pub open spec fn is_plain_pattern(pattern: Form) -> bool
    decreases pattern, 30nat, 0nat,
{
    match pattern.kind {
        FormKind::Quote(inner) => is_plain_pattern(*inner),
        FormKind::List { items, tail } => is_plain_pattern_from(pattern, 0) && (tail matches Some(tail)
            ==> is_plain_pattern(*tail)),
        _ => true,
    }
}

/// The same for the items of a list from one on.
pub open spec fn is_plain_pattern_from(pattern: Form, at: nat) -> bool
    decreases pattern, 20nat, list_items(pattern).len() - at,
{
    at < list_items(pattern).len() ==> !is_before_ellipsis(list_items(pattern), at as int) && is_plain_pattern(
        list_items(pattern)[at as int],
    ) && is_plain_pattern_from(pattern, at + 1)
}

/// A pattern without ellipses matches every form that is the pattern with something in place of each
/// variable, and its variables stand for no more than that.
pub proof fn lemma_plain_pattern_matches(pattern: Form, form: Form, literals: Set<Seq<char>>, env: Bindings, all: Bindings)
    requires
        is_plain_pattern(pattern),
        is_match(pattern, form, literals, all, false),
        keeps_bindings(env, all),
    ensures
        match_form(pattern, form, literals, env, false) matches Some(after) && keeps_bindings(after, all),
    decreases pattern, 30nat, 0nat,
{
    match pattern.kind {
        FormKind::Symbol(name) => {
            reveal(match_identifier);
        },
        FormKind::Quote(inner) => {
            if let FormKind::Quote(quoted) = form.kind {
                lemma_plain_pattern_matches(*inner, *quoted, literals, env, all);
            }
        },
        FormKind::List { items, tail } => {
            lemma_plain_items_match(pattern, 0, form, 0, literals, env, all);
        },
        _ => {},
    }
}

proof fn lemma_plain_items_match(
    pattern: Form,
    at: nat,
    form: Form,
    from: nat,
    literals: Set<Seq<char>>,
    env: Bindings,
    all: Bindings,
)
    requires
        pattern.kind is List,
        form.kind is List,
        is_plain_pattern_from(pattern, at),
        list_tail(pattern) matches Some(tail) ==> is_plain_pattern(*tail),
        is_match_from(pattern, at, form, from, literals, all, false),
        keeps_bindings(env, all),
    ensures
        match_segments(pattern, at, form, from, literals, env, false) matches Some(after) && keeps_bindings(after, all),
    decreases pattern, 20nat, list_items(pattern).len() - at,
{
    let patterns = list_items(pattern);
    let items = list_items(form);
    if at >= patterns.len() {
        if let FormKind::List { items: _, tail: Some(tail) } = pattern.kind {
            lemma_plain_pattern_matches(*tail, rest_of_list(form, from as int), literals, env, all);
        }
    } else {
        lemma_plain_pattern_matches(patterns[at as int], items[from as int], literals, env, all);
        let next = match_form(patterns[at as int], items[from as int], literals, env, false)->0;
        lemma_plain_items_match(pattern, at + 1, form, from + 1, literals, next, all);
    }
}

/// A use of a macro stands for the template of a clause whose pattern matches, filled in with what its
/// variables stand for, where no clause before it matches.
pub proof fn lemma_first_clause_used(rules: Transformer, form: Form, index: nat, chosen: nat, counter: nat)
    requires
        index <= chosen < rules.rules.len(),
        match_form(rules.rules[chosen as int].0, form, rules.literals, no_bindings(), false) is Some,
        forall|i: int|
            index <= i < chosen ==> match_form(
                (#[trigger] rules.rules[i]).0,
                form,
                rules.literals,
                no_bindings(),
                false,
            ) is None,
    ensures
        macro_call(rules, form, index, counter) == fill(
            rules.rules[chosen as int].1,
            Filling {
                values: rules.values,
                env: match_form(rules.rules[chosen as int].0, form, rules.literals, no_bindings(), false)->0,
                repetition: None,
            },
            Map::empty(),
            counter,
        ),
    decreases chosen - index,
{
    if index < chosen {
        assert(match_form(rules.rules[index as int].0, form, rules.literals, no_bindings(), false) is None);
        lemma_first_clause_used(rules, form, index + 1, chosen, counter);
    }
}

} // verus!
