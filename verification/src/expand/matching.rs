//! Patterns of macro rules.
use crate::error::{CompileError, Problem};
use crate::expand::forms::{
    clone_exprs, clone_tail, dotted_expr, dotted_form, is_symbol, is_the_symbol, list_items, list_tail, same_expr,
    ExprRow,
};
use crate::frontend::ast::{forms_of, lemma_list_form, merged, Expr, ExprKind, Form, FormKind, Span};
use crate::names::{Duplicate, NameMap, NameSet};
use crate::text::same;
use vstd::prelude::*;

verus! {

broadcast use vstd::seq_lib::group_seq_properties;

/// What the variables of a pattern stand for: single forms, and rows of forms for those
/// under an ellipsis.
pub struct MatchEnv {
    pub singles: NameMap<Expr>,
    pub repeats: NameMap<ExprRow>,
}

/// The meaning of a `MatchEnv`.
pub struct Bindings {
    pub singles: Map<Seq<char>, Form>,
    pub repeats: Map<Seq<char>, Seq<Form>>,
}

impl View for MatchEnv {
    type V = Bindings;

    open spec fn view(&self) -> Bindings {
        Bindings { singles: self.singles@, repeats: self.repeats@ }
    }
}

impl Duplicate for MatchEnv {
    fn duplicate(&self) -> (copy: Self) {
        MatchEnv { singles: self.singles.duplicate_map(), repeats: self.repeats.duplicate_map() }
    }
}

/// Bindings of no variable.
pub open spec fn no_bindings() -> Bindings {
    Bindings { singles: Map::empty(), repeats: Map::empty() }
}

/// The forms that a variable under an ellipsis stands for so far.
pub open spec fn repeated_forms(env: Bindings, name: Seq<char>) -> Seq<Form> {
    if env.repeats.contains_key(name) {
        env.repeats[name]
    } else {
        Seq::empty()
    }
}

/// Matches a symbol of a pattern. `_` matches everything and a literal itself. A variable
/// matches everything the first time, and later only the same form at the same place; under
/// an ellipsis it collects.
#[verifier::opaque]
pub open spec fn match_identifier(name: Seq<char>, form: Form, literals: Set<Seq<char>>, env: Bindings, repeated: bool) -> Option<Bindings> {
    if name == "_"@ {
        Some(env)
    } else if literals.contains(name) {
        if is_the_symbol(form, name) {
            Some(env)
        } else {
            None
        }
    } else if repeated {
        Some(Bindings { repeats: env.repeats.insert(name, repeated_forms(env, name).push(form)), ..env })
    } else if env.singles.contains_key(name) {
        if env.singles[name] == form {
            Some(env)
        } else {
            None
        }
    } else {
        Some(Bindings { singles: env.singles.insert(name, form), ..env })
    }
}

/// The range from the tail of a list over its items from `from` up to `end`.
pub open spec fn span_over(items: Seq<Form>, from: int, end: int, start: Span) -> Span
    decreases end - from,
{
    if end <= from {
        start
    } else {
        merged(span_over(items, from, end - 1, start), items[end - 1].span)
    }
}

/// What is left of a list from an item on.
pub open spec fn rest_of_list(form: Form, from: int) -> Form {
    let items = list_items(form);
    let start = match list_tail(form) {
        Some(tail) => tail.span,
        None => Span { start: 0, end: 0 },
    };
    dotted_form(
        items.subrange(from, items.len() as int),
        list_tail(form),
        span_over(items, from, items.len() as int, start),
    )
}

/// Matches a pattern: what its variables stand for on top of what they stood for, or nothing
/// where the form does not match.
pub open spec fn match_form(pattern: Form, form: Form, literals: Set<Seq<char>>, env: Bindings, repeated: bool) -> Option<Bindings>
    decreases pattern, 2 * list_items(pattern).len() + 2, 0nat,
{
    match pattern.kind {
        FormKind::Symbol(name) => match_identifier(name, form, literals, env, repeated),
        FormKind::Quote(inner) => match form.kind {
            FormKind::Quote(quoted) => match_form(*inner, *quoted, literals, env, repeated),
            _ => None,
        },
        FormKind::List { items, tail } => if form.kind is List {
            match_segments(pattern, 0, form, 0, literals, env, repeated)
        } else {
            None
        },
        kind => if form.kind == kind {
            Some(env)
        } else {
            None
        },
    }
}

/// Whether an ellipsis follows an item of a pattern or of a template.
pub open spec fn has_ellipsis(items: Seq<Form>, at: int) -> bool {
    at + 1 < items.len() && is_the_symbol(items[at + 1], "..."@)
}

/// Matches the items of a list pattern from `at` on with the items of a list from `from` on.
pub open spec fn match_segments(
    pattern: Form,
    at: nat,
    form: Form,
    from: nat,
    literals: Set<Seq<char>>,
    env: Bindings,
    repeated: bool,
) -> Option<Bindings>
    decreases pattern, 2 * (list_items(pattern).len() - at) + 1, 0nat,
{
    let patterns = list_items(pattern);
    let items = list_items(form);
    if at >= patterns.len() {
        match list_tail(pattern) {
            None => if from >= items.len() && list_tail(form) is None {
                Some(env)
            } else {
                None
            },
            Some(tail) => match pattern.kind {
                FormKind::List { items: _, tail: Some(rest) } => match_form(
                    *rest,
                    rest_of_list(form, from as int),
                    literals,
                    env,
                    repeated,
                ),
                _ => None,
            },
        }
    } else if has_ellipsis(patterns, at as int) {
        match_ellipsis(pattern, at, form, from, 0, literals, env, repeated)
    } else if from >= items.len() {
        None
    } else {
        match match_form(patterns[at as int], items[from as int], literals, env, repeated) {
            None => None,
            Some(env) => match_segments(pattern, at + 1, form, from + 1, literals, env, repeated),
        }
    }
}

/// Matches an item under an ellipsis with as few items as let the rest match, from `consumed`
/// on.
pub open spec fn match_ellipsis(
    pattern: Form,
    at: nat,
    form: Form,
    from: nat,
    consumed: nat,
    literals: Set<Seq<char>>,
    env: Bindings,
    repeated: bool,
) -> Option<Bindings>
    decreases pattern, 2 * (list_items(pattern).len() - at), list_items(form).len() - from - consumed + 1,
{
    let patterns = list_items(pattern);
    let items = list_items(form);
    if at >= patterns.len() || from + consumed > items.len() {
        None
    } else {
        let found = match match_repeated(patterns[at as int], items, from, consumed, literals, env) {
            None => None,
            Some(trial) => if at + 2 <= patterns.len() {
                match_segments(pattern, at + 2, form, from + consumed, literals, trial, repeated)
            } else {
                None
            },
        };
        match found {
            Some(found) => Some(found),
            None => match_ellipsis(pattern, at, form, from, consumed + 1, literals, env, repeated),
        }
    }
}

/// Matches a pattern with each of `count` items from `from` on.
pub open spec fn match_repeated(
    pattern: Form,
    items: Seq<Form>,
    from: nat,
    count: nat,
    literals: Set<Seq<char>>,
    env: Bindings,
) -> Option<Bindings>
    decreases pattern, 2 * list_items(pattern).len() + 3, count,
{
    if count == 0 {
        Some(env)
    } else {
        match match_repeated(pattern, items, from, (count - 1) as nat, literals, env) {
            None => None,
            Some(env) => match_form(pattern, items[from + count - 1], literals, env, true),
        }
    }
}

/// What came of a match, as contracts speak of it.
pub open spec fn found_bindings(found: Option<MatchEnv>) -> Option<Bindings> {
    match found {
        Some(env) => Some(env@),
        None => None,
    }
}

impl MatchEnv {
    /// Bindings of no variable.
    pub fn new() -> (env: MatchEnv)
        ensures
            env@ == no_bindings(),
    {
        MatchEnv { singles: NameMap::new(), repeats: NameMap::new() }
    }
}

fn match_identifier_pattern(symbol: &String, expr: &Expr, literals: &NameSet, env: MatchEnv, repeated: bool) -> (found: Option<
    MatchEnv,
>)
    ensures
        found_bindings(found) == match_identifier(symbol@, expr@, literals@, env@, repeated),
{
    reveal(match_identifier);
    if same(symbol.as_str(), "_") {
        return Some(env);
    }
    if literals.contains(symbol.as_str()) {
        if is_symbol(expr, symbol.as_str()) {
            return Some(env);
        }
        return None;
    }
    if repeated {
        let mut row = match env.repeats.get(symbol.as_str()) {
            Some(row) => row.duplicate(),
            None => {
                let row = ExprRow { items: Vec::new() };
                assert(row@ =~= Seq::<Form>::empty());
                row
            },
        };
        let ghost before = row@;
        row.items.push(expr.duplicate());
        assert(row@ =~= before.push(expr@));
        let mut repeats = env.repeats;
        repeats.insert(symbol.clone(), row);
        return Some(MatchEnv { singles: env.singles, repeats });
    }
    match env.singles.get(symbol.as_str()) {
        Some(bound) => {
            if same_expr(bound, expr) {
                Some(env)
            } else {
                None
            }
        },
        None => {
            let mut singles = env.singles;
            singles.insert(symbol.clone(), expr.duplicate());
            Some(MatchEnv { singles, repeats: env.repeats })
        },
    }
}

/// What is left of a list from an item on.
pub fn rebuild_list_expr(expr: &Expr, from: usize) -> (rest: Expr)
    requires
        expr.kind is List,
        from <= list_items(expr@).len(),
    ensures
        rest@ == rest_of_list(expr@, from as int),
{
    proof {
        lemma_list_form(*expr);
    }
    match &expr.kind {
        ExprKind::List { items, tail } => {
            let start = match tail {
                Some(tail) => tail.span,
                None => Span::default(),
            };
            let mut span = start;
            let mut index: usize = from;
            while index < items.len()
                invariant
                    from <= index <= items@.len(),
                    span == span_over(forms_of(items@), from as int, index as int, start),
                decreases items@.len() - index,
            {
                span = span.merge(items[index].span);
                assert(forms_of(items@)[index as int].span == items@[index as int].span);
                index = index + 1;
            }
            dotted_expr(clone_exprs(items, from), clone_tail(tail), span)
        },
        _ => dotted_expr(Vec::new(), None, expr.span),
    }
}

/// Matches a pattern.
pub fn match_pattern(pattern: &Expr, expr: &Expr, literals: &NameSet, env: MatchEnv, repeated: bool) -> (found: Option<
    MatchEnv,
>)
    ensures
        found_bindings(found) == match_form(pattern@, expr@, literals@, env@, repeated),
    decreases *pattern, 2 * list_items(pattern@).len() + 2, 0nat,
{
    proof {
        lemma_list_form(*pattern);
        lemma_list_form(*expr);
    }
    match (&pattern.kind, &expr.kind) {
        (ExprKind::Integer(left), ExprKind::Integer(right)) => {
            if *left == *right {
                Some(env)
            } else {
                None
            }
        },
        (ExprKind::Boolean(left), ExprKind::Boolean(right)) => {
            if *left == *right {
                Some(env)
            } else {
                None
            }
        },
        (ExprKind::Char(left), ExprKind::Char(right)) => {
            if *left == *right {
                Some(env)
            } else {
                None
            }
        },
        (ExprKind::String(left), ExprKind::String(right)) => {
            if same(left.as_str(), right.as_str()) {
                Some(env)
            } else {
                None
            }
        },
        (ExprKind::Quote(left), ExprKind::Quote(right)) => match_pattern(left, right, literals, env, repeated),
        (ExprKind::Symbol(symbol), _) => match_identifier_pattern(symbol, expr, literals, env, repeated),
        (ExprKind::List { items: _, tail: _ }, ExprKind::List { items: _, tail: _ }) => match_list_segments(
            pattern,
            0,
            expr,
            0,
            literals,
            env,
            repeated,
        ),
        _ => None,
    }
}

fn match_list_segments(
    pattern: &Expr,
    at: usize,
    expr: &Expr,
    from: usize,
    literals: &NameSet,
    env: MatchEnv,
    repeated: bool,
) -> (found: Option<MatchEnv>)
    requires
        pattern.kind is List,
        expr.kind is List,
        at <= list_items(pattern@).len(),
        from <= list_items(expr@).len(),
    ensures
        found_bindings(found) == match_segments(
            pattern@,
            at as nat,
            expr@,
            from as nat,
            literals@,
            env@,
            repeated,
        ),
    decreases *pattern, 2 * (list_items(pattern@).len() - at) + 1, 0nat,
{
    proof {
        lemma_list_form(*pattern);
        lemma_list_form(*expr);
    }
    if let ExprKind::List { items: patterns, tail: pattern_tail } = &pattern.kind {
        if let ExprKind::List { items, tail } = &expr.kind {
            if at >= patterns.len() {
                match pattern_tail {
                    None => {
                        if from >= items.len() && tail.is_none() {
                            return Some(env);
                        }
                        return None;
                    },
                    Some(rest) => {
                        let remaining = rebuild_list_expr(expr, from);
                        return match_pattern(rest, &remaining, literals, env, repeated);
                    },
                }
            }
            assert(forms_of(patterns@)[at as int] == patterns@[at as int]@);
            if patterns.len() - at >= 2 && is_symbol(&patterns[at + 1], "...") {
                assert(has_ellipsis(list_items(pattern@), at as int));
                return match_list_ellipsis(pattern, at, expr, from, 0, literals, env, repeated);
            }
            assert(!has_ellipsis(list_items(pattern@), at as int));
            if from >= items.len() {
                return None;
            }
            assert(forms_of(items@)[from as int] == items@[from as int]@);
            let found = match_pattern(&patterns[at], &items[from], literals, env, repeated);
            return match found {
                None => None,
                Some(env) => match_list_segments(pattern, at + 1, expr, from + 1, literals, env, repeated),
            };
        }
    }
    None
}

fn match_list_ellipsis(
    pattern: &Expr,
    at: usize,
    expr: &Expr,
    from: usize,
    consumed: usize,
    literals: &NameSet,
    env: MatchEnv,
    repeated: bool,
) -> (found: Option<MatchEnv>)
    requires
        pattern.kind is List,
        expr.kind is List,
        has_ellipsis(list_items(pattern@), at as int),
        from + consumed <= list_items(expr@).len(),
    ensures
        found_bindings(found) == match_ellipsis(
            pattern@,
            at as nat,
            expr@,
            from as nat,
            consumed as nat,
            literals@,
            env@,
            repeated,
        ),
    decreases
            *pattern,
            2 * (list_items(pattern@).len() - at),
            list_items(expr@).len() - from - consumed + 1,
{
    proof {
        lemma_list_form(*pattern);
        lemma_list_form(*expr);
    }
    if let ExprKind::List { items: patterns, tail: _ } = &pattern.kind {
        if let ExprKind::List { items, tail: _ } = &expr.kind {
            assert(at + 2 <= patterns.len());
            assert(from + consumed <= items.len());
            assert(forms_of(patterns@)[at as int] == patterns@[at as int]@);
            let trial = match_each(&patterns[at], items, from, consumed, literals, env.duplicate());
            if let Some(trial) = trial {
                let found = match_list_segments(
                    pattern,
                    at + 2,
                    expr,
                    from + consumed,
                    literals,
                    trial,
                    repeated,
                );
                if found.is_some() {
                    return found;
                }
            }
            if from + consumed == items.len() {
                reveal_with_fuel(match_ellipsis, 2);
                return None;
            }
            return match_list_ellipsis(pattern, at, expr, from, consumed + 1, literals, env, repeated);
        }
    }
    None
}

fn match_each(pattern: &Expr, items: &Vec<Expr>, from: usize, count: usize, literals: &NameSet, env: MatchEnv) -> (found: Option<
    MatchEnv,
>)
    requires
        from + count <= items@.len(),
    ensures
        found_bindings(found) == match_repeated(
            pattern@,
            forms_of(items@),
            from as nat,
            count as nat,
            literals@,
            env@,
        ),
    decreases *pattern, 2 * list_items(pattern@).len() + 3, count,
{
    if count == 0 {
        return Some(env);
    }
    assert(from + count <= items.len());
    match match_each(pattern, items, from, count - 1, literals, env) {
        None => None,
        Some(env) => {
            let index: usize = from + (count - 1);
            assert(forms_of(items@)[index as int] == items@[index as int]@);
            match_pattern(pattern, &items[index], literals, env, true)
        },
    }
}

/// How often a template under an ellipsis is repeated: as often as the variables in it that
/// collect forms have collected. They must agree.
pub open spec fn counted_repeats(template: Form, env: Bindings, count: Option<nat>) -> Result<Option<nat>, Problem>
    decreases template, 1nat, 0nat,
{
    match template.kind {
        FormKind::Symbol(name) => if env.repeats.contains_key(name) {
            match count {
                Some(existing) => if existing != env.repeats[name].len() {
                    Err(Problem::Expand("mismatched ellipsis binding lengths in syntax-rules template"@))
                } else {
                    Ok(count)
                },
                None => Ok(Some(env.repeats[name].len())),
            }
        } else {
            Ok(count)
        },
        FormKind::List { items, tail } => match counted_in_items(items, env, count, items.len()) {
            Err(problem) => Err(problem),
            Ok(count) => match tail {
                Some(tail) => counted_repeats(*tail, env, count),
                None => Ok(count),
            },
        },
        FormKind::Quote(inner) => counted_repeats(*inner, env, count),
        _ => Ok(count),
    }
}

/// The same over the first `end` of a row of templates.
pub open spec fn counted_in_items(items: Seq<Form>, env: Bindings, count: Option<nat>, end: nat) -> Result<Option<nat>, Problem>
    decreases items, 0nat, end,
{
    if end == 0 || end > items.len() {
        Ok(count)
    } else {
        match counted_in_items(items, env, count, (end - 1) as nat) {
            Err(problem) => Err(problem),
            Ok(count) => counted_repeats(items[end - 1], env, count),
        }
    }
}

/// How often a template under an ellipsis is repeated.
#[verifier::opaque]
pub open spec fn repeats_of(template: Form, env: Bindings) -> Result<nat, Problem> {
    match counted_repeats(template, env, None) {
        Err(problem) => Err(problem),
        Ok(Some(count)) => Ok(count),
        Ok(None) => Err(
            Problem::Expand("ellipsis template must reference at least one repeated pattern variable"@),
        ),
    }
}

/// A count that contracts speak of as a number.
pub open spec fn as_count(count: Option<usize>) -> Option<nat> {
    match count {
        Some(count) => Some(count as nat),
        None => None,
    }
}

fn collect_repeat_count(template: &Expr, env: &MatchEnv, count: Option<usize>) -> (result: Result<
    Option<usize>,
    CompileError,
>)
    ensures
        match result {
            Ok(total) => counted_repeats(template@, env@, as_count(count)) == Ok::<Option<nat>, Problem>(
                as_count(total),
            ),
            Err(error) => counted_repeats(template@, env@, as_count(count)) == Err::<Option<nat>, Problem>(
                error@,
            ),
        },
    decreases *template, 1nat, 0nat,
{
    proof {
        lemma_list_form(*template);
    }
    match &template.kind {
        ExprKind::Symbol(symbol) => {
            if let Some(values) = env.repeats.get(symbol.as_str()) {
                match count {
                    Some(existing) => {
                        if existing != values.items.len() {
                            return Err(
                                CompileError::Expand(
                                    "mismatched ellipsis binding lengths in syntax-rules template".to_owned(),
                                ),
                            );
                        }
                        Ok(count)
                    },
                    None => Ok(Some(values.items.len())),
                }
            } else {
                Ok(count)
            }
        },
        ExprKind::List { items, tail } => {
            let count = collect_repeat_counts(items, env, count, items.len())?;
            match tail {
                Some(tail) => collect_repeat_count(tail, env, count),
                None => Ok(count),
            }
        },
        ExprKind::Quote(inner) => collect_repeat_count(inner, env, count),
        _ => Ok(count),
    }
}

fn collect_repeat_counts(items: &Vec<Expr>, env: &MatchEnv, count: Option<usize>, end: usize) -> (result: Result<
    Option<usize>,
    CompileError,
>)
    requires
        end <= items@.len(),
    ensures
        match result {
            Ok(total) => counted_in_items(forms_of(items@), env@, as_count(count), end as nat) == Ok::<
                Option<nat>,
                Problem,
            >(as_count(total)),
            Err(error) => counted_in_items(forms_of(items@), env@, as_count(count), end as nat) == Err::<
                Option<nat>,
                Problem,
            >(error@),
        },
    decreases items@, 0nat, end,
{
    if end == 0 {
        return Ok(count);
    }
    let count = collect_repeat_counts(items, env, count, end - 1)?;
    assert(forms_of(items@)[end - 1] == items@[end - 1]@);
    collect_repeat_count(&items[end - 1], env, count)
}

/// How often a template under an ellipsis is repeated.
pub fn repeat_count_for_template(template: &Expr, env: &MatchEnv) -> (result: Result<usize, CompileError>)
    ensures
        match result {
            Ok(count) => repeats_of(template@, env@) == Ok::<nat, Problem>(count as nat),
            Err(error) => repeats_of(template@, env@) == Err::<nat, Problem>(error@),
        },
{
    reveal(repeats_of);
    match collect_repeat_count(template, env, None)? {
        Some(count) => Ok(count),
        None => Err(
            CompileError::Expand(
                "ellipsis template must reference at least one repeated pattern variable".to_owned(),
            ),
        ),
    }
}

} // verus!
