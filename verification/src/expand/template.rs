//! Templates of macro rules.
//!
//! Names that a template binds are replaced by new ones, so that they capture nothing at the
//! place where the macro is used; names that it refers to are those of the place where the
//! macro was defined.
use crate::error::{CompileError, Problem};
use crate::expand::forms::{
    as_proper_list, clone_tail, dotted_expr, dotted_form, is_symbol, list_expr, list_form, list_items, list_tail,
    prepend, prepend_two, proper_items, required_symbol, symbol_expr, symbol_form, symbol_name, symbol_of,
    symbol_value, tail_form,
};
use crate::expand::matching::{
    has_ellipsis, repeat_count_for_template, repeats_of, Bindings, MatchEnv,
};
use crate::expand::outcome::{fresh_name, grown, grown_row, halted, Growth, Halt, NameSource, Stop};
use crate::frontend::ast::{forms_of, lemma_list_form, Expr, ExprKind, Form, FormKind};
use crate::names::{Duplicate, NameMap};
use crate::text::{join3, same};
use vstd::prelude::*;

verus! {

broadcast use vstd::seq_lib::group_seq_properties;

/// New names for the names that a template has bound.
pub type Renames = Map<Seq<char>, Seq<char>>;

/// What a template is filled with: what names of the place of the definition are called, what
/// the pattern variables stand for, and which of the forms of those that collect is meant.
pub struct Filling {
    pub values: Map<Seq<char>, Seq<char>>,
    pub env: Bindings,
    pub repetition: Option<nat>,
}

/// What a symbol of a template becomes.
#[verifier::opaque]
pub open spec fn fill_symbol(template: Form, name: Seq<char>, filling: Filling, scope: Renames) -> Result<Form, Problem> {
    if filling.repetition is Some && filling.env.repeats.contains_key(name) {
        let row = filling.env.repeats[name];
        if filling.repetition->0 < row.len() {
            Ok(row[filling.repetition->0 as int])
        } else {
            Err(Problem::Expand("missing repeated template binding for '"@ + name + "'"@))
        }
    } else if filling.env.singles.contains_key(name) {
        Ok(filling.env.singles[name])
    } else if scope.contains_key(name) {
        Ok(symbol_form(scope[name], template.span))
    } else if filling.values.contains_key(name) {
        Ok(symbol_form(filling.values[name], template.span))
    } else {
        Ok(template)
    }
}

/// Whether a symbol starts a form that binds names one by one.
pub open spec fn is_let_keyword(name: Seq<char>) -> bool {
    name == "let"@ || name == "let*"@ || name == "letrec"@ || name == "letrec*"@
}

/// What a template becomes.
pub open spec fn fill(template: Form, filling: Filling, scope: Renames, counter: nat) -> Growth<Form>
    decreases template, 30nat, 0nat,
{
    match template.kind {
        FormKind::Symbol(name) => match fill_symbol(template, name, filling, scope) {
            Ok(form) => Ok((counter, form)),
            Err(problem) => Err(Stop::Failed(problem)),
        },
        FormKind::List { items, tail } => fill_list(template, filling, scope, counter),
        FormKind::Quote(inner) => match fill(*inner, filling, scope, counter) {
            Err(stop) => Err(stop),
            Ok((counter, inner)) => Ok(
                (counter, Form { kind: FormKind::Quote(Box::new(inner)), span: template.span }),
            ),
        },
        _ => Ok((counter, template)),
    }
}

/// What a list of a template becomes. Forms that bind names have their own rules.
pub open spec fn fill_list(template: Form, filling: Filling, scope: Renames, counter: nat) -> Growth<Form>
    decreases template, 25nat, 0nat,
{
    let items = list_items(template);
    let keyword = if items.len() > 0 { symbol_of(items[0]) } else { None };
    if keyword == Some("lambda"@) {
        fill_lambda(template, filling, scope, counter)
    } else if keyword is Some && is_let_keyword(keyword->0) {
        fill_let(template, keyword->0, filling, scope, counter)
    } else if keyword == Some("set!"@) {
        fill_set(template, filling, scope, counter)
    } else if keyword == Some("define"@) {
        fill_define(template, filling, scope, counter)
    } else {
        fill_plain(template, filling, scope, counter)
    }
}

/// What a list becomes that binds nothing.
pub open spec fn fill_plain(template: Form, filling: Filling, scope: Renames, counter: nat) -> Growth<Form>
    decreases template, 20nat, 0nat,
{
    match fill_items(template, 0, filling, scope, counter) {
        Err(stop) => Err(stop),
        Ok((counter, items)) => match template.kind {
            FormKind::List { items: _, tail: Some(tail) } => match fill(*tail, filling, scope, counter) {
                Err(stop) => Err(stop),
                Ok((counter, tail)) => Ok((counter, dotted_form(items, Some(Box::new(tail)), template.span))),
            },
            _ => Ok((counter, list_form(items, template.span))),
        },
    }
}

/// What the items of a list become from an item on. An item before an ellipsis is repeated.
pub open spec fn fill_items(template: Form, index: nat, filling: Filling, scope: Renames, counter: nat) -> Growth<Seq<Form>>
    decreases template, 10nat, list_items(template).len() - index,
{
    let items = list_items(template);
    if index >= items.len() {
        Ok((counter, Seq::empty()))
    } else {
        let (first, next) = if has_ellipsis(items, index as int) {
            match repeats_of(items[index as int], filling.env) {
                Err(problem) => (Err(Stop::Failed(problem)), index + 2),
                Ok(count) => (
                    fill_repeats(items[index as int], count, filling, scope, counter),
                    index + 2,
                ),
            }
        } else {
            match fill(items[index as int], filling, scope, counter) {
                Err(stop) => (Err(stop), index + 1),
                Ok((counter, form)) => (Ok((counter, seq![form])), index + 1),
            }
        };
        match first {
            Err(stop) => Err(stop),
            Ok((counter, forms)) => match fill_items(template, next, filling, scope, counter) {
                Err(stop) => Err(stop),
                Ok((counter, rest)) => Ok((counter, forms + rest)),
            },
        }
    }
}

/// The first `count` repetitions of a template.
pub open spec fn fill_repeats(template: Form, count: nat, filling: Filling, scope: Renames, counter: nat) -> Growth<Seq<Form>>
    decreases template, 31nat, count,
{
    if count == 0 {
        Ok((counter, Seq::empty()))
    } else {
        match fill_repeats(template, (count - 1) as nat, filling, scope, counter) {
            Err(stop) => Err(stop),
            Ok((counter, before)) => match fill(
                template,
                Filling { repetition: Some((count - 1) as nat), ..filling },
                scope,
                counter,
            ) {
                Err(stop) => Err(stop),
                Ok((counter, form)) => Ok((counter, before.push(form))),
            },
        }
    }
}

/// What the items of a list from an item on become, each of which is filled in by itself.
pub open spec fn fill_each(template: Form, index: nat, filling: Filling, scope: Renames, counter: nat) -> Growth<Seq<Form>>
    decreases template, 10nat, list_items(template).len() - index,
{
    let items = list_items(template);
    if index >= items.len() {
        Ok((counter, Seq::empty()))
    } else {
        match fill(items[index as int], filling, scope, counter) {
            Err(stop) => Err(stop),
            Ok((counter, form)) => match fill_each(template, index + 1, filling, scope, counter) {
                Err(stop) => Err(stop),
                Ok((counter, rest)) => Ok((counter, seq![form] + rest)),
            },
        }
    }
}

/// What a name becomes that a template binds: the form and its name. A name that the pattern
/// brought in stays; any other gets a new name.
pub open spec fn fill_binder(binder: Form, filling: Filling, scope: Renames, counter: nat) -> Growth<(Form, Seq<char>)>
    decreases binder, 40nat, 0nat,
{
    match fill(binder, filling, scope, counter) {
        Err(stop) => Err(stop),
        Ok((counter, form)) => match required_symbol(form, "macro-generated binder"@) {
            Err(problem) => Err(Stop::Failed(problem)),
            Ok(name) => if filling.env.singles.contains_key(name) || filling.env.repeats.contains_key(name) {
                Ok((counter, (form, name)))
            } else {
                match fresh_name("__macro_"@, name, counter) {
                    Err(stop) => Err(stop),
                    Ok((counter, fresh)) => Ok((counter, (symbol_form(fresh, form.span), fresh))),
                }
            },
        },
    }
}

/// What a parameter list becomes, and the new names that its body sees.
pub open spec fn fill_formals(formals: Form, filling: Filling, scope: Renames, counter: nat) -> Growth<(Form, Renames)>
    decreases formals, 50nat, 0nat,
{
    match formals.kind {
        FormKind::Symbol(name) => match fill_binder(formals, filling, scope, counter) {
            Err(stop) => Err(stop),
            Ok((counter, (binder, renamed))) => Ok((counter, (binder, scope.insert(name, renamed)))),
        },
        FormKind::List { items, tail } => match fill_params(formals, 0, filling, scope, counter) {
            Err(stop) => Err(stop),
            Ok((counter, (items, tail, scope))) => Ok(
                (counter, (dotted_form(items, tail, formals.span), scope)),
            ),
        },
        _ => Err(
            Stop::Failed(
                Problem::Expand("macro-generated formals must be identifiers or a proper parameter list"@),
            ),
        ),
    }
}

/// What the parameters from one on become, with the rest parameter, and the new names.
pub open spec fn fill_params(formals: Form, index: nat, filling: Filling, scope: Renames, counter: nat) -> Growth<
    (Seq<Form>, Option<Box<Form>>, Renames),
>
    decreases formals, 15nat, list_items(formals).len() - index,
{
    let items = list_items(formals);
    if index >= items.len() {
        match formals.kind {
            FormKind::List { items: _, tail: Some(tail) } => match required_symbol(
                *tail,
                "template rest formal"@,
            ) {
                Err(problem) => Err(Stop::Failed(problem)),
                Ok(original) => match fill_binder(*tail, filling, scope, counter) {
                    Err(stop) => Err(stop),
                    Ok((counter, (binder, renamed))) => Ok(
                        (
                            counter,
                            (Seq::empty(), Some(Box::new(binder)), scope.insert(original, renamed)),
                        ),
                    ),
                },
            },
            _ => Ok((counter, (Seq::empty(), None, scope))),
        }
    } else {
        match required_symbol(items[index as int], "template formal"@) {
            Err(problem) => Err(Stop::Failed(problem)),
            Ok(original) => match fill_binder(items[index as int], filling, scope, counter) {
                Err(stop) => Err(stop),
                Ok((counter, (binder, renamed))) => match fill_params(
                    formals,
                    index + 1,
                    filling,
                    scope.insert(original, renamed),
                    counter,
                ) {
                    Err(stop) => Err(stop),
                    Ok((counter, (rest, tail, scope))) => Ok((counter, (seq![binder] + rest, tail, scope))),
                },
            },
        }
    }
}

/// What a lambda expression of a template becomes.
pub open spec fn fill_lambda(template: Form, filling: Filling, scope: Renames, counter: nat) -> Growth<Form>
    decreases template, 20nat, 0nat,
{
    let items = list_items(template);
    if items.len() < 3 {
        Ok((counter, template))
    } else {
        match fill_formals(items[1], filling, scope, counter) {
            Err(stop) => Err(stop),
            Ok((counter, (formals, body_scope))) => match fill_each(template, 2, filling, body_scope, counter) {
                Err(stop) => Err(stop),
                Ok((counter, body)) => Ok(
                    (
                        counter,
                        dotted_form(seq![items[0], formals] + body, list_tail(template), template.span),
                    ),
                ),
            },
        }
    }
}

/// What a definition of a template becomes.
pub open spec fn fill_define(template: Form, filling: Filling, scope: Renames, counter: nat) -> Growth<Form>
    decreases template, 20nat, 0nat,
{
    let items = list_items(template);
    if items.len() < 3 {
        Ok((counter, template))
    } else {
        match items[1].kind {
            FormKind::Symbol(name) => match fill_binder(items[1], filling, scope, counter) {
                Err(stop) => Err(stop),
                Ok((counter, (target, renamed))) => match fill_each(template, 2, filling, scope, counter) {
                    Err(stop) => Err(stop),
                    Ok((counter, body)) => Ok(
                        (counter, list_form(seq![items[0], target] + body, template.span)),
                    ),
                },
            },
            FormKind::List { items: signature, tail } => if signature.len() == 0 {
                Ok((counter, template))
            } else {
                match fill_binder(signature[0], filling, scope, counter) {
                    Err(stop) => Err(stop),
                    Ok((counter, (name, renamed))) => match fill_params(items[1], 1, filling, scope, counter) {
                        Err(stop) => Err(stop),
                        Ok((counter, (params, rest, body_scope))) => match fill_each(
                            template,
                            2,
                            filling,
                            body_scope,
                            counter,
                        ) {
                            Err(stop) => Err(stop),
                            Ok((counter, body)) => Ok(
                                (
                                    counter,
                                    list_form(
                                        seq![
                                            items[0],
                                            dotted_form(seq![name] + params, rest, items[1].span),
                                        ] + body,
                                        template.span,
                                    ),
                                ),
                            ),
                        },
                    },
                }
            },
            _ => Ok((counter, template)),
        }
    }
}

/// What an assignment of a template becomes.
pub open spec fn fill_set(template: Form, filling: Filling, scope: Renames, counter: nat) -> Growth<Form>
    decreases template, 20nat, 0nat,
{
    let items = list_items(template);
    if items.len() != 3 {
        Ok((counter, template))
    } else {
        match fill(items[1], filling, scope, counter) {
            Err(stop) => Err(stop),
            Ok((counter, target)) => match fill(items[2], filling, scope, counter) {
                Err(stop) => Err(stop),
                Ok((counter, value)) => Ok(
                    (counter, list_form(seq![items[0], target, value], template.span)),
                ),
            },
        }
    }
}

/// What the bindings from one on become, and the new names that the body sees. Nothing where
/// a binding is no list of two.
pub open spec fn fill_bindings(
    bindings: Form,
    index: nat,
    keyword: Seq<char>,
    filling: Filling,
    scope: Renames,
    body_scope: Renames,
    counter: nat,
) -> Growth<Option<(Seq<Form>, Renames)>>
    decreases bindings, 15nat, list_items(bindings).len() - index,
{
    let items = list_items(bindings);
    if index >= items.len() {
        Ok((counter, Some((Seq::empty(), body_scope))))
    } else {
        match items[index as int].kind {
            FormKind::List { items: parts, tail: None } => if parts.len() != 2 {
                Ok((counter, None))
            } else {
                match fill_binder(parts[0], filling, body_scope, counter) {
                    Err(stop) => Err(stop),
                    Ok((counter, (binder, renamed))) => match fill(
                        parts[1],
                        filling,
                        if keyword == "let"@ { scope } else { body_scope },
                        counter,
                    ) {
                        Err(stop) => Err(stop),
                        Ok((counter, init)) => match required_symbol(parts[0], "template binding name"@) {
                            Err(problem) => Err(Stop::Failed(problem)),
                            Ok(original) => match fill_bindings(
                                bindings,
                                index + 1,
                                keyword,
                                filling,
                                scope,
                                body_scope.insert(original, renamed),
                                counter,
                            ) {
                                Err(stop) => Err(stop),
                                Ok((counter, None)) => Ok((counter, None)),
                                Ok((counter, Some((rest, body_scope)))) => Ok(
                                    (
                                        counter,
                                        Some(
                                            (
                                                seq![
                                                    list_form(
                                                        seq![binder, init],
                                                        items[index as int].span,
                                                    ),
                                                ] + rest,
                                                body_scope,
                                            ),
                                        ),
                                    ),
                                ),
                            },
                        },
                    },
                }
            },
            _ => Ok((counter, None)),
        }
    }
}

/// What a `let` or one of its relatives in a template becomes.
pub open spec fn fill_let(template: Form, keyword: Seq<char>, filling: Filling, scope: Renames, counter: nat) -> Growth<Form>
    decreases template, 20nat, 0nat,
{
    let items = list_items(template);
    if items.len() < 3 || proper_items(items[1]) is None {
        Ok((counter, template))
    } else {
        match fill_bindings(items[1], 0, keyword, filling, scope, scope, counter) {
            Err(stop) => Err(stop),
            Ok((counter, None)) => Ok((counter, template)),
            Ok((counter, Some((bindings, body_scope)))) => match fill_each(
                template,
                2,
                filling,
                body_scope,
                counter,
            ) {
                Err(stop) => Err(stop),
                Ok((counter, body)) => Ok(
                    (
                        counter,
                        list_form(
                            seq![items[0], list_form(bindings, items[1].span)] + body,
                            template.span,
                        ),
                    ),
                ),
            },
        }
    }
}

/// Fills templates in: what names of the place of the definition are called, and what the
/// pattern variables stand for.
pub struct TemplateFiller<'a> {
    pub values: &'a NameMap<String>,
    pub env: &'a MatchEnv,
}

/// What a template is filled with.
pub open spec fn filling_of(filler: TemplateFiller, repetition: Option<usize>) -> Filling {
    Filling {
        values: filler.values@,
        env: filler.env@,
        repetition: match repetition {
            Some(repetition) => Some(repetition as nat),
            None => None,
        },
    }
}

impl<'a> TemplateFiller<'a> {
    fn expand_template_symbol(&self, template: &Expr, symbol: &String, repetition: Option<usize>, scope: &NameMap<String>) -> (result: Result<
        Expr,
        CompileError,
    >)
        ensures
            match result {
                Ok(form) => fill_symbol(template@, symbol@, filling_of(*self, repetition), scope@) == Ok::<
                    Form,
                    Problem,
                >(form@),
                Err(error) => fill_symbol(template@, symbol@, filling_of(*self, repetition), scope@) == Err::<
                    Form,
                    Problem,
                >(error@),
            },
    {
        reveal(fill_symbol);
        if let Some(index) = repetition {
            if let Some(values) = self.env.repeats.get(symbol.as_str()) {
                if index < values.items.len() {
                    return Ok(values.items[index].duplicate());
                }
                return Err(
                    CompileError::Expand(
                        join3("missing repeated template binding for '", symbol.as_str(), "'"),
                    ),
                );
            }
        }
        if let Some(value) = self.env.singles.get(symbol.as_str()) {
            return Ok(value.duplicate());
        }
        if let Some(renamed) = scope.get(symbol.as_str()) {
            return Ok(symbol_expr(renamed.as_str(), template.span));
        }
        if let Some(bound) = self.values.get(symbol.as_str()) {
            return Ok(symbol_expr(bound.as_str(), template.span));
        }
        Ok(template.duplicate())
    }

    /// What a template becomes.
    pub fn expand_template(
        &self,
        template: &Expr,
        repetition: Option<usize>,
        scope: &NameMap<String>,
        names: &mut NameSource,
    ) -> (result: Result<Expr, Halt>)
        ensures
            grown(
                result,
                final(names)@,
                fill(template@, filling_of(*self, repetition), scope@, old(names)@),
            ),
        decreases *template, 30nat, 0nat,
    {
        match &template.kind {
            ExprKind::Symbol(symbol) => halted(self.expand_template_symbol(template, symbol, repetition, scope)),
            ExprKind::List { items: _, tail: _ } => self.expand_template_list(template, repetition, scope, names),
            ExprKind::Quote(inner) => {
                let filled = self.expand_template(inner, repetition, scope, names)?;
                Ok(Expr { kind: ExprKind::Quote(Box::new(filled)), span: template.span })
            },
            _ => Ok(template.duplicate()),
        }
    }

    fn expand_template_list(
        &self,
        template: &Expr,
        repetition: Option<usize>,
        scope: &NameMap<String>,
        names: &mut NameSource,
    ) -> (result: Result<Expr, Halt>)
        requires
            template.kind is List,
        ensures
            grown(
                result,
                final(names)@,
                fill_list(template@, filling_of(*self, repetition), scope@, old(names)@),
            ),
        decreases *template, 25nat, 0nat,
    {
        proof {
            lemma_list_form(*template);
        }
        if let ExprKind::List { items, tail: _ } = &template.kind {
            if items.len() > 0 {
                assert(forms_of(items@)[0] == items@[0]@);
                if let Some(keyword) = symbol_value(&items[0]) {
                    if same(keyword, "lambda") {
                        return self.expand_template_lambda(template, repetition, scope, names);
                    }
                    if same(keyword, "let") || same(keyword, "let*") || same(keyword, "letrec") || same(
                        keyword,
                        "letrec*",
                    ) {
                        return self.expand_template_let_like(template, keyword, repetition, scope, names);
                    }
                    if same(keyword, "set!") {
                        return self.expand_template_set(template, repetition, scope, names);
                    }
                    if same(keyword, "define") {
                        return self.expand_template_define(template, repetition, scope, names);
                    }
                }
            }
        }
        self.expand_template_plain(template, repetition, scope, names)
    }

    fn expand_template_plain(
        &self,
        template: &Expr,
        repetition: Option<usize>,
        scope: &NameMap<String>,
        names: &mut NameSource,
    ) -> (result: Result<Expr, Halt>)
        requires
            template.kind is List,
        ensures
            grown(
                result,
                final(names)@,
                fill_plain(template@, filling_of(*self, repetition), scope@, old(names)@),
            ),
        decreases *template, 20nat, 0nat,
    {
        proof {
            lemma_list_form(*template);
        }
        let items = self.expand_template_items(template, 0, repetition, scope, names)?;
        if let ExprKind::List { items: _, tail: Some(tail) } = &template.kind {
            let filled = self.expand_template(tail, repetition, scope, names)?;
            return Ok(dotted_expr(items, Some(Box::new(filled)), template.span));
        }
        Ok(list_expr(items, template.span))
    }

    fn expand_template_items(
        &self,
        template: &Expr,
        index: usize,
        repetition: Option<usize>,
        scope: &NameMap<String>,
        names: &mut NameSource,
    ) -> (result: Result<Vec<Expr>, Halt>)
        requires
            template.kind is List,
            index <= list_items(template@).len(),
        ensures
            grown_row(
                result,
                final(names)@,
                fill_items(template@, index as nat, filling_of(*self, repetition), scope@, old(names)@),
            ),
        decreases *template, 10nat, list_items(template@).len() - index,
    {
        proof {
            lemma_list_form(*template);
        }
        if let ExprKind::List { items, tail: _ } = &template.kind {
            if index < items.len() {
                assert(forms_of(items@)[index as int] == items@[index as int]@);
                if items.len() - index >= 2 && is_symbol(&items[index + 1], "...") {
                    assert(has_ellipsis(forms_of(items@), index as int));
                    let count: usize = halted(repeat_count_for_template(&items[index], self.env))?;
                    let mut forms = self.expand_template_repeats(
                        &items[index],
                        count,
                        repetition,
                        scope,
                        names,
                    )?;
                    let mut rest = self.expand_template_items(template, index + 2, repetition, scope, names)?;
                    let ghost first = forms_of(forms@);
                    let ghost more = forms_of(rest@);
                    forms.append(&mut rest);
                    assert(forms_of(forms@) =~= first + more);
                    return Ok(forms);
                }
                assert(!has_ellipsis(forms_of(items@), index as int));
                let form = self.expand_template(&items[index], repetition, scope, names)?;
                let rest = self.expand_template_items(template, index + 1, repetition, scope, names)?;
                return Ok(prepend(form, rest));
            }
        }
        let none: Vec<Expr> = Vec::new();
        assert(forms_of(none@) =~= Seq::<Form>::empty());
        Ok(none)
    }

    fn expand_template_repeats(
        &self,
        template: &Expr,
        count: usize,
        repetition: Option<usize>,
        scope: &NameMap<String>,
        names: &mut NameSource,
    ) -> (result: Result<Vec<Expr>, Halt>)
        ensures
            grown_row(
                result,
                final(names)@,
                fill_repeats(template@, count as nat, filling_of(*self, repetition), scope@, old(names)@),
            ),
        decreases *template, 31nat, count,
    {
        if count == 0 {
            let none: Vec<Expr> = Vec::new();
            assert(forms_of(none@) =~= Seq::<Form>::empty());
            return Ok(none);
        }
        let mut forms = self.expand_template_repeats(template, count - 1, repetition, scope, names)?;
        let ghost before = forms_of(forms@);
        let form = self.expand_template(template, Some(count - 1), scope, names)?;
        forms.push(form);
        assert(forms_of(forms@) =~= before.push(form@));
        Ok(forms)
    }

    fn expand_template_each(
        &self,
        template: &Expr,
        index: usize,
        repetition: Option<usize>,
        scope: &NameMap<String>,
        names: &mut NameSource,
    ) -> (result: Result<Vec<Expr>, Halt>)
        requires
            template.kind is List,
            index <= list_items(template@).len(),
        ensures
            grown_row(
                result,
                final(names)@,
                fill_each(template@, index as nat, filling_of(*self, repetition), scope@, old(names)@),
            ),
        decreases *template, 10nat, list_items(template@).len() - index,
    {
        proof {
            lemma_list_form(*template);
        }
        if let ExprKind::List { items, tail: _ } = &template.kind {
            if index < items.len() {
                assert(forms_of(items@)[index as int] == items@[index as int]@);
                let form = self.expand_template(&items[index], repetition, scope, names)?;
                let rest = self.expand_template_each(template, index + 1, repetition, scope, names)?;
                return Ok(prepend(form, rest));
            }
        }
        let none: Vec<Expr> = Vec::new();
        assert(forms_of(none@) =~= Seq::<Form>::empty());
        Ok(none)
    }

    fn expand_template_binder(
        &self,
        binder: &Expr,
        repetition: Option<usize>,
        scope: &NameMap<String>,
        names: &mut NameSource,
    ) -> (result: Result<(Expr, String), Halt>)
        ensures
            match result {
                Ok((form, name)) => fill_binder(
                    binder@,
                    filling_of(*self, repetition),
                    scope@,
                    old(names)@,
                ) == Ok::<(nat, (Form, Seq<char>)), Stop>((final(names)@, (form@, name@))),
                Err(halt) => fill_binder(binder@, filling_of(*self, repetition), scope@, old(names)@) == Err::<
                    (nat, (Form, Seq<char>)),
                    Stop,
                >(halt@),
            },
        decreases *binder, 40nat, 0nat,
    {
        let form = self.expand_template(binder, repetition, scope, names)?;
        let name = halted(symbol_name(&form, "macro-generated binder"))?;
        if self.env.singles.contains_key(name.as_str()) || self.env.repeats.contains_key(name.as_str()) {
            return Ok((form, name));
        }
        let fresh = names.next_macro_gensym(name.as_str())?;
        Ok((symbol_expr(fresh.as_str(), form.span), fresh))
    }

    fn expand_template_formals(
        &self,
        formals: &Expr,
        repetition: Option<usize>,
        scope: &NameMap<String>,
        names: &mut NameSource,
    ) -> (result: Result<(Expr, NameMap<String>), Halt>)
        ensures
            match result {
                Ok((form, renames)) => fill_formals(
                    formals@,
                    filling_of(*self, repetition),
                    scope@,
                    old(names)@,
                ) == Ok::<(nat, (Form, Renames)), Stop>((final(names)@, (form@, renames@))),
                Err(halt) => fill_formals(formals@, filling_of(*self, repetition), scope@, old(names)@) == Err::<
                    (nat, (Form, Renames)),
                    Stop,
                >(halt@),
            },
        decreases *formals, 50nat, 0nat,
    {
        match &formals.kind {
            ExprKind::Symbol(original) => {
                let (binder, renamed) = self.expand_template_binder(formals, repetition, scope, names)?;
                let mut next_scope = scope.duplicate_map();
                next_scope.insert(original.clone(), renamed);
                Ok((binder, next_scope))
            },
            ExprKind::List { items: _, tail: _ } => {
                let (items, tail, next_scope) = self.expand_template_params(
                    formals,
                    0,
                    repetition,
                    scope,
                    names,
                )?;
                Ok((dotted_expr(items, tail, formals.span), next_scope))
            },
            _ => Err(
                Halt::Failed(
                    CompileError::Expand(
                        "macro-generated formals must be identifiers or a proper parameter list".to_owned(),
                    ),
                ),
            ),
        }
    }

    fn expand_template_params(
        &self,
        formals: &Expr,
        index: usize,
        repetition: Option<usize>,
        scope: &NameMap<String>,
        names: &mut NameSource,
    ) -> (result: Result<(Vec<Expr>, Option<Box<Expr>>, NameMap<String>), Halt>)
        requires
            formals.kind is List,
            index <= list_items(formals@).len(),
        ensures
            match result {
                Ok((items, tail, renames)) => fill_params(
                    formals@,
                    index as nat,
                    filling_of(*self, repetition),
                    scope@,
                    old(names)@,
                ) == Ok::<(nat, (Seq<Form>, Option<Box<Form>>, Renames)), Stop>(
                    (final(names)@, (forms_of(items@), tail_form(tail), renames@)),
                ),
                Err(halt) => fill_params(
                    formals@,
                    index as nat,
                    filling_of(*self, repetition),
                    scope@,
                    old(names)@,
                ) == Err::<(nat, (Seq<Form>, Option<Box<Form>>, Renames)), Stop>(halt@),
            },
        decreases *formals, 15nat, list_items(formals@).len() - index,
    {
        proof {
            lemma_list_form(*formals);
        }
        if let ExprKind::List { items, tail } = &formals.kind {
            if index < items.len() {
                assert(forms_of(items@)[index as int] == items@[index as int]@);
                let original = halted(symbol_name(&items[index], "template formal"))?;
                let (binder, renamed) = self.expand_template_binder(&items[index], repetition, scope, names)?;
                let mut next_scope = scope.duplicate_map();
                next_scope.insert(original, renamed);
                let (rest, rest_tail, last_scope) = self.expand_template_params(
                    formals,
                    index + 1,
                    repetition,
                    &next_scope,
                    names,
                )?;
                return Ok((prepend(binder, rest), rest_tail, last_scope));
            }
            if let Some(tail) = tail {
                let original = halted(symbol_name(tail, "template rest formal"))?;
                let (binder, renamed) = self.expand_template_binder(tail, repetition, scope, names)?;
                let mut next_scope = scope.duplicate_map();
                next_scope.insert(original, renamed);
                let none: Vec<Expr> = Vec::new();
                assert(forms_of(none@) =~= Seq::<Form>::empty());
                return Ok((none, Some(Box::new(binder)), next_scope));
            }
        }
        let none: Vec<Expr> = Vec::new();
        assert(forms_of(none@) =~= Seq::<Form>::empty());
        Ok((none, None, scope.duplicate_map()))
    }

    fn expand_template_lambda(
        &self,
        template: &Expr,
        repetition: Option<usize>,
        scope: &NameMap<String>,
        names: &mut NameSource,
    ) -> (result: Result<Expr, Halt>)
        requires
            template.kind is List,
        ensures
            grown(
                result,
                final(names)@,
                fill_lambda(template@, filling_of(*self, repetition), scope@, old(names)@),
            ),
        decreases *template, 20nat, 0nat,
    {
        proof {
            lemma_list_form(*template);
        }
        if let ExprKind::List { items, tail } = &template.kind {
            if items.len() >= 3 {
                assert(forms_of(items@)[0] == items@[0]@);
                assert(forms_of(items@)[1] == items@[1]@);
                let (formals, body_scope) = self.expand_template_formals(&items[1], repetition, scope, names)?;
                let body = self.expand_template_each(template, 2, repetition, &body_scope, names)?;
                let row = prepend_two(items[0].duplicate(), formals, body);
                return Ok(dotted_expr(row, clone_tail(tail), template.span));
            }
        }
        Ok(template.duplicate())
    }

    fn expand_template_define(
        &self,
        template: &Expr,
        repetition: Option<usize>,
        scope: &NameMap<String>,
        names: &mut NameSource,
    ) -> (result: Result<Expr, Halt>)
        requires
            template.kind is List,
        ensures
            grown(
                result,
                final(names)@,
                fill_define(template@, filling_of(*self, repetition), scope@, old(names)@),
            ),
        decreases *template, 20nat, 0nat,
    {
        proof {
            lemma_list_form(*template);
        }
        if let ExprKind::List { items, tail: _ } = &template.kind {
            if items.len() >= 3 {
                assert(forms_of(items@)[0] == items@[0]@);
                assert(forms_of(items@)[1] == items@[1]@);
                proof {
                    lemma_list_form(items@[1]);
                }
                match &items[1].kind {
                    ExprKind::Symbol(_) => {
                        let (target, _) = self.expand_template_binder(&items[1], repetition, scope, names)?;
                        let body = self.expand_template_each(template, 2, repetition, scope, names)?;
                        return Ok(list_expr(prepend_two(items[0].duplicate(), target, body), template.span));
                    },
                    ExprKind::List { items: signature, tail: _ } => {
                        if signature.len() > 0 {
                            assert(forms_of(signature@)[0] == signature@[0]@);
                            let (name, _) = self.expand_template_binder(
                                &signature[0],
                                repetition,
                                scope,
                                names,
                            )?;
                            let (params, rest, body_scope) = self.expand_template_params(
                                &items[1],
                                1,
                                repetition,
                                scope,
                                names,
                            )?;
                            let body = self.expand_template_each(template, 2, repetition, &body_scope, names)?;
                            let head = dotted_expr(prepend(name, params), rest, items[1].span);
                            return Ok(list_expr(prepend_two(items[0].duplicate(), head, body), template.span));
                        }
                    },
                    _ => {},
                }
            }
        }
        Ok(template.duplicate())
    }

    fn expand_template_set(
        &self,
        template: &Expr,
        repetition: Option<usize>,
        scope: &NameMap<String>,
        names: &mut NameSource,
    ) -> (result: Result<Expr, Halt>)
        requires
            template.kind is List,
        ensures
            grown(
                result,
                final(names)@,
                fill_set(template@, filling_of(*self, repetition), scope@, old(names)@),
            ),
        decreases *template, 20nat, 0nat,
    {
        proof {
            lemma_list_form(*template);
        }
        if let ExprKind::List { items, tail: _ } = &template.kind {
            if items.len() == 3 {
                assert(forms_of(items@)[0] == items@[0]@);
                assert(forms_of(items@)[1] == items@[1]@);
                assert(forms_of(items@)[2] == items@[2]@);
                let target = self.expand_template(&items[1], repetition, scope, names)?;
                let value = self.expand_template(&items[2], repetition, scope, names)?;
                let row: Vec<Expr> = vec![items[0].duplicate(), target, value];
                assert(forms_of(row@) =~= seq![items@[0]@, target@, value@]);
                return Ok(list_expr(row, template.span));
            }
        }
        Ok(template.duplicate())
    }

    fn expand_template_bindings(
        &self,
        bindings: &Expr,
        index: usize,
        keyword: &str,
        repetition: Option<usize>,
        scope: &NameMap<String>,
        body_scope: &NameMap<String>,
        names: &mut NameSource,
    ) -> (result: Result<Option<(Vec<Expr>, NameMap<String>)>, Halt>)
        requires
            bindings.kind is List,
            index <= list_items(bindings@).len(),
        ensures
            match result {
                Ok(Some((forms, renames))) => fill_bindings(
                    bindings@,
                    index as nat,
                    keyword@,
                    filling_of(*self, repetition),
                    scope@,
                    body_scope@,
                    old(names)@,
                ) == Ok::<(nat, Option<(Seq<Form>, Renames)>), Stop>(
                    (final(names)@, Some((forms_of(forms@), renames@))),
                ),
                Ok(None) => fill_bindings(
                    bindings@,
                    index as nat,
                    keyword@,
                    filling_of(*self, repetition),
                    scope@,
                    body_scope@,
                    old(names)@,
                ) == Ok::<(nat, Option<(Seq<Form>, Renames)>), Stop>((final(names)@, None)),
                Err(halt) => fill_bindings(
                    bindings@,
                    index as nat,
                    keyword@,
                    filling_of(*self, repetition),
                    scope@,
                    body_scope@,
                    old(names)@,
                ) == Err::<(nat, Option<(Seq<Form>, Renames)>), Stop>(halt@),
            },
        decreases *bindings, 15nat, list_items(bindings@).len() - index,
    {
        proof {
            lemma_list_form(*bindings);
        }
        if let ExprKind::List { items, tail: _ } = &bindings.kind {
            if index < items.len() {
                assert(forms_of(items@)[index as int] == items@[index as int]@);
                proof {
                    lemma_list_form(items@[index as int]);
                }
                if let ExprKind::List { items: parts, tail: None } = &items[index].kind {
                    if parts.len() == 2 {
                        assert(forms_of(parts@)[0] == parts@[0]@);
                        assert(forms_of(parts@)[1] == parts@[1]@);
                        let (binder, renamed) = self.expand_template_binder(
                            &parts[0],
                            repetition,
                            body_scope,
                            names,
                        )?;
                        let init = if same(keyword, "let") {
                            self.expand_template(&parts[1], repetition, scope, names)?
                        } else {
                            self.expand_template(&parts[1], repetition, body_scope, names)?
                        };
                        let original = halted(symbol_name(&parts[0], "template binding name"))?;
                        let mut next_scope = body_scope.duplicate_map();
                        next_scope.insert(original, renamed);
                        let rest = self.expand_template_bindings(
                            bindings,
                            index + 1,
                            keyword,
                            repetition,
                            scope,
                            &next_scope,
                            names,
                        )?;
                        return match rest {
                            None => Ok(None),
                            Some((rest, last_scope)) => {
                                let row: Vec<Expr> = vec![binder, init];
                                assert(forms_of(row@) =~= seq![binder@, init@]);
                                let pair = list_expr(row, items[index].span);
                                Ok(Some((prepend(pair, rest), last_scope)))
                            },
                        };
                    }
                }
                return Ok(None);
            }
        }
        let none: Vec<Expr> = Vec::new();
        assert(forms_of(none@) =~= Seq::<Form>::empty());
        Ok(Some((none, body_scope.duplicate_map())))
    }

    fn expand_template_let_like(
        &self,
        template: &Expr,
        keyword: &str,
        repetition: Option<usize>,
        scope: &NameMap<String>,
        names: &mut NameSource,
    ) -> (result: Result<Expr, Halt>)
        requires
            template.kind is List,
        ensures
            grown(
                result,
                final(names)@,
                fill_let(template@, keyword@, filling_of(*self, repetition), scope@, old(names)@),
            ),
        decreases *template, 20nat, 0nat,
    {
        proof {
            lemma_list_form(*template);
        }
        if let ExprKind::List { items, tail: _ } = &template.kind {
            if items.len() >= 3 {
                assert(forms_of(items@)[0] == items@[0]@);
                assert(forms_of(items@)[1] == items@[1]@);
                if as_proper_list(&items[1]).is_some() {
                    let filled = self.expand_template_bindings(
                        &items[1],
                        0,
                        keyword,
                        repetition,
                        scope,
                        scope,
                        names,
                    )?;
                    if let Some((bindings, body_scope)) = filled {
                        let body = self.expand_template_each(template, 2, repetition, &body_scope, names)?;
                        let head = list_expr(bindings, items[1].span);
                        return Ok(list_expr(prepend_two(items[0].duplicate(), head, body), template.span));
                    }
                }
            }
        }
        Ok(template.duplicate())
    }
}

} // verus!
