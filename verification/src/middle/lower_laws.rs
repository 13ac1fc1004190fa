//! What core forms stand for: each form of a program is read as the core form that its keyword asks for,
//! with its parts in their places, and nothing else is.
use crate::error::Problem;
use crate::expand::forms::{list_items, list_tail, symbol_of};
use crate::frontend::ast::{Form, FormKind};
use crate::middle::hir::{binding_names, Binding, Expr, ExprKind, Params};
use crate::middle::lower::{
    binding_parts, first_quoted, lowered, lowered_bindings, lowered_body, lowered_call, lowered_clauses,
    lowered_guard, lowered_if, lowered_item, lowered_items, lowered_keyword,     lowered_let, lowered_program, lowered_single, parameter_names, parameters, quoted,
};
use crate::middle::meaning::{datum_data, expr_core, first_cores, first_values, Core, CoreItem, Data, LetKind};
use vstd::prelude::*;

verus! {

broadcast use vstd::seq_lib::group_seq_properties;

/// Whether a form writes data.
pub open spec fn writes_data(form: Form, data: Data) -> bool
    decreases form, 1nat, 0nat,
{
    match form.kind {
        FormKind::Integer(value) => data == Data::Integer(value),
        FormKind::Boolean(value) => data == Data::Boolean(value),
        FormKind::Char(value) => data == Data::Char(value),
        FormKind::Text(value) => data == Data::Text(value),
        FormKind::Symbol(name) => data == Data::Symbol(name),
        FormKind::Quote(inner) => {
            &&& data matches Data::List { items, tail: None }
            &&& items.len() == 2 && items[0] == Data::Symbol("quote"@)
            &&& writes_data(*inner, items[1])
        },
        FormKind::List { items, tail } => {
            &&& data matches Data::List { items: parts, tail: rest }
            &&& parts.len() == items.len()
            &&& writes_row(items, parts, items.len())
            &&& match tail {
                Some(tail) => rest matches Some(rest) && writes_data(*tail, *rest),
                None => rest is None,
            }
        },
    }
}

/// Whether the first forms of a row write the first data of another.
pub open spec fn writes_row(forms: Seq<Form>, row: Seq<Data>, count: nat) -> bool
    decreases forms, 0nat, count,
{
    0 < count <= forms.len() ==> writes_data(forms[count - 1], row[count - 1]) && writes_row(
        forms,
        row,
        (count - 1) as nat,
    )
}

/// Whether a list starts with a keyword.
pub open spec fn has_keyword(items: Seq<Form>, keyword: Seq<char>) -> bool {
    items.len() > 0 && symbol_of(items[0]) == Some(keyword)
}

/// Whether a form lists parameters behind so many items.
pub open spec fn lists_parameters(form: Form, start: nat, formals: Params) -> bool {
    match form.kind {
        FormKind::Symbol(name) => formals.required.len() == 0 && formals.rest == Some(name),
        FormKind::List { items, tail } => {
            &&& formals.required.len() == (if items.len() > start { items.len() - start } else { 0 })
            &&& forall|i: int|
                start <= i < items.len() ==> symbol_of(#[trigger] items[i]) == Some(formals.required[i - start])
            &&& match tail {
                Some(tail) => formals.rest is Some && symbol_of(*tail) == formals.rest,
                None => formals.rest is None,
            }
        },
        _ => false,
    }
}

/// Whether a form is read as a core form.
pub open spec fn reads(form: Form, core: Core) -> bool
    decreases form, 30nat, 0nat,
{
    match form.kind {
        FormKind::Integer(value) => core == Core::Integer(value),
        FormKind::Boolean(value) => core == Core::Boolean(value),
        FormKind::Char(value) => core == Core::Char(value),
        FormKind::Text(value) => core == Core::Text(value),
        FormKind::Symbol(name) => core == Core::Variable(name),
        FormKind::Quote(inner) => core matches Core::Quote(data) && writes_data(*inner, data),
        FormKind::List { items, tail } => {
            &&& tail is None
            &&& items.len() > 0
            &&& if has_keyword(items, "quote"@) {
                items.len() == 2 && (core matches Core::Quote(data) && writes_data(items[1], data))
            } else if has_keyword(items, "if"@) {
                &&& core matches Core::If { condition, then_branch, else_branch }
                &&& 3 <= items.len() <= 4
                &&& reads(items[1], *condition)
                &&& reads(items[2], *then_branch)
                &&& if items.len() == 4 {
                    reads(items[3], *else_branch)
                } else {
                    *else_branch == Core::Unspecified
                }
            } else if has_keyword(items, "begin"@) {
                if items.len() == 1 {
                    core == Core::Unspecified
                } else {
                    reads_body(form, 1, core)
                }
            } else if has_keyword(items, "lambda"@) {
                &&& core matches Core::Lambda { formals, body }
                &&& items.len() >= 3
                &&& lists_parameters(items[1], 0, formals)
                &&& reads_body(form, 2, *body)
            } else if has_keyword(items, "let"@) {
                reads_let(form, LetKind::Parallel, core)
            } else if has_keyword(items, "let*"@) {
                reads_let(form, LetKind::Sequential, core)
            } else if has_keyword(items, "letrec"@) {
                reads_let(form, LetKind::Recursive, core)
            } else if has_keyword(items, "set!"@) {
                &&& core matches Core::Assign { name, value }
                &&& items.len() == 3
                &&& symbol_of(items[1]) == Some(name)
                &&& reads(items[2], *value)
            } else if has_keyword(items, "delay"@) {
                items.len() == 2 && (core matches Core::Delay(inner) && reads(items[1], *inner))
            } else if has_keyword(items, "force"@) {
                items.len() == 2 && (core matches Core::Force(inner) && reads(items[1], *inner))
            } else if has_keyword(items, "guard"@) {
                &&& core matches Core::Guard { name, handler, body }
                &&& items.len() >= 3
                &&& list_tail(items[1]) is None && has_keyword(list_items(items[1]), name)
                &&& reads_clauses(items[1], 1, name, *handler)
                &&& reads_body(form, 2, *body)
            } else if has_keyword(items, "define"@) {
                false
            } else {
                &&& core matches Core::Call { callee, args }
                &&& reads(items[0], *callee)
                &&& reads_items(form, 1, args, 0)
            }
        },
    }
}

/// Whether the items of a list from one on are read as core forms from one on.
pub open spec fn reads_items(form: Form, index: nat, cores: Seq<Core>, k: nat) -> bool
    decreases form, 10nat, list_items(form).len() - index,
{
    if index >= list_items(form).len() {
        k == cores.len()
    } else {
        k < cores.len() && reads(list_items(form)[index as int], cores[k as int]) && reads_items(
            form,
            index + 1,
            cores,
            k + 1,
        )
    }
}

/// Whether the items of a list from one on are read as a body: one form by itself, more of them in their
/// order.
pub open spec fn reads_body(form: Form, start: nat, core: Core) -> bool
    decreases form, 20nat, 0nat,
{
    let count = list_items(form).len() - start;
    if count <= 0 {
        false
    } else if count == 1 {
        reads_items(form, start, seq![core], 0)
    } else {
        core matches Core::Begin(cores) && reads_items(form, start, cores, 0)
    }
}

/// Whether a form with local bindings is read as a core form.
pub open spec fn reads_let(form: Form, kind: LetKind, core: Core) -> bool
    decreases form, 25nat, 0nat,
{
    let items = list_items(form);
    &&& core matches Core::Let { kind: read, names, values, body }
    &&& read == kind
    &&& items.len() >= 3
    &&& items[1].kind is List && list_tail(items[1]) is None
    &&& names.len() == values.len()
    &&& reads_bindings(items[1], 0, names, values, 0)
    &&& reads_body(form, 2, *body)
}

/// Whether the bindings of a list from one on are read as names and values from one on.
pub open spec fn reads_bindings(form: Form, index: nat, names: Seq<Seq<char>>, values: Seq<Core>, k: nat) -> bool
    decreases form, 10nat, list_items(form).len() - index,
{
    if index >= list_items(form).len() {
        k == names.len()
    } else {
        &&& k < names.len()
        &&& match list_items(form)[index as int].kind {
            FormKind::List { items, tail: None } => items.len() == 2 && symbol_of(items[0]) == Some(names[k as int])
                && reads(items[1], values[k as int]),
            _ => false,
        }
        &&& reads_bindings(form, index + 1, names, values, k + 1)
    }
}

/// Whether clauses from one on are read as what is done with what was raised: the first clause whose test
/// is met decides, `else` is met in any case, and where there is none left it is raised again.
pub open spec fn reads_clauses(form: Form, index: nat, name: Seq<char>, core: Core) -> bool
    decreases form, 10nat, list_items(form).len() - index,
{
    let items = list_items(form);
    if index >= items.len() {
        core matches Core::Call { callee, args } && *callee == Core::Variable("raise"@) && args.len() == 1 && args[0]
            == Core::Variable(name)
    } else {
        match items[index as int].kind {
            FormKind::List { items: parts, tail: None } => if parts.len() < 2 {
                false
            } else if has_keyword(parts, "else"@) {
                index + 1 == items.len() && reads_body(items[index as int], 1, core)
            } else {
                &&& core matches Core::If { condition, then_branch, else_branch }
                &&& reads(parts[0], *condition)
                &&& reads_body(items[index as int], 1, *then_branch)
                &&& reads_clauses(form, index + 1, name, *else_branch)
            },
            _ => false,
        }
    }
}

proof fn lemma_data(form: Form, data: Data)
    ensures
        writes_data(form, data) <==> quoted(form) == data,
    decreases form, 1nat, 0nat,
{
    match form.kind {
        FormKind::Quote(inner) => {
            lemma_data(*inner, quoted(*inner));
            if let Data::List { items, tail: None } = data {
                if items.len() == 2 {
                    lemma_data(*inner, items[1]);
                    assert(items =~= seq![items[0], items[1]]);
                }
            }
        },
        FormKind::List { items, tail } => {
            if let Data::List { items: parts, tail: rest } = data {
                if let Some(tail) = tail {
                    lemma_data(*tail, quoted(*tail));
                    if let Some(rest) = rest {
                        lemma_data(*tail, *rest);
                    }
                }
                lemma_row_length(items, items.len());
                if parts.len() == items.len() {
                    lemma_row(items, parts, items.len());
                    assert(parts.subrange(0, items.len() as int) =~= parts);
                }
            }
        },
        _ => {},
    }
}

proof fn lemma_row_length(forms: Seq<Form>, count: nat)
    requires
        count <= forms.len(),
    ensures
        first_quoted(forms, count).len() == count,
    decreases count,
{
    if count > 0 {
        lemma_row_length(forms, (count - 1) as nat);
    }
}

proof fn lemma_row(forms: Seq<Form>, row: Seq<Data>, count: nat)
    requires
        count <= forms.len(),
        count <= row.len(),
    ensures
        writes_row(forms, row, count) <==> first_quoted(forms, count) == row.subrange(0, count as int),
    decreases forms, 0nat, count,
{
    let part = row.subrange(0, count as int);
    if count == 0 {
        assert(part =~= Seq::<Data>::empty());
    } else {
        let less = (count - 1) as nat;
        lemma_row(forms, row, less);
        lemma_data(forms[count - 1], row[count - 1]);
        lemma_row_length(forms, less);
        let fewer = row.subrange(0, less as int);
        assert(part =~= fewer.push(row[count - 1]));
        let read = first_quoted(forms, less).push(quoted(forms[count - 1]));
        assert(read.drop_last() =~= first_quoted(forms, less));
        assert(part.drop_last() =~= fewer);
        assert(read.last() == quoted(forms[count - 1]) && part.last() == row[count - 1]);
    }
}

proof fn lemma_parameter_names(items: Seq<Form>, index: nat, before: Seq<Seq<char>>, names: Seq<Seq<char>>)
    ensures
        parameter_names(items, index, before) == Ok::<Seq<Seq<char>>, Problem>(names) <==> {
            &&& before.is_prefix_of(names)
            &&& names.len() == before.len() + (if items.len() > index { items.len() - index } else { 0 })
            &&& forall|i: int|
                index <= i < items.len() ==> symbol_of(#[trigger] items[i]) == Some(names[i - index + before.len()])
        },
    decreases items.len() - index,
{
    if index >= items.len() {
        if before.is_prefix_of(names) && names.len() == before.len() {
            assert(before =~= names);
        }
        if before == names {
            assert(before =~= names.subrange(0, before.len() as int));
        }
    } else if let FormKind::Symbol(name) = items[index as int].kind {
        let next = before.push(name);
        lemma_parameter_names(items, index + 1, next, names);
        let k = before.len() as int;
        if before.is_prefix_of(names) && names.len() > k && names[k] == name {
            assert(next =~= names.subrange(0, next.len() as int));
        }
        if next.is_prefix_of(names) {
            assert(names[k] == next[k]);
            assert(before =~= names.subrange(0, k)) by {
                assert forall|i: int| 0 <= i < k implies before[i] == names[i] by {
                    assert(next[i] == names[i]);
                }
            }
        }
        assert(symbol_of(items[index as int]) == Some(name));
    } else {
        assert(symbol_of(items[index as int]) is None);
    }
}

proof fn lemma_parameters(form: Form, start: nat, formals: Params)
    ensures
        parameters(form, start) == Ok::<Params, Problem>(formals) <==> lists_parameters(form, start, formals),
{
    match form.kind {
        FormKind::Symbol(name) => {
            assert(formals.required.len() == 0 ==> formals.required =~= Seq::<Seq<char>>::empty());
        },
        FormKind::List { items, tail } => {
            lemma_parameter_names(items, start, Seq::empty(), formals.required);
            assert(Seq::<Seq<char>>::empty().is_prefix_of(formals.required)) by {
                assert(Seq::<Seq<char>>::empty() =~= formals.required.subrange(0, 0));
            }
        },
        _ => {},
    }
}

/// A form is read as a core form exactly where lowering it gives that core form.
pub proof fn lemma_lowered(form: Form, core: Core)
    ensures
        lowered(form) == Ok::<Core, Problem>(core) <==> reads(form, core),
    decreases form, 30nat, 0nat,
{
    match form.kind {
        FormKind::Quote(inner) => {
            if let Core::Quote(data) = core {
                lemma_data(*inner, data);
            }
        },
        FormKind::List { items, tail } => {
            if tail is None && items.len() > 0 {
                match symbol_of(items[0]) {
                    Some(keyword) => {
                        lemma_keyword(form, keyword, core);
                    },
                    None => {
                        lemma_call(form, core);
                    },
                }
            }
        },
        _ => {},
    }
}

proof fn lemma_keyword(form: Form, keyword: Seq<char>, core: Core)
    requires
        form.kind is List,
        list_tail(form) is None,
        has_keyword(list_items(form), keyword),
    ensures
        lowered_keyword(form, keyword) == Ok::<Core, Problem>(core) <==> reads(form, core),
    decreases form, 25nat, 0nat,
{
    let items = list_items(form);
    if keyword == "quote"@ {
        if let Core::Quote(data) = core {
            if items.len() == 2 {
                lemma_data(items[1], data);
            }
        }
    } else if keyword == "if"@ {
        lemma_if(form, core);
    } else if keyword == "begin"@ {
        if items.len() > 1 {
            lemma_body(form, 1, core);
        }
    } else if keyword == "lambda"@ {
        if let Core::Lambda { formals, body } = core {
            if items.len() >= 3 {
                lemma_parameters(items[1], 0, formals);
                lemma_body(form, 2, *body);
            }
        }
    } else if keyword == "let"@ {
        lemma_let(form, LetKind::Parallel, core);
    } else if keyword == "let*"@ {
        lemma_let(form, LetKind::Sequential, core);
    } else if keyword == "letrec"@ {
        lemma_let(form, LetKind::Recursive, core);
    } else if keyword == "set!"@ {
        if let Core::Assign { name, value } = core {
            if items.len() == 3 {
                lemma_lowered(items[2], *value);
            }
        }
    } else if keyword == "delay"@ {
        if let Core::Delay(inner) = core {
            if items.len() == 2 {
                lemma_lowered(items[1], *inner);
            }
        }
    } else if keyword == "force"@ {
        lemma_force(form, core);
    } else if keyword == "guard"@ {
        lemma_guard(form, core);
    } else if keyword != "define"@ {
        lemma_call(form, core);
    }
}

proof fn lemma_force(form: Form, core: Core)
    requires
        form.kind is List,
        has_keyword(list_items(form), "force"@),
    ensures
        lowered_single(form, "force"@) == Ok::<Core, Problem>(core) <==> list_items(form).len() == 2 && (
        core matches Core::Force(inner) && reads(list_items(form)[1], *inner)),
    decreases form, 20nat, 0nat,
{
    let items = list_items(form);
    assert("force"@ != "delay"@) by {
        reveal_strlit("force");
        reveal_strlit("delay");
        assert("force"@[0] == 'f' && "delay"@[0] == 'd');
    }
    if let Core::Force(inner) = core {
        if items.len() == 2 {
            lemma_lowered(items[1], *inner);
        }
    }
}

proof fn lemma_if(form: Form, core: Core)
    requires
        form.kind is List,
    ensures
        lowered_if(form) == Ok::<Core, Problem>(core) <==> {
            let items = list_items(form);
            &&& core matches Core::If { condition, then_branch, else_branch }
            &&& 3 <= items.len() <= 4
            &&& reads(items[1], *condition)
            &&& reads(items[2], *then_branch)
            &&& if items.len() == 4 {
                reads(items[3], *else_branch)
            } else {
                *else_branch == Core::Unspecified
            }
        },
    decreases form, 20nat, 0nat,
{
    let items = list_items(form);
    if let Core::If { condition, then_branch, else_branch } = core {
        if 3 <= items.len() <= 4 {
            lemma_lowered(items[1], *condition);
            lemma_lowered(items[2], *then_branch);
            if items.len() == 4 {
                lemma_lowered(items[3], *else_branch);
            }
        }
    }
}

proof fn lemma_call(form: Form, core: Core)
    requires
        form.kind is List,
    ensures
        lowered_call(form) == Ok::<Core, Problem>(core) <==> list_items(form).len() > 0 && (core matches Core::Call {
            callee,
            args,
        } && reads(list_items(form)[0], *callee) && reads_items(form, 1, args, 0)),
    decreases form, 20nat, 0nat,
{
    let items = list_items(form);
    if items.len() > 0 {
        if let Core::Call { callee, args } = core {
            lemma_lowered(items[0], *callee);
            lemma_items(form, 1, Seq::empty(), args);
            assert(Seq::<Core>::empty().is_prefix_of(args)) by {
                assert(Seq::<Core>::empty() =~= args.subrange(0, 0));
            }
        }
    }
}

proof fn lemma_items(form: Form, index: nat, before: Seq<Core>, all: Seq<Core>)
    requires
        form.kind is List,
    ensures
        lowered_items(form, index, before) == Ok::<Seq<Core>, Problem>(all) <==> before.is_prefix_of(all) && reads_items(
            form,
            index,
            all,
            before.len(),
        ),
    decreases form, 10nat, list_items(form).len() - index,
{
    let items = list_items(form);
    if index >= items.len() {
        if before.is_prefix_of(all) && before.len() == all.len() {
            assert(before =~= all);
        }
        if before == all {
            assert(before =~= all.subrange(0, before.len() as int));
        }
    } else {
        let k = before.len() as int;
        if lowered_items(form, index, before) == Ok::<Seq<Core>, Problem>(all) {
            let core = lowered(items[index as int])->Ok_0;
            let next = before.push(core);
            lemma_lowered(items[index as int], core);
            lemma_items(form, index + 1, next, all);
            assert(all[k] == next[k]);
            assert(before =~= all.subrange(0, k)) by {
                assert forall|i: int| 0 <= i < k implies before[i] == all[i] by {
                    assert(next[i] == all[i]);
                }
            }
        }
        if before.is_prefix_of(all) && reads_items(form, index, all, before.len()) {
            let next = before.push(all[k]);
            lemma_lowered(items[index as int], all[k]);
            lemma_items(form, index + 1, next, all);
            assert(next =~= all.subrange(0, next.len() as int));
        }
    }
}

proof fn lemma_items_length(form: Form, index: nat, before: Seq<Core>)
    ensures
        lowered_items(form, index, before) matches Ok(all) ==> all.len() == before.len() + (if list_items(form).len()
            > index {
            list_items(form).len() - index
        } else {
            0
        }),
    decreases list_items(form).len() - index,
{
    if index < list_items(form).len() {
        if let Ok(core) = lowered(list_items(form)[index as int]) {
            lemma_items_length(form, index + 1, before.push(core));
        }
    }
}

proof fn lemma_body(form: Form, start: nat, core: Core)
    requires
        form.kind is List,
    ensures
        lowered_body(form, start) == Ok::<Core, Problem>(core) <==> reads_body(form, start, core),
    decreases form, 20nat, 0nat,
{
    let count = list_items(form).len() - start;
    lemma_items_length(form, start, Seq::empty());
    if count == 1 {
        lemma_items(form, start, Seq::empty(), seq![core]);
        assert(Seq::<Core>::empty().is_prefix_of(seq![core])) by {
            assert(Seq::<Core>::empty() =~= seq![core].subrange(0, 0));
        }
        if let Ok(cores) = lowered_items(form, start, Seq::empty()) {
            assert(cores =~= seq![cores[0]]);
        }
    } else if count > 1 {
        if let Core::Begin(cores) = core {
            lemma_items(form, start, Seq::empty(), cores);
            assert(Seq::<Core>::empty().is_prefix_of(cores)) by {
                assert(Seq::<Core>::empty() =~= cores.subrange(0, 0));
            }
        }
    }
}

proof fn lemma_let(form: Form, kind: LetKind, core: Core)
    requires
        form.kind is List,
    ensures
        lowered_let(form, kind) == Ok::<Core, Problem>(core) <==> reads_let(form, kind, core),
    decreases form, 22nat, 0nat,
{
    let items = list_items(form);
    if let Core::Let { kind: read, names, values, body } = core {
        if items.len() >= 3 && items[1].kind is List {
            lemma_bindings(items[1], 0, Seq::empty(), Seq::empty(), names, values);
            lemma_body(form, 2, *body);
            assert(Seq::<Seq<char>>::empty() =~= names.subrange(0, 0));
            assert(Seq::<Core>::empty() =~= values.subrange(0, 0));
        }
    }
}

proof fn lemma_bindings(
    form: Form,
    index: nat,
    names_before: Seq<Seq<char>>,
    values_before: Seq<Core>,
    names: Seq<Seq<char>>,
    values: Seq<Core>,
)
    requires
        form.kind is List,
        names_before.len() == values_before.len(),
    ensures
        lowered_bindings(form, index, names_before, values_before) == Ok::<(Seq<Seq<char>>, Seq<Core>), Problem>(
            (names, values),
        ) <==> {
            &&& names_before.is_prefix_of(names)
            &&& values_before.is_prefix_of(values)
            &&& names.len() == values.len()
            &&& reads_bindings(form, index, names, values, names_before.len())
        },
    decreases form, 10nat, list_items(form).len() - index,
{
    let items = list_items(form);
    if index >= items.len() {
        if names_before.is_prefix_of(names) && names_before.len() == names.len() {
            assert(names_before =~= names);
        }
        if values_before.is_prefix_of(values) && values_before.len() == values.len() {
            assert(values_before =~= values);
        }
        assert(names_before.is_prefix_of(names_before)) by {
            assert(names_before =~= names_before.subrange(0, names_before.len() as int));
        }
        assert(values_before.is_prefix_of(values_before)) by {
            assert(values_before =~= values_before.subrange(0, values_before.len() as int));
        }
    } else {
        let k = names_before.len() as int;
        if lowered_bindings(form, index, names_before, values_before) == Ok::<(Seq<Seq<char>>, Seq<Core>), Problem>(
            (names, values),
        ) {
            let (name, value) = binding_parts(items[index as int])->0;
            let core = lowered(value)->Ok_0;
            lemma_lowered(value, core);
            let next_names = names_before.push(name);
            let next_values = values_before.push(core);
            lemma_bindings(form, index + 1, next_names, next_values, names, values);
            assert(names[k] == next_names[k] && values[k] == next_values[k]);
            lemma_shorter_prefix(names_before, name, names);
            lemma_shorter_prefix(values_before, core, values);
        }
        if names_before.is_prefix_of(names) && values_before.is_prefix_of(values) && names.len() == values.len()
            && reads_bindings(form, index, names, values, names_before.len()) {
            lemma_lowered(list_items(items[index as int])[1], values[k]);
            let next_names = names_before.push(names[k]);
            let next_values = values_before.push(values[k]);
            assert(next_names =~= names.subrange(0, next_names.len() as int));
            assert(next_values =~= values.subrange(0, next_values.len() as int));
            lemma_bindings(form, index + 1, next_names, next_values, names, values);
        }
    }
}

proof fn lemma_shorter_prefix<T>(before: Seq<T>, last: T, all: Seq<T>)
    requires
        before.push(last).is_prefix_of(all),
    ensures
        before.is_prefix_of(all),
{
    assert(before =~= all.subrange(0, before.len() as int)) by {
        assert forall|i: int| 0 <= i < before.len() implies before[i] == all[i] by {
            assert(before.push(last)[i] == all[i]);
        }
    }
}

proof fn lemma_guard(form: Form, core: Core)
    requires
        form.kind is List,
    ensures
        lowered_guard(form) == Ok::<Core, Problem>(core) <==> {
            let items = list_items(form);
            &&& core matches Core::Guard { name, handler, body }
            &&& items.len() >= 3
            &&& list_tail(items[1]) is None && has_keyword(list_items(items[1]), name)
            &&& reads_clauses(items[1], 1, name, *handler)
            &&& reads_body(form, 2, *body)
        },
    decreases form, 22nat, 0nat,
{
    let items = list_items(form);
    if let Core::Guard { name, handler, body } = core {
        if items.len() >= 3 && items[1].kind is List {
            lemma_clauses(items[1], 1, name, *handler);
            lemma_body(form, 2, *body);
        }
    }
}

proof fn lemma_clauses(form: Form, index: nat, name: Seq<char>, core: Core)
    requires
        form.kind is List,
    ensures
        lowered_clauses(form, index, name) == Ok::<Core, Problem>(core) <==> reads_clauses(form, index, name, core),
    decreases form, 10nat, list_items(form).len() - index,
{
    let items = list_items(form);
    if index >= items.len() {
        if let Core::Call { callee, args } = core {
            if args.len() == 1 {
                assert(args =~= seq![args[0]]);
            }
        }
    } else {
        let clause = items[index as int];
        if let FormKind::List { items: parts, tail: None } = clause.kind {
            if parts.len() >= 2 {
                if has_keyword(parts, "else"@) {
                    lemma_body(clause, 1, core);
                } else if let Core::If { condition, then_branch, else_branch } = core {
                    lemma_lowered(parts[0], *condition);
                    lemma_body(clause, 1, *then_branch);
                    lemma_clauses(form, index + 1, name, *else_branch);
                }
            }
        }
    }
}

/// Whether a form at the top level is read as an item.
pub open spec fn reads_item(form: Form, item: CoreItem) -> bool {
    let items = list_items(form);
    if list_tail(form) is None && has_keyword(items, "define"@) {
        match item {
            CoreItem::Definition { name, value } => items.len() == 3 && symbol_of(items[1]) == Some(name) && reads(
                items[2],
                value,
            ),
            CoreItem::Procedure { name, formals, body } => {
                &&& items.len() >= 3
                &&& items[1].kind is List && has_keyword(list_items(items[1]), name)
                &&& lists_parameters(items[1], 1, formals)
                &&& reads_body(form, 2, body)
            },
            CoreItem::Expression(_) => false,
        }
    } else {
        item matches CoreItem::Expression(core) && reads(form, core)
    }
}

/// A form at the top level is read as an item exactly where lowering it gives that item.
pub proof fn lemma_lowered_item(form: Form, item: CoreItem)
    ensures
        lowered_item(form) == Ok::<CoreItem, Problem>(item) <==> reads_item(form, item),
{
    let items = list_items(form);
    match item {
        CoreItem::Definition { name, value } => {
            if items.len() == 3 {
                lemma_lowered(items[2], value);
            }
        },
        CoreItem::Procedure { name, formals, body } => {
            if items.len() >= 3 && form.kind is List {
                lemma_parameters(items[1], 1, formals);
                lemma_body(form, 2, body);
            }
        },
        CoreItem::Expression(core) => {
            lemma_lowered(form, core);
        },
    }
}

/// Whether a form at the top level is read as no item.
pub open spec fn is_unreadable(form: Form) -> bool {
    forall|item: CoreItem| !#[trigger] reads_item(form, item)
}

proof fn lemma_program(forms: Seq<Form>, index: nat, before: Seq<CoreItem>)
    requires
        index <= forms.len(),
        before.len() == index,
        forall|i: int| 0 <= i < index ==> reads_item(#[trigger] forms[i], before[i]),
    ensures
        lowered_program(forms, index, before) matches Ok(items) ==> items.len() == forms.len() && forall|i: int|
            0 <= i < forms.len() ==> reads_item(#[trigger] forms[i], items[i]),
        lowered_program(forms, index, before) is Err ==> exists|i: int|
            index <= i < forms.len() && #[trigger] is_unreadable(forms[i]),
    decreases forms.len() - index,
{
    if index < forms.len() {
        let form = forms[index as int];
        match lowered_item(form) {
            Ok(item) => {
                lemma_lowered_item(form, item);
                lemma_program(forms, index + 1, before.push(item));
            },
            Err(_) => {
                assert forall|item: CoreItem| !#[trigger] reads_item(form, item) by {
                    lemma_lowered_item(form, item);
                }
                assert(is_unreadable(forms[index as int]));
            },
        }
    }
}

/// A program is read form by form, in the order of the forms, and is refused only where one of its forms
/// cannot be read.
pub proof fn lemma_lowered_program(forms: Seq<Form>)
    ensures
        match lowered_program(forms, 0, Seq::empty()) {
            Ok(items) => items.len() == forms.len() && forall|i: int|
                0 <= i < forms.len() ==> reads_item(#[trigger] forms[i], items[i]),
            Err(_) => exists|i: int|
                0 <= i < forms.len() && #[trigger] is_unreadable(forms[i]),
        },
{
    lemma_program(forms, 0, Seq::empty());
}

/// Whether a core form holds the parts of an expression in their places.
pub open spec fn mirrors(expr: Expr, core: Core) -> bool
    decreases expr, 1nat,
{
    match expr.kind {
        ExprKind::Unspecified => core is Unspecified,
        ExprKind::Integer(value) => core == Core::Integer(value),
        ExprKind::Boolean(value) => core == Core::Boolean(value),
        ExprKind::Char(value) => core == Core::Char(value),
        ExprKind::String(value) => core == Core::Text(value@),
        ExprKind::Variable(name) => core == Core::Variable(name@),
        ExprKind::Assign { name, value } => core matches Core::Assign { name: target, value: given } && target == name@
            && mirrors(*value, *given),
        ExprKind::Begin(exprs) => core matches Core::Begin(cores) && cores.len() == exprs@.len() && mirror_all(
            exprs@,
            cores,
            exprs@.len(),
        ),
        ExprKind::Let { bindings, body } => core matches Core::Let { kind, names, values, body: inner } && kind is Parallel
            && mirror_bindings(bindings@, names, values) && mirrors(*body, *inner),
        ExprKind::LetStar { bindings, body } => core matches Core::Let { kind, names, values, body: inner }
            && kind is Sequential && mirror_bindings(bindings@, names, values) && mirrors(*body, *inner),
        ExprKind::LetRec { bindings, body } => core matches Core::Let { kind, names, values, body: inner }
            && kind is Recursive && mirror_bindings(bindings@, names, values) && mirrors(*body, *inner),
        ExprKind::Guard { name, handler, body } => core matches Core::Guard { name: caught, handler: other, body: inner }
            && caught == name@ && mirrors(*handler, *other) && mirrors(*body, *inner),
        ExprKind::Delay(inner) => core matches Core::Delay(other) && mirrors(*inner, *other),
        ExprKind::Force(inner) => core matches Core::Force(other) && mirrors(*inner, *other),
        ExprKind::If { condition, then_branch, else_branch } => core matches Core::If {
            condition: test,
            then_branch: first,
            else_branch: second,
        } && mirrors(*condition, *test) && mirrors(*then_branch, *first) && mirrors(*else_branch, *second),
        ExprKind::Call { callee, args } => core matches Core::Call { callee: called, args: given } && mirrors(
            *callee,
            *called,
        ) && given.len() == args@.len() && mirror_all(args@, given, args@.len()),
        ExprKind::Lambda { formals, body } => core matches Core::Lambda { formals: params, body: inner } && params
            == formals@ && mirrors(*body, *inner),
        ExprKind::Quote(datum) => core matches Core::Quote(data) && data == datum_data(datum),
    }
}

/// The same for the first of a row of expressions.
pub open spec fn mirror_all(exprs: Seq<Expr>, cores: Seq<Core>, count: nat) -> bool
    decreases exprs, 0nat, count,
{
    0 < count <= exprs.len() ==> mirrors(exprs[count - 1], cores[count - 1]) && mirror_all(
        exprs,
        cores,
        (count - 1) as nat,
    )
}

/// The same for the names and values of a row of bindings.
pub open spec fn mirror_bindings(bindings: Seq<Binding>, names: Seq<Seq<char>>, values: Seq<Core>) -> bool
    decreases bindings, 1nat,
{
    names.len() == bindings.len() && values.len() == bindings.len() && mirror_values(bindings, names, values, bindings.len())
}

/// The same for the first of a row of bindings.
pub open spec fn mirror_values(bindings: Seq<Binding>, names: Seq<Seq<char>>, values: Seq<Core>, count: nat) -> bool
    decreases bindings, 0nat, count,
{
    0 < count <= bindings.len() ==> names[count - 1] == bindings[count - 1].name@ && mirrors(
        bindings[count - 1].value,
        values[count - 1],
    ) && mirror_values(bindings, names, values, (count - 1) as nat)
}

/// The core form of an expression holds its parts in their places.
pub proof fn lemma_mirrored(expr: Expr)
    ensures
        mirrors(expr, expr_core(expr)),
    decreases expr, 1nat,
{
    match expr.kind {
        ExprKind::Assign { name, value } => {
            lemma_mirrored(*value);
        },
        ExprKind::Begin(exprs) => {
            lemma_all_mirrored(exprs@, first_cores(exprs@, exprs@.len()), exprs@.len());
        },
        ExprKind::Let { bindings, body } => {
            let values = first_values(bindings@, bindings@.len());
            lemma_values_mirrored(bindings@, values, bindings@.len());
            assert(mirror_bindings(bindings@, binding_names(bindings@), values));
            lemma_mirrored(*body);
        },
        ExprKind::LetStar { bindings, body } => {
            let values = first_values(bindings@, bindings@.len());
            lemma_values_mirrored(bindings@, values, bindings@.len());
            assert(mirror_bindings(bindings@, binding_names(bindings@), values));
            lemma_mirrored(*body);
        },
        ExprKind::LetRec { bindings, body } => {
            let values = first_values(bindings@, bindings@.len());
            lemma_values_mirrored(bindings@, values, bindings@.len());
            assert(mirror_bindings(bindings@, binding_names(bindings@), values));
            lemma_mirrored(*body);
        },
        ExprKind::Guard { name, handler, body } => {
            lemma_mirrored(*handler);
            lemma_mirrored(*body);
        },
        ExprKind::Delay(inner) => {
            lemma_mirrored(*inner);
        },
        ExprKind::Force(inner) => {
            lemma_mirrored(*inner);
        },
        ExprKind::If { condition, then_branch, else_branch } => {
            lemma_mirrored(*condition);
            lemma_mirrored(*then_branch);
            lemma_mirrored(*else_branch);
        },
        ExprKind::Call { callee, args } => {
            lemma_mirrored(*callee);
            lemma_all_mirrored(args@, first_cores(args@, args@.len()), args@.len());
        },
        ExprKind::Lambda { formals, body } => {
            lemma_mirrored(*body);
        },
        _ => {},
    }
}

proof fn lemma_all_mirrored(exprs: Seq<Expr>, cores: Seq<Core>, count: nat)
    requires
        count <= exprs.len(),
        first_cores(exprs, count).is_prefix_of(cores),
    ensures
        mirror_all(exprs, cores, count),
        first_cores(exprs, count).len() == count,
    decreases exprs, 0nat, count,
{
    if count > 0 {
        let less = (count - 1) as nat;
        let part = first_cores(exprs, count);
        lemma_cores_length(exprs, less);
        assert(first_cores(exprs, less) =~= cores.subrange(0, less as int)) by {
            assert forall|i: int| 0 <= i < less implies first_cores(exprs, less)[i] == cores[i] by {
                assert(part[i] == cores[i]);
            }
        }
        assert(part[less as int] == cores[less as int]);
        lemma_all_mirrored(exprs, cores, less);
        lemma_mirrored(exprs[count - 1]);
    }
}

proof fn lemma_cores_length(exprs: Seq<Expr>, count: nat)
    requires
        count <= exprs.len(),
    ensures
        first_cores(exprs, count).len() == count,
    decreases count,
{
    if count > 0 {
        lemma_cores_length(exprs, (count - 1) as nat);
    }
}

proof fn lemma_values_length(bindings: Seq<Binding>, count: nat)
    requires
        count <= bindings.len(),
    ensures
        first_values(bindings, count).len() == count,
    decreases count,
{
    if count > 0 {
        lemma_values_length(bindings, (count - 1) as nat);
    }
}

proof fn lemma_values_mirrored(bindings: Seq<Binding>, values: Seq<Core>, count: nat)
    requires
        count <= bindings.len(),
        first_values(bindings, count).is_prefix_of(values),
    ensures
        mirror_values(bindings, binding_names(bindings), values, count),
        first_values(bindings, count).len() == count,
    decreases bindings, 0nat, count,
{
    if count > 0 {
        let less = (count - 1) as nat;
        let part = first_values(bindings, count);
        lemma_values_length(bindings, less);
        assert(first_values(bindings, less) =~= values.subrange(0, less as int)) by {
            assert forall|i: int| 0 <= i < less implies first_values(bindings, less)[i] == values[i] by {
                assert(part[i] == values[i]);
            }
        }
        assert(part[less as int] == values[less as int]);
        lemma_values_mirrored(bindings, values, less);
        lemma_mirrored(bindings[count - 1].value);
    }
}

} // verus!
