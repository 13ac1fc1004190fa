//! What is found out about names: which are free in an expression, which are assigned to, and of which the
//! pairs are changed.
use crate::backend::scope::{
    free_names, free_names_in_all, free_names_in_sequence, free_names_in_values, mutated, mutated_in_all,
    mutated_in_sequence, mutated_in_values, pair_mutated, pair_mutated_in_all, pair_mutated_in_sequence,
    pair_mutated_in_values,
};
use crate::middle::hir::{binding_names, formal_names, Binding, Expr, ExprKind};
use vstd::prelude::*;

verus! {

broadcast use vstd::seq_lib::group_seq_properties;

/// Whether a name is among those of the first bindings of a row.
pub open spec fn is_bound_before(bindings: Seq<Binding>, count: int, name: Seq<char>) -> bool {
    exists|i: int| 0 <= i < count && (#[trigger] bindings[i]).name@ == name
}

/// Whether a name is free in an expression.
pub open spec fn is_free(expr: Expr, name: Seq<char>) -> bool
    decreases expr, 0nat,
{
    match expr.kind {
        ExprKind::Variable(other) => other@ == name,
        ExprKind::Assign { name: other, value } => other@ == name || is_free(*value, name),
        ExprKind::Call { callee, args } => is_free(*callee, name) || is_free_in(args@, args@.len(), name),
        ExprKind::Begin(exprs) => is_free_in(exprs@, exprs@.len(), name),
        ExprKind::If { condition, then_branch, else_branch } => is_free(*condition, name) || is_free(*then_branch, name)
            || is_free(*else_branch, name),
        ExprKind::Guard { name: other, handler, body } => is_free(*body, name) || (other@ != name && is_free(
            *handler,
            name,
        )),
        ExprKind::Delay(inner) => is_free(*inner, name),
        ExprKind::Force(inner) => is_free(*inner, name),
        ExprKind::Lambda { formals, body } => !formal_names(formals@).contains(name) && is_free(*body, name),
        ExprKind::Let { bindings, body } => is_free_in_values(bindings@, bindings@.len(), name, false) || (
        !is_bound_before(bindings@, bindings@.len() as int, name) && is_free(*body, name)),
        ExprKind::LetStar { bindings, body } => is_free_in_values(bindings@, bindings@.len(), name, true) || (
        !is_bound_before(bindings@, bindings@.len() as int, name) && is_free(*body, name)),
        ExprKind::LetRec { bindings, body } => !is_bound_before(bindings@, bindings@.len() as int, name) && (
        is_free_in_values(bindings@, bindings@.len(), name, false) || is_free(*body, name)),
        _ => false,
    }
}

/// The same for the first of a row of expressions.
pub open spec fn is_free_in(exprs: Seq<Expr>, count: nat, name: Seq<char>) -> bool
    decreases exprs, count,
{
    0 < count <= exprs.len() && (is_free(exprs[count - 1], name) || is_free_in(exprs, (count - 1) as nat, name))
}

/// The same for the values of the first of a row of bindings, which see those before them or do not.
pub open spec fn is_free_in_values(bindings: Seq<Binding>, count: nat, name: Seq<char>, sequential: bool) -> bool
    decreases bindings, count,
{
    0 < count <= bindings.len() && ((!(sequential && is_bound_before(bindings, count - 1, name)) && is_free(
        bindings[count - 1].value,
        name,
    )) || is_free_in_values(bindings, (count - 1) as nat, name, sequential))
}

/// What is looked for: assignments, or changes of the pair of a variable.
pub enum Search {
    Assignment,
    PairChange,
}

/// Whether a call changes the pair of a variable.
pub open spec fn changes_pair(callee: Expr, args: Seq<Expr>, name: Seq<char>) -> bool {
    &&& callee.kind matches ExprKind::Variable(called)
    &&& called@ == "set-car!"@ || called@ == "set-cdr!"@
    &&& args.len() > 0
    &&& args[0].kind matches ExprKind::Variable(target)
    &&& target@ == name
}

/// Whether what is looked for is done to a name somewhere in an expression where the name is known: because
/// it is known outside, or because a form around the place binds it.
pub open spec fn is_done(expr: Expr, name: Seq<char>, known: bool, search: Search) -> bool
    decreases expr, 0nat,
{
    match expr.kind {
        ExprKind::Assign { name: other, value } => (search is Assignment && known && other@ == name) || is_done(
            *value,
            name,
            known,
            search,
        ),
        ExprKind::Call { callee, args } => (search is PairChange && known && changes_pair(*callee, args@, name)) || is_done(
            *callee,
            name,
            known,
            search,
        ) || is_done_in(args@, args@.len(), name, known, search),
        ExprKind::Begin(exprs) => is_done_in(exprs@, exprs@.len(), name, known, search),
        ExprKind::If { condition, then_branch, else_branch } => is_done(*condition, name, known, search) || is_done(
            *then_branch,
            name,
            known,
            search,
        ) || is_done(*else_branch, name, known, search),
        ExprKind::Guard { name: other, handler, body } => is_done(*body, name, known, search) || is_done(
            *handler,
            name,
            known || other@ == name,
            search,
        ),
        ExprKind::Delay(inner) => is_done(*inner, name, known, search),
        ExprKind::Force(inner) => is_done(*inner, name, known, search),
        ExprKind::Lambda { formals, body } => is_done(
            *body,
            name,
            known || formal_names(formals@).contains(name),
            search,
        ),
        ExprKind::Let { bindings, body } => is_done_in_values(bindings@, bindings@.len(), name, known, search, false)
            || is_done(*body, name, known || is_bound_before(bindings@, bindings@.len() as int, name), search),
        ExprKind::LetStar { bindings, body } => is_done_in_values(bindings@, bindings@.len(), name, known, search, true)
            || is_done(*body, name, known || is_bound_before(bindings@, bindings@.len() as int, name), search),
        ExprKind::LetRec { bindings, body } => {
            let inside = known || is_bound_before(bindings@, bindings@.len() as int, name);
            is_done_in_values(bindings@, bindings@.len(), name, inside, search, false) || is_done(
                *body,
                name,
                inside,
                search,
            )
        },
        _ => false,
    }
}

/// The same for the first of a row of expressions.
pub open spec fn is_done_in(exprs: Seq<Expr>, count: nat, name: Seq<char>, known: bool, search: Search) -> bool
    decreases exprs, count,
{
    0 < count <= exprs.len() && (is_done(exprs[count - 1], name, known, search) || is_done_in(
        exprs,
        (count - 1) as nat,
        name,
        known,
        search,
    ))
}

/// The same for the values of the first of a row of bindings, which see those before them or do not.
pub open spec fn is_done_in_values(
    bindings: Seq<Binding>,
    count: nat,
    name: Seq<char>,
    known: bool,
    search: Search,
    sequential: bool,
) -> bool
    decreases bindings, count,
{
    0 < count <= bindings.len() && (is_done(
        bindings[count - 1].value,
        name,
        known || (sequential && is_bound_before(bindings, count - 1, name)),
        search,
    ) || is_done_in_values(bindings, (count - 1) as nat, name, known, search, sequential))
}

proof fn lemma_joined(bound: Seq<Seq<char>>, more: Seq<Seq<char>>, name: Seq<char>)
    ensures
        (bound + more).contains(name) <==> bound.contains(name) || more.contains(name),
{
    let all = bound + more;
    if bound.contains(name) {
        let i = choose|i: int| 0 <= i < bound.len() && bound[i] == name;
        assert(all[i] == name);
    }
    if more.contains(name) {
        let i = choose|i: int| 0 <= i < more.len() && more[i] == name;
        assert(all[bound.len() + i] == name);
    }
    if all.contains(name) {
        let i = choose|i: int| 0 <= i < all.len() && all[i] == name;
        if i < bound.len() {
            assert(bound[i] == name);
        } else {
            assert(more[i - bound.len()] == name);
        }
    }
}

proof fn lemma_binding_names(bindings: Seq<Binding>, count: int, name: Seq<char>)
    requires
        0 <= count <= bindings.len(),
    ensures
        binding_names(bindings.subrange(0, count)).contains(name) <==> is_bound_before(bindings, count, name),
{
    let names = binding_names(bindings.subrange(0, count));
    if names.contains(name) {
        let i = choose|i: int| 0 <= i < names.len() && names[i] == name;
        assert(bindings[i].name@ == name);
    }
    if is_bound_before(bindings, count, name) {
        let i = choose|i: int| 0 <= i < count && (#[trigger] bindings[i]).name@ == name;
        assert(names[i] == name);
    }
}

/// What a scope knows behind all bindings of a row.
proof fn lemma_inside(bound: Seq<Seq<char>>, bindings: Seq<Binding>, name: Seq<char>)
    ensures
        (bound + binding_names(bindings)).contains(name) <==> bound.contains(name) || is_bound_before(
            bindings,
            bindings.len() as int,
            name,
        ),
{
    lemma_joined(bound, binding_names(bindings), name);
    lemma_binding_names(bindings, bindings.len() as int, name);
    assert(bindings.subrange(0, bindings.len() as int) =~= bindings);
}

proof fn lemma_pushed(bound: Seq<Seq<char>>, last: Seq<char>, name: Seq<char>)
    ensures
        bound.push(last).contains(name) <==> bound.contains(name) || last == name,
{
    lemma_joined(bound, seq![last], name);
    assert(bound.push(last) =~= bound + seq![last]);
    assert(seq![last].contains(name) <==> last == name) by {
        assert(seq![last][0] == last);
    }
}

/// A procedure captures exactly the names of its surroundings that are free in it and that it does not bind.
pub proof fn lemma_captured(outer: Set<Seq<char>>, expr: Expr, bound: Seq<Seq<char>>, name: Seq<char>)
    ensures
        free_names(outer, expr, bound).contains(name) <==> outer.contains(name) && !bound.contains(name) && is_free(expr, name),
    decreases expr, 0nat,
{
    match expr.kind {
        ExprKind::Assign { name: _, value } => {
            lemma_captured(outer, *value, bound, name);
        },
        ExprKind::Call { callee, args } => {
            lemma_captured(outer, *callee, bound, name);
            lemma_captured_in(outer, args@, args@.len(), bound, name);
        },
        ExprKind::Begin(exprs) => {
            lemma_captured_in(outer, exprs@, exprs@.len(), bound, name);
        },
        ExprKind::If { condition, then_branch, else_branch } => {
            lemma_captured(outer, *condition, bound, name);
            lemma_captured(outer, *then_branch, bound, name);
            lemma_captured(outer, *else_branch, bound, name);
        },
        ExprKind::Guard { name: other, handler, body } => {
            lemma_pushed(bound, other@, name);
            lemma_captured(outer, *body, bound, name);
            lemma_captured(outer, *handler, bound.push(other@), name);
        },
        ExprKind::Delay(inner) => {
            lemma_captured(outer, *inner, bound, name);
        },
        ExprKind::Force(inner) => {
            lemma_captured(outer, *inner, bound, name);
        },
        ExprKind::Lambda { formals, body } => {
            lemma_joined(bound, formal_names(formals@), name);
            lemma_captured(outer, *body, bound + formal_names(formals@), name);
        },
        ExprKind::Let { bindings, body } => {
            lemma_inside(bound, bindings@, name);
            lemma_captured_in_values(outer, bindings@, bindings@.len(), bound, name);
            lemma_captured(outer, *body, bound + binding_names(bindings@), name);
        },
        ExprKind::LetStar { bindings, body } => {
            lemma_inside(bound, bindings@, name);
            lemma_captured_in_sequence(outer, bindings@, bindings@.len(), bound, name);
            lemma_captured(outer, *body, bound + binding_names(bindings@), name);
        },
        ExprKind::LetRec { bindings, body } => {
            lemma_inside(bound, bindings@, name);
            lemma_captured_in_values(outer, bindings@, bindings@.len(), bound + binding_names(bindings@), name);
            lemma_captured(outer, *body, bound + binding_names(bindings@), name);
        },
        _ => {},
    }
}

proof fn lemma_captured_in(outer: Set<Seq<char>>, exprs: Seq<Expr>, count: nat, bound: Seq<Seq<char>>, name: Seq<char>)
    ensures
        free_names_in_all(outer, exprs, count, bound).contains(name) <==> outer.contains(name) && !bound.contains(name) && is_free_in(exprs, count, name),
    decreases exprs, count,
{
    if 0 < count <= exprs.len() {
        lemma_captured_in(outer, exprs, (count - 1) as nat, bound, name);
        lemma_captured(outer, exprs[count - 1], bound, name);
    }
}

proof fn lemma_captured_in_values(outer: Set<Seq<char>>, bindings: Seq<Binding>, count: nat, bound: Seq<Seq<char>>, name: Seq<char>)
    ensures
        free_names_in_values(outer, bindings, count, bound).contains(name) <==> outer.contains(name) && !bound.contains(name) && is_free_in_values(bindings, count, name, false),
    decreases bindings, count,
{
    if 0 < count <= bindings.len() {
        lemma_captured_in_values(outer, bindings, (count - 1) as nat, bound, name);
        lemma_captured(outer, bindings[count - 1].value, bound, name);
    }
}

proof fn lemma_captured_in_sequence(outer: Set<Seq<char>>, bindings: Seq<Binding>, count: nat, bound: Seq<Seq<char>>, name: Seq<char>)
    ensures
        free_names_in_sequence(outer, bindings, count, bound).contains(name) <==> outer.contains(name) && !bound.contains(name) && is_free_in_values(bindings, count, name, true),
    decreases bindings, count,
{
    if 0 < count <= bindings.len() {
        let before = binding_names(bindings.subrange(0, count - 1));
        lemma_joined(bound, before, name);
        lemma_binding_names(bindings, count - 1, name);
        lemma_captured_in_sequence(outer, bindings, (count - 1) as nat, bound, name);
        lemma_captured(outer, bindings[count - 1].value, bound + before, name);
    }
}

/// The names that are assigned to are exactly those for which there is an assignment where they are known.
pub proof fn lemma_assigned(expr: Expr, bound: Seq<Seq<char>>, name: Seq<char>)
    ensures
        mutated(expr, bound).contains(name) <==> is_done(expr, name, bound.contains(name), Search::Assignment),
    decreases expr, 0nat,
{
    match expr.kind {
        ExprKind::Assign { name: _, value } => {
            lemma_assigned(*value, bound, name);
        },
        ExprKind::Call { callee, args } => {
            lemma_assigned(*callee, bound, name);
            lemma_assigned_in(args@, args@.len(), bound, name);
        },
        ExprKind::Begin(exprs) => {
            lemma_assigned_in(exprs@, exprs@.len(), bound, name);
        },
        ExprKind::If { condition, then_branch, else_branch } => {
            lemma_assigned(*condition, bound, name);
            lemma_assigned(*then_branch, bound, name);
            lemma_assigned(*else_branch, bound, name);
        },
        ExprKind::Guard { name: other, handler, body } => {
            lemma_pushed(bound, other@, name);
            lemma_assigned(*body, bound, name);
            lemma_assigned(*handler, bound.push(other@), name);
        },
        ExprKind::Delay(inner) => {
            lemma_assigned(*inner, bound, name);
        },
        ExprKind::Force(inner) => {
            lemma_assigned(*inner, bound, name);
        },
        ExprKind::Lambda { formals, body } => {
            lemma_joined(bound, formal_names(formals@), name);
            lemma_assigned(*body, bound + formal_names(formals@), name);
        },
        ExprKind::Let { bindings, body } => {
            lemma_inside(bound, bindings@, name);
            lemma_assigned_in_values(bindings@, bindings@.len(), bound, name);
            lemma_assigned(*body, bound + binding_names(bindings@), name);
        },
        ExprKind::LetStar { bindings, body } => {
            lemma_inside(bound, bindings@, name);
            lemma_assigned_in_sequence(bindings@, bindings@.len(), bound, name);
            lemma_assigned(*body, bound + binding_names(bindings@), name);
        },
        ExprKind::LetRec { bindings, body } => {
            lemma_inside(bound, bindings@, name);
            lemma_assigned_in_values(bindings@, bindings@.len(), bound + binding_names(bindings@), name);
            lemma_assigned(*body, bound + binding_names(bindings@), name);
        },
        _ => {},
    }
}

proof fn lemma_assigned_in(exprs: Seq<Expr>, count: nat, bound: Seq<Seq<char>>, name: Seq<char>)
    ensures
        mutated_in_all(exprs, count, bound).contains(name) <==> is_done_in(exprs, count, name, bound.contains(name), Search::Assignment),
    decreases exprs, count,
{
    if 0 < count <= exprs.len() {
        lemma_assigned_in(exprs, (count - 1) as nat, bound, name);
        lemma_assigned(exprs[count - 1], bound, name);
    }
}

proof fn lemma_assigned_in_values(bindings: Seq<Binding>, count: nat, bound: Seq<Seq<char>>, name: Seq<char>)
    ensures
        mutated_in_values(bindings, count, bound).contains(name) <==> is_done_in_values(bindings, count, name, bound.contains(name), Search::Assignment, false),
    decreases bindings, count,
{
    if 0 < count <= bindings.len() {
        lemma_assigned_in_values(bindings, (count - 1) as nat, bound, name);
        lemma_assigned(bindings[count - 1].value, bound, name);
    }
}

proof fn lemma_assigned_in_sequence(bindings: Seq<Binding>, count: nat, bound: Seq<Seq<char>>, name: Seq<char>)
    ensures
        mutated_in_sequence(bindings, count, bound).contains(name) <==> is_done_in_values(bindings, count, name, bound.contains(name), Search::Assignment, true),
    decreases bindings, count,
{
    if 0 < count <= bindings.len() {
        let before = binding_names(bindings.subrange(0, count - 1));
        lemma_joined(bound, before, name);
        lemma_binding_names(bindings, count - 1, name);
        lemma_assigned_in_sequence(bindings, (count - 1) as nat, bound, name);
        lemma_assigned(bindings[count - 1].value, bound + before, name);
    }
}

/// The names whose pairs are changed are exactly those for which there is such a change where they are known.
pub proof fn lemma_pair_changed(expr: Expr, bound: Seq<Seq<char>>, name: Seq<char>)
    ensures
        pair_mutated(expr, bound).contains(name) <==> is_done(expr, name, bound.contains(name), Search::PairChange),
    decreases expr, 0nat,
{
    match expr.kind {
        ExprKind::Assign { name: _, value } => {
            lemma_pair_changed(*value, bound, name);
        },
        ExprKind::Call { callee, args } => {
            lemma_pair_changed(*callee, bound, name);
            lemma_pair_changed_in(args@, args@.len(), bound, name);
        },
        ExprKind::Begin(exprs) => {
            lemma_pair_changed_in(exprs@, exprs@.len(), bound, name);
        },
        ExprKind::If { condition, then_branch, else_branch } => {
            lemma_pair_changed(*condition, bound, name);
            lemma_pair_changed(*then_branch, bound, name);
            lemma_pair_changed(*else_branch, bound, name);
        },
        ExprKind::Guard { name: other, handler, body } => {
            lemma_pushed(bound, other@, name);
            lemma_pair_changed(*body, bound, name);
            lemma_pair_changed(*handler, bound.push(other@), name);
        },
        ExprKind::Delay(inner) => {
            lemma_pair_changed(*inner, bound, name);
        },
        ExprKind::Force(inner) => {
            lemma_pair_changed(*inner, bound, name);
        },
        ExprKind::Lambda { formals, body } => {
            lemma_joined(bound, formal_names(formals@), name);
            lemma_pair_changed(*body, bound + formal_names(formals@), name);
        },
        ExprKind::Let { bindings, body } => {
            lemma_inside(bound, bindings@, name);
            lemma_pair_changed_in_values(bindings@, bindings@.len(), bound, name);
            lemma_pair_changed(*body, bound + binding_names(bindings@), name);
        },
        ExprKind::LetStar { bindings, body } => {
            lemma_inside(bound, bindings@, name);
            lemma_pair_changed_in_sequence(bindings@, bindings@.len(), bound, name);
            lemma_pair_changed(*body, bound + binding_names(bindings@), name);
        },
        ExprKind::LetRec { bindings, body } => {
            lemma_inside(bound, bindings@, name);
            lemma_pair_changed_in_values(bindings@, bindings@.len(), bound + binding_names(bindings@), name);
            lemma_pair_changed(*body, bound + binding_names(bindings@), name);
        },
        _ => {},
    }
}

proof fn lemma_pair_changed_in(exprs: Seq<Expr>, count: nat, bound: Seq<Seq<char>>, name: Seq<char>)
    ensures
        pair_mutated_in_all(exprs, count, bound).contains(name) <==> is_done_in(exprs, count, name, bound.contains(name), Search::PairChange),
    decreases exprs, count,
{
    if 0 < count <= exprs.len() {
        lemma_pair_changed_in(exprs, (count - 1) as nat, bound, name);
        lemma_pair_changed(exprs[count - 1], bound, name);
    }
}

proof fn lemma_pair_changed_in_values(bindings: Seq<Binding>, count: nat, bound: Seq<Seq<char>>, name: Seq<char>)
    ensures
        pair_mutated_in_values(bindings, count, bound).contains(name) <==> is_done_in_values(bindings, count, name, bound.contains(name), Search::PairChange, false),
    decreases bindings, count,
{
    if 0 < count <= bindings.len() {
        lemma_pair_changed_in_values(bindings, (count - 1) as nat, bound, name);
        lemma_pair_changed(bindings[count - 1].value, bound, name);
    }
}

proof fn lemma_pair_changed_in_sequence(bindings: Seq<Binding>, count: nat, bound: Seq<Seq<char>>, name: Seq<char>)
    ensures
        pair_mutated_in_sequence(bindings, count, bound).contains(name) <==> is_done_in_values(bindings, count, name, bound.contains(name), Search::PairChange, true),
    decreases bindings, count,
{
    if 0 < count <= bindings.len() {
        let before = binding_names(bindings.subrange(0, count - 1));
        lemma_joined(bound, before, name);
        lemma_binding_names(bindings, count - 1, name);
        lemma_pair_changed_in_sequence(bindings, (count - 1) as nat, bound, name);
        lemma_pair_changed(bindings[count - 1].value, bound + before, name);
    }
}

} // verus!
