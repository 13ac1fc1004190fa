//! Which names an expression assigns, mutates as pairs, or refers to from outside.
use crate::middle::hir::{
    binding_names, formal_names, names_of_bindings, Binding, Expr, ExprKind, Formals, Program, TopLevel,
};
use crate::names::{
    ascending, clone_names, contains_name, extend_names, insert_name_sorted, lemma_ascending,
    lemma_insert_sorted, name_texts, names_ascend, NameSet,
};
use crate::text::same;
use vstd::prelude::*;

verus! {

broadcast use vstd::seq_lib::group_seq_properties;

proof fn lemma_texts_concat(left: Seq<String>, right: Seq<String>)
    ensures
        name_texts(left + right) == name_texts(left) + name_texts(right),
{
    assert(name_texts(left + right) =~= name_texts(left) + name_texts(right));
}

/// A scope that binds `more` on top of what `bound` binds.
fn inner_scope(bound: &Vec<String>, more: &Vec<String>) -> (scope: Vec<String>)
    ensures
        name_texts(scope@) == name_texts(bound@) + name_texts(more@),
{
    let mut scope = clone_names(bound);
    extend_names(&mut scope, more);
    proof {
        lemma_texts_concat(bound@, more@);
    }
    scope
}

/// A scope that binds one name on top of what `bound` binds.
fn scope_with(bound: &Vec<String>, name: &String) -> (scope: Vec<String>)
    ensures
        name_texts(scope@) == name_texts(bound@).push(name@),
{
    let mut scope = clone_names(bound);
    scope.push(name.clone());
    assert(name_texts(scope@) =~= name_texts(bound@).push(name@));
    scope
}

/// The names among `bound`, or bound inside `expr`, that an assignment inside `expr` changes.
pub open spec fn mutated(expr: Expr, bound: Seq<Seq<char>>) -> Set<Seq<char>>
    decreases expr, 0nat,
{
    match expr.kind {
        ExprKind::Unspecified => Set::empty(),
        ExprKind::Integer(_) => Set::empty(),
        ExprKind::Boolean(_) => Set::empty(),
        ExprKind::Char(_) => Set::empty(),
        ExprKind::String(_) => Set::empty(),
        ExprKind::Variable(name) => Set::empty(),
        ExprKind::Quote(_) => Set::empty(),
        ExprKind::Assign { name, value } => if bound.contains(name@) {
            mutated(*value, bound).insert(name@)
        } else {
            mutated(*value, bound)
        },
        ExprKind::Call { callee, args } => mutated(*callee, bound).union(mutated_in_all(args@, args@.len(), bound)),
        ExprKind::Begin(exprs) => mutated_in_all(exprs@, exprs@.len(), bound),
        ExprKind::If { condition, then_branch, else_branch } => mutated(*condition, bound).union(
            mutated(*then_branch, bound),
        ).union(mutated(*else_branch, bound)),
        ExprKind::Guard { name, handler, body } => mutated(*body, bound).union(
            mutated(*handler, bound.push(name@)),
        ),
        ExprKind::Delay(inner) => mutated(*inner, bound),
        ExprKind::Force(inner) => mutated(*inner, bound),
        ExprKind::Lambda { formals, body } => mutated(*body, bound + formal_names(formals@)),
        ExprKind::Let { bindings, body } => mutated_in_values(bindings@, bindings@.len(), bound).union(
            mutated(*body, bound + binding_names(bindings@)),
        ),
        ExprKind::LetStar { bindings, body } => mutated_in_sequence(bindings@, bindings@.len(), bound).union(
            mutated(*body, bound + binding_names(bindings@)),
        ),
        ExprKind::LetRec { bindings, body } => mutated_in_values(
            bindings@,
            bindings@.len(),
            bound + binding_names(bindings@),
        ).union(mutated(*body, bound + binding_names(bindings@))),
    }
}

/// The same for the first `count` of a row of expressions.
pub open spec fn mutated_in_all(exprs: Seq<Expr>, count: nat, bound: Seq<Seq<char>>) -> Set<Seq<char>>
    decreases exprs, count,
{
    if count == 0 || count > exprs.len() {
        Set::empty()
    } else {
        mutated_in_all(exprs, (count - 1) as nat, bound).union(mutated(exprs[count - 1], bound))
    }
}

/// The same for the values of the first `count` of a row of bindings, each seen from outside
/// the bindings.
pub open spec fn mutated_in_values(bindings: Seq<Binding>, count: nat, bound: Seq<Seq<char>>) -> Set<Seq<char>>
    decreases bindings, count,
{
    if count == 0 || count > bindings.len() {
        Set::empty()
    } else {
        mutated_in_values(bindings, (count - 1) as nat, bound).union(
            mutated(bindings[count - 1].value, bound),
        )
    }
}

/// The same for the values of the first `count` of a row of bindings, each of which sees the
/// names before it.
pub open spec fn mutated_in_sequence(bindings: Seq<Binding>, count: nat, bound: Seq<Seq<char>>) -> Set<Seq<char>>
    decreases bindings, count,
{
    if count == 0 || count > bindings.len() {
        Set::empty()
    } else {
        mutated_in_sequence(bindings, (count - 1) as nat, bound).union(
            mutated(
                bindings[count - 1].value,
                bound + binding_names(bindings.subrange(0, count - 1)),
            ),
        )
    }
}

/// Adds to `out` the names that assignments inside `expr` change.
pub fn collect_mutated_in_expr(expr: &Expr, bound: &Vec<String>, out: &mut NameSet)
    ensures
        final(out)@ == old(out)@.union(mutated(*expr, name_texts(bound@))),
    decreases expr,
{
    match &expr.kind {
        ExprKind::Unspecified => {},
        ExprKind::Integer(_) => {},
        ExprKind::Boolean(_) => {},
        ExprKind::Char(_) => {},
        ExprKind::String(_) => {},
        ExprKind::Variable(name) => {},
        ExprKind::Quote(_) => {},
        ExprKind::Assign { name, value } => {
            if contains_name(bound, name.as_str()) {
                out.insert(name.clone());
            }
            collect_mutated_in_expr(value, bound, out);
        },
        ExprKind::Call { callee, args } => {
            collect_mutated_in_expr(callee, bound, out);
            let mut index: usize = 0;
            let ghost done = out@;
            while index < args.len()
                invariant
                    index <= args@.len(),
                    decreases_to!(*expr => args@),
                    out@ =~= done.union(mutated_in_all(args@, index as nat, name_texts(bound@))),
                decreases args@.len() - index,
            {
                collect_mutated_in_expr(&args[index], bound, out);
                index = index + 1;
            }
        },
        ExprKind::Begin(exprs) => {
            let mut index: usize = 0;
            let ghost done = out@;
            while index < exprs.len()
                invariant
                    index <= exprs@.len(),
                    decreases_to!(*expr => exprs@),
                    out@ =~= done.union(mutated_in_all(exprs@, index as nat, name_texts(bound@))),
                decreases exprs@.len() - index,
            {
                collect_mutated_in_expr(&exprs[index], bound, out);
                index = index + 1;
            }
        },
        ExprKind::If { condition, then_branch, else_branch } => {
            collect_mutated_in_expr(condition, bound, out);
            collect_mutated_in_expr(then_branch, bound, out);
            collect_mutated_in_expr(else_branch, bound, out);
        },
        ExprKind::Guard { name, handler, body } => {
            collect_mutated_in_expr(body, bound, out);
            let scope = scope_with(bound, name);
            collect_mutated_in_expr(handler, &scope, out);
        },
        ExprKind::Delay(inner) => {
            collect_mutated_in_expr(inner, bound, out);
        },
        ExprKind::Force(inner) => {
            collect_mutated_in_expr(inner, bound, out);
        },
        ExprKind::Lambda { formals, body } => {
            let names = formals.all_names();
            let scope = inner_scope(bound, &names);
            collect_mutated_in_expr(body, &scope, out);
        },
        ExprKind::Let { bindings, body } => {
            let mut index: usize = 0;
            let ghost done = out@;
            while index < bindings.len()
                invariant
                    index <= bindings@.len(),
                    decreases_to!(*expr => bindings@),
                    out@ =~= done.union(mutated_in_values(bindings@, index as nat, name_texts(bound@))),
                decreases bindings@.len() - index,
            {
                collect_mutated_in_expr(&bindings[index].value, bound, out);
                index = index + 1;
            }
            let names = names_of_bindings(bindings);
            let scope = inner_scope(bound, &names);
            collect_mutated_in_expr(body, &scope, out);
        },
        ExprKind::LetStar { bindings, body } => {
            let mut index: usize = 0;
            let ghost done = out@;
            let mut scope = clone_names(bound);
            assert(name_texts(bound@) + binding_names(bindings@.subrange(0, 0)) =~= name_texts(bound@));
            while index < bindings.len()
                invariant
                    index <= bindings@.len(),
                    decreases_to!(*expr => bindings@),
                    name_texts(scope@) == name_texts(bound@) + binding_names(bindings@.subrange(0, index as int)),
                    out@ =~= done.union(mutated_in_sequence(bindings@, index as nat, name_texts(bound@))),
                decreases bindings@.len() - index,
            {
                collect_mutated_in_expr(&bindings[index].value, &scope, out);
                let ghost before_scope = scope@;
                scope.push(bindings[index].name.clone());
                proof {
                    assert(name_texts(scope@) =~= name_texts(before_scope).push(bindings@[index as int].name@));
                    assert(binding_names(bindings@.subrange(0, index + 1)) =~= binding_names(
                        bindings@.subrange(0, index as int),
                    ).push(bindings@[index as int].name@));
                    assert(name_texts(scope@) =~= name_texts(bound@) + binding_names(bindings@.subrange(0, index + 1)));
                }
                index = index + 1;
            }
            assert(bindings@.subrange(0, bindings@.len() as int) =~= bindings@);
            collect_mutated_in_expr(body, &scope, out);
        },
        ExprKind::LetRec { bindings, body } => {
            let names = names_of_bindings(bindings);
            let scope = inner_scope(bound, &names);
            let mut index: usize = 0;
            let ghost done = out@;
            while index < bindings.len()
                invariant
                    index <= bindings@.len(),
                    decreases_to!(*expr => bindings@),
                    name_texts(scope@) == name_texts(bound@) + binding_names(bindings@),
                    out@ =~= done.union(mutated_in_values(bindings@, index as nat, name_texts(scope@))),
                decreases bindings@.len() - index,
            {
                collect_mutated_in_expr(&bindings[index].value, &scope, out);
                index = index + 1;
            }
            collect_mutated_in_expr(body, &scope, out);
        },
    }
    assert(out@ =~= old(out)@.union(mutated(*expr, name_texts(bound@))));
}

/// The variable whose pair a call changes: the first argument of `set-car!` and `set-cdr!`.
pub open spec fn pair_mutation_target(callee: Expr, args: Seq<Expr>) -> Option<Seq<char>> {
    match callee.kind {
        ExprKind::Variable(name) => if (name@ == "set-car!"@ || name@ == "set-cdr!"@) && args.len() > 0 {
            match args[0].kind {
                ExprKind::Variable(target) => Some(target@),
                _ => None,
            }
        } else {
            None
        },
        _ => None,
    }
}

fn mutation_target(callee: &Expr, args: &Vec<Expr>) -> (target: Option<String>)
    ensures
        match target {
            Some(target) => pair_mutation_target(*callee, args@) == Some(target@),
            None => pair_mutation_target(*callee, args@).is_none(),
        },
{
    if let ExprKind::Variable(name) = &callee.kind {
        if (same(name.as_str(), "set-car!") || same(name.as_str(), "set-cdr!")) && args.len() > 0 {
            if let ExprKind::Variable(target) = &args[0].kind {
                return Some(target.clone());
            }
        }
    }
    None
}

/// The names among `bound`, or bound inside `expr`, that are the first argument of a call of
/// `set-car!` or `set-cdr!` inside `expr`.
pub open spec fn pair_mutated(expr: Expr, bound: Seq<Seq<char>>) -> Set<Seq<char>>
    decreases expr, 0nat,
{
    match expr.kind {
        ExprKind::Unspecified => Set::empty(),
        ExprKind::Integer(_) => Set::empty(),
        ExprKind::Boolean(_) => Set::empty(),
        ExprKind::Char(_) => Set::empty(),
        ExprKind::String(_) => Set::empty(),
        ExprKind::Variable(name) => Set::empty(),
        ExprKind::Quote(_) => Set::empty(),
        ExprKind::Assign { name, value } => pair_mutated(*value, bound),
        ExprKind::Call { callee, args } => if pair_mutation_target(*callee, args@).is_some() && bound.contains(
            pair_mutation_target(*callee, args@).unwrap(),
        ) {
            pair_mutated(*callee, bound).union(pair_mutated_in_all(args@, args@.len(), bound)).insert(
                pair_mutation_target(*callee, args@).unwrap(),
            )
        } else {
            pair_mutated(*callee, bound).union(pair_mutated_in_all(args@, args@.len(), bound))
        },
        ExprKind::Begin(exprs) => pair_mutated_in_all(exprs@, exprs@.len(), bound),
        ExprKind::If { condition, then_branch, else_branch } => pair_mutated(*condition, bound).union(
            pair_mutated(*then_branch, bound),
        ).union(pair_mutated(*else_branch, bound)),
        ExprKind::Guard { name, handler, body } => pair_mutated(*body, bound).union(
            pair_mutated(*handler, bound.push(name@)),
        ),
        ExprKind::Delay(inner) => pair_mutated(*inner, bound),
        ExprKind::Force(inner) => pair_mutated(*inner, bound),
        ExprKind::Lambda { formals, body } => pair_mutated(*body, bound + formal_names(formals@)),
        ExprKind::Let { bindings, body } => pair_mutated_in_values(bindings@, bindings@.len(), bound).union(
            pair_mutated(*body, bound + binding_names(bindings@)),
        ),
        ExprKind::LetStar { bindings, body } => pair_mutated_in_sequence(bindings@, bindings@.len(), bound).union(
            pair_mutated(*body, bound + binding_names(bindings@)),
        ),
        ExprKind::LetRec { bindings, body } => pair_mutated_in_values(
            bindings@,
            bindings@.len(),
            bound + binding_names(bindings@),
        ).union(pair_mutated(*body, bound + binding_names(bindings@))),
    }
}

/// The same for the first `count` of a row of expressions.
pub open spec fn pair_mutated_in_all(exprs: Seq<Expr>, count: nat, bound: Seq<Seq<char>>) -> Set<Seq<char>>
    decreases exprs, count,
{
    if count == 0 || count > exprs.len() {
        Set::empty()
    } else {
        pair_mutated_in_all(exprs, (count - 1) as nat, bound).union(pair_mutated(exprs[count - 1], bound))
    }
}

/// The same for the values of the first `count` of a row of bindings, each seen from outside
/// the bindings.
pub open spec fn pair_mutated_in_values(bindings: Seq<Binding>, count: nat, bound: Seq<Seq<char>>) -> Set<Seq<char>>
    decreases bindings, count,
{
    if count == 0 || count > bindings.len() {
        Set::empty()
    } else {
        pair_mutated_in_values(bindings, (count - 1) as nat, bound).union(
            pair_mutated(bindings[count - 1].value, bound),
        )
    }
}

/// The same for the values of the first `count` of a row of bindings, each of which sees the
/// names before it.
pub open spec fn pair_mutated_in_sequence(bindings: Seq<Binding>, count: nat, bound: Seq<Seq<char>>) -> Set<Seq<char>>
    decreases bindings, count,
{
    if count == 0 || count > bindings.len() {
        Set::empty()
    } else {
        pair_mutated_in_sequence(bindings, (count - 1) as nat, bound).union(
            pair_mutated(
                bindings[count - 1].value,
                bound + binding_names(bindings.subrange(0, count - 1)),
            ),
        )
    }
}

/// Adds to `out` the names whose pairs `expr` changes.
pub fn collect_pair_mutated_in_expr(expr: &Expr, bound: &Vec<String>, out: &mut NameSet)
    ensures
        final(out)@ == old(out)@.union(pair_mutated(*expr, name_texts(bound@))),
    decreases expr,
{
    match &expr.kind {
        ExprKind::Unspecified => {},
        ExprKind::Integer(_) => {},
        ExprKind::Boolean(_) => {},
        ExprKind::Char(_) => {},
        ExprKind::String(_) => {},
        ExprKind::Variable(name) => {},
        ExprKind::Quote(_) => {},
        ExprKind::Assign { name, value } => {
            collect_pair_mutated_in_expr(value, bound, out);
        },
        ExprKind::Call { callee, args } => {
            if let Some(target) = mutation_target(callee, args) {
                if contains_name(bound, target.as_str()) {
                    out.insert(target);
                }
            }
            collect_pair_mutated_in_expr(callee, bound, out);
            let mut index: usize = 0;
            let ghost done = out@;
            while index < args.len()
                invariant
                    index <= args@.len(),
                    decreases_to!(*expr => args@),
                    out@ =~= done.union(pair_mutated_in_all(args@, index as nat, name_texts(bound@))),
                decreases args@.len() - index,
            {
                collect_pair_mutated_in_expr(&args[index], bound, out);
                index = index + 1;
            }
        },
        ExprKind::Begin(exprs) => {
            let mut index: usize = 0;
            let ghost done = out@;
            while index < exprs.len()
                invariant
                    index <= exprs@.len(),
                    decreases_to!(*expr => exprs@),
                    out@ =~= done.union(pair_mutated_in_all(exprs@, index as nat, name_texts(bound@))),
                decreases exprs@.len() - index,
            {
                collect_pair_mutated_in_expr(&exprs[index], bound, out);
                index = index + 1;
            }
        },
        ExprKind::If { condition, then_branch, else_branch } => {
            collect_pair_mutated_in_expr(condition, bound, out);
            collect_pair_mutated_in_expr(then_branch, bound, out);
            collect_pair_mutated_in_expr(else_branch, bound, out);
        },
        ExprKind::Guard { name, handler, body } => {
            collect_pair_mutated_in_expr(body, bound, out);
            let scope = scope_with(bound, name);
            collect_pair_mutated_in_expr(handler, &scope, out);
        },
        ExprKind::Delay(inner) => {
            collect_pair_mutated_in_expr(inner, bound, out);
        },
        ExprKind::Force(inner) => {
            collect_pair_mutated_in_expr(inner, bound, out);
        },
        ExprKind::Lambda { formals, body } => {
            let names = formals.all_names();
            let scope = inner_scope(bound, &names);
            collect_pair_mutated_in_expr(body, &scope, out);
        },
        ExprKind::Let { bindings, body } => {
            let mut index: usize = 0;
            let ghost done = out@;
            while index < bindings.len()
                invariant
                    index <= bindings@.len(),
                    decreases_to!(*expr => bindings@),
                    out@ =~= done.union(pair_mutated_in_values(bindings@, index as nat, name_texts(bound@))),
                decreases bindings@.len() - index,
            {
                collect_pair_mutated_in_expr(&bindings[index].value, bound, out);
                index = index + 1;
            }
            let names = names_of_bindings(bindings);
            let scope = inner_scope(bound, &names);
            collect_pair_mutated_in_expr(body, &scope, out);
        },
        ExprKind::LetStar { bindings, body } => {
            let mut index: usize = 0;
            let ghost done = out@;
            let mut scope = clone_names(bound);
            assert(name_texts(bound@) + binding_names(bindings@.subrange(0, 0)) =~= name_texts(bound@));
            while index < bindings.len()
                invariant
                    index <= bindings@.len(),
                    decreases_to!(*expr => bindings@),
                    name_texts(scope@) == name_texts(bound@) + binding_names(bindings@.subrange(0, index as int)),
                    out@ =~= done.union(pair_mutated_in_sequence(bindings@, index as nat, name_texts(bound@))),
                decreases bindings@.len() - index,
            {
                collect_pair_mutated_in_expr(&bindings[index].value, &scope, out);
                let ghost before_scope = scope@;
                scope.push(bindings[index].name.clone());
                proof {
                    assert(name_texts(scope@) =~= name_texts(before_scope).push(bindings@[index as int].name@));
                    assert(binding_names(bindings@.subrange(0, index + 1)) =~= binding_names(
                        bindings@.subrange(0, index as int),
                    ).push(bindings@[index as int].name@));
                    assert(name_texts(scope@) =~= name_texts(bound@) + binding_names(bindings@.subrange(0, index + 1)));
                }
                index = index + 1;
            }
            assert(bindings@.subrange(0, bindings@.len() as int) =~= bindings@);
            collect_pair_mutated_in_expr(body, &scope, out);
        },
        ExprKind::LetRec { bindings, body } => {
            let names = names_of_bindings(bindings);
            let scope = inner_scope(bound, &names);
            let mut index: usize = 0;
            let ghost done = out@;
            while index < bindings.len()
                invariant
                    index <= bindings@.len(),
                    decreases_to!(*expr => bindings@),
                    name_texts(scope@) == name_texts(bound@) + binding_names(bindings@),
                    out@ =~= done.union(pair_mutated_in_values(bindings@, index as nat, name_texts(scope@))),
                decreases bindings@.len() - index,
            {
                collect_pair_mutated_in_expr(&bindings[index].value, &scope, out);
                index = index + 1;
            }
            collect_pair_mutated_in_expr(body, &scope, out);
        },
    }
    assert(out@ =~= old(out)@.union(pair_mutated(*expr, name_texts(bound@))));
}

fn insert_free(out: &mut Vec<String>, name: &String)
    requires
        names_ascend(name_texts(old(out)@)),
    ensures
        names_ascend(name_texts(final(out)@)),
        name_texts(final(out)@).to_set() == name_texts(old(out)@).to_set().insert(name@),
{
    insert_name_sorted(out, name.as_str());
    proof {
        lemma_insert_sorted(name_texts(old(out)@), name@);
        assert(name_texts(out@).to_set() =~= name_texts(old(out)@).to_set().insert(name@));
    }
}

/// The names of `outer` that `expr` refers to, other than those in `bound`.
pub open spec fn free_names(outer: Set<Seq<char>>, expr: Expr, bound: Seq<Seq<char>>) -> Set<Seq<char>>
    decreases expr, 0nat,
{
    match expr.kind {
        ExprKind::Unspecified => Set::empty(),
        ExprKind::Integer(_) => Set::empty(),
        ExprKind::Boolean(_) => Set::empty(),
        ExprKind::Char(_) => Set::empty(),
        ExprKind::String(_) => Set::empty(),
        ExprKind::Variable(name) => if outer.contains(name@) && !bound.contains(name@) {
            set![name@]
        } else {
            Set::empty()
        },
        ExprKind::Quote(_) => Set::empty(),
        ExprKind::Assign { name, value } => if outer.contains(name@) && !bound.contains(name@) {
            free_names(outer, *value, bound).insert(name@)
        } else {
            free_names(outer, *value, bound)
        },
        ExprKind::Call { callee, args } => free_names(outer, *callee, bound).union(free_names_in_all(outer, args@, args@.len(), bound)),
        ExprKind::Begin(exprs) => free_names_in_all(outer, exprs@, exprs@.len(), bound),
        ExprKind::If { condition, then_branch, else_branch } => free_names(outer, *condition, bound).union(
            free_names(outer, *then_branch, bound),
        ).union(free_names(outer, *else_branch, bound)),
        ExprKind::Guard { name, handler, body } => free_names(outer, *body, bound).union(
            free_names(outer, *handler, bound.push(name@)),
        ),
        ExprKind::Delay(inner) => free_names(outer, *inner, bound),
        ExprKind::Force(inner) => free_names(outer, *inner, bound),
        ExprKind::Lambda { formals, body } => free_names(outer, *body, bound + formal_names(formals@)),
        ExprKind::Let { bindings, body } => free_names_in_values(outer, bindings@, bindings@.len(), bound).union(
            free_names(outer, *body, bound + binding_names(bindings@)),
        ),
        ExprKind::LetStar { bindings, body } => free_names_in_sequence(outer, bindings@, bindings@.len(), bound).union(
            free_names(outer, *body, bound + binding_names(bindings@)),
        ),
        ExprKind::LetRec { bindings, body } => free_names_in_values(
            outer, bindings@,
            bindings@.len(),
            bound + binding_names(bindings@),
        ).union(free_names(outer, *body, bound + binding_names(bindings@))),
    }
}

/// The same for the first `count` of a row of expressions.
pub open spec fn free_names_in_all(outer: Set<Seq<char>>, exprs: Seq<Expr>, count: nat, bound: Seq<Seq<char>>) -> Set<Seq<char>>
    decreases exprs, count,
{
    if count == 0 || count > exprs.len() {
        Set::empty()
    } else {
        free_names_in_all(outer, exprs, (count - 1) as nat, bound).union(free_names(outer, exprs[count - 1], bound))
    }
}

/// The same for the values of the first `count` of a row of bindings, each seen from outside
/// the bindings.
pub open spec fn free_names_in_values(outer: Set<Seq<char>>, bindings: Seq<Binding>, count: nat, bound: Seq<Seq<char>>) -> Set<Seq<char>>
    decreases bindings, count,
{
    if count == 0 || count > bindings.len() {
        Set::empty()
    } else {
        free_names_in_values(outer, bindings, (count - 1) as nat, bound).union(
            free_names(outer, bindings[count - 1].value, bound),
        )
    }
}

/// The same for the values of the first `count` of a row of bindings, each of which sees the
/// names before it.
pub open spec fn free_names_in_sequence(outer: Set<Seq<char>>, bindings: Seq<Binding>, count: nat, bound: Seq<Seq<char>>) -> Set<Seq<char>>
    decreases bindings, count,
{
    if count == 0 || count > bindings.len() {
        Set::empty()
    } else {
        free_names_in_sequence(outer, bindings, (count - 1) as nat, bound).union(
            free_names(
                outer, bindings[count - 1].value,
                bound + binding_names(bindings.subrange(0, count - 1)),
            ),
        )
    }
}

/// Puts the names of `outer` that `expr` refers to, other than those in `bound`, in their places
/// in the ascending list `out`.
pub fn collect_free_vars(expr: &Expr, outer: &NameSet, bound: &Vec<String>, out: &mut Vec<String>)
    requires
        names_ascend(name_texts(old(out)@)),
    ensures
        names_ascend(name_texts(final(out)@)),
        name_texts(final(out)@).to_set() == name_texts(old(out)@).to_set().union(free_names(outer@, *expr, name_texts(bound@))),
    decreases expr,
{
    match &expr.kind {
        ExprKind::Unspecified => {},
        ExprKind::Integer(_) => {},
        ExprKind::Boolean(_) => {},
        ExprKind::Char(_) => {},
        ExprKind::String(_) => {},
        ExprKind::Variable(name) => {
            if outer.contains(name.as_str()) && !contains_name(bound, name.as_str()) {
                insert_free(out, name);
            }
        },
        ExprKind::Quote(_) => {},
        ExprKind::Assign { name, value } => {
            if outer.contains(name.as_str()) && !contains_name(bound, name.as_str()) {
                insert_free(out, name);
            }
            collect_free_vars(value, outer, bound, out);
        },
        ExprKind::Call { callee, args } => {
            collect_free_vars(callee, outer, bound, out);
            let mut index: usize = 0;
            let ghost done = name_texts(out@).to_set();
            while index < args.len()
                invariant
                    index <= args@.len(),
                    decreases_to!(*expr => args@),
                    names_ascend(name_texts(out@)),
                    name_texts(out@).to_set() =~= done.union(free_names_in_all(outer@, args@, index as nat, name_texts(bound@))),
                decreases args@.len() - index,
            {
                collect_free_vars(&args[index], outer, bound, out);
                index = index + 1;
            }
        },
        ExprKind::Begin(exprs) => {
            let mut index: usize = 0;
            let ghost done = name_texts(out@).to_set();
            while index < exprs.len()
                invariant
                    index <= exprs@.len(),
                    decreases_to!(*expr => exprs@),
                    names_ascend(name_texts(out@)),
                    name_texts(out@).to_set() =~= done.union(free_names_in_all(outer@, exprs@, index as nat, name_texts(bound@))),
                decreases exprs@.len() - index,
            {
                collect_free_vars(&exprs[index], outer, bound, out);
                index = index + 1;
            }
        },
        ExprKind::If { condition, then_branch, else_branch } => {
            collect_free_vars(condition, outer, bound, out);
            collect_free_vars(then_branch, outer, bound, out);
            collect_free_vars(else_branch, outer, bound, out);
        },
        ExprKind::Guard { name, handler, body } => {
            collect_free_vars(body, outer, bound, out);
            let scope = scope_with(bound, name);
            collect_free_vars(handler, outer, &scope, out);
        },
        ExprKind::Delay(inner) => {
            collect_free_vars(inner, outer, bound, out);
        },
        ExprKind::Force(inner) => {
            collect_free_vars(inner, outer, bound, out);
        },
        ExprKind::Lambda { formals, body } => {
            let names = formals.all_names();
            let scope = inner_scope(bound, &names);
            collect_free_vars(body, outer, &scope, out);
        },
        ExprKind::Let { bindings, body } => {
            let mut index: usize = 0;
            let ghost done = name_texts(out@).to_set();
            while index < bindings.len()
                invariant
                    index <= bindings@.len(),
                    decreases_to!(*expr => bindings@),
                    names_ascend(name_texts(out@)),
                    name_texts(out@).to_set() =~= done.union(free_names_in_values(outer@, bindings@, index as nat, name_texts(bound@))),
                decreases bindings@.len() - index,
            {
                collect_free_vars(&bindings[index].value, outer, bound, out);
                index = index + 1;
            }
            let names = names_of_bindings(bindings);
            let scope = inner_scope(bound, &names);
            collect_free_vars(body, outer, &scope, out);
        },
        ExprKind::LetStar { bindings, body } => {
            let mut index: usize = 0;
            let ghost done = name_texts(out@).to_set();
            let mut scope = clone_names(bound);
            assert(name_texts(bound@) + binding_names(bindings@.subrange(0, 0)) =~= name_texts(bound@));
            while index < bindings.len()
                invariant
                    index <= bindings@.len(),
                    decreases_to!(*expr => bindings@),
                    name_texts(scope@) == name_texts(bound@) + binding_names(bindings@.subrange(0, index as int)),
                    names_ascend(name_texts(out@)),
                    name_texts(out@).to_set() =~= done.union(free_names_in_sequence(outer@, bindings@, index as nat, name_texts(bound@))),
                decreases bindings@.len() - index,
            {
                collect_free_vars(&bindings[index].value, outer, &scope, out);
                let ghost before_scope = scope@;
                scope.push(bindings[index].name.clone());
                proof {
                    assert(name_texts(scope@) =~= name_texts(before_scope).push(bindings@[index as int].name@));
                    assert(binding_names(bindings@.subrange(0, index + 1)) =~= binding_names(
                        bindings@.subrange(0, index as int),
                    ).push(bindings@[index as int].name@));
                    assert(name_texts(scope@) =~= name_texts(bound@) + binding_names(bindings@.subrange(0, index + 1)));
                }
                index = index + 1;
            }
            assert(bindings@.subrange(0, bindings@.len() as int) =~= bindings@);
            collect_free_vars(body, outer, &scope, out);
        },
        ExprKind::LetRec { bindings, body } => {
            let names = names_of_bindings(bindings);
            let scope = inner_scope(bound, &names);
            let mut index: usize = 0;
            let ghost done = name_texts(out@).to_set();
            while index < bindings.len()
                invariant
                    index <= bindings@.len(),
                    decreases_to!(*expr => bindings@),
                    name_texts(scope@) == name_texts(bound@) + binding_names(bindings@),
                    names_ascend(name_texts(out@)),
                    name_texts(out@).to_set() =~= done.union(free_names_in_values(outer@, bindings@, index as nat, name_texts(scope@))),
                decreases bindings@.len() - index,
            {
                collect_free_vars(&bindings[index].value, outer, &scope, out);
                index = index + 1;
            }
            collect_free_vars(body, outer, &scope, out);
        },
    }
    assert(name_texts(out@).to_set() =~= name_texts(old(out)@).to_set().union(free_names(outer@, *expr, name_texts(bound@))));
}

/// The names that the first `count` items of a program bind, as far as later items see them.
pub open spec fn top_level_bound(items: Seq<TopLevel>, count: nat) -> Seq<Seq<char>>
    decreases count,
{
    if count == 0 || count > items.len() {
        Seq::empty()
    } else {
        let before = top_level_bound(items, (count - 1) as nat);
        match items[count - 1] {
            TopLevel::Definition { name, value } => before.push(name@),
            TopLevel::Procedure(procedure) => before.push(procedure.name@),
            TopLevel::Expression(expr) => before,
        }
    }
}

/// The expression that an item of a program evaluates.
pub open spec fn item_expr(item: TopLevel) -> Expr {
    match item {
        TopLevel::Definition { name, value } => value,
        TopLevel::Procedure(procedure) => procedure.body,
        TopLevel::Expression(expr) => expr,
    }
}

/// The names that assignments in the first `count` items of a program change.
pub open spec fn program_mutated(items: Seq<TopLevel>, count: nat) -> Set<Seq<char>>
    decreases count,
{
    if count == 0 || count > items.len() {
        Set::empty()
    } else {
        program_mutated(items, (count - 1) as nat).union(
            mutated(item_expr(items[count - 1]), top_level_bound(items, count)),
        )
    }
}

/// The names whose pairs the first `count` items of a program change.
pub open spec fn program_pair_mutated(items: Seq<TopLevel>, count: nat) -> Set<Seq<char>>
    decreases count,
{
    if count == 0 || count > items.len() {
        Set::empty()
    } else {
        program_pair_mutated(items, (count - 1) as nat).union(
            pair_mutated(item_expr(items[count - 1]), top_level_bound(items, count)),
        )
    }
}

fn bind_item(bound: &mut Vec<String>, item: &TopLevel)
    ensures
        name_texts(final(bound)@) == match *item {
            TopLevel::Definition { name, value } => name_texts(old(bound)@).push(name@),
            TopLevel::Procedure(procedure) => name_texts(old(bound)@).push(procedure.name@),
            TopLevel::Expression(expr) => name_texts(old(bound)@),
        },
{
    let ghost texts = name_texts(bound@);
    match item {
        TopLevel::Definition { name, value: _ } => {
            bound.push(name.clone());
            assert(name_texts(bound@) =~= texts.push(name@));
        },
        TopLevel::Procedure(procedure) => {
            bound.push(procedure.name.clone());
            assert(name_texts(bound@) =~= texts.push(procedure.name@));
        },
        TopLevel::Expression(_) => {},
    }
}

fn expr_of_item(item: &TopLevel) -> (expr: &Expr)
    ensures
        *expr == item_expr(*item),
{
    match item {
        TopLevel::Definition { name: _, value } => value,
        TopLevel::Procedure(procedure) => &procedure.body,
        TopLevel::Expression(expr) => expr,
    }
}

/// The names that assignments anywhere in the program change.
pub fn collect_program_mutations(program: &Program) -> (names: NameSet)
    ensures
        names@ == program_mutated(program.items@, program.items@.len()),
{
    let mut names = NameSet::new();
    let mut bound: Vec<String> = Vec::new();
    let mut index: usize = 0;
    assert(name_texts(bound@) =~= Seq::<Seq<char>>::empty());
    while index < program.items.len()
        invariant
            index <= program.items@.len(),
            name_texts(bound@) == top_level_bound(program.items@, index as nat),
            names@ == program_mutated(program.items@, index as nat),
        decreases program.items@.len() - index,
    {
        let item = &program.items[index];
        bind_item(&mut bound, item);
        collect_mutated_in_expr(expr_of_item(item), &bound, &mut names);
        index = index + 1;
    }
    names
}

/// The names that assignments inside `expr` change, given the names that its context binds.
pub fn collect_mutated_names_with_initial(expr: &Expr, initial: &Vec<String>) -> (names: NameSet)
    ensures
        names@ == mutated(*expr, name_texts(initial@)),
{
    let mut names = NameSet::new();
    collect_mutated_in_expr(expr, initial, &mut names);
    assert(Set::<Seq<char>>::empty().union(mutated(*expr, name_texts(initial@))) =~= mutated(
        *expr,
        name_texts(initial@),
    ));
    names
}

/// The names whose pairs the program changes.
pub fn collect_program_pair_mutations(program: &Program) -> (names: NameSet)
    ensures
        names@ == program_pair_mutated(program.items@, program.items@.len()),
{
    let mut names = NameSet::new();
    let mut bound: Vec<String> = Vec::new();
    let mut index: usize = 0;
    assert(name_texts(bound@) =~= Seq::<Seq<char>>::empty());
    while index < program.items.len()
        invariant
            index <= program.items@.len(),
            name_texts(bound@) == top_level_bound(program.items@, index as nat),
            names@ == program_pair_mutated(program.items@, index as nat),
        decreases program.items@.len() - index,
    {
        let item = &program.items[index];
        bind_item(&mut bound, item);
        collect_pair_mutated_in_expr(expr_of_item(item), &bound, &mut names);
        index = index + 1;
    }
    names
}

/// The names whose pairs `expr` changes, given the names that its context binds.
pub fn collect_pair_mutated_names_with_initial(expr: &Expr, initial: &Vec<String>) -> (names: NameSet)
    ensures
        names@ == pair_mutated(*expr, name_texts(initial@)),
{
    let mut names = NameSet::new();
    collect_pair_mutated_in_expr(expr, initial, &mut names);
    assert(Set::<Seq<char>>::empty().union(pair_mutated(*expr, name_texts(initial@))) =~= pair_mutated(
        *expr,
        name_texts(initial@),
    ));
    names
}

/// The names of `outer` that a procedure with the given parameters and body refers to, in
/// ascending order.
pub fn free_variables(outer: &NameSet, formals: &Formals, body: &Expr) -> (names: Vec<String>)
    ensures
        name_texts(names@) == ascending(free_names(outer@, *body, formal_names(formals@))),
        forall|i: int| 0 <= i < names@.len() ==> outer@.contains((#[trigger] names@[i])@),
{
    let bound = formals.all_names();
    let mut names: Vec<String> = Vec::new();
    assert(name_texts(names@) =~= Seq::<Seq<char>>::empty());
    collect_free_vars(body, outer, &bound, &mut names);
    proof {
        lemma_ascending(name_texts(names@));
        assert(name_texts(names@).to_set() =~= free_names(outer@, *body, formal_names(formals@)));
        lemma_free_names(outer@, *body, formal_names(formals@));
        assert forall|i: int| 0 <= i < names@.len() implies outer@.contains((#[trigger] names@[i])@) by {
            assert(name_texts(names@)[i] == names@[i]@);
            assert(name_texts(names@).to_set().contains(names@[i]@));
        }
    }
    names
}

/// Only names of `outer` are captured, and no name that the procedure binds itself.
pub proof fn lemma_free_names(outer: Set<Seq<char>>, expr: Expr, bound: Seq<Seq<char>>)
    ensures
        free_names(outer, expr, bound).subset_of(outer),
        forall|name: Seq<char>| #[trigger] bound.contains(name) ==> !free_names(outer, expr, bound).contains(name),
    decreases expr, 0nat,
{
    match expr.kind {
        ExprKind::Assign { name, value } => {
            lemma_free_names(outer, *value, bound);
        },
        ExprKind::Call { callee, args } => {
            lemma_free_names(outer, *callee, bound);
            lemma_free_names_in_all(outer, args@, args@.len(), bound);
        },
        ExprKind::Begin(exprs) => {
            lemma_free_names_in_all(outer, exprs@, exprs@.len(), bound);
        },
        ExprKind::If { condition, then_branch, else_branch } => {
            lemma_free_names(outer, *condition, bound);
            lemma_free_names(outer, *then_branch, bound);
            lemma_free_names(outer, *else_branch, bound);
        },
        ExprKind::Guard { name, handler, body } => {
            lemma_free_names(outer, *body, bound);
            lemma_free_names(outer, *handler, bound.push(name@));
            lemma_contains_push(bound, name@);
        },
        ExprKind::Delay(inner) => {
            lemma_free_names(outer, *inner, bound);
        },
        ExprKind::Force(inner) => {
            lemma_free_names(outer, *inner, bound);
        },
        ExprKind::Lambda { formals, body } => {
            lemma_free_names(outer, *body, bound + formal_names(formals@));
            lemma_contains_concat(bound, formal_names(formals@));
        },
        ExprKind::Let { bindings, body } => {
            lemma_free_names_in_values(outer, bindings@, bindings@.len(), bound);
            lemma_free_names(outer, *body, bound + binding_names(bindings@));
            lemma_contains_concat(bound, binding_names(bindings@));
        },
        ExprKind::LetStar { bindings, body } => {
            lemma_free_names_in_sequence(outer, bindings@, bindings@.len(), bound);
            lemma_free_names(outer, *body, bound + binding_names(bindings@));
            lemma_contains_concat(bound, binding_names(bindings@));
        },
        ExprKind::LetRec { bindings, body } => {
            lemma_free_names_in_values(outer, bindings@, bindings@.len(), bound + binding_names(bindings@));
            lemma_free_names(outer, *body, bound + binding_names(bindings@));
            lemma_contains_concat(bound, binding_names(bindings@));
        },
        _ => {},
    }
}

proof fn lemma_contains_concat(left: Seq<Seq<char>>, right: Seq<Seq<char>>)
    ensures
        forall|name: Seq<char>| #[trigger] left.contains(name) ==> (left + right).contains(name),
{
    assert forall|name: Seq<char>| #[trigger] left.contains(name) implies (left + right).contains(name) by {
        let i = choose|i: int| 0 <= i < left.len() && left[i] == name;
        assert((left + right)[i] == name);
    }
}

proof fn lemma_contains_push(left: Seq<Seq<char>>, last: Seq<char>)
    ensures
        forall|name: Seq<char>| #[trigger] left.contains(name) ==> left.push(last).contains(name),
{
    assert forall|name: Seq<char>| #[trigger] left.contains(name) implies left.push(last).contains(name) by {
        let i = choose|i: int| 0 <= i < left.len() && left[i] == name;
        assert(left.push(last)[i] == name);
    }
}

proof fn lemma_free_names_in_all(outer: Set<Seq<char>>, exprs: Seq<Expr>, count: nat, bound: Seq<Seq<char>>)
    ensures
        free_names_in_all(outer, exprs, count, bound).subset_of(outer),
        forall|name: Seq<char>| #[trigger] bound.contains(name) ==> !free_names_in_all(outer, exprs, count, bound).contains(name),
    decreases exprs, count,
{
    if 0 < count <= exprs.len() {
        lemma_free_names_in_all(outer, exprs, (count - 1) as nat, bound);
        lemma_free_names(outer, exprs[count - 1], bound);
    }
}

proof fn lemma_free_names_in_values(outer: Set<Seq<char>>, bindings: Seq<Binding>, count: nat, bound: Seq<Seq<char>>)
    ensures
        free_names_in_values(outer, bindings, count, bound).subset_of(outer),
        forall|name: Seq<char>| #[trigger] bound.contains(name) ==> !free_names_in_values(outer, bindings, count, bound).contains(name),
    decreases bindings, count,
{
    if 0 < count <= bindings.len() {
        lemma_free_names_in_values(outer, bindings, (count - 1) as nat, bound);
        lemma_free_names(outer, bindings[count - 1].value, bound);
    }
}

proof fn lemma_free_names_in_sequence(outer: Set<Seq<char>>, bindings: Seq<Binding>, count: nat, bound: Seq<Seq<char>>)
    ensures
        free_names_in_sequence(outer, bindings, count, bound).subset_of(outer),
        forall|name: Seq<char>| #[trigger] bound.contains(name) ==> !free_names_in_sequence(outer, bindings, count, bound).contains(name),
    decreases bindings, count,
{
    if 0 < count <= bindings.len() {
        lemma_free_names_in_sequence(outer, bindings, (count - 1) as nat, bound);
        let inner = bound + binding_names(bindings.subrange(0, count - 1));
        lemma_free_names(outer, bindings[count - 1].value, inner);
        lemma_contains_concat(bound, binding_names(bindings.subrange(0, count - 1)));
    }
}

} // verus!
