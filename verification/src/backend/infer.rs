//! What kind of value an expression yields and a procedure takes and returns.
use crate::backend::builtins::{is_builtin, is_builtin_name};
use crate::backend::kinds::{
    combine_abi_kind, combined_kind, default_signature, default_signature_of, infer_quote_kind, quote_kind,
    signature_of_words, words_signature, AbiValueKind, BindingKind, FunctionSignature, HeapValueKind,
    NameKind, Signature,
};
use crate::middle::hir::{formal_names, Binding, Expr, ExprKind, Formals, Params, Program, TopLevel};
use crate::names::{contains_name, name_texts, Duplicate, NameMap};
use crate::text::same;
use vstd::prelude::*;

verus! {

broadcast use vstd::seq_lib::group_seq_properties;

/// What is known of the names in scope.
pub type Kinds = Map<Seq<char>, NameKind>;

/// The signatures of procedures.
pub type Signatures = Map<Seq<char>, Signature>;

/// Whether the first argument of a call is the variable `param`.
pub open spec fn first_is(args: Seq<Expr>, param: Seq<char>) -> bool {
    args.len() > 0 && match args[0].kind {
        ExprKind::Variable(name) => name@ == param,
        _ => false,
    }
}

/// What a call that hands `param` to a builtin as its first argument shows about it.
pub open spec fn builtin_use(name: Seq<char>) -> Option<HeapValueKind> {
    if name == "car"@ || name == "cdr"@ {
        Some(HeapValueKind::Pair)
    } else if name == "string-length"@ || name == "string-ref"@ {
        Some(HeapValueKind::String)
    } else if name == "vector-length"@ || name == "vector-ref"@ || name == "vector-set!"@ {
        Some(HeapValueKind::Vector)
    } else if name == "force"@ {
        Some(HeapValueKind::Promise)
    } else {
        None
    }
}

/// What a call by itself shows about `param`.
pub open spec fn call_use(callee: Expr, args: Seq<Expr>, param: Seq<char>) -> Option<HeapValueKind> {
    match callee.kind {
        ExprKind::Variable(name) => if first_is(args, param) {
            builtin_use(name@)
        } else {
            None
        },
        _ => None,
    }
}

/// What the uses of `param` in `expr` show about its kind.
pub open spec fn param_kind(param: Seq<char>, expr: Expr) -> AbiValueKind
    decreases expr, 0nat,
{
    match expr.kind {
        ExprKind::Unspecified => AbiValueKind::Word,
        ExprKind::Variable(_) => AbiValueKind::Word,
        ExprKind::Integer(_) => AbiValueKind::Word,
        ExprKind::Boolean(_) => AbiValueKind::Word,
        ExprKind::Char(_) => AbiValueKind::Word,
        ExprKind::String(_) => AbiValueKind::Word,
        ExprKind::Assign { name, value } => param_kind(param, *value),
        ExprKind::Quote(_) => AbiValueKind::Word,
        ExprKind::Begin(exprs) => param_kind_in_all(param, AbiValueKind::Word, exprs@, exprs@.len()),
        ExprKind::Let { bindings, body } => combined_kind(
            param_kind_in_values(param, bindings@, bindings@.len()),
            param_kind(param, *body),
        ),
        ExprKind::LetStar { bindings, body } => combined_kind(
            param_kind_in_values(param, bindings@, bindings@.len()),
            param_kind(param, *body),
        ),
        ExprKind::LetRec { bindings, body } => combined_kind(
            param_kind_in_values(param, bindings@, bindings@.len()),
            param_kind(param, *body),
        ),
        ExprKind::If { condition, then_branch, else_branch } => combined_kind(
            param_kind(param, *condition),
            combined_kind(param_kind(param, *then_branch), param_kind(param, *else_branch)),
        ),
        ExprKind::Guard { name, handler, body } => combined_kind(
            param_kind(param, *body),
            param_kind(param, *handler),
        ),
        ExprKind::Call { callee, args } => match call_use(*callee, args@, param) {
            Some(kind) => AbiValueKind::Heap(kind),
            None => param_kind_in_all(param, param_kind(param, *callee), args@, args@.len()),
        },
        ExprKind::Lambda { formals, body } => if formal_names(formals@).contains(param) {
            AbiValueKind::Word
        } else {
            param_kind(param, *body)
        },
        ExprKind::Delay(inner) => param_kind(param, *inner),
        ExprKind::Force(inner) => param_kind(param, *inner),
    }
}

/// `initial` combined with what the first `count` of a row of expressions show.
pub open spec fn param_kind_in_all(param: Seq<char>, initial: AbiValueKind, exprs: Seq<Expr>, count: nat) -> AbiValueKind
    decreases exprs, count,
{
    if count == 0 || count > exprs.len() {
        initial
    } else {
        combined_kind(
            param_kind_in_all(param, initial, exprs, (count - 1) as nat),
            param_kind(param, exprs[count - 1]),
        )
    }
}

/// What the values of the first `count` of a row of bindings show; a binding of `param` itself
/// is passed over.
pub open spec fn param_kind_in_values(param: Seq<char>, bindings: Seq<Binding>, count: nat) -> AbiValueKind
    decreases bindings, count,
{
    if count == 0 || count > bindings.len() {
        AbiValueKind::Word
    } else {
        let before = param_kind_in_values(param, bindings, (count - 1) as nat);
        if bindings[count - 1].name@ != param {
            combined_kind(before, param_kind(param, bindings[count - 1].value))
        } else {
            before
        }
    }
}

fn use_by_builtin(callee: &Expr, args: &Vec<Expr>, param: &str) -> (kind: Option<HeapValueKind>)
    ensures
        kind == call_use(*callee, args@, param@),
{
    if let ExprKind::Variable(name) = &callee.kind {
        if args.len() > 0 {
            if let ExprKind::Variable(first) = &args[0].kind {
                if same(first.as_str(), param) {
                    let name = name.as_str();
                    if same(name, "car") || same(name, "cdr") {
                        return Some(HeapValueKind::Pair);
                    } else if same(name, "string-length") || same(name, "string-ref") {
                        return Some(HeapValueKind::String);
                    } else if same(name, "vector-length") || same(name, "vector-ref") || same(
                        name,
                        "vector-set!",
                    ) {
                        return Some(HeapValueKind::Vector);
                    } else if same(name, "force") {
                        return Some(HeapValueKind::Promise);
                    }
                }
            }
        }
    }
    None
}

fn infer_param_kind_in_values(param: &str, bindings: &Vec<Binding>) -> (kind: AbiValueKind)
    ensures
        kind == param_kind_in_values(param@, bindings@, bindings@.len()),
    decreases bindings@, bindings@.len() + 1,
{
    let mut kind = AbiValueKind::Word;
    let mut index: usize = 0;
    while index < bindings.len()
        invariant
            index <= bindings@.len(),
            kind == param_kind_in_values(param@, bindings@, index as nat),
        decreases bindings@.len() - index,
    {
        if !same(bindings[index].name.as_str(), param) {
            kind = combine_abi_kind(kind, infer_param_kind(param, &bindings[index].value));
        }
        index = index + 1;
    }
    kind
}

/// What the uses of `param` in `expr` show about its kind.
pub fn infer_param_kind(param: &str, expr: &Expr) -> (kind: AbiValueKind)
    ensures
        kind == param_kind(param@, *expr),
    decreases *expr, 0nat,
{
    match &expr.kind {
        ExprKind::Unspecified => AbiValueKind::Word,
        ExprKind::Variable(_) => AbiValueKind::Word,
        ExprKind::Integer(_) => AbiValueKind::Word,
        ExprKind::Boolean(_) => AbiValueKind::Word,
        ExprKind::Char(_) => AbiValueKind::Word,
        ExprKind::String(_) => AbiValueKind::Word,
        ExprKind::Assign { name: _, value } => infer_param_kind(param, value),
        ExprKind::Quote(_) => AbiValueKind::Word,
        ExprKind::Begin(exprs) => {
            let mut kind = AbiValueKind::Word;
            let mut index: usize = 0;
            while index < exprs.len()
                invariant
                    index <= exprs@.len(),
                    decreases_to!(*expr => exprs@),
                    kind == param_kind_in_all(param@, AbiValueKind::Word, exprs@, index as nat),
                decreases exprs@.len() - index,
            {
                kind = combine_abi_kind(kind, infer_param_kind(param, &exprs[index]));
                index = index + 1;
            }
            kind
        },
        ExprKind::Let { bindings, body } => {
            let kind = infer_param_kind_in_values(param, bindings);
            combine_abi_kind(kind, infer_param_kind(param, body))
        },
        ExprKind::LetStar { bindings, body } => {
            let kind = infer_param_kind_in_values(param, bindings);
            combine_abi_kind(kind, infer_param_kind(param, body))
        },
        ExprKind::LetRec { bindings, body } => {
            let kind = infer_param_kind_in_values(param, bindings);
            combine_abi_kind(kind, infer_param_kind(param, body))
        },
        ExprKind::If { condition, then_branch, else_branch } => {
            let condition_kind = infer_param_kind(param, condition);
            let then_kind = infer_param_kind(param, then_branch);
            let else_kind = infer_param_kind(param, else_branch);
            combine_abi_kind(condition_kind, combine_abi_kind(then_kind, else_kind))
        },
        ExprKind::Guard { name: _, handler, body } => {
            let body_kind = infer_param_kind(param, body);
            combine_abi_kind(body_kind, infer_param_kind(param, handler))
        },
        ExprKind::Call { callee, args } => {
            if let Some(kind) = use_by_builtin(callee, args, param) {
                return AbiValueKind::Heap(kind);
            }
            let initial = infer_param_kind(param, callee);
            let mut kind = initial;
            let mut index: usize = 0;
            while index < args.len()
                invariant
                    index <= args@.len(),
                    decreases_to!(*expr => args@),
                    kind == param_kind_in_all(param@, initial, args@, index as nat),
                decreases args@.len() - index,
            {
                kind = combine_abi_kind(kind, infer_param_kind(param, &args[index]));
                index = index + 1;
            }
            kind
        },
        ExprKind::Lambda { formals, body } => {
            let names = formals.all_names();
            if contains_name(&names, param) {
                AbiValueKind::Word
            } else {
                infer_param_kind(param, body)
            }
        },
        ExprKind::Delay(inner) => infer_param_kind(param, inner),
        ExprKind::Force(inner) => infer_param_kind(param, inner),
    }
}

/// What the uses of each parameter in a body show about its kind.
pub open spec fn param_kinds(params: Seq<Seq<char>>, body: Expr) -> Seq<AbiValueKind> {
    params.map_values(|param: Seq<char>| param_kind(param, body))
}

/// What the uses of each parameter in a body show about its kind.
pub fn infer_param_kinds(params: &Vec<String>, body: &Expr) -> (kinds: Vec<AbiValueKind>)
    ensures
        kinds@ == param_kinds(name_texts(params@), *body),
{
    let mut kinds: Vec<AbiValueKind> = Vec::new();
    let mut index: usize = 0;
    while index < params.len()
        invariant
            index <= params@.len(),
            kinds@ == param_kinds(name_texts(params@.subrange(0, index as int)), *body),
        decreases params@.len() - index,
    {
        let kind = infer_param_kind(params[index].as_str(), body);
        kinds.push(kind);
        assert(param_kinds(name_texts(params@.subrange(0, index + 1)), *body) =~= param_kinds(
            name_texts(params@.subrange(0, index as int)),
            *body,
        ).push(kind));
        index = index + 1;
    }
    assert(params@.subrange(0, params@.len() as int) =~= params@);
    kinds
}

/// A scope in which the first `count` required parameters have the kinds that their uses show.
pub open spec fn with_required(outer: Kinds, params: Seq<Seq<char>>, body: Expr, count: nat) -> Kinds
    decreases count,
{
    if count == 0 || count > params.len() {
        outer
    } else {
        with_required(outer, params, body, (count - 1) as nat).insert(
            params[count - 1],
            NameKind::Value(param_kind(params[count - 1], body)),
        )
    }
}

/// The scope of a procedure's body: the required parameters with the kinds that their uses
/// show, and the rest parameter as a word.
pub open spec fn with_formals(outer: Kinds, formals: Params, body: Expr) -> Kinds {
    let required = with_required(outer, formals.required, body, formals.required.len());
    match formals.rest {
        Some(rest) => required.insert(rest, NameKind::Value(AbiValueKind::Word)),
        None => required,
    }
}

fn scope_of_body(outer: &NameMap<BindingKind>, formals: &Formals, body: &Expr, kinds: &Vec<AbiValueKind>) -> (env: NameMap<
    BindingKind,
>)
    requires
        kinds@ == param_kinds(formals@.required, *body),
    ensures
        env@ == with_formals(outer@, formals@, *body),
{
    let mut env = outer.duplicate_map();
    let mut index: usize = 0;
    while index < formals.required.len()
        invariant
            index <= formals.required@.len(),
            kinds@ == param_kinds(formals@.required, *body),
            env@ == with_required(outer@, formals@.required, *body, index as nat),
        decreases formals.required@.len() - index,
    {
        env.insert(formals.required[index].clone(), BindingKind::Value(kinds[index]));
        index = index + 1;
    }
    if let Some(rest) = &formals.rest {
        env.insert(rest.clone(), BindingKind::Value(AbiValueKind::Word));
    }
    env
}

/// The signature of a lambda expression.
pub open spec fn lambda_signature(formals: Params, body: Expr, outer: Kinds, functions: Signatures) -> Signature
    decreases body, 1nat, 0nat,
{
    Signature {
        return_kind: expr_kind(body, with_formals(outer, formals, body), functions),
        params: param_kinds(formals.required, body),
        rest: formals.rest.is_some(),
    }
}

/// What is known of a name that is bound to `value`.
pub open spec fn value_kind(value: Expr, env: Kinds, functions: Signatures) -> NameKind
    decreases value, 1nat, 0nat,
{
    match value.kind {
        ExprKind::Lambda { formals, body } => NameKind::Function(lambda_signature(formals@, *body, env, functions)),
        _ => NameKind::Value(expr_kind(value, env, functions)),
    }
}

/// The scope of the body of a `let`: every value is seen from outside.
pub open spec fn let_scope(bindings: Seq<Binding>, count: nat, env: Kinds, functions: Signatures) -> Kinds
    decreases bindings, 0nat, count,
{
    if count == 0 || count > bindings.len() {
        env
    } else {
        let_scope(bindings, (count - 1) as nat, env, functions).insert(
            bindings[count - 1].name@,
            value_kind(bindings[count - 1].value, env, functions),
        )
    }
}

/// The scope of the body of a `let*`: every value sees the names before it.
pub open spec fn let_star_scope(bindings: Seq<Binding>, count: nat, env: Kinds, functions: Signatures) -> Kinds
    decreases bindings, 0nat, count,
{
    if count == 0 || count > bindings.len() {
        env
    } else {
        let scope = let_star_scope(bindings, (count - 1) as nat, env, functions);
        scope.insert(bindings[count - 1].name@, value_kind(bindings[count - 1].value, scope, functions))
    }
}

/// `env` with the lambda-bound names among the first `count` of `bindings` bound to their
/// signatures.
pub open spec fn with_signatures(env: Kinds, bindings: Seq<Binding>, count: nat, functions: Signatures) -> Kinds
    decreases count,
{
    if count == 0 || count > bindings.len() {
        env
    } else {
        let scope = with_signatures(env, bindings, (count - 1) as nat, functions);
        match bindings[count - 1].value.kind {
            ExprKind::Lambda { formals, body } => scope.insert(
                bindings[count - 1].name@,
                NameKind::Function(signature_or_default(functions, bindings[count - 1].name@)),
            ),
            _ => scope,
        }
    }
}

/// The signature of a procedure, or the one without parameters where it has none.
pub open spec fn signature_or_default(functions: Signatures, name: Seq<char>) -> Signature {
    if functions.contains_key(name) {
        functions[name]
    } else {
        words_signature(0, false)
    }
}

/// What is assumed of the lambda-bound names among the first `count` bindings of a `letrec`
/// before anything is inferred.
pub open spec fn letrec_initial(bindings: Seq<Binding>, count: nat) -> Signatures
    decreases count,
{
    if count == 0 || count > bindings.len() {
        Map::empty()
    } else {
        let before = letrec_initial(bindings, (count - 1) as nat);
        match bindings[count - 1].value.kind {
            ExprKind::Lambda { formals, body } => before.insert(
                bindings[count - 1].name@,
                default_signature_of(formals@),
            ),
            _ => before,
        }
    }
}

/// One round of inference for the first `count` bindings of a `letrec`: the signature of each
/// lambda, given those of the round before.
pub open spec fn letrec_round(bindings: Seq<Binding>, count: nat, outer: Kinds, functions: Signatures) -> Signatures
    decreases bindings, 0nat, count,
{
    if count == 0 || count > bindings.len() {
        functions
    } else {
        let before = letrec_round(bindings, (count - 1) as nat, outer, functions);
        match bindings[count - 1].value.kind {
            ExprKind::Lambda { formals, body } => before.insert(
                bindings[count - 1].name@,
                lambda_signature(
                    formals@,
                    *body,
                    with_signatures(outer, bindings, bindings.len(), functions),
                    functions,
                ),
            ),
            _ => before,
        }
    }
}

/// The signatures after a number of rounds.
pub open spec fn letrec_rounds(bindings: Seq<Binding>, outer: Kinds, rounds: nat) -> Signatures
    decreases bindings, 1nat, rounds,
{
    if rounds == 0 {
        letrec_initial(bindings, bindings.len())
    } else {
        letrec_round(bindings, bindings.len(), outer, letrec_rounds(bindings, outer, (rounds - 1) as nat))
    }
}

/// The signatures of the procedures of a `letrec`: as many rounds as there are bindings.
pub open spec fn letrec_signatures(bindings: Seq<Binding>, outer: Kinds) -> Signatures
    decreases bindings, 2nat, 0nat,
{
    letrec_rounds(bindings, outer, if bindings.len() == 0 { 1 } else { bindings.len() })
}

/// What kind of value a call yields.
pub open spec fn call_kind(callee: Expr, env: Kinds, functions: Signatures) -> AbiValueKind {
    match callee.kind {
        ExprKind::Variable(name) => if env.contains_key(name@) && env[name@] is Function {
            env[name@]->Function_0.return_kind
        } else if is_builtin_name(name@) {
            if name@ == "cons"@ || name@ == "list"@ {
                AbiValueKind::Heap(HeapValueKind::Pair)
            } else if name@ == "vector"@ {
                AbiValueKind::Heap(HeapValueKind::Vector)
            } else {
                AbiValueKind::Word
            }
        } else if functions.contains_key(name@) {
            functions[name@].return_kind
        } else {
            AbiValueKind::Word
        },
        _ => AbiValueKind::Word,
    }
}

/// What kind of value an expression yields.
pub open spec fn expr_kind(expr: Expr, env: Kinds, functions: Signatures) -> AbiValueKind
    decreases expr, 0nat, 0nat,
{
    match expr.kind {
        ExprKind::Unspecified => AbiValueKind::Word,
        ExprKind::Integer(_) => AbiValueKind::Word,
        ExprKind::Boolean(_) => AbiValueKind::Word,
        ExprKind::Char(_) => AbiValueKind::Word,
        ExprKind::Quote(datum) => quote_kind(datum),
        ExprKind::String(_) => AbiValueKind::Heap(HeapValueKind::String),
        ExprKind::Variable(name) => if env.contains_key(name@) && env[name@] is Value {
            env[name@]->Value_0
        } else {
            AbiValueKind::Word
        },
        ExprKind::Assign { name, value } => AbiValueKind::Word,
        ExprKind::Begin(exprs) => if exprs@.len() == 0 {
            AbiValueKind::Word
        } else {
            expr_kind(exprs@[exprs@.len() - 1], env, functions)
        },
        ExprKind::Let { bindings, body } => expr_kind(
            *body,
            let_scope(bindings@, bindings@.len(), env, functions),
            functions,
        ),
        ExprKind::LetStar { bindings, body } => expr_kind(
            *body,
            let_star_scope(bindings@, bindings@.len(), env, functions),
            functions,
        ),
        ExprKind::LetRec { bindings, body } => expr_kind(
            *body,
            with_signatures(env, bindings@, bindings@.len(), letrec_signatures(bindings@, Map::empty())),
            functions,
        ),
        ExprKind::Guard { name, handler, body } => combined_kind(
            expr_kind(*body, env, functions),
            expr_kind(*handler, env.insert(name@, NameKind::Value(AbiValueKind::Word)), functions),
        ),
        ExprKind::Delay(_) => AbiValueKind::Heap(HeapValueKind::Promise),
        ExprKind::Force(_) => AbiValueKind::Word,
        ExprKind::If { condition, then_branch, else_branch } => if expr_kind(*then_branch, env, functions)
            == expr_kind(*else_branch, env, functions) {
            expr_kind(*then_branch, env, functions)
        } else {
            AbiValueKind::Word
        },
        ExprKind::Call { callee, args } => call_kind(*callee, env, functions),
        ExprKind::Lambda { formals, body } => AbiValueKind::Word,
    }
}

/// The signature of a lambda expression.
pub fn infer_lambda_signature_with_env(
    formals: &Formals,
    body: &Expr,
    outer_env: &NameMap<BindingKind>,
    functions: &NameMap<FunctionSignature>,
) -> (signature: FunctionSignature)
    ensures
        signature@ == lambda_signature(formals@, *body, outer_env@, functions@),
    decreases *body, 1nat, 0nat,
{
    let kinds = infer_param_kinds(&formals.required, body);
    let env = scope_of_body(outer_env, formals, body, &kinds);
    let return_kind = infer_expr_kind(body, &env, functions);
    FunctionSignature { return_kind, required_param_kinds: kinds, rest: formals.rest.is_some() }
}

fn infer_value_kind(value: &Expr, env: &NameMap<BindingKind>, functions: &NameMap<FunctionSignature>) -> (kind: BindingKind)
    ensures
        kind@ == value_kind(*value, env@, functions@),
    decreases *value, 1nat, 0nat,
{
    match &value.kind {
        ExprKind::Lambda { formals, body } => BindingKind::Function(
            infer_lambda_signature_with_env(formals, body, env, functions),
        ),
        _ => BindingKind::Value(infer_expr_kind(value, env, functions)),
    }
}

fn scope_with_signatures(
    outer: &NameMap<BindingKind>,
    bindings: &Vec<Binding>,
    functions: &NameMap<FunctionSignature>,
) -> (env: NameMap<BindingKind>)
    ensures
        env@ == with_signatures(outer@, bindings@, bindings@.len(), functions@),
{
    let mut env = outer.duplicate_map();
    let mut index: usize = 0;
    while index < bindings.len()
        invariant
            index <= bindings@.len(),
            env@ == with_signatures(outer@, bindings@, index as nat, functions@),
        decreases bindings@.len() - index,
    {
        if let ExprKind::Lambda { formals: _, body: _ } = &bindings[index].value.kind {
            let signature = match functions.get(bindings[index].name.as_str()) {
                Some(signature) => signature.duplicate(),
                None => signature_of_words(0, false),
            };
            env.insert(bindings[index].name.clone(), BindingKind::Function(signature));
        }
        index = index + 1;
    }
    env
}

/// The signatures of the procedures that a `letrec` binds.
pub fn infer_letrec_function_signatures_with_env(
    outer_env: &NameMap<BindingKind>,
    bindings: &Vec<Binding>,
) -> (functions: NameMap<FunctionSignature>)
    ensures
        functions@ == letrec_signatures(bindings@, outer_env@),
    decreases bindings@, 2nat, 0nat,
{
    let mut functions: NameMap<FunctionSignature> = NameMap::new();
    let mut index: usize = 0;
    while index < bindings.len()
        invariant
            index <= bindings@.len(),
            functions@ == letrec_initial(bindings@, index as nat),
        decreases bindings@.len() - index,
    {
        if let ExprKind::Lambda { formals, body: _ } = &bindings[index].value.kind {
            functions.insert(bindings[index].name.clone(), default_signature(formals));
        }
        index = index + 1;
    }
    let rounds: usize = if bindings.len() == 0 {
        1
    } else {
        bindings.len()
    };
    let mut round: usize = 0;
    while round < rounds
        invariant
            round <= rounds,
            functions@ == letrec_rounds(bindings@, outer_env@, round as nat),
        decreases rounds - round,
    {
        let env = scope_with_signatures(outer_env, bindings, &functions);
        let mut next = functions.duplicate_map();
        let mut index: usize = 0;
        while index < bindings.len()
            invariant
                index <= bindings@.len(),
                env@ == with_signatures(outer_env@, bindings@, bindings@.len(), functions@),
                next@ == letrec_round(bindings@, index as nat, outer_env@, functions@),
            decreases bindings@.len() - index,
        {
            if let ExprKind::Lambda { formals, body } = &bindings[index].value.kind {
                let signature = infer_lambda_signature_with_env(formals, body, &env, &functions);
                next.insert(bindings[index].name.clone(), signature);
            }
            index = index + 1;
        }
        functions = next;
        round = round + 1;
    }
    functions
}

/// The signatures of the procedures that a `letrec` binds, seen on its own.
pub fn infer_letrec_function_signatures(bindings: &Vec<Binding>) -> (functions: NameMap<FunctionSignature>)
    ensures
        functions@ == letrec_signatures(bindings@, Map::empty()),
    decreases bindings@, 3nat, 0nat,
{
    infer_letrec_function_signatures_with_env(&NameMap::new(), bindings)
}

/// What kind of value a call yields.
pub fn infer_call_kind(callee: &Expr, env: &NameMap<BindingKind>, functions: &NameMap<FunctionSignature>) -> (kind: AbiValueKind)
    ensures
        kind == call_kind(*callee, env@, functions@),
{
    match &callee.kind {
        ExprKind::Variable(name) => {
            if let Some(BindingKind::Function(signature)) = env.get(name.as_str()) {
                return signature.return_kind;
            }
            if is_builtin(name.as_str()) {
                if same(name.as_str(), "cons") || same(name.as_str(), "list") {
                    AbiValueKind::Heap(HeapValueKind::Pair)
                } else if same(name.as_str(), "vector") {
                    AbiValueKind::Heap(HeapValueKind::Vector)
                } else {
                    AbiValueKind::Word
                }
            } else {
                match functions.get(name.as_str()) {
                    Some(signature) => signature.return_kind,
                    None => AbiValueKind::Word,
                }
            }
        },
        _ => AbiValueKind::Word,
    }
}

/// What kind of value an expression yields.
pub fn infer_expr_kind(expr: &Expr, env: &NameMap<BindingKind>, functions: &NameMap<FunctionSignature>) -> (kind: AbiValueKind)
    ensures
        kind == expr_kind(*expr, env@, functions@),
    decreases *expr, 0nat, 0nat,
{
    match &expr.kind {
        ExprKind::Unspecified => AbiValueKind::Word,
        ExprKind::Integer(_) => AbiValueKind::Word,
        ExprKind::Boolean(_) => AbiValueKind::Word,
        ExprKind::Char(_) => AbiValueKind::Word,
        ExprKind::Quote(datum) => infer_quote_kind(datum),
        ExprKind::String(_) => AbiValueKind::Heap(HeapValueKind::String),
        ExprKind::Variable(name) => match env.get(name.as_str()) {
            Some(BindingKind::Value(kind)) => *kind,
            Some(BindingKind::Function(_)) => AbiValueKind::Word,
            None => AbiValueKind::Word,
        },
        ExprKind::Assign { name: _, value: _ } => AbiValueKind::Word,
        ExprKind::Begin(exprs) => {
            if exprs.len() == 0 {
                AbiValueKind::Word
            } else {
                infer_expr_kind(&exprs[exprs.len() - 1], env, functions)
            }
        },
        ExprKind::Let { bindings, body } => {
            let mut scoped = env.duplicate_map();
            let mut index: usize = 0;
            while index < bindings.len()
                invariant
                    index <= bindings@.len(),
                    decreases_to!(*expr => bindings@),
                    scoped@ == let_scope(bindings@, index as nat, env@, functions@),
                decreases bindings@.len() - index,
            {
                let kind = infer_value_kind(&bindings[index].value, env, functions);
                scoped.insert(bindings[index].name.clone(), kind);
                index = index + 1;
            }
            infer_expr_kind(body, &scoped, functions)
        },
        ExprKind::LetStar { bindings, body } => {
            let mut scoped = env.duplicate_map();
            let mut index: usize = 0;
            while index < bindings.len()
                invariant
                    index <= bindings@.len(),
                    decreases_to!(*expr => bindings@),
                    scoped@ == let_star_scope(bindings@, index as nat, env@, functions@),
                decreases bindings@.len() - index,
            {
                let kind = infer_value_kind(&bindings[index].value, &scoped, functions);
                scoped.insert(bindings[index].name.clone(), kind);
                index = index + 1;
            }
            infer_expr_kind(body, &scoped, functions)
        },
        ExprKind::LetRec { bindings, body } => {
            let signatures = infer_letrec_function_signatures(bindings);
            let scoped = scope_with_signatures(env, bindings, &signatures);
            infer_expr_kind(body, &scoped, functions)
        },
        ExprKind::Guard { name, handler, body } => {
            let mut scoped = env.duplicate_map();
            scoped.insert(name.clone(), BindingKind::Value(AbiValueKind::Word));
            let body_kind = infer_expr_kind(body, env, functions);
            combine_abi_kind(body_kind, infer_expr_kind(handler, &scoped, functions))
        },
        ExprKind::Delay(_) => AbiValueKind::Heap(HeapValueKind::Promise),
        ExprKind::Force(_) => AbiValueKind::Word,
        ExprKind::If { condition: _, then_branch, else_branch } => {
            let then_kind = infer_expr_kind(then_branch, env, functions);
            let else_kind = infer_expr_kind(else_branch, env, functions);
            if then_kind == else_kind {
                then_kind
            } else {
                AbiValueKind::Word
            }
        },
        ExprKind::Call { callee, args: _ } => infer_call_kind(callee, env, functions),
        ExprKind::Lambda { formals: _, body: _ } => AbiValueKind::Word,
    }
}

/// The signatures of the procedures among the first `count` items of a program, each inferred
/// with those before it in view.
pub open spec fn top_level_signatures(items: Seq<TopLevel>, count: nat) -> Signatures
    decreases count,
{
    if count == 0 || count > items.len() {
        Map::empty()
    } else {
        let before = top_level_signatures(items, (count - 1) as nat);
        match items[count - 1] {
            TopLevel::Procedure(procedure) => before.insert(
                procedure.name@,
                lambda_signature(procedure.formals@, procedure.body, Map::empty(), before),
            ),
            _ => before,
        }
    }
}

/// The signatures of the procedures of a program.
pub fn infer_top_level_function_signatures(program: &Program) -> (functions: NameMap<FunctionSignature>)
    ensures
        functions@ == top_level_signatures(program.items@, program.items@.len()),
{
    let mut functions: NameMap<FunctionSignature> = NameMap::new();
    let empty: NameMap<BindingKind> = NameMap::new();
    let mut index: usize = 0;
    while index < program.items.len()
        invariant
            index <= program.items@.len(),
            empty@ == Map::<Seq<char>, NameKind>::empty(),
            functions@ == top_level_signatures(program.items@, index as nat),
        decreases program.items@.len() - index,
    {
        if let TopLevel::Procedure(procedure) = &program.items[index] {
            let signature = infer_lambda_signature_with_env(
                &procedure.formals,
                &procedure.body,
                &empty,
                &functions,
            );
            functions.insert(procedure.name.clone(), signature);
        }
        index = index + 1;
    }
    functions
}

} // verus!
