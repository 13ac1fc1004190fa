//! The procedures that the compiler and the runtime know by name.
use crate::backend::kinds::{signature_of_words, words_signature, FunctionSignature, Signature};
use crate::text::same;
use vstd::prelude::*;
use vstd::string::*;

verus! {

broadcast use vstd::seq_lib::group_seq_properties;

/// The names that a call can use without defining them.
pub open spec fn builtin_name_list() -> Seq<Seq<char>> {
    seq![
        "+"@, "-"@, "*"@, "/"@, "="@, "<"@, ">"@, "<="@, ">="@, "not"@, "boolean?"@, "zero?"@,
        "char?"@, "char=?"@, "char<?"@, "char>?"@, "char<=?"@, "char>=?"@, "char->integer"@,
        "integer->char"@, "symbol?"@, "symbol->string"@, "string->symbol"@, "procedure?"@,
        "values"@, "call-with-values"@, "raise"@, "error"@, "apply"@, "eq?"@, "eqv?"@, "equal?"@,
        "list"@, "map"@, "for-each"@, "append"@, "memq"@, "memv"@, "member"@, "assq"@, "assv"@,
        "assoc"@, "list-copy"@, "reverse"@, "cons"@, "car"@, "cdr"@, "set-car!"@, "set-cdr!"@,
        "pair?"@, "list?"@, "length"@, "list-tail"@, "list-ref"@, "null?"@, "string?"@,
        "string-length"@, "string-ref"@, "display"@, "write"@, "newline"@, "gc-stress"@, "vector"@,
        "vector?"@, "vector-length"@, "vector-ref"@, "vector-set!"@,
    ]
}

/// The names of the builtins that are also procedures: values that can be passed on and
/// applied. The place of a name in this list is the number by which the runtime is asked for
/// the procedure.
pub open spec fn builtin_procedure_list() -> Seq<Seq<char>> {
    seq![
        "+"@, "-"@, "*"@, "/"@, "="@, "<"@, ">"@, "<="@, ">="@, "not"@, "boolean?"@, "zero?"@,
        "char?"@, "char=?"@, "char<?"@, "char>?"@, "char<=?"@, "char>=?"@, "char->integer"@,
        "integer->char"@, "symbol?"@, "symbol->string"@, "string->symbol"@, "procedure?"@, "eq?"@,
        "eqv?"@, "equal?"@, "list"@, "append"@, "memq"@, "memv"@, "member"@, "assq"@, "assv"@,
        "assoc"@, "list-copy"@, "reverse"@, "cons"@, "car"@, "cdr"@, "set-car!"@, "set-cdr!"@,
        "pair?"@, "list?"@, "length"@, "list-tail"@, "list-ref"@, "null?"@, "string?"@,
        "string-length"@, "string-ref"@, "display"@, "write"@, "newline"@, "gc-stress"@, "vector"@,
        "vector?"@, "vector-length"@, "vector-ref"@, "vector-set!"@, "raise"@, "error"@,
    ]
}

/// The characters of each of a row of literals.
pub open spec fn literal_texts(names: Seq<&'static str>) -> Seq<Seq<char>> {
    names.map_values(|name: &'static str| name@)
}

/// Whether a name stands for a builtin.
#[verifier::opaque]
pub open spec fn is_builtin_name(name: Seq<char>) -> bool {
    builtin_name_list().contains(name)
}

/// The names that a call can use without defining them.
pub fn builtin_names() -> (names: Vec<&'static str>)
    ensures
        literal_texts(names@) == builtin_name_list(),
{
    let names: Vec<&'static str> = vec![
        "+", "-", "*", "/", "=", "<", ">", "<=", ">=", "not", "boolean?", "zero?", "char?",
        "char=?", "char<?", "char>?", "char<=?", "char>=?", "char->integer", "integer->char",
        "symbol?", "symbol->string", "string->symbol", "procedure?", "values", "call-with-values",
        "raise", "error", "apply", "eq?", "eqv?", "equal?", "list", "map", "for-each", "append",
        "memq", "memv", "member", "assq", "assv", "assoc", "list-copy", "reverse", "cons", "car",
        "cdr", "set-car!", "set-cdr!", "pair?", "list?", "length", "list-tail", "list-ref", "null?",
        "string?", "string-length", "string-ref", "display", "write", "newline", "gc-stress",
        "vector", "vector?", "vector-length", "vector-ref", "vector-set!",
    ];
    assert(literal_texts(names@) =~= builtin_name_list());
    names
}

/// The names of the builtins that are also procedures.
pub fn builtin_procedure_names() -> (names: Vec<&'static str>)
    ensures
        literal_texts(names@) == builtin_procedure_list(),
{
    let names: Vec<&'static str> = vec![
        "+", "-", "*", "/", "=", "<", ">", "<=", ">=", "not", "boolean?", "zero?", "char?",
        "char=?", "char<?", "char>?", "char<=?", "char>=?", "char->integer", "integer->char",
        "symbol?", "symbol->string", "string->symbol", "procedure?", "eq?", "eqv?", "equal?",
        "list", "append", "memq", "memv", "member", "assq", "assv", "assoc", "list-copy", "reverse",
        "cons", "car", "cdr", "set-car!", "set-cdr!", "pair?", "list?", "length", "list-tail",
        "list-ref", "null?", "string?", "string-length", "string-ref", "display", "write",
        "newline", "gc-stress", "vector", "vector?", "vector-length", "vector-ref", "vector-set!",
        "raise", "error",
    ];
    assert(literal_texts(names@) =~= builtin_procedure_list());
    names
}

/// The place of the first of `names` that is `name`, and their number where none is.
fn position(names: &Vec<&'static str>, name: &str) -> (index: usize)
    ensures
        index <= names@.len(),
        index < names@.len() ==> literal_texts(names@)[index as int] == name@,
        forall|i: int| 0 <= i < index ==> literal_texts(names@)[i] != name@,
{
    let mut index: usize = 0;
    while index < names.len()
        invariant
            index <= names@.len(),
            forall|i: int| 0 <= i < index ==> literal_texts(names@)[i] != name@,
        decreases names@.len() - index,
    {
        assert(literal_texts(names@)[index as int] == names@[index as int]@);
        if same(names[index], name) {
            return index;
        }
        index = index + 1;
    }
    index
}

/// Whether a name stands for a builtin.
pub fn is_builtin(name: &str) -> (found: bool)
    ensures
        found == is_builtin_name(name@),
{
    reveal(is_builtin_name);
    let names = builtin_names();
    let index = position(&names, name);
    index < names.len()
}

/// The number by which the runtime knows a builtin procedure.
pub open spec fn procedure_id(name: Seq<char>) -> int {
    builtin_procedure_list().index_of_first(name).unwrap()
}

/// The number by which the runtime knows a builtin procedure.
pub fn builtin_procedure_id(name: &str) -> (id: u16)
    requires
        builtin_procedure_list().contains(name@),
    ensures
        id == procedure_id(name@),
        builtin_procedure_list()[id as int] == name@,
{
    let names = builtin_procedure_names();
    let index = position(&names, name);
    proof {
        builtin_procedure_list().index_of_first_ensures(name@);
        assert(builtin_procedure_list().len() == names@.len());
    }
    index as u16
}

/// How many arguments a builtin needs, and whether it takes more.
pub open spec fn builtin_arity(name: Seq<char>) -> Option<(nat, bool)> {
    if name == "+"@
        || name == "*"@
        || name == "list"@
        || name == "append"@
        || name == "vector"@ {
        Some((0, true))
    } else if name == "-"@ {
        Some((1, true))
    } else if name == "/"@ {
        Some((2, true))
    } else if name == "="@
        || name == "<"@
        || name == ">"@
        || name == "<="@
        || name == ">="@ {
        Some((2, true))
    } else if name == "map"@
        || name == "for-each"@ {
        Some((2, true))
    } else if name == "not"@
        || name == "boolean?"@
        || name == "zero?"@
        || name == "char?"@
        || name == "char->integer"@
        || name == "integer->char"@
        || name == "symbol?"@
        || name == "symbol->string"@
        || name == "string->symbol"@
        || name == "procedure?"@
        || name == "list-copy"@
        || name == "reverse"@
        || name == "car"@
        || name == "cdr"@
        || name == "pair?"@
        || name == "list?"@
        || name == "length"@
        || name == "null?"@
        || name == "string?"@
        || name == "string-length"@
        || name == "display"@
        || name == "write"@
        || name == "gc-stress"@
        || name == "vector?"@
        || name == "vector-length"@ {
        Some((1, false))
    } else if name == "newline"@ {
        Some((0, false))
    } else if name == "raise"@ {
        Some((1, false))
    } else if name == "error"@ {
        Some((1, true))
    } else if name == "apply"@ {
        Some((1, true))
    } else if name == "char=?"@
        || name == "char<?"@
        || name == "char>?"@
        || name == "char<=?"@
        || name == "char>=?"@ {
        Some((2, true))
    } else if name == "eq?"@
        || name == "eqv?"@
        || name == "equal?"@
        || name == "cons"@
        || name == "set-car!"@
        || name == "set-cdr!"@
        || name == "list-tail"@
        || name == "list-ref"@
        || name == "string-ref"@
        || name == "vector-ref"@
        || name == "memq"@
        || name == "memv"@
        || name == "member"@
        || name == "assq"@
        || name == "assv"@
        || name == "assoc"@ {
        Some((2, false))
    } else if name == "vector-set!"@ {
        Some((3, false))
    } else {
        None
    }
}

/// Every builtin procedure has a signature.
pub proof fn lemma_builtin_arity(index: int)
    requires
        0 <= index < builtin_procedure_list().len(),
    ensures
        builtin_arity(builtin_procedure_list()[index]).is_some(),
{
}

/// The signature of the procedure that a builtin's name stands for.
pub open spec fn builtin_signature(name: Seq<char>) -> Signature {
    words_signature(builtin_arity(name).unwrap().0, builtin_arity(name).unwrap().1)
}

/// The signature of the procedure that a builtin's name stands for.
pub fn builtin_wrapper_signature(name: &str) -> (signature: FunctionSignature)
    requires
        builtin_arity(name@).is_some(),
    ensures
        signature@ == builtin_signature(name@),
{
    if same(name, "+")
        || same(name, "*")
        || same(name, "list")
        || same(name, "append")
        || same(name, "vector") {
        signature_of_words(0, true)
    } else if same(name, "-") {
        signature_of_words(1, true)
    } else if same(name, "/") {
        signature_of_words(2, true)
    } else if same(name, "=")
        || same(name, "<")
        || same(name, ">")
        || same(name, "<=")
        || same(name, ">=") {
        signature_of_words(2, true)
    } else if same(name, "map")
        || same(name, "for-each") {
        signature_of_words(2, true)
    } else if same(name, "not")
        || same(name, "boolean?")
        || same(name, "zero?")
        || same(name, "char?")
        || same(name, "char->integer")
        || same(name, "integer->char")
        || same(name, "symbol?")
        || same(name, "symbol->string")
        || same(name, "string->symbol")
        || same(name, "procedure?")
        || same(name, "list-copy")
        || same(name, "reverse")
        || same(name, "car")
        || same(name, "cdr")
        || same(name, "pair?")
        || same(name, "list?")
        || same(name, "length")
        || same(name, "null?")
        || same(name, "string?")
        || same(name, "string-length")
        || same(name, "display")
        || same(name, "write")
        || same(name, "gc-stress")
        || same(name, "vector?")
        || same(name, "vector-length") {
        signature_of_words(1, false)
    } else if same(name, "newline") {
        signature_of_words(0, false)
    } else if same(name, "raise") {
        signature_of_words(1, false)
    } else if same(name, "error") {
        signature_of_words(1, true)
    } else if same(name, "apply") {
        signature_of_words(1, true)
    } else if same(name, "char=?")
        || same(name, "char<?")
        || same(name, "char>?")
        || same(name, "char<=?")
        || same(name, "char>=?") {
        signature_of_words(2, true)
    } else if same(name, "eq?")
        || same(name, "eqv?")
        || same(name, "equal?")
        || same(name, "cons")
        || same(name, "set-car!")
        || same(name, "set-cdr!")
        || same(name, "list-tail")
        || same(name, "list-ref")
        || same(name, "string-ref")
        || same(name, "vector-ref")
        || same(name, "memq")
        || same(name, "memv")
        || same(name, "member")
        || same(name, "assq")
        || same(name, "assv")
        || same(name, "assoc") {
        signature_of_words(2, false)
    } else {
        signature_of_words(3, false)
    }
}

/// A character as it appears in the name of a compiled function.
pub open spec fn sanitized_char(ch: char) -> char {
    if ('a' <= ch && ch <= 'z') || ('A' <= ch && ch <= 'Z') || ('0' <= ch && ch <= '9') {
        ch
    } else {
        '_'
    }
}

/// A name with every character that is no ASCII letter or digit replaced by `_`.
pub open spec fn sanitized(name: Seq<char>) -> Seq<char> {
    name.map_values(|ch: char| sanitized_char(ch))
}

/// A name with every character that is no ASCII letter or digit replaced by `_`.
pub fn sanitize_name(name: &str) -> (text: String)
    ensures
        text@ == sanitized(name@),
{
    let mut text = String::new();
    let mut index: usize = 0;
    let length: usize = name.unicode_len();
    while index < length
        invariant
            index <= length,
            length == name@.len(),
            text@ == sanitized(name@.subrange(0, index as int)),
        decreases length - index,
    {
        let ch = name.get_char(index);
        let kept = if ('a' <= ch && ch <= 'z') || ('A' <= ch && ch <= 'Z') || ('0' <= ch && ch <= '9') {
            ch
        } else {
            '_'
        };
        text.push(kept);
        assert(sanitized(name@.subrange(0, index + 1)) =~= sanitized(name@.subrange(0, index as int)).push(kept));
        index = index + 1;
    }
    assert(name@.subrange(0, length as int) =~= name@);
    text
}

} // verus!
