//! How values travel between compiled procedures: as tagged words or as references to heap
//! objects of a known kind.
use crate::middle::hir::{Datum, Formals, Params};
use crate::names::Duplicate;
use vstd::prelude::*;

verus! {

broadcast use vstd::seq_lib::group_seq_properties;

/// What a heap reference is known to refer to.
#[derive(Clone, Copy, Debug, PartialEq, Eq, Structural)]
pub enum HeapValueKind {
    Pair,
    String,
    Symbol,
    Vector,
    Box,
    Promise,
}

/// A tagged word, or a reference to a heap object of a known kind.
#[derive(Clone, Copy, Debug, PartialEq, Eq, Structural)]
pub enum AbiValueKind {
    Word,
    Heap(HeapValueKind),
}

/// What a compiled procedure takes and returns.
#[derive(Debug)]
pub struct FunctionSignature {
    pub return_kind: AbiValueKind,
    pub required_param_kinds: Vec<AbiValueKind>,
    pub rest: bool,
}

/// The meaning of a `FunctionSignature`.
pub struct Signature {
    pub return_kind: AbiValueKind,
    pub params: Seq<AbiValueKind>,
    pub rest: bool,
}

impl View for FunctionSignature {
    type V = Signature;

    open spec fn view(&self) -> Signature {
        Signature {
            return_kind: self.return_kind,
            params: self.required_param_kinds@,
            rest: self.rest,
        }
    }
}

/// A copy of a row of value kinds.
pub fn clone_kinds(kinds: &Vec<AbiValueKind>) -> (copy: Vec<AbiValueKind>)
    ensures
        copy@ == kinds@,
{
    let mut copy: Vec<AbiValueKind> = Vec::new();
    let mut index: usize = 0;
    while index < kinds.len()
        invariant
            index <= kinds@.len(),
            copy@ == kinds@.subrange(0, index as int),
        decreases kinds@.len() - index,
    {
        copy.push(kinds[index]);
        assert(kinds@.subrange(0, index + 1) =~= kinds@.subrange(0, index as int).push(kinds@[index as int]));
        index = index + 1;
    }
    assert(kinds@.subrange(0, kinds@.len() as int) =~= kinds@);
    copy
}

impl Duplicate for FunctionSignature {
    fn duplicate(&self) -> (copy: Self) {
        FunctionSignature {
            return_kind: self.return_kind,
            required_param_kinds: clone_kinds(&self.required_param_kinds),
            rest: self.rest,
        }
    }
}

impl FunctionSignature {
    /// Whether two signatures say the same.
    pub fn same(&self, other: &FunctionSignature) -> (equal: bool)
        ensures
            equal == (self@ == other@),
    {
        if self.return_kind != other.return_kind || self.rest != other.rest
            || self.required_param_kinds.len() != other.required_param_kinds.len() {
            return false;
        }
        let mut index: usize = 0;
        while index < self.required_param_kinds.len()
            invariant
                index <= self.required_param_kinds@.len(),
                self.required_param_kinds@.len() == other.required_param_kinds@.len(),
                forall|i: int| 0 <= i < index ==> self.required_param_kinds@[i] == other.required_param_kinds@[i],
            decreases self.required_param_kinds@.len() - index,
        {
            if self.required_param_kinds[index] != other.required_param_kinds[index] {
                assert(self@.params[index as int] != other@.params[index as int]);
                return false;
            }
            index = index + 1;
        }
        assert(self.required_param_kinds@ =~= other.required_param_kinds@);
        true
    }
}

/// What a name is known to stand for while kinds are inferred.
#[derive(Debug)]
pub enum BindingKind {
    Value(AbiValueKind),
    Function(FunctionSignature),
}

/// The meaning of a `BindingKind`, and of a `CaptureKind`.
pub enum NameKind {
    Value(AbiValueKind),
    Function(Signature),
}

impl View for BindingKind {
    type V = NameKind;

    open spec fn view(&self) -> NameKind {
        match *self {
            BindingKind::Value(kind) => NameKind::Value(kind),
            BindingKind::Function(signature) => NameKind::Function(signature@),
        }
    }
}

impl Duplicate for BindingKind {
    fn duplicate(&self) -> (copy: Self) {
        match self {
            BindingKind::Value(kind) => BindingKind::Value(*kind),
            BindingKind::Function(signature) => BindingKind::Function(signature.duplicate()),
        }
    }
}

/// How a captured variable travels in a closure.
#[derive(Debug)]
pub enum CaptureKind {
    Value(AbiValueKind),
    Function(FunctionSignature),
}

impl View for CaptureKind {
    type V = NameKind;

    open spec fn view(&self) -> NameKind {
        match *self {
            CaptureKind::Value(kind) => NameKind::Value(kind),
            CaptureKind::Function(signature) => NameKind::Function(signature@),
        }
    }
}

impl Duplicate for CaptureKind {
    fn duplicate(&self) -> (copy: Self) {
        match self {
            CaptureKind::Value(kind) => CaptureKind::Value(*kind),
            CaptureKind::Function(signature) => CaptureKind::Function(signature.duplicate()),
        }
    }
}

/// What is known of a value that is either of two: a heap kind wins over a word, and two
/// different heap kinds leave a word.
pub open spec fn combined_kind(left: AbiValueKind, right: AbiValueKind) -> AbiValueKind {
    match (left, right) {
        (AbiValueKind::Word, other) => other,
        (other, AbiValueKind::Word) => other,
        (AbiValueKind::Heap(left_kind), AbiValueKind::Heap(right_kind)) => if left_kind == right_kind {
            AbiValueKind::Heap(left_kind)
        } else {
            AbiValueKind::Word
        },
    }
}

/// What is known of a value that is either of two.
pub fn combine_abi_kind(left: AbiValueKind, right: AbiValueKind) -> (kind: AbiValueKind)
    ensures
        kind == combined_kind(left, right),
{
    match (left, right) {
        (AbiValueKind::Word, AbiValueKind::Word) => AbiValueKind::Word,
        (AbiValueKind::Word, AbiValueKind::Heap(heap)) => AbiValueKind::Heap(heap),
        (AbiValueKind::Heap(heap), AbiValueKind::Word) => AbiValueKind::Heap(heap),
        (AbiValueKind::Heap(left_kind), AbiValueKind::Heap(right_kind)) => {
            if left_kind == right_kind {
                AbiValueKind::Heap(left_kind)
            } else {
                AbiValueKind::Word
            }
        },
    }
}

/// Combining kinds does not depend on their order, a word adds nothing, and combining a kind
/// with itself gives it back.
pub proof fn lemma_combined_kind(left: AbiValueKind, right: AbiValueKind)
    ensures
        combined_kind(left, right) == combined_kind(right, left),
        combined_kind(left, AbiValueKind::Word) == left,
        combined_kind(left, left) == left,
{
}

/// The name of a heap kind in messages.
pub open spec fn heap_kind_text(kind: HeapValueKind) -> Seq<char> {
    match kind {
        HeapValueKind::Pair => "pair"@,
        HeapValueKind::String => "string"@,
        HeapValueKind::Symbol => "symbol"@,
        HeapValueKind::Vector => "vector"@,
        HeapValueKind::Box => "box"@,
        HeapValueKind::Promise => "promise"@,
    }
}

/// The name of a heap kind in messages.
pub fn heap_kind_name(kind: HeapValueKind) -> (name: &'static str)
    ensures
        name@ == heap_kind_text(kind),
{
    match kind {
        HeapValueKind::Pair => "pair",
        HeapValueKind::String => "string",
        HeapValueKind::Symbol => "symbol",
        HeapValueKind::Vector => "vector",
        HeapValueKind::Box => "box",
        HeapValueKind::Promise => "promise",
    }
}

/// `count` times the kind of a word.
pub open spec fn word_kinds(count: nat) -> Seq<AbiValueKind> {
    Seq::new(count, |i: int| AbiValueKind::Word)
}

fn words(count: usize) -> (kinds: Vec<AbiValueKind>)
    ensures
        kinds@ == word_kinds(count as nat),
{
    let mut kinds: Vec<AbiValueKind> = Vec::new();
    let mut index: usize = 0;
    while index < count
        invariant
            index <= count,
            kinds@ == word_kinds(index as nat),
        decreases count - index,
    {
        kinds.push(AbiValueKind::Word);
        index = index + 1;
        assert(kinds@ =~= word_kinds(index as nat));
    }
    kinds
}

/// A signature of words only.
pub open spec fn words_signature(required: nat, rest: bool) -> Signature {
    Signature { return_kind: AbiValueKind::Word, params: word_kinds(required), rest }
}

/// A signature of words only.
pub fn signature_of_words(required: usize, rest: bool) -> (signature: FunctionSignature)
    ensures
        signature@ == words_signature(required as nat, rest),
{
    FunctionSignature { return_kind: AbiValueKind::Word, required_param_kinds: words(required), rest }
}

/// The signature of a procedure of which nothing but its parameter list is known.
pub open spec fn default_signature_of(formals: Params) -> Signature {
    words_signature(formals.required.len(), formals.rest.is_some())
}

/// The signature of a procedure of which nothing but its parameter list is known.
pub fn default_signature(formals: &Formals) -> (signature: FunctionSignature)
    ensures
        signature@ == default_signature_of(formals@),
{
    signature_of_words(formals.required.len(), formals.rest.is_some())
}

/// The signature under which a value of unknown origin is called with `arity` arguments.
pub fn dynamic_callable_signature(arity: usize) -> (signature: FunctionSignature)
    ensures
        signature@ == words_signature(arity as nat, false),
{
    signature_of_words(arity, false)
}

/// What a quoted datum compiles to: a word for numbers, booleans, characters and the empty
/// list, a heap reference for everything else.
pub open spec fn quote_kind(datum: Datum) -> AbiValueKind {
    match datum {
        Datum::Integer(_) => AbiValueKind::Word,
        Datum::Boolean(_) => AbiValueKind::Word,
        Datum::Char(_) => AbiValueKind::Word,
        Datum::String(_) => AbiValueKind::Heap(HeapValueKind::String),
        Datum::Symbol(_) => AbiValueKind::Heap(HeapValueKind::Symbol),
        Datum::List { items, tail } => if items@.len() == 0 && tail.is_none() {
            AbiValueKind::Word
        } else {
            AbiValueKind::Heap(HeapValueKind::Pair)
        },
    }
}

/// What a quoted datum compiles to.
pub fn infer_quote_kind(datum: &Datum) -> (kind: AbiValueKind)
    ensures
        kind == quote_kind(*datum),
{
    match datum {
        Datum::Integer(_) => AbiValueKind::Word,
        Datum::Boolean(_) => AbiValueKind::Word,
        Datum::Char(_) => AbiValueKind::Word,
        Datum::String(_) => AbiValueKind::Heap(HeapValueKind::String),
        Datum::Symbol(_) => AbiValueKind::Heap(HeapValueKind::Symbol),
        Datum::List { items, tail } => {
            if items.len() == 0 && tail.is_none() {
                AbiValueKind::Word
            } else {
                AbiValueKind::Heap(HeapValueKind::Pair)
            }
        },
    }
}

} // verus!
