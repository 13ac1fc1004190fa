//! The entries of the runtime that compiled code calls.
use crate::backend::ir::{FunctionType, IrType, Prototype};
use vstd::prelude::*;

verus! {

broadcast use vstd::seq_lib::group_seq_properties;

/// The entries of the runtime. Those whose names end in `Gc` take or return pointers to heap
/// objects: compiled code reaches them through a wrapper that changes the address space.
#[derive(Clone, Copy, Debug, PartialEq, Eq, Structural)]
pub enum RuntimeFunction {
    AllocPairGc,
    PairCarGc,
    PairCdrGc,
    PairSetCarGc,
    PairSetCdrGc,
    AllocStringGc,
    AllocSymbolGc,
    AllocBoxGc,
    AllocPromiseGc,
    BoxSetGc,
    PromiseForcedGc,
    PromiseValueGc,
    PromiseResolveGc,
    AllocClosureGc,
    ClosureCodePtrGc,
    ClosureEnvRefGc,
    ClosureEnvSetGc,
    StringLengthGc,
    StringRefGc,
    AllocVectorGc,
    VectorLengthGc,
    VectorRefGc,
    VectorSetGc,
    SafepointPollWrapper,
    GcSafepointPoll,
    RtMmtkInit,
    RtBindThread,
    RtUnbindThread,
    RtAllocSlow,
    RtGcPoll,
    RtExceptionPending,
    RtRaise,
    RtTakePendingException,
    RtObjectWritePost,
    RtRootSlotPush,
    RtRootSlotPop,
    RtTailPending,
    RtTailCallMarker,
    RtTailInvoke,
    RtTrampolineApply,
    MakeFixnum,
    MakeBool,
    EmptyList,
    Unspecified,
    GcStress,
    Display,
    Write,
    Newline,
    AllocPair,
    PairCar,
    PairCdr,
    PairSetCar,
    PairSetCdr,
    IsPair,
    IsList,
    ListLength,
    ListTail,
    ListRef,
    Append,
    Memq,
    Memv,
    Member,
    Assq,
    Assv,
    Assoc,
    ListCopy,
    Reverse,
    AllocBox,
    AllocPromise,
    PromiseForced,
    PromiseValue,
    PromiseResolve,
    AllocClosure,
    AllocString,
    AllocSymbol,
    IsSymbol,
    AllocValues,
    IsValues,
    ValuesLength,
    ValuesRef,
    ValuesTailList,
    Equal,
    ApplyBuiltin,
    SymbolToString,
    StringToSymbol,
    IsString,
    StringLength,
    StringRef,
    AllocVector,
    IsVector,
    VectorLength,
    VectorRef,
    VectorSet,
}

/// What a wrapper around an entry of the runtime converts.
#[derive(Clone, Copy, Debug, PartialEq, Eq, Structural)]
pub enum Conversion {
    /// The result, from an ordinary pointer to one to a heap object.
    OfResult,
    /// The first argument, from a pointer to a heap object to an ordinary one.
    OfArgument,
}

/// The type of a function of no parameters.
#[verifier::opaque]
pub open spec fn type_of0(ret: Option<IrType>) -> Prototype {
    Prototype { ret, params: Seq::empty() }
}

/// The type of a function of one parameter.
#[verifier::opaque]
pub open spec fn type_of1(ret: Option<IrType>, first: IrType) -> Prototype {
    Prototype { ret, params: seq![first] }
}

/// The type of a function of two parameters.
#[verifier::opaque]
pub open spec fn type_of2(ret: Option<IrType>, first: IrType, second: IrType) -> Prototype {
    Prototype { ret, params: seq![first, second] }
}

/// The type of a function of three parameters.
#[verifier::opaque]
pub open spec fn type_of3(ret: Option<IrType>, first: IrType, second: IrType, third: IrType) -> Prototype {
    Prototype { ret, params: seq![first, second, third] }
}

/// The types that entries of the runtime have.
#[derive(Clone, Copy, Debug, PartialEq, Eq, Structural)]
pub enum EntryShape {
    GcFromWordWord,
    WordFromGc,
    WordFromGcWord,
    GcFromRawWord,
    GcFromWord,
    BitFromGc,
    GcFromWordRawWord,
    WordFromGcWordWord,
    NothingFromNothing,
    BitFromWordWord,
    RawFromNothing,
    NothingFromRaw,
    RawFromWordWordShort,
    BitFromNothing,
    WordFromWord,
    WordFromNothing,
    NothingFromRawRawWord,
    NothingFromWordWordWord,
    WordFromWordWordWord,
    WordFromBit,
    WordFromWordWord,
    BitFromWord,
    WordFromWordRawWord,
    WordFromRawWord,
    RawFromWordWord,
    WordFromRaw,
    RawFromRawWord,
    RawFromWord,
    BitFromRaw,
    RawFromWordRawWord,
    WordFromRawWordWord,
}

/// The type that an entry of a given shape has.
pub open spec fn shape_type(shape: EntryShape) -> Prototype {
    match shape {
        EntryShape::GcFromWordWord => type_of2(Some(IrType::Gc), IrType::Word, IrType::Word),
        EntryShape::WordFromGc => type_of1(Some(IrType::Word), IrType::Gc),
        EntryShape::WordFromGcWord => type_of2(Some(IrType::Word), IrType::Gc, IrType::Word),
        EntryShape::GcFromRawWord => type_of2(Some(IrType::Gc), IrType::Raw, IrType::Word),
        EntryShape::GcFromWord => type_of1(Some(IrType::Gc), IrType::Word),
        EntryShape::BitFromGc => type_of1(Some(IrType::Bit), IrType::Gc),
        EntryShape::GcFromWordRawWord => type_of3(Some(IrType::Gc), IrType::Word, IrType::Raw, IrType::Word),
        EntryShape::WordFromGcWordWord => type_of3(Some(IrType::Word), IrType::Gc, IrType::Word, IrType::Word),
        EntryShape::NothingFromNothing => type_of0(None),
        EntryShape::BitFromWordWord => type_of2(Some(IrType::Bit), IrType::Word, IrType::Word),
        EntryShape::RawFromNothing => type_of0(Some(IrType::Raw)),
        EntryShape::NothingFromRaw => type_of1(None, IrType::Raw),
        EntryShape::RawFromWordWordShort => type_of3(Some(IrType::Raw), IrType::Word, IrType::Word, IrType::Short),
        EntryShape::BitFromNothing => type_of0(Some(IrType::Bit)),
        EntryShape::WordFromWord => type_of1(Some(IrType::Word), IrType::Word),
        EntryShape::WordFromNothing => type_of0(Some(IrType::Word)),
        EntryShape::NothingFromRawRawWord => type_of3(None, IrType::Raw, IrType::Raw, IrType::Word),
        EntryShape::NothingFromWordWordWord => type_of3(None, IrType::Word, IrType::Word, IrType::Word),
        EntryShape::WordFromWordWordWord => type_of3(Some(IrType::Word), IrType::Word, IrType::Word, IrType::Word),
        EntryShape::WordFromBit => type_of1(Some(IrType::Word), IrType::Bit),
        EntryShape::WordFromWordWord => type_of2(Some(IrType::Word), IrType::Word, IrType::Word),
        EntryShape::BitFromWord => type_of1(Some(IrType::Bit), IrType::Word),
        EntryShape::WordFromWordRawWord => type_of3(Some(IrType::Word), IrType::Word, IrType::Raw, IrType::Word),
        EntryShape::WordFromRawWord => type_of2(Some(IrType::Word), IrType::Raw, IrType::Word),
        EntryShape::RawFromWordWord => type_of2(Some(IrType::Raw), IrType::Word, IrType::Word),
        EntryShape::WordFromRaw => type_of1(Some(IrType::Word), IrType::Raw),
        EntryShape::RawFromRawWord => type_of2(Some(IrType::Raw), IrType::Raw, IrType::Word),
        EntryShape::RawFromWord => type_of1(Some(IrType::Raw), IrType::Word),
        EntryShape::BitFromRaw => type_of1(Some(IrType::Bit), IrType::Raw),
        EntryShape::RawFromWordRawWord => type_of3(Some(IrType::Raw), IrType::Word, IrType::Raw, IrType::Word),
        EntryShape::WordFromRawWordWord => type_of3(Some(IrType::Word), IrType::Raw, IrType::Word, IrType::Word),
    }
}

/// The name under which compiled code knows an entry of the runtime.
pub open spec fn symbol_text(function: RuntimeFunction) -> Seq<char> {
    match function {
        RuntimeFunction::AllocPairGc => "__mlisp_alloc_pair_gc_as1"@,
        RuntimeFunction::PairCarGc => "__mlisp_pair_car_gc_as1"@,
        RuntimeFunction::PairCdrGc => "__mlisp_pair_cdr_gc_as1"@,
        RuntimeFunction::PairSetCarGc => "__mlisp_pair_set_car_gc_as1"@,
        RuntimeFunction::PairSetCdrGc => "__mlisp_pair_set_cdr_gc_as1"@,
        RuntimeFunction::AllocStringGc => "__mlisp_alloc_string_gc_as1"@,
        RuntimeFunction::AllocSymbolGc => "__mlisp_alloc_symbol_gc_as1"@,
        RuntimeFunction::AllocBoxGc => "__mlisp_alloc_box_gc_as1"@,
        RuntimeFunction::AllocPromiseGc => "__mlisp_alloc_promise_gc_as1"@,
        RuntimeFunction::BoxSetGc => "__mlisp_box_set_gc_as1"@,
        RuntimeFunction::PromiseForcedGc => "__mlisp_promise_forced_gc_as1"@,
        RuntimeFunction::PromiseValueGc => "__mlisp_promise_value_gc_as1"@,
        RuntimeFunction::PromiseResolveGc => "__mlisp_promise_resolve_gc_as1"@,
        RuntimeFunction::AllocClosureGc => "__mlisp_alloc_closure_gc_as1"@,
        RuntimeFunction::ClosureCodePtrGc => "__mlisp_closure_code_ptr_gc_as1"@,
        RuntimeFunction::ClosureEnvRefGc => "__mlisp_closure_env_ref_gc_as1"@,
        RuntimeFunction::ClosureEnvSetGc => "__mlisp_closure_env_set_gc_as1"@,
        RuntimeFunction::StringLengthGc => "__mlisp_string_length_gc_as1"@,
        RuntimeFunction::StringRefGc => "__mlisp_string_ref_gc_as1"@,
        RuntimeFunction::AllocVectorGc => "__mlisp_alloc_vector_gc_as1"@,
        RuntimeFunction::VectorLengthGc => "__mlisp_vector_length_gc_as1"@,
        RuntimeFunction::VectorRefGc => "__mlisp_vector_ref_gc_as1"@,
        RuntimeFunction::VectorSetGc => "__mlisp_vector_set_gc_as1"@,
        RuntimeFunction::SafepointPollWrapper => "gc.safepoint_poll"@,
        RuntimeFunction::GcSafepointPoll => "gc_safepoint_poll"@,
        RuntimeFunction::RtMmtkInit => "rt_mmtk_init"@,
        RuntimeFunction::RtBindThread => "rt_bind_thread"@,
        RuntimeFunction::RtUnbindThread => "rt_unbind_thread"@,
        RuntimeFunction::RtAllocSlow => "rt_alloc_slow"@,
        RuntimeFunction::RtGcPoll => "rt_gc_poll"@,
        RuntimeFunction::RtExceptionPending => "rt_exception_pending"@,
        RuntimeFunction::RtRaise => "rt_raise"@,
        RuntimeFunction::RtTakePendingException => "rt_take_pending_exception"@,
        RuntimeFunction::RtObjectWritePost => "rt_object_write_post"@,
        RuntimeFunction::RtRootSlotPush => "rt_root_slot_push"@,
        RuntimeFunction::RtRootSlotPop => "rt_root_slot_pop"@,
        RuntimeFunction::RtTailPending => "rt_tail_pending"@,
        RuntimeFunction::RtTailCallMarker => "rt_tail_call_marker"@,
        RuntimeFunction::RtTailInvoke => "rt_tail_invoke"@,
        RuntimeFunction::RtTrampolineApply => "rt_trampoline_apply"@,
        RuntimeFunction::MakeFixnum => "mlisp_make_fixnum"@,
        RuntimeFunction::MakeBool => "mlisp_make_bool"@,
        RuntimeFunction::EmptyList => "mlisp_empty_list"@,
        RuntimeFunction::Unspecified => "mlisp_unspecified"@,
        RuntimeFunction::GcStress => "mlisp_gc_stress"@,
        RuntimeFunction::Display => "mlisp_display"@,
        RuntimeFunction::Write => "mlisp_write"@,
        RuntimeFunction::Newline => "mlisp_newline"@,
        RuntimeFunction::AllocPair => "mlisp_alloc_pair"@,
        RuntimeFunction::PairCar => "mlisp_pair_car"@,
        RuntimeFunction::PairCdr => "mlisp_pair_cdr"@,
        RuntimeFunction::PairSetCar => "mlisp_pair_set_car"@,
        RuntimeFunction::PairSetCdr => "mlisp_pair_set_cdr"@,
        RuntimeFunction::IsPair => "mlisp_is_pair"@,
        RuntimeFunction::IsList => "mlisp_is_list"@,
        RuntimeFunction::ListLength => "mlisp_list_length"@,
        RuntimeFunction::ListTail => "mlisp_list_tail"@,
        RuntimeFunction::ListRef => "mlisp_list_ref"@,
        RuntimeFunction::Append => "mlisp_append"@,
        RuntimeFunction::Memq => "mlisp_memq"@,
        RuntimeFunction::Memv => "mlisp_memv"@,
        RuntimeFunction::Member => "mlisp_member"@,
        RuntimeFunction::Assq => "mlisp_assq"@,
        RuntimeFunction::Assv => "mlisp_assv"@,
        RuntimeFunction::Assoc => "mlisp_assoc"@,
        RuntimeFunction::ListCopy => "mlisp_list_copy"@,
        RuntimeFunction::Reverse => "mlisp_reverse"@,
        RuntimeFunction::AllocBox => "mlisp_alloc_box"@,
        RuntimeFunction::AllocPromise => "mlisp_alloc_promise"@,
        RuntimeFunction::PromiseForced => "mlisp_promise_forced"@,
        RuntimeFunction::PromiseValue => "mlisp_promise_value"@,
        RuntimeFunction::PromiseResolve => "mlisp_promise_resolve"@,
        RuntimeFunction::AllocClosure => "mlisp_alloc_closure"@,
        RuntimeFunction::AllocString => "mlisp_alloc_string"@,
        RuntimeFunction::AllocSymbol => "mlisp_alloc_symbol"@,
        RuntimeFunction::IsSymbol => "mlisp_is_symbol"@,
        RuntimeFunction::AllocValues => "mlisp_alloc_values"@,
        RuntimeFunction::IsValues => "mlisp_is_values"@,
        RuntimeFunction::ValuesLength => "mlisp_values_length"@,
        RuntimeFunction::ValuesRef => "mlisp_values_ref"@,
        RuntimeFunction::ValuesTailList => "mlisp_values_tail_list"@,
        RuntimeFunction::Equal => "mlisp_equal"@,
        RuntimeFunction::ApplyBuiltin => "mlisp_apply_builtin"@,
        RuntimeFunction::SymbolToString => "mlisp_symbol_to_string"@,
        RuntimeFunction::StringToSymbol => "mlisp_string_to_symbol"@,
        RuntimeFunction::IsString => "mlisp_is_string"@,
        RuntimeFunction::StringLength => "mlisp_string_length"@,
        RuntimeFunction::StringRef => "mlisp_string_ref"@,
        RuntimeFunction::AllocVector => "mlisp_alloc_vector"@,
        RuntimeFunction::IsVector => "mlisp_is_vector"@,
        RuntimeFunction::VectorLength => "mlisp_vector_length"@,
        RuntimeFunction::VectorRef => "mlisp_vector_ref"@,
        RuntimeFunction::VectorSet => "mlisp_vector_set"@,
    }
}

/// The name of the entry behind a wrapper.
pub open spec fn raw_symbol_text(function: RuntimeFunction) -> Seq<char> {
    match function {
        RuntimeFunction::AllocPairGc => "mlisp_alloc_pair_gc"@,
        RuntimeFunction::PairCarGc => "mlisp_pair_car_gc"@,
        RuntimeFunction::PairCdrGc => "mlisp_pair_cdr_gc"@,
        RuntimeFunction::PairSetCarGc => "mlisp_pair_set_car_gc"@,
        RuntimeFunction::PairSetCdrGc => "mlisp_pair_set_cdr_gc"@,
        RuntimeFunction::AllocStringGc => "mlisp_alloc_string_gc"@,
        RuntimeFunction::AllocSymbolGc => "mlisp_alloc_symbol_gc"@,
        RuntimeFunction::AllocBoxGc => "mlisp_alloc_box_gc"@,
        RuntimeFunction::AllocPromiseGc => "mlisp_alloc_promise_gc"@,
        RuntimeFunction::BoxSetGc => "mlisp_box_set_gc"@,
        RuntimeFunction::PromiseForcedGc => "mlisp_promise_forced_gc"@,
        RuntimeFunction::PromiseValueGc => "mlisp_promise_value_gc"@,
        RuntimeFunction::PromiseResolveGc => "mlisp_promise_resolve_gc"@,
        RuntimeFunction::AllocClosureGc => "mlisp_alloc_closure_gc"@,
        RuntimeFunction::ClosureCodePtrGc => "mlisp_closure_code_ptr_gc"@,
        RuntimeFunction::ClosureEnvRefGc => "mlisp_closure_env_ref_gc"@,
        RuntimeFunction::ClosureEnvSetGc => "mlisp_closure_env_set_gc"@,
        RuntimeFunction::StringLengthGc => "mlisp_string_length_gc"@,
        RuntimeFunction::StringRefGc => "mlisp_string_ref_gc"@,
        RuntimeFunction::AllocVectorGc => "mlisp_alloc_vector_gc"@,
        RuntimeFunction::VectorLengthGc => "mlisp_vector_length_gc"@,
        RuntimeFunction::VectorRefGc => "mlisp_vector_ref_gc"@,
        RuntimeFunction::VectorSetGc => "mlisp_vector_set_gc"@,
        _ => symbol_text(function),
    }
}

/// The shape under which compiled code knows an entry of the runtime.
pub open spec fn entry_shape(function: RuntimeFunction) -> EntryShape {
    match function {
        RuntimeFunction::AllocPairGc => EntryShape::GcFromWordWord,
        RuntimeFunction::PairCarGc => EntryShape::WordFromGc,
        RuntimeFunction::PairCdrGc => EntryShape::WordFromGc,
        RuntimeFunction::PairSetCarGc => EntryShape::WordFromGcWord,
        RuntimeFunction::PairSetCdrGc => EntryShape::WordFromGcWord,
        RuntimeFunction::AllocStringGc => EntryShape::GcFromRawWord,
        RuntimeFunction::AllocSymbolGc => EntryShape::GcFromRawWord,
        RuntimeFunction::AllocBoxGc => EntryShape::GcFromWord,
        RuntimeFunction::AllocPromiseGc => EntryShape::GcFromWord,
        RuntimeFunction::BoxSetGc => EntryShape::WordFromGcWord,
        RuntimeFunction::PromiseForcedGc => EntryShape::BitFromGc,
        RuntimeFunction::PromiseValueGc => EntryShape::WordFromGc,
        RuntimeFunction::PromiseResolveGc => EntryShape::WordFromGcWord,
        RuntimeFunction::AllocClosureGc => EntryShape::GcFromWordRawWord,
        RuntimeFunction::ClosureCodePtrGc => EntryShape::WordFromGc,
        RuntimeFunction::ClosureEnvRefGc => EntryShape::WordFromGcWord,
        RuntimeFunction::ClosureEnvSetGc => EntryShape::WordFromGcWordWord,
        RuntimeFunction::StringLengthGc => EntryShape::WordFromGc,
        RuntimeFunction::StringRefGc => EntryShape::WordFromGcWord,
        RuntimeFunction::AllocVectorGc => EntryShape::GcFromRawWord,
        RuntimeFunction::VectorLengthGc => EntryShape::WordFromGc,
        RuntimeFunction::VectorRefGc => EntryShape::WordFromGcWord,
        RuntimeFunction::VectorSetGc => EntryShape::WordFromGcWordWord,
        RuntimeFunction::SafepointPollWrapper => EntryShape::NothingFromNothing,
        RuntimeFunction::GcSafepointPoll => EntryShape::NothingFromNothing,
        RuntimeFunction::RtMmtkInit => EntryShape::BitFromWordWord,
        RuntimeFunction::RtBindThread => EntryShape::RawFromNothing,
        RuntimeFunction::RtUnbindThread => EntryShape::NothingFromRaw,
        RuntimeFunction::RtAllocSlow => EntryShape::RawFromWordWordShort,
        RuntimeFunction::RtGcPoll => EntryShape::NothingFromNothing,
        RuntimeFunction::RtExceptionPending => EntryShape::BitFromNothing,
        RuntimeFunction::RtRaise => EntryShape::WordFromWord,
        RuntimeFunction::RtTakePendingException => EntryShape::WordFromNothing,
        RuntimeFunction::RtObjectWritePost => EntryShape::NothingFromRawRawWord,
        RuntimeFunction::RtRootSlotPush => EntryShape::NothingFromRaw,
        RuntimeFunction::RtRootSlotPop => EntryShape::NothingFromNothing,
        RuntimeFunction::RtTailPending => EntryShape::BitFromNothing,
        RuntimeFunction::RtTailCallMarker => EntryShape::WordFromNothing,
        RuntimeFunction::RtTailInvoke => EntryShape::NothingFromWordWordWord,
        RuntimeFunction::RtTrampolineApply => EntryShape::WordFromWordWordWord,
        RuntimeFunction::MakeFixnum => EntryShape::WordFromWord,
        RuntimeFunction::MakeBool => EntryShape::WordFromBit,
        RuntimeFunction::EmptyList => EntryShape::WordFromNothing,
        RuntimeFunction::Unspecified => EntryShape::WordFromNothing,
        RuntimeFunction::GcStress => EntryShape::WordFromWord,
        RuntimeFunction::Display => EntryShape::WordFromWord,
        RuntimeFunction::Write => EntryShape::WordFromWord,
        RuntimeFunction::Newline => EntryShape::WordFromNothing,
        RuntimeFunction::AllocPair => EntryShape::WordFromWordWord,
        RuntimeFunction::PairCar => EntryShape::WordFromWord,
        RuntimeFunction::PairCdr => EntryShape::WordFromWord,
        RuntimeFunction::PairSetCar => EntryShape::WordFromWordWord,
        RuntimeFunction::PairSetCdr => EntryShape::WordFromWordWord,
        RuntimeFunction::IsPair => EntryShape::BitFromWord,
        RuntimeFunction::IsList => EntryShape::BitFromWord,
        RuntimeFunction::ListLength => EntryShape::WordFromWord,
        RuntimeFunction::ListTail => EntryShape::WordFromWordWord,
        RuntimeFunction::ListRef => EntryShape::WordFromWordWord,
        RuntimeFunction::Append => EntryShape::WordFromWordWord,
        RuntimeFunction::Memq => EntryShape::WordFromWordWord,
        RuntimeFunction::Memv => EntryShape::WordFromWordWord,
        RuntimeFunction::Member => EntryShape::WordFromWordWord,
        RuntimeFunction::Assq => EntryShape::WordFromWordWord,
        RuntimeFunction::Assv => EntryShape::WordFromWordWord,
        RuntimeFunction::Assoc => EntryShape::WordFromWordWord,
        RuntimeFunction::ListCopy => EntryShape::WordFromWord,
        RuntimeFunction::Reverse => EntryShape::WordFromWord,
        RuntimeFunction::AllocBox => EntryShape::WordFromWord,
        RuntimeFunction::AllocPromise => EntryShape::WordFromWord,
        RuntimeFunction::PromiseForced => EntryShape::BitFromWord,
        RuntimeFunction::PromiseValue => EntryShape::WordFromWord,
        RuntimeFunction::PromiseResolve => EntryShape::WordFromWordWord,
        RuntimeFunction::AllocClosure => EntryShape::WordFromWordRawWord,
        RuntimeFunction::AllocString => EntryShape::WordFromRawWord,
        RuntimeFunction::AllocSymbol => EntryShape::WordFromRawWord,
        RuntimeFunction::IsSymbol => EntryShape::BitFromWord,
        RuntimeFunction::AllocValues => EntryShape::WordFromRawWord,
        RuntimeFunction::IsValues => EntryShape::BitFromWord,
        RuntimeFunction::ValuesLength => EntryShape::WordFromWord,
        RuntimeFunction::ValuesRef => EntryShape::WordFromWordWord,
        RuntimeFunction::ValuesTailList => EntryShape::WordFromWordWord,
        RuntimeFunction::Equal => EntryShape::BitFromWordWord,
        RuntimeFunction::ApplyBuiltin => EntryShape::WordFromWordWord,
        RuntimeFunction::SymbolToString => EntryShape::WordFromWord,
        RuntimeFunction::StringToSymbol => EntryShape::WordFromWord,
        RuntimeFunction::IsString => EntryShape::BitFromWord,
        RuntimeFunction::StringLength => EntryShape::WordFromWord,
        RuntimeFunction::StringRef => EntryShape::WordFromWordWord,
        RuntimeFunction::AllocVector => EntryShape::WordFromRawWord,
        RuntimeFunction::IsVector => EntryShape::BitFromWord,
        RuntimeFunction::VectorLength => EntryShape::WordFromWord,
        RuntimeFunction::VectorRef => EntryShape::WordFromWordWord,
        RuntimeFunction::VectorSet => EntryShape::WordFromWordWordWord,
    }
}

/// The shape of the entry behind a wrapper.
pub open spec fn raw_shape(function: RuntimeFunction) -> EntryShape {
    match function {
        RuntimeFunction::AllocPairGc => EntryShape::RawFromWordWord,
        RuntimeFunction::PairCarGc => EntryShape::WordFromRaw,
        RuntimeFunction::PairCdrGc => EntryShape::WordFromRaw,
        RuntimeFunction::PairSetCarGc => EntryShape::WordFromRawWord,
        RuntimeFunction::PairSetCdrGc => EntryShape::WordFromRawWord,
        RuntimeFunction::AllocStringGc => EntryShape::RawFromRawWord,
        RuntimeFunction::AllocSymbolGc => EntryShape::RawFromRawWord,
        RuntimeFunction::AllocBoxGc => EntryShape::RawFromWord,
        RuntimeFunction::AllocPromiseGc => EntryShape::RawFromWord,
        RuntimeFunction::BoxSetGc => EntryShape::WordFromRawWord,
        RuntimeFunction::PromiseForcedGc => EntryShape::BitFromRaw,
        RuntimeFunction::PromiseValueGc => EntryShape::WordFromRaw,
        RuntimeFunction::PromiseResolveGc => EntryShape::WordFromRawWord,
        RuntimeFunction::AllocClosureGc => EntryShape::RawFromWordRawWord,
        RuntimeFunction::ClosureCodePtrGc => EntryShape::WordFromRaw,
        RuntimeFunction::ClosureEnvRefGc => EntryShape::WordFromRawWord,
        RuntimeFunction::ClosureEnvSetGc => EntryShape::WordFromRawWordWord,
        RuntimeFunction::StringLengthGc => EntryShape::WordFromRaw,
        RuntimeFunction::StringRefGc => EntryShape::WordFromRawWord,
        RuntimeFunction::AllocVectorGc => EntryShape::RawFromRawWord,
        RuntimeFunction::VectorLengthGc => EntryShape::WordFromRaw,
        RuntimeFunction::VectorRefGc => EntryShape::WordFromRawWord,
        RuntimeFunction::VectorSetGc => EntryShape::WordFromRawWordWord,
        _ => entry_shape(function),
    }
}

/// The type under which compiled code knows an entry of the runtime.
pub open spec fn entry_type(function: RuntimeFunction) -> Prototype {
    shape_type(entry_shape(function))
}

/// The type of the entry behind a wrapper.
pub open spec fn raw_type(function: RuntimeFunction) -> Prototype {
    shape_type(raw_shape(function))
}

/// What the wrapper around an entry converts; most entries have none.
pub open spec fn conversion_of(function: RuntimeFunction) -> Option<Conversion> {
    match function {
        RuntimeFunction::AllocPairGc => Some(Conversion::OfResult),
        RuntimeFunction::PairCarGc => Some(Conversion::OfArgument),
        RuntimeFunction::PairCdrGc => Some(Conversion::OfArgument),
        RuntimeFunction::PairSetCarGc => Some(Conversion::OfArgument),
        RuntimeFunction::PairSetCdrGc => Some(Conversion::OfArgument),
        RuntimeFunction::AllocStringGc => Some(Conversion::OfResult),
        RuntimeFunction::AllocSymbolGc => Some(Conversion::OfResult),
        RuntimeFunction::AllocBoxGc => Some(Conversion::OfResult),
        RuntimeFunction::AllocPromiseGc => Some(Conversion::OfResult),
        RuntimeFunction::BoxSetGc => Some(Conversion::OfArgument),
        RuntimeFunction::PromiseForcedGc => Some(Conversion::OfArgument),
        RuntimeFunction::PromiseValueGc => Some(Conversion::OfArgument),
        RuntimeFunction::PromiseResolveGc => Some(Conversion::OfArgument),
        RuntimeFunction::AllocClosureGc => Some(Conversion::OfResult),
        RuntimeFunction::ClosureCodePtrGc => Some(Conversion::OfArgument),
        RuntimeFunction::ClosureEnvRefGc => Some(Conversion::OfArgument),
        RuntimeFunction::ClosureEnvSetGc => Some(Conversion::OfArgument),
        RuntimeFunction::StringLengthGc => Some(Conversion::OfArgument),
        RuntimeFunction::StringRefGc => Some(Conversion::OfArgument),
        RuntimeFunction::AllocVectorGc => Some(Conversion::OfResult),
        RuntimeFunction::VectorLengthGc => Some(Conversion::OfArgument),
        RuntimeFunction::VectorRefGc => Some(Conversion::OfArgument),
        RuntimeFunction::VectorSetGc => Some(Conversion::OfArgument),
        _ => None,
    }
}

/// The entries that compiled code reaches through a wrapper.
pub open spec fn wrapped_functions() -> Seq<RuntimeFunction> {
    seq![
        RuntimeFunction::AllocPairGc,
        RuntimeFunction::PairCarGc,
        RuntimeFunction::PairCdrGc,
        RuntimeFunction::PairSetCarGc,
        RuntimeFunction::PairSetCdrGc,
        RuntimeFunction::AllocStringGc,
        RuntimeFunction::AllocSymbolGc,
        RuntimeFunction::AllocBoxGc,
        RuntimeFunction::AllocPromiseGc,
        RuntimeFunction::BoxSetGc,
        RuntimeFunction::PromiseForcedGc,
        RuntimeFunction::PromiseValueGc,
        RuntimeFunction::PromiseResolveGc,
        RuntimeFunction::AllocClosureGc,
        RuntimeFunction::ClosureCodePtrGc,
        RuntimeFunction::ClosureEnvRefGc,
        RuntimeFunction::ClosureEnvSetGc,
        RuntimeFunction::StringLengthGc,
        RuntimeFunction::StringRefGc,
        RuntimeFunction::AllocVectorGc,
        RuntimeFunction::VectorLengthGc,
        RuntimeFunction::VectorRefGc,
        RuntimeFunction::VectorSetGc,
    ]
}

/// The entries that compiled code calls as they are.
pub open spec fn plain_functions() -> Seq<RuntimeFunction> {
    seq![
        RuntimeFunction::RtMmtkInit,
        RuntimeFunction::RtBindThread,
        RuntimeFunction::RtUnbindThread,
        RuntimeFunction::RtAllocSlow,
        RuntimeFunction::RtGcPoll,
        RuntimeFunction::RtExceptionPending,
        RuntimeFunction::RtRaise,
        RuntimeFunction::RtTakePendingException,
        RuntimeFunction::RtObjectWritePost,
        RuntimeFunction::RtRootSlotPush,
        RuntimeFunction::RtRootSlotPop,
        RuntimeFunction::RtTailPending,
        RuntimeFunction::RtTailCallMarker,
        RuntimeFunction::RtTailInvoke,
        RuntimeFunction::RtTrampolineApply,
        RuntimeFunction::MakeFixnum,
        RuntimeFunction::MakeBool,
        RuntimeFunction::EmptyList,
        RuntimeFunction::Unspecified,
        RuntimeFunction::GcStress,
        RuntimeFunction::Display,
        RuntimeFunction::Write,
        RuntimeFunction::Newline,
        RuntimeFunction::AllocPair,
        RuntimeFunction::PairCar,
        RuntimeFunction::PairCdr,
        RuntimeFunction::PairSetCar,
        RuntimeFunction::PairSetCdr,
        RuntimeFunction::IsPair,
        RuntimeFunction::IsList,
        RuntimeFunction::ListLength,
        RuntimeFunction::ListTail,
        RuntimeFunction::ListRef,
        RuntimeFunction::Append,
        RuntimeFunction::Memq,
        RuntimeFunction::Memv,
        RuntimeFunction::Member,
        RuntimeFunction::Assq,
        RuntimeFunction::Assv,
        RuntimeFunction::Assoc,
        RuntimeFunction::ListCopy,
        RuntimeFunction::Reverse,
        RuntimeFunction::AllocBox,
        RuntimeFunction::AllocPromise,
        RuntimeFunction::PromiseForced,
        RuntimeFunction::PromiseValue,
        RuntimeFunction::PromiseResolve,
        RuntimeFunction::AllocClosure,
        RuntimeFunction::AllocString,
        RuntimeFunction::AllocSymbol,
        RuntimeFunction::IsSymbol,
        RuntimeFunction::AllocValues,
        RuntimeFunction::IsValues,
        RuntimeFunction::ValuesLength,
        RuntimeFunction::ValuesRef,
        RuntimeFunction::ValuesTailList,
        RuntimeFunction::Equal,
        RuntimeFunction::ApplyBuiltin,
        RuntimeFunction::SymbolToString,
        RuntimeFunction::StringToSymbol,
        RuntimeFunction::IsString,
        RuntimeFunction::StringLength,
        RuntimeFunction::StringRef,
        RuntimeFunction::AllocVector,
        RuntimeFunction::IsVector,
        RuntimeFunction::VectorLength,
        RuntimeFunction::VectorRef,
        RuntimeFunction::VectorSet,
    ]
}

fn prototype0(ret: Option<IrType>) -> (ty: FunctionType)
    ensures
        ty@ == type_of0(ret),
{
    reveal(type_of0);
    let mut params: Vec<IrType> = Vec::new();
    assert(params@ =~= Seq::<IrType>::empty());
    FunctionType { ret, params }
}

fn prototype1(ret: Option<IrType>, first: IrType) -> (ty: FunctionType)
    ensures
        ty@ == type_of1(ret, first),
{
    reveal(type_of1);
    let mut params: Vec<IrType> = Vec::new();
    params.push(first);
    assert(params@ =~= seq![first]);
    FunctionType { ret, params }
}

fn prototype2(ret: Option<IrType>, first: IrType, second: IrType) -> (ty: FunctionType)
    ensures
        ty@ == type_of2(ret, first, second),
{
    reveal(type_of2);
    let mut params: Vec<IrType> = Vec::new();
    params.push(first);
    params.push(second);
    assert(params@ =~= seq![first, second]);
    FunctionType { ret, params }
}

fn prototype3(ret: Option<IrType>, first: IrType, second: IrType, third: IrType) -> (ty: FunctionType)
    ensures
        ty@ == type_of3(ret, first, second, third),
{
    reveal(type_of3);
    let mut params: Vec<IrType> = Vec::new();
    params.push(first);
    params.push(second);
    params.push(third);
    assert(params@ =~= seq![first, second, third]);
    FunctionType { ret, params }
}

fn type_of_shape(shape: EntryShape) -> (ty: FunctionType)
    ensures
        ty@ == shape_type(shape),
{
    match shape {
        EntryShape::GcFromWordWord => prototype2(Some(IrType::Gc), IrType::Word, IrType::Word),
        EntryShape::WordFromGc => prototype1(Some(IrType::Word), IrType::Gc),
        EntryShape::WordFromGcWord => prototype2(Some(IrType::Word), IrType::Gc, IrType::Word),
        EntryShape::GcFromRawWord => prototype2(Some(IrType::Gc), IrType::Raw, IrType::Word),
        EntryShape::GcFromWord => prototype1(Some(IrType::Gc), IrType::Word),
        EntryShape::BitFromGc => prototype1(Some(IrType::Bit), IrType::Gc),
        EntryShape::GcFromWordRawWord => prototype3(Some(IrType::Gc), IrType::Word, IrType::Raw, IrType::Word),
        EntryShape::WordFromGcWordWord => prototype3(Some(IrType::Word), IrType::Gc, IrType::Word, IrType::Word),
        EntryShape::NothingFromNothing => prototype0(None),
        EntryShape::BitFromWordWord => prototype2(Some(IrType::Bit), IrType::Word, IrType::Word),
        EntryShape::RawFromNothing => prototype0(Some(IrType::Raw)),
        EntryShape::NothingFromRaw => prototype1(None, IrType::Raw),
        EntryShape::RawFromWordWordShort => prototype3(Some(IrType::Raw), IrType::Word, IrType::Word, IrType::Short),
        EntryShape::BitFromNothing => prototype0(Some(IrType::Bit)),
        EntryShape::WordFromWord => prototype1(Some(IrType::Word), IrType::Word),
        EntryShape::WordFromNothing => prototype0(Some(IrType::Word)),
        EntryShape::NothingFromRawRawWord => prototype3(None, IrType::Raw, IrType::Raw, IrType::Word),
        EntryShape::NothingFromWordWordWord => prototype3(None, IrType::Word, IrType::Word, IrType::Word),
        EntryShape::WordFromWordWordWord => prototype3(Some(IrType::Word), IrType::Word, IrType::Word, IrType::Word),
        EntryShape::WordFromBit => prototype1(Some(IrType::Word), IrType::Bit),
        EntryShape::WordFromWordWord => prototype2(Some(IrType::Word), IrType::Word, IrType::Word),
        EntryShape::BitFromWord => prototype1(Some(IrType::Bit), IrType::Word),
        EntryShape::WordFromWordRawWord => prototype3(Some(IrType::Word), IrType::Word, IrType::Raw, IrType::Word),
        EntryShape::WordFromRawWord => prototype2(Some(IrType::Word), IrType::Raw, IrType::Word),
        EntryShape::RawFromWordWord => prototype2(Some(IrType::Raw), IrType::Word, IrType::Word),
        EntryShape::WordFromRaw => prototype1(Some(IrType::Word), IrType::Raw),
        EntryShape::RawFromRawWord => prototype2(Some(IrType::Raw), IrType::Raw, IrType::Word),
        EntryShape::RawFromWord => prototype1(Some(IrType::Raw), IrType::Word),
        EntryShape::BitFromRaw => prototype1(Some(IrType::Bit), IrType::Raw),
        EntryShape::RawFromWordRawWord => prototype3(Some(IrType::Raw), IrType::Word, IrType::Raw, IrType::Word),
        EntryShape::WordFromRawWordWord => prototype3(Some(IrType::Word), IrType::Raw, IrType::Word, IrType::Word),
    }
}

impl RuntimeFunction {
    /// The name under which compiled code knows the entry.
    pub fn symbol(self) -> (result: &'static str)
        ensures
            result@ == symbol_text(self),
    {
        match self {
            RuntimeFunction::AllocPairGc => "__mlisp_alloc_pair_gc_as1",
            RuntimeFunction::PairCarGc => "__mlisp_pair_car_gc_as1",
            RuntimeFunction::PairCdrGc => "__mlisp_pair_cdr_gc_as1",
            RuntimeFunction::PairSetCarGc => "__mlisp_pair_set_car_gc_as1",
            RuntimeFunction::PairSetCdrGc => "__mlisp_pair_set_cdr_gc_as1",
            RuntimeFunction::AllocStringGc => "__mlisp_alloc_string_gc_as1",
            RuntimeFunction::AllocSymbolGc => "__mlisp_alloc_symbol_gc_as1",
            RuntimeFunction::AllocBoxGc => "__mlisp_alloc_box_gc_as1",
            RuntimeFunction::AllocPromiseGc => "__mlisp_alloc_promise_gc_as1",
            RuntimeFunction::BoxSetGc => "__mlisp_box_set_gc_as1",
            RuntimeFunction::PromiseForcedGc => "__mlisp_promise_forced_gc_as1",
            RuntimeFunction::PromiseValueGc => "__mlisp_promise_value_gc_as1",
            RuntimeFunction::PromiseResolveGc => "__mlisp_promise_resolve_gc_as1",
            RuntimeFunction::AllocClosureGc => "__mlisp_alloc_closure_gc_as1",
            RuntimeFunction::ClosureCodePtrGc => "__mlisp_closure_code_ptr_gc_as1",
            RuntimeFunction::ClosureEnvRefGc => "__mlisp_closure_env_ref_gc_as1",
            RuntimeFunction::ClosureEnvSetGc => "__mlisp_closure_env_set_gc_as1",
            RuntimeFunction::StringLengthGc => "__mlisp_string_length_gc_as1",
            RuntimeFunction::StringRefGc => "__mlisp_string_ref_gc_as1",
            RuntimeFunction::AllocVectorGc => "__mlisp_alloc_vector_gc_as1",
            RuntimeFunction::VectorLengthGc => "__mlisp_vector_length_gc_as1",
            RuntimeFunction::VectorRefGc => "__mlisp_vector_ref_gc_as1",
            RuntimeFunction::VectorSetGc => "__mlisp_vector_set_gc_as1",
            RuntimeFunction::SafepointPollWrapper => "gc.safepoint_poll",
            RuntimeFunction::GcSafepointPoll => "gc_safepoint_poll",
            RuntimeFunction::RtMmtkInit => "rt_mmtk_init",
            RuntimeFunction::RtBindThread => "rt_bind_thread",
            RuntimeFunction::RtUnbindThread => "rt_unbind_thread",
            RuntimeFunction::RtAllocSlow => "rt_alloc_slow",
            RuntimeFunction::RtGcPoll => "rt_gc_poll",
            RuntimeFunction::RtExceptionPending => "rt_exception_pending",
            RuntimeFunction::RtRaise => "rt_raise",
            RuntimeFunction::RtTakePendingException => "rt_take_pending_exception",
            RuntimeFunction::RtObjectWritePost => "rt_object_write_post",
            RuntimeFunction::RtRootSlotPush => "rt_root_slot_push",
            RuntimeFunction::RtRootSlotPop => "rt_root_slot_pop",
            RuntimeFunction::RtTailPending => "rt_tail_pending",
            RuntimeFunction::RtTailCallMarker => "rt_tail_call_marker",
            RuntimeFunction::RtTailInvoke => "rt_tail_invoke",
            RuntimeFunction::RtTrampolineApply => "rt_trampoline_apply",
            RuntimeFunction::MakeFixnum => "mlisp_make_fixnum",
            RuntimeFunction::MakeBool => "mlisp_make_bool",
            RuntimeFunction::EmptyList => "mlisp_empty_list",
            RuntimeFunction::Unspecified => "mlisp_unspecified",
            RuntimeFunction::GcStress => "mlisp_gc_stress",
            RuntimeFunction::Display => "mlisp_display",
            RuntimeFunction::Write => "mlisp_write",
            RuntimeFunction::Newline => "mlisp_newline",
            RuntimeFunction::AllocPair => "mlisp_alloc_pair",
            RuntimeFunction::PairCar => "mlisp_pair_car",
            RuntimeFunction::PairCdr => "mlisp_pair_cdr",
            RuntimeFunction::PairSetCar => "mlisp_pair_set_car",
            RuntimeFunction::PairSetCdr => "mlisp_pair_set_cdr",
            RuntimeFunction::IsPair => "mlisp_is_pair",
            RuntimeFunction::IsList => "mlisp_is_list",
            RuntimeFunction::ListLength => "mlisp_list_length",
            RuntimeFunction::ListTail => "mlisp_list_tail",
            RuntimeFunction::ListRef => "mlisp_list_ref",
            RuntimeFunction::Append => "mlisp_append",
            RuntimeFunction::Memq => "mlisp_memq",
            RuntimeFunction::Memv => "mlisp_memv",
            RuntimeFunction::Member => "mlisp_member",
            RuntimeFunction::Assq => "mlisp_assq",
            RuntimeFunction::Assv => "mlisp_assv",
            RuntimeFunction::Assoc => "mlisp_assoc",
            RuntimeFunction::ListCopy => "mlisp_list_copy",
            RuntimeFunction::Reverse => "mlisp_reverse",
            RuntimeFunction::AllocBox => "mlisp_alloc_box",
            RuntimeFunction::AllocPromise => "mlisp_alloc_promise",
            RuntimeFunction::PromiseForced => "mlisp_promise_forced",
            RuntimeFunction::PromiseValue => "mlisp_promise_value",
            RuntimeFunction::PromiseResolve => "mlisp_promise_resolve",
            RuntimeFunction::AllocClosure => "mlisp_alloc_closure",
            RuntimeFunction::AllocString => "mlisp_alloc_string",
            RuntimeFunction::AllocSymbol => "mlisp_alloc_symbol",
            RuntimeFunction::IsSymbol => "mlisp_is_symbol",
            RuntimeFunction::AllocValues => "mlisp_alloc_values",
            RuntimeFunction::IsValues => "mlisp_is_values",
            RuntimeFunction::ValuesLength => "mlisp_values_length",
            RuntimeFunction::ValuesRef => "mlisp_values_ref",
            RuntimeFunction::ValuesTailList => "mlisp_values_tail_list",
            RuntimeFunction::Equal => "mlisp_equal",
            RuntimeFunction::ApplyBuiltin => "mlisp_apply_builtin",
            RuntimeFunction::SymbolToString => "mlisp_symbol_to_string",
            RuntimeFunction::StringToSymbol => "mlisp_string_to_symbol",
            RuntimeFunction::IsString => "mlisp_is_string",
            RuntimeFunction::StringLength => "mlisp_string_length",
            RuntimeFunction::StringRef => "mlisp_string_ref",
            RuntimeFunction::AllocVector => "mlisp_alloc_vector",
            RuntimeFunction::IsVector => "mlisp_is_vector",
            RuntimeFunction::VectorLength => "mlisp_vector_length",
            RuntimeFunction::VectorRef => "mlisp_vector_ref",
            RuntimeFunction::VectorSet => "mlisp_vector_set",
        }
    }

    /// The name of the entry behind the wrapper.
    pub fn raw_symbol(self) -> (result: &'static str)
        ensures
            result@ == raw_symbol_text(self),
    {
        match self {
            RuntimeFunction::AllocPairGc => "mlisp_alloc_pair_gc",
            RuntimeFunction::PairCarGc => "mlisp_pair_car_gc",
            RuntimeFunction::PairCdrGc => "mlisp_pair_cdr_gc",
            RuntimeFunction::PairSetCarGc => "mlisp_pair_set_car_gc",
            RuntimeFunction::PairSetCdrGc => "mlisp_pair_set_cdr_gc",
            RuntimeFunction::AllocStringGc => "mlisp_alloc_string_gc",
            RuntimeFunction::AllocSymbolGc => "mlisp_alloc_symbol_gc",
            RuntimeFunction::AllocBoxGc => "mlisp_alloc_box_gc",
            RuntimeFunction::AllocPromiseGc => "mlisp_alloc_promise_gc",
            RuntimeFunction::BoxSetGc => "mlisp_box_set_gc",
            RuntimeFunction::PromiseForcedGc => "mlisp_promise_forced_gc",
            RuntimeFunction::PromiseValueGc => "mlisp_promise_value_gc",
            RuntimeFunction::PromiseResolveGc => "mlisp_promise_resolve_gc",
            RuntimeFunction::AllocClosureGc => "mlisp_alloc_closure_gc",
            RuntimeFunction::ClosureCodePtrGc => "mlisp_closure_code_ptr_gc",
            RuntimeFunction::ClosureEnvRefGc => "mlisp_closure_env_ref_gc",
            RuntimeFunction::ClosureEnvSetGc => "mlisp_closure_env_set_gc",
            RuntimeFunction::StringLengthGc => "mlisp_string_length_gc",
            RuntimeFunction::StringRefGc => "mlisp_string_ref_gc",
            RuntimeFunction::AllocVectorGc => "mlisp_alloc_vector_gc",
            RuntimeFunction::VectorLengthGc => "mlisp_vector_length_gc",
            RuntimeFunction::VectorRefGc => "mlisp_vector_ref_gc",
            RuntimeFunction::VectorSetGc => "mlisp_vector_set_gc",
            _ => self.symbol(),
        }
    }

    /// The shape under which compiled code knows the entry.
    pub fn shape(self) -> (result: EntryShape)
        ensures
            result == entry_shape(self),
    {
        match self {
            RuntimeFunction::AllocPairGc => EntryShape::GcFromWordWord,
            RuntimeFunction::PairCarGc => EntryShape::WordFromGc,
            RuntimeFunction::PairCdrGc => EntryShape::WordFromGc,
            RuntimeFunction::PairSetCarGc => EntryShape::WordFromGcWord,
            RuntimeFunction::PairSetCdrGc => EntryShape::WordFromGcWord,
            RuntimeFunction::AllocStringGc => EntryShape::GcFromRawWord,
            RuntimeFunction::AllocSymbolGc => EntryShape::GcFromRawWord,
            RuntimeFunction::AllocBoxGc => EntryShape::GcFromWord,
            RuntimeFunction::AllocPromiseGc => EntryShape::GcFromWord,
            RuntimeFunction::BoxSetGc => EntryShape::WordFromGcWord,
            RuntimeFunction::PromiseForcedGc => EntryShape::BitFromGc,
            RuntimeFunction::PromiseValueGc => EntryShape::WordFromGc,
            RuntimeFunction::PromiseResolveGc => EntryShape::WordFromGcWord,
            RuntimeFunction::AllocClosureGc => EntryShape::GcFromWordRawWord,
            RuntimeFunction::ClosureCodePtrGc => EntryShape::WordFromGc,
            RuntimeFunction::ClosureEnvRefGc => EntryShape::WordFromGcWord,
            RuntimeFunction::ClosureEnvSetGc => EntryShape::WordFromGcWordWord,
            RuntimeFunction::StringLengthGc => EntryShape::WordFromGc,
            RuntimeFunction::StringRefGc => EntryShape::WordFromGcWord,
            RuntimeFunction::AllocVectorGc => EntryShape::GcFromRawWord,
            RuntimeFunction::VectorLengthGc => EntryShape::WordFromGc,
            RuntimeFunction::VectorRefGc => EntryShape::WordFromGcWord,
            RuntimeFunction::VectorSetGc => EntryShape::WordFromGcWordWord,
            RuntimeFunction::SafepointPollWrapper => EntryShape::NothingFromNothing,
            RuntimeFunction::GcSafepointPoll => EntryShape::NothingFromNothing,
            RuntimeFunction::RtMmtkInit => EntryShape::BitFromWordWord,
            RuntimeFunction::RtBindThread => EntryShape::RawFromNothing,
            RuntimeFunction::RtUnbindThread => EntryShape::NothingFromRaw,
            RuntimeFunction::RtAllocSlow => EntryShape::RawFromWordWordShort,
            RuntimeFunction::RtGcPoll => EntryShape::NothingFromNothing,
            RuntimeFunction::RtExceptionPending => EntryShape::BitFromNothing,
            RuntimeFunction::RtRaise => EntryShape::WordFromWord,
            RuntimeFunction::RtTakePendingException => EntryShape::WordFromNothing,
            RuntimeFunction::RtObjectWritePost => EntryShape::NothingFromRawRawWord,
            RuntimeFunction::RtRootSlotPush => EntryShape::NothingFromRaw,
            RuntimeFunction::RtRootSlotPop => EntryShape::NothingFromNothing,
            RuntimeFunction::RtTailPending => EntryShape::BitFromNothing,
            RuntimeFunction::RtTailCallMarker => EntryShape::WordFromNothing,
            RuntimeFunction::RtTailInvoke => EntryShape::NothingFromWordWordWord,
            RuntimeFunction::RtTrampolineApply => EntryShape::WordFromWordWordWord,
            RuntimeFunction::MakeFixnum => EntryShape::WordFromWord,
            RuntimeFunction::MakeBool => EntryShape::WordFromBit,
            RuntimeFunction::EmptyList => EntryShape::WordFromNothing,
            RuntimeFunction::Unspecified => EntryShape::WordFromNothing,
            RuntimeFunction::GcStress => EntryShape::WordFromWord,
            RuntimeFunction::Display => EntryShape::WordFromWord,
            RuntimeFunction::Write => EntryShape::WordFromWord,
            RuntimeFunction::Newline => EntryShape::WordFromNothing,
            RuntimeFunction::AllocPair => EntryShape::WordFromWordWord,
            RuntimeFunction::PairCar => EntryShape::WordFromWord,
            RuntimeFunction::PairCdr => EntryShape::WordFromWord,
            RuntimeFunction::PairSetCar => EntryShape::WordFromWordWord,
            RuntimeFunction::PairSetCdr => EntryShape::WordFromWordWord,
            RuntimeFunction::IsPair => EntryShape::BitFromWord,
            RuntimeFunction::IsList => EntryShape::BitFromWord,
            RuntimeFunction::ListLength => EntryShape::WordFromWord,
            RuntimeFunction::ListTail => EntryShape::WordFromWordWord,
            RuntimeFunction::ListRef => EntryShape::WordFromWordWord,
            RuntimeFunction::Append => EntryShape::WordFromWordWord,
            RuntimeFunction::Memq => EntryShape::WordFromWordWord,
            RuntimeFunction::Memv => EntryShape::WordFromWordWord,
            RuntimeFunction::Member => EntryShape::WordFromWordWord,
            RuntimeFunction::Assq => EntryShape::WordFromWordWord,
            RuntimeFunction::Assv => EntryShape::WordFromWordWord,
            RuntimeFunction::Assoc => EntryShape::WordFromWordWord,
            RuntimeFunction::ListCopy => EntryShape::WordFromWord,
            RuntimeFunction::Reverse => EntryShape::WordFromWord,
            RuntimeFunction::AllocBox => EntryShape::WordFromWord,
            RuntimeFunction::AllocPromise => EntryShape::WordFromWord,
            RuntimeFunction::PromiseForced => EntryShape::BitFromWord,
            RuntimeFunction::PromiseValue => EntryShape::WordFromWord,
            RuntimeFunction::PromiseResolve => EntryShape::WordFromWordWord,
            RuntimeFunction::AllocClosure => EntryShape::WordFromWordRawWord,
            RuntimeFunction::AllocString => EntryShape::WordFromRawWord,
            RuntimeFunction::AllocSymbol => EntryShape::WordFromRawWord,
            RuntimeFunction::IsSymbol => EntryShape::BitFromWord,
            RuntimeFunction::AllocValues => EntryShape::WordFromRawWord,
            RuntimeFunction::IsValues => EntryShape::BitFromWord,
            RuntimeFunction::ValuesLength => EntryShape::WordFromWord,
            RuntimeFunction::ValuesRef => EntryShape::WordFromWordWord,
            RuntimeFunction::ValuesTailList => EntryShape::WordFromWordWord,
            RuntimeFunction::Equal => EntryShape::BitFromWordWord,
            RuntimeFunction::ApplyBuiltin => EntryShape::WordFromWordWord,
            RuntimeFunction::SymbolToString => EntryShape::WordFromWord,
            RuntimeFunction::StringToSymbol => EntryShape::WordFromWord,
            RuntimeFunction::IsString => EntryShape::BitFromWord,
            RuntimeFunction::StringLength => EntryShape::WordFromWord,
            RuntimeFunction::StringRef => EntryShape::WordFromWordWord,
            RuntimeFunction::AllocVector => EntryShape::WordFromRawWord,
            RuntimeFunction::IsVector => EntryShape::BitFromWord,
            RuntimeFunction::VectorLength => EntryShape::WordFromWord,
            RuntimeFunction::VectorRef => EntryShape::WordFromWordWord,
            RuntimeFunction::VectorSet => EntryShape::WordFromWordWordWord,
        }
    }

    /// The shape of the entry behind the wrapper.
    pub fn raw_shape_of(self) -> (result: EntryShape)
        ensures
            result == raw_shape(self),
    {
        match self {
            RuntimeFunction::AllocPairGc => EntryShape::RawFromWordWord,
            RuntimeFunction::PairCarGc => EntryShape::WordFromRaw,
            RuntimeFunction::PairCdrGc => EntryShape::WordFromRaw,
            RuntimeFunction::PairSetCarGc => EntryShape::WordFromRawWord,
            RuntimeFunction::PairSetCdrGc => EntryShape::WordFromRawWord,
            RuntimeFunction::AllocStringGc => EntryShape::RawFromRawWord,
            RuntimeFunction::AllocSymbolGc => EntryShape::RawFromRawWord,
            RuntimeFunction::AllocBoxGc => EntryShape::RawFromWord,
            RuntimeFunction::AllocPromiseGc => EntryShape::RawFromWord,
            RuntimeFunction::BoxSetGc => EntryShape::WordFromRawWord,
            RuntimeFunction::PromiseForcedGc => EntryShape::BitFromRaw,
            RuntimeFunction::PromiseValueGc => EntryShape::WordFromRaw,
            RuntimeFunction::PromiseResolveGc => EntryShape::WordFromRawWord,
            RuntimeFunction::AllocClosureGc => EntryShape::RawFromWordRawWord,
            RuntimeFunction::ClosureCodePtrGc => EntryShape::WordFromRaw,
            RuntimeFunction::ClosureEnvRefGc => EntryShape::WordFromRawWord,
            RuntimeFunction::ClosureEnvSetGc => EntryShape::WordFromRawWordWord,
            RuntimeFunction::StringLengthGc => EntryShape::WordFromRaw,
            RuntimeFunction::StringRefGc => EntryShape::WordFromRawWord,
            RuntimeFunction::AllocVectorGc => EntryShape::RawFromRawWord,
            RuntimeFunction::VectorLengthGc => EntryShape::WordFromRaw,
            RuntimeFunction::VectorRefGc => EntryShape::WordFromRawWord,
            RuntimeFunction::VectorSetGc => EntryShape::WordFromRawWordWord,
            _ => self.shape(),
        }
    }

    /// The type under which compiled code knows the entry.
    pub fn ty(self) -> (result: FunctionType)
        ensures
            result@ == entry_type(self),
    {
        type_of_shape(self.shape())
    }

    /// The type of the entry behind the wrapper.
    pub fn raw_ty(self) -> (result: FunctionType)
        ensures
            result@ == raw_type(self),
    {
        type_of_shape(self.raw_shape_of())
    }

    /// What the wrapper around the entry converts.
    pub fn conversion(self) -> (result: Option<Conversion>)
        ensures
            result == conversion_of(self),
    {
        match self {
            RuntimeFunction::AllocPairGc => Some(Conversion::OfResult),
            RuntimeFunction::PairCarGc => Some(Conversion::OfArgument),
            RuntimeFunction::PairCdrGc => Some(Conversion::OfArgument),
            RuntimeFunction::PairSetCarGc => Some(Conversion::OfArgument),
            RuntimeFunction::PairSetCdrGc => Some(Conversion::OfArgument),
            RuntimeFunction::AllocStringGc => Some(Conversion::OfResult),
            RuntimeFunction::AllocSymbolGc => Some(Conversion::OfResult),
            RuntimeFunction::AllocBoxGc => Some(Conversion::OfResult),
            RuntimeFunction::AllocPromiseGc => Some(Conversion::OfResult),
            RuntimeFunction::BoxSetGc => Some(Conversion::OfArgument),
            RuntimeFunction::PromiseForcedGc => Some(Conversion::OfArgument),
            RuntimeFunction::PromiseValueGc => Some(Conversion::OfArgument),
            RuntimeFunction::PromiseResolveGc => Some(Conversion::OfArgument),
            RuntimeFunction::AllocClosureGc => Some(Conversion::OfResult),
            RuntimeFunction::ClosureCodePtrGc => Some(Conversion::OfArgument),
            RuntimeFunction::ClosureEnvRefGc => Some(Conversion::OfArgument),
            RuntimeFunction::ClosureEnvSetGc => Some(Conversion::OfArgument),
            RuntimeFunction::StringLengthGc => Some(Conversion::OfArgument),
            RuntimeFunction::StringRefGc => Some(Conversion::OfArgument),
            RuntimeFunction::AllocVectorGc => Some(Conversion::OfResult),
            RuntimeFunction::VectorLengthGc => Some(Conversion::OfArgument),
            RuntimeFunction::VectorRefGc => Some(Conversion::OfArgument),
            RuntimeFunction::VectorSetGc => Some(Conversion::OfArgument),
            _ => None,
        }
    }
}

/// The entries that compiled code reaches through a wrapper.
pub fn wrapped_entries() -> (functions: Vec<RuntimeFunction>)
    ensures
        functions@ == wrapped_functions(),
{
    let functions: Vec<RuntimeFunction> = vec![
        RuntimeFunction::AllocPairGc,
        RuntimeFunction::PairCarGc,
        RuntimeFunction::PairCdrGc,
        RuntimeFunction::PairSetCarGc,
        RuntimeFunction::PairSetCdrGc,
        RuntimeFunction::AllocStringGc,
        RuntimeFunction::AllocSymbolGc,
        RuntimeFunction::AllocBoxGc,
        RuntimeFunction::AllocPromiseGc,
        RuntimeFunction::BoxSetGc,
        RuntimeFunction::PromiseForcedGc,
        RuntimeFunction::PromiseValueGc,
        RuntimeFunction::PromiseResolveGc,
        RuntimeFunction::AllocClosureGc,
        RuntimeFunction::ClosureCodePtrGc,
        RuntimeFunction::ClosureEnvRefGc,
        RuntimeFunction::ClosureEnvSetGc,
        RuntimeFunction::StringLengthGc,
        RuntimeFunction::StringRefGc,
        RuntimeFunction::AllocVectorGc,
        RuntimeFunction::VectorLengthGc,
        RuntimeFunction::VectorRefGc,
        RuntimeFunction::VectorSetGc,
    ];
    assert(functions@ =~= wrapped_functions());
    functions
}

/// The entries that compiled code calls as they are.
pub fn plain_entries() -> (functions: Vec<RuntimeFunction>)
    ensures
        functions@ == plain_functions(),
{
    let functions: Vec<RuntimeFunction> = vec![
        RuntimeFunction::RtMmtkInit,
        RuntimeFunction::RtBindThread,
        RuntimeFunction::RtUnbindThread,
        RuntimeFunction::RtAllocSlow,
        RuntimeFunction::RtGcPoll,
        RuntimeFunction::RtExceptionPending,
        RuntimeFunction::RtRaise,
        RuntimeFunction::RtTakePendingException,
        RuntimeFunction::RtObjectWritePost,
        RuntimeFunction::RtRootSlotPush,
        RuntimeFunction::RtRootSlotPop,
        RuntimeFunction::RtTailPending,
        RuntimeFunction::RtTailCallMarker,
        RuntimeFunction::RtTailInvoke,
        RuntimeFunction::RtTrampolineApply,
        RuntimeFunction::MakeFixnum,
        RuntimeFunction::MakeBool,
        RuntimeFunction::EmptyList,
        RuntimeFunction::Unspecified,
        RuntimeFunction::GcStress,
        RuntimeFunction::Display,
        RuntimeFunction::Write,
        RuntimeFunction::Newline,
        RuntimeFunction::AllocPair,
        RuntimeFunction::PairCar,
        RuntimeFunction::PairCdr,
        RuntimeFunction::PairSetCar,
        RuntimeFunction::PairSetCdr,
        RuntimeFunction::IsPair,
        RuntimeFunction::IsList,
        RuntimeFunction::ListLength,
        RuntimeFunction::ListTail,
        RuntimeFunction::ListRef,
        RuntimeFunction::Append,
        RuntimeFunction::Memq,
        RuntimeFunction::Memv,
        RuntimeFunction::Member,
        RuntimeFunction::Assq,
        RuntimeFunction::Assv,
        RuntimeFunction::Assoc,
        RuntimeFunction::ListCopy,
        RuntimeFunction::Reverse,
        RuntimeFunction::AllocBox,
        RuntimeFunction::AllocPromise,
        RuntimeFunction::PromiseForced,
        RuntimeFunction::PromiseValue,
        RuntimeFunction::PromiseResolve,
        RuntimeFunction::AllocClosure,
        RuntimeFunction::AllocString,
        RuntimeFunction::AllocSymbol,
        RuntimeFunction::IsSymbol,
        RuntimeFunction::AllocValues,
        RuntimeFunction::IsValues,
        RuntimeFunction::ValuesLength,
        RuntimeFunction::ValuesRef,
        RuntimeFunction::ValuesTailList,
        RuntimeFunction::Equal,
        RuntimeFunction::ApplyBuiltin,
        RuntimeFunction::SymbolToString,
        RuntimeFunction::StringToSymbol,
        RuntimeFunction::IsString,
        RuntimeFunction::StringLength,
        RuntimeFunction::StringRef,
        RuntimeFunction::AllocVector,
        RuntimeFunction::IsVector,
        RuntimeFunction::VectorLength,
        RuntimeFunction::VectorRef,
        RuntimeFunction::VectorSet,
    ];
    assert(functions@ =~= plain_functions());
    functions
}

/// A wrapper converts exactly what its type and that of the entry behind it differ in.
pub proof fn lemma_wrapper_types(function: RuntimeFunction)
    requires
        wrapped_functions().contains(function),
    ensures
        match conversion_of(function) {
            Some(Conversion::OfResult) => raw_type(function).ret == Some(IrType::Raw)
                && entry_type(function).ret == Some(IrType::Gc)
                && entry_type(function).params == raw_type(function).params,
            Some(Conversion::OfArgument) => raw_type(function).ret == entry_type(function).ret
                && raw_type(function).params.len() > 0
                && raw_type(function).params[0] == IrType::Raw
                && entry_type(function).params == raw_type(function).params.update(0, IrType::Gc),
            None => false,
        },
{
    reveal(type_of0);
    reveal(type_of1);
    reveal(type_of2);
    reveal(type_of3);
    assert(entry_type(function).params =~= raw_type(function).params.update(0, IrType::Gc)
        || conversion_of(function) != Some(Conversion::OfArgument));
}

} // verus!
