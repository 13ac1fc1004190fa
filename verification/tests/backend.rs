use mlisp::backend::abi::RuntimeFunction;
use mlisp::backend::builtins::{builtin_procedure_id, builtin_procedure_names, is_builtin, sanitize_name};
use mlisp::backend::ir::{FunctionRef, IrType, Op};
use mlisp::backend::pipeline::{
    input_file_name, output_file_name, passes_argument, rewritten_module, CompiledModule, STATEPOINT_PASSES,
};
use mlisp::backend::statepoint::{
    address_space, compile_pre_statepoint_example, heap_address_space, statepoint_ir_example, GC_HEAP_ADDRSPACE,
    GC_STRATEGY_NAME,
};
use mlisp::error::CompileError;
use mlisp::unit::{compile_gc_example, compile_gc_pipeline_example};

#[test]
fn declares_runtime_symbols() {
    assert_eq!(RuntimeFunction::RtMmtkInit.symbol(), "rt_mmtk_init");
    assert_eq!(RuntimeFunction::RtBindThread.symbol(), "rt_bind_thread");
    assert_eq!(RuntimeFunction::RtUnbindThread.symbol(), "rt_unbind_thread");
    assert_eq!(RuntimeFunction::RtAllocSlow.symbol(), "rt_alloc_slow");
    assert_eq!(RuntimeFunction::RtGcPoll.symbol(), "rt_gc_poll");
    assert_eq!(RuntimeFunction::RtExceptionPending.symbol(), "rt_exception_pending");
    assert_eq!(RuntimeFunction::RtRaise.symbol(), "rt_raise");
    assert_eq!(RuntimeFunction::RtTakePendingException.symbol(), "rt_take_pending_exception");
    assert_eq!(RuntimeFunction::RtObjectWritePost.symbol(), "rt_object_write_post");
    assert_eq!(RuntimeFunction::RtRootSlotPush.symbol(), "rt_root_slot_push");
    assert_eq!(RuntimeFunction::RtRootSlotPop.symbol(), "rt_root_slot_pop");
    assert_eq!(RuntimeFunction::GcSafepointPoll.symbol(), "gc_safepoint_poll");
    assert_eq!(RuntimeFunction::MakeFixnum.symbol(), "mlisp_make_fixnum");
    assert_eq!(RuntimeFunction::GcStress.symbol(), "mlisp_gc_stress");
    assert_eq!(RuntimeFunction::Display.symbol(), "mlisp_display");
    assert_eq!(RuntimeFunction::Write.symbol(), "mlisp_write");
    assert_eq!(RuntimeFunction::Newline.symbol(), "mlisp_newline");
    assert_eq!(RuntimeFunction::AllocPair.symbol(), "mlisp_alloc_pair");
    assert_eq!(RuntimeFunction::AllocPairGc.symbol(), "__mlisp_alloc_pair_gc_as1");
    assert_eq!(RuntimeFunction::PairCar.symbol(), "mlisp_pair_car");
    assert_eq!(RuntimeFunction::PairCdr.symbol(), "mlisp_pair_cdr");
    assert_eq!(RuntimeFunction::PairCarGc.symbol(), "__mlisp_pair_car_gc_as1");
    assert_eq!(RuntimeFunction::PairCdrGc.symbol(), "__mlisp_pair_cdr_gc_as1");
    assert_eq!(RuntimeFunction::PairSetCar.symbol(), "mlisp_pair_set_car");
    assert_eq!(RuntimeFunction::PairSetCdr.symbol(), "mlisp_pair_set_cdr");
    assert_eq!(RuntimeFunction::PairSetCarGc.symbol(), "__mlisp_pair_set_car_gc_as1");
    assert_eq!(RuntimeFunction::PairSetCdrGc.symbol(), "__mlisp_pair_set_cdr_gc_as1");
    assert_eq!(RuntimeFunction::IsPair.symbol(), "mlisp_is_pair");
    assert_eq!(RuntimeFunction::IsList.symbol(), "mlisp_is_list");
    assert_eq!(RuntimeFunction::ListLength.symbol(), "mlisp_list_length");
    assert_eq!(RuntimeFunction::ListTail.symbol(), "mlisp_list_tail");
    assert_eq!(RuntimeFunction::ListRef.symbol(), "mlisp_list_ref");
    assert_eq!(RuntimeFunction::Append.symbol(), "mlisp_append");
    assert_eq!(RuntimeFunction::Memq.symbol(), "mlisp_memq");
    assert_eq!(RuntimeFunction::Memv.symbol(), "mlisp_memv");
    assert_eq!(RuntimeFunction::Member.symbol(), "mlisp_member");
    assert_eq!(RuntimeFunction::Assq.symbol(), "mlisp_assq");
    assert_eq!(RuntimeFunction::Assv.symbol(), "mlisp_assv");
    assert_eq!(RuntimeFunction::Assoc.symbol(), "mlisp_assoc");
    assert_eq!(RuntimeFunction::ListCopy.symbol(), "mlisp_list_copy");
    assert_eq!(RuntimeFunction::Reverse.symbol(), "mlisp_reverse");
    assert_eq!(RuntimeFunction::AllocBoxGc.symbol(), "__mlisp_alloc_box_gc_as1");
    assert_eq!(RuntimeFunction::BoxSetGc.symbol(), "__mlisp_box_set_gc_as1");
    assert_eq!(RuntimeFunction::AllocClosure.symbol(), "mlisp_alloc_closure");
    assert_eq!(RuntimeFunction::AllocClosureGc.symbol(), "__mlisp_alloc_closure_gc_as1");
    assert_eq!(RuntimeFunction::ClosureCodePtrGc.symbol(), "__mlisp_closure_code_ptr_gc_as1");
    assert_eq!(RuntimeFunction::ClosureEnvRefGc.symbol(), "__mlisp_closure_env_ref_gc_as1");
    assert_eq!(RuntimeFunction::ClosureEnvSetGc.symbol(), "__mlisp_closure_env_set_gc_as1");
    assert_eq!(RuntimeFunction::AllocString.symbol(), "mlisp_alloc_string");
    assert_eq!(RuntimeFunction::AllocStringGc.symbol(), "__mlisp_alloc_string_gc_as1");
    assert_eq!(RuntimeFunction::AllocSymbol.symbol(), "mlisp_alloc_symbol");
    assert_eq!(RuntimeFunction::AllocSymbolGc.symbol(), "__mlisp_alloc_symbol_gc_as1");
    assert_eq!(RuntimeFunction::IsSymbol.symbol(), "mlisp_is_symbol");
    assert_eq!(RuntimeFunction::AllocValues.symbol(), "mlisp_alloc_values");
    assert_eq!(RuntimeFunction::IsValues.symbol(), "mlisp_is_values");
    assert_eq!(RuntimeFunction::ValuesLength.symbol(), "mlisp_values_length");
    assert_eq!(RuntimeFunction::ValuesRef.symbol(), "mlisp_values_ref");
    assert_eq!(RuntimeFunction::ValuesTailList.symbol(), "mlisp_values_tail_list");
    assert_eq!(RuntimeFunction::Equal.symbol(), "mlisp_equal");
    assert_eq!(RuntimeFunction::ApplyBuiltin.symbol(), "mlisp_apply_builtin");
    assert_eq!(RuntimeFunction::SymbolToString.symbol(), "mlisp_symbol_to_string");
    assert_eq!(RuntimeFunction::StringToSymbol.symbol(), "mlisp_string_to_symbol");
    assert_eq!(RuntimeFunction::IsString.symbol(), "mlisp_is_string");
    assert_eq!(RuntimeFunction::StringLength.symbol(), "mlisp_string_length");
    assert_eq!(RuntimeFunction::StringRef.symbol(), "mlisp_string_ref");
    assert_eq!(RuntimeFunction::StringLengthGc.symbol(), "__mlisp_string_length_gc_as1");
    assert_eq!(RuntimeFunction::StringRefGc.symbol(), "__mlisp_string_ref_gc_as1");
    assert_eq!(RuntimeFunction::AllocVector.symbol(), "mlisp_alloc_vector");
    assert_eq!(RuntimeFunction::AllocVectorGc.symbol(), "__mlisp_alloc_vector_gc_as1");
    assert_eq!(RuntimeFunction::IsVector.symbol(), "mlisp_is_vector");
    assert_eq!(RuntimeFunction::VectorLength.symbol(), "mlisp_vector_length");
    assert_eq!(RuntimeFunction::VectorRef.symbol(), "mlisp_vector_ref");
    assert_eq!(RuntimeFunction::VectorSet.symbol(), "mlisp_vector_set");
    assert_eq!(RuntimeFunction::VectorLengthGc.symbol(), "__mlisp_vector_length_gc_as1");
    assert_eq!(RuntimeFunction::VectorRefGc.symbol(), "__mlisp_vector_ref_gc_as1");
    assert_eq!(RuntimeFunction::VectorSetGc.symbol(), "__mlisp_vector_set_gc_as1");
}

#[test]
fn uses_addrspace_one_for_gc_heap() {
    assert_eq!(address_space(IrType::Gc), Some(GC_HEAP_ADDRSPACE));
    assert_eq!(heap_address_space(), 1);
    assert_eq!(address_space(IrType::Raw), Some(0));
    assert_eq!(address_space(IrType::Word), None);
}

#[test]
fn attaches_gc_strategy_name() {
    assert_eq!(GC_STRATEGY_NAME, "coreclr");
    let code = compile_pre_statepoint_example("gc_strategy");
    let marked: Vec<FunctionRef> = code
        .ops
        .iter()
        .filter_map(|op| match op {
            Op::AttachGc { function } => Some(*function),
            _ => None,
        })
        .collect();
    assert_eq!(marked.len(), 1);
    let FunctionRef::Defined(place) = marked[0] else {
        panic!("expected a function of the module");
    };
    assert!(matches!(&code.ops[place], Op::AddFunction { name, .. } if name == "test"));
}

#[test]
fn compiles_pre_statepoint_example_module() {
    let code = compile_pre_statepoint_example("gc_example");
    assert_eq!(code.module_name, "gc_example");
    let declares = |wanted: RuntimeFunction| {
        code.ops.iter().any(|op| matches!(op, Op::DeclareRuntime { function } if *function == wanted))
    };
    assert!(declares(RuntimeFunction::SafepointPollWrapper));
    assert!(declares(RuntimeFunction::GcSafepointPoll));
    assert!(declares(RuntimeFunction::RtAllocSlow));
    assert!(declares(RuntimeFunction::RtGcPoll));
    assert_eq!(RuntimeFunction::SafepointPollWrapper.symbol(), "gc.safepoint_poll");
    let alloc = RuntimeFunction::RtAllocSlow.ty();
    assert_eq!(alloc.ret, Some(IrType::Raw));
    assert_eq!(alloc.params, [IrType::Word, IrType::Word, IrType::Short]);
    assert_eq!(RuntimeFunction::RtGcPoll.ty().ret, None);
    let test = code.ops.iter().find_map(|op| match op {
        Op::AddFunction { name, ty } if name == "test" => Some(ty),
        _ => None,
    });
    let test = test.expect("expected a function called test");
    assert_eq!(test.ret, Some(IrType::Gc));
    assert_eq!(test.params, [IrType::Gc]);
    assert!(code.ops.iter().any(|op| matches!(op, Op::AttachGc { .. })));
    let poll_has_body = code.ops.iter().any(|op| {
        matches!(
            op,
            Op::AppendBlock { function: FunctionRef::Runtime(RuntimeFunction::SafepointPollWrapper) }
        )
    });
    assert!(poll_has_body);
}

#[test]
fn names_the_statepoint_passes() {
    assert_eq!(
        STATEPOINT_PASSES,
        "function(place-safepoints),rewrite-statepoints-for-gc"
    );
    assert_eq!(passes_argument(), format!("-passes={STATEPOINT_PASSES}"));
    assert_eq!(input_file_name("m"), "m.pre.ll");
    assert_eq!(output_file_name("m"), "m.post.ll");
    assert!(statepoint_ir_example().contains("@llvm.experimental.gc.relocate.p1"));
}

#[test]
fn reports_what_the_passes_said() {
    let module = CompiledModule { module_name: "m".to_string(), llvm_ir: "before".to_string() };
    let rewritten = rewritten_module(&module, true, "", "after".to_string()).unwrap();
    assert_eq!(rewritten.module_name, "m");
    assert_eq!(rewritten.llvm_ir, "after");
    match rewritten_module(&module, false, "no such pass", "after".to_string()) {
        Err(CompileError::Codegen(message)) => assert_eq!(message, "statepoint pipeline failed: no such pass"),
        _ => panic!("expected the passes to fail"),
    }
}

#[test]
fn built_in_procedures_have_numbers_in_order() {
    let names = builtin_procedure_names();
    for (index, name) in names.iter().enumerate() {
        assert_eq!(builtin_procedure_id(name) as usize, index);
        assert!(is_builtin(name));
    }
    assert!(!is_builtin("no-such-procedure"));
}

#[test]
fn names_become_plain() {
    assert_eq!(sanitize_name("list->vector!"), "list__vector_");
    assert_eq!(sanitize_name("abc_1"), "abc_1");
}

#[test]
fn examples_have_names() {
    assert_eq!(compile_gc_example().module_name, "gc_example");
    assert_eq!(compile_gc_pipeline_example().module_name, "gc_pipeline_example");
    assert_eq!(compile_gc_example().ops.len(), compile_gc_pipeline_example().ops.len());
}
