use mlisp::backend::pipeline::CompiledModule;
use mlisp::driver::{
    normalize_runtime_stderr, parse_number, runtime_library, runtime_native_libs, sanitize_module_name,
    synthesize_native_main, CliCommand, CliOptions,
};
use mlisp::error::CompileError;

fn parse(args: &[&str]) -> Result<CliOptions, CompileError> {
    CliOptions::parse(&args.iter().map(|arg| arg.to_string()).collect())
}

fn usage(args: &[&str]) -> String {
    match parse(args) {
        Err(CompileError::Usage(message)) => message,
        other => panic!("expected a usage error, got {other:?}"),
    }
}

#[test]
fn parses_compile_commands() {
    let options = parse(&["compile", "a.scm", "--emit-ir-dir", "out", "b.scm", "--print-ir"]).unwrap();
    let CliCommand::Compile { inputs, emit_ir_dir, print_ir } = options.command else {
        panic!("expected a compile command");
    };
    assert_eq!(inputs, ["a.scm", "b.scm"]);
    assert_eq!(emit_ir_dir, Some("out".to_string()));
    assert!(print_ir);
    assert_eq!(usage(&["compile"]), "compile expects at least one input file");
    assert_eq!(usage(&["compile", "--emit-ir-dir"]), "--emit-ir-dir expects a directory path");
    assert_eq!(usage(&["compile", "-x"]), "unknown flag '-x'");
}

#[test]
fn parses_other_commands() {
    assert!(matches!(parse(&[]).unwrap().command, CliCommand::Help));
    assert!(matches!(parse(&["help"]).unwrap().command, CliCommand::Help));
    assert!(matches!(parse(&["-h"]).unwrap().command, CliCommand::Help));
    assert!(matches!(parse(&["--help", "x"]).unwrap().command, CliCommand::Help));
    assert!(matches!(parse(&["example"]).unwrap().command, CliCommand::CompileExample));
    assert!(matches!(parse(&["gc-example"]).unwrap().command, CliCommand::GcExample));
    assert!(matches!(parse(&["gc-pipeline-example"]).unwrap().command, CliCommand::GcPipelineExample));
    assert!(matches!(parse(&["run", "p.scm"]).unwrap().command, CliCommand::Run { input } if input == "p.scm"));
    assert_eq!(usage(&["run"]), "run expects exactly one input file");
    assert_eq!(
        usage(&["walk"]),
        "unknown subcommand 'walk', expected 'compile', 'run', 'example', 'gc-example', 'gc-pipeline-example', or 'runtime-stress'"
    );
}

#[test]
fn parses_stress_commands() {
    let command = |args: &[&str]| parse(args).unwrap().command;
    assert!(matches!(command(&["runtime-stress"]), CliCommand::RuntimeStress { threads: 2, iterations: 256 }));
    assert!(matches!(
        command(&["runtime-stress", "--threads", "0", "--iterations", "+7"]),
        CliCommand::RuntimeStress { threads: 1, iterations: 7 }
    ));
    assert_eq!(usage(&["runtime-stress", "--threads"]), "--threads expects a value");
    assert_eq!(usage(&["runtime-stress", "--threads", "x"]), "--threads expects an integer");
    assert_eq!(usage(&["runtime-stress", "--iterations"]), "--iterations expects a value");
    assert_eq!(usage(&["runtime-stress", "--iterations", "-1"]), "--iterations expects an integer");
    assert_eq!(usage(&["runtime-stress", "9"]), "unknown runtime-stress flag '9'");
}

#[test]
fn numbers_are_read_like_machine_words() {
    for text in ["0", "+1", "007", "18446744073709551615", "18446744073709551616", "", "+", "++1", "1 ", "-1", "1_0"] {
        assert_eq!(parse_number(text), text.parse::<usize>().ok(), "{text:?}");
    }
}

#[test]
fn keeps_the_error_output_of_programs() {
    let expected = |stderr: &str| {
        let filtered =
            stderr.lines().filter(|line| !line.contains("mmtk::")).collect::<Vec<_>>().join("\n");
        if filtered.is_empty() { filtered } else { format!("{filtered}\n") }
    };
    for stderr in [
        "",
        "\n",
        "\n\n",
        "one",
        "one\ntwo\n",
        "one\r\ntwo\r",
        "[INFO mmtk::plan] started\n",
        "[INFO mmtk::plan] started\noops\n[mmtk::x]",
        "mmtk:\nmmtk::",
    ] {
        assert_eq!(normalize_runtime_stderr(stderr), expected(stderr), "{stderr:?}");
    }
}

#[test]
fn native_programs_start_the_scheme_program() {
    let module = CompiledModule {
        module_name: "m".to_string(),
        llvm_ir: "define i64 @main() {\n}\ndefine i64 @main(i64 %x) {}".to_string(),
    };
    let linked = synthesize_native_main(module).unwrap();
    assert_eq!(linked.module_name, "m");
    assert!(linked.llvm_ir.starts_with("define i64 @mlisp_entry() {\n}\ndefine i64 @mlisp_entry(i64 %x) {}\n\n"));
    assert!(linked.llvm_ir.contains("define i32 @main() {\nentry:\n  %init = call i1 @rt_mmtk_init(i64 8388608, i64 1)"));
    assert!(linked.llvm_ir.ends_with("fail:\n  ret i32 1\n}\n"));
    let module = CompiledModule { module_name: "m".to_string(), llvm_ir: "define i64 @main2()".to_string() };
    match synthesize_native_main(module) {
        Err(CompileError::Codegen(message)) => {
            assert_eq!(message, "expected compiler module to define a Scheme main entry")
        }
        _ => panic!("expected a module without a program to be refused"),
    }
}

#[test]
fn modules_are_named_after_files() {
    assert_eq!(sanitize_module_name(Some("hello-world 2\u{e9}".to_string())), "hello_world_2_");
    assert_eq!(sanitize_module_name(Some(String::new())), "module");
    assert_eq!(sanitize_module_name(None), "module");
}

#[test]
fn finds_the_native_libraries() {
    let report = "   Compiling x\nnote: native-static-libs: -lgcc_s  -lutil\u{a0}-lc\nnative-static-libs: -lz\n";
    assert_eq!(runtime_native_libs(report).unwrap(), ["-lgcc_s", "-lutil", "-lc"]);
    assert_eq!(runtime_native_libs("native-static-libs:").unwrap(), Vec::<String>::new());
    assert_eq!(runtime_native_libs("native-static-libs: a native-static-libs: b").unwrap(), ["a"]);
    match runtime_native_libs("nothing") {
        Err(CompileError::Codegen(message)) => assert_eq!(message, "cargo rustc did not report native static libs"),
        other => panic!("expected a report without libraries to be refused, got {other:?}"),
    }
}

#[test]
fn finds_the_runtime_library() {
    let names = |names: &[&str]| names.iter().map(|name| name.to_string()).collect::<Vec<_>>();
    assert_eq!(
        runtime_library(&names(&["libmlisp_runtime-1.a", "libmlisp_runtime-3.rlib", "libmlisp_runtime-2.a", "x.a"])),
        Some("libmlisp_runtime-2.a".to_string())
    );
    assert_eq!(runtime_library(&names(&["libmlisp_runtime.a", "mlisp_runtime-1.a"])), None);
}
