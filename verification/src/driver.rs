//! What the command line asks for, and the texts that go between the tools of a build.
use crate::backend::pipeline::CompiledModule;
use crate::error::{path_text, CompileError, Problem};
use crate::names::name_texts;
use crate::text::{before, characters, join, join3, name_before, same, string_of};
use vstd::prelude::*;

verus! {

broadcast use vstd::seq_lib::group_seq_properties;

/// What is to be done.
#[derive(Debug)]
pub struct CliOptions {
    pub command: CliCommand,
}

/// The commands, with paths as they were given.
#[derive(Debug)]
pub enum CliCommand {
    Compile { inputs: Vec<String>, emit_ir_dir: Option<String>, print_ir: bool },
    Run { input: String },
    CompileExample,
    GcExample,
    GcPipelineExample,
    RuntimeStress { threads: usize, iterations: usize },
    Help,
}

/// The meaning of a command.
pub enum Request {
    Compile { inputs: Seq<Seq<char>>, emit_ir_dir: Option<Seq<char>>, print_ir: bool },
    Run { input: Seq<char> },
    CompileExample,
    GcExample,
    GcPipelineExample,
    RuntimeStress { threads: nat, iterations: nat },
    Help,
}

impl View for CliCommand {
    type V = Request;

    open spec fn view(&self) -> Request {
        match *self {
            CliCommand::Compile { inputs, emit_ir_dir, print_ir } => Request::Compile {
                inputs: name_texts(inputs@),
                emit_ir_dir: path_text(emit_ir_dir),
                print_ir,
            },
            CliCommand::Run { input } => Request::Run { input: input@ },
            CliCommand::CompileExample => Request::CompileExample,
            CliCommand::GcExample => Request::GcExample,
            CliCommand::GcPipelineExample => Request::GcPipelineExample,
            CliCommand::RuntimeStress { threads, iterations } => Request::RuntimeStress {
                threads: threads as nat,
                iterations: iterations as nat,
            },
            CliCommand::Help => Request::Help,
        }
    }
}

/// What came out of a run of a compiled program.
#[derive(Debug)]
pub struct RunOutput {
    pub stdout: String,
    pub stderr: String,
    pub exit_code: i32,
}

/// Whether a character is a decimal digit.
pub open spec fn is_digit(ch: char) -> bool {
    '0' <= ch <= '9'
}

/// The number that digits write.
pub open spec fn digits_value(digits: Seq<char>) -> nat
    decreases digits.len(),
{
    if digits.len() == 0 {
        0
    } else {
        digits_value(digits.drop_last()) * 10 + (digits.last() as nat - '0' as nat) as nat
    }
}

/// The digits of a number that may have a plus sign before it.
pub open spec fn without_plus(text: Seq<char>) -> Seq<char> {
    if text.len() > 1 && text[0] == '+' {
        text.skip(1)
    } else {
        text
    }
}

/// The number that a text writes, where it is one that fits in a word.
pub open spec fn number_of(text: Seq<char>) -> Option<nat> {
    let digits = without_plus(text);
    if digits.len() > 0 && (forall|i: int| 0 <= i < digits.len() ==> is_digit(#[trigger] digits[i])) && digits_value(
        digits,
    ) <= usize::MAX {
        Some(digits_value(digits))
    } else {
        None
    }
}

proof fn lemma_digits_grow(digits: Seq<char>, end: int)
    requires
        0 <= end <= digits.len(),
    ensures
        digits_value(digits.subrange(0, end)) <= digits_value(digits),
    decreases digits.len() - end,
{
    if end < digits.len() {
        lemma_digits_grow(digits, end + 1);
        let longer = digits.subrange(0, end + 1);
        assert(longer.drop_last() =~= digits.subrange(0, end));
    } else {
        assert(digits.subrange(0, end) =~= digits);
    }
}

/// The number that a text writes, where it is one that fits in a word.
pub fn parse_number(text: &str) -> (number: Option<usize>)
    ensures
        match number {
            Some(number) => number_of(text@) == Some(number as nat),
            None => number_of(text@) is None,
        },
{
    let chars = characters(text);
    let start: usize = if chars.len() > 1 && chars[0] == '+' {
        1
    } else {
        0
    };
    let ghost digits = without_plus(text@);
    assert(digits =~= chars@.skip(start as int));
    if chars.len() == 0 {
        return None;
    }
    let mut number: usize = 0;
    let mut index: usize = start;
    assert(digits.subrange(0, 0) =~= Seq::<char>::empty());
    while index < chars.len()
        invariant
            start <= index <= chars@.len(),
            start < chars@.len(),
            digits == without_plus(text@),
            digits == chars@.skip(start as int),
            number == digits_value(digits.subrange(0, index - start)),
            forall|i: int| 0 <= i < index - start ==> is_digit(#[trigger] digits[i]),
        decreases chars@.len() - index,
    {
        let ch: char = chars[index];
        assert(digits[index - start] == ch);
        if !('0' <= ch && ch <= '9') {
            return None;
        }
        let digit: usize = (ch as u32 - '0' as u32) as usize;
        proof {
            let longer = digits.subrange(0, index - start + 1);
            assert(longer.drop_last() =~= digits.subrange(0, index - start));
            assert(longer.last() == ch);
            lemma_digits_grow(digits, index - start + 1);
        }
        assert(digits_value(digits.subrange(0, index - start + 1)) == number * 10 + digit);
        match number.checked_mul(10) {
            None => {
                return None;
            },
            Some(tens) => match tens.checked_add(digit) {
                None => {
                    return None;
                },
                Some(next) => {
                    number = next;
                },
            },
        }
        index = index + 1;
    }
    assert(digits.subrange(0, digits.len() as int) =~= digits);
    Some(number)
}

/// What the arguments of `compile` from one on ask for.
pub open spec fn compile_request(
    args: Seq<Seq<char>>,
    index: nat,
    inputs: Seq<Seq<char>>,
    emit_ir_dir: Option<Seq<char>>,
    print_ir: bool,
) -> Result<Request, Problem>
    decreases args.len() - index,
{
    if index >= args.len() {
        if inputs.len() == 0 {
            Err(Problem::Usage("compile expects at least one input file"@))
        } else {
            Ok(Request::Compile { inputs, emit_ir_dir, print_ir })
        }
    } else {
        let value = args[index as int];
        if value == "--emit-ir-dir"@ {
            if index + 1 >= args.len() {
                Err(Problem::Usage("--emit-ir-dir expects a directory path"@))
            } else {
                compile_request(args, index + 2, inputs, Some(args[index as int + 1]), print_ir)
            }
        } else if value == "--print-ir"@ {
            compile_request(args, index + 1, inputs, emit_ir_dir, true)
        } else if value.len() > 0 && value[0] == '-' {
            Err(Problem::Usage("unknown flag '"@ + value + "'"@))
        } else {
            compile_request(args, index + 1, inputs.push(value), emit_ir_dir, print_ir)
        }
    }
}

/// What the arguments of `runtime-stress` from one on ask for.
pub open spec fn stress_request(args: Seq<Seq<char>>, index: nat, threads: nat, iterations: nat) -> Result<
    Request,
    Problem,
>
    decreases args.len() - index,
{
    if index >= args.len() {
        Ok(
            Request::RuntimeStress {
                threads: if threads < 1 { 1 } else { threads },
                iterations: if iterations < 1 { 1 } else { iterations },
            },
        )
    } else {
        let value = args[index as int];
        if value == "--threads"@ {
            if index + 1 >= args.len() {
                Err(Problem::Usage("--threads expects a value"@))
            } else {
                match number_of(args[index as int + 1]) {
                    None => Err(Problem::Usage("--threads expects an integer"@)),
                    Some(threads) => stress_request(args, index + 2, threads, iterations),
                }
            }
        } else if value == "--iterations"@ {
            if index + 1 >= args.len() {
                Err(Problem::Usage("--iterations expects a value"@))
            } else {
                match number_of(args[index as int + 1]) {
                    None => Err(Problem::Usage("--iterations expects an integer"@)),
                    Some(iterations) => stress_request(args, index + 2, threads, iterations),
                }
            }
        } else {
            Err(Problem::Usage("unknown runtime-stress flag '"@ + value + "'"@))
        }
    }
}

/// What a command line asks for.
pub open spec fn request_of(args: Seq<Seq<char>>) -> Result<Request, Problem> {
    if args.len() == 0 {
        Ok(Request::Help)
    } else if args[0] == "compile"@ {
        compile_request(args, 1, Seq::empty(), None, false)
    } else if args[0] == "run"@ {
        if args.len() != 2 {
            Err(Problem::Usage("run expects exactly one input file"@))
        } else {
            Ok(Request::Run { input: args[1] })
        }
    } else if args[0] == "example"@ {
        Ok(Request::CompileExample)
    } else if args[0] == "gc-example"@ {
        Ok(Request::GcExample)
    } else if args[0] == "gc-pipeline-example"@ {
        Ok(Request::GcPipelineExample)
    } else if args[0] == "runtime-stress"@ {
        stress_request(args, 1, 2, 256)
    } else if args[0] == "help"@ || args[0] == "--help"@ || args[0] == "-h"@ {
        Ok(Request::Help)
    } else {
        Err(
            Problem::Usage(
                "unknown subcommand '"@ + args[0]
                    + "', expected 'compile', 'run', 'example', 'gc-example', 'gc-pipeline-example', or 'runtime-stress'"@,
            ),
        )
    }
}

/// Whether parsing did what is expected of it.
pub open spec fn requested(result: Result<CliOptions, CompileError>, expected: Result<Request, Problem>) -> bool {
    match result {
        Ok(options) => expected == Ok::<Request, Problem>(options.command@),
        Err(error) => expected == Err::<Request, Problem>(error@),
    }
}

/// Whether a text starts with a minus sign.
fn starts_with_minus(text: &str) -> (result: bool)
    ensures
        result == (text@.len() > 0 && text@[0] == '-'),
{
    if text.unicode_len() == 0 {
        return false;
    }
    text.get_char(0) == '-'
}

fn parse_compile_args(args: &Vec<String>) -> (result: Result<CliOptions, CompileError>)
    requires
        args@.len() >= 1,
    ensures
        requested(result, compile_request(name_texts(args@), 1, Seq::empty(), None, false)),
{
    let ghost texts = name_texts(args@);
    let mut inputs: Vec<String> = Vec::new();
    let mut emit_ir_dir: Option<String> = None;
    let mut print_ir: bool = false;
    let mut index: usize = 1;
    assert(name_texts(inputs@) =~= Seq::<Seq<char>>::empty());
    while index < args.len()
        invariant
            1 <= index <= args@.len(),
            texts == name_texts(args@),
            compile_request(texts, 1, Seq::empty(), None, false) == compile_request(
                texts,
                index as nat,
                name_texts(inputs@),
                path_text(emit_ir_dir),
                print_ir,
            ),
        decreases args@.len() - index,
    {
        assert(texts[index as int] == args@[index as int]@);
        let value = args[index].as_str();
        if same(value, "--emit-ir-dir") {
            if index + 1 >= args.len() {
                return Err(CompileError::Usage("--emit-ir-dir expects a directory path".to_owned()));
            }
            assert(texts[index + 1] == args@[index + 1]@);
            emit_ir_dir = Some(args[index + 1].clone());
            index = index + 2;
        } else if same(value, "--print-ir") {
            print_ir = true;
            index = index + 1;
        } else if starts_with_minus(value) {
            return Err(CompileError::Usage(join3("unknown flag '", value, "'")));
        } else {
            let ghost known = name_texts(inputs@);
            inputs.push(args[index].clone());
            assert(name_texts(inputs@) =~= known.push(args@[index as int]@));
            index = index + 1;
        }
    }
    if inputs.len() == 0 {
        return Err(CompileError::Usage("compile expects at least one input file".to_owned()));
    }
    Ok(CliOptions { command: CliCommand::Compile { inputs, emit_ir_dir, print_ir } })
}

fn parse_run_args(args: &Vec<String>) -> (result: Result<CliOptions, CompileError>)
    requires
        args@.len() >= 1,
    ensures
        requested(
            result,
            if args@.len() != 2 {
                Err(Problem::Usage("run expects exactly one input file"@))
            } else {
                Ok(Request::Run { input: args@[1]@ })
            },
        ),
{
    if args.len() != 2 {
        return Err(CompileError::Usage("run expects exactly one input file".to_owned()));
    }
    Ok(CliOptions { command: CliCommand::Run { input: args[1].clone() } })
}

fn parse_runtime_stress_args(args: &Vec<String>) -> (result: Result<CliOptions, CompileError>)
    requires
        args@.len() >= 1,
    ensures
        requested(result, stress_request(name_texts(args@), 1, 2, 256)),
{
    let ghost texts = name_texts(args@);
    let mut threads: usize = 2;
    let mut iterations: usize = 256;
    let mut index: usize = 1;
    while index < args.len()
        invariant
            1 <= index <= args@.len(),
            texts == name_texts(args@),
            stress_request(texts, 1, 2, 256) == stress_request(
                texts,
                index as nat,
                threads as nat,
                iterations as nat,
            ),
        decreases args@.len() - index,
    {
        assert(texts[index as int] == args@[index as int]@);
        let value = args[index].as_str();
        if same(value, "--threads") {
            if index + 1 >= args.len() {
                return Err(CompileError::Usage("--threads expects a value".to_owned()));
            }
            assert(texts[index + 1] == args@[index + 1]@);
            match parse_number(args[index + 1].as_str()) {
                None => {
                    return Err(CompileError::Usage("--threads expects an integer".to_owned()));
                },
                Some(number) => {
                    threads = number;
                },
            }
            index = index + 2;
        } else if same(value, "--iterations") {
            if index + 1 >= args.len() {
                return Err(CompileError::Usage("--iterations expects a value".to_owned()));
            }
            assert(texts[index + 1] == args@[index + 1]@);
            match parse_number(args[index + 1].as_str()) {
                None => {
                    return Err(CompileError::Usage("--iterations expects an integer".to_owned()));
                },
                Some(number) => {
                    iterations = number;
                },
            }
            index = index + 2;
        } else {
            return Err(CompileError::Usage(join3("unknown runtime-stress flag '", value, "'")));
        }
    }
    if threads < 1 {
        threads = 1;
    }
    if iterations < 1 {
        iterations = 1;
    }
    Ok(CliOptions { command: CliCommand::RuntimeStress { threads, iterations } })
}

impl CliOptions {
    /// What a command line asks for: the arguments without the name of the program.
    pub fn parse(args: &Vec<String>) -> (result: Result<CliOptions, CompileError>)
        ensures
            requested(result, request_of(name_texts(args@))),
    {
        if args.len() == 0 {
            return Ok(CliOptions { command: CliCommand::Help });
        }
        assert(name_texts(args@)[0] == args@[0]@);
        let name = args[0].as_str();
        if same(name, "compile") {
            return parse_compile_args(args);
        }
        if same(name, "run") {
            assert(args@.len() == 2 ==> name_texts(args@)[1] == args@[1]@);
            return parse_run_args(args);
        }
        if same(name, "example") {
            return Ok(CliOptions { command: CliCommand::CompileExample });
        }
        if same(name, "gc-example") {
            return Ok(CliOptions { command: CliCommand::GcExample });
        }
        if same(name, "gc-pipeline-example") {
            return Ok(CliOptions { command: CliCommand::GcPipelineExample });
        }
        if same(name, "runtime-stress") {
            return parse_runtime_stress_args(args);
        }
        if same(name, "help") || same(name, "--help") || same(name, "-h") {
            return Ok(CliOptions { command: CliCommand::Help });
        }
        Err(
            CompileError::Usage(
                join3(
                    "unknown subcommand '",
                    name,
                    "', expected 'compile', 'run', 'example', 'gc-example', 'gc-pipeline-example', or 'runtime-stress'",
                ),
            ),
        )
    }
}

/// Whether a text stands at a place in another.
pub open spec fn stands_at(text: Seq<char>, part: Seq<char>, at: int) -> bool {
    0 <= at && at + part.len() <= text.len() && text.subrange(at, at + part.len()) == part
}

/// Whether a text is part of another.
pub open spec fn occurs_in(text: Seq<char>, part: Seq<char>) -> bool {
    exists|at: int| #[trigger] stands_at(text, part, at)
}

fn is_at(text: &Vec<char>, part: &Vec<char>, at: usize) -> (result: bool)
    requires
        at <= text@.len(),
    ensures
        result == stands_at(text@, part@, at as int),
{
    if part.len() > text.len() - at {
        return false;
    }
    let mut index: usize = 0;
    while index < part.len()
        invariant
            index <= part@.len(),
            at + part@.len() <= text@.len(),
            forall|i: int| 0 <= i < index ==> text@[at + i] == #[trigger] part@[i],
        decreases part@.len() - index,
    {
        assert(at + index < text.len());
        if text[at + index] != part[index] {
            assert(text@.subrange(at as int, at + part@.len())[index as int] != part@[index as int]);
            return false;
        }
        index = index + 1;
    }
    assert(text@.subrange(at as int, at + part@.len()) =~= part@);
    true
}

/// Where a text first stands in another, from a place on.
fn find_from(text: &Vec<char>, part: &Vec<char>, start: usize) -> (found: Option<usize>)
    requires
        start <= text@.len(),
    ensures
        match found {
            Some(at) => start <= at && stands_at(text@, part@, at as int) && forall|other: int|
                start <= other < at ==> !#[trigger] stands_at(text@, part@, other),
            None => forall|other: int| start <= other ==> !#[trigger] stands_at(text@, part@, other),
        },
{
    let mut at: usize = start;
    while at < text.len()
        invariant
            start <= at <= text@.len(),
            forall|other: int| start <= other < at ==> !#[trigger] stands_at(text@, part@, other),
        decreases text@.len() - at,
    {
        if is_at(text, part, at) {
            return Some(at);
        }
        at = at + 1;
    }
    if is_at(text, part, at) {
        return Some(at);
    }
    assert forall|other: int| start <= other implies !#[trigger] stands_at(text@, part@, other) by {
        if other > text@.len() {
            assert(!stands_at(text@, part@, other));
        }
    }
    None
}

fn occurs(text: &Vec<char>, part: &str) -> (result: bool)
    ensures
        result == occurs_in(text@, part@),
{
    let wanted = characters(part);
    match find_from(text, &wanted, 0) {
        Some(at) => {
            assert(stands_at(text@, part@, at as int));
            true
        },
        None => {
            assert forall|at: int| !#[trigger] stands_at(text@, part@, at) by {
                if at >= 0 {
                    assert(!stands_at(text@, part@, at));
                }
            }
            false
        },
    }
}

/// A line without the carriage return before the end of the line.
pub open spec fn without_return(line: Seq<char>) -> Seq<char> {
    if line.len() > 0 && line.last() == '\r' {
        line.drop_last()
    } else {
        line
    }
}

/// The lines of a text from a place on, where the line that is being read started earlier.
pub open spec fn lines_from(text: Seq<char>, start: int, at: int) -> Seq<Seq<char>>
    decreases text.len() - at,
{
    if at < start || at >= text.len() {
        if start < text.len() {
            seq![text.skip(start)]
        } else {
            Seq::empty()
        }
    } else if text[at] == '\n' {
        seq![without_return(text.subrange(start, at))] + lines_from(text, at + 1, at + 1)
    } else {
        lines_from(text, start, at + 1)
    }
}

/// The lines of a text. Each ends with a newline or a carriage return and a newline, but the
/// last need not.
pub open spec fn lines_of(text: Seq<char>) -> Seq<Seq<char>> {
    lines_from(text, 0, 0)
}

/// The characters of each of a row of lines.
pub open spec fn line_texts(lines: Seq<Vec<char>>) -> Seq<Seq<char>> {
    lines.map_values(|line: Vec<char>| line@)
}

fn part_of(text: &Vec<char>, start: usize, end: usize) -> (part: Vec<char>)
    requires
        start <= end <= text@.len(),
    ensures
        part@ == text@.subrange(start as int, end as int),
{
    let mut part: Vec<char> = Vec::new();
    let mut index: usize = start;
    while index < end
        invariant
            start <= index <= end <= text@.len(),
            part@ == text@.subrange(start as int, index as int),
        decreases end - index,
    {
        part.push(text[index]);
        assert(part@ =~= text@.subrange(start as int, index + 1));
        index = index + 1;
    }
    part
}

fn split_lines(text: &Vec<char>) -> (lines: Vec<Vec<char>>)
    ensures
        line_texts(lines@) == lines_of(text@),
{
    let mut lines: Vec<Vec<char>> = Vec::new();
    let mut start: usize = 0;
    let mut at: usize = 0;
    assert(line_texts(lines@) + lines_from(text@, 0, 0) =~= lines_of(text@));
    while at < text.len()
        invariant
            start <= at <= text@.len(),
            line_texts(lines@) + lines_from(text@, start as int, at as int) == lines_of(text@),
        decreases text@.len() - at,
    {
        if text[at] == '\n' {
            let mut line = part_of(text, start, at);
            if line.len() > 0 && line[line.len() - 1] == '\r' {
                let _ = line.pop();
            }
            let ghost done = line_texts(lines@);
            assert(line@ =~= without_return(text@.subrange(start as int, at as int)));
            lines.push(line);
            start = at + 1;
            proof {
                assert(line_texts(lines@) =~= done.push(line@));
                assert(done.push(line@) + lines_from(text@, at + 1, at + 1) =~= done + (seq![line@] + lines_from(
                    text@,
                    at + 1,
                    at + 1,
                )));
            }
        }
        at = at + 1;
    }
    if start < text.len() {
        let line = part_of(text, start, text.len());
        let ghost done = line_texts(lines@);
        assert(line@ =~= text@.skip(start as int));
        lines.push(line);
        assert(line_texts(lines@) =~= done + seq![line@]);
    } else {
        assert(line_texts(lines@) + Seq::<Seq<char>>::empty() =~= line_texts(lines@));
    }
    lines
}

/// The lines that the heap did not write.
pub open spec fn own_lines(lines: Seq<Seq<char>>) -> Seq<Seq<char>> {
    lines.filter(|line: Seq<char>| !occurs_in(line, "mmtk::"@))
}

/// Lines with newlines between them.
pub open spec fn joined_lines(lines: Seq<Seq<char>>) -> Seq<char>
    decreases lines.len(),
{
    if lines.len() == 0 {
        Seq::empty()
    } else if lines.len() == 1 {
        lines[0]
    } else {
        joined_lines(lines.drop_last()) + "\n"@ + lines.last()
    }
}

/// What a program wrote to its error output, without what the heap wrote there.
pub open spec fn normalized(stderr: Seq<char>) -> Seq<char> {
    let text = joined_lines(own_lines(lines_of(stderr)));
    if text.len() == 0 {
        text
    } else {
        text + "\n"@
    }
}

/// What a program wrote to its error output, without what the heap wrote there.
pub fn normalize_runtime_stderr(stderr: &str) -> (text: String)
    ensures
        text@ == normalized(stderr@),
{
    let lines = split_lines(&characters(stderr));
    let ghost all = lines_of(stderr@);
    let mut text: String = String::new();
    let mut count: usize = 0;
    let mut index: usize = 0;
    let ghost keep = |line: Seq<char>| !occurs_in(line, "mmtk::"@);
    assert(own_lines(all.subrange(0, 0)) =~= Seq::<Seq<char>>::empty()) by {
        reveal(Seq::filter);
    }
    assert(text@ =~= joined_lines(own_lines(all.subrange(0, 0))));
    while index < lines.len()
        invariant
            index <= lines@.len(),
            count <= index,
            all == line_texts(lines@),
            count == own_lines(all.subrange(0, index as int)).len(),
            text@ == joined_lines(own_lines(all.subrange(0, index as int))),
        decreases lines@.len() - index,
    {
        let ghost shorter = all.subrange(0, index as int);
        let ghost longer = all.subrange(0, index + 1);
        let keep_line = !occurs(&lines[index], "mmtk::");
        proof {
            assert(longer.drop_last() =~= shorter);
            assert(longer.last() == lines@[index as int]@);
            reveal(Seq::filter);
            if keep_line {
                assert(own_lines(longer) == own_lines(shorter).push(longer.last()));
                assert(own_lines(longer).drop_last() =~= own_lines(shorter));
            } else {
                assert(own_lines(longer) == own_lines(shorter));
            }
        }
        if keep_line {
            let line = string_of(&lines[index]);
            if count == 0 {
                text = line;
            } else {
                text = join3(text.as_str(), "\n", line.as_str());
            }
            count = count + 1;
        }
        index = index + 1;
    }
    assert(all.subrange(0, all.len() as int) =~= all);
    if text.unicode_len() == 0 {
        return text;
    }
    join(text.as_str(), "\n")
}

/// A text in which every occurrence of a part from a place on is replaced, read from the left.
pub open spec fn replaced_from(text: Seq<char>, part: Seq<char>, by: Seq<char>, at: int) -> Seq<char>
    decreases text.len() - at,
{
    if at < 0 || at >= text.len() || part.len() == 0 {
        Seq::empty()
    } else if stands_at(text, part, at) {
        by + replaced_from(text, part, by, at + part.len())
    } else {
        seq![text[at]] + replaced_from(text, part, by, at + 1)
    }
}

fn replace_all(text: &Vec<char>, part: &Vec<char>, by: &Vec<char>) -> (replaced: Vec<char>)
    requires
        part@.len() > 0,
    ensures
        replaced@ == replaced_from(text@, part@, by@, 0),
{
    let mut replaced: Vec<char> = Vec::new();
    let mut at: usize = 0;
    assert(replaced@ + replaced_from(text@, part@, by@, 0) =~= replaced_from(text@, part@, by@, 0));
    while at < text.len()
        invariant
            at <= text@.len(),
            part@.len() > 0,
            replaced@ + replaced_from(text@, part@, by@, at as int) == replaced_from(text@, part@, by@, 0),
        decreases text@.len() - at,
    {
        let ghost done = replaced@;
        if is_at(text, part, at) {
            let mut copy = part_of(by, 0, by.len());
            assert(copy@ =~= by@);
            replaced.append(&mut copy);
            proof {
                let rest = replaced_from(text@, part@, by@, at + part@.len());
                assert(done + by@ + rest =~= done + (by@ + rest));
            }
            at = at + part.len();
        } else {
            replaced.push(text[at]);
            proof {
                let rest = replaced_from(text@, part@, by@, at + 1);
                assert(done.push(text@[at as int]) + rest =~= done + (seq![text@[at as int]] + rest));
            }
            at = at + 1;
        }
    }
    assert(replaced@ + Seq::<char>::empty() =~= replaced@);
    replaced
}

/// How a Scheme program starts in a compiled module.
pub open spec fn scheme_entry() -> Seq<char> {
    "define i64 @main("@
}

/// What a native program does around the Scheme program: it makes a heap, binds its thread, and
/// exits with the number that the program comes to.
pub const NATIVE_MAIN: &'static str =
    "\ndefine i32 @main() {\nentry:\n  %init = call i1 @rt_mmtk_init(i64 8388608, i64 1)\n  br i1 %init, label %bind, label %fail\n\nbind:\n  %thread = call ptr @rt_bind_thread()\n  %result = call i64 @mlisp_entry()\n  call void @rt_unbind_thread(ptr %thread)\n  %decoded = ashr i64 %result, 1\n  %exit = trunc i64 %decoded to i32\n  ret i32 %exit\n\nfail:\n  ret i32 1\n}\n";

/// A module that starts as a native program, where it has a Scheme program to start.
pub open spec fn native_module(llvm_ir: Seq<char>) -> Result<Seq<char>, Problem> {
    if occurs_in(llvm_ir, scheme_entry()) {
        Ok(replaced_from(llvm_ir, scheme_entry(), "define i64 @mlisp_entry("@, 0) + "\n"@ + NATIVE_MAIN@)
    } else {
        Err(Problem::Codegen("expected compiler module to define a Scheme main entry"@))
    }
}

/// Makes a module that starts as a native program.
pub fn synthesize_native_main(module: CompiledModule) -> (result: Result<CompiledModule, CompileError>)
    ensures
        match result {
            Ok(linked) => linked.module_name@ == module.module_name@ && native_module(module.llvm_ir@) == Ok::<
                Seq<char>,
                Problem,
            >(linked.llvm_ir@),
            Err(error) => native_module(module.llvm_ir@) == Err::<Seq<char>, Problem>(error@),
        },
{
    let text = characters(module.llvm_ir.as_str());
    if !occurs(&text, "define i64 @main(") {
        return Err(CompileError::Codegen("expected compiler module to define a Scheme main entry".to_owned()));
    }
    let part = characters("define i64 @main(");
    let by = characters("define i64 @mlisp_entry(");
    proof {
        reveal_strlit("define i64 @main(");
    }
    let entry = string_of(&replace_all(&text, &part, &by));
    Ok(
        CompiledModule {
            module_name: module.module_name,
            llvm_ir: join3(entry.as_str(), "\n", NATIVE_MAIN),
        },
    )
}

/// Whether a character is an ASCII letter or digit.
pub open spec fn is_plain(ch: char) -> bool {
    '0' <= ch <= '9' || 'A' <= ch <= 'Z' || 'a' <= ch <= 'z'
}

/// The name of the module of a file, given the name of the file without its ending.
pub open spec fn module_name_of(stem: Option<Seq<char>>) -> Seq<char> {
    match stem {
        Some(stem) => if stem.len() == 0 {
            "module"@
        } else {
            stem.map_values(|ch: char| if is_plain(ch) { ch } else { '_' })
        },
        None => "module"@,
    }
}

/// The name of the module of a file, given the name of the file without its ending.
pub fn sanitize_module_name(stem: Option<String>) -> (name: String)
    ensures
        name@ == module_name_of(path_text(stem)),
{
    match stem {
        None => "module".to_owned(),
        Some(stem) => {
            let chars = characters(stem.as_str());
            if chars.len() == 0 {
                return "module".to_owned();
            }
            let mut name: String = String::new();
            let mut index: usize = 0;
            let ghost expected = module_name_of(Some(stem@));
            assert(name@ =~= expected.subrange(0, 0));
            while index < chars.len()
                invariant
                    index <= chars@.len(),
                    chars@ == stem@,
                    expected == stem@.map_values(|ch: char| if is_plain(ch) { ch } else { '_' }),
                    name@ == expected.subrange(0, index as int),
                decreases chars@.len() - index,
            {
                let ch: char = chars[index];
                let plain = ('0' <= ch && ch <= '9') || ('A' <= ch && ch <= 'Z') || ('a' <= ch && ch <= 'z');
                if plain {
                    name.push(ch);
                } else {
                    name.push('_');
                }
                assert(name@ =~= expected.subrange(0, index + 1));
                index = index + 1;
            }
            assert(expected.subrange(0, expected.len() as int) =~= expected);
            name
        },
    }
}

/// Whether a character is white space.
pub open spec fn is_white(ch: char) -> bool {
    let number = ch as int;
    9 <= number <= 13 || number == 32 || number == 0x85 || number == 0xa0 || number == 0x1680 || 0x2000 <= number
        <= 0x200a || number == 0x2028 || number == 0x2029 || number == 0x202f || number == 0x205f || number == 0x3000
}

fn is_white_char(ch: char) -> (result: bool)
    ensures
        result == is_white(ch),
{
    let number: u32 = ch as u32;
    (9 <= number && number <= 13) || number == 32 || number == 0x85 || number == 0xa0 || number == 0x1680 || (0x2000
        <= number && number <= 0x200a) || number == 0x2028 || number == 0x2029 || number == 0x202f || number == 0x205f
        || number == 0x3000
}

/// The words of a text from a place on, where `word` has been read of the current word.
pub open spec fn words_from(text: Seq<char>, at: int, word: Seq<char>) -> Seq<Seq<char>>
    decreases text.len() - at,
{
    if at < 0 || at >= text.len() {
        if word.len() > 0 {
            seq![word]
        } else {
            Seq::empty()
        }
    } else if is_white(text[at]) {
        if word.len() > 0 {
            seq![word] + words_from(text, at + 1, Seq::empty())
        } else {
            words_from(text, at + 1, Seq::empty())
        }
    } else {
        words_from(text, at + 1, word.push(text[at]))
    }
}

fn split_words(text: &Vec<char>) -> (words: Vec<String>)
    ensures
        name_texts(words@) == words_from(text@, 0, Seq::empty()),
{
    let mut words: Vec<String> = Vec::new();
    let mut word: String = String::new();
    let mut length: usize = 0;
    let mut at: usize = 0;
    assert(word@ =~= Seq::<char>::empty());
    assert(name_texts(words@) + words_from(text@, 0, word@) =~= words_from(text@, 0, Seq::empty()));
    while at < text.len()
        invariant
            at <= text@.len(),
            length <= at,
            length == word@.len(),
            name_texts(words@) + words_from(text@, at as int, word@) == words_from(text@, 0, Seq::empty()),
        decreases text@.len() - at,
    {
        let ghost done = name_texts(words@);
        if is_white_char(text[at]) {
            if length > 0 {
                let ghost read = word@;
                words.push(word);
                word = String::new();
                length = 0;
                assert(word@ =~= Seq::<char>::empty());
                proof {
                    assert(name_texts(words@) =~= done.push(read));
                    let rest = words_from(text@, at + 1, Seq::empty());
                    assert(done.push(read) + rest =~= done + (seq![read] + rest));
                }
            } else {
                assert(word@ =~= Seq::<char>::empty());
            }
        } else {
            word.push(text[at]);
            length = length + 1;
        }
        at = at + 1;
    }
    let ghost done = name_texts(words@);
    if length > 0 {
        let ghost read = word@;
        words.push(word);
        assert(name_texts(words@) =~= done + seq![read]);
    } else {
        assert(done + Seq::<Seq<char>>::empty() =~= done);
    }
    words
}

/// The first line that names the native libraries.
pub open spec fn libraries_line(lines: Seq<Seq<char>>, index: nat) -> Option<Seq<char>>
    decreases lines.len() - index,
{
    if index >= lines.len() {
        None
    } else if occurs_in(lines[index as int], "native-static-libs:"@) {
        Some(lines[index as int])
    } else {
        libraries_line(lines, index + 1)
    }
}

/// Where a part first stands in a text, from a place on; the end of the text where it does not.
pub open spec fn first_at(text: Seq<char>, part: Seq<char>, start: int) -> int
    decreases text.len() - start,
{
    if start >= text.len() {
        text.len() as int
    } else if stands_at(text, part, start) {
        start
    } else {
        first_at(text, part, start + 1)
    }
}

/// What stands between the first and the second occurrence of a part in a text.
pub open spec fn behind_first(text: Seq<char>, part: Seq<char>) -> Seq<char> {
    let start = first_at(text, part, 0) + part.len();
    text.subrange(start, first_at(text, part, start))
}

proof fn lemma_first_at(text: Seq<char>, part: Seq<char>, start: int, at: int)
    requires
        0 <= start <= at <= text.len(),
        part.len() > 0,
        forall|other: int| start <= other < at ==> !#[trigger] stands_at(text, part, other),
        at == text.len() || stands_at(text, part, at),
    ensures
        first_at(text, part, start) == at,
    decreases at - start,
{
    if start < at {
        assert(!stands_at(text, part, start));
        lemma_first_at(text, part, start + 1, at);
    }
}

/// The native libraries that the report of a build names.
pub open spec fn native_libraries(report: Seq<char>) -> Result<Seq<Seq<char>>, Problem> {
    match libraries_line(lines_of(report), 0) {
        None => Err(Problem::Codegen("cargo rustc did not report native static libs"@)),
        Some(line) => Ok(words_from(behind_first(line, "native-static-libs:"@), 0, Seq::empty())),
    }
}

/// The native libraries that the report of a build names.
pub fn runtime_native_libs(report: &str) -> (result: Result<Vec<String>, CompileError>)
    ensures
        match result {
            Ok(libraries) => native_libraries(report@) == Ok::<Seq<Seq<char>>, Problem>(name_texts(libraries@)),
            Err(error) => native_libraries(report@) == Err::<Seq<Seq<char>>, Problem>(error@),
        },
{
    let lines = split_lines(&characters(report));
    let part = characters("native-static-libs:");
    let ghost all = lines_of(report@);
    let mut index: usize = 0;
    while index < lines.len()
        invariant
            index <= lines@.len(),
            all == lines_of(report@),
            all == line_texts(lines@),
            part@ == "native-static-libs:"@,
            libraries_line(all, 0) == libraries_line(all, index as nat),
        decreases lines@.len() - index,
    {
        let line = &lines[index];
        assert(all[index as int] == line@);
        if let Some(at) = find_from(line, &part, 0) {
            proof {
                reveal_strlit("native-static-libs:");
                assert(stands_at(line@, part@, at as int));
                assert(occurs_in(line@, part@));
                lemma_first_at(line@, part@, 0, at as int);
            }
            assert(at + part@.len() <= line.len());
            let start: usize = at + part.len();
            let end: usize = match find_from(line, &part, start) {
                Some(end) => end,
                None => line.len(),
            };
            proof {
                lemma_first_at(line@, part@, start as int, end as int);
            }
            return Ok(split_words(&part_of(line, start, end)));
        }
        assert(!occurs_in(line@, part@)) by {
            assert forall|at: int| !#[trigger] stands_at(line@, part@, at) by {
                if at >= 0 {
                    assert(!stands_at(line@, part@, at));
                }
            }
        }
        index = index + 1;
    }
    Err(CompileError::Codegen("cargo rustc did not report native static libs".to_owned()))
}

/// Whether a file is a build of the runtime as a static library, by its name.
pub open spec fn is_runtime_library(name: Seq<char>) -> bool {
    "libmlisp_runtime-"@.is_prefix_of(name) && ".a"@.is_suffix_of(name)
}

fn is_library_name(name: &str) -> (result: bool)
    ensures
        result == is_runtime_library(name@),
{
    let chars = characters(name);
    let prefix = characters("libmlisp_runtime-");
    let suffix = characters(".a");
    proof {
        reveal_strlit("libmlisp_runtime-");
        reveal_strlit(".a");
    }
    if chars.len() < prefix.len() || chars.len() < suffix.len() {
        return false;
    }
    let starts = is_at(&chars, &prefix, 0);
    let ends = is_at(&chars, &suffix, chars.len() - suffix.len());
    starts && ends
}

/// The static library of the runtime among files: the last in ascending order of the names.
pub fn runtime_library(names: &Vec<String>) -> (found: Option<String>)
    ensures
        match found {
            Some(name) => name_texts(names@).contains(name@) && is_runtime_library(name@) && forall|i: int|
                0 <= i < names@.len() && is_runtime_library((#[trigger] names@[i])@) ==> !name_before(
                    name@,
                    names@[i]@,
                ),
            None => forall|i: int| 0 <= i < names@.len() ==> !is_runtime_library((#[trigger] names@[i])@),
        },
{
    let mut found: Option<usize> = None;
    let mut index: usize = 0;
    while index < names.len()
        invariant
            index <= names@.len(),
            match found {
                Some(best) => best < index && is_runtime_library(names@[best as int]@) && forall|i: int|
                    0 <= i < index && is_runtime_library((#[trigger] names@[i])@) ==> !name_before(
                        names@[best as int]@,
                        names@[i]@,
                    ),
                None => forall|i: int| 0 <= i < index ==> !is_runtime_library((#[trigger] names@[i])@),
            },
        decreases names@.len() - index,
    {
        if is_library_name(names[index].as_str()) {
            match found {
                None => {
                    found = Some(index);
                    proof {
                        crate::text::lemma_name_order(
                            names@[index as int]@,
                            names@[index as int]@,
                            names@[index as int]@,
                        );
                    }
                },
                Some(best) => {
                    if before(names[best].as_str(), names[index].as_str()) {
                        found = Some(index);
                        proof {
                            assert forall|i: int|
                                0 <= i < index + 1 && is_runtime_library(
                                    (#[trigger] names@[i])@,
                                ) implies !name_before(names@[index as int]@, names@[i]@) by {
                                crate::text::lemma_name_order(
                                    names@[best as int]@,
                                    names@[index as int]@,
                                    names@[i]@,
                                );
                                crate::text::lemma_name_order(
                                    names@[index as int]@,
                                    names@[i]@,
                                    names@[index as int]@,
                                );
                            }
                        }
                    }
                },
            }
        }
        index = index + 1;
    }
    match found {
        Some(best) => {
            assert(name_texts(names@)[best as int] == names@[best as int]@);
            Some(names[best].clone())
        },
        None => None,
    }
}

} // verus!
