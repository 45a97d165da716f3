use raptorscript::error::VmError;
use raptorscript::interpreter::{Interpreter, OutEvent};
use raptorscript::runtime::{RunOutcome, Runtime};
use raptorscript::Options;

const NOP: u8 = 0x00;
const HALT: u8 = 0x01;
const ICONST: u8 = 0x02;
const POP: u8 = 0x03;
const ADD: u8 = 0x04;
const SUB: u8 = 0x05;
const MUL: u8 = 0x06;
const DIV: u8 = 0x07;
const MOD: u8 = 0x08;
const SHL: u8 = 0x09;
const SHR: u8 = 0x0A;
const AND: u8 = 0x0B;
const OR: u8 = 0x0C;
const NOT: u8 = 0x0D;
const COMP: u8 = 0x0E;
const COMP_LT: u8 = 0x0F;
const COMP_EQ: u8 = 0x10;
const COMP_GT: u8 = 0x11;
const RELJUMP: u8 = 0x12;
const RELJUMP_LT: u8 = 0x13;
const RELJUMP_EQ: u8 = 0x14;
const RELJUMP_GT: u8 = 0x15;
const STORE: u8 = 0x16;
const LOAD: u8 = 0x17;
const CALL: u8 = 0x18;
const RETURN: u8 = 0x19;
const PRINT: u8 = 0x1A;
const DUMP_STACK: u8 = 0x1B;
const DUMP_GLOBALS: u8 = 0x1C;

/// An artifact with the given globals count, constant-pool entries (before
/// the END marker) and top-level program bytecode.
fn artifact(var_count: u32, pool: &[u8], program: &[u8]) -> Vec<u8> {
    let mut data = vec![0x5A, 0xB7, 0x05, 0x00];
    data.extend_from_slice(&var_count.to_be_bytes());
    data.extend_from_slice(pool);
    data.push(0xED);
    data.extend_from_slice(program);
    data
}

/// One instruction with a 4-byte big-endian immediate.
fn imm(op: u8, v: u32) -> Vec<u8> {
    let mut b = vec![op];
    b.extend_from_slice(&v.to_be_bytes());
    b
}

fn program(parts: &[&[u8]]) -> Vec<u8> {
    let mut p = Vec::new();
    for part in parts {
        p.extend_from_slice(part);
    }
    p
}

fn options() -> Options {
    Options { debug: false, input: String::new() }
}

fn run_artifact(data: Vec<u8>) -> (Runtime, Result<RunOutcome, VmError>) {
    let mut rt = Runtime::new(data, options()).unwrap();
    let r = rt.run(10_000);
    (rt, r)
}

/// A FUNC constant-pool entry.
fn func_entry(id: u32, name: &[u8], arg_count: u32, local_count: u32, body: &[u8]) -> Vec<u8> {
    let mut e = vec![0xF0];
    e.extend_from_slice(&id.to_be_bytes());
    e.extend_from_slice(name);
    e.push(0);
    e.extend_from_slice(&arg_count.to_be_bytes());
    e.extend_from_slice(&local_count.to_be_bytes());
    e.extend_from_slice(&(body.len() as u32).to_be_bytes());
    e.extend_from_slice(body);
    e
}

#[test]
fn arithmetic_and_print() {
    let p = program(&[&imm(ICONST, 3), &imm(ICONST, 4), &[ADD, PRINT, HALT]]);
    let (rt, r) = run_artifact(artifact(1, &[], &p));
    assert_eq!(r, Ok(RunOutcome::Halted));
    assert_eq!(rt.interpreter.output, vec![OutEvent::Print(7), OutEvent::Halted]);
}

#[test]
fn globals_store_and_load() {
    let p = program(&[&imm(ICONST, 42), &imm(STORE, 0), &imm(LOAD, 0), &[PRINT, HALT]]);
    let (rt, r) = run_artifact(artifact(1, &[], &p));
    assert_eq!(r, Ok(RunOutcome::Halted));
    assert_eq!(rt.interpreter.output, vec![OutEvent::Print(42), OutEvent::Halted]);
}

#[test]
fn conditional_forward_jump() {
    // ICONST 0 at 0; RELJUMP_EQ at 5 (immediate ends at 10); ICONST 1 at
    // 10; PRINT at 15; HALT at 16; ICONST 2 at 17; PRINT at 22; HALT at
    // 23.  The popped 0 takes the branch; immediate 8 lands at
    // 10 + (8 - 1) = 17, skipping the first print-and-halt.
    let p = program(&[
        &imm(ICONST, 0),
        &imm(RELJUMP_EQ, 8),
        &imm(ICONST, 1),
        &[PRINT, HALT],
        &imm(ICONST, 2),
        &[PRINT, HALT],
    ]);
    let (rt, r) = run_artifact(artifact(1, &[], &p));
    assert_eq!(r, Ok(RunOutcome::Halted));
    assert_eq!(rt.interpreter.output, vec![OutEvent::Print(2), OutEvent::Halted]);
}

#[test]
fn function_call() {
    // Function 0 takes two arguments: the first popped argument (3) lands
    // in local 0, the second (10) in local 1; the body computes
    // local 1 - local 0 = 7.
    let body = program(&[&imm(LOAD, 0), &imm(LOAD, 1), &[SUB, RETURN]]);
    let pool = func_entry(0, b"sub", 2, 0, &body);
    let p = program(&[&imm(ICONST, 10), &imm(ICONST, 3), &imm(CALL, 0), &[PRINT, HALT]]);
    let (rt, r) = run_artifact(artifact(1, &pool, &p));
    assert_eq!(r, Ok(RunOutcome::Halted));
    assert_eq!(rt.interpreter.output, vec![OutEvent::Print(7), OutEvent::Halted]);
}

#[test]
fn comparison_equal() {
    let p = program(&[&imm(ICONST, 5), &imm(ICONST, 5), &[COMP_EQ, PRINT, HALT]]);
    let (rt, r) = run_artifact(artifact(1, &[], &p));
    assert_eq!(r, Ok(RunOutcome::Halted));
    assert_eq!(rt.interpreter.output, vec![OutEvent::Print(1), OutEvent::Halted]);
}

#[test]
fn bad_magic_is_fatal() {
    let mut data = artifact(1, &[], &[HALT]);
    data[0] = 0;
    data[1] = 0;
    data[2] = 0;
    data[3] = 0;
    assert_eq!(Runtime::new(data, options()).err(), Some(VmError::BadMagic));
}

#[test]
fn short_input_is_fatal() {
    assert_eq!(Runtime::new(vec![0x5A, 0xB7], options()).err(), Some(VmError::BadHeaderSize));
}

#[test]
fn truncated_constant_pool_is_fatal() {
    let mut data = vec![0x5A, 0xB7, 0x05, 0x00, 0, 0, 0, 1];
    data.extend_from_slice(&[0xF0, 0x00]); // FUNC with a truncated id
    assert_eq!(Runtime::new(data, options()).err(), Some(VmError::TruncatedConstants));
}

#[test]
fn program_end_completes_without_halt() {
    let p = program(&[&imm(ICONST, 9)]);
    let (rt, r) = run_artifact(artifact(1, &[], &p));
    assert_eq!(r, Ok(RunOutcome::Completed));
    assert_eq!(rt.interpreter.op_stack, vec![9]);
    assert_eq!(rt.interpreter.output, Vec::<OutEvent>::new());
}

#[test]
fn globals_initialized_to_zero() {
    let rt = Runtime::new(artifact(3, &[], &[]), options()).unwrap();
    assert_eq!(rt.interpreter.memory, vec![0, 0, 0]);
    let p = program(&[&imm(LOAD, 2), &[PRINT, HALT]]);
    let (rt2, r) = run_artifact(artifact(3, &[], &p));
    assert_eq!(r, Ok(RunOutcome::Halted));
    assert_eq!(rt2.interpreter.output, vec![OutEvent::Print(0), OutEvent::Halted]);
}

#[test]
fn stack_underflow_is_fatal() {
    let (_, r) = run_artifact(artifact(1, &[], &[ADD]));
    assert_eq!(r, Err(VmError::StackUnderflow));
}

#[test]
fn print_on_empty_stack_is_fatal() {
    let (_, r) = run_artifact(artifact(1, &[], &[PRINT, HALT]));
    assert_eq!(r, Err(VmError::StackUnderflow));
}

#[test]
fn bad_global_index_is_fatal() {
    let p = program(&[&imm(ICONST, 1), &imm(STORE, 5), &[HALT]]);
    let (_, r) = run_artifact(artifact(1, &[], &p));
    assert_eq!(r, Err(VmError::BadGlobalIndex));
}

#[test]
fn bad_local_index_is_fatal() {
    // Function 0 has no locals at all; its STORE must fail.
    let body = program(&[&imm(ICONST, 1), &imm(STORE, 0), &[RETURN]]);
    let pool = func_entry(0, b"f", 0, 0, &body);
    let p = program(&[&imm(CALL, 0), &[HALT]]);
    let (_, r) = run_artifact(artifact(1, &pool, &p));
    assert_eq!(r, Err(VmError::BadLocalIndex));
}

#[test]
fn bad_function_id_is_fatal() {
    let p = program(&[&imm(CALL, 7), &[HALT]]);
    let (_, r) = run_artifact(artifact(1, &[], &p));
    assert_eq!(r, Err(VmError::BadFunctionId));
}

#[test]
fn division_by_zero_is_fatal() {
    let p = program(&[&imm(ICONST, 0), &imm(ICONST, 5), &[DIV, PRINT, HALT]]);
    let (_, r) = run_artifact(artifact(1, &[], &p));
    assert_eq!(r, Err(VmError::DivisionByZero));
}

#[test]
fn modulus_by_zero_is_fatal() {
    let p = program(&[&imm(ICONST, 0), &imm(ICONST, 5), &[MOD, PRINT, HALT]]);
    let (_, r) = run_artifact(artifact(1, &[], &p));
    assert_eq!(r, Err(VmError::DivisionByZero));
}

#[test]
fn unknown_opcode_is_skipped() {
    let p = program(&[&[0xFF], &imm(ICONST, 1), &[PRINT, HALT]]);
    let (rt, r) = run_artifact(artifact(1, &[], &p));
    assert_eq!(r, Ok(RunOutcome::Halted));
    assert_eq!(rt.interpreter.output, vec![OutEvent::Print(1), OutEvent::Halted]);
}

#[test]
fn unconditional_forward_jump() {
    // RELJUMP at 0, immediate ends at 5; immediate 7 lands at
    // 5 + (7 - 1) = 11, past ICONST 1 (at 5) and PRINT (at 10).
    let p = program(&[
        &imm(RELJUMP, 7),
        &imm(ICONST, 1),
        &[PRINT],
        &imm(ICONST, 2),
        &[PRINT, HALT],
    ]);
    let (rt, r) = run_artifact(artifact(1, &[], &p));
    assert_eq!(r, Ok(RunOutcome::Halted));
    assert_eq!(rt.interpreter.output, vec![OutEvent::Print(2), OutEvent::Halted]);
}

#[test]
fn zero_jump_is_discarded() {
    let p = program(&[&imm(RELJUMP, 0), &imm(ICONST, 1), &[PRINT, HALT]]);
    let (rt, r) = run_artifact(artifact(1, &[], &p));
    assert_eq!(r, Ok(RunOutcome::Halted));
    assert_eq!(rt.interpreter.output, vec![OutEvent::Print(1), OutEvent::Halted]);
}

#[test]
fn redundant_jump_continues() {
    let p = program(&[&imm(RELJUMP, 1), &imm(ICONST, 1), &[PRINT, HALT]]);
    let (rt, r) = run_artifact(artifact(1, &[], &p));
    assert_eq!(r, Ok(RunOutcome::Halted));
    assert_eq!(rt.interpreter.output, vec![OutEvent::Print(1), OutEvent::Halted]);
}

#[test]
fn backward_jump_runs_out_of_fuel() {
    // NOP at 0; RELJUMP at 1, immediate ends at 6; a delta of -6
    // (immediate 0xFFFF_FFFB) jumps back to 0 forever.
    let p = program(&[&[NOP], &imm(RELJUMP, 0xFFFF_FFFB)]);
    let mut rt = Runtime::new(artifact(1, &[], &p), options()).unwrap();
    assert_eq!(rt.run(100), Ok(RunOutcome::OutOfFuel));
    assert_eq!(rt.run(1_000_000), Ok(RunOutcome::OutOfFuel));
}

#[test]
fn wraparound_add_then_sub_restores() {
    // Stack grows to [1, 1, i32::MAX]; ADD wraps to i32::MIN; SUB takes
    // the wrapped value back down by the same 1.
    let p = program(&[
        &imm(ICONST, 1),
        &imm(ICONST, 1),
        &imm(ICONST, 0x7FFF_FFFF),
        &[ADD, SUB, PRINT, HALT],
    ]);
    let (rt, r) = run_artifact(artifact(1, &[], &p));
    assert_eq!(r, Ok(RunOutcome::Halted));
    assert_eq!(rt.interpreter.output, vec![OutEvent::Print(0x7FFF_FFFF), OutEvent::Halted]);
}

#[test]
fn add_wraps_around() {
    let p = program(&[&imm(ICONST, 1), &imm(ICONST, 0x7FFF_FFFF), &[ADD, PRINT, HALT]]);
    let (rt, _) = run_artifact(artifact(1, &[], &p));
    assert_eq!(rt.interpreter.output, vec![OutEvent::Print(i32::MIN), OutEvent::Halted]);
}

#[test]
fn division_truncates_toward_zero() {
    // Stack [3, -7]: the left operand -7 is on top; -7 / 3 = -2.
    let p = program(&[&imm(ICONST, 3), &imm(ICONST, 0xFFFF_FFF9), &[DIV, PRINT, HALT]]);
    let (rt, _) = run_artifact(artifact(1, &[], &p));
    assert_eq!(rt.interpreter.output, vec![OutEvent::Print(-2), OutEvent::Halted]);
}

#[test]
fn division_overflow_wraps() {
    // i32::MIN / -1 wraps to i32::MIN.
    let p = program(&[
        &imm(ICONST, 0xFFFF_FFFF),
        &imm(ICONST, 0x8000_0000),
        &[DIV, PRINT, HALT],
    ]);
    let (rt, _) = run_artifact(artifact(1, &[], &p));
    assert_eq!(rt.interpreter.output, vec![OutEvent::Print(i32::MIN), OutEvent::Halted]);
}

#[test]
fn modulus_computes_remainder() {
    // Stack [3, 7]: 7 % 3 = 1.
    let p = program(&[&imm(ICONST, 3), &imm(ICONST, 7), &[MOD, PRINT, HALT]]);
    let (rt, _) = run_artifact(artifact(1, &[], &p));
    assert_eq!(rt.interpreter.output, vec![OutEvent::Print(1), OutEvent::Halted]);
}

#[test]
fn multiply_computes_product() {
    let p = program(&[&imm(ICONST, 6), &imm(ICONST, 7), &[MUL, PRINT, HALT]]);
    let (rt, _) = run_artifact(artifact(1, &[], &p));
    assert_eq!(rt.interpreter.output, vec![OutEvent::Print(42), OutEvent::Halted]);
}

#[test]
fn subtraction_takes_top_as_left_operand() {
    // Stack [3, 10]: the left operand 10 is popped first, so 10 - 3 = 7.
    let p = program(&[&imm(ICONST, 3), &imm(ICONST, 10), &[SUB, PRINT, HALT]]);
    let (rt, _) = run_artifact(artifact(1, &[], &p));
    assert_eq!(rt.interpreter.output, vec![OutEvent::Print(7), OutEvent::Halted]);
}

#[test]
fn shifts_use_amount_modulo_32() {
    // SHL: stack [2, 3]: 3 << 2 = 12.  SHR: stack [33, 16]: the amount 33
    // is taken modulo 32, so 16 >> 1 = 8.
    let p1 = program(&[&imm(ICONST, 2), &imm(ICONST, 3), &[SHL, PRINT, HALT]]);
    let (rt1, _) = run_artifact(artifact(1, &[], &p1));
    assert_eq!(rt1.interpreter.output, vec![OutEvent::Print(12), OutEvent::Halted]);

    let p2 = program(&[&imm(ICONST, 33), &imm(ICONST, 16), &[SHR, PRINT, HALT]]);
    let (rt2, _) = run_artifact(artifact(1, &[], &p2));
    assert_eq!(rt2.interpreter.output, vec![OutEvent::Print(8), OutEvent::Halted]);
}

#[test]
fn shift_right_is_arithmetic() {
    // Stack [1, -8]: -8 >> 1 = -4 on signed values.
    let p = program(&[&imm(ICONST, 1), &imm(ICONST, 0xFFFF_FFF8), &[SHR, PRINT, HALT]]);
    let (rt, _) = run_artifact(artifact(1, &[], &p));
    assert_eq!(rt.interpreter.output, vec![OutEvent::Print(-4), OutEvent::Halted]);
}

#[test]
fn bitwise_and_or_not() {
    let p = program(&[
        &imm(ICONST, 0b1100),
        &imm(ICONST, 0b1010),
        &[AND, PRINT],
        &imm(ICONST, 0b1100),
        &imm(ICONST, 0b1010),
        &[OR, PRINT],
        &imm(ICONST, 0),
        &[NOT, PRINT, HALT],
    ]);
    let (rt, _) = run_artifact(artifact(1, &[], &p));
    assert_eq!(
        rt.interpreter.output,
        vec![
            OutEvent::Print(0b1000),
            OutEvent::Print(0b1110),
            OutEvent::Print(-1),
            OutEvent::Halted
        ]
    );
}

#[test]
fn comp_pushes_sign_of_difference() {
    // Each pair compares top-of-stack against the value beneath it.
    let p = program(&[
        &imm(ICONST, 3),
        &imm(ICONST, 9),
        &[COMP, PRINT], // 9 vs 3 -> 1
        &imm(ICONST, 9),
        &imm(ICONST, 3),
        &[COMP, PRINT], // 3 vs 9 -> -1
        &imm(ICONST, 4),
        &imm(ICONST, 4),
        &[COMP, PRINT, HALT], // 4 vs 4 -> 0
    ]);
    let (rt, _) = run_artifact(artifact(1, &[], &p));
    assert_eq!(
        rt.interpreter.output,
        vec![
            OutEvent::Print(1),
            OutEvent::Print(-1),
            OutEvent::Print(0),
            OutEvent::Halted
        ]
    );
}

#[test]
fn comp_lt_and_gt() {
    let p = program(&[
        &imm(ICONST, 9),
        &imm(ICONST, 3),
        &[COMP_LT, PRINT], // 3 < 9 -> 1
        &imm(ICONST, 9),
        &imm(ICONST, 3),
        &[COMP_GT, PRINT, HALT], // 3 > 9 -> 0
    ]);
    let (rt, _) = run_artifact(artifact(1, &[], &p));
    assert_eq!(
        rt.interpreter.output,
        vec![OutEvent::Print(1), OutEvent::Print(0), OutEvent::Halted]
    );
}

#[test]
fn pop_discards_top() {
    let p = program(&[&imm(ICONST, 1), &imm(ICONST, 2), &[POP, PRINT, HALT]]);
    let (rt, _) = run_artifact(artifact(1, &[], &p));
    assert_eq!(rt.interpreter.output, vec![OutEvent::Print(1), OutEvent::Halted]);
}

#[test]
fn pop_on_empty_stack_is_harmless() {
    let (_, r) = run_artifact(artifact(1, &[], &[POP, HALT]));
    assert_eq!(r, Ok(RunOutcome::Halted));
}

#[test]
fn dump_stack_records_operands() {
    let p = program(&[&imm(ICONST, 1), &imm(ICONST, 2), &[DUMP_STACK, HALT]]);
    let (rt, _) = run_artifact(artifact(1, &[], &p));
    assert_eq!(
        rt.interpreter.output,
        vec![OutEvent::StackDump(vec![1, 2]), OutEvent::Halted]
    );
}

#[test]
fn dump_globals_records_memory() {
    let p = program(&[&[DUMP_GLOBALS, HALT]]);
    let (rt, _) = run_artifact(artifact(2, &[], &p));
    assert_eq!(
        rt.interpreter.output,
        vec![OutEvent::GlobalsDump(vec![0, 0]), OutEvent::Halted]
    );
}

#[test]
fn call_and_return_change_depth_by_one_minus_argc() {
    // Function 0 takes two arguments and returns one value: the depth
    // goes from 3 to 3 + 1 - 2 = 2.
    let body = program(&[&imm(LOAD, 0), &[RETURN]]);
    let pool = func_entry(0, b"f", 2, 0, &body);
    let p = program(&[
        &imm(ICONST, 11),
        &imm(ICONST, 22),
        &imm(ICONST, 33),
        &imm(CALL, 0),
    ]);
    let (rt, r) = run_artifact(artifact(1, &pool, &p));
    assert_eq!(r, Ok(RunOutcome::Completed));
    assert_eq!(rt.interpreter.op_stack, vec![11, 33]);
}

#[test]
fn callee_locals_are_zero_extended() {
    // Function 0: one argument, two extra locals; LOAD 2 must read 0.
    let body = program(&[&imm(LOAD, 2), &[RETURN]]);
    let pool = func_entry(0, b"f", 1, 2, &body);
    let p = program(&[&imm(ICONST, 5), &imm(CALL, 0), &[PRINT, HALT]]);
    let (rt, r) = run_artifact(artifact(1, &pool, &p));
    assert_eq!(r, Ok(RunOutcome::Halted));
    assert_eq!(rt.interpreter.output, vec![OutEvent::Print(0), OutEvent::Halted]);
}

#[test]
fn truncated_immediate_ends_frame() {
    // ICONST with only one immediate byte: the frame yields and the
    // program completes without output.
    let (rt, r) = run_artifact(artifact(1, &[], &[ICONST, 0x01]));
    assert_eq!(r, Ok(RunOutcome::Completed));
    assert_eq!(rt.interpreter.output, Vec::<OutEvent>::new());
}

#[test]
fn reljump_lt_not_taken_skips_immediate() {
    // 5 is not < 0: the branch is not taken and the 4-byte immediate is
    // still consumed, so ICONST 1 right after it executes.
    let p = program(&[
        &imm(ICONST, 5),
        &imm(RELJUMP_LT, 90),
        &imm(ICONST, 1),
        &[PRINT, HALT],
    ]);
    let (rt, r) = run_artifact(artifact(1, &[], &p));
    assert_eq!(r, Ok(RunOutcome::Halted));
    assert_eq!(rt.interpreter.output, vec![OutEvent::Print(1), OutEvent::Halted]);
}

#[test]
fn reljump_gt_taken() {
    // 5 > 0 takes the branch; immediate 8 lands past the first
    // print-and-halt, exactly as the equality variant does.
    let p = program(&[
        &imm(ICONST, 5),
        &imm(RELJUMP_GT, 8),
        &imm(ICONST, 1),
        &[PRINT, HALT],
        &imm(ICONST, 2),
        &[PRINT, HALT],
    ]);
    let (rt, r) = run_artifact(artifact(1, &[], &p));
    assert_eq!(r, Ok(RunOutcome::Halted));
    assert_eq!(rt.interpreter.output, vec![OutEvent::Print(2), OutEvent::Halted]);
}

#[test]
fn call_to_default_slot_is_a_no_op() {
    // The pool holds only id 2, so slots 0 and 1 exist default-initialized:
    // calling one runs an empty body and leaves the stack alone.
    let pool = func_entry(2, b"f", 0, 0, &[]);
    let p = program(&[&imm(ICONST, 4), &imm(CALL, 0), &[PRINT, HALT]]);
    let (rt, r) = run_artifact(artifact(1, &pool, &p));
    assert_eq!(r, Ok(RunOutcome::Halted));
    assert_eq!(rt.interpreter.output, vec![OutEvent::Print(4), OutEvent::Halted]);
}

#[test]
fn loader_splits_regions() {
    let pool = func_entry(0, b"f", 0, 0, &[RETURN]);
    let p = program(&[&imm(ICONST, 1), &[HALT]]);
    let i = Interpreter::new(artifact(2, &pool, &p), false).unwrap();
    assert_eq!(i.header.var_count, 2);
    assert_eq!(i.memory, vec![0, 0]);
    assert_eq!(i.op_stack, Vec::<i32>::new());
    assert_eq!(i.const_table.funcs.len(), 1);
    assert_eq!(i.const_table.funcs[0].body, vec![RETURN]);
    assert_eq!(i.prog_bytecode, p);
}

#[test]
fn nop_does_nothing() {
    let p = program(&[&[NOP, NOP], &imm(ICONST, 1), &[NOP, PRINT, HALT]]);
    let (rt, _) = run_artifact(artifact(1, &[], &p));
    assert_eq!(rt.interpreter.output, vec![OutEvent::Print(1), OutEvent::Halted]);
}
