//! The evaluator's state and the per-instruction semantics: the interpreter
//! owns the operand stack, globals and constant table; a stack frame owns
//! one activation's bytecode, program counter and locals and dispatches the
//! opcodes of its own bytecode.
//!
//! Every observable effect (`PRINT`, the diagnostic dumps, `HALT`) is
//! appended to the interpreter's output event log instead of being written
//! to a stream, so the whole execution engine stays free of I/O.

use vstd::pervasive::VecAdditionalExecFns;
use vstd::prelude::*;

use crate::constants::{
    decode_consts, read_const_table, spec_be32_at, ConstDecode, ConstTable, DecodeRes, FuncSnap,
};
use crate::error::VmError;
use crate::header::{be32, read_header, RaptorHeader, HEADER_SIZE, MAGIC_VALUE};
use crate::instructions::{spec_instruction_of, Instruction};

verus! {

/// One observable output event of the machine, in the order produced.
#[derive(Debug, Clone, PartialEq, Eq)]
pub enum OutEvent {
    /// `PRINT` popped this value.
    Print(i32),
    /// `DUMP_STACK` observed this operand stack, bottom first.
    StackDump(Vec<i32>),
    /// `DUMP_GLOBALS` observed these globals.
    GlobalsDump(Vec<i32>),
    /// `HALT` stopped execution.
    Halted,
}

/// The mathematical value of an [`OutEvent`].
#[verifier::ext_equal]
pub ghost enum OutSnap {
    Print(i32),
    StackDump(Seq<i32>),
    GlobalsDump(Seq<i32>),
    Halted,
}

impl View for OutEvent {
    type V = OutSnap;

    open spec fn view(&self) -> OutSnap {
        match self {
            OutEvent::Print(v) => OutSnap::Print(*v),
            OutEvent::StackDump(s) => OutSnap::StackDump(s@),
            OutEvent::GlobalsDump(g) => OutSnap::GlobalsDump(g@),
            OutEvent::Halted => OutSnap::Halted,
        }
    }
}

/// The views of a sequence of output events.
pub open spec fn out_views(out: Seq<OutEvent>) -> Seq<OutSnap> {
    out.map_values(|e: OutEvent| e@)
}

/// An activation record: one call's bytecode, program counter, locals and
/// return marker.
///
/// The frame pushed for the top-level program carries `globals_frame =
/// true`: top-level code has no locals of its own, so its `STORE` and
/// `LOAD` address the globals vector instead.
#[derive(Debug)]
pub struct StackFrame {
    /// Id of the function this frame executes (0 for the program frame).
    pub id: u32,
    /// The frame's locals, `arg_count + local_count` values.
    pub locals: Vec<i32>,
    /// Operand-stack depth at call entry, after the arguments were popped:
    /// `RETURN` truncates the stack back to this depth.
    pub return_addr: usize,
    /// The bytecode this frame executes, owned by the frame.
    pub bytecode: Vec<u8>,
    /// Byte offset into `bytecode` of the next opcode.
    pub bc_counter: usize,
    /// Whether `STORE`/`LOAD` address the globals (top-level program frame)
    /// rather than the frame's locals.
    pub globals_frame: bool,
}

/// The mathematical value of a [`StackFrame`].
#[verifier::ext_equal]
pub ghost struct FrameSnap {
    pub id: u32,
    pub locals: Seq<i32>,
    pub return_addr: nat,
    pub bytecode: Seq<u8>,
    pub pc: nat,
    pub globals_frame: bool,
}

impl View for StackFrame {
    type V = FrameSnap;

    open spec fn view(&self) -> FrameSnap {
        FrameSnap {
            id: self.id,
            locals: self.locals@,
            return_addr: self.return_addr as nat,
            bytecode: self.bytecode@,
            pc: self.bc_counter as nat,
            globals_frame: self.globals_frame,
        }
    }
}

/// The shared execution state: loaded artifact regions plus the operand
/// stack, the globals, and the output event log.
#[derive(Debug)]
pub struct Interpreter {
    pub header: RaptorHeader,
    pub const_table: ConstTable,
    pub op_stack: Vec<i32>,
    pub memory: Vec<i32>,
    pub prog_bytecode: Vec<u8>,
    pub output: Vec<OutEvent>,
}

/// The mathematical value of an [`Interpreter`].
#[verifier::ext_equal]
pub ghost struct InterpSnap {
    pub header: RaptorHeader,
    pub consts: ConstDecode,
    pub op_stack: Seq<i32>,
    pub memory: Seq<i32>,
    pub prog_bytecode: Seq<u8>,
    pub output: Seq<OutSnap>,
}

impl View for Interpreter {
    type V = InterpSnap;

    open spec fn view(&self) -> InterpSnap {
        InterpSnap {
            header: self.header,
            consts: self.const_table@,
            op_stack: self.op_stack@,
            memory: self.memory@,
            prog_bytecode: self.prog_bytecode@,
            output: out_views(self.output@),
        }
    }
}

/// What a successfully loaded interpreter holds of the artifact bytes
/// `data`: a verified header, the decoded constant pool, `var_count` zeroed
/// globals, an empty operand stack and output log, and the bytes past the
/// pool as the top-level program bytecode.
pub open spec fn loaded_from(i: InterpSnap, data: Seq<u8>) -> bool {
    &&& data.len() >= HEADER_SIZE
    &&& be32(data[0], data[1], data[2], data[3]) == MAGIC_VALUE
    &&& i.header.magic == MAGIC_VALUE
    &&& i.header.var_count == be32(data[4], data[5], data[6], data[7])
    &&& decode_consts(data.subrange(HEADER_SIZE as int, data.len() as int), 0, Seq::empty())
        == DecodeRes::Good(i.consts)
    &&& i.op_stack == Seq::<i32>::empty()
    &&& i.memory == Seq::new(i.header.var_count as nat, |j: int| 0i32)
    &&& i.prog_bytecode == data.subrange(HEADER_SIZE + i.consts.consumed, data.len() as int)
    &&& i.output == Seq::<OutSnap>::empty()
}

/// Exactly when loading the artifact bytes `data` fails with `e`: a short
/// or bad header, or a truncated constant pool.
pub open spec fn load_fails_with(data: Seq<u8>, e: VmError) -> bool {
    ||| (data.len() < HEADER_SIZE && e == VmError::BadHeaderSize)
    ||| (data.len() >= HEADER_SIZE && be32(data[0], data[1], data[2], data[3]) != MAGIC_VALUE && e
        == VmError::BadMagic)
    ||| (data.len() >= HEADER_SIZE && be32(data[0], data[1], data[2], data[3]) == MAGIC_VALUE
        && decode_consts(data.subrange(HEADER_SIZE as int, data.len() as int), 0, Seq::empty())
        == DecodeRes::Fail(e))
}

impl Interpreter {
    /// Load an artifact: validate the header, decode the constant pool, and
    /// keep the remaining bytes as the top-level program bytecode.
    ///
    /// On success the globals vector holds exactly `var_count` zeros, the
    /// operand stack and the output log are empty, and the program bytecode
    /// is the input past the header and the decoded pool.  Failures are
    /// those of the header reader and of the constant-pool decoder.
    pub fn new(data: Vec<u8>, debug: bool) -> (r: Result<Interpreter, VmError>)
        ensures
            match r {
                Ok(i) => loaded_from(i@, data@),
                Err(e) => load_fails_with(data@, e),
            },
    {
        let header = match read_header(data.as_slice()) {
            Ok(h) => h,
            Err(e) => {
                return Err(e);
            },
        };
        let rest = vstd::slice::slice_subrange(data.as_slice(), HEADER_SIZE, data.len());
        let const_table = match read_const_table(rest) {
            Ok(t) => t,
            Err(e) => {
                return Err(e);
            },
        };
        proof {
            crate::constants::lemma_decode_consumed(rest@, 0, Seq::empty());
        }
        let prog_bytecode = vstd::slice::slice_to_vec(
            vstd::slice::slice_subrange(rest, const_table.bc_counter, rest.len()),
        );
        let memory: Vec<i32> = vec![0i32; header.var_count as usize];
        let i = Interpreter {
            header,
            const_table,
            op_stack: Vec::new(),
            memory,
            prog_bytecode,
            output: Vec::new(),
        };
        proof {
            assert(i@.op_stack =~= Seq::<i32>::empty());
            assert(i@.output =~= Seq::<OutSnap>::empty());
            assert(i@.memory =~= Seq::new(i@.header.var_count as nat, |j: int| 0i32));
            assert(i@.prog_bytecode =~= data@.subrange(
                HEADER_SIZE + i@.consts.consumed,
                data@.len() as int,
            ));
        }
        Ok(i)
    }
}

/// What one executed instruction asks of the call stack.
#[derive(Debug)]
pub enum StepEffect {
    /// Keep executing the same frame.
    Cont,
    /// `CALL`: push this new frame and execute it.
    Push(StackFrame),
    /// `RETURN` or end of bytecode: pop the current frame.
    Pop,
    /// `HALT`: stop execution altogether.
    Halt,
}

/// The mathematical value of a [`StepEffect`].
#[verifier::ext_equal]
pub ghost enum EffSnap {
    Cont,
    Push(FrameSnap),
    Pop,
    Halt,
}

impl View for StepEffect {
    type V = EffSnap;

    open spec fn view(&self) -> EffSnap {
        match self {
            StepEffect::Cont => EffSnap::Cont,
            StepEffect::Push(f) => EffSnap::Push(f@),
            StepEffect::Pop => EffSnap::Pop,
            StepEffect::Halt => EffSnap::Halt,
        }
    }
}

/// The machine state one instruction acts on: the executing frame plus the
/// shared operand stack, globals and output log.
#[verifier::ext_equal]
pub ghost struct StepState {
    pub frame: FrameSnap,
    pub op_stack: Seq<i32>,
    pub memory: Seq<i32>,
    pub output: Seq<OutSnap>,
}

/// A successful step: the state afterwards and the requested effect.
#[verifier::ext_equal]
pub ghost struct StepGood {
    pub st: StepState,
    pub eff: EffSnap,
}

/// What one instruction yields: a new state and effect, or a fatal error.
#[verifier::ext_equal]
pub ghost enum StepRes {
    Good(StepGood),
    Fail(VmError),
}

/// The step state made of a frame's and an interpreter's mutable parts.
pub open spec fn step_state_of(f: FrameSnap, i: InterpSnap) -> StepState {
    StepState { frame: f, op_stack: i.op_stack, memory: i.memory, output: i.output }
}

/// The frame with its program counter moved to `pc`.
pub open spec fn frame_at(f: FrameSnap, pc: nat) -> FrameSnap {
    FrameSnap { pc, ..f }
}

/// Continue in the same frame at `pc`, state otherwise unchanged.
pub open spec fn cont_at(st: StepState, pc: nat) -> StepRes {
    StepRes::Good(StepGood { st: StepState { frame: frame_at(st.frame, pc), ..st }, eff: EffSnap::Cont })
}

/// The frame yields: bytecode ended (here: an immediate ran past the end),
/// so the frame is popped without touching the operand stack.
pub open spec fn yielded(st: StepState) -> StepRes {
    StepRes::Good(StepGood { st, eff: EffSnap::Pop })
}

/// The `i32` whose two's-complement bit pattern is `x`.
pub open spec fn u32_as_i32(x: u32) -> i32 {
    if x < 0x8000_0000 {
        x as i32
    } else {
        (x - 0x1_0000_0000) as i32
    }
}

/// Encoding of a comparison result: 1 for true, 0 for false.
pub open spec fn bool_val(c: bool) -> i32 {
    if c {
        1
    } else {
        0
    }
}

/// The sign of `a - b`, computed by comparison so extreme operands cannot
/// overflow.
pub open spec fn comp_val(a: i32, b: i32) -> i32 {
    if a > b {
        1
    } else if a < b {
        -1i32
    } else {
        0
    }
}

/// The shift amount of `SHL`/`SHR`: the right operand's low five bits,
/// i.e. its value modulo 32.
pub open spec fn shamt(r: i32) -> u32 {
    (r & 31) as u32
}

/// Truncating division that wraps on overflow: `i32::MIN / -1` yields
/// `i32::MIN`.
pub open spec fn div_wrap(l: i32, r: i32) -> i32
    recommends
        r != 0,
{
    match l.checked_div(r) {
        Some(v) => v,
        None => i32::MIN,
    }
}

/// Truncating remainder that wraps on overflow: `i32::MIN % -1` yields 0.
pub open spec fn rem_wrap(l: i32, r: i32) -> i32
    recommends
        r != 0,
{
    match l.checked_rem(r) {
        Some(v) => v,
        None => 0,
    }
}

/// Whether the opcode is a divide-like operator, whose right operand must
/// not be zero.
pub open spec fn binop_divides(op: Instruction) -> bool {
    op == Instruction::Divide || op == Instruction::Modulus
}

/// The value a binary arithmetic opcode pushes.  The left operand `l` is
/// the top of the stack (the first value popped), `r` the one beneath it;
/// every operator wraps.
pub open spec fn binop_val(op: Instruction, l: i32, r: i32) -> i32 {
    match op {
        Instruction::Add => vstd::wrapping::i32_specs::wrapping_add(l, r),
        Instruction::Sub => vstd::wrapping::i32_specs::wrapping_sub(l, r),
        Instruction::Multiply => vstd::wrapping::i32_specs::wrapping_mul(l, r),
        Instruction::Divide => div_wrap(l, r),
        Instruction::Modulus => rem_wrap(l, r),
        Instruction::Shl => vstd::wrapping::i32_specs::wrapping_shl(l, shamt(r)),
        Instruction::Shr => vstd::wrapping::i32_specs::wrapping_shr(l, shamt(r)),
        Instruction::And => l & r,
        Instruction::Or => l | r,
        _ => 0,
    }
}

/// Whether a conditional relative jump takes its branch for popped value
/// `t`: the popped value is compared against zero.
pub open spec fn cond_holds(op: Instruction, t: i32) -> bool {
    match op {
        Instruction::RelJumpLt => t < 0,
        Instruction::RelJumpEq => t == 0,
        Instruction::RelJumpGt => t > 0,
        _ => false,
    }
}

/// `Vec::resize` on a sequence: truncate to `m`, or pad with zeros.
pub open spec fn resize_to(s: Seq<i32>, m: nat) -> Seq<i32> {
    if m <= s.len() {
        s.take(m as int)
    } else {
        s + Seq::new((m - s.len()) as nat, |i: int| 0i32)
    }
}

/// A program counter clamped to the end of the bytecode: a jump past the
/// end makes the frame yield at its next dispatch.
pub open spec fn clamp_pc(target: nat, n: nat) -> nat {
    if target > n {
        n
    } else {
        target
    }
}

/// Where a relative jump at `pc` (within bytecode of length `n`) lands for
/// immediate `imm`.
///
/// The immediate, decremented by one, is a signed two's-complement delta
/// from the position just past the immediate (`pc + 5`).  An immediate of 0
/// (delta −1) is invalid and the jump is discarded; an immediate of 1
/// (delta 0) is a redundant jump; a backward jump reaching before the start
/// of the bytecode is likewise discarded.
pub open spec fn reljump_pc(pc: nat, n: nat, imm: u32) -> nat {
    if imm == 0 {
        (pc + 5) as nat
    } else if imm <= 0x8000_0000 {
        clamp_pc((pc + 5 + (imm - 1)) as nat, n)
    } else {
        let back = (0x1_0000_0001 - imm) as nat;
        if back <= pc + 5 {
            (pc + 5 - back) as nat
        } else {
            (pc + 5) as nat
        }
    }
}

/// The meaning of one instruction: how the machine state `st` steps under
/// the constant table `funcs`.
///
/// The instruction is the opcode byte at the frame's program counter,
/// which must lie inside the bytecode.  An unknown opcode is skipped by
/// one byte.  An immediate running past the end of the bytecode makes the
/// frame yield, as reaching the end does.
pub open spec fn step_spec(st: StepState, funcs: Seq<FuncSnap>) -> StepRes
    recommends
        st.frame.pc < st.frame.bytecode.len(),
{
    let f = st.frame;
    let code = f.bytecode;
    let n = code.len();
    let pc = f.pc;
    let stack = st.op_stack;
    match spec_instruction_of(code[pc as int]) {
        None => cont_at(st, (pc + 1) as nat),
        Some(instr) => match instr {
            Instruction::Nop => cont_at(st, (pc + 1) as nat),
            Instruction::Halt => StepRes::Good(
                StepGood {
                    st: StepState {
                        frame: frame_at(f, (pc + 1) as nat),
                        output: st.output.push(OutSnap::Halted),
                        ..st
                    },
                    eff: EffSnap::Halt,
                },
            ),
            Instruction::IConst => if pc + 5 > n {
                yielded(st)
            } else {
                let v = u32_as_i32(spec_be32_at(code, pc as int + 1));
                StepRes::Good(
                    StepGood {
                        st: StepState {
                            frame: frame_at(f, (pc + 5) as nat),
                            op_stack: stack.push(v),
                            ..st
                        },
                        eff: EffSnap::Cont,
                    },
                )
            },
            Instruction::Pop => if stack.len() == 0 {
                cont_at(st, (pc + 1) as nat)
            } else {
                StepRes::Good(
                    StepGood {
                        st: StepState {
                            frame: frame_at(f, (pc + 1) as nat),
                            op_stack: stack.drop_last(),
                            ..st
                        },
                        eff: EffSnap::Cont,
                    },
                )
            },
            Instruction::Add | Instruction::Sub | Instruction::Multiply | Instruction::Divide
                | Instruction::Modulus | Instruction::Shl | Instruction::Shr | Instruction::And
                | Instruction::Or => if stack.len() < 2 {
                StepRes::Fail(VmError::StackUnderflow)
            } else {
                let l = stack.last();
                let r = stack.drop_last().last();
                if binop_divides(instr) && r == 0 {
                    StepRes::Fail(VmError::DivisionByZero)
                } else {
                    StepRes::Good(
                        StepGood {
                            st: StepState {
                                frame: frame_at(f, (pc + 1) as nat),
                                op_stack: stack.drop_last().drop_last().push(
                                    binop_val(instr, l, r),
                                ),
                                ..st
                            },
                            eff: EffSnap::Cont,
                        },
                    )
                }
            },
            Instruction::Not => if stack.len() == 0 {
                StepRes::Fail(VmError::StackUnderflow)
            } else {
                StepRes::Good(
                    StepGood {
                        st: StepState {
                            frame: frame_at(f, (pc + 1) as nat),
                            op_stack: stack.drop_last().push(!stack.last()),
                            ..st
                        },
                        eff: EffSnap::Cont,
                    },
                )
            },
            Instruction::Comp | Instruction::CompLt | Instruction::CompEq | Instruction::CompGt
                => if stack.len() < 2 {
                StepRes::Fail(VmError::StackUnderflow)
            } else {
                let a = stack.last();
                let b = stack.drop_last().last();
                let v = match instr {
                    Instruction::Comp => comp_val(a, b),
                    Instruction::CompLt => bool_val(a < b),
                    Instruction::CompEq => bool_val(a == b),
                    Instruction::CompGt => bool_val(a > b),
                    _ => 0,
                };
                StepRes::Good(
                    StepGood {
                        st: StepState {
                            frame: frame_at(f, (pc + 1) as nat),
                            op_stack: stack.drop_last().drop_last().push(v),
                            ..st
                        },
                        eff: EffSnap::Cont,
                    },
                )
            },
            Instruction::RelJump => if pc + 5 > n {
                yielded(st)
            } else {
                cont_at(st, reljump_pc(pc, n, spec_be32_at(code, pc as int + 1)))
            },
            Instruction::RelJumpLt | Instruction::RelJumpEq | Instruction::RelJumpGt => if pc + 5
                > n {
                yielded(st)
            } else if stack.len() == 0 {
                StepRes::Fail(VmError::StackUnderflow)
            } else {
                let imm = spec_be32_at(code, pc as int + 1);
                let t = stack.last();
                let target = if cond_holds(instr, t) {
                    reljump_pc(pc, n, imm)
                } else {
                    (pc + 5) as nat
                };
                StepRes::Good(
                    StepGood {
                        st: StepState {
                            frame: frame_at(f, target),
                            op_stack: stack.drop_last(),
                            ..st
                        },
                        eff: EffSnap::Cont,
                    },
                )
            },
            Instruction::Store => if pc + 5 > n {
                yielded(st)
            } else {
                let idx = spec_be32_at(code, pc as int + 1) as nat;
                if stack.len() == 0 {
                    StepRes::Fail(VmError::StackUnderflow)
                } else if f.globals_frame {
                    if idx < st.memory.len() {
                        StepRes::Good(
                            StepGood {
                                st: StepState {
                                    frame: frame_at(f, (pc + 5) as nat),
                                    op_stack: stack.drop_last(),
                                    memory: st.memory.update(idx as int, stack.last()),
                                    ..st
                                },
                                eff: EffSnap::Cont,
                            },
                        )
                    } else {
                        StepRes::Fail(VmError::BadGlobalIndex)
                    }
                } else {
                    if idx < f.locals.len() {
                        StepRes::Good(
                            StepGood {
                                st: StepState {
                                    frame: FrameSnap {
                                        locals: f.locals.update(idx as int, stack.last()),
                                        pc: (pc + 5) as nat,
                                        ..f
                                    },
                                    op_stack: stack.drop_last(),
                                    ..st
                                },
                                eff: EffSnap::Cont,
                            },
                        )
                    } else {
                        StepRes::Fail(VmError::BadLocalIndex)
                    }
                }
            },
            Instruction::Load => if pc + 5 > n {
                yielded(st)
            } else {
                let idx = spec_be32_at(code, pc as int + 1) as nat;
                if f.globals_frame {
                    if idx < st.memory.len() {
                        StepRes::Good(
                            StepGood {
                                st: StepState {
                                    frame: frame_at(f, (pc + 5) as nat),
                                    op_stack: stack.push(st.memory[idx as int]),
                                    ..st
                                },
                                eff: EffSnap::Cont,
                            },
                        )
                    } else {
                        StepRes::Fail(VmError::BadGlobalIndex)
                    }
                } else {
                    if idx < f.locals.len() {
                        StepRes::Good(
                            StepGood {
                                st: StepState {
                                    frame: frame_at(f, (pc + 5) as nat),
                                    op_stack: stack.push(f.locals[idx as int]),
                                    ..st
                                },
                                eff: EffSnap::Cont,
                            },
                        )
                    } else {
                        StepRes::Fail(VmError::BadLocalIndex)
                    }
                }
            },
            Instruction::Call => if pc + 5 > n {
                yielded(st)
            } else {
                let id = spec_be32_at(code, pc as int + 1);
                if id as nat >= funcs.len() {
                    StepRes::Fail(VmError::BadFunctionId)
                } else {
                    let fc = funcs[id as int];
                    let a = fc.arg_count as nat;
                    if stack.len() < a {
                        StepRes::Fail(VmError::StackUnderflow)
                    } else {
                        let newstack = stack.take((stack.len() - a) as int);
                        let locals = Seq::new(
                            (fc.arg_count + fc.local_count) as nat,
                            |i: int|
                                if i < a {
                                    stack[stack.len() - 1 - i]
                                } else {
                                    0i32
                                },
                        );
                        let nf = FrameSnap {
                            id,
                            locals,
                            return_addr: newstack.len(),
                            bytecode: fc.body,
                            pc: 0,
                            globals_frame: false,
                        };
                        StepRes::Good(
                            StepGood {
                                st: StepState {
                                    frame: frame_at(f, (pc + 5) as nat),
                                    op_stack: newstack,
                                    ..st
                                },
                                eff: EffSnap::Push(nf),
                            },
                        )
                    }
                }
            },
            Instruction::Return => if stack.len() == 0 {
                StepRes::Fail(VmError::StackUnderflow)
            } else {
                let v = stack.last();
                StepRes::Good(
                    StepGood {
                        st: StepState {
                            frame: frame_at(f, (pc + 1) as nat),
                            op_stack: resize_to(stack.drop_last(), f.return_addr).push(v),
                            ..st
                        },
                        eff: EffSnap::Pop,
                    },
                )
            },
            Instruction::Print => if stack.len() == 0 {
                StepRes::Fail(VmError::StackUnderflow)
            } else {
                StepRes::Good(
                    StepGood {
                        st: StepState {
                            frame: frame_at(f, (pc + 1) as nat),
                            op_stack: stack.drop_last(),
                            output: st.output.push(OutSnap::Print(stack.last())),
                            ..st
                        },
                        eff: EffSnap::Cont,
                    },
                )
            },
            Instruction::DumpStack => StepRes::Good(
                StepGood {
                    st: StepState {
                        frame: frame_at(f, (pc + 1) as nat),
                        output: st.output.push(OutSnap::StackDump(stack)),
                        ..st
                    },
                    eff: EffSnap::Cont,
                },
            ),
            Instruction::DumpGlobals => StepRes::Good(
                StepGood {
                    st: StepState {
                        frame: frame_at(f, (pc + 1) as nat),
                        output: st.output.push(OutSnap::GlobalsDump(st.memory)),
                        ..st
                    },
                    eff: EffSnap::Cont,
                },
            ),
        },
    }
}

/// A frame-local run in progress: still running, finished with an effect
/// that changes the call stack, or stopped by a fatal error.  `Done` and
/// `Failed` carry the state at that point and are absorbing.
#[verifier::ext_equal]
pub ghost enum FrameRun {
    Running(StepState),
    Done(StepState, EffSnap),
    Failed(StepState, VmError),
}

/// One iteration of a frame's decode-execute loop: at the end of the
/// bytecode the frame yields (`Pop`); otherwise the instruction at the
/// program counter executes, and any effect other than `Cont` ends the
/// frame-local run.
pub open spec fn frame_advance(rs: FrameRun, funcs: Seq<FuncSnap>) -> FrameRun {
    match rs {
        FrameRun::Running(st) => {
            if st.frame.pc >= st.frame.bytecode.len() {
                FrameRun::Done(st, EffSnap::Pop)
            } else {
                match step_spec(st, funcs) {
                    StepRes::Good(g) => if g.eff == EffSnap::Cont {
                        FrameRun::Running(g.st)
                    } else {
                        FrameRun::Done(g.st, g.eff)
                    },
                    StepRes::Fail(e) => FrameRun::Failed(st, e),
                }
            }
        },
        _ => rs,
    }
}

/// `n` iterations of [`frame_advance`].
pub open spec fn frame_run_n(rs: FrameRun, funcs: Seq<FuncSnap>, n: nat) -> FrameRun
    decreases n,
{
    if n == 0 {
        rs
    } else {
        frame_advance(frame_run_n(rs, funcs, (n - 1) as nat), funcs)
    }
}

/// One operation on the operand stack: a push of a value, or a pop.
#[verifier::ext_equal]
pub ghost enum StackOp {
    Push(i32),
    Pop,
}

/// The stack after a sequence of pushes and pops, or `None` when a pop
/// finds the stack empty (underflow).
pub open spec fn apply_stack_ops(s: Seq<i32>, ops: Seq<StackOp>) -> Option<Seq<i32>>
    decreases ops.len(),
{
    if ops.len() == 0 {
        Some(s)
    } else {
        match ops[0] {
            StackOp::Push(v) => apply_stack_ops(s.push(v), ops.drop_first()),
            StackOp::Pop => if s.len() == 0 {
                None
            } else {
                apply_stack_ops(s.drop_last(), ops.drop_first())
            },
        }
    }
}

/// How many of the operations are pushes.
pub open spec fn count_pushes(ops: Seq<StackOp>) -> nat
    decreases ops.len(),
{
    if ops.len() == 0 {
        0
    } else {
        (if ops[0] is Push {
            1nat
        } else {
            0nat
        }) + count_pushes(ops.drop_first())
    }
}

/// How many of the operations are pops.
pub open spec fn count_pops(ops: Seq<StackOp>) -> nat
    decreases ops.len(),
{
    if ops.len() == 0 {
        0
    } else {
        (if ops[0] is Pop {
            1nat
        } else {
            0nat
        }) + count_pops(ops.drop_first())
    }
}

/// Law: for every sequence of pushes and pops without underflow, the
/// operand-stack depth afterwards is the starting depth plus the number of
/// pushes minus the number of pops.
pub proof fn lemma_stack_depth(s: Seq<i32>, ops: Seq<StackOp>)
    ensures
        match apply_stack_ops(s, ops) {
            Some(t) => t.len() + count_pops(ops) == s.len() + count_pushes(ops),
            None => true,
        },
    decreases ops.len(),
{
    if ops.len() > 0 {
        match ops[0] {
            StackOp::Push(v) => {
                lemma_stack_depth(s.push(v), ops.drop_first());
            },
            StackOp::Pop => {
                if s.len() > 0 {
                    lemma_stack_depth(s.drop_last(), ops.drop_first());
                }
            },
        }
    }
}

/// Law: `CALL` followed by the callee's `RETURN` has the net effect of
/// popping `arg_count` values and pushing one return value: the operand
/// stack depth changes by `1 - arg_count`.
///
/// `st` is a state about to execute a `CALL` with a valid function id and
/// enough arguments; `u` is any later state of the pushed callee frame
/// about to execute `RETURN` with a value available.  The `RETURN`
/// truncates the stack to the marker the `CALL` recorded — the depth after
/// the arguments were popped — and pushes the return value, so callers
/// observe exactly one net value pushed in place of the arguments.
pub proof fn lemma_call_return_net(st: StepState, funcs: Seq<FuncSnap>, u: StepState)
    requires
        st.frame.pc + 5 <= st.frame.bytecode.len(),
        spec_instruction_of(st.frame.bytecode[st.frame.pc as int]) == Some(Instruction::Call),
        (spec_be32_at(st.frame.bytecode, st.frame.pc as int + 1) as nat) < funcs.len(),
        (funcs[spec_be32_at(st.frame.bytecode, st.frame.pc as int + 1) as int].arg_count as nat)
            <= st.op_stack.len(),
        u.frame.pc < u.frame.bytecode.len(),
        spec_instruction_of(u.frame.bytecode[u.frame.pc as int]) == Some(Instruction::Return),
        u.op_stack.len() > 0,
        match step_spec(st, funcs) {
            StepRes::Good(g) => match g.eff {
                EffSnap::Push(nf) => u.frame.return_addr == nf.return_addr,
                _ => false,
            },
            _ => false,
        },
    ensures
        match step_spec(u, funcs) {
            StepRes::Good(h) => {
                &&& h.eff == EffSnap::Pop
                &&& h.st.op_stack.len() + (funcs[spec_be32_at(
                    st.frame.bytecode,
                    st.frame.pc as int + 1,
                ) as int].arg_count as nat) == st.op_stack.len() + 1
            },
            _ => false,
        },
{
    assert(resize_to(u.op_stack.drop_last(), u.frame.return_addr).len() == u.frame.return_addr);
}

/// Law: an unconditional `RELJUMP` with immediate `k >= 2` (and in the
/// forward range) advances the program counter by `k - 1` bytes past the
/// position immediately after the 4-byte immediate; with the target inside
/// the bytecode the interpreter then decodes the opcode at that address.
pub proof fn lemma_reljump_forward(st: StepState, funcs: Seq<FuncSnap>, k: u32)
    requires
        st.frame.pc + 5 <= st.frame.bytecode.len(),
        spec_instruction_of(st.frame.bytecode[st.frame.pc as int]) == Some(Instruction::RelJump),
        k == spec_be32_at(st.frame.bytecode, st.frame.pc as int + 1),
        2 <= k <= 0x8000_0000,
        st.frame.pc + 5 + (k - 1) < st.frame.bytecode.len(),
    ensures
        match step_spec(st, funcs) {
            StepRes::Good(g) => {
                &&& g.eff == EffSnap::Cont
                &&& g.st.frame.pc == st.frame.pc + 5 + (k - 1)
                &&& g.st.frame.pc < g.st.frame.bytecode.len()
                &&& g.st.frame.bytecode == st.frame.bytecode
                &&& g.st.op_stack == st.op_stack
                &&& g.st.output == st.output
            },
            _ => false,
        },
{
}

/// Law: for all `i32` values `l` and `r` with `r != 0`, adding `r` to `l`
/// and then subtracting `r` from the result gives back `l` under
/// two's-complement wrap-around.
pub proof fn lemma_add_sub_wrap(l: i32, r: i32)
    requires
        r != 0,
    ensures
        binop_val(Instruction::Sub, binop_val(Instruction::Add, l, r), r) == l,
{
}

/// Appending an event to the log appends its view to the log's view.
proof fn lemma_out_push(out: Seq<OutEvent>, e: OutEvent)
    ensures
        out_views(out.push(e)) == out_views(out).push(e@),
{
    assert(out_views(out.push(e)) =~= out_views(out).push(e@));
}

/// The `i32` whose bit pattern is `x`, as executable code.
fn to_i32(x: u32) -> (r: i32)
    ensures
        r == u32_as_i32(x),
{
    proof {
        assert(x as i32 == u32_as_i32(x)) by (bit_vector);
    }
    #[verifier::truncate] (x as i32)
}

/// The low five bits of `r`, as executable code.
fn shift_amount(r: i32) -> (s: u32)
    ensures
        s == shamt(r),
        s < 32,
{
    proof {
        assert(0 <= (r & 31) < 32) by (bit_vector);
    }
    (r & 31) as u32
}

impl StackFrame {
    /// Read the big-endian 32-bit word at the frame's program counter and
    /// advance the counter past it.
    pub fn get_next_4_bytes(&mut self) -> (val: u32)
        requires
            old(self)@.pc + 4 <= old(self)@.bytecode.len(),
        ensures
            val == spec_be32_at(old(self)@.bytecode, old(self)@.pc as int),
            final(self)@ == (FrameSnap { pc: (old(self)@.pc + 4) as nat, ..old(self)@ }),
    {
        let n = self.bytecode.len();
        let i = self.bc_counter;
        proof {
            assert(i + 4 <= n);
        }
        let val = (self.bytecode[i] as u32) * 0x100_0000 + (self.bytecode[i + 1] as u32)
            * 0x1_0000 + (self.bytecode[i + 2] as u32) * 0x100 + (self.bytecode[i + 3] as u32);
        self.bc_counter = i + 4;
        val
    }

    /// The immediate operand: the big-endian word just past the opcode at
    /// the frame's program counter.
    fn imm32(&self) -> (val: u32)
        requires
            self@.pc + 5 <= self@.bytecode.len(),
        ensures
            val == spec_be32_at(self@.bytecode, self@.pc as int + 1),
    {
        let n = self.bytecode.len();
        proof {
            assert(self.bc_counter + 5 <= n);
        }
        let i = self.bc_counter + 1;
        (self.bytecode[i] as u32) * 0x100_0000 + (self.bytecode[i + 1] as u32) * 0x1_0000 + (
        self.bytecode[i + 2] as u32) * 0x100 + (self.bytecode[i + 3] as u32)
    }

    /// Move the program counter as a relative jump with immediate `imm`
    /// demands: to [`reljump_pc`] of the current position.
    fn apply_reljump(&mut self, imm: u32)
        requires
            old(self)@.pc + 5 <= old(self)@.bytecode.len(),
        ensures
            final(self)@ == (FrameSnap {
                pc: reljump_pc(old(self)@.pc, old(self)@.bytecode.len(), imm),
                ..old(self)@
            }),
    {
        let n = self.bytecode.len();
        let base = self.bc_counter + 5;
        if imm == 0 {
            self.bc_counter = base;
        } else if imm <= 0x8000_0000u32 {
            let delta = (imm - 1) as usize;
            match base.checked_add(delta) {
                Some(t) => {
                    self.bc_counter = if t > n {
                        n
                    } else {
                        t
                    };
                },
                None => {
                    self.bc_counter = n;
                },
            }
        } else {
            let back = (0xFFFF_FFFFu32 - imm) as usize + 2;
            if back <= base {
                self.bc_counter = base - back;
            } else {
                self.bc_counter = base;
            }
        }
    }

    /// Run this frame's decode-execute loop until an outcome that changes
    /// the call stack: a `CALL` pushes a frame, `RETURN` or the end of the
    /// bytecode pops this one, `HALT` stops execution, and a fatal error
    /// aborts it.  Every executed instruction (and the final yield) costs
    /// one unit of `fuel`; when the budget runs out while the frame is
    /// still running, `Cont` is returned with the fuel at zero.
    ///
    /// The result is a finite iteration of [`frame_advance`] from the
    /// state at entry: some `k` steps reach exactly the state at exit with
    /// the returned effect or error.  The interpreter's header, constant
    /// table and program bytecode never change.
    pub fn dispatch(&mut self, inpr: &mut Interpreter, debug: bool, fuel: &mut u64) -> (r: Result<
        StepEffect,
        VmError,
    >)
        ensures
            final(inpr)@.header == old(inpr)@.header,
            final(inpr)@.consts == old(inpr)@.consts,
            final(inpr)@.prog_bytecode == old(inpr)@.prog_bytecode,
            *final(fuel) <= *old(fuel),
            *old(fuel) > 0 ==> *final(fuel) < *old(fuel),
            match r {
                Ok(eff) => {
                    &&& (eff@ == EffSnap::Cont ==> *final(fuel) == 0 && frame_run_n(
                        FrameRun::Running(step_state_of(old(self)@, old(inpr)@)),
                        old(inpr)@.consts.funcs,
                        *old(fuel) as nat,
                    ) == FrameRun::Running(step_state_of(final(self)@, final(inpr)@)))
                    &&& (eff@ != EffSnap::Cont ==> {
                        let k = (*old(fuel) - *final(fuel)) as nat;
                        &&& k > 0
                        &&& frame_run_n(
                            FrameRun::Running(step_state_of(old(self)@, old(inpr)@)),
                            old(inpr)@.consts.funcs,
                            (k - 1) as nat,
                        ) is Running
                        &&& frame_run_n(
                            FrameRun::Running(step_state_of(old(self)@, old(inpr)@)),
                            old(inpr)@.consts.funcs,
                            k,
                        ) == FrameRun::Done(step_state_of(final(self)@, final(inpr)@), eff@)
                    })
                },
                Err(e) => {
                    let k = (*old(fuel) - *final(fuel)) as nat;
                    &&& k > 0
                    &&& frame_run_n(
                        FrameRun::Running(step_state_of(old(self)@, old(inpr)@)),
                        old(inpr)@.consts.funcs,
                        (k - 1) as nat,
                    ) is Running
                    &&& frame_run_n(
                        FrameRun::Running(step_state_of(old(self)@, old(inpr)@)),
                        old(inpr)@.consts.funcs,
                        k,
                    ) == FrameRun::Failed(step_state_of(final(self)@, final(inpr)@), e)
                },
            },
    {
        let ghost start: FrameRun = FrameRun::Running(step_state_of(self@, inpr@));
        let ghost funcs: Seq<FuncSnap> = inpr@.consts.funcs;
        let ghost fuel0: u64 = *fuel;
        let ghost mut steps: nat = 0;
        while *fuel > 0
            invariant
                fuel0 == *old(fuel),
                steps + *fuel == fuel0,
                frame_run_n(start, funcs, steps) == FrameRun::Running(
                    step_state_of(self@, inpr@),
                ),
                start == FrameRun::Running(step_state_of(old(self)@, old(inpr)@)),
                funcs == old(inpr)@.consts.funcs,
                inpr@.consts == old(inpr)@.consts,
                inpr@.header == old(inpr)@.header,
                inpr@.prog_bytecode == old(inpr)@.prog_bytecode,
            decreases *fuel,
        {
            *fuel = *fuel - 1;
            if self.bc_counter >= self.bytecode.len() {
                proof {
                    steps = steps + 1;
                    assert(frame_run_n(start, funcs, steps) == FrameRun::Done(
                        step_state_of(self@, inpr@),
                        EffSnap::Pop,
                    ));
                }
                return Ok(StepEffect::Pop);
            }
            let res = self.step(inpr);
            proof {
                steps = steps + 1;
            }
            match res {
                Ok(StepEffect::Cont) => {},
                Ok(StepEffect::Push(frame)) => {
                    proof {
                        assert(frame_run_n(start, funcs, steps) == FrameRun::Done(
                            step_state_of(self@, inpr@),
                            EffSnap::Push(frame@),
                        ));
                    }
                    return Ok(StepEffect::Push(frame));
                },
                Ok(StepEffect::Pop) => {
                    proof {
                        assert(frame_run_n(start, funcs, steps) == FrameRun::Done(
                            step_state_of(self@, inpr@),
                            EffSnap::Pop,
                        ));
                    }
                    return Ok(StepEffect::Pop);
                },
                Ok(StepEffect::Halt) => {
                    proof {
                        assert(frame_run_n(start, funcs, steps) == FrameRun::Done(
                            step_state_of(self@, inpr@),
                            EffSnap::Halt,
                        ));
                    }
                    return Ok(StepEffect::Halt);
                },
                Err(e) => {
                    proof {
                        assert(frame_run_n(start, funcs, steps) == FrameRun::Failed(
                            step_state_of(self@, inpr@),
                            e,
                        ));
                    }
                    return Err(e);
                },
            }
        }
        Ok(StepEffect::Cont)
    }

    /// Execute the single instruction at the frame's program counter.
    ///
    /// The state afterwards, the requested effect, and every fatal error
    /// are exactly those of [`step_spec`] on the state beforehand; on an
    /// error nothing is modified.  The interpreter's header, constant
    /// table and program bytecode never change.
    pub fn step(&mut self, inpr: &mut Interpreter) -> (r: Result<StepEffect, VmError>)
        requires
            old(self)@.pc < old(self)@.bytecode.len(),
        ensures
            final(inpr)@.header == old(inpr)@.header,
            final(inpr)@.consts == old(inpr)@.consts,
            final(inpr)@.prog_bytecode == old(inpr)@.prog_bytecode,
            match r {
                Ok(eff) => step_spec(
                    step_state_of(old(self)@, old(inpr)@),
                    old(inpr)@.consts.funcs,
                ) == StepRes::Good(
                    StepGood { st: step_state_of(final(self)@, final(inpr)@), eff: eff@ },
                ),
                Err(e) => step_spec(
                    step_state_of(old(self)@, old(inpr)@),
                    old(inpr)@.consts.funcs,
                ) == StepRes::Fail(e) && final(self)@ == old(self)@ && final(inpr)@
                    == old(inpr)@,
            },
    {
        let n = self.bytecode.len();
        proof {
            assert(self.bc_counter < n);
        }
        let op = self.bytecode[self.bc_counter];
        let instr_opt = Instruction::from_u8(op);
        let instr = match instr_opt {
            None => {
                self.bc_counter += 1;
                return Ok(StepEffect::Cont);
            },
            Some(i) => i,
        };
        match instr {
            Instruction::Nop => {
                self.bc_counter += 1;
                Ok(StepEffect::Cont)
            },
            Instruction::Halt => {
                proof {
                    lemma_out_push(inpr.output@, OutEvent::Halted);
                }
                inpr.output.push(OutEvent::Halted);
                self.bc_counter += 1;
                Ok(StepEffect::Halt)
            },
            Instruction::IConst => {
                if self.bytecode.len() - self.bc_counter < 5 {
                    return Ok(StepEffect::Pop);
                }
                let imm = self.imm32();
                let v = to_i32(imm);
                inpr.op_stack.push(v);
                self.bc_counter += 5;
                Ok(StepEffect::Cont)
            },
            Instruction::Pop => {
                if inpr.op_stack.len() > 0 {
                    let _ = inpr.op_stack.pop();
                }
                self.bc_counter += 1;
                Ok(StepEffect::Cont)
            },
            Instruction::Add | Instruction::Sub | Instruction::Multiply | Instruction::Divide
                | Instruction::Modulus | Instruction::Shl | Instruction::Shr | Instruction::And
                | Instruction::Or => {
                if inpr.op_stack.len() < 2 {
                    return Err(VmError::StackUnderflow);
                }
                let l = inpr.op_stack[inpr.op_stack.len() - 1];
                let r = inpr.op_stack[inpr.op_stack.len() - 2];
                let val = match instr {
                    Instruction::Add => l.wrapping_add(r),
                    Instruction::Sub => l.wrapping_sub(r),
                    Instruction::Multiply => l.wrapping_mul(r),
                    Instruction::Divide => {
                        if r == 0 {
                            return Err(VmError::DivisionByZero);
                        }
                        match l.checked_div(r) {
                            Some(v) => v,
                            None => i32::MIN,
                        }
                    },
                    Instruction::Modulus => {
                        if r == 0 {
                            return Err(VmError::DivisionByZero);
                        }
                        match l.checked_rem(r) {
                            Some(v) => v,
                            None => 0,
                        }
                    },
                    Instruction::Shl => l.wrapping_shl(shift_amount(r)),
                    Instruction::Shr => l.wrapping_shr(shift_amount(r)),
                    Instruction::And => l & r,
                    Instruction::Or => l | r,
                    _ => 0,
                };
                let _ = inpr.op_stack.pop();
                let _ = inpr.op_stack.pop();
                inpr.op_stack.push(val);
                self.bc_counter += 1;
                Ok(StepEffect::Cont)
            },
            Instruction::Not => {
                if inpr.op_stack.len() == 0 {
                    return Err(VmError::StackUnderflow);
                }
                let v = inpr.op_stack.pop().unwrap();
                inpr.op_stack.push(!v);
                self.bc_counter += 1;
                Ok(StepEffect::Cont)
            },
            Instruction::Comp | Instruction::CompLt | Instruction::CompEq | Instruction::CompGt
                => {
                if inpr.op_stack.len() < 2 {
                    return Err(VmError::StackUnderflow);
                }
                let a = inpr.op_stack[inpr.op_stack.len() - 1];
                let b = inpr.op_stack[inpr.op_stack.len() - 2];
                let val = match instr {
                    Instruction::Comp => {
                        if a > b {
                            1
                        } else if a < b {
                            -1
                        } else {
                            0
                        }
                    },
                    Instruction::CompLt => {
                        if a < b {
                            1
                        } else {
                            0
                        }
                    },
                    Instruction::CompEq => {
                        if a == b {
                            1
                        } else {
                            0
                        }
                    },
                    Instruction::CompGt => {
                        if a > b {
                            1
                        } else {
                            0
                        }
                    },
                    _ => 0,
                };
                let _ = inpr.op_stack.pop();
                let _ = inpr.op_stack.pop();
                inpr.op_stack.push(val);
                self.bc_counter += 1;
                Ok(StepEffect::Cont)
            },
            Instruction::RelJump => {
                if self.bytecode.len() - self.bc_counter < 5 {
                    return Ok(StepEffect::Pop);
                }
                let imm = self.imm32();
                self.apply_reljump(imm);
                Ok(StepEffect::Cont)
            },
            Instruction::RelJumpLt | Instruction::RelJumpEq | Instruction::RelJumpGt => {
                if self.bytecode.len() - self.bc_counter < 5 {
                    return Ok(StepEffect::Pop);
                }
                if inpr.op_stack.len() == 0 {
                    return Err(VmError::StackUnderflow);
                }
                let imm = self.imm32();
                let t = inpr.op_stack.pop().unwrap();
                let take_branch = match instr {
                    Instruction::RelJumpLt => t < 0,
                    Instruction::RelJumpEq => t == 0,
                    Instruction::RelJumpGt => t > 0,
                    _ => false,
                };
                if take_branch {
                    self.apply_reljump(imm);
                } else {
                    self.bc_counter += 5;
                }
                Ok(StepEffect::Cont)
            },
            Instruction::Store => {
                if self.bytecode.len() - self.bc_counter < 5 {
                    return Ok(StepEffect::Pop);
                }
                let idx = self.imm32() as usize;
                if inpr.op_stack.len() == 0 {
                    return Err(VmError::StackUnderflow);
                }
                if self.globals_frame {
                    if idx >= inpr.memory.len() {
                        return Err(VmError::BadGlobalIndex);
                    }
                    let v = inpr.op_stack.pop().unwrap();
                    inpr.memory.set(idx, v);
                } else {
                    if idx >= self.locals.len() {
                        return Err(VmError::BadLocalIndex);
                    }
                    let v = inpr.op_stack.pop().unwrap();
                    self.locals.set(idx, v);
                }
                self.bc_counter += 5;
                Ok(StepEffect::Cont)
            },
            Instruction::Load => {
                if self.bytecode.len() - self.bc_counter < 5 {
                    return Ok(StepEffect::Pop);
                }
                let idx = self.imm32() as usize;
                let v = if self.globals_frame {
                    if idx >= inpr.memory.len() {
                        return Err(VmError::BadGlobalIndex);
                    }
                    inpr.memory[idx]
                } else {
                    if idx >= self.locals.len() {
                        return Err(VmError::BadLocalIndex);
                    }
                    self.locals[idx]
                };
                inpr.op_stack.push(v);
                self.bc_counter += 5;
                Ok(StepEffect::Cont)
            },
            Instruction::Call => {
                if self.bytecode.len() - self.bc_counter < 5 {
                    return Ok(StepEffect::Pop);
                }
                let id = self.imm32();
                let idu = id as usize;
                if idu >= inpr.const_table.funcs.len() {
                    return Err(VmError::BadFunctionId);
                }
                let arg_count = inpr.const_table.funcs[idu].arg_count;
                let local_count = inpr.const_table.funcs[idu].local_count;
                let a = arg_count as usize;
                if inpr.op_stack.len() < a {
                    return Err(VmError::StackUnderflow);
                }
                let body = inpr.const_table.funcs[idu].body.clone();
                proof {
                    assert(body@ =~= old(inpr)@.consts.funcs[id as int].body);
                }
                let ghost stack0: Seq<i32> = inpr.op_stack@;
                let ghost inpr0: InterpSnap = inpr@;
                let mut locals: Vec<i32> = Vec::new();
                let mut i: usize = 0;
                while i < a
                    invariant
                        i <= a,
                        a <= stack0.len(),
                        inpr.op_stack@ == stack0.take((stack0.len() - i) as int),
                        locals@.len() == i,
                        forall|j: int| 0 <= j < i ==> locals@[j] == stack0[stack0.len() - 1 - j],
                        inpr@.memory == inpr0.memory,
                        inpr@.output == inpr0.output,
                        inpr@.consts == inpr0.consts,
                        inpr@.header == inpr0.header,
                        inpr@.prog_bytecode == inpr0.prog_bytecode,
                    decreases a - i,
                {
                    let v = inpr.op_stack.pop().unwrap();
                    locals.push(v);
                    i += 1;
                }
                let total: u64 = arg_count as u64 + local_count as u64;
                while (locals.len() as u64) < total
                    invariant
                        locals@.len() >= a,
                        locals@.len() <= total,
                        forall|j: int| 0 <= j < a ==> locals@[j] == stack0[stack0.len() - 1 - j],
                        forall|j: int| a <= j < locals@.len() ==> locals@[j] == 0i32,
                    decreases total - locals@.len(),
                {
                    locals.push(0);
                }
                let return_addr = inpr.op_stack.len();
                let frame = StackFrame {
                    id,
                    locals,
                    return_addr,
                    bytecode: body,
                    bc_counter: 0,
                    globals_frame: false,
                };
                self.bc_counter += 5;
                proof {
                    let fc = old(inpr)@.consts.funcs[id as int];
                    assert(frame@.locals =~= Seq::new(
                        (fc.arg_count + fc.local_count) as nat,
                        |j: int|
                            if j < fc.arg_count as nat {
                                stack0[stack0.len() - 1 - j]
                            } else {
                                0i32
                            },
                    ));
                }
                Ok(StepEffect::Push(frame))
            },
            Instruction::Return => {
                if inpr.op_stack.len() == 0 {
                    return Err(VmError::StackUnderflow);
                }
                let val = inpr.op_stack.pop().unwrap();
                let ghost popped: Seq<i32> = inpr.op_stack@;
                inpr.op_stack.resize(self.return_addr, 0);
                proof {
                    assert(inpr.op_stack@ =~= resize_to(popped, self.return_addr as nat));
                }
                inpr.op_stack.push(val);
                self.bc_counter += 1;
                Ok(StepEffect::Pop)
            },
            Instruction::Print => {
                if inpr.op_stack.len() == 0 {
                    return Err(VmError::StackUnderflow);
                }
                let val = inpr.op_stack.pop().unwrap();
                proof {
                    lemma_out_push(inpr.output@, OutEvent::Print(val));
                }
                inpr.output.push(OutEvent::Print(val));
                self.bc_counter += 1;
                Ok(StepEffect::Cont)
            },
            Instruction::DumpStack => {
                let snap = inpr.op_stack.clone();
                proof {
                    assert(snap@ =~= inpr.op_stack@);
                    lemma_out_push(inpr.output@, OutEvent::StackDump(snap));
                }
                inpr.output.push(OutEvent::StackDump(snap));
                self.bc_counter += 1;
                Ok(StepEffect::Cont)
            },
            Instruction::DumpGlobals => {
                let snap = inpr.memory.clone();
                proof {
                    assert(snap@ =~= inpr.memory@);
                    lemma_out_push(inpr.output@, OutEvent::GlobalsDump(snap));
                }
                inpr.output.push(OutEvent::GlobalsDump(snap));
                self.bc_counter += 1;
                Ok(StepEffect::Cont)
            },
        }
    }
}

} // verus!
