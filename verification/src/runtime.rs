//! The runtime: owns the interpreter state and the call stack and drives
//! the evaluator loop, pushing a frame on `CALL` and popping one on
//! `RETURN` or at the end of a frame's bytecode.
//!
//! The whole-machine semantics is the iterated [`vm_advance`]: one advance
//! executes one instruction of the topmost frame (or pops a frame whose
//! bytecode ended) and applies its effect to the call stack.  [`Runtime::run`]
//! is proved to land exactly on a state this iteration reaches.

use vstd::prelude::*;

use crate::error::VmError;
use crate::constants::FuncSnap;
use crate::interpreter::{
    frame_advance, frame_run_n, load_fails_with, loaded_from, step_spec, step_state_of, EffSnap,
    FrameRun, FrameSnap, Interpreter, OutSnap, StackFrame, StepEffect, StepRes, StepState,
};
use crate::raptor_object::RaptorObject;
use crate::Options;

verus! {

/// The views of a call stack of frames.
pub open spec fn frame_views(frames: Seq<StackFrame>) -> Seq<FrameSnap> {
    frames.map_values(|f: StackFrame| f@)
}

/// The whole machine state: the call stack (topmost frame last) and the
/// shared operand stack, globals and output log.
#[verifier::ext_equal]
pub ghost struct VmState {
    pub frames: Seq<FrameSnap>,
    pub op_stack: Seq<i32>,
    pub memory: Seq<i32>,
    pub output: Seq<OutSnap>,
}

/// A machine run: still going, finished by emptying the call stack,
/// stopped by `HALT`, or crashed on a fatal error.  The last three are
/// absorbing.
#[verifier::ext_equal]
pub ghost enum VmRun {
    Going(VmState),
    Finished(VmState),
    Stopped(VmState),
    Crashed(VmState, VmError),
}

/// The machine state with `st` as the topmost frame over the frames in
/// `rest`.
pub open spec fn lift_state(st: StepState, rest: Seq<FrameSnap>) -> VmState {
    VmState {
        frames: rest.push(st.frame),
        op_stack: st.op_stack,
        memory: st.memory,
        output: st.output,
    }
}

/// One advance of the whole machine: with an empty call stack the run is
/// finished; a topmost frame at the end of its bytecode is popped;
/// otherwise its next instruction executes and the effect is applied to
/// the call stack.
pub open spec fn vm_advance(rs: VmRun, funcs: Seq<FuncSnap>) -> VmRun {
    match rs {
        VmRun::Going(v) => {
            if v.frames.len() == 0 {
                VmRun::Finished(v)
            } else {
                let f = v.frames.last();
                let st = StepState {
                    frame: f,
                    op_stack: v.op_stack,
                    memory: v.memory,
                    output: v.output,
                };
                if f.pc >= f.bytecode.len() {
                    VmRun::Going(VmState { frames: v.frames.drop_last(), ..v })
                } else {
                    match step_spec(st, funcs) {
                        StepRes::Good(g) => match g.eff {
                            EffSnap::Cont => VmRun::Going(lift_state(g.st, v.frames.drop_last())),
                            EffSnap::Push(nf) => VmRun::Going(
                                VmState {
                                    frames: v.frames.drop_last().push(g.st.frame).push(nf),
                                    op_stack: g.st.op_stack,
                                    memory: g.st.memory,
                                    output: g.st.output,
                                },
                            ),
                            EffSnap::Pop => VmRun::Going(
                                VmState {
                                    frames: v.frames.drop_last(),
                                    op_stack: g.st.op_stack,
                                    memory: g.st.memory,
                                    output: g.st.output,
                                },
                            ),
                            EffSnap::Halt => VmRun::Stopped(
                                lift_state(g.st, v.frames.drop_last()),
                            ),
                        },
                        StepRes::Fail(e) => VmRun::Crashed(v, e),
                    }
                }
            }
        },
        _ => rs,
    }
}

/// `n` advances of the whole machine.
pub open spec fn vm_run_n(rs: VmRun, funcs: Seq<FuncSnap>, n: nat) -> VmRun
    decreases n,
{
    if n == 0 {
        rs
    } else {
        vm_advance(vm_run_n(rs, funcs, (n - 1) as nat), funcs)
    }
}

/// The machine state after a frame-local run ended with effect `eff` in
/// state `fst`, over the frames in `rest`: a `CALL` pushes the new frame,
/// a pop drops the topmost frame, `HALT` stops the machine.
pub open spec fn apply_done(fst: StepState, eff: EffSnap, rest: Seq<FrameSnap>) -> VmRun {
    match eff {
        EffSnap::Cont => VmRun::Going(lift_state(fst, rest)),
        EffSnap::Push(nf) => VmRun::Going(
            VmState {
                frames: rest.push(fst.frame).push(nf),
                op_stack: fst.op_stack,
                memory: fst.memory,
                output: fst.output,
            },
        ),
        EffSnap::Pop => VmRun::Going(
            VmState { frames: rest, op_stack: fst.op_stack, memory: fst.memory, output: fst.output },
        ),
        EffSnap::Halt => VmRun::Stopped(lift_state(fst, rest)),
    }
}

/// Iterating advances composes: `m + k` advances are `k` advances after
/// `m`.
proof fn lemma_vm_run_add(rs: VmRun, funcs: Seq<FuncSnap>, m: nat, k: nat)
    ensures
        vm_run_n(rs, funcs, (m + k) as nat) == vm_run_n(vm_run_n(rs, funcs, m), funcs, k),
    decreases k,
{
    if k > 0 {
        lemma_vm_run_add(rs, funcs, m, (k - 1) as nat);
    }
}

/// A frame-local run that is still running corresponds, advance for
/// advance, to the whole machine running with that frame on top.
proof fn lemma_lift_running(start: StepState, funcs: Seq<FuncSnap>, rest: Seq<FrameSnap>, n: nat)
    requires
        frame_run_n(FrameRun::Running(start), funcs, n) is Running,
    ensures
        vm_run_n(VmRun::Going(lift_state(start, rest)), funcs, n) == VmRun::Going(
            lift_state(frame_run_n(FrameRun::Running(start), funcs, n)->Running_0, rest),
        ),
    decreases n,
{
    if n > 0 {
        let prev = frame_run_n(FrameRun::Running(start), funcs, (n - 1) as nat);
        match prev {
            FrameRun::Running(pre) => {
                lemma_lift_running(start, funcs, rest, (n - 1) as nat);
                let v = lift_state(pre, rest);
                assert(v.frames.drop_last() =~= rest);
                assert(StepState {
                    frame: v.frames.last(),
                    op_stack: v.op_stack,
                    memory: v.memory,
                    output: v.output,
                } =~= pre);
            },
            _ => {
                assert(frame_advance(prev, funcs) == prev);
            },
        }
    }
}

/// A frame-local run that first ends with a call-stack effect after `k`
/// advances corresponds, advance for advance, to the whole machine
/// reaching that effect applied after the same `k`.
proof fn lemma_lift_done(
    start: StepState,
    funcs: Seq<FuncSnap>,
    rest: Seq<FrameSnap>,
    k: nat,
    fst: StepState,
    eff: EffSnap,
)
    requires
        k > 0,
        frame_run_n(FrameRun::Running(start), funcs, (k - 1) as nat) is Running,
        frame_run_n(FrameRun::Running(start), funcs, k) == FrameRun::Done(fst, eff),
    ensures
        vm_run_n(VmRun::Going(lift_state(start, rest)), funcs, k) == apply_done(fst, eff, rest),
{
    let pre = frame_run_n(FrameRun::Running(start), funcs, (k - 1) as nat)->Running_0;
    lemma_lift_running(start, funcs, rest, (k - 1) as nat);
    let v = lift_state(pre, rest);
    assert(v.frames.drop_last() =~= rest);
    assert(StepState {
        frame: v.frames.last(),
        op_stack: v.op_stack,
        memory: v.memory,
        output: v.output,
    } =~= pre);
}

/// A frame-local run that first fails after `k` advances corresponds to
/// the whole machine crashing with the same error in the same state after
/// the same `k`.
proof fn lemma_lift_failed(
    start: StepState,
    funcs: Seq<FuncSnap>,
    rest: Seq<FrameSnap>,
    k: nat,
    fst: StepState,
    e: VmError,
)
    requires
        k > 0,
        frame_run_n(FrameRun::Running(start), funcs, (k - 1) as nat) is Running,
        frame_run_n(FrameRun::Running(start), funcs, k) == FrameRun::Failed(fst, e),
    ensures
        vm_run_n(VmRun::Going(lift_state(start, rest)), funcs, k) == VmRun::Crashed(
            lift_state(fst, rest),
            e,
        ),
{
    let pre = frame_run_n(FrameRun::Running(start), funcs, (k - 1) as nat)->Running_0;
    lemma_lift_running(start, funcs, rest, (k - 1) as nat);
    let v = lift_state(pre, rest);
    assert(v.frames.drop_last() =~= rest);
    assert(StepState {
        frame: v.frames.last(),
        op_stack: v.op_stack,
        memory: v.memory,
        output: v.output,
    } =~= pre);
    assert(pre == fst);
}

/// How a run ended: the program frame's bytecode was exhausted, `HALT`
/// stopped it, or the instruction budget ran out first.
#[derive(Clone, Copy, Debug, PartialEq, Eq, Structural)]
pub enum RunOutcome {
    /// The call stack emptied: the top-level program ran to its end.
    Completed,
    /// A `HALT` instruction stopped execution.
    Halted,
    /// The fuel budget was exhausted while the machine was still running.
    OutOfFuel,
}

/// The runtime: the interpreter state, the call stack, the options it was
/// started with, and the heap scaffolding.
#[derive(Debug)]
pub struct Runtime {
    pub interpreter: Interpreter,
    pub call_stack: Vec<StackFrame>,
    pub options: Options,
    pub memory: Vec<RaptorObject>,
}

impl Runtime {
    /// The whole machine state this runtime holds.
    pub open spec fn vm_state(&self) -> VmState {
        VmState {
            frames: frame_views(self.call_stack@),
            op_stack: self.interpreter@.op_stack,
            memory: self.interpreter@.memory,
            output: self.interpreter@.output,
        }
    }

    /// Load the artifact bytes and push the initial frame: the top-level
    /// program bytecode with the program counter at 0, no locals, a return
    /// marker of 0, and `STORE`/`LOAD` addressing the globals.
    pub fn new(data: Vec<u8>, options: Options) -> (r: Result<Runtime, VmError>)
        ensures
            match r {
                Ok(rt) => {
                    &&& loaded_from(rt.interpreter@, data@)
                    &&& rt.call_stack@.len() == 1
                    &&& rt.call_stack@[0]@ == (FrameSnap {
                        id: 0,
                        locals: Seq::empty(),
                        return_addr: 0,
                        bytecode: rt.interpreter@.prog_bytecode,
                        pc: 0,
                        globals_frame: true,
                    })
                },
                Err(e) => load_fails_with(data@, e),
            },
    {
        let debug = options.debug;
        let interpreter = match Interpreter::new(data, debug) {
            Ok(i) => i,
            Err(e) => {
                return Err(e);
            },
        };
        let prog_bc = interpreter.prog_bytecode.clone();
        proof {
            assert(prog_bc@ =~= interpreter@.prog_bytecode);
        }
        let mut memory: Vec<RaptorObject> = Vec::new();
        memory.push(RaptorObject::new());
        let mut r = Runtime { interpreter, call_stack: Vec::new(), options, memory };
        r.call_stack.push(
            StackFrame {
                id: 0,
                locals: Vec::new(),
                return_addr: 0,
                bytecode: prog_bc,
                bc_counter: 0,
                globals_frame: true,
            },
        );
        Ok(r)
    }

    /// Drive the evaluator loop for at most `fuel` machine advances:
    /// repeatedly dispatch the topmost frame, push the new frame on a
    /// `CALL`, pop on a `RETURN` or an exhausted frame, and stop on `HALT`,
    /// on an empty call stack, on a fatal error, or when the budget runs
    /// out.
    ///
    /// The state at exit is exactly one that iterating [`vm_advance`] from
    /// the state at entry reaches, ended as the result says: `Completed`
    /// with the call stack empty, `Halted` by `HALT`, `OutOfFuel` still
    /// going, or the error on which the machine crashed.
    pub fn run(&mut self, fuel: u64) -> (r: Result<RunOutcome, VmError>)
        ensures
            final(self).interpreter@.header == old(self).interpreter@.header,
            final(self).interpreter@.consts == old(self).interpreter@.consts,
            final(self).interpreter@.prog_bytecode == old(self).interpreter@.prog_bytecode,
            match r {
                Ok(RunOutcome::Completed) => exists|n: nat|
                    vm_run_n(
                        VmRun::Going(old(self).vm_state()),
                        old(self).interpreter@.consts.funcs,
                        n,
                    ) == VmRun::Finished(final(self).vm_state()),
                Ok(RunOutcome::Halted) => exists|n: nat|
                    vm_run_n(
                        VmRun::Going(old(self).vm_state()),
                        old(self).interpreter@.consts.funcs,
                        n,
                    ) == VmRun::Stopped(final(self).vm_state()),
                Ok(RunOutcome::OutOfFuel) => vm_run_n(
                    VmRun::Going(old(self).vm_state()),
                    old(self).interpreter@.consts.funcs,
                    fuel as nat,
                ) == VmRun::Going(final(self).vm_state()),
                Err(e) => exists|n: nat|
                    vm_run_n(
                        VmRun::Going(old(self).vm_state()),
                        old(self).interpreter@.consts.funcs,
                        n,
                    ) == VmRun::Crashed(final(self).vm_state(), e),
            },
    {
        let debug = self.options.debug;
        let ghost funcs: Seq<FuncSnap> = self.interpreter@.consts.funcs;
        let ghost vm0: VmRun = VmRun::Going(self.vm_state());
        let mut fuel_left: u64 = fuel;
        while fuel_left > 0 && self.call_stack.len() > 0
            invariant
                fuel_left <= fuel,
                vm0 == VmRun::Going(old(self).vm_state()),
                funcs == old(self).interpreter@.consts.funcs,
                self.interpreter@.consts == old(self).interpreter@.consts,
                self.interpreter@.header == old(self).interpreter@.header,
                self.interpreter@.prog_bytecode == old(self).interpreter@.prog_bytecode,
                vm_run_n(vm0, funcs, (fuel - fuel_left) as nat) == VmRun::Going(self.vm_state()),
            decreases fuel_left,
        {
            let ghost vmcur: VmState = self.vm_state();
            let ghost m: nat = (fuel - fuel_left) as nat;
            let ghost fl0: u64 = fuel_left;
            let mut frame = self.call_stack.pop().unwrap();
            let ghost rest: Seq<FrameSnap> = frame_views(self.call_stack@);
            let ghost pre_st: StepState = step_state_of(frame@, self.interpreter@);
            proof {
                assert(frame_views(self.call_stack@).push(frame@) =~= vmcur.frames);
                assert(lift_state(pre_st, rest) =~= vmcur);
            }
            let res = frame.dispatch(&mut self.interpreter, debug, &mut fuel_left);
            let ghost post_st: StepState = step_state_of(frame@, self.interpreter@);
            let ghost k: nat = (fl0 - fuel_left) as nat;
            match res {
                Ok(StepEffect::Cont) => {
                    self.call_stack.push(frame);
                    proof {
                        lemma_lift_running(pre_st, funcs, rest, k);
                        lemma_vm_run_add(vm0, funcs, m, k);
                        assert(frame_views(self.call_stack@) =~= rest.push(post_st.frame));
                        assert(lift_state(post_st, rest) =~= self.vm_state());
                        assert(vm_run_n(vm0, funcs, (m + k) as nat) == VmRun::Going(
                            self.vm_state(),
                        ));
                    }
                },
                Ok(StepEffect::Push(new_frame)) => {
                    let ghost nf: FrameSnap = new_frame@;
                    self.call_stack.push(frame);
                    self.call_stack.push(new_frame);
                    proof {
                        lemma_lift_done(pre_st, funcs, rest, k, post_st, EffSnap::Push(nf));
                        lemma_vm_run_add(vm0, funcs, m, k);
                        assert(frame_views(self.call_stack@) =~= rest.push(post_st.frame).push(
                            nf,
                        ));
                        assert(vm_run_n(vm0, funcs, (m + k) as nat) == VmRun::Going(
                            self.vm_state(),
                        ));
                    }
                },
                Ok(StepEffect::Pop) => {
                    proof {
                        lemma_lift_done(pre_st, funcs, rest, k, post_st, EffSnap::Pop);
                        lemma_vm_run_add(vm0, funcs, m, k);
                        assert(vm_run_n(vm0, funcs, (m + k) as nat) == VmRun::Going(
                            self.vm_state(),
                        ));
                    }
                },
                Ok(StepEffect::Halt) => {
                    self.call_stack.push(frame);
                    proof {
                        lemma_lift_done(pre_st, funcs, rest, k, post_st, EffSnap::Halt);
                        lemma_vm_run_add(vm0, funcs, m, k);
                        assert(frame_views(self.call_stack@) =~= rest.push(post_st.frame));
                        assert(lift_state(post_st, rest) =~= self.vm_state());
                        assert(vm_run_n(vm0, funcs, (m + k) as nat) == VmRun::Stopped(
                            self.vm_state(),
                        ));
                    }
                    return Ok(RunOutcome::Halted);
                },
                Err(e) => {
                    self.call_stack.push(frame);
                    proof {
                        lemma_lift_failed(pre_st, funcs, rest, k, post_st, e);
                        lemma_vm_run_add(vm0, funcs, m, k);
                        assert(frame_views(self.call_stack@) =~= rest.push(post_st.frame));
                        assert(lift_state(post_st, rest) =~= self.vm_state());
                        assert(vm_run_n(vm0, funcs, (m + k) as nat) == VmRun::Crashed(
                            self.vm_state(),
                            e,
                        ));
                    }
                    return Err(e);
                },
            }
        }
        if self.call_stack.len() == 0 {
            proof {
                let ghost m: nat = (fuel - fuel_left) as nat;
                assert(vm_run_n(vm0, funcs, (m + 1) as nat) == VmRun::Finished(self.vm_state()));
            }
            Ok(RunOutcome::Completed)
        } else {
            Ok(RunOutcome::OutOfFuel)
        }
    }
}

} // verus!
