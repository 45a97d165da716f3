//! The constant-pool decoder: materializes function constants from the byte
//! stream that follows the artifact header.
//!
//! The pool is a sequence of entries, each introduced by one opcode byte:
//! `FUNC` (`0xF0`) carries a function constant, `END` (`0xED`) terminates
//! the pool, and any other byte is skipped by one byte only (producers are
//! trusted to emit well-formed streams).  The decoder reports the number of
//! bytes it consumed so the loader can locate the start of the top-level
//! program bytecode.

use vstd::prelude::*;
use vstd::pervasive::VecAdditionalExecFns;
use vstd::slice::{slice_subrange, slice_to_vec};

use crate::error::VmError;
use crate::header::be32;

verus! {

/// One opcode of the constant pool.
#[derive(Clone, Copy, Debug, PartialEq, Eq, Structural)]
pub enum ConstInstr {
    /// `0xF0`: a function constant follows.
    Func,
    /// `0xED`: end of the constant pool.
    End,
}

/// The byte encoding of the constant-pool opcodes.
pub open spec fn spec_const_instr_of(b: u8) -> Option<ConstInstr> {
    match b {
        0xF0u8 => Some(ConstInstr::Func),
        0xEDu8 => Some(ConstInstr::End),
        _ => None,
    }
}

impl ConstInstr {
    /// Decode one constant-pool opcode byte.
    pub fn from_u8(b: u8) -> (r: Option<ConstInstr>)
        ensures
            r == spec_const_instr_of(b),
    {
        match b {
            0xF0u8 => Some(ConstInstr::Func),
            0xEDu8 => Some(ConstInstr::End),
            _ => None,
        }
    }
}

/// A function constant: its name (ASCII bytes, without the terminating
/// null), argument and local counts, and bytecode body.
#[derive(Debug, Clone)]
pub struct FuncConst {
    pub name: Vec<u8>,
    pub arg_count: u32,
    pub local_count: u32,
    pub body: Vec<u8>,
}

/// The mathematical value of a [`FuncConst`].
#[verifier::ext_equal]
pub ghost struct FuncSnap {
    pub name: Seq<u8>,
    pub arg_count: u32,
    pub local_count: u32,
    pub body: Seq<u8>,
}

impl View for FuncConst {
    type V = FuncSnap;

    open spec fn view(&self) -> FuncSnap {
        FuncSnap {
            name: self.name@,
            arg_count: self.arg_count,
            local_count: self.local_count,
            body: self.body@,
        }
    }
}

/// The value a default-initialized constant-table slot holds.
pub open spec fn default_func_snap() -> FuncSnap {
    FuncSnap { name: Seq::empty(), arg_count: 0, local_count: 0, body: Seq::empty() }
}

/// The mathematical value of a [`ConstTable`]: the decoded function
/// constants, indexed by id, and the number of pool bytes consumed.
#[verifier::ext_equal]
pub ghost struct ConstDecode {
    pub funcs: Seq<FuncSnap>,
    pub consumed: nat,
}

/// What decoding a constant pool yields: a table, or a fatal error.
#[verifier::ext_equal]
pub ghost enum DecodeRes {
    Good(ConstDecode),
    Fail(VmError),
}

/// The constant table: function constants indexed by id, and the byte
/// cursor that ends up pointing one past the decoded pool.
#[derive(Debug)]
pub struct ConstTable {
    pub funcs: Vec<FuncConst>,
    pub bc_counter: usize,
}

impl View for ConstTable {
    type V = ConstDecode;

    open spec fn view(&self) -> ConstDecode {
        ConstDecode { funcs: func_views(self.funcs@), consumed: self.bc_counter as nat }
    }
}

/// The views of a sequence of function constants.
pub open spec fn func_views(funcs: Seq<FuncConst>) -> Seq<FuncSnap> {
    funcs.map_values(|f: FuncConst| f@)
}

/// The big-endian 32-bit word at byte offset `pos` of `data`.
pub open spec fn spec_be32_at(data: Seq<u8>, pos: int) -> u32 {
    be32(data[pos], data[pos + 1], data[pos + 2], data[pos + 3])
}

/// Length of the null-terminated string starting at `from`: the number of
/// bytes before the first null byte at or after `from`, or `None` when no
/// null byte follows.
pub open spec fn name_len(data: Seq<u8>, from: nat) -> Option<nat>
    decreases data.len() - from,
{
    if from >= data.len() {
        None
    } else if data[from as int] == 0u8 {
        Some(0nat)
    } else {
        match name_len(data, from + 1) {
            Some(k) => Some((k + 1) as nat),
            None => None,
        }
    }
}

/// Store `f` at index `id`, growing the table with default-initialized
/// slots when `id` lies beyond its current end.
pub open spec fn place_func(funcs: Seq<FuncSnap>, id: nat, f: FuncSnap) -> Seq<FuncSnap> {
    let grown = if id < funcs.len() {
        funcs
    } else {
        funcs + Seq::new((id + 1 - funcs.len()) as nat, |i: int| default_func_snap())
    };
    grown.update(id as int, f)
}

/// The meaning of a constant pool: decoding `data` from byte offset `pos`
/// with the constants in `funcs` already decoded.
///
/// A `FUNC` entry is `0xF0, id:u32, name:cstring, arg_count:u32,
/// local_count:u32, body_length:u32, body`, all words big-endian; running
/// past the end of `data` while operands are expected is fatal.  Decoding
/// stops at `END`, or at the end of `data` when no `END` occurs.
pub open spec fn decode_consts(data: Seq<u8>, pos: nat, funcs: Seq<FuncSnap>) -> DecodeRes
    decreases data.len() - pos,
{
    if pos >= data.len() {
        DecodeRes::Good(ConstDecode { funcs, consumed: pos })
    } else {
        match spec_const_instr_of(data[pos as int]) {
            Some(ConstInstr::End) => DecodeRes::Good(
                ConstDecode { funcs, consumed: (pos + 1) as nat },
            ),
            Some(ConstInstr::Func) => {
                if pos + 5 > data.len() {
                    DecodeRes::Fail(VmError::TruncatedConstants)
                } else {
                    let id = spec_be32_at(data, pos as int + 1);
                    match name_len(data, (pos + 5) as nat) {
                        None => DecodeRes::Fail(VmError::TruncatedConstants),
                        Some(k) => {
                            let p = pos + 5 + k + 1;
                            if p + 12 > data.len() {
                                DecodeRes::Fail(VmError::TruncatedConstants)
                            } else {
                                let arg_count = spec_be32_at(data, p as int);
                                let local_count = spec_be32_at(data, p as int + 4);
                                let body_len = spec_be32_at(data, p as int + 8) as nat;
                                if p + 12 + body_len > data.len() {
                                    DecodeRes::Fail(VmError::TruncatedConstants)
                                } else {
                                    let f = FuncSnap {
                                        name: data.subrange(pos as int + 5, (pos + 5 + k) as int),
                                        arg_count,
                                        local_count,
                                        body: data.subrange(
                                            p as int + 12,
                                            (p + 12 + body_len) as int,
                                        ),
                                    };
                                    decode_consts(
                                        data,
                                        (p + 12 + body_len) as nat,
                                        place_func(funcs, id as nat, f),
                                    )
                                }
                            }
                        },
                    }
                }
            },
            None => decode_consts(data, (pos + 1) as nat, funcs),
        }
    }
}

/// A successful decode consumes a cursor position within the pool's bytes.
pub proof fn lemma_decode_consumed(data: Seq<u8>, pos: nat, funcs: Seq<FuncSnap>)
    requires
        pos <= data.len(),
    ensures
        match decode_consts(data, pos, funcs) {
            DecodeRes::Good(d) => pos <= d.consumed <= data.len(),
            DecodeRes::Fail(_) => true,
        },
    decreases data.len() - pos,
{
    if pos >= data.len() {
    } else {
        match spec_const_instr_of(data[pos as int]) {
            Some(ConstInstr::End) => {},
            Some(ConstInstr::Func) => {
                if pos + 5 > data.len() {
                } else {
                    match name_len(data, (pos + 5) as nat) {
                        None => {},
                        Some(k) => {
                            let p = pos + 5 + k + 1;
                            if p + 12 > data.len() {
                            } else {
                                let body_len = spec_be32_at(data, p as int + 8) as nat;
                                if p + 12 + body_len > data.len() {
                                } else {
                                    let id = spec_be32_at(data, pos as int + 1);
                                    let f = FuncSnap {
                                        name: data.subrange(pos as int + 5, (pos + 5 + k) as int),
                                        arg_count: spec_be32_at(data, p as int),
                                        local_count: spec_be32_at(data, p as int + 4),
                                        body: data.subrange(p as int + 12, (p + 12 + body_len) as int),
                                    };
                                    lemma_decode_consumed(
                                        data,
                                        (p + 12 + body_len) as nat,
                                        place_func(funcs, id as nat, f),
                                    );
                                }
                            }
                        },
                    }
                }
            },
            None => {
                lemma_decode_consumed(data, (pos + 1) as nat, funcs);
            },
        }
    }
}

/// Read the next big-endian 32-bit word at the table's cursor and advance
/// the cursor past it.
pub fn get_next_4_bytes(data: &[u8], const_table: &mut ConstTable) -> (val: u32)
    requires
        old(const_table).bc_counter + 4 <= data@.len(),
    ensures
        val == spec_be32_at(data@, old(const_table).bc_counter as int),
        final(const_table).bc_counter == old(const_table).bc_counter + 4,
        final(const_table).funcs == old(const_table).funcs,
{
    let i = const_table.bc_counter;
    let val = (data[i] as u32) * 0x100_0000 + (data[i + 1] as u32) * 0x1_0000 + (data[i + 2]
        as u32) * 0x100 + (data[i + 3] as u32);
    const_table.bc_counter = i + 4;
    val
}

/// No null byte occurs at or after `from`, so [`name_len`] finds none.
proof fn lemma_name_len_none(data: Seq<u8>, from: nat)
    requires
        forall|j: int| from <= j < data.len() ==> data[j] != 0u8,
    ensures
        name_len(data, from) is None,
    decreases data.len() - from,
{
    if from < data.len() {
        lemma_name_len_none(data, from + 1);
    }
}

/// The first null byte at or after `from` sits at `nl`, so [`name_len`]
/// reports `nl - from` name bytes.
proof fn lemma_name_len_found(data: Seq<u8>, from: nat, nl: nat)
    requires
        from <= nl < data.len(),
        data[nl as int] == 0u8,
        forall|j: int| from <= j < nl ==> data[j] != 0u8,
    ensures
        name_len(data, from) == Some((nl - from) as nat),
    decreases nl - from,
{
    if from < nl {
        lemma_name_len_found(data, from + 1, nl);
    }
}

/// Consume a null-terminated string at the table's cursor: return its bytes
/// (without the null) and advance the cursor past the terminator, or fail
/// with `TruncatedConstants` when no null byte follows.
fn eat_string(data: &[u8], const_table: &mut ConstTable) -> (r: Result<Vec<u8>, VmError>)
    requires
        old(const_table).bc_counter <= data@.len(),
    ensures
        final(const_table).funcs == old(const_table).funcs,
        match r {
            Ok(name) => {
                &&& name_len(data@, old(const_table).bc_counter as nat) == Some(name@.len())
                &&& name@ == data@.subrange(
                    old(const_table).bc_counter as int,
                    old(const_table).bc_counter + name@.len(),
                )
                &&& final(const_table).bc_counter == old(const_table).bc_counter + name@.len() + 1
                &&& final(const_table).bc_counter <= data@.len()
            },
            Err(e) => {
                &&& e == VmError::TruncatedConstants
                &&& name_len(data@, old(const_table).bc_counter as nat) is None
                &&& final(const_table).bc_counter == old(const_table).bc_counter
            },
        },
{
    let str_start = const_table.bc_counter;
    let mut i = str_start;
    while i < data.len() && data[i] != 0u8
        invariant
            str_start <= i <= data@.len(),
            forall|j: int| str_start <= j < i ==> data@[j] != 0u8,
        decreases data@.len() - i,
    {
        i += 1;
    }
    if i == data.len() {
        proof {
            lemma_name_len_none(data@, str_start as nat);
        }
        return Err(VmError::TruncatedConstants);
    }
    proof {
        lemma_name_len_found(data@, str_start as nat, i as nat);
    }
    let name = slice_to_vec(slice_subrange(data, str_start, i));
    const_table.bc_counter = i + 1;
    Ok(name)
}

/// Decode the constant pool at the start of `data` into a table.
///
/// On success the table holds exactly the decoded constants and
/// `bc_counter` is the number of bytes consumed, so `data[bc_counter..]` is
/// the top-level program bytecode; the only failure is
/// `TruncatedConstants`, raised when an entry's operands run past the end
/// of `data`.
pub fn read_const_table(data: &[u8]) -> (r: Result<ConstTable, VmError>)
    ensures
        match r {
            Ok(t) => decode_consts(data@, 0, Seq::empty()) == DecodeRes::Good(t@),
            Err(e) => decode_consts(data@, 0, Seq::empty()) == DecodeRes::Fail(e),
        },
{
    let mut const_table = ConstTable { funcs: Vec::new(), bc_counter: 0 };
    proof {
        assert(func_views(const_table.funcs@) =~= Seq::<FuncSnap>::empty());
    }
    while const_table.bc_counter != data.len()
        invariant
            const_table.bc_counter <= data@.len(),
            decode_consts(data@, const_table.bc_counter as nat, func_views(const_table.funcs@))
                == decode_consts(data@, 0, Seq::empty()),
        decreases data@.len() - const_table.bc_counter,
    {
        let ghost pos0: nat = const_table.bc_counter as nat;
        let ghost funcs0: Seq<FuncSnap> = func_views(const_table.funcs@);
        let instr = ConstInstr::from_u8(data[const_table.bc_counter]);
        match instr {
            None => {
                const_table.bc_counter += 1;
            },
            Some(ConstInstr::End) => {
                const_table.bc_counter += 1;
                return Ok(const_table);
            },
            Some(ConstInstr::Func) => {
                const_table.bc_counter += 1;
                if data.len() - const_table.bc_counter < 4 {
                    return Err(VmError::TruncatedConstants);
                }
                let id = get_next_4_bytes(data, &mut const_table);
                let name = match eat_string(data, &mut const_table) {
                    Ok(n) => n,
                    Err(e) => {
                        return Err(e);
                    },
                };
                if data.len() - const_table.bc_counter < 12 {
                    return Err(VmError::TruncatedConstants);
                }
                let arg_count = get_next_4_bytes(data, &mut const_table);
                let local_count = get_next_4_bytes(data, &mut const_table);
                let bc_length = get_next_4_bytes(data, &mut const_table) as usize;
                if data.len() - const_table.bc_counter < bc_length {
                    return Err(VmError::TruncatedConstants);
                }
                let body = slice_to_vec(
                    slice_subrange(data, const_table.bc_counter, const_table.bc_counter + bc_length),
                );
                const_table.bc_counter += bc_length;
                let ghost fsnap = FuncSnap {
                    name: name@,
                    arg_count,
                    local_count,
                    body: body@,
                };
                let func = FuncConst { name, arg_count, local_count, body };
                let idu = id as usize;
                let ghost grow_start: Seq<FuncConst> = const_table.funcs@;
                let ghost cursor_after: nat = const_table.bc_counter as nat;
                while const_table.funcs.len() <= idu
                    invariant
                        const_table.bc_counter as nat == cursor_after,
                        cursor_after <= data@.len(),
                        const_table.funcs@.len() >= grow_start.len(),
                        const_table.funcs@.len() <= idu + 1 || const_table.funcs@.len()
                            == grow_start.len(),
                        forall|j: int|
                            0 <= j < grow_start.len() ==> const_table.funcs@[j] == grow_start[j],
                        forall|j: int|
                            grow_start.len() <= j < const_table.funcs@.len()
                                ==> (#[trigger] const_table.funcs@[j])@ == default_func_snap(),
                    decreases idu + 1 - const_table.funcs@.len(),
                {
                    const_table.funcs.push(
                        FuncConst {
                            name: Vec::new(),
                            arg_count: 0,
                            local_count: 0,
                            body: Vec::new(),
                        },
                    );
                }
                const_table.funcs.set(idu, func);
                proof {
                    assert(func_views(const_table.funcs@) =~= place_func(funcs0, id as nat, fsnap));
                    assert(decode_consts(data@, pos0, funcs0) == decode_consts(
                        data@,
                        const_table.bc_counter as nat,
                        func_views(const_table.funcs@),
                    ));
                }
            },
        }
    }
    Ok(const_table)
}

} // verus!
