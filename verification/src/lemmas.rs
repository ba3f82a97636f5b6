//! Proved properties of the instruction set, stated over the transition
//! function in `semantics`.

use crate::machine::Error;
use crate::machine::MEMORY_SIZE;
use crate::machine::NREGS;
use crate::semantics::advance_ip;
use crate::semantics::instr_len;
use crate::semantics::known_opcode;
use crate::semantics::le_word;
use crate::semantics::load_word;
use crate::semantics::max2;
use crate::semantics::max3;
use crate::semantics::spec_run;
use crate::semantics::spec_step;
use crate::semantics::step_fail;
use crate::semantics::step_halt;
use crate::semantics::store_word;
use crate::semantics::wf_state;
use crate::semantics::word_bytes;
use crate::semantics::RunSpec;
use crate::semantics::RunStatus;
use crate::semantics::VmState;
use vstd::prelude::*;

verus! {

/// A word written little-endian at an in-bounds address reads back unchanged.
pub proof fn lemma_store_load_word(mem: Seq<u8>, addr: int, w: u32)
    requires
        0 <= addr,
        addr + 4 <= mem.len(),
    ensures
        load_word(store_word(mem, addr, w), addr) == w,
{
    let stored = store_word(mem, addr, w);
    assert(stored[addr] == word_bytes(w)[0]);
    assert(stored[addr + 1] == word_bytes(w)[1]);
    assert(stored[addr + 2] == word_bytes(w)[2]);
    assert(stored[addr + 3] == word_bytes(w)[3]);
    assert(le_word(
        (w % 0x100) as u8,
        ((w / 0x100) % 0x100) as u8,
        ((w / 0x10000) % 0x100) as u8,
        ((w / 0x1000000) % 0x100) as u8,
    ) == w) by (bit_vector);
}

/// move-if copies register b into register a exactly when register c is
/// non-zero; when register c is zero, every register but the instruction
/// pointer — register a included — is unchanged. The instruction sends
/// nothing to the sink and never touches memory.
pub proof fn lemma_move_if_semantics(s: VmState)
    requires
        wf_state(s),
        s.regs[0] + 4 <= MEMORY_SIZE,
        s.mem[s.regs[0] as int] == 1,
        s.mem[s.regs[0] + 1] < NREGS,
        s.mem[s.regs[0] + 2] < NREGS,
        s.mem[s.regs[0] + 3] < NREGS,
    ensures
        ({
            let ip = s.regs[0] as int;
            let a = s.mem[ip + 1] as int;
            let b = s.mem[ip + 2] as int;
            let c = s.mem[ip + 3] as int;
            let st = spec_step(s);
            &&& st.status is Continue
            &&& st.out == Seq::<u8>::empty()
            &&& st.s.mem == s.mem
            &&& s.regs[c] != 0 ==> st.s.regs == advance_ip(s.regs.update(a, s.regs[b]), 4)
            &&& s.regs[c] != 0 && a != 0 ==> st.s.regs[a] == s.regs[b]
            &&& s.regs[c] == 0 ==> st.s.regs == advance_ip(s.regs, 4)
            &&& a != 0 ==> (forall|k: int|
                0 < k < NREGS && k != a ==> st.s.regs[k] == s.regs[k])
        }),
{
}

/// A store of a value at an in-bounds address, followed by a load from the
/// same address into a register other than the instruction pointer, yields
/// the stored value — provided the store did not overwrite the load
/// instruction itself.
pub proof fn lemma_store_then_load(s: VmState)
    requires
        wf_state(s),
        s.regs[0] + 6 <= MEMORY_SIZE,
        s.mem[s.regs[0] as int] == 2,
        s.mem[s.regs[0] + 1] < NREGS,
        s.mem[s.regs[0] + 2] < NREGS,
        s.regs[s.mem[s.regs[0] + 1] as int] + 4 <= MEMORY_SIZE,
        s.mem[s.regs[0] + 3] == 3,
        s.mem[s.regs[0] + 4] < NREGS,
        s.mem[s.regs[0] + 5] < NREGS,
        s.mem[s.regs[0] + 4] != 0,
        s.mem[s.regs[0] + 5] != 0,
        s.regs[s.mem[s.regs[0] + 5] as int] == s.regs[s.mem[s.regs[0] + 1] as int],
        s.regs[s.mem[s.regs[0] + 1] as int] + 4 <= s.regs[0] + 3 || s.regs[0] + 6 <= s.regs[s.mem[
            s.regs[0] + 1
        ] as int],
    ensures
        ({
            let ip = s.regs[0] as int;
            let value = s.regs[s.mem[ip + 2] as int];
            let target = s.mem[ip + 4] as int;
            let st1 = spec_step(s);
            let st2 = spec_step(st1.s);
            &&& st1.status is Continue
            &&& st2.status is Continue
            &&& st2.s.regs[target] == value
        }),
{
    let ip = s.regs[0] as int;
    let addr = s.regs[s.mem[ip + 1] as int] as int;
    let value = s.regs[s.mem[ip + 2] as int];
    let st1 = spec_step(s);
    assert(st1.s.mem == store_word(s.mem, addr, value));
    assert(st1.s.mem[ip + 3] == s.mem[ip + 3]);
    assert(st1.s.mem[ip + 4] == s.mem[ip + 4]);
    assert(st1.s.mem[ip + 5] == s.mem[ip + 5]);
    assert(st1.s.regs[0] == s.regs[0] + 3);
    lemma_store_load_word(s.mem, addr, value);
}

/// An opcode byte that selects none of the eight instructions is a terminal
/// error: the step fails with `WrongInstruction` carrying that byte, the
/// state is unchanged, and a run of any length stops there with that error,
/// no instruction after it executing and nothing more reaching the sink.
pub proof fn lemma_wrong_instruction(s: VmState, n: nat)
    requires
        wf_state(s),
        s.regs[0] < MEMORY_SIZE,
        !known_opcode(s.mem[s.regs[0] as int]),
        n >= 1,
    ensures
        spec_step(s) == step_fail(s, Error::WrongInstruction(s.mem[s.regs[0] as int])),
        spec_run(s, n) == (RunSpec {
            status: RunStatus::Failed(Error::WrongInstruction(s.mem[s.regs[0] as int])),
            s,
            out: Seq::<u8>::empty(),
        }),
{
}

/// halt terminates a run successfully: the step signals termination with the
/// instruction pointer moved just past the halt opcode, and a run of any
/// length ends there, no instruction beyond the halt executing and nothing
/// reaching the sink.
pub proof fn lemma_halt(s: VmState, n: nat)
    requires
        wf_state(s),
        s.regs[0] < MEMORY_SIZE,
        s.mem[s.regs[0] as int] == 7,
        n >= 1,
    ensures
        spec_step(s) == step_halt(VmState { mem: s.mem, regs: advance_ip(s.regs, 1) }),
        spec_run(s, n) == (RunSpec {
            status: RunStatus::Halted,
            s: (VmState { mem: s.mem, regs: advance_ip(s.regs, 1) }),
            out: Seq::<u8>::empty(),
        }),
{
}

/// Any instruction whose register operands include an index at or beyond
/// the register count fails with `NoReg` carrying the largest such index,
/// and the machine's state is unchanged. The largest offending index is the
/// largest register operand overall, every valid index being smaller than
/// every offending one.
pub proof fn lemma_bad_register(s: VmState)
    requires
        wf_state(s),
        s.regs[0] < MEMORY_SIZE,
        known_opcode(s.mem[s.regs[0] as int]),
        s.regs[0] + instr_len(s.mem[s.regs[0] as int]) <= MEMORY_SIZE,
    ensures
        ({
            let ip = s.regs[0] as int;
            let op = s.mem[ip];
            let x1 = s.mem[ip + 1] as int;
            let x2 = s.mem[ip + 2] as int;
            let x3 = s.mem[ip + 3] as int;
            &&& (op == 1 || op == 5) && max3(x1, x2, x3) >= NREGS ==> spec_step(s) == step_fail(
                s,
                Error::NoReg(max3(x1, x2, x3) as usize),
            )
            &&& (op == 2 || op == 3) && max2(x1, x2) >= NREGS ==> spec_step(s) == step_fail(
                s,
                Error::NoReg(max2(x1, x2) as usize),
            )
            &&& (op == 4 || op == 6 || op == 8) && x1 >= NREGS ==> spec_step(s) == step_fail(
                s,
                Error::NoReg(x1 as usize),
            )
        }),
{
}

} // verus!
