//! The machine's meaning, stated as mathematics: a state is a pair of
//! sequences, and one instruction is a transition function on states that
//! also yields the bytes sent to the output sink.

use crate::machine::Error;
use crate::machine::MEMORY_SIZE;
use crate::machine::NREGS;
use vstd::prelude::*;

verus! {

/// The machine's state: the byte memory and the register file.
/// Register 0 is the instruction pointer.
#[verifier::ext_equal]
pub ghost struct VmState {
    pub mem: Seq<u8>,
    pub regs: Seq<u32>,
}

/// A state is well formed when memory and register file have their fixed sizes.
pub open spec fn wf_state(s: VmState) -> bool {
    &&& s.mem.len() == MEMORY_SIZE
    &&& s.regs.len() == NREGS
}

/// How a single instruction ends: the machine goes on, signals termination,
/// or reports the first error.
#[verifier::ext_equal]
pub ghost enum StepStatus {
    Continue,
    Halt,
    Fail(Error),
}

/// The outcome of one instruction: its status, the state after it, and the
/// bytes it sent to the sink. On failure the state is the unchanged input
/// state and no bytes are sent.
#[verifier::ext_equal]
pub ghost struct StepSpec {
    pub status: StepStatus,
    pub s: VmState,
    pub out: Seq<u8>,
}

pub open spec fn step_continue(s: VmState, out: Seq<u8>) -> StepSpec {
    StepSpec { status: StepStatus::Continue, s, out }
}

pub open spec fn step_halt(s: VmState) -> StepSpec {
    StepSpec { status: StepStatus::Halt, s, out: Seq::empty() }
}

pub open spec fn step_fail(s: VmState, e: Error) -> StepSpec {
    StepSpec { status: StepStatus::Fail(e), s, out: Seq::empty() }
}

/// Whether an opcode byte selects one of the eight instructions.
pub open spec fn known_opcode(op: u8) -> bool {
    1 <= op <= 8
}

/// The fixed byte length of the instruction an opcode selects.
pub open spec fn instr_len(op: u8) -> int {
    if op == 1 || op == 4 || op == 5 {
        4
    } else if op == 2 || op == 3 {
        3
    } else if op == 6 || op == 8 {
        2
    } else {
        1
    }
}

pub open spec fn max2(a: int, b: int) -> int {
    if a >= b {
        a
    } else {
        b
    }
}

pub open spec fn max3(a: int, b: int, c: int) -> int {
    max2(a, max2(b, c))
}

/// The 32-bit word read little-endian from four bytes.
pub open spec fn le_word(b0: u8, b1: u8, b2: u8, b3: u8) -> u32 {
    (b0 + b1 * 0x100 + b2 * 0x10000 + b3 * 0x1000000) as u32
}

/// The four little-endian bytes of a 32-bit word.
pub open spec fn word_bytes(w: u32) -> Seq<u8> {
    seq![
        (w % 0x100) as u8,
        ((w / 0x100) % 0x100) as u8,
        ((w / 0x10000) % 0x100) as u8,
        ((w / 0x1000000) % 0x100) as u8,
    ]
}

/// Memory after a word is written little-endian at `addr`.
pub open spec fn store_word(mem: Seq<u8>, addr: int, w: u32) -> Seq<u8> {
    mem.update(addr, word_bytes(w)[0]).update(addr + 1, word_bytes(w)[1]).update(
        addr + 2,
        word_bytes(w)[2],
    ).update(addr + 3, word_bytes(w)[3])
}

/// The word read little-endian from memory at `addr`.
pub open spec fn load_word(mem: Seq<u8>, addr: int) -> u32 {
    le_word(mem[addr], mem[addr + 1], mem[addr + 2], mem[addr + 3])
}

/// A 16-bit little-endian immediate, sign-extended to 32 bits.
pub open spec fn sign_extend_16(lo: u8, hi: u8) -> u32 {
    let v = lo + hi * 0x100;
    if v >= 0x8000 {
        (v + 0xFFFF0000) as u32
    } else {
        v as u32
    }
}

/// The decimal digits of a natural number, as ASCII bytes.
pub open spec fn dec_digits(n: nat) -> Seq<u8>
    decreases n,
{
    if n < 10 {
        seq![(0x30 + n) as u8]
    } else {
        dec_digits(n / 10).push((0x30 + n % 10) as u8)
    }
}

/// The decimal text of a register value reinterpreted as a signed 32-bit
/// number, as ASCII bytes: a minus sign and the magnitude when the sign bit
/// is set.
pub open spec fn i32_text(w: u32) -> Seq<u8> {
    if w < 0x80000000 {
        dec_digits(w as nat)
    } else {
        seq![0x2Du8] + dec_digits((0x100000000 - w) as nat)
    }
}

/// The register file after the instruction pointer advances by `len` bytes,
/// wrapping modulo 2^32. The advance reads the pointer after the
/// instruction's own writes, so an instruction that writes register 0 jumps.
pub open spec fn advance_ip(regs: Seq<u32>, len: u32) -> Seq<u32> {
    regs.update(0, regs[0].wrapping_add(len))
}

/// move-if a,b,c: copies register b into register a when register c is
/// non-zero.
pub open spec fn spec_move_if(s: VmState) -> StepSpec {
    let ip = s.regs[0] as int;
    let a = s.mem[ip + 1] as int;
    let b = s.mem[ip + 2] as int;
    let c = s.mem[ip + 3] as int;
    if max3(a, b, c) >= NREGS {
        step_fail(s, Error::NoReg(max3(a, b, c) as usize))
    } else {
        let written = if s.regs[c] != 0 {
            s.regs.update(a, s.regs[b])
        } else {
            s.regs
        };
        step_continue(VmState { mem: s.mem, regs: advance_ip(written, 4) }, Seq::empty())
    }
}

/// store a,b: writes register b as four little-endian bytes at the address
/// in register a. The whole four-byte window must lie within memory, so
/// that no write can reach past the buffer; the failure carries the start
/// address.
pub open spec fn spec_store(s: VmState) -> StepSpec {
    let ip = s.regs[0] as int;
    let a = s.mem[ip + 1] as int;
    let b = s.mem[ip + 2] as int;
    if max2(a, b) >= NREGS {
        step_fail(s, Error::NoReg(max2(a, b) as usize))
    } else if s.regs[a] + 4 > MEMORY_SIZE {
        step_fail(s, Error::NoMem(s.regs[a]))
    } else {
        step_continue(
            VmState {
                mem: store_word(s.mem, s.regs[a] as int, s.regs[b]),
                regs: advance_ip(s.regs, 3),
            },
            Seq::empty(),
        )
    }
}

/// load a,b: reads four little-endian bytes at the address in register b
/// into register a. The whole four-byte window must lie within memory, so
/// that no read can reach past the buffer; the failure carries the start
/// address.
pub open spec fn spec_load(s: VmState) -> StepSpec {
    let ip = s.regs[0] as int;
    let a = s.mem[ip + 1] as int;
    let b = s.mem[ip + 2] as int;
    if max2(a, b) >= NREGS {
        step_fail(s, Error::NoReg(max2(a, b) as usize))
    } else if s.regs[b] + 4 > MEMORY_SIZE {
        step_fail(s, Error::NoMem(s.regs[b]))
    } else {
        let written = s.regs.update(a, load_word(s.mem, s.regs[b] as int));
        step_continue(VmState { mem: s.mem, regs: advance_ip(written, 3) }, Seq::empty())
    }
}

/// load-imm a,lo,hi: loads a 16-bit little-endian immediate, sign-extended
/// to 32 bits, into register a.
pub open spec fn spec_load_imm(s: VmState) -> StepSpec {
    let ip = s.regs[0] as int;
    let a = s.mem[ip + 1] as int;
    if a >= NREGS {
        step_fail(s, Error::NoReg(a as usize))
    } else {
        let written = s.regs.update(a, sign_extend_16(s.mem[ip + 2], s.mem[ip + 3]));
        step_continue(VmState { mem: s.mem, regs: advance_ip(written, 4) }, Seq::empty())
    }
}

/// sub a,b,c: register a becomes register b minus register c, wrapping
/// modulo 2^32; never an arithmetic error.
pub open spec fn spec_sub(s: VmState) -> StepSpec {
    let ip = s.regs[0] as int;
    let a = s.mem[ip + 1] as int;
    let b = s.mem[ip + 2] as int;
    let c = s.mem[ip + 3] as int;
    if max3(a, b, c) >= NREGS {
        step_fail(s, Error::NoReg(max3(a, b, c) as usize))
    } else {
        let written = s.regs.update(a, s.regs[b].wrapping_sub(s.regs[c]));
        step_continue(VmState { mem: s.mem, regs: advance_ip(written, 4) }, Seq::empty())
    }
}

/// out r: sends the low byte of register r to the sink.
pub open spec fn spec_out(s: VmState) -> StepSpec {
    let ip = s.regs[0] as int;
    let r = s.mem[ip + 1] as int;
    if r >= NREGS {
        step_fail(s, Error::NoReg(r as usize))
    } else {
        step_continue(
            VmState { mem: s.mem, regs: advance_ip(s.regs, 2) },
            seq![(s.regs[r] % 0x100) as u8],
        )
    }
}

/// out-number r: sends register r, reinterpreted as a signed 32-bit number,
/// as decimal text to the sink.
pub open spec fn spec_out_number(s: VmState) -> StepSpec {
    let ip = s.regs[0] as int;
    let r = s.mem[ip + 1] as int;
    if r >= NREGS {
        step_fail(s, Error::NoReg(r as usize))
    } else {
        step_continue(VmState { mem: s.mem, regs: advance_ip(s.regs, 2) }, i32_text(s.regs[r]))
    }
}

/// One instruction cycle. The fetch fails when the instruction pointer, or
/// any byte of the fetched instruction, lies at or beyond memory capacity;
/// an opcode that selects no instruction is a terminal error; otherwise the
/// selected instruction runs.
pub open spec fn spec_step(s: VmState) -> StepSpec {
    let ip = s.regs[0] as int;
    if ip >= MEMORY_SIZE {
        step_fail(s, Error::NoMem(s.regs[0]))
    } else {
        let op = s.mem[ip];
        if !known_opcode(op) {
            step_fail(s, Error::WrongInstruction(op))
        } else if ip + instr_len(op) > MEMORY_SIZE {
            step_fail(s, Error::NoMem(s.regs[0]))
        } else if op == 1 {
            spec_move_if(s)
        } else if op == 2 {
            spec_store(s)
        } else if op == 3 {
            spec_load(s)
        } else if op == 4 {
            spec_load_imm(s)
        } else if op == 5 {
            spec_sub(s)
        } else if op == 6 {
            spec_out(s)
        } else if op == 7 {
            step_halt(VmState { mem: s.mem, regs: advance_ip(s.regs, 1) })
        } else {
            spec_out_number(s)
        }
    }
}

/// How a bounded run ends: still running when the step budget is spent,
/// halted, or stopped at the first error.
#[verifier::ext_equal]
pub ghost enum RunStatus {
    Running,
    Halted,
    Failed(Error),
}

/// The outcome of running up to `fuel` instructions: the status, the state
/// reached, and every byte sent to the sink along the way. On failure the
/// state is the one in which the failing instruction was fetched.
#[verifier::ext_equal]
pub ghost struct RunSpec {
    pub status: RunStatus,
    pub s: VmState,
    pub out: Seq<u8>,
}

/// Runs up to `fuel` instructions from `s0`, stopping early at a halt or at
/// the first error.
pub open spec fn spec_run(s0: VmState, fuel: nat) -> RunSpec
    decreases fuel,
{
    if fuel == 0 {
        RunSpec { status: RunStatus::Running, s: s0, out: Seq::empty() }
    } else {
        let st = spec_step(s0);
        match st.status {
            StepStatus::Halt => RunSpec { status: RunStatus::Halted, s: st.s, out: Seq::empty() },
            StepStatus::Fail(e) => RunSpec { status: RunStatus::Failed(e), s: s0, out: Seq::empty() },
            StepStatus::Continue => {
                let rest = spec_run(st.s, (fuel - 1) as nat);
                RunSpec { status: rest.status, s: rest.s, out: st.out + rest.out }
            },
        }
    }
}

/// What a single instruction that sends nothing to the sink guarantees:
/// exactly the outcome of `spec_step`, with the machine left unchanged on
/// failure.
pub open spec fn silent_step_post(pre: VmState, post: VmState, r: Result<bool, Error>) -> bool {
    let st = spec_step(pre);
    match st.status {
        StepStatus::Continue => r == Ok::<bool, Error>(false) && post == st.s && st.out.len() == 0,
        StepStatus::Halt => r == Ok::<bool, Error>(true) && post == st.s,
        StepStatus::Fail(e) => r == Err::<bool, Error>(e) && post == pre,
    }
}

/// What a single instruction cycle guarantees, sink included: the outcome of
/// `spec_step`, except that a sink that is not reliable may refuse a write,
/// in which case the machine is unchanged, the error is `OutputError`, and
/// the sink holds a strict prefix of the instruction's output — a refusal
/// really happened. With a reliable sink the cycle is exactly `spec_step`.
pub open spec fn sink_step_post(
    pre: VmState,
    post: VmState,
    pre_out: Seq<u8>,
    post_out: Seq<u8>,
    reliable: bool,
    r: Result<bool, Error>,
) -> bool {
    let st = spec_step(pre);
    match st.status {
        StepStatus::Continue => (r == Ok::<bool, Error>(false) && post == st.s && post_out
            == pre_out + st.out) || (!reliable && st.out.len() > 0 && r == Err::<bool, Error>(
            Error::OutputError,
        ) && post == pre && pre_out.is_prefix_of(post_out) && post_out.is_prefix_of(pre_out + st.out)
            && post_out.len() < pre_out.len() + st.out.len()),
        StepStatus::Halt => r == Ok::<bool, Error>(true) && post == st.s && post_out == pre_out,
        StepStatus::Fail(e) => r == Err::<bool, Error>(e) && post == pre && post_out == pre_out,
    }
}

/// What a bounded run guarantees, sink included: the outcome of `spec_run`
/// at the full budget. `OutputError` is owed only to a sink that is not
/// reliable, and only where a write was really refused: after some number
/// of completed steps the next instruction continues with output, the
/// machine stands exactly at that point, and the sink holds everything
/// produced before it plus some part of the refused instruction's output.
/// With a reliable sink the run is exactly `spec_run`.
pub open spec fn run_post(
    pre: VmState,
    post: VmState,
    pre_out: Seq<u8>,
    post_out: Seq<u8>,
    reliable: bool,
    fuel: nat,
    r: Result<bool, Error>,
) -> bool {
    let rs = spec_run(pre, fuel);
    match r {
        Ok(halted) => (if halted {
            rs.status is Halted
        } else {
            rs.status is Running
        }) && post == rs.s && post_out == pre_out + rs.out,
        Err(e) => if e == Error::OutputError {
            !reliable && exists|n: nat|
                n < fuel && (#[trigger] spec_run(pre, n)).status is Running && spec_step(
                    spec_run(pre, n).s,
                ).status is Continue && spec_step(spec_run(pre, n).s).out.len() > 0 && post
                    == spec_run(pre, n).s && (pre_out + spec_run(pre, n).out).is_prefix_of(post_out)
                    && post_out.is_prefix_of(
                    pre_out + spec_run(pre, n).out + spec_step(spec_run(pre, n).s).out,
                )
        } else {
            rs.status == RunStatus::Failed(e) && post == rs.s && post_out == pre_out + rs.out
        },
    }
}

/// The machine itself never fails with `OutputError`: every failure of
/// `spec_step` is a memory, register or opcode error. Only a sink's refusal
/// can produce `OutputError`.
pub proof fn lemma_step_error_not_output(s: VmState)
    ensures
        spec_step(s).status != StepStatus::Fail(Error::OutputError),
{
}

/// Extends a run by one instruction at its end: a run of `n + 1` steps is a
/// run of `n` steps followed by one `spec_step`, and a run that has already
/// halted or failed is unchanged by more fuel.
pub proof fn lemma_spec_run_step(s0: VmState, n: nat)
    ensures
        ({
            let rs = spec_run(s0, n);
            let st = spec_step(rs.s);
            &&& rs.status is Running && st.status is Continue ==> spec_run(s0, n + 1) == (RunSpec {
                status: RunStatus::Running,
                s: st.s,
                out: rs.out + st.out,
            })
            &&& rs.status is Running && st.status is Halt ==> spec_run(s0, n + 1) == (RunSpec {
                status: RunStatus::Halted,
                s: st.s,
                out: rs.out,
            })
            &&& forall|e: Error|
                rs.status is Running && st.status == StepStatus::Fail(e) ==> spec_run(s0, n + 1)
                    == (RunSpec { status: RunStatus::Failed(e), s: rs.s, out: rs.out })
            &&& !(rs.status is Running) ==> spec_run(s0, n + 1) == rs
        }),
    decreases n,
{
    let rs = spec_run(s0, n);
    let st = spec_step(rs.s);
    if n == 0 {
        assert(rs == (RunSpec { status: RunStatus::Running, s: s0, out: Seq::<u8>::empty() }));
        match st.status {
            StepStatus::Continue => {
                assert(spec_run(st.s, 0) == (RunSpec {
                    status: RunStatus::Running,
                    s: st.s,
                    out: Seq::<u8>::empty(),
                }));
                assert(st.out + Seq::<u8>::empty() =~= rs.out + st.out);
            },
            StepStatus::Halt => {
                assert(spec_run(s0, 1) =~= (RunSpec {
                    status: RunStatus::Halted,
                    s: st.s,
                    out: rs.out,
                }));
            },
            StepStatus::Fail(e) => {
                assert(spec_run(s0, 1) =~= (RunSpec {
                    status: RunStatus::Failed(e),
                    s: rs.s,
                    out: rs.out,
                }));
            },
        }
    } else {
        let first = spec_step(s0);
        match first.status {
            StepStatus::Halt => {
                assert(spec_run(s0, n + 1) == rs);
            },
            StepStatus::Fail(e) => {
                assert(spec_run(s0, n + 1) == rs);
            },
            StepStatus::Continue => {
                let rest = spec_run(first.s, (n - 1) as nat);
                lemma_spec_run_step(first.s, (n - 1) as nat);
                let rest2 = spec_run(first.s, n);
                if rs.status is Running {
                    assert(rest.status is Running && rest.s == rs.s);
                    match st.status {
                        StepStatus::Continue => {
                            assert(rest2 == (RunSpec {
                                status: RunStatus::Running,
                                s: st.s,
                                out: rest.out + st.out,
                            }));
                            assert(first.out + (rest.out + st.out) =~= (first.out + rest.out)
                                + st.out);
                            assert(spec_run(s0, n + 1) =~= (RunSpec {
                                status: RunStatus::Running,
                                s: st.s,
                                out: rs.out + st.out,
                            }));
                        },
                        StepStatus::Halt => {
                            assert(rest2 == (RunSpec {
                                status: RunStatus::Halted,
                                s: st.s,
                                out: rest.out,
                            }));
                            assert(spec_run(s0, n + 1) =~= (RunSpec {
                                status: RunStatus::Halted,
                                s: st.s,
                                out: rs.out,
                            }));
                        },
                        StepStatus::Fail(e) => {
                            assert(rest2 == (RunSpec {
                                status: RunStatus::Failed(e),
                                s: rest.s,
                                out: rest.out,
                            }));
                            assert(spec_run(s0, n + 1) =~= (RunSpec {
                                status: RunStatus::Failed(e),
                                s: rs.s,
                                out: rs.out,
                            }));
                        },
                    }
                } else {
                    assert(rest2 == rest);
                    assert(spec_run(s0, n + 1) =~= rs);
                }
            },
        }
    }
}

/// More fuel changes nothing once a run has halted or failed.
pub proof fn lemma_spec_run_mono(s0: VmState, n: nat, m: nat)
    requires
        n <= m,
        !(spec_run(s0, n).status is Running),
    ensures
        spec_run(s0, m) == spec_run(s0, n),
    decreases m - n,
{
    if n < m {
        lemma_spec_run_mono(s0, n, (m - 1) as nat);
        lemma_spec_run_step(s0, (m - 1) as nat);
    }
}

} // verus!
