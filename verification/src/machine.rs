//! The executable machine: construction from a program buffer, single-step
//! and run-to-a-budget execution, and the host control surface. Every
//! operation is verified against the transition function in `semantics`.

use crate::semantics::advance_ip;
use crate::semantics::dec_digits;
use crate::semantics::lemma_spec_run_mono;
use crate::semantics::lemma_spec_run_step;
use crate::semantics::lemma_step_error_not_output;
use crate::semantics::run_post;
use crate::semantics::spec_run;
use crate::semantics::i32_text;
use crate::semantics::silent_step_post;
use crate::semantics::sink_step_post;
use crate::semantics::spec_step;
use crate::semantics::wf_state;
use crate::semantics::VmState;
use crate::sink::OutputSink;
use vstd::prelude::*;

verus! {

/// The byte capacity of the machine's memory.
pub const MEMORY_SIZE: usize = 4096;

/// The number of registers in the register file.
pub const NREGS: usize = 16;

/// The register that holds the instruction pointer.
const IP: usize = 0;

/// Everything that can go wrong, at construction or during execution.
/// The last three variants are reserved for a superset instruction set and
/// are not produced by any of the eight current opcodes.
#[derive(Clone, Copy, Debug, PartialEq, Eq, Structural)]
pub enum Error {
    MemoryOverflow,
    WrongInstruction(u8),
    NoReg(usize),
    NoMem(u32),
    OutputError,
    NonExistingInstruction,
    NonExistingFormat,
    ReadPastMemoryEnd,
}

/// Appends the decimal digits of `v`, as ASCII bytes, to `out`.
fn push_decimal(v: u32, out: &mut Vec<u8>)
    ensures
        final(out)@ == old(out)@ + dec_digits(v as nat),
    decreases v,
{
    if v < 10 {
        out.push(0x30 + v as u8);
        proof {
            assert(old(out)@.push((0x30 + v as nat) as u8) =~= old(out)@ + dec_digits(v as nat));
        }
    } else {
        push_decimal(v / 10, out);
        out.push(0x30 + (v % 10) as u8);
        proof {
            assert((old(out)@ + dec_digits((v / 10) as nat)).push((0x30 + v as nat % 10) as u8)
                =~= old(out)@ + dec_digits(v as nat));
        }
    }
}

/// The decimal text of a register value reinterpreted as a signed 32-bit
/// number, as ASCII bytes.
fn i32_bytes(w: u32) -> (r: Vec<u8>)
    ensures
        r@ == i32_text(w),
{
    let mut out: Vec<u8> = Vec::new();
    if w >= 0x80000000 {
        out.push(0x2D);
        let magnitude = (0x1_0000_0000u64 - w as u64) as u32;
        push_decimal(magnitude, &mut out);
        proof {
            assert(out@ =~= i32_text(w));
        }
    } else {
        push_decimal(w, &mut out);
        proof {
            assert(out@ =~= i32_text(w));
        }
    }
    out
}

/// Sends every byte of `text` to the sink, in order, stopping at the first
/// refused write; the sink then holds what it held before, extended by a
/// strict prefix of `text`. A reliable sink never refuses, so with one the
/// send succeeds and the sink stays reliable.
fn emit_all<S: OutputSink>(fd: &mut S, text: &Vec<u8>) -> (ok: bool)
    ensures
        ok ==> final(fd).bytes() == old(fd).bytes() + text@,
        !ok ==> !old(fd).reliable() && old(fd).bytes().is_prefix_of(final(fd).bytes())
            && final(fd).bytes().is_prefix_of(old(fd).bytes() + text@)
            && final(fd).bytes().len() < old(fd).bytes().len() + text@.len(),
        old(fd).reliable() ==> final(fd).reliable(),
{
    let ghost start = fd.bytes();
    let mut i: usize = 0;
    while i < text.len()
        invariant
            i <= text@.len(),
            start == old(fd).bytes(),
            fd.bytes() == start + text@.take(i as int),
            old(fd).reliable() ==> fd.reliable(),
        decreases text@.len() - i,
    {
        let b = text[i];
        if !fd.write_byte(b) {
            proof {
                let cur = fd.bytes();
                assert(start =~= cur.subrange(0, start.len() as int));
                assert(cur =~= (start + text@).subrange(0, cur.len() as int));
            }
            return false;
        }
        proof {
            assert((start + text@.take(i as int)).push(text@[i as int]) =~= start + text@.take(
                i + 1,
            ));
        }
        i += 1;
    }
    proof {
        assert(start + text@.take(text@.len() as int) =~= start + text@);
    }
    true
}

/// A machine: a fixed-size byte memory and sixteen 32-bit registers.
/// Register 0 is the instruction pointer.
pub struct Machine {
    memory: Vec<u8>,
    regs: Vec<u32>,
}

impl View for Machine {
    type V = VmState;

    closed spec fn view(&self) -> VmState {
        VmState { mem: self.memory@, regs: self.regs@ }
    }
}

impl Machine {
    /// The machine's sizes never change after construction.
    pub open spec fn wf(&self) -> bool {
        wf_state(self@)
    }

    /// Creates a new machine in its reset state: the input is copied to the
    /// low end of a zero-filled memory, and every register starts at zero,
    /// so execution begins at address 0. An input longer than the memory
    /// capacity is rejected.
    pub fn new(memory: &[u8]) -> (r: Result<Machine, Error>)
        ensures
            memory@.len() > MEMORY_SIZE ==> r == Err::<Machine, Error>(Error::MemoryOverflow),
            memory@.len() <= MEMORY_SIZE ==> (r matches Ok(m) && m.wf()
                && m@.regs == Seq::new(NREGS as nat, |i: int| 0u32)
                && (forall|i: int| 0 <= i < memory@.len() ==> m@.mem[i] == memory@[i])
                && (forall|i: int| memory@.len() <= i < MEMORY_SIZE ==> m@.mem[i] == 0u8)),
    {
        if memory.len() > MEMORY_SIZE {
            return Err(Error::MemoryOverflow);
        }
        let n = memory.len();
        let mut mem: Vec<u8> = Vec::new();
        let mut i: usize = 0;
        while i < n
            invariant
                i <= n,
                n == memory@.len(),
                n <= MEMORY_SIZE,
                mem@.len() == i,
                forall|j: int| 0 <= j < i ==> mem@[j] == memory@[j],
            decreases n - i,
        {
            mem.push(memory[i]);
            i += 1;
        }
        while mem.len() < MEMORY_SIZE
            invariant
                n == memory@.len(),
                n <= mem@.len() <= MEMORY_SIZE,
                forall|j: int| 0 <= j < n ==> mem@[j] == memory@[j],
                forall|j: int| n <= j < mem@.len() ==> mem@[j] == 0u8,
            decreases MEMORY_SIZE - mem@.len(),
        {
            mem.push(0);
        }
        let mut regs: Vec<u32> = Vec::new();
        while regs.len() < NREGS
            invariant
                regs@.len() <= NREGS,
                forall|j: int| 0 <= j < regs@.len() ==> regs@[j] == 0u32,
            decreases NREGS - regs@.len(),
        {
            regs.push(0);
        }
        let machine = Machine { memory: mem, regs };
        proof {
            assert(machine@.regs =~= Seq::new(NREGS as nat, |i: int| 0u32));
        }
        Ok(machine)
    }

    /// Executes the next instruction, returning `Ok(true)` when the program
    /// should terminate. The outcome is exactly one `spec_step` transition;
    /// only a write refused by a sink that is not reliable turns a
    /// continuing step into an `OutputError` with the machine unchanged.
    pub fn step_on<S: OutputSink>(&mut self, fd: &mut S) -> (r: Result<bool, Error>)
        requires
            old(self).wf(),
        ensures
            final(self).wf(),
            sink_step_post(
                old(self)@,
                final(self)@,
                old(fd).bytes(),
                final(fd).bytes(),
                old(fd).reliable(),
                r,
            ),
            old(fd).reliable() ==> final(fd).reliable(),
    {
        let ip = self.regs[IP] as usize;
        if ip >= MEMORY_SIZE {
            return Err(Error::NoMem(self.regs[IP]));
        }
        let opcode = self.memory[ip];
        if opcode < 1 || opcode > 8 {
            return Err(Error::WrongInstruction(opcode));
        }
        let len: usize = if opcode == 1 || opcode == 4 || opcode == 5 {
            4
        } else if opcode == 2 || opcode == 3 {
            3
        } else if opcode == 6 || opcode == 8 {
            2
        } else {
            1
        };
        if ip + len > MEMORY_SIZE {
            return Err(Error::NoMem(self.regs[IP]));
        }
        if opcode == 6 {
            self.out(fd)
        } else if opcode == 8 {
            self.out_number(fd)
        } else if opcode == 7 {
            self.inc(1);
            proof {
                assert(self@ =~= spec_step(old(self)@).s);
            }
            Ok(true)
        } else {
            let r = if opcode == 1 {
                self.move_if()
            } else if opcode == 2 {
                self.store()
            } else if opcode == 3 {
                self.load()
            } else if opcode == 4 {
                self.load_imm()
            } else {
                self.sub()
            };
            proof {
                assert(old(fd).bytes() + spec_step(old(self)@).out =~= old(fd).bytes());
            }
            r
        }
    }

    /// Runs the machine, at most `max_steps` instructions, until the program
    /// terminates or an error occurs: `Ok(true)` on a halt, `Ok(false)` when
    /// the budget is spent with the program still running, and the first
    /// error otherwise, exactly as `spec_run` at the full budget says.
    /// `OutputError` can come only of a sink that is not reliable, and only
    /// where an output-producing instruction's write was really refused.
    pub fn run_on<S: OutputSink>(&mut self, fd: &mut S, max_steps: u64) -> (r: Result<
        bool,
        Error,
    >)
        requires
            old(self).wf(),
        ensures
            final(self).wf(),
            run_post(
                old(self)@,
                final(self)@,
                old(fd).bytes(),
                final(fd).bytes(),
                old(fd).reliable(),
                max_steps as nat,
                r,
            ),
            old(fd).reliable() ==> final(fd).reliable(),
    {
        let ghost s0 = self@;
        let ghost start = fd.bytes();
        let mut steps: u64 = 0;
        while steps < max_steps
            invariant
                self.wf(),
                steps <= max_steps,
                s0 == old(self)@,
                start == old(fd).bytes(),
                spec_run(s0, steps as nat).status is Running,
                spec_run(s0, steps as nat).s == self@,
                fd.bytes() == start + spec_run(s0, steps as nat).out,
                old(fd).reliable() ==> fd.reliable(),
            decreases max_steps - steps,
        {
            let ghost sofar = spec_run(s0, steps as nat);
            let result = self.step_on(fd);
            proof {
                lemma_spec_run_step(s0, steps as nat);
            }
            match result {
                Ok(true) => {
                    proof {
                        lemma_spec_run_mono(s0, (steps + 1) as nat, max_steps as nat);
                    }
                    return Ok(true);
                },
                Ok(false) => {
                    proof {
                        assert((start + sofar.out) + spec_step(sofar.s).out =~= start + (sofar.out
                            + spec_step(sofar.s).out));
                    }
                },
                Err(e) => {
                    if e == Error::OutputError {
                        proof {
                            lemma_step_error_not_output(sofar.s);
                            assert(spec_step(sofar.s).status is Continue);
                            assert((start + sofar.out).is_prefix_of(fd.bytes()));
                        }
                    } else {
                        proof {
                            lemma_spec_run_mono(s0, (steps + 1) as nat, max_steps as nat);
                        }
                    }
                    return Err(e);
                },
            }
            steps += 1;
        }
        Ok(false)
    }

    /// Reference onto the machine's current set of registers.
    pub fn regs(&self) -> (r: &[u32])
        ensures
            r@ == self@.regs,
    {
        self.regs.as_slice()
    }

    /// Reference onto the machine's current memory.
    pub fn memory(&self) -> (r: &[u8])
        ensures
            r@ == self@.mem,
    {
        self.memory.as_slice()
    }

    /// Sets a register to the given value; an index at or beyond the register
    /// count is rejected and leaves the machine unchanged.
    pub fn set_reg(&mut self, reg: usize, value: u32) -> (r: Result<(), Error>)
        requires
            old(self).wf(),
        ensures
            final(self).wf(),
            reg >= NREGS ==> r == Err::<(), Error>(Error::NoReg(reg)) && final(self)@ == old(self)@,
            reg < NREGS ==> r == Ok::<(), Error>(()) && final(self)@.mem == old(self)@.mem
                && final(self)@.regs == old(self)@.regs.update(reg as int, value),
    {
        if reg >= NREGS {
            return Err(Error::NoReg(reg));
        }
        self.regs[reg] = value;
        Ok(())
    }

    /// move-if a,b,c: copies register b into register a when register c is
    /// non-zero; register a is untouched when register c is zero.
    fn move_if(&mut self) -> (r: Result<bool, Error>)
        requires
            old(self).wf(),
            old(self)@.regs[0] + 4 <= MEMORY_SIZE,
            old(self)@.mem[old(self)@.regs[0] as int] == 1,
        ensures
            final(self).wf(),
            silent_step_post(old(self)@, final(self)@, r),
    {
        let ip = self.regs[IP] as usize;
        let a = self.memory[ip + 1] as usize;
        let b = self.memory[ip + 2] as usize;
        let c = self.memory[ip + 3] as usize;

        if a >= NREGS || b >= NREGS || c >= NREGS {
            let worst = if a >= b && a >= c {
                a
            } else if b >= c {
                b
            } else {
                c
            };
            return Err(Error::NoReg(worst));
        }
        if self.regs[c] != 0 {
            let v = self.regs[b];
            self.regs[a] = v;
        }
        let ip_now = self.regs[IP];
        self.regs[IP] = ip_now.wrapping_add(4);
        proof {
            assert(self@ =~= spec_step(old(self)@).s);
        }
        Ok(false)
    }

    /// store a,b: writes register b as four little-endian bytes at the
    /// address in register a; an address whose four-byte window does not lie
    /// within memory is rejected.
    fn store(&mut self) -> (r: Result<bool, Error>)
        requires
            old(self).wf(),
            old(self)@.regs[0] + 3 <= MEMORY_SIZE,
            old(self)@.mem[old(self)@.regs[0] as int] == 2,
        ensures
            final(self).wf(),
            silent_step_post(old(self)@, final(self)@, r),
    {
        let ip = self.regs[IP] as usize;
        let a = self.memory[ip + 1] as usize;
        let b = self.memory[ip + 2] as usize;

        if a >= NREGS || b >= NREGS {
            let worst = if a >= b {
                a
            } else {
                b
            };
            return Err(Error::NoReg(worst));
        }
        let addr_word = self.regs[a];
        if addr_word > (MEMORY_SIZE - 4) as u32 {
            return Err(Error::NoMem(addr_word));
        }
        let addr = addr_word as usize;
        let w = self.regs[b];
        self.memory[addr] = (w % 0x100) as u8;
        self.memory[addr + 1] = ((w / 0x100) % 0x100) as u8;
        self.memory[addr + 2] = ((w / 0x10000) % 0x100) as u8;
        self.memory[addr + 3] = ((w / 0x1000000) % 0x100) as u8;
        let ip_now = self.regs[IP];
        self.regs[IP] = ip_now.wrapping_add(3);
        proof {
            assert(self@ =~= spec_step(old(self)@).s);
        }
        Ok(false)
    }

    /// load a,b: reads four little-endian bytes at the address in register b
    /// into register a; an address whose four-byte window does not lie
    /// within memory is rejected.
    fn load(&mut self) -> (r: Result<bool, Error>)
        requires
            old(self).wf(),
            old(self)@.regs[0] + 3 <= MEMORY_SIZE,
            old(self)@.mem[old(self)@.regs[0] as int] == 3,
        ensures
            final(self).wf(),
            silent_step_post(old(self)@, final(self)@, r),
    {
        let ip = self.regs[IP] as usize;
        let a = self.memory[ip + 1] as usize;
        let b = self.memory[ip + 2] as usize;

        if a >= NREGS || b >= NREGS {
            let worst = if a >= b {
                a
            } else {
                b
            };
            return Err(Error::NoReg(worst));
        }
        let addr_word = self.regs[b];
        if addr_word > (MEMORY_SIZE - 4) as u32 {
            return Err(Error::NoMem(addr_word));
        }
        let addr = addr_word as usize;
        let value = self.memory[addr] as u32 + self.memory[addr + 1] as u32 * 0x100
            + self.memory[addr + 2] as u32 * 0x10000 + self.memory[addr + 3] as u32 * 0x1000000;
        self.regs[a] = value;
        let ip_now = self.regs[IP];
        self.regs[IP] = ip_now.wrapping_add(3);
        proof {
            assert(self@ =~= spec_step(old(self)@).s);
        }
        Ok(false)
    }

    /// load-imm a,lo,hi: loads a 16-bit little-endian immediate,
    /// sign-extended to 32 bits, into register a.
    fn load_imm(&mut self) -> (r: Result<bool, Error>)
        requires
            old(self).wf(),
            old(self)@.regs[0] + 4 <= MEMORY_SIZE,
            old(self)@.mem[old(self)@.regs[0] as int] == 4,
        ensures
            final(self).wf(),
            silent_step_post(old(self)@, final(self)@, r),
    {
        let ip = self.regs[IP] as usize;
        let a = self.memory[ip + 1] as usize;
        let lo = self.memory[ip + 2];
        let hi = self.memory[ip + 3];

        if a >= NREGS {
            return Err(Error::NoReg(a));
        }
        let unsigned = lo as u32 + hi as u32 * 0x100;
        let value = if unsigned >= 0x8000 {
            unsigned + 0xFFFF0000
        } else {
            unsigned
        };
        self.regs[a] = value;
        let ip_now = self.regs[IP];
        self.regs[IP] = ip_now.wrapping_add(4);
        proof {
            assert(self@ =~= spec_step(old(self)@).s);
        }
        Ok(false)
    }

    /// sub a,b,c: register a becomes register b minus register c, wrapping
    /// modulo 2^32; the difference itself is never an error.
    fn sub(&mut self) -> (r: Result<bool, Error>)
        requires
            old(self).wf(),
            old(self)@.regs[0] + 4 <= MEMORY_SIZE,
            old(self)@.mem[old(self)@.regs[0] as int] == 5,
        ensures
            final(self).wf(),
            silent_step_post(old(self)@, final(self)@, r),
    {
        let ip = self.regs[IP] as usize;
        let a = self.memory[ip + 1] as usize;
        let b = self.memory[ip + 2] as usize;
        let c = self.memory[ip + 3] as usize;

        if a >= NREGS || b >= NREGS || c >= NREGS {
            let worst = if a >= b && a >= c {
                a
            } else if b >= c {
                b
            } else {
                c
            };
            return Err(Error::NoReg(worst));
        }
        let value = self.regs[b].wrapping_sub(self.regs[c]);
        self.regs[a] = value;
        let ip_now = self.regs[IP];
        self.regs[IP] = ip_now.wrapping_add(4);
        proof {
            assert(self@ =~= spec_step(old(self)@).s);
        }
        Ok(false)
    }

    /// out r: sends the low byte of register r to the sink as one character.
    fn out<S: OutputSink>(&mut self, fd: &mut S) -> (r: Result<bool, Error>)
        requires
            old(self).wf(),
            old(self)@.regs[0] + 2 <= MEMORY_SIZE,
            old(self)@.mem[old(self)@.regs[0] as int] == 6,
        ensures
            final(self).wf(),
            sink_step_post(
                old(self)@,
                final(self)@,
                old(fd).bytes(),
                final(fd).bytes(),
                old(fd).reliable(),
                r,
            ),
            old(fd).reliable() ==> final(fd).reliable(),
    {
        let ip = self.regs[IP] as usize;
        let reg = self.memory[ip + 1] as usize;

        if reg >= NREGS {
            return Err(Error::NoReg(reg));
        }
        let character = (self.regs[reg] % 0x100) as u8;
        if !fd.write_byte(character) {
            proof {
                assert(fd.bytes().is_prefix_of(old(fd).bytes() + seq![character]));
            }
            return Err(Error::OutputError);
        }
        let ip_now = self.regs[IP];
        self.regs[IP] = ip_now.wrapping_add(2);
        proof {
            assert(self@ =~= spec_step(old(self)@).s);
            assert(fd.bytes() =~= old(fd).bytes() + spec_step(old(self)@).out);
        }
        Ok(false)
    }

    /// out-number r: sends register r, reinterpreted as a signed 32-bit
    /// number, as decimal text to the sink.
    fn out_number<S: OutputSink>(&mut self, fd: &mut S) -> (r: Result<bool, Error>)
        requires
            old(self).wf(),
            old(self)@.regs[0] + 2 <= MEMORY_SIZE,
            old(self)@.mem[old(self)@.regs[0] as int] == 8,
        ensures
            final(self).wf(),
            sink_step_post(
                old(self)@,
                final(self)@,
                old(fd).bytes(),
                final(fd).bytes(),
                old(fd).reliable(),
                r,
            ),
            old(fd).reliable() ==> final(fd).reliable(),
    {
        let ip = self.regs[IP] as usize;
        let reg = self.memory[ip + 1] as usize;

        if reg >= NREGS {
            return Err(Error::NoReg(reg));
        }
        let text = i32_bytes(self.regs[reg]);
        proof {
            assert(text@.len() > 0);
        }
        if !emit_all(fd, &text) {
            return Err(Error::OutputError);
        }
        let ip_now = self.regs[IP];
        self.regs[IP] = ip_now.wrapping_add(2);
        proof {
            assert(self@ =~= spec_step(old(self)@).s);
        }
        Ok(false)
    }

    /// Advances the instruction pointer by the given byte offset. The host is
    /// trusted to keep the pointer within the 32-bit range.
    pub fn inc(&mut self, offset: u32)
        requires
            old(self).wf(),
            old(self)@.regs[0] + offset <= u32::MAX,
        ensures
            final(self).wf(),
            final(self)@.mem == old(self)@.mem,
            final(self)@.regs == advance_ip(old(self)@.regs, offset),
    {
        let ip = self.regs[IP];
        self.regs[IP] = ip + offset;
    }
}

} // verus!
