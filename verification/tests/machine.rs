use vm::machine::Error;
use vm::machine::Machine;
use vm::machine::MEMORY_SIZE;
use vm::sink::BoundedSink;
use vm::sink::VecSink;

#[test]
fn construction_zero_fills() {
    let m = Machine::new(&[7, 1, 2]).unwrap();
    let mem = m.memory();
    assert_eq!(mem.len(), MEMORY_SIZE);
    assert_eq!(mem[0], 7);
    assert_eq!(mem[1], 1);
    assert_eq!(mem[2], 2);
    for i in 3..MEMORY_SIZE {
        assert_eq!(mem[i], 0);
    }
    assert_eq!(m.regs(), &[0u32; 16][..]);
}

#[test]
fn construction_full_buffer_succeeds() {
    let buffer = vec![9u8; MEMORY_SIZE];
    let m = Machine::new(&buffer).unwrap();
    assert_eq!(m.memory(), &buffer[..]);
}

#[test]
fn construction_overflow() {
    let buffer = vec![0u8; MEMORY_SIZE + 1];
    let r = Machine::new(&buffer);
    assert!(matches!(r, Err(Error::MemoryOverflow)));
}

#[test]
fn load_imm_one() {
    let mut m = Machine::new(&[4, 3, 0x01, 0x00, 7]).unwrap();
    let mut sink = VecSink::new();
    assert_eq!(m.run_on(&mut sink, 10), Ok(true));
    assert_eq!(m.regs()[3], 1);
}

#[test]
fn load_imm_sign_extends() {
    let mut m = Machine::new(&[4, 1, 0xFF, 0xFF, 7]).unwrap();
    let mut sink = VecSink::new();
    assert_eq!(m.run_on(&mut sink, 10), Ok(true));
    assert_eq!(m.regs()[1], 0xFFFF_FFFF);
}

#[test]
fn sub_wraps() {
    let mut m = Machine::new(&[5, 3, 1, 2, 7]).unwrap();
    m.set_reg(1, 5).unwrap();
    m.set_reg(2, 10).unwrap();
    let mut sink = VecSink::new();
    assert_eq!(m.run_on(&mut sink, 10), Ok(true));
    assert_eq!(m.regs()[3], 4_294_967_291);
}

#[test]
fn move_if_taken() {
    let mut m = Machine::new(&[1, 4, 5, 6, 7]).unwrap();
    m.set_reg(5, 1234).unwrap();
    m.set_reg(6, 1).unwrap();
    let mut sink = VecSink::new();
    assert_eq!(m.run_on(&mut sink, 10), Ok(true));
    assert_eq!(m.regs()[4], 1234);
}

#[test]
fn move_if_not_taken() {
    let mut m = Machine::new(&[1, 4, 5, 6, 7]).unwrap();
    m.set_reg(4, 99).unwrap();
    m.set_reg(5, 1234).unwrap();
    m.set_reg(6, 0).unwrap();
    let mut sink = VecSink::new();
    assert_eq!(m.run_on(&mut sink, 10), Ok(true));
    assert_eq!(m.regs()[4], 99);
}

#[test]
fn store_load_round_trip() {
    // store 1,2 writes register 2 at the address in register 1; load 3,4
    // then reads the address in register 4 into register 3.
    let mut m = Machine::new(&[2, 1, 2, 3, 3, 4, 7]).unwrap();
    m.set_reg(1, 100).unwrap();
    m.set_reg(2, 0xDEAD_BEEF).unwrap();
    m.set_reg(4, 100).unwrap();
    let mut sink = VecSink::new();
    assert_eq!(m.run_on(&mut sink, 10), Ok(true));
    assert_eq!(m.regs()[3], 0xDEAD_BEEF);
    assert_eq!(&m.memory()[100..104], &[0xEF, 0xBE, 0xAD, 0xDE]);
}

#[test]
fn out_writes_single_byte() {
    let mut m = Machine::new(&[6, 1, 7]).unwrap();
    m.set_reg(1, 65).unwrap();
    let mut sink = VecSink::new();
    assert_eq!(m.run_on(&mut sink, 10), Ok(true));
    assert_eq!(sink.data(), b"A");
}

#[test]
fn out_writes_low_byte_only() {
    let mut m = Machine::new(&[6, 1, 7]).unwrap();
    m.set_reg(1, 0x1234_5642).unwrap();
    let mut sink = VecSink::new();
    assert_eq!(m.run_on(&mut sink, 10), Ok(true));
    assert_eq!(sink.data(), b"B");
}

#[test]
fn out_writes_high_byte_values_verbatim() {
    // The low byte goes to the sink as that one byte, whatever its value.
    let mut m = Machine::new(&[6, 1, 7]).unwrap();
    m.set_reg(1, 200).unwrap();
    let mut sink = VecSink::new();
    assert_eq!(m.run_on(&mut sink, 10), Ok(true));
    assert_eq!(sink.data(), &[200u8]);
}

#[test]
fn out_number_negative_one() {
    let mut m = Machine::new(&[8, 1, 7]).unwrap();
    m.set_reg(1, 0xFFFF_FFFF).unwrap();
    let mut sink = VecSink::new();
    assert_eq!(m.run_on(&mut sink, 10), Ok(true));
    assert_eq!(sink.data(), b"-1");
}

#[test]
fn out_number_values() {
    for (value, text) in [
        (0u32, "0"),
        (7, "7"),
        (12345, "12345"),
        (2_147_483_647, "2147483647"),
        (0x8000_0000, "-2147483648"),
        (0xFFFF_FF85, "-123"),
    ] {
        let mut m = Machine::new(&[8, 1, 7]).unwrap();
        m.set_reg(1, value).unwrap();
        let mut sink = VecSink::new();
        assert_eq!(m.run_on(&mut sink, 10), Ok(true));
        assert_eq!(sink.data(), text.as_bytes());
    }
}

#[test]
fn wrong_instruction_stops_run() {
    let mut m = Machine::new(&[255, 4, 1, 5, 0, 7]).unwrap();
    let mut sink = VecSink::new();
    assert_eq!(m.run_on(&mut sink, 10), Err(Error::WrongInstruction(255)));
    // Nothing after the unknown opcode executed: register 1 is untouched and
    // the instruction pointer still points at the bad opcode.
    assert_eq!(m.regs()[1], 0);
    assert_eq!(m.regs()[0], 0);
}

#[test]
fn wrong_instruction_zero_opcode() {
    let mut m = Machine::new(&[0]).unwrap();
    let mut sink = VecSink::new();
    assert_eq!(m.run_on(&mut sink, 10), Err(Error::WrongInstruction(0)));
}

#[test]
fn halt_terminates_without_executing_beyond() {
    let mut m = Machine::new(&[7, 4, 1, 5, 0]).unwrap();
    let mut sink = VecSink::new();
    assert_eq!(m.run_on(&mut sink, 10), Ok(true));
    assert_eq!(m.regs()[1], 0);
    assert_eq!(m.regs()[0], 1);
}

#[test]
fn bad_register_single_operand() {
    let mut m = Machine::new(&[4, 16, 1, 0]).unwrap();
    let mut sink = VecSink::new();
    assert_eq!(m.step_on(&mut sink), Err(Error::NoReg(16)));
    // The failed instruction mutated nothing.
    assert_eq!(m.regs(), &[0u32; 16][..]);
}

#[test]
fn bad_register_carries_largest_index() {
    let mut m = Machine::new(&[5, 1, 17, 20, 7]).unwrap();
    let mut sink = VecSink::new();
    assert_eq!(m.run_on(&mut sink, 10), Err(Error::NoReg(20)));
    assert_eq!(m.regs(), &[0u32; 16][..]);
}

#[test]
fn instruction_pointer_out_of_memory() {
    let mut m = Machine::new(&[7]).unwrap();
    m.set_reg(0, MEMORY_SIZE as u32).unwrap();
    let mut sink = VecSink::new();
    assert_eq!(m.step_on(&mut sink), Err(Error::NoMem(MEMORY_SIZE as u32)));
}

#[test]
fn store_address_out_of_memory() {
    let mut m = Machine::new(&[2, 1, 2, 7]).unwrap();
    m.set_reg(1, MEMORY_SIZE as u32).unwrap();
    m.set_reg(2, 42).unwrap();
    let mut sink = VecSink::new();
    assert_eq!(m.run_on(&mut sink, 10), Err(Error::NoMem(MEMORY_SIZE as u32)));
}

#[test]
fn store_address_window_past_end() {
    // The whole four-byte window must fit: the last three addresses of
    // memory are rejected as a store target.
    let last = (MEMORY_SIZE - 3) as u32;
    let mut m = Machine::new(&[2, 1, 2, 7]).unwrap();
    m.set_reg(1, last).unwrap();
    m.set_reg(2, 42).unwrap();
    let mut sink = VecSink::new();
    assert_eq!(m.run_on(&mut sink, 10), Err(Error::NoMem(last)));
}

#[test]
fn load_address_window_past_end() {
    let near_end = (MEMORY_SIZE - 2) as u32;
    let mut m = Machine::new(&[3, 1, 2, 7]).unwrap();
    m.set_reg(2, near_end).unwrap();
    let mut sink = VecSink::new();
    assert_eq!(m.run_on(&mut sink, 10), Err(Error::NoMem(near_end)));
    assert_eq!(m.regs()[1], 0);
}

#[test]
fn refused_write_is_an_output_error() {
    let mut m = Machine::new(&[6, 1, 7]).unwrap();
    m.set_reg(1, 65).unwrap();
    let mut sink = BoundedSink::new(0);
    assert_eq!(m.run_on(&mut sink, 10), Err(Error::OutputError));
    // The failing instruction left the machine unchanged.
    assert_eq!(m.regs()[0], 0);
    assert!(sink.data().is_empty());
}

#[test]
fn refused_write_mid_number_keeps_prefix() {
    // out-number needs three bytes for 123; a sink with room for two
    // refuses the third, keeps what it accepted, and the machine does not
    // advance past the failing instruction.
    let mut m = Machine::new(&[8, 1, 7]).unwrap();
    m.set_reg(1, 123).unwrap();
    let mut sink = BoundedSink::new(2);
    assert_eq!(m.run_on(&mut sink, 10), Err(Error::OutputError));
    assert_eq!(sink.data(), b"12");
    assert_eq!(m.regs()[0], 0);
}

#[test]
fn set_reg_validates_index() {
    let mut m = Machine::new(&[]).unwrap();
    assert_eq!(m.set_reg(16, 1), Err(Error::NoReg(16)));
    assert_eq!(m.set_reg(15, 5), Ok(()));
    assert_eq!(m.regs()[15], 5);
}

#[test]
fn inc_advances_instruction_pointer() {
    let mut m = Machine::new(&[]).unwrap();
    m.inc(3);
    assert_eq!(m.regs()[0], 3);
    m.inc(2);
    assert_eq!(m.regs()[0], 5);
}

#[test]
fn run_budget_is_respected() {
    // An endless self-loop: load-imm writes -4 into register 0 and the
    // four-byte advance then wraps the instruction pointer back to 0.
    let mut m = Machine::new(&[4, 0, 0xFC, 0xFF]).unwrap();
    let mut sink = VecSink::new();
    assert_eq!(m.run_on(&mut sink, 1000), Ok(false));
    assert_eq!(m.regs()[0], 0);
}

#[test]
fn run_with_zero_budget_does_nothing() {
    let mut m = Machine::new(&[7]).unwrap();
    let mut sink = VecSink::new();
    assert_eq!(m.run_on(&mut sink, 0), Ok(false));
    assert_eq!(m.run_on(&mut sink, 1), Ok(true));
}

#[test]
fn end_to_end_program() {
    let program = [4, 1, 5, 0, 4, 2, 3, 0, 5, 3, 1, 2, 6, 3, 7];
    let mut m = Machine::new(&program).unwrap();
    let mut sink = VecSink::new();
    assert_eq!(m.run_on(&mut sink, 100), Ok(true));
    assert_eq!(sink.data(), &[2u8]);
    assert_eq!(m.regs()[1], 5);
    assert_eq!(m.regs()[2], 3);
    assert_eq!(m.regs()[3], 2);
}
