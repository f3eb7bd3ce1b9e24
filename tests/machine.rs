use chip8::cpu::{Cpu, Mode, Register};
use chip8::instruction::{decode, DecodeError, Instruction};
use chip8::memory::{ExecFault, LoadError, Mmu, MAX_IMAGE_LEN, PROGRAM_START};

fn machine(program: &[u8]) -> Cpu {
    let mut mmu = Mmu::new();
    mmu.load_rom(program.to_vec()).unwrap();
    Cpu::new(mmu)
}

fn byte_at(cpu: &Cpu, addr: usize) -> u8 {
    cpu.mmu().read_byte(addr).unwrap()
}

#[test]
fn decode_full_word_matches() {
    assert_eq!(decode(0x00E0), Ok(Instruction::Cls));
    assert_eq!(decode(0x00EE), Ok(Instruction::Ret));
    assert_eq!(decode(0x0123), Err(DecodeError::UnknownOpcode(0x0123)));
}

#[test]
fn decode_high_nibble_families() {
    assert_eq!(decode(0x1ABC), Ok(Instruction::Jp { addr: 0xABC }));
    assert_eq!(decode(0x2FFF), Ok(Instruction::Call { addr: 0xFFF }));
    assert_eq!(decode(0x3A42), Ok(Instruction::SeByte { x: 0xA, byte: 0x42 }));
    assert_eq!(decode(0x4B00), Ok(Instruction::SneByte { x: 0xB, byte: 0x00 }));
    assert_eq!(decode(0x5120), Ok(Instruction::SeReg { x: 1, y: 2 }));
    assert_eq!(decode(0x6F99), Ok(Instruction::LdByte { x: 0xF, byte: 0x99 }));
    assert_eq!(decode(0x7E01), Ok(Instruction::AddByte { x: 0xE, byte: 0x01 }));
    assert_eq!(decode(0x9340), Ok(Instruction::SneReg { x: 3, y: 4 }));
    assert_eq!(decode(0xA123), Ok(Instruction::LdI { addr: 0x123 }));
    assert_eq!(decode(0xB200), Ok(Instruction::JpV0 { addr: 0x200 }));
    assert_eq!(decode(0xC50F), Ok(Instruction::Rnd { x: 5, byte: 0x0F }));
    assert_eq!(decode(0xD125), Ok(Instruction::Draw { x: 1, y: 2, n: 5 }));
}

#[test]
fn decode_arithmetic_family() {
    assert_eq!(decode(0x8120), Ok(Instruction::LdReg { x: 1, y: 2 }));
    assert_eq!(decode(0x8121), Ok(Instruction::Or { x: 1, y: 2 }));
    assert_eq!(decode(0x8122), Ok(Instruction::And { x: 1, y: 2 }));
    assert_eq!(decode(0x8123), Ok(Instruction::Xor { x: 1, y: 2 }));
    assert_eq!(decode(0x8124), Ok(Instruction::AddReg { x: 1, y: 2 }));
    assert_eq!(decode(0x8125), Ok(Instruction::Sub { x: 1, y: 2 }));
    assert_eq!(decode(0x8126), Ok(Instruction::Shr { x: 1, y: 2 }));
    assert_eq!(decode(0x8127), Ok(Instruction::Subn { x: 1, y: 2 }));
    assert_eq!(decode(0x812E), Ok(Instruction::Shl { x: 1, y: 2 }));
    assert_eq!(decode(0x8128), Err(DecodeError::UnknownOpcode(0x8128)));
    assert_eq!(decode(0x812F), Err(DecodeError::UnknownOpcode(0x812F)));
}

#[test]
fn decode_extended_families() {
    assert_eq!(decode(0xE39E), Ok(Instruction::SkipKey { x: 3 }));
    assert_eq!(decode(0xE3A1), Ok(Instruction::SkipNoKey { x: 3 }));
    assert_eq!(decode(0xE3A2), Err(DecodeError::UnknownOpcode(0xE3A2)));
    assert_eq!(decode(0xFA07), Ok(Instruction::LdFromDelay { x: 0xA }));
    assert_eq!(decode(0xFA0A), Ok(Instruction::WaitKey { x: 0xA }));
    assert_eq!(decode(0xFA15), Ok(Instruction::LdDelay { x: 0xA }));
    assert_eq!(decode(0xFA18), Ok(Instruction::LdSound { x: 0xA }));
    assert_eq!(decode(0xFA1E), Ok(Instruction::AddI { x: 0xA }));
    assert_eq!(decode(0xFA29), Ok(Instruction::SpriteChar { x: 0xA }));
    assert_eq!(decode(0xFA33), Ok(Instruction::Bcd { x: 0xA }));
    assert_eq!(decode(0xFA55), Ok(Instruction::StoreRegs { x: 0xA }));
    assert_eq!(decode(0xFA65), Ok(Instruction::LoadRegs { x: 0xA }));
    assert_eq!(decode(0xFA66), Err(DecodeError::UnknownOpcode(0xFA66)));
}

#[test]
fn decode_every_word_is_one_instruction_or_an_error() {
    let mut known = 0u32;
    for w in 0..=u16::MAX {
        if decode(w).is_ok() {
            known += 1;
        }
    }
    // 2 full words, 12 nibble families of 4096, 9 of 256 under 8,
    // 2 + 9 of 16 under E and F.
    assert_eq!(known, 2 + 12 * 4096 + 9 * 256 + 11 * 16);
}

#[test]
fn register_index_accepts_all_nibbles() {
    let cpu = machine(&[]);
    assert_eq!(cpu.reg_from_nibble(0), Some(Register::V(0)));
    assert_eq!(cpu.reg_from_nibble(12), Some(Register::V(12)));
    assert_eq!(cpu.reg_from_nibble(15), Some(Register::V(15)));
    assert_eq!(cpu.reg_from_nibble(16), None);
}

#[test]
fn add_sets_carry() {
    let mut cpu = machine(&[]);
    cpu.set_v(0, 0xFF);
    cpu.set_v(1, 0x01);
    cpu.execute_instruction(Instruction::AddReg { x: 0, y: 1 }, 0).unwrap();
    assert_eq!(cpu.v(0), 0x00);
    assert_eq!(cpu.v(0xF), 1);
    assert_eq!(cpu.pc(), 0x202);
}

#[test]
fn add_without_carry_clears_flag() {
    let mut cpu = machine(&[]);
    cpu.set_v(0, 0x10);
    cpu.set_v(1, 0x22);
    cpu.set_v(0xF, 7);
    cpu.execute_instruction(Instruction::AddReg { x: 0, y: 1 }, 0).unwrap();
    assert_eq!(cpu.v(0), 0x32);
    assert_eq!(cpu.v(0xF), 0);
}

#[test]
fn sub_wraps_and_reports_borrow() {
    let mut cpu = machine(&[]);
    cpu.set_v(0, 0x05);
    cpu.set_v(1, 0x0A);
    cpu.execute_instruction(Instruction::Sub { x: 0, y: 1 }, 0).unwrap();
    assert_eq!(cpu.v(0), 0xFB);
    assert_eq!(cpu.v(0xF), 0);
}

#[test]
fn sub_without_borrow_sets_flag() {
    let mut cpu = machine(&[]);
    cpu.set_v(0, 0x0A);
    cpu.set_v(1, 0x0A);
    cpu.execute_instruction(Instruction::Sub { x: 0, y: 1 }, 0).unwrap();
    assert_eq!(cpu.v(0), 0x00);
    assert_eq!(cpu.v(0xF), 1);
}

#[test]
fn subn_subtracts_the_other_way() {
    let mut cpu = machine(&[]);
    cpu.set_v(2, 0x03);
    cpu.set_v(3, 0x10);
    cpu.execute_instruction(Instruction::Subn { x: 2, y: 3 }, 0).unwrap();
    assert_eq!(cpu.v(2), 0x0D);
    assert_eq!(cpu.v(0xF), 1);
}

#[test]
fn flag_wins_when_destination_is_vf() {
    let mut cpu = machine(&[]);
    cpu.set_v(0xF, 0xFF);
    cpu.set_v(1, 0x02);
    cpu.execute_instruction(Instruction::AddReg { x: 0xF, y: 1 }, 0).unwrap();
    assert_eq!(cpu.v(0xF), 1);
}

#[test]
fn shifts_keep_the_bit_shifted_out() {
    let mut cpu = machine(&[]);
    cpu.set_v(4, 0b1000_0011);
    cpu.execute_instruction(Instruction::Shr { x: 4, y: 0 }, 0).unwrap();
    assert_eq!(cpu.v(4), 0b0100_0001);
    assert_eq!(cpu.v(0xF), 1);
    cpu.set_v(4, 0b1000_0010);
    cpu.execute_instruction(Instruction::Shl { x: 4, y: 0 }, 0).unwrap();
    assert_eq!(cpu.v(4), 0b0000_0100);
    assert_eq!(cpu.v(0xF), 1);
    cpu.execute_instruction(Instruction::Shl { x: 4, y: 0 }, 0).unwrap();
    assert_eq!(cpu.v(4), 0b0000_1000);
    assert_eq!(cpu.v(0xF), 0);
}

#[test]
fn logic_and_immediates() {
    let mut cpu = machine(&[]);
    cpu.execute_instruction(Instruction::LdByte { x: 1, byte: 0b1100 }, 0).unwrap();
    cpu.execute_instruction(Instruction::LdByte { x: 2, byte: 0b1010 }, 0).unwrap();
    cpu.execute_instruction(Instruction::LdReg { x: 3, y: 1 }, 0).unwrap();
    cpu.execute_instruction(Instruction::Or { x: 3, y: 2 }, 0).unwrap();
    assert_eq!(cpu.v(3), 0b1110);
    cpu.execute_instruction(Instruction::LdReg { x: 3, y: 1 }, 0).unwrap();
    cpu.execute_instruction(Instruction::And { x: 3, y: 2 }, 0).unwrap();
    assert_eq!(cpu.v(3), 0b1000);
    cpu.execute_instruction(Instruction::LdReg { x: 3, y: 1 }, 0).unwrap();
    cpu.execute_instruction(Instruction::Xor { x: 3, y: 2 }, 0).unwrap();
    assert_eq!(cpu.v(3), 0b0110);
    cpu.execute_instruction(Instruction::AddByte { x: 3, byte: 0xFF }, 0).unwrap();
    assert_eq!(cpu.v(3), 0b0101);
    assert_eq!(cpu.pc(), 0x200 + 2 * 9);
}

#[test]
fn random_is_masked() {
    let mut cpu = machine(&[]);
    cpu.execute_instruction(Instruction::Rnd { x: 7, byte: 0x0F }, 0xAB).unwrap();
    assert_eq!(cpu.v(7), 0x0B);
}

#[test]
fn skips_advance_by_four_when_taken() {
    let mut cpu = machine(&[]);
    cpu.set_v(1, 0x42);
    cpu.execute_instruction(Instruction::SeByte { x: 1, byte: 0x42 }, 0).unwrap();
    assert_eq!(cpu.pc(), 0x204);
    cpu.execute_instruction(Instruction::SeByte { x: 1, byte: 0x43 }, 0).unwrap();
    assert_eq!(cpu.pc(), 0x206);
    cpu.execute_instruction(Instruction::SneByte { x: 1, byte: 0x43 }, 0).unwrap();
    assert_eq!(cpu.pc(), 0x20A);
    cpu.set_v(2, 0x42);
    cpu.execute_instruction(Instruction::SeReg { x: 1, y: 2 }, 0).unwrap();
    assert_eq!(cpu.pc(), 0x20E);
    cpu.execute_instruction(Instruction::SneReg { x: 1, y: 2 }, 0).unwrap();
    assert_eq!(cpu.pc(), 0x210);
}

#[test]
fn key_skips_follow_key_state() {
    let mut cpu = machine(&[]);
    cpu.set_v(0, 5);
    cpu.execute_instruction(Instruction::SkipKey { x: 0 }, 0).unwrap();
    assert_eq!(cpu.pc(), 0x202);
    cpu.execute_instruction(Instruction::SkipNoKey { x: 0 }, 0).unwrap();
    assert_eq!(cpu.pc(), 0x206);
    cpu.set_key(5, true);
    cpu.execute_instruction(Instruction::SkipKey { x: 0 }, 0).unwrap();
    assert_eq!(cpu.pc(), 0x20A);
    cpu.execute_instruction(Instruction::SkipNoKey { x: 0 }, 0).unwrap();
    assert_eq!(cpu.pc(), 0x20C);
}

#[test]
fn jumps_set_pc() {
    let mut cpu = machine(&[]);
    cpu.execute_instruction(Instruction::Jp { addr: 0x345 }, 0).unwrap();
    assert_eq!(cpu.pc(), 0x345);
    cpu.set_v(0, 0x10);
    cpu.execute_instruction(Instruction::JpV0 { addr: 0x300 }, 0).unwrap();
    assert_eq!(cpu.pc(), 0x310);
}

#[test]
fn draw_collision_on_second_draw() {
    // I points at a sprite byte whose top bit is one pixel.
    let mut mmu = Mmu::new();
    mmu.write_byte(0x300, 0x80).unwrap();
    let mut cpu2 = Cpu::new(mmu);
    cpu2.set_i(0x300);
    cpu2.set_v(1, 10);
    cpu2.set_v(2, 5);
    cpu2.execute_instruction(Instruction::Draw { x: 1, y: 2, n: 1 }, 0).unwrap();
    assert_eq!(cpu2.v(0xF), 0);
    assert!(cpu2.mmu().pixel(10, 5));
    cpu2.execute_instruction(Instruction::Draw { x: 1, y: 2, n: 1 }, 0).unwrap();
    assert_eq!(cpu2.v(0xF), 1);
    assert!(!cpu2.mmu().pixel(10, 5));
}

#[test]
fn draw_wraps_at_both_edges() {
    let mut mmu = Mmu::new();
    mmu.write_byte(0x300, 0xFF).unwrap();
    mmu.write_byte(0x301, 0x81).unwrap();
    let mut cpu = Cpu::new(mmu);
    cpu.set_i(0x300);
    cpu.set_v(0, 60);
    cpu.set_v(1, 31);
    cpu.execute_instruction(Instruction::Draw { x: 0, y: 1, n: 2 }, 0).unwrap();
    assert_eq!(cpu.v(0xF), 0);
    for x in [60, 61, 62, 63, 0, 1, 2, 3] {
        assert!(cpu.mmu().pixel(x, 31));
    }
    assert!(!cpu.mmu().pixel(4, 31));
    assert!(!cpu.mmu().pixel(59, 31));
    assert!(cpu.mmu().pixel(60, 0));
    assert!(!cpu.mmu().pixel(61, 0));
    assert!(cpu.mmu().pixel(3, 0));
    assert_eq!(cpu.mmu().vram_row(0), (1u64 << 3) | (1u64 << 60));
    cpu.clear_vram();
    assert_eq!(cpu.mmu().vram_row(31), 0);
    assert!(!cpu.mmu().pixel(60, 31));
}

#[test]
fn draw_past_memory_end_faults_without_change() {
    let mut cpu = machine(&[]);
    cpu.set_i(0xFFE);
    let r = cpu.execute_instruction(Instruction::Draw { x: 0, y: 0, n: 3 }, 0);
    assert_eq!(r, Err(ExecFault::OutOfBounds { addr: 0x1000 }));
    assert_eq!(cpu.pc(), 0x200);
    assert_eq!(cpu.v(0xF), 0);
}

#[test]
fn cls_clears_the_surface() {
    let mut mmu = Mmu::new();
    mmu.write_byte(0x300, 0xFF).unwrap();
    let mut cpu = Cpu::new(mmu);
    cpu.set_i(0x300);
    cpu.execute_instruction(Instruction::Draw { x: 0, y: 0, n: 1 }, 0).unwrap();
    assert!(cpu.mmu().pixel(0, 0));
    cpu.execute_instruction(Instruction::Cls, 0).unwrap();
    assert!(!cpu.mmu().pixel(0, 0));
    assert_eq!(cpu.pc(), 0x204);
}

#[test]
fn bcd_writes_three_digits() {
    let mut cpu = machine(&[]);
    cpu.set_v(0, 234);
    cpu.set_i(0x300);
    cpu.execute_instruction(Instruction::Bcd { x: 0 }, 0).unwrap();
    assert_eq!(byte_at(&cpu, 0x300), 2);
    assert_eq!(byte_at(&cpu, 0x301), 3);
    assert_eq!(byte_at(&cpu, 0x302), 4);
    assert_eq!(cpu.i(), 0x300);
}

#[test]
fn bcd_past_memory_end_faults() {
    let mut cpu = machine(&[]);
    cpu.set_v(0, 7);
    cpu.set_i(0xFFE);
    let r = cpu.execute_instruction(Instruction::Bcd { x: 0 }, 0);
    assert_eq!(r, Err(ExecFault::OutOfBounds { addr: 0x1000 }));
    assert_eq!(byte_at(&cpu, 0xFFE), 0);
}

#[test]
fn block_transfers_round_trip() {
    let mut cpu = machine(&[]);
    for k in 0..4 {
        cpu.set_v(k, (k as u8 + 1) * 11);
    }
    cpu.set_v(4, 99);
    cpu.set_i(0x400);
    cpu.execute_instruction(Instruction::StoreRegs { x: 3 }, 0).unwrap();
    assert_eq!(byte_at(&cpu, 0x400), 11);
    assert_eq!(byte_at(&cpu, 0x403), 44);
    assert_eq!(byte_at(&cpu, 0x404), 0);
    assert_eq!(cpu.i(), 0x400);
    for k in 0..5 {
        cpu.set_v(k, 0);
    }
    cpu.execute_instruction(Instruction::LoadRegs { x: 2 }, 0).unwrap();
    assert_eq!(cpu.v(0), 11);
    assert_eq!(cpu.v(2), 33);
    assert_eq!(cpu.v(3), 0);
    assert_eq!(cpu.i(), 0x400);
}

#[test]
fn block_transfer_past_memory_end_faults() {
    let mut cpu = machine(&[]);
    cpu.set_i(0xFFF);
    assert_eq!(
        cpu.execute_instruction(Instruction::StoreRegs { x: 1 }, 0),
        Err(ExecFault::OutOfBounds { addr: 0x1000 })
    );
    assert_eq!(
        cpu.execute_instruction(Instruction::LoadRegs { x: 15 }, 0),
        Err(ExecFault::OutOfBounds { addr: 0x100E })
    );
    assert!(cpu.execute_instruction(Instruction::StoreRegs { x: 0 }, 0).is_ok());
}

#[test]
fn address_register_instructions() {
    let mut cpu = machine(&[]);
    cpu.execute_instruction(Instruction::LdI { addr: 0xFF0 }, 0).unwrap();
    assert_eq!(cpu.i(), 0xFF0);
    cpu.set_v(3, 0x20);
    cpu.execute_instruction(Instruction::AddI { x: 3 }, 0).unwrap();
    assert_eq!(cpu.i(), 0x1010);
    cpu.set_i(0xFFFF);
    cpu.execute_instruction(Instruction::AddI { x: 3 }, 0).unwrap();
    assert_eq!(cpu.i(), 0x001F);
    cpu.set_v(3, 0x0A);
    cpu.execute_instruction(Instruction::SpriteChar { x: 3 }, 0).unwrap();
    assert_eq!(cpu.i(), 50);
}

#[test]
fn timers_load_and_read() {
    let mut cpu = machine(&[]);
    cpu.set_v(2, 3);
    cpu.execute_instruction(Instruction::LdDelay { x: 2 }, 0).unwrap();
    cpu.execute_instruction(Instruction::LdSound { x: 2 }, 0).unwrap();
    assert_eq!(cpu.delay_timer(), 3);
    assert!(cpu.sound_active());
    cpu.tick();
    cpu.execute_instruction(Instruction::LdFromDelay { x: 5 }, 0).unwrap();
    assert_eq!(cpu.v(5), 2);
    assert_eq!(cpu.sound_timer(), 2);
}

#[test]
fn timer_stays_at_zero() {
    let mut cpu = machine(&[]);
    cpu.set_v(0, 2);
    cpu.execute_instruction(Instruction::LdSound { x: 0 }, 0).unwrap();
    for _ in 0..10 {
        cpu.tick();
    }
    assert_eq!(cpu.delay_timer(), 0);
    assert_eq!(cpu.sound_timer(), 0);
    assert!(!cpu.sound_active());
}

#[test]
fn call_and_ret_balance() {
    // Each subroutine at 0x300 + 4k calls the next; the deepest returns,
    // and each return lands on a RET placed after the call.
    let mut mmu = Mmu::new();
    let depth = 16u16;
    let mut image = vec![0u8; 0x200];
    let first = 0x300u16;
    image[0] = 0x20 | (first >> 8) as u8;
    image[1] = first as u8;
    for k in 0..depth {
        let at = (first + 4 * k - 0x200) as usize;
        if k + 1 < depth {
            let next = first + 4 * (k + 1);
            image[at] = 0x20 | (next >> 8) as u8;
            image[at + 1] = next as u8;
        } else {
            image[at] = 0x00;
            image[at + 1] = 0xEE;
        }
        image[at + 2] = 0x00;
        image[at + 3] = 0xEE;
    }
    mmu.load_rom(image).unwrap();
    let mut cpu = Cpu::new(mmu);
    // The first call is the one at 0x200, so 15 more calls follow it.
    for _ in 0..depth {
        cpu.step(0).unwrap();
    }
    assert_eq!(cpu.sp(), 16);
    for _ in 0..depth {
        cpu.step(0).unwrap();
    }
    assert_eq!(cpu.sp(), 0);
    assert_eq!(cpu.pc(), 0x202);
}

#[test]
fn seventeenth_call_overflows_and_halts() {
    let mut cpu = machine(&[]);
    for _ in 0..16 {
        cpu.execute_instruction(Instruction::Call { addr: 0x200 }, 0).unwrap();
    }
    assert_eq!(cpu.sp(), 16);
    assert_eq!(
        cpu.execute_instruction(Instruction::Call { addr: 0x200 }, 0),
        Err(ExecFault::StackOverflow)
    );
    // Through `step`: a program that calls itself forever.
    let mut looping = machine(&[0x22, 0x00]);
    for _ in 0..16 {
        looping.step(0).unwrap();
    }
    assert_eq!(looping.step(0), Err(ExecFault::StackOverflow));
    assert_eq!(looping.mode(), Mode::Halted(ExecFault::StackOverflow));
    assert_eq!(looping.step(0), Err(ExecFault::StackOverflow));
    assert_eq!(looping.sp(), 16);
}

#[test]
fn ret_on_empty_stack_underflows() {
    let mut cpu = machine(&[0x00, 0xEE]);
    assert_eq!(cpu.step(0), Err(ExecFault::StackUnderflow));
    assert_eq!(cpu.mode(), Mode::Halted(ExecFault::StackUnderflow));
    assert_eq!(cpu.pc(), 0x200);
}

#[test]
fn unknown_opcode_halts() {
    let mut cpu = machine(&[0x01, 0x23]);
    assert_eq!(cpu.step(0), Err(ExecFault::UnknownOpcode { word: 0x0123 }));
    assert_eq!(cpu.mode(), Mode::Halted(ExecFault::UnknownOpcode { word: 0x0123 }));
}

#[test]
fn fetch_past_memory_end_halts() {
    let mut cpu = machine(&[0x1F, 0xFF]);
    cpu.step(0).unwrap();
    assert_eq!(cpu.pc(), 0xFFF);
    assert_eq!(cpu.step(0), Err(ExecFault::OutOfBounds { addr: 0xFFF }));
}

#[test]
fn wait_key_blocks_until_a_key_is_down() {
    let mut cpu = machine(&[0xF3, 0x0A, 0x00, 0xE0]);
    for _ in 0..5 {
        cpu.step(0).unwrap();
        assert_eq!(cpu.pc(), 0x200);
    }
    assert_eq!(cpu.mode(), Mode::AwaitingKey(3));
    cpu.set_v(0, 1);
    cpu.execute_instruction(Instruction::LdDelay { x: 0 }, 0).unwrap();
    cpu.tick();
    assert_eq!(cpu.delay_timer(), 0);
    let pc = cpu.pc();
    cpu.set_key(9, true);
    cpu.set_key(12, true);
    cpu.step(0).unwrap();
    assert_eq!(cpu.pc(), pc + 2);
    assert_eq!(cpu.v(3), 9);
    assert_eq!(cpu.mode(), Mode::Running);
}

#[test]
fn register_values_by_name() {
    let mut cpu = machine(&[0x22, 0x00]);
    cpu.set_v(15, 0xAB);
    cpu.set_i(0x123);
    cpu.step(0).unwrap();
    assert_eq!(cpu.register_value(Register::V(15)), Some(0xAB));
    assert_eq!(cpu.register_value(Register::V(16)), None);
    assert_eq!(cpu.register_value(Register::I), Some(0x123));
    assert_eq!(cpu.register_value(Register::Pc), Some(0x200));
    assert_eq!(cpu.register_value(Register::Sp), Some(1));
    assert_eq!(cpu.register_value(Register::Dt), Some(0));
    assert_eq!(cpu.register_value(Register::St), Some(0));
}

#[test]
fn load_rom_places_image_at_program_start() {
    let mut mmu = Mmu::new();
    mmu.load_rom(vec![0x12, 0x34, 0x56]).unwrap();
    assert_eq!(mmu.read_byte(PROGRAM_START), Ok(0x12));
    assert_eq!(mmu.read_byte(PROGRAM_START + 2), Ok(0x56));
    assert_eq!(mmu.read_byte(PROGRAM_START + 3), Ok(0));
    assert_eq!(mmu.read_word(PROGRAM_START), Ok(0x1234));
}

#[test]
fn load_rom_largest_and_too_large() {
    let mut mmu = Mmu::new();
    assert!(mmu.load_rom(vec![7u8; MAX_IMAGE_LEN]).is_ok());
    assert_eq!(mmu.read_byte(0xFFF), Ok(7));
    let mut other = Mmu::new();
    assert_eq!(
        other.load_rom(vec![7u8; MAX_IMAGE_LEN + 1]),
        Err(LoadError::ImageTooLarge { len: MAX_IMAGE_LEN + 1 })
    );
    assert_eq!(other.read_byte(PROGRAM_START), Ok(0));
}

#[test]
fn memory_bounds() {
    let mut mmu = Mmu::new();
    assert_eq!(mmu.read_byte(4095), Ok(0));
    assert_eq!(mmu.read_byte(4096), Err(ExecFault::OutOfBounds { addr: 4096 }));
    assert_eq!(mmu.read_word(4094), Ok(0));
    assert_eq!(mmu.read_word(4095), Err(ExecFault::OutOfBounds { addr: 4095 }));
    assert_eq!(mmu.write_byte(4096, 1), Err(ExecFault::OutOfBounds { addr: 4096 }));
    assert_eq!(mmu.read_block(4094, 3), Err(ExecFault::OutOfBounds { addr: 4096 }));
    mmu.write_block(4094, &vec![1, 2]).unwrap();
    assert_eq!(mmu.read_block(4094, 2), Ok(vec![1, 2]));
}

#[test]
fn digit_sprites_are_built_in() {
    let mut cpu = machine(&[]);
    cpu.set_v(0, 0x1A);
    cpu.execute_instruction(Instruction::SpriteChar { x: 0 }, 0).unwrap();
    assert_eq!(cpu.i(), 50);
    // The sprite of the digit A: F0 90 F0 90 90.
    assert_eq!(byte_at(&cpu, 50), 0xF0);
    assert_eq!(byte_at(&cpu, 51), 0x90);
    assert_eq!(byte_at(&cpu, 54), 0x90);
    cpu.set_v(1, 0);
    cpu.execute_instruction(Instruction::Draw { x: 1, y: 1, n: 5 }, 0).unwrap();
    assert!(cpu.mmu().pixel(0, 0));
    assert!(!cpu.mmu().pixel(1, 1));
    assert!(cpu.mmu().pixel(3, 4));
    assert!(!cpu.mmu().pixel(4, 0));
    assert_eq!(byte_at(&cpu, 0), 0xF0);
    assert_eq!(byte_at(&cpu, 79), 0x80);
    assert_eq!(byte_at(&cpu, 80), 0x00);
}

#[test]
fn set_keys_replaces_the_key_state() {
    let mut cpu = machine(&[0xF7, 0x0A]);
    cpu.step(0).unwrap();
    let mut keys = [false; 16];
    cpu.set_keys(&keys);
    cpu.step(0).unwrap();
    assert_eq!(cpu.mode(), Mode::AwaitingKey(7));
    keys[15] = true;
    keys[4] = true;
    cpu.set_keys(&keys);
    cpu.step(0).unwrap();
    assert_eq!(cpu.v(7), 4);
    assert_eq!(cpu.pc(), 0x202);
    cpu.set_v(0, 15);
    cpu.execute_instruction(Instruction::SkipKey { x: 0 }, 0).unwrap();
    assert_eq!(cpu.pc(), 0x206);
    cpu.set_keys(&[false; 16]);
    cpu.execute_instruction(Instruction::SkipKey { x: 0 }, 0).unwrap();
    assert_eq!(cpu.pc(), 0x208);
}

#[test]
fn single_call_returns_after_the_call() {
    let mut image = vec![0u8; 0x102];
    image[0] = 0x23;
    image[1] = 0x00;
    image[0x100] = 0x00;
    image[0x101] = 0xEE;
    let mut cpu = machine(&image);
    cpu.step(0).unwrap();
    assert_eq!(cpu.pc(), 0x300);
    assert_eq!(cpu.sp(), 1);
    cpu.step(0).unwrap();
    assert_eq!(cpu.pc(), 0x202);
    assert_eq!(cpu.sp(), 0);
}
