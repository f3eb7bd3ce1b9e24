//! The machine's registers, its step and its timers.
use vstd::prelude::*;
use crate::instruction::{decode, spec_decode, DecodeError, Instruction};
use crate::memory::{
    collides, drawn, word_at, ExecFault, Mmu, DISPLAY_HEIGHT, MEMORY_SIZE,
    PROGRAM_START,
};

verus! {

/// Depth of the call stack.
pub const STACK_DEPTH: usize = 16;
/// Number of general registers, and of keys.
pub const NUM_REGS: usize = 16;
/// Bytes per digit sprite; the digit sprites start at address 0.
pub const FONT_SPRITE_LEN: u16 = 5;

/// A register of the machine, as the host names it.
#[derive(Debug, Eq, PartialEq, Hash, Clone, Copy, Structural)]
pub enum Register {
    /// A general register, `V(0)` to `V(15)`.
    V(usize),
    /// The address register.
    I,
    /// The delay timer.
    Dt,
    /// The sound timer.
    St,
    /// The program counter.
    Pc,
    /// The stack pointer: the depth of the call stack.
    Sp,
}

/// What the executor is doing.
#[derive(Debug, Clone, Copy, PartialEq, Eq, Structural)]
pub enum Mode {
    /// Fetching and executing instructions.
    Running,
    /// Waiting for a key press, whose index goes to the given register.
    AwaitingKey(u8),
    /// Stopped for good by a fault.
    Halted(ExecFault),
}

/// The whole visible state of the machine.
pub struct CpuState {
    pub ram: Seq<u8>,
    pub vram: Seq<u64>,
    pub v: Seq<u8>,
    pub i: u16,
    pub stack: Seq<u16>,
    pub pc: u16,
    pub delay: u8,
    pub sound: u8,
    pub keys: Seq<bool>,
    pub mode: Mode,
}

/// The sizes of the machine hold.
pub open spec fn state_wf(s: CpuState) -> bool {
    &&& s.ram.len() == MEMORY_SIZE
    &&& s.vram.len() == DISPLAY_HEIGHT
    &&& s.v.len() == NUM_REGS
    &&& s.stack.len() <= STACK_DEPTH
    &&& s.keys.len() == NUM_REGS
    &&& (s.mode matches Mode::AwaitingKey(x) ==> x < 16)
}

/// `s` with the program counter moved on by `d` (16-bit wrapping).
pub open spec fn advance(s: CpuState, d: int) -> CpuState {
    CpuState { pc: (s.pc + d) as u16, ..s }
}

/// `s` moved on by 4 when `cond` holds, else by 2.
pub open spec fn skip_if(s: CpuState, cond: bool) -> CpuState {
    advance(s, if cond { 4 } else { 2 })
}

/// Registers after `Vx = val` and then `VF = flag`.
pub open spec fn with_flag(v: Seq<u8>, x: u8, val: u8, flag: bool) -> Seq<u8> {
    v.update(x as int, val).update(15, if flag { 1u8 } else { 0u8 })
}

/// Whether the key named by the register value `k` is down; a value above
/// 15 names no key.
pub open spec fn key_down(keys: Seq<bool>, k: u8) -> bool {
    k < 16 && keys[k as int]
}

/// The lowest key at or above `k` that is down.
pub open spec fn first_key_down_from(keys: Seq<bool>, k: int) -> Option<u8>
    decreases 16 - k,
{
    if k >= 16 || k < 0 {
        None
    } else if keys[k] {
        Some(k as u8)
    } else {
        first_key_down_from(keys, k + 1)
    }
}

/// The lowest key that is down.
pub open spec fn first_key_down(keys: Seq<bool>) -> Option<u8> {
    first_key_down_from(keys, 0)
}

/// The effect of one instruction, the program counter pointing at it: the
/// next state, or the fault it raises (checked before anything changes).
/// Opaque, as its cases are many: a proof that needs them says
/// `reveal(execute_spec)`.
#[verifier::opaque]
pub open spec fn execute_spec(s: CpuState, ins: Instruction, rnd: u8) -> Result<CpuState, ExecFault> {
    match ins {
        Instruction::Cls => Ok(
            advance(CpuState { vram: Seq::new(DISPLAY_HEIGHT as nat, |j: int| 0u64), ..s }, 2),
        ),
        Instruction::Ret => if s.stack.len() == 0 {
            Err(ExecFault::StackUnderflow)
        } else {
            Ok(CpuState { pc: s.stack.last(), stack: s.stack.drop_last(), ..s })
        },
        Instruction::Jp { addr } => Ok(CpuState { pc: addr, ..s }),
        Instruction::Call { addr } => if s.stack.len() >= STACK_DEPTH {
            Err(ExecFault::StackOverflow)
        } else {
            Ok(CpuState { pc: addr, stack: s.stack.push((s.pc + 2) as u16), ..s })
        },
        Instruction::SeByte { x, byte } => Ok(skip_if(s, s.v[x as int] == byte)),
        Instruction::SneByte { x, byte } => Ok(skip_if(s, s.v[x as int] != byte)),
        Instruction::SeReg { x, y } => Ok(skip_if(s, s.v[x as int] == s.v[y as int])),
        Instruction::SneReg { x, y } => Ok(skip_if(s, s.v[x as int] != s.v[y as int])),
        Instruction::LdByte { x, byte } => Ok(
            advance(CpuState { v: s.v.update(x as int, byte), ..s }, 2),
        ),
        Instruction::AddByte { x, byte } => Ok(
            advance(CpuState { v: s.v.update(x as int, ((s.v[x as int] + byte) % 256) as u8), ..s }, 2),
        ),
        Instruction::LdReg { x, y } => Ok(
            advance(CpuState { v: s.v.update(x as int, s.v[y as int]), ..s }, 2),
        ),
        Instruction::Or { x, y } => Ok(
            advance(CpuState { v: s.v.update(x as int, s.v[x as int] | s.v[y as int]), ..s }, 2),
        ),
        Instruction::And { x, y } => Ok(
            advance(CpuState { v: s.v.update(x as int, s.v[x as int] & s.v[y as int]), ..s }, 2),
        ),
        Instruction::Xor { x, y } => Ok(
            advance(CpuState { v: s.v.update(x as int, s.v[x as int] ^ s.v[y as int]), ..s }, 2),
        ),
        Instruction::AddReg { x, y } => {
            let sum = s.v[x as int] + s.v[y as int];
            Ok(advance(CpuState { v: with_flag(s.v, x, (sum % 256) as u8, sum > 255), ..s }, 2))
        },
        Instruction::Sub { x, y } => {
            let (a, b) = (s.v[x as int], s.v[y as int]);
            Ok(advance(CpuState { v: with_flag(s.v, x, ((a - b + 256) % 256) as u8, a >= b), ..s }, 2))
        },
        Instruction::Subn { x, y } => {
            let (a, b) = (s.v[x as int], s.v[y as int]);
            Ok(advance(CpuState { v: with_flag(s.v, x, ((b - a + 256) % 256) as u8, b >= a), ..s }, 2))
        },
        Instruction::Shr { x, .. } => {
            let a = s.v[x as int];
            Ok(advance(CpuState { v: with_flag(s.v, x, (a / 2) as u8, a % 2 == 1), ..s }, 2))
        },
        Instruction::Shl { x, .. } => {
            let a = s.v[x as int];
            Ok(advance(CpuState { v: with_flag(s.v, x, ((a * 2) % 256) as u8, a >= 128), ..s }, 2))
        },
        Instruction::LdI { addr } => Ok(advance(CpuState { i: addr, ..s }, 2)),
        Instruction::JpV0 { addr } => Ok(CpuState { pc: (addr + s.v[0]) as u16, ..s }),
        Instruction::Rnd { x, byte } => Ok(
            advance(CpuState { v: s.v.update(x as int, rnd & byte), ..s }, 2),
        ),
        Instruction::Draw { x, y, n } => if s.i + n > MEMORY_SIZE {
            Err(ExecFault::OutOfBounds { addr: (s.i + n - 1) as usize })
        } else {
            let sprite = s.ram.subrange(s.i as int, s.i + n);
            let (vx, vy) = (s.v[x as int], s.v[y as int]);
            Ok(
                advance(
                    CpuState {
                        vram: drawn(s.vram, sprite, vx, vy),
                        v: s.v.update(15, if collides(s.vram, sprite, vx, vy) { 1u8 } else { 0u8 }),
                        ..s
                    },
                    2,
                ),
            )
        },
        Instruction::SkipKey { x } => Ok(skip_if(s, key_down(s.keys, s.v[x as int]))),
        Instruction::SkipNoKey { x } => Ok(skip_if(s, !key_down(s.keys, s.v[x as int]))),
        Instruction::LdFromDelay { x } => Ok(
            advance(CpuState { v: s.v.update(x as int, s.delay), ..s }, 2),
        ),
        Instruction::WaitKey { x } => Ok(CpuState { mode: Mode::AwaitingKey(x), ..s }),
        Instruction::LdDelay { x } => Ok(advance(CpuState { delay: s.v[x as int], ..s }, 2)),
        Instruction::LdSound { x } => Ok(advance(CpuState { sound: s.v[x as int], ..s }, 2)),
        Instruction::AddI { x } => Ok(advance(CpuState { i: (s.i + s.v[x as int]) as u16, ..s }, 2)),
        Instruction::SpriteChar { x } => Ok(
            advance(CpuState { i: ((s.v[x as int] % 16) * FONT_SPRITE_LEN) as u16, ..s }, 2),
        ),
        Instruction::Bcd { x } => if s.i + 3 > MEMORY_SIZE {
            Err(ExecFault::OutOfBounds { addr: (s.i + 2) as usize })
        } else {
            let a = s.v[x as int];
            let ram = s.ram.update(s.i as int, (a / 100) as u8).update(
                s.i + 1,
                ((a / 10) % 10) as u8,
            ).update(s.i + 2, (a % 10) as u8);
            Ok(advance(CpuState { ram, ..s }, 2))
        },
        Instruction::StoreRegs { x } => if s.i + x + 1 > MEMORY_SIZE {
            Err(ExecFault::OutOfBounds { addr: (s.i + x) as usize })
        } else {
            let ram = Seq::new(
                MEMORY_SIZE as nat,
                |a: int|
                    if s.i <= a <= s.i + x {
                        s.v[a - s.i]
                    } else {
                        s.ram[a]
                    },
            );
            Ok(advance(CpuState { ram, ..s }, 2))
        },
        Instruction::LoadRegs { x } => if s.i + x + 1 > MEMORY_SIZE {
            Err(ExecFault::OutOfBounds { addr: (s.i + x) as usize })
        } else {
            let v = Seq::new(
                NUM_REGS as nat,
                |k: int|
                    if k <= x {
                        s.ram[s.i + k]
                    } else {
                        s.v[k]
                    },
            );
            Ok(advance(CpuState { v, ..s }, 2))
        },
    }
}

/// The instruction at the program counter, or why there is none.
pub open spec fn fetch_spec(s: CpuState) -> Result<Instruction, ExecFault> {
    if s.pc + 1 >= MEMORY_SIZE {
        Err(ExecFault::OutOfBounds { addr: s.pc as usize })
    } else {
        match spec_decode(word_at(s.ram, s.pc as int)) {
            Ok(ins) => Ok(ins),
            Err(DecodeError::UnknownOpcode(w)) => Err(ExecFault::UnknownOpcode { word: w }),
        }
    }
}

/// `t` and `r` are what executing `ins` from `s` gives: the next state, or
/// the fault with the state unchanged.
pub open spec fn executed(s: CpuState, ins: Instruction, rnd: u8, t: CpuState, r: Result<(), ExecFault>) -> bool {
    match execute_spec(s, ins, rnd) {
        Ok(next) => r == Ok::<(), ExecFault>(()) && t == next,
        Err(f) => r == Err::<(), ExecFault>(f) && t == s,
    }
}

/// `s` stopped by `f`.
pub open spec fn halt(s: CpuState, f: ExecFault) -> CpuState {
    CpuState { mode: Mode::Halted(f), ..s }
}

/// One step of the executor: the next state and what the step returns.
pub open spec fn step_spec(s: CpuState, rnd: u8) -> (CpuState, Result<(), ExecFault>) {
    match s.mode {
        Mode::Halted(f) => (s, Err(f)),
        Mode::AwaitingKey(x) => match first_key_down(s.keys) {
            None => (s, Ok(())),
            Some(k) => (
                CpuState {
                    v: s.v.update(x as int, k),
                    pc: (s.pc + 2) as u16,
                    mode: Mode::Running,
                    ..s
                },
                Ok(()),
            ),
        },
        Mode::Running => match fetch_spec(s) {
            Err(f) => (halt(s, f), Err(f)),
            Ok(ins) => match execute_spec(s, ins, rnd) {
                Ok(t) => (t, Ok(())),
                Err(f) => (halt(s, f), Err(f)),
            },
        },
    }
}

/// One timer tick: both timers count down by one, stopping at zero.
pub open spec fn tick_spec(s: CpuState) -> CpuState {
    CpuState {
        delay: if s.delay > 0 { (s.delay - 1) as u8 } else { 0 },
        sound: if s.sound > 0 { (s.sound - 1) as u8 } else { 0 },
        ..s
    }
}

/// Instructions that `execute_flow` handles.
spec fn in_flow_group(ins: Instruction) -> bool {
    match ins {
        Instruction::Cls
        | Instruction::Ret
        | Instruction::Jp { .. }
        | Instruction::Call { .. }
        | Instruction::SeByte { .. }
        | Instruction::SneByte { .. }
        | Instruction::SeReg { .. }
        | Instruction::SneReg { .. }
        | Instruction::JpV0 { .. }
        | Instruction::SkipKey { .. }
        | Instruction::SkipNoKey { .. }
        | Instruction::WaitKey { .. } => true,
        _ => false,
    }
}

/// Instructions that `execute_alu` handles.
spec fn in_alu_group(ins: Instruction) -> bool {
    match ins {
        Instruction::LdByte { .. }
        | Instruction::AddByte { .. }
        | Instruction::LdReg { .. }
        | Instruction::Or { .. }
        | Instruction::And { .. }
        | Instruction::Xor { .. }
        | Instruction::AddReg { .. }
        | Instruction::Sub { .. }
        | Instruction::Subn { .. }
        | Instruction::Shr { .. }
        | Instruction::Shl { .. }
        | Instruction::Rnd { .. }
        | Instruction::LdFromDelay { .. }
        | Instruction::LdDelay { .. }
        | Instruction::LdSound { .. } => true,
        _ => false,
    }
}

/// Instructions that `execute_memory` handles.
spec fn in_memory_group(ins: Instruction) -> bool {
    match ins {
        Instruction::LdI { .. }
        | Instruction::AddI { .. }
        | Instruction::SpriteChar { .. }
        | Instruction::Draw { .. }
        | Instruction::Bcd { .. }
        | Instruction::StoreRegs { .. }
        | Instruction::LoadRegs { .. } => true,
        _ => false,
    }
}

/// The machine: memory, registers, call stack, timers and keys.
pub struct Cpu {
    mmu: Mmu,
    v: Vec<u8>,
    i: u16,
    stack: Vec<u16>,
    pc: u16,
    delay: u8,
    sound: u8,
    keys: Vec<bool>,
    mode: Mode,
}

impl View for Cpu {
    type V = CpuState;

    closed spec fn view(&self) -> CpuState {
        CpuState {
            ram: self.mmu@.ram,
            vram: self.mmu@.vram,
            v: self.v@,
            i: self.i,
            stack: self.stack@,
            pc: self.pc,
            delay: self.delay,
            sound: self.sound,
            keys: self.keys@,
            mode: self.mode,
        }
    }
}

impl Cpu {
    pub open spec fn wf(&self) -> bool {
        state_wf(self@)
    }

    /// A machine over `mmu`, at `PROGRAM_START`, with zero registers and
    /// timers, an empty stack and no key down.
    pub fn new(mmu: Mmu) -> (c: Cpu)
        requires
            mmu.wf(),
        ensures
            c.wf(),
            c@.ram == mmu@.ram,
            c@.vram == mmu@.vram,
            c@.v == Seq::new(NUM_REGS as nat, |k: int| 0u8),
            c@.i == 0,
            c@.stack.len() == 0,
            c@.pc == PROGRAM_START,
            c@.delay == 0,
            c@.sound == 0,
            c@.keys == Seq::new(NUM_REGS as nat, |k: int| false),
            c@.mode == Mode::Running,
    {
        let c = Cpu {
            mmu,
            v: vec![0u8; NUM_REGS],
            i: 0,
            stack: Vec::new(),
            pc: PROGRAM_START as u16,
            delay: 0,
            sound: 0,
            keys: vec![false; NUM_REGS],
            mode: Mode::Running,
        };
        assert(c@.v =~= Seq::new(NUM_REGS as nat, |k: int| 0u8));
        assert(c@.keys =~= Seq::new(NUM_REGS as nat, |k: int| false));
        c
    }

    /// The general register named by a 4-bit field; every nibble names one.
    pub fn reg_from_nibble(&self, op: u8) -> (r: Option<Register>)
        ensures
            op < 16 ==> r == Some(Register::V(op as usize)),
            op >= 16 ==> r is None,
    {
        if op < 16 {
            Some(Register::V(op as usize))
        } else {
            None
        }
    }

    /// Fetches and decodes the instruction at the program counter.
    pub fn read_instruction(&self) -> (r: Result<Instruction, ExecFault>)
        requires
            self.wf(),
        ensures
            r == fetch_spec(self@),
            r matches Ok(ins) ==> ins.wf(),
    {
        let word = match self.mmu.read_word(self.pc as usize) {
            Ok(w) => w,
            Err(f) => return Err(f),
        };
        match decode(word) {
            Ok(ins) => Ok(ins),
            Err(DecodeError::UnknownOpcode(w)) => Err(ExecFault::UnknownOpcode { word: w }),
        }
    }

    fn advance_pc(&mut self, d: u16)
        requires
            old(self).wf(),
        ensures
            final(self)@ == advance(old(self)@, d as int),
    {
        self.pc = (self.pc as u32 + d as u32) as u16;
    }

    fn set_with_flag(&mut self, x: u8, val: u8, flag: bool)
        requires
            old(self).wf(),
            x < 16,
        ensures
            final(self)@ == advance(
                CpuState { v: with_flag(old(self)@.v, x, val, flag), ..old(self)@ },
                2,
            ),
    {
        self.v.set(x as usize, val);
        self.v.set(15, if flag { 1 } else { 0 });
        self.advance_pc(2);
    }

    fn set_and_advance(&mut self, x: u8, val: u8)
        requires
            old(self).wf(),
            x < 16,
        ensures
            final(self)@ == advance(CpuState { v: old(self)@.v.update(x as int, val), ..old(self)@ }, 2),
    {
        self.v.set(x as usize, val);
        self.advance_pc(2);
    }

    /// Whether the key named by the register value `k` is down.
    fn is_key_down(&self, k: u8) -> (r: bool)
        requires
            self.wf(),
        ensures
            r == key_down(self@.keys, k),
    {
        k < 16 && self.keys[k as usize]
    }

    /// Control flow: clear, jumps, calls, skips and the key wait.
    fn execute_flow(&mut self, ins: Instruction, random: u8) -> (r: Result<(), ExecFault>)
        requires
            old(self).wf(),
            ins.wf(),
            in_flow_group(ins),
        ensures
            final(self).wf(),
            executed(old(self)@, ins, random, final(self)@, r),
    {
        proof {
            reveal(execute_spec);
        }
        match ins {
            Instruction::Cls => {
                self.clear_vram();
                self.advance_pc(2);
            },
            Instruction::Ret => {
                match self.stack.pop() {
                    Some(a) => {
                        self.pc = a;
                    },
                    None => {
                        return Err(ExecFault::StackUnderflow);
                    },
                }
            },
            Instruction::Jp { addr } => {
                self.pc = addr;
            },
            Instruction::Call { addr } => {
                if self.stack.len() >= STACK_DEPTH {
                    return Err(ExecFault::StackOverflow);
                }
                self.stack.push((self.pc as u32 + 2) as u16);
                self.pc = addr;
            },
            Instruction::SeByte { x, byte } => {
                let d: u16 = if self.v[x as usize] == byte { 4 } else { 2 };
                self.advance_pc(d);
            },
            Instruction::SneByte { x, byte } => {
                let d: u16 = if self.v[x as usize] != byte { 4 } else { 2 };
                self.advance_pc(d);
            },
            Instruction::SeReg { x, y } => {
                let d: u16 = if self.v[x as usize] == self.v[y as usize] { 4 } else { 2 };
                self.advance_pc(d);
            },
            Instruction::SneReg { x, y } => {
                let d: u16 = if self.v[x as usize] != self.v[y as usize] { 4 } else { 2 };
                self.advance_pc(d);
            },
            Instruction::JpV0 { addr } => {
                self.pc = addr + self.v[0] as u16;
            },
            Instruction::SkipKey { x } => {
                let d: u16 = if self.is_key_down(self.v[x as usize]) { 4 } else { 2 };
                self.advance_pc(d);
            },
            Instruction::SkipNoKey { x } => {
                let d: u16 = if !self.is_key_down(self.v[x as usize]) { 4 } else { 2 };
                self.advance_pc(d);
            },
            Instruction::WaitKey { x } => {
                self.mode = Mode::AwaitingKey(x);
            },
            _ => {},
        }
        Ok(())
    }

    /// Register arithmetic and logic, and the timer and random loads.
    fn execute_alu(&mut self, ins: Instruction, random: u8) -> (r: Result<(), ExecFault>)
        requires
            old(self).wf(),
            ins.wf(),
            in_alu_group(ins),
        ensures
            final(self).wf(),
            executed(old(self)@, ins, random, final(self)@, r),
    {
        proof {
            reveal(execute_spec);
        }
        match ins {
            Instruction::LdByte { x, byte } => {
                self.set_and_advance(x, byte);
            },
            Instruction::AddByte { x, byte } => {
                let val = ((self.v[x as usize] as u16 + byte as u16) % 256) as u8;
                self.set_and_advance(x, val);
            },
            Instruction::LdReg { x, y } => {
                let val = self.v[y as usize];
                self.set_and_advance(x, val);
            },
            Instruction::Or { x, y } => {
                let val = self.v[x as usize] | self.v[y as usize];
                self.set_and_advance(x, val);
            },
            Instruction::And { x, y } => {
                let val = self.v[x as usize] & self.v[y as usize];
                self.set_and_advance(x, val);
            },
            Instruction::Xor { x, y } => {
                let val = self.v[x as usize] ^ self.v[y as usize];
                self.set_and_advance(x, val);
            },
            Instruction::AddReg { x, y } => {
                let sum: u16 = self.v[x as usize] as u16 + self.v[y as usize] as u16;
                self.set_with_flag(x, (sum % 256) as u8, sum > 255);
            },
            Instruction::Sub { x, y } => {
                let (a, b) = (self.v[x as usize], self.v[y as usize]);
                let diff: u16 = a as u16 + 256 - b as u16;
                self.set_with_flag(x, (diff % 256) as u8, a >= b);
            },
            Instruction::Subn { x, y } => {
                let (a, b) = (self.v[x as usize], self.v[y as usize]);
                let diff: u16 = b as u16 + 256 - a as u16;
                self.set_with_flag(x, (diff % 256) as u8, b >= a);
            },
            Instruction::Shr { x, .. } => {
                let a = self.v[x as usize];
                self.set_with_flag(x, a / 2, a % 2 == 1);
            },
            Instruction::Shl { x, .. } => {
                let a = self.v[x as usize];
                self.set_with_flag(x, ((a as u16 * 2) % 256) as u8, a >= 128);
            },
            Instruction::Rnd { x, byte } => {
                self.set_and_advance(x, random & byte);
            },
            Instruction::LdFromDelay { x } => {
                let val = self.delay;
                self.set_and_advance(x, val);
            },
            Instruction::LdDelay { x } => {
                self.delay = self.v[x as usize];
                self.advance_pc(2);
            },
            Instruction::LdSound { x } => {
                self.sound = self.v[x as usize];
                self.advance_pc(2);
            },
            _ => {},
        }
        Ok(())
    }

    /// The address register and the instructions that read or write memory.
    fn execute_memory(&mut self, ins: Instruction, random: u8) -> (r: Result<(), ExecFault>)
        requires
            old(self).wf(),
            ins.wf(),
            in_memory_group(ins),
        ensures
            final(self).wf(),
            executed(old(self)@, ins, random, final(self)@, r),
    {
        proof {
            reveal(execute_spec);
        }
        match ins {
            Instruction::LdI { addr } => {
                self.i = addr;
                self.advance_pc(2);
            },
            Instruction::AddI { x } => {
                self.i = (self.i as u32 + self.v[x as usize] as u32) as u16;
                self.advance_pc(2);
            },
            Instruction::SpriteChar { x } => {
                self.i = (self.v[x as usize] % 16) as u16 * FONT_SPRITE_LEN;
                self.advance_pc(2);
            },
            Instruction::Draw { x, y, n } => {
                let (vx, vy) = (self.v[x as usize], self.v[y as usize]);
                match self.mmu.draw_sprite(self.i, n as usize, vx, vy) {
                    Ok(hit) => {
                        self.v.set(15, if hit { 1 } else { 0 });
                        self.advance_pc(2);
                    },
                    Err(f) => {
                        return Err(f);
                    },
                }
            },
            Instruction::Bcd { x } => {
                let a = self.v[x as usize];
                let digits: Vec<u8> = vec![a / 100, (a / 10) % 10, a % 10];
                match self.mmu.write_block(self.i, &digits) {
                    Ok(()) => {
                        proof {
                            let s = old(self)@;
                            assert(self@.ram =~= s.ram.update(s.i as int, (a / 100) as u8).update(
                                s.i + 1,
                                ((a / 10) % 10) as u8,
                            ).update(s.i + 2, (a % 10) as u8));
                        }
                        self.advance_pc(2);
                    },
                    Err(f) => {
                        return Err(f);
                    },
                }
            },
            Instruction::StoreRegs { x } => {
                let mut regs: Vec<u8> = Vec::new();
                let mut k: usize = 0;
                while k <= x as usize
                    invariant
                        x < 16,
                        k <= x + 1,
                        self.wf(),
                        self@ == old(self)@,
                        regs@ == self@.v.subrange(0, k as int),
                    decreases x + 1 - k,
                {
                    regs.push(self.v[k]);
                    k += 1;
                    assert(regs@ =~= self@.v.subrange(0, k as int));
                }
                match self.mmu.write_block(self.i, &regs) {
                    Ok(()) => {
                        let ghost s = old(self)@;
                        assert(self@.ram =~= Seq::new(
                            MEMORY_SIZE as nat,
                            |a: int|
                                if s.i <= a <= s.i + x {
                                    s.v[a - s.i]
                                } else {
                                    s.ram[a]
                                },
                        ));
                        self.advance_pc(2);
                    },
                    Err(f) => {
                        return Err(f);
                    },
                }
            },
            Instruction::LoadRegs { x } => {
                let bytes = match self.mmu.read_block(self.i, x as usize + 1) {
                    Ok(b) => b,
                    Err(f) => {
                        return Err(f);
                    },
                };
                let ghost s = old(self)@;
                let mut k: usize = 0;
                while k <= x as usize
                    invariant
                        x < 16,
                        k <= x + 1,
                        self.wf(),
                        bytes@ == s.ram.subrange(s.i as int, s.i + x + 1),
                        s.i + x + 1 <= MEMORY_SIZE,
                        self@ == (CpuState { v: self@.v, ..s }),
                        forall|j: int|
                            0 <= j < 16 ==> #[trigger] self@.v[j] == if j < k {
                                s.ram[s.i + j]
                            } else {
                                s.v[j]
                            },
                    decreases x + 1 - k,
                {
                    self.v.set(k, bytes[k]);
                    k += 1;
                }
                assert(self@.v =~= Seq::new(
                    NUM_REGS as nat,
                    |j: int|
                        if j <= x {
                            s.ram[s.i + j]
                        } else {
                            s.v[j]
                        },
                ));
                self.advance_pc(2);
            },
            _ => {},
        }
        Ok(())
    }

    /// Applies `ins` as if the program counter pointed at it; `random` is
    /// the byte that `Rnd` masks. On a fault nothing changes.
    pub fn execute_instruction(&mut self, ins: Instruction, random: u8) -> (r: Result<(), ExecFault>)
        requires
            old(self).wf(),
            ins.wf(),
        ensures
            final(self).wf(),
            executed(old(self)@, ins, random, final(self)@, r),
    {
        match ins {
            Instruction::Cls
            | Instruction::Ret
            | Instruction::Jp { .. }
            | Instruction::Call { .. }
            | Instruction::SeByte { .. }
            | Instruction::SneByte { .. }
            | Instruction::SeReg { .. }
            | Instruction::SneReg { .. }
            | Instruction::JpV0 { .. }
            | Instruction::SkipKey { .. }
            | Instruction::SkipNoKey { .. }
            | Instruction::WaitKey { .. } => self.execute_flow(ins, random),
            Instruction::LdByte { .. }
            | Instruction::AddByte { .. }
            | Instruction::LdReg { .. }
            | Instruction::Or { .. }
            | Instruction::And { .. }
            | Instruction::Xor { .. }
            | Instruction::AddReg { .. }
            | Instruction::Sub { .. }
            | Instruction::Subn { .. }
            | Instruction::Shr { .. }
            | Instruction::Shl { .. }
            | Instruction::Rnd { .. }
            | Instruction::LdFromDelay { .. }
            | Instruction::LdDelay { .. }
            | Instruction::LdSound { .. } => self.execute_alu(ins, random),
            Instruction::LdI { .. }
            | Instruction::AddI { .. }
            | Instruction::SpriteChar { .. }
            | Instruction::Draw { .. }
            | Instruction::Bcd { .. }
            | Instruction::StoreRegs { .. }
            | Instruction::LoadRegs { .. } => self.execute_memory(ins, random),
        }
    }

    /// The lowest key that is down, if any.
    fn first_key_down(&self) -> (r: Option<u8>)
        requires
            self.wf(),
        ensures
            r == first_key_down(self@.keys),
    {
        let mut k: usize = 0;
        while k < NUM_REGS
            invariant
                k <= NUM_REGS,
                self.wf(),
                first_key_down_from(self@.keys, 0) == first_key_down_from(self@.keys, k as int),
            decreases NUM_REGS - k,
        {
            if self.keys[k] {
                return Some(k as u8);
            }
            k += 1;
        }
        None
    }

    /// One step of the executor. Running, it fetches, decodes and executes
    /// one instruction, and a fault halts the machine. Waiting for a key, it
    /// stores the lowest key that is down and moves past the wait, or does
    /// nothing while no key is down. Halted, it returns the fault again.
    /// `random` is the byte that a `Rnd` instruction masks.
    pub fn step(&mut self, random: u8) -> (r: Result<(), ExecFault>)
        requires
            old(self).wf(),
        ensures
            final(self).wf(),
            (final(self)@, r) == step_spec(old(self)@, random),
    {
        match self.mode {
            Mode::Halted(f) => Err(f),
            Mode::AwaitingKey(x) => {
                match self.first_key_down() {
                    Some(k) => {
                        self.v.set(x as usize, k);
                        self.advance_pc(2);
                        self.mode = Mode::Running;
                    },
                    None => {},
                }
                Ok(())
            },
            Mode::Running => {
                let result = match self.read_instruction() {
                    Ok(ins) => self.execute_instruction(ins, random),
                    Err(f) => Err(f),
                };
                if let Err(f) = result {
                    self.mode = Mode::Halted(f);
                }
                result
            },
        }
    }

    /// One tick of the timer clock: both timers count down by one and stop
    /// at zero.
    pub fn tick(&mut self)
        requires
            old(self).wf(),
        ensures
            final(self).wf(),
            final(self)@ == tick_spec(old(self)@),
    {
        if self.delay > 0 {
            self.delay = self.delay - 1;
        }
        if self.sound > 0 {
            self.sound = self.sound - 1;
        }
    }

    /// Records whether key `key` is down.
    pub fn set_key(&mut self, key: usize, down: bool)
        requires
            old(self).wf(),
            key < NUM_REGS,
        ensures
            final(self).wf(),
            final(self)@ == (CpuState { keys: old(self)@.keys.update(key as int, down), ..old(self)@ }),
    {
        self.keys.set(key, down);
    }

    /// Records the down state of all sixteen keys at once.
    pub fn set_keys(&mut self, keys: &[bool; 16])
        requires
            old(self).wf(),
        ensures
            final(self).wf(),
            final(self)@ == (CpuState { keys: keys@, ..old(self)@ }),
    {
        let mut k: usize = 0;
        while k < NUM_REGS
            invariant
                k <= NUM_REGS,
                self.wf(),
                self@ == (CpuState { keys: self@.keys, ..old(self)@ }),
                forall|j: int| 0 <= j < k ==> self@.keys[j] == keys@[j],
            decreases NUM_REGS - k,
        {
            self.keys.set(k, keys[k]);
            k += 1;
        }
        assert(self@.keys =~= keys@);
    }

    /// Sets the general register `Vx`.
    pub fn set_v(&mut self, x: usize, value: u8)
        requires
            old(self).wf(),
            x < NUM_REGS,
        ensures
            final(self).wf(),
            final(self)@ == (CpuState { v: old(self)@.v.update(x as int, value), ..old(self)@ }),
    {
        self.v.set(x, value);
    }

    /// Sets the address register.
    pub fn set_i(&mut self, value: u16)
        requires
            old(self).wf(),
        ensures
            final(self).wf(),
            final(self)@ == (CpuState { i: value, ..old(self)@ }),
    {
        self.i = value;
    }

    /// The general register `Vx`.
    pub fn v(&self, x: usize) -> (r: u8)
        requires
            self.wf(),
            x < NUM_REGS,
        ensures
            r == self@.v[x as int],
    {
        self.v[x]
    }

    /// The address register.
    pub fn i(&self) -> (r: u16)
        ensures
            r == self@.i,
    {
        self.i
    }

    /// The program counter.
    pub fn pc(&self) -> (r: u16)
        ensures
            r == self@.pc,
    {
        self.pc
    }

    /// The stack pointer: how many return addresses the stack holds.
    pub fn sp(&self) -> (r: usize)
        ensures
            r == self@.stack.len(),
    {
        self.stack.len()
    }

    /// The delay timer.
    pub fn delay_timer(&self) -> (r: u8)
        ensures
            r == self@.delay,
    {
        self.delay
    }

    /// The sound timer.
    pub fn sound_timer(&self) -> (r: u8)
        ensures
            r == self@.sound,
    {
        self.sound
    }

    /// Whether the speaker should sound: the sound timer is above zero.
    pub fn sound_active(&self) -> (r: bool)
        ensures
            r == (self@.sound > 0),
    {
        self.sound > 0
    }

    /// What the executor is doing.
    pub fn mode(&self) -> (r: Mode)
        ensures
            r == self@.mode,
    {
        self.mode
    }

    /// The memory and bitmap surface.
    pub fn mmu(&self) -> (r: &Mmu)
        requires
            self.wf(),
        ensures
            r.wf(),
            r@.ram == self@.ram,
            r@.vram == self@.vram,
    {
        &self.mmu
    }

    /// The value of a register, widened to 16 bits; `None` for a general
    /// register index above 15.
    pub fn register_value(&self, reg: Register) -> (r: Option<u16>)
        requires
            self.wf(),
        ensures
            r == match reg {
                Register::V(k) => if k < NUM_REGS {
                    Some(self@.v[k as int] as u16)
                } else {
                    None
                },
                Register::I => Some(self@.i),
                Register::Dt => Some(self@.delay as u16),
                Register::St => Some(self@.sound as u16),
                Register::Pc => Some(self@.pc),
                Register::Sp => Some(self@.stack.len() as u16),
            },
    {
        match reg {
            Register::V(k) => if k < NUM_REGS {
                Some(self.v[k] as u16)
            } else {
                None
            },
            Register::I => Some(self.i),
            Register::Dt => Some(self.delay as u16),
            Register::St => Some(self.sound as u16),
            Register::Pc => Some(self.pc),
            Register::Sp => Some(self.stack.len() as u16),
        }
    }

    /// Clears the bitmap surface.
    pub fn clear_vram(&mut self)
        requires
            old(self).wf(),
        ensures
            final(self).wf(),
            final(self)@ == (CpuState {
                vram: Seq::new(DISPLAY_HEIGHT as nat, |j: int| 0u64),
                ..old(self)@
            }),
    {
        self.mmu.clear_vram();
    }
}

} // verus!
