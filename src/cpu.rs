use vstd::prelude::*;

use crate::display::{pixel_index, Display, COLS, PIXELS, ROWS};
use crate::font::{font_set, FONT_SIZE};
use crate::instruction::{decode, Instruction, OpCodeInstruction};
use crate::machine::{
    effect, execute, opcode_at, first_key, first_key_from, initial_memory, initial_state, load_result, loaded_memory,
    loaded_regs, reset_state, set_reg, step, stored_regs, timers_ticked, Chip8Error, CpuState,
    RunState, FLAG_REG, MAX_PROGRAM_SIZE, MEMORY_SIZE, NUM_KEYS, NUM_REGS, PROGRAM_START,
    STACK_FRAMES,
};

verus! {

/// Relies on rand::random, which draws from the thread-local generator: the
/// byte that `RND` masks. Nothing is promised of its value.
pub assume_specification<T>[ rand::random::<T> ]() -> (r: T)
    where
        rand::distributions::Standard: rand::distributions::Distribution<T>,
;

/// The state of one framebuffer cell.
#[derive(Clone, Copy, Debug, PartialEq, Eq, Structural)]
pub enum Pixel {
    OFF,
    ON,
}

/// Framebuffer height in pixels.
pub const CHIP8_HEIGHT: u32 = 32;

/// Framebuffer width in pixels.
pub const CHIP8_WIDTH: u32 = 64;

/// The interpreter: memory, registers, stack, timers, framebuffer, keypad,
/// and the executor's own state.
pub struct CPU {
    regs: Vec<u8>,
    i_reg: u16,
    sp: usize,
    pc: u16,
    memory: Vec<u8>,
    stack: Vec<u16>,
    delay_timer: u8,
    sound_timer: u8,
    display: Display,
    keys: [bool; 16],
    beeping: bool,
    waiting: Option<u8>,
    fault: Option<Chip8Error>,
    reset: bool,
    paused: bool,
    data_loaded: bool,
}

impl View for CPU {
    type V = CpuState;

    closed spec fn view(&self) -> CpuState {
        CpuState {
            regs: self.regs@,
            i: self.i_reg as int,
            sp: self.sp as int,
            pc: self.pc as int,
            memory: self.memory@,
            stack: self.stack@,
            delay: self.delay_timer,
            sound: self.sound_timer,
            display: self.display@,
            keys: self.keys@,
            beep: self.beeping,
            waiting: self.waiting,
            fault: self.fault,
            reset_pending: self.reset,
            paused: self.paused,
            loaded: self.data_loaded,
        }
    }
}

/// A vector of `n` copies of `v`.
fn filled<T: Copy>(n: usize, v: T) -> (r: Vec<T>)
    ensures
        r@ == Seq::new(n as nat, |k: int| v),
{
    let mut r: Vec<T> = Vec::new();
    let mut k: usize = 0;
    while k < n
        invariant
            k <= n,
            r@ == Seq::new(k as nat, |j: int| v),
        decreases n - k,
    {
        r.push(v);
        k = k + 1;
        proof {
            assert(r@ =~= Seq::new(k as nat, |j: int| v));
        }
    }
    r
}

/// The lowest pressed key, if any.
fn first_pressed(keys: &[bool; 16]) -> (r: Option<u8>)
    ensures
        r == first_key(keys@),
{
    let mut k: usize = 0;
    while k < NUM_KEYS
        invariant
            k <= NUM_KEYS,
            keys@.len() == NUM_KEYS,
            first_key(keys@) == first_key_from(keys@, k as int),
        decreases NUM_KEYS - k,
    {
        if keys[k] {
            return Some(k as u8);
        }
        k = k + 1;
    }
    None
}

impl CPU {
    pub open spec fn wf(&self) -> bool {
        self@.wf()
    }

    /// A machine with the glyph table in memory, everything else zero, the
    /// program counter at 0x200, and no program loaded.
    pub fn new() -> (r: CPU)
        ensures
            r@ == initial_state(),
            r.wf(),
    {
        let mut memory = font_set();
        while memory.len() < MEMORY_SIZE
            invariant
                FONT_SIZE <= memory@.len() <= MEMORY_SIZE,
                forall|a: int| 0 <= a < memory@.len() ==> #[trigger] memory@[a] == initial_memory()[a],
            decreases MEMORY_SIZE - memory.len(),
        {
            memory.push(0);
        }
        let cpu = CPU {
            regs: filled(NUM_REGS, 0u8),
            i_reg: 0,
            sp: 0,
            pc: PROGRAM_START as u16,
            memory,
            stack: filled(STACK_FRAMES, 0u16),
            delay_timer: 0,
            sound_timer: 0,
            display: Display::new(),
            keys: [false; 16],
            beeping: false,
            waiting: None,
            fault: None,
            reset: false,
            paused: false,
            data_loaded: false,
        };
        proof {
            assert(cpu@.memory =~= initial_memory());
            assert(cpu@.display =~= initial_state().display);
            assert(cpu@.keys =~= initial_state().keys);
        }
        cpu
    }

    pub fn height(&self) -> (r: u32)
        ensures
            r == ROWS,
    {
        CHIP8_HEIGHT
    }

    pub fn width(&self) -> (r: u32)
        ensures
            r == COLS,
    {
        CHIP8_WIDTH
    }

    /// The framebuffer, row-major.
    pub fn pixels(&self) -> (r: Vec<Pixel>)
        requires
            self.wf(),
        ensures
            r@.len() == PIXELS,
            forall|p: int| 0 <= p < PIXELS ==> #[trigger] r@[p] == if self@.display[p] {
                Pixel::ON
            } else {
                Pixel::OFF
            },
    {
        let mut r: Vec<Pixel> = Vec::new();
        let mut row: usize = 0;
        while row < ROWS
            invariant
                row <= ROWS,
                self.wf(),
                r@.len() == row * COLS,
                forall|p: int| 0 <= p < r@.len() ==> #[trigger] r@[p] == if self@.display[p] {
                    Pixel::ON
                } else {
                    Pixel::OFF
                },
            decreases ROWS - row,
        {
            let mut col: usize = 0;
            while col < COLS
                invariant
                    row < ROWS,
                    col <= COLS,
                    self.wf(),
                    r@.len() == row * COLS + col,
                    forall|p: int| 0 <= p < r@.len() ==> #[trigger] r@[p] == if self@.display[p] {
                        Pixel::ON
                    } else {
                        Pixel::OFF
                    },
                decreases COLS - col,
            {
                let on = self.display.pixel(row, col);
                r.push(if on { Pixel::ON } else { Pixel::OFF });
                col = col + 1;
            }
            row = row + 1;
        }
        r
    }

    /// Whether the pixel at `(column, row)` is on.
    pub fn pixel(&self, row: usize, column: usize) -> (r: bool)
        requires
            self.wf(),
            row < ROWS,
            column < COLS,
        ensures
            r == self@.display[pixel_index(row as int, column as int)],
    {
        self.display.pixel(row, column)
    }

    /// The index of the pixel at `(column, row)` in `pixels()`.
    pub fn get_index(&self, row: u32, column: u32) -> (r: usize)
        requires
            row * CHIP8_WIDTH + column <= u32::MAX,
        ensures
            r == pixel_index(row as int, column as int),
    {
        (row * CHIP8_WIDTH + column) as usize
    }

    /// Asks for a reset at the next step; the program has to be loaded again.
    pub fn trigger_reset(&mut self)
        requires
            old(self).wf(),
        ensures
            final(self).wf(),
            final(self)@ == (CpuState { reset_pending: true, loaded: false, ..old(self)@ }),
    {
        self.reset = true;
        self.data_loaded = false;
    }

    /// Brings the machine back to the state it was created in; only the
    /// pause switch is kept.
    pub fn reset(&mut self)
        requires
            old(self).wf(),
        ensures
            final(self).wf(),
            final(self)@ == reset_state(old(self)@),
    {
        let paused = self.paused;
        *self = CPU::new();
        self.paused = paused;
    }

    pub fn pause(&mut self)
        requires
            old(self).wf(),
        ensures
            final(self).wf(),
            final(self)@ == (CpuState { paused: true, ..old(self)@ }),
    {
        self.paused = true;
    }

    pub fn start(&mut self)
        requires
            old(self).wf(),
        ensures
            final(self).wf(),
            final(self)@ == (CpuState { paused: false, ..old(self)@ }),
    {
        self.paused = false;
    }

    /// Copies a program image to address 0x200. Fails, changing nothing,
    /// where it is longer than the 3584 bytes above that address.
    pub fn load(&mut self, data: Vec<u8>) -> (r: Result<(), Chip8Error>)
        requires
            old(self).wf(),
        ensures
            final(self).wf(),
            match load_result(old(self)@, data@) {
                Ok(s) => r == Ok::<(), Chip8Error>(()) && final(self)@ == s,
                Err(e) => r == Err::<(), Chip8Error>(e) && final(self)@ == old(self)@,
            },
    {
        if data.len() > MAX_PROGRAM_SIZE {
            return Err(Chip8Error::LoadTooLarge);
        }
        let ghost s0 = self@;
        let ghost m0 = self.memory@;
        let mut k: usize = 0;
        while k < data.len()
            invariant
                k <= data@.len() <= MAX_PROGRAM_SIZE,
                s0.wf(),
                m0 == s0.memory,
                self@ == (CpuState { memory: self.memory@, ..s0 }),
                self.memory@.len() == MEMORY_SIZE,
                m0.len() == MEMORY_SIZE,
                forall|a: int|
                    0 <= a < MEMORY_SIZE ==> #[trigger] self.memory@[a] == if PROGRAM_START <= a < PROGRAM_START + k {
                        data@[a - PROGRAM_START]
                    } else {
                        m0[a]
                    },
            decreases data@.len() - k,
        {
            self.memory.set(PROGRAM_START + k, data[k]);
            k = k + 1;
        }
        self.data_loaded = true;
        proof {
            assert(self.memory@ =~= loaded_memory(m0, data@));
        }
        Ok(())
    }

    /// Replaces the keypad snapshot.
    pub fn set_keys(&mut self, keys: [bool; 16])
        requires
            old(self).wf(),
        ensures
            final(self).wf(),
            final(self)@ == (CpuState { keys: keys@, ..old(self)@ }),
    {
        self.keys = keys;
    }

    /// One timer tick: each timer counts down towards zero, and the beep
    /// is on while the sound timer was running.
    pub fn advance_timers(&mut self)
        requires
            old(self).wf(),
        ensures
            final(self).wf(),
            final(self)@ == timers_ticked(old(self)@),
    {
        if self.delay_timer > 0 {
            self.delay_timer = self.delay_timer - 1;
        }
        if self.sound_timer > 0 {
            self.beeping = true;
            self.sound_timer = self.sound_timer - 1;
        } else {
            self.beeping = false;
        }
    }

    /// Whether the beep is on.
    pub fn sound_active(&self) -> (r: bool)
        ensures
            r == self@.beep,
    {
        self.beeping
    }

    pub fn state(&self) -> (r: RunState)
        ensures
            r == self@.run_state(),
    {
        if let Some(e) = self.fault {
            RunState::Halted(e)
        } else if self.paused {
            RunState::Paused
        } else if self.waiting.is_some() {
            RunState::AwaitingKeypress
        } else {
            RunState::Running
        }
    }

    pub fn program_counter(&self) -> (r: u16)
        ensures
            r == self@.pc,
    {
        self.pc
    }

    pub fn index_register(&self) -> (r: u16)
        ensures
            r == self@.i,
    {
        self.i_reg
    }

    pub fn stack_pointer(&self) -> (r: usize)
        ensures
            r == self@.sp,
    {
        self.sp
    }

    pub fn delay_timer(&self) -> (r: u8)
        ensures
            r == self@.delay,
    {
        self.delay_timer
    }

    pub fn sound_timer(&self) -> (r: u8)
        ensures
            r == self@.sound,
    {
        self.sound_timer
    }

    /// The byte at `addr`.
    pub fn memory_at(&self, addr: usize) -> (r: u8)
        requires
            self.wf(),
            addr < MEMORY_SIZE,
        ensures
            r == self@.memory[addr as int],
    {
        self.memory[addr]
    }

    pub fn get_register(&self, reg: u8) -> (r: u8)
        requires
            self.wf(),
            reg < NUM_REGS,
        ensures
            r == self@.reg(reg),
    {
        self.regs[reg as usize]
    }

    /// The instruction at the program counter; `None` where the word there
    /// is no instruction.
    fn fetch_instruction(&self) -> (r: Option<Instruction>)
        requires
            self.wf(),
        ensures
            r == decode(opcode_at(self@.memory, self@.pc)),
            r matches Some(ins) ==> ins.wf(),
    {
        let pc = self.pc as usize;
        let opcode = (self.memory[pc] as u16) * 256 + self.memory[pc + 1] as u16;
        OpCodeInstruction::new(opcode).process_opcode()
    }

    /// One step with `rnd` as the random byte: a pending reset happens
    /// first; nothing else happens while paused, halted or without a program;
    /// a pending wait-for-key is resolved once a key is down; otherwise one
    /// instruction is fetched, decoded and executed. A fault halts the machine.
    pub fn tick_with(&mut self, rnd: u8)
        requires
            old(self).wf(),
        ensures
            final(self).wf(),
            final(self)@ == step(old(self)@, rnd),
    {
        reveal(step);
        if self.reset {
            self.reset();
        }
        if self.paused || !self.data_loaded || self.fault.is_some() {
            return;
        }
        if let Some(reg) = self.waiting {
            if let Some(k) = first_pressed(&self.keys) {
                if self.pc as usize + 3 >= MEMORY_SIZE {
                    self.halt(Chip8Error::AddressOutOfRange);
                } else {
                    self.waiting = None;
                    self.set_register(reg, k);
                    self.pc = self.pc + 2;
                }
            }
            return;
        }
        match self.fetch_instruction() {
            Some(instruction) => self.execute_instruction(instruction, rnd),
            None => self.halt(Chip8Error::DecodeFailure),
        }
    }

    /// One step, with a fresh random byte for `RND`.
    pub fn tick(&mut self)
        requires
            old(self).wf(),
        ensures
            final(self).wf(),
            exists|rnd: u8| final(self)@ == step(old(self)@, rnd),
    {
        let rnd: u8 = rand::random::<u8>();
        self.tick_with(rnd);
    }

    pub(crate) fn halt(&mut self, e: Chip8Error)
        requires
            old(self).wf(),
        ensures
            final(self).wf(),
            final(self)@ == (CpuState { fault: Some(e), ..old(self)@ }),
    {
        self.fault = Some(e);
    }

    /// Moves past the next instruction when `cond` holds, else to it.
    fn skip_if(&mut self, cond: bool)
        requires
            old(self).wf(),
            old(self)@.pc + if cond { 5int } else { 3int } < MEMORY_SIZE,
        ensures
            final(self).wf(),
            final(self)@ == (CpuState { pc: old(self)@.pc + if cond { 4int } else { 2int }, ..old(self)@ }),
    {
        if cond {
            self.pc = self.pc + 4;
        } else {
            self.pc = self.pc + 2;
        }
    }

    /// Writes the flag register, then the result register, then moves to
    /// the next instruction.
    fn set_with_flag(&mut self, reg: u8, value: u8, flag: u8)
        requires
            old(self).wf(),
            old(self)@.pc + 3 < MEMORY_SIZE,
            reg < NUM_REGS,
        ensures
            final(self).wf(),
            final(self)@ == crate::machine::set_with_flag(old(self)@, reg, value, flag),
    {
        self.set_register(FLAG_REG, flag);
        self.set_register(reg, value);
        self.pc = self.pc + 2;
    }

    /// Applies one decoded instruction fetched from the program counter.
    /// `rnd` is the random byte that `RND` masks.
    pub fn execute_instruction(&mut self, instruction: Instruction, rnd: u8)
        requires
            old(self).wf(),
            old(self)@.waiting is None,
            instruction.wf(),
        ensures
            final(self).wf(),
            final(self)@ == execute(old(self)@, instruction, rnd),
    {
        let target = self.next_pc(instruction);
        proof {
            assert(target == effect(old(self)@, instruction, rnd).pc);
        }
        if target as usize + 1 >= MEMORY_SIZE {
            self.halt(Chip8Error::AddressOutOfRange);
            return;
        }
        match instruction {
            Instruction::SYS(_)
            | Instruction::CLS()
            | Instruction::RET()
            | Instruction::JMP(_)
            | Instruction::CALL(_)
            | Instruction::JPV0(_)
            | Instruction::SEQB(_, _)
            | Instruction::SNEQB(_, _)
            | Instruction::SRER(_, _)
            | Instruction::SNE(_, _) => self.execute_flow(instruction, rnd),
            Instruction::LBR(_, _)
            | Instruction::ABR(_, _)
            | Instruction::LRR(_, _)
            | Instruction::OR(_, _)
            | Instruction::AND(_, _)
            | Instruction::XOR(_, _)
            | Instruction::ADD(_, _)
            | Instruction::SUB(_, _)
            | Instruction::SHR(_)
            | Instruction::SUBN(_, _)
            | Instruction::SHL(_)
            | Instruction::RND(_, _) => self.execute_alu(instruction, rnd),
            Instruction::LDI(_)
            | Instruction::DRW(_, _, _)
            | Instruction::SKP(_)
            | Instruction::SKNP(_)
            | Instruction::LDDV(_)
            | Instruction::LDK(_)
            | Instruction::LDVD(_)
            | Instruction::LDST(_)
            | Instruction::ADDI(_)
            | Instruction::LDS(_)
            | Instruction::BCD(_)
            | Instruction::SR(_)
            | Instruction::LR(_) => self.execute_io(instruction, rnd),
        }
    }

    /// Where the program counter goes after `instruction`; it stays put where
    /// the instruction faults.
    #[verifier::rlimit(40)]
    fn next_pc(&self, instruction: Instruction) -> (r: u32)
        requires
            self.wf(),
            self@.waiting is None,
            instruction.wf(),
        ensures
            forall|rnd: u8| r == #[trigger] effect(self@, instruction, rnd).pc,
    {
        let pc = self.pc as u32;
        match instruction {
            Instruction::RET() => {
                if self.sp == 0 {
                    pc
                } else {
                    self.stack[self.sp - 1] as u32 + 2
                }
            },
            Instruction::JMP(addr) => addr as u32,
            Instruction::CALL(addr) => {
                if self.sp >= STACK_FRAMES {
                    pc
                } else {
                    addr as u32
                }
            },
            Instruction::JPV0(addr) => addr as u32 + self.get_register(0) as u32,
            Instruction::SEQB(reg, value) => {
                if self.get_register(reg) == value {
                    pc + 4
                } else {
                    pc + 2
                }
            },
            Instruction::SNEQB(reg, value) => {
                if self.get_register(reg) != value {
                    pc + 4
                } else {
                    pc + 2
                }
            },
            Instruction::SRER(reg1, reg2) => {
                if self.get_register(reg1) == self.get_register(reg2) {
                    pc + 4
                } else {
                    pc + 2
                }
            },
            Instruction::SNE(reg1, reg2) => {
                if self.get_register(reg1) != self.get_register(reg2) {
                    pc + 4
                } else {
                    pc + 2
                }
            },
            Instruction::SKP(reg) => {
                let k = self.get_register(reg);
                if (k as usize) < NUM_KEYS && self.keys[k as usize] {
                    pc + 4
                } else {
                    pc + 2
                }
            },
            Instruction::SKNP(reg) => {
                let k = self.get_register(reg);
                if (k as usize) < NUM_KEYS && self.keys[k as usize] {
                    pc + 2
                } else {
                    pc + 4
                }
            },
            Instruction::LDK(_) => {
                if first_pressed(&self.keys).is_some() {
                    pc + 2
                } else {
                    pc
                }
            },
            Instruction::DRW(_, _, n) => {
                if self.i_reg as usize + n as usize > MEMORY_SIZE {
                    pc
                } else {
                    pc + 2
                }
            },
            Instruction::LDS(reg) => {
                if self.get_register(reg) >= 16 {
                    pc
                } else {
                    pc + 2
                }
            },
            Instruction::BCD(_) => {
                if self.i_reg as usize + 3 > MEMORY_SIZE {
                    pc
                } else {
                    pc + 2
                }
            },
            Instruction::SR(reg) | Instruction::LR(reg) => {
                if self.i_reg as usize + reg as usize + 1 > MEMORY_SIZE {
                    pc
                } else {
                    pc + 2
                }
            },
            _ => pc + 2,
        }
    }

    /// Jumps, calls, returns, skips, and screen clearing.
    #[verifier::rlimit(40)]
    fn execute_flow(&mut self, instruction: Instruction, rnd: u8)
        requires
            old(self).wf(),
            old(self)@.waiting is None,
            effect(old(self)@, instruction, rnd).pc + 1 < MEMORY_SIZE,
            instruction.wf(),
            instruction is SYS
                || instruction is CLS
                || instruction is RET
                || instruction is JMP
                || instruction is CALL
                || instruction is JPV0
                || instruction is SEQB
                || instruction is SNEQB
                || instruction is SRER
                || instruction is SNE,
        ensures
            final(self).wf(),
            final(self)@ == effect(old(self)@, instruction, rnd),
    {
        match instruction {
            Instruction::SYS(_) => {
                self.pc = self.pc + 2;
            },
            Instruction::CLS() => {
                self.display.clear();
                self.pc = self.pc + 2;
                assert(self@.display =~= Seq::new(PIXELS as nat, |p: int| false));
            },
            Instruction::RET() => {
                if self.sp == 0 {
                    self.halt(Chip8Error::StackUnderflow);
                } else {
                    self.sp = self.sp - 1;
                    self.pc = self.stack[self.sp] + 2;
                }
            },
            Instruction::JMP(addr) => {
                self.pc = addr;
            },
            Instruction::CALL(addr) => {
                if self.sp >= STACK_FRAMES {
                    self.halt(Chip8Error::StackOverflow);
                } else {
                    self.stack.set(self.sp, self.pc);
                    self.sp = self.sp + 1;
                    self.pc = addr;
                }
            },
            Instruction::JPV0(addr) => {
                self.pc = addr + self.get_register(0) as u16;
            },
            Instruction::SEQB(reg, value) => {
                let v = self.get_register(reg);
                self.skip_if(v == value);
            },
            Instruction::SNEQB(reg, value) => {
                let v = self.get_register(reg);
                self.skip_if(v != value);
            },
            Instruction::SRER(reg1, reg2) => {
                let (a, b) = (self.get_register(reg1), self.get_register(reg2));
                self.skip_if(a == b);
            },
            Instruction::SNE(reg1, reg2) => {
                let (a, b) = (self.get_register(reg1), self.get_register(reg2));
                self.skip_if(a != b);
            },
            _ => {},
        }
    }

    /// Register loads and arithmetic.
    #[verifier::rlimit(40)]
    fn execute_alu(&mut self, instruction: Instruction, rnd: u8)
        requires
            old(self).wf(),
            old(self)@.waiting is None,
            effect(old(self)@, instruction, rnd).pc + 1 < MEMORY_SIZE,
            instruction.wf(),
            instruction is LBR
                || instruction is ABR
                || instruction is LRR
                || instruction is OR
                || instruction is AND
                || instruction is XOR
                || instruction is ADD
                || instruction is SUB
                || instruction is SHR
                || instruction is SUBN
                || instruction is SHL
                || instruction is RND,
        ensures
            final(self).wf(),
            final(self)@ == effect(old(self)@, instruction, rnd),
    {
        match instruction {
            Instruction::LBR(reg, value) => {
                self.set_register(reg, value);
                self.pc = self.pc + 2;
            },
            Instruction::ABR(reg, value) => {
                let v = self.get_register(reg);
                self.set_register(reg, ((v as u16 + value as u16) % 256) as u8);
                self.pc = self.pc + 2;
            },
            Instruction::LRR(reg1, reg2) => {
                let v = self.get_register(reg2);
                self.set_register(reg1, v);
                self.pc = self.pc + 2;
            },
            Instruction::OR(reg1, reg2) => {
                let value = self.get_register(reg1) | self.get_register(reg2);
                self.set_register(reg1, value);
                self.pc = self.pc + 2;
            },
            Instruction::AND(reg1, reg2) => {
                let value = self.get_register(reg1) & self.get_register(reg2);
                self.set_register(reg1, value);
                self.pc = self.pc + 2;
            },
            Instruction::XOR(reg1, reg2) => {
                let value = self.get_register(reg1) ^ self.get_register(reg2);
                self.set_register(reg1, value);
                self.pc = self.pc + 2;
            },
            Instruction::ADD(reg1, reg2) => {
                let sum = self.get_register(reg1) as u16 + self.get_register(reg2) as u16;
                self.set_with_flag(reg1, (sum % 256) as u8, if sum > 255 { 1 } else { 0 });
            },
            Instruction::SUB(reg1, reg2) => {
                let (a, b) = (self.get_register(reg1), self.get_register(reg2));
                let diff = ((256 + a as u16 - b as u16) % 256) as u8;
                self.set_with_flag(reg1, diff, if a >= b { 1 } else { 0 });
            },
            Instruction::SHR(reg) => {
                let v = self.get_register(reg);
                self.set_with_flag(reg, v / 2, v % 2);
            },
            Instruction::SUBN(reg1, reg2) => {
                let (a, b) = (self.get_register(reg1), self.get_register(reg2));
                let diff = ((256 + b as u16 - a as u16) % 256) as u8;
                self.set_with_flag(reg2, diff, if b >= a { 1 } else { 0 });
            },
            Instruction::SHL(reg) => {
                let v = self.get_register(reg);
                self.set_with_flag(reg, ((v as u16 * 2) % 256) as u8, v / 128);
            },
            Instruction::RND(reg, mask) => {
                self.set_register(reg, rnd & mask);
                self.pc = self.pc + 2;
            },
            _ => {},
        }
    }

    /// The address register, memory, timers, keypad, and drawing.
    #[verifier::rlimit(40)]
    fn execute_io(&mut self, instruction: Instruction, rnd: u8)
        requires
            old(self).wf(),
            old(self)@.waiting is None,
            effect(old(self)@, instruction, rnd).pc + 1 < MEMORY_SIZE,
            instruction.wf(),
            instruction is LDI
                || instruction is DRW
                || instruction is SKP
                || instruction is SKNP
                || instruction is LDDV
                || instruction is LDK
                || instruction is LDVD
                || instruction is LDST
                || instruction is ADDI
                || instruction is LDS
                || instruction is BCD
                || instruction is SR
                || instruction is LR,
        ensures
            final(self).wf(),
            final(self)@ == effect(old(self)@, instruction, rnd),
    {
        match instruction {
            Instruction::LDI(addr) => {
                self.i_reg = addr;
                self.pc = self.pc + 2;
            },
            Instruction::DRW(reg1, reg2, num_bytes) => {
                let start = self.i_reg as usize;
                let n = num_bytes as usize;
                if start + n > MEMORY_SIZE {
                    self.halt(Chip8Error::AddressOutOfRange);
                } else {
                    let x = self.get_register(reg1);
                    let y = self.get_register(reg2);
                    let collision = self.display.draw_sprite(&self.memory, start, n, x, y);
                    self.set_register(FLAG_REG, if collision { 1 } else { 0 });
                    self.pc = self.pc + 2;
                }
            },
            Instruction::SKP(reg) => {
                let k = self.get_register(reg);
                let down = (k as usize) < NUM_KEYS && self.keys[k as usize];
                self.skip_if(down);
            },
            Instruction::SKNP(reg) => {
                let k = self.get_register(reg);
                let down = (k as usize) < NUM_KEYS && self.keys[k as usize];
                self.skip_if(!down);
            },
            Instruction::LDDV(reg) => {
                self.set_register(reg, self.delay_timer);
                self.pc = self.pc + 2;
            },
            Instruction::LDK(reg) => {
                match first_pressed(&self.keys) {
                    Some(k) => {
                        self.set_register(reg, k);
                        self.pc = self.pc + 2;
                    },
                    None => {
                        self.waiting = Some(reg);
                    },
                }
            },
            Instruction::LDVD(reg) => {
                self.delay_timer = self.get_register(reg);
                self.pc = self.pc + 2;
            },
            Instruction::LDST(reg) => {
                self.sound_timer = self.get_register(reg);
                self.pc = self.pc + 2;
            },
            Instruction::ADDI(reg) => {
                let v = self.get_register(reg);
                let sum = self.i_reg as u32 + v as u32;
                self.i_reg = if sum > 0xFFFF { 0xFFFF } else { sum as u16 };
                self.pc = self.pc + 2;
            },
            Instruction::LDS(reg) => {
                let sprite = self.get_register(reg);
                if sprite >= 16 {
                    self.halt(Chip8Error::InvalidSpriteIndex);
                } else {
                    self.i_reg = sprite as u16 * 5;
                    self.pc = self.pc + 2;
                }
            },
            Instruction::BCD(reg) => {
                let start = self.i_reg as usize;
                if start + 3 > MEMORY_SIZE {
                    self.halt(Chip8Error::AddressOutOfRange);
                } else {
                    let v = self.get_register(reg);
                    self.memory.set(start, v / 100);
                    self.memory.set(start + 1, v % 100 / 10);
                    self.memory.set(start + 2, v % 10);
                    self.pc = self.pc + 2;
                }
            },
            Instruction::SR(reg) => {
                let start = self.i_reg as usize;
                if start + reg as usize + 1 > MEMORY_SIZE {
                    self.halt(Chip8Error::AddressOutOfRange);
                } else {
                    self.store_registers(reg);
                }
            },
            Instruction::LR(reg) => {
                let start = self.i_reg as usize;
                if start + reg as usize + 1 > MEMORY_SIZE {
                    self.halt(Chip8Error::AddressOutOfRange);
                } else {
                    self.load_registers(reg);
                }
            },
            _ => {},
        }
    }

    /// Stores V0..Vx at `I` and moves `I` past them.
    fn store_registers(&mut self, x: u8)
        requires
            old(self).wf(),
            old(self)@.pc + 3 < MEMORY_SIZE,
            old(self)@.waiting is None,
            x < NUM_REGS,
            old(self)@.i + x + 1 <= MEMORY_SIZE,
        ensures
            final(self).wf(),
            final(self)@ == (CpuState {
                memory: stored_regs(old(self)@, x),
                i: old(self)@.i + x + 1,
                pc: old(self)@.pc + 2,
                ..old(self)@
            }),
    {
        let ghost s0 = self@;
        let start = self.i_reg as usize;
        let mut k: usize = 0;
        while k <= x as usize
            invariant
                s0.wf(),
                s0.i == start,
                x < NUM_REGS,
                start + x + 1 <= MEMORY_SIZE,
                k <= x + 1,
                self@ == (CpuState { memory: self.memory@, ..s0 }),
                self.memory@.len() == MEMORY_SIZE,
                forall|a: int|
                    0 <= a < MEMORY_SIZE ==> #[trigger] self.memory@[a] == if start <= a < start + k {
                        s0.regs[a - start]
                    } else {
                        s0.memory[a]
                    },
            decreases x + 1 - k,
        {
            let v = self.regs[k];
            self.memory.set(start + k, v);
            k = k + 1;
        }
        self.i_reg = self.i_reg + x as u16 + 1;
        self.pc = self.pc + 2;
        assert(self.memory@ =~= stored_regs(s0, x));
    }

    /// Loads V0..Vx from `I` and moves `I` past them.
    fn load_registers(&mut self, x: u8)
        requires
            old(self).wf(),
            old(self)@.pc + 3 < MEMORY_SIZE,
            old(self)@.waiting is None,
            x < NUM_REGS,
            old(self)@.i + x + 1 <= MEMORY_SIZE,
        ensures
            final(self).wf(),
            final(self)@ == (CpuState {
                regs: loaded_regs(old(self)@, x),
                i: old(self)@.i + x + 1,
                pc: old(self)@.pc + 2,
                ..old(self)@
            }),
    {
        let ghost s0 = self@;
        let start = self.i_reg as usize;
        let mut k: usize = 0;
        while k <= x as usize
            invariant
                s0.wf(),
                s0.i == start,
                x < NUM_REGS,
                start + x + 1 <= MEMORY_SIZE,
                k <= x + 1,
                self@ == (CpuState { regs: self.regs@, ..s0 }),
                self.regs@.len() == NUM_REGS,
                forall|r: int|
                    0 <= r < NUM_REGS ==> #[trigger] self.regs@[r] == if r < k {
                        s0.memory[start + r]
                    } else {
                        s0.regs[r]
                    },
            decreases x + 1 - k,
        {
            let v = self.memory[start + k];
            self.regs.set(k, v);
            k = k + 1;
        }
        self.i_reg = self.i_reg + x as u16 + 1;
        self.pc = self.pc + 2;
        assert(self.regs@ =~= loaded_regs(s0, x));
    }

    fn set_register(&mut self, reg: u8, value: u8)
        requires
            old(self).wf(),
            reg < NUM_REGS,
        ensures
            final(self).wf(),
            final(self)@ == set_reg(old(self)@, reg, value),
    {
        self.regs.set(reg as usize, value);
    }
}

} // verus!
