use vstd::prelude::*;

use crate::display::{collides, covers, drawn, has_set_bit, lemma_draw_twice, PIXELS};
use crate::font::{font, FONT_SIZE};
use crate::instruction::{decode, lemma_decode_total, Instruction};

verus! {

/// Bytes of addressable memory.
pub const MEMORY_SIZE: usize = 4096;

/// Address at which a program image is loaded, and the initial program counter.
pub const PROGRAM_START: usize = 0x200;

/// The largest program image that fits in memory.
pub const MAX_PROGRAM_SIZE: usize = 3584;

/// Number of return addresses the call stack holds.
pub const STACK_FRAMES: usize = 16;

/// Number of general registers.
pub const NUM_REGS: usize = 16;

/// Number of keys on the keypad.
pub const NUM_KEYS: usize = 16;

/// The register that holds carry, borrow and collision flags.
pub const FLAG_REG: u8 = 15;

/// A fault that halts the machine.
#[derive(Debug, Clone, Copy, PartialEq, Eq, Structural)]
pub enum Chip8Error {
    /// A program image is larger than the memory above the load address.
    LoadTooLarge,
    /// The opcode at the program counter is no instruction.
    DecodeFailure,
    /// A call with all sixteen stack frames in use.
    StackOverflow,
    /// A return with an empty call stack.
    StackUnderflow,
    /// An instruction read or wrote an address at or above 4096.
    AddressOutOfRange,
    /// A glyph was asked for a value above 0xF.
    InvalidSpriteIndex,
}

/// What the executor does on the next step.
#[derive(Debug, Clone, Copy, PartialEq, Eq, Structural)]
pub enum RunState {
    Running,
    Paused,
    AwaitingKeypress,
    Halted(Chip8Error),
}

/// The whole machine, as mathematical values.
#[verifier::ext_equal]
pub struct CpuState {
    pub regs: Seq<u8>,
    pub i: int,
    pub sp: int,
    pub pc: int,
    pub memory: Seq<u8>,
    pub stack: Seq<u16>,
    pub delay: u8,
    pub sound: u8,
    pub display: Seq<bool>,
    pub keys: Seq<bool>,
    /// The beep signal set by the last timer tick.
    pub beep: bool,
    /// The register that an unresolved wait-for-key will fill.
    pub waiting: Option<u8>,
    pub fault: Option<Chip8Error>,
    /// A reset has been asked for and happens at the next step.
    pub reset_pending: bool,
    pub paused: bool,
    pub loaded: bool,
}

impl CpuState {
    /// Lengths of the parts, and the bounds the executor keeps.
    pub open spec fn wf(self) -> bool {
        &&& self.regs.len() == NUM_REGS
        &&& self.memory.len() == MEMORY_SIZE
        &&& self.stack.len() == STACK_FRAMES
        &&& self.display.len() == PIXELS
        &&& self.keys.len() == NUM_KEYS
        &&& 0 <= self.i < 0x10000
        &&& 0 <= self.sp <= STACK_FRAMES
        &&& 0 <= self.pc && self.pc + 1 < MEMORY_SIZE
        &&& forall|k: int| 0 <= k < STACK_FRAMES ==> #[trigger] self.stack[k] < MEMORY_SIZE
        &&& self.waiting matches Some(x) ==> x < NUM_REGS
    }

    pub open spec fn reg(self, x: u8) -> u8 {
        self.regs[x as int]
    }

    pub open spec fn run_state(self) -> RunState {
        if self.fault is Some {
            RunState::Halted(self.fault->0)
        } else if self.paused {
            RunState::Paused
        } else if self.waiting is Some {
            RunState::AwaitingKeypress
        } else {
            RunState::Running
        }
    }
}

/// Memory as it is after loading: the glyph table at address 0, zero elsewhere.
pub open spec fn initial_memory() -> Seq<u8> {
    Seq::new(MEMORY_SIZE as nat, |a: int| if a < FONT_SIZE { font()[a] } else { 0u8 })
}

/// The machine as created: everything zero but the glyphs, PC at 0x200,
/// no program yet.
pub open spec fn initial_state() -> CpuState {
    CpuState {
        regs: Seq::new(NUM_REGS as nat, |r: int| 0u8),
        i: 0,
        sp: 0,
        pc: PROGRAM_START as int,
        memory: initial_memory(),
        stack: Seq::new(STACK_FRAMES as nat, |k: int| 0u16),
        delay: 0,
        sound: 0,
        display: Seq::new(PIXELS as nat, |p: int| false),
        keys: Seq::new(NUM_KEYS as nat, |k: int| false),
        beep: false,
        waiting: None,
        fault: None,
        reset_pending: false,
        paused: false,
        loaded: false,
    }
}

/// A reset brings back the initial state; only the pause switch, which the
/// host owns, is kept.
pub open spec fn reset_state(s: CpuState) -> CpuState {
    CpuState { paused: s.paused, ..initial_state() }
}

/// `memory` with `data` copied in at the load address.
pub open spec fn loaded_memory(memory: Seq<u8>, data: Seq<u8>) -> Seq<u8> {
    Seq::new(
        memory.len(),
        |a: int|
            if PROGRAM_START <= a < PROGRAM_START + data.len() {
                data[a - PROGRAM_START]
            } else {
                memory[a]
            },
    )
}

/// The outcome of loading `data`.
pub open spec fn load_result(s: CpuState, data: Seq<u8>) -> Result<CpuState, Chip8Error> {
    if data.len() > MAX_PROGRAM_SIZE {
        Err(Chip8Error::LoadTooLarge)
    } else {
        Ok(CpuState { memory: loaded_memory(s.memory, data), loaded: true, ..s })
    }
}

/// One timer tick: each timer counts down towards zero; the beep is on while
/// the sound timer was running.
pub open spec fn timers_ticked(s: CpuState) -> CpuState {
    CpuState {
        delay: if s.delay > 0 { (s.delay - 1) as u8 } else { 0u8 },
        sound: if s.sound > 0 { (s.sound - 1) as u8 } else { 0u8 },
        beep: s.sound > 0,
        ..s
    }
}

/// `k` timer ticks in a row.
pub open spec fn timers_ticked_n(s: CpuState, k: nat) -> CpuState
    decreases k,
{
    if k == 0 {
        s
    } else {
        timers_ticked(timers_ticked_n(s, (k - 1) as nat))
    }
}

/// The lowest pressed key at or above `k`.
pub open spec fn first_key_from(keys: Seq<bool>, k: int) -> Option<u8>
    decreases NUM_KEYS - k,
{
    if k < 0 || k >= NUM_KEYS {
        None
    } else if keys[k] {
        Some(k as u8)
    } else {
        first_key_from(keys, k + 1)
    }
}

/// The lowest pressed key, if any.
pub open spec fn first_key(keys: Seq<bool>) -> Option<u8> {
    first_key_from(keys, 0)
}

/// Whether key `k` is pressed; there is no key above 0xF.
pub open spec fn pressed(s: CpuState, k: u8) -> bool {
    k < NUM_KEYS && s.keys[k as int]
}

pub open spec fn halt(s: CpuState, e: Chip8Error) -> CpuState {
    CpuState { fault: Some(e), ..s }
}

pub open spec fn advance(s: CpuState, by: int) -> CpuState {
    CpuState { pc: s.pc + by, ..s }
}

/// Moves past the next instruction when `cond` holds, else to it.
pub open spec fn skip_if(s: CpuState, cond: bool) -> CpuState {
    advance(s, if cond { 4 } else { 2 })
}

pub open spec fn set_reg(s: CpuState, x: u8, v: u8) -> CpuState {
    CpuState { regs: s.regs.update(x as int, v), ..s }
}

pub open spec fn flag(b: bool) -> u8 {
    if b { 1 } else { 0 }
}

/// Writes the flag register first and the result second, so that a result
/// aimed at VF is what VF holds afterwards.
pub open spec fn set_with_flag(s: CpuState, x: u8, v: u8, f: u8) -> CpuState {
    advance(set_reg(set_reg(s, FLAG_REG, f), x, v), 2)
}

/// The 16-bit big-endian word at `pc`.
pub open spec fn opcode_at(memory: Seq<u8>, pc: int) -> u16 {
    (memory[pc] as int * 256 + memory[pc + 1] as int) as u16
}

/// Memory after storing V0..Vx at `I`.
pub open spec fn stored_regs(s: CpuState, x: u8) -> Seq<u8> {
    Seq::new(
        s.memory.len(),
        |a: int| if s.i <= a <= s.i + x { s.regs[a - s.i] } else { s.memory[a] },
    )
}

/// Registers after loading V0..Vx from `I`.
pub open spec fn loaded_regs(s: CpuState, x: u8) -> Seq<u8> {
    Seq::new(s.regs.len(), |r: int| if r <= x { s.memory[s.i + r] } else { s.regs[r] })
}

/// The effect of one instruction, before the check that the program counter
/// stays in memory. `rnd` is the random byte that `RND` masks.
pub open spec fn effect(s: CpuState, ins: Instruction, rnd: u8) -> CpuState {
    match ins {
        Instruction::SYS(_) => advance(s, 2),
        Instruction::CLS() => advance(CpuState { display: Seq::new(PIXELS as nat, |p: int| false), ..s }, 2),
        Instruction::RET() => if s.sp == 0 {
            halt(s, Chip8Error::StackUnderflow)
        } else {
            CpuState { sp: s.sp - 1, pc: s.stack[s.sp - 1] + 2, ..s }
        },
        Instruction::JMP(a) => CpuState { pc: a as int, ..s },
        Instruction::CALL(a) => if s.sp >= STACK_FRAMES {
            halt(s, Chip8Error::StackOverflow)
        } else {
            CpuState { stack: s.stack.update(s.sp, s.pc as u16), sp: s.sp + 1, pc: a as int, ..s }
        },
        Instruction::SEQB(x, kk) => skip_if(s, s.reg(x) == kk),
        Instruction::SNEQB(x, kk) => skip_if(s, s.reg(x) != kk),
        Instruction::SRER(x, y) => skip_if(s, s.reg(x) == s.reg(y)),
        Instruction::SNE(x, y) => skip_if(s, s.reg(x) != s.reg(y)),
        Instruction::LBR(x, kk) => advance(set_reg(s, x, kk), 2),
        Instruction::ABR(x, kk) => advance(set_reg(s, x, ((s.reg(x) + kk) % 256) as u8), 2),
        Instruction::LRR(x, y) => advance(set_reg(s, x, s.reg(y)), 2),
        Instruction::OR(x, y) => advance(set_reg(s, x, s.reg(x) | s.reg(y)), 2),
        Instruction::AND(x, y) => advance(set_reg(s, x, s.reg(x) & s.reg(y)), 2),
        Instruction::XOR(x, y) => advance(set_reg(s, x, s.reg(x) ^ s.reg(y)), 2),
        Instruction::ADD(x, y) => {
            let sum = s.reg(x) + s.reg(y);
            set_with_flag(s, x, (sum % 256) as u8, flag(sum > 255))
        },
        Instruction::SUB(x, y) => set_with_flag(
            s,
            x,
            ((s.reg(x) - s.reg(y)) % 256) as u8,
            flag(s.reg(x) >= s.reg(y)),
        ),
        Instruction::SHR(x) => set_with_flag(s, x, s.reg(x) / 2, s.reg(x) % 2),
        Instruction::SUBN(x, y) => set_with_flag(
            s,
            y,
            ((s.reg(y) - s.reg(x)) % 256) as u8,
            flag(s.reg(y) >= s.reg(x)),
        ),
        Instruction::SHL(x) => set_with_flag(s, x, ((s.reg(x) * 2) % 256) as u8, s.reg(x) / 128),
        Instruction::LDI(a) => advance(CpuState { i: a as int, ..s }, 2),
        Instruction::JPV0(a) => CpuState { pc: a + s.reg(0), ..s },
        Instruction::RND(x, kk) => advance(set_reg(s, x, rnd & kk), 2),
        Instruction::DRW(x, y, n) => if s.i + n > MEMORY_SIZE {
            halt(s, Chip8Error::AddressOutOfRange)
        } else {
            let sprite = s.memory.subrange(s.i, s.i + n);
            let (vx, vy) = (s.reg(x) as int, s.reg(y) as int);
            advance(
                set_reg(
                    CpuState { display: drawn(s.display, sprite, vx, vy), ..s },
                    FLAG_REG,
                    flag(collides(s.display, sprite, vx, vy)),
                ),
                2,
            )
        },
        Instruction::SKP(x) => skip_if(s, pressed(s, s.reg(x))),
        Instruction::SKNP(x) => skip_if(s, !pressed(s, s.reg(x))),
        Instruction::LDDV(x) => advance(set_reg(s, x, s.delay), 2),
        Instruction::LDK(x) => match first_key(s.keys) {
            Some(k) => advance(set_reg(s, x, k), 2),
            None => CpuState { waiting: Some(x), ..s },
        },
        Instruction::LDVD(x) => advance(CpuState { delay: s.reg(x), ..s }, 2),
        Instruction::LDST(x) => advance(CpuState { sound: s.reg(x), ..s }, 2),
        Instruction::ADDI(x) => advance(
            CpuState { i: if s.i + s.reg(x) > 0xFFFF { 0xFFFF } else { s.i + s.reg(x) }, ..s },
            2,
        ),
        Instruction::LDS(x) => if s.reg(x) >= 16 {
            halt(s, Chip8Error::InvalidSpriteIndex)
        } else {
            advance(CpuState { i: s.reg(x) * 5, ..s }, 2)
        },
        Instruction::BCD(x) => if s.i + 3 > MEMORY_SIZE {
            halt(s, Chip8Error::AddressOutOfRange)
        } else {
            let v = s.reg(x);
            let m = s.memory.update(s.i, v / 100).update(s.i + 1, v % 100 / 10).update(s.i + 2, v % 10);
            advance(CpuState { memory: m, ..s }, 2)
        },
        Instruction::SR(x) => if s.i + x + 1 > MEMORY_SIZE {
            halt(s, Chip8Error::AddressOutOfRange)
        } else {
            advance(CpuState { memory: stored_regs(s, x), i: s.i + x + 1, ..s }, 2)
        },
        Instruction::LR(x) => if s.i + x + 1 > MEMORY_SIZE {
            halt(s, Chip8Error::AddressOutOfRange)
        } else {
            advance(CpuState { regs: loaded_regs(s, x), i: s.i + x + 1, ..s }, 2)
        },
    }
}

/// One instruction. Where it would leave the program counter on an address
/// whose word does not fit in memory, it halts the machine instead and
/// changes nothing else.
pub open spec fn execute(s: CpuState, ins: Instruction, rnd: u8) -> CpuState {
    let t = effect(s, ins, rnd);
    if t.pc + 1 >= MEMORY_SIZE {
        halt(s, Chip8Error::AddressOutOfRange)
    } else {
        t
    }
}

/// Fetch, decode and execute the instruction at the program counter.
pub open spec fn cycle(s: CpuState, rnd: u8) -> CpuState {
    match decode(opcode_at(s.memory, s.pc)) {
        Some(ins) => execute(s, ins, rnd),
        None => halt(s, Chip8Error::DecodeFailure),
    }
}

/// A pending wait-for-key: resolved with the lowest pressed key, or left as
/// it is while no key is down.
pub open spec fn resume_wait(s: CpuState, x: u8) -> CpuState {
    match first_key(s.keys) {
        Some(k) => if s.pc + 3 >= MEMORY_SIZE {
            halt(s, Chip8Error::AddressOutOfRange)
        } else {
            advance(set_reg(CpuState { waiting: None, ..s }, x, k), 2)
        },
        None => s,
    }
}

/// One external step.
#[verifier::opaque]
pub open spec fn step(s: CpuState, rnd: u8) -> CpuState {
    let s = if s.reset_pending { reset_state(s) } else { s };
    if s.paused || !s.loaded || s.fault is Some {
        s
    } else if s.waiting is Some {
        resume_wait(s, s.waiting->0)
    } else {
        cycle(s, rnd)
    }
}


/// After a reset the program counter is 0x200; registers, timers, stack
/// pointer and every pixel are zero; the glyph table fills memory[0..80).
pub proof fn lemma_reset(s: CpuState)
    ensures
        reset_state(s).wf(),
        reset_state(s).pc == PROGRAM_START,
        forall|r: int| 0 <= r < NUM_REGS ==> #[trigger] reset_state(s).regs[r] == 0,
        reset_state(s).delay == 0,
        reset_state(s).sound == 0,
        reset_state(s).sp == 0,
        forall|p: int| 0 <= p < PIXELS ==> !#[trigger] reset_state(s).display[p],
        reset_state(s).memory.subrange(0, FONT_SIZE as int) == font(),
{
    assert(reset_state(s).memory.subrange(0, FONT_SIZE as int) =~= font());
}

/// A call followed by a return resumes at the instruction after the call,
/// with the stack pointer back where it was. (Both the called address and
/// the return address hold a whole word of memory.)
pub proof fn lemma_call_ret(s: CpuState, addr: u16, rnd: u8)
    requires
        s.wf(),
        s.sp < STACK_FRAMES,
        s.pc + 3 < MEMORY_SIZE,
        addr + 1 < MEMORY_SIZE,
    ensures
        execute(execute(s, Instruction::CALL(addr), rnd), Instruction::RET(), rnd) == (CpuState {
            pc: s.pc + 2,
            stack: s.stack.update(s.sp, s.pc as u16),
            ..s
        }),
{
}

/// Timers never go below zero: after `k` ticks each one holds
/// `max(start - k, 0)`.
pub proof fn lemma_timers_ticked_n(s: CpuState, k: nat)
    ensures
        timers_ticked_n(s, k).delay == if s.delay >= k { s.delay - k } else { 0 },
        timers_ticked_n(s, k).sound == if s.sound >= k { s.sound - k } else { 0 },
    decreases k,
{
    if k > 0 {
        lemma_timers_ticked_n(s, (k - 1) as nat);
    }
}

/// Executing the same draw twice, with neither coordinate register being
/// VF, leaves the framebuffer as it was and moves the program counter on by
/// two instructions. Where the sprite has a set bit and every pixel it
/// covers starts off, the first draw leaves VF at 0 and the second sets it
/// to 1.
pub proof fn lemma_drw_twice(s: CpuState, x: u8, y: u8, n: u8, rnd: u8)
    requires
        s.wf(),
        x < FLAG_REG,
        y < FLAG_REG,
        n < 16,
        s.i + n <= MEMORY_SIZE,
        s.pc + 5 < MEMORY_SIZE,
    ensures
        ({
            let first = execute(s, Instruction::DRW(x, y, n), rnd);
            let second = execute(first, Instruction::DRW(x, y, n), rnd);
            let sprite = s.memory.subrange(s.i, s.i + n);
            let (vx, vy) = (s.reg(x) as int, s.reg(y) as int);
            &&& second.display == s.display
            &&& first.pc == s.pc + 2
            &&& second.pc == s.pc + 4
            &&& second.fault == s.fault
            &&& has_set_bit(sprite) && (forall|p: int| 0 <= p < PIXELS && #[trigger] covers(sprite, vx, vy, p) ==> !s.display[p])
                ==> first.reg(FLAG_REG) == 0 && second.reg(FLAG_REG) == 1
        }),
{
    let sprite = s.memory.subrange(s.i, s.i + n);
    lemma_draw_twice(s.display, sprite, s.reg(x), s.reg(y));
    let first = execute(s, Instruction::DRW(x, y, n), rnd);
    assert(first.pc == s.pc + 2);
    assert(first.i == s.i && first.memory == s.memory);
    assert(first.reg(x) == s.reg(x) && first.reg(y) == s.reg(y));
    assert(first.display == drawn(s.display, sprite, s.reg(x) as int, s.reg(y) as int));
    assert(first.memory.subrange(first.i, first.i + n) == sprite);
    let second = execute(first, Instruction::DRW(x, y, n), rnd);
    assert(second.pc == s.pc + 4);
    assert(second.display == drawn(first.display, sprite, s.reg(x) as int, s.reg(y) as int));
}

/// A conditional skip moves the program counter by 4 when its condition
/// holds and by 2 otherwise, and changes nothing else (where the instruction
/// after the skipped one is still in memory).
pub proof fn lemma_skip(s: CpuState, x: u8, y: u8, kk: u8, rnd: u8)
    requires
        s.pc + 5 < MEMORY_SIZE,
    ensures
        execute(s, Instruction::SEQB(x, kk), rnd) == advance(s, if s.reg(x) == kk { 4 } else { 2 }),
        execute(s, Instruction::SNEQB(x, kk), rnd) == advance(s, if s.reg(x) != kk { 4 } else { 2 }),
        execute(s, Instruction::SRER(x, y), rnd) == advance(s, if s.reg(x) == s.reg(y) { 4 } else { 2 }),
        execute(s, Instruction::SNE(x, y), rnd) == advance(s, if s.reg(x) != s.reg(y) { 4 } else { 2 }),
{
}

/// No key at or above `k` is pressed exactly when the search from `k`
/// finds none; a key it finds is pressed and no lower one from `k` is.
pub proof fn lemma_first_key_from(keys: Seq<bool>, k: int)
    requires
        keys.len() == NUM_KEYS,
        0 <= k <= NUM_KEYS,
    ensures
        first_key_from(keys, k) is None <==> forall|j: int| k <= j < NUM_KEYS ==> !#[trigger] keys[j],
        first_key_from(keys, k) matches Some(f) ==> k <= f < NUM_KEYS && keys[f as int] && forall|j: int|
            k <= j < f ==> !#[trigger] keys[j],
    decreases NUM_KEYS - k,
{
    if k < NUM_KEYS {
        lemma_first_key_from(keys, k + 1);
    }
}

/// While a wait-for-key is pending and no key is down, a step changes
/// nothing: the program counter stays and the machine keeps waiting. Once a
/// key is down, the next step stores the lowest pressed key in the waiting
/// register, moves to the next instruction, and the machine runs again
/// (where that instruction is in memory).
pub proof fn lemma_wait_for_key(s: CpuState, rnd: u8)
    requires
        s.wf(),
        s.waiting is Some,
        !s.paused,
        s.loaded,
        s.fault is None,
        !s.reset_pending,
    ensures
        (forall|k: int| 0 <= k < NUM_KEYS ==> !#[trigger] s.keys[k]) ==> step(s, rnd) == s
            && step(s, rnd).run_state() == RunState::AwaitingKeypress,
        (exists|k: int| 0 <= k < NUM_KEYS && #[trigger] s.keys[k]) && s.pc + 3 < MEMORY_SIZE ==> ({
            let t = step(s, rnd);
            let f = first_key(s.keys)->0;
            &&& first_key(s.keys) is Some
            &&& s.keys[f as int]
            &&& forall|j: int| 0 <= j < f ==> !#[trigger] s.keys[j]
            &&& t == advance(set_reg(CpuState { waiting: None, ..s }, s.waiting->0, f), 2)
            &&& t.pc == s.pc + 2
            &&& t.run_state() == RunState::Running
        }),
{
    reveal(step);
    lemma_first_key_from(s.keys, 0);
}

/// A running machine that reaches a wait-for-key with no key down enters
/// the waiting state without moving the program counter, and further steps
/// leave it there. When the keypad then reports pressed keys, the next step
/// stores the lowest of them in the instruction's register, moves to the next
/// instruction, and the machine runs again.
pub proof fn lemma_wait_for_key_from_ldk(s: CpuState, x: u8, keys: Seq<bool>, rnd1: u8, rnd2: u8, rnd3: u8)
    requires
        s.wf(),
        s.loaded,
        !s.paused,
        s.fault is None,
        !s.reset_pending,
        s.waiting is None,
        decode(opcode_at(s.memory, s.pc)) == Some(Instruction::LDK(x)),
        forall|k: int| 0 <= k < NUM_KEYS ==> !#[trigger] s.keys[k],
        keys.len() == NUM_KEYS,
        exists|k: int| 0 <= k < NUM_KEYS && #[trigger] keys[k],
        s.pc + 3 < MEMORY_SIZE,
    ensures
        ({
            let waiting = step(s, rnd1);
            let pressed = CpuState { keys, ..waiting };
            let resumed = step(pressed, rnd3);
            let f = first_key(keys)->0;
            &&& waiting == (CpuState { waiting: Some(x), ..s })
            &&& waiting.pc == s.pc
            &&& waiting.run_state() == RunState::AwaitingKeypress
            &&& step(waiting, rnd2) == waiting
            &&& first_key(keys) is Some
            &&& keys[f as int]
            &&& forall|j: int| 0 <= j < f ==> !#[trigger] keys[j]
            &&& resumed.reg(x) == f
            &&& resumed.pc == s.pc + 2
            &&& resumed.run_state() == RunState::Running
        }),
{
    reveal(step);
    lemma_decode_total(opcode_at(s.memory, s.pc));
    lemma_first_key_from(s.keys, 0);
    lemma_first_key_from(keys, 0);
    let waiting = step(s, rnd1);
    assert(waiting == (CpuState { waiting: Some(x), ..s }));
    lemma_wait_for_key(waiting, rnd2);
    lemma_wait_for_key(CpuState { keys, ..waiting }, rnd3);
}

} // verus!
