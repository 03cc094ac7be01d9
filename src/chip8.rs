use vstd::prelude::*;

use crate::cpu::CPU;
use crate::machine::{
    initial_memory, initial_state, loaded_memory, step, timers_ticked, Chip8Error, CpuState,
    MAX_PROGRAM_SIZE,
};

verus! {

/// Steps between two timer ticks in the desktop loop: about 500 steps a
/// second against a 60 Hz timer.
pub const STEPS_PER_TIMER_TICK: u32 = 9;

/// The machine as the desktop loop drives it: the interpreter, and the
/// count of steps since the timers last ticked.
pub struct Chip8 {
    cpu: CPU,
    instructions_executed: u32,
}

impl Chip8 {
    pub closed spec fn machine(&self) -> CpuState {
        self.cpu@
    }

    pub closed spec fn executed(&self) -> u32 {
        self.instructions_executed
    }

    /// The timers tick on this cycle.
    pub open spec fn timer_due(&self) -> bool {
        self.executed() >= STEPS_PER_TIMER_TICK
    }

    /// The machine as the step of a cycle finds it: with the new keypad
    /// snapshot, and after the timer tick where one is due.
    pub open spec fn before_step(&self, keys: Seq<bool>) -> CpuState {
        let with_keys = CpuState { keys, ..self.machine() };
        if self.timer_due() {
            timers_ticked(with_keys)
        } else {
            with_keys
        }
    }

    pub open spec fn wf(&self) -> bool {
        self.machine().wf() && self.executed() <= STEPS_PER_TIMER_TICK
    }

    /// A machine running `program` from 0x200. An image longer than the
    /// 3584 bytes above that address is not loaded: the machine is halted with
    /// `LoadTooLarge` instead.
    pub fn new(program: Vec<u8>) -> (r: Chip8)
        ensures
            r.wf(),
            r.executed() == 0,
            program@.len() <= MAX_PROGRAM_SIZE ==> r.machine() == (CpuState {
                memory: loaded_memory(initial_memory(), program@),
                loaded: true,
                ..initial_state()
            }),
            program@.len() > MAX_PROGRAM_SIZE ==> r.machine() == (CpuState {
                fault: Some(Chip8Error::LoadTooLarge),
                ..initial_state()
            }),
    {
        let mut cpu = CPU::new();
        match cpu.load(program) {
            Ok(()) => {},
            Err(e) => cpu.halt(e),
        }
        Chip8 { cpu, instructions_executed: 0 }
    }

    /// The interpreter, for reading the framebuffer and the run state.
    pub fn cpu(&self) -> (r: &CPU)
        ensures
            r@ == self.machine(),
    {
        &self.cpu
    }

    /// One iteration of the desktop loop: takes the keypad snapshot, ticks
    /// the timers when nine steps have passed since they last ticked, then
    /// takes one step. Returns the beep signal when the timers ticked, and
    /// `None` when they did not.
    pub fn cycle(&mut self, keys: [bool; 16]) -> (r: Option<bool>)
        requires
            old(self).wf(),
        ensures
            final(self).wf(),
            r == if old(self).timer_due() {
                Some(old(self).before_step(keys@).beep)
            } else {
                None::<bool>
            },
            exists|rnd: u8| final(self).machine() == step(old(self).before_step(keys@), rnd),
            final(self).executed() == if old(self).timer_due() {
                1
            } else {
                old(self).executed() + 1
            },
    {
        let ghost with_keys = CpuState { keys: keys@, ..self.cpu@ };
        self.cpu.set_keys(keys);
        assert(self.cpu@ =~= with_keys);
        let mut beep: Option<bool> = None;
        if self.instructions_executed >= STEPS_PER_TIMER_TICK {
            self.cpu.advance_timers();
            beep = Some(self.cpu.sound_active());
            self.instructions_executed = 0;
        }
        let ghost before_step = self.cpu@;
        assert(before_step =~= old(self).before_step(keys@));
        self.cpu.tick();
        self.instructions_executed = self.instructions_executed + 1;
        beep
    }
}

} // verus!
