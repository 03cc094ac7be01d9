use chip8::chip8::Chip8;
use chip8::cpu::{Pixel, CPU};
use chip8::display::Display;
use chip8::instruction::Instruction;
use chip8::machine::{Chip8Error, RunState};

const FONT: [u8; 80] = [
    0xF0, 0x90, 0x90, 0x90, 0xF0, 0x20, 0x60, 0x20, 0x20, 0x70, 0xF0, 0x10, 0xF0, 0x80, 0xF0,
    0xF0, 0x10, 0xF0, 0x10, 0xF0, 0x90, 0x90, 0xF0, 0x10, 0x10, 0xF0, 0x80, 0xF0, 0x10, 0xF0,
    0xF0, 0x80, 0xF0, 0x90, 0xF0, 0xF0, 0x10, 0x20, 0x40, 0x40, 0xF0, 0x90, 0xF0, 0x90, 0xF0,
    0xF0, 0x90, 0xF0, 0x10, 0xF0, 0xF0, 0x90, 0xF0, 0x90, 0x90, 0xE0, 0x90, 0xE0, 0x90, 0xE0,
    0xF0, 0x80, 0x80, 0x80, 0xF0, 0xE0, 0x90, 0x90, 0x90, 0xE0, 0xF0, 0x80, 0xF0, 0x80, 0xF0,
    0xF0, 0x80, 0xF0, 0x80, 0x80,
];

fn program(words: &[u16]) -> Vec<u8> {
    words.iter().flat_map(|w| [(w >> 8) as u8, *w as u8]).collect()
}

fn machine(words: &[u16]) -> CPU {
    let mut cpu = CPU::new();
    cpu.load(program(words)).unwrap();
    cpu
}

fn run(cpu: &mut CPU, steps: usize) {
    for _ in 0..steps {
        cpu.tick();
    }
}

fn lit(cpu: &CPU) -> usize {
    cpu.pixels().iter().filter(|p| **p == Pixel::ON).count()
}

#[test]
fn new_machine_is_zeroed_with_font() {
    let cpu = CPU::new();
    assert_eq!(cpu.program_counter(), 0x200);
    assert_eq!(cpu.index_register(), 0);
    assert_eq!(cpu.stack_pointer(), 0);
    for r in 0..16 {
        assert_eq!(cpu.get_register(r), 0);
    }
    for a in 0..80 {
        assert_eq!(cpu.memory_at(a), FONT[a]);
    }
    for a in 80..4096 {
        assert_eq!(cpu.memory_at(a), 0);
    }
    assert_eq!(cpu.state(), RunState::Running);
    assert_eq!(lit(&cpu), 0);
}

#[test]
fn reset_restores_loaded_state() {
    // V3 = 7, delay = 7, sound = 7, draw glyph 0, call 0x300.
    let mut cpu = machine(&[0x6307, 0xF315, 0xF318, 0xA000, 0xD005, 0x2300]);
    run(&mut cpu, 6);
    assert_eq!(cpu.get_register(3), 7);
    assert_eq!(cpu.stack_pointer(), 1);
    assert!(lit(&cpu) > 0);
    cpu.reset();
    assert_eq!(cpu.program_counter(), 0x200);
    assert_eq!(cpu.index_register(), 0);
    assert_eq!(cpu.stack_pointer(), 0);
    assert_eq!(cpu.delay_timer(), 0);
    assert_eq!(cpu.sound_timer(), 0);
    for r in 0..16 {
        assert_eq!(cpu.get_register(r), 0);
    }
    for a in 0..80 {
        assert_eq!(cpu.memory_at(a), FONT[a]);
    }
    // The program image is gone: nothing runs until it is loaded again.
    assert_eq!(cpu.memory_at(0x200), 0);
    assert_eq!(lit(&cpu), 0);
    cpu.tick();
    assert_eq!(cpu.program_counter(), 0x200);
}

#[test]
fn trigger_reset_takes_effect_on_next_tick() {
    let mut cpu = machine(&[0x6307, 0x6408]);
    cpu.tick();
    cpu.trigger_reset();
    assert_eq!(cpu.get_register(3), 7);
    cpu.tick();
    assert_eq!(cpu.get_register(3), 0);
    assert_eq!(cpu.program_counter(), 0x200);
    cpu.load(program(&[0x6509])).unwrap();
    cpu.tick();
    assert_eq!(cpu.get_register(5), 9);
}

#[test]
fn drawing_a_sprite_twice_erases_it_and_reports_collision() {
    // I = glyph 0, V0 = 5, V1 = 3, draw, draw again.
    let mut cpu = machine(&[0xA000, 0x6005, 0x6103, 0xD015, 0xD015]);
    run(&mut cpu, 4);
    assert_eq!(cpu.get_register(0xF), 0);
    assert_eq!(lit(&cpu), 14);
    assert!(cpu.pixel(3, 5));
    assert!(cpu.pixel(3, 8));
    assert!(!cpu.pixel(4, 6));
    cpu.tick();
    assert_eq!(cpu.get_register(0xF), 1);
    assert_eq!(lit(&cpu), 0);
}

#[test]
fn drawing_wraps_at_the_edges() {
    // Glyph 0 at (62, 30): its rows wrap to the top, its columns to the left.
    let mut cpu = machine(&[0xA000, 0x603E, 0x611E, 0xD015]);
    run(&mut cpu, 4);
    assert!(cpu.pixel(30, 62));
    assert!(cpu.pixel(30, 63));
    assert!(cpu.pixel(30, 0));
    assert!(cpu.pixel(30, 1));
    assert!(!cpu.pixel(30, 2));
    assert!(cpu.pixel(0, 62));
    assert!(cpu.pixel(2, 1));
    assert_eq!(lit(&cpu), 14);
}

#[test]
fn draw_collision_flag_accumulates_over_rows() {
    // Glyph 0 drawn, then four rows of glyph 1 over it: only the first row
    // turns a pixel off, yet VF ends up 1.
    let mut cpu = machine(&[0xA000, 0xD005, 0xA005, 0xD004]);
    run(&mut cpu, 4);
    assert_eq!(cpu.get_register(0xF), 1);
}

#[test]
fn draw_beyond_memory_halts() {
    let mut cpu = machine(&[0xAFFE, 0xD005]);
    run(&mut cpu, 2);
    assert_eq!(cpu.state(), RunState::Halted(Chip8Error::AddressOutOfRange));
    assert_eq!(cpu.program_counter(), 0x202);
}

#[test]
fn clear_screen() {
    let mut cpu = machine(&[0xA000, 0xD005, 0x00E0]);
    run(&mut cpu, 2);
    assert!(lit(&cpu) > 0);
    cpu.tick();
    assert_eq!(lit(&cpu), 0);
    assert_eq!(cpu.program_counter(), 0x206);
}

#[test]
fn add_sets_carry() {
    let mut cpu = machine(&[0x60FA, 0x610A, 0x8014]);
    run(&mut cpu, 3);
    assert_eq!(cpu.get_register(0), 4);
    assert_eq!(cpu.get_register(0xF), 1);
}

#[test]
fn add_without_carry() {
    let mut cpu = machine(&[0x6014, 0x610A, 0x8014]);
    run(&mut cpu, 3);
    assert_eq!(cpu.get_register(0), 30);
    assert_eq!(cpu.get_register(0xF), 0);
}

#[test]
fn sub_wraps_and_clears_flag() {
    let mut cpu = machine(&[0x6005, 0x610A, 0x8015]);
    run(&mut cpu, 3);
    assert_eq!(cpu.get_register(0), 251);
    assert_eq!(cpu.get_register(0xF), 0);
}

#[test]
fn sub_of_equal_values_sets_flag() {
    let mut cpu = machine(&[0x6009, 0x6109, 0x8015]);
    run(&mut cpu, 3);
    assert_eq!(cpu.get_register(0), 0);
    assert_eq!(cpu.get_register(0xF), 1);
}

#[test]
fn subn_writes_second_register() {
    let mut cpu = machine(&[0x6005, 0x610A, 0x8017]);
    run(&mut cpu, 3);
    assert_eq!(cpu.get_register(0), 5);
    assert_eq!(cpu.get_register(1), 5);
    assert_eq!(cpu.get_register(0xF), 1);
    let mut cpu = machine(&[0x600A, 0x6105, 0x8017]);
    run(&mut cpu, 3);
    assert_eq!(cpu.get_register(1), 251);
    assert_eq!(cpu.get_register(0xF), 0);
}

#[test]
fn shifts_set_flag_from_lost_bit() {
    let mut cpu = machine(&[0x6005, 0x8006]);
    run(&mut cpu, 2);
    assert_eq!(cpu.get_register(0), 2);
    assert_eq!(cpu.get_register(0xF), 1);
    let mut cpu = machine(&[0x6081, 0x800E]);
    run(&mut cpu, 2);
    assert_eq!(cpu.get_register(0), 2);
    assert_eq!(cpu.get_register(0xF), 1);
    let mut cpu = machine(&[0x6041, 0x800E]);
    run(&mut cpu, 2);
    assert_eq!(cpu.get_register(0), 0x82);
    assert_eq!(cpu.get_register(0xF), 0);
}

#[test]
fn result_aimed_at_flag_register_wins() {
    let mut cpu = machine(&[0x6FFA, 0x610A, 0x8F14]);
    run(&mut cpu, 3);
    assert_eq!(cpu.get_register(0xF), 4);
}

#[test]
fn bitwise_and_immediate_ops() {
    let mut cpu = machine(&[0x60F0, 0x613C, 0x8201, 0x8211, 0x8300, 0x8312, 0x8400, 0x8413, 0x70FF, 0x8510]);
    run(&mut cpu, 10);
    assert_eq!(cpu.get_register(2), 0xFC);
    assert_eq!(cpu.get_register(3), 0x30);
    assert_eq!(cpu.get_register(4), 0xCC);
    assert_eq!(cpu.get_register(0), 0xEF);
    assert_eq!(cpu.get_register(5), 0x3C);
}

#[test]
fn bcd_of_156() {
    let mut cpu = machine(&[0x609C, 0xA300, 0xF033]);
    run(&mut cpu, 3);
    assert_eq!(cpu.memory_at(0x300), 1);
    assert_eq!(cpu.memory_at(0x301), 5);
    assert_eq!(cpu.memory_at(0x302), 6);
}

#[test]
fn bcd_at_end_of_memory_halts() {
    let mut cpu = machine(&[0xAFFE, 0xF033]);
    run(&mut cpu, 2);
    assert_eq!(cpu.state(), RunState::Halted(Chip8Error::AddressOutOfRange));
}

#[test]
fn call_then_return_resumes_after_call() {
    let mut image = vec![0u8; 0x102];
    image[0] = 0x23;
    image[1] = 0x00;
    image[0x100] = 0x00;
    image[0x101] = 0xEE;
    let mut cpu = CPU::new();
    cpu.load(image).unwrap();
    cpu.tick();
    assert_eq!(cpu.program_counter(), 0x300);
    assert_eq!(cpu.stack_pointer(), 1);
    cpu.tick();
    assert_eq!(cpu.program_counter(), 0x202);
    assert_eq!(cpu.stack_pointer(), 0);
}

#[test]
fn return_on_empty_stack_halts() {
    let mut cpu = machine(&[0x00EE]);
    cpu.tick();
    assert_eq!(cpu.state(), RunState::Halted(Chip8Error::StackUnderflow));
    assert_eq!(cpu.program_counter(), 0x200);
    cpu.tick();
    assert_eq!(cpu.state(), RunState::Halted(Chip8Error::StackUnderflow));
}

#[test]
fn seventeenth_nested_call_halts() {
    let mut cpu = machine(&[0x2200]);
    run(&mut cpu, 16);
    assert_eq!(cpu.stack_pointer(), 16);
    assert_eq!(cpu.state(), RunState::Running);
    cpu.tick();
    assert_eq!(cpu.state(), RunState::Halted(Chip8Error::StackOverflow));
    assert_eq!(cpu.stack_pointer(), 16);
}

#[test]
fn jumps() {
    let mut cpu = machine(&[0x1ABC]);
    cpu.tick();
    assert_eq!(cpu.program_counter(), 0xABC);
    let mut cpu = machine(&[0x6010, 0xB300]);
    run(&mut cpu, 2);
    assert_eq!(cpu.program_counter(), 0x310);
}

#[test]
fn jump_past_memory_halts_at_once() {
    let mut cpu = machine(&[0x60FF, 0xBFFF]);
    run(&mut cpu, 2);
    assert_eq!(cpu.state(), RunState::Halted(Chip8Error::AddressOutOfRange));
    assert_eq!(cpu.program_counter(), 0x202);
    // 0xFFF holds only half a word.
    let mut cpu = machine(&[0x1FFF]);
    cpu.tick();
    assert_eq!(cpu.state(), RunState::Halted(Chip8Error::AddressOutOfRange));
    assert_eq!(cpu.program_counter(), 0x200);
    let mut cpu = machine(&[0x1FFE]);
    cpu.tick();
    assert_eq!(cpu.state(), RunState::Running);
    assert_eq!(cpu.program_counter(), 0xFFE);
}

#[test]
fn return_past_memory_halts() {
    // 0x200: jump to 0xFFE; 0xFFE: call 0xF00; 0xF00: return to 0x1000.
    let mut image = vec![0u8; 3584];
    image[0] = 0x1F;
    image[1] = 0xFE;
    image[0xFFE - 0x200] = 0x2F;
    image[0xFFF - 0x200] = 0x00;
    image[0xF00 - 0x200] = 0x00;
    image[0xF01 - 0x200] = 0xEE;
    let mut cpu = CPU::new();
    cpu.load(image).unwrap();
    run(&mut cpu, 2);
    assert_eq!(cpu.program_counter(), 0xF00);
    assert_eq!(cpu.stack_pointer(), 1);
    cpu.tick();
    assert_eq!(cpu.state(), RunState::Halted(Chip8Error::AddressOutOfRange));
    assert_eq!(cpu.program_counter(), 0xF00);
    assert_eq!(cpu.stack_pointer(), 1);
}

#[test]
fn step_off_the_last_word_halts() {
    // 0xFFE: V1 = 5, whose successor would be 0x1000.
    let mut image = vec![0u8; 3584];
    image[0] = 0x1F;
    image[1] = 0xFE;
    image[0xFFE - 0x200] = 0x61;
    image[0xFFF - 0x200] = 0x05;
    let mut cpu = CPU::new();
    cpu.load(image).unwrap();
    run(&mut cpu, 2);
    assert_eq!(cpu.state(), RunState::Halted(Chip8Error::AddressOutOfRange));
    assert_eq!(cpu.program_counter(), 0xFFE);
    assert_eq!(cpu.get_register(1), 0);
}

#[test]
fn index_register_saturates() {
    let mut cpu = CPU::new();
    cpu.execute_instruction(Instruction::LDI(0xFFF), 0);
    cpu.execute_instruction(Instruction::LBR(0, 0xFF), 0);
    for _ in 0..300 {
        cpu.execute_instruction(Instruction::ADDI(0), 0);
    }
    assert_eq!(cpu.index_register(), 0xFFFF);
    cpu.execute_instruction(Instruction::BCD(0), 0);
    assert_eq!(cpu.state(), RunState::Halted(Chip8Error::AddressOutOfRange));
    assert_eq!(cpu.memory_at(0), 0xF0);
}

#[test]
fn delay_timer_counts_down_to_zero() {
    let mut cpu = machine(&[0x6003, 0xF015]);
    run(&mut cpu, 2);
    assert_eq!(cpu.delay_timer(), 3);
    let expected = [2, 1, 0, 0, 0];
    for e in expected {
        cpu.advance_timers();
        assert_eq!(cpu.delay_timer(), e);
    }
}

#[test]
fn sound_timer_drives_beep() {
    let mut cpu = machine(&[0x6002, 0xF018, 0xF107]);
    run(&mut cpu, 2);
    assert!(!cpu.sound_active());
    cpu.advance_timers();
    assert!(cpu.sound_active());
    assert_eq!(cpu.sound_timer(), 1);
    cpu.advance_timers();
    assert!(cpu.sound_active());
    cpu.advance_timers();
    assert!(!cpu.sound_active());
    assert_eq!(cpu.sound_timer(), 0);
}

#[test]
fn delay_timer_is_readable() {
    let mut cpu = machine(&[0x6009, 0xF015, 0xF107]);
    run(&mut cpu, 2);
    cpu.advance_timers();
    cpu.tick();
    assert_eq!(cpu.get_register(1), 8);
}

#[test]
fn skip_if_equal_byte() {
    let mut cpu = machine(&[0x6007, 0x3007]);
    run(&mut cpu, 2);
    assert_eq!(cpu.program_counter(), 0x206);
    let mut cpu = machine(&[0x6007, 0x3008]);
    run(&mut cpu, 2);
    assert_eq!(cpu.program_counter(), 0x204);
}

#[test]
fn other_skips() {
    let mut cpu = machine(&[0x6007, 0x4008]);
    run(&mut cpu, 2);
    assert_eq!(cpu.program_counter(), 0x206);
    let mut cpu = machine(&[0x6007, 0x6107, 0x5010]);
    run(&mut cpu, 3);
    assert_eq!(cpu.program_counter(), 0x208);
    let mut cpu = machine(&[0x6007, 0x6107, 0x9010]);
    run(&mut cpu, 3);
    assert_eq!(cpu.program_counter(), 0x206);
}

#[test]
fn key_skips() {
    let mut keys = [false; 16];
    keys[5] = true;
    let mut cpu = machine(&[0x6005, 0xE09E]);
    cpu.set_keys(keys);
    run(&mut cpu, 2);
    assert_eq!(cpu.program_counter(), 0x206);
    let mut cpu = machine(&[0x6005, 0xE0A1]);
    cpu.set_keys(keys);
    run(&mut cpu, 2);
    assert_eq!(cpu.program_counter(), 0x204);
    // There is no key above 0xF: it is never pressed.
    let mut cpu = machine(&[0x6015, 0xE0A1]);
    cpu.set_keys([true; 16]);
    run(&mut cpu, 2);
    assert_eq!(cpu.program_counter(), 0x206);
}

#[test]
fn wait_for_key_does_not_block() {
    let mut cpu = machine(&[0xF30A]);
    cpu.tick();
    assert_eq!(cpu.state(), RunState::AwaitingKeypress);
    for _ in 0..5 {
        cpu.tick();
        assert_eq!(cpu.program_counter(), 0x200);
        assert_eq!(cpu.state(), RunState::AwaitingKeypress);
    }
    let mut keys = [false; 16];
    keys[9] = true;
    keys[7] = true;
    cpu.set_keys(keys);
    cpu.tick();
    assert_eq!(cpu.program_counter(), 0x202);
    assert_eq!(cpu.get_register(3), 7);
    assert_eq!(cpu.state(), RunState::Running);
}

#[test]
fn wait_for_key_with_key_already_down() {
    let mut keys = [false; 16];
    keys[0xC] = true;
    let mut cpu = machine(&[0xF30A]);
    cpu.set_keys(keys);
    cpu.tick();
    assert_eq!(cpu.program_counter(), 0x202);
    assert_eq!(cpu.get_register(3), 0xC);
}

#[test]
fn index_register_ops() {
    let mut cpu = machine(&[0xA123, 0x6010, 0xF01E]);
    run(&mut cpu, 3);
    assert_eq!(cpu.index_register(), 0x133);
    let mut cpu = machine(&[0x600A, 0xF029]);
    run(&mut cpu, 2);
    assert_eq!(cpu.index_register(), 50);
}

#[test]
fn glyph_above_f_halts() {
    let mut cpu = machine(&[0x6010, 0xF029]);
    run(&mut cpu, 2);
    assert_eq!(cpu.state(), RunState::Halted(Chip8Error::InvalidSpriteIndex));
}

#[test]
fn store_and_load_registers_advance_index() {
    let mut cpu = machine(&[0x6011, 0x6122, 0x6233, 0xA300, 0xF255, 0xA300, 0xF165]);
    run(&mut cpu, 5);
    assert_eq!(cpu.memory_at(0x300), 0x11);
    assert_eq!(cpu.memory_at(0x301), 0x22);
    assert_eq!(cpu.memory_at(0x302), 0x33);
    assert_eq!(cpu.memory_at(0x303), 0);
    assert_eq!(cpu.index_register(), 0x303);
    let mut cpu2 = machine(&[0xA000, 0xF265]);
    run(&mut cpu2, 2);
    assert_eq!(cpu2.get_register(0), 0xF0);
    assert_eq!(cpu2.get_register(1), 0x90);
    assert_eq!(cpu2.get_register(2), 0x90);
    assert_eq!(cpu2.get_register(3), 0);
    assert_eq!(cpu2.index_register(), 3);
}

#[test]
fn store_registers_past_memory_halts() {
    let mut cpu = machine(&[0xAFFE, 0xF255]);
    run(&mut cpu, 2);
    assert_eq!(cpu.state(), RunState::Halted(Chip8Error::AddressOutOfRange));
    assert_eq!(cpu.memory_at(0xFFE), 0);
}

#[test]
fn random_byte_is_masked() {
    let mut cpu = machine(&[0xC000, 0xC10F]);
    run(&mut cpu, 2);
    assert_eq!(cpu.get_register(0), 0);
    assert!(cpu.get_register(1) <= 0x0F);
    let mut cpu = CPU::new();
    cpu.load(program(&[0xC10F])).unwrap();
    cpu.tick_with(0xAB);
    assert_eq!(cpu.get_register(1), 0x0B);
}

#[test]
fn undecodable_opcode_halts() {
    let mut cpu = machine(&[0x6001, 0xFFFF, 0x6002]);
    run(&mut cpu, 3);
    assert_eq!(cpu.state(), RunState::Halted(Chip8Error::DecodeFailure));
    assert_eq!(cpu.program_counter(), 0x202);
    assert_eq!(cpu.get_register(0), 1);
}

#[test]
fn load_rejects_oversized_image() {
    let mut cpu = CPU::new();
    assert_eq!(cpu.load(vec![0x12; 3585]), Err(Chip8Error::LoadTooLarge));
    assert_eq!(cpu.memory_at(0x200), 0);
    assert_eq!(cpu.load(vec![0x12; 3584]), Ok(()));
    assert_eq!(cpu.memory_at(0x200), 0x12);
    assert_eq!(cpu.memory_at(4095), 0x12);
}

#[test]
fn nothing_runs_before_load() {
    let mut cpu = CPU::new();
    cpu.tick();
    assert_eq!(cpu.program_counter(), 0x200);
    assert_eq!(cpu.state(), RunState::Running);
}

#[test]
fn pause_and_start() {
    let mut cpu = machine(&[0x6001, 0x6102]);
    cpu.pause();
    assert_eq!(cpu.state(), RunState::Paused);
    cpu.tick();
    assert_eq!(cpu.program_counter(), 0x200);
    cpu.start();
    cpu.tick();
    assert_eq!(cpu.get_register(0), 1);
}

#[test]
fn execute_instruction_directly() {
    let mut cpu = CPU::new();
    cpu.execute_instruction(Instruction::LBR(0, 250), 0);
    cpu.execute_instruction(Instruction::LBR(1, 10), 0);
    cpu.execute_instruction(Instruction::ADD(0, 1), 0);
    assert_eq!(cpu.get_register(0), 4);
    assert_eq!(cpu.get_register(0xF), 1);
    assert_eq!(cpu.program_counter(), 0x206);
}

#[test]
fn geometry() {
    let cpu = CPU::new();
    assert_eq!(cpu.height(), 32);
    assert_eq!(cpu.width(), 64);
    assert_eq!(cpu.get_index(2, 5), 133);
    assert_eq!(cpu.pixels().len(), 2048);
    assert_eq!(Display::rows(), 32);
    assert_eq!(Display::cols(), 64);
    let d = Display::new();
    assert!(!d.pixel(31, 63));
}

#[test]
fn desktop_loop_ticks_timers_every_nine_steps() {
    // Sound timer = 5, then spin.
    let mut chip = Chip8::new(program(&[0x6005, 0xF018, 0x1204]));
    let keys = [false; 16];
    for _ in 0..9 {
        assert_eq!(chip.cycle(keys), None);
    }
    assert_eq!(chip.cpu().sound_timer(), 5);
    assert_eq!(chip.cycle(keys), Some(true));
    assert_eq!(chip.cpu().sound_timer(), 4);
    for _ in 0..8 {
        assert_eq!(chip.cycle(keys), None);
    }
    assert_eq!(chip.cycle(keys), Some(true));
    assert_eq!(chip.cpu().sound_timer(), 3);
}

#[test]
fn desktop_loop_passes_keys() {
    let mut chip = Chip8::new(program(&[0xF20A]));
    let mut keys = [false; 16];
    chip.cycle(keys);
    assert_eq!(chip.cpu().state(), RunState::AwaitingKeypress);
    keys[4] = true;
    chip.cycle(keys);
    assert_eq!(chip.cpu().get_register(2), 4);
}

#[test]
fn desktop_loader_rejects_oversized_image() {
    let mut chip = Chip8::new(vec![0x61; 3585]);
    assert_eq!(chip.cpu().state(), RunState::Halted(Chip8Error::LoadTooLarge));
    assert_eq!(chip.cpu().memory_at(0x200), 0);
    assert_eq!(chip.cpu().memory_at(0), 0xF0);
    chip.cycle([false; 16]);
    assert_eq!(chip.cpu().program_counter(), 0x200);
    assert_eq!(chip.cpu().get_register(1), 0);
    let chip = Chip8::new(vec![0x61; 3584]);
    assert_eq!(chip.cpu().state(), RunState::Running);
    assert_eq!(chip.cpu().memory_at(4095), 0x61);
}
