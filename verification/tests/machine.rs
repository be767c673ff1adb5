use chip8::{Chip8, Due, LoadError, Pacer};

const FONT: [u8; 80] = [
    0xF0, 0x90, 0x90, 0x90, 0xF0,
    0x20, 0x60, 0x20, 0x20, 0x70,
    0xF0, 0x10, 0xF0, 0x80, 0xF0,
    0xF0, 0x10, 0xF0, 0x10, 0xF0,
    0x90, 0x90, 0xF0, 0x10, 0x10,
    0xF0, 0x80, 0xF0, 0x10, 0xF0,
    0xF0, 0x80, 0xF0, 0x90, 0xF0,
    0xF0, 0x10, 0x20, 0x40, 0x40,
    0xF0, 0x90, 0xF0, 0x90, 0xF0,
    0xF0, 0x90, 0xF0, 0x10, 0xF0,
    0xF0, 0x90, 0xF0, 0x90, 0x90,
    0xE0, 0x90, 0xE0, 0x90, 0xE0,
    0xF0, 0x80, 0x80, 0x80, 0xF0,
    0xE0, 0x90, 0x90, 0x90, 0xE0,
    0xF0, 0x80, 0xF0, 0x80, 0xF0,
    0xF0, 0x80, 0xF0, 0x80, 0x80,
];

#[test]
fn init_gives_the_power_on_state() {
    let chip8 = Chip8::init();
    assert_eq!(chip8.pc, 0x200);
    assert_eq!(chip8.i, 0);
    assert!(chip8.stack.is_empty());
    assert_eq!(chip8.delay_timer, 0);
    assert_eq!(chip8.sound_timer, 0);
    assert_eq!(chip8.v, [0u8; 16]);
    assert_eq!(chip8.font_location, 0x50);
    assert!(!chip8.draw_flag);
    assert!(!chip8.timers_dec_flag);
    assert!(chip8.display_buf.iter().all(|column| column.iter().all(|pixel| !pixel)));
    assert_eq!(&chip8.memory[0x50..0xA0], &FONT[..]);
    assert!(chip8.memory[..0x50].iter().all(|byte| *byte == 0));
    assert!(chip8.memory[0xA0..].iter().all(|byte| *byte == 0));
}

#[test]
fn init_font_rewrites_only_the_glyph_table() {
    let mut chip8 = Chip8::init();
    for byte in chip8.memory.iter_mut() {
        *byte = 0xAA;
    }
    chip8.pc = 0x321;
    chip8.init_font();
    assert_eq!(&chip8.memory[0x50..0xA0], &FONT[..]);
    assert!(chip8.memory[..0x50].iter().all(|byte| *byte == 0xAA));
    assert!(chip8.memory[0xA0..].iter().all(|byte| *byte == 0xAA));
    assert_eq!(chip8.pc, 0x321);
}

#[test]
fn load_data_copies_the_program_to_the_program_area() {
    let mut chip8 = Chip8::init();
    assert_eq!(chip8.load_data(&[0x00, 0xE0, 0x6A, 0x02, 0x12, 0x00]), Ok(()));
    assert_eq!(&chip8.memory[0x200..0x206], &[0x00, 0xE0, 0x6A, 0x02, 0x12, 0x00]);
    assert_eq!(chip8.memory[0x1FF], 0);
    assert_eq!(chip8.memory[0x206], 0);
    assert_eq!(&chip8.memory[0x50..0xA0], &FONT[..]);
    assert_eq!(chip8.pc, 0x200);
}

#[test]
fn load_data_of_an_empty_program_changes_nothing() {
    let mut chip8 = Chip8::init();
    let before = chip8.memory;
    assert_eq!(chip8.load_data(&[]), Ok(()));
    assert_eq!(chip8.memory, before);
}

#[test]
fn load_data_fills_memory_to_its_end_and_no_further() {
    let mut chip8 = Chip8::init();
    let largest = vec![0x5Au8; 4096 - 0x200];
    assert_eq!(chip8.load_data(&largest), Ok(()));
    assert!(chip8.memory[0x200..].iter().all(|byte| *byte == 0x5A));
    assert_eq!(chip8.memory[0x1FF], 0);

    let mut chip8 = Chip8::init();
    let before = chip8.memory;
    let too_large = vec![0x5Au8; 4096 - 0x200 + 1];
    assert_eq!(chip8.load_data(&too_large), Err(LoadError::TooLarge(4096 - 0x200 + 1)));
    assert_eq!(chip8.memory, before);
}

#[test]
fn timers_count_down_to_zero_and_stay_there() {
    let mut chip8 = Chip8::init();
    chip8.delay_timer = 2;
    chip8.sound_timer = 3;
    assert!(!chip8.tick_timers());
    assert_eq!((chip8.delay_timer, chip8.sound_timer), (1, 2));
    assert!(!chip8.tick_timers());
    assert_eq!((chip8.delay_timer, chip8.sound_timer), (0, 1));
    // The beep comes exactly when the sound timer goes from 1 to 0.
    assert!(chip8.tick_timers());
    assert_eq!((chip8.delay_timer, chip8.sound_timer), (0, 0));
    assert!(!chip8.tick_timers());
    assert_eq!((chip8.delay_timer, chip8.sound_timer), (0, 0));
    assert_eq!(chip8.pc, 0x200);
}

#[test]
fn beep_sound_is_silent() {
    let chip8 = Chip8::init();
    chip8.beep_sound();
    assert_eq!(chip8.sound_timer, 0);
}

#[test]
fn pacer_starts_at_the_periods() {
    let pacer = Pacer::new();
    assert_eq!(pacer.op_trigger, 14);
    assert_eq!(pacer.timer_trigger, 166);
}

#[test]
fn pacer_fires_once_per_period() {
    let mut pacer = Pacer::new();
    let mut instructions = Vec::new();
    let mut timers = Vec::new();
    for turn in 0..500u32 {
        let due = pacer.turn();
        if due.instruction {
            instructions.push(turn);
        }
        if due.timers {
            timers.push(turn);
        }
    }
    assert_eq!(&instructions[..4], &[14, 28, 42, 56]);
    assert_eq!(timers, vec![166, 332, 498]);
    assert_eq!(instructions.len(), 35);
}

#[test]
fn pacer_turn_restarts_a_countdown_that_ran_out() {
    let mut pacer = Pacer { op_trigger: 0, timer_trigger: 0 };
    assert_eq!(pacer.turn(), Due { instruction: true, timers: true });
    assert_eq!(pacer, Pacer { op_trigger: 13, timer_trigger: 165 });
    assert_eq!(pacer.turn(), Due { instruction: false, timers: false });
    assert_eq!(pacer, Pacer { op_trigger: 12, timer_trigger: 164 });
}
