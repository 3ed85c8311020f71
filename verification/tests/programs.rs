use chip8::{Chip8, Fault};

#[test]
fn fresh_machine() {
    let c = Chip8::new(vec![0xAA, 0xBB, 0xCC]).expect("program fits");
    assert_eq!(&c.memory[0..5], &[0xF0, 0x90, 0x90, 0x90, 0xF0]);
    assert_eq!(&c.memory[75..80], &[0xF0, 0x80, 0xF0, 0x80, 0x80]);
    assert!(c.memory[80..0x200].iter().all(|&b| b == 0));
    assert_eq!(&c.memory[0x200..0x203], &[0xAA, 0xBB, 0xCC]);
    assert!(c.memory[0x203..].iter().all(|&b| b == 0));
    assert_eq!(c.pc, 0x200);
    assert_eq!(c.sp, 0);
    assert_eq!(c.i_reg, 0);
    assert_eq!(c.v, [0; 16]);
    assert_eq!(c.stack, [0; 16]);
    assert_eq!(c.key, [false; 16]);
    assert_eq!(c.gfx, [[0; 64]; 32]);
    assert_eq!((c.delay_timer, c.sound_timer), (0, 0));
    assert!(!c.draw_flag);
}

#[test]
fn largest_program_fits() {
    let mut image = vec![0u8; 3584];
    image[3583] = 0x5A;
    let c = Chip8::new(image).expect("program fits");
    assert_eq!(c.memory[4095], 0x5A);
}

#[test]
fn oversized_program_is_refused() {
    assert!(matches!(Chip8::new(vec![0u8; 3585]), Err(Fault::ProgramTooLarge)));
}

#[test]
fn clear_then_jump_to_self_loops_at_the_start() {
    let mut c = Chip8::new(vec![0x00, 0xE0, 0x12, 0x00]).expect("program fits");
    assert_eq!(c.emulate_cycle(), Ok(false));
    assert_eq!(c.pc, 0x202);
    assert!(c.draw_flag);
    assert_eq!(c.gfx, [[0; 64]; 32]);
    for _ in 0..20 {
        assert_eq!(c.emulate_cycle(), Ok(false));
        assert_eq!(c.pc, 0x200);
        assert_eq!(c.emulate_cycle(), Ok(false));
        assert_eq!(c.pc, 0x202);
    }
    assert_eq!(c.gfx, [[0; 64]; 32]);
}

#[test]
fn jump_to_self_stays_put() {
    let mut c = Chip8::new(vec![0x12, 0x00]).expect("program fits");
    for _ in 0..20 {
        assert_eq!(c.emulate_cycle(), Ok(false));
        assert_eq!(c.pc, 0x200);
    }
}

#[test]
fn skip_if_equal_jumps_over_the_next_instruction() {
    // 6A05 3A05 1204 6BFF: once VA is 5 the skip fires and passes over the
    // jump at 0x204; up to there nothing has written VB.
    let mut c = Chip8::new(vec![0x6A, 0x05, 0x3A, 0x05, 0x12, 0x04, 0x6B, 0xFF])
        .expect("program fits");
    assert_eq!(c.emulate_cycle(), Ok(false));
    assert_eq!(c.v[0xA], 5);
    assert_eq!(c.emulate_cycle(), Ok(false));
    assert_eq!(c.pc, 0x206);
    assert_eq!(c.v[0xB], 0);
}

#[test]
fn instruction_behind_the_skipped_one_runs_next() {
    let mut c = Chip8::new(vec![0x6A, 0x05, 0x3A, 0x05, 0x12, 0x04, 0x6B, 0xFF])
        .expect("program fits");
    for _ in 0..3 {
        assert_eq!(c.emulate_cycle(), Ok(false));
    }
    assert_eq!(c.pc, 0x208);
    assert_eq!(c.v[0xB], 0xFF);
}

#[test]
fn skip_not_taken_runs_into_the_jump_and_never_sets_vb() {
    let mut c = Chip8::new(vec![0x6A, 0x05, 0x3A, 0x06, 0x12, 0x04, 0x6B, 0xFF])
        .expect("program fits");
    for _ in 0..20 {
        assert_eq!(c.emulate_cycle(), Ok(false));
    }
    assert_eq!(c.pc, 0x204);
    assert_eq!(c.v[0xA], 5);
    assert_eq!(c.v[0xB], 0);
}

#[test]
fn running_off_the_program_reports_the_zero_word() {
    let mut c = Chip8::new(vec![0x60, 0x01]).expect("program fits");
    assert_eq!(c.emulate_cycle(), Ok(false));
    assert_eq!(c.emulate_cycle(), Err(Fault::InvalidOpcode(0)));
    assert_eq!(c.pc, 0x202);
}
