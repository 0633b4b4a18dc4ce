use chip8::engine::isa::Instruction;
use chip8::engine::register::{Registers, SideEffect, TimerSideEffect};

fn with_regs(values: &[(u8, u8)]) -> Registers {
    let mut regs = Registers::new();
    for &(r, v) in values {
        regs.set_general_register(r, v);
    }
    regs
}

fn run(regs: &mut Registers, instruction: Instruction) -> Option<SideEffect> {
    assert!(regs.accepts(&instruction));
    regs.update_registers(instruction)
}

#[test]
fn fresh_register_file() {
    let regs = Registers::new();
    assert_eq!(regs.get_pc(), 0x200);
    assert_eq!(regs.get_address(), 0);
    assert_eq!(regs.get_delay(), 0);
    assert_eq!(regs.get_sound(), 0);
    assert_eq!(regs.stack_depth(), 0);
    for r in 0..16u8 {
        assert_eq!(regs.general_register(r), 0);
    }
}

#[test]
fn add_with_carry() {
    let mut regs = with_regs(&[(1, 0xFF), (2, 0x01)]);
    assert_eq!(run(&mut regs, Instruction::AddRegV { r: 1, f: 2 }), None);
    assert_eq!(regs.general_register(1), 0x00);
    assert_eq!(regs.general_register(0xF), 1);
    assert_eq!(regs.get_pc(), 0x202);
}

#[test]
fn add_without_carry_clears_flag() {
    let mut regs = with_regs(&[(1, 0x10), (2, 0x20), (0xF, 1)]);
    run(&mut regs, Instruction::AddRegV { r: 1, f: 2 });
    assert_eq!(regs.general_register(1), 0x30);
    assert_eq!(regs.general_register(0xF), 0);
}

#[test]
fn sub_with_borrow() {
    let mut regs = with_regs(&[(1, 0x01), (2, 0x02)]);
    run(&mut regs, Instruction::SubRegV { r: 1, f: 2 });
    assert_eq!(regs.general_register(1), 0xFF);
    assert_eq!(regs.general_register(0xF), 0);
}

#[test]
fn sub_without_borrow() {
    let mut regs = with_regs(&[(1, 0x05), (2, 0x05)]);
    run(&mut regs, Instruction::SubRegV { r: 1, f: 2 });
    assert_eq!(regs.general_register(1), 0x00);
    assert_eq!(regs.general_register(0xF), 1);
}

#[test]
fn reverse_sub() {
    let mut regs = with_regs(&[(1, 0x03), (2, 0x0A)]);
    run(&mut regs, Instruction::SubNRegV { r: 1, f: 2 });
    assert_eq!(regs.general_register(1), 0x07);
    assert_eq!(regs.general_register(0xF), 1);
    let mut regs = with_regs(&[(1, 0x0A), (2, 0x03)]);
    run(&mut regs, Instruction::SubNRegV { r: 1, f: 2 });
    assert_eq!(regs.general_register(1), 0xF9);
    assert_eq!(regs.general_register(0xF), 0);
}

#[test]
fn shift_left_of_top_bit() {
    let mut regs = with_regs(&[(2, 0x80)]);
    run(&mut regs, Instruction::ShlRegV { r: 1, f: 2 });
    assert_eq!(regs.general_register(1), 0x00);
    assert_eq!(regs.general_register(0xF), 1);
    assert_eq!(regs.general_register(2), 0x80);
}

#[test]
fn shift_left_reads_second_operand() {
    let mut regs = with_regs(&[(1, 0xFF), (2, 0x21)]);
    run(&mut regs, Instruction::ShlRegV { r: 1, f: 2 });
    assert_eq!(regs.general_register(1), 0x42);
    assert_eq!(regs.general_register(0xF), 0);
}

#[test]
fn shift_right() {
    let mut regs = with_regs(&[(2, 0x05)]);
    run(&mut regs, Instruction::ShrRegV { r: 1, f: 2 });
    assert_eq!(regs.general_register(1), 0x02);
    assert_eq!(regs.general_register(0xF), 1);
    let mut regs = with_regs(&[(2, 0x04), (0xF, 1)]);
    run(&mut regs, Instruction::ShrRegV { r: 1, f: 2 });
    assert_eq!(regs.general_register(1), 0x02);
    assert_eq!(regs.general_register(0xF), 0);
}

#[test]
fn flag_wins_over_result_in_vf() {
    let mut regs = with_regs(&[(0xF, 0xF0), (2, 0x20)]);
    run(&mut regs, Instruction::AddRegV { r: 0xF, f: 2 });
    assert_eq!(regs.general_register(0xF), 1);
}

#[test]
fn add_byte_wraps_and_keeps_flag() {
    let mut regs = with_regs(&[(3, 0xFE), (0xF, 7)]);
    run(&mut regs, Instruction::AddByte { r: 3, val: 0x05 });
    assert_eq!(regs.general_register(3), 0x03);
    assert_eq!(regs.general_register(0xF), 7);
}

#[test]
fn bitwise_operations() {
    let mut regs = with_regs(&[(1, 0b1100), (2, 0b1010)]);
    run(&mut regs, Instruction::OrRegV { r: 1, f: 2 });
    assert_eq!(regs.general_register(1), 0b1110);
    let mut regs = with_regs(&[(1, 0b1100), (2, 0b1010)]);
    run(&mut regs, Instruction::AndRegV { r: 1, f: 2 });
    assert_eq!(regs.general_register(1), 0b1000);
    let mut regs = with_regs(&[(1, 0b1100), (2, 0b1010)]);
    run(&mut regs, Instruction::XorRegV { r: 1, f: 2 });
    assert_eq!(regs.general_register(1), 0b0110);
    let mut regs = with_regs(&[(1, 0b1100), (2, 0b1010)]);
    run(&mut regs, Instruction::SetRegV { r: 1, f: 2 });
    assert_eq!(regs.general_register(1), 0b1010);
    run(&mut regs, Instruction::SetByte { r: 9, val: 0x77 });
    assert_eq!(regs.general_register(9), 0x77);
}

#[test]
fn call_then_return() {
    let mut regs = Registers::new();
    assert_eq!(run(&mut regs, Instruction::CallSub(0x300)), None);
    assert_eq!(regs.get_pc(), 0x300);
    assert_eq!(regs.stack_depth(), 1);
    assert_eq!(run(&mut regs, Instruction::ReturnSubroutine), None);
    assert_eq!(regs.get_pc(), 0x200);
    assert_eq!(regs.stack_depth(), 0);
    run(&mut regs, Instruction::Ignore);
    assert_eq!(regs.get_pc(), 0x202);
}

#[test]
fn nested_calls_return_in_reverse() {
    let mut regs = Registers::new();
    run(&mut regs, Instruction::CallSub(0x300));
    run(&mut regs, Instruction::CallSub(0x400));
    assert_eq!(regs.stack_depth(), 2);
    run(&mut regs, Instruction::ReturnSubroutine);
    assert_eq!(regs.get_pc(), 0x300);
    run(&mut regs, Instruction::ReturnSubroutine);
    assert_eq!(regs.get_pc(), 0x200);
}

#[test]
fn return_on_empty_stack_is_not_accepted() {
    let regs = Registers::new();
    assert!(!regs.accepts(&Instruction::ReturnSubroutine));
}

#[test]
fn seventeenth_call_is_not_accepted() {
    let mut regs = Registers::new();
    for _ in 0..16 {
        run(&mut regs, Instruction::CallSub(0x300));
    }
    assert_eq!(regs.stack_depth(), 16);
    assert!(!regs.accepts(&Instruction::CallSub(0x300)));
}

#[test]
fn operands_out_of_range_are_not_accepted() {
    let regs = Registers::new();
    assert!(!regs.accepts(&Instruction::SetByte { r: 16, val: 0 }));
    assert!(!regs.accepts(&Instruction::AddRegV { r: 1, f: 16 }));
    assert!(!regs.accepts(&Instruction::JmpAddr(0x1000)));
    assert!(!regs.accepts(&Instruction::DispSpr { rp: (0, 0), n: 16 }));
    assert!(!regs.accepts(&Instruction::MemDump { endr: 16 }));
    assert!(regs.accepts(&Instruction::SetByte { r: 15, val: 0 }));
    assert!(regs.accepts(&Instruction::JmpAddr(0xFFF)));
}

#[test]
fn address_register_overflow_is_not_accepted() {
    let mut regs = with_regs(&[(1, 0xFF), (2, 0xE1)]);
    run(&mut regs, Instruction::SetRegL(0xFFF));
    for _ in 0..240 {
        run(&mut regs, Instruction::AddRegL { r: 1 });
        run(&mut regs, Instruction::JmpAddr(0x200));
    }
    assert_eq!(regs.get_address(), 0xFF0F);
    assert!(!regs.accepts(&Instruction::AddRegL { r: 1 }));
    assert!(regs.accepts(&Instruction::MemRead { endr: 15 }));
    run(&mut regs, Instruction::AddRegL { r: 2 });
    assert_eq!(regs.get_address(), 0xFFF0);
    assert!(!regs.accepts(&Instruction::MemRead { endr: 15 }));
    assert!(!regs.accepts(&Instruction::MemDump { endr: 15 }));
    assert!(regs.accepts(&Instruction::MemRead { endr: 14 }));
}

#[test]
fn jumps() {
    let mut regs = with_regs(&[(0, 0x10)]);
    run(&mut regs, Instruction::JmpAddr(0x400));
    assert_eq!(regs.get_pc(), 0x400);
    run(&mut regs, Instruction::JmpAddrOffReg0(0x500));
    assert_eq!(regs.get_pc(), 0x510);
    assert_eq!(regs.stack_depth(), 0);
}

#[test]
fn skip_on_equal_byte() {
    let mut regs = with_regs(&[(4, 0x42)]);
    run(&mut regs, Instruction::SkipEq { r: 4, val: 0x42 });
    assert_eq!(regs.get_pc(), 0x204);
    run(&mut regs, Instruction::SkipEq { r: 4, val: 0x43 });
    assert_eq!(regs.get_pc(), 0x206);
}

#[test]
fn skip_on_unequal_byte() {
    let mut regs = with_regs(&[(4, 0x42)]);
    run(&mut regs, Instruction::SkipNeq { r: 4, val: 0x42 });
    assert_eq!(regs.get_pc(), 0x202);
    run(&mut regs, Instruction::SkipNeq { r: 4, val: 0x43 });
    assert_eq!(regs.get_pc(), 0x206);
}

#[test]
fn skip_on_registers() {
    let mut regs = with_regs(&[(1, 7), (2, 7), (3, 8)]);
    run(&mut regs, Instruction::SkipRegEq { r: 1, f: 2 });
    assert_eq!(regs.get_pc(), 0x204);
    run(&mut regs, Instruction::SkipRegEq { r: 1, f: 3 });
    assert_eq!(regs.get_pc(), 0x206);
    run(&mut regs, Instruction::SkipRegNeq { r: 1, f: 3 });
    assert_eq!(regs.get_pc(), 0x20A);
    run(&mut regs, Instruction::SkipRegNeq { r: 1, f: 2 });
    assert_eq!(regs.get_pc(), 0x20C);
}

#[test]
fn key_tests_leave_program_counter() {
    let mut regs = with_regs(&[(5, 0xA)]);
    assert_eq!(
        run(&mut regs, Instruction::SkipKeyPressed { r: 5 }),
        Some(SideEffect::CheckKeyPressed { key: 0xA })
    );
    assert_eq!(regs.get_pc(), 0x200);
    assert_eq!(
        run(&mut regs, Instruction::SkipKeyReleased { r: 5 }),
        Some(SideEffect::CheckKeyReleased { key: 0xA })
    );
    assert_eq!(regs.get_pc(), 0x200);
}

#[test]
fn simple_side_effects() {
    let mut regs = with_regs(&[(1, 12), (2, 34)]);
    assert_eq!(run(&mut regs, Instruction::ClearDisplay), Some(SideEffect::ClearDisplay));
    run(&mut regs, Instruction::SetRegL(0x123));
    assert_eq!(
        run(&mut regs, Instruction::DispSpr { rp: (1, 2), n: 5 }),
        Some(SideEffect::Draw { pos: (12, 34), n: 5, l: 0x123 })
    );
    assert_eq!(
        run(&mut regs, Instruction::WaitKeyPress { r: 7 }),
        Some(SideEffect::WaitKeyPress { r: 7 })
    );
    assert_eq!(regs.get_pc(), 0x208);
}

#[test]
fn decimal_digits() {
    let mut regs = with_regs(&[(3, 234)]);
    run(&mut regs, Instruction::SetRegL(0x300));
    assert_eq!(
        run(&mut regs, Instruction::MemDumpBcdFromReg { r: 3 }),
        Some(SideEffect::MemDump { dump_vals: vec![2, 3, 4], l: 0x300 })
    );
    assert_eq!(regs.get_address(), 0x300);
    let mut regs = with_regs(&[(3, 7)]);
    assert_eq!(
        run(&mut regs, Instruction::MemDumpBcdFromReg { r: 3 }),
        Some(SideEffect::MemDump { dump_vals: vec![0, 0, 7], l: 0 })
    );
    let mut regs = with_regs(&[(3, 255)]);
    assert_eq!(
        run(&mut regs, Instruction::MemDumpBcdFromReg { r: 3 }),
        Some(SideEffect::MemDump { dump_vals: vec![2, 5, 5], l: 0 })
    );
}

#[test]
fn bulk_dump_and_read() {
    let mut regs = with_regs(&[(0, 10), (1, 11), (2, 12), (3, 13)]);
    run(&mut regs, Instruction::SetRegL(0x400));
    assert_eq!(
        run(&mut regs, Instruction::MemDump { endr: 2 }),
        Some(SideEffect::MemDump { dump_vals: vec![10, 11, 12], l: 0x400 })
    );
    assert_eq!(regs.get_address(), 0x403);
    assert_eq!(
        run(&mut regs, Instruction::MemRead { endr: 0 }),
        Some(SideEffect::MemRead { count: 1, l: 0x403 })
    );
    assert_eq!(regs.get_address(), 0x404);
    assert_eq!(
        run(&mut regs, Instruction::MemRead { endr: 15 }),
        Some(SideEffect::MemRead { count: 16, l: 0x404 })
    );
    assert_eq!(regs.get_address(), 0x414);
}

#[test]
fn address_register_arithmetic() {
    let mut regs = with_regs(&[(1, 0x20), (2, 0xA)]);
    run(&mut regs, Instruction::SetRegL(0x100));
    run(&mut regs, Instruction::AddRegL { r: 1 });
    assert_eq!(regs.get_address(), 0x120);
    run(&mut regs, Instruction::SetRegLFontAddrFromReg { r: 2 });
    assert_eq!(regs.get_address(), 50);
}

#[test]
fn timers_through_registers() {
    let mut regs = with_regs(&[(1, 3), (2, 1)]);
    run(&mut regs, Instruction::SetDelayFromReg { r: 1 });
    run(&mut regs, Instruction::SetSoundFromReg { r: 2 });
    assert_eq!(regs.get_delay(), 3);
    assert_eq!(regs.get_sound(), 1);
    assert_eq!(regs.update_timers(), TimerSideEffect::Beep);
    assert_eq!(regs.get_delay(), 2);
    assert_eq!(regs.get_sound(), 0);
    assert_eq!(regs.update_timers(), TimerSideEffect::Silent);
    assert_eq!(regs.get_delay(), 1);
    assert_eq!(regs.get_sound(), 0);
    run(&mut regs, Instruction::SetDelayToReg { r: 5 });
    assert_eq!(regs.general_register(5), 1);
    regs.update_timers();
    regs.update_timers();
    assert_eq!(regs.get_delay(), 0);
}

#[test]
fn random_byte_is_masked() {
    let mut regs = Registers::new();
    regs.update_registers_with(Instruction::RndAnd { r: 1, val: 0x0F }, 0xAB);
    assert_eq!(regs.general_register(1), 0x0B);
    assert_eq!(regs.get_pc(), 0x202);
    for _ in 0..64 {
        let mut regs = with_regs(&[(1, 0xFF)]);
        run(&mut regs, Instruction::RndAnd { r: 1, val: 0x00 });
        assert_eq!(regs.general_register(1), 0);
        run(&mut regs, Instruction::RndAnd { r: 2, val: 0x3C });
        assert_eq!(regs.general_register(2) & !0x3C, 0);
    }
}

#[test]
fn random_byte_is_ignored_elsewhere() {
    let mut first = with_regs(&[(1, 5)]);
    let mut second = with_regs(&[(1, 5)]);
    first.update_registers_with(Instruction::AddByte { r: 1, val: 1 }, 0x00);
    second.update_registers_with(Instruction::AddByte { r: 1, val: 1 }, 0xFF);
    for r in 0..16u8 {
        assert_eq!(first.general_register(r), second.general_register(r));
    }
    assert_eq!(first.get_pc(), second.get_pc());
}

#[test]
fn register_setters() {
    let mut regs = Registers::new();
    regs.set_general_register(16, 9);
    regs.set_general_register(200, 9);
    for r in 0..16u8 {
        assert_eq!(regs.general_register(r), 0);
    }
    regs.update_vf(true);
    assert_eq!(regs.general_register(0xF), 1);
    regs.update_vf(false);
    assert_eq!(regs.general_register(0xF), 0);
    regs.set_pc(0x123);
    assert_eq!(regs.get_pc(), 0x123);
    regs.increase_pc(2);
    assert_eq!(regs.get_pc(), 0x127);
    regs.increase_pc(0);
    assert_eq!(regs.get_pc(), 0x127);
}

#[test]
fn store_from_first_register() {
    let mut regs = with_regs(&[(0, 1), (1, 2), (2, 3), (3, 4)]);
    regs.store_from_v0(&[9, 8]);
    assert_eq!(regs.general_register(0), 9);
    assert_eq!(regs.general_register(1), 8);
    assert_eq!(regs.general_register(2), 3);
    assert_eq!(regs.general_register(3), 4);
    regs.store_from_v0(&[]);
    assert_eq!(regs.general_register(0), 9);
    let all: Vec<u8> = (100..116).collect();
    regs.store_from_v0(&all);
    for r in 0..16u8 {
        assert_eq!(regs.general_register(r), 100 + r);
    }
}

fn expected_text(g: &[u8; 16], sl: u16, pc: u16, dt: u8, st: u8) -> String {
    let first = format!(
        "G0:{:3}, G1:{:3}, G2:{:3}, G3:{:3} G4:{:3}, G5:{:3}, G6:{:3}, G7:{:3}",
        g[0], g[1], g[2], g[3], g[4], g[5], g[6], g[7]
    );
    let second = format!(
        "G8:{:3}, G9:{:3}, GA:{:3}, GB:{:3} GC:{:3}, GD:{:3}, GE:{:3}, GF:{:3}",
        g[8], g[9], g[10], g[11], g[12], g[13], g[14], g[15]
    );
    let others = format!("L:{:4},PC:{:4},DT:{:4},ST:{:4}", sl, pc, dt, st);
    format!("{}, {}\n{}", first, second, others)
}

#[test]
fn dump_of_a_fresh_register_file() {
    let regs = Registers::new();
    assert_eq!(
        regs.to_text(),
        "G0:  0, G1:  0, G2:  0, G3:  0 G4:  0, G5:  0, G6:  0, G7:  0, \
         G8:  0, G9:  0, GA:  0, GB:  0 GC:  0, GD:  0, GE:  0, GF:  0\n\
         L:   0,PC: 512,DT:   0,ST:   0"
    );
}

#[test]
fn dump_with_values_of_every_width() {
    let g: [u8; 16] = [0, 1, 9, 10, 11, 99, 100, 101, 199, 200, 255, 7, 42, 128, 250, 5];
    let mut regs = Registers::new();
    for (r, v) in g.iter().enumerate() {
        regs.set_general_register(r as u8, *v);
    }
    run(&mut regs, Instruction::SetDelayFromReg { r: 10 });
    run(&mut regs, Instruction::SetSoundFromReg { r: 3 });
    run(&mut regs, Instruction::SetRegL(0xFFF));
    run(&mut regs, Instruction::JmpAddr(0x3E7));
    assert_eq!(regs.to_text(), expected_text(&g, 0xFFF, 0x3E7, 255, 10));
    for _ in 0..240 {
        run(&mut regs, Instruction::AddRegL { r: 10 });
        run(&mut regs, Instruction::JmpAddr(0x009));
    }
    assert_eq!(regs.get_address(), 0xFFF + 240 * 255);
    assert_eq!(regs.to_text(), expected_text(&g, 0xFFF + 240 * 255, 9, 255, 10));
    regs.set_pc(10_000);
    assert_eq!(regs.to_text(), expected_text(&g, 0xFFF + 240 * 255, 10_000, 255, 10));
    regs.set_pc(65_535);
    assert_eq!(regs.to_text(), expected_text(&g, 0xFFF + 240 * 255, 65_535, 255, 10));
}
