use chip8_core::instr::Instruction;
use chip8_core::vm::RuntimeError;
use chip8_core::vm::Vm;

fn fresh_vm() -> Vm {
    Vm::init(&[]).unwrap()
}

#[test]
fn init_boots_at_0x200_with_glyphs_loaded() {
    let vm = fresh_vm();
    assert_eq!(vm.regs.pc, 0x200);
    assert_eq!(vm.regs.I, 0);
    assert_eq!(vm.regs.delay, 0);
    assert_eq!(vm.regs.sound, 0);
    assert!(vm.regs.v.iter().all(|&b| b == 0));
    assert_eq!(vm.memory.load_u8(0x100).unwrap(), 0xf0);
    assert_eq!(vm.memory.load_u8(0x1ff).unwrap(), 0xcc);
    assert!(vm.display.inner().iter().all(|&c| !c));
}

#[test]
fn init_rejects_oversized_rom() {
    let rom = vec![0u8; 0xe00];
    match Vm::init(&rom) {
        Err(RuntimeError::IllegalMemoryAccess(a)) => assert_eq!(a, 0x1000),
        other => panic!("expected an illegal-access fault, got {:?}", other.is_ok()),
    }
}

#[test]
fn step_fetches_decodes_and_executes() {
    // 00E0 ClearScreen, then 1234 Jump
    let vm = &mut Vm::init(&[0x00, 0xe0, 0x12, 0x34]).unwrap();
    vm.display.set(10, 10, true);
    assert_eq!(vm.step(), Ok(()));
    assert_eq!(vm.regs.pc, 0x202);
    assert!(!vm.display.get(10, 10));
    assert_eq!(vm.step(), Ok(()));
    assert_eq!(vm.regs.pc, 0x234);
}

#[test]
fn step_faults_on_undecodable_word() {
    let vm = &mut Vm::init(&[0x00, 0x0e]).unwrap();
    assert_eq!(vm.step(), Err(RuntimeError::InvalidInstruction));
    // the counter already moved past the bad word
    assert_eq!(vm.regs.pc, 0x202);
}

#[test]
fn step_faults_on_fetch_out_of_range() {
    let vm = &mut fresh_vm();
    vm.regs.pc = 0x1000;
    assert_eq!(vm.step(), Err(RuntimeError::IllegalMemoryAccess(0x1000)));
    assert_eq!(vm.regs.pc, 0x1000);
    vm.regs.pc = 0xfff;
    assert_eq!(vm.step(), Err(RuntimeError::IllegalMemoryAccess(0x1000)));
    assert_eq!(vm.regs.pc, 0xfff);
}

#[test]
fn add_immidiate_carry() {
    let vm = &mut fresh_vm();
    vm.regs.v[0] = 0xff;
    vm.process_next_instruction(Instruction::AddImmidiate(0, 0x01)).unwrap();
    assert_eq!(vm.regs.v[0], 0x00);
    assert_eq!(vm.regs.v[0xf], 1);
    vm.regs.v[0] = 0x01;
    vm.process_next_instruction(Instruction::AddImmidiate(0, 0x01)).unwrap();
    assert_eq!(vm.regs.v[0], 0x02);
    assert_eq!(vm.regs.v[0xf], 0);
}

#[test]
fn add_register_carry() {
    let vm = &mut fresh_vm();
    vm.regs.v[1] = 0xf0;
    vm.regs.v[2] = 0x20;
    vm.process_next_instruction(Instruction::AddRegister(1, 2)).unwrap();
    assert_eq!(vm.regs.v[1], 0x10);
    assert_eq!(vm.regs.v[0xf], 1);
    vm.regs.v[3] = 3;
    vm.regs.v[4] = 4;
    vm.process_next_instruction(Instruction::AddRegister(3, 4)).unwrap();
    assert_eq!(vm.regs.v[3], 7);
    assert_eq!(vm.regs.v[0xf], 0);
}

#[test]
fn sub_and_subn_borrow() {
    let vm = &mut fresh_vm();
    vm.regs.v[1] = 5;
    vm.regs.v[2] = 3;
    vm.process_next_instruction(Instruction::SubRegister(1, 2)).unwrap();
    assert_eq!(vm.regs.v[1], 2);
    assert_eq!(vm.regs.v[0xf], 1);
    vm.regs.v[1] = 3;
    vm.regs.v[2] = 5;
    vm.process_next_instruction(Instruction::SubRegister(1, 2)).unwrap();
    assert_eq!(vm.regs.v[1], 254);
    assert_eq!(vm.regs.v[0xf], 0);
    vm.regs.v[6] = 1;
    vm.regs.v[7] = 9;
    vm.process_next_instruction(Instruction::SubnRegister(6, 7)).unwrap();
    assert_eq!(vm.regs.v[6], 8);
    assert_eq!(vm.regs.v[0xf], 1);
}

#[test]
fn shift_right_legacy_and_variable() {
    let vm = &mut fresh_vm();
    vm.regs.v[2] = 0b0000_0011;
    vm.process_next_instruction(Instruction::ShrRegister(2, 3)).unwrap();
    assert_eq!(vm.regs.v[2], 0b0000_0001);
    assert_eq!(vm.regs.v[0xf], 1);

    let vm = &mut fresh_vm();
    vm.do_variable_shifts = true;
    vm.regs.v[2] = 0b0000_0011;
    vm.regs.v[3] = 2;
    vm.process_next_instruction(Instruction::ShrRegister(2, 3)).unwrap();
    assert_eq!(vm.regs.v[2], 0b0000_0000);
    assert_eq!(vm.regs.v[0xf], 1);
}

#[test]
fn shift_left_carries_top_bit() {
    let vm = &mut fresh_vm();
    vm.regs.v[5] = 0b1000_0001;
    vm.process_next_instruction(Instruction::ShlRegister(5, 0)).unwrap();
    assert_eq!(vm.regs.v[5], 0b0000_0010);
    assert_eq!(vm.regs.v[0xf], 1);
    vm.process_next_instruction(Instruction::ShlRegister(5, 0)).unwrap();
    assert_eq!(vm.regs.v[5], 0b0000_0100);
    assert_eq!(vm.regs.v[0xf], 0);
}

#[test]
fn logic_ops_leave_flag_alone() {
    let vm = &mut fresh_vm();
    vm.regs.v[0xf] = 7;
    vm.regs.v[1] = 0b1100;
    vm.regs.v[2] = 0b1010;
    vm.process_next_instruction(Instruction::OrRegister(1, 2)).unwrap();
    assert_eq!(vm.regs.v[1], 0b1110);
    vm.regs.v[1] = 0b1100;
    vm.process_next_instruction(Instruction::AndRegister(1, 2)).unwrap();
    assert_eq!(vm.regs.v[1], 0b1000);
    vm.regs.v[1] = 0b1100;
    vm.process_next_instruction(Instruction::XorRegister(1, 2)).unwrap();
    assert_eq!(vm.regs.v[1], 0b0110);
    assert_eq!(vm.regs.v[0xf], 7);
}

#[test]
fn skips_and_loads() {
    let vm = &mut fresh_vm();
    vm.regs.v[4] = 0x42;
    vm.process_next_instruction(Instruction::SkipIfEqualImmidiate(4, 0x42)).unwrap();
    assert_eq!(vm.regs.pc, 0x202);
    vm.process_next_instruction(Instruction::SkipIfEqualImmidiate(4, 0x43)).unwrap();
    assert_eq!(vm.regs.pc, 0x202);
    vm.process_next_instruction(Instruction::SkipIfNotEqualImmidiate(4, 0x43)).unwrap();
    assert_eq!(vm.regs.pc, 0x204);
    vm.regs.v[5] = 0x42;
    vm.process_next_instruction(Instruction::SkipIfEqualRegister(4, 5)).unwrap();
    assert_eq!(vm.regs.pc, 0x206);
    vm.process_next_instruction(Instruction::SkipIfNotEqualRegister(4, 5)).unwrap();
    assert_eq!(vm.regs.pc, 0x206);
    vm.process_next_instruction(Instruction::LoadRegister(6, 4)).unwrap();
    assert_eq!(vm.regs.v[6], 0x42);
    vm.process_next_instruction(Instruction::LoadImmidiate(7, 0x99)).unwrap();
    assert_eq!(vm.regs.v[7], 0x99);
}

#[test]
fn call_and_return_use_the_stack() {
    let vm = &mut fresh_vm();
    vm.process_next_instruction(Instruction::Call(0x400)).unwrap();
    assert_eq!(vm.regs.pc, 0x400);
    assert_eq!(vm.memory.stack().sp(), 1);
    assert_eq!(vm.memory.stack().peek(), Ok(0x200));
    vm.process_next_instruction(Instruction::Return).unwrap();
    assert_eq!(vm.regs.pc, 0x200);
    assert_eq!(vm.memory.stack().sp(), 0);
}

#[test]
fn call_depth_is_sixteen() {
    let vm = &mut fresh_vm();
    for _ in 0..16 {
        assert_eq!(vm.process_next_instruction(Instruction::Call(0x300)), Ok(()));
    }
    assert_eq!(
        vm.process_next_instruction(Instruction::Call(0x300)),
        Err(RuntimeError::Stackoverflow)
    );
    let vm = &mut fresh_vm();
    assert_eq!(
        vm.process_next_instruction(Instruction::Return),
        Err(RuntimeError::Stackunderflow)
    );
}

#[test]
fn sysjmp_is_a_no_op() {
    let vm = &mut fresh_vm();
    vm.process_next_instruction(Instruction::SysJmp(0x123)).unwrap();
    assert_eq!(vm.regs.pc, 0x200);
}

#[test]
fn jump_v0_adds_the_register() {
    let vm = &mut fresh_vm();
    vm.regs.v[0] = 5;
    vm.process_next_instruction(Instruction::JumpV0(0x300)).unwrap();
    assert_eq!(vm.regs.pc, 0x305);
}

#[test]
fn index_register_ops() {
    let vm = &mut fresh_vm();
    vm.process_next_instruction(Instruction::LoadI(0xabc)).unwrap();
    assert_eq!(vm.regs.I, 0xabc);
    vm.regs.v[1] = 5;
    vm.regs.I = 10;
    vm.process_next_instruction(Instruction::AddI(1)).unwrap();
    assert_eq!(vm.regs.I, 15);
    vm.regs.v[2] = 0xf7;
    vm.process_next_instruction(Instruction::LoadSpriteLocationI(2)).unwrap();
    // only the low nibble of V2 counts: glyph 7 sits at 0x100 + 5 * 7
    assert_eq!(vm.regs.I, 0x123);
}

#[test]
fn timers_move_through_registers() {
    let vm = &mut fresh_vm();
    vm.regs.v[3] = 77;
    vm.process_next_instruction(Instruction::SetDelayTimer(3)).unwrap();
    assert_eq!(vm.regs.delay, 77);
    vm.process_next_instruction(Instruction::LoadDelayTimer(9)).unwrap();
    assert_eq!(vm.regs.v[9], 77);
    vm.process_next_instruction(Instruction::SetSoundTimer(3)).unwrap();
    assert_eq!(vm.regs.sound, 77);
}

#[test]
fn store_decimal_digits() {
    let vm = &mut fresh_vm();
    vm.regs.v[2] = 254;
    vm.regs.I = 0x300;
    vm.process_next_instruction(Instruction::StoreDecimalI(2)).unwrap();
    assert_eq!(vm.memory.load_u8(0x300).unwrap(), 2);
    assert_eq!(vm.memory.load_u8(0x301).unwrap(), 5);
    assert_eq!(vm.memory.load_u8(0x302).unwrap(), 4);
    // a store that starts at the last byte faults one past it
    vm.regs.I = 0xfff;
    assert_eq!(
        vm.process_next_instruction(Instruction::StoreDecimalI(2)),
        Err(RuntimeError::IllegalMemoryAccess(0x1000))
    );
    // the first digit was already written when the fault hit
    assert_eq!(vm.memory.load_u8(0xfff).unwrap(), 2);
}

#[test]
fn reg_dump_and_load_are_inclusive() {
    let vm = &mut fresh_vm();
    for k in 0..4 {
        vm.regs.v[k] = 0x10 + k as u8;
    }
    vm.regs.I = 0x400;
    vm.process_next_instruction(Instruction::RegDumpI(3)).unwrap();
    for k in 0..4u16 {
        assert_eq!(vm.memory.load_u8(0x400 + k).unwrap(), 0x10 + k as u8);
    }
    assert_eq!(vm.memory.load_u8(0x404).unwrap(), 0xcc);
    for k in 0..4 {
        vm.regs.v[k] = 0;
    }
    vm.process_next_instruction(Instruction::RegLoadI(3)).unwrap();
    for k in 0..4 {
        assert_eq!(vm.regs.v[k], 0x10 + k as u8);
    }
    // a dump that runs past the end of memory faults at the first bad address
    vm.regs.I = 0xffe;
    assert_eq!(
        vm.process_next_instruction(Instruction::RegDumpI(3)),
        Err(RuntimeError::IllegalMemoryAccess(0x1000))
    );
}

#[test]
fn random_masks_with_the_immediate() {
    let vm = &mut fresh_vm();
    vm.process_next_instruction(Instruction::Random(1, 0x00)).unwrap();
    assert_eq!(vm.regs.v[1], 0);
    // from the fixed seed 0xace1 the next generator state is
    // (0xace1 * 25173 + 13849) mod 65536 == 48846, whose low byte is 206
    let vm = &mut fresh_vm();
    vm.process_next_instruction(Instruction::Random(1, 0xff)).unwrap();
    assert_eq!(vm.rng_state, 48846);
    assert_eq!(vm.regs.v[1], 206);
}

#[test]
fn key_skips() {
    let vm = &mut fresh_vm();
    vm.regs.v[0] = 3;
    vm.press_key(3);
    vm.process_next_instruction(Instruction::SkipIfPressed(0)).unwrap();
    assert_eq!(vm.regs.pc, 0x202);
    vm.release_key(3);
    vm.process_next_instruction(Instruction::SkipIfPressed(0)).unwrap();
    assert_eq!(vm.regs.pc, 0x202);
    vm.process_next_instruction(Instruction::SkipIfNotPressed(0)).unwrap();
    assert_eq!(vm.regs.pc, 0x204);
}

#[test]
fn read_key_suspends_until_a_press() {
    // F50A ReadKey into V5
    let vm = &mut Vm::init(&[0xf5, 0x0a]).unwrap();
    assert_eq!(vm.step(), Ok(()));
    assert_eq!(vm.regs.pc, 0x202);
    assert!(vm.awaiting_key.is_some());
    // while waiting, stepping is a no-op and consumes nothing
    assert_eq!(vm.step(), Ok(()));
    assert_eq!(vm.regs.pc, 0x202);
    vm.press_key(0xb);
    assert!(vm.awaiting_key.is_none());
    assert_eq!(vm.regs.v[5], 0xb);
}

#[test]
fn sprite_collision_through_the_engine() {
    let vm = &mut fresh_vm();
    // I points at the built-in glyph for 0; V0 = x = 0, V1 = y = 0
    vm.process_next_instruction(Instruction::LoadSpriteLocationI(0)).unwrap();
    assert_eq!(vm.regs.I, 0x100);
    vm.process_next_instruction(Instruction::DisplaySprite(0, 1, 5)).unwrap();
    assert_eq!(vm.regs.v[0xf], 0);
    assert!(vm.display.get(0, 0));
    assert!(vm.display.get(3, 4));
    assert!(!vm.display.get(1, 1));
    // drawing the same glyph again collides and restores the cleared screen
    vm.process_next_instruction(Instruction::DisplaySprite(0, 1, 5)).unwrap();
    assert_eq!(vm.regs.v[0xf], 1);
    assert!(vm.display.inner().iter().all(|&c| !c));
}

#[test]
fn sprite_fault_on_bad_byte_address() {
    let vm = &mut fresh_vm();
    vm.regs.I = 0xfff;
    assert_eq!(
        vm.process_next_instruction(Instruction::DisplaySprite(0, 1, 3)),
        Err(RuntimeError::IllegalMemoryAccess(0x1000))
    );
}
