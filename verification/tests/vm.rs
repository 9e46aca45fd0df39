use chip8::cpu::Cpu;
use chip8::keypad::Keystate;
use chip8::state::{Error, Outcome, Quirks};
use chip8::vm::Vm;

/// A fresh machine with `program` loaded, one word per instruction.
fn vm_with(program: &[u16]) -> Vm {
    let mut vm = Vm::new();
    let mut bytes = Vec::new();
    for word in program {
        bytes.push((word >> 8) as u8);
        bytes.push((word & 0xFF) as u8);
    }
    assert_eq!(vm.load(&bytes), Ok(()));
    vm
}

/// Everything a program can observe, for comparisons of whole states.
fn observe(cpu: &Cpu) -> (u16, u16, Vec<u8>, [u8; 16], [u16; 16], u8, u8, u8, [[u8; 64]; 32], bool) {
    (
        cpu.i,
        cpu.pc,
        cpu.memory.to_vec(),
        cpu.v,
        cpu.stack,
        cpu.sp,
        cpu.delay_timer,
        cpu.sound_timer,
        cpu.display.gfx,
        cpu.display.dirty,
    )
}

#[test]
fn a_new_vm_does_not_wait_and_stands_at_the_load_address() {
    let vm = Vm::new();
    assert!(!vm.is_waiting_for_key());
    assert_eq!(observe(vm.cpu()), observe(&Cpu::new()));
    assert_eq!(vm.cpu().pc, 0x200);
    let vm = Vm::with_quirks(Quirks { shift_reads_y: true });
    assert!(vm.cpu().quirks.shift_reads_y);
    assert!(!vm.is_waiting_for_key());
}

#[test]
fn wait_for_key_holds_the_machine_until_a_key_is_pressed() {
    let mut vm = vm_with(&[0x6A33, 0xF30A, 0x6B44]);
    assert_eq!(vm.run_with(0), Ok(Outcome::Executed));
    let before = observe(vm.cpu());
    assert_eq!(vm.run_with(0), Ok(Outcome::AwaitingKey(3)));
    assert!(vm.is_waiting_for_key());
    assert_eq!(observe(vm.cpu()), before);
    for _ in 0..5 {
        assert_eq!(vm.run_with(0), Ok(Outcome::AwaitingKey(3)));
        assert_eq!(vm.run(), Ok(Outcome::AwaitingKey(3)));
        assert!(!vm.emulate_cycle());
        assert!(vm.is_waiting_for_key());
        assert_eq!(observe(vm.cpu()), before);
    }
    vm.set_key(7, Keystate::Pressed);
    assert!(!vm.is_waiting_for_key());
    assert_eq!(vm.cpu().v[3], 7);
    assert_eq!(vm.cpu().pc, 0x204);
    assert_eq!(vm.cpu().keypad.get_key_state(7), Keystate::Pressed);
    assert_eq!(vm.run_with(0), Ok(Outcome::Executed));
    assert_eq!(vm.cpu().v[3], 7);
    assert_eq!(vm.cpu().v[0xB], 0x44);
    assert_eq!(vm.cpu().v[0xA], 0x33);
    assert_eq!(vm.cpu().pc, 0x206);
}

#[test]
fn the_step_after_the_key_starts_behind_the_wait() {
    let mut vm = vm_with(&[0xF50A, 0x1202]);
    assert_eq!(vm.run_with(0), Ok(Outcome::AwaitingKey(5)));
    assert_eq!(vm.run_with(0), Ok(Outcome::AwaitingKey(5)));
    vm.set_key(7, Keystate::Pressed);
    assert_eq!(vm.run_with(0), Ok(Outcome::Executed));
    assert_eq!(vm.cpu().v[5], 7);
    assert_eq!(vm.cpu().pc, 0x202);
}

#[test]
fn a_released_key_does_not_end_the_wait() {
    let mut vm = vm_with(&[0xF00A]);
    vm.set_key(4, Keystate::Pressed);
    assert_eq!(vm.run_with(0), Ok(Outcome::AwaitingKey(0)));
    let before = observe(vm.cpu());
    vm.set_key(4, Keystate::Released);
    assert!(vm.is_waiting_for_key());
    assert_eq!(observe(vm.cpu()), before);
    assert_eq!(vm.cpu().keypad.get_key_state(4), Keystate::Released);
    vm.set_key(4, Keystate::Pressed);
    assert!(!vm.is_waiting_for_key());
    assert_eq!(vm.cpu().v[0], 4);
    assert_eq!(vm.cpu().pc, 0x202);
}

#[test]
fn keys_set_while_nothing_waits_are_only_recorded() {
    let mut vm = vm_with(&[0x6109, 0xE19E, 0x0000, 0xE1A1]);
    let before = observe(vm.cpu());
    vm.set_key(9, Keystate::Pressed);
    vm.set_key(2, Keystate::Pressed);
    vm.set_key(2, Keystate::Released);
    assert_eq!(observe(vm.cpu()), before);
    for key in 0..16 {
        let expected = if key == 9 { Keystate::Pressed } else { Keystate::Released };
        assert_eq!(vm.cpu().keypad.get_key_state(key), expected);
    }
    assert_eq!(vm.run_with(0), Ok(Outcome::Executed));
    assert_eq!(vm.run_with(0), Ok(Outcome::Executed));
    assert_eq!(vm.cpu().pc, 0x206);
    assert_eq!(vm.run_with(0), Ok(Outcome::Executed));
    assert_eq!(vm.cpu().pc, 0x208);
}

#[test]
fn end_wait_for_key_hands_the_key_to_the_waiting_register() {
    let mut vm = vm_with(&[0xFE0A]);
    let before = observe(vm.cpu());
    vm.end_wait_for_key(5);
    assert_eq!(observe(vm.cpu()), before);
    assert!(!vm.is_waiting_for_key());
    assert_eq!(vm.run_with(0), Ok(Outcome::AwaitingKey(0xE)));
    vm.end_wait_for_key(15);
    assert!(!vm.is_waiting_for_key());
    assert_eq!(vm.cpu().v[0xE], 15);
    assert_eq!(vm.cpu().pc, 0x202);
    assert_eq!(vm.cpu().keypad.get_key_state(15), Keystate::Released);
    vm.end_wait_for_key(1);
    assert_eq!(vm.cpu().v[0xE], 15);
    assert_eq!(vm.cpu().pc, 0x202);
}

#[test]
fn emulate_cycle_tells_when_the_machine_has_come_to_an_end() {
    let mut vm = vm_with(&[0x6001, 0x2206, 0x00EE, 0x00EE]);
    assert!(!vm.emulate_cycle());
    assert!(!vm.emulate_cycle());
    assert!(!vm.emulate_cycle());
    assert_eq!(vm.cpu().pc, 0x204);
    let before = observe(vm.cpu());
    assert!(vm.emulate_cycle());
    assert!(vm.emulate_cycle());
    assert_eq!(observe(vm.cpu()), before);
    assert_eq!(vm.run(), Err(Error::StackUnderflow));
}

#[test]
fn emulate_cycle_ends_where_the_program_counter_leaves_memory() {
    let mut vm = vm_with(&[0x1FFE]);
    assert!(!vm.emulate_cycle());
    assert_eq!(vm.cpu().pc, 0xFFE);
    assert!(!vm.emulate_cycle());
    assert_eq!(vm.cpu().pc, 0x1000);
    assert!(vm.emulate_cycle());
    assert_eq!(vm.run_with(0), Err(Error::MemoryOutOfRange));
    assert_eq!(vm.cpu().pc, 0x1000);
}

#[test]
fn load_refuses_a_program_that_does_not_fit() {
    let mut vm = Vm::new();
    let before = observe(vm.cpu());
    assert_eq!(vm.load(&vec![1u8; 3585]), Err(Error::ProgramTooLarge));
    assert_eq!(observe(vm.cpu()), before);
    assert_eq!(vm.load(&vec![1u8; 3584]), Ok(()));
    assert_eq!(vm.cpu().memory[0x200], 1);
    assert_eq!(vm.cpu().memory[4095], 1);
    assert_eq!(vm.cpu().memory[0x1FF], 0);
}

#[test]
fn reset_opens_the_latch_and_keeps_the_keys() {
    let mut vm = vm_with(&[0x6122, 0xF10A]);
    vm.set_key(3, Keystate::Pressed);
    assert_eq!(vm.run_with(0), Ok(Outcome::Executed));
    assert_eq!(vm.run_with(0), Ok(Outcome::AwaitingKey(1)));
    vm.reset();
    assert!(!vm.is_waiting_for_key());
    assert_eq!(observe(vm.cpu()), observe(&Cpu::new()));
    assert_eq!(vm.cpu().keypad.get_key_state(3), Keystate::Pressed);
    assert_eq!(vm.run_with(0), Ok(Outcome::Executed));
    assert_eq!(vm.cpu().pc, 0x202);
}

#[test]
fn timers_count_down_while_the_machine_waits() {
    let mut vm = vm_with(&[0x6203, 0xF215, 0xF218, 0xF00A]);
    for _ in 0..3 {
        assert_eq!(vm.run_with(0), Ok(Outcome::Executed));
    }
    assert_eq!(vm.run_with(0), Ok(Outcome::AwaitingKey(0)));
    vm.decrement_timers();
    assert_eq!((vm.cpu().delay_timer, vm.cpu().sound_timer), (2, 2));
    assert!(vm.is_waiting_for_key());
    for _ in 0..5 {
        vm.decrement_timers();
    }
    assert_eq!((vm.cpu().delay_timer, vm.cpu().sound_timer), (0, 0));
    assert_eq!(vm.cpu().pc, 0x206);
}

#[test]
fn mark_presented_clears_the_changed_flag_until_the_next_draw() {
    let mut vm = vm_with(&[0xD005, 0x6000, 0x00E0]);
    assert!(vm.cpu().display.dirty);
    vm.mark_presented();
    assert!(!vm.cpu().display.dirty);
    let before = observe(vm.cpu());
    vm.mark_presented();
    assert_eq!(observe(vm.cpu()), before);
    assert_eq!(vm.run_with(0), Ok(Outcome::Executed));
    assert!(vm.cpu().display.dirty);
    assert_eq!(&vm.cpu().display.gfx[0][0..5], &[1, 1, 1, 1, 0]);
    vm.mark_presented();
    assert_eq!(vm.run_with(0), Ok(Outcome::Executed));
    assert!(!vm.cpu().display.dirty);
    assert_eq!(vm.run_with(0), Ok(Outcome::Executed));
    assert!(vm.cpu().display.dirty);
}

#[test]
fn random_and_through_the_vm_stays_within_the_mask() {
    for _ in 0..100 {
        let mut vm = vm_with(&[0xC4F0]);
        assert_eq!(vm.run(), Ok(Outcome::Executed));
        assert_eq!(vm.cpu().v[4] & 0x0F, 0);
        assert_eq!(vm.cpu().pc, 0x202);
    }
    let mut vm = vm_with(&[0xC43C]);
    assert_eq!(vm.run_with(0xFF), Ok(Outcome::Executed));
    assert_eq!(vm.cpu().v[4], 0x3C);
}
