use nano_emu::state::EmulatorState;
use nano_emu::trace::TraceEntry;
use nano_emu::Mode;

#[test]
fn fresh_machine_is_clear() {
    let st = EmulatorState::new();
    assert_eq!(st.rom, vec![0u16; 64]);
    assert_eq!(st.ram, vec![0u8; 32]);
    assert_eq!(st.reg, vec![0u8; 8]);
    assert_eq!(st.inp, vec![0u8; 8]);
    assert_eq!(st.out, vec![0u8; 8]);
    assert_eq!(st.pc, 0);
    assert_eq!(st.mode, Mode::Setup);
    assert_eq!(st.executed_instructions, 0);
    for i in 0..15 {
        assert!(!st.flg[i]);
    }
    assert!(st.flg[15]);
    assert_eq!(st.log_buffer.len(), 7);
    for e in &st.log_buffer {
        assert_eq!(*e, TraceEntry::Blank);
    }
    assert_eq!(st.current_rom_read, None);
    assert_eq!(st.current_ram_write, None);
    assert_eq!(st.current_reg_write, None);
}

#[test]
fn register_write_wraps_index() {
    let mut st = EmulatorState::new();
    st.write_to_regs(11, 7);
    assert_eq!(st.reg[3], 7);
    assert_eq!(st.current_reg_write, Some(3));
}

#[test]
fn register_write_truncates_value() {
    let mut st = EmulatorState::new();
    st.write_to_regs(0, 300);
    assert_eq!(st.reg[0], 44);
}

#[test]
fn ram_write_wraps_index_and_truncates() {
    let mut st = EmulatorState::new();
    st.write_to_ram(35, 300);
    assert_eq!(st.ram[3], 44);
    assert_eq!(st.current_ram_write, Some(3));
}

#[test]
fn rom_write_wraps_index_and_truncates() {
    let mut st = EmulatorState::new();
    st.write_to_rom(70, 70000);
    assert_eq!(st.rom[6], (70000 % 65536) as u16);
}

#[test]
fn rom_read_wraps_and_marks() {
    let mut st = EmulatorState::new();
    st.write_to_rom(6, 0x8001);
    let w = st.read_from_rom(70);
    assert_eq!(w, 0x8001);
    assert_eq!(st.current_rom_read, Some(6));
}

#[test]
fn reset_last_mods_clears_marks() {
    let mut st = EmulatorState::new();
    st.write_to_regs(1, 1);
    st.write_to_ram(1, 1);
    let _ = st.read_from_rom(1);
    st.reset_last_mods();
    assert_eq!(st.current_rom_read, None);
    assert_eq!(st.current_ram_write, None);
    assert_eq!(st.current_reg_write, None);
}

#[test]
fn program_reset_clears_everything_but_rom() {
    let mut st = EmulatorState::new();
    st.write_to_rom(0, 0x1234);
    st.write_to_ram(0, 9);
    st.write_to_regs(0, 9);
    st.request_step();
    st.cycle();
    st.program_reset();
    assert_eq!(st.rom[0], 0x1234);
    assert_eq!(st.ram, vec![0u8; 32]);
    assert_eq!(st.reg, vec![0u8; 8]);
    assert_eq!(st.pc, 0);
    assert_eq!(st.mode, Mode::Setup);
    assert_eq!(st.executed_instructions, 0);
    assert!(st.flg[15]);
    assert_eq!(st.log_buffer[6], TraceEntry::ResetCount(1));
    for i in 0..6 {
        assert_eq!(st.log_buffer[i], TraceEntry::Blank);
    }
}

#[test]
fn full_reset_clears_rom_too() {
    let mut st = EmulatorState::new();
    st.write_to_rom(0, 0x1234);
    st.full_reset();
    assert_eq!(st.rom, vec![0u16; 64]);
}

#[test]
fn double_program_reset_differs_only_in_logged_count() {
    let mut st = EmulatorState::new();
    st.write_to_rom(0, 0x8007);
    st.request_step();
    st.cycle();
    let mut once = EmulatorState::new();
    once.write_to_rom(0, 0x8007);
    once.request_step();
    once.cycle();
    st.program_reset();
    once.program_reset();
    once.program_reset();
    assert_eq!(once.rom, st.rom);
    assert_eq!(once.ram, st.ram);
    assert_eq!(once.reg, st.reg);
    assert_eq!(once.inp, st.inp);
    assert_eq!(once.out, st.out);
    assert_eq!(once.flg, st.flg);
    assert_eq!(once.pc, st.pc);
    assert_eq!(once.mode, st.mode);
    assert_eq!(once.executed_instructions, st.executed_instructions);
    assert_eq!(st.log_buffer[6], TraceEntry::ResetCount(1));
    assert_eq!(once.log_buffer[6], TraceEntry::ResetCount(0));
    assert_eq!(once.log_buffer[..6], st.log_buffer[..6]);
}

#[test]
fn push_log_evicts_oldest() {
    let mut st = EmulatorState::new();
    for i in 0..8u8 {
        st.push_log(TraceEntry::Jmp { addr: i });
    }
    assert_eq!(st.log_buffer.len(), 7);
    assert_eq!(st.log_buffer[0], TraceEntry::Jmp { addr: 1 });
    assert_eq!(st.log_buffer[6], TraceEntry::Jmp { addr: 7 });
}

#[test]
fn mode_commands_follow_the_state_machine() {
    let mut st = EmulatorState::new();
    assert_eq!(st.mode, Mode::Setup);
    st.request_manual_mode();
    assert_eq!(st.mode, Mode::Setup);
    st.request_step();
    assert_eq!(st.mode, Mode::ManualStep);
    st.request_automatic_mode();
    assert_eq!(st.mode, Mode::ManualStep);
    st.program_reset();
    assert_eq!(st.mode, Mode::Setup);
    st.request_automatic_mode();
    assert_eq!(st.mode, Mode::Automatic(0));
    st.request_step();
    assert_eq!(st.mode, Mode::Automatic(0));
    st.request_manual_mode();
    assert_eq!(st.mode, Mode::ManualStep);
}
