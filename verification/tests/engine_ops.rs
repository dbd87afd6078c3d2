use nano_emu::state::EmulatorState;
use nano_emu::trace::TraceEntry;
use nano_emu::Mode;

fn word3(op: u16, d: u16, a: u16, b: u16) -> u16 {
    (op << 12) | (d << 8) | (a << 4) | b
}

fn stepping_machine() -> EmulatorState {
    let mut st = EmulatorState::new();
    st.request_step();
    st
}

#[test]
fn halt_returns_to_setup_and_still_counts() {
    let mut st = stepping_machine();
    st.cycle();
    assert_eq!(st.mode, Mode::Setup);
    assert_eq!(st.pc, 1);
    assert_eq!(st.executed_instructions, 1);
    assert_eq!(st.log_buffer[6], TraceEntry::Halt);
}

#[test]
fn add_sets_result_and_flags() {
    let mut st = stepping_machine();
    st.write_to_regs(0, 200);
    st.write_to_regs(1, 100);
    st.write_to_rom(0, word3(1, 2, 0, 1) as u32);
    st.cycle();
    assert_eq!(st.reg[2], 44);
    assert!(!st.flg[0]);
    assert!(st.flg[1]);
    assert!(st.flg[2]);
    assert!(!st.flg[3]);
    assert!(!st.flg[4]);
    assert!(st.flg[5]);
    assert!(st.flg[6]);
    assert!(!st.flg[7]);
    assert_eq!(st.pc, 1);
    assert_eq!(st.log_buffer[6], TraceEntry::Add { d: 2, a: 0, b: 1 });
}

#[test]
fn add_wraps_to_zero_and_reports_zero_flag() {
    let mut st = stepping_machine();
    st.write_to_regs(0, 128);
    st.write_to_regs(1, 128);
    st.write_to_rom(0, word3(1, 0, 0, 1) as u32);
    st.cycle();
    assert_eq!(st.reg[0], 0);
    assert!(st.flg[0]);
    assert!(st.flg[2]);
    assert!(st.flg[4]);
    assert!(st.flg[6]);
}

#[test]
fn sub_borrows_modulo_256() {
    let mut st = stepping_machine();
    st.write_to_regs(0, 3);
    st.write_to_regs(1, 5);
    st.write_to_rom(0, word3(2, 2, 0, 1) as u32);
    st.cycle();
    assert_eq!(st.reg[2], 254);
    assert!(!st.flg[0]);
    assert!(st.flg[2]);
    assert!(!st.flg[4]);
    assert!(st.flg[6]);
    assert_eq!(st.log_buffer[6], TraceEntry::Sub { d: 2, a: 0, b: 1 });
}

#[test]
fn and_forces_carry_flags_false() {
    let mut st = stepping_machine();
    st.write_to_regs(0, 0b1100);
    st.write_to_regs(1, 0b1010);
    st.write_to_rom(0, word3(3, 2, 0, 1) as u32);
    st.flg[2] = true;
    st.cycle();
    assert_eq!(st.reg[2], 0b1000);
    assert!(!st.flg[2]);
    assert!(!st.flg[3]);
    assert!(!st.flg[4]);
    assert!(!st.flg[5]);
    assert!(st.flg[6]);
    assert_eq!(st.log_buffer[6], TraceEntry::And { d: 2, a: 0, b: 1 });
}

#[test]
fn nor_complements_the_or() {
    let mut st = stepping_machine();
    st.write_to_regs(0, 240);
    st.write_to_regs(1, 15);
    st.write_to_rom(0, word3(4, 2, 0, 1) as u32);
    st.cycle();
    assert_eq!(st.reg[2], 0);
    assert!(st.flg[0]);
    assert!(!st.flg[1]);
    assert!(st.flg[6]);
    assert_eq!(st.log_buffer[6], TraceEntry::Nor { d: 2, a: 0, b: 1 });
}

#[test]
fn xor_reports_parity() {
    let mut st = stepping_machine();
    st.write_to_regs(0, 240);
    st.write_to_regs(1, 15);
    st.write_to_rom(0, word3(5, 2, 0, 1) as u32);
    st.cycle();
    assert_eq!(st.reg[2], 255);
    assert!(!st.flg[6]);
    assert!(st.flg[7]);
    assert_eq!(st.log_buffer[6], TraceEntry::Xor { d: 2, a: 0, b: 1 });
}

#[test]
fn rsh_halves_the_source() {
    let mut st = stepping_machine();
    st.write_to_regs(0, 5);
    st.write_to_rom(0, word3(6, 1, 0, 0) as u32);
    st.cycle();
    assert_eq!(st.reg[1], 2);
    assert!(st.flg[6]);
    assert_eq!(st.log_buffer[6], TraceEntry::Rsh { d: 1, a: 0 });
}

#[test]
fn cmp_sets_order_flags_and_sentinel() {
    let mut st = stepping_machine();
    st.write_to_regs(0, 5);
    st.write_to_regs(1, 5);
    st.write_to_rom(0, word3(7, 0, 0, 1) as u32);
    st.cycle();
    assert!(!st.flg[8]);
    assert!(st.flg[9]);
    assert!(!st.flg[10]);
    assert!(st.flg[11]);
    assert!(st.flg[12]);
    assert!(!st.flg[13]);
    assert!(!st.flg[14]);
    assert!(st.flg[15]);
    assert_eq!(st.log_buffer[6], TraceEntry::Cmp { a: 0, b: 1 });
}

#[test]
fn alu_touches_only_dest_and_low_flags() {
    let mut st = stepping_machine();
    st.write_to_regs(0, 9);
    st.write_to_regs(1, 4);
    st.write_to_regs(5, 77);
    st.write_to_ram(7, 13);
    st.write_to_rom(0, word3(1, 2, 0, 1) as u32);
    let rom_before = st.rom.clone();
    let ram_before = st.ram.clone();
    let high_flags: Vec<bool> = st.flg[8..16].to_vec();
    st.cycle();
    assert_eq!(st.rom, rom_before);
    assert_eq!(st.ram, ram_before);
    assert_eq!(st.reg[0], 9);
    assert_eq!(st.reg[1], 4);
    assert_eq!(st.reg[5], 77);
    assert_eq!(st.reg[2], 13);
    assert_eq!(st.flg[8..16].to_vec(), high_flags);
}

#[test]
fn cmp_touches_only_high_flags() {
    let mut st = stepping_machine();
    st.write_to_regs(0, 9);
    st.write_to_regs(1, 4);
    st.write_to_rom(0, word3(7, 0, 0, 1) as u32);
    let regs_before = st.reg.clone();
    let low_flags: Vec<bool> = st.flg[0..8].to_vec();
    st.cycle();
    assert_eq!(st.reg, regs_before);
    assert_eq!(st.flg[0..8].to_vec(), low_flags);
    assert!(st.flg[8]);
}

#[test]
fn ldi_loads_immediate() {
    let mut st = stepping_machine();
    st.write_to_rom(0, 0x8107u32);
    st.cycle();
    assert_eq!(st.reg[1], 7);
    assert_eq!(st.log_buffer[6], TraceEntry::Ldi { d: 1, v: 7 });
}

#[test]
fn ldm_reads_wrapped_address() {
    let mut st = stepping_machine();
    st.write_to_ram(3, 99);
    st.write_to_rom(0, 0x9123u32);
    st.cycle();
    assert_eq!(st.reg[1], 99);
    assert_eq!(st.log_buffer[6], TraceEntry::Ldm { d: 1, addr: 3 });
}

#[test]
fn stm_writes_wrapped_address() {
    let mut st = stepping_machine();
    st.write_to_regs(1, 77);
    st.write_to_rom(0, 0xA128u32);
    st.cycle();
    assert_eq!(st.ram[8], 77);
    assert_eq!(st.current_ram_write, Some(8));
    assert_eq!(st.log_buffer[6], TraceEntry::Stm { s: 1, addr: 8 });
}

#[test]
fn ldp_loads_through_pointer() {
    let mut st = stepping_machine();
    st.write_to_regs(0, 35);
    st.write_to_ram(3, 99);
    st.write_to_rom(0, 0xB200u32);
    st.cycle();
    assert_eq!(st.reg[2], 99);
    assert_eq!(st.log_buffer[6], TraceEntry::Ldp { d: 2, p: 0 });
}

#[test]
fn stp_stores_through_pointer() {
    let mut st = stepping_machine();
    st.write_to_regs(0, 35);
    st.write_to_regs(1, 55);
    st.write_to_rom(0, 0xC001u32);
    st.cycle();
    assert_eq!(st.ram[3], 55);
    assert_eq!(st.log_buffer[6], TraceEntry::Stp { p: 0, s: 1 });
}

#[test]
fn brc_false_flag_falls_through() {
    let mut st = stepping_machine();
    st.write_to_rom(0, 0xDE46u32);
    st.cycle();
    assert_eq!(st.pc, 1);
    assert_eq!(st.log_buffer[6], TraceEntry::Brc { c: 14, addr: 6 });
}

#[test]
fn brc_true_flag_jumps_wrapped() {
    let mut st = stepping_machine();
    st.write_to_rom(0, 0xDF46u32);
    st.cycle();
    assert_eq!(st.pc, 6);
    assert_eq!(st.log_buffer[6], TraceEntry::Brc { c: 15, addr: 6 });
}

#[test]
fn brp_jumps_through_register() {
    let mut st = stepping_machine();
    st.write_to_regs(3, 70);
    st.write_to_rom(0, 0xEF03u32);
    st.cycle();
    assert_eq!(st.pc, 6);
    assert_eq!(st.log_buffer[6], TraceEntry::Brp { c: 15, p: 3 });
}

#[test]
fn brp_false_flag_falls_through() {
    let mut st = stepping_machine();
    st.write_to_regs(3, 70);
    st.write_to_rom(0, 0xEE03u32);
    st.cycle();
    assert_eq!(st.pc, 1);
}

#[test]
fn jmp_wraps_the_long_address() {
    let mut st = stepping_machine();
    st.write_to_rom(0, 0xF046u32);
    st.cycle();
    assert_eq!(st.pc, 6);
    assert_eq!(st.log_buffer[6], TraceEntry::Jmp { addr: 6 });
}

#[test]
fn little_program_runs_to_halt() {
    let mut st = EmulatorState::new();
    st.write_to_rom(0, 0x8005u32);
    st.write_to_rom(1, 0x8103u32);
    st.write_to_rom(2, word3(1, 0, 0, 1) as u32);
    st.write_to_rom(3, 0x0000u32);
    st.request_step();
    st.cycle();
    st.cycle();
    st.cycle();
    st.cycle();
    assert_eq!(st.reg[0], 8);
    assert_eq!(st.mode, Mode::Setup);
    assert_eq!(st.executed_instructions, 4);
    assert_eq!(st.pc, 4);
}

#[test]
fn pc_wraps_after_the_last_word() {
    let mut st = stepping_machine();
    st.write_to_rom(0, 0xF03Fu32);
    st.cycle();
    assert_eq!(st.pc, 63);
    st.cycle();
    assert_eq!(st.pc, 0);
}
