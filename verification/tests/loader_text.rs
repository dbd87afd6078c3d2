use nano_emu::state::EmulatorState;
use nano_emu::trace::TraceEntry;

fn bytes(s: &str) -> Vec<u8> {
    s.as_bytes().to_vec()
}

#[test]
fn rom_line_is_parsed_big_endian() {
    let mut st = EmulatorState::new();
    st.load(Some(bytes("1000000000000001")), String::from("prog.bin"), None);
    assert_eq!(st.rom[0], 0x8001);
    assert_eq!(st.log_buffer[6], TraceEntry::Loaded(String::from("prog.bin")));
}

#[test]
fn short_line_is_skipped_without_aborting() {
    let mut st = EmulatorState::new();
    st.load(
        Some(bytes("1000000000000001\n111111111111111\n0000000100000010")),
        String::from("prog.bin"),
        None,
    );
    assert_eq!(st.rom[0], 0x8001);
    assert_eq!(st.rom[1], 0);
    assert_eq!(st.rom[2], 0x0102);
    assert_eq!(st.log_buffer[6], TraceEntry::Loaded(String::from("prog.bin")));
}

#[test]
fn malformed_full_length_line_aborts_and_logs() {
    let mut st = EmulatorState::new();
    st.load(
        Some(bytes("1000000000000001\n10000000000000X1\n0000000100000010")),
        String::from("prog.bin"),
        None,
    );
    assert_eq!(st.rom[0], 0x8001);
    assert_eq!(st.rom[2], 0);
    assert_eq!(st.log_buffer[6], TraceEntry::RomCorrupted);
}

#[test]
fn missing_rom_source_is_logged() {
    let mut st = EmulatorState::new();
    st.write_to_rom(0, 0x1234);
    st.load(None, String::from("prog.bin"), None);
    assert_eq!(st.rom[0], 0x1234);
    assert_eq!(st.log_buffer[6], TraceEntry::ProgramNotFound);
}

#[test]
fn lines_are_trimmed_before_the_length_check() {
    let mut st = EmulatorState::new();
    st.load(
        Some(bytes("  1000000000000001  \r\n\t0000000000000010\r")),
        String::from("prog.bin"),
        None,
    );
    assert_eq!(st.rom[0], 0x8001);
    assert_eq!(st.rom[1], 2);
}

#[test]
fn line_index_wraps_into_the_rom() {
    let mut st = EmulatorState::new();
    let mut text = String::new();
    for _ in 0..64 {
        text.push('\n');
    }
    text.push_str("0000000011111111");
    st.load(Some(bytes(&text)), String::from("prog.bin"), None);
    assert_eq!(st.rom[0], 255);
}

#[test]
fn ram_source_fills_data_memory() {
    let mut st = EmulatorState::new();
    st.load(
        Some(bytes("1000000000000001")),
        String::from("prog.bin"),
        Some(bytes("00000001\n00000010")),
    );
    assert_eq!(st.ram[0], 1);
    assert_eq!(st.ram[1], 2);
    assert_eq!(st.log_buffer[6], TraceEntry::RamLoaded);
    assert_eq!(st.log_buffer[5], TraceEntry::Loaded(String::from("prog.bin")));
}

#[test]
fn ram_loads_even_when_rom_is_missing() {
    let mut st = EmulatorState::new();
    st.load(None, String::from("prog.bin"), Some(bytes("00000111")));
    assert_eq!(st.ram[0], 7);
    assert_eq!(st.log_buffer[5], TraceEntry::ProgramNotFound);
    assert_eq!(st.log_buffer[6], TraceEntry::RamLoaded);
}

#[test]
fn corrupted_rom_skips_the_ram_source() {
    let mut st = EmulatorState::new();
    st.load(
        Some(bytes("10000000000000X1")),
        String::from("prog.bin"),
        Some(bytes("00000111")),
    );
    assert_eq!(st.ram[0], 0);
    assert_eq!(st.log_buffer[6], TraceEntry::RomCorrupted);
}

#[test]
fn corrupted_ram_line_aborts_and_logs() {
    let mut st = EmulatorState::new();
    st.load(
        Some(bytes("1000000000000001")),
        String::from("prog.bin"),
        Some(bytes("00000001\n0000001X\n00000011")),
    );
    assert_eq!(st.ram[0], 1);
    assert_eq!(st.ram[2], 0);
    assert_eq!(st.log_buffer[6], TraceEntry::RamCorrupted);
}

#[test]
fn ram_line_index_wraps_into_the_ram() {
    let mut st = EmulatorState::new();
    let mut text = String::new();
    for _ in 0..32 {
        text.push('\n');
    }
    text.push_str("00001111");
    st.load(None, String::from("prog.bin"), Some(bytes(&text)));
    assert_eq!(st.ram[0], 15);
}

#[test]
fn successful_load_clears_the_marks() {
    let mut st = EmulatorState::new();
    st.write_to_regs(0, 1);
    let _ = st.read_from_rom(0);
    st.load(
        Some(bytes("1000000000000001")),
        String::from("prog.bin"),
        Some(bytes("00000001")),
    );
    assert_eq!(st.current_rom_read, None);
    assert_eq!(st.current_ram_write, None);
    assert_eq!(st.current_reg_write, None);
}

#[test]
fn empty_source_loads_nothing_but_reports_success() {
    let mut st = EmulatorState::new();
    st.load(Some(Vec::new()), String::from("prog.bin"), None);
    assert_eq!(st.rom, vec![0u16; 64]);
    assert_eq!(st.log_buffer[6], TraceEntry::Loaded(String::from("prog.bin")));
}
