use ruscv_sim::commit_log::commit_line;
use ruscv_sim::elf::{load_elf_file, ElfError};
use ruscv_sim::executor::{ExecutorError, RiscVSimulator};

fn put(buf: &mut Vec<u8>, at: usize, bytes: &[u8]) {
    if buf.len() < at + bytes.len() {
        buf.resize(at + bytes.len(), 0);
    }
    buf[at..at + bytes.len()].copy_from_slice(bytes);
}

/// An ELF64 RISC-V executable with one loadable segment holding `code` at
/// `vaddr` (`memsz` bytes in memory) and a symbol table naming `tohost`,
/// `begin_signature` and `end_signature`.
fn elf(code: &[u8], vaddr: u64, memsz: u64, tohost: u64, sig: (u64, u64)) -> Vec<u8> {
    let mut f = vec![0u8; 64];
    put(&mut f, 0, &[0x7F, b'E', b'L', b'F', 2, 1, 1]);
    put(&mut f, 16, &2u16.to_le_bytes());
    put(&mut f, 18, &0xF3u16.to_le_bytes());
    put(&mut f, 20, &1u32.to_le_bytes());
    put(&mut f, 24, &vaddr.to_le_bytes());
    put(&mut f, 32, &64u64.to_le_bytes());
    put(&mut f, 52, &64u16.to_le_bytes());
    put(&mut f, 54, &56u16.to_le_bytes());
    put(&mut f, 56, &1u16.to_le_bytes());
    put(&mut f, 58, &64u16.to_le_bytes());
    put(&mut f, 60, &3u16.to_le_bytes());
    // program header
    let code_off = 0x100u64;
    put(&mut f, 64, &1u32.to_le_bytes());
    put(&mut f, 64 + 8, &code_off.to_le_bytes());
    put(&mut f, 64 + 16, &vaddr.to_le_bytes());
    put(&mut f, 64 + 24, &vaddr.to_le_bytes());
    put(&mut f, 64 + 32, &(code.len() as u64).to_le_bytes());
    put(&mut f, 64 + 40, &memsz.to_le_bytes());
    put(&mut f, code_off as usize, code);
    // string table
    let strtab = b"\0tohost\0begin_signature\0end_signature\0";
    let str_off = 0x400usize;
    put(&mut f, str_off, strtab);
    // symbol table
    let sym_off = 0x500usize;
    let syms = [(0u32, 0u64), (1, tohost), (8, sig.0), (24, sig.1)];
    for (k, (name, value)) in syms.iter().enumerate() {
        put(&mut f, sym_off + 24 * k, &name.to_le_bytes());
        put(&mut f, sym_off + 24 * k + 8, &value.to_le_bytes());
    }
    // section headers: null, symtab, strtab
    let sh_off = 0x600usize;
    put(&mut f, 40, &(sh_off as u64).to_le_bytes());
    let symtab_hdr = sh_off + 64;
    put(&mut f, symtab_hdr + 4, &2u32.to_le_bytes());
    put(&mut f, symtab_hdr + 24, &(sym_off as u64).to_le_bytes());
    put(&mut f, symtab_hdr + 32, &(24 * syms.len() as u64).to_le_bytes());
    put(&mut f, symtab_hdr + 40, &2u32.to_le_bytes());
    let strtab_hdr = sh_off + 128;
    put(&mut f, strtab_hdr + 4, &3u32.to_le_bytes());
    put(&mut f, strtab_hdr + 24, &(str_off as u64).to_le_bytes());
    put(&mut f, strtab_hdr + 32, &(strtab.len() as u64).to_le_bytes());
    f
}

fn program(words: &[u32]) -> Vec<u8> {
    let mut bytes = Vec::new();
    for w in words {
        bytes.extend_from_slice(&w.to_le_bytes());
    }
    bytes
}

const BASE: u64 = 0x8000_0000;

fn exit_42() -> Vec<u8> {
    // lui x1, 1; addi x2, x0, 85; sd x2, 0(x1); jal x0, 0
    program(&[0x0000_10B7, 0x0550_0113, 0x0020_B023, 0x0000_006F])
}

#[test]
fn test_simulator_load_elf_reinit() {
    let mut sim = RiscVSimulator::new(0x1000);

    let dummy_elf = vec![0; 100]; // Invalid ELF

    // First load attempt
    let _ = sim.load_elf(&dummy_elf);

    // Second load attempt - this should not panic or deadlock
    let _ = sim.load_elf(&dummy_elf);

    // Verify we can still access the simulator
    assert_eq!(sim.state().pc, 0);
}

#[test]
fn load_elf_file_builds_the_image_and_reads_symbols() {
    let code = exit_42();
    let file = elf(&code, BASE, 0x2000, BASE + 0x1000, (BASE + 0x1800, BASE + 0x1810));
    let loaded = load_elf_file(&file).unwrap();
    assert_eq!(loaded.entry_point, BASE);
    assert_eq!(loaded.base_addr, BASE);
    assert_eq!(loaded.memory.len(), 0x2000);
    assert_eq!(&loaded.memory[..code.len()], &code[..]);
    assert!(loaded.memory[code.len()..].iter().all(|b| *b == 0));
    assert_eq!(loaded.tohost, Some(BASE + 0x1000));
    let sig = loaded.signature.unwrap();
    assert_eq!(sig.vaddr, BASE + 0x1800);
    assert_eq!(sig.size, 0x10);
    assert_eq!(sig.file_offset, 0);
}

#[test]
fn load_elf_signature_file_offset_inside_the_file_bytes() {
    let code = exit_42();
    let file = elf(&code, BASE, 0x2000, BASE + 0x1000, (BASE + 4, BASE + 8));
    let sig = load_elf_file(&file).unwrap().signature.unwrap();
    assert_eq!(sig.file_offset, 0x104);
}

#[test]
fn load_elf_then_run_reports_the_exit_code() {
    let file = elf(&exit_42(), BASE, 0x2000, BASE + 0x1000, (BASE + 0x1800, BASE + 0x1808));
    let mut sim = RiscVSimulator::new(0x10);
    assert_eq!(sim.load_elf(&file).unwrap(), BASE);
    let res = sim.run(Some(100)).unwrap();
    assert_eq!(res.exit_code, 42);
    assert_eq!(res.cycles, 3);
    assert_eq!(res.signature_addr, Some(BASE + 0x1800));
    assert_eq!(res.signature_data, Some(vec![0u8; 8]));
}

#[test]
fn load_elf_rejects_each_malformed_file() {
    assert_eq!(load_elf_file(&[0u8; 10]).unwrap_err(), ElfError::TooShort);
    assert_eq!(load_elf_file(&[0u8; 100]).unwrap_err(), ElfError::InvalidMagic);
    let good = elf(&exit_42(), BASE, 0x2000, BASE + 0x1000, (BASE, BASE));
    let mut f = good.clone();
    f[4] = 1;
    assert_eq!(load_elf_file(&f).unwrap_err(), ElfError::UnsupportedClass);
    let mut f = good.clone();
    f[5] = 2;
    assert_eq!(load_elf_file(&f).unwrap_err(), ElfError::UnsupportedEndianness);
    let mut f = good.clone();
    f[18] = 0x3E;
    assert_eq!(load_elf_file(&f).unwrap_err(), ElfError::UnsupportedMachine);
    let mut f = good.clone();
    f[32..40].copy_from_slice(&0xFFFF_0000u64.to_le_bytes());
    assert_eq!(load_elf_file(&f).unwrap_err(), ElfError::InvalidProgramHeaders);
    let mut f = good.clone();
    f[64 + 32..64 + 40].copy_from_slice(&0x10_0000u64.to_le_bytes());
    assert_eq!(load_elf_file(&f).unwrap_err(), ElfError::InvalidSegment);
    let mut f = good.clone();
    f[64..68].copy_from_slice(&6u32.to_le_bytes());
    assert_eq!(load_elf_file(&f).unwrap_err(), ElfError::NoLoadableSegments);
}

#[test]
fn load_elf_error_is_an_elf_load_error() {
    let mut sim = RiscVSimulator::new(0x10);
    let err = sim.load_elf(&[0u8; 100]).unwrap_err();
    assert!(matches!(err, ExecutorError::ElfLoadError(ElfError::InvalidMagic)));
    assert_eq!(err.to_display_string(), "ELF loading failed: invalid ELF magic number");
}

#[test]
fn elf_without_symbols_has_no_tohost() {
    let mut f = elf(&exit_42(), BASE, 0x10, 0, (0, 0));
    f[60..62].copy_from_slice(&0u16.to_le_bytes());
    let loaded = load_elf_file(&f).unwrap();
    assert_eq!(loaded.tohost, None);
    assert!(loaded.signature.is_none());
    assert_eq!(loaded.memory.len(), 0x10);
}

#[test]
fn test_load_and_run_simple() {
    let result = ruscv_sim::executor::load_and_run(&[], Some(100), None, false);
    assert!(result.is_err());
}

#[test]
fn load_and_run_prints_through_the_uart_and_exits_through_htif() {
    let code = program(&[
        0x1000_00B7, // lui x1, 0x10000      (UART)
        0x0480_0113, // addi x2, x0, 'H'
        0x0020_8023, // sb x2, 0(x1)
        0x4000_81B7, // lui x3, 0x40008      (HTIF)
        0x0550_0213, // addi x4, x0, 85      ((42 << 1) | 1)
        0x0041_B023, // sd x4, 0(x3)
        0x0000_006F, // jal x0, 0
    ]);
    let file = elf(&code, BASE, 0x200, 0, (0, 0));
    let (res, out, _) = ruscv_sim::executor::load_and_run(&file, Some(100), None, false).unwrap();
    assert_eq!(res.exit_code, 42);
    assert_eq!(res.cycles, 6);
    assert!(!res.timed_out);
    assert!(res.error.is_none());
    assert_eq!(res.final_pc, BASE + 24);
    assert_eq!(out, b"H".to_vec());
}

#[test]
fn load_and_run_takes_the_exit_written_to_a_declared_tohost() {
    let code = program(&[
        0x0000_0097, // auipc x1, 0
        0x0550_0113, // addi x2, x0, 85
        0x1020_B023, // sd x2, 0x100(x1)
        0x0000_006F, // jal x0, 0
    ]);
    let file = elf(&code, BASE, 0x200, BASE + 0x100, (0, 0));
    let (res, out, _) = ruscv_sim::executor::load_and_run(&file, Some(100), None, false).unwrap();
    assert_eq!(res.exit_code, 42);
    assert_eq!(res.cycles, 3);
    assert!(out.is_empty());
    // An address given on the command line takes precedence: the HTIF
    // register reads zero, so the run times out.
    let (res, _, _) = ruscv_sim::executor::load_and_run(&file, Some(10), Some(0x4000_8000), false).unwrap();
    assert!(res.timed_out);
    assert_eq!(res.cycles, 10);
    assert_eq!(res.exit_code, 1);
    assert_eq!(res.error, Some("Timeout after 10 cycles".to_string()));
}

#[test]
fn load_and_run_reports_a_failing_instruction_with_its_pc() {
    let code = program(&[
        0x0000_2283, // lw x5, 0(x0): address 0 is not mapped
    ]);
    let file = elf(&code, BASE, 0x100, 0, (0, 0));
    let (res, _, _) = ruscv_sim::executor::load_and_run(&file, Some(10), None, false).unwrap();
    assert_eq!(res.exit_code, 1);
    assert_eq!(res.cycles, 0);
    assert_eq!(res.final_pc, BASE);
    assert!(res
        .error
        .unwrap()
        .starts_with("Execution error at PC 0x0000000080000000: "));
}

#[test]
fn an_htif_exit_code_of_u32_max_is_not_taken() {
    let code = program(&[
        0x4000_81B7, // lui x3, 0x40008      (HTIF)
        0xFFF0_0213, // addi x4, x0, -1      (marker form, code u32::MAX)
        0x0041_B023, // sd x4, 0(x3)
        0x0000_006F, // jal x0, 0
    ]);
    let file = elf(&code, BASE, 0x200, 0, (0, 0));
    let (res, _, _) = ruscv_sim::executor::load_and_run(&file, Some(10), None, false).unwrap();
    assert!(res.timed_out);
    assert_eq!(res.cycles, 10);
}

#[test]
fn load_and_run_keeps_a_spike_style_commit_record_per_instruction() {
    let code = program(&[
        0x4000_81B7, // lui x3, 0x40008
        0x0550_0213, // addi x4, x0, 85
        0x0041_B023, // sd x4, 0(x3)
    ]);
    let file = elf(&code, BASE, 0x200, 0, (0, 0));
    let (res, _, commits) = ruscv_sim::executor::load_and_run(&file, Some(100), None, true).unwrap();
    assert_eq!(res.exit_code, 42);
    assert_eq!(commits.len(), 3);
    assert_eq!(
        commit_line(&commits[0]),
        "core   0: 3 0x0000000080000000 (0x400081b7) x3  0x0000000040008000\n"
    );
    assert_eq!(
        commit_line(&commits[1]),
        "core   0: 3 0x0000000080000004 (0x05500213) x4  0x0000000000000055\n"
    );
    assert_eq!(commit_line(&commits[2]), "core   0: 3 0x0000000080000008 (0x0041b023)\n");
    let (_, _, none) = ruscv_sim::executor::load_and_run(&file, Some(100), None, false).unwrap();
    assert!(none.is_empty());
}
