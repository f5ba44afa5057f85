use lc3_vm::opcodes::memory_read;
use lc3_vm::opcodes::memory_write;
use lc3_vm::opcodes::op_add;
use lc3_vm::opcodes::op_and;
use lc3_vm::opcodes::op_br;
use lc3_vm::opcodes::op_jmp;
use lc3_vm::opcodes::op_jsr;
use lc3_vm::opcodes::op_ld;
use lc3_vm::opcodes::op_ldi;
use lc3_vm::opcodes::op_ldr;
use lc3_vm::opcodes::op_lea;
use lc3_vm::opcodes::op_not;
use lc3_vm::opcodes::op_st;
use lc3_vm::opcodes::op_sti;
use lc3_vm::opcodes::op_str;
use lc3_vm::opcodes::sign_extend;
use lc3_vm::opcodes::update_flags;
use lc3_vm::opcodes::OpCode;

const FLAG_POS: u16 = 1;
const FLAG_ZERO: u16 = 2;
const FLAG_NEG: u16 = 4;

fn fresh_regs() -> Vec<u16> {
    vec![0u16; 10]
}

fn fresh_mem() -> Vec<u16> {
    vec![0u16; 65536]
}

#[test]
fn sign_extend_negative_fields() {
    assert_eq!(sign_extend(0x1F, 5), 0xFFFF);
    assert_eq!(sign_extend(0x3F, 6), 0xFFFF);
    assert_eq!(sign_extend(0x1FF, 9), 0xFFFF);
    assert_eq!(sign_extend(0x7FF, 11), 0xFFFF);
    assert_eq!(sign_extend(0x10, 5), 0xFFF0);
    assert_eq!(sign_extend(0x100, 9), 0xFF00);
}

#[test]
fn sign_extend_positive_fields() {
    assert_eq!(sign_extend(0x0F, 5), 0x0F);
    assert_eq!(sign_extend(0x0FF, 9), 0x0FF);
    assert_eq!(sign_extend(0x1, 11), 0x1);
    assert_eq!(sign_extend(0x0, 9), 0x0);
}

#[test]
fn update_flags_sets_exactly_one_flag() {
    let mut regs = fresh_regs();
    regs[0] = 0;
    update_flags(&mut regs, 0);
    assert_eq!(regs[9], FLAG_ZERO);

    regs[3] = 42;
    update_flags(&mut regs, 3);
    assert_eq!(regs[9], FLAG_POS);

    regs[5] = 0x8001;
    update_flags(&mut regs, 5);
    assert_eq!(regs[9], FLAG_NEG);
}

#[test]
fn add_immediate_minus_one() {
    // ADD R0, R1, #-1 with R1 = 5 gives R0 = 4 and COND = POS.
    let mut regs = fresh_regs();
    regs[1] = 5;
    let instr: u16 = (0x1 << 12) | (0 << 9) | (1 << 6) | (1 << 5) | 0x1F;
    op_add(instr, &mut regs);
    assert_eq!(regs[0], 4);
    assert_eq!(regs[9], FLAG_POS);
}

#[test]
fn add_register_mode_both_zero() {
    // ADD R0, R1, R2 with R1 = R2 = 0 gives 0 and COND = ZERO.
    let mut regs = fresh_regs();
    let instr: u16 = (0x1 << 12) | (0 << 9) | (1 << 6) | 2;
    op_add(instr, &mut regs);
    assert_eq!(regs[0], 0);
    assert_eq!(regs[9], FLAG_ZERO);
}

#[test]
fn add_wraps_modulo_two_to_the_sixteen() {
    let mut regs = fresh_regs();
    regs[1] = 0xFFFF;
    regs[2] = 3;
    let instr: u16 = (0x1 << 12) | (0 << 9) | (1 << 6) | 2;
    op_add(instr, &mut regs);
    assert_eq!(regs[0], 2);
    assert_eq!(regs[9], FLAG_POS);
}

#[test]
fn and_register_mode_both_zero() {
    let mut regs = fresh_regs();
    let instr: u16 = (0x5 << 12) | (0 << 9) | (1 << 6) | 2;
    op_and(instr, &mut regs);
    assert_eq!(regs[0], 0);
    assert_eq!(regs[9], FLAG_ZERO);
}

#[test]
fn and_immediate_masks() {
    let mut regs = fresh_regs();
    regs[1] = 0xABCD;
    // AND R0, R1, #0xF
    let instr: u16 = (0x5 << 12) | (0 << 9) | (1 << 6) | (1 << 5) | 0x0F;
    op_and(instr, &mut regs);
    assert_eq!(regs[0], 0xD);
    assert_eq!(regs[9], FLAG_POS);
}

#[test]
fn not_complements() {
    let mut regs = fresh_regs();
    regs[1] = 0x00FF;
    let instr: u16 = (0x9 << 12) | (0 << 9) | (1 << 6) | 0x3F;
    op_not(instr, &mut regs);
    assert_eq!(regs[0], 0xFF00);
    assert_eq!(regs[9], FLAG_NEG);
}

#[test]
fn br_taken_and_not_taken() {
    let mut regs = fresh_regs();
    regs[8] = 0x3001;
    regs[9] = FLAG_ZERO;
    // BRz +4
    let instr: u16 = (0x0 << 12) | (0x2 << 9) | 0x004;
    op_br(instr, &mut regs);
    assert_eq!(regs[8], 0x3005);

    // BRp +4 with COND = ZERO is not taken.
    regs[8] = 0x3001;
    let untaken: u16 = (0x0 << 12) | (0x1 << 9) | 0x004;
    op_br(untaken, &mut regs);
    assert_eq!(regs[8], 0x3001);
}

#[test]
fn br_negative_offset_wraps_back() {
    let mut regs = fresh_regs();
    regs[8] = 0x3001;
    regs[9] = FLAG_POS;
    // BRnzp #-2
    let instr: u16 = (0x0 << 12) | (0x7 << 9) | 0x1FE;
    op_br(instr, &mut regs);
    assert_eq!(regs[8], 0x2FFF);
}

#[test]
fn jsr_links_and_jmp_returns() {
    // After the JSR's fetch, PC holds the address following the JSR.
    let mut regs = fresh_regs();
    regs[8] = 0x3001;
    // JSR +16
    let jsr: u16 = (0x4 << 12) | (1 << 11) | 0x010;
    op_jsr(jsr, &mut regs);
    assert_eq!(regs[7], 0x3001);
    assert_eq!(regs[8], 0x3011);

    // JMP R7 (RET) restores PC to the address after the JSR.
    let jmp: u16 = (0xC << 12) | (7 << 6);
    op_jmp(jmp, &mut regs);
    assert_eq!(regs[8], 0x3001);
}

#[test]
fn jsrr_jumps_to_base_register() {
    let mut regs = fresh_regs();
    regs[8] = 0x3001;
    regs[2] = 0x4000;
    // JSRR R2
    let instr: u16 = (0x4 << 12) | (2 << 6);
    op_jsr(instr, &mut regs);
    assert_eq!(regs[7], 0x3001);
    assert_eq!(regs[8], 0x4000);
}

#[test]
fn store_then_load_round_trip() {
    // ST R1 at PC-relative offset K, then LD R2 through the same offset,
    // returns the stored value unchanged.
    let mut regs = fresh_regs();
    let mut mem = fresh_mem();
    let mut input: Vec<u8> = Vec::new();
    regs[8] = 0x3001;
    regs[1] = 0xBEEF;
    let k: u16 = 0x020;
    let st: u16 = (0x3 << 12) | (1 << 9) | k;
    op_st(st, &mut regs, &mut mem);
    assert_eq!(mem[0x3021], 0xBEEF);

    let ld: u16 = (0x2 << 12) | (2 << 9) | k;
    op_ld(ld, &mut regs, &mut mem, &mut input);
    assert_eq!(regs[2], 0xBEEF);
    assert_eq!(regs[9], FLAG_NEG);
}

#[test]
fn ldi_loads_through_pointer() {
    // memory[PC + off] = A and memory[A] = V: LDI loads V into DR.
    let mut regs = fresh_regs();
    let mut mem = fresh_mem();
    let mut input: Vec<u8> = Vec::new();
    regs[8] = 0x3001;
    mem[0x3003] = 0x4000;
    mem[0x4000] = 0x1234;
    // LDI R0, +2
    let instr: u16 = (0xA << 12) | (0 << 9) | 0x002;
    op_ldi(instr, &mut regs, &mut mem, &mut input);
    assert_eq!(regs[0], 0x1234);
    assert_eq!(regs[9], FLAG_POS);
}

#[test]
fn ldr_and_str_use_base_register() {
    let mut regs = fresh_regs();
    let mut mem = fresh_mem();
    let mut input: Vec<u8> = Vec::new();
    regs[3] = 0x5000;
    regs[1] = 0xCAFE;
    // STR R1, R3, #2
    let st: u16 = (0x7 << 12) | (1 << 9) | (3 << 6) | 0x02;
    op_str(st, &mut regs, &mut mem);
    assert_eq!(mem[0x5002], 0xCAFE);

    // LDR R0, R3, #2
    let ld: u16 = (0x6 << 12) | (0 << 9) | (3 << 6) | 0x02;
    op_ldr(ld, &mut regs, &mut mem, &mut input);
    assert_eq!(regs[0], 0xCAFE);
    assert_eq!(regs[9], FLAG_NEG);
}

#[test]
fn sti_stores_through_pointer() {
    let mut regs = fresh_regs();
    let mut mem = fresh_mem();
    let mut input: Vec<u8> = Vec::new();
    regs[8] = 0x3001;
    regs[4] = 0x7777;
    mem[0x3002] = 0x6000;
    // STI R4, +1
    let instr: u16 = (0xB << 12) | (4 << 9) | 0x001;
    op_sti(instr, &mut regs, &mut mem, &mut input);
    assert_eq!(mem[0x6000], 0x7777);
}

#[test]
fn lea_loads_effective_address() {
    let mut regs = fresh_regs();
    regs[8] = 0x3001;
    // LEA R0, #-3
    let instr: u16 = (0xE << 12) | (0 << 9) | 0x1FD;
    op_lea(instr, &mut regs);
    assert_eq!(regs[0], 0x2FFE);
    assert_eq!(regs[9], FLAG_POS);
}

#[test]
fn memory_read_plain_address_has_no_side_effect() {
    let mut mem = fresh_mem();
    let mut input: Vec<u8> = vec![0x41];
    mem[0x1234] = 0xAAAA;
    let v = memory_read(&mut mem, 0x1234, &mut input);
    assert_eq!(v, 0xAAAA);
    assert_eq!(input, vec![0x41]);
    assert_eq!(mem[0xFE00], 0);
    assert_eq!(mem[0xFE02], 0);
}

#[test]
fn memory_read_keyboard_status_with_pending_byte() {
    let mut mem = fresh_mem();
    let mut input: Vec<u8> = vec![0x41, 0x42];
    let v = memory_read(&mut mem, 0xFE00, &mut input);
    assert_eq!(v, 0x8000);
    assert_eq!(mem[0xFE00], 0x8000);
    assert_eq!(mem[0xFE02], 0x41);
    assert_eq!(input, vec![0x42]);
}

#[test]
fn memory_read_keyboard_status_without_input() {
    let mut mem = fresh_mem();
    let mut input: Vec<u8> = Vec::new();
    mem[0xFE00] = 0x8000;
    mem[0xFE02] = 0x41;
    let v = memory_read(&mut mem, 0xFE00, &mut input);
    assert_eq!(v, 0);
    assert_eq!(mem[0xFE00], 0);
    // The data register keeps its last byte; only the status is cleared.
    assert_eq!(mem[0xFE02], 0x41);
}

#[test]
fn memory_write_is_plain_storage() {
    let mut mem = fresh_mem();
    memory_write(&mut mem, 0xFE00, 0x1111);
    assert_eq!(mem[0xFE00], 0x1111);
    memory_write(&mut mem, 0, 0x2222);
    assert_eq!(mem[0], 0x2222);
}

#[test]
fn opcode_from_u16_decodes_all_sixteen() {
    assert!(matches!(OpCode::from_u16(0x0), OpCode::BR));
    assert!(matches!(OpCode::from_u16(0x1), OpCode::ADD));
    assert!(matches!(OpCode::from_u16(0x2), OpCode::LD));
    assert!(matches!(OpCode::from_u16(0x3), OpCode::ST));
    assert!(matches!(OpCode::from_u16(0x4), OpCode::JSR));
    assert!(matches!(OpCode::from_u16(0x5), OpCode::AND));
    assert!(matches!(OpCode::from_u16(0x6), OpCode::LDR));
    assert!(matches!(OpCode::from_u16(0x7), OpCode::STR));
    assert!(matches!(OpCode::from_u16(0x8), OpCode::RTI));
    assert!(matches!(OpCode::from_u16(0x9), OpCode::NOT));
    assert!(matches!(OpCode::from_u16(0xA), OpCode::LDI));
    assert!(matches!(OpCode::from_u16(0xB), OpCode::STI));
    assert!(matches!(OpCode::from_u16(0xC), OpCode::JMP));
    assert!(matches!(OpCode::from_u16(0xD), OpCode::RES));
    assert!(matches!(OpCode::from_u16(0xE), OpCode::LEA));
    assert!(matches!(OpCode::from_u16(0xF), OpCode::TRAP));
}
