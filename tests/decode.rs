use superh_disasm::architecture::sh2e::{Nibbles, Register, SH2E};
use superh_disasm::architecture::{Architecture, Token, TokenBase};
use superh_disasm::error::Error;
use superh_disasm::memory::{Layout, Section};

fn layout_with(base: usize, bytes: Vec<u8>) -> Layout {
    let mut layout = Layout::new();
    layout.add_section(Section::from_raw(base, bytes));
    layout
}

fn render(bytes: [u8; 2]) -> Result<(String, usize, usize), Error> {
    let layout = layout_with(0, bytes.to_vec());
    let arch = SH2E::new();
    arch.disassemble_single(&layout, 0)
        .map(|(instr, size)| (instr.to_string(), instr.tokens().len(), size))
}

#[test]
fn mov_immediate_into_register() {
    assert_eq!(render([0xE3, 0x01]), Ok(("mov #1, R3".to_string(), 3, 2)));
}

#[test]
fn mov_immediate_largest_values() {
    assert_eq!(render([0xEF, 0xFF]), Ok(("mov #255, R15".to_string(), 3, 2)));
}

#[test]
fn mov_register_to_register() {
    assert_eq!(render([0x63, 0x23]), Ok(("mov R2, R3".to_string(), 3, 2)));
}

#[test]
fn nop_has_only_the_opcode() {
    assert_eq!(render([0x00, 0x09]), Ok(("nop".to_string(), 1, 2)));
}

#[test]
fn all_ones_is_invalid() {
    assert_eq!(render([0xFF, 0xFF]), Err(Error::InvalidInstruction));
}

#[test]
fn word_close_to_nop_is_invalid() {
    assert_eq!(render([0x09, 0x00]), Err(Error::InvalidInstruction));
}

#[test]
fn pc_relative_load_binds_no_displacement() {
    assert_eq!(render([0xD1, 0x05]), Ok(("mov.l @(0, PC), R1".to_string(), 4, 2)));
}

#[test]
fn pc_relative_word_load_is_not_nop() {
    assert_eq!(render([0x91, 0x09]), Ok(("mov.w @(0, PC), R1".to_string(), 4, 2)));
}

#[test]
fn long_store_with_displacement() {
    assert_eq!(render([0x12, 0x34]), Ok(("mov.l R3, @(4, R2)".to_string(), 4, 2)));
}

#[test]
fn byte_store_with_displacement_uses_r0() {
    assert_eq!(render([0x80, 0x5A]), Ok(("mov.b R0, @(10, R5)".to_string(), 4, 2)));
}

#[test]
fn byte_load_with_displacement_into_r0() {
    assert_eq!(render([0x84, 0x37]), Ok(("mov.b @(7, R3), R0".to_string(), 4, 2)));
}

#[test]
fn long_load_with_displacement() {
    assert_eq!(render([0x51, 0x2F]), Ok(("mov.l @(15, R2), R1".to_string(), 4, 2)));
}

#[test]
fn gbr_relative_store() {
    assert_eq!(render([0xC0, 0xFF]), Ok(("mov.b R0, @(255, GBR)".to_string(), 4, 2)));
    assert_eq!(render([0xC2, 0x10]), Ok(("mov.l R0, @(16, GBR)".to_string(), 4, 2)));
}

#[test]
fn indirect_store_and_load() {
    assert_eq!(render([0x24, 0x50]), Ok(("mov.b R5, @R4".to_string(), 3, 2)));
    assert_eq!(render([0x64, 0x51]), Ok(("mov.w @R5, R4".to_string(), 3, 2)));
}

#[test]
fn post_increment_and_pre_decrement() {
    assert_eq!(render([0x64, 0x56]), Ok(("mov.l @R5+, R4".to_string(), 3, 2)));
    assert_eq!(render([0x24, 0x56]), Ok(("mov.l R5, @-R4".to_string(), 3, 2)));
}

#[test]
fn indexed_store_and_load() {
    assert_eq!(render([0x04, 0x56]), Ok(("mov.l R5, @(R0, R4)".to_string(), 4, 2)));
    assert_eq!(render([0x04, 0x5E]), Ok(("mov.l @(R0, R5), R4".to_string(), 4, 2)));
}

#[test]
fn tokens_of_immediate_move() {
    let layout = layout_with(0, vec![0xE3, 0x01]);
    let (instr, _) = SH2E::new().disassemble_single(&layout, 0).unwrap();
    let tokens = instr.tokens();
    assert_eq!(tokens.len(), 3);
    assert_eq!(tokens[0].base(), TokenBase::Opcode("mov"));
    assert_eq!(tokens[1].base(), TokenBase::Immediate(1));
    assert_eq!(tokens[1].prefix(), "#");
    assert_eq!(tokens[2].base(), TokenBase::Register("R3"));
    assert_eq!(tokens[2].suffix(), "");
}

#[test]
fn decode_bytes_directly() {
    let arch = SH2E::new();
    assert_eq!(arch.decode_bytes(0xE3, 0x01).unwrap().to_string(), "mov #1, R3");
    assert!(matches!(arch.decode_bytes(0xFF, 0xFF), Err(Error::InvalidInstruction)));
}

#[test]
fn decode_through_nibbles() {
    let arch = SH2E::new();
    let instr = arch.decode(&Nibbles::from_bytes(0x63, 0x23)).unwrap();
    assert_eq!(instr.to_string(), "mov R2, R3");
    assert!(arch.decode(&Nibbles::from_bytes(0xFF, 0xFF)).is_none());
}

#[test]
fn empty_layout_is_invalid_memory() {
    let layout = Layout::new();
    let mut buf = [7u8; 4];
    assert_eq!(layout.read_memory(0, &mut buf), 0);
    assert_eq!(layout.read_memory(usize::MAX, &mut buf), 0);
    assert_eq!(buf, [7u8; 4]);
    assert!(matches!(SH2E::new().disassemble_single(&layout, 0), Err(Error::InvalidMemory)));
}

#[test]
fn single_byte_section_is_invalid_memory() {
    let layout = layout_with(0x4000, vec![0x09]);
    assert!(matches!(
        SH2E::new().disassemble_single(&layout, 0x4000),
        Err(Error::InvalidMemory)
    ));
}

#[test]
fn address_past_section_end_is_invalid_memory() {
    let layout = layout_with(0x10, vec![0x00, 0x09]);
    assert!(matches!(SH2E::new().disassemble_single(&layout, 0x11), Err(Error::InvalidMemory)));
    assert!(matches!(SH2E::new().disassemble_single(&layout, 0x12), Err(Error::InvalidMemory)));
    assert!(matches!(SH2E::new().disassemble_single(&layout, 0x0F), Err(Error::InvalidMemory)));
    assert!(SH2E::new().disassemble_single(&layout, 0x10).is_ok());
}

#[test]
fn instruction_across_contiguous_sections() {
    let mut layout = Layout::new();
    layout.add_section(Section::from_raw(0x20, vec![0x00, 0xE3]));
    layout.add_section(Section::from_raw(0x22, vec![0x01]));
    let (instr, size) = SH2E::new().disassemble_single(&layout, 0x21).unwrap();
    assert_eq!(instr.to_string(), "mov #1, R3");
    assert_eq!(size, 2);
}

#[test]
fn instruction_across_a_gap_is_invalid_memory() {
    let mut layout = Layout::new();
    layout.add_section(Section::from_raw(0x20, vec![0x00, 0xE3]));
    layout.add_section(Section::from_raw(0x23, vec![0x01]));
    assert!(matches!(
        SH2E::new().disassemble_single(&layout, 0x21),
        Err(Error::InvalidMemory)
    ));
}

#[test]
fn register_names_and_nibbles() {
    assert_eq!(Register::from(0u8), Register::R0);
    assert_eq!(Register::from(15u8), Register::R15);
    assert_eq!(Register::from(16u8), Register::R0);
    assert_eq!(Register::R7.static_str(), "R7");
    assert_eq!(Register::GBR.static_str(), "GBR");
    assert_eq!(Register::PC.static_str(), "PC");
}

#[test]
fn nibble_fields() {
    let n = Nibbles::from_bytes(0xAB, 0xCD);
    assert_eq!(n.nibble(0), 0xA);
    assert_eq!(n.nibble(3), 0xD);
    assert_eq!(n.byte(0), 0xAB);
    assert_eq!(n.byte(1), 0xBC);
    assert_eq!(n.byte(2), 0xCD);
    assert_eq!(n.word(), 0xABCD);
    assert_eq!(n.three(0), 0xABC);
    assert_eq!(n.three(1), 0xBCD);
    assert!(n.check_nibble(1, 0xB));
    assert!(!n.check_nibble(1, 0xC));
    assert!(n.check_byte(2, 0xCD));
    assert!(n.check_word(0xABCD));
    assert!(!n.check_word(0xABCE));
}

#[test]
fn token_builders() {
    let t = Token::new(TokenBase::Immediate(12)).with_prefix("@(").with_suffix(")");
    assert_eq!(t.prefix(), "@(");
    assert_eq!(t.suffix(), ")");
    assert_eq!(t.base(), TokenBase::Immediate(12));
    let plain = Token::new(TokenBase::Register("R1"));
    assert_eq!(plain.prefix(), "");
    assert_eq!(plain.suffix(), "");
}
