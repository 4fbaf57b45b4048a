use superh_disasm::il::{Instruction, InstructionTree};
use superh_disasm::memory::{Layout, Section};

#[test]
fn read_from_empty_layout_returns_zero() {
    let layout = Layout::new();
    let mut buf = [0u8; 3];
    assert_eq!(layout.read_memory(0x1234, &mut buf), 0);
    assert!(layout.get_section_at(0x1234).is_none());
}

#[test]
fn read_across_contiguous_sections() {
    let mut layout = Layout::new();
    layout.add_section(Section::from_raw(0x100, vec![1, 2, 3]));
    layout.add_section(Section::from_raw(0x103, vec![4, 5]));
    let mut buf = [0u8; 5];
    assert_eq!(layout.read_memory(0x100, &mut buf), 5);
    assert_eq!(buf, [1, 2, 3, 4, 5]);
    let mut buf = [0u8; 4];
    assert_eq!(layout.read_memory(0x101, &mut buf), 4);
    assert_eq!(buf, [2, 3, 4, 5]);
}

#[test]
fn read_stops_at_gap() {
    let mut layout = Layout::new();
    layout.add_section(Section::from_raw(0x100, vec![1, 2, 3]));
    layout.add_section(Section::from_raw(0x104, vec![4, 5]));
    let mut buf = [9u8; 4];
    assert_eq!(layout.read_memory(0x101, &mut buf), 2);
    assert_eq!(buf, [2, 3, 9, 9]);
}

#[test]
fn read_stops_at_end_of_last_section() {
    let layout = {
        let mut l = Layout::new();
        l.add_section(Section::from_raw(0x100, vec![1, 2, 3]));
        l
    };
    let mut buf = [0u8; 8];
    assert_eq!(layout.read_memory(0x102, &mut buf), 1);
    assert_eq!(buf[0], 3);
    assert_eq!(layout.read_memory(0x103, &mut buf), 0);
    assert_eq!(layout.read_memory(0xFF, &mut buf), 0);
}

#[test]
fn read_into_empty_buffer() {
    let mut layout = Layout::new();
    layout.add_section(Section::from_raw(0x100, vec![1, 2, 3]));
    let mut buf: [u8; 0] = [];
    assert_eq!(layout.read_memory(0x100, &mut buf), 0);
}

#[test]
fn read_at_top_of_address_space() {
    let mut layout = Layout::new();
    layout.add_section(Section::from_raw(usize::MAX - 1, vec![0xAA, 0xBB]));
    let mut buf = [0u8; 4];
    assert_eq!(layout.read_memory(usize::MAX - 1, &mut buf), 2);
    assert_eq!(buf, [0xAA, 0xBB, 0, 0]);
}

#[test]
fn sections_added_out_of_order() {
    let mut layout = Layout::new();
    layout.add_section(Section::from_raw(0x200, vec![4, 5]));
    layout.add_section(Section::from_raw(0x1FE, vec![2, 3]));
    layout.add_section(Section::from_raw(0x1FD, vec![1]));
    let mut buf = [0u8; 5];
    assert_eq!(layout.read_memory(0x1FD, &mut buf), 5);
    assert_eq!(buf, [1, 2, 3, 4, 5]);
}

#[test]
fn add_section_returns_the_inserted_section() {
    let mut layout = Layout::new();
    layout.add_section(Section::from_raw(0x50, vec![0; 4]));
    let s = layout.add_section(Section::from_raw(0x10, vec![1, 2, 3]));
    assert_eq!(s.address(), 0x10);
    assert_eq!(s.len(), 3);
}

#[test]
fn section_lookup_checks_upper_edge() {
    let mut layout = Layout::new();
    layout.add_section(Section::from_raw(0x100, vec![1, 2, 3]));
    layout.add_section(Section::from_raw(0x200, vec![4]));
    assert_eq!(layout.get_section_at(0x100).map(|s| s.address()), Some(0x100));
    assert_eq!(layout.get_section_at(0x102).map(|s| s.address()), Some(0x100));
    assert!(layout.get_section_at(0x103).is_none());
    assert!(layout.get_section_at(0xFF).is_none());
    assert_eq!(layout.get_section_at(0x200).map(|s| s.len()), Some(1));
    assert!(layout.get_section_at(0x201).is_none());
}

#[test]
fn section_len_and_address() {
    let s = Section::from_raw(42, vec![1, 2, 3, 4]);
    assert_eq!(s.len(), 4);
    assert_eq!(s.address(), 42);
    assert_eq!(Section::from_raw(0, Vec::new()).len(), 0);
}

#[test]
fn instruction_tree_grows() {
    let mut tree = InstructionTree::new();
    tree.add_node(Instruction::ConstantInt32(5));
    tree.add_root(Instruction::ConstantInt32(7));
    let id = tree.add_node(Instruction::ConstantInt32(9));
    tree.set_root(id);
}
