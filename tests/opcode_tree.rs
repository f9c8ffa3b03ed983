use avr_emulator::instruction::Instr;
use avr_emulator::opcode_tree::{decode, find_overlap, opcode_table, opcode_tree, Node};

#[test]
fn test_node() {
    let f = opcode_tree();
    assert_eq!(Some(Instr::ADD), f.find(0b0000_1100_0000_0000));
    assert_eq!(Some(Instr::ADC), f.find(0b0001_1100_0000_0000));
    assert_eq!(Some(Instr::JMP), f.find(0b1001_0100_0000_1100));
    assert_eq!(Some(Instr::SEI), f.find(0b1001_0100_0111_1000));
    assert_eq!(Some(Instr::STS), f.find(0b1001_0010_0000_0000));
}

#[test]
fn test_node_unknown_word() {
    let f = opcode_tree();
    assert_eq!(None, f.find(0b1111_1100_0000_0000));
}

#[test]
fn every_registered_pattern_decodes_to_its_instruction() {
    let f = opcode_tree();
    for (pattern, mask, instr) in opcode_table() {
        assert_eq!(Some(instr), f.find(pattern & mask));
        // operand bits do not change the decoding
        assert_eq!(Some(instr), f.find(pattern | !mask));
    }
}

#[test]
fn opcode_table_has_no_overlap() {
    assert_eq!(None, find_overlap(&opcode_table()));
}

#[test]
fn overlap_is_reported() {
    let table = vec![
        (0b0000_1100_0000_0000, 0b1111_1100_0000_0000, Instr::ADD),
        (0b0000_1100_0000_0000, 0b1111_1111_0000_0000, Instr::SUB),
    ];
    assert_eq!(Some((0, 1)), find_overlap(&table));
}

#[test]
fn empty_tree_finds_nothing() {
    let t = Node::empty(0);
    assert_eq!(None, t.find(0));
}

#[test]
fn tree_and_table_scan_agree_on_every_word() {
    let t = opcode_tree();
    let mut known = 0;
    for w in 0..=0xffffu16 {
        let found = t.find(w);
        assert_eq!(found, decode(w));
        if found.is_some() {
            known += 1;
        }
    }
    assert_eq!(known, 50501);
}
