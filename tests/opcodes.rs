use vanadium::instruction::Opcode;

#[test]
fn bytes_round_trip() {
    for b in 0u8..=18 {
        let op = Opcode::from_byte(b);
        assert_ne!(op, Opcode::IGL);
        assert_eq!(op.to_byte(), b);
    }
    for b in 19u8..=255 {
        assert_eq!(Opcode::from_byte(b), Opcode::IGL);
    }
    assert_eq!(Opcode::from_byte(Opcode::IGL.to_byte()), Opcode::IGL);
}

#[test]
fn mnemonics_round_trip() {
    for b in 0u8..=18 {
        let op = Opcode::from_byte(b);
        let word = op.mnemonic();
        assert_eq!(Opcode::from_mnemonic(&word), op);
    }
    assert_eq!(Opcode::from_mnemonic("gtq".as_bytes()), Opcode::GTQ);
    assert_eq!(Opcode::from_mnemonic("aloc".as_bytes()), Opcode::ALOC);
    assert_eq!(Opcode::from_mnemonic("igl".as_bytes()), Opcode::IGL);
    assert_eq!(Opcode::from_mnemonic("".as_bytes()), Opcode::IGL);
}
