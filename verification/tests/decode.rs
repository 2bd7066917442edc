use chip8::instruction::Instruction;
use chip8::instruction::Opcode;

/// Decode one instruction from a fresh decoder.
fn decoded(b0: u8, b1: u8) -> Instruction {
    let mut inst = Instruction::new();
    inst.decode((b0, b1));
    inst
}

#[test]
fn decode_address_class() {
    let inst = decoded(0x1A, 0xBC);
    assert_eq!(inst.get_opcode(), 0x1000);
    assert_eq!(inst.nnn, 0xABC);
    assert_eq!(Opcode::from_code(inst.get_opcode()), Opcode::Jump);
}

#[test]
fn decode_immediate_class() {
    let inst = decoded(0x6A, 0x02);
    assert_eq!(inst.get_opcode(), 0x6000);
    assert_eq!(inst.x, 0xA);
    assert_eq!(inst.kk, 0x02);
    assert_eq!(Opcode::from_code(inst.get_opcode()), Opcode::SetImm);
}

#[test]
fn decode_register_pair_class() {
    let inst = decoded(0x8A, 0xB4);
    assert_eq!(inst.get_opcode(), 0x8004);
    assert_eq!(inst.x, 0xA);
    assert_eq!(inst.y, 0xB);
    assert_eq!(Opcode::from_code(inst.get_opcode()), Opcode::AddReg);
}

#[test]
fn decode_draw_class() {
    let inst = decoded(0xD1, 0x2F);
    assert_eq!(inst.get_opcode(), 0xD000);
    assert_eq!(inst.x, 0x1);
    assert_eq!(inst.y, 0x2);
    assert_eq!(inst.n, 0xF);
    assert_eq!(Opcode::from_code(inst.get_opcode()), Opcode::Draw);
}

#[test]
fn decode_second_byte_class() {
    let inst = decoded(0xE3, 0x9E);
    assert_eq!(inst.get_opcode(), 0xE09E);
    assert_eq!(inst.x, 0x3);
    assert_eq!(Opcode::from_code(inst.get_opcode()), Opcode::SkipKey);

    let inst = decoded(0xF7, 0x33);
    assert_eq!(inst.get_opcode(), 0xF033);
    assert_eq!(inst.x, 0x7);
    assert_eq!(Opcode::from_code(inst.get_opcode()), Opcode::StoreBcd);
}

#[test]
fn decode_zero_class() {
    let inst = decoded(0x00, 0xE0);
    assert_eq!(inst.get_opcode(), 0x00E0);
    assert_eq!(Opcode::from_code(inst.get_opcode()), Opcode::ClearScreen);

    let inst = decoded(0x00, 0xEE);
    assert_eq!(inst.get_opcode(), 0x00EE);
    assert_eq!(Opcode::from_code(inst.get_opcode()), Opcode::Return);
}

#[test]
fn unknown_encodings_get_the_distinguished_tag() {
    // 8xy9 and 8xyE exist on no opcode list of this engine.
    let inst = decoded(0x81, 0x29);
    assert_eq!(Opcode::from_code(inst.get_opcode()), Opcode::Unknown);
    let inst = decoded(0x81, 0x2E);
    assert_eq!(Opcode::from_code(inst.get_opcode()), Opcode::Unknown);
    // 00FD is outside the pair this engine recognizes in class zero.
    let inst = decoded(0x00, 0xFD);
    assert_eq!(Opcode::from_code(inst.get_opcode()), Opcode::Unknown);
}

#[test]
fn decode_then_encode_round_trips_every_class() {
    let cases: Vec<(u8, u8)> = vec![
        (0x00, 0xE0),
        (0x00, 0xEE),
        (0x1A, 0xBC),
        (0x2F, 0x01),
        (0x35, 0x77),
        (0x4E, 0x00),
        (0x51, 0x20),
        (0x6A, 0x02),
        (0x7F, 0xFF),
        (0x8A, 0xB0),
        (0x8A, 0xB1),
        (0x8A, 0xB2),
        (0x8A, 0xB3),
        (0x8A, 0xB4),
        (0x8A, 0xB5),
        (0x8A, 0xB6),
        (0x91, 0x20),
        (0xA2, 0x00),
        (0xBF, 0xFF),
        (0xC0, 0x0F),
        (0xD1, 0x2F),
        (0xE3, 0x9E),
        (0xE3, 0xA1),
        (0xF7, 0x07),
        (0xF7, 0x0A),
        (0xF7, 0x15),
        (0xF7, 0x18),
        (0xF7, 0x1E),
        (0xF7, 0x29),
        (0xF7, 0x33),
        (0xF7, 0x55),
        (0xF7, 0x65),
    ];
    for (b0, b1) in cases {
        let inst = decoded(b0, b1);
        assert_ne!(Opcode::from_code(inst.get_opcode()), Opcode::Unknown);
        assert_eq!(inst.encode(), (b0, b1));
    }
}

#[test]
fn set_opcode_overwrites_the_key() {
    let mut inst = Instruction::new();
    assert_eq!(inst.get_opcode(), 0);
    inst.set_opcode(0xD000);
    assert_eq!(inst.get_opcode(), 0xD000);
}
