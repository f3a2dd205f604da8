use oneasm::instructions::AddressedInstruction;

#[test]
fn opcode_table() {
    assert_eq!(AddressedInstruction::NoOp.opcode(), 0);
    assert_eq!(AddressedInstruction::AddImmediate(1).opcode(), 1);
    assert_eq!(AddressedInstruction::SubtractImmediate(1).opcode(), 1);
    assert_eq!(AddressedInstruction::MultiplyImmediate(1).opcode(), 1);
    assert_eq!(AddressedInstruction::DivideImmediate(1).opcode(), 1);
    assert_eq!(AddressedInstruction::RemainderImmediate(1).opcode(), 1);
    assert_eq!(AddressedInstruction::AndImmediate(1).opcode(), 1);
    assert_eq!(AddressedInstruction::Shift(1).opcode(), 1);
    assert_eq!(AddressedInstruction::Add(0).opcode(), 2);
    assert_eq!(AddressedInstruction::Subtract(0).opcode(), 2);
    assert_eq!(AddressedInstruction::Multiply(0).opcode(), 2);
    assert_eq!(AddressedInstruction::Divide(0).opcode(), 2);
    assert_eq!(AddressedInstruction::Remainder(0).opcode(), 2);
    assert_eq!(AddressedInstruction::And(0).opcode(), 2);
    assert_eq!(AddressedInstruction::ClearAc.opcode(), 3);
    assert_eq!(AddressedInstruction::Store(0).opcode(), 4);
    assert_eq!(AddressedInstruction::BranchZero(0).opcode(), 5);
    assert_eq!(AddressedInstruction::Branch(0).opcode(), 6);
}

#[test]
fn alu_op_table() {
    assert_eq!(AddressedInstruction::Add(0).alu_op(), 0);
    assert_eq!(AddressedInstruction::AddImmediate(1).alu_op(), 0);
    assert_eq!(AddressedInstruction::Subtract(0).alu_op(), 1);
    assert_eq!(AddressedInstruction::SubtractImmediate(1).alu_op(), 1);
    assert_eq!(AddressedInstruction::Multiply(0).alu_op(), 2);
    assert_eq!(AddressedInstruction::MultiplyImmediate(1).alu_op(), 2);
    assert_eq!(AddressedInstruction::Divide(0).alu_op(), 3);
    assert_eq!(AddressedInstruction::DivideImmediate(1).alu_op(), 3);
    assert_eq!(AddressedInstruction::Remainder(0).alu_op(), 4);
    assert_eq!(AddressedInstruction::RemainderImmediate(1).alu_op(), 4);
    assert_eq!(AddressedInstruction::And(0).alu_op(), 5);
    assert_eq!(AddressedInstruction::AndImmediate(1).alu_op(), 5);
    assert_eq!(AddressedInstruction::Shift(1).alu_op(), 6);
    assert_eq!(AddressedInstruction::NoOp.alu_op(), 0);
    assert_eq!(AddressedInstruction::ClearAc.alu_op(), 0);
    assert_eq!(AddressedInstruction::Store(0).alu_op(), 0);
    assert_eq!(AddressedInstruction::BranchZero(0).alu_op(), 0);
    assert_eq!(AddressedInstruction::Branch(0).alu_op(), 0);
}

#[test]
fn value_byte() {
    assert_eq!(AddressedInstruction::Add(0xab).value(), 0xab);
    assert_eq!(AddressedInstruction::AddImmediate(-1).value(), 0xff);
    assert_eq!(AddressedInstruction::Shift(-128).value(), 0x80);
    assert_eq!(AddressedInstruction::NoOp.value(), 0);
    assert_eq!(AddressedInstruction::ClearAc.value(), 0);
}

#[test]
fn round_trip_nibbles() {
    let samples = vec![
        AddressedInstruction::NoOp,
        AddressedInstruction::AddImmediate(-3),
        AddressedInstruction::SubtractImmediate(7),
        AddressedInstruction::MultiplyImmediate(2),
        AddressedInstruction::DivideImmediate(9),
        AddressedInstruction::RemainderImmediate(-5),
        AddressedInstruction::AndImmediate(1),
        AddressedInstruction::Shift(4),
        AddressedInstruction::Add(1),
        AddressedInstruction::Subtract(2),
        AddressedInstruction::Multiply(3),
        AddressedInstruction::Divide(4),
        AddressedInstruction::Remainder(5),
        AddressedInstruction::And(6),
        AddressedInstruction::ClearAc,
        AddressedInstruction::Store(200),
        AddressedInstruction::BranchZero(254),
        AddressedInstruction::Branch(255),
    ];
    for ins in samples {
        let bytes = ins.bytes();
        assert_eq!(bytes[0] >> 4, ins.opcode());
        assert_eq!(bytes[0] & 0xf, ins.alu_op());
        assert_eq!(bytes[1], ins.value());
    }
}

#[test]
fn bytes_pack_the_nibbles() {
    assert_eq!(AddressedInstruction::Branch(2).bytes(), [0x60, 0x02]);
    assert_eq!(AddressedInstruction::Shift(-1).bytes(), [0x16, 0xff]);
    assert_eq!(AddressedInstruction::And(7).bytes(), [0x25, 0x07]);
}

#[test]
fn hex_string_formats_both_bytes() {
    assert_eq!(AddressedInstruction::Add(0).hex_string(), "2000");
    assert_eq!(AddressedInstruction::Branch(255).hex_string(), "60ff");
    assert_eq!(AddressedInstruction::AddImmediate(-1).hex_string(), "10ff");
    assert_eq!(AddressedInstruction::ClearAc.hex_string(), "3000");
}

#[test]
fn display_lines() {
    assert_eq!(AddressedInstruction::Add(31).display_string(), "add 0x1f");
    assert_eq!(AddressedInstruction::Store(0).display_string(), "store 0x0");
    assert_eq!(AddressedInstruction::AddImmediate(-7).display_string(), "addi -7");
    assert_eq!(AddressedInstruction::Shift(3).display_string(), "shift 3");
    assert_eq!(AddressedInstruction::BranchZero(255).display_string(), "beqz 0xff");
    assert_eq!(AddressedInstruction::NoOp.display_string(), "noop");
    assert_eq!(AddressedInstruction::ClearAc.display_string(), "clac");
}
