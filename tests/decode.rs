use instruction_decoder::{
    classify, decode_opcode, ByteCode, FormatError, Instruction, Literal, Locator, Opcode, Operand, Output,
    Register, Shape,
};

fn reg(l: u32) -> Vec<u8> {
    let mut v = vec![0u8];
    v.extend_from_slice(&l.to_le_bytes());
    v
}

fn reg_operand(l: u32) -> Vec<u8> {
    let mut v = vec![1u8];
    v.extend(reg(l));
    v
}

fn ident(s: &str) -> Vec<u8> {
    let mut v = vec![s.len() as u8];
    v.extend_from_slice(s.as_bytes());
    v
}

fn decode(bytes: Vec<u8>) -> (Result<Instruction, FormatError>, usize) {
    let mut c = ByteCode::new(bytes);
    let r = Instruction::read(&mut c);
    (r, c.pos())
}

#[test]
fn every_tag_in_table_round_trips() {
    for tag in 0u16..=55 {
        let op = decode_opcode(tag).unwrap();
        assert_eq!(op.tag(), tag);
    }
    assert_eq!(decode_opcode(0), Ok(Opcode::Abs));
    assert_eq!(decode_opcode(7), Ok(Opcode::Call));
    assert_eq!(decode_opcode(54), Ok(Opcode::Ternary));
    assert_eq!(decode_opcode(55), Ok(Opcode::Xor));
    assert_eq!(decode_opcode(56), Err(FormatError::UnknownOpcode));
    assert_eq!(decode_opcode(u16::MAX), Err(FormatError::UnknownOpcode));
}

#[test]
fn tags_are_distinct() {
    let mut seen: Vec<Opcode> = Vec::new();
    for tag in 0u16..=55 {
        let op = decode_opcode(tag).unwrap();
        assert!(!seen.contains(&op));
        seen.push(op);
    }
    assert_eq!(seen.len(), 56);
}

#[test]
fn shapes_partition_opcodes() {
    let mut counts = [0usize; 5];
    for tag in 0u16..=55 {
        let i = match classify(decode_opcode(tag).unwrap()) {
            Shape::Unary => 0,
            Shape::Binary => 1,
            Shape::Assert => 2,
            Shape::Ternary => 3,
            Shape::Call => 4,
        };
        counts[i] += 1;
    }
    assert_eq!(counts, [18, 34, 2, 1, 1]);
    assert_eq!(classify(Opcode::Call), Shape::Call);
    assert_eq!(classify(Opcode::Ternary), Shape::Ternary);
    assert_eq!(classify(Opcode::AssertNeq), Shape::Assert);
    assert_eq!(classify(Opcode::HashPSD8), Shape::Unary);
    assert_eq!(classify(Opcode::Cast), Shape::Unary);
    assert_eq!(classify(Opcode::Mod), Shape::Binary);
    assert_eq!(classify(Opcode::CommitPED128), Shape::Binary);
}

#[test]
fn binary_add_of_two_registers() {
    let mut bytes = vec![2u8, 0];
    bytes.extend(reg_operand(0));
    bytes.extend(reg_operand(1));
    bytes.extend(reg(2));
    let len = bytes.len();
    let (r, pos) = decode(bytes);
    let i = r.unwrap();
    assert_eq!(i.opcode(), Opcode::Add);
    assert_eq!(
        i.operands(),
        &Some(vec![Operand::Register(Register::Locator(0)), Operand::Register(Register::Locator(1))])
    );
    assert_eq!(i.output(), &Output::Single(Register::Locator(2)));
    assert_eq!(i.callee(), &None);
    assert_eq!(pos, len);
}

#[test]
fn internal_call_with_literal_inputs() {
    let mut bytes = vec![7u8, 0, 1];
    bytes.extend(ident("foo"));
    bytes.push(2);
    bytes.extend([0u8, 1, 5]);
    bytes.extend([0u8, 0, 1]);
    bytes.push(1);
    bytes.extend(reg(3));
    let len = bytes.len();
    let (r, pos) = decode(bytes);
    let i = r.unwrap();
    assert_eq!(i.opcode(), Opcode::Call);
    assert_eq!(i.callee(), &Some(Locator::Internal("foo".to_string())));
    assert_eq!(
        i.operands(),
        &Some(vec![Operand::Literal(Literal::U8(5)), Operand::Literal(Literal::Boolean(true))])
    );
    assert_eq!(i.output(), &Output::Multiple(vec![Register::Locator(3)]));
    assert_eq!(pos, len);
}

#[test]
fn external_call_without_inputs_or_outputs() {
    let mut bytes = vec![7u8, 0, 0];
    bytes.extend(ident("token"));
    bytes.extend(ident("mint"));
    bytes.extend(ident("testnet"));
    bytes.extend([0u8, 0]);
    let (r, _) = decode(bytes);
    let i = r.unwrap();
    assert_eq!(
        i.callee(),
        &Some(Locator::External(("token".to_string(), "mint".to_string(), "testnet".to_string())))
    );
    assert_eq!(i.operands(), &None);
    assert_eq!(i.output(), &Output::Multiple(vec![]));
}

#[test]
fn tag_past_table_fails_after_tag() {
    let mut bytes = vec![56u8, 0];
    bytes.extend(reg_operand(0));
    let (r, pos) = decode(bytes);
    assert_eq!(r, Err(FormatError::UnknownOpcode));
    assert_eq!(pos, 2);
}

#[test]
fn truncated_register_fails_program() {
    // one unary instruction whose output register stops after two of its bytes
    let bytes = vec![1u8, 0, 0, 0, 0, 0, 3, 0, 1];
    let mut c = ByteCode::new(bytes);
    assert_eq!(Instruction::read_instructions(&mut c), Err(FormatError::TruncatedInput));
}

#[test]
fn empty_program_takes_four_bytes() {
    let mut c = ByteCode::new(vec![0u8, 0, 0, 0, 9, 9]);
    let (n, v) = Instruction::read_instructions(&mut c).unwrap();
    assert_eq!(n, 0);
    assert!(v.is_empty());
    assert_eq!(c.pos(), 4);
    assert_eq!(c.remaining(), 2);
}

#[test]
fn program_of_three_instructions() {
    let mut bytes = vec![3u8, 0, 0, 0];
    // assert.eq caller, literal u16
    bytes.extend([5u8, 0, 3, 0, 2, 0x34, 0x12]);
    // ternary
    bytes.extend([54u8, 0]);
    bytes.extend([0u8, 0, 0]);
    bytes.extend(reg_operand(7));
    bytes.extend([0u8, 3, 0x78, 0x56, 0x34, 0x12]);
    bytes.extend(reg(8));
    // neg of a member access
    bytes.extend([38u8, 0, 1, 1, 4, 0, 0, 0, 2]);
    bytes.extend(ident("a"));
    bytes.extend(ident("bc"));
    bytes.extend(reg(9));
    let len = bytes.len();
    let mut c = ByteCode::new(bytes);
    let (n, v) = Instruction::read_instructions(&mut c).unwrap();
    assert_eq!(n, 3);
    assert_eq!(v.len(), 3);
    assert_eq!(c.pos(), len);
    assert_eq!(v[0].opcode(), Opcode::AssertEq);
    assert_eq!(v[0].operands(), &Some(vec![Operand::Caller, Operand::Literal(Literal::U16(0x1234))]));
    assert_eq!(v[0].output(), &Output::Empty);
    assert_eq!(v[1].opcode(), Opcode::Ternary);
    assert_eq!(
        v[1].operands(),
        &Some(vec![
            Operand::Literal(Literal::Boolean(false)),
            Operand::Register(Register::Locator(7)),
            Operand::Literal(Literal::U32(0x12345678)),
        ])
    );
    assert_eq!(v[1].output(), &Output::Single(Register::Locator(8)));
    assert_eq!(v[2].opcode(), Opcode::Neg);
    assert_eq!(
        v[2].operands(),
        &Some(vec![Operand::Register(Register::Member(4, vec!["a".to_string(), "bc".to_string()]))])
    );
    assert_eq!(v[2].output(), &Output::Single(Register::Locator(9)));
}

#[test]
fn external_locator_operand() {
    let mut bytes = vec![17u8, 0, 2];
    bytes.extend(ident("p"));
    bytes.extend(ident("q"));
    bytes.extend(ident("r"));
    bytes.extend(reg(0));
    let (r, _) = decode(bytes);
    let i = r.unwrap();
    assert_eq!(i.opcode(), Opcode::Double);
    assert_eq!(
        i.operands(),
        &Some(vec![Operand::ProgramId(Locator::External(("p".to_string(), "q".to_string(), "r".to_string())))])
    );
}

#[test]
fn unknown_operand_tag() {
    assert_eq!(decode(vec![0u8, 0, 4, 0, 0, 0, 0, 0]).0, Err(FormatError::UnknownOperandTag));
}

#[test]
fn unknown_literal_type() {
    assert_eq!(decode(vec![0u8, 0, 0, 9, 0, 0, 0, 0, 0]).0, Err(FormatError::UnknownLiteralType));
}

#[test]
fn invalid_boolean() {
    assert_eq!(decode(vec![0u8, 0, 0, 0, 2, 0, 0, 0, 0, 0]).0, Err(FormatError::InvalidBoolean));
}

#[test]
fn unknown_register_kind() {
    assert_eq!(decode(vec![0u8, 0, 3, 2, 0, 0, 0, 0]).0, Err(FormatError::UnknownRegisterKind));
}

#[test]
fn invalid_identifier_bytes() {
    assert_eq!(decode(vec![7u8, 0, 1, 2, 0xff, 0xfe, 0, 0]).0, Err(FormatError::InvalidIdentifier));
}

#[test]
fn non_ascii_identifier() {
    let mut bytes = vec![7u8, 0, 1];
    bytes.extend(ident("é"));
    bytes.extend([0u8, 0]);
    let i = decode(bytes).0.unwrap();
    assert_eq!(i.callee(), &Some(Locator::Internal("é".to_string())));
}

#[test]
fn truncated_tag() {
    let (r, pos) = decode(vec![2u8]);
    assert_eq!(r, Err(FormatError::TruncatedInput));
    assert_eq!(pos, 0);
}

#[test]
fn cursor_reads_little_endian() {
    let mut c = ByteCode::new(vec![0x01u8, 0x02, 0x03, 0x04, 0x05, 0x06]);
    assert_eq!(c.read_u8(), Ok(0x01));
    assert_eq!(c.read_u16(), Ok(0x0302));
    assert_eq!(c.read_u32(), Err(FormatError::TruncatedInput));
    assert_eq!(c.pos(), 3);
    assert_eq!(c.read_bytes(4), Err(FormatError::TruncatedInput));
    assert_eq!(c.read_bytes(3), Ok(vec![4u8, 5, 6]));
    assert_eq!(c.read_u8(), Err(FormatError::TruncatedInput));
}
