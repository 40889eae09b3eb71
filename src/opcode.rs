use vstd::prelude::*;

verus! {
use crate::error::FormatError;
/// The operation an instruction performs.
#[derive(Debug, Clone, Copy, PartialEq, Eq, Structural)]
pub enum Opcode {
    Abs,
    AbsWrapped,
    Add,
    AddWrapped,
    And,
    AssertEq,
    AssertNeq,
    Call,
    Cast,
    CommitBHP256,
    CommitBHP512,
    CommitBHP768,
    CommitBHP1024,
    CommitPED64,
    CommitPED128,
    Div,
    DivWrapped,
    Double,
    GreaterThan,
    GreaterThanOrEqual,
    HashBHP256,
    HashBHP512,
    HashBHP768,
    HashBHP1024,
    HashPED64,
    HashPED128,
    HashPSD2,
    HashPSD4,
    HashPSD8,
    Inv,
    IsEq,
    IsNeq,
    LessThan,
    LessThanOrEqual,
    Mod,
    Mul,
    MulWrapped,
    Nand,
    Neg,
    Nor,
    Not,
    Or,
    Pow,
    PowWrapped,
    Rem,
    RemWrapped,
    Shl,
    ShlWrapped,
    Shr,
    ShrWrapped,
    Square,
    SquareRoot,
    Sub,
    SubWrapped,
    Ternary,
    Xor,
}

/// The canonical tag of each opcode: its position in the fixed table.
pub open spec fn opcode_index(op: Opcode) -> u16 {
    match op {
        Opcode::Abs => 0,
        Opcode::AbsWrapped => 1,
        Opcode::Add => 2,
        Opcode::AddWrapped => 3,
        Opcode::And => 4,
        Opcode::AssertEq => 5,
        Opcode::AssertNeq => 6,
        Opcode::Call => 7,
        Opcode::Cast => 8,
        Opcode::CommitBHP256 => 9,
        Opcode::CommitBHP512 => 10,
        Opcode::CommitBHP768 => 11,
        Opcode::CommitBHP1024 => 12,
        Opcode::CommitPED64 => 13,
        Opcode::CommitPED128 => 14,
        Opcode::Div => 15,
        Opcode::DivWrapped => 16,
        Opcode::Double => 17,
        Opcode::GreaterThan => 18,
        Opcode::GreaterThanOrEqual => 19,
        Opcode::HashBHP256 => 20,
        Opcode::HashBHP512 => 21,
        Opcode::HashBHP768 => 22,
        Opcode::HashBHP1024 => 23,
        Opcode::HashPED64 => 24,
        Opcode::HashPED128 => 25,
        Opcode::HashPSD2 => 26,
        Opcode::HashPSD4 => 27,
        Opcode::HashPSD8 => 28,
        Opcode::Inv => 29,
        Opcode::IsEq => 30,
        Opcode::IsNeq => 31,
        Opcode::LessThan => 32,
        Opcode::LessThanOrEqual => 33,
        Opcode::Mod => 34,
        Opcode::Mul => 35,
        Opcode::MulWrapped => 36,
        Opcode::Nand => 37,
        Opcode::Neg => 38,
        Opcode::Nor => 39,
        Opcode::Not => 40,
        Opcode::Or => 41,
        Opcode::Pow => 42,
        Opcode::PowWrapped => 43,
        Opcode::Rem => 44,
        Opcode::RemWrapped => 45,
        Opcode::Shl => 46,
        Opcode::ShlWrapped => 47,
        Opcode::Shr => 48,
        Opcode::ShrWrapped => 49,
        Opcode::Square => 50,
        Opcode::SquareRoot => 51,
        Opcode::Sub => 52,
        Opcode::SubWrapped => 53,
        Opcode::Ternary => 54,
        Opcode::Xor => 55,
    }
}

/// The opcode at position `tag` of the fixed table; meaningful for tags up to 55.
#[verifier::opaque]
pub open spec fn opcode_at(tag: u16) -> Opcode
    recommends
        tag <= LAST_OPCODE_TAG,
{
    if tag == 0 {
        Opcode::Abs
    } else if tag == 1 {
        Opcode::AbsWrapped
    } else if tag == 2 {
        Opcode::Add
    } else if tag == 3 {
        Opcode::AddWrapped
    } else if tag == 4 {
        Opcode::And
    } else if tag == 5 {
        Opcode::AssertEq
    } else if tag == 6 {
        Opcode::AssertNeq
    } else if tag == 7 {
        Opcode::Call
    } else if tag == 8 {
        Opcode::Cast
    } else if tag == 9 {
        Opcode::CommitBHP256
    } else if tag == 10 {
        Opcode::CommitBHP512
    } else if tag == 11 {
        Opcode::CommitBHP768
    } else if tag == 12 {
        Opcode::CommitBHP1024
    } else if tag == 13 {
        Opcode::CommitPED64
    } else if tag == 14 {
        Opcode::CommitPED128
    } else if tag == 15 {
        Opcode::Div
    } else if tag == 16 {
        Opcode::DivWrapped
    } else if tag == 17 {
        Opcode::Double
    } else if tag == 18 {
        Opcode::GreaterThan
    } else if tag == 19 {
        Opcode::GreaterThanOrEqual
    } else if tag == 20 {
        Opcode::HashBHP256
    } else if tag == 21 {
        Opcode::HashBHP512
    } else if tag == 22 {
        Opcode::HashBHP768
    } else if tag == 23 {
        Opcode::HashBHP1024
    } else if tag == 24 {
        Opcode::HashPED64
    } else if tag == 25 {
        Opcode::HashPED128
    } else if tag == 26 {
        Opcode::HashPSD2
    } else if tag == 27 {
        Opcode::HashPSD4
    } else if tag == 28 {
        Opcode::HashPSD8
    } else if tag == 29 {
        Opcode::Inv
    } else if tag == 30 {
        Opcode::IsEq
    } else if tag == 31 {
        Opcode::IsNeq
    } else if tag == 32 {
        Opcode::LessThan
    } else if tag == 33 {
        Opcode::LessThanOrEqual
    } else if tag == 34 {
        Opcode::Mod
    } else if tag == 35 {
        Opcode::Mul
    } else if tag == 36 {
        Opcode::MulWrapped
    } else if tag == 37 {
        Opcode::Nand
    } else if tag == 38 {
        Opcode::Neg
    } else if tag == 39 {
        Opcode::Nor
    } else if tag == 40 {
        Opcode::Not
    } else if tag == 41 {
        Opcode::Or
    } else if tag == 42 {
        Opcode::Pow
    } else if tag == 43 {
        Opcode::PowWrapped
    } else if tag == 44 {
        Opcode::Rem
    } else if tag == 45 {
        Opcode::RemWrapped
    } else if tag == 46 {
        Opcode::Shl
    } else if tag == 47 {
        Opcode::ShlWrapped
    } else if tag == 48 {
        Opcode::Shr
    } else if tag == 49 {
        Opcode::ShrWrapped
    } else if tag == 50 {
        Opcode::Square
    } else if tag == 51 {
        Opcode::SquareRoot
    } else if tag == 52 {
        Opcode::Sub
    } else if tag == 53 {
        Opcode::SubWrapped
    } else if tag == 54 {
        Opcode::Ternary
    } else {
        Opcode::Xor
    }
}

/// Opcodes that take one operand and write one register.
pub open spec fn is_unary_opcode(op: Opcode) -> bool {
    match op {
        Opcode::Abs
        | Opcode::AbsWrapped
        | Opcode::Cast
        | Opcode::Double
        | Opcode::Inv
        | Opcode::Neg
        | Opcode::Not
        | Opcode::Square
        | Opcode::SquareRoot
        | Opcode::HashBHP256
        | Opcode::HashBHP512
        | Opcode::HashBHP768
        | Opcode::HashBHP1024
        | Opcode::HashPED64
        | Opcode::HashPED128
        | Opcode::HashPSD2
        | Opcode::HashPSD4
        | Opcode::HashPSD8 => true,
        _ => false,
    }
}

/// Opcodes that take two operands and write one register.
pub open spec fn is_binary_opcode(op: Opcode) -> bool {
    match op {
        Opcode::Add
        | Opcode::AddWrapped
        | Opcode::Sub
        | Opcode::SubWrapped
        | Opcode::Mul
        | Opcode::MulWrapped
        | Opcode::Div
        | Opcode::DivWrapped
        | Opcode::Rem
        | Opcode::RemWrapped
        | Opcode::Pow
        | Opcode::PowWrapped
        | Opcode::Shl
        | Opcode::ShlWrapped
        | Opcode::Shr
        | Opcode::ShrWrapped
        | Opcode::And
        | Opcode::Xor
        | Opcode::Or
        | Opcode::Nand
        | Opcode::Nor
        | Opcode::GreaterThan
        | Opcode::GreaterThanOrEqual
        | Opcode::LessThan
        | Opcode::LessThanOrEqual
        | Opcode::IsEq
        | Opcode::IsNeq
        | Opcode::CommitBHP256
        | Opcode::CommitBHP512
        | Opcode::CommitBHP768
        | Opcode::CommitBHP1024
        | Opcode::CommitPED64
        | Opcode::CommitPED128
        | Opcode::Mod => true,
        _ => false,
    }
}

/// Opcodes that take two operands and write nothing.
pub open spec fn is_assert_opcode(op: Opcode) -> bool {
    op == Opcode::AssertEq || op == Opcode::AssertNeq
}

/// The operand and output layout of an instruction.
#[derive(Debug, Clone, Copy, PartialEq, Eq, Structural)]
pub enum Shape {
    Unary,
    Binary,
    Assert,
    Ternary,
    Call,
}

/// The shape each opcode decodes with.
pub open spec fn shape_of(op: Opcode) -> Shape {
    if op == Opcode::Call {
        Shape::Call
    } else if op == Opcode::Ternary {
        Shape::Ternary
    } else if is_assert_opcode(op) {
        Shape::Assert
    } else if is_unary_opcode(op) {
        Shape::Unary
    } else {
        Shape::Binary
    }
}

/// The largest tag that names an opcode.
pub const LAST_OPCODE_TAG: u16 = 55;

/// Resolves a tag to its opcode; a tag past the table is rejected.
pub fn decode_opcode(tag: u16) -> (r: Result<Opcode, FormatError>)
    ensures
        tag <= LAST_OPCODE_TAG ==> r == Ok::<Opcode, FormatError>(opcode_at(tag)),
        tag > LAST_OPCODE_TAG ==> r == Err::<Opcode, FormatError>(FormatError::UnknownOpcode),
{
    reveal(opcode_at);
    match tag {
        0 => Ok(Opcode::Abs),
        1 => Ok(Opcode::AbsWrapped),
        2 => Ok(Opcode::Add),
        3 => Ok(Opcode::AddWrapped),
        4 => Ok(Opcode::And),
        5 => Ok(Opcode::AssertEq),
        6 => Ok(Opcode::AssertNeq),
        7 => Ok(Opcode::Call),
        8 => Ok(Opcode::Cast),
        9 => Ok(Opcode::CommitBHP256),
        10 => Ok(Opcode::CommitBHP512),
        11 => Ok(Opcode::CommitBHP768),
        12 => Ok(Opcode::CommitBHP1024),
        13 => Ok(Opcode::CommitPED64),
        14 => Ok(Opcode::CommitPED128),
        15 => Ok(Opcode::Div),
        16 => Ok(Opcode::DivWrapped),
        17 => Ok(Opcode::Double),
        18 => Ok(Opcode::GreaterThan),
        19 => Ok(Opcode::GreaterThanOrEqual),
        20 => Ok(Opcode::HashBHP256),
        21 => Ok(Opcode::HashBHP512),
        22 => Ok(Opcode::HashBHP768),
        23 => Ok(Opcode::HashBHP1024),
        24 => Ok(Opcode::HashPED64),
        25 => Ok(Opcode::HashPED128),
        26 => Ok(Opcode::HashPSD2),
        27 => Ok(Opcode::HashPSD4),
        28 => Ok(Opcode::HashPSD8),
        29 => Ok(Opcode::Inv),
        30 => Ok(Opcode::IsEq),
        31 => Ok(Opcode::IsNeq),
        32 => Ok(Opcode::LessThan),
        33 => Ok(Opcode::LessThanOrEqual),
        34 => Ok(Opcode::Mod),
        35 => Ok(Opcode::Mul),
        36 => Ok(Opcode::MulWrapped),
        37 => Ok(Opcode::Nand),
        38 => Ok(Opcode::Neg),
        39 => Ok(Opcode::Nor),
        40 => Ok(Opcode::Not),
        41 => Ok(Opcode::Or),
        42 => Ok(Opcode::Pow),
        43 => Ok(Opcode::PowWrapped),
        44 => Ok(Opcode::Rem),
        45 => Ok(Opcode::RemWrapped),
        46 => Ok(Opcode::Shl),
        47 => Ok(Opcode::ShlWrapped),
        48 => Ok(Opcode::Shr),
        49 => Ok(Opcode::ShrWrapped),
        50 => Ok(Opcode::Square),
        51 => Ok(Opcode::SquareRoot),
        52 => Ok(Opcode::Sub),
        53 => Ok(Opcode::SubWrapped),
        54 => Ok(Opcode::Ternary),
        55 => Ok(Opcode::Xor),
        _ => Err(FormatError::UnknownOpcode),
    }
}

impl Opcode {
    /// The canonical tag that encodes this opcode.
    pub fn tag(self) -> (r: u16)
        ensures
            r == opcode_index(self),
    {
        match self {
            Opcode::Abs => 0,
            Opcode::AbsWrapped => 1,
            Opcode::Add => 2,
            Opcode::AddWrapped => 3,
            Opcode::And => 4,
            Opcode::AssertEq => 5,
            Opcode::AssertNeq => 6,
            Opcode::Call => 7,
            Opcode::Cast => 8,
            Opcode::CommitBHP256 => 9,
            Opcode::CommitBHP512 => 10,
            Opcode::CommitBHP768 => 11,
            Opcode::CommitBHP1024 => 12,
            Opcode::CommitPED64 => 13,
            Opcode::CommitPED128 => 14,
            Opcode::Div => 15,
            Opcode::DivWrapped => 16,
            Opcode::Double => 17,
            Opcode::GreaterThan => 18,
            Opcode::GreaterThanOrEqual => 19,
            Opcode::HashBHP256 => 20,
            Opcode::HashBHP512 => 21,
            Opcode::HashBHP768 => 22,
            Opcode::HashBHP1024 => 23,
            Opcode::HashPED64 => 24,
            Opcode::HashPED128 => 25,
            Opcode::HashPSD2 => 26,
            Opcode::HashPSD4 => 27,
            Opcode::HashPSD8 => 28,
            Opcode::Inv => 29,
            Opcode::IsEq => 30,
            Opcode::IsNeq => 31,
            Opcode::LessThan => 32,
            Opcode::LessThanOrEqual => 33,
            Opcode::Mod => 34,
            Opcode::Mul => 35,
            Opcode::MulWrapped => 36,
            Opcode::Nand => 37,
            Opcode::Neg => 38,
            Opcode::Nor => 39,
            Opcode::Not => 40,
            Opcode::Or => 41,
            Opcode::Pow => 42,
            Opcode::PowWrapped => 43,
            Opcode::Rem => 44,
            Opcode::RemWrapped => 45,
            Opcode::Shl => 46,
            Opcode::ShlWrapped => 47,
            Opcode::Shr => 48,
            Opcode::ShrWrapped => 49,
            Opcode::Square => 50,
            Opcode::SquareRoot => 51,
            Opcode::Sub => 52,
            Opcode::SubWrapped => 53,
            Opcode::Ternary => 54,
            Opcode::Xor => 55,
        }
    }
}

/// The decode shape of an opcode.
pub fn classify(op: Opcode) -> (r: Shape)
    ensures
        r == shape_of(op),
{
    match op {
        Opcode::Call => Shape::Call,
        Opcode::Ternary => Shape::Ternary,
        Opcode::AssertEq | Opcode::AssertNeq => Shape::Assert,
        Opcode::Abs
        | Opcode::AbsWrapped
        | Opcode::Cast
        | Opcode::Double
        | Opcode::Inv
        | Opcode::Neg
        | Opcode::Not
        | Opcode::Square
        | Opcode::SquareRoot
        | Opcode::HashBHP256
        | Opcode::HashBHP512
        | Opcode::HashBHP768
        | Opcode::HashBHP1024
        | Opcode::HashPED64
        | Opcode::HashPED128
        | Opcode::HashPSD2
        | Opcode::HashPSD4
        | Opcode::HashPSD8 => Shape::Unary,
        Opcode::Add
        | Opcode::AddWrapped
        | Opcode::Sub
        | Opcode::SubWrapped
        | Opcode::Mul
        | Opcode::MulWrapped
        | Opcode::Div
        | Opcode::DivWrapped
        | Opcode::Rem
        | Opcode::RemWrapped
        | Opcode::Pow
        | Opcode::PowWrapped
        | Opcode::Shl
        | Opcode::ShlWrapped
        | Opcode::Shr
        | Opcode::ShrWrapped
        | Opcode::And
        | Opcode::Xor
        | Opcode::Or
        | Opcode::Nand
        | Opcode::Nor
        | Opcode::GreaterThan
        | Opcode::GreaterThanOrEqual
        | Opcode::LessThan
        | Opcode::LessThanOrEqual
        | Opcode::IsEq
        | Opcode::IsNeq
        | Opcode::CommitBHP256
        | Opcode::CommitBHP512
        | Opcode::CommitBHP768
        | Opcode::CommitBHP1024
        | Opcode::CommitPED64
        | Opcode::CommitPED128
        | Opcode::Mod => Shape::Binary,
    }
}

/// Every tag of the table names an opcode whose canonical tag is that tag, and every
/// opcode is named by its canonical tag: tags and opcodes are in one-to-one correspondence.
pub proof fn lemma_opcode_table_bijective()
    ensures
        forall|tag: u16| tag <= LAST_OPCODE_TAG ==> #[trigger] opcode_index(opcode_at(tag)) == tag,
        forall|op: Opcode|
            #[trigger] opcode_index(op) <= LAST_OPCODE_TAG && opcode_at(opcode_index(op)) == op,
        forall|a: u16, b: u16|
            a <= LAST_OPCODE_TAG && b <= LAST_OPCODE_TAG && #[trigger] opcode_at(a) == #[trigger] opcode_at(b)
                ==> a == b,
{
    reveal(opcode_at);
    assert forall|tag: u16| tag <= LAST_OPCODE_TAG implies #[trigger] opcode_index(opcode_at(tag)) == tag by {
    }
    assert forall|op: Opcode| #[trigger] opcode_index(op) <= LAST_OPCODE_TAG && opcode_at(opcode_index(op)) == op by {
    }
}

/// The unary, binary, assert, ternary and call opcodes partition the opcode set:
/// every opcode lies in exactly one of them, and `shape_of` names that one.
pub proof fn lemma_shapes_partition(op: Opcode)
    ensures
        (is_unary_opcode(op) as int) + (is_binary_opcode(op) as int) + (is_assert_opcode(op) as int)
            + ((op == Opcode::Ternary) as int) + ((op == Opcode::Call) as int) == 1,
        shape_of(op) == Shape::Unary <==> is_unary_opcode(op),
        shape_of(op) == Shape::Binary <==> is_binary_opcode(op),
        shape_of(op) == Shape::Assert <==> is_assert_opcode(op),
        shape_of(op) == Shape::Ternary <==> op == Opcode::Ternary,
        shape_of(op) == Shape::Call <==> op == Opcode::Call,
{
}

} // verus!
