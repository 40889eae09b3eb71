use vstd::prelude::*;

verus! {

/// Why a byte stream could not be decoded.
#[derive(Debug, Clone, Copy, PartialEq, Eq, Structural)]
pub enum FormatError {
    /// The bytes ran out before a field was complete.
    TruncatedInput,
    /// An opcode tag past the end of the opcode table.
    UnknownOpcode,
    /// An operand tag other than literal, register, locator or caller.
    UnknownOperandTag,
    /// A literal type tag that names no literal type.
    UnknownLiteralType,
    /// A boolean literal byte other than 0 or 1.
    InvalidBoolean,
    /// A register kind byte other than plain or member access.
    UnknownRegisterKind,
    /// An identifier whose bytes are not valid UTF-8.
    InvalidIdentifier,
}

} // verus!
