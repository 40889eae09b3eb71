pub mod cursor;
pub mod encoding;
pub mod error;
pub mod instructions;
pub mod opcode;
pub mod values;

pub use cursor::ByteCode;
pub use error::FormatError;
pub use instructions::{Instruction, Locator, Operand, Output};
pub use opcode::{classify, decode_opcode, Opcode, Shape};
pub use values::{Literal, Register};
