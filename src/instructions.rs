use vstd::prelude::*;

verus! {

use crate::cursor::{
    ByteCode,
    Decoded,
    parse_many,
    parse_u8,
    parse_u16,
    parse_u32,
    reads_as,
    lemma_parse_many_err,
    lemma_advance,
};
use crate::error::FormatError;
use crate::opcode::{Opcode, Shape, LAST_OPCODE_TAG, opcode_at, shape_of, decode_opcode, classify};
use crate::values::{
    Literal,
    Register,
    RegisterView,
    parse_identifier,
    parse_literal,
    parse_register,
    register_parser,
    read_identifier,
};

/// Where a called function lives: in the same program, or in another one named by
/// three strings.
#[derive(Debug, PartialEq, Eq)]
pub enum Locator {
    Internal(String),
    External((String, String, String)),
}

/// What a locator names.
pub enum LocatorView {
    Internal(Seq<char>),
    External(Seq<char>, Seq<char>, Seq<char>),
}

impl View for Locator {
    type V = LocatorView;

    open spec fn view(&self) -> LocatorView {
        match self {
            Locator::Internal(name) => LocatorView::Internal(name@),
            Locator::External(t) => LocatorView::External(t.0@, t.1@, t.2@),
        }
    }
}

/// An external locator: three identifiers in turn.
#[verifier::opaque]
pub open spec fn parse_external(s: Seq<u8>) -> Decoded<LocatorView> {
    match parse_identifier(s) {
        Err(e) => Err(e),
        Ok((a, n1)) => match parse_identifier(s.skip(n1 as int)) {
            Err(e) => Err(e),
            Ok((b, n2)) => match parse_identifier(s.skip((n1 + n2) as int)) {
                Err(e) => Err(e),
                Ok((c, n3)) => Ok((LocatorView::External(a, b, c), n1 + n2 + n3)),
            },
        },
    }
}

/// Reads the three parts of an external locator.
pub fn read_locator(bytes: &mut ByteCode) -> (r: Result<(String, String, String), FormatError>)
    requires
        old(bytes).wf(),
    ensures
        reads_as(
            parse_external(old(bytes).rest()),
            r,
            |t: (String, String, String)| LocatorView::External(t.0@, t.1@, t.2@),
            *old(bytes),
            *final(bytes),
        ),
{
    reveal(parse_external);
    let a = read_identifier(bytes)?;
    proof {
        lemma_advance(*old(bytes), *bytes);
    }
    let b = read_identifier(bytes)?;
    proof {
        lemma_advance(*old(bytes), *bytes);
    }
    let c = read_identifier(bytes)?;
    Ok((a, b, c))
}

/// An input of an instruction.
#[derive(Debug, PartialEq, Eq)]
pub enum Operand {
    Literal(Literal),
    Register(Register),
    ProgramId(Locator),
    Caller,
}

/// What an operand denotes.
pub enum OperandView {
    Literal(Literal),
    Register(RegisterView),
    ProgramId(LocatorView),
    Caller,
}

impl View for Operand {
    type V = OperandView;

    open spec fn view(&self) -> OperandView {
        match self {
            Operand::Literal(l) => OperandView::Literal(*l),
            Operand::Register(r) => OperandView::Register(r@),
            Operand::ProgramId(l) => OperandView::ProgramId(l@),
            Operand::Caller => OperandView::Caller,
        }
    }
}

/// An operand: a tag byte (0 literal, 1 register, 2 external locator, 3 the caller),
/// then its payload.
pub open spec fn parse_operand(s: Seq<u8>) -> Decoded<OperandView> {
    match parse_u8(s) {
        Err(e) => Err(e),
        Ok((t, _)) => if t == 0 {
            match parse_literal(s.skip(1)) {
                Err(e) => Err(e),
                Ok((l, n)) => Ok((OperandView::Literal(l), 1 + n)),
            }
        } else if t == 1 {
            match parse_register(s.skip(1)) {
                Err(e) => Err(e),
                Ok((r, n)) => Ok((OperandView::Register(r), 1 + n)),
            }
        } else if t == 2 {
            match parse_external(s.skip(1)) {
                Err(e) => Err(e),
                Ok((l, n)) => Ok((OperandView::ProgramId(l), 1 + n)),
            }
        } else if t == 3 {
            Ok((OperandView::Caller, 1))
        } else {
            Err(FormatError::UnknownOperandTag)
        },
    }
}

/// `parse_operand` as a value, for lists of operands.
pub open spec fn operand_parser() -> spec_fn(Seq<u8>) -> Decoded<OperandView> {
    |s: Seq<u8>| parse_operand(s)
}

/// What each operand denotes.
pub open spec fn operands_view(v: Seq<Operand>) -> Seq<OperandView> {
    v.map_values(|x: Operand| x@)
}

/// What each register reference denotes.
pub open spec fn registers_view(v: Seq<Register>) -> Seq<RegisterView> {
    v.map_values(|x: Register| x@)
}

/// `n` operands in order; no operands at all when `n` is zero.
#[verifier::opaque]
pub open spec fn parse_operands(s: Seq<u8>, n: nat) -> Decoded<Option<Seq<OperandView>>> {
    if n == 0 {
        Ok((None, 0))
    } else {
        match parse_many(operand_parser(), s, n) {
            Err(e) => Err(e),
            Ok((ops, m)) => Ok((Some(ops), m)),
        }
    }
}

impl Operand {
    /// Reads one operand.
    pub fn read(bytes: &mut ByteCode) -> (r: Result<Operand, FormatError>)
        requires
            old(bytes).wf(),
        ensures
            reads_as(parse_operand(old(bytes).rest()), r, |x: Operand| x@, *old(bytes), *final(bytes)),
    {
        let t = bytes.read_u8()?;
        proof {
            lemma_advance(*old(bytes), *bytes);
        }
        if t == 0 {
            Ok(Operand::Literal(Literal::read(bytes)?))
        } else if t == 1 {
            Ok(Operand::Register(Register::read(bytes)?))
        } else if t == 2 {
            Ok(Operand::ProgramId(Locator::External(read_locator(bytes)?)))
        } else if t == 3 {
            Ok(Operand::Caller)
        } else {
            Err(FormatError::UnknownOperandTag)
        }
    }
}

/// Where an instruction writes its result.
#[derive(Debug, PartialEq, Eq)]
pub enum Output {
    Single(Register),
    Multiple(Vec<Register>),
    Empty,
}

/// What an output denotes.
pub enum OutputView {
    Single(RegisterView),
    Multiple(Seq<RegisterView>),
    Empty,
}

impl View for Output {
    type V = OutputView;

    open spec fn view(&self) -> OutputView {
        match self {
            Output::Single(r) => OutputView::Single(r@),
            Output::Multiple(rs) => OutputView::Multiple(registers_view(rs@)),
            Output::Empty => OutputView::Empty,
        }
    }
}

/// One decoded instruction.
#[derive(Debug, PartialEq, Eq)]
pub struct Instruction {
    opcode: Opcode,
    callee: Option<Locator>,
    operands: Option<Vec<Operand>>,
    output: Output,
}

/// What an instruction denotes: its opcode, the function it calls (for a call), its
/// operands (none when it has none) and its output.
pub struct InstructionView {
    pub opcode: Opcode,
    pub callee: Option<LocatorView>,
    pub operands: Option<Seq<OperandView>>,
    pub output: OutputView,
}

/// What a callee, if any, names.
pub open spec fn callee_view(c: Option<Locator>) -> Option<LocatorView> {
    match c {
        Some(l) => Some(l@),
        None => None,
    }
}

/// What the operands, if any, denote.
pub open spec fn operand_list_view(o: Option<Vec<Operand>>) -> Option<Seq<OperandView>> {
    match o {
        Some(v) => Some(operands_view(v@)),
        None => None,
    }
}

impl View for Instruction {
    type V = InstructionView;

    closed spec fn view(&self) -> InstructionView {
        InstructionView {
            opcode: self.opcode,
            callee: callee_view(self.callee),
            operands: operand_list_view(self.operands),
            output: self.output@,
        }
    }
}

/// The body of an instruction with a fixed number of operands: `n` operands, then an
/// output register when `has_output` holds.
pub open spec fn parse_fixed(op: Opcode, s: Seq<u8>, n: nat, has_output: bool) -> Decoded<InstructionView> {
    match parse_operands(s, n) {
        Err(e) => Err(e),
        Ok((ops, m)) => if has_output {
            match parse_register(s.skip(m as int)) {
                Err(e) => Err(e),
                Ok((r, k)) => Ok(
                    (InstructionView { opcode: op, callee: None, operands: ops, output: OutputView::Single(r) }, m + k),
                ),
            }
        } else {
            Ok((InstructionView { opcode: op, callee: None, operands: ops, output: OutputView::Empty }, m))
        },
    }
}

/// The callee of a call: a kind byte, then an identifier when it is 1 and an external
/// locator otherwise.
#[verifier::opaque]
pub open spec fn parse_callee(s: Seq<u8>) -> Decoded<LocatorView> {
    match parse_u8(s) {
        Err(e) => Err(e),
        Ok((kind, _)) => if kind == 1 {
            match parse_identifier(s.skip(1)) {
                Err(e) => Err(e),
                Ok((name, n)) => Ok((LocatorView::Internal(name), 1 + n)),
            }
        } else {
            match parse_external(s.skip(1)) {
                Err(e) => Err(e),
                Ok((l, n)) => Ok((l, 1 + n)),
            }
        },
    }
}

/// The body of a call: the callee, an input count byte and that many operands, an
/// output count byte and that many registers.
pub open spec fn parse_call(s: Seq<u8>) -> Decoded<InstructionView> {
    match parse_callee(s) {
        Err(e) => Err(e),
        Ok((callee, c)) => match parse_u8(s.skip(c as int)) {
            Err(e) => Err(e),
            Ok((n_in, _)) => match parse_operands(s.skip(c + 1 as int), n_in as nat) {
                Err(e) => Err(e),
                Ok((ops, m)) => match parse_u8(s.skip((c + 1 + m) as int)) {
                    Err(e) => Err(e),
                    Ok((n_out, _)) => match parse_many(register_parser(), s.skip((c + 2 + m) as int), n_out as nat) {
                        Err(e) => Err(e),
                        Ok((regs, k)) => Ok(
                            (
                                InstructionView {
                                    opcode: Opcode::Call,
                                    callee: Some(callee),
                                    operands: ops,
                                    output: OutputView::Multiple(regs),
                                },
                                c + 2 + m + k,
                            ),
                        ),
                    },
                },
            },
        },
    }
}

/// The body of an instruction, laid out as the opcode's shape asks.
pub open spec fn parse_body(op: Opcode, s: Seq<u8>) -> Decoded<InstructionView> {
    match shape_of(op) {
        Shape::Call => parse_call(s),
        Shape::Ternary => parse_fixed(op, s, 3, true),
        Shape::Assert => parse_fixed(op, s, 2, false),
        Shape::Unary => parse_fixed(op, s, 1, true),
        Shape::Binary => parse_fixed(op, s, 2, true),
    }
}

/// An instruction: a `u16` opcode tag, then the body its shape asks for.
#[verifier::opaque]
pub open spec fn parse_instruction(s: Seq<u8>) -> Decoded<InstructionView> {
    match parse_u16(s) {
        Err(e) => Err(e),
        Ok((tag, _)) => if tag > LAST_OPCODE_TAG {
            Err(FormatError::UnknownOpcode)
        } else {
            match parse_body(opcode_at(tag), s.skip(2)) {
                Err(e) => Err(e),
                Ok((i, n)) => Ok((i, 2 + n)),
            }
        },
    }
}

/// `parse_instruction` as a value, for lists of instructions.
pub open spec fn instruction_parser() -> spec_fn(Seq<u8>) -> Decoded<InstructionView> {
    |s: Seq<u8>| parse_instruction(s)
}

/// What each instruction denotes.
pub open spec fn instructions_view(v: Seq<Instruction>) -> Seq<InstructionView> {
    v.map_values(|x: Instruction| x@)
}

/// A program: a `u32` count, then that many instructions.
pub open spec fn parse_program(s: Seq<u8>) -> Decoded<(u32, Seq<InstructionView>)> {
    match parse_u32(s) {
        Err(e) => Err(e),
        Ok((count, _)) => match parse_many(instruction_parser(), s.skip(4), count as nat) {
            Err(e) => Err(e),
            Ok((is, n)) => Ok(((count, is), 4 + n)),
        },
    }
}

/// Reads the callee of a call.
fn read_callee(bytes: &mut ByteCode) -> (r: Result<Locator, FormatError>)
    requires
        old(bytes).wf(),
    ensures
        reads_as(parse_callee(old(bytes).rest()), r, |x: Locator| x@, *old(bytes), *final(bytes)),
{
    reveal(parse_external);
    reveal(parse_callee);
    let kind = bytes.read_u8()?;
    proof {
        lemma_advance(*old(bytes), *bytes);
    }
    if kind == 1 {
        Ok(Locator::Internal(read_identifier(bytes)?))
    } else {
        Ok(Locator::External(read_locator(bytes)?))
    }
}

/// Reads `k` registers in order.
fn read_registers(bytes: &mut ByteCode, k: u8) -> (r: Result<Vec<Register>, FormatError>)
    requires
        old(bytes).wf(),
    ensures
        reads_as(
            parse_many(register_parser(), old(bytes).rest(), k as nat),
            r,
            |v: Vec<Register>| registers_view(v@),
            *old(bytes),
            *final(bytes),
        ),
{
    let ghost s0 = bytes.rest();
    let ghost p0 = bytes.position();
    let ghost d0 = bytes.data();
    let mut out: Vec<Register> = Vec::new();
    let mut i: u8 = 0;
    assert(registers_view(out@) =~= seq![]);
    while i < k
        invariant
            bytes.wf(),
            bytes.data() == d0,
            s0 == d0.subrange(p0, d0.len() as int),
            d0 == old(bytes).data(),
            p0 == old(bytes).position(),
            0 <= p0 <= bytes.position(),
            i <= k,
            parse_many(register_parser(), s0, i as nat) == Ok::<(Seq<RegisterView>, nat), FormatError>(
                (registers_view(out@), (bytes.position() - p0) as nat),
            ),
        decreases k - i,
    {
        assert(bytes.rest() =~= s0.skip(bytes.position() - p0));
        let ghost prev = out@;
        let ghost before = *bytes;
        match Register::read(bytes) {
            Ok(x) => {
                out.push(x);
                assert(registers_view(out@) =~= registers_view(prev).push(x@));
            },
            Err(e) => {
                proof {
                    assert(register_parser()(before.rest()) == parse_register(before.rest()));
                    lemma_parse_many_err(register_parser(), s0, (i + 1) as nat, k as nat);
                }
                return Err(e);
            },
        }
        i = i + 1;
    }
    Ok(out)
}

impl Instruction {
    /// Reads `n` operands in order; `None` when `n` is zero.
    fn read_operands(bytes: &mut ByteCode, k: u8) -> (r: Result<Option<Vec<Operand>>, FormatError>)
        requires
            old(bytes).wf(),
        ensures
            reads_as(
                parse_operands(old(bytes).rest(), k as nat),
                r,
                |o: Option<Vec<Operand>>| operand_list_view(o),
                *old(bytes),
                *final(bytes),
            ),
    {
        reveal(parse_operands);
        if k == 0 {
            return Ok(None);
        }
        let ghost s0 = bytes.rest();
        let ghost p0 = bytes.position();
        let ghost d0 = bytes.data();
        let mut out: Vec<Operand> = Vec::new();
        let mut i: u8 = 0;
        assert(operands_view(out@) =~= seq![]);
        while i < k
            invariant
                bytes.wf(),
                bytes.data() == d0,
                s0 == d0.subrange(p0, d0.len() as int),
                d0 == old(bytes).data(),
                p0 == old(bytes).position(),
                0 <= p0 <= bytes.position(),
                i <= k,
                parse_many(operand_parser(), s0, i as nat) == Ok::<(Seq<OperandView>, nat), FormatError>(
                    (operands_view(out@), (bytes.position() - p0) as nat),
                ),
            decreases k - i,
        {
            assert(bytes.rest() =~= s0.skip(bytes.position() - p0));
            let ghost prev = out@;
            let ghost before = *bytes;
            match Operand::read(bytes) {
                Ok(x) => {
                    out.push(x);
                    assert(operands_view(out@) =~= operands_view(prev).push(x@));
                },
                Err(e) => {
                    proof {
                        assert(operand_parser()(before.rest()) == parse_operand(before.rest()));
                        assert(parse_many(operand_parser(), s0, (i + 1) as nat) == Err::<
                            (Seq<OperandView>, nat),
                            FormatError,
                        >(e));
                        reveal(parse_operands);
                        lemma_parse_many_err(operand_parser(), s0, (i + 1) as nat, k as nat);
                    }
                    return Err(e);
                },
            }
            i = i + 1;
        }
        Ok(Some(out))
    }

    /// Reads the body of a call: the callee, the inputs and the output registers.
    fn read_call_instruction(bytes: &mut ByteCode) -> (r: Result<Instruction, FormatError>)
        requires
            old(bytes).wf(),
        ensures
            reads_as(parse_call(old(bytes).rest()), r, |x: Instruction| x@, *old(bytes), *final(bytes)),
    {
        let callee = read_callee(bytes)?;
        proof {
            lemma_advance(*old(bytes), *bytes);
        }
        let num_inputs = bytes.read_u8()?;
        proof {
            lemma_advance(*old(bytes), *bytes);
        }
        let operands = Self::read_operands(bytes, num_inputs)?;
        proof {
            lemma_advance(*old(bytes), *bytes);
        }
        let num_outputs = bytes.read_u8()?;
        proof {
            lemma_advance(*old(bytes), *bytes);
        }
        let outputs = read_registers(bytes, num_outputs)?;
        Ok(Instruction { opcode: Opcode::Call, callee: Some(callee), operands, output: Output::Multiple(outputs) })
    }

    /// Reads the body of an instruction with two operands and no output.
    fn read_assert_instruction(bytes: &mut ByteCode, opcode: Opcode) -> (r: Result<Instruction, FormatError>)
        requires
            old(bytes).wf(),
        ensures
            reads_as(
                parse_fixed(opcode, old(bytes).rest(), 2, false),
                r,
                |x: Instruction| x@,
                *old(bytes),
                *final(bytes),
            ),
    {
        let operands = Self::read_operands(bytes, 2)?;
        Ok(Instruction { opcode, callee: None, operands, output: Output::Empty })
    }

    /// Reads the body of an instruction with three operands and an output register.
    fn read_ternary_instruction(bytes: &mut ByteCode, opcode: Opcode) -> (r: Result<Instruction, FormatError>)
        requires
            old(bytes).wf(),
        ensures
            reads_as(
                parse_fixed(opcode, old(bytes).rest(), 3, true),
                r,
                |x: Instruction| x@,
                *old(bytes),
                *final(bytes),
            ),
    {
        let operands = Self::read_operands(bytes, 3)?;
        proof {
            lemma_advance(*old(bytes), *bytes);
        }
        let output = Register::read(bytes)?;
        Ok(Instruction { opcode, callee: None, operands, output: Output::Single(output) })
    }

    /// Reads the body of an instruction with one operand and an output register.
    fn read_unary_instruction(bytes: &mut ByteCode, opcode: Opcode) -> (r: Result<Instruction, FormatError>)
        requires
            old(bytes).wf(),
        ensures
            reads_as(
                parse_fixed(opcode, old(bytes).rest(), 1, true),
                r,
                |x: Instruction| x@,
                *old(bytes),
                *final(bytes),
            ),
    {
        let operands = Self::read_operands(bytes, 1)?;
        proof {
            lemma_advance(*old(bytes), *bytes);
        }
        let output = Register::read(bytes)?;
        Ok(Instruction { opcode, callee: None, operands, output: Output::Single(output) })
    }

    /// Reads the body of an instruction with two operands and an output register.
    fn read_binary_instruction(bytes: &mut ByteCode, opcode: Opcode) -> (r: Result<Instruction, FormatError>)
        requires
            old(bytes).wf(),
        ensures
            reads_as(
                parse_fixed(opcode, old(bytes).rest(), 2, true),
                r,
                |x: Instruction| x@,
                *old(bytes),
                *final(bytes),
            ),
    {
        let operands = Self::read_operands(bytes, 2)?;
        proof {
            lemma_advance(*old(bytes), *bytes);
        }
        let output = Register::read(bytes)?;
        Ok(Instruction { opcode, callee: None, operands, output: Output::Single(output) })
    }

    /// Reads one instruction: its opcode tag, then the body that the opcode's shape asks
    /// for. A tag past the opcode table fails right after the tag.
    pub fn read(bytes: &mut ByteCode) -> (r: Result<Instruction, FormatError>)
        requires
            old(bytes).wf(),
        ensures
            reads_as(parse_instruction(old(bytes).rest()), r, |x: Instruction| x@, *old(bytes), *final(bytes)),
            (parse_u16(old(bytes).rest()) matches Ok((t, _)) && t > LAST_OPCODE_TAG) ==> final(bytes).position()
                == old(bytes).position() + 2,
    {
        reveal(parse_instruction);
        let tag = bytes.read_u16()?;
        let opcode = decode_opcode(tag)?;
        proof {
            lemma_advance(*old(bytes), *bytes);
        }
        match classify(opcode) {
            Shape::Call => Self::read_call_instruction(bytes),
            Shape::Ternary => Self::read_ternary_instruction(bytes, opcode),
            Shape::Assert => Self::read_assert_instruction(bytes, opcode),
            Shape::Unary => Self::read_unary_instruction(bytes, opcode),
            Shape::Binary => Self::read_binary_instruction(bytes, opcode),
        }
    }

    /// Reads a program: a `u32` count, then that many instructions. Any failure fails
    /// the whole program; on success the count equals the number of instructions.
    pub fn read_instructions(bytes: &mut ByteCode) -> (r: Result<(u32, Vec<Instruction>), FormatError>)
        requires
            old(bytes).wf(),
        ensures
            reads_as(
                parse_program(old(bytes).rest()),
                r,
                |p: (u32, Vec<Instruction>)| (p.0, instructions_view(p.1@)),
                *old(bytes),
                *final(bytes),
            ),
            r matches Ok((count, v)) ==> v.len() == count,
    {
        let num = bytes.read_u32()?;
        proof {
            lemma_advance(*old(bytes), *bytes);
        }
        let ghost s0 = bytes.rest();
        let ghost p0 = bytes.position();
        let ghost d0 = bytes.data();
        let mut out: Vec<Instruction> = Vec::new();
        let mut i: u32 = 0;
        assert(instructions_view(out@) =~= seq![]);
        while i < num
            invariant
                bytes.wf(),
                bytes.data() == d0,
                s0 == d0.subrange(p0, d0.len() as int),
                s0 == old(bytes).rest().skip(4),
                parse_u32(old(bytes).rest()) == Ok::<(u32, nat), FormatError>((num, 4)),
                d0 == old(bytes).data(),
                p0 == old(bytes).position() + 4,
                0 <= p0 <= bytes.position(),
                i <= num,
                out.len() == i,
                parse_many(instruction_parser(), s0, i as nat) == Ok::<(Seq<InstructionView>, nat), FormatError>(
                    (instructions_view(out@), (bytes.position() - p0) as nat),
                ),
            decreases num - i,
        {
            assert(bytes.rest() =~= s0.skip(bytes.position() - p0));
            let ghost prev = out@;
            let ghost before = *bytes;
            match Self::read(bytes) {
                Ok(x) => {
                    out.push(x);
                    assert(instructions_view(out@) =~= instructions_view(prev).push(x@));
                },
                Err(e) => {
                    proof {
                        assert(instruction_parser()(before.rest()) == parse_instruction(before.rest()));
                        assert(parse_many(instruction_parser(), s0, (i + 1) as nat) == Err::<
                            (Seq<InstructionView>, nat),
                            FormatError,
                        >(e));
                        lemma_parse_many_err(instruction_parser(), s0, (i + 1) as nat, num as nat);
                    }
                    return Err(e);
                },
            }
            i = i + 1;
        }
        Ok((num, out))
    }

    /// The operation.
    pub fn opcode(&self) -> (r: Opcode)
        ensures
            r == self@.opcode,
    {
        self.opcode
    }

    /// The function a call invokes; `None` for every other instruction.
    pub fn callee(&self) -> (r: &Option<Locator>)
        ensures
            callee_view(*r) == self@.callee,
    {
        &self.callee
    }

    /// The operands, in order; `None` when there are none.
    pub fn operands(&self) -> (r: &Option<Vec<Operand>>)
        ensures
            operand_list_view(*r) == self@.operands,
    {
        &self.operands
    }

    /// Where the result goes.
    pub fn output(&self) -> (r: &Output)
        ensures
            r@ == self@.output,
    {
        &self.output
    }
}

} // verus!
