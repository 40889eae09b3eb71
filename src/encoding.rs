use vstd::prelude::*;
use vstd::utf8::{encode_utf8, encode_utf8_valid_utf8, encode_utf8_decode_utf8};

verus! {

use crate::cursor::{Decoded, parse_many, parse_u16, parse_u32};
use crate::error::FormatError;
use crate::instructions::{
    InstructionView,
    LocatorView,
    OperandView,
    OutputView,
    operand_parser,
    parse_body,
    parse_call,
    parse_callee,
    parse_fixed,
    parse_external,
    parse_instruction,
    parse_operand,
    parse_operands,
};
use crate::opcode::{Opcode, Shape, lemma_opcode_table_bijective, lemma_shapes_partition, opcode_index, shape_of};
use crate::values::{Literal, RegisterView, parse_identifier, identifier_parser, parse_literal, parse_register, register_parser};

/// Two bytes, least significant first.
pub open spec fn encode_u16(v: u16) -> Seq<u8> {
    seq![(v % 0x100) as u8, (v / 0x100) as u8]
}

/// Four bytes, least significant first.
pub open spec fn encode_u32(v: u32) -> Seq<u8> {
    seq![
        (v % 0x100) as u8,
        ((v / 0x100) % 0x100) as u8,
        ((v / 0x1_0000) % 0x100) as u8,
        (v / 0x100_0000) as u8,
    ]
}

/// An identifier can be written when its UTF-8 form fits a length byte.
pub open spec fn wf_identifier(c: Seq<char>) -> bool {
    encode_utf8(c).len() <= 0xff
}

/// A length byte, then the UTF-8 form.
pub open spec fn encode_identifier(c: Seq<char>) -> Seq<u8> {
    seq![encode_utf8(c).len() as u8] + encode_utf8(c)
}

/// `encode_identifier` as a value, for lists of identifiers.
pub open spec fn identifier_encoder() -> spec_fn(Seq<char>) -> Seq<u8> {
    |c: Seq<char>| encode_identifier(c)
}

/// Values written one after another, in order.
pub open spec fn encode_many<T>(e: spec_fn(T) -> Seq<u8>, xs: Seq<T>) -> Seq<u8>
    decreases xs.len(),
{
    if xs.len() == 0 {
        seq![]
    } else {
        encode_many(e, xs.drop_last()) + e(xs.last())
    }
}

/// Whatever follows a value's bytes is left alone when the value is decoded.
pub open spec fn decodes_back<T>(p: spec_fn(Seq<u8>) -> Decoded<T>, e: spec_fn(T) -> Seq<u8>, x: T) -> bool {
    forall|rest: Seq<u8>| #[trigger] p(e(x) + rest) == Ok::<(T, nat), FormatError>((x, e(x).len()))
}

/// A `u16` decodes back from its two bytes.
pub proof fn lemma_u16_round_trip(v: u16, rest: Seq<u8>)
    ensures
        parse_u16(encode_u16(v) + rest) == Ok::<(u16, nat), FormatError>((v, 2)),
{
    let s = encode_u16(v) + rest;
    assert(s[0] == (v % 0x100) as u8);
    assert(s[1] == (v / 0x100) as u8);
    assert((v % 0x100) + (v / 0x100) * 0x100 == v) by (nonlinear_arith);
}

/// A `u32` decodes back from its four bytes.
pub proof fn lemma_u32_round_trip(v: u32, rest: Seq<u8>)
    ensures
        parse_u32(encode_u32(v) + rest) == Ok::<(u32, nat), FormatError>((v, 4)),
{
    let s = encode_u32(v) + rest;
    assert(s[0] == (v % 0x100) as u8);
    assert(s[1] == ((v / 0x100) % 0x100) as u8);
    assert(s[2] == ((v / 0x1_0000) % 0x100) as u8);
    assert(s[3] == (v / 0x100_0000) as u8);
    assert((v % 0x100) + ((v / 0x100) % 0x100) * 0x100 + ((v / 0x1_0000) % 0x100) * 0x1_0000 + (v / 0x100_0000)
        * 0x100_0000 == v) by (nonlinear_arith);
}

/// An identifier that can be written decodes back from its bytes.
pub proof fn lemma_identifier_round_trip(c: Seq<char>, rest: Seq<u8>)
    requires
        wf_identifier(c),
    ensures
        parse_identifier(encode_identifier(c) + rest) == Ok::<(Seq<char>, nat), FormatError>(
            (c, encode_identifier(c).len()),
        ),
{
    let b = encode_utf8(c);
    let s = encode_identifier(c) + rest;
    assert(s[0] == b.len());
    assert(s.subrange(1, 1 + b.len() as int) =~= b);
    encode_utf8_valid_utf8(c);
    encode_utf8_decode_utf8(c);
}

/// Values that each decode back from their bytes decode back together, in order.
pub proof fn lemma_many_round_trip<T>(
    p: spec_fn(Seq<u8>) -> Decoded<T>,
    e: spec_fn(T) -> Seq<u8>,
    xs: Seq<T>,
    rest: Seq<u8>,
)
    requires
        forall|i: int| 0 <= i < xs.len() ==> decodes_back(p, e, #[trigger] xs[i]),
    ensures
        parse_many(p, encode_many(e, xs) + rest, xs.len()) == Ok::<(Seq<T>, nat), FormatError>(
            (xs, encode_many(e, xs).len()),
        ),
    decreases xs.len(),
{
    if xs.len() == 0 {
        assert(xs =~= seq![]);
    } else {
        let dl = xs.drop_last();
        let x = xs.last();
        let a = encode_many(e, dl);
        let s = encode_many(e, xs) + rest;
        assert(s =~= a + (e(x) + rest));
        assert forall|i: int| 0 <= i < dl.len() implies decodes_back(p, e, #[trigger] dl[i]) by {
            assert(dl[i] == xs[i]);
        }
        lemma_many_round_trip(p, e, dl, e(x) + rest);
        assert(s.skip(a.len() as int) =~= e(x) + rest);
        assert(decodes_back(p, e, xs[xs.len() - 1]));
        assert(p(e(x) + rest) == Ok::<(T, nat), FormatError>((x, e(x).len())));
        assert(dl.push(x) =~= xs);
    }
}

/// A type byte, then the value.
pub open spec fn encode_literal(l: Literal) -> Seq<u8> {
    match l {
        Literal::Boolean(b) => seq![0u8, if b { 1u8 } else { 0u8 }],
        Literal::U8(v) => seq![1u8, v],
        Literal::U16(v) => seq![2u8] + encode_u16(v),
        Literal::U32(v) => seq![3u8] + encode_u32(v),
    }
}

/// A literal decodes back from its bytes.
pub proof fn lemma_literal_round_trip(l: Literal, rest: Seq<u8>)
    ensures
        parse_literal(encode_literal(l) + rest) == Ok::<(Literal, nat), FormatError>((l, encode_literal(l).len())),
{
    reveal(parse_literal);
    let s = encode_literal(l) + rest;
    match l {
        Literal::U16(v) => {
            assert(s.skip(1) =~= encode_u16(v) + rest);
            lemma_u16_round_trip(v, rest);
        },
        Literal::U32(v) => {
            assert(s.skip(1) =~= encode_u32(v) + rest);
            lemma_u32_round_trip(v, rest);
        },
        _ => {
            assert(s.skip(1)[0] == s[1]);
        },
    }
}

/// Every identifier on a member path can be written, and so can their count.
pub open spec fn wf_register(r: RegisterView) -> bool {
    match r {
        RegisterView::Locator(_) => true,
        RegisterView::Member(_, path) => path.len() <= 0xff && forall|i: int|
            0 <= i < path.len() ==> wf_identifier(#[trigger] path[i]),
    }
}

/// A kind byte, the register's number, and for a member access the path's length
/// and identifiers.
pub open spec fn encode_register(r: RegisterView) -> Seq<u8> {
    match r {
        RegisterView::Locator(l) => seq![0u8] + encode_u32(l),
        RegisterView::Member(l, path) => seq![1u8] + encode_u32(l) + seq![path.len() as u8] + encode_many(
            identifier_encoder(),
            path,
        ),
    }
}

/// `encode_register` as a value, for lists of registers.
pub open spec fn register_encoder() -> spec_fn(RegisterView) -> Seq<u8> {
    |r: RegisterView| encode_register(r)
}

/// An identifier that can be written decodes back whatever follows it.
pub proof fn lemma_identifier_decodes_back(c: Seq<char>)
    requires
        wf_identifier(c),
    ensures
        decodes_back(identifier_parser(), identifier_encoder(), c),
{
    assert forall|rest: Seq<u8>|
        #[trigger] identifier_parser()(identifier_encoder()(c) + rest) == Ok::<(Seq<char>, nat), FormatError>(
            (c, identifier_encoder()(c).len()),
        ) by {
        lemma_identifier_round_trip(c, rest);
    }
}

/// A register reference that can be written decodes back from its bytes.
pub proof fn lemma_register_round_trip(r: RegisterView, rest: Seq<u8>)
    requires
        wf_register(r),
    ensures
        parse_register(encode_register(r) + rest) == Ok::<(RegisterView, nat), FormatError>(
            (r, encode_register(r).len()),
        ),
{
    reveal(parse_register);
    let s = encode_register(r) + rest;
    match r {
        RegisterView::Locator(l) => {
            assert(s.skip(1) =~= encode_u32(l) + rest);
            lemma_u32_round_trip(l, rest);
        },
        RegisterView::Member(l, path) => {
            let ids = encode_many(identifier_encoder(), path);
            assert(s.skip(1) =~= encode_u32(l) + (seq![path.len() as u8] + ids + rest));
            lemma_u32_round_trip(l, seq![path.len() as u8] + ids + rest);
            assert(s.skip(5) =~= seq![path.len() as u8] + (ids + rest));
            assert(s.skip(6) =~= ids + rest);
            assert forall|i: int| 0 <= i < path.len() implies decodes_back(
                identifier_parser(),
                identifier_encoder(),
                #[trigger] path[i],
            ) by {
                lemma_identifier_decodes_back(path[i]);
            }
            lemma_many_round_trip(identifier_parser(), identifier_encoder(), path, rest);
        },
    }
}

/// Each part of a locator can be written.
pub open spec fn wf_locator(l: LocatorView) -> bool {
    match l {
        LocatorView::Internal(n) => wf_identifier(n),
        LocatorView::External(a, b, c) => wf_identifier(a) && wf_identifier(b) && wf_identifier(c),
    }
}

/// The three identifiers of an external locator, in turn.
pub open spec fn encode_external(a: Seq<char>, b: Seq<char>, c: Seq<char>) -> Seq<u8> {
    encode_identifier(a) + (encode_identifier(b) + encode_identifier(c))
}

/// An external locator whose parts can be written decodes back from its bytes.
pub proof fn lemma_external_round_trip(a: Seq<char>, b: Seq<char>, c: Seq<char>, rest: Seq<u8>)
    requires
        wf_identifier(a),
        wf_identifier(b),
        wf_identifier(c),
    ensures
        parse_external(encode_external(a, b, c) + rest) == Ok::<(LocatorView, nat), FormatError>(
            (LocatorView::External(a, b, c), encode_external(a, b, c).len()),
        ),
{
    reveal(parse_external);
    let (ea, eb, ec) = (encode_identifier(a), encode_identifier(b), encode_identifier(c));
    let s = encode_external(a, b, c) + rest;
    assert(s =~= ea + (eb + (ec + rest)));
    lemma_identifier_round_trip(a, eb + (ec + rest));
    assert(s.skip(ea.len() as int) =~= eb + (ec + rest));
    lemma_identifier_round_trip(b, ec + rest);
    assert(s.skip((ea.len() + eb.len()) as int) =~= ec + rest);
    lemma_identifier_round_trip(c, rest);
}

/// An operand can be written: its parts can, and a locator in operand position is
/// external.
pub open spec fn wf_operand(o: OperandView) -> bool {
    match o {
        OperandView::Register(r) => wf_register(r),
        OperandView::ProgramId(l) => l is External && wf_locator(l),
        _ => true,
    }
}

/// A tag byte, then the payload.
pub open spec fn encode_operand(o: OperandView) -> Seq<u8> {
    match o {
        OperandView::Literal(l) => seq![0u8] + encode_literal(l),
        OperandView::Register(r) => seq![1u8] + encode_register(r),
        OperandView::ProgramId(LocatorView::External(a, b, c)) => seq![2u8] + encode_external(a, b, c),
        OperandView::ProgramId(LocatorView::Internal(_)) => seq![],
        OperandView::Caller => seq![3u8],
    }
}

/// `encode_operand` as a value, for lists of operands.
pub open spec fn operand_encoder() -> spec_fn(OperandView) -> Seq<u8> {
    |o: OperandView| encode_operand(o)
}

/// An operand that can be written decodes back from its bytes.
pub proof fn lemma_operand_round_trip(o: OperandView, rest: Seq<u8>)
    requires
        wf_operand(o),
    ensures
        parse_operand(encode_operand(o) + rest) == Ok::<(OperandView, nat), FormatError>(
            (o, encode_operand(o).len()),
        ),
{
    let s = encode_operand(o) + rest;
    match o {
        OperandView::Literal(l) => {
            assert(s.skip(1) =~= encode_literal(l) + rest);
            lemma_literal_round_trip(l, rest);
        },
        OperandView::Register(r) => {
            assert(s.skip(1) =~= encode_register(r) + rest);
            lemma_register_round_trip(r, rest);
        },
        OperandView::ProgramId(LocatorView::External(a, b, c)) => {
            assert(s.skip(1) =~= encode_external(a, b, c) + rest);
            lemma_external_round_trip(a, b, c, rest);
        },
        _ => {},
    }
}

/// How many operands a list holds.
pub open spec fn input_count(ops: Option<Seq<OperandView>>) -> nat {
    match ops {
        Some(xs) => xs.len(),
        None => 0,
    }
}

/// `n` operands that can be written; no list at all when `n` is zero.
pub open spec fn wf_operand_list(ops: Option<Seq<OperandView>>, n: nat) -> bool {
    if n == 0 {
        ops is None
    } else {
        ops matches Some(xs) && xs.len() == n && forall|i: int| 0 <= i < xs.len() ==> wf_operand(#[trigger] xs[i])
    }
}

/// The operands one after another; nothing when there are none.
pub open spec fn encode_operand_list(ops: Option<Seq<OperandView>>) -> Seq<u8> {
    match ops {
        Some(xs) => encode_many(operand_encoder(), xs),
        None => seq![],
    }
}

/// An operand list that can be written decodes back from its bytes.
pub proof fn lemma_operand_list_round_trip(ops: Option<Seq<OperandView>>, n: nat, rest: Seq<u8>)
    requires
        wf_operand_list(ops, n),
    ensures
        parse_operands(encode_operand_list(ops) + rest, n) == Ok::<(Option<Seq<OperandView>>, nat), FormatError>(
            (ops, encode_operand_list(ops).len()),
        ),
{
    reveal(parse_operands);
    if n == 0 {
        assert(encode_operand_list(ops).len() == 0);
    } else {
        let xs = ops->Some_0;
        assert forall|i: int| 0 <= i < xs.len() implies decodes_back(
            operand_parser(),
            operand_encoder(),
            #[trigger] xs[i],
        ) by {
            assert forall|rest2: Seq<u8>|
                #[trigger] operand_parser()(operand_encoder()(xs[i]) + rest2) == Ok::<(OperandView, nat), FormatError>(
                    (xs[i], operand_encoder()(xs[i]).len()),
                ) by {
                lemma_operand_round_trip(xs[i], rest2);
            }
        }
        lemma_many_round_trip(operand_parser(), operand_encoder(), xs, rest);
    }
}

/// Register references that can be written each decode back whatever follows them.
pub proof fn lemma_registers_decode_back(regs: Seq<RegisterView>)
    requires
        forall|i: int| 0 <= i < regs.len() ==> wf_register(#[trigger] regs[i]),
    ensures
        forall|i: int| 0 <= i < regs.len() ==> decodes_back(register_parser(), register_encoder(), #[trigger] regs[i]),
{
    assert forall|i: int| 0 <= i < regs.len() implies decodes_back(
        register_parser(),
        register_encoder(),
        #[trigger] regs[i],
    ) by {
        assert forall|rest: Seq<u8>|
            #[trigger] register_parser()(register_encoder()(regs[i]) + rest) == Ok::<(RegisterView, nat), FormatError>(
                (regs[i], register_encoder()(regs[i]).len()),
            ) by {
            lemma_register_round_trip(regs[i], rest);
        }
    }
}

/// One output register that can be written.
pub open spec fn wf_single_output(o: OutputView) -> bool {
    o matches OutputView::Single(r) && wf_register(r)
}

/// An instruction can be written: it has the callee, operands and output that its
/// opcode's shape asks for, and each part can be written.
pub open spec fn wf_instruction(i: InstructionView) -> bool {
    match shape_of(i.opcode) {
        Shape::Call => {
            &&& i.callee matches Some(l) && wf_locator(l)
            &&& input_count(i.operands) <= 0xff
            &&& wf_operand_list(i.operands, input_count(i.operands))
            &&& i.output matches OutputView::Multiple(regs) && regs.len() <= 0xff && forall|j: int|
                0 <= j < regs.len() ==> wf_register(#[trigger] regs[j])
        },
        Shape::Ternary => i.callee is None && wf_operand_list(i.operands, 3) && wf_single_output(i.output),
        Shape::Assert => i.callee is None && wf_operand_list(i.operands, 2) && i.output is Empty,
        Shape::Unary => i.callee is None && wf_operand_list(i.operands, 1) && wf_single_output(i.output),
        Shape::Binary => i.callee is None && wf_operand_list(i.operands, 2) && wf_single_output(i.output),
    }
}

/// A callee: kind 1 and an identifier for an internal one, kind 0 and three
/// identifiers for an external one.
pub open spec fn encode_callee(l: LocatorView) -> Seq<u8> {
    match l {
        LocatorView::Internal(n) => seq![1u8] + encode_identifier(n),
        LocatorView::External(a, b, c) => seq![0u8] + encode_external(a, b, c),
    }
}

/// The output registers of an instruction: one register, or a count byte and that
/// many registers, or nothing.
pub open spec fn encode_output(o: OutputView) -> Seq<u8> {
    match o {
        OutputView::Single(r) => encode_register(r),
        OutputView::Multiple(regs) => seq![regs.len() as u8] + encode_many(register_encoder(), regs),
        OutputView::Empty => seq![],
    }
}

/// What follows the opcode tag.
pub open spec fn encode_body(i: InstructionView) -> Seq<u8> {
    if shape_of(i.opcode) == Shape::Call {
        let callee = match i.callee {
            Some(l) => encode_callee(l),
            None => seq![],
        };
        callee + (seq![input_count(i.operands) as u8] + (encode_operand_list(i.operands) + encode_output(i.output)))
    } else {
        encode_body_fixed(i)
    }
}

/// The body of an instruction with a fixed number of operands.
pub open spec fn encode_body_fixed(i: InstructionView) -> Seq<u8> {
    encode_operand_list(i.operands) + encode_output(i.output)
}

/// The bytes of an instruction: its opcode's tag, then its body.
pub open spec fn encode_instruction(i: InstructionView) -> Seq<u8> {
    encode_u16(opcode_index(i.opcode)) + encode_body(i)
}

/// A callee that can be written decodes back from its bytes.
pub proof fn lemma_callee_round_trip(l: LocatorView, rest: Seq<u8>)
    requires
        wf_locator(l),
    ensures
        parse_callee(encode_callee(l) + rest) == Ok::<(LocatorView, nat), FormatError>((l, encode_callee(l).len())),
{
    reveal(parse_external);
    reveal(parse_callee);
    let s = encode_callee(l) + rest;
    match l {
        LocatorView::Internal(n) => {
            assert(s.skip(1) =~= encode_identifier(n) + rest);
            lemma_identifier_round_trip(n, rest);
        },
        LocatorView::External(a, b, c) => {
            assert(s.skip(1) =~= encode_external(a, b, c) + rest);
            lemma_external_round_trip(a, b, c, rest);
        },
    }
}

/// The body of a call that can be written decodes back from its bytes.
proof fn lemma_call_round_trip(i: InstructionView, rest: Seq<u8>)
    requires
        i.opcode == Opcode::Call,
        i.callee matches Some(l) && wf_locator(l),
        input_count(i.operands) <= 0xff,
        wf_operand_list(i.operands, input_count(i.operands)),
        i.output matches OutputView::Multiple(regs) && regs.len() <= 0xff && forall|j: int|
            0 <= j < regs.len() ==> wf_register(#[trigger] regs[j]),
    ensures
        parse_call(encode_body(i) + rest) == Ok::<(InstructionView, nat), FormatError>((i, encode_body(i).len())),
{
    let s = encode_body(i) + rest;
    let ob = encode_operand_list(i.operands);
    let l = i.callee->Some_0;
    let regs = i.output->Multiple_0;
    let cb = encode_callee(l);
    let rb = encode_many(register_encoder(), regs);
    let n_in = input_count(i.operands);
    let after_callee = seq![n_in as u8] + (ob + (seq![regs.len() as u8] + (rb + rest)));
    assert(s =~= cb + after_callee);
    lemma_callee_round_trip(l, after_callee);
    assert(s.skip(cb.len() as int) =~= after_callee);
    assert(s.skip((cb.len() + 1) as int) =~= ob + (seq![regs.len() as u8] + (rb + rest)));
    lemma_operand_list_round_trip(i.operands, n_in, seq![regs.len() as u8] + (rb + rest));
    assert(s.skip((cb.len() + 1 + ob.len()) as int) =~= seq![regs.len() as u8] + (rb + rest));
    assert(s.skip((cb.len() + 2 + ob.len()) as int) =~= rb + rest);
    lemma_registers_decode_back(regs);
    lemma_many_round_trip(register_parser(), register_encoder(), regs, rest);
}

/// The body of an instruction with `n` operands that can be written decodes back
/// from its bytes.
proof fn lemma_fixed_round_trip(i: InstructionView, n: nat, has_output: bool, rest: Seq<u8>)
    requires
        i.callee is None,
        wf_operand_list(i.operands, n),
        has_output ==> wf_single_output(i.output),
        !has_output ==> i.output is Empty,
    ensures
        parse_fixed(i.opcode, encode_body_fixed(i) + rest, n, has_output) == Ok::<(InstructionView, nat), FormatError>(
            (i, encode_body_fixed(i).len()),
        ),
{
    let ob = encode_operand_list(i.operands);
    let outb = encode_output(i.output);
    let s = encode_body_fixed(i) + rest;
    assert(s =~= ob + (outb + rest));
    lemma_operand_list_round_trip(i.operands, n, outb + rest);
    assert(s.skip(ob.len() as int) =~= outb + rest);
    if has_output {
        lemma_register_round_trip(i.output->Single_0, rest);
    }
}

/// The body of an instruction that can be written decodes back from its bytes.
proof fn lemma_body_round_trip(i: InstructionView, rest: Seq<u8>)
    requires
        wf_instruction(i),
    ensures
        parse_body(i.opcode, encode_body(i) + rest) == Ok::<(InstructionView, nat), FormatError>(
            (i, encode_body(i).len()),
        ),
{
    lemma_shapes_partition(i.opcode);
    match shape_of(i.opcode) {
        Shape::Call => lemma_call_round_trip(i, rest),
        Shape::Ternary => lemma_fixed_round_trip(i, 3, true, rest),
        Shape::Assert => lemma_fixed_round_trip(i, 2, false, rest),
        Shape::Unary => lemma_fixed_round_trip(i, 1, true, rest),
        Shape::Binary => lemma_fixed_round_trip(i, 2, true, rest),
    }
}

/// Decoding the bytes of any instruction that can be written gives that instruction
/// back and consumes exactly its bytes, whatever follows them.
pub proof fn lemma_instruction_round_trip(i: InstructionView, rest: Seq<u8>)
    requires
        wf_instruction(i),
    ensures
        parse_instruction(encode_instruction(i) + rest) == Ok::<(InstructionView, nat), FormatError>(
            (i, encode_instruction(i).len()),
        ),
{
    reveal(parse_instruction);
    let b = encode_body(i);
    let s = encode_instruction(i) + rest;
    assert(s =~= encode_u16(opcode_index(i.opcode)) + (b + rest));
    lemma_u16_round_trip(opcode_index(i.opcode), b + rest);
    lemma_opcode_table_bijective();
    assert(s.skip(2) =~= b + rest);
    lemma_body_round_trip(i, rest);
}

} // verus!
