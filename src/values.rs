use vstd::prelude::*;
use vstd::utf8::{decode_utf8, valid_utf8};

verus! {

use crate::cursor::{ByteCode, Decoded, parse_many, parse_u8, parse_u16, parse_u32, reads_as, lemma_parse_many_err, lemma_advance};
use crate::error::FormatError;

/// An identifier: a length byte, then that many bytes of UTF-8.
pub open spec fn parse_identifier(s: Seq<u8>) -> Decoded<Seq<char>> {
    if s.len() < 1 || s.len() < 1 + s[0] {
        Err(FormatError::TruncatedInput)
    } else {
        let b = s.subrange(1, 1 + s[0]);
        if valid_utf8(b) {
            Ok((decode_utf8(b), (1 + s[0]) as nat))
        } else {
            Err(FormatError::InvalidIdentifier)
        }
    }
}

/// `parse_identifier` as a value, for lists of identifiers.
pub open spec fn identifier_parser() -> spec_fn(Seq<u8>) -> Decoded<Seq<char>> {
    |s: Seq<u8>| parse_identifier(s)
}

/// Relies on `String::from_utf8`: it succeeds exactly on valid UTF-8, and the string
/// then holds the characters that the bytes encode.
#[verifier::external_body]
fn string_from_utf8(b: Vec<u8>) -> (r: Option<String>)
    ensures
        r is Some <==> valid_utf8(b@),
        r matches Some(s) ==> s@ == decode_utf8(b@),
{
    String::from_utf8(b).ok()
}

/// Reads one identifier.
pub fn read_identifier(bytes: &mut ByteCode) -> (r: Result<String, FormatError>)
    requires
        old(bytes).wf(),
    ensures
        reads_as(parse_identifier(old(bytes).rest()), r, |x: String| x@, *old(bytes), *final(bytes)),
{
    let n = bytes.read_u8()?;
    let b = bytes.read_bytes(n as usize)?;
    proof {
        let s = old(bytes).rest();
        assert(b@ =~= s.subrange(1, 1 + n));
    }
    match string_from_utf8(b) {
        Some(id) => Ok(id),
        None => Err(FormatError::InvalidIdentifier),
    }
}

/// The characters of each string.
pub open spec fn strings_view(v: Seq<String>) -> Seq<Seq<char>> {
    v.map_values(|x: String| x@)
}

/// Reads `k` identifiers in order.
pub fn read_identifiers(bytes: &mut ByteCode, k: u8) -> (r: Result<Vec<String>, FormatError>)
    requires
        old(bytes).wf(),
    ensures
        reads_as(
            parse_many(identifier_parser(), old(bytes).rest(), k as nat),
            r,
            |v: Vec<String>| strings_view(v@),
            *old(bytes),
            *final(bytes),
        ),
{
    let ghost s0 = bytes.rest();
    let ghost p0 = bytes.position();
    let ghost d0 = bytes.data();
    let mut out: Vec<String> = Vec::new();
    let mut i: u8 = 0;
    assert(strings_view(out@) =~= seq![]);
    while i < k
        invariant
            bytes.wf(),
            bytes.data() == d0,
            s0 == d0.subrange(p0, d0.len() as int),
            d0 == old(bytes).data(),
            p0 == old(bytes).position(),
            i <= k,
            parse_many(identifier_parser(), s0, i as nat) == Ok::<(Seq<Seq<char>>, nat), FormatError>(
                (strings_view(out@), (bytes.position() - p0) as nat),
            ),
            0 <= p0 <= bytes.position(),
        decreases k - i,
    {
        assert(bytes.rest() =~= s0.skip(bytes.position() - p0));
        let ghost prev = out@;
        let ghost before = *bytes;
        match read_identifier(bytes) {
            Ok(id) => {
                out.push(id);
                assert(strings_view(out@) =~= strings_view(prev).push(id@));
            },
            Err(e) => {
                proof {
                    assert(identifier_parser()(before.rest()) == parse_identifier(before.rest()));
                    assert(parse_many(identifier_parser(), s0, (i + 1) as nat) == Err::<(Seq<Seq<char>>, nat), FormatError>(e));
                    lemma_parse_many_err(identifier_parser(), s0, (i + 1) as nat, k as nat);
                }
                return Err(e);
            },
        }
        i = i + 1;
    }
    Ok(out)
}

/// An immediate value held in an instruction.
#[derive(Debug, Clone, Copy, PartialEq, Eq, Structural)]
pub enum Literal {
    Boolean(bool),
    U8(u8),
    U16(u16),
    U32(u32),
}

impl View for Literal {
    type V = Literal;

    open spec fn view(&self) -> Literal {
        *self
    }
}

/// A literal: a type byte (0 boolean, 1 `u8`, 2 `u16`, 3 `u32`), then its value;
/// a boolean is one byte, 0 or 1.
#[verifier::opaque]
pub open spec fn parse_literal(s: Seq<u8>) -> Decoded<Literal> {
    match parse_u8(s) {
        Err(e) => Err(e),
        Ok((t, _)) => if t == 0 {
            match parse_u8(s.skip(1)) {
                Err(e) => Err(e),
                Ok((b, _)) => if b == 0 {
                    Ok((Literal::Boolean(false), 2))
                } else if b == 1 {
                    Ok((Literal::Boolean(true), 2))
                } else {
                    Err(FormatError::InvalidBoolean)
                },
            }
        } else if t == 1 {
            match parse_u8(s.skip(1)) {
                Err(e) => Err(e),
                Ok((v, n)) => Ok((Literal::U8(v), 1 + n)),
            }
        } else if t == 2 {
            match parse_u16(s.skip(1)) {
                Err(e) => Err(e),
                Ok((v, n)) => Ok((Literal::U16(v), 1 + n)),
            }
        } else if t == 3 {
            match parse_u32(s.skip(1)) {
                Err(e) => Err(e),
                Ok((v, n)) => Ok((Literal::U32(v), 1 + n)),
            }
        } else {
            Err(FormatError::UnknownLiteralType)
        },
    }
}

impl Literal {
    /// Reads one literal.
    pub fn read(bytes: &mut ByteCode) -> (r: Result<Literal, FormatError>)
        requires
            old(bytes).wf(),
        ensures
            reads_as(parse_literal(old(bytes).rest()), r, |x: Literal| x, *old(bytes), *final(bytes)),
    {
        reveal(parse_literal);
        let t = bytes.read_u8()?;
        proof {
            lemma_advance(*old(bytes), *bytes);
        }
        if t == 0 {
            let b = bytes.read_u8()?;
            if b == 0 {
                Ok(Literal::Boolean(false))
            } else if b == 1 {
                Ok(Literal::Boolean(true))
            } else {
                Err(FormatError::InvalidBoolean)
            }
        } else if t == 1 {
            Ok(Literal::U8(bytes.read_u8()?))
        } else if t == 2 {
            Ok(Literal::U16(bytes.read_u16()?))
        } else if t == 3 {
            Ok(Literal::U32(bytes.read_u32()?))
        } else {
            Err(FormatError::UnknownLiteralType)
        }
    }
}

/// A reference to a register: a plain register, or a member access along a path of
/// identifiers.
#[derive(Debug, PartialEq, Eq)]
pub enum Register {
    Locator(u32),
    Member(u32, Vec<String>),
}

/// What a register reference denotes.
pub enum RegisterView {
    Locator(u32),
    Member(u32, Seq<Seq<char>>),
}

impl View for Register {
    type V = RegisterView;

    open spec fn view(&self) -> RegisterView {
        match self {
            Register::Locator(l) => RegisterView::Locator(*l),
            Register::Member(l, path) => RegisterView::Member(*l, strings_view(path@)),
        }
    }
}

/// A register: a kind byte (0 plain, 1 member access), the register's `u32` number,
/// and for a member access a count byte followed by that many identifiers.
#[verifier::opaque]
pub open spec fn parse_register(s: Seq<u8>) -> Decoded<RegisterView> {
    match parse_u8(s) {
        Err(e) => Err(e),
        Ok((kind, _)) => if kind > 1 {
            Err(FormatError::UnknownRegisterKind)
        } else {
            match parse_u32(s.skip(1)) {
                Err(e) => Err(e),
                Ok((l, _)) => if kind == 0 {
                    Ok((RegisterView::Locator(l), 5))
                } else {
                    match parse_u8(s.skip(5)) {
                        Err(e) => Err(e),
                        Ok((k, _)) => match parse_many(identifier_parser(), s.skip(6), k as nat) {
                            Err(e) => Err(e),
                            Ok((path, n)) => Ok((RegisterView::Member(l, path), 6 + n)),
                        },
                    }
                },
            }
        },
    }
}

/// `parse_register` as a value, for lists of registers.
pub open spec fn register_parser() -> spec_fn(Seq<u8>) -> Decoded<RegisterView> {
    |s: Seq<u8>| parse_register(s)
}

impl Register {
    /// Reads one register reference.
    pub fn read(bytes: &mut ByteCode) -> (r: Result<Register, FormatError>)
        requires
            old(bytes).wf(),
        ensures
            reads_as(parse_register(old(bytes).rest()), r, |x: Register| x@, *old(bytes), *final(bytes)),
    {
        reveal(parse_register);
        let kind = bytes.read_u8()?;
        if kind > 1 {
            return Err(FormatError::UnknownRegisterKind);
        }
        proof {
            lemma_advance(*old(bytes), *bytes);
        }
        let l = bytes.read_u32()?;
        if kind == 0 {
            return Ok(Register::Locator(l));
        }
        proof {
            lemma_advance(*old(bytes), *bytes);
        }
        let k = bytes.read_u8()?;
        proof {
            lemma_advance(*old(bytes), *bytes);
        }
        let path = read_identifiers(bytes, k)?;
        Ok(Register::Member(l, path))
    }
}

} // verus!
