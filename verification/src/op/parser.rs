//! Decoder from a flat bytecode byte array to an instruction sequence.
//!
//! A single forward pass with no backtracking: each opcode byte selects an
//! instruction, operand bytes are consumed per opcode, and every 2-byte
//! operand that denotes a pool index is resolved eagerly against the
//! constant pool. The wire format is modelled by [`spec_parse_ops`].

use super::Op;
use super::OpView;
use crate::constant_pool::spec_get;
use crate::constant_pool::spec_get_class;
use crate::constant_pool::spec_get_fieldref;
use crate::constant_pool::spec_resolve_methodref;
use crate::constant_pool::Constant;
use crate::constant_pool::ConstantPool;
use crate::constant_pool::ConstantView;
use crate::cursor::be_u16;
use crate::cursor::signed8;
use crate::cursor::ByteCursor;
use crate::error::ParseError;
use vstd::prelude::*;

verus! {

/// Prepends one decoded instruction to the outcome of decoding the rest.
pub open spec fn ops_compose(op: OpView, r: Result<Seq<OpView>, ParseError>) -> Result<
    Seq<OpView>,
    ParseError,
> {
    match r {
        Ok(rest) => Ok(seq![op] + rest),
        Err(e) => Err(e),
    }
}

/// Prepends an already-decoded prefix to the outcome of decoding the rest.
pub open spec fn ops_compose_all(pre: Seq<OpView>, r: Result<Seq<OpView>, ParseError>) -> Result<
    Seq<OpView>,
    ParseError,
> {
    match r {
        Ok(rest) => Ok(pre + rest),
        Err(e) => Err(e),
    }
}

/// What the bytecode bytes from position `i` on decode to: the instruction
/// sequence, or the first failure. Pool indices embedded in operands are
/// resolved against `pool`.
pub open spec fn spec_parse_ops(bytes: Seq<u8>, pool: Seq<ConstantView>, i: int) -> Result<
    Seq<OpView>,
    ParseError,
>
    decreases bytes.len() - i,
{
    if i < 0 {
        Err(ParseError::UnknownOpcode)
    } else if i >= bytes.len() {
        Ok(Seq::empty())
    } else {
        let op = bytes[i];
        if op == 0x2a {
            ops_compose(OpView::Aload0, spec_parse_ops(bytes, pool, i + 1))
        } else if op == 0x2b {
            ops_compose(OpView::Aload1, spec_parse_ops(bytes, pool, i + 1))
        } else if op == 0x2c {
            ops_compose(OpView::Aload2, spec_parse_ops(bytes, pool, i + 1))
        } else if op == 0x2d {
            ops_compose(OpView::Aload3, spec_parse_ops(bytes, pool, i + 1))
        } else if op == 0x1a {
            ops_compose(OpView::Iload0, spec_parse_ops(bytes, pool, i + 1))
        } else if op == 0x1b {
            ops_compose(OpView::Iload1, spec_parse_ops(bytes, pool, i + 1))
        } else if op == 0x1c {
            ops_compose(OpView::Iload2, spec_parse_ops(bytes, pool, i + 1))
        } else if op == 0x1d {
            ops_compose(OpView::Iload3, spec_parse_ops(bytes, pool, i + 1))
        } else if op == 0xb1 {
            ops_compose(OpView::Return, spec_parse_ops(bytes, pool, i + 1))
        } else if op == 0xac {
            ops_compose(OpView::Ireturn, spec_parse_ops(bytes, pool, i + 1))
        } else if op == 0x3b {
            ops_compose(OpView::Istore0, spec_parse_ops(bytes, pool, i + 1))
        } else if op == 0x3c {
            ops_compose(OpView::Istore1, spec_parse_ops(bytes, pool, i + 1))
        } else if op == 0x3d {
            ops_compose(OpView::Istore2, spec_parse_ops(bytes, pool, i + 1))
        } else if op == 0x3e {
            ops_compose(OpView::Istore3, spec_parse_ops(bytes, pool, i + 1))
        } else if op == 0x4b {
            ops_compose(OpView::Astore0, spec_parse_ops(bytes, pool, i + 1))
        } else if op == 0x4c {
            ops_compose(OpView::Astore1, spec_parse_ops(bytes, pool, i + 1))
        } else if op == 0x4d {
            ops_compose(OpView::Astore2, spec_parse_ops(bytes, pool, i + 1))
        } else if op == 0x4e {
            ops_compose(OpView::Astore3, spec_parse_ops(bytes, pool, i + 1))
        } else if op == 0x02 {
            ops_compose(OpView::Iconstm1, spec_parse_ops(bytes, pool, i + 1))
        } else if op == 0x03 {
            ops_compose(OpView::Iconst0, spec_parse_ops(bytes, pool, i + 1))
        } else if op == 0x04 {
            ops_compose(OpView::Iconst1, spec_parse_ops(bytes, pool, i + 1))
        } else if op == 0x05 {
            ops_compose(OpView::Iconst2, spec_parse_ops(bytes, pool, i + 1))
        } else if op == 0x06 {
            ops_compose(OpView::Iconst3, spec_parse_ops(bytes, pool, i + 1))
        } else if op == 0x07 {
            ops_compose(OpView::Iconst4, spec_parse_ops(bytes, pool, i + 1))
        } else if op == 0x08 {
            ops_compose(OpView::Iconst5, spec_parse_ops(bytes, pool, i + 1))
        } else if op == 0x60 {
            ops_compose(OpView::Iadd, spec_parse_ops(bytes, pool, i + 1))
        } else if op == 0x59 {
            ops_compose(OpView::Dup, spec_parse_ops(bytes, pool, i + 1))
        } else if op == 0x10 {
            if i + 2 > bytes.len() {
                Err(ParseError::TruncatedInput)
            } else {
                ops_compose(
                    OpView::Bipush(signed8(bytes[i + 1] as int) as i8),
                    spec_parse_ops(bytes, pool, i + 2),
                )
            }
        } else if op == 0xb7 {
            if i + 3 > bytes.len() {
                Err(ParseError::TruncatedInput)
            } else {
                match spec_get(pool, be_u16(bytes, i + 1)) {
                    Some(ConstantView::InterfaceMethodref(mc)) => match spec_resolve_methodref(
                        pool,
                        mc,
                        true,
                    ) {
                        Ok(m) => ops_compose(
                            OpView::Invokespecial(m),
                            spec_parse_ops(bytes, pool, i + 3),
                        ),
                        Err(e) => Err(e),
                    },
                    Some(ConstantView::Methodref(mc)) => match spec_resolve_methodref(
                        pool,
                        mc,
                        false,
                    ) {
                        Ok(m) => ops_compose(
                            OpView::Invokespecial(m),
                            spec_parse_ops(bytes, pool, i + 3),
                        ),
                        Err(e) => Err(e),
                    },
                    Some(_) => Err(ParseError::ConstantKindMismatch),
                    None => Err(ParseError::InvalidConstantPoolIndex),
                }
            }
        } else if op == 0xb6 {
            if i + 3 > bytes.len() {
                Err(ParseError::TruncatedInput)
            } else {
                match spec_get(pool, be_u16(bytes, i + 1)) {
                    Some(ConstantView::Methodref(mc)) => match spec_resolve_methodref(
                        pool,
                        mc,
                        false,
                    ) {
                        Ok(m) => ops_compose(
                            OpView::Invokevirtual(m),
                            spec_parse_ops(bytes, pool, i + 3),
                        ),
                        Err(e) => Err(e),
                    },
                    Some(_) => Err(ParseError::ConstantKindMismatch),
                    None => Err(ParseError::InvalidConstantPoolIndex),
                }
            }
        } else if op == 0xbb {
            if i + 3 > bytes.len() {
                Err(ParseError::TruncatedInput)
            } else {
                match spec_get_class(pool, be_u16(bytes, i + 1)) {
                    Ok(n) => ops_compose(OpView::New(n), spec_parse_ops(bytes, pool, i + 3)),
                    Err(e) => Err(e),
                }
            }
        } else if op == 0xb4 {
            if i + 3 > bytes.len() {
                Err(ParseError::TruncatedInput)
            } else {
                match spec_get_fieldref(pool, be_u16(bytes, i + 1)) {
                    Ok(f) => ops_compose(OpView::Getfield(f), spec_parse_ops(bytes, pool, i + 3)),
                    Err(e) => Err(e),
                }
            }
        } else if op == 0xb5 {
            if i + 3 > bytes.len() {
                Err(ParseError::TruncatedInput)
            } else {
                match spec_get_fieldref(pool, be_u16(bytes, i + 1)) {
                    Ok(f) => ops_compose(OpView::Putfield(f), spec_parse_ops(bytes, pool, i + 3)),
                    Err(e) => Err(e),
                }
            }
        } else {
            Err(ParseError::UnknownOpcode)
        }
    }
}

/// Parser state for decoding instructions: a cursor over the code bytes and
/// the pool to resolve against.
#[derive(Debug)]
pub struct Parser<'a> {
    cursor: ByteCursor<'a>,
    cp: &'a ConstantPool,
}

impl<'a> Parser<'a> {
    /// The code bytes the parser was built on.
    pub closed spec fn bytes(self) -> Seq<u8> {
        self.cursor.bytes()
    }

    /// The pool the parser resolves against.
    pub closed spec fn pool(self) -> Seq<ConstantView> {
        self.cp@
    }

    /// A freshly built parser stands at the start of its bytes.
    pub closed spec fn wf(self) -> bool {
        self.cursor.wf() && self.cursor.position() == 0
    }

    /// A parser over `raw`, resolving against `cp`.
    pub fn new(raw: &'a [u8], cp: &'a ConstantPool) -> (r: Self)
        ensures
            r.wf(),
            r.bytes() == raw@,
            r.pool() == cp@,
    {
        Parser { cursor: ByteCursor::new(raw), cp }
    }

    /// Decodes instructions from the parser's bytes until they are
    /// exhausted (see `Self::new`).
    #[verifier::rlimit(100)]
    #[verifier::loop_isolation(false)]
    pub fn run(self) -> (r: Result<Vec<Op>, ParseError>)
        requires
            self.wf(),
        ensures
            match spec_parse_ops(self.bytes(), self.pool(), 0) {
                Ok(ops) => r matches Ok(v) && v@.map_values(|o: Op| o@) == ops,
                Err(e) => r matches Err(e2) && e2 == e,
            },
    {
        let ghost b = self.bytes();
        let ghost p = self.pool();
        let Parser { mut cursor, cp } = self;
        let mut ops: Vec<Op> = Vec::new();
        proof {
            assert(ops@.map_values(|o: Op| o@) + spec_parse_ops(b, p, 0).unwrap()
                =~= spec_parse_ops(b, p, 0).unwrap());
        }
        while cursor.remaining() > 0
            invariant
                cursor.wf(),
                cursor.bytes() == b,
                cp@ == p,
                spec_parse_ops(b, p, 0) == ops_compose_all(
                    ops@.map_values(|o: Op| o@),
                    spec_parse_ops(b, p, cursor.position() as int),
                ),
            decreases cursor.bytes().len() - cursor.position(),
        {
            let ghost old_pos = cursor.position() as int;
            let ghost old_ops = ops@;
            let opcode = cursor.next_u8()?;
            let op = if opcode == 0x2a {
                Op::Aload0
            } else if opcode == 0x2b {
                Op::Aload1
            } else if opcode == 0x2c {
                Op::Aload2
            } else if opcode == 0x2d {
                Op::Aload3
            } else if opcode == 0x1a {
                Op::Iload0
            } else if opcode == 0x1b {
                Op::Iload1
            } else if opcode == 0x1c {
                Op::Iload2
            } else if opcode == 0x1d {
                Op::Iload3
            } else if opcode == 0xb1 {
                Op::Return
            } else if opcode == 0xac {
                Op::Ireturn
            } else if opcode == 0x3b {
                Op::Istore0
            } else if opcode == 0x3c {
                Op::Istore1
            } else if opcode == 0x3d {
                Op::Istore2
            } else if opcode == 0x3e {
                Op::Istore3
            } else if opcode == 0x4b {
                Op::Astore0
            } else if opcode == 0x4c {
                Op::Astore1
            } else if opcode == 0x4d {
                Op::Astore2
            } else if opcode == 0x4e {
                Op::Astore3
            } else if opcode == 0x02 {
                Op::Iconstm1
            } else if opcode == 0x03 {
                Op::Iconst0
            } else if opcode == 0x04 {
                Op::Iconst1
            } else if opcode == 0x05 {
                Op::Iconst2
            } else if opcode == 0x06 {
                Op::Iconst3
            } else if opcode == 0x07 {
                Op::Iconst4
            } else if opcode == 0x08 {
                Op::Iconst5
            } else if opcode == 0x60 {
                Op::Iadd
            } else if opcode == 0x59 {
                Op::Dup
            } else if opcode == 0x10 {
                let literal = cursor.next_u8()?;
                Op::Bipush(to_i8(literal))
            } else if opcode == 0xb7 {
                let idx = cursor.next_u16()?;
                match cp.get(idx) {
                    Some(Constant::InterfaceMethodref(x)) => Op::Invokespecial(
                        cp.get_methodref(*x, true)?,
                    ),
                    Some(Constant::Methodref(x)) => Op::Invokespecial(cp.get_methodref(*x, false)?),
                    Some(_) => {
                        return Err(ParseError::ConstantKindMismatch);
                    },
                    None => {
                        return Err(ParseError::InvalidConstantPoolIndex);
                    },
                }
            } else if opcode == 0xb6 {
                let idx = cursor.next_u16()?;
                match cp.get(idx) {
                    Some(Constant::Methodref(x)) => Op::Invokevirtual(cp.get_methodref(*x, false)?),
                    Some(_) => {
                        return Err(ParseError::ConstantKindMismatch);
                    },
                    None => {
                        return Err(ParseError::InvalidConstantPoolIndex);
                    },
                }
            } else if opcode == 0xbb {
                let idx = cursor.next_u16()?;
                Op::New(cp.get_class(idx)?)
            } else if opcode == 0xb4 {
                let idx = cursor.next_u16()?;
                Op::Getfield(cp.get_fieldref(idx)?)
            } else if opcode == 0xb5 {
                let idx = cursor.next_u16()?;
                Op::Putfield(cp.get_fieldref(idx)?)
            } else {
                return Err(ParseError::UnknownOpcode);
            };
            ops.push(op);
            proof {
                assert(ops@ == old_ops.push(op));
                assert(ops@.map_values(|o: Op| o@) =~= old_ops.map_values(|o: Op| o@).push(op@));
                assert(spec_parse_ops(b, p, old_pos) == ops_compose(
                    op@,
                    spec_parse_ops(b, p, cursor.position() as int),
                ));
                match spec_parse_ops(b, p, cursor.position() as int) {
                    Ok(rest) => {
                        assert(old_ops.map_values(|o: Op| o@) + (seq![op@] + rest) =~= ops@
                            .map_values(|o: Op| o@) + rest);
                    },
                    Err(e) => {},
                }
            }
        }
        proof {
            assert(spec_parse_ops(b, p, cursor.position() as int) == Ok::<
                Seq<OpView>,
                ParseError,
            >(Seq::empty()));
            assert(ops@.map_values(|o: Op| o@) + Seq::<OpView>::empty() =~= ops@.map_values(
                |o: Op| o@,
            ));
        }
        Ok(ops)
    }
}

/// Reinterprets one byte as a signed 8-bit immediate.
fn to_i8(b: u8) -> (r: i8)
    ensures
        r as int == signed8(b as int),
{
    if b < 128 {
        b as i8
    } else {
        (b as i16 - 256) as i8
    }
}

} // verus!
