//! VM instructions and their decoder.

pub mod parser;

use crate::constant_pool::ConstantPool;
use crate::constant_pool::ConstantView;
use crate::error::ParseError;
use crate::FieldRef;
use crate::FieldRefView;
use crate::MethodRef;
use crate::MethodRefView;
use vstd::prelude::*;

verus! {

/// A VM instruction: the opcode together with all its operands. Operands
/// that are pool indices on the wire are already resolved into symbolic
/// references.
#[derive(Debug, PartialEq, Eq, Clone)]
pub enum Op {
    Aload0,
    Aload1,
    Aload2,
    Aload3,
    Astore0,
    Astore1,
    Astore2,
    Astore3,
    Iload0,
    Iload1,
    Iload2,
    Iload3,
    Invokespecial(MethodRef),
    Return,
    Ireturn,
    Bipush(i8),
    Istore0,
    Istore1,
    Istore2,
    Istore3,
    Iconstm1,
    Iconst0,
    Iconst1,
    Iconst2,
    Iconst3,
    Iconst4,
    Iconst5,
    Iadd,
    New(String),
    Dup,
    Putfield(FieldRef),
    Getfield(FieldRef),
    Invokevirtual(MethodRef),
}

/// Mathematical model of [`Op`].
pub enum OpView {
    Aload0,
    Aload1,
    Aload2,
    Aload3,
    Astore0,
    Astore1,
    Astore2,
    Astore3,
    Iload0,
    Iload1,
    Iload2,
    Iload3,
    Invokespecial(MethodRefView),
    Return,
    Ireturn,
    Bipush(i8),
    Istore0,
    Istore1,
    Istore2,
    Istore3,
    Iconstm1,
    Iconst0,
    Iconst1,
    Iconst2,
    Iconst3,
    Iconst4,
    Iconst5,
    Iadd,
    New(Seq<char>),
    Dup,
    Putfield(FieldRefView),
    Getfield(FieldRefView),
    Invokevirtual(MethodRefView),
}

impl View for Op {
    type V = OpView;

    open spec fn view(&self) -> OpView {
        match self {
            Op::Aload0 => OpView::Aload0,
            Op::Aload1 => OpView::Aload1,
            Op::Aload2 => OpView::Aload2,
            Op::Aload3 => OpView::Aload3,
            Op::Astore0 => OpView::Astore0,
            Op::Astore1 => OpView::Astore1,
            Op::Astore2 => OpView::Astore2,
            Op::Astore3 => OpView::Astore3,
            Op::Iload0 => OpView::Iload0,
            Op::Iload1 => OpView::Iload1,
            Op::Iload2 => OpView::Iload2,
            Op::Iload3 => OpView::Iload3,
            Op::Invokespecial(m) => OpView::Invokespecial(m@),
            Op::Return => OpView::Return,
            Op::Ireturn => OpView::Ireturn,
            Op::Bipush(b) => OpView::Bipush(*b),
            Op::Istore0 => OpView::Istore0,
            Op::Istore1 => OpView::Istore1,
            Op::Istore2 => OpView::Istore2,
            Op::Istore3 => OpView::Istore3,
            Op::Iconstm1 => OpView::Iconstm1,
            Op::Iconst0 => OpView::Iconst0,
            Op::Iconst1 => OpView::Iconst1,
            Op::Iconst2 => OpView::Iconst2,
            Op::Iconst3 => OpView::Iconst3,
            Op::Iconst4 => OpView::Iconst4,
            Op::Iconst5 => OpView::Iconst5,
            Op::Iadd => OpView::Iadd,
            Op::New(n) => OpView::New(n@),
            Op::Dup => OpView::Dup,
            Op::Putfield(f) => OpView::Putfield(f@),
            Op::Getfield(f) => OpView::Getfield(f@),
            Op::Invokevirtual(m) => OpView::Invokevirtual(m@),
        }
    }
}

/// Parses a series of instructions out of the code given by `raw`, resolving
/// embedded pool indices against `cp`.
pub fn parse_ops_from_code_bytes(raw: &[u8], cp: &ConstantPool) -> (r: Result<Vec<Op>, ParseError>)
    ensures
        match parser::spec_parse_ops(raw@, cp@, 0) {
            Ok(ops) => r matches Ok(v) && v@.map_values(|o: Op| o@) == ops,
            Err(e) => r matches Err(e2) && e2 == e,
        },
{
    parser::Parser::new(raw, cp).run()
}

} // verus!
