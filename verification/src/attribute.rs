//! Attribute records: named, length-prefixed, arbitrarily nested binary
//! records attached to a class, field, method, or another attribute.

use crate::op::Op;
use crate::op::OpView;
use vstd::prelude::*;

verus! {

broadcast use vstd::seq::group_seq_axioms, vstd::std_specs::vec::group_vec_axioms;

/// One row of a `Code` attribute's exception table.
#[derive(Debug, Copy, Clone, PartialEq, Eq, Structural)]
pub struct ExceptionHandlerDescriptor {
    pub start_pc: u16,
    pub end_pc: u16,
    pub handler_pc: u16,
    pub catch_type: u16,
}

/// One row of a `LineNumberTable` attribute.
#[derive(Debug, Copy, Clone, PartialEq, Eq, Structural)]
pub struct LineNumberTableEntry {
    pub start_pc: u16,
    pub line_number: u16,
}

/// The payload of a `ConstantValue` attribute. The 4-byte and 8-byte
/// floating-point values are carried as their raw big-endian bit patterns,
/// exactly as read from the file.
#[derive(Debug, PartialEq, Eq, Clone)]
pub enum ConstantValueAttribute {
    /// int, short, char, byte, boolean
    Integer(i32),
    /// The IEEE-754 bit pattern of a 32-bit float.
    Float(u32),
    Long(i64),
    /// The IEEE-754 bit pattern of a 64-bit float.
    Double(u64),
    StringValue(String),
}

/// Mathematical model of [`ConstantValueAttribute`].
pub enum ConstantValueAttributeView {
    Integer(i32),
    Float(u32),
    Long(i64),
    Double(u64),
    StringValue(Seq<char>),
}

impl View for ConstantValueAttribute {
    type V = ConstantValueAttributeView;

    open spec fn view(&self) -> ConstantValueAttributeView {
        match self {
            ConstantValueAttribute::Integer(x) => ConstantValueAttributeView::Integer(*x),
            ConstantValueAttribute::Float(x) => ConstantValueAttributeView::Float(*x),
            ConstantValueAttribute::Long(x) => ConstantValueAttributeView::Long(*x),
            ConstantValueAttribute::Double(x) => ConstantValueAttributeView::Double(*x),
            ConstantValueAttribute::StringValue(s) => ConstantValueAttributeView::StringValue(s@),
        }
    }
}

/// The body of a `Code` attribute: stack and locals bounds, the decoded
/// instructions, the exception table, and nested attributes.
#[derive(Debug, PartialEq, Eq)]
pub struct CodeAttribute {
    pub max_stack: u16,
    pub max_locals: u16,
    pub code: Vec<Op>,
    pub exception_table: Vec<ExceptionHandlerDescriptor>,
    pub attributes: Vec<Attribute>,
}

/// Mathematical model of [`CodeAttribute`].
pub struct CodeAttributeView {
    pub max_stack: u16,
    pub max_locals: u16,
    pub code: Seq<OpView>,
    pub exception_table: Seq<ExceptionHandlerDescriptor>,
    pub attributes: Seq<AttributeView>,
}

/// A decoded attribute record.
#[derive(Debug, PartialEq, Eq)]
pub enum Attribute {
    ConstantValue(ConstantValueAttribute),
    Code(CodeAttribute),
    LineNumberTable(Vec<LineNumberTableEntry>),
    SourceFile(String),
}

/// Mathematical model of [`Attribute`].
pub enum AttributeView {
    ConstantValue(ConstantValueAttributeView),
    Code(CodeAttributeView),
    LineNumberTable(Seq<LineNumberTableEntry>),
    SourceFile(Seq<char>),
}

/// The models of every attribute in `v`, in order.
pub open spec fn attributes_view(v: Seq<Attribute>) -> Seq<AttributeView>
    decreases v,
{
    if v.len() == 0 {
        Seq::empty()
    } else {
        seq![v[0]@] + attributes_view(v.drop_first())
    }
}

/// `attributes_view` is the element-wise model of the sequence.
pub proof fn lemma_attributes_view_is_map(v: Seq<Attribute>)
    ensures
        attributes_view(v) == v.map_values(|a: Attribute| a@),
    decreases v.len(),
{
    if v.len() == 0 {
        assert(attributes_view(v) =~= v.map_values(|a: Attribute| a@));
    } else {
        lemma_attributes_view_is_map(v.drop_first());
        let m = v.map_values(|a: Attribute| a@);
        assert(attributes_view(v) == seq![v[0]@] + attributes_view(v.drop_first()));
        assert forall|k: int| 0 <= k < v.len() implies attributes_view(v)[k] == m[k] by {
            if k > 0 {
                assert(attributes_view(v)[k] == (seq![v[0]@] + attributes_view(v.drop_first()))[
                    k]);
                assert((seq![v[0]@] + attributes_view(v.drop_first()))[k] == attributes_view(
                    v.drop_first(),
                )[k - 1]);
                assert(attributes_view(v.drop_first())[k - 1] == v.drop_first().map_values(
                    |a: Attribute| a@,
                )[k - 1]);
                assert(v.drop_first().map_values(|a: Attribute| a@)[k - 1] == v.drop_first()[k
                    - 1]@);
                assert(v.drop_first()[k - 1] == v[k]);
            }
        }
        assert(attributes_view(v) =~= m);
    }
}

/// Appending one attribute to a table appends its model.
pub proof fn lemma_attributes_view_push(v: Seq<Attribute>, a: Attribute)
    ensures
        attributes_view(v.push(a)) == attributes_view(v).push(a@),
        attributes_view(v).len() == v.len(),
{
    lemma_attributes_view_is_map(v.push(a));
    lemma_attributes_view_is_map(v);
    assert(v.push(a).map_values(|x: Attribute| x@) =~= v.map_values(|x: Attribute| x@).push(a@));
}

impl View for CodeAttribute {
    type V = CodeAttributeView;

    open spec fn view(&self) -> CodeAttributeView
        decreases self,
    {
        CodeAttributeView {
            max_stack: self.max_stack,
            max_locals: self.max_locals,
            code: self.code@.map_values(|o: Op| o@),
            exception_table: self.exception_table@,
            attributes: attributes_view(self.attributes@),
        }
    }
}

impl View for Attribute {
    type V = AttributeView;

    open spec fn view(&self) -> AttributeView
        decreases self,
    {
        match self {
            Attribute::ConstantValue(c) => AttributeView::ConstantValue(c@),
            Attribute::Code(c) => AttributeView::Code(c@),
            Attribute::LineNumberTable(v) => AttributeView::LineNumberTable(v@),
            Attribute::SourceFile(s) => AttributeView::SourceFile(s@),
        }
    }
}

} // verus!
