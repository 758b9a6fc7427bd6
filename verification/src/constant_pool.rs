//! The constant pool: the class file's symbol and literal table.
//!
//! Entries are referenced by 1-based index; index 0 is always absent. The
//! pool is built once and is immutable thereafter. Resolution is read-only
//! and side-effect-free: each typed accessor either follows the index
//! chain to a concrete value or fails with the exact error the spec
//! functions of this module prescribe.

use crate::descriptor;
use crate::descriptor::spec_parse_field;
use crate::descriptor::spec_parse_method;
use crate::error::ParseError;
use crate::FieldRef;
use crate::FieldRefView;
use crate::MethodRef;
use crate::MethodRefView;
use vstd::prelude::*;

verus! {

/// Payload of a `Class` constant: the index of the Utf8 entry holding the
/// class name.
#[derive(Debug, Copy, Clone, PartialEq, Eq, Structural)]
pub struct ClassConstant {
    pub name_index: u16,
}

/// Payload of a `NameAndType` constant: indices of the Utf8 entries holding
/// a member name and its descriptor text.
#[derive(Debug, Copy, Clone, PartialEq, Eq, Structural)]
pub struct NameAndTypeConstant {
    pub name_index: u16,
    pub descriptor_index: u16,
}

/// Payload of a `Methodref` or `InterfaceMethodref` constant.
#[derive(Debug, Copy, Clone, PartialEq, Eq, Structural)]
pub struct MethodrefConstant {
    pub class_index: u16,
    pub name_and_type_index: u16,
}

/// Payload of a `Fieldref` constant.
#[derive(Debug, Copy, Clone, PartialEq, Eq, Structural)]
pub struct FieldrefConstant {
    pub class_index: u16,
    pub name_and_type_index: u16,
}

/// A loadable constant value. The 4-byte and 8-byte floating-point constants
/// are carried as their raw big-endian bit patterns, exactly as read from
/// the file.
#[derive(Debug, Copy, Clone, PartialEq, Eq, Structural)]
pub enum ConstantValueKind {
    /// int, short, char, byte, boolean
    Integer(i32),
    /// The IEEE-754 bit pattern of a 32-bit float.
    Float(u32),
    Long(i64),
    /// The IEEE-754 bit pattern of a 64-bit float.
    Double(u64),
    /// Holds the index of the Utf8 constant with the string's text.
    StringRef(u16),
}

/// One constant-pool entry. Every `*_index` field is either 0 (absent) or a
/// 1-based index into the same pool; the kind at that index is checked only
/// at resolution time.
#[derive(Debug, Clone, PartialEq, Eq)]
pub enum Constant {
    Class(ClassConstant),
    Methodref(MethodrefConstant),
    InterfaceMethodref(MethodrefConstant),
    NameAndType(NameAndTypeConstant),
    Fieldref(FieldrefConstant),
    Utf8(String),
    ConstantValue(ConstantValueKind),
}

/// Mathematical model of [`Constant`]: Utf8 text as a character sequence.
pub enum ConstantView {
    Class(ClassConstant),
    Methodref(MethodrefConstant),
    InterfaceMethodref(MethodrefConstant),
    NameAndType(NameAndTypeConstant),
    Fieldref(FieldrefConstant),
    Utf8(Seq<char>),
    ConstantValue(ConstantValueKind),
}

impl View for Constant {
    type V = ConstantView;

    open spec fn view(&self) -> ConstantView {
        match self {
            Constant::Class(c) => ConstantView::Class(*c),
            Constant::Methodref(c) => ConstantView::Methodref(*c),
            Constant::InterfaceMethodref(c) => ConstantView::InterfaceMethodref(*c),
            Constant::NameAndType(c) => ConstantView::NameAndType(*c),
            Constant::Fieldref(c) => ConstantView::Fieldref(*c),
            Constant::Utf8(s) => ConstantView::Utf8(s@),
            Constant::ConstantValue(k) => ConstantView::ConstantValue(*k),
        }
    }
}

/// The raw 1-based lookup: `None` for index 0 and for indices beyond the
/// table, the entry stored at position `idx - 1` otherwise.
pub open spec fn spec_get(pool: Seq<ConstantView>, idx: int) -> Option<ConstantView> {
    if 1 <= idx <= pool.len() {
        Some(pool[idx - 1])
    } else {
        None
    }
}

/// Resolution of an index expected to name a Utf8 entry.
pub open spec fn spec_get_utf8(pool: Seq<ConstantView>, idx: int) -> Result<Seq<char>, ParseError> {
    match spec_get(pool, idx) {
        Some(ConstantView::Utf8(s)) => Ok(s),
        Some(_) => Err(ParseError::ConstantKindMismatch),
        None => Err(ParseError::InvalidConstantPoolIndex),
    }
}

/// Resolution of an index expected to name a Class entry, chained through
/// its `name_index` to the Utf8 class name.
pub open spec fn spec_get_class(pool: Seq<ConstantView>, idx: int) -> Result<
    Seq<char>,
    ParseError,
> {
    match spec_get(pool, idx) {
        Some(ConstantView::Class(c)) => spec_get_utf8(pool, c.name_index as int),
        Some(_) => Err(ParseError::ConstantKindMismatch),
        None => Err(ParseError::InvalidConstantPoolIndex),
    }
}

/// Resolution of a member reference's two indices into (class name, member
/// name, descriptor text): the class index chains through a Class entry,
/// the other through a NameAndType entry and its two Utf8 entries.
pub open spec fn spec_resolve_member(
    pool: Seq<ConstantView>,
    class_index: int,
    name_and_type_index: int,
) -> Result<(Seq<char>, Seq<char>, Seq<char>), ParseError> {
    match spec_get_class(pool, class_index) {
        Err(e) => Err(e),
        Ok(class_name) => match spec_get(pool, name_and_type_index) {
            Some(ConstantView::NameAndType(nt)) => match spec_get_utf8(
                pool,
                nt.name_index as int,
            ) {
                Err(e) => Err(e),
                Ok(member_name) => match spec_get_utf8(pool, nt.descriptor_index as int) {
                    Err(e) => Err(e),
                    Ok(desc) => Ok((class_name, member_name, desc)),
                },
            },
            Some(_) => Err(ParseError::ConstantKindMismatch),
            None => Err(ParseError::InvalidConstantPoolIndex),
        },
    }
}

/// Full resolution of an index expected to name a Fieldref entry, descriptor
/// text parsed into a typed field descriptor.
pub open spec fn spec_get_fieldref(pool: Seq<ConstantView>, idx: int) -> Result<
    FieldRefView,
    ParseError,
> {
    match spec_get(pool, idx) {
        Some(ConstantView::Fieldref(fc)) => match spec_resolve_member(
            pool,
            fc.class_index as int,
            fc.name_and_type_index as int,
        ) {
            Err(e) => Err(e),
            Ok((class_name, member_name, desc)) => match spec_parse_field(desc, 0) {
                Some((d, j)) => Ok(
                    FieldRefView { class: class_name, name: member_name, descriptor: d },
                ),
                None => Err(ParseError::InvalidDescriptorSyntax),
            },
        },
        Some(_) => Err(ParseError::ConstantKindMismatch),
        None => Err(ParseError::InvalidConstantPoolIndex),
    }
}

/// Full resolution of an already-dereferenced `Methodref` or
/// `InterfaceMethodref` payload, descriptor text parsed into a typed method
/// descriptor.
pub open spec fn spec_resolve_methodref(
    pool: Seq<ConstantView>,
    cnst: MethodrefConstant,
    is_interface: bool,
) -> Result<MethodRefView, ParseError> {
    match spec_resolve_member(pool, cnst.class_index as int, cnst.name_and_type_index as int) {
        Err(e) => Err(e),
        Ok((class_name, member_name, desc)) => match spec_parse_method(desc, 0) {
            Some((m, j)) => Ok(
                MethodRefView {
                    is_interface,
                    class: class_name,
                    name: member_name,
                    descriptor: m,
                },
            ),
            None => Err(ParseError::InvalidDescriptorSyntax),
        },
    }
}

/// An ordered, fixed-size-after-construction table of constants, indexed
/// 1-based.
#[derive(Debug)]
pub struct ConstantPool {
    storage: Vec<Constant>,
}

impl View for ConstantPool {
    type V = Seq<ConstantView>;

    closed spec fn view(&self) -> Seq<ConstantView> {
        self.storage@.map_values(|c: Constant| c@)
    }
}

impl ConstantPool {
    /// Wraps an already-decoded table of constants. Entry `i` of `storage`
    /// becomes pool index `i + 1`.
    pub fn new(storage: Vec<Constant>) -> (r: Self)
        ensures
            r@ == storage@.map_values(|c: Constant| c@),
    {
        ConstantPool { storage }
    }

    /// Returns the constant at the 1-based index `idx`: `None` for 0 and for
    /// indices beyond the table, the entry otherwise.
    pub fn get(&self, idx: u16) -> (r: Option<&Constant>)
        ensures
            match spec_get(self@, idx as int) {
                Some(c) => r matches Some(e) && e@ == c,
                None => r is None,
            },
    {
        if idx == 0 {
            None
        } else {
            let i = (idx - 1) as usize;
            if i < self.storage.len() {
                Some(&self.storage[i])
            } else {
                None
            }
        }
    }

    /// Resolves `index` to the text of a Utf8 entry, as an owned copy.
    pub fn get_utf8(&self, index: u16) -> (r: Result<String, ParseError>)
        ensures
            match spec_get_utf8(self@, index as int) {
                Ok(s) => r matches Ok(t) && t@ == s,
                Err(e) => r matches Err(e2) && e2 == e,
            },
    {
        match self.get(index) {
            Some(Constant::Utf8(s)) => Ok(s.clone()),
            Some(_) => Err(ParseError::ConstantKindMismatch),
            None => Err(ParseError::InvalidConstantPoolIndex),
        }
    }

    /// Resolves `index` through a Class entry to the class name, as an owned
    /// copy.
    pub fn get_class(&self, index: u16) -> (r: Result<String, ParseError>)
        ensures
            match spec_get_class(self@, index as int) {
                Ok(s) => r matches Ok(t) && t@ == s,
                Err(e) => r matches Err(e2) && e2 == e,
            },
    {
        match self.get(index) {
            Some(Constant::Class(c)) => self.get_utf8(c.name_index),
            Some(_) => Err(ParseError::ConstantKindMismatch),
            None => Err(ParseError::InvalidConstantPoolIndex),
        }
    }

    /// Resolves the two indices of a member reference into the class name,
    /// the member name, and the descriptor text.
    fn resolve_member(&self, class_index: u16, name_and_type_index: u16) -> (r: Result<
        (String, String, String),
        ParseError,
    >)
        ensures
            match spec_resolve_member(self@, class_index as int, name_and_type_index as int) {
                Ok(t) => r matches Ok(u) && u.0@ == t.0 && u.1@ == t.1 && u.2@ == t.2,
                Err(e) => r matches Err(e2) && e2 == e,
            },
    {
        let class_name = self.get_class(class_index)?;
        match self.get(name_and_type_index) {
            Some(Constant::NameAndType(nt)) => {
                let name_idx = nt.name_index;
                let desc_idx = nt.descriptor_index;
                let member_name = self.get_utf8(name_idx)?;
                let desc = self.get_utf8(desc_idx)?;
                Ok((class_name, member_name, desc))
            },
            Some(_) => Err(ParseError::ConstantKindMismatch),
            None => Err(ParseError::InvalidConstantPoolIndex),
        }
    }

    /// Resolves `index` through a Fieldref entry to a fully resolved
    /// [`FieldRef`], its descriptor text parsed into a typed descriptor.
    pub fn get_fieldref(&self, index: u16) -> (r: Result<FieldRef, ParseError>)
        ensures
            match spec_get_fieldref(self@, index as int) {
                Ok(f) => r matches Ok(g) && g@ == f,
                Err(e) => r matches Err(e2) && e2 == e,
            },
    {
        match self.get(index) {
            Some(Constant::Fieldref(fc)) => {
                let class_index = fc.class_index;
                let name_and_type_index = fc.name_and_type_index;
                let (class_name, member_name, desc) = self.resolve_member(
                    class_index,
                    name_and_type_index,
                )?;
                let descriptor = descriptor::parse_field_descriptor(desc.as_str())?;
                Ok(FieldRef { class: class_name, name: member_name, descriptor })
            },
            Some(_) => Err(ParseError::ConstantKindMismatch),
            None => Err(ParseError::InvalidConstantPoolIndex),
        }
    }

    /// Resolves an already-dereferenced `Methodref` or `InterfaceMethodref`
    /// payload to a fully resolved [`MethodRef`]. The caller determines the
    /// `is_interface` flag from the variant the payload came from.
    pub fn get_methodref(&self, cnst: MethodrefConstant, is_interface: bool) -> (r: Result<
        MethodRef,
        ParseError,
    >)
        ensures
            match spec_resolve_methodref(self@, cnst, is_interface) {
                Ok(m) => r matches Ok(g) && g@ == m,
                Err(e) => r matches Err(e2) && e2 == e,
            },
    {
        let (class_name, member_name, desc) = self.resolve_member(
            cnst.class_index,
            cnst.name_and_type_index,
        )?;
        let descriptor = descriptor::parse_method_descriptor(desc.as_str())?;
        Ok(MethodRef { is_interface, class: class_name, name: member_name, descriptor })
    }
}

} // verus!
