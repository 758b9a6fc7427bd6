//! Structs and verified parsing functions for `.class` files.
//!
//! The crate turns an untrusted, fully buffered byte sequence into a resolved
//! in-memory representation: a [`ClassFile`] holding its constant pool, typed
//! descriptors, attributes and decoded instructions. All cross-references are
//! resolved while parsing; every failure mode is a structured
//! [`error::ParseError`], never a panic.

use vstd::prelude::*;
use vstd::string::*;

pub mod attribute;
pub mod constant_pool;
pub mod cursor;
pub mod descriptor;
pub mod error;
pub mod op;
pub mod parser;

use crate::attribute::attributes_view;
use crate::attribute::Attribute;
use crate::attribute::AttributeView;
use crate::constant_pool::ConstantPool;
use crate::constant_pool::ConstantView;
use crate::descriptor::FieldDescriptor;
use crate::descriptor::FieldDescriptorView;
use crate::descriptor::MethodDescriptor;
use crate::descriptor::MethodDescriptorView;
use crate::error::ClassFileError;

verus! {

/// A fully resolved symbolic reference to a field: the holding class name,
/// the field name, and its parsed type descriptor. All strings are owned
/// copies of the constant-pool text.
#[derive(Debug, PartialEq, Eq, Clone)]
pub struct FieldRef {
    pub class: String,
    pub name: String,
    pub descriptor: FieldDescriptor,
}

/// Mathematical model of [`FieldRef`].
pub struct FieldRefView {
    pub class: Seq<char>,
    pub name: Seq<char>,
    pub descriptor: FieldDescriptorView,
}

impl View for FieldRef {
    type V = FieldRefView;

    open spec fn view(&self) -> FieldRefView {
        FieldRefView { class: self.class@, name: self.name@, descriptor: self.descriptor@ }
    }
}

/// A fully resolved symbolic reference to a method: the holding class name,
/// the method name, its parsed descriptor, and whether it was resolved
/// through an interface-method constant.
#[derive(Debug, PartialEq, Eq, Clone)]
pub struct MethodRef {
    /// `false`: a class method. `true`: an interface method.
    pub is_interface: bool,
    pub class: String,
    pub name: String,
    pub descriptor: MethodDescriptor,
}

/// Mathematical model of [`MethodRef`].
pub struct MethodRefView {
    pub is_interface: bool,
    pub class: Seq<char>,
    pub name: Seq<char>,
    pub descriptor: MethodDescriptorView,
}

impl View for MethodRef {
    type V = MethodRefView;

    open spec fn view(&self) -> MethodRefView {
        MethodRefView {
            is_interface: self.is_interface,
            class: self.class@,
            name: self.name@,
            descriptor: self.descriptor@,
        }
    }
}

/// A bitflag to check against `AccessFlags`.
#[derive(Debug, Copy, Clone)]
pub enum Access {
    Public,
    Final,
    Super,
    Interface,
    Abstract,
    Synthetic,
    Annotation,
    Enum,
    Module,
}

impl Access {
    /// The wire value of this flag in the `access_flags` bitset.
    pub open spec fn spec_bit(self) -> u16 {
        match self {
            Access::Public => 0x0001,
            Access::Final => 0x0010,
            Access::Super => 0x0020,
            Access::Interface => 0x0200,
            Access::Abstract => 0x0400,
            Access::Synthetic => 0x1000,
            Access::Annotation => 0x2000,
            Access::Enum => 0x4000,
            Access::Module => 0x8000,
        }
    }

    /// The wire value of this flag in the `access_flags` bitset.
    #[verifier::when_used_as_spec(spec_bit)]
    pub fn bit(self) -> (r: u16)
        ensures
            r == self.spec_bit(),
    {
        match self {
            Access::Public => 0x0001,
            Access::Final => 0x0010,
            Access::Super => 0x0020,
            Access::Interface => 0x0200,
            Access::Abstract => 0x0400,
            Access::Synthetic => 0x1000,
            Access::Annotation => 0x2000,
            Access::Enum => 0x4000,
            Access::Module => 0x8000,
        }
    }
}

/// The `access_flags` bitset of a class, field or method.
#[derive(Debug, Copy, Clone, PartialEq, Eq, Structural)]
pub struct AccessFlags(pub u16);

impl AccessFlags {
    /// True when `flag`'s bit is set in the bitset.
    pub open spec fn spec_has(self, flag: Access) -> bool {
        self.0 & flag.spec_bit() != 0
    }

    /// True when `flag`'s bit is set in the bitset.
    #[verifier::when_used_as_spec(spec_has)]
    pub fn has(self, flag: Access) -> (r: bool)
        ensures
            r == self.spec_has(flag),
    {
        self.0 & flag.bit() != 0
    }

    /// Wraps the raw bitset read from the file.
    pub fn new(bits: u16) -> (r: Self)
        ensures
            r == AccessFlags(bits),
    {
        AccessFlags(bits)
    }

    /// The names of the set flags, in a fixed order, wrapped in braces.
    pub open spec fn spec_describe(self) -> Seq<char> {
        "{ "@ + (if self.spec_has(Access::Public) {
            "Public "@
        } else {
            Seq::<char>::empty()
        }) + (if self.spec_has(Access::Final) {
            "Final "@
        } else {
            Seq::<char>::empty()
        }) + (if self.spec_has(Access::Super) {
            "Super "@
        } else {
            Seq::<char>::empty()
        }) + (if self.spec_has(Access::Interface) {
            "Interface "@
        } else {
            Seq::<char>::empty()
        }) + (if self.spec_has(Access::Abstract) {
            "Abstract "@
        } else {
            Seq::<char>::empty()
        }) + (if self.spec_has(Access::Synthetic) {
            "Synthetic "@
        } else {
            Seq::<char>::empty()
        }) + (if self.spec_has(Access::Annotation) {
            "Annotation "@
        } else {
            Seq::<char>::empty()
        }) + (if self.spec_has(Access::Enum) {
            "Enum "@
        } else {
            Seq::<char>::empty()
        }) + (if self.spec_has(Access::Module) {
            "Module "@
        } else {
            Seq::<char>::empty()
        }) + "}"@
    }

    /// Renders the set flags as text, name by name in a fixed order.
    pub fn describe(self) -> (r: String)
        ensures
            r@ == self.spec_describe(),
    {
        let mut r = String::from_str("{ ");
        if self.has(Access::Public) {
            r.append("Public ");
        }
        if self.has(Access::Final) {
            r.append("Final ");
        }
        if self.has(Access::Super) {
            r.append("Super ");
        }
        if self.has(Access::Interface) {
            r.append("Interface ");
        }
        if self.has(Access::Abstract) {
            r.append("Abstract ");
        }
        if self.has(Access::Synthetic) {
            r.append("Synthetic ");
        }
        if self.has(Access::Annotation) {
            r.append("Annotation ");
        }
        if self.has(Access::Enum) {
            r.append("Enum ");
        }
        if self.has(Access::Module) {
            r.append("Module ");
        }
        r.append("}");
        proof {
            assert(r@ =~= self.spec_describe());
        }
        r
    }
}

/// One field of a class: access flags, name, parsed type descriptor, and
/// its attributes. All strings are owned copies of constant-pool text.
#[derive(Debug, PartialEq, Eq)]
pub struct FieldInfo {
    pub access_flags: AccessFlags,
    pub name: String,
    pub descriptor: FieldDescriptor,
    pub attributes: Vec<Attribute>,
}

/// Mathematical model of [`FieldInfo`].
pub struct FieldInfoView {
    pub access_flags: AccessFlags,
    pub name: Seq<char>,
    pub descriptor: FieldDescriptorView,
    pub attributes: Seq<AttributeView>,
}

impl View for FieldInfo {
    type V = FieldInfoView;

    open spec fn view(&self) -> FieldInfoView {
        FieldInfoView {
            access_flags: self.access_flags,
            name: self.name@,
            descriptor: self.descriptor@,
            attributes: attributes_view(self.attributes@),
        }
    }
}

/// One method of a class: access flags, name, parsed method descriptor, and
/// its attributes (a `Code` attribute among them, when the method has code).
#[derive(Debug, PartialEq, Eq)]
pub struct MethodInfo {
    pub access_flags: AccessFlags,
    pub name: String,
    pub descriptor: MethodDescriptor,
    pub attributes: Vec<Attribute>,
}

/// Mathematical model of [`MethodInfo`].
pub struct MethodInfoView {
    pub access_flags: AccessFlags,
    pub name: Seq<char>,
    pub descriptor: MethodDescriptorView,
    pub attributes: Seq<AttributeView>,
}

impl View for MethodInfo {
    type V = MethodInfoView;

    open spec fn view(&self) -> MethodInfoView {
        MethodInfoView {
            access_flags: self.access_flags,
            name: self.name@,
            descriptor: self.descriptor@,
            attributes: attributes_view(self.attributes@),
        }
    }
}

/// A fully decoded class file. Constructed atomically by
/// [`ClassFile::parse_from_bytes`]; immutable thereafter. It owns its
/// constant pool and owned copies of every derived string, so nothing in it
/// borrows from the input buffer.
#[derive(Debug)]
pub struct ClassFile {
    minor_version: u16,
    major_version: u16,
    constant_pool: ConstantPool,
    access_flags: AccessFlags,
    this_class: String,
    super_class: String,
    interfaces: Vec<String>,
    fields: Vec<FieldInfo>,
    methods: Vec<MethodInfo>,
    attributes: Vec<Attribute>,
}

/// Mathematical model of [`ClassFile`].
pub struct ClassFileView {
    pub minor_version: u16,
    pub major_version: u16,
    pub constant_pool: Seq<ConstantView>,
    pub access_flags: AccessFlags,
    pub this_class: Seq<char>,
    pub super_class: Seq<char>,
    pub interfaces: Seq<Seq<char>>,
    pub fields: Seq<FieldInfoView>,
    pub methods: Seq<MethodInfoView>,
    pub attributes: Seq<AttributeView>,
}

impl View for ClassFile {
    type V = ClassFileView;

    closed spec fn view(&self) -> ClassFileView {
        ClassFileView {
            minor_version: self.minor_version,
            major_version: self.major_version,
            constant_pool: self.constant_pool@,
            access_flags: self.access_flags,
            this_class: self.this_class@,
            super_class: self.super_class@,
            interfaces: self.interfaces@.map_values(|s: String| s@),
            fields: self.fields@.map_values(|f: FieldInfo| f@),
            methods: self.methods@.map_values(|m: MethodInfo| m@),
            attributes: attributes_view(self.attributes@),
        }
    }
}

/// Builds the class file from its decoded parts. Only the parser uses this;
/// a finished `ClassFile` is immutable.
pub(crate) fn assemble_class_file(
    minor_version: u16,
    major_version: u16,
    constant_pool: ConstantPool,
    access_flags: AccessFlags,
    this_class: String,
    super_class: String,
    interfaces: Vec<String>,
    fields: Vec<FieldInfo>,
    methods: Vec<MethodInfo>,
    attributes: Vec<Attribute>,
) -> (r: ClassFile)
    ensures
        r@ == (ClassFileView {
            minor_version,
            major_version,
            constant_pool: constant_pool@,
            access_flags,
            this_class: this_class@,
            super_class: super_class@,
            interfaces: interfaces@.map_values(|s: String| s@),
            fields: fields@.map_values(|f: FieldInfo| f@),
            methods: methods@.map_values(|m: MethodInfo| m@),
            attributes: attributes_view(attributes@),
        }),
{
    ClassFile {
        minor_version,
        major_version,
        constant_pool,
        access_flags,
        this_class,
        super_class,
        interfaces,
        fields,
        methods,
        attributes,
    }
}

impl ClassFile {
    /// Parses a `ClassFile` from the provided bytes of a `.class` file. The
    /// parse is all-or-nothing: on any fault the structured error carries
    /// the failure kind and a byte offset near it, and no partially built
    /// value is observable.
    pub fn parse_from_bytes(raw: &[u8]) -> (r: Result<ClassFile, ClassFileError>)
        ensures
            match crate::parser::spec_parse_class_file(raw@) {
                Ok(cf) => r matches Ok(c) && c@ == cf,
                Err(k) => r matches Err(e) && e.kind == k && e.offset <= raw@.len(),
            },
    {
        crate::parser::Parser::new(raw).run()
    }

    /// The class's access-flag bitset.
    pub fn access_flags(&self) -> (r: AccessFlags)
        ensures
            r == self@.access_flags,
    {
        self.access_flags
    }

    /// The class's fields, in file order.
    pub fn fields(&self) -> (r: &[FieldInfo])
        ensures
            r@.map_values(|f: FieldInfo| f@) == self@.fields,
    {
        self.fields.as_slice()
    }

    /// The class's methods, in file order.
    pub fn methods(&self) -> (r: &[MethodInfo])
        ensures
            r@.map_values(|m: MethodInfo| m@) == self@.methods,
    {
        self.methods.as_slice()
    }

    /// The class's top-level attributes, in file order.
    pub fn attributes(&self) -> (r: &[Attribute])
        ensures
            attributes_view(r@) == self@.attributes,
    {
        self.attributes.as_slice()
    }

    /// The name of this class.
    pub fn this_class(&self) -> (r: &str)
        ensures
            r@ == self@.this_class,
    {
        self.this_class.as_str()
    }

    /// (major, minor)
    pub fn version(&self) -> (r: (u16, u16))
        ensures
            r.0 == self@.major_version,
            r.1 == self@.minor_version,
    {
        (self.major_version, self.minor_version)
    }

    /// The name of the superclass.
    pub fn super_class(&self) -> (r: &str)
        ensures
            r@ == self@.super_class,
    {
        self.super_class.as_str()
    }

    /// The names of the direct interfaces, in file order.
    pub fn interfaces(&self) -> (r: &[String])
        ensures
            r@.map_values(|s: String| s@) == self@.interfaces,
    {
        self.interfaces.as_slice()
    }
}

} // verus!

