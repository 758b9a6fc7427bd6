//! The class-file assembler: raw constant reader, attribute decoder, and
//! top-level parse.
//!
//! The wire format is modelled by the spec functions of this module
//! ([`spec_parse_class_file`] at the top level); the executable parser is
//! proved to return exactly what the model says. Parsing is all-or-nothing:
//! any fault aborts the whole parse with a structured error.

use crate::assemble_class_file;
use crate::attribute::attributes_view;
use crate::attribute::lemma_attributes_view_push;
use crate::attribute::Attribute;
use crate::attribute::AttributeView;
use crate::attribute::CodeAttribute;
use crate::attribute::CodeAttributeView;
use crate::attribute::ConstantValueAttribute;
use crate::attribute::ConstantValueAttributeView;
use crate::attribute::ExceptionHandlerDescriptor;
use crate::attribute::LineNumberTableEntry;
use crate::constant_pool::spec_get;
use crate::constant_pool::spec_get_class;
use crate::constant_pool::spec_get_utf8;
use crate::constant_pool::ClassConstant;
use crate::constant_pool::Constant;
use crate::constant_pool::ConstantPool;
use crate::constant_pool::ConstantValueKind;
use crate::constant_pool::ConstantView;
use crate::constant_pool::FieldrefConstant;
use crate::constant_pool::MethodrefConstant;
use crate::constant_pool::NameAndTypeConstant;
use crate::cursor::be_u16;
use crate::cursor::be_u32;
use crate::cursor::be_u64;
use crate::cursor::signed32;
use crate::cursor::signed64;
use crate::cursor::ByteCursor;
use crate::descriptor;
use crate::descriptor::spec_parse_field;
use crate::descriptor::spec_parse_method;
use crate::error::ClassFileError;
use crate::error::ParseError;
use crate::op::parse_ops_from_code_bytes;
use crate::op::parser::spec_parse_ops;
use crate::AccessFlags;
use crate::ClassFile;
use crate::ClassFileView;
use crate::FieldInfo;
use crate::FieldInfoView;
use crate::MethodInfo;
use crate::MethodInfoView;
use vstd::prelude::*;
use vstd::slice::slice_to_vec;
use vstd::string::*;
use vstd::utf8::decode_utf8;
use vstd::utf8::valid_utf8;

verus! {

/// Prepends an already-decoded prefix to the outcome of decoding the rest
/// of a table.
pub open spec fn table_compose<T>(pre: Seq<T>, r: Result<(Seq<T>, int), ParseError>) -> Result<
    (Seq<T>, int),
    ParseError,
> {
    match r {
        Ok((s, j)) => Ok((pre + s, j)),
        Err(e) => Err(e),
    }
}

/// What one constant-pool entry at position `i` decodes to, together with
/// the position just after it. Tag 11 (`InterfaceMethodref`) is read with
/// the same two-index shape as `Methodref`, matching the class-file format.
pub open spec fn spec_parse_constant(bytes: Seq<u8>, i: int) -> Result<
    (ConstantView, int),
    ParseError,
> {
    if i < 0 || i + 1 > bytes.len() {
        Err(ParseError::TruncatedInput)
    } else {
        let tag = bytes[i];
        if tag == 7 {
            if i + 3 > bytes.len() {
                Err(ParseError::TruncatedInput)
            } else {
                Ok(
                    (
                        ConstantView::Class(
                            ClassConstant { name_index: be_u16(bytes, i + 1) as u16 },
                        ),
                        i + 3,
                    ),
                )
            }
        } else if tag == 9 {
            if i + 5 > bytes.len() {
                Err(ParseError::TruncatedInput)
            } else {
                Ok(
                    (
                        ConstantView::Fieldref(
                            FieldrefConstant {
                                class_index: be_u16(bytes, i + 1) as u16,
                                name_and_type_index: be_u16(bytes, i + 3) as u16,
                            },
                        ),
                        i + 5,
                    ),
                )
            }
        } else if tag == 10 {
            if i + 5 > bytes.len() {
                Err(ParseError::TruncatedInput)
            } else {
                Ok(
                    (
                        ConstantView::Methodref(
                            MethodrefConstant {
                                class_index: be_u16(bytes, i + 1) as u16,
                                name_and_type_index: be_u16(bytes, i + 3) as u16,
                            },
                        ),
                        i + 5,
                    ),
                )
            }
        } else if tag == 11 {
            if i + 5 > bytes.len() {
                Err(ParseError::TruncatedInput)
            } else {
                Ok(
                    (
                        ConstantView::InterfaceMethodref(
                            MethodrefConstant {
                                class_index: be_u16(bytes, i + 1) as u16,
                                name_and_type_index: be_u16(bytes, i + 3) as u16,
                            },
                        ),
                        i + 5,
                    ),
                )
            }
        } else if tag == 12 {
            if i + 5 > bytes.len() {
                Err(ParseError::TruncatedInput)
            } else {
                Ok(
                    (
                        ConstantView::NameAndType(
                            NameAndTypeConstant {
                                name_index: be_u16(bytes, i + 1) as u16,
                                descriptor_index: be_u16(bytes, i + 3) as u16,
                            },
                        ),
                        i + 5,
                    ),
                )
            }
        } else if tag == 1 {
            if i + 3 > bytes.len() {
                Err(ParseError::TruncatedInput)
            } else {
                let n = be_u16(bytes, i + 1);
                if i + 3 + n > bytes.len() {
                    Err(ParseError::TruncatedInput)
                } else {
                    let text = bytes.subrange(i + 3, i + 3 + n);
                    if valid_utf8(text) {
                        Ok((ConstantView::Utf8(decode_utf8(text)), i + 3 + n))
                    } else {
                        Err(ParseError::MalformedText)
                    }
                }
            }
        } else if tag == 3 {
            if i + 5 > bytes.len() {
                Err(ParseError::TruncatedInput)
            } else {
                Ok(
                    (
                        ConstantView::ConstantValue(
                            ConstantValueKind::Integer(signed32(be_u32(bytes, i + 1)) as i32),
                        ),
                        i + 5,
                    ),
                )
            }
        } else if tag == 4 {
            if i + 5 > bytes.len() {
                Err(ParseError::TruncatedInput)
            } else {
                Ok(
                    (
                        ConstantView::ConstantValue(
                            ConstantValueKind::Float(be_u32(bytes, i + 1) as u32),
                        ),
                        i + 5,
                    ),
                )
            }
        } else if tag == 5 {
            if i + 9 > bytes.len() {
                Err(ParseError::TruncatedInput)
            } else {
                Ok(
                    (
                        ConstantView::ConstantValue(
                            ConstantValueKind::Long(signed64(be_u64(bytes, i + 1)) as i64),
                        ),
                        i + 9,
                    ),
                )
            }
        } else if tag == 6 {
            if i + 9 > bytes.len() {
                Err(ParseError::TruncatedInput)
            } else {
                Ok(
                    (
                        ConstantView::ConstantValue(
                            ConstantValueKind::Double(be_u64(bytes, i + 1) as u64),
                        ),
                        i + 9,
                    ),
                )
            }
        } else if tag == 8 {
            if i + 3 > bytes.len() {
                Err(ParseError::TruncatedInput)
            } else {
                Ok(
                    (
                        ConstantView::ConstantValue(
                            ConstantValueKind::StringRef(be_u16(bytes, i + 1) as u16),
                        ),
                        i + 3,
                    ),
                )
            }
        } else {
            Err(ParseError::UnknownConstantTag)
        }
    }
}

/// What `n` consecutive constant-pool entries starting at `i` decode to.
pub open spec fn spec_parse_constants(bytes: Seq<u8>, i: int, n: int) -> Result<
    (Seq<ConstantView>, int),
    ParseError,
>
    decreases n,
{
    if n <= 0 {
        Ok((Seq::empty(), i))
    } else {
        match spec_parse_constant(bytes, i) {
            Err(e) => Err(e),
            Ok((c, j)) => match spec_parse_constants(bytes, j, n - 1) {
                Err(e) => Err(e),
                Ok((rest, k)) => Ok((seq![c] + rest, k)),
            },
        }
    }
}

/// The rows of a `LineNumberTable` body whose count field sits at `body`.
pub open spec fn lnt_entries(bytes: Seq<u8>, body: int, cnt: int) -> Seq<LineNumberTableEntry> {
    Seq::new(
        cnt as nat,
        |k: int|
            LineNumberTableEntry {
                start_pc: be_u16(bytes, body + 2 + 4 * k) as u16,
                line_number: be_u16(bytes, body + 4 + 4 * k) as u16,
            },
    )
}

/// The rows of an exception table whose first row sits at `p`.
pub open spec fn exception_entries(bytes: Seq<u8>, p: int, cnt: int) -> Seq<
    ExceptionHandlerDescriptor,
> {
    Seq::new(
        cnt as nat,
        |k: int|
            ExceptionHandlerDescriptor {
                start_pc: be_u16(bytes, p + 8 * k) as u16,
                end_pc: be_u16(bytes, p + 8 * k + 2) as u16,
                handler_pc: be_u16(bytes, p + 8 * k + 4) as u16,
                catch_type: be_u16(bytes, p + 8 * k + 6) as u16,
            },
    )
}

/// What one attribute record at position `i` decodes to, together with the
/// position just after it. The record is `name_index:u16`, `length:u32`,
/// then exactly `length` bytes of payload; a body that consumes a different
/// number of bytes than `length` fails with `AttributeLengthMismatch`, and
/// an unrecognized name fails with `UnknownAttributeName`.
pub open spec fn spec_parse_attribute(bytes: Seq<u8>, pool: Seq<ConstantView>, i: int) -> Result<
    (AttributeView, int),
    ParseError,
>
    decreases bytes.len() - i, 0int, 0int,
{
    if i < 0 || i + 6 > bytes.len() {
        Err(ParseError::TruncatedInput)
    } else {
        match spec_get_utf8(pool, be_u16(bytes, i)) {
            Err(e) => Err(e),
            Ok(name) => {
                let alen = be_u32(bytes, i + 2);
                let body = i + 6;
                if name == "SourceFile"@ {
                    if body + 2 > bytes.len() {
                        Err(ParseError::TruncatedInput)
                    } else {
                        match spec_get_utf8(pool, be_u16(bytes, body)) {
                            Err(e) => Err(e),
                            Ok(s) => if alen != 2 {
                                Err(ParseError::AttributeLengthMismatch)
                            } else {
                                Ok((AttributeView::SourceFile(s), body + 2))
                            },
                        }
                    }
                } else if name == "LineNumberTable"@ {
                    if body + 2 > bytes.len() {
                        Err(ParseError::TruncatedInput)
                    } else {
                        let cnt = be_u16(bytes, body);
                        if body + 2 + 4 * cnt > bytes.len() {
                            Err(ParseError::TruncatedInput)
                        } else if alen != 2 + 4 * cnt {
                            Err(ParseError::AttributeLengthMismatch)
                        } else {
                            Ok(
                                (
                                    AttributeView::LineNumberTable(lnt_entries(bytes, body, cnt)),
                                    body + 2 + 4 * cnt,
                                ),
                            )
                        }
                    }
                } else if name == "ConstantValue"@ {
                    if body + 2 > bytes.len() {
                        Err(ParseError::TruncatedInput)
                    } else {
                        match spec_get(pool, be_u16(bytes, body)) {
                            Some(ConstantView::ConstantValue(kind)) => {
                                let att = match kind {
                                    ConstantValueKind::Integer(x) => Ok(
                                        ConstantValueAttributeView::Integer(x),
                                    ),
                                    ConstantValueKind::Float(x) => Ok(
                                        ConstantValueAttributeView::Float(x),
                                    ),
                                    ConstantValueKind::Long(x) => Ok(
                                        ConstantValueAttributeView::Long(x),
                                    ),
                                    ConstantValueKind::Double(x) => Ok(
                                        ConstantValueAttributeView::Double(x),
                                    ),
                                    ConstantValueKind::StringRef(si) => match spec_get_utf8(
                                        pool,
                                        si as int,
                                    ) {
                                        Err(e) => Err(e),
                                        Ok(s) => Ok(ConstantValueAttributeView::StringValue(s)),
                                    },
                                };
                                match att {
                                    Err(e) => Err(e),
                                    Ok(v) => if alen != 2 {
                                        Err(ParseError::AttributeLengthMismatch)
                                    } else {
                                        Ok((AttributeView::ConstantValue(v), body + 2))
                                    },
                                }
                            },
                            Some(_) => Err(ParseError::ConstantKindMismatch),
                            None => Err(ParseError::InvalidConstantPoolIndex),
                        }
                    }
                } else if name == "Code"@ {
                    if body + 8 > bytes.len() {
                        Err(ParseError::TruncatedInput)
                    } else {
                        let cl = be_u32(bytes, body + 4);
                        if body + 8 + cl > bytes.len() {
                            Err(ParseError::TruncatedInput)
                        } else {
                            match spec_parse_ops(
                                bytes.subrange(body + 8, body + 8 + cl),
                                pool,
                                0,
                            ) {
                                Err(e) => Err(e),
                                Ok(ops) => {
                                    let ep = body + 8 + cl;
                                    if ep + 2 > bytes.len() {
                                        Err(ParseError::TruncatedInput)
                                    } else {
                                        let etl = be_u16(bytes, ep);
                                        if ep + 2 + 8 * etl > bytes.len() {
                                            Err(ParseError::TruncatedInput)
                                        } else {
                                            let ap = ep + 2 + 8 * etl;
                                            if ap + 2 > bytes.len() {
                                                Err(ParseError::TruncatedInput)
                                            } else {
                                                match spec_parse_attributes(
                                                    bytes,
                                                    pool,
                                                    ap + 2,
                                                    be_u16(bytes, ap),
                                                ) {
                                                    Err(e) => Err(e),
                                                    Ok((attrs, fin)) => if fin - body != alen {
                                                        Err(ParseError::AttributeLengthMismatch)
                                                    } else {
                                                        Ok(
                                                            (
                                                                AttributeView::Code(
                                                                    CodeAttributeView {
                                                                        max_stack: be_u16(bytes, body) as u16,
                                                                        max_locals: be_u16(bytes, body + 2) as u16,
                                                                        code: ops,
                                                                        exception_table: exception_entries(
                                                                            bytes,
                                                                            ep + 2,
                                                                            etl,
                                                                        ),
                                                                        attributes: attrs,
                                                                    },
                                                                ),
                                                                fin,
                                                            ),
                                                        )
                                                    },
                                                }
                                            }
                                        }
                                    }
                                },
                            }
                        }
                    }
                } else {
                    Err(ParseError::UnknownAttributeName)
                }
            },
        }
    }
}

/// What `n` consecutive attribute records starting at `i` decode to.
pub open spec fn spec_parse_attributes(
    bytes: Seq<u8>,
    pool: Seq<ConstantView>,
    i: int,
    n: int,
) -> Result<(Seq<AttributeView>, int), ParseError>
    decreases bytes.len() - i, 1int, n,
{
    if n <= 0 {
        Ok((Seq::empty(), i))
    } else {
        match spec_parse_attribute(bytes, pool, i) {
            Err(e) => Err(e),
            Ok((a, j)) => if j <= i || j > bytes.len() {
                Err(ParseError::TruncatedInput)
            } else {
                match spec_parse_attributes(bytes, pool, j, n - 1) {
                    Err(e) => Err(e),
                    Ok((rest, k)) => Ok((seq![a] + rest, k)),
                }
            },
        }
    }
}

/// What one `field_info` record at position `i` decodes to, together with
/// the position just after it.
pub open spec fn spec_parse_field_info(bytes: Seq<u8>, pool: Seq<ConstantView>, i: int) -> Result<
    (FieldInfoView, int),
    ParseError,
> {
    if i < 0 || i + 8 > bytes.len() {
        Err(ParseError::TruncatedInput)
    } else {
        match spec_get_utf8(pool, be_u16(bytes, i + 2)) {
            Err(e) => Err(e),
            Ok(name) => match spec_get_utf8(pool, be_u16(bytes, i + 4)) {
                Err(e) => Err(e),
                Ok(desc) => match spec_parse_field(desc, 0) {
                    None => Err(ParseError::InvalidDescriptorSyntax),
                    Some((d, unused)) => match spec_parse_attributes(
                        bytes,
                        pool,
                        i + 8,
                        be_u16(bytes, i + 6),
                    ) {
                        Err(e) => Err(e),
                        Ok((attrs, j)) => Ok(
                            (
                                FieldInfoView {
                                    access_flags: AccessFlags(be_u16(bytes, i) as u16),
                                    name,
                                    descriptor: d,
                                    attributes: attrs,
                                },
                                j,
                            ),
                        ),
                    },
                },
            },
        }
    }
}

/// What `n` consecutive `field_info` records starting at `i` decode to.
pub open spec fn spec_parse_field_infos(
    bytes: Seq<u8>,
    pool: Seq<ConstantView>,
    i: int,
    n: int,
) -> Result<(Seq<FieldInfoView>, int), ParseError>
    decreases n,
{
    if n <= 0 {
        Ok((Seq::empty(), i))
    } else {
        match spec_parse_field_info(bytes, pool, i) {
            Err(e) => Err(e),
            Ok((f, j)) => match spec_parse_field_infos(bytes, pool, j, n - 1) {
                Err(e) => Err(e),
                Ok((rest, k)) => Ok((seq![f] + rest, k)),
            },
        }
    }
}

/// What one `method_info` record at position `i` decodes to, together with
/// the position just after it.
pub open spec fn spec_parse_method_info(bytes: Seq<u8>, pool: Seq<ConstantView>, i: int) -> Result<
    (MethodInfoView, int),
    ParseError,
> {
    if i < 0 || i + 8 > bytes.len() {
        Err(ParseError::TruncatedInput)
    } else {
        match spec_get_utf8(pool, be_u16(bytes, i + 2)) {
            Err(e) => Err(e),
            Ok(name) => match spec_get_utf8(pool, be_u16(bytes, i + 4)) {
                Err(e) => Err(e),
                Ok(desc) => match spec_parse_method(desc, 0) {
                    None => Err(ParseError::InvalidDescriptorSyntax),
                    Some((d, unused)) => match spec_parse_attributes(
                        bytes,
                        pool,
                        i + 8,
                        be_u16(bytes, i + 6),
                    ) {
                        Err(e) => Err(e),
                        Ok((attrs, j)) => Ok(
                            (
                                MethodInfoView {
                                    access_flags: AccessFlags(be_u16(bytes, i) as u16),
                                    name,
                                    descriptor: d,
                                    attributes: attrs,
                                },
                                j,
                            ),
                        ),
                    },
                },
            },
        }
    }
}

/// What `n` consecutive `method_info` records starting at `i` decode to.
pub open spec fn spec_parse_method_infos(
    bytes: Seq<u8>,
    pool: Seq<ConstantView>,
    i: int,
    n: int,
) -> Result<(Seq<MethodInfoView>, int), ParseError>
    decreases n,
{
    if n <= 0 {
        Ok((Seq::empty(), i))
    } else {
        match spec_parse_method_info(bytes, pool, i) {
            Err(e) => Err(e),
            Ok((m, j)) => match spec_parse_method_infos(bytes, pool, j, n - 1) {
                Err(e) => Err(e),
                Ok((rest, k)) => Ok((seq![m] + rest, k)),
            },
        }
    }
}

/// What `n` interface entries starting at `i` resolve to: each a `u16`
/// index resolved directly to a Utf8 name.
pub open spec fn spec_resolve_interfaces(
    bytes: Seq<u8>,
    pool: Seq<ConstantView>,
    i: int,
    n: int,
) -> Result<(Seq<Seq<char>>, int), ParseError>
    decreases n,
{
    if n <= 0 {
        Ok((Seq::empty(), i))
    } else if i < 0 || i + 2 > bytes.len() {
        Err(ParseError::TruncatedInput)
    } else {
        match spec_get_utf8(pool, be_u16(bytes, i)) {
            Err(e) => Err(e),
            Ok(s) => match spec_resolve_interfaces(bytes, pool, i + 2, n - 1) {
                Err(e) => Err(e),
                Ok((rest, j)) => Ok((seq![s] + rest, j)),
            },
        }
    }
}

/// What a whole class file decodes to: magic, versions, constant pool,
/// flags, this/super class, interfaces, fields, methods and top-level
/// attributes, or the first failure. Bytes after the last attribute are
/// ignored. A `constant_pool_count` of 0 cannot describe a pool (the count
/// is one more than the number of entries) and fails as a malformed header.
pub open spec fn spec_parse_class_file(bytes: Seq<u8>) -> Result<ClassFileView, ParseError> {
    if bytes.len() < 4 || be_u32(bytes, 0) != 0xCAFEBABE {
        Err(ParseError::MalformedHeader)
    } else if bytes.len() < 10 {
        Err(ParseError::TruncatedInput)
    } else {
        let minor = be_u16(bytes, 4);
        let major = be_u16(bytes, 6);
        let cp_cnt = be_u16(bytes, 8);
        if cp_cnt == 0 {
            Err(ParseError::MalformedHeader)
        } else {
            match spec_parse_constants(bytes, 10, cp_cnt - 1) {
                Err(e) => Err(e),
                Ok((pool, p1)) => if p1 + 4 > bytes.len() {
                    Err(ParseError::TruncatedInput)
                } else {
                    let af = be_u16(bytes, p1);
                    match spec_get_class(pool, be_u16(bytes, p1 + 2)) {
                        Err(e) => Err(e),
                        Ok(this_name) => if p1 + 6 > bytes.len() {
                            Err(ParseError::TruncatedInput)
                        } else {
                            match spec_get_class(pool, be_u16(bytes, p1 + 4)) {
                                Err(e) => Err(e),
                                Ok(super_name) => if p1 + 8 > bytes.len() {
                                    Err(ParseError::TruncatedInput)
                                } else {
                                    match spec_resolve_interfaces(
                                        bytes,
                                        pool,
                                        p1 + 8,
                                        be_u16(bytes, p1 + 6),
                                    ) {
                                        Err(e) => Err(e),
                                        Ok((ifaces, p2)) => if p2 + 2 > bytes.len() {
                                            Err(ParseError::TruncatedInput)
                                        } else {
                                            match spec_parse_field_infos(
                                                bytes,
                                                pool,
                                                p2 + 2,
                                                be_u16(bytes, p2),
                                            ) {
                                                Err(e) => Err(e),
                                                Ok((fields, p3)) => if p3 + 2 > bytes.len() {
                                                    Err(ParseError::TruncatedInput)
                                                } else {
                                                    match spec_parse_method_infos(
                                                        bytes,
                                                        pool,
                                                        p3 + 2,
                                                        be_u16(bytes, p3),
                                                    ) {
                                                        Err(e) => Err(e),
                                                        Ok((methods, p4)) => if p4 + 2
                                                            > bytes.len() {
                                                            Err(ParseError::TruncatedInput)
                                                        } else {
                                                            match spec_parse_attributes(
                                                                bytes,
                                                                pool,
                                                                p4 + 2,
                                                                be_u16(bytes, p4),
                                                            ) {
                                                                Err(e) => Err(e),
                                                                Ok((attrs, p5)) => Ok(
                                                                    ClassFileView {
                                                                        minor_version: minor as u16,
                                                                        major_version: major as u16,
                                                                        constant_pool: pool,
                                                                        access_flags: AccessFlags(
                                                                            af as u16,
                                                                        ),
                                                                        this_class: this_name,
                                                                        super_class: super_name,
                                                                        interfaces: ifaces,
                                                                        fields,
                                                                        methods,
                                                                        attributes: attrs,
                                                                    },
                                                                ),
                                                            }
                                                        },
                                                    }
                                                },
                                            }
                                        },
                                    }
                                },
                            }
                        },
                    }
                },
            }
        }
    }
}

/// Every constant-pool entry that decodes occupies at least 3 bytes and
/// ends inside the input.
proof fn lemma_constant_min_size(bytes: Seq<u8>, i: int)
    ensures
        spec_parse_constant(bytes, i) matches Ok((c, j)) ==> i + 3 <= j <= bytes.len(),
{
}

/// A table of `n` entries that decodes holds exactly `n` entries and
/// occupies at least `3 * n` bytes.
proof fn lemma_constants_min_size(bytes: Seq<u8>, i: int, n: int)
    ensures
        spec_parse_constants(bytes, i, n) matches Ok((s, j)) ==> s.len() == (if n >= 0 {
            n
        } else {
            0
        }) && i + 3 * n <= j && (n > 0 ==> j <= bytes.len()),
    decreases n,
{
    if n > 0 {
        lemma_constant_min_size(bytes, i);
        match spec_parse_constant(bytes, i) {
            Ok((c, j)) => {
                lemma_constants_min_size(bytes, j, n - 1);
            },
            Err(e) => {},
        }
    }
}

/// Law: a `constant_pool_count` that claims more entries than the remaining
/// buffer can hold never yields a class file. Each entry needs at least 3
/// bytes, so when `3 * (count - 1)` exceeds what follows the header the
/// whole parse fails with a structured error (and, this function being
/// verified, without reading past the buffer or panicking).
pub proof fn lemma_overclaimed_pool_count_fails(bytes: Seq<u8>)
    requires
        bytes.len() >= 10,
        10 + 3 * (be_u16(bytes, 8) - 1) > bytes.len(),
    ensures
        spec_parse_class_file(bytes) is Err,
{
    let cp_cnt = be_u16(bytes, 8);
    if bytes.len() < 4 || be_u32(bytes, 0) != 0xCAFEBABE {
    } else if cp_cnt == 0 {
    } else {
        lemma_constants_min_size(bytes, 10, cp_cnt - 1);
    }
}

/// Relies on `String::from_utf8`: it succeeds exactly on valid UTF-8 and
/// decodes it; `vstd::utf8` states what valid UTF-8 and its decoding mean.
#[verifier::external_body]
fn string_from_utf8(bytes: Vec<u8>) -> (r: Option<String>)
    ensures
        r is Some <==> valid_utf8(bytes@),
        r matches Some(s) ==> s@ == decode_utf8(bytes@),
{
    String::from_utf8(bytes).ok()
}

/// Reinterprets a 32-bit word as two's-complement signed.
fn to_i32(v: u32) -> (r: i32)
    ensures
        r as int == signed32(v as int),
{
    if v <= 0x7FFF_FFFF {
        v as i32
    } else {
        ((v as i64) - 0x1_0000_0000i64) as i32
    }
}

/// Reinterprets a 64-bit word as two's-complement signed.
fn to_i64(v: u64) -> (r: i64)
    ensures
        r as int == signed64(v as int),
{
    if v <= 0x7FFF_FFFF_FFFF_FFFF {
        v as i64
    } else {
        ((v as i128) - 0x1_0000_0000_0000_0000i128) as i64
    }
}

/// Reads one constant-pool entry: a 1-byte tag, then the tag's payload.
fn parse_constant(cursor: &mut ByteCursor) -> (r: Result<Constant, ParseError>)
    requires
        old(cursor).wf(),
    ensures
        final(cursor).wf(),
        final(cursor).bytes() == old(cursor).bytes(),
        match spec_parse_constant(old(cursor).bytes(), old(cursor).position() as int) {
            Ok((c, j)) => r matches Ok(x) && x@ == c && final(cursor).position() == j,
            Err(e) => r matches Err(e2) && e2 == e,
        },
{
    let tag = cursor.next_u8()?;
    if tag == 7 {
        let name_index = cursor.next_u16()?;
        Ok(Constant::Class(ClassConstant { name_index }))
    } else if tag == 9 {
        let class_index = cursor.next_u16()?;
        let name_and_type_index = cursor.next_u16()?;
        Ok(Constant::Fieldref(FieldrefConstant { class_index, name_and_type_index }))
    } else if tag == 10 {
        let class_index = cursor.next_u16()?;
        let name_and_type_index = cursor.next_u16()?;
        Ok(Constant::Methodref(MethodrefConstant { class_index, name_and_type_index }))
    } else if tag == 11 {
        let class_index = cursor.next_u16()?;
        let name_and_type_index = cursor.next_u16()?;
        Ok(Constant::InterfaceMethodref(MethodrefConstant { class_index, name_and_type_index }))
    } else if tag == 12 {
        let name_index = cursor.next_u16()?;
        let descriptor_index = cursor.next_u16()?;
        Ok(Constant::NameAndType(NameAndTypeConstant { name_index, descriptor_index }))
    } else if tag == 1 {
        let n = cursor.next_u16()?;
        let text = cursor.take(n as usize)?;
        match string_from_utf8(slice_to_vec(text)) {
            Some(s) => Ok(Constant::Utf8(s)),
            None => Err(ParseError::MalformedText),
        }
    } else if tag == 3 {
        let v = cursor.next_u32()?;
        Ok(Constant::ConstantValue(ConstantValueKind::Integer(to_i32(v))))
    } else if tag == 4 {
        let v = cursor.next_u32()?;
        Ok(Constant::ConstantValue(ConstantValueKind::Float(v)))
    } else if tag == 5 {
        let hi = cursor.next_u32()?;
        let lo = cursor.next_u32()?;
        let v = (hi as u64) * 0x1_0000_0000 + (lo as u64);
        Ok(Constant::ConstantValue(ConstantValueKind::Long(to_i64(v))))
    } else if tag == 6 {
        let hi = cursor.next_u32()?;
        let lo = cursor.next_u32()?;
        let v = (hi as u64) * 0x1_0000_0000 + (lo as u64);
        Ok(Constant::ConstantValue(ConstantValueKind::Double(v)))
    } else if tag == 8 {
        let utf8_index = cursor.next_u16()?;
        Ok(Constant::ConstantValue(ConstantValueKind::StringRef(utf8_index)))
    } else {
        Err(ParseError::UnknownConstantTag)
    }
}

/// Reads `count` constant-pool entries.
#[verifier::loop_isolation(false)]
fn parse_constant_table(cursor: &mut ByteCursor, count: u16) -> (r: Result<Vec<Constant>, ParseError>)
    requires
        old(cursor).wf(),
    ensures
        final(cursor).wf(),
        final(cursor).bytes() == old(cursor).bytes(),
        match spec_parse_constants(
            old(cursor).bytes(),
            old(cursor).position() as int,
            count as int,
        ) {
            Ok((s, j)) => r matches Ok(v) && v@.map_values(|c: Constant| c@) == s
                && final(cursor).position() == j,
            Err(e) => r matches Err(e2) && e2 == e,
        },
{
    let ghost b = cursor.bytes();
    let ghost start = cursor.position() as int;
    let mut constants: Vec<Constant> = Vec::new();
    let mut k: u16 = 0;
    proof {
        assert(constants@.map_values(|c: Constant| c@) =~= Seq::<ConstantView>::empty());
    }
    while k < count
        invariant
            k <= count,
            cursor.wf(),
            cursor.bytes() == b,
            spec_parse_constants(b, start, count as int) == table_compose(
                constants@.map_values(|c: Constant| c@),
                spec_parse_constants(b, cursor.position() as int, (count - k) as int),
            ),
        decreases count - k,
    {
        let ghost old_pos = cursor.position() as int;
        let ghost old_constants = constants@;
        let c = parse_constant(cursor)?;
        constants.push(c);
        k = k + 1;
        proof {
            let pre_old = old_constants.map_values(|x: Constant| x@);
            let pre_new = constants@.map_values(|x: Constant| x@);
            assert(constants@ == old_constants.push(c));
            assert(pre_new =~= pre_old.push(c@));
            assert(spec_parse_constants(b, old_pos, (count - k + 1) as int) == (
            match spec_parse_constants(b, cursor.position() as int, (count - k) as int) {
                Err(e) => Err(e),
                Ok((rest, j)) => Ok((seq![c@] + rest, j)),
            }));
            match spec_parse_constants(b, cursor.position() as int, (count - k) as int) {
                Ok((rest, j)) => {
                    assert(pre_old + (seq![c@] + rest) =~= pre_new + rest);
                },
                Err(e) => {},
            }
        }
    }
    proof {
        assert(constants@.map_values(|c: Constant| c@) + Seq::<ConstantView>::empty()
            =~= constants@.map_values(|c: Constant| c@));
    }
    Ok(constants)
}

/// Reads one attribute record, dispatching on its resolved name and
/// checking that the body consumed exactly the declared length.
#[verifier::loop_isolation(false)]
#[verifier::rlimit(100)]
fn parse_attribute(cursor: &mut ByteCursor, cp: &ConstantPool) -> (r: Result<Attribute, ParseError>)
    requires
        old(cursor).wf(),
    ensures
        final(cursor).wf(),
        final(cursor).bytes() == old(cursor).bytes(),
        final(cursor).position() >= old(cursor).position(),
        match spec_parse_attribute(old(cursor).bytes(), cp@, old(cursor).position() as int) {
            Ok((a, j)) => r matches Ok(x) && x@ == a && final(cursor).position() == j
                && old(cursor).position() < j <= old(cursor).bytes().len(),
            Err(e) => r matches Err(e2) && e2 == e,
        },
    decreases cursor.bytes().len() - cursor.position(), 0int, 0int,
{
    let ghost b = cursor.bytes();
    let name_index = cursor.next_u16()?;
    let alen = cursor.next_u32()?;
    let body_pos = cursor.position();
    let name = cp.get_utf8(name_index)?;
    if name == String::from_str("SourceFile") {
        let idx = cursor.next_u16()?;
        let s = cp.get_utf8(idx)?;
        if alen != 2 {
            return Err(ParseError::AttributeLengthMismatch);
        }
        proof {
            cursor.lemma_wf_position();
        }
        Ok(Attribute::SourceFile(s))
    } else if name == String::from_str("LineNumberTable") {
        let cnt = cursor.next_u16()?;
        if cursor.remaining() < 4 * (cnt as usize) {
            return Err(ParseError::TruncatedInput);
        }
        let mut entries: Vec<LineNumberTableEntry> = Vec::new();
        let mut k: u16 = 0;
        proof {
            assert(entries@ =~= lnt_entries(b, body_pos as int, cnt as int).take(0));
        }
        while k < cnt
            invariant
                k <= cnt,
                cursor.wf(),
                cursor.bytes() == b,
                cursor.position() == body_pos + 2 + 4 * (k as int),
                body_pos + 2 + 4 * (cnt as int) <= b.len(),
                entries@ == lnt_entries(b, body_pos as int, cnt as int).take(k as int),
            decreases cnt - k,
        {
            let start_pc = cursor.next_u16()?;
            let line_number = cursor.next_u16()?;
            entries.push(LineNumberTableEntry { start_pc, line_number });
            k = k + 1;
            proof {
                assert(entries@ =~= lnt_entries(b, body_pos as int, cnt as int).take(k as int));
            }
        }
        if (alen as u64) != 2 + 4 * (cnt as u64) {
            return Err(ParseError::AttributeLengthMismatch);
        }
        proof {
            cursor.lemma_wf_position();
            assert(entries@ =~= lnt_entries(b, body_pos as int, cnt as int));
        }
        Ok(Attribute::LineNumberTable(entries))
    } else if name == String::from_str("ConstantValue") {
        let idx = cursor.next_u16()?;
        let att = match cp.get(idx) {
            Some(Constant::ConstantValue(kind)) => match kind {
                ConstantValueKind::Integer(x) => ConstantValueAttribute::Integer(*x),
                ConstantValueKind::Float(x) => ConstantValueAttribute::Float(*x),
                ConstantValueKind::Long(x) => ConstantValueAttribute::Long(*x),
                ConstantValueKind::Double(x) => ConstantValueAttribute::Double(*x),
                ConstantValueKind::StringRef(si) => ConstantValueAttribute::StringValue(
                    cp.get_utf8(*si)?,
                ),
            },
            Some(_) => {
                return Err(ParseError::ConstantKindMismatch);
            },
            None => {
                return Err(ParseError::InvalidConstantPoolIndex);
            },
        };
        if alen != 2 {
            return Err(ParseError::AttributeLengthMismatch);
        }
        proof {
            cursor.lemma_wf_position();
        }
        Ok(Attribute::ConstantValue(att))
    } else if name == String::from_str("Code") {
        let max_stack = cursor.next_u16()?;
        let max_locals = cursor.next_u16()?;
        let code_length = cursor.next_u32()?;
        let code_bytes = cursor.take(code_length as usize)?;
        let code = parse_ops_from_code_bytes(code_bytes, cp)?;
        let etl = cursor.next_u16()?;
        if cursor.remaining() < 8 * (etl as usize) {
            return Err(ParseError::TruncatedInput);
        }
        let ghost ep2 = cursor.position() as int;
        let mut exception_table: Vec<ExceptionHandlerDescriptor> = Vec::new();
        let mut k: u16 = 0;
        proof {
            assert(exception_table@ =~= exception_entries(b, ep2, etl as int).take(0));
        }
        while k < etl
            invariant
                k <= etl,
                cursor.wf(),
                cursor.bytes() == b,
                cursor.position() == ep2 + 8 * (k as int),
                ep2 + 8 * (etl as int) <= b.len(),
                exception_table@ == exception_entries(b, ep2, etl as int).take(k as int),
            decreases etl - k,
        {
            let start_pc = cursor.next_u16()?;
            let end_pc = cursor.next_u16()?;
            let handler_pc = cursor.next_u16()?;
            let catch_type = cursor.next_u16()?;
            exception_table.push(
                ExceptionHandlerDescriptor { start_pc, end_pc, handler_pc, catch_type },
            );
            k = k + 1;
            proof {
                assert(exception_table@ =~= exception_entries(b, ep2, etl as int).take(k as int));
            }
        }
        proof {
            assert(exception_table@ =~= exception_entries(b, ep2, etl as int));
        }
        let attributes_count = cursor.next_u16()?;
        let attributes = parse_attribute_table(cursor, cp, attributes_count)?;
        let consumed = cursor.position() - body_pos;
        if (consumed as u64) != (alen as u64) {
            return Err(ParseError::AttributeLengthMismatch);
        }
        proof {
            cursor.lemma_wf_position();
        }
        Ok(Attribute::Code(CodeAttribute { max_stack, max_locals, code, exception_table, attributes }))
    } else {
        Err(ParseError::UnknownAttributeName)
    }
}

/// Reads `count` attribute records.
#[verifier::loop_isolation(false)]
fn parse_attribute_table(cursor: &mut ByteCursor, cp: &ConstantPool, count: u16) -> (r: Result<
    Vec<Attribute>,
    ParseError,
>)
    requires
        old(cursor).wf(),
    ensures
        final(cursor).wf(),
        final(cursor).bytes() == old(cursor).bytes(),
        final(cursor).position() >= old(cursor).position(),
        match spec_parse_attributes(
            old(cursor).bytes(),
            cp@,
            old(cursor).position() as int,
            count as int,
        ) {
            Ok((s, j)) => r matches Ok(v) && attributes_view(v@) == s && final(cursor).position()
                == j,
            Err(e) => r matches Err(e2) && e2 == e,
        },
    decreases cursor.bytes().len() - cursor.position(), 1int, count as int,
{
    let ghost b = cursor.bytes();
    let ghost p = cp@;
    let ghost start = cursor.position() as int;
    let mut attrs: Vec<Attribute> = Vec::new();
    let mut k: u16 = 0;
    proof {
        cursor.lemma_wf_position();
        assert(attributes_view(attrs@) + Seq::<AttributeView>::empty() =~= attributes_view(
            attrs@,
        ));
    }
    while k < count
        invariant
            k <= count,
            cursor.wf(),
            cursor.bytes() == b,
            cursor.position() >= start,
            cursor.position() <= b.len(),
            spec_parse_attributes(b, p, start, count as int) == table_compose(
                attributes_view(attrs@),
                spec_parse_attributes(b, p, cursor.position() as int, (count - k) as int),
            ),
        decreases count - k,
    {
        let ghost old_pos = cursor.position() as int;
        let ghost old_attrs = attrs@;
        let a = parse_attribute(cursor, cp)?;
        attrs.push(a);
        k = k + 1;
        proof {
            cursor.lemma_wf_position();
            lemma_attributes_view_push(old_attrs, a);
            assert(attrs@ == old_attrs.push(a));
            assert(spec_parse_attributes(b, p, old_pos, (count - k + 1) as int) == (
            match spec_parse_attributes(b, p, cursor.position() as int, (count - k) as int) {
                Err(e) => Err(e),
                Ok((rest, j)) => Ok((seq![a@] + rest, j)),
            }));
            match spec_parse_attributes(b, p, cursor.position() as int, (count - k) as int) {
                Ok((rest, j)) => {
                    assert(attributes_view(old_attrs) + (seq![a@] + rest) =~= attributes_view(
                        attrs@,
                    ) + rest);
                },
                Err(e) => {},
            }
        }
    }
    proof {
        assert(attributes_view(attrs@) + Seq::<AttributeView>::empty() =~= attributes_view(
            attrs@,
        ));
    }
    Ok(attrs)
}

/// Reads one `field_info` record: flags, name, descriptor, attributes.
fn parse_field_info(cursor: &mut ByteCursor, cp: &ConstantPool) -> (r: Result<
    FieldInfo,
    ParseError,
>)
    requires
        old(cursor).wf(),
    ensures
        final(cursor).wf(),
        final(cursor).bytes() == old(cursor).bytes(),
        final(cursor).position() >= old(cursor).position(),
        match spec_parse_field_info(old(cursor).bytes(), cp@, old(cursor).position() as int) {
            Ok((f, j)) => r matches Ok(x) && x@ == f && final(cursor).position() == j,
            Err(e) => r matches Err(e2) && e2 == e,
        },
{
    let access_flags = cursor.next_u16()?;
    let name_index = cursor.next_u16()?;
    let descriptor_index = cursor.next_u16()?;
    let attribute_count = cursor.next_u16()?;
    let name = cp.get_utf8(name_index)?;
    let desc = cp.get_utf8(descriptor_index)?;
    let descriptor = descriptor::parse_field_descriptor(desc.as_str())?;
    let attributes = parse_attribute_table(cursor, cp, attribute_count)?;
    Ok(FieldInfo { access_flags: AccessFlags::new(access_flags), name, descriptor, attributes })
}

/// Reads `count` `field_info` records.
#[verifier::loop_isolation(false)]
fn parse_field_table(cursor: &mut ByteCursor, cp: &ConstantPool, count: u16) -> (r: Result<
    Vec<FieldInfo>,
    ParseError,
>)
    requires
        old(cursor).wf(),
    ensures
        final(cursor).wf(),
        final(cursor).bytes() == old(cursor).bytes(),
        match spec_parse_field_infos(
            old(cursor).bytes(),
            cp@,
            old(cursor).position() as int,
            count as int,
        ) {
            Ok((s, j)) => r matches Ok(v) && v@.map_values(|f: FieldInfo| f@) == s
                && final(cursor).position() == j,
            Err(e) => r matches Err(e2) && e2 == e,
        },
{
    let ghost b = cursor.bytes();
    let ghost p = cp@;
    let ghost start = cursor.position() as int;
    let mut fields: Vec<FieldInfo> = Vec::new();
    let mut k: u16 = 0;
    proof {
        assert(fields@.map_values(|f: FieldInfo| f@) =~= Seq::<FieldInfoView>::empty());
    }
    while k < count
        invariant
            k <= count,
            cursor.wf(),
            cursor.bytes() == b,
            spec_parse_field_infos(b, p, start, count as int) == table_compose(
                fields@.map_values(|f: FieldInfo| f@),
                spec_parse_field_infos(b, p, cursor.position() as int, (count - k) as int),
            ),
        decreases count - k,
    {
        let ghost old_pos = cursor.position() as int;
        let ghost old_fields = fields@;
        let f = parse_field_info(cursor, cp)?;
        fields.push(f);
        k = k + 1;
        proof {
            let pre_old = old_fields.map_values(|x: FieldInfo| x@);
            let pre_new = fields@.map_values(|x: FieldInfo| x@);
            assert(fields@ == old_fields.push(f));
            assert(pre_new =~= pre_old.push(f@));
            assert(spec_parse_field_infos(b, p, old_pos, (count - k + 1) as int) == (
            match spec_parse_field_infos(b, p, cursor.position() as int, (count - k) as int) {
                Err(e) => Err(e),
                Ok((rest, j)) => Ok((seq![f@] + rest, j)),
            }));
            match spec_parse_field_infos(b, p, cursor.position() as int, (count - k) as int) {
                Ok((rest, j)) => {
                    assert(pre_old + (seq![f@] + rest) =~= pre_new + rest);
                },
                Err(e) => {},
            }
        }
    }
    proof {
        assert(fields@.map_values(|f: FieldInfo| f@) + Seq::<FieldInfoView>::empty() =~= fields@
            .map_values(|f: FieldInfo| f@));
    }
    Ok(fields)
}

/// Reads one `method_info` record: flags, name, descriptor, attributes.
fn parse_method_info(cursor: &mut ByteCursor, cp: &ConstantPool) -> (r: Result<
    MethodInfo,
    ParseError,
>)
    requires
        old(cursor).wf(),
    ensures
        final(cursor).wf(),
        final(cursor).bytes() == old(cursor).bytes(),
        final(cursor).position() >= old(cursor).position(),
        match spec_parse_method_info(old(cursor).bytes(), cp@, old(cursor).position() as int) {
            Ok((m, j)) => r matches Ok(x) && x@ == m && final(cursor).position() == j,
            Err(e) => r matches Err(e2) && e2 == e,
        },
{
    let access_flags = cursor.next_u16()?;
    let name_index = cursor.next_u16()?;
    let descriptor_index = cursor.next_u16()?;
    let attribute_count = cursor.next_u16()?;
    let name = cp.get_utf8(name_index)?;
    let desc = cp.get_utf8(descriptor_index)?;
    let descriptor = descriptor::parse_method_descriptor(desc.as_str())?;
    let attributes = parse_attribute_table(cursor, cp, attribute_count)?;
    Ok(MethodInfo { access_flags: AccessFlags::new(access_flags), name, descriptor, attributes })
}

/// Reads `count` `method_info` records.
#[verifier::loop_isolation(false)]
fn parse_method_table(cursor: &mut ByteCursor, cp: &ConstantPool, count: u16) -> (r: Result<
    Vec<MethodInfo>,
    ParseError,
>)
    requires
        old(cursor).wf(),
    ensures
        final(cursor).wf(),
        final(cursor).bytes() == old(cursor).bytes(),
        match spec_parse_method_infos(
            old(cursor).bytes(),
            cp@,
            old(cursor).position() as int,
            count as int,
        ) {
            Ok((s, j)) => r matches Ok(v) && v@.map_values(|m: MethodInfo| m@) == s
                && final(cursor).position() == j,
            Err(e) => r matches Err(e2) && e2 == e,
        },
{
    let ghost b = cursor.bytes();
    let ghost p = cp@;
    let ghost start = cursor.position() as int;
    let mut methods: Vec<MethodInfo> = Vec::new();
    let mut k: u16 = 0;
    proof {
        assert(methods@.map_values(|m: MethodInfo| m@) =~= Seq::<MethodInfoView>::empty());
    }
    while k < count
        invariant
            k <= count,
            cursor.wf(),
            cursor.bytes() == b,
            spec_parse_method_infos(b, p, start, count as int) == table_compose(
                methods@.map_values(|m: MethodInfo| m@),
                spec_parse_method_infos(b, p, cursor.position() as int, (count - k) as int),
            ),
        decreases count - k,
    {
        let ghost old_pos = cursor.position() as int;
        let ghost old_methods = methods@;
        let m = parse_method_info(cursor, cp)?;
        methods.push(m);
        k = k + 1;
        proof {
            let pre_old = old_methods.map_values(|x: MethodInfo| x@);
            let pre_new = methods@.map_values(|x: MethodInfo| x@);
            assert(methods@ == old_methods.push(m));
            assert(pre_new =~= pre_old.push(m@));
            assert(spec_parse_method_infos(b, p, old_pos, (count - k + 1) as int) == (
            match spec_parse_method_infos(b, p, cursor.position() as int, (count - k) as int) {
                Err(e) => Err(e),
                Ok((rest, j)) => Ok((seq![m@] + rest, j)),
            }));
            match spec_parse_method_infos(b, p, cursor.position() as int, (count - k) as int) {
                Ok((rest, j)) => {
                    assert(pre_old + (seq![m@] + rest) =~= pre_new + rest);
                },
                Err(e) => {},
            }
        }
    }
    proof {
        assert(methods@.map_values(|m: MethodInfo| m@) + Seq::<MethodInfoView>::empty()
            =~= methods@.map_values(|m: MethodInfo| m@));
    }
    Ok(methods)
}

/// Reads `count` interface entries, each a `u16` index resolved directly to
/// a Utf8 name.
#[verifier::loop_isolation(false)]
fn parse_interface_table(cursor: &mut ByteCursor, cp: &ConstantPool, count: u16) -> (r: Result<
    Vec<String>,
    ParseError,
>)
    requires
        old(cursor).wf(),
    ensures
        final(cursor).wf(),
        final(cursor).bytes() == old(cursor).bytes(),
        match spec_resolve_interfaces(
            old(cursor).bytes(),
            cp@,
            old(cursor).position() as int,
            count as int,
        ) {
            Ok((s, j)) => r matches Ok(v) && v@.map_values(|x: String| x@) == s
                && final(cursor).position() == j,
            Err(e) => r matches Err(e2) && e2 == e,
        },
{
    let ghost b = cursor.bytes();
    let ghost p = cp@;
    let ghost start = cursor.position() as int;
    let mut names: Vec<String> = Vec::new();
    let mut k: u16 = 0;
    proof {
        assert(names@.map_values(|x: String| x@) =~= Seq::<Seq<char>>::empty());
    }
    while k < count
        invariant
            k <= count,
            cursor.wf(),
            cursor.bytes() == b,
            spec_resolve_interfaces(b, p, start, count as int) == table_compose(
                names@.map_values(|x: String| x@),
                spec_resolve_interfaces(b, p, cursor.position() as int, (count - k) as int),
            ),
        decreases count - k,
    {
        let ghost old_pos = cursor.position() as int;
        let ghost old_names = names@;
        let idx = cursor.next_u16()?;
        let s = cp.get_utf8(idx)?;
        names.push(s);
        k = k + 1;
        proof {
            let pre_old = old_names.map_values(|x: String| x@);
            let pre_new = names@.map_values(|x: String| x@);
            assert(pre_new =~= pre_old.push(names@[names@.len() - 1]@));
            match spec_resolve_interfaces(b, p, cursor.position() as int, (count - k) as int) {
                Ok((rest, j)) => {
                    assert(pre_old + (seq![names@[names@.len() - 1]@] + rest) =~= pre_new + rest);
                },
                Err(e) => {},
            }
        }
    }
    proof {
        assert(names@.map_values(|x: String| x@) + Seq::<Seq<char>>::empty() =~= names@
            .map_values(|x: String| x@));
    }
    Ok(names)
}

/// Runs the whole pipeline over the cursor: header, pool, flags, classes,
/// interfaces, fields, methods, attributes.
fn run_inner(cursor: &mut ByteCursor) -> (r: Result<ClassFile, ParseError>)
    requires
        old(cursor).wf(),
        old(cursor).position() == 0,
    ensures
        final(cursor).wf(),
        final(cursor).bytes() == old(cursor).bytes(),
        match spec_parse_class_file(old(cursor).bytes()) {
            Ok(cf) => r matches Ok(c) && c@ == cf,
            Err(k) => r matches Err(e2) && e2 == k,
        },
{
    let ghost b = cursor.bytes();
    let magic = match cursor.next_u32() {
        Ok(v) => v,
        Err(unused) => {
            return Err(ParseError::MalformedHeader);
        },
    };
    if magic != 0xCAFEBABE {
        return Err(ParseError::MalformedHeader);
    }
    let minor_version = cursor.next_u16()?;
    let major_version = cursor.next_u16()?;
    let cp_cnt = cursor.next_u16()?;
    if cp_cnt == 0 {
        return Err(ParseError::MalformedHeader);
    }
    let constants = parse_constant_table(cursor, cp_cnt - 1)?;
    let constant_pool = ConstantPool::new(constants);
    let access_flags = cursor.next_u16()?;
    let this_idx = cursor.next_u16()?;
    let this_class = constant_pool.get_class(this_idx)?;
    let super_idx = cursor.next_u16()?;
    let super_class = constant_pool.get_class(super_idx)?;
    let interfaces_count = cursor.next_u16()?;
    let interfaces = parse_interface_table(cursor, &constant_pool, interfaces_count)?;
    let fields_count = cursor.next_u16()?;
    let fields = parse_field_table(cursor, &constant_pool, fields_count)?;
    let methods_count = cursor.next_u16()?;
    let methods = parse_method_table(cursor, &constant_pool, methods_count)?;
    let attributes_count = cursor.next_u16()?;
    let attributes = parse_attribute_table(cursor, &constant_pool, attributes_count)?;
    Ok(
        assemble_class_file(
            minor_version,
            major_version,
            constant_pool,
            AccessFlags::new(access_flags),
            this_class,
            super_class,
            interfaces,
            fields,
            methods,
            attributes,
        ),
    )
}

/// Parser state for parsing `.class` files: a cursor over the input bytes.
#[derive(Debug)]
pub struct Parser<'a> {
    cursor: ByteCursor<'a>,
}

impl<'a> Parser<'a> {
    /// The input bytes the parser was built on.
    pub closed spec fn bytes(self) -> Seq<u8> {
        self.cursor.bytes()
    }

    /// A freshly built parser stands at the start of its bytes.
    pub closed spec fn wf(self) -> bool {
        self.cursor.wf() && self.cursor.position() == 0
    }

    /// A parser over the bytes of a `.class` file.
    pub fn new(raw: &'a [u8]) -> (r: Self)
        ensures
            r.wf(),
            r.bytes() == raw@,
    {
        Parser { cursor: ByteCursor::new(raw) }
    }

    /// Runs the parser on the bytes it was constructed with (see
    /// `Self::new`). On failure the error carries the failure kind and the
    /// cursor's byte offset when the fault was noticed.
    pub fn run(self) -> (r: Result<ClassFile, ClassFileError>)
        requires
            self.wf(),
        ensures
            match spec_parse_class_file(self.bytes()) {
                Ok(cf) => r matches Ok(c) && c@ == cf,
                Err(k) => r matches Err(e) && e.kind == k && e.offset <= self.bytes().len(),
            },
    {
        let Parser { mut cursor } = self;
        match run_inner(&mut cursor) {
            Ok(c) => Ok(c),
            Err(k) => {
                proof {
                    cursor.lemma_wf_position();
                }
                Err(ClassFileError { offset: cursor.position(), kind: k })
            },
        }
    }
}

} // verus!
