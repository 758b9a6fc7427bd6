//! Failure kinds for class-file parsing.
//!
//! Every kind is fatal to the whole parse: no partially built structure is
//! ever returned to a caller.

use vstd::prelude::*;

verus! {

/// The reason a parse failed.
#[derive(Debug, Copy, Clone, PartialEq, Eq, Structural)]
pub enum ParseError {
    /// The 4-byte magic number is wrong, or the fixed header is unusable.
    MalformedHeader,
    /// Fewer bytes remain than a read requires.
    TruncatedInput,
    /// A constant-pool index is 0 or beyond the table.
    InvalidConstantPoolIndex,
    /// A constant-pool index resolves to a different variant than expected.
    ConstantKindMismatch,
    /// A constant-pool entry carries a tag this decoder does not know.
    UnknownConstantTag,
    /// An attribute record carries a name this decoder does not know.
    UnknownAttributeName,
    /// An attribute body consumed a different number of bytes than its
    /// declared length.
    AttributeLengthMismatch,
    /// An instruction byte this decoder does not know.
    UnknownOpcode,
    /// A field or method descriptor string does not follow the grammar.
    InvalidDescriptorSyntax,
    /// A Utf8 constant holds bytes that are not valid UTF-8.
    MalformedText,
}

/// A structured failure of the whole-file parse: the kind of fault, and the
/// cursor position (a byte offset into the input) at which it was noticed.
#[derive(Debug, Copy, Clone, PartialEq, Eq, Structural)]
pub struct ClassFileError {
    pub offset: usize,
    pub kind: ParseError,
}

} // verus!
