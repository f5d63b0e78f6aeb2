//! The ways in which binding ends without a value.

use vstd::prelude::*;
use vstd::string::StringExecFns;
use crate::descriptor::TypePos;

verus! {

/// The user interrupted a prompt. Not a fault: the operation was called
/// off, and nothing of what had been entered is kept.
#[derive(Debug, Clone, Copy, PartialEq, Eq, Structural)]
pub struct Canceled;

impl Canceled {
    /// The text shown for a cancellation.
    pub open spec fn text() -> Seq<char> {
        "Operation canceled"@
    }

    pub fn to_string(&self) -> (shown: String)
        ensures
            shown@ == Self::text(),
    {
        String::from_str("Operation canceled")
    }
}

/// Why no value was bound.
#[derive(Debug, Clone, Copy, PartialEq, Eq, Structural)]
pub enum BindError {
    /// The root node is of a kind that the protocol generation does not
    /// use for input.
    UnknownRoot { pos: TypePos },
    /// A base scalar whose identifier has no entry in the registry.
    UnimplementedType { id: u128 },
    /// The node at `pos` was asked for as a leaf and is neither a scalar
    /// nor an array.
    UnimplementedDescriptor { pos: TypePos },
    /// A node refers to a position that the table does not hold.
    UnexpectedTypePos { position: u16 },
    /// Arrays nest deeper than the table has nodes: the table is cyclic.
    NestingTooDeep { pos: TypePos },
    /// Input ended at the field with this index, which is required.
    MissingRequired { index: usize },
    /// The user interrupted a prompt.
    Canceled(Canceled),
}

} // verus!
