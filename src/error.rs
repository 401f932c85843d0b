//! The fatal error kinds of the machine.
use vstd::prelude::*;
use crate::value::{ClassIdx, MethodInClassIdx};

verus! {

/// Why the machine stopped. All of them are fatal.
#[derive(Clone, Debug, PartialEq)]
pub enum VmError {
    /// A class was needed that is not in the program and was not supplied.
    ClassNotFound(String),
    /// `ldc` of a constant that is neither a string nor a number.
    UnsupportedConstant,
    UnknownOpcode(u8),
    UnresolvedField { class_name: String, field_name: String },
    UnresolvedMethod { class_name: String, method_name: String, descriptor: String },
    AbstractMethodInvoked { class_idx: ClassIdx, method_idx: MethodInClassIdx },
    NativeNotFound { class_name: String, method_name: String },
    /// Operand stack underflow or overflow, or an operand of the wrong kind.
    StackCorruption,
    DescriptorParse,
    /// A handle outside the heap.
    BadHandle,
    /// The program counter, a local index or a constant-pool index is out of range.
    BadCode,
    /// The class file view is inconsistent (an index to the wrong kind of entry).
    MalformedClass,
    /// A floating-point value was to be rendered into a string, which the
    /// machine leaves to its host.
    FloatText,
}

} // verus!
