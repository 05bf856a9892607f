//! The failures that decoding, linking and execution can report.

use vstd::prelude::*;

verus! {

/// The broad classes into which every [`Error`] falls.
#[derive(Clone, Copy, Debug, PartialEq, Eq, Structural)]
pub enum ErrorKind {
    /// The class file is malformed.
    Decode,
    /// A symbolic reference could not be resolved.
    Link,
    /// A value had the wrong type for the operation applied to it.
    Type,
    /// A bounded resource was exhausted or indexed out of range.
    Resource,
    /// A known instruction that the machine does not execute.
    UnimplementedOpcode,
    /// A null reference was dereferenced.
    NullReference,
    /// Integer division by zero.
    Arithmetic,
}

/// Everything that can go wrong, from the first byte of a class file to the
/// last instruction of a program.
#[derive(Clone, Copy, Debug, PartialEq, Eq, Structural)]
pub enum Error {
    /// The input ended before a value of the declared width was complete.
    EndOfStream,
    /// The first four bytes were not `0xCAFEBABE`; carries what was found.
    InvalidMagic(u32),
    /// The declared constant pool count was zero.
    InvalidPoolCount,
    /// A constant pool entry began with an unknown tag byte.
    InvalidConstantTag(u8),
    /// A Utf8 entry did not hold modified CESU-8 text.
    InvalidUtf8,
    /// Access flags of a field, method or nested class had unknown bits set.
    InvalidAccessFlags(u16),
    /// Bytes were left over after the last structure was decoded.
    TrailingBytes,
    /// A constant pool index was zero, or named the unused second slot of a
    /// Long or Double.
    InvalidIndex(usize),
    /// A constant pool index pointed past the end of the pool.
    DanglingIndex(usize),
    /// The entry at this constant pool index is not of the kind required.
    WrongConstantKind(usize),
    /// No class of the requested name has been loaded.
    ClassNotFound,
    /// The class has no method of the requested name and descriptor.
    MethodNotFound,
    /// The method has no Code attribute.
    MissingCode,
    /// No entry class was chosen before the machine was run.
    EntryClassNotSet,
    /// The entry class has no public static `main`.
    EntryPointNotFound,
    /// A descriptor string does not follow the descriptor grammar.
    InvalidDescriptor,
    /// An operand or array element had the wrong runtime type.
    TypeMismatch,
    /// `newarray` named an element type code outside 4..=11.
    InvalidArrayType(u8),
    /// A heap index did not name an array.
    NotAnArray,
    /// The heap has reached its maximum size.
    HeapFull,
    /// A heap index did not name a live cell.
    InvalidReference(usize),
    /// An instruction needed more operands than the operand stack held.
    StackUnderflow,
    /// A push would exceed the frame's declared operand stack depth.
    StackOverflow,
    /// A local variable index was past the frame's locals.
    LocalOutOfRange,
    /// An array index was negative or past the end of the array.
    ArrayIndexOutOfBounds,
    /// `newarray` was asked for a negative length.
    NegativeArraySize,
    /// The program counter or an immediate operand lay outside the code.
    CodeOutOfRange,
    /// No frame is active, or the frame index is not the top of the stack.
    NoActiveFrame,
    /// The machine's instruction budget ran out.
    StepLimitExceeded,
    /// A known instruction that the machine does not execute.
    UnimplementedOpcode(u8),
    /// An instruction that is deprecated, reserved or has no name.
    UnsupportedOpcode(u8),
    /// A native method was invoked; none are provided.
    NativeMethod,
    /// A null array reference was dereferenced.
    NullReference,
    /// Integer division by zero.
    DivisionByZero,
}

impl Error {
    /// The class of this error.
    pub open spec fn spec_kind(self) -> ErrorKind {
        match self {
            Error::EndOfStream
            | Error::InvalidMagic(_)
            | Error::InvalidPoolCount
            | Error::InvalidConstantTag(_)
            | Error::InvalidUtf8
            | Error::InvalidAccessFlags(_)
            | Error::TrailingBytes
            | Error::InvalidIndex(_) => ErrorKind::Decode,
            Error::DanglingIndex(_)
            | Error::WrongConstantKind(_)
            | Error::ClassNotFound
            | Error::MethodNotFound
            | Error::MissingCode
            | Error::EntryClassNotSet
            | Error::EntryPointNotFound
            | Error::NativeMethod => ErrorKind::Link,
            Error::InvalidDescriptor
            | Error::TypeMismatch
            | Error::InvalidArrayType(_)
            | Error::NotAnArray => ErrorKind::Type,
            Error::HeapFull
            | Error::InvalidReference(_)
            | Error::StackUnderflow
            | Error::StackOverflow
            | Error::LocalOutOfRange
            | Error::ArrayIndexOutOfBounds
            | Error::NegativeArraySize
            | Error::CodeOutOfRange
            | Error::NoActiveFrame
            | Error::StepLimitExceeded => ErrorKind::Resource,
            Error::UnimplementedOpcode(_) | Error::UnsupportedOpcode(_) => {
                ErrorKind::UnimplementedOpcode
            },
            Error::NullReference => ErrorKind::NullReference,
            Error::DivisionByZero => ErrorKind::Arithmetic,
        }
    }

    /// The class of this error.
    #[verifier::when_used_as_spec(spec_kind)]
    pub fn kind(self) -> (k: ErrorKind)
        ensures
            k == self.spec_kind(),
    {
        match self {
            Error::EndOfStream
            | Error::InvalidMagic(_)
            | Error::InvalidPoolCount
            | Error::InvalidConstantTag(_)
            | Error::InvalidUtf8
            | Error::InvalidAccessFlags(_)
            | Error::TrailingBytes
            | Error::InvalidIndex(_) => ErrorKind::Decode,
            Error::DanglingIndex(_)
            | Error::WrongConstantKind(_)
            | Error::ClassNotFound
            | Error::MethodNotFound
            | Error::MissingCode
            | Error::EntryClassNotSet
            | Error::EntryPointNotFound
            | Error::NativeMethod => ErrorKind::Link,
            Error::InvalidDescriptor
            | Error::TypeMismatch
            | Error::InvalidArrayType(_)
            | Error::NotAnArray => ErrorKind::Type,
            Error::HeapFull
            | Error::InvalidReference(_)
            | Error::StackUnderflow
            | Error::StackOverflow
            | Error::LocalOutOfRange
            | Error::ArrayIndexOutOfBounds
            | Error::NegativeArraySize
            | Error::CodeOutOfRange
            | Error::NoActiveFrame
            | Error::StepLimitExceeded => ErrorKind::Resource,
            Error::UnimplementedOpcode(_) | Error::UnsupportedOpcode(_) => {
                ErrorKind::UnimplementedOpcode
            },
            Error::NullReference => ErrorKind::NullReference,
            Error::DivisionByZero => ErrorKind::Arithmetic,
        }
    }
}

} // verus!
