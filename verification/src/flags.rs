//! Access flags: bit sets over the sixteen flag bits of a class, a field, a
//! method or a nested class.
//!
//! Each set knows which bits have a meaning for it. `from_bits` accepts only
//! those; `from_bits_retain` keeps whatever it is given.

use vstd::prelude::*;

verus! {

/// Whether `bits` has no bit set outside `known`.
pub open spec fn only_known_bits(bits: u16, known: u16) -> bool {
    bits & !known == 0
}

/// The access flags of a class.
#[derive(Clone, Copy, Debug, PartialEq, Eq, Default)]
pub struct ClassAccessFlags {
    bits: u16,
}

impl View for ClassAccessFlags {
    type V = u16;

    closed spec fn view(&self) -> u16 {
        self.bits
    }
}

impl ClassAccessFlags {
    /// Declared `public`.
    pub const PUBLIC: u16 = 0x0001;

    /// Declared `final`.
    pub const FINAL: u16 = 0x0010;

    /// Treats superclass methods specially in `invokespecial`.
    pub const SUPER: u16 = 0x0020;

    /// Is an interface.
    pub const INTERFACE: u16 = 0x0200;

    /// Declared `abstract`.
    pub const ABSTRACT: u16 = 0x0400;

    /// Not present in the source.
    pub const SYNTHETIC: u16 = 0x1000;

    /// Is an annotation interface.
    pub const ANNOTATION: u16 = 0x2000;

    /// Is an enum class.
    pub const ENUM: u16 = 0x4000;

    /// Is a module.
    pub const MODULE: u16 = 0x8000;

    /// Every bit that has a meaning for a class.
    pub const ALL: u16 = 0xf631;

    /// The flags with exactly the bits of `bits`, if all of them have a
    /// meaning for a class.
    pub fn from_bits(bits: u16) -> (res: Option<Self>)
        ensures
            match res {
                Some(flags) => flags@ == bits && only_known_bits(bits, Self::ALL),
                None => !only_known_bits(bits, Self::ALL),
            },
    {
        if bits & !Self::ALL == 0 {
            Some(ClassAccessFlags { bits })
        } else {
            None
        }
    }

    /// The flags with exactly the bits of `bits`, known or not.
    pub fn from_bits_retain(bits: u16) -> (flags: Self)
        ensures
            flags@ == bits,
    {
        ClassAccessFlags { bits }
    }

    /// The bits of these flags.
    pub fn bits(&self) -> (bits: u16)
        ensures
            bits == self@,
    {
        self.bits
    }

    /// Whether every bit of `mask` is set.
    pub fn contains(&self, mask: u16) -> (res: bool)
        ensures
            res == (self@ & mask == mask),
    {
        self.bits & mask == mask
    }

    /// Whether some bit of `mask` is set.
    pub fn intersects(&self, mask: u16) -> (res: bool)
        ensures
            res == (self@ & mask != 0),
    {
        self.bits & mask != 0
    }
}

/// The access flags of a field.
#[derive(Clone, Copy, Debug, PartialEq, Eq, Default)]
pub struct FieldAccessFlags {
    bits: u16,
}

impl View for FieldAccessFlags {
    type V = u16;

    closed spec fn view(&self) -> u16 {
        self.bits
    }
}

impl FieldAccessFlags {
    /// Declared `public`.
    pub const PUBLIC: u16 = 0x0001;

    /// Declared `private`.
    pub const PRIVATE: u16 = 0x0002;

    /// Declared `protected`.
    pub const PROTECTED: u16 = 0x0004;

    /// Declared `static`.
    pub const STATIC: u16 = 0x0008;

    /// Declared `final`.
    pub const FINAL: u16 = 0x0010;

    /// Declared `volatile`.
    pub const VOLATILE: u16 = 0x0040;

    /// Declared `transient`.
    pub const TRANSIENT: u16 = 0x0080;

    /// Not present in the source.
    pub const SYNTHETIC: u16 = 0x1000;

    /// An element of an enum class.
    pub const ENUM: u16 = 0x4000;

    /// Every bit that has a meaning for a field.
    pub const ALL: u16 = 0x50df;

    /// The flags with exactly the bits of `bits`, if all of them have a
    /// meaning for a field.
    pub fn from_bits(bits: u16) -> (res: Option<Self>)
        ensures
            match res {
                Some(flags) => flags@ == bits && only_known_bits(bits, Self::ALL),
                None => !only_known_bits(bits, Self::ALL),
            },
    {
        if bits & !Self::ALL == 0 {
            Some(FieldAccessFlags { bits })
        } else {
            None
        }
    }

    /// The flags with exactly the bits of `bits`, known or not.
    pub fn from_bits_retain(bits: u16) -> (flags: Self)
        ensures
            flags@ == bits,
    {
        FieldAccessFlags { bits }
    }

    /// The bits of these flags.
    pub fn bits(&self) -> (bits: u16)
        ensures
            bits == self@,
    {
        self.bits
    }

    /// Whether every bit of `mask` is set.
    pub fn contains(&self, mask: u16) -> (res: bool)
        ensures
            res == (self@ & mask == mask),
    {
        self.bits & mask == mask
    }

    /// Whether some bit of `mask` is set.
    pub fn intersects(&self, mask: u16) -> (res: bool)
        ensures
            res == (self@ & mask != 0),
    {
        self.bits & mask != 0
    }
}

/// The access flags of a method.
#[derive(Clone, Copy, Debug, PartialEq, Eq, Default)]
pub struct MethodAccessFlags {
    bits: u16,
}

impl View for MethodAccessFlags {
    type V = u16;

    closed spec fn view(&self) -> u16 {
        self.bits
    }
}

impl MethodAccessFlags {
    /// Declared `public`.
    pub const PUBLIC: u16 = 0x0001;

    /// Declared `private`.
    pub const PRIVATE: u16 = 0x0002;

    /// Declared `protected`.
    pub const PROTECTED: u16 = 0x0004;

    /// Declared `static`.
    pub const STATIC: u16 = 0x0008;

    /// Declared `final`.
    pub const FINAL: u16 = 0x0010;

    /// Declared `synchronized`.
    pub const SYNCHRONIZED: u16 = 0x0020;

    /// A bridge method.
    pub const BRIDGE: u16 = 0x0040;

    /// Takes a variable number of arguments.
    pub const VARARGS: u16 = 0x0080;

    /// Declared `native`.
    pub const NATIVE: u16 = 0x0100;

    /// Declared `abstract`.
    pub const ABSTRACT: u16 = 0x0400;

    /// Declared `strictfp`.
    pub const STRICT: u16 = 0x0800;

    /// Not present in the source.
    pub const SYNTHETIC: u16 = 0x1000;

    /// Every bit that has a meaning for a method.
    pub const ALL: u16 = 0x1dff;

    /// The flags with exactly the bits of `bits`, if all of them have a
    /// meaning for a method.
    pub fn from_bits(bits: u16) -> (res: Option<Self>)
        ensures
            match res {
                Some(flags) => flags@ == bits && only_known_bits(bits, Self::ALL),
                None => !only_known_bits(bits, Self::ALL),
            },
    {
        if bits & !Self::ALL == 0 {
            Some(MethodAccessFlags { bits })
        } else {
            None
        }
    }

    /// The flags with exactly the bits of `bits`, known or not.
    pub fn from_bits_retain(bits: u16) -> (flags: Self)
        ensures
            flags@ == bits,
    {
        MethodAccessFlags { bits }
    }

    /// The bits of these flags.
    pub fn bits(&self) -> (bits: u16)
        ensures
            bits == self@,
    {
        self.bits
    }

    /// Whether every bit of `mask` is set.
    pub fn contains(&self, mask: u16) -> (res: bool)
        ensures
            res == (self@ & mask == mask),
    {
        self.bits & mask == mask
    }

    /// Whether some bit of `mask` is set.
    pub fn intersects(&self, mask: u16) -> (res: bool)
        ensures
            res == (self@ & mask != 0),
    {
        self.bits & mask != 0
    }
}

/// The access flags of a nested class.
#[derive(Clone, Copy, Debug, PartialEq, Eq, Default)]
pub struct NestedClassAccessFlags {
    bits: u16,
}

impl View for NestedClassAccessFlags {
    type V = u16;

    closed spec fn view(&self) -> u16 {
        self.bits
    }
}

impl NestedClassAccessFlags {
    /// Declared `public`.
    pub const PUBLIC: u16 = 0x0001;

    /// Declared `private`.
    pub const PRIVATE: u16 = 0x0002;

    /// Declared `protected`.
    pub const PROTECTED: u16 = 0x0004;

    /// Declared `static`.
    pub const STATIC: u16 = 0x0008;

    /// Declared `final`.
    pub const FINAL: u16 = 0x0010;

    /// Is an interface.
    pub const INTERFACE: u16 = 0x0200;

    /// Declared `abstract`.
    pub const ABSTRACT: u16 = 0x0400;

    /// Not present in the source.
    pub const SYNTHETIC: u16 = 0x1000;

    /// Is an annotation interface.
    pub const ANNOTATION: u16 = 0x2000;

    /// Is an enum class.
    pub const ENUM: u16 = 0x4000;

    /// Every bit that has a meaning for a nested class.
    pub const ALL: u16 = 0x761f;

    /// The flags with exactly the bits of `bits`, if all of them have a
    /// meaning for a nested class.
    pub fn from_bits(bits: u16) -> (res: Option<Self>)
        ensures
            match res {
                Some(flags) => flags@ == bits && only_known_bits(bits, Self::ALL),
                None => !only_known_bits(bits, Self::ALL),
            },
    {
        if bits & !Self::ALL == 0 {
            Some(NestedClassAccessFlags { bits })
        } else {
            None
        }
    }

    /// The flags with exactly the bits of `bits`, known or not.
    pub fn from_bits_retain(bits: u16) -> (flags: Self)
        ensures
            flags@ == bits,
    {
        NestedClassAccessFlags { bits }
    }

    /// The bits of these flags.
    pub fn bits(&self) -> (bits: u16)
        ensures
            bits == self@,
    {
        self.bits
    }

    /// Whether every bit of `mask` is set.
    pub fn contains(&self, mask: u16) -> (res: bool)
        ensures
            res == (self@ & mask == mask),
    {
        self.bits & mask == mask
    }

    /// Whether some bit of `mask` is set.
    pub fn intersects(&self, mask: u16) -> (res: bool)
        ensures
            res == (self@ & mask != 0),
    {
        self.bits & mask != 0
    }
}

} // verus!
