//! The unresolved parts of a class file: constant pool entries, attributes,
//! fields and methods, exactly as they stand in the file.
//!
//! Constant pool indices are kept as they are written (1-origin). Attribute
//! bodies are kept as opaque bytes; [`crate::resolved`] decodes them on
//! demand.

use crate::bytes::read_as;
use crate::bytes::take_bytes;
use crate::bytes::take_i32;
use crate::bytes::take_i64;
use crate::bytes::take_u16;
use crate::bytes::take_u32;
use crate::bytes::take_u64;
use crate::bytes::take_u8;
use crate::bytes::ReadNum;
use crate::error::Error;
use crate::flags::only_known_bits;
use crate::flags::FieldAccessFlags;
use crate::flags::MethodAccessFlags;
use cesu8::Cesu8DecodingError;
use vstd::prelude::*;

verus! {

/// The failure value of the modified CESU-8 decoder.
#[verifier::external_type_specification]
#[verifier::external_body]
pub struct ExCesu8DecodingError(Cesu8DecodingError);

/// The text that `cesu8::from_java_cesu8` decodes `bytes` to, or `None` where
/// it rejects them.
pub uninterp spec fn java_cesu8_text(bytes: Seq<u8>) -> Option<Seq<char>>;

/// `cesu8::from_java_cesu8`: decodes modified CESU-8 (U+0000 written as
/// `C0 80`, supplementary characters as surrogate pairs) into a string. The
/// outcome depends on the bytes alone and is named [`java_cesu8_text`].
#[verifier::external_body]
fn decode_java_cesu8(bytes: &[u8]) -> (res: Result<String, Cesu8DecodingError>)
    ensures
        match res {
            Ok(text) => java_cesu8_text(bytes@) == Some(text@),
            Err(_) => java_cesu8_text(bytes@) is None,
        },
{
    match cesu8::from_java_cesu8(bytes) {
        Ok(text) => Ok(text.into_owned()),
        Err(e) => Err(e),
    }
}

/// One entry of the constant pool.
#[derive(Debug, Clone)]
#[allow(inconsistent_fields)]
pub enum RawConstant {
    /// The second slot of a Long or Double. It holds nothing and is never
    /// referenced; it keeps the indices of later entries in step.
    Unused,
    Class { name_index: usize },
    FieldRef { class_index: usize, name_and_type_index: usize },
    MethodRef { class_index: usize, name_and_type_index: usize },
    InterfaceMethodRef { class_index: usize, name_and_type_index: usize },
    String { string_index: usize },
    Integer { num: i32 },
    /// An IEEE-754 single, as its bit pattern.
    Float { bits: u32 },
    Long { num: i64 },
    /// An IEEE-754 double, as its bit pattern.
    Double { bits: u64 },
    NameAndType { name_index: usize, descriptor_index: usize },
    Utf8 { string: String },
    MethodHandle { reference_kind: u8, reference_index: usize },
    MethodType { descriptor_index: usize },
    InvokeDynamic { bootstrap_method_attr_index: usize, name_and_type_index: usize },
}

/// The mathematical value of a [`RawConstant`].
#[allow(inconsistent_fields)]
pub enum RawConstantView {
    Unused,
    Class { name_index: usize },
    FieldRef { class_index: usize, name_and_type_index: usize },
    MethodRef { class_index: usize, name_and_type_index: usize },
    InterfaceMethodRef { class_index: usize, name_and_type_index: usize },
    String { string_index: usize },
    Integer { num: i32 },
    Float { bits: u32 },
    Long { num: i64 },
    Double { bits: u64 },
    NameAndType { name_index: usize, descriptor_index: usize },
    Utf8 { string: Seq<char> },
    MethodHandle { reference_kind: u8, reference_index: usize },
    MethodType { descriptor_index: usize },
    InvokeDynamic { bootstrap_method_attr_index: usize, name_and_type_index: usize },
}

impl View for RawConstant {
    type V = RawConstantView;

    open spec fn view(&self) -> RawConstantView {
        match self {
            RawConstant::Unused => RawConstantView::Unused,
            RawConstant::Class { name_index } => RawConstantView::Class { name_index: *name_index },
            RawConstant::FieldRef { class_index, name_and_type_index } => RawConstantView::FieldRef {
                class_index: *class_index,
                name_and_type_index: *name_and_type_index,
            },
            RawConstant::MethodRef {
                class_index,
                name_and_type_index,
            } => RawConstantView::MethodRef {
                class_index: *class_index,
                name_and_type_index: *name_and_type_index,
            },
            RawConstant::InterfaceMethodRef {
                class_index,
                name_and_type_index,
            } => RawConstantView::InterfaceMethodRef {
                class_index: *class_index,
                name_and_type_index: *name_and_type_index,
            },
            RawConstant::String { string_index } => RawConstantView::String {
                string_index: *string_index,
            },
            RawConstant::Integer { num } => RawConstantView::Integer { num: *num },
            RawConstant::Float { bits } => RawConstantView::Float { bits: *bits },
            RawConstant::Long { num } => RawConstantView::Long { num: *num },
            RawConstant::Double { bits } => RawConstantView::Double { bits: *bits },
            RawConstant::NameAndType {
                name_index,
                descriptor_index,
            } => RawConstantView::NameAndType {
                name_index: *name_index,
                descriptor_index: *descriptor_index,
            },
            RawConstant::Utf8 { string } => RawConstantView::Utf8 { string: string@ },
            RawConstant::MethodHandle {
                reference_kind,
                reference_index,
            } => RawConstantView::MethodHandle {
                reference_kind: *reference_kind,
                reference_index: *reference_index,
            },
            RawConstant::MethodType { descriptor_index } => RawConstantView::MethodType {
                descriptor_index: *descriptor_index,
            },
            RawConstant::InvokeDynamic {
                bootstrap_method_attr_index,
                name_and_type_index,
            } => RawConstantView::InvokeDynamic {
                bootstrap_method_attr_index: *bootstrap_method_attr_index,
                name_and_type_index: *name_and_type_index,
            },
        }
    }
}

/// The mathematical values of the constants in `cs`, in order.
pub open spec fn constant_views(cs: Seq<RawConstant>) -> Seq<RawConstantView> {
    cs.map_values(|c: RawConstant| c@)
}

/// What reading a 16-bit constant pool index from `s` yields.
pub open spec fn take_index(s: Seq<u8>) -> Result<(usize, Seq<u8>), Error> {
    match take_u16(s) {
        Ok((v, rest)) => Ok((v as usize, rest)),
        Err(e) => Err(e),
    }
}

/// What reading two 16-bit constant pool indices from `s` yields.
pub open spec fn take_index_pair(s: Seq<u8>) -> Result<((usize, usize), Seq<u8>), Error> {
    match take_index(s) {
        Err(e) => Err(e),
        Ok((a, s1)) => match take_index(s1) {
            Err(e) => Err(e),
            Ok((b, s2)) => Ok(((a, b), s2)),
        },
    }
}

/// The constant pool entry at the start of `s`, whether it takes up two pool
/// slots, and the bytes that follow it.
pub open spec fn parse_constant(s: Seq<u8>) -> Result<((RawConstantView, bool), Seq<u8>), Error> {
    match take_u8(s) {
        Err(e) => Err(e),
        Ok((tag, s1)) => if tag == 7 {
            match take_index(s1) {
                Err(e) => Err(e),
                Ok((name_index, rest)) => Ok(((RawConstantView::Class { name_index }, false), rest)),
            }
        } else if tag == 9 {
            match take_index_pair(s1) {
                Err(e) => Err(e),
                Ok(((class_index, name_and_type_index), rest)) => Ok(
                    ((RawConstantView::FieldRef { class_index, name_and_type_index }, false), rest),
                ),
            }
        } else if tag == 10 {
            match take_index_pair(s1) {
                Err(e) => Err(e),
                Ok(((class_index, name_and_type_index), rest)) => Ok(
                    ((RawConstantView::MethodRef { class_index, name_and_type_index }, false), rest),
                ),
            }
        } else if tag == 11 {
            match take_index_pair(s1) {
                Err(e) => Err(e),
                Ok(((class_index, name_and_type_index), rest)) => Ok(
                    (
                        (
                            RawConstantView::InterfaceMethodRef { class_index, name_and_type_index },
                            false,
                        ),
                        rest,
                    ),
                ),
            }
        } else if tag == 8 {
            match take_index(s1) {
                Err(e) => Err(e),
                Ok((string_index, rest)) => Ok(
                    ((RawConstantView::String { string_index }, false), rest),
                ),
            }
        } else if tag == 3 {
            match take_i32(s1) {
                Err(e) => Err(e),
                Ok((num, rest)) => Ok(((RawConstantView::Integer { num }, false), rest)),
            }
        } else if tag == 4 {
            match take_u32(s1) {
                Err(e) => Err(e),
                Ok((bits, rest)) => Ok(((RawConstantView::Float { bits }, false), rest)),
            }
        } else if tag == 5 {
            match take_i64(s1) {
                Err(e) => Err(e),
                Ok((num, rest)) => Ok(((RawConstantView::Long { num }, true), rest)),
            }
        } else if tag == 6 {
            match take_u64(s1) {
                Err(e) => Err(e),
                Ok((bits, rest)) => Ok(((RawConstantView::Double { bits }, true), rest)),
            }
        } else if tag == 12 {
            match take_index_pair(s1) {
                Err(e) => Err(e),
                Ok(((name_index, descriptor_index), rest)) => Ok(
                    ((RawConstantView::NameAndType { name_index, descriptor_index }, false), rest),
                ),
            }
        } else if tag == 1 {
            match take_u16(s1) {
                Err(e) => Err(e),
                Ok((count, s2)) => match take_bytes(s2, count as nat) {
                    Err(e) => Err(e),
                    Ok((bytes, rest)) => match java_cesu8_text(bytes) {
                        Some(string) => Ok(((RawConstantView::Utf8 { string }, false), rest)),
                        None => Err(Error::InvalidUtf8),
                    },
                },
            }
        } else if tag == 15 {
            match take_u8(s1) {
                Err(e) => Err(e),
                Ok((reference_kind, s2)) => match take_index(s2) {
                    Err(e) => Err(e),
                    Ok((reference_index, rest)) => Ok(
                        (
                            (RawConstantView::MethodHandle { reference_kind, reference_index }, false),
                            rest,
                        ),
                    ),
                },
            }
        } else if tag == 16 {
            match take_index(s1) {
                Err(e) => Err(e),
                Ok((descriptor_index, rest)) => Ok(
                    ((RawConstantView::MethodType { descriptor_index }, false), rest),
                ),
            }
        } else if tag == 18 {
            match take_index_pair(s1) {
                Err(e) => Err(e),
                Ok(((bootstrap_method_attr_index, name_and_type_index), rest)) => Ok(
                    (
                        (
                            RawConstantView::InvokeDynamic {
                                bootstrap_method_attr_index,
                                name_and_type_index,
                            },
                            false,
                        ),
                        rest,
                    ),
                ),
            }
        } else {
            Err(Error::InvalidConstantTag(tag))
        },
    }
}

/// Whether decoding a structure behaved as `expected`: on success the value
/// has the expected mathematical value and the expected bytes are left, on
/// failure the expected error came back.
pub open spec fn decoded_as<T: View>(
    expected: Result<(T::V, Seq<u8>), Error>,
    got: Result<T, Error>,
    rest: Seq<u8>,
) -> bool {
    match expected {
        Ok((v, r)) => got matches Ok(t) && t@ == v && rest == r,
        Err(e) => got matches Err(g) && g == e,
    }
}

/// Reads a 16-bit constant pool index.
fn read_index<R: ReadNum>(r: &mut R) -> (res: Result<usize, Error>)
    ensures
        read_as(take_index((*old(r)).remaining()), res, (*final(r)).remaining()),
{
    let v = r.read_u16()?;
    Ok(v as usize)
}

/// Reads two 16-bit constant pool indices.
fn read_index_pair<R: ReadNum>(r: &mut R) -> (res: Result<(usize, usize), Error>)
    ensures
        read_as(take_index_pair((*old(r)).remaining()), res, (*final(r)).remaining()),
{
    let a = read_index(r)?;
    let b = read_index(r)?;
    Ok((a, b))
}

impl RawConstant {
    /// The Utf8 entry for the outcome of decoding its bytes: the entry that
    /// holds the text, or `InvalidUtf8` where the bytes were rejected.
    pub fn utf8_from_decoded(decoded: Result<String, Cesu8DecodingError>) -> (res: Result<
        Self,
        Error,
    >)
        ensures
            match decoded {
                Ok(text) => res matches Ok(c) && c@ == (RawConstantView::Utf8 { string: text@ }),
                Err(_) => res matches Err(e) && e == Error::InvalidUtf8,
            },
    {
        match decoded {
            Ok(string) => Ok(RawConstant::Utf8 { string }),
            Err(_) => Err(Error::InvalidUtf8),
        }
    }

    /// Reads one constant pool entry. The flag that comes with it says
    /// whether the entry takes up two pool slots (Long and Double do).
    pub fn read_from<R: ReadNum>(r: &mut R) -> (res: Result<(Self, bool), Error>)
        ensures
            match parse_constant((*old(r)).remaining()) {
                Ok(((c, skip), rest)) => {
                    &&& res matches Ok((got, got_skip))
                    &&& got@ == c
                    &&& got_skip == skip
                    &&& (*final(r)).remaining() == rest
                },
                Err(e) => res matches Err(g) && g == e,
            },
    {
        let tag = r.read_u8()?;
        match tag {
            7 => {
                let name_index = read_index(r)?;
                Ok((RawConstant::Class { name_index }, false))
            },
            9 => {
                let (class_index, name_and_type_index) = read_index_pair(r)?;
                Ok((RawConstant::FieldRef { class_index, name_and_type_index }, false))
            },
            10 => {
                let (class_index, name_and_type_index) = read_index_pair(r)?;
                Ok((RawConstant::MethodRef { class_index, name_and_type_index }, false))
            },
            11 => {
                let (class_index, name_and_type_index) = read_index_pair(r)?;
                Ok((RawConstant::InterfaceMethodRef { class_index, name_and_type_index }, false))
            },
            8 => {
                let string_index = read_index(r)?;
                Ok((RawConstant::String { string_index }, false))
            },
            3 => {
                let num = r.read_i32()?;
                Ok((RawConstant::Integer { num }, false))
            },
            4 => {
                let bits = r.read_u32()?;
                Ok((RawConstant::Float { bits }, false))
            },
            5 => {
                let num = r.read_i64()?;
                Ok((RawConstant::Long { num }, true))
            },
            6 => {
                let bits = r.read_u64()?;
                Ok((RawConstant::Double { bits }, true))
            },
            12 => {
                let (name_index, descriptor_index) = read_index_pair(r)?;
                Ok((RawConstant::NameAndType { name_index, descriptor_index }, false))
            },
            1 => {
                let count = r.read_u16()?;
                let bytes = r.read_bytes(count as usize)?;
                let constant = RawConstant::utf8_from_decoded(decode_java_cesu8(bytes.as_slice()))?;
                Ok((constant, false))
            },
            15 => {
                let reference_kind = r.read_u8()?;
                let reference_index = read_index(r)?;
                Ok((RawConstant::MethodHandle { reference_kind, reference_index }, false))
            },
            16 => {
                let descriptor_index = read_index(r)?;
                Ok((RawConstant::MethodType { descriptor_index }, false))
            },
            18 => {
                let (bootstrap_method_attr_index, name_and_type_index) = read_index_pair(r)?;
                Ok(
                    (
                        RawConstant::InvokeDynamic { bootstrap_method_attr_index, name_and_type_index },
                        false,
                    ),
                )
            },
            _ => Err(Error::InvalidConstantTag(tag)),
        }
    }

    /// The text of a Utf8 entry.
    pub fn unwrap_utf8(&self) -> (text: &str)
        requires
            self is Utf8,
        ensures
            self@ == (RawConstantView::Utf8 { string: text@ }),
    {
        match self {
            RawConstant::Utf8 { string } => string.as_str(),
            _ => "",
        }
    }
}

/// Whether `index` names an entry of `pool` that may be referenced: indices
/// count from 1, and the second slot of a Long or Double is never referenced.
pub open spec fn valid_index(pool: Seq<RawConstantView>, index: usize) -> bool {
    1 <= index <= pool.len() && !(pool[index - 1] is Unused)
}

/// What is wrong with an index that cannot be followed in a pool of `len`
/// slots: it dangles where it points past the end of the pool, and is
/// invalid where it is zero or names an unused slot.
pub open spec fn index_error(len: nat, index: usize) -> Error {
    if index > len {
        Error::DanglingIndex(index)
    } else {
        Error::InvalidIndex(index)
    }
}

/// The entry of `pool` that `index` names.
pub open spec fn pool_entry(pool: Seq<RawConstantView>, index: usize) -> Result<
    RawConstantView,
    Error,
> {
    if valid_index(pool, index) {
        Ok(pool[index - 1])
    } else {
        Err(index_error(pool.len(), index))
    }
}

/// The text of the Utf8 entry that `index` names.
pub open spec fn pool_utf8(pool: Seq<RawConstantView>, index: usize) -> Result<Seq<char>, Error> {
    match pool_entry(pool, index) {
        Ok(RawConstantView::Utf8 { string }) => Ok(string),
        Ok(_) => Err(Error::WrongConstantKind(index)),
        Err(e) => Err(e),
    }
}

/// The name of the class that the Class entry at `index` names.
pub open spec fn pool_class_name(pool: Seq<RawConstantView>, index: usize) -> Result<
    Seq<char>,
    Error,
> {
    match pool_entry(pool, index) {
        Ok(RawConstantView::Class { name_index }) => pool_utf8(pool, name_index),
        Ok(_) => Err(Error::WrongConstantKind(index)),
        Err(e) => Err(e),
    }
}

/// The name and the descriptor that the NameAndType entry at `index` names.
pub open spec fn pool_name_and_type(pool: Seq<RawConstantView>, index: usize) -> Result<
    (Seq<char>, Seq<char>),
    Error,
> {
    match pool_entry(pool, index) {
        Ok(RawConstantView::NameAndType { name_index, descriptor_index }) => match pool_utf8(
            pool,
            name_index,
        ) {
            Err(e) => Err(e),
            Ok(name) => match pool_utf8(pool, descriptor_index) {
                Err(e) => Err(e),
                Ok(descriptor) => Ok((name, descriptor)),
            },
        },
        Ok(_) => Err(Error::WrongConstantKind(index)),
        Err(e) => Err(e),
    }
}

/// A symbolic reference to a member of a class, resolved to text.
pub struct MemberRef {
    pub class_name: Seq<char>,
    pub name: Seq<char>,
    pub descriptor: Seq<char>,
}

/// The class name, member name and descriptor behind a class index and a
/// name-and-type index.
pub open spec fn pool_member(
    pool: Seq<RawConstantView>,
    class_index: usize,
    name_and_type_index: usize,
) -> Result<MemberRef, Error> {
    match pool_class_name(pool, class_index) {
        Err(e) => Err(e),
        Ok(class_name) => match pool_name_and_type(pool, name_and_type_index) {
            Err(e) => Err(e),
            Ok((name, descriptor)) => Ok(MemberRef { class_name, name, descriptor }),
        },
    }
}

/// The method that the MethodRef or InterfaceMethodRef entry at `index`
/// names.
pub open spec fn pool_method_ref(pool: Seq<RawConstantView>, index: usize) -> Result<
    MemberRef,
    Error,
> {
    match pool_entry(pool, index) {
        Ok(RawConstantView::MethodRef { class_index, name_and_type_index }) => pool_member(
            pool,
            class_index,
            name_and_type_index,
        ),
        Ok(RawConstantView::InterfaceMethodRef { class_index, name_and_type_index }) => pool_member(
            pool,
            class_index,
            name_and_type_index,
        ),
        Ok(_) => Err(Error::WrongConstantKind(index)),
        Err(e) => Err(e),
    }
}

/// The field that the FieldRef entry at `index` names.
pub open spec fn pool_field_ref(pool: Seq<RawConstantView>, index: usize) -> Result<
    MemberRef,
    Error,
> {
    match pool_entry(pool, index) {
        Ok(RawConstantView::FieldRef { class_index, name_and_type_index }) => pool_member(
            pool,
            class_index,
            name_and_type_index,
        ),
        Ok(_) => Err(Error::WrongConstantKind(index)),
        Err(e) => Err(e),
    }
}

/// Whether a lookup of text in the pool behaved as `expected`.
pub open spec fn text_as(expected: Result<Seq<char>, Error>, got: Result<&str, Error>) -> bool {
    match expected {
        Ok(text) => got matches Ok(s) && s@ == text,
        Err(e) => got matches Err(g) && g == e,
    }
}

/// Whether the resolution of a member reference behaved as `expected`.
pub open spec fn member_as(
    expected: Result<MemberRef, Error>,
    got: Result<(&str, &str, &str), Error>,
) -> bool {
    match expected {
        Ok(m) => got matches Ok((c, n, d)) && c@ == m.class_name && n@ == m.name && d@
            == m.descriptor,
        Err(e) => got matches Err(g) && g == e,
    }
}

/// The entry of `pool` that `index` names. Fails with `DanglingIndex` where
/// `index` points past the end of the pool, and with `InvalidIndex` where it
/// is zero or names the second slot of a Long or Double.
pub fn get_constant<'a>(pool: &'a [RawConstant], index: usize) -> (res: Result<
    &'a RawConstant,
    Error,
>)
    ensures
        match pool_entry(constant_views(pool@), index) {
            Ok(v) => res matches Ok(c) && c@ == v && *c == pool@[index - 1],
            Err(e) => res matches Err(g) && g == e,
        },
{
    if index > pool.len() {
        return Err(Error::DanglingIndex(index));
    }
    if index == 0 {
        return Err(Error::InvalidIndex(index));
    }
    let constant = &pool[index - 1];
    match constant {
        RawConstant::Unused => Err(Error::InvalidIndex(index)),
        _ => Ok(constant),
    }
}

/// The text of the Utf8 entry that `index` names.
pub fn get_utf8<'a>(pool: &'a [RawConstant], index: usize) -> (res: Result<&'a str, Error>)
    ensures
        text_as(pool_utf8(constant_views(pool@), index), res),
{
    match get_constant(pool, index)? {
        RawConstant::Utf8 { string } => Ok(string.as_str()),
        _ => Err(Error::WrongConstantKind(index)),
    }
}

/// The name of the class that the Class entry at `index` names.
pub fn get_class_name<'a>(pool: &'a [RawConstant], index: usize) -> (res: Result<&'a str, Error>)
    ensures
        text_as(pool_class_name(constant_views(pool@), index), res),
{
    match get_constant(pool, index)? {
        RawConstant::Class { name_index } => get_utf8(pool, *name_index),
        _ => Err(Error::WrongConstantKind(index)),
    }
}

/// The name and the descriptor that the NameAndType entry at `index` names.
pub fn get_name_and_type<'a>(pool: &'a [RawConstant], index: usize) -> (res: Result<
    (&'a str, &'a str),
    Error,
>)
    ensures
        match pool_name_and_type(constant_views(pool@), index) {
            Ok((name, descriptor)) => res matches Ok((n, d)) && n@ == name && d@ == descriptor,
            Err(e) => res matches Err(g) && g == e,
        },
{
    match get_constant(pool, index)? {
        RawConstant::NameAndType { name_index, descriptor_index } => {
            let name = get_utf8(pool, *name_index)?;
            let descriptor = get_utf8(pool, *descriptor_index)?;
            Ok((name, descriptor))
        },
        _ => Err(Error::WrongConstantKind(index)),
    }
}

/// The class name, method name and descriptor that the MethodRef or
/// InterfaceMethodRef entry at `index` names.
pub fn get_method_ref<'a>(pool: &'a [RawConstant], index: usize) -> (res: Result<
    (&'a str, &'a str, &'a str),
    Error,
>)
    ensures
        member_as(pool_method_ref(constant_views(pool@), index), res),
{
    match get_constant(pool, index)? {
        RawConstant::MethodRef { class_index, name_and_type_index } => {
            let class_name = get_class_name(pool, *class_index)?;
            let (name, descriptor) = get_name_and_type(pool, *name_and_type_index)?;
            Ok((class_name, name, descriptor))
        },
        RawConstant::InterfaceMethodRef { class_index, name_and_type_index } => {
            let class_name = get_class_name(pool, *class_index)?;
            let (name, descriptor) = get_name_and_type(pool, *name_and_type_index)?;
            Ok((class_name, name, descriptor))
        },
        _ => Err(Error::WrongConstantKind(index)),
    }
}

/// The class name, field name and descriptor that the FieldRef entry at
/// `index` names.
pub fn get_field_ref<'a>(pool: &'a [RawConstant], index: usize) -> (res: Result<
    (&'a str, &'a str, &'a str),
    Error,
>)
    ensures
        member_as(pool_field_ref(constant_views(pool@), index), res),
{
    match get_constant(pool, index)? {
        RawConstant::FieldRef { class_index, name_and_type_index } => {
            let class_name = get_class_name(pool, *class_index)?;
            let (name, descriptor) = get_name_and_type(pool, *name_and_type_index)?;
            Ok((class_name, name, descriptor))
        },
        _ => Err(Error::WrongConstantKind(index)),
    }
}

/// An attribute as it stands in the file: the index of its name and its
/// undecoded body.
#[derive(Debug, Clone, Default)]
pub struct RawAttribute {
    pub attribute_name_index: usize,
    pub info: Vec<u8>,
}

/// The mathematical value of a [`RawAttribute`].
pub struct RawAttributeView {
    pub attribute_name_index: usize,
    pub info: Seq<u8>,
}

impl View for RawAttribute {
    type V = RawAttributeView;

    open spec fn view(&self) -> RawAttributeView {
        RawAttributeView { attribute_name_index: self.attribute_name_index, info: self.info@ }
    }
}

/// The mathematical values of the attributes in `attrs`, in order.
pub open spec fn attribute_views(attrs: Seq<RawAttribute>) -> Seq<RawAttributeView> {
    attrs.map_values(|a: RawAttribute| a@)
}

/// The attribute at the start of `s` and the bytes that follow it: a 16-bit
/// name index, a 32-bit length, and that many bytes of body.
pub open spec fn parse_attribute(s: Seq<u8>) -> Result<(RawAttributeView, Seq<u8>), Error> {
    match take_index(s) {
        Err(e) => Err(e),
        Ok((attribute_name_index, s1)) => match take_u32(s1) {
            Err(e) => Err(e),
            Ok((len, s2)) => match take_bytes(s2, len as nat) {
                Err(e) => Err(e),
                Ok((info, rest)) => Ok((RawAttributeView { attribute_name_index, info }, rest)),
            },
        },
    }
}

/// The items `acc`, followed by those that `r` found.
pub open spec fn after_items<T>(acc: Seq<T>, r: Result<(Seq<T>, Seq<u8>), Error>) -> Result<
    (Seq<T>, Seq<u8>),
    Error,
> {
    match r {
        Ok((items, rest)) => Ok((acc + items, rest)),
        Err(e) => Err(e),
    }
}

/// The `n` attributes at the start of `s` and the bytes that follow them.
pub open spec fn parse_attributes(s: Seq<u8>, n: nat) -> Result<
    (Seq<RawAttributeView>, Seq<u8>),
    Error,
>
    decreases n,
{
    if n == 0 {
        Ok((Seq::empty(), s))
    } else {
        match parse_attribute(s) {
            Err(e) => Err(e),
            Ok((a, s1)) => match parse_attributes(s1, (n - 1) as nat) {
                Err(e) => Err(e),
                Ok((later, rest)) => Ok((seq![a] + later, rest)),
            },
        }
    }
}

/// The number of bytes that `attrs` take up in a file.
pub open spec fn attributes_size(attrs: Seq<RawAttributeView>) -> nat
    decreases attrs.len(),
{
    if attrs.len() == 0 {
        0
    } else {
        6 + attrs[0].info.len() + attributes_size(attrs.drop_first())
    }
}

/// A list of attributes that was decoded took up exactly its size in bytes.
pub proof fn lemma_attributes_size(s: Seq<u8>, n: nat)
    ensures
        parse_attributes(s, n) matches Ok((attrs, rest)) ==> {
            &&& attrs.len() == n
            &&& attributes_size(attrs) + rest.len() == s.len()
        },
    decreases n,
{
    if n > 0 {
        match parse_attribute(s) {
            Err(_) => {},
            Ok((a, s1)) => {
                lemma_attributes_size(s1, (n - 1) as nat);
                match parse_attributes(s1, (n - 1) as nat) {
                    Err(_) => {},
                    Ok((later, rest)) => {
                        let attrs = seq![a] + later;
                        assert(attrs[0] == a);
                        assert(attrs.drop_first() =~= later);
                    },
                }
            },
        }
    }
}

impl RawAttribute {
    /// Reads one attribute, body and all.
    pub fn read_from<R: ReadNum>(r: &mut R) -> (res: Result<Self, Error>)
        ensures
            decoded_as(parse_attribute((*old(r)).remaining()), res, (*final(r)).remaining()),
    {
        let attribute_name_index = read_index(r)?;
        let len = r.read_u32()?;
        let info = r.read_bytes(len as usize)?;
        Ok(RawAttribute { attribute_name_index, info })
    }
}

/// Reads `count` attributes, one after the other.
pub fn read_attributes<R: ReadNum>(r: &mut R, count: u16) -> (res: Result<
    Vec<RawAttribute>,
    Error,
>)
    ensures
        match parse_attributes((*old(r)).remaining(), count as nat) {
            Ok((attrs, rest)) => {
                &&& res matches Ok(got)
                &&& attribute_views(got@) == attrs
                &&& (*final(r)).remaining() == rest
            },
            Err(e) => res matches Err(g) && g == e,
        },
{
    let ghost all = r.remaining();
    let mut attributes: Vec<RawAttribute> = Vec::new();
    let mut i: u16 = 0;
    assert(attribute_views(attributes@) =~= Seq::empty());
    assert(after_items(Seq::<RawAttributeView>::empty(), parse_attributes(all, count as nat))
        == parse_attributes(all, count as nat)) by {
        match parse_attributes(all, count as nat) {
            Ok((items, rest)) => {
                assert(Seq::<RawAttributeView>::empty() + items =~= items);
            },
            Err(_) => {},
        }
    }
    while i < count
        invariant
            i <= count,
            all == (*old(r)).remaining(),
            parse_attributes(all, count as nat) == after_items(
                attribute_views(attributes@),
                parse_attributes(r.remaining(), (count - i) as nat),
            ),
        decreases count - i,
    {
        let ghost before = attribute_views(attributes@);
        let ghost unread = r.remaining();
        let attribute = RawAttribute::read_from(r)?;
        attributes.push(attribute);
        i = i + 1;
        assert(attribute_views(attributes@) =~= before.push(attribute@));
        assert(parse_attributes(all, count as nat) == after_items(
            attribute_views(attributes@),
            parse_attributes(r.remaining(), (count - i) as nat),
        )) by {
            match parse_attributes(r.remaining(), (count - i) as nat) {
                Ok((later, rest)) => {
                    assert(before + (seq![attribute@] + later) =~= before.push(attribute@) + later);
                },
                Err(_) => {},
            }
        }
    }
    assert(attribute_views(attributes@) + Seq::<RawAttributeView>::empty() =~= attribute_views(
        attributes@,
    ));
    Ok(attributes)
}

/// The mathematical value of a field or a method as it stands in the file.
pub struct RawMemberView {
    pub access_flags: u16,
    pub name_index: usize,
    pub descriptor_index: usize,
    pub attributes: Seq<RawAttributeView>,
}

/// The field or method at the start of `s` and the bytes that follow it:
/// access flags, which may have only the bits in `known` set, then name index,
/// descriptor index, attribute count and the attributes.
pub open spec fn parse_member(s: Seq<u8>, known: u16) -> Result<(RawMemberView, Seq<u8>), Error> {
    match take_u16(s) {
        Err(e) => Err(e),
        Ok((access_flags, s1)) => if !only_known_bits(access_flags, known) {
            Err(Error::InvalidAccessFlags(access_flags))
        } else {
            match take_index_pair(s1) {
                Err(e) => Err(e),
                Ok(((name_index, descriptor_index), s2)) => match take_u16(s2) {
                    Err(e) => Err(e),
                    Ok((count, s3)) => match parse_attributes(s3, count as nat) {
                        Err(e) => Err(e),
                        Ok((attributes, rest)) => Ok(
                            (
                                RawMemberView {
                                    access_flags,
                                    name_index,
                                    descriptor_index,
                                    attributes,
                                },
                                rest,
                            ),
                        ),
                    },
                },
            }
        },
    }
}

/// The `n` fields or methods at the start of `s` and the bytes that follow
/// them.
pub open spec fn parse_members(s: Seq<u8>, known: u16, n: nat) -> Result<
    (Seq<RawMemberView>, Seq<u8>),
    Error,
>
    decreases n,
{
    if n == 0 {
        Ok((Seq::empty(), s))
    } else {
        match parse_member(s, known) {
            Err(e) => Err(e),
            Ok((m, s1)) => match parse_members(s1, known, (n - 1) as nat) {
                Err(e) => Err(e),
                Ok((later, rest)) => Ok((seq![m] + later, rest)),
            },
        }
    }
}

/// A field as it stands in the file.
#[derive(Debug, Clone, Default)]
pub struct RawField {
    pub access_flags: FieldAccessFlags,
    pub name_index: usize,
    pub descriptor_index: usize,
    pub attributes: Vec<RawAttribute>,
}

impl View for RawField {
    type V = RawMemberView;

    open spec fn view(&self) -> RawMemberView {
        RawMemberView {
            access_flags: self.access_flags@,
            name_index: self.name_index,
            descriptor_index: self.descriptor_index,
            attributes: attribute_views(self.attributes@),
        }
    }
}

/// The mathematical values of the fields in `fs`, in order.
pub open spec fn field_views(fs: Seq<RawField>) -> Seq<RawMemberView> {
    fs.map_values(|f: RawField| f@)
}

impl RawField {
    /// Reads one field. Access flags with a bit that means nothing for a
    /// field are rejected.
    pub fn read_from<R: ReadNum>(r: &mut R) -> (res: Result<Self, Error>)
        ensures
            decoded_as(
                parse_member((*old(r)).remaining(), FieldAccessFlags::ALL),
                res,
                (*final(r)).remaining(),
            ),
    {
        let bits = r.read_u16()?;
        let access_flags = match FieldAccessFlags::from_bits(bits) {
            Some(flags) => flags,
            None => {
                return Err(Error::InvalidAccessFlags(bits));
            },
        };
        let (name_index, descriptor_index) = read_index_pair(r)?;
        let attribute_count = r.read_u16()?;
        let attributes = read_attributes(r, attribute_count)?;
        Ok(RawField { access_flags, name_index, descriptor_index, attributes })
    }
}

/// A method as it stands in the file.
#[derive(Debug, Clone, Default)]
pub struct RawMethod {
    pub access_flags: MethodAccessFlags,
    pub name_index: usize,
    pub descriptor_index: usize,
    pub attributes: Vec<RawAttribute>,
}

impl View for RawMethod {
    type V = RawMemberView;

    open spec fn view(&self) -> RawMemberView {
        RawMemberView {
            access_flags: self.access_flags@,
            name_index: self.name_index,
            descriptor_index: self.descriptor_index,
            attributes: attribute_views(self.attributes@),
        }
    }
}

/// The mathematical values of the methods in `ms`, in order.
pub open spec fn method_views(ms: Seq<RawMethod>) -> Seq<RawMemberView> {
    ms.map_values(|m: RawMethod| m@)
}

impl RawMethod {
    /// Reads one method. Access flags with a bit that means nothing for a
    /// method are rejected.
    pub fn read_from<R: ReadNum>(r: &mut R) -> (res: Result<Self, Error>)
        ensures
            decoded_as(
                parse_member((*old(r)).remaining(), MethodAccessFlags::ALL),
                res,
                (*final(r)).remaining(),
            ),
    {
        let bits = r.read_u16()?;
        let access_flags = match MethodAccessFlags::from_bits(bits) {
            Some(flags) => flags,
            None => {
                return Err(Error::InvalidAccessFlags(bits));
            },
        };
        let (name_index, descriptor_index) = read_index_pair(r)?;
        let attribute_count = r.read_u16()?;
        let attributes = read_attributes(r, attribute_count)?;
        Ok(RawMethod { access_flags, name_index, descriptor_index, attributes })
    }
}

} // verus!
