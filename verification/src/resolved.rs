//! Members and attributes, resolved against the constant pool.
//!
//! The values here borrow from the class they were taken from: text is a
//! slice of a Utf8 entry, constants are references into the pool, bytecode is
//! a slice of the attribute's body. Nothing is decoded before it is asked
//! for.

use crate::bytes::read_u16s;
use crate::bytes::take_bytes;
use crate::bytes::take_u16;
use crate::bytes::take_u16s;
use crate::bytes::take_u32;
use crate::bytes::ByteReader;
use crate::bytes::ReadNum;
use crate::error::Error;
use crate::flags::only_known_bits;
use crate::flags::FieldAccessFlags;
use crate::flags::MethodAccessFlags;
use crate::flags::NestedClassAccessFlags;
use crate::raw::after_items;
use crate::raw::attribute_views;
use crate::raw::attributes_size;
use crate::raw::constant_views;
use crate::raw::decoded_as;
use crate::raw::get_constant;
use crate::raw::get_utf8;
use crate::raw::lemma_attributes_size;
use crate::raw::parse_attributes;
use crate::raw::pool_entry;
use crate::raw::pool_utf8;
use crate::raw::read_attributes;
use crate::raw::take_index;
use crate::raw::RawAttribute;
use crate::raw::RawAttributeView;
use crate::raw::RawConstant;
use crate::raw::RawConstantView;
use crate::raw::RawField;
use crate::raw::RawMemberView;
use crate::raw::RawMethod;
use crate::text::str_eq;
use vstd::prelude::*;

verus! {

/// The mathematical values of the items of `items`, in order.
pub open spec fn views<T: View>(items: Seq<T>) -> Seq<T::V> {
    items.map_values(|t: T| t@)
}

/// A structure of fixed layout that is decoded from a byte stream and
/// resolved against a constant pool as it is read.
pub trait Record<'a>: Sized + View {
    /// The record at the start of `s`, resolved against `pool`, and the bytes
    /// that follow it.
    spec fn parse(pool: Seq<RawConstantView>, s: Seq<u8>) -> Result<(Self::V, Seq<u8>), Error>;

    /// Reads and resolves one record.
    fn read<R: ReadNum>(pool: &'a [RawConstant], r: &mut R) -> (res: Result<Self, Error>)
        ensures
            decoded_as(
                Self::parse(constant_views(pool@), (*old(r)).remaining()),
                res,
                (*final(r)).remaining(),
            ),
    ;
}

/// The `n` records at the start of `s`, resolved against `pool`, and the
/// bytes that follow them.
pub open spec fn parse_records<'a, T: Record<'a>>(
    pool: Seq<RawConstantView>,
    s: Seq<u8>,
    n: nat,
) -> Result<(Seq<T::V>, Seq<u8>), Error>
    decreases n,
{
    if n == 0 {
        Ok((Seq::empty(), s))
    } else {
        match T::parse(pool, s) {
            Err(e) => Err(e),
            Ok((x, s1)) => match parse_records::<T>(pool, s1, (n - 1) as nat) {
                Err(e) => Err(e),
                Ok((later, rest)) => Ok((seq![x] + later, rest)),
            },
        }
    }
}

/// Reads and resolves `n` records, one after the other.
pub fn read_records<'a, T: Record<'a>, R: ReadNum>(
    pool: &'a [RawConstant],
    r: &mut R,
    n: u16,
) -> (res: Result<Vec<T>, Error>)
    ensures
        match parse_records::<T>(constant_views(pool@), (*old(r)).remaining(), n as nat) {
            Ok((items, rest)) => {
                &&& res matches Ok(got)
                &&& views(got@) == items
                &&& (*final(r)).remaining() == rest
            },
            Err(e) => res matches Err(g) && g == e,
        },
{
    let ghost all = r.remaining();
    let ghost p = constant_views(pool@);
    let mut items: Vec<T> = Vec::new();
    let mut i: u16 = 0;
    assert(views(items@) =~= Seq::empty());
    assert(after_items(Seq::<T::V>::empty(), parse_records::<T>(p, all, n as nat))
        == parse_records::<T>(p, all, n as nat)) by {
        match parse_records::<T>(p, all, n as nat) {
            Ok((found, rest)) => {
                assert(Seq::<T::V>::empty() + found =~= found);
            },
            Err(_) => {},
        }
    }
    while i < n
        invariant
            i <= n,
            p == constant_views(pool@),
            all == (*old(r)).remaining(),
            parse_records::<T>(p, all, n as nat) == after_items(
                views(items@),
                parse_records::<T>(p, r.remaining(), (n - i) as nat),
            ),
        decreases n - i,
    {
        let ghost before = views(items@);
        let item = T::read(pool, r)?;
        let ghost x = item@;
        items.push(item);
        i = i + 1;
        assert(views(items@) =~= before.push(x));
        assert(parse_records::<T>(p, all, n as nat) == after_items(
            views(items@),
            parse_records::<T>(p, r.remaining(), (n - i) as nat),
        )) by {
            match parse_records::<T>(p, r.remaining(), (n - i) as nat) {
                Ok((later, rest)) => {
                    assert(before + (seq![x] + later) =~= before.push(x) + later);
                },
                Err(_) => {},
            }
        }
    }
    assert(views(items@) + Seq::<T::V>::empty() =~= views(items@));
    Ok(items)
}

/// What reading a constant pool index from `s` and following it in `pool`
/// yields.
pub open spec fn take_entry(pool: Seq<RawConstantView>, s: Seq<u8>) -> Result<
    (RawConstantView, Seq<u8>),
    Error,
> {
    match take_index(s) {
        Err(e) => Err(e),
        Ok((index, rest)) => match pool_entry(pool, index) {
            Err(e) => Err(e),
            Ok(c) => Ok((c, rest)),
        },
    }
}

/// What reading a constant pool index from `s` and taking the text of the
/// Utf8 entry that it names yields.
pub open spec fn take_utf8(pool: Seq<RawConstantView>, s: Seq<u8>) -> Result<
    (Seq<char>, Seq<u8>),
    Error,
> {
    match take_index(s) {
        Err(e) => Err(e),
        Ok((index, rest)) => match pool_utf8(pool, index) {
            Err(e) => Err(e),
            Ok(text) => Ok((text, rest)),
        },
    }
}

/// What reading `n` constant pool indices from `s` and following each in
/// `pool` yields.
pub open spec fn take_entries(pool: Seq<RawConstantView>, s: Seq<u8>, n: nat) -> Result<
    (Seq<RawConstantView>, Seq<u8>),
    Error,
>
    decreases n,
{
    if n == 0 {
        Ok((Seq::empty(), s))
    } else {
        match take_entry(pool, s) {
            Err(e) => Err(e),
            Ok((c, s1)) => match take_entries(pool, s1, (n - 1) as nat) {
                Err(e) => Err(e),
                Ok((later, rest)) => Ok((seq![c] + later, rest)),
            },
        }
    }
}

/// Reads a constant pool index and follows it.
fn read_entry<'a, R: ReadNum>(pool: &'a [RawConstant], r: &mut R) -> (res: Result<
    &'a RawConstant,
    Error,
>)
    ensures
        match take_entry(constant_views(pool@), (*old(r)).remaining()) {
            Ok((c, rest)) => res matches Ok(got) && got@ == c && (*final(r)).remaining() == rest,
            Err(e) => res matches Err(g) && g == e,
        },
{
    let index = r.read_u16()?;
    get_constant(pool, index as usize)
}

/// Reads `n` constant pool indices and follows each.
fn read_entries<'a, R: ReadNum>(pool: &'a [RawConstant], r: &mut R, n: u16) -> (res: Result<
    Vec<&'a RawConstant>,
    Error,
>)
    ensures
        match take_entries(constant_views(pool@), (*old(r)).remaining(), n as nat) {
            Ok((entries, rest)) => {
                &&& res matches Ok(got)
                &&& views(got@) == entries
                &&& (*final(r)).remaining() == rest
            },
            Err(e) => res matches Err(g) && g == e,
        },
{
    let ghost all = r.remaining();
    let ghost p = constant_views(pool@);
    let mut entries: Vec<&'a RawConstant> = Vec::new();
    let mut i: u16 = 0;
    assert(views(entries@) =~= Seq::empty());
    assert(after_items(Seq::<RawConstantView>::empty(), take_entries(p, all, n as nat))
        == take_entries(p, all, n as nat)) by {
        match take_entries(p, all, n as nat) {
            Ok((found, rest)) => {
                assert(Seq::<RawConstantView>::empty() + found =~= found);
            },
            Err(_) => {},
        }
    }
    while i < n
        invariant
            i <= n,
            p == constant_views(pool@),
            all == (*old(r)).remaining(),
            take_entries(p, all, n as nat) == after_items(
                views(entries@),
                take_entries(p, r.remaining(), (n - i) as nat),
            ),
        decreases n - i,
    {
        let ghost before = views(entries@);
        let entry = read_entry(pool, r)?;
        let ghost c = entry@;
        entries.push(entry);
        i = i + 1;
        assert(views(entries@) =~= before.push(c));
        assert(take_entries(p, all, n as nat) == after_items(
            views(entries@),
            take_entries(p, r.remaining(), (n - i) as nat),
        )) by {
            match take_entries(p, r.remaining(), (n - i) as nat) {
                Ok((later, rest)) => {
                    assert(before + (seq![c] + later) =~= before.push(c) + later);
                },
                Err(_) => {},
            }
        }
    }
    assert(views(entries@) + Seq::<RawConstantView>::empty() =~= views(entries@));
    Ok(entries)
}

/// Reads a constant pool index and takes the text of the Utf8 entry that it
/// names.
fn read_utf8<'a, R: ReadNum>(pool: &'a [RawConstant], r: &mut R) -> (res: Result<&'a str, Error>)
    ensures
        match take_utf8(constant_views(pool@), (*old(r)).remaining()) {
            Ok((text, rest)) => res matches Ok(got) && got@ == text && (*final(r)).remaining()
                == rest,
            Err(e) => res matches Err(g) && g == e,
        },
{
    let index = r.read_u16()?;
    get_utf8(pool, index as usize)
}

/// One row of the exception table of a Code attribute.
#[derive(Debug, Clone, Copy, Default, PartialEq, Eq)]
pub struct Exception {
    pub start_pc: u16,
    pub end_pc: u16,
    pub handler_pc: u16,
    pub catch_type: u16,
}

/// One row of an InnerClasses attribute.
#[derive(Debug, Clone, Copy)]
pub struct InnerClassInfo<'a> {
    pub inner_class_info: &'a RawConstant,
    pub outer_class_info: &'a RawConstant,
    pub inner_name: &'a str,
    pub inner_class_access_flags: NestedClassAccessFlags,
}

/// The mathematical value of an [`InnerClassInfo`].
pub struct InnerClassInfoView {
    pub inner_class_info: RawConstantView,
    pub outer_class_info: RawConstantView,
    pub inner_name: Seq<char>,
    pub inner_class_access_flags: u16,
}

impl<'a> View for InnerClassInfo<'a> {
    type V = InnerClassInfoView;

    open spec fn view(&self) -> InnerClassInfoView {
        InnerClassInfoView {
            inner_class_info: self.inner_class_info@,
            outer_class_info: self.outer_class_info@,
            inner_name: self.inner_name@,
            inner_class_access_flags: self.inner_class_access_flags@,
        }
    }
}

/// The row of an InnerClasses attribute at the start of `s`: three constant
/// pool indices, followed at once, and the access flags of a nested class.
pub open spec fn parse_inner_class(pool: Seq<RawConstantView>, s: Seq<u8>) -> Result<
    (InnerClassInfoView, Seq<u8>),
    Error,
> {
    match take_entry(pool, s) {
        Err(e) => Err(e),
        Ok((inner_class_info, s1)) => match take_entry(pool, s1) {
            Err(e) => Err(e),
            Ok((outer_class_info, s2)) => match take_utf8(pool, s2) {
                Err(e) => Err(e),
                Ok((inner_name, s3)) => match take_u16(s3) {
                    Err(e) => Err(e),
                    Ok((flags, rest)) => if !only_known_bits(flags, NestedClassAccessFlags::ALL) {
                        Err(Error::InvalidAccessFlags(flags))
                    } else {
                        Ok(
                            (
                                InnerClassInfoView {
                                    inner_class_info,
                                    outer_class_info,
                                    inner_name,
                                    inner_class_access_flags: flags,
                                },
                                rest,
                            ),
                        )
                    },
                },
            },
        },
    }
}

impl<'a> Record<'a> for InnerClassInfo<'a> {
    open spec fn parse(pool: Seq<RawConstantView>, s: Seq<u8>) -> Result<
        (InnerClassInfoView, Seq<u8>),
        Error,
    > {
        parse_inner_class(pool, s)
    }

    fn read<R: ReadNum>(pool: &'a [RawConstant], r: &mut R) -> (res: Result<Self, Error>) {
        let inner_class_info = read_entry(pool, r)?;
        let outer_class_info = read_entry(pool, r)?;
        let inner_name = read_utf8(pool, r)?;
        let bits = r.read_u16()?;
        match NestedClassAccessFlags::from_bits(bits) {
            Some(inner_class_access_flags) => Ok(
                InnerClassInfo {
                    inner_class_info,
                    outer_class_info,
                    inner_name,
                    inner_class_access_flags,
                },
            ),
            None => Err(Error::InvalidAccessFlags(bits)),
        }
    }
}

/// One row of a LineNumberTable attribute.
#[derive(Debug, Clone, Copy)]
pub struct LineNumber {
    pub start_pc: usize,
    pub line_number: usize,
}

/// One row of a LocalVariableTable attribute.
#[derive(Debug, Clone, Copy)]
pub struct LocalVariable<'a> {
    pub start_pc: usize,
    pub length: usize,
    pub name: &'a str,
    pub descriptor: &'a str,
    pub index: usize,
}

/// One row of a LocalVariableTypeTable attribute.
#[derive(Debug, Clone, Copy)]
pub struct LocalVariableType<'a> {
    pub start_pc: usize,
    pub length: usize,
    pub name: &'a str,
    pub signature: &'a str,
    pub index: usize,
}

/// The mathematical value of a [`LocalVariable`] or, with the signature in
/// place of the descriptor, of a [`LocalVariableType`].
pub struct LocalVariableView {
    pub start_pc: usize,
    pub length: usize,
    pub name: Seq<char>,
    pub descriptor: Seq<char>,
    pub index: usize,
}

impl<'a> View for LocalVariable<'a> {
    type V = LocalVariableView;

    open spec fn view(&self) -> LocalVariableView {
        LocalVariableView {
            start_pc: self.start_pc,
            length: self.length,
            name: self.name@,
            descriptor: self.descriptor@,
            index: self.index,
        }
    }
}

impl<'a> View for LocalVariableType<'a> {
    type V = LocalVariableView;

    open spec fn view(&self) -> LocalVariableView {
        LocalVariableView {
            start_pc: self.start_pc,
            length: self.length,
            name: self.name@,
            descriptor: self.signature@,
            index: self.index,
        }
    }
}

/// The row of a local variable table at the start of `s`: start, length,
/// the indices of name and of descriptor or signature, followed at once, and
/// the slot.
pub open spec fn parse_local_variable(pool: Seq<RawConstantView>, s: Seq<u8>) -> Result<
    (LocalVariableView, Seq<u8>),
    Error,
> {
    match take_u16(s) {
        Err(e) => Err(e),
        Ok((start_pc, s1)) => match take_u16(s1) {
            Err(e) => Err(e),
            Ok((length, s2)) => match take_utf8(pool, s2) {
                Err(e) => Err(e),
                Ok((name, s3)) => match take_utf8(pool, s3) {
                    Err(e) => Err(e),
                    Ok((descriptor, s4)) => match take_u16(s4) {
                        Err(e) => Err(e),
                        Ok((index, rest)) => Ok(
                            (
                                LocalVariableView {
                                    start_pc: start_pc as usize,
                                    length: length as usize,
                                    name,
                                    descriptor,
                                    index: index as usize,
                                },
                                rest,
                            ),
                        ),
                    },
                },
            },
        },
    }
}

impl<'a> Record<'a> for LocalVariable<'a> {
    open spec fn parse(pool: Seq<RawConstantView>, s: Seq<u8>) -> Result<
        (LocalVariableView, Seq<u8>),
        Error,
    > {
        parse_local_variable(pool, s)
    }

    fn read<R: ReadNum>(pool: &'a [RawConstant], r: &mut R) -> (res: Result<Self, Error>) {
        let start_pc = r.read_u16()? as usize;
        let length = r.read_u16()? as usize;
        let name = read_utf8(pool, r)?;
        let descriptor = read_utf8(pool, r)?;
        let index = r.read_u16()? as usize;
        Ok(LocalVariable { start_pc, length, name, descriptor, index })
    }
}

impl<'a> Record<'a> for LocalVariableType<'a> {
    open spec fn parse(pool: Seq<RawConstantView>, s: Seq<u8>) -> Result<
        (LocalVariableView, Seq<u8>),
        Error,
    > {
        parse_local_variable(pool, s)
    }

    fn read<R: ReadNum>(pool: &'a [RawConstant], r: &mut R) -> (res: Result<Self, Error>) {
        let start_pc = r.read_u16()? as usize;
        let length = r.read_u16()? as usize;
        let name = read_utf8(pool, r)?;
        let signature = read_utf8(pool, r)?;
        let index = r.read_u16()? as usize;
        Ok(LocalVariableType { start_pc, length, name, signature, index })
    }
}

/// One element-value pair of an annotation.
#[derive(Debug, Clone, Copy)]
pub struct AnnotationElement<'a> {
    pub name: &'a str,
}

/// An annotation: the descriptor of its type and its element-value pairs.
#[derive(Debug, Clone)]
pub struct Annotation<'a> {
    /// Field descriptor of the annotation's type.
    pub ty: &'a str,
    pub elements: Vec<AnnotationElement<'a>>,
}

/// One bootstrap method specifier: the method handle and its static
/// arguments.
#[derive(Debug, Clone)]
pub struct BootstrapMethod<'a> {
    pub method_ref: &'a RawConstant,
    pub arguments: Vec<&'a RawConstant>,
}

/// The mathematical value of a [`BootstrapMethod`].
pub struct BootstrapMethodView {
    pub method_ref: RawConstantView,
    pub arguments: Seq<RawConstantView>,
}

impl<'a> View for BootstrapMethod<'a> {
    type V = BootstrapMethodView;

    open spec fn view(&self) -> BootstrapMethodView {
        BootstrapMethodView { method_ref: self.method_ref@, arguments: views(self.arguments@) }
    }
}

impl<'a> Record<'a> for BootstrapMethod<'a> {
    open spec fn parse(pool: Seq<RawConstantView>, s: Seq<u8>) -> Result<
        (BootstrapMethodView, Seq<u8>),
        Error,
    > {
        match take_entry(pool, s) {
            Err(e) => Err(e),
            Ok((method_ref, s1)) => match take_u16(s1) {
                Err(e) => Err(e),
                Ok((count, s2)) => match take_entries(pool, s2, count as nat) {
                    Err(e) => Err(e),
                    Ok((arguments, rest)) => Ok((BootstrapMethodView { method_ref, arguments }, rest)),
                },
            },
        }
    }

    fn read<R: ReadNum>(pool: &'a [RawConstant], r: &mut R) -> (res: Result<Self, Error>) {
        let method_ref = read_entry(pool, r)?;
        let count = r.read_u16()?;
        let arguments = read_entries(pool, r, count)?;
        Ok(BootstrapMethod { method_ref, arguments })
    }
}

/// An attribute with its body decoded.
#[derive(Debug, Clone)]
#[allow(inconsistent_fields)]
pub enum Attribute<'a> {
    ConstantValue { value: &'a RawConstant },
    Code {
        max_stack: u16,
        max_locals: u16,
        code: &'a [u8],
        exception_table: Vec<Exception>,
        /// The attributes of the code, undecoded.
        attributes: Vec<RawAttribute>,
    },
    /// Passed through undecoded.
    StackMapTable,
    Exceptions {
        /// Constant pool indices of the classes that the method may throw.
        exception_index_table: Vec<u16>,
    },
    InnerClasses { classes: Vec<InnerClassInfo<'a>> },
    EnclosingMethod { class: &'a RawConstant, method_index: &'a RawConstant },
    Synthetic,
    Signature { signature: &'a RawConstant },
    SourceFile { sourcefile: &'a str },
    SourceDebugExtension { debug_extension: &'a [u8] },
    LineNumberTable { table: Vec<LineNumber> },
    LocalVariableTable { table: Vec<LocalVariable<'a>> },
    LocalVariableTypeTable { table: Vec<LocalVariableType<'a>> },
    Deprecated,
    /// Passed through undecoded.
    RuntimeVisibleAnnotations,
    /// Passed through undecoded.
    RuntimeInvisibleAnnotations,
    /// Passed through undecoded.
    RuntimeVisibleParameterAnnotations,
    /// Passed through undecoded.
    RuntimeInvisibleParameterAnnotations,
    /// Passed through undecoded.
    AnnotationDefault,
    /// The bootstrap method specifiers that `invokedynamic` instructions
    /// refer to.
    BootstrapMethods { methods: Vec<BootstrapMethod<'a>> },
    /// An attribute of a name that is not known, with its body as it stands.
    Other { name: &'a str, info: &'a [u8] },
}

/// The mathematical value of an [`Attribute`].
#[allow(inconsistent_fields)]
pub enum AttributeView {
    ConstantValue { value: RawConstantView },
    Code {
        max_stack: u16,
        max_locals: u16,
        code: Seq<u8>,
        exception_table: Seq<Exception>,
        attributes: Seq<RawAttributeView>,
    },
    StackMapTable,
    Exceptions { exception_index_table: Seq<u16> },
    InnerClasses { classes: Seq<InnerClassInfoView> },
    EnclosingMethod { class: RawConstantView, method_index: RawConstantView },
    Synthetic,
    Signature { signature: RawConstantView },
    SourceFile { sourcefile: Seq<char> },
    SourceDebugExtension { debug_extension: Seq<u8> },
    LineNumberTable { table: Seq<LineNumber> },
    LocalVariableTable { table: Seq<LocalVariableView> },
    LocalVariableTypeTable { table: Seq<LocalVariableView> },
    Deprecated,
    RuntimeVisibleAnnotations,
    RuntimeInvisibleAnnotations,
    RuntimeVisibleParameterAnnotations,
    RuntimeInvisibleParameterAnnotations,
    AnnotationDefault,
    BootstrapMethods { methods: Seq<BootstrapMethodView> },
    Other { name: Seq<char>, info: Seq<u8> },
}

impl<'a> View for Attribute<'a> {
    type V = AttributeView;

    open spec fn view(&self) -> AttributeView {
        match self {
            Attribute::ConstantValue { value } => AttributeView::ConstantValue { value: value@ },
            Attribute::Code {
                max_stack,
                max_locals,
                code,
                exception_table,
                attributes,
            } => AttributeView::Code {
                max_stack: *max_stack,
                max_locals: *max_locals,
                code: code@,
                exception_table: exception_table@,
                attributes: attribute_views(attributes@),
            },
            Attribute::StackMapTable => AttributeView::StackMapTable,
            Attribute::Exceptions { exception_index_table } => AttributeView::Exceptions {
                exception_index_table: exception_index_table@,
            },
            Attribute::InnerClasses { classes } => AttributeView::InnerClasses {
                classes: views(classes@),
            },
            Attribute::EnclosingMethod { class, method_index } => AttributeView::EnclosingMethod {
                class: class@,
                method_index: method_index@,
            },
            Attribute::Synthetic => AttributeView::Synthetic,
            Attribute::Signature { signature } => AttributeView::Signature {
                signature: signature@,
            },
            Attribute::SourceFile { sourcefile } => AttributeView::SourceFile {
                sourcefile: sourcefile@,
            },
            Attribute::SourceDebugExtension {
                debug_extension,
            } => AttributeView::SourceDebugExtension { debug_extension: debug_extension@ },
            Attribute::LineNumberTable { table } => AttributeView::LineNumberTable { table: table@ },
            Attribute::LocalVariableTable { table } => AttributeView::LocalVariableTable {
                table: views(table@),
            },
            Attribute::LocalVariableTypeTable { table } => AttributeView::LocalVariableTypeTable {
                table: views(table@),
            },
            Attribute::Deprecated => AttributeView::Deprecated,
            Attribute::RuntimeVisibleAnnotations => AttributeView::RuntimeVisibleAnnotations,
            Attribute::RuntimeInvisibleAnnotations => AttributeView::RuntimeInvisibleAnnotations,
            Attribute::RuntimeVisibleParameterAnnotations => {
                AttributeView::RuntimeVisibleParameterAnnotations
            },
            Attribute::RuntimeInvisibleParameterAnnotations => {
                AttributeView::RuntimeInvisibleParameterAnnotations
            },
            Attribute::AnnotationDefault => AttributeView::AnnotationDefault,
            Attribute::BootstrapMethods { methods } => AttributeView::BootstrapMethods {
                methods: views(methods@),
            },
            Attribute::Other { name, info } => AttributeView::Other { name: name@, info: info@ },
        }
    }
}

/// Row `i` of an exception table that is laid out in `words`.
pub open spec fn exception_at(words: Seq<u16>, i: int) -> Exception {
    Exception {
        start_pc: words[4 * i],
        end_pc: words[4 * i + 1],
        handler_pc: words[4 * i + 2],
        catch_type: words[4 * i + 3],
    }
}

/// Row `i` of a line number table that is laid out in `words`.
pub open spec fn line_number_at(words: Seq<u16>, i: int) -> LineNumber {
    LineNumber { start_pc: words[2 * i] as usize, line_number: words[2 * i + 1] as usize }
}

/// The number of bytes of a Code attribute that belong neither to the
/// bytecode, nor to the exception table, nor to the attributes: two for the
/// stack depth, two for the locals, four for the code length and two for
/// each of the two counts.
pub const CODE_FIXED_SIZE: usize = 12;

/// The number of bytes of one row of an exception table.
pub const EXCEPTION_SIZE: usize = 8;

/// The Code attribute that the body `info` spells out: stack depth, number
/// of locals, the bytecode with its length before it, the exception table and
/// the attributes with their counts before them, and nothing after.
pub open spec fn decode_code(info: Seq<u8>) -> Result<AttributeView, Error> {
    match take_u16(info) {
        Err(e) => Err(e),
        Ok((max_stack, s1)) => match take_u16(s1) {
            Err(e) => Err(e),
            Ok((max_locals, s2)) => match take_u32(s2) {
                Err(e) => Err(e),
                Ok((code_length, s3)) => match take_bytes(s3, code_length as nat) {
                    Err(e) => Err(e),
                    Ok((code, s4)) => match take_u16(s4) {
                        Err(e) => Err(e),
                        Ok((rows, s5)) => match take_u16s(s5, 4 * rows as nat) {
                            Err(e) => Err(e),
                            Ok((words, s6)) => match take_u16(s6) {
                                Err(e) => Err(e),
                                Ok((count, s7)) => match parse_attributes(s7, count as nat) {
                                    Err(e) => Err(e),
                                    Ok((attributes, rest)) => if rest.len() != 0 {
                                        Err(Error::TrailingBytes)
                                    } else {
                                        Ok(
                                            AttributeView::Code {
                                                max_stack,
                                                max_locals,
                                                code,
                                                exception_table: Seq::new(
                                                    rows as nat,
                                                    |i: int| exception_at(words, i),
                                                ),
                                                attributes,
                                            },
                                        )
                                    },
                                },
                            },
                        },
                    },
                },
            },
        },
    }
}

/// The parts of a Code attribute add up to its length: the fixed part, the
/// bytecode, eight bytes for each row of the exception table, and the
/// attributes.
pub proof fn lemma_code_length(info: Seq<u8>)
    ensures
        decode_code(info) matches Ok(
            AttributeView::Code { code, exception_table, attributes, .. },
        ) ==> exception_table.len() * EXCEPTION_SIZE + CODE_FIXED_SIZE + code.len()
            + attributes_size(attributes) == info.len(),
{
    match take_u16(info) {
        Err(_) => {},
        Ok((max_stack, s1)) => match take_u16(s1) {
            Err(_) => {},
            Ok((max_locals, s2)) => match take_u32(s2) {
                Err(_) => {},
                Ok((code_length, s3)) => match take_bytes(s3, code_length as nat) {
                    Err(_) => {},
                    Ok((code, s4)) => match take_u16(s4) {
                        Err(_) => {},
                        Ok((rows, s5)) => match take_u16s(s5, 4 * rows as nat) {
                            Err(_) => {},
                            Ok((words, s6)) => match take_u16(s6) {
                                Err(_) => {},
                                Ok((count, s7)) => {
                                    lemma_attributes_size(s7, count as nat);
                                },
                            },
                        },
                    },
                },
            },
        },
    }
}

/// The decoded form of an attribute of the name `name` with the body
/// `info`. Bodies of the names that are passed through, and of names that
/// are not known, are not looked at; only the body of Code has to be used up.
pub open spec fn decode_named<'a>(
    pool: Seq<RawConstantView>,
    name: Seq<char>,
    info: Seq<u8>,
) -> Result<AttributeView, Error> {
    if name == "ConstantValue"@ {
        match take_entry(pool, info) {
            Err(e) => Err(e),
            Ok((value, _)) => Ok(AttributeView::ConstantValue { value }),
        }
    } else if name == "Code"@ {
        decode_code(info)
    } else if name == "StackMapTable"@ {
        Ok(AttributeView::StackMapTable)
    } else if name == "Exceptions"@ {
        match take_u16(info) {
            Err(e) => Err(e),
            Ok((count, s1)) => match take_u16s(s1, count as nat) {
                Err(e) => Err(e),
                Ok((exception_index_table, _)) => Ok(
                    AttributeView::Exceptions { exception_index_table },
                ),
            },
        }
    } else if name == "InnerClasses"@ {
        match take_u16(info) {
            Err(e) => Err(e),
            Ok((count, s1)) => match parse_records::<InnerClassInfo<'a>>(pool, s1, count as nat) {
                Err(e) => Err(e),
                Ok((classes, _)) => Ok(AttributeView::InnerClasses { classes }),
            },
        }
    } else if name == "EnclosingMethod"@ {
        match take_entry(pool, info) {
            Err(e) => Err(e),
            Ok((class, s1)) => match take_entry(pool, s1) {
                Err(e) => Err(e),
                Ok((method_index, _)) => Ok(AttributeView::EnclosingMethod { class, method_index }),
            },
        }
    } else if name == "Synthetic"@ {
        Ok(AttributeView::Synthetic)
    } else if name == "Signature"@ {
        match take_entry(pool, info) {
            Err(e) => Err(e),
            Ok((signature, _)) => Ok(AttributeView::Signature { signature }),
        }
    } else if name == "SourceFile"@ {
        match take_utf8(pool, info) {
            Err(e) => Err(e),
            Ok((sourcefile, _)) => Ok(AttributeView::SourceFile { sourcefile }),
        }
    } else if name == "SourceDebugExtension"@ {
        Ok(AttributeView::SourceDebugExtension { debug_extension: info })
    } else if name == "LineNumberTable"@ {
        match take_u16(info) {
            Err(e) => Err(e),
            Ok((count, s1)) => match take_u16s(s1, 2 * count as nat) {
                Err(e) => Err(e),
                Ok((words, _)) => Ok(
                    AttributeView::LineNumberTable {
                        table: Seq::new(count as nat, |i: int| line_number_at(words, i)),
                    },
                ),
            },
        }
    } else if name == "LocalVariableTable"@ {
        match take_u16(info) {
            Err(e) => Err(e),
            Ok((count, s1)) => match parse_records::<LocalVariable<'a>>(pool, s1, count as nat) {
                Err(e) => Err(e),
                Ok((table, _)) => Ok(AttributeView::LocalVariableTable { table }),
            },
        }
    } else if name == "LocalVariableTypeTable"@ {
        match take_u16(info) {
            Err(e) => Err(e),
            Ok((count, s1)) => match parse_records::<LocalVariableType<'a>>(
                pool,
                s1,
                count as nat,
            ) {
                Err(e) => Err(e),
                Ok((table, _)) => Ok(AttributeView::LocalVariableTypeTable { table }),
            },
        }
    } else if name == "Deprecated"@ {
        Ok(AttributeView::Deprecated)
    } else if name == "RuntimeVisibleAnnotations"@ {
        Ok(AttributeView::RuntimeVisibleAnnotations)
    } else if name == "RuntimeInvisibleAnnotations"@ {
        Ok(AttributeView::RuntimeInvisibleAnnotations)
    } else if name == "RuntimeVisibleParameterAnnotations"@ {
        Ok(AttributeView::RuntimeVisibleParameterAnnotations)
    } else if name == "RuntimeInvisibleParameterAnnotations"@ {
        Ok(AttributeView::RuntimeInvisibleParameterAnnotations)
    } else if name == "AnnotationDefault"@ {
        Ok(AttributeView::AnnotationDefault)
    } else if name == "BootstrapMethods"@ {
        match take_u16(info) {
            Err(e) => Err(e),
            Ok((count, s1)) => match parse_records::<BootstrapMethod<'a>>(pool, s1, count as nat) {
                Err(e) => Err(e),
                Ok((methods, _)) => Ok(AttributeView::BootstrapMethods { methods }),
            },
        }
    } else {
        Ok(AttributeView::Other { name, info })
    }
}

/// The decoded form of the attribute `raw`: its name is looked up in `pool`
/// and decides how the body is read.
pub open spec fn decode_attribute(pool: Seq<RawConstantView>, raw: RawAttributeView) -> Result<
    AttributeView,
    Error,
> {
    match pool_utf8(pool, raw.attribute_name_index) {
        Err(e) => Err(e),
        Ok(name) => decode_named(pool, name, raw.info),
    }
}

/// Whether decoding an attribute behaved as `expected`.
pub open spec fn attribute_as(expected: Result<AttributeView, Error>, got: Result<Attribute, Error>) -> bool {
    match expected {
        Ok(v) => got matches Ok(a) && a@ == v,
        Err(e) => got matches Err(g) && g == e,
    }
}

/// The rows of an exception table that is laid out in `words`.
fn exceptions_from_words(words: &Vec<u16>, rows: u16) -> (table: Vec<Exception>)
    requires
        words.len() == 4 * rows,
    ensures
        table@ == Seq::new(rows as nat, |i: int| exception_at(words@, i)),
{
    let mut table: Vec<Exception> = Vec::new();
    let mut i: usize = 0;
    while i < rows as usize
        invariant
            i <= rows,
            words.len() == 4 * rows,
            table@ == Seq::new(i as nat, |k: int| exception_at(words@, k)),
        decreases rows - i,
    {
        table.push(
            Exception {
                start_pc: words[4 * i],
                end_pc: words[4 * i + 1],
                handler_pc: words[4 * i + 2],
                catch_type: words[4 * i + 3],
            },
        );
        i = i + 1;
        assert(table@ =~= Seq::new(i as nat, |k: int| exception_at(words@, k)));
    }
    table
}

/// The rows of a line number table that is laid out in `words`.
fn line_numbers_from_words(words: &Vec<u16>, rows: u16) -> (table: Vec<LineNumber>)
    requires
        words.len() == 2 * rows,
    ensures
        table@ == Seq::new(rows as nat, |i: int| line_number_at(words@, i)),
{
    let mut table: Vec<LineNumber> = Vec::new();
    let mut i: usize = 0;
    while i < rows as usize
        invariant
            i <= rows,
            words.len() == 2 * rows,
            table@ == Seq::new(i as nat, |k: int| line_number_at(words@, k)),
        decreases rows - i,
    {
        table.push(
            LineNumber { start_pc: words[2 * i] as usize, line_number: words[2 * i + 1] as usize },
        );
        i = i + 1;
        assert(table@ =~= Seq::new(i as nat, |k: int| line_number_at(words@, k)));
    }
    table
}

/// Decodes the body of a Code attribute.
fn code_from_info<'a>(info: &'a [u8]) -> (res: Result<Attribute<'a>, Error>)
    ensures
        attribute_as(decode_code(info@), res),
{
    let mut cursor = ByteReader::new(info);
    let max_stack = cursor.read_u16()?;
    let max_locals = cursor.read_u16()?;
    let code_length = cursor.read_u32()?;
    let code = cursor.read_slice(code_length as usize)?;
    let rows = cursor.read_u16()?;
    let words = read_u16s(&mut cursor, 4 * rows as usize)?;
    let exception_table = exceptions_from_words(&words, rows);
    let count = cursor.read_u16()?;
    let attributes = read_attributes(&mut cursor, count)?;
    if !cursor.is_exhausted() {
        return Err(Error::TrailingBytes);
    }
    Ok(Attribute::Code { max_stack, max_locals, code, exception_table, attributes })
}

impl<'a> Attribute<'a> {
    /// Decodes the attribute `raw` against the constant pool `const_pool`.
    /// The name of the attribute decides how its body is read.
    pub fn from_raw(raw: &'a RawAttribute, const_pool: &'a [RawConstant]) -> (res: Result<
        Self,
        Error,
    >)
        ensures
            attribute_as(decode_attribute(constant_views(const_pool@), raw@), res),
    {
        let name = get_utf8(const_pool, raw.attribute_name_index)?;
        let info = raw.info.as_slice();
        let mut cursor = ByteReader::new(info);
        if str_eq(name, "ConstantValue") {
            let value = read_entry(const_pool, &mut cursor)?;
            Ok(Attribute::ConstantValue { value })
        } else if str_eq(name, "Code") {
            code_from_info(info)
        } else if str_eq(name, "StackMapTable") {
            Ok(Attribute::StackMapTable)
        } else if str_eq(name, "Exceptions") {
            let count = cursor.read_u16()?;
            let exception_index_table = read_u16s(&mut cursor, count as usize)?;
            Ok(Attribute::Exceptions { exception_index_table })
        } else if str_eq(name, "InnerClasses") {
            let count = cursor.read_u16()?;
            let classes = read_records::<InnerClassInfo<'a>, ByteReader<'a>>(
                const_pool,
                &mut cursor,
                count,
            )?;
            Ok(Attribute::InnerClasses { classes })
        } else if str_eq(name, "EnclosingMethod") {
            let class = read_entry(const_pool, &mut cursor)?;
            let method_index = read_entry(const_pool, &mut cursor)?;
            Ok(Attribute::EnclosingMethod { class, method_index })
        } else if str_eq(name, "Synthetic") {
            Ok(Attribute::Synthetic)
        } else if str_eq(name, "Signature") {
            let signature = read_entry(const_pool, &mut cursor)?;
            Ok(Attribute::Signature { signature })
        } else if str_eq(name, "SourceFile") {
            let sourcefile = read_utf8(const_pool, &mut cursor)?;
            Ok(Attribute::SourceFile { sourcefile })
        } else if str_eq(name, "SourceDebugExtension") {
            Ok(Attribute::SourceDebugExtension { debug_extension: info })
        } else if str_eq(name, "LineNumberTable") {
            let count = cursor.read_u16()?;
            let words = read_u16s(&mut cursor, 2 * count as usize)?;
            Ok(Attribute::LineNumberTable { table: line_numbers_from_words(&words, count) })
        } else if str_eq(name, "LocalVariableTable") {
            let count = cursor.read_u16()?;
            let table = read_records::<LocalVariable<'a>, ByteReader<'a>>(
                const_pool,
                &mut cursor,
                count,
            )?;
            Ok(Attribute::LocalVariableTable { table })
        } else if str_eq(name, "LocalVariableTypeTable") {
            let count = cursor.read_u16()?;
            let table = read_records::<LocalVariableType<'a>, ByteReader<'a>>(
                const_pool,
                &mut cursor,
                count,
            )?;
            Ok(Attribute::LocalVariableTypeTable { table })
        } else if str_eq(name, "Deprecated") {
            Ok(Attribute::Deprecated)
        } else if str_eq(name, "RuntimeVisibleAnnotations") {
            Ok(Attribute::RuntimeVisibleAnnotations)
        } else if str_eq(name, "RuntimeInvisibleAnnotations") {
            Ok(Attribute::RuntimeInvisibleAnnotations)
        } else if str_eq(name, "RuntimeVisibleParameterAnnotations") {
            Ok(Attribute::RuntimeVisibleParameterAnnotations)
        } else if str_eq(name, "RuntimeInvisibleParameterAnnotations") {
            Ok(Attribute::RuntimeInvisibleParameterAnnotations)
        } else if str_eq(name, "AnnotationDefault") {
            Ok(Attribute::AnnotationDefault)
        } else if str_eq(name, "BootstrapMethods") {
            let count = cursor.read_u16()?;
            let methods = read_records::<BootstrapMethod<'a>, ByteReader<'a>>(
                const_pool,
                &mut cursor,
                count,
            )?;
            Ok(Attribute::BootstrapMethods { methods })
        } else {
            Ok(Attribute::Other { name, info })
        }
    }
}

/// The decoded forms of `attrs`, in order, or the error of the first that
/// cannot be decoded.
pub open spec fn decode_attributes(pool: Seq<RawConstantView>, attrs: Seq<RawAttributeView>) -> Result<
    Seq<AttributeView>,
    Error,
>
    decreases attrs.len(),
{
    if attrs.len() == 0 {
        Ok(Seq::empty())
    } else {
        match decode_attribute(pool, attrs[0]) {
            Err(e) => Err(e),
            Ok(a) => match decode_attributes(pool, attrs.drop_first()) {
                Err(e) => Err(e),
                Ok(later) => Ok(seq![a] + later),
            },
        }
    }
}

/// The attributes `acc`, followed by those that `r` found.
pub open spec fn after_decoded(acc: Seq<AttributeView>, r: Result<Seq<AttributeView>, Error>) -> Result<
    Seq<AttributeView>,
    Error,
> {
    match r {
        Ok(later) => Ok(acc + later),
        Err(e) => Err(e),
    }
}

/// The first of `attrs` that decodes to a Code attribute, `None` where none
/// does, or the error of an attribute before it that cannot be decoded.
pub open spec fn find_code(pool: Seq<RawConstantView>, attrs: Seq<RawAttributeView>) -> Result<
    Option<AttributeView>,
    Error,
>
    decreases attrs.len(),
{
    if attrs.len() == 0 {
        Ok(None)
    } else {
        match decode_attribute(pool, attrs[0]) {
            Err(e) => Err(e),
            Ok(a) => if a is Code {
                Ok(Some(a))
            } else {
                find_code(pool, attrs.drop_first())
            },
        }
    }
}

/// Decodes every attribute of `attrs` against the constant pool `pool`.
pub fn decode_all<'a>(attrs: &'a [RawAttribute], pool: &'a [RawConstant]) -> (res: Result<
    Vec<Attribute<'a>>,
    Error,
>)
    ensures
        match decode_attributes(constant_views(pool@), attribute_views(attrs@)) {
            Ok(decoded) => res matches Ok(got) && views(got@) == decoded,
            Err(e) => res matches Err(g) && g == e,
        },
{
    let ghost p = constant_views(pool@);
    let ghost raw = attribute_views(attrs@);
    let mut decoded: Vec<Attribute<'a>> = Vec::new();
    let mut i: usize = 0;
    assert(raw.skip(0) =~= raw);
    assert(views(decoded@) =~= Seq::empty());
    assert(after_decoded(Seq::empty(), decode_attributes(p, raw)) == decode_attributes(p, raw)) by {
        match decode_attributes(p, raw) {
            Ok(found) => {
                assert(Seq::<AttributeView>::empty() + found =~= found);
            },
            Err(_) => {},
        }
    }
    while i < attrs.len()
        invariant
            i <= attrs.len(),
            p == constant_views(pool@),
            raw == attribute_views(attrs@),
            decode_attributes(p, raw) == after_decoded(
                views(decoded@),
                decode_attributes(p, raw.skip(i as int)),
            ),
        decreases attrs.len() - i,
    {
        let ghost before = views(decoded@);
        let ghost unread = raw.skip(i as int);
        assert(unread[0] == attrs@[i as int]@);
        assert(unread.drop_first() =~= raw.skip(i + 1));
        let attribute = Attribute::from_raw(&attrs[i], pool)?;
        let ghost a = attribute@;
        decoded.push(attribute);
        i = i + 1;
        assert(views(decoded@) =~= before.push(a));
        assert(decode_attributes(p, raw) == after_decoded(
            views(decoded@),
            decode_attributes(p, raw.skip(i as int)),
        )) by {
            match decode_attributes(p, raw.skip(i as int)) {
                Ok(later) => {
                    assert(before + (seq![a] + later) =~= before.push(a) + later);
                },
                Err(_) => {},
            }
        }
    }
    assert(views(decoded@) + Seq::<AttributeView>::empty() =~= views(decoded@));
    Ok(decoded)
}

/// The mathematical value of a [`Method`] or a [`Field`].
pub struct MemberView {
    pub access_flags: u16,
    pub name: Seq<char>,
    pub descriptor: Seq<char>,
    pub attributes: Seq<RawAttributeView>,
    pub constant_pool: Seq<RawConstantView>,
}

/// The field or method `raw` with its name and descriptor looked up in
/// `pool`.
pub open spec fn resolve_member(pool: Seq<RawConstantView>, raw: RawMemberView) -> Result<
    MemberView,
    Error,
> {
    match pool_utf8(pool, raw.name_index) {
        Err(e) => Err(e),
        Ok(name) => match pool_utf8(pool, raw.descriptor_index) {
            Err(e) => Err(e),
            Ok(descriptor) => Ok(
                MemberView {
                    access_flags: raw.access_flags,
                    name,
                    descriptor,
                    attributes: raw.attributes,
                    constant_pool: pool,
                },
            ),
        },
    }
}

/// A method with its name and descriptor resolved.
#[derive(Debug, Clone)]
pub struct Method<'a> {
    pub access_flags: MethodAccessFlags,
    pub name: &'a str,
    pub descriptor: &'a str,
    pub attributes: &'a [RawAttribute],
    pub constant_pool: &'a [RawConstant],
}

impl<'a> View for Method<'a> {
    type V = MemberView;

    open spec fn view(&self) -> MemberView {
        MemberView {
            access_flags: self.access_flags@,
            name: self.name@,
            descriptor: self.descriptor@,
            attributes: attribute_views(self.attributes@),
            constant_pool: constant_views(self.constant_pool@),
        }
    }
}

impl<'a> Method<'a> {
    /// The method `raw` with its name and descriptor looked up in
    /// `constant_pool`.
    pub fn from_raw(raw: &'a RawMethod, constant_pool: &'a [RawConstant]) -> (res: Result<
        Self,
        Error,
    >)
        ensures
            match resolve_member(constant_views(constant_pool@), raw@) {
                Ok(m) => res matches Ok(got) && got@ == m,
                Err(e) => res matches Err(g) && g == e,
            },
    {
        let name = get_utf8(constant_pool, raw.name_index)?;
        let descriptor = get_utf8(constant_pool, raw.descriptor_index)?;
        Ok(
            Method {
                access_flags: raw.access_flags,
                name,
                descriptor,
                attributes: raw.attributes.as_slice(),
                constant_pool,
            },
        )
    }

    /// The attributes of this method, decoded.
    pub fn attributes(&self) -> (res: Result<Vec<Attribute<'a>>, Error>)
        ensures
            match decode_attributes(self@.constant_pool, self@.attributes) {
                Ok(decoded) => res matches Ok(got) && views(got@) == decoded,
                Err(e) => res matches Err(g) && g == e,
            },
    {
        decode_all(self.attributes, self.constant_pool)
    }

    /// The Code attribute of this method: the first attribute that decodes
    /// to one. Attributes before it are decoded on the way, and the first
    /// that cannot be decoded ends the search with its error.
    pub fn code(&self) -> (res: Result<Option<Attribute<'a>>, Error>)
        ensures
            match find_code(self@.constant_pool, self@.attributes) {
                Ok(Some(code)) => res matches Ok(Some(got)) && got@ == code,
                Ok(None) => res matches Ok(None),
                Err(e) => res matches Err(g) && g == e,
            },
    {
        let ghost p = self@.constant_pool;
        let ghost raw = self@.attributes;
        let mut i: usize = 0;
        assert(raw.skip(0) =~= raw);
        while i < self.attributes.len()
            invariant
                i <= self.attributes.len(),
                p == self@.constant_pool,
                raw == self@.attributes,
                find_code(p, raw) == find_code(p, raw.skip(i as int)),
            decreases self.attributes.len() - i,
        {
            let ghost unread = raw.skip(i as int);
            assert(unread[0] == self.attributes@[i as int]@);
            assert(unread.drop_first() =~= raw.skip(i + 1));
            let attribute = Attribute::from_raw(&self.attributes[i], self.constant_pool)?;
            match attribute {
                Attribute::Code { .. } => {
                    return Ok(Some(attribute));
                },
                _ => {},
            }
            i = i + 1;
        }
        Ok(None)
    }
}

/// A field with its name and descriptor resolved.
#[derive(Debug, Clone)]
pub struct Field<'a> {
    pub access_flags: FieldAccessFlags,
    pub name: &'a str,
    pub descriptor: &'a str,
    pub attributes: &'a [RawAttribute],
    pub constant_pool: &'a [RawConstant],
}

impl<'a> View for Field<'a> {
    type V = MemberView;

    open spec fn view(&self) -> MemberView {
        MemberView {
            access_flags: self.access_flags@,
            name: self.name@,
            descriptor: self.descriptor@,
            attributes: attribute_views(self.attributes@),
            constant_pool: constant_views(self.constant_pool@),
        }
    }
}

impl<'a> Field<'a> {
    /// The field `raw` with its name and descriptor looked up in
    /// `const_pool`.
    pub fn from_raw(raw: &'a RawField, const_pool: &'a [RawConstant]) -> (res: Result<Self, Error>)
        ensures
            match resolve_member(constant_views(const_pool@), raw@) {
                Ok(f) => res matches Ok(got) && got@ == f,
                Err(e) => res matches Err(g) && g == e,
            },
    {
        let name = get_utf8(const_pool, raw.name_index)?;
        let descriptor = get_utf8(const_pool, raw.descriptor_index)?;
        Ok(
            Field {
                access_flags: raw.access_flags,
                name,
                descriptor,
                attributes: raw.attributes.as_slice(),
                constant_pool: const_pool,
            },
        )
    }

    /// The attributes of this field, decoded.
    pub fn attributes(&self) -> (res: Result<Vec<Attribute<'a>>, Error>)
        ensures
            match decode_attributes(self@.constant_pool, self@.attributes) {
                Ok(decoded) => res matches Ok(got) && views(got@) == decoded,
                Err(e) => res matches Err(g) && g == e,
            },
    {
        decode_all(self.attributes, self.constant_pool)
    }
}

} // verus!
