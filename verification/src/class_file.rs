//! The class file as a whole: its decoder and the checks that every constant
//! pool index in it can be followed.
//!
//! A class file is, in order: the magic number `0xCAFEBABE`; minor and major
//! version; the constant pool, whose declared count is one more than the
//! number of its slots; access flags; the indices of this class and of its
//! superclass; the interfaces; the fields; the methods; the attributes; and
//! nothing after them.

use crate::bytes::be_u16;
use crate::bytes::take_u16;
use crate::bytes::take_u32;
use crate::bytes::ReadNum;
use crate::error::Error;
use crate::flags::ClassAccessFlags;
use crate::flags::FieldAccessFlags;
use crate::flags::MethodAccessFlags;
use crate::raw::after_items;
use crate::raw::attribute_views;
use crate::raw::constant_views;
use crate::raw::field_views;
use crate::raw::get_class_name;
use crate::raw::get_constant;
use crate::raw::get_utf8;
use crate::raw::index_error;
use crate::raw::method_views;
use crate::raw::pool_class_name;
use crate::raw::pool_entry;
use crate::raw::pool_utf8;
use crate::raw::text_as;
use crate::resolved::decode_all;
use crate::resolved::decode_attributes;
use crate::resolved::resolve_member;
use crate::resolved::views;
use crate::resolved::Attribute;
use crate::resolved::Field;
use crate::resolved::MemberView;
use crate::resolved::Method;
use crate::text::str_eq;
use crate::raw::parse_attributes;
use crate::raw::parse_constant;
use crate::raw::parse_members;
use crate::raw::read_attributes;
use crate::raw::take_index;
use crate::raw::valid_index;
use crate::raw::RawAttribute;
use crate::raw::RawAttributeView;
use crate::raw::RawConstant;
use crate::raw::RawConstantView;
use crate::raw::RawField;
use crate::raw::RawMemberView;
use crate::raw::RawMethod;
use vstd::prelude::*;

verus! {

/// The number that every class file begins with.
pub const MAGIC: u32 = 0xCAFE_BABE;

/// A decoded class file.
#[derive(Debug, Default)]
pub struct ClassFile {
    /// (major, minor)
    pub version: (u16, u16),
    /// The constant pool. The entry that index `i` names is at position
    /// `i - 1`.
    pub constant_pool: Vec<RawConstant>,
    pub access_flags: ClassAccessFlags,
    pub this_class: usize,
    /// The index of the superclass, or 0 for the root of the hierarchy.
    pub super_class: usize,
    pub interfaces: Vec<usize>,
    pub fields: Vec<RawField>,
    pub methods: Vec<RawMethod>,
    pub attributes: Vec<RawAttribute>,
}

/// The mathematical value of a [`ClassFile`].
pub struct ClassFileView {
    pub version: (u16, u16),
    pub constant_pool: Seq<RawConstantView>,
    pub access_flags: u16,
    pub this_class: usize,
    pub super_class: usize,
    pub interfaces: Seq<usize>,
    pub fields: Seq<RawMemberView>,
    pub methods: Seq<RawMemberView>,
    pub attributes: Seq<RawAttributeView>,
}

impl View for ClassFile {
    type V = ClassFileView;

    open spec fn view(&self) -> ClassFileView {
        ClassFileView {
            version: self.version,
            constant_pool: constant_views(self.constant_pool@),
            access_flags: self.access_flags@,
            this_class: self.this_class,
            super_class: self.super_class,
            interfaces: self.interfaces@,
            fields: field_views(self.fields@),
            methods: method_views(self.methods@),
            attributes: attribute_views(self.attributes@),
        }
    }
}

/// The slots that one decoded constant fills: itself, and an unused slot
/// after it where it takes up two.
pub open spec fn constant_slots(c: RawConstantView, double: bool) -> Seq<RawConstantView> {
    if double {
        seq![c, RawConstantView::Unused]
    } else {
        seq![c]
    }
}

/// The constant pool of `slots` slots at the start of `s` and the bytes that
/// follow it. A Long or Double fills two slots; one that begins in the last
/// slot still brings its unused second slot.
pub open spec fn parse_pool(s: Seq<u8>, slots: nat) -> Result<
    (Seq<RawConstantView>, Seq<u8>),
    Error,
>
    decreases slots,
{
    if slots == 0 {
        Ok((Seq::empty(), s))
    } else {
        match parse_constant(s) {
            Err(e) => Err(e),
            Ok(((c, double), s1)) => {
                let left = if double && slots >= 2 {
                    (slots - 2) as nat
                } else {
                    (slots - 1) as nat
                };
                match parse_pool(s1, left) {
                    Err(e) => Err(e),
                    Ok((later, rest)) => Ok((constant_slots(c, double) + later, rest)),
                }
            },
        }
    }
}

/// What reading `n` consecutive constant pool indices from `s` yields.
pub open spec fn take_indices(s: Seq<u8>, n: nat) -> Result<(Seq<usize>, Seq<u8>), Error> {
    if s.len() < 2 * n {
        Err(Error::EndOfStream)
    } else {
        Ok((Seq::new(n, |i: int| be_u16(s.skip(2 * i)) as usize), s.skip(2 * n as int)))
    }
}

/// What follows the constant pool, decoded from `s`, for a class whose
/// version and pool are already known.
pub open spec fn parse_class_body(
    version: (u16, u16),
    constant_pool: Seq<RawConstantView>,
    s: Seq<u8>,
) -> Result<ClassFileView, Error> {
    match take_u16(s) {
        Err(e) => Err(e),
        Ok((access_flags, s1)) => match take_index(s1) {
            Err(e) => Err(e),
            Ok((this_class, s2)) => match take_index(s2) {
                Err(e) => Err(e),
                Ok((super_class, s3)) => match take_u16(s3) {
                    Err(e) => Err(e),
                    Ok((n_interfaces, s4)) => match take_indices(s4, n_interfaces as nat) {
                        Err(e) => Err(e),
                        Ok((interfaces, s5)) => match take_u16(s5) {
                            Err(e) => Err(e),
                            Ok((n_fields, s6)) => match parse_members(
                                s6,
                                FieldAccessFlags::ALL,
                                n_fields as nat,
                            ) {
                                Err(e) => Err(e),
                                Ok((fields, s7)) => match take_u16(s7) {
                                    Err(e) => Err(e),
                                    Ok((n_methods, s8)) => match parse_members(
                                        s8,
                                        MethodAccessFlags::ALL,
                                        n_methods as nat,
                                    ) {
                                        Err(e) => Err(e),
                                        Ok((methods, s9)) => match take_u16(s9) {
                                            Err(e) => Err(e),
                                            Ok((n_attributes, s10)) => match parse_attributes(
                                                s10,
                                                n_attributes as nat,
                                            ) {
                                                Err(e) => Err(e),
                                                Ok((attributes, rest)) => if rest.len() != 0 {
                                                    Err(Error::TrailingBytes)
                                                } else {
                                                    Ok(
                                                        ClassFileView {
                                                            version,
                                                            constant_pool,
                                                            access_flags,
                                                            this_class,
                                                            super_class,
                                                            interfaces,
                                                            fields,
                                                            methods,
                                                            attributes,
                                                        },
                                                    )
                                                },
                                            },
                                        },
                                    },
                                },
                            },
                        },
                    },
                },
            },
        },
    }
}

/// The class that the bytes `s` spell out, before its constant pool indices
/// are checked.
pub open spec fn parse_class_structure(s: Seq<u8>) -> Result<ClassFileView, Error> {
    match take_u32(s) {
        Err(e) => Err(e),
        Ok((magic, s1)) => if magic != MAGIC {
            Err(Error::InvalidMagic(magic))
        } else {
            match take_u16(s1) {
                Err(e) => Err(e),
                Ok((minor, s2)) => match take_u16(s2) {
                    Err(e) => Err(e),
                    Ok((major, s3)) => match take_u16(s3) {
                        Err(e) => Err(e),
                        Ok((count, s4)) => if count == 0 {
                            Err(Error::InvalidPoolCount)
                        } else {
                            match parse_pool(s4, (count - 1) as nat) {
                                Err(e) => Err(e),
                                Ok((pool, s5)) => parse_class_body((major, minor), pool, s5),
                            }
                        },
                    },
                },
            }
        },
    }
}

/// The constant pool indices that one constant holds.
pub open spec fn constant_references(c: RawConstantView) -> Seq<usize> {
    match c {
        RawConstantView::Class { name_index } => seq![name_index],
        RawConstantView::FieldRef { class_index, name_and_type_index } => seq![
            class_index,
            name_and_type_index,
        ],
        RawConstantView::MethodRef { class_index, name_and_type_index } => seq![
            class_index,
            name_and_type_index,
        ],
        RawConstantView::InterfaceMethodRef { class_index, name_and_type_index } => seq![
            class_index,
            name_and_type_index,
        ],
        RawConstantView::String { string_index } => seq![string_index],
        RawConstantView::NameAndType { name_index, descriptor_index } => seq![
            name_index,
            descriptor_index,
        ],
        RawConstantView::MethodHandle { reference_kind, reference_index } => seq![reference_index],
        RawConstantView::MethodType { descriptor_index } => seq![descriptor_index],
        RawConstantView::InvokeDynamic { bootstrap_method_attr_index, name_and_type_index } => seq![
            name_and_type_index,
        ],
        _ => Seq::empty(),
    }
}

/// The constant pool indices that the constants of `pool` hold, in order.
pub open spec fn pool_references(pool: Seq<RawConstantView>) -> Seq<usize>
    decreases pool.len(),
{
    if pool.len() == 0 {
        Seq::empty()
    } else {
        pool_references(pool.drop_last()) + constant_references(pool.last())
    }
}

/// The indices of the names of `attrs`, in order.
pub open spec fn attribute_references(attrs: Seq<RawAttributeView>) -> Seq<usize> {
    attrs.map_values(|a: RawAttributeView| a.attribute_name_index)
}

/// The constant pool indices that one field or method holds: its name, its
/// descriptor, and the names of its attributes.
pub open spec fn member_references(m: RawMemberView) -> Seq<usize> {
    seq![m.name_index, m.descriptor_index] + attribute_references(m.attributes)
}

/// The constant pool indices that the fields or methods `ms` hold, in order.
pub open spec fn members_references(ms: Seq<RawMemberView>) -> Seq<usize>
    decreases ms.len(),
{
    if ms.len() == 0 {
        Seq::empty()
    } else {
        members_references(ms.drop_last()) + member_references(ms.last())
    }
}

/// The index of the superclass, unless the class is the root.
pub open spec fn super_reference(super_class: usize) -> Seq<usize> {
    if super_class == 0 {
        Seq::empty()
    } else {
        seq![super_class]
    }
}

/// Every constant pool index that the structure of the class holds: this
/// class, the superclass unless it is zero, the interfaces, the indices
/// inside the constants, and names, descriptors and attribute names of
/// fields, methods and the class itself. Indices inside attribute bodies are
/// not among them: those are checked when the attribute is decoded.
pub open spec fn class_references(c: ClassFileView) -> Seq<usize> {
    seq![c.this_class] + super_reference(c.super_class) + c.interfaces + pool_references(
        c.constant_pool,
    ) + members_references(c.fields) + members_references(c.methods) + attribute_references(
        c.attributes,
    )
}

/// The first of `refs` that cannot be followed in `pool`.
pub open spec fn first_invalid(pool: Seq<RawConstantView>, refs: Seq<usize>) -> Option<usize>
    decreases refs.len(),
{
    if refs.len() == 0 {
        None
    } else if !valid_index(pool, refs[0]) {
        Some(refs[0])
    } else {
        first_invalid(pool, refs.drop_first())
    }
}

/// Whether every constant pool index that the structure of the class holds
/// lies in the pool and names no unused slot.
pub open spec fn class_wf(c: ClassFileView) -> bool {
    forall|k: int|
        0 <= k < class_references(c).len() ==> valid_index(
            c.constant_pool,
            #[trigger] class_references(c)[k],
        )
}

/// No index is invalid exactly when all of them are valid.
pub proof fn lemma_first_invalid(pool: Seq<RawConstantView>, refs: Seq<usize>)
    ensures
        first_invalid(pool, refs) is None <==> forall|k: int|
            0 <= k < refs.len() ==> valid_index(pool, #[trigger] refs[k]),
        first_invalid(pool, refs) matches Some(i) ==> !valid_index(pool, i) && refs.contains(i),
    decreases refs.len(),
{
    if refs.len() > 0 {
        let later = refs.drop_first();
        lemma_first_invalid(pool, later);
        if valid_index(pool, refs[0]) {
            if first_invalid(pool, later) is None {
                assert forall|k: int| 0 <= k < refs.len() implies valid_index(
                    pool,
                    #[trigger] refs[k],
                ) by {
                    if k > 0 {
                        assert(refs[k] == later[k - 1]);
                    }
                }
            } else {
                let i = first_invalid(pool, later)->0;
                let k = choose|k: int| 0 <= k < later.len() && later[k] == i;
                assert(refs[k + 1] == i);
            }
            if forall|k: int| 0 <= k < refs.len() ==> valid_index(pool, #[trigger] refs[k]) {
                assert forall|k: int| 0 <= k < later.len() implies valid_index(
                    pool,
                    #[trigger] later[k],
                ) by {
                    assert(later[k] == refs[k + 1]);
                }
            }
        } else {
            assert(refs[0] == refs[0]);
        }
    }
}

/// The class that the bytes `s` spell out: its structure, decoded, provided
/// that every constant pool index in it can be followed.
pub open spec fn parse_class(s: Seq<u8>) -> Result<ClassFileView, Error> {
    match parse_class_structure(s) {
        Err(e) => Err(e),
        Ok(c) => match first_invalid(c.constant_pool, class_references(c)) {
            Some(i) => Err(index_error(c.constant_pool.len(), i)),
            None => Ok(c),
        },
    }
}

/// The constant pool count that a class file declares: the two bytes after
/// magic number and version. It is one more than the number of the slots.
pub open spec fn declared_pool_count(s: Seq<u8>) -> u16 {
    be_u16(s.skip(8))
}

/// A pool of `slots` slots has that many entries, or one more where a Long
/// or Double begins in the last slot; the one more is its unused second
/// slot.
pub proof fn lemma_pool_len(s: Seq<u8>, slots: nat)
    ensures
        parse_pool(s, slots) matches Ok((pool, _)) ==> {
            &&& slots <= pool.len() <= slots + 1
            &&& pool.len() == slots + 1 ==> pool.last() is Unused
        },
    decreases slots,
{
    if slots > 0 {
        match parse_constant(s) {
            Err(_) => {},
            Ok(((c, double), s1)) => {
                let left = if double && slots >= 2 {
                    (slots - 2) as nat
                } else {
                    (slots - 1) as nat
                };
                lemma_pool_len(s1, left);
                match parse_pool(s1, left) {
                    Err(_) => {},
                    Ok((later, _)) => {
                        let pool = constant_slots(c, double) + later;
                        if later.len() > 0 {
                            assert(pool.last() == later.last());
                        } else if double {
                            assert(pool.last() == RawConstantView::Unused);
                        }
                    },
                }
            },
        }
    }
}

/// Every constant pool index in the structure of a class that was decoded
/// lies between 1 and the declared pool count, the count excluded, and names
/// no unused slot.
pub proof fn lemma_references_in_pool(s: Seq<u8>)
    ensures
        parse_class(s) matches Ok(c) ==> class_wf(c) && forall|k: int|
            0 <= k < class_references(c).len() ==> {
                let index = #[trigger] class_references(c)[k];
                &&& 1 <= index < declared_pool_count(s)
                &&& !(c.constant_pool[index - 1] is Unused)
            },
{
    match parse_class(s) {
        Err(_) => {},
        Ok(c) => {
            lemma_first_invalid(c.constant_pool, class_references(c));
            let s4 = s.skip(4).skip(2).skip(2).skip(2);
            assert(s.skip(4).skip(2).skip(2) =~= s.skip(8));
            let count = declared_pool_count(s);
            lemma_pool_len(s4, (count - 1) as nat);
            assert forall|k: int| 0 <= k < class_references(c).len() implies {
                let index = #[trigger] class_references(c)[k];
                &&& 1 <= index < count
                &&& !(c.constant_pool[index - 1] is Unused)
            } by {
                let index = class_references(c)[k];
                assert(valid_index(c.constant_pool, index));
                if c.constant_pool.len() == count {
                    assert(c.constant_pool.last() is Unused);
                }
            }
        },
    }
}

/// Reads `n` consecutive constant pool indices.
fn read_indices<R: ReadNum>(r: &mut R, n: u16) -> (res: Result<Vec<usize>, Error>)
    ensures
        match take_indices((*old(r)).remaining(), n as nat) {
            Ok((indices, rest)) => res matches Ok(v) && v@ == indices && (*final(r)).remaining()
                == rest,
            Err(e) => res matches Err(g) && g == e,
        },
{
    let ghost all = r.remaining();
    let mut indices: Vec<usize> = Vec::new();
    let mut i: u16 = 0;
    assert(all.skip(0) =~= all);
    while i < n
        invariant
            i <= n,
            all == (*old(r)).remaining(),
            2 * i <= all.len(),
            r.remaining() == all.skip(2 * i),
            indices@ == Seq::new(i as nat, |k: int| be_u16(all.skip(2 * k)) as usize),
        decreases n - i,
    {
        let index = r.read_u16()?;
        indices.push(index as usize);
        assert(all.skip(2 * i).skip(2) =~= all.skip(2 * (i + 1)));
        i = i + 1;
        assert(indices@ =~= Seq::new(i as nat, |k: int| be_u16(all.skip(2 * k)) as usize));
    }
    assert(indices@ =~= Seq::new(n as nat, |k: int| be_u16(all.skip(2 * k)) as usize));
    Ok(indices)
}

/// Reads a constant pool of `slots` slots.
fn read_pool<R: ReadNum>(r: &mut R, slots: u16) -> (res: Result<Vec<RawConstant>, Error>)
    ensures
        match parse_pool((*old(r)).remaining(), slots as nat) {
            Ok((pool, rest)) => {
                &&& res matches Ok(got)
                &&& constant_views(got@) == pool
                &&& (*final(r)).remaining() == rest
            },
            Err(e) => res matches Err(g) && g == e,
        },
{
    let ghost all = r.remaining();
    let mut pool: Vec<RawConstant> = Vec::new();
    let mut left: u16 = slots;
    assert(constant_views(pool@) =~= Seq::empty());
    assert(after_items(Seq::<RawConstantView>::empty(), parse_pool(all, slots as nat))
        == parse_pool(all, slots as nat)) by {
        match parse_pool(all, slots as nat) {
            Ok((items, rest)) => {
                assert(Seq::<RawConstantView>::empty() + items =~= items);
            },
            Err(_) => {},
        }
    }
    while left > 0
        invariant
            all == (*old(r)).remaining(),
            parse_pool(all, slots as nat) == after_items(
                constant_views(pool@),
                parse_pool(r.remaining(), left as nat),
            ),
        decreases left,
    {
        let ghost before = constant_views(pool@);
        let (constant, double) = RawConstant::read_from(r)?;
        let ghost c = constant@;
        pool.push(constant);
        if double {
            pool.push(RawConstant::Unused);
        }
        left = if double && left >= 2 {
            left - 2
        } else {
            left - 1
        };
        assert(constant_views(pool@) =~= before + constant_slots(c, double));
        assert(parse_pool(all, slots as nat) == after_items(
            constant_views(pool@),
            parse_pool(r.remaining(), left as nat),
        )) by {
            match parse_pool(r.remaining(), left as nat) {
                Ok((later, rest)) => {
                    assert(before + (constant_slots(c, double) + later) =~= before
                        + constant_slots(c, double) + later);
                },
                Err(_) => {},
            }
        }
    }
    assert(constant_views(pool@) + Seq::<RawConstantView>::empty() =~= constant_views(pool@));
    Ok(pool)
}

/// Reads `count` fields.
fn read_fields<R: ReadNum>(r: &mut R, count: u16) -> (res: Result<Vec<RawField>, Error>)
    ensures
        match parse_members((*old(r)).remaining(), FieldAccessFlags::ALL, count as nat) {
            Ok((fields, rest)) => {
                &&& res matches Ok(got)
                &&& field_views(got@) == fields
                &&& (*final(r)).remaining() == rest
            },
            Err(e) => res matches Err(g) && g == e,
        },
{
    let ghost all = r.remaining();
    let ghost known = FieldAccessFlags::ALL;
    let mut fields: Vec<RawField> = Vec::new();
    let mut i: u16 = 0;
    assert(field_views(fields@) =~= Seq::empty());
    assert(after_items(Seq::<RawMemberView>::empty(), parse_members(all, known, count as nat))
        == parse_members(all, known, count as nat)) by {
        match parse_members(all, known, count as nat) {
            Ok((items, rest)) => {
                assert(Seq::<RawMemberView>::empty() + items =~= items);
            },
            Err(_) => {},
        }
    }
    while i < count
        invariant
            i <= count,
            known == FieldAccessFlags::ALL,
            all == (*old(r)).remaining(),
            parse_members(all, known, count as nat) == after_items(
                field_views(fields@),
                parse_members(r.remaining(), known, (count - i) as nat),
            ),
        decreases count - i,
    {
        let ghost before = field_views(fields@);
        let field = RawField::read_from(r)?;
        let ghost f = field@;
        fields.push(field);
        i = i + 1;
        assert(field_views(fields@) =~= before.push(f));
        assert(parse_members(all, known, count as nat) == after_items(
            field_views(fields@),
            parse_members(r.remaining(), known, (count - i) as nat),
        )) by {
            match parse_members(r.remaining(), known, (count - i) as nat) {
                Ok((later, rest)) => {
                    assert(before + (seq![f] + later) =~= before.push(f) + later);
                },
                Err(_) => {},
            }
        }
    }
    assert(field_views(fields@) + Seq::<RawMemberView>::empty() =~= field_views(fields@));
    Ok(fields)
}

/// Reads `count` methods.
fn read_methods<R: ReadNum>(r: &mut R, count: u16) -> (res: Result<Vec<RawMethod>, Error>)
    ensures
        match parse_members((*old(r)).remaining(), MethodAccessFlags::ALL, count as nat) {
            Ok((methods, rest)) => {
                &&& res matches Ok(got)
                &&& method_views(got@) == methods
                &&& (*final(r)).remaining() == rest
            },
            Err(e) => res matches Err(g) && g == e,
        },
{
    let ghost all = r.remaining();
    let ghost known = MethodAccessFlags::ALL;
    let mut methods: Vec<RawMethod> = Vec::new();
    let mut i: u16 = 0;
    assert(method_views(methods@) =~= Seq::empty());
    assert(after_items(Seq::<RawMemberView>::empty(), parse_members(all, known, count as nat))
        == parse_members(all, known, count as nat)) by {
        match parse_members(all, known, count as nat) {
            Ok((items, rest)) => {
                assert(Seq::<RawMemberView>::empty() + items =~= items);
            },
            Err(_) => {},
        }
    }
    while i < count
        invariant
            i <= count,
            known == MethodAccessFlags::ALL,
            all == (*old(r)).remaining(),
            parse_members(all, known, count as nat) == after_items(
                method_views(methods@),
                parse_members(r.remaining(), known, (count - i) as nat),
            ),
        decreases count - i,
    {
        let ghost before = method_views(methods@);
        let method = RawMethod::read_from(r)?;
        let ghost m = method@;
        methods.push(method);
        i = i + 1;
        assert(method_views(methods@) =~= before.push(m));
        assert(parse_members(all, known, count as nat) == after_items(
            method_views(methods@),
            parse_members(r.remaining(), known, (count - i) as nat),
        )) by {
            match parse_members(r.remaining(), known, (count - i) as nat) {
                Ok((later, rest)) => {
                    assert(before + (seq![m] + later) =~= before.push(m) + later);
                },
                Err(_) => {},
            }
        }
    }
    assert(method_views(methods@) + Seq::<RawMemberView>::empty() =~= method_views(methods@));
    Ok(methods)
}

/// Appends the indices of the names of `attrs` to `refs`.
fn push_attribute_references(refs: &mut Vec<usize>, attrs: &Vec<RawAttribute>)
    ensures
        final(refs)@ == old(refs)@ + attribute_references(attribute_views(attrs@)),
{
    let ghost names = attribute_references(attribute_views(attrs@));
    let mut i: usize = 0;
    assert(refs@ =~= old(refs)@ + names.take(0));
    while i < attrs.len()
        invariant
            i <= attrs.len(),
            names == attribute_references(attribute_views(attrs@)),
            refs@ == old(refs)@ + names.take(i as int),
        decreases attrs.len() - i,
    {
        refs.push(attrs[i].attribute_name_index);
        assert(names.take(i as int).push(names[i as int]) =~= names.take(i + 1));
        i = i + 1;
    }
    assert(names.take(i as int) =~= names);
}

/// Appends the constant pool indices that one field or method holds to
/// `refs`.
fn push_member_references(
    refs: &mut Vec<usize>,
    name_index: usize,
    descriptor_index: usize,
    attrs: &Vec<RawAttribute>,
)
    ensures
        final(refs)@ == old(refs)@ + (seq![name_index, descriptor_index] + attribute_references(
            attribute_views(attrs@),
        )),
{
    refs.push(name_index);
    refs.push(descriptor_index);
    push_attribute_references(refs, attrs);
    assert(refs@ =~= old(refs)@ + (seq![name_index, descriptor_index] + attribute_references(
        attribute_views(attrs@),
    )));
}

impl RawConstant {
    /// Appends the constant pool indices that this constant holds to `refs`.
    fn push_references(&self, refs: &mut Vec<usize>)
        ensures
            final(refs)@ == old(refs)@ + constant_references(self@),
    {
        match self {
            RawConstant::Class { name_index } => {
                refs.push(*name_index);
            },
            RawConstant::FieldRef { class_index, name_and_type_index } => {
                refs.push(*class_index);
                refs.push(*name_and_type_index);
            },
            RawConstant::MethodRef { class_index, name_and_type_index } => {
                refs.push(*class_index);
                refs.push(*name_and_type_index);
            },
            RawConstant::InterfaceMethodRef { class_index, name_and_type_index } => {
                refs.push(*class_index);
                refs.push(*name_and_type_index);
            },
            RawConstant::String { string_index } => {
                refs.push(*string_index);
            },
            RawConstant::NameAndType { name_index, descriptor_index } => {
                refs.push(*name_index);
                refs.push(*descriptor_index);
            },
            RawConstant::MethodHandle { reference_kind, reference_index } => {
                refs.push(*reference_index);
            },
            RawConstant::MethodType { descriptor_index } => {
                refs.push(*descriptor_index);
            },
            RawConstant::InvokeDynamic { bootstrap_method_attr_index, name_and_type_index } => {
                refs.push(*name_and_type_index);
            },
            _ => {},
        }
        assert(refs@ =~= old(refs)@ + constant_references(self@));
    }
}

impl ClassFile {
    /// Every constant pool index that the structure of this class holds.
    pub fn references(&self) -> (refs: Vec<usize>)
        ensures
            refs@ == class_references(self@),
    {
        let mut refs: Vec<usize> = Vec::new();
        refs.push(self.this_class);
        if self.super_class != 0 {
            refs.push(self.super_class);
        }
        let ghost head = seq![self.this_class] + super_reference(self.super_class);
        assert(refs@ =~= head);
        let mut i: usize = 0;
        assert(refs@ =~= head + self.interfaces@.take(0));
        while i < self.interfaces.len()
            invariant
                i <= self.interfaces.len(),
                refs@ == head + self.interfaces@.take(i as int),
            decreases self.interfaces.len() - i,
        {
            refs.push(self.interfaces[i]);
            assert(self.interfaces@.take(i as int).push(self.interfaces@[i as int])
                =~= self.interfaces@.take(i + 1));
            i = i + 1;
        }
        assert(self.interfaces@.take(i as int) =~= self.interfaces@);
        let ghost head = head + self.interfaces@;

        let ghost pool = constant_views(self.constant_pool@);
        i = 0;
        assert(pool.take(0) =~= Seq::empty());
        assert(refs@ =~= head + pool_references(pool.take(0)));
        while i < self.constant_pool.len()
            invariant
                i <= self.constant_pool.len(),
                pool == constant_views(self.constant_pool@),
                refs@ == head + pool_references(pool.take(i as int)),
            decreases self.constant_pool.len() - i,
        {
            let ghost before = refs@;
            self.constant_pool[i].push_references(&mut refs);
            proof {
                let next = pool.take(i + 1);
                assert(next.drop_last() =~= pool.take(i as int));
                assert(next.last() == self.constant_pool@[i as int]@);
                assert(refs@ =~= head + pool_references(next));
            }
            i = i + 1;
        }
        assert(pool.take(i as int) =~= pool);
        let ghost head = head + pool_references(pool);

        let ghost fields = field_views(self.fields@);
        i = 0;
        assert(fields.take(0) =~= Seq::empty());
        assert(refs@ =~= head + members_references(fields.take(0)));
        while i < self.fields.len()
            invariant
                i <= self.fields.len(),
                fields == field_views(self.fields@),
                refs@ == head + members_references(fields.take(i as int)),
            decreases self.fields.len() - i,
        {
            let field = &self.fields[i];
            push_member_references(
                &mut refs,
                field.name_index,
                field.descriptor_index,
                &field.attributes,
            );
            proof {
                let next = fields.take(i + 1);
                assert(next.drop_last() =~= fields.take(i as int));
                assert(next.last() == self.fields@[i as int]@);
                assert(refs@ =~= head + members_references(next));
            }
            i = i + 1;
        }
        assert(fields.take(i as int) =~= fields);
        let ghost head = head + members_references(fields);

        let ghost methods = method_views(self.methods@);
        i = 0;
        assert(methods.take(0) =~= Seq::empty());
        assert(refs@ =~= head + members_references(methods.take(0)));
        while i < self.methods.len()
            invariant
                i <= self.methods.len(),
                methods == method_views(self.methods@),
                refs@ == head + members_references(methods.take(i as int)),
            decreases self.methods.len() - i,
        {
            let method = &self.methods[i];
            push_member_references(
                &mut refs,
                method.name_index,
                method.descriptor_index,
                &method.attributes,
            );
            proof {
                let next = methods.take(i + 1);
                assert(next.drop_last() =~= methods.take(i as int));
                assert(next.last() == self.methods@[i as int]@);
                assert(refs@ =~= head + members_references(next));
            }
            i = i + 1;
        }
        assert(methods.take(i as int) =~= methods);
        push_attribute_references(&mut refs, &self.attributes);
        refs
    }

    /// The first constant pool index in the structure of this class that
    /// cannot be followed, if there is one.
    pub fn first_invalid_reference(&self) -> (res: Option<usize>)
        ensures
            res == first_invalid(self@.constant_pool, class_references(self@)),
            res is None <==> class_wf(self@),
    {
        let refs = self.references();
        let ghost pool = self@.constant_pool;
        proof {
            lemma_first_invalid(pool, refs@);
        }
        let mut k: usize = 0;
        assert(refs@.skip(0) =~= refs@);
        while k < refs.len()
            invariant
                k <= refs.len(),
                pool == constant_views(self.constant_pool@),
                pool == self@.constant_pool,
                refs@ == class_references(self@),
                first_invalid(pool, refs@) is None <==> class_wf(self@),
                first_invalid(pool, refs@) == first_invalid(pool, refs@.skip(k as int)),
            decreases refs.len() - k,
        {
            let index = refs[k];
            let ghost unread = refs@.skip(k as int);
            assert(unread[0] == index);
            assert(unread.drop_first() =~= refs@.skip(k + 1));
            if index == 0 || index > self.constant_pool.len() {
                return Some(index);
            }
            match &self.constant_pool[index - 1] {
                RawConstant::Unused => {
                    return Some(index);
                },
                _ => {},
            }
            k = k + 1;
        }
        None
    }

    /// Decodes a class file from `r`, which must hold exactly one. The class
    /// that comes back has every constant pool index of its structure in
    /// range.
    pub fn read_from<R: ReadNum>(r: &mut R) -> (res: Result<Self, Error>)
        ensures
            match parse_class((*old(r)).remaining()) {
                Ok(c) => res matches Ok(class) && class@ == c,
                Err(e) => res matches Err(g) && g == e,
            },
            res matches Ok(class) ==> class_wf(class@),
    {
        let magic = r.read_u32()?;
        if magic != MAGIC {
            return Err(Error::InvalidMagic(magic));
        }
        let minor_version = r.read_u16()?;
        let major_version = r.read_u16()?;
        let constant_pool_count = r.read_u16()?;
        if constant_pool_count == 0 {
            return Err(Error::InvalidPoolCount);
        }
        let constant_pool = read_pool(r, constant_pool_count - 1)?;
        let access_flags = ClassAccessFlags::from_bits_retain(r.read_u16()?);
        let this_class = r.read_u16()? as usize;
        let super_class = r.read_u16()? as usize;
        let interface_count = r.read_u16()?;
        let interfaces = read_indices(r, interface_count)?;
        let field_count = r.read_u16()?;
        let fields = read_fields(r, field_count)?;
        let method_count = r.read_u16()?;
        let methods = read_methods(r, method_count)?;
        let attribute_count = r.read_u16()?;
        let attributes = read_attributes(r, attribute_count)?;
        if !r.is_exhausted() {
            return Err(Error::TrailingBytes);
        }
        let class = ClassFile {
            version: (major_version, minor_version),
            constant_pool,
            access_flags,
            this_class,
            super_class,
            interfaces,
            fields,
            methods,
            attributes,
        };
        match class.first_invalid_reference() {
            Some(index) => if index > class.constant_pool.len() {
                Err(Error::DanglingIndex(index))
            } else {
                Err(Error::InvalidIndex(index))
            },
            None => Ok(class),
        }
    }
}

/// The name of the superclass of `c`, or `None` for the root of the
/// hierarchy.
pub open spec fn super_class_name(c: ClassFileView) -> Result<Option<Seq<char>>, Error> {
    if c.super_class == 0 {
        Ok(None)
    } else {
        match pool_class_name(c.constant_pool, c.super_class) {
            Ok(name) => Ok(Some(name)),
            Err(e) => Err(e),
        }
    }
}

/// The entries of `pool` that `indices` name, in order, or the error of the
/// first index that cannot be followed.
pub open spec fn follow_all(pool: Seq<RawConstantView>, indices: Seq<usize>) -> Result<
    Seq<RawConstantView>,
    Error,
>
    decreases indices.len(),
{
    if indices.len() == 0 {
        Ok(Seq::empty())
    } else {
        match pool_entry(pool, indices[0]) {
            Err(e) => Err(e),
            Ok(c) => match follow_all(pool, indices.drop_first()) {
                Err(e) => Err(e),
                Ok(later) => Ok(seq![c] + later),
            },
        }
    }
}

/// The fields or methods `ms` with their names and descriptors looked up in
/// `pool`, in order, or the error of the first that cannot be resolved.
pub open spec fn resolve_members(pool: Seq<RawConstantView>, ms: Seq<RawMemberView>) -> Result<
    Seq<MemberView>,
    Error,
>
    decreases ms.len(),
{
    if ms.len() == 0 {
        Ok(Seq::empty())
    } else {
        match resolve_member(pool, ms[0]) {
            Err(e) => Err(e),
            Ok(m) => match resolve_members(pool, ms.drop_first()) {
                Err(e) => Err(e),
                Ok(later) => Ok(seq![m] + later),
            },
        }
    }
}

/// The items `acc`, followed by those that `r` found.
pub open spec fn after_found<T>(acc: Seq<T>, r: Result<Seq<T>, Error>) -> Result<Seq<T>, Error> {
    match r {
        Ok(later) => Ok(acc + later),
        Err(e) => Err(e),
    }
}

/// Whether the field or method `m` has the name `name` and the descriptor
/// `descriptor`. One whose name or descriptor cannot be looked up has
/// neither.
pub open spec fn member_named(
    pool: Seq<RawConstantView>,
    m: RawMemberView,
    name: Seq<char>,
    descriptor: Seq<char>,
) -> bool {
    &&& pool_utf8(pool, m.name_index) == Ok::<Seq<char>, Error>(name)
    &&& pool_utf8(pool, m.descriptor_index) == Ok::<Seq<char>, Error>(descriptor)
}

/// Whether `i` is the position of the first of `ms` that has the name `name`
/// and the descriptor `descriptor`.
pub open spec fn is_first_named(
    pool: Seq<RawConstantView>,
    ms: Seq<RawMemberView>,
    name: Seq<char>,
    descriptor: Seq<char>,
    i: int,
) -> bool {
    &&& 0 <= i < ms.len()
    &&& member_named(pool, ms[i], name, descriptor)
    &&& forall|j: int| 0 <= j < i ==> !member_named(pool, #[trigger] ms[j], name, descriptor)
}

/// The first of `ms` that has the name `name` and the descriptor
/// `descriptor`, resolved.
pub open spec fn find_member(
    pool: Seq<RawConstantView>,
    ms: Seq<RawMemberView>,
    name: Seq<char>,
    descriptor: Seq<char>,
) -> Option<MemberView> {
    if exists|i: int| is_first_named(pool, ms, name, descriptor, i) {
        let i = choose|i: int| is_first_named(pool, ms, name, descriptor, i);
        Some(
            MemberView {
                access_flags: ms[i].access_flags,
                name,
                descriptor,
                attributes: ms[i].attributes,
                constant_pool: pool,
            },
        )
    } else {
        None
    }
}

/// The flags that an entry point must have.
pub const ENTRY_POINT_FLAGS: u16 = 0x0009;

/// The method at which a program starts: the first method named `main` with
/// the descriptor `([Ljava/lang/String;)V`, provided that it is public and
/// static.
pub open spec fn entry_point(c: ClassFileView) -> Option<MemberView> {
    match find_member(c.constant_pool, c.methods, "main"@, "([Ljava/lang/String;)V"@) {
        Some(m) => if m.access_flags & ENTRY_POINT_FLAGS == ENTRY_POINT_FLAGS {
            Some(m)
        } else {
            None
        },
        None => None,
    }
}

/// The class initializer: the first method named `<clinit>` with the
/// descriptor `()V`, provided that it is static.
pub open spec fn init_method(c: ClassFileView) -> Option<MemberView> {
    match find_member(c.constant_pool, c.methods, "<clinit>"@, "()V"@) {
        Some(m) => if m.access_flags & MethodAccessFlags::STATIC == MethodAccessFlags::STATIC {
            Some(m)
        } else {
            None
        },
        None => None,
    }
}

/// Whether a search for a method behaved as `expected`.
pub open spec fn found_as(expected: Option<MemberView>, got: Option<Method>) -> bool {
    match expected {
        Some(m) => got matches Some(f) && f@ == m,
        None => got is None,
    }
}

impl ClassFile {
    /// The fully qualified name of this class.
    pub fn this_class(&self) -> (res: Result<&str, Error>)
        ensures
            text_as(pool_class_name(self@.constant_pool, self@.this_class), res),
    {
        get_class_name(self.constant_pool.as_slice(), self.this_class)
    }

    /// The fully qualified name of the superclass, or `None` for the root of
    /// the hierarchy.
    pub fn super_class(&self) -> (res: Result<Option<&str>, Error>)
        ensures
            match super_class_name(self@) {
                Ok(Some(name)) => res matches Ok(Some(got)) && got@ == name,
                Ok(None) => res matches Ok(None),
                Err(e) => res matches Err(g) && g == e,
            },
    {
        if self.super_class == 0 {
            return Ok(None);
        }
        let name = get_class_name(self.constant_pool.as_slice(), self.super_class)?;
        Ok(Some(name))
    }

    /// The constant pool entries of the interfaces of this class.
    pub fn interfaces(&self) -> (res: Result<Vec<&RawConstant>, Error>)
        ensures
            match follow_all(self@.constant_pool, self@.interfaces) {
                Ok(entries) => res matches Ok(got) && views(got@) == entries,
                Err(e) => res matches Err(g) && g == e,
            },
    {
        let ghost p = self@.constant_pool;
        let ghost all = self.interfaces@;
        let mut entries: Vec<&RawConstant> = Vec::new();
        let mut i: usize = 0;
        assert(all.skip(0) =~= all);
        assert(views(entries@) =~= Seq::empty());
        assert(after_found(Seq::empty(), follow_all(p, all)) == follow_all(p, all)) by {
            match follow_all(p, all) {
                Ok(found) => {
                    assert(Seq::<RawConstantView>::empty() + found =~= found);
                },
                Err(_) => {},
            }
        }
        while i < self.interfaces.len()
            invariant
                i <= self.interfaces.len(),
                p == self@.constant_pool,
                all == self.interfaces@,
                follow_all(p, all) == after_found(views(entries@), follow_all(p, all.skip(i as int))),
            decreases self.interfaces.len() - i,
        {
            let ghost before = views(entries@);
            let ghost unread = all.skip(i as int);
            assert(unread[0] == all[i as int]);
            assert(unread.drop_first() =~= all.skip(i + 1));
            let entry = get_constant(self.constant_pool.as_slice(), self.interfaces[i])?;
            let ghost c = entry@;
            entries.push(entry);
            i = i + 1;
            assert(views(entries@) =~= before.push(c));
            assert(follow_all(p, all) == after_found(
                views(entries@),
                follow_all(p, all.skip(i as int)),
            )) by {
                match follow_all(p, all.skip(i as int)) {
                    Ok(later) => {
                        assert(before + (seq![c] + later) =~= before.push(c) + later);
                    },
                    Err(_) => {},
                }
            }
        }
        assert(views(entries@) + Seq::<RawConstantView>::empty() =~= views(entries@));
        Ok(entries)
    }

    /// The methods of this class, with names and descriptors resolved.
    pub fn methods(&self) -> (res: Result<Vec<Method>, Error>)
        ensures
            match resolve_members(self@.constant_pool, self@.methods) {
                Ok(methods) => res matches Ok(got) && views(got@) == methods,
                Err(e) => res matches Err(g) && g == e,
            },
    {
        let ghost p = self@.constant_pool;
        let ghost all = self@.methods;
        let mut methods: Vec<Method> = Vec::new();
        let mut i: usize = 0;
        assert(all.skip(0) =~= all);
        assert(views(methods@) =~= Seq::empty());
        assert(after_found(Seq::empty(), resolve_members(p, all)) == resolve_members(p, all)) by {
            match resolve_members(p, all) {
                Ok(found) => {
                    assert(Seq::<MemberView>::empty() + found =~= found);
                },
                Err(_) => {},
            }
        }
        while i < self.methods.len()
            invariant
                i <= self.methods.len(),
                p == self@.constant_pool,
                all == self@.methods,
                resolve_members(p, all) == after_found(
                    views(methods@),
                    resolve_members(p, all.skip(i as int)),
                ),
            decreases self.methods.len() - i,
        {
            let ghost before = views(methods@);
            let ghost unread = all.skip(i as int);
            assert(unread[0] == self.methods@[i as int]@);
            assert(unread.drop_first() =~= all.skip(i + 1));
            let method = Method::from_raw(&self.methods[i], self.constant_pool.as_slice())?;
            let ghost m = method@;
            methods.push(method);
            i = i + 1;
            assert(views(methods@) =~= before.push(m));
            assert(resolve_members(p, all) == after_found(
                views(methods@),
                resolve_members(p, all.skip(i as int)),
            )) by {
                match resolve_members(p, all.skip(i as int)) {
                    Ok(later) => {
                        assert(before + (seq![m] + later) =~= before.push(m) + later);
                    },
                    Err(_) => {},
                }
            }
        }
        assert(views(methods@) + Seq::<MemberView>::empty() =~= views(methods@));
        Ok(methods)
    }

    /// The fields of this class, with names and descriptors resolved.
    pub fn fields(&self) -> (res: Result<Vec<Field>, Error>)
        ensures
            match resolve_members(self@.constant_pool, self@.fields) {
                Ok(fields) => res matches Ok(got) && views(got@) == fields,
                Err(e) => res matches Err(g) && g == e,
            },
    {
        let ghost p = self@.constant_pool;
        let ghost all = self@.fields;
        let mut fields: Vec<Field> = Vec::new();
        let mut i: usize = 0;
        assert(all.skip(0) =~= all);
        assert(views(fields@) =~= Seq::empty());
        assert(after_found(Seq::empty(), resolve_members(p, all)) == resolve_members(p, all)) by {
            match resolve_members(p, all) {
                Ok(found) => {
                    assert(Seq::<MemberView>::empty() + found =~= found);
                },
                Err(_) => {},
            }
        }
        while i < self.fields.len()
            invariant
                i <= self.fields.len(),
                p == self@.constant_pool,
                all == self@.fields,
                resolve_members(p, all) == after_found(
                    views(fields@),
                    resolve_members(p, all.skip(i as int)),
                ),
            decreases self.fields.len() - i,
        {
            let ghost before = views(fields@);
            let ghost unread = all.skip(i as int);
            assert(unread[0] == self.fields@[i as int]@);
            assert(unread.drop_first() =~= all.skip(i + 1));
            let field = Field::from_raw(&self.fields[i], self.constant_pool.as_slice())?;
            let ghost f = field@;
            fields.push(field);
            i = i + 1;
            assert(views(fields@) =~= before.push(f));
            assert(resolve_members(p, all) == after_found(
                views(fields@),
                resolve_members(p, all.skip(i as int)),
            )) by {
                match resolve_members(p, all.skip(i as int)) {
                    Ok(later) => {
                        assert(before + (seq![f] + later) =~= before.push(f) + later);
                    },
                    Err(_) => {},
                }
            }
        }
        assert(views(fields@) + Seq::<MemberView>::empty() =~= views(fields@));
        Ok(fields)
    }

    /// The attributes of this class, decoded.
    pub fn attributes(&self) -> (res: Result<Vec<Attribute>, Error>)
        ensures
            match decode_attributes(self@.constant_pool, self@.attributes) {
                Ok(decoded) => res matches Ok(got) && views(got@) == decoded,
                Err(e) => res matches Err(g) && g == e,
            },
    {
        decode_all(self.attributes.as_slice(), self.constant_pool.as_slice())
    }

    /// The position of the first method of this class that has the name
    /// `name` and the descriptor `descriptor`.
    pub fn find_method_index(&self, name: &str, descriptor: &str) -> (res: Option<usize>)
        ensures
            match res {
                Some(i) => is_first_named(
                    self@.constant_pool,
                    self@.methods,
                    name@,
                    descriptor@,
                    i as int,
                ),
                None => forall|i: int|
                    !is_first_named(self@.constant_pool, self@.methods, name@, descriptor@, i),
            },
    {
        let ghost p = self@.constant_pool;
        let ghost all = self@.methods;
        let pool = self.constant_pool.as_slice();
        let mut i: usize = 0;
        while i < self.methods.len()
            invariant
                i <= self.methods.len(),
                p == self@.constant_pool,
                all == self@.methods,
                pool@ == self.constant_pool@,
                forall|j: int| 0 <= j < i ==> !member_named(p, #[trigger] all[j], name@, descriptor@),
            decreases self.methods.len() - i,
        {
            let method = &self.methods[i];
            assert(all[i as int] == method@);
            let name_matches = match get_utf8(pool, method.name_index) {
                Ok(text) => str_eq(text, name),
                Err(_) => false,
            };
            let descriptor_matches = match get_utf8(pool, method.descriptor_index) {
                Ok(text) => str_eq(text, descriptor),
                Err(_) => false,
            };
            if name_matches && descriptor_matches {
                return Some(i);
            }
            i = i + 1;
        }
        None
    }

    /// The first method of this class that has the name `name` and the
    /// descriptor `descriptor`.
    pub fn find_method(&self, name: &str, descriptor: &str) -> (res: Option<Method>)
        ensures
            found_as(find_member(self@.constant_pool, self@.methods, name@, descriptor@), res),
    {
        let ghost p = self@.constant_pool;
        let ghost all = self@.methods;
        match self.find_method_index(name, descriptor) {
            None => None,
            Some(i) => {
                proof {
                    let k = choose|k: int| is_first_named(p, all, name@, descriptor@, k);
                    assert(k == i) by {
                        if k < i {
                            assert(!member_named(p, all[k], name@, descriptor@));
                        } else if i < k {
                            assert(!member_named(p, all[i as int], name@, descriptor@));
                        }
                    }
                }
                match Method::from_raw(&self.methods[i], self.constant_pool.as_slice()) {
                    Ok(method) => Some(method),
                    Err(_) => None,
                }
            },
        }
    }

    /// The method at which a program starts: the first method named `main`
    /// with the descriptor `([Ljava/lang/String;)V`, provided that it is
    /// public and static.
    pub fn find_entry_point(&self) -> (res: Option<Method>)
        ensures
            found_as(entry_point(self@), res),
    {
        let method = self.find_method("main", "([Ljava/lang/String;)V")?;
        if method.access_flags.contains(ENTRY_POINT_FLAGS) {
            Some(method)
        } else {
            None
        }
    }

    /// The class initializer: the first method named `<clinit>` with the
    /// descriptor `()V`, provided that it is static.
    pub fn find_init_method(&self) -> (res: Option<Method>)
        ensures
            found_as(init_method(self@), res),
    {
        let method = self.find_method("<clinit>", "()V")?;
        if method.access_flags.contains(MethodAccessFlags::STATIC) {
            Some(method)
        } else {
            None
        }
    }
}

} // verus!
