//! Field and method descriptors: the textual signatures of members.
//!
//! ```text
//! FieldType        := B | C | D | F | I | J | S | Z | L<Name>; | [<FieldType>
//! ReturnDescriptor := V | FieldType
//! MethodDescriptor := ( FieldType* ) ReturnDescriptor
//! ```
//!
//! Parsing works on characters, one at a time, and recurses on `[`. Writing a
//! descriptor back is the exact inverse of parsing it.

use crate::error::Error;
use crate::text::push_char;
use std::str::Chars;
use vstd::prelude::*;
use vstd::std_specs::iter::IteratorSpec;
use vstd::string::StringExecFns;

verus! {

broadcast use vstd::string::next_postcondition;

/// The type of a field, a parameter or a returned value.
#[derive(Debug, PartialEq, Eq)]
pub enum FieldType {
    /// `B`
    Byte,
    /// `C`
    Char,
    /// `D`
    Double,
    /// `F`
    Float,
    /// `I`
    Int,
    /// `J`
    Long,
    /// `L<ClassName>;`
    ObjReference(String),
    /// `S`
    Short,
    /// `Z`
    Boolean,
    /// `[` followed by the element type
    ArrReference(Box<FieldType>),
}

/// The mathematical value of a [`FieldType`].
pub enum FieldTypeView {
    Byte,
    Char,
    Double,
    Float,
    Int,
    Long,
    ObjReference(Seq<char>),
    Short,
    Boolean,
    ArrReference(Box<FieldTypeView>),
}

impl View for FieldType {
    type V = FieldTypeView;

    open spec fn view(&self) -> FieldTypeView
        decreases self,
    {
        match self {
            FieldType::Byte => FieldTypeView::Byte,
            FieldType::Char => FieldTypeView::Char,
            FieldType::Double => FieldTypeView::Double,
            FieldType::Float => FieldTypeView::Float,
            FieldType::Int => FieldTypeView::Int,
            FieldType::Long => FieldTypeView::Long,
            FieldType::ObjReference(name) => FieldTypeView::ObjReference(name@),
            FieldType::Short => FieldTypeView::Short,
            FieldType::Boolean => FieldTypeView::Boolean,
            FieldType::ArrReference(inner) => FieldTypeView::ArrReference(
                Box::new((**inner).view()),
            ),
        }
    }
}

impl Clone for FieldType {
    fn clone(&self) -> (res: Self)
        ensures
            res@ == self@,
        decreases self,
    {
        match self {
            FieldType::Byte => FieldType::Byte,
            FieldType::Char => FieldType::Char,
            FieldType::Double => FieldType::Double,
            FieldType::Float => FieldType::Float,
            FieldType::Int => FieldType::Int,
            FieldType::Long => FieldType::Long,
            FieldType::ObjReference(name) => FieldType::ObjReference(name.clone()),
            FieldType::Short => FieldType::Short,
            FieldType::Boolean => FieldType::Boolean,
            FieldType::ArrReference(inner) => {
                let elem: FieldType = (**inner).clone();
                FieldType::ArrReference(Box::new(elem))
            },
        }
    }
}

/// What a method returns: a value of some type, or nothing.
#[derive(Clone, Debug, PartialEq, Eq)]
pub enum ReturnDescriptor {
    FieldType(FieldType),
    /// `V`
    Void,
}

/// The mathematical value of a [`ReturnDescriptor`].
pub enum ReturnDescriptorView {
    FieldType(FieldTypeView),
    Void,
}

impl View for ReturnDescriptor {
    type V = ReturnDescriptorView;

    open spec fn view(&self) -> ReturnDescriptorView {
        match self {
            ReturnDescriptor::FieldType(t) => ReturnDescriptorView::FieldType(t@),
            ReturnDescriptor::Void => ReturnDescriptorView::Void,
        }
    }
}

/// The parameter types and the return type of a method.
#[derive(Clone, Debug, PartialEq, Eq)]
pub struct MethodDescriptor {
    pub params: Vec<FieldType>,
    pub return_value: ReturnDescriptor,
}

/// The mathematical value of a [`MethodDescriptor`].
pub struct MethodDescriptorView {
    pub params: Seq<FieldTypeView>,
    pub return_value: ReturnDescriptorView,
}

/// The mathematical values of the field types in `ts`, in order.
pub open spec fn field_type_views(ts: Seq<FieldType>) -> Seq<FieldTypeView> {
    ts.map_values(|t: FieldType| t@)
}

impl View for MethodDescriptor {
    type V = MethodDescriptorView;

    open spec fn view(&self) -> MethodDescriptorView {
        MethodDescriptorView {
            params: field_type_views(self.params@),
            return_value: self.return_value@,
        }
    }
}

/// Whether `i` is the position of the first `;` in `s`.
pub open spec fn is_name_end(s: Seq<char>, i: int) -> bool {
    &&& 0 <= i < s.len()
    &&& s[i] == ';'
    &&& forall|j: int| 0 <= j < i ==> s[j] != ';'
}

/// The position of the first `;` in `s`, where there is one.
pub open spec fn name_end(s: Seq<char>) -> int {
    choose|i: int| is_name_end(s, i)
}

/// The field type that begins with the character `id` and continues in
/// `rest`, together with the characters that follow it.
pub open spec fn parse_field_type(id: char, rest: Seq<char>) -> Result<
    (FieldTypeView, Seq<char>),
    Error,
>
    decreases rest.len(),
{
    if id == 'B' {
        Ok((FieldTypeView::Byte, rest))
    } else if id == 'C' {
        Ok((FieldTypeView::Char, rest))
    } else if id == 'D' {
        Ok((FieldTypeView::Double, rest))
    } else if id == 'F' {
        Ok((FieldTypeView::Float, rest))
    } else if id == 'I' {
        Ok((FieldTypeView::Int, rest))
    } else if id == 'J' {
        Ok((FieldTypeView::Long, rest))
    } else if id == 'S' {
        Ok((FieldTypeView::Short, rest))
    } else if id == 'Z' {
        Ok((FieldTypeView::Boolean, rest))
    } else if id == 'L' {
        if exists|i: int| is_name_end(rest, i) {
            let end = name_end(rest);
            Ok((FieldTypeView::ObjReference(rest.take(end)), rest.skip(end + 1)))
        } else {
            Err(Error::InvalidDescriptor)
        }
    } else if id == '[' {
        if rest.len() == 0 {
            Err(Error::InvalidDescriptor)
        } else {
            match parse_field_type(rest[0], rest.skip(1)) {
                Ok((elem, after)) => Ok((FieldTypeView::ArrReference(Box::new(elem)), after)),
                Err(e) => Err(e),
            }
        }
    } else {
        Err(Error::InvalidDescriptor)
    }
}

/// The return descriptor that begins with `id` and continues in `rest`.
pub open spec fn parse_return(id: char, rest: Seq<char>) -> Result<
    (ReturnDescriptorView, Seq<char>),
    Error,
> {
    if id == 'V' {
        Ok((ReturnDescriptorView::Void, rest))
    } else {
        match parse_field_type(id, rest) {
            Ok((t, after)) => Ok((ReturnDescriptorView::FieldType(t), after)),
            Err(e) => Err(e),
        }
    }
}

/// The parameter types at the start of `s`, up to and including the closing
/// `)`, together with the characters that follow it. (A field type never
/// leaves more characters than it was given, so the test on the lengths
/// always holds; it is there to make plain that the definition ends.)
pub open spec fn parse_params(s: Seq<char>) -> Result<(Seq<FieldTypeView>, Seq<char>), Error>
    decreases s.len(),
{
    if s.len() == 0 {
        Err(Error::InvalidDescriptor)
    } else if s[0] == ')' {
        Ok((Seq::empty(), s.skip(1)))
    } else {
        match parse_field_type(s[0], s.skip(1)) {
            Err(e) => Err(e),
            Ok((t, after)) => if after.len() < s.len() {
                match parse_params(after) {
                    Err(e) => Err(e),
                    Ok((ts, last)) => Ok((seq![t] + ts, last)),
                }
            } else {
                Err(Error::InvalidDescriptor)
            },
        }
    }
}

/// The method descriptor at the start of `s`, together with the characters
/// that follow it.
pub open spec fn parse_method_prefix(s: Seq<char>) -> Result<
    (MethodDescriptorView, Seq<char>),
    Error,
> {
    if s.len() == 0 || s[0] != '(' {
        Err(Error::InvalidDescriptor)
    } else {
        match parse_params(s.skip(1)) {
            Err(e) => Err(e),
            Ok((params, after)) => if after.len() == 0 {
                Err(Error::InvalidDescriptor)
            } else {
                match parse_return(after[0], after.skip(1)) {
                    Err(e) => Err(e),
                    Ok((return_value, last)) => Ok(
                        (MethodDescriptorView { params, return_value }, last),
                    ),
                }
            },
        }
    }
}

/// The method descriptor that `s` begins with. Characters after the return
/// descriptor are not looked at.
pub open spec fn parse_method(s: Seq<char>) -> Result<MethodDescriptorView, Error> {
    match parse_method_prefix(s) {
        Ok((d, _)) => Ok(d),
        Err(e) => Err(e),
    }
}

/// The descriptor text of a field type.
pub open spec fn field_type_text(t: FieldTypeView) -> Seq<char>
    decreases t,
{
    match t {
        FieldTypeView::Byte => seq!['B'],
        FieldTypeView::Char => seq!['C'],
        FieldTypeView::Double => seq!['D'],
        FieldTypeView::Float => seq!['F'],
        FieldTypeView::Int => seq!['I'],
        FieldTypeView::Long => seq!['J'],
        FieldTypeView::ObjReference(name) => seq!['L'] + name + seq![';'],
        FieldTypeView::Short => seq!['S'],
        FieldTypeView::Boolean => seq!['Z'],
        FieldTypeView::ArrReference(elem) => seq!['['] + field_type_text(*elem),
    }
}

/// The descriptor text of a return descriptor.
pub open spec fn return_text(r: ReturnDescriptorView) -> Seq<char> {
    match r {
        ReturnDescriptorView::FieldType(t) => field_type_text(t),
        ReturnDescriptorView::Void => seq!['V'],
    }
}

/// The descriptor texts of `ts`, one after the other.
pub open spec fn params_text(ts: Seq<FieldTypeView>) -> Seq<char>
    decreases ts.len(),
{
    if ts.len() == 0 {
        Seq::empty()
    } else {
        field_type_text(ts[0]) + params_text(ts.drop_first())
    }
}

/// The descriptor text of a method descriptor.
pub open spec fn method_text(d: MethodDescriptorView) -> Seq<char> {
    seq!['('] + params_text(d.params) + seq![')'] + return_text(d.return_value)
}

/// Whether a parse that was expected to behave as `expected` did so.
pub open spec fn parsed_as<T: View>(
    expected: Result<(T::V, Seq<char>), Error>,
    got: Result<T, Error>,
    rest: Seq<char>,
) -> bool {
    match expected {
        Ok((v, r)) => got matches Ok(t) && t@ == v && rest == r,
        Err(e) => got matches Err(g) && g == e,
    }
}

/// The parameter types `acc`, followed by those that `r` found.
pub open spec fn after_params(
    acc: Seq<FieldTypeView>,
    r: Result<(Seq<FieldTypeView>, Seq<char>), Error>,
) -> Result<(Seq<FieldTypeView>, Seq<char>), Error> {
    match r {
        Ok((ts, rest)) => Ok((acc + ts, rest)),
        Err(e) => Err(e),
    }
}

/// Whether no class name inside `t` holds a `;`, so that `t` has a
/// descriptor text that reads back as `t`.
pub open spec fn field_type_wf(t: FieldTypeView) -> bool
    decreases t,
{
    match t {
        FieldTypeView::ObjReference(name) => !name.contains(';'),
        FieldTypeView::ArrReference(elem) => field_type_wf(*elem),
        _ => true,
    }
}

/// Whether every type in `d` satisfies [`field_type_wf`].
pub open spec fn method_wf(d: MethodDescriptorView) -> bool {
    &&& forall|i: int| 0 <= i < d.params.len() ==> field_type_wf(#[trigger] d.params[i])
    &&& d.return_value matches ReturnDescriptorView::FieldType(t) ==> field_type_wf(t)
}

/// Parsing inverts writing, for field types: a field type that was parsed is
/// well formed, and its text followed by what was left over is what was
/// parsed.
pub proof fn lemma_field_type_parse_text(id: char, rest: Seq<char>)
    ensures
        parse_field_type(id, rest) matches Ok((t, after)) ==> {
            &&& field_type_wf(t)
            &&& field_type_text(t) + after == seq![id] + rest
            &&& after.len() <= rest.len()
        },
    decreases rest.len(),
{
    if id == 'L' {
        if exists|i: int| is_name_end(rest, i) {
            let end = name_end(rest);
            assert(is_name_end(rest, end));
            let name = rest.take(end);
            assert(!name.contains(';')) by {
                if name.contains(';') {
                    let j = choose|j: int| 0 <= j < name.len() && name[j] == ';';
                    assert(rest[j] == ';');
                }
            }
            assert(seq!['L'] + name + seq![';'] + rest.skip(end + 1) =~= seq![id] + rest);
        }
    } else if id == '[' {
        if rest.len() > 0 {
            lemma_field_type_parse_text(rest[0], rest.skip(1));
            match parse_field_type(rest[0], rest.skip(1)) {
                Ok((elem, after)) => {
                    assert(seq![rest[0]] + rest.skip(1) =~= rest);
                    assert(seq!['['] + field_type_text(elem) + after =~= seq!['['] + (
                    field_type_text(elem) + after));
                },
                Err(_) => {},
            }
        }
    } else {
        match parse_field_type(id, rest) {
            Ok((t, after)) => {
                assert(field_type_text(t) + after =~= seq![id] + rest);
            },
            Err(_) => {},
        }
    }
}

/// Writing inverts parsing, for field types: the text of a well-formed field
/// type, followed by anything, parses as that field type and leaves what
/// followed.
pub proof fn lemma_field_type_text_parses(t: FieldTypeView, tail: Seq<char>)
    requires
        field_type_wf(t),
    ensures
        field_type_text(t).len() > 0,
        parse_field_type(field_type_text(t)[0], field_type_text(t).skip(1) + tail) == Ok::<
            (FieldTypeView, Seq<char>),
            Error,
        >((t, tail)),
    decreases t,
{
    match t {
        FieldTypeView::ObjReference(name) => {
            let rest = field_type_text(t).skip(1) + tail;
            let end = name.len() as int;
            assert(rest =~= name + seq![';'] + tail);
            assert(is_name_end(rest, end)) by {
                assert forall|j: int| 0 <= j < end implies rest[j] != ';' by {
                    assert(rest[j] == name[j]);
                }
            }
            let found = name_end(rest);
            assert(is_name_end(rest, found));
            assert(found == end) by {
                if found < end {
                    assert(rest[found] == name[found]);
                }
            }
            assert(rest.take(end) =~= name);
            assert(rest.skip(end + 1) =~= tail);
        },
        FieldTypeView::ArrReference(elem) => {
            lemma_field_type_text_parses(*elem, tail);
            let rest = field_type_text(t).skip(1) + tail;
            let inner = field_type_text(*elem);
            assert(rest =~= inner + tail);
            assert(rest[0] == inner[0]);
            assert(rest.skip(1) =~= inner.skip(1) + tail);
        },
        _ => {
            assert(field_type_text(t).skip(1) + tail =~= tail);
        },
    }
}

/// Parsing inverts writing, for parameter lists.
pub proof fn lemma_params_parse_text(s: Seq<char>)
    ensures
        parse_params(s) matches Ok((ts, after)) ==> {
            &&& forall|i: int| 0 <= i < ts.len() ==> field_type_wf(#[trigger] ts[i])
            &&& params_text(ts) + seq![')'] + after == s
        },
    decreases s.len(),
{
    if s.len() == 0 {
    } else if s[0] == ')' {
        assert(params_text(Seq::<FieldTypeView>::empty()) + seq![')'] + s.skip(1) =~= s);
    } else {
        lemma_field_type_parse_text(s[0], s.skip(1));
        match parse_field_type(s[0], s.skip(1)) {
            Err(_) => {},
            Ok((t, mid)) => {
                assert(seq![s[0]] + s.skip(1) =~= s);
                lemma_params_parse_text(mid);
                match parse_params(mid) {
                    Err(_) => {},
                    Ok((ts, after)) => {
                        let all = seq![t] + ts;
                        assert(all[0] == t);
                        assert(all.drop_first() =~= ts);
                        assert forall|i: int| 0 <= i < all.len() implies field_type_wf(
                            #[trigger] all[i],
                        ) by {
                            if i > 0 {
                                assert(all[i] == ts[i - 1]);
                            }
                        }
                        assert(params_text(all) + seq![')'] + after =~= field_type_text(t) + (
                        params_text(ts) + seq![')'] + after));
                    },
                }
            },
        }
    }
}

/// Writing inverts parsing, for parameter lists.
pub proof fn lemma_params_text_parses(ts: Seq<FieldTypeView>, tail: Seq<char>)
    requires
        forall|i: int| 0 <= i < ts.len() ==> field_type_wf(#[trigger] ts[i]),
    ensures
        parse_params(params_text(ts) + seq![')'] + tail) == Ok::<
            (Seq<FieldTypeView>, Seq<char>),
            Error,
        >((ts, tail)),
    decreases ts.len(),
{
    let s = params_text(ts) + seq![')'] + tail;
    if ts.len() == 0 {
        assert(s =~= seq![')'] + tail);
        assert(s.skip(1) =~= tail);
        assert(ts =~= Seq::empty());
    } else {
        let t = ts[0];
        let later = ts.drop_first();
        let mid = params_text(later) + seq![')'] + tail;
        assert(field_type_wf(t));
        lemma_field_type_text_parses(t, mid);
        let text = field_type_text(t);
        assert(s =~= text + mid);
        assert(s[0] == text[0]);
        assert(s.skip(1) =~= text.skip(1) + mid);
        assert(text[0] != ')') by {
            lemma_first_char(t);
        }
        assert forall|i: int| 0 <= i < later.len() implies field_type_wf(#[trigger] later[i]) by {
            assert(later[i] == ts[i + 1]);
        }
        lemma_params_text_parses(later, tail);
        assert(seq![t] + later =~= ts);
    }
}

/// The text of a field type begins with one of the ten tag characters.
pub proof fn lemma_first_char(t: FieldTypeView)
    ensures
        field_type_text(t).len() > 0,
        field_type_text(t)[0] != ')',
        field_type_text(t)[0] != 'V',
{
}

/// Parsing inverts writing: a method descriptor that was parsed from `s` is
/// well formed, and its text followed by what was left over is `s`.
pub proof fn lemma_method_parse_text(s: Seq<char>)
    ensures
        parse_method_prefix(s) matches Ok((d, after)) ==> method_wf(d) && method_text(d) + after
            == s,
{
    if s.len() > 0 && s[0] == '(' {
        lemma_params_parse_text(s.skip(1));
        match parse_params(s.skip(1)) {
            Err(_) => {},
            Ok((params, mid)) => {
                assert(seq!['('] + s.skip(1) =~= s);
                if mid.len() > 0 {
                    lemma_field_type_parse_text(mid[0], mid.skip(1));
                    assert(seq![mid[0]] + mid.skip(1) =~= mid);
                    match parse_return(mid[0], mid.skip(1)) {
                        Err(_) => {},
                        Ok((return_value, after)) => {
                            let d = MethodDescriptorView { params, return_value };
                            assert(return_text(return_value) + after =~= mid);
                            assert(method_text(d) + after =~= seq!['('] + (params_text(params)
                                + seq![')'] + (return_text(return_value) + after)));
                        },
                    }
                }
            },
        }
    }
}

/// Writing inverts parsing: the text of a well-formed method descriptor,
/// followed by anything, parses as that descriptor and leaves what followed.
pub proof fn lemma_method_text_parses(d: MethodDescriptorView, tail: Seq<char>)
    requires
        method_wf(d),
    ensures
        parse_method_prefix(method_text(d) + tail) == Ok::<
            (MethodDescriptorView, Seq<char>),
            Error,
        >((d, tail)),
{
    let s = method_text(d) + tail;
    let ret = return_text(d.return_value);
    let mid = ret + tail;
    assert(s.skip(1) =~= params_text(d.params) + seq![')'] + mid);
    lemma_params_text_parses(d.params, mid);
    match d.return_value {
        ReturnDescriptorView::Void => {
            assert(mid.skip(1) =~= tail);
        },
        ReturnDescriptorView::FieldType(t) => {
            lemma_field_type_text_parses(t, tail);
            lemma_first_char(t);
            assert(mid[0] == ret[0]);
            assert(mid.skip(1) =~= ret.skip(1) + tail);
        },
    }
}

/// The round trip: whatever a string parses to, the text of that descriptor
/// parses to the same descriptor again, and is the part of the string that
/// was read.
pub proof fn lemma_descriptor_round_trip(s: Seq<char>)
    ensures
        parse_method(s) matches Ok(d) ==> {
            &&& parse_method(method_text(d)) == Ok::<MethodDescriptorView, Error>(d)
            &&& method_text(d).is_prefix_of(s)
        },
{
    lemma_method_parse_text(s);
    match parse_method_prefix(s) {
        Ok((d, after)) => {
            lemma_method_text_parses(d, Seq::empty());
            assert(method_text(d) + Seq::<char>::empty() =~= method_text(d));
            assert(method_text(d) =~= (method_text(d) + after).subrange(
                0,
                method_text(d).len() as int,
            ));
        },
        Err(_) => {},
    }
}

impl FieldType {
    /// Parses the field type that begins with `id` and continues in `chars`,
    /// consuming exactly the characters that belong to it.
    ///
    /// The iterator must be one that is known to end, as every iterator is
    /// that `str::chars` hands out; it stays one.
    pub fn from_chars(id: char, chars: &mut Chars) -> (res: Result<Self, Error>)
        requires
            (*old(chars)).decrease() is Some,
        ensures
            (*final(chars)).decrease() is Some,
            res is Ok ==> (*final(chars)).decrease()->0 <= (*old(chars)).decrease()->0,
            parsed_as(
                parse_field_type(id, (*old(chars)).remaining()),
                res,
                (*final(chars)).remaining(),
            ),
        decreases (*old(chars)).decrease()->0,
    {
        match id {
            'B' => Ok(FieldType::Byte),
            'C' => Ok(FieldType::Char),
            'D' => Ok(FieldType::Double),
            'F' => Ok(FieldType::Float),
            'I' => Ok(FieldType::Int),
            'J' => Ok(FieldType::Long),
            'L' => {
                let ghost all = (*chars).remaining();
                let ghost mut k: int = 0;
                let mut name = String::new();
                let mut c = match chars.next() {
                    Some(c) => c,
                    None => {
                        return Err(Error::InvalidDescriptor);
                    },
                };
                while c != ';'
                    invariant
                        id == 'L',
                        all == (*old(chars)).remaining(),
                        0 <= k < all.len(),
                        c == all[k],
                        (*chars).remaining() == all.skip(k + 1),
                        name@ == all.take(k),
                        forall|j: int| 0 <= j < k ==> all[j] != ';',
                        (*chars).decrease() is Some,
                        (*chars).decrease()->0 <= (*old(chars)).decrease()->0,
                    decreases (*chars).decrease()->0,
                {
                    push_char(&mut name, c);
                    match chars.next() {
                        Some(next) => {
                            c = next;
                        },
                        None => {
                            assert forall|i: int| !is_name_end(all, i) by {}
                            return Err(Error::InvalidDescriptor);
                        },
                    }
                    proof {
                        assert(all.take(k).push(all[k]) == all.take(k + 1));
                        assert(all.skip(k + 1).drop_first() == all.skip(k + 2));
                        k = k + 1;
                    }
                }
                proof {
                    assert(is_name_end(all, k));
                    let end = name_end(all);
                    assert(end == k) by {
                        if end < k {
                            assert(all[end] != ';');
                        } else if k < end {
                            assert(all[k] != ';');
                        }
                    }
                }
                Ok(FieldType::ObjReference(name))
            },
            'S' => Ok(FieldType::Short),
            'Z' => Ok(FieldType::Boolean),
            '[' => {
                let ghost all = (*chars).remaining();
                let first = match chars.next() {
                    Some(c) => c,
                    None => {
                        return Err(Error::InvalidDescriptor);
                    },
                };
                assert(all.drop_first() == all.skip(1));
                match FieldType::from_chars(first, chars) {
                    Ok(elem) => Ok(FieldType::ArrReference(Box::new(elem))),
                    Err(e) => Err(e),
                }
            },
            _ => Err(Error::InvalidDescriptor),
        }
    }
}

/// The field type that `s` begins with. Characters after it are not looked
/// at.
pub open spec fn parse_field_descriptor(s: Seq<char>) -> Result<FieldTypeView, Error> {
    if s.len() == 0 {
        Err(Error::InvalidDescriptor)
    } else {
        match parse_field_type(s[0], s.skip(1)) {
            Ok((t, _)) => Ok(t),
            Err(e) => Err(e),
        }
    }
}

impl FieldType {
    /// Parses the field type that `s` begins with. Characters after it are
    /// not looked at.
    pub fn from_str(s: &str) -> (res: Result<Self, Error>)
        ensures
            match parse_field_descriptor(s@) {
                Ok(t) => res matches Ok(got) && got@ == t,
                Err(e) => res matches Err(g) && g == e,
            },
    {
        let mut chars = s.chars();
        let id = match chars.next() {
            Some(c) => c,
            None => {
                return Err(Error::InvalidDescriptor);
            },
        };
        assert(s@.drop_first() == s@.skip(1));
        FieldType::from_chars(id, &mut chars)
    }

    /// The descriptor text of this field type.
    pub fn to_string(&self) -> (s: String)
        ensures
            s@ == field_type_text(self@),
        decreases self,
    {
        let mut s = String::new();
        match self {
            FieldType::Byte => push_char(&mut s, 'B'),
            FieldType::Char => push_char(&mut s, 'C'),
            FieldType::Double => push_char(&mut s, 'D'),
            FieldType::Float => push_char(&mut s, 'F'),
            FieldType::Int => push_char(&mut s, 'I'),
            FieldType::Long => push_char(&mut s, 'J'),
            FieldType::ObjReference(name) => {
                push_char(&mut s, 'L');
                s.append(name.as_str());
                push_char(&mut s, ';');
            },
            FieldType::Short => push_char(&mut s, 'S'),
            FieldType::Boolean => push_char(&mut s, 'Z'),
            FieldType::ArrReference(inner) => {
                push_char(&mut s, '[');
                let elem = (**inner).to_string();
                s.append(elem.as_str());
            },
        }
        assert(s@ =~= field_type_text(self@));
        s
    }
}

impl ReturnDescriptor {
    /// Parses the return descriptor that begins with `id` and continues in
    /// `chars`, consuming exactly the characters that belong to it.
    ///
    /// The iterator must be one that is known to end, as every iterator is
    /// that `str::chars` hands out; it stays one.
    pub fn from_chars(id: char, chars: &mut Chars) -> (res: Result<Self, Error>)
        requires
            (*old(chars)).decrease() is Some,
        ensures
            (*final(chars)).decrease() is Some,
            res is Ok ==> (*final(chars)).decrease()->0 <= (*old(chars)).decrease()->0,
            parsed_as(parse_return(id, (*old(chars)).remaining()), res, (*final(chars)).remaining()),
    {
        match id {
            'V' => Ok(ReturnDescriptor::Void),
            _ => match FieldType::from_chars(id, chars) {
                Ok(t) => Ok(ReturnDescriptor::FieldType(t)),
                Err(e) => Err(e),
            },
        }
    }

    /// The descriptor text of this return descriptor.
    pub fn to_string(&self) -> (s: String)
        ensures
            s@ == return_text(self@),
    {
        match self {
            ReturnDescriptor::FieldType(t) => t.to_string(),
            ReturnDescriptor::Void => {
                let mut s = String::new();
                push_char(&mut s, 'V');
                assert(s@ =~= seq!['V']);
                s
            },
        }
    }
}

impl MethodDescriptor {
    /// Parses the method descriptor that `s` begins with. Characters after
    /// the return descriptor are not looked at.
    pub fn from_str(s: &str) -> (res: Result<Self, Error>)
        ensures
            match parse_method(s@) {
                Ok(d) => res matches Ok(m) && m@ == d,
                Err(e) => res matches Err(g) && g == e,
            },
    {
        let mut chars = s.chars();
        match chars.next() {
            Some(c) => {
                if c != '(' {
                    return Err(Error::InvalidDescriptor);
                }
            },
            None => {
                return Err(Error::InvalidDescriptor);
            },
        }
        let ghost body = s@.skip(1);
        assert(s@.drop_first() == body);
        let mut id = match chars.next() {
            Some(c) => c,
            None => {
                return Err(Error::InvalidDescriptor);
            },
        };
        let mut params: Vec<FieldType> = Vec::new();
        assert(seq![id] + chars.remaining() =~= body);
        assert(field_type_views(params@) + Seq::<FieldTypeView>::empty() =~= Seq::empty());
        while id != ')'
            invariant
                chars.decrease() is Some,
                s@.len() > 0,
                s@[0] == '(',
                body == s@.skip(1),
                parse_params(body) == after_params(
                    field_type_views(params@),
                    parse_params(seq![id] + chars.remaining()),
                ),
            decreases chars.decrease()->0,
        {
            let ghost unread = seq![id] + chars.remaining();
            let ghost before = field_type_views(params@);
            assert(unread.skip(1) =~= chars.remaining());
            proof {
                lemma_field_type_parse_text(id, chars.remaining());
            }
            let param = match FieldType::from_chars(id, &mut chars) {
                Ok(t) => t,
                Err(e) => {
                    return Err(e);
                },
            };
            let ghost after = chars.remaining();
            params.push(param);
            assert(field_type_views(params@) =~= before.push(param@));
            id = match chars.next() {
                Some(c) => c,
                None => {
                    return Err(Error::InvalidDescriptor);
                },
            };
            assert(seq![id] + chars.remaining() =~= after);
            assert(parse_params(body) == after_params(
                field_type_views(params@),
                parse_params(after),
            )) by {
                match parse_params(after) {
                    Ok((ts, last)) => {
                        assert(before + (seq![param@] + ts) =~= before.push(param@) + ts);
                    },
                    Err(_) => {},
                }
            }
        }
        proof {
            let unread = seq![id] + chars.remaining();
            assert(unread.skip(1) =~= chars.remaining());
            assert(field_type_views(params@) + Seq::<FieldTypeView>::empty() =~= field_type_views(
                params@,
            ));
        }
        let ghost after = chars.remaining();
        id = match chars.next() {
            Some(c) => c,
            None => {
                return Err(Error::InvalidDescriptor);
            },
        };
        assert(after.drop_first() == after.skip(1));
        let return_value = match ReturnDescriptor::from_chars(id, &mut chars) {
            Ok(r) => r,
            Err(e) => {
                return Err(e);
            },
        };
        Ok(MethodDescriptor { params, return_value })
    }

    /// The descriptor text of this method descriptor.
    pub fn to_string(&self) -> (s: String)
        ensures
            s@ == method_text(self@),
    {
        let mut s = String::new();
        push_char(&mut s, '(');
        let ghost all = field_type_views(self.params@);
        let mut i: usize = 0;
        assert(s@ =~= seq!['(']);
        assert(all.skip(0) =~= all);
        while i < self.params.len()
            invariant
                0 <= i <= self.params.len(),
                all == field_type_views(self.params@),
                s@ + params_text(all.skip(i as int)) == seq!['('] + params_text(all),
            decreases self.params.len() - i,
        {
            let text = self.params[i].to_string();
            proof {
                let unread = all.skip(i as int);
                assert(unread[0] == self.params@[i as int]@);
                assert(unread.drop_first() =~= all.skip(i + 1));
                assert(s@ + text@ + params_text(all.skip(i + 1)) =~= s@ + params_text(unread));
            }
            s.append(text.as_str());
            i = i + 1;
        }
        push_char(&mut s, ')');
        let text = self.return_value.to_string();
        proof {
            assert(params_text(all.skip(i as int)) =~= Seq::empty());
            assert(s@ =~= seq!['('] + params_text(all) + seq![')']);
        }
        s.append(text.as_str());
        s
    }
}

} // verus!
