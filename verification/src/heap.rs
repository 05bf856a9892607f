//! The heap: a table of cells that references index.
//!
//! A cell holds an object, a typed array, null, or nothing. A reference is
//! valid while its index lies in the table and its cell is not empty. A cell
//! that is freed becomes empty and is the first to be used again; freeing the
//! last cell shrinks the table.

use crate::error::Error;
use crate::types::DataType;
use vstd::prelude::*;

verus! {

/// A typed array: a row of elements of one primitive type.
#[derive(Debug, Clone)]
pub enum Array {
    Boolean(Vec<bool>),
    Char(Vec<u16>),
    /// IEEE-754 singles, as their bit patterns.
    Float(Vec<u32>),
    /// IEEE-754 doubles, as their bit patterns.
    Double(Vec<u64>),
    Byte(Vec<i8>),
    Short(Vec<i16>),
    Int(Vec<i32>),
    Long(Vec<i64>),
}

/// The mathematical value of an [`Array`].
pub enum ArrayView {
    Boolean(Seq<bool>),
    Char(Seq<u16>),
    Float(Seq<u32>),
    Double(Seq<u64>),
    Byte(Seq<i8>),
    Short(Seq<i16>),
    Int(Seq<i32>),
    Long(Seq<i64>),
}

impl View for Array {
    type V = ArrayView;

    open spec fn view(&self) -> ArrayView {
        match self {
            Array::Boolean(a) => ArrayView::Boolean(a@),
            Array::Char(a) => ArrayView::Char(a@),
            Array::Float(a) => ArrayView::Float(a@),
            Array::Double(a) => ArrayView::Double(a@),
            Array::Byte(a) => ArrayView::Byte(a@),
            Array::Short(a) => ArrayView::Short(a@),
            Array::Int(a) => ArrayView::Int(a@),
            Array::Long(a) => ArrayView::Long(a@),
        }
    }
}

/// Whether `atype` is one of the eight element type codes: 4 Boolean, 5 Char,
/// 6 Float, 7 Double, 8 Byte, 9 Short, 10 Int, 11 Long.
pub open spec fn is_array_type(atype: u8) -> bool {
    4 <= atype <= 11
}

/// The array of `size` elements of the type with code `atype`, each of them
/// the zero of that type.
pub open spec fn zeroed(atype: u8, size: nat) -> ArrayView {
    if atype == 4 {
        ArrayView::Boolean(Seq::new(size, |i: int| false))
    } else if atype == 5 {
        ArrayView::Char(Seq::new(size, |i: int| 0u16))
    } else if atype == 6 {
        ArrayView::Float(Seq::new(size, |i: int| 0u32))
    } else if atype == 7 {
        ArrayView::Double(Seq::new(size, |i: int| 0u64))
    } else if atype == 8 {
        ArrayView::Byte(Seq::new(size, |i: int| 0i8))
    } else if atype == 9 {
        ArrayView::Short(Seq::new(size, |i: int| 0i16))
    } else if atype == 10 {
        ArrayView::Int(Seq::new(size, |i: int| 0i32))
    } else {
        ArrayView::Long(Seq::new(size, |i: int| 0i64))
    }
}

/// The zero of the element type with code `atype`.
pub open spec fn zero_value(atype: u8) -> DataType {
    if atype == 4 {
        DataType::Boolean(false)
    } else if atype == 5 {
        DataType::Char(0)
    } else if atype == 6 {
        DataType::Float(0)
    } else if atype == 7 {
        DataType::Double(0)
    } else if atype == 8 {
        DataType::Byte(0)
    } else if atype == 9 {
        DataType::Short(0)
    } else if atype == 10 {
        DataType::Int(0)
    } else {
        DataType::Long(0)
    }
}

/// The low bit of `v`, as a boolean.
pub open spec fn low_bit(v: i32) -> bool {
    v & 1 != 0
}

/// The low eight bits of `v`, read as a signed byte.
pub open spec fn low_byte(v: i32) -> i8 {
    let low = v & 0xff;
    if low >= 0x80 {
        (low - 0x100) as i8
    } else {
        low as i8
    }
}

impl ArrayView {
    /// The number of elements.
    pub open spec fn len(self) -> nat {
        match self {
            ArrayView::Boolean(a) => a.len(),
            ArrayView::Char(a) => a.len(),
            ArrayView::Float(a) => a.len(),
            ArrayView::Double(a) => a.len(),
            ArrayView::Byte(a) => a.len(),
            ArrayView::Short(a) => a.len(),
            ArrayView::Int(a) => a.len(),
            ArrayView::Long(a) => a.len(),
        }
    }

    /// The element at `index`, as a value of the array's element type.
    pub open spec fn get(self, index: int) -> DataType {
        match self {
            ArrayView::Boolean(a) => DataType::Boolean(a[index]),
            ArrayView::Char(a) => DataType::Char(a[index]),
            ArrayView::Float(a) => DataType::Float(a[index]),
            ArrayView::Double(a) => DataType::Double(a[index]),
            ArrayView::Byte(a) => DataType::Byte(a[index]),
            ArrayView::Short(a) => DataType::Short(a[index]),
            ArrayView::Int(a) => DataType::Int(a[index]),
            ArrayView::Long(a) => DataType::Long(a[index]),
        }
    }

    /// The array with `value` stored at `index`. A value of the element type
    /// is stored as it is. An `Int` stored into a Boolean array is cut down
    /// to its low bit, one stored into a Byte array to its low eight bits.
    /// Any other value is a `TypeMismatch`.
    pub open spec fn set(self, index: int, value: DataType) -> Result<ArrayView, Error> {
        match (self, value) {
            (ArrayView::Boolean(a), DataType::Boolean(b)) => Ok(
                ArrayView::Boolean(a.update(index, b)),
            ),
            (ArrayView::Boolean(a), DataType::Int(v)) => Ok(
                ArrayView::Boolean(a.update(index, low_bit(v))),
            ),
            (ArrayView::Byte(a), DataType::Byte(b)) => Ok(ArrayView::Byte(a.update(index, b))),
            (ArrayView::Byte(a), DataType::Int(v)) => Ok(
                ArrayView::Byte(a.update(index, low_byte(v))),
            ),
            (ArrayView::Char(a), DataType::Char(c)) => Ok(ArrayView::Char(a.update(index, c))),
            (ArrayView::Float(a), DataType::Float(f)) => Ok(ArrayView::Float(a.update(index, f))),
            (ArrayView::Double(a), DataType::Double(d)) => Ok(
                ArrayView::Double(a.update(index, d)),
            ),
            (ArrayView::Short(a), DataType::Short(s)) => Ok(ArrayView::Short(a.update(index, s))),
            (ArrayView::Int(a), DataType::Int(v)) => Ok(ArrayView::Int(a.update(index, v))),
            (ArrayView::Long(a), DataType::Long(v)) => Ok(ArrayView::Long(a.update(index, v))),
            _ => Err(Error::TypeMismatch),
        }
    }
}

/// Every element of a new array is the zero of its element type.
pub proof fn lemma_new_array_is_zero(atype: u8, size: nat, index: int)
    requires
        is_array_type(atype),
        0 <= index < size,
    ensures
        zeroed(atype, size).len() == size,
        zeroed(atype, size).get(index) == zero_value(atype),
{
}

/// An integer that is stored into an array of integers is the integer that is
/// then found at the same index, and every other element is as it was.
pub proof fn lemma_int_store_load(a: ArrayView, index: int, value: i32)
    requires
        a is Int,
        0 <= index < a.len(),
    ensures
        a.set(index, DataType::Int(value)) matches Ok(b) && b.len() == a.len() && b.get(index)
            == DataType::Int(value) && forall|j: int|
            0 <= j < a.len() && j != index ==> b.get(j) == a.get(j),
{
}

impl Array {
    /// A new array of `size` elements of the type with code `atype`, each of
    /// them zero. Fails with `InvalidArrayType` where `atype` is not one of
    /// the eight codes.
    pub fn create(atype: u8, size: usize) -> (res: Result<Self, Error>)
        ensures
            match res {
                Ok(array) => is_array_type(atype) && array@ == zeroed(atype, size as nat),
                Err(e) => !is_array_type(atype) && e == Error::InvalidArrayType(atype),
            },
    {
        match atype {
            4 => {
                let a = vec![false; size];
                assert(a@ =~= Seq::new(size as nat, |i: int| false));
                Ok(Array::Boolean(a))
            },
            5 => {
                let a = vec![0u16; size];
                assert(a@ =~= Seq::new(size as nat, |i: int| 0u16));
                Ok(Array::Char(a))
            },
            6 => {
                let a = vec![0u32; size];
                assert(a@ =~= Seq::new(size as nat, |i: int| 0u32));
                Ok(Array::Float(a))
            },
            7 => {
                let a = vec![0u64; size];
                assert(a@ =~= Seq::new(size as nat, |i: int| 0u64));
                Ok(Array::Double(a))
            },
            8 => {
                let a = vec![0i8; size];
                assert(a@ =~= Seq::new(size as nat, |i: int| 0i8));
                Ok(Array::Byte(a))
            },
            9 => {
                let a = vec![0i16; size];
                assert(a@ =~= Seq::new(size as nat, |i: int| 0i16));
                Ok(Array::Short(a))
            },
            10 => {
                let a = vec![0i32; size];
                assert(a@ =~= Seq::new(size as nat, |i: int| 0i32));
                Ok(Array::Int(a))
            },
            11 => {
                let a = vec![0i64; size];
                assert(a@ =~= Seq::new(size as nat, |i: int| 0i64));
                Ok(Array::Long(a))
            },
            _ => Err(Error::InvalidArrayType(atype)),
        }
    }

    /// The number of elements.
    pub fn len(&self) -> (n: usize)
        ensures
            n == self@.len(),
    {
        match self {
            Array::Boolean(a) => a.len(),
            Array::Char(a) => a.len(),
            Array::Float(a) => a.len(),
            Array::Double(a) => a.len(),
            Array::Byte(a) => a.len(),
            Array::Short(a) => a.len(),
            Array::Int(a) => a.len(),
            Array::Long(a) => a.len(),
        }
    }

    /// The element at `index`, as a value of the array's element type.
    pub fn get(&self, index: usize) -> (value: DataType)
        requires
            index < self@.len(),
        ensures
            value == self@.get(index as int),
    {
        match self {
            Array::Boolean(a) => DataType::Boolean(a[index]),
            Array::Char(a) => DataType::Char(a[index]),
            Array::Float(a) => DataType::Float(a[index]),
            Array::Double(a) => DataType::Double(a[index]),
            Array::Byte(a) => DataType::Byte(a[index]),
            Array::Short(a) => DataType::Short(a[index]),
            Array::Int(a) => DataType::Int(a[index]),
            Array::Long(a) => DataType::Long(a[index]),
        }
    }

    /// Stores `value` at `index`. A value of the element type is stored as it
    /// is; an `Int` stored into a Boolean array is cut down to its low bit,
    /// one stored into a Byte array to its low eight bits. Any other value is
    /// a `TypeMismatch` and leaves the array as it was.
    pub fn set(&mut self, index: usize, value: DataType) -> (res: Result<(), Error>)
        requires
            index < old(self)@.len(),
        ensures
            match old(self)@.set(index as int, value) {
                Ok(array) => res is Ok && final(self)@ == array,
                Err(e) => res == Err::<(), Error>(e) && final(self)@ == old(self)@,
            },
    {
        match self {
            Array::Boolean(a) => match value {
                DataType::Boolean(b) => {
                    a[index] = b;
                    Ok(())
                },
                DataType::Int(v) => {
                    a[index] = v & 1 != 0;
                    Ok(())
                },
                _ => Err(Error::TypeMismatch),
            },
            Array::Byte(a) => match value {
                DataType::Byte(b) => {
                    a[index] = b;
                    Ok(())
                },
                DataType::Int(v) => {
                    let low: i32 = v & 0xff;
                    assert(0 <= low < 0x100) by (bit_vector)
                        requires
                            low == v & 0xff,
                    ;
                    a[index] = if low >= 0x80 {
                        (low - 0x100) as i8
                    } else {
                        low as i8
                    };
                    Ok(())
                },
                _ => Err(Error::TypeMismatch),
            },
            Array::Char(a) => match value {
                DataType::Char(c) => {
                    a[index] = c;
                    Ok(())
                },
                _ => Err(Error::TypeMismatch),
            },
            Array::Float(a) => match value {
                DataType::Float(f) => {
                    a[index] = f;
                    Ok(())
                },
                _ => Err(Error::TypeMismatch),
            },
            Array::Double(a) => match value {
                DataType::Double(d) => {
                    a[index] = d;
                    Ok(())
                },
                _ => Err(Error::TypeMismatch),
            },
            Array::Short(a) => match value {
                DataType::Short(s) => {
                    a[index] = s;
                    Ok(())
                },
                _ => Err(Error::TypeMismatch),
            },
            Array::Int(a) => match value {
                DataType::Int(v) => {
                    a[index] = v;
                    Ok(())
                },
                _ => Err(Error::TypeMismatch),
            },
            Array::Long(a) => match value {
                DataType::Long(v) => {
                    a[index] = v;
                    Ok(())
                },
                _ => Err(Error::TypeMismatch),
            },
        }
    }
}

/// What a cell of the heap holds.
#[derive(Debug, Clone)]
pub enum HeapItem {
    /// An object. Its fields are not yet modelled.
    Object,
    /// A boxed primitive. Its value is not yet modelled.
    Primitive,
    Array(Array),
    Null,
    /// Nothing: the cell was freed and waits to be used again.
    Empty,
}

/// The mathematical value of a [`HeapItem`].
pub enum HeapItemView {
    Object,
    Primitive,
    Array(ArrayView),
    Null,
    Empty,
}

impl View for HeapItem {
    type V = HeapItemView;

    open spec fn view(&self) -> HeapItemView {
        match self {
            HeapItem::Object => HeapItemView::Object,
            HeapItem::Primitive => HeapItemView::Primitive,
            HeapItem::Array(a) => HeapItemView::Array(a@),
            HeapItem::Null => HeapItemView::Null,
            HeapItem::Empty => HeapItemView::Empty,
        }
    }
}

impl HeapItem {
    /// Whether the cell holds nothing.
    pub fn is_empty(&self) -> (res: bool)
        ensures
            res == (self@ is Empty),
    {
        match self {
            HeapItem::Empty => true,
            _ => false,
        }
    }
}

/// The heap.
#[derive(Debug, Clone)]
pub struct Heap {
    inner: Vec<HeapItem>,
    max_size: usize,
}

/// The mathematical value of a [`Heap`]: its cells and the number of cells
/// that it may grow to.
pub struct HeapView {
    pub cells: Seq<HeapItemView>,
    pub max_size: usize,
}

impl HeapView {
    /// Whether `index` names a cell that holds something.
    pub open spec fn is_valid_reference(self, index: usize) -> bool {
        index < self.cells.len() && !(self.cells[index as int] is Empty)
    }

    /// Whether `i` is the position of the first empty cell.
    pub open spec fn is_first_empty(self, i: int) -> bool {
        &&& 0 <= i < self.cells.len()
        &&& self.cells[i] is Empty
        &&& forall|j: int| 0 <= j < i ==> !(#[trigger] self.cells[j] is Empty)
    }

    /// Whether some cell is empty.
    pub open spec fn has_empty(self) -> bool {
        exists|i: int| self.is_first_empty(i)
    }

    /// The position of the first empty cell, where there is one.
    pub open spec fn first_empty(self) -> int {
        choose|i: int| self.is_first_empty(i)
    }

    /// The heap after `item` is stored in it, and the index of the cell that
    /// took it: the first empty cell, or a new cell at the end where none is
    /// empty and the heap may still grow.
    pub open spec fn append(self, item: HeapItemView) -> Result<(HeapView, usize), Error> {
        if self.has_empty() {
            Ok(
                (
                    HeapView { cells: self.cells.update(self.first_empty(), item), ..self },
                    self.first_empty() as usize,
                ),
            )
        } else if self.cells.len() < self.max_size {
            Ok((HeapView { cells: self.cells.push(item), ..self }, self.cells.len() as usize))
        } else {
            Err(Error::HeapFull)
        }
    }

    /// The heap after the cell at `index` is freed: the last cell is dropped,
    /// any other becomes empty.
    pub open spec fn remove(self, index: usize) -> Result<HeapView, Error> {
        if !self.is_valid_reference(index) {
            Err(Error::InvalidReference(index))
        } else if index == self.cells.len() - 1 {
            Ok(HeapView { cells: self.cells.drop_last(), ..self })
        } else {
            Ok(HeapView { cells: self.cells.update(index as int, HeapItemView::Empty), ..self })
        }
    }

    /// The heap after a zeroed array of `size` elements of the type with
    /// code `atype` is stored in it, and the index of the cell that took it.
    pub open spec fn create_array(self, atype: u8, size: usize) -> Result<(HeapView, usize), Error> {
        if !is_array_type(atype) {
            Err(Error::InvalidArrayType(atype))
        } else {
            self.append(HeapItemView::Array(zeroed(atype, size as nat)))
        }
    }

    /// The array in the cell at `index`.
    pub open spec fn array(self, index: usize) -> Result<ArrayView, Error> {
        if index >= self.cells.len() {
            Err(Error::InvalidReference(index))
        } else {
            match self.cells[index as int] {
                HeapItemView::Array(a) => Ok(a),
                _ => Err(Error::NotAnArray),
            }
        }
    }

    /// The element at `at` of the array in the cell at `index`.
    pub open spec fn load(self, index: usize, at: i32) -> Result<DataType, Error> {
        match self.array(index) {
            Err(e) => Err(e),
            Ok(a) => if 0 <= at < a.len() {
                Ok(a.get(at as int))
            } else {
                Err(Error::ArrayIndexOutOfBounds)
            },
        }
    }

    /// The heap after `value` is stored at `at` in the array in the cell at
    /// `index`.
    pub open spec fn store(self, index: usize, at: i32, value: DataType) -> Result<HeapView, Error> {
        match self.array(index) {
            Err(e) => Err(e),
            Ok(a) => if 0 <= at < a.len() {
                match a.set(at as int, value) {
                    Err(e) => Err(e),
                    Ok(b) => Ok(
                        HeapView {
                            cells: self.cells.update(index as int, HeapItemView::Array(b)),
                            ..self
                        },
                    ),
                }
            } else {
                Err(Error::ArrayIndexOutOfBounds)
            },
        }
    }
}

impl View for Heap {
    type V = HeapView;

    closed spec fn view(&self) -> HeapView {
        HeapView { cells: Seq::new(self.inner@.len(), |i: int| self.inner@[i]@), max_size: self.max_size }
    }
}

impl Default for Heap {
    /// An empty heap that may grow without bound.
    fn default() -> (heap: Self)
        ensures
            heap@.cells.len() == 0,
            heap@.max_size == usize::MAX,
    {
        Heap { max_size: usize::MAX, inner: Vec::new() }
    }
}

impl Heap {
    /// An empty heap that may grow to `max_size` cells.
    pub fn with_max_size(max_size: usize) -> (heap: Self)
        ensures
            heap@.cells.len() == 0,
            heap@.max_size == max_size,
    {
        Heap { max_size, inner: Vec::new() }
    }

    /// The number of cells, empty ones included.
    pub fn len(&self) -> (n: usize)
        ensures
            n == self@.cells.len(),
    {
        self.inner.len()
    }

    /// Frees what no frame can reach any more. No cell is ever reclaimed yet:
    /// the heap is left as it is, so that every reference that a frame holds
    /// stays valid.
    pub fn collect_garbage(&mut self) -> (res: Result<(), Error>)
        ensures
            res is Ok,
            final(self)@ == old(self)@,
    {
        Ok(())
    }

    /// Whether `index` names a cell that holds something.
    pub fn is_valid_reference(&self, index: usize) -> (res: bool)
        ensures
            res == self@.is_valid_reference(index),
    {
        index < self.inner.len() && !self.inner[index].is_empty()
    }

    /// Frees the cell at `index`: the last cell is dropped, any other
    /// becomes empty. Fails with `InvalidReference`, and changes nothing,
    /// where `index` is not a valid reference.
    pub fn remove(&mut self, index: usize) -> (res: Result<(), Error>)
        ensures
            match old(self)@.remove(index) {
                Ok(heap) => res is Ok && final(self)@ == heap,
                Err(e) => res == Err::<(), Error>(e) && final(self)@ == old(self)@,
            },
    {
        let len = self.inner.len();
        if !self.is_valid_reference(index) {
            return Err(Error::InvalidReference(index));
        }
        if index == len - 1 {
            self.inner.pop();
            assert(self@.cells =~= old(self)@.cells.drop_last());
        } else {
            self.inner[index] = HeapItem::Empty;
            assert(self@.cells =~= old(self)@.cells.update(index as int, HeapItemView::Empty));
        }
        Ok(())
    }

    /// Stores a zeroed array of `size` elements of the type with code
    /// `atype` and returns the index of the cell that took it.
    pub fn create_array(&mut self, atype: u8, size: usize) -> (res: Result<usize, Error>)
        ensures
            match old(self)@.create_array(atype, size) {
                Ok((heap, index)) => res == Ok::<usize, Error>(index) && final(self)@ == heap,
                Err(e) => res == Err::<usize, Error>(e) && final(self)@ == old(self)@,
            },
    {
        let array = Array::create(atype, size)?;
        self.try_append(HeapItem::Array(array))
    }

    /// Stores `item` in the first empty cell, or in a new cell at the end
    /// where none is empty, and returns the index of the cell. Fails with
    /// `HeapFull`, and changes nothing, where no cell is empty and the heap
    /// has reached its maximum size.
    pub fn try_append(&mut self, item: HeapItem) -> (res: Result<usize, Error>)
        ensures
            match old(self)@.append(item@) {
                Ok((heap, index)) => res == Ok::<usize, Error>(index) && final(self)@ == heap,
                Err(e) => res == Err::<usize, Error>(e) && final(self)@ == old(self)@,
            },
    {
        let ghost before = self@;
        let mut i: usize = 0;
        while i < self.inner.len()
            invariant
                i <= self.inner.len(),
                self@ == before,
                before == old(self)@,
                *self == *old(self),
                forall|j: int| 0 <= j < i ==> !(#[trigger] before.cells[j] is Empty),
            decreases self.inner.len() - i,
        {
            if self.inner[i].is_empty() {
                proof {
                    assert(before.is_first_empty(i as int));
                    let k = before.first_empty();
                    assert(before.is_first_empty(k));
                    assert(k == i) by {
                        if k < i {
                            assert(!(before.cells[k] is Empty));
                        } else if i < k {
                            assert(!(before.cells[i as int] is Empty));
                        }
                    }
                }
                self.inner[i] = item;
                assert(self@.cells =~= before.cells.update(i as int, item@));
                return Ok(i);
            }
            i = i + 1;
        }
        assert(!before.has_empty()) by {
            if before.has_empty() {
                let k = before.first_empty();
                assert(before.is_first_empty(k));
                assert(!(before.cells[k] is Empty));
            }
        }
        if self.inner.len() < self.max_size {
            self.inner.push(item);
            assert(self@.cells =~= before.cells.push(item@));
            Ok(self.inner.len() - 1)
        } else {
            Err(Error::HeapFull)
        }
    }

    /// The array in the cell at `index`. Fails with `InvalidReference` where
    /// there is no such cell, and with `NotAnArray` where the cell holds
    /// something else.
    pub fn get_array(&self, index: usize) -> (res: Result<&Array, Error>)
        ensures
            match self@.array(index) {
                Ok(a) => res matches Ok(array) && array@ == a,
                Err(e) => res matches Err(g) && g == e,
            },
    {
        if index >= self.inner.len() {
            return Err(Error::InvalidReference(index));
        }
        match &self.inner[index] {
            HeapItem::Array(array) => Ok(array),
            _ => Err(Error::NotAnArray),
        }
    }

    /// The array in the cell at `index`, to be changed in place. Whatever
    /// the array is when the borrow ends is what the cell then holds; every
    /// other cell stays as it was.
    pub fn get_array_mut(&mut self, index: usize) -> (res: Result<&mut Array, Error>)
        ensures
            final(self)@.max_size == old(self)@.max_size,
            match old(self)@.array(index) {
                Ok(a) => res matches Ok(array) && array@ == a && final(self)@.cells
                    =~= old(self)@.cells.update(index as int, HeapItemView::Array((*final(array))@)),
                Err(e) => res matches Err(g) && g == e && final(self)@.cells =~= old(self)@.cells,
            },
    {
        if index >= self.inner.len() {
            return Err(Error::InvalidReference(index));
        }
        match &mut self.inner[index] {
            HeapItem::Array(array) => Ok(array),
            _ => Err(Error::NotAnArray),
        }
    }

    /// The element at `at` of the array in the cell at `index`.
    pub fn load(&self, index: usize, at: i32) -> (res: Result<DataType, Error>)
        ensures
            res == self@.load(index, at),
    {
        let array = self.get_array(index)?;
        if at < 0 || at as usize >= array.len() {
            return Err(Error::ArrayIndexOutOfBounds);
        }
        Ok(array.get(at as usize))
    }

    /// Stores `value` at `at` in the array in the cell at `index`. On failure
    /// the heap is left as it was.
    pub fn store(&mut self, index: usize, at: i32, value: DataType) -> (res: Result<(), Error>)
        ensures
            match old(self)@.store(index, at, value) {
                Ok(heap) => res is Ok && final(self)@ == heap,
                Err(e) => res == Err::<(), Error>(e) && final(self)@ == old(self)@,
            },
    {
        let ghost before = self@;
        if index >= self.inner.len() {
            return Err(Error::InvalidReference(index));
        }
        let res = match &mut self.inner[index] {
            HeapItem::Array(array) => {
                if at < 0 || at as usize >= array.len() {
                    Err(Error::ArrayIndexOutOfBounds)
                } else {
                    array.set(at as usize, value)
                }
            },
            _ => Err(Error::NotAnArray),
        };
        proof {
            match before.store(index, at, value) {
                Ok(heap) => {
                    assert(self@.cells =~= heap.cells);
                },
                Err(_) => {
                    assert(self@.cells =~= before.cells);
                },
            }
        }
        res
    }
}

} // verus!
