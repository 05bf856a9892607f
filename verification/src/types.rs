//! Runtime values and the activation record of a method.

use crate::bytes::be_u16;
use crate::error::Error;
use crate::resolved::find_code;
use crate::resolved::Attribute;
use crate::resolved::AttributeView;
use crate::resolved::MemberView;
use crate::resolved::Method;
use vstd::prelude::*;
use vstd::slice::slice_to_vec;

verus! {

/// A value on an operand stack or in a local variable.
#[derive(Copy, Clone, Debug, PartialEq, Eq)]
pub enum DataType {
    /// Default: false
    Boolean(bool),
    /// Default: 0
    Byte(i8),
    /// Default: U+0000
    Char(u16),
    /// Default: 0
    Short(i16),
    /// Default: 0
    Int(i32),
    /// An IEEE-754 single, as its bit pattern. Default: +0.0
    Float(u32),
    /// Default: 0
    Long(i64),
    /// An IEEE-754 double, as its bit pattern. Default: +0.0
    Double(u64),
    /// A reference to a class instance: an index into the heap.
    ClassReference(usize),
    /// A reference to an array: an index into the heap.
    ArrayReference(usize),
    /// A reference to an interface instance: an index into the heap.
    InterfaceReference(usize),
    /// The program counter to return to. No program can make or change one.
    ReturnAddr(usize),
    /// The null reference.
    Null,
    /// What a local variable holds before anything is stored in it.
    Empty,
}

impl DataType {
    /// Whether this is a value of one of the eight primitive types.
    pub open spec fn spec_is_primitive(&self) -> bool {
        match self {
            DataType::Byte(_)
            | DataType::Short(_)
            | DataType::Int(_)
            | DataType::Long(_)
            | DataType::Char(_)
            | DataType::Float(_)
            | DataType::Double(_)
            | DataType::Boolean(_) => true,
            _ => false,
        }
    }

    /// The value as the machine computes with it: booleans, bytes,
    /// characters and shorts widen to `Int`, everything else stays.
    pub open spec fn computation_type(self) -> DataType {
        match self {
            DataType::Boolean(b) => DataType::Int(
                if b {
                    1i32
                } else {
                    0i32
                },
            ),
            DataType::Byte(b) => DataType::Int(b as i32),
            DataType::Char(c) => DataType::Int(c as i32),
            DataType::Short(s) => DataType::Int(s as i32),
            _ => self,
        }
    }

    /// Whether this is a value of one of the eight primitive types.
    #[verifier::when_used_as_spec(spec_is_primitive)]
    pub fn is_primitive(&self) -> (res: bool)
        ensures
            res == self.spec_is_primitive(),
    {
        match self {
            DataType::Byte(_)
            | DataType::Short(_)
            | DataType::Int(_)
            | DataType::Long(_)
            | DataType::Char(_)
            | DataType::Float(_)
            | DataType::Double(_)
            | DataType::Boolean(_) => true,
            _ => false,
        }
    }

    /// The value as the machine computes with it: booleans, bytes,
    /// characters and shorts widen to `Int`, everything else stays.
    pub fn get_computation_type(&self) -> (res: Self)
        ensures
            res == self.computation_type(),
    {
        match self {
            DataType::Boolean(b) => DataType::Int(
                if *b {
                    1
                } else {
                    0
                },
            ),
            DataType::Byte(b) => DataType::Int(*b as i32),
            DataType::Char(c) => DataType::Int(*c as i32),
            DataType::Short(s) => DataType::Int(*s as i32),
            _ => *self,
        }
    }
}

/// The activation record of one method invocation.
#[derive(Clone, Debug)]
pub struct StackFrame {
    /// The local variables.
    pub variables: Vec<DataType>,
    /// The operand stack; its top is its last element.
    pub op_stack: Vec<DataType>,
    /// The offset in `code` of the instruction to execute next.
    pub pc: usize,
    /// The greatest depth that the operand stack may reach.
    pub max_stack: u16,
    /// The bytecode of the method.
    pub code: Vec<u8>,
    /// The position, in the machine's class table, of the class whose
    /// constant pool the bytecode refers to.
    pub class: usize,
}

/// The mathematical value of a [`StackFrame`].
pub struct FrameView {
    pub variables: Seq<DataType>,
    pub op_stack: Seq<DataType>,
    pub pc: usize,
    pub max_stack: u16,
    pub code: Seq<u8>,
    pub class: usize,
}

impl View for StackFrame {
    type V = FrameView;

    open spec fn view(&self) -> FrameView {
        FrameView {
            variables: self.variables@,
            op_stack: self.op_stack@,
            pc: self.pc,
            max_stack: self.max_stack,
            code: self.code@,
            class: self.class,
        }
    }
}

/// A frame that is about to begin: every local is `Empty`, the operand stack
/// is empty, and the program counter is at zero.
pub open spec fn fresh_frame(max_stack: u16, max_locals: u16, code: Seq<u8>, class: usize) -> FrameView {
    FrameView {
        variables: Seq::new(max_locals as nat, |i: int| DataType::Empty),
        op_stack: Seq::empty(),
        pc: 0,
        max_stack,
        code,
        class,
    }
}

/// The frame in which `method`, a method of the class at `class`, begins:
/// sized by its Code attribute and holding a copy of its bytecode.
pub open spec fn frame_for(class: usize, method: MemberView) -> Result<FrameView, Error> {
    match find_code(method.constant_pool, method.attributes) {
        Err(e) => Err(e),
        Ok(None) => Err(Error::MissingCode),
        Ok(Some(AttributeView::Code { max_stack, max_locals, code, .. })) => Ok(
            fresh_frame(max_stack, max_locals, code, class),
        ),
        Ok(Some(_)) => Err(Error::MissingCode),
    }
}

impl StackFrame {
    /// A frame with `max_locals` locals, all `Empty`, an empty operand stack
    /// that may grow to `max_stack`, and no bytecode.
    pub fn new(max_stack: u16, max_locals: u16) -> (frame: Self)
        ensures
            frame@ == fresh_frame(max_stack, max_locals, Seq::empty(), 0),
    {
        let frame = StackFrame {
            variables: vec![DataType::Empty; max_locals as usize],
            op_stack: Vec::new(),
            pc: 0,
            max_stack,
            code: Vec::new(),
            class: 0,
        };
        assert(frame.variables@ =~= Seq::new(max_locals as nat, |i: int| DataType::Empty));
        frame
    }

    /// The frame in which `method`, a method of the class at `class` in the
    /// machine's class table, begins. Fails with `MissingCode` where the
    /// method has no Code attribute.
    pub fn for_method(class: usize, method: &Method) -> (res: Result<Self, Error>)
        ensures
            match frame_for(class, method@) {
                Ok(f) => res matches Ok(frame) && frame@ == f,
                Err(e) => res matches Err(g) && g == e,
            },
    {
        match method.code()? {
            Some(Attribute::Code { max_stack, max_locals, code, .. }) => {
                let frame = StackFrame {
                    variables: vec![DataType::Empty; max_locals as usize],
                    op_stack: Vec::new(),
                    pc: 0,
                    max_stack,
                    code: slice_to_vec(code),
                    class,
                };
                assert(frame.variables@ =~= Seq::new(max_locals as nat, |i: int| DataType::Empty));
                Ok(frame)
            },
            _ => Err(Error::MissingCode),
        }
    }
}

impl FrameView {
    /// The frame with `value` pushed onto its operand stack.
    pub open spec fn push(self, value: DataType) -> Result<FrameView, Error> {
        if self.op_stack.len() >= self.max_stack {
            Err(Error::StackOverflow)
        } else {
            Ok(FrameView { op_stack: self.op_stack.push(value), ..self })
        }
    }

    /// The frame with the top of its operand stack taken off, and the value
    /// that was there.
    pub open spec fn pop(self) -> Result<(FrameView, DataType), Error> {
        if self.op_stack.len() == 0 {
            Err(Error::StackUnderflow)
        } else {
            Ok((FrameView { op_stack: self.op_stack.drop_last(), ..self }, self.op_stack.last()))
        }
    }

    /// The frame with the top of its operand stack taken off, and the
    /// integer that was there.
    pub open spec fn pop_int(self) -> Result<(FrameView, i32), Error> {
        match self.pop() {
            Err(e) => Err(e),
            Ok((f, DataType::Int(v))) => Ok((f, v)),
            Ok(_) => Err(Error::TypeMismatch),
        }
    }

    /// What the local variable `n` holds.
    pub open spec fn local(self, n: usize) -> Result<DataType, Error> {
        if n < self.variables.len() {
            Ok(self.variables[n as int])
        } else {
            Err(Error::LocalOutOfRange)
        }
    }

    /// The frame with `value` stored in the local variable `n`.
    pub open spec fn store(self, n: usize, value: DataType) -> Result<FrameView, Error> {
        if n < self.variables.len() {
            Ok(FrameView { variables: self.variables.update(n as int, value), ..self })
        } else {
            Err(Error::LocalOutOfRange)
        }
    }

    /// The byte that follows the instruction at the program counter.
    pub open spec fn operand_u8(self) -> Result<u8, Error> {
        if self.pc + 1 < self.code.len() {
            Ok(self.code[self.pc + 1])
        } else {
            Err(Error::CodeOutOfRange)
        }
    }

    /// The two bytes that follow the instruction at the program counter, as
    /// one big-endian value.
    pub open spec fn operand_u16(self) -> Result<u16, Error> {
        if self.pc + 2 < self.code.len() {
            Ok(be_u16(self.code.skip(self.pc + 1)))
        } else {
            Err(Error::CodeOutOfRange)
        }
    }

    /// The frame with its program counter moved on by `n`.
    pub open spec fn advance(self, n: usize) -> FrameView {
        FrameView { pc: (self.pc + n) as usize, ..self }
    }
}

/// Whether a change to a frame behaved as `expected`: on success the frame
/// is the expected one, on failure the expected error came back and the frame
/// is as it was.
pub open spec fn frame_as(
    expected: Result<FrameView, Error>,
    got: Result<(), Error>,
    before: FrameView,
    after: FrameView,
) -> bool {
    match expected {
        Ok(f) => got is Ok && after == f,
        Err(e) => got == Err::<(), Error>(e) && after == before,
    }
}

impl StackFrame {
    /// Pushes `value` onto the operand stack. Fails with `StackOverflow`
    /// where the stack is as deep as it may get.
    pub fn push(&mut self, value: DataType) -> (res: Result<(), Error>)
        ensures
            frame_as(old(self)@.push(value), res, old(self)@, final(self)@),
    {
        if self.op_stack.len() >= self.max_stack as usize {
            return Err(Error::StackOverflow);
        }
        self.op_stack.push(value);
        Ok(())
    }

    /// Takes the top off the operand stack. Fails with `StackUnderflow`
    /// where the stack is empty.
    pub fn pop(&mut self) -> (res: Result<DataType, Error>)
        ensures
            match old(self)@.pop() {
                Ok((f, v)) => res == Ok::<DataType, Error>(v) && final(self)@ == f,
                Err(e) => res == Err::<DataType, Error>(e) && final(self)@ == old(self)@,
            },
    {
        match self.op_stack.pop() {
            Some(value) => Ok(value),
            None => Err(Error::StackUnderflow),
        }
    }

    /// Takes an integer off the top of the operand stack. Fails with
    /// `StackUnderflow` where the stack is empty and with `TypeMismatch`
    /// where its top is no integer; the stack is then as it was.
    pub fn pop_int(&mut self) -> (res: Result<i32, Error>)
        ensures
            match old(self)@.pop_int() {
                Ok((f, v)) => res == Ok::<i32, Error>(v) && final(self)@ == f,
                Err(e) => res == Err::<i32, Error>(e) && final(self)@ == old(self)@,
            },
    {
        let depth = self.op_stack.len();
        if depth == 0 {
            return Err(Error::StackUnderflow);
        }
        match self.op_stack[depth - 1] {
            DataType::Int(value) => {
                self.op_stack.pop();
                Ok(value)
            },
            _ => Err(Error::TypeMismatch),
        }
    }

    /// What the local variable `n` holds.
    pub fn local(&self, n: usize) -> (res: Result<DataType, Error>)
        ensures
            res == self@.local(n),
    {
        if n < self.variables.len() {
            Ok(self.variables[n])
        } else {
            Err(Error::LocalOutOfRange)
        }
    }

    /// Stores `value` in the local variable `n`.
    pub fn store(&mut self, n: usize, value: DataType) -> (res: Result<(), Error>)
        ensures
            frame_as(old(self)@.store(n, value), res, old(self)@, final(self)@),
    {
        if n < self.variables.len() {
            self.variables[n] = value;
            Ok(())
        } else {
            Err(Error::LocalOutOfRange)
        }
    }

    /// The byte that follows the instruction at the program counter.
    pub fn operand_u8(&self) -> (res: Result<u8, Error>)
        ensures
            res == self@.operand_u8(),
    {
        let len = self.code.len();
        if self.pc < len && len - self.pc > 1 {
            Ok(self.code[self.pc + 1])
        } else {
            Err(Error::CodeOutOfRange)
        }
    }

    /// The two bytes that follow the instruction at the program counter, as
    /// one big-endian value.
    pub fn operand_u16(&self) -> (res: Result<u16, Error>)
        ensures
            res == self@.operand_u16(),
    {
        let len = self.code.len();
        if self.pc < len && len - self.pc > 2 {
            let hi = self.code[self.pc + 1] as u16;
            let lo = self.code[self.pc + 2] as u16;
            Ok(hi * 0x100 + lo)
        } else {
            Err(Error::CodeOutOfRange)
        }
    }
}

} // verus!
