//! The instruction set: what each opcode does to a frame, to the heap and to
//! the machine.
//!
//! Operands sit on the operand stack with the top on the right. Integer
//! arithmetic wraps in two's complement. An instruction that fails leaves the
//! machine in a state about which nothing is said, except that no class is
//! lost and no class becomes uninitialised again.

use crate::bytes::signed8;
use crate::class_file::find_member;
use crate::class_file::init_method;
use crate::descriptors::parse_field_descriptor;
use crate::descriptors::parse_method;
use crate::descriptors::FieldType;
use crate::descriptors::FieldTypeView;
use crate::descriptors::MethodDescriptor;
use crate::error::Error;
use crate::flags::MethodAccessFlags;
use crate::machine::class_index;
use crate::machine::classes_kept;
use crate::machine::find_class;
use crate::machine::Class;
use crate::machine::ClassView;
use crate::machine::Jvm;
use crate::machine::MachineView;
use crate::raw::get_field_ref;
use crate::raw::get_method_ref;
use crate::raw::pool_field_ref;
use crate::raw::pool_method_ref;
use crate::resolved::views;
use crate::types::frame_for;
use crate::types::DataType;
use crate::types::FrameView;
use crate::types::StackFrame;
use vstd::prelude::*;

verus! {

/// `nop`
pub const NOP: u8 = 0x00;

/// `aconst_null`
pub const ACONST_NULL: u8 = 0x01;

/// `iconst_m1`, the first of the seven `iconst` instructions
pub const ICONST_M1: u8 = 0x02;

/// `iconst_0`
pub const ICONST_0: u8 = 0x03;

/// `iconst_5`, the last of the seven `iconst` instructions
pub const ICONST_5: u8 = 0x08;

/// `fconst_0`, the first of the three `fconst` instructions
pub const FCONST_0: u8 = 0x0b;

/// `fconst_1`
pub const FCONST_1: u8 = 0x0c;

/// `fconst_2`, the last of the three `fconst` instructions
pub const FCONST_2: u8 = 0x0d;

/// `bipush`
pub const BIPUSH: u8 = 0x10;

/// `iload`
pub const ILOAD: u8 = 0x15;

/// `fload`
pub const FLOAD: u8 = 0x17;

/// `aload`
pub const ALOAD: u8 = 0x19;

/// `iload_0`
pub const ILOAD_0: u8 = 0x1a;

/// `iload_3`
pub const ILOAD_3: u8 = 0x1d;

/// `fload_0`
pub const FLOAD_0: u8 = 0x22;

/// `fload_3`
pub const FLOAD_3: u8 = 0x25;

/// `aload_0`
pub const ALOAD_0: u8 = 0x2a;

/// `aload_3`
pub const ALOAD_3: u8 = 0x2d;

/// `iaload`
pub const IALOAD: u8 = 0x2e;

/// `faload`
pub const FALOAD: u8 = 0x30;

/// `aaload`
pub const AALOAD: u8 = 0x32;

/// `baload`
pub const BALOAD: u8 = 0x33;

/// `istore`
pub const ISTORE: u8 = 0x36;

/// `fstore`
pub const FSTORE: u8 = 0x38;

/// `astore`
pub const ASTORE: u8 = 0x3a;

/// `istore_0`
pub const ISTORE_0: u8 = 0x3b;

/// `istore_3`
pub const ISTORE_3: u8 = 0x3e;

/// `fstore_0`
pub const FSTORE_0: u8 = 0x43;

/// `fstore_3`
pub const FSTORE_3: u8 = 0x46;

/// `astore_0`
pub const ASTORE_0: u8 = 0x4b;

/// `astore_3`
pub const ASTORE_3: u8 = 0x4e;

/// `iastore`
pub const IASTORE: u8 = 0x4f;

/// `fastore`
pub const FASTORE: u8 = 0x51;

/// `aastore`
pub const AASTORE: u8 = 0x53;

/// `bastore`
pub const BASTORE: u8 = 0x54;

/// `pop`
pub const POP: u8 = 0x57;

/// `dup`
pub const DUP: u8 = 0x59;

/// `iadd`
pub const IADD: u8 = 0x60;

/// `isub`
pub const ISUB: u8 = 0x64;

/// `imul`
pub const IMUL: u8 = 0x68;

/// `idiv`
pub const IDIV: u8 = 0x6c;

/// `ineg`
pub const INEG: u8 = 0x74;

/// `iand`
pub const IAND: u8 = 0x7e;

/// `ior`
pub const IOR: u8 = 0x80;

/// `jsr`
pub const JSR: u8 = 0xa8;

/// `ret`
pub const RET: u8 = 0xa9;

/// `ireturn`
pub const IRETURN: u8 = 0xac;

/// `return`
pub const RETURN: u8 = 0xb1;

/// `getstatic`
pub const GETSTATIC: u8 = 0xb2;

/// `invokestatic`
pub const INVOKESTATIC: u8 = 0xb8;

/// `newarray`
pub const NEWARRAY: u8 = 0xbc;

/// `monitorenter`
pub const MONITORENTER: u8 = 0xc2;

/// `monitorexit`
pub const MONITOREXIT: u8 = 0xc3;

/// `jsr_w`
pub const JSR_W: u8 = 0xc9;

/// `breakpoint`, the first opcode that no class file may hold
pub const BREAKPOINT: u8 = 0xca;

/// The bit pattern of the single-precision constant that `fconst_0`,
/// `fconst_1` or `fconst_2` pushes: 0.0, 1.0 or 2.0.
pub open spec fn float_constant(op: u8) -> u32 {
    if op == FCONST_0 {
        0
    } else if op == FCONST_2 {
        0x4000_0000
    } else {
        0x3f80_0000
    }
}

/// Whether `op` is one of the six integer instructions that take two
/// operands.
pub open spec fn is_int_binary(op: u8) -> bool {
    op == IADD || op == ISUB || op == IMUL || op == IDIV || op == IAND || op == IOR
}

/// The quotient of `a` by `b`, rounded towards zero. The one quotient that
/// does not fit, that of the least integer by -1, wraps to the least integer.
pub open spec fn wrapping_quotient(a: i32, b: i32) -> i32 {
    match a.checked_div(b) {
        Some(q) => q,
        None => i32::MIN,
    }
}

/// What an integer instruction with two operands computes from `a`, the
/// deeper operand, and `b`, the one on top: `a + b`, `a - b`, `a * b`,
/// `a / b`, `a & b` or `a | b`. Division by zero is an error.
pub open spec fn int_binary(op: u8, a: i32, b: i32) -> Result<i32, Error> {
    if op == IADD {
        Ok(a.wrapping_add(b))
    } else if op == ISUB {
        Ok(a.wrapping_sub(b))
    } else if op == IMUL {
        Ok(a.wrapping_mul(b))
    } else if op == IDIV {
        if b == 0 {
            Err(Error::DivisionByZero)
        } else {
            Ok(wrapping_quotient(a, b))
        }
    } else if op == IAND {
        Ok(a & b)
    } else {
        Ok(a | b)
    }
}

/// The frame after `value` is pushed and the program counter has moved on by
/// `width`.
pub open spec fn push_next(f: FrameView, value: DataType, width: usize) -> Result<FrameView, Error> {
    match f.push(value) {
        Ok(g) => Ok(g.advance(width)),
        Err(e) => Err(e),
    }
}

/// The frame after the local variable `n` is pushed and the program counter
/// has moved on by `width`.
pub open spec fn load_next(f: FrameView, n: usize, width: usize) -> Result<FrameView, Error> {
    match f.local(n) {
        Ok(value) => push_next(f, value, width),
        Err(e) => Err(e),
    }
}

/// The frame after the top of the operand stack is taken off and stored in
/// the local variable `n`, and the program counter has moved on by `width`.
pub open spec fn store_next(f: FrameView, n: usize, width: usize) -> Result<FrameView, Error> {
    match f.pop() {
        Err(e) => Err(e),
        Ok((g, value)) => match g.store(n, value) {
            Ok(h) => Ok(h.advance(width)),
            Err(e) => Err(e),
        },
    }
}

/// Whether `op` is an instruction that touches nothing but the frame it
/// runs in: constants, loads and stores of locals, `pop` and `dup`, integer
/// arithmetic, and the instructions that do nothing.
pub open spec fn is_frame_op(op: u8) -> bool {
    ||| op == NOP
    ||| op == ACONST_NULL
    ||| ICONST_M1 <= op <= ICONST_5
    ||| FCONST_0 <= op <= FCONST_2
    ||| op == BIPUSH
    ||| op == ILOAD
    ||| op == FLOAD
    ||| op == ALOAD
    ||| ILOAD_0 <= op <= ILOAD_3
    ||| FLOAD_0 <= op <= FLOAD_3
    ||| ALOAD_0 <= op <= ALOAD_3
    ||| op == ISTORE
    ||| op == FSTORE
    ||| op == ASTORE
    ||| ISTORE_0 <= op <= ISTORE_3
    ||| FSTORE_0 <= op <= FSTORE_3
    ||| ASTORE_0 <= op <= ASTORE_3
    ||| op == POP
    ||| op == DUP
    ||| is_int_binary(op)
    ||| op == INEG
    ||| op == MONITORENTER
    ||| op == MONITOREXIT
}

/// The frame after the instruction `op`, which touches nothing but the
/// frame, has run in it.
///
/// - `nop`, `monitorenter`, `monitorexit`: nothing but the program counter
///   changes.
/// - `aconst_null` pushes null, `iconst_<i>` the integer `i`, `fconst_<f>`
///   the single `f`, `bipush` its operand byte, sign-extended.
/// - `iload`, `fload`, `aload` and their short forms push a local variable;
///   `istore`, `fstore`, `astore` and their short forms take the top of the
///   stack into one.
/// - `pop` discards the top of the stack, `dup` pushes it a second time.
/// - `iadd`, `isub`, `imul`, `idiv`, `iand`, `ior` replace the two integers
///   on top by the result of [`int_binary`]; `ineg` replaces the integer on
///   top by its negative.
pub open spec fn frame_step(f: FrameView, op: u8) -> Result<FrameView, Error> {
    if f.pc >= f.code.len() {
        Err(Error::CodeOutOfRange)
    } else if op == NOP || op == MONITORENTER || op == MONITOREXIT {
        Ok(f.advance(1))
    } else if op == ACONST_NULL {
        push_next(f, DataType::Null, 1)
    } else if ICONST_M1 <= op <= ICONST_5 {
        push_next(f, DataType::Int((op - ICONST_0) as i32), 1)
    } else if FCONST_0 <= op <= FCONST_2 {
        push_next(f, DataType::Float(float_constant(op)), 1)
    } else if op == BIPUSH {
        match f.operand_u8() {
            Err(e) => Err(e),
            Ok(byte) => push_next(f, DataType::Int(signed8(byte) as i32), 2),
        }
    } else if op == ILOAD || op == FLOAD || op == ALOAD {
        match f.operand_u8() {
            Err(e) => Err(e),
            Ok(n) => load_next(f, n as usize, 2),
        }
    } else if ILOAD_0 <= op <= ILOAD_3 {
        load_next(f, (op - ILOAD_0) as usize, 1)
    } else if FLOAD_0 <= op <= FLOAD_3 {
        load_next(f, (op - FLOAD_0) as usize, 1)
    } else if ALOAD_0 <= op <= ALOAD_3 {
        load_next(f, (op - ALOAD_0) as usize, 1)
    } else if op == ISTORE || op == FSTORE || op == ASTORE {
        match f.operand_u8() {
            Err(e) => Err(e),
            Ok(n) => store_next(f, n as usize, 2),
        }
    } else if ISTORE_0 <= op <= ISTORE_3 {
        store_next(f, (op - ISTORE_0) as usize, 1)
    } else if FSTORE_0 <= op <= FSTORE_3 {
        store_next(f, (op - FSTORE_0) as usize, 1)
    } else if ASTORE_0 <= op <= ASTORE_3 {
        store_next(f, (op - ASTORE_0) as usize, 1)
    } else if op == POP {
        match f.pop() {
            Err(e) => Err(e),
            Ok((g, _)) => Ok(g.advance(1)),
        }
    } else if op == DUP {
        match f.pop() {
            Err(e) => Err(e),
            Ok((_, top)) => push_next(f, top, 1),
        }
    } else if is_int_binary(op) {
        match f.pop_int() {
            Err(e) => Err(e),
            Ok((g, b)) => match g.pop_int() {
                Err(e) => Err(e),
                Ok((h, a)) => match int_binary(op, a, b) {
                    Err(e) => Err(e),
                    Ok(value) => push_next(h, DataType::Int(value), 1),
                },
            },
        }
    } else if op == INEG {
        match f.pop_int() {
            Err(e) => Err(e),
            Ok((g, a)) => push_next(g, DataType::Int(0i32.wrapping_sub(a)), 1),
        }
    } else {
        Err(Error::UnimplementedOpcode(op))
    }
}

/// Whether an instruction that was expected to leave a frame as `expected`
/// did so. Of the frame after a failure nothing is said.
pub open spec fn stepped_as(
    expected: Result<FrameView, Error>,
    got: Result<(), Error>,
    after: FrameView,
) -> bool {
    match expected {
        Ok(f) => got is Ok && after == f,
        Err(e) => got == Err::<(), Error>(e),
    }
}

impl StackFrame {
    /// Moves the program counter on by `width`.
    fn advance(&mut self, width: usize)
        requires
            old(self).pc + width <= usize::MAX,
        ensures
            final(self)@ == old(self)@.advance(width),
    {
        self.pc = self.pc + width;
    }

    /// Pushes `value` and moves the program counter on by `width`.
    fn push_next(&mut self, value: DataType, width: usize) -> (res: Result<(), Error>)
        requires
            old(self).pc + width <= usize::MAX,
        ensures
            stepped_as(push_next(old(self)@, value, width), res, final(self)@),
    {
        self.push(value)?;
        self.advance(width);
        Ok(())
    }

    /// Pushes the local variable `n` and moves the program counter on by
    /// `width`.
    fn load_next(&mut self, n: usize, width: usize) -> (res: Result<(), Error>)
        requires
            old(self).pc + width <= usize::MAX,
        ensures
            stepped_as(load_next(old(self)@, n, width), res, final(self)@),
    {
        let value = self.local(n)?;
        self.push_next(value, width)
    }

    /// Takes the top of the operand stack into the local variable `n` and
    /// moves the program counter on by `width`.
    fn store_next(&mut self, n: usize, width: usize) -> (res: Result<(), Error>)
        requires
            old(self).pc + width <= usize::MAX,
        ensures
            stepped_as(store_next(old(self)@, n, width), res, final(self)@),
    {
        let value = self.pop()?;
        self.store(n, value)?;
        self.advance(width);
        Ok(())
    }

    /// Runs the instruction `op`, which touches nothing but the frame, in
    /// this frame. An instruction of another kind is reported as
    /// unimplemented.
    pub fn step(&mut self, op: u8) -> (res: Result<(), Error>)
        ensures
            stepped_as(frame_step(old(self)@, op), res, final(self)@),
    {
        if self.pc >= self.code.len() {
            return Err(Error::CodeOutOfRange);
        }
        match op {
            NOP | MONITORENTER | MONITOREXIT => {
                self.advance(1);
                Ok(())
            },
            ACONST_NULL => self.push_next(DataType::Null, 1),
            ICONST_M1..=ICONST_5 => {
                let value: i32 = op as i32 - ICONST_0 as i32;
                self.push_next(DataType::Int(value), 1)
            },
            FCONST_0 => self.push_next(DataType::Float(0), 1),
            FCONST_1 => self.push_next(DataType::Float(0x3f80_0000), 1),
            FCONST_2 => self.push_next(DataType::Float(0x4000_0000), 1),
            BIPUSH => {
                let byte = self.operand_u8()?;
                let value: i32 = if byte >= 0x80 {
                    byte as i32 - 0x100
                } else {
                    byte as i32
                };
                self.push_next(DataType::Int(value), 2)
            },
            ILOAD | FLOAD | ALOAD => {
                let n = self.operand_u8()?;
                self.load_next(n as usize, 2)
            },
            ILOAD_0..=ILOAD_3 => self.load_next((op - ILOAD_0) as usize, 1),
            FLOAD_0..=FLOAD_3 => self.load_next((op - FLOAD_0) as usize, 1),
            ALOAD_0..=ALOAD_3 => self.load_next((op - ALOAD_0) as usize, 1),
            ISTORE | FSTORE | ASTORE => {
                let n = self.operand_u8()?;
                self.store_next(n as usize, 2)
            },
            ISTORE_0..=ISTORE_3 => self.store_next((op - ISTORE_0) as usize, 1),
            FSTORE_0..=FSTORE_3 => self.store_next((op - FSTORE_0) as usize, 1),
            ASTORE_0..=ASTORE_3 => self.store_next((op - ASTORE_0) as usize, 1),
            POP => {
                self.pop()?;
                self.advance(1);
                Ok(())
            },
            DUP => {
                let depth = self.op_stack.len();
                if depth == 0 {
                    return Err(Error::StackUnderflow);
                }
                let top = self.op_stack[depth - 1];
                self.push_next(top, 1)
            },
            IADD | ISUB | IMUL | IDIV | IAND | IOR => {
                let b = self.pop_int()?;
                let a = self.pop_int()?;
                let value = match op {
                    IADD => a.wrapping_add(b),
                    ISUB => a.wrapping_sub(b),
                    IMUL => a.wrapping_mul(b),
                    IDIV => {
                        if b == 0 {
                            return Err(Error::DivisionByZero);
                        }
                        match a.checked_div(b) {
                            Some(q) => q,
                            None => i32::MIN,
                        }
                    },
                    IAND => a & b,
                    _ => a | b,
                };
                self.push_next(DataType::Int(value), 1)
            },
            INEG => {
                let a = self.pop_int()?;
                self.push_next(DataType::Int(0i32.wrapping_sub(a)), 1)
            },
            _ => Err(Error::UnimplementedOpcode(op)),
        }
    }
}

/// Whether `op` is one of the four instructions that load an element of an
/// array.
pub open spec fn is_array_load(op: u8) -> bool {
    op == IALOAD || op == FALOAD || op == AALOAD || op == BALOAD
}

/// Whether `op` is one of the four instructions that store an element of an
/// array.
pub open spec fn is_array_store(op: u8) -> bool {
    op == IASTORE || op == FASTORE || op == AASTORE || op == BASTORE
}

/// Whether the array store instruction `op` takes `value`: `iastore` and
/// `bastore` take integers, `fastore` takes singles, `aastore` takes
/// anything.
pub open spec fn store_takes(op: u8, value: DataType) -> bool {
    if op == IASTORE || op == BASTORE {
        value is Int
    } else if op == FASTORE {
        value is Float
    } else {
        true
    }
}

/// Whether `op` is an instruction that the machine refuses for good: the
/// subroutine instructions `jsr`, `ret` and `jsr_w`, and everything from
/// `breakpoint` up, which no class file may hold.
pub open spec fn is_unsupported(op: u8) -> bool {
    op == JSR || op == RET || op == JSR_W || op >= BREAKPOINT
}

/// The machine after an array load: an integer index and an array reference
/// are taken off the stack, and the element, widened to its computation
/// type, is pushed.
pub open spec fn array_load(m: MachineView) -> Result<MachineView, Error> {
    match m.top().pop_int() {
        Err(e) => Err(e),
        Ok((g, at)) => match g.pop() {
            Err(e) => Err(e),
            Ok((h, DataType::ArrayReference(index))) => match m.heap.load(index, at) {
                Err(e) => Err(e),
                Ok(value) => match push_next(h, value.computation_type(), 1) {
                    Err(e) => Err(e),
                    Ok(k) => Ok(m.with_top(k)),
                },
            },
            Ok((_, DataType::Null)) => Err(Error::NullReference),
            Ok(_) => Err(Error::TypeMismatch),
        },
    }
}

/// The machine after the array store `op`: a value, an integer index and an
/// array reference are taken off the stack, and the value is stored in the
/// array, cut down to the element type where the array holds booleans or
/// bytes.
pub open spec fn array_store(m: MachineView, op: u8) -> Result<MachineView, Error> {
    match m.top().pop() {
        Err(e) => Err(e),
        Ok((g, value)) => if !store_takes(op, value) {
            Err(Error::TypeMismatch)
        } else {
            match g.pop_int() {
                Err(e) => Err(e),
                Ok((h, at)) => match h.pop() {
                    Err(e) => Err(e),
                    Ok((k, DataType::ArrayReference(index))) => match m.heap.store(
                        index,
                        at,
                        value,
                    ) {
                        Err(e) => Err(e),
                        Ok(heap) => Ok(MachineView { heap, ..m.with_top(k.advance(1)) }),
                    },
                    Ok((_, DataType::Null)) => Err(Error::NullReference),
                    Ok(_) => Err(Error::TypeMismatch),
                },
            }
        },
    }
}

/// The machine after `newarray`: the operand byte is the element type code,
/// an integer length is taken off the stack, a zeroed array is put on the
/// heap and a reference to it is pushed.
pub open spec fn new_array(m: MachineView) -> Result<MachineView, Error> {
    match m.top().operand_u8() {
        Err(e) => Err(e),
        Ok(atype) => match m.top().pop_int() {
            Err(e) => Err(e),
            Ok((g, size)) => if size < 0 {
                Err(Error::NegativeArraySize)
            } else {
                match m.heap.create_array(atype, size as usize) {
                    Err(e) => Err(e),
                    Ok((heap, index)) => match push_next(g, DataType::ArrayReference(index), 2) {
                        Err(e) => Err(e),
                        Ok(h) => Ok(MachineView { heap, ..m.with_top(h) }),
                    },
                }
            },
        },
    }
}

/// The method that a call names: the position of its class in the class
/// table, the frame in which it begins, and the number of its parameters.
pub struct CallTarget {
    pub class: usize,
    pub frame: FrameView,
    pub arity: nat,
}

/// The method that the constant pool index `index` of the class at `class`
/// names.
///
/// The index must name a MethodRef or InterfaceMethodRef. The class it names
/// must be loaded and have a method of that name and descriptor; a native
/// method cannot be called.
pub open spec fn call_target(classes: Seq<ClassView>, class: usize, index: u16) -> Result<
    CallTarget,
    Error,
> {
    if class >= classes.len() {
        Err(Error::ClassNotFound)
    } else {
        match pool_method_ref(classes[class as int].file.constant_pool, index as usize) {
            Err(e) => Err(e),
            Ok(target) => match find_class(classes, target.class_name) {
                None => Err(Error::ClassNotFound),
                Some(t) => match find_member(
                    classes[t as int].file.constant_pool,
                    classes[t as int].file.methods,
                    target.name,
                    target.descriptor,
                ) {
                    None => Err(Error::MethodNotFound),
                    Some(method) => if method.access_flags & MethodAccessFlags::NATIVE != 0 {
                        Err(Error::NativeMethod)
                    } else {
                        match frame_for(t, method) {
                            Err(e) => Err(e),
                            Ok(frame) => match parse_method(method.descriptor) {
                                Err(e) => Err(e),
                                Ok(d) => Ok(CallTarget { class: t, frame, arity: d.params.len() }),
                            },
                        }
                    },
                },
            },
        }
    }
}

/// The machine after a call of `target` from its top frame: as many operands
/// as the method has parameters are taken off the stack and become the first
/// locals of the new frame, in the order in which they were pushed; the
/// program counter of the caller moves past the three bytes of the
/// instruction; and the new frame is put on top.
pub open spec fn enter(m: MachineView, target: CallTarget) -> Result<MachineView, Error> {
    let f = m.top();
    if f.op_stack.len() < target.arity {
        Err(Error::StackUnderflow)
    } else if target.frame.variables.len() < target.arity {
        Err(Error::LocalOutOfRange)
    } else {
        let kept = f.op_stack.len() - target.arity;
        let caller = FrameView { op_stack: f.op_stack.take(kept), ..f.advance(3) };
        let callee = FrameView {
            variables: f.op_stack.skip(kept) + target.frame.variables.skip(target.arity as int),
            ..target.frame
        };
        Ok(MachineView { stack: m.with_top(caller).stack.push(callee), ..m })
    }
}

/// The machine after `invokestatic`: the two operand bytes name the method.
/// Where the class of the method is not yet initialised, its initialisation
/// begins and the instruction is left to run again; where it is, the method
/// is entered as [`enter`] says.
pub open spec fn invoke_static(m: MachineView) -> Result<MachineView, Error> {
    match m.top().operand_u16() {
        Err(e) => Err(e),
        Ok(index) => match call_target(m.classes, m.top().class, index) {
            Err(e) => Err(e),
            Ok(target) => if !m.classes[target.class as int].initialised {
                begin_init(m, target.class)
            } else {
                enter(m, target)
            },
        },
    }
}

/// The machine after `ireturn`: the value on top of the stack is taken off,
/// the frame is taken off the call stack, and the value is pushed onto the
/// stack of the caller. Where there is no caller, the value is what the
/// machine has returned.
pub open spec fn return_value(m: MachineView) -> Result<MachineView, Error> {
    match m.top().pop() {
        Err(e) => Err(e),
        Ok((_, value)) => {
            let rest = m.stack.drop_last();
            if rest.len() == 0 {
                Ok(MachineView { stack: rest, returned: Some(value), ..m })
            } else {
                match rest.last().push(value) {
                    Err(e) => Err(e),
                    Ok(caller) => Ok(
                        MachineView { stack: rest.update(rest.len() - 1, caller), ..m },
                    ),
                }
            }
        },
    }
}

/// The machine after `return`, or after the top frame has run off the end of
/// its bytecode: the frame is taken off the call stack. Where there is no
/// caller, the machine has returned nothing.
pub open spec fn return_void(m: MachineView) -> MachineView {
    let rest = m.stack.drop_last();
    MachineView {
        stack: rest,
        returned: if rest.len() == 0 {
            None
        } else {
            m.returned
        },
        ..m
    }
}

/// The value that a static field of the type `t` holds: zero for numbers,
/// null for references. Nothing ever stores into a static field, so this is
/// what every static field holds.
pub open spec fn default_value(t: FieldTypeView) -> DataType {
    match t {
        FieldTypeView::Float => DataType::Float(0),
        FieldTypeView::Long => DataType::Long(0),
        FieldTypeView::Double => DataType::Double(0),
        FieldTypeView::ObjReference(_) => DataType::Null,
        FieldTypeView::ArrReference(_) => DataType::Null,
        _ => DataType::Int(0),
    }
}

/// The class that holds the static field which the constant pool index
/// `index` of the class at `class` names, and the value of the field.
pub open spec fn static_target(classes: Seq<ClassView>, class: usize, index: u16) -> Result<
    (usize, DataType),
    Error,
> {
    if class >= classes.len() {
        Err(Error::ClassNotFound)
    } else {
        match pool_field_ref(classes[class as int].file.constant_pool, index as usize) {
            Err(e) => Err(e),
            Ok(target) => match find_class(classes, target.class_name) {
                None => Err(Error::ClassNotFound),
                Some(t) => match parse_field_descriptor(target.descriptor) {
                    Err(e) => Err(e),
                    Ok(field_type) => Ok((t, default_value(field_type))),
                },
            },
        }
    }
}

/// The frame in which the initialiser of the class at `class` begins, or
/// `None` where the class has no initialiser.
pub open spec fn init_frame(classes: Seq<ClassView>, class: usize) -> Result<
    Option<FrameView>,
    Error,
> {
    match init_method(classes[class as int].file) {
        None => Ok(None),
        Some(method) => match frame_for(class, method) {
            Ok(frame) => Ok(Some(frame)),
            Err(e) => Err(e),
        },
    }
}

/// The class table with the class at `class` marked as initialised.
pub open spec fn mark_initialised(classes: Seq<ClassView>, class: usize) -> Seq<ClassView> {
    classes.update(class as int, ClassView { initialised: true, ..classes[class as int] })
}

/// The machine after the initialisation of the class at `class` has begun:
/// the class is marked as initialised, and the frame of its initialiser, if
/// it has one, is on top of the call stack.
pub open spec fn begin_init(m: MachineView, class: usize) -> Result<MachineView, Error> {
    match init_frame(m.classes, class) {
        Err(e) => Err(e),
        Ok(None) => Ok(MachineView { classes: mark_initialised(m.classes, class), ..m }),
        Ok(Some(frame)) => Ok(
            MachineView {
                classes: mark_initialised(m.classes, class),
                stack: m.stack.push(frame),
                ..m
            },
        ),
    }
}

/// The machine after `getstatic`: the two operand bytes name the field.
/// Where the class of the field is not yet initialised, its initialisation
/// begins and the instruction is left to run again; where it is, the value
/// of the field is pushed.
pub open spec fn get_static(m: MachineView) -> Result<MachineView, Error> {
    let f = m.top();
    match f.operand_u16() {
        Err(e) => Err(e),
        Ok(index) => match static_target(m.classes, f.class, index) {
            Err(e) => Err(e),
            Ok((class, value)) => if !m.classes[class as int].initialised {
                begin_init(m, class)
            } else {
                match push_next(f, value, 3) {
                    Err(e) => Err(e),
                    Ok(g) => Ok(m.with_top(g)),
                }
            },
        },
    }
}

/// The machine after the instruction `op` has run in its top frame.
///
/// An instruction that touches nothing but the frame does what
/// [`frame_step`] says. The array instructions, `invokestatic`, `ireturn`,
/// `return` and `getstatic` do what [`array_load`], [`array_store`],
/// [`new_array`], [`invoke_static`], [`return_value`], [`return_void`] and
/// [`get_static`] say. Every other instruction is an error:
/// `UnsupportedOpcode` for those that the machine refuses for good,
/// `UnimplementedOpcode` for the rest.
pub open spec fn exec_instruction(m: MachineView, op: u8) -> Result<MachineView, Error> {
    if m.stack.len() == 0 {
        Err(Error::NoActiveFrame)
    } else if m.top().pc >= m.top().code.len() {
        Err(Error::CodeOutOfRange)
    } else if is_frame_op(op) {
        match frame_step(m.top(), op) {
            Ok(f) => Ok(m.with_top(f)),
            Err(e) => Err(e),
        }
    } else if is_array_load(op) {
        array_load(m)
    } else if is_array_store(op) {
        array_store(m, op)
    } else if op == NEWARRAY {
        new_array(m)
    } else if op == INVOKESTATIC {
        invoke_static(m)
    } else if op == IRETURN {
        return_value(m)
    } else if op == RETURN {
        Ok(return_void(m))
    } else if op == GETSTATIC {
        get_static(m)
    } else if is_unsupported(op) {
        Err(Error::UnsupportedOpcode(op))
    } else {
        Err(Error::UnimplementedOpcode(op))
    }
}

/// Whether a step that was expected to leave the machine as `expected` did
/// so. Of the machine after a failure nothing is said here.
pub open spec fn machine_as(
    expected: Result<MachineView, Error>,
    got: Result<(), Error>,
    after: MachineView,
) -> bool {
    match expected {
        Ok(m) => got is Ok && after == m,
        Err(e) => got == Err::<(), Error>(e),
    }
}

/// The value that a static field of the type `t` holds.
fn default_of(t: &FieldType) -> (value: DataType)
    ensures
        value == default_value(t@),
{
    match t {
        FieldType::Float => DataType::Float(0),
        FieldType::Long => DataType::Long(0),
        FieldType::Double => DataType::Double(0),
        FieldType::ObjReference(_) => DataType::Null,
        FieldType::ArrReference(_) => DataType::Null,
        _ => DataType::Int(0),
    }
}

/// The method that the constant pool index `index` of the class at `class`
/// names: the position of its class in the class table, the frame in which
/// it begins, and the number of its parameters.
pub fn prepare_call(classes: &Vec<Class>, class: usize, index: u16) -> (res: Result<
    (usize, StackFrame, usize),
    Error,
>)
    ensures
        match call_target(views(classes@), class, index) {
            Ok(target) => res matches Ok((t, frame, arity)) && t == target.class && t
                < classes.len() && frame@ == target.frame && arity == target.arity,
            Err(e) => res matches Err(g) && g == e,
        },
{
    if class >= classes.len() {
        return Err(Error::ClassNotFound);
    }
    let ghost all = views(classes@);
    assert(all[class as int] == classes@[class as int]@);
    let pool = classes[class].file.constant_pool.as_slice();
    let (class_name, name, descriptor) = get_method_ref(pool, index as usize)?;
    let t = match class_index(classes, class_name) {
        Some(t) => t,
        None => {
            return Err(Error::ClassNotFound);
        },
    };
    assert(all[t as int] == classes@[t as int]@);
    let method = match classes[t].file.find_method(name, descriptor) {
        Some(method) => method,
        None => {
            return Err(Error::MethodNotFound);
        },
    };
    if method.access_flags.intersects(MethodAccessFlags::NATIVE) {
        return match Jvm::handle_native_method(class_name, &method) {
            Err(e) => Err(e),
            Ok(_) => Err(Error::NativeMethod),
        };
    }
    let frame = StackFrame::for_method(t, &method)?;
    let descriptor = MethodDescriptor::from_str(method.descriptor)?;
    Ok((t, frame, descriptor.params.len()))
}

/// The class that holds the static field which the constant pool index
/// `index` of the class at `class` names, and the value of the field.
pub fn static_value(classes: &Vec<Class>, class: usize, index: u16) -> (res: Result<
    (usize, DataType),
    Error,
>)
    ensures
        res == static_target(views(classes@), class, index),
        res matches Ok((t, _)) ==> t < classes.len(),
{
    if class >= classes.len() {
        return Err(Error::ClassNotFound);
    }
    let ghost all = views(classes@);
    assert(all[class as int] == classes@[class as int]@);
    let pool = classes[class].file.constant_pool.as_slice();
    let (class_name, name, descriptor) = get_field_ref(pool, index as usize)?;
    let t = match class_index(classes, class_name) {
        Some(t) => t,
        None => {
            return Err(Error::ClassNotFound);
        },
    };
    let field_type = FieldType::from_str(descriptor)?;
    Ok((t, default_of(&field_type)))
}

/// The frame in which the initialiser of the class at `class` begins, or
/// `None` where the class has no initialiser.
fn initialiser_frame(classes: &Vec<Class>, class: usize) -> (res: Result<
    Option<StackFrame>,
    Error,
>)
    requires
        class < classes.len(),
    ensures
        match init_frame(views(classes@), class) {
            Ok(Some(frame)) => res matches Ok(Some(got)) && got@ == frame,
            Ok(None) => res matches Ok(None),
            Err(e) => res matches Err(g) && g == e,
        },
{
    let ghost all = views(classes@);
    assert(all[class as int] == classes@[class as int]@);
    match classes[class].file.find_init_method() {
        None => Ok(None),
        Some(method) => {
            let frame = StackFrame::for_method(class, &method)?;
            Ok(Some(frame))
        },
    }
}

/// Whether a step left alone what no step may touch: the classes, but for
/// their being initialised, and the number of steps that are left.
pub open spec fn step_keeps(before: MachineView, after: MachineView) -> bool {
    &&& classes_kept(before.classes, after.classes)
    &&& after.steps_left == before.steps_left
}

/// Whether the machine has a frame that can run an instruction.
pub open spec fn can_step(m: MachineView) -> bool {
    m.stack.len() > 0 && m.top().pc < m.top().code.len()
}

/// Runs an instruction that touches nothing but the top frame.
fn step_frame(jvm: &mut Jvm, op: u8) -> (res: Result<(), Error>)
    requires
        can_step(old(jvm)@),
    ensures
        step_keeps(old(jvm)@, final(jvm)@),
        match frame_step(old(jvm)@.top(), op) {
            Ok(f) => res is Ok && final(jvm)@ == old(jvm)@.with_top(f),
            Err(e) => res == Err::<(), Error>(e),
        },
{
    let k = jvm.stack.len() - 1;
    let ghost before = jvm@;
    assert(before.top() == jvm.stack@[k as int]@);
    let res = jvm.stack[k].step(op);
    assert(jvm@.stack =~= before.stack.update(k as int, jvm.stack@[k as int]@));
    res
}

/// Runs an array load.
fn step_array_load(jvm: &mut Jvm) -> (res: Result<(), Error>)
    requires
        can_step(old(jvm)@),
    ensures
        step_keeps(old(jvm)@, final(jvm)@),
        machine_as(array_load(old(jvm)@), res, final(jvm)@),
{
    let k = jvm.stack.len() - 1;
    let ghost before = jvm@;
    assert(before.top() == jvm.stack@[k as int]@);
    let at = jvm.stack[k].pop_int()?;
    let reference = jvm.stack[k].pop()?;
    match reference {
        DataType::ArrayReference(index) => {
            let value = jvm.heap.load(index, at)?;
            assert(jvm.stack@[k as int].pc < jvm.stack@[k as int].code.len());
            let res = jvm.stack[k].push_next(value.get_computation_type(), 1);
            assert(jvm@.stack =~= before.stack.update(k as int, jvm.stack@[k as int]@));
            res
        },
        DataType::Null => Err(Error::NullReference),
        _ => Err(Error::TypeMismatch),
    }
}

/// Runs the array store `op`.
fn step_array_store(jvm: &mut Jvm, op: u8) -> (res: Result<(), Error>)
    requires
        can_step(old(jvm)@),
        is_array_store(op),
    ensures
        step_keeps(old(jvm)@, final(jvm)@),
        machine_as(array_store(old(jvm)@, op), res, final(jvm)@),
{
    let k = jvm.stack.len() - 1;
    let ghost before = jvm@;
    assert(before.top() == jvm.stack@[k as int]@);
    let value = jvm.stack[k].pop()?;
    let taken = match op {
        IASTORE | BASTORE => match value {
            DataType::Int(_) => true,
            _ => false,
        },
        FASTORE => match value {
            DataType::Float(_) => true,
            _ => false,
        },
        _ => true,
    };
    if !taken {
        return Err(Error::TypeMismatch);
    }
    let at = jvm.stack[k].pop_int()?;
    let reference = jvm.stack[k].pop()?;
    match reference {
        DataType::ArrayReference(index) => {
            jvm.heap.store(index, at, value)?;
            assert(jvm.stack@[k as int].pc < jvm.stack@[k as int].code.len());
            jvm.stack[k].advance(1);
            assert(jvm@.stack =~= before.stack.update(k as int, jvm.stack@[k as int]@));
            Ok(())
        },
        DataType::Null => Err(Error::NullReference),
        _ => Err(Error::TypeMismatch),
    }
}

/// Runs `newarray`.
fn step_new_array(jvm: &mut Jvm) -> (res: Result<(), Error>)
    requires
        can_step(old(jvm)@),
    ensures
        step_keeps(old(jvm)@, final(jvm)@),
        machine_as(new_array(old(jvm)@), res, final(jvm)@),
{
    let k = jvm.stack.len() - 1;
    let ghost before = jvm@;
    assert(before.top() == jvm.stack@[k as int]@);
    let atype = jvm.stack[k].operand_u8()?;
    let size = jvm.stack[k].pop_int()?;
    if size < 0 {
        return Err(Error::NegativeArraySize);
    }
    let index = jvm.heap.create_array(atype, size as usize)?;
    assert(jvm.stack@[k as int].pc < jvm.stack@[k as int].code.len());
    let res = jvm.stack[k].push_next(DataType::ArrayReference(index), 2);
    assert(jvm@.stack =~= before.stack.update(k as int, jvm.stack@[k as int]@));
    res
}

/// Runs `invokestatic`.
fn step_invoke_static(jvm: &mut Jvm) -> (res: Result<(), Error>)
    requires
        can_step(old(jvm)@),
    ensures
        step_keeps(old(jvm)@, final(jvm)@),
        machine_as(invoke_static(old(jvm)@), res, final(jvm)@),
{
    let k = jvm.stack.len() - 1;
    let ghost before = jvm@;
    let ghost f = before.top();
    assert(f == jvm.stack@[k as int]@);
    let index = jvm.stack[k].operand_u16()?;
    let (class, mut callee, arity) = prepare_call(&jvm.classes, jvm.stack[k].class, index)?;
    assert(before.classes[class as int] == jvm.classes@[class as int]@);
    if !jvm.classes[class].initialised {
        return start_init(jvm, class);
    }
    let ghost fresh = callee@;
    let depth = jvm.stack[k].op_stack.len();
    if depth < arity {
        return Err(Error::StackUnderflow);
    }
    if callee.variables.len() < arity {
        return Err(Error::LocalOutOfRange);
    }
    let arguments = jvm.stack[k].op_stack.split_off(depth - arity);
    assert(jvm.stack@[k as int].pc < jvm.stack@[k as int].code.len());
    jvm.stack[k].advance(3);
    let mut i: usize = 0;
    assert(callee.variables@ =~= arguments@.take(0) + fresh.variables.skip(0));
    while i < arity
        invariant
            i <= arity,
            arguments.len() == arity,
            fresh.variables.len() >= arity,
            callee@ == (FrameView {
                variables: arguments@.take(i as int) + fresh.variables.skip(i as int),
                ..fresh
            }),
        decreases arity - i,
    {
        callee.variables[i] = arguments[i];
        i = i + 1;
        assert(callee.variables@ =~= arguments@.take(i as int) + fresh.variables.skip(i as int));
    }
    assert(arguments@.take(arity as int) =~= arguments@);
    jvm.stack.push(callee);
    proof {
        let kept = f.op_stack.len() - arity;
        let caller = FrameView { op_stack: f.op_stack.take(kept), ..f.advance(3) };
        assert(f.op_stack.subrange(0, kept) =~= f.op_stack.take(kept));
        assert(f.op_stack.subrange(kept, f.op_stack.len() as int) =~= f.op_stack.skip(kept));
        assert(jvm@.stack =~= before.with_top(caller).stack.push(callee@));
    }
    Ok(())
}

/// Runs `ireturn`.
fn step_return_value(jvm: &mut Jvm) -> (res: Result<(), Error>)
    requires
        can_step(old(jvm)@),
    ensures
        step_keeps(old(jvm)@, final(jvm)@),
        machine_as(return_value(old(jvm)@), res, final(jvm)@),
{
    let k = jvm.stack.len() - 1;
    let ghost before = jvm@;
    assert(before.top() == jvm.stack@[k as int]@);
    let value = jvm.stack[k].pop()?;
    jvm.stack.pop();
    let ghost rest = before.stack.drop_last();
    assert(jvm@.stack =~= rest);
    if k == 0 {
        jvm.returned = Some(value);
        Ok(())
    } else {
        assert(rest.last() == jvm.stack@[k - 1]@);
        let res = jvm.stack[k - 1].push(value);
        assert(jvm@.stack =~= rest.update(k - 1, jvm.stack@[k - 1]@));
        res
    }
}

/// Takes the top frame off the call stack.
pub(crate) fn step_return_void(jvm: &mut Jvm)
    requires
        old(jvm)@.stack.len() > 0,
    ensures
        step_keeps(old(jvm)@, final(jvm)@),
        final(jvm)@ == return_void(old(jvm)@),
{
    let ghost before = jvm@;
    jvm.stack.pop();
    assert(jvm@.stack =~= before.stack.drop_last());
    if jvm.stack.len() == 0 {
        jvm.returned = None;
    }
}

/// Marks the class at `class` as initialised and puts the frame of its
/// initialiser, if it has one, on top of the call stack. The class is marked
/// even where the frame cannot be made.
pub(crate) fn start_init(jvm: &mut Jvm, class: usize) -> (res: Result<(), Error>)
    requires
        class < old(jvm)@.classes.len(),
    ensures
        step_keeps(old(jvm)@, final(jvm)@),
        final(jvm)@.classes[class as int].initialised,
        machine_as(begin_init(old(jvm)@, class), res, final(jvm)@),
{
    let ghost before = jvm@;
    assert(before.classes[class as int] == jvm.classes@[class as int]@);
    let frame = initialiser_frame(&jvm.classes, class);
    jvm.classes[class].initialised = true;
    assert(jvm@.classes =~= mark_initialised(before.classes, class));
    match frame {
        Err(e) => Err(e),
        Ok(None) => Ok(()),
        Ok(Some(frame)) => {
            jvm.stack.push(frame);
            assert(jvm@.stack =~= before.stack.push(frame@));
            Ok(())
        },
    }
}

/// Runs `getstatic`.
fn step_get_static(jvm: &mut Jvm) -> (res: Result<(), Error>)
    requires
        can_step(old(jvm)@),
    ensures
        step_keeps(old(jvm)@, final(jvm)@),
        machine_as(get_static(old(jvm)@), res, final(jvm)@),
{
    let k = jvm.stack.len() - 1;
    let ghost before = jvm@;
    assert(before.top() == jvm.stack@[k as int]@);
    let index = jvm.stack[k].operand_u16()?;
    let (class, value) = static_value(&jvm.classes, jvm.stack[k].class, index)?;
    assert(before.classes[class as int] == jvm.classes@[class as int]@);
    if !jvm.classes[class].initialised {
        start_init(jvm, class)
    } else {
        assert(jvm.stack@[k as int].pc < jvm.stack@[k as int].code.len());
        let res = jvm.stack[k].push_next(value, 3);
        assert(jvm@.stack =~= before.stack.update(k as int, jvm.stack@[k as int]@));
        res
    }
}

/// Runs the instruction `instruction` in the frame at `stack_frame`, which
/// must be the top frame: only the top frame runs.
pub fn handle_op_code(instruction: u8, jvm: &mut Jvm, stack_frame: usize) -> (res: Result<
    (),
    Error,
>)
    ensures
        step_keeps(old(jvm)@, final(jvm)@),
        if stack_frame + 1 != old(jvm)@.stack.len() {
            res == Err::<(), Error>(Error::NoActiveFrame)
        } else {
            machine_as(exec_instruction(old(jvm)@, instruction), res, final(jvm)@)
        },
{
    let depth = jvm.stack.len();
    if depth == 0 || stack_frame != depth - 1 {
        return Err(Error::NoActiveFrame);
    }
    assert(jvm@.top() == jvm.stack@[stack_frame as int]@);
    if jvm.stack[stack_frame].pc >= jvm.stack[stack_frame].code.len() {
        return Err(Error::CodeOutOfRange);
    }
    match instruction {
        NOP | ACONST_NULL | ICONST_M1..=ICONST_5 | FCONST_0..=FCONST_2 | BIPUSH
        | ILOAD | FLOAD | ALOAD | ILOAD_0..=ILOAD_3 | FLOAD_0..=FLOAD_3 | ALOAD_0..=ALOAD_3
        | ISTORE | FSTORE | ASTORE | ISTORE_0..=ISTORE_3 | FSTORE_0..=FSTORE_3
        | ASTORE_0..=ASTORE_3
        | POP | DUP
        | IADD | ISUB | IMUL | IDIV | INEG | IAND | IOR
        | MONITORENTER | MONITOREXIT => step_frame(jvm, instruction),
        IALOAD | FALOAD | AALOAD | BALOAD => step_array_load(jvm),
        IASTORE | FASTORE | AASTORE | BASTORE => step_array_store(jvm, instruction),
        NEWARRAY => step_new_array(jvm),
        INVOKESTATIC => step_invoke_static(jvm),
        IRETURN => step_return_value(jvm),
        RETURN => {
            step_return_void(jvm);
            Ok(())
        },
        GETSTATIC => step_get_static(jvm),
        JSR | RET | JSR_W | BREAKPOINT..=0xff => Err(Error::UnsupportedOpcode(instruction)),
        _ => Err(Error::UnimplementedOpcode(instruction)),
    }
}

} // verus!
