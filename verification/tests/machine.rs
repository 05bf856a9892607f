use jvm::bytes::ByteReader;
use jvm::class_file::ClassFile;
use jvm::error::Error;
use jvm::error::ErrorKind;
use jvm::machine::class_index;
use jvm::machine::Class;
use jvm::machine::Jvm;
use jvm::mnemonic::mnemonic;
use jvm::op_code::handle_op_code;
use jvm::op_code::prepare_call;
use jvm::types::DataType;
use jvm::types::StackFrame;

/// Builds the bytes of a class file piece by piece.
struct ClassBytes {
    pool: Vec<u8>,
    slots: u16,
    access_flags: u16,
    interfaces: Vec<u16>,
    fields: Vec<u8>,
    field_count: u16,
    methods: Vec<u8>,
    method_count: u16,
    attributes: Vec<u8>,
    attribute_count: u16,
}

impl ClassBytes {
    fn new() -> Self {
        ClassBytes {
            pool: Vec::new(),
            slots: 0,
            access_flags: 0x0021,
            interfaces: Vec::new(),
            fields: Vec::new(),
            field_count: 0,
            methods: Vec::new(),
            method_count: 0,
            attributes: Vec::new(),
            attribute_count: 0,
        }
    }

    fn entry(&mut self, bytes: &[u8], slots: u16) -> u16 {
        self.pool.extend_from_slice(bytes);
        let index = self.slots + 1;
        self.slots += slots;
        index
    }

    fn utf8_bytes(&mut self, text: &[u8]) -> u16 {
        let mut bytes = vec![1];
        bytes.extend_from_slice(&(text.len() as u16).to_be_bytes());
        bytes.extend_from_slice(text);
        self.entry(&bytes, 1)
    }

    fn utf8(&mut self, text: &str) -> u16 {
        self.utf8_bytes(text.as_bytes())
    }

    fn tagged(&mut self, tag: u8, indices: &[u16]) -> u16 {
        let mut bytes = vec![tag];
        for index in indices {
            bytes.extend_from_slice(&index.to_be_bytes());
        }
        self.entry(&bytes, 1)
    }

    fn class(&mut self, name: &str) -> u16 {
        let name = self.utf8(name);
        self.tagged(7, &[name])
    }

    fn name_and_type(&mut self, name: &str, descriptor: &str) -> u16 {
        let name = self.utf8(name);
        let descriptor = self.utf8(descriptor);
        self.tagged(12, &[name, descriptor])
    }

    fn member_ref(&mut self, tag: u8, class: &str, name: &str, descriptor: &str) -> u16 {
        let class = self.class(class);
        let name_and_type = self.name_and_type(name, descriptor);
        self.tagged(tag, &[class, name_and_type])
    }

    fn method_ref(&mut self, class: &str, name: &str, descriptor: &str) -> u16 {
        self.member_ref(10, class, name, descriptor)
    }

    fn field_ref(&mut self, class: &str, name: &str, descriptor: &str) -> u16 {
        self.member_ref(9, class, name, descriptor)
    }

    fn long(&mut self, value: i64) -> u16 {
        let mut bytes = vec![5];
        bytes.extend_from_slice(&value.to_be_bytes());
        self.entry(&bytes, 2)
    }

    fn attribute(name: u16, body: &[u8]) -> Vec<u8> {
        let mut bytes = Vec::new();
        bytes.extend_from_slice(&name.to_be_bytes());
        bytes.extend_from_slice(&(body.len() as u32).to_be_bytes());
        bytes.extend_from_slice(body);
        bytes
    }

    fn code_body(max_stack: u16, max_locals: u16, code: &[u8]) -> Vec<u8> {
        let mut body = Vec::new();
        body.extend_from_slice(&max_stack.to_be_bytes());
        body.extend_from_slice(&max_locals.to_be_bytes());
        body.extend_from_slice(&(code.len() as u32).to_be_bytes());
        body.extend_from_slice(code);
        body.extend_from_slice(&[0, 0, 0, 0]);
        body
    }

    fn member(flags: u16, name: u16, descriptor: u16, attributes: &[Vec<u8>]) -> Vec<u8> {
        let mut bytes = Vec::new();
        bytes.extend_from_slice(&flags.to_be_bytes());
        bytes.extend_from_slice(&name.to_be_bytes());
        bytes.extend_from_slice(&descriptor.to_be_bytes());
        bytes.extend_from_slice(&(attributes.len() as u16).to_be_bytes());
        for attribute in attributes {
            bytes.extend_from_slice(attribute);
        }
        bytes
    }

    fn method(
        &mut self,
        flags: u16,
        name: &str,
        descriptor: &str,
        max_stack: u16,
        max_locals: u16,
        code: &[u8],
    ) {
        let name = self.utf8(name);
        let descriptor = self.utf8(descriptor);
        let code_name = self.utf8("Code");
        let body = Self::code_body(max_stack, max_locals, code);
        let bytes = Self::member(flags, name, descriptor, &[Self::attribute(code_name, &body)]);
        self.methods.extend_from_slice(&bytes);
        self.method_count += 1;
    }

    fn raw_method(&mut self, bytes: &[u8]) {
        self.methods.extend_from_slice(bytes);
        self.method_count += 1;
    }

    fn raw_field(&mut self, bytes: &[u8]) {
        self.fields.extend_from_slice(bytes);
        self.field_count += 1;
    }

    fn raw_attribute(&mut self, bytes: &[u8]) {
        self.attributes.extend_from_slice(bytes);
        self.attribute_count += 1;
    }

    fn finish(&self, this_class: u16, super_class: u16) -> Vec<u8> {
        let mut bytes = vec![0xca, 0xfe, 0xba, 0xbe, 0, 3, 0, 52];
        bytes.extend_from_slice(&(self.slots + 1).to_be_bytes());
        bytes.extend_from_slice(&self.pool);
        bytes.extend_from_slice(&self.access_flags.to_be_bytes());
        bytes.extend_from_slice(&this_class.to_be_bytes());
        bytes.extend_from_slice(&super_class.to_be_bytes());
        bytes.extend_from_slice(&(self.interfaces.len() as u16).to_be_bytes());
        for index in &self.interfaces {
            bytes.extend_from_slice(&index.to_be_bytes());
        }
        bytes.extend_from_slice(&self.field_count.to_be_bytes());
        bytes.extend_from_slice(&self.fields);
        bytes.extend_from_slice(&self.method_count.to_be_bytes());
        bytes.extend_from_slice(&self.methods);
        bytes.extend_from_slice(&self.attribute_count.to_be_bytes());
        bytes.extend_from_slice(&self.attributes);
        bytes
    }
}

const MAIN: &str = "([Ljava/lang/String;)V";

/// The bytes of a class `name` whose public static `main` has the code
/// `code`.
fn program(name: &str, max_stack: u16, max_locals: u16, code: &[u8]) -> Vec<u8> {
    let mut b = ClassBytes::new();
    let this_class = b.class(name);
    b.method(0x0009, "main", MAIN, max_stack, max_locals, code);
    b.finish(this_class, 0)
}

/// A machine that has loaded a class whose `main` has the code `code`, and
/// is set to run it.
fn machine(max_stack: u16, max_locals: u16, code: &[u8]) -> Jvm {
    let mut jvm = Jvm::new();
    let name = jvm.load_class_from_bytes(&program("Main", max_stack, max_locals, code)).unwrap();
    assert_eq!(name, "Main");
    jvm.set_entry_class("Main");
    jvm
}

/// What `main` with the code `code` returns.
fn run(max_stack: u16, max_locals: u16, code: &[u8]) -> Result<Option<DataType>, Error> {
    machine(max_stack, max_locals, code).run()
}

/// A machine with one frame that holds the code `code` and the operands
/// `operands`.
fn frame_machine(code: &[u8], operands: &[DataType], locals: &[DataType]) -> Jvm {
    let mut jvm = Jvm::new();
    let mut frame = StackFrame::new(8, locals.len() as u16);
    frame.code = code.to_vec();
    frame.op_stack = operands.to_vec();
    frame.variables = locals.to_vec();
    jvm.stack.push(frame);
    jvm
}

/// The operand stack of the one frame of `code` after all of `code` has run,
/// one instruction after the other.
fn operands_after(code: &[u8], operands: &[DataType]) -> Result<Vec<DataType>, Error> {
    let mut jvm = frame_machine(code, operands, &[]);
    while jvm.stack[0].pc < code.len() {
        jvm.step()?;
    }
    Ok(jvm.stack[0].op_stack.clone())
}

#[test]
fn minimal_program_runs_to_an_empty_call_stack() {
    let mut jvm = machine(1, 1, &[0x03, 0xac]);
    assert_eq!(jvm.run(), Ok(Some(DataType::Int(0))));
    assert!(jvm.stack.is_empty());
    assert_eq!(jvm.returned, Some(DataType::Int(0)));
    assert_eq!(jvm.steps_left, u64::MAX - 2);
}

#[test]
fn array_lifecycle() {
    let code = [0x10, 3, 0xbc, 10, 0x59, 0x05, 0x10, 42, 0x4f, 0x05, 0x2e, 0xac];
    let mut jvm = machine(4, 1, &code);
    assert_eq!(jvm.run(), Ok(Some(DataType::Int(42))));
    assert!(jvm.stack.is_empty());
    assert_eq!(jvm.heap.len(), 1);
    assert_eq!(jvm.heap.load(0, 0), Ok(DataType::Int(0)));
    assert_eq!(jvm.heap.load(0, 1), Ok(DataType::Int(0)));
    assert_eq!(jvm.heap.load(0, 2), Ok(DataType::Int(42)));
    assert_eq!(jvm.heap.get_array(0).unwrap().len(), 3);
}

#[test]
fn subtraction_takes_the_top_from_the_one_below() {
    assert_eq!(run(2, 1, &[0x08, 0x06, 0x64, 0xac]), Ok(Some(DataType::Int(2))));
    assert_eq!(run(2, 1, &[0x06, 0x08, 0x64, 0xac]), Ok(Some(DataType::Int(-2))));
}

#[test]
fn division_divides_the_one_below_by_the_top() {
    assert_eq!(run(2, 1, &[0x10, 17, 0x08, 0x6c, 0xac]), Ok(Some(DataType::Int(3))));
    assert_eq!(run(2, 1, &[0x08, 0x10, 17, 0x6c, 0xac]), Ok(Some(DataType::Int(0))));
    assert_eq!(run(2, 1, &[0x10, 0xef, 0x08, 0x6c, 0xac]), Ok(Some(DataType::Int(-3))));
    assert_eq!(run(2, 1, &[0x10, 17, 0x10, 0xfb, 0x6c, 0xac]), Ok(Some(DataType::Int(-3))));
}

#[test]
fn division_by_zero_is_an_error() {
    let error = run(2, 1, &[0x08, 0x03, 0x6c, 0xac]).unwrap_err();
    assert_eq!(error, Error::DivisionByZero);
    assert_eq!(error.kind(), ErrorKind::Arithmetic);
}

#[test]
fn division_of_the_least_integer_by_minus_one_wraps() {
    let operands = [DataType::Int(i32::MIN), DataType::Int(-1)];
    assert_eq!(operands_after(&[0x6c], &operands), Ok(vec![DataType::Int(i32::MIN)]));
}

#[test]
fn integer_arithmetic_wraps() {
    let max = [DataType::Int(i32::MAX), DataType::Int(1)];
    assert_eq!(operands_after(&[0x60], &max), Ok(vec![DataType::Int(i32::MIN)]));
    let min = [DataType::Int(i32::MIN), DataType::Int(1)];
    assert_eq!(operands_after(&[0x64], &min), Ok(vec![DataType::Int(i32::MAX)]));
    let big = [DataType::Int(0x4000_0000), DataType::Int(4)];
    assert_eq!(operands_after(&[0x68], &big), Ok(vec![DataType::Int(0)]));
    let odd = [DataType::Int(0x7fff_ffff), DataType::Int(3)];
    assert_eq!(operands_after(&[0x68], &odd), Ok(vec![DataType::Int(0x7fff_fffd)]));
    assert_eq!(operands_after(&[0x74], &[DataType::Int(i32::MIN)]), Ok(vec![DataType::Int(i32::MIN)]));
    assert_eq!(operands_after(&[0x74], &[DataType::Int(5)]), Ok(vec![DataType::Int(-5)]));
}

#[test]
fn bitwise_instructions() {
    let operands = [DataType::Int(0b1100), DataType::Int(0b1010)];
    assert_eq!(operands_after(&[0x7e], &operands), Ok(vec![DataType::Int(0b1000)]));
    assert_eq!(operands_after(&[0x80], &operands), Ok(vec![DataType::Int(0b1110)]));
    let signed = [DataType::Int(-1), DataType::Int(0x0f0f)];
    assert_eq!(operands_after(&[0x7e], &signed), Ok(vec![DataType::Int(0x0f0f)]));
    assert_eq!(operands_after(&[0x80], &signed), Ok(vec![DataType::Int(-1)]));
}

#[test]
fn bipush_and_a_chain_of_additions_sum_exactly() {
    let code = [0x10, 100, 0x08, 0x60, 0x02, 0x60, 0x05, 0x60, 0x03, 0x60, 0xac];
    assert_eq!(run(2, 1, &code), Ok(Some(DataType::Int(100 + 5 - 1 + 2 + 0))));
    let code = [0x10, 0x80, 0x08, 0x60, 0xac];
    assert_eq!(run(2, 1, &code), Ok(Some(DataType::Int(-128 + 5))));
}

#[test]
fn bipush_sign_extends() {
    assert_eq!(run(1, 1, &[0x10, 0xff, 0xac]), Ok(Some(DataType::Int(-1))));
    assert_eq!(run(1, 1, &[0x10, 0x7f, 0xac]), Ok(Some(DataType::Int(127))));
    assert_eq!(run(1, 1, &[0x10, 0x80, 0xac]), Ok(Some(DataType::Int(-128))));
}

#[test]
fn constants() {
    let ints: Vec<DataType> = (-1..=5).map(DataType::Int).collect();
    assert_eq!(operands_after(&[0x02, 0x03, 0x04, 0x05, 0x06, 0x07, 0x08], &[]), Ok(ints));
    let floats = operands_after(&[0x0b, 0x0c, 0x0d], &[]).unwrap();
    assert_eq!(
        floats,
        vec![
            DataType::Float(0.0f32.to_bits()),
            DataType::Float(1.0f32.to_bits()),
            DataType::Float(2.0f32.to_bits()),
        ]
    );
    assert_eq!(operands_after(&[0x01], &[]), Ok(vec![DataType::Null]));
    assert_eq!(operands_after(&[0x00], &[]), Ok(vec![]));
    assert_eq!(operands_after(&[0xc2, 0xc3], &[DataType::Null]), Ok(vec![DataType::Null]));
}

#[test]
fn stack_instructions() {
    let one = [DataType::Int(1)];
    assert_eq!(operands_after(&[0x59], &one), Ok(vec![DataType::Int(1), DataType::Int(1)]));
    assert_eq!(operands_after(&[0x57], &one), Ok(vec![]));
    assert_eq!(operands_after(&[0x59], &[]), Err(Error::StackUnderflow));
    assert_eq!(operands_after(&[0x57], &[]), Err(Error::StackUnderflow));
    assert_eq!(Error::StackUnderflow.kind(), ErrorKind::Resource);
}

#[test]
fn loads_and_stores_of_locals() {
    let locals = [DataType::Int(10), DataType::Float(7), DataType::Null, DataType::Int(13), DataType::Int(14)];
    for (code, expected) in [
        (vec![0x1a], locals[0]),
        (vec![0x1b], locals[1]),
        (vec![0x1c], locals[2]),
        (vec![0x1d], locals[3]),
        (vec![0x22], locals[0]),
        (vec![0x25], locals[3]),
        (vec![0x2a], locals[0]),
        (vec![0x2d], locals[3]),
        (vec![0x15, 4], locals[4]),
        (vec![0x17, 1], locals[1]),
        (vec![0x19, 2], locals[2]),
    ] {
        let mut jvm = frame_machine(&code, &[], &locals);
        assert_eq!(jvm.step(), Ok(()));
        assert_eq!(jvm.stack[0].op_stack, vec![expected]);
        assert_eq!(jvm.stack[0].pc, code.len());
    }
    for (code, slot) in [
        (vec![0x3b], 0),
        (vec![0x3e], 3),
        (vec![0x43], 0),
        (vec![0x46], 3),
        (vec![0x4b], 0),
        (vec![0x4e], 3),
        (vec![0x36, 4], 4),
        (vec![0x38, 1], 1),
        (vec![0x3a, 2], 2),
    ] {
        let mut jvm = frame_machine(&code, &[DataType::Int(99)], &locals);
        assert_eq!(jvm.step(), Ok(()));
        assert!(jvm.stack[0].op_stack.is_empty());
        assert_eq!(jvm.stack[0].variables[slot], DataType::Int(99));
        assert_eq!(jvm.stack[0].pc, code.len());
    }
    let mut jvm = frame_machine(&[0x15, 5], &[], &locals);
    assert_eq!(jvm.step(), Err(Error::LocalOutOfRange));
    let mut jvm = frame_machine(&[0x36, 5], &[DataType::Int(1)], &locals);
    assert_eq!(jvm.step(), Err(Error::LocalOutOfRange));
    let mut jvm = frame_machine(&[0x1d], &[], &locals[..3]);
    assert_eq!(jvm.step(), Err(Error::LocalOutOfRange));
    let mut jvm = frame_machine(&[0x3b], &[], &locals);
    assert_eq!(jvm.step(), Err(Error::StackUnderflow));
    let mut jvm = frame_machine(&[0x15], &[], &locals);
    assert_eq!(jvm.step(), Err(Error::CodeOutOfRange));
    assert_eq!(Error::LocalOutOfRange.kind(), ErrorKind::Resource);
}

#[test]
fn fresh_frames_are_empty() {
    let frame = StackFrame::new(3, 2);
    assert_eq!(frame.variables, vec![DataType::Empty, DataType::Empty]);
    assert!(frame.op_stack.is_empty());
    assert_eq!(frame.pc, 0);
    assert_eq!(frame.max_stack, 3);
    assert!(frame.code.is_empty());
}

#[test]
fn operand_stack_is_bounded() {
    let error = run(1, 1, &[0x03, 0x03, 0xac]).unwrap_err();
    assert_eq!(error, Error::StackOverflow);
    assert_eq!(error.kind(), ErrorKind::Resource);
    let mut frame = StackFrame::new(1, 0);
    assert_eq!(frame.push(DataType::Null), Ok(()));
    assert_eq!(frame.push(DataType::Null), Err(Error::StackOverflow));
    assert_eq!(frame.pop(), Ok(DataType::Null));
    assert_eq!(frame.pop(), Err(Error::StackUnderflow));
    assert_eq!(frame.pop_int(), Err(Error::StackUnderflow));
    assert_eq!(frame.push(DataType::Null), Ok(()));
    assert_eq!(frame.pop_int(), Err(Error::TypeMismatch));
    assert_eq!(frame.op_stack, vec![DataType::Null]);
}

#[test]
fn operands_must_be_integers() {
    let operands = [DataType::Int(1), DataType::Float(0)];
    assert_eq!(operands_after(&[0x60], &operands), Err(Error::TypeMismatch));
    let operands = [DataType::Long(1), DataType::Int(0)];
    assert_eq!(operands_after(&[0x60], &operands), Err(Error::TypeMismatch));
    assert_eq!(operands_after(&[0x60], &[DataType::Int(1)]), Err(Error::StackUnderflow));
    assert_eq!(operands_after(&[0x74], &[DataType::Null]), Err(Error::TypeMismatch));
}

#[test]
fn array_loads_widen_to_the_computation_type() {
    for (atype, stored, load, expected) in [
        (8u8, DataType::Int(0x1ff), 0x33u8, DataType::Int(-1)),
        (4, DataType::Int(3), 0x33, DataType::Int(1)),
        (10, DataType::Int(-9), 0x2e, DataType::Int(-9)),
        (6, DataType::Float(77), 0x30, DataType::Float(77)),
        (5, DataType::Char(0xffff), 0x32, DataType::Int(0xffff)),
        (9, DataType::Short(-2), 0x32, DataType::Int(-2)),
        (11, DataType::Long(-2), 0x32, DataType::Long(-2)),
    ] {
        let mut jvm = frame_machine(&[load], &[DataType::ArrayReference(0), DataType::Int(1)], &[]);
        assert_eq!(jvm.heap.create_array(atype, 2), Ok(0));
        jvm.heap.get_array_mut(0).unwrap().set(1, stored).unwrap();
        assert_eq!(jvm.step(), Ok(()));
        assert_eq!(jvm.stack[0].op_stack, vec![expected]);
    }
}

#[test]
fn array_stores_take_values_of_their_kind() {
    let reference = DataType::ArrayReference(0);
    for (atype, store, value, read) in [
        (10u8, 0x4fu8, DataType::Int(5), DataType::Int(5)),
        (8, 0x54, DataType::Int(0x181), DataType::Byte(-127)),
        (4, 0x54, DataType::Int(2), DataType::Boolean(false)),
        (6, 0x51, DataType::Float(9), DataType::Float(9)),
        (11, 0x53, DataType::Long(4), DataType::Long(4)),
        (5, 0x53, DataType::Char(66), DataType::Char(66)),
    ] {
        let mut jvm = frame_machine(&[store], &[reference, DataType::Int(0), value], &[]);
        jvm.heap.create_array(atype, 1).unwrap();
        assert_eq!(jvm.step(), Ok(()));
        assert!(jvm.stack[0].op_stack.is_empty());
        assert_eq!(jvm.stack[0].pc, 1);
        assert_eq!(jvm.heap.load(0, 0), Ok(read));
    }
    for (store, value) in [
        (0x4fu8, DataType::Float(1)),
        (0x54, DataType::Byte(1)),
        (0x51, DataType::Int(1)),
    ] {
        let mut jvm = frame_machine(&[store], &[reference, DataType::Int(0), value], &[]);
        jvm.heap.create_array(10, 1).unwrap();
        assert_eq!(jvm.step(), Err(Error::TypeMismatch));
    }
    let mut jvm = frame_machine(&[0x53], &[reference, DataType::Int(0), DataType::Long(1)], &[]);
    jvm.heap.create_array(10, 1).unwrap();
    assert_eq!(jvm.step(), Err(Error::TypeMismatch));
}

#[test]
fn null_array_references_are_reported() {
    for load in [0x2eu8, 0x30, 0x32, 0x33] {
        let mut jvm = frame_machine(&[load], &[DataType::Null, DataType::Int(0)], &[]);
        let error = jvm.step().unwrap_err();
        assert_eq!(error, Error::NullReference);
        assert_eq!(error.kind(), ErrorKind::NullReference);
    }
    for store in [0x4fu8, 0x54, 0x53] {
        let operands = [DataType::Null, DataType::Int(0), DataType::Int(1)];
        let mut jvm = frame_machine(&[store], &operands, &[]);
        assert_eq!(jvm.step(), Err(Error::NullReference));
    }
    let mut jvm = frame_machine(&[0x2e], &[DataType::Int(0), DataType::Int(0)], &[]);
    assert_eq!(jvm.step(), Err(Error::TypeMismatch));
    let mut jvm = frame_machine(&[0x2e], &[DataType::ArrayReference(0), DataType::Null], &[]);
    assert_eq!(jvm.step(), Err(Error::TypeMismatch));
}

#[test]
fn array_accesses_are_checked() {
    let mut jvm = frame_machine(&[0x2e], &[DataType::ArrayReference(0), DataType::Int(2)], &[]);
    jvm.heap.create_array(10, 2).unwrap();
    assert_eq!(jvm.step(), Err(Error::ArrayIndexOutOfBounds));
    let mut jvm = frame_machine(&[0x2e], &[DataType::ArrayReference(0), DataType::Int(-1)], &[]);
    jvm.heap.create_array(10, 2).unwrap();
    assert_eq!(jvm.step(), Err(Error::ArrayIndexOutOfBounds));
    let mut jvm = frame_machine(&[0x2e], &[DataType::ArrayReference(3), DataType::Int(0)], &[]);
    assert_eq!(jvm.step(), Err(Error::InvalidReference(3)));
    assert_eq!(Error::ArrayIndexOutOfBounds.kind(), ErrorKind::Resource);
}

#[test]
fn newarray_makes_zeroed_arrays() {
    for atype in 4u8..=11 {
        let mut jvm = frame_machine(&[0xbc, atype], &[DataType::Int(3)], &[]);
        assert_eq!(jvm.step(), Ok(()));
        assert_eq!(jvm.stack[0].op_stack, vec![DataType::ArrayReference(0)]);
        assert_eq!(jvm.stack[0].pc, 2);
        let array = jvm.heap.get_array(0).unwrap();
        assert_eq!(array.len(), 3);
        let zero = array.get(0);
        for i in 0..3 {
            assert_eq!(array.get(i), zero);
        }
        assert!(matches!(
            zero,
            DataType::Boolean(false)
                | DataType::Char(0)
                | DataType::Float(0)
                | DataType::Double(0)
                | DataType::Byte(0)
                | DataType::Short(0)
                | DataType::Int(0)
                | DataType::Long(0)
        ));
    }
    let mut jvm = frame_machine(&[0xbc, 3], &[DataType::Int(3)], &[]);
    assert_eq!(jvm.step(), Err(Error::InvalidArrayType(3)));
    let mut jvm = frame_machine(&[0xbc, 10], &[DataType::Int(-1)], &[]);
    let error = jvm.step().unwrap_err();
    assert_eq!(error, Error::NegativeArraySize);
    assert_eq!(error.kind(), ErrorKind::Resource);
    let mut jvm = frame_machine(&[0xbc, 10], &[DataType::Null], &[]);
    assert_eq!(jvm.step(), Err(Error::TypeMismatch));
    let mut jvm = frame_machine(&[0xbc], &[DataType::Int(1)], &[]);
    assert_eq!(jvm.step(), Err(Error::CodeOutOfRange));
    let mut jvm = frame_machine(&[0xbc, 10], &[DataType::Int(1)], &[]);
    jvm.heap = jvm::heap::Heap::with_max_size(0);
    assert_eq!(jvm.step(), Err(Error::HeapFull));
}

#[test]
fn instructions_without_an_implementation_are_named() {
    for op in [0x09u8, 0x12, 0x16, 0x1e, 0x2f, 0x5f, 0x61, 0x70, 0x84, 0x99, 0xa7, 0xaa, 0xb3, 0xb6, 0xbb, 0xc0, 0xc8] {
        let mut jvm = frame_machine(&[op, 0, 0], &[DataType::Int(1), DataType::Int(1)], &[]);
        let error = jvm.step().unwrap_err();
        assert_eq!(error, Error::UnimplementedOpcode(op));
        assert_eq!(error.kind(), ErrorKind::UnimplementedOpcode);
    }
    for op in [0xa8u8, 0xa9, 0xc9, 0xca, 0xcb, 0xfd, 0xfe, 0xff] {
        let mut jvm = frame_machine(&[op, 0, 0], &[], &[]);
        let error = jvm.step().unwrap_err();
        assert_eq!(error, Error::UnsupportedOpcode(op));
        assert_eq!(error.kind(), ErrorKind::UnimplementedOpcode);
    }
}

#[test]
fn only_the_top_frame_runs() {
    let mut jvm = frame_machine(&[0x03], &[], &[]);
    jvm.stack.push(StackFrame::new(1, 0));
    jvm.stack[1].code = vec![0x04];
    assert_eq!(handle_op_code(0x03, &mut jvm, 0), Err(Error::NoActiveFrame));
    assert_eq!(handle_op_code(0x03, &mut jvm, 2), Err(Error::NoActiveFrame));
    assert_eq!(handle_op_code(0x04, &mut jvm, 1), Ok(()));
    assert_eq!(jvm.stack[1].op_stack, vec![DataType::Int(1)]);
    assert!(jvm.stack[0].op_stack.is_empty());
    let mut empty = Jvm::new();
    assert_eq!(handle_op_code(0x03, &mut empty, 0), Err(Error::NoActiveFrame));
    assert_eq!(empty.step(), Err(Error::NoActiveFrame));
    assert_eq!(Error::NoActiveFrame.kind(), ErrorKind::Resource);
}

#[test]
fn an_instruction_needs_code_to_stand_in() {
    let mut jvm = frame_machine(&[], &[], &[]);
    assert_eq!(handle_op_code(0x00, &mut jvm, 0), Err(Error::CodeOutOfRange));
    let mut jvm = frame_machine(&[0x10], &[], &[]);
    assert_eq!(jvm.step(), Err(Error::CodeOutOfRange));
    let mut jvm = frame_machine(&[0xb8, 0], &[], &[]);
    assert_eq!(jvm.step(), Err(Error::CodeOutOfRange));
    assert_eq!(Error::CodeOutOfRange.kind(), ErrorKind::Resource);
}

#[test]
fn a_frame_that_runs_off_its_code_is_taken_off() {
    let mut jvm = machine(1, 1, &[0x03]);
    assert_eq!(jvm.run(), Ok(None));
    assert!(jvm.stack.is_empty());
    assert_eq!(jvm.steps_left, u64::MAX - 2);
    assert_eq!(run(0, 0, &[]), Ok(None));
    assert_eq!(run(0, 0, &[0xb1]), Ok(None));
}

/// A class `Main` whose `main` calls the static method `f` of the
/// descriptor `descriptor` and the code `callee`, after `before`, and goes on
/// with `after`.
fn caller(descriptor: &str, before: &[u8], after: &[u8], callee: &[u8], flags: u16) -> Vec<u8> {
    let mut b = ClassBytes::new();
    let this_class = b.class("Main");
    let target = b.method_ref("Main", "f", descriptor);
    let mut code = before.to_vec();
    code.push(0xb8);
    code.extend_from_slice(&target.to_be_bytes());
    code.extend_from_slice(after);
    b.method(0x0009, "main", MAIN, 4, 1, &code);
    b.method(flags, "f", descriptor, 4, 3, callee);
    b.finish(this_class, 0)
}

#[test]
fn a_call_returns_one_value_to_its_caller() {
    let bytes = caller("()I", &[0x10, 7], &[], &[0x10, 35, 0xac], 0x0008);
    let mut jvm = Jvm::new();
    jvm.load_class_from_bytes(&bytes).unwrap();
    assert_eq!(jvm.run_method(0, "main", MAIN), Ok(()));
    assert!(jvm.stack.is_empty());
    assert_eq!(jvm.run_method(0, "g", MAIN), Err(Error::MethodNotFound));
    assert_eq!(jvm.run_method(1, "main", MAIN), Err(Error::ClassNotFound));
    let mut jvm = Jvm::new();
    jvm.load_class_from_bytes(&bytes).unwrap();
    let main = prepare_start(&jvm, "main", MAIN);
    jvm.stack.push(main);
    jvm.classes[0].initialised = true;
    assert_eq!(jvm.step(), Ok(()));
    assert_eq!(jvm.stack.len(), 1);
    assert_eq!(jvm.step(), Ok(()));
    assert_eq!(jvm.stack.len(), 2);
    assert_eq!(jvm.stack[0].pc, 5);
    assert_eq!(jvm.stack[0].op_stack, vec![DataType::Int(7)]);
    assert_eq!(jvm.stack[1].pc, 0);
    assert_eq!(jvm.stack[1].variables, vec![DataType::Empty; 3]);
    assert_eq!(jvm.step(), Ok(()));
    assert_eq!(jvm.step(), Ok(()));
    assert_eq!(jvm.stack.len(), 1);
    assert_eq!(jvm.stack[0].pc, 5);
    assert_eq!(jvm.stack[0].op_stack, vec![DataType::Int(7), DataType::Int(35)]);
    assert_eq!(jvm.returned, None);
}

/// The frame in which the method `name` of the first class of `jvm` begins.
fn prepare_start(jvm: &Jvm, name: &str, descriptor: &str) -> StackFrame {
    let method = jvm.classes[0].file.find_method(name, descriptor).unwrap();
    StackFrame::for_method(0, &method).unwrap()
}

#[test]
fn arguments_become_the_first_locals_in_order() {
    let callee = [0x1a, 0x1b, 0x64, 0x1c, 0x68, 0xac];
    let bytes = caller("(III)I", &[0x10, 50, 0x10, 8, 0x06], &[0xac], &callee, 0x0008);
    let mut jvm = Jvm::new();
    jvm.load_class_from_bytes(&bytes).unwrap();
    jvm.set_entry_class("Main");
    assert_eq!(jvm.run(), Ok(Some(DataType::Int((50 - 8) * 3))));
    assert!(jvm.stack.is_empty());
}

#[test]
fn a_call_needs_its_arguments() {
    let bytes = caller("(II)I", &[0x03], &[0xac], &[0x03, 0xac], 0x0008);
    let mut jvm = Jvm::new();
    jvm.load_class_from_bytes(&bytes).unwrap();
    jvm.set_entry_class("Main");
    assert_eq!(jvm.run(), Err(Error::StackUnderflow));

    let mut b = ClassBytes::new();
    let this_class = b.class("Main");
    let target = b.method_ref("Main", "f", "(II)V");
    b.method(0x0009, "main", MAIN, 4, 1, &[0x03, 0x03, 0xb8, 0, target as u8, 0xb1]);
    b.method(0x0008, "f", "(II)V", 1, 1, &[0xb1]);
    let mut jvm = Jvm::new();
    jvm.load_class_from_bytes(&b.finish(this_class, 0)).unwrap();
    jvm.set_entry_class("Main");
    assert_eq!(jvm.run(), Err(Error::LocalOutOfRange));
}

#[test]
fn calls_are_resolved_through_the_pool() {
    let mut b = ClassBytes::new();
    let this_class = b.class("Main");
    let missing_class = b.method_ref("Other", "f", "()V");
    let missing_method = b.method_ref("Main", "g", "()V");
    let other_descriptor = b.method_ref("Main", "main", "()V");
    let field = b.field_ref("Main", "x", "I");
    b.method(0x0009, "main", MAIN, 1, 1, &[0xb1]);
    let bytes = b.finish(this_class, 0);
    let mut jvm = Jvm::new();
    jvm.load_class_from_bytes(&bytes).unwrap();
    assert!(matches!(prepare_call(&jvm.classes, 0, missing_class), Err(Error::ClassNotFound)));
    assert!(matches!(prepare_call(&jvm.classes, 0, missing_method), Err(Error::MethodNotFound)));
    assert!(matches!(prepare_call(&jvm.classes, 0, other_descriptor), Err(Error::MethodNotFound)));
    assert!(matches!(prepare_call(&jvm.classes, 0, field), Err(Error::WrongConstantKind(i)) if i == field as usize));
    assert!(matches!(prepare_call(&jvm.classes, 0, 0), Err(Error::InvalidIndex(0))));
    assert!(matches!(prepare_call(&jvm.classes, 0, 999), Err(Error::DanglingIndex(999))));
    assert!(matches!(prepare_call(&jvm.classes, 1, 1), Err(Error::ClassNotFound)));
    assert_eq!(Error::ClassNotFound.kind(), ErrorKind::Link);
    assert_eq!(Error::MethodNotFound.kind(), ErrorKind::Link);
}

#[test]
fn interface_method_references_are_called_too() {
    let mut b = ClassBytes::new();
    let this_class = b.class("Main");
    let target = b.member_ref(11, "Main", "f", "()I");
    b.method(0x0009, "main", MAIN, 1, 1, &[0xb8, 0, target as u8, 0xac]);
    b.method(0x0008, "f", "()I", 1, 0, &[0x07, 0xac]);
    let mut jvm = Jvm::new();
    jvm.load_class_from_bytes(&b.finish(this_class, 0)).unwrap();
    jvm.set_entry_class("Main");
    assert_eq!(jvm.run(), Ok(Some(DataType::Int(4))));
}

#[test]
fn calls_across_classes() {
    let mut a = ClassBytes::new();
    let a_class = a.class("A");
    let target = a.method_ref("B", "twice", "(I)I");
    a.method(0x0009, "main", MAIN, 2, 1, &[0x08, 0xb8, 0, target as u8, 0xac]);
    let mut b = ClassBytes::new();
    let b_class = b.class("B");
    b.method(0x0008, "twice", "(I)I", 2, 1, &[0x1a, 0x1a, 0x60, 0xac]);
    let mut jvm = Jvm::new();
    assert_eq!(jvm.load_class_from_bytes(&b.finish(b_class, 0)).unwrap(), "B");
    assert_eq!(jvm.load_class_from_bytes(&a.finish(a_class, 0)).unwrap(), "A");
    jvm.set_entry_class("A");
    assert_eq!(jvm.run(), Ok(Some(DataType::Int(10))));
}

#[test]
fn native_methods_cannot_be_called() {
    let bytes = caller("()V", &[], &[0xb1], &[0xb1], 0x0108);
    let mut jvm = Jvm::new();
    jvm.load_class_from_bytes(&bytes).unwrap();
    jvm.set_entry_class("Main");
    let error = jvm.run().unwrap_err();
    assert_eq!(error, Error::NativeMethod);
    assert_eq!(error.kind(), ErrorKind::Link);
    let method = jvm.classes[0].file.find_method("f", "()V").unwrap();
    assert_eq!(Jvm::handle_native_method("Main", &method), Err(Error::NativeMethod));
}

#[test]
fn methods_without_code_cannot_be_called() {
    let mut b = ClassBytes::new();
    let this_class = b.class("Main");
    let target = b.method_ref("Main", "f", "()V");
    b.method(0x0009, "main", MAIN, 1, 1, &[0xb8, 0, target as u8, 0xb1]);
    let name = b.utf8("f");
    let descriptor = b.utf8("()V");
    b.raw_method(&ClassBytes::member(0x0408, name, descriptor, &[]));
    let mut jvm = Jvm::new();
    jvm.load_class_from_bytes(&b.finish(this_class, 0)).unwrap();
    jvm.set_entry_class("Main");
    let error = jvm.run().unwrap_err();
    assert_eq!(error, Error::MissingCode);
    assert_eq!(error.kind(), ErrorKind::Link);
}

#[test]
fn a_value_returned_onto_a_full_stack_overflows() {
    let mut b = ClassBytes::new();
    let this_class = b.class("Main");
    let target = b.method_ref("Main", "f", "()I");
    b.method(0x0009, "main", MAIN, 1, 1, &[0x03, 0xb8, 0, target as u8, 0xac]);
    b.method(0x0008, "f", "()I", 1, 0, &[0x03, 0xac]);
    let mut jvm = Jvm::new();
    jvm.load_class_from_bytes(&b.finish(this_class, 0)).unwrap();
    jvm.set_entry_class("Main");
    assert_eq!(jvm.run(), Err(Error::StackOverflow));
}

#[test]
fn the_program_needs_an_entry() {
    let mut jvm = Jvm::new();
    let error = jvm.run().unwrap_err();
    assert_eq!(error, Error::EntryClassNotSet);
    assert_eq!(error.kind(), ErrorKind::Link);
    jvm.set_entry_class("Main");
    assert_eq!(jvm.run(), Err(Error::ClassNotFound));
    let mut b = ClassBytes::new();
    let this_class = b.class("Main");
    b.method(0x0009, "main", "()V", 1, 1, &[0xb1]);
    jvm.load_class_from_bytes(&b.finish(this_class, 0)).unwrap();
    let error = jvm.run().unwrap_err();
    assert_eq!(error, Error::EntryPointNotFound);
    assert_eq!(error.kind(), ErrorKind::Link);
}

#[test]
fn a_class_of_the_same_name_takes_the_place_of_the_old_one() {
    let mut jvm = Jvm::new();
    jvm.load_class_from_bytes(&program("Main", 1, 1, &[0x04, 0xac])).unwrap();
    jvm.load_class_from_bytes(&program("Other", 1, 1, &[0x05, 0xac])).unwrap();
    assert_eq!(jvm.classes.len(), 2);
    jvm.load_class_from_bytes(&program("Main", 1, 1, &[0x06, 0xac])).unwrap();
    assert_eq!(jvm.classes.len(), 2);
    assert_eq!(class_index(&jvm.classes, "Main"), Some(0));
    assert_eq!(class_index(&jvm.classes, "Other"), Some(1));
    assert_eq!(class_index(&jvm.classes, "Third"), None);
    jvm.set_entry_class("Main");
    assert_eq!(jvm.run(), Ok(Some(DataType::Int(3))));
    jvm.set_entry_class("Other");
    assert_eq!(jvm.run(), Ok(Some(DataType::Int(2))));
}

#[test]
fn classes_can_be_loaded_from_decoded_files() {
    let bytes = program("Main", 1, 1, &[0xb1]);
    let mut reader = ByteReader::new(&bytes);
    let file = ClassFile::read_from(&mut reader).unwrap();
    let class = Class::new(file);
    assert!(!class.initialised);
    let mut jvm = Jvm::new();
    assert_eq!(jvm.load_class(class.file), Ok("Main".to_string()));
    assert!(!jvm.classes[0].initialised);
}

#[test]
fn classes_that_cannot_be_decoded_are_not_loaded() {
    let mut jvm = Jvm::new();
    let mut bytes = program("Main", 1, 1, &[0xb1]);
    bytes[0] = 0;
    assert_eq!(jvm.load_class_from_bytes(&bytes), Err(Error::InvalidMagic(0x00fe_babe)));
    assert!(jvm.classes.is_empty());
    let mut b = ClassBytes::new();
    b.class("Main");
    assert_eq!(jvm.load_class_from_bytes(&b.finish(1, 0)), Err(Error::WrongConstantKind(1)));
    assert!(jvm.classes.is_empty());
}

#[test]
fn the_machine_stops_when_its_steps_are_used_up() {
    let mut jvm = machine(1, 1, &[0x00, 0x00, 0x00, 0xb1]);
    jvm.steps_left = 3;
    let error = jvm.run().unwrap_err();
    assert_eq!(error, Error::StepLimitExceeded);
    assert_eq!(error.kind(), ErrorKind::Resource);
    assert_eq!(jvm.steps_left, 0);
    let mut jvm = machine(1, 1, &[0x00, 0x00, 0x00, 0xb1]);
    jvm.steps_left = 4;
    assert_eq!(jvm.run(), Ok(None));
    assert_eq!(jvm.steps_left, 0);
}

#[test]
fn endless_recursion_stops_at_the_step_limit() {
    let mut b = ClassBytes::new();
    let this_class = b.class("Main");
    let target = b.method_ref("Main", "main", MAIN);
    b.method(0x0009, "main", "dummy", 1, 1, &[0xb1]);
    b.methods.clear();
    b.method_count = 0;
    b.method(0x0009, "main", MAIN, 1, 1, &[0x01, 0xb8, 0, target as u8, 0xb1]);
    let mut jvm = Jvm::new();
    jvm.load_class_from_bytes(&b.finish(this_class, 0)).unwrap();
    jvm.set_entry_class("Main");
    jvm.steps_left = 1000;
    assert_eq!(jvm.run(), Err(Error::StepLimitExceeded));
    // the first call takes a step more than the others: it initialises the class
    assert_eq!(jvm.stack.len(), 500);
}

#[test]
fn a_call_initialises_the_class_of_the_method_first() {
    let mut a = ClassBytes::new();
    let a_class = a.class("A");
    let target = a.method_ref("B", "twice", "(I)I");
    let call = [0xb8, 0, target as u8];
    let code = [&[0x08][..], &call, &call, &[0xac]].concat();
    a.method(0x0009, "main", MAIN, 2, 1, &code);
    let mut b = ClassBytes::new();
    let b_class = b.class("B");
    b.method(0x0008, "<clinit>", "()V", 1, 0, &[0x00, 0xb1]);
    b.method(0x0008, "twice", "(I)I", 2, 1, &[0x1a, 0x1a, 0x60, 0xac]);
    let mut jvm = Jvm::new();
    jvm.load_class_from_bytes(&a.finish(a_class, 0)).unwrap();
    jvm.load_class_from_bytes(&b.finish(b_class, 0)).unwrap();
    jvm.set_entry_class("A");
    assert_eq!(jvm.run(), Ok(Some(DataType::Int(20))));
    assert!(!jvm.classes[0].initialised);
    assert!(jvm.classes[1].initialised);
    // iconst_5; the call that starts the initialiser; its two instructions;
    // two calls of four instructions and the call itself; ireturn
    assert_eq!(u64::MAX - jvm.steps_left, 1 + 1 + 2 + 2 * 5 + 1);
}

/// Two classes: `A` with a static initialiser, and `B` whose initialiser and
/// whose `main` both read the static field `A.x`.
fn init_gate() -> Jvm {
    let mut a = ClassBytes::new();
    let a_class = a.class("A");
    a.method(0x0008, "<clinit>", "()V", 1, 0, &[0x03, 0x57, 0xb1]);
    let mut b = ClassBytes::new();
    let b_class = b.class("B");
    let field = b.field_ref("A", "x", "I");
    let read = [0xb2, 0, field as u8, 0x57, 0xb1];
    b.method(0x0008, "<clinit>", "()V", 1, 0, &read);
    b.method(0x0009, "main", MAIN, 1, 1, &[0xb2, 0, field as u8, 0xac]);
    let mut jvm = Jvm::new();
    jvm.load_class_from_bytes(&a.finish(a_class, 0)).unwrap();
    jvm.load_class_from_bytes(&b.finish(b_class, 0)).unwrap();
    jvm
}

#[test]
fn a_class_is_initialised_at_its_first_touch_and_only_then() {
    let mut jvm = init_gate();
    assert!(!jvm.classes[0].initialised);
    assert!(!jvm.classes[1].initialised);
    assert_eq!(jvm.init_class("B"), Ok(true));
    assert!(jvm.classes[0].initialised);
    assert!(jvm.classes[1].initialised);
    assert!(jvm.stack.is_empty());
    // getstatic (starts A), A's three instructions, getstatic again, pop, return
    assert_eq!(u64::MAX - jvm.steps_left, 7);
    let before = jvm.steps_left;
    jvm.set_entry_class("B");
    assert_eq!(jvm.run(), Ok(Some(DataType::Int(0))));
    // getstatic, ireturn: the initialiser of A does not run again
    assert_eq!(before - jvm.steps_left, 2);
    assert_eq!(jvm.init_class("A"), Ok(false));
    assert_eq!(jvm.init_class("B"), Ok(false));
    assert_eq!(before - jvm.steps_left, 2);
}

#[test]
fn init_class_says_whether_it_initialised() {
    let mut jvm = init_gate();
    assert_eq!(jvm.init_class("A"), Ok(true));
    assert!(jvm.classes[0].initialised);
    assert_eq!(u64::MAX - jvm.steps_left, 3);
    assert_eq!(jvm.init_class("A"), Ok(false));
    assert_eq!(jvm.init_class("A"), Ok(false));
    assert_eq!(u64::MAX - jvm.steps_left, 3);
    assert_eq!(jvm.init_class("C"), Err(Error::ClassNotFound));
}

#[test]
fn a_class_without_initialiser_is_initialised_at_once() {
    let mut jvm = machine(1, 1, &[0xb1]);
    assert_eq!(jvm.init_class("Main"), Ok(true));
    assert!(jvm.classes[0].initialised);
    assert_eq!(jvm.steps_left, u64::MAX);
    assert_eq!(jvm.init_class("Main"), Ok(false));
}

#[test]
fn a_class_is_marked_even_when_its_initialiser_fails() {
    let mut a = ClassBytes::new();
    let a_class = a.class("A");
    a.method(0x0008, "<clinit>", "()V", 1, 0, &[0x03, 0x03, 0x6c, 0xb1]);
    let mut jvm = Jvm::new();
    jvm.load_class_from_bytes(&a.finish(a_class, 0)).unwrap();
    assert_eq!(jvm.init_class("A"), Err(Error::StackOverflow));
    assert!(jvm.classes[0].initialised);
    assert_eq!(jvm.init_class("A"), Ok(false));
}

#[test]
fn static_fields_read_as_the_zero_of_their_type() {
    for (descriptor, expected) in [
        ("I", DataType::Int(0)),
        ("Z", DataType::Int(0)),
        ("B", DataType::Int(0)),
        ("C", DataType::Int(0)),
        ("S", DataType::Int(0)),
        ("F", DataType::Float(0)),
        ("J", DataType::Long(0)),
        ("D", DataType::Double(0)),
        ("Ljava/lang/Object;", DataType::Null),
        ("[I", DataType::Null),
    ] {
        let mut b = ClassBytes::new();
        let this_class = b.class("Main");
        let field = b.field_ref("Main", "x", descriptor);
        b.method(0x0009, "main", MAIN, 1, 1, &[0xb2, 0, field as u8, 0xac]);
        let mut jvm = Jvm::new();
        jvm.load_class_from_bytes(&b.finish(this_class, 0)).unwrap();
        jvm.set_entry_class("Main");
        assert_eq!(jvm.run(), Ok(Some(expected)));
        assert!(jvm.classes[0].initialised);
        assert_eq!(u64::MAX - jvm.steps_left, 3);
    }
}

#[test]
fn static_fields_are_resolved_through_the_pool() {
    let mut b = ClassBytes::new();
    let this_class = b.class("Main");
    let missing = b.field_ref("Other", "x", "I");
    let malformed = b.field_ref("Main", "x", "Q");
    let method = b.method_ref("Main", "main", MAIN);
    let code = |index: u16| vec![0xb2, 0, index as u8, 0xac];
    for (index, expected) in [
        (missing, Error::ClassNotFound),
        (malformed, Error::InvalidDescriptor),
        (method, Error::WrongConstantKind(method as usize)),
        (0, Error::InvalidIndex(0)),
    ] {
        let mut c = ClassBytes::new();
        c.pool = b.pool.clone();
        c.slots = b.slots;
        c.method(0x0009, "main", MAIN, 1, 1, &code(index));
        let mut jvm = Jvm::new();
        jvm.load_class_from_bytes(&c.finish(this_class, 0)).unwrap();
        jvm.set_entry_class("Main");
        assert_eq!(jvm.run(), Err(expected));
    }
}

#[test]
fn values_widen_to_their_computation_type() {
    assert_eq!(DataType::Boolean(true).get_computation_type(), DataType::Int(1));
    assert_eq!(DataType::Boolean(false).get_computation_type(), DataType::Int(0));
    assert_eq!(DataType::Byte(-3).get_computation_type(), DataType::Int(-3));
    assert_eq!(DataType::Char(0xffff).get_computation_type(), DataType::Int(0xffff));
    assert_eq!(DataType::Short(-300).get_computation_type(), DataType::Int(-300));
    for value in [
        DataType::Int(-1),
        DataType::Float(5),
        DataType::Long(9),
        DataType::Double(9),
        DataType::ClassReference(1),
        DataType::ArrayReference(2),
        DataType::InterfaceReference(3),
        DataType::ReturnAddr(4),
        DataType::Null,
        DataType::Empty,
    ] {
        assert_eq!(value.get_computation_type(), value);
    }
}

#[test]
fn primitive_values() {
    for value in [
        DataType::Boolean(true),
        DataType::Byte(0),
        DataType::Char(0),
        DataType::Short(0),
        DataType::Int(0),
        DataType::Float(0),
        DataType::Long(0),
        DataType::Double(0),
    ] {
        assert!(value.is_primitive());
    }
    for value in [
        DataType::ClassReference(0),
        DataType::ArrayReference(0),
        DataType::InterfaceReference(0),
        DataType::ReturnAddr(0),
        DataType::Null,
        DataType::Empty,
    ] {
        assert!(!value.is_primitive());
    }
}

#[test]
fn instructions_have_their_names() {
    assert_eq!(mnemonic(0x00), Some("nop"));
    assert_eq!(mnemonic(0x10), Some("bipush"));
    assert_eq!(mnemonic(0x2e), Some("iaload"));
    assert_eq!(mnemonic(0x32), Some("aaload"));
    assert_eq!(mnemonic(0x4f), Some("iastore"));
    assert_eq!(mnemonic(0x60), Some("iadd"));
    assert_eq!(mnemonic(0x6c), Some("idiv"));
    assert_eq!(mnemonic(0xa7), Some("goto"));
    assert_eq!(mnemonic(0xac), Some("ireturn"));
    assert_eq!(mnemonic(0xb1), Some("return"));
    assert_eq!(mnemonic(0xb2), Some("getstatic"));
    assert_eq!(mnemonic(0xb8), Some("invokestatic"));
    assert_eq!(mnemonic(0xbc), Some("newarray"));
    assert_eq!(mnemonic(0xc9), Some("jsr_w"));
    assert_eq!(mnemonic(0xca), Some("breakpoint"));
    assert_eq!(mnemonic(0xfe), Some("impdep1"));
    assert_eq!(mnemonic(0xff), Some("impdep2"));
    for op in 0xcb..=0xfd {
        assert_eq!(mnemonic(op), None);
    }
    for op in 0x00..=0xca {
        assert!(mnemonic(op).is_some());
    }
    let error = jvm::error::Error::UnimplementedOpcode(0xa7);
    match error {
        Error::UnimplementedOpcode(op) => assert_eq!(mnemonic(op), Some("goto")),
        _ => unreachable!(),
    }
}
