use jvm::bytes::ByteReader;
use jvm::class_file::ClassFile;
use jvm::error::Error;
use jvm::error::ErrorKind;
use jvm::flags::ClassAccessFlags;
use jvm::flags::FieldAccessFlags;
use jvm::flags::MethodAccessFlags;
use jvm::flags::NestedClassAccessFlags;
use jvm::raw::get_class_name;
use jvm::raw::get_constant;
use jvm::raw::get_field_ref;
use jvm::raw::get_method_ref;
use jvm::raw::get_name_and_type;
use jvm::raw::get_utf8;
use jvm::raw::read_attributes;
use jvm::raw::RawAttribute;
use jvm::raw::RawConstant;
use jvm::raw::RawField;
use jvm::raw::RawMethod;
use jvm::resolved::Annotation;
use jvm::resolved::AnnotationElement;
use jvm::resolved::Attribute;
use jvm::resolved::Exception;
use jvm::resolved::Field;
use jvm::resolved::Method;

/// Builds the bytes of a class file piece by piece.
struct ClassBytes {
    pool: Vec<u8>,
    slots: u16,
    access_flags: u16,
    interfaces: Vec<u16>,
    fields: Vec<u8>,
    field_count: u16,
    methods: Vec<u8>,
    method_count: u16,
    attributes: Vec<u8>,
    attribute_count: u16,
}

impl ClassBytes {
    fn new() -> Self {
        ClassBytes {
            pool: Vec::new(),
            slots: 0,
            access_flags: 0x0021,
            interfaces: Vec::new(),
            fields: Vec::new(),
            field_count: 0,
            methods: Vec::new(),
            method_count: 0,
            attributes: Vec::new(),
            attribute_count: 0,
        }
    }

    fn entry(&mut self, bytes: &[u8], slots: u16) -> u16 {
        self.pool.extend_from_slice(bytes);
        let index = self.slots + 1;
        self.slots += slots;
        index
    }

    fn utf8_bytes(&mut self, text: &[u8]) -> u16 {
        let mut bytes = vec![1];
        bytes.extend_from_slice(&(text.len() as u16).to_be_bytes());
        bytes.extend_from_slice(text);
        self.entry(&bytes, 1)
    }

    fn utf8(&mut self, text: &str) -> u16 {
        self.utf8_bytes(text.as_bytes())
    }

    fn tagged(&mut self, tag: u8, indices: &[u16]) -> u16 {
        let mut bytes = vec![tag];
        for index in indices {
            bytes.extend_from_slice(&index.to_be_bytes());
        }
        self.entry(&bytes, 1)
    }

    fn class(&mut self, name: &str) -> u16 {
        let name = self.utf8(name);
        self.tagged(7, &[name])
    }

    fn name_and_type(&mut self, name: &str, descriptor: &str) -> u16 {
        let name = self.utf8(name);
        let descriptor = self.utf8(descriptor);
        self.tagged(12, &[name, descriptor])
    }

    fn member_ref(&mut self, tag: u8, class: &str, name: &str, descriptor: &str) -> u16 {
        let class = self.class(class);
        let name_and_type = self.name_and_type(name, descriptor);
        self.tagged(tag, &[class, name_and_type])
    }

    fn method_ref(&mut self, class: &str, name: &str, descriptor: &str) -> u16 {
        self.member_ref(10, class, name, descriptor)
    }

    fn field_ref(&mut self, class: &str, name: &str, descriptor: &str) -> u16 {
        self.member_ref(9, class, name, descriptor)
    }

    fn long(&mut self, value: i64) -> u16 {
        let mut bytes = vec![5];
        bytes.extend_from_slice(&value.to_be_bytes());
        self.entry(&bytes, 2)
    }

    fn attribute(name: u16, body: &[u8]) -> Vec<u8> {
        let mut bytes = Vec::new();
        bytes.extend_from_slice(&name.to_be_bytes());
        bytes.extend_from_slice(&(body.len() as u32).to_be_bytes());
        bytes.extend_from_slice(body);
        bytes
    }

    fn code_body(max_stack: u16, max_locals: u16, code: &[u8]) -> Vec<u8> {
        let mut body = Vec::new();
        body.extend_from_slice(&max_stack.to_be_bytes());
        body.extend_from_slice(&max_locals.to_be_bytes());
        body.extend_from_slice(&(code.len() as u32).to_be_bytes());
        body.extend_from_slice(code);
        body.extend_from_slice(&[0, 0, 0, 0]);
        body
    }

    fn member(flags: u16, name: u16, descriptor: u16, attributes: &[Vec<u8>]) -> Vec<u8> {
        let mut bytes = Vec::new();
        bytes.extend_from_slice(&flags.to_be_bytes());
        bytes.extend_from_slice(&name.to_be_bytes());
        bytes.extend_from_slice(&descriptor.to_be_bytes());
        bytes.extend_from_slice(&(attributes.len() as u16).to_be_bytes());
        for attribute in attributes {
            bytes.extend_from_slice(attribute);
        }
        bytes
    }

    fn method(
        &mut self,
        flags: u16,
        name: &str,
        descriptor: &str,
        max_stack: u16,
        max_locals: u16,
        code: &[u8],
    ) {
        let name = self.utf8(name);
        let descriptor = self.utf8(descriptor);
        let code_name = self.utf8("Code");
        let body = Self::code_body(max_stack, max_locals, code);
        let bytes = Self::member(flags, name, descriptor, &[Self::attribute(code_name, &body)]);
        self.methods.extend_from_slice(&bytes);
        self.method_count += 1;
    }

    fn raw_method(&mut self, bytes: &[u8]) {
        self.methods.extend_from_slice(bytes);
        self.method_count += 1;
    }

    fn raw_field(&mut self, bytes: &[u8]) {
        self.fields.extend_from_slice(bytes);
        self.field_count += 1;
    }

    fn raw_attribute(&mut self, bytes: &[u8]) {
        self.attributes.extend_from_slice(bytes);
        self.attribute_count += 1;
    }

    fn finish(&self, this_class: u16, super_class: u16) -> Vec<u8> {
        let mut bytes = vec![0xca, 0xfe, 0xba, 0xbe, 0, 3, 0, 52];
        bytes.extend_from_slice(&(self.slots + 1).to_be_bytes());
        bytes.extend_from_slice(&self.pool);
        bytes.extend_from_slice(&self.access_flags.to_be_bytes());
        bytes.extend_from_slice(&this_class.to_be_bytes());
        bytes.extend_from_slice(&super_class.to_be_bytes());
        bytes.extend_from_slice(&(self.interfaces.len() as u16).to_be_bytes());
        for index in &self.interfaces {
            bytes.extend_from_slice(&index.to_be_bytes());
        }
        bytes.extend_from_slice(&self.field_count.to_be_bytes());
        bytes.extend_from_slice(&self.fields);
        bytes.extend_from_slice(&self.method_count.to_be_bytes());
        bytes.extend_from_slice(&self.methods);
        bytes.extend_from_slice(&self.attribute_count.to_be_bytes());
        bytes.extend_from_slice(&self.attributes);
        bytes
    }
}

fn parse(bytes: &[u8]) -> Result<ClassFile, Error> {
    let mut reader = ByteReader::new(bytes);
    ClassFile::read_from(&mut reader)
}

/// A class `Main` with superclass `java/lang/Object` and one public static
/// `main` whose code is `iconst_0; ireturn`.
fn minimal() -> (Vec<u8>, u16, u16) {
    let mut b = ClassBytes::new();
    let this_class = b.class("Main");
    let super_class = b.class("java/lang/Object");
    b.method(0x0009, "main", "([Ljava/lang/String;)V", 1, 1, &[0x03, 0xac]);
    (b.finish(this_class, super_class), this_class, super_class)
}

#[test]
fn minimal_class_is_decoded() {
    let (bytes, this_class, super_class) = minimal();
    let class = parse(&bytes).unwrap();
    assert_eq!(class.version, (52, 3));
    assert_eq!(class.access_flags.bits(), 0x0021);
    assert!(class.access_flags.contains(ClassAccessFlags::PUBLIC | ClassAccessFlags::SUPER));
    assert_eq!(class.this_class, this_class as usize);
    assert_eq!(class.super_class, super_class as usize);
    assert_eq!(class.this_class(), Ok("Main"));
    assert_eq!(class.super_class(), Ok(Some("java/lang/Object")));
    assert_eq!(class.constant_pool.len(), 7);
    assert_eq!(class.interfaces.len(), 0);
    assert_eq!(class.fields.len(), 0);
    assert_eq!(class.methods.len(), 1);
    assert_eq!(class.attributes.len(), 0);
    assert_eq!(class.first_invalid_reference(), None);
}

#[test]
fn entry_point_is_found() {
    let (bytes, _, _) = minimal();
    let class = parse(&bytes).unwrap();
    let main = class.find_entry_point().unwrap();
    assert_eq!(main.name, "main");
    assert_eq!(main.descriptor, "([Ljava/lang/String;)V");
    assert!(main.access_flags.contains(MethodAccessFlags::PUBLIC));
    assert!(main.access_flags.contains(MethodAccessFlags::STATIC));
    match main.code().unwrap().unwrap() {
        Attribute::Code { max_stack, max_locals, code, exception_table, attributes } => {
            assert_eq!(max_stack, 1);
            assert_eq!(max_locals, 1);
            assert_eq!(code, &[0x03, 0xac]);
            assert_eq!(exception_table, vec![]);
            assert_eq!(attributes.len(), 0);
        },
        other => panic!("{:?}", other),
    }
    assert!(class.find_init_method().is_none());
}

#[test]
fn entry_point_must_be_public_and_static() {
    for flags in [0x0001u16, 0x0008, 0x0000, 0x000a] {
        let mut b = ClassBytes::new();
        let this_class = b.class("Main");
        b.method(flags, "main", "([Ljava/lang/String;)V", 1, 1, &[0xb1]);
        let class = parse(&b.finish(this_class, 0)).unwrap();
        assert!(class.find_entry_point().is_none());
        assert!(class.find_method("main", "([Ljava/lang/String;)V").is_some());
    }
    let mut b = ClassBytes::new();
    let this_class = b.class("Main");
    b.method(0x0019, "main", "([Ljava/lang/String;)V", 1, 1, &[0xb1]);
    let class = parse(&b.finish(this_class, 0)).unwrap();
    assert!(class.find_entry_point().is_some());
}

#[test]
fn entry_point_must_have_name_and_descriptor() {
    let mut b = ClassBytes::new();
    let this_class = b.class("Main");
    b.method(0x0009, "main", "()V", 1, 1, &[0xb1]);
    b.method(0x0009, "start", "([Ljava/lang/String;)V", 1, 1, &[0xb1]);
    let class = parse(&b.finish(this_class, 0)).unwrap();
    assert!(class.find_entry_point().is_none());
    assert_eq!(class.find_method_index("start", "([Ljava/lang/String;)V"), Some(1));
    assert_eq!(class.find_method_index("main", "()V"), Some(0));
    assert_eq!(class.find_method_index("main", "(I)V"), None);
}

#[test]
fn the_first_method_of_a_name_is_found() {
    let mut b = ClassBytes::new();
    let this_class = b.class("Main");
    b.method(0x0008, "f", "()V", 1, 0, &[0xb1]);
    b.method(0x0008, "f", "()V", 2, 0, &[0xb1]);
    let class = parse(&b.finish(this_class, 0)).unwrap();
    assert_eq!(class.find_method_index("f", "()V"), Some(0));
    let found = class.find_method("f", "()V").unwrap();
    match found.code().unwrap().unwrap() {
        Attribute::Code { max_stack, .. } => assert_eq!(max_stack, 1),
        other => panic!("{:?}", other),
    }
}

#[test]
fn class_initialiser_is_found() {
    let mut b = ClassBytes::new();
    let this_class = b.class("Main");
    b.method(0x0008, "<clinit>", "()V", 0, 0, &[0xb1]);
    let class = parse(&b.finish(this_class, 0)).unwrap();
    let init = class.find_init_method().unwrap();
    assert_eq!(init.name, "<clinit>");
    assert_eq!(init.descriptor, "()V");

    let mut b = ClassBytes::new();
    let this_class = b.class("Main");
    b.method(0x0001, "<clinit>", "()V", 0, 0, &[0xb1]);
    let class = parse(&b.finish(this_class, 0)).unwrap();
    assert!(class.find_init_method().is_none());
}

#[test]
fn root_class_has_no_superclass() {
    let mut b = ClassBytes::new();
    let this_class = b.class("java/lang/Object");
    let class = parse(&b.finish(this_class, 0)).unwrap();
    assert_eq!(class.this_class(), Ok("java/lang/Object"));
    assert_eq!(class.super_class(), Ok(None));
}

#[test]
fn wrong_magic_is_rejected() {
    let (mut bytes, _, _) = minimal();
    bytes[0] = 0xde;
    bytes[1] = 0xad;
    bytes[2] = 0xbe;
    bytes[3] = 0xef;
    let error = parse(&bytes).unwrap_err();
    assert_eq!(error, Error::InvalidMagic(0xdead_beef));
    assert_eq!(error.kind(), ErrorKind::Decode);
}

#[test]
fn truncated_input_is_rejected() {
    let (bytes, _, _) = minimal();
    for len in 0..bytes.len() {
        assert_eq!(parse(&bytes[..len]).unwrap_err(), Error::EndOfStream);
    }
    assert!(parse(&bytes).is_ok());
}

#[test]
fn trailing_bytes_are_rejected() {
    let (mut bytes, _, _) = minimal();
    bytes.push(0);
    let error = parse(&bytes).unwrap_err();
    assert_eq!(error, Error::TrailingBytes);
    assert_eq!(error.kind(), ErrorKind::Decode);
}

#[test]
fn zero_pool_count_is_rejected() {
    let bytes = [0xca, 0xfe, 0xba, 0xbe, 0, 0, 0, 52, 0, 0];
    assert_eq!(parse(&bytes).unwrap_err(), Error::InvalidPoolCount);
    assert_eq!(Error::InvalidPoolCount.kind(), ErrorKind::Decode);
}

#[test]
fn unknown_constant_tag_is_rejected() {
    for tag in [0u8, 2, 13, 14, 17, 19, 255] {
        let mut b = ClassBytes::new();
        let this_class = b.class("Main");
        b.entry(&[tag, 0, 0], 1);
        let error = parse(&b.finish(this_class, 0)).unwrap_err();
        assert_eq!(error, Error::InvalidConstantTag(tag));
        assert_eq!(error.kind(), ErrorKind::Decode);
    }
}

#[test]
fn every_constant_kind_is_decoded() {
    let mut b = ClassBytes::new();
    let this_class = b.class("Main"); // 1 utf8, 2 class
    let text = b.utf8("text"); // 3
    b.tagged(8, &[text]); // 4 String
    b.entry(&[3, 0xff, 0xff, 0xff, 0xd6], 1); // 5 Integer -42
    b.entry(&[4, 0x3f, 0x80, 0, 0], 1); // 6 Float 1.0
    b.long(-2); // 7, 8
    b.entry(&[6, 0x40, 0x09, 0x21, 0xfb, 0x54, 0x44, 0x2d, 0x18], 2); // 9, 10 Double pi
    let nat = b.name_and_type("f", "()V"); // 11 utf8, 12 utf8, 13
    b.tagged(10, &[this_class, nat]); // 14 MethodRef
    b.tagged(11, &[this_class, nat]); // 15 InterfaceMethodRef
    b.tagged(9, &[this_class, nat]); // 16 FieldRef
    b.entry(&[15, 6, 0, 14], 1); // 17 MethodHandle
    b.tagged(16, &[12]); // 18 MethodType
    b.tagged(18, &[0, nat]); // 19 InvokeDynamic
    let class = parse(&b.finish(this_class, 0)).unwrap();
    let pool = &class.constant_pool;
    assert_eq!(pool.len(), 19);
    assert!(matches!(&pool[0], RawConstant::Utf8 { string } if string == "Main"));
    assert!(matches!(pool[1], RawConstant::Class { name_index: 1 }));
    assert!(matches!(pool[3], RawConstant::String { string_index: 3 }));
    assert!(matches!(pool[4], RawConstant::Integer { num: -42 }));
    assert!(matches!(pool[5], RawConstant::Float { bits } if f32::from_bits(bits) == 1.0));
    assert!(matches!(pool[6], RawConstant::Long { num: -2 }));
    assert!(matches!(pool[7], RawConstant::Unused));
    assert!(
        matches!(pool[8], RawConstant::Double { bits } if f64::from_bits(bits) == std::f64::consts::PI)
    );
    assert!(matches!(pool[9], RawConstant::Unused));
    assert!(matches!(pool[12], RawConstant::NameAndType { name_index: 11, descriptor_index: 12 }));
    assert!(matches!(pool[13], RawConstant::MethodRef { class_index: 2, name_and_type_index: 13 }));
    assert!(matches!(
        pool[14],
        RawConstant::InterfaceMethodRef { class_index: 2, name_and_type_index: 13 }
    ));
    assert!(matches!(pool[15], RawConstant::FieldRef { class_index: 2, name_and_type_index: 13 }));
    assert!(matches!(pool[16], RawConstant::MethodHandle { reference_kind: 6, reference_index: 14 }));
    assert!(matches!(pool[17], RawConstant::MethodType { descriptor_index: 12 }));
    assert!(matches!(
        pool[18],
        RawConstant::InvokeDynamic { bootstrap_method_attr_index: 0, name_and_type_index: 13 }
    ));
    assert_eq!(get_method_ref(pool, 14), Ok(("Main", "f", "()V")));
    assert_eq!(get_method_ref(pool, 15), Ok(("Main", "f", "()V")));
    assert_eq!(get_field_ref(pool, 16), Ok(("Main", "f", "()V")));
    assert_eq!(get_method_ref(pool, 16), Err(Error::WrongConstantKind(16)));
    assert_eq!(get_field_ref(pool, 14), Err(Error::WrongConstantKind(14)));
    assert_eq!(get_name_and_type(pool, 13), Ok(("f", "()V")));
    assert_eq!(get_name_and_type(pool, 2), Err(Error::WrongConstantKind(2)));
    assert_eq!(get_class_name(pool, 2), Ok("Main"));
    assert_eq!(get_class_name(pool, 1), Err(Error::WrongConstantKind(1)));
    assert_eq!(get_utf8(pool, 2), Err(Error::WrongConstantKind(2)));
    assert_eq!(Error::WrongConstantKind(2).kind(), ErrorKind::Link);
}

#[test]
fn long_takes_two_slots() {
    let mut b = ClassBytes::new();
    let this_class = b.class("Main"); // 1, 2
    b.utf8("a"); // 3
    b.utf8("b"); // 4
    b.utf8("c"); // 5
    b.utf8("d"); // 6
    let long = b.long(0x0102_0304_0506_0708); // 7, 8
    assert_eq!(long, 7);
    let after = b.utf8("after"); // 9
    assert_eq!(after, 9);
    let class = parse(&b.finish(this_class, 0)).unwrap();
    let pool = &class.constant_pool;
    assert_eq!(pool.len(), 9);
    assert!(matches!(pool[7], RawConstant::Unused));
    assert!(matches!(
        get_constant(pool, 7),
        Ok(RawConstant::Long { num: 0x0102_0304_0506_0708 })
    ));
    assert!(matches!(get_constant(pool, 8), Err(Error::InvalidIndex(8))));
    assert_eq!(get_utf8(pool, 9), Ok("after"));
    assert!(matches!(get_constant(pool, 0), Err(Error::InvalidIndex(0))));
    assert!(matches!(get_constant(pool, 10), Err(Error::DanglingIndex(10))));
    assert_eq!(Error::InvalidIndex(8).kind(), ErrorKind::Decode);
    assert_eq!(Error::DanglingIndex(10).kind(), ErrorKind::Link);
}

#[test]
fn reference_to_the_second_slot_of_a_long_is_rejected() {
    let mut b = ClassBytes::new();
    let this_class = b.class("Main"); // 1, 2
    b.utf8("a"); // 3
    b.utf8("b"); // 4
    b.utf8("c"); // 5
    b.utf8("d"); // 6
    b.long(1); // 7, 8
    b.tagged(8, &[8]); // 9: a String whose text is slot 8
    assert_eq!(parse(&b.finish(this_class, 0)).unwrap_err(), Error::InvalidIndex(8));

    let mut b = ClassBytes::new();
    let this_class = b.class("Main");
    b.utf8("a");
    b.utf8("b");
    b.utf8("c");
    b.utf8("d");
    b.long(1);
    assert_eq!(parse(&b.finish(this_class, 8)).unwrap_err(), Error::InvalidIndex(8));
    assert!(parse(&b.finish(this_class, 7)).is_ok());
}

#[test]
fn long_in_the_last_slot_still_brings_its_second_slot() {
    let mut b = ClassBytes::new();
    let this_class = b.class("Main"); // 1, 2
    b.long(5); // 3, 4
    b.slots -= 1; // the count in the file says that the pool ends at slot 3
    let class = parse(&b.finish(this_class, 0)).unwrap();
    assert_eq!(class.constant_pool.len(), 4);
    assert!(matches!(class.constant_pool[3], RawConstant::Unused));
}

#[test]
fn indices_out_of_the_pool_are_rejected() {
    let (bytes, this_class, _) = minimal();
    let pool_len = parse(&bytes).unwrap().constant_pool.len() as u16;

    let mut b = ClassBytes::new();
    b.class("Main");
    assert_eq!(parse(&b.finish(0, 0)).unwrap_err(), Error::InvalidIndex(0));
    assert_eq!(parse(&b.finish(3, 0)).unwrap_err(), Error::DanglingIndex(3));
    assert_eq!(parse(&b.finish(2, 3)).unwrap_err(), Error::DanglingIndex(3));
    b.interfaces.push(9);
    assert_eq!(parse(&b.finish(2, 0)).unwrap_err(), Error::DanglingIndex(9));

    let mut b = ClassBytes::new();
    let this_class2 = b.class("Main");
    b.tagged(7, &[40]);
    assert_eq!(parse(&b.finish(this_class2, 0)).unwrap_err(), Error::DanglingIndex(40));

    let mut b = ClassBytes::new();
    let this_class3 = b.class("Main");
    b.raw_method(&ClassBytes::member(0x0008, 1, 77, &[]));
    assert_eq!(parse(&b.finish(this_class3, 0)).unwrap_err(), Error::DanglingIndex(77));

    let mut b = ClassBytes::new();
    let this_class4 = b.class("Main");
    b.raw_field(&ClassBytes::member(0x0008, 1, 1, &[ClassBytes::attribute(55, &[])]));
    assert_eq!(parse(&b.finish(this_class4, 0)).unwrap_err(), Error::DanglingIndex(55));

    let mut b = ClassBytes::new();
    let this_class5 = b.class("Main");
    b.raw_attribute(&ClassBytes::attribute(66, &[1, 2, 3]));
    assert_eq!(parse(&b.finish(this_class5, 0)).unwrap_err(), Error::DanglingIndex(66));

    assert!(pool_len > 0 && this_class > 0);
}

#[test]
fn every_reference_of_a_decoded_class_can_be_followed() {
    let mut b = ClassBytes::new();
    let this_class = b.class("Main");
    let super_class = b.class("java/lang/Object");
    let interface = b.class("java/lang/Runnable");
    b.interfaces.push(interface);
    b.method_ref("Other", "f", "(I)I");
    b.field_ref("Other", "x", "I");
    b.long(7);
    b.method(0x0009, "main", "([Ljava/lang/String;)V", 1, 1, &[0xb1]);
    let name = b.utf8("x");
    let descriptor = b.utf8("I");
    let source = b.utf8("SourceFile");
    b.raw_field(&ClassBytes::member(0x0008, name, descriptor, &[]));
    b.raw_attribute(&ClassBytes::attribute(source, &name.to_be_bytes()));
    let class = parse(&b.finish(this_class, super_class)).unwrap();
    let references = class.references();
    assert!(!references.is_empty());
    assert_eq!(references[0], this_class as usize);
    assert_eq!(references[1], super_class as usize);
    assert_eq!(references[2], interface as usize);
    for index in references {
        assert!(index >= 1 && index <= class.constant_pool.len());
        assert!(!matches!(class.constant_pool[index - 1], RawConstant::Unused));
        assert!(get_constant(&class.constant_pool, index).is_ok());
    }
    let interfaces = class.interfaces().unwrap();
    assert_eq!(interfaces.len(), 1);
    assert!(matches!(interfaces[0], RawConstant::Class { .. }));
}

#[test]
fn unknown_field_flags_are_rejected() {
    let mut b = ClassBytes::new();
    let this_class = b.class("Main");
    b.raw_field(&ClassBytes::member(0x0020, 1, 1, &[]));
    let error = parse(&b.finish(this_class, 0)).unwrap_err();
    assert_eq!(error, Error::InvalidAccessFlags(0x0020));
    assert_eq!(error.kind(), ErrorKind::Decode);
    let mut b = ClassBytes::new();
    let this_class = b.class("Main");
    b.raw_field(&ClassBytes::member(0x50df, 1, 1, &[]));
    let class = parse(&b.finish(this_class, 0)).unwrap();
    assert_eq!(class.fields[0].access_flags.bits(), 0x50df);
}

#[test]
fn unknown_method_flags_are_rejected() {
    let mut b = ClassBytes::new();
    let this_class = b.class("Main");
    b.raw_method(&ClassBytes::member(0x0200, 1, 1, &[]));
    assert_eq!(parse(&b.finish(this_class, 0)).unwrap_err(), Error::InvalidAccessFlags(0x0200));
    let mut b = ClassBytes::new();
    let this_class = b.class("Main");
    b.raw_method(&ClassBytes::member(0x1dff, 1, 1, &[]));
    let class = parse(&b.finish(this_class, 0)).unwrap();
    assert_eq!(class.methods[0].access_flags.bits(), 0x1dff);
}

#[test]
fn unknown_class_flags_are_kept() {
    let mut b = ClassBytes::new();
    let this_class = b.class("Main");
    b.access_flags = 0xffff;
    let class = parse(&b.finish(this_class, 0)).unwrap();
    assert_eq!(class.access_flags.bits(), 0xffff);
}

#[test]
fn flag_sets_know_their_bits() {
    assert_eq!(ClassAccessFlags::ALL, 0xf631);
    assert_eq!(FieldAccessFlags::ALL, 0x50df);
    assert_eq!(MethodAccessFlags::ALL, 0x1dff);
    assert_eq!(NestedClassAccessFlags::ALL, 0x761f);
    assert!(ClassAccessFlags::from_bits(0x0002).is_none());
    assert_eq!(ClassAccessFlags::from_bits(0x8000).unwrap().bits(), 0x8000);
    assert!(FieldAccessFlags::from_bits(0x0100).is_none());
    assert!(MethodAccessFlags::from_bits(0x0200).is_none());
    assert!(NestedClassAccessFlags::from_bits(0x0020).is_none());
    assert_eq!(NestedClassAccessFlags::from_bits(0x0608).unwrap().bits(), 0x0608);
    let flags = MethodAccessFlags::from_bits_retain(0x0109);
    assert!(flags.intersects(MethodAccessFlags::NATIVE));
    assert!(!flags.intersects(MethodAccessFlags::ABSTRACT));
    assert!(flags.contains(MethodAccessFlags::PUBLIC | MethodAccessFlags::STATIC));
    assert!(!flags.contains(MethodAccessFlags::PUBLIC | MethodAccessFlags::FINAL));
    assert_eq!(FieldAccessFlags::default().bits(), 0);
}

#[test]
fn modified_utf8_is_decoded() {
    let mut b = ClassBytes::new();
    let this_class = b.class("Main");
    let nul = b.utf8_bytes(&[0x61, 0xc0, 0x80, 0x62]);
    let pair = b.utf8_bytes(&[0xed, 0xa0, 0x81, 0xed, 0xb0, 0x81]);
    let plain = b.utf8_bytes("aé日".as_bytes());
    let class = parse(&b.finish(this_class, 0)).unwrap();
    assert_eq!(get_utf8(&class.constant_pool, nul as usize), Ok("a\0b"));
    assert_eq!(get_utf8(&class.constant_pool, pair as usize), Ok("\u{10401}"));
    assert_eq!(get_utf8(&class.constant_pool, plain as usize), Ok("aé日"));
}

#[test]
fn malformed_utf8_is_rejected() {
    for text in [&[0xc0u8][..], &[0xed, 0xa0, 0x81], &[0xff], &[0x61, 0x80]] {
        let mut b = ClassBytes::new();
        let this_class = b.class("Main");
        b.utf8_bytes(text);
        let error = parse(&b.finish(this_class, 0)).unwrap_err();
        assert_eq!(error, Error::InvalidUtf8);
        assert_eq!(error.kind(), ErrorKind::Decode);
    }
}

#[test]
fn utf8_entries_are_made_from_decoded_text() {
    let made = RawConstant::utf8_from_decoded(Ok("text".to_string())).unwrap();
    assert!(matches!(&made, RawConstant::Utf8 { string } if string == "text"));
    assert_eq!(made.unwrap_utf8(), "text");
    assert!(matches!(
        RawConstant::utf8_from_decoded(Err(cesu8::Cesu8DecodingError)),
        Err(Error::InvalidUtf8)
    ));
}

#[test]
fn constants_are_read_one_by_one() {
    let mut r = ByteReader::new(&[5, 0, 0, 0, 0, 0, 0, 0, 9, 7, 0, 3, 99]);
    let (long, double) = RawConstant::read_from(&mut r).unwrap();
    assert!(matches!(long, RawConstant::Long { num: 9 }));
    assert!(double);
    let (class, double) = RawConstant::read_from(&mut r).unwrap();
    assert!(matches!(class, RawConstant::Class { name_index: 3 }));
    assert!(!double);
    assert!(matches!(RawConstant::read_from(&mut r), Err(Error::InvalidConstantTag(99))));
    assert!(matches!(RawConstant::read_from(&mut r), Err(Error::EndOfStream)));
}

#[test]
fn raw_members_are_read() {
    let attribute = ClassBytes::attribute(4, &[1, 2, 3]);
    let mut r = ByteReader::new(&attribute);
    let raw = RawAttribute::read_from(&mut r).unwrap();
    assert_eq!(raw.attribute_name_index, 4);
    assert_eq!(raw.info, vec![1, 2, 3]);
    assert!(r.as_slice().is_empty());

    let member = ClassBytes::member(0x0008, 5, 6, &[attribute.clone(), attribute.clone()]);
    let mut r = ByteReader::new(&member);
    let field = RawField::read_from(&mut r).unwrap();
    assert_eq!(field.access_flags.bits(), 0x0008);
    assert_eq!(field.name_index, 5);
    assert_eq!(field.descriptor_index, 6);
    assert_eq!(field.attributes.len(), 2);
    assert_eq!(field.attributes[1].info, vec![1, 2, 3]);
    let mut r = ByteReader::new(&member);
    let method = RawMethod::read_from(&mut r).unwrap();
    assert_eq!(method.access_flags.bits(), 0x0008);
    assert_eq!(method.name_index, 5);
    assert_eq!(method.attributes.len(), 2);

    let mut two = attribute.clone();
    two.extend_from_slice(&ClassBytes::attribute(9, &[]));
    let mut r = ByteReader::new(&two);
    let both = read_attributes(&mut r, 2).unwrap();
    assert_eq!(both.len(), 2);
    assert_eq!(both[1].attribute_name_index, 9);
    let mut r = ByteReader::new(&two);
    assert!(matches!(read_attributes(&mut r, 3), Err(Error::EndOfStream)));

    let short = &attribute[..attribute.len() - 1];
    let mut r = ByteReader::new(short);
    assert!(matches!(RawAttribute::read_from(&mut r), Err(Error::EndOfStream)));
    let mut r = ByteReader::new(&[0, 0x20, 0, 1, 0, 1, 0, 0]);
    assert!(matches!(RawField::read_from(&mut r), Err(Error::InvalidAccessFlags(0x20))));
    let mut r = ByteReader::new(&[0x02, 0, 0, 1, 0, 1, 0, 0]);
    assert!(matches!(RawMethod::read_from(&mut r), Err(Error::InvalidAccessFlags(0x200))));
}

/// A pool in which index `i` is the Utf8 entry of `names[i - 1]`.
fn pool_of(names: &[&str]) -> Vec<RawConstant> {
    names.iter().map(|name| RawConstant::Utf8 { string: name.to_string() }).collect()
}

fn decode<'a>(
    pool: &'a [RawConstant],
    raw: &'a RawAttribute,
) -> Result<Attribute<'a>, Error> {
    Attribute::from_raw(raw, pool)
}

#[test]
fn code_attribute_is_decoded() {
    let pool = pool_of(&["Code", "LineNumberTable"]);
    let mut body = vec![0, 2, 0, 3, 0, 0, 0, 4, 0x03, 0x3b, 0x1a, 0xac];
    body.extend_from_slice(&[0, 2]);
    body.extend_from_slice(&[0, 0, 0, 4, 0, 4, 0, 9]);
    body.extend_from_slice(&[0, 1, 0, 2, 0, 3, 0, 0]);
    body.extend_from_slice(&[0, 1]);
    let nested = ClassBytes::attribute(2, &[0, 1, 0, 0, 0, 7]);
    body.extend_from_slice(&nested);
    let raw = RawAttribute { attribute_name_index: 1, info: body.clone() };
    match decode(&pool, &raw).unwrap() {
        Attribute::Code { max_stack, max_locals, code, exception_table, attributes } => {
            assert_eq!(max_stack, 2);
            assert_eq!(max_locals, 3);
            assert_eq!(code, &[0x03, 0x3b, 0x1a, 0xac]);
            assert_eq!(
                exception_table,
                vec![
                    Exception { start_pc: 0, end_pc: 4, handler_pc: 4, catch_type: 9 },
                    Exception { start_pc: 1, end_pc: 2, handler_pc: 3, catch_type: 0 },
                ]
            );
            assert_eq!(attributes.len(), 1);
            assert_eq!(attributes[0].attribute_name_index, 2);
            assert_eq!(attributes[0].info, vec![0, 1, 0, 0, 0, 7]);
            let attributes_size: usize = attributes.iter().map(|a| 6 + a.info.len()).sum();
            assert_eq!(exception_table.len() * 8 + 12 + code.len() + attributes_size, body.len());
            match decode(&pool, &attributes[0]).unwrap() {
                Attribute::LineNumberTable { table } => {
                    assert_eq!(table.len(), 1);
                    assert_eq!(table[0].start_pc, 0);
                    assert_eq!(table[0].line_number, 7);
                },
                other => panic!("{:?}", other),
            }
        },
        other => panic!("{:?}", other),
    }
}

#[test]
fn code_attribute_must_be_used_up() {
    let pool = pool_of(&["Code"]);
    let body = ClassBytes::code_body(1, 1, &[0xb1]);
    for len in 0..body.len() {
        let raw = RawAttribute { attribute_name_index: 1, info: body[..len].to_vec() };
        assert!(matches!(decode(&pool, &raw), Err(Error::EndOfStream)));
    }
    let mut long = body.clone();
    long.push(0);
    let raw = RawAttribute { attribute_name_index: 1, info: long };
    assert!(matches!(decode(&pool, &raw), Err(Error::TrailingBytes)));
    let raw = RawAttribute { attribute_name_index: 1, info: body };
    assert!(decode(&pool, &raw).is_ok());
}

#[test]
fn attributes_with_a_body_are_decoded() {
    let mut pool = pool_of(&[
        "ConstantValue",
        "Exceptions",
        "InnerClasses",
        "EnclosingMethod",
        "Signature",
        "SourceFile",
        "SourceDebugExtension",
        "LineNumberTable",
        "LocalVariableTable",
        "LocalVariableTypeTable",
        "BootstrapMethods",
        "Main.java",
        "this",
        "LMain;",
    ]);
    pool.push(RawConstant::Integer { num: 17 }); // 15
    pool.push(RawConstant::Class { name_index: 12 }); // 16
    let attribute = |name: usize, info: &[u8]| RawAttribute {
        attribute_name_index: name,
        info: info.to_vec(),
    };

    let raw = attribute(1, &[0, 15]);
    assert!(matches!(
        decode(&pool, &raw),
        Ok(Attribute::ConstantValue { value: RawConstant::Integer { num: 17 } })
    ));

    let raw = attribute(2, &[0, 2, 0, 16, 0, 15]);
    assert!(matches!(
        decode(&pool, &raw),
        Ok(Attribute::Exceptions { exception_index_table }) if exception_index_table == vec![16, 15]
    ));

    let raw = attribute(3, &[0, 1, 0, 16, 0, 16, 0, 13, 0x06, 0x08]);
    match decode(&pool, &raw).unwrap() {
        Attribute::InnerClasses { classes } => {
            assert_eq!(classes.len(), 1);
            assert!(matches!(classes[0].inner_class_info, RawConstant::Class { name_index: 12 }));
            assert!(matches!(classes[0].outer_class_info, RawConstant::Class { name_index: 12 }));
            assert_eq!(classes[0].inner_name, "this");
            assert_eq!(classes[0].inner_class_access_flags.bits(), 0x0608);
        },
        other => panic!("{:?}", other),
    }
    let raw = attribute(3, &[0, 1, 0, 16, 0, 16, 0, 13, 0x00, 0x20]);
    assert!(matches!(decode(&pool, &raw), Err(Error::InvalidAccessFlags(0x20))));
    let raw = attribute(3, &[0, 1, 0, 16, 0, 0, 0, 13, 0x00, 0x01]);
    assert!(matches!(decode(&pool, &raw), Err(Error::InvalidIndex(0))));
    let raw = attribute(3, &[0, 1, 0, 16, 0, 16, 0, 16, 0x00, 0x01]);
    assert!(matches!(decode(&pool, &raw), Err(Error::WrongConstantKind(16))));

    let raw = attribute(4, &[0, 16, 0, 15]);
    assert!(matches!(
        decode(&pool, &raw),
        Ok(Attribute::EnclosingMethod {
            class: RawConstant::Class { .. },
            method_index: RawConstant::Integer { .. }
        })
    ));

    let raw = attribute(5, &[0, 14]);
    assert!(matches!(
        decode(&pool, &raw),
        Ok(Attribute::Signature { signature: RawConstant::Utf8 { string } }) if string == "LMain;"
    ));

    let raw = attribute(6, &[0, 12]);
    assert!(matches!(
        decode(&pool, &raw),
        Ok(Attribute::SourceFile { sourcefile: "Main.java" })
    ));
    let raw = attribute(6, &[0, 15]);
    assert!(matches!(decode(&pool, &raw), Err(Error::WrongConstantKind(15))));
    let raw = attribute(6, &[0, 99]);
    assert!(matches!(decode(&pool, &raw), Err(Error::DanglingIndex(99))));
    let raw = attribute(6, &[0]);
    assert!(matches!(decode(&pool, &raw), Err(Error::EndOfStream)));

    let raw = attribute(7, &[1, 2, 3]);
    assert!(matches!(
        decode(&pool, &raw),
        Ok(Attribute::SourceDebugExtension { debug_extension: &[1, 2, 3] })
    ));

    let raw = attribute(8, &[0, 2, 0, 0, 0, 10, 0, 5, 0, 11]);
    match decode(&pool, &raw).unwrap() {
        Attribute::LineNumberTable { table } => {
            assert_eq!(table.len(), 2);
            assert_eq!((table[0].start_pc, table[0].line_number), (0, 10));
            assert_eq!((table[1].start_pc, table[1].line_number), (5, 11));
        },
        other => panic!("{:?}", other),
    }
    let raw = attribute(8, &[0, 2, 0, 0, 0, 10, 0, 5, 0]);
    assert!(matches!(decode(&pool, &raw), Err(Error::EndOfStream)));

    let raw = attribute(9, &[0, 1, 0, 3, 0, 9, 0, 13, 0, 14, 0, 2]);
    match decode(&pool, &raw).unwrap() {
        Attribute::LocalVariableTable { table } => {
            assert_eq!(table.len(), 1);
            assert_eq!(table[0].start_pc, 3);
            assert_eq!(table[0].length, 9);
            assert_eq!(table[0].name, "this");
            assert_eq!(table[0].descriptor, "LMain;");
            assert_eq!(table[0].index, 2);
        },
        other => panic!("{:?}", other),
    }

    let raw = attribute(10, &[0, 1, 0, 3, 0, 9, 0, 13, 0, 14, 0, 2]);
    match decode(&pool, &raw).unwrap() {
        Attribute::LocalVariableTypeTable { table } => {
            assert_eq!(table.len(), 1);
            assert_eq!(table[0].name, "this");
            assert_eq!(table[0].signature, "LMain;");
            assert_eq!(table[0].index, 2);
        },
        other => panic!("{:?}", other),
    }

    let raw = attribute(11, &[0, 2, 0, 16, 0, 2, 0, 15, 0, 12, 0, 15, 0, 0]);
    match decode(&pool, &raw).unwrap() {
        Attribute::BootstrapMethods { methods } => {
            assert_eq!(methods.len(), 2);
            assert!(matches!(methods[0].method_ref, RawConstant::Class { .. }));
            assert_eq!(methods[0].arguments.len(), 2);
            assert!(matches!(methods[0].arguments[0], RawConstant::Integer { num: 17 }));
            assert!(matches!(methods[0].arguments[1], RawConstant::Utf8 { .. }));
            assert!(matches!(methods[1].method_ref, RawConstant::Integer { .. }));
            assert_eq!(methods[1].arguments.len(), 0);
        },
        other => panic!("{:?}", other),
    }
    let raw = attribute(11, &[0, 1, 0, 16, 0, 1, 0, 40]);
    assert!(matches!(decode(&pool, &raw), Err(Error::DanglingIndex(40))));
}

#[test]
fn attributes_without_a_body_are_recognised() {
    let pool = pool_of(&[
        "StackMapTable",
        "Synthetic",
        "Deprecated",
        "RuntimeVisibleAnnotations",
        "RuntimeInvisibleAnnotations",
        "RuntimeVisibleParameterAnnotations",
        "RuntimeInvisibleParameterAnnotations",
        "AnnotationDefault",
    ]);
    let raws: Vec<RawAttribute> = (1..=8)
        .map(|name| RawAttribute { attribute_name_index: name, info: vec![9, 9] })
        .collect();
    assert!(matches!(decode(&pool, &raws[0]), Ok(Attribute::StackMapTable)));
    assert!(matches!(decode(&pool, &raws[1]), Ok(Attribute::Synthetic)));
    assert!(matches!(decode(&pool, &raws[2]), Ok(Attribute::Deprecated)));
    assert!(matches!(decode(&pool, &raws[3]), Ok(Attribute::RuntimeVisibleAnnotations)));
    assert!(matches!(decode(&pool, &raws[4]), Ok(Attribute::RuntimeInvisibleAnnotations)));
    assert!(matches!(decode(&pool, &raws[5]), Ok(Attribute::RuntimeVisibleParameterAnnotations)));
    assert!(matches!(decode(&pool, &raws[6]), Ok(Attribute::RuntimeInvisibleParameterAnnotations)));
    assert!(matches!(decode(&pool, &raws[7]), Ok(Attribute::AnnotationDefault)));
}

#[test]
fn unknown_attributes_keep_name_and_bytes() {
    let pool = pool_of(&["Custom", "code"]);
    let raw = RawAttribute { attribute_name_index: 1, info: vec![1, 2, 3, 4] };
    assert!(matches!(
        decode(&pool, &raw),
        Ok(Attribute::Other { name: "Custom", info: &[1, 2, 3, 4] })
    ));
    let raw = RawAttribute { attribute_name_index: 2, info: vec![] };
    assert!(matches!(decode(&pool, &raw), Ok(Attribute::Other { name: "code", info: &[] })));
}

#[test]
fn attribute_names_must_be_text_in_the_pool() {
    let mut pool = pool_of(&["Code"]);
    pool.push(RawConstant::Integer { num: 1 });
    pool.push(RawConstant::Unused);
    let raw = RawAttribute { attribute_name_index: 0, info: vec![] };
    assert!(matches!(decode(&pool, &raw), Err(Error::InvalidIndex(0))));
    let raw = RawAttribute { attribute_name_index: 2, info: vec![] };
    assert!(matches!(decode(&pool, &raw), Err(Error::WrongConstantKind(2))));
    let raw = RawAttribute { attribute_name_index: 3, info: vec![] };
    assert!(matches!(decode(&pool, &raw), Err(Error::InvalidIndex(3))));
    let raw = RawAttribute { attribute_name_index: 4, info: vec![] };
    assert!(matches!(decode(&pool, &raw), Err(Error::DanglingIndex(4))));
}

#[test]
fn members_are_resolved() {
    let mut b = ClassBytes::new();
    let this_class = b.class("Main");
    b.method(0x0009, "main", "([Ljava/lang/String;)V", 1, 1, &[0xb1]);
    b.method(0x0008, "f", "(I)I", 1, 1, &[0x1a, 0xac]);
    let name = b.utf8("x");
    let descriptor = b.utf8("I");
    let constant_value = b.utf8("ConstantValue");
    let seven = b.entry(&[3, 0, 0, 0, 7], 1);
    b.raw_field(&ClassBytes::member(
        0x0018,
        name,
        descriptor,
        &[ClassBytes::attribute(constant_value, &seven.to_be_bytes())],
    ));
    let source = b.utf8("SourceFile");
    let file = b.utf8("Main.java");
    b.raw_attribute(&ClassBytes::attribute(source, &file.to_be_bytes()));
    let class = parse(&b.finish(this_class, 0)).unwrap();

    let methods = class.methods().unwrap();
    assert_eq!(methods.len(), 2);
    assert_eq!(methods[0].name, "main");
    assert_eq!(methods[1].name, "f");
    assert_eq!(methods[1].descriptor, "(I)I");
    assert_eq!(methods[1].access_flags.bits(), 0x0008);
    let attributes = methods[1].attributes().unwrap();
    assert_eq!(attributes.len(), 1);
    assert!(matches!(attributes[0], Attribute::Code { code: &[0x1a, 0xac], .. }));

    let fields = class.fields().unwrap();
    assert_eq!(fields.len(), 1);
    assert_eq!(fields[0].name, "x");
    assert_eq!(fields[0].descriptor, "I");
    assert!(fields[0].access_flags.contains(FieldAccessFlags::STATIC | FieldAccessFlags::FINAL));
    let attributes = fields[0].attributes().unwrap();
    assert!(matches!(
        attributes[0],
        Attribute::ConstantValue { value: RawConstant::Integer { num: 7 } }
    ));

    let attributes = class.attributes().unwrap();
    assert_eq!(attributes.len(), 1);
    assert!(matches!(attributes[0], Attribute::SourceFile { sourcefile: "Main.java" }));

    let again = Method::from_raw(&class.methods[1], &class.constant_pool).unwrap();
    assert_eq!(again.name, "f");
    let again = Field::from_raw(&class.fields[0], &class.constant_pool).unwrap();
    assert_eq!(again.name, "x");
}

#[test]
fn members_with_names_of_the_wrong_kind_are_not_resolved() {
    let mut b = ClassBytes::new();
    let this_class = b.class("Main");
    b.raw_method(&ClassBytes::member(0x0008, this_class, 1, &[]));
    let class = parse(&b.finish(this_class, 0)).unwrap();
    assert!(matches!(class.methods(), Err(Error::WrongConstantKind(2))));
    assert!(class.find_method("Main", "Main").is_none());
    assert!(matches!(
        Method::from_raw(&class.methods[0], &class.constant_pool),
        Err(Error::WrongConstantKind(2))
    ));
}

#[test]
fn method_without_code_has_none() {
    let mut b = ClassBytes::new();
    let this_class = b.class("Main");
    b.raw_method(&ClassBytes::member(0x0401, 1, 1, &[]));
    let class = parse(&b.finish(this_class, 0)).unwrap();
    let methods = class.methods().unwrap();
    assert!(matches!(methods[0].code(), Ok(None)));
}

#[test]
fn class_name_of_the_wrong_kind_is_a_link_error() {
    let mut b = ClassBytes::new();
    b.class("Main");
    let class = parse(&b.finish(1, 0)).unwrap();
    assert_eq!(class.this_class(), Err(Error::WrongConstantKind(1)));
    let class = parse(&b.finish(2, 1)).unwrap();
    assert_eq!(class.super_class(), Err(Error::WrongConstantKind(1)));
}

#[test]
fn annotations_are_plain_records() {
    let element = AnnotationElement { name: "value" };
    let annotation = Annotation { ty: "Ljava/lang/Deprecated;", elements: vec![element] };
    assert_eq!(annotation.ty, "Ljava/lang/Deprecated;");
    assert_eq!(annotation.elements[0].name, "value");
}
