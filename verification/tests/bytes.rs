use jvm::bytes::read_u16s;
use jvm::bytes::ByteReader;
use jvm::bytes::ReadNum;
use jvm::error::Error;
use jvm::error::ErrorKind;

#[test]
fn unsigned_reads_are_big_endian() {
    let bytes = [
        0x12, 0x34, 0x56, 0x78, 0x9a, 0xbc, 0xde, 0xf0, 0x01, 0x02, 0x03, 0x04, 0x05, 0x06, 0x07,
    ];
    let mut r = ByteReader::new(&bytes);
    assert_eq!(r.read_u8(), Ok(0x12));
    assert_eq!(r.read_u16(), Ok(0x3456));
    assert_eq!(r.read_u32(), Ok(0x789a_bcde));
    assert_eq!(r.read_u64(), Ok(0xf001_0203_0405_0607));
    assert!(r.is_exhausted());
}

#[test]
fn wide_reads_are_big_endian() {
    let bytes: Vec<u8> = (1..=16).collect();
    let mut r = ByteReader::new(&bytes);
    assert_eq!(r.read_u128(), Ok(0x0102_0304_0506_0708_090a_0b0c_0d0e_0f10));
    let mut r = ByteReader::new(&bytes);
    assert_eq!(r.read_i128(), Ok(0x0102_0304_0506_0708_090a_0b0c_0d0e_0f10));
    let ones = [0xffu8; 16];
    let mut r = ByteReader::new(&ones);
    assert_eq!(r.read_i128(), Ok(-1));
    let mut r = ByteReader::new(&ones);
    assert_eq!(r.read_u128(), Ok(u128::MAX));
}

#[test]
fn signed_reads_are_twos_complement() {
    let mut r = ByteReader::new(&[0xff, 0x80, 0x7f]);
    assert_eq!(r.read_i8(), Ok(-1));
    assert_eq!(r.read_i8(), Ok(-128));
    assert_eq!(r.read_i8(), Ok(127));
    let mut r = ByteReader::new(&[0xff, 0xfe, 0x80, 0x00]);
    assert_eq!(r.read_i16(), Ok(-2));
    assert_eq!(r.read_i16(), Ok(i16::MIN));
    let mut r = ByteReader::new(&[0xff, 0xff, 0xff, 0xd6, 0x80, 0x00, 0x00, 0x00]);
    assert_eq!(r.read_i32(), Ok(-42));
    assert_eq!(r.read_i32(), Ok(i32::MIN));
    let mut r = ByteReader::new(&[0x80, 0, 0, 0, 0, 0, 0, 0, 0xff, 0xff, 0xff, 0xff, 0xff, 0xff, 0xff, 0xfb]);
    assert_eq!(r.read_i64(), Ok(i64::MIN));
    assert_eq!(r.read_i64(), Ok(-5));
}

#[test]
fn float_patterns_travel_as_bits() {
    let one = 1.0f32.to_bits().to_be_bytes();
    let mut r = ByteReader::new(&one);
    let bits = r.read_u32().unwrap();
    assert_eq!(f32::from_bits(bits), 1.0);
    let pi = std::f64::consts::PI.to_bits().to_be_bytes();
    let mut r = ByteReader::new(&pi);
    let bits = r.read_u64().unwrap();
    assert_eq!(f64::from_bits(bits), std::f64::consts::PI);
}

#[test]
fn short_input_is_end_of_stream() {
    assert_eq!(ByteReader::new(&[]).read_u8(), Err(Error::EndOfStream));
    assert_eq!(ByteReader::new(&[]).read_i8(), Err(Error::EndOfStream));
    assert_eq!(ByteReader::new(&[1]).read_u16(), Err(Error::EndOfStream));
    assert_eq!(ByteReader::new(&[1]).read_i16(), Err(Error::EndOfStream));
    assert_eq!(ByteReader::new(&[1, 2, 3]).read_u32(), Err(Error::EndOfStream));
    assert_eq!(ByteReader::new(&[1, 2, 3]).read_i32(), Err(Error::EndOfStream));
    assert_eq!(ByteReader::new(&[1, 2, 3, 4, 5, 6, 7]).read_u64(), Err(Error::EndOfStream));
    assert_eq!(ByteReader::new(&[1, 2, 3, 4, 5, 6, 7]).read_i64(), Err(Error::EndOfStream));
    assert_eq!(ByteReader::new(&[0; 15]).read_u128(), Err(Error::EndOfStream));
    assert_eq!(ByteReader::new(&[0; 15]).read_i128(), Err(Error::EndOfStream));
    assert_eq!(ByteReader::new(&[1, 2]).read_bytes(3), Err(Error::EndOfStream));
    assert_eq!(ByteReader::new(&[1, 2]).read_slice(3), Err(Error::EndOfStream));
    assert_eq!(Error::EndOfStream.kind(), ErrorKind::Decode);
}

#[test]
fn a_read_consumes_exactly_its_width() {
    let bytes = [1, 2, 3, 4, 5, 6];
    let mut r = ByteReader::new(&bytes);
    r.read_u16().unwrap();
    assert_eq!(r.as_slice(), &[3, 4, 5, 6]);
    assert_eq!(r.read_bytes(3), Ok(vec![3, 4, 5]));
    assert_eq!(r.as_slice(), &[6]);
    assert_eq!(r.read_slice(0), Ok(&[][..]));
    assert_eq!(r.read_slice(1), Ok(&[6][..]));
    assert!(r.is_exhausted());
}

#[test]
fn tables_of_words() {
    let bytes = [0, 1, 0, 2, 0xff, 0xff, 9];
    let mut r = ByteReader::new(&bytes);
    assert_eq!(read_u16s(&mut r, 3), Ok(vec![1, 2, 0xffff]));
    assert_eq!(r.as_slice(), &[9]);
    let mut r = ByteReader::new(&bytes);
    assert_eq!(read_u16s(&mut r, 4), Err(Error::EndOfStream));
    let mut r = ByteReader::new(&bytes);
    assert_eq!(read_u16s(&mut r, 0), Ok(vec![]));
}
