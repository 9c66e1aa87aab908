use snapshot::error::Error;
use snapshot::stream::{Reader, Writer};
use snapshot::versionize::Versionize;

fn bytes_of<T: Versionize>(value: &T, version: u16) -> Vec<u8> {
    let mut writer = Writer::unbounded();
    value.serialize(&mut writer, version).unwrap();
    writer.into_bytes()
}

fn value_of<T: Versionize>(bytes: &[u8], version: u16) -> Result<(T, usize), Error> {
    let mut reader = Reader::new(bytes);
    let value = T::deserialize(&mut reader, version)?;
    Ok((value, bytes.len() - reader.len()))
}

#[test]
fn integers_are_written_with_the_lowest_byte_first() {
    assert_eq!(bytes_of(&0x12u8, 1), [0x12]);
    assert_eq!(bytes_of(&0x1234u16, 1), [0x34, 0x12]);
    assert_eq!(bytes_of(&0x1234_5678u32, 1), [0x78, 0x56, 0x34, 0x12]);
    assert_eq!(
        bytes_of(&0x0102_0304_0506_0708u64, 1),
        [0x08, 0x07, 0x06, 0x05, 0x04, 0x03, 0x02, 0x01]
    );
    assert_eq!(bytes_of(&0x0102usize, 1), [0x02, 0x01, 0, 0, 0, 0, 0, 0]);
    assert_eq!(bytes_of(&-1i8, 1), [0xff]);
    assert_eq!(bytes_of(&-2i16, 1), [0xfe, 0xff]);
    assert_eq!(bytes_of(&-2i32, 1), [0xfe, 0xff, 0xff, 0xff]);
    assert_eq!(bytes_of(&i64::MIN, 1), [0, 0, 0, 0, 0, 0, 0, 0x80]);
    assert_eq!(bytes_of(&-1isize, 1), [0xff; 8]);
    assert_eq!(bytes_of(&5i32, 1), [5, 0, 0, 0]);
}

#[test]
fn the_version_plays_no_part_for_leaf_values() {
    for version in [0u16, 1, 2, 100, u16::MAX] {
        assert_eq!(bytes_of(&0x1234u16, version), [0x34, 0x12]);
        assert_eq!(bytes_of(&true, version), [1]);
        assert_eq!(bytes_of(&"ab".to_string(), version), [2, 0, 0, 0, 0, 0, 0, 0, b'a', b'b']);
        assert_eq!(value_of::<u16>(&[0x34, 0x12], version).unwrap(), (0x1234, 2));
    }
}

#[test]
fn leaf_values_are_written_as_bincode_writes_them() {
    assert_eq!(bytes_of(&0xdead_beefu32, 1), bincode::serialize(&0xdead_beefu32).unwrap());
    assert_eq!(bytes_of(&-77i64, 1), bincode::serialize(&-77i64).unwrap());
    assert_eq!(bytes_of(&usize::MAX, 1), bincode::serialize(&usize::MAX).unwrap());
    assert_eq!(bytes_of(&isize::MIN, 1), bincode::serialize(&isize::MIN).unwrap());
    assert_eq!(bytes_of(&false, 1), bincode::serialize(&false).unwrap());
    assert_eq!(bytes_of(&'€', 1), bincode::serialize(&'€').unwrap());
    assert_eq!(
        bytes_of(&"grüße".to_string(), 1),
        bincode::serialize(&"grüße".to_string()).unwrap()
    );
    let list = vec![1u16, 2, 3];
    assert_eq!(bytes_of(&list, 1), bincode::serialize(&list).unwrap());
    let texts = vec!["a".to_string(), String::new(), "bc".to_string()];
    assert_eq!(bytes_of(&texts, 1), bincode::serialize(&texts).unwrap());
}

#[test]
fn truth_values_take_one_byte() {
    assert_eq!(bytes_of(&true, 1), [1]);
    assert_eq!(bytes_of(&false, 1), [0]);
    assert_eq!(value_of::<bool>(&[0, 9], 1).unwrap(), (false, 1));
    assert_eq!(value_of::<bool>(&[1], 1).unwrap(), (true, 1));
    assert!(matches!(value_of::<bool>(&[2], 1), Err(Error::Deserialize(_))));
    assert!(matches!(value_of::<bool>(&[], 1), Err(Error::Deserialize(_))));
}

#[test]
fn characters_are_written_in_utf8() {
    assert_eq!(bytes_of(&'a', 1), [0x61]);
    assert_eq!(bytes_of(&'é', 1), [0xc3, 0xa9]);
    assert_eq!(bytes_of(&'€', 1), [0xe2, 0x82, 0xac]);
    assert_eq!(bytes_of(&'𝄞', 1), [0xf0, 0x9d, 0x84, 0x9e]);
    assert_eq!(value_of::<char>(&[0x61, 0x62], 1).unwrap(), ('a', 1));
    assert_eq!(value_of::<char>(&[0xc3, 0xa9, 0], 1).unwrap(), ('é', 2));
    assert_eq!(value_of::<char>(&[0xe2, 0x82, 0xac], 1).unwrap(), ('€', 3));
    assert_eq!(value_of::<char>(&[0xf0, 0x9d, 0x84, 0x9e, 1], 1).unwrap(), ('𝄞', 4));
    for bad in [
        &[][..],
        &[0x80],
        &[0xc3],
        &[0xc0, 0x80],
        &[0xe2, 0x82],
        &[0xed, 0xa0, 0x80],
        &[0xf5, 0x80, 0x80, 0x80],
        &[0xff],
    ] {
        assert!(matches!(value_of::<char>(bad, 1), Err(Error::Deserialize(_))));
    }
}

#[test]
fn texts_are_written_with_their_length_in_bytes() {
    assert_eq!(bytes_of(&String::new(), 1), [0; 8]);
    assert_eq!(bytes_of(&"é".to_string(), 1), [2, 0, 0, 0, 0, 0, 0, 0, 0xc3, 0xa9]);
    assert_eq!(
        value_of::<String>(&[2, 0, 0, 0, 0, 0, 0, 0, 0xc3, 0xa9, 7], 1).unwrap(),
        ("é".to_string(), 10)
    );
    // A length beyond what is there, bytes that are no UTF-8, a length cut short.
    for bad in [
        &[3, 0, 0, 0, 0, 0, 0, 0, b'a', b'b'][..],
        &[1, 0, 0, 0, 0, 0, 0, 0, 0xff],
        &[0xff; 8],
        &[0, 0, 0],
    ] {
        assert!(matches!(value_of::<String>(bad, 1), Err(Error::Deserialize(_))));
    }
}

#[test]
fn integers_are_not_read_from_too_few_bytes() {
    assert!(matches!(value_of::<u8>(&[], 1), Err(Error::Deserialize(_))));
    assert!(matches!(value_of::<u16>(&[1], 1), Err(Error::Deserialize(_))));
    assert!(matches!(value_of::<u32>(&[1, 2, 3], 1), Err(Error::Deserialize(_))));
    assert!(matches!(value_of::<u64>(&[0; 7], 1), Err(Error::Deserialize(_))));
    assert!(matches!(value_of::<usize>(&[0; 7], 1), Err(Error::Deserialize(_))));
    assert!(matches!(value_of::<i8>(&[], 1), Err(Error::Deserialize(_))));
    assert!(matches!(value_of::<i16>(&[1], 1), Err(Error::Deserialize(_))));
    assert!(matches!(value_of::<i32>(&[1, 2, 3], 1), Err(Error::Deserialize(_))));
    assert!(matches!(value_of::<i64>(&[0; 7], 1), Err(Error::Deserialize(_))));
    assert!(matches!(value_of::<isize>(&[0; 7], 1), Err(Error::Deserialize(_))));
}

#[test]
fn integers_are_read_back_at_the_ends_of_their_ranges() {
    fn check<T: Versionize + PartialEq + std::fmt::Debug + Copy>(values: &[T], width: usize) {
        for value in values {
            let mut bytes = bytes_of(value, 1);
            assert_eq!(bytes.len(), width);
            bytes.push(0xaa);
            assert_eq!(value_of::<T>(&bytes, 1).unwrap(), (*value, width));
        }
    }
    check(&[0u8, 1, 127, 128, u8::MAX], 1);
    check(&[0u16, 255, 256, u16::MAX], 2);
    check(&[0u32, 65536, u32::MAX], 4);
    check(&[0u64, 1 << 40, u64::MAX], 8);
    check(&[0usize, usize::MAX], 8);
    check(&[i8::MIN, -1, 0, i8::MAX], 1);
    check(&[i16::MIN, -1, 0, i16::MAX], 2);
    check(&[i32::MIN, -1, 0, i32::MAX], 4);
    check(&[i64::MIN, -1, 0, i64::MAX], 8);
    check(&[isize::MIN, -1, 0, isize::MAX], 8);
}

#[test]
fn sequences_are_written_with_their_length() {
    assert_eq!(bytes_of(&Vec::<u32>::new(), 1), [0; 8]);
    assert_eq!(
        bytes_of(&vec![0x0102u16, 0x0304], 1),
        [2, 0, 0, 0, 0, 0, 0, 0, 0x02, 0x01, 0x04, 0x03]
    );
    let nested = vec![vec![1u8], vec![], vec![2, 3]];
    let bytes = bytes_of(&nested, 1);
    assert_eq!(value_of::<Vec<Vec<u8>>>(&bytes, 1).unwrap(), (nested, bytes.len()));
    assert_eq!(value_of::<Vec<u8>>(&[0; 9], 1).unwrap(), (vec![], 8));

    // More items asked for than there are; a length cut short.
    assert!(matches!(
        value_of::<Vec<u16>>(&[2, 0, 0, 0, 0, 0, 0, 0, 1, 0, 2], 1),
        Err(Error::Deserialize(_))
    ));
    assert!(matches!(value_of::<Vec<u16>>(&[2, 0, 0], 1), Err(Error::Deserialize(_))));
}

#[test]
fn a_large_sequence_is_read_back() {
    let list: Vec<u32> = (0..10_000).collect();
    let bytes = bytes_of(&list, 1);
    assert_eq!(bytes.len(), 8 + 4 * 10_000);
    assert_eq!(value_of::<Vec<u32>>(&bytes, 1).unwrap(), (list, bytes.len()));
}

#[test]
fn what_does_not_fit_is_not_written() {
    let mut writer = Writer::new(3);
    assert!(matches!(7u32.serialize(&mut writer, 1), Err(Error::Serialize(_))));
    assert_eq!(writer.len(), 0);
    7u16.serialize(&mut writer, 1).unwrap();
    assert!(matches!(7u16.serialize(&mut writer, 1), Err(Error::Serialize(_))));
    1u8.serialize(&mut writer, 1).unwrap();
    assert_eq!(writer.as_slice(), &[7, 0, 1]);
    assert_eq!(writer.capacity(), 3);
    assert!(matches!(true.serialize(&mut writer, 1), Err(Error::Serialize(_))));
    assert!(matches!("".to_string().serialize(&mut writer, 1), Err(Error::Serialize(_))));

    let mut writer = Writer::new(11);
    assert!(matches!(vec![1u16, 2].serialize(&mut writer, 1), Err(Error::Serialize(_))));
    let mut writer = Writer::new(12);
    vec![1u16, 2].serialize(&mut writer, 1).unwrap();
    assert_eq!(writer.len(), 12);
}

#[test]
fn writer_and_reader_move_forward_only() {
    let mut writer = Writer::new(4);
    writer.write_all(&[1, 2]).unwrap();
    let err = writer.write_all(&[3, 4, 5]).unwrap_err();
    assert!(matches!(err, Error::Serialize(_)));
    assert!(!err.message().is_empty());
    writer.write_all(&[]).unwrap();
    writer.write_all(&[3, 4]).unwrap();
    assert_eq!(writer.into_bytes(), vec![1, 2, 3, 4]);

    let data = [1u8, 2, 3, 4, 5];
    let mut reader = Reader::new(&data);
    assert_eq!(reader.take(2).unwrap(), &[1, 2]);
    assert!(matches!(reader.take(4), Err(Error::Deserialize(_))));
    assert_eq!(reader.remaining(), &[3, 4, 5]);
    reader.advance(1);
    assert_eq!(reader.take(2).unwrap(), &[4, 5]);
    assert_eq!(reader.len(), 0);
    assert_eq!(reader.take(0).unwrap(), &[] as &[u8]);
}

#[test]
fn leaf_types_have_version_1() {
    assert_eq!(<u32 as Versionize>::version(), 1);
    assert_eq!(<String as Versionize>::version(), 1);
    assert_eq!(<Vec<u8> as Versionize>::version(), 1);
    assert_eq!(<bool as Versionize>::version(), 1);
}

#[test]
fn a_failure_says_what_went_wrong() {
    let err = value_of::<u32>(&[1, 2], 1).unwrap_err();
    assert!(matches!(err, Error::Deserialize(_)));
    assert!(err.message().contains("Io"));
    let err = value_of::<bool>(&[7], 1).unwrap_err();
    assert!(err.message().contains("InvalidBoolEncoding"));
    let err = value_of::<char>(&[0xff], 1).unwrap_err();
    assert!(err.message().contains("InvalidCharEncoding"));
    let err = value_of::<String>(&[1, 0, 0, 0, 0, 0, 0, 0, 0xff], 1).unwrap_err();
    assert!(err.message().contains("InvalidUtf8Encoding"));
}
