use snapshot::a::A;
use snapshot::fam::FamError;
use snapshot::message::MessageFamStructWrapper;
use snapshot::snapshot::Snapshot;
use snapshot::stream::{Reader, Writer};
use snapshot::version_map::VersionMap;
use snapshot::versionize::Versionize;

// Copies what was written into a buffer of `size` bytes, as a file of that
// size would hold it: the bytes that were written, then zeros.
fn buffer_of(writer: Writer, size: usize) -> Vec<u8> {
    let mut snapshot_mem = vec![0u8; size];
    let written = writer.into_bytes();
    snapshot_mem[..written.len()].copy_from_slice(&written);
    snapshot_mem
}

#[test]
fn test_ser_de_usize() {
    let mut writer = Writer::new(64);

    let store: usize = usize::MAX;
    store.serialize(&mut writer, 1).unwrap();
    let snapshot_mem = buffer_of(writer, 64);
    let restore = <usize as Versionize>::deserialize(&mut Reader::new(snapshot_mem.as_slice()), 1)
        .unwrap();

    assert_eq!(store, restore);
}

#[test]
fn test_ser_de_isize() {
    let mut writer = Writer::new(64);

    let store: isize = isize::MAX;
    store.serialize(&mut writer, 1).unwrap();
    let snapshot_mem = buffer_of(writer, 64);
    let restore = <isize as Versionize>::deserialize(&mut Reader::new(snapshot_mem.as_slice()), 1)
        .unwrap();

    assert_eq!(store, restore);
}

#[test]
fn test_ser_de_u8() {
    let mut writer = Writer::new(64);

    let store: u8 = u8::MAX;
    store.serialize(&mut writer, 1).unwrap();
    let snapshot_mem = buffer_of(writer, 64);
    let restore = <u8 as Versionize>::deserialize(&mut Reader::new(snapshot_mem.as_slice()), 1)
        .unwrap();

    assert_eq!(store, restore);
}

#[test]
fn test_ser_de_u16() {
    let mut writer = Writer::new(64);

    let store: u16 = u16::MAX;
    store.serialize(&mut writer, 1).unwrap();
    let snapshot_mem = buffer_of(writer, 64);
    let restore = <u16 as Versionize>::deserialize(&mut Reader::new(snapshot_mem.as_slice()), 1)
        .unwrap();

    assert_eq!(store, restore);
}

#[test]
fn test_ser_de_u32() {
    let mut writer = Writer::new(64);

    let store: u32 = u32::MAX;
    store.serialize(&mut writer, 1).unwrap();
    let snapshot_mem = buffer_of(writer, 64);
    let restore = <u32 as Versionize>::deserialize(&mut Reader::new(snapshot_mem.as_slice()), 1)
        .unwrap();

    assert_eq!(store, restore);
}

#[test]
fn test_ser_de_u64() {
    let mut writer = Writer::new(64);

    let store: u64 = u64::MAX;
    store.serialize(&mut writer, 1).unwrap();
    let snapshot_mem = buffer_of(writer, 64);
    let restore = <u64 as Versionize>::deserialize(&mut Reader::new(snapshot_mem.as_slice()), 1)
        .unwrap();

    assert_eq!(store, restore);
}

#[test]
fn test_ser_de_i8() {
    let mut writer = Writer::new(64);

    let store: i8 = i8::MAX;
    store.serialize(&mut writer, 1).unwrap();
    let snapshot_mem = buffer_of(writer, 64);
    let restore = <i8 as Versionize>::deserialize(&mut Reader::new(snapshot_mem.as_slice()), 1)
        .unwrap();

    assert_eq!(store, restore);
}

#[test]
fn test_ser_de_i16() {
    let mut writer = Writer::new(64);

    let store: i16 = i16::MAX;
    store.serialize(&mut writer, 1).unwrap();
    let snapshot_mem = buffer_of(writer, 64);
    let restore = <i16 as Versionize>::deserialize(&mut Reader::new(snapshot_mem.as_slice()), 1)
        .unwrap();

    assert_eq!(store, restore);
}

#[test]
fn test_ser_de_i32() {
    let mut writer = Writer::new(64);

    let store: i32 = i32::MAX;
    store.serialize(&mut writer, 1).unwrap();
    let snapshot_mem = buffer_of(writer, 64);
    let restore = <i32 as Versionize>::deserialize(&mut Reader::new(snapshot_mem.as_slice()), 1)
        .unwrap();

    assert_eq!(store, restore);
}

#[test]
fn test_ser_de_i64() {
    let mut writer = Writer::new(64);

    let store: i64 = i64::MAX;
    store.serialize(&mut writer, 1).unwrap();
    let snapshot_mem = buffer_of(writer, 64);
    let restore = <i64 as Versionize>::deserialize(&mut Reader::new(snapshot_mem.as_slice()), 1)
        .unwrap();

    assert_eq!(store, restore);
}

#[test]
fn test_ser_de_char() {
    let mut writer = Writer::new(64);

    let store: char = char::MAX;
    store.serialize(&mut writer, 1).unwrap();
    let snapshot_mem = buffer_of(writer, 64);
    let restore =
        <char as Versionize>::deserialize(&mut Reader::new(snapshot_mem.as_slice()), 1).unwrap();

    assert_eq!(store, restore);
}

#[test]
fn test_ser_de_bool() {
    let mut writer = Writer::new(64);

    let store = true;
    store.serialize(&mut writer, 1).unwrap();
    let snapshot_mem = buffer_of(writer, 64);
    let restore =
        <bool as Versionize>::deserialize(&mut Reader::new(snapshot_mem.as_slice()), 1).unwrap();

    assert_eq!(store, restore);
}

#[test]
fn test_ser_de_string() {
    let mut writer = Writer::new(64);

    let store = String::from("test string");
    store.serialize(&mut writer, 1).unwrap();
    let snapshot_mem = buffer_of(writer, 64);
    let restore =
        <String as Versionize>::deserialize(&mut Reader::new(snapshot_mem.as_slice()), 1).unwrap();

    assert_eq!(store, restore);
}

#[test]
fn test_ser_de_vec() {
    let mut writer = Writer::new(64);

    let mut store = Vec::new();
    store.push("test 1".to_owned());
    store.push("test 2".to_owned());
    store.push("test 3".to_owned());

    store.serialize(&mut writer, 1).unwrap();
    let snapshot_mem = buffer_of(writer, 64);
    let restore =
        <Vec<String> as Versionize>::deserialize(&mut Reader::new(snapshot_mem.as_slice()), 1)
            .unwrap();

    assert_eq!(store, restore);
}

#[test]
fn test_ser_de_vec_version() {
    let mut f = MessageFamStructWrapper::new(0).unwrap();
    f.as_mut_fam_struct().padding = 123;
    f.as_mut_fam_struct().extra_value = 321;

    f.push(10).unwrap();
    f.push(20).unwrap();

    let mut writer = Writer::new(512);
    let mut store = Vec::new();
    store.push(f.clone());
    store.push(f.clone());

    store.serialize(&mut writer, 1).unwrap();
    let snapshot_mem = buffer_of(writer, 512);
    let restore = <Vec<MessageFamStructWrapper> as Versionize>::deserialize(
        &mut Reader::new(snapshot_mem.as_slice()),
        1,
    )
    .unwrap();
    let eq = store == restore;
    // This is important to test separately as we rely on the default_fn to
    // override the u16 default value.
    assert_eq!(321, restore[0].as_fam_struct_ref().extra_value);
    assert!(eq);
}

#[test]
fn test_famstruct() {
    let vm = VersionMap::new();
    let mut f = MessageFamStructWrapper::new(0).unwrap();
    f.as_mut_fam_struct().padding = 123;
    f.as_mut_fam_struct().extra_value = 321;

    f.push(10).unwrap();
    f.push(20).unwrap();

    let mut writer = Writer::new(64);

    let mut snapshot = Snapshot::new(vm.clone(), 1);
    snapshot.write_section("test", &f).unwrap();
    snapshot.save(&mut writer).unwrap();
    let snapshot_mem = buffer_of(writer, 64);

    snapshot = Snapshot::load(&mut Reader::new(snapshot_mem.as_slice()), vm.clone()).unwrap();
    let restored_state = snapshot
        .read_section::<MessageFamStructWrapper>("test")
        .unwrap()
        .unwrap();
    let original_values = f.as_slice();
    let restored_values = restored_state.as_slice();

    assert_eq!(
        f.as_fam_struct_ref().padding,
        restored_state.as_fam_struct_ref().padding
    );
    assert_eq!(original_values, restored_values);
    assert_eq!(
        f.as_fam_struct_ref().extra_value,
        restored_state.as_fam_struct_ref().extra_value
    );
}

#[test]
fn test_famstruct_ser_error() {
    let vm = VersionMap::new();
    let mut f = MessageFamStructWrapper::new(0).unwrap();
    f.as_mut_fam_struct().padding = 123;
    f.as_mut_fam_struct().extra_value = 321;

    f.push(10).unwrap();
    f.push(20).unwrap();

    let mut writer = Writer::new(16);

    let mut snapshot = Snapshot::new(vm.clone(), 1);
    snapshot.write_section("test", &f).unwrap();
    assert!(snapshot.save(&mut writer).is_err());
}

#[test]
fn test_famstruct_version() {
    let vm = VersionMap::new();
    let mut f = MessageFamStructWrapper::new(0).unwrap();
    f.as_mut_fam_struct().padding = 123;
    f.push(10).unwrap();
    f.push(20).unwrap();

    let mut writer = Writer::new(64);

    let mut snapshot = Snapshot::new(vm.clone(), 1);
    snapshot.write_section("test", &f).unwrap();
    snapshot.save(&mut writer).unwrap();
    let snapshot_mem = buffer_of(writer, 64);

    snapshot = Snapshot::load(&mut Reader::new(snapshot_mem.as_slice()), vm.clone()).unwrap();
    let restored_state = snapshot
        .read_section::<MessageFamStructWrapper>("test")
        .unwrap()
        .unwrap();
    let original_values = f.as_slice();
    let restored_values = restored_state.as_slice();

    assert_eq!(
        f.as_fam_struct_ref().padding,
        restored_state.as_fam_struct_ref().padding
    );
    assert_eq!(original_values, restored_values);
}

#[test]
fn test_something() {
    let a = A::default();
    let mut writer = Writer::unbounded();

    a.serialize(&mut writer, 1).unwrap();
    let v = writer.into_bytes();
    assert_eq!(a, A::deserialize(&mut Reader::new(v.as_slice()), 1).unwrap());
}

#[test]
fn fam_entries_are_counted_and_bounded() {
    let mut f = MessageFamStructWrapper::new(99).unwrap();
    assert_eq!(f.as_fam_struct_ref().len, 99);
    assert_eq!(f.as_slice().len(), 99);
    f.push(7).unwrap();
    assert_eq!(f.as_fam_struct_ref().len, 100);
    assert_eq!(f.push(8), Err(FamError::SizeLimitExceeded));
    assert_eq!(f.as_slice().len(), 100);
    assert!(MessageFamStructWrapper::new(101).is_err());
    assert!(MessageFamStructWrapper::from_entries(vec![0; 101]).is_err());
    assert_eq!(
        MessageFamStructWrapper::from_entries(vec![1, 2, 3]).unwrap().as_slice(),
        &[1, 2, 3]
    );
}
