use snapshot::error::Error;
use snapshot::evolution::{Pair, Speed, Tally, DEFAULT_Y};
use snapshot::stream::{Reader, Writer};
use snapshot::versionize::Versionize;

#[test]
fn pair_written_at_root_version_1_comes_back_with_the_default() {
    let pair = Pair { x: 10, y: 99 };
    let mut writer = Writer::unbounded();
    pair.serialize(&mut writer, 1).unwrap();
    let bytes = writer.into_bytes();
    // Only `x` is written: `y` did not exist at schema version 1.
    assert_eq!(bytes, [10, 0, 0, 0]);

    let back = Pair::deserialize(&mut Reader::new(bytes.as_slice()), 1).unwrap();
    assert_eq!(back, Pair { x: 10, y: 321 });
    assert_eq!(DEFAULT_Y, 321);
}

#[test]
fn pair_written_at_root_version_2_comes_back_as_it_was() {
    let pair = Pair { x: 10, y: 99 };
    let mut writer = Writer::unbounded();
    pair.serialize(&mut writer, 2).unwrap();
    let bytes = writer.into_bytes();
    assert_eq!(bytes, [10, 0, 0, 0, 99, 0]);

    let mut reader = Reader::new(bytes.as_slice());
    let back = Pair::deserialize(&mut reader, 2).unwrap();
    assert_eq!(back, pair);
    assert_eq!(reader.len(), 0);
}

#[test]
fn pair_at_an_unknown_root_version_is_turned_down() {
    let pair = Pair { x: 10, y: 99 };
    let mut writer = Writer::unbounded();
    assert!(matches!(pair.serialize(&mut writer, 0), Err(Error::Serialize(_))));
    assert!(matches!(pair.serialize(&mut writer, 3), Err(Error::Serialize(_))));
    assert_eq!(writer.len(), 0);
    let bytes = [10u8, 0, 0, 0, 99, 0];
    assert!(matches!(
        Pair::deserialize(&mut Reader::new(&bytes), 3),
        Err(Error::Deserialize(_))
    ));
}

#[test]
fn pair_read_from_too_few_bytes_fails() {
    let bytes = [10u8, 0, 0, 0, 99];
    assert!(matches!(
        Pair::deserialize(&mut Reader::new(&bytes), 2),
        Err(Error::Deserialize(_))
    ));
    // At version 1 the first four bytes are all that is read.
    let mut reader = Reader::new(&bytes);
    assert_eq!(Pair::deserialize(&mut reader, 1).unwrap(), Pair { x: 10, y: 321 });
    assert_eq!(reader.len(), 1);
}

#[test]
fn tally_keeps_the_bonus_in_the_count() {
    let tally = Tally { count: 40, bonus: 2 };

    // Version 1 holds both members.
    let mut writer = Writer::unbounded();
    tally.serialize(&mut writer, 1).unwrap();
    let bytes = writer.into_bytes();
    assert_eq!(bytes, [40, 0, 0, 0, 2, 0, 0, 0]);
    assert_eq!(Tally::deserialize(&mut Reader::new(bytes.as_slice()), 1).unwrap(), tally);

    // Version 2 holds the count only, with the bonus in it.
    let mut writer = Writer::unbounded();
    tally.serialize(&mut writer, 2).unwrap();
    let bytes = writer.into_bytes();
    assert_eq!(bytes, [42, 0, 0, 0]);
    let back = Tally::deserialize(&mut Reader::new(bytes.as_slice()), 2).unwrap();
    assert_eq!(back, Tally { count: 42, bonus: 0 });
    assert_eq!(back.count + back.bonus, tally.count + tally.bonus);

    // The value that was written is as it was.
    assert_eq!(tally, Tally { count: 40, bonus: 2 });
}

#[test]
fn tally_whose_count_cannot_hold_the_bonus_is_not_written() {
    let tally = Tally { count: u32::MAX, bonus: 1 };
    let mut writer = Writer::unbounded();
    assert!(matches!(tally.serialize(&mut writer, 2), Err(Error::Serialize(_))));
    assert_eq!(writer.len(), 0);
    // At version 1 nothing is added.
    tally.serialize(&mut writer, 1).unwrap();
    assert_eq!(writer.len(), 8);
}

#[test]
fn aggregate_that_does_not_fit_is_not_written() {
    let pair = Pair { x: 10, y: 99 };
    let mut writer = Writer::new(5);
    assert!(matches!(pair.serialize(&mut writer, 2), Err(Error::Serialize(_))));
    let mut writer = Writer::new(6);
    pair.serialize(&mut writer, 2).unwrap();
    assert_eq!(writer.as_slice(), &[10, 0, 0, 0, 99, 0]);
}

#[test]
fn slow_is_written_as_fast_where_it_does_not_exist() {
    for (speed, version, expected, back) in [
        (Speed::Stopped, 1, 0u8, Speed::Stopped),
        (Speed::Slow, 1, 1, Speed::Slow),
        (Speed::Fast, 1, 2, Speed::Fast),
        (Speed::Stopped, 2, 0, Speed::Stopped),
        (Speed::Slow, 2, 2, Speed::Fast),
        (Speed::Slow, 7, 2, Speed::Fast),
        (Speed::Fast, 2, 2, Speed::Fast),
    ] {
        let mut writer = Writer::unbounded();
        speed.serialize(&mut writer, version).unwrap();
        assert_eq!(writer.as_slice(), &[expected, 0, 0, 0]);
        let bytes = writer.into_bytes();
        assert_eq!(Speed::deserialize(&mut Reader::new(bytes.as_slice()), version).unwrap(), back);
    }
}

#[test]
fn variant_at_version_0_or_of_unknown_index_is_turned_down() {
    let mut writer = Writer::unbounded();
    assert!(matches!(Speed::Fast.serialize(&mut writer, 0), Err(Error::Serialize(_))));
    assert!(matches!(
        Speed::deserialize(&mut Reader::new(&[3, 0, 0, 0]), 1),
        Err(Error::Deserialize(_))
    ));
    assert!(matches!(
        Speed::deserialize(&mut Reader::new(&[1, 0, 0]), 1),
        Err(Error::Deserialize(_))
    ));
    // A variant is read as it was written, whatever the version.
    assert_eq!(Speed::deserialize(&mut Reader::new(&[1, 0, 0, 0]), 2).unwrap(), Speed::Slow);
}
