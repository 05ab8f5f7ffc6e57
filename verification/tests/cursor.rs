use nv_rom_parser::cursor::{ContinuousRegionReader, RegionSpan, SeekFrom};
use nv_rom_parser::Error;

fn spans() -> Vec<RegionSpan> {
    let region_1 = RegionSpan {
        offset_in_firmware: 0,
        region_size: 10,
    };
    let region_3 = RegionSpan {
        offset_in_firmware: 15,
        region_size: 35,
    };
    let region_5 = RegionSpan {
        offset_in_firmware: 80,
        region_size: 10,
    };
    vec![region_1, region_3, region_5]
}

#[test]
fn test_read() {
    let data = Vec::from_iter(0u8..100);
    // [0..10; 15..50; 80..90]
    let mut reader = ContinuousRegionReader::new(&data, spans());

    let buf = reader.read_exact(10).unwrap();
    assert_eq!(data[0..10], buf[..]);

    let buf = reader.read_exact(10).unwrap();
    assert_eq!(data[15..25], buf[..]);

    let buf = reader.read_exact(10).unwrap();
    assert_eq!(data[25..35], buf[..]);

    let buf = reader.read_exact(10).unwrap();
    assert_eq!(data[35..45], buf[..]);

    let buf = reader.read_exact(10).unwrap();
    assert_eq!(data[45..50], buf[..5]);
    assert_eq!(data[80..85], buf[5..]);

    let buf = reader.read_exact(5).unwrap();
    assert_eq!(data[85..90], buf[..5]);

    assert!(reader.read_exact(5).is_err());
}

#[test]
fn test_seek() {
    let data = Vec::from_iter(0u8..100);
    // [0..10; 15..50; 80..90]
    let mut reader = ContinuousRegionReader::new(&data, spans());

    let buf = reader.read_exact(1).unwrap();
    assert_eq!(0, buf[0]);

    assert_eq!(5, reader.seek(SeekFrom::Start(5)).unwrap());
    let buf = reader.read_exact(1).unwrap();
    assert_eq!(5, buf[0]);

    assert_eq!(8, reader.seek(SeekFrom::Current(2)).unwrap());
    let buf = reader.read_exact(1).unwrap();
    assert_eq!(8, buf[0]);

    assert_eq!(19, reader.seek(SeekFrom::Current(10)).unwrap());
    let buf = reader.read_exact(1).unwrap();
    assert_eq!(24, buf[0]);

    assert_eq!(30, reader.seek(SeekFrom::Current(10)).unwrap());
    let buf = reader.read_exact(1).unwrap();
    assert_eq!(35, buf[0]);

    assert_eq!(11, reader.seek(SeekFrom::Current(-20)).unwrap());
    let buf = reader.read_exact(1).unwrap();
    assert_eq!(16, buf[0]);

    assert!(reader.seek(SeekFrom::Current(-20)).is_err());

    assert_eq!(54, reader.seek(SeekFrom::Start(54)).unwrap());
    let buf = reader.read_exact(1).unwrap();
    assert_eq!(89, buf[0]);

    assert!(reader.read_exact(1).is_err());

    assert_eq!(54, reader.seek(SeekFrom::End(-1)).unwrap());
    let buf = reader.read_exact(1).unwrap();
    assert_eq!(89, buf[0]);

    assert!(reader.read_exact(1).is_err());

    assert_eq!(35, reader.seek(SeekFrom::Current(-20)).unwrap());
    let buf = reader.read_exact(1).unwrap();
    assert_eq!(40, buf[0]);

    assert_eq!(0, reader.seek(SeekFrom::Current(-36)).unwrap());
    let buf = reader.read_exact(1).unwrap();
    assert_eq!(0, buf[0]);

    assert_eq!(0, reader.seek(SeekFrom::End(-55)).unwrap());
    let buf = reader.read_exact(1).unwrap();
    assert_eq!(0, buf[0]);
}

#[test]
fn test_continuity() {
    // Three regions over a 100-byte source stitch to a 55-byte stream
    // equal to the concatenation of the raw sub-ranges.
    let data = Vec::from_iter(0u8..100);
    let mut reader = ContinuousRegionReader::new(&data, spans());
    let all = reader.read_exact(55).unwrap();
    let mut expected: Vec<u8> = Vec::new();
    expected.extend_from_slice(&data[0..10]);
    expected.extend_from_slice(&data[15..50]);
    expected.extend_from_slice(&data[80..90]);
    assert_eq!(expected, all);
    // Reading one past the total mapped size fails.
    let mut reader = ContinuousRegionReader::new(&data, spans());
    assert!(reader.read_exact(56).is_err());
}

#[test]
fn test_seek_read_equivalence() {
    // For every logical p, seeking there and reading one byte gives byte
    // p of the concatenation.
    let data = Vec::from_iter(0u8..100);
    let mut expected: Vec<u8> = Vec::new();
    expected.extend_from_slice(&data[0..10]);
    expected.extend_from_slice(&data[15..50]);
    expected.extend_from_slice(&data[80..90]);
    let mut reader = ContinuousRegionReader::new(&data, spans());
    for p in 0..55u64 {
        assert_eq!(p, reader.seek(SeekFrom::Start(p)).unwrap());
        let buf = reader.read_exact(1).unwrap();
        assert_eq!(expected[p as usize], buf[0]);
    }
}

#[test]
fn test_clean_eof() {
    let data = Vec::from_iter(0u8..100);
    let mut reader = ContinuousRegionReader::new(&data, spans());
    // Positioning exactly at the mapped end reads zero bytes, no error.
    assert_eq!(55, reader.seek(SeekFrom::Start(55)).unwrap());
    let buf = reader.read(10).unwrap();
    assert_eq!(0, buf.len());
    // The unmapped extension keeps counting monotonically.
    assert_eq!(60, reader.seek(SeekFrom::Start(60)).unwrap());
    assert_eq!(59, reader.seek(SeekFrom::Current(-1)).unwrap());
}

#[test]
fn test_gap_read_is_input_error() {
    // A raw position strictly between two mapped regions is unreadable.
    let data = Vec::from_iter(0u8..100);
    let mut reader = ContinuousRegionReader::new(&data, spans());
    reader.raw_position = 12;
    let err = reader.read(1).unwrap_err();
    assert!(matches!(err, Error::InvalidInput(_)));
    // So is a relative seek from there.
    reader.raw_position = 12;
    let err = reader.seek(SeekFrom::Current(1)).unwrap_err();
    assert!(matches!(err, Error::InvalidInput(_)));
}

#[test]
fn test_seek_end_overflow() {
    // Seeking before the start of the logical stream is an input error.
    let data = Vec::from_iter(0u8..100);
    let mut reader = ContinuousRegionReader::new(&data, spans());
    let err = reader.seek(SeekFrom::End(-200)).unwrap_err();
    assert!(matches!(err, Error::InvalidInput(_)));
}

#[test]
fn test_read_exact_failure_kind() {
    let data = Vec::from_iter(0u8..100);
    let mut reader = ContinuousRegionReader::new(&data, spans());
    reader.seek(SeekFrom::Start(50)).unwrap();
    let err = reader.read_exact(10).unwrap_err();
    assert!(matches!(err, Error::ErrorMessage(_)));
}
