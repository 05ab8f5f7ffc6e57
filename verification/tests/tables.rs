use nv_rom_parser::bytes::{align_up, read_u16, read_u32};
use nv_rom_parser::firmware::{chase_device_control_block, version_stamp_string, FirmwareBundleInfo};
use nv_rom_parser::nvidia::bit::{parse_bit_structure, try_map_to_string, BITToken, BITTokenType};
use nv_rom_parser::nvidia::dcb::parse_device_control_block;
use nv_rom_parser::nvidia::bit::nvlink::{ClockModeBlockCode, NvLinkVbiosParam3, ReferenceClockMode};
use nv_rom_parser::nvidia::nbsi::{GlobalType, NbsiGlobal};
use nv_rom_parser::pci_legacy::{parse_pci_expansion_rom, PciExpansionRomCodeType};
use nv_rom_parser::Error;
use nv_rom_parser::RegionStructure;
use nv_rom_parser::RegionStructureIterator;
use nv_rom_parser::VersionHex4;

/// A 512-byte logical stream holding a device control block at offset
/// 100 whose GPIO pointer is zero, whose I2C pointer leads to malformed
/// bytes, and whose connector pointer leads to a valid one-entry table.
fn dcb_stream() -> Vec<u8> {
    let mut m = vec![0u8; 512];
    m[100] = 0x40; // version
    m[101] = 27; // header size
    m[102] = 0; // entry count
    m[103] = 8; // entry size
    // signature
    m[106] = 0xCB;
    m[107] = 0xBD;
    m[108] = 0xDC;
    m[109] = 0x4E;
    // gpio pointer: zero, absent by design
    m[110] = 0;
    m[111] = 0;
    // i2c pointer: 300, malformed target (header size byte is 0 there)
    m[118] = 0x2C;
    m[119] = 0x01;
    // connector pointer: 400, valid
    m[120] = 0x90;
    m[121] = 0x01;
    // connector table at 400
    m[400] = 0x40; // version
    m[401] = 5; // header size
    m[402] = 1; // entry count
    m[403] = 4; // entry size
    m[404] = 0x00; // platform: normal add-in card
    m[405] = 0x46; // entry: external DisplayPort connector type byte
    m
}

#[test]
fn test_structure_scan_finds_dcb() {
    let m = dcb_stream();
    let mut it = RegionStructureIterator::new(&m);
    match it.try_next().unwrap() {
        Some(RegionStructure::DeviceControlBlock(dcb)) => {
            assert_eq!(100, dcb.offset_in_region);
            assert_eq!(0x40, dcb.header.version);
            assert_eq!(0, dcb.entries.len());
        },
        other => panic!("expected a device control block, got {:?}", other),
    }
    assert!(it.try_next().unwrap().is_none());
}

#[test]
fn test_pointer_chase_tolerance() {
    // The zero field stays absent, the malformed field stays absent, and
    // the valid sibling field is still populated.
    let m = dcb_stream();
    let (dcb, _) = parse_device_control_block(&m, 100).unwrap();
    let (gpio, i2c, connector) = chase_device_control_block(&m, &dcb.header);
    assert!(gpio.is_none());
    assert!(i2c.is_none());
    let connector = connector.unwrap();
    assert_eq!(1, connector.entries.len());
    assert_eq!(0x46, connector.entries[0].0);
    assert_eq!(0x00, connector.header.platform);
}

#[test]
fn test_bit_structure_and_tokens() {
    let mut m = vec![0u8; 256];
    // BIT at 32: id, signature, versions, sizes, two token entries.
    m[32] = 0xFF;
    m[33] = 0xB8;
    m[34] = b'B';
    m[35] = b'I';
    m[36] = b'T';
    m[37] = 0x00;
    m[40] = 12; // header size
    m[41] = 6; // token size
    m[42] = 2; // token entries
    // token one: clock pointers token at 128
    m[44] = 0x43;
    m[45] = 1;
    m[46] = 28;
    m[48] = 128;
    // token two: no data
    m[50] = 0x42;
    // clock token payload at 128: first pointer 0x11223344
    m[128] = 0x44;
    m[129] = 0x33;
    m[130] = 0x22;
    m[131] = 0x11;
    let (bit, end) = parse_bit_structure(&m, 32).unwrap();
    assert_eq!(32 + 12 + 12, end);
    assert_eq!(2, bit.tokens.len());
    assert_eq!(0x43, bit.tokens[0].id);
    assert_eq!(128, bit.tokens[0].data_pointer);
    match bit.tokens[0].data(&m).unwrap() {
        BITTokenType::Clock(c) => {
            assert_eq!(0x11223344, c.pll_info_table_ptr);
            assert_eq!(0, c.adc_table_ptr);
        },
        other => panic!("expected a clock token, got {:?}", other),
    }
    // A zero data pointer is the explicit no-data case.
    assert!(matches!(bit.tokens[1].data(&m).unwrap(), BITTokenType::Nop));
    // An unknown id with a nonzero pointer is an error.
    let bad = BITToken {
        id: 0x01,
        data_version: 0,
        data_size: 0,
        data_pointer: 4,
    };
    assert!(matches!(bad.data(&m).unwrap_err(), Error::InvalidFormat(_)));
}

#[test]
fn test_try_map_to_string() {
    assert_eq!(
        "Hi",
        try_map_to_string(vec![b'H', b'i', 0, b'x', b'x']).unwrap()
    );
    // No terminator: no text.
    assert!(try_map_to_string(vec![b'H', b'i']).is_none());
    // Empty text before the terminator.
    assert_eq!("", try_map_to_string(vec![0, b'a']).unwrap());
}

#[test]
fn test_version_stamp_formatting() {
    let v = VersionHex4([0x78, 0x56, 0x34, 0x12]);
    assert_eq!("12.34.56.78", version_stamp_string(&v));
    assert!(v.non_zero().is_some());
    assert!(VersionHex4([0, 0, 0, 0]).non_zero().is_none());
}

#[test]
fn test_nvlink_clock_bits() {
    // Bits 0..2 carry the reference clock mode, bits 4..6 the block code.
    let p = NvLinkVbiosParam3(0b0001_0010);
    assert_eq!(ReferenceClockMode::NonCommonNoSs, p.reference_clock_mode());
    assert_eq!(Some(ClockModeBlockCode::Ecc96), p.clock_mode_block_mode());
    // The fourth block code bit pattern names nothing.
    assert_eq!(None, NvLinkVbiosParam3(0b0011_0000).clock_mode_block_mode());
}

#[test]
fn test_nbsi_global_type() {
    assert_eq!(Some(GlobalType::Driver), NbsiGlobal(0x5244).global_type());
    assert_eq!(Some(GlobalType::VBios), NbsiGlobal(0x4256).global_type());
    assert_eq!(Some(GlobalType::Reserved), NbsiGlobal(0).global_type());
    assert_eq!(None, NbsiGlobal(0x1234).global_type());
}

#[test]
fn test_code_type_decoding() {
    assert_eq!(
        Some(PciExpansionRomCodeType::EfiImage),
        PciExpansionRomCodeType::from_u8(0x03)
    );
    assert_eq!(None, PciExpansionRomCodeType::from_u8(0x42));
}

#[test]
fn test_legacy_parse_rejects_bad_signature() {
    let d = vec![0u8; 600];
    assert!(matches!(
        parse_pci_expansion_rom(&d, 0).unwrap_err(),
        Error::InvalidFormat(_)
    ));
}

#[test]
fn test_byte_readers() {
    let d = vec![0x01, 0x02, 0x03, 0x04];
    assert_eq!(0x0201, read_u16(&d, 0).unwrap());
    assert_eq!(0x04030201, read_u32(&d, 0).unwrap());
    assert!(read_u32(&d, 1).is_none());
    assert_eq!(Some(512), align_up(1, 512));
    assert_eq!(Some(512), align_up(512, 512));
    assert_eq!(Some(1024), align_up(513, 512));
}

#[test]
fn test_v_bios_info_version_from_bios_token() {
    // A legacy image whose BIT holds a BIOS data token: the summary
    // formats its version stamp and OEM byte.
    let mut d = vec![0u8; 1024];
    d[0] = 0x55;
    d[1] = 0xAA;
    d[24] = 26; // pcir_offset: the structure scan starts here
    d[26] = b'P';
    d[27] = b'C';
    d[28] = b'I';
    d[29] = b'R';
    d[36] = 28;
    d[42] = 1; // one 512-byte block
    d[46] = 0x00;
    d[47] = 0x80;
    // BIT at 64 (inside the 512-byte logical stream, after the headers).
    d[64] = 0xFF;
    d[65] = 0xB8;
    d[66] = b'B';
    d[67] = b'I';
    d[68] = b'T';
    d[69] = 0x00;
    d[72] = 12;
    d[73] = 6;
    d[74] = 1; // one token
    // token: BIOS data at 200
    d[76] = 0x42;
    d[77] = 2;
    d[78] = 33;
    d[80] = 200;
    // BIOS data token at 200: version stamp bytes then OEM version.
    d[200] = 0x78;
    d[201] = 0x56;
    d[202] = 0x34;
    d[203] = 0x12;
    d[204] = 0x9A; // OEM version
    let bundle = FirmwareBundleInfo::parse(&d).unwrap();
    assert_eq!(1, bundle.firmwares.len());
    let legacy = bundle.firmwares[0].legacy_pci_image.as_ref().unwrap();
    assert_eq!(1, legacy.bit_tokens_data.len());
    assert!(legacy.bit_table_structure.is_some());
    let infos = bundle.v_bios_info();
    assert_eq!("12.34.56.78.9A", infos[0].version);
}
