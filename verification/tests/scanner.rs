use nv_rom_parser::firmware::FirmwareBundleInfo;
use nv_rom_parser::FirmwareRegion;
use nv_rom_parser::Region;
use nv_rom_parser::RegionIterator;

/// A 1024-byte blob holding a legacy expansion ROM of declared size 512
/// at offset 0 and an NVGI auxiliary marker at offset 512.
fn legacy_and_marker_source() -> Vec<u8> {
    let mut d = vec![0u8; 1024];
    // Legacy ROM header at 0.
    d[0] = 0x55;
    d[1] = 0xAA;
    d[24] = 26; // pcir_offset
    // PCI data structure at 26.
    d[26] = b'P';
    d[27] = b'C';
    d[28] = b'I';
    d[29] = b'R';
    d[30] = 0xDE; // vendor
    d[31] = 0x10;
    d[36] = 28; // structure length
    d[42] = 1; // image_length: one 512-byte block
    d[46] = 0x00; // code type: x86 compatible
    d[47] = 0x80; // indicator: last image
    // NVGI marker at 512.
    d[512] = b'N';
    d[513] = b'V';
    d[514] = b'G';
    d[515] = b'I';
    d[520] = 1; // declared payload size
    d
}

fn kind_tag(r: &Region) -> &'static str {
    match r {
        Region::LegacyPciExpansionRom(_) => "legacy",
        Region::EfiPciExpansionRom(_) => "efi",
        Region::NvidiaPciExpansionRom(_) => "nvidia",
        Region::NbsiPciExpansionRom(_) => "nbsi",
        Region::NvgiRegion(_) => "nvgi",
        Region::RfrdRegion(_) => "rfrd",
    }
}

fn scan_all(d: &Vec<u8>) -> Vec<(&'static str, u64, u64)> {
    let mut it = RegionIterator::new(d);
    let mut out = Vec::new();
    while let Some(region) = it.try_next().unwrap() {
        out.push((
            kind_tag(&region),
            region.offset_in_firmware(),
            region.region_size(),
        ));
    }
    out
}

#[test]
fn test_scan_two_regions() {
    let d = legacy_and_marker_source();
    let found = scan_all(&d);
    assert_eq!(vec![("legacy", 0, 512), ("nvgi", 512, 1)], found);
}

#[test]
fn test_scan_idempotence() {
    // Scanning the same immutable source twice from the same start
    // yields an identical region sequence.
    let d = legacy_and_marker_source();
    let first = scan_all(&d);
    let second = scan_all(&d);
    assert_eq!(first, second);
}

#[test]
fn test_scan_empty_source() {
    let d = vec![0u8; 600];
    assert!(scan_all(&d).is_empty());
}

#[test]
fn test_scan_rejects_truncated_image() {
    // A valid signature whose declared image length exceeds the blob is
    // a speculative failure: the scan swallows it and finds nothing.
    let mut d = legacy_and_marker_source();
    d.truncate(600);
    d[42] = 0; // image_length low byte
    d[43] = 0x10; // declared image length 0x1000 blocks: bytes missing
    let found = scan_all(&d);
    assert!(found.is_empty());
}

#[test]
fn test_end_to_end_assembly() {
    // The legacy sub-image and the following marker land in the same
    // firmware unit.
    let d = legacy_and_marker_source();
    let bundle = FirmwareBundleInfo::parse(&d).unwrap();
    assert_eq!(1, bundle.firmwares.len());
    let unit = &bundle.firmwares[0];
    let legacy = unit.legacy_pci_image.as_ref().unwrap();
    assert_eq!(0, legacy.image.offset_in_firmware);
    assert_eq!(1, legacy.image.data_header.image_length);
    assert_eq!(512, legacy.image.region_size());
    assert_eq!(0x10DE, legacy.image.data_header.vendor_id);
    assert_eq!(1, unit.nvgi_regions.len());
    assert_eq!(512, unit.nvgi_regions[0].offset_in_firmware);
    assert_eq!(1, unit.nvgi_regions[0].data_size);
    assert!(unit.rfrd_region.is_none());
    assert!(unit.efi_pci_image.is_none());
    assert!(bundle.nbsi_pci_expansion_rom.is_none());
}

#[test]
fn test_trailer_marker_seals_unit() {
    // A leading marker arriving after a trailer marker opens a new unit.
    let mut d = vec![0u8; 2048];
    // RFRD trailer at 0.
    d[0] = b'R';
    d[1] = b'F';
    d[2] = b'R';
    d[3] = b'D';
    // NVGI leading marker at 512: seals the first unit.
    d[512] = b'N';
    d[513] = b'V';
    d[514] = b'G';
    d[515] = b'I';
    d[520] = 1;
    let bundle = FirmwareBundleInfo::parse(&d).unwrap();
    assert_eq!(2, bundle.firmwares.len());
    assert!(bundle.firmwares[0].rfrd_region.is_some());
    assert_eq!(16, bundle.firmwares[0].rfrd_region.as_ref().unwrap().region_size());
    assert_eq!(1, bundle.firmwares[1].nvgi_regions.len());
}

#[test]
fn test_v_bios_info_placeholder() {
    // A unit without a legacy image reports the placeholder version.
    let mut d = vec![0u8; 1024];
    d[0] = b'N';
    d[1] = b'V';
    d[2] = b'G';
    d[3] = b'I';
    d[8] = 1;
    let bundle = FirmwareBundleInfo::parse(&d).unwrap();
    let infos = bundle.v_bios_info();
    assert_eq!(1, infos.len());
    assert_eq!("N/A", infos[0].version);
    assert!(infos[0].gop_version.is_none());
    assert!(infos[0].subsystem_id.is_none());
}
