//! The legacy (x86 option-ROM style) PCI expansion ROM sub-image, and the
//! PCI data structure header that every expansion ROM flavour shares.

use crate::bytes::{le16, read_bytes, read_u16, read_u8, spec_align_up};
use crate::nvidia::{npde_matches, npde_ok, parse_npde, NvidiaPciDataExtended};
use crate::Error;
use crate::FirmwareRegion;
use vstd::prelude::*;

verus! {

/// First two bytes of every PCI expansion ROM: 0x55, 0xAA.
pub const PCI_EXPANSION_ROM_HEADER_IDENTIFIER: [u8; 2] = [0x55, 0xAA];

/// Signature of the PCI data structure: "PCIR".
pub const PCI_EXPANSION_ROM_DATA_IDENTIFIER: [u8; 4] = [0x50, 0x43, 0x49, 0x52];

/// The code type byte of a PCI data structure.
#[derive(Debug, Clone, Copy, PartialEq, Eq, Structural)]
pub enum PciExpansionRomCodeType {
    Ia32PcAtCompatible,
    OpenFirmwareStandardForPci,
    HewlettPackardPaRisc,
    EfiImage,
    NvidiaX86Extension,
    NvidiaHDCP,
    NvidiaNbsiSignature,
}

/// The code type a byte decodes to, if it is a known one.
pub open spec fn spec_code_type(b: int) -> Option<PciExpansionRomCodeType> {
    if b == 0x00 {
        Some(PciExpansionRomCodeType::Ia32PcAtCompatible)
    } else if b == 0x01 {
        Some(PciExpansionRomCodeType::OpenFirmwareStandardForPci)
    } else if b == 0x02 {
        Some(PciExpansionRomCodeType::HewlettPackardPaRisc)
    } else if b == 0x03 {
        Some(PciExpansionRomCodeType::EfiImage)
    } else if b == 0xE0 {
        Some(PciExpansionRomCodeType::NvidiaX86Extension)
    } else if b == 0x85 {
        Some(PciExpansionRomCodeType::NvidiaHDCP)
    } else if b == 0x70 {
        Some(PciExpansionRomCodeType::NvidiaNbsiSignature)
    } else {
        None
    }
}

impl PciExpansionRomCodeType {
    /// Decodes the code type byte.
    pub fn from_u8(b: u8) -> (r: Option<PciExpansionRomCodeType>)
        ensures
            r == spec_code_type(b as int),
    {
        match b {
            0x00 => Some(PciExpansionRomCodeType::Ia32PcAtCompatible),
            0x01 => Some(PciExpansionRomCodeType::OpenFirmwareStandardForPci),
            0x02 => Some(PciExpansionRomCodeType::HewlettPackardPaRisc),
            0x03 => Some(PciExpansionRomCodeType::EfiImage),
            0xE0 => Some(PciExpansionRomCodeType::NvidiaX86Extension),
            0x85 => Some(PciExpansionRomCodeType::NvidiaHDCP),
            0x70 => Some(PciExpansionRomCodeType::NvidiaNbsiSignature),
            _ => None,
        }
    }
}

/// The indicator byte of a PCI data structure: whether another image
/// follows this one.
#[derive(Debug, Clone, Copy, PartialEq, Eq, Structural)]
pub enum PciExpansionRomIndicator {
    AnotherImageFollows,
    LastImage,
}

/// The indicator a byte decodes to, if it is a known one.
pub open spec fn spec_indicator(b: int) -> Option<PciExpansionRomIndicator> {
    if b == 0x00 {
        Some(PciExpansionRomIndicator::AnotherImageFollows)
    } else if b == 0x80 {
        Some(PciExpansionRomIndicator::LastImage)
    } else {
        None
    }
}

impl PciExpansionRomIndicator {
    /// Decodes the indicator byte.
    pub fn from_u8(b: u8) -> (r: Option<PciExpansionRomIndicator>)
        ensures
            r == spec_indicator(b as int),
    {
        match b {
            0x00 => Some(PciExpansionRomIndicator::AnotherImageFollows),
            0x80 => Some(PciExpansionRomIndicator::LastImage),
            _ => None,
        }
    }
}

/// The 28-byte PCI data structure ("PCIR"/"NPDS") of an expansion ROM.
#[derive(Debug, Clone)]
pub struct PciExpansionRomDataHeader {
    pub signature: Vec<u8>,
    pub vendor_id: u16,
    pub device_id: u16,
    pub device_list_ptr: u16,
    pub pci_data_structure_length: u16,
    pub pci_data_structure_revision: u8,
    pub class_code: Vec<u8>,
    pub image_length: u16,
    pub revision_level: u16,
    pub code_type: PciExpansionRomCodeType,
    pub indicator: PciExpansionRomIndicator,
    pub max_runtime_image_length: u16,
    pub configuration_utility_code_pointer: u16,
    pub dmtf_clp_entry_point_pointer: u16,
}

/// A PCI data structure with 4-byte signature `s0 s1 s2 s3` decodes at
/// offset `p`.
pub open spec fn data_header_ok(d: Seq<u8>, p: int, s0: int, s1: int, s2: int, s3: int) -> bool {
    &&& 0 <= p
    &&& p + 28 <= d.len()
    &&& d[p] == s0
    &&& d[p + 1] == s1
    &&& d[p + 2] == s2
    &&& d[p + 3] == s3
    &&& spec_code_type(d[p + 20] as int) is Some
    &&& spec_indicator(d[p + 21] as int) is Some
}

/// The fields a PCI data structure decoded at `p` holds.
pub open spec fn data_header_matches(d: Seq<u8>, p: int, v: PciExpansionRomDataHeader) -> bool {
    &&& v.signature@ == d.subrange(p, p + 4)
    &&& v.vendor_id == le16(d, p + 4)
    &&& v.device_id == le16(d, p + 6)
    &&& v.device_list_ptr == le16(d, p + 8)
    &&& v.pci_data_structure_length == le16(d, p + 10)
    &&& v.pci_data_structure_revision == d[p + 12]
    &&& v.class_code@ == d.subrange(p + 13, p + 16)
    &&& v.image_length == le16(d, p + 16)
    &&& v.revision_level == le16(d, p + 18)
    &&& Some(v.code_type) == spec_code_type(d[p + 20] as int)
    &&& Some(v.indicator) == spec_indicator(d[p + 21] as int)
    &&& v.max_runtime_image_length == le16(d, p + 22)
    &&& v.configuration_utility_code_pointer == le16(d, p + 24)
    &&& v.dmtf_clp_entry_point_pointer == le16(d, p + 26)
}

/// Decodes the 28-byte PCI data structure at `pos`, whose signature must
/// be the four bytes `sig`.
pub fn parse_data_header(source: &Vec<u8>, pos: u64, sig: [u8; 4]) -> (r: Result<
    PciExpansionRomDataHeader,
    Error,
>)
    ensures
        match r {
            Ok(v) => data_header_ok(
                source@,
                pos as int,
                sig@[0] as int,
                sig@[1] as int,
                sig@[2] as int,
                sig@[3] as int,
            ) && data_header_matches(source@, pos as int, v),
            Err(_) => !data_header_ok(
                source@,
                pos as int,
                sig@[0] as int,
                sig@[1] as int,
                sig@[2] as int,
                sig@[3] as int,
            ),
        },
{
    proof {
        vstd::std_specs::vec::axiom_spec_len(source);
    }
    if pos > u64::MAX - 28 {
        return Err(Error::InvalidFormat(String::from_str("bad PCI data structure")));
    }
    let signature = match read_bytes(source, pos, 4) {
        Some(v) => v,
        None => {
            return Err(Error::InvalidFormat(String::from_str("bad PCI data structure")));
        },
    };
    if !(signature[0] == sig[0] && signature[1] == sig[1] && signature[2] == sig[2]
        && signature[3] == sig[3]) {
        return Err(Error::InvalidFormat(String::from_str("bad PCI data structure")));
    }
    match read_bytes(source, pos + 4, 24) {
        Some(_) => {},
        None => {
            return Err(Error::InvalidFormat(String::from_str("bad PCI data structure")));
        },
    }
    let vendor_id = read_u16(source, pos + 4).unwrap();
    let device_id = read_u16(source, pos + 6).unwrap();
    let device_list_ptr = read_u16(source, pos + 8).unwrap();
    let pci_data_structure_length = read_u16(source, pos + 10).unwrap();
    let pci_data_structure_revision = read_u8(source, pos + 12).unwrap();
    let class_code = read_bytes(source, pos + 13, 3).unwrap();
    let image_length = read_u16(source, pos + 16).unwrap();
    let revision_level = read_u16(source, pos + 18).unwrap();
    let code_type_raw = read_u8(source, pos + 20).unwrap();
    let indicator_raw = read_u8(source, pos + 21).unwrap();
    let max_runtime_image_length = read_u16(source, pos + 22).unwrap();
    let configuration_utility_code_pointer = read_u16(source, pos + 24).unwrap();
    let dmtf_clp_entry_point_pointer = read_u16(source, pos + 26).unwrap();
    let code_type = match PciExpansionRomCodeType::from_u8(code_type_raw) {
        Some(v) => v,
        None => {
            return Err(Error::InvalidFormat(String::from_str("bad PCI data structure")));
        },
    };
    let indicator = match PciExpansionRomIndicator::from_u8(indicator_raw) {
        Some(v) => v,
        None => {
            return Err(Error::InvalidFormat(String::from_str("bad PCI data structure")));
        },
    };
    Ok(
        PciExpansionRomDataHeader {
            signature,
            vendor_id,
            device_id,
            device_list_ptr,
            pci_data_structure_length,
            pci_data_structure_revision,
            class_code,
            image_length,
            revision_level,
            code_type,
            indicator,
            max_runtime_image_length,
            configuration_utility_code_pointer,
            dmtf_clp_entry_point_pointer,
        },
    )
}

/// The 26-byte header opening a legacy PCI expansion ROM.
#[derive(Debug, Clone)]
pub struct PciExpansionRomHeader {
    pub signature: Vec<u8>,
    pub initialization_size: u8,
    pub init_function_ptr: Vec<u8>,
    pub _reserved: Vec<u8>,
    pub pcir_offset: u16,
}

/// A legacy PCI expansion ROM sub-image: header, PCI data structure, the
/// optional extended data structure, and the image's leading bytes.
#[derive(Debug, Clone)]
pub struct PciExpansionRom {
    pub offset_in_firmware: u64,
    pub header: PciExpansionRomHeader,
    pub data_header: PciExpansionRomDataHeader,
    pub data_header_extended: Option<NvidiaPciDataExtended>,
    pub data: Vec<u8>,
}

/// A legacy PCI expansion ROM decodes at `off`: the 0x55AA signature, a
/// "PCIR" data structure behind the header's pointer, a positive declared
/// image length whose bytes are present, and a region end that stays
/// representable.
pub open spec fn legacy_ok(d: Seq<u8>, off: int) -> bool {
    let p = off + le16(d, off + 24);
    let il = le16(d, p + 16);
    &&& 0 <= off
    &&& off + 26 <= d.len()
    &&& d[off] == 0x55
    &&& d[off + 1] == 0xAA
    &&& data_header_ok(d, p, 0x50, 0x43, 0x49, 0x52)
    &&& il >= 1
    &&& off + il <= d.len()
    &&& off + 512 * il <= u64::MAX
}

/// Where a successful legacy decode leaves the stream: one past the
/// `image_length` bytes read from the image start.
pub open spec fn legacy_end(d: Seq<u8>, off: int) -> int {
    off + le16(d, off + le16(d, off + 24) + 16)
}

/// The fields a legacy PCI expansion ROM decoded at `off` holds.
pub open spec fn legacy_matches(d: Seq<u8>, off: int, v: PciExpansionRom) -> bool {
    let p = off + le16(d, off + 24);
    let a = spec_align_up(p + 28, 16);
    let il = le16(d, p + 16);
    &&& v.offset_in_firmware == off
    &&& v.header.signature@ == d.subrange(off, off + 2)
    &&& v.header.initialization_size == d[off + 2]
    &&& v.header.init_function_ptr@ == d.subrange(off + 3, off + 6)
    &&& v.header._reserved@ == d.subrange(off + 6, off + 24)
    &&& v.header.pcir_offset == le16(d, off + 24)
    &&& data_header_matches(d, p, v.data_header)
    &&& (if npde_ok(d, a) {
        v.data_header_extended matches Some(e) && npde_matches(d, a, e)
    } else {
        v.data_header_extended is None
    })
    &&& v.data@ == d.subrange(off, off + il)
}

impl FirmwareRegion for PciExpansionRom {
    open spec fn spec_offset_in_firmware(&self) -> int {
        self.offset_in_firmware as int
    }

    open spec fn spec_region_size(&self) -> int {
        self.data_header.image_length * 512
    }

    fn offset_in_firmware(&self) -> u64 {
        self.offset_in_firmware
    }

    fn region_size(&self) -> u64 {
        self.data_header.image_length as u64 * 512
    }

    fn end_offset_in_firmware(&self) -> u64 {
        self.offset_in_firmware + self.data_header.image_length as u64 * 512
    }
}

/// Decodes a legacy PCI expansion ROM at `offset`, succeeding exactly on
/// the inputs `legacy_ok` admits; on success the stream continues at
/// `legacy_end`.
pub fn parse_pci_expansion_rom(source: &Vec<u8>, offset: u64) -> (r: Result<
    (PciExpansionRom, u64),
    Error,
>)
    ensures
        match r {
            Ok((v, end)) => legacy_ok(source@, offset as int) && legacy_matches(
                source@,
                offset as int,
                v,
            ) && end == legacy_end(source@, offset as int),
            Err(_) => !legacy_ok(source@, offset as int),
        },
{
    proof {
        vstd::std_specs::vec::axiom_spec_len(source);
    }
    let head = match read_bytes(source, offset, 26) {
        Some(v) => v,
        None => {
            return Err(Error::InvalidFormat(String::from_str("legacy image truncated")));
        },
    };
    if !(head[0] == 0x55 && head[1] == 0xAA) {
        return Err(Error::InvalidFormat(String::from_str("legacy signature mismatch")));
    }
    let pcir_offset = read_u16(source, offset + 24).unwrap();
    let p = match offset.checked_add(pcir_offset as u64) {
        Some(p) => p,
        None => {
            return Err(Error::InvalidFormat(String::from_str("legacy image out of range")));
        },
    };
    let data_header = match parse_data_header(source, p, PCI_EXPANSION_ROM_DATA_IDENTIFIER) {
        Ok(v) => v,
        Err(e) => {
            return Err(e);
        },
    };
    let data_header_extended = match crate::bytes::align_up(p + 28, 16) {
        Some(a) => parse_npde(source, a),
        None => None,
    };
    let il = data_header.image_length;
    if il == 0 {
        return Err(Error::InvalidFormat(String::from_str("legacy image empty")));
    }
    let data = match read_bytes(source, offset, il as usize) {
        Some(v) => v,
        None => {
            return Err(Error::InvalidFormat(String::from_str("legacy image truncated")));
        },
    };
    if offset > (u64::MAX - 512 * il as u64) {
        return Err(Error::InvalidFormat(String::from_str("legacy image out of range")));
    }
    let rom = PciExpansionRom {
        offset_in_firmware: offset,
        header: PciExpansionRomHeader {
            signature: read_bytes(source, offset, 2).unwrap(),
            initialization_size: read_u8(source, offset + 2).unwrap(),
            init_function_ptr: read_bytes(source, offset + 3, 3).unwrap(),
            _reserved: read_bytes(source, offset + 6, 18).unwrap(),
            pcir_offset,
        },
        data_header,
        data_header_extended,
        data,
    };
    Ok((rom, offset + il as u64))
}

} // verus!
