//! NVIDIA-specific structures of the firmware blob: the vendor expansion
//! ROM flavour, the extended PCI data structure, and the NVGI / RFRD
//! auxiliary marker regions.

use crate::bytes::{le16, le32, read_bytes, read_u16, read_u32, spec_align_up};
use crate::pci_legacy::{
    data_header_matches, data_header_ok, parse_data_header, spec_indicator,
    PciExpansionRomDataHeader, PciExpansionRomIndicator,
};
use crate::Error;
use crate::FirmwareRegion;
use crate::VersionHex4;
use vstd::prelude::*;

pub mod bit;
pub mod dcb;
pub mod nbsi;

verus! {

/// First two bytes of an NVIDIA expansion ROM: "VN".
pub const NV_ROM_SIGNATURE: [u8; 2] = [0x56, 0x4E];

/// Signature of the NVGI auxiliary directory region.
pub const NVGI_SIGNATURE: [u8; 4] = [0x4E, 0x56, 0x47, 0x49];

/// Signature of the RFRD trailer marker region.
pub const RFRD_SIGNATURE: [u8; 4] = [0x52, 0x46, 0x52, 0x44];

/// Signature of the NVIDIA PCI data structure: "NPDS".
pub const NV_PCI_DATA_STRUCTURE_SIGNATURE: [u8; 4] = [0x4E, 0x50, 0x44, 0x53];

/// Signature of the NVIDIA extended PCI data structure: "NPDE".
pub const NV_PCI_DATA_EXTENDED_STRUCTURE_SIGNATURE: [u8; 4] = [0x4E, 0x50, 0x44, 0x45];

/// Raw flag byte of the extended PCI data structure.
#[derive(Debug, Clone, Copy, PartialEq, Eq, Structural)]
pub struct NvidiaPciDataExtendedFlags(pub u8);

/// The NVIDIA extended PCI data structure ("NPDE"), aligned to 16 bytes
/// after the PCI data structure; its two trailing version stamps are
/// present only when the declared structure length covers them.
#[derive(Debug, Clone)]
pub struct NvidiaPciDataExtended {
    pub signature: Vec<u8>,
    pub revision: u16,
    pub structure_length: u16,
    pub image_length: u16,
    pub indicator: PciExpansionRomIndicator,
    pub flags: NvidiaPciDataExtendedFlags,
    pub gop_version: Option<VersionHex4>,
    pub subsystem_id: Option<VersionHex4>,
}

/// An NPDE structure decodes at offset `a`.
pub open spec fn npde_ok(d: Seq<u8>, a: int) -> bool {
    &&& 0 <= a
    &&& a + 12 <= d.len()
    &&& d[a] == 0x4E
    &&& d[a + 1] == 0x50
    &&& d[a + 2] == 0x44
    &&& d[a + 3] == 0x45
    &&& spec_indicator(d[a + 10] as int) is Some
    &&& (le16(d, a + 6) > 12 ==> a + 16 <= d.len())
    &&& (le16(d, a + 6) > 14 ==> a + 20 <= d.len())
}

/// The fields an NPDE structure decoded at `a` holds.
pub open spec fn npde_matches(d: Seq<u8>, a: int, v: NvidiaPciDataExtended) -> bool {
    &&& v.signature@ == d.subrange(a, a + 4)
    &&& v.revision == le16(d, a + 4)
    &&& v.structure_length == le16(d, a + 6)
    &&& v.image_length == le16(d, a + 8)
    &&& Some(v.indicator) == spec_indicator(d[a + 10] as int)
    &&& v.flags.0 == d[a + 11]
    &&& (if le16(d, a + 6) > 12 {
        v.gop_version matches Some(g) && g.0@ == d.subrange(a + 12, a + 16)
    } else {
        v.gop_version is None
    })
    &&& (if le16(d, a + 6) > 14 {
        v.subsystem_id matches Some(g) && g.0@ == d.subrange(a + 16, a + 20)
    } else {
        v.subsystem_id is None
    })
}

/// Reads a four-byte version stamp at `pos`.
fn read_version(source: &Vec<u8>, pos: u64) -> (r: Option<VersionHex4>)
    ensures
        match r {
            Some(v) => pos + 4 <= source@.len() && v.0@ == source@.subrange(
                pos as int,
                pos as int + 4,
            ),
            None => pos + 4 > source@.len(),
        },
{
    match read_bytes(source, pos, 4) {
        Some(b) => {
            let v = VersionHex4([b[0], b[1], b[2], b[3]]);
            proof {
                assert(v.0@ =~= source@.subrange(pos as int, pos as int + 4));
            }
            Some(v)
        },
        None => None,
    }
}

/// Speculatively decodes the NPDE structure at `a`; a failed attempt
/// yields `None` and is never an error.
pub fn parse_npde(source: &Vec<u8>, a: u64) -> (r: Option<NvidiaPciDataExtended>)
    ensures
        match r {
            Some(v) => npde_ok(source@, a as int) && npde_matches(source@, a as int, v),
            None => !npde_ok(source@, a as int),
        },
{
    proof {
        vstd::std_specs::vec::axiom_spec_len(source);
    }
    let head = match read_bytes(source, a, 12) {
        Some(v) => v,
        None => {
            return None;
        },
    };
    if !(head[0] == 0x4E && head[1] == 0x50 && head[2] == 0x44 && head[3] == 0x45) {
        return None;
    }
    let revision = read_u16(source, a + 4).unwrap();
    let structure_length = read_u16(source, a + 6).unwrap();
    let image_length = read_u16(source, a + 8).unwrap();
    let indicator = match PciExpansionRomIndicator::from_u8(head[10]) {
        Some(v) => v,
        None => {
            return None;
        },
    };
    let flags = NvidiaPciDataExtendedFlags(head[11]);
    let gop_version = if structure_length > 12 {
        match read_version(source, a + 12) {
            Some(v) => Some(v),
            None => {
                return None;
            },
        }
    } else {
        None
    };
    let subsystem_id = if structure_length > 14 {
        let p16 = match a.checked_add(16) {
            Some(p) => p,
            None => {
                return None;
            },
        };
        match read_version(source, p16) {
            Some(v) => Some(v),
            None => {
                return None;
            },
        }
    } else {
        None
    };
    Some(
        NvidiaPciDataExtended {
            signature: read_bytes(source, a, 4).unwrap(),
            revision,
            structure_length,
            image_length,
            indicator,
            flags,
            gop_version,
            subsystem_id,
        },
    )
}

/// Header of an NVGI auxiliary directory region.
#[derive(Debug, Clone)]
pub struct NvgiHeader {
    pub signature: Vec<u8>,
    pub unknown1: u16,
    pub unknown2: u16,
    pub size: u32,
}

/// An NVGI auxiliary directory region: a 12-byte header followed by
/// `size` bytes of payload.
#[derive(Debug, Clone)]
pub struct NvgiRegion {
    pub offset_in_firmware: u64,
    pub header: NvgiHeader,
    pub data_size: u64,
    pub data_offset_in_firmware: u64,
}

/// An NVGI region decodes at `off`: the signature, a positive declared
/// size, and a region end that stays representable.
pub open spec fn nvgi_ok(d: Seq<u8>, off: int) -> bool {
    &&& 0 <= off
    &&& off + 12 <= d.len()
    &&& d[off] == 0x4E
    &&& d[off + 1] == 0x56
    &&& d[off + 2] == 0x47
    &&& d[off + 3] == 0x49
    &&& le32(d, off + 8) >= 1
    &&& off + 12 + le32(d, off + 8) <= u64::MAX
}

/// Where a successful NVGI decode leaves the stream: one past the padded
/// payload.
pub open spec fn nvgi_end(d: Seq<u8>, off: int) -> int {
    off + 12 + le32(d, off + 8)
}

/// The fields an NVGI region decoded at `off` holds.
pub open spec fn nvgi_matches(d: Seq<u8>, off: int, v: NvgiRegion) -> bool {
    &&& v.offset_in_firmware == off
    &&& v.header.signature@ == d.subrange(off, off + 4)
    &&& v.header.unknown1 == le16(d, off + 4)
    &&& v.header.unknown2 == le16(d, off + 6)
    &&& v.header.size == le32(d, off + 8)
    &&& v.data_size == le32(d, off + 8)
    &&& v.data_offset_in_firmware == off + 12
}

impl FirmwareRegion for NvgiRegion {
    open spec fn spec_offset_in_firmware(&self) -> int {
        self.offset_in_firmware as int
    }

    open spec fn spec_region_size(&self) -> int {
        self.data_size as int
    }

    fn offset_in_firmware(&self) -> u64 {
        self.offset_in_firmware
    }

    fn region_size(&self) -> u64 {
        self.data_size
    }

    fn end_offset_in_firmware(&self) -> u64 {
        self.offset_in_firmware + self.data_size
    }
}

/// Decodes an NVGI region at `offset`, succeeding exactly on the inputs
/// `nvgi_ok` admits.
pub fn parse_nvgi_region(source: &Vec<u8>, offset: u64) -> (r: Result<(NvgiRegion, u64), Error>)
    ensures
        match r {
            Ok((v, end)) => nvgi_ok(source@, offset as int) && nvgi_matches(
                source@,
                offset as int,
                v,
            ) && end == nvgi_end(source@, offset as int),
            Err(_) => !nvgi_ok(source@, offset as int),
        },
{
    proof {
        vstd::std_specs::vec::axiom_spec_len(source);
    }
    let head = match read_bytes(source, offset, 12) {
        Some(v) => v,
        None => {
            return Err(Error::InvalidFormat(String::from_str("NVGI region truncated")));
        },
    };
    if !(head[0] == 0x4E && head[1] == 0x56 && head[2] == 0x47 && head[3] == 0x49) {
        return Err(Error::InvalidFormat(String::from_str("NVGI signature mismatch")));
    }
    let unknown1 = read_u16(source, offset + 4).unwrap();
    let unknown2 = read_u16(source, offset + 6).unwrap();
    let size = read_u32(source, offset + 8).unwrap();
    if size == 0 {
        return Err(Error::InvalidFormat(String::from_str("NVGI region empty")));
    }
    if offset > u64::MAX - 12 || offset + 12 > u64::MAX - size as u64 {
        return Err(Error::InvalidFormat(String::from_str("NVGI region out of range")));
    }
    let region = NvgiRegion {
        offset_in_firmware: offset,
        header: NvgiHeader { signature: read_bytes(source, offset, 4).unwrap(), unknown1, unknown2, size },
        data_size: size as u64,
        data_offset_in_firmware: offset + 12,
    };
    Ok((region, offset + 12 + size as u64))
}

/// Header of an RFRD trailer marker region.
#[derive(Debug, Clone)]
pub struct RfrdHeader {
    pub signature: Vec<u8>,
    pub unknown1: u16,
    pub unknown2: u16,
    pub pci_rom_offset: u32,
}

/// An RFRD trailer marker: a fixed 16-byte region closing a firmware
/// unit.
#[derive(Debug, Clone)]
pub struct RfrdRegion {
    pub offset_in_firmware: u64,
    pub header: RfrdHeader,
}

/// An RFRD marker decodes at `off`.
pub open spec fn rfrd_ok(d: Seq<u8>, off: int) -> bool {
    &&& 0 <= off
    &&& off + 12 <= d.len()
    &&& d[off] == 0x52
    &&& d[off + 1] == 0x46
    &&& d[off + 2] == 0x52
    &&& d[off + 3] == 0x44
    &&& off + 16 <= u64::MAX
}

/// Where a successful RFRD decode leaves the stream: one past its 12-byte
/// header.
pub open spec fn rfrd_end(d: Seq<u8>, off: int) -> int {
    off + 12
}

/// The fields an RFRD marker decoded at `off` holds.
pub open spec fn rfrd_matches(d: Seq<u8>, off: int, v: RfrdRegion) -> bool {
    &&& v.offset_in_firmware == off
    &&& v.header.signature@ == d.subrange(off, off + 4)
    &&& v.header.unknown1 == le16(d, off + 4)
    &&& v.header.unknown2 == le16(d, off + 6)
    &&& v.header.pci_rom_offset == le32(d, off + 8)
}

impl FirmwareRegion for RfrdRegion {
    open spec fn spec_offset_in_firmware(&self) -> int {
        self.offset_in_firmware as int
    }

    open spec fn spec_region_size(&self) -> int {
        16
    }

    fn offset_in_firmware(&self) -> u64 {
        self.offset_in_firmware
    }

    fn region_size(&self) -> u64 {
        16
    }

    fn end_offset_in_firmware(&self) -> u64 {
        self.offset_in_firmware + 16
    }
}

/// Decodes an RFRD trailer marker at `offset`, succeeding exactly on the
/// inputs `rfrd_ok` admits.
pub fn parse_rfrd_region(source: &Vec<u8>, offset: u64) -> (r: Result<(RfrdRegion, u64), Error>)
    ensures
        match r {
            Ok((v, end)) => rfrd_ok(source@, offset as int) && rfrd_matches(
                source@,
                offset as int,
                v,
            ) && end == rfrd_end(source@, offset as int),
            Err(_) => !rfrd_ok(source@, offset as int),
        },
{
    proof {
        vstd::std_specs::vec::axiom_spec_len(source);
    }
    let head = match read_bytes(source, offset, 12) {
        Some(v) => v,
        None => {
            return Err(Error::InvalidFormat(String::from_str("RFRD region truncated")));
        },
    };
    if !(head[0] == 0x52 && head[1] == 0x46 && head[2] == 0x52 && head[3] == 0x44) {
        return Err(Error::InvalidFormat(String::from_str("RFRD signature mismatch")));
    }
    if offset > u64::MAX - 16 {
        return Err(Error::InvalidFormat(String::from_str("RFRD region out of range")));
    }
    let unknown1 = read_u16(source, offset + 4).unwrap();
    let unknown2 = read_u16(source, offset + 6).unwrap();
    let pci_rom_offset = read_u32(source, offset + 8).unwrap();
    let region = RfrdRegion {
        offset_in_firmware: offset,
        header: RfrdHeader {
            signature: read_bytes(source, offset, 4).unwrap(),
            unknown1,
            unknown2,
            pci_rom_offset,
        },
    };
    Ok((region, offset + 12))
}

/// Header of an NVIDIA expansion ROM sub-image.
#[derive(Debug, Clone)]
pub struct NvidiaPciExpansionRomHeader {
    pub signature: Vec<u8>,
    pub _reserved: Vec<u8>,
    pub pcir_offset: u16,
}

/// An NVIDIA vendor-continuation expansion ROM sub-image: "VN" header, an
/// "NPDS" data structure, the optional extended data structure, and the
/// image's leading bytes.
#[derive(Debug, Clone)]
pub struct NvidiaPciExpansionRom {
    pub offset_in_firmware: u64,
    pub header: NvidiaPciExpansionRomHeader,
    pub data_header: PciExpansionRomDataHeader,
    pub data_header_extended: Option<NvidiaPciDataExtended>,
    pub data: Vec<u8>,
}

/// An NVIDIA expansion ROM decodes at `off`.
pub open spec fn nvrom_ok(d: Seq<u8>, off: int) -> bool {
    let p = off + le16(d, off + 24);
    let il = le16(d, p + 16);
    &&& 0 <= off
    &&& off + 26 <= d.len()
    &&& d[off] == 0x56
    &&& d[off + 1] == 0x4E
    &&& data_header_ok(d, p, 0x4E, 0x50, 0x44, 0x53)
    &&& il >= 1
    &&& off + il <= d.len()
    &&& off + 512 * il <= u64::MAX
}

/// Where a successful NVIDIA ROM decode leaves the stream.
pub open spec fn nvrom_end(d: Seq<u8>, off: int) -> int {
    off + le16(d, off + le16(d, off + 24) + 16)
}

/// The fields an NVIDIA expansion ROM decoded at `off` holds.
pub open spec fn nvrom_matches(d: Seq<u8>, off: int, v: NvidiaPciExpansionRom) -> bool {
    let p = off + le16(d, off + 24);
    let a = spec_align_up(p + 28, 16);
    let il = le16(d, p + 16);
    &&& v.offset_in_firmware == off
    &&& v.header.signature@ == d.subrange(off, off + 2)
    &&& v.header._reserved@ == d.subrange(off + 2, off + 24)
    &&& v.header.pcir_offset == le16(d, off + 24)
    &&& data_header_matches(d, p, v.data_header)
    &&& (if npde_ok(d, a) {
        v.data_header_extended matches Some(e) && npde_matches(d, a, e)
    } else {
        v.data_header_extended is None
    })
    &&& v.data@ == d.subrange(off, off + il)
}

impl FirmwareRegion for NvidiaPciExpansionRom {
    open spec fn spec_offset_in_firmware(&self) -> int {
        self.offset_in_firmware as int
    }

    open spec fn spec_region_size(&self) -> int {
        self.data_header.image_length * 512
    }

    fn offset_in_firmware(&self) -> u64 {
        self.offset_in_firmware
    }

    fn region_size(&self) -> u64 {
        self.data_header.image_length as u64 * 512
    }

    fn end_offset_in_firmware(&self) -> u64 {
        self.offset_in_firmware + self.data_header.image_length as u64 * 512
    }
}

/// Decodes an NVIDIA expansion ROM at `offset`, succeeding exactly on the
/// inputs `nvrom_ok` admits; on success the stream continues at
/// `nvrom_end`.
pub fn parse_nvidia_pci_expansion_rom(source: &Vec<u8>, offset: u64) -> (r: Result<
    (NvidiaPciExpansionRom, u64),
    Error,
>)
    ensures
        match r {
            Ok((v, end)) => nvrom_ok(source@, offset as int) && nvrom_matches(
                source@,
                offset as int,
                v,
            ) && end == nvrom_end(source@, offset as int),
            Err(_) => !nvrom_ok(source@, offset as int),
        },
{
    proof {
        vstd::std_specs::vec::axiom_spec_len(source);
    }
    let head = match read_bytes(source, offset, 26) {
        Some(v) => v,
        None => {
            return Err(Error::InvalidFormat(String::from_str("vendor image truncated")));
        },
    };
    if !(head[0] == 0x56 && head[1] == 0x4E) {
        return Err(Error::InvalidFormat(String::from_str("vendor signature mismatch")));
    }
    let pcir_offset = read_u16(source, offset + 24).unwrap();
    let p = match offset.checked_add(pcir_offset as u64) {
        Some(p) => p,
        None => {
            return Err(Error::InvalidFormat(String::from_str("vendor image out of range")));
        },
    };
    let data_header = match parse_data_header(source, p, NV_PCI_DATA_STRUCTURE_SIGNATURE) {
        Ok(v) => v,
        Err(e) => {
            return Err(e);
        },
    };
    let data_header_extended = match crate::bytes::align_up(p + 28, 16) {
        Some(a) => parse_npde(source, a),
        None => None,
    };
    let il = data_header.image_length;
    if il == 0 {
        return Err(Error::InvalidFormat(String::from_str("vendor image empty")));
    }
    let data = match read_bytes(source, offset, il as usize) {
        Some(v) => v,
        None => {
            return Err(Error::InvalidFormat(String::from_str("vendor image truncated")));
        },
    };
    if offset > (u64::MAX - 512 * il as u64) {
        return Err(Error::InvalidFormat(String::from_str("vendor image out of range")));
    }
    let rom = NvidiaPciExpansionRom {
        offset_in_firmware: offset,
        header: NvidiaPciExpansionRomHeader {
            signature: read_bytes(source, offset, 2).unwrap(),
            _reserved: read_bytes(source, offset + 2, 22).unwrap(),
            pcir_offset,
        },
        data_header,
        data_header_extended,
        data,
    };
    Ok((rom, offset + il as u64))
}

} // verus!
