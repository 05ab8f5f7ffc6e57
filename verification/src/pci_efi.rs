//! The EFI-flavoured PCI expansion ROM sub-image.

use crate::bytes::{le16, read_bytes, read_u16, spec_align_up};
use crate::nvidia::{npde_matches, npde_ok, parse_npde, NvidiaPciDataExtended};
use crate::pci_legacy::{
    data_header_matches, data_header_ok, parse_data_header, PciExpansionRomDataHeader,
    PCI_EXPANSION_ROM_DATA_IDENTIFIER,
};
use crate::Error;
use crate::FirmwareRegion;
use vstd::prelude::*;

verus! {

/// The EFI image marker inside the header: F1 0E 00 00.
pub const EFI_SIGNATURE: [u8; 4] = [0xF1, 0x0E, 0x00, 0x00];

/// The EFI subsystem word of the header.
#[derive(Debug, Clone, Copy, PartialEq, Eq, Structural)]
pub enum EfiPciExpansionRomSubsystem {
    BootServiceDriver,
    RuntimeDriver,
}

/// The subsystem a word decodes to, if it is a known one.
pub open spec fn spec_efi_subsystem(w: int) -> Option<EfiPciExpansionRomSubsystem> {
    if w == 0x0B {
        Some(EfiPciExpansionRomSubsystem::BootServiceDriver)
    } else if w == 0x0C {
        Some(EfiPciExpansionRomSubsystem::RuntimeDriver)
    } else {
        None
    }
}

impl EfiPciExpansionRomSubsystem {
    /// Decodes the subsystem word.
    pub fn from_u16(w: u16) -> (r: Option<EfiPciExpansionRomSubsystem>)
        ensures
            r == spec_efi_subsystem(w as int),
    {
        match w {
            0x0B => Some(EfiPciExpansionRomSubsystem::BootServiceDriver),
            0x0C => Some(EfiPciExpansionRomSubsystem::RuntimeDriver),
            _ => None,
        }
    }
}

/// The machine type word of the header.
#[derive(Debug, Clone, Copy, PartialEq, Eq, Structural)]
pub enum EfiPciExpansionRomMachineType {
    Ia32,
    Itanium,
    EfiByteCode,
    X64,
    Arm,
    Arm64,
}

/// The machine type a word decodes to, if it is a known one.
pub open spec fn spec_efi_machine_type(w: int) -> Option<EfiPciExpansionRomMachineType> {
    if w == 0x014C {
        Some(EfiPciExpansionRomMachineType::Ia32)
    } else if w == 0x0200 {
        Some(EfiPciExpansionRomMachineType::Itanium)
    } else if w == 0x0EBC {
        Some(EfiPciExpansionRomMachineType::EfiByteCode)
    } else if w == 0x8664 {
        Some(EfiPciExpansionRomMachineType::X64)
    } else if w == 0x01C2 {
        Some(EfiPciExpansionRomMachineType::Arm)
    } else if w == 0xAA64 {
        Some(EfiPciExpansionRomMachineType::Arm64)
    } else {
        None
    }
}

impl EfiPciExpansionRomMachineType {
    /// Decodes the machine type word.
    pub fn from_u16(w: u16) -> (r: Option<EfiPciExpansionRomMachineType>)
        ensures
            r == spec_efi_machine_type(w as int),
    {
        match w {
            0x014C => Some(EfiPciExpansionRomMachineType::Ia32),
            0x0200 => Some(EfiPciExpansionRomMachineType::Itanium),
            0x0EBC => Some(EfiPciExpansionRomMachineType::EfiByteCode),
            0x8664 => Some(EfiPciExpansionRomMachineType::X64),
            0x01C2 => Some(EfiPciExpansionRomMachineType::Arm),
            0xAA64 => Some(EfiPciExpansionRomMachineType::Arm64),
            _ => None,
        }
    }
}

/// The compression word of the header.
#[derive(Debug, Clone, Copy, PartialEq, Eq, Structural)]
pub enum EfiPciExpansionRomCompression {
    Uncompressed,
    UefiCompressionAlgorithm,
}

/// The compression kind a word decodes to, if it is a known one.
pub open spec fn spec_efi_compression(w: int) -> Option<EfiPciExpansionRomCompression> {
    if w == 0x0 {
        Some(EfiPciExpansionRomCompression::Uncompressed)
    } else if w == 0x1 {
        Some(EfiPciExpansionRomCompression::UefiCompressionAlgorithm)
    } else {
        None
    }
}

impl EfiPciExpansionRomCompression {
    /// Decodes the compression word.
    pub fn from_u16(w: u16) -> (r: Option<EfiPciExpansionRomCompression>)
        ensures
            r == spec_efi_compression(w as int),
    {
        match w {
            0x0 => Some(EfiPciExpansionRomCompression::Uncompressed),
            0x1 => Some(EfiPciExpansionRomCompression::UefiCompressionAlgorithm),
            _ => None,
        }
    }
}

/// The 26-byte header opening an EFI PCI expansion ROM.
#[derive(Debug, Clone)]
pub struct EfiPciExpansionRomHeader {
    pub signature: Vec<u8>,
    pub initialization_size: u16,
    pub efi_signature: Vec<u8>,
    pub efi_subsystem: EfiPciExpansionRomSubsystem,
    pub efi_machine_type: EfiPciExpansionRomMachineType,
    pub compression_type: EfiPciExpansionRomCompression,
    pub _reserved: Vec<u8>,
    pub efi_image_header_offset: u16,
    pub pcir_offset: u16,
}

/// An EFI PCI expansion ROM sub-image.
#[derive(Debug, Clone)]
pub struct EfiPciExpansionRom {
    pub offset_in_firmware: u64,
    pub header: EfiPciExpansionRomHeader,
    pub data_header: PciExpansionRomDataHeader,
    pub data_header_extended: Option<NvidiaPciDataExtended>,
    pub data: Vec<u8>,
}

/// An EFI PCI expansion ROM decodes at `off`.
pub open spec fn efi_ok(d: Seq<u8>, off: int) -> bool {
    let p = off + le16(d, off + 24);
    let il = le16(d, p + 16);
    &&& 0 <= off
    &&& off + 26 <= d.len()
    &&& d[off] == 0x55
    &&& d[off + 1] == 0xAA
    &&& d[off + 4] == 0xF1
    &&& d[off + 5] == 0x0E
    &&& d[off + 6] == 0x00
    &&& d[off + 7] == 0x00
    &&& spec_efi_subsystem(le16(d, off + 8)) is Some
    &&& spec_efi_machine_type(le16(d, off + 10)) is Some
    &&& spec_efi_compression(le16(d, off + 12)) is Some
    &&& data_header_ok(d, p, 0x50, 0x43, 0x49, 0x52)
    &&& il >= 1
    &&& off + il <= d.len()
    &&& off + 512 * il <= u64::MAX
}

/// Where a successful EFI decode leaves the stream.
pub open spec fn efi_end(d: Seq<u8>, off: int) -> int {
    off + le16(d, off + le16(d, off + 24) + 16)
}

/// The fields an EFI PCI expansion ROM decoded at `off` holds.
pub open spec fn efi_matches(d: Seq<u8>, off: int, v: EfiPciExpansionRom) -> bool {
    let p = off + le16(d, off + 24);
    let a = spec_align_up(p + 28, 16);
    let il = le16(d, p + 16);
    &&& v.offset_in_firmware == off
    &&& v.header.signature@ == d.subrange(off, off + 2)
    &&& v.header.initialization_size == le16(d, off + 2)
    &&& v.header.efi_signature@ == d.subrange(off + 4, off + 8)
    &&& Some(v.header.efi_subsystem) == spec_efi_subsystem(le16(d, off + 8))
    &&& Some(v.header.efi_machine_type) == spec_efi_machine_type(le16(d, off + 10))
    &&& Some(v.header.compression_type) == spec_efi_compression(le16(d, off + 12))
    &&& v.header._reserved@ == d.subrange(off + 14, off + 22)
    &&& v.header.efi_image_header_offset == le16(d, off + 22)
    &&& v.header.pcir_offset == le16(d, off + 24)
    &&& data_header_matches(d, p, v.data_header)
    &&& (if npde_ok(d, a) {
        v.data_header_extended matches Some(e) && npde_matches(d, a, e)
    } else {
        v.data_header_extended is None
    })
    &&& v.data@ == d.subrange(off, off + il)
}

impl FirmwareRegion for EfiPciExpansionRom {
    open spec fn spec_offset_in_firmware(&self) -> int {
        self.offset_in_firmware as int
    }

    open spec fn spec_region_size(&self) -> int {
        self.data_header.image_length * 512
    }

    fn offset_in_firmware(&self) -> u64 {
        self.offset_in_firmware
    }

    fn region_size(&self) -> u64 {
        self.data_header.image_length as u64 * 512
    }

    fn end_offset_in_firmware(&self) -> u64 {
        self.offset_in_firmware + self.data_header.image_length as u64 * 512
    }
}

/// Decodes an EFI PCI expansion ROM at `offset`, succeeding exactly on
/// the inputs `efi_ok` admits; on success the stream continues at
/// `efi_end`.
pub fn parse_efi_pci_expansion_rom(source: &Vec<u8>, offset: u64) -> (r: Result<
    (EfiPciExpansionRom, u64),
    Error,
>)
    ensures
        match r {
            Ok((v, end)) => efi_ok(source@, offset as int) && efi_matches(
                source@,
                offset as int,
                v,
            ) && end == efi_end(source@, offset as int),
            Err(_) => !efi_ok(source@, offset as int),
        },
{
    proof {
        vstd::std_specs::vec::axiom_spec_len(source);
    }
    let head = match read_bytes(source, offset, 26) {
        Some(v) => v,
        None => {
            return Err(Error::InvalidFormat(String::from_str("EFI image truncated")));
        },
    };
    if !(head[0] == 0x55 && head[1] == 0xAA) {
        return Err(Error::InvalidFormat(String::from_str("EFI signature mismatch")));
    }
    if !(head[4] == 0xF1 && head[5] == 0x0E && head[6] == 0x00 && head[7] == 0x00) {
        return Err(Error::InvalidFormat(String::from_str("EFI signature mismatch")));
    }
    let efi_subsystem = match EfiPciExpansionRomSubsystem::from_u16(
        read_u16(source, offset + 8).unwrap(),
    ) {
        Some(v) => v,
        None => {
            return Err(Error::InvalidFormat(String::from_str("EFI subsystem unknown")));
        },
    };
    let efi_machine_type = match EfiPciExpansionRomMachineType::from_u16(
        read_u16(source, offset + 10).unwrap(),
    ) {
        Some(v) => v,
        None => {
            return Err(Error::InvalidFormat(String::from_str("EFI machine type unknown")));
        },
    };
    let compression_type = match EfiPciExpansionRomCompression::from_u16(
        read_u16(source, offset + 12).unwrap(),
    ) {
        Some(v) => v,
        None => {
            return Err(Error::InvalidFormat(String::from_str("EFI compression unknown")));
        },
    };
    let pcir_offset = read_u16(source, offset + 24).unwrap();
    let p = match offset.checked_add(pcir_offset as u64) {
        Some(p) => p,
        None => {
            return Err(Error::InvalidFormat(String::from_str("EFI image out of range")));
        },
    };
    let data_header = match parse_data_header(source, p, PCI_EXPANSION_ROM_DATA_IDENTIFIER) {
        Ok(v) => v,
        Err(e) => {
            return Err(e);
        },
    };
    let data_header_extended = match crate::bytes::align_up(p + 28, 16) {
        Some(a) => parse_npde(source, a),
        None => None,
    };
    let il = data_header.image_length;
    if il == 0 {
        return Err(Error::InvalidFormat(String::from_str("EFI image empty")));
    }
    let data = match read_bytes(source, offset, il as usize) {
        Some(v) => v,
        None => {
            return Err(Error::InvalidFormat(String::from_str("EFI image truncated")));
        },
    };
    if offset > (u64::MAX - 512 * il as u64) {
        return Err(Error::InvalidFormat(String::from_str("EFI image out of range")));
    }
    let rom = EfiPciExpansionRom {
        offset_in_firmware: offset,
        header: EfiPciExpansionRomHeader {
            signature: read_bytes(source, offset, 2).unwrap(),
            initialization_size: read_u16(source, offset + 2).unwrap(),
            efi_signature: read_bytes(source, offset + 4, 4).unwrap(),
            efi_subsystem,
            efi_machine_type,
            compression_type,
            _reserved: read_bytes(source, offset + 14, 8).unwrap(),
            efi_image_header_offset: read_u16(source, offset + 22).unwrap(),
            pcir_offset,
        },
        data_header,
        data_header_extended,
        data,
    };
    Ok((rom, offset + il as u64))
}

} // verus!
