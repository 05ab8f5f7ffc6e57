//! Parsing of flat GPU firmware ROM dumps.
//!
//! A dump packs several self-describing sub-images and auxiliary marker
//! blocks back-to-back into one byte blob.  The library discovers those
//! regions by probing the blob at a fixed stride ([`RegionIterator`]),
//! stitches the discovered sub-images into one contiguous logical stream
//! ([`cursor::ContinuousRegionReader`]), finds the directory structures
//! embedded in that stream ([`RegionStructureIterator`]) and follows their
//! pointer fields into the nested tables ([`firmware::FirmwareBundleInfo`]).
//! Everything is read-only: no ROM is ever modified.

use vstd::prelude::*;

pub mod bytes;
pub mod cursor;
pub mod firmware;
pub mod nvidia;
pub mod pci_efi;
pub mod pci_legacy;

verus! {

/// Byte stride at which candidate regions are probed in the raw blob.
pub const FIRMWARE_REGION_ALIGN: u64 = 512;

/// Errors reported by the library.
///
/// A structural problem inside a committed (non-speculative) decode is an
/// `InvalidFormat`; an impossible read or seek position is an
/// `InvalidInput`; anything else is an `ErrorMessage`.
#[derive(Debug, Clone)]
pub enum Error {
    InvalidInput(String),
    InvalidFormat(String),
    ErrorMessage(String),
}

impl Error {
    /// The human-readable text carried by the error.
    pub fn message(&self) -> (r: &String)
        ensures
            r == match self {
                Error::InvalidInput(m) => m,
                Error::InvalidFormat(m) => m,
                Error::ErrorMessage(m) => m,
            },
    {
        match self {
            Error::InvalidInput(m) => m,
            Error::InvalidFormat(m) => m,
            Error::ErrorMessage(m) => m,
        }
    }
}

/// A discovered byte range of the raw firmware blob.
pub trait FirmwareRegion {
    /// Mathematical offset of the first byte of the region.
    spec fn spec_offset_in_firmware(&self) -> int;

    /// Mathematical size of the region in bytes.
    spec fn spec_region_size(&self) -> int;

    /// Offset of the first byte of the region in the raw blob.
    fn offset_in_firmware(&self) -> (r: u64)
        ensures
            r as int == self.spec_offset_in_firmware(),
    ;

    /// Number of bytes the region spans in the raw blob.
    fn region_size(&self) -> (r: u64)
        ensures
            r as int == self.spec_region_size(),
    ;

    /// Offset one past the last byte of the region.
    fn end_offset_in_firmware(&self) -> (r: u64)
        requires
            self.spec_offset_in_firmware() + self.spec_region_size() <= u64::MAX,
        ensures
            r as int == self.spec_offset_in_firmware() + self.spec_region_size(),
    ;
}

/// A four-byte version stamp displayed as four hexadecimal pairs.
#[derive(Debug, Clone, Copy)]
pub struct VersionHex4(pub [u8; 4]);

impl VersionHex4 {
    /// `Some(self)` unless all four bytes are zero.
    pub fn non_zero(&self) -> (r: Option<&VersionHex4>)
        ensures
            (r is Some) <==> (exists|i: int| 0 <= i < 4 && self.0@[i] != 0),
            r matches Some(v) ==> v.0@ == self.0@,
    {
        if self.0[0] == 0 && self.0[1] == 0 && self.0[2] == 0 && self.0[3] == 0 {
            assert(forall|i: int| 0 <= i < 4 ==> self.0@[i] == 0);
            None
        } else {
            Some(self)
        }
    }
}

/// A discovered region of the raw blob: one of the five sub-image or
/// marker flavours the scanner recognises.
#[derive(Debug, Clone)]
pub enum Region {
    LegacyPciExpansionRom(pci_legacy::PciExpansionRom),
    EfiPciExpansionRom(pci_efi::EfiPciExpansionRom),
    NvidiaPciExpansionRom(nvidia::NvidiaPciExpansionRom),
    NbsiPciExpansionRom(nvidia::nbsi::NbsiPciExpansionRom),
    NvgiRegion(nvidia::NvgiRegion),
    RfrdRegion(nvidia::RfrdRegion),
}

impl FirmwareRegion for Region {
    open spec fn spec_offset_in_firmware(&self) -> int {
        match self {
            Region::LegacyPciExpansionRom(v) => v.spec_offset_in_firmware(),
            Region::EfiPciExpansionRom(v) => v.spec_offset_in_firmware(),
            Region::NvidiaPciExpansionRom(v) => v.spec_offset_in_firmware(),
            Region::NbsiPciExpansionRom(v) => v.spec_offset_in_firmware(),
            Region::NvgiRegion(v) => v.spec_offset_in_firmware(),
            Region::RfrdRegion(v) => v.spec_offset_in_firmware(),
        }
    }

    open spec fn spec_region_size(&self) -> int {
        match self {
            Region::LegacyPciExpansionRom(v) => v.spec_region_size(),
            Region::EfiPciExpansionRom(v) => v.spec_region_size(),
            Region::NvidiaPciExpansionRom(v) => v.spec_region_size(),
            Region::NbsiPciExpansionRom(v) => v.spec_region_size(),
            Region::NvgiRegion(v) => v.spec_region_size(),
            Region::RfrdRegion(v) => v.spec_region_size(),
        }
    }

    fn offset_in_firmware(&self) -> u64 {
        match self {
            Region::LegacyPciExpansionRom(v) => v.offset_in_firmware(),
            Region::EfiPciExpansionRom(v) => v.offset_in_firmware(),
            Region::NvidiaPciExpansionRom(v) => v.offset_in_firmware(),
            Region::NbsiPciExpansionRom(v) => v.offset_in_firmware(),
            Region::NvgiRegion(v) => v.offset_in_firmware(),
            Region::RfrdRegion(v) => v.offset_in_firmware(),
        }
    }

    fn region_size(&self) -> u64 {
        match self {
            Region::LegacyPciExpansionRom(v) => v.region_size(),
            Region::EfiPciExpansionRom(v) => v.region_size(),
            Region::NvidiaPciExpansionRom(v) => v.region_size(),
            Region::NbsiPciExpansionRom(v) => v.region_size(),
            Region::NvgiRegion(v) => v.region_size(),
            Region::RfrdRegion(v) => v.region_size(),
        }
    }

    fn end_offset_in_firmware(&self) -> u64 {
        self.offset_in_firmware() + self.region_size()
    }
}

impl Region {
    /// The plain byte range this region spans in the raw blob.
    pub fn span(&self) -> (r: cursor::RegionSpan)
        ensures
            r.offset_in_firmware as int == self.spec_offset_in_firmware(),
            r.region_size as int == self.spec_region_size(),
    {
        cursor::RegionSpan {
            offset_in_firmware: self.offset_in_firmware(),
            region_size: self.region_size(),
        }
    }
}

/// The flavour of a region found by one scan step.
pub ghost enum RegionKind {
    Legacy,
    Efi,
    Nvidia,
    Nbsi,
    Nvgi,
    Rfrd,
}

/// What one scan step finds: the region's flavour, placement and size,
/// and the raw position the decode leaves the stream at.
pub ghost struct ScanHit {
    pub kind: RegionKind,
    pub offset: int,
    pub size: int,
    pub end: int,
}

/// What probing offset `off` yields: two-byte signatures are tried first
/// (EFI before legacy for 0x55AA, NBSI before the plain vendor image for
/// "VN"), then the four-byte marker signatures; the first flavour that
/// decodes wins.
#[verifier::opaque]
pub open spec fn probe_hit(d: Seq<u8>, off: int) -> Option<ScanHit> {
    if d[off] == 0x55 && d[off + 1] == 0xAA {
        if pci_efi::efi_ok(d, off) {
            Some(
                ScanHit {
                    kind: RegionKind::Efi,
                    offset: off,
                    size: 512 * bytes::le16(d, off + bytes::le16(d, off + 24) + 16),
                    end: pci_efi::efi_end(d, off),
                },
            )
        } else if pci_legacy::legacy_ok(d, off) {
            Some(
                ScanHit {
                    kind: RegionKind::Legacy,
                    offset: off,
                    size: 512 * bytes::le16(d, off + bytes::le16(d, off + 24) + 16),
                    end: pci_legacy::legacy_end(d, off),
                },
            )
        } else {
            None
        }
    } else if d[off] == 0x56 && d[off + 1] == 0x4E {
        if nvidia::nbsi::nbsi_ok(d, off) {
            Some(
                ScanHit {
                    kind: RegionKind::Nbsi,
                    offset: off,
                    size: 512 * bytes::le16(d, off + bytes::le16(d, off + 24) + 16),
                    end: nvidia::nbsi::nbsi_end(d, off),
                },
            )
        } else if nvidia::nvrom_ok(d, off) {
            Some(
                ScanHit {
                    kind: RegionKind::Nvidia,
                    offset: off,
                    size: 512 * bytes::le16(d, off + bytes::le16(d, off + 24) + 16),
                    end: nvidia::nvrom_end(d, off),
                },
            )
        } else {
            None
        }
    } else if d[off] == 0x4E && d[off + 1] == 0x56 && d[off + 2] == 0x47 && d[off + 3] == 0x49 {
        if nvidia::nvgi_ok(d, off) {
            Some(
                ScanHit {
                    kind: RegionKind::Nvgi,
                    offset: off,
                    size: bytes::le32(d, off + 8),
                    end: nvidia::nvgi_end(d, off),
                },
            )
        } else {
            None
        }
    } else if d[off] == 0x52 && d[off + 1] == 0x46 && d[off + 2] == 0x52 && d[off + 3] == 0x44 {
        if nvidia::rfrd_ok(d, off) {
            Some(
                ScanHit { kind: RegionKind::Rfrd, offset: off, size: 16, end: nvidia::rfrd_end(d, off) },
            )
        } else {
            None
        }
    } else {
        None
    }
}

/// The first hit found probing at `pos` and then every 512 bytes after
/// it; `None` once fewer than 512 bytes remain.
pub open spec fn scan_from(d: Seq<u8>, pos: int) -> Option<ScanHit>
    decreases d.len() - pos,
{
    if pos < 0 || pos + 512 > d.len() {
        None
    } else {
        match probe_hit(d, pos) {
            Some(h) => Some(h),
            None => scan_from(d, pos + 512),
        }
    }
}

/// One step of the region scan, starting from raw position `pos`: align
/// up to the probe stride, then probe stride by stride.
#[verifier::opaque]
pub open spec fn spec_scan_step(d: Seq<u8>, pos: int) -> Option<ScanHit> {
    if bytes::spec_align_up(pos, 512) > u64::MAX {
        None
    } else {
        scan_from(d, bytes::spec_align_up(pos, 512))
    }
}

/// The region a scan hit decodes to.
#[verifier::opaque]
pub open spec fn region_matches_hit(d: Seq<u8>, h: ScanHit, region: Region) -> bool {
    match region {
        Region::LegacyPciExpansionRom(v) => h.kind == RegionKind::Legacy
            && pci_legacy::legacy_matches(d, h.offset, v),
        Region::EfiPciExpansionRom(v) => h.kind == RegionKind::Efi && pci_efi::efi_matches(
            d,
            h.offset,
            v,
        ),
        Region::NvidiaPciExpansionRom(v) => h.kind == RegionKind::Nvidia && nvidia::nvrom_matches(
            d,
            h.offset,
            v,
        ),
        Region::NbsiPciExpansionRom(v) => h.kind == RegionKind::Nbsi && nvidia::nbsi::nbsi_matches(
            d,
            h.offset,
            v,
        ),
        Region::NvgiRegion(v) => h.kind == RegionKind::Nvgi && nvidia::nvgi_matches(
            d,
            h.offset,
            v,
        ),
        Region::RfrdRegion(v) => h.kind == RegionKind::Rfrd && nvidia::rfrd_matches(
            d,
            h.offset,
            v,
        ),
    }
}

/// A full scan's hit sequence: the first step starts at raw position 0
/// and every later one where the previous decode ended.
#[verifier::opaque]
pub open spec fn scan_chain(d: Seq<u8>, hits: Seq<ScanHit>) -> bool {
    forall|i: int|
        0 <= i < hits.len() ==> Some(#[trigger] hits[i]) == spec_scan_step(
            d,
            if i == 0 {
                0
            } else {
                hits[i - 1].end
            },
        )
}

/// The chain covers the whole blob: one more step finds nothing.
pub open spec fn scan_complete(d: Seq<u8>, hits: Seq<ScanHit>) -> bool {
    spec_scan_step(
        d,
        if hits.len() == 0 {
            0
        } else {
            hits.last().end
        },
    ) is None
}

/// Scan idempotence: what one scan step finds is a function of the
/// immutable source bytes and the start position alone, so scanning the
/// same source twice from the same start finds the same thing.
pub proof fn lemma_scan_idempotent(
    d: Seq<u8>,
    pos: int,
    h1: Option<ScanHit>,
    h2: Option<ScanHit>,
)
    requires
        h1 == spec_scan_step(d, pos),
        h2 == spec_scan_step(d, pos),
    ensures
        h1 == h2,
{
}

/// Scan idempotence at the region level: any two regions that one scan
/// step (over the same immutable source, from the same start) accounts
/// for span the same bytes of the blob.
pub proof fn lemma_scan_region_deterministic(
    d: Seq<u8>,
    pos: int,
    h: ScanHit,
    r1: Region,
    r2: Region,
)
    requires
        spec_scan_step(d, pos) == Some(h),
        region_matches_hit(d, h, r1),
        region_matches_hit(d, h, r2),
    ensures
        r1.spec_offset_in_firmware() == r2.spec_offset_in_firmware(),
        r1.spec_region_size() == r2.spec_region_size(),
{
    reveal(region_matches_hit);
    match (r1, r2) {
        (Region::LegacyPciExpansionRom(v1), Region::LegacyPciExpansionRom(v2)) => {
            assert(v1.data_header.image_length == v2.data_header.image_length);
        },
        (Region::EfiPciExpansionRom(v1), Region::EfiPciExpansionRom(v2)) => {
            assert(v1.data_header.image_length == v2.data_header.image_length);
        },
        (Region::NvidiaPciExpansionRom(v1), Region::NvidiaPciExpansionRom(v2)) => {
            assert(v1.data_header.image_length == v2.data_header.image_length);
        },
        (Region::NbsiPciExpansionRom(v1), Region::NbsiPciExpansionRom(v2)) => {
            assert(v1.data_header.image_length == v2.data_header.image_length);
        },
        (Region::NvgiRegion(v1), Region::NvgiRegion(v2)) => {
            assert(v1.data_size == v2.data_size);
        },
        (Region::RfrdRegion(v1), Region::RfrdRegion(v2)) => {},
        _ => {
            assert(false);
        },
    }
}

/// The non-restartable region scanner: walks the raw blob at the fixed
/// 512-byte probe stride, speculatively decoding each matching signature
/// and yielding the first success.  A failed candidate decode is
/// swallowed and the scan continues at the next stride.
pub struct RegionIterator<'a> {
    pub source: &'a Vec<u8>,
    pub position: u64,
}

impl<'a> RegionIterator<'a> {
    /// A scanner over `source`, starting at raw offset 0.
    pub fn new(source: &'a Vec<u8>) -> (r: Self)
        ensures
            r.source == source,
            r.position == 0,
    {
        RegionIterator { source, position: 0 }
    }

    /// Yields the next discovered region, or `None` when the rest of the
    /// blob holds none.  The result and the position the scan continues
    /// from are exactly what the scan model says for the current
    /// position.
    #[verifier::rlimit(100)]
    #[verifier::spinoff_prover]
    pub fn try_next(&mut self) -> (r: Result<Option<Region>, Error>)
        ensures
            final(self).source == old(self).source,
            ({
                let d = old(self).source@;
                let step = spec_scan_step(d, old(self).position as int);
                match r {
                    Ok(Some(region)) => step matches Some(h) && region_matches_hit(d, h, region)
                        && final(self).position as int == h.end,
                    Ok(None) => step is None && final(self).position >= old(self).position,
                    Err(_) => false,
                }
            }),
    {
        let ghost d = self.source@;
        let ghost pos0 = self.position as int;
        proof {
            vstd::std_specs::vec::axiom_spec_len(self.source);
            reveal(spec_scan_step);
        }
        let mut pos = match crate::bytes::align_up(self.position, 512) {
            Some(p) => p,
            None => {
                return Ok(None);
            },
        };
        let src_len = self.source.len() as u64;
        while pos <= u64::MAX - 512 && pos + 512 <= src_len
            invariant
                d == self.source@,
                self.source == old(self).source,
                pos0 == old(self).position as int,
                pos >= old(self).position,
                src_len == d.len(),
                src_len <= usize::MAX,
                scan_from(d, pos as int) == spec_scan_step(d, pos0),
            decreases d.len() - pos,
        {
            let b0 = self.source[pos as usize];
            let b1 = self.source[(pos + 1) as usize];
            let b2 = self.source[(pos + 2) as usize];
            let b3 = self.source[(pos + 3) as usize];
            if b0 == 0x55 && b1 == 0xAA {
                match pci_efi::parse_efi_pci_expansion_rom(self.source, pos) {
                    Ok((rom, end)) => {
                        self.position = end;
                        proof {
                            reveal(probe_hit);
                            reveal(region_matches_hit);
                            assert(probe_hit(d, pos as int) is Some);
                            assert(scan_from(d, pos as int) == probe_hit(d, pos as int));
                        }
                        return Ok(Some(Region::EfiPciExpansionRom(rom)));
                    },
                    Err(_) => {},
                }
                match pci_legacy::parse_pci_expansion_rom(self.source, pos) {
                    Ok((rom, end)) => {
                        self.position = end;
                        proof {
                            reveal(probe_hit);
                            reveal(region_matches_hit);
                            assert(probe_hit(d, pos as int) is Some);
                            assert(scan_from(d, pos as int) == probe_hit(d, pos as int));
                        }
                        return Ok(Some(Region::LegacyPciExpansionRom(rom)));
                    },
                    Err(_) => {},
                }
            } else if b0 == 0x56 && b1 == 0x4E {
                match nvidia::nbsi::parse_nbsi_pci_expansion_rom(self.source, pos) {
                    Ok((rom, end)) => {
                        self.position = end;
                        proof {
                            reveal(probe_hit);
                            reveal(region_matches_hit);
                            assert(probe_hit(d, pos as int) is Some);
                            assert(scan_from(d, pos as int) == probe_hit(d, pos as int));
                        }
                        return Ok(Some(Region::NbsiPciExpansionRom(rom)));
                    },
                    Err(_) => {},
                }
                match nvidia::parse_nvidia_pci_expansion_rom(self.source, pos) {
                    Ok((rom, end)) => {
                        self.position = end;
                        proof {
                            reveal(probe_hit);
                            reveal(region_matches_hit);
                            assert(probe_hit(d, pos as int) is Some);
                            assert(scan_from(d, pos as int) == probe_hit(d, pos as int));
                        }
                        return Ok(Some(Region::NvidiaPciExpansionRom(rom)));
                    },
                    Err(_) => {},
                }
            } else if b0 == 0x4E && b1 == 0x56 && b2 == 0x47 && b3 == 0x49 {
                match nvidia::parse_nvgi_region(self.source, pos) {
                    Ok((region, end)) => {
                        self.position = end;
                        proof {
                            reveal(probe_hit);
                            reveal(region_matches_hit);
                            assert(probe_hit(d, pos as int) is Some);
                            assert(scan_from(d, pos as int) == probe_hit(d, pos as int));
                        }
                        return Ok(Some(Region::NvgiRegion(region)));
                    },
                    Err(_) => {},
                }
            } else if b0 == 0x52 && b1 == 0x46 && b2 == 0x52 && b3 == 0x44 {
                match nvidia::parse_rfrd_region(self.source, pos) {
                    Ok((region, end)) => {
                        self.position = end;
                        proof {
                            reveal(probe_hit);
                            reveal(region_matches_hit);
                            assert(probe_hit(d, pos as int) is Some);
                            assert(scan_from(d, pos as int) == probe_hit(d, pos as int));
                        }
                        return Ok(Some(Region::RfrdRegion(region)));
                    },
                    Err(_) => {},
                }
            }
            proof {
                reveal(probe_hit);
                assert(probe_hit(d, pos as int) is None);
                assert(scan_from(d, pos as int) == scan_from(d, pos as int + 512));
            }
            pos = pos + 512;
        }
        proof {
            reveal(struct_scan_from);
        }
        self.position = pos;
        Ok(None)
    }
}

/// What decoding a scan hit guarantees of its placement: the flavour's
/// own decode condition holds at the hit's offset, and the hit's size and
/// end are the flavour's.
#[verifier::opaque]
pub open spec fn hit_ok(d: Seq<u8>, h: ScanHit) -> bool {
    match h.kind {
        RegionKind::Legacy => pci_legacy::legacy_ok(d, h.offset) && h.size == 512 * bytes::le16(
            d,
            h.offset + bytes::le16(d, h.offset + 24) + 16,
        ) && h.end == pci_legacy::legacy_end(d, h.offset),
        RegionKind::Efi => pci_efi::efi_ok(d, h.offset) && h.size == 512 * bytes::le16(
            d,
            h.offset + bytes::le16(d, h.offset + 24) + 16,
        ) && h.end == pci_efi::efi_end(d, h.offset),
        RegionKind::Nvidia => nvidia::nvrom_ok(d, h.offset) && h.size == 512 * bytes::le16(
            d,
            h.offset + bytes::le16(d, h.offset + 24) + 16,
        ) && h.end == nvidia::nvrom_end(d, h.offset),
        RegionKind::Nbsi => nvidia::nbsi::nbsi_ok(d, h.offset) && h.size == 512 * bytes::le16(
            d,
            h.offset + bytes::le16(d, h.offset + 24) + 16,
        ) && h.end == nvidia::nbsi::nbsi_end(d, h.offset),
        RegionKind::Nvgi => nvidia::nvgi_ok(d, h.offset) && h.size == bytes::le32(d, h.offset + 8)
            && h.end == nvidia::nvgi_end(d, h.offset),
        RegionKind::Rfrd => nvidia::rfrd_ok(d, h.offset) && h.size == 16 && h.end
            == nvidia::rfrd_end(d, h.offset),
    }
}

proof fn lemma_scan_from_props(d: Seq<u8>, pos: int)
    requires
        0 <= pos,
    ensures
        scan_from(d, pos) matches Some(h) ==> hit_ok(d, h) && pos <= h.offset && h.offset + 512
            <= d.len(),
    decreases d.len() - pos,
{
    reveal(probe_hit);
    reveal(hit_ok);
    if pos + 512 > d.len() {
    } else {
        match probe_hit(d, pos) {
            Some(h) => {},
            None => {
                lemma_scan_from_props(d, pos + 512);
            },
        }
    }
}

/// What one scan step guarantees of its hit: the probe start never moves
/// backwards, the region decodes at the hit's offset, the region is
/// non-empty, its span stays representable, and the scan makes strict
/// forward progress.
pub proof fn lemma_scan_step_props(d: Seq<u8>, pos: int)
    requires
        0 <= pos,
        d.len() <= u64::MAX,
    ensures
        spec_scan_step(d, pos) matches Some(h) ==> hit_ok(d, h) && pos <= h.offset && h.offset
            + 512 <= d.len() && 1 <= h.size && h.offset + h.size <= u64::MAX && h.offset < h.end
            && h.end <= u64::MAX,
{
    reveal(hit_ok);
    reveal(spec_scan_step);
    let a = bytes::spec_align_up(pos, 512);
    if a <= u64::MAX {
        assert(pos <= a);
        lemma_scan_from_props(d, a);
        match spec_scan_step(d, pos) {
            Some(h) => {
                match h.kind {
                    RegionKind::Nbsi => {
                        let dirp = h.offset + bytes::le16(d, h.offset + 22);
                        let gc = d[dirp + 8] as int;
                        nvidia::nbsi::lemma_objects_end_ge(d, dirp + 10 + 2 * gc, gc);
                        lemma_objects_end_le_max(d, dirp + 10 + 2 * gc, gc);
                    },
                    _ => {},
                }
            },
            None => {},
        }
    }
}

proof fn lemma_objects_end_le_max(d: Seq<u8>, pos: int, n: int)
    requires
        nvidia::nbsi::objects_ok(d, pos, n),
        pos <= u64::MAX,
        d.len() <= u64::MAX,
    ensures
        nvidia::nbsi::objects_end(d, pos, n) <= u64::MAX,
    decreases n,
{
    if n > 0 {
        lemma_objects_end_le_max(d, pos + bytes::le32(d, pos + 10), n - 1);
    }
}

/// A structure discovered inside the stitched logical stream of a legacy
/// sub-image: a BIOS information table or a device control block.
#[derive(Debug, Clone)]
pub enum RegionStructure {
    BiosInformationTable(nvidia::bit::BITStructure),
    DeviceControlBlock(nvidia::dcb::DeviceControlBlock),
}

/// The flavour of a structure found by one structure scan step.
pub ghost enum StructKind {
    Bit,
    Dcb,
}

/// What one structure scan step finds.
pub ghost struct StructHit {
    pub kind: StructKind,
    pub offset: int,
    pub end: int,
}

/// What probing offset `t` of the logical stream yields: the BIOS
/// information table schema is tried first, then the device control
/// block.
#[verifier::opaque]
pub open spec fn struct_probe_hit(d: Seq<u8>, t: int) -> Option<StructHit> {
    if nvidia::bit::bit_ok(d, t) {
        Some(StructHit { kind: StructKind::Bit, offset: t, end: nvidia::bit::bit_end(d, t) })
    } else if nvidia::dcb::dcb_ok(d, t) {
        Some(StructHit { kind: StructKind::Dcb, offset: t, end: nvidia::dcb::dcb_end(d, t) })
    } else {
        None
    }
}

/// The first structure hit found probing at `t` and then every byte after
/// it; `None` once fewer than a probe window's 16 bytes remain.
#[verifier::opaque]
pub open spec fn struct_scan_from(d: Seq<u8>, t: int) -> Option<StructHit>
    decreases d.len() - t,
{
    if t < 0 || t + 16 > d.len() {
        None
    } else {
        match struct_probe_hit(d, t) {
            Some(h) => Some(h),
            None => struct_scan_from(d, t + 1),
        }
    }
}

/// The structure a structure hit decodes to.
#[verifier::opaque]
pub open spec fn structure_matches_hit(d: Seq<u8>, h: StructHit, s: RegionStructure) -> bool {
    match s {
        RegionStructure::BiosInformationTable(v) => h.kind == StructKind::Bit
            && nvidia::bit::bit_matches(d, h.offset, v),
        RegionStructure::DeviceControlBlock(v) => h.kind == StructKind::Dcb
            && nvidia::dcb::dcb_matches(d, h.offset, v),
    }
}

proof fn lemma_struct_scan_props(d: Seq<u8>, t: int)
    requires
        0 <= t,
        d.len() <= u64::MAX,
    ensures
        struct_scan_from(d, t) matches Some(h) ==> t <= h.offset && h.offset < h.end && h.end
            <= u64::MAX && h.offset + 16 <= d.len(),
    decreases d.len() - t,
{
    reveal(struct_probe_hit);
    reveal(struct_scan_from);
    if t + 16 > d.len() {
    } else {
        match struct_probe_hit(d, t) {
            Some(h) => {},
            None => {
                lemma_struct_scan_props(d, t + 1);
            },
        }
    }
}

/// The byte-grain structure scanner: walks the stitched logical stream of
/// a legacy sub-image one byte at a time, speculatively decoding the two
/// structure schemas at fixed offsets inside each probe window.
pub struct RegionStructureIterator<'a> {
    pub source: &'a Vec<u8>,
    pub position: u64,
}

impl<'a> RegionStructureIterator<'a> {
    /// A structure scanner over the stitched logical bytes, starting at
    /// logical position 0.
    pub fn new(source: &'a Vec<u8>) -> (r: Self)
        ensures
            r.source == source,
            r.position == 0,
    {
        RegionStructureIterator { source, position: 0 }
    }

    /// Restarts the scan at logical position `pos`.
    pub fn seek(&mut self, pos: u64)
        ensures
            final(self).source == old(self).source,
            final(self).position == pos,
    {
        self.position = pos;
    }

    /// Yields the next discovered structure, or `None` when the rest of
    /// the stream holds none.
    #[verifier::rlimit(100)]
    #[verifier::spinoff_prover]
    pub fn try_next(&mut self) -> (r: Result<Option<RegionStructure>, Error>)
        ensures
            final(self).source == old(self).source,
            ({
                let d = old(self).source@;
                let step = struct_scan_from(d, old(self).position as int);
                match r {
                    Ok(Some(s)) => step matches Some(h) && structure_matches_hit(d, h, s)
                        && final(self).position as int == h.end,
                    Ok(None) => step is None && final(self).position >= old(self).position,
                    Err(_) => false,
                }
            }),
    {
        let ghost d = self.source@;
        let ghost pos0 = self.position as int;
        proof {
            vstd::std_specs::vec::axiom_spec_len(self.source);
            reveal(struct_scan_from);
        }
        let mut pos = self.position;
        let src_len = self.source.len() as u64;
        while pos <= u64::MAX - 16 && pos + 16 <= src_len
            invariant
                d == self.source@,
                self.source == old(self).source,
                pos0 == old(self).position as int,
                pos >= old(self).position,
                src_len == d.len(),
                src_len <= usize::MAX,
                struct_scan_from(d, pos as int) == struct_scan_from(d, pos0),
            decreases d.len() - pos,
        {
            match nvidia::bit::parse_bit_structure(self.source, pos) {
                Ok((v, end)) => {
                    self.position = end;
                    proof {
                        reveal(struct_probe_hit);
                        reveal(struct_scan_from);
                        reveal(structure_matches_hit);
                        assert(struct_probe_hit(d, pos as int) is Some);
                        assert(struct_scan_from(d, pos as int) == struct_probe_hit(d, pos as int));
                    }
                    return Ok(Some(RegionStructure::BiosInformationTable(v)));
                },
                Err(_) => {},
            }
            match nvidia::dcb::parse_device_control_block(self.source, pos) {
                Ok((v, end)) => {
                    self.position = end;
                    proof {
                        reveal(struct_probe_hit);
                        reveal(struct_scan_from);
                        reveal(structure_matches_hit);
                        assert(struct_probe_hit(d, pos as int) is Some);
                        assert(struct_scan_from(d, pos as int) == struct_probe_hit(d, pos as int));
                    }
                    return Ok(Some(RegionStructure::DeviceControlBlock(v)));
                },
                Err(_) => {},
            }
            proof {
                reveal(struct_probe_hit);
                reveal(struct_scan_from);
                assert(struct_probe_hit(d, pos as int) is None);
                assert(struct_scan_from(d, pos as int) == struct_scan_from(d, pos as int + 1));
            }
            pos = pos + 1;
        }
        self.position = pos;
        Ok(None)
    }
}

} // verus!
