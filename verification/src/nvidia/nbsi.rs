//! The NBSI (notebook system information) expansion ROM sub-image: a "VN"
//! header whose payload is a directory of typed, length-prefixed objects.

use crate::bytes::{le16, le32, le64, read_bytes, read_u16, read_u32, read_u64, read_u8};
use crate::nvidia::{
    npde_matches, npde_ok, parse_npde, NvidiaPciDataExtended, NV_PCI_DATA_STRUCTURE_SIGNATURE,
};
use crate::bytes::spec_align_up;
use crate::pci_legacy::{
    data_header_matches, data_header_ok, parse_data_header, PciExpansionRomDataHeader,
};
use crate::Error;
use crate::FirmwareRegion;
use vstd::prelude::*;

verus! {

/// Signature of the NBSI directory: "ISBN".
pub const NBSI_SIGNATURE: [u8; 4] = [0x49, 0x53, 0x42, 0x4E];

/// The known object kinds of an NBSI directory.
#[derive(Debug, Clone, Copy, PartialEq, Eq, Structural)]
pub enum GlobalType {
    Reserved,
    Driver,
    VBios,
    Hdcp,
    InfoRom,
    Hdd,
    NonVolatile,
    PlatInfo,
    PlatInfoWar,
    ValKey,
    TegraInfo,
    TegraDcb,
    TegraPanel,
    TegraDsi,
    SysInfo,
    TegraTmds,
    OptimusPlat,
}

/// The object kind a 16-bit tag decodes to, if it is a known one.  The
/// nonzero tags are the little-endian readings of two-letter codes.
pub open spec fn spec_global_type(w: int) -> Option<GlobalType> {
    if w == 0x0000 {
        Some(GlobalType::Reserved)
    } else if w == 0x5244 {
        Some(GlobalType::Driver)
    } else if w == 0x4256 {
        Some(GlobalType::VBios)
    } else if w == 0x4B48 {
        Some(GlobalType::Hdcp)
    } else if w == 0x5249 {
        Some(GlobalType::InfoRom)
    } else if w == 0x4448 {
        Some(GlobalType::Hdd)
    } else if w == 0x564E {
        Some(GlobalType::NonVolatile)
    } else if w == 0x4950 {
        Some(GlobalType::PlatInfo)
    } else if w == 0x5049 {
        Some(GlobalType::PlatInfoWar)
    } else if w == 0x4B56 {
        Some(GlobalType::ValKey)
    } else if w == 0x4754 {
        Some(GlobalType::TegraInfo)
    } else if w == 0x4454 {
        Some(GlobalType::TegraDcb)
    } else if w == 0x5054 {
        Some(GlobalType::TegraPanel)
    } else if w == 0x5354 {
        Some(GlobalType::TegraDsi)
    } else if w == 0x4447 {
        Some(GlobalType::SysInfo)
    } else if w == 0x5454 {
        Some(GlobalType::TegraTmds)
    } else if w == 0x504F {
        Some(GlobalType::OptimusPlat)
    } else {
        None
    }
}

/// A raw 16-bit object type tag of the directory.
#[derive(Debug, Clone, Copy, PartialEq, Eq, Structural)]
pub struct NbsiGlobal(pub u16);

impl NbsiGlobal {
    /// The object kind this tag names, if it is a known one.
    pub fn global_type(&self) -> (r: Option<GlobalType>)
        ensures
            r == spec_global_type(self.0 as int),
    {
        match self.0 {
            0x0000 => Some(GlobalType::Reserved),
            0x5244 => Some(GlobalType::Driver),
            0x4256 => Some(GlobalType::VBios),
            0x4B48 => Some(GlobalType::Hdcp),
            0x5249 => Some(GlobalType::InfoRom),
            0x4448 => Some(GlobalType::Hdd),
            0x564E => Some(GlobalType::NonVolatile),
            0x4950 => Some(GlobalType::PlatInfo),
            0x5049 => Some(GlobalType::PlatInfoWar),
            0x4B56 => Some(GlobalType::ValKey),
            0x4754 => Some(GlobalType::TegraInfo),
            0x4454 => Some(GlobalType::TegraDcb),
            0x5054 => Some(GlobalType::TegraPanel),
            0x5354 => Some(GlobalType::TegraDsi),
            0x4447 => Some(GlobalType::SysInfo),
            0x5454 => Some(GlobalType::TegraTmds),
            0x504F => Some(GlobalType::OptimusPlat),
            _ => None,
        }
    }
}

/// The 16-byte header of one directory object.
#[derive(Debug, Clone)]
pub struct NbsiGenericObjectHeader {
    pub hash_signature: u64,
    pub global_type: u16,
    pub size: u32,
    pub min_version: u8,
    pub max_version: u8,
}

/// One directory object: its header plus the placement of its payload,
/// which spans `size - 16` bytes after the header.
#[derive(Debug, Clone)]
pub struct NbsiGenericObject {
    pub offset_in_region: u64,
    pub header: NbsiGenericObjectHeader,
    pub data_size: u64,
    pub data_offset_in_region: u64,
}

/// One object decodes at `pos`: its header is present, its declared size
/// covers at least the header, and the following object position stays
/// representable.
pub open spec fn object_head_ok(d: Seq<u8>, pos: int) -> bool {
    &&& 0 <= pos
    &&& pos + 16 <= d.len()
    &&& le32(d, pos + 10) >= 16
    &&& pos + le32(d, pos + 10) <= u64::MAX
}

/// The fields one object decoded at `pos` holds.
pub open spec fn object_matches(d: Seq<u8>, pos: int, v: NbsiGenericObject) -> bool {
    &&& v.offset_in_region == pos
    &&& v.header.hash_signature == le64(d, pos)
    &&& v.header.global_type == le16(d, pos + 8)
    &&& v.header.size == le32(d, pos + 10)
    &&& v.header.min_version == d[pos + 14]
    &&& v.header.max_version == d[pos + 15]
    &&& v.data_size == le32(d, pos + 10) - 16
    &&& v.data_offset_in_region == pos + 16
}

/// A chain of `n` objects decodes starting at `pos`, each beginning where
/// the previous one's declared size ends.
pub open spec fn objects_ok(d: Seq<u8>, pos: int, n: int) -> bool
    decreases n,
{
    if n <= 0 {
        true
    } else {
        &&& object_head_ok(d, pos)
        &&& objects_ok(d, pos + le32(d, pos + 10), n - 1)
    }
}

/// Where the chain of `n` objects starting at `pos` ends.
pub open spec fn objects_end(d: Seq<u8>, pos: int, n: int) -> int
    decreases n,
{
    if n <= 0 {
        pos
    } else {
        objects_end(d, pos + le32(d, pos + 10), n - 1)
    }
}

/// The decoded objects of a chain starting at `pos`.
pub open spec fn objects_match(d: Seq<u8>, pos: int, objs: Seq<NbsiGenericObject>) -> bool
    decreases objs.len(),
{
    if objs.len() == 0 {
        true
    } else {
        &&& object_matches(d, pos, objs[0])
        &&& objects_match(d, pos + le32(d, pos + 10), objs.drop_first())
    }
}

proof fn lemma_objects_ok_snoc(d: Seq<u8>, pos: int, n: int)
    requires
        0 <= n,
        objects_ok(d, pos, n),
        object_head_ok(d, objects_end(d, pos, n)),
    ensures
        objects_ok(d, pos, n + 1),
        objects_end(d, pos, n + 1) == objects_end(d, pos, n) + le32(
            d,
            objects_end(d, pos, n) + 10,
        ),
    decreases n,
{
    if n == 0 {
        assert(objects_end(d, pos, 0) == pos);
        assert(objects_ok(d, pos + le32(d, pos + 10), 0));
        assert(objects_end(d, pos, 1) == objects_end(d, pos + le32(d, pos + 10), 0));
    } else {
        lemma_objects_ok_snoc(d, pos + le32(d, pos + 10), n - 1);
        assert(objects_end(d, pos, n) == objects_end(d, pos + le32(d, pos + 10), n - 1));
        assert(objects_end(d, pos, n + 1) == objects_end(d, pos + le32(d, pos + 10), n));
    }
}

proof fn lemma_objects_ok_at(d: Seq<u8>, pos: int, n: int, i: int)
    requires
        objects_ok(d, pos, n),
        0 <= i < n,
    ensures
        object_head_ok(d, objects_end(d, pos, i)),
    decreases i,
{
    if i > 0 {
        lemma_objects_ok_at(d, pos + le32(d, pos + 10), n - 1, i - 1);
        assert(objects_end(d, pos, i) == objects_end(d, pos + le32(d, pos + 10), i - 1));
    }
}

proof fn lemma_objects_match_push(
    d: Seq<u8>,
    pos: int,
    objs: Seq<NbsiGenericObject>,
    o: NbsiGenericObject,
)
    requires
        objects_match(d, pos, objs),
        object_matches(d, objects_end(d, pos, objs.len() as int), o),
    ensures
        objects_match(d, pos, objs.push(o)),
    decreases objs.len(),
{
    assert(objs.push(o).len() == objs.len() + 1);
    if objs.len() == 0 {
        assert(objects_end(d, pos, objs.len() as int) == pos);
        assert(objs.push(o)[0] == o);
        assert(object_matches(d, pos, objs.push(o)[0]));
        let tail = objs.push(o).drop_first();
        assert(tail =~= Seq::<NbsiGenericObject>::empty());
        assert(objects_match(d, pos + le32(d, pos + 10), tail));
        assert(objects_match(d, pos, objs.push(o)) == (object_matches(d, pos, objs.push(o)[0])
            && objects_match(d, pos + le32(d, pos + 10), objs.push(o).drop_first())));
    } else {
        assert(objs.push(o)[0] == objs[0]);
        assert(objs.push(o).drop_first() =~= objs.drop_first().push(o));
        assert(objects_end(d, pos, objs.len() as int) == objects_end(
            d,
            pos + le32(d, pos + 10),
            objs.len() - 1,
        ));
        lemma_objects_match_push(d, pos + le32(d, pos + 10), objs.drop_first(), o);
        assert(objects_match(d, pos + le32(d, pos + 10), objs.push(o).drop_first()));
        assert(objects_match(d, pos, objs.push(o)) == (object_matches(d, pos, objs.push(o)[0])
            && objects_match(d, pos + le32(d, pos + 10), objs.push(o).drop_first())));
    }
}

/// An object chain never ends before it starts.
pub proof fn lemma_objects_end_ge(d: Seq<u8>, pos: int, n: int)
    requires
        objects_ok(d, pos, n),
    ensures
        objects_end(d, pos, n) >= pos,
    decreases n,
{
    if n > 0 {
        lemma_objects_end_ge(d, pos + le32(d, pos + 10), n - 1);
    }
}

/// The NBSI directory: its own signature, a list of type tags, and the
/// chain of objects they describe.
#[derive(Debug, Clone)]
pub struct NbsiDirectory {
    pub offset_in_region: u64,
    pub signature: Vec<u8>,
    pub size: u32,
    pub globals_count: u8,
    pub driver: u8,
    pub objects_global_types: Vec<NbsiGlobal>,
    pub objects_offset_in_region: u64,
    pub objects: Vec<NbsiGenericObject>,
}

/// A directory decodes at `p`: the "ISBN" signature, its tag list, and a
/// chain of as many objects.
pub open spec fn directory_ok(d: Seq<u8>, p: int) -> bool {
    let gc = d[p + 8] as int;
    &&& 0 <= p
    &&& p + 10 <= d.len()
    &&& d[p] == 0x49
    &&& d[p + 1] == 0x53
    &&& d[p + 2] == 0x42
    &&& d[p + 3] == 0x4E
    &&& p + 10 + 2 * gc <= d.len()
    &&& objects_ok(d, p + 10 + 2 * gc, gc)
}

/// Where a successful directory decode leaves the stream: one past the
/// last object's declared size.
pub open spec fn directory_end(d: Seq<u8>, p: int) -> int {
    let gc = d[p + 8] as int;
    objects_end(d, p + 10 + 2 * gc, gc)
}

/// The fields a directory decoded at `p` holds.
pub open spec fn directory_matches(d: Seq<u8>, p: int, v: NbsiDirectory) -> bool {
    let gc = d[p + 8] as int;
    &&& v.offset_in_region == p
    &&& v.signature@ == d.subrange(p, p + 4)
    &&& v.size == le32(d, p + 4)
    &&& v.globals_count == d[p + 8]
    &&& v.driver == d[p + 9]
    &&& v.objects_global_types@.len() == gc
    &&& (forall|i: int|
        0 <= i < gc ==> (#[trigger] v.objects_global_types@[i]).0 == le16(d, p + 10 + 2 * i))
    &&& v.objects_offset_in_region == p + 10 + 2 * gc
    &&& v.objects@.len() == gc
    &&& objects_match(d, p + 10 + 2 * gc, v.objects@)
}

/// Decodes the NBSI directory at `p`, succeeding exactly on the inputs
/// `directory_ok` admits; on success the stream continues at
/// `directory_end`.
pub fn parse_nbsi_directory(source: &Vec<u8>, p: u64) -> (r: Result<(NbsiDirectory, u64), Error>)
    ensures
        match r {
            Ok((v, end)) => directory_ok(source@, p as int) && directory_matches(
                source@,
                p as int,
                v,
            ) && end == directory_end(source@, p as int),
            Err(_) => !directory_ok(source@, p as int),
        },
{
    let ghost d = source@;
    proof {
        vstd::std_specs::vec::axiom_spec_len(source);
    }
    let head = match read_bytes(source, p, 10) {
        Some(v) => v,
        None => {
            return Err(Error::InvalidFormat(String::from_str("NBSI directory truncated")));
        },
    };
    if !(head[0] == 0x49 && head[1] == 0x53 && head[2] == 0x42 && head[3] == 0x4E) {
        return Err(Error::InvalidFormat(String::from_str("NBSI signature mismatch")));
    }
    let size = read_u32(source, p + 4).unwrap();
    let globals_count = head[8];
    let driver = head[9];
    let gc = globals_count as usize;
    let mut objects_global_types: Vec<NbsiGlobal> = Vec::new();
    let mut i: usize = 0;
    while i < gc
        invariant
            d == source@,
            p + 10 <= d.len(),
            gc == d[p as int + 8],
            i <= gc,
            p + 10 + 2 * i <= d.len(),
            objects_global_types@.len() == i,
            forall|j: int|
                0 <= j < i ==> (#[trigger] objects_global_types@[j]).0 == le16(
                    d,
                    p + 10 + 2 * j,
                ),
        decreases gc - i,
    {
        proof {
            vstd::std_specs::vec::axiom_spec_len(source);
        }
        let tag = match read_u16(source, p + 10 + 2 * i as u64) {
            Some(v) => v,
            None => {
                proof {
                    assert(p + 10 + 2 * (d[p as int + 8] as int) > d.len());
                }
                return Err(Error::InvalidFormat(String::from_str("NBSI directory truncated")));
            },
        };
        objects_global_types.push(NbsiGlobal(tag));
        i = i + 1;
    }
    let objects_offset = p + 10 + 2 * globals_count as u64;
    let mut objects: Vec<NbsiGenericObject> = Vec::new();
    let mut pos: u64 = objects_offset;
    let mut k: usize = 0;
    while k < gc
        invariant
            d == source@,
            gc == d[p as int + 8],
            0 <= p,
            p + 10 + 2 * gc <= d.len(),
            objects_offset == p + 10 + 2 * gc,
            k <= gc,
            objects_ok(d, objects_offset as int, k as int),
            pos == objects_end(d, objects_offset as int, k as int),
            objects@.len() == k,
            objects_match(d, objects_offset as int, objects@),
        decreases gc - k,
    {
        proof {
            vstd::std_specs::vec::axiom_spec_len(source);
        }
        let ghost end_k = objects_end(d, objects_offset as int, k as int);
        let hash_signature = match read_u64(source, pos) {
            Some(v) => v,
            None => {
                proof {
                    if objects_ok(d, objects_offset as int, gc as int) {
                        lemma_objects_ok_at(d, objects_offset as int, gc as int, k as int);
                    }
                }
                return Err(Error::InvalidFormat(String::from_str("NBSI object truncated")));
            },
        };
        let global_type = match read_u16(source, pos + 8) {
            Some(v) => v,
            None => {
                proof {
                    if objects_ok(d, objects_offset as int, gc as int) {
                        lemma_objects_ok_at(d, objects_offset as int, gc as int, k as int);
                    }
                }
                return Err(Error::InvalidFormat(String::from_str("NBSI object truncated")));
            },
        };
        let osize = match read_u32(source, pos + 10) {
            Some(v) => v,
            None => {
                proof {
                    if objects_ok(d, objects_offset as int, gc as int) {
                        lemma_objects_ok_at(d, objects_offset as int, gc as int, k as int);
                    }
                }
                return Err(Error::InvalidFormat(String::from_str("NBSI object truncated")));
            },
        };
        let min_version = match read_u8(source, pos + 14) {
            Some(v) => v,
            None => {
                proof {
                    if objects_ok(d, objects_offset as int, gc as int) {
                        lemma_objects_ok_at(d, objects_offset as int, gc as int, k as int);
                    }
                }
                return Err(Error::InvalidFormat(String::from_str("NBSI object truncated")));
            },
        };
        let max_version = match read_u8(source, pos + 15) {
            Some(v) => v,
            None => {
                proof {
                    if objects_ok(d, objects_offset as int, gc as int) {
                        lemma_objects_ok_at(d, objects_offset as int, gc as int, k as int);
                    }
                }
                return Err(Error::InvalidFormat(String::from_str("NBSI object truncated")));
            },
        };
        if osize < 16 {
            proof {
                if objects_ok(d, objects_offset as int, gc as int) {
                    lemma_objects_ok_at(d, objects_offset as int, gc as int, k as int);
                }
            }
            return Err(Error::InvalidFormat(String::from_str("NBSI object size too small")));
        }
        let next = match pos.checked_add(osize as u64) {
            Some(v) => v,
            None => {
                proof {
                    if objects_ok(d, objects_offset as int, gc as int) {
                        lemma_objects_ok_at(d, objects_offset as int, gc as int, k as int);
                    }
                }
                return Err(Error::InvalidFormat(String::from_str("NBSI object out of range")));
            },
        };
        let o = NbsiGenericObject {
            offset_in_region: pos,
            header: NbsiGenericObjectHeader {
                hash_signature,
                global_type,
                size: osize,
                min_version,
                max_version,
            },
            data_size: osize as u64 - 16,
            data_offset_in_region: pos + 16,
        };
        proof {
            assert(object_head_ok(d, end_k));
            lemma_objects_ok_snoc(d, objects_offset as int, k as int);
            lemma_objects_match_push(d, objects_offset as int, objects@, o);
        }
        objects.push(o);
        pos = next;
        k = k + 1;
    }
    let dir = NbsiDirectory {
        offset_in_region: p,
        signature: read_bytes(source, p, 4).unwrap(),
        size,
        globals_count,
        driver,
        objects_global_types,
        objects_offset_in_region: objects_offset,
        objects,
    };
    Ok((dir, pos))
}

/// Header of an NBSI expansion ROM sub-image.
#[derive(Debug, Clone)]
pub struct NbsiPciExpansionRomHeader {
    pub signature: Vec<u8>,
    pub _reserved: Vec<u8>,
    pub nbsi_data_offset: u16,
    pub pcir_offset: u16,
    pub nbsi_block_size: u16,
}

/// An NBSI expansion ROM sub-image: "VN" header, an "NPDS" data
/// structure, the optional extended data structure, and the object
/// directory behind the header's data offset.
#[derive(Debug, Clone)]
pub struct NbsiPciExpansionRom {
    pub offset_in_firmware: u64,
    pub header: NbsiPciExpansionRomHeader,
    pub data_header: PciExpansionRomDataHeader,
    pub data_header_extended: Option<NvidiaPciDataExtended>,
    pub nbsi_directory: NbsiDirectory,
}

/// An NBSI expansion ROM decodes at `off`.
pub open spec fn nbsi_ok(d: Seq<u8>, off: int) -> bool {
    let p = off + le16(d, off + 24);
    let il = le16(d, p + 16);
    &&& 0 <= off
    &&& off + 28 <= d.len()
    &&& d[off] == 0x56
    &&& d[off + 1] == 0x4E
    &&& data_header_ok(d, p, 0x4E, 0x50, 0x44, 0x53)
    &&& directory_ok(d, off + le16(d, off + 22))
    &&& il >= 1
    &&& off + 512 * il <= u64::MAX
}

/// Where a successful NBSI decode leaves the stream: the end of the
/// directory's object chain.
pub open spec fn nbsi_end(d: Seq<u8>, off: int) -> int {
    directory_end(d, off + le16(d, off + 22))
}

/// The fields an NBSI expansion ROM decoded at `off` holds.
pub open spec fn nbsi_matches(d: Seq<u8>, off: int, v: NbsiPciExpansionRom) -> bool {
    let p = off + le16(d, off + 24);
    let a = spec_align_up(p + 28, 16);
    &&& v.offset_in_firmware == off
    &&& v.header.signature@ == d.subrange(off, off + 2)
    &&& v.header._reserved@ == d.subrange(off + 2, off + 22)
    &&& v.header.nbsi_data_offset == le16(d, off + 22)
    &&& v.header.pcir_offset == le16(d, off + 24)
    &&& v.header.nbsi_block_size == le16(d, off + 26)
    &&& data_header_matches(d, p, v.data_header)
    &&& (if npde_ok(d, a) {
        v.data_header_extended matches Some(e) && npde_matches(d, a, e)
    } else {
        v.data_header_extended is None
    })
    &&& directory_matches(d, off + le16(d, off + 22), v.nbsi_directory)
}

impl FirmwareRegion for NbsiPciExpansionRom {
    open spec fn spec_offset_in_firmware(&self) -> int {
        self.offset_in_firmware as int
    }

    open spec fn spec_region_size(&self) -> int {
        self.data_header.image_length * 512
    }

    fn offset_in_firmware(&self) -> u64 {
        self.offset_in_firmware
    }

    fn region_size(&self) -> u64 {
        self.data_header.image_length as u64 * 512
    }

    fn end_offset_in_firmware(&self) -> u64 {
        self.offset_in_firmware + self.data_header.image_length as u64 * 512
    }
}

/// Decodes an NBSI expansion ROM at `offset`, succeeding exactly on the
/// inputs `nbsi_ok` admits; on success the stream continues at
/// `nbsi_end`.
pub fn parse_nbsi_pci_expansion_rom(source: &Vec<u8>, offset: u64) -> (r: Result<
    (NbsiPciExpansionRom, u64),
    Error,
>)
    ensures
        match r {
            Ok((v, end)) => nbsi_ok(source@, offset as int) && nbsi_matches(
                source@,
                offset as int,
                v,
            ) && end == nbsi_end(source@, offset as int),
            Err(_) => !nbsi_ok(source@, offset as int),
        },
{
    proof {
        vstd::std_specs::vec::axiom_spec_len(source);
    }
    let head = match read_bytes(source, offset, 28) {
        Some(v) => v,
        None => {
            return Err(Error::InvalidFormat(String::from_str("NBSI image truncated")));
        },
    };
    if !(head[0] == 0x56 && head[1] == 0x4E) {
        return Err(Error::InvalidFormat(String::from_str("NBSI image signature mismatch")));
    }
    let nbsi_data_offset = read_u16(source, offset + 22).unwrap();
    let pcir_offset = read_u16(source, offset + 24).unwrap();
    let nbsi_block_size = read_u16(source, offset + 26).unwrap();
    let p = match offset.checked_add(pcir_offset as u64) {
        Some(p) => p,
        None => {
            return Err(Error::InvalidFormat(String::from_str("NBSI image out of range")));
        },
    };
    let data_header = match parse_data_header(source, p, NV_PCI_DATA_STRUCTURE_SIGNATURE) {
        Ok(v) => v,
        Err(e) => {
            return Err(e);
        },
    };
    let data_header_extended = match crate::bytes::align_up(p + 28, 16) {
        Some(a) => parse_npde(source, a),
        None => None,
    };
    let dir_pos = match offset.checked_add(nbsi_data_offset as u64) {
        Some(v) => v,
        None => {
            return Err(Error::InvalidFormat(String::from_str("NBSI image out of range")));
        },
    };
    let (nbsi_directory, dir_end) = match parse_nbsi_directory(source, dir_pos) {
        Ok(v) => v,
        Err(e) => {
            return Err(e);
        },
    };
    let il = data_header.image_length;
    if il == 0 {
        return Err(Error::InvalidFormat(String::from_str("NBSI image empty")));
    }
    if offset > (u64::MAX - 512 * il as u64) {
        return Err(Error::InvalidFormat(String::from_str("NBSI image out of range")));
    }
    let rom = NbsiPciExpansionRom {
        offset_in_firmware: offset,
        header: NbsiPciExpansionRomHeader {
            signature: read_bytes(source, offset, 2).unwrap(),
            _reserved: read_bytes(source, offset + 2, 20).unwrap(),
            nbsi_data_offset,
            pcir_offset,
            nbsi_block_size,
        },
        data_header,
        data_header_extended,
        nbsi_directory,
    };
    Ok((rom, dir_end))
}

} // verus!
