//! The NVLink configuration data chased from the initialisation token's
//! pointer: per-position entries, each carrying per-link parameter sets.

use crate::bytes::{le16, lemma_mul_mono, lemma_mul_nonneg, lemma_mul_step, read_bytes, read_u8};
use crate::Error;
use vstd::prelude::*;

verus! {

/// Raw per-link enable and mode bits.
#[derive(Debug, Clone, Copy, PartialEq, Eq, Structural)]
pub struct NvLinkVbiosParam0(pub u8);

/// The line rate byte of a link entry.
#[derive(Debug, Clone, Copy, PartialEq, Eq, Structural)]
pub enum NvLinkVbiosParam1 {
    LineRate5_000_000,
    LineRate1_600_000,
    LineRate2_000_000,
    LineRate2_500_000,
    LineRate2_578_125,
    LineRate3_200_000,
    LineRate4_000_000,
    LineRate5_312_500,
    Unknown0x08,
}

/// The line rate a byte decodes to, if it is a known one.
pub open spec fn spec_nvlink_param1(b: int) -> Option<NvLinkVbiosParam1> {
    if b == 0 {
        Some(NvLinkVbiosParam1::LineRate5_000_000)
    } else if b == 1 {
        Some(NvLinkVbiosParam1::LineRate1_600_000)
    } else if b == 2 {
        Some(NvLinkVbiosParam1::LineRate2_000_000)
    } else if b == 3 {
        Some(NvLinkVbiosParam1::LineRate2_500_000)
    } else if b == 4 {
        Some(NvLinkVbiosParam1::LineRate2_578_125)
    } else if b == 5 {
        Some(NvLinkVbiosParam1::LineRate3_200_000)
    } else if b == 6 {
        Some(NvLinkVbiosParam1::LineRate4_000_000)
    } else if b == 7 {
        Some(NvLinkVbiosParam1::LineRate5_312_500)
    } else if b == 8 {
        Some(NvLinkVbiosParam1::Unknown0x08)
    } else {
        None
    }
}

impl NvLinkVbiosParam1 {
    /// Decodes the line rate byte.
    pub fn from_u8(b: u8) -> (r: Option<NvLinkVbiosParam1>)
        ensures
            r == spec_nvlink_param1(b as int),
    {
        match b {
            0 => Some(NvLinkVbiosParam1::LineRate5_000_000),
            1 => Some(NvLinkVbiosParam1::LineRate1_600_000),
            2 => Some(NvLinkVbiosParam1::LineRate2_000_000),
            3 => Some(NvLinkVbiosParam1::LineRate2_500_000),
            4 => Some(NvLinkVbiosParam1::LineRate2_578_125),
            5 => Some(NvLinkVbiosParam1::LineRate3_200_000),
            6 => Some(NvLinkVbiosParam1::LineRate4_000_000),
            7 => Some(NvLinkVbiosParam1::LineRate5_312_500),
            8 => Some(NvLinkVbiosParam1::Unknown0x08),
            _ => None,
        }
    }
}

/// The code mode byte of a link entry.
#[derive(Debug, Clone, Copy, PartialEq, Eq, Structural)]
pub enum NvLinkVbiosParam2 {
    CodeModeNrz,
    CodeModeNrz128B130,
    CodeModeNrzPam4,
}

/// The code mode a byte decodes to, if it is a known one.
pub open spec fn spec_nvlink_param2(b: int) -> Option<NvLinkVbiosParam2> {
    if b == 0 {
        Some(NvLinkVbiosParam2::CodeModeNrz)
    } else if b == 1 {
        Some(NvLinkVbiosParam2::CodeModeNrz128B130)
    } else if b == 2 {
        Some(NvLinkVbiosParam2::CodeModeNrzPam4)
    } else {
        None
    }
}

impl NvLinkVbiosParam2 {
    /// Decodes the code mode byte.
    pub fn from_u8(b: u8) -> (r: Option<NvLinkVbiosParam2>)
        ensures
            r == spec_nvlink_param2(b as int),
    {
        match b {
            0 => Some(NvLinkVbiosParam2::CodeModeNrz),
            1 => Some(NvLinkVbiosParam2::CodeModeNrz128B130),
            2 => Some(NvLinkVbiosParam2::CodeModeNrzPam4),
            _ => None,
        }
    }
}

/// The reference clock mode carried in a link entry's clock parameter
/// word.
#[derive(Debug, Clone, Copy, PartialEq, Eq, Structural)]
pub enum ReferenceClockMode {
    Common,
    Rsvd,
    NonCommonNoSs,
    NonCommonSs,
}

/// The reference clock mode the low two bits of the word spell.
pub open spec fn spec_reference_clock_mode(b: int) -> ReferenceClockMode {
    if b % 4 == 0 {
        ReferenceClockMode::Common
    } else if b % 4 == 1 {
        ReferenceClockMode::Rsvd
    } else if b % 4 == 2 {
        ReferenceClockMode::NonCommonNoSs
    } else {
        ReferenceClockMode::NonCommonSs
    }
}

/// The block code carried in a link entry's clock parameter word.
#[derive(Debug, Clone, Copy, PartialEq, Eq, Structural)]
pub enum ClockModeBlockCode {
    Off,
    Ecc96,
    Ecc88,
}

/// The block code bits four and five of the word spell, if they are a
/// known one.
pub open spec fn spec_clock_mode_block_code(b: int) -> Option<ClockModeBlockCode> {
    if (b / 16) % 4 == 0 {
        Some(ClockModeBlockCode::Off)
    } else if (b / 16) % 4 == 1 {
        Some(ClockModeBlockCode::Ecc96)
    } else if (b / 16) % 4 == 2 {
        Some(ClockModeBlockCode::Ecc88)
    } else {
        None
    }
}

/// Raw reference clock and block code bits.
#[derive(Debug, Clone, Copy, PartialEq, Eq, Structural)]
pub struct NvLinkVbiosParam3(pub u8);

impl NvLinkVbiosParam3 {
    /// The reference clock mode in the word's low two bits.
    pub fn reference_clock_mode(&self) -> (r: ReferenceClockMode)
        ensures
            r == spec_reference_clock_mode(self.0 as int),
    {
        let b = self.0;
        proof {
            assert(b & 3 == b % 4) by (bit_vector);
        }
        match b & 3 {
            0 => ReferenceClockMode::Common,
            1 => ReferenceClockMode::Rsvd,
            2 => ReferenceClockMode::NonCommonNoSs,
            _ => ReferenceClockMode::NonCommonSs,
        }
    }

    /// The block code in the word's bits four and five, if it is a known
    /// one.
    pub fn clock_mode_block_mode(&self) -> (r: Option<ClockModeBlockCode>)
        ensures
            r == spec_clock_mode_block_code(self.0 as int),
    {
        let b = self.0;
        proof {
            assert((b >> 4u8) & 3 == (b / 16) % 4) by (bit_vector);
        }
        match (b >> 4) & 3 {
            0 => Some(ClockModeBlockCode::Off),
            1 => Some(ClockModeBlockCode::Ecc96),
            2 => Some(ClockModeBlockCode::Ecc88),
            _ => None,
        }
    }
}

/// Raw training optimisation algorithm bits.
#[derive(Debug, Clone, Copy, PartialEq, Eq, Structural)]
pub struct NvLinkVbiosParam4TxtrainOptimizatopnAlgorithm(pub u8);

/// Raw training adjustment and figure-of-merit bits.
#[derive(Debug, Clone, Copy, PartialEq, Eq, Structural)]
pub struct NvLinkVbiosParam5Txtrain(pub u8);

/// Raw minimum training time mantissa and exponent.
#[derive(Debug, Clone, Copy, PartialEq, Eq, Structural)]
pub struct NvLinkVbiosParam6TxtrainMinimumTrainTime(pub u8);

/// One per-link parameter set: seven parameter bytes and the rest of the
/// declared link entry size kept raw.
#[derive(Debug, Clone)]
pub struct NvLinkLinkEntry {
    pub param_0: NvLinkVbiosParam0,
    pub param_1: NvLinkVbiosParam1,
    pub param_2: NvLinkVbiosParam2,
    pub param_3: NvLinkVbiosParam3,
    pub param_4: NvLinkVbiosParam4TxtrainOptimizatopnAlgorithm,
    pub param_5: NvLinkVbiosParam5Txtrain,
    pub param_6: NvLinkVbiosParam6TxtrainMinimumTrainTime,
    pub extra_params: Vec<u8>,
}

/// One link entry at `q` decodes: its two coded bytes are known values.
pub open spec fn link_entry_ok(d: Seq<u8>, q: int) -> bool {
    &&& spec_nvlink_param1(d[q + 1] as int) is Some
    &&& spec_nvlink_param2(d[q + 2] as int) is Some
}

/// The fields one link entry found at `q` of declared size `les` holds.
pub open spec fn link_entry_matches(d: Seq<u8>, q: int, les: int, v: NvLinkLinkEntry) -> bool {
    &&& v.param_0.0 == d[q]
    &&& Some(v.param_1) == spec_nvlink_param1(d[q + 1] as int)
    &&& Some(v.param_2) == spec_nvlink_param2(d[q + 2] as int)
    &&& v.param_3.0 == d[q + 3]
    &&& v.param_4.0 == d[q + 4]
    &&& v.param_5.0 == d[q + 5]
    &&& v.param_6.0 == d[q + 6]
    &&& v.extra_params@ == d.subrange(q + 7, q + les)
}

/// One per-position entry: its position byte and its link entries.
#[derive(Debug, Clone)]
pub struct NvLinkEntry {
    pub position_id: u8,
    pub link_entries: Vec<NvLinkLinkEntry>,
}

/// The fields one per-position entry found at `q` holds.
pub open spec fn nvlink_entry_matches(
    d: Seq<u8>,
    q: int,
    les: int,
    lec: int,
    v: NvLinkEntry,
) -> bool {
    &&& v.position_id == d[q]
    &&& v.link_entries@.len() == lec
    &&& (forall|j: int|
        0 <= j < lec ==> link_entry_matches(d, q + 1 + j * les, les, #[trigger] v.link_entries@[j]))
}

/// Header of the NVLink configuration data.
#[derive(Debug, Clone, Copy, PartialEq, Eq, Structural)]
pub struct NvLinkConfigDataHeader {
    pub version: u8,
    pub header_size: u8,
    pub base_entry_size: u8,
    pub base_entry_count: u8,
    pub link_entry_size: u8,
    pub link_entry_count: u8,
    pub reserved: u16,
}

/// The NVLink configuration data.
#[derive(Debug, Clone)]
pub struct NvLinkConfigData {
    pub header: NvLinkConfigDataHeader,
    pub entries: Vec<NvLinkEntry>,
}

/// NVLink configuration data decodes at `p`: its fixed geometry bytes,
/// link entries of at least their seven parameter bytes, every declared
/// byte present and every coded byte known.
pub open spec fn nvlink_ok(d: Seq<u8>, p: int) -> bool {
    let bec = d[p + 3] as int;
    let les = d[p + 4] as int;
    let lec = d[p + 5] as int;
    let stride = 1 + lec * les;
    &&& 0 <= p
    &&& p + 8 <= d.len()
    &&& d[p + 1] == 8
    &&& d[p + 2] == 1
    &&& les >= 7
    &&& p + 8 + bec * stride <= d.len()
    &&& (forall|i: int, j: int|
        0 <= i < bec && 0 <= j < lec ==> link_entry_ok(
            d,
            #[trigger] entry_link_pos(p, stride, les, i, j),
        ))
}

/// Position of link entry `j` of per-position entry `i`.
pub open spec fn entry_link_pos(p: int, stride: int, les: int, i: int, j: int) -> int {
    p + 8 + i * stride + 1 + j * les
}

/// The fields NVLink configuration data decoded at `p` holds.
pub open spec fn nvlink_matches(d: Seq<u8>, p: int, v: NvLinkConfigData) -> bool {
    let bec = d[p + 3] as int;
    let les = d[p + 4] as int;
    let lec = d[p + 5] as int;
    let stride = 1 + lec * les;
    &&& v.header.version == d[p]
    &&& v.header.header_size == d[p + 1]
    &&& v.header.base_entry_size == d[p + 2]
    &&& v.header.base_entry_count == d[p + 3]
    &&& v.header.link_entry_size == d[p + 4]
    &&& v.header.link_entry_count == d[p + 5]
    &&& v.header.reserved == le16(d, p + 6)
    &&& v.entries@.len() == bec
    &&& (forall|i: int|
        0 <= i < bec ==> nvlink_entry_matches(
            d,
            p + 8 + i * stride,
            les,
            lec,
            #[trigger] v.entries@[i],
        ))
}

/// Decodes the NVLink configuration data at the initialisation token's
/// pointer, succeeding exactly on the inputs `nvlink_ok` admits.
pub fn parse_nvlink_config_data(source: &Vec<u8>, ptrs: &super::NvinitPtrsToken) -> (r: Result<
    NvLinkConfigData,
    Error,
>)
    ensures
        match r {
            Ok(v) => nvlink_ok(source@, ptrs.nvlink_configuration_data_ptr as int)
                && nvlink_matches(source@, ptrs.nvlink_configuration_data_ptr as int, v),
            Err(_) => !nvlink_ok(source@, ptrs.nvlink_configuration_data_ptr as int),
        },
{
    let ghost d = source@;
    proof {
        vstd::std_specs::vec::axiom_spec_len(source);
    }
    let p = ptrs.nvlink_configuration_data_ptr as u64;
    let head = match read_bytes(source, p, 8) {
        Some(v) => v,
        None => {
            return Err(Error::InvalidFormat(String::from_str("NVLink data truncated")));
        },
    };
    if head[1] != 8 || head[2] != 1 {
        return Err(Error::InvalidFormat(String::from_str("NVLink geometry unexpected")));
    }
    let bec = head[3];
    let les = head[4];
    let lec = head[5];
    if les < 7 {
        return Err(Error::InvalidFormat(String::from_str("NVLink link entry too small")));
    }
    proof {
        assert(lec as int * les as int <= 65025 && lec as int * les as int >= 0) by (
        nonlinear_arith)
            requires
                0 <= lec as int <= 255,
                0 <= les as int <= 255,
        ;
    }
    let stride: u64 = 1 + lec as u64 * les as u64;
    proof {
        assert(bec as int * stride as int <= 255 * 65026 && bec as int * stride as int >= 0) by (
        nonlinear_arith)
            requires
                0 <= bec as int <= 255,
                0 <= stride as int <= 65026,
        ;
    }
    let total: u64 = bec as u64 * stride;
    match read_bytes(source, p + 8, total as usize) {
        Some(_) => {},
        None => {
            return Err(Error::InvalidFormat(String::from_str("NVLink entries truncated")));
        },
    }
    let mut entries: Vec<NvLinkEntry> = Vec::new();
    let mut i: usize = 0;
    let n = bec as usize;
    let mut pos: u64 = p + 8;
    while i < n
        invariant
            d == source@,
            d.len() <= u64::MAX,
            p == ptrs.nvlink_configuration_data_ptr as u64,
            n == d[p as int + 3],
            les == d[p as int + 4],
            lec == d[p as int + 5],
            les >= 7,
            stride == 1 + lec as int * les as int,
            stride <= 65026,
            p + 8 + n * (stride as int) <= d.len(),
            i <= n,
            pos == p + 8 + i as int * stride as int,
            entries@.len() == i,
            forall|k: int|
                0 <= k < i ==> nvlink_entry_matches(
                    d,
                    p + 8 + k * (stride as int),
                    les as int,
                    lec as int,
                    #[trigger] entries@[k],
                ),
            forall|k: int, j: int|
                0 <= k < i && 0 <= j < lec ==> link_entry_ok(
                    d,
                    #[trigger] entry_link_pos(p as int, stride as int, les as int, k, j),
                ),
        decreases n - i,
    {
        proof {
            lemma_mul_nonneg(i as int, stride as int);
            lemma_mul_step(i as int, stride as int);
            lemma_mul_mono(i as int + 1, n as int, stride as int);
        }
        let position_id = read_u8(source, pos).unwrap();
        let mut link_entries: Vec<NvLinkLinkEntry> = Vec::new();
        let mut j: usize = 0;
        let m = lec as usize;
        while j < m
            invariant
                d == source@,
                d.len() <= u64::MAX,
                m == lec,
                les >= 7,
                stride == 1 + lec as int * les as int,
                pos + stride <= d.len(),
                p == ptrs.nvlink_configuration_data_ptr as u64,
                n == d[p as int + 3],
                les == d[p as int + 4],
                lec == d[p as int + 5],
                i < n,
                pos == p + 8 + i as int * stride as int,
                p + 8 <= d.len(),
                j <= m,
                link_entries@.len() == j,
                forall|k: int|
                    0 <= k < j ==> link_entry_matches(
                        d,
                        pos + 1 + k * (les as int),
                        les as int,
                        #[trigger] link_entries@[k],
                    ),
            decreases m - j,
        {
            proof {
                lemma_mul_nonneg(j as int, les as int);
                lemma_mul_step(j as int, les as int);
                lemma_mul_mono(j as int + 1, m as int, les as int);
            }
            let q = pos + 1 + j as u64 * les as u64;
            let param_1 = match NvLinkVbiosParam1::from_u8(read_u8(source, q + 1).unwrap()) {
                Some(v) => v,
                None => {
                    proof {
                        assert(q as int == entry_link_pos(
                            p as int,
                            stride as int,
                            les as int,
                            i as int,
                            j as int,
                        ));
                        if nvlink_ok(d, p as int) {
                            assert(link_entry_ok(
                                d,
                                entry_link_pos(
                                    p as int,
                                    stride as int,
                                    les as int,
                                    i as int,
                                    j as int,
                                ),
                            ));
                        }
                        assert(!nvlink_ok(d, p as int));
                        assert(d == source@);
                    }
                    return Err(Error::InvalidFormat(String::from_str("NVLink line rate unknown")));
                },
            };
            let param_2 = match NvLinkVbiosParam2::from_u8(read_u8(source, q + 2).unwrap()) {
                Some(v) => v,
                None => {
                    proof {
                        assert(q as int == entry_link_pos(
                            p as int,
                            stride as int,
                            les as int,
                            i as int,
                            j as int,
                        ));
                        if nvlink_ok(d, p as int) {
                            assert(link_entry_ok(
                                d,
                                entry_link_pos(
                                    p as int,
                                    stride as int,
                                    les as int,
                                    i as int,
                                    j as int,
                                ),
                            ));
                        }
                        assert(!nvlink_ok(d, p as int));
                        assert(d == source@);
                    }
                    return Err(Error::InvalidFormat(String::from_str("NVLink code mode unknown")));
                },
            };
            let e = NvLinkLinkEntry {
                param_0: NvLinkVbiosParam0(read_u8(source, q).unwrap()),
                param_1,
                param_2,
                param_3: NvLinkVbiosParam3(read_u8(source, q + 3).unwrap()),
                param_4: NvLinkVbiosParam4TxtrainOptimizatopnAlgorithm(
                    read_u8(source, q + 4).unwrap(),
                ),
                param_5: NvLinkVbiosParam5Txtrain(read_u8(source, q + 5).unwrap()),
                param_6: NvLinkVbiosParam6TxtrainMinimumTrainTime(
                    read_u8(source, q + 6).unwrap(),
                ),
                extra_params: read_bytes(source, q + 7, (les - 7) as usize).unwrap(),
            };
            proof {
                assert(q as int == entry_link_pos(
                    p as int,
                    stride as int,
                    les as int,
                    i as int,
                    j as int,
                ));
            }
            link_entries.push(e);
            j = j + 1;
        }
        entries.push(NvLinkEntry { position_id, link_entries });
        proof {
            assert forall|jj: int| 0 <= jj < lec implies link_entry_ok(
                d,
                #[trigger] entry_link_pos(p as int, stride as int, les as int, i as int, jj),
            ) by {
                assert(entry_link_pos(p as int, stride as int, les as int, i as int, jj) == pos + 1
                    + jj * (les as int));
                assert(link_entry_matches(
                    d,
                    pos + 1 + jj * (les as int),
                    les as int,
                    link_entries@[jj],
                ));
            }
        }
        pos = pos + stride;
        i = i + 1;
    }
    let header = NvLinkConfigDataHeader {
        version: head[0],
        header_size: head[1],
        base_entry_size: head[2],
        base_entry_count: bec,
        link_entry_size: les,
        link_entry_count: lec,
        reserved: crate::bytes::read_u16(source, p + 6).unwrap(),
    };
    Ok(NvLinkConfigData { header, entries })
}

} // verus!
