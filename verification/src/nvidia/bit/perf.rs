//! The performance tables chased from the performance token: memory
//! clock, memory tweak, power policy and virtual P-state tables.

use super::PerfPtrsToken;
use crate::bytes::{
    le16, le32, lemma_mul_mono, lemma_mul_nonneg, lemma_mul_step, lemma_mul_u8_bound, read_bytes,
    read_u16, read_u32, read_u8,
};
use crate::Error;
use vstd::prelude::*;

verus! {

/// Header of the memory clock table.
#[derive(Debug, Clone)]
pub struct MemoryClockTableHeader {
    pub version: u8,
    pub header_size: u8,
    pub base_entry_size: u8,
    pub strap_entry_size: u8,
    pub strap_entry_count: u8,
    pub entry_count: u8,
    pub unknown: Vec<u8>,
}

/// The fixed head of a memory clock base entry, with the rest of its
/// declared size kept raw.
#[derive(Debug, Clone)]
pub struct MemoryClockTableBaseEntry {
    pub min_freq: u16,
    pub max_freq: u16,
    pub reserved: Vec<u8>,
    pub unknown: Vec<u8>,
}

/// One strap entry of a memory clock entry.
#[derive(Debug, Clone)]
pub struct MemoryClockTableStrapEntry {
    pub mem_tweak_index: u8,
    pub flags_0: u8,
    pub reserved_0: Vec<u8>,
    pub flags_4: u8,
    pub reserved_1: u8,
    pub flags_5: u8,
    pub unknown: Vec<u8>,
}

/// One memory clock entry: a base entry and its strap entries.
#[derive(Debug, Clone)]
pub struct MemoryClockTableEntry {
    pub base_entry: MemoryClockTableBaseEntry,
    pub strap_entries: Vec<MemoryClockTableStrapEntry>,
}

/// The memory clock table.
#[derive(Debug, Clone)]
pub struct MemoryClockTable {
    pub header: MemoryClockTableHeader,
    pub entries: Vec<MemoryClockTableEntry>,
}

/// A memory clock table decodes at `p`: the fixed 26-byte header size, a
/// base entry of at least its fixed head, strap entries of at least
/// theirs, and every declared byte present.
pub open spec fn mct_ok(d: Seq<u8>, p: int) -> bool {
    let bes = d[p + 2] as int;
    let ses = d[p + 3] as int;
    let sec = d[p + 4] as int;
    let ec = d[p + 5] as int;
    &&& 0 <= p
    &&& p + 26 <= d.len()
    &&& d[p + 1] == 26
    &&& bes >= 8
    &&& ses >= 11
    &&& p + 26 + ec * (bes + sec * ses) <= d.len()
}

/// The fields one strap entry found at `q` of declared size `ses` holds.
pub open spec fn mct_strap_matches(
    d: Seq<u8>,
    q: int,
    ses: int,
    v: MemoryClockTableStrapEntry,
) -> bool {
    &&& v.mem_tweak_index == d[q]
    &&& v.flags_0 == d[q + 1]
    &&& v.reserved_0@ == d.subrange(q + 2, q + 8)
    &&& v.flags_4 == d[q + 8]
    &&& v.reserved_1 == d[q + 9]
    &&& v.flags_5 == d[q + 10]
    &&& v.unknown@ == d.subrange(q + 11, q + ses)
}

/// The fields one memory clock entry found at `q` holds.
pub open spec fn mct_entry_matches(
    d: Seq<u8>,
    q: int,
    bes: int,
    ses: int,
    sec: int,
    v: MemoryClockTableEntry,
) -> bool {
    &&& v.base_entry.min_freq == (le16(d, q) as u16 & 0x3F)
    &&& v.base_entry.max_freq == (le16(d, q + 2) as u16 & 0x3F)
    &&& v.base_entry.reserved@ == d.subrange(q + 4, q + 8)
    &&& v.base_entry.unknown@ == d.subrange(q + 8, q + bes)
    &&& v.strap_entries@.len() == sec
    &&& (forall|j: int|
        0 <= j < sec ==> mct_strap_matches(
            d,
            q + bes + j * ses,
            ses,
            #[trigger] v.strap_entries@[j],
        ))
}

/// The fields a memory clock table decoded at `p` holds.
pub open spec fn mct_matches(d: Seq<u8>, p: int, v: MemoryClockTable) -> bool {
    let bes = d[p + 2] as int;
    let ses = d[p + 3] as int;
    let sec = d[p + 4] as int;
    let ec = d[p + 5] as int;
    let stride = bes + sec * ses;
    &&& v.header.version == d[p]
    &&& v.header.header_size == d[p + 1]
    &&& v.header.base_entry_size == d[p + 2]
    &&& v.header.strap_entry_size == d[p + 3]
    &&& v.header.strap_entry_count == d[p + 4]
    &&& v.header.entry_count == d[p + 5]
    &&& v.header.unknown@ == d.subrange(p + 6, p + 26)
    &&& v.entries@.len() == ec
    &&& (forall|i: int|
        0 <= i < ec ==> mct_entry_matches(
            d,
            p + 26 + i * stride,
            bes,
            ses,
            sec,
            #[trigger] v.entries@[i],
        ))
}

/// Decodes the memory clock table at the performance token's pointer,
/// succeeding exactly on the inputs `mct_ok` admits.
pub fn parse_memory_clock_table(source: &Vec<u8>, ptrs: &PerfPtrsToken) -> (r: Result<
    MemoryClockTable,
    Error,
>)
    ensures
        match r {
            Ok(v) => mct_ok(source@, ptrs.memory_clock_table_ptr as int) && mct_matches(
                source@,
                ptrs.memory_clock_table_ptr as int,
                v,
            ),
            Err(_) => !mct_ok(source@, ptrs.memory_clock_table_ptr as int),
        },
{
    let ghost d = source@;
    proof {
        vstd::std_specs::vec::axiom_spec_len(source);
    }
    let p = ptrs.memory_clock_table_ptr as u64;
    let head = match read_bytes(source, p, 26) {
        Some(v) => v,
        None => {
            return Err(Error::InvalidFormat(String::from_str("memory clock table truncated")));
        },
    };
    if head[1] != 26 {
        return Err(Error::InvalidFormat(String::from_str("memory clock header size unexpected")));
    }
    let bes = head[2];
    let ses = head[3];
    let sec = head[4];
    let ec = head[5];
    if bes < 8 {
        return Err(Error::InvalidFormat(String::from_str("memory clock base entry too small")));
    }
    if ses < 11 {
        return Err(Error::InvalidFormat(String::from_str("memory clock strap entry too small")));
    }
    proof {
        lemma_mul_u8_bound(sec as int, ses as int);
    }
    let stride: u64 = bes as u64 + sec as u64 * ses as u64;
    proof {
        assert(ec as int * stride as int <= 255 * 65280) by (nonlinear_arith)
            requires
                0 <= ec as int <= 255,
                0 <= stride as int <= 65280,
        ;
        assert(ec as int * stride as int >= 0) by (nonlinear_arith)
            requires
                0 <= ec as int,
                0 <= stride as int,
        ;
    }
    let total: u64 = ec as u64 * stride;
    match read_bytes(source, p + 26, total as usize) {
        Some(_) => {},
        None => {
            return Err(Error::InvalidFormat(String::from_str("memory clock entries truncated")));
        },
    }
    let mut entries: Vec<MemoryClockTableEntry> = Vec::new();
    let mut i: usize = 0;
    let n = ec as usize;
    let mut pos: u64 = p + 26;
    while i < n
        invariant
            d == source@,
            d.len() <= u64::MAX,
            n == d[p as int + 5],
            bes == d[p as int + 2],
            ses == d[p as int + 3],
            sec == d[p as int + 4],
            bes >= 8,
            ses >= 11,
            stride == bes + sec as int * ses as int,
            stride <= 65280,
            p + 26 + n * (stride as int) <= d.len(),
            i <= n,
            pos == p + 26 + i as int * stride as int,
            entries@.len() == i,
            forall|k: int|
                0 <= k < i ==> mct_entry_matches(
                    d,
                    p + 26 + k * (stride as int),
                    bes as int,
                    ses as int,
                    sec as int,
                    #[trigger] entries@[k],
                ),
        decreases n - i,
    {
        proof {
            lemma_mul_nonneg(i as int, stride as int);
            lemma_mul_step(i as int, stride as int);
            lemma_mul_mono(i as int + 1, n as int, stride as int);
        }
        let min_freq = read_u16(source, pos).unwrap() & 0x3F;
        let max_freq = read_u16(source, pos + 2).unwrap() & 0x3F;
        let reserved = read_bytes(source, pos + 4, 4).unwrap();
        let base_unknown = read_bytes(source, pos + 8, (bes - 8) as usize).unwrap();
        let base_entry = MemoryClockTableBaseEntry {
            min_freq,
            max_freq,
            reserved,
            unknown: base_unknown,
        };
        let mut strap_entries: Vec<MemoryClockTableStrapEntry> = Vec::new();
        let mut j: usize = 0;
        let m = sec as usize;
        let sbase = pos + bes as u64;
        while j < m
            invariant
                d == source@,
                d.len() <= u64::MAX,
                m == sec,
                ses >= 11,
                sbase == pos + bes,
                pos + stride <= d.len(),
                stride == bes + sec as int * ses as int,
                j <= m,
                strap_entries@.len() == j,
                forall|k: int|
                    0 <= k < j ==> mct_strap_matches(
                        d,
                        sbase + k * (ses as int),
                        ses as int,
                        #[trigger] strap_entries@[k],
                    ),
            decreases m - j,
        {
            proof {
                lemma_mul_nonneg(j as int, ses as int);
                lemma_mul_step(j as int, ses as int);
                lemma_mul_mono(j as int + 1, m as int, ses as int);
            }
            proof {
                assert(sbase + j as int * ses as int + ses <= pos + stride);
            }
            let q = sbase + j as u64 * ses as u64;
            let e = MemoryClockTableStrapEntry {
                mem_tweak_index: read_u8(source, q).unwrap(),
                flags_0: read_u8(source, q + 1).unwrap(),
                reserved_0: read_bytes(source, q + 2, 6).unwrap(),
                flags_4: read_u8(source, q + 8).unwrap(),
                reserved_1: read_u8(source, q + 9).unwrap(),
                flags_5: read_u8(source, q + 10).unwrap(),
                unknown: read_bytes(source, q + 11, (ses - 11) as usize).unwrap(),
            };
            strap_entries.push(e);
            j = j + 1;
        }
        entries.push(MemoryClockTableEntry { base_entry, strap_entries });
        pos = pos + stride;
        i = i + 1;
    }
    let header = MemoryClockTableHeader {
        version: head[0],
        header_size: head[1],
        base_entry_size: bes,
        strap_entry_size: ses,
        strap_entry_count: sec,
        entry_count: ec,
        unknown: read_bytes(source, p + 6, 20).unwrap(),
    };
    Ok(MemoryClockTable { header, entries })
}

/// Header of the memory tweak table.
#[derive(Debug, Clone, Copy, PartialEq, Eq, Structural)]
pub struct MemoryTweakTableHeader {
    pub version: u8,
    pub header_size: u8,
    pub base_entry_size: u8,
    pub extended_entry_size: u8,
    pub extended_entry_count: u8,
    pub entry_count: u8,
}

/// The raw 76 bytes of a memory tweak base entry.
#[derive(Debug, Clone)]
pub struct MemoryTweakTableBaseEntry {
    pub raw: Vec<u8>,
}

/// One raw 12-byte extended entry of a memory tweak entry.
#[derive(Debug, Clone)]
pub struct MemoryTweakTableExtendedEntry {
    pub unknown: Vec<u8>,
}

/// One memory tweak entry: the base entry and its extended entries.
#[derive(Debug, Clone)]
pub struct MemoryTweakTableEntry {
    pub base_entry: MemoryTweakTableBaseEntry,
    pub extended_entries: Vec<MemoryTweakTableExtendedEntry>,
}

/// The memory tweak table.
#[derive(Debug, Clone)]
pub struct MemoryTweakTable {
    pub header: MemoryTweakTableHeader,
    pub entries: Vec<MemoryTweakTableEntry>,
}

/// A memory tweak table decodes at `p`: its fixed geometry bytes and
/// every declared entry present.
pub open spec fn mtt_ok(d: Seq<u8>, p: int) -> bool {
    let eec = d[p + 4] as int;
    let ec = d[p + 5] as int;
    &&& 0 <= p
    &&& p + 6 <= d.len()
    &&& d[p] == 0x20
    &&& d[p + 1] == 6
    &&& d[p + 2] == 76
    &&& d[p + 3] == 12
    &&& p + 6 + ec * (76 + eec * 12) <= d.len()
}

/// The fields one memory tweak entry found at `q` holds.
pub open spec fn mtt_entry_matches(d: Seq<u8>, q: int, eec: int, v: MemoryTweakTableEntry) -> bool {
    &&& v.base_entry.raw@ == d.subrange(q, q + 76)
    &&& v.extended_entries@.len() == eec
    &&& (forall|j: int|
        0 <= j < eec ==> (#[trigger] v.extended_entries@[j]).unknown@ == d.subrange(
            q + 76 + j * 12,
            q + 76 + j * 12 + 12,
        ))
}

/// The fields a memory tweak table decoded at `p` holds.
pub open spec fn mtt_matches(d: Seq<u8>, p: int, v: MemoryTweakTable) -> bool {
    let eec = d[p + 4] as int;
    let ec = d[p + 5] as int;
    let stride = 76 + eec * 12;
    &&& v.header.version == d[p]
    &&& v.header.header_size == d[p + 1]
    &&& v.header.base_entry_size == d[p + 2]
    &&& v.header.extended_entry_size == d[p + 3]
    &&& v.header.extended_entry_count == d[p + 4]
    &&& v.header.entry_count == d[p + 5]
    &&& v.entries@.len() == ec
    &&& (forall|i: int|
        0 <= i < ec ==> mtt_entry_matches(d, p + 6 + i * stride, eec, #[trigger] v.entries@[i]))
}

/// Decodes the memory tweak table at the performance token's pointer,
/// succeeding exactly on the inputs `mtt_ok` admits.
pub fn parse_memory_tweak_table(source: &Vec<u8>, ptrs: &PerfPtrsToken) -> (r: Result<
    MemoryTweakTable,
    Error,
>)
    ensures
        match r {
            Ok(v) => mtt_ok(source@, ptrs.memory_tweak_table_ptr as int) && mtt_matches(
                source@,
                ptrs.memory_tweak_table_ptr as int,
                v,
            ),
            Err(_) => !mtt_ok(source@, ptrs.memory_tweak_table_ptr as int),
        },
{
    let ghost d = source@;
    proof {
        vstd::std_specs::vec::axiom_spec_len(source);
    }
    let p = ptrs.memory_tweak_table_ptr as u64;
    let head = match read_bytes(source, p, 6) {
        Some(v) => v,
        None => {
            return Err(Error::InvalidFormat(String::from_str("memory tweak table truncated")));
        },
    };
    if head[0] != 0x20 || head[1] != 6 || head[2] != 76 || head[3] != 12 {
        return Err(Error::InvalidFormat(String::from_str("memory tweak geometry unexpected")));
    }
    let eec = head[4];
    let ec = head[5];
    let stride: u64 = 76 + eec as u64 * 12;
    proof {
        assert(ec as int * stride as int <= 255 * 3136) by (nonlinear_arith)
            requires
                0 <= ec as int <= 255,
                0 <= stride as int <= 3136,
        ;
        assert(ec as int * stride as int >= 0) by (nonlinear_arith)
            requires
                0 <= ec as int,
                0 <= stride as int,
        ;
    }
    let total: u64 = ec as u64 * stride;
    match read_bytes(source, p + 6, total as usize) {
        Some(_) => {},
        None => {
            return Err(Error::InvalidFormat(String::from_str("memory tweak entries truncated")));
        },
    }
    let mut entries: Vec<MemoryTweakTableEntry> = Vec::new();
    let mut i: usize = 0;
    let n = ec as usize;
    let mut pos: u64 = p + 6;
    while i < n
        invariant
            d == source@,
            d.len() <= u64::MAX,
            n == d[p as int + 5],
            eec == d[p as int + 4],
            stride == 76 + eec as int * 12,
            p + 6 + n * (stride as int) <= d.len(),
            i <= n,
            pos == p + 6 + i as int * stride as int,
            entries@.len() == i,
            forall|k: int|
                0 <= k < i ==> mtt_entry_matches(
                    d,
                    p + 6 + k * (stride as int),
                    eec as int,
                    #[trigger] entries@[k],
                ),
        decreases n - i,
    {
        proof {
            lemma_mul_nonneg(i as int, stride as int);
            lemma_mul_step(i as int, stride as int);
            lemma_mul_mono(i as int + 1, n as int, stride as int);
        }
        let raw = read_bytes(source, pos, 76).unwrap();
        let base_entry = MemoryTweakTableBaseEntry { raw };
        let mut extended_entries: Vec<MemoryTweakTableExtendedEntry> = Vec::new();
        let mut j: usize = 0;
        let m = eec as usize;
        while j < m
            invariant
                d == source@,
                d.len() <= u64::MAX,
                m == eec,
                stride == 76 + eec as int * 12,
                pos + stride <= d.len(),
                j <= m,
                extended_entries@.len() == j,
                forall|k: int|
                    0 <= k < j ==> (#[trigger] extended_entries@[k]).unknown@ == d.subrange(
                        pos + 76 + k * 12,
                        pos + 76 + k * 12 + 12,
                    ),
            decreases m - j,
        {
            let q = pos + 76 + 12 * j as u64;
            let e = MemoryTweakTableExtendedEntry { unknown: read_bytes(source, q, 12).unwrap() };
            extended_entries.push(e);
            j = j + 1;
        }
        entries.push(MemoryTweakTableEntry { base_entry, extended_entries });
        pos = pos + stride;
        i = i + 1;
    }
    let header = MemoryTweakTableHeader {
        version: head[0],
        header_size: head[1],
        base_entry_size: head[2],
        extended_entry_size: head[3],
        extended_entry_count: eec,
        entry_count: ec,
    };
    Ok(MemoryTweakTable { header, entries })
}

/// Header of the power policy table.
#[derive(Debug, Clone, Copy, PartialEq, Eq, Structural)]
pub struct PowerPolicyTableHeader {
    pub version: u8,
    pub header_size: u8,
    pub entry_size: u8,
    pub entry_count: u8,
}

/// One 67-byte power policy entry.
#[derive(Debug, Clone)]
pub struct PowerPolicyTableEntry {
    pub unk_0: u16,
    pub min: u32,
    pub avg: u32,
    pub peak: u32,
    pub unk_1: u32,
    pub unk_2: Vec<u8>,
}

/// The power policy table.
#[derive(Debug, Clone)]
pub struct PowerPolicyTable {
    pub header: PowerPolicyTableHeader,
    pub entries: Vec<PowerPolicyTableEntry>,
}

/// A power policy table decodes at `p`: version 0x30 and every 67-byte
/// entry present behind the declared header size.
pub open spec fn ppt_ok(d: Seq<u8>, p: int) -> bool {
    let hs = d[p + 1] as int;
    let ec = d[p + 3] as int;
    &&& 0 <= p
    &&& p + 4 <= d.len()
    &&& d[p] == 0x30
    &&& p + hs + ec * 67 <= d.len()
}

/// The fields one power policy entry found at `q` holds.
pub open spec fn ppt_entry_matches(d: Seq<u8>, q: int, v: PowerPolicyTableEntry) -> bool {
    &&& v.unk_0 == le16(d, q)
    &&& v.min == le32(d, q + 2)
    &&& v.avg == le32(d, q + 6)
    &&& v.peak == le32(d, q + 10)
    &&& v.unk_1 == le32(d, q + 14)
    &&& v.unk_2@ == d.subrange(q + 18, q + 67)
}

/// The fields a power policy table decoded at `p` holds.
pub open spec fn ppt_matches(d: Seq<u8>, p: int, v: PowerPolicyTable) -> bool {
    let hs = d[p + 1] as int;
    let ec = d[p + 3] as int;
    &&& v.header.version == d[p]
    &&& v.header.header_size == d[p + 1]
    &&& v.header.entry_size == d[p + 2]
    &&& v.header.entry_count == d[p + 3]
    &&& v.entries@.len() == ec
    &&& (forall|i: int|
        0 <= i < ec ==> ppt_entry_matches(d, p + hs + i * 67, #[trigger] v.entries@[i]))
}

/// Decodes the power policy table at the performance token's pointer,
/// succeeding exactly on the inputs `ppt_ok` admits.
pub fn parse_power_policy_table(source: &Vec<u8>, ptrs: &PerfPtrsToken) -> (r: Result<
    PowerPolicyTable,
    Error,
>)
    ensures
        match r {
            Ok(v) => ppt_ok(source@, ptrs.power_policy_table_ptr as int) && ppt_matches(
                source@,
                ptrs.power_policy_table_ptr as int,
                v,
            ),
            Err(_) => !ppt_ok(source@, ptrs.power_policy_table_ptr as int),
        },
{
    let ghost d = source@;
    proof {
        vstd::std_specs::vec::axiom_spec_len(source);
    }
    let p = ptrs.power_policy_table_ptr as u64;
    let head = match read_bytes(source, p, 4) {
        Some(v) => v,
        None => {
            return Err(Error::InvalidFormat(String::from_str("power policy table truncated")));
        },
    };
    if head[0] != 0x30 {
        return Err(Error::InvalidFormat(String::from_str("power policy version unexpected")));
    }
    let hs = head[1];
    let ec = head[3];
    match read_bytes(source, p + hs as u64, 67 * ec as usize) {
        Some(_) => {},
        None => {
            return Err(Error::InvalidFormat(String::from_str("power policy entries truncated")));
        },
    }
    let base = p + hs as u64;
    let mut entries: Vec<PowerPolicyTableEntry> = Vec::new();
    let mut i: usize = 0;
    let n = ec as usize;
    while i < n
        invariant
            d == source@,
            d.len() <= u64::MAX,
            n == d[p as int + 3],
            base == p + d[p as int + 1],
            base + n * 67 <= d.len(),
            i <= n,
            entries@.len() == i,
            forall|k: int|
                0 <= k < i ==> ppt_entry_matches(d, base + k * 67, #[trigger] entries@[k]),
        decreases n - i,
    {
        let q = base + 67 * i as u64;
        let e = PowerPolicyTableEntry {
            unk_0: read_u16(source, q).unwrap(),
            min: read_u32(source, q + 2).unwrap(),
            avg: read_u32(source, q + 6).unwrap(),
            peak: read_u32(source, q + 10).unwrap(),
            unk_1: read_u32(source, q + 14).unwrap(),
            unk_2: read_bytes(source, q + 18, 49).unwrap(),
        };
        entries.push(e);
        i = i + 1;
    }
    let header = PowerPolicyTableHeader {
        version: head[0],
        header_size: hs,
        entry_size: head[2],
        entry_count: ec,
    };
    Ok(PowerPolicyTable { header, entries })
}

/// Header of the virtual P-state table, with its trailing P-state index
/// bytes.
#[derive(Debug, Clone)]
pub struct VirtualPStateTableHeader20 {
    pub version: u8,
    pub header_size: u8,
    pub base_entry_size: u8,
    pub entry_count: u8,
    pub domain_freq_entry_size: u8,
    pub domain_freq_entry_count: u8,
    pub p_state_indexes: Vec<u8>,
}

/// One 4-byte domain frequency entry of a virtual P-state entry.
#[derive(Debug, Clone, Copy)]
pub struct VirtualPStateTableDomainEntry20 {
    pub flags_1: [bool; 2],
    pub frequency_1: u32,
    pub flags_2: [bool; 2],
    pub frequency_2: u32,
}

/// One virtual P-state entry: its P-state byte and its domain entries.
#[derive(Debug, Clone)]
pub struct VirtualPStateTableEntry20 {
    pub p_state: u8,
    pub domains_entries: Vec<VirtualPStateTableDomainEntry20>,
}

/// The virtual P-state table.
#[derive(Debug, Clone)]
pub struct VirtualPStateTable20 {
    pub header: VirtualPStateTableHeader20,
    pub entries: Vec<VirtualPStateTableEntry20>,
}

/// A virtual P-state table decodes at `p`: its fixed geometry bytes, a
/// header covering its index bytes, and every entry present.
pub open spec fn vps_ok(d: Seq<u8>, p: int) -> bool {
    let hs = d[p + 1] as int;
    let ec = d[p + 3] as int;
    let dfec = d[p + 5] as int;
    &&& 0 <= p
    &&& p + 6 <= d.len()
    &&& d[p] == 0x20
    &&& d[p + 2] == 1
    &&& d[p + 4] == 4
    &&& hs >= 6
    &&& p + hs + ec * (1 + dfec * 4) <= d.len()
}

/// The fields one domain entry found at `q` holds.
pub open spec fn vps_domain_matches(d: Seq<u8>, q: int, v: VirtualPStateTableDomainEntry20) -> bool {
    &&& v.flags_1@[0] == (d[q] & 0x8 > 0)
    &&& v.flags_1@[1] == (d[q] & 0x4 > 0)
    &&& v.frequency_1 == (le16(d, q) as u16 & 0x3FFF) as u32
    &&& v.flags_2@[0] == (d[q + 2] & 0x8 > 0)
    &&& v.flags_2@[1] == (d[q + 2] & 0x4 > 0)
    &&& v.frequency_2 == ((le16(d, q + 2) as u16) << 2) as u32
}

/// The fields one virtual P-state entry found at `q` holds.
pub open spec fn vps_entry_matches(
    d: Seq<u8>,
    q: int,
    dfec: int,
    v: VirtualPStateTableEntry20,
) -> bool {
    &&& v.p_state == d[q]
    &&& v.domains_entries@.len() == dfec
    &&& (forall|j: int|
        0 <= j < dfec ==> vps_domain_matches(d, q + 1 + j * 4, #[trigger] v.domains_entries@[j]))
}

/// The fields a virtual P-state table decoded at `p` holds.
pub open spec fn vps_matches(d: Seq<u8>, p: int, v: VirtualPStateTable20) -> bool {
    let hs = d[p + 1] as int;
    let ec = d[p + 3] as int;
    let dfec = d[p + 5] as int;
    let stride = 1 + dfec * 4;
    &&& v.header.version == d[p]
    &&& v.header.header_size == d[p + 1]
    &&& v.header.base_entry_size == d[p + 2]
    &&& v.header.entry_count == d[p + 3]
    &&& v.header.domain_freq_entry_size == d[p + 4]
    &&& v.header.domain_freq_entry_count == d[p + 5]
    &&& v.header.p_state_indexes@ == d.subrange(p + 6, p + hs)
    &&& v.entries@.len() == ec
    &&& (forall|i: int|
        0 <= i < ec ==> vps_entry_matches(d, p + hs + i * stride, dfec, #[trigger] v.entries@[i]))
}

/// Decodes the virtual P-state table at the performance token's pointer,
/// succeeding exactly on the inputs `vps_ok` admits.
pub fn parse_virtual_p_state_table(source: &Vec<u8>, ptrs: &PerfPtrsToken) -> (r: Result<
    VirtualPStateTable20,
    Error,
>)
    ensures
        match r {
            Ok(v) => vps_ok(source@, ptrs.virtual_p_state_table_ptr as int) && vps_matches(
                source@,
                ptrs.virtual_p_state_table_ptr as int,
                v,
            ),
            Err(_) => !vps_ok(source@, ptrs.virtual_p_state_table_ptr as int),
        },
{
    let ghost d = source@;
    proof {
        vstd::std_specs::vec::axiom_spec_len(source);
    }
    let p = ptrs.virtual_p_state_table_ptr as u64;
    let head = match read_bytes(source, p, 6) {
        Some(v) => v,
        None => {
            return Err(Error::InvalidFormat(String::from_str("P-state table truncated")));
        },
    };
    if head[0] != 0x20 || head[2] != 1 || head[4] != 4 {
        return Err(Error::InvalidFormat(String::from_str("P-state geometry unexpected")));
    }
    let hs = head[1];
    let ec = head[3];
    let dfec = head[5];
    if hs < 6 {
        return Err(Error::InvalidFormat(String::from_str("P-state header size too small")));
    }
    let p_state_indexes = match read_bytes(source, p + 6, (hs - 6) as usize) {
        Some(v) => v,
        None => {
            return Err(Error::InvalidFormat(String::from_str("P-state header truncated")));
        },
    };
    let stride: u64 = 1 + dfec as u64 * 4;
    proof {
        assert(ec as int * stride as int <= 255 * 1021) by (nonlinear_arith)
            requires
                0 <= ec as int <= 255,
                0 <= stride as int <= 1021,
        ;
        assert(ec as int * stride as int >= 0) by (nonlinear_arith)
            requires
                0 <= ec as int,
                0 <= stride as int,
        ;
    }
    let total: u64 = ec as u64 * stride;
    match read_bytes(source, p + hs as u64, total as usize) {
        Some(_) => {},
        None => {
            return Err(Error::InvalidFormat(String::from_str("P-state entries truncated")));
        },
    }
    let base = p + hs as u64;
    let mut entries: Vec<VirtualPStateTableEntry20> = Vec::new();
    let mut i: usize = 0;
    let n = ec as usize;
    let mut pos: u64 = base;
    while i < n
        invariant
            d == source@,
            d.len() <= u64::MAX,
            n == d[p as int + 3],
            dfec == d[p as int + 5],
            stride == 1 + dfec as int * 4,
            base == p + d[p as int + 1],
            base + n * (stride as int) <= d.len(),
            i <= n,
            pos == base + i as int * stride as int,
            entries@.len() == i,
            forall|k: int|
                0 <= k < i ==> vps_entry_matches(
                    d,
                    base + k * (stride as int),
                    dfec as int,
                    #[trigger] entries@[k],
                ),
        decreases n - i,
    {
        proof {
            lemma_mul_nonneg(i as int, stride as int);
            lemma_mul_step(i as int, stride as int);
            lemma_mul_mono(i as int + 1, n as int, stride as int);
        }
        let p_state = read_u8(source, pos).unwrap();
        let mut domains_entries: Vec<VirtualPStateTableDomainEntry20> = Vec::new();
        let mut j: usize = 0;
        let m = dfec as usize;
        while j < m
            invariant
                d == source@,
                d.len() <= u64::MAX,
                m == dfec,
                stride == 1 + dfec as int * 4,
                pos + stride <= d.len(),
                j <= m,
                domains_entries@.len() == j,
                forall|k: int|
                    0 <= k < j ==> vps_domain_matches(
                        d,
                        pos + 1 + k * 4,
                        #[trigger] domains_entries@[k],
                    ),
            decreases m - j,
        {
            let q = pos + 1 + 4 * j as u64;
            let b0 = read_u8(source, q).unwrap();
            let w0 = read_u16(source, q).unwrap();
            let b2 = read_u8(source, q + 2).unwrap();
            let w2 = read_u16(source, q + 2).unwrap();
            let e = VirtualPStateTableDomainEntry20 {
                flags_1: [b0 & 0x8 > 0, b0 & 0x4 > 0],
                frequency_1: (w0 & 0x3FFF) as u32,
                flags_2: [b2 & 0x8 > 0, b2 & 0x4 > 0],
                frequency_2: (w2 << 2) as u32,
            };
            proof {
                assert(e.flags_1@[0] == (d[q as int] & 0x8 > 0));
                assert(e.flags_1@[1] == (d[q as int] & 0x4 > 0));
                assert(e.flags_2@[0] == (d[q as int + 2] & 0x8 > 0));
                assert(e.flags_2@[1] == (d[q as int + 2] & 0x4 > 0));
            }
            domains_entries.push(e);
            j = j + 1;
        }
        entries.push(VirtualPStateTableEntry20 { p_state, domains_entries });
        pos = pos + stride;
        i = i + 1;
    }
    let header = VirtualPStateTableHeader20 {
        version: head[0],
        header_size: hs,
        base_entry_size: head[2],
        entry_count: ec,
        domain_freq_entry_size: head[4],
        domain_freq_entry_count: dfec,
        p_state_indexes,
    };
    Ok(VirtualPStateTable20 { header, entries })
}

} // verus!
