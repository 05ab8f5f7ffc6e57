//! The bundle assembler: runs the region scanner over the raw blob,
//! groups the discovered regions into firmware units, and for each unit
//! with a legacy sub-image stitches its logical stream, finds the
//! directory structures inside it and chases their pointer fields into
//! the nested tables.

use crate::bytes::{all_ascii, ascii_chars, push_hex_pair, spec_hex_pair, utf8_to_string};
use crate::cursor::{ContinuousRegionReader, RegionSpan, SeekFrom};
use crate::nvidia::bit::nvlink::{parse_nvlink_config_data, NvLinkConfigData};
use crate::nvidia::bit::perf::{
    mct_matches, mct_ok, mtt_matches, mtt_ok, parse_memory_clock_table, parse_memory_tweak_table,
    parse_power_policy_table, parse_virtual_p_state_table, ppt_matches, ppt_ok, vps_matches,
    vps_ok, MemoryClockTable, MemoryTweakTable, PowerPolicyTable, VirtualPStateTable20,
};
use crate::nvidia::bit::{
    parse_pll_info, parse_string_token, BITStructure, BITToken, BITTokenType, PerfPtrsToken,
    PllInfo, StringToken,
};
use crate::nvidia::dcb::{
    gpio_matches, gpio_ok, i2c_matches, i2c_ok, connector_matches, connector_ok,
    parse_connector_table, parse_gpio_assignment_table, parse_i2c_devices_table, ConnectorTable,
    DeviceControlBlock, DeviceControlBlockHeader, GpioAssignmentTable, I2cDevicesTable,
};
use crate::nvidia::nbsi::NbsiPciExpansionRom;
use crate::nvidia::{NvgiRegion, NvidiaPciExpansionRom, RfrdRegion};
use crate::pci_efi::EfiPciExpansionRom;
use crate::pci_legacy::PciExpansionRom;
use crate::Error;
use crate::Region;
use crate::RegionIterator;
use crate::RegionStructure;
use crate::RegionStructureIterator;
use vstd::prelude::*;

verus! {

/// Everything extracted from one firmware dump: the ordered firmware
/// units, and the bundle-level NBSI sub-image if one appeared.
#[derive(Debug)]
pub struct FirmwareBundleInfo {
    pub firmwares: Vec<FirmwareInfo>,
    pub nbsi_pci_expansion_rom: Option<NbsiPciExpansionRom>,
}

/// One firmware unit: its leading NVGI markers, its RFRD trailer marker,
/// and its legacy, EFI and vendor-continuation sub-images.
#[derive(Debug)]
pub struct FirmwareInfo {
    pub nvgi_regions: Vec<NvgiRegion>,
    pub rfrd_region: Option<RfrdRegion>,
    pub legacy_pci_image: Option<LegacyPciImageInfo>,
    pub efi_pci_image: Option<EfiPciExpansionRom>,
    pub nv_pci_expansion_roms: Vec<NvidiaPciExpansionRom>,
}

impl Default for FirmwareInfo {
    /// An empty, still-open firmware unit.
    fn default() -> (r: FirmwareInfo)
        ensures
            r.nvgi_regions@.len() == 0,
            r.rfrd_region is None,
            r.legacy_pci_image is None,
            r.efi_pci_image is None,
            r.nv_pci_expansion_roms@.len() == 0,
    {
        FirmwareInfo {
            nvgi_regions: Vec::new(),
            rfrd_region: None,
            legacy_pci_image: None,
            efi_pci_image: None,
            nv_pci_expansion_roms: Vec::new(),
        }
    }
}

/// A legacy sub-image with every table extracted from it.
#[derive(Debug)]
pub struct LegacyPciImageInfo {
    pub image: PciExpansionRom,
    pub bit_table_structure: Option<BITStructure>,
    pub bit_tokens_data: Vec<BITTokenType>,
    pub bit_string_token: Option<StringToken>,
    pub nvlink_config_data: Option<NvLinkConfigData>,
    pub memory_clock_table: Option<MemoryClockTable>,
    pub memory_tweak_table: Option<MemoryTweakTable>,
    pub pll_info: Option<PllInfo>,
    pub power_policy_table: Option<PowerPolicyTable>,
    pub virtual_p_state_table: Option<VirtualPStateTable20>,
    pub device_control_block: Option<DeviceControlBlock>,
    pub gpio_assignment_table: Option<GpioAssignmentTable>,
    pub i2c_devices_table: Option<I2cDevicesTable>,
    pub connector_table: Option<ConnectorTable>,
}

/// A legacy sub-image whose byte range, declared non-empty, stays
/// representable.
pub open spec fn legacy_image_bounded(v: PciExpansionRom) -> bool {
    &&& v.data_header.image_length >= 1
    &&& v.offset_in_firmware + 512 * v.data_header.image_length <= u64::MAX
}

/// A vendor sub-image whose byte range, declared non-empty, stays
/// representable.
pub open spec fn nvrom_bounded(v: NvidiaPciExpansionRom) -> bool {
    &&& v.data_header.image_length >= 1
    &&& v.offset_in_firmware + 512 * v.data_header.image_length <= u64::MAX
}

/// The shape every assembled firmware unit has: each sub-image it holds
/// spans a representable, non-empty byte range.
pub open spec fn firmware_wf(f: FirmwareInfo) -> bool {
    &&& (f.legacy_pci_image matches Some(info) ==> legacy_image_bounded(info.image))
    &&& (forall|i: int|
        0 <= i < f.nv_pci_expansion_roms@.len() ==> nvrom_bounded(
            #[trigger] f.nv_pci_expansion_roms@[i],
        ))
}

/// Follows the pointer fields of a decoded device control block header
/// into the GPIO, I2C and connector tables of the logical stream `m`.  A
/// zero pointer means the table is absent; a nonzero pointer whose target
/// does not decode leaves that table absent; no field's failure disturbs
/// the others.
pub fn chase_device_control_block(m: &Vec<u8>, header: &DeviceControlBlockHeader) -> (r: (
    Option<GpioAssignmentTable>,
    Option<I2cDevicesTable>,
    Option<ConnectorTable>,
))
    ensures
        header.gpio_assignment_table_pointer == 0 ==> r.0 is None,
        header.gpio_assignment_table_pointer > 0 ==> (match r.0 {
            Some(t) => gpio_ok(m@, header.gpio_assignment_table_pointer as int) && gpio_matches(
                m@,
                header.gpio_assignment_table_pointer as int,
                t,
            ),
            None => !gpio_ok(m@, header.gpio_assignment_table_pointer as int),
        }),
        header.i2c_devices_table_pointer == 0 ==> r.1 is None,
        header.i2c_devices_table_pointer > 0 ==> (match r.1 {
            Some(t) => i2c_ok(m@, header.i2c_devices_table_pointer as int) && i2c_matches(
                m@,
                header.i2c_devices_table_pointer as int,
                t,
            ),
            None => !i2c_ok(m@, header.i2c_devices_table_pointer as int),
        }),
        header.connector_table_pointer == 0 ==> r.2 is None,
        header.connector_table_pointer > 0 ==> (match r.2 {
            Some(t) => connector_ok(m@, header.connector_table_pointer as int)
                && connector_matches(m@, header.connector_table_pointer as int, t),
            None => !connector_ok(m@, header.connector_table_pointer as int),
        }),
{
    let gpio = if header.gpio_assignment_table_pointer > 0 {
        match parse_gpio_assignment_table(m, header.gpio_assignment_table_pointer as u64) {
            Ok(t) => Some(t),
            Err(_) => None,
        }
    } else {
        None
    };
    let i2c = if header.i2c_devices_table_pointer > 0 {
        match parse_i2c_devices_table(m, header.i2c_devices_table_pointer as u64) {
            Ok(t) => Some(t),
            Err(_) => None,
        }
    } else {
        None
    };
    let connector = if header.connector_table_pointer > 0 {
        match parse_connector_table(m, header.connector_table_pointer as u64) {
            Ok(t) => Some(t),
            Err(_) => None,
        }
    } else {
        None
    };
    (gpio, i2c, connector)
}

/// Follows the four chased pointer fields of a performance token into
/// the performance tables of the logical stream `m`, with the same
/// per-field tolerance as the device control block chase.
pub fn chase_perf_tables(m: &Vec<u8>, ptrs: &PerfPtrsToken) -> (r: (
    Option<MemoryClockTable>,
    Option<MemoryTweakTable>,
    Option<VirtualPStateTable20>,
    Option<PowerPolicyTable>,
))
    ensures
        ptrs.memory_clock_table_ptr == 0 ==> r.0 is None,
        ptrs.memory_clock_table_ptr > 0 ==> (match r.0 {
            Some(t) => mct_ok(m@, ptrs.memory_clock_table_ptr as int) && mct_matches(
                m@,
                ptrs.memory_clock_table_ptr as int,
                t,
            ),
            None => !mct_ok(m@, ptrs.memory_clock_table_ptr as int),
        }),
        ptrs.memory_tweak_table_ptr == 0 ==> r.1 is None,
        ptrs.memory_tweak_table_ptr > 0 ==> (match r.1 {
            Some(t) => mtt_ok(m@, ptrs.memory_tweak_table_ptr as int) && mtt_matches(
                m@,
                ptrs.memory_tweak_table_ptr as int,
                t,
            ),
            None => !mtt_ok(m@, ptrs.memory_tweak_table_ptr as int),
        }),
        ptrs.virtual_p_state_table_ptr == 0 ==> r.2 is None,
        ptrs.virtual_p_state_table_ptr > 0 ==> (match r.2 {
            Some(t) => vps_ok(m@, ptrs.virtual_p_state_table_ptr as int) && vps_matches(
                m@,
                ptrs.virtual_p_state_table_ptr as int,
                t,
            ),
            None => !vps_ok(m@, ptrs.virtual_p_state_table_ptr as int),
        }),
        ptrs.power_policy_table_ptr == 0 ==> r.3 is None,
        ptrs.power_policy_table_ptr > 0 ==> (match r.3 {
            Some(t) => ppt_ok(m@, ptrs.power_policy_table_ptr as int) && ppt_matches(
                m@,
                ptrs.power_policy_table_ptr as int,
                t,
            ),
            None => !ppt_ok(m@, ptrs.power_policy_table_ptr as int),
        }),
{
    let memory_clock_table = if ptrs.memory_clock_table_ptr > 0 {
        match parse_memory_clock_table(m, ptrs) {
            Ok(t) => Some(t),
            Err(_) => None,
        }
    } else {
        None
    };
    let memory_tweak_table = if ptrs.memory_tweak_table_ptr > 0 {
        match parse_memory_tweak_table(m, ptrs) {
            Ok(t) => Some(t),
            Err(_) => None,
        }
    } else {
        None
    };
    let virtual_p_state_table = if ptrs.virtual_p_state_table_ptr > 0 {
        match parse_virtual_p_state_table(m, ptrs) {
            Ok(t) => Some(t),
            Err(_) => None,
        }
    } else {
        None
    };
    let power_policy_table = if ptrs.power_policy_table_ptr > 0 {
        match parse_power_policy_table(m, ptrs) {
            Ok(t) => Some(t),
            Err(_) => None,
        }
    } else {
        None
    };
    (memory_clock_table, memory_tweak_table, virtual_p_state_table, power_policy_table)
}

/// The span of a legacy sub-image in the raw blob.
pub open spec fn legacy_span(image: PciExpansionRom) -> RegionSpan {
    RegionSpan {
        offset_in_firmware: image.offset_in_firmware,
        region_size: (image.data_header.image_length * 512) as u64,
    }
}

/// The span of a vendor-continuation sub-image in the raw blob.
pub open spec fn nvrom_span(r: NvidiaPciExpansionRom) -> RegionSpan {
    RegionSpan {
        offset_in_firmware: r.offset_in_firmware,
        region_size: (r.data_header.image_length * 512) as u64,
    }
}

/// The spans of one unit's stitched stream, in discovery order: the
/// legacy sub-image first, then the unit's vendor continuations.
pub open spec fn unit_spans(
    image: PciExpansionRom,
    nv_roms: Seq<NvidiaPciExpansionRom>,
) -> Seq<RegionSpan> {
    seq![legacy_span(image)] + nv_roms.map_values(|r: NvidiaPciExpansionRom| nvrom_span(r))
}

/// The structure hits the extraction processes: a chain of probes of the
/// stitched stream starting at the directory pointer, BIOS information
/// tables up to the first device control block.  Processing stops at that
/// first control block — one directory pass, then exactly one control
/// block — or when the stream holds no further structure.
#[verifier::opaque]
pub open spec fn processed_struct_hits(m: Seq<u8>, t0: int, hs: Seq<crate::StructHit>) -> bool {
    &&& (forall|i: int|
        0 <= i < hs.len() ==> Some(#[trigger] hs[i]) == crate::struct_scan_from(
            m,
            if i == 0 {
                t0
            } else {
                hs[i - 1].end
            },
        ))
    &&& (forall|i: int| 0 <= i < hs.len() - 1 ==> (#[trigger] hs[i]).kind is Bit)
    &&& ((hs.len() > 0 && hs.last().kind is Dcb) || ({
        &&& (forall|i: int| 0 <= i < hs.len() ==> (#[trigger] hs[i]).kind is Bit)
        &&& crate::struct_scan_from(
            m,
            if hs.len() == 0 {
                t0
            } else {
                hs.last().end
            },
        ) is None
    }))
}

/// The token entries of the BIOS information table at `t`.
pub open spec fn bit_token_seq(m: Seq<u8>, t: int) -> Seq<BITToken> {
    Seq::new(m[t + 10] as nat, |i: int| crate::nvidia::bit::spec_bit_token(m, t + 12 + 6 * i))
}

/// The fields no BIT token write touches.
pub open spec fn token_untouched(a: LegacyPciImageInfo, b: LegacyPciImageInfo) -> bool {
    &&& b.image == a.image
    &&& b.bit_table_structure == a.bit_table_structure
    &&& b.device_control_block == a.device_control_block
    &&& b.gpio_assignment_table == a.gpio_assignment_table
    &&& b.i2c_devices_table == a.i2c_devices_table
    &&& b.connector_table == a.connector_table
}

/// What processing one BIT token does to the unit's fields: a token whose
/// data does not decode changes nothing; a decoded token is appended to
/// the token list and, for the chased token kinds, rewrites exactly the
/// fields whose pointers lead to decodable tables, leaving a field as it
/// was when its pointer is zero or its target malformed.
#[verifier::opaque]
pub open spec fn token_step(
    m: Seq<u8>,
    tok: BITToken,
    a: LegacyPciImageInfo,
    b: LegacyPciImageInfo,
) -> bool {
    if !crate::nvidia::bit::token_data_ok(m, tok) {
        b == a
    } else {
        exists|t: BITTokenType|
            {
                &&& #[trigger] crate::nvidia::bit::token_data_matches(m, tok, t)
                &&& b.bit_tokens_data@ == a.bit_tokens_data@.push(t)
                &&& token_untouched(a, b)
                &&& match t {
                    BITTokenType::String(ptrs) => {
                        &&& (if crate::nvidia::bit::string_token_ok(m, ptrs) {
                            b.bit_string_token matches Some(st)
                                && crate::nvidia::bit::string_token_matches(m, ptrs, st)
                        } else {
                            b.bit_string_token == a.bit_string_token
                        })
                        &&& b.nvlink_config_data == a.nvlink_config_data
                        &&& b.pll_info == a.pll_info
                        &&& b.memory_clock_table == a.memory_clock_table
                        &&& b.memory_tweak_table == a.memory_tweak_table
                        &&& b.virtual_p_state_table == a.virtual_p_state_table
                        &&& b.power_policy_table == a.power_policy_table
                    },
                    BITTokenType::NvInit(ptrs) => {
                        &&& (if crate::nvidia::bit::nvlink::nvlink_ok(
                            m,
                            ptrs.nvlink_configuration_data_ptr as int,
                        ) {
                            b.nvlink_config_data matches Some(x)
                                && crate::nvidia::bit::nvlink::nvlink_matches(
                                m,
                                ptrs.nvlink_configuration_data_ptr as int,
                                x,
                            )
                        } else {
                            b.nvlink_config_data == a.nvlink_config_data
                        })
                        &&& b.bit_string_token == a.bit_string_token
                        &&& b.pll_info == a.pll_info
                        &&& b.memory_clock_table == a.memory_clock_table
                        &&& b.memory_tweak_table == a.memory_tweak_table
                        &&& b.virtual_p_state_table == a.virtual_p_state_table
                        &&& b.power_policy_table == a.power_policy_table
                    },
                    BITTokenType::Clock(ptrs) => {
                        &&& (if crate::nvidia::bit::pll_ok(m, ptrs.pll_info_table_ptr as int) {
                            b.pll_info matches Some(x) && crate::nvidia::bit::pll_matches(
                                m,
                                ptrs.pll_info_table_ptr as int,
                                x,
                            )
                        } else {
                            b.pll_info == a.pll_info
                        })
                        &&& b.bit_string_token == a.bit_string_token
                        &&& b.nvlink_config_data == a.nvlink_config_data
                        &&& b.memory_clock_table == a.memory_clock_table
                        &&& b.memory_tweak_table == a.memory_tweak_table
                        &&& b.virtual_p_state_table == a.virtual_p_state_table
                        &&& b.power_policy_table == a.power_policy_table
                    },
                    BITTokenType::Perf(ptrs) => {
                        &&& b.bit_string_token == a.bit_string_token
                        &&& b.nvlink_config_data == a.nvlink_config_data
                        &&& b.pll_info == a.pll_info
                        &&& (if ptrs.memory_clock_table_ptr > 0 && mct_ok(
                            m,
                            ptrs.memory_clock_table_ptr as int,
                        ) {
                            b.memory_clock_table matches Some(x) && mct_matches(
                                m,
                                ptrs.memory_clock_table_ptr as int,
                                x,
                            )
                        } else {
                            b.memory_clock_table == a.memory_clock_table
                        })
                        &&& (if ptrs.memory_tweak_table_ptr > 0 && mtt_ok(
                            m,
                            ptrs.memory_tweak_table_ptr as int,
                        ) {
                            b.memory_tweak_table matches Some(x) && mtt_matches(
                                m,
                                ptrs.memory_tweak_table_ptr as int,
                                x,
                            )
                        } else {
                            b.memory_tweak_table == a.memory_tweak_table
                        })
                        &&& (if ptrs.virtual_p_state_table_ptr > 0 && vps_ok(
                            m,
                            ptrs.virtual_p_state_table_ptr as int,
                        ) {
                            b.virtual_p_state_table matches Some(x) && vps_matches(
                                m,
                                ptrs.virtual_p_state_table_ptr as int,
                                x,
                            )
                        } else {
                            b.virtual_p_state_table == a.virtual_p_state_table
                        })
                        &&& (if ptrs.power_policy_table_ptr > 0 && ppt_ok(
                            m,
                            ptrs.power_policy_table_ptr as int,
                        ) {
                            b.power_policy_table matches Some(x) && ppt_matches(
                                m,
                                ptrs.power_policy_table_ptr as int,
                                x,
                            )
                        } else {
                            b.power_policy_table == a.power_policy_table
                        })
                    },
                    _ => {
                        &&& b.bit_string_token == a.bit_string_token
                        &&& b.nvlink_config_data == a.nvlink_config_data
                        &&& b.pll_info == a.pll_info
                        &&& b.memory_clock_table == a.memory_clock_table
                        &&& b.memory_tweak_table == a.memory_tweak_table
                        &&& b.virtual_p_state_table == a.virtual_p_state_table
                        &&& b.power_policy_table == a.power_policy_table
                    },
                }
            }
    }
}

/// The relation a run of token writes establishes, token by token.
#[verifier::opaque]
pub open spec fn tokens_step(
    m: Seq<u8>,
    toks: Seq<BITToken>,
    a: LegacyPciImageInfo,
    b: LegacyPciImageInfo,
) -> bool
    decreases toks.len(),
{
    if toks.len() == 0 {
        b == a
    } else {
        exists|mid: LegacyPciImageInfo|
            #[trigger] token_step(m, toks[0], a, mid) && tokens_step(m, toks.drop_first(), mid, b)
    }
}

/// What processing one discovered structure does to the unit's fields: a
/// BIOS information table runs its token writes and is stored; a device
/// control block is stored and its three table pointers are chased, each
/// field decoded iff its pointer is nonzero and its target decodes.
#[verifier::opaque]
pub open spec fn structure_step(
    m: Seq<u8>,
    h: crate::StructHit,
    a: LegacyPciImageInfo,
    b: LegacyPciImageInfo,
) -> bool {
    match h.kind {
        crate::StructKind::Bit => exists|mid: LegacyPciImageInfo|
            {
                &&& #[trigger] tokens_step(m, bit_token_seq(m, h.offset), a, mid)
                &&& (b.bit_table_structure matches Some(bv) && crate::nvidia::bit::bit_matches(
                    m,
                    h.offset,
                    bv,
                ))
                &&& b.image == mid.image
                &&& b.bit_tokens_data == mid.bit_tokens_data
                &&& b.bit_string_token == mid.bit_string_token
                &&& b.nvlink_config_data == mid.nvlink_config_data
                &&& b.pll_info == mid.pll_info
                &&& b.memory_clock_table == mid.memory_clock_table
                &&& b.memory_tweak_table == mid.memory_tweak_table
                &&& b.virtual_p_state_table == mid.virtual_p_state_table
                &&& b.power_policy_table == mid.power_policy_table
                &&& b.device_control_block == mid.device_control_block
                &&& b.gpio_assignment_table == mid.gpio_assignment_table
                &&& b.i2c_devices_table == mid.i2c_devices_table
                &&& b.connector_table == mid.connector_table
            },
        crate::StructKind::Dcb => {
            &&& (b.device_control_block matches Some(dv) && crate::nvidia::dcb::dcb_matches(
                m,
                h.offset,
                dv,
            ))
            &&& ({
                let p = crate::bytes::le16(m, h.offset + 10);
                if p > 0 && gpio_ok(m, p) {
                    b.gpio_assignment_table matches Some(t) && gpio_matches(m, p, t)
                } else {
                    b.gpio_assignment_table == a.gpio_assignment_table
                }
            })
            &&& ({
                let p = crate::bytes::le16(m, h.offset + 18);
                if p > 0 && i2c_ok(m, p) {
                    b.i2c_devices_table matches Some(t) && i2c_matches(m, p, t)
                } else {
                    b.i2c_devices_table == a.i2c_devices_table
                }
            })
            &&& ({
                let p = crate::bytes::le16(m, h.offset + 20);
                if p > 0 && connector_ok(m, p) {
                    b.connector_table matches Some(t) && connector_matches(m, p, t)
                } else {
                    b.connector_table == a.connector_table
                }
            })
            &&& b.image == a.image
            &&& b.bit_table_structure == a.bit_table_structure
            &&& b.bit_tokens_data == a.bit_tokens_data
            &&& b.bit_string_token == a.bit_string_token
            &&& b.nvlink_config_data == a.nvlink_config_data
            &&& b.pll_info == a.pll_info
            &&& b.memory_clock_table == a.memory_clock_table
            &&& b.memory_tweak_table == a.memory_tweak_table
            &&& b.virtual_p_state_table == a.virtual_p_state_table
            &&& b.power_policy_table == a.power_policy_table
        },
    }
}

/// The relation a run of structure hits establishes, hit by hit.
#[verifier::opaque]
pub open spec fn structures_step(
    m: Seq<u8>,
    hs: Seq<crate::StructHit>,
    a: LegacyPciImageInfo,
    b: LegacyPciImageInfo,
) -> bool
    decreases hs.len(),
{
    if hs.len() == 0 {
        b == a
    } else {
        exists|mid: LegacyPciImageInfo|
            #[trigger] structure_step(m, hs[0], a, mid) && structures_step(
                m,
                hs.drop_first(),
                mid,
                b,
            )
    }
}

/// Names one arrangement of stream, spans and hits witnessing an
/// extraction run, so the quantifier below has an instantiation handle.
pub open spec fn extraction_witness(
    rs: Seq<RegionSpan>,
    m: Seq<u8>,
    hs: Seq<crate::StructHit>,
) -> bool {
    true
}

/// The extraction relation of one unit: some ascending arrangement `rs`
/// of the unit's spans stitches (when well formed) the logical stream
/// `m`; the structure scan of `m` from the image's directory pointer
/// yields the processed hits `hs`; and the unit's fields are exactly what
/// processing those hits over `m` leaves.
#[verifier::opaque]
pub open spec fn extraction_matches(
    d: Seq<u8>,
    nv_roms: Seq<NvidiaPciExpansionRom>,
    a: LegacyPciImageInfo,
    b: LegacyPciImageInfo,
) -> bool {
    exists|rs: Seq<RegionSpan>, m: Seq<u8>, hs: Seq<crate::StructHit>|
        {
            &&& #[trigger] extraction_witness(rs, m, hs)
            &&& crate::cursor::spans_sorted(rs)
            &&& rs.to_multiset() == unit_spans(a.image, nv_roms).to_multiset()
            &&& (crate::cursor::reader_wf(rs, d.len() as int) ==> m == crate::cursor::logical_seq(
                d,
                rs,
            ))
            &&& processed_struct_hits(m, a.image.header.pcir_offset as int, hs)
            &&& structures_step(m, hs, a, b)
        }
}

proof fn lemma_tokens_step_extend(
    m: Seq<u8>,
    toks: Seq<BITToken>,
    tok: BITToken,
    a: LegacyPciImageInfo,
    b: LegacyPciImageInfo,
    c: LegacyPciImageInfo,
)
    requires
        tokens_step(m, toks, a, b),
        token_step(m, tok, b, c),
    ensures
        tokens_step(m, toks.push(tok), a, c),
    decreases toks.len(),
{
    reveal(tokens_step);
    let toks2 = toks.push(tok);
    if toks.len() == 0 {
        assert(toks2[0] == tok);
        assert(toks2.drop_first() =~= Seq::<BITToken>::empty());
        assert(token_step(m, toks2[0], a, c));
        assert(tokens_step(m, toks2.drop_first(), c, c));
    } else {
        let mid = choose|mid: LegacyPciImageInfo|
            #[trigger] token_step(m, toks[0], a, mid) && tokens_step(m, toks.drop_first(), mid, b);
        lemma_tokens_step_extend(m, toks.drop_first(), tok, mid, b, c);
        assert(toks2[0] == toks[0]);
        assert(toks2.drop_first() =~= toks.drop_first().push(tok));
        assert(token_step(m, toks2[0], a, mid));
        assert(tokens_step(m, toks2.drop_first(), mid, c));
    }
}

proof fn lemma_structures_step_extend(
    m: Seq<u8>,
    hs: Seq<crate::StructHit>,
    h: crate::StructHit,
    a: LegacyPciImageInfo,
    b: LegacyPciImageInfo,
    c: LegacyPciImageInfo,
)
    requires
        structures_step(m, hs, a, b),
        structure_step(m, h, b, c),
    ensures
        structures_step(m, hs.push(h), a, c),
    decreases hs.len(),
{
    reveal(structures_step);
    let hs2 = hs.push(h);
    if hs.len() == 0 {
        assert(hs2[0] == h);
        assert(hs2.drop_first() =~= Seq::<crate::StructHit>::empty());
        assert(structure_step(m, hs2[0], a, c));
        assert(structures_step(m, hs2.drop_first(), c, c));
    } else {
        let mid = choose|mid: LegacyPciImageInfo|
            #[trigger] structure_step(m, hs[0], a, mid) && structures_step(
                m,
                hs.drop_first(),
                mid,
                b,
            );
        lemma_structures_step_extend(m, hs.drop_first(), h, mid, b, c);
        assert(hs2[0] == hs[0]);
        assert(hs2.drop_first() =~= hs.drop_first().push(h));
        assert(structure_step(m, hs2[0], a, mid));
        assert(structures_step(m, hs2.drop_first(), mid, c));
    }
}

/// Processes one discovered BIOS information table: runs every token's
/// write over the stitched stream and stores the table itself.
#[verifier::rlimit(100)]
#[verifier::spinoff_prover]
fn apply_bit_structure(
    m: &Vec<u8>,
    bit: BITStructure,
    info: &mut LegacyPciImageInfo,
    Ghost(h): Ghost<crate::StructHit>,
)
    requires
        h.kind is Bit,
        crate::nvidia::bit::bit_matches(m@, h.offset, bit),
    ensures
        final(info).image == old(info).image,
        structure_step(m@, h, *old(info), *final(info)),
{
    let ghost mm = m@;
    let ghost prev_info = *info;
    let ghost toks = bit_token_seq(mm, h.offset);
    proof {
        reveal(tokens_step);
        assert(toks.len() == bit.tokens@.len());
        assert(forall|i: int| 0 <= i < toks.len() ==> toks[i] == bit.tokens@[i]);
        assert(toks.take(0) =~= Seq::<BITToken>::empty());
        assert(tokens_step(mm, toks.take(0), prev_info, *info));
    }
    let mut ti: usize = 0;
    let tlen = bit.tokens.len();
    while ti < tlen
        invariant
            mm == m@,
            prev_info == *old(info),
            tlen == bit.tokens@.len(),
            toks == bit_token_seq(mm, h.offset),
            toks.len() == tlen,
            forall|i: int| 0 <= i < tlen ==> toks[i] == bit.tokens@[i],
            ti <= tlen,
            info.image == prev_info.image,
            tokens_step(mm, toks.take(ti as int), prev_info, *info),
        decreases tlen - ti,
    {
        let ghost before = *info;
        let token = bit.tokens[ti];
        let token_data = token.data(m);
        let ghost td = token_data;
        match &token_data {
            Ok(BITTokenType::String(ptrs)) => {
                match parse_string_token(m, ptrs) {
                    Ok(string_token) => {
                        info.bit_string_token = Some(string_token);
                    },
                    Err(_) => {},
                }
            },
            Ok(BITTokenType::NvInit(ptrs)) => {
                match parse_nvlink_config_data(m, ptrs) {
                    Ok(nvlink) => {
                        info.nvlink_config_data = Some(nvlink);
                    },
                    Err(_) => {},
                }
            },
            Ok(BITTokenType::Clock(ptrs)) => {
                match parse_pll_info(m, ptrs) {
                    Ok(pll) => {
                        info.pll_info = Some(pll);
                    },
                    Err(_) => {},
                }
            },
            Ok(BITTokenType::Perf(ptrs)) => {
                let (mct, mtt, vps, ppt) = chase_perf_tables(m, ptrs);
                if mct.is_some() {
                    info.memory_clock_table = mct;
                }
                if mtt.is_some() {
                    info.memory_tweak_table = mtt;
                }
                if vps.is_some() {
                    info.virtual_p_state_table = vps;
                }
                if ppt.is_some() {
                    info.power_policy_table = ppt;
                }
            },
            Err(_) => {},
            _ => {},
        }
        match token_data {
            Ok(t) => {
                info.bit_tokens_data.push(t);
            },
            Err(_) => {},
        }
        proof {
            reveal(token_step);
            assert(toks[ti as int] == bit.tokens@[ti as int]);
            match td {
                Ok(t) => {
                    assert(crate::nvidia::bit::token_data_matches(mm, toks[ti as int], t));
                    assert(token_step(mm, toks[ti as int], before, *info));
                },
                Err(_) => {
                    assert(token_step(mm, toks[ti as int], before, *info));
                },
            }
            lemma_tokens_step_extend(
                mm,
                toks.take(ti as int),
                toks[ti as int],
                prev_info,
                before,
                *info,
            );
            assert(toks.take(ti as int).push(toks[ti as int]) =~= toks.take(ti as int + 1));
        }
        ti = ti + 1;
    }
    let ghost mid_info = *info;
    info.bit_table_structure = Some(bit);
    proof {
        reveal(structure_step);
        assert(toks.take(tlen as int) =~= toks);
        assert(tokens_step(mm, bit_token_seq(mm, h.offset), prev_info, mid_info));
        assert(structure_step(mm, h, prev_info, *info));
    }
}

/// Processes one discovered device control block: stores it and chases
/// its three table pointers, each field decoded iff its pointer is
/// nonzero and its target decodes.
#[verifier::rlimit(100)]
#[verifier::spinoff_prover]
fn apply_dcb_structure(
    m: &Vec<u8>,
    dcb: DeviceControlBlock,
    info: &mut LegacyPciImageInfo,
    Ghost(h): Ghost<crate::StructHit>,
)
    requires
        h.kind is Dcb,
        crate::nvidia::dcb::dcb_matches(m@, h.offset, dcb),
    ensures
        final(info).image == old(info).image,
        structure_step(m@, h, *old(info), *final(info)),
{
    let (gpio, i2c, connector) = chase_device_control_block(m, &dcb.header);
    if gpio.is_some() {
        info.gpio_assignment_table = gpio;
    }
    if i2c.is_some() {
        info.i2c_devices_table = i2c;
    }
    if connector.is_some() {
        info.connector_table = connector;
    }
    info.device_control_block = Some(dcb);
    proof {
        reveal(structure_step);
    }
}

/// A chain of structure hits probed from `t0`: each starts where the
/// previous decode ended.
#[verifier::opaque]
pub open spec fn struct_chain(m: Seq<u8>, t0: int, hs: Seq<crate::StructHit>) -> bool {
    forall|i: int|
        0 <= i < hs.len() ==> Some(#[trigger] hs[i]) == crate::struct_scan_from(
            m,
            if i == 0 {
                t0
            } else {
                hs[i - 1].end
            },
        )
}

/// Extending a processed-hit chain by the step found at its end keeps it
/// a chain.
#[verifier::rlimit(100)]
#[verifier::spinoff_prover]
proof fn lemma_extract_chain(mm: Seq<u8>, t0: int, hs_in: Seq<crate::StructHit>, h: crate::StructHit)
    requires
        struct_chain(mm, t0, hs_in),
        Some(h) == crate::struct_scan_from(
            mm,
            if hs_in.len() == 0 {
                t0
            } else {
                hs_in.last().end
            },
        ),
    ensures
        struct_chain(mm, t0, hs_in.push(h)),
        hs_in.push(h).last() == h,
        hs_in.push(h).len() == hs_in.len() + 1,
{
    reveal(struct_chain);
    let hs2 = hs_in.push(h);
    assert forall|i: int| 0 <= i < hs2.len() implies Some(#[trigger] hs2[i])
        == crate::struct_scan_from(
        mm,
        if i == 0 {
            t0
        } else {
            hs2[i - 1].end
        },
    ) by {
        if i < hs_in.len() {
            assert(hs2[i] == hs_in[i]);
        }
    }
}

/// A hit appended to a run of BIOS information table hits either keeps
/// the pass open (another table) or, as a device control block, completes
/// it.
#[verifier::rlimit(100)]
#[verifier::spinoff_prover]
proof fn lemma_extract_kinds(mm: Seq<u8>, t0: int, hs_in: Seq<crate::StructHit>, h: crate::StructHit)
    requires
        struct_chain(mm, t0, hs_in.push(h)),
        forall|i: int| 0 <= i < hs_in.len() ==> (#[trigger] hs_in[i]).kind is Bit,
    ensures
        h.kind is Dcb ==> processed_struct_hits(mm, t0, hs_in.push(h)),
        !(h.kind is Dcb) ==> (forall|i: int|
            0 <= i < hs_in.push(h).len() ==> (#[trigger] hs_in.push(h)[i]).kind is Bit),
{
    reveal(processed_struct_hits);
    reveal(struct_chain);
    let hs2 = hs_in.push(h);
    assert(hs2.last() == h);
    assert forall|i: int| 0 <= i < hs2.len() - 1 implies (#[trigger] hs2[i]).kind is Bit by {
        assert(hs2[i] == hs_in[i]);
    }
    if !(h.kind is Dcb) {
        assert forall|i: int| 0 <= i < hs2.len() implies (#[trigger] hs2[i]).kind is Bit by {
            if i < hs_in.len() {
                assert(hs2[i] == hs_in[i]);
            }
        }
    }
}

/// A chain of BIOS information table hits whose next probe finds nothing
/// is a completely processed pass.
#[verifier::rlimit(100)]
#[verifier::spinoff_prover]
proof fn lemma_extract_complete(mm: Seq<u8>, t0: int, hs: Seq<crate::StructHit>)
    requires
        struct_chain(mm, t0, hs),
        forall|i: int| 0 <= i < hs.len() ==> (#[trigger] hs[i]).kind is Bit,
        crate::struct_scan_from(
            mm,
            if hs.len() == 0 {
                t0
            } else {
                hs.last().end
            },
        ) is None,
    ensures
        processed_struct_hits(mm, t0, hs),
{
    reveal(struct_chain);
    reveal(processed_struct_hits);
}

/// Processes one discovered structure, dispatching on its flavour, and
/// reports whether it was the device control block that stops the pass.
#[verifier::rlimit(100)]
#[verifier::spinoff_prover]
fn process_structure(
    m: &Vec<u8>,
    s: RegionStructure,
    info: &mut LegacyPciImageInfo,
    Ghost(h): Ghost<crate::StructHit>,
) -> (done: bool)
    requires
        crate::structure_matches_hit(m@, h, s),
    ensures
        final(info).image == old(info).image,
        structure_step(m@, h, *old(info), *final(info)),
        done == (h.kind is Dcb),
{
    match s {
        RegionStructure::BiosInformationTable(bit) => {
            proof {
                assert(h.kind is Bit && crate::nvidia::bit::bit_matches(m@, h.offset, bit)) by {
                    reveal(crate::structure_matches_hit);
                }
            }
            apply_bit_structure(m, bit, info, Ghost(h));
            false
        },
        RegionStructure::DeviceControlBlock(dcb) => {
            proof {
                assert(h.kind is Dcb && crate::nvidia::dcb::dcb_matches(m@, h.offset, dcb)) by {
                    reveal(crate::structure_matches_hit);
                }
            }
            apply_dcb_structure(m, dcb, info, Ghost(h));
            true
        },
    }
}

/// Runs one step of the unit extraction: takes the structure scanner's
/// next find and processes it, extending the hit chain, or reports that
/// the processing is over (at the first device control block, or at the
/// end of the stream).
#[verifier::rlimit(100)]
#[verifier::spinoff_prover]
fn extract_one<'a>(
    structure_iterator: &mut RegionStructureIterator<'a>,
    info: &mut LegacyPciImageInfo,
    Ghost(t0): Ghost<int>,
    Ghost(hs_in): Ghost<Seq<crate::StructHit>>,
    Ghost(info0): Ghost<LegacyPciImageInfo>,
) -> (r: (bool, Ghost<Seq<crate::StructHit>>))
    requires
        struct_chain(old(structure_iterator).source@, t0, hs_in),
        forall|i: int| 0 <= i < hs_in.len() ==> (#[trigger] hs_in[i]).kind is Bit,
        old(structure_iterator).position as int == (if hs_in.len() == 0 {
            t0
        } else {
            hs_in.last().end
        }),
        structures_step(old(structure_iterator).source@, hs_in, info0, *old(info)),
        0 <= t0,
    ensures
        final(structure_iterator).source == old(structure_iterator).source,
        final(info).image == old(info).image,
        ({
            let m = old(structure_iterator).source@;
            let hs2 = r.1@;
            &&& struct_chain(m, t0, hs2)
            &&& structures_step(m, hs2, info0, *final(info))
            &&& (!r.0 ==> (forall|i: int| 0 <= i < hs2.len() ==> (#[trigger] hs2[i]).kind is Bit)
                && hs2.len() > 0 && final(structure_iterator).position as int == hs2.last().end
                && final(structure_iterator).position > old(structure_iterator).position)
            &&& (r.0 ==> processed_struct_hits(m, t0, hs2))
        }),
{
    let ghost mm = structure_iterator.source@;
    let ghost prev = structure_iterator.position;
    proof {
        vstd::std_specs::vec::axiom_spec_len(structure_iterator.source);
        crate::lemma_struct_scan_props(mm, prev as int);
    }
    match structure_iterator.try_next() {
        Ok(Some(s)) => {
            let ghost h = crate::struct_scan_from(mm, prev as int)->Some_0;
            let ghost prev_info = *info;
            let ghost hs2 = hs_in.push(h);
            proof {
                lemma_extract_chain(mm, t0, hs_in, h);
                lemma_extract_kinds(mm, t0, hs_in, h);
            }
            let done = process_structure(structure_iterator.source, s, info, Ghost(h));
            proof {
                lemma_structures_step_extend(mm, hs_in, h, info0, prev_info, *info);
            }
            (done, Ghost(hs2))
        },
        Ok(None) => {
            proof {
                lemma_extract_complete(mm, t0, hs_in);
            }
            (true, Ghost(hs_in))
        },
        Err(e) => {
            proof {
                assert(false);
            }
            (true, Ghost(hs_in))
        },
    }
}

/// Materialises one unit's stitched logical stream: sorts the spans,
/// seeks to logical position 0 and reads to the mapped end.  For a
/// well-formed (sorted, disjoint, in-bounds) arrangement the bytes are
/// exactly the logical stream; behaviour over other span sets is
/// undefined by design.
#[verifier::rlimit(100)]
#[verifier::spinoff_prover]
fn stitch_unit_stream(source: &Vec<u8>, spans: Vec<RegionSpan>) -> (r: (Vec<u8>, Ghost<
    Seq<RegionSpan>,
>))
    requires
        crate::cursor::spans_bounded(spans@),
    ensures
        crate::cursor::spans_sorted(r.1@),
        r.1@.to_multiset() == spans@.to_multiset(),
        crate::cursor::reader_wf(r.1@, source@.len() as int) ==> r.0@
            == crate::cursor::logical_seq(source@, r.1@),
{
    let ghost d = source@;
    let mut reader = ContinuousRegionReader::new(source, spans);
    let ghost rs = reader.regions@;
    let ghost len_i = d.len() as int;
    let m: Vec<u8> = match reader.seek(SeekFrom::Start(0)) {
        Ok(_) => {
            match reader.read_to_end() {
                Ok(v) => {
                    proof {
                        if crate::cursor::reader_wf(rs, len_i) {
                            crate::cursor::lemma_logical_stream_length(d, rs);
                            crate::cursor::lemma_raw_of_logical(rs, len_i, 0);
                            assert(v@ =~= crate::cursor::logical_seq(d, rs));
                        }
                    }
                    v
                },
                Err(_) => {
                    proof {
                        if crate::cursor::reader_wf(rs, len_i) {
                            crate::cursor::lemma_raw_of_logical(rs, len_i, 0);
                            assert(false);
                        }
                    }
                    Vec::new()
                },
            }
        },
        Err(_) => {
            proof {
                if crate::cursor::reader_wf(rs, len_i) {
                    crate::cursor::lemma_logical_stream_length(d, rs);
                    crate::cursor::lemma_raw_of_logical(rs, len_i, 0);
                    assert(false);
                }
            }
            Vec::new()
        },
    };
    (m, Ghost(rs))
}

/// Stitches the logical stream of a legacy sub-image and its
/// vendor-continuation sub-images, scans it for directory structures
/// starting at the image's directory pointer, and chases their pointer
/// fields, filling the unit's extracted-table set; processing stops at
/// the first device control block.  Per-field decode failures are
/// tolerated: each leaves its own field empty and the others continue.
#[verifier::rlimit(100)]
#[verifier::spinoff_prover]
fn parse_legacy_pci_image_info(
    source: &Vec<u8>,
    info: &mut LegacyPciImageInfo,
    nv_roms: &Vec<NvidiaPciExpansionRom>,
) -> (r: Result<(), Error>)
    requires
        legacy_image_bounded(old(info).image),
        forall|i: int|
            0 <= i < nv_roms@.len() ==> nvrom_bounded(#[trigger] nv_roms@[i]),
    ensures
        r is Ok,
        final(info).image == old(info).image,
        extraction_matches(source@, nv_roms@, *old(info), *final(info)),
{
    let ghost d = source@;
    let ghost info0 = *info;
    let mut spans: Vec<RegionSpan> = Vec::new();
    spans.push(
        RegionSpan {
            offset_in_firmware: info.image.offset_in_firmware,
            region_size: info.image.data_header.image_length as u64 * 512,
        },
    );
    proof {
        assert(spans@ =~= unit_spans(info0.image, nv_roms@.take(0)));
    }
    let mut k: usize = 0;
    let nlen = nv_roms.len();
    while k < nlen
        invariant
            info0 == *old(info),
            nlen == nv_roms@.len(),
            forall|i: int| 0 <= i < nv_roms@.len() ==> nvrom_bounded(#[trigger] nv_roms@[i]),
            k <= nlen,
            spans@ == unit_spans(info0.image, nv_roms@.take(k as int)),
            crate::cursor::spans_bounded(spans@),
        decreases nlen - k,
    {
        let nv = &nv_roms[k];
        let ghost old_spans = spans@;
        spans.push(
            RegionSpan {
                offset_in_firmware: nv.offset_in_firmware,
                region_size: nv.data_header.image_length as u64 * 512,
            },
        );
        proof {
            assert(nv_roms@.take(k as int + 1) =~= nv_roms@.take(k as int).push(
                nv_roms@[k as int],
            ));
            assert(spans@ =~= unit_spans(info0.image, nv_roms@.take(k as int + 1)));
            assert forall|i: int| 0 <= i < spans@.len() implies crate::cursor::span_end(
                #[trigger] spans@[i],
            ) <= u64::MAX by {
                if i < old_spans.len() {
                    assert(spans@[i] == old_spans[i]);
                } else {
                    assert(spans@[i] == spans@[spans@.len() - 1]);
                }
            }
        }
        k = k + 1;
    }
    proof {
        assert(nv_roms@.take(nlen as int) =~= nv_roms@);
    }
    let (m, sorted_spans) = stitch_unit_stream(source, spans);
    let ghost rs = sorted_spans@;
    let ghost mm = m@;
    proof {
        vstd::std_specs::vec::axiom_spec_len(&m);
    }
    let mut structure_iterator = RegionStructureIterator::new(&m);
    structure_iterator.seek(info.image.header.pcir_offset as u64);
    let ghost t0 = info0.image.header.pcir_offset as int;
    let ghost mut hs: Seq<crate::StructHit> = Seq::empty();
    proof {
        assert(structures_step(mm, hs, info0, *info)) by {
            reveal(structures_step);
        }
        assert(struct_chain(mm, t0, hs)) by {
            reveal(struct_chain);
        }
    }
    let mut stop = false;
    while !stop
        invariant
            structure_iterator.source == &m,
            mm == m@,
            mm.len() <= u64::MAX,
            info0 == *old(info),
            info.image == info0.image,
            t0 == info0.image.header.pcir_offset as int,
            struct_chain(mm, t0, hs),
            !stop ==> (forall|i: int| 0 <= i < hs.len() ==> (#[trigger] hs[i]).kind is Bit),
            !stop ==> structure_iterator.position as int == (if hs.len() == 0 {
                t0
            } else {
                hs.last().end
            }),
            stop ==> processed_struct_hits(mm, t0, hs),
            structures_step(mm, hs, info0, *info),
        decreases (if stop {
            0int
        } else {
            1int
        }), u64::MAX - structure_iterator.position,
    {
        let (done, next_hs) = extract_one(
            &mut structure_iterator,
            info,
            Ghost(t0),
            Ghost(hs),
            Ghost(info0),
        );
        proof {
            hs = next_hs@;
        }
        stop = done;
    }
    proof {
        assert(extraction_matches(d, nv_roms@, info0, *info)) by {
            reveal(extraction_matches);
            assert(extraction_witness(rs, mm, hs));
            assert(rs.to_multiset() == unit_spans(info0.image, nv_roms@).to_multiset());
        }
    }
    Ok(())
}

/// The shape of one firmware unit in the grouping model: the scan hit
/// each attached region came from, in attachment order.
pub ghost struct UnitModel {
    pub nvgi: Seq<crate::ScanHit>,
    pub rfrd: Option<crate::ScanHit>,
    pub legacy: Option<crate::ScanHit>,
    pub efi: Option<crate::ScanHit>,
    pub nv_roms: Seq<crate::ScanHit>,
}

/// A still-empty, just-opened unit.
pub open spec fn empty_unit_model() -> UnitModel {
    UnitModel { nvgi: Seq::empty(), rfrd: None, legacy: None, efi: None, nv_roms: Seq::empty() }
}

/// The assembler's grouping state: the sealed units in order, the
/// in-progress unit, and the bundle-level NBSI hit.
pub ghost struct AssemblyState {
    pub sealed: Seq<UnitModel>,
    pub current: UnitModel,
    pub nbsi: Option<crate::ScanHit>,
}

/// How one scan hit changes the grouping state: sub-images attach to the
/// in-progress unit, an NBSI hoists to bundle level (the last one
/// winning), a trailer marker closes the unit, and a leading marker
/// arriving after a close marker seals the unit and opens a new one.
pub open spec fn assemble_step(st: AssemblyState, h: crate::ScanHit) -> AssemblyState {
    match h.kind {
        crate::RegionKind::Legacy => AssemblyState {
            current: UnitModel { legacy: Some(h), ..st.current },
            ..st
        },
        crate::RegionKind::Efi => AssemblyState {
            current: UnitModel { efi: Some(h), ..st.current },
            ..st
        },
        crate::RegionKind::Nvidia => AssemblyState {
            current: UnitModel { nv_roms: st.current.nv_roms.push(h), ..st.current },
            ..st
        },
        crate::RegionKind::Nbsi => AssemblyState { nbsi: Some(h), ..st },
        crate::RegionKind::Nvgi => if st.current.rfrd is Some {
            AssemblyState {
                sealed: st.sealed.push(st.current),
                current: UnitModel { nvgi: seq![h], ..empty_unit_model() },
                nbsi: st.nbsi,
            }
        } else {
            AssemblyState {
                current: UnitModel { nvgi: st.current.nvgi.push(h), ..st.current },
                ..st
            }
        },
        crate::RegionKind::Rfrd => AssemblyState {
            current: UnitModel { rfrd: Some(h), ..st.current },
            ..st
        },
    }
}

/// The grouping of a whole hit chain, hit by hit from an empty state.
pub open spec fn assemble(hits: Seq<crate::ScanHit>) -> AssemblyState
    decreases hits.len(),
{
    if hits.len() == 0 {
        AssemblyState { sealed: Seq::empty(), current: empty_unit_model(), nbsi: None }
    } else {
        assemble_step(assemble(hits.drop_last()), hits.last())
    }
}

/// An assembled unit realises its model: it holds exactly the regions the
/// model's hits name, each decoded from the source at its hit's offset.
pub open spec fn unit_matches(d: Seq<u8>, um: UnitModel, f: FirmwareInfo) -> bool {
    &&& f.nvgi_regions@.len() == um.nvgi.len()
    &&& (forall|i: int|
        0 <= i < um.nvgi.len() ==> crate::nvidia::nvgi_matches(
            d,
            um.nvgi[i].offset,
            #[trigger] f.nvgi_regions@[i],
        ))
    &&& (match (um.rfrd, f.rfrd_region) {
        (Some(h), Some(r)) => crate::nvidia::rfrd_matches(d, h.offset, r),
        (None, None) => true,
        _ => false,
    })
    &&& (match (um.legacy, f.legacy_pci_image) {
        (Some(h), Some(info)) => crate::pci_legacy::legacy_matches(d, h.offset, info.image),
        (None, None) => true,
        _ => false,
    })
    &&& (match (um.efi, f.efi_pci_image) {
        (Some(h), Some(e)) => crate::pci_efi::efi_matches(d, h.offset, e),
        (None, None) => true,
        _ => false,
    })
    &&& f.nv_pci_expansion_roms@.len() == um.nv_roms.len()
    &&& (forall|i: int|
        0 <= i < um.nv_roms.len() ==> crate::nvidia::nvrom_matches(
            d,
            um.nv_roms[i].offset,
            #[trigger] f.nv_pci_expansion_roms@[i],
        ))
}

/// A unit list realises a model list, unit by unit.
pub open spec fn units_match(d: Seq<u8>, ums: Seq<UnitModel>, fs: Seq<FirmwareInfo>) -> bool {
    &&& ums.len() == fs.len()
    &&& (forall|i: int| 0 <= i < ums.len() ==> unit_matches(d, ums[i], #[trigger] fs[i]))
}

/// The hoisted NBSI sub-image realises the model's NBSI hit.
pub open spec fn nbsi_hoist_matches(
    d: Seq<u8>,
    o: Option<crate::ScanHit>,
    nb: Option<NbsiPciExpansionRom>,
) -> bool {
    match (o, nb) {
        (Some(h), Some(v)) => crate::nvidia::nbsi::nbsi_matches(d, h.offset, v),
        (None, None) => true,
        _ => false,
    }
}

/// The assembler's concrete state realises the grouping model of a hit
/// chain over source bytes `d`.
#[verifier::opaque]
pub open spec fn assembly_matches(
    d: Seq<u8>,
    hits: Seq<crate::ScanHit>,
    fs: Seq<FirmwareInfo>,
    cur: FirmwareInfo,
    nbsi: Option<NbsiPciExpansionRom>,
) -> bool {
    let st = assemble(hits);
    &&& units_match(d, st.sealed, fs)
    &&& unit_matches(d, st.current, cur)
    &&& nbsi_hoist_matches(d, st.nbsi, nbsi)
}

/// Attaches one discovered region to the grouping state, exactly as one
/// `assemble_step` of the grouping model demands.
#[verifier::rlimit(100)]
#[verifier::spinoff_prover]
fn attach_region(
    firmware: &mut FirmwareInfo,
    firmwares: &mut Vec<FirmwareInfo>,
    nbsi: &mut Option<NbsiPciExpansionRom>,
    region: Region,
    Ghost(d): Ghost<Seq<u8>>,
    Ghost(h): Ghost<crate::ScanHit>,
    Ghost(st): Ghost<AssemblyState>,
)
    requires
        crate::region_matches_hit(d, h, region),
        crate::hit_ok(d, h),
        units_match(d, st.sealed, old(firmwares)@),
        unit_matches(d, st.current, *old(firmware)),
        nbsi_hoist_matches(d, st.nbsi, *old(nbsi)),
        firmware_wf(*old(firmware)),
        forall|i: int|
            0 <= i < old(firmwares)@.len() ==> firmware_wf(#[trigger] old(firmwares)@[i]),
    ensures
        firmware_wf(*final(firmware)),
        forall|i: int|
            0 <= i < final(firmwares)@.len() ==> firmware_wf(#[trigger] final(firmwares)@[i]),
        ({
            let st2 = assemble_step(st, h);
            &&& units_match(d, st2.sealed, final(firmwares)@)
            &&& unit_matches(d, st2.current, *final(firmware))
            &&& nbsi_hoist_matches(d, st2.nbsi, *final(nbsi))
        }),
{
    proof {
        reveal(crate::region_matches_hit);
        reveal(crate::hit_ok);
    }
    match region {
        Region::LegacyPciExpansionRom(legacy) => {
            proof {
                assert(legacy_image_bounded(legacy));
            }
            firmware.legacy_pci_image = Some(
                LegacyPciImageInfo {
                    image: legacy,
                    bit_table_structure: None,
                    bit_tokens_data: Vec::new(),
                    bit_string_token: None,
                    nvlink_config_data: None,
                    memory_clock_table: None,
                    memory_tweak_table: None,
                    pll_info: None,
                    power_policy_table: None,
                    virtual_p_state_table: None,
                    device_control_block: None,
                    gpio_assignment_table: None,
                    i2c_devices_table: None,
                    connector_table: None,
                },
            );
        },
        Region::EfiPciExpansionRom(efi) => {
            firmware.efi_pci_image = Some(efi);
        },
        Region::NvidiaPciExpansionRom(nv) => {
            proof {
                assert(nvrom_bounded(nv));
            }
            firmware.nv_pci_expansion_roms.push(nv);
            proof {
                let um = assemble_step(st, h).current;
                assert forall|i: int| 0 <= i < um.nv_roms.len() implies crate::nvidia::nvrom_matches(
                    d,
                    um.nv_roms[i].offset,
                    #[trigger] firmware.nv_pci_expansion_roms@[i],
                ) by {
                    if i < st.current.nv_roms.len() {
                        assert(um.nv_roms[i] == st.current.nv_roms[i]);
                    } else {
                        assert(um.nv_roms[i] == h);
                    }
                }
            }
        },
        Region::NbsiPciExpansionRom(nbsi_rom) => {
            *nbsi = Some(nbsi_rom);
        },
        Region::NvgiRegion(nvgi) => {
            if firmware.rfrd_region.is_some() {
                let mut sealed = FirmwareInfo::default();
                std::mem::swap(firmware, &mut sealed);
                firmwares.push(sealed);
                proof {
                    let sealed2 = st.sealed.push(st.current);
                    assert forall|i: int| 0 <= i < sealed2.len() implies unit_matches(
                        d,
                        sealed2[i],
                        #[trigger] firmwares@[i],
                    ) by {
                        if i < st.sealed.len() {
                            assert(sealed2[i] == st.sealed[i]);
                            assert(firmwares@[i] == old(firmwares)@[i]);
                        }
                    }
                }
            }
            firmware.nvgi_regions.push(nvgi);
            proof {
                let um = assemble_step(st, h).current;
                assert forall|i: int| 0 <= i < um.nvgi.len() implies crate::nvidia::nvgi_matches(
                    d,
                    um.nvgi[i].offset,
                    #[trigger] firmware.nvgi_regions@[i],
                ) by {
                    if st.current.rfrd is Some {
                        assert(um.nvgi[i] == h);
                    } else {
                        if i < st.current.nvgi.len() {
                            assert(um.nvgi[i] == st.current.nvgi[i]);
                        } else {
                            assert(um.nvgi[i] == h);
                        }
                    }
                }
            }
        },
        Region::RfrdRegion(rfrd) => {
            firmware.rfrd_region = Some(rfrd);
        },
    }
}

/// Extending a hit chain by the step found at its end keeps it a chain
/// and advances the grouping by one step.
#[verifier::rlimit(100)]
#[verifier::spinoff_prover]
proof fn lemma_scan_chain_extend(d: Seq<u8>, hits: Seq<crate::ScanHit>, h: crate::ScanHit)
    requires
        crate::scan_chain(d, hits),
        Some(h) == crate::spec_scan_step(
            d,
            if hits.len() == 0 {
                0int
            } else {
                hits.last().end
            },
        ),
    ensures
        crate::scan_chain(d, hits.push(h)),
        hits.push(h).last() == h,
        hits.push(h).len() == hits.len() + 1,
        assemble(hits.push(h)) == assemble_step(assemble(hits), h),
{
    reveal(crate::scan_chain);
    let hits2 = hits.push(h);
    assert(hits2.drop_last() =~= hits);
    assert(hits2.last() == h);
    assert forall|i: int| 0 <= i < hits2.len() implies Some(#[trigger] hits2[i])
        == crate::spec_scan_step(
        d,
        if i == 0 {
            0int
        } else {
            hits2[i - 1].end
        },
    ) by {
        if i < hits.len() {
            assert(hits2[i] == hits[i]);
        }
    }
}

/// Runs one step of the bundle assembly: takes the scanner's next region
/// and attaches it to the grouping state, extending the hit chain, or
/// reports that the scan is complete.
#[verifier::rlimit(100)]
#[verifier::spinoff_prover]
fn assemble_one<'a>(
    region_iterator: &mut RegionIterator<'a>,
    firmware: &mut FirmwareInfo,
    firmwares: &mut Vec<FirmwareInfo>,
    nbsi: &mut Option<NbsiPciExpansionRom>,
    Ghost(hits_in): Ghost<Seq<crate::ScanHit>>,
) -> (r: (bool, Ghost<Seq<crate::ScanHit>>))
    requires
        crate::scan_chain(old(region_iterator).source@, hits_in),
        old(region_iterator).position as int == (if hits_in.len() == 0 {
            0int
        } else {
            hits_in.last().end
        }),
        assembly_matches(
            old(region_iterator).source@,
            hits_in,
            old(firmwares)@,
            *old(firmware),
            *old(nbsi),
        ),
        firmware_wf(*old(firmware)),
        forall|i: int|
            0 <= i < old(firmwares)@.len() ==> firmware_wf(#[trigger] old(firmwares)@[i]),
    ensures
        final(region_iterator).source == old(region_iterator).source,
        firmware_wf(*final(firmware)),
        forall|i: int|
            0 <= i < final(firmwares)@.len() ==> firmware_wf(#[trigger] final(firmwares)@[i]),
        ({
            let d = old(region_iterator).source@;
            let hits2 = r.1@;
            &&& crate::scan_chain(d, hits2)
            &&& assembly_matches(d, hits2, final(firmwares)@, *final(firmware), *final(nbsi))
            &&& (!r.0 ==> hits2.len() > 0 && final(region_iterator).position as int
                == hits2.last().end && final(region_iterator).position > old(
                region_iterator,
            ).position)
            &&& (r.0 ==> hits2 == hits_in && crate::scan_complete(d, hits2))
        }),
{
    let ghost d = region_iterator.source@;
    let ghost prev = region_iterator.position;
    proof {
        vstd::std_specs::vec::axiom_spec_len(region_iterator.source);
        crate::lemma_scan_step_props(d, prev as int);
    }
    match region_iterator.try_next() {
        Ok(Some(region)) => {
            let ghost h = crate::spec_scan_step(d, prev as int)->Some_0;
            let ghost hits2 = hits_in.push(h);
            proof {
                reveal(assembly_matches);
                lemma_scan_chain_extend(d, hits_in, h);
            }
            attach_region(
                firmware,
                firmwares,
                nbsi,
                region,
                Ghost(d),
                Ghost(h),
                Ghost(assemble(hits_in)),
            );
            (false, Ghost(hits2))
        },
        Ok(None) => (true, Ghost(hits_in)),
        Err(e) => {
            proof {
                assert(false);
            }
            (true, Ghost(hits_in))
        },
    }
}

impl FirmwareBundleInfo {
    /// Assembles the bundle from one raw firmware blob: scans it for
    /// regions, groups them into firmware units (an NVGI leading marker
    /// opens a new unit when the current one already carries its RFRD
    /// trailer; the NBSI sub-image is hoisted to bundle level, the last
    /// one winning), seals the in-progress unit at end of input, and
    /// chases every sealed unit's legacy sub-image into its tables.  The
    /// parse always succeeds: an in-memory source has no I/O failures and
    /// every candidate decode failure is speculative.  The result holds,
    /// unit by unit and region by region, exactly what the scan model's
    /// complete hit chain assembles to.
    #[verifier::rlimit(100)]
    #[verifier::spinoff_prover]
    pub fn parse(source: &Vec<u8>) -> (r: Result<FirmwareBundleInfo, Error>)
        ensures
            r is Ok,
            r matches Ok(b) ==> forall|i: int|
                0 <= i < b.firmwares@.len() ==> firmware_wf(#[trigger] b.firmwares@[i]),
            r matches Ok(b) ==> exists|hits: Seq<crate::ScanHit>|
                {
                    &&& #[trigger] crate::scan_chain(source@, hits)
                    &&& crate::scan_complete(source@, hits)
                    &&& units_match(
                        source@,
                        assemble(hits).sealed.push(assemble(hits).current),
                        b.firmwares@,
                    )
                    &&& nbsi_hoist_matches(source@, assemble(hits).nbsi, b.nbsi_pci_expansion_rom)
                },
    {
        let ghost d = source@;
        let mut nbsi_pci_expansion_rom: Option<NbsiPciExpansionRom> = None;
        let mut firmware = FirmwareInfo::default();
        let mut firmwares: Vec<FirmwareInfo> = Vec::new();
        let mut region_iterator = RegionIterator::new(source);
        let mut scan_done = false;
        let ghost mut hits: Seq<crate::ScanHit> = Seq::empty();
        proof {
            reveal(crate::scan_chain);
            reveal(assembly_matches);
        }
        while !scan_done
            invariant
                region_iterator.source == source,
                d == source@,
                firmware_wf(firmware),
                forall|i: int| 0 <= i < firmwares@.len() ==> firmware_wf(#[trigger] firmwares@[i]),
                crate::scan_chain(d, hits),
                !scan_done ==> region_iterator.position as int == (if hits.len() == 0 {
                    0int
                } else {
                    hits.last().end
                }),
                scan_done ==> crate::scan_complete(d, hits),
                assembly_matches(d, hits, firmwares@, firmware, nbsi_pci_expansion_rom),
            decreases (if scan_done {
                0int
            } else {
                1int
            }), u64::MAX - region_iterator.position,
        {
            let (done, next_hits) = assemble_one(
                &mut region_iterator,
                &mut firmware,
                &mut firmwares,
                &mut nbsi_pci_expansion_rom,
                Ghost(hits),
            );
            proof {
                hits = next_hits@;
            }
            scan_done = done;
        }
        let ghost final_state = assemble(hits);
        let ghost total_ums = final_state.sealed.push(final_state.current);
        firmwares.push(firmware);
        proof {
            reveal(assembly_matches);
            assert forall|i: int| 0 <= i < total_ums.len() implies unit_matches(
                d,
                total_ums[i],
                #[trigger] firmwares@[i],
            ) by {
                if i < final_state.sealed.len() {
                    assert(total_ums[i] == final_state.sealed[i]);
                } else {
                    assert(total_ums[i] == final_state.current);
                }
            }
        }
        let mut out_firmwares: Vec<FirmwareInfo> = Vec::new();
        while firmwares.len() > 0
            invariant
                d == source@,
                forall|i: int| 0 <= i < firmwares@.len() ==> firmware_wf(#[trigger] firmwares@[i]),
                forall|i: int|
                    0 <= i < out_firmwares@.len() ==> firmware_wf(#[trigger] out_firmwares@[i]),
                total_ums.len() == out_firmwares@.len() + firmwares@.len(),
                forall|i: int|
                    0 <= i < out_firmwares@.len() ==> unit_matches(
                        d,
                        total_ums[i],
                        #[trigger] out_firmwares@[i],
                    ),
                forall|i: int|
                    0 <= i < firmwares@.len() ==> unit_matches(
                        d,
                        total_ums[out_firmwares@.len() + i],
                        #[trigger] firmwares@[i],
                    ),
            decreases firmwares@.len(),
        {
            let ghost out_len0 = out_firmwares@.len() as int;
            let ghost in0 = firmwares@;
            let f = firmwares.remove(0);
            let ghost f_um = total_ums[out_len0];
            let FirmwareInfo {
                nvgi_regions,
                rfrd_region,
                legacy_pci_image,
                efi_pci_image,
                nv_pci_expansion_roms,
            } = f;
            let legacy_pci_image = match legacy_pci_image {
                Some(mut info) => {
                    match parse_legacy_pci_image_info(source, &mut info, &nv_pci_expansion_roms) {
                        Ok(_) => {},
                        Err(e) => {
                            proof {
                                assert(false);
                            }
                            return Err(e);
                        },
                    }
                    Some(info)
                },
                None => None,
            };
            out_firmwares.push(
                FirmwareInfo {
                    nvgi_regions,
                    rfrd_region,
                    legacy_pci_image,
                    efi_pci_image,
                    nv_pci_expansion_roms,
                },
            );
            proof {
                assert(unit_matches(d, f_um, out_firmwares@.last()));
                assert forall|i: int| 0 <= i < firmwares@.len() implies unit_matches(
                    d,
                    total_ums[out_firmwares@.len() + i],
                    #[trigger] firmwares@[i],
                ) by {
                    assert(firmwares@[i] == in0[i + 1]);
                    assert(out_firmwares@.len() + i == out_len0 + (i + 1));
                }
            }
        }
        let b = FirmwareBundleInfo { firmwares: out_firmwares, nbsi_pci_expansion_rom };
        proof {
            reveal(assembly_matches);
            assert(crate::scan_chain(d, hits) && crate::scan_complete(d, hits) && units_match(
                d,
                total_ums,
                b.firmwares@,
            ) && nbsi_hoist_matches(d, final_state.nbsi, b.nbsi_pci_expansion_rom));
        }
        Ok(b)
    }
}

/// ASCII spelling of a four-byte version stamp: four upper-case
/// hexadecimal pairs, most significant byte first, separated by dots.
pub open spec fn version_stamp_ascii(v: Seq<u8>) -> Seq<u8> {
    seq![
        crate::bytes::spec_hex_digit(v[3] as int / 16),
        crate::bytes::spec_hex_digit(v[3] as int % 16),
        0x2Eu8,
        crate::bytes::spec_hex_digit(v[2] as int / 16),
        crate::bytes::spec_hex_digit(v[2] as int % 16),
        0x2Eu8,
        crate::bytes::spec_hex_digit(v[1] as int / 16),
        crate::bytes::spec_hex_digit(v[1] as int % 16),
        0x2Eu8,
        crate::bytes::spec_hex_digit(v[0] as int / 16),
        crate::bytes::spec_hex_digit(v[0] as int % 16),
    ]
}

/// ASCII spelling of a BIOS version: the stamp followed by a dot and the
/// OEM version byte in hexadecimal.
pub open spec fn bios_version_ascii(v: Seq<u8>, oem: int) -> Seq<u8> {
    version_stamp_ascii(v) + seq![0x2Eu8] + spec_hex_pair(oem)
}

proof fn lemma_version_stamp_ascii(v: Seq<u8>)
    requires
        v.len() == 4,
    ensures
        all_ascii(version_stamp_ascii(v)),
        version_stamp_ascii(v).len() == 11,
{
    assert forall|i: int| 0 <= i < 11 implies version_stamp_ascii(v)[i] < 128 by {
        assert(0 <= v[0] / 16 < 16 && 0 <= v[0] % 16 < 16);
        assert(0 <= v[1] / 16 < 16 && 0 <= v[1] % 16 < 16);
        assert(0 <= v[2] / 16 < 16 && 0 <= v[2] % 16 < 16);
        assert(0 <= v[3] / 16 < 16 && 0 <= v[3] % 16 < 16);
    }
}

/// The hexadecimal display text of a version stamp.
pub fn version_stamp_string(v: &crate::VersionHex4) -> (r: String)
    ensures
        r@ == ascii_chars(version_stamp_ascii(v.0@)),
{
    let mut out: Vec<u8> = Vec::new();
    push_hex_pair(&mut out, v.0[3]);
    out.push(0x2E);
    push_hex_pair(&mut out, v.0[2]);
    out.push(0x2E);
    push_hex_pair(&mut out, v.0[1]);
    out.push(0x2E);
    push_hex_pair(&mut out, v.0[0]);
    proof {
        assert(out@ =~= version_stamp_ascii(v.0@));
        lemma_version_stamp_ascii(v.0@);
    }
    let s = utf8_to_string(&out);
    match s {
        Some(s) => s,
        None => {
            proof {
                assert(false);
            }
            String::new()
        },
    }
}

/// The narrowed per-unit summary: a version string and the optional GOP
/// version and subsystem identifier.
#[derive(Debug, Clone)]
pub struct VBiosInfo {
    pub version: String,
    pub gop_version: Option<String>,
    pub subsystem_id: Option<String>,
}

/// The last BIOS data token of a token list, if any: later tokens
/// override earlier ones.
pub open spec fn last_bios_token(toks: Seq<BITTokenType>) -> Option<crate::nvidia::bit::BiosDataToken>
    decreases toks.len(),
{
    if toks.len() == 0 {
        None
    } else {
        match toks.last() {
            BITTokenType::Bios(b) => Some(b),
            _ => last_bios_token(toks.drop_last()),
        }
    }
}

/// The version stamp text an optional stamp yields: present only when the
/// stamp is there and not all zero.
pub open spec fn stamp_text_matches(g: Option<crate::VersionHex4>, s: Option<String>) -> bool {
    match g {
        Some(stamp) => if exists|i: int| 0 <= i < 4 && stamp.0@[i] != 0 {
            s matches Some(t) && t@ == ascii_chars(version_stamp_ascii(stamp.0@))
        } else {
            s is None
        },
        None => s is None,
    }
}

/// What one unit's summary holds: the version text of the unit's last
/// BIOS data token (or the placeholder when there is none), and the GOP
/// version and subsystem stamps of the legacy image's extended data
/// structure when they are present and nonzero.
pub open spec fn vbios_matches(f: FirmwareInfo, v: VBiosInfo) -> bool {
    match f.legacy_pci_image {
        Some(info) => {
            &&& (match last_bios_token(info.bit_tokens_data@) {
                Some(b) => v.version@ == ascii_chars(
                    bios_version_ascii(b.bios_version.0@, b.bios_oem_version as int),
                ),
                None => v.version@ == "N/A"@,
            })
            &&& (match info.image.data_header_extended {
                Some(ext) => stamp_text_matches(ext.gop_version, v.gop_version)
                    && stamp_text_matches(ext.subsystem_id, v.subsystem_id),
                None => v.gop_version is None && v.subsystem_id is None,
            })
        },
        None => v.version@ == "N/A"@ && v.gop_version is None && v.subsystem_id is None,
    }
}

proof fn lemma_last_bios_token_push(toks: Seq<BITTokenType>, x: BITTokenType)
    ensures
        last_bios_token(toks.push(x)) == (match x {
            BITTokenType::Bios(b) => Some(b),
            _ => last_bios_token(toks),
        }),
{
    assert(toks.push(x).last() == x);
    assert(toks.push(x).drop_last() =~= toks);
}

/// The optional display text of an optional version stamp.
fn stamp_text(g: &Option<crate::VersionHex4>) -> (r: Option<String>)
    ensures
        stamp_text_matches(*g, r),
{
    match g {
        Some(stamp) => match stamp.non_zero() {
            Some(v) => Some(version_stamp_string(v)),
            None => None,
        },
        None => None,
    }
}

impl FirmwareBundleInfo {
    /// The narrowed summary of every firmware unit, in order: the version
    /// of its last BIOS data token, and the GOP version and subsystem
    /// identifier stamps of its legacy image when present and nonzero.
    pub fn v_bios_info(&self) -> (r: Vec<VBiosInfo>)
        ensures
            r@.len() == self.firmwares@.len(),
            forall|i: int|
                0 <= i < r@.len() ==> vbios_matches(self.firmwares@[i], #[trigger] r@[i]),
    {
        let mut out: Vec<VBiosInfo> = Vec::new();
        let mut i: usize = 0;
        let n = self.firmwares.len();
        while i < n
            invariant
                n == self.firmwares@.len(),
                i <= n,
                out@.len() == i,
                forall|k: int|
                    0 <= k < i ==> vbios_matches(self.firmwares@[k], #[trigger] out@[k]),
            decreases n - i,
        {
            let f = &self.firmwares[i];
            let entry = match &f.legacy_pci_image {
                Some(info) => {
                    let mut bios: Option<crate::nvidia::bit::BiosDataToken> = None;
                    let mut ti: usize = 0;
                    let tlen = info.bit_tokens_data.len();
                    while ti < tlen
                        invariant
                            tlen == info.bit_tokens_data@.len(),
                            ti <= tlen,
                            bios == last_bios_token(info.bit_tokens_data@.take(ti as int)),
                        decreases tlen - ti,
                    {
                        match &info.bit_tokens_data[ti] {
                            BITTokenType::Bios(b) => {
                                bios = Some(*b);
                            },
                            _ => {},
                        }
                        proof {
                            lemma_last_bios_token_push(
                                info.bit_tokens_data@.take(ti as int),
                                info.bit_tokens_data@[ti as int],
                            );
                            assert(info.bit_tokens_data@.take(ti as int).push(
                                info.bit_tokens_data@[ti as int],
                            ) =~= info.bit_tokens_data@.take(ti as int + 1));
                        }
                        ti = ti + 1;
                    }
                    proof {
                        assert(info.bit_tokens_data@.take(tlen as int) =~= info.bit_tokens_data@);
                    }
                    let version = match &bios {
                        Some(b) => {
                            let mut txt = version_stamp_string(&b.bios_version);
                            let mut tail: Vec<u8> = Vec::new();
                            tail.push(0x2E);
                            push_hex_pair(&mut tail, b.bios_oem_version);
                            proof {
                                assert(all_ascii(tail@)) by {
                                    assert(0 <= b.bios_oem_version / 16 < 16);
                                    assert(0 <= b.bios_oem_version % 16 < 16);
                                }
                            }
                            let tail_s = match utf8_to_string(&tail) {
                                Some(s) => s,
                                None => {
                                    proof {
                                        assert(false);
                                    }
                                    String::new()
                                },
                            };
                            txt.append(tail_s.as_str());
                            proof {
                                assert(txt@ =~= ascii_chars(
                                    bios_version_ascii(
                                        b.bios_version.0@,
                                        b.bios_oem_version as int,
                                    ),
                                ));
                            }
                            txt
                        },
                        None => String::from_str("N/A"),
                    };
                    let (gop_version, subsystem_id) = match &info.image.data_header_extended {
                        Some(ext) => (stamp_text(&ext.gop_version), stamp_text(&ext.subsystem_id)),
                        None => (None, None),
                    };
                    VBiosInfo { version, gop_version, subsystem_id }
                },
                None => VBiosInfo {
                    version: String::from_str("N/A"),
                    gop_version: None,
                    subsystem_id: None,
                },
            };
            out.push(entry);
            i = i + 1;
        }
        out
    }
}

} // verus!
