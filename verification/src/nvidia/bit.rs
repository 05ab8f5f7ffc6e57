//! The BIOS information table (BIT): a directory of typed tokens whose
//! data pointers lead to the other tables of a legacy sub-image, all in
//! the stitched logical address space.

use crate::bytes::{
    all_ascii, ascii_chars, le16, le32, le64, read_bytes, read_u16, read_u32, read_u64, read_u8,
    utf8_to_string,
};
use crate::Error;
use crate::VersionHex4;
use vstd::prelude::*;

pub mod nvlink;
pub mod perf;

verus! {

/// Signature of the BIT header: "BIT\0".
pub const BIT_SIGNATURE: [u8; 4] = [0x42, 0x49, 0x54, 0x00];

/// Index of the first NUL byte of `s`, or `s.len()` when there is none.
pub open spec fn first_nul(s: Seq<u8>) -> int
    decreases s.len(),
{
    if s.len() == 0 {
        0
    } else if s[0] == 0 {
        0
    } else {
        1 + first_nul(s.drop_first())
    }
}

proof fn lemma_first_nul_at(s: Seq<u8>, i: int)
    requires
        0 <= i <= s.len(),
        forall|j: int| 0 <= j < i ==> s[j] != 0,
        i < s.len() ==> s[i] == 0,
    ensures
        first_nul(s) == i,
    decreases i,
{
    if s.len() == 0 {
    } else if i == 0 {
    } else {
        assert(forall|j: int| 0 <= j < i - 1 ==> s.drop_first()[j] == s[j + 1]);
        assert(i - 1 < s.drop_first().len() ==> s.drop_first()[i - 1] == s[i]);
        lemma_first_nul_at(s.drop_first(), i - 1);
    }
}

/// What decoding a NUL-terminated text out of `b` yields: nothing without
/// a terminator; the ASCII prefix before the terminator, one character
/// per byte, when that prefix is ASCII.
pub open spec fn c_string_matches(b: Seq<u8>, f: Option<String>) -> bool {
    let p = b.subrange(0, first_nul(b));
    &&& (first_nul(b) == b.len() ==> f is None)
    &&& (first_nul(b) < b.len() && all_ascii(p) ==> (f matches Some(t) && t@ == ascii_chars(p)))
}

/// Takes the bytes before the first NUL terminator as text, if they are
/// well-formed; a missing terminator or malformed text yields `None`.
pub fn try_map_to_string(bytes: Vec<u8>) -> (r: Option<String>)
    ensures
        c_string_matches(bytes@, r),
{
    let ghost s = bytes@;
    let n = bytes.len();
    let mut i: usize = 0;
    while i < n
        invariant
            s == bytes@,
            n == s.len(),
            i <= n,
            forall|j: int| 0 <= j < i ==> s[j] != 0,
        decreases n - i,
    {
        if bytes[i] == 0 {
            proof {
                lemma_first_nul_at(s, i as int);
            }
            let prefix = match crate::bytes::read_bytes(&bytes, 0, i) {
                Some(v) => v,
                None => {
                    return None;
                },
            };
            proof {
                assert(prefix@ =~= s.subrange(0, first_nul(s)));
            }
            return utf8_to_string(&prefix);
        }
        i = i + 1;
    }
    proof {
        lemma_first_nul_at(s, n as int);
    }
    None
}

/// The 12-byte BIT header.
#[derive(Debug, Clone)]
pub struct BITHeader {
    pub id: u16,
    pub signature: Vec<u8>,
    pub version_minor: u8,
    pub version_major: u8,
    pub header_size: u8,
    pub token_size: u8,
    pub token_entries: u8,
    pub header_checksum: u8,
}

/// One 6-byte BIT token entry.
#[derive(Debug, Clone, Copy, PartialEq, Eq, Structural)]
pub struct BITToken {
    pub id: u8,
    pub data_version: u8,
    pub data_size: u16,
    pub data_pointer: u16,
}

/// The token entry found at offset `p`.
pub open spec fn spec_bit_token(d: Seq<u8>, p: int) -> BITToken {
    BITToken {
        id: d[p],
        data_version: d[p + 1],
        data_size: le16(d, p + 2) as u16,
        data_pointer: le16(d, p + 4) as u16,
    }
}

/// The BIT: its header and the token directory.
#[derive(Debug, Clone)]
pub struct BITStructure {
    pub header: BITHeader,
    pub tokens: Vec<BITToken>,
}

/// A BIT decodes at `t`: the signature two bytes in, and all declared
/// token entries present.
pub open spec fn bit_ok(d: Seq<u8>, t: int) -> bool {
    &&& 0 <= t
    &&& t + 12 <= d.len()
    &&& d[t + 2] == 0x42
    &&& d[t + 3] == 0x49
    &&& d[t + 4] == 0x54
    &&& d[t + 5] == 0x00
    &&& t + 12 + 6 * (d[t + 10] as int) <= d.len()
}

/// Where a successful BIT decode leaves the stream: one past the token
/// entries.
pub open spec fn bit_end(d: Seq<u8>, t: int) -> int {
    t + 12 + 6 * (d[t + 10] as int)
}

/// The fields a BIT decoded at `t` holds.
pub open spec fn bit_matches(d: Seq<u8>, t: int, v: BITStructure) -> bool {
    &&& v.header.id == le16(d, t)
    &&& v.header.signature@ == d.subrange(t + 2, t + 6)
    &&& v.header.version_minor == d[t + 6]
    &&& v.header.version_major == d[t + 7]
    &&& v.header.header_size == d[t + 8]
    &&& v.header.token_size == d[t + 9]
    &&& v.header.token_entries == d[t + 10]
    &&& v.header.header_checksum == d[t + 11]
    &&& v.tokens@.len() == d[t + 10]
    &&& (forall|i: int|
        0 <= i < d[t + 10] ==> #[trigger] v.tokens@[i] == spec_bit_token(d, t + 12 + 6 * i))
}

/// Decodes the BIT at `t`, succeeding exactly on the inputs `bit_ok`
/// admits; on success the stream continues at `bit_end`.
pub fn parse_bit_structure(source: &Vec<u8>, t: u64) -> (r: Result<(BITStructure, u64), Error>)
    ensures
        match r {
            Ok((v, end)) => bit_ok(source@, t as int) && bit_matches(source@, t as int, v) && end
                == bit_end(source@, t as int),
            Err(_) => !bit_ok(source@, t as int),
        },
{
    let ghost d = source@;
    proof {
        vstd::std_specs::vec::axiom_spec_len(source);
    }
    let head = match read_bytes(source, t, 12) {
        Some(v) => v,
        None => {
            return Err(Error::InvalidFormat(String::from_str("BIT truncated")));
        },
    };
    if !(head[2] == 0x42 && head[3] == 0x49 && head[4] == 0x54 && head[5] == 0x00) {
        return Err(Error::InvalidFormat(String::from_str("BIT signature mismatch")));
    }
    let entries = head[10];
    match read_bytes(source, t + 12, 6 * entries as usize) {
        Some(_) => {},
        None => {
            return Err(Error::InvalidFormat(String::from_str("BIT token entries truncated")));
        },
    }
    let mut tokens: Vec<BITToken> = Vec::new();
    let mut i: usize = 0;
    let n = entries as usize;
    while i < n
        invariant
            d == source@,
            d.len() <= u64::MAX,
            n == d[t as int + 10],
            t + 12 + 6 * n <= d.len(),
            i <= n,
            tokens@.len() == i,
            forall|j: int| 0 <= j < i ==> #[trigger] tokens@[j] == spec_bit_token(d, t + 12 + 6 * j),
        decreases n - i,
    {
        let q = t + 12 + 6 * i as u64;
        let tok = BITToken {
            id: read_u8(source, q).unwrap(),
            data_version: read_u8(source, q + 1).unwrap(),
            data_size: read_u16(source, q + 2).unwrap(),
            data_pointer: read_u16(source, q + 4).unwrap(),
        };
        tokens.push(tok);
        i = i + 1;
    }
    let header = BITHeader {
        id: read_u16(source, t).unwrap(),
        signature: read_bytes(source, t + 2, 4).unwrap(),
        version_minor: head[6],
        version_major: head[7],
        header_size: head[8],
        token_size: head[9],
        token_entries: entries,
        header_checksum: head[11],
    };
    Ok((BITStructure { header, tokens }, t + 12 + 6 * entries as u64))
}

/// Raw DAC capability flags.
#[derive(Debug, Clone, Copy, PartialEq, Eq, Structural)]
pub struct DacFlags(pub u8);

/// Raw INT15 POST callback flags.
#[derive(Debug, Clone, Copy, PartialEq, Eq, Structural)]
pub struct Int15PostCallbacks(pub u16);

/// Raw INT15 system callback flags.
#[derive(Debug, Clone, Copy, PartialEq, Eq, Structural)]
pub struct Int15SystemCallbacks(pub u16);

/// Raw external module map flags.
#[derive(Debug, Clone, Copy, PartialEq, Eq, Structural)]
pub struct ModuleMapExternal0(pub u8);

/// Raw display control flags.
#[derive(Debug, Clone, Copy, PartialEq, Eq, Structural)]
pub struct DisplayControlFlags(pub u8);

/// Raw UEFI capability flags.
#[derive(Debug, Clone, Copy, PartialEq, Eq, Structural)]
pub struct UefiFlags(pub u64);

/// Raw MXM module flags.
#[derive(Debug, Clone, Copy, PartialEq, Eq, Structural)]
pub struct ModuleFlags(pub u8);

/// Raw MXM configuration flags.
#[derive(Debug, Clone, Copy, PartialEq, Eq, Structural)]
pub struct ConfigFlags(pub u8);

/// Pointers of the I2C script token.
#[derive(Debug, Clone, Copy, PartialEq, Eq, Structural)]
pub struct I2CPtrsToken {
    pub i2c_scripts_ptr: u16,
    pub ext_hw_mon_init_ptr: u16,
}

/// The I2C token payload found at `p`.
pub open spec fn spec_i2c_ptrs(d: Seq<u8>, p: int) -> I2CPtrsToken {
    I2CPtrsToken {
        i2c_scripts_ptr: le16(d, p) as u16,
        ext_hw_mon_init_ptr: le16(d, p + 2) as u16,
    }
}

/// Pointer and flags of the DAC data token.
#[derive(Debug, Clone, Copy, PartialEq, Eq, Structural)]
pub struct DACPtrsToken {
    pub dac_data_ptr: u16,
    pub dac_flags: DacFlags,
}

/// The DAC token payload found at `p`.
pub open spec fn spec_dac_ptrs(d: Seq<u8>, p: int) -> DACPtrsToken {
    DACPtrsToken { dac_data_ptr: le16(d, p) as u16, dac_flags: DacFlags(d[p + 2]) }
}

/// The BIOS data token: version stamp, checksums and rom-pack pointers.
#[derive(Debug, Clone, Copy)]
pub struct BiosDataToken {
    pub bios_version: VersionHex4,
    pub bios_oem_version: u8,
    pub bios_checksum: u8,
    pub int15_post_callbacks: Int15PostCallbacks,
    pub int15_system_callbacks: Int15SystemCallbacks,
    pub frame_count: u16,
    pub _reserved: u32,
    pub max_heads_at_post: u8,
    pub memory_size_report: u8,
    pub h_scale_factor: u8,
    pub v_scale_factor: u8,
    pub data_range_table_pointer: u16,
    pub rom_packs_pointer: u16,
    pub applied_rom_packs_pointer: u16,
    pub applied_rom_pack_max: u8,
    pub applied_rom_pack_count: u8,
    pub module_map_external_0: ModuleMapExternal0,
    pub compression_data_table: u32,
}

/// The fields the BIOS data token found at `p` holds.
pub open spec fn bios_data_matches(d: Seq<u8>, p: int, v: BiosDataToken) -> bool {
    &&& v.bios_version.0@ == d.subrange(p, p + 4)
    &&& v.bios_oem_version == d[p + 4]
    &&& v.bios_checksum == d[p + 5]
    &&& v.int15_post_callbacks.0 == le16(d, p + 6)
    &&& v.int15_system_callbacks.0 == le16(d, p + 8)
    &&& v.frame_count == le16(d, p + 10)
    &&& v._reserved == le32(d, p + 12)
    &&& v.max_heads_at_post == d[p + 16]
    &&& v.memory_size_report == d[p + 17]
    &&& v.h_scale_factor == d[p + 18]
    &&& v.v_scale_factor == d[p + 19]
    &&& v.data_range_table_pointer == le16(d, p + 20)
    &&& v.rom_packs_pointer == le16(d, p + 22)
    &&& v.applied_rom_packs_pointer == le16(d, p + 24)
    &&& v.applied_rom_pack_max == d[p + 26]
    &&& v.applied_rom_pack_count == d[p + 27]
    &&& v.module_map_external_0.0 == d[p + 28]
    &&& v.compression_data_table == le32(d, p + 29)
}

/// Pointers of the clock token.
#[derive(Debug, Clone, Copy, PartialEq, Eq, Structural)]
pub struct ClockPtrsToken {
    pub pll_info_table_ptr: u32,
    pub vbe_mode_pclk_table_ptr: u32,
    pub clocks_table_ptr: u32,
    pub clocks_programming_table_ptr: u32,
    pub nafll_table_ptr: u32,
    pub adc_table_ptr: u32,
    pub frequency_controller_table_ptr: u32,
}

/// The clock token payload found at `p`.
pub open spec fn spec_clock_ptrs(d: Seq<u8>, p: int) -> ClockPtrsToken {
    ClockPtrsToken {
        pll_info_table_ptr: le32(d, p) as u32,
        vbe_mode_pclk_table_ptr: le32(d, p + 4) as u32,
        clocks_table_ptr: le32(d, p + 8) as u32,
        clocks_programming_table_ptr: le32(d, p + 12) as u32,
        nafll_table_ptr: le32(d, p + 16) as u32,
        adc_table_ptr: le32(d, p + 20) as u32,
        frequency_controller_table_ptr: le32(d, p + 24) as u32,
    }
}

/// Pointers of the flat-panel token.
#[derive(Debug, Clone, Copy, PartialEq, Eq, Structural)]
pub struct DfpPtrsToken {
    pub fp_established_ptr: u16,
    pub fp_table_ptr: u16,
}

/// The flat-panel token payload found at `p`.
pub open spec fn spec_dfp_ptrs(d: Seq<u8>, p: int) -> DfpPtrsToken {
    DfpPtrsToken { fp_established_ptr: le16(d, p) as u16, fp_table_ptr: le16(d, p + 2) as u16 }
}

/// Pointers of the initialisation token; its NVLink configuration pointer
/// is chased separately.
#[derive(Debug, Clone, Copy, PartialEq, Eq, Structural)]
pub struct NvinitPtrsToken {
    pub init_script_table_ptr: u16,
    pub macro_index_table_ptr: u16,
    pub macro_table_ptr: u16,
    pub condition_table_ptr: u16,
    pub io_condition_table_ptr: u16,
    pub io_flag_condition_table_ptr: u16,
    pub init_function_table_ptr: u16,
    pub vbios_private_boot_script_ptr: u16,
    pub data_arrays_table_ptr: u16,
    pub pcie_settings_script_ptr: u16,
    pub devinit_tables_ptr: u16,
    pub devinit_tables_size: u16,
    pub boot_scripts_ptr: u16,
    pub boot_scripts_size: u16,
    pub nvlink_configuration_data_ptr: u16,
    pub boot_scripts_non_gc6_ptr: u16,
    pub boot_scripts_size_non_gc6: u16,
}

/// The initialisation token payload found at `p`.
pub open spec fn spec_nvinit_ptrs(d: Seq<u8>, p: int) -> NvinitPtrsToken {
    NvinitPtrsToken {
        init_script_table_ptr: le16(d, p) as u16,
        macro_index_table_ptr: le16(d, p + 2) as u16,
        macro_table_ptr: le16(d, p + 4) as u16,
        condition_table_ptr: le16(d, p + 6) as u16,
        io_condition_table_ptr: le16(d, p + 8) as u16,
        io_flag_condition_table_ptr: le16(d, p + 10) as u16,
        init_function_table_ptr: le16(d, p + 12) as u16,
        vbios_private_boot_script_ptr: le16(d, p + 14) as u16,
        data_arrays_table_ptr: le16(d, p + 16) as u16,
        pcie_settings_script_ptr: le16(d, p + 18) as u16,
        devinit_tables_ptr: le16(d, p + 20) as u16,
        devinit_tables_size: le16(d, p + 22) as u16,
        boot_scripts_ptr: le16(d, p + 24) as u16,
        boot_scripts_size: le16(d, p + 26) as u16,
        nvlink_configuration_data_ptr: le16(d, p + 28) as u16,
        boot_scripts_non_gc6_ptr: le16(d, p + 30) as u16,
        boot_scripts_size_non_gc6: le16(d, p + 32) as u16,
    }
}

/// Pointer of the LVDS token.
#[derive(Debug, Clone, Copy, PartialEq, Eq, Structural)]
pub struct LvdsPtrsToken {
    pub lvds_info_table_ptr: u16,
}

/// The LVDS token payload found at `p`.
pub open spec fn spec_lvds_ptrs(d: Seq<u8>, p: int) -> LvdsPtrsToken {
    LvdsPtrsToken { lvds_info_table_ptr: le16(d, p) as u16 }
}

/// Pointers of the memory token.
#[derive(Debug, Clone, Copy, PartialEq, Eq, Structural)]
pub struct MemoryPtrsToken {
    pub memory_strap_data_count: u8,
    pub memory_strap_translation_table_ptr: u16,
    pub memory_information_table_ptr: u16,
    pub reserved: u64,
    pub memory_partition_information_table: u32,
    pub memory_script_list_ptr: u32,
}

/// The memory token payload found at `p`.
pub open spec fn spec_memory_ptrs(d: Seq<u8>, p: int) -> MemoryPtrsToken {
    MemoryPtrsToken {
        memory_strap_data_count: d[p],
        memory_strap_translation_table_ptr: le16(d, p + 1) as u16,
        memory_information_table_ptr: le16(d, p + 3) as u16,
        reserved: le64(d, p + 5) as u64,
        memory_partition_information_table: le32(d, p + 13) as u32,
        memory_script_list_ptr: le32(d, p + 17) as u32,
    }
}

/// Pointers of the performance token; four of them are chased into the
/// performance tables.
#[derive(Debug, Clone, Copy, PartialEq, Eq, Structural)]
pub struct PerfPtrsToken {
    pub performance_table_ptr: u32,
    pub memory_clock_table_ptr: u32,
    pub memory_tweak_table_ptr: u32,
    pub power_control_table_ptr: u32,
    pub thermal_control_table_ptr: u32,
    pub thermal_device_table_ptr: u32,
    pub thermal_coolers_table_ptr: u32,
    pub performance_settings_script_ptr: u32,
    pub continuous_virtual_binning_table_ptr: u32,
    pub ventura_table_ptr: u32,
    pub power_sensors_table_ptr: u32,
    pub power_policy_table_ptr: u32,
    pub p_state_clock_range_table_ptr: u32,
    pub voltage_frequency_table_ptr: u32,
    pub virtual_p_state_table_ptr: u32,
    pub power_topology_table_ptr: u32,
    pub power_leakage_table_ptr: u32,
    pub performance_test_specifications_table_ptr: u32,
    pub thermal_channel_table_ptr: u32,
    pub thermal_adjustment_table_ptr: u32,
    pub thermal_policy_table_ptr: u32,
    pub p_state_memory_clock_frequency_table_ptr: u32,
    pub fan_cooler_table_ptr: u32,
    pub fan_policy_table_ptr: u32,
    pub didt_table_ptr: u32,
    pub fan_test_table_ptr: u32,
    pub voltage_rail_table_ptr: u32,
    pub voltage_device_table_ptr: u32,
    pub voltage_policy_table_ptr: u32,
    pub low_power_table_ptr: u32,
    pub low_power_pcie_table_ptr: u32,
    pub low_power_pcie_platform_table_ptr: u32,
    pub low_power_gr_table_ptr: u32,
    pub low_power_ms_table_ptr: u32,
    pub low_power_di_table_ptr: u32,
    pub low_power_gc6_table_ptr: u32,
    pub low_power_psi_table_ptr: u32,
    pub thermal_monitor_table_ptr: u32,
    pub overclocking_table_ptr: u32,
    pub low_power_nvlink_table_ptr: u32,
}

/// The performance token payload found at `p`.
pub open spec fn spec_perf_ptrs(d: Seq<u8>, p: int) -> PerfPtrsToken {
    PerfPtrsToken {
        performance_table_ptr: le32(d, p) as u32,
        memory_clock_table_ptr: le32(d, p + 4) as u32,
        memory_tweak_table_ptr: le32(d, p + 8) as u32,
        power_control_table_ptr: le32(d, p + 12) as u32,
        thermal_control_table_ptr: le32(d, p + 16) as u32,
        thermal_device_table_ptr: le32(d, p + 20) as u32,
        thermal_coolers_table_ptr: le32(d, p + 24) as u32,
        performance_settings_script_ptr: le32(d, p + 28) as u32,
        continuous_virtual_binning_table_ptr: le32(d, p + 32) as u32,
        ventura_table_ptr: le32(d, p + 36) as u32,
        power_sensors_table_ptr: le32(d, p + 40) as u32,
        power_policy_table_ptr: le32(d, p + 44) as u32,
        p_state_clock_range_table_ptr: le32(d, p + 48) as u32,
        voltage_frequency_table_ptr: le32(d, p + 52) as u32,
        virtual_p_state_table_ptr: le32(d, p + 56) as u32,
        power_topology_table_ptr: le32(d, p + 60) as u32,
        power_leakage_table_ptr: le32(d, p + 64) as u32,
        performance_test_specifications_table_ptr: le32(d, p + 68) as u32,
        thermal_channel_table_ptr: le32(d, p + 72) as u32,
        thermal_adjustment_table_ptr: le32(d, p + 76) as u32,
        thermal_policy_table_ptr: le32(d, p + 80) as u32,
        p_state_memory_clock_frequency_table_ptr: le32(d, p + 84) as u32,
        fan_cooler_table_ptr: le32(d, p + 88) as u32,
        fan_policy_table_ptr: le32(d, p + 92) as u32,
        didt_table_ptr: le32(d, p + 96) as u32,
        fan_test_table_ptr: le32(d, p + 100) as u32,
        voltage_rail_table_ptr: le32(d, p + 104) as u32,
        voltage_device_table_ptr: le32(d, p + 108) as u32,
        voltage_policy_table_ptr: le32(d, p + 112) as u32,
        low_power_table_ptr: le32(d, p + 116) as u32,
        low_power_pcie_table_ptr: le32(d, p + 120) as u32,
        low_power_pcie_platform_table_ptr: le32(d, p + 124) as u32,
        low_power_gr_table_ptr: le32(d, p + 128) as u32,
        low_power_ms_table_ptr: le32(d, p + 132) as u32,
        low_power_di_table_ptr: le32(d, p + 136) as u32,
        low_power_gc6_table_ptr: le32(d, p + 140) as u32,
        low_power_psi_table_ptr: le32(d, p + 144) as u32,
        thermal_monitor_table_ptr: le32(d, p + 148) as u32,
        overclocking_table_ptr: le32(d, p + 152) as u32,
        low_power_nvlink_table_ptr: le32(d, p + 156) as u32,
    }
}

/// The bridge firmware data token.
#[derive(Debug, Clone, Copy, PartialEq, Eq, Structural)]
pub struct BridgeFwDataToken {
    pub firmware_version: u32,
    pub firmware_oem_version: u8,
    pub firmware_image_length: u16,
    pub bios_mod_date: u64,
    pub firmware_flags: u32,
    pub engineering_product_name_ptr: u16,
    pub engineering_product_name_size: u8,
    pub instance_id: u16,
}

/// The bridge firmware token payload found at `p`.
pub open spec fn spec_bridge_fw_data(d: Seq<u8>, p: int) -> BridgeFwDataToken {
    BridgeFwDataToken {
        firmware_version: le32(d, p) as u32,
        firmware_oem_version: d[p + 4],
        firmware_image_length: le16(d, p + 5) as u16,
        bios_mod_date: le64(d, p + 7) as u64,
        firmware_flags: le32(d, p + 15) as u32,
        engineering_product_name_ptr: le16(d, p + 19) as u16,
        engineering_product_name_size: d[p + 21],
        instance_id: le16(d, p + 22) as u16,
    }
}

/// Pointers and sizes of the seven strings of the string token.
#[derive(Debug, Clone, Copy, PartialEq, Eq, Structural)]
pub struct StringPtrsToken {
    pub sign_on_message_ptr: u16,
    pub sign_on_message_maximum_length: u8,
    pub version_string_ptr: u16,
    pub version_string_size: u8,
    pub copyright_string_ptr: u16,
    pub copyright_string_size: u8,
    pub oem_string_ptr: u16,
    pub oem_string_size: u8,
    pub oem_vendor_name_ptr: u16,
    pub oem_vendor_name_size: u8,
    pub oem_product_name_ptr: u16,
    pub oem_product_name_size: u8,
    pub oem_product_revision_ptr: u16,
    pub oem_product_revision_size: u8,
}

/// The string token payload found at `p`.
pub open spec fn spec_string_ptrs(d: Seq<u8>, p: int) -> StringPtrsToken {
    StringPtrsToken {
        sign_on_message_ptr: le16(d, p) as u16,
        sign_on_message_maximum_length: d[p + 2],
        version_string_ptr: le16(d, p + 3) as u16,
        version_string_size: d[p + 5],
        copyright_string_ptr: le16(d, p + 6) as u16,
        copyright_string_size: d[p + 8],
        oem_string_ptr: le16(d, p + 9) as u16,
        oem_string_size: d[p + 11],
        oem_vendor_name_ptr: le16(d, p + 12) as u16,
        oem_vendor_name_size: d[p + 14],
        oem_product_name_ptr: le16(d, p + 15) as u16,
        oem_product_name_size: d[p + 17],
        oem_product_revision_ptr: le16(d, p + 18) as u16,
        oem_product_revision_size: d[p + 20],
    }
}

/// Pointer of the TMDS token.
#[derive(Debug, Clone, Copy, PartialEq, Eq, Structural)]
pub struct TmdsPtrsToken {
    pub tmds_info_table_ptr: u16,
}

/// The TMDS token payload found at `p`.
pub open spec fn spec_tmds_ptrs(d: Seq<u8>, p: int) -> TmdsPtrsToken {
    TmdsPtrsToken { tmds_info_table_ptr: le16(d, p) as u16 }
}

/// Pointers and flags of the display token.
#[derive(Debug, Clone, Copy, PartialEq, Eq, Structural)]
pub struct DisplayPtrsToken {
    pub display_scripting_table_ptr: u16,
    pub display_control_flags: DisplayControlFlags,
    pub sli_table_header_ptr: u16,
}

/// The display token payload found at `p`.
pub open spec fn spec_display_ptrs(d: Seq<u8>, p: int) -> DisplayPtrsToken {
    DisplayPtrsToken {
        display_scripting_table_ptr: le16(d, p) as u16,
        display_control_flags: DisplayControlFlags(d[p + 2]),
        sli_table_header_ptr: le16(d, p + 3) as u16,
    }
}

/// Pointers of the virtual-strap token.
#[derive(Debug, Clone, Copy, PartialEq, Eq, Structural)]
pub struct VirtualPtrsToken {
    pub virtual_strap_field_table_ptr: u16,
    pub virtual_strap_field_register: u16,
    pub translation_table_ptr: u16,
}

/// The virtual-strap token payload found at `p`.
pub open spec fn spec_virtual_ptrs(d: Seq<u8>, p: int) -> VirtualPtrsToken {
    VirtualPtrsToken {
        virtual_strap_field_table_ptr: le16(d, p) as u16,
        virtual_strap_field_register: le16(d, p + 2) as u16,
        translation_table_ptr: le16(d, p + 4) as u16,
    }
}

/// Pointer of the DisplayPort token.
#[derive(Debug, Clone, Copy, PartialEq, Eq, Structural)]
pub struct DpPtrsToken {
    pub dp_info_table_ptr: u16,
}

/// The DisplayPort token payload found at `p`.
pub open spec fn spec_dp_ptrs(d: Seq<u8>, p: int) -> DpPtrsToken {
    DpPtrsToken { dp_info_table_ptr: le16(d, p) as u16 }
}

/// Pointer of the DCB token.
#[derive(Debug, Clone, Copy, PartialEq, Eq, Structural)]
pub struct DcbPtrsToken {
    pub dcb_header_ptr: u16,
}

/// The DCB token payload found at `p`.
pub open spec fn spec_dcb_ptrs(d: Seq<u8>, p: int) -> DcbPtrsToken {
    DcbPtrsToken { dcb_header_ptr: le16(d, p) as u16 }
}

/// Pointer of the falcon ucode token.
#[derive(Debug, Clone, Copy, PartialEq, Eq, Structural)]
pub struct FalconDataToken {
    pub falcon_ucode_table_ptr: u32,
}

/// The falcon token payload found at `p`.
pub open spec fn spec_falcon_data(d: Seq<u8>, p: int) -> FalconDataToken {
    FalconDataToken { falcon_ucode_table_ptr: le32(d, p) as u32 }
}

/// The UEFI data token.
#[derive(Debug, Clone, Copy, PartialEq, Eq, Structural)]
pub struct UefiDataToken {
    pub minimum_uefi_driver_version: u32,
    pub uefi_compatibility_level: u8,
    pub uefi_flags: UefiFlags,
}

/// The UEFI token payload found at `p`.
pub open spec fn spec_uefi_data(d: Seq<u8>, p: int) -> UefiDataToken {
    UefiDataToken {
        minimum_uefi_driver_version: le32(d, p) as u32,
        uefi_compatibility_level: d[p + 4],
        uefi_flags: UefiFlags(le64(d, p + 5) as u64),
    }
}

/// The MXM data token.
#[derive(Debug, Clone, Copy, PartialEq, Eq, Structural)]
pub struct MxmDataToken {
    pub module_spec_version: u8,
    pub module_flags: ModuleFlags,
    pub config_flags: ConfigFlags,
    pub dp_drive_strength_scale: u8,
    pub mxm_digital_connector_table_ptr: u16,
    pub mxm_aux_to_ccb_table_ptr: u16,
}

/// The MXM token payload found at `p`.
pub open spec fn spec_mxm_data(d: Seq<u8>, p: int) -> MxmDataToken {
    MxmDataToken {
        module_spec_version: d[p],
        module_flags: ModuleFlags(d[p + 1]),
        config_flags: ConfigFlags(d[p + 2]),
        dp_drive_strength_scale: d[p + 3],
        mxm_digital_connector_table_ptr: le16(d, p + 4) as u16,
        mxm_aux_to_ccb_table_ptr: le16(d, p + 6) as u16,
    }
}

/// A decoded BIT token payload, one variant per known token id.
#[derive(Debug, Clone)]
pub enum BITTokenType {
    I2C(I2CPtrsToken),
    Dac(DACPtrsToken),
    Bios(BiosDataToken),
    Clock(ClockPtrsToken),
    Dfp(DfpPtrsToken),
    NvInit(NvinitPtrsToken),
    Lvds(LvdsPtrsToken),
    Memory(MemoryPtrsToken),
    Nop,
    Perf(PerfPtrsToken),
    BridgeFw(BridgeFwDataToken),
    String(StringPtrsToken),
    Tmds(TmdsPtrsToken),
    Display(DisplayPtrsToken),
    Virtual(VirtualPtrsToken),
    Ptrs32Bit(Vec<u32>),
    Dp(DpPtrsToken),
    Dcb(DcbPtrsToken),
    Falcon(FalconDataToken),
    Uefi(UefiDataToken),
    Mxm(MxmDataToken),
}

/// Bytes the payload of a token with this id occupies, or `None` for an
/// unknown id.
pub open spec fn token_payload_size(id: int) -> Option<int> {
    if id == 0x32 {
        Some(4)
    } else if id == 0x41 {
        Some(3)
    } else if id == 0x42 {
        Some(33)
    } else if id == 0x43 {
        Some(28)
    } else if id == 0x44 {
        Some(4)
    } else if id == 0x49 {
        Some(34)
    } else if id == 0x4C {
        Some(2)
    } else if id == 0x4D {
        Some(21)
    } else if id == 0x4E {
        Some(0)
    } else if id == 0x50 {
        Some(160)
    } else if id == 0x52 {
        Some(24)
    } else if id == 0x53 {
        Some(21)
    } else if id == 0x54 {
        Some(2)
    } else if id == 0x55 {
        Some(5)
    } else if id == 0x56 {
        Some(6)
    } else if id == 0x63 {
        Some(0)
    } else if id == 0x64 {
        Some(2)
    } else if id == 0x6E {
        Some(2)
    } else if id == 0x70 {
        Some(4)
    } else if id == 0x75 {
        Some(13)
    } else if id == 0x78 {
        Some(8)
    } else {
        None
    }
}

/// A token's data decodes: a zero data pointer is the explicit no-data
/// case; otherwise the id must be known and the payload present.
pub open spec fn token_data_ok(d: Seq<u8>, tok: BITToken) -> bool {
    if tok.data_pointer == 0 {
        true
    } else {
        match token_payload_size(tok.id as int) {
            Some(n) => tok.data_pointer + n <= d.len(),
            None => false,
        }
    }
}

/// The payload a token's data decodes to.
pub open spec fn token_data_matches(d: Seq<u8>, tok: BITToken, t: BITTokenType) -> bool {
    let p = tok.data_pointer as int;
    if tok.data_pointer == 0 {
        t is Nop
    } else if tok.id == 0x32 {
        t matches BITTokenType::I2C(x) && x == spec_i2c_ptrs(d, p)
    } else if tok.id == 0x41 {
        t matches BITTokenType::Dac(x) && x == spec_dac_ptrs(d, p)
    } else if tok.id == 0x42 {
        t matches BITTokenType::Bios(x) && bios_data_matches(d, p, x)
    } else if tok.id == 0x43 {
        t matches BITTokenType::Clock(x) && x == spec_clock_ptrs(d, p)
    } else if tok.id == 0x44 {
        t matches BITTokenType::Dfp(x) && x == spec_dfp_ptrs(d, p)
    } else if tok.id == 0x49 {
        t matches BITTokenType::NvInit(x) && x == spec_nvinit_ptrs(d, p)
    } else if tok.id == 0x4C {
        t matches BITTokenType::Lvds(x) && x == spec_lvds_ptrs(d, p)
    } else if tok.id == 0x4D {
        t matches BITTokenType::Memory(x) && x == spec_memory_ptrs(d, p)
    } else if tok.id == 0x4E {
        t is Nop
    } else if tok.id == 0x50 {
        t matches BITTokenType::Perf(x) && x == spec_perf_ptrs(d, p)
    } else if tok.id == 0x52 {
        t matches BITTokenType::BridgeFw(x) && x == spec_bridge_fw_data(d, p)
    } else if tok.id == 0x53 {
        t matches BITTokenType::String(x) && x == spec_string_ptrs(d, p)
    } else if tok.id == 0x54 {
        t matches BITTokenType::Tmds(x) && x == spec_tmds_ptrs(d, p)
    } else if tok.id == 0x55 {
        t matches BITTokenType::Display(x) && x == spec_display_ptrs(d, p)
    } else if tok.id == 0x56 {
        t matches BITTokenType::Virtual(x) && x == spec_virtual_ptrs(d, p)
    } else if tok.id == 0x63 {
        t matches BITTokenType::Ptrs32Bit(x) && x@.len() == 0
    } else if tok.id == 0x64 {
        t matches BITTokenType::Dp(x) && x == spec_dp_ptrs(d, p)
    } else if tok.id == 0x6E {
        t matches BITTokenType::Dcb(x) && x == spec_dcb_ptrs(d, p)
    } else if tok.id == 0x70 {
        t matches BITTokenType::Falcon(x) && x == spec_falcon_data(d, p)
    } else if tok.id == 0x75 {
        t matches BITTokenType::Uefi(x) && x == spec_uefi_data(d, p)
    } else if tok.id == 0x78 {
        t matches BITTokenType::Mxm(x) && x == spec_mxm_data(d, p)
    } else {
        false
    }
}

impl BITToken {
    /// Decodes this token's payload out of the logical stream bytes: a
    /// zero pointer means no data; a known id reads its payload at the
    /// pointer; an unknown id or a missing payload is an error.
    pub fn data(&self, source: &Vec<u8>) -> (r: Result<BITTokenType, Error>)
        ensures
            match r {
                Ok(t) => token_data_ok(source@, *self) && token_data_matches(source@, *self, t),
                Err(_) => !token_data_ok(source@, *self),
            },
    {
        let ghost d = source@;
        if self.data_pointer == 0 {
            return Ok(BITTokenType::Nop);
        }
        let p = self.data_pointer as u64;
        let size: usize = match self.id {
            0x32 => 4,
            0x41 => 3,
            0x42 => 33,
            0x43 => 28,
            0x44 => 4,
            0x49 => 34,
            0x4C => 2,
            0x4D => 21,
            0x4E => 0,
            0x50 => 160,
            0x52 => 24,
            0x53 => 21,
            0x54 => 2,
            0x55 => 5,
            0x56 => 6,
            0x63 => 0,
            0x64 => 2,
            0x6E => 2,
            0x70 => 4,
            0x75 => 13,
            0x78 => 8,
            _ => {
                return Err(
                    Error::InvalidFormat(String::from_str("unexpected BIT token identifier")),
                );
            },
        };
        match read_bytes(source, p, size) {
            Some(_) => {},
            None => {
                return Err(Error::InvalidFormat(String::from_str("BIT token data truncated")));
            },
        }
        match self.id {
            0x32 => Ok(
                BITTokenType::I2C(
                    I2CPtrsToken {
                        i2c_scripts_ptr: read_u16(source, p).unwrap(),
                        ext_hw_mon_init_ptr: read_u16(source, p + 2).unwrap(),
                    },
                ),
            ),
            0x41 => Ok(
                BITTokenType::Dac(
                    DACPtrsToken {
                        dac_data_ptr: read_u16(source, p).unwrap(),
                        dac_flags: DacFlags(read_u8(source, p + 2).unwrap()),
                    },
                ),
            ),
            0x42 => {
                let vb = read_bytes(source, p, 4).unwrap();
                let bios_version = VersionHex4([vb[0], vb[1], vb[2], vb[3]]);
                proof {
                    assert(bios_version.0@ =~= d.subrange(p as int, p as int + 4));
                }
                Ok(
                    BITTokenType::Bios(
                        BiosDataToken {
                            bios_version,
                            bios_oem_version: read_u8(source, p + 4).unwrap(),
                            bios_checksum: read_u8(source, p + 5).unwrap(),
                            int15_post_callbacks: Int15PostCallbacks(
                                read_u16(source, p + 6).unwrap(),
                            ),
                            int15_system_callbacks: Int15SystemCallbacks(
                                read_u16(source, p + 8).unwrap(),
                            ),
                            frame_count: read_u16(source, p + 10).unwrap(),
                            _reserved: read_u32(source, p + 12).unwrap(),
                            max_heads_at_post: read_u8(source, p + 16).unwrap(),
                            memory_size_report: read_u8(source, p + 17).unwrap(),
                            h_scale_factor: read_u8(source, p + 18).unwrap(),
                            v_scale_factor: read_u8(source, p + 19).unwrap(),
                            data_range_table_pointer: read_u16(source, p + 20).unwrap(),
                            rom_packs_pointer: read_u16(source, p + 22).unwrap(),
                            applied_rom_packs_pointer: read_u16(source, p + 24).unwrap(),
                            applied_rom_pack_max: read_u8(source, p + 26).unwrap(),
                            applied_rom_pack_count: read_u8(source, p + 27).unwrap(),
                            module_map_external_0: ModuleMapExternal0(
                                read_u8(source, p + 28).unwrap(),
                            ),
                            compression_data_table: read_u32(source, p + 29).unwrap(),
                        },
                    ),
                )
            },
            0x43 => Ok(
                BITTokenType::Clock(
                    ClockPtrsToken {
                        pll_info_table_ptr: read_u32(source, p).unwrap(),
                        vbe_mode_pclk_table_ptr: read_u32(source, p + 4).unwrap(),
                        clocks_table_ptr: read_u32(source, p + 8).unwrap(),
                        clocks_programming_table_ptr: read_u32(source, p + 12).unwrap(),
                        nafll_table_ptr: read_u32(source, p + 16).unwrap(),
                        adc_table_ptr: read_u32(source, p + 20).unwrap(),
                        frequency_controller_table_ptr: read_u32(source, p + 24).unwrap(),
                    },
                ),
            ),
            0x44 => Ok(
                BITTokenType::Dfp(
                    DfpPtrsToken {
                        fp_established_ptr: read_u16(source, p).unwrap(),
                        fp_table_ptr: read_u16(source, p + 2).unwrap(),
                    },
                ),
            ),
            0x49 => Ok(
                BITTokenType::NvInit(
                    NvinitPtrsToken {
                        init_script_table_ptr: read_u16(source, p).unwrap(),
                        macro_index_table_ptr: read_u16(source, p + 2).unwrap(),
                        macro_table_ptr: read_u16(source, p + 4).unwrap(),
                        condition_table_ptr: read_u16(source, p + 6).unwrap(),
                        io_condition_table_ptr: read_u16(source, p + 8).unwrap(),
                        io_flag_condition_table_ptr: read_u16(source, p + 10).unwrap(),
                        init_function_table_ptr: read_u16(source, p + 12).unwrap(),
                        vbios_private_boot_script_ptr: read_u16(source, p + 14).unwrap(),
                        data_arrays_table_ptr: read_u16(source, p + 16).unwrap(),
                        pcie_settings_script_ptr: read_u16(source, p + 18).unwrap(),
                        devinit_tables_ptr: read_u16(source, p + 20).unwrap(),
                        devinit_tables_size: read_u16(source, p + 22).unwrap(),
                        boot_scripts_ptr: read_u16(source, p + 24).unwrap(),
                        boot_scripts_size: read_u16(source, p + 26).unwrap(),
                        nvlink_configuration_data_ptr: read_u16(source, p + 28).unwrap(),
                        boot_scripts_non_gc6_ptr: read_u16(source, p + 30).unwrap(),
                        boot_scripts_size_non_gc6: read_u16(source, p + 32).unwrap(),
                    },
                ),
            ),
            0x4C => Ok(
                BITTokenType::Lvds(
                    LvdsPtrsToken { lvds_info_table_ptr: read_u16(source, p).unwrap() },
                ),
            ),
            0x4D => Ok(
                BITTokenType::Memory(
                    MemoryPtrsToken {
                        memory_strap_data_count: read_u8(source, p).unwrap(),
                        memory_strap_translation_table_ptr: read_u16(source, p + 1).unwrap(),
                        memory_information_table_ptr: read_u16(source, p + 3).unwrap(),
                        reserved: read_u64(source, p + 5).unwrap(),
                        memory_partition_information_table: read_u32(source, p + 13).unwrap(),
                        memory_script_list_ptr: read_u32(source, p + 17).unwrap(),
                    },
                ),
            ),
            0x4E => Ok(BITTokenType::Nop),
            0x50 => Ok(BITTokenType::Perf(parse_perf_ptrs(source, p))),
            0x52 => Ok(
                BITTokenType::BridgeFw(
                    BridgeFwDataToken {
                        firmware_version: read_u32(source, p).unwrap(),
                        firmware_oem_version: read_u8(source, p + 4).unwrap(),
                        firmware_image_length: read_u16(source, p + 5).unwrap(),
                        bios_mod_date: read_u64(source, p + 7).unwrap(),
                        firmware_flags: read_u32(source, p + 15).unwrap(),
                        engineering_product_name_ptr: read_u16(source, p + 19).unwrap(),
                        engineering_product_name_size: read_u8(source, p + 21).unwrap(),
                        instance_id: read_u16(source, p + 22).unwrap(),
                    },
                ),
            ),
            0x53 => Ok(
                BITTokenType::String(
                    StringPtrsToken {
                        sign_on_message_ptr: read_u16(source, p).unwrap(),
                        sign_on_message_maximum_length: read_u8(source, p + 2).unwrap(),
                        version_string_ptr: read_u16(source, p + 3).unwrap(),
                        version_string_size: read_u8(source, p + 5).unwrap(),
                        copyright_string_ptr: read_u16(source, p + 6).unwrap(),
                        copyright_string_size: read_u8(source, p + 8).unwrap(),
                        oem_string_ptr: read_u16(source, p + 9).unwrap(),
                        oem_string_size: read_u8(source, p + 11).unwrap(),
                        oem_vendor_name_ptr: read_u16(source, p + 12).unwrap(),
                        oem_vendor_name_size: read_u8(source, p + 14).unwrap(),
                        oem_product_name_ptr: read_u16(source, p + 15).unwrap(),
                        oem_product_name_size: read_u8(source, p + 17).unwrap(),
                        oem_product_revision_ptr: read_u16(source, p + 18).unwrap(),
                        oem_product_revision_size: read_u8(source, p + 20).unwrap(),
                    },
                ),
            ),
            0x54 => Ok(
                BITTokenType::Tmds(
                    TmdsPtrsToken { tmds_info_table_ptr: read_u16(source, p).unwrap() },
                ),
            ),
            0x55 => Ok(
                BITTokenType::Display(
                    DisplayPtrsToken {
                        display_scripting_table_ptr: read_u16(source, p).unwrap(),
                        display_control_flags: DisplayControlFlags(
                            read_u8(source, p + 2).unwrap(),
                        ),
                        sli_table_header_ptr: read_u16(source, p + 3).unwrap(),
                    },
                ),
            ),
            0x56 => Ok(
                BITTokenType::Virtual(
                    VirtualPtrsToken {
                        virtual_strap_field_table_ptr: read_u16(source, p).unwrap(),
                        virtual_strap_field_register: read_u16(source, p + 2).unwrap(),
                        translation_table_ptr: read_u16(source, p + 4).unwrap(),
                    },
                ),
            ),
            0x63 => Ok(BITTokenType::Ptrs32Bit(Vec::new())),
            0x64 => Ok(
                BITTokenType::Dp(DpPtrsToken { dp_info_table_ptr: read_u16(source, p).unwrap() }),
            ),
            0x6E => Ok(
                BITTokenType::Dcb(
                    DcbPtrsToken { dcb_header_ptr: read_u16(source, p).unwrap() },
                ),
            ),
            0x70 => Ok(
                BITTokenType::Falcon(
                    FalconDataToken { falcon_ucode_table_ptr: read_u32(source, p).unwrap() },
                ),
            ),
            0x75 => Ok(
                BITTokenType::Uefi(
                    UefiDataToken {
                        minimum_uefi_driver_version: read_u32(source, p).unwrap(),
                        uefi_compatibility_level: read_u8(source, p + 4).unwrap(),
                        uefi_flags: UefiFlags(read_u64(source, p + 5).unwrap()),
                    },
                ),
            ),
            0x78 => Ok(
                BITTokenType::Mxm(
                    MxmDataToken {
                        module_spec_version: read_u8(source, p).unwrap(),
                        module_flags: ModuleFlags(read_u8(source, p + 1).unwrap()),
                        config_flags: ConfigFlags(read_u8(source, p + 2).unwrap()),
                        dp_drive_strength_scale: read_u8(source, p + 3).unwrap(),
                        mxm_digital_connector_table_ptr: read_u16(source, p + 4).unwrap(),
                        mxm_aux_to_ccb_table_ptr: read_u16(source, p + 6).unwrap(),
                    },
                ),
            ),
            _ => Err(Error::InvalidFormat(String::from_str("unexpected BIT token identifier"))),
        }
    }
}

/// Reads the 40 performance table pointers at `p`.
fn parse_perf_ptrs(source: &Vec<u8>, p: u64) -> (r: PerfPtrsToken)
    requires
        p + 160 <= source@.len(),
    ensures
        r == spec_perf_ptrs(source@, p as int),
{
    proof {
        vstd::std_specs::vec::axiom_spec_len(source);
    }
    PerfPtrsToken {
        performance_table_ptr: read_u32(source, p).unwrap(),
        memory_clock_table_ptr: read_u32(source, p + 4).unwrap(),
        memory_tweak_table_ptr: read_u32(source, p + 8).unwrap(),
        power_control_table_ptr: read_u32(source, p + 12).unwrap(),
        thermal_control_table_ptr: read_u32(source, p + 16).unwrap(),
        thermal_device_table_ptr: read_u32(source, p + 20).unwrap(),
        thermal_coolers_table_ptr: read_u32(source, p + 24).unwrap(),
        performance_settings_script_ptr: read_u32(source, p + 28).unwrap(),
        continuous_virtual_binning_table_ptr: read_u32(source, p + 32).unwrap(),
        ventura_table_ptr: read_u32(source, p + 36).unwrap(),
        power_sensors_table_ptr: read_u32(source, p + 40).unwrap(),
        power_policy_table_ptr: read_u32(source, p + 44).unwrap(),
        p_state_clock_range_table_ptr: read_u32(source, p + 48).unwrap(),
        voltage_frequency_table_ptr: read_u32(source, p + 52).unwrap(),
        virtual_p_state_table_ptr: read_u32(source, p + 56).unwrap(),
        power_topology_table_ptr: read_u32(source, p + 60).unwrap(),
        power_leakage_table_ptr: read_u32(source, p + 64).unwrap(),
        performance_test_specifications_table_ptr: read_u32(source, p + 68).unwrap(),
        thermal_channel_table_ptr: read_u32(source, p + 72).unwrap(),
        thermal_adjustment_table_ptr: read_u32(source, p + 76).unwrap(),
        thermal_policy_table_ptr: read_u32(source, p + 80).unwrap(),
        p_state_memory_clock_frequency_table_ptr: read_u32(source, p + 84).unwrap(),
        fan_cooler_table_ptr: read_u32(source, p + 88).unwrap(),
        fan_policy_table_ptr: read_u32(source, p + 92).unwrap(),
        didt_table_ptr: read_u32(source, p + 96).unwrap(),
        fan_test_table_ptr: read_u32(source, p + 100).unwrap(),
        voltage_rail_table_ptr: read_u32(source, p + 104).unwrap(),
        voltage_device_table_ptr: read_u32(source, p + 108).unwrap(),
        voltage_policy_table_ptr: read_u32(source, p + 112).unwrap(),
        low_power_table_ptr: read_u32(source, p + 116).unwrap(),
        low_power_pcie_table_ptr: read_u32(source, p + 120).unwrap(),
        low_power_pcie_platform_table_ptr: read_u32(source, p + 124).unwrap(),
        low_power_gr_table_ptr: read_u32(source, p + 128).unwrap(),
        low_power_ms_table_ptr: read_u32(source, p + 132).unwrap(),
        low_power_di_table_ptr: read_u32(source, p + 136).unwrap(),
        low_power_gc6_table_ptr: read_u32(source, p + 140).unwrap(),
        low_power_psi_table_ptr: read_u32(source, p + 144).unwrap(),
        thermal_monitor_table_ptr: read_u32(source, p + 148).unwrap(),
        overclocking_table_ptr: read_u32(source, p + 152).unwrap(),
        low_power_nvlink_table_ptr: read_u32(source, p + 156).unwrap(),
    }
}

/// The seven strings of the string token, each read from its own pointer
/// and size.
#[derive(Debug, Clone)]
pub struct StringToken {
    pub sign_on_message: Option<String>,
    pub version_string: Option<String>,
    pub copyright_string: Option<String>,
    pub oem_string: Option<String>,
    pub oem_vendor_name: Option<String>,
    pub oem_product_name: Option<String>,
    pub oem_product_revision: Option<String>,
}

/// A string field with a nonzero pointer has its bytes present.
pub open spec fn string_field_ok(d: Seq<u8>, ptr: int, size: int) -> bool {
    ptr > 0 ==> ptr + size <= d.len()
}

/// What one string field decodes to: absent for a zero pointer, else the
/// NUL-terminated text of its byte window.
pub open spec fn string_field_matches(d: Seq<u8>, ptr: int, size: int, f: Option<String>) -> bool {
    if ptr == 0 {
        f is None
    } else {
        c_string_matches(d.subrange(ptr, ptr + size), f)
    }
}

/// The string token decodes: every referenced byte window is present.
pub open spec fn string_token_ok(d: Seq<u8>, ptrs: StringPtrsToken) -> bool {
    &&& string_field_ok(d, ptrs.sign_on_message_ptr as int, ptrs.sign_on_message_maximum_length as int)
    &&& string_field_ok(d, ptrs.version_string_ptr as int, ptrs.version_string_size as int)
    &&& string_field_ok(d, ptrs.copyright_string_ptr as int, ptrs.copyright_string_size as int)
    &&& string_field_ok(d, ptrs.oem_string_ptr as int, ptrs.oem_string_size as int)
    &&& string_field_ok(d, ptrs.oem_vendor_name_ptr as int, ptrs.oem_vendor_name_size as int)
    &&& string_field_ok(d, ptrs.oem_product_name_ptr as int, ptrs.oem_product_name_size as int)
    &&& string_field_ok(
        d,
        ptrs.oem_product_revision_ptr as int,
        ptrs.oem_product_revision_size as int,
    )
}

/// The fields the string token holds.
pub open spec fn string_token_matches(d: Seq<u8>, ptrs: StringPtrsToken, v: StringToken) -> bool {
    &&& string_field_matches(
        d,
        ptrs.sign_on_message_ptr as int,
        ptrs.sign_on_message_maximum_length as int,
        v.sign_on_message,
    )
    &&& string_field_matches(
        d,
        ptrs.version_string_ptr as int,
        ptrs.version_string_size as int,
        v.version_string,
    )
    &&& string_field_matches(
        d,
        ptrs.copyright_string_ptr as int,
        ptrs.copyright_string_size as int,
        v.copyright_string,
    )
    &&& string_field_matches(d, ptrs.oem_string_ptr as int, ptrs.oem_string_size as int, v.oem_string)
    &&& string_field_matches(
        d,
        ptrs.oem_vendor_name_ptr as int,
        ptrs.oem_vendor_name_size as int,
        v.oem_vendor_name,
    )
    &&& string_field_matches(
        d,
        ptrs.oem_product_name_ptr as int,
        ptrs.oem_product_name_size as int,
        v.oem_product_name,
    )
    &&& string_field_matches(
        d,
        ptrs.oem_product_revision_ptr as int,
        ptrs.oem_product_revision_size as int,
        v.oem_product_revision,
    )
}

/// Reads one of the string token's fields.
fn parse_string_field(source: &Vec<u8>, ptr: u16, size: u8) -> (r: Result<Option<String>, Error>)
    ensures
        match r {
            Ok(f) => string_field_ok(source@, ptr as int, size as int) && string_field_matches(
                source@,
                ptr as int,
                size as int,
                f,
            ),
            Err(_) => !string_field_ok(source@, ptr as int, size as int),
        },
{
    if ptr == 0 {
        return Ok(None);
    }
    let bytes = match read_bytes(source, ptr as u64, size as usize) {
        Some(v) => v,
        None => {
            return Err(Error::InvalidFormat(String::from_str("string field truncated")));
        },
    };
    Ok(try_map_to_string(bytes))
}

/// Decodes the string token's seven strings out of the logical stream,
/// succeeding exactly when every referenced window is present.
pub fn parse_string_token(source: &Vec<u8>, ptrs: &StringPtrsToken) -> (r: Result<
    StringToken,
    Error,
>)
    ensures
        match r {
            Ok(v) => string_token_ok(source@, *ptrs) && string_token_matches(source@, *ptrs, v),
            Err(_) => !string_token_ok(source@, *ptrs),
        },
{
    let sign_on_message = match parse_string_field(
        source,
        ptrs.sign_on_message_ptr,
        ptrs.sign_on_message_maximum_length,
    ) {
        Ok(v) => v,
        Err(e) => {
            return Err(e);
        },
    };
    let version_string = match parse_string_field(
        source,
        ptrs.version_string_ptr,
        ptrs.version_string_size,
    ) {
        Ok(v) => v,
        Err(e) => {
            return Err(e);
        },
    };
    let copyright_string = match parse_string_field(
        source,
        ptrs.copyright_string_ptr,
        ptrs.copyright_string_size,
    ) {
        Ok(v) => v,
        Err(e) => {
            return Err(e);
        },
    };
    let oem_string = match parse_string_field(source, ptrs.oem_string_ptr, ptrs.oem_string_size) {
        Ok(v) => v,
        Err(e) => {
            return Err(e);
        },
    };
    let oem_vendor_name = match parse_string_field(
        source,
        ptrs.oem_vendor_name_ptr,
        ptrs.oem_vendor_name_size,
    ) {
        Ok(v) => v,
        Err(e) => {
            return Err(e);
        },
    };
    let oem_product_name = match parse_string_field(
        source,
        ptrs.oem_product_name_ptr,
        ptrs.oem_product_name_size,
    ) {
        Ok(v) => v,
        Err(e) => {
            return Err(e);
        },
    };
    let oem_product_revision = match parse_string_field(
        source,
        ptrs.oem_product_revision_ptr,
        ptrs.oem_product_revision_size,
    ) {
        Ok(v) => v,
        Err(e) => {
            return Err(e);
        },
    };
    Ok(
        StringToken {
            sign_on_message,
            version_string,
            copyright_string,
            oem_string,
            oem_vendor_name,
            oem_product_name,
            oem_product_revision,
        },
    )
}

/// Header of the PLL information table.
#[derive(Debug, Clone, Copy, PartialEq, Eq, Structural)]
pub struct PllInfoHeader {
    pub version: u8,
    pub header_size: u8,
    pub entry_size: u8,
    pub entry_count: u8,
}

/// One 19-byte PLL information entry.
#[derive(Debug, Clone, Copy, PartialEq, Eq, Structural)]
pub struct PllInfoEntry {
    pub id: u8,
    pub ref_min_mhz: u16,
    pub ref_max_mhz: u16,
    pub vco_min_mhz: u16,
    pub vco_max_mhz: u16,
    pub update_min_mhz: u16,
    pub update_max_mhz: u16,
    pub m_min: u8,
    pub m_max: u8,
    pub n_min: u8,
    pub n_max: u8,
    pub pl_min: u8,
    pub pl_max: u8,
}

/// The PLL entry found at `q`.
pub open spec fn spec_pll_entry(d: Seq<u8>, q: int) -> PllInfoEntry {
    PllInfoEntry {
        id: d[q],
        ref_min_mhz: le16(d, q + 1) as u16,
        ref_max_mhz: le16(d, q + 3) as u16,
        vco_min_mhz: le16(d, q + 5) as u16,
        vco_max_mhz: le16(d, q + 7) as u16,
        update_min_mhz: le16(d, q + 9) as u16,
        update_max_mhz: le16(d, q + 11) as u16,
        m_min: d[q + 13],
        m_max: d[q + 14],
        n_min: d[q + 15],
        n_max: d[q + 16],
        pl_min: d[q + 17],
        pl_max: d[q + 18],
    }
}

/// The PLL information table.
#[derive(Debug, Clone)]
pub struct PllInfo {
    pub header: PllInfoHeader,
    pub entries: Vec<PllInfoEntry>,
}

/// A PLL information table decodes at `p`: the fixed 19-byte entry size
/// and all declared entries present.
pub open spec fn pll_ok(d: Seq<u8>, p: int) -> bool {
    &&& 0 <= p
    &&& p + 4 <= d.len()
    &&& d[p + 2] == 19
    &&& p + 4 + 19 * (d[p + 3] as int) <= d.len()
}

/// The fields a PLL information table decoded at `p` holds.
pub open spec fn pll_matches(d: Seq<u8>, p: int, v: PllInfo) -> bool {
    &&& v.header.version == d[p]
    &&& v.header.header_size == d[p + 1]
    &&& v.header.entry_size == d[p + 2]
    &&& v.header.entry_count == d[p + 3]
    &&& v.entries@.len() == d[p + 3]
    &&& (forall|i: int|
        0 <= i < d[p + 3] ==> #[trigger] v.entries@[i] == spec_pll_entry(d, p + 4 + 19 * i))
}

/// Decodes the PLL information table at the clock token's pointer,
/// succeeding exactly on the inputs `pll_ok` admits.
pub fn parse_pll_info(source: &Vec<u8>, ptrs: &ClockPtrsToken) -> (r: Result<PllInfo, Error>)
    ensures
        match r {
            Ok(v) => pll_ok(source@, ptrs.pll_info_table_ptr as int) && pll_matches(
                source@,
                ptrs.pll_info_table_ptr as int,
                v,
            ),
            Err(_) => !pll_ok(source@, ptrs.pll_info_table_ptr as int),
        },
{
    let ghost d = source@;
    proof {
        vstd::std_specs::vec::axiom_spec_len(source);
    }
    let p = ptrs.pll_info_table_ptr as u64;
    let head = match read_bytes(source, p, 4) {
        Some(v) => v,
        None => {
            return Err(Error::InvalidFormat(String::from_str("PLL table truncated")));
        },
    };
    if head[2] != 19 {
        return Err(Error::InvalidFormat(String::from_str("PLL entry size unexpected")));
    }
    let n = head[3] as usize;
    match read_bytes(source, p + 4, 19 * n) {
        Some(_) => {},
        None => {
            return Err(Error::InvalidFormat(String::from_str("PLL entries truncated")));
        },
    }
    let mut entries: Vec<PllInfoEntry> = Vec::new();
    let mut i: usize = 0;
    while i < n
        invariant
            d == source@,
            d.len() <= u64::MAX,
            n == d[p as int + 3],
            p + 4 + 19 * n <= d.len(),
            i <= n,
            entries@.len() == i,
            forall|j: int|
                0 <= j < i ==> #[trigger] entries@[j] == spec_pll_entry(d, p + 4 + 19 * j),
        decreases n - i,
    {
        let q = p + 4 + 19 * i as u64;
        let e = PllInfoEntry {
            id: read_u8(source, q).unwrap(),
            ref_min_mhz: read_u16(source, q + 1).unwrap(),
            ref_max_mhz: read_u16(source, q + 3).unwrap(),
            vco_min_mhz: read_u16(source, q + 5).unwrap(),
            vco_max_mhz: read_u16(source, q + 7).unwrap(),
            update_min_mhz: read_u16(source, q + 9).unwrap(),
            update_max_mhz: read_u16(source, q + 11).unwrap(),
            m_min: read_u8(source, q + 13).unwrap(),
            m_max: read_u8(source, q + 14).unwrap(),
            n_min: read_u8(source, q + 15).unwrap(),
            n_max: read_u8(source, q + 16).unwrap(),
            pl_min: read_u8(source, q + 17).unwrap(),
            pl_max: read_u8(source, q + 18).unwrap(),
        };
        entries.push(e);
        i = i + 1;
    }
    let header = PllInfoHeader {
        version: head[0],
        header_size: head[1],
        entry_size: head[2],
        entry_count: head[3],
    };
    Ok(PllInfo { header, entries })
}

} // verus!
