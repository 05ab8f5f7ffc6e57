//! The device control block (DCB) and the tables its header points at:
//! GPIO assignments, I2C devices and connectors, all addressed in the
//! stitched logical address space.

use crate::bytes::{le16, le32, read_bytes, read_u16, read_u32, read_u8};
use crate::Error;
use vstd::prelude::*;

verus! {

/// Signature inside the DCB header.
pub const DCB_SIGNATURE: [u8; 4] = [0xCB, 0xBD, 0xDC, 0x4E];

/// Raw DCB feature flags.
#[derive(Debug, Clone, Copy, PartialEq, Eq, Structural)]
pub struct DeviceControlBlockFlags(pub u8);

/// The DCB header: version, geometry and the pointers into the sibling
/// tables.
#[derive(Debug, Clone)]
pub struct DeviceControlBlockHeader {
    pub offset_in_region: u64,
    pub version: u8,
    pub header_size: u8,
    pub entry_count: u8,
    pub entry_size: u8,
    pub communications_control_block_pointer: u16,
    pub signature: Vec<u8>,
    pub gpio_assignment_table_pointer: u16,
    pub input_devices_table_pointer: u16,
    pub personal_cinema_table_pointer: u16,
    pub spread_spectrum_table_pointer: u16,
    pub i2c_devices_table_pointer: u16,
    pub connector_table_pointer: u16,
    pub flags: DeviceControlBlockFlags,
    pub hdtv_translation_table_pointer: u16,
    pub switched_outputs_table_pointer: u16,
}

/// The raw display path word of a device entry; its low nibble of the
/// most significant byte carries the display type.
#[derive(Debug, Clone, Copy, PartialEq, Eq, Structural)]
pub struct DisplayPathInformation(pub u32);

/// The display type nibble of a display path word.
pub open spec fn spec_display_type(w: int) -> int {
    (w / 0x100_0000) % 16
}

impl DisplayPathInformation {
    /// The display type nibble of this path word.
    pub fn display_type_raw(&self) -> (r: u8)
        ensures
            r as int == spec_display_type(self.0 as int),
    {
        let x = self.0;
        proof {
            assert(((x >> 24u32) & 0xF) == (x / 0x100_0000) % 16) by (bit_vector);
        }
        ((x >> 24) & 0xF) as u8
    }
}

/// True for the display type nibbles the device entry decoder knows.
pub open spec fn display_type_known(t: int) -> bool {
    t == 0x0 || t == 0x1 || t == 0x2 || t == 0x3 || t == 0x5 || t == 0x6 || t == 0xE || t == 0xF
}

/// Raw device-specific word of a flat-panel entry.
#[derive(Debug, Clone, Copy, PartialEq, Eq, Structural)]
pub struct DfpDeviceSpecificInformation(pub u32);

/// Raw device-specific word of a TV entry.
#[derive(Debug, Clone, Copy, PartialEq, Eq, Structural)]
pub struct TvDeviceSpecificInformation(pub u32);

/// The device-specific half of a device entry, keyed by display type.
#[derive(Debug, Clone, Copy, PartialEq, Eq, Structural)]
pub enum DeviceSpecificInformation {
    Crt(u32),
    Dfp(DfpDeviceSpecificInformation),
    Tv(TvDeviceSpecificInformation),
    Extra(u32),
}

/// One 8-byte device entry: the device-specific word then the display
/// path word.
#[derive(Debug, Clone, Copy, PartialEq, Eq, Structural)]
pub struct DeviceEntry {
    pub display_path_information: DisplayPathInformation,
    pub device_specific_information: DeviceSpecificInformation,
}

/// The device entry found at `e`.
pub open spec fn spec_device_entry(d: Seq<u8>, e: int) -> DeviceEntry {
    let dsi = le32(d, e) as u32;
    let dp = le32(d, e + 4) as u32;
    let t = spec_display_type(dp as int);
    DeviceEntry {
        display_path_information: DisplayPathInformation(dp),
        device_specific_information: if t == 0x0 {
            DeviceSpecificInformation::Crt(dsi)
        } else if t == 0x2 || t == 0x3 || t == 0x5 || t == 0x6 {
            DeviceSpecificInformation::Dfp(DfpDeviceSpecificInformation(dsi))
        } else if t == 0x1 {
            DeviceSpecificInformation::Tv(TvDeviceSpecificInformation(dsi))
        } else {
            DeviceSpecificInformation::Extra(dsi)
        },
    }
}

/// The DCB: header, the byte after the header, and the device entries.
#[derive(Debug, Clone)]
pub struct DeviceControlBlock {
    pub offset_in_region: u64,
    pub header: DeviceControlBlockHeader,
    pub unknown: u8,
    pub entries: Vec<DeviceEntry>,
}

/// A DCB decodes at `t`: the signature six bytes in, the header-sized
/// skip, all entries present and every display type nibble known.
pub open spec fn dcb_ok(d: Seq<u8>, t: int) -> bool {
    let hs = d[t + 1] as int;
    let ec = d[t + 2] as int;
    &&& 0 <= t
    &&& t + 27 <= d.len()
    &&& d[t + 6] == 0xCB
    &&& d[t + 7] == 0xBD
    &&& d[t + 8] == 0xDC
    &&& d[t + 9] == 0x4E
    &&& t + hs + 1 + 8 * ec <= d.len()
    &&& (forall|i: int|
        0 <= i < ec ==> display_type_known(
            spec_display_type(#[trigger] le32(d, t + hs + 1 + 8 * i + 4)),
        ))
}

/// Where a successful DCB decode leaves the stream: one past the last
/// device entry.
pub open spec fn dcb_end(d: Seq<u8>, t: int) -> int {
    t + (d[t + 1] as int) + 1 + 8 * (d[t + 2] as int)
}

/// The fields a DCB decoded at `t` holds.
pub open spec fn dcb_matches(d: Seq<u8>, t: int, v: DeviceControlBlock) -> bool {
    let hs = d[t + 1] as int;
    let ec = d[t + 2] as int;
    &&& v.offset_in_region == t
    &&& v.header.offset_in_region == t
    &&& v.header.version == d[t]
    &&& v.header.header_size == d[t + 1]
    &&& v.header.entry_count == d[t + 2]
    &&& v.header.entry_size == d[t + 3]
    &&& v.header.communications_control_block_pointer == le16(d, t + 4)
    &&& v.header.signature@ == d.subrange(t + 6, t + 10)
    &&& v.header.gpio_assignment_table_pointer == le16(d, t + 10)
    &&& v.header.input_devices_table_pointer == le16(d, t + 12)
    &&& v.header.personal_cinema_table_pointer == le16(d, t + 14)
    &&& v.header.spread_spectrum_table_pointer == le16(d, t + 16)
    &&& v.header.i2c_devices_table_pointer == le16(d, t + 18)
    &&& v.header.connector_table_pointer == le16(d, t + 20)
    &&& v.header.flags.0 == d[t + 22]
    &&& v.header.hdtv_translation_table_pointer == le16(d, t + 23)
    &&& v.header.switched_outputs_table_pointer == le16(d, t + 25)
    &&& v.unknown == d[t + hs]
    &&& v.entries@.len() == ec
    &&& (forall|i: int|
        0 <= i < ec ==> #[trigger] v.entries@[i] == spec_device_entry(d, t + hs + 1 + 8 * i))
}

/// Decodes the DCB at `t`, succeeding exactly on the inputs `dcb_ok`
/// admits; on success the stream continues at `dcb_end`.
pub fn parse_device_control_block(source: &Vec<u8>, t: u64) -> (r: Result<
    (DeviceControlBlock, u64),
    Error,
>)
    ensures
        match r {
            Ok((v, end)) => dcb_ok(source@, t as int) && dcb_matches(source@, t as int, v) && end
                == dcb_end(source@, t as int),
            Err(_) => !dcb_ok(source@, t as int),
        },
{
    let ghost d = source@;
    proof {
        vstd::std_specs::vec::axiom_spec_len(source);
    }
    let head = match read_bytes(source, t, 27) {
        Some(v) => v,
        None => {
            return Err(Error::InvalidFormat(String::from_str("DCB truncated")));
        },
    };
    if !(head[6] == 0xCB && head[7] == 0xBD && head[8] == 0xDC && head[9] == 0x4E) {
        return Err(Error::InvalidFormat(String::from_str("DCB signature mismatch")));
    }
    let hs = head[1];
    let ec = head[2];
    let skip = match t.checked_add(hs as u64) {
        Some(v) => v,
        None => {
            return Err(Error::InvalidFormat(String::from_str("DCB truncated")));
        },
    };
    let unknown = match read_u8(source, skip) {
        Some(v) => v,
        None => {
            return Err(Error::InvalidFormat(String::from_str("DCB truncated")));
        },
    };
    match read_bytes(source, skip + 1, 8 * ec as usize) {
        Some(_) => {},
        None => {
            return Err(Error::InvalidFormat(String::from_str("DCB entries truncated")));
        },
    }
    let base = skip + 1;
    let mut entries: Vec<DeviceEntry> = Vec::new();
    let mut i: usize = 0;
    let n = ec as usize;
    while i < n
        invariant
            d == source@,
            d.len() <= u64::MAX,
            n == d[t as int + 2],
            base == t + d[t as int + 1] + 1,
            base + 8 * n <= d.len(),
            i <= n,
            entries@.len() == i,
            forall|j: int|
                0 <= j < i ==> display_type_known(
                    spec_display_type(#[trigger] le32(d, base + 8 * j + 4)),
                ),
            forall|j: int|
                0 <= j < i ==> #[trigger] entries@[j] == spec_device_entry(d, base + 8 * j),
        decreases n - i,
    {
        let e = base + 8 * i as u64;
        let dsi = read_u32(source, e).unwrap();
        let dp = read_u32(source, e + 4).unwrap();
        let path = DisplayPathInformation(dp);
        let nibble = path.display_type_raw();
        let specific = match nibble {
            0x0 => DeviceSpecificInformation::Crt(dsi),
            0x2 => DeviceSpecificInformation::Dfp(DfpDeviceSpecificInformation(dsi)),
            0x3 => DeviceSpecificInformation::Dfp(DfpDeviceSpecificInformation(dsi)),
            0x5 => DeviceSpecificInformation::Dfp(DfpDeviceSpecificInformation(dsi)),
            0x6 => DeviceSpecificInformation::Dfp(DfpDeviceSpecificInformation(dsi)),
            0x1 => DeviceSpecificInformation::Tv(TvDeviceSpecificInformation(dsi)),
            0xE => DeviceSpecificInformation::Extra(dsi),
            0xF => DeviceSpecificInformation::Extra(dsi),
            _ => {
                return Err(Error::InvalidFormat(String::from_str("DCB display type unknown")));
            },
        };
        entries.push(
            DeviceEntry {
                display_path_information: path,
                device_specific_information: specific,
            },
        );
        i = i + 1;
    }
    let header = DeviceControlBlockHeader {
        offset_in_region: t,
        version: head[0],
        header_size: hs,
        entry_count: ec,
        entry_size: head[3],
        communications_control_block_pointer: read_u16(source, t + 4).unwrap(),
        signature: read_bytes(source, t + 6, 4).unwrap(),
        gpio_assignment_table_pointer: read_u16(source, t + 10).unwrap(),
        input_devices_table_pointer: read_u16(source, t + 12).unwrap(),
        personal_cinema_table_pointer: read_u16(source, t + 14).unwrap(),
        spread_spectrum_table_pointer: read_u16(source, t + 16).unwrap(),
        i2c_devices_table_pointer: read_u16(source, t + 18).unwrap(),
        connector_table_pointer: read_u16(source, t + 20).unwrap(),
        flags: DeviceControlBlockFlags(head[22]),
        hdtv_translation_table_pointer: read_u16(source, t + 23).unwrap(),
        switched_outputs_table_pointer: read_u16(source, t + 25).unwrap(),
    };
    Ok((DeviceControlBlock { offset_in_region: t, header, unknown, entries }, base + 8 * ec as u64))
}

/// Raw GPIO pin byte.
#[derive(Debug, Clone, Copy, PartialEq, Eq, Structural)]
pub struct GpioEntryPin(pub u8);

/// Raw GPIO input byte.
#[derive(Debug, Clone, Copy, PartialEq, Eq, Structural)]
pub struct GpioEntryInput(pub u8);

/// Raw GPIO miscellany byte.
#[derive(Debug, Clone, Copy, PartialEq, Eq, Structural)]
pub struct GpioEntryMisc(pub u8);

/// Header of the GPIO assignment table.
#[derive(Debug, Clone, Copy, PartialEq, Eq, Structural)]
pub struct GpioAssignmentTableHeader {
    pub version: u8,
    pub header_size: u8,
    pub entry_count: u8,
    pub entry_size: u8,
    pub ext_gpio_master: u16,
}

/// One GPIO assignment entry; its five leading bytes, the rest of the
/// declared entry size being padding.
#[derive(Debug, Clone, Copy, PartialEq, Eq, Structural)]
pub struct GpioAssignmentTableEntry {
    pub pin: GpioEntryPin,
    pub function_raw: u8,
    pub output: u8,
    pub input: GpioEntryInput,
    pub misc: GpioEntryMisc,
}

/// The GPIO entry found at `q`.
pub open spec fn spec_gpio_entry(d: Seq<u8>, q: int) -> GpioAssignmentTableEntry {
    GpioAssignmentTableEntry {
        pin: GpioEntryPin(d[q]),
        function_raw: d[q + 1],
        output: d[q + 2],
        input: GpioEntryInput(d[q + 3]),
        misc: GpioEntryMisc(d[q + 4]),
    }
}

/// The GPIO assignment table.
#[derive(Debug, Clone)]
pub struct GpioAssignmentTable {
    pub header: GpioAssignmentTableHeader,
    pub entries: Vec<GpioAssignmentTableEntry>,
}

/// A GPIO assignment table decodes at `p`: a header of at least 6 bytes,
/// entries of at least 5 bytes, all present.
pub open spec fn gpio_ok(d: Seq<u8>, p: int) -> bool {
    let hs = d[p + 1] as int;
    let ec = d[p + 2] as int;
    let es = d[p + 3] as int;
    &&& 0 <= p
    &&& p + 6 <= d.len()
    &&& hs >= 6
    &&& es >= 5
    &&& p + hs + es * ec <= d.len()
}

/// The fields a GPIO assignment table decoded at `p` holds.
pub open spec fn gpio_matches(d: Seq<u8>, p: int, v: GpioAssignmentTable) -> bool {
    let hs = d[p + 1] as int;
    let ec = d[p + 2] as int;
    let es = d[p + 3] as int;
    &&& v.header.version == d[p]
    &&& v.header.header_size == d[p + 1]
    &&& v.header.entry_count == d[p + 2]
    &&& v.header.entry_size == d[p + 3]
    &&& v.header.ext_gpio_master == le16(d, p + 4)
    &&& v.entries@.len() == ec
    &&& (forall|i: int|
        0 <= i < ec ==> #[trigger] v.entries@[i] == spec_gpio_entry(d, p + hs + es * i))
}

/// Decodes the GPIO assignment table at `p`, succeeding exactly on the
/// inputs `gpio_ok` admits.
pub fn parse_gpio_assignment_table(source: &Vec<u8>, p: u64) -> (r: Result<
    GpioAssignmentTable,
    Error,
>)
    ensures
        match r {
            Ok(v) => gpio_ok(source@, p as int) && gpio_matches(source@, p as int, v),
            Err(_) => !gpio_ok(source@, p as int),
        },
{
    let ghost d = source@;
    proof {
        vstd::std_specs::vec::axiom_spec_len(source);
    }
    let head = match read_bytes(source, p, 6) {
        Some(v) => v,
        None => {
            return Err(Error::InvalidFormat(String::from_str("GPIO table truncated")));
        },
    };
    let hs = head[1];
    let ec = head[2];
    let es = head[3];
    if hs < 6 {
        return Err(Error::InvalidFormat(String::from_str("GPIO header size too small")));
    }
    if es < 5 {
        return Err(Error::InvalidFormat(String::from_str("GPIO entry size too small")));
    }
    let base = match p.checked_add(hs as u64) {
        Some(v) => v,
        None => {
            return Err(Error::InvalidFormat(String::from_str("GPIO entries truncated")));
        },
    };
    proof {
        assert((es as int) * (ec as int) <= 65025) by (nonlinear_arith)
            requires
                es as int <= 255,
                ec as int <= 255,
                es as int >= 0,
                ec as int >= 0,
        ;
    }
    match read_bytes(source, base, es as usize * ec as usize) {
        Some(_) => {},
        None => {
            return Err(Error::InvalidFormat(String::from_str("GPIO entries truncated")));
        },
    }
    let mut entries: Vec<GpioAssignmentTableEntry> = Vec::new();
    let mut i: usize = 0;
    let n = ec as usize;
    while i < n
        invariant
            d == source@,
            d.len() <= u64::MAX,
            n == d[p as int + 2],
            es == d[p as int + 3],
            es >= 5,
            base == p + d[p as int + 1],
            base + es * n <= d.len(),
            i <= n,
            entries@.len() == i,
            forall|j: int|
                0 <= j < i ==> #[trigger] entries@[j] == spec_gpio_entry(d, base + es * j),
        decreases n - i,
    {
        proof {
            assert(es as int * (i + 1) <= es as int * n as int) by (nonlinear_arith)
                requires
                    es >= 5,
                    0 <= i,
                    i < n,
            ;
            assert(es as int * (i + 1) == es as int * i as int + es as int) by (nonlinear_arith);
            assert(es as int * i as int >= 0) by (nonlinear_arith)
                requires
                    es >= 0,
                    i >= 0,
            ;
        }
        let q = base + es as u64 * i as u64;
        let e = GpioAssignmentTableEntry {
            pin: GpioEntryPin(read_u8(source, q).unwrap()),
            function_raw: read_u8(source, q + 1).unwrap(),
            output: read_u8(source, q + 2).unwrap(),
            input: GpioEntryInput(read_u8(source, q + 3).unwrap()),
            misc: GpioEntryMisc(read_u8(source, q + 4).unwrap()),
        };
        entries.push(e);
        i = i + 1;
    }
    let header = GpioAssignmentTableHeader {
        version: head[0],
        header_size: hs,
        entry_count: ec,
        entry_size: es,
        ext_gpio_master: read_u16(source, p + 4).unwrap(),
    };
    Ok(GpioAssignmentTable { header, entries })
}

/// Raw flag byte of the I2C devices table header.
#[derive(Debug, Clone, Copy, PartialEq, Eq, Structural)]
pub struct I2cDevicesTableHeaderFlags(pub u8);

/// Header of the I2C devices table.
#[derive(Debug, Clone, Copy, PartialEq, Eq, Structural)]
pub struct I2cDevicesTableHeader {
    pub version: u8,
    pub header_size: u8,
    pub entry_count: u8,
    pub entry_size: u8,
    pub flags: I2cDevicesTableHeaderFlags,
}

/// One 4-byte I2C device entry: device type, address and the raw
/// configuration word.
#[derive(Debug, Clone, Copy, PartialEq, Eq, Structural)]
pub struct I2cDevicesTableEntry {
    pub device_type: u8,
    pub i2c_address: u8,
    pub config: u16,
}

/// The I2C entry found at `q`.
pub open spec fn spec_i2c_entry(d: Seq<u8>, q: int) -> I2cDevicesTableEntry {
    I2cDevicesTableEntry {
        device_type: d[q],
        i2c_address: d[q + 1],
        config: le16(d, q + 2) as u16,
    }
}

/// The I2C devices table.
#[derive(Debug, Clone)]
pub struct I2cDevicesTable {
    pub header: I2cDevicesTableHeader,
    pub entries: Vec<I2cDevicesTableEntry>,
}

/// An I2C devices table decodes at `p`: a header of at least 5 bytes,
/// 4-byte entries, all present.
pub open spec fn i2c_ok(d: Seq<u8>, p: int) -> bool {
    let hs = d[p + 1] as int;
    let ec = d[p + 2] as int;
    &&& 0 <= p
    &&& p + 5 <= d.len()
    &&& hs >= 5
    &&& d[p + 3] == 4
    &&& p + hs + 4 * ec <= d.len()
}

/// The fields an I2C devices table decoded at `p` holds.
pub open spec fn i2c_matches(d: Seq<u8>, p: int, v: I2cDevicesTable) -> bool {
    let hs = d[p + 1] as int;
    let ec = d[p + 2] as int;
    &&& v.header.version == d[p]
    &&& v.header.header_size == d[p + 1]
    &&& v.header.entry_count == d[p + 2]
    &&& v.header.entry_size == d[p + 3]
    &&& v.header.flags.0 == d[p + 4]
    &&& v.entries@.len() == ec
    &&& (forall|i: int|
        0 <= i < ec ==> #[trigger] v.entries@[i] == spec_i2c_entry(d, p + hs + 4 * i))
}

/// Decodes the I2C devices table at `p`, succeeding exactly on the
/// inputs `i2c_ok` admits.
pub fn parse_i2c_devices_table(source: &Vec<u8>, p: u64) -> (r: Result<I2cDevicesTable, Error>)
    ensures
        match r {
            Ok(v) => i2c_ok(source@, p as int) && i2c_matches(source@, p as int, v),
            Err(_) => !i2c_ok(source@, p as int),
        },
{
    let ghost d = source@;
    proof {
        vstd::std_specs::vec::axiom_spec_len(source);
    }
    let head = match read_bytes(source, p, 5) {
        Some(v) => v,
        None => {
            return Err(Error::InvalidFormat(String::from_str("I2C table truncated")));
        },
    };
    let hs = head[1];
    let ec = head[2];
    if hs < 5 {
        return Err(Error::InvalidFormat(String::from_str("I2C header size too small")));
    }
    if head[3] != 4 {
        return Err(Error::InvalidFormat(String::from_str("I2C entry size unexpected")));
    }
    let base = match p.checked_add(hs as u64) {
        Some(v) => v,
        None => {
            return Err(Error::InvalidFormat(String::from_str("I2C entries truncated")));
        },
    };
    match read_bytes(source, base, 4 * ec as usize) {
        Some(_) => {},
        None => {
            return Err(Error::InvalidFormat(String::from_str("I2C entries truncated")));
        },
    }
    let mut entries: Vec<I2cDevicesTableEntry> = Vec::new();
    let mut i: usize = 0;
    let n = ec as usize;
    while i < n
        invariant
            d == source@,
            d.len() <= u64::MAX,
            n == d[p as int + 2],
            base == p + d[p as int + 1],
            base + 4 * n <= d.len(),
            i <= n,
            entries@.len() == i,
            forall|j: int| 0 <= j < i ==> #[trigger] entries@[j] == spec_i2c_entry(d, base + 4 * j),
        decreases n - i,
    {
        let q = base + 4 * i as u64;
        let e = I2cDevicesTableEntry {
            device_type: read_u8(source, q).unwrap(),
            i2c_address: read_u8(source, q + 1).unwrap(),
            config: read_u16(source, q + 2).unwrap(),
        };
        entries.push(e);
        i = i + 1;
    }
    let header = I2cDevicesTableHeader {
        version: head[0],
        header_size: hs,
        entry_count: ec,
        entry_size: head[3],
        flags: I2cDevicesTableHeaderFlags(head[4]),
    };
    Ok(I2cDevicesTable { header, entries })
}

/// True for the platform bytes the connector table decoder knows.
pub open spec fn connector_platform_known(b: int) -> bool {
    b == 0x00 || b == 0x01 || b == 0x02 || b == 0x07 || b == 0x08 || b == 0x09 || b == 0x10 || b
        == 0x11 || b == 0x18 || b == 0x20
}

/// Header of the connector table.
#[derive(Debug, Clone, Copy, PartialEq, Eq, Structural)]
pub struct ConnectorTableHeader {
    pub version: u8,
    pub header_size: u8,
    pub entry_count: u8,
    pub entry_size: u8,
    pub platform: u8,
}

/// One 4-byte connector entry, kept as its raw word.
#[derive(Debug, Clone, Copy, PartialEq, Eq, Structural)]
pub struct ConnectorTableEntry(pub u32);

/// The connector table.
#[derive(Debug, Clone)]
pub struct ConnectorTable {
    pub header: ConnectorTableHeader,
    pub entries: Vec<ConnectorTableEntry>,
}

/// A connector table decodes at `p`: a header of at least 5 bytes, a
/// known platform byte, 4-byte entries, all present.
pub open spec fn connector_ok(d: Seq<u8>, p: int) -> bool {
    let ec = d[p + 2] as int;
    &&& 0 <= p
    &&& p + 5 <= d.len()
    &&& d[p + 1] >= 5
    &&& d[p + 3] == 4
    &&& connector_platform_known(d[p + 4] as int)
    &&& p + 5 + 4 * ec <= d.len()
}

/// The fields a connector table decoded at `p` holds.
pub open spec fn connector_matches(d: Seq<u8>, p: int, v: ConnectorTable) -> bool {
    let ec = d[p + 2] as int;
    &&& v.header.version == d[p]
    &&& v.header.header_size == d[p + 1]
    &&& v.header.entry_count == d[p + 2]
    &&& v.header.entry_size == d[p + 3]
    &&& v.header.platform == d[p + 4]
    &&& v.entries@.len() == ec
    &&& (forall|i: int|
        0 <= i < ec ==> (#[trigger] v.entries@[i]).0 == le32(d, p + 5 + 4 * i))
}

/// Decodes the connector table at `p`, succeeding exactly on the inputs
/// `connector_ok` admits.
pub fn parse_connector_table(source: &Vec<u8>, p: u64) -> (r: Result<ConnectorTable, Error>)
    ensures
        match r {
            Ok(v) => connector_ok(source@, p as int) && connector_matches(source@, p as int, v),
            Err(_) => !connector_ok(source@, p as int),
        },
{
    let ghost d = source@;
    proof {
        vstd::std_specs::vec::axiom_spec_len(source);
    }
    let head = match read_bytes(source, p, 5) {
        Some(v) => v,
        None => {
            return Err(Error::InvalidFormat(String::from_str("connector table truncated")));
        },
    };
    if head[1] < 5 {
        return Err(Error::InvalidFormat(String::from_str("connector header size too small")));
    }
    if head[3] != 4 {
        return Err(Error::InvalidFormat(String::from_str("connector entry size unexpected")));
    }
    let platform = head[4];
    let known = platform == 0x00 || platform == 0x01 || platform == 0x02 || platform == 0x07
        || platform == 0x08 || platform == 0x09 || platform == 0x10 || platform == 0x11 || platform
        == 0x18 || platform == 0x20;
    if !known {
        return Err(Error::InvalidFormat(String::from_str("connector platform unknown")));
    }
    let ec = head[2];
    match read_bytes(source, p + 5, 4 * ec as usize) {
        Some(_) => {},
        None => {
            return Err(Error::InvalidFormat(String::from_str("connector entries truncated")));
        },
    }
    let mut entries: Vec<ConnectorTableEntry> = Vec::new();
    let mut i: usize = 0;
    let n = ec as usize;
    while i < n
        invariant
            d == source@,
            d.len() <= u64::MAX,
            n == d[p as int + 2],
            p + 5 + 4 * n <= d.len(),
            i <= n,
            entries@.len() == i,
            forall|j: int|
                0 <= j < i ==> (#[trigger] entries@[j]).0 == le32(d, p + 5 + 4 * j),
        decreases n - i,
    {
        let q = p + 5 + 4 * i as u64;
        entries.push(ConnectorTableEntry(read_u32(source, q).unwrap()));
        i = i + 1;
    }
    let header = ConnectorTableHeader {
        version: head[0],
        header_size: head[1],
        entry_count: ec,
        entry_size: head[3],
        platform,
    };
    Ok(ConnectorTable { header, entries })
}

} // verus!
