//! Diagnosis records: channel, extended and qualified channel diagnosis, and
//! the decoding of channel properties and error types. All fields are
//! big-endian; a truncated entry ends the list.

use vstd::prelude::*;
use vstd::slice::*;
use vstd::string::*;
use crate::bytes::{be16_at, be32_at, read_be16, read_be32};
use crate::text::{hex, push_hex};

pub use crate::indices::{
    USI_CHANNEL_DIAGNOSIS, USI_EXT_CHANNEL_DIAGNOSIS, USI_MAINTENANCE,
    USI_QUALIFIED_CHANNEL_DIAGNOSIS,
};

verus! {

pub const USI_MULTIPLE: u16 = 0x8001;

/// Channel type from ChannelProperties bits 0-1.
#[derive(Debug, Clone, Copy, PartialEq, Eq, Structural)]
pub enum ChannelType {
    Reserved,
    /// Specific channel.
    Specific,
    /// All channels (submodule).
    All,
    /// Whole submodule.
    Submodule,
}

/// Channel direction from ChannelProperties bits 11-12.
#[derive(Debug, Clone, Copy, PartialEq, Eq, Structural)]
pub enum ChannelDirection {
    /// Manufacturer-specific.
    Manufacturer,
    Input,
    Output,
    Bidirectional,
}

/// Accumulative info from ChannelProperties bits 2-4; reserved values are read
/// as `No`.
#[derive(Debug, Clone, Copy, PartialEq, Eq, Structural)]
pub enum ChannelAccumulative {
    No,
    /// Main diagnosis (main fault).
    MainFault,
    /// Additional diagnosis.
    AdditionalFault,
}

/// Specifier from ChannelProperties bits 8-10; reserved values are read as
/// `AllDisappears`.
#[derive(Debug, Clone, Copy, PartialEq, Eq, Structural)]
pub enum ChannelSpecifier {
    /// All diagnosis of submodule disappears.
    AllDisappears,
    /// Diagnosis appears.
    Appears,
    /// Diagnosis disappears.
    Disappears,
    /// Diagnosis disappears, others remain.
    DisappearsOther,
}

/// Parsed ChannelProperties bit field, 16 bits.
#[derive(Debug, Clone, Copy, PartialEq, Eq, Structural)]
pub struct ChannelProperties {
    pub raw: u16,
    pub channel_type: ChannelType,
    pub accumulative: ChannelAccumulative,
    pub maintenance_required: bool,
    pub maintenance_demanded: bool,
    pub specifier: ChannelSpecifier,
    pub direction: ChannelDirection,
}

/// What the bits of ChannelProperties mean: bits 0-1 the type, 2-4 the
/// accumulative info, 5 and 6 maintenance, 8-10 the specifier, 11-12 the
/// direction.
pub open spec fn channel_properties(value: u16) -> ChannelProperties {
    ChannelProperties {
        raw: value,
        channel_type: if value % 4 == 1 {
            ChannelType::Specific
        } else if value % 4 == 2 {
            ChannelType::All
        } else if value % 4 == 3 {
            ChannelType::Submodule
        } else {
            ChannelType::Reserved
        },
        accumulative: if value / 4 % 8 == 1 {
            ChannelAccumulative::MainFault
        } else if value / 4 % 8 == 2 {
            ChannelAccumulative::AdditionalFault
        } else {
            ChannelAccumulative::No
        },
        maintenance_required: value / 32 % 2 == 1,
        maintenance_demanded: value / 64 % 2 == 1,
        specifier: if value / 256 % 8 == 1 {
            ChannelSpecifier::Appears
        } else if value / 256 % 8 == 2 {
            ChannelSpecifier::Disappears
        } else if value / 256 % 8 == 3 {
            ChannelSpecifier::DisappearsOther
        } else {
            ChannelSpecifier::AllDisappears
        },
        direction: if value / 2048 % 4 == 1 {
            ChannelDirection::Input
        } else if value / 2048 % 4 == 2 {
            ChannelDirection::Output
        } else if value / 2048 % 4 == 3 {
            ChannelDirection::Bidirectional
        } else {
            ChannelDirection::Manufacturer
        },
    }
}

impl Default for ChannelProperties {
    fn default() -> (r: ChannelProperties)
        ensures
            r == channel_properties(0),
    {
        ChannelProperties::from_u16(0)
    }
}

impl ChannelProperties {
    /// Parse ChannelProperties from a 16-bit value, with reserved values read
    /// as the first variant of their field.
    pub fn from_u16(value: u16) -> (r: ChannelProperties)
        ensures
            r == channel_properties(value),
    {
        let channel_type = match value % 4 {
            1 => ChannelType::Specific,
            2 => ChannelType::All,
            3 => ChannelType::Submodule,
            _ => ChannelType::Reserved,
        };
        let accumulative = match value / 4 % 8 {
            1 => ChannelAccumulative::MainFault,
            2 => ChannelAccumulative::AdditionalFault,
            _ => ChannelAccumulative::No,
        };
        let specifier = match value / 256 % 8 {
            1 => ChannelSpecifier::Appears,
            2 => ChannelSpecifier::Disappears,
            3 => ChannelSpecifier::DisappearsOther,
            _ => ChannelSpecifier::AllDisappears,
        };
        let direction = match value / 2048 % 4 {
            1 => ChannelDirection::Input,
            2 => ChannelDirection::Output,
            3 => ChannelDirection::Bidirectional,
            _ => ChannelDirection::Manufacturer,
        };
        ChannelProperties {
            raw: value,
            channel_type,
            accumulative,
            maintenance_required: value / 32 % 2 == 1,
            maintenance_demanded: value / 64 % 2 == 1,
            specifier,
            direction,
        }
    }
}

/// Which fields of a [`ChannelDiagnosis`] entry are in use.
#[derive(Debug, Clone, Copy, PartialEq, Eq, Structural, Default)]
pub enum DiagnosisKind {
    /// Channel diagnosis (USI 0x8000, or an unknown USI).
    #[default]
    Channel,
    /// Extended channel diagnosis (USI 0x8002).
    Ext,
    /// Qualified channel diagnosis (USI 0x8003).
    Qualified,
}

/// Channel diagnosis entry. The extended fields and the qualifier are 0 with
/// empty names for entries that do not carry them.
#[derive(Debug, Clone, PartialEq, Eq, Default)]
pub struct ChannelDiagnosis {
    pub kind: DiagnosisKind,
    pub api: u32,
    pub slot: u16,
    pub subslot: u16,
    pub channel_number: u16,
    pub channel_properties: ChannelProperties,
    pub error_type: u16,
    pub error_type_name: String,
    pub ext_error_type: u16,
    pub ext_error_type_name: String,
    pub ext_add_value: u32,
    pub qualifier: u32,
}

/// What a [`ChannelDiagnosis`] says, as mathematical values.
#[verifier::ext_equal]
pub struct DiagModel {
    pub kind: DiagnosisKind,
    pub api: u32,
    pub slot: u16,
    pub subslot: u16,
    pub channel_number: u16,
    pub channel_properties: ChannelProperties,
    pub error_type: u16,
    pub error_type_name: Seq<char>,
    pub ext_error_type: u16,
    pub ext_error_type_name: Seq<char>,
    pub ext_add_value: u32,
    pub qualifier: u32,
}

impl View for ChannelDiagnosis {
    type V = DiagModel;

    open spec fn view(&self) -> DiagModel {
        DiagModel {
            kind: self.kind,
            api: self.api,
            slot: self.slot,
            subslot: self.subslot,
            channel_number: self.channel_number,
            channel_properties: self.channel_properties,
            error_type: self.error_type,
            error_type_name: self.error_type_name@,
            ext_error_type: self.ext_error_type,
            ext_error_type_name: self.ext_error_type_name@,
            ext_add_value: self.ext_add_value,
            qualifier: self.qualifier,
        }
    }
}

/// The models of a list of entries.
pub open spec fn diag_models(s: Seq<ChannelDiagnosis>) -> Seq<DiagModel> {
    Seq::new(s.len(), |i: int| s[i]@)
}

impl ChannelDiagnosis {
    /// True if this diagnosis applies to the whole submodule (channel 0x8000).
    pub fn is_submodule_level(&self) -> (r: bool)
        ensures
            r == (self.channel_number == 0x8000),
    {
        self.channel_number == 0x8000
    }
}

/// Complete diagnosis data from a device.
#[derive(Debug, Clone, PartialEq, Eq, Default)]
pub struct DiagnosisData {
    pub api: u32,
    pub slot: u16,
    pub subslot: u16,
    pub entries: Vec<ChannelDiagnosis>,
    pub raw_data: Vec<u8>,
}

/// What a [`DiagnosisData`] says, as mathematical values.
#[verifier::ext_equal]
pub struct DiagDataModel {
    pub api: u32,
    pub slot: u16,
    pub subslot: u16,
    pub entries: Seq<DiagModel>,
    pub raw_data: Seq<u8>,
}

impl View for DiagnosisData {
    type V = DiagDataModel;

    open spec fn view(&self) -> DiagDataModel {
        DiagDataModel {
            api: self.api,
            slot: self.slot,
            subslot: self.subslot,
            entries: diag_models(self.entries@),
            raw_data: self.raw_data@,
        }
    }
}

/// The entries of one channel among the first `n`.
pub open spec fn entries_of_channel(s: Seq<ChannelDiagnosis>, channel: u16, n: int) -> Seq<
    ChannelDiagnosis,
>
    decreases n,
{
    if n <= 0 {
        Seq::empty()
    } else if s[n - 1].channel_number == channel {
        entries_of_channel(s, channel, n - 1).push(s[n - 1])
    } else {
        entries_of_channel(s, channel, n - 1)
    }
}

impl DiagnosisData {
    /// True if any diagnosis entries exist.
    pub fn has_errors(&self) -> (r: bool)
        ensures
            r == (self.entries@.len() > 0),
    {
        self.entries.len() > 0
    }

    /// True if any entry has the maintenance_required flag.
    pub fn has_maintenance_required(&self) -> (r: bool)
        ensures
            r == exists|i: int|
                0 <= i < self.entries@.len() && (#[trigger] self.entries@[i]).channel_properties.maintenance_required,
    {
        let mut i: usize = 0;
        while i < self.entries.len()
            invariant
                i <= self.entries@.len(),
                forall|k: int|
                    0 <= k < i ==> !(#[trigger] self.entries@[k]).channel_properties.maintenance_required,
            decreases self.entries@.len() - i,
        {
            if self.entries[i].channel_properties.maintenance_required {
                return true;
            }
            i = i + 1;
        }
        false
    }

    /// True if any entry has the maintenance_demanded flag.
    pub fn has_maintenance_demanded(&self) -> (r: bool)
        ensures
            r == exists|i: int|
                0 <= i < self.entries@.len() && (#[trigger] self.entries@[i]).channel_properties.maintenance_demanded,
    {
        let mut i: usize = 0;
        while i < self.entries.len()
            invariant
                i <= self.entries@.len(),
                forall|k: int|
                    0 <= k < i ==> !(#[trigger] self.entries@[k]).channel_properties.maintenance_demanded,
            decreases self.entries@.len() - i,
        {
            if self.entries[i].channel_properties.maintenance_demanded {
                return true;
            }
            i = i + 1;
        }
        false
    }

    /// All entries for a specific channel, in order.
    pub fn get_by_channel(&self, channel: u16) -> (r: Vec<&ChannelDiagnosis>)
        ensures
            r@.len() == entries_of_channel(self.entries@, channel, self.entries@.len() as int).len(),
            forall|i: int|
                0 <= i < r@.len() ==> *#[trigger] r@[i] == entries_of_channel(
                    self.entries@,
                    channel,
                    self.entries@.len() as int,
                )[i],
    {
        let mut out: Vec<&ChannelDiagnosis> = Vec::new();
        let mut i: usize = 0;
        while i < self.entries.len()
            invariant
                i <= self.entries@.len(),
                out@.len() == entries_of_channel(self.entries@, channel, i as int).len(),
                forall|k: int|
                    0 <= k < out@.len() ==> *#[trigger] out@[k] == entries_of_channel(
                        self.entries@,
                        channel,
                        i as int,
                    )[k],
            decreases self.entries@.len() - i,
        {
            if self.entries[i].channel_number == channel {
                out.push(&self.entries[i]);
            }
            i = i + 1;
        }
        out
    }
}

fn coded(prefix: &str, code: u16) -> (r: String)
    ensures
        r@ == prefix@ + hex(code as nat, 4, true) + ")"@,
{
    let mut s = prefix.to_owned();
    push_hex(&mut s, code as u64, 4, true);
    s.append(")");
    s
}

/// The name of a known channel error type.
pub open spec fn channel_error_entry(code: u16) -> Option<Seq<char>> {
    match code {
        0x0000 => Some("Reserved"@),
        0x0001 => Some("Short circuit"@),
        0x0002 => Some("Undervoltage"@),
        0x0003 => Some("Overvoltage"@),
        0x0004 => Some("Overload"@),
        0x0005 => Some("Overtemperature"@),
        0x0006 => Some("Line break"@),
        0x0007 => Some("Upper limit value exceeded"@),
        0x0008 => Some("Lower limit value exceeded"@),
        0x0009 => Some("Error"@),
        0x000A => Some("Simulation active"@),
        0x000B => Some("Reserved (0x000B)"@),
        0x000C => Some("Reserved (0x000C)"@),
        0x000D => Some("Reserved (0x000D)"@),
        0x000E => Some("Reserved (0x000E)"@),
        0x000F => Some("Parameter missing"@),
        0x0010 => Some("Parameterization fault"@),
        0x0011 => Some("Power supply fault"@),
        0x0012 => Some("Fuse blown / open"@),
        0x0013 => Some("Communication fault"@),
        0x0014 => Some("Ground fault"@),
        0x0015 => Some("Reference point lost"@),
        0x0016 => Some("Process event lost"@),
        0x0017 => Some("Threshold warning"@),
        0x0018 => Some("Output disabled"@),
        0x0019 => Some("Functional safety event"@),
        0x001A => Some("External fault"@),
        0x001B => Some("Sensor has incorrect configuration"@),
        0x001C => Some("Reserved (0x001C)"@),
        0x001D => Some("Reserved (0x001D)"@),
        0x001E => Some("Reserved (0x001E)"@),
        0x001F => Some("Temporary fault"@),
        0x8000 => Some("Data transmission impossible"@),
        0x8001 => Some("Remote mismatch"@),
        0x8002 => Some("Media redundancy mismatch"@),
        0x8003 => Some("Sync mismatch"@),
        0x8004 => Some("Isochronous mode mismatch"@),
        0x8005 => Some("Multicast CR mismatch"@),
        0x8006 => Some("Reserved (0x8006)"@),
        0x8007 => Some("Fiber optic mismatch"@),
        0x8008 => Some("Network component function mismatch"@),
        0x8009 => Some("Time mismatch"@),
        0x800A => Some("Dynamic frame packing function mismatch"@),
        0x800B => Some("Media redundancy with planned duplication mismatch"@),
        0x800C => Some("System redundancy mismatch"@),
        0x800D => Some("Multiple interface mismatch"@),
        0x9500 => Some("IO-Link device event"@),
        0x9501 => Some("IO-Link device event (MSB cleared)"@),
        0x9502 => Some("IO-Link port event"@),
        _ => None,
    }
}

fn channel_error_lookup(code: u16) -> (r: Option<&'static str>)
    ensures
        match channel_error_entry(code) {
            Some(t) => r matches Some(s) && s@ == t,
            None => r is None,
        },
{
    match code {
        0x0000 => Some("Reserved"),
        0x0001 => Some("Short circuit"),
        0x0002 => Some("Undervoltage"),
        0x0003 => Some("Overvoltage"),
        0x0004 => Some("Overload"),
        0x0005 => Some("Overtemperature"),
        0x0006 => Some("Line break"),
        0x0007 => Some("Upper limit value exceeded"),
        0x0008 => Some("Lower limit value exceeded"),
        0x0009 => Some("Error"),
        0x000A => Some("Simulation active"),
        0x000B => Some("Reserved (0x000B)"),
        0x000C => Some("Reserved (0x000C)"),
        0x000D => Some("Reserved (0x000D)"),
        0x000E => Some("Reserved (0x000E)"),
        0x000F => Some("Parameter missing"),
        0x0010 => Some("Parameterization fault"),
        0x0011 => Some("Power supply fault"),
        0x0012 => Some("Fuse blown / open"),
        0x0013 => Some("Communication fault"),
        0x0014 => Some("Ground fault"),
        0x0015 => Some("Reference point lost"),
        0x0016 => Some("Process event lost"),
        0x0017 => Some("Threshold warning"),
        0x0018 => Some("Output disabled"),
        0x0019 => Some("Functional safety event"),
        0x001A => Some("External fault"),
        0x001B => Some("Sensor has incorrect configuration"),
        0x001C => Some("Reserved (0x001C)"),
        0x001D => Some("Reserved (0x001D)"),
        0x001E => Some("Reserved (0x001E)"),
        0x001F => Some("Temporary fault"),
        0x8000 => Some("Data transmission impossible"),
        0x8001 => Some("Remote mismatch"),
        0x8002 => Some("Media redundancy mismatch"),
        0x8003 => Some("Sync mismatch"),
        0x8004 => Some("Isochronous mode mismatch"),
        0x8005 => Some("Multicast CR mismatch"),
        0x8006 => Some("Reserved (0x8006)"),
        0x8007 => Some("Fiber optic mismatch"),
        0x8008 => Some("Network component function mismatch"),
        0x8009 => Some("Time mismatch"),
        0x800A => Some("Dynamic frame packing function mismatch"),
        0x800B => Some("Media redundancy with planned duplication mismatch"),
        0x800C => Some("System redundancy mismatch"),
        0x800D => Some("Multiple interface mismatch"),
        0x9500 => Some("IO-Link device event"),
        0x9501 => Some("IO-Link device event (MSB cleared)"),
        0x9502 => Some("IO-Link port event"),
        _ => None,
    }
}

/// The name of a known extended error type, which depends on the channel error
/// type that it extends.
pub open spec fn ext_error_entry(code: u16, ext: u16) -> Option<Seq<char>> {
    match code {
        0x8000 => match ext {
            0x0000 => Some("Reserved"@),
            0x8000 => Some("Link state mismatch - Loss of link"@),
            0x8001 => Some("MAUType mismatch"@),
            0x8002 => Some("Line delay mismatch"@),
            _ => None,
        },
        0x8001 => match ext {
            0x0000 => Some("Reserved"@),
            0x8000 => Some("Peer name of station mismatch"@),
            0x8001 => Some("Peer name of port mismatch"@),
            0x8002 => Some("Peer RT_CLASS_3 mismatch"@),
            0x8003 => Some("Peer MAUType mismatch"@),
            0x8004 => Some("Peer MRP domain mismatch"@),
            0x8005 => Some("No peer detected"@),
            0x8006 => Some("Peer line delay mismatch"@),
            0x8007 => Some("Peer PTCP mismatch"@),
            0x8008 => Some("Peer Preamble length mismatch"@),
            0x8009 => Some("Peer Fragmentation mismatch"@),
            _ => None,
        },
        0x8002 => match ext {
            0x0000 => Some("Reserved"@),
            0x8000 => Some("Manager role fail"@),
            0x8001 => Some("MRP-Loss of redundancy"@),
            0x8002 => Some("Reserved (0x8002)"@),
            0x8003 => Some("MRP ring open"@),
            0x8004 => Some("MRP multiple manager"@),
            _ => None,
        },
        0x8003 => match ext {
            0x0000 => Some("Reserved"@),
            0x8000 => Some("No sync message received"@),
            0x8001 => Some("Jitter out of boundary"@),
            0x8002 => Some("Sync message send failure"@),
            0x8003 => Some("PTCP timeout"@),
            _ => None,
        },
        0x8007 => match ext {
            0x0000 => Some("Reserved"@),
            0x8000 => Some("Power budget exceeded"@),
            _ => None,
        },
        0x8008 => match ext {
            0x0000 => Some("Reserved"@),
            0x8000 => Some("Frame dropped - no resource"@),
            0x8001 => Some("Frame dropped - wrong destination address"@),
            0x8002 => Some("Frame dropped - no gateway"@),
            _ => None,
        },
        0x8009 => match ext {
            0x0000 => Some("Reserved"@),
            0x8000 => Some("No master detected"@),
            0x8001 => Some("Drift exceeded"@),
            0x8002 => Some("Time sync failure"@),
            _ => None,
        },
        0x800B => match ext {
            0x0000 => Some("Reserved"@),
            0x8000 => Some("MRPD loss of redundancy"@),
            _ => None,
        },
        _ => match ext {
            0x0000 => Some("Reserved"@),
            0x8000 => Some("Accumulative info"@),
            _ => None,
        },
    }
}

fn ext_channel_error_lookup(code: u16, ext: u16) -> (r: Option<&'static str>)
    ensures
        match ext_error_entry(code, ext) {
            Some(t) => r matches Some(s) && s@ == t,
            None => r is None,
        },
{
    match code {
        0x8000 => match ext {
            0x0000 => Some("Reserved"),
            0x8000 => Some("Link state mismatch - Loss of link"),
            0x8001 => Some("MAUType mismatch"),
            0x8002 => Some("Line delay mismatch"),
            _ => None,
        },
        0x8001 => match ext {
            0x0000 => Some("Reserved"),
            0x8000 => Some("Peer name of station mismatch"),
            0x8001 => Some("Peer name of port mismatch"),
            0x8002 => Some("Peer RT_CLASS_3 mismatch"),
            0x8003 => Some("Peer MAUType mismatch"),
            0x8004 => Some("Peer MRP domain mismatch"),
            0x8005 => Some("No peer detected"),
            0x8006 => Some("Peer line delay mismatch"),
            0x8007 => Some("Peer PTCP mismatch"),
            0x8008 => Some("Peer Preamble length mismatch"),
            0x8009 => Some("Peer Fragmentation mismatch"),
            _ => None,
        },
        0x8002 => match ext {
            0x0000 => Some("Reserved"),
            0x8000 => Some("Manager role fail"),
            0x8001 => Some("MRP-Loss of redundancy"),
            0x8002 => Some("Reserved (0x8002)"),
            0x8003 => Some("MRP ring open"),
            0x8004 => Some("MRP multiple manager"),
            _ => None,
        },
        0x8003 => match ext {
            0x0000 => Some("Reserved"),
            0x8000 => Some("No sync message received"),
            0x8001 => Some("Jitter out of boundary"),
            0x8002 => Some("Sync message send failure"),
            0x8003 => Some("PTCP timeout"),
            _ => None,
        },
        0x8007 => match ext {
            0x0000 => Some("Reserved"),
            0x8000 => Some("Power budget exceeded"),
            _ => None,
        },
        0x8008 => match ext {
            0x0000 => Some("Reserved"),
            0x8000 => Some("Frame dropped - no resource"),
            0x8001 => Some("Frame dropped - wrong destination address"),
            0x8002 => Some("Frame dropped - no gateway"),
            _ => None,
        },
        0x8009 => match ext {
            0x0000 => Some("Reserved"),
            0x8000 => Some("No master detected"),
            0x8001 => Some("Drift exceeded"),
            0x8002 => Some("Time sync failure"),
            _ => None,
        },
        0x800B => match ext {
            0x0000 => Some("Reserved"),
            0x8000 => Some("MRPD loss of redundancy"),
            _ => None,
        },
        _ => match ext {
            0x0000 => Some("Reserved"),
            0x8000 => Some("Accumulative info"),
            _ => None,
        },
    }
}

/// The name of a channel error type; unknown ones are named after the range
/// they lie in.
pub open spec fn channel_error_text(code: u16) -> Seq<char> {
    match channel_error_entry(code) {
        Some(t) => t,
        None => (if code <= 0x00FF {
            "Reserved (0x"@
        } else if code <= 0x7FFF {
            "Manufacturer-specific (0x"@
        } else if code <= 0x8FFF {
            "Reserved (0x"@
        } else if code <= 0x9FFF {
            "Profile-specific (0x"@
        } else {
            "Reserved (0x"@
        }) + hex(code as nat, 4, true) + ")"@,
    }
}

/// Decode ChannelErrorType to a human-readable string.
pub fn decode_channel_error_type(error_type: u16) -> (r: String)
    ensures
        r@ == channel_error_text(error_type),
{
    match channel_error_lookup(error_type) {
        Some(name) => name.to_owned(),
        None => {
            if error_type <= 0x00FF {
                coded("Reserved (0x", error_type)
            } else if error_type <= 0x7FFF {
                coded("Manufacturer-specific (0x", error_type)
            } else if error_type <= 0x8FFF {
                coded("Reserved (0x", error_type)
            } else if error_type <= 0x9FFF {
                coded("Profile-specific (0x", error_type)
            } else {
                coded("Reserved (0x", error_type)
            }
        },
    }
}

/// The name of an extended error type in the context of a channel error type;
/// unknown ones are named after the range they lie in.
pub open spec fn ext_error_text(code: u16, ext: u16) -> Seq<char> {
    match ext_error_entry(code, ext) {
        Some(t) => t,
        None => if ext == 0x8000 {
            "Accumulative info"@
        } else {
            (if 0x0001 <= ext <= 0x7FFF {
                "Manufacturer-specific (0x"@
            } else if 0x8001 <= ext <= 0x8FFF {
                "Reserved (0x"@
            } else if 0x9000 <= ext <= 0x9FFF {
                "Profile-specific (0x"@
            } else {
                "Unknown (0x"@
            }) + hex(ext as nat, 4, true) + ")"@
        },
    }
}

/// Decode ExtChannelErrorType based on the ChannelErrorType context.
pub fn decode_ext_channel_error_type(channel_error_type: u16, ext_error_type: u16) -> (r: String)
    ensures
        r@ == ext_error_text(channel_error_type, ext_error_type),
{
    match ext_channel_error_lookup(channel_error_type, ext_error_type) {
        Some(name) => name.to_owned(),
        None => {
            if ext_error_type == 0x8000 {
                "Accumulative info".to_owned()
            } else if 0x0001 <= ext_error_type && ext_error_type <= 0x7FFF {
                coded("Manufacturer-specific (0x", ext_error_type)
            } else if 0x8001 <= ext_error_type && ext_error_type <= 0x8FFF {
                coded("Reserved (0x", ext_error_type)
            } else if 0x9000 <= ext_error_type && ext_error_type <= 0x9FFF {
                coded("Profile-specific (0x", ext_error_type)
            } else {
                coded("Unknown (0x", ext_error_type)
            }
        },
    }
}

/// A plain channel entry.
pub open spec fn channel_entry(
    api: u32,
    slot: u16,
    subslot: u16,
    channel_number: u16,
    properties: u16,
    error_type: u16,
) -> DiagModel {
    DiagModel {
        kind: DiagnosisKind::Channel,
        api,
        slot,
        subslot,
        channel_number,
        channel_properties: channel_properties(properties),
        error_type,
        error_type_name: channel_error_text(error_type),
        ext_error_type: 0,
        ext_error_type_name: Seq::empty(),
        ext_add_value: 0,
        qualifier: 0,
    }
}

/// An extended or qualified entry.
pub open spec fn ext_entry(
    kind: DiagnosisKind,
    plain: DiagModel,
    ext_error_type: u16,
    ext_add_value: u32,
    qualifier: u32,
) -> DiagModel {
    DiagModel {
        kind,
        ext_error_type,
        ext_error_type_name: ext_error_text(plain.error_type, ext_error_type),
        ext_add_value,
        qualifier,
        ..plain
    }
}

/// The entry whose channel number stands at `off`, and the offset behind it:
/// channel number, properties, USI, then what the USI calls for. None if the
/// data ends before it does.
pub open spec fn entry_at(data: Seq<u8>, off: int, api: u32, slot: u16, subslot: u16) -> Option<
    (DiagModel, int),
> {
    let usi = be16_at(data, off + 4);
    let plain = channel_entry(
        api,
        slot,
        subslot,
        be16_at(data, off),
        be16_at(data, off + 2),
        be16_at(data, off + 6),
    );
    let ext = be16_at(data, off + 8);
    let add = be32_at(data, off + 10);
    if off + 6 > data.len() {
        None
    } else if usi == 0x8002 {
        if off + 14 > data.len() {
            None
        } else {
            Some((ext_entry(DiagnosisKind::Ext, plain, ext, add, 0), off + 14))
        }
    } else if usi == 0x8003 {
        if off + 18 > data.len() {
            None
        } else {
            Some(
                (
                    ext_entry(DiagnosisKind::Qualified, plain, ext, add, be32_at(data, off + 14)),
                    off + 18,
                ),
            )
        }
    } else if off + 8 > data.len() {
        None
    } else {
        Some((plain, off + 8))
    }
}

/// Whether a location (API, slot, subslot) stands at `off`: the API is small
/// and the slot below 0x8000.
pub open spec fn location_at(data: Seq<u8>, off: int) -> bool {
    off + 8 <= data.len() && be32_at(data, off) < 0x10000 && be16_at(data, off + 4) < 0x8000
}

/// The entries from `off` on, each at the location that was stated last.
pub open spec fn entries_from(data: Seq<u8>, off: int, api: u32, slot: u16, subslot: u16) -> Seq<
    DiagModel,
>
    decreases data.len() - off,
{
    if off + 6 > data.len() {
        Seq::empty()
    } else {
        let moved = location_at(data, off);
        let a = if moved {
            be32_at(data, off)
        } else {
            api
        };
        let s = if moved {
            be16_at(data, off + 4)
        } else {
            slot
        };
        let t = if moved {
            be16_at(data, off + 6)
        } else {
            subslot
        };
        let at = if moved {
            off + 8
        } else {
            off
        };
        match entry_at(data, at, a, s, t) {
            None => Seq::empty(),
            Some((m, next)) => if off < next <= data.len() {
                seq![m] + entries_from(data, next, a, s, t)
            } else {
                Seq::empty()
            },
        }
    }
}

/// The entries of a diagnosis record, behind its block header if its first
/// word is that of a diagnosis block.
pub open spec fn diagnosis_entries(data: Seq<u8>, api: u32, slot: u16, subslot: u16) -> Seq<
    DiagModel,
> {
    let t = be16_at(data, 0);
    let off: int = if t == 0x0010 || t == 0x0011 || t == 0x8010 || t == 0x8011 || t == 0x8012 {
        6
    } else {
        0
    };
    if data.len() < 6 {
        Seq::empty()
    } else {
        entries_from(data, off, api, slot, subslot)
    }
}

fn parse_entry(data: &[u8], off: usize, api: u32, slot: u16, subslot: u16) -> (r: Option<
    (ChannelDiagnosis, usize),
>)
    requires
        off <= data@.len(),
    ensures
        match entry_at(data@, off as int, api, slot, subslot) {
            Some((m, next)) => r matches Some((v, n)) && v@ == m && n == next && off < n
                <= data@.len(),
            None => r is None,
        },
{
    let left: usize = data.len() - off;
    if left < 6 {
        return None;
    }
    let usi: u16 = read_be16(data, off + 4);
    let size: usize = if usi == USI_EXT_CHANNEL_DIAGNOSIS {
        14
    } else if usi == USI_QUALIFIED_CHANNEL_DIAGNOSIS {
        18
    } else {
        8
    };
    if left < size {
        return None;
    }
    let error_type: u16 = read_be16(data, off + 6);
    let mut entry = ChannelDiagnosis {
        kind: DiagnosisKind::Channel,
        api,
        slot,
        subslot,
        channel_number: read_be16(data, off),
        channel_properties: ChannelProperties::from_u16(read_be16(data, off + 2)),
        error_type,
        error_type_name: decode_channel_error_type(error_type),
        ext_error_type: 0,
        ext_error_type_name: String::new(),
        ext_add_value: 0,
        qualifier: 0,
    };
    if size >= 14 {
        entry.kind = DiagnosisKind::Ext;
        entry.ext_error_type = read_be16(data, off + 8);
        entry.ext_error_type_name = decode_ext_channel_error_type(error_type, entry.ext_error_type);
        entry.ext_add_value = read_be32(data, off + 10);
    }
    if size == 18 {
        entry.kind = DiagnosisKind::Qualified;
        entry.qualifier = read_be32(data, off + 14);
    }
    Some((entry, off + size))
}

/// Parse a DiagnosisData block from raw bytes. The given location holds for
/// entries in front of which none is stated.
pub fn parse_diagnosis_block(data: &[u8], api: u32, slot: u16, subslot: u16) -> (r: DiagnosisData)
    ensures
        r.api == api,
        r.slot == slot,
        r.subslot == subslot,
        r.raw_data@ == data@,
        diag_models(r.entries@) == diagnosis_entries(data@, api, slot, subslot),
{
    let mut result = DiagnosisData {
        api,
        slot,
        subslot,
        entries: Vec::new(),
        raw_data: slice_to_vec(data),
    };
    assert(diag_models(result.entries@) =~= Seq::<DiagModel>::empty());
    if data.len() < 6 {
        return result;
    }
    let mut at_api: u32 = api;
    let mut at_slot: u16 = slot;
    let mut at_subslot: u16 = subslot;
    let block_type: u16 = read_be16(data, 0);
    let mut off: usize = if block_type == 0x0010 || block_type == 0x0011 || block_type == 0x8010
        || block_type == 0x8011 || block_type == 0x8012 {
        6
    } else {
        0
    };
    let ghost want = diagnosis_entries(data@, api, slot, subslot);
    assert(diag_models(result.entries@) + want =~= want);
    while data.len() - off >= 6
        invariant
            off <= data@.len(),
            result.api == api,
            result.slot == slot,
            result.subslot == subslot,
            result.raw_data@ == data@,
            want == diagnosis_entries(data@, api, slot, subslot),
            diag_models(result.entries@) + entries_from(
                data@,
                off as int,
                at_api,
                at_slot,
                at_subslot,
            ) == want,
        decreases data@.len() - off,
    {
        let ghost rest = entries_from(data@, off as int, at_api, at_slot, at_subslot);
        let mut at: usize = off;
        if data.len() - off >= 8 && read_be32(data, off) < 0x10000 && read_be16(data, off + 4)
            < 0x8000 {
            at_api = read_be32(data, off);
            at_slot = read_be16(data, off + 4);
            at_subslot = read_be16(data, off + 6);
            at = off + 8;
        }
        match parse_entry(data, at, at_api, at_slot, at_subslot) {
            Some((entry, next)) => {
                let ghost before = result.entries@;
                result.entries.push(entry);
                proof {
                    let tail = entries_from(data@, next as int, at_api, at_slot, at_subslot);
                    assert(diag_models(result.entries@) =~= diag_models(before).push(entry@));
                    assert(rest =~= seq![entry@] + tail);
                    assert(diag_models(before) + (seq![entry@] + tail) =~= diag_models(
                        result.entries@,
                    ) + tail);
                }
                off = next;
            },
            None => {
                assert(diag_models(result.entries@) + Seq::<DiagModel>::empty() =~= diag_models(
                    result.entries@,
                ));
                return result;
            },
        }
    }
    assert(diag_models(result.entries@) + Seq::<DiagModel>::empty() =~= diag_models(
        result.entries@,
    ));
    result
}

/// The flat entries (channel number, properties, error type) from `off` on, up
/// to one that is all zero.
pub open spec fn flat_entries_from(data: Seq<u8>, off: int, api: u32, slot: u16, subslot: u16) -> Seq<
    DiagModel,
>
    decreases data.len() - off,
{
    let channel = be16_at(data, off);
    let properties = be16_at(data, off + 2);
    let error_type = be16_at(data, off + 4);
    if off + 6 > data.len() || (channel == 0 && properties == 0 && error_type == 0) {
        Seq::empty()
    } else {
        seq![channel_entry(api, slot, subslot, channel, properties, error_type)]
            + flat_entries_from(data, off + 6, api, slot, subslot)
    }
}

/// Parse diagnosis data in the flat format: a 6-byte block header, then
/// channel number, properties and error type entries. An all-zero entry ends
/// the list.
pub fn parse_diagnosis_simple(data: &[u8], api: u32, slot: u16, subslot: u16) -> (r: DiagnosisData)
    ensures
        r.api == api,
        r.slot == slot,
        r.subslot == subslot,
        r.raw_data@ == data@,
        diag_models(r.entries@) == flat_entries_from(data@, 6, api, slot, subslot),
{
    let mut result = DiagnosisData {
        api,
        slot,
        subslot,
        entries: Vec::new(),
        raw_data: slice_to_vec(data),
    };
    assert(diag_models(result.entries@) =~= Seq::<DiagModel>::empty());
    if data.len() < 6 {
        return result;
    }
    let mut off: usize = 6;
    let ghost want = flat_entries_from(data@, 6, api, slot, subslot);
    assert(diag_models(result.entries@) + want =~= want);
    while data.len() - off >= 6
        invariant
            off <= data@.len(),
            result.api == api,
            result.slot == slot,
            result.subslot == subslot,
            result.raw_data@ == data@,
            want == flat_entries_from(data@, 6, api, slot, subslot),
            diag_models(result.entries@) + flat_entries_from(
                data@,
                off as int,
                api,
                slot,
                subslot,
            ) == want,
        decreases data@.len() - off,
    {
        let channel: u16 = read_be16(data, off);
        let properties: u16 = read_be16(data, off + 2);
        let error_type: u16 = read_be16(data, off + 4);
        if channel == 0 && properties == 0 && error_type == 0 {
            assert(diag_models(result.entries@) + Seq::<DiagModel>::empty() =~= diag_models(
                result.entries@,
            ));
            return result;
        }
        let entry = ChannelDiagnosis {
            kind: DiagnosisKind::Channel,
            api,
            slot,
            subslot,
            channel_number: channel,
            channel_properties: ChannelProperties::from_u16(properties),
            error_type,
            error_type_name: decode_channel_error_type(error_type),
            ext_error_type: 0,
            ext_error_type_name: String::new(),
            ext_add_value: 0,
            qualifier: 0,
        };
        let ghost before = result.entries@;
        result.entries.push(entry);
        proof {
            let tail = flat_entries_from(data@, off + 6, api, slot, subslot);
            assert(diag_models(result.entries@) =~= diag_models(before).push(entry@));
            assert(entry@ == channel_entry(api, slot, subslot, channel, properties, error_type));
            assert(diag_models(before) + (seq![entry@] + tail) =~= diag_models(result.entries@)
                + tail);
        }
        off = off + 6;
    }
    assert(diag_models(result.entries@) + Seq::<DiagModel>::empty() =~= diag_models(
        result.entries@,
    ));
    result
}

} // verus!
