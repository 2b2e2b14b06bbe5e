//! Alarm notifications: the notification header, the alarm items it carries,
//! and the alarm reference of a connect response. All fields are big-endian.

use vstd::prelude::*;
use vstd::slice::*;
use vstd::string::*;
use crate::bytes::{
    be16, be16_at, be16_placed, be32, be32_at, be32_placed, copy_range, front_reads, read_be16,
    read_be32,
};
use crate::indices;
use crate::indices::{alarm_type_text, pe_mode_text, usi_text};
use crate::text::{dec, hex, push_dec, push_hex};

pub use crate::indices::{
    ALARM_TYPE_CONTROLLED_BY_SUPERVISOR, ALARM_TYPE_DFP_PROBLEM, ALARM_TYPE_DIAGNOSIS,
    ALARM_TYPE_DIAGNOSIS_DISAPPEARS, ALARM_TYPE_ISOCHRONOUS_MODE_PROBLEM,
    ALARM_TYPE_MULTICAST_MISMATCH, ALARM_TYPE_NETWORK_COMPONENT_PROBLEM, ALARM_TYPE_PLUG,
    ALARM_TYPE_PLUG_WRONG_SUBMODULE, ALARM_TYPE_PORT_DATA_CHANGE, ALARM_TYPE_PROCESS,
    ALARM_TYPE_PULL, ALARM_TYPE_PULL_MODULE, ALARM_TYPE_REDUNDANCY, ALARM_TYPE_RELEASED,
    ALARM_TYPE_RETURN_OF_SUBMODULE, ALARM_TYPE_STATUS, ALARM_TYPE_SYNC_DATA_CHANGED,
    ALARM_TYPE_TIME_DATA_CHANGED, ALARM_TYPE_UPDATE, ALARM_TYPE_UPLOAD_RETRIEVAL,
    BLOCK_ALARM_ACK_HIGH, BLOCK_ALARM_ACK_LOW, BLOCK_ALARM_CR_REQ, BLOCK_ALARM_CR_RES,
    BLOCK_ALARM_NOTIFICATION_HIGH, BLOCK_ALARM_NOTIFICATION_LOW, PE_MODE_ENERGY_SAVING_MAX,
    PE_MODE_ENERGY_SAVING_MIN, PE_MODE_OPERATE, PE_MODE_POWER_OFF, PE_MODE_READY_TO_OPERATE,
    PE_MODE_SLEEP_MODE_WOL, USI_CHANNEL_DIAGNOSIS, USI_EXT_CHANNEL_DIAGNOSIS, USI_IPARAMETER,
    USI_MAINTENANCE, USI_MULTIPLE_DIAGNOSIS, USI_PE_ALARM, USI_PRAL_ALARM,
    USI_QUALIFIED_CHANNEL_DIAGNOSIS, USI_RS_ALARM_HIGH, USI_RS_ALARM_LOW, USI_RS_ALARM_SUBMODULE,
    USI_UPLOAD,
};

verus! {

/// Human-readable alarm type name.
pub fn get_alarm_type_name(alarm_type: u16) -> (r: String)
    ensures
        r@ == alarm_type_text(alarm_type),
{
    indices::get_alarm_type_name(alarm_type)
}

/// Human-readable name for a User Structure Identifier.
pub fn get_usi_name(usi: u16) -> (r: String)
    ensures
        r@ == usi_text(usi),
{
    indices::get_usi_name(usi)
}

/// Human-readable name for a PROFIenergy mode.
pub fn get_pe_mode_name(mode: u8) -> (r: String)
    ensures
        r@ == pe_mode_text(mode),
{
    indices::get_pe_mode_name(mode)
}

/// Diagnosis alarm item (USI 0x8000, 0x8002, 0x8003).
#[derive(Debug, Clone, Copy, PartialEq, Eq, Structural, Default)]
pub struct DiagnosisItem {
    pub user_structure_id: u16,
    pub channel_number: u16,
    pub channel_properties: u16,
    pub channel_error_type: u16,
    pub ext_channel_error_type: u16,
    pub ext_channel_add_value: u32,
    pub qualified_channel_qualifier: u32,
}

impl DiagnosisItem {
    /// Actual channel number, bits 0-14.
    pub fn channel_number_value(&self) -> (r: u16)
        ensures
            r == self.channel_number % 0x8000,
    {
        self.channel_number % 0x8000
    }

    /// Bit 15: accumulative, multiple errors on channel.
    pub fn is_accumulative(&self) -> (r: bool)
        ensures
            r == (self.channel_number >= 0x8000),
    {
        self.channel_number >= 0x8000
    }

    /// Channel type from properties bits 0-7.
    pub fn channel_type(&self) -> (r: u16)
        ensures
            r == self.channel_properties % 0x100,
    {
        self.channel_properties % 0x100
    }

    /// True for extended diagnosis, USI 0x8002 or 0x8003.
    pub fn is_extended(&self) -> (r: bool)
        ensures
            r == (self.user_structure_id == 0x8002 || self.user_structure_id == 0x8003),
    {
        self.user_structure_id == USI_EXT_CHANNEL_DIAGNOSIS || self.user_structure_id
            == USI_QUALIFIED_CHANNEL_DIAGNOSIS
    }

    /// True for qualified diagnosis, USI 0x8003.
    pub fn is_qualified(&self) -> (r: bool)
        ensures
            r == (self.user_structure_id == 0x8003),
    {
        self.user_structure_id == USI_QUALIFIED_CHANNEL_DIAGNOSIS
    }
}

/// Maintenance alarm item (USI 0x8100): block header (6), padding (2),
/// maintenance status (4).
#[derive(Debug, Clone, Copy, PartialEq, Eq, Structural, Default)]
pub struct MaintenanceItem {
    pub block_type: u16,
    pub block_length: u16,
    pub block_version: u16,
    pub maintenance_status: u32,
}

impl MaintenanceItem {
    /// Bit 0: maintenance required.
    pub fn maintenance_required(&self) -> (r: bool)
        ensures
            r == (self.maintenance_status % 2 == 1),
    {
        self.maintenance_status % 2 == 1
    }

    /// Bit 1: maintenance demanded.
    pub fn maintenance_demanded(&self) -> (r: bool)
        ensures
            r == (self.maintenance_status / 2 % 2 == 1),
    {
        self.maintenance_status / 2 % 2 == 1
    }
}

/// Upload/Retrieval alarm item (USI 0x8200, 0x8201): block header (6), padding
/// (2), record index (4), record length (4).
#[derive(Debug, Clone, Copy, PartialEq, Eq, Structural, Default)]
pub struct UploadRetrievalItem {
    pub user_structure_id: u16,
    pub block_type: u16,
    pub block_length: u16,
    pub block_version: u16,
    pub ur_record_index: u32,
    pub ur_record_length: u32,
}

impl UploadRetrievalItem {
    /// True if this is an upload request.
    pub fn is_upload(&self) -> (r: bool)
        ensures
            r == (self.user_structure_id == 0x8200),
    {
        self.user_structure_id == USI_UPLOAD
    }

    /// True if this is a retrieval request.
    pub fn is_retrieval(&self) -> (r: bool)
        ensures
            r == (self.user_structure_id == 0x8201),
    {
        self.user_structure_id == USI_IPARAMETER
    }
}

/// iParameter alarm item (USI 0x8201). The alarm item parser never produces
/// it: USI 0x8201 is read as an [`UploadRetrievalItem`].
#[derive(Debug, Clone, Copy, PartialEq, Eq, Structural, Default)]
pub struct IParameterItem {
    pub block_type: u16,
    pub block_length: u16,
    pub block_version: u16,
    pub ipar_req_header: u32,
    pub max_segment_size: u32,
    pub transfer_index: u32,
    pub total_ipar_size: u32,
}

/// PROFIenergy alarm item (USI 0x8310): block header (6), operational mode (1).
#[derive(Debug, Clone, Copy, PartialEq, Eq, Structural, Default)]
pub struct PeAlarmItem {
    pub block_type: u16,
    pub block_length: u16,
    pub block_version: u16,
    pub pe_operational_mode: u8,
}

impl PeAlarmItem {
    /// Human-readable mode name.
    pub fn mode_name(&self) -> (r: String)
        ensures
            r@ == pe_mode_text(self.pe_operational_mode),
    {
        get_pe_mode_name(self.pe_operational_mode)
    }
}

/// Reporting System alarm item (USI 0x8300-0x8302): alarm info (2).
#[derive(Debug, Clone, Copy, PartialEq, Eq, Structural, Default)]
pub struct RsAlarmItem {
    pub user_structure_id: u16,
    pub rs_alarm_info: u16,
}

impl RsAlarmItem {
    /// RS specifier from alarm info bits 0-10.
    pub fn rs_specifier(&self) -> (r: u16)
        ensures
            r == self.rs_alarm_info % 0x800,
    {
        self.rs_alarm_info % 0x800
    }

    /// Sequence number, same as specifier for these items.
    pub fn rs_sequence_number(&self) -> (r: u16)
        ensures
            r == self.rs_alarm_info % 0x800,
    {
        self.rs_specifier()
    }
}

/// Pull Request alarm item (USI 0x8320): channel number (2), channel
/// properties (2), reason (2), extended reason (2), additional value (rest).
#[derive(Debug, Clone, PartialEq, Eq, Default)]
pub struct PralAlarmItem {
    pub channel_number: u16,
    pub pral_channel_properties: u16,
    pub pral_reason: u16,
    pub pral_ext_reason: u16,
    pub pral_reason_add_value: Vec<u8>,
}

/// One parsed alarm payload item.
#[derive(Debug, PartialEq, Eq)]
pub enum AlarmItem {
    Diagnosis(DiagnosisItem),
    Maintenance(MaintenanceItem),
    UploadRetrieval(UploadRetrievalItem),
    Pe(PeAlarmItem),
    Rs(RsAlarmItem),
    Pral(PralAlarmItem),
    /// Unknown or manufacturer-specific USI: the raw remaining payload.
    Generic { user_structure_id: u16, raw_data: Vec<u8> },
}

/// What an [`AlarmItem`] says, as mathematical values.
#[verifier::ext_equal]
pub enum ItemModel {
    Diagnosis(DiagnosisItem),
    Maintenance(MaintenanceItem),
    UploadRetrieval(UploadRetrievalItem),
    Pe(PeAlarmItem),
    Rs(RsAlarmItem),
    Pral { channel: u16, properties: u16, reason: u16, ext_reason: u16, add_value: Seq<u8> },
    Generic { usi: u16, raw: Seq<u8> },
}

impl View for AlarmItem {
    type V = ItemModel;

    open spec fn view(&self) -> ItemModel {
        match *self {
            AlarmItem::Diagnosis(i) => ItemModel::Diagnosis(i),
            AlarmItem::Maintenance(i) => ItemModel::Maintenance(i),
            AlarmItem::UploadRetrieval(i) => ItemModel::UploadRetrieval(i),
            AlarmItem::Pe(i) => ItemModel::Pe(i),
            AlarmItem::Rs(i) => ItemModel::Rs(i),
            AlarmItem::Pral(i) => ItemModel::Pral {
                channel: i.channel_number,
                properties: i.pral_channel_properties,
                reason: i.pral_reason,
                ext_reason: i.pral_ext_reason,
                add_value: i.pral_reason_add_value@,
            },
            AlarmItem::Generic { user_structure_id, raw_data } => ItemModel::Generic {
                usi: user_structure_id,
                raw: raw_data@,
            },
        }
    }
}

impl ItemModel {
    /// The item's User Structure Identifier.
    pub open spec fn usi(self) -> u16 {
        match self {
            ItemModel::Diagnosis(i) => i.user_structure_id,
            ItemModel::Maintenance(_) => 0x8100,
            ItemModel::UploadRetrieval(i) => i.user_structure_id,
            ItemModel::Pe(_) => 0x8310,
            ItemModel::Rs(i) => i.user_structure_id,
            ItemModel::Pral { channel, properties, reason, ext_reason, add_value } => 0x8320,
            ItemModel::Generic { usi, raw } => usi,
        }
    }
}

impl AlarmItem {
    /// The item's User Structure Identifier.
    pub fn user_structure_id(&self) -> (r: u16)
        ensures
            r == self@.usi(),
    {
        match self {
            AlarmItem::Diagnosis(i) => i.user_structure_id,
            AlarmItem::Maintenance(_) => USI_MAINTENANCE,
            AlarmItem::UploadRetrieval(i) => i.user_structure_id,
            AlarmItem::Pe(_) => USI_PE_ALARM,
            AlarmItem::Rs(i) => i.user_structure_id,
            AlarmItem::Pral(_) => USI_PRAL_ALARM,
            AlarmItem::Generic { user_structure_id, .. } => *user_structure_id,
        }
    }

    /// Human-readable USI name.
    pub fn usi_name(&self) -> (r: String)
        ensures
            r@ == usi_text(self@.usi()),
    {
        get_usi_name(self.user_structure_id())
    }
}

/// The diagnosis item behind USI `usi` at `off`: channel number, properties
/// and error type; the extended ones add an extended error type and value, the
/// qualified one a qualifier.
pub open spec fn diagnosis_item_at(data: Seq<u8>, off: int, usi: u16) -> Result<
    (ItemModel, int),
    Seq<char>,
> {
    let extended = usi == 0x8002 || usi == 0x8003;
    let qualified = usi == 0x8003;
    if data.len() < off + 6 {
        Err("Truncated DiagnosisItem"@)
    } else if extended && data.len() < off + 12 {
        Err("Truncated ExtChannelDiagnosis"@)
    } else if qualified && data.len() < off + 16 {
        Err("Truncated QualifiedChannelDiagnosis"@)
    } else {
        Ok(
            (
                ItemModel::Diagnosis(
                    DiagnosisItem {
                        user_structure_id: usi,
                        channel_number: be16_at(data, off),
                        channel_properties: be16_at(data, off + 2),
                        channel_error_type: be16_at(data, off + 4),
                        ext_channel_error_type: if extended {
                            be16_at(data, off + 6)
                        } else {
                            0
                        },
                        ext_channel_add_value: if extended {
                            be32_at(data, off + 8)
                        } else {
                            0
                        },
                        qualified_channel_qualifier: if qualified {
                            be32_at(data, off + 12)
                        } else {
                            0
                        },
                    },
                ),
                if qualified {
                    off + 16
                } else if extended {
                    off + 12
                } else {
                    off + 6
                },
            ),
        )
    }
}

/// The alarm item at `off` and the offset behind it, or the message why there
/// is none.
pub open spec fn item_at(data: Seq<u8>, off: int) -> Result<(ItemModel, int), Seq<char>> {
    let usi = be16_at(data, off);
    let b = off + 2;
    if data.len() < off + 2 {
        Err("Insufficient data for USI"@)
    } else if usi == 0x8000 || usi == 0x8002 || usi == 0x8003 {
        diagnosis_item_at(data, b, usi)
    } else if usi == 0x8100 {
        if data.len() < b + 12 {
            Err("Truncated MaintenanceItem"@)
        } else {
            Ok(
                (
                    ItemModel::Maintenance(
                        MaintenanceItem {
                            block_type: be16_at(data, b),
                            block_length: be16_at(data, b + 2),
                            block_version: be16_at(data, b + 4),
                            maintenance_status: be32_at(data, b + 8),
                        },
                    ),
                    b + 12,
                ),
            )
        }
    } else if usi == 0x8200 || usi == 0x8201 {
        if data.len() < b + 16 {
            Err("Truncated UploadRetrievalItem"@)
        } else {
            Ok(
                (
                    ItemModel::UploadRetrieval(
                        UploadRetrievalItem {
                            user_structure_id: usi,
                            block_type: be16_at(data, b),
                            block_length: be16_at(data, b + 2),
                            block_version: be16_at(data, b + 4),
                            ur_record_index: be32_at(data, b + 8),
                            ur_record_length: be32_at(data, b + 12),
                        },
                    ),
                    b + 16,
                ),
            )
        }
    } else if usi == 0x8300 || usi == 0x8301 || usi == 0x8302 {
        if data.len() < b + 2 {
            Err("Truncated RS_AlarmItem"@)
        } else {
            Ok(
                (
                    ItemModel::Rs(
                        RsAlarmItem { user_structure_id: usi, rs_alarm_info: be16_at(data, b) },
                    ),
                    b + 2,
                ),
            )
        }
    } else if usi == 0x8310 {
        if data.len() < b + 7 {
            Err("Truncated PE_AlarmItem"@)
        } else {
            Ok(
                (
                    ItemModel::Pe(
                        PeAlarmItem {
                            block_type: be16_at(data, b),
                            block_length: be16_at(data, b + 2),
                            block_version: be16_at(data, b + 4),
                            pe_operational_mode: data[b + 6],
                        },
                    ),
                    b + 7,
                ),
            )
        }
    } else if usi == 0x8320 {
        if data.len() < b + 8 {
            Err("Truncated PRAL_AlarmItem"@)
        } else {
            Ok(
                (
                    ItemModel::Pral {
                        channel: be16_at(data, b),
                        properties: be16_at(data, b + 2),
                        reason: be16_at(data, b + 4),
                        ext_reason: be16_at(data, b + 6),
                        add_value: data.skip(b + 8),
                    },
                    data.len() as int,
                ),
            )
        }
    } else {
        Ok((ItemModel::Generic { usi, raw: data.skip(b) }, data.len() as int))
    }
}

fn rest_of(data: &[u8], from: usize) -> (r: Vec<u8>)
    requires
        from <= data@.len(),
    ensures
        r@ == data@.skip(from as int),
{
    let r = copy_range(data, from, data.len());
    assert(r@ =~= data@.skip(from as int));
    r
}

/// Parse a single alarm item at `offset`, returning the item and the new
/// offset after it.
pub fn parse_alarm_item(data: &[u8], offset: usize) -> (r: Result<(AlarmItem, usize), String>)
    ensures
        match item_at(data@, offset as int) {
            Ok((m, next)) => r matches Ok((i, n)) && i@ == m && n == next && offset < n
                <= data@.len(),
            Err(m) => r matches Err(e) && e@ == m,
        },
{
    if offset > data.len() || data.len() - offset < 2 {
        return Err("Insufficient data for USI".to_owned());
    }
    let usi: u16 = read_be16(data, offset);
    let at: usize = offset + 2;
    let left: usize = data.len() - at;
    if usi == USI_CHANNEL_DIAGNOSIS || usi == USI_EXT_CHANNEL_DIAGNOSIS || usi
        == USI_QUALIFIED_CHANNEL_DIAGNOSIS {
        parse_diagnosis_item(data, at, usi)
    } else if usi == USI_MAINTENANCE {
        if left < 12 {
            return Err("Truncated MaintenanceItem".to_owned());
        }
        Ok(
            (
                AlarmItem::Maintenance(
                    MaintenanceItem {
                        block_type: read_be16(data, at),
                        block_length: read_be16(data, at + 2),
                        block_version: read_be16(data, at + 4),
                        maintenance_status: read_be32(data, at + 8),
                    },
                ),
                at + 12,
            ),
        )
    } else if usi == USI_UPLOAD || usi == USI_IPARAMETER {
        if left < 16 {
            return Err("Truncated UploadRetrievalItem".to_owned());
        }
        Ok(
            (
                AlarmItem::UploadRetrieval(
                    UploadRetrievalItem {
                        user_structure_id: usi,
                        block_type: read_be16(data, at),
                        block_length: read_be16(data, at + 2),
                        block_version: read_be16(data, at + 4),
                        ur_record_index: read_be32(data, at + 8),
                        ur_record_length: read_be32(data, at + 12),
                    },
                ),
                at + 16,
            ),
        )
    } else if usi == USI_RS_ALARM_LOW || usi == USI_RS_ALARM_HIGH || usi == USI_RS_ALARM_SUBMODULE {
        if left < 2 {
            return Err("Truncated RS_AlarmItem".to_owned());
        }
        Ok(
            (
                AlarmItem::Rs(
                    RsAlarmItem { user_structure_id: usi, rs_alarm_info: read_be16(data, at) },
                ),
                at + 2,
            ),
        )
    } else if usi == USI_PE_ALARM {
        if left < 7 {
            return Err("Truncated PE_AlarmItem".to_owned());
        }
        Ok(
            (
                AlarmItem::Pe(
                    PeAlarmItem {
                        block_type: read_be16(data, at),
                        block_length: read_be16(data, at + 2),
                        block_version: read_be16(data, at + 4),
                        pe_operational_mode: data[at + 6],
                    },
                ),
                at + 7,
            ),
        )
    } else if usi == USI_PRAL_ALARM {
        if left < 8 {
            return Err("Truncated PRAL_AlarmItem".to_owned());
        }
        Ok(
            (
                AlarmItem::Pral(
                    PralAlarmItem {
                        channel_number: read_be16(data, at),
                        pral_channel_properties: read_be16(data, at + 2),
                        pral_reason: read_be16(data, at + 4),
                        pral_ext_reason: read_be16(data, at + 6),
                        pral_reason_add_value: rest_of(data, at + 8),
                    },
                ),
                data.len(),
            ),
        )
    } else {
        Ok(
            (
                AlarmItem::Generic { user_structure_id: usi, raw_data: rest_of(data, at) },
                data.len(),
            ),
        )
    }
}

fn parse_diagnosis_item(data: &[u8], offset: usize, usi: u16) -> (r: Result<
    (AlarmItem, usize),
    String,
>)
    requires
        offset <= data@.len(),
    ensures
        match diagnosis_item_at(data@, offset as int, usi) {
            Ok((m, next)) => r matches Ok((i, n)) && i@ == m && n == next && offset < n
                <= data@.len(),
            Err(m) => r matches Err(e) && e@ == m,
        },
{
    let left: usize = data.len() - offset;
    if left < 6 {
        return Err("Truncated DiagnosisItem".to_owned());
    }
    let mut item = DiagnosisItem {
        user_structure_id: usi,
        channel_number: read_be16(data, offset),
        channel_properties: read_be16(data, offset + 2),
        channel_error_type: read_be16(data, offset + 4),
        ext_channel_error_type: 0,
        ext_channel_add_value: 0,
        qualified_channel_qualifier: 0,
    };
    let mut next: usize = offset + 6;
    if usi == USI_EXT_CHANNEL_DIAGNOSIS || usi == USI_QUALIFIED_CHANNEL_DIAGNOSIS {
        if left < 12 {
            return Err("Truncated ExtChannelDiagnosis".to_owned());
        }
        item.ext_channel_error_type = read_be16(data, offset + 6);
        item.ext_channel_add_value = read_be32(data, offset + 8);
        next = offset + 12;
    }
    if usi == USI_QUALIFIED_CHANNEL_DIAGNOSIS {
        if left < 16 {
            return Err("Truncated QualifiedChannelDiagnosis".to_owned());
        }
        item.qualified_channel_qualifier = read_be32(data, offset + 12);
        next = offset + 16;
    }
    Ok((AlarmItem::Diagnosis(item), next))
}

/// The alarm items from `off` on, up to the end or the first that does not
/// parse.
pub open spec fn items_from(data: Seq<u8>, off: int) -> Seq<ItemModel>
    decreases data.len() - off,
{
    if off < data.len() {
        match item_at(data, off) {
            Ok((m, next)) => if off < next <= data.len() {
                seq![m] + items_from(data, next)
            } else {
                Seq::empty()
            },
            Err(_) => Seq::empty(),
        }
    } else {
        Seq::empty()
    }
}

/// Complete parsed alarm notification: the header and the alarm items.
#[derive(Debug, PartialEq, Eq, Default)]
pub struct AlarmNotification {
    pub block_type: u16,
    pub block_version: (u8, u8),
    pub alarm_type: u16,
    pub api: u32,
    pub slot_number: u16,
    pub subslot_number: u16,
    pub module_ident_number: u32,
    pub submodule_ident_number: u32,
    /// Bits 0-10 of the alarm specifier.
    pub alarm_sequence_number: u16,
    /// Bit 11.
    pub channel_diagnosis: bool,
    /// Bit 12.
    pub manufacturer_specific: bool,
    /// Bit 13.
    pub submodule_diagnosis_state: bool,
    /// Bit 14.
    pub ar_diagnosis_state: bool,
    /// Parsed alarm payload items.
    pub items: Vec<AlarmItem>,
    /// Raw payload for debugging.
    pub raw_payload: Vec<u8>,
}

impl Clone for AlarmItem {
    fn clone(&self) -> (r: AlarmItem)
        ensures
            r@ == self@,
    {
        match self {
            AlarmItem::Diagnosis(i) => AlarmItem::Diagnosis(*i),
            AlarmItem::Maintenance(i) => AlarmItem::Maintenance(*i),
            AlarmItem::UploadRetrieval(i) => AlarmItem::UploadRetrieval(*i),
            AlarmItem::Pe(i) => AlarmItem::Pe(*i),
            AlarmItem::Rs(i) => AlarmItem::Rs(*i),
            AlarmItem::Pral(i) => AlarmItem::Pral(
                PralAlarmItem {
                    channel_number: i.channel_number,
                    pral_channel_properties: i.pral_channel_properties,
                    pral_reason: i.pral_reason,
                    pral_ext_reason: i.pral_ext_reason,
                    pral_reason_add_value: slice_to_vec(i.pral_reason_add_value.as_slice()),
                },
            ),
            AlarmItem::Generic { user_structure_id, raw_data } => AlarmItem::Generic {
                user_structure_id: *user_structure_id,
                raw_data: slice_to_vec(raw_data.as_slice()),
            },
        }
    }
}

impl Clone for AlarmNotification {
    fn clone(&self) -> (r: AlarmNotification)
        ensures
            forall|data: Seq<u8>| r.read_from(data) == self.read_from(data),
    {
        let items: Vec<AlarmItem> = self.items.clone();
        assert(item_models(items@) =~= item_models(self.items@));
        AlarmNotification {
            block_type: self.block_type,
            block_version: (self.block_version.0, self.block_version.1),
            alarm_type: self.alarm_type,
            api: self.api,
            slot_number: self.slot_number,
            subslot_number: self.subslot_number,
            module_ident_number: self.module_ident_number,
            submodule_ident_number: self.submodule_ident_number,
            alarm_sequence_number: self.alarm_sequence_number,
            channel_diagnosis: self.channel_diagnosis,
            manufacturer_specific: self.manufacturer_specific,
            submodule_diagnosis_state: self.submodule_diagnosis_state,
            ar_diagnosis_state: self.ar_diagnosis_state,
            items,
            raw_payload: slice_to_vec(self.raw_payload.as_slice()),
        }
    }
}

/// The models of a list of items.
pub open spec fn item_models(items: Seq<AlarmItem>) -> Seq<ItemModel> {
    Seq::new(items.len(), |i: int| items[i]@)
}

/// `API:slot:subslot`.
pub open spec fn location_text(api: u32, slot: u16, subslot: u16) -> Seq<char> {
    dec(api as nat) + ":"@ + dec(slot as nat) + ":0x"@ + hex(subslot as nat, 4, true)
}

impl AlarmNotification {
    /// True if this is a high-priority alarm.
    pub fn is_high_priority(&self) -> (r: bool)
        ensures
            r == (self.block_type == 0x0001),
    {
        self.block_type == BLOCK_ALARM_NOTIFICATION_HIGH
    }

    /// True if this is a low-priority alarm.
    pub fn is_low_priority(&self) -> (r: bool)
        ensures
            r == (self.block_type == 0x0002),
    {
        self.block_type == BLOCK_ALARM_NOTIFICATION_LOW
    }

    /// Human-readable alarm type.
    pub fn alarm_type_name(&self) -> (r: String)
        ensures
            r@ == alarm_type_text(self.alarm_type),
    {
        get_alarm_type_name(self.alarm_type)
    }

    /// Location string `API:slot:subslot`.
    pub fn location(&self) -> (r: String)
        ensures
            r@ == location_text(self.api, self.slot_number, self.subslot_number),
    {
        let mut s = String::new();
        push_dec(&mut s, self.api as u128);
        s.append(":");
        push_dec(&mut s, self.slot_number as u128);
        s.append(":0x");
        push_hex(&mut s, self.subslot_number as u64, 4, true);
        assert(s@ =~= location_text(self.api, self.slot_number, self.subslot_number));
        s
    }

    /// The notification says what stands in `data`: block header, then alarm
    /// type, API, slot, subslot, module, submodule, specifier, and the items
    /// from offset 28 on.
    pub open spec fn read_from(self, data: Seq<u8>) -> bool {
        let spec_bits = be16_at(data, 24);
        &&& self.block_type == be16_at(data, 0)
        &&& self.block_version == (data[4], data[5])
        &&& self.alarm_type == be16_at(data, 6)
        &&& self.api == be32_at(data, 8)
        &&& self.slot_number == be16_at(data, 12)
        &&& self.subslot_number == be16_at(data, 14)
        &&& self.module_ident_number == be32_at(data, 16)
        &&& self.submodule_ident_number == be32_at(data, 20)
        &&& self.alarm_sequence_number == spec_bits % 0x0800
        &&& self.channel_diagnosis == (spec_bits / 0x0800 % 2 == 1)
        &&& self.manufacturer_specific == (spec_bits / 0x1000 % 2 == 1)
        &&& self.submodule_diagnosis_state == (spec_bits / 0x2000 % 2 == 1)
        &&& self.ar_diagnosis_state == (spec_bits / 0x4000 % 2 == 1)
        &&& item_models(self.items@) == items_from(data.skip(28), 0)
        &&& self.raw_payload@ == data.skip(28)
    }
}

/// Parse a complete AlarmNotification PDU. Items that follow one that does not
/// parse are left out.
pub fn parse_alarm_notification(data: &[u8]) -> (r: Result<AlarmNotification, String>)
    ensures
        r is Ok <==> data@.len() >= 28,
        r matches Ok(n) ==> n.read_from(data@),
        r matches Err(e) ==> e@ == "AlarmNotification too short"@,
{
    if data.len() < 28 {
        return Err("AlarmNotification too short".to_owned());
    }
    let spec_bits: u16 = read_be16(data, 24);
    let payload = slice_subrange(data, 28, data.len());
    assert(payload@ =~= data@.skip(28));
    let items = parse_items(payload);
    Ok(
        AlarmNotification {
            block_type: read_be16(data, 0),
            block_version: (data[4], data[5]),
            alarm_type: read_be16(data, 6),
            api: read_be32(data, 8),
            slot_number: read_be16(data, 12),
            subslot_number: read_be16(data, 14),
            module_ident_number: read_be32(data, 16),
            submodule_ident_number: read_be32(data, 20),
            alarm_sequence_number: spec_bits % 0x0800,
            channel_diagnosis: spec_bits / 0x0800 % 2 == 1,
            manufacturer_specific: spec_bits / 0x1000 % 2 == 1,
            submodule_diagnosis_state: spec_bits / 0x2000 % 2 == 1,
            ar_diagnosis_state: spec_bits / 0x4000 % 2 == 1,
            items,
            raw_payload: slice_to_vec(payload),
        },
    )
}

fn parse_items(payload: &[u8]) -> (r: Vec<AlarmItem>)
    ensures
        item_models(r@) == items_from(payload@, 0),
{
    let mut items: Vec<AlarmItem> = Vec::new();
    let mut offset: usize = 0;
    assert(item_models(items@) + items_from(payload@, 0) =~= items_from(payload@, 0));
    while offset < payload.len()
        invariant
            offset <= payload@.len(),
            item_models(items@) + items_from(payload@, offset as int) == items_from(payload@, 0),
        decreases payload@.len() - offset,
    {
        match parse_alarm_item(payload, offset) {
            Ok((item, next)) => {
                let ghost before = items@;
                items.push(item);
                proof {
                    let rest = items_from(payload@, next as int);
                    assert(item_models(items@) =~= item_models(before).push(item@));
                    assert(item_models(before) + (seq![item@] + rest) =~= item_models(items@)
                        + rest);
                }
                offset = next;
            },
            Err(_) => {
                assert(item_models(items@) + Seq::<ItemModel>::empty() =~= item_models(items@));
                return items;
            },
        }
    }
    assert(item_models(items@) + Seq::<ItemModel>::empty() =~= item_models(items@));
    items
}

/// The local alarm reference of the first complete AlarmCRBlockRes from `off`
/// on. A block reaches 4 bytes plus its length.
pub open spec fn alarm_cr_reference(data: Seq<u8>, off: int) -> Option<u16>
    decreases
            if off < data.len() {
                data.len() - off
            } else {
                0
            },
{
    if off + 6 > data.len() {
        None
    } else if be16_at(data, off) == 0x8103 && off + 12 <= data.len() {
        Some(be16_at(data, off + 8))
    } else {
        alarm_cr_reference(data, off + 4 + be16_at(data, off + 2))
    }
}

/// Scan a connect-response block list for AlarmCRBlockRes (0x8103) and extract
/// the device's local alarm reference. A truncated block is skipped.
pub fn parse_alarm_cr_res(response_data: &[u8]) -> (r: Option<u16>)
    ensures
        r == alarm_cr_reference(response_data@, 0),
{
    let mut offset: usize = 0;
    while response_data.len() - offset >= 6
        invariant
            offset <= response_data@.len(),
            alarm_cr_reference(response_data@, offset as int) == alarm_cr_reference(
                response_data@,
                0,
            ),
        decreases response_data@.len() - offset,
    {
        let left: usize = response_data.len() - offset;
        if read_be16(response_data, offset) == BLOCK_ALARM_CR_RES && left >= 12 {
            return Some(read_be16(response_data, offset + 8));
        }
        let step: usize = 4 + read_be16(response_data, offset + 2) as usize;
        if step > left {
            assert(alarm_cr_reference(response_data@, offset + step) is None);
            return None;
        }
        offset = offset + step;
    }
    None
}

/// An alarm item as a device lays it out: the USI, then the fields of the item in
/// their order.
pub open spec fn laid_out_item(m: ItemModel) -> Seq<u8> {
    match m {
        ItemModel::Diagnosis(i) => be16(i.user_structure_id) + be16(i.channel_number) + be16(
            i.channel_properties,
        ) + be16(i.channel_error_type) + (if i.user_structure_id == 0x8000 {
            Seq::empty()
        } else {
            be16(i.ext_channel_error_type) + be32(i.ext_channel_add_value)
        }) + (if i.user_structure_id == 0x8003 {
            be32(i.qualified_channel_qualifier)
        } else {
            Seq::empty()
        }),
        ItemModel::Maintenance(i) => be16(0x8100) + be16(i.block_type) + be16(i.block_length)
            + be16(i.block_version) + seq![0u8, 0] + be32(i.maintenance_status),
        ItemModel::UploadRetrieval(i) => be16(i.user_structure_id) + be16(i.block_type) + be16(
            i.block_length,
        ) + be16(i.block_version) + seq![0u8, 0] + be32(i.ur_record_index) + be32(
            i.ur_record_length,
        ),
        ItemModel::Pe(i) => be16(0x8310) + be16(i.block_type) + be16(i.block_length) + be16(
            i.block_version,
        ) + seq![i.pe_operational_mode],
        ItemModel::Rs(i) => be16(i.user_structure_id) + be16(i.rs_alarm_info),
        ItemModel::Pral { channel, properties, reason, ext_reason, add_value } => be16(0x8320)
            + be16(channel) + be16(properties) + be16(reason) + be16(ext_reason) + add_value,
        ItemModel::Generic { usi, raw } => be16(usi) + raw,
    }
}

/// The item has a USI of its kind, and fields that its USI does not call for are
/// zero.
pub open spec fn valid_item(m: ItemModel) -> bool {
    match m {
        ItemModel::Diagnosis(i) => {
            let usi = i.user_structure_id;
            &&& usi == 0x8000 || usi == 0x8002 || usi == 0x8003
            &&& usi == 0x8000 ==> i.ext_channel_error_type == 0 && i.ext_channel_add_value == 0
            &&& usi != 0x8003 ==> i.qualified_channel_qualifier == 0
        },
        ItemModel::UploadRetrieval(i) => i.user_structure_id == 0x8200 || i.user_structure_id
            == 0x8201,
        ItemModel::Rs(i) => 0x8300 <= i.user_structure_id <= 0x8302,
        ItemModel::Generic { usi, .. } => usi != 0x8000 && usi != 0x8002 && usi != 0x8003 && usi
            != 0x8100 && usi != 0x8200 && usi != 0x8201 && !(0x8300 <= usi <= 0x8302) && usi
            != 0x8310 && usi != 0x8320,
        _ => true,
    }
}

/// The item takes all that is left of a payload.
pub open spec fn takes_the_rest(m: ItemModel) -> bool {
    m is Pral || m is Generic
}

proof fn lemma_block_fields(d: Seq<u8>, k: int, usi: u16, a: u16, b: u16, c: u16)
    requires
        0 <= k,
        k + 8 <= d.len(),
        d.subrange(k, k + 8) == be16(usi) + be16(a) + be16(b) + be16(c),
    ensures
        be16_at(d, k) == usi,
        be16_at(d, k + 2) == a,
        be16_at(d, k + 4) == b,
        be16_at(d, k + 6) == c,
{
    let s = d.subrange(k, k + 8);
    assert(forall|i: int| 0 <= i < 8 ==> d[k + i] == #[trigger] s[i]);
    assert(s[0] == be16(usi)[0] && s[1] == be16(usi)[1]);
    assert(s[2] == be16(a)[0] && s[3] == be16(a)[1]);
    assert(s[4] == be16(b)[0] && s[5] == be16(b)[1]);
    assert(s[6] == be16(c)[0] && s[7] == be16(c)[1]);
    be16_placed(d, k, usi);
    be16_placed(d, k + 2, a);
    be16_placed(d, k + 4, b);
    be16_placed(d, k + 6, c);
}

proof fn lemma_diagnosis_item(pre: Seq<u8>, m: ItemModel, post: Seq<u8>)
    requires
        m is Diagnosis,
        valid_item(m),
        takes_the_rest(m) ==> post.len() == 0,
    ensures
        item_at(pre + laid_out_item(m) + post, pre.len() as int) == Ok::<
            (ItemModel, int),
            Seq<char>,
        >((m, (pre.len() + laid_out_item(m).len()) as int)),
{
    let d = pre + laid_out_item(m) + post;
    let k = pre.len() as int;
    let i = m->Diagnosis_0;
    assert(d.subrange(k, k + 8) =~= be16(i.user_structure_id) + be16(i.channel_number)
        + be16(i.channel_properties) + be16(i.channel_error_type));
    lemma_block_fields(
        d,
        k,
        i.user_structure_id,
        i.channel_number,
        i.channel_properties,
        i.channel_error_type,
    );
    if i.user_structure_id != 0x8000 {
        be16_placed(d, k + 8, i.ext_channel_error_type);
        be32_placed(d, k + 10, i.ext_channel_add_value);
    }
    if i.user_structure_id == 0x8003 {
        be32_placed(d, k + 14, i.qualified_channel_qualifier);
    }
}

proof fn lemma_maintenance_item(pre: Seq<u8>, m: ItemModel, post: Seq<u8>)
    requires
        m is Maintenance,
        valid_item(m),
        takes_the_rest(m) ==> post.len() == 0,
    ensures
        item_at(pre + laid_out_item(m) + post, pre.len() as int) == Ok::<
            (ItemModel, int),
            Seq<char>,
        >((m, (pre.len() + laid_out_item(m).len()) as int)),
{
    let d = pre + laid_out_item(m) + post;
    let k = pre.len() as int;
    let i = m->Maintenance_0;
    assert(d.subrange(k, k + 8) =~= be16(0x8100) + be16(i.block_type) + be16(i.block_length)
        + be16(i.block_version));
    lemma_block_fields(d, k, 0x8100, i.block_type, i.block_length, i.block_version);
    be32_placed(d, k + 10, i.maintenance_status);
}

proof fn lemma_upload_item(pre: Seq<u8>, m: ItemModel, post: Seq<u8>)
    requires
        m is UploadRetrieval,
        valid_item(m),
        takes_the_rest(m) ==> post.len() == 0,
    ensures
        item_at(pre + laid_out_item(m) + post, pre.len() as int) == Ok::<
            (ItemModel, int),
            Seq<char>,
        >((m, (pre.len() + laid_out_item(m).len()) as int)),
{
    let d = pre + laid_out_item(m) + post;
    let k = pre.len() as int;
    let i = m->UploadRetrieval_0;
    assert(d.subrange(k, k + 8) =~= be16(i.user_structure_id) + be16(i.block_type) + be16(
        i.block_length,
    ) + be16(i.block_version));
    lemma_block_fields(
        d,
        k,
        i.user_structure_id,
        i.block_type,
        i.block_length,
        i.block_version,
    );
    be32_placed(d, k + 10, i.ur_record_index);
    be32_placed(d, k + 14, i.ur_record_length);
}

proof fn lemma_pe_item(pre: Seq<u8>, m: ItemModel, post: Seq<u8>)
    requires
        m is Pe,
        valid_item(m),
        takes_the_rest(m) ==> post.len() == 0,
    ensures
        item_at(pre + laid_out_item(m) + post, pre.len() as int) == Ok::<
            (ItemModel, int),
            Seq<char>,
        >((m, (pre.len() + laid_out_item(m).len()) as int)),
{
    let d = pre + laid_out_item(m) + post;
    let k = pre.len() as int;
    let i = m->Pe_0;
    assert(d.subrange(k, k + 8) =~= be16(0x8310) + be16(i.block_type) + be16(i.block_length)
        + be16(i.block_version));
    lemma_block_fields(d, k, 0x8310, i.block_type, i.block_length, i.block_version);
    assert(d[k + 8] == i.pe_operational_mode);
}

proof fn lemma_rs_item(pre: Seq<u8>, m: ItemModel, post: Seq<u8>)
    requires
        m is Rs,
        valid_item(m),
        takes_the_rest(m) ==> post.len() == 0,
    ensures
        item_at(pre + laid_out_item(m) + post, pre.len() as int) == Ok::<
            (ItemModel, int),
            Seq<char>,
        >((m, (pre.len() + laid_out_item(m).len()) as int)),
{
    let d = pre + laid_out_item(m) + post;
    let k = pre.len() as int;
    let i = m->Rs_0;
    be16_placed(d, k, i.user_structure_id);
    be16_placed(d, k + 2, i.rs_alarm_info);
}

proof fn lemma_pral_item(pre: Seq<u8>, m: ItemModel, post: Seq<u8>)
    requires
        m is Pral,
        valid_item(m),
        takes_the_rest(m) ==> post.len() == 0,
    ensures
        item_at(pre + laid_out_item(m) + post, pre.len() as int) == Ok::<
            (ItemModel, int),
            Seq<char>,
        >((m, (pre.len() + laid_out_item(m).len()) as int)),
{
    let d = pre + laid_out_item(m) + post;
    let k = pre.len() as int;
    let channel = m->channel;
    let properties = m->properties;
    let reason = m->reason;
    let ext_reason = m->ext_reason;
    let add_value = m->add_value;
    assert(d.subrange(k, k + 8) =~= be16(0x8320) + be16(channel) + be16(properties) + be16(
        reason,
    ));
    lemma_block_fields(d, k, 0x8320, channel, properties, reason);
    be16_placed(d, k + 8, ext_reason);
    assert(d.skip(k + 10) =~= add_value);
}

proof fn lemma_generic_item(pre: Seq<u8>, m: ItemModel, post: Seq<u8>)
    requires
        m is Generic,
        valid_item(m),
        takes_the_rest(m) ==> post.len() == 0,
    ensures
        item_at(pre + laid_out_item(m) + post, pre.len() as int) == Ok::<
            (ItemModel, int),
            Seq<char>,
        >((m, (pre.len() + laid_out_item(m).len()) as int)),
{
    let d = pre + laid_out_item(m) + post;
    let k = pre.len() as int;
    let usi = m->usi;
    let raw = m->raw;
    be16_placed(d, k, usi);
    assert(d.skip(k + 2) =~= raw);
}

/// An alarm item reads back as it was laid out, wherever it stands: each field
/// from its own bytes, and the next item begins behind the last of them.
pub proof fn items_read_back(pre: Seq<u8>, m: ItemModel, post: Seq<u8>)
    requires
        valid_item(m),
        takes_the_rest(m) ==> post.len() == 0,
    ensures
        item_at(pre + laid_out_item(m) + post, pre.len() as int) == Ok::<
            (ItemModel, int),
            Seq<char>,
        >((m, (pre.len() + laid_out_item(m).len()) as int)),
{
    match m {
        ItemModel::Diagnosis(_) => lemma_diagnosis_item(pre, m, post),
        ItemModel::Maintenance(_) => lemma_maintenance_item(pre, m, post),
        ItemModel::UploadRetrieval(_) => lemma_upload_item(pre, m, post),
        ItemModel::Pe(_) => lemma_pe_item(pre, m, post),
        ItemModel::Rs(_) => lemma_rs_item(pre, m, post),
        ItemModel::Pral { .. } => lemma_pral_item(pre, m, post),
        ItemModel::Generic { .. } => lemma_generic_item(pre, m, post),
    }
}

/// Items as a device lays them out, one behind the other.
pub open spec fn laid_out_items(s: Seq<ItemModel>) -> Seq<u8>
    decreases s.len(),
{
    if s.len() == 0 {
        Seq::empty()
    } else {
        laid_out_item(s[0]) + laid_out_items(s.skip(1))
    }
}

proof fn lemma_items(pre: Seq<u8>, s: Seq<ItemModel>)
    requires
        forall|i: int| 0 <= i < s.len() ==> valid_item(#[trigger] s[i]),
        forall|i: int| 0 <= i < s.len() - 1 ==> !takes_the_rest(#[trigger] s[i]),
    ensures
        items_from(pre + laid_out_items(s), pre.len() as int) == s,
    decreases s.len(),
{
    let d = pre + laid_out_items(s);
    if s.len() > 0 {
        let rest = s.skip(1);
        let first = laid_out_item(s[0]);
        let tail = laid_out_items(rest);
        assert(valid_item(s[0]));
        if s.len() > 1 {
            assert(!takes_the_rest(s[0]));
        } else {
            assert(tail =~= Seq::empty());
        }
        items_read_back(pre, s[0], tail);
        assert(d =~= pre + first + tail);
        assert(first.len() >= 2);
        assert(forall|i: int| 0 <= i < rest.len() ==> rest[i] == #[trigger] s[i + 1]);
        assert forall|i: int| 0 <= i < rest.len() implies valid_item(#[trigger] rest[i]) by {
            assert(rest[i] == s[i + 1]);
        }
        assert forall|i: int| 0 <= i < rest.len() - 1 implies !takes_the_rest(
            #[trigger] rest[i],
        ) by {
            assert(rest[i] == s[i + 1]);
        }
        lemma_items(pre + first, rest);
        assert(d =~= (pre + first) + tail);
        assert(seq![s[0]] + rest =~= s);
    } else {
        assert(s =~= Seq::empty());
    }
}

/// The specifier of a notification: the sequence number and four flags above it.
pub open spec fn laid_out_specifier(
    sequence: u16,
    channel: bool,
    manufacturer: bool,
    submodule: bool,
    ar: bool,
) -> u16 {
    (sequence + (if channel {
        0x0800int
    } else {
        0
    }) + (if manufacturer {
        0x1000int
    } else {
        0
    }) + (if submodule {
        0x2000int
    } else {
        0
    }) + (if ar {
        0x4000int
    } else {
        0
    })) as u16
}

/// What a notification says before its items.
pub struct NotificationHead {
    pub block_type: u16,
    pub length: u16,
    pub version: (u8, u8),
    pub alarm_type: u16,
    pub api: u32,
    pub slot: u16,
    pub subslot: u16,
    pub module: u32,
    pub submodule: u32,
    pub sequence: u16,
    pub channel: bool,
    pub manufacturer: bool,
    pub submodule_state: bool,
    pub ar: bool,
}

/// The 28 bytes before the items: block header, alarm type, API, slot, subslot,
/// module, submodule, specifier, and two more.
pub open spec fn laid_out_head(h: NotificationHead, pad: (u8, u8)) -> Seq<u8> {
    be16(h.block_type) + be16(h.length) + seq![h.version.0, h.version.1] + be16(h.alarm_type)
        + be32(h.api) + be16(h.slot) + be16(h.subslot) + be32(h.module) + be32(h.submodule) + be16(
        laid_out_specifier(h.sequence, h.channel, h.manufacturer, h.submodule_state, h.ar),
    ) + seq![pad.0, pad.1]
}

proof fn lemma_specifier(sequence: u16, channel: bool, manufacturer: bool, submodule: bool, ar: bool)
    requires
        sequence < 0x0800,
    ensures
        ({
            let bits = laid_out_specifier(sequence, channel, manufacturer, submodule, ar);
            &&& bits % 0x0800 == sequence
            &&& (bits / 0x0800 % 2 == 1) == channel
            &&& (bits / 0x1000 % 2 == 1) == manufacturer
            &&& (bits / 0x2000 % 2 == 1) == submodule
            &&& (bits / 0x4000 % 2 == 1) == ar
        }),
{
}

proof fn lemma_notification_head(h: NotificationHead, pad: (u8, u8))
    ensures
        ({
            let d = laid_out_head(h, pad);
            &&& d.len() == 28
            &&& be16_at(d, 0) == h.block_type
            &&& (d[4], d[5]) == h.version
            &&& be16_at(d, 6) == h.alarm_type
            &&& be32_at(d, 8) == h.api
            &&& be16_at(d, 12) == h.slot
            &&& be16_at(d, 14) == h.subslot
            &&& be32_at(d, 16) == h.module
            &&& be32_at(d, 20) == h.submodule
            &&& be16_at(d, 24) == laid_out_specifier(
                h.sequence,
                h.channel,
                h.manufacturer,
                h.submodule_state,
                h.ar,
            )
        }),
{
    let bits = laid_out_specifier(h.sequence, h.channel, h.manufacturer, h.submodule_state, h.ar);
    let d = laid_out_head(h, pad);
    be16_placed(d, 0, h.block_type);
    be16_placed(d, 6, h.alarm_type);
    be32_placed(d, 8, h.api);
    be16_placed(d, 12, h.slot);
    be16_placed(d, 14, h.subslot);
    be32_placed(d, 16, h.module);
    be32_placed(d, 20, h.submodule);
    be16_placed(d, 24, bits);
}

/// A notification reads back as it was laid out: block header, alarm type, API,
/// slot, subslot, module, submodule, specifier, and every one of its items in
/// order.
pub proof fn notifications_read_back(
    n: AlarmNotification,
    h: NotificationHead,
    pad: (u8, u8),
    items: Seq<ItemModel>,
)
    requires
        h.sequence < 0x0800,
        forall|i: int| 0 <= i < items.len() ==> valid_item(#[trigger] items[i]),
        forall|i: int| 0 <= i < items.len() - 1 ==> !takes_the_rest(#[trigger] items[i]),
        n.read_from(laid_out_head(h, pad) + laid_out_items(items)),
    ensures
        n.block_type == h.block_type,
        n.block_version == h.version,
        n.alarm_type == h.alarm_type,
        n.api == h.api,
        n.slot_number == h.slot,
        n.subslot_number == h.subslot,
        n.module_ident_number == h.module,
        n.submodule_ident_number == h.submodule,
        n.alarm_sequence_number == h.sequence,
        n.channel_diagnosis == h.channel,
        n.manufacturer_specific == h.manufacturer,
        n.submodule_diagnosis_state == h.submodule_state,
        n.ar_diagnosis_state == h.ar,
        item_models(n.items@) == items,
        n.raw_payload@ == laid_out_items(items),
{
    let head = laid_out_head(h, pad);
    let d = head + laid_out_items(items);
    lemma_notification_head(h, pad);
    lemma_specifier(h.sequence, h.channel, h.manufacturer, h.submodule_state, h.ar);
    front_reads(head, laid_out_items(items));
    assert(d.skip(28) =~= laid_out_items(items));
    lemma_items(Seq::empty(), items);
    assert(Seq::<u8>::empty() + laid_out_items(items) =~= laid_out_items(items));
}

/// A block of a connect response: type, length of what follows, and the body,
/// which begins with the block version.
pub open spec fn response_block(block_type: u16, body: Seq<u8>) -> Seq<u8> {
    be16(block_type) + be16(body.len() as u16) + body
}

/// Blocks of a connect response, one behind the other.
pub open spec fn response_blocks_of(s: Seq<(u16, Seq<u8>)>) -> Seq<u8>
    decreases s.len(),
{
    if s.len() == 0 {
        Seq::empty()
    } else {
        response_block(s[0].0, s[0].1) + response_blocks_of(s.skip(1))
    }
}

/// The device's alarm reference is found in a connect response, behind whatever
/// other blocks, and is the one in its AlarmCRBlockRes.
pub proof fn the_alarm_reference_is_found(
    pre: Seq<u8>,
    before: Seq<(u16, Seq<u8>)>,
    cr_type: u16,
    reference: u16,
    max_length: u16,
    after: Seq<u8>,
)
    requires
        forall|i: int|
            0 <= i < before.len() ==> (#[trigger] before[i]).0 != 0x8103 && 2 <= before[i].1.len()
                <= 0xFFFF,
    ensures
        alarm_cr_reference(
            pre + response_blocks_of(before) + response_block(
                0x8103,
                seq![0x01u8, 0x00] + be16(cr_type) + be16(reference) + be16(max_length),
            ) + after,
            pre.len() as int,
        ) == Some(reference),
    decreases before.len(),
{
    let last = response_block(
        0x8103,
        seq![0x01u8, 0x00] + be16(cr_type) + be16(reference) + be16(max_length),
    );
    let d = pre + response_blocks_of(before) + last + after;
    let k = pre.len() as int;
    if before.len() == 0 {
        assert(d =~= pre + last + after);
        be16_placed(d, k, 0x8103);
        be16_placed(d, k + 8, reference);
    } else {
        let rest = before.skip(1);
        let first = response_block(before[0].0, before[0].1);
        assert(d =~= (pre + first) + response_blocks_of(rest) + last + after);
        be16_placed(d, k, before[0].0);
        be16_placed(d, k + 2, before[0].1.len() as u16);
        assert(forall|i: int| 0 <= i < rest.len() ==> rest[i] == #[trigger] before[i + 1]);
        the_alarm_reference_is_found(pre + first, rest, cr_type, reference, max_length, after);
    }
}

} // verus!
