//! Record data index definitions: constants for the standardized indices by
//! category, and the names of indices, block types and alarm structures.
//!
//! Index ranges determine the addressing scope:
//! - 0x0000-0x7FFF: user or manufacturer specific
//! - 0x8000-0x8FFF: subslot level
//! - 0xA000-0xAFFF: I&M data (slot level)
//! - 0xC000-0xCFFF: slot level
//! - 0xE000-0xEFFF: AR (application relationship) level
//! - 0xF000-0xF7FF: API level
//! - 0xF800-0xFBFF: device level

use vstd::prelude::*;
use vstd::string::*;
use crate::text::{dec, hex, push_dec, push_hex};

verus! {

// Block Types

// Diagnosis blocks
pub const BLOCK_DIAGNOSIS_DATA: u16 = 0x0010;
pub const BLOCK_EXPECTED_IDENTIFICATION_DATA: u16 = 0x0012;
pub const BLOCK_REAL_IDENTIFICATION_DATA: u16 = 0x0013;

// I&M blocks
pub const BLOCK_IM0: u16 = 0x0020;
pub const BLOCK_IM1: u16 = 0x0021;
pub const BLOCK_IM2: u16 = 0x0022;
pub const BLOCK_IM3: u16 = 0x0023;
pub const BLOCK_IM4: u16 = 0x0024;
pub const BLOCK_IM5: u16 = 0x0025;
pub const BLOCK_IM6: u16 = 0x0026;
pub const BLOCK_IM7: u16 = 0x0027;
pub const BLOCK_IM8: u16 = 0x0028;
pub const BLOCK_IM9: u16 = 0x0029;
pub const BLOCK_IM10: u16 = 0x002A;
pub const BLOCK_IM11: u16 = 0x002B;
pub const BLOCK_IM12: u16 = 0x002C;
pub const BLOCK_IM13: u16 = 0x002D;
pub const BLOCK_IM14: u16 = 0x002E;
pub const BLOCK_IM15: u16 = 0x002F;

// Alarm blocks
pub const BLOCK_ALARM_NOTIFICATION_HIGH: u16 = 0x0001;
pub const BLOCK_ALARM_ACK_HIGH: u16 = 0x8001;
pub const BLOCK_ALARM_NOTIFICATION_LOW: u16 = 0x0002;
pub const BLOCK_ALARM_ACK_LOW: u16 = 0x8002;

// IOD Read/Write blocks
pub const BLOCK_IOD_WRITE_REQ: u16 = 0x0008;
pub const BLOCK_IOD_WRITE_RES: u16 = 0x8008;
pub const BLOCK_IOD_READ_REQ: u16 = 0x0009;
pub const BLOCK_IOD_READ_RES: u16 = 0x8009;

// AR data blocks
pub const BLOCK_AR_DATA: u16 = 0x0018;
pub const BLOCK_LOG_DATA: u16 = 0x0019;
pub const BLOCK_API_DATA: u16 = 0x001A;
pub const BLOCK_SRL_DATA: u16 = 0x001B;

// AR/IOCR/AlarmCR connection blocks
pub const BLOCK_AR_REQ: u16 = 0x0101;
pub const BLOCK_AR_RES: u16 = 0x8101;
pub const BLOCK_IOCR_REQ: u16 = 0x0102;
pub const BLOCK_IOCR_RES: u16 = 0x8102;
pub const BLOCK_ALARM_CR_REQ: u16 = 0x0103;
pub const BLOCK_ALARM_CR_RES: u16 = 0x8103;
pub const BLOCK_EXPECTED_SUBMODULE_REQ: u16 = 0x0104;
pub const BLOCK_MODULE_DIFF_BLOCK: u16 = 0x8104;

// Control operation blocks
pub const BLOCK_IOD_CONTROL_PRM_END_REQ: u16 = 0x0110;
pub const BLOCK_IOD_CONTROL_PRM_END_RES: u16 = 0x8110;
pub const BLOCK_IOD_CONTROL_APP_READY_REQ: u16 = 0x0112;
pub const BLOCK_IOD_CONTROL_APP_READY_RES: u16 = 0x8112;
pub const BLOCK_IOD_RELEASE_REQ: u16 = 0x0114;
pub const BLOCK_IOD_RELEASE_RES: u16 = 0x8114;
pub const BLOCK_IOD_CONTROL_RT_CLASS_3_REQ: u16 = 0x0117;
pub const BLOCK_IOD_CONTROL_RT_CLASS_3_RES: u16 = 0x8117;
pub const BLOCK_PRM_BEGIN_REQ: u16 = 0x0118;
pub const BLOCK_PRM_BEGIN_RES: u16 = 0x8118;
/// SubmoduleListBlock (appended to ApplicationReady)
pub const BLOCK_SUBMODULE_LIST: u16 = 0x0119;

// Control command values (bit field, each is BIT(n) per IEC 61158-6-10)
/// BIT(0): End parameter phase
pub const CONTROL_CMD_PRM_END: u16 = 0x0001;
/// BIT(1): Signal application ready
pub const CONTROL_CMD_APPLICATION_READY: u16 = 0x0002;
/// BIT(2): Release AR
pub const CONTROL_CMD_RELEASE: u16 = 0x0004;
/// BIT(3): Confirm/Done (used in CControl response)
pub const CONTROL_CMD_DONE: u16 = 0x0008;
/// BIT(4): Ready for companion AR
pub const CONTROL_CMD_READY_FOR_COMPANION: u16 = 0x0010;
/// BIT(5): Ready for isochronous mode
pub const CONTROL_CMD_READY_FOR_RT_CLASS_3: u16 = 0x0020;
/// BIT(6): Begin parameter phase
pub const CONTROL_CMD_PRM_BEGIN: u16 = 0x0040;

// Port and interface data blocks
pub const BLOCK_PD_PORT_DATA_CHECK: u16 = 0x0200;
pub const BLOCK_PD_PORT_DATA_ADJUST: u16 = 0x0202;
pub const BLOCK_PD_PORT_DATA_REAL: u16 = 0x020F;
pub const BLOCK_PD_INTERFACE_MRP_DATA_ADJUST: u16 = 0x0211;
pub const BLOCK_PD_INTERFACE_MRP_DATA_REAL: u16 = 0x0212;
pub const BLOCK_PD_PORT_MRP_DATA_REAL: u16 = 0x0215;
pub const BLOCK_MRP_RING_STATE_DATA: u16 = 0x0219;
pub const BLOCK_PD_PORT_FO_DATA_REAL: u16 = 0x0220;
pub const BLOCK_PD_PORT_FO_DATA_CHECK: u16 = 0x0221;
pub const BLOCK_PD_PORT_FO_DATA_ADJUST: u16 = 0x0222;
pub const BLOCK_PD_PORT_DATA_REAL_EXTENDED: u16 = 0x022C;
pub const BLOCK_PD_INTERFACE_DATA_REAL: u16 = 0x0240;
pub const BLOCK_PD_PORT_STATISTIC: u16 = 0x0251;

// Container blocks
pub const BLOCK_MULTIPLE_HEADER: u16 = 0x0400;
pub const BLOCK_CO_CONTAINER_CONTENT: u16 = 0x0401;

// Device-level blocks (0xF8xx)
pub const BLOCK_AR_SERVER_BLOCK: u16 = 0xF820;
pub const BLOCK_PD_REAL_DATA: u16 = 0xF841;
pub const BLOCK_PD_EXPECTED_DATA: u16 = 0xF842;

// API-level blocks (0xF0xx)
pub const BLOCK_REAL_IDENTIFICATION_DATA_API: u16 = 0xF000;

// Alarm Types (used in AlarmNotification blocks)

pub const ALARM_TYPE_DIAGNOSIS: u16 = 0x0001;
pub const ALARM_TYPE_PROCESS: u16 = 0x0002;
pub const ALARM_TYPE_PULL: u16 = 0x0003;
pub const ALARM_TYPE_PLUG: u16 = 0x0004;
pub const ALARM_TYPE_STATUS: u16 = 0x0005;
pub const ALARM_TYPE_UPDATE: u16 = 0x0006;
pub const ALARM_TYPE_REDUNDANCY: u16 = 0x0007;
pub const ALARM_TYPE_CONTROLLED_BY_SUPERVISOR: u16 = 0x0008;
pub const ALARM_TYPE_RELEASED: u16 = 0x0009;
pub const ALARM_TYPE_PLUG_WRONG_SUBMODULE: u16 = 0x000A;
pub const ALARM_TYPE_RETURN_OF_SUBMODULE: u16 = 0x000B;
pub const ALARM_TYPE_DIAGNOSIS_DISAPPEARS: u16 = 0x000C;
pub const ALARM_TYPE_MULTICAST_MISMATCH: u16 = 0x000D;
pub const ALARM_TYPE_PORT_DATA_CHANGE: u16 = 0x000E;
pub const ALARM_TYPE_SYNC_DATA_CHANGED: u16 = 0x000F;
pub const ALARM_TYPE_ISOCHRONOUS_MODE_PROBLEM: u16 = 0x0010;
pub const ALARM_TYPE_NETWORK_COMPONENT_PROBLEM: u16 = 0x0011;
pub const ALARM_TYPE_TIME_DATA_CHANGED: u16 = 0x0012;
pub const ALARM_TYPE_DFP_PROBLEM: u16 = 0x0013;
pub const ALARM_TYPE_UPLOAD_RETRIEVAL: u16 = 0x001E;
pub const ALARM_TYPE_PULL_MODULE: u16 = 0x001F;

// IOCR (IO Connection Relationship) Types and Properties

// IOCR Types - used in IOCRBlockReq/Res
/// InputCR - receive data from device
pub const IOCR_TYPE_INPUT: u16 = 0x0001;
/// OutputCR - send data to device
pub const IOCR_TYPE_OUTPUT: u16 = 0x0002;
/// Multicast provider CR
pub const IOCR_TYPE_MULTICAST_PROVIDER: u16 = 0x0003;
/// Multicast consumer CR
pub const IOCR_TYPE_MULTICAST_CONSUMER: u16 = 0x0004;

// IOCR RT Classes (bits 0-3 of IOCRProperties)
/// RT_CLASS_1 (non-IRT, software scheduling)
pub const IOCR_RT_CLASS_1: u8 = 0x01;
/// RT_CLASS_2 (reserved)
pub const IOCR_RT_CLASS_2: u8 = 0x02;
/// RT_CLASS_3 (IRT, hardware scheduling)
pub const IOCR_RT_CLASS_3: u8 = 0x03;
/// RT_CLASS_UDP (UDP-based RT)
pub const IOCR_RT_CLASS_UDP: u8 = 0x04;

// AlarmCR (Alarm Connection Relationship) Types

/// Standard alarm CR
pub const ALARM_CR_TYPE_ALARM: u16 = 0x0001;

// AlarmCR Transport (bit 1 of AlarmCRProperties)
/// RT-Acyclic Class 1 (Layer 2)
pub const ALARM_TRANSPORT_RTA_CLASS_1: u8 = 0x00;
/// RT-Acyclic over UDP
pub const ALARM_TRANSPORT_RTA_CLASS_UDP: u8 = 0x01;

// AR (Application Relationship) Types

/// Standard single AR
pub const AR_TYPE_IOCAR_SINGLE: u16 = 0x0001;
/// Supervisor AR
pub const AR_TYPE_IOSAR: u16 = 0x0006;
/// Single AR with RT_CLASS_3
pub const AR_TYPE_IOCAR_SINGLE_RT_CLASS_3: u16 = 0x0010;
/// System redundancy AR
pub const AR_TYPE_IOCARSR: u16 = 0x0020;

// User Structure Identifiers (USI) for Alarm Items

/// ChannelDiagnosis
pub const USI_CHANNEL_DIAGNOSIS: u16 = 0x8000;
/// MultipleDiagnosis (list of ChannelDiagnosis)
pub const USI_MULTIPLE_DIAGNOSIS: u16 = 0x8001;
/// ExtChannelDiagnosis
pub const USI_EXT_CHANNEL_DIAGNOSIS: u16 = 0x8002;
/// QualifiedChannelDiagnosis
pub const USI_QUALIFIED_CHANNEL_DIAGNOSIS: u16 = 0x8003;
/// MaintenanceItem
pub const USI_MAINTENANCE: u16 = 0x8100;
/// UploadRecord
pub const USI_UPLOAD: u16 = 0x8200;
/// iParameterItem
pub const USI_IPARAMETER: u16 = 0x8201;
/// RS_AlarmItem (low priority)
pub const USI_RS_ALARM_LOW: u16 = 0x8300;
/// RS_AlarmItem (high priority)
pub const USI_RS_ALARM_HIGH: u16 = 0x8301;
/// RS_AlarmItem (submodule)
pub const USI_RS_ALARM_SUBMODULE: u16 = 0x8302;
/// PE_AlarmItem (PROFIenergy)
pub const USI_PE_ALARM: u16 = 0x8310;
/// PRAL_AlarmItem (Pull Request)
pub const USI_PRAL_ALARM: u16 = 0x8320;

// Module/Submodule State Values (for ModuleDiffBlock)

// Module states
pub const MODULE_STATE_NO_MODULE: u16 = 0x0000;
pub const MODULE_STATE_WRONG_MODULE: u16 = 0x0001;
pub const MODULE_STATE_PROPER_MODULE: u16 = 0x0002;
pub const MODULE_STATE_SUBSTITUTE_MODULE: u16 = 0x0003;

// Submodule states
pub const SUBMODULE_STATE_NO_SUBMODULE: u16 = 0x0000;
pub const SUBMODULE_STATE_WRONG_SUBMODULE: u16 = 0x0001;
pub const SUBMODULE_STATE_LOCKED_BY_SUPERVISOR: u16 = 0x0002;
pub const SUBMODULE_STATE_APPLICATION_READY_PENDING: u16 = 0x0004;
pub const SUBMODULE_STATE_OK: u16 = 0x0007;

// PROFIenergy Operational Modes

pub const PE_MODE_POWER_OFF: u8 = 0x00;
/// 0x01-0x1F are energy saving modes
pub const PE_MODE_ENERGY_SAVING_MIN: u8 = 0x01;
pub const PE_MODE_ENERGY_SAVING_MAX: u8 = 0x1F;
pub const PE_MODE_OPERATE: u8 = 0xF0;
pub const PE_MODE_SLEEP_MODE_WOL: u8 = 0xFE;
pub const PE_MODE_READY_TO_OPERATE: u8 = 0xFF;

// I&M (Identification & Maintenance) Indices - 0xAFFx

/// Mandatory: VendorID, OrderID, SerialNumber, HW/SW revision
pub const IM0: u16 = 0xAFF0;
/// Tag_Function + Tag_Location
pub const IM1: u16 = 0xAFF1;
/// Installation_Date
pub const IM2: u16 = 0xAFF2;
/// Descriptor
pub const IM3: u16 = 0xAFF3;
/// Safety signature (PROFIsafe)
pub const IM4: u16 = 0xAFF4;
/// Annotation string
pub const IM5: u16 = 0xAFF5;
/// Reserved for future use
pub const IM6: u16 = 0xAFF6;
/// Reserved for future use
pub const IM7: u16 = 0xAFF7;
/// Reserved for future use
pub const IM8: u16 = 0xAFF8;
/// Reserved for future use
pub const IM9: u16 = 0xAFF9;
/// Reserved for future use
pub const IM10: u16 = 0xAFFA;
/// Reserved for future use
pub const IM11: u16 = 0xAFFB;
/// Reserved for future use
pub const IM12: u16 = 0xAFFC;
/// Reserved for future use
pub const IM13: u16 = 0xAFFD;
/// Reserved for future use
pub const IM14: u16 = 0xAFFE;
/// Reserved for future use
pub const IM15: u16 = 0xAFFF;
/// Lists all submodules with I&M data
pub const IM0_FILTER_DATA: u16 = 0xF840;

// Diagnosis Indices - Pattern: 0x__0A/B/C

// Subslot level (0x800x)
pub const DIAG_CHANNEL_SUBSLOT: u16 = 0x800A;
pub const DIAG_ALL_SUBSLOT: u16 = 0x800B;
pub const DIAG_MAINTENANCE_SUBSLOT: u16 = 0x800C;

// Slot level (0xC00x)
pub const DIAG_CHANNEL_SLOT: u16 = 0xC00A;
pub const DIAG_ALL_SLOT: u16 = 0xC00B;
pub const DIAG_MAINTENANCE_SLOT: u16 = 0xC00C;

// AR level (0xE00x)
pub const DIAG_CHANNEL_AR: u16 = 0xE00A;
pub const DIAG_ALL_AR: u16 = 0xE00B;
pub const DIAG_MAINTENANCE_AR: u16 = 0xE00C;

// API level (0xF00x)
pub const DIAG_CHANNEL_API: u16 = 0xF00A;
pub const DIAG_ALL_API: u16 = 0xF00B;
pub const DIAG_MAINTENANCE_API: u16 = 0xF00C;

// Device level
/// All diagnosis for entire device
pub const DIAG_DEVICE: u16 = 0xF80C;

// Maintenance Indices - Pattern: 0x__10-13

pub const MAINT_REQUIRED_CHANNEL_SUBSLOT: u16 = 0x8010;
pub const MAINT_DEMANDED_CHANNEL_SUBSLOT: u16 = 0x8011;
pub const MAINT_REQUIRED_ALL_SUBSLOT: u16 = 0x8012;
pub const MAINT_DEMANDED_ALL_SUBSLOT: u16 = 0x8013;

// Configuration/Identification Indices

// Subslot level
pub const EXPECTED_ID_SUBSLOT: u16 = 0x8000;
pub const REAL_ID_SUBSLOT: u16 = 0x8001;

// AR level
pub const EXPECTED_ID_AR: u16 = 0xE000;
pub const REAL_ID_AR: u16 = 0xE001;
/// Deviation between expected and real
pub const MODULE_DIFF_BLOCK: u16 = 0xE002;

// API level
pub const REAL_ID_API: u16 = 0xF000;

// Device level
pub const AR_DATA: u16 = 0xF820;
pub const API_DATA: u16 = 0xF821;
pub const PDEV_DATA: u16 = 0xF831;
pub const PD_REAL_DATA: u16 = 0xF841;
pub const PD_EXPECTED_DATA: u16 = 0xF842;
pub const AUTO_CONFIG: u16 = 0xF850;
pub const LOG_DATA: u16 = 0xF830;

// PDPort Indices (for port subslots 0x8001, 0x8002, etc.)

pub const PD_PORT_DATA_REAL: u16 = 0x802A;
pub const PD_PORT_DATA_CHECK: u16 = 0x802B;
pub const PD_IR_DATA: u16 = 0x802C;
pub const PD_SYNC_DATA: u16 = 0x802D;
pub const PD_PORT_DATA_ADJUST: u16 = 0x802F;
pub const PD_PORT_STATISTIC: u16 = 0x8072;

// PDInterface Indices (for interface subslot 0x8000)

pub const PD_NC_DATA_CHECK: u16 = 0x8070;
pub const PD_INTERFACE_ADJUST: u16 = 0x8071;
pub const PD_INTERFACE_DATA_REAL: u16 = 0x8080;
pub const PD_INTERFACE_FSU_ADJUST: u16 = 0x8090;

// Fiber Optic Indices

pub const PD_PORT_FO_DATA_REAL: u16 = 0x8060;
pub const PD_PORT_FO_DATA_CHECK: u16 = 0x8061;
pub const PD_PORT_FO_DATA_ADJUST: u16 = 0x8062;
pub const PD_PORT_SFP_DATA_CHECK: u16 = 0x8063;

// MRP (Media Redundancy Protocol) Indices

// Interface level (subslot 0x8000)
pub const PD_INTERFACE_MRP_DATA_REAL: u16 = 0x8050;
pub const PD_INTERFACE_MRP_DATA_CHECK: u16 = 0x8051;
pub const PD_INTERFACE_MRP_DATA_ADJUST: u16 = 0x8052;

// Port level
pub const PD_PORT_MRP_DATA_ADJUST: u16 = 0x8053;
pub const PD_PORT_MRP_DATA_REAL: u16 = 0x8054;
pub const PD_PORT_MRP_IC_DATA_ADJUST: u16 = 0x8055;
pub const PD_PORT_MRP_IC_DATA_CHECK: u16 = 0x8056;
pub const PD_PORT_MRP_IC_DATA_REAL: u16 = 0x8057;

// Sync/PTCP Indices

pub const PD_IR_SUBFRAME_DATA: u16 = 0x8020;
pub const ISOCHRONOUS_MODE_DATA: u16 = 0x8030;
pub const PD_TIME_DATA: u16 = 0x8031;

// I/O Data Indices

pub const SUBSTITUTE_VALUES: u16 = 0x801E;
pub const RECORD_INPUT_DATA: u16 = 0x8028;
pub const RECORD_OUTPUT_DATA: u16 = 0x8029;

// Asset Management Indices

pub const AM_DEVICE_ID: u16 = 0xF8E0;
pub const AM_FULL_INFO: u16 = 0xF8E1;
pub const AM_HW_ONLY: u16 = 0xF8E2;
pub const AM_FW_ONLY: u16 = 0xF8E3;
pub const AM_LOCATION_SLOT: u16 = 0xFBE0;
pub const AM_LOCATION_TREE: u16 = 0xFBE1;
pub const AM_DATA: u16 = 0xFBF0;

// PROFIsafe Indices

pub const F_PARAMETER_BLOCK: u16 = 0x0100;
pub const F_PRM_FLAG1: u16 = 0x0101;
pub const F_PRM_FLAG2: u16 = 0x0102;
pub const F_PARAMETER_WRITE: u16 = 0xE000;
pub const F_PARAMETER_READ: u16 = 0xE001;

// PROFIenergy Index

pub const PROFIENERGY: u16 = 0x80A0;

// AR-specific Indices

pub const WRITE_MULTIPLE: u16 = 0xE040;
pub const AR_FSU_DATA_ADJUST: u16 = 0xE050;

// Standard DAP Subslots

pub const SUBSLOT_DAP: u16 = 0x0001;
pub const SUBSLOT_INTERFACE: u16 = 0x8000;
pub const SUBSLOT_PORT1: u16 = 0x8001;
pub const SUBSLOT_PORT2: u16 = 0x8002;

fn unknown_code(code: u64, width: usize) -> (r: String)
    ensures
        r@ == "Unknown(0x"@ + hex(code as nat, width as nat, true) + ")"@,
{
    let mut s = "Unknown(0x".to_owned();
    push_hex(&mut s, code, width, true);
    s.append(")");
    s
}

/// The name of a known block type.
pub open spec fn block_type_entry(code: u16) -> Option<Seq<char>> {
    match code {
        BLOCK_ALARM_NOTIFICATION_HIGH => Some("AlarmNotificationHigh"@),
        BLOCK_ALARM_ACK_HIGH => Some("AlarmAckHigh"@),
        BLOCK_ALARM_NOTIFICATION_LOW => Some("AlarmNotificationLow"@),
        BLOCK_ALARM_ACK_LOW => Some("AlarmAckLow"@),
        BLOCK_IOD_WRITE_REQ => Some("IODWriteReqHeader"@),
        BLOCK_IOD_WRITE_RES => Some("IODWriteResHeader"@),
        BLOCK_IOD_READ_REQ => Some("IODReadReqHeader"@),
        BLOCK_IOD_READ_RES => Some("IODReadResHeader"@),
        BLOCK_DIAGNOSIS_DATA => Some("DiagnosisData"@),
        BLOCK_EXPECTED_IDENTIFICATION_DATA => Some("ExpectedIdentificationData"@),
        BLOCK_REAL_IDENTIFICATION_DATA => Some("RealIdentificationData"@),
        BLOCK_IM0 => Some("I&M0"@),
        BLOCK_IM1 => Some("I&M1"@),
        BLOCK_IM2 => Some("I&M2"@),
        BLOCK_IM3 => Some("I&M3"@),
        BLOCK_IM4 => Some("I&M4"@),
        BLOCK_IM5 => Some("I&M5"@),
        BLOCK_IM6 => Some("I&M6"@),
        BLOCK_IM7 => Some("I&M7"@),
        BLOCK_IM8 => Some("I&M8"@),
        BLOCK_IM9 => Some("I&M9"@),
        BLOCK_IM10 => Some("I&M10"@),
        BLOCK_IM11 => Some("I&M11"@),
        BLOCK_IM12 => Some("I&M12"@),
        BLOCK_IM13 => Some("I&M13"@),
        BLOCK_IM14 => Some("I&M14"@),
        BLOCK_IM15 => Some("I&M15"@),
        BLOCK_AR_REQ => Some("ARBlockReq"@),
        BLOCK_AR_RES => Some("ARBlockRes"@),
        BLOCK_IOCR_REQ => Some("IOCRBlockReq"@),
        BLOCK_IOCR_RES => Some("IOCRBlockRes"@),
        BLOCK_ALARM_CR_REQ => Some("AlarmCRBlockReq"@),
        BLOCK_ALARM_CR_RES => Some("AlarmCRBlockRes"@),
        BLOCK_EXPECTED_SUBMODULE_REQ => Some("ExpectedSubmoduleBlockReq"@),
        BLOCK_MODULE_DIFF_BLOCK => Some("ModuleDiffBlock"@),
        BLOCK_IOD_CONTROL_PRM_END_REQ => Some("IODControlReqPrmEnd"@),
        BLOCK_IOD_CONTROL_PRM_END_RES => Some("IODControlResPrmEnd"@),
        BLOCK_IOD_CONTROL_APP_READY_REQ => Some("IODControlReqAppReady"@),
        BLOCK_IOD_CONTROL_APP_READY_RES => Some("IODControlResAppReady"@),
        BLOCK_IOD_RELEASE_REQ => Some("IODReleaseReq"@),
        BLOCK_IOD_RELEASE_RES => Some("IODReleaseRes"@),
        BLOCK_IOD_CONTROL_RT_CLASS_3_REQ => Some("IODControlReqRTClass3"@),
        BLOCK_IOD_CONTROL_RT_CLASS_3_RES => Some("IODControlResRTClass3"@),
        BLOCK_PRM_BEGIN_REQ => Some("PrmBeginReq"@),
        BLOCK_PRM_BEGIN_RES => Some("PrmBeginRes"@),
        BLOCK_SUBMODULE_LIST => Some("SubmoduleListBlock"@),
        BLOCK_AR_DATA => Some("ARData"@),
        BLOCK_LOG_DATA => Some("LogData"@),
        BLOCK_API_DATA => Some("APIData"@),
        BLOCK_SRL_DATA => Some("SRLData"@),
        BLOCK_PD_PORT_DATA_CHECK => Some("PDPortDataCheck"@),
        BLOCK_PD_PORT_DATA_ADJUST => Some("PDPortDataAdjust"@),
        BLOCK_PD_PORT_DATA_REAL => Some("PDPortDataReal"@),
        BLOCK_PD_INTERFACE_MRP_DATA_ADJUST => Some("PDInterfaceMrpDataAdjust"@),
        BLOCK_PD_INTERFACE_MRP_DATA_REAL => Some("PDInterfaceMrpDataReal"@),
        BLOCK_PD_PORT_MRP_DATA_REAL => Some("PDPortMrpDataReal"@),
        BLOCK_MRP_RING_STATE_DATA => Some("MrpRingStateData"@),
        BLOCK_PD_PORT_FO_DATA_REAL => Some("PDPortFODataReal"@),
        BLOCK_PD_PORT_FO_DATA_CHECK => Some("PDPortFODataCheck"@),
        BLOCK_PD_PORT_FO_DATA_ADJUST => Some("PDPortFODataAdjust"@),
        BLOCK_PD_PORT_DATA_REAL_EXTENDED => Some("PDPortDataRealExtended"@),
        BLOCK_PD_INTERFACE_DATA_REAL => Some("PDInterfaceDataReal"@),
        BLOCK_PD_PORT_STATISTIC => Some("PDPortStatistic"@),
        BLOCK_MULTIPLE_HEADER => Some("MultipleBlockHeader"@),
        BLOCK_CO_CONTAINER_CONTENT => Some("COContainerContent"@),
        BLOCK_AR_SERVER_BLOCK => Some("ARServerBlock"@),
        BLOCK_PD_REAL_DATA => Some("PDRealData"@),
        BLOCK_PD_EXPECTED_DATA => Some("PDExpectedData"@),
        BLOCK_REAL_IDENTIFICATION_DATA_API => Some("RealIdentificationDataAPI"@),
        _ => None,
    }
}

fn block_type_lookup(code: u16) -> (r: Option<&'static str>)
    ensures
        match block_type_entry(code) {
            Some(t) => r matches Some(s) && s@ == t,
            None => r is None,
        },
{
    match code {
        BLOCK_ALARM_NOTIFICATION_HIGH => Some("AlarmNotificationHigh"),
        BLOCK_ALARM_ACK_HIGH => Some("AlarmAckHigh"),
        BLOCK_ALARM_NOTIFICATION_LOW => Some("AlarmNotificationLow"),
        BLOCK_ALARM_ACK_LOW => Some("AlarmAckLow"),
        BLOCK_IOD_WRITE_REQ => Some("IODWriteReqHeader"),
        BLOCK_IOD_WRITE_RES => Some("IODWriteResHeader"),
        BLOCK_IOD_READ_REQ => Some("IODReadReqHeader"),
        BLOCK_IOD_READ_RES => Some("IODReadResHeader"),
        BLOCK_DIAGNOSIS_DATA => Some("DiagnosisData"),
        BLOCK_EXPECTED_IDENTIFICATION_DATA => Some("ExpectedIdentificationData"),
        BLOCK_REAL_IDENTIFICATION_DATA => Some("RealIdentificationData"),
        BLOCK_IM0 => Some("I&M0"),
        BLOCK_IM1 => Some("I&M1"),
        BLOCK_IM2 => Some("I&M2"),
        BLOCK_IM3 => Some("I&M3"),
        BLOCK_IM4 => Some("I&M4"),
        BLOCK_IM5 => Some("I&M5"),
        BLOCK_IM6 => Some("I&M6"),
        BLOCK_IM7 => Some("I&M7"),
        BLOCK_IM8 => Some("I&M8"),
        BLOCK_IM9 => Some("I&M9"),
        BLOCK_IM10 => Some("I&M10"),
        BLOCK_IM11 => Some("I&M11"),
        BLOCK_IM12 => Some("I&M12"),
        BLOCK_IM13 => Some("I&M13"),
        BLOCK_IM14 => Some("I&M14"),
        BLOCK_IM15 => Some("I&M15"),
        BLOCK_AR_REQ => Some("ARBlockReq"),
        BLOCK_AR_RES => Some("ARBlockRes"),
        BLOCK_IOCR_REQ => Some("IOCRBlockReq"),
        BLOCK_IOCR_RES => Some("IOCRBlockRes"),
        BLOCK_ALARM_CR_REQ => Some("AlarmCRBlockReq"),
        BLOCK_ALARM_CR_RES => Some("AlarmCRBlockRes"),
        BLOCK_EXPECTED_SUBMODULE_REQ => Some("ExpectedSubmoduleBlockReq"),
        BLOCK_MODULE_DIFF_BLOCK => Some("ModuleDiffBlock"),
        BLOCK_IOD_CONTROL_PRM_END_REQ => Some("IODControlReqPrmEnd"),
        BLOCK_IOD_CONTROL_PRM_END_RES => Some("IODControlResPrmEnd"),
        BLOCK_IOD_CONTROL_APP_READY_REQ => Some("IODControlReqAppReady"),
        BLOCK_IOD_CONTROL_APP_READY_RES => Some("IODControlResAppReady"),
        BLOCK_IOD_RELEASE_REQ => Some("IODReleaseReq"),
        BLOCK_IOD_RELEASE_RES => Some("IODReleaseRes"),
        BLOCK_IOD_CONTROL_RT_CLASS_3_REQ => Some("IODControlReqRTClass3"),
        BLOCK_IOD_CONTROL_RT_CLASS_3_RES => Some("IODControlResRTClass3"),
        BLOCK_PRM_BEGIN_REQ => Some("PrmBeginReq"),
        BLOCK_PRM_BEGIN_RES => Some("PrmBeginRes"),
        BLOCK_SUBMODULE_LIST => Some("SubmoduleListBlock"),
        BLOCK_AR_DATA => Some("ARData"),
        BLOCK_LOG_DATA => Some("LogData"),
        BLOCK_API_DATA => Some("APIData"),
        BLOCK_SRL_DATA => Some("SRLData"),
        BLOCK_PD_PORT_DATA_CHECK => Some("PDPortDataCheck"),
        BLOCK_PD_PORT_DATA_ADJUST => Some("PDPortDataAdjust"),
        BLOCK_PD_PORT_DATA_REAL => Some("PDPortDataReal"),
        BLOCK_PD_INTERFACE_MRP_DATA_ADJUST => Some("PDInterfaceMrpDataAdjust"),
        BLOCK_PD_INTERFACE_MRP_DATA_REAL => Some("PDInterfaceMrpDataReal"),
        BLOCK_PD_PORT_MRP_DATA_REAL => Some("PDPortMrpDataReal"),
        BLOCK_MRP_RING_STATE_DATA => Some("MrpRingStateData"),
        BLOCK_PD_PORT_FO_DATA_REAL => Some("PDPortFODataReal"),
        BLOCK_PD_PORT_FO_DATA_CHECK => Some("PDPortFODataCheck"),
        BLOCK_PD_PORT_FO_DATA_ADJUST => Some("PDPortFODataAdjust"),
        BLOCK_PD_PORT_DATA_REAL_EXTENDED => Some("PDPortDataRealExtended"),
        BLOCK_PD_INTERFACE_DATA_REAL => Some("PDInterfaceDataReal"),
        BLOCK_PD_PORT_STATISTIC => Some("PDPortStatistic"),
        BLOCK_MULTIPLE_HEADER => Some("MultipleBlockHeader"),
        BLOCK_CO_CONTAINER_CONTENT => Some("COContainerContent"),
        BLOCK_AR_SERVER_BLOCK => Some("ARServerBlock"),
        BLOCK_PD_REAL_DATA => Some("PDRealData"),
        BLOCK_PD_EXPECTED_DATA => Some("PDExpectedData"),
        BLOCK_REAL_IDENTIFICATION_DATA_API => Some("RealIdentificationDataAPI"),
        _ => None,
    }
}

/// Human-readable name for a block type.
pub open spec fn block_type_text(code: u16) -> Seq<char> {
    match block_type_entry(code) {
        Some(t) => t,
        None => "Unknown(0x"@ + hex(code as nat, 4, true) + ")"@,
    }
}

/// Human-readable name for a block type.
pub fn get_block_type_name(code: u16) -> (r: String)
    ensures
        r@ == block_type_text(code),
{
    match block_type_lookup(code) {
        Some(name) => name.to_owned(),
        None => unknown_code(code as u64, 4),
    }
}

/// The name of a known alarm type.
pub open spec fn alarm_type_entry(code: u16) -> Option<Seq<char>> {
    match code {
        ALARM_TYPE_DIAGNOSIS => Some("Diagnosis"@),
        ALARM_TYPE_PROCESS => Some("Process"@),
        ALARM_TYPE_PULL => Some("Pull"@),
        ALARM_TYPE_PLUG => Some("Plug"@),
        ALARM_TYPE_STATUS => Some("Status"@),
        ALARM_TYPE_UPDATE => Some("Update"@),
        ALARM_TYPE_REDUNDANCY => Some("Redundancy"@),
        ALARM_TYPE_CONTROLLED_BY_SUPERVISOR => Some("ControlledBySupervisor"@),
        ALARM_TYPE_RELEASED => Some("Released"@),
        ALARM_TYPE_PLUG_WRONG_SUBMODULE => Some("PlugWrongSubmodule"@),
        ALARM_TYPE_RETURN_OF_SUBMODULE => Some("ReturnOfSubmodule"@),
        ALARM_TYPE_DIAGNOSIS_DISAPPEARS => Some("DiagnosisDisappears"@),
        ALARM_TYPE_MULTICAST_MISMATCH => Some("MulticastMismatch"@),
        ALARM_TYPE_PORT_DATA_CHANGE => Some("PortDataChange"@),
        ALARM_TYPE_SYNC_DATA_CHANGED => Some("SyncDataChanged"@),
        ALARM_TYPE_ISOCHRONOUS_MODE_PROBLEM => Some("IsochronousModeProblem"@),
        ALARM_TYPE_NETWORK_COMPONENT_PROBLEM => Some("NetworkComponentProblem"@),
        ALARM_TYPE_TIME_DATA_CHANGED => Some("TimeDataChanged"@),
        ALARM_TYPE_DFP_PROBLEM => Some("DynamicFramePackingProblem"@),
        ALARM_TYPE_UPLOAD_RETRIEVAL => Some("UploadAndRetrieval"@),
        ALARM_TYPE_PULL_MODULE => Some("PullModule"@),
        _ => None,
    }
}

fn alarm_type_lookup(code: u16) -> (r: Option<&'static str>)
    ensures
        match alarm_type_entry(code) {
            Some(t) => r matches Some(s) && s@ == t,
            None => r is None,
        },
{
    match code {
        ALARM_TYPE_DIAGNOSIS => Some("Diagnosis"),
        ALARM_TYPE_PROCESS => Some("Process"),
        ALARM_TYPE_PULL => Some("Pull"),
        ALARM_TYPE_PLUG => Some("Plug"),
        ALARM_TYPE_STATUS => Some("Status"),
        ALARM_TYPE_UPDATE => Some("Update"),
        ALARM_TYPE_REDUNDANCY => Some("Redundancy"),
        ALARM_TYPE_CONTROLLED_BY_SUPERVISOR => Some("ControlledBySupervisor"),
        ALARM_TYPE_RELEASED => Some("Released"),
        ALARM_TYPE_PLUG_WRONG_SUBMODULE => Some("PlugWrongSubmodule"),
        ALARM_TYPE_RETURN_OF_SUBMODULE => Some("ReturnOfSubmodule"),
        ALARM_TYPE_DIAGNOSIS_DISAPPEARS => Some("DiagnosisDisappears"),
        ALARM_TYPE_MULTICAST_MISMATCH => Some("MulticastMismatch"),
        ALARM_TYPE_PORT_DATA_CHANGE => Some("PortDataChange"),
        ALARM_TYPE_SYNC_DATA_CHANGED => Some("SyncDataChanged"),
        ALARM_TYPE_ISOCHRONOUS_MODE_PROBLEM => Some("IsochronousModeProblem"),
        ALARM_TYPE_NETWORK_COMPONENT_PROBLEM => Some("NetworkComponentProblem"),
        ALARM_TYPE_TIME_DATA_CHANGED => Some("TimeDataChanged"),
        ALARM_TYPE_DFP_PROBLEM => Some("DynamicFramePackingProblem"),
        ALARM_TYPE_UPLOAD_RETRIEVAL => Some("UploadAndRetrieval"),
        ALARM_TYPE_PULL_MODULE => Some("PullModule"),
        _ => None,
    }
}

/// Human-readable name for an alarm type.
pub open spec fn alarm_type_text(code: u16) -> Seq<char> {
    match alarm_type_entry(code) {
        Some(t) => t,
        None => "Unknown(0x"@ + hex(code as nat, 4, true) + ")"@,
    }
}

/// Human-readable name for an alarm type.
pub fn get_alarm_type_name(code: u16) -> (r: String)
    ensures
        r@ == alarm_type_text(code),
{
    match alarm_type_lookup(code) {
        Some(name) => name.to_owned(),
        None => unknown_code(code as u64, 4),
    }
}

/// The name of a known IOCR type.
pub open spec fn iocr_type_entry(code: u16) -> Option<Seq<char>> {
    match code {
        IOCR_TYPE_INPUT => Some("InputCR"@),
        IOCR_TYPE_OUTPUT => Some("OutputCR"@),
        IOCR_TYPE_MULTICAST_PROVIDER => Some("MulticastProviderCR"@),
        IOCR_TYPE_MULTICAST_CONSUMER => Some("MulticastConsumerCR"@),
        _ => None,
    }
}

fn iocr_type_lookup(code: u16) -> (r: Option<&'static str>)
    ensures
        match iocr_type_entry(code) {
            Some(t) => r matches Some(s) && s@ == t,
            None => r is None,
        },
{
    match code {
        IOCR_TYPE_INPUT => Some("InputCR"),
        IOCR_TYPE_OUTPUT => Some("OutputCR"),
        IOCR_TYPE_MULTICAST_PROVIDER => Some("MulticastProviderCR"),
        IOCR_TYPE_MULTICAST_CONSUMER => Some("MulticastConsumerCR"),
        _ => None,
    }
}

/// Human-readable name for an IOCR type.
pub open spec fn iocr_type_text(code: u16) -> Seq<char> {
    match iocr_type_entry(code) {
        Some(t) => t,
        None => "Unknown(0x"@ + hex(code as nat, 4, true) + ")"@,
    }
}

/// Human-readable name for an IOCR type.
pub fn get_iocr_type_name(code: u16) -> (r: String)
    ensures
        r@ == iocr_type_text(code),
{
    match iocr_type_lookup(code) {
        Some(name) => name.to_owned(),
        None => unknown_code(code as u64, 4),
    }
}

/// The name of a known RT class.
pub open spec fn iocr_rt_class_entry(code: u8) -> Option<Seq<char>> {
    match code {
        IOCR_RT_CLASS_1 => Some("RT_CLASS_1"@),
        IOCR_RT_CLASS_2 => Some("RT_CLASS_2"@),
        IOCR_RT_CLASS_3 => Some("RT_CLASS_3"@),
        IOCR_RT_CLASS_UDP => Some("RT_CLASS_UDP"@),
        _ => None,
    }
}

fn iocr_rt_class_lookup(code: u8) -> (r: Option<&'static str>)
    ensures
        match iocr_rt_class_entry(code) {
            Some(t) => r matches Some(s) && s@ == t,
            None => r is None,
        },
{
    match code {
        IOCR_RT_CLASS_1 => Some("RT_CLASS_1"),
        IOCR_RT_CLASS_2 => Some("RT_CLASS_2"),
        IOCR_RT_CLASS_3 => Some("RT_CLASS_3"),
        IOCR_RT_CLASS_UDP => Some("RT_CLASS_UDP"),
        _ => None,
    }
}

/// Human-readable name for an IOCR RT class.
pub open spec fn iocr_rt_class_text(code: u8) -> Seq<char> {
    match iocr_rt_class_entry(code) {
        Some(t) => t,
        None => "Unknown(0x"@ + hex(code as nat, 2, true) + ")"@,
    }
}

/// Human-readable name for an IOCR RT class.
pub fn get_iocr_rt_class_name(code: u8) -> (r: String)
    ensures
        r@ == iocr_rt_class_text(code),
{
    match iocr_rt_class_lookup(code) {
        Some(name) => name.to_owned(),
        None => unknown_code(code as u64, 2),
    }
}

/// The name of a known user structure identifier.
pub open spec fn usi_entry(code: u16) -> Option<Seq<char>> {
    match code {
        USI_CHANNEL_DIAGNOSIS => Some("ChannelDiagnosis"@),
        USI_MULTIPLE_DIAGNOSIS => Some("MultipleDiagnosis"@),
        USI_EXT_CHANNEL_DIAGNOSIS => Some("ExtChannelDiagnosis"@),
        USI_QUALIFIED_CHANNEL_DIAGNOSIS => Some("QualifiedChannelDiagnosis"@),
        USI_MAINTENANCE => Some("MaintenanceItem"@),
        USI_UPLOAD => Some("UploadRecord"@),
        USI_IPARAMETER => Some("iParameterItem"@),
        USI_RS_ALARM_LOW => Some("RS_AlarmItem_Low"@),
        USI_RS_ALARM_HIGH => Some("RS_AlarmItem_High"@),
        USI_RS_ALARM_SUBMODULE => Some("RS_AlarmItem_Submodule"@),
        USI_PE_ALARM => Some("PE_AlarmItem"@),
        USI_PRAL_ALARM => Some("PRAL_AlarmItem"@),
        _ => None,
    }
}

fn usi_lookup(code: u16) -> (r: Option<&'static str>)
    ensures
        match usi_entry(code) {
            Some(t) => r matches Some(s) && s@ == t,
            None => r is None,
        },
{
    match code {
        USI_CHANNEL_DIAGNOSIS => Some("ChannelDiagnosis"),
        USI_MULTIPLE_DIAGNOSIS => Some("MultipleDiagnosis"),
        USI_EXT_CHANNEL_DIAGNOSIS => Some("ExtChannelDiagnosis"),
        USI_QUALIFIED_CHANNEL_DIAGNOSIS => Some("QualifiedChannelDiagnosis"),
        USI_MAINTENANCE => Some("MaintenanceItem"),
        USI_UPLOAD => Some("UploadRecord"),
        USI_IPARAMETER => Some("iParameterItem"),
        USI_RS_ALARM_LOW => Some("RS_AlarmItem_Low"),
        USI_RS_ALARM_HIGH => Some("RS_AlarmItem_High"),
        USI_RS_ALARM_SUBMODULE => Some("RS_AlarmItem_Submodule"),
        USI_PE_ALARM => Some("PE_AlarmItem"),
        USI_PRAL_ALARM => Some("PRAL_AlarmItem"),
        _ => None,
    }
}

/// Human-readable name for a user structure identifier; unknown ones are named
/// after the range they lie in.
pub open spec fn usi_text(usi: u16) -> Seq<char> {
    match usi_entry(usi) {
        Some(t) => t,
        None => if usi <= 0x7FFF {
            "ManufacturerSpecific(0x"@ + hex(usi as nat, 4, true) + ")"@
        } else if 0x9000 <= usi <= 0x9FFF {
            "ProfileSpecific(0x"@ + hex(usi as nat, 4, true) + ")"@
        } else {
            "Reserved(0x"@ + hex(usi as nat, 4, true) + ")"@
        },
    }
}

/// Human-readable name for a user structure identifier.
pub fn get_usi_name(usi: u16) -> (r: String)
    ensures
        r@ == usi_text(usi),
{
    match usi_lookup(usi) {
        Some(name) => name.to_owned(),
        None => {
            let mut s = if usi <= 0x7FFF {
                "ManufacturerSpecific(0x".to_owned()
            } else if 0x9000 <= usi && usi <= 0x9FFF {
                "ProfileSpecific(0x".to_owned()
            } else {
                "Reserved(0x".to_owned()
            };
            push_hex(&mut s, usi as u64, 4, true);
            s.append(")");
            s
        },
    }
}

/// Human-readable name for a PROFIenergy mode.
pub open spec fn pe_mode_text(mode: u8) -> Seq<char> {
    if mode == PE_MODE_POWER_OFF {
        "PE_PowerOff"@
    } else if PE_MODE_ENERGY_SAVING_MIN <= mode <= PE_MODE_ENERGY_SAVING_MAX {
        "PE_EnergySavingMode_"@ + dec(mode as nat)
    } else if mode == PE_MODE_OPERATE {
        "PE_Operate"@
    } else if mode == PE_MODE_SLEEP_MODE_WOL {
        "PE_SleepModeWOL"@
    } else if mode == PE_MODE_READY_TO_OPERATE {
        "PE_ReadyToOperate"@
    } else {
        "PE_Reserved(0x"@ + hex(mode as nat, 2, true) + ")"@
    }
}

/// Human-readable name for a PROFIenergy mode.
pub fn get_pe_mode_name(mode: u8) -> (r: String)
    ensures
        r@ == pe_mode_text(mode),
{
    if mode == PE_MODE_POWER_OFF {
        "PE_PowerOff".to_owned()
    } else if PE_MODE_ENERGY_SAVING_MIN <= mode && mode <= PE_MODE_ENERGY_SAVING_MAX {
        let mut s = "PE_EnergySavingMode_".to_owned();
        push_dec(&mut s, mode as u128);
        s
    } else if mode == PE_MODE_OPERATE {
        "PE_Operate".to_owned()
    } else if mode == PE_MODE_SLEEP_MODE_WOL {
        "PE_SleepModeWOL".to_owned()
    } else if mode == PE_MODE_READY_TO_OPERATE {
        "PE_ReadyToOperate".to_owned()
    } else {
        let mut s = "PE_Reserved(0x".to_owned();
        push_hex(&mut s, mode as u64, 2, true);
        s.append(")");
        s
    }
}

/// The name of a standard index.
pub open spec fn standard_index_entry(code: u16) -> Option<Seq<char>> {
    match code {
        IM0 => Some("I&M0"@),
        IM1 => Some("I&M1"@),
        IM2 => Some("I&M2"@),
        IM3 => Some("I&M3"@),
        IM4 => Some("I&M4"@),
        IM5 => Some("I&M5"@),
        IM6 => Some("I&M6"@),
        IM7 => Some("I&M7"@),
        IM8 => Some("I&M8"@),
        IM9 => Some("I&M9"@),
        IM10 => Some("I&M10"@),
        IM11 => Some("I&M11"@),
        IM12 => Some("I&M12"@),
        IM13 => Some("I&M13"@),
        IM14 => Some("I&M14"@),
        IM15 => Some("I&M15"@),
        DIAG_CHANNEL_SUBSLOT => Some("DiagnosisChannel"@),
        DIAG_ALL_SUBSLOT => Some("DiagnosisAll"@),
        DIAG_MAINTENANCE_SUBSLOT => Some("DiagnosisMaintenance"@),
        DIAG_DEVICE => Some("DeviceDiagnosis"@),
        PD_PORT_DATA_REAL => Some("PDPortDataReal"@),
        PD_PORT_DATA_CHECK => Some("PDPortDataCheck"@),
        PD_PORT_DATA_ADJUST => Some("PDPortDataAdjust"@),
        PD_PORT_STATISTIC => Some("PDPortStatistic"@),
        PD_PORT_MRP_DATA_REAL => Some("PDPortMrpDataReal"@),
        PD_INTERFACE_DATA_REAL => Some("PDInterfaceDataReal"@),
        PD_INTERFACE_MRP_DATA_REAL => Some("PDInterfaceMrpDataReal"@),
        PD_NC_DATA_CHECK => Some("PDNCDataCheck"@),
        AR_DATA => Some("ARData"@),
        API_DATA => Some("APIData"@),
        PDEV_DATA => Some("PDevData"@),
        PD_REAL_DATA => Some("PDRealData"@),
        PD_EXPECTED_DATA => Some("PDExpectedData"@),
        LOG_DATA => Some("LogData"@),
        AUTO_CONFIG => Some("AutoConfiguration"@),
        EXPECTED_ID_SUBSLOT => Some("ExpectedIdentificationData"@),
        REAL_ID_SUBSLOT => Some("RealIdentificationData"@),
        MODULE_DIFF_BLOCK => Some("ModuleDiffBlock"@),
        SUBSTITUTE_VALUES => Some("SubstituteValues"@),
        RECORD_INPUT_DATA => Some("RecordInputData"@),
        RECORD_OUTPUT_DATA => Some("RecordOutputData"@),
        _ => None,
    }
}

fn standard_index_lookup(code: u16) -> (r: Option<&'static str>)
    ensures
        match standard_index_entry(code) {
            Some(t) => r matches Some(s) && s@ == t,
            None => r is None,
        },
{
    match code {
        IM0 => Some("I&M0"),
        IM1 => Some("I&M1"),
        IM2 => Some("I&M2"),
        IM3 => Some("I&M3"),
        IM4 => Some("I&M4"),
        IM5 => Some("I&M5"),
        IM6 => Some("I&M6"),
        IM7 => Some("I&M7"),
        IM8 => Some("I&M8"),
        IM9 => Some("I&M9"),
        IM10 => Some("I&M10"),
        IM11 => Some("I&M11"),
        IM12 => Some("I&M12"),
        IM13 => Some("I&M13"),
        IM14 => Some("I&M14"),
        IM15 => Some("I&M15"),
        DIAG_CHANNEL_SUBSLOT => Some("DiagnosisChannel"),
        DIAG_ALL_SUBSLOT => Some("DiagnosisAll"),
        DIAG_MAINTENANCE_SUBSLOT => Some("DiagnosisMaintenance"),
        DIAG_DEVICE => Some("DeviceDiagnosis"),
        PD_PORT_DATA_REAL => Some("PDPortDataReal"),
        PD_PORT_DATA_CHECK => Some("PDPortDataCheck"),
        PD_PORT_DATA_ADJUST => Some("PDPortDataAdjust"),
        PD_PORT_STATISTIC => Some("PDPortStatistic"),
        PD_PORT_MRP_DATA_REAL => Some("PDPortMrpDataReal"),
        PD_INTERFACE_DATA_REAL => Some("PDInterfaceDataReal"),
        PD_INTERFACE_MRP_DATA_REAL => Some("PDInterfaceMrpDataReal"),
        PD_NC_DATA_CHECK => Some("PDNCDataCheck"),
        AR_DATA => Some("ARData"),
        API_DATA => Some("APIData"),
        PDEV_DATA => Some("PDevData"),
        PD_REAL_DATA => Some("PDRealData"),
        PD_EXPECTED_DATA => Some("PDExpectedData"),
        LOG_DATA => Some("LogData"),
        AUTO_CONFIG => Some("AutoConfiguration"),
        EXPECTED_ID_SUBSLOT => Some("ExpectedIdentificationData"),
        REAL_ID_SUBSLOT => Some("RealIdentificationData"),
        MODULE_DIFF_BLOCK => Some("ModuleDiffBlock"),
        SUBSTITUTE_VALUES => Some("SubstituteValues"),
        RECORD_INPUT_DATA => Some("RecordInputData"),
        RECORD_OUTPUT_DATA => Some("RecordOutputData"),
        _ => None,
    }
}

/// The standard indices: I&M, diagnosis (subslot and device), port, interface,
/// device, identification and IO data.
pub open spec fn standard_indices() -> Seq<(u16, Seq<char>)> {
    seq![
        (IM0, "I&M0"@),
        (IM1, "I&M1"@),
        (IM2, "I&M2"@),
        (IM3, "I&M3"@),
        (IM4, "I&M4"@),
        (IM5, "I&M5"@),
        (IM6, "I&M6"@),
        (IM7, "I&M7"@),
        (IM8, "I&M8"@),
        (IM9, "I&M9"@),
        (IM10, "I&M10"@),
        (IM11, "I&M11"@),
        (IM12, "I&M12"@),
        (IM13, "I&M13"@),
        (IM14, "I&M14"@),
        (IM15, "I&M15"@),
        (DIAG_CHANNEL_SUBSLOT, "DiagnosisChannel"@),
        (DIAG_ALL_SUBSLOT, "DiagnosisAll"@),
        (DIAG_MAINTENANCE_SUBSLOT, "DiagnosisMaintenance"@),
        (DIAG_DEVICE, "DeviceDiagnosis"@),
        (PD_PORT_DATA_REAL, "PDPortDataReal"@),
        (PD_PORT_DATA_CHECK, "PDPortDataCheck"@),
        (PD_PORT_DATA_ADJUST, "PDPortDataAdjust"@),
        (PD_PORT_STATISTIC, "PDPortStatistic"@),
        (PD_PORT_MRP_DATA_REAL, "PDPortMrpDataReal"@),
        (PD_INTERFACE_DATA_REAL, "PDInterfaceDataReal"@),
        (PD_INTERFACE_MRP_DATA_REAL, "PDInterfaceMrpDataReal"@),
        (PD_NC_DATA_CHECK, "PDNCDataCheck"@),
        (AR_DATA, "ARData"@),
        (API_DATA, "APIData"@),
        (PDEV_DATA, "PDevData"@),
        (PD_REAL_DATA, "PDRealData"@),
        (PD_EXPECTED_DATA, "PDExpectedData"@),
        (LOG_DATA, "LogData"@),
        (AUTO_CONFIG, "AutoConfiguration"@),
        (EXPECTED_ID_SUBSLOT, "ExpectedIdentificationData"@),
        (REAL_ID_SUBSLOT, "RealIdentificationData"@),
        (MODULE_DIFF_BLOCK, "ModuleDiffBlock"@),
        (SUBSTITUTE_VALUES, "SubstituteValues"@),
        (RECORD_INPUT_DATA, "RecordInputData"@),
        (RECORD_OUTPUT_DATA, "RecordOutputData"@),
    ]
}

/// All standard indices for comprehensive enumeration.
pub fn all_standard_indices() -> (r: Vec<(u16, &'static str)>)
    ensures
        r@.len() == standard_indices().len(),
        forall|i: int|
            0 <= i < r@.len() ==> (#[trigger] r@[i]).0 == standard_indices()[i].0 && r@[i].1@
                == standard_indices()[i].1,
{
    vec![
        (IM0, "I&M0"),
        (IM1, "I&M1"),
        (IM2, "I&M2"),
        (IM3, "I&M3"),
        (IM4, "I&M4"),
        (IM5, "I&M5"),
        (IM6, "I&M6"),
        (IM7, "I&M7"),
        (IM8, "I&M8"),
        (IM9, "I&M9"),
        (IM10, "I&M10"),
        (IM11, "I&M11"),
        (IM12, "I&M12"),
        (IM13, "I&M13"),
        (IM14, "I&M14"),
        (IM15, "I&M15"),
        (DIAG_CHANNEL_SUBSLOT, "DiagnosisChannel"),
        (DIAG_ALL_SUBSLOT, "DiagnosisAll"),
        (DIAG_MAINTENANCE_SUBSLOT, "DiagnosisMaintenance"),
        (DIAG_DEVICE, "DeviceDiagnosis"),
        (PD_PORT_DATA_REAL, "PDPortDataReal"),
        (PD_PORT_DATA_CHECK, "PDPortDataCheck"),
        (PD_PORT_DATA_ADJUST, "PDPortDataAdjust"),
        (PD_PORT_STATISTIC, "PDPortStatistic"),
        (PD_PORT_MRP_DATA_REAL, "PDPortMrpDataReal"),
        (PD_INTERFACE_DATA_REAL, "PDInterfaceDataReal"),
        (PD_INTERFACE_MRP_DATA_REAL, "PDInterfaceMrpDataReal"),
        (PD_NC_DATA_CHECK, "PDNCDataCheck"),
        (AR_DATA, "ARData"),
        (API_DATA, "APIData"),
        (PDEV_DATA, "PDevData"),
        (PD_REAL_DATA, "PDRealData"),
        (PD_EXPECTED_DATA, "PDExpectedData"),
        (LOG_DATA, "LogData"),
        (AUTO_CONFIG, "AutoConfiguration"),
        (EXPECTED_ID_SUBSLOT, "ExpectedIdentificationData"),
        (REAL_ID_SUBSLOT, "RealIdentificationData"),
        (MODULE_DIFF_BLOCK, "ModuleDiffBlock"),
        (SUBSTITUTE_VALUES, "SubstituteValues"),
        (RECORD_INPUT_DATA, "RecordInputData"),
        (RECORD_OUTPUT_DATA, "RecordOutputData"),
    ]
}

/// Every listed index is known by the name it is listed with.
pub proof fn standard_indices_are_named(i: int)
    requires
        0 <= i < standard_indices().len(),
    ensures
        standard_index_entry(standard_indices()[i].0) == Some(standard_indices()[i].1),
{
}

/// Human-readable name for an index; those that are not standard are named
/// after the range they lie in.
pub open spec fn index_text(index: u16) -> Seq<char> {
    match standard_index_entry(index) {
        Some(t) => t,
        None => index_range_text(index) + hex(index as nat, 4, true) + ")"@,
    }
}

/// How the name of an index begins that is not standard.
pub open spec fn index_range_text(index: u16) -> Seq<char> {
    if index <= 0x7FFF {
        "User-specific (0x"@
    } else if 0x8000 <= index <= 0x8FFF {
        "Subslot data (0x"@
    } else if 0xC000 <= index <= 0xCFFF {
        "Slot data (0x"@
    } else if 0xE000 <= index <= 0xEFFF {
        "AR data (0x"@
    } else if 0xF000 <= index <= 0xF7FF {
        "API data (0x"@
    } else if 0xF800 <= index <= 0xFBFF {
        "Device data (0x"@
    } else {
        "Unknown (0x"@
    }
}

/// Human-readable name for an index.
pub fn get_index_name(index: u16) -> (r: String)
    ensures
        r@ == index_text(index),
{
    match standard_index_lookup(index) {
        Some(name) => name.to_owned(),
        None => {
            let mut s = if index <= 0x7FFF {
                "User-specific (0x".to_owned()
            } else if 0x8000 <= index && index <= 0x8FFF {
                "Subslot data (0x".to_owned()
            } else if 0xC000 <= index && index <= 0xCFFF {
                "Slot data (0x".to_owned()
            } else if 0xE000 <= index && index <= 0xEFFF {
                "AR data (0x".to_owned()
            } else if 0xF000 <= index && index <= 0xF7FF {
                "API data (0x".to_owned()
            } else if 0xF800 <= index && index <= 0xFBFF {
                "Device data (0x".to_owned()
            } else {
                "Unknown (0x".to_owned()
            };
            push_hex(&mut s, index as u64, 4, true);
            s.append(")");
            s
        },
    }
}

/// The addressing scope of an index.
pub open spec fn scope_text(index: u16) -> Seq<char> {
    if index <= 0x7FFF {
        "user"@
    } else if index <= 0x8FFF {
        "subslot"@
    } else if 0xA000 <= index <= 0xAFFF || 0xC000 <= index <= 0xCFFF {
        "slot"@
    } else if 0xE000 <= index <= 0xEFFF {
        "ar"@
    } else if 0xF000 <= index <= 0xF7FF {
        "api"@
    } else if 0xF800 <= index <= 0xFBFF {
        "device"@
    } else {
        "unknown"@
    }
}

/// Get the addressing scope for an index.
pub fn get_scope(index: u16) -> (r: &'static str)
    ensures
        r@ == scope_text(index),
{
    if index <= 0x7FFF {
        "user"
    } else if index <= 0x8FFF {
        "subslot"
    } else if (0xA000 <= index && index <= 0xAFFF) || (0xC000 <= index && index <= 0xCFFF) {
        "slot"
    } else if 0xE000 <= index && index <= 0xEFFF {
        "ar"
    } else if 0xF000 <= index && index <= 0xF7FF {
        "api"
    } else if 0xF800 <= index && index <= 0xFBFF {
        "device"
    } else {
        "unknown"
    }
}

/// Critical indices that should always be tested.
pub const CRITICAL_INDICES: [(u16, &'static str); 7] = [
    (IM0, "I&M0 (mandatory)"),
    (IM0_FILTER_DATA, "I&M0FilterData"),
    (DIAG_DEVICE, "Device Diagnosis"),
    (MODULE_DIFF_BLOCK, "ModuleDiffBlock"),
    (PD_REAL_DATA, "PDRealData"),
    (AR_DATA, "ARData"),
    (LOG_DATA, "LogData"),
];

/// Diagnosis indices at slot level.
pub const DIAGNOSIS_INDICES_SLOT: [(u16, &'static str); 3] = [
    (DIAG_CHANNEL_SLOT, "DiagnosisChannel"),
    (DIAG_ALL_SLOT, "DiagnosisAll"),
    (DIAG_MAINTENANCE_SLOT, "DiagnosisMaintenance"),
];

/// Diagnosis indices at AR level.
pub const DIAGNOSIS_INDICES_AR: [(u16, &'static str); 3] = [
    (DIAG_CHANNEL_AR, "DiagnosisChannel"),
    (DIAG_ALL_AR, "DiagnosisAll"),
    (DIAG_MAINTENANCE_AR, "DiagnosisMaintenance"),
];

/// Diagnosis indices at API level.
pub const DIAGNOSIS_INDICES_API: [(u16, &'static str); 3] = [
    (DIAG_CHANNEL_API, "DiagnosisChannel"),
    (DIAG_ALL_API, "DiagnosisAll"),
    (DIAG_MAINTENANCE_API, "DiagnosisMaintenance"),
];

/// Names of the alarm CR types.
pub const ALARM_CR_TYPE_NAMES: [(u16, &'static str); 1] = [
    (ALARM_CR_TYPE_ALARM, "AlarmCR"),
];

/// Names of the alarm transports.
pub const ALARM_TRANSPORT_NAMES: [(u8, &'static str); 2] = [
    (ALARM_TRANSPORT_RTA_CLASS_1, "RTA_CLASS_1"),
    (ALARM_TRANSPORT_RTA_CLASS_UDP, "RTA_CLASS_UDP"),
];

/// Names of the AR types.
pub const AR_TYPE_NAMES: [(u16, &'static str); 4] = [
    (AR_TYPE_IOCAR_SINGLE, "IOCARSingle"),
    (AR_TYPE_IOSAR, "IOSAR"),
    (AR_TYPE_IOCAR_SINGLE_RT_CLASS_3, "IOCARSingle_RT_CLASS_3"),
    (AR_TYPE_IOCARSR, "IOCARSR"),
];

/// Names of the module states.
pub const MODULE_STATE_NAMES: [(u16, &'static str); 4] = [
    (MODULE_STATE_NO_MODULE, "NoModule"),
    (MODULE_STATE_WRONG_MODULE, "WrongModule"),
    (MODULE_STATE_PROPER_MODULE, "ProperModule"),
    (MODULE_STATE_SUBSTITUTE_MODULE, "SubstituteModule"),
];

/// Names of the submodule states.
pub const SUBMODULE_STATE_NAMES: [(u16, &'static str); 5] = [
    (SUBMODULE_STATE_NO_SUBMODULE, "NoSubmodule"),
    (SUBMODULE_STATE_WRONG_SUBMODULE, "WrongSubmodule"),
    (SUBMODULE_STATE_LOCKED_BY_SUPERVISOR, "LockedBySupervisor"),
    (SUBMODULE_STATE_APPLICATION_READY_PENDING, "ApplicationReadyPending"),
    (SUBMODULE_STATE_OK, "OK"),
];

} // verus!
