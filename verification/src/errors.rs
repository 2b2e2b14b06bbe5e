//! Protocol errors: the PNIO status with its error codes and message tables,
//! and the error type that gathers every kind of failure.

use vstd::prelude::*;
use vstd::string::*;
use crate::text::{hex, push_hex};

verus! {

/// PNIO application error with error codes.
///
/// Byte 0: ErrorCode (0x01 application, 0xCF RTA, 0xDA alarm ack, 0xDB
/// connect, and so on). Byte 1: ErrorDecode (0x40 PNIO-CM, 0x80 PNIORW, 0x81
/// PNIO). Byte 2: ErrorCode1 (category or block type). Byte 3: ErrorCode2
/// (specific error).
#[derive(Debug, Clone, PartialEq, Eq)]
pub struct PnioError {
    pub message: String,
    pub error_code: u8,
    pub error_decode: u8,
    pub error_code1: u8,
    pub error_code2: u8,
}

/// Messages of read and write errors (ErrorDecode 0x80).
pub open spec fn pniorw_entry(code1: u8, code2: u8) -> Option<Seq<char>> {
    match (code1, code2) {
        (0xB0, 0x00) => Some("Index not supported"@),
        (0xB0, 0x05) => Some("Index exists but not written"@),
        (0xB1, 0x00) => Some("Write length error"@),
        (0xB1, 0x01) => Some("Write data too short"@),
        (0xB1, 0x02) => Some("Write data too long"@),
        (0xB1, 0x03) => Some("Write access denied (write protected)"@),
        (0xB2, 0x00) => Some("Resource not available"@),
        (0xB2, 0x07) => Some("Invalid slot number"@),
        (0xB2, 0x08) => Some("Invalid subslot number"@),
        (0xB2, 0x09) => Some("Module has no data"@),
        (0xB3, 0x00) => Some("Access denied (invalid area)"@),
        (0xB3, 0x03) => Some("Access denied"@),
        (0xB3, 0x04) => Some("Access denied (invalid range)"@),
        (0xB3, 0x05) => Some("Access denied (invalid state for access)"@),
        (0xB3, 0x06) => Some("Access denied (local control)"@),
        (0xB4, 0x00) => Some("Read error"@),
        (0xB4, 0x01) => Some("Write error"@),
        (0xB4, 0x02) => Some("Module failure"@),
        (0xB4, 0x04) => Some("Resource busy"@),
        (0xB4, 0x05) => Some("Version conflict"@),
        (0xB4, 0x06) => Some("Invalid API number"@),
        (0xB4, 0x07) => Some("Backup not allowed"@),
        (0xB4, 0x08) => Some("Alarm pending"@),
        _ => None,
    }
}

fn pniorw_lookup(code1: u8, code2: u8) -> (r: Option<&'static str>)
    ensures
        match pniorw_entry(code1, code2) {
            Some(t) => r matches Some(s) && s@ == t,
            None => r is None,
        },
{
    match (code1, code2) {
        (0xB0, 0x00) => Some("Index not supported"),
        (0xB0, 0x05) => Some("Index exists but not written"),
        (0xB1, 0x00) => Some("Write length error"),
        (0xB1, 0x01) => Some("Write data too short"),
        (0xB1, 0x02) => Some("Write data too long"),
        (0xB1, 0x03) => Some("Write access denied (write protected)"),
        (0xB2, 0x00) => Some("Resource not available"),
        (0xB2, 0x07) => Some("Invalid slot number"),
        (0xB2, 0x08) => Some("Invalid subslot number"),
        (0xB2, 0x09) => Some("Module has no data"),
        (0xB3, 0x00) => Some("Access denied (invalid area)"),
        (0xB3, 0x03) => Some("Access denied"),
        (0xB3, 0x04) => Some("Access denied (invalid range)"),
        (0xB3, 0x05) => Some("Access denied (invalid state for access)"),
        (0xB3, 0x06) => Some("Access denied (local control)"),
        (0xB4, 0x00) => Some("Read error"),
        (0xB4, 0x01) => Some("Write error"),
        (0xB4, 0x02) => Some("Module failure"),
        (0xB4, 0x04) => Some("Resource busy"),
        (0xB4, 0x05) => Some("Version conflict"),
        (0xB4, 0x06) => Some("Invalid API number"),
        (0xB4, 0x07) => Some("Backup not allowed"),
        (0xB4, 0x08) => Some("Alarm pending"),
        _ => None,
    }
}

/// Messages of general errors (ErrorDecode 0x81), remote protocol machine included.
pub open spec fn pnio_entry(code1: u8, code2: u8) -> Option<Seq<char>> {
    match (code1, code2) {
        (0x40, 0x00) => Some("Invalid arguments length"@),
        (0x40, 0x01) => Some("Unknown blocks in request"@),
        (0x40, 0x02) => Some("Required IOCR block missing"@),
        (0x40, 0x03) => Some("Wrong AlarmCR block count"@),
        (0x40, 0x04) => Some("Out of AR resources"@),
        (0x3D, 0x00) => Some("Parameter server state conflict"@),
        _ => None,
    }
}

fn pnio_lookup(code1: u8, code2: u8) -> (r: Option<&'static str>)
    ensures
        match pnio_entry(code1, code2) {
            Some(t) => r matches Some(s) && s@ == t,
            None => r is None,
        },
{
    match (code1, code2) {
        (0x40, 0x00) => Some("Invalid arguments length"),
        (0x40, 0x01) => Some("Unknown blocks in request"),
        (0x40, 0x02) => Some("Required IOCR block missing"),
        (0x40, 0x03) => Some("Wrong AlarmCR block count"),
        (0x40, 0x04) => Some("Out of AR resources"),
        (0x3D, 0x00) => Some("Parameter server state conflict"),
        _ => None,
    }
}

/// Messages of connection management errors (ErrorDecode 0x40).
pub open spec fn pniocm_entry(code1: u8, code2: u8) -> Option<Seq<char>> {
    match (code1, code2) {
        (0x01, 0x00) => Some("Invalid AR type"@),
        (0x01, 0x01) => Some("AR already active"@),
        (0x01, 0x02) => Some("Out of AR resources"@),
        (0x01, 0x03) => Some("Out of provider resources"@),
        (0x01, 0x04) => Some("Out of consumer resources"@),
        (0x01, 0x05) => Some("Out of alarm resources"@),
        (0x01, 0x06) => Some("Out of memory"@),
        (0x01, 0x07) => Some("Invalid session key"@),
        (0x01, 0x08) => Some("AR UUID conflict"@),
        (0x81, 0x00) => Some("Invalid AR type (in response)"@),
        (0x81, 0x01) => Some("AR already active"@),
        (0x81, 0x02) => Some("Out of AR resources"@),
        (0x81, 0x03) => Some("Out of provider resources"@),
        (0x81, 0x04) => Some("Out of consumer resources"@),
        (0x81, 0x05) => Some("Out of alarm resources"@),
        (0x81, 0x06) => Some("Out of memory"@),
        (0x81, 0x07) => Some("Invalid session key"@),
        (0x81, 0x08) => Some("AR UUID conflict"@),
        (0x02, 0x00) => Some("Invalid IOCR type"@),
        (0x02, 0x01) => Some("Out of IOCR resources"@),
        (0x02, 0x02) => Some("Invalid frame ID"@),
        (0x02, 0x03) => Some("Invalid RT class"@),
        (0x02, 0x04) => Some("Invalid IO data length"@),
        (0x02, 0x05) => Some("Cycle time conflict"@),
        (0x02, 0x06) => Some("Watchdog configuration error"@),
        (0x82, 0x00) => Some("Invalid IOCR type (in response)"@),
        (0x82, 0x01) => Some("Out of IOCR resources"@),
        (0x82, 0x02) => Some("Invalid frame ID"@),
        (0x82, 0x03) => Some("Invalid RT class"@),
        (0x82, 0x04) => Some("Invalid IO data length"@),
        (0x82, 0x05) => Some("Cycle time conflict"@),
        (0x82, 0x06) => Some("Watchdog configuration error"@),
        (0x03, 0x00) => Some("Invalid AlarmCR type"@),
        (0x03, 0x01) => Some("Out of AlarmCR resources"@),
        (0x83, 0x00) => Some("Invalid AlarmCR type (in response)"@),
        (0x83, 0x01) => Some("Out of AlarmCR resources"@),
        (0x04, 0x00) => Some("Invalid slot in ExpectedSubmodule"@),
        (0x04, 0x01) => Some("Invalid subslot in ExpectedSubmodule"@),
        (0x04, 0x02) => Some("Wrong module ident number"@),
        (0x04, 0x03) => Some("Wrong submodule ident number"@),
        (0x04, 0x04) => Some("IO data length mismatch"@),
        (0x3F, 0x00) => Some("Device state conflict (AR may be active)"@),
        (0x3F, 0x01) => Some("Connect resource unavailable"@),
        (0x3F, 0x02) => Some("Device already owned by another controller"@),
        (0x3F, 0x03) => Some("AR set aborted"@),
        (0xFF, 0x00) => Some("Faulty block structure"@),
        _ => None,
    }
}

fn pniocm_lookup(code1: u8, code2: u8) -> (r: Option<&'static str>)
    ensures
        match pniocm_entry(code1, code2) {
            Some(t) => r matches Some(s) && s@ == t,
            None => r is None,
        },
{
    match (code1, code2) {
        (0x01, 0x00) => Some("Invalid AR type"),
        (0x01, 0x01) => Some("AR already active"),
        (0x01, 0x02) => Some("Out of AR resources"),
        (0x01, 0x03) => Some("Out of provider resources"),
        (0x01, 0x04) => Some("Out of consumer resources"),
        (0x01, 0x05) => Some("Out of alarm resources"),
        (0x01, 0x06) => Some("Out of memory"),
        (0x01, 0x07) => Some("Invalid session key"),
        (0x01, 0x08) => Some("AR UUID conflict"),
        (0x81, 0x00) => Some("Invalid AR type (in response)"),
        (0x81, 0x01) => Some("AR already active"),
        (0x81, 0x02) => Some("Out of AR resources"),
        (0x81, 0x03) => Some("Out of provider resources"),
        (0x81, 0x04) => Some("Out of consumer resources"),
        (0x81, 0x05) => Some("Out of alarm resources"),
        (0x81, 0x06) => Some("Out of memory"),
        (0x81, 0x07) => Some("Invalid session key"),
        (0x81, 0x08) => Some("AR UUID conflict"),
        (0x02, 0x00) => Some("Invalid IOCR type"),
        (0x02, 0x01) => Some("Out of IOCR resources"),
        (0x02, 0x02) => Some("Invalid frame ID"),
        (0x02, 0x03) => Some("Invalid RT class"),
        (0x02, 0x04) => Some("Invalid IO data length"),
        (0x02, 0x05) => Some("Cycle time conflict"),
        (0x02, 0x06) => Some("Watchdog configuration error"),
        (0x82, 0x00) => Some("Invalid IOCR type (in response)"),
        (0x82, 0x01) => Some("Out of IOCR resources"),
        (0x82, 0x02) => Some("Invalid frame ID"),
        (0x82, 0x03) => Some("Invalid RT class"),
        (0x82, 0x04) => Some("Invalid IO data length"),
        (0x82, 0x05) => Some("Cycle time conflict"),
        (0x82, 0x06) => Some("Watchdog configuration error"),
        (0x03, 0x00) => Some("Invalid AlarmCR type"),
        (0x03, 0x01) => Some("Out of AlarmCR resources"),
        (0x83, 0x00) => Some("Invalid AlarmCR type (in response)"),
        (0x83, 0x01) => Some("Out of AlarmCR resources"),
        (0x04, 0x00) => Some("Invalid slot in ExpectedSubmodule"),
        (0x04, 0x01) => Some("Invalid subslot in ExpectedSubmodule"),
        (0x04, 0x02) => Some("Wrong module ident number"),
        (0x04, 0x03) => Some("Wrong submodule ident number"),
        (0x04, 0x04) => Some("IO data length mismatch"),
        (0x3F, 0x00) => Some("Device state conflict (AR may be active)"),
        (0x3F, 0x01) => Some("Connect resource unavailable"),
        (0x3F, 0x02) => Some("Device already owned by another controller"),
        (0x3F, 0x03) => Some("AR set aborted"),
        (0xFF, 0x00) => Some("Faulty block structure"),
        _ => None,
    }
}

/// The block that ErrorCode1 of a connection management error names.
pub open spec fn cm_block_entry(code1: u8) -> Option<Seq<char>> {
    match code1 {
        0x01 => Some("ARBlockReq"@),
        0x02 => Some("IOCRBlockReq"@),
        0x03 => Some("AlarmCRBlockReq"@),
        0x04 => Some("ExpectedSubmoduleBlockReq"@),
        0x05 => Some("ModuleDiffBlock"@),
        0x06 => Some("ARRPCBlock"@),
        0x07 => Some("IRInfoBlock"@),
        0x08 => Some("SRInfoBlock"@),
        0x09 => Some("ARFSUBlock"@),
        0x10 => Some("IODControlReq"@),
        0x11 => Some("IODControlRes"@),
        0x81 => Some("ARBlockRes"@),
        0x82 => Some("IOCRBlockRes"@),
        0x83 => Some("AlarmCRBlockRes"@),
        0x84 => Some("ModuleDiffBlockRes"@),
        0x85 => Some("ARServerBlockRes"@),
        0x3D => Some("PrmServer"@),
        0x3E => Some("CMCTL"@),
        0x3F => Some("CMDEV"@),
        0x40 => Some("CMRPC"@),
        0xFD => Some("FaultyRecord"@),
        0xFE => Some("FaultyAR"@),
        0xFF => Some("FaultyBlock"@),
        _ => None,
    }
}

fn cm_block_name(code1: u8) -> (r: Option<&'static str>)
    ensures
        match cm_block_entry(code1) {
            Some(t) => r matches Some(s) && s@ == t,
            None => r is None,
        },
{
    match code1 {
        0x01 => Some("ARBlockReq"),
        0x02 => Some("IOCRBlockReq"),
        0x03 => Some("AlarmCRBlockReq"),
        0x04 => Some("ExpectedSubmoduleBlockReq"),
        0x05 => Some("ModuleDiffBlock"),
        0x06 => Some("ARRPCBlock"),
        0x07 => Some("IRInfoBlock"),
        0x08 => Some("SRInfoBlock"),
        0x09 => Some("ARFSUBlock"),
        0x10 => Some("IODControlReq"),
        0x11 => Some("IODControlRes"),
        0x81 => Some("ARBlockRes"),
        0x82 => Some("IOCRBlockRes"),
        0x83 => Some("AlarmCRBlockRes"),
        0x84 => Some("ModuleDiffBlockRes"),
        0x85 => Some("ARServerBlockRes"),
        0x3D => Some("PrmServer"),
        0x3E => Some("CMCTL"),
        0x3F => Some("CMDEV"),
        0x40 => Some("CMRPC"),
        0xFD => Some("FaultyRecord"),
        0xFE => Some("FaultyAR"),
        0xFF => Some("FaultyBlock"),
        _ => None,
    }
}

/// The message of an error status.
pub open spec fn error_message(decode: u8, code1: u8, code2: u8) -> Seq<char> {
    if decode == 0x40 {
        match pniocm_entry(code1, code2) {
            Some(m) => m,
            None => "Unknown CM error in "@ + match cm_block_entry(code1) {
                Some(b) => b,
                None => "block 0x"@ + hex(code1 as nat, 2, true),
            },
        }
    } else if decode == 0x81 {
        match pnio_entry(code1, code2) {
            Some(m) => m,
            None => match pniorw_entry(code1, code2) {
                Some(m) => m,
                None => "Unknown PNIO error"@,
            },
        }
    } else if decode == 0x80 {
        match pniorw_entry(code1, code2) {
            Some(m) => m,
            None => "Unknown PNIORW error"@,
        }
    } else {
        "Unknown error (Decode=0x"@ + hex(decode as nat, 2, true) + ")"@
    }
}

/// What is printed of an error status.
pub open spec fn error_text(message: Seq<char>, decode: u8, code1: u8, code2: u8) -> Seq<char> {
    if decode == 0x40 {
        message + " [CM:"@ + cm_block_text(code1) + ", EC2=0x"@ + hex(code2 as nat, 2, true) + "]"@
    } else {
        message + " [ErrorCode1=0x"@ + hex(code1 as nat, 2, true) + ", ErrorCode2=0x"@ + hex(
            code2 as nat,
            2,
            true,
        ) + "]"@
    }
}

/// The block that a connection management error names, known or not.
pub open spec fn cm_block_text(code1: u8) -> Seq<char> {
    match cm_block_entry(code1) {
        Some(b) => b,
        None => "Unknown(0x"@ + hex(code1 as nat, 2, true) + ")"@,
    }
}

impl PnioError {
    // ErrorDecode values
    /// Connection Management errors
    pub const DECODE_PNIO_CM: u8 = 0x40;
    /// Read/Write errors
    pub const DECODE_PNIORW: u8 = 0x80;
    /// General PNIO errors
    pub const DECODE_PNIO: u8 = 0x81;

    // ErrorCode values
    pub const PNIO_ERROR: u8 = 0xDE;
    /// Application error
    pub const ERROR_APP: u8 = 0x01;
    /// RTA error
    pub const ERROR_RTA: u8 = 0xCF;
    /// Alarm Ack error
    pub const ERROR_ALARM_ACK: u8 = 0xDA;
    /// IOD Connect error
    pub const ERROR_IOD_CONN: u8 = 0xDB;
    /// IOD Release error
    pub const ERROR_IOD_REL: u8 = 0xDC;
    /// IOD Control error
    pub const ERROR_IOD_CTRL: u8 = 0xDD;
    /// IOD Read/Write error
    pub const ERROR_IOD_RW: u8 = 0xDE;
    /// MPM error
    pub const ERROR_MPM: u8 = 0xDF;

    // ErrorCode1 categories for PNIORW (ErrorDecode=0x80)
    /// Invalid index
    pub const EC1_INVALID_INDEX: u8 = 0xB0;
    /// Write length error
    pub const EC1_WRITE_LENGTH: u8 = 0xB1;
    /// Slot/Subslot errors
    pub const EC1_RESOURCE: u8 = 0xB2;
    /// Access errors
    pub const EC1_ACCESS: u8 = 0xB3;
    /// API errors
    pub const EC1_APPLICATION: u8 = 0xB4;
    pub const EC1_USER_SPECIFIC_1: u8 = 0xB5;
    pub const EC1_USER_SPECIFIC_2: u8 = 0xB6;
    pub const EC1_USER_SPECIFIC_3: u8 = 0xB7;
    pub const EC1_USER_SPECIFIC_4: u8 = 0xB8;
    pub const EC1_USER_SPECIFIC_5: u8 = 0xB9;

    // ErrorCode2 for EC1_INVALID_INDEX (0xB0)
    pub const EC2_INDEX_UNSUPPORTED: u8 = 0x00;
    /// Index exists but not written yet
    pub const EC2_INDEX_NOT_WRITTEN: u8 = 0x05;

    // ErrorCode2 for EC1_WRITE_LENGTH (0xB1)
    pub const EC2_WRITE_LENGTH_ERROR: u8 = 0x00;
    pub const EC2_WRITE_TOO_SHORT: u8 = 0x01;
    pub const EC2_WRITE_TOO_LONG: u8 = 0x02;
    /// Write protected
    pub const EC2_WRITE_ACCESS_DENIED: u8 = 0x03;

    // ErrorCode2 for EC1_RESOURCE (0xB2)
    pub const EC2_INVALID_SLOT: u8 = 0x07;
    pub const EC2_INVALID_SUBSLOT: u8 = 0x08;
    /// No data for this module
    pub const EC2_MODULE_NO_DATA: u8 = 0x09;

    // ErrorCode2 for EC1_ACCESS (0xB3)
    pub const EC2_ACCESS_INVALID_AREA: u8 = 0x00;
    pub const EC2_ACCESS_DENIED: u8 = 0x03;
    pub const EC2_ACCESS_INVALID_RANGE: u8 = 0x04;
    pub const EC2_ACCESS_INVALID_STATE: u8 = 0x05;
    pub const EC2_ACCESS_DENIED_LOCAL: u8 = 0x06;

    // ErrorCode2 for EC1_APPLICATION (0xB4)
    pub const EC2_READ_ERROR: u8 = 0x00;
    pub const EC2_WRITE_ERROR: u8 = 0x01;
    pub const EC2_MODULE_FAILURE: u8 = 0x02;
    pub const EC2_BUSY: u8 = 0x04;
    pub const EC2_VERSION_CONFLICT: u8 = 0x05;
    pub const EC2_INVALID_API: u8 = 0x06;
    pub const EC2_NOT_BACKUP_ALLOWED: u8 = 0x07;
    pub const EC2_ALARM_PENDING: u8 = 0x08;

    // PNIO-CM ErrorCode1 values (block type references)
    // Request blocks (0x01-0x0F)
    /// ARBlockReq error
    pub const CM_EC1_AR: u8 = 0x01;
    /// IOCRBlockReq error
    pub const CM_EC1_IOCR: u8 = 0x02;
    /// AlarmCRBlockReq error
    pub const CM_EC1_ALARM_CR: u8 = 0x03;
    /// ExpectedSubmoduleBlockReq error
    pub const CM_EC1_EXPECTED_SUBMOD: u8 = 0x04;
    /// ModuleDiffBlock error
    pub const CM_EC1_MODULE_DIFF: u8 = 0x05;
    /// AR-RPC error
    pub const CM_EC1_AR_RPC: u8 = 0x06;
    // Response blocks (0x81-0x8F = 0x80 | request type)
    /// ARBlockRes error
    pub const CM_EC1_AR_RES: u8 = 0x81;
    /// IOCRBlockRes error
    pub const CM_EC1_IOCR_RES: u8 = 0x82;
    /// AlarmCRBlockRes error
    pub const CM_EC1_ALARM_CR_RES: u8 = 0x83;
    /// ModuleDiffBlockRes error
    pub const CM_EC1_MODULE_DIFF_RES: u8 = 0x84;
    // CM internal
    /// Parameter server errors
    pub const CM_EC1_PRM_SERVER: u8 = 0x3D;
    /// CM Controller errors
    pub const CM_EC1_CMCTL: u8 = 0x3E;
    /// CM Device errors
    pub const CM_EC1_CMDEV: u8 = 0x3F;
    /// Remote Protocol Machine errors
    pub const CM_EC1_RMPM: u8 = 0x40;
    /// Faulty record
    pub const CM_EC1_FAULTY_RECORD: u8 = 0xFD;
    /// Faulty AR block
    pub const CM_EC1_FAULTY_AR: u8 = 0xFE;
    /// Faulty block (general)
    pub const CM_EC1_FAULTY_BLOCK: u8 = 0xFF;

    // PNIO ErrorCode2 values for RMPM (CM_EC1_RMPM = 0x40)
    /// Invalid argument length
    pub const RMPM_ARGS_LEN_INVALID: u8 = 0x00;
    /// Unknown blocks in request
    pub const RMPM_UNKNOWN_BLOCKS: u8 = 0x01;
    /// Required IOCR missing
    pub const RMPM_IOCR_MISSING: u8 = 0x02;
    /// Wrong AlarmCR block count
    pub const RMPM_WRONG_ALCR_COUNT: u8 = 0x03;
    /// Out of AR resources
    pub const RMPM_OUT_OF_AR_RESOURCES: u8 = 0x04;

    // PNIO-CM ErrorCode2 values for AR (CM_EC1_AR = 0x01)
    pub const CM_AR_INVALID_TYPE: u8 = 0x00;
    pub const CM_AR_ALREADY_ACTIVE: u8 = 0x01;
    pub const CM_AR_OUT_OF_AR: u8 = 0x02;
    pub const CM_AR_OUT_OF_PROVIDER: u8 = 0x03;
    pub const CM_AR_OUT_OF_CONSUMER: u8 = 0x04;
    pub const CM_AR_OUT_OF_ALARM: u8 = 0x05;
    pub const CM_AR_OUT_OF_MEMORY: u8 = 0x06;
    pub const CM_AR_INVALID_SESSION: u8 = 0x07;
    pub const CM_AR_UUID_CONFLICT: u8 = 0x08;

    // PNIO-CM ErrorCode2 values for IOCR (CM_EC1_IOCR = 0x02)
    pub const CM_IOCR_INVALID_TYPE: u8 = 0x00;
    pub const CM_IOCR_OUT_OF_RESOURCES: u8 = 0x01;
    pub const CM_IOCR_INVALID_FRAME_ID: u8 = 0x02;
    pub const CM_IOCR_INVALID_RT_CLASS: u8 = 0x03;
    pub const CM_IOCR_INVALID_DATA_LEN: u8 = 0x04;
    pub const CM_IOCR_CYCLE_CONFLICT: u8 = 0x05;
    pub const CM_IOCR_WATCHDOG_ERR: u8 = 0x06;

    // PNIO-CM ErrorCode2 values for ExpectedSubmodule (CM_EC1_EXPECTED_SUBMOD = 0x04)
    pub const CM_SUBMOD_INVALID_SLOT: u8 = 0x00;
    pub const CM_SUBMOD_INVALID_SUBSLOT: u8 = 0x01;
    pub const CM_SUBMOD_WRONG_MODULE: u8 = 0x02;
    pub const CM_SUBMOD_WRONG_SUBMOD: u8 = 0x03;
    pub const CM_SUBMOD_IO_LEN_MISMATCH: u8 = 0x04;

    // PNIO-CM ErrorCode2 values for CMDEV (CM_EC1_CMDEV = 0x3F)
    pub const CM_DEV_STATE_CONFLICT: u8 = 0x00;
    pub const CM_DEV_CONNECT_RESOURCE: u8 = 0x01;
    pub const CM_DEV_ALREADY_OWNED: u8 = 0x02;
    pub const CM_DEV_AR_SET_ABORT: u8 = 0x03;

    /// Create a `PnioError` from a 4-byte error status: ErrorCode,
    /// ErrorDecode, ErrorCode1, ErrorCode2.
    pub fn from_bytes(data: &[u8]) -> (r: PnioError)
        ensures
            data@.len() < 4 ==> r.message@ == "Incomplete error data"@ && r.error_code == 0
                && r.error_decode == 0 && r.error_code1 == 0 && r.error_code2 == 0,
            data@.len() >= 4 ==> r.message@ == error_message(data@[1], data@[2], data@[3])
                && r.error_code == data@[0] && r.error_decode == data@[1] && r.error_code1
                == data@[2] && r.error_code2 == data@[3],
    {
        if data.len() < 4 {
            return PnioError {
                message: "Incomplete error data".to_owned(),
                error_code: 0,
                error_decode: 0,
                error_code1: 0,
                error_code2: 0,
            };
        }
        PnioError::from_codes(data[0], data[1], data[2], data[3])
    }

    /// Create a `PnioError` from a status field that was read in the opposite
    /// byte order: the lowest byte is ErrorCode, the highest ErrorCode2. The
    /// wire bytes 01 40 81 DB, read as 0x014081DB, are connect error RMPM
    /// unknown blocks.
    pub fn from_args_status(args_status: u32) -> (r: PnioError)
        ensures
            r.error_code == args_status % 0x100,
            r.error_decode == args_status / 0x100 % 0x100,
            r.error_code1 == args_status / 0x1_0000 % 0x100,
            r.error_code2 == args_status / 0x100_0000,
            r.message@ == error_message(r.error_decode, r.error_code1, r.error_code2),
    {
        PnioError::from_codes(
            (args_status % 0x100) as u8,
            (args_status / 0x100 % 0x100) as u8,
            (args_status / 0x1_0000 % 0x100) as u8,
            (args_status / 0x100_0000) as u8,
        )
    }

    /// Create a `PnioError` with human-readable message from error codes.
    pub fn from_codes(error_code: u8, error_decode: u8, error_code1: u8, error_code2: u8) -> (r:
        PnioError)
        ensures
            r.error_code == error_code,
            r.error_decode == error_decode,
            r.error_code1 == error_code1,
            r.error_code2 == error_code2,
            r.message@ == error_message(error_decode, error_code1, error_code2),
    {
        let message = if error_decode == 0x40 {
            match pniocm_lookup(error_code1, error_code2) {
                Some(m) => m.to_owned(),
                None => {
                    let mut s = "Unknown CM error in ".to_owned();
                    let block = match cm_block_name(error_code1) {
                        Some(b) => b.to_owned(),
                        None => {
                            let mut b = "block 0x".to_owned();
                            push_hex(&mut b, error_code1 as u64, 2, true);
                            b
                        },
                    };
                    s.append(block.as_str());
                    s
                },
            }
        } else if error_decode == 0x81 {
            match pnio_lookup(error_code1, error_code2) {
                Some(m) => m.to_owned(),
                None => match pniorw_lookup(error_code1, error_code2) {
                    Some(m) => m.to_owned(),
                    None => "Unknown PNIO error".to_owned(),
                },
            }
        } else if error_decode == 0x80 {
            match pniorw_lookup(error_code1, error_code2) {
                Some(m) => m.to_owned(),
                None => "Unknown PNIORW error".to_owned(),
            }
        } else {
            let mut s = "Unknown error (Decode=0x".to_owned();
            push_hex(&mut s, error_decode as u64, 2, true);
            s.append(")");
            s
        };
        PnioError { message, error_code, error_decode, error_code1, error_code2 }
    }

    /// True if this is a Connection Management error.
    pub fn is_cm_error(&self) -> (r: bool)
        ensures
            r == (self.error_decode == 0x40),
    {
        self.error_decode == 0x40
    }

    /// Get the block name for CM errors (empty string otherwise).
    pub fn block_name(&self) -> (r: String)
        ensures
            r@ == if self.error_decode == 0x40 {
                cm_block_text(self.error_code1)
            } else {
                Seq::<char>::empty()
            },
    {
        if self.is_cm_error() {
            match cm_block_name(self.error_code1) {
                Some(b) => b.to_owned(),
                None => {
                    let mut s = "Unknown(0x".to_owned();
                    push_hex(&mut s, self.error_code1 as u64, 2, true);
                    s.append(")");
                    s
                },
            }
        } else {
            String::new()
        }
    }

    /// The error as it is printed: the message, then the codes in brackets.
    pub fn to_text(&self) -> (r: String)
        ensures
            r@ == error_text(
                self.message@,
                self.error_decode,
                self.error_code1,
                self.error_code2,
            ),
    {
        let mut s = self.message.as_str().to_owned();
        if self.is_cm_error() {
            s.append(" [CM:");
            s.append(self.block_name().as_str());
            s.append(", EC2=0x");
            push_hex(&mut s, self.error_code2 as u64, 2, true);
            s.append("]");
        } else {
            s.append(" [ErrorCode1=0x");
            push_hex(&mut s, self.error_code1 as u64, 2, true);
            s.append(", ErrorCode2=0x");
            push_hex(&mut s, self.error_code2 as u64, 2, true);
            s.append("]");
        }
        s
    }
}

/// Base error for all PROFINET errors.
#[derive(Debug, Clone, PartialEq, Eq)]
pub enum ProfinetError {
    /// DCP protocol errors.
    Dcp(String),
    /// DCP operation timed out.
    DcpTimeout(String),
    /// Device not found via DCP.
    DcpDeviceNotFound(String),
    /// DCE/RPC protocol errors.
    Rpc(String),
    /// RPC operation timed out.
    RpcTimeout(String),
    /// RPC returned fault response.
    RpcFault { message: String, fault_code: u32 },
    /// Failed to establish RPC connection.
    RpcConnection(String),
    /// PNIO application error with error codes.
    Pnio(PnioError),
    /// Input validation error.
    Validation(String),
    /// Invalid MAC address format.
    InvalidMac(String),
    /// Invalid IP address format.
    InvalidIp(String),
    /// Socket operation error.
    Socket(String),
    /// Insufficient permissions for raw socket.
    PermissionDenied(String),
}

impl ProfinetError {
    /// What is printed of an error: its message, or the text of a PNIO error.
    pub open spec fn text(self) -> Seq<char> {
        match self {
            ProfinetError::Dcp(m) => m@,
            ProfinetError::DcpTimeout(m) => m@,
            ProfinetError::DcpDeviceNotFound(m) => m@,
            ProfinetError::Rpc(m) => m@,
            ProfinetError::RpcTimeout(m) => m@,
            ProfinetError::RpcFault { message, fault_code } => message@,
            ProfinetError::RpcConnection(m) => m@,
            ProfinetError::Pnio(e) => error_text(
                e.message@,
                e.error_decode,
                e.error_code1,
                e.error_code2,
            ),
            ProfinetError::Validation(m) => m@,
            ProfinetError::InvalidMac(m) => m@,
            ProfinetError::InvalidIp(m) => m@,
            ProfinetError::Socket(m) => m@,
            ProfinetError::PermissionDenied(m) => m@,
        }
    }

    /// The error as it is printed.
    pub fn to_text(&self) -> (r: String)
        ensures
            r@ == self.text(),
    {
        match self {
            ProfinetError::Dcp(m) => m.as_str().to_owned(),
            ProfinetError::DcpTimeout(m) => m.as_str().to_owned(),
            ProfinetError::DcpDeviceNotFound(m) => m.as_str().to_owned(),
            ProfinetError::Rpc(m) => m.as_str().to_owned(),
            ProfinetError::RpcTimeout(m) => m.as_str().to_owned(),
            ProfinetError::RpcFault { message, .. } => message.as_str().to_owned(),
            ProfinetError::RpcConnection(m) => m.as_str().to_owned(),
            ProfinetError::Pnio(e) => e.to_text(),
            ProfinetError::Validation(m) => m.as_str().to_owned(),
            ProfinetError::InvalidMac(m) => m.as_str().to_owned(),
            ProfinetError::InvalidIp(m) => m.as_str().to_owned(),
            ProfinetError::Socket(m) => m.as_str().to_owned(),
            ProfinetError::PermissionDenied(m) => m.as_str().to_owned(),
        }
    }
}

impl From<PnioError> for ProfinetError {
    fn from(e: PnioError) -> (r: ProfinetError) {
        ProfinetError::Pnio(e)
    }
}

impl vstd::std_specs::convert::FromSpecImpl<PnioError> for ProfinetError {
    open spec fn obeys_from_spec() -> bool {
        true
    }

    open spec fn from_spec(e: PnioError) -> ProfinetError {
        ProfinetError::Pnio(e)
    }
}

} // verus!
