//! Every name that the tables give.

use profinet_rs::diagnosis::{decode_channel_error_type, decode_ext_channel_error_type};
use profinet_rs::errors::{PnioError, ProfinetError};
use profinet_rs::im::block_type_name;
use profinet_rs::indices::{
    all_standard_indices, get_alarm_type_name, get_block_type_name, get_index_name,
    get_iocr_rt_class_name, get_iocr_type_name, get_pe_mode_name, get_scope, get_usi_name,
};

#[test]
fn block_types_have_their_names() {
    let names: [(u16, &str); 69] = [
        (0x0001, "AlarmNotificationHigh"),
        (0x8001, "AlarmAckHigh"),
        (0x0002, "AlarmNotificationLow"),
        (0x8002, "AlarmAckLow"),
        (0x0008, "IODWriteReqHeader"),
        (0x8008, "IODWriteResHeader"),
        (0x0009, "IODReadReqHeader"),
        (0x8009, "IODReadResHeader"),
        (0x0010, "DiagnosisData"),
        (0x0012, "ExpectedIdentificationData"),
        (0x0013, "RealIdentificationData"),
        (0x0020, "I&M0"),
        (0x0021, "I&M1"),
        (0x0022, "I&M2"),
        (0x0023, "I&M3"),
        (0x0024, "I&M4"),
        (0x0025, "I&M5"),
        (0x0026, "I&M6"),
        (0x0027, "I&M7"),
        (0x0028, "I&M8"),
        (0x0029, "I&M9"),
        (0x002A, "I&M10"),
        (0x002B, "I&M11"),
        (0x002C, "I&M12"),
        (0x002D, "I&M13"),
        (0x002E, "I&M14"),
        (0x002F, "I&M15"),
        (0x0101, "ARBlockReq"),
        (0x8101, "ARBlockRes"),
        (0x0102, "IOCRBlockReq"),
        (0x8102, "IOCRBlockRes"),
        (0x0103, "AlarmCRBlockReq"),
        (0x8103, "AlarmCRBlockRes"),
        (0x0104, "ExpectedSubmoduleBlockReq"),
        (0x8104, "ModuleDiffBlock"),
        (0x0110, "IODControlReqPrmEnd"),
        (0x8110, "IODControlResPrmEnd"),
        (0x0112, "IODControlReqAppReady"),
        (0x8112, "IODControlResAppReady"),
        (0x0114, "IODReleaseReq"),
        (0x8114, "IODReleaseRes"),
        (0x0117, "IODControlReqRTClass3"),
        (0x8117, "IODControlResRTClass3"),
        (0x0118, "PrmBeginReq"),
        (0x8118, "PrmBeginRes"),
        (0x0119, "SubmoduleListBlock"),
        (0x0018, "ARData"),
        (0x0019, "LogData"),
        (0x001A, "APIData"),
        (0x001B, "SRLData"),
        (0x0200, "PDPortDataCheck"),
        (0x0202, "PDPortDataAdjust"),
        (0x020F, "PDPortDataReal"),
        (0x0211, "PDInterfaceMrpDataAdjust"),
        (0x0212, "PDInterfaceMrpDataReal"),
        (0x0215, "PDPortMrpDataReal"),
        (0x0219, "MrpRingStateData"),
        (0x0220, "PDPortFODataReal"),
        (0x0221, "PDPortFODataCheck"),
        (0x0222, "PDPortFODataAdjust"),
        (0x022C, "PDPortDataRealExtended"),
        (0x0240, "PDInterfaceDataReal"),
        (0x0251, "PDPortStatistic"),
        (0x0400, "MultipleBlockHeader"),
        (0x0401, "COContainerContent"),
        (0xF820, "ARServerBlock"),
        (0xF841, "PDRealData"),
        (0xF842, "PDExpectedData"),
        (0xF000, "RealIdentificationDataAPI"),
    ];
    for (code, name) in names {
        assert_eq!(get_block_type_name(code), name, "0x{code:04X}");
    }
}

#[test]
fn alarm_types_have_their_names() {
    let names: [(u16, &str); 21] = [
        (0x0001, "Diagnosis"),
        (0x0002, "Process"),
        (0x0003, "Pull"),
        (0x0004, "Plug"),
        (0x0005, "Status"),
        (0x0006, "Update"),
        (0x0007, "Redundancy"),
        (0x0008, "ControlledBySupervisor"),
        (0x0009, "Released"),
        (0x000A, "PlugWrongSubmodule"),
        (0x000B, "ReturnOfSubmodule"),
        (0x000C, "DiagnosisDisappears"),
        (0x000D, "MulticastMismatch"),
        (0x000E, "PortDataChange"),
        (0x000F, "SyncDataChanged"),
        (0x0010, "IsochronousModeProblem"),
        (0x0011, "NetworkComponentProblem"),
        (0x0012, "TimeDataChanged"),
        (0x0013, "DynamicFramePackingProblem"),
        (0x001E, "UploadAndRetrieval"),
        (0x001F, "PullModule"),
    ];
    for (code, name) in names {
        assert_eq!(get_alarm_type_name(code), name, "0x{code:04X}");
    }
}

#[test]
fn iocr_types_have_their_names() {
    let names: [(u16, &str); 4] = [
        (0x0001, "InputCR"),
        (0x0002, "OutputCR"),
        (0x0003, "MulticastProviderCR"),
        (0x0004, "MulticastConsumerCR"),
    ];
    for (code, name) in names {
        assert_eq!(get_iocr_type_name(code), name, "0x{code:04X}");
    }
}

#[test]
fn rt_classes_have_their_names() {
    let names: [(u8, &str); 4] = [
        (0x01, "RT_CLASS_1"),
        (0x02, "RT_CLASS_2"),
        (0x03, "RT_CLASS_3"),
        (0x04, "RT_CLASS_UDP"),
    ];
    for (code, name) in names {
        assert_eq!(get_iocr_rt_class_name(code), name, "0x{code:04X}");
    }
}

#[test]
fn user_structures_have_their_names() {
    let names: [(u16, &str); 12] = [
        (0x8000, "ChannelDiagnosis"),
        (0x8001, "MultipleDiagnosis"),
        (0x8002, "ExtChannelDiagnosis"),
        (0x8003, "QualifiedChannelDiagnosis"),
        (0x8100, "MaintenanceItem"),
        (0x8200, "UploadRecord"),
        (0x8201, "iParameterItem"),
        (0x8300, "RS_AlarmItem_Low"),
        (0x8301, "RS_AlarmItem_High"),
        (0x8302, "RS_AlarmItem_Submodule"),
        (0x8310, "PE_AlarmItem"),
        (0x8320, "PRAL_AlarmItem"),
    ];
    for (code, name) in names {
        assert_eq!(get_usi_name(code), name, "0x{code:04X}");
    }
}

#[test]
fn record_blocks_have_their_names() {
    let names: [(u16, &str); 69] = [
        (0x0001, "AlarmNotificationHigh"),
        (0x8001, "AlarmAckHigh"),
        (0x0002, "AlarmNotificationLow"),
        (0x8002, "AlarmAckLow"),
        (0x0008, "IODWriteReqHeader"),
        (0x8008, "IODWriteResHeader"),
        (0x0009, "IODReadReqHeader"),
        (0x8009, "IODReadResHeader"),
        (0x0010, "DiagnosisData"),
        (0x0012, "ExpectedIdentificationData"),
        (0x0013, "RealIdentificationData"),
        (0x0020, "I&M0"),
        (0x0021, "I&M1"),
        (0x0022, "I&M2"),
        (0x0023, "I&M3"),
        (0x0024, "I&M4"),
        (0x0025, "I&M5"),
        (0x0026, "I&M6"),
        (0x0027, "I&M7"),
        (0x0028, "I&M8"),
        (0x0029, "I&M9"),
        (0x002A, "I&M10"),
        (0x002B, "I&M11"),
        (0x002C, "I&M12"),
        (0x002D, "I&M13"),
        (0x002E, "I&M14"),
        (0x002F, "I&M15"),
        (0x0101, "ARBlockReq"),
        (0x8101, "ARBlockRes"),
        (0x0102, "IOCRBlockReq"),
        (0x8102, "IOCRBlockRes"),
        (0x0103, "AlarmCRBlockReq"),
        (0x8103, "AlarmCRBlockRes"),
        (0x0104, "ExpectedSubmoduleBlockReq"),
        (0x8104, "ModuleDiffBlock"),
        (0x0110, "IODControlReqPrmEnd"),
        (0x8110, "IODControlResPrmEnd"),
        (0x0112, "IODControlReqAppReady"),
        (0x8112, "IODControlResAppReady"),
        (0x0114, "IODReleaseReq"),
        (0x8114, "IODReleaseRes"),
        (0x0117, "IODControlReqRTClass3"),
        (0x8117, "IODControlResRTClass3"),
        (0x0118, "PrmBeginReq"),
        (0x8118, "PrmBeginRes"),
        (0x0119, "SubmoduleListBlock"),
        (0x0018, "ARData"),
        (0x0019, "LogData"),
        (0x001A, "APIData"),
        (0x001B, "SRLData"),
        (0x0200, "PDPortDataCheck"),
        (0x0202, "PDPortDataAdjust"),
        (0x020F, "PDPortDataReal"),
        (0x0211, "PDInterfaceMrpDataAdjust"),
        (0x0212, "PDInterfaceMrpDataReal"),
        (0x0215, "PDPortMrpDataReal"),
        (0x0219, "MrpRingStateData"),
        (0x0220, "PDPortFODataReal"),
        (0x0221, "PDPortFODataCheck"),
        (0x0222, "PDPortFODataAdjust"),
        (0x022C, "PDPortDataRealExtended"),
        (0x0240, "PDInterfaceDataReal"),
        (0x0251, "PDPortStatistic"),
        (0x0400, "MultipleBlockHeader"),
        (0x0401, "COContainerContent"),
        (0xF820, "ARServerBlock"),
        (0xF841, "PDRealData"),
        (0xF842, "PDExpectedData"),
        (0xF000, "RealIdentificationDataAPI"),
    ];
    for (code, name) in names {
        assert_eq!(block_type_name(code), name, "0x{code:04X}");
    }
}

#[test]
fn channel_errors_have_their_names() {
    let names: [(u16, &str); 49] = [
        (0x0000, "Reserved"),
        (0x0001, "Short circuit"),
        (0x0002, "Undervoltage"),
        (0x0003, "Overvoltage"),
        (0x0004, "Overload"),
        (0x0005, "Overtemperature"),
        (0x0006, "Line break"),
        (0x0007, "Upper limit value exceeded"),
        (0x0008, "Lower limit value exceeded"),
        (0x0009, "Error"),
        (0x000A, "Simulation active"),
        (0x000B, "Reserved (0x000B)"),
        (0x000C, "Reserved (0x000C)"),
        (0x000D, "Reserved (0x000D)"),
        (0x000E, "Reserved (0x000E)"),
        (0x000F, "Parameter missing"),
        (0x0010, "Parameterization fault"),
        (0x0011, "Power supply fault"),
        (0x0012, "Fuse blown / open"),
        (0x0013, "Communication fault"),
        (0x0014, "Ground fault"),
        (0x0015, "Reference point lost"),
        (0x0016, "Process event lost"),
        (0x0017, "Threshold warning"),
        (0x0018, "Output disabled"),
        (0x0019, "Functional safety event"),
        (0x001A, "External fault"),
        (0x001B, "Sensor has incorrect configuration"),
        (0x001C, "Reserved (0x001C)"),
        (0x001D, "Reserved (0x001D)"),
        (0x001E, "Reserved (0x001E)"),
        (0x001F, "Temporary fault"),
        (0x8000, "Data transmission impossible"),
        (0x8001, "Remote mismatch"),
        (0x8002, "Media redundancy mismatch"),
        (0x8003, "Sync mismatch"),
        (0x8004, "Isochronous mode mismatch"),
        (0x8005, "Multicast CR mismatch"),
        (0x8006, "Reserved (0x8006)"),
        (0x8007, "Fiber optic mismatch"),
        (0x8008, "Network component function mismatch"),
        (0x8009, "Time mismatch"),
        (0x800A, "Dynamic frame packing function mismatch"),
        (0x800B, "Media redundancy with planned duplication mismatch"),
        (0x800C, "System redundancy mismatch"),
        (0x800D, "Multiple interface mismatch"),
        (0x9500, "IO-Link device event"),
        (0x9501, "IO-Link device event (MSB cleared)"),
        (0x9502, "IO-Link port event"),
    ];
    for (code, name) in names {
        assert_eq!(decode_channel_error_type(code), name, "0x{code:04X}");
    }
}

#[test]
fn extended_errors_have_their_names() {
    let names: [(u16, u16, &str); 40] = [
        (0x8000, 0x0000, "Reserved"),
        (0x8000, 0x8000, "Link state mismatch - Loss of link"),
        (0x8000, 0x8001, "MAUType mismatch"),
        (0x8000, 0x8002, "Line delay mismatch"),
        (0x8001, 0x0000, "Reserved"),
        (0x8001, 0x8000, "Peer name of station mismatch"),
        (0x8001, 0x8001, "Peer name of port mismatch"),
        (0x8001, 0x8002, "Peer RT_CLASS_3 mismatch"),
        (0x8001, 0x8003, "Peer MAUType mismatch"),
        (0x8001, 0x8004, "Peer MRP domain mismatch"),
        (0x8001, 0x8005, "No peer detected"),
        (0x8001, 0x8006, "Peer line delay mismatch"),
        (0x8001, 0x8007, "Peer PTCP mismatch"),
        (0x8001, 0x8008, "Peer Preamble length mismatch"),
        (0x8001, 0x8009, "Peer Fragmentation mismatch"),
        (0x8002, 0x0000, "Reserved"),
        (0x8002, 0x8000, "Manager role fail"),
        (0x8002, 0x8001, "MRP-Loss of redundancy"),
        (0x8002, 0x8002, "Reserved (0x8002)"),
        (0x8002, 0x8003, "MRP ring open"),
        (0x8002, 0x8004, "MRP multiple manager"),
        (0x8003, 0x0000, "Reserved"),
        (0x8003, 0x8000, "No sync message received"),
        (0x8003, 0x8001, "Jitter out of boundary"),
        (0x8003, 0x8002, "Sync message send failure"),
        (0x8003, 0x8003, "PTCP timeout"),
        (0x8007, 0x0000, "Reserved"),
        (0x8007, 0x8000, "Power budget exceeded"),
        (0x8008, 0x0000, "Reserved"),
        (0x8008, 0x8000, "Frame dropped - no resource"),
        (0x8008, 0x8001, "Frame dropped - wrong destination address"),
        (0x8008, 0x8002, "Frame dropped - no gateway"),
        (0x8009, 0x0000, "Reserved"),
        (0x8009, 0x8000, "No master detected"),
        (0x8009, 0x8001, "Drift exceeded"),
        (0x8009, 0x8002, "Time sync failure"),
        (0x800B, 0x0000, "Reserved"),
        (0x800B, 0x8000, "MRPD loss of redundancy"),
        (0x0001, 0x0000, "Reserved"),
        (0x0001, 0x8000, "Accumulative info"),
    ];
    for (error, code, name) in names {
        assert_eq!(decode_ext_channel_error_type(error, code), name, "0x{error:04X} 0x{code:04X}");
    }
}

#[test]
fn standard_indices_keep_their_order() {
    let names: Vec<(u16, &str)> = vec![
        (0xAFF0, "I&M0"),
        (0xAFF1, "I&M1"),
        (0xAFF2, "I&M2"),
        (0xAFF3, "I&M3"),
        (0xAFF4, "I&M4"),
        (0xAFF5, "I&M5"),
        (0xAFF6, "I&M6"),
        (0xAFF7, "I&M7"),
        (0xAFF8, "I&M8"),
        (0xAFF9, "I&M9"),
        (0xAFFA, "I&M10"),
        (0xAFFB, "I&M11"),
        (0xAFFC, "I&M12"),
        (0xAFFD, "I&M13"),
        (0xAFFE, "I&M14"),
        (0xAFFF, "I&M15"),
        (0x800A, "DiagnosisChannel"),
        (0x800B, "DiagnosisAll"),
        (0x800C, "DiagnosisMaintenance"),
        (0xF80C, "DeviceDiagnosis"),
        (0x802A, "PDPortDataReal"),
        (0x802B, "PDPortDataCheck"),
        (0x802F, "PDPortDataAdjust"),
        (0x8072, "PDPortStatistic"),
        (0x8054, "PDPortMrpDataReal"),
        (0x8080, "PDInterfaceDataReal"),
        (0x8050, "PDInterfaceMrpDataReal"),
        (0x8070, "PDNCDataCheck"),
        (0xF820, "ARData"),
        (0xF821, "APIData"),
        (0xF831, "PDevData"),
        (0xF841, "PDRealData"),
        (0xF842, "PDExpectedData"),
        (0xF830, "LogData"),
        (0xF850, "AutoConfiguration"),
        (0x8000, "ExpectedIdentificationData"),
        (0x8001, "RealIdentificationData"),
        (0xE002, "ModuleDiffBlock"),
        (0x801E, "SubstituteValues"),
        (0x8028, "RecordInputData"),
        (0x8029, "RecordOutputData"),
    ];
    assert_eq!(all_standard_indices(), names);
}

#[test]
fn indices_have_their_names() {
    let names: [(u16, &str); 41] = [
        (0xAFF0, "I&M0"),
        (0xAFF1, "I&M1"),
        (0xAFF2, "I&M2"),
        (0xAFF3, "I&M3"),
        (0xAFF4, "I&M4"),
        (0xAFF5, "I&M5"),
        (0xAFF6, "I&M6"),
        (0xAFF7, "I&M7"),
        (0xAFF8, "I&M8"),
        (0xAFF9, "I&M9"),
        (0xAFFA, "I&M10"),
        (0xAFFB, "I&M11"),
        (0xAFFC, "I&M12"),
        (0xAFFD, "I&M13"),
        (0xAFFE, "I&M14"),
        (0xAFFF, "I&M15"),
        (0x800A, "DiagnosisChannel"),
        (0x800B, "DiagnosisAll"),
        (0x800C, "DiagnosisMaintenance"),
        (0xF80C, "DeviceDiagnosis"),
        (0x802A, "PDPortDataReal"),
        (0x802B, "PDPortDataCheck"),
        (0x802F, "PDPortDataAdjust"),
        (0x8072, "PDPortStatistic"),
        (0x8054, "PDPortMrpDataReal"),
        (0x8080, "PDInterfaceDataReal"),
        (0x8050, "PDInterfaceMrpDataReal"),
        (0x8070, "PDNCDataCheck"),
        (0xF820, "ARData"),
        (0xF821, "APIData"),
        (0xF831, "PDevData"),
        (0xF841, "PDRealData"),
        (0xF842, "PDExpectedData"),
        (0xF830, "LogData"),
        (0xF850, "AutoConfiguration"),
        (0x8000, "ExpectedIdentificationData"),
        (0x8001, "RealIdentificationData"),
        (0xE002, "ModuleDiffBlock"),
        (0x801E, "SubstituteValues"),
        (0x8028, "RecordInputData"),
        (0x8029, "RecordOutputData"),
    ];
    for (code, name) in names {
        assert_eq!(get_index_name(code), name, "0x{code:04X}");
    }
}

#[test]
fn read_write_errors_have_their_messages() {
    let messages: [(u8, u8, &str); 23] = [
        (0xB0, 0x00, "Index not supported"),
        (0xB0, 0x05, "Index exists but not written"),
        (0xB1, 0x00, "Write length error"),
        (0xB1, 0x01, "Write data too short"),
        (0xB1, 0x02, "Write data too long"),
        (0xB1, 0x03, "Write access denied (write protected)"),
        (0xB2, 0x00, "Resource not available"),
        (0xB2, 0x07, "Invalid slot number"),
        (0xB2, 0x08, "Invalid subslot number"),
        (0xB2, 0x09, "Module has no data"),
        (0xB3, 0x00, "Access denied (invalid area)"),
        (0xB3, 0x03, "Access denied"),
        (0xB3, 0x04, "Access denied (invalid range)"),
        (0xB3, 0x05, "Access denied (invalid state for access)"),
        (0xB3, 0x06, "Access denied (local control)"),
        (0xB4, 0x00, "Read error"),
        (0xB4, 0x01, "Write error"),
        (0xB4, 0x02, "Module failure"),
        (0xB4, 0x04, "Resource busy"),
        (0xB4, 0x05, "Version conflict"),
        (0xB4, 0x06, "Invalid API number"),
        (0xB4, 0x07, "Backup not allowed"),
        (0xB4, 0x08, "Alarm pending"),
    ];
    for (c1, c2, message) in messages {
        assert_eq!(PnioError::from_codes(0xDE, 0x80, c1, c2).message, message);
    }
}

#[test]
fn pnio_errors_have_their_messages() {
    let messages: [(u8, u8, &str); 6] = [
        (0x40, 0x00, "Invalid arguments length"),
        (0x40, 0x01, "Unknown blocks in request"),
        (0x40, 0x02, "Required IOCR block missing"),
        (0x40, 0x03, "Wrong AlarmCR block count"),
        (0x40, 0x04, "Out of AR resources"),
        (0x3D, 0x00, "Parameter server state conflict"),
    ];
    for (c1, c2, message) in messages {
        assert_eq!(PnioError::from_codes(0xDE, 0x81, c1, c2).message, message);
    }
}

#[test]
fn connection_errors_have_their_messages() {
    let messages: [(u8, u8, &str); 46] = [
        (0x01, 0x00, "Invalid AR type"),
        (0x01, 0x01, "AR already active"),
        (0x01, 0x02, "Out of AR resources"),
        (0x01, 0x03, "Out of provider resources"),
        (0x01, 0x04, "Out of consumer resources"),
        (0x01, 0x05, "Out of alarm resources"),
        (0x01, 0x06, "Out of memory"),
        (0x01, 0x07, "Invalid session key"),
        (0x01, 0x08, "AR UUID conflict"),
        (0x81, 0x00, "Invalid AR type (in response)"),
        (0x81, 0x01, "AR already active"),
        (0x81, 0x02, "Out of AR resources"),
        (0x81, 0x03, "Out of provider resources"),
        (0x81, 0x04, "Out of consumer resources"),
        (0x81, 0x05, "Out of alarm resources"),
        (0x81, 0x06, "Out of memory"),
        (0x81, 0x07, "Invalid session key"),
        (0x81, 0x08, "AR UUID conflict"),
        (0x02, 0x00, "Invalid IOCR type"),
        (0x02, 0x01, "Out of IOCR resources"),
        (0x02, 0x02, "Invalid frame ID"),
        (0x02, 0x03, "Invalid RT class"),
        (0x02, 0x04, "Invalid IO data length"),
        (0x02, 0x05, "Cycle time conflict"),
        (0x02, 0x06, "Watchdog configuration error"),
        (0x82, 0x00, "Invalid IOCR type (in response)"),
        (0x82, 0x01, "Out of IOCR resources"),
        (0x82, 0x02, "Invalid frame ID"),
        (0x82, 0x03, "Invalid RT class"),
        (0x82, 0x04, "Invalid IO data length"),
        (0x82, 0x05, "Cycle time conflict"),
        (0x82, 0x06, "Watchdog configuration error"),
        (0x03, 0x00, "Invalid AlarmCR type"),
        (0x03, 0x01, "Out of AlarmCR resources"),
        (0x83, 0x00, "Invalid AlarmCR type (in response)"),
        (0x83, 0x01, "Out of AlarmCR resources"),
        (0x04, 0x00, "Invalid slot in ExpectedSubmodule"),
        (0x04, 0x01, "Invalid subslot in ExpectedSubmodule"),
        (0x04, 0x02, "Wrong module ident number"),
        (0x04, 0x03, "Wrong submodule ident number"),
        (0x04, 0x04, "IO data length mismatch"),
        (0x3F, 0x00, "Device state conflict (AR may be active)"),
        (0x3F, 0x01, "Connect resource unavailable"),
        (0x3F, 0x02, "Device already owned by another controller"),
        (0x3F, 0x03, "AR set aborted"),
        (0xFF, 0x00, "Faulty block structure"),
    ];
    for (c1, c2, message) in messages {
        assert_eq!(PnioError::from_codes(0xDE, 0x40, c1, c2).message, message);
    }
}

#[test]
fn connection_blocks_have_their_names() {
    let names: [(u8, &str); 23] = [
        (0x01, "ARBlockReq"),
        (0x02, "IOCRBlockReq"),
        (0x03, "AlarmCRBlockReq"),
        (0x04, "ExpectedSubmoduleBlockReq"),
        (0x05, "ModuleDiffBlock"),
        (0x06, "ARRPCBlock"),
        (0x07, "IRInfoBlock"),
        (0x08, "SRInfoBlock"),
        (0x09, "ARFSUBlock"),
        (0x10, "IODControlReq"),
        (0x11, "IODControlRes"),
        (0x81, "ARBlockRes"),
        (0x82, "IOCRBlockRes"),
        (0x83, "AlarmCRBlockRes"),
        (0x84, "ModuleDiffBlockRes"),
        (0x85, "ARServerBlockRes"),
        (0x3D, "PrmServer"),
        (0x3E, "CMCTL"),
        (0x3F, "CMDEV"),
        (0x40, "CMRPC"),
        (0xFD, "FaultyRecord"),
        (0xFE, "FaultyAR"),
        (0xFF, "FaultyBlock"),
    ];
    for (code, name) in names {
        assert_eq!(PnioError::from_codes(0xDB, 0x40, code, 0).block_name(), name, "0x{code:04X}");
    }
}

#[test]
fn unknown_codes_say_so() {
    assert_eq!(get_block_type_name(0x7777), "Unknown(0x7777)");
    assert_eq!(get_alarm_type_name(0x7777), "Unknown(0x7777)");
    assert_eq!(get_iocr_type_name(0x7777), "Unknown(0x7777)");
    assert_eq!(get_iocr_rt_class_name(0x77), "Unknown(0x77)");
    assert_eq!(block_type_name(0x7777), "Unknown(0x7777)");
    assert_eq!(get_usi_name(0x0042), "ManufacturerSpecific(0x0042)");
    assert_eq!(get_usi_name(0x9001), "ProfileSpecific(0x9001)");
    assert_eq!(get_usi_name(0xA000), "Reserved(0xA000)");
    assert_eq!(get_pe_mode_name(0x00), "PE_PowerOff");
    assert_eq!(get_pe_mode_name(0x01), "PE_EnergySavingMode_1");
    assert_eq!(get_pe_mode_name(0xF0), "PE_Operate");
    assert_eq!(get_pe_mode_name(0xFE), "PE_SleepModeWOL");
    assert_eq!(get_pe_mode_name(0xFF), "PE_ReadyToOperate");
    assert_eq!(get_pe_mode_name(0x20), "PE_Reserved(0x20)");
    assert_eq!(decode_channel_error_type(0x0055), "Reserved (0x0055)");
    assert_eq!(decode_channel_error_type(0x0100), "Manufacturer-specific (0x0100)");
    assert_eq!(decode_channel_error_type(0x9123), "Profile-specific (0x9123)");
    assert_eq!(decode_channel_error_type(0xA000), "Reserved (0xA000)");
    assert_eq!(
        decode_ext_channel_error_type(0x8000, 0x0001),
        "Manufacturer-specific (0x0001)"
    );
    assert_eq!(decode_ext_channel_error_type(0x8000, 0x8003), "Reserved (0x8003)");
    assert_eq!(decode_ext_channel_error_type(0x8000, 0x9000), "Profile-specific (0x9000)");
    assert_eq!(decode_ext_channel_error_type(0x8000, 0xA000), "Unknown (0xA000)");
}

#[test]
fn indices_without_a_name_have_a_category() {
    assert_eq!(get_index_name(0x1234), "User-specific (0x1234)");
    assert_eq!(get_index_name(0x8FFE), "Subslot data (0x8FFE)");
    assert_eq!(get_index_name(0xC123), "Slot data (0xC123)");
    assert_eq!(get_index_name(0xE123), "AR data (0xE123)");
    assert_eq!(get_index_name(0xF123), "API data (0xF123)");
    assert_eq!(get_index_name(0xFBFE), "Device data (0xFBFE)");
    assert_eq!(get_index_name(0xFFFF), "Unknown (0xFFFF)");
    for (index, scope) in [
        (0x0000, "user"),
        (0x7FFF, "user"),
        (0x8000, "subslot"),
        (0xAFF0, "slot"),
        (0xC000, "slot"),
        (0xE000, "ar"),
        (0xF000, "api"),
        (0xF800, "device"),
        (0xFBFF, "device"),
        (0xFC00, "unknown"),
        (0x9000, "unknown"),
    ] {
        assert_eq!(get_scope(index), scope);
    }
}

#[test]
fn errors_show_their_codes() {
    let e = PnioError::from_bytes(&[0xDE, 0x80, 0xB0, 0x00]);
    assert!(e.to_text().contains("Index not supported"));
    assert!(e.to_text().ends_with(" [ErrorCode1=0xB0, ErrorCode2=0x00]"));
    assert_eq!(PnioError::from_bytes(&[1, 2, 3]).message, "Incomplete error data");
    assert_eq!(
        PnioError::from_args_status(0x0140_81DB),
        PnioError::from_codes(0xDB, 0x81, 0x40, 0x01)
    );
    let cm = PnioError::from_codes(0xDB, 0x40, 0xEE, 0x07);
    assert!(cm.is_cm_error());
    assert_eq!(cm.message, "Unknown CM error in block 0xEE");
    assert_eq!(cm.to_text(), "Unknown CM error in block 0xEE [CM:Unknown(0xEE), EC2=0x07]");
    assert_eq!(PnioError::from_codes(1, 0x81, 0xEE, 0xEE).message, "Unknown PNIO error");
    assert_eq!(PnioError::from_codes(1, 0x80, 0xEE, 0xEE).message, "Unknown PNIORW error");
    assert_eq!(
        PnioError::from_codes(1, 0x22, 0xEE, 0xEE).message,
        "Unknown error (Decode=0x22)"
    );
    assert_eq!(e.block_name(), "");
    assert_eq!(ProfinetError::from(e.clone()).to_text(), e.to_text());
    assert_eq!(ProfinetError::DcpTimeout("late".to_string()).to_text(), "late");
    assert_eq!(
        ProfinetError::RpcFault { message: "no".to_string(), fault_code: 7 }.to_text(),
        "no"
    );
}
