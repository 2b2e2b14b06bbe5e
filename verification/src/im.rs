//! Identification and maintenance records: I&M0 to I&M3, PDRealData,
//! RealIdentificationData and I&M0FilterData. All fields are big-endian.
//! Truncated and malformed nested blocks are skipped where a record is a list.

use vstd::prelude::*;
use vstd::slice::*;
use vstd::string::*;
use std::collections::BTreeMap;
use crate::bytes::{
    array16, array20, array22, array32, array4, array54, array6, be16_at, be32_at, copy_range,
    read_be16, read_be32, trim_nul, trim_trailing_nul, zeros,
};
use crate::gsdml::DeviceSlot;
use crate::indices::{block_type_text, get_block_type_name};
use crate::text::{dec, lossy, push_dec, texts, utf8_lossy};
use crate::util::{ip_string, ip_text, mac2s, mac_text};

pub use crate::indices::{
    API_DATA, AR_DATA, AUTO_CONFIG, BLOCK_AR_SERVER_BLOCK, BLOCK_CO_CONTAINER_CONTENT,
    BLOCK_DIAGNOSIS_DATA, BLOCK_EXPECTED_IDENTIFICATION_DATA, BLOCK_IM0, BLOCK_IM1, BLOCK_IM2,
    BLOCK_IM3, BLOCK_MULTIPLE_HEADER, BLOCK_PD_EXPECTED_DATA, BLOCK_PD_INTERFACE_DATA_REAL,
    BLOCK_PD_PORT_DATA_REAL, BLOCK_PD_PORT_STATISTIC, BLOCK_PD_REAL_DATA,
    BLOCK_REAL_IDENTIFICATION_DATA, BLOCK_REAL_IDENTIFICATION_DATA_API, DIAG_DEVICE,
    EXPECTED_ID_AR, EXPECTED_ID_SUBSLOT, IM0, IM0_FILTER_DATA, IM1, IM10, IM11, IM12, IM13, IM14,
    IM15, IM2, IM3, IM4, IM5, IM6, IM7, IM8, IM9, LOG_DATA, MODULE_DIFF_BLOCK, PDEV_DATA,
    PD_EXPECTED_DATA, PD_REAL_DATA, REAL_ID_API, REAL_ID_AR, REAL_ID_SUBSLOT,
};

verus! {

/// Human-readable block type name.
pub fn block_type_name(block_type: u16) -> (r: String)
    ensures
        r@ == block_type_text(block_type),
{
    get_block_type_name(block_type)
}

/// The text of a zero-padded field.
pub open spec fn decoded(data: Seq<u8>) -> Seq<char> {
    lossy(trim_nul(data))
}

/// Decode bytes to a string, stripping trailing zero bytes and replacing what
/// is not valid UTF-8.
pub fn decode_bytes(data: &[u8]) -> (r: String)
    ensures
        r@ == decoded(data@),
{
    utf8_lossy(trim_trailing_nul(data))
}

/// Every byte as the character with its number.
pub open spec fn latin1(data: Seq<u8>) -> Seq<char> {
    Seq::new(data.len(), |i: int| data[i] as char)
}

fn decode_latin1(data: &[u8]) -> (r: String)
    ensures
        r@ == latin1(data@),
{
    let mut r = String::new();
    let mut i: usize = 0;
    while i < data.len()
        invariant
            i <= data@.len(),
            r@ == latin1(data@).take(i as int),
        decreases data@.len() - i,
    {
        r.push(data[i] as char);
        i = i + 1;
        assert(r@ =~= latin1(data@).take(i as int));
    }
    assert(latin1(data@).take(i as int) =~= latin1(data@));
    r
}

/// `n` rounded up to a multiple of four.
pub open spec fn aligned4(n: int) -> int {
    (n + 3) / 4 * 4
}

/// Align offset to 4-byte boundary.
pub fn align4(offset: usize) -> (r: usize)
    requires
        offset <= usize::MAX - 3,
    ensures
        r == aligned4(offset as int),
{
    (offset + 3) / 4 * 4
}

/// Block header, 6 bytes.
#[derive(Debug, Clone, Copy, PartialEq, Eq, Structural)]
pub struct BlockHeader {
    pub block_type: u16,
    /// Includes the two version bytes; body = length - 2.
    pub block_length: u16,
    pub version_high: u8,
    pub version_low: u8,
}

impl BlockHeader {
    /// Length of the block body without the version bytes.
    pub open spec fn body_len(self) -> int {
        if self.block_length >= 2 {
            self.block_length - 2
        } else {
            0
        }
    }

    /// Length of the block body excluding the version bytes.
    pub fn body_length(&self) -> (r: usize)
        ensures
            r == self.body_len(),
    {
        if self.block_length >= 2 {
            self.block_length as usize - 2
        } else {
            0
        }
    }

    /// Human-readable block type name.
    pub fn kind_name(&self) -> (r: String)
        ensures
            r@ == block_type_text(self.block_type),
    {
        block_type_name(self.block_type)
    }
}

/// The block header at `off`.
pub open spec fn header_at(data: Seq<u8>, off: int) -> BlockHeader {
    BlockHeader {
        block_type: be16_at(data, off),
        block_length: be16_at(data, off + 2),
        version_high: data[off + 4],
        version_low: data[off + 5],
    }
}

/// The message for data that ends before a block header at `off` does.
pub open spec fn short_header_message(len: nat, off: int) -> Seq<char> {
    "Block header requires 6 bytes, got "@ + dec(
        if off <= len {
            (len - off) as nat
        } else {
            0
        },
    )
}

/// Parse a 6-byte block header at `offset`, returning the header and the
/// offset just past it.
pub fn parse_block_header(data: &[u8], offset: usize) -> (r: Result<(BlockHeader, usize), String>)
    ensures
        r is Ok <==> offset + 6 <= data@.len(),
        r matches Ok((h, next)) ==> h == header_at(data@, offset as int) && next == offset + 6,
        r matches Err(e) ==> e@ == short_header_message(data@.len(), offset as int),
{
    if offset > data.len() || data.len() - offset < 6 {
        let mut e = "Block header requires 6 bytes, got ".to_owned();
        let got: usize = if offset <= data.len() {
            data.len() - offset
        } else {
            0
        };
        push_dec(&mut e, got as u128);
        return Err(e);
    }
    let header = BlockHeader {
        block_type: read_be16(data, offset),
        block_length: read_be16(data, offset + 2),
        version_high: data[offset + 4],
        version_low: data[offset + 5],
    };
    Ok((header, offset + 6))
}

/// Parse a MultipleBlockHeader (0x0400) body: 2 bytes padding, API, slot,
/// subslot; returns (api, slot, subslot, offset where the nested blocks start).
pub fn parse_multiple_block_header(data: &[u8], offset: usize) -> (r: Result<
    (u32, u16, u16, usize),
    String,
>)
    ensures
        r is Ok <==> offset + 10 <= data@.len(),
        r matches Ok(v) ==> v == (
            be32_at(data@, offset + 2),
            be16_at(data@, offset + 6),
            be16_at(data@, offset + 8),
            (offset + 10) as usize,
        ) && offset + 10 <= usize::MAX,
        r matches Err(e) ==> e@ == "MultipleBlockHeader body requires 8 bytes after padding"@,
{
    if offset > data.len() || data.len() - offset < 10 {
        return Err("MultipleBlockHeader body requires 8 bytes after padding".to_owned());
    }
    Ok(
        (
            read_be32(data, offset + 2),
            read_be16(data, offset + 6),
            read_be16(data, offset + 8),
            offset + 10,
        ),
    )
}

/// I&M0 identification data, 60 bytes.
#[derive(Debug, Clone, Copy, PartialEq, Eq)]
pub struct InM0 {
    pub block_header: BlockHeader,
    pub vendor_id_high: u8,
    pub vendor_id_low: u8,
    /// Raw 20-byte order ID field; [`InM0::order_id_str`] is its text.
    pub order_id: [u8; 20],
    pub im_serial_number: [u8; 16],
    pub im_hardware_revision: u16,
    pub sw_revision_prefix: u8,
    pub im_sw_revision_functional_enhancement: u8,
    pub im_sw_revision_bug_fix: u8,
    pub im_sw_revision_internal_change: u8,
    pub im_revision_counter: u16,
    pub im_profile_id: u16,
    pub im_profile_specific_type: u16,
    pub im_version: u16,
    pub im_supported: u16,
}

/// A revision such as "V1.2.3", without its first character if that is zero.
pub open spec fn revision_text(prefix: u8, a: u8, b: u8, c: u8) -> Seq<char> {
    (if prefix != 0 {
        seq![prefix as char]
    } else {
        Seq::empty()
    }) + dec(a as nat) + "."@ + dec(b as nat) + "."@ + dec(c as nat)
}

impl InM0 {
    pub const IDX: u16 = 0xAFF0;

    /// The record's fields are those that stand in `data`.
    pub open spec fn read_from(self, data: Seq<u8>) -> bool {
        &&& self.block_header == header_at(data, 0)
        &&& self.vendor_id_high == data[6]
        &&& self.vendor_id_low == data[7]
        &&& self.order_id@ == data.subrange(8, 28)
        &&& self.im_serial_number@ == data.subrange(28, 44)
        &&& self.im_hardware_revision == be16_at(data, 44)
        &&& self.sw_revision_prefix == data[46]
        &&& self.im_sw_revision_functional_enhancement == data[47]
        &&& self.im_sw_revision_bug_fix == data[48]
        &&& self.im_sw_revision_internal_change == data[49]
        &&& self.im_revision_counter == be16_at(data, 50)
        &&& self.im_profile_id == be16_at(data, 52)
        &&& self.im_profile_specific_type == be16_at(data, 54)
        &&& self.im_version == be16_at(data, 56)
        &&& self.im_supported == be16_at(data, 58)
    }

    /// Combined 16-bit vendor ID.
    pub fn vendor_id(&self) -> (r: u16)
        ensures
            r == self.vendor_id_high * 0x100 + self.vendor_id_low,
    {
        self.vendor_id_high as u16 * 0x100 + self.vendor_id_low as u16
    }

    pub fn order_id_str(&self) -> (r: String)
        ensures
            r@ == decoded(self.order_id@),
    {
        decode_bytes(self.order_id.as_slice())
    }

    pub fn serial_number_str(&self) -> (r: String)
        ensures
            r@ == decoded(self.im_serial_number@),
    {
        decode_bytes(self.im_serial_number.as_slice())
    }

    /// Software revision as "V1.2.3", without prefix character when the prefix
    /// byte is 0.
    pub fn software_revision(&self) -> (r: String)
        ensures
            r@ == revision_text(
                self.sw_revision_prefix,
                self.im_sw_revision_functional_enhancement,
                self.im_sw_revision_bug_fix,
                self.im_sw_revision_internal_change,
            ),
    {
        let mut s = String::new();
        if self.sw_revision_prefix != 0 {
            s.push(self.sw_revision_prefix as char);
        }
        assert(s@ =~= if self.sw_revision_prefix != 0 {
            seq![self.sw_revision_prefix as char]
        } else {
            Seq::empty()
        });
        push_dec(&mut s, self.im_sw_revision_functional_enhancement as u128);
        s.append(".");
        push_dec(&mut s, self.im_sw_revision_bug_fix as u128);
        s.append(".");
        push_dec(&mut s, self.im_sw_revision_internal_change as u128);
        s
    }
}

/// I&M1 tag function and location, 60 bytes.
#[derive(Debug, Clone, Copy, PartialEq, Eq)]
pub struct InM1 {
    pub block_header: BlockHeader,
    pub im_tag_function: [u8; 32],
    pub im_tag_location: [u8; 22],
}

impl InM1 {
    pub const IDX: u16 = 0xAFF1;

    /// The record's fields are those that stand in `data`.
    pub open spec fn read_from(self, data: Seq<u8>) -> bool {
        &&& self.block_header == header_at(data, 0)
        &&& self.im_tag_function@ == data.subrange(6, 38)
        &&& self.im_tag_location@ == data.subrange(38, 60)
    }

    pub fn tag_function_str(&self) -> (r: String)
        ensures
            r@ == decoded(self.im_tag_function@),
    {
        decode_bytes(self.im_tag_function.as_slice())
    }

    pub fn tag_location_str(&self) -> (r: String)
        ensures
            r@ == decoded(self.im_tag_location@),
    {
        decode_bytes(self.im_tag_location.as_slice())
    }
}

/// I&M2 installation date, 22 bytes.
#[derive(Debug, Clone, Copy, PartialEq, Eq)]
pub struct InM2 {
    pub block_header: BlockHeader,
    /// "YYYY-MM-DD HH:MM" format.
    pub im_date: [u8; 16],
}

impl InM2 {
    pub const IDX: u16 = 0xAFF2;

    /// The record's fields are those that stand in `data`.
    pub open spec fn read_from(self, data: Seq<u8>) -> bool {
        &&& self.block_header == header_at(data, 0)
        &&& self.im_date@ == data.subrange(6, 22)
    }

    pub fn date_str(&self) -> (r: String)
        ensures
            r@ == decoded(self.im_date@),
    {
        decode_bytes(self.im_date.as_slice())
    }
}

/// I&M3 descriptor, 60 bytes.
#[derive(Debug, Clone, Copy, PartialEq, Eq)]
pub struct InM3 {
    pub block_header: BlockHeader,
    pub im_descriptor: [u8; 54],
}

impl InM3 {
    pub const IDX: u16 = 0xAFF3;

    /// The record's fields are those that stand in `data`.
    pub open spec fn read_from(self, data: Seq<u8>) -> bool {
        &&& self.block_header == header_at(data, 0)
        &&& self.im_descriptor@ == data.subrange(6, 60)
    }

    pub fn descriptor_str(&self) -> (r: String)
        ensures
            r@ == decoded(self.im_descriptor@),
    {
        decode_bytes(self.im_descriptor.as_slice())
    }
}

/// The message for a record that is too short.
pub open spec fn short_record_message(name: Seq<char>, size: nat, got: nat) -> Seq<char> {
    name + ": insufficient data, need "@ + dec(size) + " bytes, got "@ + dec(got)
}

fn short_record(name: &str, size: usize, got: usize) -> (e: String)
    ensures
        e@ == short_record_message(name@, size as nat, got as nat),
{
    let mut e = name.to_owned();
    e.append(": insufficient data, need ");
    push_dec(&mut e, size as u128);
    e.append(" bytes, got ");
    push_dec(&mut e, got as u128);
    e
}

fn first_header(data: &[u8]) -> (r: BlockHeader)
    requires
        data@.len() >= 6,
    ensures
        r == header_at(data@, 0),
{
    BlockHeader {
        block_type: read_be16(data, 0),
        block_length: read_be16(data, 2),
        version_high: data[4],
        version_low: data[5],
    }
}

/// Parse an I&M0 record payload; extra trailing bytes are ignored.
pub fn parse_im0(data: &[u8]) -> (r: Result<InM0, String>)
    ensures
        r is Ok <==> data@.len() >= 60,
        r matches Ok(v) ==> v.read_from(data@),
        r matches Err(e) ==> e@ == short_record_message("PNInM0"@, 60, data@.len()),
{
    if data.len() < 60 {
        return Err(short_record("PNInM0", 60, data.len()));
    }
    Ok(
        InM0 {
            block_header: first_header(data),
            vendor_id_high: data[6],
            vendor_id_low: data[7],
            order_id: array20(data, 8),
            im_serial_number: array16(data, 28),
            im_hardware_revision: read_be16(data, 44),
            sw_revision_prefix: data[46],
            im_sw_revision_functional_enhancement: data[47],
            im_sw_revision_bug_fix: data[48],
            im_sw_revision_internal_change: data[49],
            im_revision_counter: read_be16(data, 50),
            im_profile_id: read_be16(data, 52),
            im_profile_specific_type: read_be16(data, 54),
            im_version: read_be16(data, 56),
            im_supported: read_be16(data, 58),
        },
    )
}

/// Parse an I&M1 record payload.
pub fn parse_im1(data: &[u8]) -> (r: Result<InM1, String>)
    ensures
        r is Ok <==> data@.len() >= 60,
        r matches Ok(v) ==> v.read_from(data@),
        r matches Err(e) ==> e@ == short_record_message("PNInM1"@, 60, data@.len()),
{
    if data.len() < 60 {
        return Err(short_record("PNInM1", 60, data.len()));
    }
    Ok(
        InM1 {
            block_header: first_header(data),
            im_tag_function: array32(data, 6),
            im_tag_location: array22(data, 38),
        },
    )
}

/// Parse an I&M2 record payload.
pub fn parse_im2(data: &[u8]) -> (r: Result<InM2, String>)
    ensures
        r is Ok <==> data@.len() >= 22,
        r matches Ok(v) ==> v.read_from(data@),
        r matches Err(e) ==> e@ == short_record_message("PNInM2"@, 22, data@.len()),
{
    if data.len() < 22 {
        return Err(short_record("PNInM2", 22, data.len()));
    }
    Ok(InM2 { block_header: first_header(data), im_date: array16(data, 6) })
}

/// Parse an I&M3 record payload.
pub fn parse_im3(data: &[u8]) -> (r: Result<InM3, String>)
    ensures
        r is Ok <==> data@.len() >= 60,
        r matches Ok(v) ==> v.read_from(data@),
        r matches Err(e) ==> e@ == short_record_message("PNInM3"@, 60, data@.len()),
{
    if data.len() < 60 {
        return Err(short_record("PNInM3", 60, data.len()));
    }
    Ok(InM3 { block_header: first_header(data), im_descriptor: array54(data, 6) })
}

/// Slot and subslot discovered from a device.
#[derive(Debug, Clone, PartialEq, Eq, Default)]
pub struct SlotInfo {
    pub slot: u16,
    pub subslot: u16,
    pub api: u32,
    pub module_ident: u32,
    pub submodule_ident: u32,
    /// Nested block type names seen for this slot (PDRealData only).
    pub blocks: Vec<String>,
}

/// What a [`SlotInfo`] says, as mathematical values.
#[verifier::ext_equal]
pub struct SlotModel {
    pub slot: u16,
    pub subslot: u16,
    pub api: u32,
    pub module_ident: u32,
    pub submodule_ident: u32,
    pub blocks: Seq<Seq<char>>,
}

impl View for SlotInfo {
    type V = SlotModel;

    open spec fn view(&self) -> SlotModel {
        SlotModel {
            slot: self.slot,
            subslot: self.subslot,
            api: self.api,
            module_ident: self.module_ident,
            submodule_ident: self.submodule_ident,
            blocks: texts(self.blocks@),
        }
    }
}

/// The models of a list of slots.
pub open spec fn slot_models(s: Seq<SlotInfo>) -> Seq<SlotModel> {
    Seq::new(s.len(), |i: int| s[i]@)
}

/// The slot without API and block names.
pub open spec fn device_slot_of(s: SlotModel) -> DeviceSlot {
    DeviceSlot {
        slot: s.slot,
        subslot: s.subslot,
        module_ident: s.module_ident,
        submodule_ident: s.submodule_ident,
    }
}

impl SlotInfo {
    /// View as the slot type that a device description is matched against.
    pub fn to_device_slot(&self) -> (r: DeviceSlot)
        ensures
            r == device_slot_of(self@),
    {
        DeviceSlot {
            slot: self.slot,
            subslot: self.subslot,
            module_ident: self.module_ident,
            submodule_ident: self.submodule_ident,
        }
    }
}

/// LLDP peer information from PDPortDataReal.
#[derive(Debug, Clone, PartialEq, Eq)]
pub struct PeerInfo {
    pub port_id: String,
    pub chassis_id: String,
    pub mac_address: [u8; 6],
}

/// What a [`PeerInfo`] says, as mathematical values.
#[verifier::ext_equal]
pub struct PeerModel {
    pub port_id: Seq<char>,
    pub chassis_id: Seq<char>,
    pub mac_address: Seq<u8>,
}

impl View for PeerInfo {
    type V = PeerModel;

    open spec fn view(&self) -> PeerModel {
        PeerModel {
            port_id: self.port_id@,
            chassis_id: self.chassis_id@,
            mac_address: self.mac_address@,
        }
    }
}

impl PeerInfo {
    pub fn mac_str(&self) -> (r: String)
        ensures
            r@ == mac_text(self.mac_address@),
    {
        mac2s(&self.mac_address)
    }
}

/// Port information from PDPortDataReal 0x020F.
#[derive(Debug, Clone, PartialEq, Eq)]
pub struct PortInfo {
    pub slot: u16,
    pub subslot: u16,
    pub port_id: String,
    pub mau_type: u16,
    pub link_state_port: u8,
    pub link_state_link: u8,
    pub media_type: u32,
    pub peers: Vec<PeerInfo>,
    pub domain_boundary: u32,
    pub multicast_boundary: u32,
}

/// What a [`PortInfo`] says, as mathematical values.
#[verifier::ext_equal]
pub struct PortModel {
    pub slot: u16,
    pub subslot: u16,
    pub port_id: Seq<char>,
    pub mau_type: u16,
    pub link_state_port: u8,
    pub link_state_link: u8,
    pub media_type: u32,
    pub peers: Seq<PeerModel>,
    pub domain_boundary: u32,
    pub multicast_boundary: u32,
}

/// The models of a list of peers.
pub open spec fn peer_models(s: Seq<PeerInfo>) -> Seq<PeerModel> {
    Seq::new(s.len(), |i: int| s[i]@)
}

impl View for PortInfo {
    type V = PortModel;

    open spec fn view(&self) -> PortModel {
        PortModel {
            slot: self.slot,
            subslot: self.subslot,
            port_id: self.port_id@,
            mau_type: self.mau_type,
            link_state_port: self.link_state_port,
            link_state_link: self.link_state_link,
            media_type: self.media_type,
            peers: peer_models(self.peers@),
            domain_boundary: self.domain_boundary,
            multicast_boundary: self.multicast_boundary,
        }
    }
}

/// The name of a link state.
pub open spec fn link_state_text(state: u8) -> Seq<char> {
    if state == 0 {
        "Unknown"@
    } else if state == 1 {
        "Up"@
    } else if state == 2 {
        "Down"@
    } else if state == 3 {
        "Testing"@
    } else {
        "Unknown("@ + dec(state as nat) + ")"@
    }
}

impl PortInfo {
    /// Human-readable link state.
    pub fn link_state(&self) -> (r: String)
        ensures
            r@ == link_state_text(self.link_state_link),
    {
        match self.link_state_link {
            0 => "Unknown".to_owned(),
            1 => "Up".to_owned(),
            2 => "Down".to_owned(),
            3 => "Testing".to_owned(),
            other => {
                let mut s = "Unknown(".to_owned();
                push_dec(&mut s, other as u128);
                s.append(")");
                s
            },
        }
    }
}

/// Interface information from PDInterfaceDataReal 0x0240.
#[derive(Debug, Clone, PartialEq, Eq)]
pub struct InterfaceInfo {
    pub chassis_id: String,
    pub mac_address: [u8; 6],
    pub ip_address: [u8; 4],
    pub subnet_mask: [u8; 4],
    pub gateway: [u8; 4],
}

/// What an [`InterfaceInfo`] says, as mathematical values.
#[verifier::ext_equal]
pub struct InterfaceModel {
    pub chassis_id: Seq<char>,
    pub mac_address: Seq<u8>,
    pub ip_address: Seq<u8>,
    pub subnet_mask: Seq<u8>,
    pub gateway: Seq<u8>,
}

impl View for InterfaceInfo {
    type V = InterfaceModel;

    open spec fn view(&self) -> InterfaceModel {
        InterfaceModel {
            chassis_id: self.chassis_id@,
            mac_address: self.mac_address@,
            ip_address: self.ip_address@,
            subnet_mask: self.subnet_mask@,
            gateway: self.gateway@,
        }
    }
}

fn dotted(ip: &[u8; 4]) -> (r: String)
    ensures
        r@ == ip_text(ip@),
{
    assert(seq![ip@[0], ip@[1], ip@[2], ip@[3]] =~= ip@);
    ip_string(ip[0], ip[1], ip[2], ip[3])
}

impl InterfaceInfo {
    pub fn mac_str(&self) -> (r: String)
        ensures
            r@ == mac_text(self.mac_address@),
    {
        mac2s(&self.mac_address)
    }

    pub fn ip_str(&self) -> (r: String)
        ensures
            r@ == ip_text(self.ip_address@),
    {
        dotted(&self.ip_address)
    }

    pub fn subnet_str(&self) -> (r: String)
        ensures
            r@ == ip_text(self.subnet_mask@),
    {
        dotted(&self.subnet_mask)
    }

    pub fn gateway_str(&self) -> (r: String)
        ensures
            r@ == ip_text(self.gateway@),
    {
        dotted(&self.gateway)
    }
}

/// Where a field of a block body starts that is aligned with the block, whose
/// 6-byte header precedes the body at `start`.
pub open spec fn align_in_block(start: int, off: int) -> int {
    start + aligned4(6 + (off - start)) - 6
}

/// The interface that a PDInterfaceDataReal body at `start` describes: the
/// chassis id behind its length, then, each aligned within the block, the MAC
/// address and the IP configuration.
pub open spec fn interface_at(data: Seq<u8>, start: int) -> Result<InterfaceModel, Seq<char>> {
    let len = data[start] as int;
    let mac = align_in_block(start, start + 1 + len);
    let ip = align_in_block(start, mac + 6);
    if data.len() <= start || data.len() < start + 1 + len {
        Err("Truncated chassis ID"@)
    } else if data.len() < mac + 6 {
        Err("Truncated MAC address"@)
    } else if data.len() < ip + 12 {
        Err("Truncated IP configuration"@)
    } else {
        Ok(
            InterfaceModel {
                chassis_id: latin1(data.subrange(start + 1, start + 1 + len)),
                mac_address: data.subrange(mac, mac + 6),
                ip_address: data.subrange(ip, ip + 4),
                subnet_mask: data.subrange(ip + 4, ip + 8),
                gateway: data.subrange(ip + 8, ip + 12),
            },
        )
    }
}

/// Parse a PDInterfaceDataReal (0x0240) block body starting at `offset`;
/// alignment is relative to the block start, 6-byte header included.
pub fn parse_pd_interface_data_real(data: &[u8], offset: usize) -> (r: Result<
    InterfaceInfo,
    String,
>)
    ensures
        match interface_at(data@, offset as int) {
            Ok(m) => r matches Ok(v) && v@ == m,
            Err(m) => r matches Err(e) && e@ == m,
        },
{
    if data.len() <= offset {
        return Err("Truncated chassis ID".to_owned());
    }
    let len: usize = data[offset] as usize;
    let left: usize = data.len() - offset;
    if left < 1 + len {
        return Err("Truncated chassis ID".to_owned());
    }
    let chassis_id = decode_latin1(slice_subrange(data, offset + 1, offset + 1 + len));
    // Distances from the start of the body.
    let mac: usize = align4(6 + 1 + len) - 6;
    if left < mac + 6 {
        return Err("Truncated MAC address".to_owned());
    }
    let ip: usize = align4(6 + mac + 6) - 6;
    if left < ip + 12 {
        return Err("Truncated IP configuration".to_owned());
    }
    let r = InterfaceInfo {
        chassis_id,
        mac_address: array6(data, offset + mac),
        ip_address: array4(data, offset + ip),
        subnet_mask: array4(data, offset + ip + 4),
        gateway: array4(data, offset + ip + 8),
    };
    Ok(r)
}

/// A string behind its length byte at `off`, and the offset behind it. If the
/// announced characters are not all there, the string is empty and only the
/// length byte is taken.
pub open spec fn short_text(data: Seq<u8>, off: int) -> (Seq<char>, int) {
    let len = data[off] as int;
    if data.len() >= off + 1 + len {
        (latin1(data.subrange(off + 1, off + 1 + len)), off + 1 + len)
    } else {
        (Seq::empty(), off + 1)
    }
}

/// `off` aligned relative to `start`.
pub open spec fn align_from(start: int, off: int) -> int {
    start + aligned4(off - start)
}

/// Up to `n` peers from `off` on, and the offset behind them: port id, chassis
/// id, and the MAC address between two alignments.
pub open spec fn peers_from(data: Seq<u8>, start: int, off: int, n: nat) -> (Seq<PeerModel>, int)
    decreases n,
{
    if n == 0 || data.len() < off + 1 {
        (Seq::empty(), off)
    } else {
        let (port_id, a) = short_text(data, off);
        if data.len() < a + 1 {
            (Seq::empty(), a)
        } else {
            let (chassis_id, b) = short_text(data, a);
            let m = align_from(start, b);
            let found = data.len() >= m + 6;
            let peer = PeerModel {
                port_id,
                chassis_id,
                mac_address: if found {
                    data.subrange(m, m + 6)
                } else {
                    zeros(6)
                },
            };
            let next = align_from(
                start,
                if found {
                    m + 6
                } else {
                    m
                },
            );
            let (rest, end) = peers_from(data, start, next, (n - 1) as nat);
            (seq![peer] + rest, end)
        }
    }
}

/// What follows the peers: MAU type, boundaries, link states, media type, each
/// zero where the data ends before it.
pub open spec fn port_tail(
    data: Seq<u8>,
    start: int,
    off: int,
    slot: u16,
    subslot: u16,
    port_id: Seq<char>,
    peers: Seq<PeerModel>,
) -> PortModel {
    let mau = data.len() >= off + 2;
    let b = align_from(
        start,
        if mau {
            off + 2
        } else {
            off
        },
    );
    let bounds = data.len() >= b + 8;
    let l = if bounds {
        b + 8
    } else {
        b
    };
    let link = data.len() >= l + 2;
    let m = align_from(
        start,
        if link {
            l + 2
        } else {
            l
        },
    );
    PortModel {
        slot,
        subslot,
        port_id,
        mau_type: if mau {
            be16_at(data, off)
        } else {
            0
        },
        link_state_port: if link {
            data[l]
        } else {
            0
        },
        link_state_link: if link {
            data[l + 1]
        } else {
            0
        },
        media_type: if data.len() >= m + 4 {
            be32_at(data, m)
        } else {
            0
        },
        peers,
        domain_boundary: if bounds {
            be32_at(data, b)
        } else {
            0
        },
        multicast_boundary: if bounds {
            be32_at(data, b + 4)
        } else {
            0
        },
    }
}

/// The port that a PDPortDataReal body at `start` describes. The first field
/// is aligned on the absolute offset, later ones relative to the body.
pub open spec fn port_at(data: Seq<u8>, start: int, slot: u16, subslot: u16) -> PortModel {
    let first = aligned4(start);
    let named = data.len() >= first + 4;
    let s = if named {
        be16_at(data, first)
    } else {
        slot
    };
    let t = if named {
        be16_at(data, first + 2)
    } else {
        subslot
    };
    let off = if named {
        first + 4
    } else {
        first
    };
    if data.len() < off + 1 {
        PortModel {
            slot: s,
            subslot: t,
            port_id: Seq::empty(),
            mau_type: 0,
            link_state_port: 0,
            link_state_link: 0,
            media_type: 0,
            peers: Seq::empty(),
            domain_boundary: 0,
            multicast_boundary: 0,
        }
    } else {
        let (port_id, a) = short_text(data, off);
        let counted = data.len() > a;
        let n = if counted {
            data[a] as nat
        } else {
            0
        };
        let (peers, end) = peers_from(
            data,
            start,
            align_from(
                start,
                if counted {
                    a + 1
                } else {
                    a
                },
            ),
            n,
        );
        port_tail(data, start, end, s, t, port_id, peers)
    }
}

/// Offsets are counted in `u128`: alignment may step past the end of the data.
const OFFSET_LIMIT: u128 = 0x1_0000_0000_0000_0100;

fn reaches(data: &[u8], off: u128, n: u128) -> (r: bool)
    requires
        off <= OFFSET_LIMIT,
        n <= 0x1000,
    ensures
        r == (data@.len() >= off + n),
        r ==> off + n <= usize::MAX,
{
    data.len() as u128 >= off + n
}

fn align_offset(start: u128, off: u128) -> (r: u128)
    requires
        start <= off <= OFFSET_LIMIT,
    ensures
        r == align_from(start as int, off as int),
        off <= r <= off + 3,
{
    start + (off - start + 3) / 4 * 4
}

fn read_short_text(data: &[u8], off: u128) -> (r: (String, u128))
    requires
        off < data@.len(),
    ensures
        (r.0@, r.1 as int) == short_text(data@, off as int),
        off < r.1 <= data@.len(),
{
    let at: usize = off as usize;
    let len: usize = data[at] as usize;
    let left: usize = data.len() - at;
    if left >= 1 + len {
        (decode_latin1(slice_subrange(data, at + 1, at + 1 + len)), off + 1 + len as u128)
    } else {
        (String::new(), off + 1)
    }
}

fn read_peers(data: &[u8], start: u128, from: u128, count: u8) -> (r: (Vec<PeerInfo>, u128))
    requires
        start <= from <= data@.len() + 3,
        from <= OFFSET_LIMIT - 0x80,
    ensures
        (peer_models(r.0@), r.1 as int) == peers_from(
            data@,
            start as int,
            from as int,
            count as nat,
        ),
        start <= r.1 <= data@.len() + 6,
{
    let mut peers: Vec<PeerInfo> = Vec::new();
    let mut off: u128 = from;
    let mut left: u8 = count;
    let total: usize = data.len();
    let ghost want = peers_from(data@, start as int, from as int, count as nat);
    assert(peer_models(peers@) + want.0 =~= want.0);
    while left > 0
        invariant
            start <= off <= data@.len() + 6,
            total == data@.len(),
            want.0 == peer_models(peers@) + peers_from(
                data@,
                start as int,
                off as int,
                left as nat,
            ).0,
            want.1 == peers_from(data@, start as int, off as int, left as nat).1,
            want == peers_from(data@, start as int, from as int, count as nat),
        decreases left,
    {
        let ghost rest = peers_from(data@, start as int, off as int, left as nat);
        if !reaches(data, off, 1) {
            assert(peer_models(peers@) + Seq::<PeerModel>::empty() =~= peer_models(peers@));
            return (peers, off);
        }
        let (port_id, a) = read_short_text(data, off);
        if !reaches(data, a, 1) {
            assert(peer_models(peers@) + Seq::<PeerModel>::empty() =~= peer_models(peers@));
            return (peers, a);
        }
        let (chassis_id, b) = read_short_text(data, a);
        let m: u128 = align_offset(start, b);
        let mut mac_address: [u8; 6] = [0u8; 6];
        assert(mac_address@ =~= zeros(6));
        let mut next: u128 = m;
        if reaches(data, m, 6) {
            mac_address = array6(data, m as usize);
            next = m + 6;
        }
        next = align_offset(start, next);
        let peer = PeerInfo { port_id, chassis_id, mac_address };
        let ghost before = peers@;
        peers.push(peer);
        proof {
            let tail = peers_from(data@, start as int, next as int, (left - 1) as nat).0;
            assert(peer_models(peers@) =~= peer_models(before).push(peer@));
            assert(rest.0 =~= seq![peer@] + tail);
            assert(peer_models(before) + (seq![peer@] + tail) =~= peer_models(peers@) + tail);
        }
        off = next;
        left = left - 1;
    }
    assert(peer_models(peers@) + Seq::<PeerModel>::empty() =~= peer_models(peers@));
    (peers, off)
}

fn read_port_tail(
    data: &[u8],
    start: u128,
    from: u128,
    slot: u16,
    subslot: u16,
    port_id: String,
    peers: Vec<PeerInfo>,
) -> (r: PortInfo)
    requires
        start <= from <= OFFSET_LIMIT - 0x40,
    ensures
        r@ == port_tail(
            data@,
            start as int,
            from as int,
            slot,
            subslot,
            port_id@,
            peer_models(peers@),
        ),
{
    let mut off: u128 = from;
    let mut mau_type: u16 = 0;
    if reaches(data, off, 2) {
        mau_type = read_be16(data, off as usize);
        off = off + 2;
    }
    off = align_offset(start, off);
    let mut domain_boundary: u32 = 0;
    let mut multicast_boundary: u32 = 0;
    if reaches(data, off, 8) {
        domain_boundary = read_be32(data, off as usize);
        multicast_boundary = read_be32(data, off as usize + 4);
        off = off + 8;
    }
    let mut link_state_port: u8 = 0;
    let mut link_state_link: u8 = 0;
    if reaches(data, off, 2) {
        link_state_port = data[off as usize];
        link_state_link = data[off as usize + 1];
        off = off + 2;
    }
    off = align_offset(start, off);
    let mut media_type: u32 = 0;
    if reaches(data, off, 4) {
        media_type = read_be32(data, off as usize);
    }
    PortInfo {
        slot,
        subslot,
        port_id,
        mau_type,
        link_state_port,
        link_state_link,
        media_type,
        peers,
        domain_boundary,
        multicast_boundary,
    }
}

/// Parse a PDPortDataReal (0x020F) block body starting at `offset`. Fields
/// that the data does not reach are zero or empty; slot and subslot are then
/// the given ones.
pub fn parse_pd_port_data_real(data: &[u8], offset: usize, slot: u16, subslot: u16) -> (r: PortInfo)
    ensures
        r@ == port_at(data@, offset as int, slot, subslot),
{
    let start: u128 = offset as u128;
    let mut off: u128 = (start + 3) / 4 * 4;
    let mut at_slot: u16 = slot;
    let mut at_subslot: u16 = subslot;
    if reaches(data, off, 4) {
        at_slot = read_be16(data, off as usize);
        at_subslot = read_be16(data, off as usize + 2);
        off = off + 4;
    }
    if !reaches(data, off, 1) {
        let r = PortInfo {
            slot: at_slot,
            subslot: at_subslot,
            port_id: String::new(),
            mau_type: 0,
            link_state_port: 0,
            link_state_link: 0,
            media_type: 0,
            peers: Vec::new(),
            domain_boundary: 0,
            multicast_boundary: 0,
        };
        assert(r@.peers =~= Seq::<PeerModel>::empty());
        return r;
    }
    let (port_id, a) = read_short_text(data, off);
    let mut count: u8 = 0;
    let mut next: u128 = a;
    if reaches(data, a, 1) {
        count = data[a as usize];
        next = a + 1;
    }
    let from: u128 = align_offset(start, next);
    let (peers, end) = read_peers(data, start, from, count);
    read_port_tail(data, start, end, at_slot, at_subslot, port_id, peers)
}

/// Parsed PDRealData 0xF841.
#[derive(Debug, PartialEq, Eq, Default)]
pub struct PdRealData {
    pub slots: Vec<SlotInfo>,
    pub interface: Option<InterfaceInfo>,
    pub ports: Vec<PortInfo>,
    /// (api, slot, subslot, raw block bytes) per MultipleBlockHeader.
    pub raw_blocks: Vec<(u32, u16, u16, Vec<u8>)>,
}

/// What a [`PdRealData`] says, as mathematical values.
#[verifier::ext_equal]
pub struct PdModel {
    pub slots: Seq<SlotModel>,
    pub interface: Option<InterfaceModel>,
    pub ports: Seq<PortModel>,
    pub raw_blocks: Seq<(u32, u16, u16, Seq<u8>)>,
}

/// The models of a list of ports.
pub open spec fn port_models(s: Seq<PortInfo>) -> Seq<PortModel> {
    Seq::new(s.len(), |i: int| s[i]@)
}

/// The models of a list of raw blocks.
pub open spec fn raw_models(s: Seq<(u32, u16, u16, Vec<u8>)>) -> Seq<(u32, u16, u16, Seq<u8>)> {
    Seq::new(s.len(), |i: int| (s[i].0, s[i].1, s[i].2, s[i].3@))
}

impl View for PdRealData {
    type V = PdModel;

    open spec fn view(&self) -> PdModel {
        PdModel {
            slots: slot_models(self.slots@),
            interface: match self.interface {
                Some(i) => Some(i@),
                None => None,
            },
            ports: port_models(self.ports@),
            raw_blocks: raw_models(self.raw_blocks@),
        }
    }
}

fn copy_strings(v: &Vec<String>) -> (r: Vec<String>)
    ensures
        texts(r@) == texts(v@),
{
    let mut out: Vec<String> = Vec::new();
    let mut i: usize = 0;
    while i < v.len()
        invariant
            i <= v@.len(),
            out@.len() == i,
            forall|j: int| 0 <= j < i ==> (#[trigger] out@[j])@ == v@[j]@,
        decreases v@.len() - i,
    {
        out.push(v[i].as_str().to_owned());
        i = i + 1;
    }
    assert(texts(out@) =~= texts(v@));
    out
}

fn copy_slots(v: &Vec<SlotInfo>) -> (r: Vec<SlotInfo>)
    ensures
        slot_models(r@) == slot_models(v@),
{
    let mut out: Vec<SlotInfo> = Vec::new();
    let mut i: usize = 0;
    while i < v.len()
        invariant
            i <= v@.len(),
            out@.len() == i,
            forall|j: int| 0 <= j < i ==> (#[trigger] out@[j])@ == v@[j]@,
        decreases v@.len() - i,
    {
        let s = &v[i];
        out.push(
            SlotInfo {
                slot: s.slot,
                subslot: s.subslot,
                api: s.api,
                module_ident: s.module_ident,
                submodule_ident: s.submodule_ident,
                blocks: copy_strings(&s.blocks),
            },
        );
        i = i + 1;
    }
    assert(slot_models(out@) =~= slot_models(v@));
    out
}

fn copy_peers(v: &Vec<PeerInfo>) -> (r: Vec<PeerInfo>)
    ensures
        peer_models(r@) == peer_models(v@),
{
    let mut out: Vec<PeerInfo> = Vec::new();
    let mut i: usize = 0;
    while i < v.len()
        invariant
            i <= v@.len(),
            out@.len() == i,
            forall|j: int| 0 <= j < i ==> (#[trigger] out@[j])@ == v@[j]@,
        decreases v@.len() - i,
    {
        let p = &v[i];
        out.push(
            PeerInfo {
                port_id: p.port_id.as_str().to_owned(),
                chassis_id: p.chassis_id.as_str().to_owned(),
                mac_address: p.mac_address,
            },
        );
        i = i + 1;
    }
    assert(peer_models(out@) =~= peer_models(v@));
    out
}

fn copy_ports(v: &Vec<PortInfo>) -> (r: Vec<PortInfo>)
    ensures
        port_models(r@) == port_models(v@),
{
    let mut out: Vec<PortInfo> = Vec::new();
    let mut i: usize = 0;
    while i < v.len()
        invariant
            i <= v@.len(),
            out@.len() == i,
            forall|j: int| 0 <= j < i ==> (#[trigger] out@[j])@ == v@[j]@,
        decreases v@.len() - i,
    {
        let p = &v[i];
        out.push(
            PortInfo {
                slot: p.slot,
                subslot: p.subslot,
                port_id: p.port_id.as_str().to_owned(),
                mau_type: p.mau_type,
                link_state_port: p.link_state_port,
                link_state_link: p.link_state_link,
                media_type: p.media_type,
                peers: copy_peers(&p.peers),
                domain_boundary: p.domain_boundary,
                multicast_boundary: p.multicast_boundary,
            },
        );
        i = i + 1;
    }
    assert(port_models(out@) =~= port_models(v@));
    out
}

fn copy_raw_blocks(v: &Vec<(u32, u16, u16, Vec<u8>)>) -> (r: Vec<(u32, u16, u16, Vec<u8>)>)
    ensures
        raw_models(r@) == raw_models(v@),
{
    let mut out: Vec<(u32, u16, u16, Vec<u8>)> = Vec::new();
    let mut i: usize = 0;
    while i < v.len()
        invariant
            i <= v@.len(),
            out@.len() == i,
            forall|j: int| 0 <= j < i ==> raw_models(out@)[j] == #[trigger] raw_models(v@)[j],
        decreases v@.len() - i,
    {
        let b = &v[i];
        let bytes = slice_to_vec(b.3.as_slice());
        let ghost before = out@;
        out.push((b.0, b.1, b.2, bytes));
        assert forall|j: int| 0 <= j < i + 1 implies raw_models(out@)[j] == #[trigger] raw_models(
            v@,
        )[j] by {
            if j < i {
                assert(out@[j] == before[j]);
                assert(raw_models(before)[j] == raw_models(v@)[j]);
            }
        }
        i = i + 1;
    }
    assert(raw_models(out@) =~= raw_models(v@));
    out
}

impl Clone for PdRealData {
    fn clone(&self) -> (r: PdRealData)
        ensures
            r@ == self@,
    {
        PdRealData {
            slots: copy_slots(&self.slots),
            interface: match &self.interface {
                Some(i) => Some(
                    InterfaceInfo {
                        chassis_id: i.chassis_id.as_str().to_owned(),
                        mac_address: i.mac_address,
                        ip_address: i.ip_address,
                        subnet_mask: i.subnet_mask,
                        gateway: i.gateway,
                    },
                ),
                None => None,
            },
            ports: copy_ports(&self.ports),
            raw_blocks: copy_raw_blocks(&self.raw_blocks),
        }
    }
}

/// PDRealData without anything in it.
pub open spec fn empty_pd() -> PdModel {
    PdModel {
        slots: Seq::empty(),
        interface: None,
        ports: Seq::empty(),
        raw_blocks: Seq::empty(),
    }
}

/// What a nested block adds: an interface block that parses replaces the
/// interface, a port block adds a port, others add nothing.
pub open spec fn apply_nested(
    acc: PdModel,
    data: Seq<u8>,
    h: BlockHeader,
    body: int,
    slot: u16,
    subslot: u16,
) -> PdModel {
    if h.block_type == 0x0240 {
        match interface_at(data, body) {
            Ok(i) => PdModel { interface: Some(i), ..acc },
            Err(_) => acc,
        }
    } else if h.block_type == 0x020F {
        PdModel { ports: acc.ports.push(port_at(data, body, slot, subslot)), ..acc }
    } else {
        acc
    }
}

/// What the nested blocks from `off` to `end` add, and their names.
pub open spec fn nested_from(
    data: Seq<u8>,
    off: int,
    end: int,
    slot: u16,
    subslot: u16,
    acc: PdModel,
    names: Seq<Seq<char>>,
) -> (PdModel, Seq<Seq<char>>)
    decreases
            if off < data.len() {
                data.len() - off
            } else {
                0
            },
{
    if off + 6 > end || off + 6 > data.len() {
        (acc, names)
    } else {
        let h = header_at(data, off);
        nested_from(
            data,
            off + 6 + h.body_len(),
            end,
            slot,
            subslot,
            apply_nested(acc, data, h, off + 6, slot, subslot),
            names.push(block_type_text(h.block_type)),
        )
    }
}

/// What the blocks from `off` on add. A MultipleBlockHeader adds its slot, its
/// nested blocks and its raw bytes; other blocks are skipped.
pub open spec fn pd_from(data: Seq<u8>, off: int, acc: PdModel) -> PdModel
    decreases
            if off < data.len() {
                data.len() - off
            } else {
                0
            },
{
    if off + 6 > data.len() {
        acc
    } else {
        let h = header_at(data, off);
        let body = off + 6;
        let end = body + h.body_len();
        pd_from(
            data,
            end,
            if h.block_type == 0x0400 && data.len() >= body + 10 {
                apply_multiple(acc, data, body, end)
            } else {
                acc
            },
        )
    }
}

/// What a MultipleBlockHeader body adds.
pub open spec fn apply_multiple(acc: PdModel, data: Seq<u8>, body: int, end: int) -> PdModel {
    let api = be32_at(data, body + 2);
    let slot = be16_at(data, body + 6);
    let subslot = be16_at(data, body + 8);
    let (nested, names) = nested_from(data, body + 10, end, slot, subslot, acc, Seq::empty());
    PdModel {
        slots: nested.slots.push(
            SlotModel {
                slot,
                subslot,
                api,
                module_ident: 0,
                submodule_ident: 0,
                blocks: names,
            },
        ),
        raw_blocks: nested.raw_blocks.push(
            (
                api,
                slot,
                subslot,
                data.subrange(
                    body,
                    if end < data.len() {
                        end
                    } else {
                        data.len() as int
                    },
                ),
            ),
        ),
        ..nested
    }
}

fn parse_nested(
    data: &[u8],
    from: usize,
    end: u128,
    slot: u16,
    subslot: u16,
    acc: &mut PdRealData,
) -> (r: Vec<String>)
    requires
        from <= data@.len(),
    ensures
        (final(acc)@, texts(r@)) == nested_from(
            data@,
            from as int,
            end as int,
            slot,
            subslot,
            old(acc)@,
            Seq::empty(),
        ),
{
    let mut names: Vec<String> = Vec::new();
    let mut off: usize = from;
    let ghost want = nested_from(
        data@,
        from as int,
        end as int,
        slot,
        subslot,
        old(acc)@,
        Seq::empty(),
    );
    assert(texts(names@) =~= Seq::<Seq<char>>::empty());
    while data.len() - off >= 6 && off as u128 + 6 <= end
        invariant
            off <= data@.len(),
            want == nested_from(
                data@,
                from as int,
                end as int,
                slot,
                subslot,
                old(acc)@,
                Seq::empty(),
            ),
            want == nested_from(
                data@,
                off as int,
                end as int,
                slot,
                subslot,
                acc@,
                texts(names@),
            ),
        ensures
            off + 6 > end || off + 6 > data@.len(),
        decreases data@.len() - off,
    {
        let h = BlockHeader {
            block_type: read_be16(data, off),
            block_length: read_be16(data, off + 2),
            version_high: data[off + 4],
            version_low: data[off + 5],
        };
        let body: usize = off + 6;
        let ghost before = *acc;
        let ghost names_before = names@;
        let name = h.kind_name();
        names.push(name);
        if h.block_type == BLOCK_PD_INTERFACE_DATA_REAL {
            if let Ok(i) = parse_pd_interface_data_real(data, body) {
                acc.interface = Some(i);
            }
        } else if h.block_type == BLOCK_PD_PORT_DATA_REAL {
            let port = parse_pd_port_data_real(data, body, slot, subslot);
            acc.ports.push(port);
            assert(port_models(acc.ports@) =~= port_models(before.ports@).push(port@));
        }
        proof {
            assert(acc@ =~= apply_nested(before@, data@, h, body as int, slot, subslot));
            assert(texts(names@) =~= texts(names_before).push(block_type_text(h.block_type)));
        }
        let len: usize = h.body_length();
        if len > data.len() - body {
            assert(nested_from(
                data@,
                body + len,
                end as int,
                slot,
                subslot,
                acc@,
                texts(names@),
            ) == (acc@, texts(names@)));
            return names;
        }
        off = body + len;
    }
    names
}

/// Parse a complete PDRealData (0xF841) response: a sequence of
/// MultipleBlockHeader blocks with nested PDInterfaceDataReal and
/// PDPortDataReal blocks. Malformed blocks are skipped, never fatal.
pub fn parse_pd_real_data(data: &[u8]) -> (r: PdRealData)
    ensures
        r@ == pd_from(data@, 0, empty_pd()),
{
    let mut result = PdRealData {
        slots: Vec::new(),
        interface: None,
        ports: Vec::new(),
        raw_blocks: Vec::new(),
    };
    let mut off: usize = 0;
    assert(result@ =~= empty_pd());
    while data.len() - off >= 6
        invariant
            off <= data@.len(),
            pd_from(data@, off as int, result@) == pd_from(data@, 0, empty_pd()),
        decreases data@.len() - off,
    {
        let h = BlockHeader {
            block_type: read_be16(data, off),
            block_length: read_be16(data, off + 2),
            version_high: data[off + 4],
            version_low: data[off + 5],
        };
        let body: usize = off + 6;
        let len: usize = h.body_length();
        let left: usize = data.len() - body;
        let end: u128 = body as u128 + len as u128;
        let ghost before = result@;
        if h.block_type == BLOCK_MULTIPLE_HEADER && left >= 10 {
            let api: u32 = read_be32(data, body + 2);
            let slot: u16 = read_be16(data, body + 6);
            let subslot: u16 = read_be16(data, body + 8);
            let blocks = parse_nested(data, body + 10, end, slot, subslot, &mut result);
            let ghost mid = result;
            let info = SlotInfo {
                slot,
                subslot,
                api,
                module_ident: 0,
                submodule_ident: 0,
                blocks,
            };
            let stop: usize = if len < left {
                body + len
            } else {
                data.len()
            };
            let raw = (api, slot, subslot, copy_range(data, body, stop));
            result.slots.push(info);
            result.raw_blocks.push(raw);
            proof {
                assert(slot_models(result.slots@) =~= slot_models(mid.slots@).push(info@));
                assert(raw_models(result.raw_blocks@) =~= raw_models(mid.raw_blocks@).push(
                    (api, slot, subslot, raw.3@),
                ));
                assert(result@ =~= apply_multiple(before, data@, body as int, end as int));
            }
        }
        if len > left {
            assert(pd_from(data@, end as int, result@) == result@);
            return result;
        }
        off = body + len;
    }
    result
}

/// Parsed RealIdentificationData 0xF000 or 0x0013.
#[derive(Debug, PartialEq, Eq)]
pub struct RealIdentificationData {
    pub slots: Vec<SlotInfo>,
    pub version: (u8, u8),
}

impl Clone for RealIdentificationData {
    fn clone(&self) -> (r: RealIdentificationData)
        ensures
            slot_models(r.slots@) == slot_models(self.slots@),
            r.version == self.version,
    {
        RealIdentificationData {
            slots: copy_slots(&self.slots),
            version: (self.version.0, self.version.1),
        }
    }
}

impl Default for RealIdentificationData {
    fn default() -> (r: RealIdentificationData)
        ensures
            r.slots@ == Seq::<SlotInfo>::empty(),
            r.version == (1u8, 0u8),
    {
        RealIdentificationData { slots: Vec::new(), version: (1, 0) }
    }
}

/// Up to `n` subslot entries (subslot, submodule ident) from `off` on, and the
/// offset behind them.
pub open spec fn subslots_from(
    data: Seq<u8>,
    off: int,
    n: nat,
    api: u32,
    slot: u16,
    module_ident: u32,
) -> (Seq<SlotModel>, int)
    decreases n,
{
    if n == 0 || data.len() < off + 6 {
        (Seq::empty(), off)
    } else {
        let first = SlotModel {
            slot,
            subslot: be16_at(data, off),
            api,
            module_ident,
            submodule_ident: be32_at(data, off + 2),
            blocks: Seq::empty(),
        };
        let (rest, end) = subslots_from(data, off + 6, (n - 1) as nat, api, slot, module_ident);
        (seq![first] + rest, end)
    }
}

/// Up to `n` slot entries (slot, module ident, number of subslots, subslots)
/// from `off` on, and the offset behind them.
pub open spec fn slots_from(data: Seq<u8>, off: int, n: nat, api: u32) -> (Seq<SlotModel>, int)
    decreases n,
{
    if n == 0 || data.len() < off + 8 {
        (Seq::empty(), off)
    } else {
        let (subs, next) = subslots_from(
            data,
            off + 8,
            be16_at(data, off + 6) as nat,
            api,
            be16_at(data, off),
            be32_at(data, off + 2),
        );
        let (rest, end) = slots_from(data, next, (n - 1) as nat, api);
        (subs + rest, end)
    }
}

/// Up to `n` API entries (API, number of slots, slots) from `off` on.
pub open spec fn apis_from(data: Seq<u8>, off: int, n: nat) -> Seq<SlotModel>
    decreases n,
{
    if n == 0 || data.len() < off + 6 {
        Seq::empty()
    } else {
        let (slots, next) = slots_from(
            data,
            off + 6,
            be16_at(data, off + 4) as nat,
            be32_at(data, off),
        );
        slots + apis_from(data, next, (n - 1) as nat)
    }
}

/// The slots that a RealIdentificationData record lists: per API from version
/// 1.1 on, without API before.
pub open spec fn identified_slots(data: Seq<u8>) -> Seq<SlotModel> {
    if data.len() < 6 {
        if data.len() < 2 {
            Seq::empty()
        } else {
            slots_from(data, 2, be16_at(data, 0) as nat, 0).0
        }
    } else if data.len() < 8 {
        Seq::empty()
    } else if data[4] >= 1 && data[5] >= 1 {
        apis_from(data, 8, be16_at(data, 6) as nat)
    } else {
        slots_from(data, 8, be16_at(data, 6) as nat, 0).0
    }
}

/// The version that a RealIdentificationData record states; 1.0 where it has
/// no block header.
pub open spec fn identified_version(data: Seq<u8>) -> (u8, u8) {
    if data.len() < 6 {
        (1u8, 0u8)
    } else {
        (data[4], data[5])
    }
}

fn read_subslots(
    data: &[u8],
    from: usize,
    count: u16,
    api: u32,
    slot: u16,
    module_ident: u32,
    out: &mut Vec<SlotInfo>,
) -> (r: usize)
    requires
        from <= data@.len(),
    ensures
        slot_models(final(out)@) == slot_models(old(out)@) + subslots_from(
            data@,
            from as int,
            count as nat,
            api,
            slot,
            module_ident,
        ).0,
        r == subslots_from(data@, from as int, count as nat, api, slot, module_ident).1,
        from <= r <= data@.len(),
{
    let mut off: usize = from;
    let mut left: u16 = count;
    let ghost want = subslots_from(data@, from as int, count as nat, api, slot, module_ident);
    while left > 0 && data.len() - off >= 6
        invariant
            from <= off <= data@.len(),
            want.1 == subslots_from(data@, off as int, left as nat, api, slot, module_ident).1,
            slot_models(out@) + subslots_from(
                data@,
                off as int,
                left as nat,
                api,
                slot,
                module_ident,
            ).0 == slot_models(old(out)@) + want.0,
        ensures
            left == 0 || data@.len() < off + 6,
        decreases left,
    {
        let info = SlotInfo {
            slot,
            subslot: read_be16(data, off),
            api,
            module_ident,
            submodule_ident: read_be32(data, off + 2),
            blocks: Vec::new(),
        };
        let ghost before = out@;
        out.push(info);
        proof {
            let rest = subslots_from(
                data@,
                off + 6,
                (left - 1) as nat,
                api,
                slot,
                module_ident,
            ).0;
            assert(texts(info.blocks@) =~= Seq::<Seq<char>>::empty());
            assert(slot_models(out@) =~= slot_models(before).push(info@));
            assert(slot_models(before) + (seq![info@] + rest) =~= slot_models(out@) + rest);
        }
        off = off + 6;
        left = left - 1;
    }
    assert(slot_models(out@) + Seq::<SlotModel>::empty() =~= slot_models(out@));
    off
}

fn read_slots(data: &[u8], from: usize, count: u16, api: u32, out: &mut Vec<SlotInfo>) -> (r: usize)
    requires
        from <= data@.len(),
    ensures
        slot_models(final(out)@) == slot_models(old(out)@) + slots_from(
            data@,
            from as int,
            count as nat,
            api,
        ).0,
        r == slots_from(data@, from as int, count as nat, api).1,
        from <= r <= data@.len(),
{
    let mut off: usize = from;
    let mut left: u16 = count;
    let ghost want = slots_from(data@, from as int, count as nat, api);
    while left > 0 && data.len() - off >= 8
        invariant
            from <= off <= data@.len(),
            want.1 == slots_from(data@, off as int, left as nat, api).1,
            slot_models(out@) + slots_from(data@, off as int, left as nat, api).0 == slot_models(
                old(out)@,
            ) + want.0,
        ensures
            left == 0 || data@.len() < off + 8,
        decreases left,
    {
        let slot: u16 = read_be16(data, off);
        let module_ident: u32 = read_be32(data, off + 2);
        let subslots: u16 = read_be16(data, off + 6);
        let ghost before = slot_models(out@);
        let ghost subs = subslots_from(
            data@,
            off + 8,
            subslots as nat,
            api,
            slot,
            module_ident,
        );
        let next: usize = read_subslots(data, off + 8, subslots, api, slot, module_ident, out);
        proof {
            let rest = slots_from(data@, next as int, (left - 1) as nat, api).0;
            assert(before + (subs.0 + rest) =~= slot_models(out@) + rest);
        }
        off = next;
        left = left - 1;
    }
    assert(slot_models(out@) + Seq::<SlotModel>::empty() =~= slot_models(out@));
    off
}

fn read_apis(data: &[u8], from: usize, count: u16) -> (r: Vec<SlotInfo>)
    requires
        from <= data@.len(),
    ensures
        slot_models(r@) == apis_from(data@, from as int, count as nat),
{
    let mut out: Vec<SlotInfo> = Vec::new();
    let mut off: usize = from;
    let mut left: u16 = count;
    let ghost want = apis_from(data@, from as int, count as nat);
    assert(slot_models(out@) + want =~= want);
    while left > 0 && data.len() - off >= 6
        invariant
            off <= data@.len(),
            slot_models(out@) + apis_from(data@, off as int, left as nat) == want,
        ensures
            left == 0 || data@.len() < off + 6,
        decreases left,
    {
        let api: u32 = read_be32(data, off);
        let slots: u16 = read_be16(data, off + 4);
        let ghost before = slot_models(out@);
        let ghost part = slots_from(data@, off + 6, slots as nat, api);
        let next: usize = read_slots(data, off + 6, slots, api, &mut out);
        proof {
            let rest = apis_from(data@, next as int, (left - 1) as nat);
            assert(before + (part.0 + rest) =~= slot_models(out@) + rest);
        }
        off = next;
        left = left - 1;
    }
    assert(slot_models(out@) + Seq::<SlotModel>::empty() =~= slot_models(out@));
    out
}

/// Parse a RealIdentificationData (0xF000 or 0x0013) response, both the
/// version 1.0 (no API level) and the version 1.1 (per API) layout. The block
/// header is read without checking its type. Truncated data yields the slots
/// parsed so far, never an error.
pub fn parse_real_identification_data(data: &[u8]) -> (r: RealIdentificationData)
    ensures
        slot_models(r.slots@) == identified_slots(data@),
        r.version == identified_version(data@),
{
    let mut result = RealIdentificationData::default();
    assert(slot_models(result.slots@) =~= Seq::<SlotModel>::empty());
    let mut off: usize = 0;
    if data.len() >= 6 {
        result.version = (data[4], data[5]);
        off = 6;
    }
    if data.len() - off < 2 {
        return result;
    }
    let count: u16 = read_be16(data, off);
    if result.version.0 >= 1 && result.version.1 >= 1 {
        result.slots = read_apis(data, off + 2, count);
    } else {
        let mut slots: Vec<SlotInfo> = Vec::new();
        let ghost before = slot_models(slots@);
        assert(before =~= Seq::<SlotModel>::empty());
        let _end: usize = read_slots(data, off + 2, count, 0, &mut slots);
        assert(slot_models(slots@) =~= slots_from(data@, off + 2, count as nat, 0).0);
        result.slots = slots;
    }
    result
}

/// Device topology from I&M0FilterData: api to slot to (module ident, subslot
/// to submodule ident).
pub type InM0FilterData = BTreeMap<u32, BTreeMap<u16, (u32, BTreeMap<u16, u32>)>>;

/// The submodules of a module, by subslot.
pub type SubslotMap = Map<u16, u32>;

/// The modules of an API, by slot.
pub type SlotMap = Map<u16, (u32, SubslotMap)>;

/// What a topology says, as mathematical maps.
pub open spec fn topology(m: InM0FilterData) -> Map<u32, SlotMap> {
    m@.map_values(|s: BTreeMap<u16, (u32, BTreeMap<u16, u32>)>| slot_map(s))
}

/// What the modules of one API say, as mathematical maps.
pub open spec fn slot_map(s: BTreeMap<u16, (u32, BTreeMap<u16, u32>)>) -> SlotMap {
    s@.map_values(|e: (u32, BTreeMap<u16, u32>)| (e.0, e.1@))
}

/// The subslot entries of a module, added to `acc`; a repeated subslot
/// replaces the earlier one.
pub open spec fn filter_subslots(data: Seq<u8>, off: int, n: nat, acc: SubslotMap) -> Result<
    (SubslotMap, int),
    Seq<char>,
>
    decreases n,
{
    if n == 0 {
        Ok((acc, off))
    } else if data.len() < off + 6 {
        Err("InM0FilterData: truncated subslot entry"@)
    } else {
        filter_subslots(
            data,
            off + 6,
            (n - 1) as nat,
            acc.insert(be16_at(data, off), be32_at(data, off + 2)),
        )
    }
}

/// The module entries of an API, added to `acc`; a repeated slot replaces the
/// earlier one.
pub open spec fn filter_modules(data: Seq<u8>, off: int, n: nat, acc: SlotMap) -> Result<
    (SlotMap, int),
    Seq<char>,
>
    decreases n,
{
    if n == 0 {
        Ok((acc, off))
    } else if data.len() < off + 8 {
        Err("InM0FilterData: truncated module header"@)
    } else {
        match filter_subslots(data, off + 8, be16_at(data, off + 6) as nat, Map::empty()) {
            Err(m) => Err(m),
            Ok((subs, next)) => filter_modules(
                data,
                next,
                (n - 1) as nat,
                acc.insert(be16_at(data, off), (be32_at(data, off + 2), subs)),
            ),
        }
    }
}

/// The API entries, added to `acc`; a repeated API replaces the earlier one.
pub open spec fn filter_apis(data: Seq<u8>, off: int, n: nat, acc: Map<u32, SlotMap>) -> Result<
    Map<u32, SlotMap>,
    Seq<char>,
>
    decreases n,
{
    if n == 0 {
        Ok(acc)
    } else if data.len() < off + 6 {
        Err("InM0FilterData: truncated API header"@)
    } else {
        match filter_modules(data, off + 6, be16_at(data, off + 4) as nat, Map::empty()) {
            Err(m) => Err(m),
            Ok((modules, next)) => filter_apis(
                data,
                next,
                (n - 1) as nat,
                acc.insert(be32_at(data, off), modules),
            ),
        }
    }
}

/// The topology that an I&M0FilterData record lists, or the message why it
/// lists none.
pub open spec fn filter_topology(data: Seq<u8>) -> Result<Map<u32, SlotMap>, Seq<char>> {
    if data.len() < 6 {
        Err(short_header_message(data.len(), 0))
    } else if data.len() < 8 {
        Err("InM0FilterData: truncated API count"@)
    } else {
        filter_apis(data, 8, be16_at(data, 6) as nat, Map::empty())
    }
}

/// Insert into a map with 16-bit keys.
pub(crate) fn insert16<V>(m: &mut BTreeMap<u16, V>, k: u16, v: V)
    ensures
        final(m)@ == old(m)@.insert(k, v),
{
    broadcast use vstd::laws_cmp::group_laws_cmp;

    m.insert(k, v);
}

fn insert32<V>(m: &mut BTreeMap<u32, V>, k: u32, v: V)
    ensures
        final(m)@ == old(m)@.insert(k, v),
{
    broadcast use vstd::laws_cmp::group_laws_cmp;

    m.insert(k, v);
}

fn read_filter_subslots(data: &[u8], from: usize, count: u16) -> (r: Result<
    (BTreeMap<u16, u32>, usize),
    String,
>)
    requires
        from <= data@.len(),
    ensures
        match filter_subslots(data@, from as int, count as nat, Map::empty()) {
            Ok((m, end)) => r matches Ok((v, e)) && v@ == m && e == end && from <= e <= data@.len(),
            Err(m) => r matches Err(e) && e@ == m,
        },
{
    let mut out: BTreeMap<u16, u32> = BTreeMap::new();
    let mut off: usize = from;
    let mut left: u16 = count;
    while left > 0
        invariant
            from <= off <= data@.len(),
            filter_subslots(data@, off as int, left as nat, out@) == filter_subslots(
                data@,
                from as int,
                count as nat,
                Map::empty(),
            ),
        decreases left,
    {
        if data.len() - off < 6 {
            return Err("InM0FilterData: truncated subslot entry".to_owned());
        }
        insert16(&mut out, read_be16(data, off), read_be32(data, off + 2));
        off = off + 6;
        left = left - 1;
    }
    Ok((out, off))
}

fn read_filter_modules(data: &[u8], from: usize, count: u16) -> (r: Result<
    (BTreeMap<u16, (u32, BTreeMap<u16, u32>)>, usize),
    String,
>)
    requires
        from <= data@.len(),
    ensures
        match filter_modules(data@, from as int, count as nat, Map::empty()) {
            Ok((m, end)) => r matches Ok((v, e)) && slot_map(v) == m && e == end && from <= e
                <= data@.len(),
            Err(m) => r matches Err(e) && e@ == m,
        },
{
    let mut out: BTreeMap<u16, (u32, BTreeMap<u16, u32>)> = BTreeMap::new();
    let mut off: usize = from;
    let mut left: u16 = count;
    assert(slot_map(out) =~= Map::<u16, (u32, SubslotMap)>::empty());
    while left > 0
        invariant
            from <= off <= data@.len(),
            filter_modules(data@, off as int, left as nat, slot_map(out)) == filter_modules(
                data@,
                from as int,
                count as nat,
                Map::empty(),
            ),
        decreases left,
    {
        if data.len() - off < 8 {
            return Err("InM0FilterData: truncated module header".to_owned());
        }
        let slot: u16 = read_be16(data, off);
        let ident: u32 = read_be32(data, off + 2);
        match read_filter_subslots(data, off + 8, read_be16(data, off + 6)) {
            Ok((subs, next)) => {
                let ghost before = slot_map(out);
                let ghost entry = (ident, subs@);
                insert16(&mut out, slot, (ident, subs));
                assert(slot_map(out) =~= before.insert(slot, entry));
                off = next;
            },
            Err(e) => {
                return Err(e);
            },
        }
        left = left - 1;
    }
    Ok((out, off))
}

/// Parse an I&M0FilterData (0xF840) record payload into nested maps; unlike in
/// the PDRealData parsers, truncation is an error here.
pub fn parse_inm0_filter(data: &[u8]) -> (r: Result<InM0FilterData, String>)
    ensures
        match filter_topology(data@) {
            Ok(m) => r matches Ok(v) && topology(v) == m,
            Err(m) => r matches Err(e) && e@ == m,
        },
{
    match parse_block_header(data, 0) {
        Ok(_) => {},
        Err(e) => {
            return Err(e);
        },
    }
    if data.len() < 8 {
        return Err("InM0FilterData: truncated API count".to_owned());
    }
    let count: u16 = read_be16(data, 6);
    let mut result: InM0FilterData = BTreeMap::new();
    let mut off: usize = 8;
    let mut left: u16 = count;
    assert(topology(result) =~= Map::<u32, SlotMap>::empty());
    while left > 0
        invariant
            8 <= off <= data@.len(),
            filter_apis(data@, off as int, left as nat, topology(result)) == filter_topology(data@),
        decreases left,
    {
        if data.len() - off < 6 {
            return Err("InM0FilterData: truncated API header".to_owned());
        }
        let api: u32 = read_be32(data, off);
        match read_filter_modules(data, off + 6, read_be16(data, off + 4)) {
            Ok((modules, next)) => {
                let ghost before = topology(result);
                let ghost entry = slot_map(modules);
                insert32(&mut result, api, modules);
                assert(topology(result) =~= before.insert(api, entry));
                off = next;
            },
            Err(e) => {
                return Err(e);
            },
        }
        left = left - 1;
    }
    Ok(result)
}

} // verus!
