//! The RPC transport over raw layer 2: one UDP endpoint carries the requests
//! with their responses and the control requests that the device initiates.

use vstd::prelude::*;
use vstd::string::*;
use crate::random::{dynamic_port, port_from, random_bytes};
use crate::rawudp::{next_ip_id, udp_frame_bytes, udp_of_frame, RawUdp};
use crate::text::begins_with;
use crate::transport::RPC_PORT;
use crate::util::{ip_text, s2ip};

verus! {

/// A raw layer 2 endpoint, and the UDP port that the last control request came
/// from, so that its confirmation can leave from 34964 back to it.
#[derive(Debug, Clone, Copy, PartialEq, Eq)]
pub struct RawL2Route {
    pub raw: RawUdp,
    pub ccontrol_src: Option<u16>,
}

/// A route of which no control request has come yet.
pub open spec fn fresh_route(
    src_mac: [u8; 6],
    src_ip: [u8; 4],
    dst_mac: [u8; 6],
    dst_ip: [u8; 4],
    local_port: u16,
) -> RawL2Route {
    RawL2Route {
        raw: RawUdp { src_mac, dst_mac, src_ip, dst_ip, local_port, ip_id: 0 },
        ccontrol_src: None,
    }
}

impl RawL2Route {
    /// A route from the local port that two random bytes give.
    pub fn from_random(
        src_mac: [u8; 6],
        src_ip: [u8; 4],
        dst_mac: [u8; 6],
        dst_ip: [u8; 4],
        rnd: [u8; 2],
    ) -> (r: RawL2Route)
        ensures
            r == fresh_route(src_mac, src_ip, dst_mac, dst_ip, dynamic_port(rnd@[0], rnd@[1])),
    {
        RawL2Route {
            raw: RawUdp::open(src_mac, src_ip, dst_mac, dst_ip, port_from(rnd[0], rnd[1])),
            ccontrol_src: None,
        }
    }

    /// A route from a random local port of the dynamic range. It fails only if
    /// the random source does.
    pub fn new_raw(src_mac: [u8; 6], src_ip: [u8; 4], dst_mac: [u8; 6], dst_ip: [u8; 4]) -> (r:
        Result<RawL2Route, String>)
        ensures
            r matches Ok(t) ==> t.raw.local_port >= 49152 && t == fresh_route(
                src_mac,
                src_ip,
                dst_mac,
                dst_ip,
                t.raw.local_port,
            ),
            r matches Err(e) ==> begins_with(e@, "getrandom failed: "@),
    {
        match random_bytes(2) {
            Ok(rnd) => Ok(
                RawL2Route::from_random(src_mac, src_ip, dst_mac, dst_ip, [rnd[0], rnd[1]]),
            ),
            Err(e) => Err(e),
        }
    }

    /// The frame that carries a request to the device's RPC port.
    pub fn send_request(&mut self, data: &[u8]) -> (r: Vec<u8>)
        requires
            old(self).raw.payload_fits(data@, old(self).raw.local_port, 34964),
        ensures
            r@ == udp_frame_bytes(
                old(self).raw.src_mac@,
                old(self).raw.dst_mac@,
                old(self).raw.src_ip@,
                old(self).raw.dst_ip@,
                old(self).raw.local_port,
                34964,
                old(self).raw.ip_id,
                data@,
            ),
            *final(self) == (RawL2Route {
                raw: RawUdp { ip_id: next_ip_id(old(self).raw.ip_id), ..old(self).raw },
                ..*old(self)
            }),
    {
        self.raw.send_to(data, RPC_PORT)
    }

    /// The datagram that a captured frame carries for the request and response
    /// channel. The response comes from a dynamic device port, so every UDP
    /// source port is accepted.
    pub fn recv_response(&self, frame: &[u8]) -> (r: Option<Vec<u8>>)
        ensures
            match udp_of_frame(frame@, self.raw.dst_ip@, self.raw.src_ip@) {
                Some((payload, port)) => r matches Some(p) && p@ == payload,
                None => r is None,
            },
    {
        match self.raw.recv_from(frame) {
            Some((payload, _)) => Some(payload),
            None => None,
        }
    }

    /// The datagram that a captured frame carries for the control channel; its
    /// source port is where the confirmation will go.
    pub fn recv_ccontrol(&mut self, frame: &[u8]) -> (r: Option<Vec<u8>>)
        ensures
            match udp_of_frame(frame@, old(self).raw.dst_ip@, old(self).raw.src_ip@) {
                Some((payload, port)) => r matches Some(p) && p@ == payload && *final(self) == (
                RawL2Route { ccontrol_src: Some(port), ..*old(self) }),
                None => r is None && *final(self) == *old(self),
            },
    {
        match self.raw.recv_from(frame) {
            Some((payload, port)) => {
                self.ccontrol_src = Some(port);
                Some(payload)
            },
            None => None,
        }
    }

    /// The frame that carries a confirmation. The device addressed port 34964,
    /// so the confirmation leaves from there, back to the port that sent the
    /// control request.
    pub fn reply_ccontrol(&mut self, data: &[u8]) -> (r: Result<Vec<u8>, String>)
        requires
            old(self).ccontrol_src matches Some(port) ==> old(self).raw.payload_fits(
                data@,
                34964,
                port,
            ),
        ensures
            match old(self).ccontrol_src {
                None => *final(self) == *old(self) && (r matches Err(e) && e@
                    == "No CControl received to reply to"@),
                Some(port) => *final(self) == (RawL2Route {
                    raw: RawUdp { ip_id: next_ip_id(old(self).raw.ip_id), ..old(self).raw },
                    ..*old(self)
                }) && (r matches Ok(f) && f@ == udp_frame_bytes(
                    old(self).raw.src_mac@,
                    old(self).raw.dst_mac@,
                    old(self).raw.src_ip@,
                    old(self).raw.dst_ip@,
                    34964,
                    port,
                    old(self).raw.ip_id,
                    data@,
                )),
            },
    {
        match self.ccontrol_src {
            Some(port) => Ok(self.raw.send_to_from(data, RPC_PORT, port)),
            None => Err("No CControl received to reply to".to_owned()),
        }
    }

    /// The device's address, for error messages.
    pub fn peer(&self) -> (r: String)
        ensures
            r@ == ip_text(self.raw.dst_ip@),
    {
        match s2ip(self.raw.dst_ip.as_slice()) {
            Ok(s) => s,
            Err(_) => "device".to_owned(),
        }
    }
}

} // verus!
