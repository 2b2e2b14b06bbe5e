//! What goes over the wire when alarms are received: the frames of both sides, byte
//! for byte, and how a received alarm is acknowledged and delivered.

use vstd::prelude::*;
use crate::alarm_listener::{
    ack_specifier, alarm_ack_bytes, alarm_ack_of, alarm_ack_of_data, alarm_data, control_frame,
    frame_step, layer2_alarm, rta_frame_bytes, rta_header_at, seq_reachable, service_step, wait_us,
    without_id, AlarmEndpoint, ChannelModel, RtaHeader, RtaSequencer,
};
use crate::alarms::{laid_out_head, laid_out_specifier, AlarmNotification, NotificationHead};
use crate::bytes::{be16, be16_at, be16_placed, be32_at, be32_placed, front_reads};
use crate::util::eth_type_offset;

verus! {

/// Every byte of an AlarmAck: the block of its priority, and the alarm that it
/// acknowledges: type, API, slot, subslot, specifier; and no error.
pub proof fn acks_have_their_layout(
    high: bool,
    alarm_type: u16,
    api: u32,
    slot: u16,
    subslot: u16,
    specifier: u16,
)
    ensures
        ({
            let b = alarm_ack_bytes(high, alarm_type, api, slot, subslot, specifier);
            &&& b.len() == 22
            &&& be16_at(b, 0) == if high {
                0x8001u16
            } else {
                0x8002u16
            }
            &&& be16_at(b, 2) == 18
            &&& b[4] == 1 && b[5] == 0
            &&& be16_at(b, 6) == alarm_type
            &&& be32_at(b, 8) == api
            &&& be16_at(b, 12) == slot
            &&& be16_at(b, 14) == subslot
            &&& be16_at(b, 16) == specifier
            &&& be32_at(b, 18) == 0
        }),
{
    let b = alarm_ack_bytes(high, alarm_type, api, slot, subslot, specifier);
    be16_placed(
        b,
        0,
        if high {
            0x8001
        } else {
            0x8002
        },
    );
    be16_placed(b, 2, 18);
    be16_placed(b, 6, alarm_type);
    be32_placed(b, 8, api);
    be16_placed(b, 12, slot);
    be16_placed(b, 14, subslot);
    be16_placed(b, 16, specifier);
    be32_placed(b, 18, 0);
}

/// The AlarmAck of a notification names the alarm that the notification reported:
/// its type, API, slot and subslot, its sequence number and the flags below the
/// state of the AR, with the priority that it had.
pub proof fn the_ack_names_the_alarm(h: NotificationHead, pad: (u8, u8), items: Seq<u8>)
    requires
        h.sequence < 0x0800,
    ensures
        ({
            let b = alarm_ack_of_data(laid_out_head(h, pad) + items);
            &&& b.len() == 22
            &&& be16_at(b, 0) == if h.block_type == 0x0001 {
                0x8001u16
            } else {
                0x8002u16
            }
            &&& be16_at(b, 6) == h.alarm_type
            &&& be32_at(b, 8) == h.api
            &&& be16_at(b, 12) == h.slot
            &&& be16_at(b, 14) == h.subslot
            &&& be16_at(b, 16) % 0x4000 == laid_out_specifier(
                h.sequence,
                h.channel,
                h.manufacturer,
                h.submodule_state,
                false,
            )
            &&& be32_at(b, 18) == 0
        }),
{
    let head = laid_out_head(h, pad);
    let bits = laid_out_specifier(h.sequence, h.channel, h.manufacturer, h.submodule_state, h.ar);
    lemma_head_fields(h, pad);
    front_reads(head, items);
    lemma_ack_bits(h.sequence, h.channel, h.manufacturer, h.submodule_state, h.ar);
    acks_have_their_layout(
        h.block_type == 0x0001,
        h.alarm_type,
        h.api,
        h.slot,
        h.subslot,
        ack_specifier(
            (bits % 0x800) as u16,
            bits / 0x0800 % 2 == 1,
            bits / 0x1000 % 2 == 1,
            bits / 0x2000 % 2 == 1,
            bits / 0x4000 % 2 == 1,
        ),
    );
}

proof fn lemma_ack_bits(sequence: u16, channel: bool, manufacturer: bool, submodule: bool, ar: bool)
    requires
        sequence < 0x0800,
    ensures
        ({
            let bits = laid_out_specifier(sequence, channel, manufacturer, submodule, ar);
            ack_specifier(
                (bits % 0x800) as u16,
                bits / 0x0800 % 2 == 1,
                bits / 0x1000 % 2 == 1,
                bits / 0x2000 % 2 == 1,
                bits / 0x4000 % 2 == 1,
            ) % 0x4000 == laid_out_specifier(sequence, channel, manufacturer, submodule, false)
        }),
{
}

proof fn lemma_head_fields(h: NotificationHead, pad: (u8, u8))
    ensures
        ({
            let d = laid_out_head(h, pad);
            &&& d.len() == 28
            &&& be16_at(d, 0) == h.block_type
            &&& be16_at(d, 6) == h.alarm_type
            &&& be32_at(d, 8) == h.api
            &&& be16_at(d, 12) == h.slot
            &&& be16_at(d, 14) == h.subslot
            &&& be16_at(d, 24) == laid_out_specifier(
                h.sequence,
                h.channel,
                h.manufacturer,
                h.submodule_state,
                h.ar,
            )
        }),
{
    let bits = laid_out_specifier(h.sequence, h.channel, h.manufacturer, h.submodule_state, h.ar);
    let d = laid_out_head(h, pad);
    be16_placed(d, 0, h.block_type);
    be16_placed(d, 6, h.alarm_type);
    be32_placed(d, 8, h.api);
    be16_placed(d, 12, h.slot);
    be16_placed(d, 14, h.subslot);
    be16_placed(d, 24, bits);
}

/// What a frame of ours says.
pub struct SentPdu {
    pub to: Seq<u8>,
    pub from: Seq<u8>,
    pub priority: u16,
    pub frame_id: u16,
    pub to_endpoint: u16,
    pub from_endpoint: u16,
    pub pdu_type: u8,
    pub flags: u8,
    pub send_number: u16,
    pub ack_number: u16,
    pub length: u16,
    pub data: Seq<u8>,
}

/// What a tagged frame says, read byte for byte.
pub open spec fn sent_pdu(f: Seq<u8>) -> SentPdu {
    SentPdu {
        to: f.subrange(0, 6),
        from: f.subrange(6, 12),
        priority: be16_at(f, 14),
        frame_id: be16_at(f, 18),
        to_endpoint: be16_at(f, 20),
        from_endpoint: be16_at(f, 22),
        pdu_type: f[24],
        flags: f[25],
        send_number: be16_at(f, 26),
        ack_number: be16_at(f, 28),
        length: be16_at(f, 30),
        data: f.skip(32),
    }
}

/// Every byte of a frame of ours: from the controller to the device, tagged with
/// the priority of the alarm, from our endpoint to the device's, with the kind,
/// flags and numbers of its PDU, and its data behind their length.
pub proof fn frames_have_their_layout(
    ep: AlarmEndpoint,
    controller_mac: Seq<u8>,
    kind: u8,
    flags: u8,
    send_number: u16,
    ack_number: u16,
    data: Seq<u8>,
    high: bool,
)
    requires
        controller_mac.len() == 6,
        kind < 16,
        data.len() <= 0xFFFF,
    ensures
        ({
            let f = rta_frame_bytes(
                ep,
                controller_mac,
                kind,
                flags,
                send_number,
                ack_number,
                data,
                high,
            );
            &&& f.len() == 32 + data.len()
            &&& be16_at(f, 12) == 0x8100
            &&& be16_at(f, 16) == 0x8892
            &&& sent_pdu(f) == (SentPdu {
                to: ep.device_mac@,
                from: controller_mac,
                priority: if high {
                    0xC000
                } else {
                    0xA000
                },
                frame_id: if high {
                    0xFC01
                } else {
                    0xFE01
                },
                to_endpoint: ep.device_ref,
                from_endpoint: ep.controller_ref,
                pdu_type: (0x10 + kind) as u8,
                flags,
                send_number,
                ack_number,
                length: data.len() as u16,
                data,
            })
        }),
{
    let f = rta_frame_bytes(ep, controller_mac, kind, flags, send_number, ack_number, data, high);
    let tag: u16 = if high {
        0xC000
    } else {
        0xA000
    };
    let id: u16 = if high {
        0xFC01
    } else {
        0xFE01
    };
    let n = data.len() as u16;
    assert(f.subrange(0, 6) =~= ep.device_mac@);
    assert(f.subrange(6, 12) =~= controller_mac);
    be16_placed(f, 12, 0x8100);
    be16_placed(f, 14, tag);
    be16_placed(f, 16, 0x8892);
    be16_placed(f, 18, id);
    be16_placed(f, 20, ep.device_ref);
    be16_placed(f, 22, ep.controller_ref);
    be16_placed(f, 26, send_number);
    be16_placed(f, 28, ack_number);
    be16_placed(f, 30, n);
    assert(f.skip(32) =~= data);
}

/// A PDU as a device sends it: Ethernet header, VLAN tag if there is one, the frame
/// ID of its priority, RTA header, data.
pub open spec fn device_frame(
    to: Seq<u8>,
    from: Seq<u8>,
    tag: Option<u16>,
    high: bool,
    h: RtaHeader,
    data: Seq<u8>,
) -> Seq<u8> {
    to + from + (match tag {
        Some(control) => be16(0x8100) + be16(control),
        None => Seq::empty(),
    }) + be16(0x8892) + be16(
        if high {
            0xFC01
        } else {
            0xFE01
        },
    ) + device_pdu(h, data)
}

/// An RTA header as a device lays it out, and the data behind it.
pub open spec fn device_pdu(h: RtaHeader, data: Seq<u8>) -> Seq<u8> {
    be16(h.alarm_dst_endpoint) + be16(h.alarm_src_endpoint) + seq![h.pdu_type, h.add_flags] + be16(
        h.send_seq_num,
    ) + be16(h.ack_seq_num) + be16(h.var_part_len) + data
}

proof fn lemma_device_pdu(h: RtaHeader, data: Seq<u8>)
    ensures
        rta_header_at(device_pdu(h, data)) == h,
        device_pdu(h, data).len() == 12 + data.len(),
        device_pdu(h, data).skip(12) == data,
{
    let p = device_pdu(h, data);
    be16_placed(p, 0, h.alarm_dst_endpoint);
    be16_placed(p, 2, h.alarm_src_endpoint);
    be16_placed(p, 6, h.send_seq_num);
    be16_placed(p, 8, h.ack_seq_num);
    be16_placed(p, 10, h.var_part_len);
    assert(p.skip(12) =~= data);
}

proof fn lemma_device_frame(to: Seq<u8>, from: Seq<u8>, tag: Option<u16>, high: bool, h: RtaHeader, data: Seq<u8>, device_mac: Seq<u8>)
    requires
        to.len() == 6,
        from.len() == 6,
    ensures
        layer2_alarm(device_frame(to, from, tag, high, h, data), device_mac) == if from
            == device_mac {
            Some((high, device_pdu(h, data)))
        } else {
            None::<(bool, Seq<u8>)>
        },
{
    let pdu = device_pdu(h, data);
    let f = device_frame(to, from, tag, high, h, data);
    let id: u16 = if high {
        0xFC01
    } else {
        0xFE01
    };
    let at: int = match tag {
        Some(_) => 16,
        None => 12,
    };
    assert(f.subrange(6, 12) =~= from);
    reveal_with_fuel(eth_type_offset, 3);
    match tag {
        Some(_) => {
            be16_placed(f, 12, 0x8100);
            be16_placed(f, 16, 0x8892);
            be16_placed(f, 18, id);
        },
        None => {
            be16_placed(f, 12, 0x8892);
            be16_placed(f, 14, id);
        },
    }
    assert(eth_type_offset(f, 12) == at);
    assert(f.skip(at + 4) =~= pdu);
}

/// A DATA PDU for us that asks for an acknowledgment and has the number that is
/// due on its channel.
pub open spec fn is_next_alarm(ep: AlarmEndpoint, c: ChannelModel, h: RtaHeader) -> bool {
    &&& h.alarm_dst_endpoint == ep.controller_ref
    &&& h.pdu_type == 0x11
    &&& h.add_flags / 16 % 2 == 1
    &&& h.send_seq_num == c.seq.exp_seq_num
    &&& h.send_seq_num != c.seq.exp_seq_num_o
}

/// An alarm that is in sequence is acknowledged and delivered: the first frame that
/// goes out is a transport ACK to the device with the number of the alarm, on the
/// alarm's channel; its notification is delivered whole; and its AlarmAck goes out
/// right behind the ACK where the send window is free. The next alarm has the next
/// number, and the other channel is as it was.
pub proof fn an_alarm_in_sequence_is_acknowledged_and_delivered(
    ep: AlarmEndpoint,
    controller_mac: Seq<u8>,
    low: ChannelModel,
    high: ChannelModel,
    to: Seq<u8>,
    tag: Option<u16>,
    is_high: bool,
    h: RtaHeader,
    data: Seq<u8>,
    after_us: int,
    now_us: int,
)
    requires
        to.len() == 6,
        controller_mac.len() == 6,
        !low.high && high.high,
        data.len() >= 28,
        be16_at(data, 0) == if is_high {
            0x0001u16
        } else {
            0x0002u16
        },
        is_next_alarm(
            ep,
            if is_high {
                high
            } else {
                low
            },
            h,
        ),
    ensures
        ({
            let f = device_frame(to, ep.device_mac@, tag, is_high, h, data);
            let s = frame_step(ep, controller_mac, low, high, f, after_us, now_us);
            let c = if is_high {
                high
            } else {
                low
            };
            let d = if is_high {
                s.high
            } else {
                s.low
            };
            let ack = sent_pdu(s.sent[0]);
            &&& s.alarm == Some(data)
            &&& s.sent.len() >= 1
            &&& ack.to == ep.device_mac@
            &&& ack.from == controller_mac
            &&& ack.frame_id == if is_high {
                0xFC01u16
            } else {
                0xFE01u16
            }
            &&& ack.to_endpoint == ep.device_ref
            &&& ack.from_endpoint == ep.controller_ref
            &&& ack.pdu_type == 0x13
            &&& ack.ack_number == h.send_seq_num
            &&& ack.length == 0
            &&& d.seq.exp_seq_num == (h.send_seq_num + 1) % 0x8000
            &&& d.seq.exp_seq_num_o == h.send_seq_num
            &&& is_high ==> s.low == low
            &&& !is_high ==> s.high == high
            &&& c.pending is None && c.queued.len() == 0 ==> {
                let answer = sent_pdu(s.sent[1]);
                &&& s.sent.len() == 2
                &&& answer.to == ep.device_mac@
                &&& answer.to_endpoint == ep.device_ref
                &&& answer.pdu_type == 0x11
                &&& answer.ack_number == h.send_seq_num
                &&& answer.data == alarm_ack_of_data(data)
                &&& d.queued.len() == 0
                &&& d.pending == Some(
                    (s.sent[1], (now_us + after_us) as u64, ep.rta_retries),
                )
            }
            &&& c.pending is Some && now_us < (c.pending->0).1 ==> {
                &&& s.sent.len() == 1
                &&& d.pending == c.pending
                &&& d.queued == c.queued.push(alarm_ack_of_data(data))
            }
        }),
{
    let c = if is_high {
        high
    } else {
        low
    };
    lemma_device_frame(to, ep.device_mac@, tag, is_high, h, data, ep.device_mac@);
    lemma_device_pdu(h, data);
    let f = device_frame(to, ep.device_mac@, tag, is_high, h, data);
    let s = frame_step(ep, controller_mac, low, high, f, after_us, now_us);
    let seq = crate::alarm_listener::rta_step(c.seq, h).0;
    frames_have_their_layout(
        ep,
        controller_mac,
        3,
        0x01,
        seq.send_seq_num_o,
        seq.exp_seq_num_o,
        Seq::empty(),
        is_high,
    );
    assert(s.sent[0] == control_frame(ep, controller_mac, 3, seq, is_high));
    let answer = alarm_ack_of_data(data);
    assert(answer.len() == 22);
    frames_have_their_layout(
        ep,
        controller_mac,
        1,
        0x11,
        seq.send_seq_num,
        seq.exp_seq_num_o,
        answer,
        is_high,
    );
    if c.pending is None && c.queued.len() == 0 {
        assert(c.queued.push(answer)[0] == answer);
        assert(c.queued.push(answer).skip(1).len() == 0);
    }
}

/// A PDU out of sequence delivers nothing and is answered with a NACK that names the
/// last alarm accepted; one of another device, or for another controller, is
/// ignored.
pub proof fn other_pdus_deliver_nothing(
    ep: AlarmEndpoint,
    controller_mac: Seq<u8>,
    low: ChannelModel,
    high: ChannelModel,
    to: Seq<u8>,
    from: Seq<u8>,
    tag: Option<u16>,
    is_high: bool,
    h: RtaHeader,
    data: Seq<u8>,
    after_us: int,
    now_us: int,
)
    requires
        to.len() == 6,
        from.len() == 6,
        controller_mac.len() == 6,
    ensures
        ({
            let s = frame_step(
                ep,
                controller_mac,
                low,
                high,
                device_frame(to, from, tag, is_high, h, data),
                after_us,
                now_us,
            );
            let c = if is_high {
                high
            } else {
                low
            };
            let ours = from == ep.device_mac@ && h.alarm_dst_endpoint == ep.controller_ref;
            &&& !ours ==> s.alarm is None && s.sent.len() == 0 && s.low == low && s.high == high
            &&& ours && h.pdu_type == 0x11 && h.add_flags / 16 % 2 == 1 && h.send_seq_num
                != c.seq.exp_seq_num && h.send_seq_num != c.seq.exp_seq_num_o ==> {
                let nack = sent_pdu(s.sent[0]);
                &&& s.alarm is None
                &&& s.sent.len() == 1
                &&& nack.to == ep.device_mac@
                &&& nack.to_endpoint == ep.device_ref
                &&& nack.pdu_type == 0x12
                &&& nack.ack_number == c.seq.exp_seq_num_o
                &&& s.low == low && s.high == high
            }
            &&& ours && h.pdu_type == 0x13 && h.ack_seq_num == c.seq.send_seq_num ==> {
                let d = if is_high {
                    s.high
                } else {
                    s.low
                };
                &&& s.alarm is None
                &&& s.sent.len() == 0
                &&& d.pending is None
                &&& d.queued == c.queued
                &&& d.seq.send_seq_num == (c.seq.send_seq_num + 1) % 0x8000
                &&& d.seq.exp_seq_num == c.seq.exp_seq_num
            }
        }),
{
    let c = if is_high {
        high
    } else {
        low
    };
    lemma_device_frame(to, from, tag, is_high, h, data, ep.device_mac@);
    lemma_device_pdu(h, data);
    frames_have_their_layout(
        ep,
        controller_mac,
        2,
        0x01,
        c.seq.send_seq_num_o,
        c.seq.exp_seq_num_o,
        Seq::empty(),
        is_high,
    );
}

/// AlarmAcks leave in the order in which they were queued, each once the one before
/// it is no longer pending, with the number that is due; one that is due again goes
/// out unchanged as long as there are retries, and is then given up.
pub proof fn acks_leave_in_order(
    c: ChannelModel,
    ep: AlarmEndpoint,
    controller_mac: Seq<u8>,
    after_us: int,
    now_us: int,
)
    requires
        controller_mac.len() == 6,
        c.queued.len() > 0 ==> c.queued[0].len() <= 0xFFFF,
    ensures
        ({
            let (d, sent) = service_step(c, ep, controller_mac, after_us, now_us);
            &&& c.pending is None && c.queued.len() > 0 ==> {
                let p = sent_pdu(sent[0]);
                &&& sent.len() == 1
                &&& p.to == ep.device_mac@
                &&& p.to_endpoint == ep.device_ref
                &&& p.pdu_type == 0x11
                &&& p.data == c.queued[0]
                &&& p.send_number == c.seq.send_seq_num
                &&& p.ack_number == c.seq.exp_seq_num_o
                &&& d.queued == c.queued.subrange(1, c.queued.len() as int)
                &&& d.pending == Some((sent[0], (now_us + after_us) as u64, ep.rta_retries))
            }
            &&& c.pending matches Some((frame, due, retries)) ==> due <= now_us ==> {
                &&& retries > 0 ==> sent == seq![frame] && d.queued == c.queued && d.pending
                    == Some((frame, (now_us + after_us) as u64, (retries - 1) as u16))
                &&& retries == 0 && c.queued.len() == 0 ==> sent.len() == 0 && d.pending is None
            }
            &&& c.pending is None && c.queued.len() == 0 ==> sent.len() == 0 && d == c
        }),
{
    if c.queued.len() > 0 {
        frames_have_their_layout(
            ep,
            controller_mac,
            1,
            0x11,
            c.seq.send_seq_num,
            c.seq.exp_seq_num_o,
            c.queued[0],
            c.high,
        );
        assert(c.queued.skip(1) =~= c.queued.subrange(1, c.queued.len() as int));
    }
}

/// A wait is between a millisecond and a second, and does not go on past the time
/// at which something is to be sent again, unless that is less than a millisecond
/// away.
pub proof fn waits_end_in_time(low: ChannelModel, high: ChannelModel, now_us: int)
    ensures
        1000 <= wait_us(low, high, now_us) <= 1_000_000,
        low.pending matches Some((_, due, _)) ==> now_us + wait_us(low, high, now_us) <= due || due
            < now_us + 1000,
        high.pending matches Some((_, due, _)) ==> now_us + wait_us(low, high, now_us) <= due
            || due < now_us + 1000,
        low.pending is None && high.pending is None ==> wait_us(low, high, now_us) == 1_000_000,
{
}

/// Removing an id removes that id and no other.
pub proof fn removing_keeps_the_others(s: Seq<usize>, id: usize, other: usize)
    requires
        other != id,
    ensures
        !without_id(s, id).contains(id),
        without_id(s, id).contains(other) <==> s.contains(other),
    decreases s.len(),
{
    if s.len() > 0 {
        let rest = s.drop_last();
        removing_keeps_the_others(rest, id, other);
        let r = without_id(s, id);
        let q = without_id(rest, id);
        if s.last() != id {
            assert(r == q.push(s.last()));
            if r.contains(id) {
                let i = choose|i: int| 0 <= i < r.len() && r[i] == id;
                assert(q[i] == id);
            }
            if q.contains(other) {
                let i = choose|i: int| 0 <= i < q.len() && q[i] == other;
                assert(r[i] == other);
            }
            if s.last() == other {
                assert(r[q.len() as int] == other);
            }
            if r.contains(other) && s.last() != other {
                let i = choose|i: int| 0 <= i < r.len() && r[i] == other;
                assert(q[i] == other);
            }
        }
        if rest.contains(other) {
            let i = choose|i: int| 0 <= i < rest.len() && rest[i] == other;
            assert(s[i] == other);
        }
        if s.contains(other) && s.last() != other {
            let i = choose|i: int| 0 <= i < s.len() && s[i] == other;
            assert(rest[i] == other);
        }
        if s.last() == other {
            assert(s[s.len() - 1] == other);
        }
    }
}

/// An AlarmAck that is not acknowledged in time is sent again, the same bytes, as
/// long as retries are left; behind the last one it is given up and the next one
/// takes its turn.
pub proof fn unacknowledged_acks_are_sent_again(
    c: ChannelModel,
    ep: AlarmEndpoint,
    controller_mac: Seq<u8>,
    after_us: u64,
    now_us: u64,
)
    requires
        c.pending is Some,
        (c.pending->0).1 <= now_us,
        now_us + after_us <= u64::MAX,
    ensures
        ({
            let (d, sent) = service_step(c, ep, controller_mac, after_us as int, now_us as int);
            let (frame, _, retries) = c.pending->0;
            &&& retries > 0 ==> sent == seq![frame] && d.queued == c.queued && (d.pending
                matches Some((again, due, left)) && again == frame && due == now_us + after_us && left
                == retries - 1)
            &&& retries == 0 && c.queued.len() == 0 ==> sent == Seq::<Seq<u8>>::empty()
                && d.pending is None
            &&& retries == 0 && c.queued.len() > 0 ==> sent.len() == 1 && d.queued
                == c.queued.skip(1) && (d.pending matches Some((next, due, left)) && next
                == sent[0] && due == now_us + after_us && left == ep.rta_retries)
        }),
{
}

/// Every field of a received RTA header is read from its own bytes; only a DATA PDU
/// of version 1 for our endpoint carries a notification: all that stands behind its
/// header.
pub proof fn received_headers_read_back(
    to: u16,
    from: u16,
    pdu_type: u8,
    flags: u8,
    send_seq: u16,
    ack_seq: u16,
    length: u16,
    data: Seq<u8>,
    controller_ref: u16,
)
    ensures
        ({
            let b = be16(to) + be16(from) + seq![pdu_type, flags] + be16(send_seq) + be16(ack_seq)
                + be16(length) + data;
            let h = rta_header_at(b);
            &&& h.alarm_dst_endpoint == to && h.alarm_src_endpoint == from
            &&& h.pdu_type == pdu_type && h.add_flags == flags
            &&& h.send_seq_num == send_seq && h.ack_seq_num == ack_seq && h.var_part_len == length
            &&& alarm_data(b, controller_ref) == if to == controller_ref && pdu_type == 0x11 {
                Some(data)
            } else {
                None::<Seq<u8>>
            }
        }),
{
    let b = be16(to) + be16(from) + seq![pdu_type, flags] + be16(send_seq) + be16(ack_seq) + be16(
        length,
    ) + data;
    be16_placed(b, 0, to);
    be16_placed(b, 2, from);
    be16_placed(b, 6, send_seq);
    be16_placed(b, 8, ack_seq);
    be16_placed(b, 10, length);
    assert(b[4] == pdu_type && b[5] == flags);
    assert(b.skip(12) =~= data);
    assert((pdu_type / 16 == 1 && pdu_type % 16 == 1) <==> pdu_type == 0x11);
}

/// A frame is taken for an alarm of the device only from its address, with the
/// EtherType 0x8892 and an alarm's frame id, which tells the priority; what is taken
/// is all behind the frame id.
pub proof fn alarm_frames_are_recognised(
    dst: Seq<u8>,
    src: Seq<u8>,
    ether_type: u16,
    frame_id: u16,
    rest: Seq<u8>,
    device_mac: Seq<u8>,
)
    requires
        dst.len() == 6,
        src.len() == 6,
        ether_type != 0x8100 && ether_type != 0x88A8,
    ensures
        layer2_alarm(dst + src + be16(ether_type) + be16(frame_id) + rest, device_mac) == if src
            != device_mac || ether_type != 0x8892 {
            None
        } else if frame_id == 0xFC01 {
            Some((true, rest))
        } else if frame_id == 0xFE01 {
            Some((false, rest))
        } else {
            None
        },
{
    let b = dst + src + be16(ether_type) + be16(frame_id) + rest;
    be16_placed(b, 12, ether_type);
    be16_placed(b, 14, frame_id);
    assert(b.subrange(6, 12) =~= src);
    assert(b.skip(16) =~= rest);
    assert(eth_type_offset(b, 12) == 12);
}

/// Of the PDUs that reach a channel: one in sequence is accepted and moves the
/// expected counter on, the last one again is only acknowledged again, any other is
/// refused; an acknowledgment of what we sent moves our counter on.
pub proof fn pdus_are_told_apart(s: RtaSequencer, h: RtaHeader)
    requires
        seq_reachable(s),
    ensures
        ({
            let (t, action) = crate::alarm_listener::rta_step(s, h);
            let data = h.pdu_type == 0x11 && h.add_flags / 16 % 2 == 1;
            &&& action is Accept <==> data && h.send_seq_num == s.exp_seq_num
            &&& action is ReAck <==> data && h.send_seq_num == s.exp_seq_num_o
            &&& action is SendNack <==> data && h.send_seq_num != s.exp_seq_num && h.send_seq_num
                != s.exp_seq_num_o
            &&& action is OurDataAcked <==> h.pdu_type == 0x13 && h.ack_seq_num == s.send_seq_num
            &&& action is DeviceNack <==> h.pdu_type == 0x12
            &&& action is DeviceError <==> h.pdu_type == 0x14
            &&& action is Accept ==> t.exp_seq_num_o == s.exp_seq_num && t.exp_seq_num == (
            s.exp_seq_num + 1) % 0x8000
            &&& !(action is Accept) ==> t.exp_seq_num == s.exp_seq_num && t.exp_seq_num_o
                == s.exp_seq_num_o
            &&& (action is OurDataAcked || (action is Accept && h.ack_seq_num == s.send_seq_num))
                ==> t.send_seq_num_o == s.send_seq_num && t.send_seq_num == (s.send_seq_num + 1)
                % 0x8000
            &&& !(action is OurDataAcked || (action is Accept && h.ack_seq_num == s.send_seq_num))
                ==> t.send_seq_num == s.send_seq_num && t.send_seq_num_o == s.send_seq_num_o
        }),
{
}

/// The AlarmAck that is built for a notification names it: the block of its
/// priority, its type and its place, its sequence number in the lower bits of the
/// specifier and each of its flags in a bit of its own.
pub proof fn the_built_ack_names_the_alarm(n: AlarmNotification)
    ensures
        ({
            let b = alarm_ack_of(n);
            let bits = be16_at(b, 16);
            &&& b.len() == 22
            &&& be16_at(b, 0) == if n.block_type == 0x0001 {
                0x8001u16
            } else {
                0x8002u16
            }
            &&& be16_at(b, 6) == n.alarm_type
            &&& be32_at(b, 8) == n.api
            &&& be16_at(b, 12) == n.slot_number
            &&& be16_at(b, 14) == n.subslot_number
            &&& bits % 0x800 == n.alarm_sequence_number % 0x800
            &&& bits / 0x800 % 2 == 1 <==> n.channel_diagnosis
            &&& bits / 0x1000 % 2 == 1 <==> n.manufacturer_specific
            &&& bits / 0x2000 % 2 == 1 <==> n.submodule_diagnosis_state
            &&& bits / 0x4000 % 2 == 0
            &&& bits / 0x8000 == 1 <==> n.ar_diagnosis_state
            &&& be32_at(b, 18) == 0
        }),
{
    acks_have_their_layout(
        n.block_type == 0x0001,
        n.alarm_type,
        n.api,
        n.slot_number,
        n.subslot_number,
        ack_specifier(
            n.alarm_sequence_number,
            n.channel_diagnosis,
            n.manufacturer_specific,
            n.submodule_diagnosis_state,
            n.ar_diagnosis_state,
        ),
    );
}

} // verus!
