//! A transport that plays back a recorded exchange and keeps what it was
//! given, and a dialer that hands out such transports.

use vstd::prelude::*;
use vstd::slice::*;
use vstd::string::*;
use std::collections::VecDeque;
use crate::connection::{later_faults, later_incoming, Incoming, NetModel, RpcTransport};
use crate::device::{Dial, DialModel, Dialer};
use crate::epm::{endpoint_models, EpmEndpoint, EpmModel};

verus! {

/// What one wait of a recording gives: a datagram, none in time, or a failure.
pub type Arrival = Result<Option<Vec<u8>>, String>;

/// An arrival as the transport's model has it.
pub open spec fn incoming_of(a: Arrival) -> Incoming {
    match a {
        Ok(Some(d)) => Incoming::Datagram(d@),
        Ok(None) => Incoming::Timeout,
        Err(e) => Incoming::Failure(e@),
    }
}

/// Arrivals as the transport's model has them.
pub open spec fn incomings(s: Seq<Arrival>) -> Seq<Incoming> {
    Seq::new(s.len(), |i: int| incoming_of(s[i]))
}

/// Outcomes as the transport's model has them.
pub open spec fn faults(s: Seq<Result<(), String>>) -> Seq<Option<Seq<char>>> {
    Seq::new(
        s.len(),
        |i: int|
            match s[i] {
                Ok(_) => None,
                Err(e) => Some(e@),
            },
    )
}

/// A recorded exchange. Each call takes the next entry of its list; behind the
/// end of a list, waits time out and sends succeed.
#[derive(Debug)]
pub struct ReplayTransport {
    pub peer: String,
    /// What the waits for a response give.
    pub inbox: VecDeque<Arrival>,
    /// What the waits for a control request give.
    pub control_inbox: VecDeque<Arrival>,
    /// How the sends of requests end.
    pub send_results: VecDeque<Result<(), String>>,
    /// How the sends of confirmations end.
    pub reply_results: VecDeque<Result<(), String>>,
    /// The requests sent, each with the time allowed for its response.
    pub sent: Vec<(Vec<u8>, u64)>,
    /// The times allowed for a control request.
    pub waits: Vec<u64>,
    /// The confirmations sent.
    pub replies: Vec<Vec<u8>>,
}

impl ReplayTransport {
    /// A recording with nothing in it.
    pub fn new(peer: &str) -> (r: ReplayTransport)
        ensures
            r.model() == (NetModel {
                peer: peer@,
                sent: Seq::empty(),
                send_faults: Seq::empty(),
                inbox: Seq::empty(),
                waits: Seq::empty(),
                control_inbox: Seq::empty(),
                replies: Seq::empty(),
                reply_faults: Seq::empty(),
            }),
    {
        let r = ReplayTransport {
            peer: peer.to_owned(),
            inbox: VecDeque::new(),
            control_inbox: VecDeque::new(),
            send_results: VecDeque::new(),
            reply_results: VecDeque::new(),
            sent: Vec::new(),
            waits: Vec::new(),
            replies: Vec::new(),
        };
        assert(r.model() =~= (NetModel {
            peer: peer@,
            sent: Seq::empty(),
            send_faults: Seq::empty(),
            inbox: Seq::empty(),
            waits: Seq::empty(),
            control_inbox: Seq::empty(),
            replies: Seq::empty(),
            reply_faults: Seq::empty(),
        }));
        r
    }

    /// Record one more arrival on the response channel.
    pub fn push_response(&mut self, a: Arrival)
        ensures
            final(self).model() == (NetModel {
                inbox: old(self).model().inbox.push(incoming_of(a)),
                ..old(self).model()
            }),
    {
        self.inbox.push_back(a);
        assert(self.model() =~= (NetModel {
            inbox: old(self).model().inbox.push(incoming_of(a)),
            ..old(self).model()
        }));
    }

    /// Record one more arrival on the control channel.
    pub fn push_control(&mut self, a: Arrival)
        ensures
            final(self).model() == (NetModel {
                control_inbox: old(self).model().control_inbox.push(incoming_of(a)),
                ..old(self).model()
            }),
    {
        self.control_inbox.push_back(a);
        assert(self.model() =~= (NetModel {
            control_inbox: old(self).model().control_inbox.push(incoming_of(a)),
            ..old(self).model()
        }));
    }
}

impl RpcTransport for ReplayTransport {
    open spec fn model(&self) -> NetModel {
        NetModel {
            peer: self.peer@,
            sent: Seq::new(self.sent@.len(), |i: int| (self.sent@[i].0@, self.sent@[i].1)),
            send_faults: faults(self.send_results@),
            inbox: incomings(self.inbox@),
            waits: self.waits@,
            control_inbox: incomings(self.control_inbox@),
            replies: Seq::new(self.replies@.len(), |i: int| self.replies@[i]@),
            reply_faults: faults(self.reply_results@),
        }
    }

    fn send_request(&mut self, data: &[u8], timeout_ms: u64) -> (r: Result<(), String>) {
        self.sent.push((slice_to_vec(data), timeout_ms));
        let r = match self.send_results.pop_front() {
            Some(outcome) => outcome,
            None => Ok(()),
        };
        assert(faults(self.send_results@) =~= later_faults(old(self).model().send_faults));
        assert(self.model() =~= old(self).model().after_send(data@, timeout_ms));
        r
    }

    fn recv_response(&mut self) -> (r: Result<Option<Vec<u8>>, String>) {
        let r = match self.inbox.pop_front() {
            Some(a) => a,
            None => Ok(None),
        };
        assert(incomings(self.inbox@) =~= later_incoming(old(self).model().inbox));
        assert(self.model() =~= old(self).model().after_recv());
        r
    }

    fn await_ccontrol(&mut self, timeout_ms: u64) {
        self.waits.push(timeout_ms);
        assert(self.model() =~= old(self).model().after_wait(timeout_ms));
    }

    fn recv_ccontrol(&mut self) -> (r: Result<Option<Vec<u8>>, String>) {
        let r = match self.control_inbox.pop_front() {
            Some(a) => a,
            None => Ok(None),
        };
        assert(incomings(self.control_inbox@) =~= later_incoming(old(self).model().control_inbox));
        assert(self.model() =~= old(self).model().after_control());
        r
    }

    fn reply_ccontrol(&mut self, data: &[u8]) -> (r: Result<(), String>) {
        self.replies.push(slice_to_vec(data));
        let r = match self.reply_results.pop_front() {
            Some(outcome) => outcome,
            None => Ok(()),
        };
        assert(faults(self.reply_results@) =~= later_faults(old(self).model().reply_faults));
        assert(self.model() =~= old(self).model().after_reply(data@));
        r
    }

    fn peer(&self) -> (r: String) {
        self.peer.as_str().to_owned()
    }
}

/// A request that a [`ReplayDialer`] was asked for: a transport, or with a time
/// allowed for it, the endpoints.
#[derive(Debug, PartialEq, Eq)]
pub struct DialRecord {
    pub interface: String,
    pub src_mac: [u8; 6],
    pub src_ip: [u8; 4],
    pub dst_mac: [u8; 6],
    pub dst_ip: [u8; 4],
    pub lookup_ms: Option<u64>,
}

/// A request as the dialer's model has it.
pub open spec fn dial_of(d: DialRecord) -> Dial {
    match d.lookup_ms {
        None => Dial::Open {
            interface: d.interface@,
            src_mac: d.src_mac@,
            src_ip: d.src_ip@,
            dst_mac: d.dst_mac@,
            dst_ip: d.dst_ip@,
        },
        Some(timeout_ms) => Dial::Endpoints {
            interface: d.interface@,
            src_mac: d.src_mac@,
            src_ip: d.src_ip@,
            dst_mac: d.dst_mac@,
            dst_ip: d.dst_ip@,
            timeout_ms,
        },
    }
}

/// Transports as the dialer's model has them.
pub open spec fn nets(s: Seq<Result<ReplayTransport, String>>) -> Seq<Result<NetModel, Seq<char>>> {
    Seq::new(
        s.len(),
        |i: int|
            match s[i] {
                Ok(t) => Ok(t.model()),
                Err(e) => Err(e@),
            },
    )
}

/// Lookups as the dialer's model has them.
pub open spec fn found(s: Seq<Result<Vec<EpmEndpoint>, String>>) -> Seq<
    Result<Seq<EpmModel>, Seq<char>>,
> {
    Seq::new(
        s.len(),
        |i: int|
            match s[i] {
                Ok(v) => Ok(endpoint_models(v@)),
                Err(e) => Err(e@),
            },
    )
}

/// A dialer that hands out recorded exchanges. Each call takes the next entry of
/// its list; behind the end of a list there is no transport, and no endpoint.
#[derive(Debug)]
pub struct ReplayDialer {
    /// What it was asked for.
    pub asked: Vec<DialRecord>,
    pub transports: VecDeque<Result<ReplayTransport, String>>,
    pub lookups: VecDeque<Result<Vec<EpmEndpoint>, String>>,
}

impl ReplayDialer {
    /// A dialer with nothing to hand out.
    pub fn new() -> (r: ReplayDialer)
        ensures
            r.model() == (DialModel {
                asked: Seq::empty(),
                transports: Seq::empty(),
                lookups: Seq::empty(),
            }),
    {
        let r = ReplayDialer {
            asked: Vec::new(),
            transports: VecDeque::new(),
            lookups: VecDeque::new(),
        };
        assert(r.model() =~= (DialModel {
            asked: Seq::empty(),
            transports: Seq::empty(),
            lookups: Seq::empty(),
        }));
        r
    }

    /// Record one more transport, or why there is none.
    pub fn push_transport(&mut self, t: Result<ReplayTransport, String>)
        ensures
            final(self).model() == (DialModel {
                transports: old(self).model().transports.push(
                    match t {
                        Ok(v) => Ok(v.model()),
                        Err(e) => Err(e@),
                    },
                ),
                ..old(self).model()
            }),
    {
        self.transports.push_back(t);
        assert(self.model().transports =~= old(self).model().transports.push(
            match t {
                Ok(v) => Ok(v.model()),
                Err(e) => Err(e@),
            },
        ));
    }

    /// Record one more lookup of endpoints.
    pub fn push_lookup(&mut self, l: Result<Vec<EpmEndpoint>, String>)
        ensures
            final(self).model() == (DialModel {
                lookups: old(self).model().lookups.push(
                    match l {
                        Ok(v) => Ok(endpoint_models(v@)),
                        Err(e) => Err(e@),
                    },
                ),
                ..old(self).model()
            }),
    {
        self.lookups.push_back(l);
        assert(self.model().lookups =~= old(self).model().lookups.push(
            match l {
                Ok(v) => Ok(endpoint_models(v@)),
                Err(e) => Err(e@),
            },
        ));
    }

    fn note(&mut self, record: DialRecord)
        ensures
            final(self).model() == (DialModel {
                asked: old(self).model().asked.push(dial_of(record)),
                ..old(self).model()
            }),
            final(self).transports == old(self).transports,
            final(self).lookups == old(self).lookups,
    {
        self.asked.push(record);
        assert(self.model().asked =~= old(self).model().asked.push(dial_of(record)));
    }
}

impl Dialer<ReplayTransport> for ReplayDialer {
    open spec fn model(&self) -> DialModel {
        DialModel {
            asked: Seq::new(self.asked@.len(), |i: int| dial_of(self.asked@[i])),
            transports: nets(self.transports@),
            lookups: found(self.lookups@),
        }
    }

    fn open(
        &mut self,
        interface: &str,
        src_mac: [u8; 6],
        src_ip: [u8; 4],
        dst_mac: [u8; 6],
        dst_ip: [u8; 4],
    ) -> (r: Result<ReplayTransport, String>) {
        let ghost before = self.model();
        self.note(
            DialRecord {
                interface: interface.to_owned(),
                src_mac,
                src_ip,
                dst_mac,
                dst_ip,
                lookup_ms: None,
            },
        );
        let ghost noted = self.model();
        let r = match self.transports.pop_front() {
            Some(t) => t,
            None => Err("no transport".to_owned()),
        };
        assert(self.model().asked =~= noted.asked);
        proof {
            if before.transports.len() > 0 {
                assert(self.model().transports =~= before.transports.skip(1));
            } else {
                assert(self.model().transports =~= before.transports);
            }
        }
        r
    }

    fn endpoints(
        &mut self,
        interface: &str,
        src_mac: [u8; 6],
        src_ip: [u8; 4],
        dst_mac: [u8; 6],
        dst_ip: [u8; 4],
        timeout_ms: u64,
    ) -> (r: Result<Vec<EpmEndpoint>, String>) {
        let ghost before = self.model();
        self.note(
            DialRecord {
                interface: interface.to_owned(),
                src_mac,
                src_ip,
                dst_mac,
                dst_ip,
                lookup_ms: Some(timeout_ms),
            },
        );
        let ghost noted = self.model();
        let r = match self.lookups.pop_front() {
            Some(l) => l,
            None => {
                let none: Vec<EpmEndpoint> = Vec::new();
                assert(endpoint_models(none@) =~= Seq::empty());
                Ok(none)
            },
        };
        assert(self.model().asked =~= noted.asked);
        proof {
            if before.lookups.len() > 0 {
                assert(self.model().lookups =~= before.lookups.skip(1));
            } else {
                assert(self.model().lookups =~= before.lookups);
            }
        }
        r
    }
}

} // verus!
