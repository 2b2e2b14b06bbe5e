//! Answering "can this machine capture at all?": what a capture attempt and a
//! scan of the packet filter devices say, as one of a few verdicts with
//! different fixes. The attempts themselves are made by the caller.

use vstd::prelude::*;
use vstd::string::*;
use crate::text::{
    ascii_lower, begins_with, contains_text, str_begins_with, str_contains, to_ascii_lower,
};

verus! {

/// How many packet filter devices to try before concluding there are no more.
pub const BPF_SCAN_LIMIT: u32 = 256;

/// What a capture attempt found. Distinct variants because the fixes differ: a
/// driver to install, a permission to grant, a program to close, a name to
/// correct.
#[derive(Debug, Clone, PartialEq, Eq)]
pub enum Readiness {
    /// A handle opened. Nothing to do.
    Ready,
    /// The kernel refused for lack of privilege.
    NoPermission,
    /// Privilege is fine; every capture device is in use by something else.
    Busy,
    /// The named interface does not exist on this machine.
    NoSuchInterface,
    /// No interfaces are listed at all; on Windows this is what a missing
    /// capture driver looks like.
    NoDevices,
    /// It failed for a reason this does not recognise. The text is passed
    /// through rather than guessed at.
    Unknown(String),
}

impl Readiness {
    /// The wire word of a verdict.
    pub open spec fn word(self) -> Seq<char> {
        match self {
            Readiness::Ready => "ready"@,
            Readiness::NoPermission => "no_permission"@,
            Readiness::Busy => "busy"@,
            Readiness::NoSuchInterface => "no_such_interface"@,
            Readiness::NoDevices => "no_devices"@,
            Readiness::Unknown(_) => "unknown"@,
        }
    }

    /// The wire word, and the only thing a consumer should match on.
    pub fn as_str(&self) -> (r: &'static str)
        ensures
            r@ == self.word(),
    {
        match self {
            Readiness::Ready => "ready",
            Readiness::NoPermission => "no_permission",
            Readiness::Busy => "busy",
            Readiness::NoSuchInterface => "no_such_interface",
            Readiness::NoDevices => "no_devices",
            Readiness::Unknown(_) => "unknown",
        }
    }
}

/// What a failure message says, read without regard to case.
pub open spec fn says(msg: Seq<char>, phrase: Seq<char>) -> bool {
    contains_text(ascii_lower(msg), phrase)
}

/// Classify a capture library's failure message. The library composes its
/// errors as text and does not hand back an error number, so this reads the
/// message.
pub fn classify_pcap_error(msg: &str) -> (r: Readiness)
    ensures
        if says(msg@, "permission denied"@) || says(msg@, "operation not permitted"@) {
            r == Readiness::NoPermission
        } else if says(msg@, "busy"@) {
            r == Readiness::Busy
        } else if says(msg@, "no such device"@) || says(msg@, "no such interface"@) || says(
            msg@,
            "not found"@,
        ) || says(msg@, "syntax error in filter"@) {
            r == Readiness::NoSuchInterface
        } else {
            r matches Readiness::Unknown(t) && t@ == msg@
        },
{
    let lower = to_ascii_lower(msg);
    let m: &str = lower.as_str();
    if str_contains(m, "permission denied") || str_contains(m, "operation not permitted") {
        Readiness::NoPermission
    } else if str_contains(m, "busy") {
        Readiness::Busy
    } else if str_contains(m, "no such device") || str_contains(m, "no such interface")
        || str_contains(m, "not found") || str_contains(m, "syntax error in filter") {
        Readiness::NoSuchInterface
    } else {
        Readiness::Unknown(msg.to_owned())
    }
}

/// Fold a scan of the packet filter devices into a verdict.
///
/// `denied` outranks `busy`: a machine where some nodes are readable and others
/// are not has a half-applied permission fix, and calling that "busy" would
/// send the operator to close programs that are not the problem. Only when
/// nothing could be opened and nothing was refused is the answer "busy".
pub fn fold_bpf_scan(opened_any: bool, denied: bool, busy: bool) -> (r: Option<Readiness>)
    ensures
        r == if denied {
            Some(Readiness::NoPermission)
        } else if !opened_any && busy {
            Some(Readiness::Busy)
        } else {
            None
        },
{
    if denied {
        Some(Readiness::NoPermission)
    } else if opened_any {
        None
    } else if busy {
        Some(Readiness::Busy)
    } else {
        None
    }
}

/// What opening one packet filter device gave.
#[derive(Debug, Clone, Copy, PartialEq, Eq, Structural)]
pub enum BpfOpen {
    /// It opened.
    Opened,
    /// It was refused for lack of privilege.
    Denied,
    /// It is in use.
    Busy,
    /// It does not exist, or failed otherwise.
    Other,
}

/// What the scan has seen so far.
#[derive(Debug, Clone, Copy, PartialEq, Eq, Structural)]
pub struct BpfScan {
    pub opened_any: bool,
    pub denied: bool,
    pub busy: bool,
}

/// How many of the outcomes from `from` on the scan looks at: a device that
/// opens, or that fails for another reason than privilege or use, is the last.
pub open spec fn scanned(outcomes: Seq<BpfOpen>, from: int) -> int
    decreases outcomes.len() - from,
{
    if from >= outcomes.len() {
        outcomes.len() as int
    } else if outcomes[from] == BpfOpen::Opened || outcomes[from] == BpfOpen::Other {
        from + 1
    } else {
        scanned(outcomes, from + 1)
    }
}

impl BpfScan {
    pub fn new() -> (r: BpfScan)
        ensures
            r == (BpfScan { opened_any: false, denied: false, busy: false }),
    {
        BpfScan { opened_any: false, denied: false, busy: false }
    }

    /// Take in one outcome; true if the next device is to be tried.
    pub fn note(&mut self, outcome: BpfOpen) -> (r: bool)
        ensures
            r == (outcome == BpfOpen::Denied || outcome == BpfOpen::Busy),
            final(self).opened_any == (old(self).opened_any || outcome == BpfOpen::Opened),
            final(self).denied == (old(self).denied || outcome == BpfOpen::Denied),
            final(self).busy == (old(self).busy || outcome == BpfOpen::Busy),
    {
        match outcome {
            BpfOpen::Opened => {
                self.opened_any = true;
                false
            },
            BpfOpen::Denied => {
                self.denied = true;
                true
            },
            BpfOpen::Busy => {
                self.busy = true;
                true
            },
            BpfOpen::Other => false,
        }
    }

    /// What the scan says.
    pub fn verdict(&self) -> (r: Option<Readiness>)
        ensures
            r == if self.denied {
                Some(Readiness::NoPermission)
            } else if !self.opened_any && self.busy {
                Some(Readiness::Busy)
            } else {
                None
            },
    {
        fold_bpf_scan(self.opened_any, self.denied, self.busy)
    }
}

/// The verdict of a scan whose devices open as listed: a refusal outranks
/// everything else that was looked at.
pub fn scan_bpf(outcomes: &[BpfOpen]) -> (r: Option<Readiness>)
    ensures
        ({
            let seen = outcomes@.take(scanned(outcomes@, 0));
            r == if seen.contains(BpfOpen::Denied) {
                Some(Readiness::NoPermission)
            } else if !seen.contains(BpfOpen::Opened) && seen.contains(BpfOpen::Busy) {
                Some(Readiness::Busy)
            } else {
                None
            }
        }),
{
    let mut scan = BpfScan::new();
    let mut i: usize = 0;
    let mut more = true;
    while i < outcomes.len() && more
        invariant
            i <= outcomes@.len(),
            more ==> scanned(outcomes@, i as int) == scanned(outcomes@, 0),
            !more ==> i == scanned(outcomes@, 0),
            scan.opened_any == outcomes@.take(i as int).contains(BpfOpen::Opened),
            scan.denied == outcomes@.take(i as int).contains(BpfOpen::Denied),
            scan.busy == outcomes@.take(i as int).contains(BpfOpen::Busy),
        decreases outcomes@.len() - i,
    {
        proof {
            let k = i as int;
            assert(outcomes@.take(k + 1) =~= outcomes@.take(k).push(outcomes@[k]));
            lemma_push_contains(outcomes@.take(k), outcomes@[k], BpfOpen::Opened);
            lemma_push_contains(outcomes@.take(k), outcomes@[k], BpfOpen::Denied);
            lemma_push_contains(outcomes@.take(k), outcomes@[k], BpfOpen::Busy);
        }
        more = scan.note(outcomes[i]);
        i = i + 1;
    }
    scan.verdict()
}

proof fn lemma_push_contains(s: Seq<BpfOpen>, x: BpfOpen, y: BpfOpen)
    ensures
        s.push(x).contains(y) == (s.contains(y) || x == y),
{
    let t = s.push(x);
    assert(t[s.len() as int] == x);
    if s.contains(y) {
        let i = choose|i: int| 0 <= i < s.len() && s[i] == y;
        assert(t[i] == y);
    }
    if t.contains(y) && x != y {
        let i = choose|i: int| 0 <= i < t.len() && t[i] == y;
        assert(s[i] == y);
    }
}

/// What to do next in a capture check.
#[derive(Debug, Clone, PartialEq, Eq)]
pub enum CheckStep {
    /// The answer, and the interface it is about.
    Verdict(Readiness, Option<String>),
    /// Try to open a capture on this interface; [`open_verdict`] reads the
    /// outcome.
    TryOpen(String),
}

/// The first interface that is not a loopback.
pub open spec fn first_device(names: Seq<String>, from: int) -> Option<Seq<char>>
    decreases names.len() - from,
{
    if from >= names.len() {
        None
    } else if !begins_with(names[from]@, "lo"@) {
        Some(names[from]@)
    } else {
        first_device(names, from + 1)
    }
}

fn pick_device(names: &[String]) -> (r: Option<String>)
    ensures
        match first_device(names@, 0) {
            Some(n) => r matches Some(s) && s@ == n,
            None => r is None,
        },
{
    let mut i: usize = 0;
    while i < names.len()
        invariant
            i <= names@.len(),
            first_device(names@, i as int) == first_device(names@, 0),
        decreases names@.len() - i,
    {
        if !str_begins_with(names[i].as_str(), "lo") {
            return Some(names[i].as_str().to_owned());
        }
        i = i + 1;
    }
    None
}

/// Decide a capture check on `iface`, or on the first non-loopback interface
/// listed when none is named. A verdict of the packet filter scan comes first:
/// a permission problem is global, and the scan separates "refused" from "in
/// use". `devices` is only read when no interface is named.
pub fn check(
    iface: Option<&str>,
    scan: Option<Readiness>,
    devices: Result<Vec<String>, String>,
) -> (r: CheckStep)
    ensures
        match scan {
            Some(v) => match iface {
                Some(n) => r matches CheckStep::Verdict(w, Some(s)) && w == v && s@ == n@,
                None => r matches CheckStep::Verdict(w, None) && w == v,
            },
            None => match iface {
                Some(n) => r matches CheckStep::TryOpen(s) && s@ == n@,
                None => match devices {
                    Ok(names) => match first_device(names@, 0) {
                        Some(n) => r matches CheckStep::TryOpen(s) && s@ == n,
                        None => r == CheckStep::Verdict(Readiness::NoDevices, None),
                    },
                    Err(msg) => r matches CheckStep::Verdict(w, None) && classified(w, msg@),
                },
            },
        },
{
    match scan {
        Some(v) => match iface {
            Some(n) => CheckStep::Verdict(v, Some(n.to_owned())),
            None => CheckStep::Verdict(v, None),
        },
        None => match iface {
            Some(n) => CheckStep::TryOpen(n.to_owned()),
            None => match devices {
                Ok(names) => match pick_device(names.as_slice()) {
                    Some(n) => CheckStep::TryOpen(n),
                    None => CheckStep::Verdict(Readiness::NoDevices, None),
                },
                Err(msg) => CheckStep::Verdict(classify_pcap_error(msg.as_str()), None),
            },
        },
    }
}

/// The verdict is what a failure message says.
pub open spec fn classified(r: Readiness, msg: Seq<char>) -> bool {
    if says(msg, "permission denied"@) || says(msg, "operation not permitted"@) {
        r == Readiness::NoPermission
    } else if says(msg, "busy"@) {
        r == Readiness::Busy
    } else if says(msg, "no such device"@) || says(msg, "no such interface"@) || says(
        msg,
        "not found"@,
    ) || says(msg, "syntax error in filter"@) {
        r == Readiness::NoSuchInterface
    } else {
        r matches Readiness::Unknown(t) && t@ == msg
    }
}

/// What an attempt to open a capture says.
pub fn open_verdict(outcome: Result<(), String>) -> (r: Readiness)
    ensures
        match outcome {
            Ok(_) => r == Readiness::Ready,
            Err(msg) => classified(r, msg@),
        },
{
    match outcome {
        Ok(_) => Readiness::Ready,
        Err(msg) => classify_pcap_error(msg.as_str()),
    }
}

} // verus!
