//! Whether a capture can be opened, and why not.

use profinet_rs::capture_check::{
    classify_pcap_error, fold_bpf_scan, scan_bpf, BpfOpen, Readiness,
};

#[test]
fn pcap_messages_map_to_the_fix_they_need() {
    assert_eq!(
        classify_pcap_error("(cannot open BPF device) /dev/bpf0: Permission denied"),
        Readiness::NoPermission
    );
    assert_eq!(
        classify_pcap_error("socket: Operation not permitted"),
        Readiness::NoPermission
    );
    assert_eq!(
        classify_pcap_error("(cannot open BPF device) /dev/bpf0: Device busy"),
        Readiness::Busy
    );
    assert_eq!(
        classify_pcap_error("en99: No such device exists"),
        Readiness::NoSuchInterface
    );
    // Unrecognised text is passed through, not guessed at: a wrong guess
    // sends the operator to fix something that is not broken.
    let odd = classify_pcap_error("the kernel is on fire");
    assert_eq!(odd, Readiness::Unknown("the kernel is on fire".into()));
    assert_eq!(odd.as_str(), "unknown");
}

/// A half-applied ChmodBPF — some nodes readable, some refused — is a
/// permission problem. Reporting "busy" would send someone to close
/// Wireshark, which is not what is wrong.
#[test]
fn a_refusal_outranks_a_busy_device() {
    assert_eq!(
        fold_bpf_scan(false, true, true),
        Some(Readiness::NoPermission)
    );
    assert_eq!(
        fold_bpf_scan(false, true, false),
        Some(Readiness::NoPermission)
    );
    // Every node in use, none refused: privilege is proven fine.
    assert_eq!(fold_bpf_scan(false, false, true), Some(Readiness::Busy));
    // Opened one: say nothing, the interface itself is still untested.
    assert_eq!(fold_bpf_scan(true, false, true), None);
    assert_eq!(fold_bpf_scan(false, false, false), None);
}

#[test]
fn the_wire_words_are_stable() {
    for (r, w) in [
        (Readiness::Ready, "ready"),
        (Readiness::NoPermission, "no_permission"),
        (Readiness::Busy, "busy"),
        (Readiness::NoSuchInterface, "no_such_interface"),
        (Readiness::NoDevices, "no_devices"),
    ] {
        assert_eq!(r.as_str(), w);
    }
}

#[test]
fn a_scan_ends_with_the_first_device_that_opens() {
    assert_eq!(scan_bpf(&[BpfOpen::Busy, BpfOpen::Opened, BpfOpen::Denied]), None);
    assert_eq!(
        scan_bpf(&[BpfOpen::Busy, BpfOpen::Denied, BpfOpen::Opened]),
        Some(Readiness::NoPermission)
    );
    assert_eq!(scan_bpf(&[BpfOpen::Busy, BpfOpen::Other]), Some(Readiness::Busy));
    assert_eq!(scan_bpf(&[]), None);
}
