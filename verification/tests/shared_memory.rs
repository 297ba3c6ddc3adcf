//! The shared-memory frame transport.

use looking_glass_ng::kvmfr::{
    device_path, search_step, KVMFRRHeader, KVMFRRRequest, KVMFRRStatus, KvmfrFrameProducer,
    KvmfrStep, SearchStep, KVMFRR,
    KVMFR_R_LINE_SIZE, KVMFR_R_REGION_SIZE, KVMFR_R_REQ_SLOTS, KVMFR_R_USED_SIZE,
};
use looking_glass_ng::producer::FrameResult;

fn region(magic: &[u8; 8]) -> Vec<u8> {
    let mut bytes: Vec<u8> = (0..KVMFR_R_USED_SIZE).map(|i| (i % 251) as u8).collect();
    bytes[..8].copy_from_slice(magic);
    bytes
}

fn message(r: FrameResult) -> String {
    match r {
        FrameResult::Error(msg) => msg,
        other => panic!("unexpected {:?}", other),
    }
}

#[test]
fn layout_constants() {
    assert_eq!(KVMFR_R_REGION_SIZE, 65536);
    assert_eq!(KVMFR_R_LINE_SIZE, 64);
    assert_eq!(KVMFR_R_REQ_SLOTS, 16);
    assert_eq!(KVMFR_R_USED_SIZE, KVMFR_R_LINE_SIZE * (4 + KVMFR_R_REQ_SLOTS as usize));
}

#[test]
fn header_fields_are_read_from_their_places() {
    let bytes = region(b"KVMFRRCV");
    let h = KVMFRRHeader::decode(&bytes);
    assert_eq!(&h.magic, b"KVMFRRCV");
    assert_eq!(h.abi_version, u16::from_le_bytes([8, 9]));
    assert_eq!(h.struct_size, u16::from_le_bytes([10, 11]));
    assert_eq!(h.capabilities, u32::from_le_bytes([12, 13, 14, 15]));
    assert_eq!(h.lgmp_version, u32::from_le_bytes([16, 17, 18, 19]));
    assert_eq!(h.kvmfr_version, u32::from_le_bytes([20, 21, 22, 23]));
    assert_eq!(h.session, u64::from_le_bytes([24, 25, 26, 27, 28, 29, 30, 31]));
    assert_eq!(h.uuid[0], 32);
    assert_eq!(h.uuid[15], 47);
    assert_eq!(h.heartbeat, u32::from_le_bytes([48, 49, 50, 51]));
    assert_eq!(h.reserved[1], u32::from_le_bytes([56, 57, 58, 59]));
    assert_eq!(h.ready, u32::from_le_bytes([60, 61, 62, 63]));
}

#[test]
fn region_parts_are_read_from_their_places() {
    let bytes = region(b"KVMFR---");
    let r = KVMFRR::decode(&bytes);
    assert_eq!(r.info.version[0], 64);
    assert_eq!(r.info.reserved[0], 112);
    assert_eq!(r.req.ticket, u32::from_le_bytes([128, 129, 130, 131]));
    assert_eq!(r.req.reserved[59], 191);
    let at = |i: usize| (i % 251) as u8;
    for slot in 0..16usize {
        let start = 192 + 64 * slot;
        let want = KVMFRRRequest::decode(&bytes[start..]);
        let got = r.requests[slot];
        assert_eq!(got.serial, want.serial);
        assert_eq!(
            got.request,
            u32::from_le_bytes([at(start + 4), at(start + 5), at(start + 6), at(start + 7)])
        );
        assert_eq!(got.session, want.session);
        assert_eq!(got.reserved[47], at(start + 63));
    }
    assert_eq!(
        r.status.ack_serial,
        u32::from_le_bytes([at(1216), at(1217), at(1218), at(1219)])
    );
    assert_eq!(
        r.status.serial,
        u32::from_le_bytes([at(1240), at(1241), at(1242), at(1243)])
    );
    assert_eq!(r.status.session, KVMFRRStatus::decode(&bytes[1216..]).session);
    assert_eq!(r.status.reserved[35], at(1279));
}

#[test]
fn both_magics_are_known() {
    assert!(KVMFRRHeader::decode(&region(b"KVMFR---")).has_known_magic());
    assert!(KVMFRRHeader::decode(&region(b"KVMFRRCV")).has_known_magic());
    assert!(!KVMFRRHeader::decode(&region(b"KVMFR--V")).has_known_magic());
    assert!(!KVMFRRHeader::decode(&region(b"KVMFRRC-")).has_known_magic());
    assert!(!KVMFRRHeader::decode(&region(b"kVMFR---")).has_known_magic());
}

#[test]
fn eight_device_nodes() {
    let paths: Vec<Option<String>> = (0..9).map(device_path).collect();
    for i in 0..8usize {
        assert_eq!(paths[i], Some(format!("/dev/kvmfr{}", i)));
    }
    assert_eq!(paths[8], None);
    assert_eq!(device_path(u32::MAX), None);
}

#[test]
fn first_device_that_opens_is_used() {
    assert_eq!(search_step(0, true), SearchStep::Found(0));
    assert_eq!(search_step(0, false), SearchStep::Try(1));
    assert_eq!(search_step(6, false), SearchStep::Try(7));
    assert_eq!(search_step(7, true), SearchStep::Found(7));
    assert_eq!(search_step(7, false), SearchStep::NoDevice);
}

/// Searches from the first device node on, where these can be opened.
fn search(opens: &[u32]) -> SearchStep {
    let mut step = SearchStep::Try(0);
    while let SearchStep::Try(index) = step {
        step = search_step(index, opens.contains(&index));
    }
    step
}

#[test]
fn search_ends_at_the_lowest_device() {
    assert_eq!(search(&[]), SearchStep::NoDevice);
    assert_eq!(search(&[0, 5]), SearchStep::Found(0));
    assert_eq!(search(&[6, 3]), SearchStep::Found(3));
    assert_eq!(search(&[7]), SearchStep::Found(7));
    assert_eq!(search(&[8]), SearchStep::NoDevice);
}

#[test]
fn device_is_looked_for_once() {
    let mut producer = KvmfrFrameProducer::new();
    assert_eq!(producer.size(), (0, 0));
    assert!(matches!(producer.update(), KvmfrStep::OpenDevice));
    match producer.update() {
        KvmfrStep::Report(r) => assert_eq!(message(r), "KVMFR not available"),
        other => panic!("unexpected {:?}", other),
    }
    assert!(producer.device_attempted);
}

#[test]
fn transport_in_use_has_nothing_new() {
    let mut producer = KvmfrFrameProducer::new();
    producer.device_attempted = true;
    producer.transport = Some((1920, 1080));
    assert_eq!(producer.size(), (1920, 1080));
    assert!(matches!(producer.update(), KvmfrStep::Report(FrameResult::Unchanged)));
}

#[test]
fn first_update_reports_an_error() {
    assert_eq!(message(KvmfrFrameProducer::device_result(None)), "no KVMFR device available");
    let bad = region(b"KVMFRXXX");
    assert_eq!(message(KvmfrFrameProducer::device_result(Some(&bad))), "invalid KVMFR magic");
    let good = region(b"KVMFRRCV");
    assert_eq!(
        message(KvmfrFrameProducer::device_result(Some(&good))),
        "KVMFR device found but LGMP integration requires liblgmp"
    );
}
