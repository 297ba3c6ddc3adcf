//! The shared-memory frame transport: the layout of its recovery region and
//! what the producer reports about the device.
//!
//! The region is laid out in lines of 64 bytes. Numbers are little-endian.

use crate::producer::FrameResult;
use vstd::bytes::*;
use vstd::prelude::*;
use vstd::slice::slice_subrange;

verus! {

/// Size of the recovery region.
pub const KVMFR_R_REGION_SIZE: usize = 65536;

/// Size of one line of the recovery region.
pub const KVMFR_R_LINE_SIZE: usize = 64;

/// Number of request slots.
pub const KVMFR_R_REQ_SLOTS: u32 = 16;

/// Size of the part of the recovery region that has a layout: the header, the
/// host information, the request head, the request slots and the status.
pub const KVMFR_R_USED_SIZE: usize = 1280;

/// How many device nodes are tried.
pub const DEVICE_COUNT: u32 = 8;

/// The first line of the recovery region: what the host speaks, and which session
/// it is in.
#[derive(Debug, Clone, Copy)]
pub struct KVMFRRHeader {
    pub magic: [u8; 8],
    pub abi_version: u16,
    pub struct_size: u16,
    pub capabilities: u32,
    pub lgmp_version: u32,
    pub kvmfr_version: u32,
    pub session: u64,
    pub uuid: [u8; 16],
    pub heartbeat: u32,
    pub reserved: [u32; 2],
    pub ready: u32,
}

/// What the host says of itself.
#[derive(Debug, Clone, Copy)]
pub struct KVMFRRInfo {
    pub version: [u8; 48],
    pub reserved: [u8; 16],
}

/// The ticket of the next request.
#[derive(Debug, Clone, Copy)]
pub struct KVMFRRReqHead {
    pub ticket: u32,
    pub reserved: [u8; 60],
}

/// A request to the host.
#[derive(Debug, Clone, Copy)]
pub struct KVMFRRRequest {
    pub serial: u32,
    pub request: u32,
    pub session: u64,
    pub reserved: [u8; 48],
}

/// What the host has acknowledged, and the state it is in.
#[derive(Debug, Clone, Copy)]
pub struct KVMFRRStatus {
    pub ack_serial: u32,
    pub ack_request: u32,
    pub state: u32,
    pub error: u32,
    pub session: u64,
    pub serial: u32,
    pub reserved: [u8; 36],
}

/// The recovery region.
#[derive(Debug, Clone, Copy)]
pub struct KVMFRR {
    pub header: KVMFRRHeader,
    pub info: KVMFRRInfo,
    pub req: KVMFRRReqHead,
    pub requests: [KVMFRRRequest; 16],
    pub status: KVMFRRStatus,
}

/// The header of the frame protocol itself.
#[derive(Debug, Clone, Copy)]
pub struct KVMFRHeader {
    pub magic: [u8; 8],
    pub version: u32,
    pub hostver: [u8; 32],
    pub features: u32,
}

impl KVMFRRHeader {
    /// The bytes of the header, in order.
    pub open spec fn bytes(self) -> Seq<u8> {
        self.magic@ + spec_u16_to_le_bytes(self.abi_version) + spec_u16_to_le_bytes(
            self.struct_size,
        ) + spec_u32_to_le_bytes(self.capabilities) + spec_u32_to_le_bytes(self.lgmp_version)
            + spec_u32_to_le_bytes(self.kvmfr_version) + spec_u64_to_le_bytes(self.session)
            + self.uuid@ + spec_u32_to_le_bytes(self.heartbeat) + spec_u32_to_le_bytes(
            self.reserved@[0],
        ) + spec_u32_to_le_bytes(self.reserved@[1]) + spec_u32_to_le_bytes(self.ready)
    }

    /// Reads the header from the start of the bytes.
    pub fn decode(bytes: &[u8]) -> (h: KVMFRRHeader)
        requires
            bytes@.len() >= KVMFR_R_LINE_SIZE,
        ensures
            h.bytes() == bytes@.take(KVMFR_R_LINE_SIZE as int),
            h.magic@ == bytes@.subrange(0, 8),
            h.abi_version == spec_u16_from_le_bytes(bytes@.subrange(8, 10)),
            h.struct_size == spec_u16_from_le_bytes(bytes@.subrange(10, 12)),
            h.capabilities == spec_u32_from_le_bytes(bytes@.subrange(12, 16)),
            h.lgmp_version == spec_u32_from_le_bytes(bytes@.subrange(16, 20)),
            h.kvmfr_version == spec_u32_from_le_bytes(bytes@.subrange(20, 24)),
            h.session == spec_u64_from_le_bytes(bytes@.subrange(24, 32)),
            h.uuid@ == bytes@.subrange(32, 48),
            h.heartbeat == spec_u32_from_le_bytes(bytes@.subrange(48, 52)),
            h.reserved@[0] == spec_u32_from_le_bytes(bytes@.subrange(52, 56)),
            h.reserved@[1] == spec_u32_from_le_bytes(bytes@.subrange(56, 60)),
            h.ready == spec_u32_from_le_bytes(bytes@.subrange(60, 64)),
    {
        let h = KVMFRRHeader {
            magic: read_bytes(bytes, 0),
            abi_version: read_u16(bytes, 8),
            struct_size: read_u16(bytes, 10),
            capabilities: read_u32(bytes, 12),
            lgmp_version: read_u32(bytes, 16),
            kvmfr_version: read_u32(bytes, 20),
            session: read_u64(bytes, 24),
            uuid: read_bytes(bytes, 32),
            heartbeat: read_u32(bytes, 48),
            reserved: [read_u32(bytes, 52), read_u32(bytes, 56)],
            ready: read_u32(bytes, 60),
        };
        proof {
            assert(h.bytes() =~= bytes@.take(KVMFR_R_LINE_SIZE as int));
        }
        h
    }
}

impl KVMFRRInfo {
    /// The bytes of the host information, in order.
    pub open spec fn bytes(self) -> Seq<u8> {
        self.version@ + self.reserved@
    }

    /// Reads the host information from the start of the bytes.
    pub fn decode(bytes: &[u8]) -> (info: KVMFRRInfo)
        requires
            bytes@.len() >= KVMFR_R_LINE_SIZE,
        ensures
            info.bytes() == bytes@.take(KVMFR_R_LINE_SIZE as int),
            info.version@ == bytes@.subrange(0, 48),
            info.reserved@ == bytes@.subrange(48, 64),
    {
        let info = KVMFRRInfo { version: read_bytes(bytes, 0), reserved: read_bytes(bytes, 48) };
        proof {
            assert(info.bytes() =~= bytes@.take(KVMFR_R_LINE_SIZE as int));
        }
        info
    }
}

impl KVMFRRReqHead {
    /// The bytes of the request head, in order.
    pub open spec fn bytes(self) -> Seq<u8> {
        spec_u32_to_le_bytes(self.ticket) + self.reserved@
    }

    /// Reads the request head from the start of the bytes.
    pub fn decode(bytes: &[u8]) -> (req: KVMFRRReqHead)
        requires
            bytes@.len() >= KVMFR_R_LINE_SIZE,
        ensures
            req.bytes() == bytes@.take(KVMFR_R_LINE_SIZE as int),
            req.ticket == spec_u32_from_le_bytes(bytes@.subrange(0, 4)),
            req.reserved@ == bytes@.subrange(4, 64),
    {
        let req = KVMFRRReqHead { ticket: read_u32(bytes, 0), reserved: read_bytes(bytes, 4) };
        proof {
            assert(req.bytes() =~= bytes@.take(KVMFR_R_LINE_SIZE as int));
        }
        req
    }
}

impl KVMFRRRequest {
    /// The bytes of the request, in order.
    pub open spec fn bytes(self) -> Seq<u8> {
        spec_u32_to_le_bytes(self.serial) + spec_u32_to_le_bytes(self.request)
            + spec_u64_to_le_bytes(self.session) + self.reserved@
    }

    /// Reads a request from the start of the bytes.
    pub fn decode(bytes: &[u8]) -> (request: KVMFRRRequest)
        requires
            bytes@.len() >= KVMFR_R_LINE_SIZE,
        ensures
            request.bytes() == bytes@.take(KVMFR_R_LINE_SIZE as int),
            request.serial == spec_u32_from_le_bytes(bytes@.subrange(0, 4)),
            request.request == spec_u32_from_le_bytes(bytes@.subrange(4, 8)),
            request.session == spec_u64_from_le_bytes(bytes@.subrange(8, 16)),
            request.reserved@ == bytes@.subrange(16, 64),
    {
        let request = KVMFRRRequest {
            serial: read_u32(bytes, 0),
            request: read_u32(bytes, 4),
            session: read_u64(bytes, 8),
            reserved: read_bytes(bytes, 16),
        };
        proof {
            assert(request.bytes() =~= bytes@.take(KVMFR_R_LINE_SIZE as int));
        }
        request
    }
}

impl KVMFRRStatus {
    /// The bytes of the status, in order.
    pub open spec fn bytes(self) -> Seq<u8> {
        spec_u32_to_le_bytes(self.ack_serial) + spec_u32_to_le_bytes(self.ack_request)
            + spec_u32_to_le_bytes(self.state) + spec_u32_to_le_bytes(self.error)
            + spec_u64_to_le_bytes(self.session) + spec_u32_to_le_bytes(self.serial)
            + self.reserved@
    }

    /// Reads the status from the start of the bytes.
    pub fn decode(bytes: &[u8]) -> (status: KVMFRRStatus)
        requires
            bytes@.len() >= KVMFR_R_LINE_SIZE,
        ensures
            status.bytes() == bytes@.take(KVMFR_R_LINE_SIZE as int),
            status.ack_serial == spec_u32_from_le_bytes(bytes@.subrange(0, 4)),
            status.ack_request == spec_u32_from_le_bytes(bytes@.subrange(4, 8)),
            status.state == spec_u32_from_le_bytes(bytes@.subrange(8, 12)),
            status.error == spec_u32_from_le_bytes(bytes@.subrange(12, 16)),
            status.session == spec_u64_from_le_bytes(bytes@.subrange(16, 24)),
            status.serial == spec_u32_from_le_bytes(bytes@.subrange(24, 28)),
            status.reserved@ == bytes@.subrange(28, 64),
    {
        let status = KVMFRRStatus {
            ack_serial: read_u32(bytes, 0),
            ack_request: read_u32(bytes, 4),
            state: read_u32(bytes, 8),
            error: read_u32(bytes, 12),
            session: read_u64(bytes, 16),
            serial: read_u32(bytes, 24),
            reserved: read_bytes(bytes, 28),
        };
        proof {
            assert(status.bytes() =~= bytes@.take(KVMFR_R_LINE_SIZE as int));
        }
        status
    }
}

/// The bytes of several requests, one line after the other.
pub open spec fn requests_bytes(requests: Seq<KVMFRRRequest>) -> Seq<u8>
    decreases requests.len(),
{
    if requests.len() == 0 {
        Seq::empty()
    } else {
        requests_bytes(requests.drop_last()) + requests.last().bytes()
    }
}

impl KVMFRR {
    /// The bytes of the region, in order.
    pub open spec fn bytes(self) -> Seq<u8> {
        self.header.bytes() + self.info.bytes() + self.req.bytes() + requests_bytes(self.requests@)
            + self.status.bytes()
    }

    /// Reads the region from the start of the bytes.
    pub fn decode(bytes: &[u8]) -> (region: KVMFRR)
        requires
            bytes@.len() >= KVMFR_R_USED_SIZE,
        ensures
            region.bytes() == bytes@.take(KVMFR_R_USED_SIZE as int),
    {
        let header = KVMFRRHeader::decode(bytes);
        let info = KVMFRRInfo::decode(slice_subrange(bytes, 64, 128));
        let req = KVMFRRReqHead::decode(slice_subrange(bytes, 128, 192));
        let requests = decode_requests(slice_subrange(bytes, 192, 1216));
        let status = KVMFRRStatus::decode(slice_subrange(bytes, 1216, 1280));
        let region = KVMFRR { header, info, req, requests, status };
        proof {
            assert(region.bytes() =~= bytes@.take(KVMFR_R_USED_SIZE as int));
        }
        region
    }
}

/// Reads the request slots from the start of the bytes.
fn decode_requests(bytes: &[u8]) -> (r: [KVMFRRRequest; 16])
    requires
        bytes@.len() == 1024,
    ensures
        requests_bytes(r@) == bytes@,
{
    let mut r: [KVMFRRRequest; 16] = [KVMFRRRequest::decode(bytes);16];
    let mut i: usize = 0;
    while i < 16
        invariant
            i <= 16,
            bytes@.len() == 1024,
            requests_bytes(r@.take(i as int)) == bytes@.take(64 * i as int),
        decreases 16 - i,
    {
        let ghost before = r@;
        r[i] = KVMFRRRequest::decode(slice_subrange(bytes, i * 64, i * 64 + 64));
        proof {
            assert(r@.take(i + 1).drop_last() =~= before.take(i as int));
            assert(bytes@.subrange(i * 64, i * 64 + 64).take(64) =~= bytes@.subrange(
                i * 64,
                i * 64 + 64,
            ));
            assert(bytes@.take(64 * i as int) + bytes@.subrange(i * 64, i * 64 + 64)
                =~= bytes@.take(64 * (i + 1)));
        }
        i += 1;
    }
    proof {
        assert(r@.take(16) =~= r@);
        assert(bytes@.take(1024) =~= bytes@);
    }
    r
}

impl KVMFRHeader {
    /// The bytes of the header, in order.
    pub open spec fn bytes(self) -> Seq<u8> {
        self.magic@ + spec_u32_to_le_bytes(self.version) + self.hostver@ + spec_u32_to_le_bytes(
            self.features,
        )
    }
}

/// The bytes from `at` on, as many as the array holds.
fn read_bytes<const N: usize>(bytes: &[u8], at: usize) -> (r: [u8; N])
    requires
        at + N <= bytes.len(),
    ensures
        r@ == bytes@.subrange(at as int, at + N),
{
    let mut r: [u8; N] = [0u8; N];
    let mut i: usize = 0;
    while i < N
        invariant
            i <= N,
            at + N <= bytes.len(),
            forall|j: int| 0 <= j < i ==> r@[j] == bytes@[at + j],
        decreases N - i,
    {
        r[i] = bytes[at + i];
        i += 1;
    }
    proof {
        assert(r@ =~= bytes@.subrange(at as int, at + N));
    }
    r
}

/// The number in the two bytes from `at` on.
fn read_u16(bytes: &[u8], at: usize) -> (r: u16)
    requires
        at + 2 <= bytes.len(),
    ensures
        spec_u16_to_le_bytes(r) == bytes@.subrange(at as int, at + 2),
        r == spec_u16_from_le_bytes(bytes@.subrange(at as int, at + 2)),
{
    proof {
        lemma_auto_spec_u16_to_from_le_bytes();
    }
    u16_from_le_bytes(slice_subrange(bytes, at, at + 2))
}

/// The number in the four bytes from `at` on.
fn read_u32(bytes: &[u8], at: usize) -> (r: u32)
    requires
        at + 4 <= bytes.len(),
    ensures
        spec_u32_to_le_bytes(r) == bytes@.subrange(at as int, at + 4),
        r == spec_u32_from_le_bytes(bytes@.subrange(at as int, at + 4)),
{
    proof {
        lemma_auto_spec_u32_to_from_le_bytes();
    }
    u32_from_le_bytes(slice_subrange(bytes, at, at + 4))
}

/// The number in the eight bytes from `at` on.
fn read_u64(bytes: &[u8], at: usize) -> (r: u64)
    requires
        at + 8 <= bytes.len(),
    ensures
        spec_u64_to_le_bytes(r) == bytes@.subrange(at as int, at + 8),
        r == spec_u64_from_le_bytes(bytes@.subrange(at as int, at + 8)),
{
    proof {
        lemma_auto_spec_u64_to_from_le_bytes();
    }
    u64_from_le_bytes(slice_subrange(bytes, at, at + 8))
}

/// The magic of the frame protocol, `KVMFR---`.
pub open spec fn kvmfr_magic() -> Seq<u8> {
    seq![0x4bu8, 0x56, 0x4d, 0x46, 0x52, 0x2d, 0x2d, 0x2d]
}

/// The magic of the recovery region, `KVMFRRCV`.
pub open spec fn kvmfr_r_magic() -> Seq<u8> {
    seq![0x4bu8, 0x56, 0x4d, 0x46, 0x52, 0x52, 0x43, 0x56]
}

impl KVMFRRHeader {
    /// Whether the header starts with one of the two magics.
    pub fn has_known_magic(&self) -> (r: bool)
        ensures
            r == (self.magic@ == kvmfr_magic() || self.magic@ == kvmfr_r_magic()),
            r <==> self.magic@[0] == 0x4b && self.magic@[1] == 0x56 && self.magic@[2] == 0x4d
                && self.magic@[3] == 0x46 && self.magic@[4] == 0x52 && ((self.magic@[5] == 0x2d
                && self.magic@[6] == 0x2d && self.magic@[7] == 0x2d) || (self.magic@[5] == 0x52
                && self.magic@[6] == 0x43 && self.magic@[7] == 0x56)),
    {
        let m = &self.magic;
        let prefix: bool = m[0] == 0x4b && m[1] == 0x56 && m[2] == 0x4d && m[3] == 0x46 && m[4]
            == 0x52;
        let frame: bool = m[5] == 0x2d && m[6] == 0x2d && m[7] == 0x2d;
        let recovery: bool = m[5] == 0x52 && m[6] == 0x43 && m[7] == 0x56;
        proof {
            assert(prefix && frame ==> m@ =~= kvmfr_magic());
            assert(prefix && recovery ==> m@ =~= kvmfr_r_magic());
            assert(m@ == kvmfr_magic() ==> m@[0] == 0x4b && m@[1] == 0x56 && m@[2] == 0x4d && m@[3]
                == 0x46 && m@[4] == 0x52 && m@[5] == 0x2d && m@[6] == 0x2d && m@[7] == 0x2d);
            assert(m@ == kvmfr_r_magic() ==> m@[0] == 0x4b && m@[1] == 0x56 && m@[2] == 0x4d
                && m@[3] == 0x46 && m@[4] == 0x52 && m@[5] == 0x52 && m@[6] == 0x43 && m@[7]
                == 0x56);
        }
        prefix && (frame || recovery)
    }
}

/// The path of a device node: `/dev/kvmfr0` to `/dev/kvmfr7`, and none beyond.
pub fn device_path(index: u32) -> (r: Option<String>)
    ensures
        r is Some <==> index < DEVICE_COUNT,
        r matches Some(path) ==> path@ == "/dev/kvmfr"@.push((('0' as u32) + index) as char),
{
    proof {
        reveal_strlit("/dev/kvmfr");
        reveal_strlit("/dev/kvmfr0");
        reveal_strlit("/dev/kvmfr1");
        reveal_strlit("/dev/kvmfr2");
        reveal_strlit("/dev/kvmfr3");
        reveal_strlit("/dev/kvmfr4");
        reveal_strlit("/dev/kvmfr5");
        reveal_strlit("/dev/kvmfr6");
        reveal_strlit("/dev/kvmfr7");
    }
    if index >= DEVICE_COUNT {
        return None;
    }
    let path: &str = if index == 0 {
        "/dev/kvmfr0"
    } else if index == 1 {
        "/dev/kvmfr1"
    } else if index == 2 {
        "/dev/kvmfr2"
    } else if index == 3 {
        "/dev/kvmfr3"
    } else if index == 4 {
        "/dev/kvmfr4"
    } else if index == 5 {
        "/dev/kvmfr5"
    } else if index == 6 {
        "/dev/kvmfr6"
    } else {
        "/dev/kvmfr7"
    };
    proof {
        assert(path@ =~= "/dev/kvmfr"@.push((('0' as u32) + index) as char));
    }
    Some(path.to_string())
}

/// How the search for a device goes on.
#[derive(Debug, Clone, Copy, PartialEq, Eq, Structural)]
pub enum SearchStep {
    /// Try the device node with this number.
    Try(u32),
    /// The device node with this number is in use.
    Found(u32),
    /// No device node could be opened.
    NoDevice,
}

/// How the search goes on after device node `index` was tried.
pub open spec fn step_after(index: u32, opened: bool) -> SearchStep {
    if opened {
        SearchStep::Found(index)
    } else if index + 1 < DEVICE_COUNT {
        SearchStep::Try((index + 1) as u32)
    } else {
        SearchStep::NoDevice
    }
}

/// How the search goes on after device node `index` was tried: the first one
/// that could be opened is used, and after one that could not the next is
/// tried.
pub fn search_step(index: u32, opened: bool) -> (next: SearchStep)
    requires
        index < DEVICE_COUNT,
    ensures
        next == step_after(index, opened),
        opened ==> next == SearchStep::Found(index),
        !opened && index < 7 ==> next == SearchStep::Try((index + 1) as u32),
        !opened && index == 7 ==> next is NoDevice,
{
    if opened {
        SearchStep::Found(index)
    } else if index + 1 < DEVICE_COUNT {
        SearchStep::Try(index + 1)
    } else {
        SearchStep::NoDevice
    }
}

/// How a search from device node `index` on ends, where `opens` says which
/// nodes can be opened.
pub open spec fn search_end(opens: Seq<bool>, index: u32) -> SearchStep
    decreases DEVICE_COUNT - index,
{
    match step_after(index, opens[index as int]) {
        SearchStep::Try(next) => search_end(opens, next),
        end => end,
    }
}

/// The search uses the lowest device node that can be opened, and ends without
/// a device exactly when none can.
pub proof fn law_search_uses_the_first_device(opens: Seq<bool>, i: u32)
    requires
        opens.len() == DEVICE_COUNT,
    ensures
        search_end(opens, 0) == SearchStep::Found(i) <==> i < DEVICE_COUNT && opens[i as int] && (
        forall|j: int| 0 <= j < i ==> !#[trigger] opens[j]),
        search_end(opens, 0) is NoDevice <==> forall|j: int|
            0 <= j < DEVICE_COUNT ==> !#[trigger] opens[j],
        !(search_end(opens, 0) is Try),
{
    lemma_search_from(opens, 0);
}

/// A search uses the lowest device node from where it starts.
proof fn lemma_search_from(opens: Seq<bool>, index: u32)
    requires
        opens.len() == DEVICE_COUNT,
        index < DEVICE_COUNT,
    ensures
        match search_end(opens, index) {
            SearchStep::Found(i) => index <= i < DEVICE_COUNT && opens[i as int] && forall|j: int|
                index <= j < i ==> !#[trigger] opens[j],
            SearchStep::NoDevice => forall|j: int|
                index <= j < DEVICE_COUNT ==> !#[trigger] opens[j],
            SearchStep::Try(_) => false,
        },
    decreases DEVICE_COUNT - index,
{
    if !opens[index as int] && index + 1 < DEVICE_COUNT {
        lemma_search_from(opens, (index + 1) as u32);
    }
}

/// What is to be done when the producer is asked for a frame.
#[derive(Debug, Clone)]
pub enum KvmfrStep {
    /// Look for the device, and report what [`KvmfrFrameProducer::device_result`]
    /// makes of it.
    OpenDevice,
    /// Report this.
    Report(FrameResult),
}

/// A frame producer behind the shared-memory transport.
///
/// It looks for the device once, when it is first asked for a frame.
#[derive(Debug, Clone)]
pub struct KvmfrFrameProducer {
    /// The frame size of the transport that is in use.
    pub transport: Option<(u32, u32)>,
    pub device_attempted: bool,
}

impl KvmfrFrameProducer {
    /// No transport, and the device not looked for.
    pub fn new() -> (p: KvmfrFrameProducer)
        ensures
            p.transport is None,
            !p.device_attempted,
    {
        KvmfrFrameProducer { transport: None, device_attempted: false }
    }

    /// Decides what to do about a frame. The first time, the device is to be
    /// looked for; after that the transport either has nothing new or is not
    /// there.
    pub fn update(&mut self) -> (step: KvmfrStep)
        ensures
            final(self).device_attempted,
            final(self).transport == old(self).transport,
            step is OpenDevice <==> !old(self).device_attempted,
            old(self).device_attempted && old(self).transport is Some ==> step
                == KvmfrStep::Report(FrameResult::Unchanged),
            old(self).device_attempted && old(self).transport is None ==> (step matches
                KvmfrStep::Report(FrameResult::Error(msg)) && msg@ == "KVMFR not available"@),
    {
        if !self.device_attempted {
            self.device_attempted = true;
            return KvmfrStep::OpenDevice;
        }
        if self.transport.is_some() {
            KvmfrStep::Report(FrameResult::Unchanged)
        } else {
            KvmfrStep::Report(FrameResult::Error("KVMFR not available".to_string()))
        }
    }

    /// What the first update reports, given the memory of the device if one
    /// could be opened. There is always an error: without the transport
    /// library no frames can be had even from a device that is there.
    pub fn device_result(memory: Option<&[u8]>) -> (r: FrameResult)
        requires
            memory matches Some(bytes) ==> bytes@.len() >= KVMFR_R_USED_SIZE,
        ensures
            memory is None ==> (r matches FrameResult::Error(msg) && msg@
                == "no KVMFR device available"@),
            memory matches Some(bytes) ==> if bytes@.take(8) == kvmfr_magic() || bytes@.take(8)
                == kvmfr_r_magic() {
                r matches FrameResult::Error(msg) && msg@
                    == "KVMFR device found but LGMP integration requires liblgmp"@
            } else {
                r matches FrameResult::Error(msg) && msg@ == "invalid KVMFR magic"@
            },
    {
        match memory {
            None => FrameResult::Error("no KVMFR device available".to_string()),
            Some(bytes) => {
                let recovery = KVMFRR::decode(bytes);
                proof {
                    assert(recovery.bytes().take(8) =~= recovery.header.magic@);
                    assert(bytes@.take(KVMFR_R_USED_SIZE as int).take(8) =~= bytes@.take(8));
                }
                if !recovery.header.has_known_magic() {
                    return FrameResult::Error("invalid KVMFR magic".to_string());
                }
                FrameResult::Error(
                    "KVMFR device found but LGMP integration requires liblgmp".to_string(),
                )
            },
        }
    }

    /// The size of the frames, zero without a transport.
    pub fn size(&self) -> (r: (u32, u32))
        ensures
            r == match self.transport {
                Some(size) => size,
                None => (0, 0),
            },
    {
        match self.transport {
            Some(size) => size,
            None => (0, 0),
        }
    }
}

/// Each part of the recovery region takes one line, a request slot one line
/// each; the parts follow each other without gaps and fit the region. The
/// header of the frame protocol takes 48 bytes.
pub proof fn law_layout_sizes(region: KVMFRR, header: KVMFRHeader, i: int)
    requires
        0 <= i < KVMFR_R_REQ_SLOTS,
    ensures
        region.header.bytes().len() == KVMFR_R_LINE_SIZE,
        region.info.bytes().len() == KVMFR_R_LINE_SIZE,
        region.req.bytes().len() == KVMFR_R_LINE_SIZE,
        region.requests@[i].bytes().len() == KVMFR_R_LINE_SIZE,
        region.status.bytes().len() == KVMFR_R_LINE_SIZE,
        region.bytes().len() == KVMFR_R_LINE_SIZE * (4 + KVMFR_R_REQ_SLOTS),
        region.bytes().len() == KVMFR_R_USED_SIZE,
        KVMFR_R_USED_SIZE <= KVMFR_R_REGION_SIZE,
        header.bytes().len() == 48,
{
    lemma_auto_spec_u16_to_from_le_bytes();
    lemma_auto_spec_u32_to_from_le_bytes();
    lemma_auto_spec_u64_to_from_le_bytes();
    lemma_requests_at(region.requests@, i);
}

/// The requests take one line each, and request `i` stands `i` lines in.
proof fn lemma_requests_at(requests: Seq<KVMFRRRequest>, i: int)
    ensures
        requests_bytes(requests).len() == 64 * requests.len(),
        0 <= i < requests.len() ==> requests_bytes(requests).subrange(64 * i, 64 * i + 64)
            == requests[i].bytes(),
    decreases requests.len(),
{
    lemma_auto_spec_u32_to_from_le_bytes();
    lemma_auto_spec_u64_to_from_le_bytes();
    if requests.len() > 0 {
        let front = requests.drop_last();
        lemma_requests_at(front, i);
        if 0 <= i < requests.len() {
            assert(requests_bytes(requests).subrange(64 * i, 64 * i + 64) =~= if i < front.len() {
                requests_bytes(front).subrange(64 * i, 64 * i + 64)
            } else {
                requests.last().bytes()
            });
        }
    }
}

/// Where the parts of the recovery region stand: the header first, then the
/// host information, the request head, the request slots and the status.
pub proof fn law_region_offsets(region: KVMFRR, i: int)
    requires
        0 <= i < KVMFR_R_REQ_SLOTS,
    ensures
        region.bytes().subrange(0, 64) == region.header.bytes(),
        region.bytes().subrange(64, 128) == region.info.bytes(),
        region.bytes().subrange(128, 192) == region.req.bytes(),
        region.bytes().subrange(192 + 64 * i, 256 + 64 * i) == region.requests@[i].bytes(),
        region.bytes().subrange(1216, 1280) == region.status.bytes(),
{
    law_layout_sizes(region, arbitrary(), i);
    lemma_requests_at(region.requests@, i);
    let all = region.bytes();
    assert(all.subrange(0, 64) =~= region.header.bytes());
    assert(all.subrange(64, 128) =~= region.info.bytes());
    assert(all.subrange(128, 192) =~= region.req.bytes());
    assert(all.subrange(192 + 64 * i, 256 + 64 * i) =~= requests_bytes(region.requests@).subrange(
        64 * i,
        64 * i + 64,
    ));
    assert(all.subrange(1216, 1280) =~= region.status.bytes());
}

/// Where the fields of a request and of the status stand in their lines.
pub proof fn law_field_offsets(request: KVMFRRRequest, status: KVMFRRStatus)
    ensures
        request.bytes().subrange(4, 8) == spec_u32_to_le_bytes(request.request),
        request.bytes().subrange(8, 16) == spec_u64_to_le_bytes(request.session),
        status.bytes().subrange(16, 24) == spec_u64_to_le_bytes(status.session),
        status.bytes().subrange(24, 28) == spec_u32_to_le_bytes(status.serial),
{
    lemma_auto_spec_u32_to_from_le_bytes();
    lemma_auto_spec_u64_to_from_le_bytes();
    assert(request.bytes().subrange(4, 8) =~= spec_u32_to_le_bytes(request.request));
    assert(request.bytes().subrange(8, 16) =~= spec_u64_to_le_bytes(request.session));
    assert(status.bytes().subrange(16, 24) =~= spec_u64_to_le_bytes(status.session));
    assert(status.bytes().subrange(24, 28) =~= spec_u32_to_le_bytes(status.serial));
}

/// The bytes of a header determine each of its fields, so reading one gives
/// back what was laid out.
pub proof fn law_bytes_determine_header(a: KVMFRRHeader, b: KVMFRRHeader)
    requires
        a.bytes() == b.bytes(),
    ensures
        a.magic@ == b.magic@,
        a.abi_version == b.abi_version,
        a.struct_size == b.struct_size,
        a.capabilities == b.capabilities,
        a.lgmp_version == b.lgmp_version,
        a.kvmfr_version == b.kvmfr_version,
        a.session == b.session,
        a.uuid@ == b.uuid@,
        a.heartbeat == b.heartbeat,
        a.reserved@ == b.reserved@,
        a.ready == b.ready,
{
    lemma_auto_spec_u16_to_from_le_bytes();
    lemma_auto_spec_u32_to_from_le_bytes();
    lemma_auto_spec_u64_to_from_le_bytes();
    lemma_header_fields(a);
    lemma_header_fields(b);
    assert(a.reserved@ =~= b.reserved@);
}

/// Where the fields of a header stand.
proof fn lemma_header_fields(h: KVMFRRHeader)
    ensures
        h.bytes().subrange(0, 8) == h.magic@,
        h.abi_version == spec_u16_from_le_bytes(h.bytes().subrange(8, 10)),
        h.struct_size == spec_u16_from_le_bytes(h.bytes().subrange(10, 12)),
        h.capabilities == spec_u32_from_le_bytes(h.bytes().subrange(12, 16)),
        h.lgmp_version == spec_u32_from_le_bytes(h.bytes().subrange(16, 20)),
        h.kvmfr_version == spec_u32_from_le_bytes(h.bytes().subrange(20, 24)),
        h.session == spec_u64_from_le_bytes(h.bytes().subrange(24, 32)),
        h.bytes().subrange(32, 48) == h.uuid@,
        h.heartbeat == spec_u32_from_le_bytes(h.bytes().subrange(48, 52)),
        h.reserved@[0] == spec_u32_from_le_bytes(h.bytes().subrange(52, 56)),
        h.reserved@[1] == spec_u32_from_le_bytes(h.bytes().subrange(56, 60)),
        h.ready == spec_u32_from_le_bytes(h.bytes().subrange(60, 64)),
{
    lemma_auto_spec_u16_to_from_le_bytes();
    lemma_auto_spec_u32_to_from_le_bytes();
    lemma_auto_spec_u64_to_from_le_bytes();
    let all = h.bytes();
    assert(all.subrange(0, 8) =~= h.magic@);
    assert(all.subrange(8, 10) =~= spec_u16_to_le_bytes(h.abi_version));
    assert(all.subrange(10, 12) =~= spec_u16_to_le_bytes(h.struct_size));
    assert(all.subrange(12, 16) =~= spec_u32_to_le_bytes(h.capabilities));
    assert(all.subrange(16, 20) =~= spec_u32_to_le_bytes(h.lgmp_version));
    assert(all.subrange(20, 24) =~= spec_u32_to_le_bytes(h.kvmfr_version));
    assert(all.subrange(24, 32) =~= spec_u64_to_le_bytes(h.session));
    assert(all.subrange(32, 48) =~= h.uuid@);
    assert(all.subrange(48, 52) =~= spec_u32_to_le_bytes(h.heartbeat));
    assert(all.subrange(52, 56) =~= spec_u32_to_le_bytes(h.reserved@[0]));
    assert(all.subrange(56, 60) =~= spec_u32_to_le_bytes(h.reserved@[1]));
    assert(all.subrange(60, 64) =~= spec_u32_to_le_bytes(h.ready));
}

/// The bytes of the other lines of the region determine their fields.
pub proof fn law_bytes_determine_lines(
    infos: (KVMFRRInfo, KVMFRRInfo),
    heads: (KVMFRRReqHead, KVMFRRReqHead),
    requests: (KVMFRRRequest, KVMFRRRequest),
    statuses: (KVMFRRStatus, KVMFRRStatus),
)
    ensures
        infos.0.bytes() == infos.1.bytes() ==> {
            &&& infos.0.version@ == infos.1.version@
            &&& infos.0.reserved@ == infos.1.reserved@
        },
        heads.0.bytes() == heads.1.bytes() ==> {
            &&& heads.0.ticket == heads.1.ticket
            &&& heads.0.reserved@ == heads.1.reserved@
        },
        requests.0.bytes() == requests.1.bytes() ==> {
            &&& requests.0.serial == requests.1.serial
            &&& requests.0.request == requests.1.request
            &&& requests.0.session == requests.1.session
            &&& requests.0.reserved@ == requests.1.reserved@
        },
        statuses.0.bytes() == statuses.1.bytes() ==> {
            &&& statuses.0.ack_serial == statuses.1.ack_serial
            &&& statuses.0.ack_request == statuses.1.ack_request
            &&& statuses.0.state == statuses.1.state
            &&& statuses.0.error == statuses.1.error
            &&& statuses.0.session == statuses.1.session
            &&& statuses.0.serial == statuses.1.serial
            &&& statuses.0.reserved@ == statuses.1.reserved@
        },
{
    lemma_line_fields(infos.0, heads.0, requests.0, statuses.0);
    lemma_line_fields(infos.1, heads.1, requests.1, statuses.1);
}

/// Where the fields of the other lines stand.
proof fn lemma_line_fields(
    info: KVMFRRInfo,
    head: KVMFRRReqHead,
    request: KVMFRRRequest,
    status: KVMFRRStatus,
)
    ensures
        info.bytes().subrange(0, 48) == info.version@,
        info.bytes().subrange(48, 64) == info.reserved@,
        head.ticket == spec_u32_from_le_bytes(head.bytes().subrange(0, 4)),
        head.bytes().subrange(4, 64) == head.reserved@,
        request.serial == spec_u32_from_le_bytes(request.bytes().subrange(0, 4)),
        request.request == spec_u32_from_le_bytes(request.bytes().subrange(4, 8)),
        request.session == spec_u64_from_le_bytes(request.bytes().subrange(8, 16)),
        request.bytes().subrange(16, 64) == request.reserved@,
        status.ack_serial == spec_u32_from_le_bytes(status.bytes().subrange(0, 4)),
        status.ack_request == spec_u32_from_le_bytes(status.bytes().subrange(4, 8)),
        status.state == spec_u32_from_le_bytes(status.bytes().subrange(8, 12)),
        status.error == spec_u32_from_le_bytes(status.bytes().subrange(12, 16)),
        status.session == spec_u64_from_le_bytes(status.bytes().subrange(16, 24)),
        status.serial == spec_u32_from_le_bytes(status.bytes().subrange(24, 28)),
        status.bytes().subrange(28, 64) == status.reserved@,
{
    lemma_auto_spec_u32_to_from_le_bytes();
    lemma_auto_spec_u64_to_from_le_bytes();
    assert(info.bytes().subrange(0, 48) =~= info.version@);
    assert(info.bytes().subrange(48, 64) =~= info.reserved@);
    assert(head.bytes().subrange(0, 4) =~= spec_u32_to_le_bytes(head.ticket));
    assert(head.bytes().subrange(4, 64) =~= head.reserved@);
    assert(request.bytes().subrange(0, 4) =~= spec_u32_to_le_bytes(request.serial));
    assert(request.bytes().subrange(4, 8) =~= spec_u32_to_le_bytes(request.request));
    assert(request.bytes().subrange(8, 16) =~= spec_u64_to_le_bytes(request.session));
    assert(request.bytes().subrange(16, 64) =~= request.reserved@);
    assert(status.bytes().subrange(0, 4) =~= spec_u32_to_le_bytes(status.ack_serial));
    assert(status.bytes().subrange(4, 8) =~= spec_u32_to_le_bytes(status.ack_request));
    assert(status.bytes().subrange(8, 12) =~= spec_u32_to_le_bytes(status.state));
    assert(status.bytes().subrange(12, 16) =~= spec_u32_to_le_bytes(status.error));
    assert(status.bytes().subrange(16, 24) =~= spec_u64_to_le_bytes(status.session));
    assert(status.bytes().subrange(24, 28) =~= spec_u32_to_le_bytes(status.serial));
    assert(status.bytes().subrange(28, 64) =~= status.reserved@);
}

/// The bytes of the region determine each of its lines.
pub proof fn law_bytes_determine_region(a: KVMFRR, b: KVMFRR, i: int)
    requires
        a.bytes() == b.bytes(),
        0 <= i < KVMFR_R_REQ_SLOTS,
    ensures
        a.header.bytes() == b.header.bytes(),
        a.info.bytes() == b.info.bytes(),
        a.req.bytes() == b.req.bytes(),
        a.requests@[i].bytes() == b.requests@[i].bytes(),
        a.status.bytes() == b.status.bytes(),
{
    law_region_offsets(a, i);
    law_region_offsets(b, i);
}

/// The two magics, letter by letter.
pub proof fn law_magics_by_letters(i: int)
    requires
        0 <= i < 8,
    ensures
        kvmfr_magic().len() == 8,
        kvmfr_magic()[i] == "KVMFR---"@[i] as u8,
        kvmfr_r_magic().len() == 8,
        kvmfr_r_magic()[i] == "KVMFRRCV"@[i] as u8,
{
    reveal_strlit("KVMFR---");
    reveal_strlit("KVMFRRCV");
}

/// Where the fields of the header of the frame protocol stand.
pub proof fn law_frame_header_offsets(header: KVMFRHeader)
    ensures
        header.bytes().subrange(0, 8) == header.magic@,
        header.bytes().subrange(8, 12) == spec_u32_to_le_bytes(header.version),
        header.bytes().subrange(12, 44) == header.hostver@,
        header.bytes().subrange(44, 48) == spec_u32_to_le_bytes(header.features),
{
    lemma_auto_spec_u32_to_from_le_bytes();
    let all = header.bytes();
    assert(all.subrange(0, 8) =~= header.magic@);
    assert(all.subrange(8, 12) =~= spec_u32_to_le_bytes(header.version));
    assert(all.subrange(12, 44) =~= header.hostver@);
    assert(all.subrange(44, 48) =~= spec_u32_to_le_bytes(header.features));
}

/// Where the fields of the header of the recovery region stand.
pub proof fn law_header_offsets(h: KVMFRRHeader)
    ensures
        h.bytes().subrange(0, 8) == h.magic@,
        h.abi_version == spec_u16_from_le_bytes(h.bytes().subrange(8, 10)),
        h.struct_size == spec_u16_from_le_bytes(h.bytes().subrange(10, 12)),
        h.capabilities == spec_u32_from_le_bytes(h.bytes().subrange(12, 16)),
        h.lgmp_version == spec_u32_from_le_bytes(h.bytes().subrange(16, 20)),
        h.kvmfr_version == spec_u32_from_le_bytes(h.bytes().subrange(20, 24)),
        h.session == spec_u64_from_le_bytes(h.bytes().subrange(24, 32)),
        h.bytes().subrange(32, 48) == h.uuid@,
        h.heartbeat == spec_u32_from_le_bytes(h.bytes().subrange(48, 52)),
        h.reserved@[0] == spec_u32_from_le_bytes(h.bytes().subrange(52, 56)),
        h.reserved@[1] == spec_u32_from_le_bytes(h.bytes().subrange(56, 60)),
        h.ready == spec_u32_from_le_bytes(h.bytes().subrange(60, 64)),
{
    lemma_header_fields(h);
}

/// A device node that could be opened is used; after one that could not comes
/// the next, and after the last of the eight the search is over.
pub proof fn law_search_goes_node_by_node(index: u32)
    requires
        index < 8,
    ensures
        step_after(index, true) == SearchStep::Found(index),
        index < 7 ==> step_after(index, false) == SearchStep::Try((index + 1) as u32),
        index == 7 ==> step_after(index, false) is NoDevice,
{
}

} // verus!
