//! Building and parsing the two message shapes the transport uses.
//!
//! A complex Mach message header is 24 bytes, then a 4-byte descriptor
//! count, so the first descriptor begins at offset 28. The out-of-line
//! descriptor is 16 bytes (a 64-bit address, four flag bytes, a 32-bit size)
//! and the port descriptor 12; both keep their type byte at offset 11, so a
//! parser can read it before it knows which layout it is looking at. All
//! integers are little-endian.
use vstd::prelude::*;

use crate::error::Malformed;
use crate::rights::{RecvRight, SendOnceRight, SendRight};

verus! {

/// Mask of the remote-port disposition in `msgh_bits`.
pub const MSGH_BITS_REMOTE_MASK: u32 = 0x1f;
/// Set in `msgh_bits` when descriptors follow the header.
pub const MSGH_BITS_COMPLEX: u32 = 0x8000_0000;
/// The disposition a received send right carries.
pub const MSG_TYPE_MOVE_SEND: u32 = 17;
/// The disposition a received send-once right carries.
pub const MSG_TYPE_MOVE_SEND_ONCE: u32 = 18;
/// Keep our send right; the kernel takes a reference of its own.
pub const MSG_TYPE_COPY_SEND: u32 = 19;
/// Make a send right from a receive right we hold.
pub const MSG_TYPE_MAKE_SEND: u32 = 20;
/// Make a send-once right from a receive right we hold.
pub const MSG_TYPE_MAKE_SEND_ONCE: u32 = 21;
/// Descriptor kind: one port right.
pub const MSG_PORT_DESCRIPTOR: u32 = 0;
/// Descriptor kind: an out-of-line memory region.
pub const MSG_OOL_DESCRIPTOR: u32 = 1;
/// Copy option: copy-on-write rather than an eager bulk copy.
pub const MSG_VIRTUAL_COPY: u8 = 1;
/// The null port name.
pub const PORT_NULL: u32 = 0;
/// `mach_msg` option: send.
pub const SEND_MSG: i32 = 1;
/// `mach_msg` option: receive.
pub const RCV_MSG: i32 = 2;
/// `mach_msg` option: give up sending after the timeout.
pub const SEND_TIMEOUT: i32 = 0x10;
/// `mach_msg` option: give up receiving after the timeout.
pub const RCV_TIMEOUT: i32 = 0x100;

/// Size of a message header.
pub const HEADER_SIZE: usize = 24;
/// Offset of the first descriptor: header plus descriptor count.
pub const FIRST_DESCRIPTOR: usize = 28;
/// Where the type byte sits inside every descriptor kind.
pub const DESC_TYPE_OFFSET: usize = 11;
/// Size of a port descriptor.
pub const PORT_DESC_SIZE: usize = 12;
/// Size of an out-of-line descriptor on 64-bit.
pub const OOL_DESC_SIZE: usize = 16;
/// Size of a message carrying only the payload.
pub const OOL_MSG_SIZE: u32 = 44;
/// Size of a message carrying the payload and one port.
pub const OOL_PORT_MSG_SIZE: u32 = 56;
/// Header, body, two descriptors and the largest trailer the kernel
/// appends, rounded up. Nothing legitimate is bigger.
pub const RECV_BUFFER_BYTES: usize = 256;

// ---------------------------------------------------------------------------
// Little-endian integers
// ---------------------------------------------------------------------------

/// The little-endian `u32` at byte `i` of `s`.
pub open spec fn le_u32(s: Seq<u8>, i: int) -> int {
    s[i] + s[i + 1] * 256 + s[i + 2] * 65536 + s[i + 3] * 16777216
}

/// The little-endian `u64` at byte `i` of `s`.
pub open spec fn le_u64(s: Seq<u8>, i: int) -> int {
    le_u32(s, i) + le_u32(s, i + 4) * 4294967296
}

/// The four little-endian bytes of `x`.
pub open spec fn le32_bytes(x: u32) -> Seq<u8> {
    seq![
        (x % 256) as u8,
        ((x / 256) % 256) as u8,
        ((x / 65536) % 256) as u8,
        (x / 16777216) as u8,
    ]
}

/// The eight little-endian bytes of `x`.
pub open spec fn le64_bytes(x: u64) -> Seq<u8> {
    le32_bytes((x % 4294967296) as u32) + le32_bytes((x / 4294967296) as u32)
}

fn read_u32(bytes: &[u8], at: usize) -> (r: u32)
    requires
        at + 4 <= bytes@.len(),
    ensures
        r == le_u32(bytes@, at as int),
{
    let b0 = bytes[at] as u32;
    let b1 = bytes[at + 1] as u32;
    let b2 = bytes[at + 2] as u32;
    let b3 = bytes[at + 3] as u32;
    b0 + b1 * 256 + b2 * 65536 + b3 * 16777216
}

fn read_u64(bytes: &[u8], at: usize) -> (r: u64)
    requires
        at + 8 <= bytes.len(),
    ensures
        r == le_u64(bytes@, at as int),
{
    let lo = read_u32(bytes, at) as u64;
    let hi = read_u32(bytes, at + 4) as u64;
    lo + hi * 4294967296
}

fn push_u32(out: &mut Vec<u8>, x: u32)
    ensures
        final(out)@ == old(out)@ + le32_bytes(x),
{
    out.push((x % 256) as u8);
    out.push(((x / 256) % 256) as u8);
    out.push(((x / 65536) % 256) as u8);
    out.push((x / 16777216) as u8);
    assert(final(out)@ =~= old(out)@ + le32_bytes(x));
}

// ---------------------------------------------------------------------------
// Parsing
// ---------------------------------------------------------------------------

/// An out-of-line memory region the kernel mapped into this process.
#[derive(Clone, Copy, PartialEq, Eq, Debug, Structural)]
pub struct OolRegion {
    pub address: u64,
    pub size: u32,
}

impl OolRegion {
    /// Whether the region holds bytes at all (a null or empty region maps
    /// nothing, so there is nothing to copy or release).
    pub fn is_mapped(&self) -> (r: bool)
        ensures
            r == (self.address != 0 && self.size > 0),
    {
        self.address != 0 && self.size > 0
    }
}

/// One descriptor as read off the wire.
pub enum Descriptor {
    Ool { region: OolRegion },
    Port { name: u32, disposition: u8 },
}

/// The descriptor that begins at `offset`, or why none can be read there.
pub open spec fn descriptor_at(bytes: Seq<u8>, offset: int) -> Result<Descriptor, Malformed> {
    if offset + DESC_TYPE_OFFSET >= bytes.len() {
        Err(Malformed::DescriptorPastEnd)
    } else if bytes[offset + DESC_TYPE_OFFSET] as u32 == MSG_OOL_DESCRIPTOR {
        if offset + OOL_DESC_SIZE > bytes.len() {
            Err(Malformed::OolTruncated)
        } else {
            Ok(
                Descriptor::Ool {
                    region: OolRegion {
                        address: le_u64(bytes, offset) as u64,
                        size: le_u32(bytes, offset + 12) as u32,
                    },
                },
            )
        }
    } else if bytes[offset + DESC_TYPE_OFFSET] as u32 == MSG_PORT_DESCRIPTOR {
        if offset + PORT_DESC_SIZE > bytes.len() {
            Err(Malformed::PortTruncated)
        } else {
            Ok(Descriptor::Port { name: le_u32(bytes, offset) as u32, disposition: bytes[offset + 10] })
        }
    } else {
        Err(Malformed::UnsupportedDescriptor)
    }
}

/// Whether a port descriptor hands this process a send right it keeps.
pub open spec fn accepts_port(name: u32, disposition: u8) -> bool {
    disposition as u32 == MSG_TYPE_MOVE_SEND && name != PORT_NULL
}

/// What reading `count` descriptors from `offset` on yields.
pub struct Scan {
    /// Every out-of-line region read, in order.
    pub regions: Seq<OolRegion>,
    /// Every send right kept, in order.
    pub ports: Seq<u32>,
    /// Why reading stopped early, if it did.
    pub error: Option<Malformed>,
}

/// Reads `count` descriptors starting at `offset`, stopping at the first
/// one that cannot be read.
pub open spec fn scan(bytes: Seq<u8>, offset: int, count: nat) -> Scan
    decreases count,
{
    if count == 0 {
        Scan { regions: Seq::empty(), ports: Seq::empty(), error: None }
    } else {
        match descriptor_at(bytes, offset) {
            Err(e) => Scan { regions: Seq::empty(), ports: Seq::empty(), error: Some(e) },
            Ok(Descriptor::Ool { region }) => {
                let rest = scan(bytes, offset + OOL_DESC_SIZE, (count - 1) as nat);
                Scan { regions: seq![region] + rest.regions, ports: rest.ports, error: rest.error }
            },
            Ok(Descriptor::Port { name, disposition }) => {
                let rest = scan(bytes, offset + PORT_DESC_SIZE, (count - 1) as nat);
                Scan {
                    regions: rest.regions,
                    ports: if accepts_port(name, disposition) {
                        seq![name] + rest.ports
                    } else {
                        rest.ports
                    },
                    error: rest.error,
                }
            },
        }
    }
}

/// The header's `msgh_bits`.
pub open spec fn header_bits(bytes: Seq<u8>) -> u32 {
    le_u32(bytes, 0) as u32
}

/// The send-once right a received message carries for the answer, if any.
///
/// On receive the sender's local port arrives as our *remote* port, so its
/// disposition is in the remote bits.
pub open spec fn reply_of(bytes: Seq<u8>) -> Option<u32> {
    let remote = le_u32(bytes, 8) as u32;
    if header_bits(bytes) & MSGH_BITS_REMOTE_MASK == MSG_TYPE_MOVE_SEND_ONCE && remote != PORT_NULL {
        Some(remote)
    } else {
        None
    }
}

/// Whether the message declares descriptors.
pub open spec fn is_complex(bytes: Seq<u8>) -> bool {
    header_bits(bytes) & MSGH_BITS_COMPLEX != 0
}

/// The descriptors of a received message.
pub open spec fn scan_of(bytes: Seq<u8>) -> Scan {
    if is_complex(bytes) {
        scan(bytes, FIRST_DESCRIPTOR as int, le_u32(bytes, HEADER_SIZE as int) as nat)
    } else {
        Scan { regions: Seq::empty(), ports: Seq::empty(), error: None }
    }
}

/// Whether a received message is one this protocol understands.
pub open spec fn outcome_of(bytes: Seq<u8>) -> Result<(), Malformed> {
    if !is_complex(bytes) {
        Err(Malformed::NotComplex)
    } else {
        match scan_of(bytes).error {
            Some(e) => Err(e),
            None => if scan_of(bytes).regions.len() == 0 {
                Err(Malformed::NoPayload)
            } else {
                Ok(())
            },
        }
    }
}

/// What a received message holds, before its memory is copied out.
///
/// Every right and region listed here was handed to this process by the
/// kernel, whatever the outcome: the receiver owns them and must release
/// them when the message is refused.
pub struct Parsed {
    /// Where the answer goes, if the sender asked for one.
    pub reply: Option<u32>,
    /// The out-of-line regions read before parsing stopped, in order.
    pub regions: Vec<OolRegion>,
    /// The send rights read before parsing stopped, in order.
    pub ports: Vec<u32>,
    /// Whether the message is one this protocol understands.
    pub outcome: Result<(), Malformed>,
}

/// Pulls the reply right, the out-of-line regions and the send rights out
/// of a received message.
pub fn parse(bytes: &[u8]) -> (r: Parsed)
    requires
        bytes@.len() >= FIRST_DESCRIPTOR,
    ensures
        r.reply == reply_of(bytes@),
        r.reply == (if bytes@[0] % 32 == 18 && le_u32(bytes@, 8) != 0 {
            Some(le_u32(bytes@, 8) as u32)
        } else {
            None::<u32>
        }),
        r.regions@ == scan_of(bytes@).regions,
        r.ports@ == scan_of(bytes@).ports,
        r.outcome == outcome_of(bytes@),
{
    let bits = read_u32(bytes, 0);
    let remote = read_u32(bytes, 8);
    let reply = if bits & MSGH_BITS_REMOTE_MASK == MSG_TYPE_MOVE_SEND_ONCE && remote != PORT_NULL {
        Some(remote)
    } else {
        None
    };
    proof {
        lemma_reply_follows_remote_disposition(bytes@);
    }
    let mut regions: Vec<OolRegion> = Vec::new();
    let mut ports: Vec<u32> = Vec::new();

    if bits & MSGH_BITS_COMPLEX == 0 {
        return Parsed { reply, regions, ports, outcome: Err(Malformed::NotComplex) };
    }
    let count = read_u32(bytes, HEADER_SIZE);
    let ghost total = scan(bytes@, FIRST_DESCRIPTOR as int, count as nat);
    let mut offset: usize = FIRST_DESCRIPTOR;
    let mut i: u32 = 0;
    while i < count
        invariant
            FIRST_DESCRIPTOR <= offset <= bytes@.len(),
            i <= count,
            reply == reply_of(bytes@),
            reply_of(bytes@) == (if bytes@[0] % 32 == 18 && le_u32(bytes@, 8) != 0 {
                Some(le_u32(bytes@, 8) as u32)
            } else {
                None::<u32>
            }),
            is_complex(bytes@),
            count == le_u32(bytes@, HEADER_SIZE as int),
            total == scan(bytes@, FIRST_DESCRIPTOR as int, count as nat),
            regions@ + scan(bytes@, offset as int, (count - i) as nat).regions == total.regions,
            ports@ + scan(bytes@, offset as int, (count - i) as nat).ports == total.ports,
            scan(bytes@, offset as int, (count - i) as nat).error == total.error,
        decreases count - i,
    {
        let ghost rest = scan(bytes@, offset as int, (count - i - 1) as nat);
        let len = bytes.len();
        if len - offset <= DESC_TYPE_OFFSET {
            assert(regions@ + Seq::<OolRegion>::empty() =~= regions@);
            assert(ports@ + Seq::<u32>::empty() =~= ports@);
            return Parsed { reply, regions, ports, outcome: Err(Malformed::DescriptorPastEnd) };
        }
        let kind = bytes[offset + DESC_TYPE_OFFSET] as u32;
        if kind == MSG_OOL_DESCRIPTOR {
            if len - offset < OOL_DESC_SIZE {
                assert(regions@ + Seq::<OolRegion>::empty() =~= regions@);
                assert(ports@ + Seq::<u32>::empty() =~= ports@);
                return Parsed { reply, regions, ports, outcome: Err(Malformed::OolTruncated) };
            }
            let address = read_u64(bytes, offset);
            let size = read_u32(bytes, offset + 12);
            let region = OolRegion { address, size };
            proof {
                assert(regions@.push(region) + rest.regions =~= regions@ + (seq![region]
                    + rest.regions));
            }
            regions.push(region);
            offset = offset + OOL_DESC_SIZE;
        } else if kind == MSG_PORT_DESCRIPTOR {
            if len - offset < PORT_DESC_SIZE {
                assert(regions@ + Seq::<OolRegion>::empty() =~= regions@);
                assert(ports@ + Seq::<u32>::empty() =~= ports@);
                return Parsed { reply, regions, ports, outcome: Err(Malformed::PortTruncated) };
            }
            let name = read_u32(bytes, offset);
            let disposition = bytes[offset + 10];
            if disposition as u32 == MSG_TYPE_MOVE_SEND && name != PORT_NULL {
                proof {
                    assert(ports@.push(name) + rest.ports =~= ports@ + (seq![name] + rest.ports));
                }
                ports.push(name);
            }
            offset = offset + PORT_DESC_SIZE;
        } else {
            assert(regions@ + Seq::<OolRegion>::empty() =~= regions@);
            assert(ports@ + Seq::<u32>::empty() =~= ports@);
            return Parsed {
                reply,
                regions,
                ports,
                outcome: Err(Malformed::UnsupportedDescriptor),
            };
        }
        i = i + 1;
    }
    assert(regions@ + Seq::<OolRegion>::empty() =~= regions@);
    assert(ports@ + Seq::<u32>::empty() =~= ports@);
    if regions.len() == 0 {
        return Parsed { reply, regions, ports, outcome: Err(Malformed::NoPayload) };
    }
    Parsed { reply, regions, ports, outcome: Ok(()) }
}


/// The reply right a message kept, by name.
pub open spec fn reply_name(reply: Option<SendOnceRight>) -> Option<u32> {
    match reply {
        Some(r) => Some(r@),
        None => None,
    }
}

/// One message off the wire, with its payload copied out and its rights
/// owned.
pub struct Incoming {
    /// The request bytes, already copied out of the kernel's mapping.
    pub payload: Vec<u8>,
    /// Where the answer goes, if the sender asked for one.
    pub reply: Option<SendOnceRight>,
    /// Send rights the peer handed over: a subscriber registering itself.
    pub ports: Vec<SendRight>,
}

impl Parsed {
    /// The region whose bytes become the payload: the last out-of-line
    /// region read.
    pub fn payload_region(&self) -> (r: Option<OolRegion>)
        ensures
            r == (if self.regions@.len() > 0 {
                Some(self.regions@.last())
            } else {
                None::<OolRegion>
            }),
    {
        let n = self.regions.len();
        if n == 0 {
            None
        } else {
            Some(self.regions[n - 1])
        }
    }

    /// The message, given the bytes copied out of its payload region (empty
    /// when that region maps nothing); or why it was refused.
    pub fn into_incoming(self, payload: Vec<u8>) -> (r: Result<Incoming, Malformed>)
        ensures
            match r {
                Ok(incoming) => {
                    &&& self.outcome is Ok
                    &&& incoming.payload@ == payload@
                    &&& reply_name(incoming.reply) == self.reply
                    &&& incoming.ports@.len() == self.ports@.len()
                    &&& forall|i: int|
                        0 <= i < self.ports@.len() ==> #[trigger] incoming.ports@[i]@
                            == self.ports@[i]
                },
                Err(e) => self.outcome == Err::<(), Malformed>(e),
            },
    {
        match self.outcome {
            Err(e) => Err(e),
            Ok(()) => {
                let mut ports: Vec<SendRight> = Vec::new();
                let mut i: usize = 0;
                while i < self.ports.len()
                    invariant
                        i <= self.ports@.len(),
                        ports@.len() == i,
                        forall|j: int| 0 <= j < i ==> #[trigger] ports@[j]@ == self.ports@[j],
                    decreases self.ports@.len() - i,
                {
                    ports.push(SendRight::from_raw(self.ports[i]));
                    i = i + 1;
                }
                let reply = match self.reply {
                    Some(name) => Some(SendOnceRight::from_raw(name)),
                    None => None,
                };
                Ok(Incoming { payload, reply, ports })
            },
        }
    }
}

// ---------------------------------------------------------------------------
// Building
// ---------------------------------------------------------------------------

/// How the destination port right is treated when sending.
#[derive(Clone, Copy, PartialEq, Eq, Debug, Structural)]
pub enum Dest {
    /// Keep our send right; the kernel takes a reference of its own. Used
    /// for the service port, which a client talks to repeatedly.
    CopySend,
    /// Hand over a send-once right, which the send consumes. Used for
    /// replies.
    MoveSendOnce,
}

/// One outgoing message.
pub struct Outgoing<'a> {
    dest: u32,
    dest_kind: Dest,
    payload: &'a [u8],
    reply_port: Option<u32>,
    extra_port: Option<u32>,
    timeout: Option<u32>,
}

/// What an outgoing message says.
pub struct OutgoingView {
    /// The port to send to.
    pub dest: u32,
    /// What the destination right is, and so what the kernel does with it.
    pub dest_kind: Dest,
    /// The bytes carried out of line.
    pub payload: Seq<u8>,
    /// A receive right to answer on, turning the message into a request.
    pub reply_port: Option<u32>,
    /// A further right handed over: how a subscription is set up.
    pub extra_port: Option<u32>,
    /// `Some(0)` fails rather than waits when the peer's queue is full;
    /// `None` waits for room.
    pub timeout: Option<u32>,
}

impl<'a> View for Outgoing<'a> {
    type V = OutgoingView;

    closed spec fn view(&self) -> OutgoingView {
        OutgoingView {
            dest: self.dest,
            dest_kind: self.dest_kind,
            payload: self.payload@,
            reply_port: self.reply_port,
            extra_port: self.extra_port,
            timeout: self.timeout,
        }
    }
}

/// The disposition the remote bits give the destination right.
pub open spec fn remote_disposition(kind: Dest) -> u32 {
    match kind {
        Dest::CopySend => MSG_TYPE_COPY_SEND,
        Dest::MoveSendOnce => MSG_TYPE_MOVE_SEND_ONCE,
    }
}

/// The disposition the local bits give the reply port.
pub open spec fn local_disposition(reply_port: Option<u32>) -> u32 {
    if reply_port is Some {
        MSG_TYPE_MAKE_SEND_ONCE
    } else {
        0
    }
}

/// The header's `msgh_bits` for a message.
pub open spec fn msg_bits(o: OutgoingView) -> u32 {
    (remote_disposition(o.dest_kind) | (local_disposition(o.reply_port) << 8u32))
        | MSGH_BITS_COMPLEX
}

/// The size of the message, which is also the length of its frame.
pub open spec fn msg_size(o: OutgoingView) -> u32 {
    if o.extra_port is Some {
        OOL_PORT_MSG_SIZE
    } else {
        OOL_MSG_SIZE
    }
}

/// The number of descriptors the message carries.
pub open spec fn descriptor_count(o: OutgoingView) -> u32 {
    if o.extra_port is Some {
        2
    } else {
        1
    }
}

/// The bytes of a message whose payload sits at `address`.
pub open spec fn frame_bytes(o: OutgoingView, address: u64) -> Seq<u8> {
    let header = le32_bytes(msg_bits(o)) + le32_bytes(msg_size(o)) + le32_bytes(o.dest)
        + le32_bytes(
        match o.reply_port {
            Some(p) => p,
            None => PORT_NULL,
        },
    ) + le32_bytes(PORT_NULL) + le32_bytes(0);
    let body = le32_bytes(descriptor_count(o));
    // The payload descriptor: not deallocated, virtual copy, out of line.
    let payload = le64_bytes(address) + seq![0u8, MSG_VIRTUAL_COPY, 0u8, MSG_OOL_DESCRIPTOR as u8]
        + le32_bytes(o.payload.len() as u32);
    let port = match o.extra_port {
        Some(p) => le32_bytes(p) + le32_bytes(0) + seq![
            0u8,
            0u8,
            MSG_TYPE_MAKE_SEND as u8,
            MSG_PORT_DESCRIPTOR as u8,
        ],
        None => Seq::empty(),
    };
    header + body + payload + port
}

/// The `mach_msg` options for sending a message.
pub open spec fn send_options(o: OutgoingView) -> i32 {
    if o.timeout is Some {
        SEND_MSG | SEND_TIMEOUT
    } else {
        SEND_MSG
    }
}

/// The `mach_msg` timeout for sending a message.
pub open spec fn send_timeout(o: OutgoingView) -> u32 {
    match o.timeout {
        Some(ms) => ms,
        None => 0,
    }
}

/// A message ready for `mach_msg`: its bytes, options and timeout.
pub struct SendFrame {
    pub bytes: Vec<u8>,
    pub options: i32,
    pub timeout: u32,
}

impl<'a> Outgoing<'a> {
    /// The ordinary request or command: just a payload for the service.
    pub fn new(service: &SendRight, payload: &'a [u8]) -> (r: Outgoing<'a>)
        ensures
            r@ == (OutgoingView {
                dest: service@,
                dest_kind: Dest::CopySend,
                payload: payload@,
                reply_port: None,
                extra_port: None,
                timeout: None,
            }),
    {
        Outgoing {
            dest: service.as_raw(),
            dest_kind: Dest::CopySend,
            payload,
            reply_port: None,
            extra_port: None,
            timeout: None,
        }
    }

    /// Asks for an answer on `port`, a right we own and keep.
    pub fn replying_to(self, port: &RecvRight) -> (r: Self)
        ensures
            r@ == (OutgoingView { reply_port: Some(port@), ..self@ }),
    {
        Outgoing { reply_port: Some(port.as_raw()), ..self }
    }

    /// Carries a further right across, handing the peer a channel back.
    pub fn carrying(self, port: &RecvRight) -> (r: Self)
        ensures
            r@ == (OutgoingView { extra_port: Some(port@), ..self@ }),
    {
        Outgoing { extra_port: Some(port.as_raw()), ..self }
    }

    /// Fails rather than waits when the peer's queue is full.
    pub fn without_waiting(self) -> (r: Self)
        ensures
            r@ == (OutgoingView { timeout: Some(0), ..self@ }),
    {
        Outgoing { timeout: Some(0), ..self }
    }

    /// An answer travelling back down a send-once right, which the send
    /// consumes.
    pub fn answering(right: SendOnceRight, payload: &'a [u8]) -> (r: Outgoing<'a>)
        ensures
            r@ == (OutgoingView {
                dest: right@,
                dest_kind: Dest::MoveSendOnce,
                payload: payload@,
                reply_port: None,
                extra_port: None,
                timeout: None,
            }),
    {
        Outgoing {
            dest: right.into_raw(),
            dest_kind: Dest::MoveSendOnce,
            payload,
            reply_port: None,
            extra_port: None,
            timeout: None,
        }
    }

    /// The bytes this message carries out of line.
    pub fn payload(&self) -> (r: &'a [u8])
        ensures
            r@ == self@.payload,
    {
        self.payload
    }

    /// The frame that hands this message to the kernel, its payload carried
    /// out of line from `payload_address`; refused when the payload is too
    /// large for a descriptor.
    pub fn prepare(self, payload_address: u64) -> (r: Result<SendFrame, Malformed>)
        ensures
            match r {
                Ok(frame) => {
                    &&& self@.payload.len() <= u32::MAX
                    &&& frame.bytes@ == frame_bytes(self@, payload_address)
                    &&& frame.options == send_options(self@)
                    &&& frame.timeout == send_timeout(self@)
                },
                Err(e) => e == Malformed::PayloadTooLarge && self@.payload.len() > u32::MAX,
            },
    {
        let remote = match self.dest_kind {
            Dest::CopySend => MSG_TYPE_COPY_SEND,
            Dest::MoveSendOnce => MSG_TYPE_MOVE_SEND_ONCE,
        };
        let local = if self.reply_port.is_some() {
            MSG_TYPE_MAKE_SEND_ONCE
        } else {
            0
        };
        let size = if self.extra_port.is_some() {
            OOL_PORT_MSG_SIZE
        } else {
            OOL_MSG_SIZE
        };
        let count: u32 = if self.extra_port.is_some() {
            2
        } else {
            1
        };
        let payload_len = self.payload.len();
        if payload_len > 0xffff_ffffusize {
            return Err(Malformed::PayloadTooLarge);
        }
        let local_port = match self.reply_port {
            Some(p) => p,
            None => PORT_NULL,
        };
        let mut bytes: Vec<u8> = Vec::new();
        push_u32(&mut bytes, (remote | (local << 8u32)) | MSGH_BITS_COMPLEX);
        push_u32(&mut bytes, size);
        push_u32(&mut bytes, self.dest);
        push_u32(&mut bytes, local_port);
        push_u32(&mut bytes, PORT_NULL);
        push_u32(&mut bytes, 0);
        push_u32(&mut bytes, count);
        push_u32(&mut bytes, (payload_address % 4294967296) as u32);
        push_u32(&mut bytes, (payload_address / 4294967296) as u32);
        bytes.push(0u8);
        bytes.push(MSG_VIRTUAL_COPY);
        bytes.push(0u8);
        bytes.push(MSG_OOL_DESCRIPTOR as u8);
        push_u32(&mut bytes, payload_len as u32);
        match self.extra_port {
            Some(p) => {
                push_u32(&mut bytes, p);
                push_u32(&mut bytes, 0);
                bytes.push(0u8);
                bytes.push(0u8);
                bytes.push(MSG_TYPE_MAKE_SEND as u8);
                bytes.push(MSG_PORT_DESCRIPTOR as u8);
            },
            None => {},
        }
        assert(bytes@ =~= frame_bytes(self@, payload_address));
        let (options, timeout) = match self.timeout {
            Some(ms) => (SEND_MSG | SEND_TIMEOUT, ms),
            None => (SEND_MSG, 0),
        };
        Ok(SendFrame { bytes, options, timeout })
    }
}

/// The frame that sends `payload` on a send-once right, consuming it; or
/// why the payload cannot be sent.
pub fn reply(right: SendOnceRight, payload: &[u8], payload_address: u64) -> (r: Result<
    SendFrame,
    Malformed,
>)
    ensures
        match r {
            Ok(frame) => {
                &&& payload@.len() <= u32::MAX
                &&& frame.bytes@ == frame_bytes(
                    OutgoingView {
                        dest: right@,
                        dest_kind: Dest::MoveSendOnce,
                        payload: payload@,
                        reply_port: None,
                        extra_port: None,
                        timeout: None,
                    },
                    payload_address,
                )
                &&& frame.options == SEND_MSG
                &&& frame.timeout == 0
            },
            Err(e) => e == Malformed::PayloadTooLarge && payload@.len() > u32::MAX,
        },
{
    Outgoing::answering(right, payload).prepare(payload_address)
}


// ---------------------------------------------------------------------------
// The sender and the parser agree on the layout
// ---------------------------------------------------------------------------

proof fn lemma_le32_roundtrip(x: u32)
    ensures
        (x % 256) as u8 + ((x / 256) % 256) as u8 * 256 + ((x / 65536) % 256) as u8 * 65536 + (x
            / 16777216) as u8 * 16777216 == x,
{
    assert((x % 256) + ((x / 256) % 256) * 256 + ((x / 65536) % 256) * 65536 + (x / 16777216)
        * 16777216 == x) by (bit_vector);
    assert(x / 16777216 < 256) by (bit_vector);
}

/// Reading a little-endian `u32` where one was written gives it back.
proof fn lemma_read_written_u32(s: Seq<u8>, at: int, x: u32)
    requires
        0 <= at,
        at + 4 <= s.len(),
        s.subrange(at, at + 4) == le32_bytes(x),
    ensures
        le_u32(s, at) == x,
{
    assert(s[at] == s.subrange(at, at + 4)[0]);
    assert(s[at + 1] == s.subrange(at, at + 4)[1]);
    assert(s[at + 2] == s.subrange(at, at + 4)[2]);
    assert(s[at + 3] == s.subrange(at, at + 4)[3]);
    lemma_le32_roundtrip(x);
}

proof fn lemma_bits(remote: u32, local: u32)
    requires
        remote < 32,
        local < 32,
    ensures
        ((remote | (local << 8u32)) | 0x8000_0000u32) & 0x1fu32 == remote,
        ((remote | (local << 8u32)) | 0x8000_0000u32) & 0x8000_0000u32 != 0,
{
    assert(((remote | (local << 8u32)) | 0x8000_0000u32) & 0x1fu32 == remote) by (bit_vector)
        requires
            remote < 32,
            local < 32,
    ;
    assert(((remote | (local << 8u32)) | 0x8000_0000u32) & 0x8000_0000u32 != 0) by (bit_vector);
}

/// The low five bits of a little-endian word are those of its first byte.
proof fn lemma_low_bits_of_first_byte(s: Seq<u8>)
    requires
        s.len() >= 4,
    ensures
        (le_u32(s, 0) as u32) & MSGH_BITS_REMOTE_MASK == s[0] % 32,
{
    let b0 = s[0];
    let b1 = s[1];
    let b2 = s[2];
    let b3 = s[3];
    let x = le_u32(s, 0) as u32;
    assert(x == b0 as u32 + b1 as u32 * 256 + b2 as u32 * 65536 + b3 as u32 * 16777216);
    assert(x & 0x1fu32 == b0 as u32 % 32) by (bit_vector)
        requires
            x == b0 as u32 + b1 as u32 * 256 + b2 as u32 * 65536 + b3 as u32 * 16777216,
    ;
}

/// A received message carries a reply right exactly when its remote
/// disposition (the low five bits of `msgh_bits`, so of its first byte) is
/// move-send-once and its remote port is not null; the right is that port.
/// The local, voucher and other bits play no part.
pub proof fn lemma_reply_follows_remote_disposition(bytes: Seq<u8>)
    requires
        bytes.len() >= FIRST_DESCRIPTOR,
    ensures
        reply_of(bytes) == (if bytes[0] % 32 == 18 && le_u32(bytes, 8) != 0 {
            Some(le_u32(bytes, 8) as u32)
        } else {
            None::<u32>
        }),
{
    lemma_low_bits_of_first_byte(bytes);
}

/// Two received messages that agree on their first byte and their remote
/// port carry the same reply right, whatever else their headers hold.
pub proof fn lemma_reply_ignores_other_bits(a: Seq<u8>, b: Seq<u8>)
    requires
        a.len() >= FIRST_DESCRIPTOR,
        b.len() >= FIRST_DESCRIPTOR,
        a[0] == b[0],
        le_u32(a, 8) == le_u32(b, 8),
    ensures
        reply_of(a) == reply_of(b),
{
    lemma_reply_follows_remote_disposition(a);
    lemma_reply_follows_remote_disposition(b);
}

/// The fixed part of a frame reads back as written: the header's bits, the
/// descriptor count, and the payload descriptor at the first descriptor
/// slot.
proof fn lemma_frame_fixed_part(o: OutgoingView, address: u64)
    requires
        o.payload.len() <= u32::MAX,
    ensures
        frame_bytes(o, address).len() == msg_size(o),
        header_bits(frame_bytes(o, address)) == msg_bits(o),
        le_u32(frame_bytes(o, address), HEADER_SIZE as int) == descriptor_count(o),
        descriptor_at(frame_bytes(o, address), FIRST_DESCRIPTOR as int) == Ok::<
            Descriptor,
            Malformed,
        >(Descriptor::Ool { region: OolRegion { address, size: o.payload.len() as u32 } }),
{
    let f = frame_bytes(o, address);
    let lo = (address % 4294967296) as u32;
    let hi = (address / 4294967296) as u32;
    assert(f.subrange(0, 4) =~= le32_bytes(msg_bits(o)));
    lemma_read_written_u32(f, 0, msg_bits(o));
    assert(f.subrange(24, 28) =~= le32_bytes(descriptor_count(o)));
    lemma_read_written_u32(f, 24, descriptor_count(o));
    assert(f.subrange(28, 32) =~= le32_bytes(lo));
    lemma_read_written_u32(f, 28, lo);
    assert(f.subrange(32, 36) =~= le32_bytes(hi));
    lemma_read_written_u32(f, 32, hi);
    assert(f.subrange(40, 44) =~= le32_bytes(o.payload.len() as u32));
    lemma_read_written_u32(f, 40, o.payload.len() as u32);
    assert(lo + hi * 4294967296 == address);
    assert(f[39] == MSG_OOL_DESCRIPTOR as u8);
}

/// The port descriptor of a frame that carries a further right reads back
/// as written, with a disposition no received message keeps.
proof fn lemma_frame_port_part(o: OutgoingView, address: u64, p: u32)
    requires
        o.payload.len() <= u32::MAX,
        o.extra_port == Some(p),
    ensures
        descriptor_at(frame_bytes(o, address), 44) == Ok::<Descriptor, Malformed>(
            Descriptor::Port { name: p, disposition: MSG_TYPE_MAKE_SEND as u8 },
        ),
{
    let f = frame_bytes(o, address);
    assert(f.len() == 56);
    assert(f[55] == MSG_PORT_DESCRIPTOR as u8);
    assert(f[54] == MSG_TYPE_MAKE_SEND as u8);
    assert(f.subrange(44, 48) =~= le32_bytes(p));
    lemma_read_written_u32(f, 44, p);
}

/// A frame built for sending carries its payload descriptor where the
/// parser looks for one: parsing the frame as it stands finds exactly that
/// region, keeps no send right (a right is only ever kept once the kernel
/// has moved it), and accepts the message.
pub proof fn lemma_frame_parses_to_its_payload(o: OutgoingView, address: u64)
    requires
        o.payload.len() <= u32::MAX,
    ensures
        frame_bytes(o, address).len() == msg_size(o),
        is_complex(frame_bytes(o, address)),
        scan_of(frame_bytes(o, address)).regions == seq![
            OolRegion { address, size: o.payload.len() as u32 },
        ],
        scan_of(frame_bytes(o, address)).ports == Seq::<u32>::empty(),
        outcome_of(frame_bytes(o, address)) == Ok::<(), Malformed>(()),
{
    let f = frame_bytes(o, address);
    lemma_bits(remote_disposition(o.dest_kind), local_disposition(o.reply_port));
    lemma_frame_fixed_part(o, address);
    let region = OolRegion { address, size: o.payload.len() as u32 };
    match o.extra_port {
        Some(p) => {
            lemma_frame_port_part(o, address, p);
            assert(scan(f, 56, 0) == Scan {
                regions: Seq::<OolRegion>::empty(),
                ports: Seq::<u32>::empty(),
                error: None,
            });
            assert(scan(f, 44, 1).ports =~= Seq::<u32>::empty());
            assert(scan(f, 28, 2).regions =~= seq![region]);
        },
        None => {
            assert(scan(f, 44, 0) == Scan {
                regions: Seq::<OolRegion>::empty(),
                ports: Seq::<u32>::empty(),
                error: None,
            });
            assert(scan(f, 28, 1).regions =~= seq![region]);
        },
    }
}

} // verus!
