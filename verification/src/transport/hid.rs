//! Framing for the packetized transport.
//!
//! A command goes out in 64-byte frames behind a zero report prefix. Each
//! frame carries the channel `0x0101`, the tag `0x05` and a sequence number
//! that starts at zero; the first frame also carries the length of the
//! command. A response comes back in frames of the same form, without the
//! report prefix.

use crate::error::TransportError;
use crate::text::{decimal, push_decimal, push_upper_hex, upper_hex_byte};
use vstd::prelude::*;
use vstd::string::*;

verus! {

/// Vendor identifier of the devices.
pub const LEDGER_VID: u16 = 0x2c97;

/// Usage page of the interface that takes commands.
pub const LEDGER_USAGE_PAGE: u16 = 0xFFA0;

/// Channel constant of every frame.
pub const LEDGER_CHANNEL: u16 = 0x0101;

/// Tag constant of every frame.
pub const LEDGER_TAG: u8 = 0x05;

/// Bytes written per frame: the report prefix and 64 bytes.
pub const LEDGER_PACKET_WRITE_SIZE: usize = 65;

/// Bytes read per frame.
pub const LEDGER_PACKET_READ_SIZE: usize = 64;

/// Milliseconds to wait for each read.
pub const LEDGER_TIMEOUT_MS: u32 = 30_000;

/// Bytes of the command that one written frame carries.
pub const CHUNK_SIZE: usize = 59;

/// The family of a device, told by the upper byte of its product
/// identifier.
#[derive(Debug, Clone, Copy, PartialEq, Eq, Structural)]
pub enum DeviceType {
    NanoS,
    NanoSPlus,
    NanoX,
    Flex,
    Stax,
    Unknown(u16),
}

/// The family for a product identifier: `0x10` Nano S, `0x40` Nano X,
/// `0x50` Nano S+, `0x60` Stax, `0x70` Flex.
pub open spec fn device_type_of(pid: u16) -> DeviceType {
    let family = pid / 256;
    if family == 0x10 {
        DeviceType::NanoS
    } else if family == 0x40 {
        DeviceType::NanoX
    } else if family == 0x50 {
        DeviceType::NanoSPlus
    } else if family == 0x60 {
        DeviceType::Stax
    } else if family == 0x70 {
        DeviceType::Flex
    } else {
        DeviceType::Unknown(pid)
    }
}

/// The name of a device family.
pub open spec fn device_text(t: DeviceType) -> Seq<char> {
    match t {
        DeviceType::NanoS => "Nano S"@,
        DeviceType::NanoSPlus => "Nano S+"@,
        DeviceType::NanoX => "Nano X"@,
        DeviceType::Flex => "Flex"@,
        DeviceType::Stax => "Stax"@,
        DeviceType::Unknown(pid) => "Unknown (0x"@ + upper_hex_byte((pid / 256) as u8)
            + upper_hex_byte((pid % 256) as u8) + ")"@,
    }
}

impl DeviceType {
    pub fn from_product_id(pid: u16) -> (t: DeviceType)
        ensures
            t == device_type_of(pid),
    {
        let family = pid / 256;
        if family == 0x10 {
            DeviceType::NanoS
        } else if family == 0x40 {
            DeviceType::NanoX
        } else if family == 0x50 {
            DeviceType::NanoSPlus
        } else if family == 0x60 {
            DeviceType::Stax
        } else if family == 0x70 {
            DeviceType::Flex
        } else {
            DeviceType::Unknown(pid)
        }
    }

    /// The name of the family, for display.
    pub fn to_string(&self) -> (s: String)
        ensures
            s@ == device_text(*self),
    {
        match self {
            DeviceType::NanoS => "Nano S".to_string(),
            DeviceType::NanoSPlus => "Nano S+".to_string(),
            DeviceType::NanoX => "Nano X".to_string(),
            DeviceType::Flex => "Flex".to_string(),
            DeviceType::Stax => "Stax".to_string(),
            DeviceType::Unknown(pid) => {
                let mut s = "Unknown (0x".to_string();
                push_upper_hex(&mut s, (*pid / 256) as u8);
                push_upper_hex(&mut s, (*pid % 256) as u8);
                s.append(")");
                s
            },
        }
    }
}

/// Whether an attached device with these identifiers takes commands.
pub open spec fn is_ledger(vendor_id: u16, usage_page: u16) -> bool {
    vendor_id == 0x2c97 && usage_page == 0xFFA0
}

/// Picks the device to open among the attached ones, each given by its
/// vendor identifier and usage page: the first that takes commands.
pub fn find_device(attached: &[(u16, u16)]) -> (found: Option<usize>)
    ensures
        match found {
            Some(i) => {
                &&& i < attached@.len()
                &&& is_ledger(attached@[i as int].0, attached@[i as int].1)
                &&& forall|j: int| 0 <= j < i ==> !is_ledger(#[trigger] attached@[j].0, attached@[j].1)
            },
            None => forall|j: int|
                0 <= j < attached@.len() ==> !is_ledger(#[trigger] attached@[j].0, attached@[j].1),
        },
{
    let mut i: usize = 0;
    while i < attached.len()
        invariant
            i <= attached@.len(),
            forall|j: int| 0 <= j < i ==> !is_ledger(#[trigger] attached@[j].0, attached@[j].1),
        decreases attached@.len() - i,
    {
        if attached[i].0 == LEDGER_VID && attached[i].1 == LEDGER_USAGE_PAGE {
            return Some(i);
        }
        i = i + 1;
    }
    None
}

/// What the frames of a command carry: the length of the command in two
/// big-endian bytes, then the command.
pub open spec fn hid_payload(apdu: Seq<u8>) -> Seq<u8> {
    seq![((apdu.len() / 256) % 256) as u8, (apdu.len() % 256) as u8] + apdu
}

/// The number of frames for a payload: 59 bytes go into each.
pub open spec fn packet_count(payload_len: nat) -> nat {
    (payload_len + 58) / 59
}

/// The `k`-th frame written for a payload: report prefix, channel, tag,
/// sequence number, then the `k`-th run of 59 payload bytes, filled up
/// with zeros.
pub open spec fn hid_packet(payload: Seq<u8>, k: nat) -> Seq<u8> {
    seq![0x00u8, 0x01u8, 0x01u8, 0x05u8, ((k / 256) % 256) as u8, (k % 256) as u8] + Seq::new(
        59,
        |j: int|
            if 59 * k + j < payload.len() {
                payload[59 * k + j]
            } else {
                0u8
            },
    )
}

/// The frames to write for a serialized command, in order.
pub fn write_packets(apdu: &[u8]) -> (packets: Vec<Vec<u8>>)
    ensures
        packets@.len() == packet_count(hid_payload(apdu@).len()),
        forall|k: int|
            0 <= k < packets@.len() ==> (#[trigger] packets@[k])@ == hid_packet(
                hid_payload(apdu@),
                k as nat,
            ),
{
    let mut payload: Vec<u8> = Vec::new();
    payload.push(((apdu.len() / 256) % 256) as u8);
    payload.push((apdu.len() % 256) as u8);
    payload.extend_from_slice(apdu);
    assert(payload@ =~= hid_payload(apdu@));
    let len = payload.len();
    let count: usize = (len - 1) / CHUNK_SIZE + 1;
    assert(count == packet_count(len as nat));
    let mut packets: Vec<Vec<u8>> = Vec::new();
    let mut k: usize = 0;
    while k < count
        invariant
            k <= count,
            len == payload@.len(),
            count == (len - 1) / 59 + 1,
            len >= 2,
            packets@.len() == k,
            forall|i: int|
                0 <= i < k ==> (#[trigger] packets@[i])@ == hid_packet(payload@, i as nat),
        decreases count - k,
    {
        let base: usize = CHUNK_SIZE * k;
        let mut packet: Vec<u8> = Vec::new();
        packet.push(0x00);
        packet.push(0x01);
        packet.push(0x01);
        packet.push(LEDGER_TAG);
        packet.push(((k / 256) % 256) as u8);
        packet.push((k % 256) as u8);
        let ghost header = packet@;
        assert(header =~= seq![
            0x00u8,
            0x01u8,
            0x01u8,
            0x05u8,
            ((k / 256) % 256) as u8,
            (k % 256) as u8,
        ]);
        let mut j: usize = 0;
        while j < CHUNK_SIZE
            invariant
                j <= 59,
                base == 59 * k,
                base < len,
                len == payload@.len(),
                packet@.len() == 6 + j,
                header == seq![
                    0x00u8,
                    0x01u8,
                    0x01u8,
                    0x05u8,
                    ((k / 256) % 256) as u8,
                    (k % 256) as u8,
                ],
                forall|i: int| 0 <= i < 6 ==> #[trigger] packet@[i] == header[i],
                forall|i: int|
                    6 <= i < 6 + j ==> #[trigger] packet@[i] == if 59 * k + (i - 6) < len {
                        payload@[59 * k + (i - 6)]
                    } else {
                        0u8
                    },
            decreases 59 - j,
        {
            let ghost before = packet@;
            if j < len - base {
                packet.push(payload[base + j]);
            } else {
                packet.push(0);
            }
            j = j + 1;
        }
        assert(packet@ =~= hid_packet(payload@, k as nat));
        packets.push(packet);
        k = k + 1;
    }
    packets
}

/// Where the reading of a response stands.
pub struct ReaderState {
    /// The bytes of the response read so far.
    pub result: Seq<u8>,
    /// The length the first frame announced, once it was read.
    pub expected: Option<nat>,
    /// The sequence number the next frame must carry.
    pub seq: u16,
}

impl ReaderState {
    /// Before the first frame nothing is read; after it the announced
    /// length is known and not yet reached.
    pub open spec fn wf(self) -> bool {
        if self.seq == 0 {
            self.result.len() == 0
        } else {
            self.expected matches Some(e) && self.result.len() < e
        }
    }
}

/// Why the reading of a response fails.
pub enum ReadFault {
    /// No byte came before the deadline.
    Timeout,
    /// The frame carries another channel.
    Channel,
    /// The frame carries another tag.
    Tag,
    /// The frame carries another sequence number than the one due.
    Sequence(u16, u16),
    /// The frame ends before its data begins.
    ShortRead(nat, nat),
    /// The response is not complete after the last sequence number.
    TooManyFrames,
}

/// What one frame does to the reading of a response. `n` is the number of
/// bytes of `packet` that were read. The result says whether the response
/// is complete.
pub open spec fn feed_frame(s: ReaderState, packet: Seq<u8>, n: nat) -> Result<
    (ReaderState, bool),
    ReadFault,
> {
    let channel = (packet[0] as int) * 256 + (packet[1] as int);
    let got = ((packet[3] as int) * 256 + (packet[4] as int)) as u16;
    if n == 0 {
        Err(ReadFault::Timeout)
    } else if channel != 0x0101 {
        Err(ReadFault::Channel)
    } else if packet[2] != 0x05 {
        Err(ReadFault::Tag)
    } else if got != s.seq {
        Err(ReadFault::Sequence(s.seq, got))
    } else {
        let expected: nat = if s.seq == 0 {
            ((packet[5] as int) * 256 + (packet[6] as int)) as nat
        } else {
            s.expected.unwrap()
        };
        let data_start: nat = if s.seq == 0 {
            7
        } else {
            5
        };
        if n < data_start {
            Err(ReadFault::ShortRead(n, data_start))
        } else {
            let remaining = expected - s.result.len();
            let available = n - data_start;
            let take = if remaining < available {
                remaining
            } else {
                available
            };
            let result = s.result + packet.subrange(data_start as int, data_start + take);
            if result.len() >= expected {
                Ok((ReaderState { result, expected: Some(expected), seq: s.seq }, true))
            } else if s.seq == 0xFFFF {
                Err(ReadFault::TooManyFrames)
            } else {
                Ok(
                    (
                        ReaderState { result, expected: Some(expected), seq: (s.seq + 1) as u16 },
                        false,
                    ),
                )
            }
        }
    }
}

/// The error that a fault is reported as.
pub open spec fn fault_matches(e: TransportError, f: ReadFault) -> bool {
    match f {
        ReadFault::Timeout => e == TransportError::Timeout(30_000),
        ReadFault::Channel => e matches TransportError::Comm(msg) && msg@
            == "HID channel mismatch"@,
        ReadFault::Tag => e matches TransportError::Comm(msg) && msg@ == "HID tag mismatch"@,
        ReadFault::Sequence(due, got) => e matches TransportError::Comm(msg) && msg@
            == "sequence mismatch: expected "@ + decimal(due as nat) + ", got "@ + decimal(
            got as nat,
        ),
        ReadFault::ShortRead(n, need) => e matches TransportError::Comm(msg) && msg@
            == "HID short read: got "@ + decimal(n) + " bytes, need at least "@ + decimal(need),
        ReadFault::TooManyFrames => e matches TransportError::Comm(msg) && msg@
            == "HID response has too many frames"@,
    }
}

/// Puts a response together from the frames read.
pub struct HidReader {
    result: Vec<u8>,
    expected: Option<usize>,
    seq: u16,
}

impl View for HidReader {
    type V = ReaderState;

    closed spec fn view(&self) -> ReaderState {
        ReaderState {
            result: self.result@,
            expected: match self.expected {
                Some(e) => Some(e as nat),
                None => None,
            },
            seq: self.seq,
        }
    }
}

impl HidReader {
    /// A reader that waits for the first frame.
    pub fn new() -> (reader: HidReader)
        ensures
            reader@ == (ReaderState { result: Seq::empty(), expected: None, seq: 0 }),
            reader@.wf(),
    {
        HidReader { result: Vec::new(), expected: None, seq: 0 }
    }

    /// Takes one frame: `packet` is the read buffer of 64 bytes, `n` the
    /// number of bytes the read put into it. Returns whether the response
    /// is complete.
    pub fn feed(&mut self, packet: &[u8], n: usize) -> (r: Result<bool, TransportError>)
        requires
            packet@.len() == 64,
            n <= 64,
            old(self)@.wf(),
        ensures
            match r {
                Ok(done) => feed_frame(old(self)@, packet@, n as nat) == Ok::<
                    (ReaderState, bool),
                    ReadFault,
                >((final(self)@, done)) && (!done ==> final(self)@.wf()),
                Err(e) => feed_frame(old(self)@, packet@, n as nat) matches Err(f) && fault_matches(
                    e,
                    f,
                ),
            },
    {
        if n == 0 {
            return Err(TransportError::Timeout(LEDGER_TIMEOUT_MS));
        }
        let channel: u16 = (packet[0] as u16) * 256 + (packet[1] as u16);
        if channel != LEDGER_CHANNEL {
            return Err(TransportError::Comm("HID channel mismatch".to_string()));
        }
        if packet[2] != LEDGER_TAG {
            return Err(TransportError::Comm("HID tag mismatch".to_string()));
        }
        let got: u16 = (packet[3] as u16) * 256 + (packet[4] as u16);
        if got != self.seq {
            let mut msg = "sequence mismatch: expected ".to_string();
            push_decimal(&mut msg, self.seq as u64);
            msg.append(", got ");
            push_decimal(&mut msg, got as u64);
            return Err(TransportError::Comm(msg));
        }
        let (expected, data_start): (usize, usize) = if self.seq == 0 {
            ((packet[5] as usize) * 256 + (packet[6] as usize), 7)
        } else {
            match self.expected {
                Some(e) => (e, 5),
                None => (0, 5),
            }
        };
        if n < data_start {
            let mut msg = "HID short read: got ".to_string();
            push_decimal(&mut msg, n as u64);
            msg.append(" bytes, need at least ");
            push_decimal(&mut msg, data_start as u64);
            return Err(TransportError::Comm(msg));
        }
        let remaining = expected - self.result.len();
        let available = n - data_start;
        let take = if remaining < available { remaining } else { available };
        self.result.extend_from_slice(
            vstd::slice::slice_subrange(packet, data_start, data_start + take),
        );
        self.expected = Some(expected);
        proof {
            let s = old(self)@;
            assert(got == ((packet@[3] as int) * 256 + (packet@[4] as int)) as u16);
            assert(expected as nat == if s.seq == 0 {
                ((packet@[5] as int) * 256 + (packet@[6] as int)) as nat
            } else {
                s.expected.unwrap()
            });
            assert(self.result@ == s.result + packet@.subrange(
                data_start as int,
                data_start + take,
            ));
        }
        if self.result.len() >= expected {
            return Ok(true);
        }
        if self.seq == 0xFFFF {
            return Err(TransportError::Comm("HID response has too many frames".to_string()));
        }
        self.seq = self.seq + 1;
        Ok(false)
    }

    /// The bytes of the response read so far.
    pub fn into_response(self) -> (raw: Vec<u8>)
        ensures
            raw@ == self@.result,
    {
        self.result
    }
}

} // verus!
