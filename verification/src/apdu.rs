//! Short-form command frames and response envelopes.
//!
//! A command is five header bytes (class, instruction, p1, p2, data length)
//! followed by at most 255 data bytes. A response is a payload followed by a
//! two-byte big-endian status word.

use vstd::prelude::*;

verus! {

/// The instructions the application understands.
#[derive(Debug, Clone, Copy, PartialEq, Eq, Structural)]
pub enum Instruction {
    GetVersion,
    VerifyAddress,
    GetPubkey,
    SignTx,
    Quit,
}

impl Instruction {
    /// The instruction byte on the wire.
    pub open spec fn spec_code(self) -> u8 {
        match self {
            Instruction::GetVersion => 0x00,
            Instruction::VerifyAddress => 0x01,
            Instruction::GetPubkey => 0x02,
            Instruction::SignTx => 0x03,
            Instruction::Quit => 0xFF,
        }
    }

    #[verifier::when_used_as_spec(spec_code)]
    pub fn code(self) -> (c: u8)
        ensures
            c == self.spec_code(),
    {
        match self {
            Instruction::GetVersion => 0x00,
            Instruction::VerifyAddress => 0x01,
            Instruction::GetPubkey => 0x02,
            Instruction::SignTx => 0x03,
            Instruction::Quit => 0xFF,
        }
    }
}

/// A short-form command.
#[derive(Debug, Clone)]
pub struct ApduCommand {
    pub cla: u8,
    pub ins: u8,
    pub p1: u8,
    pub p2: u8,
    pub data: Vec<u8>,
}

/// A command as a mathematical value.
pub struct CommandView {
    pub cla: u8,
    pub ins: u8,
    pub p1: u8,
    pub p2: u8,
    pub data: Seq<u8>,
}

impl View for ApduCommand {
    type V = CommandView;

    open spec fn view(&self) -> CommandView {
        CommandView { cla: self.cla, ins: self.ins, p1: self.p1, p2: self.p2, data: self.data@ }
    }
}

/// The frame of a command: header, length byte, data.
pub open spec fn frame_of(c: CommandView) -> Seq<u8> {
    seq![c.cla, c.ins, c.p1, c.p2, c.data.len() as u8] + c.data
}

/// The command that a frame holds, if the frame is well formed: at least
/// five bytes, and exactly as many data bytes as the length byte says.
pub open spec fn parse_frame(bytes: Seq<u8>) -> Option<CommandView> {
    if bytes.len() >= 5 && bytes.len() == 5 + bytes[4] as int {
        Some(
            CommandView {
                cla: bytes[0],
                ins: bytes[1],
                p1: bytes[2],
                p2: bytes[3],
                data: bytes.subrange(5, bytes.len() as int),
            },
        )
    } else {
        None
    }
}

/// Parsing the frame of a command whose data fits the length byte gives the
/// command back.
pub proof fn lemma_frame_round_trip(c: CommandView)
    requires
        c.data.len() <= 255,
    ensures
        parse_frame(frame_of(c)) == Some(c),
{
    let f = frame_of(c);
    assert(f.len() == 5 + c.data.len());
    assert(f[4] == c.data.len() as u8);
    assert(f.subrange(5, f.len() as int) =~= c.data);
}

impl ApduCommand {
    /// A command without data; class, p1 and p2 are zero.
    pub fn new(ins: u8) -> (c: ApduCommand)
        ensures
            c@ == (CommandView { cla: 0, ins, p1: 0, p2: 0, data: Seq::empty() }),
    {
        ApduCommand { cla: 0x00, ins, p1: 0x00, p2: 0x00, data: Vec::new() }
    }

    /// A command with the given data; class, p1 and p2 are zero.
    pub fn with_data(ins: u8, data: Vec<u8>) -> (c: ApduCommand)
        ensures
            c@ == (CommandView { cla: 0, ins, p1: 0, p2: 0, data: data@ }),
            c.data == data,
    {
        ApduCommand { cla: 0x00, ins, p1: 0x00, p2: 0x00, data }
    }

    /// Wire format: `[CLA][INS][P1][P2][LC][DATA]`. The data must fit the
    /// one-byte length field.
    pub fn serialize(&self) -> (buf: Vec<u8>)
        requires
            self.data@.len() <= 255,
        ensures
            buf@ == frame_of(self@),
            parse_frame(buf@) == Some(self@),
    {
        proof {
            lemma_frame_round_trip(self@);
        }
        let mut buf: Vec<u8> = Vec::with_capacity(5 + self.data.len());
        buf.push(self.cla);
        buf.push(self.ins);
        buf.push(self.p1);
        buf.push(self.p2);
        buf.push(self.data.len() as u8);
        buf.extend_from_slice(self.data.as_slice());
        assert(buf@ =~= frame_of(self@));
        buf
    }

    /// Reads a command back from its frame.
    pub fn deserialize(bytes: &[u8]) -> (r: Option<ApduCommand>)
        ensures
            match r {
                Some(c) => parse_frame(bytes@) == Some(c@),
                None => parse_frame(bytes@).is_none(),
            },
    {
        if bytes.len() < 5 {
            return None;
        }
        let n: usize = bytes[4] as usize;
        if bytes.len() - 5 != n {
            return None;
        }
        let data = vstd::slice::slice_to_vec(vstd::slice::slice_subrange(bytes, 5, bytes.len()));
        Some(ApduCommand { cla: bytes[0], ins: bytes[1], p1: bytes[2], p2: bytes[3], data })
    }
}

/// A response: the last two bytes are the status word, everything before
/// them is the payload.
#[derive(Debug, Clone)]
pub struct ApduAnswer {
    raw: Vec<u8>,
}

/// The status word of a raw response: its last two bytes, big-endian; zero
/// where the response has fewer than two bytes.
pub open spec fn status_of(raw: Seq<u8>) -> u16 {
    if raw.len() < 2 {
        0
    } else {
        (raw[raw.len() - 2] as int * 256 + raw[raw.len() - 1] as int) as u16
    }
}

/// The payload of a raw response: all but its last two bytes; empty where
/// the response has fewer than two bytes.
pub open spec fn payload_of(raw: Seq<u8>) -> Seq<u8> {
    if raw.len() < 2 {
        Seq::empty()
    } else {
        raw.subrange(0, raw.len() - 2)
    }
}

impl View for ApduAnswer {
    type V = Seq<u8>;

    closed spec fn view(&self) -> Seq<u8> {
        self.raw@
    }
}

impl ApduAnswer {
    pub fn from_raw(raw: Vec<u8>) -> (a: ApduAnswer)
        ensures
            a@ == raw@,
    {
        ApduAnswer { raw }
    }

    /// The trailing status word, or zero if there is none.
    pub fn retcode(&self) -> (code: u16)
        ensures
            code == status_of(self@),
    {
        if self.raw.len() < 2 {
            return 0;
        }
        let len = self.raw.len();
        let hi: u16 = self.raw[len - 2] as u16;
        let lo: u16 = self.raw[len - 1] as u16;
        hi * 256 + lo
    }

    /// The payload, without the trailing status word.
    pub fn data(&self) -> (payload: &[u8])
        ensures
            payload@ == payload_of(self@),
    {
        if self.raw.len() < 2 {
            let empty = vstd::slice::slice_subrange(self.raw.as_slice(), 0, 0);
            assert(empty@ =~= Seq::<u8>::empty());
            return empty;
        }
        vstd::slice::slice_subrange(self.raw.as_slice(), 0, self.raw.len() - 2)
    }
}

} // verus!
