//! Block protocol for handing large payloads to the device.
//!
//! Each payload is split into 180-byte blocks linked by SHA-256 digests. The
//! host announces the digest of each first block, then serves the device's
//! requests until the device yields a final result.

pub mod chunks;

use crate::apdu::{payload_of, status_of, ApduAnswer, ApduCommand, Instruction};
use crate::error::{status_error, ErrorView, LedgerError, StatusWord};
use crate::text::{push_upper_hex, upper_hex_byte};
use crate::transport::Transport;
use crate::wire::array_32;
use chunks::{blocks_view, build_block_chain, chain_of, hash_block, sha256, sha256_digest, BlockView};
use vstd::prelude::*;
use vstd::string::*;

verus! {

/// Tag of the host's first message.
pub const HOST_START: u8 = 0x00;

/// Tag of the host's answer to a block request it can serve.
pub const HOST_GET_CHUNK_SUCCESS: u8 = 0x01;

/// Tag of the host's answer to a block request it cannot serve.
pub const HOST_GET_CHUNK_FAILURE: u8 = 0x02;

/// Tag of the host's acknowledgement of pushed data.
pub const HOST_PUT_CHUNK_ACK: u8 = 0x03;

/// Tag of the host's acknowledgement of a partial result.
pub const HOST_RESULT_ACK: u8 = 0x04;

/// Tag of a partial result from the device.
pub const DEVICE_RESULT_ACCUMULATING: u8 = 0x00;

/// Tag of the last part of the result from the device.
pub const DEVICE_RESULT_FINAL: u8 = 0x01;

/// Tag of a block request from the device.
pub const DEVICE_GET_CHUNK: u8 = 0x02;

/// Tag of data pushed by the device.
pub const DEVICE_PUT_CHUNK: u8 = 0x03;

/// Most exchanges one run of the protocol makes before it gives up.
pub const MAX_EXCHANGES: u64 = 0xFFFF_FFFF_FFFF_FFFF;

struct IndexEntry {
    hash: [u8; 32],
    bytes: Vec<u8>,
}

/// Byte strings filed under 32-byte digests. Filing under a digest that is
/// already there replaces what was filed before.
pub struct HashIndex {
    entries: Vec<IndexEntry>,
}

spec fn entries_map(s: Seq<IndexEntry>) -> Map<Seq<u8>, Seq<u8>>
    decreases s.len(),
{
    if s.len() == 0 {
        Map::empty()
    } else {
        entries_map(s.drop_last()).insert(s.last().hash@, s.last().bytes@)
    }
}

proof fn lemma_entries_absent(s: Seq<IndexEntry>, k: Seq<u8>)
    requires
        forall|j: int| 0 <= j < s.len() ==> (#[trigger] s[j]).hash@ != k,
    ensures
        !entries_map(s).contains_key(k),
    decreases s.len(),
{
    if s.len() > 0 {
        lemma_entries_absent(s.drop_last(), k);
        assert(s.last() == s[s.len() - 1]);
    }
}

proof fn lemma_entries_found(s: Seq<IndexEntry>, i: int, k: Seq<u8>)
    requires
        0 <= i < s.len(),
        s[i].hash@ == k,
        forall|j: int| i < j < s.len() ==> (#[trigger] s[j]).hash@ != k,
    ensures
        entries_map(s).contains_key(k),
        entries_map(s)[k] == s[i].bytes@,
    decreases s.len(),
{
    if i < s.len() - 1 {
        lemma_entries_found(s.drop_last(), i, k);
        assert(s.last() == s[s.len() - 1]);
    }
}

fn digest_eq(a: &[u8; 32], b: &[u8; 32]) -> (same: bool)
    ensures
        same == (a@ == b@),
{
    let mut i: usize = 0;
    while i < 32
        invariant
            i <= 32,
            forall|j: int| 0 <= j < i ==> a@[j] == b@[j],
        decreases 32 - i,
    {
        if a[i] != b[i] {
            return false;
        }
        i = i + 1;
    }
    assert(a@ =~= b@);
    true
}

impl View for HashIndex {
    type V = Map<Seq<u8>, Seq<u8>>;

    closed spec fn view(&self) -> Map<Seq<u8>, Seq<u8>> {
        entries_map(self.entries@)
    }
}

impl HashIndex {
    pub fn new() -> (index: HashIndex)
        ensures
            index@ == Map::<Seq<u8>, Seq<u8>>::empty(),
    {
        HashIndex { entries: Vec::new() }
    }

    /// Files `bytes` under `hash`.
    pub fn insert(&mut self, hash: [u8; 32], bytes: Vec<u8>)
        ensures
            final(self)@ == old(self)@.insert(hash@, bytes@),
    {
        self.entries.push(IndexEntry { hash, bytes });
        assert(self.entries@.drop_last() =~= old(self).entries@);
    }

    /// What is filed under `hash`, if anything.
    pub fn get(&self, hash: &[u8; 32]) -> (found: Option<&Vec<u8>>)
        ensures
            match found {
                Some(bytes) => self@.contains_key(hash@) && self@[hash@] == bytes@,
                None => !self@.contains_key(hash@),
            },
    {
        let mut i: usize = self.entries.len();
        while i > 0
            invariant
                i <= self.entries@.len(),
                forall|j: int| i <= j < self.entries@.len() ==> (#[trigger] self.entries@[j]).hash@ != hash@,
            decreases i,
        {
            i = i - 1;
            if digest_eq(&self.entries[i].hash, hash) {
                proof {
                    lemma_entries_found(self.entries@, i as int, hash@);
                }
                return Some(&self.entries[i].bytes);
            }
        }
        proof {
            lemma_entries_absent(self.entries@, hash@);
        }
        None
    }
}

/// The payloads of a parameter list as mathematical values.
pub open spec fn params_view(params: Seq<Vec<u8>>) -> Seq<Seq<u8>> {
    Seq::new(params.len(), |i: int| params[i]@)
}

/// `index` with every block of `chain` filed under its digest.
pub open spec fn index_chain(index: Map<Seq<u8>, Seq<u8>>, chain: Seq<BlockView>) -> Map<
    Seq<u8>,
    Seq<u8>,
>
    decreases chain.len(),
{
    if chain.len() == 0 {
        index
    } else {
        index_chain(index, chain.drop_last()).insert(chain.last().hash(), chain.last().wire())
    }
}

/// The serialized blocks of the chains of all parameters, by digest.
pub open spec fn index_of(params: Seq<Seq<u8>>) -> Map<Seq<u8>, Seq<u8>>
    decreases params.len(),
{
    if params.len() == 0 {
        Map::empty()
    } else {
        index_chain(index_of(params.drop_last()), chain_of(params.last()))
    }
}

/// Filing a chain keeps every digest that was there and adds the digest of
/// each of its blocks.
pub proof fn lemma_index_chain_keys(index: Map<Seq<u8>, Seq<u8>>, chain: Seq<BlockView>)
    ensures
        forall|k: Seq<u8>| index.contains_key(k) ==> #[trigger] index_chain(index, chain).contains_key(k),
        forall|j: int|
            0 <= j < chain.len() ==> index_chain(index, chain).contains_key(
                (#[trigger] chain[j]).hash(),
            ),
    decreases chain.len(),
{
    if chain.len() > 0 {
        let before = index_chain(index, chain.drop_last());
        lemma_index_chain_keys(index, chain.drop_last());
        assert(index_chain(index, chain) == before.insert(
            chain.last().hash(),
            chain.last().wire(),
        ));
        assert forall|k: Seq<u8>| index.contains_key(k) implies #[trigger] index_chain(
            index,
            chain,
        ).contains_key(k) by {
            assert(before.contains_key(k));
        }
        assert forall|j: int| 0 <= j < chain.len() implies index_chain(index, chain).contains_key(
            (#[trigger] chain[j]).hash(),
        ) by {
            if j < chain.len() - 1 {
                assert(chain.drop_last()[j] == chain[j]);
                assert(before.contains_key(chain.drop_last()[j].hash()));
            }
        }
    }
}

/// The index of a parameter list holds every block of every parameter's
/// chain: whatever block the device asks for by its digest, the host has
/// one to serve.
pub proof fn lemma_index_holds_blocks(params: Seq<Seq<u8>>, i: int, j: int)
    requires
        0 <= i < params.len(),
        0 <= j < chain_of(params[i]).len(),
    ensures
        index_of(params).contains_key(chain_of(params[i])[j].hash()),
    decreases params.len(),
{
    let rest = params.drop_last();
    lemma_index_chain_keys(index_of(rest), chain_of(params.last()));
    if i < params.len() - 1 {
        assert(rest[i] == params[i]);
        lemma_index_holds_blocks(rest, i, j);
    }
}

/// The digests of the first blocks of the parameters' chains, in order.
pub open spec fn head_hashes(params: Seq<Seq<u8>>) -> Seq<u8>
    decreases params.len(),
{
    if params.len() == 0 {
        Seq::empty()
    } else {
        head_hashes(params.drop_last()) + chain_of(params.last())[0].hash()
    }
}

/// The data of the host's first message: the start tag, then the head
/// digests.
pub open spec fn start_message(params: Seq<Seq<u8>>) -> Seq<u8> {
    seq![0x00u8] + head_hashes(params)
}

/// Why a run of the protocol stops with an error.
pub enum Failure {
    /// Empty payload under a status word that is neither absent nor success.
    Status(u16),
    /// Empty payload under an absent or success status word.
    EmptyResponse,
    /// A block request without a whole digest.
    ShortRequest,
    /// A message with a tag the protocol does not know.
    UnknownTag(u8),
}

/// What the host does next.
pub enum ActionView {
    /// The result is complete.
    Finish,
    /// Send this data and read the next response.
    Send(Seq<u8>),
    /// Stop with an error.
    Fail(Failure),
}

/// The host's reaction to the raw response `raw`, given the block index and
/// what the device has pushed so far.
pub open spec fn action_for(
    index: Map<Seq<u8>, Seq<u8>>,
    puts: Map<Seq<u8>, Seq<u8>>,
    raw: Seq<u8>,
) -> ActionView {
    let data = payload_of(raw);
    let code = status_of(raw);
    if data.len() == 0 {
        if code != 0 && code != 0x9000 {
            ActionView::Fail(Failure::Status(code))
        } else {
            ActionView::Fail(Failure::EmptyResponse)
        }
    } else if data[0] == 0x01 {
        ActionView::Finish
    } else if data[0] == 0x00 {
        ActionView::Send(seq![0x04u8])
    } else if data[0] == 0x02 {
        if data.len() < 33 {
            ActionView::Fail(Failure::ShortRequest)
        } else {
            let hash = data.subrange(1, 33);
            if index.contains_key(hash) {
                ActionView::Send(seq![0x01u8] + index[hash])
            } else if puts.contains_key(hash) {
                ActionView::Send(seq![0x01u8] + puts[hash])
            } else {
                ActionView::Send(seq![0x02u8])
            }
        }
    } else if data[0] == 0x03 {
        ActionView::Send(seq![0x03u8])
    } else {
        ActionView::Fail(Failure::UnknownTag(data[0]))
    }
}

/// The result buffer after the raw response `raw`: both kinds of result
/// message append what follows their tag.
pub open spec fn result_after(result: Seq<u8>, raw: Seq<u8>) -> Seq<u8> {
    let data = payload_of(raw);
    if data.len() > 0 && (data[0] == 0x00 || data[0] == 0x01) {
        result + data.skip(1)
    } else {
        result
    }
}

/// What the device has pushed, after the raw response `raw`: pushed data is
/// filed under the SHA-256 of the data itself.
pub open spec fn puts_after(puts: Map<Seq<u8>, Seq<u8>>, raw: Seq<u8>) -> Map<Seq<u8>, Seq<u8>> {
    let data = payload_of(raw);
    if data.len() > 0 && data[0] == 0x03 {
        puts.insert(sha256_digest(data.skip(1)), data.skip(1))
    } else {
        puts
    }
}

/// The error that a failure is reported as.
pub open spec fn failure_matches(e: ErrorView, f: Failure) -> bool {
    match f {
        Failure::Status(code) => e == status_error(code),
        Failure::EmptyResponse => e == ErrorView::BlockProtocol("empty response"@),
        Failure::ShortRequest => e == ErrorView::BlockProtocol("GET_CHUNK response too short"@),
        Failure::UnknownTag(tag) => e == ErrorView::BlockProtocol(
            "unknown device message type: 0x"@ + upper_hex_byte(tag),
        ),
    }
}

/// What the host does next, as a value to act on.
#[derive(Debug)]
pub enum Action {
    Finish,
    Send(Vec<u8>),
    Fail(LedgerError),
}

impl Action {
    /// Whether this action carries out `v`.
    pub open spec fn matches_view(self, v: ActionView) -> bool {
        match v {
            ActionView::Finish => self is Finish,
            ActionView::Send(data) => self matches Action::Send(d) && d@ == data,
            ActionView::Fail(f) => self matches Action::Fail(e) && failure_matches(e@, f),
        }
    }
}

/// The host's side of one run of the protocol: the index of the blocks it
/// offers, the data the device has pushed, and the result received so far.
pub struct Session {
    index: HashIndex,
    puts: HashIndex,
    result: Vec<u8>,
}

impl Session {
    /// The serialized blocks the host offers, by digest.
    pub closed spec fn index(&self) -> Map<Seq<u8>, Seq<u8>> {
        self.index@
    }

    /// The data the device has pushed, by digest.
    pub closed spec fn puts(&self) -> Map<Seq<u8>, Seq<u8>> {
        self.puts@
    }

    /// The result received so far.
    pub closed spec fn result(&self) -> Seq<u8> {
        self.result@
    }

    /// Builds the block chains of `params` and files every block under its
    /// digest. Returns the session and the data of the first message.
    pub fn start(params: &[Vec<u8>]) -> (r: (Session, Vec<u8>))
        ensures
            r.0.index() == index_of(params_view(params@)),
            r.0.puts() == Map::<Seq<u8>, Seq<u8>>::empty(),
            r.0.result() == Seq::<u8>::empty(),
            r.1@ == start_message(params_view(params@)),
    {
        let mut index = HashIndex::new();
        let mut start_data: Vec<u8> = Vec::new();
        start_data.push(HOST_START);
        let ghost pv = params_view(params@);
        let mut i: usize = 0;
        while i < params.len()
            invariant
                i <= params@.len(),
                pv == params_view(params@),
                index@ == index_of(pv.take(i as int)),
                start_data@ == start_message(pv.take(i as int)),
            decreases params@.len() - i,
        {
            let blocks = build_block_chain(params[i].as_slice());
            let ghost chain = chain_of(params@[i as int]@);
            let ghost before = index@;
            proof {
                assert(pv.take(i as int + 1).drop_last() =~= pv.take(i as int));
                assert(pv.take(i as int + 1).last() == params@[i as int]@);
                assert(chain.len() >= 1);
                assert(blocks_view(blocks@).len() == blocks@.len());
                assert(blocks_view(blocks@)[0] == blocks@[0]@);
            }
            let head = hash_block(&blocks[0]);
            start_data.extend_from_slice(head.as_slice());
            let mut j: usize = 0;
            while j < blocks.len()
                invariant
                    j <= blocks@.len(),
                    blocks_view(blocks@) == chain,
                    index@ == index_chain(before, chain.take(j as int)),
                decreases blocks@.len() - j,
            {
                proof {
                    assert(chain.take(j as int + 1).drop_last() =~= chain.take(j as int));
                    assert(chain.take(j as int + 1).last() == chain[j as int]);
                    assert(blocks_view(blocks@)[j as int] == blocks@[j as int]@);
                }
                let h = hash_block(&blocks[j]);
                let bytes = blocks[j].serialize();
                index.insert(h, bytes);
                j = j + 1;
            }
            proof {
                assert(chain.take(blocks@.len() as int) =~= chain);
                assert(start_data@ =~= start_message(pv.take(i as int + 1)));
            }
            i = i + 1;
        }
        proof {
            assert(pv.take(params@.len() as int) =~= pv);
        }
        (Session { index, puts: HashIndex::new(), result: Vec::new() }, start_data)
    }

    /// Takes one response of the device and says what the host does next.
    /// A result message extends the result; pushed data is filed; a block
    /// request is answered from the block index first, then from the pushed
    /// data.
    pub fn step(&mut self, answer: &ApduAnswer) -> (action: Action)
        ensures
            action.matches_view(action_for(old(self).index(), old(self).puts(), answer@)),
            final(self).index() == old(self).index(),
            final(self).puts() == puts_after(old(self).puts(), answer@),
            final(self).result() == result_after(old(self).result(), answer@),
    {
        let data = answer.data();
        if data.len() == 0 {
            let code = answer.retcode();
            if code != 0 && !StatusWord::is_success(code) {
                return Action::Fail(LedgerError::from_status(code));
            }
            return Action::Fail(LedgerError::BlockProtocol("empty response".to_string()));
        }
        let tag = data[0];
        if tag == DEVICE_RESULT_FINAL {
            let rest = vstd::slice::slice_subrange(data, 1, data.len());
            self.result.extend_from_slice(rest);
            Action::Finish
        } else if tag == DEVICE_RESULT_ACCUMULATING {
            let rest = vstd::slice::slice_subrange(data, 1, data.len());
            self.result.extend_from_slice(rest);
            let mut ack: Vec<u8> = Vec::new();
            ack.push(HOST_RESULT_ACK);
            assert(ack@ =~= seq![0x04u8]);
            Action::Send(ack)
        } else if tag == DEVICE_GET_CHUNK {
            if data.len() < 33 {
                return Action::Fail(
                    LedgerError::BlockProtocol("GET_CHUNK response too short".to_string()),
                );
            }
            let hash = array_32(data, 1);
            let mut reply: Vec<u8> = Vec::new();
            match self.index.get(&hash) {
                Some(bytes) => {
                    reply.push(HOST_GET_CHUNK_SUCCESS);
                    reply.extend_from_slice(bytes.as_slice());
                    assert(reply@ =~= seq![0x01u8] + bytes@);
                },
                None => match self.puts.get(&hash) {
                    Some(stored) => {
                        reply.push(HOST_GET_CHUNK_SUCCESS);
                        reply.extend_from_slice(stored.as_slice());
                        assert(reply@ =~= seq![0x01u8] + stored@);
                    },
                    None => {
                        reply.push(HOST_GET_CHUNK_FAILURE);
                        assert(reply@ =~= seq![0x02u8]);
                    },
                },
            }
            Action::Send(reply)
        } else if tag == DEVICE_PUT_CHUNK {
            let rest = vstd::slice::slice_subrange(data, 1, data.len());
            let chunk = vstd::slice::slice_to_vec(rest);
            assert(chunk@ =~= data@.skip(1));
            let hash = sha256(chunk.as_slice());
            self.puts.insert(hash, chunk);
            let mut ack: Vec<u8> = Vec::new();
            ack.push(HOST_PUT_CHUNK_ACK);
            assert(ack@ =~= seq![0x03u8]);
            Action::Send(ack)
        } else {
            let mut msg = "unknown device message type: 0x".to_string();
            push_upper_hex(&mut msg, tag);
            Action::Fail(LedgerError::BlockProtocol(msg))
        }
    }

    /// Ends the session and hands out the result.
    pub fn into_result(self) -> (result: Vec<u8>)
        ensures
            result@ == self.result(),
    {
        self.result
    }
}

/// The pushed data and the result after the responses `seen`, each of which
/// the host answered by sending on; nothing where one of them ended the
/// run.
pub open spec fn state_after(index: Map<Seq<u8>, Seq<u8>>, seen: Seq<Seq<u8>>) -> Option<
    (Map<Seq<u8>, Seq<u8>>, Seq<u8>),
>
    decreases seen.len(),
{
    if seen.len() == 0 {
        Some((Map::empty(), Seq::empty()))
    } else {
        match state_after(index, seen.drop_last()) {
            Some((puts, result)) => if action_for(index, puts, seen.last()) is Send {
                Some((puts_after(puts, seen.last()), result_after(result, seen.last())))
            } else {
                None
            },
            None => None,
        }
    }
}

/// How a run ends that receives exactly the responses `seen`: with the
/// result, where the last of them completes it; with a failure, where the
/// last of them is one; nothing where the run ended earlier or is not over.
pub open spec fn outcome(index: Map<Seq<u8>, Seq<u8>>, seen: Seq<Seq<u8>>) -> Option<
    Result<Seq<u8>, Failure>,
>
    recommends
        seen.len() > 0,
{
    if seen.len() == 0 {
        None
    } else {
        match state_after(index, seen.drop_last()) {
            Some((puts, result)) => match action_for(index, puts, seen.last()) {
                ActionView::Finish => Some(Ok(result_after(result, seen.last()))),
                ActionView::Fail(f) => Some(Err(f)),
                ActionView::Send(_) => None,
            },
            None => None,
        }
    }
}

/// The failures that occur: a status word is reported only where it is
/// neither absent nor success, and a tag only where the protocol does not
/// know it.
pub open spec fn occurs(f: Failure) -> bool {
    match f {
        Failure::Status(code) => code != 0 && code != 0x9000,
        Failure::UnknownTag(tag) => tag > 3,
        _ => true,
    }
}

/// A run ends with a failure only where that failure occurs.
pub proof fn lemma_outcome_failure(index: Map<Seq<u8>, Seq<u8>>, seen: Seq<Seq<u8>>, f: Failure)
    requires
        outcome(index, seen) == Some(Err::<Seq<u8>, Failure>(f)),
    ensures
        occurs(f),
{
}

/// A result is one of the protocol when some sequence of responses ends
/// with it. Which responses come is the device's business, so this alone
/// rules out no result: what each response does is in `action_for`,
/// `result_after` and `puts_after`.
pub open spec fn yields(params: Seq<Seq<u8>>, result: Seq<u8>) -> bool {
    exists|seen: Seq<Seq<u8>>|
        (#[trigger] outcome(index_of(params), seen)) == Some(Ok::<Seq<u8>, Failure>(result))
}

/// An error is one of the protocol when some sequence of responses ends
/// with the failure it reports.
pub open spec fn fails_with(params: Seq<Seq<u8>>, e: ErrorView) -> bool {
    exists|seen: Seq<Seq<u8>>|
        (#[trigger] outcome(index_of(params), seen)) matches Some(Err(f)) && failure_matches(e, f)
}

/// The errors a run for `params` can end with: an error of the transport,
/// the failure that some sequence of responses ends with, or the limit on
/// exchanges.
pub open spec fn run_error(params: Seq<Seq<u8>>, e: ErrorView) -> bool {
    e is Transport || e == ErrorView::BlockProtocol("exchange limit reached"@) || fails_with(
        params,
        e,
    )
}

/// Whether a run of the protocol can end with this error: an error of the
/// transport, the error of a status word, or a violation of the protocol.
pub open spec fn protocol_error(e: ErrorView) -> bool {
    e is Transport || e is BlockProtocol || exists|code: u16| e == status_error(code)
}

/// Sends one command with `data` and returns the response, whatever its
/// status word: the protocol's flow is in the tag bytes.
fn send_apdu(transport: &dyn Transport, ins: Instruction, data: Vec<u8>) -> (r: Result<
    ApduAnswer,
    LedgerError,
>)
    ensures
        r matches Err(e) ==> e@ is Transport,
{
    let cmd = ApduCommand::with_data(ins.code(), data);
    match transport.exchange(&cmd) {
        Ok(answer) => Ok(answer),
        Err(e) => Err(LedgerError::Transport(e)),
    }
}

/// Runs the block protocol for an instruction.
///
/// Sends the start message for `params`, then reacts to each response as
/// `Session::step` says, until the device sends the last part of the result
/// or an error stops the run. What comes back is what the responses
/// received add up to: a result that they complete, the failure that the
/// last of them is, or the error of the transport. The run also stops,
/// with a protocol error, after `MAX_EXCHANGES` exchanges.
pub fn execute(transport: &dyn Transport, ins: Instruction, params: &[Vec<u8>]) -> (r: Result<
    Vec<u8>,
    LedgerError,
>)
    ensures
        match r {
            Ok(result) => yields(params_view(params@), result@),
            Err(e) => protocol_error(e@) && run_error(params_view(params@), e@),
        },
{
    let (mut session, start_data) = Session::start(params);
    let ghost index = index_of(params_view(params@));
    let mut response = match send_apdu(transport, ins, start_data) {
        Ok(answer) => answer,
        Err(e) => {
            return Err(e);
        },
    };
    let ghost seen: Seq<Seq<u8>> = Seq::empty();
    let mut left: u64 = MAX_EXCHANGES;
    while left > 0
        invariant
            index == index_of(params_view(params@)),
            session.index() == index,
            state_after(index, seen) == Some((session.puts(), session.result())),
        decreases left,
    {
        left = left - 1;
        let ghost next = seen.push(response@);
        proof {
            assert(next.drop_last() =~= seen);
            assert(next.last() == response@);
        }
        match session.step(&response) {
            Action::Finish => {
                let result = session.into_result();
                proof {
                    assert(outcome(index, next) == Some(Ok::<Seq<u8>, Failure>(result@)));
                }
                return Ok(result);
            },
            Action::Send(reply) => {
                proof {
                    seen = next;
                }
                response = match send_apdu(transport, ins, reply) {
                    Ok(answer) => answer,
                    Err(e) => {
                        return Err(e);
                    },
                };
            },
            Action::Fail(e) => {
                proof {
                    let f = action_for(index, session.puts(), response@)->Fail_0;
                    assert(outcome(index, next) == Some(Err::<Seq<u8>, Failure>(f)));
                    assert(failure_matches(e@, f));
                    lemma_failure_is_protocol_error(e@, f);
                }
                return Err(e);
            },
        }
    }
    Err(LedgerError::BlockProtocol("exchange limit reached".to_string()))
}

/// The error of a failure is one a run can end with.
proof fn lemma_failure_is_protocol_error(e: ErrorView, f: Failure)
    requires
        failure_matches(e, f),
    ensures
        protocol_error(e),
{
    match f {
        Failure::Status(code) => {
            assert(e == status_error(code));
        },
        _ => {},
    }
}

} // verus!
