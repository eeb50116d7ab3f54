//! CMSIS-DAP command frames and the response state machine of the bulk
//! endpoint pair.
//!
//! A request packet is a run of command frames `{opcode, payload}` without
//! length prefixes; the shape of each frame follows from its opcode. Each
//! recognised frame adds a reply frame `{status, length, payload}` to the
//! response. Decoding stops at the first frame that is not recognised or that
//! is cut short by the end of the packet. A response that would not fit in
//! its buffer is an overflow: the packet gets no response at all.
use vstd::prelude::*;

use crate::bytes::{lemma_written_then_written, put_bytes, written};
use vstd::slice::slice_subrange;

use crate::swdio::{SwdIo, SwdIoConfig, SwdRequest};

verus! {

/// Opcode of `DAP_Info`.
pub const DAP_INFO: u8 = 0x00;

/// Status byte of a successful reply.
pub const DAP_OK: u8 = 0x00;

/// Capacity of the response buffer: one full-speed bulk packet.
pub const RESPONSE_BUFFER_SIZE: usize = 64;

/// Canned value of a `DAP_Info` sub-ID; empty for an ID the probe does not
/// define.
pub open spec fn info_value(id: u8) -> Seq<u8> {
    if id == 0x01 {
        // "vendor"
        seq![0x76u8, 0x65, 0x6e, 0x64, 0x6f, 0x72]
    } else if id == 0x02 {
        // "product"
        seq![0x70u8, 0x72, 0x6f, 0x64, 0x75, 0x63, 0x74]
    } else if id == 0x03 {
        // "serial"
        seq![0x73u8, 0x65, 0x72, 0x69, 0x61, 0x6c]
    } else if id == 0x04 {
        // CMSIS-DAP protocol version "2.0.0"
        seq![0x32u8, 0x2e, 0x30, 0x2e, 0x30]
    } else if id == 0x09 {
        // firmware version "1.0.0"
        seq![0x31u8, 0x2e, 0x30, 0x2e, 0x30]
    } else if id == 0xf0 {
        // capabilities: SWD only
        seq![0x01u8, 0x00]
    } else if id == 0xfe {
        // packet count
        seq![0x01u8]
    } else if id == 0xff {
        // packet size, 64 little-endian
        seq![64u8, 0]
    } else {
        Seq::empty()
    }
}

/// Reply frame of `DAP_Info` for sub-ID `id`.
pub open spec fn info_frame(id: u8) -> Seq<u8> {
    seq![DAP_OK, info_value(id).len() as u8] + info_value(id)
}

/// The reply frames to the command frames of `request`, up to the first
/// frame that is not recognised or is cut short.
pub open spec fn replies(request: Seq<u8>) -> Seq<u8>
    decreases request.len(),
{
    if request.len() >= 2 && request[0] == DAP_INFO {
        info_frame(request[1]) + replies(request.subrange(2, request.len() as int))
    } else {
        Seq::empty()
    }
}

/// The response to `request`, or `None` when it overflows one packet.
pub open spec fn response_to(request: Seq<u8>) -> Option<Seq<u8>> {
    if replies(request).len() <= RESPONSE_BUFFER_SIZE {
        Some(replies(request))
    } else {
        None
    }
}

/// Status byte of a reply frame.
pub open spec fn frame_status(frame: Seq<u8>) -> u8 {
    frame[0]
}

/// Payload of a reply frame, as its length byte delimits it.
pub open spec fn frame_payload(frame: Seq<u8>) -> Seq<u8> {
    frame.subrange(2, 2 + frame[1] as int)
}

proof fn lemma_info_value_len(id: u8)
    ensures
        info_value(id).len() <= 7,
        info_frame(id).len() == 2 + info_value(id).len(),
{
}

/// Encoding a `DAP_Info` request and decoding its reply gives back the canned
/// value of the sub-ID with status 0; a sub-ID without a value gives an empty
/// payload, still with status 0.
pub proof fn lemma_info_round_trip(id: u8)
    ensures
        response_to(seq![DAP_INFO, id]) == Some(info_frame(id)),
        frame_status(info_frame(id)) == DAP_OK,
        frame_payload(info_frame(id)) == info_value(id),
        info_value(id).len() == 0 ==> frame_payload(info_frame(id)).len() == 0,
{
    let req = seq![DAP_INFO, id];
    lemma_info_value_len(id);
    assert(req.subrange(2, 2) =~= Seq::<u8>::empty());
    assert(replies(req.subrange(2, 2)) == Seq::<u8>::empty());
    assert(replies(req) =~= info_frame(id));
    assert(frame_payload(info_frame(id)) =~= info_value(id));
}

/// The canned value of `DAP_Info` sub-ID `id`.
pub fn dap_info_value(id: u8) -> (r: Vec<u8>)
    ensures
        r@ == info_value(id),
{
    let r = match id {
        0x01 => vec![0x76u8, 0x65, 0x6e, 0x64, 0x6f, 0x72],
        0x02 => vec![0x70u8, 0x72, 0x6f, 0x64, 0x75, 0x63, 0x74],
        0x03 => vec![0x73u8, 0x65, 0x72, 0x69, 0x61, 0x6c],
        0x04 => vec![0x32u8, 0x2e, 0x30, 0x2e, 0x30],
        0x09 => vec![0x31u8, 0x2e, 0x30, 0x2e, 0x30],
        0xf0 => vec![0x01u8, 0x00],
        0xfe => vec![0x01u8],
        0xff => vec![64u8, 0],
        _ => Vec::new(),
    };
    assert(r@ =~= info_value(id));
    r
}

/// The response to a packet did not fit in its buffer.
#[derive(Clone, Copy, Debug, PartialEq, Eq, Structural)]
pub enum ResponseError {
    BufferOverflow,
}

/// The length of the replies to `request`, if it is at most `limit`.
fn replies_length(request: &[u8], limit: usize) -> (r: Option<usize>)
    ensures
        r is Some <==> replies(request@).len() <= limit,
        r is Some ==> r->Some_0 == replies(request@).len(),
{
    let len = request.len();
    let mut pos: usize = 0;
    let mut total: usize = 0;
    assert(request@.subrange(0, len as int) =~= request@);
    while len - pos >= 2 && request[pos] == DAP_INFO
        invariant
            len == request@.len(),
            pos <= len,
            total <= limit,
            replies(request@).len() == total + replies(request@.subrange(pos as int, len as int)).len(),
        decreases len - pos,
    {
        let ghost rest = request@.subrange(pos as int, len as int);
        assert(rest[0] == request[pos as int]);
        assert(rest[1] == request[pos + 1]);
        assert(rest.subrange(2, rest.len() as int) =~= request@.subrange(pos + 2, len as int));
        let value = dap_info_value(request[pos + 1]);
        proof {
            lemma_info_value_len(request[pos + 1]);
        }
        let frame_len = 2 + value.len();
        if limit - total < frame_len {
            return None;
        }
        total = total + frame_len;
        pos = pos + 2;
    }
    Some(total)
}

/// Decodes the command frames of `request` and writes their replies at the
/// start of `response`. Fails, leaving `response` as it was, when the replies
/// do not fit in it.
pub fn build_response(request: &[u8], response: &mut [u8]) -> (r: Result<usize, ResponseError>)
    ensures
        r is Ok <==> replies(request@).len() <= old(response)@.len(),
        r is Ok ==> r == Ok::<usize, ResponseError>(replies(request@).len() as usize)
            && final(response)@ == written(old(response)@, 0, replies(request@)),
        r is Err ==> r == Err::<usize, ResponseError>(ResponseError::BufferOverflow)
            && final(response)@ == old(response)@,
{
    let room = response.len();
    if replies_length(request, room).is_none() {
        return Err(ResponseError::BufferOverflow);
    }
    let ghost s = response@;
    let ghost all = replies(request@);
    let len = request.len();
    let mut pos: usize = 0;
    let mut out: usize = 0;
    proof {
        assert(request@.subrange(0, len as int) =~= request@);
        assert(all.subrange(0, 0) =~= Seq::<u8>::empty());
        assert(response@ =~= written(s, 0, all.subrange(0, 0)));
    }
    while len - pos >= 2 && request[pos] == DAP_INFO
        invariant
            len == request@.len(),
            room == s.len(),
            response@.len() == s.len(),
            pos <= len,
            all == replies(request@),
            all.len() <= room,
            out <= all.len(),
            all == all.subrange(0, out as int) + replies(request@.subrange(pos as int, len as int)),
            response@ == written(s, 0, all.subrange(0, out as int)),
        decreases len - pos,
    {
        let ghost rest = request@.subrange(pos as int, len as int);
        assert(rest[0] == request[pos as int]);
        assert(rest[1] == request[pos + 1]);
        assert(rest.subrange(2, rest.len() as int) =~= request@.subrange(pos + 2, len as int));
        let value = dap_info_value(request[pos + 1]);
        proof {
            lemma_info_value_len(request[pos + 1]);
        }
        let frame_len = 2 + value.len();
        let ghost frame = info_frame(request[pos + 1]);
        assert(out + frame_len <= all.len());
        let ghost before = response@;
        response[out] = DAP_OK;
        response[out + 1] = value.len() as u8;
        assert(response@ =~= written(before, out as int, seq![DAP_OK, value.len() as u8]));
        put_bytes(response, out + 2, value.as_slice());
        proof {
            lemma_written_then_written(
                before,
                out as int,
                seq![DAP_OK, value.len() as u8],
                value@,
            );
            assert(seq![DAP_OK, value.len() as u8] + value@ == frame);
            assert(all.subrange(0, out + frame_len) =~= all.subrange(0, out as int) + frame);
            lemma_written_then_written(s, 0, all.subrange(0, out as int), frame);
        }
        out = out + frame_len;
        pos = pos + 2;
        proof {
            assert(all =~= all.subrange(0, out as int) + replies(
                request@.subrange(pos as int, len as int),
            ));
        }
    }
    assert(all.subrange(0, out as int) =~= all);
    Ok(out)
}

/// The response state after a packet is handed in: an idle responder queues
/// the response to it (none if the response overflows), a responder with a
/// response pending keeps that one and refuses the packet.
pub open spec fn accept_packet(state: Option<Seq<u8>>, request: Seq<u8>) -> Option<Seq<u8>> {
    match state {
        Some(_) => state,
        None => response_to(request),
    }
}

/// The state after each of `packets` is handed in, in order, with no
/// delivery in between.
pub open spec fn after_packets(state: Option<Seq<u8>>, packets: Seq<Seq<u8>>) -> Option<Seq<u8>>
    decreases packets.len(),
{
    if packets.len() == 0 {
        state
    } else {
        after_packets(accept_packet(state, packets[0]), packets.subrange(1, packets.len() as int))
    }
}

/// While the IN endpoint does not take the pending response, nothing marks
/// it delivered, and handing in packets (`handle_packet`, which moves the
/// state by `accept_packet`) is all that happens to the responder. Then the
/// pending response survives any number of packets unchanged: it is neither
/// lost nor replaced, and every packet is refused.
pub proof fn lemma_busy_in_keeps_response(state: Option<Seq<u8>>, packets: Seq<Seq<u8>>)
    requires
        state is Some,
    ensures
        after_packets(state, packets) == state,
        forall|request: Seq<u8>| accept_packet(state, request) == state,
    decreases packets.len(),
{
    if packets.len() > 0 {
        lemma_busy_in_keeps_response(state, packets.subrange(1, packets.len() as int));
    }
}

/// What a poll cycle starts with.
#[derive(Clone, Copy, Debug, PartialEq, Eq, Structural)]
pub enum PollAction {
    /// Offer the pending response to the IN endpoint again.
    Retransmit,
    /// Read a request packet from the OUT endpoint.
    Receive,
}

/// Response side of the CMSIS-DAP interface: idle, or holding one response
/// that the IN endpoint has not taken yet.
pub struct DapResponder {
    response_buffer: Vec<u8>,
    pending_response_bytes: Option<usize>,
}

impl View for DapResponder {
    /// `None` when idle, else the bytes of the pending response.
    type V = Option<Seq<u8>>;

    closed spec fn view(&self) -> Option<Seq<u8>> {
        match self.pending_response_bytes {
            Some(n) => Some(self.response_buffer@.subrange(0, n as int)),
            None => None,
        }
    }
}

impl DapResponder {
    /// The buffer holds one packet and a pending response lies within it.
    pub closed spec fn wf(&self) -> bool {
        &&& self.response_buffer@.len() == RESPONSE_BUFFER_SIZE
        &&& match self.pending_response_bytes {
            Some(n) => n <= RESPONSE_BUFFER_SIZE,
            None => true,
        }
    }

    /// An idle responder.
    pub fn new() -> (r: Self)
        ensures
            r.wf(),
            r@ is None,
    {
        DapResponder { response_buffer: vec![0u8; RESPONSE_BUFFER_SIZE], pending_response_bytes: None }
    }

    /// Whether no response is pending.
    pub fn is_idle(&self) -> (r: bool)
        ensures
            r == (self@ is None),
    {
        self.pending_response_bytes.is_none()
    }

    /// How a poll cycle starts: with the pending response, if there is one,
    /// else with reading a request.
    pub fn begin_poll(&self) -> (r: PollAction)
        ensures
            r == (if self@ is Some {
                PollAction::Retransmit
            } else {
                PollAction::Receive
            }),
    {
        if self.pending_response_bytes.is_some() {
            PollAction::Retransmit
        } else {
            PollAction::Receive
        }
    }

    /// The bytes of the pending response, if there is one.
    pub fn pending_response(&self) -> (r: Option<&[u8]>)
        requires
            self.wf(),
        ensures
            r is Some <==> self@ is Some,
            r is Some ==> r->Some_0@ == self@->Some_0,
            r is Some ==> r->Some_0@.len() <= RESPONSE_BUFFER_SIZE,
    {
        match self.pending_response_bytes {
            Some(n) => Some(slice_subrange(self.response_buffer.as_slice(), 0, n)),
            None => None,
        }
    }

    /// The IN endpoint took the pending response: the responder is idle.
    pub fn response_delivered(&mut self)
        requires
            old(self).wf(),
        ensures
            final(self).wf(),
            final(self)@ is None,
    {
        self.pending_response_bytes = None;
    }

    /// Hands in a request packet. An idle responder answers it and holds the
    /// response until it is delivered; a packet whose response overflows the
    /// buffer is taken but gets no response. A responder with a response
    /// pending refuses the packet and changes nothing. Returns whether the
    /// packet was taken.
    pub fn handle_packet(&mut self, request: &[u8]) -> (accepted: bool)
        requires
            old(self).wf(),
        ensures
            final(self).wf(),
            accepted == (old(self)@ is None),
            final(self)@ == accept_packet(old(self)@, request@),
    {
        if self.pending_response_bytes.is_some() {
            return false;
        }
        match build_response(request, self.response_buffer.as_mut_slice()) {
            Ok(n) => {
                assert(self.response_buffer@.subrange(0, n as int) =~= replies(request@));
                self.pending_response_bytes = Some(n);
            },
            Err(_) => {},
        }
        true
    }
}

/// Why a debug command failed.
#[derive(Clone, Copy, Debug, PartialEq, Eq, Structural)]
pub enum DapError {
    /// The target did not acknowledge the request.
    NoAcknowledge,
    /// The target asked to try again later.
    Wait,
    /// The target reported a fault.
    Fault,
    /// The data read failed its parity check.
    ParityMismatch,
    /// The transport cannot run the wire at the requested rate.
    ClockUnavailable,
}

impl DapError {
    pub open spec fn spec_status(self) -> u8 {
        match self {
            DapError::Wait => 0x02,
            DapError::Fault => 0x04,
            DapError::NoAcknowledge => 0x07,
            DapError::ParityMismatch => 0x08,
            DapError::ClockUnavailable => 0xff,
        }
    }

    /// Status byte that reports the error to the host: the SWD acknowledge
    /// code, the parity bit, or the generic error status; never 0.
    pub fn status(self) -> (r: u8)
        ensures
            r == self.spec_status(),
            r != DAP_OK,
    {
        match self {
            DapError::Wait => 0x02,
            DapError::Fault => 0x04,
            DapError::NoAcknowledge => 0x07,
            DapError::ParityMismatch => 0x08,
            DapError::ClockUnavailable => 0xff,
        }
    }
}

/// Whether a register access that answered `result` on attempt number
/// `attempts` is made again: only after WAIT, and at most `max_retries` times.
pub fn should_retry(result: &Result<u32, DapError>, attempts: u64, max_retries: u32) -> (r: bool)
    ensures
        r == should_retry_spec(*result, attempts, max_retries),
{
    match result {
        Err(DapError::Wait) => attempts <= max_retries as u64,
        _ => false,
    }
}

/// Performs one register access through `io`, and repeats it while the
/// target answers WAIT, at most `max_retries` times. Every attempt is made
/// with the same `config`, `request` and `data`; the session configuration
/// is only read. Returns the answer of the last attempt and the number of
/// attempts.
pub fn transfer_with_retry<T: SwdIo>(
    io: &mut T,
    config: &SwdIoConfig,
    request: SwdRequest,
    data: u32,
    max_retries: u32,
) -> (r: (Result<u32, DapError>, u64))
    ensures
        1 <= r.1 <= max_retries + 1,
        !should_retry_spec(r.0, r.1, max_retries),
        final(io).transfers().len() == old(io).transfers().len() + r.1,
        final(io).transfers().subrange(0, old(io).transfers().len() as int) == old(io).transfers(),
        final(io).transfers().last() == (*config, request, data, r.0),
        forall|i: int|
            old(io).transfers().len() <= i < final(io).transfers().len() ==> {
                let t = #[trigger] final(io).transfers()[i];
                &&& t.0 == *config
                &&& t.1 == request
                &&& t.2 == data
                &&& i < final(io).transfers().len() - 1 ==> should_retry_spec(
                    t.3,
                    (i - old(io).transfers().len() + 1) as u64,
                    max_retries,
                )
            },
{
    let ghost start = io.transfers();
    let mut attempts: u64 = 0;
    loop
        invariant
            start == old(io).transfers(),
            attempts <= max_retries,
            io.transfers().len() == start.len() + attempts,
            io.transfers().subrange(0, start.len() as int) == start,
            forall|i: int|
                start.len() <= i < io.transfers().len() ==> {
                    let t = #[trigger] io.transfers()[i];
                    &&& t.0 == *config
                    &&& t.1 == request
                    &&& t.2 == data
                    &&& should_retry_spec(t.3, (i - start.len() + 1) as u64, max_retries)
                },
        decreases max_retries - attempts,
    {
        let ghost before = io.transfers();
        let result = io.swd_transfer(config, request, data);
        attempts = attempts + 1;
        assert(io.transfers().subrange(0, start.len() as int) =~= start) by {
            assert(io.transfers().subrange(0, start.len() as int) =~= before.subrange(
                0,
                start.len() as int,
            ));
        }
        let retry = should_retry(&result, attempts, max_retries);
        proof {
            let now = io.transfers();
            assert(now == before.push((*config, request, data, result)));
            assert forall|i: int| start.len() <= i < now.len() implies {
                let t = #[trigger] now[i];
                &&& t.0 == *config
                &&& t.1 == request
                &&& t.2 == data
                &&& (i < now.len() - 1 || retry) ==> should_retry_spec(
                    t.3,
                    (i - start.len() + 1) as u64,
                    max_retries,
                )
            } by {
                if i < now.len() - 1 {
                    assert(now[i] == before[i]);
                }
            }
        }
        if !retry {
            return (result, attempts);
        }
    }
}

/// Whether an access that answered `result` on attempt `attempts` is repeated.
pub open spec fn should_retry_spec(result: Result<u32, DapError>, attempts: u64, max_retries: u32) -> bool {
    result == Err::<u32, DapError>(DapError::Wait) && attempts <= max_retries
}

} // verus!
