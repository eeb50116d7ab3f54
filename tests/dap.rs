use cmsis_dap::dap::{
    build_response, dap_info_value, should_retry, transfer_with_retry, DapError, DapResponder,
    PollAction, ResponseError, RESPONSE_BUFFER_SIZE,
};
use cmsis_dap::swdio::{SwdIo, SwdIoConfig, SwdRequest};

fn respond(request: &[u8]) -> Vec<u8> {
    let mut buf = [0u8; 64];
    let n = build_response(request, &mut buf).unwrap();
    buf[..n].to_vec()
}

#[test]
fn info_round_trip_for_defined_ids() {
    let table: [(u8, &[u8]); 8] = [
        (0x01, b"vendor"),
        (0x02, b"product"),
        (0x03, b"serial"),
        (0x04, b"2.0.0"),
        (0x09, b"1.0.0"),
        (0xf0, &[0x01, 0x00]),
        (0xfe, &[0x01]),
        (0xff, &[64, 0]),
    ];
    for (id, value) in table.iter() {
        assert_eq!(dap_info_value(*id), value.to_vec());
        let reply = respond(&[0x00, *id]);
        assert_eq!(reply[0], 0);
        assert_eq!(reply[1] as usize, value.len());
        assert_eq!(&reply[2..], *value);
    }
}

#[test]
fn info_undefined_id_gives_empty_payload() {
    assert_eq!(respond(&[0x00, 0x05]), vec![0, 0]);
    assert_eq!(respond(&[0x00, 0x80]), vec![0, 0]);
    assert!(dap_info_value(0x05).is_empty());
}

#[test]
fn two_info_queries_answered_in_order() {
    let reply = respond(&[0x00, 0x04, 0x00, 0x09]);
    let mut expected = vec![0u8, 5];
    expected.extend_from_slice(b"2.0.0");
    expected.extend_from_slice(&[0, 5]);
    expected.extend_from_slice(b"1.0.0");
    assert_eq!(reply, expected);
}

#[test]
fn unrecognised_opcode_ends_decoding() {
    let reply = respond(&[0x00, 0x01, 0x02, 0x00, 0x02]);
    let mut expected = vec![0u8, 6];
    expected.extend_from_slice(b"vendor");
    assert_eq!(reply, expected);
}

#[test]
fn unrecognised_opcode_first_gives_empty_response() {
    assert!(respond(&[0x7f, 0x00, 0x01]).is_empty());
    assert!(respond(&[]).is_empty());
}

#[test]
fn truncated_frame_ends_decoding() {
    assert!(respond(&[0x00]).is_empty());
    let reply = respond(&[0x00, 0xfe, 0x00]);
    assert_eq!(reply, vec![0, 1, 1]);
}

#[test]
fn overflowing_response_fails_and_writes_nothing() {
    let request: Vec<u8> = [0x00u8, 0x02].iter().cycle().take(64).cloned().collect();
    let mut buf = [0xaau8; 64];
    assert_eq!(build_response(&request, &mut buf), Err(ResponseError::BufferOverflow));
    assert_eq!(buf, [0xaau8; 64]);
    assert_eq!(RESPONSE_BUFFER_SIZE, 64);
}

#[test]
fn response_that_fills_buffer_exactly() {
    // Seven "product" replies take 63 bytes; one more "packet count" reply
    // takes 3 and overflows.
    let mut request: Vec<u8> = [0x00u8, 0x02].iter().cycle().take(14).cloned().collect();
    let reply = respond(&request);
    assert_eq!(reply.len(), 63);
    for frame in reply.chunks(9) {
        assert_eq!(frame, b"\x00\x07product");
    }
    request.extend_from_slice(&[0x00, 0xfe]);
    let mut buf = [0u8; 64];
    assert_eq!(build_response(&request, &mut buf), Err(ResponseError::BufferOverflow));
}

#[test]
fn overflowing_packet_is_taken_without_response() {
    let mut r = DapResponder::new();
    let request: Vec<u8> = [0x00u8, 0x01].iter().cycle().take(40).cloned().collect();
    assert!(r.handle_packet(&request));
    assert!(r.is_idle());
    assert!(r.pending_response().is_none());
    assert!(r.handle_packet(&[0x00, 0x01]));
    assert_eq!(r.pending_response(), Some(&b"\x00\x06vendor"[..]));
}

#[test]
fn response_buffer_tail_is_untouched() {
    let mut buf = [0xaau8; 16];
    let n = build_response(&[0x00, 0xfe], &mut buf);
    assert_eq!(n, Ok(3));
    assert_eq!(&buf[..3], &[0, 1, 1]);
    assert!(buf[3..].iter().all(|&b| b == 0xaa));
}

#[test]
fn responder_starts_idle() {
    let r = DapResponder::new();
    assert!(r.is_idle());
    assert_eq!(r.begin_poll(), PollAction::Receive);
    assert!(r.pending_response().is_none());
}

#[test]
fn responder_holds_response_until_delivered() {
    let mut r = DapResponder::new();
    assert!(r.handle_packet(&[0x00, 0x03]));
    assert!(!r.is_idle());
    assert_eq!(r.pending_response(), Some(&b"\x00\x06serial"[..]));
    r.response_delivered();
    assert!(r.is_idle());
    assert_eq!(r.begin_poll(), PollAction::Receive);
}

#[test]
fn busy_in_endpoint_keeps_pending_response() {
    let mut r = DapResponder::new();
    assert!(r.handle_packet(&[0x00, 0x01]));
    let first = r.pending_response().unwrap().to_vec();
    for i in 0..10u8 {
        // The IN endpoint stays busy: every cycle retransmits the same bytes
        // and no new packet is taken.
        assert_eq!(r.begin_poll(), PollAction::Retransmit);
        assert_eq!(r.pending_response().unwrap(), &first[..]);
        assert!(!r.handle_packet(&[0x00, i]));
    }
    assert_eq!(r.pending_response().unwrap(), &first[..]);
    r.response_delivered();
    assert!(r.handle_packet(&[0x00, 0x02]));
    assert_eq!(r.pending_response(), Some(&b"\x00\x07product"[..]));
}

#[test]
fn empty_response_is_still_sent() {
    let mut r = DapResponder::new();
    assert!(r.handle_packet(&[0x42]));
    assert_eq!(r.pending_response(), Some(&[][..]));
}

#[test]
fn error_status_bytes_are_non_zero() {
    assert_eq!(DapError::Wait.status(), 0x02);
    assert_eq!(DapError::Fault.status(), 0x04);
    assert_eq!(DapError::NoAcknowledge.status(), 0x07);
    assert_eq!(DapError::ParityMismatch.status(), 0x08);
    assert_eq!(DapError::ClockUnavailable.status(), 0xff);
}

struct ScriptedTransport {
    answers: Vec<Result<u32, DapError>>,
    calls: Vec<(SwdIoConfig, SwdRequest, u32)>,
}

impl SwdIo for ScriptedTransport {
    fn connect(&mut self) {}
    fn disconnect(&mut self) {}
    fn swj_clock(&mut self, _config: &mut SwdIoConfig, _frequency_hz: u32) -> Result<(), DapError> {
        Err(DapError::ClockUnavailable)
    }
    fn swj_sequence(&mut self, _config: &SwdIoConfig, _count: usize, _data: &[u8]) {}
    fn swd_read_sequence(&mut self, _config: &SwdIoConfig, _count: usize, _data: &mut [u8]) {}
    fn swd_write_sequence(&mut self, _config: &SwdIoConfig, _count: usize, _data: &[u8]) {}
    fn swd_transfer(
        &mut self,
        config: &SwdIoConfig,
        request: SwdRequest,
        data: u32,
    ) -> Result<u32, DapError> {
        self.calls.push((*config, request, data));
        if self.answers.is_empty() {
            Err(DapError::Wait)
        } else {
            self.answers.remove(0)
        }
    }
    fn enable_output(&mut self) {}
    fn disable_output(&mut self) {}
}

fn config() -> SwdIoConfig {
    SwdIoConfig {
        clock_wait_cycles: 3,
        idle_cycles: 8,
        turn_around_cycles: 1,
        always_generate_data_phase: false,
    }
}

#[test]
fn wait_is_retried_with_unchanged_config() {
    let cfg = config();
    let mut io = ScriptedTransport {
        answers: vec![Err(DapError::Wait), Err(DapError::Wait), Ok(0x1234_5678)],
        calls: Vec::new(),
    };
    let (result, attempts) = transfer_with_retry(&mut io, &cfg, 0xa5, 7, 5);
    assert_eq!(result, Ok(0x1234_5678));
    assert_eq!(attempts, 3);
    assert_eq!(cfg, config());
    assert_eq!(io.calls, vec![(config(), 0xa5, 7); 3]);
}

#[test]
fn endless_wait_gives_up_after_bound() {
    let cfg = config();
    let mut io = ScriptedTransport { answers: Vec::new(), calls: Vec::new() };
    let (result, attempts) = transfer_with_retry(&mut io, &cfg, 0x87, 0, 4);
    assert_eq!(result, Err(DapError::Wait));
    assert_eq!(attempts, 5);
    assert_eq!(io.calls.len(), 5);
    assert_eq!(cfg, config());
}

#[test]
fn fault_is_not_retried() {
    let cfg = config();
    let mut io = ScriptedTransport { answers: vec![Err(DapError::Fault)], calls: Vec::new() };
    let (result, attempts) = transfer_with_retry(&mut io, &cfg, 0x87, 0, 4);
    assert_eq!(result, Err(DapError::Fault));
    assert_eq!(attempts, 1);
}

#[test]
fn retry_decision() {
    assert!(should_retry(&Err(DapError::Wait), 1, 3));
    assert!(should_retry(&Err(DapError::Wait), 3, 3));
    assert!(!should_retry(&Err(DapError::Wait), 4, 3));
    assert!(!should_retry(&Err(DapError::Fault), 1, 3));
    assert!(!should_retry(&Ok(5), 1, 3));
    assert!(!should_retry(&Err(DapError::Wait), 1, 0));
}

#[test]
fn no_retries_allowed_means_one_attempt() {
    let cfg = config();
    let mut io = ScriptedTransport { answers: Vec::new(), calls: Vec::new() };
    let (result, attempts) = transfer_with_retry(&mut io, &cfg, 0x87, 0, 0);
    assert_eq!(result, Err(DapError::Wait));
    assert_eq!(attempts, 1);
    assert_eq!(io.calls.len(), 1);
}
