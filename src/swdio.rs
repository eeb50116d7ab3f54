//! What a Serial Wire Debug transport must offer the CMSIS-DAP dispatcher.
use vstd::prelude::*;

use crate::dap::DapError;

verus! {

/// Timing of an SWD session. Every transport operation reads it, and a clock
/// change rewrites it in place without rebuilding the transport.
#[derive(Clone, Copy, Debug, PartialEq, Eq, Structural)]
pub struct SwdIoConfig {
    pub clock_wait_cycles: u32,
    pub idle_cycles: u32,
    pub turn_around_cycles: u32,
    pub always_generate_data_phase: bool,
}

/// An SWD request byte: read or write, DP or AP, register address, parity.
pub type SwdRequest = u8;

/// A transport that drives the SWD wires of the target, implemented once per
/// kind of hardware (bit-banged pins, a state machine peripheral, ...).
///
/// `transfers` is the history of register accesses: what each was handed
/// and what it answered. A verified impl keeps it as ghost state and
/// overrides the empty default, which no `swd_transfer` could otherwise
/// satisfy.
pub trait SwdIo {
    /// Every register access made so far: config, request, data and answer.
    open spec fn transfers(&self) -> Seq<(SwdIoConfig, SwdRequest, u32, Result<u32, DapError>)> {
        Seq::empty()
    }

    /// Takes hold of the debug port pins.
    fn connect(&mut self);

    /// Lets go of the debug port pins.
    fn disconnect(&mut self);

    /// Sets the timing in `config` for a line rate of `frequency_hz`, or
    /// fails when the transport cannot reach that rate.
    fn swj_clock(&mut self, config: &mut SwdIoConfig, frequency_hz: u32) -> Result<(), DapError>;

    /// Sends `count` raw bits of `data` on the wire.
    fn swj_sequence(&mut self, config: &SwdIoConfig, count: usize, data: &[u8]);

    /// Reads `count` raw bits from the wire into `data`.
    fn swd_read_sequence(&mut self, config: &SwdIoConfig, count: usize, data: &mut [u8]);

    /// Writes `count` raw bits of `data` to the wire.
    fn swd_write_sequence(&mut self, config: &SwdIoConfig, count: usize, data: &[u8]);

    /// Performs one register access; a read returns the value read.
    fn swd_transfer(&mut self, config: &SwdIoConfig, request: SwdRequest, data: u32) -> (r: Result<
        u32,
        DapError,
    >)
        ensures
            final(self).transfers() == old(self).transfers().push((*config, request, data, r)),
    ;

    /// Drives the data line.
    fn enable_output(&mut self);

    /// Releases the data line.
    fn disable_output(&mut self);
}

} // verus!
