//! `sample_app` commands: the command path a ground display closes.
//!
//! `sample_app` is the right target for a round-trip proof because its no-op does
//! something *observable in telemetry*: its command counter increments, and that
//! counter comes back to the ground on the next housekeeping cycle.

use vstd::prelude::*;

use crate::ccsds::error::Error;
use crate::ccsds::packet;
use crate::msg::command;
use crate::msg::command::build_command;
use crate::msg::ids::MsgId;

verus! {

/// `SAMPLE_APP_NOOP_CC`. Increments `CommandCounter`.
pub const NOOP_CC: u8 = 0;

/// `SAMPLE_APP_RESET_COUNTERS_CC`. Zeroes both counters.
pub const RESET_COUNTERS_CC: u8 = 1;

/// `SAMPLE_APP_PROCESS_CC`.
pub const PROCESS_CC: u8 = 2;

/// `SAMPLE_APP_DISPLAY_PARAM_CC`.
pub const DISPLAY_PARAM_CC: u8 = 3;

/// No-op: the cheapest command that changes a value on the downlink.
pub fn noop(out: &mut [u8], sample_app_cmd: MsgId, seq_count: u16) -> (res: Result<&[u8], Error>)
    ensures
        packet::octets_result(res) == command::built_command(
            old(out)@.len(),
            sample_app_cmd,
            NOOP_CC,
            seq_count,
            Seq::empty(),
        ),
        final(out)@ == command::buffer_holding(old(out)@, packet::octets_result(res)),
{
    let none: [u8; 0] = [];
    assert(none@ =~= Seq::<u8>::empty());
    build_command(out, sample_app_cmd, NOOP_CC, seq_count, &none)
}

/// Reset both housekeeping counters to zero.
///
/// Useful as the *second* half of a round-trip proof: an incrementing counter
/// could in principle be something else counting, but a counter that drops to zero
/// exactly when asked to cannot be.
pub fn reset_counters(out: &mut [u8], sample_app_cmd: MsgId, seq_count: u16) -> (res: Result<
    &[u8],
    Error,
>)
    ensures
        packet::octets_result(res) == command::built_command(
            old(out)@.len(),
            sample_app_cmd,
            RESET_COUNTERS_CC,
            seq_count,
            Seq::empty(),
        ),
        final(out)@ == command::buffer_holding(old(out)@, packet::octets_result(res)),
{
    let none: [u8; 0] = [];
    assert(none@ =~= Seq::<u8>::empty());
    build_command(out, sample_app_cmd, RESET_COUNTERS_CC, seq_count, &none)
}

/// The function codes of `sample_app`, in its own order.
pub proof fn codes_are_in_their_order()
    ensures
        NOOP_CC == 0,
        RESET_COUNTERS_CC == 1,
        PROCESS_CC == 2,
        DISPLAY_PARAM_CC == 3,
{
}

} // verus!
