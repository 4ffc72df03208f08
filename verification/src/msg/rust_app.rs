//! `RUST_APP`: the messages of the flight application that publishes vehicle
//! dynamics.
//!
//! Every other module here describes messages someone else defined. This one *is*
//! the definition, shared by the ground and the flight side, so there is no C
//! header to drift away from.
//!
//! The IDs are hand-picked values. `0x0890` is another application's housekeeping
//! and `0x1891` is driven by the scheduler, so neither may be used here. Since
//! these are in no compiled-in subscription table, `to_lab` has to be told about
//! them at run time: see [`crate::msg::to_lab::add_packet`].

use vstd::prelude::*;

use crate::ccsds::error::Error;
use crate::ccsds::packet;
use crate::ccsds::packet::SpacePacket;
use crate::msg::command;
use crate::msg::command::build_command;
use crate::msg::ids::MsgId;
use crate::octets;

verus! {

/// `RUST_APP` housekeeping: the application's own counters.
pub const HK_TLM_MID: u16 = 0x0891;

/// `RUST_APP` vehicle state: attitude, array angle, deployment, wheels, mode.
pub const VEHICLE_TLM_MID: u16 = 0x0892;

/// `RUST_APP` command message.
pub const CMD_MID: u16 = 0x1892;

/// No-op. Increments the command counter and nothing else.
pub const NOOP_CC: u8 = 0;

/// Zero both command counters.
pub const RESET_COUNTERS_CC: u8 = 1;

/// Drop to `Safe`: stop pointing, damp the body rates.
pub const SAFE_CC: u8 = 2;

/// Leave `Safe` and resume attitude control.
pub const NOMINAL_CC: u8 = 3;

/// Slew to the next pointing target in the survey.
pub const NEXT_TARGET_CC: u8 = 4;

/// Inertial hold: freeze on the current attitude, stop the sequencer.
pub const HOLD_CC: u8 = 5;

/// Run the array deployment.
pub const DEPLOY_CC: u8 = 6;

/// Re-stow the arrays.
pub const STOW_CC: u8 = 7;

/// Dump the wheels' stored momentum.
pub const DUMP_MOMENTUM_CC: u8 = 8;

/// Build a `RUST_APP` command. All of them are payload-free.
///
/// One constructor rather than nine: these differ in nothing but the function
/// code.
pub fn command(out: &mut [u8], cmd_mid: MsgId, function_code: u8, seq_count: u16) -> (res: Result<
    &[u8],
    Error,
>)
    ensures
        packet::octets_result(res) == command::built_command(
            old(out)@.len(),
            cmd_mid,
            function_code,
            seq_count,
            Seq::empty(),
        ),
        final(out)@ == command::buffer_holding(old(out)@, packet::octets_result(res)),
{
    let none: [u8; 0] = [];
    assert(none@ =~= Seq::<u8>::empty());
    build_command(out, cmd_mid, function_code, seq_count, &none)
}

/// `RUST_APP_HkTlm_Payload_t`: four `u8` then two little-endian `u32`.
#[derive(Clone, Copy, Debug, PartialEq, Eq, Structural)]
pub struct RustAppHk {
    pub command_counter: u8,
    pub command_error_counter: u8,
    /// Mode as [`crate::model::Mode::from_u8`] reads it.
    pub mode: u8,
    /// Non-zero while any reaction wheel is at its momentum limit.
    pub wheels_saturated: u8,
    /// Control cycles executed since startup: the app's own heartbeat.
    pub control_cycles: u32,
    /// Pointing targets commanded since startup.
    pub targets_commanded: u32,
}

impl RustAppHk {
    /// Octets on the wire.
    pub const LEN: usize = 12;

    /// The payload as it appears on the wire.
    pub open spec fn octets(self) -> Seq<u8> {
        seq![
            self.command_counter,
            self.command_error_counter,
            self.mode,
            self.wheels_saturated,
        ] + octets::le32_octets(self.control_cycles as int) + octets::le32_octets(
            self.targets_commanded as int,
        )
    }

    /// What decoding `payload` gives.
    pub open spec fn decoded(payload: Seq<u8>) -> Option<RustAppHk> {
        if payload.len() < 12 {
            None
        } else {
            Some(
                RustAppHk {
                    command_counter: payload[0],
                    command_error_counter: payload[1],
                    mode: payload[2],
                    wheels_saturated: payload[3],
                    control_cycles: octets::le32(payload, 4) as u32,
                    targets_commanded: octets::le32(payload, 8) as u32,
                },
            )
        }
    }

    /// What decoding a whole packet gives.
    pub open spec fn in_packet(p: Seq<u8>) -> Option<RustAppHk> {
        match packet::cfe_tlm_payload_of(p) {
            Ok(payload) => RustAppHk::decoded(payload),
            Err(_) => None,
        }
    }

    pub fn decode(payload: &[u8]) -> (res: Option<Self>)
        ensures
            res == RustAppHk::decoded(payload@),
    {
        if payload.len() < 12 {
            return None;
        }
        Some(
            RustAppHk {
                command_counter: payload[0],
                command_error_counter: payload[1],
                mode: payload[2],
                wheels_saturated: payload[3],
                control_cycles: octets::read_le32(payload, 4),
                targets_commanded: octets::read_le32(payload, 8),
            },
        )
    }

    /// Encode, for the flight application.
    pub fn encode(&self, out: &mut [u8; 12])
        ensures
            final(out)@ == self.octets(),
    {
        out[0] = self.command_counter;
        out[1] = self.command_error_counter;
        out[2] = self.mode;
        out[3] = self.wheels_saturated;
        let c: u32 = self.control_cycles;
        out[4] = (c % 0x100) as u8;
        out[5] = (c / 0x100 % 0x100) as u8;
        out[6] = (c / 0x1_0000 % 0x100) as u8;
        out[7] = (c / 0x100_0000) as u8;
        let t: u32 = self.targets_commanded;
        out[8] = (t % 0x100) as u8;
        out[9] = (t / 0x100 % 0x100) as u8;
        out[10] = (t / 0x1_0000 % 0x100) as u8;
        out[11] = (t / 0x100_0000) as u8;
        assert(out@ =~= self.octets());
    }

    pub fn from_packet(pkt: &SpacePacket<'_>) -> (res: Option<Self>)
        ensures
            res == RustAppHk::in_packet(pkt@),
    {
        match pkt.cfe_tlm_payload() {
            Ok(payload) => RustAppHk::decode(payload),
            Err(_) => None,
        }
    }
}

impl Default for RustAppHk {
    fn default() -> (hk: Self)
        ensures
            hk == (RustAppHk {
                command_counter: 0,
                command_error_counter: 0,
                mode: 0,
                wheels_saturated: 0,
                control_cycles: 0,
                targets_commanded: 0,
            }),
    {
        RustAppHk {
            command_counter: 0,
            command_error_counter: 0,
            mode: 0,
            wheels_saturated: 0,
            control_cycles: 0,
            targets_commanded: 0,
        }
    }
}

/// Housekeeping comes back unchanged from its own octets, whatever follows them.
pub proof fn housekeeping_survives_the_wire(hk: RustAppHk, rest: Seq<u8>)
    ensures
        RustAppHk::decoded(hk.octets() + rest) == Some(hk),
{
    let b = hk.octets() + rest;
    octets::lemma_le32_round_trip(hk.control_cycles);
    octets::lemma_le32_round_trip(hk.targets_commanded);
    assert(octets::le32(b, 4) == octets::le32(octets::le32_octets(hk.control_cycles as int), 0));
    assert(octets::le32(b, 8) == octets::le32(octets::le32_octets(hk.targets_commanded as int), 0));
}

/// Housekeeping is twelve octets: the command counter, the error counter, the mode, the
/// saturation flag, and two 32-bit counters, low octets first. A shorter payload is
/// refused.
pub proof fn each_counter_has_its_own_octets(hk: RustAppHk, short: Seq<u8>)
    requires
        short.len() < 12,
    ensures
        ({
            let o = hk.octets();
            &&& o.len() == 12
            &&& o[0] == hk.command_counter
            &&& o[1] == hk.command_error_counter
            &&& o[2] == hk.mode
            &&& o[3] == hk.wheels_saturated
            &&& o[4] + 0x100 * (o[5] + 0x100 * (o[6] + 0x100 * o[7])) == hk.control_cycles
            &&& o[8] + 0x100 * (o[9] + 0x100 * (o[10] + 0x100 * o[11])) == hk.targets_commanded
        }),
        RustAppHk::decoded(short) is None,
{
}

/// Housekeeping is read from octet 16 of a telemetry packet that carries a timestamp,
/// and from no other.
pub proof fn housekeeping_is_read_from_octet_16(p: Seq<u8>)
    requires
        packet::is_packet(p),
    ensures
        ({
            let telemetry = p[0] / 16 % 2 == 0 && p[0] / 8 % 2 == 1;
            &&& telemetry && p.len() >= 28 ==> (RustAppHk::in_packet(p) matches Some(hk) && {
                &&& hk.command_counter == p[16]
                &&& hk.command_error_counter == p[17]
                &&& hk.mode == p[18]
                &&& hk.wheels_saturated == p[19]
                &&& hk.control_cycles == p[20] + 0x100 * (p[21] + 0x100 * (p[22] + 0x100 * p[23]))
                &&& hk.targets_commanded == p[24] + 0x100 * (p[25] + 0x100 * (p[26] + 0x100
                    * p[27]))
            })
            &&& !telemetry || p.len() < 28 ==> RustAppHk::in_packet(p) is None
        }),
{
}

} // verus!
