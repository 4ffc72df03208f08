use vstd::prelude::*;

use crate::ccsds::packet;
use crate::ccsds::packet::SpacePacket;
use crate::ccsds::primary::PrimaryHeader;
use crate::msg::ids::MsgId;
use crate::octets;

verus! {

/// A single-precision quantity by its IEEE 754 bit pattern.
///
/// Telemetry carries these through unchanged; arithmetic on them belongs to
/// whoever draws them.
#[derive(Clone, Copy, Debug, PartialEq, Eq, Structural)]
pub struct Single(pub u32);

/// The bit pattern of one.
pub const SINGLE_ONE: u32 = 0x3F80_0000;

/// Unit quaternion, `[x, y, z, w]`, body-to-inertial.
#[derive(Clone, Copy, Debug, PartialEq, Eq)]
pub struct Quat(pub [Single; 4]);

impl Quat {
    pub open spec fn identity_value() -> Quat {
        Quat([Single(0), Single(0), Single(0), Single(SINGLE_ONE)])
    }

    /// No rotation.
    pub fn identity() -> (q: Quat)
        ensures
            q == Quat::identity_value(),
    {
        Quat([Single(0), Single(0), Single(0), Single(SINGLE_ONE)])
    }
}

/// Discrete mode of the vehicle.
#[derive(Clone, Copy, Debug, PartialEq, Eq, Structural)]
pub enum Mode {
    Safe,
    Nominal,
    Deploying,
    Deployed,
}

impl Mode {
    /// The octet that spells this mode.
    pub open spec fn code(self) -> int {
        match self {
            Mode::Safe => 0,
            Mode::Nominal => 1,
            Mode::Deploying => 2,
            Mode::Deployed => 3,
        }
    }

    /// The mode an octet spells. Anything unknown is `Safe`.
    pub open spec fn of_code(v: int) -> Mode {
        if v == 1 {
            Mode::Nominal
        } else if v == 2 {
            Mode::Deploying
        } else if v == 3 {
            Mode::Deployed
        } else {
            Mode::Safe
        }
    }

    pub fn from_u8(v: u8) -> (m: Self)
        ensures
            m == Mode::of_code(v as int),
    {
        match v {
            1 => Mode::Nominal,
            2 => Mode::Deploying,
            3 => Mode::Deployed,
            _ => Mode::Safe,
        }
    }

    /// The octet [`Mode::from_u8`] reads back as this mode.
    pub fn to_u8(self) -> (v: u8)
        ensures
            v == self.code(),
    {
        match self {
            Mode::Safe => 0,
            Mode::Nominal => 1,
            Mode::Deploying => 2,
            Mode::Deployed => 3,
        }
    }

    /// The mode's name.
    pub open spec fn title(self) -> Seq<char> {
        match self {
            Mode::Safe => "Safe"@,
            Mode::Nominal => "Nominal"@,
            Mode::Deploying => "Deploying"@,
            Mode::Deployed => "Deployed"@,
        }
    }

    pub fn name(self) -> (s: &'static str)
        ensures
            s@ == self.title(),
    {
        match self {
            Mode::Safe => "Safe",
            Mode::Nominal => "Nominal",
            Mode::Deploying => "Deploying",
            Mode::Deployed => "Deployed",
        }
    }
}

impl Default for Mode {
    fn default() -> (m: Self)
        ensures
            m == Mode::Safe,
    {
        Mode::Safe
    }
}

/// Everything a display knows about the vehicle at one instant.
#[derive(Clone, Copy, Debug, PartialEq, Eq)]
pub struct SpacecraftState {
    pub attitude: Quat,
    /// Solar array rotation, degrees.
    pub solar_array_deg: Single,
    /// Deployment progress, zero to one.
    pub deploy_progress: Single,
    /// Reaction wheel speeds, RPM.
    pub wheel_rpm: [Single; 4],
    pub mode: Mode,
}

impl SpacecraftState {
    pub open spec fn at_rest() -> SpacecraftState {
        SpacecraftState {
            attitude: Quat::identity_value(),
            solar_array_deg: Single(0),
            deploy_progress: Single(0),
            wheel_rpm: [Single(0), Single(0), Single(0), Single(0)],
            mode: Mode::Safe,
        }
    }

    /// The single-precision values of the state, in wire order.
    pub open spec fn words(self) -> Seq<u32> {
        seq![
            self.attitude.0[0].0,
            self.attitude.0[1].0,
            self.attitude.0[2].0,
            self.attitude.0[3].0,
            self.solar_array_deg.0,
            self.deploy_progress.0,
            self.wheel_rpm[0].0,
            self.wheel_rpm[1].0,
            self.wheel_rpm[2].0,
            self.wheel_rpm[3].0,
        ]
    }

    /// The state as the vehicle-state payload spells it.
    #[verifier::opaque]
    pub open spec fn octets(self) -> Seq<u8> {
        octets::le32_run(self.words()).push(self.mode.code() as u8)
    }

    /// The state a payload of at least [`VEHICLE_PAYLOAD_LEN`] octets spells.
    #[verifier::opaque]
    pub open spec fn of_octets(p: Seq<u8>) -> SpacecraftState {
        SpacecraftState {
            attitude: Quat(
                [single_at(p, 0), single_at(p, 4), single_at(p, 8), single_at(p, 12)],
            ),
            solar_array_deg: single_at(p, 16),
            deploy_progress: single_at(p, 20),
            wheel_rpm: [single_at(p, 24), single_at(p, 28), single_at(p, 32), single_at(p, 36)],
            mode: Mode::of_code(p[40] as int),
        }
    }
}

impl Default for SpacecraftState {
    fn default() -> (s: Self)
        ensures
            s == SpacecraftState::at_rest(),
    {
        SpacecraftState {
            attitude: Quat::identity(),
            solar_array_deg: Single(0),
            deploy_progress: Single(0),
            wheel_rpm: [Single(0), Single(0), Single(0), Single(0)],
            mode: Mode::Safe,
        }
    }
}

/// The little-endian single-precision value at `at`.
pub open spec fn single_at(p: Seq<u8>, at: int) -> Single {
    Single(octets::le32(p, at) as u32)
}

/// One decoded telemetry sample with its packet timestamp.
#[derive(Clone, Copy, Debug, PartialEq, Eq)]
pub struct Sample {
    /// Ticks since the mission epoch, from the telemetry secondary header.
    pub time: i64,
    /// CCSDS sequence count, for gap detection.
    pub seq_count: u16,
    pub state: SpacecraftState,
}

/// Octets in a vehicle-state payload: ten little-endian single-precision values
/// (attitude, array angle, deployment progress, wheel speeds) and the mode.
pub const VEHICLE_PAYLOAD_LEN: usize = 41;

/// Where the vehicle-state payload starts in its packet: after the primary header,
/// the timestamp and the cFE alignment spare.
pub const VEHICLE_PAYLOAD_OFFSET: usize = 16;

/// The demonstration payload has the vehicle-state layout.
pub const DEMO_PAYLOAD_LEN: usize = 41;

pub const DEMO_PAYLOAD_OFFSET: usize = 16;

/// What decoding `p` as a vehicle-state packet of message `expected` gives.
///
/// Nothing for a packet of any other message, without a readable timestamp, or
/// with too short a payload.
pub open spec fn sample_in(p: Seq<u8>, expected: MsgId) -> Option<Sample> {
    let h = PrimaryHeader::of_octets(p);
    if h.stream_id_of() != expected.0 {
        None
    } else {
        match (packet::tlm_secondary_of(p), packet::cfe_tlm_payload_of(p)) {
            (Ok(t), Ok(payload)) => if payload.len() < VEHICLE_PAYLOAD_LEN {
                None
            } else {
                Some(
                    Sample {
                        time: t.time() as i64,
                        seq_count: h.seq_count,
                        state: SpacecraftState::of_octets(payload),
                    },
                )
            },
            _ => None,
        }
    }
}

fn read_single(p: &[u8], at: usize) -> (v: Single)
    requires
        at + 4 <= p@.len(),
    ensures
        v == single_at(p@, at as int),
{
    Single(octets::read_le32(p, at))
}

/// Decode a vehicle-state packet into a [`Sample`].
///
/// `None` for any packet that is not the expected message ID or is the wrong size:
/// a display should ignore traffic it does not understand rather than fail, since a
/// live software bus carries plenty of it.
pub fn decode_vehicle_state(pkt: &SpacePacket<'_>, expected: MsgId) -> (res: Option<Sample>)
    ensures
        res == sample_in(pkt@, expected),
{
    proof {
        reveal(SpacecraftState::of_octets);
    }
    let h = pkt.primary();
    if h.stream_id() != expected.0 {
        return None;
    }
    let time: i64 = match pkt.tlm_secondary() {
        Ok(t) => t.ticks(),
        Err(_) => {
            return None;
        },
    };
    let p = match pkt.cfe_tlm_payload() {
        Ok(p) => p,
        Err(_) => {
            return None;
        },
    };
    if p.len() < VEHICLE_PAYLOAD_LEN {
        return None;
    }
    Some(
        Sample {
            time,
            seq_count: h.seq_count,
            state: SpacecraftState {
                attitude: Quat(
                    [read_single(p, 0), read_single(p, 4), read_single(p, 8), read_single(p, 12)],
                ),
                solar_array_deg: read_single(p, 16),
                deploy_progress: read_single(p, 20),
                wheel_rpm: [
                    read_single(p, 24),
                    read_single(p, 28),
                    read_single(p, 32),
                    read_single(p, 36),
                ],
                mode: Mode::from_u8(p[40]),
            },
        },
    )
}

/// Decode a demonstration packet, which has the vehicle-state layout.
pub fn decode_demo(pkt: &SpacePacket<'_>, expected: MsgId) -> (res: Option<Sample>)
    ensures
        res == sample_in(pkt@, expected),
{
    decode_vehicle_state(pkt, expected)
}

/// The vehicle-state payload for a state: the one definition of the layout, for
/// every producer of it.
pub fn encode_vehicle_state(state: &SpacecraftState) -> (out: Vec<u8>)
    ensures
        out@ == state.octets(),
        out@.len() == VEHICLE_PAYLOAD_LEN,
{
    let words: [u32; 10] = [
        state.attitude.0[0].0,
        state.attitude.0[1].0,
        state.attitude.0[2].0,
        state.attitude.0[3].0,
        state.solar_array_deg.0,
        state.deploy_progress.0,
        state.wheel_rpm[0].0,
        state.wheel_rpm[1].0,
        state.wheel_rpm[2].0,
        state.wheel_rpm[3].0,
    ];
    assert(words@ =~= state.words());
    proof {
        reveal(SpacecraftState::octets);
    }
    let mut out: Vec<u8> = Vec::new();
    octets::push_le32_run(&mut out, &words);
    out.push(state.mode.to_u8());
    assert(out@ =~= state.octets());
    out
}

/// A mode comes back unchanged from its own octet.
pub proof fn a_mode_survives_its_octet(m: Mode)
    ensures
        Mode::of_code(m.code()) == m,
{
}

/// A state comes back unchanged from its own payload, whatever follows it.
pub proof fn a_state_survives_its_payload(s: SpacecraftState, rest: Seq<u8>)
    ensures
        s.octets().len() == VEHICLE_PAYLOAD_LEN,
        SpacecraftState::of_octets(s.octets() + rest) == s,
{
    reveal(SpacecraftState::octets);
    reveal(SpacecraftState::of_octets);
    let tail = seq![s.mode.code() as u8] + rest;
    let p = s.octets() + rest;
    let back = SpacecraftState::of_octets(p);
    assert(p =~= octets::le32_run(s.words()) + tail);
    octets::lemma_le32_run_reads_back(s.words(), tail, 0);
    octets::lemma_le32_run_reads_back(s.words(), tail, 1);
    octets::lemma_le32_run_reads_back(s.words(), tail, 2);
    octets::lemma_le32_run_reads_back(s.words(), tail, 3);
    octets::lemma_le32_run_reads_back(s.words(), tail, 4);
    octets::lemma_le32_run_reads_back(s.words(), tail, 5);
    octets::lemma_le32_run_reads_back(s.words(), tail, 6);
    octets::lemma_le32_run_reads_back(s.words(), tail, 7);
    octets::lemma_le32_run_reads_back(s.words(), tail, 8);
    octets::lemma_le32_run_reads_back(s.words(), tail, 9);
    assert(back.attitude.0 =~= s.attitude.0);
    assert(back.wheel_rpm =~= s.wheel_rpm);
}

/// The 32-bit pattern at `at`, low octet first.
pub open spec fn pattern_at(p: Seq<u8>, at: int) -> int {
    p[at] + 0x100 * (p[at + 1] + 0x100 * (p[at + 2] + 0x100 * p[at + 3]))
}

/// Each quantity has its own four octets of the payload: the attitude's four from octet
/// 0, the array angle at 16, the deployment at 20, the wheels' four from 24. The mode is
/// octet 40, and an octet that spells none is `Safe`.
pub proof fn each_quantity_has_its_own_octets(p: Seq<u8>)
    requires
        p.len() >= 41,
    ensures
        ({
            let s = SpacecraftState::of_octets(p);
            &&& s.attitude.0[0].0 == pattern_at(p, 0)
            &&& s.attitude.0[1].0 == pattern_at(p, 4)
            &&& s.attitude.0[2].0 == pattern_at(p, 8)
            &&& s.attitude.0[3].0 == pattern_at(p, 12)
            &&& s.solar_array_deg.0 == pattern_at(p, 16)
            &&& s.deploy_progress.0 == pattern_at(p, 20)
            &&& s.wheel_rpm[0].0 == pattern_at(p, 24)
            &&& s.wheel_rpm[1].0 == pattern_at(p, 28)
            &&& s.wheel_rpm[2].0 == pattern_at(p, 32)
            &&& s.wheel_rpm[3].0 == pattern_at(p, 36)
            &&& s.mode == Mode::Nominal <==> p[40] == 1
            &&& s.mode == Mode::Deploying <==> p[40] == 2
            &&& s.mode == Mode::Deployed <==> p[40] == 3
            &&& s.mode == Mode::Safe <==> p[40] == 0 || p[40] > 3
        }),
{
    reveal(SpacecraftState::of_octets);
}

/// A packet holds a sample exactly when it is the expected message, telemetry with a
/// timestamp, and at least 57 octets long. The sample has the packet's own timestamp and
/// sequence count, and the state that octet 16 and those after it spell.
pub proof fn a_sample_is_read_from_its_packet(p: Seq<u8>, expected: MsgId)
    requires
        packet::is_packet(p),
    ensures
        ({
            let seconds = ((p[6] * 0x100 + p[7]) * 0x100 + p[8]) * 0x100 + p[9];
            let subseconds = p[10] * 0x100 + p[11];
            &&& sample_in(p, expected) is Some <==> {
                &&& p[0] * 0x100 + p[1] == expected.0
                &&& p[0] / 16 % 2 == 0
                &&& p[0] / 8 % 2 == 1
                &&& p.len() >= 57
            }
            &&& sample_in(p, expected) matches Some(x) ==> {
                &&& x.time == seconds * 1_024_000_000 + subseconds * 15_625
                &&& x.seq_count == p[2] % 0x40 * 0x100 + p[3]
                &&& x.state == SpacecraftState::of_octets(p.skip(16))
            }
        }),
{
    packet::a_secondary_header_follows_the_primary(p);
    packet::a_payload_starts_where_its_headers_end(p);
}

/// A mode's octet counts the modes in the order in which a flight goes through them, and
/// its name says which it is.
pub proof fn a_mode_has_one_octet_and_one_name(m: Mode, v: int)
    ensures
        m == Mode::Safe <==> m.code() == 0,
        m == Mode::Nominal <==> m.code() == 1,
        m == Mode::Deploying <==> m.code() == 2,
        m == Mode::Deployed <==> m.code() == 3,
        0 <= v <= 3 ==> Mode::of_code(v).code() == v,
        !(0 <= v <= 3) ==> Mode::of_code(v) == Mode::Safe,
        m.title() == "Safe"@ <==> m == Mode::Safe,
        m.title() == "Nominal"@ <==> m == Mode::Nominal,
        m.title() == "Deploying"@ <==> m == Mode::Deploying,
        m.title() == "Deployed"@ <==> m == Mode::Deployed,
{
    reveal_strlit("Safe");
    reveal_strlit("Nominal");
    reveal_strlit("Deploying");
    reveal_strlit("Deployed");
    assert("Safe"@.len() == 4 && "Nominal"@.len() == 7);
    assert("Deploying"@.len() == 9 && "Deployed"@.len() == 8);
}

/// A vehicle nobody has heard of is in `Safe`, not rotated, stowed, its wheels at rest.
pub proof fn an_unheard_vehicle_is_at_rest()
    ensures
        ({
            let s = SpacecraftState::at_rest();
            &&& s.mode == Mode::Safe
            &&& s.attitude.0[0].0 == 0
            &&& s.attitude.0[1].0 == 0
            &&& s.attitude.0[2].0 == 0
            &&& s.attitude.0[3].0 == 0x3F80_0000
            &&& s.solar_array_deg.0 == 0
            &&& s.deploy_progress.0 == 0
            &&& forall|i: int| 0 <= i < 4 ==> (#[trigger] s.wheel_rpm[i]).0 == 0
        }),
{
}

} // verus!
