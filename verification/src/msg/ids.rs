use vstd::prelude::*;

use crate::msg::config;
use crate::msg::rust_app;
use crate::text;

verus! {

/// A cFE message ID.
///
/// Under the v1 scheme this is the CCSDS stream ID (first 16 header bits); the
/// type bit therefore distinguishes commands from telemetry.
#[derive(Clone, Copy, Debug, PartialEq, Eq, PartialOrd, Ord, Hash, Structural)]
pub struct MsgId(pub u16);

impl MsgId {
    pub open spec fn apid_of(self) -> int {
        self.0 as int % 0x800
    }

    /// The command bit is set.
    pub open spec fn commands(self) -> bool {
        self.0 / 0x1000 % 2 == 1
    }

    /// True if the command bit is set (v1 scheme only).
    pub fn is_command(self) -> (yes: bool)
        ensures
            yes == (self.0 / 0x1000 % 2 == 1),
            yes == self.commands(),
    {
        self.0 / 0x1000 % 2 == 1
    }

    pub fn apid(self) -> (apid: u16)
        ensures
            apid == self.apid_of(),
            apid < 0x800,
    {
        self.0 % 0x800
    }

    /// The ID as it is written in cFS documentation, `0x` and four digits.
    pub fn to_text(self) -> (s: String)
        ensures
            s@ == text::hex4(self.0 as int),
    {
        let mut s = String::new();
        text::push_hex4(&mut s, self.0);
        s
    }
}

/// The message IDs a ground display talks to.
#[derive(Clone, Copy, Debug, PartialEq, Eq, Structural)]
pub struct MsgIds {
    pub to_lab_cmd: MsgId,
    pub to_lab_hk_tlm: MsgId,
    pub ci_lab_cmd: MsgId,
    pub ci_lab_hk_tlm: MsgId,
    pub sample_app_cmd: MsgId,
    pub sample_app_hk_tlm: MsgId,
    pub rust_app_cmd: MsgId,
    pub rust_app_hk_tlm: MsgId,
    pub rust_app_vehicle_tlm: MsgId,
}

/// Bad line in a message-ID config. Lines count from 1.
#[derive(Clone, Copy, Debug, PartialEq, Eq, Structural)]
pub struct ConfigError {
    pub line: usize,
}

impl ConfigError {
    /// How the error reads.
    pub open spec fn wording(self) -> Seq<char> {
        "invalid message-id config at line "@ + text::decimal(self.line as nat)
    }

    /// The error in words.
    pub fn message(&self) -> (s: String)
        ensures
            s@ == "invalid message-id config at line "@ + text::decimal(self.line as nat),
            s@ == self.wording(),
    {
        let mut s = String::new();
        s.append("invalid message-id config at line ");
        text::push_decimal(&mut s, self.line as u64);
        s
    }
}

impl MsgIds {
    pub open spec fn defaults() -> MsgIds {
        MsgIds {
            to_lab_cmd: MsgId(0x1880),
            to_lab_hk_tlm: MsgId(0x0880),
            ci_lab_cmd: MsgId(0x1884),
            ci_lab_hk_tlm: MsgId(0x0884),
            sample_app_cmd: MsgId(0x1882),
            sample_app_hk_tlm: MsgId(0x0883),
            rust_app_cmd: MsgId(rust_app::CMD_MID),
            rust_app_hk_tlm: MsgId(rust_app::HK_TLM_MID),
            rust_app_vehicle_tlm: MsgId(rust_app::VEHICLE_TLM_MID),
        }
    }

    /// Historical `*_lab` values under the CCSDS v1 scheme, and the flight
    /// application's own. **Verify, do not trust.**
    pub fn lab_defaults() -> (ids: MsgIds)
        ensures
            ids == MsgIds::defaults(),
    {
        MsgIds {
            to_lab_cmd: MsgId(0x1880),
            to_lab_hk_tlm: MsgId(0x0880),
            ci_lab_cmd: MsgId(0x1884),
            ci_lab_hk_tlm: MsgId(0x0884),
            sample_app_cmd: MsgId(0x1882),
            sample_app_hk_tlm: MsgId(0x0883),
            rust_app_cmd: MsgId(rust_app::CMD_MID),
            rust_app_hk_tlm: MsgId(rust_app::HK_TLM_MID),
            rust_app_vehicle_tlm: MsgId(rust_app::VEHICLE_TLM_MID),
        }
    }

    /// Parse overrides from a minimal `name = 0x1880` config.
    ///
    /// One setting per line; `#` starts a comment; values are decimal, or
    /// hexadecimal behind `0x`. Unknown keys are an error: a typo'd key that
    /// silently kept a default would reproduce exactly the bug this config exists
    /// to prevent.
    pub fn parse(text: &str) -> (res: Result<Self, ConfigError>)
        ensures
            res == config::parsed(text@),
    {
        config::parse_text(text)
    }
}

/// The IDs of a lab build. The type bit of each says what it is: commands have it, and
/// telemetry does not.
pub proof fn a_lab_build_has_these_ids()
    ensures
        ({
            let ids = MsgIds::defaults();
            &&& ids.to_lab_cmd.0 == 0x1880
            &&& ids.to_lab_hk_tlm.0 == 0x0880
            &&& ids.ci_lab_cmd.0 == 0x1884
            &&& ids.ci_lab_hk_tlm.0 == 0x0884
            &&& ids.sample_app_cmd.0 == 0x1882
            &&& ids.sample_app_hk_tlm.0 == 0x0883
            &&& ids.rust_app_cmd.0 == 0x1892
            &&& ids.rust_app_hk_tlm.0 == 0x0891
            &&& ids.rust_app_vehicle_tlm.0 == 0x0892
        }),
{
}

/// An ID under the v1 scheme is its application's 11 bits, under the bit that tells
/// commands from telemetry.
pub proof fn an_id_tells_commands_from_telemetry(id: MsgId)
    ensures
        id.0 < 0x1000 ==> !id.commands(),
        0x1000 <= id.0 < 0x2000 ==> id.commands(),
        0 <= id.apid_of() < 0x800,
        (id.0 - id.apid_of()) % 0x800 == 0,
{
}

/// A config error names its line.
pub proof fn a_config_error_names_its_line(e: ConfigError)
    ensures
        e.wording() == "invalid message-id config at line "@ + text::decimal(e.line as nat),
{
}

} // verus!
