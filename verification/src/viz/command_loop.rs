//! Proof that the command loop closes, and how long it takes to close.
//!
//! The value watched is `SAMPLE_APP`'s command counter. It is incremented by cFE on
//! the flight side and comes back to the ground on the next housekeeping cycle.
//! Nothing on the ground can move it.
//!
//! The confirmation is "the counter is no longer what it was when we sent", not "the
//! counter equals what we predicted". Predicting the next value assumes nobody else
//! is commanding, and breaks when the counter wraps.

use vstd::prelude::*;

use crate::msg::hk::SampleAppHk;
use crate::text;

verus! {

/// How long to wait for a counter change before calling the command lost: 15 s.
///
/// Nearly three housekeeping cycles, so a timeout means something actually failed
/// rather than that a cycle was missed.
pub const TIMEOUT: u64 = 15_360_000_000;

/// A command in flight.
#[derive(Clone, Copy, Debug, PartialEq, Eq, Structural)]
pub struct Pending {
    /// Counter value at the moment the command went out.
    pub before: u8,
    pub sent_at: u64,
}

/// Outcome of one round trip, for display.
#[derive(Clone, Copy, Debug, PartialEq, Eq, Structural)]
pub enum Outcome {
    /// Confirmed this long after it went out; negative on a clock that was set back.
    Confirmed { ticks: i128 },
    TimedOut,
}

/// Tracks one in-flight command at a time.
///
/// One at a time on purpose: with several outstanding, a single counter change
/// cannot be attributed to a particular command. A second command while one is
/// pending still *sends*; it simply does not start a second measurement.
///
/// The counters wrap around.
#[derive(Clone, Copy, Debug, PartialEq, Eq)]
pub struct CommandLoop {
    pub pending: Option<Pending>,
    pub sent: u32,
    pub confirmed: u32,
    pub timed_out: u32,
    pub last: Option<Outcome>,
}

/// Ticks from `start` to `now`.
pub open spec fn elapsed(start: u64, now: u64) -> i128 {
    (now - start) as i128
}

impl CommandLoop {
    pub open spec fn idle() -> CommandLoop {
        CommandLoop { pending: None, sent: 0, confirmed: 0, timed_out: 0, last: None }
    }

    /// After a command went out.
    ///
    /// With no housekeeping yet there is no counter to compare against, so there is
    /// nothing to measure; the command still went out.
    pub open spec fn after_send(self, hk: Option<SampleAppHk>, now: u64) -> CommandLoop {
        CommandLoop {
            sent: self.sent.wrapping_add(1),
            pending: match (self.pending, hk) {
                (None, Some(hk)) => Some(Pending { before: hk.command_counter, sent_at: now }),
                (kept, _) => kept,
            },
            ..self
        }
    }

    /// The pending command is confirmed by this housekeeping.
    pub open spec fn confirms(self, hk: Option<SampleAppHk>) -> bool {
        self.pending is Some && hk is Some && hk->0.command_counter != self.pending->0.before
    }

    /// The pending command has been waited for too long.
    pub open spec fn expires(self, now: u64) -> bool {
        self.pending is Some && elapsed(self.pending->0.sent_at, now) > TIMEOUT
    }

    /// After looking at the latest housekeeping.
    pub open spec fn after_look(self, hk: Option<SampleAppHk>, now: u64) -> CommandLoop {
        if self.confirms(hk) {
            CommandLoop {
                pending: None,
                confirmed: self.confirmed.wrapping_add(1),
                last: Some(
                    Outcome::Confirmed { ticks: elapsed(self.pending->0.sent_at, now) },
                ),
                ..self
            }
        } else if self.expires(now) {
            CommandLoop {
                pending: None,
                timed_out: self.timed_out.wrapping_add(1),
                last: Some(Outcome::TimedOut),
                ..self
            }
        } else {
            self
        }
    }

    /// Record that a command has just gone out.
    pub fn on_sent(&mut self, hk: Option<SampleAppHk>, now: u64)
        ensures
            *final(self) == old(self).after_send(hk, now),
    {
        self.sent = self.sent.wrapping_add(1);
        if self.pending.is_some() {
            return ;
        }
        if let Some(hk) = hk {
            self.pending = Some(Pending { before: hk.command_counter, sent_at: now });
        }
    }

    /// Feed the latest housekeeping. Call every frame; it is cheap, and looking
    /// again at the same thing changes nothing.
    pub fn observe(&mut self, hk: Option<SampleAppHk>, now: u64)
        ensures
            *final(self) == old(self).after_look(hk, now),
    {
        let pending = match self.pending {
            Some(p) => p,
            None => {
                return ;
            },
        };
        let waited: i128 = now as i128 - pending.sent_at as i128;
        if let Some(hk) = hk {
            if hk.command_counter != pending.before {
                self.pending = None;
                self.confirmed = self.confirmed.wrapping_add(1);
                self.last = Some(Outcome::Confirmed { ticks: waited });
                return ;
            }
        }
        if waited > TIMEOUT as i128 {
            self.pending = None;
            self.timed_out = self.timed_out.wrapping_add(1);
            self.last = Some(Outcome::TimedOut);
        }
    }

    pub fn awaiting(&self) -> (yes: bool)
        ensures
            yes == self.pending is Some,
    {
        self.pending.is_some()
    }

    /// What the loop is doing, in words.
    pub open spec fn doing(self) -> Seq<char> {
        if self.pending is Some {
            "awaiting counter change..."@
        } else {
            match self.last {
                Some(Outcome::Confirmed { ticks }) => "confirmed in "@ + text::seconds(
                    ticks as int,
                ) + "s"@,
                Some(Outcome::TimedOut) =>
                "TIMED OUT after 15s - command never reached sample_app"@,
                None => "no command sent yet"@,
            }
        }
    }

    fn doing_text(&self) -> (s: String)
        ensures
            s@ == self.doing(),
    {
        if self.awaiting() {
            return String::from_str("awaiting counter change...");
        }
        match self.last {
            Some(Outcome::Confirmed { ticks }) => {
                let mut s = String::from_str("confirmed in ");
                text::push_seconds(&mut s, ticks);
                s.append("s");
                s
            },
            Some(Outcome::TimedOut) => String::from_str(
                "TIMED OUT after 15s - command never reached sample_app",
            ),
            None => String::from_str("no command sent yet"),
        }
    }

    /// One line for the panel.
    pub open spec fn line(self) -> Seq<char> {
        "sent "@ + text::decimal(self.sent as nat) + "  confirmed "@ + text::decimal(
            self.confirmed as nat,
        ) + "  lost "@ + text::decimal(self.timed_out as nat) + "  |  "@ + self.doing()
    }

    pub fn summary(&self) -> (s: String)
        ensures
            s@ == self.line(),
    {
        let mut s = String::from_str("sent ");
        text::push_decimal(&mut s, self.sent as u64);
        s.append("  confirmed ");
        text::push_decimal(&mut s, self.confirmed as u64);
        s.append("  lost ");
        text::push_decimal(&mut s, self.timed_out as u64);
        s.append("  |  ");
        let doing = self.doing_text();
        s.append(doing.as_str());
        s
    }
}

impl Default for CommandLoop {
    fn default() -> (l: Self)
        ensures
            l == CommandLoop::idle(),
    {
        CommandLoop { pending: None, sent: 0, confirmed: 0, timed_out: 0, last: None }
    }
}

/// The shortest time between two automatic no-ops: a tenth of a second.
pub const SHORTEST_NOOP_PERIOD: u64 = 102_400_000;

/// When the next automatic no-op falls due, after one fell due at `now`.
pub open spec fn next_noop(now: u64, period: u64) -> u64 {
    let wait = if period < SHORTEST_NOOP_PERIOD {
        SHORTEST_NOOP_PERIOD
    } else {
        period
    };
    if now + wait > u64::MAX {
        u64::MAX
    } else {
        (now + wait) as u64
    }
}

/// An automatic no-op goes out at `now`: it is due, and there is a counter to compare
/// against.
pub open spec fn noop_goes(next: u64, now: u64, hk: Option<SampleAppHk>) -> bool {
    now >= next && hk is Some
}

/// When an automatic no-op falls due next, after a look at `now`.
pub open spec fn noop_after(next: u64, now: u64, period: u64) -> u64 {
    if now < next {
        next
    } else {
        next_noop(now, period)
    }
}

/// Drive the command path on a timer instead of from the keyboard. True when a
/// no-op is to be sent.
///
/// There is nothing to measure against until housekeeping has been seen once, and a
/// command sent into that gap would look lost, so it waits for the first packet.
pub fn auto_noop(
    next: &mut u64,
    period: u64,
    now: u64,
    hk: Option<SampleAppHk>,
    state: &mut CommandLoop,
) -> (send: bool)
    ensures
        send == (now >= *old(next) && hk is Some),
        send == noop_goes(*old(next), now, hk),
        *final(next) == noop_after(*old(next), now, period),
        *final(next) == (if now < *old(next) {
            *old(next)
        } else {
            next_noop(now, period)
        }),
        *final(state) == (if send {
            old(state).after_send(hk, now)
        } else {
            *old(state)
        }),
{
    if now < *next {
        return false;
    }
    let wait: u64 = if period < SHORTEST_NOOP_PERIOD {
        SHORTEST_NOOP_PERIOD
    } else {
        period
    };
    *next = now.saturating_add(wait);
    if hk.is_none() {
        return false;
    }
    state.on_sent(hk, now);
    true
}

/// What to print of a round trip that ended.
pub open spec fn report_of(outcome: Outcome) -> Seq<char> {
    match outcome {
        Outcome::Confirmed { ticks } =>
        "command loop closed: SAMPLE_APP CommandCounter changed "@ + text::seconds(
            ticks as int,
        ) + "s after send"@,
        Outcome::TimedOut => "command loop TIMED OUT: no counter change within 15s"@,
    }
}

/// Round trips that ended.
pub open spec fn ended(l: CommandLoop) -> u32 {
    l.confirmed.wrapping_add(l.timed_out)
}

/// What there is to report, where `seen` round trips were reported before.
pub open spec fn report_due(l: CommandLoop, seen: u32) -> Option<Seq<char>> {
    if ended(l) == seen {
        None
    } else {
        match l.last {
            Some(outcome) => Some(report_of(outcome)),
            None => None,
        }
    }
}

/// Report each round trip once, so the loop can be verified without watching the
/// window. `seen` counts those that ended and were reported.
pub fn report_round_trips(state: &CommandLoop, seen: &mut u32) -> (line: Option<String>)
    ensures
        *final(seen) == state.confirmed.wrapping_add(state.timed_out),
        match line {
            Some(s) => *final(seen) != *old(seen) && state.last is Some && s@ == report_of(
                state.last->0,
            ),
            None => *final(seen) == *old(seen) || state.last is None,
        },
        *final(seen) == ended(*state),
        text::opt(line) == report_due(*state, *old(seen)),
{
    let done: u32 = state.confirmed.wrapping_add(state.timed_out);
    if done == *seen {
        return None;
    }
    *seen = done;
    match state.last {
        Some(Outcome::Confirmed { ticks }) => {
            let mut s = String::from_str("command loop closed: SAMPLE_APP CommandCounter changed ");
            text::push_seconds(&mut s, ticks);
            s.append("s after send");
            Some(s)
        },
        Some(Outcome::TimedOut) => Some(
            String::from_str("command loop TIMED OUT: no counter change within 15s"),
        ),
        None => None,
    }
}

/// Any change of the counter confirms, up, down or across its wrap; the same value
/// never does.
pub proof fn any_change_confirms_and_nothing_else_does(
    l: CommandLoop,
    before: SampleAppHk,
    after: SampleAppHk,
    sent: u64,
    now: u64,
)
    requires
        l.pending is None,
    ensures
        ({
            let seen = l.after_send(Some(before), sent).after_look(Some(after), now);
            &&& after.command_counter != before.command_counter ==> seen.confirmed
                == l.confirmed.wrapping_add(1) && seen.last == Some(
                Outcome::Confirmed { ticks: elapsed(sent, now) },
            )
            &&& after.command_counter == before.command_counter ==> seen.confirmed == l.confirmed
        }),
{
}

/// A second command while one is pending is counted as sent and measures nothing:
/// the round trip is timed from the first.
pub proof fn a_second_send_keeps_the_first_measurement(
    l: CommandLoop,
    hk: Option<SampleAppHk>,
    now: u64,
)
    requires
        l.pending is Some,
    ensures
        l.after_send(hk, now).pending == l.pending,
        l.after_send(hk, now).sent == l.sent.wrapping_add(1),
{
}

/// Commanding before any housekeeping has arrived starts no measurement, so nothing
/// that arrives later confirms it.
pub proof fn commanding_blind_measures_nothing(
    l: CommandLoop,
    sent: u64,
    hk: Option<SampleAppHk>,
    now: u64,
)
    requires
        l.pending is None,
    ensures
        l.after_send(None, sent).after_look(hk, now) == l.after_send(None, sent),
{
}

/// Looking twice at the same housekeeping at the same time is looking once.
pub proof fn looking_again_changes_nothing(l: CommandLoop, hk: Option<SampleAppHk>, now: u64)
    ensures
        l.after_look(hk, now).after_look(hk, now) == l.after_look(hk, now),
{
}

/// A send counts, whatever else is going on. It starts a measurement only where none is
/// running and there is a counter to compare against: that counter, at this moment.
pub proof fn a_send_starts_one_measurement(l: CommandLoop, hk: Option<SampleAppHk>, now: u64)
    ensures
        ({
            let after = l.after_send(hk, now);
            &&& after.sent == l.sent.wrapping_add(1)
            &&& after.confirmed == l.confirmed
            &&& after.timed_out == l.timed_out
            &&& after.last == l.last
            &&& l.pending is Some || hk is None ==> after.pending == l.pending
            &&& l.pending is None && hk is Some ==> after.pending is Some
                && after.pending->0.before == hk->0.command_counter && after.pending->0.sent_at
                == now
        }),
{
}

/// A look ends a measurement as confirmed on any other counter, with the time it took,
/// however long; as lost on the same counter, or none, beyond fifteen seconds; and
/// otherwise leaves it running. Sends are not its business.
pub proof fn a_look_ends_a_measurement_or_not(l: CommandLoop, hk: Option<SampleAppHk>, now: u64)
    ensures
        ({
            let after = l.after_look(hk, now);
            let gone = now - l.pending->0.sent_at;
            let changed = hk is Some && hk->0.command_counter != l.pending->0.before;
            &&& after.sent == l.sent
            &&& l.pending is None ==> after == l
            &&& l.pending is Some && changed ==> {
                &&& after.pending is None
                &&& after.confirmed == l.confirmed.wrapping_add(1)
                &&& after.timed_out == l.timed_out
                &&& after.last is Some && after.last->0 is Confirmed
                &&& after.last->0->ticks == gone
            }
            &&& l.pending is Some && !changed && gone > 15 * 1_024_000_000 ==> {
                &&& after.pending is None
                &&& after.confirmed == l.confirmed
                &&& after.timed_out == l.timed_out.wrapping_add(1)
                &&& after.last == Some(Outcome::TimedOut)
            }
            &&& l.pending is Some && !changed && gone <= 15 * 1_024_000_000 ==> after == l
        }),
{
}

/// An automatic no-op waits as long as it was told to, a tenth of a second at the least,
/// and no longer than the clock runs.
pub proof fn automatic_noops_keep_their_distance(now: u64, period: u64)
    ensures
        ({
            let wait = if 10 * period < 1_024_000_000 {
                102_400_000
            } else {
                period as int
            };
            next_noop(now, period) == (if now + wait > 0xFFFF_FFFF_FFFF_FFFF {
                0xFFFF_FFFF_FFFF_FFFF
            } else {
                now + wait
            })
        }),
{
}

/// The line counts what was sent, confirmed and lost, and ends with what is going on: a
/// measurement that runs before one that ended.
pub proof fn the_line_counts_and_tells(l: CommandLoop)
    ensures
        l.line() == "sent "@ + text::decimal(l.sent as nat) + "  confirmed "@ + text::decimal(
            l.confirmed as nat,
        ) + "  lost "@ + text::decimal(l.timed_out as nat) + "  |  "@ + l.doing(),
        l.pending is Some ==> l.doing() == "awaiting counter change..."@,
        l.pending is None && l.last is None ==> l.doing() == "no command sent yet"@,
        l.pending is None && l.last == Some(Outcome::TimedOut) ==> l.doing()
            == "TIMED OUT after 15s - command never reached sample_app"@,
        l.pending is None && (l.last matches Some(Outcome::Confirmed { .. })) ==> l.doing()
            == "confirmed in "@ + text::seconds(l.last->0->ticks as int) + "s"@,
{
}

/// An automatic no-op goes out at its time or later, once there is housekeeping, and not
/// before either; a look before its time leaves that time alone, and any other sets the
/// next one, sent or not.
pub proof fn automatic_noops_wait_for_housekeeping(
    next: u64,
    now: u64,
    period: u64,
    hk: Option<SampleAppHk>,
)
    ensures
        now < next ==> !noop_goes(next, now, hk) && noop_after(next, now, period) == next,
        hk is None ==> !noop_goes(next, now, hk),
        now >= next && hk is Some ==> noop_goes(next, now, hk),
        now >= next ==> noop_after(next, now, period) == next_noop(now, period),
{
}

/// A round trip is reported when one more has ended since the last report, in the words
/// of its outcome, and a second look reports nothing.
pub proof fn each_round_trip_is_reported_once(l: CommandLoop, seen: u32)
    ensures
        ended(l) == (l.confirmed + l.timed_out) % 0x1_0000_0000,
        report_due(l, ended(l)) is None,
        l.last is None ==> report_due(l, seen) is None,
        seen != ended(l) && l.last == Some(Outcome::TimedOut) ==> report_due(l, seen) == Some(
            "command loop TIMED OUT: no counter change within 15s"@,
        ),
        seen != ended(l) && (l.last matches Some(Outcome::Confirmed { .. })) ==> report_due(l, seen)
            == Some(
            "command loop closed: SAMPLE_APP CommandCounter changed "@ + text::seconds(
                l.last->0->ticks as int,
            ) + "s after send"@,
        ),
{
}

/// A loop starts with nothing sent, awaited, confirmed or lost.
pub proof fn a_loop_starts_idle()
    ensures
        ({
            let l = CommandLoop::idle();
            &&& l.pending is None
            &&& l.sent == 0
            &&& l.confirmed == 0
            &&& l.timed_out == 0
            &&& l.last is None
        }),
{
}

} // verus!
