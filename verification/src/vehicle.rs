//! The vehicle's mode sequencer: what the ground can command, when the arrays move,
//! and which pointing target comes next.
//!
//! The rigid-body dynamics are the caller's. They tell the sequencer how much time
//! passed and whether the body rate and the pointing error have settled; it tells
//! them what to aim at.

use vstd::prelude::*;

use crate::model::state::Mode;

verus! {

/// What the ground can ask the vehicle to do.
#[derive(Clone, Copy, Debug, PartialEq, Eq, Structural)]
pub enum Command {
    /// Drop to `Safe`: no pointing, damp the rates, stop the survey and the
    /// deployment.
    Safe,
    /// Resume attitude control and the survey sequence.
    Nominal,
    /// Slew immediately to the next survey target, whatever the dwell timer says,
    /// and resume automatic sequencing if [`Command::Hold`] stopped it.
    NextTarget,
    /// Inertial hold: freeze on the current attitude and stop the sequencer.
    ///
    /// Distinct from [`Command::Safe`]: `Hold` keeps the attitude controller
    /// running, while `Safe` gives up pointing entirely and only damps the rates.
    Hold,
    /// Run the deployment. Ignored if it has already run.
    Deploy,
    /// Return the arrays to stowed, so the sequence can be watched again.
    Stow,
    /// Dump wheel momentum to zero.
    DumpMomentum,
}

/// Which way the arrays are moving.
#[derive(Clone, Copy, Debug, PartialEq, Eq, Structural)]
pub enum Travel {
    Still,
    Deploying,
    Stowing,
}

/// What the attitude controller should aim at from now on.
#[derive(Clone, Copy, Debug, PartialEq, Eq, Structural)]
pub enum Aim {
    /// Whatever it was aiming at.
    Unchanged,
    /// The attitude the vehicle has right now.
    Here,
    /// The survey target of this index.
    Survey(u8),
}

/// What a command asks of the dynamics.
#[derive(Clone, Copy, Debug, PartialEq, Eq, Structural)]
pub struct Effect {
    pub aim: Aim,
    pub dump_momentum: bool,
}

/// Ticks a deployment takes: 6 s.
pub const DEPLOY_TICKS: u64 = 6_144_000_000;

/// Ticks to hold a pointing target before the sequencer picks the next one: 6 s.
pub const SURVEY_DWELL_TICKS: u64 = 6_144_000_000;

/// Pointing targets in the survey.
pub const SURVEY_LEN: u8 = 6;

/// The sequencer. Command it and step it.
#[derive(Clone, Copy, Debug, PartialEq, Eq, Structural)]
pub struct Sequencer {
    pub mode: Mode,
    /// How far the arrays have travelled: zero stowed, [`DEPLOY_TICKS`] deployed.
    pub deployed_ticks: u64,
    pub travel: Travel,
    /// Whether the sequencer picks new targets on its own. Cleared by
    /// [`Command::Hold`].
    pub survey_active: bool,
    /// Ticks since the current survey target was commanded.
    pub dwell: u64,
    pub survey_index: u8,
    /// Pointing targets commanded since startup. Unlike the index it does not wrap
    /// with the survey, which is what makes it worth putting on a downlink.
    pub targets_commanded: u32,
    /// Whether the automatic deployment after the detumble has already run.
    pub auto_deploy_done: bool,
}

/// One step as the dynamics saw it.
#[derive(Clone, Copy, Debug, PartialEq, Eq, Structural)]
pub struct Step {
    pub dt: u64,
    /// The body rate is below the detumble threshold.
    pub detumbled: bool,
    /// The attitude error is small enough for a slew to count as complete.
    pub on_target: bool,
}

impl Sequencer {
    /// The mode says `Deploying` exactly while the arrays move, and `Deployed` only
    /// once they are all the way out.
    pub open spec fn wf(self) -> bool {
        &&& self.deployed_ticks <= DEPLOY_TICKS
        &&& self.survey_index < SURVEY_LEN
        &&& self.mode == Mode::Deploying <==> self.travel != Travel::Still
        &&& self.mode == Mode::Deployed ==> self.deployed_ticks == DEPLOY_TICKS
    }

    pub open spec fn start() -> Sequencer {
        Sequencer {
            mode: Mode::Safe,
            deployed_ticks: 0,
            travel: Travel::Still,
            survey_active: true,
            dwell: 0,
            survey_index: 0,
            targets_commanded: 0,
            auto_deploy_done: false,
        }
    }

    pub fn new() -> (s: Self)
        ensures
            s == Sequencer::start(),
            s.wf(),
    {
        Sequencer {
            mode: Mode::Safe,
            deployed_ticks: 0,
            travel: Travel::Still,
            survey_active: true,
            dwell: 0,
            survey_index: 0,
            targets_commanded: 0,
            auto_deploy_done: false,
        }
    }

    /// On the next survey target, its dwell just begun.
    pub open spec fn surveyed(self) -> Sequencer {
        Sequencer {
            survey_index: ((self.survey_index + 1) % SURVEY_LEN as int) as u8,
            targets_commanded: self.targets_commanded.wrapping_add(1),
            dwell: 0,
            ..self
        }
    }

    /// After a command.
    pub open spec fn commanded(self, cmd: Command) -> Sequencer {
        match cmd {
            Command::Safe => Sequencer { mode: Mode::Safe, travel: Travel::Still, ..self },
            Command::Nominal => if self.mode == Mode::Safe {
                Sequencer {
                    mode: Mode::Nominal,
                    dwell: SURVEY_DWELL_TICKS,
                    survey_active: true,
                    ..self
                }
            } else {
                self
            },
            Command::NextTarget => if self.mode != Mode::Safe {
                Sequencer { survey_active: true, ..self.surveyed() }
            } else {
                self
            },
            Command::Hold => if self.mode != Mode::Safe {
                Sequencer { survey_active: false, dwell: 0, ..self }
            } else {
                self
            },
            Command::Deploy => if self.deployed_ticks < DEPLOY_TICKS && self.mode != Mode::Safe {
                Sequencer { travel: Travel::Deploying, mode: Mode::Deploying, ..self }
            } else {
                self
            },
            Command::Stow => if self.deployed_ticks > 0 && self.mode != Mode::Safe {
                Sequencer { travel: Travel::Stowing, mode: Mode::Deploying, ..self }
            } else {
                self
            },
            Command::DumpMomentum => self,
        }
    }

    /// What a command asks of the dynamics.
    pub open spec fn effect_of(self, cmd: Command) -> Effect {
        Effect {
            aim: match cmd {
                Command::Nominal if self.mode == Mode::Safe => Aim::Here,
                Command::Hold if self.mode != Mode::Safe => Aim::Here,
                Command::NextTarget if self.mode != Mode::Safe => Aim::Survey(
                    self.surveyed().survey_index,
                ),
                _ => Aim::Unchanged,
            },
            dump_momentum: cmd == Command::DumpMomentum,
        }
    }

    /// How far the arrays are after moving for `dt`.
    pub open spec fn travelled(self, dt: u64) -> int {
        match self.travel {
            Travel::Deploying => if self.deployed_ticks + dt > DEPLOY_TICKS {
                DEPLOY_TICKS as int
            } else {
                self.deployed_ticks + dt
            },
            Travel::Stowing => if dt > self.deployed_ticks {
                0
            } else {
                self.deployed_ticks - dt
            },
            Travel::Still => self.deployed_ticks as int,
        }
    }

    /// The survey moves on at this step.
    pub open spec fn survey_due(self, step: Step) -> bool {
        &&& self.travel == Travel::Still
        &&& self.mode == Mode::Nominal || self.mode == Mode::Deployed
        &&& self.survey_active
        &&& step.on_target
        &&& self.dwell + step.dt >= SURVEY_DWELL_TICKS
    }

    /// `Safe` hands over at this step.
    pub open spec fn handover_due(self, step: Step) -> bool {
        self.mode == Mode::Safe && step.detumbled
    }

    /// After one step. No time, no change.
    pub open spec fn stepped(self, step: Step) -> Sequencer {
        if step.dt == 0 {
            self
        } else if self.travel != Travel::Still {
            // Deployment runs to completion in either direction and owns the mode
            // while it does.
            let t = self.travelled(step.dt) as u64;
            if t == DEPLOY_TICKS {
                Sequencer {
                    deployed_ticks: t,
                    travel: Travel::Still,
                    mode: Mode::Deployed,
                    ..self
                }
            } else if t == 0 {
                Sequencer { deployed_ticks: t, travel: Travel::Still, mode: Mode::Nominal, ..self }
            } else {
                Sequencer { deployed_ticks: t, ..self }
            }
        } else if self.handover_due(step) {
            Sequencer {
                mode: if self.auto_deploy_done {
                    Mode::Nominal
                } else {
                    Mode::Deploying
                },
                travel: if self.auto_deploy_done {
                    Travel::Still
                } else {
                    Travel::Deploying
                },
                survey_active: true,
                dwell: SURVEY_DWELL_TICKS,
                auto_deploy_done: true,
                ..self
            }
        } else if self.survey_due(step) {
            self.surveyed()
        } else if self.mode == Mode::Safe {
            self
        } else {
            Sequencer {
                dwell: if self.dwell + step.dt > u64::MAX {
                    u64::MAX
                } else {
                    (self.dwell + step.dt) as u64
                },
                ..self
            }
        }
    }

    /// What a step asks the controller to aim at.
    pub open spec fn aim_after(self, step: Step) -> Aim {
        if step.dt == 0 || self.travel != Travel::Still {
            Aim::Unchanged
        } else if self.handover_due(step) {
            Aim::Here
        } else if self.survey_due(step) {
            Aim::Survey(self.surveyed().survey_index)
        } else {
            Aim::Unchanged
        }
    }

    fn advance_survey(&mut self)
        requires
            old(self).survey_index < SURVEY_LEN,
        ensures
            *final(self) == old(self).surveyed(),
    {
        self.survey_index = (self.survey_index + 1) % SURVEY_LEN;
        self.targets_commanded = self.targets_commanded.wrapping_add(1);
        self.dwell = 0;
    }

    /// Apply a ground command.
    pub fn command(&mut self, cmd: Command) -> (effect: Effect)
        requires
            old(self).wf(),
        ensures
            final(self).wf(),
            *final(self) == old(self).commanded(cmd),
            effect == old(self).effect_of(cmd),
    {
        let mut aim = Aim::Unchanged;
        match cmd {
            Command::Safe => {
                self.mode = Mode::Safe;
                self.travel = Travel::Still;
            },
            Command::Nominal => {
                if self.mode == Mode::Safe {
                    self.mode = Mode::Nominal;
                    // Hold where we are rather than snapping back to the survey:
                    // commanding a mode should not also command a slew.
                    aim = Aim::Here;
                    self.dwell = SURVEY_DWELL_TICKS;
                    self.survey_active = true;
                }
            },
            Command::NextTarget => {
                if self.mode != Mode::Safe {
                    self.survey_active = true;
                    self.advance_survey();
                    aim = Aim::Survey(self.survey_index);
                }
            },
            Command::Hold => {
                if self.mode != Mode::Safe {
                    self.survey_active = false;
                    aim = Aim::Here;
                    self.dwell = 0;
                }
            },
            Command::Deploy => {
                if self.deployed_ticks < DEPLOY_TICKS && self.mode != Mode::Safe {
                    self.travel = Travel::Deploying;
                    self.mode = Mode::Deploying;
                }
            },
            Command::Stow => {
                if self.deployed_ticks > 0 && self.mode != Mode::Safe {
                    self.travel = Travel::Stowing;
                    self.mode = Mode::Deploying;
                }
            },
            Command::DumpMomentum => {},
        }
        Effect { aim, dump_momentum: cmd == Command::DumpMomentum }
    }

    /// Mode transitions and the survey sequencer, one step.
    pub fn step_modes(&mut self, step: Step) -> (aim: Aim)
        requires
            old(self).wf(),
        ensures
            final(self).wf(),
            *final(self) == old(self).stepped(step),
            aim == old(self).aim_after(step),
    {
        if step.dt == 0 {
            return Aim::Unchanged;
        }
        if self.travel != Travel::Still {
            if self.travel == Travel::Deploying {
                self.deployed_ticks = if step.dt > DEPLOY_TICKS - self.deployed_ticks {
                    DEPLOY_TICKS
                } else {
                    self.deployed_ticks + step.dt
                };
            } else {
                self.deployed_ticks = self.deployed_ticks.saturating_sub(step.dt);
            }
            if self.deployed_ticks >= DEPLOY_TICKS {
                self.travel = Travel::Still;
                self.mode = Mode::Deployed;
            } else if self.deployed_ticks == 0 {
                self.travel = Travel::Still;
                self.mode = Mode::Nominal;
            }
            return Aim::Unchanged;
        }
        match self.mode {
            Mode::Safe => {
                // Leave Safe without being told once the tumble is damped: a vehicle
                // that needs a ground command to start working would leave the
                // display showing nothing until someone pressed a key.
                if step.detumbled {
                    self.mode = Mode::Nominal;
                    self.survey_active = true;
                    // Start the first slew immediately rather than dwelling on the
                    // arbitrary attitude the tumble happened to end at.
                    self.dwell = SURVEY_DWELL_TICKS;
                    // Deploy the arrays once the tumble is under control, which is
                    // the order a real vehicle does it in, and only once.
                    if !self.auto_deploy_done {
                        self.auto_deploy_done = true;
                        self.travel = Travel::Deploying;
                        self.mode = Mode::Deploying;
                    }
                    return Aim::Here;
                }
                Aim::Unchanged
            },
            _ => {
                self.dwell = self.dwell.saturating_add(step.dt);
                if self.survey_active && step.on_target && self.dwell >= SURVEY_DWELL_TICKS {
                    self.advance_survey();
                    return Aim::Survey(self.survey_index);
                }
                Aim::Unchanged
            },
        }
    }
}

impl Default for Sequencer {
    fn default() -> (s: Self)
        ensures
            s == Sequencer::start(),
    {
        Sequencer::new()
    }
}

/// The sequencer after a run of steps.
pub open spec fn after_run(s: Sequencer, run: Seq<Step>) -> Sequencer
    decreases run.len(),
{
    if run.len() == 0 {
        s
    } else {
        after_run(s, run.drop_last()).stepped(run.last())
    }
}

/// Time a run takes.
pub open spec fn duration(run: Seq<Step>) -> int
    decreases run.len(),
{
    if run.len() == 0 {
        0
    } else {
        duration(run.drop_last()) + run.last().dt
    }
}

/// `Deploy` and `Stow` are mechanisms, not pointing modes: a vehicle still tumbling
/// in `Safe` refuses both, and every pointing command too. Its mode, its arrays and
/// its target answer to [`Command::Nominal`] alone; its wheels can still be dumped.
pub proof fn safe_refuses_everything_but_nominal(s: Sequencer, cmd: Command)
    requires
        s.wf(),
        s.mode == Mode::Safe,
        cmd != Command::Nominal,
    ensures
        s.commanded(cmd) == s,
        s.effect_of(cmd).aim == Aim::Unchanged,
        s.effect_of(cmd).dump_momentum == (cmd == Command::DumpMomentum),
{
}

/// `Safe` stops the survey: no step of a vehicle in `Safe` picks a target.
pub proof fn safe_picks_no_target(s: Sequencer, step: Step)
    requires
        s.wf(),
        s.mode == Mode::Safe,
    ensures
        s.stepped(step).targets_commanded == s.targets_commanded,
        s.stepped(step).survey_index == s.survey_index,
        !(s.aim_after(step) is Survey),
{
}

/// `Nominal` resumes the survey after `Safe`, even where a hold had stopped it before:
/// the vehicle stays where it points, and the first step on target picks the next one.
pub proof fn nominal_resumes_a_held_survey(s: Sequencer, step: Step)
    requires
        s.wf(),
        s.mode != Mode::Safe,
        step.on_target,
        step.dt > 0,
    ensures
        ({
            let safe = s.commanded(Command::Hold).commanded(Command::Safe);
            let resumed = safe.commanded(Command::Nominal);
            &&& safe.effect_of(Command::Nominal).aim == Aim::Here
            &&& resumed.survey_active
            &&& resumed.targets_commanded == s.targets_commanded
            &&& resumed.stepped(step).targets_commanded == s.targets_commanded.wrapping_add(1)
        }),
{
}

/// Once the automatic deployment has run, no step ever starts a deployment again.
pub proof fn the_automatic_deployment_fires_once(s: Sequencer, run: Seq<Step>)
    requires
        s.wf(),
        s.auto_deploy_done,
        s.travel == Travel::Still,
    ensures
        after_run(s, run).wf(),
        after_run(s, run).auto_deploy_done,
        after_run(s, run).travel == Travel::Still,
        after_run(s, run).deployed_ticks == s.deployed_ticks,
    decreases run.len(),
{
    if run.len() > 0 {
        the_automatic_deployment_fires_once(s, run.drop_last());
    }
}

/// A vehicle on hold picks no target of its own, however long it is stepped, and
/// the next-target command moves it on by exactly one and restarts the sequencer.
pub proof fn hold_stops_the_sequencer_until_the_next_target(s: Sequencer, run: Seq<Step>)
    requires
        s.wf(),
        s.mode != Mode::Safe,
    ensures
        ({
            let held = after_run(s.commanded(Command::Hold), run);
            &&& held.wf()
            &&& held.mode != Mode::Safe
            &&& !held.survey_active
            &&& held.targets_commanded == s.targets_commanded
            &&& held.survey_index == s.survey_index
            &&& held.commanded(Command::NextTarget).survey_active
            &&& held.commanded(Command::NextTarget).targets_commanded
                == s.targets_commanded.wrapping_add(1)
            &&& held.commanded(Command::NextTarget).survey_index == (s.survey_index + 1)
                % SURVEY_LEN as int
        }),
    decreases run.len(),
{
    if run.len() > 0 {
        hold_stops_the_sequencer_until_the_next_target(s, run.drop_last());
    }
}

/// A commanded deployment reaches its end after as much time as the arrays have
/// left to travel, and stays there.
pub proof fn a_deployment_runs_to_completion(s: Sequencer, run: Seq<Step>)
    requires
        s.wf(),
        s.travel == Travel::Deploying,
        s.deployed_ticks < DEPLOY_TICKS,
    ensures
        after_run(s, run).wf(),
        duration(run) >= DEPLOY_TICKS - s.deployed_ticks ==> {
            &&& after_run(s, run).mode == Mode::Deployed
            &&& after_run(s, run).deployed_ticks == DEPLOY_TICKS
        },
        duration(run) < DEPLOY_TICKS - s.deployed_ticks ==> {
            &&& after_run(s, run).deployed_ticks == s.deployed_ticks + duration(run)
            &&& after_run(s, run).travel == Travel::Deploying
        },
    decreases run.len(),
{
    lemma_duration(run);
    if run.len() > 0 {
        lemma_duration(run.drop_last());
        a_deployment_runs_to_completion(s, run.drop_last());
    }
}

/// A commanded stow likewise ends with the arrays stowed and the vehicle nominal.
pub proof fn a_stow_runs_to_completion(s: Sequencer, run: Seq<Step>)
    requires
        s.wf(),
        s.travel == Travel::Stowing,
        0 < s.deployed_ticks,
    ensures
        after_run(s, run).wf(),
        duration(run) >= s.deployed_ticks ==> {
            &&& after_run(s, run).mode == Mode::Nominal
            &&& after_run(s, run).deployed_ticks == 0
        },
        duration(run) < s.deployed_ticks ==> {
            &&& after_run(s, run).deployed_ticks == s.deployed_ticks - duration(run)
            &&& after_run(s, run).travel == Travel::Stowing
        },
    decreases run.len(),
{
    lemma_duration(run);
    if run.len() > 0 {
        lemma_duration(run.drop_last());
        a_stow_runs_to_completion(s, run.drop_last());
    }
}

proof fn lemma_duration(run: Seq<Step>)
    ensures
        duration(run) >= 0,
    decreases run.len(),
{
    if run.len() > 0 {
        lemma_duration(run.drop_last());
    }
}

/// `Hold` freezes the vehicle on the attitude it has, in every mode that points: the
/// controller aims here, the sequencer stops, and the dwell starts over. Nothing else
/// changes.
pub proof fn hold_aims_at_the_attitude_of_the_moment(s: Sequencer)
    requires
        s.wf(),
        s.mode != Mode::Safe,
    ensures
        ({
            let held = s.commanded(Command::Hold);
            &&& s.effect_of(Command::Hold).aim is Here
            &&& !s.effect_of(Command::Hold).dump_momentum
            &&& !held.survey_active
            &&& held.dwell == 0
            &&& held.mode == s.mode
            &&& held.travel == s.travel
            &&& held.deployed_ticks == s.deployed_ticks
            &&& held.survey_index == s.survey_index
            &&& held.targets_commanded == s.targets_commanded
            &&& held.auto_deploy_done == s.auto_deploy_done
        }),
{
}

/// The next-target command aims at the target that the survey then stands at: the one
/// after the last, or the first after the sixth. It leaves the mode and the arrays alone.
pub proof fn the_next_target_is_the_one_aimed_at(s: Sequencer)
    requires
        s.wf(),
        s.mode != Mode::Safe,
    ensures
        ({
            let next = s.commanded(Command::NextTarget);
            &&& s.effect_of(Command::NextTarget).aim == Aim::Survey(next.survey_index)
            &&& !s.effect_of(Command::NextTarget).dump_momentum
            &&& s.survey_index < 5 ==> next.survey_index == s.survey_index + 1
            &&& s.survey_index == 5 ==> next.survey_index == 0
            &&& next.targets_commanded == (if s.targets_commanded == u32::MAX {
                0
            } else {
                s.targets_commanded + 1
            })
            &&& next.dwell == 0
            &&& next.survey_active
            &&& next.mode == s.mode
            &&& next.travel == s.travel
            &&& next.deployed_ticks == s.deployed_ticks
            &&& next.auto_deploy_done == s.auto_deploy_done
        }),
{
}

/// `Safe` stops the arrays where they are and gives up pointing. It commands no slew and
/// forgets nothing of the survey.
pub proof fn safe_stops_the_arrays_where_they_are(s: Sequencer)
    requires
        s.wf(),
    ensures
        ({
            let safe = s.commanded(Command::Safe);
            &&& s.effect_of(Command::Safe).aim is Unchanged
            &&& !s.effect_of(Command::Safe).dump_momentum
            &&& safe.mode == Mode::Safe
            &&& safe.travel == Travel::Still
            &&& safe.deployed_ticks == s.deployed_ticks
            &&& safe.survey_active == s.survey_active
            &&& safe.dwell == s.dwell
            &&& safe.survey_index == s.survey_index
            &&& safe.targets_commanded == s.targets_commanded
            &&& safe.auto_deploy_done == s.auto_deploy_done
        }),
{
}

/// `Nominal` takes a vehicle out of `Safe` where it points, with a dwell of six seconds
/// already behind it, and leaves a vehicle in any other mode as it is.
pub proof fn nominal_leaves_safe_and_nothing_else(s: Sequencer)
    requires
        s.wf(),
    ensures
        ({
            let nominal = s.commanded(Command::Nominal);
            &&& !s.effect_of(Command::Nominal).dump_momentum
            &&& s.mode != Mode::Safe ==> nominal == s && s.effect_of(
                Command::Nominal,
            ).aim is Unchanged
            &&& s.mode == Mode::Safe ==> {
                &&& s.effect_of(Command::Nominal).aim is Here
                &&& nominal.mode == Mode::Nominal
                &&& nominal.survey_active
                &&& nominal.dwell == 6_144_000_000
                &&& nominal.travel == s.travel
                &&& nominal.deployed_ticks == s.deployed_ticks
                &&& nominal.survey_index == s.survey_index
                &&& nominal.targets_commanded == s.targets_commanded
                &&& nominal.auto_deploy_done == s.auto_deploy_done
            }
        }),
{
}

/// Outside `Safe`, `Deploy` sets arrays that are not all the way out moving out, and
/// `Stow` sets arrays that are not all the way in moving in, from where they are. Both
/// leave the survey and the aim alone; with the way already behind them they change
/// nothing.
pub proof fn the_arrays_move_where_they_are_sent(s: Sequencer, out: bool)
    requires
        s.wf(),
        s.mode != Mode::Safe,
    ensures
        ({
            let cmd = if out {
                Command::Deploy
            } else {
                Command::Stow
            };
            let moving = s.commanded(cmd);
            let there = if out {
                s.deployed_ticks == 6_144_000_000
            } else {
                s.deployed_ticks == 0
            };
            &&& s.effect_of(cmd).aim is Unchanged
            &&& !s.effect_of(cmd).dump_momentum
            &&& there ==> moving == s
            &&& !there ==> {
                &&& moving.mode == Mode::Deploying
                &&& moving.travel == (if out {
                    Travel::Deploying
                } else {
                    Travel::Stowing
                })
                &&& moving.deployed_ticks == s.deployed_ticks
                &&& moving.survey_active == s.survey_active
                &&& moving.dwell == s.dwell
                &&& moving.survey_index == s.survey_index
                &&& moving.targets_commanded == s.targets_commanded
                &&& moving.auto_deploy_done == s.auto_deploy_done
            }
        }),
{
}

/// Momentum is dumped on that command alone, in every mode, and costs the sequencer
/// nothing.
pub proof fn momentum_is_dumped_on_command_alone(s: Sequencer, cmd: Command)
    ensures
        s.effect_of(cmd).dump_momentum <==> cmd == Command::DumpMomentum,
        s.effect_of(Command::DumpMomentum).aim is Unchanged,
        s.commanded(Command::DumpMomentum) == s,
{
}

/// Moving arrays travel by as much time as passes and stop at either end: all the way
/// out the vehicle is deployed, all the way in it is nominal. The survey waits
/// meanwhile, and the aim stays.
pub proof fn moving_arrays_stop_at_either_end(s: Sequencer, step: Step)
    requires
        s.wf(),
        s.travel != Travel::Still,
        step.dt > 0,
    ensures
        ({
            let next = s.stepped(step);
            let reach = if s.travel == Travel::Deploying {
                s.deployed_ticks + step.dt
            } else {
                s.deployed_ticks - step.dt
            };
            &&& s.aim_after(step) is Unchanged
            &&& reach >= 6_144_000_000 ==> next.deployed_ticks == 6_144_000_000 && next.mode
                == Mode::Deployed && next.travel == Travel::Still
            &&& reach <= 0 ==> next.deployed_ticks == 0 && next.mode == Mode::Nominal
                && next.travel == Travel::Still
            &&& 0 < reach < 6_144_000_000 ==> next.deployed_ticks == reach && next.mode
                == Mode::Deploying && next.travel == s.travel
            &&& next.survey_active == s.survey_active
            &&& next.dwell == s.dwell
            &&& next.survey_index == s.survey_index
            &&& next.targets_commanded == s.targets_commanded
            &&& next.auto_deploy_done == s.auto_deploy_done
        }),
{
}

/// A vehicle in `Safe` waits until the tumble is damped, then points where it is. The
/// first time it deploys its arrays; from then on it goes straight to nominal.
pub proof fn a_damped_tumble_ends_safe(s: Sequencer, step: Step)
    requires
        s.wf(),
        s.mode == Mode::Safe,
        step.dt > 0,
    ensures
        ({
            let next = s.stepped(step);
            &&& !step.detumbled ==> next == s && s.aim_after(step) is Unchanged
            &&& step.detumbled ==> {
                &&& s.aim_after(step) is Here
                &&& next.mode == (if s.auto_deploy_done {
                    Mode::Nominal
                } else {
                    Mode::Deploying
                })
                &&& next.travel == (if s.auto_deploy_done {
                    Travel::Still
                } else {
                    Travel::Deploying
                })
                &&& next.auto_deploy_done
                &&& next.survey_active
                &&& next.dwell == 6_144_000_000
                &&& next.deployed_ticks == s.deployed_ticks
                &&& next.survey_index == s.survey_index
                &&& next.targets_commanded == s.targets_commanded
            }
        }),
{
}

/// With the arrays at rest the survey moves on exactly when it is active, the vehicle is
/// on target and it has dwelt there for six seconds; until then the dwell grows by the
/// time that passes. Either way the mode and the arrays stay.
pub proof fn the_survey_moves_on_after_its_dwell(s: Sequencer, step: Step)
    requires
        s.wf(),
        s.mode == Mode::Nominal || s.mode == Mode::Deployed,
        step.dt > 0,
    ensures
        ({
            let next = s.stepped(step);
            let due = s.survey_active && step.on_target && s.dwell + step.dt >= 6_144_000_000;
            &&& due ==> {
                &&& s.aim_after(step) == Aim::Survey(next.survey_index)
                &&& next.survey_index == (s.survey_index + 1) % 6
                &&& next.targets_commanded == s.targets_commanded.wrapping_add(1)
                &&& next.dwell == 0
            }
            &&& !due ==> {
                &&& s.aim_after(step) is Unchanged
                &&& next.survey_index == s.survey_index
                &&& next.targets_commanded == s.targets_commanded
                &&& next.dwell == (if s.dwell + step.dt > u64::MAX {
                    u64::MAX as int
                } else {
                    s.dwell + step.dt
                })
            }
            &&& next.mode == s.mode
            &&& next.travel == s.travel
            &&& next.deployed_ticks == s.deployed_ticks
            &&& next.survey_active == s.survey_active
            &&& next.auto_deploy_done == s.auto_deploy_done
        }),
{
}

/// A step that takes no time changes nothing and moves the aim nowhere.
pub proof fn without_time_nothing_moves(s: Sequencer, step: Step)
    requires
        step.dt == 0,
    ensures
        s.stepped(step) == s,
        s.aim_after(step) is Unchanged,
{
}

/// A vehicle starts in `Safe`, stowed, with a survey that nothing has stopped and
/// nothing commanded.
pub proof fn a_vehicle_starts_stowed_in_safe()
    ensures
        ({
            let s = Sequencer::start();
            &&& s.wf()
            &&& s.mode == Mode::Safe
            &&& s.deployed_ticks == 0
            &&& s.travel == Travel::Still
            &&& s.survey_active
            &&& s.dwell == 0
            &&& s.survey_index == 0
            &&& s.targets_commanded == 0
            &&& !s.auto_deploy_done
        }),
{
}

} // verus!
