//! Binding the model's joints, and refusing to pretend when one is missing.
//!
//! Binding is by node *name*: rename a joint in the modelling tool and the mapping
//! silently unbinds. So the expected names are enumerated, what was actually bound
//! is counted, and a failure is put on the screen. A display that silently stops
//! animating a mechanism is worse than one that refuses to start.

use vstd::prelude::*;

use crate::text;

verus! {

/// What a node of the model is to the drivers.
#[derive(Clone, Copy, Debug, PartialEq, Eq, Structural)]
pub enum Role {
    /// The scene's own root node. Carries vehicle attitude.
    VehicleRoot,
    /// Sun-tracking joint, one per wing.
    Yoke,
    PanelInner,
    PanelOuter,
    AntennaJoint,
    LampJoint,
    LampGeo,
}

/// The role a node plays, by its name.
pub open spec fn role_for(name: Seq<char>) -> Option<Role> {
    if text::begins(name, "Yoke."@) {
        Some(Role::Yoke)
    } else if text::begins(name, "Panel."@) && text::ends(name, ".1"@) {
        Some(Role::PanelInner)
    } else if text::begins(name, "Panel."@) && text::ends(name, ".2"@) {
        Some(Role::PanelOuter)
    } else if name == "Antenna"@ {
        Some(Role::AntennaJoint)
    } else if name == "Indicator"@ {
        Some(Role::LampJoint)
    } else if name == "IndicatorLamp"@ {
        Some(Role::LampGeo)
    } else if name == "SpacecraftRoot"@ {
        Some(Role::VehicleRoot)
    } else {
        None
    }
}

/// Tag a node by its name.
pub fn role_of(name: &str) -> (role: Option<Role>)
    ensures
        role == role_for(name@),
{
    if text::begins_with(name, "Yoke.") {
        Some(Role::Yoke)
    } else if text::begins_with(name, "Panel.") && text::ends_with(name, ".1") {
        Some(Role::PanelInner)
    } else if text::begins_with(name, "Panel.") && text::ends_with(name, ".2") {
        Some(Role::PanelOuter)
    } else if text::same_text(name, "Antenna") {
        Some(Role::AntennaJoint)
    } else if text::same_text(name, "Indicator") {
        Some(Role::LampJoint)
    } else if text::same_text(name, "IndicatorLamp") {
        Some(Role::LampGeo)
    } else if text::same_text(name, "SpacecraftRoot") {
        Some(Role::VehicleRoot)
    } else {
        None
    }
}

/// How many of each role a rig binds, in the order of [`expected`].
#[derive(Clone, Copy, Debug, PartialEq, Eq, Structural)]
pub struct Joints {
    pub roots: usize,
    pub yokes: usize,
    pub inner: usize,
    pub outer: usize,
    pub antenna: usize,
    pub lamp_joint: usize,
    pub lamp_geo: usize,
}

impl Joints {
    pub open spec fn counts(self) -> Seq<usize> {
        seq![
            self.roots,
            self.yokes,
            self.inner,
            self.outer,
            self.antenna,
            self.lamp_joint,
            self.lamp_geo,
        ]
    }

    fn array(&self) -> (a: [usize; 7])
        ensures
            a@ == self.counts(),
    {
        let a = [
            self.roots,
            self.yokes,
            self.inner,
            self.outer,
            self.antenna,
            self.lamp_joint,
            self.lamp_geo,
        ];
        assert(a@ =~= self.counts());
        a
    }
}

/// Every joint the drivers expect, with how many of it the rig has.
///
/// The counts matter as much as the names: one wing binding and the other not is a
/// real and very confusing failure, and a presence-only check would pass.
pub open spec fn wanted() -> Seq<(&'static str, usize)> {
    seq![
        ("SpacecraftRoot", 1usize),
        ("Yoke.{L,R}", 2usize),
        ("Panel.*.1", 2usize),
        ("Panel.*.2", 2usize),
        ("Antenna", 1usize),
        ("Indicator", 1usize),
        ("IndicatorLamp", 1usize),
    ]
}

pub fn expected() -> (e: [(&'static str, usize); 7])
    ensures
        e@ == wanted(),
{
    let e: [(&'static str, usize); 7] = [
        ("SpacecraftRoot", 1),
        ("Yoke.{L,R}", 2),
        ("Panel.*.1", 2),
        ("Panel.*.2", 2),
        ("Antenna", 1),
        ("Indicator", 1),
        ("IndicatorLamp", 1),
    ];
    assert(e@ =~= wanted());
    e
}

/// What to say of a joint bound the wrong number of times.
pub open spec fn fault(name: Seq<char>, want: usize, got: usize) -> Seq<char> {
    name + " (expected "@ + text::decimal(want as nat) + ", bound "@ + text::decimal(got as nat)
        + ")"@
}

/// The faults among the first `n` expected joints, in order.
pub open spec fn faults(found: Seq<usize>, n: int) -> Seq<Seq<char>>
    decreases n,
{
    if n <= 0 {
        seq![]
    } else if found[n - 1] != wanted()[n - 1].1 {
        faults(found, n - 1).push(fault(wanted()[n - 1].0@, wanted()[n - 1].1, found[n - 1]))
    } else {
        faults(found, n - 1)
    }
}

/// Name every joint that is not bound as often as expected.
pub fn missing_joints(found: &Joints) -> (missing: Vec<String>)
    ensures
        text::texts(missing@) == faults(found.counts(), 7),
{
    let want = expected();
    let got = found.array();
    let mut missing: Vec<String> = Vec::new();
    let mut i: usize = 0;
    assert(text::texts(missing@) =~= faults(found.counts(), 0));
    while i < 7
        invariant
            i <= 7,
            want@ == wanted(),
            got@ == found.counts(),
            text::texts(missing@) == faults(found.counts(), i as int),
        decreases 7 - i,
    {
        if got[i] != want[i].1 {
            let mut s = String::from_str(want[i].0);
            s.append(" (expected ");
            text::push_decimal(&mut s, want[i].1 as u64);
            s.append(", bound ");
            text::push_decimal(&mut s, got[i] as u64);
            s.append(")");
            let ghost before = missing@;
            missing.push(s);
            assert(text::texts(missing@) =~= text::texts(before).push(s@));
        }
        i = i + 1;
    }
    missing
}

/// Frames to let the scene finish streaming before judging it.
///
/// The scene arrives over several frames, so a check that ran the instant the
/// animation graph existed would report joints missing that were about to appear,
/// and a false alarm on such a banner is how it gets ignored.
pub const SETTLE_FRAMES: u32 = 30;

/// What the rig check found.
#[derive(Debug)]
pub enum RigStatus {
    Loading,
    /// Every expected joint is bound.
    Bound,
    /// Names that did not bind, with expected and actual counts.
    Broken(Vec<String>),
}

impl RigStatus {
    pub open spec fn wording(self) -> Option<Seq<char>> {
        match self {
            RigStatus::Broken(missing) => Some(
                "RIG UNBOUND: "@ + text::joined(text::texts(missing@), ", "@)
                    + " - regenerate with `cargo run -p gltf-gen`"@,
            ),
            _ => None,
        }
    }

    pub fn message(&self) -> (m: Option<String>)
        ensures
            match m {
                Some(s) => self.wording() == Some(s@),
                None => self.wording() is None,
            },
    {
        match self {
            RigStatus::Broken(missing) => {
                let mut s = String::from_str("RIG UNBOUND: ");
                text::push_joined(&mut s, missing, ", ");
                s.append(" - regenerate with `cargo run -p gltf-gen`");
                Some(s)
            },
            _ => None,
        }
    }
}

/// The check of a rig: its verdict, and how long it has been waiting to give one.
#[derive(Debug)]
pub struct RigCheck {
    pub status: RigStatus,
    /// Frames elapsed since the graph was built.
    pub settled: u32,
}

/// Frames waited after one more.
pub open spec fn waited(settled: u32) -> int {
    if settled < SETTLE_FRAMES {
        settled + 1
    } else {
        settled as int
    }
}

/// The verdict is due once this many frames have passed.
pub open spec fn has_settled(settled: u32) -> bool {
    settled >= SETTLE_FRAMES
}

impl RigCheck {
    pub fn new() -> (c: Self)
        ensures
            c.status is Loading,
            c.settled == 0,
    {
        RigCheck { status: RigStatus::Loading, settled: 0 }
    }

    /// Look at the rig for one frame.
    ///
    /// A verdict is given once, [`SETTLE_FRAMES`] after the graph was built, and
    /// stands from then on.
    pub fn check(&mut self, graph_built: bool, found: &Joints)
        ensures
            !(old(self).status is Loading) || !graph_built ==> *final(self) == *old(self),
            old(self).status is Loading && graph_built ==> {
                &&& final(self).settled == (if old(self).settled < SETTLE_FRAMES {
                    old(self).settled + 1
                } else {
                    old(self).settled as int
                })
                &&& final(self).settled == waited(old(self).settled)
                &&& final(self).status is Loading <==> !has_settled(final(self).settled)
                &&& final(self).settled < SETTLE_FRAMES ==> final(self).status is Loading
                &&& final(self).settled >= SETTLE_FRAMES ==> match final(self).status {
                    RigStatus::Loading => false,
                    RigStatus::Bound => faults(found.counts(), 7).len() == 0,
                    RigStatus::Broken(missing) => faults(found.counts(), 7).len() > 0
                        && text::texts(missing@) == faults(found.counts(), 7),
                }
            },
    {
        match self.status {
            RigStatus::Loading => {},
            _ => {
                return ;
            },
        }
        if !graph_built {
            return ;
        }
        if self.settled < SETTLE_FRAMES {
            self.settled = self.settled + 1;
        }
        if self.settled < SETTLE_FRAMES {
            return ;
        }
        let missing = missing_joints(found);
        assert(text::texts(missing@).len() == missing@.len());
        if missing.len() == 0 {
            self.status = RigStatus::Bound;
        } else {
            self.status = RigStatus::Broken(missing);
        }
    }
}

/// Nothing is reported of a rig exactly when every joint is bound as often as it
/// should be: a missing wing is as much a fault as a missing antenna.
pub proof fn only_a_complete_rig_passes(found: Joints)
    ensures
        faults(found.counts(), 7).len() == 0 <==> found == (Joints {
            roots: 1,
            yokes: 2,
            inner: 2,
            outer: 2,
            antenna: 1,
            lamp_joint: 1,
            lamp_geo: 1,
        }),
{
    reveal_with_fuel(faults, 8);
}

/// A fault, if the joint is not bound as often as it should be.
pub open spec fn fault_of(name: Seq<char>, want: usize, got: usize) -> Seq<Seq<char>> {
    if got == want {
        seq![]
    } else {
        seq![
            name + " (expected "@ + text::decimal(want as nat) + ", bound "@ + text::decimal(
                got as nat,
            ) + ")"@,
        ]
    }
}

/// Every joint that is bound too seldom or too often is named, with both counts, and in
/// the order of the rig.
pub proof fn each_fault_is_named_with_its_counts(found: Joints)
    ensures
        faults(found.counts(), 7) == fault_of("SpacecraftRoot"@, 1, found.roots) + fault_of(
            "Yoke.{L,R}"@,
            2,
            found.yokes,
        ) + fault_of("Panel.*.1"@, 2, found.inner) + fault_of("Panel.*.2"@, 2, found.outer)
            + fault_of("Antenna"@, 1, found.antenna) + fault_of("Indicator"@, 1, found.lamp_joint)
            + fault_of("IndicatorLamp"@, 1, found.lamp_geo),
{
    let c = found.counts();
    lemma_fault(c, 1);
    lemma_fault(c, 2);
    lemma_fault(c, 3);
    lemma_fault(c, 4);
    lemma_fault(c, 5);
    lemma_fault(c, 6);
    lemma_fault(c, 7);
    let first = fault_of("SpacecraftRoot"@, 1, found.roots);
    assert(faults(c, 0) + first =~= first);
}

proof fn lemma_fault(c: Seq<usize>, n: int)
    requires
        0 < n <= 7,
    ensures
        faults(c, n) == faults(c, n - 1) + fault_of(
            wanted()[n - 1].0@,
            wanted()[n - 1].1,
            c[n - 1],
        ),
{
    assert(faults(c, n) =~= faults(c, n - 1) + fault_of(
        wanted()[n - 1].0@,
        wanted()[n - 1].1,
        c[n - 1],
    ));
}

/// Wings are bound by how their names begin and end, whichever wing it is; everything
/// else by its whole name.
pub proof fn a_joint_is_bound_by_its_name(wing: Seq<char>, name: Seq<char>)
    ensures
        role_for("Yoke."@ + wing) == Some(Role::Yoke),
        role_for("Panel."@ + wing + ".1"@) == Some(Role::PanelInner),
        role_for("Panel."@ + wing + ".2"@) == Some(Role::PanelOuter),
        role_for("Antenna"@) == Some(Role::AntennaJoint),
        role_for("Indicator"@) == Some(Role::LampJoint),
        role_for("IndicatorLamp"@) == Some(Role::LampGeo),
        role_for("SpacecraftRoot"@) == Some(Role::VehicleRoot),
        role_for(name) == Some(Role::AntennaJoint) ==> name == "Antenna"@,
        role_for(name) == Some(Role::LampJoint) ==> name == "Indicator"@,
        role_for(name) == Some(Role::LampGeo) ==> name == "IndicatorLamp"@,
        role_for(name) == Some(Role::VehicleRoot) ==> name == "SpacecraftRoot"@,
        role_for(name) == Some(Role::Yoke) ==> name.len() >= 5 && name.take(5) == "Yoke."@,
        role_for(name) == Some(Role::PanelInner) ==> name.len() >= 6 && name.take(6) == "Panel."@
            && name.last() == '1',
        role_for(name) == Some(Role::PanelOuter) ==> name.len() >= 6 && name.take(6) == "Panel."@
            && name.last() == '2',
{
    reveal_strlit("Yoke.");
    reveal_strlit("Panel.");
    reveal_strlit(".1");
    reveal_strlit(".2");
    reveal_strlit("Antenna");
    reveal_strlit("Indicator");
    reveal_strlit("IndicatorLamp");
    reveal_strlit("SpacecraftRoot");
    let yoke = "Yoke."@;
    let panel = "Panel."@;
    text::a_prefix_leaves_a_rest(yoke, yoke, wing);
    let inner = panel + wing + ".1"@;
    let outer = panel + wing + ".2"@;
    text::a_prefix_leaves_a_rest(panel, panel, wing + ".1"@);
    text::a_prefix_leaves_a_rest(panel, panel, wing + ".2"@);
    assert(inner =~= panel + (wing + ".1"@));
    assert(outer =~= panel + (wing + ".2"@));
    text::a_prefix_leaves_a_rest(inner, ".1"@, panel + wing);
    text::a_prefix_leaves_a_rest(outer, ".2"@, panel + wing);
    assert(!text::begins(inner, yoke)) by {
        assert(inner.take(5)[0] == 'P');
    }
    assert(!text::begins(outer, yoke)) by {
        assert(outer.take(5)[0] == 'P');
    }
    assert(!text::ends(outer, ".1"@)) by {
        assert(outer.skip(outer.len() - 2)[1] == '2');
        assert(".1"@[1] == '1');
    }
    lemma_not_a_wing("Antenna"@);
    lemma_not_a_wing("Indicator"@);
    lemma_not_a_wing("IndicatorLamp"@);
    lemma_not_a_wing("SpacecraftRoot"@);
    assert("Antenna"@.len() == 7 && "Indicator"@.len() == 9);
    assert("IndicatorLamp"@.len() == 13 && "SpacecraftRoot"@.len() == 14);
    if text::ends(name, ".1"@) {
        text::a_prefix_leaves_a_rest(name, ".1"@, wing);
        assert(name.skip(name.len() - 2)[1] == name.last());
        assert(".1"@[1] == '1');
    }
    if text::ends(name, ".2"@) {
        assert(name.skip(name.len() - 2)[1] == name.last());
        assert(".2"@[1] == '2');
    }
}

/// A name that starts otherwise is no wing's.
proof fn lemma_not_a_wing(name: Seq<char>)
    requires
        name.len() >= 6,
        name[0] != 'Y' && name[0] != 'P',
    ensures
        !text::begins(name, "Yoke."@),
        !text::begins(name, "Panel."@),
{
    reveal_strlit("Yoke.");
    reveal_strlit("Panel.");
    assert(name.take(5)[0] == name[0]);
    assert(name.take(6)[0] == name[0]);
    assert("Yoke."@[0] == 'Y' && "Panel."@[0] == 'P');
}

/// The verdict comes with the thirtieth frame and not before; the count goes no further.
pub proof fn a_rig_is_judged_at_the_thirtieth_frame(settled: u32)
    ensures
        settled < 30 ==> waited(settled) == settled + 1 && !has_settled(settled),
        settled >= 30 ==> waited(settled) == settled && has_settled(settled),
{
}

/// Only a broken rig has something to say: every fault, in order, and what to do about it.
pub proof fn a_broken_rig_says_what_is_missing(status: RigStatus)
    ensures
        status is Loading || status is Bound ==> status.wording() is None,
        status matches RigStatus::Broken(missing) ==> status.wording() == Some(
            "RIG UNBOUND: "@ + text::joined(text::texts(missing@), ", "@)
                + " - regenerate with `cargo run -p gltf-gen`"@,
        ),
{
}

} // verus!
