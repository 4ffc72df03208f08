//! The rig of the spacecraft.
//!
//! ```text
//! SpacecraftRoot          <- vehicle attitude
//! |- Bus
//! |- ArrayRoot.L / .R     <- fixed; .R is yawed half a turn so both arrays share
//! |   |- Yoke.{L,R}          one set of local joint angles and one sampler
//! |   |   |- Panel.{L,R}.1   <- inner hinge, swings out
//! |   |       |- Panel.{L,R}.2   <- outer hinge, unfolds
//! |- Antenna              <- mode-dependent pose
//! |- Indicator            <- emissive and visibility
//! ```

use vstd::prelude::*;

use crate::anim;
use crate::anim::{mode_clips, mode_index};
use crate::gltf::clip::{Anim, Channel, Sampler, Target};
use crate::gltf::scene;
use crate::gltf::scene::{NodeModel, Rotation, Scene};
use crate::model::state::Mode;
use crate::text;
use crate::viz::rig;
use crate::viz::rig::Role;

verus! {

/// The mesh of the body.
pub const BUS_MESH: usize = 0;

/// The mesh of the solar panels.
pub const PANEL_MESH: usize = 1;

/// The mesh of the lamp.
pub const INDICATOR_MESH: usize = 2;

/// The rotation that leaves a joint as it is.
pub open spec fn level() -> Seq<Seq<char>> {
    seq!["0.0"@, "0.0"@, "0.0"@, "1.0"@]
}

fn level_rotation() -> (r: Rotation)
    ensures
        r.parts() == level(),
{
    Rotation {
        x: String::from_str("0.0"),
        y: String::from_str("0.0"),
        z: String::from_str("0.0"),
        w: String::from_str("1.0"),
    }
}

/// One wing, whose nodes are numbered from `base`.
pub open spec fn wing(
    side: Seq<char>,
    base: int,
    yaw: Seq<Seq<char>>,
    inner: Seq<Seq<char>>,
    outer: Seq<Seq<char>>,
) -> Seq<NodeModel> {
    seq![
        scene::joint_node("ArrayRoot."@ + side, [0, 0, 0], yaw, seq![(base + 1) as usize]),
        scene::joint_node(
            "Yoke."@ + side,
            [-45i32, 0, 0],
            level(),
            seq![(base + 2) as usize, (base + 3) as usize],
        ),
        scene::geo_node("YokeArm."@ + side, BUS_MESH, [-15i32, 0, 0], [30, 8, 8]),
        scene::joint_node(
            "Panel."@ + side + ".1"@,
            [-30i32, 0, 0],
            inner,
            seq![(base + 4) as usize, (base + 5) as usize],
        ),
        scene::geo_node("PanelGeo."@ + side + ".1"@, PANEL_MESH, [-50i32, 0, 0], [100, 2, 70]),
        scene::joint_node(
            "Panel."@ + side + ".2"@,
            [-100i32, 0, 0],
            outer,
            seq![(base + 6) as usize],
        ),
        scene::geo_node("PanelGeo."@ + side + ".2"@, PANEL_MESH, [-50i32, 0, 0], [100, 2, 70]),
    ]
}

/// The body, the antenna and the lamp.
pub open spec fn body() -> Seq<NodeModel> {
    seq![
        scene::geo_node("Bus"@, BUS_MESH, [0, 0, 0], [80, 80, 100]),
        scene::joint_node("Antenna"@, [0, 45, -30i32], level(), seq![2usize]),
        scene::geo_node("AntennaDish"@, BUS_MESH, [0, 25, 0], [50, 6, 50]),
        scene::joint_node("Indicator"@, [0, 0, 55], level(), seq![4usize]),
        scene::geo_node("IndicatorLamp"@, INDICATOR_MESH, [0, 0, 0], [12, 12, 12]),
    ]
}

/// Every node of the rig, the root last.
pub open spec fn rig_nodes(
    yaw: Seq<Seq<char>>,
    inner: Seq<Seq<char>>,
    outer: Seq<Seq<char>>,
) -> Seq<NodeModel> {
    body() + wing("L"@, 5, level(), inner, outer) + wing("R"@, 12, yaw, inner, outer) + seq![
        scene::joint_node(
            "SpacecraftRoot"@,
            [0, 0, 0],
            level(),
            seq![0usize, 1usize, 3usize, 5usize, 12usize],
        ),
    ]
}

/// The number of the root node.
pub const ROOT: usize = 19;

/// The number of the antenna joint.
pub const ANTENNA: usize = 1;

/// The number of the lamp joint.
pub const INDICATOR: usize = 3;

/// The numbers of the inner and outer hinge of the left wing.
pub const LEFT_HINGES: (usize, usize) = (8, 10);

/// The numbers of the inner and outer hinge of the right wing.
pub const RIGHT_HINGES: (usize, usize) = (15, 17);

fn named(prefix: &str, side: &str, suffix: &str) -> (s: String)
    ensures
        s@ == prefix@ + side@ + suffix@,
{
    let mut s = String::from_str(prefix);
    s.append(side);
    s.append(suffix);
    s
}

fn one(a: usize) -> (v: Vec<usize>)
    ensures
        v@ == seq![a],
{
    let mut v: Vec<usize> = Vec::new();
    v.push(a);
    assert(v@ =~= seq![a]);
    v
}

fn two(a: usize, b: usize) -> (v: Vec<usize>)
    ensures
        v@ == seq![a, b],
{
    let mut v: Vec<usize> = Vec::new();
    v.push(a);
    v.push(b);
    assert(v@ =~= seq![a, b]);
    v
}

fn add_wing(sc: &mut Scene, side: &str, yaw: Rotation, inner: &Rotation, outer: &Rotation)
    requires
        old(sc)@.len() <= 100,
    ensures
        final(sc)@ == old(sc)@ + wing(
            side@,
            old(sc)@.len() as int,
            yaw.parts(),
            inner.parts(),
            outer.parts(),
        ),
{
    let base: usize = sc.nodes.len();
    assert(base == sc@.len());
    assert(forall|s: Seq<char>| #[trigger] (s + ""@) =~= s) by {
        reveal_strlit("");
    }
    let root_name = named("ArrayRoot.", side, "");
    let yoke_name = named("Yoke.", side, "");
    let arm_name = named("YokeArm.", side, "");
    let inner_name = named("Panel.", side, ".1");
    let inner_geo_name = named("PanelGeo.", side, ".1");
    let outer_name = named("Panel.", side, ".2");
    let outer_geo_name = named("PanelGeo.", side, ".2");
    let _ = sc.joint(root_name.as_str(), [0, 0, 0], yaw, one(base + 1));
    let _ = sc.joint(
        yoke_name.as_str(),
        [-45, 0, 0],
        level_rotation(),
        two(base + 2, base + 3),
    );
    let _ = sc.geo(arm_name.as_str(), BUS_MESH, [-15, 0, 0], [30, 8, 8]);
    let _ = sc.joint(inner_name.as_str(), [-30, 0, 0], inner.copy(), two(base + 4, base + 5));
    let _ = sc.geo(inner_geo_name.as_str(), PANEL_MESH, [-50, 0, 0], [100, 2, 70]);
    let _ = sc.joint(outer_name.as_str(), [-100, 0, 0], outer.copy(), one(base + 6));
    let _ = sc.geo(outer_geo_name.as_str(), PANEL_MESH, [-50, 0, 0], [100, 2, 70]);
    assert(sc@ =~= old(sc)@ + wing(
        side@,
        base as int,
        yaw.parts(),
        inner.parts(),
        outer.parts(),
    ));
}

/// Build the rig. `yaw` is half a turn about the vertical; `inner` and `outer` are
/// the stowed rotations of the hinges.
///
/// Both wings are built identically in local space.
pub fn build_rig(yaw: Rotation, inner: &Rotation, outer: &Rotation) -> (sc: Scene)
    ensures
        sc@ == rig_nodes(yaw.parts(), inner.parts(), outer.parts()),
{
    let mut sc = Scene::new();
    let _ = sc.geo("Bus", BUS_MESH, [0, 0, 0], [80, 80, 100]);
    let _ = sc.joint("Antenna", [0, 45, -30], level_rotation(), one(2));
    let _ = sc.geo("AntennaDish", BUS_MESH, [0, 25, 0], [50, 6, 50]);
    let _ = sc.joint("Indicator", [0, 0, 55], level_rotation(), one(4));
    let _ = sc.geo("IndicatorLamp", INDICATOR_MESH, [0, 0, 0], [12, 12, 12]);
    assert(sc@ =~= body());
    add_wing(&mut sc, "L", level_rotation(), inner, outer);
    add_wing(&mut sc, "R", yaw, inner, outer);
    let mut children: Vec<usize> = Vec::new();
    children.push(0);
    children.push(1);
    children.push(3);
    children.push(5);
    children.push(12);
    assert(children@ =~= seq![0usize, 1usize, 3usize, 5usize, 12usize]);
    let _ = sc.joint("SpacecraftRoot", [0, 0, 0], level_rotation(), children);
    assert(sc@ =~= rig_nodes(yaw.parts(), inner.parts(), outer.parts()));
    sc
}

/// The channels of the deployment: both wings alike, the inner hinge by the first
/// sampler and the outer one by the second.
pub open spec fn deploy_channels() -> Seq<Channel> {
    seq![
        Channel { node: LEFT_HINGES.0, target: Target::Rotation, sampler: 0 },
        Channel { node: LEFT_HINGES.1, target: Target::Rotation, sampler: 1 },
        Channel { node: RIGHT_HINGES.0, target: Target::Rotation, sampler: 0 },
        Channel { node: RIGHT_HINGES.1, target: Target::Rotation, sampler: 1 },
    ]
}

/// The deployment, with `inner` and `outer` for the hinges of either wing.
pub fn deploy_clip(inner: Sampler, outer: Sampler) -> (a: Anim)
    ensures
        a.name@ == "Deploy"@,
        a.samplers@ == seq![inner, outer],
        a.channels@ == deploy_channels(),
{
    let mut samplers: Vec<Sampler> = Vec::new();
    samplers.push(inner);
    samplers.push(outer);
    let mut channels: Vec<Channel> = Vec::new();
    channels.push(Channel { node: LEFT_HINGES.0, target: Target::Rotation, sampler: 0 });
    channels.push(Channel { node: LEFT_HINGES.1, target: Target::Rotation, sampler: 1 });
    channels.push(Channel { node: RIGHT_HINGES.0, target: Target::Rotation, sampler: 0 });
    channels.push(Channel { node: RIGHT_HINGES.1, target: Target::Rotation, sampler: 1 });
    Anim { name: String::from_str("Deploy"), samplers, channels }
}

/// The channels of a mode's pose: the antenna by the first sampler, the lamp's size by
/// the second.
pub open spec fn mode_channels() -> Seq<Channel> {
    seq![
        Channel { node: ANTENNA, target: Target::Rotation, sampler: 0 },
        Channel { node: INDICATOR, target: Target::Scale, sampler: 1 },
    ]
}

/// The pose of a mode, with `antenna` and `lamp` for what it moves.
pub fn mode_clip(mode: Mode, antenna: Sampler, lamp: Sampler) -> (a: Anim)
    ensures
        a.name@ == anim::clip_of(mode),
        a.samplers@ == seq![antenna, lamp],
        a.channels@ == mode_channels(),
{
    let names = mode_clips();
    let i: usize = mode_index(mode);
    assert(names[mode.code()]@ == anim::clip_of(mode));
    let mut samplers: Vec<Sampler> = Vec::new();
    samplers.push(antenna);
    samplers.push(lamp);
    let mut channels: Vec<Channel> = Vec::new();
    channels.push(Channel { node: ANTENNA, target: Target::Rotation, sampler: 0 });
    channels.push(Channel { node: INDICATOR, target: Target::Scale, sampler: 1 });
    Anim { name: String::from_str(names[i]), samplers, channels }
}

/// How many of a run of nodes play a role.
pub open spec fn playing(nodes: Seq<NodeModel>, role: Role) -> nat
    decreases nodes.len(),
{
    if nodes.len() == 0 {
        0
    } else if rig::role_for(nodes.last().name) == Some(role) {
        playing(nodes.drop_last(), role) + 1
    } else {
        playing(nodes.drop_last(), role)
    }
}

proof fn lemma_playing_splits(a: Seq<NodeModel>, b: Seq<NodeModel>, role: Role)
    ensures
        playing(a + b, role) == playing(a, role) + playing(b, role),
    decreases b.len(),
{
    if b.len() == 0 {
        assert(a + b =~= a);
    } else {
        assert((a + b).drop_last() =~= a + b.drop_last());
        lemma_playing_splits(a, b.drop_last(), role);
    }
}

proof fn lemma_body_roles()
    ensures
        rig::role_for("Bus"@) is None,
        rig::role_for("Antenna"@) == Some(Role::AntennaJoint),
        rig::role_for("AntennaDish"@) is None,
        rig::role_for("Indicator"@) == Some(Role::LampJoint),
        rig::role_for("IndicatorLamp"@) == Some(Role::LampGeo),
        rig::role_for("SpacecraftRoot"@) == Some(Role::VehicleRoot),
{
    reveal_strlit("Bus");
    reveal_strlit("Antenna");
    reveal_strlit("AntennaDish");
    reveal_strlit("Indicator");
    reveal_strlit("IndicatorLamp");
    reveal_strlit("SpacecraftRoot");
    reveal_strlit("Yoke.");
    reveal_strlit("Panel.");
    lemma_other_start("Bus"@);
    lemma_other_start("Antenna"@);
    lemma_other_start("AntennaDish"@);
    lemma_other_start("Indicator"@);
    lemma_other_start("IndicatorLamp"@);
    lemma_other_start("SpacecraftRoot"@);
    assert("Bus"@.len() == 3);
    assert("AntennaDish"@.len() == 11 && "Antenna"@.len() == 7 && "Indicator"@.len() == 9);
    assert("IndicatorLamp"@.len() == 13 && "SpacecraftRoot"@.len() == 14);
}

/// A name beginning with neither letter is neither a yoke nor a panel.
proof fn lemma_other_start(name: Seq<char>)
    requires
        name.len() > 0,
        name[0] != 'Y',
        name[0] != 'P',
    ensures
        !text::begins(name, "Yoke."@),
        !text::begins(name, "Panel."@),
{
    reveal_strlit("Yoke.");
    reveal_strlit("Panel.");
    if text::begins(name, "Yoke."@) {
        assert(name.take(5)[0] == "Yoke."@[0]);
    }
    if text::begins(name, "Panel."@) {
        assert(name.take(6)[0] == "Panel."@[0]);
    }
}

proof fn lemma_wing_roles(side: Seq<char>)
    ensures
        rig::role_for("ArrayRoot."@ + side) is None,
        rig::role_for("Yoke."@ + side) == Some(Role::Yoke),
        rig::role_for("YokeArm."@ + side) is None,
        rig::role_for("Panel."@ + side + ".1"@) == Some(Role::PanelInner),
        rig::role_for("PanelGeo."@ + side + ".1"@) is None,
        rig::role_for("Panel."@ + side + ".2"@) == Some(Role::PanelOuter),
        rig::role_for("PanelGeo."@ + side + ".2"@) is None,
{
    reveal_strlit("ArrayRoot.");
    reveal_strlit("Yoke.");
    reveal_strlit("YokeArm.");
    reveal_strlit("Panel.");
    reveal_strlit("PanelGeo.");
    reveal_strlit(".1");
    reveal_strlit(".2");
    reveal_strlit("Antenna");
    reveal_strlit("Indicator");
    reveal_strlit("IndicatorLamp");
    reveal_strlit("SpacecraftRoot");
    let root = "ArrayRoot."@ + side;
    assert(root[0] == 'A' && root[1] == 'r');
    lemma_other_start(root);
    assert("Antenna"@[1] == 'n');
    let yoke = "Yoke."@ + side;
    assert(yoke.take(5) =~= "Yoke."@);
    let arm = "YokeArm."@ + side;
    assert(arm[0] == 'Y' && arm[4] == 'A');
    if text::begins(arm, "Yoke."@) {
        assert(arm.take(5)[4] == "Yoke."@[4]);
    }
    if text::begins(arm, "Panel."@) {
        assert(arm.take(6)[0] == "Panel."@[0]);
    }
    let inner = "Panel."@ + side + ".1"@;
    lemma_panel(inner);
    assert(inner.take(6) =~= "Panel."@);
    assert(inner.skip(inner.len() - 2) =~= ".1"@);
    let outer = "Panel."@ + side + ".2"@;
    lemma_panel(outer);
    assert(outer.take(6) =~= "Panel."@);
    assert(outer.skip(outer.len() - 2) =~= ".2"@);
    assert(outer.skip(outer.len() - 2)[1] != ".1"@[1]);
    lemma_panel_geo("PanelGeo."@ + side + ".1"@);
    lemma_panel_geo("PanelGeo."@ + side + ".2"@);
}

proof fn lemma_panel(name: Seq<char>)
    requires
        name.len() > 0,
        name[0] == 'P',
    ensures
        !text::begins(name, "Yoke."@),
{
    reveal_strlit("Yoke.");
    if text::begins(name, "Yoke."@) {
        assert(name.take(5)[0] == "Yoke."@[0]);
    }
}

proof fn lemma_panel_geo(name: Seq<char>)
    requires
        name.len() > 5,
        name[0] == 'P',
        name[5] == 'G',
    ensures
        rig::role_for(name) is None,
{
    reveal_strlit("Panel.");
    reveal_strlit("Antenna");
    reveal_strlit("Indicator");
    reveal_strlit("IndicatorLamp");
    reveal_strlit("SpacecraftRoot");
    lemma_panel(name);
    if text::begins(name, "Panel."@) {
        assert(name.take(6)[5] == "Panel."@[5]);
    }
}

proof fn lemma_wing_plays(
    side: Seq<char>,
    base: int,
    yaw: Seq<Seq<char>>,
    inner: Seq<Seq<char>>,
    outer: Seq<Seq<char>>,
    role: Role,
)
    ensures
        playing(wing(side, base, yaw, inner, outer), role) == (match role {
            Role::Yoke => 1nat,
            Role::PanelInner => 1nat,
            Role::PanelOuter => 1nat,
            _ => 0nat,
        }),
{
    lemma_wing_roles(side);
    reveal_with_fuel(playing, 8);
}

/// The rig binds: of every joint the drivers expect, the generated model has exactly
/// as many as the check of the rig asks for.
pub proof fn the_generated_rig_binds(
    yaw: Seq<Seq<char>>,
    inner: Seq<Seq<char>>,
    outer: Seq<Seq<char>>,
)
    ensures
        ({
            let nodes = rig_nodes(yaw, inner, outer);
            let found = seq![
                playing(nodes, Role::VehicleRoot) as usize,
                playing(nodes, Role::Yoke) as usize,
                playing(nodes, Role::PanelInner) as usize,
                playing(nodes, Role::PanelOuter) as usize,
                playing(nodes, Role::AntennaJoint) as usize,
                playing(nodes, Role::LampJoint) as usize,
                playing(nodes, Role::LampGeo) as usize,
            ];
            rig::faults(found, 7).len() == 0
        }),
{
    let nodes = rig_nodes(yaw, inner, outer);
    lemma_rig_plays(yaw, inner, outer, Role::VehicleRoot);
    lemma_rig_plays(yaw, inner, outer, Role::Yoke);
    lemma_rig_plays(yaw, inner, outer, Role::PanelInner);
    lemma_rig_plays(yaw, inner, outer, Role::PanelOuter);
    lemma_rig_plays(yaw, inner, outer, Role::AntennaJoint);
    lemma_rig_plays(yaw, inner, outer, Role::LampJoint);
    lemma_rig_plays(yaw, inner, outer, Role::LampGeo);
    reveal_with_fuel(rig::faults, 8);
}

/// The numbers by which clips find their joints name exactly those joints.
pub proof fn the_numbers_name_their_joints(
    yaw: Seq<Seq<char>>,
    inner: Seq<Seq<char>>,
    outer: Seq<Seq<char>>,
)
    ensures
        ({
            let nodes = rig_nodes(yaw, inner, outer);
            &&& nodes.len() == ROOT + 1
            &&& nodes[ROOT as int].name == "SpacecraftRoot"@
            &&& nodes[ANTENNA as int].name == "Antenna"@
            &&& nodes[INDICATOR as int].name == "Indicator"@
            &&& nodes[LEFT_HINGES.0 as int].name == "Panel."@ + "L"@ + ".1"@
            &&& nodes[LEFT_HINGES.1 as int].name == "Panel."@ + "L"@ + ".2"@
            &&& nodes[RIGHT_HINGES.0 as int].name == "Panel."@ + "R"@ + ".1"@
            &&& nodes[RIGHT_HINGES.1 as int].name == "Panel."@ + "R"@ + ".2"@
            &&& nodes[LEFT_HINGES.0 as int].rotation == Some(inner)
            &&& nodes[LEFT_HINGES.1 as int].rotation == Some(outer)
            &&& nodes[RIGHT_HINGES.0 as int].rotation == Some(inner)
            &&& nodes[RIGHT_HINGES.1 as int].rotation == Some(outer)
        }),
{
}

proof fn lemma_rig_plays(
    yaw: Seq<Seq<char>>,
    inner: Seq<Seq<char>>,
    outer: Seq<Seq<char>>,
    role: Role,
)
    ensures
        playing(rig_nodes(yaw, inner, outer), role) == (match role {
            Role::VehicleRoot => 1nat,
            Role::Yoke => 2nat,
            Role::PanelInner => 2nat,
            Role::PanelOuter => 2nat,
            Role::AntennaJoint => 1nat,
            Role::LampJoint => 1nat,
            Role::LampGeo => 1nat,
        }),
{
    let left = wing("L"@, 5, level(), inner, outer);
    let right = wing("R"@, 12, yaw, inner, outer);
    let root = seq![
        scene::joint_node(
            "SpacecraftRoot"@,
            [0, 0, 0],
            level(),
            seq![0usize, 1usize, 3usize, 5usize, 12usize],
        ),
    ];
    lemma_body_roles();
    assert(playing(body(), role) == (match role {
        Role::AntennaJoint => 1nat,
        Role::LampJoint => 1nat,
        Role::LampGeo => 1nat,
        _ => 0nat,
    })) by {
        reveal_with_fuel(playing, 6);
    }
    assert(playing(root, role) == (match role {
        Role::VehicleRoot => 1nat,
        _ => 0nat,
    })) by {
        reveal_with_fuel(playing, 2);
    }
    lemma_wing_plays("L"@, 5, level(), inner, outer, role);
    lemma_wing_plays("R"@, 12, yaw, inner, outer, role);
    lemma_playing_splits(body(), left, role);
    lemma_playing_splits(body() + left, right, role);
    lemma_playing_splits(body() + left + right, root, role);
}

/// The rig hangs together: the root holds the body, the antenna, the lamp and both wings,
/// and each wing is a yoke with its arm, the inner panel on the yoke and the outer panel
/// on the inner one.
pub proof fn the_rig_hangs_from_its_root(
    yaw: Seq<Seq<char>>,
    inner: Seq<Seq<char>>,
    outer: Seq<Seq<char>>,
    right: bool,
)
    ensures
        ({
            let n = rig_nodes(yaw, inner, outer);
            let w: int = if right {
                12
            } else {
                5
            };
            &&& n.len() == 20
            &&& n[19].children == seq![0usize, 1usize, 3usize, 5usize, 12usize]
            &&& n[1].children == seq![2usize]
            &&& n[3].children == seq![4usize]
            &&& n[w].children == seq![(w + 1) as usize]
            &&& n[w + 1].children == seq![(w + 2) as usize, (w + 3) as usize]
            &&& n[w + 3].children == seq![(w + 4) as usize, (w + 5) as usize]
            &&& n[w + 5].children == seq![(w + 6) as usize]
            &&& n[0].children.len() == 0 && n[2].children.len() == 0 && n[4].children.len() == 0
            &&& n[w + 2].children.len() == 0 && n[w + 4].children.len() == 0 && n[w
                + 6].children.len() == 0
        }),
{
}

/// Every piece stands where it is drawn, in hundredths from its parent. The wings are
/// built alike; only the right one is turned.
pub proof fn every_piece_stands_in_its_place(
    yaw: Seq<Seq<char>>,
    inner: Seq<Seq<char>>,
    outer: Seq<Seq<char>>,
    right: bool,
)
    ensures
        ({
            let n = rig_nodes(yaw, inner, outer);
            let level = seq!["0.0"@, "0.0"@, "0.0"@, "1.0"@];
            let w: int = if right {
                12
            } else {
                5
            };
            &&& n[0] == scene::geo_node("Bus"@, 0, [0, 0, 0], [80, 80, 100])
            &&& n[1].translation == Some([0i32, 45, -30i32]) && n[1].rotation == Some(level)
            &&& n[2] == scene::geo_node("AntennaDish"@, 0, [0, 25, 0], [50, 6, 50])
            &&& n[3].translation == Some([0i32, 0, 55]) && n[3].rotation == Some(level)
            &&& n[4] == scene::geo_node("IndicatorLamp"@, 2, [0, 0, 0], [12, 12, 12])
            &&& n[w].translation == Some([0i32, 0, 0])
            &&& n[w].rotation == Some(if right {
                yaw
            } else {
                level
            })
            &&& n[w + 1].translation == Some([-45i32, 0, 0]) && n[w + 1].rotation == Some(level)
            &&& n[w + 2].translation == Some([-15i32, 0, 0])
            &&& n[w + 2].mesh == Some(0usize) && n[w + 2].scale == Some([30i32, 8, 8])
            &&& n[w + 3].translation == Some([-30i32, 0, 0]) && n[w + 3].rotation == Some(inner)
            &&& n[w + 4].translation == Some([-50i32, 0, 0])
            &&& n[w + 4].mesh == Some(1usize) && n[w + 4].scale == Some([100i32, 2, 70])
            &&& n[w + 5].translation == Some([-100i32, 0, 0]) && n[w + 5].rotation == Some(outer)
            &&& n[w + 6].translation == Some([-50i32, 0, 0])
            &&& n[w + 6].mesh == Some(1usize) && n[w + 6].scale == Some([100i32, 2, 70])
            &&& n[19].translation == Some([0i32, 0, 0]) && n[19].rotation == Some(level)
        }),
{
}

/// The deployment turns the inner hinges by one sampler and the outer ones by the other,
/// on both wings; a mode's pose turns the antenna and sizes the lamp.
pub proof fn clips_move_their_own_joints(
    yaw: Seq<Seq<char>>,
    inner: Seq<Seq<char>>,
    outer: Seq<Seq<char>>,
    i: int,
)
    ensures
        ({
            let n = rig_nodes(yaw, inner, outer);
            let d = deploy_channels();
            let m = mode_channels();
            &&& d.len() == 4
            &&& 0 <= i < 4 ==> d[i].target == Target::Rotation && d[i].sampler == i % 2
            &&& n[d[0].node as int].name == "Panel."@ + "L"@ + ".1"@
            &&& n[d[1].node as int].name == "Panel."@ + "L"@ + ".2"@
            &&& n[d[2].node as int].name == "Panel."@ + "R"@ + ".1"@
            &&& n[d[3].node as int].name == "Panel."@ + "R"@ + ".2"@
            &&& m.len() == 2
            &&& n[m[0].node as int].name == "Antenna"@
            &&& m[0].target == Target::Rotation && m[0].sampler == 0
            &&& n[m[1].node as int].name == "Indicator"@
            &&& m[1].target == Target::Scale && m[1].sampler == 1
        }),
{
}

} // verus!
