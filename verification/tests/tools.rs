use cfs_telemetry::args::{first_plain, flag_number, flag_or, flag_port, flag_text, has_flag};
use cfs_telemetry::gltf::base64::base64;
use cfs_telemetry::gltf::buffer::{Buf, Number, Shape, ARRAY_BUFFER};
use cfs_telemetry::gltf::clip::{Anim, Channel, Sampler, Target};
use cfs_telemetry::gltf::document;
use cfs_telemetry::gltf::mesh::cube;
use cfs_telemetry::gltf::scene::Rotation;
use cfs_telemetry::gltf::spacecraft::{
    build_rig, deploy_clip, mode_clip, ANTENNA, INDICATOR, ROOT,
};
use cfs_telemetry::mappings;
use cfs_telemetry::mappings::{scripted_deployment, scripted_mode, Mapping, DEPLOY_LASTS};
use cfs_telemetry::model::Mode;
use cfs_telemetry::numeral::parse_decimal;
use cfs_telemetry::viz::rig::role_of;

fn words(args: &[&str]) -> Vec<String> {
    args.iter().map(|a| a.to_string()).collect()
}

#[test]
fn flags_are_looked_up_by_name() {
    let args = words(&["fixture", "--tlm-port", "99", "--rate", "8.5", "--loop", "--tlm-port", "1"]);
    assert_eq!(flag_port(&args, "--tlm-port", 1235), 99);
    assert_eq!(flag_port(&args, "--cmd-port", 1234), 1234);
    assert_eq!(flag_port(&args, "--rate", 7), 7, "not a port");
    assert_eq!(flag_text(&args, "--rate"), Some("8.5"));
    assert_eq!(flag_or(&args, "--out", "capture"), "capture");
    assert_eq!(flag_or(&args, "--loop", "x"), "--tlm-port");
    assert_eq!(flag_number(&args, "--seconds", 10), 10);
    assert!(has_flag(&args, "--loop"));
    assert!(!has_flag(&args, "--loops"));
    assert_eq!(first_plain(&args), Some("fixture"));
    assert_eq!(first_plain(&words(&["--loop"])), None);
    assert_eq!(flag_text(&words(&["--rate"]), "--rate"), None);
}

#[test]
fn numbers_read_as_they_are_spelled() {
    assert_eq!(parse_decimal("65535", 65535), Some(65535));
    assert_eq!(parse_decimal("65536", 65535), None);
    assert_eq!(parse_decimal("+7", 65535), Some(7));
    assert_eq!(parse_decimal("007", 65535), Some(7));
    for bad in ["", "+", "-1", "1a", " 1", "1.0"] {
        assert_eq!(parse_decimal(bad, 65535), None, "{bad:?}");
    }
    assert_eq!(parse_decimal("18446744073709551615", u64::MAX), Some(u64::MAX));
    assert_eq!(parse_decimal("18446744073709551616", u64::MAX), None);
}

#[test]
fn octets_become_text_in_groups_of_four() {
    let cases: [(&[u8], &str); 6] = [
        (b"", ""),
        (b"f", "Zg=="),
        (b"fo", "Zm8="),
        (b"foo", "Zm9v"),
        (b"foobar", "Zm9vYmFy"),
        (&[0xFB, 0xFF, 0xFE], "+//+"),
    ];
    for (data, wanted) in cases {
        assert_eq!(base64(&data.to_vec()), wanted);
    }
}

fn number(v: f32) -> Number {
    Number { bits: v.to_bits(), text: format!("{v:?}") }
}

#[test]
fn accessors_describe_what_they_hold() {
    let mut buf = Buf::new();
    let vals: Vec<Number> = [1.0, -2.0, 0.5, 3.0, 4.0, -0.25].iter().map(|v| number(*v)).collect();
    assert_eq!(buf.indices(&vec![1, 0x0203, 2]), 0);
    assert_eq!(buf.floats(&vals, Shape::Vec3, Some(ARRAY_BUFFER)), 1);
    assert_eq!(&buf.data[..8], &[1, 0, 3, 2, 2, 0, 0, 0], "padded to a multiple of four");
    assert_eq!(&buf.data[8..12], &1.0f32.to_le_bytes());
    assert_eq!(buf.data.len(), 8 + 24);
    assert_eq!(buf.views[0], r#"{"buffer":0,"byteOffset":0,"byteLength":6,"target":34963}"#);
    assert_eq!(buf.views[1], r#"{"buffer":0,"byteOffset":8,"byteLength":24,"target":34962}"#);
    assert_eq!(
        buf.accessors[0],
        r#"{"bufferView":0,"componentType":5123,"count":3,"type":"SCALAR"}"#
    );
    assert_eq!(
        buf.accessors[1],
        r#"{"bufferView":1,"componentType":5126,"count":2,"type":"VEC3","min":[1.0,-2.0,-0.25],"max":[3.0,4.0,0.5]}"#
    );
}

#[test]
fn the_cube_has_four_corners_to_a_face() {
    let (pos, nrm, idx) = cube();
    assert_eq!((pos.len(), nrm.len(), idx.len()), (72, 72, 36));
    assert_eq!(&pos[..12], &[1, -1, -1, 1, 1, -1, 1, 1, 1, 1, -1, 1]);
    assert_eq!(&pos[12..24], &[-1, -1, -1, -1, -1, 1, -1, 1, 1, -1, 1, -1]);
    assert_eq!(&nrm[12..15], &[-1, 0, 0]);
    assert_eq!(&idx[..12], &[0, 1, 2, 0, 2, 3, 4, 5, 6, 4, 6, 7]);
    assert!(pos.chunks(3).all(|p| p.iter().all(|c| *c == 1 || *c == -1)));
}

fn rotation(x: &str, y: &str, z: &str, w: &str) -> Rotation {
    Rotation { x: x.into(), y: y.into(), z: z.into(), w: w.into() }
}

#[test]
fn the_rig_is_built_node_by_node() {
    let sc = build_rig(
        rotation("0.0", "1.0", "0.0", "-4.371139e-8"),
        &rotation("0.0", "-0.9", "0.0", "0.2"),
        &rotation("0.0", "0.9", "0.0", "0.1"),
    );
    assert_eq!(sc.nodes.len(), 20);
    assert_eq!(sc.nodes[ROOT].name, "SpacecraftRoot");
    assert_eq!(sc.nodes[ROOT].children, vec![0, 1, 3, 5, 12]);
    assert_eq!(sc.nodes[ANTENNA].name, "Antenna");
    assert_eq!(sc.nodes[INDICATOR].name, "Indicator");
    assert_eq!(sc.nodes[8].name, "Panel.L.1");
    assert_eq!(sc.nodes[17].name, "Panel.R.2");
    assert_eq!(sc.nodes.iter().filter(|n| role_of(&n.name).is_some()).count(), 10);
    assert_eq!(
        sc.nodes[0].json(),
        r#"{"name":"Bus","mesh":0,"translation":[0.0,0.0,0.0],"scale":[0.8,0.8,1.0]}"#
    );
    assert_eq!(
        sc.nodes[6].json(),
        r#"{"name":"Yoke.L","children":[7,8],"translation":[-0.45,0.0,0.0],"rotation":[0.0,0.0,0.0,1.0]}"#
    );
    assert_eq!(
        sc.nodes[12].json(),
        r#"{"name":"ArrayRoot.R","children":[13],"translation":[0.0,0.0,0.0],"rotation":[0.0,1.0,0.0,-4.371139e-8]}"#
    );
    // Every node but the root hangs under exactly one other.
    let mut parents = vec![0; 20];
    for n in &sc.nodes {
        for c in &n.children {
            parents[*c] += 1;
        }
    }
    assert_eq!(parents[ROOT], 0);
    assert!(parents[..ROOT].iter().all(|p| *p == 1));
}

#[test]
fn clips_drive_their_joints() {
    let (inner, outer) = (Sampler { input: 3, output: 4 }, Sampler { input: 5, output: 6 });
    let deploy = deploy_clip(inner, outer);
    assert_eq!(deploy.name, "Deploy");
    assert_eq!(deploy.samplers, vec![inner, outer]);
    let driven: Vec<(usize, usize)> = deploy.channels.iter().map(|c| (c.node, c.sampler)).collect();
    assert_eq!(driven, vec![(8, 0), (10, 1), (15, 0), (17, 1)]);
    assert!(deploy.channels.iter().all(|c| c.target == Target::Rotation));

    let safe = mode_clip(Mode::Safe, inner, outer);
    assert_eq!(safe.name, "ModeSafe");
    assert_eq!(safe.samplers, vec![inner, outer]);
    assert_eq!(
        safe.channels,
        vec![
            Channel { node: ANTENNA, target: Target::Rotation, sampler: 0 },
            Channel { node: INDICATOR, target: Target::Scale, sampler: 1 },
        ]
    );
    assert_eq!(mode_clip(Mode::Deployed, inner, outer).name, "ModeDeployed");
}

#[test]
fn a_clip_is_written_with_its_samplers_and_channels() {
    let a = Anim {
        name: "Deploy".into(),
        samplers: vec![Sampler { input: 3, output: 4 }],
        channels: vec![
            Channel { node: 8, target: Target::Rotation, sampler: 0 },
            Channel { node: 3, target: Target::Scale, sampler: 0 },
        ],
    };
    assert_eq!(
        a.json(),
        r#"{"name":"Deploy","samplers":[{"input":3,"output":4,"interpolation":"LINEAR"}],"channels":[{"sampler":0,"target":{"node":8,"path":"rotation"}},{"sampler":0,"target":{"node":3,"path":"scale"}}]}"#
    );
}

#[test]
fn the_document_holds_its_parts_in_order() {
    let mut buf = Buf::new();
    buf.indices(&vec![0]);
    let sc = build_rig(
        rotation("0.0", "1.0", "0.0", "0.0"),
        &rotation("0.0", "0.0", "0.0", "1.0"),
        &rotation("0.0", "0.0", "0.0", "1.0"),
    );
    let shape = document::Shape { position: 5, normal: 6, indices: 7 };
    let text = document::document(ROOT, &sc, shape, &Vec::new(), &buf);
    assert!(text.starts_with(r#"{"asset":{"version":"2.0","generator":"cFS-investigation/gltf-gen"},"scene":0,"scenes":[{"name":"Spacecraft","nodes":[19]}],"nodes":[{"name":"Bus""#));
    assert!(text.contains(r#""meshes":[{"name":"BusMesh","primitives":[{"attributes":{"POSITION":5,"NORMAL":6},"indices":7,"material":0}]},{"name":"PanelMesh""#));
    assert!(text.ends_with(r#""buffers":[{"byteLength":2,"uri":"data:application/octet-stream;base64,AAA="}]}"#));
}

#[test]
fn each_column_changes_one_mechanism() {
    let all = Mapping::all();
    assert_eq!(all.map(|m| m.drives_panels()), [true, false, false]);
    assert_eq!(all.map(|m| m.blends_modes()), [false, false, true]);
    assert_eq!(all[1].label(), "2. CLIP AS LOOKUP TABLE");
}

#[test]
fn the_script_deploys_after_two_seconds() {
    let at = |ms: u64| ms * 1_024_000;
    assert_eq!(scripted_mode(at(1499)), Mode::Safe);
    assert_eq!(scripted_mode(at(1500)), Mode::Nominal);
    assert_eq!(scripted_mode(at(2000)), Mode::Deploying);
    assert_eq!(scripted_mode(at(9999)), Mode::Deploying);
    assert_eq!(scripted_mode(at(10_000)), Mode::Deployed);
    assert_eq!(scripted_deployment(at(1000)), 0);
    assert_eq!(scripted_deployment(at(6000)), DEPLOY_LASTS / 2);
    assert_eq!(scripted_deployment(at(60_000)), DEPLOY_LASTS);
}

#[test]
fn the_comparison_reads_its_command_line() {
    match mappings::parse_args(&words(&["--live", "--at", "2.5", "--exit-after"])) {
        mappings::Parsed::Run(a) => {
            assert!(a.live);
            assert_eq!(a.at, Some("2.5".to_string()));
            assert_eq!(a.exit_after, None);
            assert_eq!(a.screenshot, None);
        }
        other => panic!("{other:?}"),
    }
    assert!(matches!(mappings::parse_args(&words(&["--help"])), mappings::Parsed::Help));
    match mappings::parse_args(&words(&["--offline"])) {
        mappings::Parsed::Unknown(a) => assert_eq!(a, "--offline"),
        other => panic!("{other:?}"),
    }
}
