//! The document as a whole.

use vstd::prelude::*;

use crate::gltf::base64;
use crate::gltf::buffer::Buf;
use crate::gltf::clip;
use crate::gltf::clip::Anim;
use crate::gltf::scene;
use crate::gltf::scene::Scene;
use crate::text;

verus! {

/// The accessors that the one shape is made of.
#[derive(Clone, Copy, Debug, PartialEq, Eq, Structural)]
pub struct Shape {
    pub position: usize,
    pub normal: usize,
    pub indices: usize,
}

/// A mesh: the one shape, in a material of its own. Separate meshes are how a
/// material is assigned per node.
pub open spec fn written_mesh(name: Seq<char>, shape: Shape, material: nat) -> Seq<char> {
    "{\"name\":\""@ + name + "\",\"primitives\":[{\"attributes\":{\"POSITION\":"@ + text::decimal(
        shape.position as nat,
    ) + ",\"NORMAL\":"@ + text::decimal(shape.normal as nat) + "},\"indices\":"@ + text::decimal(
        shape.indices as nat,
    ) + ",\"material\":"@ + text::decimal(material) + "}]}"@
}

fn mesh_text(name: &str, shape: Shape, material: u64) -> (s: String)
    ensures
        s@ == written_mesh(name@, shape, material as nat),
{
    let mut s = String::from_str("{\"name\":\"");
    s.append(name);
    s.append("\",\"primitives\":[{\"attributes\":{\"POSITION\":");
    text::push_decimal(&mut s, shape.position as u64);
    s.append(",\"NORMAL\":");
    text::push_decimal(&mut s, shape.normal as u64);
    s.append("},\"indices\":");
    text::push_decimal(&mut s, shape.indices as u64);
    s.append(",\"material\":");
    text::push_decimal(&mut s, material);
    s.append("}]}");
    s
}

/// Every mesh.
pub open spec fn written_meshes(shape: Shape) -> Seq<char> {
    written_mesh("BusMesh"@, shape, 0) + ","@ + written_mesh("PanelMesh"@, shape, 1) + ","@
        + written_mesh("IndicatorMesh"@, shape, 2)
}

fn meshes_text(shape: Shape) -> (s: String)
    ensures
        s@ == written_meshes(shape),
{
    let mut s = mesh_text("BusMesh", shape, 0);
    s.append(",");
    let panel = mesh_text("PanelMesh", shape, 1);
    s.append(panel.as_str());
    s.append(",");
    let indicator = mesh_text("IndicatorMesh", shape, 2);
    s.append(indicator.as_str());
    s
}

/// Every material. The lamp's emissive factor is not zero, so that what drives it
/// modulates an existing channel.
pub open spec fn materials() -> Seq<char> {
    "{\"name\":\"Bus\",\"pbrMetallicRoughness\":{\"baseColorFactor\":[0.72,0.73,0.75,1],\"metallicFactor\":0.6,\"roughnessFactor\":0.45}}"@
        + ","@
        + "{\"name\":\"Panel\",\"pbrMetallicRoughness\":{\"baseColorFactor\":[0.08,0.13,0.35,1],\"metallicFactor\":0.3,\"roughnessFactor\":0.35}}"@
        + ","@
        + "{\"name\":\"Indicator\",\"pbrMetallicRoughness\":{\"baseColorFactor\":[0.9,0.15,0.1,1],\"metallicFactor\":0,\"roughnessFactor\":0.6},\"emissiveFactor\":[1,0.2,0.1]}"@
}

fn materials_text() -> (s: String)
    ensures
        s@ == materials(),
{
    let mut s = String::from_str(
        "{\"name\":\"Bus\",\"pbrMetallicRoughness\":{\"baseColorFactor\":[0.72,0.73,0.75,1],\"metallicFactor\":0.6,\"roughnessFactor\":0.45}}",
    );
    s.append(",");
    s.append(
        "{\"name\":\"Panel\",\"pbrMetallicRoughness\":{\"baseColorFactor\":[0.08,0.13,0.35,1],\"metallicFactor\":0.3,\"roughnessFactor\":0.35}}",
    );
    s.append(",");
    s.append(
        "{\"name\":\"Indicator\",\"pbrMetallicRoughness\":{\"baseColorFactor\":[0.9,0.15,0.1,1],\"metallicFactor\":0,\"roughnessFactor\":0.6},\"emissiveFactor\":[1,0.2,0.1]}",
    );
    s
}

/// The texts of a run of clips.
pub open spec fn written_clips(v: Seq<Anim>) -> Seq<Seq<char>> {
    v.map_values(|a: Anim| clip::written_clip(a.name@, a.samplers@, a.channels@))
}

fn clips_text(anims: &Vec<Anim>) -> (parts: Vec<String>)
    ensures
        text::texts(parts@) == written_clips(anims@),
{
    let mut parts: Vec<String> = Vec::new();
    let mut i: usize = 0;
    assert(text::texts(parts@) =~= written_clips(anims@).take(0));
    while i < anims.len()
        invariant
            i <= anims@.len(),
            text::texts(parts@) == written_clips(anims@).take(i as int),
        decreases anims@.len() - i,
    {
        let ghost before = parts@;
        let s = anims[i].json();
        parts.push(s);
        assert(text::texts(parts@) =~= text::texts(before).push(s@));
        i = i + 1;
        assert(text::texts(parts@) =~= written_clips(anims@).take(i as int));
    }
    assert(text::texts(parts@) =~= written_clips(anims@));
    parts
}

/// The document: its nodes below `root`, its meshes, materials and clips, and its
/// buffer written into it.
pub open spec fn written(
    root: usize,
    nodes: Seq<scene::NodeModel>,
    shape: Shape,
    anims: Seq<Anim>,
    buf: Buf,
) -> Seq<char> {
    "{\"asset\":{\"version\":\"2.0\",\"generator\":\"cFS-investigation/gltf-gen\"},\"scene\":0,\"scenes\":[{\"name\":\"Spacecraft\",\"nodes\":["@
        + text::decimal(root as nat) + "]}],\"nodes\":["@ + text::joined(
        scene::written_nodes(nodes),
        ","@,
    ) + "],\"meshes\":["@ + written_meshes(shape) + "],\"materials\":["@ + materials()
        + "],\"animations\":["@ + text::joined(written_clips(anims), ","@) + "],\"accessors\":["@
        + text::joined(buf@.accessors, ","@) + "],\"bufferViews\":["@ + text::joined(
        buf@.views,
        ","@,
    ) + "],\"buffers\":[{\"byteLength\":"@ + text::decimal(buf@.data.len())
        + ",\"uri\":\"data:application/octet-stream;base64,"@ + base64::encoded(buf@.data)
        + "\"}]}"@
}

/// Write the document.
pub fn document(root: usize, sc: &Scene, shape: Shape, anims: &Vec<Anim>, buf: &Buf) -> (out: String)
    ensures
        out@ == written(root, sc@, shape, anims@, *buf),
{
    let mut out = String::from_str(
        "{\"asset\":{\"version\":\"2.0\",\"generator\":\"cFS-investigation/gltf-gen\"},\"scene\":0,\"scenes\":[{\"name\":\"Spacecraft\",\"nodes\":[",
    );
    text::push_decimal(&mut out, root as u64);
    out.append("]}],\"nodes\":[");
    let nodes = sc.json();
    out.append(nodes.as_str());
    out.append("],\"meshes\":[");
    let meshes = meshes_text(shape);
    out.append(meshes.as_str());
    out.append("],\"materials\":[");
    let mats = materials_text();
    out.append(mats.as_str());
    out.append("],\"animations\":[");
    let clips = clips_text(anims);
    text::push_joined(&mut out, &clips, ",");
    out.append("],\"accessors\":[");
    text::push_joined(&mut out, &buf.accessors, ",");
    out.append("],\"bufferViews\":[");
    text::push_joined(&mut out, &buf.views, ",");
    out.append("],\"buffers\":[{\"byteLength\":");
    text::push_decimal(&mut out, buf.data.len() as u64);
    out.append(",\"uri\":\"data:application/octet-stream;base64,");
    let data = base64::base64(&buf.data);
    out.append(data.as_str());
    out.append("\"}]}");
    out
}

/// The three meshes share one shape and differ in their material alone.
pub proof fn meshes_differ_in_their_material(name: Seq<char>, shape: Shape, material: nat)
    ensures
        written_mesh(name, shape, material) == "{\"name\":\""@ + name
            + "\",\"primitives\":[{\"attributes\":{\"POSITION\":"@ + text::decimal(
            shape.position as nat,
        ) + ",\"NORMAL\":"@ + text::decimal(shape.normal as nat) + "},\"indices\":"@
            + text::decimal(shape.indices as nat) + ",\"material\":"@ + text::decimal(material)
            + "}]}"@,
        written_meshes(shape) == written_mesh("BusMesh"@, shape, 0) + ","@ + written_mesh(
            "PanelMesh"@,
            shape,
            1,
        ) + ","@ + written_mesh("IndicatorMesh"@, shape, 2),
{
}

/// Clips are written one for one, each under its own name.
pub proof fn clips_are_written_one_for_one(v: Seq<Anim>, i: int)
    ensures
        written_clips(v).len() == v.len(),
        0 <= i < v.len() ==> written_clips(v)[i] == clip::written_clip(
            v[i].name@,
            v[i].samplers@,
            v[i].channels@,
        ),
{
}

/// The document names its root and lists its nodes, meshes, materials, clips, accessors
/// and views, each under its own key, and ends with the one buffer they speak of.
pub proof fn the_document_lists_its_parts(
    root: usize,
    nodes: Seq<scene::NodeModel>,
    shape: Shape,
    anims: Seq<Anim>,
    buf: Buf,
)
    ensures
        written(root, nodes, shape, anims, buf)
            == "{\"asset\":{\"version\":\"2.0\",\"generator\":\"cFS-investigation/gltf-gen\"},\"scene\":0,\"scenes\":[{\"name\":\"Spacecraft\",\"nodes\":["@
            + text::decimal(root as nat) + "]}],\"nodes\":["@ + text::joined(
            scene::written_nodes(nodes),
            ","@,
        ) + "],\"meshes\":["@ + written_meshes(shape) + "],\"materials\":["@ + materials()
            + "],\"animations\":["@ + text::joined(written_clips(anims), ","@)
            + "],\"accessors\":["@ + text::joined(text::texts(buf.accessors@), ","@)
            + "],\"bufferViews\":["@ + text::joined(text::texts(buf.views@), ","@)
            + "],\"buffers\":[{\"byteLength\":"@ + text::decimal(buf.data@.len())
            + ",\"uri\":\"data:application/octet-stream;base64,"@ + base64::encoded(buf.data@)
            + "\"}]}"@,
{
}

/// The materials by number: the grey body, the blue panels and the red lamp, which alone
/// shines of itself.
pub proof fn the_lamp_alone_shines()
    ensures
        materials()
            == "{\"name\":\"Bus\",\"pbrMetallicRoughness\":{\"baseColorFactor\":[0.72,0.73,0.75,1],\"metallicFactor\":0.6,\"roughnessFactor\":0.45}}"@
            + ","@
            + "{\"name\":\"Panel\",\"pbrMetallicRoughness\":{\"baseColorFactor\":[0.08,0.13,0.35,1],\"metallicFactor\":0.3,\"roughnessFactor\":0.35}}"@
            + ","@
            + "{\"name\":\"Indicator\",\"pbrMetallicRoughness\":{\"baseColorFactor\":[0.9,0.15,0.1,1],\"metallicFactor\":0,\"roughnessFactor\":0.6},\"emissiveFactor\":[1,0.2,0.1]}"@,
{
}

} // verus!
