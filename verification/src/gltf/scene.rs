//! The document's nodes.

use vstd::prelude::*;

use crate::text;

verus! {

/// A rotation: the four components of a quaternion, as decimal text.
#[derive(Debug)]
pub struct Rotation {
    pub x: String,
    pub y: String,
    pub z: String,
    pub w: String,
}

impl Rotation {
    pub open spec fn parts(self) -> Seq<Seq<char>> {
        seq![self.x@, self.y@, self.z@, self.w@]
    }

    /// The same rotation once more.
    pub fn copy(&self) -> (r: Self)
        ensures
            r.parts() == self.parts(),
    {
        Rotation {
            x: String::from_str(self.x.as_str()),
            y: String::from_str(self.y.as_str()),
            z: String::from_str(self.z.as_str()),
            w: String::from_str(self.w.as_str()),
        }
    }
}

/// A number given in hundredths, as the shortest decimal text with at least one
/// decimal place.
pub open spec fn shortest(n: i32) -> Seq<char> {
    let size: nat = (if n < 0 {
        -(n as int)
    } else {
        n as int
    }) as nat;
    (if n < 0 {
        "-"@
    } else {
        ""@
    }) + text::decimal(size / 100) + (if size % 10 == 0 {
        seq!['.', text::digit_char((size / 10 % 10) as int)]
    } else {
        seq![
            '.',
            text::digit_char((size / 10 % 10) as int),
            text::digit_char((size % 10) as int),
        ]
    })
}

fn shortest_text(n: i32) -> (s: String)
    ensures
        s@ == shortest(n),
{
    let size: u64 = if n < 0 {
        (-(n as i64)) as u64
    } else {
        n as u64
    };
    let mut s = if n < 0 {
        String::from_str("-")
    } else {
        String::from_str("")
    };
    text::push_decimal(&mut s, size / 100);
    let ghost whole = s@;
    proof {
        reveal_strlit(".");
    }
    s.append(".");
    text::push_digit(&mut s, (size / 10 % 10) as u8);
    if size % 10 != 0 {
        text::push_digit(&mut s, (size % 10) as u8);
    }
    assert(s@ =~= shortest(n));
    s
}

/// Three numbers given in hundredths.
pub type Triple = [i32; 3];

/// Three numbers, as text.
pub open spec fn triple_parts(v: Triple) -> Seq<Seq<char>> {
    seq![shortest(v[0]), shortest(v[1]), shortest(v[2])]
}

fn triple_texts(v: Triple) -> (parts: Vec<String>)
    ensures
        text::texts(parts@) == triple_parts(v),
{
    let mut parts: Vec<String> = Vec::new();
    parts.push(shortest_text(v[0]));
    parts.push(shortest_text(v[1]));
    parts.push(shortest_text(v[2]));
    assert(text::texts(parts@) =~= triple_parts(v));
    parts
}

/// A node: a joint, or geometry hanging off one.
#[derive(Debug)]
pub struct Node {
    pub name: String,
    pub mesh: Option<usize>,
    pub children: Vec<usize>,
    pub translation: Option<Triple>,
    pub rotation: Option<Rotation>,
    pub scale: Option<Triple>,
}

/// A node as values.
#[verifier::ext_equal]
pub struct NodeModel {
    pub name: Seq<char>,
    pub mesh: Option<usize>,
    pub children: Seq<usize>,
    pub translation: Option<Triple>,
    pub rotation: Option<Seq<Seq<char>>>,
    pub scale: Option<Triple>,
}

impl View for Node {
    type V = NodeModel;

    open spec fn view(&self) -> NodeModel {
        NodeModel {
            name: self.name@,
            mesh: self.mesh,
            children: self.children@,
            translation: self.translation,
            rotation: match self.rotation {
                Some(r) => Some(r.parts()),
                None => None,
            },
            scale: self.scale,
        }
    }
}

/// The nodes a vector holds.
pub open spec fn node_models(v: Seq<Node>) -> Seq<NodeModel> {
    v.map_values(|n: Node| n@)
}

/// The texts of a run of node numbers.
pub open spec fn number_texts(v: Seq<usize>) -> Seq<Seq<char>> {
    v.map_values(|c: usize| text::decimal(c as nat))
}

/// A property that is written only where it is there.
pub open spec fn if_there(parts: Seq<Seq<char>>, part: Option<Seq<char>>) -> Seq<Seq<char>> {
    match part {
        Some(p) => parts.push(p),
        None => parts,
    }
}

/// A list of numbers under a key.
pub open spec fn listed(key: Seq<char>, items: Seq<Seq<char>>) -> Seq<char> {
    "\""@ + key + "\":["@ + text::joined(items, ","@) + "]"@
}

impl NodeModel {
    /// The properties of the node, in order.
    pub open spec fn properties(self) -> Seq<Seq<char>> {
        let name = seq!["\"name\":\""@ + self.name + "\""@];
        let mesh = if_there(
            name,
            match self.mesh {
                Some(m) => Some("\"mesh\":"@ + text::decimal(m as nat)),
                None => None,
            },
        );
        let children = if_there(
            mesh,
            if self.children.len() > 0 {
                Some(listed("children"@, number_texts(self.children)))
            } else {
                None
            },
        );
        let translation = if_there(
            children,
            match self.translation {
                Some(t) => Some(listed("translation"@, triple_parts(t))),
                None => None,
            },
        );
        let rotation = if_there(
            translation,
            match self.rotation {
                Some(r) => Some(listed("rotation"@, r)),
                None => None,
            },
        );
        if_there(
            rotation,
            match self.scale {
                Some(s) => Some(listed("scale"@, triple_parts(s))),
                None => None,
            },
        )
    }

    /// The node's text.
    pub open spec fn written(self) -> Seq<char> {
        "{"@ + text::joined(self.properties(), ","@) + "}"@
    }
}

fn push_part(parts: &mut Vec<String>, part: String)
    ensures
        text::texts(final(parts)@) == text::texts(old(parts)@).push(part@),
{
    parts.push(part);
    assert(text::texts(parts@) =~= text::texts(old(parts)@).push(part@));
}

fn listed_text(key: &str, items: &Vec<String>) -> (s: String)
    ensures
        s@ == listed(key@, text::texts(items@)),
{
    let mut s = String::from_str("\"");
    s.append(key);
    s.append("\":[");
    text::push_joined(&mut s, items, ",");
    s.append("]");
    s
}

fn numbers_text(v: &Vec<usize>) -> (parts: Vec<String>)
    ensures
        text::texts(parts@) == number_texts(v@),
{
    let mut parts: Vec<String> = Vec::new();
    let mut i: usize = 0;
    assert(text::texts(parts@) =~= number_texts(v@).take(0));
    while i < v.len()
        invariant
            i <= v@.len(),
            text::texts(parts@) == number_texts(v@).take(i as int),
        decreases v@.len() - i,
    {
        push_part(&mut parts, text::decimal_text(v[i] as u64));
        i = i + 1;
        assert(text::texts(parts@) =~= number_texts(v@).take(i as int));
    }
    assert(text::texts(parts@) =~= number_texts(v@));
    parts
}

impl Node {
    /// The node's text.
    pub fn json(&self) -> (s: String)
        ensures
            s@ == self@.written(),
    {
        let mut parts: Vec<String> = Vec::new();
        let mut name = String::from_str("\"name\":\"");
        name.append(self.name.as_str());
        name.append("\"");
        let ghost first = name@;
        parts.push(name);
        assert(text::texts(parts@) =~= seq![first]);
        if let Some(m) = self.mesh {
            let mut mesh = String::from_str("\"mesh\":");
            text::push_decimal(&mut mesh, m as u64);
            push_part(&mut parts, mesh);
        }
        if self.children.len() > 0 {
            let children = numbers_text(&self.children);
            push_part(&mut parts, listed_text("children", &children));
        }
        if let Some(t) = self.translation {
            let numbers = triple_texts(t);
            push_part(&mut parts, listed_text("translation", &numbers));
        }
        if let Some(r) = &self.rotation {
            let mut numbers: Vec<String> = Vec::new();
            let copy = r.copy();
            numbers.push(copy.x);
            numbers.push(copy.y);
            numbers.push(copy.z);
            numbers.push(copy.w);
            assert(copy.parts()[0] == r.parts()[0]);
            assert(copy.parts()[1] == r.parts()[1]);
            assert(copy.parts()[2] == r.parts()[2]);
            assert(copy.parts()[3] == r.parts()[3]);
            assert(text::texts(numbers@) =~= r.parts());
            push_part(&mut parts, listed_text("rotation", &numbers));
        }
        if let Some(v) = self.scale {
            let numbers = triple_texts(v);
            push_part(&mut parts, listed_text("scale", &numbers));
        }
        assert(text::texts(parts@) == self@.properties());
        let mut s = String::from_str("{");
        text::push_joined(&mut s, &parts, ",");
        s.append("}");
        s
    }
}

/// All nodes, in order.
#[derive(Debug)]
pub struct Scene {
    pub nodes: Vec<Node>,
}

impl View for Scene {
    type V = Seq<NodeModel>;

    open spec fn view(&self) -> Seq<NodeModel> {
        node_models(self.nodes@)
    }
}

/// The texts of a run of nodes.
pub open spec fn written_nodes(v: Seq<NodeModel>) -> Seq<Seq<char>> {
    v.map_values(|n: NodeModel| n.written())
}

impl Scene {
    pub fn new() -> (s: Self)
        ensures
            s@ == Seq::<NodeModel>::empty(),
    {
        let s = Scene { nodes: Vec::new() };
        assert(s@ =~= Seq::<NodeModel>::empty());
        s
    }

    /// Add a node and return its number.
    pub fn add(&mut self, node: Node) -> (i: usize)
        ensures
            final(self)@ == old(self)@.push(node@),
            i == old(self)@.len(),
    {
        let i: usize = self.nodes.len();
        self.nodes.push(node);
        assert(self@ =~= old(self)@.push(node@));
        i
    }

    /// A joint: named, with a transform to animate, no geometry of its own.
    pub fn joint(
        &mut self,
        name: &str,
        translation: Triple,
        rotation: Rotation,
        children: Vec<usize>,
    ) -> (i: usize)
        ensures
            final(self)@ == old(self)@.push(
                joint_node(name@, translation, rotation.parts(), children@),
            ),
            i == old(self)@.len(),
    {
        self.add(
            Node {
                name: String::from_str(name),
                mesh: None,
                children,
                translation: Some(translation),
                rotation: Some(rotation),
                scale: None,
            },
        )
    }

    /// Geometry in a node of its own, so that its scale never leaks onto a joint's
    /// children.
    pub fn geo(&mut self, name: &str, mesh: usize, translation: Triple, scale: Triple) -> (i: usize)
        ensures
            final(self)@ == old(self)@.push(geo_node(name@, mesh, translation, scale)),
            i == old(self)@.len(),
    {
        let node = Node {
            name: String::from_str(name),
            mesh: Some(mesh),
            children: Vec::new(),
            translation: Some(translation),
            rotation: None,
            scale: Some(scale),
        };
        assert(node@ =~= geo_node(name@, mesh, translation, scale));
        self.add(node)
    }

    /// The nodes' text, with commas between.
    pub fn json(&self) -> (out: String)
        ensures
            out@ == text::joined(written_nodes(self@), ","@),
    {
        let mut parts: Vec<String> = Vec::new();
        let mut i: usize = 0;
        assert(text::texts(parts@) =~= written_nodes(self@).take(0));
        while i < self.nodes.len()
            invariant
                i <= self.nodes@.len(),
                text::texts(parts@) == written_nodes(self@).take(i as int),
            decreases self.nodes@.len() - i,
        {
            let s = self.nodes[i].json();
            assert(self@[i as int] == self.nodes@[i as int]@);
            push_part(&mut parts, s);
            i = i + 1;
            assert(text::texts(parts@) =~= written_nodes(self@).take(i as int));
        }
        assert(text::texts(parts@) =~= written_nodes(self@));
        let mut out = String::new();
        text::push_joined(&mut out, &parts, ",");
        assert(out@ =~= text::joined(written_nodes(self@), ","@));
        out
    }
}

/// A joint as values.
pub open spec fn joint_node(
    name: Seq<char>,
    translation: Triple,
    rotation: Seq<Seq<char>>,
    children: Seq<usize>,
) -> NodeModel {
    NodeModel {
        name,
        mesh: None,
        children,
        translation: Some(translation),
        rotation: Some(rotation),
        scale: None,
    }
}

/// A piece of geometry as values.
pub open spec fn geo_node(
    name: Seq<char>,
    mesh: usize,
    translation: Triple,
    scale: Triple,
) -> NodeModel {
    NodeModel {
        name,
        mesh: Some(mesh),
        children: seq![],
        translation: Some(translation),
        rotation: None,
        scale: Some(scale),
    }
}

/// Hundredths are written with as few decimal places as hold them, but one at least, and
/// with a sign only where they are negative.
pub proof fn a_length_is_written_short(n: i32)
    requires
        n >= 0,
    ensures
        n % 10 != 0 ==> shortest(n) == text::hundredths(n as nat),
        n % 10 == 0 ==> shortest(n) == text::tenths((n / 10) as nat),
        n > 0 ==> shortest((-n) as i32) == seq!['-'] + shortest(n),
{
    reveal_strlit("");
    reveal_strlit("-");
    assert("-"@ =~= seq!['-']);
    let size = n as nat;
    assert(size / 10 / 10 == size / 100);
    assert(size / 10 % 10 == size % 100 / 10);
    if n % 10 != 0 {
        assert(shortest(n) =~= text::hundredths(size));
    } else {
        assert(shortest(n) =~= text::tenths((n / 10) as nat));
    }
    if n > 0 {
        assert(shortest((-n) as i32) =~= seq!['-'] + shortest(n));
    }
}

/// One property, if the node has it.
pub open spec fn property(given: bool, words: Seq<char>) -> Seq<Seq<char>> {
    if given {
        seq![words]
    } else {
        seq![]
    }
}

/// A node's properties are its name and what else it has, in one order; what it has not
/// is left out.
pub proof fn a_node_lists_what_it_has(n: NodeModel)
    ensures
        n.properties() == seq!["\"name\":\""@ + n.name + "\""@] + property(
            n.mesh is Some,
            "\"mesh\":"@ + text::decimal(n.mesh->0 as nat),
        ) + property(
            n.children.len() > 0,
            "\""@ + "children"@ + "\":["@ + text::joined(number_texts(n.children), ","@) + "]"@,
        ) + property(
            n.translation is Some,
            "\""@ + "translation"@ + "\":["@ + text::joined(
                seq![
                    shortest(n.translation->0[0]),
                    shortest(n.translation->0[1]),
                    shortest(n.translation->0[2]),
                ],
                ","@,
            ) + "]"@,
        ) + property(
            n.rotation is Some,
            "\""@ + "rotation"@ + "\":["@ + text::joined(n.rotation->0, ","@) + "]"@,
        ) + property(
            n.scale is Some,
            "\""@ + "scale"@ + "\":["@ + text::joined(
                seq![shortest(n.scale->0[0]), shortest(n.scale->0[1]), shortest(n.scale->0[2])],
                ","@,
            ) + "]"@,
        ),
        n.written() == "{"@ + text::joined(n.properties(), ","@) + "}"@,
{
    let name = seq!["\"name\":\""@ + n.name + "\""@];
    let mesh = match n.mesh {
        Some(m) => Some("\"mesh\":"@ + text::decimal(m as nat)),
        None => None,
    };
    let a = if_there(name, mesh);
    lemma_if_there(name, mesh, n.mesh is Some, "\"mesh\":"@ + text::decimal(n.mesh->0 as nat));
    let children = if n.children.len() > 0 {
        Some(listed("children"@, number_texts(n.children)))
    } else {
        None
    };
    let b = if_there(a, children);
    lemma_if_there(
        a,
        children,
        n.children.len() > 0,
        listed("children"@, number_texts(n.children)),
    );
    let translation = match n.translation {
        Some(t) => Some(listed("translation"@, triple_parts(t))),
        None => None,
    };
    let c = if_there(b, translation);
    lemma_if_there(
        b,
        translation,
        n.translation is Some,
        listed("translation"@, triple_parts(n.translation->0)),
    );
    let rotation = match n.rotation {
        Some(r) => Some(listed("rotation"@, r)),
        None => None,
    };
    let d = if_there(c, rotation);
    lemma_if_there(c, rotation, n.rotation is Some, listed("rotation"@, n.rotation->0));
    let scale = match n.scale {
        Some(s) => Some(listed("scale"@, triple_parts(s))),
        None => None,
    };
    lemma_if_there(d, scale, n.scale is Some, listed("scale"@, triple_parts(n.scale->0)));
}

proof fn lemma_if_there(
    parts: Seq<Seq<char>>,
    part: Option<Seq<char>>,
    given: bool,
    words: Seq<char>,
)
    requires
        given == (part is Some),
        part is Some ==> part->0 == words,
    ensures
        if_there(parts, part) == parts + property(given, words),
{
    assert(if_there(parts, part) =~= parts + property(given, words));
}

/// A joint turns and has children but no mesh; a piece of geometry has a mesh and a size
/// but no children and does not turn.
pub proof fn joints_turn_and_geometry_fills(
    name: Seq<char>,
    at: Triple,
    rotation: Seq<Seq<char>>,
    children: Seq<usize>,
    mesh: usize,
    scale: Triple,
)
    ensures
        ({
            let j = joint_node(name, at, rotation, children);
            let g = geo_node(name, mesh, at, scale);
            &&& j.name == name && g.name == name
            &&& j.translation == Some(at) && g.translation == Some(at)
            &&& j.mesh is None && g.mesh == Some(mesh)
            &&& j.children == children && g.children.len() == 0
            &&& j.rotation == Some(rotation) && g.rotation is None
            &&& j.scale is None && g.scale == Some(scale)
        }),
{
}

/// Numbers are written one for one, and so are nodes.
pub proof fn lists_are_written_one_for_one(v: Seq<usize>, nodes: Seq<NodeModel>, i: int)
    ensures
        number_texts(v).len() == v.len(),
        0 <= i < v.len() ==> number_texts(v)[i] == text::decimal(v[i] as nat),
        written_nodes(nodes).len() == nodes.len(),
        0 <= i < nodes.len() ==> written_nodes(nodes)[i] == nodes[i].written(),
{
}

/// A rotation is written x, y, z, w.
pub proof fn a_rotation_is_written_in_order(r: Rotation)
    ensures
        r.parts().len() == 4,
        r.parts()[0] == r.x@,
        r.parts()[1] == r.y@,
        r.parts()[2] == r.z@,
        r.parts()[3] == r.w@,
{
}

} // verus!
