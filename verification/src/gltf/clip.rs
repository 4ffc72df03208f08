//! The document's animations.

use vstd::prelude::*;

use crate::text;

verus! {

/// Key times and the values at them, by accessor.
#[derive(Clone, Copy, Debug, PartialEq, Eq, Structural)]
pub struct Sampler {
    pub input: usize,
    pub output: usize,
}

impl Sampler {
    pub open spec fn written(self) -> Seq<char> {
        "{\"input\":"@ + text::decimal(self.input as nat) + ",\"output\":"@ + text::decimal(
            self.output as nat,
        ) + ",\"interpolation\":\"LINEAR\"}"@
    }

    fn json(&self) -> (s: String)
        ensures
            s@ == self.written(),
    {
        let mut s = String::from_str("{\"input\":");
        text::push_decimal(&mut s, self.input as u64);
        s.append(",\"output\":");
        text::push_decimal(&mut s, self.output as u64);
        s.append(",\"interpolation\":\"LINEAR\"}");
        s
    }
}

/// What of a node a channel animates.
#[derive(Clone, Copy, Debug, PartialEq, Eq, Structural)]
pub enum Target {
    Rotation,
    Scale,
}

impl Target {
    pub open spec fn wording(self) -> Seq<char> {
        match self {
            Target::Rotation => "rotation"@,
            Target::Scale => "scale"@,
        }
    }

    fn name(self) -> (s: &'static str)
        ensures
            s@ == self.wording(),
    {
        match self {
            Target::Rotation => "rotation",
            Target::Scale => "scale",
        }
    }
}

/// A sampler driving one property of one node.
#[derive(Clone, Copy, Debug, PartialEq, Eq, Structural)]
pub struct Channel {
    pub node: usize,
    pub target: Target,
    pub sampler: usize,
}

impl Channel {
    pub open spec fn written(self) -> Seq<char> {
        "{\"sampler\":"@ + text::decimal(self.sampler as nat) + ",\"target\":{\"node\":"@
            + text::decimal(self.node as nat) + ",\"path\":\""@ + self.target.wording() + "\"}}"@
    }

    fn json(&self) -> (s: String)
        ensures
            s@ == self.written(),
    {
        let mut s = String::from_str("{\"sampler\":");
        text::push_decimal(&mut s, self.sampler as u64);
        s.append(",\"target\":{\"node\":");
        text::push_decimal(&mut s, self.node as u64);
        s.append(",\"path\":\"");
        s.append(self.target.name());
        s.append("\"}}");
        s
    }
}

/// A named clip.
#[derive(Debug)]
pub struct Anim {
    pub name: String,
    pub samplers: Vec<Sampler>,
    pub channels: Vec<Channel>,
}

/// The texts of a run of samplers.
pub open spec fn written_samplers(v: Seq<Sampler>) -> Seq<Seq<char>> {
    v.map_values(|s: Sampler| s.written())
}

/// The texts of a run of channels.
pub open spec fn written_channels(v: Seq<Channel>) -> Seq<Seq<char>> {
    v.map_values(|c: Channel| c.written())
}

/// The text of a clip.
pub open spec fn written_clip(
    name: Seq<char>,
    samplers: Seq<Sampler>,
    channels: Seq<Channel>,
) -> Seq<char> {
    "{\"name\":\""@ + name + "\",\"samplers\":["@ + text::joined(
        written_samplers(samplers),
        ","@,
    ) + "],\"channels\":["@ + text::joined(written_channels(channels), ","@) + "]}"@
}

impl Anim {
    pub fn json(&self) -> (out: String)
        ensures
            out@ == written_clip(self.name@, self.samplers@, self.channels@),
    {
        let mut samplers: Vec<String> = Vec::new();
        let mut i: usize = 0;
        assert(text::texts(samplers@) =~= written_samplers(self.samplers@).take(0));
        while i < self.samplers.len()
            invariant
                i <= self.samplers@.len(),
                text::texts(samplers@) == written_samplers(self.samplers@).take(i as int),
            decreases self.samplers@.len() - i,
        {
            let ghost before = samplers@;
            let s = self.samplers[i].json();
            samplers.push(s);
            assert(text::texts(samplers@) =~= text::texts(before).push(s@));
            i = i + 1;
            assert(text::texts(samplers@) =~= written_samplers(self.samplers@).take(i as int));
        }
        assert(text::texts(samplers@) =~= written_samplers(self.samplers@));
        let mut channels: Vec<String> = Vec::new();
        let mut j: usize = 0;
        assert(text::texts(channels@) =~= written_channels(self.channels@).take(0));
        while j < self.channels.len()
            invariant
                j <= self.channels@.len(),
                text::texts(channels@) == written_channels(self.channels@).take(j as int),
            decreases self.channels@.len() - j,
        {
            let ghost before = channels@;
            let s = self.channels[j].json();
            channels.push(s);
            assert(text::texts(channels@) =~= text::texts(before).push(s@));
            j = j + 1;
            assert(text::texts(channels@) =~= written_channels(self.channels@).take(j as int));
        }
        assert(text::texts(channels@) =~= written_channels(self.channels@));
        let mut out = String::from_str("{\"name\":\"");
        out.append(self.name.as_str());
        out.append("\",\"samplers\":[");
        text::push_joined(&mut out, &samplers, ",");
        out.append("],\"channels\":[");
        text::push_joined(&mut out, &channels, ",");
        out.append("]}");
        out
    }
}

/// A sampler names its key times and its values, a channel its sampler and what it moves,
/// and a clip lists both, each in order.
pub proof fn a_clip_lists_what_it_moves(
    s: Sampler,
    c: Channel,
    name: Seq<char>,
    samplers: Seq<Sampler>,
    channels: Seq<Channel>,
    i: int,
)
    ensures
        s.written() == "{\"input\":"@ + text::decimal(s.input as nat) + ",\"output\":"@
            + text::decimal(s.output as nat) + ",\"interpolation\":\"LINEAR\"}"@,
        c.written() == "{\"sampler\":"@ + text::decimal(c.sampler as nat)
            + ",\"target\":{\"node\":"@ + text::decimal(c.node as nat) + ",\"path\":\""@ + (
        match c.target {
            Target::Rotation => "rotation"@,
            Target::Scale => "scale"@,
        }) + "\"}}"@,
        written_samplers(samplers).len() == samplers.len(),
        0 <= i < samplers.len() ==> written_samplers(samplers)[i] == samplers[i].written(),
        written_channels(channels).len() == channels.len(),
        0 <= i < channels.len() ==> written_channels(channels)[i] == channels[i].written(),
        written_clip(name, samplers, channels) == "{\"name\":\""@ + name + "\",\"samplers\":["@
            + text::joined(written_samplers(samplers), ","@) + "],\"channels\":["@ + text::joined(
            written_channels(channels),
            ","@,
        ) + "]}"@,
{
}

} // verus!
