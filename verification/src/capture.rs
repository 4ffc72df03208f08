//! Recorded telemetry: the capture file format, and the per-message summary a
//! recording ends with.
//!
//! A capture is length-prefixed frames, repeated to the end: a little-endian
//! 32-bit length, then that many octets of one space packet.

use std::collections::BTreeMap;
use vstd::prelude::*;
use vstd::std_specs::cmp::OrdSpec;
use vstd::std_specs::iter::IteratorSpec;

use crate::ccsds::packet::SpacePacket;
use crate::ccsds::primary::PrimaryHeader;
use crate::octets;
use crate::text;

verus! {

/// One packet as a frame.
pub open spec fn frame_of(packet: Seq<u8>) -> Seq<u8> {
    octets::le32_octets(packet.len() as int) + packet
}

/// Packets as a capture.
pub open spec fn capture_of(packets: Seq<Seq<u8>>) -> Seq<u8>
    decreases packets.len(),
{
    if packets.len() == 0 {
        Seq::empty()
    } else {
        frame_of(packets.first()) + capture_of(packets.drop_first())
    }
}

/// The packets of the whole frames at the front of a capture.
pub open spec fn frames_in(data: Seq<u8>) -> Seq<Seq<u8>>
    decreases data.len(),
{
    let n = octets::le32(data, 0);
    if data.len() < 4 || 4 + n > data.len() {
        Seq::empty()
    } else {
        seq![data.subrange(4, 4 + n)] + frames_in(data.skip(4 + n))
    }
}

/// Where the first frame that runs past the end of a capture has its packet, if
/// there is such a frame. `off` octets came before `data`.
pub open spec fn cut_in(data: Seq<u8>, off: int) -> Option<int>
    decreases data.len(),
{
    let n = octets::le32(data, 0);
    if data.len() < 4 {
        None
    } else if 4 + n > data.len() {
        Some(off + 4)
    } else {
        cut_in(data.skip(4 + n), off + 4 + n)
    }
}

/// The octets a vector of vectors holds.
pub open spec fn views(v: Seq<Vec<u8>>) -> Seq<Seq<u8>> {
    v.map_values(|x: Vec<u8>| x@)
}

/// Append one packet to a capture.
pub fn push_frame(out: &mut Vec<u8>, packet: &[u8])
    requires
        packet@.len() <= u32::MAX,
    ensures
        final(out)@ == old(out)@ + frame_of(packet@),
{
    octets::push_le32(out, packet.len() as u32);
    octets::push_octets(out, packet);
    assert(out@ =~= old(out)@ + frame_of(packet@));
}

/// The packets of a capture, and where it is cut short, if it is.
pub fn split_frames(data: &[u8]) -> (r: (Vec<Vec<u8>>, Option<usize>))
    ensures
        views(r.0@) == frames_in(data@),
        match r.1 {
            Some(at) => cut_in(data@, 0) == Some(at as int),
            None => cut_in(data@, 0) is None,
        },
{
    let total: usize = data.len();
    let mut out: Vec<Vec<u8>> = Vec::new();
    let mut off: usize = 0;
    assert(data@.skip(0) =~= data@);
    assert(views(out@) + frames_in(data@) =~= frames_in(data@));
    while total - off >= 4
        invariant
            total == data@.len(),
            off <= total,
            views(out@) + frames_in(data@.skip(off as int)) == frames_in(data@),
            cut_in(data@.skip(off as int), off as int) == cut_in(data@, 0),
        decreases total - off,
    {
        let ghost rest = data@.skip(off as int);
        let len: usize = octets::read_le32(data, off) as usize;
        assert(octets::le32(rest, 0) == len);
        off = off + 4;
        if len > total - off {
            assert(views(out@) + Seq::<Seq<u8>>::empty() =~= views(out@));
            return (out, Some(off));
        }
        let body = octets::to_vec(vstd::slice::slice_subrange(data, off, off + len));
        assert(body@ =~= rest.subrange(4, 4 + len));
        let ghost before = out@;
        let ghost arrived = body;
        out.push(body);
        off = off + len;
        assert(rest.skip(4 + len) =~= data@.skip(off as int));
        assert(views(out@) =~= views(before).push(arrived@));
        assert(views(out@) + frames_in(data@.skip(off as int)) =~= views(before) + frames_in(rest));
    }
    assert(views(out@) + Seq::<Seq<u8>>::empty() =~= views(out@));
    (out, None)
}

/// What one message ID has been seen to carry.
#[derive(Clone, Copy, Debug, PartialEq, Eq, Structural)]
pub struct Seen {
    pub stream_id: u16,
    /// Packets seen. Wraps around.
    pub count: u64,
    /// Total length of the first of them.
    pub len: usize,
}

impl Seen {
    /// A row of the summary.
    pub open spec fn row(self) -> Seq<char> {
        "  "@ + text::hex4(self.stream_id as int) + "  "@ + text::right_aligned(
            text::decimal(self.count as nat),
            6,
        ) + " packets  "@ + text::right_aligned(text::decimal(self.len as nat), 5) + " octets"@
    }

    pub fn line(&self) -> (s: String)
        ensures
            s@ == self.row(),
    {
        let mut s = String::new();
        s.append("  ");
        text::push_hex4(&mut s, self.stream_id);
        s.append("  ");
        text::push_decimal_right_aligned(&mut s, self.count, 6);
        s.append(" packets  ");
        text::push_decimal_right_aligned(&mut s, self.len as u64, 5);
        s.append(" octets");
        s
    }
}

/// Strictly increasing in message ID.
pub open spec fn id_ordered(s: Seq<Seen>) -> bool {
    forall|i: int, j: int|
        0 <= i < j < s.len() ==> (#[trigger] s[i]).stream_id < (#[trigger] s[j]).stream_id
}

/// What is seen of each message ID: its packets and the length of the first.
pub type Tallies = Map<u16, (u64, usize)>;

/// `x` is what is seen of its message ID.
pub open spec fn tells(m: Tallies, x: Seen) -> bool {
    m.contains_key(x.stream_id) && m[x.stream_id] == (x.count, x.len)
}

/// After one more packet of `id`, `len` octets long.
pub open spec fn noted(m: Tallies, id: u16, len: usize) -> Tallies {
    if m.contains_key(id) {
        m.insert(id, (m[id].0.wrapping_add(1), m[id].1))
    } else {
        m.insert(id, (1, len))
    }
}

/// Which message IDs a recording carries.
pub struct Summary {
    seen: BTreeMap<u16, (u64, usize)>,
}

impl View for Summary {
    type V = Tallies;

    closed spec fn view(&self) -> Tallies {
        self.seen@
    }
}

impl Summary {
    pub fn new() -> (s: Self)
        ensures
            s@ == Tallies::empty(),
    {
        Summary { seen: BTreeMap::new() }
    }

    /// The entries, in ascending order of message ID.
    pub fn entries(&self) -> (e: Vec<Seen>)
        ensures
            id_ordered(e@),
            forall|x: Seen| #[trigger] e@.contains(x) <==> tells(self@, x),
    {
        broadcast use vstd::laws_cmp::group_laws_cmp;

        let walk = self.seen.iter();
        let ghost items = IteratorSpec::remaining(&walk);
        let mut out: Vec<Seen> = Vec::new();
        for (id, v) in it: walk
            invariant
                it.seq() == items,
                out@.len() == it.index(),
                forall|i: int|
                    0 <= i < out@.len() ==> (#[trigger] out@[i]).stream_id == *items[i].0
                        && (out@[i].count, out@[i].len) == *items[i].1,
        {
            out.push(Seen { stream_id: *id, count: v.0, len: v.1 });
        }
        proof {
            let ids = items.map_values(|kv: (&u16, &(u64, usize))| *kv.0);
            assert(vstd::std_specs::btree::increasing_seq(ids));
            assert forall|i: int, j: int| 0 <= i < j < out@.len() implies (#[trigger]
            out@[i]).stream_id < (#[trigger] out@[j]).stream_id by {
                assert(ids[i] == out@[i].stream_id && ids[j] == out@[j].stream_id);
                assert(OrdSpec::cmp_spec(&ids[i], &ids[j]) is Less);
            }
            assert forall|x: Seen| #[trigger] out@.contains(x) <==> tells(self@, x) by {
                if out@.contains(x) {
                    let i = choose|i: int| 0 <= i < out@.len() && out@[i] == x;
                    assert(self.seen@.contains_key(*items[i].0));
                }
                if tells(self@, x) {
                    let k = x.stream_id;
                    assert(items.contains((&k, &self.seen@[k])));
                    let i = choose|i: int|
                        0 <= i < items.len() && items[i] == (&k, &self.seen@[k]);
                    assert(out@[i] == x);
                }
            }
        }
        out
    }

    /// Count one packet.
    pub fn note(&mut self, pkt: &SpacePacket<'_>)
        ensures
            final(self)@ == noted(
                old(self)@,
                PrimaryHeader::of_octets(pkt@).stream_id_of() as u16,
                pkt@.len() as usize,
            ),
    {
        let id: u16 = pkt.primary().stream_id();
        let len: usize = pkt.total_len();
        let next: (u64, usize) = match self.seen.get(&id) {
            Some(v) => (v.0.wrapping_add(1), v.1),
            None => (1, len),
        };
        let _ = self.seen.insert(id, next);
    }
}

/// A capture gives back exactly the packets that were recorded, and is not cut.
pub proof fn a_capture_plays_back(packets: Seq<Seq<u8>>, off: int)
    requires
        forall|i: int| 0 <= i < packets.len() ==> (#[trigger] packets[i]).len() <= u32::MAX,
    ensures
        frames_in(capture_of(packets)) == packets,
        cut_in(capture_of(packets), off) is None,
    decreases packets.len(),
{
    let data = capture_of(packets);
    if packets.len() == 0 {
        assert(frames_in(data) =~= packets);
    } else {
        let p = packets.first();
        let more = packets.drop_first();
        assert(p.len() <= u32::MAX) by {
            assert(packets[0] == p);
        }
        assert forall|i: int| 0 <= i < more.len() implies (#[trigger] more[i]).len() <= u32::MAX by {
            assert(more[i] == packets[i + 1]);
        }
        octets::lemma_le32_round_trip(p.len() as u32);
        assert(octets::le32(data, 0) == octets::le32(octets::le32_octets(p.len() as int), 0));
        assert(data.subrange(4, 4 + p.len() as int) =~= p);
        assert(data.skip(4 + p.len() as int) =~= capture_of(more));
        a_capture_plays_back(more, off + 4 + p.len());
        assert(frames_in(data) =~= packets);
    }
}

/// Packets counted for `id`.
pub open spec fn tally(m: Tallies, id: u16) -> u64 {
    if m.contains_key(id) {
        m[id].0
    } else {
        0
    }
}

/// Noting a packet raises its own message's count by one and no other's, and a
/// message's length stays that of its first packet.
pub proof fn a_packet_counts_for_its_own_message(m: Tallies, id: u16, len: usize, other: u16)
    ensures
        tally(noted(m, id, len), other) == (if other == id {
            tally(m, id).wrapping_add(1)
        } else {
            tally(m, other)
        }),
        noted(m, id, len)[id].1 == (if m.contains_key(id) {
            m[id].1
        } else {
            len
        }),
{
}

/// The 32-bit length at the front of a capture, low octet first.
pub open spec fn length_at_front(data: Seq<u8>) -> int {
    data[0] + 0x100 * (data[1] + 0x100 * (data[2] + 0x100 * data[3]))
}

/// A frame is four octets that say how long the packet is, low octet first, and the
/// packet.
pub proof fn a_frame_says_how_long_it_is(packet: Seq<u8>)
    requires
        packet.len() <= u32::MAX,
    ensures
        frame_of(packet).len() == packet.len() + 4,
        length_at_front(frame_of(packet)) == packet.len(),
        frame_of(packet).skip(4) == packet,
{
    octets::lemma_le32_round_trip(packet.len() as u32);
    let f = frame_of(packet);
    assert(octets::le32(f, 0) == octets::le32(octets::le32_octets(packet.len() as int), 0));
    assert(f.skip(4) =~= packet);
}

/// Whole frames at the front of a capture are its first packets. It is cut short exactly
/// where a frame announces more than is left, four octets into that frame; what is too
/// short to announce anything is passed over.
pub proof fn a_capture_is_read_frame_by_frame(data: Seq<u8>, off: int)
    ensures
        data.len() < 4 ==> frames_in(data).len() == 0 && cut_in(data, off) is None,
        data.len() >= 4 && data.len() < 4 + length_at_front(data) ==> frames_in(data).len() == 0
            && cut_in(data, off) == Some(off + 4),
        data.len() >= 4 && data.len() >= 4 + length_at_front(data) ==> {
            let n = length_at_front(data);
            let more = data.skip(4 + n);
            &&& frames_in(data).len() == frames_in(more).len() + 1
            &&& frames_in(data)[0] == data.subrange(4, 4 + n)
            &&& frames_in(data).skip(1) == frames_in(more)
            &&& cut_in(data, off) == cut_in(more, off + 4 + n)
        },
{
    if data.len() >= 4 && data.len() >= 4 + length_at_front(data) {
        let n = length_at_front(data);
        assert(frames_in(data).skip(1) =~= frames_in(data.skip(4 + n)));
    }
}

/// A message's first packet counts as one and sets its length; each after it counts one
/// more and leaves the length. No other message is touched.
pub proof fn a_message_is_as_long_as_its_first_packet(m: Tallies, id: u16, len: usize, other: u16)
    requires
        other != id,
    ensures
        ({
            let after = noted(m, id, len);
            &&& after.contains_key(id)
            &&& !m.contains_key(id) ==> after[id].0 == 1 && after[id].1 == len
            &&& m.contains_key(id) ==> after[id].0 == m[id].0.wrapping_add(1) && after[id].1
                == m[id].1
            &&& after.contains_key(other) == m.contains_key(other)
            &&& m.contains_key(other) ==> after[other] == m[other]
        }),
{
}

/// A row of the summary speaks of one message: its ID, its packets and its length.
pub proof fn a_row_is_what_the_tallies_tell(m: Tallies, x: Seen)
    ensures
        tells(m, x) <==> {
            &&& m.contains_key(x.stream_id)
            &&& m[x.stream_id].0 == x.count
            &&& m[x.stream_id].1 == x.len
        },
{
}

/// A row gives the message's ID, its packets in six columns and its length in five.
pub proof fn a_row_is_in_columns(x: Seen)
    ensures
        x.row() == "  "@ + text::hex4(x.stream_id as int) + "  "@ + text::right_aligned(
            text::decimal(x.count as nat),
            6,
        ) + " packets  "@ + text::right_aligned(text::decimal(x.len as nat), 5) + " octets"@,
{
}

} // verus!
