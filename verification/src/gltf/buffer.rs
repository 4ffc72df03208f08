//! The document's one binary buffer, with the views and accessors that describe it.

use vstd::prelude::*;

use crate::octets;
use crate::text;

verus! {

/// A number of the document: its 32-bit float representation, and its shortest
/// decimal text.
#[derive(Debug)]
pub struct Number {
    pub bits: u32,
    pub text: String,
}

/// A number as values.
#[verifier::ext_equal]
pub struct NumberModel {
    pub bits: u32,
    pub text: Seq<char>,
}

impl View for Number {
    type V = NumberModel;

    open spec fn view(&self) -> NumberModel {
        NumberModel { bits: self.bits, text: self.text@ }
    }
}

/// The numbers a vector holds.
pub open spec fn numbers(v: Seq<Number>) -> Seq<NumberModel> {
    v.map_values(|n: Number| n@)
}

/// The representations of a run of numbers.
pub open spec fn all_bits(v: Seq<NumberModel>) -> Seq<u32> {
    v.map_values(|n: NumberModel| n.bits)
}

/// Where a 32-bit float lies among all others that are not NaN: its magnitude,
/// negated behind a sign.
pub open spec fn rank(bits: u32) -> int {
    if bits < 0x8000_0000 {
        bits as int
    } else {
        0x8000_0000 - bits
    }
}

/// The representation of a value that is no number.
pub open spec fn is_nan(bits: u32) -> bool {
    bits % 0x8000_0000 > 0x7f80_0000
}

/// One number is less than another; a value that is no number compares with none.
pub open spec fn below(a: u32, b: u32) -> bool {
    !is_nan(a) && !is_nan(b) && rank(a) < rank(b)
}

fn rank_of(bits: u32) -> (r: i64)
    ensures
        r == rank(bits),
{
    if bits < 0x8000_0000 {
        bits as i64
    } else {
        0x8000_0000i64 - bits as i64
    }
}

fn is_below(a: u32, b: u32) -> (yes: bool)
    ensures
        yes == below(a, b),
{
    a % 0x8000_0000 <= 0x7f80_0000 && b % 0x8000_0000 <= 0x7f80_0000 && rank_of(a) < rank_of(b)
}

/// The shape of an accessor's elements.
#[derive(Clone, Copy, Debug, PartialEq, Eq, Structural)]
pub enum Shape {
    Scalar,
    Vec3,
    Vec4,
}

impl Shape {
    /// Numbers in an element.
    pub open spec fn width(self) -> int {
        match self {
            Shape::Scalar => 1,
            Shape::Vec3 => 3,
            Shape::Vec4 => 4,
        }
    }

    pub open spec fn wording(self) -> Seq<char> {
        match self {
            Shape::Scalar => "SCALAR"@,
            Shape::Vec3 => "VEC3"@,
            Shape::Vec4 => "VEC4"@,
        }
    }

    fn numbers(self) -> (n: usize)
        ensures
            n == self.width(),
    {
        match self {
            Shape::Scalar => 1,
            Shape::Vec3 => 3,
            Shape::Vec4 => 4,
        }
    }

    fn name(self) -> (s: &'static str)
        ensures
            s@ == self.wording(),
    {
        match self {
            Shape::Scalar => "SCALAR",
            Shape::Vec3 => "VEC3",
            Shape::Vec4 => "VEC4",
        }
    }
}

/// 16-bit values back to back, each least significant octet first.
pub open spec fn le16_run(words: Seq<u16>) -> Seq<u8> {
    Seq::new(
        2 * words.len(),
        |i: int|
            if i % 2 == 0 {
                (words[i / 2] % 256) as u8
            } else {
                (words[i / 2] / 256) as u8
            },
    )
}

fn le16_octets(words: &Vec<u16>) -> (out: Vec<u8>)
    ensures
        out@ == le16_run(words@),
{
    let n: usize = words.len();
    let mut out: Vec<u8> = Vec::new();
    let mut i: usize = 0;
    while i < n
        invariant
            n == words@.len(),
            i <= n,
            out@ == le16_run(words@).take(2 * i),
        decreases n - i,
    {
        out.push((words[i] % 256) as u8);
        out.push((words[i] / 256) as u8);
        i = i + 1;
        assert(out@ =~= le16_run(words@).take(2 * i));
    }
    assert(out@ =~= le16_run(words@));
    out
}

/// `data` filled up with zeros to a multiple of four octets.
pub open spec fn padded(data: Seq<u8>) -> Seq<u8> {
    data + Seq::new(((4 - data.len() % 4) % 4) as nat, |i: int| 0u8)
}

/// The description of a view.
pub open spec fn view_text(offset: nat, len: nat, target: Option<u32>) -> Seq<char> {
    "{\"buffer\":0,\"byteOffset\":"@ + text::decimal(offset) + ",\"byteLength\":"@ + text::decimal(
        len,
    ) + (match target {
        Some(t) => ",\"target\":"@ + text::decimal(t as nat),
        None => ""@,
    }) + "}"@
}

fn target_text(target: Option<u32>) -> (s: String)
    ensures
        s@ == (match target {
            Some(t) => ",\"target\":"@ + text::decimal(t as nat),
            None => ""@,
        }),
{
    match target {
        Some(t) => {
            let mut s = String::from_str(",\"target\":");
            text::push_decimal(&mut s, t as u64);
            s
        },
        None => String::from_str(""),
    }
}

/// The least of `best` and the numbers at `at`, `at + step` and so on.
pub open spec fn least_from(
    v: Seq<NumberModel>,
    at: int,
    step: int,
    best: NumberModel,
) -> NumberModel
    decreases (if at < v.len() { v.len() - at } else { 0 }),
{
    if at < 0 || at >= v.len() || step <= 0 {
        best
    } else {
        least_from(
            v,
            at + step,
            step,
            if below(v[at].bits, best.bits) {
                v[at]
            } else {
                best
            },
        )
    }
}

/// The greatest of `best` and the numbers at `at`, `at + step` and so on.
pub open spec fn greatest_from(
    v: Seq<NumberModel>,
    at: int,
    step: int,
    best: NumberModel,
) -> NumberModel
    decreases (if at < v.len() { v.len() - at } else { 0 }),
{
    if at < 0 || at >= v.len() || step <= 0 {
        best
    } else {
        greatest_from(
            v,
            at + step,
            step,
            if below(best.bits, v[at].bits) {
                v[at]
            } else {
                best
            },
        )
    }
}

/// What the search for a least number starts from.
pub open spec fn infinity() -> NumberModel {
    NumberModel { bits: 0x7f80_0000, text: "inf"@ }
}

/// What the search for a greatest number starts from.
pub open spec fn negative_infinity() -> NumberModel {
    NumberModel { bits: 0xff80_0000, text: "-inf"@ }
}

/// The least of each component, as text.
pub open spec fn minima(v: Seq<NumberModel>, step: int) -> Seq<Seq<char>> {
    Seq::new(step as nat, |i: int| least_from(v, i, step, infinity()).text)
}

/// The greatest of each component, as text.
pub open spec fn maxima(v: Seq<NumberModel>, step: int) -> Seq<Seq<char>> {
    Seq::new(step as nat, |i: int| greatest_from(v, i, step, negative_infinity()).text)
}

fn least_text(v: &Vec<Number>, first: usize, step: usize) -> (s: String)
    requires
        step == 1 || step == 3 || step == 4,
        first < step,
    ensures
        s@ == least_from(numbers(v@), first as int, step as int, infinity()).text,
{
    let n: usize = v.len();
    let ghost all = numbers(v@);
    let mut bits: u32 = 0x7f80_0000;
    let mut best = "inf";
    let mut at: usize = first;
    while at < n
        invariant
            n == v@.len(),
            0 < step <= 4,
            all == numbers(v@),
            least_from(all, at as int, step as int, NumberModel { bits, text: best@ })
                == least_from(all, first as int, step as int, infinity()),
        decreases (if at < n { n - at } else { 0 }),
    {
        assert(all[at as int] == v@[at as int]@);
        if is_below(v[at].bits, bits) {
            bits = v[at].bits;
            best = v[at].text.as_str();
        }
        if n - at <= step {
            let ghost now = NumberModel { bits, text: best@ };
            assert(least_from(all, at + step, step as int, now) == now);
            assert(least_from(all, n as int, step as int, now) == now);
            at = n;
        } else {
            at = at + step;
        }
    }
    String::from_str(best)
}

fn greatest_text(v: &Vec<Number>, first: usize, step: usize) -> (s: String)
    requires
        step == 1 || step == 3 || step == 4,
        first < step,
    ensures
        s@ == greatest_from(numbers(v@), first as int, step as int, negative_infinity()).text,
{
    let n: usize = v.len();
    let ghost all = numbers(v@);
    let mut bits: u32 = 0xff80_0000;
    let mut best = "-inf";
    let mut at: usize = first;
    while at < n
        invariant
            n == v@.len(),
            0 < step <= 4,
            all == numbers(v@),
            greatest_from(all, at as int, step as int, NumberModel { bits, text: best@ })
                == greatest_from(all, first as int, step as int, negative_infinity()),
        decreases (if at < n { n - at } else { 0 }),
    {
        assert(all[at as int] == v@[at as int]@);
        if is_below(bits, v[at].bits) {
            bits = v[at].bits;
            best = v[at].text.as_str();
        }
        if n - at <= step {
            let ghost now = NumberModel { bits, text: best@ };
            assert(greatest_from(all, at + step, step as int, now) == now);
            assert(greatest_from(all, n as int, step as int, now) == now);
            at = n;
        } else {
            at = at + step;
        }
    }
    String::from_str(best)
}

/// The description of an accessor over floats.
pub open spec fn floats_text(view: nat, v: Seq<NumberModel>, shape: Shape) -> Seq<char> {
    "{\"bufferView\":"@ + text::decimal(view) + ",\"componentType\":5126,\"count\":"@
        + text::decimal((v.len() as int / shape.width()) as nat) + ",\"type\":\""@
        + shape.wording() + "\",\"min\":["@ + text::joined(minima(v, shape.width()), ","@)
        + "],\"max\":["@ + text::joined(maxima(v, shape.width()), ","@) + "]}"@
}

/// The description of an accessor over indices.
pub open spec fn indices_text(view: nat, count: nat) -> Seq<char> {
    "{\"bufferView\":"@ + text::decimal(view) + ",\"componentType\":5123,\"count\":"@
        + text::decimal(count) + ",\"type\":\"SCALAR\"}"@
}

/// The buffer as values.
#[verifier::ext_equal]
pub struct BufModel {
    pub data: Seq<u8>,
    pub views: Seq<Seq<char>>,
    pub accessors: Seq<Seq<char>>,
}

impl BufModel {
    pub open spec fn empty() -> BufModel {
        BufModel { data: seq![], views: seq![], accessors: seq![] }
    }

    /// With a view over `bytes`, which starts at a multiple of four octets.
    pub open spec fn with_view(self, bytes: Seq<u8>, target: Option<u32>) -> BufModel {
        BufModel {
            data: padded(self.data) + bytes,
            views: self.views.push(
                view_text(padded(self.data).len(), bytes.len(), target),
            ),
            ..self
        }
    }

    /// With an accessor over floats.
    pub open spec fn with_floats(
        self,
        v: Seq<NumberModel>,
        shape: Shape,
        target: Option<u32>,
    ) -> BufModel {
        let b = self.with_view(octets::le32_run(all_bits(v)), target);
        BufModel { accessors: b.accessors.push(floats_text(self.views.len(), v, shape)), ..b }
    }

    /// With an accessor over indices.
    pub open spec fn with_indices(self, v: Seq<u16>) -> BufModel {
        let b = self.with_view(le16_run(v), Some(ELEMENT_ARRAY_BUFFER));
        BufModel { accessors: b.accessors.push(indices_text(self.views.len(), v.len())), ..b }
    }
}

/// The target of a view over vertex data.
pub const ARRAY_BUFFER: u32 = 34962;

/// The target of a view over indices.
pub const ELEMENT_ARRAY_BUFFER: u32 = 34963;

/// The buffer, with the text of its views and accessors.
#[derive(Debug)]
pub struct Buf {
    pub data: Vec<u8>,
    pub views: Vec<String>,
    pub accessors: Vec<String>,
}

impl View for Buf {
    type V = BufModel;

    open spec fn view(&self) -> BufModel {
        BufModel {
            data: self.data@,
            views: text::texts(self.views@),
            accessors: text::texts(self.accessors@),
        }
    }
}

impl Buf {
    pub fn new() -> (b: Self)
        ensures
            b@ == BufModel::empty(),
    {
        let b = Buf { data: Vec::new(), views: Vec::new(), accessors: Vec::new() };
        assert(b@ =~= BufModel::empty());
        b
    }

    /// Append `bytes` in a view of their own, and return its number.
    pub fn add_view(&mut self, bytes: &Vec<u8>, target: Option<u32>) -> (i: usize)
        ensures
            final(self)@ == old(self)@.with_view(bytes@, target),
            i == old(self)@.views.len(),
    {
        let ghost start = self@;
        while self.data.len() % 4 != 0
            invariant
                self.views == old(self).views,
                self.accessors == old(self).accessors,
                padded(self.data@) == padded(start.data),
            decreases (4 - self.data@.len() % 4) % 4,
        {
            let ghost before = self.data@;
            self.data.push(0);
            assert(padded(self.data@) =~= padded(before));
        }
        assert(self.data@ =~= padded(start.data));
        let offset: usize = self.data.len();
        octets::push_octets(&mut self.data, bytes.as_slice());
        let mut s = String::from_str("{\"buffer\":0,\"byteOffset\":");
        text::push_decimal(&mut s, offset as u64);
        s.append(",\"byteLength\":");
        text::push_decimal(&mut s, bytes.len() as u64);
        let t = target_text(target);
        s.append(t.as_str());
        s.append("}");
        let ghost views = self.views@;
        let i: usize = self.views.len();
        self.views.push(s);
        assert(text::texts(self.views@) =~= text::texts(views).push(s@));
        i
    }

    /// Append numbers in an accessor of their own, and return its number.
    ///
    /// The least and greatest of each component are required of some accessors and
    /// written for all.
    pub fn floats(&mut self, vals: &Vec<Number>, shape: Shape, target: Option<u32>) -> (i: usize)
        requires
            vals@.len() % shape.width() as nat == 0,
        ensures
            final(self)@ == old(self)@.with_floats(numbers(vals@), shape, target),
            i == old(self)@.accessors.len(),
    {
        let ghost all = numbers(vals@);
        let per: usize = shape.numbers();
        let count: usize = vals.len() / per;
        let mut words: Vec<u32> = Vec::new();
        let mut k: usize = 0;
        while k < vals.len()
            invariant
                k <= vals@.len(),
                all == numbers(vals@),
                words@ == all_bits(all).take(k as int),
            decreases vals@.len() - k,
        {
            words.push(vals[k].bits);
            k = k + 1;
            assert(words@ =~= all_bits(all).take(k as int));
        }
        assert(words@ =~= all_bits(all));
        let mut bytes: Vec<u8> = Vec::new();
        octets::push_le32_run(&mut bytes, words.as_slice());
        assert(bytes@ =~= octets::le32_run(all_bits(all)));
        let view: usize = self.add_view(&bytes, target);
        let mut min: Vec<String> = Vec::new();
        let mut max: Vec<String> = Vec::new();
        let mut c: usize = 0;
        while c < per
            invariant
                c <= per,
                per == 1 || per == 3 || per == 4,
                all == numbers(vals@),
                text::texts(min@) == minima(all, per as int).take(c as int),
                text::texts(max@) == maxima(all, per as int).take(c as int),
            decreases per - c,
        {
            let ghost low = min@;
            let ghost high = max@;
            let least = least_text(vals, c, per);
            let greatest = greatest_text(vals, c, per);
            min.push(least);
            max.push(greatest);
            assert(text::texts(min@) =~= text::texts(low).push(least@));
            assert(text::texts(max@) =~= text::texts(high).push(greatest@));
            c = c + 1;
            assert(text::texts(min@) =~= minima(all, per as int).take(c as int));
            assert(text::texts(max@) =~= maxima(all, per as int).take(c as int));
        }
        assert(text::texts(min@) =~= minima(all, per as int));
        assert(text::texts(max@) =~= maxima(all, per as int));
        let mut s = String::from_str("{\"bufferView\":");
        text::push_decimal(&mut s, view as u64);
        s.append(",\"componentType\":5126,\"count\":");
        text::push_decimal(&mut s, count as u64);
        s.append(",\"type\":\"");
        s.append(shape.name());
        s.append("\",\"min\":[");
        text::push_joined(&mut s, &min, ",");
        s.append("],\"max\":[");
        text::push_joined(&mut s, &max, ",");
        s.append("]}");
        let ghost accessors = self.accessors@;
        let i: usize = self.accessors.len();
        self.accessors.push(s);
        assert(text::texts(self.accessors@) =~= text::texts(accessors).push(s@));
        i
    }

    /// Append indices in an accessor of their own, and return its number.
    pub fn indices(&mut self, vals: &Vec<u16>) -> (i: usize)
        ensures
            final(self)@ == old(self)@.with_indices(vals@),
            i == old(self)@.accessors.len(),
    {
        let bytes = le16_octets(vals);
        let view: usize = self.add_view(&bytes, Some(ELEMENT_ARRAY_BUFFER));
        let mut s = String::from_str("{\"bufferView\":");
        text::push_decimal(&mut s, view as u64);
        s.append(",\"componentType\":5123,\"count\":");
        text::push_decimal(&mut s, vals.len() as u64);
        s.append(",\"type\":\"SCALAR\"}");
        let ghost accessors = self.accessors@;
        let i: usize = self.accessors.len();
        self.accessors.push(s);
        assert(text::texts(self.accessors@) =~= text::texts(accessors).push(s@));
        i
    }
}

/// A view keeps everything that was in the buffer and starts at a multiple of four
/// octets, where its bytes stand unchanged.
pub proof fn a_view_is_aligned_and_intact(b: BufModel, bytes: Seq<u8>, target: Option<u32>)
    ensures
        ({
            let after = b.with_view(bytes, target);
            let offset = padded(b.data).len();
            &&& offset % 4 == 0
            &&& after.data.subrange(offset as int, after.data.len() as int) == bytes
            &&& after.data.take(b.data.len() as int) == b.data
        }),
{
    let after = b.with_view(bytes, target);
    let offset = padded(b.data).len();
    assert(after.data.subrange(offset as int, after.data.len() as int) =~= bytes);
    assert(after.data.take(b.data.len() as int) =~= b.data);
}

/// Numbers compare by their representation: two without a sign as they stand, two with one
/// the other way round, and one with a sign below one without, unless both are zero. What
/// is no number is below nothing, and nothing is below it.
pub proof fn numbers_compare_by_their_bits(a: u32, b: u32)
    ensures
        a % 0x8000_0000 > 0x7f80_0000 || b % 0x8000_0000 > 0x7f80_0000 ==> !below(a, b),
        a <= 0x7f80_0000 && b <= 0x7f80_0000 ==> (below(a, b) <==> a < b),
        0x8000_0000 <= a <= 0xff80_0000 && 0x8000_0000 <= b <= 0xff80_0000 ==> (below(a, b) <==> b
            < a),
        0x8000_0000 <= a <= 0xff80_0000 && b <= 0x7f80_0000 ==> (below(a, b) <==> !(a
            == 0x8000_0000 && b == 0)),
        a <= 0x7f80_0000 && 0x8000_0000 <= b <= 0xff80_0000 ==> !below(a, b),
{
}

proof fn lemma_least(v: Seq<NumberModel>, at: int, step: int, best: NumberModel)
    requires
        0 <= at,
        0 < step,
        !is_nan(best.bits),
    ensures
        ({
            let m = least_from(v, at, step, best);
            &&& !is_nan(m.bits)
            &&& rank(m.bits) <= rank(best.bits)
            &&& m == best || exists|k: int|
                0 <= k && at + step * k < v.len() && #[trigger] v[at + step * k] == m
            &&& forall|k: int|
                0 <= k && at + step * k < v.len() ==> !below(
                    (#[trigger] v[at + step * k]).bits,
                    m.bits,
                )
        }),
    decreases (if at < v.len() { v.len() - at } else { 0 }),
{
    let m = least_from(v, at, step, best);
    if at < v.len() {
        let next = if below(v[at].bits, best.bits) {
            v[at]
        } else {
            best
        };
        lemma_least(v, at + step, step, next);
        assert(at + step * 0 == at) by (nonlinear_arith);
        if m != best {
            if m == next {
                assert(v[at + step * 0] == m);
            } else {
                let k = choose|k: int|
                    0 <= k && (at + step) + step * k < v.len() && #[trigger] v[(at + step) + step
                        * k] == m;
                assert((at + step) + step * k == at + step * (k + 1)) by (nonlinear_arith);
                assert(v[at + step * (k + 1)] == m);
            }
        }
        assert forall|k: int| 0 <= k && at + step * k < v.len() implies !below(
            (#[trigger] v[at + step * k]).bits,
            m.bits,
        ) by {
            if k > 0 {
                assert((at + step) + step * (k - 1) == at + step * k) by (nonlinear_arith);
                assert(!below(v[(at + step) + step * (k - 1)].bits, m.bits));
            }
        }
    } else {
        assert forall|k: int| 0 <= k && at + step * k < v.len() implies !below(
            (#[trigger] v[at + step * k]).bits,
            m.bits,
        ) by {
            assert(step * k >= 0) by (nonlinear_arith)
                requires
                    step > 0,
                    k >= 0,
            ;
        }
    }
}

proof fn lemma_greatest(v: Seq<NumberModel>, at: int, step: int, best: NumberModel)
    requires
        0 <= at,
        0 < step,
        !is_nan(best.bits),
    ensures
        ({
            let m = greatest_from(v, at, step, best);
            &&& !is_nan(m.bits)
            &&& rank(m.bits) >= rank(best.bits)
            &&& m == best || exists|k: int|
                0 <= k && at + step * k < v.len() && #[trigger] v[at + step * k] == m
            &&& forall|k: int|
                0 <= k && at + step * k < v.len() ==> !below(
                    m.bits,
                    (#[trigger] v[at + step * k]).bits,
                )
        }),
    decreases (if at < v.len() { v.len() - at } else { 0 }),
{
    let m = greatest_from(v, at, step, best);
    if at < v.len() {
        let next = if below(best.bits, v[at].bits) {
            v[at]
        } else {
            best
        };
        lemma_greatest(v, at + step, step, next);
        assert(at + step * 0 == at) by (nonlinear_arith);
        if m != best {
            if m == next {
                assert(v[at + step * 0] == m);
            } else {
                let k = choose|k: int|
                    0 <= k && (at + step) + step * k < v.len() && #[trigger] v[(at + step) + step
                        * k] == m;
                assert((at + step) + step * k == at + step * (k + 1)) by (nonlinear_arith);
                assert(v[at + step * (k + 1)] == m);
            }
        }
        assert forall|k: int| 0 <= k && at + step * k < v.len() implies !below(
            m.bits,
            (#[trigger] v[at + step * k]).bits,
        ) by {
            if k > 0 {
                assert((at + step) + step * (k - 1) == at + step * k) by (nonlinear_arith);
                assert(!below(m.bits, v[(at + step) + step * (k - 1)].bits));
            }
        }
    } else {
        assert forall|k: int| 0 <= k && at + step * k < v.len() implies !below(
            m.bits,
            (#[trigger] v[at + step * k]).bits,
        ) by {
            assert(step * k >= 0) by (nonlinear_arith)
                requires
                    step > 0,
                    k >= 0,
            ;
        }
    }
}

/// The bounds of each component are numbers of that component, or the infinities that an
/// empty one has, and no number of it lies beyond them.
pub proof fn bounds_hold_every_number(v: Seq<NumberModel>, step: int, i: int) -> (r: (
    NumberModel,
    NumberModel,
))
    requires
        0 <= i < step,
    ensures
        minima(v, step).len() == step,
        maxima(v, step).len() == step,
        minima(v, step)[i] == r.0.text,
        maxima(v, step)[i] == r.1.text,
        r.0 == (NumberModel { bits: 0x7f80_0000, text: "inf"@ }) || exists|k: int|
            0 <= k && i + step * k < v.len() && #[trigger] v[i + step * k] == r.0,
        r.1 == (NumberModel { bits: 0xff80_0000, text: "-inf"@ }) || exists|k: int|
            0 <= k && i + step * k < v.len() && #[trigger] v[i + step * k] == r.1,
        forall|k: int|
            0 <= k && i + step * k < v.len() ==> !below(
                (#[trigger] v[i + step * k]).bits,
                r.0.bits,
            ) && !below(r.1.bits, v[i + step * k].bits),
{
    lemma_least(v, i, step, infinity());
    lemma_greatest(v, i, step, negative_infinity());
    (
        least_from(v, i, step, infinity()),
        greatest_from(v, i, step, negative_infinity()),
    )
}

/// A view starts at the first multiple of four octets that is free, with zeros up to it,
/// and its text says where it starts, how long it is and, where it has one, its target.
pub proof fn a_view_says_where_it_stands(b: BufModel, bytes: Seq<u8>, target: Option<u32>, i: int)
    ensures
        ({
            let after = b.with_view(bytes, target);
            let offset = after.data.len() - bytes.len();
            &&& offset % 4 == 0
            &&& b.data.len() <= offset < b.data.len() + 4
            &&& b.data.len() <= i < offset ==> after.data[i] == 0
            &&& after.data.skip(offset) == bytes
            &&& after.accessors == b.accessors
            &&& after.views.drop_last() == b.views
            &&& after.views.len() == b.views.len() + 1
            &&& target is None ==> after.views.last() == "{\"buffer\":0,\"byteOffset\":"@
                + text::decimal(offset as nat) + ",\"byteLength\":"@ + text::decimal(bytes.len())
                + "}"@
            &&& target is Some ==> after.views.last() == "{\"buffer\":0,\"byteOffset\":"@
                + text::decimal(offset as nat) + ",\"byteLength\":"@ + text::decimal(bytes.len())
                + (",\"target\":"@ + text::decimal(target->0 as nat)) + "}"@
        }),
{
    let after = b.with_view(bytes, target);
    let offset = after.data.len() - bytes.len();
    assert(after.data.skip(offset) =~= bytes);
    assert(after.views.drop_last() =~= b.views);
    reveal_strlit("");
    if target is None {
        let head = "{\"buffer\":0,\"byteOffset\":"@ + text::decimal(offset as nat)
            + ",\"byteLength\":"@ + text::decimal(bytes.len());
        assert(head + ""@ =~= head);
    }
}

/// Numbers become a view of their representations, four octets each, low ones first, and
/// an accessor that names that view, how many elements it has, of what shape, and their
/// bounds. Indices become a view of two octets each and an accessor over it.
pub proof fn an_accessor_names_its_view(
    b: BufModel,
    v: Seq<NumberModel>,
    shape: Shape,
    target: Option<u32>,
    words: Seq<u16>,
    i: int,
)
    ensures
        ({
            let after = b.with_floats(v, shape, target);
            let bytes = after.data.skip(after.data.len() - 4 * v.len());
            let step = match shape {
                Shape::Scalar => 1int,
                Shape::Vec3 => 3,
                Shape::Vec4 => 4,
            };
            &&& after.views.len() == b.views.len() + 1
            &&& after.accessors.drop_last() == b.accessors
            &&& 0 <= i < v.len() ==> bytes[4 * i] + 0x100 * (bytes[4 * i + 1] + 0x100 * (bytes[4 * i
                + 2] + 0x100 * bytes[4 * i + 3])) == v[i].bits
            &&& after.accessors.last() == "{\"bufferView\":"@ + text::decimal(b.views.len())
                + ",\"componentType\":5126,\"count\":"@ + text::decimal(
                (v.len() as int / step) as nat,
            ) + ",\"type\":\""@ + (match shape {
                Shape::Scalar => "SCALAR"@,
                Shape::Vec3 => "VEC3"@,
                Shape::Vec4 => "VEC4"@,
            }) + "\",\"min\":["@ + text::joined(minima(v, step), ","@) + "],\"max\":["@
                + text::joined(maxima(v, step), ","@) + "]}"@
        }),
        ({
            let after = b.with_indices(words);
            let bytes = after.data.skip(after.data.len() - 2 * words.len());
            &&& after.views.len() == b.views.len() + 1
            &&& after.views == b.with_view(bytes, Some(34963)).views
            &&& after.accessors.drop_last() == b.accessors
            &&& 0 <= i < words.len() ==> bytes[2 * i] + 0x100 * bytes[2 * i + 1] == words[i]
            &&& after.accessors.last() == "{\"bufferView\":"@ + text::decimal(b.views.len())
                + ",\"componentType\":5123,\"count\":"@ + text::decimal(words.len())
                + ",\"type\":\"SCALAR\"}"@
        }),
{
    let bits = all_bits(v);
    let after = b.with_floats(v, shape, target);
    let run = octets::le32_run(bits);
    assert(after.data.skip(after.data.len() - 4 * v.len()) =~= run);
    assert(after.accessors.drop_last() =~= b.accessors);
    if 0 <= i < v.len() {
        octets::lemma_le32_run_reads_back(bits, Seq::empty(), i);
        assert(run + Seq::<u8>::empty() =~= run);
        assert(octets::le32(run, 4 * i) == bits[i]);
    }
    let marked = b.with_indices(words);
    assert(marked.data.skip(marked.data.len() - 2 * words.len()) =~= le16_run(words));
    assert(marked.accessors.drop_last() =~= b.accessors);
}

} // verus!
