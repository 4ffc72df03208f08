//! Taking screenshots, one or a numbered sequence.
//!
//! A recorded sequence is a list of instants. Offline, the clock stops at each one
//! and only moves on once that frame has been requested, so the recording is a
//! function of the timeline rather than of how fast the machine renders.

use vstd::prelude::*;

use crate::numeral;
use crate::text;

verus! {

/// How often a long recording reports its progress.
pub const REPORT_EVERY: usize = 20;

/// Yokes of the display's one vehicle.
pub const DISPLAY_YOKES: usize = 2;

/// Frames the display waits after its last request: two seconds of them.
pub const DISPLAY_DRAIN: u32 = 120;

/// Yokes of the comparison's three vehicles.
pub const COMPARISON_YOKES: usize = 6;

/// Frames the comparison waits after its one request.
pub const COMPARISON_DRAIN: u32 = 40;

/// Progress of a recording over `total` instants.
#[derive(Clone, Copy, Debug, PartialEq, Eq, Structural)]
pub struct Recording {
    pub total: usize,
    /// Yokes the scene must show before it is worth capturing.
    pub yokes: usize,
    /// Frames to wait after the last request, so that every file is written.
    pub drain: u32,
    /// The next instant to capture.
    pub next: usize,
    /// Frames since the last request.
    pub settled: u32,
}

/// What a frame asks for.
#[derive(Clone, Copy, Debug, PartialEq, Eq, Structural)]
pub enum Shot {
    Wait,
    /// Everything is written.
    Quit,
    /// Capture instant `frame`, and move the clock's target to `target` if there is
    /// one left.
    Take { frame: usize, target: Option<usize> },
}

impl Recording {
    pub open spec fn wf(self) -> bool {
        self.next <= self.total
    }

    /// What this frame asks for.
    pub open spec fn due(self, at_target: bool, yokes: usize) -> Shot {
        if self.next >= self.total {
            if self.settled >= self.drain {
                Shot::Quit
            } else {
                Shot::Wait
            }
        } else if !at_target || yokes < self.yokes {
            Shot::Wait
        } else {
            Shot::Take {
                frame: self.next,
                target: if self.next + 1 < self.total {
                    Some((self.next + 1) as usize)
                } else {
                    None
                },
            }
        }
    }

    /// The recording after this frame.
    pub open spec fn after(self, at_target: bool, yokes: usize) -> Recording {
        if self.next >= self.total {
            Recording {
                settled: if self.settled >= self.drain {
                    self.settled
                } else {
                    (self.settled + 1) as u32
                },
                ..self
            }
        } else if self.due(at_target, yokes) is Take {
            Recording { next: (self.next + 1) as usize, settled: 0, ..self }
        } else {
            self
        }
    }

    pub fn new(total: usize, yokes: usize, drain: u32) -> (r: Self)
        ensures
            r == (Recording { total, yokes, drain, next: 0, settled: 0 }),
            r.wf(),
    {
        Recording { total, yokes, drain, next: 0, settled: 0 }
    }

    /// Decide one frame.
    pub fn step(&mut self, at_target: bool, yokes: usize) -> (shot: Shot)
        requires
            old(self).wf(),
        ensures
            shot == old(self).due(at_target, yokes),
            *final(self) == old(self).after(at_target, yokes),
            final(self).wf(),
    {
        if self.next >= self.total {
            if self.settled >= self.drain {
                return Shot::Quit;
            }
            self.settled = self.settled + 1;
            return Shot::Wait;
        }
        if !at_target || yokes < self.yokes {
            return Shot::Wait;
        }
        let frame: usize = self.next;
        self.next = frame + 1;
        self.settled = 0;
        let target = if self.next < self.total {
            Some(self.next)
        } else {
            None
        };
        Shot::Take { frame, target }
    }
}

/// What is printed when `frame` of `total` is captured into `path`.
pub open spec fn notice_words(frame: int, total: int, path: Seq<char>) -> Option<Seq<char>> {
    if total == 1 {
        Some("capturing "@ + path)
    } else if frame % REPORT_EVERY as int == 0 || frame + 1 == total {
        Some(
            "capturing frame "@ + text::decimal((frame + 1) as nat) + " of "@ + text::decimal(
                total as nat,
            ),
        )
    } else {
        None
    }
}

pub fn notice(frame: usize, total: usize, path: &str) -> (line: Option<String>)
    requires
        frame < total,
    ensures
        match line {
            Some(s) => notice_words(frame as int, total as int, path@) == Some(s@),
            None => notice_words(frame as int, total as int, path@) is None,
        },
{
    if total == 1 {
        let mut s = String::from_str("capturing ");
        s.append(path);
        Some(s)
    } else if frame % REPORT_EVERY == 0 || frame + 1 == total {
        let mut s = String::from_str("capturing frame ");
        text::push_decimal(&mut s, (frame + 1) as u64);
        s.append(" of ");
        text::push_decimal(&mut s, total as u64);
        Some(s)
    } else {
        None
    }
}

/// `n` in decimal, led by zeros to five digits.
pub open spec fn five_digits(n: nat) -> Seq<char> {
    let d = text::decimal(n);
    if d.len() < 5 {
        Seq::new((5 - d.len()) as nat, |i: int| '0') + d
    } else {
        d
    }
}

/// How the `n`-th frame's file is named.
pub open spec fn file_words(n: nat) -> Seq<char> {
    "frame_"@ + five_digits(n) + ".png"@
}

/// The name of the `n`-th frame's file.
pub fn frame_name(n: usize) -> (s: String)
    ensures
        s@ == "frame_"@ + five_digits(n as nat) + ".png"@,
        s@ == file_words(n as nat),
{
    let d = text::decimal_text(n as u64);
    let mut s = String::from_str("frame_");
    let ghost head = s@;
    let mut width: usize = d.as_str().unicode_len();
    let ghost len = width;
    while width < 5
        invariant
            len <= width,
            len < 5 ==> width <= 5,
            len >= 5 ==> width == len,
            s@ == head + Seq::new((width - len) as nat, |i: int| '0'),
        decreases 5 - width,
    {
        proof {
            reveal_strlit("0");
        }
        s.append("0");
        width = width + 1;
        assert(s@ =~= head + Seq::new((width - len) as nat, |i: int| '0'));
    }
    s.append(d.as_str());
    assert(s@ =~= head + five_digits(n as nat));
    s.append(".png");
    s
}

/// What becomes of a recording over a run of frames.
pub open spec fn ran(r: Recording, frames: Seq<(bool, usize)>) -> Recording
    decreases frames.len(),
{
    if frames.len() == 0 {
        r
    } else {
        let before = ran(r, frames.drop_last());
        before.after(frames.last().0, frames.last().1)
    }
}

/// Every instant is captured once and in order: a recording moves on by exactly the
/// instant it takes, never back, and quits only when none is left.
pub proof fn no_instant_is_skipped_or_repeated(r: Recording, at_target: bool, yokes: usize)
    requires
        r.wf(),
    ensures
        r.after(at_target, yokes).wf(),
        r.due(at_target, yokes) is Take <==> r.after(at_target, yokes).next == r.next + 1,
        !(r.due(at_target, yokes) is Take) ==> r.after(at_target, yokes).next == r.next,
        r.due(at_target, yokes) matches Shot::Take { frame, target } ==> frame == r.next,
        r.due(at_target, yokes) is Quit ==> r.next == r.total,
{
}

/// A recording quits only after the last request has had its frames to be written.
pub proof fn a_recording_drains_before_it_quits(
    r: Recording,
    frames: Seq<(bool, usize)>,
    at_target: bool,
    yokes: usize,
)
    requires
        r.wf(),
        r.next == r.total,
        r.settled == 0,
        ran(r, frames).due(at_target, yokes) is Quit,
    ensures
        frames.len() >= r.drain,
{
    lemma_drained(r, frames);
}

proof fn lemma_drained(r: Recording, frames: Seq<(bool, usize)>)
    requires
        r.next == r.total,
        r.settled == 0,
    ensures
        ran(r, frames).next == ran(r, frames).total,
        ran(r, frames).settled <= frames.len(),
        ran(r, frames).drain == r.drain,
    decreases frames.len(),
{
    if frames.len() > 0 {
        lemma_drained(r, frames.drop_last());
    }
}

/// A frame is taken exactly when one is left, the clock stands at it and the whole scene
/// is there; it is the next one, and the clock is sent on to the one after it unless it
/// was the last. With none left the recording quits once it has drained.
pub proof fn a_frame_is_taken_when_all_is_ready(r: Recording, at_target: bool, yokes: usize)
    requires
        r.wf(),
    ensures
        ({
            let ready = r.next < r.total && at_target && yokes >= r.yokes;
            let drained = r.next == r.total && r.settled >= r.drain;
            let shot = r.due(at_target, yokes);
            let after = r.after(at_target, yokes);
            &&& ready ==> shot is Take && shot->frame == r.next
            &&& ready && r.next + 1 < r.total ==> shot->target is Some && shot->target->0 == r.next
                + 1
            &&& ready && r.next + 1 == r.total ==> shot->target is None
            &&& drained ==> shot is Quit
            &&& !ready && !drained ==> shot is Wait
            &&& after.total == r.total
            &&& after.yokes == r.yokes
            &&& after.drain == r.drain
            &&& after.next == (if ready {
                r.next + 1
            } else {
                r.next as int
            })
            &&& after.settled == (if ready {
                0
            } else if r.next == r.total && !drained {
                r.settled + 1
            } else {
                r.settled as int
            })
        }),
{
}

/// A single capture names its file. A sequence reports its first frame, every twentieth
/// after it and its last, counting from one, and nothing in between.
pub proof fn a_long_recording_reports_now_and_then(frame: int, total: int, path: Seq<char>)
    requires
        0 <= frame < total,
    ensures
        total == 1 ==> notice_words(frame, total, path) == Some("capturing "@ + path),
        total > 1 && (frame % 20 == 0 || frame == total - 1) ==> notice_words(frame, total, path)
            == Some(
            "capturing frame "@ + text::decimal((frame + 1) as nat) + " of "@ + text::decimal(
                total as nat,
            ),
        ),
        total > 1 && frame % 20 != 0 && frame < total - 1 ==> notice_words(
            frame,
            total,
            path,
        ) is None,
{
}

/// A frame's number is written with zeros in front up to five digits, and still spells
/// that number.
pub proof fn a_frame_number_is_five_digits(n: nat)
    ensures
        ({
            let s = five_digits(n);
            let d = text::decimal(n);
            &&& s.len() == (if d.len() < 5 {
                5
            } else {
                d.len()
            })
            &&& s.skip(s.len() - d.len()) == d
            &&& forall|i: int| 0 <= i < s.len() - d.len() ==> #[trigger] s[i] == '0'
            &&& numeral::digits_value(s, 10) == Some(n as int)
        }),
{
    let s = five_digits(n);
    let d = text::decimal(n);
    assert(s.skip(s.len() - d.len()) =~= d);
    numeral::a_decimal_is_read_back(n, 0);
    let k = if d.len() < 5 {
        5 - d.len()
    } else {
        0
    };
    lemma_leading_zeros(d, k as nat);
    assert(s =~= Seq::new(k as nat, |i: int| '0') + d);
}

/// Zeros in front change no number.
proof fn lemma_leading_zeros(d: Seq<char>, k: nat)
    requires
        numeral::digits_value(d, 10) is Some,
    ensures
        numeral::digits_value(Seq::new(k, |i: int| '0') + d, 10) == numeral::digits_value(d, 10),
    decreases d.len(), k,
{
    let z = Seq::new(k, |i: int| '0');
    let s = z + d;
    if d.len() > 0 {
        assert(s.drop_last() =~= z + d.drop_last());
        assert(s.last() == d.last());
        lemma_leading_zeros(d.drop_last(), k);
    } else if k > 0 {
        let y = Seq::new((k - 1) as nat, |i: int| '0');
        assert(s.drop_last() =~= y + d);
        assert(s.last() == '0');
        lemma_leading_zeros(d, (k - 1) as nat);
    } else {
        assert(s =~= d);
    }
}

/// A frame's file is named by its number.
pub proof fn a_file_is_named_by_its_number(n: nat)
    ensures
        file_words(n).len() == 10 + five_digits(n).len(),
        file_words(n).take(6) == "frame_"@,
        file_words(n).subrange(6, 6 + five_digits(n).len() as int) == five_digits(n),
        file_words(n).skip(6 + five_digits(n).len() as int) == ".png"@,
{
    reveal_strlit("frame_");
    reveal_strlit(".png");
    assert("frame_"@.len() == 6 && ".png"@.len() == 4);
    assert(file_words(n).take(6) =~= "frame_"@);
    assert(file_words(n).subrange(6, 6 + five_digits(n).len() as int) =~= five_digits(n));
    assert(file_words(n).skip(6 + five_digits(n).len() as int) =~= ".png"@);
}

} // verus!
