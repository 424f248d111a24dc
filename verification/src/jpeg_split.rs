//! Splits a continuous MJPEG byte stream into single JPEG images by following
//! the JPEG marker structure: marker segments carry their own length, and
//! entropy-coded data runs until a `0xFF` that is not followed by `0x00`.
use vstd::prelude::*;

verus! {

/// Where the splitter stands inside the JPEG structure.
#[derive(Clone, Copy, Debug, PartialEq, Eq, Structural)]
pub enum SplitJpegState {
    /// looking for 0xFF
    Marker1,
    /// looking for a second marker byte
    Marker2,
    /// looking for first byte of payload size
    Size1,
    /// looking for second byte of payload size
    Size2(u8),
    /// iterating through a payload following a marker for n remaining bytes
    Payload(u16),
    /// iterating through entropy-coded data for 0xFF
    EntropyCoded,
    /// checking the next byte for 0x00 to escape entropy coded data
    EcEscape,
}

/// The outcome of looking at one byte in one state.
pub struct StepResult {
    pub state: SplitJpegState,
    /// The byte is appended to the frame.
    pub push: bool,
    /// The byte is used up; otherwise it is looked at again in the new state.
    pub consumed: bool,
    /// The frame (with this byte) is a complete image.
    pub emit: bool,
}

/// Whether a marker byte is a restart marker (`0xD0` to `0xD7`), which has no size.
pub open spec fn is_restart(b: u8) -> bool {
    0xD0 <= b <= 0xD7
}

/// The payload length that two size bytes announce, not counting the size bytes.
pub open spec fn payload_len(first: u8, b: u8) -> int {
    first * 256 + b - 2
}

/// Whether looking at `b` in state `s` is defined: the size field of a marker
/// segment counts itself, so it is at least 2.
pub open spec fn step_ok(s: SplitJpegState, b: u8) -> bool {
    match s {
        SplitJpegState::Size2(first) => payload_len(first, b) >= 0,
        _ => true,
    }
}

/// One look at byte `b` in state `s`.
pub open spec fn step(s: SplitJpegState, b: u8) -> StepResult {
    match s {
        SplitJpegState::Marker1 => if b == 0xFF {
            StepResult { state: SplitJpegState::Marker2, push: true, consumed: true, emit: false }
        } else {
            StepResult { state: SplitJpegState::Marker1, push: false, consumed: true, emit: false }
        },
        SplitJpegState::Marker2 => if b == 0xD8 {
            StepResult { state: SplitJpegState::Marker1, push: true, consumed: true, emit: false }
        } else if b == 0xD9 {
            StepResult { state: SplitJpegState::Marker1, push: true, consumed: true, emit: true }
        } else if is_restart(b) {
            StepResult { state: SplitJpegState::Marker1, push: true, consumed: true, emit: false }
        } else if b == 0xDA {
            StepResult { state: SplitJpegState::EntropyCoded, push: true, consumed: true, emit: false }
        } else {
            StepResult { state: SplitJpegState::Size1, push: true, consumed: true, emit: false }
        },
        SplitJpegState::Size1 =>
            StepResult { state: SplitJpegState::Size2(b), push: true, consumed: true, emit: false },
        SplitJpegState::Size2(first) =>
            StepResult { state: SplitJpegState::Payload(payload_len(first, b) as u16), push: true, consumed: true, emit: false },
        SplitJpegState::Payload(n) => if n == 0 {
            StepResult { state: SplitJpegState::Marker1, push: false, consumed: false, emit: false }
        } else {
            StepResult { state: SplitJpegState::Payload((n - 1) as u16), push: true, consumed: true, emit: false }
        },
        SplitJpegState::EntropyCoded => if b == 0xFF {
            StepResult { state: SplitJpegState::EcEscape, push: true, consumed: true, emit: false }
        } else {
            StepResult { state: SplitJpegState::EntropyCoded, push: true, consumed: true, emit: false }
        },
        SplitJpegState::EcEscape => if b == 0x00 {
            StepResult { state: SplitJpegState::EntropyCoded, push: true, consumed: true, emit: false }
        } else {
            StepResult { state: SplitJpegState::Marker2, push: false, consumed: false, emit: false }
        },
    }
}

/// The abstract state of a splitter: where it stands and the bytes of the
/// image gathered so far.
pub struct SplitterView {
    pub state: SplitJpegState,
    pub frame: Seq<u8>,
}

/// The splitter after one step, with the image that the step completes.
pub open spec fn apply_step(v: SplitterView, b: u8) -> (SplitterView, Seq<Seq<u8>>) {
    let r = step(v.state, b);
    let frame = if r.push { v.frame.push(b) } else { v.frame };
    if r.emit {
        (SplitterView { state: r.state, frame: Seq::empty() }, seq![frame])
    } else {
        (SplitterView { state: r.state, frame }, Seq::empty())
    }
}

/// Whether byte `b` can be taken in: looked at once, and a second time when the
/// first look leaves it unused.
pub open spec fn absorb_ok(v: SplitterView, b: u8) -> bool {
    step_ok(v.state, b) && (!step(v.state, b).consumed ==> step_ok(step(v.state, b).state, b))
}

/// The splitter after taking in byte `b`, with the images completed meanwhile.
pub open spec fn absorb(v: SplitterView, b: u8) -> (SplitterView, Seq<Seq<u8>>) {
    let (v1, e1) = apply_step(v, b);
    if step(v.state, b).consumed {
        (v1, e1)
    } else {
        let (v2, e2) = apply_step(v1, b);
        (v2, e1 + e2)
    }
}

/// The splitter after taking in `bytes`, with all images completed meanwhile.
pub open spec fn run(v: SplitterView, bytes: Seq<u8>) -> (SplitterView, Seq<Seq<u8>>)
    decreases bytes.len(),
{
    if bytes.len() == 0 {
        (v, Seq::empty())
    } else {
        let (v1, out1) = run(v, bytes.drop_last());
        let (v2, out2) = absorb(v1, bytes.last());
        (v2, out1 + out2)
    }
}

/// Whether every byte of `bytes` can be taken in, in turn.
pub open spec fn run_ok(v: SplitterView, bytes: Seq<u8>) -> bool
    decreases bytes.len(),
{
    if bytes.len() == 0 {
        true
    } else {
        run_ok(v, bytes.drop_last()) && absorb_ok(run(v, bytes.drop_last()).0, bytes.last())
    }
}

/// Splits a JPEG byte stream into images.
pub struct JpegSplitter {
    pub state: SplitJpegState,
    pub frame: Vec<u8>,
}

impl JpegSplitter {
    pub open spec fn view(&self) -> SplitterView {
        SplitterView { state: self.state, frame: self.frame@ }
    }

    /// A splitter that waits for the first `0xFF`.
    pub fn new() -> (r: Self)
        ensures
            r.state == SplitJpegState::Marker1,
            r.frame@ == Seq::<u8>::empty(),
    {
        JpegSplitter { state: SplitJpegState::Marker1, frame: Vec::with_capacity(10000) }
    }

    fn look(&self, b: u8) -> (r: StepResult)
        requires
            step_ok(self.state, b),
        ensures
            r == step(self.state, b),
    {
        match self.state {
            SplitJpegState::Marker1 => if b == 0xFF {
                StepResult { state: SplitJpegState::Marker2, push: true, consumed: true, emit: false }
            } else {
                StepResult { state: SplitJpegState::Marker1, push: false, consumed: true, emit: false }
            },
            SplitJpegState::Marker2 => if b == 0xD8 {
                StepResult { state: SplitJpegState::Marker1, push: true, consumed: true, emit: false }
            } else if b == 0xD9 {
                StepResult { state: SplitJpegState::Marker1, push: true, consumed: true, emit: true }
            } else if 0xD0 <= b && b <= 0xD7 {
                StepResult { state: SplitJpegState::Marker1, push: true, consumed: true, emit: false }
            } else if b == 0xDA {
                StepResult { state: SplitJpegState::EntropyCoded, push: true, consumed: true, emit: false }
            } else {
                StepResult { state: SplitJpegState::Size1, push: true, consumed: true, emit: false }
            },
            SplitJpegState::Size1 =>
                StepResult { state: SplitJpegState::Size2(b), push: true, consumed: true, emit: false },
            SplitJpegState::Size2(first) => {
                let n: u16 = ((first as u16) * 256 + (b as u16)) - 2;
                StepResult { state: SplitJpegState::Payload(n), push: true, consumed: true, emit: false }
            },
            SplitJpegState::Payload(n) => if n == 0 {
                StepResult { state: SplitJpegState::Marker1, push: false, consumed: false, emit: false }
            } else {
                StepResult { state: SplitJpegState::Payload(n - 1), push: true, consumed: true, emit: false }
            },
            SplitJpegState::EntropyCoded => if b == 0xFF {
                StepResult { state: SplitJpegState::EcEscape, push: true, consumed: true, emit: false }
            } else {
                StepResult { state: SplitJpegState::EntropyCoded, push: true, consumed: true, emit: false }
            },
            SplitJpegState::EcEscape => if b == 0x00 {
                StepResult { state: SplitJpegState::EntropyCoded, push: true, consumed: true, emit: false }
            } else {
                StepResult { state: SplitJpegState::Marker2, push: false, consumed: false, emit: false }
            },
        }
    }

    fn apply(&mut self, b: u8) -> (r: (bool, Option<Vec<u8>>))
        requires
            step_ok(old(self).state, b),
        ensures
            r.0 == step(old(self).state, b).consumed,
            final(self)@ == apply_step(old(self)@, b).0,
            r.1 matches Some(f) ==> apply_step(old(self)@, b).1 == seq![f@],
            r.1 is None ==> apply_step(old(self)@, b).1 == Seq::<Seq<u8>>::empty(),
    {
        let r = self.look(b);
        if r.push {
            self.frame.push(b);
        }
        self.state = r.state;
        if r.emit {
            let mut done: Vec<u8> = Vec::with_capacity(10000);
            std::mem::swap(&mut done, &mut self.frame);
            (r.consumed, Some(done))
        } else {
            (r.consumed, None)
        }
    }

    /// Whether byte `b` can be taken in (a marker segment's size field below 2
    /// cannot).
    pub fn accepts(&self, b: u8) -> (r: bool)
        ensures
            r == absorb_ok(self@, b),
    {
        match self.state {
            SplitJpegState::Size2(first) => (first as u16) * 256 + (b as u16) >= 2,
            _ => true,
        }
    }

    /// Takes in one byte; returns the image that it completes, if any.
    pub fn push_byte(&mut self, b: u8) -> (r: Option<Vec<u8>>)
        requires
            absorb_ok(old(self)@, b),
        ensures
            final(self)@ == absorb(old(self)@, b).0,
            r matches Some(f) ==> absorb(old(self)@, b).1 == seq![f@],
            r is None ==> absorb(old(self)@, b).1 == Seq::<Seq<u8>>::empty(),
    {
        let (consumed, e1) = self.apply(b);
        if consumed {
            e1
        } else {
            let (_c2, e2) = self.apply(b);
            proof {
                assert(e1 is None);
            }
            e2
        }
    }

    /// Takes in a chunk of the stream; returns the images that it completes, in order.
    pub fn feed(&mut self, bytes: &[u8]) -> (r: Vec<Vec<u8>>)
        requires
            run_ok(old(self)@, bytes@),
        ensures
            final(self)@ == run(old(self)@, bytes@).0,
            r@.map_values(|f: Vec<u8>| f@) == run(old(self)@, bytes@).1,
    {
        let ghost start = self@;
        let mut out: Vec<Vec<u8>> = Vec::new();
        let mut i: usize = 0;
        while i < bytes.len()
            invariant
                i <= bytes.len(),
                run_ok(start, bytes@),
                self@ == run(start, bytes@.take(i as int)).0,
                out@.map_values(|f: Vec<u8>| f@) == run(start, bytes@.take(i as int)).1,
            decreases bytes.len() - i,
        {
            let ghost prefix = bytes@.take(i + 1);
            proof {
                assert(prefix.drop_last() == bytes@.take(i as int));
                assert(prefix.last() == bytes@[i as int]);
                lemma_run_ok_prefix(start, bytes@, i + 1);
            }
            let ghost before = out@;
            match self.push_byte(bytes[i]) {
                Some(f) => {
                    out.push(f);
                    proof {
                        assert(out@.map_values(|f: Vec<u8>| f@) =~= before.map_values(|f: Vec<u8>| f@).push(f@));
                    }
                },
                None => {},
            }
            proof {
                assert(out@.map_values(|f: Vec<u8>| f@) =~= run(start, prefix).1);
            }
            i = i + 1;
        }
        proof {
            assert(bytes@.take(bytes.len() as int) == bytes@);
        }
        out
    }
}

/// `run_ok` holds of every prefix of an accepted stream.
proof fn lemma_run_ok_prefix(v: SplitterView, bytes: Seq<u8>, n: int)
    requires
        run_ok(v, bytes),
        0 <= n <= bytes.len(),
    ensures
        run_ok(v, bytes.take(n)),
        n > 0 ==> absorb_ok(run(v, bytes.take(n - 1)).0, bytes[n - 1]),
    decreases bytes.len(),
{
    if n == bytes.len() {
        assert(bytes.take(n) == bytes);
        if n > 0 {
            assert(bytes.drop_last() == bytes.take(n - 1));
        }
    } else {
        lemma_run_ok_prefix(v, bytes.drop_last(), n);
        assert(bytes.drop_last().take(n) == bytes.take(n));
        if n > 0 {
            assert(bytes.drop_last().take(n - 1) == bytes.take(n - 1));
        }
    }
}

/// Splitting does not depend on how the stream is cut into chunks: taking in
/// `a` and then `b` ends in the same splitter, and completes the same images in
/// the same order, as taking in `a + b` at once; and `a + b` can be taken in
/// exactly when `a` can and then `b` can.
pub proof fn lemma_chunking_irrelevant(v: SplitterView, a: Seq<u8>, b: Seq<u8>)
    ensures
        run(v, a + b).0 == run(run(v, a).0, b).0,
        run(v, a + b).1 == run(v, a).1 + run(run(v, a).0, b).1,
        run_ok(v, a + b) == (run_ok(v, a) && run_ok(run(v, a).0, b)),
    decreases b.len(),
{
    if b.len() == 0 {
        assert(a + b == a);
        assert(run(v, a).1 + Seq::<Seq<u8>>::empty() == run(v, a).1);
    } else {
        let ab = a + b;
        assert(ab.drop_last() == a + b.drop_last());
        assert(ab.last() == b.last());
        lemma_chunking_irrelevant(v, a, b.drop_last());
        let mid = run(v, a).0;
        let (w, out_w) = run(mid, b.drop_last());
        let (x, out_x) = absorb(w, b.last());
        assert(run(v, a).1 + out_w + out_x == run(v, a).1 + (out_w + out_x));
    }
}

/// What the splitter keeps true between bytes: right after a `0xFF` that
/// may start a marker (in `Marker2` and `EcEscape`) the gathered image ends
/// with that `0xFF`.
pub open spec fn splitter_inv(v: SplitterView) -> bool {
    (v.state == SplitJpegState::Marker2 || v.state == SplitJpegState::EcEscape)
        ==> (v.frame.len() > 0 && v.frame.last() == 0xFF)
}

/// Whether an image ends with the end-of-image marker `FF D9`.
pub open spec fn ends_with_eoi(f: Seq<u8>) -> bool {
    f.len() >= 2 && f[f.len() - 2] == 0xFF && f[f.len() - 1] == 0xD9
}

proof fn lemma_apply_step_inv(v: SplitterView, b: u8)
    requires
        splitter_inv(v),
    ensures
        splitter_inv(apply_step(v, b).0),
        forall|i: int| 0 <= i < apply_step(v, b).1.len() ==> ends_with_eoi(#[trigger] apply_step(v, b).1[i]),
{
    let r = step(v.state, b);
    let frame = if r.push { v.frame.push(b) } else { v.frame };
    if r.emit {
        assert(frame.len() >= 2);
        assert(frame[frame.len() - 2] == 0xFF);
    }
}

/// A fresh splitter, waiting for the first `0xFF` with nothing gathered,
/// keeps the invariant.
pub proof fn lemma_initial_inv()
    ensures
        splitter_inv(SplitterView { state: SplitJpegState::Marker1, frame: Seq::empty() }),
{
}

/// Every image that the splitter hands out ends with the end-of-image marker
/// `FF D9`, and the splitter keeps its invariant, whatever bytes it takes in.
pub proof fn lemma_images_end_with_eoi(v: SplitterView, bytes: Seq<u8>)
    requires
        splitter_inv(v),
    ensures
        splitter_inv(run(v, bytes).0),
        forall|i: int| 0 <= i < run(v, bytes).1.len() ==> ends_with_eoi(#[trigger] run(v, bytes).1[i]),
    decreases bytes.len(),
{
    if bytes.len() > 0 {
        lemma_images_end_with_eoi(v, bytes.drop_last());
        let (w, out_w) = run(v, bytes.drop_last());
        let b = bytes.last();
        lemma_apply_step_inv(w, b);
        let (w1, e1) = apply_step(w, b);
        if !step(w.state, b).consumed {
            lemma_apply_step_inv(w1, b);
        }
        let (x, out_x) = absorb(w, b);
        assert forall|i: int| 0 <= i < out_x.len() implies ends_with_eoi(#[trigger] out_x[i]) by {
            if !step(w.state, b).consumed {
                let (w2, e2) = apply_step(w1, b);
                if i < e1.len() {
                    assert(out_x[i] == e1[i]);
                } else {
                    assert(out_x[i] == e2[i - e1.len()]);
                }
            }
        }
        assert forall|i: int| 0 <= i < (out_w + out_x).len() implies ends_with_eoi(#[trigger] (out_w + out_x)[i]) by {
            if i < out_w.len() {
                assert((out_w + out_x)[i] == out_w[i]);
            } else {
                assert((out_w + out_x)[i] == out_x[i - out_w.len()]);
            }
        }
    }
}

/// A marker that a segment with a size field starts with: not start or end
/// of image, not a restart marker, not start of scan.
pub open spec fn sized_marker(m: u8) -> bool {
    m != 0xD8 && m != 0xD9 && !is_restart(m) && m != 0xDA
}

/// A marker segment: `FF`, the marker, the 16-bit big-endian size (which
/// counts the payload and its own two bytes), then the payload.
pub open spec fn marker_segment(m: u8, payload: Seq<u8>) -> Seq<u8> {
    seq![0xFFu8, m, ((payload.len() + 2) / 256) as u8, ((payload.len() + 2) % 256) as u8] + payload
}

/// The bytes of a list of marker segments, one after another.
pub open spec fn segments_bytes(segs: Seq<(u8, Seq<u8>)>) -> Seq<u8>
    decreases segs.len(),
{
    if segs.len() == 0 {
        Seq::empty()
    } else {
        segments_bytes(segs.drop_last()) + marker_segment(segs.last().0, segs.last().1)
    }
}

/// Every segment has a sized marker and a payload that its size field can count.
pub open spec fn segments_ok(segs: Seq<(u8, Seq<u8>)>) -> bool {
    forall|i: int| 0 <= i < segs.len() ==> sized_marker((#[trigger] segs[i]).0) && segs[i].1.len() + 2 <= 0xFFFF
}

/// A JPEG image made of marker segments: start of image, the segments, end of image.
pub open spec fn segmented_image(segs: Seq<(u8, Seq<u8>)>) -> Seq<u8> {
    seq![0xFFu8, 0xD8u8] + segments_bytes(segs) + seq![0xFFu8, 0xD9u8]
}

/// A splitter that waits for the first `0xFF` with nothing gathered.
pub open spec fn fresh_splitter() -> SplitterView {
    SplitterView { state: SplitJpegState::Marker1, frame: Seq::empty() }
}

/// Between two marker segments: waiting for the next `0xFF`, either plainly
/// or at the end of a payload.
pub open spec fn between_segments(v: SplitterView) -> bool {
    v.state == SplitJpegState::Marker1 || v.state == SplitJpegState::Payload(0)
}

proof fn lemma_run_one(v: SplitterView, b: u8)
    ensures
        run(v, seq![b]) == absorb(v, b),
        run_ok(v, seq![b]) == absorb_ok(v, b),
{
    let s = seq![b];
    let z = Seq::<u8>::empty();
    assert(s.drop_last() =~= z);
    assert(s.last() == b);
    assert(run(v, z) == (v, Seq::<Seq<u8>>::empty()));
    assert(run_ok(v, z));
    let (v2, o2) = absorb(v, b);
    assert(Seq::<Seq<u8>>::empty() + o2 =~= o2);
    assert(run(v, s) == (v2, Seq::<Seq<u8>>::empty() + o2));
}

/// Running `a` then a byte `b`, when `a` completes no image.
proof fn lemma_run_then(v: SplitterView, a: Seq<u8>, b: u8)
    ensures
        run(v, a.push(b)) == (absorb(run(v, a).0, b).0, run(v, a).1 + absorb(run(v, a).0, b).1),
        run_ok(v, a.push(b)) == (run_ok(v, a) && absorb_ok(run(v, a).0, b)),
{
    assert(a.push(b).drop_last() =~= a);
    assert(a.push(b).last() == b);
}

/// A payload of `p` bytes, taken in with `k >= p.len()` bytes left to count,
/// is gathered as it is and leaves `k - p.len()` to count.
proof fn lemma_run_payload(f: Seq<u8>, k: u16, p: Seq<u8>)
    requires
        p.len() <= k,
    ensures
        run_ok(SplitterView { state: SplitJpegState::Payload(k), frame: f }, p),
        run(SplitterView { state: SplitJpegState::Payload(k), frame: f }, p)
            == (SplitterView { state: SplitJpegState::Payload((k - p.len()) as u16), frame: f + p }, Seq::<Seq<u8>>::empty()),
    decreases p.len(),
{
    let v = SplitterView { state: SplitJpegState::Payload(k), frame: f };
    if p.len() == 0 {
        assert(f + p =~= f);
    } else {
        let q = p.drop_last();
        lemma_run_payload(f, k, q);
        lemma_run_then(v, q, p.last());
        assert(q.push(p.last()) =~= p);
        assert((f + q).push(p.last()) =~= f + p);
        assert(Seq::<Seq<u8>>::empty() + Seq::<Seq<u8>>::empty() =~= Seq::<Seq<u8>>::empty());
    }
}

/// A marker segment, taken in between segments, is gathered as it is, in
/// full (its payload counted off by its 16-bit size), and completes no image.
proof fn lemma_run_segment(v: SplitterView, m: u8, p: Seq<u8>)
    requires
        between_segments(v),
        sized_marker(m),
        p.len() + 2 <= 0xFFFF,
    ensures
        run_ok(v, marker_segment(m, p)),
        run(v, marker_segment(m, p))
            == (SplitterView { state: SplitJpegState::Payload(0), frame: v.frame + marker_segment(m, p) }, Seq::<Seq<u8>>::empty()),
{
    let n = p.len() + 2;
    let hi = (n / 256) as u8;
    let lo = (n % 256) as u8;
    assert(hi as int == n / 256 && lo as int == n % 256);
    assert(hi * 256 + lo == n);
    let h1 = seq![0xFFu8];
    let h2 = h1.push(m);
    let h3 = h2.push(hi);
    let h4 = h3.push(lo);
    lemma_run_one(v, 0xFFu8);
    let v1 = SplitterView { state: SplitJpegState::Marker2, frame: v.frame.push(0xFFu8) };
    assert(run(v, h1) == (v1, Seq::<Seq<u8>>::empty())) by {
        if v.state == SplitJpegState::Payload(0) {
            assert(Seq::<Seq<u8>>::empty() + Seq::<Seq<u8>>::empty() =~= Seq::<Seq<u8>>::empty());
        }
    }
    lemma_run_then(v, h1, m);
    let v2 = SplitterView { state: SplitJpegState::Size1, frame: v1.frame.push(m) };
    assert(Seq::<Seq<u8>>::empty() + Seq::<Seq<u8>>::empty() =~= Seq::<Seq<u8>>::empty());
    assert(run(v, h2) == (v2, Seq::<Seq<u8>>::empty()));
    lemma_run_then(v, h2, hi);
    let v3 = SplitterView { state: SplitJpegState::Size2(hi), frame: v2.frame.push(hi) };
    assert(run(v, h3) == (v3, Seq::<Seq<u8>>::empty()));
    lemma_run_then(v, h3, lo);
    assert(payload_len(hi, lo) == p.len());
    let v4 = SplitterView { state: SplitJpegState::Payload(p.len() as u16), frame: v3.frame.push(lo) };
    assert(run(v, h4) == (v4, Seq::<Seq<u8>>::empty()));
    assert(run_ok(v, h4));
    lemma_run_payload(v4.frame, p.len() as u16, p);
    lemma_chunking_irrelevant(v, h4, p);
    assert(h4 + p =~= marker_segment(m, p));
    assert(v4.frame + p =~= v.frame + marker_segment(m, p));
}

/// A list of marker segments, taken in between segments, is gathered as it
/// is and completes no image.
proof fn lemma_run_segments(v: SplitterView, segs: Seq<(u8, Seq<u8>)>)
    requires
        between_segments(v),
        segments_ok(segs),
    ensures
        run_ok(v, segments_bytes(segs)),
        between_segments(run(v, segments_bytes(segs)).0),
        run(v, segments_bytes(segs)).0.frame == v.frame + segments_bytes(segs),
        run(v, segments_bytes(segs)).1 == Seq::<Seq<u8>>::empty(),
    decreases segs.len(),
{
    if segs.len() == 0 {
        assert(v.frame + Seq::<u8>::empty() =~= v.frame);
    } else {
        let rest = segs.drop_last();
        assert forall|i: int| 0 <= i < rest.len() implies
            sized_marker((#[trigger] rest[i]).0) && rest[i].1.len() + 2 <= 0xFFFF by {
            assert(rest[i] == segs[i]);
        }
        lemma_run_segments(v, rest);
        let w = run(v, segments_bytes(rest)).0;
        let last = segs.last();
        assert(segs[segs.len() - 1] == last);
        lemma_run_segment(w, last.0, last.1);
        lemma_chunking_irrelevant(v, segments_bytes(rest), marker_segment(last.0, last.1));
        assert(v.frame + segments_bytes(rest) + marker_segment(last.0, last.1) =~= v.frame + segments_bytes(segs));
        assert(Seq::<Seq<u8>>::empty() + Seq::<Seq<u8>>::empty() =~= Seq::<Seq<u8>>::empty());
    }
}

/// A JPEG image made of marker segments, of any sizes, fed to a fresh
/// splitter comes out as exactly one image, byte for byte, and leaves the
/// splitter fresh again: every segment's payload is counted off by the full
/// 16-bit size in its header.
pub proof fn law_segmented_image_comes_out_whole(segs: Seq<(u8, Seq<u8>)>)
    requires
        segments_ok(segs),
    ensures
        run_ok(fresh_splitter(), segmented_image(segs)),
        run(fresh_splitter(), segmented_image(segs)) == (fresh_splitter(), seq![segmented_image(segs)]),
{
    let v0 = fresh_splitter();
    let e = Seq::<Seq<u8>>::empty();
    let soi = seq![0xFFu8].push(0xD8u8);
    lemma_run_one(v0, 0xFFu8);
    lemma_run_then(v0, seq![0xFFu8], 0xD8u8);
    let v1 = SplitterView { state: SplitJpegState::Marker1, frame: soi };
    assert(e + e =~= e);
    assert(run(v0, soi) == (v1, e));
    let body = segments_bytes(segs);
    lemma_run_segments(v1, segs);
    lemma_chunking_irrelevant(v0, soi, body);
    let w = run(v1, body).0;
    let img = segmented_image(segs);
    lemma_run_one(w, 0xFFu8);
    let w1 = SplitterView { state: SplitJpegState::Marker2, frame: w.frame.push(0xFFu8) };
    assert(run(w, seq![0xFFu8]) == (w1, e)) by {
        if w.state == SplitJpegState::Payload(0) {
            assert(e + e =~= e);
        }
    }
    lemma_run_then(w, seq![0xFFu8], 0xD9u8);
    let eoi = seq![0xFFu8].push(0xD9u8);
    assert(w1.frame.push(0xD9u8) =~= img) by {
        assert(soi =~= seq![0xFFu8, 0xD8u8]);
        assert(eoi =~= seq![0xFFu8, 0xD9u8]);
    }
    assert(run(w, eoi) == (v0, seq![img])) by {
        assert(e + seq![img] =~= seq![img]);
    }
    lemma_chunking_irrelevant(v0, soi + body, eoi);
    assert(soi + body + eoi =~= img);
    assert(e + e + seq![img] =~= seq![img]);
}

} // verus!
