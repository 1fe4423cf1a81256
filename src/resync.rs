//! The receive window: bytes come in at the back, whole frames leave at the
//! front, and a byte that cannot start a frame is dropped.
use vstd::prelude::*;

use crate::frame::{check_frame, frame_check, is_whole_frame, FrameError, MIN_FRAME_LEN};
use crate::protocol::SOF;

verus! {

/// Bytes the receive window can hold.
pub const RX_CAPACITY: usize = 128;

/// Once the window ends past this index, pending bytes are moved to the front.
pub const COMPACT_HIGH_WATER: usize = 100;

/// Scanning a window: the frames taken from its front, in order, and the
/// bytes left when no further frame can be judged yet.
///
/// A valid frame is taken whole; a header or checksum failure drops one
/// byte; an incomplete frame, or fewer than four bytes, stops the scan.
pub open spec fn scan(w: Seq<u8>) -> (Seq<Seq<u8>>, Seq<u8>)
    decreases w.len(),
{
    if w.len() < MIN_FRAME_LEN {
        (seq![], w)
    } else {
        match frame_check(w) {
            FrameError::Valid(n) => {
                let r = scan(w.subrange(n as int, w.len() as int));
                (seq![w.subrange(0, n as int)] + r.0, r.1)
            },
            FrameError::Incomplete => (seq![], w),
            _ => scan(w.subrange(1, w.len() as int)),
        }
    }
}

/// The byte sequences held by a list of frames.
pub open spec fn frames_view(v: Seq<Vec<u8>>) -> Seq<Seq<u8>> {
    v.map_values(|f: Vec<u8>| f@)
}

/// A fixed-capacity receive buffer; the pending bytes are `buf[start..end]`.
pub struct RxBuffer {
    buf: Vec<u8>,
    start: usize,
    end: usize,
}

/// A copy of the bytes of `s`.
fn copy_bytes(s: &[u8]) -> (v: Vec<u8>)
    ensures
        v@ == s@,
{
    let mut v: Vec<u8> = Vec::new();
    let mut i: usize = 0;
    while i < s.len()
        invariant
            i <= s@.len(),
            v@ == s@.subrange(0, i as int),
        decreases s@.len() - i,
    {
        v.push(s[i]);
        i = i + 1;
        assert(v@ =~= s@.subrange(0, i as int));
    }
    assert(s@.subrange(0, s@.len() as int) =~= s@);
    v
}

impl RxBuffer {
    pub closed spec fn wf(&self) -> bool {
        &&& self.buf@.len() == RX_CAPACITY
        &&& self.start <= self.end <= RX_CAPACITY
    }

    /// The bytes received and not yet consumed.
    pub closed spec fn window(&self) -> Seq<u8> {
        self.buf@.subrange(self.start as int, self.end as int)
    }

    /// Where the pending bytes begin in the buffer.
    pub closed spec fn start_index(&self) -> nat {
        self.start as nat
    }

    /// Where the next received byte goes in the buffer.
    pub closed spec fn end_index(&self) -> nat {
        self.end as nat
    }

    /// An empty receive buffer.
    pub fn new() -> (r: RxBuffer)
        ensures
            r.wf(),
            r.window() == Seq::<u8>::empty(),
            r.start_index() == 0,
            r.end_index() == 0,
    {
        let mut buf: Vec<u8> = Vec::new();
        let mut i: usize = 0;
        while i < RX_CAPACITY
            invariant
                i <= RX_CAPACITY,
                buf@.len() == i,
            decreases RX_CAPACITY - i,
        {
            buf.push(0);
            i = i + 1;
        }
        let r = RxBuffer { buf, start: 0, end: 0 };
        assert(r.window() =~= Seq::<u8>::empty());
        r
    }

    /// How many bytes the next `push` takes at most.
    pub fn free_space(&self) -> (n: usize)
        requires
            self.wf(),
        ensures
            n == if self.end_index() >= RX_CAPACITY {
                RX_CAPACITY as nat
            } else {
                (RX_CAPACITY - self.end_index()) as nat
            },
    {
        if self.end >= RX_CAPACITY {
            RX_CAPACITY
        } else {
            RX_CAPACITY - self.end
        }
    }

    /// Appends newly received bytes, as many as fit, and returns how many
    /// were taken.
    ///
    /// A buffer filled to capacity holds garbage that never formed a frame:
    /// it is emptied first.
    pub fn push(&mut self, bytes: &[u8]) -> (taken: usize)
        requires
            old(self).wf(),
        ensures
            final(self).wf(),
            ({
                let full = old(self).end_index() >= RX_CAPACITY;
                let base = if full {
                    Seq::<u8>::empty()
                } else {
                    old(self).window()
                };
                let base_end: nat = if full {
                    0
                } else {
                    old(self).end_index()
                };
                &&& taken == if bytes@.len() <= RX_CAPACITY - base_end {
                    bytes@.len()
                } else {
                    (RX_CAPACITY - base_end) as nat
                }
                &&& final(self).window() == base + bytes@.subrange(0, taken as int)
                &&& final(self).end_index() == base_end + taken
                &&& final(self).start_index() == if full {
                    0
                } else {
                    old(self).start_index()
                }
            }),
    {
        if self.end >= RX_CAPACITY {
            self.start = 0;
            self.end = 0;
        }
        let ghost base = self.window();
        let ghost s0 = self.start;
        let ghost e0 = self.end;
        assert(old(self).end >= RX_CAPACITY ==> base =~= Seq::<u8>::empty());
        let room = RX_CAPACITY - self.end;
        let taken = if bytes.len() <= room {
            bytes.len()
        } else {
            room
        };
        let mut i: usize = 0;
        while i < taken
            invariant
                self.buf@.len() == RX_CAPACITY,
                self.start == s0,
                self.end == e0,
                self.start <= self.end,
                self.end + taken <= RX_CAPACITY,
                taken <= bytes@.len(),
                i <= taken,
                self.buf@.subrange(self.start as int, (self.end + i) as int) == base
                    + bytes@.subrange(0, i as int),
                base == self.buf@.subrange(self.start as int, self.end as int),
            decreases taken - i,
        {
            let ghost before = self.buf@;
            self.buf.set(self.end + i, bytes[i]);
            assert(self.buf@.subrange(self.start as int, self.end as int) =~= before.subrange(
                self.start as int,
                self.end as int,
            ));
            assert(self.buf@.subrange(self.start as int, (self.end + i + 1) as int) =~= before.subrange(
                self.start as int,
                (self.end + i) as int,
            ).push(bytes@[i as int]));
            assert(bytes@.subrange(0, i + 1) =~= bytes@.subrange(0, i as int).push(bytes@[i as int]));
            i = i + 1;
        }
        self.end = self.end + taken;
        assert(self.window() =~= base + bytes@.subrange(0, taken as int));
        taken
    }

    /// Moves the pending bytes to the front of the buffer.
    fn compact(&mut self)
        requires
            old(self).wf(),
        ensures
            final(self).wf(),
            final(self).window() == old(self).window(),
            final(self).start_index() == 0,
            final(self).end_index() == old(self).end_index() - old(self).start_index(),
    {
        let len = self.end - self.start;
        let ghost orig = self.buf@;
        let mut i: usize = 0;
        while i < len
            invariant
                self.wf(),
                self.start == old(self).start,
                self.end == old(self).end,
                orig == old(self).buf@,
                len == self.end - self.start,
                orig.len() == RX_CAPACITY,
                self.start as int + len <= orig.len(),
                i <= len,
                forall|j: int| 0 <= j < i ==> #[trigger] self.buf@[j] == orig[self.start + j],
                forall|j: int| i <= j < RX_CAPACITY ==> #[trigger] self.buf@[j] == orig[j],
            decreases len - i,
        {
            let b = self.buf[self.start + i];
            self.buf.set(i, b);
            i = i + 1;
        }
        assert(self.buf@.subrange(0, len as int) =~= orig.subrange(
            self.start as int,
            self.end as int,
        ));
        self.start = 0;
        self.end = len;
        assert(self.window() =~= old(self).window());
    }

    /// Takes every whole frame that can be judged from the front of the
    /// window, dropping one byte at each header or checksum failure, and
    /// returns the frames in order.
    ///
    /// Afterwards the pending bytes move to the front of the buffer when
    /// some were consumed and either none are left or the window ends past
    /// `COMPACT_HIGH_WATER`.
    pub fn drain(&mut self) -> (frames: Vec<Vec<u8>>)
        requires
            old(self).wf(),
        ensures
            final(self).wf(),
            frames_view(frames@) == scan(old(self).window()).0,
            final(self).window() == scan(old(self).window()).1,
            ({
                let rest = scan(old(self).window()).1;
                let consumed_to = old(self).end_index() - rest.len();
                if consumed_to > 0 && (rest.len() == 0 || old(self).end_index()
                    > COMPACT_HIGH_WATER) {
                    final(self).start_index() == 0 && final(self).end_index() == rest.len()
                } else {
                    final(self).start_index() == consumed_to && final(self).end_index()
                        == old(self).end_index()
                }
            }),
    {
        let ghost w0 = self.window();
        let mut frames: Vec<Vec<u8>> = Vec::new();
        let mut stalled = false;
        while !stalled && self.end - self.start >= MIN_FRAME_LEN
            invariant
                self.wf(),
                self.end == old(self).end,
                self.buf@ == old(self).buf@,
                w0 == old(self).window(),
                frames_view(frames@) + scan(self.window()).0 == scan(w0).0,
                scan(self.window()).1 == scan(w0).1,
                stalled ==> scan(self.window()) == (Seq::<Seq<u8>>::empty(), self.window()),
            decreases self.end - self.start, if stalled {
                0int
            } else {
                1int
            },
        {
            let ghost w = self.window();
            let data = vstd::slice::slice_subrange(self.buf.as_slice(), self.start, self.end);
            match check_frame(data) {
                FrameError::Valid(len) => {
                    let frame = copy_bytes(vstd::slice::slice_subrange(data, 0, len));
                    proof {
                        assert(frames_view(frames@.push(frame)) =~= frames_view(frames@).push(
                            frame@,
                        ));
                        assert(w.subrange(len as int, w.len() as int) =~= self.buf@.subrange(
                            self.start + len,
                            self.end as int,
                        ));
                    }
                    frames.push(frame);
                    self.start = self.start + len;
                    assert(frames_view(frames@) + scan(self.window()).0 =~= scan(w0).0);
                },
                FrameError::Incomplete => {
                    stalled = true;
                },
                _ => {
                    assert(w.subrange(1, w.len() as int) =~= self.buf@.subrange(
                        self.start + 1,
                        self.end as int,
                    ));
                    self.start = self.start + 1;
                },
            }
        }
        assert(scan(self.window()).0 =~= Seq::<Seq<u8>>::empty());
        assert(frames_view(frames@) =~= scan(w0).0);
        if self.start > 0 {
            if self.start == self.end {
                self.start = 0;
                self.end = 0;
                assert(self.window() =~= Seq::<u8>::empty());
            } else if self.end > COMPACT_HIGH_WATER {
                self.compact();
            }
        }
        frames
    }
}

/// A window that starts with an intact frame scans as that frame followed by
/// the scan of the rest.
pub proof fn lemma_scan_whole_frame_first(a: Seq<u8>, rest: Seq<u8>)
    requires
        is_whole_frame(a),
    ensures
        scan(a + rest) == (seq![a] + scan(rest).0, scan(rest).1),
{
    let w = a + rest;
    assert(w.subrange(0, a[1] + 2) =~= a.subrange(0, a[1] + 2));
    assert(w.subrange(a.len() as int, w.len() as int) =~= rest);
    assert(w.subrange(0, a.len() as int) =~= a);
}

/// Two intact frames back to back come out of one scan as those two
/// frames, in order, with nothing left over.
pub proof fn lemma_two_frames_in_order(a: Seq<u8>, b: Seq<u8>)
    requires
        is_whole_frame(a),
        is_whole_frame(b),
    ensures
        scan(a + b) == (seq![a, b], Seq::<u8>::empty()),
{
    lemma_scan_whole_frame_first(a, b);
    lemma_scan_whole_frame_first(b, Seq::<u8>::empty());
    assert(b + Seq::<u8>::empty() =~= b);
    assert(scan(Seq::<u8>::empty()) == (Seq::<Seq<u8>>::empty(), Seq::<u8>::empty()));
    assert(seq![a] + (seq![b] + Seq::<Seq<u8>>::empty()) =~= seq![a, b]);
}

/// Garbage bytes before an intact frame are dropped one at a time, each by a
/// header or checksum failure, and then the frame is taken: a garbage byte
/// either is not the start marker or fails the checksum where it stands.
pub proof fn lemma_garbage_then_frame(g: Seq<u8>, f: Seq<u8>)
    requires
        is_whole_frame(f),
        forall|i: int|
            0 <= i < g.len() ==> g[i] != SOF || frame_check(
                #[trigger] (g + f).subrange(i, (g + f).len() as int),
            ) == FrameError::CrcError,
    ensures
        forall|i: int|
            0 <= i < g.len() ==> {
                let c = frame_check(#[trigger] (g + f).subrange(i, (g + f).len() as int));
                c == FrameError::HeaderError || c == FrameError::CrcError
            },
        scan(g + f) == (seq![f], Seq::<u8>::empty()),
    decreases g.len(),
{
    let w = g + f;
    if g.len() == 0 {
        assert(w =~= f);
        lemma_scan_whole_frame_first(f, Seq::<u8>::empty());
        assert(f + Seq::<u8>::empty() =~= f);
        assert(scan(Seq::<u8>::empty()) == (Seq::<Seq<u8>>::empty(), Seq::<u8>::empty()));
        assert(seq![f] + Seq::<Seq<u8>>::empty() =~= seq![f]);
    } else {
        let g1 = g.subrange(1, g.len() as int);
        assert(w.subrange(1, w.len() as int) =~= g1 + f);
        assert(w.subrange(0, w.len() as int) =~= w);
        assert forall|i: int| 0 <= i < g1.len() implies g1[i] != SOF || frame_check(
            #[trigger] (g1 + f).subrange(i, (g1 + f).len() as int),
        ) == FrameError::CrcError by {
            assert((g1 + f).subrange(i, (g1 + f).len() as int) =~= w.subrange(
                i + 1,
                w.len() as int,
            ));
        }
        lemma_garbage_then_frame(g1, f);
        assert forall|i: int| 0 <= i < g.len() implies {
            let c = frame_check(#[trigger] (g + f).subrange(i, (g + f).len() as int));
            c == FrameError::HeaderError || c == FrameError::CrcError
        } by {
            if i > 0 {
                assert((g1 + f).subrange(i - 1, (g1 + f).len() as int) =~= w.subrange(
                    i,
                    w.len() as int,
                ));
            }
        }
    }
}

} // verus!
