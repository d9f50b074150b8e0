//! Frames and the fixed-capacity ring buffer of the most recent ones.

use std::collections::VecDeque;
use std::sync::Arc;
use vstd::prelude::*;

verus! {

/// One camera frame: single-channel 8-bit pixels plus acquisition counters.
/// A frame is never changed after it is made; holders share it through `Arc`.
pub struct Frame {
    pub data: Vec<u8>,
    pub width: u32,
    pub height: u32,
    pub nframe: u32,
    pub acq_nframe: u32,
    pub timestamp_raw: u64,
    pub exposure_time: u32,
}

impl Frame {
    pub fn new(
        data: Vec<u8>,
        width: u32,
        height: u32,
        nframe: u32,
        acq_nframe: u32,
        timestamp_raw: u64,
        exposure_time: u32,
    ) -> (r: Frame)
        ensures
            r.data@ == data@,
            r.width == width,
            r.height == height,
            r.nframe == nframe,
            r.acq_nframe == acq_nframe,
            r.timestamp_raw == timestamp_raw,
            r.exposure_time == exposure_time,
    {
        Frame { data, width, height, nframe, acq_nframe, timestamp_raw, exposure_time }
    }
}

/// The last `cap` elements of `s`, or all of `s` when it is shorter.
pub open spec fn keep_last<T>(s: Seq<T>, cap: nat) -> Seq<T> {
    if s.len() > cap {
        s.subrange(s.len() - cap, s.len() as int)
    } else {
        s
    }
}

/// What a buffer of capacity `cap` holds after `fs` is pushed, one frame
/// at a time, onto contents `s`.
pub open spec fn push_all<T>(s: Seq<T>, fs: Seq<T>, cap: nat) -> Seq<T>
    decreases fs.len(),
{
    if fs.len() == 0 {
        s
    } else {
        keep_last(push_all(s, fs.drop_last(), cap).push(fs.last()), cap)
    }
}

/// Trimming to the last `cap` elements before or after appending one more
/// element gives the same result.
pub proof fn lemma_keep_last_push<T>(s: Seq<T>, x: T, cap: nat)
    ensures
        keep_last(keep_last(s, cap).push(x), cap) == keep_last(s.push(x), cap),
{
    let t = keep_last(s, cap);
    assert(keep_last(t.push(x), cap) =~= keep_last(s.push(x), cap));
}

/// Whatever pushes are made, a buffer that starts within its capacity holds
/// the most recent `cap` frames of everything it was given, oldest first, and
/// so never more than `cap` frames.
pub proof fn lemma_pushes_keep_window<T>(s: Seq<T>, fs: Seq<T>, cap: nat)
    requires
        s.len() <= cap,
    ensures
        push_all(s, fs, cap) == keep_last(s + fs, cap),
        push_all(s, fs, cap).len() <= cap,
    decreases fs.len(),
{
    if fs.len() == 0 {
        assert(s + fs =~= s);
    } else {
        lemma_pushes_keep_window(s, fs.drop_last(), cap);
        lemma_keep_last_push(s + fs.drop_last(), fs.last(), cap);
        assert((s + fs.drop_last()).push(fs.last()) =~= s + fs);
    }
}

/// Relies on `Arc::clone`: the new handle points to the same frame.
#[verifier::external_body]
fn share(f: &Arc<Frame>) -> (r: Arc<Frame>)
    ensures
        r == *f,
{
    Arc::clone(f)
}

/// A fixed-capacity FIFO window over the most recent frames.
pub struct FrameBuffer {
    buffer: VecDeque<Arc<Frame>>,
    capacity: usize,
}

impl View for FrameBuffer {
    type V = Seq<Arc<Frame>>;

    closed spec fn view(&self) -> Seq<Arc<Frame>> {
        self.buffer@
    }
}

impl FrameBuffer {
    /// The most frames the buffer holds.
    pub closed spec fn spec_capacity(&self) -> nat {
        self.capacity as nat
    }

    /// The buffer never holds more than its capacity.
    pub closed spec fn wf(&self) -> bool {
        self.buffer@.len() <= self.capacity
    }

    pub fn new(capacity: usize) -> (r: FrameBuffer)
        ensures
            r.wf(),
            r@ == Seq::<Arc<Frame>>::empty(),
            r.spec_capacity() == capacity,
    {
        FrameBuffer { buffer: VecDeque::with_capacity(capacity), capacity }
    }

    /// Appends `frame`, evicting the oldest frame when the buffer is full.
    pub fn push(&mut self, frame: Arc<Frame>)
        requires
            old(self).wf(),
        ensures
            final(self).wf(),
            final(self)@ == keep_last(old(self)@.push(frame), old(self).spec_capacity()),
            final(self).spec_capacity() == old(self).spec_capacity(),
            final(self)@.len() <= final(self).spec_capacity(),
    {
        if self.capacity == 0 {
            assert(self.buffer@ =~= keep_last(self.buffer@.push(frame), 0));
            return;
        }
        let ghost before = self.buffer@;
        if self.buffer.len() == self.capacity {
            self.buffer.pop_front();
        }
        self.buffer.push_back(frame);
        assert(self.buffer@ =~= keep_last(before.push(frame), self.capacity as nat));
    }

    pub fn len(&self) -> (r: usize)
        ensures
            r == self@.len(),
    {
        self.buffer.len()
    }

    pub fn is_empty(&self) -> (r: bool)
        ensures
            r == (self@.len() == 0),
    {
        self.buffer.len() == 0
    }

    pub fn capacity(&self) -> (r: usize)
        ensures
            r == self.spec_capacity(),
    {
        self.capacity
    }

    /// Removes every frame; the capacity stays.
    pub fn clear(&mut self)
        requires
            old(self).wf(),
        ensures
            final(self).wf(),
            final(self)@ == Seq::<Arc<Frame>>::empty(),
            final(self).spec_capacity() == old(self).spec_capacity(),
    {
        self.buffer.clear();
    }

    /// The current contents, oldest first, sharing the frames; the buffer
    /// itself is left as it is.
    pub fn snapshot(&self) -> (r: Vec<Arc<Frame>>)
        ensures
            r@ == self@,
    {
        let mut out: Vec<Arc<Frame>> = Vec::with_capacity(self.buffer.len());
        let n = self.buffer.len();
        let mut i: usize = 0;
        while i < n
            invariant
                n == self.buffer@.len(),
                i <= n,
                out@ == self.buffer@.subrange(0, i as int),
            decreases n - i,
        {
            out.push(share(&self.buffer[i]));
            i = i + 1;
            assert(out@ =~= self.buffer@.subrange(0, i as int));
        }
        assert(self.buffer@.subrange(0, n as int) =~= self.buffer@);
        out
    }
}

/// Builds frames from the raw pixel bytes that the camera delivers.
pub struct FrameProcessor;

impl FrameProcessor {
    /// A shared frame holding `data`, provided `data` holds at least
    /// `width * height` bytes (one 8-bit channel per pixel).
    pub fn frame_from_raw(
        data: Vec<u8>,
        width: u32,
        height: u32,
        nframe: u32,
        acq_nframe: u32,
        timestamp_raw: u64,
        exposure_time: u32,
    ) -> (r: Option<Arc<Frame>>)
        ensures
            r is Some <==> width * height <= data@.len(),
            r matches Some(f) ==> ({
                &&& f.data@ == data@
                &&& f.width == width
                &&& f.height == height
                &&& f.nframe == nframe
                &&& f.acq_nframe == acq_nframe
                &&& f.timestamp_raw == timestamp_raw
                &&& f.exposure_time == exposure_time
            }),
    {
        assert(width as u64 * height as u64 <= u64::MAX) by (nonlinear_arith)
            requires width <= u32::MAX, height <= u32::MAX;
        let needed: u64 = width as u64 * height as u64;
        if needed > data.len() as u64 {
            return None;
        }
        Some(Arc::new(Frame::new(data, width, height, nframe, acq_nframe, timestamp_raw, exposure_time)))
    }
}

} // verus!
