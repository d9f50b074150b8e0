//! The capture controller: the state machine that merges the frame stream
//! with decoded trigger messages, keeps the ring buffer, and decides when a
//! window of frames is handed to the export worker.

use crate::frame::{keep_last, lemma_keep_last_push, Frame, FrameBuffer};
use crate::messages::{is_kill, kill_command, MessageType, MessageView, TriggerEvent};
use crate::text::{decimal, push_decimal};
use std::sync::Arc;
use vstd::prelude::*;
use vstd::string::StringExecFns;

verus! {

/// A window of frames to export, oldest first, and where it goes: the
/// clip's directory, `<save_folder>/obj_id_<id>_frame_<frame>`.
pub struct FramesPacket {
    pub images: Vec<Arc<Frame>>,
    pub save_path: String,
}

/// What the export worker is handed: a clip, or the sentinel that tells it
/// to stop once everything queued before it is done.
pub enum ExportJob {
    Clip(FramesPacket),
    Stop,
}

/// The mathematical content of an [`ExportJob`].
pub enum JobView {
    Clip(Seq<Arc<Frame>>, Seq<char>),
    Stop,
}

impl View for ExportJob {
    type V = JobView;

    open spec fn view(&self) -> JobView {
        match self {
            ExportJob::Clip(p) => JobView::Clip(p.images@, p.save_path@),
            ExportJob::Stop => JobView::Stop,
        }
    }
}

/// The mathematical content of an optional job.
pub open spec fn job_view(j: Option<ExportJob>) -> Option<JobView> {
    match j {
        Some(job) => Some(job@),
        None => None,
    }
}

/// Whether the controller is waiting for a trigger or counting down the
/// frames still to be taken after one.
#[derive(Clone, Copy, Debug, PartialEq, Eq, Structural)]
pub enum CaptureState {
    Idle,
    Recording { counter: usize, trigger: TriggerEvent },
}

/// The mathematical content of a [`CaptureController`].
pub struct CaptureView {
    /// The frames in the ring buffer, oldest first.
    pub frames: Seq<Arc<Frame>>,
    /// The ring buffer's capacity, `n_before + n_after`.
    pub capacity: nat,
    /// How many frames a trigger asks for after it.
    pub n_after: nat,
    /// While recording: the frames still to take, and the trigger that names
    /// the clip.
    pub recording: Option<(nat, TriggerEvent)>,
    /// The folder that clips are written under.
    pub folder: Seq<char>,
}

/// The directory of the clip named after `e`.
pub open spec fn clip_path(folder: Seq<char>, e: TriggerEvent) -> Seq<char> {
    folder + "/obj_id_"@ + decimal(e.obj_id as nat) + "_frame_"@ + decimal(e.frame as nat)
}

/// The states the controller can be in between two frames.
pub open spec fn view_wf(v: CaptureView) -> bool {
    &&& v.frames.len() <= v.capacity
    &&& v.n_after <= v.capacity
    &&& (v.recording matches Some((c, _)) ==> 1 <= c < v.n_after)
}

/// One iteration: the frame `f` is pushed, then the message `m` is applied,
/// then a recording counts down and, when the count reaches zero, the whole
/// buffer is exported under the name of the latest trigger.
pub open spec fn step_spec(v: CaptureView, f: Arc<Frame>, m: MessageView) -> (
    CaptureView,
    Option<JobView>,
) {
    let frames = keep_last(v.frames.push(f), v.capacity);
    let pushed = CaptureView { frames, ..v };
    if m matches MessageView::Text(t) && t == kill_command() {
        (pushed, Some(JobView::Stop))
    } else {
        let rec = match m {
            MessageView::Trigger(e) => Some((v.n_after, e)),
            _ => v.recording,
        };
        match rec {
            None => (pushed, None),
            Some((c, e)) => {
                let left: nat = if c > 0 { (c - 1) as nat } else { 0 };
                if left == 0 {
                    (
                        CaptureView { recording: None, ..pushed },
                        Some(JobView::Clip(frames, clip_path(v.folder, e))),
                    )
                } else {
                    (CaptureView { recording: Some((left, e)), ..pushed }, None)
                }
            },
        }
    }
}

/// The outcome of feeding the frames `fs`, each with the message of the same
/// position in `ms`, to a controller in state `v`: the final state and the
/// job (if any) of every iteration.
pub open spec fn run(v: CaptureView, fs: Seq<Arc<Frame>>, ms: Seq<MessageView>) -> (
    CaptureView,
    Seq<Option<JobView>>,
)
    decreases fs.len(),
{
    if fs.len() == 0 || ms.len() == 0 {
        (v, Seq::empty())
    } else {
        let (v1, jobs) = run(v, fs.drop_last(), ms.drop_last());
        let (v2, j) = step_spec(v1, fs.last(), ms.last());
        (v2, jobs.push(j))
    }
}

/// A trigger with the first frame and no message with the `n - 1` after it.
pub open spec fn trigger_then_quiet(e: TriggerEvent, n: nat) -> Seq<MessageView> {
    Seq::new(n, |i: int| if i == 0 { MessageView::Trigger(e) } else { MessageView::Empty })
}

/// Whether the sequence numbers of `s` count up by one from each frame to
/// the next.
pub open spec fn consecutive(s: Seq<Arc<Frame>>) -> bool {
    forall|i: int| 0 < i < s.len() ==> #[trigger] s[i].nframe == s[i - 1].nframe + 1
}

/// Whether the sequence numbers of `s` strictly increase.
pub open spec fn increasing(s: Seq<Arc<Frame>>) -> bool {
    forall|i: int, j: int| 0 <= i < j < s.len() ==> s[i].nframe < s[j].nframe
}

/// Whatever the messages, the buffer after a run holds the last `capacity`
/// frames of what it held and what was fed, and each clip of the run is the
/// last `capacity` frames up to and including the frame of its iteration.
pub proof fn lemma_run_frames(v: CaptureView, fs: Seq<Arc<Frame>>, ms: Seq<MessageView>)
    requires
        fs.len() == ms.len(),
        v.frames.len() <= v.capacity,
    ensures
        run(v, fs, ms).0.frames == keep_last(v.frames + fs, v.capacity),
        run(v, fs, ms).0.capacity == v.capacity,
        run(v, fs, ms).0.n_after == v.n_after,
        run(v, fs, ms).0.folder == v.folder,
        run(v, fs, ms).1.len() == fs.len(),
        forall|i: int|
            0 <= i < fs.len() ==> (#[trigger] run(v, fs, ms).1[i] matches Some(
                JobView::Clip(p, _),
            ) ==> p == keep_last(v.frames + fs.subrange(0, i + 1), v.capacity)),
    decreases fs.len(),
{
    if fs.len() == 0 {
        assert(v.frames + fs =~= v.frames);
    } else {
        let fs0 = fs.drop_last();
        let ms0 = ms.drop_last();
        lemma_run_frames(v, fs0, ms0);
        let (v1, jobs) = run(v, fs0, ms0);
        lemma_keep_last_push(v.frames + fs0, fs.last(), v.capacity);
        assert((v.frames + fs0).push(fs.last()) =~= v.frames + fs);
        assert(fs.subrange(0, fs.len() as int) =~= fs);
        assert forall|i: int| 0 <= i < fs.len() implies (#[trigger] run(v, fs, ms).1[i] matches Some(
            JobView::Clip(p, _),
        ) ==> p == keep_last(v.frames + fs.subrange(0, i + 1), v.capacity)) by {
            if i < fs.len() - 1 {
                assert(fs0.subrange(0, i + 1) =~= fs.subrange(0, i + 1));
                assert(run(v, fs, ms).1[i] == jobs[i]);
            }
        }
    }
}

proof fn lemma_increasing_subrange(s: Seq<Arc<Frame>>, a: int, b: int)
    requires
        increasing(s),
        0 <= a <= b <= s.len(),
    ensures
        increasing(s.subrange(a, b)),
{
    assert forall|i: int, j: int| 0 <= i < j < s.subrange(a, b).len() implies s.subrange(a, b)[i].nframe
        < s.subrange(a, b)[j].nframe by {
        assert(s.subrange(a, b)[i] == s[a + i]);
        assert(s.subrange(a, b)[j] == s[a + j]);
    }
}

/// When frames arrive with strictly increasing sequence numbers, the buffer
/// and every exported packet list their frames with strictly increasing
/// sequence numbers: no reordering and no duplicates.
pub proof fn lemma_packets_in_order(v: CaptureView, fs: Seq<Arc<Frame>>, ms: Seq<MessageView>)
    requires
        fs.len() == ms.len(),
        v.frames.len() <= v.capacity,
        increasing(v.frames + fs),
    ensures
        increasing(run(v, fs, ms).0.frames),
        forall|i: int|
            0 <= i < fs.len() ==> (#[trigger] run(v, fs, ms).1[i] matches Some(
                JobView::Clip(p, _),
            ) ==> increasing(p)),
{
    lemma_run_frames(v, fs, ms);
    let all = v.frames + fs;
    lemma_increasing_subrange(all, 0, all.len() as int);
    assert(all.subrange(0, all.len() as int) =~= all);
    if all.len() > v.capacity {
        lemma_increasing_subrange(all, all.len() - v.capacity, all.len() as int);
    }
    assert forall|i: int| 0 <= i < fs.len() implies (#[trigger] run(v, fs, ms).1[i] matches Some(
        JobView::Clip(p, _),
    ) ==> increasing(p)) by {
        let pre = v.frames + fs.subrange(0, i + 1);
        let n = v.frames.len() + i + 1;
        assert(pre =~= all.subrange(0, n));
        lemma_increasing_subrange(all, 0, n);
        if pre.len() > v.capacity {
            lemma_increasing_subrange(pre, pre.len() - v.capacity, pre.len() as int);
        }
    }
}

proof fn lemma_recording_prefix(v: CaptureView, e: TriggerEvent, fs: Seq<Arc<Frame>>, k: int)
    requires
        view_wf(v),
        v.n_after >= 1,
        fs.len() == v.n_after,
        0 <= k < v.n_after,
    ensures
        ({
            let ms = trigger_then_quiet(e, v.n_after);
            let (w, jobs) = run(v, fs.subrange(0, k + 1), ms.subrange(0, k + 1));
            &&& w.folder == v.folder
            &&& k + 1 < v.n_after ==> w.recording == Some(((v.n_after - 1 - k) as nat, e))
            &&& jobs.len() == k + 1
            &&& forall|i: int| 0 <= i <= k && i < v.n_after - 1 ==> #[trigger] jobs[i] is None
            &&& k + 1 == v.n_after ==> (jobs[k] matches Some(JobView::Clip(_, path)) && path
                == clip_path(v.folder, e))
        }),
    decreases k,
{
    let ms = trigger_then_quiet(e, v.n_after);
    let fk = fs.subrange(0, k + 1);
    let mk = ms.subrange(0, k + 1);
    lemma_run_frames(v, fk, mk);
    assert(fk.drop_last() =~= fs.subrange(0, k));
    assert(mk.drop_last() =~= ms.subrange(0, k));
    assert(mk.last() == ms[k]);
    if k == 0 {
        assert(fs.subrange(0, 0).len() == 0);
        assert(ms[0] == MessageView::Trigger(e));
    } else {
        lemma_recording_prefix(v, e, fs, k - 1);
        assert(ms[k] == MessageView::Empty);
        let (w0, jobs0) = run(v, fs.subrange(0, k), ms.subrange(0, k));
        let (w, jobs) = run(v, fk, mk);
        assert(jobs == jobs0.push(step_spec(w0, fk.last(), mk.last()).1));
        assert forall|i: int| 0 <= i <= k && i < v.n_after - 1 implies #[trigger] jobs[i] is None by {
            if i < k {
                assert(jobs[i] == jobs0[i]);
            }
        }
    }
}

proof fn lemma_consecutive_offsets(s: Seq<Arc<Frame>>)
    requires
        consecutive(s),
        s.len() > 0,
    ensures
        forall|i: int| 0 <= i < s.len() ==> #[trigger] s[i].nframe + (s.len() - 1 - i) == s.last().nframe,
    decreases s.len(),
{
    if s.len() > 1 {
        let t = s.drop_last();
        assert forall|i: int| 0 < i < t.len() implies #[trigger] t[i].nframe == t[i - 1].nframe + 1 by {
            assert(t[i] == s[i] && t[i - 1] == s[i - 1]);
        }
        lemma_consecutive_offsets(t);
        assert(s[s.len() - 1].nframe == s[s.len() - 2].nframe + 1);
        assert forall|i: int| 0 <= i < s.len() implies #[trigger] s[i].nframe + (s.len() - 1 - i) == s.last().nframe by {
            if i < s.len() - 1 {
                assert(t[i] == s[i]);
            }
        }
    }
}

/// A trigger that comes while the buffer already holds at least `n_before`
/// frames, followed by `n_after - 1` quiet iterations, exports exactly one
/// packet, at the last of those iterations: the last `n_before + n_after`
/// frames, ending with the frame that brought the count to zero. When the
/// frames' sequence numbers count up by one, the packet's are the
/// `n_before + n_after` consecutive numbers that end at that frame's.
pub proof fn lemma_full_window(v: CaptureView, e: TriggerEvent, fs: Seq<Arc<Frame>>)
    requires
        view_wf(v),
        v.n_after >= 1,
        v.frames.len() + v.n_after >= v.capacity,
        fs.len() == v.n_after,
    ensures
        ({
            let jobs = run(v, fs, trigger_then_quiet(e, v.n_after)).1;
            let window = keep_last(v.frames + fs, v.capacity);
            &&& jobs.len() == fs.len()
            &&& forall|i: int| 0 <= i < fs.len() - 1 ==> #[trigger] jobs[i] is None
            &&& jobs[fs.len() - 1] == Some(JobView::Clip(window, clip_path(v.folder, e)))
            &&& window.len() == v.capacity
            &&& window.last() == fs.last()
            &&& consecutive(v.frames + fs) ==> forall|i: int|
                0 <= i < window.len() ==> #[trigger] window[i].nframe + (v.capacity - 1 - i)
                    == fs.last().nframe
        }),
{
    let ms = trigger_then_quiet(e, v.n_after);
    let n = v.n_after as int;
    lemma_recording_prefix(v, e, fs, n - 1);
    assert(fs.subrange(0, n) =~= fs);
    assert(ms.subrange(0, n) =~= ms);
    lemma_run_frames(v, fs, ms);
    let all = v.frames + fs;
    let window = keep_last(all, v.capacity);
    assert(window.last() == fs.last()) by {
        assert(all.last() == fs.last());
    }
    if consecutive(all) {
        let w = window;
        assert(consecutive(w)) by {
            assert forall|i: int| 0 < i < w.len() implies #[trigger] w[i].nframe == w[i - 1].nframe + 1 by {
                let off = all.len() - w.len();
                assert(w[i] == all[off + i] && w[i - 1] == all[off + i - 1]);
            }
        }
        lemma_consecutive_offsets(w);
    }
}

/// A second trigger while recording restarts the count at `n_after` under
/// the new trigger: nothing is exported in that iteration, the buffer is the
/// same as without the trigger, and more frames are left to take than
/// without it, so the clip ends later.
pub proof fn lemma_trigger_extends(v: CaptureView, f: Arc<Frame>, e: TriggerEvent)
    requires
        view_wf(v),
        v.recording is Some,
    ensures
        ({
            let (with_trigger, job) = step_spec(v, f, MessageView::Trigger(e));
            let (without, _) = step_spec(v, f, MessageView::Empty);
            let (c, _) = v.recording->0;
            &&& job is None
            &&& with_trigger.recording == Some(((v.n_after - 1) as nat, e))
            &&& with_trigger.frames == without.frames
            &&& v.n_after - 1 > c - 1
            &&& without.recording matches Some((left, _)) ==> left == c - 1
        }),
{
}

/// No message in each of `n` iterations.
pub open spec fn quiet(n: nat) -> Seq<MessageView> {
    Seq::new(n, |i: int| MessageView::Empty)
}

proof fn lemma_quiet_countdown(v: CaptureView, fs: Seq<Arc<Frame>>, k: int)
    requires
        v.recording matches Some((c, _)) && fs.len() == c,
        0 <= k < fs.len(),
    ensures
        ({
            let (c, e) = v.recording->0;
            let (w, jobs) = run(v, fs.subrange(0, k + 1), quiet(c).subrange(0, k + 1));
            &&& k + 1 < c ==> w.recording == Some(((c - 1 - k) as nat, e))
            &&& jobs.len() == k + 1
            &&& forall|i: int| 0 <= i <= k && i < c - 1 ==> #[trigger] jobs[i] is None
            &&& k + 1 == c ==> (jobs[k] matches Some(JobView::Clip(_, path)) && path == clip_path(
                v.folder,
                e,
            ))
        }),
    decreases k,
{
    let (c, e) = v.recording->0;
    let ms = quiet(c);
    let fk = fs.subrange(0, k + 1);
    let mk = ms.subrange(0, k + 1);
    assert(fk.drop_last() =~= fs.subrange(0, k));
    assert(mk.drop_last() =~= ms.subrange(0, k));
    assert(mk.last() == ms[k]);
    assert(ms[k] == MessageView::Empty);
    if k > 0 {
        lemma_quiet_countdown(v, fs, k - 1);
        let (w0, jobs0) = run(v, fs.subrange(0, k), ms.subrange(0, k));
        let (w, jobs) = run(v, fk, mk);
        assert(jobs == jobs0.push(step_spec(w0, fk.last(), mk.last()).1));
        assert(w0.folder == v.folder) by {
            assert(fs.subrange(0, k).len() == ms.subrange(0, k).len());
            lemma_folder_kept(v, fs.subrange(0, k), ms.subrange(0, k));
        }
        assert forall|i: int| 0 <= i <= k && i < c - 1 implies #[trigger] jobs[i] is None by {
            if i < k {
                assert(jobs[i] == jobs0[i]);
            }
        }
    } else {
        assert(fs.subrange(0, 0).len() == 0);
    }
}

proof fn lemma_folder_kept(v: CaptureView, fs: Seq<Arc<Frame>>, ms: Seq<MessageView>)
    ensures
        run(v, fs, ms).0.folder == v.folder,
        run(v, fs, ms).0.n_after == v.n_after,
    decreases fs.len(),
{
    if fs.len() > 0 && ms.len() > 0 {
        lemma_folder_kept(v, fs.drop_last(), ms.drop_last());
    }
}

/// Over a whole run: while a clip is being recorded with `c` frames still
/// to take, a second trigger followed by quiet iterations exports nothing
/// for `n_after - 1` iterations and then one clip named after the second
/// trigger, whereas without it the clip named after the first trigger comes
/// after `c - 1` iterations, which is strictly sooner.
pub proof fn lemma_second_trigger_ends_later(
    v: CaptureView,
    e: TriggerEvent,
    fs: Seq<Arc<Frame>>,
)
    requires
        view_wf(v),
        v.recording is Some,
        fs.len() == v.n_after,
    ensures
        ({
            let (c, first) = v.recording->0;
            let with_trigger = run(v, fs, trigger_then_quiet(e, v.n_after)).1;
            let without = run(v, fs.subrange(0, c as int), quiet(c)).1;
            &&& forall|i: int| 0 <= i < v.n_after - 1 ==> #[trigger] with_trigger[i] is None
            &&& with_trigger[v.n_after - 1] matches Some(JobView::Clip(_, path)) && path == clip_path(
                v.folder,
                e,
            )
            &&& forall|i: int| 0 <= i < c - 1 ==> #[trigger] without[i] is None
            &&& without[c - 1] matches Some(JobView::Clip(_, path)) && path == clip_path(
                v.folder,
                first,
            )
            &&& c - 1 < v.n_after - 1
        }),
{
    let (c, first) = v.recording->0;
    let n = v.n_after as int;
    lemma_recording_prefix(v, e, fs, n - 1);
    assert(fs.subrange(0, n) =~= fs);
    assert(trigger_then_quiet(e, v.n_after).subrange(0, n) =~= trigger_then_quiet(e, v.n_after));
    let gs = fs.subrange(0, c as int);
    lemma_quiet_countdown(v, gs, c - 1);
    assert(gs.subrange(0, c as int) =~= gs);
    assert(quiet(c).subrange(0, c as int) =~= quiet(c));
}

/// Builds the directory name of the clip named after `e`.
pub fn clip_dir(folder: &str, e: &TriggerEvent) -> (r: String)
    ensures
        r@ == clip_path(folder@, *e),
{
    let mut p = String::from_str(folder);
    p.append("/obj_id_");
    push_decimal(&mut p, e.obj_id as u64);
    p.append("_frame_");
    push_decimal(&mut p, e.frame);
    p
}

/// The capture controller, owned by the frame-ingestion loop.
pub struct CaptureController {
    buffer: FrameBuffer,
    n_after: usize,
    state: CaptureState,
    save_folder: String,
}

impl View for CaptureController {
    type V = CaptureView;

    closed spec fn view(&self) -> CaptureView {
        CaptureView {
            frames: self.buffer@,
            capacity: self.buffer.spec_capacity(),
            n_after: self.n_after as nat,
            recording: match self.state {
                CaptureState::Idle => None,
                CaptureState::Recording { counter, trigger } => Some((counter as nat, trigger)),
            },
            folder: self.save_folder@,
        }
    }
}

impl CaptureController {
    pub closed spec fn wf(&self) -> bool {
        &&& self.buffer.wf()
        &&& view_wf(self@)
    }

    /// A controller that keeps `n_before + n_after` frames and writes clips
    /// under `save_folder`; it starts idle with an empty buffer.
    pub fn new(n_before: usize, n_after: usize, save_folder: String) -> (r: CaptureController)
        requires
            n_before + n_after <= usize::MAX,
        ensures
            r.wf(),
            r@ == (CaptureView {
                frames: Seq::empty(),
                capacity: (n_before + n_after) as nat,
                n_after: n_after as nat,
                recording: None,
                folder: save_folder@,
            }),
    {
        CaptureController {
            buffer: FrameBuffer::new(n_before + n_after),
            n_after,
            state: CaptureState::Idle,
            save_folder,
        }
    }

    /// Handles one frame together with the message polled in the same
    /// iteration. Returns the job to queue for the export worker, if any:
    /// a finished clip, or the stop sentinel when the message is `kill`.
    pub fn step(&mut self, frame: Arc<Frame>, msg: &MessageType) -> (r: Option<ExportJob>)
        requires
            old(self).wf(),
        ensures
            final(self).wf(),
            (final(self)@, job_view(r)) == step_spec(old(self)@, frame, msg@),
    {
        let ghost v = self@;
        self.buffer.push(frame);
        let ghost frames = self.buffer@;
        assert(frames == keep_last(v.frames.push(frame), v.capacity));
        match msg {
            MessageType::Text(t) => {
                if is_kill(t.as_str()) {
                    return Some(ExportJob::Stop);
                }
            },
            MessageType::JsonData(e) => {
                self.state = CaptureState::Recording { counter: self.n_after, trigger: *e };
            },
            _ => {},
        }
        match self.state {
            CaptureState::Idle => None,
            CaptureState::Recording { counter, trigger } => {
                let left: usize = if counter > 0 { counter - 1 } else { 0 };
                if left == 0 {
                    self.state = CaptureState::Idle;
                    let packet = FramesPacket {
                        images: self.buffer.snapshot(),
                        save_path: clip_dir(self.save_folder.as_str(), &trigger),
                    };
                    Some(ExportJob::Clip(packet))
                } else {
                    self.state = CaptureState::Recording { counter: left, trigger };
                    None
                }
            },
        }
    }

    /// The frames still to take before the current recording is exported,
    /// or `None` while idle.
    pub fn counter(&self) -> (r: Option<usize>)
        ensures
            match self@.recording {
                Some((c, _)) => r == Some(c as usize),
                None => r is None,
            },
    {
        match self.state {
            CaptureState::Idle => None,
            CaptureState::Recording { counter, .. } => Some(counter),
        }
    }

    /// The trigger that will name the clip being recorded, if any.
    pub fn active_trigger(&self) -> (r: Option<TriggerEvent>)
        ensures
            match self@.recording {
                Some((_, e)) => r == Some(e),
                None => r is None,
            },
    {
        match self.state {
            CaptureState::Idle => None,
            CaptureState::Recording { trigger, .. } => Some(trigger),
        }
    }

    /// How many frames the ring buffer holds now.
    pub fn buffered(&self) -> (r: usize)
        ensures
            r == self@.frames.len(),
    {
        self.buffer.len()
    }
}

} // verus!
