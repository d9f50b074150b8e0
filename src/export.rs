//! The export worker's decisions: for each clip, the metadata table, the
//! paths inside the clip's directory and the encoder's command line. The
//! worker itself, which writes files and runs the encoder, lives outside the
//! library and follows these plans.

use crate::capture::FramesPacket;
use crate::frame::Frame;
use crate::text::{all_digits, decimal, decimal_value, lemma_decimal_round_trip, push_decimal};
use std::sync::Arc;
use vstd::prelude::*;
use vstd::string::StringExecFns;

verus! {

/// The frame rate written into every exported video.
pub const EXPORT_FRAMERATE: u32 = 25;

/// The metadata table's header line.
pub open spec fn metadata_header() -> Seq<char> {
    "nframe,acq_nframe,timestamp_raw,exposure_time\n"@
}

/// The metadata line of one frame: its four counters, verbatim, in decimal.
pub open spec fn metadata_row(f: Arc<Frame>) -> Seq<char> {
    decimal(f.nframe as nat) + ","@ + decimal(f.acq_nframe as nat) + ","@ + decimal(
        f.timestamp_raw as nat,
    ) + ","@ + decimal(f.exposure_time as nat) + "\n"@
}

/// The metadata lines of `fs`, in order.
pub open spec fn metadata_rows(fs: Seq<Arc<Frame>>) -> Seq<char>
    decreases fs.len(),
{
    if fs.len() == 0 {
        Seq::empty()
    } else {
        metadata_rows(fs.drop_last()) + metadata_row(fs.last())
    }
}

/// The whole metadata table of a clip.
pub open spec fn metadata_text(fs: Seq<Arc<Frame>>) -> Seq<char> {
    metadata_header() + metadata_rows(fs)
}

/// Appends the metadata line of `f` to `out`.
fn push_row(out: &mut String, f: &Arc<Frame>)
    ensures
        final(out)@ == old(out)@ + metadata_row(*f),
{
    push_decimal(out, f.nframe as u64);
    out.append(",");
    push_decimal(out, f.acq_nframe as u64);
    out.append(",");
    push_decimal(out, f.timestamp_raw);
    out.append(",");
    push_decimal(out, f.exposure_time as u64);
    out.append("\n");
    assert(out@ =~= old(out)@ + metadata_row(*f));
}

/// The metadata table of `frames`: the header, then one line per frame in
/// packet order.
pub fn video_metadata_csv(frames: &Vec<Arc<Frame>>) -> (r: String)
    ensures
        r@ == metadata_text(frames@),
{
    let mut out = String::from_str("nframe,acq_nframe,timestamp_raw,exposure_time\n");
    let n = frames.len();
    let mut i: usize = 0;
    while i < n
        invariant
            n == frames@.len(),
            i <= n,
            out@ == metadata_header() + metadata_rows(frames@.subrange(0, i as int)),
        decreases n - i,
    {
        let ghost before = out@;
        push_row(&mut out, &frames[i]);
        let ghost done = frames@.subrange(0, i + 1);
        assert(done.drop_last() =~= frames@.subrange(0, i as int));
        assert(done.last() == frames@[i as int]);
        assert(metadata_rows(done) == metadata_rows(done.drop_last()) + metadata_row(done.last()));
        assert(out@ =~= metadata_header() + metadata_rows(done));
        i = i + 1;
    }
    assert(frames@.subrange(0, n as int) =~= frames@);
    out
}

/// How many times `c` occurs in `s`.
pub open spec fn count_char(s: Seq<char>, c: char) -> nat
    decreases s.len(),
{
    if s.len() == 0 {
        0
    } else {
        count_char(s.drop_last(), c) + if s.last() == c { 1nat } else { 0nat }
    }
}

proof fn lemma_count_concat(a: Seq<char>, b: Seq<char>, c: char)
    ensures
        count_char(a + b, c) == count_char(a, c) + count_char(b, c),
    decreases b.len(),
{
    if b.len() == 0 {
        assert(a + b =~= a);
    } else {
        lemma_count_concat(a, b.drop_last(), c);
        assert((a + b).drop_last() =~= a + b.drop_last());
    }
}

proof fn lemma_count_digits(s: Seq<char>, c: char)
    requires
        all_digits(s),
        !('0' <= c && c <= '9'),
    ensures
        count_char(s, c) == 0,
    decreases s.len(),
{
    if s.len() > 0 {
        assert(all_digits(s.drop_last())) by {
            assert forall|i: int| 0 <= i < s.drop_last().len() implies '0' <= #[trigger] s.drop_last()[i]
                && s.drop_last()[i] <= '9' by {
                assert(s.drop_last()[i] == s[i]);
            }
        }
        lemma_count_digits(s.drop_last(), c);
        assert(s.last() == s[s.len() - 1]);
    }
}

proof fn lemma_count_literal()
    ensures
        count_char(","@, '\n') == 0,
        count_char("\n"@, '\n') == 1,
{
    reveal_strlit(",");
    reveal_strlit("\n");
    assert(","@.drop_last() =~= Seq::<char>::empty());
    assert("\n"@.drop_last() =~= Seq::<char>::empty());
    assert(count_char(Seq::<char>::empty(), '\n') == 0);
}

/// Each metadata line holds the frame's four counters in decimal, and
/// reading a field back gives the counter exactly; after the header line the
/// table has exactly one line per exported frame.
pub proof fn lemma_metadata_faithful(fs: Seq<Arc<Frame>>)
    ensures
        metadata_text(fs) == metadata_header() + metadata_rows(fs),
        count_char(metadata_rows(fs), '\n') == fs.len(),
        forall|i: int|
            0 <= i < fs.len() ==> {
                let f = #[trigger] fs[i];
                &&& decimal_value(decimal(f.nframe as nat)) == f.nframe
                &&& decimal_value(decimal(f.acq_nframe as nat)) == f.acq_nframe
                &&& decimal_value(decimal(f.timestamp_raw as nat)) == f.timestamp_raw
                &&& decimal_value(decimal(f.exposure_time as nat)) == f.exposure_time
            },
{
    assert forall|i: int| 0 <= i < fs.len() implies {
        let f = #[trigger] fs[i];
        &&& decimal_value(decimal(f.nframe as nat)) == f.nframe
        &&& decimal_value(decimal(f.acq_nframe as nat)) == f.acq_nframe
        &&& decimal_value(decimal(f.timestamp_raw as nat)) == f.timestamp_raw
        &&& decimal_value(decimal(f.exposure_time as nat)) == f.exposure_time
    } by {
        let f = fs[i];
        lemma_decimal_round_trip(f.nframe as nat);
        lemma_decimal_round_trip(f.acq_nframe as nat);
        lemma_decimal_round_trip(f.timestamp_raw as nat);
        lemma_decimal_round_trip(f.exposure_time as nat);
    }
    lemma_rows_count(fs);
}

proof fn lemma_row_count(f: Arc<Frame>)
    ensures
        count_char(metadata_row(f), '\n') == 1,
{
    let c = '\n';
    let a = decimal(f.nframe as nat);
    let b = decimal(f.acq_nframe as nat);
    let t = decimal(f.timestamp_raw as nat);
    let e = decimal(f.exposure_time as nat);
    lemma_decimal_round_trip(f.nframe as nat);
    lemma_decimal_round_trip(f.acq_nframe as nat);
    lemma_decimal_round_trip(f.timestamp_raw as nat);
    lemma_decimal_round_trip(f.exposure_time as nat);
    lemma_count_digits(a, c);
    lemma_count_digits(b, c);
    lemma_count_digits(t, c);
    lemma_count_digits(e, c);
    lemma_count_literal();
    let comma = ","@;
    lemma_count_concat(a, comma, c);
    lemma_count_concat(a + comma, b, c);
    lemma_count_concat(a + comma + b, comma, c);
    lemma_count_concat(a + comma + b + comma, t, c);
    lemma_count_concat(a + comma + b + comma + t, comma, c);
    lemma_count_concat(a + comma + b + comma + t + comma, e, c);
    lemma_count_concat(a + comma + b + comma + t + comma + e, "\n"@, c);
}

proof fn lemma_rows_count(fs: Seq<Arc<Frame>>)
    ensures
        count_char(metadata_rows(fs), '\n') == fs.len(),
    decreases fs.len(),
{
    if fs.len() > 0 {
        lemma_rows_count(fs.drop_last());
        lemma_row_count(fs.last());
        lemma_count_concat(metadata_rows(fs.drop_last()), metadata_row(fs.last()), '\n');
    }
}

/// The program that encodes a clip's raw frames into a video.
pub const ENCODER_PROGRAM: &'static str = "ffmpeg";

/// Why a clip could not be exported. Each error costs that clip only.
#[derive(Debug)]
pub enum ExportError {
    /// The packet held no frame, so the video size is unknown.
    EmptyPacket,
    /// The clip's directory or metadata table could not be written.
    MetadataWrite(String),
    /// The encoder could not be started or fed.
    EncoderStart(String),
    /// The encoder ended with a failure status (`None`: killed by a signal).
    EncoderFailed(Option<i32>),
}

/// The `-video_size` argument: `<width>x<height>`.
pub open spec fn video_size(width: u32, height: u32) -> Seq<char> {
    decimal(width as nat) + "x"@ + decimal(height as nat)
}

/// The encoder's arguments: raw single-channel 8-bit frames of the given
/// size on standard input, at a fixed frame rate, encoded to `path`.
pub open spec fn encoder_args_spec(width: u32, height: u32, fps: u32, path: Seq<char>) -> Seq<
    Seq<char>,
> {
    seq![
        "-f"@, "rawvideo"@, "-pixel_format"@, "gray"@, "-video_size"@, video_size(width, height),
        "-framerate"@, decimal(fps as nat), "-i"@, "-"@, "-vf"@, "format=gray"@, "-vcodec"@,
        "h264_nvenc"@, "-preset"@, "p7"@, "-tune"@, "hq"@, "-rc"@, "vbr_hq"@, "-qmin"@, "1"@,
        "-qmax"@, "25"@, "-b:v"@, "5M"@, "-maxrate"@, "10M"@, "-bufsize"@, "20M"@, "-profile:v"@,
        "high"@, path,
    ]
}

/// The character sequences of a list of strings.
pub open spec fn arg_views(v: Seq<String>) -> Seq<Seq<char>> {
    v.map_values(|s: String| s@)
}

fn push_arg(v: &mut Vec<String>, s: String)
    ensures
        arg_views(final(v)@) == arg_views(old(v)@).push(s@),
{
    let ghost s_view = s@;
    v.push(s);
    assert(arg_views(v@) =~= arg_views(old(v)@).push(s_view));
}

fn push_lit(v: &mut Vec<String>, s: &str)
    ensures
        arg_views(final(v)@) == arg_views(old(v)@).push(s@),
{
    push_arg(v, String::from_str(s));
}

/// The encoder's command line (without the program name) for frames of
/// `width` x `height` pixels at `fps` frames per second, written to `path`.
pub fn encoder_args(width: u32, height: u32, fps: u32, path: &str) -> (r: Vec<String>)
    ensures
        arg_views(r@) == encoder_args_spec(width, height, fps, path@),
{
    let mut v: Vec<String> = Vec::new();
    assert(arg_views(v@) =~= Seq::<Seq<char>>::empty());
    push_lit(&mut v, "-f");
    push_lit(&mut v, "rawvideo");
    push_lit(&mut v, "-pixel_format");
    push_lit(&mut v, "gray");
    push_lit(&mut v, "-video_size");
    let mut size = String::new();
    push_decimal(&mut size, width as u64);
    size.append("x");
    push_decimal(&mut size, height as u64);
    assert(size@ =~= video_size(width, height));
    push_arg(&mut v, size);
    push_lit(&mut v, "-framerate");
    let mut rate = String::new();
    push_decimal(&mut rate, fps as u64);
    assert(rate@ =~= decimal(fps as nat));
    push_arg(&mut v, rate);
    push_lit(&mut v, "-i");
    push_lit(&mut v, "-");
    push_lit(&mut v, "-vf");
    push_lit(&mut v, "format=gray");
    push_lit(&mut v, "-vcodec");
    push_lit(&mut v, "h264_nvenc");
    push_lit(&mut v, "-preset");
    push_lit(&mut v, "p7");
    push_lit(&mut v, "-tune");
    push_lit(&mut v, "hq");
    push_lit(&mut v, "-rc");
    push_lit(&mut v, "vbr_hq");
    push_lit(&mut v, "-qmin");
    push_lit(&mut v, "1");
    push_lit(&mut v, "-qmax");
    push_lit(&mut v, "25");
    push_lit(&mut v, "-b:v");
    push_lit(&mut v, "5M");
    push_lit(&mut v, "-maxrate");
    push_lit(&mut v, "10M");
    push_lit(&mut v, "-bufsize");
    push_lit(&mut v, "20M");
    push_lit(&mut v, "-profile:v");
    push_lit(&mut v, "high");
    push_lit(&mut v, path);
    v
}

/// Everything the export worker needs to write one clip.
pub struct ExportPlan {
    /// The clip's directory, to be created if missing.
    pub dir: String,
    /// `<dir>/metadata.csv`.
    pub metadata_path: String,
    /// The metadata table to write there.
    pub metadata: String,
    /// `<dir>/video.mp4`, written by the encoder.
    pub video_path: String,
    /// The frame size, taken from the clip's first frame.
    pub width: u32,
    pub height: u32,
    /// The encoder's arguments.
    pub encoder_args: Vec<String>,
}

/// The plan for exporting `packet`; a packet without frames cannot be
/// exported.
pub fn plan_export(packet: &FramesPacket) -> (r: Result<ExportPlan, ExportError>)
    ensures
        packet.images@.len() == 0 <==> r is Err,
        r is Err ==> r->Err_0 is EmptyPacket,
        r matches Ok(p) ==> {
            let first = packet.images@[0];
            &&& p.dir@ == packet.save_path@
            &&& p.metadata_path@ == packet.save_path@ + "/metadata.csv"@
            &&& p.metadata@ == metadata_text(packet.images@)
            &&& p.video_path@ == packet.save_path@ + "/video.mp4"@
            &&& p.width == first.width
            &&& p.height == first.height
            &&& arg_views(p.encoder_args@) == encoder_args_spec(
                first.width,
                first.height,
                EXPORT_FRAMERATE,
                p.video_path@,
            )
        },
{
    if packet.images.len() == 0 {
        return Err(ExportError::EmptyPacket);
    }
    let width = packet.images[0].width;
    let height = packet.images[0].height;
    let dir = packet.save_path.clone();
    let mut metadata_path = packet.save_path.clone();
    metadata_path.append("/metadata.csv");
    let mut video_path = packet.save_path.clone();
    video_path.append("/video.mp4");
    let encoder_args = encoder_args(width, height, EXPORT_FRAMERATE, video_path.as_str());
    Ok(
        ExportPlan {
            dir,
            metadata_path,
            metadata: video_metadata_csv(&packet.images),
            video_path,
            width,
            height,
            encoder_args,
        },
    )
}

/// What the encoder's exit status means for the clip: success only on
/// status zero.
pub fn encoder_outcome(status: Option<i32>) -> (r: Result<(), ExportError>)
    ensures
        r is Ok <==> status == Some(0i32),
        r matches Err(e) ==> e == ExportError::EncoderFailed(status),
{
    match status {
        Some(0) => Ok(()),
        _ => Err(ExportError::EncoderFailed(status)),
    }
}

} // verus!
