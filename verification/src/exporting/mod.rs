//! Video export: the frame-by-frame export state machine, raw frame
//! conversion and the encoder command lines.
use vstd::prelude::*;

use crate::text::{lemma_zero_padded_injective, to_decimal_padded, zero_padded};

pub mod video_exporter_ffmpeg;

verus! {

/// The phase an export is in.
#[derive(Clone, Copy, Debug, PartialEq, Eq, Structural)]
pub enum ExporterState {
    RenderingFrames,
    EncodingVideo,
    MuxingAudio,
    Finished,
}

/// What an export does on one update.
#[derive(Clone, Copy, Debug, PartialEq, Eq, Structural)]
pub enum ExportAction {
    /// Every frame is rendered and the export is not finished: encode the
    /// video and add the audio.
    Finish,
    /// The export is finished: nothing more to do.
    Idle,
    /// The current frame is still rendering: wait and update again.
    Wait,
    /// The current frame has rendered: save it, then start the next one.
    SaveAndStartNext,
    /// No frame is rendering: start the current one.
    Start,
}

/// Progress of an export through the frames of the video.
pub struct ExportProgress {
    state: ExporterState,
    current_frame: usize,
    rendering_frame: bool,
    finished: bool,
}

impl ExportProgress {
    /// The frame being rendered or rendered next.
    pub closed spec fn frame(&self) -> nat {
        self.current_frame as nat
    }

    /// Whether a frame is being rendered.
    pub closed spec fn rendering(&self) -> bool {
        self.rendering_frame
    }

    /// The phase of the export.
    pub closed spec fn phase(&self) -> ExporterState {
        self.state
    }

    /// Whether the export is finished.
    pub closed spec fn done(&self) -> bool {
        self.finished
    }

    /// The phase of the export.
    pub fn state(&self) -> (state: ExporterState)
        ensures
            state == self.phase(),
    {
        self.state
    }

    /// Whether the export is finished.
    pub fn finished(&self) -> (finished: bool)
        ensures
            finished == self.done(),
    {
        self.finished
    }

    /// An export that renders from `start_frame` on.
    pub fn new(start_frame: usize) -> (progress: Self)
        ensures
            progress.frame() == start_frame,
            !progress.rendering(),
            !progress.done(),
            progress.phase() == ExporterState::RenderingFrames,
    {
        Self {
            state: ExporterState::RenderingFrames,
            current_frame: start_frame,
            rendering_frame: false,
            finished: false,
        }
    }

    /// The frame being rendered or rendered next.
    pub fn current_frame(&self) -> (frame: usize)
        ensures
            frame == self.frame(),
    {
        self.current_frame
    }

    /// What to do on an update of an export of `total_frames` frames,
    /// where `render_finished` tells whether the visualiser finished its
    /// render.
    pub fn update_action(&self, total_frames: usize, render_finished: bool) -> (action: ExportAction)
        ensures
            self.frame() >= total_frames && !self.done() ==> action == ExportAction::Finish,
            self.frame() >= total_frames && self.done() ==> action == ExportAction::Idle,
            self.frame() < total_frames && self.rendering() && render_finished ==> action == ExportAction::SaveAndStartNext,
            self.frame() < total_frames && self.rendering() && !render_finished ==> action == ExportAction::Wait,
            self.frame() < total_frames && !self.rendering() ==> action == ExportAction::Start,
    {
        if self.current_frame >= total_frames {
            if !self.finished {
                ExportAction::Finish
            } else {
                ExportAction::Idle
            }
        } else if self.rendering_frame {
            if render_finished {
                ExportAction::SaveAndStartNext
            } else {
                ExportAction::Wait
            }
        } else {
            ExportAction::Start
        }
    }

    /// The render of the current frame has started.
    pub fn frame_started(&mut self)
        ensures
            final(self).rendering(),
            final(self).frame() == old(self).frame(),
            final(self).done() == old(self).done(),
            final(self).phase() == old(self).phase(),
    {
        self.rendering_frame = true;
    }

    /// The current frame's render is done: it is no longer rendering
    /// (whether or not saving it then succeeds).
    pub fn frame_rendered(&mut self)
        ensures
            !final(self).rendering(),
            final(self).frame() == old(self).frame(),
            final(self).done() == old(self).done(),
            final(self).phase() == old(self).phase(),
    {
        self.rendering_frame = false;
    }

    /// The current frame is saved: move on to the next one.
    pub fn frame_saved(&mut self)
        requires
            old(self).frame() < usize::MAX,
        ensures
            final(self).frame() == old(self).frame() + 1,
            final(self).rendering() == old(self).rendering(),
            final(self).done() == old(self).done(),
            final(self).phase() == old(self).phase(),
    {
        self.current_frame = self.current_frame + 1;
    }

    /// Finishing starts (or starts again, after a failed attempt) with
    /// encoding the video, whatever phase the export was in.
    pub fn begin_finish(&mut self)
        ensures
            final(self).phase() == ExporterState::EncodingVideo,
            final(self).done() == old(self).done(),
            final(self).frame() == old(self).frame(),
            final(self).rendering() == old(self).rendering(),
    {
        self.state = ExporterState::EncodingVideo;
    }

    /// Enter the next phase of finishing: rendering, encoding, muxing, then
    /// the finished phase, which it stays in. Entering the finished phase
    /// does not yet make the export finished: the clean-up after it may
    /// still fail (see [`ExportProgress::mark_finished`]).
    pub fn advance_phase(&mut self)
        ensures
            final(self).phase() == next_phase(old(self).phase()),
            final(self).done() == old(self).done(),
            final(self).frame() == old(self).frame(),
            final(self).rendering() == old(self).rendering(),
    {
        self.state = match self.state {
            ExporterState::RenderingFrames => ExporterState::EncodingVideo,
            ExporterState::EncodingVideo => ExporterState::MuxingAudio,
            ExporterState::MuxingAudio => ExporterState::Finished,
            ExporterState::Finished => ExporterState::Finished,
        };
    }

    /// Every step of finishing succeeded, the clean-up included: the export
    /// is finished.
    pub fn mark_finished(&mut self)
        ensures
            final(self).done(),
            final(self).phase() == old(self).phase(),
            final(self).frame() == old(self).frame(),
            final(self).rendering() == old(self).rendering(),
    {
        self.finished = true;
    }
}

/// Converts an image of `width` x `height` RGBA8 pixels (row by row, four
/// bytes a pixel) to RGB24 (three bytes a pixel) by dropping each alpha.
pub fn image_to_rgb24(rgba: &Vec<u8>, width: u16, height: u16) -> (rgb: Vec<u8>)
    requires
        rgba.len() >= 4 * (width as int) * (height as int),
    ensures
        rgb.len() == 3 * (width as int) * (height as int),
        forall|p: int, c: int| 0 <= p < (width as int) * (height as int) && 0 <= c < 3
            ==> #[trigger] rgb[3 * p + c] == rgba[4 * p + c],
{
    let w = width as usize;
    let h = height as usize;
    assert(w * h <= 0xffff * 0xffff) by (nonlinear_arith)
        requires w <= 0xffff, h <= 0xffff;
    let pixels = w * h;
    assert(4 * pixels == 4 * (width as int) * (height as int)) by (nonlinear_arith)
        requires pixels == w * h, w == width, h == height;
    let mut rgb: Vec<u8> = Vec::new();
    let mut px: usize = 0;
    while px < pixels
        invariant
            pixels == (width as int) * (height as int),
            pixels <= 0xffff * 0xffff,
            rgba.len() >= 4 * pixels,
            px <= pixels,
            rgb.len() == 3 * px,
            forall|p: int, c: int| 0 <= p < px && 0 <= c < 3
                ==> #[trigger] rgb[3 * p + c] == rgba[4 * p + c],
        decreases pixels - px,
    {
        let base = px * 4;
        let ghost before = rgb@;
        rgb.push(rgba[base]);
        rgb.push(rgba[base + 1]);
        rgb.push(rgba[base + 2]);
        proof {
            assert forall|p: int, c: int| 0 <= p < px + 1 && 0 <= c < 3
                implies #[trigger] rgb[3 * p + c] == rgba[4 * p + c] by {
                if p < px {
                    assert(rgb[3 * p + c] == before[3 * p + c]);
                }
            }
        }
        px = px + 1;
    }
    assert(3 * pixels == 3 * (width as int) * (height as int)) by (nonlinear_arith)
        requires pixels == (width as int) * (height as int);
    rgb
}

/// The phase after `state` when an export advances.
pub open spec fn next_phase(state: ExporterState) -> ExporterState {
    match state {
        ExporterState::RenderingFrames => ExporterState::EncodingVideo,
        ExporterState::EncodingVideo => ExporterState::MuxingAudio,
        ExporterState::MuxingAudio => ExporterState::Finished,
        ExporterState::Finished => ExporterState::Finished,
    }
}

/// Finishing goes through encoding and muxing and then stays in the
/// finished phase: from the start of finishing, two advances reach the
/// finished phase, from which no advance leaves.
pub proof fn lemma_phases_reach_finished(state: ExporterState)
    ensures
        next_phase(next_phase(ExporterState::EncodingVideo)) == ExporterState::Finished,
        next_phase(next_phase(next_phase(state))) == ExporterState::Finished,
        next_phase(ExporterState::Finished) == ExporterState::Finished,
{
}

/// Number of digits in the name of an intermediate frame image.
pub const FRAME_NAME_DIGITS: usize = 5;

/// The name of the intermediate image of frame `frame`:
/// `frame_` and the frame number padded to five digits, then `.png`.
pub open spec fn frame_image_name(frame: nat) -> Seq<char> {
    "frame_"@ + zero_padded(frame, FRAME_NAME_DIGITS as nat) + ".png"@
}

/// The file name under which frame `frame` is kept between rendering and
/// encoding (`frame_00042.png`).
pub fn frame_png_name(frame: u64) -> (name: String)
    ensures
        name@ == frame_image_name(frame as nat),
{
    let mut name = "frame_".to_owned();
    let digits = to_decimal_padded(frame, FRAME_NAME_DIGITS);
    name.append(digits.as_str());
    name.append(".png");
    name
}

/// The file the video is encoded to before the audio is added: the
/// destination's stem followed by `_video_only.mp4`.
pub fn video_only_file_name(stem: &str) -> (name: String)
    ensures
        name@ == stem@ + "_video_only.mp4"@,
{
    let mut name = stem.to_owned();
    name.append("_video_only.mp4");
    name
}

/// Every frame has an image of its own: two frames never share a name, so
/// no frame's image overwrites another's.
pub proof fn lemma_frame_names_distinct(a: nat, b: nat)
    requires
        a != b,
    ensures
        frame_image_name(a) != frame_image_name(b),
{
    if frame_image_name(a) == frame_image_name(b) {
        let na = frame_image_name(a);
        let pa = zero_padded(a, FRAME_NAME_DIGITS as nat);
        let pb = zero_padded(b, FRAME_NAME_DIGITS as nat);
        let start = "frame_"@.len() as int;
        let suffix = ".png"@.len() as int;
        assert(na.len() == start + pa.len() + suffix);
        assert(frame_image_name(b).len() == start + pb.len() + suffix);
        assert(pa.len() == pb.len());
        assert(pa =~= na.subrange(start, start + pa.len()));
        assert(pb =~= frame_image_name(b).subrange(start, start + pb.len()));
        lemma_zero_padded_injective(a, b, FRAME_NAME_DIGITS as nat);
    }
}

} // verus!
