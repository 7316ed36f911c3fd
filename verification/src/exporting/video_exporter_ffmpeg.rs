//! The raw video format fed to the encoder, and the encoder's arguments.
use vstd::prelude::*;
use vstd::string::StringExecFns;
use crate::text::{decimal, to_decimal};

verus! {

/// Why an export step failed.
#[derive(Clone, Copy, Debug, PartialEq, Eq, Structural)]
pub enum ExportError {
    /// A frame's byte length does not match the video's dimensions.
    IncorrectFrameSize,
}

/// The dimensions of a raw RGB24 video.
pub struct RawVideoFormat {
    pub width: u32,
    pub height: u32,
}

impl RawVideoFormat {
    /// Bytes of one RGB24 frame: three per pixel.
    pub open spec fn frame_len_spec(&self) -> int {
        3 * (self.width as int) * (self.height as int)
    }

    /// A format for frames of `width` x `height` pixels.
    pub fn new(width: u32, height: u32) -> (format: Self)
        ensures
            format.width == width,
            format.height == height,
    {
        Self { width, height }
    }

    /// Bytes of one frame.
    pub fn frame_len(&self) -> (len: usize)
        requires
            self.frame_len_spec() <= u32::MAX,
        ensures
            len == self.frame_len_spec(),
    {
        assert(self.width * self.height <= self.width * self.height * 3) by (nonlinear_arith);
        assert((self.width * self.height) * 3 == 3 * (self.width as int) * (self.height as int)) by (nonlinear_arith);
        (self.width * self.height * 3) as usize
    }

    /// Accepts a frame of `len` bytes only if it is exactly one frame long.
    pub fn check_frame(&self, len: usize) -> (checked: Result<(), ExportError>)
        requires
            self.frame_len_spec() <= u32::MAX,
        ensures
            checked is Ok <==> len == self.frame_len_spec(),
            checked matches Err(e) ==> e == ExportError::IncorrectFrameSize,
    {
        if len != self.frame_len() {
            return Err(ExportError::IncorrectFrameSize);
        }
        Ok(())
    }
}

/// The encoder's arguments for reading raw RGB24 frames of
/// `width` x `height` pixels at `fps` frames a second from standard input
/// and writing H.264 to `output`.
pub open spec fn encoder_args_spec(width: nat, height: nat, fps: nat, output: Seq<char>) -> Seq<Seq<char>> {
    seq![
        "-y"@, "-f"@, "rawvideo"@, "-pixel_format"@, "rgb24"@,
        "-video_size"@, decimal(width) + seq!['x'] + decimal(height),
        "-framerate"@, decimal(fps),
        "-i"@, "-"@,
        "-c:v"@, "libx264"@, "-pix_fmt"@, "yuv420p"@,
        output,
    ]
}

/// The views of a list of strings.
pub open spec fn views(strings: Seq<String>) -> Seq<Seq<char>> {
    strings.map_values(|s: String| s@)
}

/// Builds [`encoder_args_spec`].
pub fn encoder_args(width: u32, height: u32, fps: u32, output: &str) -> (args: Vec<String>)
    ensures
        views(args@) == encoder_args_spec(width as nat, height as nat, fps as nat, output@),
{
    let mut size = to_decimal(width as u64);
    proof { reveal_strlit("x"); }
    size.append("x");
    let h = to_decimal(height as u64);
    size.append(h.as_str());
    let args: Vec<String> = vec![
        "-y".to_owned(), "-f".to_owned(), "rawvideo".to_owned(), "-pixel_format".to_owned(),
        "rgb24".to_owned(), "-video_size".to_owned(), size, "-framerate".to_owned(),
        to_decimal(fps as u64), "-i".to_owned(), "-".to_owned(), "-c:v".to_owned(),
        "libx264".to_owned(), "-pix_fmt".to_owned(), "yuv420p".to_owned(), output.to_owned(),
    ];
    assert(args@.len() == 16);
    assert forall|k: int| 0 <= k < 16 implies #[trigger] views(args@)[k] == encoder_args_spec(width as nat, height as nat, fps as nat, output@)[k] by {
    }
    assert(views(args@) =~= encoder_args_spec(width as nat, height as nat, fps as nat, output@));
    args
}

/// The muxer's arguments for copying the video of `video`, encoding the
/// audio of `audio` to AAC, and writing both to `output`.
pub open spec fn mux_args_spec(video: Seq<char>, audio: Seq<char>, output: Seq<char>) -> Seq<Seq<char>> {
    seq!["-y"@, "-i"@, video, "-i"@, audio, "-c:v"@, "copy"@, "-c:a"@, "aac"@, output]
}

/// Builds [`mux_args_spec`].
pub fn mux_args(video: &str, audio: &str, output: &str) -> (args: Vec<String>)
    ensures
        views(args@) == mux_args_spec(video@, audio@, output@),
{
    let args: Vec<String> = vec![
        "-y".to_owned(), "-i".to_owned(), video.to_owned(), "-i".to_owned(), audio.to_owned(),
        "-c:v".to_owned(), "copy".to_owned(), "-c:a".to_owned(), "aac".to_owned(), output.to_owned(),
    ];
    assert(args@.len() == 10);
    assert(views(args@) =~= mux_args_spec(video@, audio@, output@));
    args
}

} // verus!
