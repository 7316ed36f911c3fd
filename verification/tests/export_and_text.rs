use fractal_synaesthesia::exporting::video_exporter_ffmpeg::{
    encoder_args, mux_args, ExportError, RawVideoFormat,
};
use fractal_synaesthesia::exporting::{
    frame_png_name, image_to_rgb24, video_only_file_name, ExportAction, ExportProgress, ExporterState,
};
use fractal_synaesthesia::text::{format_minutes_seconds, to_decimal, to_decimal_padded, to_decimal_two};

#[test]
fn rgb24_drops_alpha() {
    let rgba = vec![1, 2, 3, 4, 5, 6, 7, 8, 9, 10, 11, 12, 13, 14, 15, 16];
    assert_eq!(image_to_rgb24(&rgba, 2, 2), vec![1, 2, 3, 5, 6, 7, 9, 10, 11, 13, 14, 15]);
    assert_eq!(image_to_rgb24(&rgba, 1, 1), vec![1, 2, 3]);
    assert!(image_to_rgb24(&vec![], 0, 5).is_empty());
}

#[test]
fn frame_size_is_checked() {
    let format = RawVideoFormat::new(2, 2);
    assert_eq!(format.frame_len(), 12);
    assert_eq!(format.check_frame(12), Ok(()));
    assert_eq!(format.check_frame(11), Err(ExportError::IncorrectFrameSize));
    assert_eq!(format.check_frame(16), Err(ExportError::IncorrectFrameSize));
    // a format of any size can be made; only its frames' length is bounded
    let huge = RawVideoFormat::new(70_000, 70_000);
    assert_eq!((huge.width, huge.height), (70_000, 70_000));
}

#[test]
fn encoder_arguments() {
    let args = encoder_args(1920, 1080, 30, "out.mp4");
    assert_eq!(
        args,
        vec![
            "-y", "-f", "rawvideo", "-pixel_format", "rgb24", "-video_size", "1920x1080",
            "-framerate", "30", "-i", "-", "-c:v", "libx264", "-pix_fmt", "yuv420p", "out.mp4",
        ]
    );
}

#[test]
fn mux_arguments() {
    assert_eq!(
        mux_args("v.mp4", "a.wav", "o.mp4"),
        vec!["-y", "-i", "v.mp4", "-i", "a.wav", "-c:v", "copy", "-c:a", "aac", "o.mp4"]
    );
}

#[test]
fn export_walks_through_frames() {
    let mut p = ExportProgress::new(0);
    assert_eq!(p.update_action(2, false), ExportAction::Start);
    p.frame_started();
    assert_eq!(p.update_action(2, false), ExportAction::Wait);
    assert_eq!(p.update_action(2, true), ExportAction::SaveAndStartNext);
    p.frame_rendered();
    p.frame_saved();
    assert_eq!(p.current_frame(), 1);
    assert_eq!(p.update_action(2, true), ExportAction::Start);
    p.frame_started();
    p.frame_rendered();
    p.frame_saved();
    assert_eq!(p.update_action(2, false), ExportAction::Finish);
    assert_eq!(p.state(), ExporterState::RenderingFrames);
    p.begin_finish();
    assert_eq!(p.state(), ExporterState::EncodingVideo);
    assert!(!p.finished());
    p.advance_phase();
    assert_eq!(p.state(), ExporterState::MuxingAudio);
    p.advance_phase();
    assert_eq!(p.state(), ExporterState::Finished);
    // the clean-up has not succeeded yet
    assert!(!p.finished());
    p.mark_finished();
    assert!(p.finished());
    assert_eq!(p.state(), ExporterState::Finished);
    assert_eq!(p.update_action(2, false), ExportAction::Idle);
    p.advance_phase();
    assert_eq!(p.state(), ExporterState::Finished);
    assert!(p.finished());
}

#[test]
fn failed_finish_is_retried_from_encoding() {
    let mut p = ExportProgress::new(3);
    assert_eq!(p.update_action(3, false), ExportAction::Finish);
    p.begin_finish();
    p.advance_phase();
    // muxing failed: the export is not finished and finishing is retried
    assert_eq!(p.state(), ExporterState::MuxingAudio);
    assert_eq!(p.update_action(3, false), ExportAction::Finish);
    p.begin_finish();
    assert_eq!(p.state(), ExporterState::EncodingVideo);
    p.advance_phase();
    p.advance_phase();
    // removing the video-only file failed: finished phase, not finished
    assert_eq!(p.state(), ExporterState::Finished);
    assert!(!p.finished());
    assert_eq!(p.update_action(3, false), ExportAction::Finish);
    p.begin_finish();
    assert_eq!(p.state(), ExporterState::EncodingVideo);
    p.advance_phase();
    p.advance_phase();
    p.mark_finished();
    assert_eq!(p.update_action(3, false), ExportAction::Idle);
}

#[test]
fn export_from_later_frame() {
    let p = ExportProgress::new(5);
    assert_eq!(p.current_frame(), 5);
    assert_eq!(p.update_action(5, false), ExportAction::Finish);
    assert_eq!(p.update_action(6, false), ExportAction::Start);
}

#[test]
fn decimal_text() {
    assert_eq!(to_decimal(0), "0");
    assert_eq!(to_decimal(7), "7");
    assert_eq!(to_decimal(1080), "1080");
    assert_eq!(to_decimal(u64::MAX), u64::MAX.to_string());
    assert_eq!(to_decimal_two(5), "05");
    assert_eq!(to_decimal_two(42), "42");
    assert_eq!(to_decimal_two(123), "123");
}

#[test]
fn minutes_and_seconds() {
    assert_eq!(format_minutes_seconds(0), "00:00");
    assert_eq!(format_minutes_seconds(187), "03:07");
    assert_eq!(format_minutes_seconds(3599), "59:59");
    assert_eq!(format_minutes_seconds(6000), "100:00");
}

#[test]
fn padded_decimals() {
    assert_eq!(to_decimal_padded(7, 3), "007");
    assert_eq!(to_decimal_padded(0, 5), "00000");
    assert_eq!(to_decimal_padded(1234, 2), "1234");
    assert_eq!(to_decimal_padded(99, 0), "99");
}

#[test]
fn intermediate_frame_names() {
    assert_eq!(frame_png_name(42), "frame_00042.png");
    assert_eq!(frame_png_name(0), "frame_00000.png");
    assert_eq!(frame_png_name(123456), "frame_123456.png");
    assert_ne!(frame_png_name(1), frame_png_name(10));
}

#[test]
fn video_only_names() {
    assert_eq!(video_only_file_name("output"), "output_video_only.mp4");
    assert_eq!(video_only_file_name(""), "_video_only.mp4");
}
