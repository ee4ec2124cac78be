use tubu::cancellation::{combine_track_results, CancellableResult};
use tubu::tracks::{processed_message, track_file_name};
use tubu::mpd::ContentType;
use tubu::muxing::{
    copy_mux_args, encode_mux_args, tracking_step, FfmpegStatus, TrackingStep, OUTPUT_DIR,
    OUTPUT_FILE, SO_PATH,
};

#[test]
fn both_tracks_ok() {
    let v: CancellableResult<u8, &str> = Ok(1);
    let a: CancellableResult<u8, &str> = Ok(2);
    assert_eq!(combine_track_results(v, a), Ok((1, 2)));
}

#[test]
fn cancelled_track_cancels_all() {
    let r = combine_track_results::<u8, &str>(Err(Some("v")), Err(None));
    assert_eq!(r, Err(None));
    let r = combine_track_results::<u8, &str>(Err(None), Ok(3));
    assert_eq!(r, Err(None));
}

#[test]
fn errors_are_collected_video_first() {
    assert_eq!(combine_track_results::<u8, &str>(Err(Some("v")), Ok(1)), Err(Some(vec!["v"])));
    assert_eq!(combine_track_results::<u8, &str>(Ok(1), Err(Some("a"))), Err(Some(vec!["a"])));
    assert_eq!(
        combine_track_results::<u8, &str>(Err(Some("v")), Err(Some("a"))),
        Err(Some(vec!["v", "a"]))
    );
}

#[test]
fn track_names_and_messages() {
    assert_eq!(track_file_name(ContentType::VIDEO), "track_video.mp4");
    assert_eq!(track_file_name(ContentType::AUDIO), "track_audio.mp4");
    assert_eq!(processed_message(ContentType::AUDIO), "Processed audio segment");
}

#[test]
fn encode_args_reencode_video_and_copy_audio() {
    let args = encode_mux_args("outputs/v.mp4", "outputs/a.mp4", "outputs/output.mp4");
    let expected = [
        "-i", "outputs/v.mp4", "-i", "outputs/a.mp4", "-c:v", "libx264", "-preset", "veryslow",
        "-c:a", "copy", "-map", "0:v:0", "-map", "1:a:0", "-y", "outputs/output.mp4",
    ];
    assert_eq!(args, expected.iter().map(|s| s.to_string()).collect::<Vec<_>>());
}

#[test]
fn copy_args_copy_both_tracks() {
    let args = copy_mux_args("v", "a", "o");
    let expected = ["-i", "v", "-i", "a", "-c", "copy", "-map", "0:v:0", "-map", "1:a:0", "-y", "o"];
    assert_eq!(args, expected.iter().map(|s| s.to_string()).collect::<Vec<_>>());
}

#[test]
fn output_locations() {
    assert_eq!(OUTPUT_DIR, "outputs");
    assert_eq!(OUTPUT_FILE, "output.mp4");
    assert_eq!(SO_PATH, "./intercept/av_log_intercept.so");
}

#[test]
fn ffmpeg_tracking_steps() {
    assert!(matches!(tracking_step(FfmpegStatus::Exited), TrackingStep::Finish));
    assert!(matches!(tracking_step(FfmpegStatus::WaitFailed), TrackingStep::Fail));
    assert!(matches!(tracking_step(FfmpegStatus::Running(0)), TrackingStep::ShowFrames(t) if t == "0"));
    assert!(matches!(tracking_step(FfmpegStatus::Running(1207)), TrackingStep::ShowFrames(t) if t == "1207"));
}
