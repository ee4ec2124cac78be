//! The ffmpeg command lines that join a video and an audio track.

use vstd::prelude::*;
use crate::text::{decimal_digits, string_views, zero_padded_decimal};

verus! {

/// The shared memory object through which ffmpeg reports its progress.
pub const TUBU_SHMEM_ID: &'static str = "/tubu_shared";

/// The library preloaded into ffmpeg to report the frames it has processed.
pub const SO_PATH: &'static str = "./intercept/av_log_intercept.so";

/// The directory that downloads and outputs go to.
pub const OUTPUT_DIR: &'static str = "outputs";

/// The name of the final video file inside the output directory.
pub const OUTPUT_FILE: &'static str = "output.mp4";

/// The arguments for ffmpeg that re-encode the video track (so that every
/// frame is processed and progress can be reported) and copy the audio.
pub open spec fn encode_args_spec(video: Seq<char>, audio: Seq<char>, out: Seq<char>) -> Seq<
    Seq<char>,
> {
    seq![
        "-i"@,
        video,
        "-i"@,
        audio,
        "-c:v"@,
        "libx264"@,
        "-preset"@,
        "veryslow"@,
        "-c:a"@,
        "copy"@,
        "-map"@,
        "0:v:0"@,
        "-map"@,
        "1:a:0"@,
        "-y"@,
        out,
    ]
}

/// The arguments for ffmpeg that copy both tracks into one file.
pub open spec fn copy_args_spec(video: Seq<char>, audio: Seq<char>, out: Seq<char>) -> Seq<
    Seq<char>,
> {
    seq!["-i"@, video, "-i"@, audio, "-c"@, "copy"@, "-map"@, "0:v:0"@, "-map"@, "1:a:0"@, "-y"@, out]
}

fn push_arg(args: &mut Vec<String>, a: &str)
    ensures
        string_views(final(args)@) == string_views(old(args)@).push(a@),
{
    let ghost before = args@;
    args.push(String::from_str(a));
    assert(string_views(args@) =~= string_views(before).push(a@));
}

/// The ffmpeg arguments that re-encode `video` and copy `audio` into `out`.
pub fn encode_mux_args(video: &str, audio: &str, out: &str) -> (args: Vec<String>)
    ensures
        string_views(args@) == encode_args_spec(video@, audio@, out@),
{
    let mut args: Vec<String> = Vec::new();
    assert(string_views(args@) =~= Seq::<Seq<char>>::empty());
    push_arg(&mut args, "-i");
    push_arg(&mut args, video);
    push_arg(&mut args, "-i");
    push_arg(&mut args, audio);
    push_arg(&mut args, "-c:v");
    push_arg(&mut args, "libx264");
    push_arg(&mut args, "-preset");
    push_arg(&mut args, "veryslow");
    push_arg(&mut args, "-c:a");
    push_arg(&mut args, "copy");
    push_arg(&mut args, "-map");
    push_arg(&mut args, "0:v:0");
    push_arg(&mut args, "-map");
    push_arg(&mut args, "1:a:0");
    push_arg(&mut args, "-y");
    push_arg(&mut args, out);
    assert(string_views(args@) =~= encode_args_spec(video@, audio@, out@));
    args
}

/// The ffmpeg arguments that copy `video` and `audio` into `out`.
pub fn copy_mux_args(video: &str, audio: &str, out: &str) -> (args: Vec<String>)
    ensures
        string_views(args@) == copy_args_spec(video@, audio@, out@),
{
    let mut args: Vec<String> = Vec::new();
    assert(string_views(args@) =~= Seq::<Seq<char>>::empty());
    push_arg(&mut args, "-i");
    push_arg(&mut args, video);
    push_arg(&mut args, "-i");
    push_arg(&mut args, audio);
    push_arg(&mut args, "-c");
    push_arg(&mut args, "copy");
    push_arg(&mut args, "-map");
    push_arg(&mut args, "0:v:0");
    push_arg(&mut args, "-map");
    push_arg(&mut args, "1:a:0");
    push_arg(&mut args, "-y");
    push_arg(&mut args, out);
    assert(string_views(args@) =~= copy_args_spec(video@, audio@, out@));
    args
}

/// What polling the running ffmpeg process found.
#[derive(Debug, Clone, Copy)]
pub enum FfmpegStatus {
    /// The process has exited.
    Exited,
    /// The process still runs and has reported `frames` processed frames.
    Running(u32),
    /// Waiting for the process failed.
    WaitFailed,
}

/// What to do after a poll of the ffmpeg process.
#[derive(Debug)]
pub enum TrackingStep {
    /// Stop polling and look at the exit status.
    Finish,
    /// Show this text as the number of processed frames, then poll again.
    ShowFrames(String),
    /// Stop with an error.
    Fail,
}

/// Decides what follows a poll of the ffmpeg process: stop once it has
/// exited, fail where waiting failed, and otherwise show the number of
/// frames processed so far, in decimal.
pub fn tracking_step(status: FfmpegStatus) -> (step: TrackingStep)
    ensures
        status is Exited ==> step is Finish,
        status is WaitFailed ==> step is Fail,
        status matches FfmpegStatus::Running(n) ==> (step matches TrackingStep::ShowFrames(t)
            && t@ == decimal_digits(n as nat)),
{
    match status {
        FfmpegStatus::Exited => TrackingStep::Finish,
        FfmpegStatus::Running(n) => TrackingStep::ShowFrames(zero_padded_decimal(n as usize, 0)),
        FfmpegStatus::WaitFailed => TrackingStep::Fail,
    }
}

} // verus!
