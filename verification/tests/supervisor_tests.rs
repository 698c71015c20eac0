//! Runtime checks of the supervisor transitions: simulated runs that feed
//! scripted output lines and exit outcomes into the verified state machine.

use ytdl_core::supervisor::build_args;
use ytdl_core::{ErrorCapture, RunState, VideoQuality, WaitResult};

#[test]
fn ready_state_is_idle() {
    let s = RunState::ready();
    assert_eq!(s.status, "Ready");
    assert_eq!(s.progress, 0);
    assert!(!s.in_progress);
}

#[test]
fn empty_url_never_starts() {
    let mut s = RunState::ready();
    let started = s.begin("");
    assert!(!started);
    assert_eq!(s.status, "Please enter a URL");
    assert!(!s.in_progress);
    assert_eq!(s.progress, 0);
}

#[test]
fn nonempty_url_starts_a_fresh_attempt() {
    let mut s = RunState::ready();
    s.progress = 70000;
    let started = s.begin("https://example.com/v");
    assert!(started);
    assert_eq!(s.status, "Starting download...");
    assert_eq!(s.progress, 0);
    assert!(s.in_progress);
}

#[test]
fn successful_run_forces_progress_to_100() {
    let mut s = RunState::ready();
    assert!(s.begin("https://example.com/v"));
    s.mark_preparing();
    assert_eq!(s.status, "Preparing...");
    s.mark_downloading();
    assert_eq!(s.status, "Downloading...");
    let errors = ErrorCapture::new();
    s.observe_stdout("[download] 50.0% of 10.00MiB at 1.00MiB/s ETA 00:05");
    assert_eq!(s.progress, 50000);
    s.finish(&WaitResult::Exited { success: true }, &errors);
    assert_eq!(s.status, "Download complete!");
    assert_eq!(s.progress, 100000);
    assert!(!s.in_progress);
}

#[test]
fn failed_run_reports_the_captured_error_line() {
    let mut s = RunState::ready();
    assert!(s.begin("https://example.com/v"));
    let mut errors = ErrorCapture::new();
    errors.observe_stderr("ERROR: network unreachable");
    s.finish(&WaitResult::Exited { success: false }, &errors);
    assert_eq!(s.status, "Download failed: ERROR: network unreachable");
    assert!(!s.in_progress);
}

#[test]
fn nonzero_exit_without_error_line_is_a_soft_success() {
    let mut s = RunState::ready();
    assert!(s.begin("https://example.com/v"));
    let errors = ErrorCapture::new();
    s.observe_stdout("[download] 93.1% of 10.00MiB at 1.00MiB/s ETA 00:01");
    s.finish(&WaitResult::Exited { success: false }, &errors);
    assert_eq!(s.status, "Download completed with warnings");
    assert_eq!(s.progress, 100000);
    assert!(!s.in_progress);
}

#[test]
fn wait_error_is_reported_as_a_process_error() {
    let mut s = RunState::ready();
    assert!(s.begin("https://example.com/v"));
    let errors = ErrorCapture::new();
    s.finish(
        &WaitResult::Failed { description: String::from("interrupted") },
        &errors,
    );
    assert_eq!(s.status, "Process error: interrupted");
    assert!(!s.in_progress);
}

#[test]
fn launch_failure_clears_the_busy_flag() {
    let mut s = RunState::ready();
    assert!(s.begin("https://example.com/v"));
    s.fail_launch("No such file or directory (os error 2)");
    assert_eq!(
        s.status,
        "Failed to start yt-dlp: No such file or directory (os error 2)"
    );
    assert!(!s.in_progress);
}

#[test]
fn fail_run_keeps_the_message_verbatim() {
    let mut s = RunState::ready();
    assert!(s.begin("https://example.com/v"));
    s.fail_run("Failed to extract ffmpeg: permission denied");
    assert_eq!(s.status, "Failed to extract ffmpeg: permission denied");
    assert!(!s.in_progress);
}

#[test]
fn merger_line_updates_status_and_progress() {
    let mut s = RunState::ready();
    assert!(s.begin("https://example.com/v"));
    s.observe_stdout("[Merger] Merging formats into \"x.mp4\"");
    assert_eq!(s.status, "Merging audio and video...");
    assert_eq!(s.progress, 99000);
}

#[test]
fn extract_audio_line_updates_status_only() {
    let mut s = RunState::ready();
    assert!(s.begin("https://example.com/v"));
    s.observe_stdout("[download] 40.0% of x");
    s.observe_stdout("[ExtractAudio] Destination: x.mp3");
    assert_eq!(s.status, "Extracting audio...");
    assert_eq!(s.progress, 40000);
}

#[test]
fn ffmpeg_merging_line_updates_status() {
    let mut s = RunState::ready();
    assert!(s.begin("https://example.com/v"));
    s.observe_stdout("[ffmpeg] Merging streams now");
    assert_eq!(s.status, "Merging streams...");
    assert_eq!(s.progress, 99500);
}

#[test]
fn ffmpeg_converting_line_updates_status() {
    let mut s = RunState::ready();
    assert!(s.begin("https://example.com/v"));
    s.observe_stdout("[ffmpeg] Converting video");
    assert_eq!(s.status, "Converting to MP4...");
    assert_eq!(s.progress, 99500);
}

#[test]
fn unrecognized_line_changes_nothing() {
    let mut s = RunState::ready();
    assert!(s.begin("https://example.com/v"));
    s.mark_downloading();
    s.observe_stdout("[download] 40.0% of x");
    s.observe_stdout("[info] Downloading webpage");
    assert_eq!(s.status, "Downloading...");
    assert_eq!(s.progress, 40000);
}

#[test]
fn progress_is_capped_at_100_percent() {
    let mut s = RunState::ready();
    assert!(s.begin("https://example.com/v"));
    s.observe_stdout("[download] 150.0% of x");
    assert_eq!(s.progress, 100000);
}

#[test]
fn stderr_without_error_marker_is_ignored() {
    let mut errors = ErrorCapture::new();
    errors.observe_stderr("WARNING: something benign");
    assert!(!errors.has_error);
    assert_eq!(errors.message, "");
}

#[test]
fn last_error_line_wins() {
    let mut errors = ErrorCapture::new();
    errors.observe_stderr("ERROR: first failure");
    errors.observe_stderr("some chatter");
    errors.observe_stderr("ERROR: second failure");
    assert!(errors.has_error);
    assert_eq!(errors.message, "ERROR: second failure");
}

#[test]
fn argument_list_is_exactly_the_fixed_invocation() {
    let args = build_args(
        "https://example.com/v",
        &VideoQuality::High1080p,
        "/tmp/deno",
        "/tmp/ffmpeg",
    );
    let expected: Vec<&str> = vec![
        "https://example.com/v",
        "-f",
        "bestvideo[height<=1080]+bestaudio/best[height<=1080]",
        "-o",
        "%(title)s.%(ext)s",
        "--merge-output-format",
        "mp4",
        "--remux-video",
        "mp4",
        "--js-runtimes",
        "deno:/tmp/deno",
        "--ffmpeg-location",
        "/tmp/ffmpeg",
        "--newline",
        "--no-warnings",
    ];
    assert_eq!(args.len(), expected.len());
    for (got, want) in args.iter().zip(expected.iter()) {
        assert_eq!(got, want);
    }
}
