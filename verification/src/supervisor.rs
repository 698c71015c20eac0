//! State transitions of the process supervisor: the shared run state, the
//! handling of each output line, and the translation of the child's exit
//! into a terminal status. The spawning, the stream reading and the threads
//! themselves live outside the library; they feed plain lines and the exit
//! outcome into these verified transitions.

use vstd::prelude::*;
use vstd::string::*;
use crate::parser::{parse_progress, spec_parse_progress};
use crate::quality::VideoQuality;
use crate::text::{spec_contains, str_contains};

verus! {

/// Progress at completion, in thousandths of a percent.
pub const FULL_PROGRESS: u64 = 100000;

/// A progress value capped at 100%.
pub open spec fn clamp_progress(v: u64) -> u64 {
    if v > FULL_PROGRESS {
        FULL_PROGRESS
    } else {
        v
    }
}

/// The status text a standard-output line leaves behind: phase markers
/// overwrite the previous status, any other line keeps it.
pub open spec fn spec_phase_status(line: Seq<char>, prev: Seq<char>) -> Seq<char> {
    if spec_contains(line, "[Merger]"@) {
        "Merging audio and video..."@
    } else if spec_contains(line, "[ExtractAudio]"@) {
        "Extracting audio..."@
    } else if spec_contains(line, "[ffmpeg]"@) && spec_contains(line, "Merging"@) {
        "Merging streams..."@
    } else if spec_contains(line, "[ffmpeg]"@) && spec_contains(line, "Converting"@) {
        "Converting to MP4..."@
    } else {
        prev
    }
}

/// The shared state of one download attempt: a status message, a progress
/// percentage and the in-progress flag. One value is live per attempt; the
/// presentation layer only reads it.
pub struct RunState {
    /// The textual status shown to the user.
    pub status: String,
    /// Progress in thousandths of a percent, between 0 and 100%.
    pub progress: u64,
    /// Whether a download is currently running.
    pub in_progress: bool,
}

impl RunState {
    /// The progress never exceeds 100%.
    pub open spec fn wf(self) -> bool {
        self.progress <= FULL_PROGRESS
    }

    /// The state before any download was requested.
    pub fn ready() -> (s: RunState)
        ensures
            s.status@ == "Ready"@,
            s.progress == 0,
            !s.in_progress,
            s.wf(),
    {
        RunState { status: String::from_str("Ready"), progress: 0, in_progress: false }
    }

    /// Accept or refuse a download request. An empty URL refuses the run:
    /// the status asks for a URL and the rest of the state is untouched.
    /// Otherwise the state is reset for a fresh attempt. Nothing here guards
    /// against a second request while one is in flight: updates are
    /// last-writer-wins, and the front-end is expected to disable its
    /// trigger while `in_progress` holds.
    pub fn begin(&mut self, url: &str) -> (started: bool)
        ensures
            started == (url@.len() > 0),
            started ==> final(self).status@ == "Starting download..."@ && final(self).progress
                == 0 && final(self).in_progress,
            !started ==> final(self).status@ == "Please enter a URL"@ && final(self).progress
                == old(self).progress && final(self).in_progress == old(self).in_progress,
            old(self).wf() ==> final(self).wf(),
    {
        if url.unicode_len() == 0 {
            self.status = String::from_str("Please enter a URL");
            return false;
        }
        self.status = String::from_str("Starting download...");
        self.progress = 0;
        self.in_progress = true;
        true
    }

    /// Note that the run is preparing its working files.
    pub fn mark_preparing(&mut self)
        ensures
            final(self).status@ == "Preparing..."@,
            final(self).progress == old(self).progress,
            final(self).in_progress == old(self).in_progress,
            old(self).wf() ==> final(self).wf(),
    {
        self.status = String::from_str("Preparing...");
    }

    /// Note that the child process is running and transfer has begun.
    pub fn mark_downloading(&mut self)
        ensures
            final(self).status@ == "Downloading..."@,
            final(self).progress == old(self).progress,
            final(self).in_progress == old(self).in_progress,
            old(self).wf() ==> final(self).wf(),
    {
        self.status = String::from_str("Downloading...");
    }

    /// End the run before the child ever ran, with a descriptive status.
    /// The in-progress flag is cleared so the interface is never left busy.
    pub fn fail_run(&mut self, message: &str)
        ensures
            final(self).status@ == message@,
            final(self).progress == old(self).progress,
            !final(self).in_progress,
            old(self).wf() ==> final(self).wf(),
    {
        self.status = String::from_str(message);
        self.in_progress = false;
    }

    /// End the run because the child process could not be launched, keeping
    /// the operating system's explanation.
    pub fn fail_launch(&mut self, error_text: &str)
        ensures
            final(self).status@ == "Failed to start yt-dlp: "@ + error_text@,
            final(self).progress == old(self).progress,
            !final(self).in_progress,
            old(self).wf() ==> final(self).wf(),
    {
        let mut s = String::from_str("Failed to start yt-dlp: ");
        s.append(error_text);
        self.status = s;
        self.in_progress = false;
    }

    /// Fold one standard-output line into the state: a recognized
    /// percentage updates the progress (capped at 100%), and a phase marker
    /// overwrites the status.
    pub fn observe_stdout(&mut self, line: &str)
        ensures
            final(self).progress == match spec_parse_progress(line@) {
                Some(v) => clamp_progress(v),
                None => old(self).progress,
            },
            final(self).status@ == spec_phase_status(line@, old(self).status@),
            final(self).in_progress == old(self).in_progress,
            old(self).wf() ==> final(self).wf(),
    {
        match parse_progress(line) {
            Some(v) => {
                self.progress = if v > FULL_PROGRESS {
                    FULL_PROGRESS
                } else {
                    v
                };
            },
            None => {},
        }
        if str_contains(line, "[Merger]") {
            self.status = String::from_str("Merging audio and video...");
        } else if str_contains(line, "[ExtractAudio]") {
            self.status = String::from_str("Extracting audio...");
        } else if str_contains(line, "[ffmpeg]") && str_contains(line, "Merging") {
            self.status = String::from_str("Merging streams...");
        } else if str_contains(line, "[ffmpeg]") && str_contains(line, "Converting") {
            self.status = String::from_str("Converting to MP4...");
        }
    }

    /// Fold the child's exit into the terminal state. Success forces the
    /// progress to 100%; a failure with a captured fatal line reports that
    /// line; a failure without one is downgraded to a soft success, a
    /// deliberate policy for noisy exit codes from post-processing steps;
    /// an operating-system error while waiting is reported as such. Every
    /// branch clears the in-progress flag.
    pub fn finish(&mut self, outcome: &WaitResult, errors: &ErrorCapture)
        ensures
            !final(self).in_progress,
            match *outcome {
                WaitResult::Exited { success } => {
                    if success {
                        final(self).status@ == "Download complete!"@
                            && final(self).progress == FULL_PROGRESS
                    } else if errors.has_error {
                        final(self).status@ == "Download failed: "@ + errors.message@
                            && final(self).progress == old(self).progress
                    } else {
                        final(self).status@ == "Download completed with warnings"@
                            && final(self).progress == FULL_PROGRESS
                    }
                },
                WaitResult::Failed { ref description } => final(self).status@ == "Process error: "@
                    + description@ && final(self).progress == old(self).progress,
            },
            old(self).wf() ==> final(self).wf(),
    {
        match outcome {
            WaitResult::Exited { success } => {
                if *success {
                    self.status = String::from_str("Download complete!");
                    self.progress = FULL_PROGRESS;
                } else if errors.has_error {
                    let mut s = String::from_str("Download failed: ");
                    s.append(errors.message.as_str());
                    self.status = s;
                } else {
                    self.status = String::from_str("Download completed with warnings");
                    self.progress = FULL_PROGRESS;
                }
            },
            WaitResult::Failed { description } => {
                let mut s = String::from_str("Process error: ");
                s.append(description.as_str());
                self.status = s;
            },
        }
        self.in_progress = false;
    }
}

/// How waiting for the child process ended: an exit (successful or not), or
/// an operating-system error from the wait itself.
pub enum WaitResult {
    Exited { success: bool },
    Failed { description: String },
}

/// The fatal-error candidate gathered from the child's standard error: the
/// last line seen that contains the marker `ERROR`.
pub struct ErrorCapture {
    /// Whether any fatal line was seen.
    pub has_error: bool,
    /// The last fatal line, when one was seen.
    pub message: String,
}

impl ErrorCapture {
    /// An empty capture: nothing fatal seen yet.
    pub fn new() -> (e: ErrorCapture)
        ensures
            !e.has_error,
            e.message@ == Seq::<char>::empty(),
    {
        ErrorCapture { has_error: false, message: String::new() }
    }

    /// Fold one standard-error line in: a line containing `ERROR` replaces
    /// the captured message, any other line is ignored.
    pub fn observe_stderr(&mut self, line: &str)
        ensures
            spec_contains(line@, "ERROR"@) ==> final(self).has_error && final(self).message@
                == line@,
            !spec_contains(line@, "ERROR"@) ==> *final(self) == *old(self),
    {
        if str_contains(line, "ERROR") {
            self.has_error = true;
            self.message = String::from_str(line);
        }
    }
}

/// The argument list handed to the external downloader for one request: the
/// URL, the format selection, the fixed output template, the forced MP4
/// container, the helper and remuxer locations, and line-buffered,
/// warning-suppressed progress output.
pub fn build_args(
    url: &str,
    quality: &VideoQuality,
    deno_path: &str,
    ffmpeg_path: &str,
) -> (args: Vec<String>)
    ensures
        args@.len() == 15,
        args@[0]@ == url@,
        args@[1]@ == "-f"@,
        args@[2]@ == quality.spec_format(),
        args@[3]@ == "-o"@,
        args@[4]@ == "%(title)s.%(ext)s"@,
        args@[5]@ == "--merge-output-format"@,
        args@[6]@ == "mp4"@,
        args@[7]@ == "--remux-video"@,
        args@[8]@ == "mp4"@,
        args@[9]@ == "--js-runtimes"@,
        args@[10]@ == "deno:"@ + deno_path@,
        args@[11]@ == "--ffmpeg-location"@,
        args@[12]@ == ffmpeg_path@,
        args@[13]@ == "--newline"@,
        args@[14]@ == "--no-warnings"@,
{
    let mut args: Vec<String> = Vec::new();
    args.push(String::from_str(url));
    args.push(String::from_str("-f"));
    args.push(quality.format_to_ytdlp());
    args.push(String::from_str("-o"));
    args.push(String::from_str("%(title)s.%(ext)s"));
    args.push(String::from_str("--merge-output-format"));
    args.push(String::from_str("mp4"));
    args.push(String::from_str("--remux-video"));
    args.push(String::from_str("mp4"));
    args.push(String::from_str("--js-runtimes"));
    let mut deno_arg = String::from_str("deno:");
    deno_arg.append(deno_path);
    args.push(deno_arg);
    args.push(String::from_str("--ffmpeg-location"));
    args.push(String::from_str(ffmpeg_path));
    args.push(String::from_str("--newline"));
    args.push(String::from_str("--no-warnings"));
    args
}

} // verus!
