//! The `batch` command's bookkeeping while a file is transcribed: the
//! progress shown, the responses and failure collected from the events,
//! the result it ends with, and the summary line printed afterwards.
//!
//! Responses are a type parameter: only where they go is decided here.

use vstd::prelude::*;

use crate::error::CliError;
use crate::text::{owned, push_all};

verus! {

/// An event of a batch transcription.
pub enum BatchEvent<R> {
    Started,
    Completed,
    /// A partial response, with the share of the file done so far in percent
    /// (rounded and limited to 0..=100 by the caller).
    Streamed { percent: i8, response: R },
    /// The final response.
    Response(R),
    /// The transcription failed: its error code, as text, and message.
    Failed { code: String, error: String },
}

/// What the batch command has gathered from the events so far.
pub struct BatchRun<R> {
    pub show_progress: bool,
    pub last_percent: i8,
    pub response: Option<R>,
    pub streamed: Vec<R>,
    pub failure: Option<(String, String)>,
}

/// The progress position an event sets, if any.
pub open spec fn progress_of<R>(run: BatchRun<R>, event: BatchEvent<R>) -> Option<u64> {
    if !run.show_progress {
        None
    } else {
        match event {
            BatchEvent::Started => Some(0u64),
            BatchEvent::Completed => Some(100u64),
            BatchEvent::Streamed { percent, .. } => if percent == run.last_percent {
                None
            } else {
                Some(percent as u64)
            },
            _ => None,
        }
    }
}

impl<R> BatchRun<R> {
    /// Nothing gathered yet; the last percent shown is -1, so any first percent shows.
    pub fn new(show_progress: bool) -> (r: Self)
        ensures
            r.show_progress == show_progress,
            r.last_percent == -1,
            r.response is None,
            r.streamed@.len() == 0,
            r.failure is None,
    {
        BatchRun {
            show_progress,
            last_percent: -1,
            response: None,
            streamed: Vec::new(),
            failure: None,
        }
    }

    /// Takes an event; returns the progress position to show, if it changes.
    pub fn on_event(&mut self, event: BatchEvent<R>) -> (position: Option<u64>)
        requires
            event matches BatchEvent::Streamed { percent, .. } ==> 0 <= percent <= 100,
        ensures
            position == progress_of(*old(self), event),
            final(self).show_progress == old(self).show_progress,
            final(self).last_percent == (match event {
                BatchEvent::Streamed { percent, .. } => if old(self).show_progress {
                    percent
                } else {
                    old(self).last_percent
                },
                _ => old(self).last_percent,
            }),
            final(self).streamed@ == (match event {
                BatchEvent::Streamed { response, .. } => old(self).streamed@.push(response),
                _ => old(self).streamed@,
            }),
            final(self).response == (match event {
                BatchEvent::Response(r) => Some(r),
                _ => old(self).response,
            }),
            (event is Failed) ==> (final(self).failure matches Some((c, e)) && (event matches BatchEvent::Failed { code, error } && c@ == code@ && e@ == error@)),
            !(event is Failed) ==> final(self).failure == old(self).failure,
    {
        let show = self.show_progress;
        match event {
            BatchEvent::Started => if show {
                Some(0)
            } else {
                None
            },
            BatchEvent::Completed => if show {
                Some(100)
            } else {
                None
            },
            BatchEvent::Streamed { percent, response } => {
                self.streamed.push(response);
                if !show {
                    return None;
                }
                if percent == self.last_percent {
                    return None;
                }
                self.last_percent = percent;
                Some(percent as u64)
            },
            BatchEvent::Response(r) => {
                self.response = Some(r);
                None
            },
            BatchEvent::Failed { code, error } => {
                self.failure = Some((code, error));
                None
            },
        }
    }

    /// The error a failed transcription ends with: the failure reported by
    /// the events (`<code>: <message>`) if there was one, else the task's error.
    pub fn failure_error(&self, task_error: &str) -> (e: CliError)
        ensures
            e matches CliError::OperationFailed { action, reason } && action@ == "batch transcription"@
                && reason@ == (match self.failure {
                    Some((code, message)) => code@ + ": "@ + message@,
                    None => task_error@,
                }),
    {
        let mut reason = String::new();
        match &self.failure {
            Some((code, message)) => {
                push_all(&mut reason, code.as_str());
                push_all(&mut reason, ": ");
                push_all(&mut reason, message.as_str());
            },
            None => push_all(&mut reason, task_error),
        }
        proof {
            reveal_strlit("");
        }
        CliError::operation_failed("batch transcription", reason.as_str())
    }
}

/// The result a finished transcription ends with: the final response, else
/// the one rebuilt from the streamed parts, else an error.
pub fn final_response<R>(response: Option<R>, from_streams: Option<R>) -> (r: Result<R, CliError>)
    ensures
        response matches Some(x) ==> r matches Ok(y) && y == x,
        response is None ==> (from_streams matches Some(x) ==> r matches Ok(y) && y == x),
        response is None ==> (from_streams is None ==> (r matches Err(CliError::OperationFailed { action, reason })
            && action@ == "batch transcription"@ && reason@ == "completed without a final response"@)),
{
    match response {
        Some(x) => Ok(x),
        None => match from_streams {
            Some(x) => Ok(x),
            None => Err(
                CliError::operation_failed(
                    "batch transcription",
                    "completed without a final response",
                ),
            ),
        },
    }
}

/// The dimmed line printed after a transcription: the audio's length (when
/// known and positive), the time taken, and the output file, joined by `, `.
pub open spec fn summary_text(
    audio_secs: Option<Seq<char>>,
    elapsed_secs: Seq<char>,
    output: Option<Seq<char>>,
) -> Seq<char> {
    let audio = match audio_secs {
        Some(a) => a + "s audio, "@,
        None => Seq::empty(),
    };
    let out = match output {
        Some(p) => ", -> "@ + p,
        None => Seq::empty(),
    };
    "\u{1b}[2m"@ + audio + "in "@ + elapsed_secs + "s"@ + out + "\u{1b}[0m"@
}

/// The line printed after a transcription; the numbers come already
/// written with one decimal.
pub fn summary_line(audio_secs: Option<&str>, elapsed_secs: &str, output: Option<&str>) -> (r: String)
    ensures
        r@ == summary_text(
            match audio_secs {
                Some(a) => Some(a@),
                None => None,
            },
            elapsed_secs@,
            match output {
                Some(p) => Some(p@),
                None => None,
            },
        ),
{
    let mut s = owned("\u{1b}[2m");
    match audio_secs {
        Some(a) => {
            push_all(&mut s, a);
            push_all(&mut s, "s audio, ");
        },
        None => {},
    }
    push_all(&mut s, "in ");
    push_all(&mut s, elapsed_secs);
    push_all(&mut s, "s");
    match output {
        Some(p) => {
            push_all(&mut s, ", -> ");
            push_all(&mut s, p);
        },
        None => {},
    }
    push_all(&mut s, "\u{1b}[0m");
    proof {
        reveal_strlit("");
    }
    s
}

} // verus!
