//! Streaming a chat answer: the text chunks handed to the caller while a
//! model streams, and what is handed and returned when the stream ends with
//! (or without) a final response. Also the title generated for a chat.

use vstd::prelude::*;

use crate::error::CliError;
use crate::text::{
    chars_eq, chars_of, owned, push_all, slice_range, starts_with, starts_with_exec, string_of,
    string_of_range, trim, trim_chars,
};

verus! {

/// The state of a streamed answer: the text streamed so far and the last
/// final response received.
pub struct TextStream {
    accumulated: String,
    final_response: Option<String>,
}

/// How a stream ends: one more chunk to hand out, if any, and the answer.
pub struct StreamEnd {
    pub extra_chunk: Option<String>,
    pub result: Option<String>,
}

/// How a stream that streamed `acc` and received the final response `fin` ends.
pub open spec fn stream_end(acc: Seq<char>, fin: Option<Seq<char>>) -> (
    Option<Seq<char>>,
    Option<Seq<char>>,
) {
    match fin {
        Some(f) if f.len() > 0 => (
            if acc.len() == 0 {
                Some(f)
            } else if starts_with(f, acc) && f.len() > acc.len() {
                Some(f.skip(acc.len() as int))
            } else {
                None
            },
            Some(f),
        ),
        _ => (
            None,
            if acc.len() > 0 {
                Some(acc)
            } else {
                None
            },
        ),
    }
}

/// The view of an optional string.
pub open spec fn ov(o: Option<String>) -> Option<Seq<char>> {
    match o {
        Some(s) => Some(s@),
        None => None,
    }
}

impl TextStream {
    /// The text streamed so far.
    pub closed spec fn accumulated(&self) -> Seq<char> {
        self.accumulated@
    }

    /// The final response received, if any.
    pub closed spec fn final_response(&self) -> Option<Seq<char>> {
        ov(self.final_response)
    }

    /// A stream that has streamed nothing.
    pub fn new() -> (r: TextStream)
        ensures
            r.accumulated() == Seq::<char>::empty(),
            r.final_response() is None,
    {
        TextStream { accumulated: String::new(), final_response: None }
    }

    /// A text part arrived: it is handed out as a chunk and added to the text so far.
    pub fn on_text(&mut self, text: &str) -> (chunk: String)
        ensures
            chunk@ == text@,
            final(self).accumulated() == old(self).accumulated() + text@,
            final(self).final_response() == old(self).final_response(),
    {
        push_all(&mut self.accumulated, text);
        owned(text)
    }

    /// The final response arrived.
    pub fn on_final(&mut self, response: String)
        ensures
            final(self).accumulated() == old(self).accumulated(),
            final(self).final_response() == Some(response@),
    {
        self.final_response = Some(response);
    }

    /// How the stream ends: with a non-empty final response, the part of it
    /// not yet streamed is handed out (all of it when nothing was streamed)
    /// and it is the answer; otherwise the streamed text is the answer, if any.
    pub fn finish(&self) -> (r: StreamEnd)
        ensures
            ov(r.extra_chunk) == stream_end(self.accumulated(), self.final_response()).0,
            ov(r.result) == stream_end(self.accumulated(), self.final_response()).1,
    {
        let acc = chars_of(self.accumulated.as_str());
        match &self.final_response {
            Some(f) => {
                let fc = chars_of(f.as_str());
                if fc.len() > 0 {
                    let extra = if acc.len() == 0 {
                        Some(owned(f.as_str()))
                    } else if starts_with_exec(fc.as_slice(), acc.as_slice()) && fc.len()
                        > acc.len() {
                        let s = string_of_range(fc.as_slice(), acc.len(), fc.len());
                        proof {
                            assert(fc@.subrange(acc@.len() as int, fc@.len() as int) =~= fc@.skip(
                                acc@.len() as int,
                            ));
                        }
                        Some(s)
                    } else {
                        None
                    };
                    return StreamEnd { extra_chunk: extra, result: Some(owned(f.as_str())) };
                }
            },
            None => {},
        }
        StreamEnd {
            extra_chunk: None,
            result: if acc.len() > 0 {
                Some(owned(self.accumulated.as_str()))
            } else {
                None
            },
        }
    }
}

/// An item of a streamed chat answer.
pub enum StreamItem {
    /// A part of the answer's text.
    Text(String),
    /// The final response, with the whole answer.
    Final(String),
    /// Anything else the model streams (tool calls, reasoning).
    Other,
    /// The stream failed with this message.
    Error(String),
}

/// What the runner of a stream does next.
pub enum StreamStep {
    /// Hand this chunk to the caller, then go on.
    Hand(String),
    /// Read the next item.
    Continue,
    /// Stop with this error.
    Stop(CliError),
}

impl TextStream {
    /// Takes one item: text is streamed and handed out, the final response
    /// kept, other items skipped; an error stops the stream as a failed
    /// `chat stream`.
    pub fn on_item(&mut self, item: StreamItem) -> (step: StreamStep)
        ensures
            match item {
                StreamItem::Text(t) => (step matches StreamStep::Hand(c) && c@ == t@)
                    && final(self).accumulated() == old(self).accumulated() + t@
                    && final(self).final_response() == old(self).final_response(),
                StreamItem::Final(r) => step is Continue && final(self).accumulated()
                    == old(self).accumulated() && final(self).final_response() == Some(r@),
                StreamItem::Other => step is Continue && final(self).accumulated()
                    == old(self).accumulated() && final(self).final_response()
                    == old(self).final_response(),
                StreamItem::Error(m) => (step matches StreamStep::Stop(CliError::OperationFailed { action, reason })
                    && action@ == "chat stream"@ && reason@ == m@) && final(self).accumulated()
                    == old(self).accumulated() && final(self).final_response()
                    == old(self).final_response(),
            },
    {
        match item {
            StreamItem::Text(t) => StreamStep::Hand(self.on_text(t.as_str())),
            StreamItem::Final(r) => {
                self.on_final(r);
                StreamStep::Continue
            },
            StreamItem::Other => StreamStep::Continue,
            StreamItem::Error(m) => StreamStep::Stop(
                CliError::operation_failed("chat stream", m.as_str()),
            ),
        }
    }
}

/// After a chunk was handed to the caller: a chunk the caller refused stops
/// the stream with the caller's error.
pub fn after_hand(outcome: Result<(), CliError>) -> (step: StreamStep)
    ensures
        outcome is Ok ==> step is Continue,
        outcome matches Err(e) ==> (step matches StreamStep::Stop(e2) && e2 == e),
{
    match outcome {
        Ok(()) => StreamStep::Continue,
        Err(e) => StreamStep::Stop(e),
    }
}

/// Law: when the answer is the streamed text or extends it, the chunks
/// handed out (everything streamed, then the extra chunk) spell exactly the answer.
pub proof fn law_chunks_spell_answer(acc: Seq<char>, fin: Option<Seq<char>>)
    requires
        stream_end(acc, fin).1 matches Some(r) && starts_with(r, acc),
    ensures
        acc + (match stream_end(acc, fin).0 {
            Some(x) => x,
            None => Seq::empty(),
        }) == stream_end(acc, fin).1->0,
{
    let r = stream_end(acc, fin).1->0;
    match fin {
        Some(f) if f.len() > 0 => {
            if acc.len() == 0 {
                assert(acc + f =~= f);
            } else if f.len() > acc.len() {
                assert(acc + f.skip(acc.len() as int) =~= f);
            } else {
                assert(f.take(acc.len() as int) =~= f);
                assert(acc + Seq::<char>::empty() =~= f);
            }
        },
        _ => {
            assert(acc + Seq::<char>::empty() =~= acc);
        },
    }
}

/// The prompt that asks the model for a chat title.
pub open spec fn title_prompt_text(prompt: Seq<char>, response: Seq<char>) -> Seq<char> {
    "Generate a short title (3-5 words) for this conversation. Reply with ONLY the title, no quotes or punctuation.\n\nUser: "@
        + prompt + "\nAssistant: "@ + response
}

/// The prompt that asks the model for a chat title.
pub fn title_prompt(prompt: &str, response: &str) -> (r: String)
    ensures
        r@ == title_prompt_text(prompt@, response@),
{
    let mut s = owned(
        "Generate a short title (3-5 words) for this conversation. Reply with ONLY the title, no quotes or punctuation.\n\nUser: ",
    );
    push_all(&mut s, prompt);
    push_all(&mut s, "\nAssistant: ");
    push_all(&mut s, response);
    s
}

/// The title taken from the model's answer: the answer trimmed, if not blank.
pub fn title_from_answer(answer: Option<String>) -> (r: Option<String>)
    ensures
        ov(r) == (match ov(answer) {
            Some(a) => if trim(a).len() > 0 {
                Some(trim(a))
            } else {
                None
            },
            None => None,
        }),
{
    match answer {
        Some(a) => {
            let t = trim_chars(chars_of(a.as_str()).as_slice());
            if t.len() > 0 {
                Some(string_of(t.as_slice()))
            } else {
                None
            }
        },
        None => None,
    }
}

} // verus!
