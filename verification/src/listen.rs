//! The `listen` command: its arguments, its screen's title and frame rate,
//! and the summary box printed when a session ends.

use vstd::prelude::*;

use crate::stt::SttGlobalArgs;
use crate::text::{byte_len, push_all, push_repeat, repeat, utf8_len};

verus! {

/// Where the listened audio comes from.
#[derive(Clone, Copy, Debug, PartialEq, Eq, Structural)]
pub enum AudioMode {
    /// Microphone and system audio.
    Dual,
    /// A generated test signal.
    Mock,
}

/// Arguments of the `listen` command.
pub struct Args {
    pub stt: SttGlobalArgs,
    pub record: bool,
    pub audio: AudioMode,
}

/// Where a recording is kept.
#[derive(Clone, Copy, Debug, PartialEq, Eq, Structural)]
pub enum RecordingMode {
    Disk,
    Memory,
}

/// Recording to disk when `--record` was given, in memory otherwise.
pub fn recording_mode(record: bool) -> (r: RecordingMode)
    ensures
        r == (if record { RecordingMode::Disk } else { RecordingMode::Memory }),
{
    if record {
        RecordingMode::Disk
    } else {
        RecordingMode::Memory
    }
}

/// Milliseconds between frames: 33 while something animates, else 1000.
pub fn listen_frame_delay_ms(has_active_animations: bool) -> (r: u64)
    ensures
        r == (if has_active_animations { 33u64 } else { 1000u64 }),
{
    if has_active_animations {
        33
    } else {
        1000
    }
}

/// The terminal title: `char: {status} ({elapsed})`.
pub open spec fn listen_title_spec(status: Seq<char>, elapsed: Seq<char>) -> Seq<char> {
    "char: "@ + status + " ("@ + elapsed + ")"@
}

/// The terminal title of the listen screen, from its status and the elapsed
/// time already written as `hh:mm:ss`.
pub fn listen_title(status: &str, elapsed: &str) -> (r: String)
    ensures
        r@ == listen_title_spec(status@, elapsed@),
{
    let mut s = String::new();
    push_all(&mut s, "char: ");
    push_all(&mut s, status);
    push_all(&mut s, " (");
    push_all(&mut s, elapsed);
    push_all(&mut s, ")");
    s
}

// ---------------------------------------------------------------------------
// Exit summary
// ---------------------------------------------------------------------------

/// `Session   {id}`.
pub open spec fn session_line(id: Seq<char>) -> Seq<char> {
    "Session   "@ + id
}

/// `Duration  {elapsed}`.
pub open spec fn duration_line(elapsed: Seq<char>) -> Seq<char> {
    "Duration  "@ + elapsed
}

/// The label above the chat command.
pub open spec fn chat_label() -> Seq<char> {
    "Chat with this session:"@
}

/// The command that opens a chat on the session.
pub open spec fn chat_command(id: Seq<char>) -> Seq<char> {
    "char chat --session "@ + id + " --api-key <KEY> --model <MODEL>"@
}

pub open spec fn max_nat(a: nat, b: nat) -> nat {
    if a >= b {
        a
    } else {
        b
    }
}

/// The box's inner width: the longest of its four texts in bytes, plus 2.
pub open spec fn summary_width(id: Seq<char>, elapsed: Seq<char>) -> nat {
    max_nat(
        max_nat(utf8_len(session_line(id)), utf8_len(duration_line(elapsed))),
        max_nat(utf8_len(chat_label()), utf8_len(chat_command(id))),
    ) + 2
}

/// A horizontal rule of the box, between `left` and `right`.
pub open spec fn rule(left: char, right: char, width: nat) -> Seq<char> {
    "  "@.push(left) + repeat('─', width).push(right)
}

/// A row of the box: the text styled by `style` (ANSI codes), after one
/// space and padded with spaces to the inner width, counted in bytes.
pub open spec fn boxed_row(width: nat, style: Seq<char>, text: Seq<char>) -> Seq<char> {
    "  │ "@ + style + text + "\u{1b}[0m"@ + repeat(' ', (width - 1 - utf8_len(text)) as nat)
        + "│"@
}

/// The summary printed when a listen session ends, line by line (the first
/// and last lines are empty).
pub open spec fn exit_summary(id: Seq<char>, elapsed: Seq<char>) -> Seq<Seq<char>> {
    let w = summary_width(id, elapsed);
    seq![
        Seq::empty(),
        rule('╭', '╮', w),
        boxed_row(w, "\u{1b}[2m"@, session_line(id)),
        boxed_row(w, "\u{1b}[2m"@, duration_line(elapsed)),
        rule('├', '┤', w),
        boxed_row(w, "\u{1b}[2m"@, chat_label()),
        "  │"@ + repeat(' ', w) + "│"@,
        boxed_row(w, "\u{1b}[1m\u{1b}[36m"@, chat_command(id)),
        rule('╰', '╯', w),
        Seq::empty(),
    ]
}

fn rule_line(left: char, right: char, width: usize) -> (r: String)
    ensures
        r@ == rule(left, right, width as nat),
{
    let mut s = String::new();
    push_all(&mut s, "  ");
    crate::text::push_char(&mut s, left);
    let ghost head = s@;
    push_repeat(&mut s, '─', width);
    crate::text::push_char(&mut s, right);
    proof {
        assert(s@ =~= head + repeat('─', width as nat).push(right));
    }
    s
}

fn row_line(width: usize, style: &str, text: &str, text_len: usize) -> (r: String)
    requires
        text_len == utf8_len(text@),
        text_len + 2 <= width,
    ensures
        r@ == boxed_row(width as nat, style@, text@),
{
    let mut s = String::new();
    push_all(&mut s, "  │ ");
    push_all(&mut s, style);
    push_all(&mut s, text);
    push_all(&mut s, "\u{1b}[0m");
    push_repeat(&mut s, ' ', width - 1 - text_len);
    push_all(&mut s, "│");
    s
}

/// The lines printed when a listen session ends: a box with the session id,
/// its duration and the command to chat about it.
pub fn exit_summary_lines(session_id: &str, elapsed: &str) -> (r: Vec<String>)
    requires
        utf8_len(session_id@) + 512 <= usize::MAX,
        utf8_len(elapsed@) + 512 <= usize::MAX,
    ensures
        r@.len() == exit_summary(session_id@, elapsed@).len(),
        forall|i: int|
            0 <= i < r@.len() ==> (#[trigger] r@[i])@ == exit_summary(session_id@, elapsed@)[i],
{
    let mut session = String::new();
    push_all(&mut session, "Session   ");
    push_all(&mut session, session_id);
    let mut duration = String::new();
    push_all(&mut duration, "Duration  ");
    push_all(&mut duration, elapsed);
    let label = "Chat with this session:";
    let mut chat = String::new();
    push_all(&mut chat, "char chat --session ");
    push_all(&mut chat, session_id);
    push_all(&mut chat, " --api-key <KEY> --model <MODEL>");
    proof {
        reveal_strlit("Session   ");
        reveal_strlit("Duration  ");
        reveal_strlit("Chat with this session:");
        reveal_strlit("char chat --session ");
        reveal_strlit(" --api-key <KEY> --model <MODEL>");
        crate::text::lemma_utf8_len_concat("Session   "@, session_id@);
        crate::text::lemma_utf8_len_concat("Duration  "@, elapsed@);
        crate::text::lemma_utf8_len_concat("char chat --session "@, session_id@);
        crate::text::lemma_utf8_len_concat(
            "char chat --session "@ + session_id@,
            " --api-key <KEY> --model <MODEL>"@,
        );
        crate::text::lemma_utf8_len_bounds("Session   "@);
        crate::text::lemma_utf8_len_bounds("Duration  "@);
        crate::text::lemma_utf8_len_bounds("Chat with this session:"@);
        crate::text::lemma_utf8_len_bounds("char chat --session "@);
        crate::text::lemma_utf8_len_bounds(" --api-key <KEY> --model <MODEL>"@);
        assert(session@ =~= session_line(session_id@));
        assert(duration@ =~= duration_line(elapsed@));
        assert(chat@ =~= chat_command(session_id@));
    }
    let session_len = byte_len(session.as_str());
    let duration_len = byte_len(duration.as_str());
    let label_len = byte_len(label);
    let chat_len = byte_len(chat.as_str());
    let mut widest = session_len;
    if duration_len > widest {
        widest = duration_len;
    }
    if label_len > widest {
        widest = label_len;
    }
    if chat_len > widest {
        widest = chat_len;
    }
    let width = widest + 2;
    proof {
        assert(width == summary_width(session_id@, elapsed@));
    }
    let mut empty_row = String::new();
    push_all(&mut empty_row, "  │");
    push_repeat(&mut empty_row, ' ', width);
    push_all(&mut empty_row, "│");
    let mut lines: Vec<String> = Vec::new();
    lines.push(String::new());
    lines.push(rule_line('╭', '╮', width));
    lines.push(row_line(width, "\u{1b}[2m", session.as_str(), session_len));
    lines.push(row_line(width, "\u{1b}[2m", duration.as_str(), duration_len));
    lines.push(rule_line('├', '┤', width));
    lines.push(row_line(width, "\u{1b}[2m", label, label_len));
    lines.push(empty_row);
    lines.push(row_line(width, "\u{1b}[1m\u{1b}[36m", chat.as_str(), chat_len));
    lines.push(rule_line('╰', '╯', width));
    lines.push(String::new());
    proof {
        reveal_strlit("");
        assert(""@ =~= Seq::<char>::empty());
        let e = exit_summary(session_id@, elapsed@);
        assert(lines@[0]@ == e[0]);
        assert(lines@[9]@ == e[9]);
    }
    lines
}

} // verus!
