//! Live transcripts per audio channel: confirmed segments and the current
//! partial text, how a transcript update is routed to a channel, how the
//! printed transcript is kept within the terminal's width, and the debug
//! screen's scrolling.

use vstd::prelude::*;

use crate::entry::{Key, KeyCode};
use crate::text::{chars_eq, chars_of, owned, push_all, string_clone, utf8_len, utf8_width_exec};

verus! {

/// The sample rate audio is sent at.
pub const DEFAULT_SAMPLE_RATE: u32 = 16_000;

/// How long a transcription stream is read before it is finalized, in seconds.
pub const DEFAULT_TIMEOUT_SECS: u64 = 600;

/// Which side of a call a channel carries.
#[derive(Clone, Copy, Debug, PartialEq, Eq, Structural)]
pub enum ChannelKind {
    Mic,
    Speaker,
}

/// Whether one channel or both are shown.
#[derive(Clone, Copy, Debug, PartialEq, Eq, Structural)]
pub enum DisplayMode {
    Single(ChannelKind),
    Dual,
}

/// Where audio comes from.
#[derive(Clone, Copy, Debug, PartialEq, Eq, Structural)]
pub enum AudioSource {
    Input,
    Output,
    RawDual,
    AecDual,
}

/// The audio arguments of the transcription examples.
pub struct AudioArgs {
    pub audio: AudioSource,
}

impl AudioSource {
    /// Whether both microphone and speaker are captured.
    pub fn is_dual(&self) -> (r: bool)
        ensures
            r == (*self == AudioSource::RawDual || *self == AudioSource::AecDual),
    {
        match self {
            AudioSource::RawDual | AudioSource::AecDual => true,
            _ => false,
        }
    }

    /// Whether echo cancellation is applied to the microphone.
    pub fn uses_aec(&self) -> (r: bool)
        ensures
            r == (*self == AudioSource::AecDual),
    {
        match self {
            AudioSource::AecDual => true,
            _ => false,
        }
    }

    /// The channel a single-channel source is shown as.
    pub fn single_kind(&self) -> (r: ChannelKind)
        requires
            !(*self == AudioSource::RawDual || *self == AudioSource::AecDual),
        ensures
            r == (if *self == AudioSource::Output {
                ChannelKind::Speaker
            } else {
                ChannelKind::Mic
            }),
    {
        match self {
            AudioSource::Output => ChannelKind::Speaker,
            _ => ChannelKind::Mic,
        }
    }

    /// The name a single-channel source is printed as.
    pub fn single_name(&self) -> (r: &'static str)
        requires
            !(*self == AudioSource::RawDual || *self == AudioSource::AecDual),
        ensures
            r@ == (if *self == AudioSource::Output {
                "output"@
            } else {
                "input"@
            }),
    {
        match self {
            AudioSource::Output => "output",
            _ => "input",
        }
    }

    /// The name a dual source is printed as, and its echo-cancellation label.
    pub fn dual_names(&self) -> (r: (&'static str, &'static str))
        requires
            *self == AudioSource::RawDual || *self == AudioSource::AecDual,
        ensures
            *self == AudioSource::RawDual ==> r.0@ == "raw-dual"@ && r.1@ == "disabled"@,
            *self == AudioSource::AecDual ==> r.0@ == "aec-dual"@ && r.1@ == "enabled"@,
    {
        match self {
            AudioSource::AecDual => ("aec-dual", "enabled"),
            _ => ("raw-dual", "disabled"),
        }
    }
}

/// The channel an update goes to: the only one, or for two channels the
/// first channel index clamped to 0 or 1 (0 when none is given).
pub open spec fn channel_for(mode: DisplayMode, channel_index: Option<i32>) -> int {
    match mode {
        DisplayMode::Single(_) => 0,
        DisplayMode::Dual => match channel_index {
            Some(i) => if i <= 0 {
                0
            } else {
                1
            },
            None => 0,
        },
    }
}

/// The channel an update goes to.
pub fn pick_channel(mode: DisplayMode, channel_index: Option<i32>) -> (r: usize)
    ensures
        r == channel_for(mode, channel_index),
{
    match mode {
        DisplayMode::Single(_) => 0,
        DisplayMode::Dual => match channel_index {
            Some(i) => if i <= 0 {
                0
            } else {
                1
            },
            None => 0,
        },
    }
}

/// The strings of a sequence, viewed.
pub open spec fn seqs_view(v: Seq<String>) -> Seq<Seq<char>> {
    v.map_values(|s: String| s@)
}

/// Segments joined with single spaces.
pub open spec fn join_spaced(v: Seq<Seq<char>>) -> Seq<char>
    decreases v.len(),
{
    if v.len() == 0 {
        Seq::empty()
    } else if v.len() == 1 {
        v[0]
    } else {
        join_spaced(v.drop_last()) + " "@ + v.last()
    }
}

/// Joins strings with single spaces.
pub fn join_with_spaces(v: &Vec<String>) -> (r: String)
    ensures
        r@ == join_spaced(seqs_view(v@)),
{
    let mut s = String::new();
    let mut i: usize = 0;
    proof {
        assert(seqs_view(v@).take(0) =~= Seq::<Seq<char>>::empty());
    }
    while i < v.len()
        invariant
            i <= v.len(),
            s@ == join_spaced(seqs_view(v@).take(i as int)),
        decreases v.len() - i,
    {
        let ghost before = seqs_view(v@).take(i as int);
        if i > 0 {
            push_all(&mut s, " ");
        }
        push_all(&mut s, v[i].as_str());
        proof {
            let after = seqs_view(v@).take(i as int + 1);
            assert(after.drop_last() =~= before);
            assert(after.last() == v@[i as int]@);
            if i == 0 {
                assert(s@ =~= v@[0]@);
            }
        }
        i += 1;
    }
    proof {
        assert(seqs_view(v@).take(v.len() as int) =~= seqs_view(v@));
    }
    s
}

// ---------------------------------------------------------------------------
// One channel of the debug screen
// ---------------------------------------------------------------------------

/// The abstract state of a channel's transcript.
pub struct ChannelView {
    pub segments: Seq<Seq<char>>,
    pub partial: Seq<char>,
    pub kind: ChannelKind,
    pub last_confirmed: Option<Seq<char>>,
}

/// The transcript of one channel: confirmed segments and the partial text.
pub struct ChannelTranscript {
    segments: Vec<String>,
    partial: String,
    kind: ChannelKind,
    last_confirmed: Option<String>,
}

/// The view of an optional string.
pub open spec fn opt_str(o: Option<String>) -> Option<Seq<char>> {
    match o {
        Some(s) => Some(s@),
        None => None,
    }
}

impl View for ChannelTranscript {
    type V = ChannelView;

    closed spec fn view(&self) -> ChannelView {
        ChannelView {
            segments: seqs_view(self.segments@),
            partial: self.partial@,
            kind: self.kind,
            last_confirmed: opt_str(self.last_confirmed),
        }
    }
}

/// The channel after a final text: unchanged when it repeats the last
/// confirmed text, else the text becomes a segment and the partial is cleared.
pub open spec fn confirm_spec(c: ChannelView, text: Seq<char>) -> ChannelView {
    if c.last_confirmed == Some(text) {
        c
    } else {
        ChannelView {
            segments: c.segments.push(text),
            partial: Seq::empty(),
            last_confirmed: Some(text),
            ..c
        }
    }
}

impl ChannelTranscript {
    /// An empty transcript for a channel.
    pub fn new(kind: ChannelKind) -> (r: ChannelTranscript)
        ensures
            r@.segments.len() == 0,
            r@.partial.len() == 0,
            r@.kind == kind,
            r@.last_confirmed is None,
    {
        let r = ChannelTranscript {
            segments: Vec::new(),
            partial: String::new(),
            kind,
            last_confirmed: None,
        };
        proof {
            assert(r@.segments =~= Seq::<Seq<char>>::empty());
        }
        r
    }

    /// The text heard so far that may still change.
    pub fn set_partial(&mut self, text: &str)
        ensures
            final(self)@ == (ChannelView { partial: text@, ..old(self)@ }),
    {
        self.partial = owned(text);
    }

    /// A final text: appended as a segment unless it repeats the last one.
    pub fn confirm(&mut self, text: &str)
        ensures
            final(self)@ == confirm_spec(old(self)@, text@),
    {
        let same = match &self.last_confirmed {
            Some(l) => chars_eq(chars_of(l.as_str()).as_slice(), chars_of(text).as_slice()),
            None => false,
        };
        if same {
            return;
        }
        self.last_confirmed = Some(owned(text));
        let ghost before = self.segments@;
        self.segments.push(owned(text));
        self.partial = String::new();
        proof {
            assert(seqs_view(self.segments@) =~= seqs_view(before).push(text@));
            assert(self.partial@ =~= Seq::<char>::empty());
        }
    }

    /// The confirmed segments joined with spaces.
    pub fn confirmed_text(&self) -> (r: String)
        ensures
            r@ == join_spaced(self@.segments),
    {
        join_with_spaces(&self.segments)
    }

    /// The partial text.
    pub fn partial(&self) -> (r: String)
        ensures
            r@ == self@.partial,
    {
        string_clone(&self.partial)
    }

    /// The channel's kind.
    pub fn kind(&self) -> (r: ChannelKind)
        ensures
            r == self@.kind,
    {
        self.kind
    }

    /// The number of confirmed segments.
    pub fn segment_count(&self) -> (r: usize)
        ensures
            r == self@.segments.len(),
    {
        self.segments.len()
    }
}

/// Law: confirming a text twice in a row has the effect of confirming it once.
pub proof fn law_confirm_idempotent(c: ChannelView, text: Seq<char>)
    ensures
        confirm_spec(confirm_spec(c, text), text) == confirm_spec(c, text),
{
}

/// A transcript update read from a stream response.
pub struct TranscriptUpdate {
    pub is_final: bool,
    pub text: String,
    pub channel_index: Option<i32>,
}

/// The raw transcript of the debug screen: one transcript per channel.
pub struct RawState {
    channels: Vec<ChannelTranscript>,
}

/// The channels a display mode starts with.
pub open spec fn initial_kinds(mode: DisplayMode) -> Seq<ChannelKind> {
    match mode {
        DisplayMode::Single(k) => seq![k],
        DisplayMode::Dual => seq![ChannelKind::Mic, ChannelKind::Speaker],
    }
}

/// A channel that has heard nothing.
pub open spec fn is_fresh(c: ChannelView, kind: ChannelKind) -> bool {
    c.segments.len() == 0 && c.partial.len() == 0 && c.kind == kind && c.last_confirmed is None
}

impl View for RawState {
    type V = Seq<ChannelView>;

    closed spec fn view(&self) -> Seq<ChannelView> {
        self.channels@.map_values(|c: ChannelTranscript| c@)
    }
}

impl RawState {
    /// No channels yet.
    pub fn new() -> (r: RawState)
        ensures
            r@.len() == 0,
    {
        RawState { channels: Vec::new() }
    }

    /// The channels, in order.
    pub fn channels(&self) -> (r: &Vec<ChannelTranscript>)
        ensures
            r@.map_values(|c: ChannelTranscript| c@) == self@,
    {
        &self.channels
    }

    /// Creates the channels of the display mode if there are none yet.
    pub fn ensure_channels(&mut self, mode: DisplayMode)
        ensures
            old(self)@.len() > 0 ==> final(self)@ == old(self)@,
            old(self)@.len() == 0 ==> final(self)@.len() == initial_kinds(mode).len() && forall|
                i: int,
            |
                0 <= i < final(self)@.len() ==> is_fresh(
                    #[trigger] final(self)@[i],
                    initial_kinds(mode)[i],
                ),
    {
        if self.channels.len() > 0 {
            return;
        }
        match mode {
            DisplayMode::Single(k) => {
                self.channels.push(ChannelTranscript::new(k));
            },
            DisplayMode::Dual => {
                self.channels.push(ChannelTranscript::new(ChannelKind::Mic));
                self.channels.push(ChannelTranscript::new(ChannelKind::Speaker));
            },
        }
    }

    /// Applies a stream response: the channels are created if needed, then a
    /// transcript update is confirmed (final) or shown as partial on its channel.
    pub fn apply_response(&mut self, update: Option<TranscriptUpdate>, mode: DisplayMode)
        ensures
            ({
                let base = if old(self)@.len() > 0 {
                    old(self)@
                } else {
                    Seq::new(
                        initial_kinds(mode).len(),
                        |i: int|
                            ChannelView {
                                segments: Seq::empty(),
                                partial: Seq::empty(),
                                kind: initial_kinds(mode)[i],
                                last_confirmed: None,
                            },
                    )
                };
                match update {
                    None => final(self)@ == base,
                    Some(u) => {
                        let ch = channel_for(mode, u.channel_index);
                        if 0 <= ch < base.len() {
                            final(self)@ == base.update(
                                ch,
                                if u.is_final {
                                    confirm_spec(base[ch], u.text@)
                                } else {
                                    ChannelView { partial: u.text@, ..base[ch] }
                                },
                            )
                        } else {
                            final(self)@ == base
                        }
                    },
                }
            }),
    {
        self.ensure_channels(mode);
        let ghost base = self@;
        proof {
            let expect = if old(self)@.len() > 0 {
                old(self)@
            } else {
                Seq::new(
                    initial_kinds(mode).len(),
                    |i: int|
                        ChannelView {
                            segments: Seq::empty(),
                            partial: Seq::empty(),
                            kind: initial_kinds(mode)[i],
                            last_confirmed: None,
                        },
                )
            };
            if old(self)@.len() == 0 {
                assert forall|i: int| 0 <= i < base.len() implies base[i] == expect[i] by {
                    assert(base[i].segments =~= Seq::<Seq<char>>::empty());
                    assert(base[i].partial =~= Seq::<char>::empty());
                }
            }
            assert(base =~= expect);
        }
        match update {
            None => {},
            Some(u) => {
                let ch = pick_channel(mode, u.channel_index);
                if ch < self.channels.len() {
                    let mut c = self.channels.remove(ch);
                    if u.is_final {
                        c.confirm(u.text.as_str());
                    } else {
                        c.set_partial(u.text.as_str());
                    }
                    self.channels.insert(ch, c);
                    proof {
                        assert(self@ =~= base.update(ch as int, c@));
                    }
                }
            },
        }
    }
}

// ---------------------------------------------------------------------------
// The printed transcript of the transcription examples
// ---------------------------------------------------------------------------

/// The length in bytes a segment takes on a line, with its separating space.
pub open spec fn line_cost(v: Seq<Seq<char>>) -> nat
    decreases v.len(),
{
    if v.len() == 0 {
        0
    } else {
        line_cost(v.drop_last()) + utf8_len(v.last()) + 1
    }
}

/// How many of the oldest segments are dropped so that the line fits:
/// two thirds of them once the segments and the partial text (each with a
/// separating space) are longer than `max_chars` bytes, else none.
pub open spec fn drain_count(segments: Seq<Seq<char>>, partial: Seq<char>, max_chars: nat) -> nat {
    let partial_cost = if partial.len() == 0 {
        0
    } else {
        utf8_len(partial) + 1
    };
    if line_cost(segments) + partial_cost > max_chars {
        segments.len() * 2 / 3
    } else {
        0
    }
}

/// The UTF-8 length of a string, as a wide integer.
fn utf8_len_wide(s: &str) -> (r: u128)
    ensures
        r == utf8_len(s@),
        r <= 4 * s@.len(),
        s@.len() <= usize::MAX,
{
    let cs = chars_of(s);
    let mut total: u128 = 0;
    let mut i: usize = 0;
    while i < cs.len()
        invariant
            i <= cs.len(),
            cs@ == s@,
            total == utf8_len(cs@.take(i as int)),
            total <= 4 * i,
        decreases cs.len() - i,
    {
        proof {
            assert(cs@.take(i as int + 1).drop_last() =~= cs@.take(i as int));
        }
        total = total + utf8_width_exec(cs[i]) as u128;
        i += 1;
    }
    proof {
        assert(cs@.take(cs.len() as int) =~= cs@);
    }
    total
}

/// A transcript printed line by line as it grows.
pub struct Transcript {
    segments: Vec<String>,
    partial: String,
    kind: ChannelKind,
}

/// The abstract state of a printed transcript.
pub struct TranscriptView {
    pub segments: Seq<Seq<char>>,
    pub partial: Seq<char>,
    pub kind: ChannelKind,
}

impl View for Transcript {
    type V = TranscriptView;

    closed spec fn view(&self) -> TranscriptView {
        TranscriptView { segments: seqs_view(self.segments@), partial: self.partial@, kind: self.kind }
    }
}

impl Transcript {
    /// An empty transcript.
    pub fn new(kind: ChannelKind) -> (r: Transcript)
        ensures
            r@.segments.len() == 0,
            r@.partial.len() == 0,
            r@.kind == kind,
    {
        Transcript { segments: Vec::new(), partial: String::new(), kind }
    }

    /// The text heard so far that may still change.
    pub fn set_partial(&mut self, text: &str)
        ensures
            final(self)@ == (TranscriptView { partial: text@, ..old(self)@ }),
    {
        self.partial = owned(text);
    }

    /// A final text: appended as a segment, the partial cleared, and the
    /// oldest segments dropped as `drain_count` says. Returns how many were dropped.
    pub fn confirm(&mut self, text: &str, max_chars: usize) -> (drained: usize)
        ensures
            drained == drain_count(old(self)@.segments.push(text@), Seq::empty(), max_chars as nat),
            final(self)@.segments == old(self)@.segments.push(text@).skip(drained as int),
            final(self)@.partial.len() == 0,
            final(self)@.kind == old(self)@.kind,
    {
        let ghost before = self.segments@;
        self.segments.push(owned(text));
        self.partial = String::new();
        proof {
            assert(seqs_view(self.segments@) =~= seqs_view(before).push(text@));
            assert(self.partial@ =~= Seq::<char>::empty());
        }
        let n = self.trim(max_chars);
        n
    }

    /// Drops the oldest segments as `drain_count` says.
    fn trim(&mut self, max_chars: usize) -> (drained: usize)
        ensures
            drained == drain_count(old(self)@.segments, old(self)@.partial, max_chars as nat),
            final(self)@ == (TranscriptView {
                segments: old(self)@.segments.skip(drained as int),
                ..old(self)@
            }),
    {
        let partial_cost: u128 = if self.partial.as_str().is_empty() {
            0
        } else {
            utf8_len_wide(self.partial.as_str()) + 1
        };
        // The cost is counted up to a cap far above any `usize`, which
        // decides the comparison with `max_chars` as the exact cost would.
        let cap: u128 = 0x10_0000_0000_0000_0000_0000_0000;
        let mut total: u128 = 0;
        let mut i: usize = 0;
        while i < self.segments.len()
            invariant
                cap == 0x10_0000_0000_0000_0000_0000_0000,
                i <= self.segments.len(),
                total == (if line_cost(seqs_view(self.segments@).take(i as int)) < cap {
                    line_cost(seqs_view(self.segments@).take(i as int))
                } else {
                    cap as nat
                }),
            decreases self.segments.len() - i,
        {
            let w = utf8_len_wide(self.segments[i].as_str());
            proof {
                assert(seqs_view(self.segments@).take(i as int + 1).drop_last() =~= seqs_view(
                    self.segments@,
                ).take(i as int));
            }
            let t = total + w + 1;
            total = if t < cap {
                t
            } else {
                cap
            };
            i += 1;
        }
        proof {
            assert(seqs_view(self.segments@).take(self.segments.len() as int) =~= seqs_view(
                self.segments@,
            ));
        }
        let n = self.segments.len();
        if total + partial_cost > max_chars as u128 {
            let d = n / 3 * 2 + (n % 3) * 2 / 3;
            proof {
                assert(d == n * 2 / 3) by (nonlinear_arith)
                    requires
                        d == n / 3 * 2 + (n % 3) * 2 / 3,
                ;
            }
            let ghost before = self.segments@;
            let mut k: usize = 0;
            while k < d
                invariant
                    self.partial == old(self).partial,
                    self.kind == old(self).kind,
                    k <= d,
                    d <= n,
                    n == before.len(),
                    self.segments@ == before.skip(k as int),
                decreases d - k,
            {
                self.segments.remove(0);
                proof {
                    assert(self.segments@ =~= before.skip(k as int + 1));
                }
                k += 1;
            }
            proof {
                assert(seqs_view(self.segments@) =~= seqs_view(before).skip(d as int));
                assert(self@.segments =~= old(self)@.segments.skip(d as int));
            }
            d
        } else {
            proof {
                assert(seqs_view(self.segments@).skip(0) =~= seqs_view(self.segments@));
                assert(self@.segments =~= old(self)@.segments.skip(0));
            }
            0
        }
    }

    /// The confirmed segments joined with spaces.
    pub fn confirmed_text(&self) -> (r: String)
        ensures
            r@ == join_spaced(self@.segments),
    {
        join_with_spaces(&self.segments)
    }

    /// The partial text.
    pub fn partial(&self) -> (r: String)
        ensures
            r@ == self@.partial,
    {
        string_clone(&self.partial)
    }

    /// The channel's kind.
    pub fn kind(&self) -> (r: ChannelKind)
        ensures
            r == self@.kind,
    {
        self.kind
    }
}

/// Law: dropping old segments never drops the one just confirmed: after a
/// confirm, the newest segment is the confirmed text.
pub proof fn law_confirm_keeps_newest(segments: Seq<Seq<char>>, text: Seq<char>, max_chars: nat)
    ensures
        ({
            let all = segments.push(text);
            let d = drain_count(all, Seq::empty(), max_chars);
            d < all.len() && all.skip(d as int).last() == text
        }),
{
    let all = segments.push(text);
    assert(all.len() * 2 / 3 < all.len()) by (nonlinear_arith)
        requires
            all.len() >= 1,
    ;
}

/// `crossterm::terminal::size()`: the terminal's columns and rows, or `None`
/// when they cannot be read. Nothing is promised of the values: they are the terminal's.
#[verifier::external_body]
fn terminal_size() -> (r: Option<(u16, u16)>) {
    crossterm::terminal::size().ok()
}

/// The width, in bytes, the printed transcript is kept within for a
/// terminal of `size` (columns, rows): the columns less 70 for the prefix
/// (0 if narrower), or 120 when the size is unknown.
pub open spec fn transcript_width(size: Option<(u16, u16)>) -> int {
    match size {
        Some((cols, _)) => if cols >= 70 {
            cols - 70
        } else {
            0
        },
        None => 120,
    }
}

/// The width the printed transcript is kept within, for a terminal size.
pub fn transcript_chars_for(size: Option<(u16, u16)>) -> (r: usize)
    ensures
        r == transcript_width(size),
{
    match size {
        Some((cols, _rows)) => {
            if cols >= 70 {
                (cols - 70) as usize
            } else {
                0
            }
        },
        None => 120,
    }
}

/// The width the printed transcript is kept within, for the terminal this
/// process writes to, whatever size it reports.
pub fn max_transcript_chars() -> (r: usize)
    ensures
        exists|size: Option<(u16, u16)>| r == transcript_width(size),
{
    let size = terminal_size();
    let r = transcript_chars_for(size);
    proof {
        assert(r == transcript_width(size));
    }
    r
}

/// One channel of a transcription stream: its transcript and the last
/// final text, which a repeated final does not add again.
pub struct StreamChannel {
    pub transcript: Transcript,
    pub last_confirmed: Option<String>,
}

/// What a transcript update did to a stream channel.
pub enum StreamUpdate {
    /// A final text that repeats the last one was skipped.
    Skipped,
    /// A final text was confirmed; this many old segments were dropped.
    Confirmed(usize),
    /// The partial text was replaced.
    Partial,
}

impl StreamChannel {
    /// A channel that has heard nothing.
    pub fn new(kind: ChannelKind) -> (r: StreamChannel)
        ensures
            r.transcript@.segments.len() == 0,
            r.transcript@.partial.len() == 0,
            r.transcript@.kind == kind,
            r.last_confirmed is None,
    {
        StreamChannel { transcript: Transcript::new(kind), last_confirmed: None }
    }

    /// Applies a transcript update.
    pub fn apply(&mut self, is_final: bool, text: &str, max_chars: usize) -> (r: StreamUpdate)
        ensures
            is_final && opt_str(old(self).last_confirmed) == Some(text@) ==> r is Skipped
                && final(self).transcript@ == old(self).transcript@
                && opt_str(final(self).last_confirmed) == opt_str(old(self).last_confirmed),
            is_final && opt_str(old(self).last_confirmed) != Some(text@) ==> (r matches StreamUpdate::Confirmed(d)
                && d == drain_count(old(self).transcript@.segments.push(text@), Seq::empty(), max_chars as nat)
                && final(self).transcript@.segments == old(self).transcript@.segments.push(text@).skip(d as int)
                && final(self).transcript@.partial.len() == 0
                && opt_str(final(self).last_confirmed) == Some(text@)),
            !is_final ==> r is Partial
                && final(self).transcript@ == (TranscriptView { partial: text@, ..old(self).transcript@ })
                && opt_str(final(self).last_confirmed) == opt_str(old(self).last_confirmed),
            final(self).transcript@.kind == old(self).transcript@.kind,
    {
        if is_final {
            let same = match &self.last_confirmed {
                Some(l) => chars_eq(chars_of(l.as_str()).as_slice(), chars_of(text).as_slice()),
                None => false,
            };
            if same {
                return StreamUpdate::Skipped;
            }
            self.last_confirmed = Some(owned(text));
            let d = self.transcript.confirm(text, max_chars);
            StreamUpdate::Confirmed(d)
        } else {
            self.transcript.set_partial(text);
            StreamUpdate::Partial
        }
    }
}

// ---------------------------------------------------------------------------
// The debug transcription screen
// ---------------------------------------------------------------------------

/// Whether the debug screen shows raw transcripts or the rich transcript.
#[derive(Clone, Copy, Debug, PartialEq, Eq, Structural)]
pub enum TranscribeMode {
    Raw,
    Rich,
}

/// The text shown when there is no transcript: the stream's failure if it
/// failed, else that the stream ended.
pub fn placeholder_text(terminal_message: &Option<String>, mode: TranscribeMode) -> (r: String)
    ensures
        r@ == (match opt_str(*terminal_message) {
            Some(m) => m,
            None => if mode == TranscribeMode::Raw {
                "Stream ended."@
            } else {
                "Stream ended - no speech detected."@
            },
        }),
{
    match terminal_message {
        Some(m) => string_clone(m),
        None => match mode {
            TranscribeMode::Raw => owned("Stream ended."),
            TranscribeMode::Rich => owned("Stream ended - no speech detected."),
        },
    }
}

/// The screen's title.
pub fn screen_title(mode: TranscribeMode) -> (r: &'static str)
    ensures
        r@ == (if mode == TranscribeMode::Raw {
            "debug transcribe (raw)"@
        } else {
            "debug transcribe (rich)"@
        }),
{
    match mode {
        TranscribeMode::Raw => "debug transcribe (raw)",
        TranscribeMode::Rich => "debug transcribe (rich)",
    }
}

/// Milliseconds until the next frame: 50 for raw transcripts; for the rich
/// transcript 16 while words are fading in, else 100.
pub fn frame_delay_ms(mode: TranscribeMode, has_recent_words: bool) -> (r: u64)
    ensures
        r == (if mode == TranscribeMode::Raw {
            50u64
        } else if has_recent_words {
            16u64
        } else {
            100u64
        }),
{
    match mode {
        TranscribeMode::Raw => 50,
        TranscribeMode::Rich => if has_recent_words {
            16
        } else {
            100
        },
    }
}

/// The scrolling of the debug screen's transcript panel.
pub struct TranscriptScroll {
    pub offset: usize,
    pub max_scroll: usize,
    pub autoscroll: bool,
    pub stream_ended: bool,
}

impl TranscriptScroll {
    /// At the top, following new lines.
    pub fn new() -> (r: TranscriptScroll)
        ensures
            r.offset == 0 && r.max_scroll == 0 && r.autoscroll && !r.stream_ended,
    {
        TranscriptScroll { offset: 0, max_scroll: 0, autoscroll: true, stream_ended: false }
    }

    /// Handles a key; returns whether the screen should close (Ctrl+C or `q`).
    /// `j`/Down scroll one line down (following again at the bottom), `k`/Up
    /// one line up, `G` to the bottom and `g` to the top.
    pub fn handle_key(&mut self, key: Key) -> (quit: bool)
        ensures
            quit == ((key.ctrl && key.code == KeyCode::Char('c')) || key.code == KeyCode::Char('q')),
            final(self).max_scroll == old(self).max_scroll,
            final(self).stream_ended == old(self).stream_ended,
            !quit && (key.code == KeyCode::Char('j') || key.code == KeyCode::Down) ==> {
                let o = if old(self).offset + 1 < old(self).max_scroll {
                    old(self).offset + 1
                } else {
                    old(self).max_scroll as int
                };
                final(self).offset == o && final(self).autoscroll == (o >= old(self).max_scroll)
            },
            !quit && (key.code == KeyCode::Char('k') || key.code == KeyCode::Up)
                ==> final(self).offset == (if old(self).offset > 0 { old(self).offset - 1 } else { 0 })
                && !final(self).autoscroll,
            !quit && key.code == KeyCode::Char('G') ==> final(self).offset == old(self).max_scroll
                && final(self).autoscroll,
            !quit && key.code == KeyCode::Char('g') ==> final(self).offset == 0
                && !final(self).autoscroll,
            quit || !(key.code == KeyCode::Char('j') || key.code == KeyCode::Down || key.code
                == KeyCode::Char('k') || key.code == KeyCode::Up || key.code == KeyCode::Char('G')
                || key.code == KeyCode::Char('g')) ==> final(self).offset == old(self).offset
                && final(self).autoscroll == old(self).autoscroll,
    {
        if key.ctrl && key.code == KeyCode::Char('c') {
            return true;
        }
        match key.code {
            KeyCode::Char('q') => {
                return true;
            },
            KeyCode::Char('j') | KeyCode::Down => {
                let next = if self.offset < usize::MAX {
                    self.offset + 1
                } else {
                    usize::MAX
                };
                self.offset = if next < self.max_scroll {
                    next
                } else {
                    self.max_scroll
                };
                self.autoscroll = self.offset >= self.max_scroll;
            },
            KeyCode::Char('k') | KeyCode::Up => {
                self.offset = if self.offset > 0 {
                    self.offset - 1
                } else {
                    0
                };
                self.autoscroll = false;
            },
            KeyCode::Char('G') => {
                self.offset = self.max_scroll;
                self.autoscroll = true;
            },
            KeyCode::Char('g') => {
                self.offset = 0;
                self.autoscroll = false;
            },
            _ => {},
        }
        false
    }

    /// Before drawing: a following panel jumps to the bottom.
    pub fn follow(&mut self)
        ensures
            final(self).offset == (if old(self).autoscroll {
                old(self).max_scroll
            } else {
                old(self).offset
            }),
            final(self).max_scroll == old(self).max_scroll,
            final(self).autoscroll == old(self).autoscroll,
            final(self).stream_ended == old(self).stream_ended,
    {
        if self.autoscroll {
            self.offset = self.max_scroll;
        }
    }
}

/// The text shown in an empty transcript panel: the placeholder once the
/// stream ended, else that speech is awaited.
pub fn empty_panel_text(stream_ended: bool, placeholder: &str) -> (r: String)
    ensures
        r@ == (if stream_ended {
            placeholder@
        } else {
            "Waiting for speech..."@
        }),
{
    if stream_ended {
        owned(placeholder)
    } else {
        owned("Waiting for speech...")
    }
}

} // verus!
