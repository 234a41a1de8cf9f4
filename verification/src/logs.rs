//! The debug screen's log panel: splitting a `tracing` fmt line
//! (`2026-03-16T09:45:03.056609Z  INFO target: message`) into styled parts,
//! a bounded buffer of captured lines, and a writer that cuts bytes into lines.

use vstd::prelude::*;

use crate::text::{
    chars_of, find, find_exec, occurs_at, lemma_find_from_sound, slice_range, starts_with, starts_with_exec,
    string_of, string_of_range, trim_start, trim_start_index, utf8_len, utf8_width, utf8_width_exec,
    lemma_utf8_len_take_mono,
};

verus! {

/// A log level as `tracing` writes it.
#[derive(Clone, Copy, Debug, PartialEq, Eq, Structural)]
pub enum LogLevel {
    Error,
    Warn,
    Info,
    Debug,
    Trace,
}

/// How a part of a log line is drawn.
#[derive(Clone, Copy, Debug, PartialEq, Eq, Structural)]
pub enum LogStyle {
    /// The time of day, dimmed.
    Timestamp,
    /// The level, in its colour.
    Level(LogLevel),
    /// The target up to its colon, dimmed.
    Target,
    /// Unstyled text.
    Plain,
}

/// A styled part of a log line.
pub struct LogSpan {
    pub text: String,
    pub style: LogStyle,
}

/// The name a level is written as.
pub open spec fn level_name(l: LogLevel) -> Seq<char> {
    match l {
        LogLevel::Error => "ERROR"@,
        LogLevel::Warn => "WARN"@,
        LogLevel::Info => "INFO"@,
        LogLevel::Debug => "DEBUG"@,
        LogLevel::Trace => "TRACE"@,
    }
}

/// The level a line starts with, trying ERROR, WARN, INFO, DEBUG, TRACE in turn.
pub open spec fn level_prefix(s: Seq<char>) -> Option<LogLevel> {
    if starts_with(s, level_name(LogLevel::Error)) {
        Some(LogLevel::Error)
    } else if starts_with(s, level_name(LogLevel::Warn)) {
        Some(LogLevel::Warn)
    } else if starts_with(s, level_name(LogLevel::Info)) {
        Some(LogLevel::Info)
    } else if starts_with(s, level_name(LogLevel::Debug)) {
        Some(LogLevel::Debug)
    } else if starts_with(s, level_name(LogLevel::Trace)) {
        Some(LogLevel::Trace)
    } else {
        None
    }
}

/// The character index at which byte offset `n` of the UTF-8 encoding of `s`
/// starts a character, walking from character `k` at byte offset `acc`.
pub open spec fn byte_index_from(s: Seq<char>, n: nat, k: nat, acc: nat) -> Option<nat>
    decreases s.len() - k,
{
    if acc == n {
        Some(k)
    } else if acc > n || k >= s.len() {
        None
    } else {
        byte_index_from(s, n, k + 1, acc + utf8_width(s[k as int]))
    }
}

/// The character index at which byte offset `n` starts a character of `s`
/// (`None` when `n` falls inside a character or past the end).
pub open spec fn byte_index(s: Seq<char>, n: nat) -> Option<nat> {
    byte_index_from(s, n, 0, 0)
}

/// Whether the byte at offset 10 is `T`, as in `2026-03-16T…`.
pub open spec fn t_at_byte_10(s: Seq<char>) -> bool {
    byte_index(s, 10) matches Some(k) && k < s.len() && s[k as int] == 'T'
}

/// Whether the line starts with an ISO 8601 timestamp that the styling cuts out:
/// longer than 20 bytes, `T` at byte 10, and a `Z` somewhere.
pub open spec fn has_timestamp(raw: Seq<char>) -> bool {
    utf8_len(raw) > 20 && t_at_byte_10(raw) && find(raw, seq!['Z']) is Some
}

/// The timestamp with its `Z`.
pub open spec fn full_timestamp(raw: Seq<char>) -> Seq<char> {
    raw.take((find(raw, seq!['Z'])->0 + 1) as int)
}

/// The part of the timestamp after its first `T`.
pub open spec fn after_t(full: Seq<char>) -> Seq<char> {
    full.skip((find(full, seq!['T'])->0 + 1) as int)
}

/// The time of day shown for a timestamp: the first 8 bytes after the `T`
/// (`HH:MM:SS`), or all of them when there are fewer; the whole timestamp if
/// it has no `T`.
pub open spec fn time_part(full: Seq<char>) -> Seq<char> {
    match find(full, seq!['T']) {
        Some(t) => {
            let a = full.skip((t + 1) as int);
            if utf8_len(a) >= 8 {
                a.take(byte_index(a, 8)->0 as int)
            } else {
                a
            }
        },
        None => full,
    }
}

/// Whether styling the line cuts strings only at character boundaries; on
/// other lines the styling panics (cutting 8 bytes after the `T` inside a character).
pub open spec fn log_line_ok(raw: Seq<char>) -> bool {
    has_timestamp(raw) ==> {
        let full = full_timestamp(raw);
        find(full, seq!['T']) is Some ==> (utf8_len(after_t(full)) >= 8 ==> byte_index(
            after_t(full),
            8,
        ) is Some)
    }
}

/// What is left of the line after the timestamp, and the parts so far.
pub open spec fn after_timestamp(raw: Seq<char>) -> (Seq<(Seq<char>, LogStyle)>, Seq<char>) {
    if has_timestamp(raw) {
        let full = full_timestamp(raw);
        (seq![(time_part(full), LogStyle::Timestamp)], raw.skip(full.len() as int))
    } else {
        (Seq::empty(), raw)
    }
}

/// The styled parts of a `tracing` fmt line: the time of day, one space for
/// the whitespace that follows, the level, the target up to and including
/// its colon, and the message. A line without a level after the timestamp is
/// kept as one plain part.
pub open spec fn style_log_line(raw: Seq<char>) -> Seq<(Seq<char>, LogStyle)> {
    let (spans1, rest1) = after_timestamp(raw);
    let trimmed = trim_start(rest1);
    let spans2 = if trimmed.len() < rest1.len() {
        spans1.push((" "@, LogStyle::Plain))
    } else {
        spans1
    };
    let rest2 = trimmed;
    match level_prefix(rest2) {
        None => spans2.push((rest2, LogStyle::Plain)),
        Some(l) => {
            let name = level_name(l);
            let rest3 = rest2.skip(name.len() as int);
            let spans3 = spans2.push((name, LogStyle::Level(l)));
            match find(rest3, seq![':']) {
                Some(c) => spans3.push((rest3.take((c + 1) as int), LogStyle::Target)).push(
                    (rest3.skip((c + 1) as int), LogStyle::Plain),
                ),
                None => spans3.push((rest3, LogStyle::Plain)),
            }
        },
    }
}

/// The view of styled parts.
pub open spec fn spans_view(v: Seq<LogSpan>) -> Seq<(Seq<char>, LogStyle)> {
    v.map_values(|s: LogSpan| (s.text@, s.style))
}

/// The character index at which byte offset `n` starts a character of `s`.
pub fn byte_index_exec(s: &[char], n: usize) -> (r: Option<usize>)
    requires
        n <= 1000,
    ensures
        r matches Some(k) ==> byte_index(s@, n as nat) == Some(k as nat),
        r is None ==> byte_index(s@, n as nat) is None,
{
    let mut k: usize = 0;
    let mut acc: usize = 0;
    while acc < n && k < s.len()
        invariant
            n <= 1000,
            k <= s.len(),
            acc <= n + 4,
            byte_index(s@, n as nat) == byte_index_from(s@, n as nat, k as nat, acc as nat),
        decreases s.len() - k,
    {
        acc = acc + utf8_width_exec(s[k]);
        k += 1;
    }
    if acc == n {
        Some(k)
    } else {
        None
    }
}

/// Whether the line has the timestamp form.
fn has_timestamp_exec(cs: &[char]) -> (r: Option<usize>)
    ensures
        r is Some <==> has_timestamp(cs@),
        r matches Some(z) ==> find(cs@, seq!['Z']) == Some(z as nat),
{
    let at10 = byte_index_exec(cs, 10);
    let t_ok = match at10 {
        Some(k) => k < cs.len() && cs[k] == 'T',
        None => false,
    };
    if !t_ok {
        return None;
    }
    let z = vec!['Z'];
    let found = find_exec(cs, z.as_slice());
    proof {
        assert(z@ =~= seq!['Z']);
    }
    match found {
        Some(zi) => {
            if long_enough(cs) {
                Some(zi)
            } else {
                None
            }
        },
        None => None,
    }
}

/// Whether the UTF-8 encoding of `cs` is longer than 20 bytes.
fn long_enough(cs: &[char]) -> (r: bool)
    ensures
        r == (utf8_len(cs@) > 20),
{
    let mut total: usize = 0;
    let mut i: usize = 0;
    while i < cs.len() && total <= 20
        invariant
            i <= cs.len(),
            total <= 24,
            total == utf8_len(cs@.take(i as int)),
        decreases cs.len() - i,
    {
        proof {
            assert(cs@.take(i as int + 1).drop_last() =~= cs@.take(i as int));
        }
        total = total + utf8_width_exec(cs[i]);
        i += 1;
    }
    proof {
        lemma_utf8_len_take_mono(cs@, i as int, cs@.len() as int);
        assert(cs@.take(cs@.len() as int) =~= cs@);
    }
    total > 20
}

/// Whether `log_line_ok` holds: styling this line cuts only at character boundaries.
pub fn log_line_sliceable(raw: &str) -> (r: bool)
    ensures
        r == log_line_ok(raw@),
{
    let cs = chars_of(raw);
    match has_timestamp_exec(cs.as_slice()) {
        None => true,
        Some(z) => {
            proof {
                lemma_find_from_sound(cs@, seq!['Z'], 0);
                assert(seq!['Z'].len() == 1);
                assert(occurs_at(cs@, seq!['Z'], z as int));
                assert(z < cs.len());
            }
            let full = slice_range(cs.as_slice(), 0, z + 1);
            proof {
                assert(full@ =~= full_timestamp(cs@));
            }
            let t = vec!['T'];
            proof {
                assert(t@ =~= seq!['T']);
            }
            match find_exec(full.as_slice(), t.as_slice()) {
                None => true,
                Some(ti) => {
                    proof {
                        lemma_find_from_sound(full@, seq!['T'], 0);
                    }
                    let a = slice_range(full.as_slice(), ti + 1, full.len());
                    proof {
                        assert(a@ =~= after_t(full@));
                    }
                    if !long_enough_8(a.as_slice()) {
                        true
                    } else {
                        byte_index_exec(a.as_slice(), 8).is_some()
                    }
                },
            }
        },
    }
}

/// Whether the UTF-8 encoding of `cs` is at least 8 bytes long.
fn long_enough_8(cs: &[char]) -> (r: bool)
    ensures
        r == (utf8_len(cs@) >= 8),
{
    let mut total: usize = 0;
    let mut i: usize = 0;
    while i < cs.len() && total < 8
        invariant
            i <= cs.len(),
            total <= 11,
            total == utf8_len(cs@.take(i as int)),
        decreases cs.len() - i,
    {
        proof {
            assert(cs@.take(i as int + 1).drop_last() =~= cs@.take(i as int));
        }
        total = total + utf8_width_exec(cs[i]);
        i += 1;
    }
    proof {
        lemma_utf8_len_take_mono(cs@, i as int, cs@.len() as int);
        assert(cs@.take(cs@.len() as int) =~= cs@);
    }
    total >= 8
}

/// The level a line starts with.
fn level_prefix_exec(s: &[char]) -> (r: Option<LogLevel>)
    ensures
        r == level_prefix(s@),
{
    if starts_with_exec(s, chars_of("ERROR").as_slice()) {
        Some(LogLevel::Error)
    } else if starts_with_exec(s, chars_of("WARN").as_slice()) {
        Some(LogLevel::Warn)
    } else if starts_with_exec(s, chars_of("INFO").as_slice()) {
        Some(LogLevel::Info)
    } else if starts_with_exec(s, chars_of("DEBUG").as_slice()) {
        Some(LogLevel::Debug)
    } else if starts_with_exec(s, chars_of("TRACE").as_slice()) {
        Some(LogLevel::Trace)
    } else {
        None
    }
}

/// The name a level is written as.
pub fn level_str(l: LogLevel) -> (r: &'static str)
    ensures
        r@ == level_name(l),
{
    match l {
        LogLevel::Error => "ERROR",
        LogLevel::Warn => "WARN",
        LogLevel::Info => "INFO",
        LogLevel::Debug => "DEBUG",
        LogLevel::Trace => "TRACE",
    }
}

/// Splits a `tracing` fmt line into styled parts.
pub fn stylize_log_line(raw: &str) -> (r: Vec<LogSpan>)
    requires
        log_line_ok(raw@),
    ensures
        spans_view(r@) == style_log_line(raw@),
{
    let cs = chars_of(raw);
    let mut spans: Vec<LogSpan> = Vec::new();
    let mut rest: Vec<char> = cs.clone();
    proof {
        assert(rest@ == cs@);
    }
    match has_timestamp_exec(cs.as_slice()) {
        None => {},
        Some(z) => {
            proof {
                lemma_find_from_sound(cs@, seq!['Z'], 0);
                assert(seq!['Z'].len() == 1);
                assert(occurs_at(cs@, seq!['Z'], z as int));
                assert(z < cs.len());
            }
            let full = slice_range(cs.as_slice(), 0, z + 1);
            proof {
                assert(full@ =~= full_timestamp(cs@));
            }
            let t = vec!['T'];
            proof {
                assert(t@ =~= seq!['T']);
            }
            let time = match find_exec(full.as_slice(), t.as_slice()) {
                None => string_of(full.as_slice()),
                Some(ti) => {
                    proof {
                        lemma_find_from_sound(full@, seq!['T'], 0);
                    }
                    let a = slice_range(full.as_slice(), ti + 1, full.len());
                    if long_enough_8(a.as_slice()) {
                        match byte_index_exec(a.as_slice(), 8) {
                            Some(k) => {
                                proof {
                                    lemma_byte_index_bound(a@, 8);
                                }
                                string_of_range(a.as_slice(), 0, k)
                            },
                            None => {
                                proof {
                                    assert(a@ =~= after_t(full@));
                                }
                                string_of(a.as_slice())
                            },
                        }
                    } else {
                        string_of(a.as_slice())
                    }
                },
            };
            spans.push(LogSpan { text: time, style: LogStyle::Timestamp });
            rest = slice_range(cs.as_slice(), z + 1, cs.len());
            proof {
                assert(rest@ =~= cs@.skip(full@.len() as int));
            }
        },
    }
    let ghost spans1 = spans_view(spans@);
    let ghost rest1 = rest@;
    proof {
        assert((spans1, rest1) == after_timestamp(raw@));
    }
    let i = trim_start_index(rest.as_slice());
    if i > 0 {
        spans.push(LogSpan { text: string_of(chars_of(" ").as_slice()), style: LogStyle::Plain });
    }
    let rest2 = slice_range(rest.as_slice(), i, rest.len());
    proof {
        assert(rest2@ =~= trim_start(rest1));
        assert(spans_view(spans@) =~= (if trim_start(rest1).len() < rest1.len() {
            spans1.push((" "@, LogStyle::Plain))
        } else {
            spans1
        }));
    }
    let ghost spans2 = spans_view(spans@);
    match level_prefix_exec(rest2.as_slice()) {
        None => {
            spans.push(LogSpan { text: string_of(rest2.as_slice()), style: LogStyle::Plain });
            proof {
                assert(spans_view(spans@) =~= spans2.push((rest2@, LogStyle::Plain)));
            }
        },
        Some(l) => {
            let name = level_str(l);
            let nlen = chars_of(name).len();
            spans.push(LogSpan { text: owned_str(name), style: LogStyle::Level(l) });
            let rest3 = slice_range(rest2.as_slice(), nlen, rest2.len());
            proof {
                assert(rest3@ =~= rest2@.skip(level_name(l).len() as int));
            }
            let ghost spans3 = spans_view(spans@);
            proof {
                assert(spans3 =~= spans2.push((level_name(l), LogStyle::Level(l))));
            }
            let colon = vec![':'];
            proof {
                assert(colon@ =~= seq![':']);
            }
            match find_exec(rest3.as_slice(), colon.as_slice()) {
                Some(c) => {
                    proof {
                        lemma_find_from_sound(rest3@, seq![':'], 0);
                    }
                    spans.push(
                        LogSpan {
                            text: string_of_range(rest3.as_slice(), 0, c + 1),
                            style: LogStyle::Target,
                        },
                    );
                    spans.push(
                        LogSpan {
                            text: string_of_range(rest3.as_slice(), c + 1, rest3.len()),
                            style: LogStyle::Plain,
                        },
                    );
                    proof {
                        assert(rest3@.subrange(0, c + 1) =~= rest3@.take(c + 1));
                        assert(rest3@.subrange(c + 1, rest3@.len() as int) =~= rest3@.skip(c + 1));
                        assert(spans_view(spans@) =~= spans3.push(
                            (rest3@.take(c + 1), LogStyle::Target),
                        ).push((rest3@.skip(c + 1), LogStyle::Plain)));
                    }
                },
                None => {
                    spans.push(LogSpan { text: string_of(rest3.as_slice()), style: LogStyle::Plain });
                    proof {
                        assert(spans_view(spans@) =~= spans3.push((rest3@, LogStyle::Plain)));
                    }
                },
            }
        },
    }
    spans
}

/// A `String` with the characters of `s`.
fn owned_str(s: &str) -> (r: String)
    ensures
        r@ == s@,
{
    s.to_owned()
}

/// A character index found for a byte offset lies within the text.
proof fn lemma_byte_index_bound(s: Seq<char>, n: nat)
    ensures
        byte_index(s, n) matches Some(k) ==> k <= s.len(),
{
    lemma_byte_index_from_bound(s, n, 0, 0);
}

proof fn lemma_byte_index_from_bound(s: Seq<char>, n: nat, k: nat, acc: nat)
    requires
        k <= s.len(),
    ensures
        byte_index_from(s, n, k, acc) matches Some(j) ==> j <= s.len(),
    decreases s.len() - k,
{
    if acc == n {
    } else if acc > n || k >= s.len() {
    } else {
        lemma_byte_index_from_bound(s, n, k + 1, acc + utf8_width(s[k as int]));
    }
}

/// The text of styled parts, joined.
pub open spec fn concat_spans(s: Seq<(Seq<char>, LogStyle)>) -> Seq<char>
    decreases s.len(),
{
    if s.len() == 0 {
        Seq::empty()
    } else {
        concat_spans(s.drop_last()) + s.last().0
    }
}

proof fn lemma_level_prefix_unique(s: Seq<char>, l: LogLevel)
    requires
        starts_with(s, level_name(l)),
    ensures
        level_prefix(s) == Some(l),
{
    reveal_strlit("ERROR");
    reveal_strlit("WARN");
    reveal_strlit("INFO");
    reveal_strlit("DEBUG");
    reveal_strlit("TRACE");
    assert(s[0] == level_name(l)[0]) by {
        assert(s.take(level_name(l).len() as int)[0] == s[0]);
    }
    let ls = seq![LogLevel::Error, LogLevel::Warn, LogLevel::Info, LogLevel::Debug, LogLevel::Trace];
    assert forall|k: int| 0 <= k < 5 && #[trigger] ls[k] != l implies !starts_with(
        s,
        level_name(ls[k]),
    ) by {
        if starts_with(s, level_name(ls[k])) {
            assert(s.take(level_name(ls[k]).len() as int)[0] == s[0]);
        }
    }
    assert(ls[0] == LogLevel::Error && ls[1] == LogLevel::Warn && ls[2] == LogLevel::Info && ls[3]
        == LogLevel::Debug && ls[4] == LogLevel::Trace);
}

/// Law: a part styled as a level is the name of that very level; no other
/// part is styled as a level.
pub proof fn law_level_style_names_its_text(raw: Seq<char>)
    ensures
        forall|i: int|
            0 <= i < style_log_line(raw).len() ==> ((#[trigger] style_log_line(raw)[i]).1 matches LogStyle::Level(l)
                ==> style_log_line(raw)[i].0 == level_name(l)),
{
    let (spans1, rest1) = after_timestamp(raw);
    let trimmed = trim_start(rest1);
    let spans2 = if trimmed.len() < rest1.len() {
        spans1.push((" "@, LogStyle::Plain))
    } else {
        spans1
    };
    assert(forall|i: int| 0 <= i < spans2.len() ==> !(#[trigger] spans2[i].1 is Level));
    let r = style_log_line(raw);
    match level_prefix(trimmed) {
        None => {
            assert(r == spans2.push((trimmed, LogStyle::Plain)));
            assert forall|i: int| 0 <= i < r.len() implies !(#[trigger] r[i].1 is Level) by {
                if i < spans2.len() {
                    assert(r[i] == spans2[i]);
                }
            }
        },
        Some(l) => {
            let name = level_name(l);
            let rest3 = trimmed.skip(name.len() as int);
            let spans3 = spans2.push((name, LogStyle::Level(l)));
            assert forall|i: int| 0 <= i < r.len() && (#[trigger] r[i]).1 is Level implies r[i]
                == spans3[spans2.len() as int] by {
                match find(rest3, seq![':']) {
                    Some(c) => {
                        assert(r == spans3.push((rest3.take((c + 1) as int), LogStyle::Target)).push(
                            (rest3.skip((c + 1) as int), LogStyle::Plain),
                        ));
                        if i < spans2.len() {
                            assert(r[i] == spans2[i]);
                        }
                    },
                    None => {
                        assert(r == spans3.push((rest3, LogStyle::Plain)));
                        if i < spans2.len() {
                            assert(r[i] == spans2[i]);
                        }
                    },
                }
            }
        },
    }
}

/// Law: when the text after the timestamp and its whitespace starts with a
/// level's name, that name is one of the parts, styled as that level.
pub proof fn law_level_found(raw: Seq<char>, l: LogLevel)
    requires
        starts_with(trim_start(after_timestamp(raw).1), level_name(l)),
    ensures
        exists|i: int|
            0 <= i < style_log_line(raw).len() && #[trigger] style_log_line(raw)[i] == (
                level_name(l),
                LogStyle::Level(l),
            ),
{
    let (spans1, rest1) = after_timestamp(raw);
    let trimmed = trim_start(rest1);
    let spans2 = if trimmed.len() < rest1.len() {
        spans1.push((" "@, LogStyle::Plain))
    } else {
        spans1
    };
    lemma_level_prefix_unique(trimmed, l);
    let r = style_log_line(raw);
    let k = spans2.len() as int;
    let rest3 = trimmed.skip(level_name(l).len() as int);
    let spans3 = spans2.push((level_name(l), LogStyle::Level(l)));
    match find(rest3, seq![':']) {
        Some(c) => {
            assert(r == spans3.push((rest3.take((c + 1) as int), LogStyle::Target)).push(
                (rest3.skip((c + 1) as int), LogStyle::Plain),
            ));
        },
        None => {
            assert(r == spans3.push((rest3, LogStyle::Plain)));
        },
    }
    assert(r[k] == (level_name(l), LogStyle::Level(l)));
}

/// Law: styling loses no text after the timestamp. The parts join to the
/// shortened timestamp, then one space in place of the whitespace that
/// followed it, then the rest of the line unchanged.
pub proof fn law_stylize_keeps_text(raw: Seq<char>)
    ensures
        ({
            let (spans1, rest1) = after_timestamp(raw);
            let t = trim_start(rest1);
            concat_spans(style_log_line(raw)) == concat_spans(spans1) + (if t.len() < rest1.len() {
                " "@ + t
            } else {
                t
            })
        }),
{
    let (spans1, rest1) = after_timestamp(raw);
    let t = trim_start(rest1);
    let spans2 = if t.len() < rest1.len() {
        spans1.push((" "@, LogStyle::Plain))
    } else {
        spans1
    };
    assert(concat_spans(spans2) =~= concat_spans(spans1) + (if t.len() < rest1.len() {
        " "@
    } else {
        Seq::<char>::empty()
    })) by {
        if t.len() < rest1.len() {
            assert(spans2.drop_last() =~= spans1);
        }
    }
    match level_prefix(t) {
        None => {
            let r = spans2.push((t, LogStyle::Plain));
            assert(r.drop_last() =~= spans2);
            assert(concat_spans(r) =~= concat_spans(spans1) + (if t.len() < rest1.len() {
                " "@ + t
            } else {
                t
            }));
        },
        Some(l) => {
            let name = level_name(l);
            assert(t.take(name.len() as int) == name);
            let rest3 = t.skip(name.len() as int);
            assert(name + rest3 =~= t);
            let spans3 = spans2.push((name, LogStyle::Level(l)));
            assert(spans3.drop_last() =~= spans2);
            match find(rest3, seq![':']) {
                Some(c) => {
                    crate::text::lemma_find_from_sound(rest3, seq![':'], 0);
                    let r = spans3.push((rest3.take((c + 1) as int), LogStyle::Target)).push(
                        (rest3.skip((c + 1) as int), LogStyle::Plain),
                    );
                    assert(r.drop_last().drop_last() =~= spans3);
                    assert(rest3.take((c + 1) as int) + rest3.skip((c + 1) as int) =~= rest3);
                    let r1 = r.drop_last();
                    assert(concat_spans(r) == concat_spans(r1) + rest3.skip((c + 1) as int));
                    assert(concat_spans(r1) == concat_spans(spans3) + rest3.take((c + 1) as int));
                    assert(concat_spans(spans3) == concat_spans(spans2) + name);
                    assert(concat_spans(r) =~= concat_spans(spans1) + (if t.len() < rest1.len() {
                        " "@ + t
                    } else {
                        t
                    }));
                },
                None => {
                    let r = spans3.push((rest3, LogStyle::Plain));
                    assert(r.drop_last() =~= spans3);
                    assert(concat_spans(r) == concat_spans(spans3) + rest3);
                    assert(concat_spans(spans3) == concat_spans(spans2) + name);
                    assert(concat_spans(r) =~= concat_spans(spans1) + (if t.len() < rest1.len() {
                        " "@ + t
                    } else {
                        t
                    }));
                },
            }
        },
    }
}

// ---------------------------------------------------------------------------
// Captured lines
// ---------------------------------------------------------------------------

/// How many captured lines are kept; older ones are dropped.
pub const LOG_CAPACITY: usize = 2000;

/// The captured lines after one more line: the oldest is dropped when full.
pub open spec fn capture_push(buf: Seq<Seq<char>>, line: Seq<char>) -> Seq<Seq<char>> {
    if buf.len() >= LOG_CAPACITY {
        buf.drop_first().push(line)
    } else {
        buf.push(line)
    }
}

/// The captured lines after several lines, in order.
pub open spec fn capture_push_all(buf: Seq<Seq<char>>, lines: Seq<Seq<char>>) -> Seq<Seq<char>>
    decreases lines.len(),
{
    if lines.len() == 0 {
        buf
    } else {
        capture_push_all(capture_push(buf, lines[0]), lines.drop_first())
    }
}

/// The views of a sequence of strings.
pub open spec fn strings_view(v: Seq<String>) -> Seq<Seq<char>> {
    v.map_values(|s: String| s@)
}

/// Lines written by `tracing`, kept for the log panel.
pub struct TracingCapture {
    lines: std::collections::VecDeque<String>,
}

impl View for TracingCapture {
    type V = Seq<Seq<char>>;

    closed spec fn view(&self) -> Seq<Seq<char>> {
        strings_view(self.lines@)
    }
}

impl TracingCapture {
    /// A capture never holds more than `LOG_CAPACITY` lines.
    #[verifier::type_invariant]
    spec fn within_capacity(&self) -> bool {
        self.lines@.len() <= LOG_CAPACITY
    }

    /// At most `LOG_CAPACITY` lines are kept.
    pub open spec fn wf(&self) -> bool {
        self@.len() <= LOG_CAPACITY
    }

    /// An empty capture.
    pub fn new() -> (r: TracingCapture)
        ensures
            r.wf(),
            r@ == Seq::<Seq<char>>::empty(),
    {
        let r = TracingCapture { lines: std::collections::VecDeque::new() };
        proof {
            assert(r@ =~= Seq::<Seq<char>>::empty());
        }
        r
    }

    /// Keeps one more line, dropping the oldest when full.
    pub fn push(&mut self, line: String)
        ensures
            final(self).wf(),
            final(self)@ == capture_push(old(self)@, line@),
    {
        proof {
            use_type_invariant(&*self);
        }
        let ghost line_view = line@;
        let mut lines: std::collections::VecDeque<String> = std::collections::VecDeque::new();
        std::mem::swap(&mut lines, &mut self.lines);
        if lines.len() >= LOG_CAPACITY {
            let _ = lines.pop_front();
        }
        lines.push_back(line);
        std::mem::swap(&mut lines, &mut self.lines);
        proof {
            assert(self@ =~= capture_push(old(self)@, line_view));
        }
    }

    /// Takes all captured lines as they were written, oldest first, leaving
    /// the capture empty.
    pub fn take_lines(&mut self) -> (r: Vec<String>)
        ensures
            strings_view(r@) == old(self)@,
            final(self)@ == Seq::<Seq<char>>::empty(),
            final(self).wf(),
    {
        proof {
            use_type_invariant(&*self);
        }
        let mut lines: std::collections::VecDeque<String> = std::collections::VecDeque::new();
        std::mem::swap(&mut lines, &mut self.lines);
        let mut out: Vec<String> = Vec::new();
        let ghost start = lines@;
        while lines.len() > 0
            invariant
                start == out@ + lines@,
            decreases lines@.len(),
        {
            match lines.pop_front() {
                Some(l) => {
                    out.push(l);
                    proof {
                        assert(start =~= out@ + lines@);
                    }
                },
                None => {},
            }
        }
        proof {
            assert(out@ =~= start);
            assert(self@ =~= Seq::<Seq<char>>::empty());
        }
        out
    }

    /// Whether every captured line can be styled (`log_line_ok`): styling a
    /// line that cannot be cut at character boundaries panics.
    pub fn lines_styleable(&self) -> (r: bool)
        ensures
            r == forall|i: int| 0 <= i < self@.len() ==> log_line_ok(#[trigger] self@[i]),
    {
        let mut i: usize = 0;
        while i < self.lines.len()
            invariant
                i <= self.lines@.len(),
                forall|j: int| 0 <= j < i ==> log_line_ok(#[trigger] self@[j]),
            decreases self.lines@.len() - i,
        {
            let ok = log_line_sliceable(self.lines[i].as_str());
            if !ok {
                proof {
                    assert(self@[i as int] == self.lines@[i as int]@);
                }
                return false;
            }
            proof {
                assert(self@[i as int] == self.lines@[i as int]@);
            }
            i += 1;
        }
        true
    }

    /// Takes all captured lines, oldest first, each split into its styled
    /// parts, leaving the capture empty.
    pub fn drain_lines(&mut self) -> (r: Vec<Vec<LogSpan>>)
        requires
            forall|i: int| 0 <= i < old(self)@.len() ==> log_line_ok(#[trigger] old(self)@[i]),
        ensures
            r@.len() == old(self)@.len(),
            forall|i: int| 0 <= i < r@.len() ==> spans_view((#[trigger] r@[i])@) == style_log_line(
                old(self)@[i],
            ),
            final(self)@ == Seq::<Seq<char>>::empty(),
            final(self).wf(),
    {
        let raw = self.take_lines();
        let mut out: Vec<Vec<LogSpan>> = Vec::new();
        let mut i: usize = 0;
        while i < raw.len()
            invariant
                i <= raw@.len(),
                strings_view(raw@) == old(self)@,
                forall|j: int| 0 <= j < old(self)@.len() ==> log_line_ok(#[trigger] old(self)@[j]),
                out@.len() == i,
                forall|j: int| 0 <= j < i ==> spans_view((#[trigger] out@[j])@) == style_log_line(
                    old(self)@[j],
                ),
            decreases raw@.len() - i,
        {
            proof {
                assert(old(self)@[i as int] == raw@[i as int]@);
            }
            out.push(stylize_log_line(raw[i].as_str()));
            i += 1;
        }
        out
    }
}

/// Pushing onto lines that fit keeps the newest lines of both together.
proof fn lemma_capture_push_all(buf: Seq<Seq<char>>, lines: Seq<Seq<char>>)
    requires
        buf.len() <= LOG_CAPACITY,
    ensures
        ({
            let all = buf + lines;
            capture_push_all(buf, lines) == all.skip(
                if all.len() > LOG_CAPACITY {
                    all.len() - LOG_CAPACITY
                } else {
                    0
                },
            )
        }),
    decreases lines.len(),
{
    let all = buf + lines;
    if lines.len() == 0 {
        assert(all =~= buf);
        assert(all.skip(0) =~= all);
    } else {
        let b2 = capture_push(buf, lines[0]);
        lemma_capture_push_all(b2, lines.drop_first());
        let all2 = b2 + lines.drop_first();
        let d = if all.len() > LOG_CAPACITY {
            all.len() - LOG_CAPACITY
        } else {
            0
        };
        let d2 = if all2.len() > LOG_CAPACITY {
            all2.len() - LOG_CAPACITY
        } else {
            0
        };
        if buf.len() >= LOG_CAPACITY {
            assert(all2 =~= all.skip(1));
            assert(all2.skip(d2) =~= all.skip(d));
        } else {
            assert(all2 =~= all);
        }
    }
}

/// Law: starting from an empty capture, any run of pushed lines leaves
/// exactly the newest `LOG_CAPACITY` of them (all of them if fewer), in order.
pub proof fn law_capture_keeps_newest(lines: Seq<Seq<char>>)
    ensures
        capture_push_all(Seq::empty(), lines) == lines.skip(
            if lines.len() > LOG_CAPACITY {
                lines.len() - LOG_CAPACITY
            } else {
                0
            },
        ),
        capture_push_all(Seq::empty(), lines).len() <= LOG_CAPACITY,
{
    lemma_capture_push_all(Seq::empty(), lines);
    assert(Seq::<Seq<char>>::empty() + lines =~= lines);
}

// ---------------------------------------------------------------------------
// Cutting written bytes into lines
// ---------------------------------------------------------------------------

/// `String::from_utf8_lossy`: the text of `bytes`, with each invalid
/// sequence read as U+FFFD.
pub uninterp spec fn utf8_lossy(bytes: Seq<u8>) -> Seq<char>;

/// `String::from_utf8_lossy(bytes).to_string()`: the result is named
/// `utf8_lossy`; for valid UTF-8 it is the decoded text, as the
/// documentation states.
#[verifier::external_body]
fn from_utf8_lossy(bytes: &[u8]) -> (r: String)
    ensures
        r@ == utf8_lossy(bytes@),
        vstd::utf8::valid_utf8(bytes@) ==> r@ == vstd::utf8::decode_utf8(bytes@),
{
    String::from_utf8_lossy(bytes).to_string()
}

/// Feeding bytes to a writer holding the unfinished line `pending`: the
/// lines completed by `\n` bytes, and the new unfinished line.
pub open spec fn feed(pending: Seq<u8>, bytes: Seq<u8>) -> (Seq<Seq<u8>>, Seq<u8>)
    decreases bytes.len(),
{
    if bytes.len() == 0 {
        (Seq::empty(), pending)
    } else if bytes[0] == 10u8 {
        let (ls, p) = feed(Seq::empty(), bytes.drop_first());
        (seq![pending] + ls, p)
    } else {
        feed(pending.push(bytes[0]), bytes.drop_first())
    }
}

/// The texts of completed byte lines.
pub open spec fn lossy_lines(ls: Seq<Seq<u8>>) -> Seq<Seq<char>> {
    ls.map_values(|l: Seq<u8>| utf8_lossy(l))
}

/// Lines each followed by a `\n` byte.
pub open spec fn join_lines(ls: Seq<Seq<u8>>) -> Seq<u8>
    decreases ls.len(),
{
    if ls.len() == 0 {
        Seq::empty()
    } else {
        ls[0].push(10u8) + join_lines(ls.drop_first())
    }
}

/// Cuts the bytes `tracing` writes into lines for a capture.
pub struct TracingWriter {
    line_buf: Vec<u8>,
}

impl TracingWriter {
    /// The unfinished line.
    pub closed spec fn pending(&self) -> Seq<u8> {
        self.line_buf@
    }

    /// A writer with no unfinished line.
    pub fn new() -> (r: TracingWriter)
        ensures
            r.pending() == Seq::<u8>::empty(),
    {
        TracingWriter { line_buf: Vec::new() }
    }

    /// Writes bytes: every `\n` completes a line, which goes to the capture.
    pub fn write(&mut self, capture: &mut TracingCapture, buf: &[u8]) -> (n: usize)
        ensures
            n == buf.len(),
            final(capture).wf(),
            final(self).pending() == feed(old(self).pending(), buf@).1,
            final(capture)@ == capture_push_all(
                old(capture)@,
                lossy_lines(feed(old(self).pending(), buf@).0),
            ),
    {
        proof {
            use_type_invariant(&*capture);
        }
        let ghost p0 = self.line_buf@;
        let ghost c0 = capture@;
        let ghost done: Seq<Seq<u8>> = Seq::empty();
        let mut i: usize = 0;
        proof {
            assert(buf@.skip(0) =~= buf@);
        }
        while i < buf.len()
            invariant
                i <= buf.len(),
                capture.wf(),
                feed(p0, buf@).0 == done + feed(self.line_buf@, buf@.skip(i as int)).0,
                feed(p0, buf@).1 == feed(self.line_buf@, buf@.skip(i as int)).1,
                capture@ == capture_push_all(c0, lossy_lines(done)),
            decreases buf.len() - i,
        {
            let b = buf[i];
            let ghost rest = buf@.skip(i as int);
            proof {
                assert(rest.drop_first() =~= buf@.skip(i as int + 1));
            }
            if b == 10u8 {
                let line = from_utf8_lossy(self.line_buf.as_slice());
                proof {
                    lemma_capture_push_all_append(c0, lossy_lines(done), utf8_lossy(self.line_buf@));
                    assert(lossy_lines(done.push(self.line_buf@)) =~= lossy_lines(done).push(
                        utf8_lossy(self.line_buf@),
                    ));
                    let (ls, p) = feed(Seq::empty(), rest.drop_first());
                    assert(done + (seq![self.line_buf@] + ls) =~= done.push(self.line_buf@) + ls);
                    done = done.push(self.line_buf@);
                }
                capture.push(line);
                self.line_buf.clear();
            } else {
                self.line_buf.push(b);
            }
            i += 1;
        }
        proof {
            assert(buf@.skip(buf.len() as int) =~= Seq::<u8>::empty());
            assert(done + Seq::<Seq<u8>>::empty() =~= done);
        }
        buf.len()
    }

    /// Sends an unfinished line, if any, to the capture.
    pub fn flush(&mut self, capture: &mut TracingCapture)
        ensures
            final(capture).wf(),
            final(self).pending() == Seq::<u8>::empty(),
            final(capture)@ == if old(self).pending().len() > 0 {
                capture_push(old(capture)@, utf8_lossy(old(self).pending()))
            } else {
                old(capture)@
            },
    {
        proof {
            use_type_invariant(&*capture);
        }
        if self.line_buf.len() > 0 {
            let line = from_utf8_lossy(self.line_buf.as_slice());
            capture.push(line);
            self.line_buf.clear();
        }
        proof {
            assert(self.line_buf@ =~= Seq::<u8>::empty());
        }
    }
}

proof fn lemma_capture_push_all_append(buf: Seq<Seq<char>>, xs: Seq<Seq<char>>, x: Seq<char>)
    ensures
        capture_push_all(buf, xs.push(x)) == capture_push(capture_push_all(buf, xs), x),
    decreases xs.len(),
{
    if xs.len() == 0 {
        assert(xs.push(x).drop_first() =~= Seq::<Seq<char>>::empty());
        assert(xs.push(x)[0] == x);
        assert(capture_push_all(capture_push(buf, x), Seq::empty()) == capture_push(buf, x));
        assert(capture_push_all(buf, xs) == buf);
    } else {
        let cb = capture_push(buf, xs[0]);
        lemma_capture_push_all_append(cb, xs.drop_first(), x);
        assert(xs.push(x).drop_first() =~= xs.drop_first().push(x));
        assert(xs.push(x)[0] == xs[0]);
        assert(capture_push_all(buf, xs.push(x)) == capture_push_all(cb, xs.drop_first().push(x)));
        assert(capture_push_all(buf, xs) == capture_push_all(cb, xs.drop_first()));
    }
}

/// Law: cutting loses and adds no byte. The completed lines, each followed
/// by `\n`, then the new unfinished line, are the old unfinished line
/// followed by the written bytes.
pub proof fn law_feed_keeps_bytes(pending: Seq<u8>, bytes: Seq<u8>)
    ensures
        join_lines(feed(pending, bytes).0) + feed(pending, bytes).1 == pending + bytes,
    decreases bytes.len(),
{
    if bytes.len() == 0 {
        assert(pending + bytes =~= pending);
        assert(Seq::<u8>::empty() + pending =~= pending);
    } else if bytes[0] == 10u8 {
        let (ls, p) = feed(Seq::empty(), bytes.drop_first());
        law_feed_keeps_bytes(Seq::empty(), bytes.drop_first());
        let all = seq![pending] + ls;
        assert(all.drop_first() =~= ls);
        assert(all[0] == pending);
        assert(Seq::<u8>::empty() + bytes.drop_first() =~= bytes.drop_first());
        assert(pending.push(10u8) + bytes.drop_first() =~= pending + bytes);
        assert(join_lines(all) + p =~= pending.push(10u8) + (join_lines(ls) + p));
    } else {
        law_feed_keeps_bytes(pending.push(bytes[0]), bytes.drop_first());
        assert(pending.push(bytes[0]) + bytes.drop_first() =~= pending + bytes);
    }
}

} // verus!
