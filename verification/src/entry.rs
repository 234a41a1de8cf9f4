//! The entry screen's state machine: a one-line command input, a popup of
//! matching slash commands ranked by score, and the effects a key press,
//! paste or submitted command asks the screen's runner to carry out.

use vstd::prelude::*;

use crate::commands::{
    command_match_score, command_name, lemma_command_names_ascii, match_score, slash_command,
    SlashCommand, COMMAND_COUNT,
};
use crate::textarea::{
    insert_at, InputBox, textarea_cursor, textarea_cursor_col, textarea_empty, textarea_first_line,
    textarea_input, textarea_insert_str, textarea_line_count, textarea_lines, textarea_of_line,
    textarea_selecting, types_char,
};
use crate::text::{
    chars_eq, chars_of, is_ws, lemma_lex_total, lemma_lex_trans, lex_le, lex_le_exec, lower,
    lower_chars, owned, push_all, slice_range, string_clone, string_of, strip_leading,
    strip_leading_chars, trim, trim_bounds, trim_chars, trim_end, trim_start,
};

verus! {

// ---------------------------------------------------------------------------
// Ranking the popup
// ---------------------------------------------------------------------------

/// The score of the `j`-th command for a popup query.
pub open spec fn score_of(query: Seq<char>, j: int) -> Option<int> {
    match_score(query, command_name(j))
}

/// Whether command `a` is listed no later than command `b`: higher score
/// first, equal scores by name.
pub open spec fn ranks_before(query: Seq<char>, a: int, b: int) -> bool {
    match (score_of(query, a), score_of(query, b)) {
        (Some(x), Some(y)) => x > y || (x == y && lex_le(command_name(a), command_name(b))),
        _ => false,
    }
}

/// Whether some command matches the query.
pub open spec fn any_match(query: Seq<char>) -> bool {
    exists|j: int| 0 <= j < COMMAND_COUNT && (#[trigger] score_of(query, j)) is Some
}

/// The list the popup shows for a query: the matching commands, each once,
/// best first (ties by name); all commands in order when none matches.
pub open spec fn ranking_ok(query: Seq<char>, r: Seq<usize>) -> bool {
    &&& forall|k: int| 0 <= k < r.len() ==> #[trigger] r[k] < COMMAND_COUNT
    &&& r.no_duplicates()
    &&& if any_match(query) {
        &&& forall|j: int|
            0 <= j < COMMAND_COUNT ==> (r.contains(j as usize) <==> (#[trigger] score_of(
                query,
                j,
            )) is Some)
        &&& forall|x: int, y: int|
            0 <= x < y < r.len() ==> ranks_before(query, #[trigger] r[x] as int, #[trigger] r[y] as int)
    } else {
        r == seq![0usize, 1, 2, 3, 4]
    }
}

proof fn lemma_ranks_total(query: Seq<char>, a: int, b: int)
    requires
        score_of(query, a) is Some,
        score_of(query, b) is Some,
    ensures
        ranks_before(query, a, b) || ranks_before(query, b, a),
{
    lemma_lex_total(command_name(a), command_name(b));
}

proof fn lemma_ranks_trans(query: Seq<char>, a: int, b: int, c: int)
    requires
        ranks_before(query, a, b),
        ranks_before(query, b, c),
    ensures
        ranks_before(query, a, c),
{
    if lex_le(command_name(a), command_name(b)) && lex_le(command_name(b), command_name(c)) {
        lemma_lex_trans(command_name(a), command_name(b), command_name(c));
    }
}

/// Orders the slash commands for a popup query.
pub fn rank_commands(query: &[char]) -> (r: Vec<usize>)
    ensures
        ranking_ok(query@, r@),
{
    let qs = string_of(query);
    let mut scores: Vec<Option<i32>> = Vec::new();
    let mut names: Vec<Vec<char>> = Vec::new();
    let mut i: usize = 0;
    while i < COMMAND_COUNT
        invariant
            i <= COMMAND_COUNT,
            qs@ == query@,
            scores.len() == i,
            names.len() == i,
            forall|j: int|
                0 <= j < i ==> (match #[trigger] scores@[j] {
                    Some(x) => score_of(query@, j) == Some(x as int),
                    None => score_of(query@, j) is None,
                }),
            forall|j: int| 0 <= j < i ==> (#[trigger] names@[j])@ == command_name(j),
        decreases COMMAND_COUNT - i,
    {
        let c = slash_command(i);
        proof {
            lemma_command_names_ascii(i as int);
        }
        scores.push(command_match_score(qs.as_str(), c.name));
        names.push(chars_of(c.name));
        i += 1;
    }
    let mut ranked: Vec<usize> = Vec::new();
    let mut i: usize = 0;
    while i < COMMAND_COUNT
        invariant
            i <= COMMAND_COUNT,
            scores.len() == COMMAND_COUNT,
            names.len() == COMMAND_COUNT,
            forall|j: int|
                0 <= j < COMMAND_COUNT ==> (match #[trigger] scores@[j] {
                    Some(x) => score_of(query@, j) == Some(x as int),
                    None => score_of(query@, j) is None,
                }),
            forall|j: int| 0 <= j < COMMAND_COUNT ==> (#[trigger] names@[j])@ == command_name(j),
            ranked@.no_duplicates(),
            forall|k: int| 0 <= k < ranked.len() ==> #[trigger] ranked@[k] < i,
            forall|k: int| 0 <= k < ranked.len() ==> (#[trigger] score_of(query@, ranked@[k] as int)) is Some,
            forall|j: int|
                0 <= j < i ==> (#[trigger] score_of(query@, j)) is Some ==> ranked@.contains(
                    j as usize,
                ),
            forall|x: int, y: int|
                0 <= x < y < ranked.len() ==> ranks_before(
                    query@,
                    #[trigger] ranked@[x] as int,
                    #[trigger] ranked@[y] as int,
                ),
        decreases COMMAND_COUNT - i,
    {
        match scores[i] {
            Some(si) => {
                let mut p: usize = 0;
                while p < ranked.len() && !before_exec(&scores, &names, i, ranked[p], Ghost(
                    query@,
                ))
                    invariant
                        i < COMMAND_COUNT,
                        scores.len() == COMMAND_COUNT,
                        names.len() == COMMAND_COUNT,
                        scores@[i as int] == Some(si),
                        forall|j: int|
                            0 <= j < COMMAND_COUNT ==> (match #[trigger] scores@[j] {
                                Some(x) => score_of(query@, j) == Some(x as int),
                                None => score_of(query@, j) is None,
                            }),
                        forall|j: int|
                            0 <= j < COMMAND_COUNT ==> (#[trigger] names@[j])@ == command_name(j),
                        forall|k: int| 0 <= k < ranked.len() ==> #[trigger] ranked@[k] < i,
                        forall|k: int|
                            0 <= k < ranked.len() ==> (#[trigger] score_of(
                                query@,
                                ranked@[k] as int,
                            )) is Some,
                        p <= ranked.len(),
                        forall|k: int|
                            0 <= k < p ==> ranks_before(query@, #[trigger] ranked@[k] as int, i as int),
                    decreases ranked.len() - p,
                {
                    proof {
                        lemma_ranks_total(query@, i as int, ranked@[p as int] as int);
                    }
                    p += 1;
                }
                let ghost old_ranked = ranked@;
                ranked.insert(p, i);
                proof {
                    old_ranked.insert_ensures(p as int, i);
                    assert forall|x: int, y: int|
                        0 <= x < y < ranked.len() implies ranks_before(
                        query@,
                        #[trigger] ranked@[x] as int,
                        #[trigger] ranked@[y] as int,
                    ) by {
                        if y < p {
                            assert(ranked@[x] == old_ranked[x]);
                            assert(ranked@[y] == old_ranked[y]);
                        } else if y == p {
                            assert(ranked@[x] == old_ranked[x]);
                        } else if x < p {
                            assert(ranked@[x] == old_ranked[x]);
                            assert(ranked@[y] == old_ranked[y - 1]);
                        } else if x == p {
                            assert(ranked@[y] == old_ranked[y - 1]);
                            if y - 1 > p {
                                lemma_ranks_trans(
                                    query@,
                                    i as int,
                                    old_ranked[p as int] as int,
                                    old_ranked[y - 1] as int,
                                );
                            }
                        } else {
                            assert(ranked@[x] == old_ranked[x - 1]);
                            assert(ranked@[y] == old_ranked[y - 1]);
                        }
                    }
                    assert forall|a: int, b: int|
                        0 <= a < ranked.len() && 0 <= b < ranked.len() && a != b implies ranked@[a]
                        != ranked@[b] by {
                        if a != p as int && b != p as int {
                            let oa = if a < p {
                                a
                            } else {
                                a - 1
                            };
                            let ob = if b < p {
                                b
                            } else {
                                b - 1
                            };
                            assert(ranked@[a] == old_ranked[oa]);
                            assert(ranked@[b] == old_ranked[ob]);
                        } else if a == p as int {
                            let ob = if b < p {
                                b
                            } else {
                                b - 1
                            };
                            assert(ranked@[b] == old_ranked[ob]);
                        } else {
                            let oa = if a < p {
                                a
                            } else {
                                a - 1
                            };
                            assert(ranked@[a] == old_ranked[oa]);
                        }
                    }
                    assert forall|k: int| 0 <= k < ranked.len() implies #[trigger] ranked@[k] < i + 1
                        && score_of(query@, ranked@[k] as int) is Some by {
                        if k < p {
                            assert(ranked@[k] == old_ranked[k]);
                        } else if k > p {
                            assert(ranked@[k] == old_ranked[k - 1]);
                        }
                    }
                    assert forall|j: int|
                        0 <= j < i + 1 && (#[trigger] score_of(query@, j)) is Some implies ranked@.contains(
                        j as usize,
                    ) by {
                        if j == i {
                            assert(ranked@[p as int] == i);
                        } else {
                            let k = choose|k: int| 0 <= k < old_ranked.len() && old_ranked[k] == j as usize;
                            if k < p {
                                assert(ranked@[k] == old_ranked[k]);
                            } else {
                                assert(ranked@[k + 1] == old_ranked[k]);
                            }
                        }
                    }
                }
            },
            None => {},
        }
        i += 1;
    }
    if ranked.len() == 0 {
        proof {
            assert(!any_match(query@));
        }
        let mut all: Vec<usize> = Vec::new();
        all.push(0);
        all.push(1);
        all.push(2);
        all.push(3);
        all.push(4);
        proof {
            assert(all@ =~= seq![0usize, 1, 2, 3, 4]);
        }
        return all;
    }
    proof {
        let j = ranked@[0] as int;
        assert(score_of(query@, j) is Some);
        assert(any_match(query@));
        assert forall|j: int|
            0 <= j < COMMAND_COUNT implies (ranked@.contains(j as usize) <==> (#[trigger] score_of(
            query@,
            j,
        )) is Some) by {
            if ranked@.contains(j as usize) {
                let k = choose|k: int| 0 <= k < ranked.len() && ranked@[k] == j as usize;
                assert(score_of(query@, ranked@[k] as int) is Some);
            }
        }
    }
    ranked
}

/// Whether command `a` goes before command `b`, from their computed scores and names.
fn before_exec(
    scores: &Vec<Option<i32>>,
    names: &Vec<Vec<char>>,
    a: usize,
    b: usize,
    Ghost(query): Ghost<Seq<char>>,
) -> (r: bool)
    requires
        a < COMMAND_COUNT,
        b < COMMAND_COUNT,
        scores.len() == COMMAND_COUNT,
        names.len() == COMMAND_COUNT,
        forall|j: int|
            0 <= j < COMMAND_COUNT ==> (match #[trigger] scores@[j] {
                Some(x) => score_of(query, j) == Some(x as int),
                None => score_of(query, j) is None,
            }),
        forall|j: int| 0 <= j < COMMAND_COUNT ==> (#[trigger] names@[j])@ == command_name(j),
    ensures
        r == ranks_before(query, a as int, b as int),
{
    match (scores[a], scores[b]) {
        (Some(x), Some(y)) => x > y || (x == y && lex_le_exec(
            names[a].as_slice(),
            names[b].as_slice(),
        )),
        _ => false,
    }
}

proof fn lemma_ranking_nonempty(query: Seq<char>, r: Seq<usize>)
    requires
        ranking_ok(query, r),
    ensures
        r.len() > 0,
{
    if any_match(query) {
        let j = choose|j: int| 0 <= j < COMMAND_COUNT && (#[trigger] score_of(query, j)) is Some;
        assert(r.contains(j as usize));
    }
}

// ---------------------------------------------------------------------------
// The entry screen
// ---------------------------------------------------------------------------

/// The tips shown while a provider is still missing.
pub open spec fn tip_unconfigured(i: int) -> Seq<char> {
    if i == 0 {
        "Run /connect to set up a provider"@
    } else if i == 1 {
        "Use /auth to sign in, then /connect to configure"@
    } else {
        "Press Tab to auto-fill the selected command"@
    }
}

/// The tips shown once both providers are configured.
pub open spec fn tip_ready(i: int) -> Seq<char> {
    if i == 0 {
        "Type /listen to start a live transcription session"@
    } else if i == 1 {
        "Use /desktop to open or install the desktop app"@
    } else if i == 2 {
        "Press Tab to auto-fill the selected command"@
    } else {
        "Press Esc to clear the input field"@
    }
}

/// The tip for a moment given in milliseconds since the Unix epoch: one of
/// the unconfigured tips when a provider is missing, else one of the ready
/// tips, rotating with the clock.
pub open spec fn tip_at(stt_missing: bool, llm_missing: bool, millis: u128) -> Seq<char> {
    if stt_missing || llm_missing {
        tip_unconfigured(((millis as usize) % 3) as int)
    } else {
        tip_ready(((millis as usize) % 4) as int)
    }
}

/// Picks the tip to show for the given providers at the given moment.
pub fn pick_tip_at(stt_provider: &Option<String>, llm_provider: &Option<String>, millis: u128) -> (r:
    &'static str)
    ensures
        r@ == tip_at(stt_provider is None, llm_provider is None, millis),
{
    let m = millis as usize;
    if stt_provider.is_none() || llm_provider.is_none() {
        let i = m % 3;
        if i == 0 {
            "Run /connect to set up a provider"
        } else if i == 1 {
            "Use /auth to sign in, then /connect to configure"
        } else {
            "Press Tab to auto-fill the selected command"
        }
    } else {
        let i = m % 4;
        if i == 0 {
            "Type /listen to start a live transcription session"
        } else if i == 1 {
            "Use /desktop to open or install the desktop app"
        } else if i == 2 {
            "Press Tab to auto-fill the selected command"
        } else {
            "Press Esc to clear the input field"
        }
    }
}

/// `SystemTime::now()` as milliseconds since the Unix epoch; `None` when the
/// clock reads before the epoch. Nothing is promised of the value: it is the clock.
#[verifier::external_body]
fn now_unix_millis() -> (r: Option<u128>) {
    std::time::SystemTime::now().duration_since(std::time::UNIX_EPOCH).ok().map(|d| d.as_millis())
}

/// A key of the entry screen.
#[derive(Clone, Copy, Debug, PartialEq, Eq, Structural)]
pub enum KeyCode {
    Char(char),
    Backspace,
    Enter,
    Left,
    Right,
    Up,
    Down,
    Tab,
    Delete,
    Home,
    End,
    PageUp,
    PageDown,
    Esc,
    F(u8),
    Other,
}

/// A key press: its code and the modifiers held.
#[derive(Clone, Copy, Debug, PartialEq, Eq, Structural)]
pub struct Key {
    pub code: KeyCode,
    pub ctrl: bool,
    pub alt: bool,
    pub shift: bool,
}

/// What happens to the entry screen.
pub enum Action {
    Key(Key),
    Paste(String),
    SubmitCommand(String),
    StatusMessage(String),
}

/// What the entry screen asks its runner to do.
#[derive(Clone, Copy, Debug, PartialEq, Eq, Structural)]
pub enum Effect {
    LaunchListen,
    LaunchConnect,
    OpenAuth,
    OpenDesktop,
    Exit,
}

/// What the entry screen ends with.
#[derive(Clone, Copy, Debug, PartialEq, Eq, Structural)]
pub enum EntryAction {
    Listen,
    Connect,
    Quit,
}

/// The abstract state of the entry screen.
pub struct AppView {
    /// The input's (only) line.
    pub input: Seq<char>,
    pub cursor_col: nat,
    /// Whether a selection is under way in the input.
    pub selecting: bool,
    pub filtered: Seq<usize>,
    pub selected: nat,
    pub popup_visible: bool,
    pub status: Option<Seq<char>>,
    pub tip: Seq<char>,
    pub stt: Option<Seq<char>>,
    pub llm: Option<Seq<char>>,
}

/// The view of an optional string.
pub open spec fn opt_view(o: Option<String>) -> Option<Seq<char>> {
    match o {
        Some(s) => Some(s@),
        None => None,
    }
}

/// The first of some lines, empty when there is none.
pub open spec fn line_of(lines: Seq<Seq<char>>) -> Seq<char> {
    if lines.len() > 0 {
        lines[0]
    } else {
        Seq::empty()
    }
}

/// The entry screen's state; `App` keeps it well formed.
struct Screen {
    input: InputBox,
    filtered_commands: Vec<usize>,
    selected_index: usize,
    popup_visible: bool,
    pub status_message: Option<String>,
    pub tip: &'static str,
    pub stt_provider: Option<String>,
    pub llm_provider: Option<String>,
}

impl View for Screen {
    type V = AppView;

    closed spec fn view(&self) -> AppView {
        AppView {
            input: line_of(textarea_lines(self.input)),
            cursor_col: textarea_cursor(self.input).1,
            selecting: textarea_selecting(self.input),
            filtered: self.filtered_commands@,
            selected: self.selected_index as nat,
            popup_visible: self.popup_visible,
            status: opt_view(self.status_message),
            tip: self.tip@,
            stt: opt_view(self.stt_provider),
            llm: opt_view(self.llm_provider),
        }
    }
}

/// The text the popup is filtered by: the trimmed input without leading `/`.
pub open spec fn popup_query(input: Seq<char>) -> Seq<char> {
    strip_leading(trim(input), '/')
}

/// The popup agrees with the input: hidden and empty for blank input,
/// otherwise shown with the ranking of the query and a selection inside it.
pub open spec fn popup_ok(v: AppView) -> bool {
    if trim(v.input).len() == 0 {
        !v.popup_visible && v.filtered.len() == 0 && v.selected == 0
    } else {
        v.popup_visible && ranking_ok(popup_query(v.input), v.filtered) && v.selected < v.filtered.len()
    }
}

/// The shape every state of the screen has: the popup is shown exactly
/// when the input is not blank; a shown popup lists commands that exist,
/// each once, with the selection inside the list; a hidden one lists nothing.
pub open spec fn structure_ok(v: AppView) -> bool {
    &&& v.popup_visible <==> trim(v.input).len() > 0
    &&& forall|k: int| 0 <= k < v.filtered.len() ==> #[trigger] v.filtered[k] < COMMAND_COUNT
    &&& v.filtered.no_duplicates()
    &&& v.popup_visible ==> v.selected < v.filtered.len()
    &&& !v.popup_visible ==> v.filtered.len() == 0 && v.selected == 0
}

proof fn lemma_command_name_not_blank(i: int)
    requires
        0 <= i < COMMAND_COUNT,
    ensures
        trim(command_name(i)).len() > 0,
{
    reveal_strlit("/connect");
    reveal_strlit("/listen");
    reveal_strlit("/auth");
    reveal_strlit("/desktop");
    reveal_strlit("/exit");
    let s = command_name(i);
    assert(s.len() > 0 && !is_ws(s[0]) && !is_ws(s.last()));
    assert(trim_start(s) == s);
    assert(trim_end(s) == s);
}

/// The selection after the popup is recomputed from a previous selection.
pub open spec fn clamp_selected(input: Seq<char>, filtered: Seq<usize>, old_selected: nat) -> nat {
    if trim(input).len() == 0 {
        0
    } else if old_selected < filtered.len() {
        old_selected
    } else {
        (filtered.len() - 1) as nat
    }
}

/// The popup of `v` is recomputed for its input, from the selection `old_selected`.
pub open spec fn recomputed(old_selected: nat, v: AppView) -> bool {
    popup_ok(v) && v.selected == clamp_selected(v.input, v.filtered, old_selected)
}

/// The tip and the providers are kept.
pub open spec fn same_context(old: AppView, new: AppView) -> bool {
    new.tip == old.tip && new.stt == old.stt && new.llm == old.llm
}

/// The input is emptied (cursor at 0, nothing selected), the status set to
/// `status`, and the popup recomputed.
pub open spec fn cleared(old: AppView, new: AppView, status: Option<Seq<char>>) -> bool {
    &&& new.input.len() == 0
    &&& new.cursor_col == 0
    &&& !new.selecting
    &&& new.status == status
    &&& same_context(old, new)
    &&& recomputed(old.selected, new)
}

/// The input becomes the line `line` (cursor at 0, nothing selected) and
/// the popup is recomputed; the status is kept.
pub open spec fn set_line(old: AppView, new: AppView, line: Seq<char>) -> bool {
    &&& new.input == line
    &&& new.cursor_col == 0
    &&& !new.selecting
    &&& new.status == old.status
    &&& same_context(old, new)
    &&& recomputed(old.selected, new)
}

/// The input was edited: the status is cleared and the popup recomputed.
pub open spec fn edited(old: AppView, new: AppView) -> bool {
    new.status is None && same_context(old, new) && recomputed(old.selected, new)
}

/// `text` was pasted: without a selection under way it goes in at the
/// cursor, which moves past it; a selection is replaced by it.
pub open spec fn pasted_into(old: AppView, new: AppView, text: Seq<char>) -> bool {
    &&& edited(old, new)
    &&& !new.selecting
    &&& !old.selecting ==> new.input == insert_at(old.input, old.cursor_col, text) && new.cursor_col
        == old.cursor_col + text.len()
}

/// The normalized form of a submitted command.
pub open spec fn submitted(command: Seq<char>) -> Seq<char> {
    lower(strip_leading(trim(command), '/'))
}

/// What submitting `command` does, from state `old` to `new` with `effects`.
pub open spec fn submit_spec(old: AppView, command: Seq<char>, new: AppView, effects: Seq<Effect>) -> bool {
    let n = submitted(command);
    if n == "connect"@ {
        new == old && effects == seq![Effect::LaunchConnect]
    } else if n == "listen"@ {
        new == old && effects == seq![Effect::LaunchListen]
    } else if n == "exit"@ || n == "quit"@ {
        new == old && effects == seq![Effect::Exit]
    } else if n == "auth"@ {
        cleared(old, new, None) && effects == seq![Effect::OpenAuth]
    } else if n == "desktop"@ {
        cleared(old, new, None) && effects == seq![Effect::OpenDesktop]
    } else if n.len() == 0 {
        new == old && effects.len() == 0
    } else {
        &&& new == AppView { status: Some("Unknown command: "@ + trim(command)), ..old }
        &&& effects.len() == 0
    }
}

/// The name of the selected command, when the popup has one.
pub open spec fn selected_name(v: AppView) -> Option<Seq<char>> {
    if v.selected < v.filtered.len() && v.filtered[v.selected as int] < COMMAND_COUNT {
        Some(command_name(v.filtered[v.selected as int] as int))
    } else {
        None
    }
}

/// The first line of pasted text: everything before the first `\r` or `\n`
/// (pasted text is split into lines after turning `\r\n` and lone `\r` into `\n`).
pub open spec fn first_line(s: Seq<char>) -> Seq<char>
    decreases s.len(),
{
    if s.len() == 0 || s[0] == '\r' || s[0] == '\n' {
        Seq::empty()
    } else {
        seq![s[0]] + first_line(s.drop_first())
    }
}

proof fn lemma_first_line_no_breaks(s: Seq<char>)
    ensures
        !first_line(s).contains('\n'),
        !first_line(s).contains('\r'),
    decreases s.len(),
{
    if !(s.len() == 0 || s[0] == '\r' || s[0] == '\n') {
        lemma_first_line_no_breaks(s.drop_first());
        let f = first_line(s);
        assert forall|k: int| 0 <= k < f.len() implies f[k] != '\n' && f[k] != '\r' by {
            if k > 0 {
                assert(f[k] == first_line(s.drop_first())[k - 1]);
            }
        }
    }
}

/// The first line of pasted text.
pub fn paste_first_line(s: &str) -> (r: String)
    ensures
        r@ == first_line(s@),
{
    let cs = chars_of(s);
    let mut i: usize = 0;
    proof {
        assert(cs@.skip(0) =~= cs@);
        assert(cs@.take(0) + cs@ =~= cs@);
    }
    while i < cs.len() && cs[i] != '\r' && cs[i] != '\n'
        invariant
            i <= cs.len(),
            cs@ == s@,
            first_line(s@) == cs@.take(i as int) + first_line(cs@.skip(i as int)),
        decreases cs.len() - i,
    {
        proof {
            assert(cs@.skip(i as int).drop_first() =~= cs@.skip(i as int + 1));
            assert(cs@.take(i as int + 1) =~= cs@.take(i as int) + seq![cs@[i as int]]);
        }
        i += 1;
    }
    proof {
        assert(first_line(cs@.skip(i as int)) =~= Seq::<char>::empty());
        assert(cs@.take(i as int) + Seq::<char>::empty() =~= cs@.subrange(0, i as int));
    }
    string_of(slice_range(cs.as_slice(), 0, i).as_slice())
}

/// What a key press does, from state `old` to `new` with `effects`. A key
/// that the screen does not take itself goes to the input box: a typed
/// character goes in at the cursor (replacing a selection under way); for
/// other keys the text is the text area's, and the status and the popup are stated.
pub open spec fn key_spec(old: AppView, key: Key, new: AppView, effects: Seq<Effect>) -> bool {
    if key.ctrl && key.code == KeyCode::Char('c') {
        new == old && effects == seq![Effect::Exit]
    } else if key.code == KeyCode::Esc {
        cleared(old, new, None) && effects.len() == 0
    } else if old.popup_visible && key.code == KeyCode::Up {
        new == AppView {
            selected: if old.selected > 0 {
                (old.selected - 1) as nat
            } else {
                0
            },
            ..old
        } && effects.len() == 0
    } else if old.popup_visible && key.code == KeyCode::Down {
        let max: nat = if old.filtered.len() > 0 {
            (old.filtered.len() - 1) as nat
        } else {
            0
        };
        new == AppView {
            selected: if old.selected + 1 < max {
                old.selected + 1
            } else {
                max
            },
            ..old
        } && effects.len() == 0
    } else if old.popup_visible && key.code == KeyCode::Tab {
        effects.len() == 0 && match selected_name(old) {
            Some(n) => set_line(old, new, n),
            None => new == old,
        }
    } else if key.code == KeyCode::Enter {
        if old.popup_visible && selected_name(old) is Some {
            let n = selected_name(old)->0;
            submit_spec(
                AppView { input: n, cursor_col: 0, selecting: false, ..old },
                trim(n),
                new,
                effects,
            )
        } else {
            submit_spec(old, trim(old.input), new, effects)
        }
    } else {
        &&& edited(old, new)
        &&& effects.len() == 0
        &&& types_char(key) ==> !new.selecting
        &&& types_char(key) && !old.selecting ==> (key.code matches KeyCode::Char(c) && new.input
            == insert_at(old.input, old.cursor_col, seq![c]) && new.cursor_col == old.cursor_col + 1)
    }
}

/// What an action does, from state `old` to `new` with `effects`.
pub open spec fn dispatch_spec(old: AppView, action: Action, new: AppView, effects: Seq<Effect>) -> bool {
    match action {
        Action::Key(k) => key_spec(old, k, new, effects),
        Action::Paste(p) => effects.len() == 0 && if first_line(p@).len() == 0 {
            new == old
        } else {
            pasted_into(old, new, first_line(p@))
        },
        Action::SubmitCommand(c) => submit_spec(old, c@, new, effects),
        Action::StatusMessage(m) => cleared(old, new, Some(m@)) && effects.len() == 0,
    }
}

impl Screen {
    /// The input box holds one line with the cursor on it, and the popup has
    /// its shape.
    pub closed spec fn wf(&self) -> bool {
        &&& textarea_lines(self.input).len() == 1
        &&& textarea_cursor(self.input).0 == 0
        &&& structure_ok(self@)
    }

    /// A fresh entry screen with an empty input and a tip picked by the clock.
    pub fn new(status_message: Option<String>, stt_provider: Option<String>, llm_provider: Option<
        String,
    >) -> (app: Screen)
        ensures
            app.wf(),
            app@.input.len() == 0,
            app@.cursor_col == 0,
            !app@.selecting,
            !app@.popup_visible,
            app@.filtered.len() == 0,
            app@.selected == 0,
            app@.status == opt_view(status_message),
            app@.stt == opt_view(stt_provider),
            app@.llm == opt_view(llm_provider),
            exists|m: u128| app@.tip == #[trigger] tip_at(stt_provider is None, llm_provider is None, m),
    {
        let millis = match now_unix_millis() {
            Some(m) => m,
            None => 0,
        };
        let tip = pick_tip_at(&stt_provider, &llm_provider, millis);
        let mut app = Screen {
            input: textarea_empty(),
            filtered_commands: Vec::new(),
            selected_index: 0,
            popup_visible: false,
            status_message,
            tip,
            stt_provider,
            llm_provider,
        };
        proof {
            assert(app@.input =~= Seq::<char>::empty());
        }
        app.recompute_popup();
        app
    }

    /// The text of the input.
    pub fn input_text(&self) -> (r: String)
        ensures
            r@ == self@.input,
    {
        textarea_first_line(&self.input)
    }

    /// The input as a command: trimmed, without leading `/`, lower-cased.
    pub fn query(&self) -> (r: String)
        ensures
            r@ == submitted(self@.input),
    {
        let text = self.input_text();
        let cs = chars_of(text.as_str());
        let t = trim_chars(cs.as_slice());
        let st = strip_leading_chars(t.as_slice(), '/');
        let l = lower_chars(st.as_slice());
        string_of(l.as_slice())
    }

    /// The cursor's column in the input.
    pub fn cursor_col(&self) -> (r: usize)
        ensures
            r == self@.cursor_col,
    {
        textarea_cursor_col(&self.input)
    }

    /// Whether the command popup is shown.
    pub fn popup_visible(&self) -> (r: bool)
        ensures
            r == self@.popup_visible,
    {
        self.popup_visible
    }

    /// The popup's height in rows: its entries (between 1 and 6) plus two for the border.
    pub fn popup_height(&self) -> (r: u16)
        ensures
            r == (if self@.filtered.len() < 1 {
                1
            } else if self@.filtered.len() > 6 {
                6
            } else {
                self@.filtered.len()
            }) + 2,
    {
        let n = self.filtered_commands.len();
        let rows: u16 = if n < 1 {
            1
        } else if n > 6 {
            6
        } else {
            n as u16
        };
        rows + 2
    }

    /// The indices of the commands the popup lists, in order.
    pub fn filtered_commands(&self) -> (r: &[usize])
        ensures
            r@ == self@.filtered,
    {
        self.filtered_commands.as_slice()
    }

    /// The index of the selected entry of the popup.
    pub fn selected_index(&self) -> (r: usize)
        ensures
            r == self@.selected,
    {
        self.selected_index
    }

    /// The selected command, if the popup lists one at the selection.
    pub fn selected_command(&self) -> (r: Option<SlashCommand>)
        ensures
            r matches Some(c) ==> selected_name(self@) == Some(c.name@),
            r is None <==> selected_name(self@) is None,
    {
        if self.selected_index < self.filtered_commands.len() {
            let i = self.filtered_commands[self.selected_index];
            if i < COMMAND_COUNT {
                return Some(slash_command(i));
            }
        }
        None
    }

    /// Recomputes the popup from the input, keeping the selection inside it.
    fn recompute_popup(&mut self)
        ensures
            final(self).input == old(self).input,
            final(self).status_message == old(self).status_message,
            final(self).tip == old(self).tip,
            final(self).stt_provider == old(self).stt_provider,
            final(self).llm_provider == old(self).llm_provider,
            recomputed(old(self)@.selected, final(self)@),
            structure_ok(final(self)@),
    {
        let text = textarea_first_line(&self.input);
        let cs = chars_of(text.as_str());
        let (lo, hi) = trim_bounds(cs.as_slice());
        if lo == hi {
            self.popup_visible = false;
            self.filtered_commands = Vec::new();
            self.selected_index = 0;
            return;
        }
        self.popup_visible = true;
        let t = slice_range(cs.as_slice(), lo, hi);
        let query = strip_leading_chars(t.as_slice(), '/');
        let ranked = rank_commands(query.as_slice());
        proof {
            lemma_ranking_nonempty(query@, ranked@);
        }
        let n = ranked.len();
        self.filtered_commands = ranked;
        if self.selected_index >= n {
            self.selected_index = n - 1;
        }
    }

    /// Replaces the input box.
    fn replace_input(&mut self, input: InputBox)
        ensures
            final(self).input == input,
            final(self).filtered_commands == old(self).filtered_commands,
            final(self).selected_index == old(self).selected_index,
            final(self).popup_visible == old(self).popup_visible,
            final(self).status_message == old(self).status_message,
            final(self).tip == old(self).tip,
            final(self).stt_provider == old(self).stt_provider,
            final(self).llm_provider == old(self).llm_provider,
    {
        self.input = input;
    }

    /// Empties the input and the status, and recomputes the popup.
    fn clear_input(&mut self, status: Option<String>)
        ensures
            final(self).wf(),
            cleared(old(self)@, final(self)@, opt_view(status)),
    {
        self.replace_input(textarea_empty());
        self.status_message = status;
        self.recompute_popup();
        proof {
            assert(final(self)@.input =~= Seq::<char>::empty());
        }
    }

    /// Keeps the input to one line: extra lines are dropped with the cursor
    /// put at the start.
    fn normalize_single_line(&mut self)
        requires
            textarea_cursor(old(self).input).0 < textarea_lines(old(self).input).len(),
        ensures
            textarea_lines(final(self).input).len() == 1,
            textarea_cursor(final(self).input).0 == 0,
            line_of(textarea_lines(final(self).input)) == line_of(textarea_lines(old(self).input)),
            textarea_lines(old(self).input).len() == 1 ==> final(self).input == old(self).input,
            textarea_lines(old(self).input).len() != 1 ==> textarea_cursor(final(self).input) == (
            0nat, 0nat) && !textarea_selecting(final(self).input),
            final(self).filtered_commands == old(self).filtered_commands,
            final(self).selected_index == old(self).selected_index,
            final(self).popup_visible == old(self).popup_visible,
            final(self).status_message == old(self).status_message,
            final(self).tip == old(self).tip,
            final(self).stt_provider == old(self).stt_provider,
            final(self).llm_provider == old(self).llm_provider,
    {
        let current = textarea_first_line(&self.input);
        if textarea_line_count(&self.input) == 1 {
            return;
        }
        self.replace_input(textarea_of_line(current.as_str()));
    }

    /// Submits a command typed or passed on the command line.
    fn submit_command(&mut self, command: &str) -> (effects: Vec<Effect>)
        requires
            old(self).wf(),
        ensures
            final(self).wf(),
            submit_spec(old(self)@, command@, final(self)@, effects@),
    {
        let cs = chars_of(command);
        let t = trim_chars(cs.as_slice());
        let st = strip_leading_chars(t.as_slice(), '/');
        let n = lower_chars(st.as_slice());
        let mut effects: Vec<Effect> = Vec::new();
        proof {
            reveal_strlit("");
            assert(""@ =~= Seq::<char>::empty());
        }
        if chars_eq(n.as_slice(), chars_of("connect").as_slice()) {
            effects.push(Effect::LaunchConnect);
        } else if chars_eq(n.as_slice(), chars_of("listen").as_slice()) {
            effects.push(Effect::LaunchListen);
        } else if chars_eq(n.as_slice(), chars_of("exit").as_slice()) || chars_eq(
            n.as_slice(),
            chars_of("quit").as_slice(),
        ) {
            effects.push(Effect::Exit);
        } else if chars_eq(n.as_slice(), chars_of("auth").as_slice()) {
            self.clear_input(None);
            effects.push(Effect::OpenAuth);
        } else if chars_eq(n.as_slice(), chars_of("desktop").as_slice()) {
            self.clear_input(None);
            effects.push(Effect::OpenDesktop);
        } else if n.len() == 0 {
        } else {
            let mut msg = owned("Unknown command: ");
            push_all(&mut msg, string_of(t.as_slice()).as_str());
            self.status_message = Some(msg);
            proof {
                assert(final(self)@ == AppView { status: Some("Unknown command: "@ + trim(command@)), ..old(self)@ });
            }
        }
        effects
    }

    /// Applies an action to the entry screen and returns what the runner must do.
    pub fn dispatch(&mut self, action: Action) -> (effects: Vec<Effect>)
        requires
            old(self).wf(),
        ensures
            final(self).wf(),
            dispatch_spec(old(self)@, action, final(self)@, effects@),
    {
        match action {
            Action::Key(key) => self.handle_key(key),
            Action::Paste(pasted) => {
                self.handle_paste(pasted.as_str());
                Vec::new()
            },
            Action::SubmitCommand(command) => self.submit_command(command.as_str()),
            Action::StatusMessage(message) => {
                self.clear_input(Some(message));
                Vec::new()
            },
        }
    }

    fn handle_paste(&mut self, pasted: &str)
        requires
            old(self).wf(),
        ensures
            final(self).wf(),
            first_line(pasted@).len() == 0 ==> final(self)@ == old(self)@,
            first_line(pasted@).len() > 0 ==> pasted_into(old(self)@, final(self)@, first_line(pasted@)),
    {
        let f = paste_first_line(pasted);
        if f.as_str().is_empty() {
            proof {
                reveal_strlit("");
            }
            return;
        }
        proof {
            lemma_first_line_no_breaks(pasted@);
        }
        let _ = textarea_insert_str(&mut self.input, f.as_str());
        self.normalize_single_line();
        self.status_message = None;
        self.recompute_popup();
        proof {
            reveal_strlit("");
        }
    }

    fn handle_key(&mut self, key: Key) -> (effects: Vec<Effect>)
        requires
            old(self).wf(),
        ensures
            final(self).wf(),
            key_spec(old(self)@, key, final(self)@, effects@),
    {
        let mut effects: Vec<Effect> = Vec::new();
        if key.ctrl && key.code == KeyCode::Char('c') {
            effects.push(Effect::Exit);
            return effects;
        }
        if key.code == KeyCode::Esc {
            self.clear_input(None);
            return effects;
        }
        if self.popup_visible {
            if key.code == KeyCode::Up {
                if self.selected_index > 0 {
                    self.selected_index = self.selected_index - 1;
                }
                return effects;
            }
            if key.code == KeyCode::Down {
                let n = self.filtered_commands.len();
                let max = if n > 0 {
                    n - 1
                } else {
                    0
                };
                self.selected_index = if self.selected_index + 1 < max {
                    self.selected_index + 1
                } else {
                    max
                };
                return effects;
            }
            if key.code == KeyCode::Tab {
                match self.selected_command() {
                    Some(c) => {
                        self.replace_input(textarea_of_line(c.name));
                        self.recompute_popup();
                    },
                    None => {},
                }
                return effects;
            }
        }
        if key.code == KeyCode::Enter {
            if self.popup_visible {
                match self.selected_command() {
                    Some(c) => {
                        proof {
                            lemma_command_name_not_blank(
                                self.filtered_commands@[self.selected_index as int] as int,
                            );
                        }
                        self.replace_input(textarea_of_line(c.name));
                    },
                    None => {},
                }
            }
            let text = self.input_text();
            let cs = chars_of(text.as_str());
            let t = trim_chars(cs.as_slice());
            let command = string_of(t.as_slice());
            return self.submit_command(command.as_str());
        }
        let _ = textarea_input(&mut self.input, key);
        self.normalize_single_line();
        self.status_message = None;
        self.recompute_popup();
        effects
    }
}

impl Screen {
    /// An empty screen with no tip, used while the screen's state is worked on.
    fn blank() -> (r: Screen)
        ensures
            r.wf(),
    {
        let r = Screen {
            input: textarea_empty(),
            filtered_commands: Vec::new(),
            selected_index: 0,
            popup_visible: false,
            status_message: None,
            tip: "",
            stt_provider: None,
            llm_provider: None,
        };
        proof {
            assert(r@.input =~= Seq::<char>::empty());
            assert(trim(r@.input) =~= Seq::<char>::empty());
        }
        r
    }
}

/// The entry screen.
pub struct App {
    screen: Screen,
}

impl View for App {
    type V = AppView;

    closed spec fn view(&self) -> AppView {
        self.screen@
    }
}

impl App {
    /// The input box holds one line with the cursor on it, and the popup
    /// has its shape (`structure_ok`).
    #[verifier::type_invariant]
    spec fn well_formed(&self) -> bool {
        self.screen.wf()
    }

    /// A fresh entry screen with an empty input and a tip picked by the clock.
    pub fn new(status_message: Option<String>, stt_provider: Option<String>, llm_provider: Option<
        String,
    >) -> (app: App)
        ensures
            structure_ok(app@),
            app@.input.len() == 0,
            app@.cursor_col == 0,
            !app@.selecting,
            !app@.popup_visible,
            app@.filtered.len() == 0,
            app@.selected == 0,
            app@.status == opt_view(status_message),
            app@.stt == opt_view(stt_provider),
            app@.llm == opt_view(llm_provider),
            exists|m: u128| app@.tip == #[trigger] tip_at(stt_provider is None, llm_provider is None, m),
    {
        let ghost stt = stt_provider;
        let ghost llm = llm_provider;
        let screen = Screen::new(status_message, stt_provider, llm_provider);
        let app = App { screen };
        proof {
            assert(exists|m: u128| app@.tip == #[trigger] tip_at(stt is None, llm is None, m));
        }
        app
    }

    /// Applies an action to the entry screen and returns what the runner must
    /// do. Every state keeps `structure_ok`: the popup is shown exactly when
    /// the input is not blank, and lists existing commands, each once.
    pub fn dispatch(&mut self, action: Action) -> (effects: Vec<Effect>)
        ensures
            structure_ok(final(self)@),
            dispatch_spec(old(self)@, action, final(self)@, effects@),
    {
        proof {
            use_type_invariant(&*self);
        }
        let mut screen = Screen::blank();
        std::mem::swap(&mut screen, &mut self.screen);
        let effects = screen.dispatch(action);
        std::mem::swap(&mut screen, &mut self.screen);
        effects
    }

    /// The text of the input.
    pub fn input_text(&self) -> (r: String)
        ensures
            r@ == self@.input,
    {
        self.screen.input_text()
    }

    /// The input as a command: trimmed, without leading `/`, lower-cased.
    pub fn query(&self) -> (r: String)
        ensures
            r@ == submitted(self@.input),
    {
        self.screen.query()
    }

    /// The cursor's column in the input.
    pub fn cursor_col(&self) -> (r: usize)
        ensures
            r == self@.cursor_col,
    {
        self.screen.cursor_col()
    }

    /// Whether the command popup is shown.
    pub fn popup_visible(&self) -> (r: bool)
        ensures
            r == self@.popup_visible,
    {
        self.screen.popup_visible()
    }

    /// The popup's height in rows: its entries (between 1 and 6) plus two for the border.
    pub fn popup_height(&self) -> (r: u16)
        ensures
            r == (if self@.filtered.len() < 1 {
                1
            } else if self@.filtered.len() > 6 {
                6
            } else {
                self@.filtered.len()
            }) + 2,
    {
        self.screen.popup_height()
    }

    /// The indices of the commands the popup lists, in order.
    pub fn filtered_commands(&self) -> (r: &[usize])
        ensures
            r@ == self@.filtered,
    {
        self.screen.filtered_commands()
    }

    /// The index of the selected entry of the popup.
    pub fn selected_index(&self) -> (r: usize)
        ensures
            r == self@.selected,
    {
        self.screen.selected_index()
    }

    /// The selected command, if the popup lists one at the selection.
    pub fn selected_command(&self) -> (r: Option<SlashCommand>)
        ensures
            r matches Some(c) ==> selected_name(self@) == Some(c.name@),
            r is None <==> selected_name(self@) is None,
    {
        self.screen.selected_command()
    }

    /// The status line, if any.
    pub fn status_message(&self) -> (r: &Option<String>)
        ensures
            opt_view(*r) == self@.status,
    {
        &self.screen.status_message
    }

    /// The tip shown under the title.
    pub fn tip(&self) -> (r: &'static str)
        ensures
            r@ == self@.tip,
    {
        self.screen.tip
    }

    /// The speech-to-text provider, if one is configured.
    pub fn stt_provider(&self) -> (r: &Option<String>)
        ensures
            opt_view(*r) == self@.stt,
    {
        &self.screen.stt_provider
    }

    /// The language-model provider, if one is configured.
    pub fn llm_provider(&self) -> (r: &Option<String>)
        ensures
            opt_view(*r) == self@.llm,
    {
        &self.screen.llm_provider
    }
}

// ---------------------------------------------------------------------------
// Running the entry screen
// ---------------------------------------------------------------------------

/// Arguments of the entry screen.
pub struct Args {
    pub status_message: Option<String>,
    pub initial_command: Option<String>,
    pub stt_provider: Option<String>,
    pub llm_provider: Option<String>,
}

/// How the runner takes an effect: the screen ends with an action, or runs
/// the auth or desktop command and shows its outcome.
#[derive(Clone, Copy, Debug, PartialEq, Eq, Structural)]
pub enum EffectStep {
    Finish(EntryAction),
    RunAuth,
    RunDesktop,
}

/// The step for one effect.
pub fn effect_step(effect: &Effect) -> (r: EffectStep)
    ensures
        r == match *effect {
            Effect::LaunchListen => EffectStep::Finish(EntryAction::Listen),
            Effect::LaunchConnect => EffectStep::Finish(EntryAction::Connect),
            Effect::Exit => EffectStep::Finish(EntryAction::Quit),
            Effect::OpenAuth => EffectStep::RunAuth,
            Effect::OpenDesktop => EffectStep::RunDesktop,
        },
{
    match effect {
        Effect::LaunchListen => EffectStep::Finish(EntryAction::Listen),
        Effect::LaunchConnect => EffectStep::Finish(EntryAction::Connect),
        Effect::Exit => EffectStep::Finish(EntryAction::Quit),
        Effect::OpenAuth => EffectStep::RunAuth,
        Effect::OpenDesktop => EffectStep::RunDesktop,
    }
}

/// The status line after opening the auth page: a fixed text, or the error.
pub fn auth_status_message(outcome: Result<(), String>) -> (r: String)
    ensures
        outcome is Ok ==> r@ == "Opened auth page in browser"@,
        outcome matches Err(e) ==> r@ == e@,
{
    match outcome {
        Ok(()) => owned("Opened auth page in browser"),
        Err(e) => e,
    }
}

/// What opening the desktop app did.
pub enum DesktopOutcome {
    OpenedApp,
    OpenedDownloadPage,
    Failed(String),
}

/// The status line after trying to open the desktop app.
pub fn desktop_status_message(outcome: DesktopOutcome) -> (r: String)
    ensures
        outcome is OpenedApp ==> r@ == "Opened desktop app"@,
        outcome is OpenedDownloadPage ==> r@ == "Desktop app not found. Opened download page"@,
        outcome matches DesktopOutcome::Failed(e) ==> r@ == e@,
{
    match outcome {
        DesktopOutcome::OpenedApp => owned("Opened desktop app"),
        DesktopOutcome::OpenedDownloadPage => owned("Desktop app not found. Opened download page"),
        DesktopOutcome::Failed(e) => e,
    }
}

} // verus!
