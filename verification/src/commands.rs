//! Slash commands of the entry screen and how a typed query is matched
//! against them: ranking scores and the character positions to highlight.

use vstd::prelude::*;

use crate::text::{
    all_ascii, ascii_lower, chars_eq, chars_of, find, find_exec, lower, lower_chars, starts_with,
    starts_with_exec, strip_leading, lemma_find_from_sound, utf8_len, utf8_len_prefix,
    lemma_utf8_len_take_mono, lemma_utf8_len_concat, lemma_utf8_len_lower, lemma_utf8_len_bounds,
    lemma_utf8_len_ascii, strip_leading_chars, trim, trim_chars,
};

verus! {

/// A command offered by the entry screen's popup.
#[derive(Clone, Copy)]
pub struct SlashCommand {
    pub name: &'static str,
    pub description: &'static str,
}

/// How many slash commands there are.
pub const COMMAND_COUNT: usize = 5;

/// The name of the `i`-th slash command.
pub open spec fn command_name(i: int) -> Seq<char> {
    if i == 0 {
        "/connect"@
    } else if i == 1 {
        "/listen"@
    } else if i == 2 {
        "/auth"@
    } else if i == 3 {
        "/desktop"@
    } else {
        "/exit"@
    }
}

/// The description of the `i`-th slash command.
pub open spec fn command_description(i: int) -> Seq<char> {
    if i == 0 {
        "Connect provider"@
    } else if i == 1 {
        "Start live transcription"@
    } else if i == 2 {
        "Open auth in browser"@
    } else if i == 3 {
        "Open desktop app or download page"@
    } else {
        "Exit"@
    }
}

/// The `i`-th slash command, in the order the popup lists them unfiltered.
pub fn slash_command(i: usize) -> (c: SlashCommand)
    requires
        i < COMMAND_COUNT,
    ensures
        c.name@ == command_name(i as int),
        c.description@ == command_description(i as int),
{
    if i == 0 {
        SlashCommand { name: "/connect", description: "Connect provider" }
    } else if i == 1 {
        SlashCommand { name: "/listen", description: "Start live transcription" }
    } else if i == 2 {
        SlashCommand { name: "/auth", description: "Open auth in browser" }
    } else if i == 3 {
        SlashCommand { name: "/desktop", description: "Open desktop app or download page" }
    } else {
        SlashCommand { name: "/exit", description: "Exit" }
    }
}

/// All slash commands, in order.
pub fn commands() -> (r: Vec<SlashCommand>)
    ensures
        r.len() == COMMAND_COUNT,
        forall|i: int|
            0 <= i < COMMAND_COUNT ==> (#[trigger] r@[i]).name@ == command_name(i)
                && r@[i].description@ == command_description(i),
{
    let mut r: Vec<SlashCommand> = Vec::new();
    let mut i: usize = 0;
    while i < COMMAND_COUNT
        invariant
            i <= COMMAND_COUNT,
            r.len() == i,
            forall|k: int|
                0 <= k < i ==> (#[trigger] r@[k]).name@ == command_name(k)
                    && r@[k].description@ == command_description(k),
        decreases COMMAND_COUNT - i,
    {
        r.push(slash_command(i));
        i += 1;
    }
    r
}

/// Command names are short ASCII strings.
pub proof fn lemma_command_names_ascii(i: int)
    requires
        0 <= i < COMMAND_COUNT,
    ensures
        all_ascii(command_name(i)),
        command_name(i).len() <= 16,
{
    reveal_strlit("/connect");
    reveal_strlit("/listen");
    reveal_strlit("/auth");
    reveal_strlit("/desktop");
    reveal_strlit("/exit");
}

// ---------------------------------------------------------------------------
// Scoring
// ---------------------------------------------------------------------------

/// The score of matching `q` as a scattered subsequence of `c`, walking `c`
/// from index `i` with `q[qi]` the next character to find: each character
/// found right after the previous one earns 8, each gap costs its width, and
/// the characters of `c` left unmatched cost one each at the end.
pub open spec fn subseq_score(
    q: Seq<char>,
    c: Seq<char>,
    i: nat,
    qi: nat,
    score: int,
    prev: Option<nat>,
) -> Option<int>
    decreases c.len() - i,
{
    if i >= c.len() || qi >= q.len() {
        None
    } else if c[i as int] != q[qi as int] {
        subseq_score(q, c, i + 1, qi, score, prev)
    } else {
        let s2 = match prev {
            Some(p) => if i == p + 1 {
                score + 8
            } else {
                score - (i - p)
            },
            None => score,
        };
        if qi + 1 == q.len() {
            let rest = c.len() - (qi + 1);
            Some(s2 - (if rest > 0 {
                rest
            } else {
                0
            }))
        } else {
            subseq_score(q, c, i + 1, qi + 1, s2, Some(i))
        }
    }
}

/// The score of one already-normalized query against one normalized command
/// name: an empty query scores 1, a prefix 500 less the unmatched length, a
/// substring 350 less its position, otherwise the subsequence score.
pub open spec fn single_score(q: Seq<char>, c: Seq<char>) -> Option<int> {
    if q.len() == 0 {
        Some(1)
    } else if starts_with(c, q) {
        let penalty = c.len() - q.len();
        Some(
            500 - (if penalty > 0 {
                penalty
            } else {
                0
            }),
        )
    } else {
        match find(c, q) {
            Some(pos) => Some(350 - pos),
            None => subseq_score(q, c, 0, 0, 200, None),
        }
    }
}

/// The better of two optional scores.
pub open spec fn best_score(a: Option<int>, b: Option<int>) -> Option<int> {
    match (a, b) {
        (Some(x), Some(y)) => Some(if x >= y {
            x
        } else {
            y
        }),
        (Some(x), None) => Some(x),
        (None, Some(y)) => Some(y),
        (None, None) => None,
    }
}

/// The query as it is compared: trimmed and lower-cased.
pub open spec fn norm_query(query: Seq<char>) -> Seq<char> {
    lower(trim(query))
}

/// The command name as it is compared: without its leading `/`, lower-cased.
pub open spec fn norm_command(command: Seq<char>) -> Seq<char> {
    lower(strip_leading(command, '/'))
}

/// The score of `query` against `command`: the better of the direct score and
/// the score of each alias less 25 (`exit` has the alias `quit`); an empty
/// query matches everything with score 1.
pub open spec fn match_score(query: Seq<char>, command: Seq<char>) -> Option<int> {
    let q = norm_query(query);
    let c = norm_command(command);
    if q.len() == 0 {
        Some(1)
    } else {
        let direct = single_score(q, c);
        let alias = if c == "exit"@ {
            match single_score(q, "quit"@) {
                Some(s) => Some(s - 25),
                None => None,
            }
        } else {
            None
        };
        best_score(direct, alias)
    }
}

spec fn opt_nat(o: Option<usize>) -> Option<nat> {
    match o {
        Some(p) => Some(p as nat),
        None => None,
    }
}

/// `single_score` for an ASCII command name; the score is an `i32`, so the
/// name is short enough for the best score, 200 and 8 per character, to fit.
fn single_command_match_score(q: &[char], c: &[char]) -> (r: Option<i32>)
    requires
        all_ascii(c@),
        200 + 8 * c.len() <= i32::MAX,
    ensures
        r matches Some(x) ==> single_score(q@, c@) == Some(x as int),
        r is None ==> single_score(q@, c@) is None,
        r matches Some(x) ==> -2 * c.len() - 1000 <= x <= 500 + 8 * c.len(),
{
    if q.len() == 0 {
        return Some(1);
    }
    if starts_with_exec(c, q) {
        let penalty: i32 = (c.len() - q.len()) as i32;
        return Some(500 - penalty);
    }
    match find_exec(c, q) {
        Some(pos) => {
            proof {
                lemma_find_from_sound(c@, q@, 0);
            }
            return Some(350 - pos as i32);
        },
        None => {},
    }
    let mut qi: usize = 0;
    let mut score: i32 = 200;
    let mut prev: Option<usize> = None;
    let mut i: usize = 0;
    while i < c.len()
        invariant
            200 + 8 * c.len() <= i32::MAX,
            0 < q.len(),
            qi < q.len(),
            i <= c.len(),
            qi <= i,
            prev matches Some(p) ==> p < i && score >= 200 - p,
            prev is None ==> score == 200,
            score <= 200 + 8 * i,
            single_score(q@, c@) == subseq_score(
                q@,
                c@,
                i as nat,
                qi as nat,
                score as int,
                opt_nat(prev),
            ),
        decreases c.len() - i,
    {
        if c[i] == q[qi] {
            let s2: i32 = match prev {
                Some(p) => if i == p + 1 {
                    score + 8
                } else {
                    score - (i - p) as i32
                },
                None => score,
            };
            if qi + 1 == q.len() {
                let rest: i32 = (c.len() - (qi + 1)) as i32;
                return Some(s2 - rest);
            }
            qi += 1;
            score = s2;
            prev = Some(i);
        }
        i += 1;
    }
    None
}

/// The score of a query against a slash command name; `None` when it does not match.
pub fn command_match_score(query: &str, command: &str) -> (r: Option<i32>)
    requires
        all_ascii(command@),
        200 + 8 * command@.len() <= i32::MAX,
    ensures
        r matches Some(x) ==> match_score(query@, command@) == Some(x as int),
        r is None ==> match_score(query@, command@) is None,
{
    let qraw = chars_of(query);
    let qt = trim_chars(qraw.as_slice());
    let q = lower_chars(qt.as_slice());
    let craw = chars_of(command);
    let cs = strip_leading_chars(craw.as_slice(), '/');
    let c = lower_chars(cs.as_slice());
    proof {
        lemma_strip_leading_suffix(command@, '/');
        lemma_lower_ascii(strip_leading(command@, '/'));
    }
    let direct = single_command_match_score(q.as_slice(), c.as_slice());
    let exit = chars_of("exit");
    let alias: Option<i32> = if chars_eq(c.as_slice(), exit.as_slice()) {
        let quit = chars_of("quit");
        proof {
            reveal_strlit("quit");
        }
        match single_command_match_score(q.as_slice(), quit.as_slice()) {
            Some(s) => Some(s - 25),
            None => None,
        }
    } else {
        None
    };
    if q.len() == 0 {
        return Some(1);
    }
    match (direct, alias) {
        (Some(d), Some(a)) => Some(if d >= a {
            d
        } else {
            a
        }),
        (Some(d), None) => Some(d),
        (None, Some(a)) => Some(a),
        (None, None) => None,
    }
}

/// `strip_leading` keeps a suffix of its input.
pub proof fn lemma_strip_leading_suffix(s: Seq<char>, c: char)
    ensures
        strip_leading(s, c).len() <= s.len(),
        forall|i: int|
            0 <= i < strip_leading(s, c).len() ==> #[trigger] strip_leading(s, c)[i] == s[i
                + s.len() - strip_leading(s, c).len()],
    decreases s.len(),
{
    if s.len() > 0 && s[0] == c {
        lemma_strip_leading_suffix(s.drop_first(), c);
    }
}

/// Lower-casing keeps length and ASCII-ness.
pub proof fn lemma_lower_ascii(s: Seq<char>)
    ensures
        lower(s).len() == s.len(),
        all_ascii(s) ==> all_ascii(lower(s)),
{
    if all_ascii(s) {
        assert forall|i: int| 0 <= i < lower(s).len() implies (lower(s)[i] as u32) < 128 by {
            assert(lower(s)[i] == ascii_lower(s[i]));
        }
    }
}

// ---------------------------------------------------------------------------
// Highlighting
// ---------------------------------------------------------------------------

/// The positions in `c` that the greedy left-to-right match of `q` hits,
/// walking from `i` with `q[qi]` next and `acc` the hits so far; empty when
/// `q` does not occur as a subsequence.
pub open spec fn subseq_indices(
    q: Seq<char>,
    c: Seq<char>,
    i: nat,
    qi: nat,
    acc: Seq<nat>,
) -> Seq<nat>
    decreases c.len() - i,
{
    if i >= c.len() || qi >= q.len() {
        Seq::empty()
    } else if c[i as int] != q[qi as int] {
        subseq_indices(q, c, i + 1, qi, acc)
    } else if qi + 1 == q.len() {
        acc.push(i)
    } else {
        subseq_indices(q, c, i + 1, qi + 1, acc.push(i))
    }
}

/// The positions of the command name (after its `/`) to highlight for a
/// query: none for an empty query; the first characters for a prefix; for a
/// substring, consecutive positions starting at its byte offset (`str::find`
/// counts bytes); otherwise the greedy subsequence hits.
pub open spec fn highlight(query: Seq<char>, command: Seq<char>) -> Seq<nat> {
    let q = norm_query(query);
    let c = norm_command(command);
    if q.len() == 0 {
        Seq::empty()
    } else if starts_with(c, q) {
        Seq::new(q.len(), |k: int| k as nat)
    } else {
        match find(c, q) {
            Some(pos) => {
                let b = utf8_len(c.take(pos as int));
                Seq::new(q.len(), |k: int| (b + k) as nat)
            },
            None => subseq_indices(q, c, 0, 0, Seq::empty()),
        }
    }
}

/// The positions of `command` (without its leading `/`) that match `query`,
/// for the popup to highlight.
pub fn command_highlight_indices(query: &str, command: &str) -> (r: Vec<usize>)
    requires
        utf8_len(command@) <= usize::MAX,
    ensures
        r@.len() == highlight(query@, command@).len(),
        forall|k: int| 0 <= k < r@.len() ==> r@[k] as nat == #[trigger] highlight(query@, command@)[k],
{
    let qraw = chars_of(query);
    let qt = trim_chars(qraw.as_slice());
    let q = lower_chars(qt.as_slice());
    let craw = chars_of(command);
    let cs = strip_leading_chars(craw.as_slice(), '/');
    let c = lower_chars(cs.as_slice());
    let mut out: Vec<usize> = Vec::new();
    if q.len() == 0 {
        return out;
    }
    if starts_with_exec(c.as_slice(), q.as_slice()) {
        let mut k: usize = 0;
        while k < q.len()
            invariant
                k <= q.len(),
                out@.len() == k,
                forall|m: int| 0 <= m < k ==> out@[m] == m,
            decreases q.len() - k,
        {
            out.push(k);
            k += 1;
        }
        return out;
    }
    match find_exec(c.as_slice(), q.as_slice()) {
        Some(pos) => {
            proof {
                lemma_find_from_sound(c@, q@, 0);
                lemma_norm_command_utf8_len(command@);
                lemma_utf8_len_take_mono(c@, pos as int, pos + q@.len());
                lemma_utf8_len_concat(c@.take(pos as int), c@.subrange(pos as int, pos + q@.len()));
                assert(c@.take(pos as int) + c@.subrange(pos as int, pos + q@.len()) =~= c@.take(
                    pos + q@.len(),
                ));
                lemma_utf8_len_take_mono(c@, pos + q@.len(), c@.len() as int);
                assert(c@.take(c@.len() as int) =~= c@);
                lemma_utf8_len_bounds(q@);
            }
            let b = utf8_len_prefix(c.as_slice(), pos);
            let mut k: usize = 0;
            while k < q.len()
                invariant
                    k <= q.len(),
                    b + q.len() <= usize::MAX,
                    out@.len() == k,
                    forall|m: int| 0 <= m < k ==> out@[m] == b + m,
                decreases q.len() - k,
            {
                out.push(b + k);
                k += 1;
            }
            return out;
        },
        None => {},
    }
    let mut qi: usize = 0;
    let mut i: usize = 0;
    proof {
        assert(out@.map_values(|x: usize| x as nat) =~= Seq::<nat>::empty());
    }
    while i < c.len()
        invariant
            0 < q.len(),
            qi < q.len(),
            i <= c.len(),
            qi <= i,
            out@.len() == qi,
            highlight(query@, command@) == subseq_indices(
                q@,
                c@,
                i as nat,
                qi as nat,
                out@.map_values(|x: usize| x as nat),
            ),
        decreases c.len() - i,
    {
        if c[i] == q[qi] {
            if qi + 1 == q.len() {
                let ghost before = out@;
                out.push(i);
                proof {
                    assert(out@.map_values(|x: usize| x as nat) =~= before.map_values(
                        |x: usize| x as nat,
                    ).push(i as nat));
                }
                return out;
            }
            let ghost before = out@;
            out.push(i);
            proof {
                assert(out@.map_values(|x: usize| x as nat) =~= before.map_values(
                    |x: usize| x as nat,
                ).push(i as nat));
            }
            qi += 1;
        }
        i += 1;
    }
    Vec::new()
}

/// Normalizing a command name does not lengthen its UTF-8 encoding.
pub proof fn lemma_norm_command_utf8_len(command: Seq<char>)
    ensures
        utf8_len(norm_command(command)) <= utf8_len(command),
{
    let s = strip_leading(command, '/');
    lemma_strip_leading_suffix(command, '/');
    lemma_utf8_len_lower(s);
    let pre = command.take(command.len() - s.len());
    assert(pre + s =~= command);
    lemma_utf8_len_concat(pre, s);
}

/// The greedy subsequence walk either finds nothing or extends the hits so
/// far to one strictly increasing hit per query character.
proof fn lemma_subseq_indices_hits(q: Seq<char>, c: Seq<char>, i: nat, qi: nat, acc: Seq<nat>)
    requires
        acc.len() == qi,
        qi <= i,
        forall|k: int| 0 <= k < qi ==> #[trigger] acc[k] < i && c[acc[k] as int] == q[k],
        forall|a: int, b: int| 0 <= a < b < qi ==> acc[a] < acc[b],
    ensures
        ({
            let h = subseq_indices(q, c, i, qi, acc);
            &&& (h.len() == 0 || h.len() == q.len())
            &&& forall|k: int| 0 <= k < h.len() ==> #[trigger] h[k] < c.len() && c[h[k] as int] == q[k]
            &&& forall|a: int, b: int| 0 <= a < b < h.len() ==> h[a] < h[b]
        }),
    decreases c.len() - i,
{
    if i >= c.len() || qi >= q.len() {
    } else if c[i as int] != q[qi as int] {
        lemma_subseq_indices_hits(q, c, i + 1, qi, acc);
    } else {
        let acc2 = acc.push(i);
        assert forall|k: int| 0 <= k < qi + 1 implies #[trigger] acc2[k] < i + 1 && c[acc2[k] as int]
            == q[k] by {
            if k < qi {
                assert(acc2[k] == acc[k]);
            }
        }
        assert forall|a: int, b: int| 0 <= a < b < qi + 1 implies acc2[a] < acc2[b] by {
            assert(acc2[a] == acc[a]);
            if b < qi {
                assert(acc2[b] == acc[b]);
            }
        }
        if qi + 1 == q.len() {
        } else {
            lemma_subseq_indices_hits(q, c, i + 1, qi + 1, acc2);
        }
    }
}

/// The greedy subsequence walk finds hits exactly when the subsequence score exists.
proof fn lemma_subseq_walks_agree(
    q: Seq<char>,
    c: Seq<char>,
    i: nat,
    qi: nat,
    acc: Seq<nat>,
    score: int,
    prev: Option<nat>,
)
    ensures
        subseq_indices(q, c, i, qi, acc).len() > 0 <==> subseq_score(q, c, i, qi, score, prev) is Some,
    decreases c.len() - i,
{
    if i >= c.len() || qi >= q.len() {
    } else if c[i as int] != q[qi as int] {
        lemma_subseq_walks_agree(q, c, i + 1, qi, acc, score, prev);
    } else if qi + 1 == q.len() {
    } else {
        let s2 = match prev {
            Some(p) => if i == p + 1 {
                score + 8
            } else {
                score - (i - p)
            },
            None => score,
        };
        lemma_subseq_walks_agree(q, c, i + 1, qi + 1, acc.push(i), s2, Some(i));
    }
}

/// Law: for an ASCII command name, the highlighted positions spell out the
/// normalized query, one strictly increasing position per query character
/// (or there are none).
pub proof fn law_highlight_spells_query(query: Seq<char>, command: Seq<char>)
    requires
        all_ascii(command),
    ensures
        ({
            let h = highlight(query, command);
            let q = norm_query(query);
            let c = norm_command(command);
            &&& (h.len() == 0 || h.len() == q.len())
            &&& forall|k: int| 0 <= k < h.len() ==> #[trigger] h[k] < c.len() && c[h[k] as int] == q[k]
            &&& forall|a: int, b: int| 0 <= a < b < h.len() ==> h[a] < h[b]
        }),
{
    let q = norm_query(query);
    let c = norm_command(command);
    lemma_strip_leading_suffix(command, '/');
    lemma_lower_ascii(strip_leading(command, '/'));
    if q.len() == 0 {
    } else if starts_with(c, q) {
        assert forall|k: int| 0 <= k < q.len() implies c[k] == q[k] by {
            assert(c.take(q.len() as int)[k] == c[k]);
        }
    } else {
        match find(c, q) {
            Some(pos) => {
                lemma_find_from_sound(c, q, 0);
                assert(all_ascii(c.take(pos as int)));
                lemma_utf8_len_ascii(c.take(pos as int));
                assert forall|k: int| 0 <= k < q.len() implies c[pos + k] == q[k] by {
                    assert(c.subrange(pos as int, (pos + q.len()) as int)[k] == c[pos + k]);
                }
            },
            None => {
                lemma_subseq_indices_hits(q, c, 0, 0, Seq::empty());
            },
        }
    }
}

/// Law: for an ASCII command name and a non-empty query, some position is
/// highlighted exactly when the query matches the name itself (not an alias).
pub proof fn law_highlight_iff_direct_match(query: Seq<char>, command: Seq<char>)
    requires
        all_ascii(command),
        norm_query(query).len() > 0,
    ensures
        highlight(query, command).len() > 0 <==> single_score(
            norm_query(query),
            norm_command(command),
        ) is Some,
{
    let q = norm_query(query);
    let c = norm_command(command);
    if starts_with(c, q) {
    } else {
        match find(c, q) {
            Some(pos) => {},
            None => {
                lemma_subseq_walks_agree(q, c, 0, 0, Seq::empty(), 200, None);
            },
        }
    }
}

} // verus!
