//! Desktop plugins: which manifest entry points are accepted, the order
//! plugins are listed in, and the window sizes of the desktop commands.

use vstd::prelude::*;

use crate::text::{chars_of, lex_le, lex_le_exec, lemma_lex_total, lemma_lex_trans};

verus! {

/// A plugin found in the vault's plugin directory.
pub struct PluginManifestEntry {
    pub id: String,
    pub name: String,
    pub version: String,
    pub main_path: String,
}

/// The path rules a platform follows.
#[derive(Clone, Copy, Debug, PartialEq, Eq, Structural)]
pub enum PathStyle {
    /// `/` separates components; a path is absolute when it starts with `/`.
    Unix,
    /// `/` and `\` separate components; a path is absolute when it starts
    /// with a drive (`C:`) and a separator, or with `\\` (a UNC or device path).
    Windows,
}

/// Whether `c` separates path components.
pub open spec fn is_sep(c: char, style: PathStyle) -> bool {
    c == '/' || (style == PathStyle::Windows && c == '\\')
}

/// Whether `s` has a `..` component (between separators or at either end).
pub open spec fn has_parent_component(s: Seq<char>, style: PathStyle) -> bool {
    exists|i: int|
        #![trigger s[i]]
        0 <= i && i + 2 <= s.len() && s[i] == '.' && s[i + 1] == '.' && (i == 0 || is_sep(
            s[i - 1],
            style,
        )) && (i + 2 == s.len() || is_sep(s[i + 2], style))
}

/// Whether `s` is an absolute path.
pub open spec fn is_absolute(s: Seq<char>, style: PathStyle) -> bool {
    match style {
        PathStyle::Unix => s.len() > 0 && s[0] == '/',
        PathStyle::Windows => (s.len() >= 2 && s[0] == '\\' && s[1] == '\\') || (s.len() >= 3
            && (('a' <= s[0] && s[0] <= 'z') || ('A' <= s[0] && s[0] <= 'Z')) && s[1] == ':'
            && is_sep(s[2], style)),
    }
}

/// Whether a manifest's entry point may be loaded: a relative path without
/// a `..` component, so it stays inside the plugin's directory.
pub open spec fn main_path_ok(s: Seq<char>, style: PathStyle) -> bool {
    !is_absolute(s, style) && !has_parent_component(s, style)
}

fn sep_exec(c: char, style: PathStyle) -> (r: bool)
    ensures
        r == is_sep(c, style),
{
    c == '/' || (style == PathStyle::Windows && c == '\\')
}

fn absolute_exec(s: &[char], style: PathStyle) -> (r: bool)
    ensures
        r == is_absolute(s@, style),
{
    match style {
        PathStyle::Unix => s.len() > 0 && s[0] == '/',
        PathStyle::Windows => (s.len() >= 2 && s[0] == '\\' && s[1] == '\\') || (s.len() >= 3
            && (('a' <= s[0] && s[0] <= 'z') || ('A' <= s[0] && s[0] <= 'Z')) && s[1] == ':'
            && sep_exec(s[2], style)),
    }
}

/// Whether a manifest's entry point may be loaded, under a platform's path rules.
pub fn main_path_is_safe(main: &str, style: PathStyle) -> (r: bool)
    ensures
        r == main_path_ok(main@, style),
{
    let s = chars_of(main);
    if absolute_exec(s.as_slice(), style) {
        return false;
    }
    let mut i: usize = 0;
    while s.len() >= 2 && i <= s.len() - 2
        invariant
            s@ == main@,
            i <= s.len() || s.len() < 2,
            forall|k: int|
                #![trigger s@[k]]
                0 <= k < i ==> !(k + 2 <= s@.len() && s@[k] == '.' && s@[k + 1] == '.' && (k == 0
                    || is_sep(s@[k - 1], style)) && (k + 2 == s@.len() || is_sep(s@[k + 2], style))),
        decreases s.len() - i,
    {
        if s[i] == '.' && s[i + 1] == '.' && (i == 0 || sep_exec(s[i - 1], style)) && (i + 2
            == s.len() || sep_exec(s[i + 2], style)) {
            proof {
                assert(s@[i as int] == '.');
            }
            return false;
        }
        i += 1;
    }
    proof {
        assert forall|k: int|
            #![trigger s@[k]]
            0 <= k && k + 2 <= s@.len() && s@[k] == '.' && s@[k + 1] == '.' && (k == 0 || is_sep(
                s@[k - 1],
                style,
            )) implies !(k + 2 == s@.len() || is_sep(s@[k + 2], style)) by {
            assert(k < i);
        }
    }
    true
}

/// Where `id` goes among entries sorted by id, after those with equal ids:
/// before the first entry whose id is greater.
pub open spec fn insert_pos(sorted: Seq<Seq<char>>, id: Seq<char>) -> nat
    decreases sorted.len(),
{
    if sorted.len() == 0 {
        0
    } else if !lex_le(sorted[0], id) {
        0
    } else {
        1 + insert_pos(sorted.drop_first(), id)
    }
}

/// The ids of entries.
pub open spec fn ids(v: Seq<PluginManifestEntry>) -> Seq<Seq<char>> {
    v.map_values(|e: PluginManifestEntry| e.id@)
}

/// Entries sorted by id, stably: each entry in turn goes after the entries
/// with an id not greater than its own.
pub open spec fn sort_by_id(v: Seq<PluginManifestEntry>) -> Seq<PluginManifestEntry>
    decreases v.len(),
{
    if v.len() == 0 {
        Seq::empty()
    } else {
        let s = sort_by_id(v.drop_last());
        s.insert(insert_pos(ids(s), v.last().id@) as int, v.last())
    }
}

proof fn lemma_insert_pos_bound(sorted: Seq<Seq<char>>, id: Seq<char>)
    ensures
        insert_pos(sorted, id) <= sorted.len(),
        forall|k: int| 0 <= k < insert_pos(sorted, id) ==> lex_le(#[trigger] sorted[k], id),
        insert_pos(sorted, id) < sorted.len() ==> !lex_le(sorted[insert_pos(sorted, id) as int], id),
    decreases sorted.len(),
{
    if sorted.len() > 0 && lex_le(sorted[0], id) {
        let d = sorted.drop_first();
        lemma_insert_pos_bound(d, id);
        assert forall|k: int| 0 <= k < insert_pos(sorted, id) implies lex_le(
            #[trigger] sorted[k],
            id,
        ) by {
            if k > 0 {
                assert(sorted[k] == d[k - 1]);
            }
        }
    }
}

/// Sorts plugins by id, keeping plugins with equal ids in their order.
pub fn sort_plugins(entries: Vec<PluginManifestEntry>) -> (r: Vec<PluginManifestEntry>)
    ensures
        r@ == sort_by_id(entries@),
{
    let ghost orig = entries@;
    let mut input = entries;
    let mut result: Vec<PluginManifestEntry> = Vec::new();
    let mut idv: Vec<Vec<char>> = Vec::new();
    let ghost mut k: int = 0;
    proof {
        assert(orig.take(0) =~= Seq::<PluginManifestEntry>::empty());
        assert(input@ =~= orig.skip(0));
    }
    while input.len() > 0
        invariant
            0 <= k <= orig.len(),
            input@ == orig.skip(k),
            result@ == sort_by_id(orig.take(k)),
            idv@.len() == result@.len(),
            forall|j: int| 0 <= j < idv@.len() ==> (#[trigger] idv@[j])@ == result@[j].id@,
        decreases input@.len(),
    {
        let e = input.remove(0);
        let eid = chars_of(e.id.as_str());
        let mut p: usize = 0;
        proof {
            assert(ids(result@).skip(0) =~= ids(result@));
        }
        while p < result.len() && lex_le_exec(idv[p].as_slice(), eid.as_slice())
            invariant
                p <= result.len(),
                idv@.len() == result@.len(),
                forall|j: int| 0 <= j < idv@.len() ==> (#[trigger] idv@[j])@ == result@[j].id@,
                insert_pos(ids(result@), eid@) == p + insert_pos(ids(result@).skip(p as int), eid@),
            decreases result.len() - p,
        {
            proof {
                assert(ids(result@).skip(p as int).drop_first() =~= ids(result@).skip(p as int + 1));
                assert(ids(result@).skip(p as int)[0] == idv@[p as int]@);
            }
            p += 1;
        }
        proof {
            if p < result.len() {
                assert(ids(result@).skip(p as int)[0] == idv@[p as int]@);
            }
            assert(orig.take(k + 1).drop_last() =~= orig.take(k));
            assert(orig.take(k + 1).last() == e);
        }
        let ghost before = result@;
        let ghost ibefore = idv@;
        result.insert(p, e);
        idv.insert(p, eid);
        proof {
            before.insert_ensures(p as int, result@[p as int]);
            ibefore.insert_ensures(p as int, idv@[p as int]);
            k = k + 1;
            assert(input@ =~= orig.skip(k));
            assert(result@ =~= sort_by_id(orig.take(k)));
            assert forall|j: int| 0 <= j < idv@.len() implies (#[trigger] idv@[j])@
                == result@[j].id@ by {
                if j < p {
                    assert(idv@[j] == ibefore[j]);
                } else if j > p {
                    assert(idv@[j] == ibefore[j - 1]);
                }
            }
        }
    }
    proof {
        assert(orig.take(k) =~= orig);
    }
    result
}

/// Law: the listed plugins are in order of their ids.
pub proof fn law_sorted_by_id(v: Seq<PluginManifestEntry>)
    ensures
        forall|a: int, b: int|
            0 <= a < b < sort_by_id(v).len() ==> lex_le(
                #[trigger] sort_by_id(v)[a].id@,
                #[trigger] sort_by_id(v)[b].id@,
            ),
        sort_by_id(v).len() == v.len(),
    decreases v.len(),
{
    if v.len() > 0 {
        let s = sort_by_id(v.drop_last());
        law_sorted_by_id(v.drop_last());
        let e = v.last();
        let p = insert_pos(ids(s), e.id@);
        lemma_insert_pos_bound(ids(s), e.id@);
        let r = s.insert(p as int, e);
        s.insert_ensures(p as int, e);
        assert forall|a: int, b: int| 0 <= a < b < r.len() implies lex_le(
            #[trigger] r[a].id@,
            #[trigger] r[b].id@,
        ) by {
            if b < p {
                assert(r[a] == s[a] && r[b] == s[b]);
            } else if b == p {
                assert(r[a] == s[a]);
                assert(ids(s)[a] == s[a].id@);
            } else if a < p {
                assert(r[a] == s[a] && r[b] == s[b - 1]);
            } else if a == p {
                assert(r[b] == s[b - 1]);
                assert(ids(s)[p as int] == s[p as int].id@);
                lemma_lex_total(s[p as int].id@, e.id@);
                if b - 1 > p {
                    lemma_lex_trans(e.id@, s[p as int].id@, s[b - 1].id@);
                }
            } else {
                assert(r[a] == s[a - 1] && r[b] == s[b - 1]);
            }
        }
    }
}

/// Law: sorting keeps every plugin, as many times as it was there, and adds none.
pub proof fn law_sort_keeps_plugins(v: Seq<PluginManifestEntry>)
    ensures
        sort_by_id(v).to_multiset() == v.to_multiset(),
    decreases v.len(),
{
    if v.len() > 0 {
        let d = v.drop_last();
        law_sort_keeps_plugins(d);
        law_sorted_by_id(d);
        let s = sort_by_id(d);
        let p = insert_pos(ids(s), v.last().id@);
        lemma_insert_pos_bound(ids(s), v.last().id@);
        vstd::seq_lib::to_multiset_insert(s, p as int, v.last());
        vstd::seq_lib::to_multiset_build(d, v.last());
        assert(d.push(v.last()) =~= v);
        assert(sort_by_id(v) == s.insert(p as int, v.last()));
        assert(sort_by_id(v).to_multiset() == s.to_multiset().insert(v.last()));
        assert(v.to_multiset() == d.to_multiset().insert(v.last()));
    } else {
        assert(v =~= Seq::<PluginManifestEntry>::empty());
    }
}

// ---------------------------------------------------------------------------
// Desktop window sizes
// ---------------------------------------------------------------------------

/// The window width when the chat panel opens: 400 pixels wider.
pub fn chat_window_width(width: u32) -> (r: u32)
    requires
        width + 400 <= u32::MAX,
    ensures
        r == width + 400,
{
    width + 400
}

/// The window width when the sidebar opens: 280 pixels wider if narrower
/// than 840, else unchanged (`None`).
pub fn sidebar_window_width(width: u32) -> (r: Option<u32>)
    ensures
        width < 840 ==> r == Some((width + 280) as u32),
        width >= 840 ==> r is None,
{
    if width < 840 {
        Some(width + 280)
    } else {
        None
    }
}

} // verus!
