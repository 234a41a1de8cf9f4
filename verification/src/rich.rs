//! The rich transcript of `debug transcribe`: finalized words kept in the
//! order they arrive, words replaced by a later revision dropped with the
//! speaker hints that point at them, and the moment each word id was first
//! seen, from which the screen decides whether words are still fading in.
//!
//! Word and hint payloads are type parameters: only word ids and hint
//! targets are read here. Times are nanoseconds on one monotonic clock.

use vstd::prelude::*;

use crate::text::{str_eq, string_clone};

verus! {

/// What a speaker hint points at: a finalized word by id, or a word by its
/// position among all words.
pub enum WordRef {
    FinalWordId(String),
    RuntimeIndex(usize),
}

/// A finalized word: its id and the rest of it.
pub struct FinalWord<W> {
    pub id: String,
    pub data: W,
}

/// A speaker hint: its target and the rest of it.
pub struct SpeakerHint<H> {
    pub target: WordRef,
    pub data: H,
}

/// A change to the transcript.
pub struct TranscriptDelta<W, P, H> {
    pub replaced_ids: Vec<String>,
    pub new_words: Vec<FinalWord<W>>,
    pub hints: Vec<SpeakerHint<H>>,
    pub partials: Vec<P>,
    pub partial_hints: Vec<SpeakerHint<H>>,
}

/// The rich transcript.
pub struct RichState<W, P, H> {
    pub words: Vec<FinalWord<W>>,
    pub partials: Vec<P>,
    pub hints: Vec<SpeakerHint<H>>,
    pub partial_hints: Vec<SpeakerHint<H>>,
    /// Each word id with the time it was first seen.
    pub first_seen: Vec<(String, u128)>,
}

/// The characters of each string.
pub open spec fn id_views(v: Seq<String>) -> Seq<Seq<char>> {
    v.map_values(|s: String| s@)
}

/// Whether a word survives a revision that replaced the ids `replaced`.
pub open spec fn keeps_word<W>(replaced: Seq<Seq<char>>, w: FinalWord<W>) -> bool {
    !replaced.contains(w.id@)
}

/// Whether a hint survives: hints at a replaced word go with it; hints by
/// position stay.
pub open spec fn keeps_hint<H>(replaced: Seq<Seq<char>>, h: SpeakerHint<H>) -> bool {
    match h.target {
        WordRef::FinalWordId(id) => !replaced.contains(id@),
        WordRef::RuntimeIndex(_) => true,
    }
}

/// The words that survive, in order.
pub open spec fn kept_words<W>(replaced: Seq<Seq<char>>, ws: Seq<FinalWord<W>>) -> Seq<
    FinalWord<W>,
>
    decreases ws.len(),
{
    if ws.len() == 0 {
        ws
    } else {
        let k = kept_words(replaced, ws.drop_last());
        if keeps_word(replaced, ws.last()) {
            k.push(ws.last())
        } else {
            k
        }
    }
}

/// The hints that survive, in order.
pub open spec fn kept_hints<H>(replaced: Seq<Seq<char>>, hs: Seq<SpeakerHint<H>>) -> Seq<
    SpeakerHint<H>,
>
    decreases hs.len(),
{
    if hs.len() == 0 {
        hs
    } else {
        let k = kept_hints(replaced, hs.drop_last());
        if keeps_hint(replaced, hs.last()) {
            k.push(hs.last())
        } else {
            k
        }
    }
}

/// The first-seen times as a map from word id.
pub open spec fn seen_map(v: Seq<(String, u128)>) -> Map<Seq<char>, u128>
    decreases v.len(),
{
    if v.len() == 0 {
        Map::empty()
    } else {
        seen_map(v.drop_last()).insert(v.last().0@, v.last().1)
    }
}

/// Records `now` for each id not seen before, in order; an id seen before
/// keeps its time.
pub open spec fn record_seen(m: Map<Seq<char>, u128>, ids: Seq<Seq<char>>, now: u128) -> Map<
    Seq<char>,
    u128,
>
    decreases ids.len(),
{
    if ids.len() == 0 {
        m
    } else {
        let m2 = record_seen(m, ids.drop_last(), now);
        if m2.dom().contains(ids.last()) {
            m2
        } else {
            m2.insert(ids.last(), now)
        }
    }
}

/// The ids of words.
pub open spec fn word_ids<W>(ws: Seq<FinalWord<W>>) -> Seq<Seq<char>> {
    ws.map_values(|w: FinalWord<W>| w.id@)
}

/// `Instant::duration_since`: zero when `t` is later than `now`.
pub open spec fn elapsed_since(now: u128, t: u128) -> int {
    if now >= t {
        now - t
    } else {
        0
    }
}

/// Whether some word was first seen less than half a second before `now`.
pub open spec fn any_recent(m: Map<Seq<char>, u128>, now: u128) -> bool {
    exists|k: Seq<char>| m.dom().contains(k) && elapsed_since(now, #[trigger] m[k]) < 500_000_000
}

proof fn lemma_seen_map_dom(v: Seq<(String, u128)>, k: Seq<char>)
    ensures
        seen_map(v).dom().contains(k) <==> exists|i: int| 0 <= i < v.len() && (#[trigger] v[i]).0@ == k,
    decreases v.len(),
{
    if v.len() > 0 {
        lemma_seen_map_dom(v.drop_last(), k);
        if seen_map(v.drop_last()).dom().contains(k) {
            let i = choose|i: int| 0 <= i < v.drop_last().len() && (#[trigger] v.drop_last()[i]).0@ == k;
            assert(v[i] == v.drop_last()[i]);
        }
        if exists|i: int| 0 <= i < v.len() && (#[trigger] v[i]).0@ == k {
            let i = choose|i: int| 0 <= i < v.len() && (#[trigger] v[i]).0@ == k;
            if i < v.len() - 1 {
                assert(v.drop_last()[i] == v[i]);
            }
        }
    }
}

proof fn lemma_seen_map_value(v: Seq<(String, u128)>, i: int)
    requires
        0 <= i < v.len(),
        forall|a: int, b: int| 0 <= a < b < v.len() ==> (#[trigger] v[a]).0@ != (#[trigger] v[b]).0@,
    ensures
        seen_map(v).dom().contains(v[i].0@),
        seen_map(v)[v[i].0@] == v[i].1,
    decreases v.len(),
{
    if i < v.len() - 1 {
        let d = v.drop_last();
        assert(d[i] == v[i]);
        assert forall|a: int, b: int| 0 <= a < b < d.len() implies (#[trigger] d[a]).0@ != (
        #[trigger] d[b]).0@ by {
            assert(d[a] == v[a] && d[b] == v[b]);
        }
        lemma_seen_map_value(d, i);
        assert(v[i].0@ != v.last().0@);
    }
}

impl<W, P, H> RichState<W, P, H> {
    /// No word id is recorded twice.
    pub closed spec fn wf(&self) -> bool {
        forall|a: int, b: int|
            0 <= a < b < self.first_seen@.len() ==> (#[trigger] self.first_seen@[a]).0@ != (
            #[trigger] self.first_seen@[b]).0@
    }

    /// When each word id was first seen.
    pub closed spec fn first_seen_map(&self) -> Map<Seq<char>, u128> {
        seen_map(self.first_seen@)
    }

    pub fn new() -> (r: Self)
        ensures
            r.wf(),
            r.words@.len() == 0,
            r.partials@.len() == 0,
            r.hints@.len() == 0,
            r.partial_hints@.len() == 0,
            r.first_seen_map() == Map::<Seq<char>, u128>::empty(),
    {
        RichState {
            words: Vec::new(),
            partials: Vec::new(),
            hints: Vec::new(),
            partial_hints: Vec::new(),
            first_seen: Vec::new(),
        }
    }

    fn seen_index(&self, id: &str) -> (r: Option<usize>)
        ensures
            match r {
                Some(i) => i < self.first_seen@.len() && self.first_seen@[i as int].0@ == id@,
                None => forall|i: int|
                    0 <= i < self.first_seen@.len() ==> (#[trigger] self.first_seen@[i]).0@ != id@,
            },
    {
        let mut i: usize = 0;
        while i < self.first_seen.len()
            invariant
                i <= self.first_seen@.len(),
                forall|j: int| 0 <= j < i ==> (#[trigger] self.first_seen@[j]).0@ != id@,
            decreases self.first_seen@.len() - i,
        {
            if str_eq(self.first_seen[i].0.as_str(), id) {
                return Some(i);
            }
            i += 1;
        }
        None
    }

    /// Applies a change: drops the replaced words and the hints at them,
    /// appends the new words and hints, takes the new partial words and
    /// hints, and records `now` for word ids not seen before.
    pub fn apply_delta(&mut self, delta: TranscriptDelta<W, P, H>, now: u128)
        requires
            old(self).wf(),
        ensures
            final(self).wf(),
            final(self).words@ == kept_words(id_views(delta.replaced_ids@), old(self).words@)
                + delta.new_words@,
            final(self).hints@ == kept_hints(id_views(delta.replaced_ids@), old(self).hints@)
                + delta.hints@,
            final(self).partials@ == delta.partials@,
            final(self).partial_hints@ == delta.partial_hints@,
            final(self).first_seen_map() == record_seen(
                old(self).first_seen_map(),
                word_ids(delta.new_words@),
                now,
            ),
    {
        let TranscriptDelta { replaced_ids, new_words, hints, partials, partial_hints } = delta;
        let ghost replaced = id_views(replaced_ids@);
        let ghost old_words = self.words@;
        let ghost old_hints = self.hints@;
        let ghost old_map = seen_map(self.first_seen@);

        // Words that survive the revision.
        let mut rest: Vec<FinalWord<W>> = Vec::new();
        std::mem::swap(&mut rest, &mut self.words);
        let mut kept: Vec<FinalWord<W>> = Vec::new();
        let ghost mut n: int = 0;
        while rest.len() > 0
            invariant
                0 <= n <= old_words.len(),
                rest@ == old_words.skip(n),
                kept@ == kept_words(replaced, old_words.take(n)),
                replaced == id_views(replaced_ids@),
            decreases rest@.len(),
        {
            let w = rest.remove(0);
            let gone = contains_id(&replaced_ids, w.id.as_str());
            proof {
                assert(old_words.take(n + 1).drop_last() =~= old_words.take(n));
                assert(old_words.take(n + 1).last() == w);
                n = n + 1;
                assert(rest@ =~= old_words.skip(n));
            }
            if !gone {
                kept.push(w);
            }
        }
        proof {
            assert(old_words.take(n) =~= old_words);
        }

        // Hints that survive the revision.
        let mut hrest: Vec<SpeakerHint<H>> = Vec::new();
        std::mem::swap(&mut hrest, &mut self.hints);
        let mut hkept: Vec<SpeakerHint<H>> = Vec::new();
        let ghost mut m: int = 0;
        while hrest.len() > 0
            invariant
                0 <= m <= old_hints.len(),
                hrest@ == old_hints.skip(m),
                hkept@ == kept_hints(replaced, old_hints.take(m)),
                replaced == id_views(replaced_ids@),
            decreases hrest@.len(),
        {
            let h = hrest.remove(0);
            let keep = match &h.target {
                WordRef::FinalWordId(id) => !contains_id(&replaced_ids, id.as_str()),
                WordRef::RuntimeIndex(_) => true,
            };
            proof {
                assert(old_hints.take(m + 1).drop_last() =~= old_hints.take(m));
                assert(old_hints.take(m + 1).last() == h);
                m = m + 1;
                assert(hrest@ =~= old_hints.skip(m));
            }
            if keep {
                hkept.push(h);
            }
        }
        proof {
            assert(old_hints.take(m) =~= old_hints);
        }

        // First sightings of the new words.
        let ghost ids = word_ids(new_words@);
        let mut i: usize = 0;
        while i < new_words.len()
            invariant
                i <= new_words@.len(),
                ids == word_ids(new_words@),
                self.wf(),
                seen_map(self.first_seen@) == record_seen(old_map, ids.take(i as int), now),
            decreases new_words@.len() - i,
        {
            let found = self.seen_index(new_words[i].id.as_str());
            proof {
                assert(ids.take(i as int + 1).drop_last() =~= ids.take(i as int));
                assert(ids.take(i as int + 1).last() == new_words@[i as int].id@);
                lemma_seen_map_dom(self.first_seen@, new_words@[i as int].id@);
            }
            if found.is_none() {
                let ghost before = self.first_seen@;
                self.first_seen.push((string_clone(&new_words[i].id), now));
                proof {
                    assert(self.first_seen@.drop_last() =~= before);
                    assert forall|a: int, b: int|
                        0 <= a < b < self.first_seen@.len() implies (
                        #[trigger] self.first_seen@[a]).0@ != (#[trigger] self.first_seen@[b]).0@ by {
                        if b == self.first_seen@.len() - 1 {
                            assert(self.first_seen@[a] == before[a]);
                        } else {
                            assert(self.first_seen@[a] == before[a]);
                            assert(self.first_seen@[b] == before[b]);
                        }
                    }
                }
            }
            i += 1;
        }
        proof {
            assert(ids.take(new_words@.len() as int) =~= ids);
        }

        let mut new_words = new_words;
        let mut hints = hints;
        kept.append(&mut new_words);
        hkept.append(&mut hints);
        self.words = kept;
        self.hints = hkept;
        self.partials = partials;
        self.partial_hints = partial_hints;
    }

    /// Whether a word was first seen less than half a second before `now`.
    pub fn has_recent_words(&self, now: u128) -> (r: bool)
        requires
            self.wf(),
        ensures
            r == any_recent(self.first_seen_map(), now),
    {
        let mut i: usize = 0;
        while i < self.first_seen.len()
            invariant
                i <= self.first_seen@.len(),
                self.wf(),
                forall|j: int|
                    0 <= j < i ==> elapsed_since(now, (#[trigger] self.first_seen@[j]).1)
                        >= 500_000_000,
            decreases self.first_seen@.len() - i,
        {
            let t = self.first_seen[i].1;
            let age: u128 = if now >= t {
                now - t
            } else {
                0
            };
            if age < 500_000_000 {
                proof {
                    lemma_seen_map_value(self.first_seen@, i as int);
                }
                return true;
            }
            i += 1;
        }
        proof {
            let m = seen_map(self.first_seen@);
            assert forall|k: Seq<char>| m.dom().contains(k) implies elapsed_since(now, #[trigger] m[k])
                >= 500_000_000 by {
                lemma_seen_map_dom(self.first_seen@, k);
                let j = choose|j: int| 0 <= j < self.first_seen@.len() && (#[trigger] self.first_seen@[j]).0@ == k;
                lemma_seen_map_value(self.first_seen@, j);
            }
        }
        false
    }

    /// How long ago, in nanoseconds, the word with this id was first seen;
    /// `None` for an id never seen.
    pub fn word_age(&self, id: &str, now: u128) -> (r: Option<u128>)
        requires
            self.wf(),
        ensures
            self.first_seen_map().dom().contains(id@) ==> r == Some(
                elapsed_since(now, self.first_seen_map()[id@]) as u128,
            ),
            !self.first_seen_map().dom().contains(id@) ==> r is None,
    {
        let found = self.seen_index(id);
        proof {
            lemma_seen_map_dom(self.first_seen@, id@);
        }
        match found {
            Some(i) => {
                proof {
                    lemma_seen_map_value(self.first_seen@, i as int);
                }
                let t = self.first_seen[i].1;
                if now >= t {
                    Some(now - t)
                } else {
                    Some(0)
                }
            },
            None => None,
        }
    }
}

/// Whether `id` is one of `ids`.
fn contains_id(ids: &Vec<String>, id: &str) -> (r: bool)
    ensures
        r == id_views(ids@).contains(id@),
{
    let mut i: usize = 0;
    while i < ids.len()
        invariant
            i <= ids@.len(),
            forall|j: int| 0 <= j < i ==> (#[trigger] ids@[j])@ != id@,
        decreases ids@.len() - i,
    {
        if str_eq(ids[i].as_str(), id) {
            proof {
                assert(id_views(ids@)[i as int] == id@);
            }
            return true;
        }
        i += 1;
    }
    proof {
        if id_views(ids@).contains(id@) {
            let j = choose|j: int| 0 <= j < id_views(ids@).len() && id_views(ids@)[j] == id@;
            assert(ids@[j]@ == id@);
        }
    }
    false
}

/// The target of a partial word's hint among all words: a position among
/// the partial words moves past the `final_count` finalized words.
pub fn shift_partial_target(target: &WordRef, final_count: usize) -> (r: WordRef)
    requires
        target matches WordRef::RuntimeIndex(i) ==> i + final_count <= usize::MAX,
    ensures
        match *target {
            WordRef::RuntimeIndex(i) => r == WordRef::RuntimeIndex((i + final_count) as usize),
            WordRef::FinalWordId(id) => r matches WordRef::FinalWordId(id2) && id2@ == id@,
        },
{
    match target {
        WordRef::RuntimeIndex(i) => WordRef::RuntimeIndex(*i + final_count),
        WordRef::FinalWordId(id) => WordRef::FinalWordId(string_clone(id)),
    }
}

/// Law: no word whose id a revision replaced is kept, and every kept word
/// was there before.
pub proof fn law_replaced_words_dropped<W>(replaced: Seq<Seq<char>>, ws: Seq<FinalWord<W>>)
    ensures
        forall|i: int|
            0 <= i < kept_words(replaced, ws).len() ==> !replaced.contains(
                (#[trigger] kept_words(replaced, ws)[i]).id@,
            ) && ws.contains(kept_words(replaced, ws)[i]),
        kept_words(replaced, ws).len() <= ws.len(),
    decreases ws.len(),
{
    if ws.len() > 0 {
        let d = ws.drop_last();
        law_replaced_words_dropped(replaced, d);
        let k = kept_words(replaced, d);
        assert forall|i: int| 0 <= i < kept_words(replaced, ws).len() implies !replaced.contains(
            (#[trigger] kept_words(replaced, ws)[i]).id@,
        ) && ws.contains(kept_words(replaced, ws)[i]) by {
            if i < k.len() {
                assert(kept_words(replaced, ws)[i] == k[i]);
                let j = choose|j: int| 0 <= j < d.len() && d[j] == k[i];
                assert(ws[j] == d[j]);
            } else {
                assert(ws[ws.len() - 1] == ws.last());
            }
        }
    }
}

proof fn lemma_first_seen_kept_one(m: Map<Seq<char>, u128>, ids: Seq<Seq<char>>, now: u128, k: Seq<char>)
    requires
        m.dom().contains(k),
    ensures
        record_seen(m, ids, now).dom().contains(k),
        record_seen(m, ids, now)[k] == m[k],
    decreases ids.len(),
{
    if ids.len() > 0 {
        lemma_first_seen_kept_one(m, ids.drop_last(), now, k);
    }
}

proof fn lemma_first_seen_added(m: Map<Seq<char>, u128>, ids: Seq<Seq<char>>, now: u128, i: int)
    requires
        0 <= i < ids.len(),
    ensures
        record_seen(m, ids, now).dom().contains(ids[i]),
    decreases ids.len(),
{
    if i < ids.len() - 1 {
        lemma_first_seen_added(m, ids.drop_last(), now, i);
        let m2 = record_seen(m, ids.drop_last(), now);
        assert(ids.drop_last()[i] == ids[i]);
        if !m2.dom().contains(ids.last()) {
            assert(m2.insert(ids.last(), now).dom().contains(ids[i]));
        }
    }
}

/// Law: once a word id has a first-seen time, later changes keep it, and
/// every new id gets one.
pub proof fn law_first_seen_kept(m: Map<Seq<char>, u128>, ids: Seq<Seq<char>>, now: u128)
    ensures
        forall|k: Seq<char>|
            m.dom().contains(k) ==> #[trigger] record_seen(m, ids, now).dom().contains(k)
                && record_seen(m, ids, now)[k] == m[k],
        forall|i: int|
            0 <= i < ids.len() ==> record_seen(m, ids, now).dom().contains(#[trigger] ids[i]),
{
    assert forall|k: Seq<char>| m.dom().contains(k) implies #[trigger] record_seen(
        m,
        ids,
        now,
    ).dom().contains(k) && record_seen(m, ids, now)[k] == m[k] by {
        lemma_first_seen_kept_one(m, ids, now, k);
    }
    assert forall|i: int| 0 <= i < ids.len() implies record_seen(m, ids, now).dom().contains(
        #[trigger] ids[i],
    ) by {
        lemma_first_seen_added(m, ids, now, i);
    }
}

} // verus!
