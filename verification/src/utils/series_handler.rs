use vstd::prelude::*;

use crate::text::{chars_equal, byte_len_chars, chars_of, ends_with, ends_with_chars, starts_with, starts_with_chars};
use crate::utils::cards_handler::{dots, lemma_prefix_byte_len};

verus! {

/// A series with its wishlist count when known.
pub struct Series {
    pub name: String,
    pub wl: Option<u32>,
}

/// The value of a [`Series`].
pub struct SeriesView {
    pub name: Seq<char>,
    pub wl: Option<u32>,
}

impl View for Series {
    type V = SeriesView;

    open spec fn view(&self) -> SeriesView {
        SeriesView { name: self.name@, wl: self.wl }
    }
}

impl Series {
    /// A copy of this series.
    pub fn duplicate(&self) -> (r: Series)
        ensures
            r@ == self@,
    {
        Series { name: self.name.clone(), wl: self.wl }
    }
}

/// Whether the query name `card` names the stored series `serie`: names ending in `...` are
/// truncated, and a truncated name matches every name it is a prefix of.
pub open spec fn series_matches(card: Seq<char>, serie: Seq<char>) -> bool {
    let is_dot_card = ends_with(card, dots());
    let is_dot_serie = ends_with(serie, dots());
    if is_dot_serie && is_dot_card {
        starts_with(serie, card) || starts_with(card, serie)
    } else if is_dot_serie {
        starts_with(card, serie)
    } else if is_dot_card {
        starts_with(serie, card)
    } else {
        serie == card
    }
}

pub fn series_matches_chars(card: &Vec<char>, serie: &Vec<char>) -> (b: bool)
    ensures
        b == series_matches(card@, serie@),
{
    let three = vec!['.', '.', '.'];
    assert(three@ =~= dots());
    let is_dot_card = ends_with_chars(card, &three);
    let is_dot_serie = ends_with_chars(serie, &three);
    if is_dot_serie && is_dot_card {
        proof {
            if starts_with(serie@, card@) {
                lemma_prefix_byte_len(serie@, card@);
            }
            if starts_with(card@, serie@) {
                lemma_prefix_byte_len(card@, serie@);
            }
        }
        if byte_len_chars(serie) > byte_len_chars(card) {
            starts_with_chars(serie, card)
        } else {
            starts_with_chars(card, serie)
        }
    } else if is_dot_serie && !is_dot_card {
        starts_with_chars(card, serie)
    } else if !is_dot_serie && is_dot_card {
        starts_with_chars(serie, card)
    } else {
        chars_equal(serie, card)
    }
}

/// The index of the first stored series, at or after `i`, that the name `card` matches.
pub open spec fn first_match_from(entries: Seq<SeriesView>, card: Seq<char>, i: nat) -> Option<nat>
    decreases entries.len() - i,
{
    if i >= entries.len() {
        None
    } else if series_matches(card, entries[i as int].name) {
        Some(i)
    } else {
        first_match_from(entries, card, i + 1)
    }
}

pub open spec fn first_match(entries: Seq<SeriesView>, card: Seq<char>) -> Option<nat> {
    first_match_from(entries, card, 0)
}

pub proof fn lemma_first_match_from(entries: Seq<SeriesView>, card: Seq<char>, i: nat)
    ensures
        match first_match_from(entries, card, i) {
            Some(k) => i <= k < entries.len() && series_matches(card, entries[k as int].name)
                && forall|j: int| i <= j < k ==> !series_matches(card, #[trigger] entries[j].name),
            None => forall|j: int| i <= j < entries.len() ==> !series_matches(card, #[trigger] entries[j].name),
        },
    decreases entries.len() - i,
{
    if i < entries.len() {
        lemma_first_match_from(entries, card, i + 1);
    }
}

pub proof fn lemma_first_match_is(entries: Seq<SeriesView>, card: Seq<char>, k: nat, i: nat)
    requires
        i <= k < entries.len(),
        series_matches(card, entries[k as int].name),
        forall|j: int| 0 <= j < k ==> !series_matches(card, #[trigger] entries[j].name),
    ensures
        first_match_from(entries, card, i) == Some(k),
    decreases k - i,
{
    if i < k {
        lemma_first_match_is(entries, card, k, i + 1);
        assert(!series_matches(card, entries[i as int].name));
    }
}

/// What a lookup of `query` gives: the first stored series that it matches, or the query
/// itself when none does.
pub open spec fn lookup(entries: Seq<SeriesView>, query: SeriesView) -> SeriesView {
    match first_match(entries, query.name) {
        Some(i) => entries[i as int],
        None => query,
    }
}

/// What an update with `s` does: the stored series afterwards, and the record to write back.
/// The first stored series that matches takes the new wishlist count; when none matches, a
/// series whose name is not truncated is added.
pub open spec fn update(entries: Seq<SeriesView>, s: SeriesView) -> (Seq<SeriesView>, Option<SeriesView>) {
    match first_match(entries, s.name) {
        Some(i) => {
            let e = SeriesView { wl: s.wl, ..entries[i as int] };
            (entries.update(i as int, e), Some(e))
        },
        None => if !ends_with(s.name, dots()) {
            (entries.push(s), Some(s))
        } else {
            (entries, None)
        },
    }
}

/// Law: after an update that writes a record for `s`, looking `s` up gives back the wishlist
/// count that was written.
pub proof fn law_lookup_after_update(entries: Seq<SeriesView>, s: SeriesView)
    requires
        update(entries, s).1 is Some,
    ensures
        lookup(update(entries, s).0, s).wl == s.wl,
{
    let after = update(entries, s).0;
    lemma_first_match_from(entries, s.name, 0);
    match first_match(entries, s.name) {
        Some(i) => {
            assert forall|j: int| 0 <= j < i implies !series_matches(s.name, #[trigger] after[j].name) by {
                assert(after[j] == entries[j]);
            }
            lemma_first_match_is(after, s.name, i, 0);
        },
        None => {
            assert(after[entries.len() as int] == s);
            assert forall|j: int| 0 <= j < entries.len() implies !series_matches(
                s.name,
                #[trigger] after[j].name,
            ) by {
                assert(after[j] == entries[j]);
            }
            lemma_first_match_is(after, s.name, entries.len(), 0);
        },
    }
}

/// Law: two names of which neither is truncated (ends in `...`) match only when they are equal.
pub proof fn law_untruncated_names_match_when_equal(card: Seq<char>, serie: Seq<char>)
    requires
        !ends_with(card, dots()),
        !ends_with(serie, dots()),
    ensures
        series_matches(card, serie) <==> card == serie,
{
}

/// Law: looking up a name that is not truncated gives either the query itself, or a stored series
/// of exactly that name, or a stored truncated name (ending in `...`) that the query begins with.
pub proof fn law_untruncated_lookup_exact(entries: Seq<SeriesView>, query: SeriesView)
    requires
        !ends_with(query.name, dots()),
    ensures
        lookup(entries, query) == query || exists|i: int|
            0 <= i < entries.len() && entries[i] == #[trigger] lookup(entries, query) && (
            entries[i].name == query.name || (ends_with(entries[i].name, dots()) && starts_with(
                query.name,
                entries[i].name,
            ))),
{
    lemma_first_match_from(entries, query.name, 0);
}

/// Law: updating with the same series a second time changes a stored count instead of adding
/// another series.
pub proof fn law_update_twice_adds_nothing(entries: Seq<SeriesView>, s: SeriesView)
    ensures
        update(update(entries, s).0, s).0.len() == update(entries, s).0.len(),
{
    let after = update(entries, s).0;
    lemma_first_match_from(entries, s.name, 0);
    match first_match(entries, s.name) {
        Some(i) => {
            let e = SeriesView { wl: s.wl, ..entries[i as int] };
            assert(after == entries.update(i as int, e));
            assert forall|j: int| 0 <= j < i implies !series_matches(s.name, #[trigger] after[j].name) by {
                assert(after[j] == entries[j]);
            }
            lemma_first_match_is(after, s.name, i, 0);
        },
        None => {
            if !ends_with(s.name, dots()) {
                assert(after == entries.push(s));
                assert(after[entries.len() as int] == s);
                assert forall|j: int| 0 <= j < entries.len() implies !series_matches(
                    s.name,
                    #[trigger] after[j].name,
                ) by {
                    assert(after[j] == entries[j]);
                }
                lemma_first_match_is(after, s.name, entries.len(), 0);
            }
        },
    }
}

/// The series known to the wishlist analysis, searched by name.
pub struct SeriesIndex {
    series: Vec<Series>,
}

impl View for SeriesIndex {
    type V = Seq<SeriesView>;

    closed spec fn view(&self) -> Seq<SeriesView> {
        self.series@.map_values(|s: Series| s@)
    }
}

impl SeriesIndex {
    pub fn new() -> (r: SeriesIndex)
        ensures
            r@ == Seq::<SeriesView>::empty(),
    {
        let r = SeriesIndex { series: Vec::new() };
        assert(r@ =~= Seq::<SeriesView>::empty());
        r
    }

    /// The number of stored series.
    pub fn len(&self) -> (n: usize)
        ensures
            n == self@.len(),
    {
        self.series.len()
    }

    /// Adds a series loaded from the database.
    pub fn load(&mut self, s: Series)
        ensures
            final(self)@ == old(self)@.push(s@),
    {
        let ghost before = self.series@;
        self.series.push(s);
        assert(self@ =~= old(self)@.push(s@));
    }

    proof fn lemma_view(&self, i: int)
        requires
            0 <= i < self.series@.len(),
        ensures
            self@.len() == self.series@.len(),
            self@[i] == self.series@[i]@,
    {
    }

    fn first_match_index(&self, card: &Vec<char>) -> (r: Option<usize>)
        ensures
            match r {
                Some(i) => first_match(self@, card@) == Some(i as nat) && i < self@.len(),
                None => first_match(self@, card@) is None,
            },
    {
        let mut i: usize = 0;
        proof {
            lemma_first_match_from(self@, card@, 0);
        }
        while i < self.series.len()
            invariant
                i <= self@.len(),
                self@.len() == self.series@.len(),
                first_match(self@, card@) == first_match_from(self@, card@, i as nat),
            decreases self@.len() - i,
        {
            proof {
                self.lemma_view(i as int);
            }
            let name = chars_of(self.series[i].name.as_str());
            if series_matches_chars(card, &name) {
                return Some(i);
            }
            i = i + 1;
        }
        None
    }

    /// Looks `query` up: the first stored series whose name it matches, or `query` itself.
    pub fn find_one(&self, query: &Series) -> (r: Series)
        ensures
            r@ == lookup(self@, query@),
    {
        let card = chars_of(query.name.as_str());
        match self.first_match_index(&card) {
            Some(i) => {
                proof {
                    self.lemma_view(i as int);
                }
                self.series[i].duplicate()
            },
            None => query.duplicate(),
        }
    }

    /// Looks up each of `queries` (see [`SeriesIndex::find_one`]).
    pub fn find_series(&self, queries: &Vec<Series>) -> (r: Vec<Series>)
        ensures
            r@.len() == queries@.len(),
            forall|i: int| 0 <= i < queries@.len() ==> #[trigger] r@[i]@ == lookup(self@, queries@[i]@),
    {
        let mut r: Vec<Series> = Vec::new();
        let mut i: usize = 0;
        while i < queries.len()
            invariant
                i <= queries@.len(),
                r@.len() == i,
                forall|j: int| 0 <= j < i ==> #[trigger] r@[j]@ == lookup(self@, queries@[j]@),
            decreases queries@.len() - i,
        {
            r.push(self.find_one(&queries[i]));
            i = i + 1;
        }
        r
    }

    /// Sets the wishlist count of the first stored series that `s` matches, or adds `s` when
    /// none matches and its name is not truncated. Returns the record to write back, if any.
    pub fn update_series(&mut self, s: Series) -> (r: Option<Series>)
        ensures
            final(self)@ == update(old(self)@, s@).0,
            match r {
                Some(w) => update(old(self)@, s@).1 == Some(w@),
                None => update(old(self)@, s@).1 is None,
            },
    {
        let card = chars_of(s.name.as_str());
        match self.first_match_index(&card) {
            Some(i) => {
                proof {
                    self.lemma_view(i as int);
                }
                let updated = Series { name: self.series[i].name.clone(), wl: s.wl };
                let written = updated.duplicate();
                self.series.set(i, updated);
                assert(self@ =~= old(self)@.update(i as int, written@));
                Some(written)
            },
            None => {
                let three = vec!['.', '.', '.'];
                assert(three@ =~= dots());
                if !ends_with_chars(&card, &three) {
                    let written = s.duplicate();
                    let ghost before = self.series@;
                    self.series.push(s);
                    assert(self@ =~= old(self)@.push(written@));
                    Some(written)
                } else {
                    None
                }
            },
        }
    }
}

} // verus!
