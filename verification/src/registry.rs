//! The URL registry: the table from short code to long URL, and the
//! allocation of fresh codes.
//!
//! A registry is modelled by the sequence of its allocations, oldest first,
//! each a pair of code and long URL. Nothing is ever removed or changed, so
//! this sequence only grows at its end.

use crate::code::{generate_short_code, is_short_code, is_short_code_str};
use crate::laws::law_round_trip;
use vstd::hash_map::StringHashMap;
use vstd::prelude::*;

verus! {

/// The model of one allocation: the code, then the long URL.
pub type Pair = (Seq<char>, Seq<char>);

/// How many candidates `UrlRegistry::new` lets one `shorten` draw.
pub const DEFAULT_MAX_DRAWS: usize = 64;

/// Whether some allocation in `entries` carries `code`.
pub open spec fn has_code(entries: Seq<Pair>, code: Seq<char>) -> bool {
    exists|i: int| 0 <= i < entries.len() && (#[trigger] entries[i]).0 == code
}

/// The long URL that `entries` maps `code` to, if any. Matching is exact:
/// the whole code, case included.
pub open spec fn url_of(entries: Seq<Pair>, code: Seq<char>) -> Option<Seq<char>> {
    if has_code(entries, code) {
        let i = choose|i: int| 0 <= i < entries.len() && (#[trigger] entries[i]).0 == code;
        Some(entries[i].1)
    } else {
        None
    }
}

/// No two allocations share a code.
pub open spec fn codes_distinct(entries: Seq<Pair>) -> bool {
    forall|i: int, j: int|
        0 <= i < j < entries.len() ==> (#[trigger] entries[i]).0 != (#[trigger] entries[j]).0
}

/// Every code is six characters of the alphabet.
pub open spec fn codes_well_formed(entries: Seq<Pair>) -> bool {
    forall|i: int| 0 <= i < entries.len() ==> is_short_code((#[trigger] entries[i]).0)
}

/// One successful allocation: `code` is well-formed and new to `before`,
/// and `after` is `before` with the pair `(code, long_url)` added at the end.
pub open spec fn allocates(
    before: Seq<Pair>,
    long_url: Seq<char>,
    code: Seq<char>,
    after: Seq<Pair>,
) -> bool {
    &&& is_short_code(code)
    &&& !has_code(before, code)
    &&& after == before.push((code, long_url))
}

/// A candidate that can be allocated: a well-formed code that `entries` does
/// not carry yet.
pub open spec fn is_free(entries: Seq<Pair>, code: Seq<char>) -> bool {
    is_short_code(code) && !has_code(entries, code)
}

/// What follows a draw.
#[derive(Debug, Clone, Copy, PartialEq, Eq, Structural)]
pub enum Drawn {
    /// The candidate was free and is now allocated.
    Allocated,
    /// The candidate was taken, and the cap allows another draw.
    Redraw,
    /// The candidate was taken, and it was the last draw that the cap allows.
    Exhausted,
}

/// What follows the draw of `candidate`, when `draws_before` candidates were
/// drawn and refused before it and at most `cap` may be drawn in all. A free
/// candidate within the cap is allocated. A taken one is followed by another
/// draw as long as fewer than `cap` were drawn, this one included.
pub open spec fn step_of(
    entries: Seq<Pair>,
    cap: int,
    draws_before: int,
    candidate: Seq<char>,
) -> Drawn {
    if draws_before >= cap {
        Drawn::Exhausted
    } else if is_free(entries, candidate) {
        Drawn::Allocated
    } else if draws_before + 1 < cap {
        Drawn::Redraw
    } else {
        Drawn::Exhausted
    }
}

/// `j` is the draw that gets allocated: the first free candidate of `draws`,
/// and within the first `cap` of them.
pub open spec fn is_first_free(
    entries: Seq<Pair>,
    draws: Seq<String>,
    cap: int,
    j: int,
) -> bool {
    &&& 0 <= j < draws.len()
    &&& j < cap
    &&& is_free(entries, draws[j]@)
    &&& forall|i: int| 0 <= i < j ==> !is_free(entries, (#[trigger] draws[i])@)
}

/// None of the first `cap` candidates of `draws` is free.
pub open spec fn none_free(entries: Seq<Pair>, draws: Seq<String>, cap: int) -> bool {
    forall|i: int| 0 <= i < draws.len() && i < cap ==> !is_free(entries, (#[trigger] draws[i])@)
}

/// Why `shorten` gave up.
#[derive(Debug, Clone, Copy, PartialEq, Eq, Structural)]
pub enum ShortenError {
    /// Every candidate drawn was already taken.
    KeyspaceExhaustion,
}

/// One allocation, as handed out by listings.
#[derive(Debug)]
pub struct Entry {
    pub code: String,
    pub long_url: String,
}

impl View for Entry {
    type V = Pair;

    open spec fn view(&self) -> Pair {
        (self.code@, self.long_url@)
    }
}

/// The registry of allocated short codes.
pub struct UrlRegistry {
    /// Long URL by code.
    table: StringHashMap<String>,
    /// The codes, in order of allocation.
    order: Vec<String>,
    /// How many candidates one `shorten` may draw.
    max_draws: usize,
}

impl View for UrlRegistry {
    type V = Seq<Pair>;

    closed spec fn view(&self) -> Seq<Pair> {
        Seq::new(self.order@.len(), |i: int| (self.order@[i]@, self.table@[self.order@[i]@]@))
    }
}

impl UrlRegistry {
    /// The invariant that ties the table to the order of allocation.
    pub closed spec fn wf(&self) -> bool {
        &&& forall|i: int|
            0 <= i < self.order@.len() ==> self.table@.contains_key(#[trigger] self.order@[i]@)
        &&& forall|k: Seq<char>| #[trigger]
            self.table@.contains_key(k) ==> exists|i: int|
                0 <= i < self.order@.len() && #[trigger] self.order@[i]@ == k
        &&& forall|i: int, j: int|
            0 <= i < j < self.order@.len() ==> #[trigger] self.order@[i]@
                != #[trigger] self.order@[j]@
        &&& forall|i: int|
            0 <= i < self.order@.len() ==> is_short_code(#[trigger] self.order@[i]@)
    }

    /// The cap on candidates per `shorten`.
    pub closed spec fn spec_max_draws(&self) -> usize {
        self.max_draws
    }

    /// In a well-formed registry the codes are well-formed and pairwise
    /// distinct.
    pub proof fn lemma_valid(&self)
        requires
            self.wf(),
        ensures
            codes_distinct(self@),
            codes_well_formed(self@),
    {
    }

    /// An empty registry that lets each `shorten` draw `DEFAULT_MAX_DRAWS`
    /// candidates.
    pub fn new() -> (r: UrlRegistry)
        ensures
            r.wf(),
            r@ == Seq::<Pair>::empty(),
            r.spec_max_draws() == DEFAULT_MAX_DRAWS,
    {
        UrlRegistry::with_max_draws(DEFAULT_MAX_DRAWS)
    }

    /// An empty registry that lets each `shorten` draw `max_draws`
    /// candidates before it gives up.
    pub fn with_max_draws(max_draws: usize) -> (r: UrlRegistry)
        ensures
            r.wf(),
            r@ == Seq::<Pair>::empty(),
            r.spec_max_draws() == max_draws,
    {
        UrlRegistry { table: StringHashMap::new(), order: Vec::new(), max_draws }
    }

    /// The cap on candidates per `shorten`.
    #[verifier::when_used_as_spec(spec_max_draws)]
    pub fn max_draws(&self) -> (n: usize)
        ensures
            n == self.spec_max_draws(),
    {
        self.max_draws
    }

    /// The number of allocations.
    pub fn len(&self) -> (n: usize)
        ensures
            n == self@.len(),
    {
        self.order.len()
    }

    /// Whether `code` is allocated.
    pub fn contains_code(&self, code: &str) -> (found: bool)
        requires
            self.wf(),
        ensures
            found == has_code(self@, code@),
    {
        let found = self.table.contains_key(code);
        proof {
            self.lemma_has_code(code@);
        }
        found
    }

    /// The long URL that `code` was allocated for, or `None` where `code` was
    /// never allocated.
    pub fn resolve(&self, code: &str) -> (result: Option<String>)
        requires
            self.wf(),
        ensures
            match result {
                Some(url) => url_of(self@, code@) == Some(url@),
                None => url_of(self@, code@) is None,
            },
    {
        proof {
            self.lemma_has_code(code@);
            if self.table@.contains_key(code@) {
                self.lemma_url_of(code@);
            }
        }
        match self.table.get(code) {
            Some(url) => Some(url.clone()),
            None => None,
        }
    }

    /// All allocations, oldest first.
    pub fn list_all(&self) -> (entries: Vec<Entry>)
        requires
            self.wf(),
        ensures
            entries@.len() == self@.len(),
            forall|i: int| 0 <= i < entries@.len() ==> (#[trigger] entries@[i])@ == self@[i],
    {
        let mut entries: Vec<Entry> = Vec::new();
        let mut i: usize = 0;
        while i < self.order.len()
            invariant
                self.wf(),
                i <= self.order@.len(),
                entries@.len() == i,
                forall|k: int| 0 <= k < i ==> (#[trigger] entries@[k])@ == self@[k],
            decreases self.order@.len() - i,
        {
            let code = &self.order[i];
            match self.table.get(code.as_str()) {
                Some(url) => {
                    entries.push(Entry { code: code.clone(), long_url: url.clone() });
                },
                None => {
                    proof {
                        assert(self.table@.contains_key(self.order@[i as int]@));
                    }
                },
            }
            i += 1;
        }
        entries
    }

    /// What the registry does with one drawn candidate. A candidate that is a
    /// well-formed code and not yet allocated is allocated for `long_url`, and
    /// the answer is `true`; any other candidate leaves the registry as it
    /// was, and the answer is `false`.
    pub fn try_allocate(&mut self, candidate: &str, long_url: &str) -> (done: bool)
        requires
            old(self).wf(),
        ensures
            final(self).wf(),
            final(self).spec_max_draws() == old(self).spec_max_draws(),
            done == (is_short_code(candidate@) && !has_code(old(self)@, candidate@)),
            done ==> allocates(old(self)@, long_url@, candidate@, final(self)@),
            done ==> url_of(final(self)@, candidate@) == Some(long_url@),
            !done ==> final(self)@ == old(self)@,
    {
        if !is_short_code_str(candidate) {
            return false;
        }
        if self.contains_code(candidate) {
            return false;
        }
        self.insert_fresh(candidate.to_owned(), long_url.to_owned());
        proof {
            law_round_trip(old(self)@, long_url@, candidate@, self@);
        }
        true
    }

    /// The step that follows each draw: allocate, draw again, or give up.
    ///
    /// `draws_before` is the number of candidates drawn and refused before
    /// this one. The answer is `step_of` exactly; the registry grows by the
    /// pair of `candidate` and `long_url` where the answer is `Allocated`, and
    /// is as it was otherwise.
    pub fn after_draw(&mut self, draws_before: usize, candidate: &str, long_url: &str) -> (step:
        Drawn)
        requires
            old(self).wf(),
        ensures
            final(self).wf(),
            final(self).spec_max_draws() == old(self).spec_max_draws(),
            step == step_of(
                old(self)@,
                old(self).spec_max_draws() as int,
                draws_before as int,
                candidate@,
            ),
            step == Drawn::Allocated ==> allocates(
                old(self)@,
                long_url@,
                candidate@,
                final(self)@,
            ) && url_of(final(self)@, candidate@) == Some(long_url@),
            step != Drawn::Allocated ==> final(self)@ == old(self)@,
    {
        if draws_before >= self.max_draws {
            return Drawn::Exhausted;
        }
        if self.try_allocate(candidate, long_url) {
            Drawn::Allocated
        } else if draws_before < self.max_draws - 1 {
            Drawn::Redraw
        } else {
            Drawn::Exhausted
        }
    }

    /// Allocates a code for `long_url` from given draws, taken in their order
    /// as `shorten` takes its own: the first free candidate among the first
    /// `max_draws` is allocated and returned, and the taken ones before it
    /// leave no trace. Where none of them is free the call fails and the
    /// registry is as it was; draws that run out before the cap count as the
    /// cap reached.
    pub fn shorten_with_draws(&mut self, long_url: &str, draws: &Vec<String>) -> (result: Result<
        String,
        ShortenError,
    >)
        requires
            old(self).wf(),
        ensures
            final(self).wf(),
            final(self).spec_max_draws() == old(self).spec_max_draws(),
            match result {
                Ok(code) => {
                    &&& exists|j: int|
                        is_first_free(old(self)@, draws@, old(self).spec_max_draws() as int, j)
                            && code@ == (#[trigger] draws@[j])@
                    &&& allocates(old(self)@, long_url@, code@, final(self)@)
                    &&& url_of(final(self)@, code@) == Some(long_url@)
                },
                Err(e) => {
                    &&& e == ShortenError::KeyspaceExhaustion
                    &&& final(self)@ == old(self)@
                    &&& none_free(old(self)@, draws@, old(self).spec_max_draws() as int)
                },
            },
    {
        let mut i: usize = 0;
        while i < draws.len()
            invariant
                self.wf(),
                self@ == old(self)@,
                self.max_draws == old(self).max_draws,
                i <= draws@.len(),
                forall|k: int| 0 <= k < i ==> !is_free(old(self)@, (#[trigger] draws@[k])@),
            decreases draws@.len() - i,
        {
            match self.after_draw(i, draws[i].as_str(), long_url) {
                Drawn::Allocated => {
                    let code = draws[i].clone();
                    proof {
                        assert(is_first_free(
                            old(self)@,
                            draws@,
                            old(self).spec_max_draws() as int,
                            i as int,
                        ));
                    }
                    return Ok(code);
                },
                Drawn::Redraw => {
                    i += 1;
                },
                Drawn::Exhausted => {
                    return Err(ShortenError::KeyspaceExhaustion);
                },
            }
        }
        Err(ShortenError::KeyspaceExhaustion)
    }

    /// Allocates a fresh code for `long_url`: draws candidates at random, and
    /// lets `after_draw` say after each whether it is allocated, another is
    /// drawn, or the cap of `max_draws` is reached.
    ///
    /// Which code comes out is up to the generator. Whatever it is, it is
    /// well-formed, it was not allocated before, the registry grows by exactly
    /// the pair of that code and `long_url`, and the code resolves to
    /// `long_url` from then on. When every candidate drawn was taken the call
    /// fails and the registry is as it was. On an empty registry the first draw
    /// is always free.
    pub fn shorten(&mut self, long_url: &str) -> (result: Result<String, ShortenError>)
        requires
            old(self).wf(),
        ensures
            final(self).wf(),
            final(self).spec_max_draws() == old(self).spec_max_draws(),
            match result {
                Ok(code) => {
                    &&& allocates(old(self)@, long_url@, code@, final(self)@)
                    &&& url_of(final(self)@, code@) == Some(long_url@)
                },
                Err(e) => e == ShortenError::KeyspaceExhaustion && final(self)@ == old(self)@,
            },
            old(self).spec_max_draws() == 0 ==> result is Err,
            old(self)@.len() == 0 && old(self).spec_max_draws() > 0 ==> result is Ok,
    {
        let mut draws: usize = 0;
        while draws < self.max_draws
            invariant
                self.wf(),
                self@ == old(self)@,
                self.max_draws == old(self).max_draws,
                draws > 0 ==> old(self)@.len() > 0,
            decreases self.max_draws - draws,
        {
            let candidate = generate_short_code();
            match self.after_draw(draws, candidate.as_str(), long_url) {
                Drawn::Allocated => {
                    return Ok(candidate);
                },
                Drawn::Redraw => {
                    draws += 1;
                },
                Drawn::Exhausted => {
                    return Err(ShortenError::KeyspaceExhaustion);
                },
            }
        }
        Err(ShortenError::KeyspaceExhaustion)
    }

    /// Adds the allocation of a code known to be well-formed and free.
    fn insert_fresh(&mut self, code: String, long_url: String)
        requires
            old(self).wf(),
            is_short_code(code@),
            !has_code(old(self)@, code@),
        ensures
            final(self).wf(),
            final(self).max_draws == old(self).max_draws,
            final(self)@ == old(self)@.push((code@, long_url@)),
    {
        proof {
            self.lemma_has_code(code@);
        }
        let key = code.clone();
        self.table.insert(key, long_url);
        self.order.push(code);
        proof {
            let n = old(self).order@.len() as int;
            assert forall|k: Seq<char>| #[trigger] self.table@.contains_key(k) implies exists|
                i: int,
            |
                0 <= i < self.order@.len() && #[trigger] self.order@[i]@ == k by {
                if k == code@ {
                    assert(self.order@[n]@ == k);
                } else {
                    assert(old(self).table@.contains_key(k));
                    let i = choose|i: int|
                        0 <= i < old(self).order@.len() && #[trigger] old(self).order@[i]@ == k;
                    assert(self.order@[i]@ == k);
                }
            }
            assert(self@ =~= old(self)@.push((code@, long_url@)));
        }
    }

    /// The table's keys are exactly the codes of the model.
    proof fn lemma_has_code(&self, code: Seq<char>)
        requires
            self.wf(),
        ensures
            self.table@.contains_key(code) == has_code(self@, code),
    {
        if self.table@.contains_key(code) {
            let i = choose|i: int| 0 <= i < self.order@.len() && #[trigger] self.order@[i]@ == code;
            assert(self@[i].0 == code);
        }
        if has_code(self@, code) {
            let i = choose|i: int| 0 <= i < self@.len() && (#[trigger] self@[i]).0 == code;
            assert(self.order@[i]@ == code);
        }
    }

    /// The table's value under an allocated code is the model's long URL.
    proof fn lemma_url_of(&self, code: Seq<char>)
        requires
            self.wf(),
            self.table@.contains_key(code),
        ensures
            url_of(self@, code) == Some(self.table@[code]@),
    {
        self.lemma_has_code(code);
        let i = choose|i: int| 0 <= i < self@.len() && (#[trigger] self@[i]).0 == code;
        assert(self.order@[i]@ == code);
    }
}

} // verus!
