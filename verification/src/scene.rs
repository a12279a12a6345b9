//! The scene list and its traversal. The list is flat: a bounding proxy
//! stands in front of the entries it bounds and says how many they are, so
//! that a ray that misses the proxy passes over all of them at once.
use vstd::prelude::*;

verus! {

/// One entry of a scene: a shape and its skip count. A skip count of 0 marks a
/// leaf, which can be the nearest hit. A positive skip count marks a bounding
/// proxy for that many entries after it: when a ray misses the proxy, they are
/// passed over without being looked at.
#[derive(Clone, Debug)]
pub struct Entry<P> {
    pub shape: P,
    pub bvh_skip: i32,
}

/// An ordered list of entries. The order carries the flat bounding structure.
#[derive(Clone, Debug)]
pub struct Scene<P> {
    pub entries: Vec<Entry<P>>,
}

/// How many entries from `i` on are passed over, given the skip counts and what
/// the intersection tests of the entries before `i` returned (`None` for a miss).
/// Only a tested entry that is missed and has a positive skip count starts a run.
pub open spec fn pending_skip<H>(skips: Seq<i32>, log: Seq<Option<(u32, H)>>, i: int) -> nat
    decreases i,
{
    if i <= 0 {
        0
    } else {
        let before = pending_skip(skips, log, i - 1);
        if before > 0 {
            (before - 1) as nat
        } else if log[i - 1] is None && skips[i - 1] > 0 {
            skips[i - 1] as nat
        } else {
            0
        }
    }
}

/// Whether the traversal runs the intersection test of entry `i`.
pub open spec fn tested<H>(skips: Seq<i32>, log: Seq<Option<(u32, H)>>, i: int) -> bool {
    pending_skip(skips, log, i) == 0
}

/// Whether entry `i` can be chosen: it is tested, it is a leaf, and it is hit
/// at a distance below `max_dist`.
pub open spec fn is_candidate<H>(
    skips: Seq<i32>,
    log: Seq<Option<(u32, H)>>,
    max_dist: u32,
    i: int,
) -> bool {
    &&& 0 <= i < skips.len()
    &&& tested(skips, log, i)
    &&& skips[i] == 0
    &&& log[i] matches Some(h)
    &&& h.0 < max_dist
}

/// The distance at which entry `i` was hit.
pub open spec fn dist_at<H>(log: Seq<Option<(u32, H)>>, i: int) -> u32 {
    match log[i] {
        Some(h) => h.0,
        None => 0,
    }
}

/// Whether `r` is the nearest candidate among the first `n` entries: no other
/// candidate there is closer, and none before it is as close. `None` says that
/// there is no candidate among them.
pub open spec fn nearest_among<H>(
    skips: Seq<i32>,
    log: Seq<Option<(u32, H)>>,
    max_dist: u32,
    n: int,
    r: Option<int>,
) -> bool {
    match r {
        Some(b) => {
            &&& b < n
            &&& is_candidate(skips, log, max_dist, b)
            &&& forall|j: int|
                j < n && #[trigger] is_candidate(skips, log, max_dist, j) ==> {
                    &&& dist_at(log, b) <= dist_at(log, j)
                    &&& j < b ==> dist_at(log, b) < dist_at(log, j)
                }
        },
        None => forall|j: int| j < n ==> !#[trigger] is_candidate(skips, log, max_dist, j),
    }
}

/// Whether `r` is the nearest candidate of the whole list.
pub open spec fn is_nearest<H>(
    skips: Seq<i32>,
    log: Seq<Option<(u32, H)>>,
    max_dist: u32,
    r: Option<int>,
) -> bool {
    nearest_among(skips, log, max_dist, skips.len() as int, r)
}

/// Two logs that agree on the entries before `i` pass over the same entries up to `i`.
pub proof fn lemma_pending_prefix<H>(
    skips: Seq<i32>,
    a: Seq<Option<(u32, H)>>,
    b: Seq<Option<(u32, H)>>,
    i: int,
)
    requires
        forall|j: int| 0 <= j < i ==> a[j] == b[j],
    ensures
        pending_skip(skips, a, i) == pending_skip(skips, b, i),
    decreases i,
{
    if i > 0 {
        lemma_pending_prefix(skips, a, b, i - 1);
        assert(a[i - 1] == b[i - 1]);
    }
}

/// The entry after a missed proxy starts a run of passed-over entries that is
/// exactly as long as the proxy's skip count: none of them is tested, and the
/// entry after the run is.
pub proof fn lemma_miss_skips_run<H>(skips: Seq<i32>, log: Seq<Option<(u32, H)>>, j: int, m: int)
    requires
        0 <= j,
        tested(skips, log, j),
        log[j] is None,
        skips[j] > 0,
        1 <= m <= skips[j] + 1,
    ensures
        pending_skip(skips, log, j + m) == skips[j] + 1 - m,
        m <= skips[j] ==> !tested(skips, log, j + m),
        m == skips[j] + 1 ==> tested(skips, log, j + m),
    decreases m,
{
    if m > 1 {
        lemma_miss_skips_run(skips, log, j, m - 1);
    }
}

/// The first entry is always tested, and so is the entry after a tested entry
/// that is hit, or that is missed and has no positive skip count.
pub proof fn lemma_tested_next<H>(skips: Seq<i32>, log: Seq<Option<(u32, H)>>, j: int)
    requires
        0 <= j,
        tested(skips, log, j),
        log[j] is Some || skips[j] <= 0,
    ensures
        tested(skips, log, 0),
        tested(skips, log, j + 1),
{
}

/// An entry that is passed over lies in the run of a proxy before it that was
/// tested and missed.
pub proof fn lemma_skipped_is_covered<H>(skips: Seq<i32>, log: Seq<Option<(u32, H)>>, i: int)
    requires
        !tested(skips, log, i),
    ensures
        exists|j: int|
            0 <= j < i && #[trigger] tested(skips, log, j) && log[j] is None && i <= j + skips[j]
                && pending_skip(skips, log, i) == j + skips[j] + 1 - i,
    decreases i,
{
    if i > 0 {
        if pending_skip(skips, log, i - 1) > 0 {
            lemma_skipped_is_covered(skips, log, i - 1);
            let j = choose|j: int|
                0 <= j < i - 1 && #[trigger] tested(skips, log, j) && log[j] is None && i - 1 <= j
                    + skips[j] && pending_skip(skips, log, i - 1) == j + skips[j] + 1 - (i - 1);
            assert(tested(skips, log, j));
        } else {
            assert(tested(skips, log, i - 1));
        }
    }
}

/// What the passed-over entries would have returned does not matter: two logs
/// that agree on every entry that is tested under the first lead to the same
/// tests, the same candidates and the same answer.
pub proof fn lemma_untested_irrelevant<H>(
    skips: Seq<i32>,
    a: Seq<Option<(u32, H)>>,
    b: Seq<Option<(u32, H)>>,
    max_dist: u32,
    r: Option<int>,
)
    requires
        forall|i: int| 0 <= i < skips.len() && #[trigger] tested(skips, a, i) ==> a[i] == b[i],
    ensures
        forall|i: int|
            0 <= i <= skips.len() ==> #[trigger] pending_skip(skips, a, i) == pending_skip(
                skips,
                b,
                i,
            ),
        forall|i: int|
            #[trigger] is_candidate(skips, a, max_dist, i) == is_candidate(skips, b, max_dist, i),
        is_nearest(skips, a, max_dist, r) == is_nearest(skips, b, max_dist, r),
{
    assert forall|i: int| 0 <= i <= skips.len() implies #[trigger] pending_skip(skips, a, i)
        == pending_skip(skips, b, i) by {
        lemma_same_tests(skips, a, b, i);
    }
    assert forall|i: int| #[trigger]
        is_candidate(skips, a, max_dist, i) == is_candidate(skips, b, max_dist, i) by {
        if 0 <= i < skips.len() {
            assert(pending_skip(skips, a, i) == pending_skip(skips, b, i));
            if tested(skips, a, i) {
                assert(a[i] == b[i]);
            }
        }
    }
    assert forall|i: int|
        0 <= i < skips.len() && (tested(skips, a, i) || tested(skips, b, i)) implies a[i]
        == b[i] by {
        assert(pending_skip(skips, a, i) == pending_skip(skips, b, i));
        assert(tested(skips, a, i));
    }
    lemma_nearest_transfer(skips, a, b, max_dist, r);
    lemma_nearest_transfer(skips, b, a, max_dist, r);
}

proof fn lemma_nearest_transfer<H>(
    skips: Seq<i32>,
    a: Seq<Option<(u32, H)>>,
    b: Seq<Option<(u32, H)>>,
    max_dist: u32,
    r: Option<int>,
)
    requires
        forall|i: int|
            #[trigger] is_candidate(skips, a, max_dist, i) == is_candidate(skips, b, max_dist, i),
        forall|i: int|
            0 <= i < skips.len() && (tested(skips, a, i) || tested(skips, b, i)) ==> a[i] == b[i],
    ensures
        is_nearest(skips, a, max_dist, r) ==> is_nearest(skips, b, max_dist, r),
{
    if is_nearest(skips, a, max_dist, r) {
        let n = skips.len() as int;
        match r {
            Some(best) => {
                assert(is_candidate(skips, a, max_dist, best));
                assert forall|j: int|
                    j < n && #[trigger] is_candidate(skips, b, max_dist, j) implies {
                    &&& dist_at(b, best) <= dist_at(b, j)
                    &&& j < best ==> dist_at(b, best) < dist_at(b, j)
                } by {
                    assert(is_candidate(skips, a, max_dist, j));
                }
            },
            None => {
                assert forall|j: int|
                    j < n implies !#[trigger] is_candidate(skips, b, max_dist, j) by {
                    assert(!is_candidate(skips, a, max_dist, j));
                }
            },
        }
    }
}

proof fn lemma_same_tests<H>(
    skips: Seq<i32>,
    a: Seq<Option<(u32, H)>>,
    b: Seq<Option<(u32, H)>>,
    i: int,
)
    requires
        forall|j: int| 0 <= j < skips.len() && #[trigger] tested(skips, a, j) ==> a[j] == b[j],
        i <= skips.len(),
    ensures
        pending_skip(skips, a, i) == pending_skip(skips, b, i),
    decreases i,
{
    if i > 0 {
        lemma_same_tests(skips, a, b, i - 1);
        if pending_skip(skips, a, i - 1) == 0 {
            assert(tested(skips, a, i - 1));
        }
    }
}

/// A list has one nearest candidate at most: two answers to the same log are equal.
pub proof fn lemma_nearest_unique<H>(
    skips: Seq<i32>,
    log: Seq<Option<(u32, H)>>,
    max_dist: u32,
    r1: Option<int>,
    r2: Option<int>,
)
    requires
        is_nearest(skips, log, max_dist, r1),
        is_nearest(skips, log, max_dist, r2),
    ensures
        r1 == r2,
{
    match (r1, r2) {
        (Some(b1), Some(b2)) => {
            assert(is_candidate(skips, log, max_dist, b1));
            assert(is_candidate(skips, log, max_dist, b2));
        },
        (Some(b1), None) => {
            assert(is_candidate(skips, log, max_dist, b1));
        },
        (None, Some(b2)) => {
            assert(is_candidate(skips, log, max_dist, b2));
        },
        (None, None) => {},
    }
}

/// The state of a traversal between two entries.
#[derive(Clone, Debug)]
pub struct Walk<H> {
    /// How many of the next entries are passed over: none where this is not
    /// positive.
    pub skip: i32,
    /// The distance that a leaf has to stay below to be taken.
    pub bound: u32,
    /// The nearest leaf so far: its index and what its test handed back.
    pub best: Option<(usize, H)>,
}

impl<H> Walk<H> {
    /// The state after the entry `index`, whose skip count is `bvh_skip` and
    /// whose test returned `found`. An entry that is passed over only counts
    /// down the run it lies in. A hit leaf below the bound becomes the nearest
    /// and sets the bound; a missed entry starts a run of its skip count.
    pub open spec fn after(self, index: usize, bvh_skip: i32, found: Option<(u32, H)>) -> Walk<H> {
        if self.skip > 0 {
            Walk { skip: (self.skip - 1) as i32, bound: self.bound, best: self.best }
        } else {
            match found {
                Some((dist, hit)) => if bvh_skip == 0 && dist < self.bound {
                    Walk { skip: self.skip, bound: dist, best: Some((index, hit)) }
                } else {
                    self
                },
                None => Walk { skip: bvh_skip, bound: self.bound, best: self.best },
            }
        }
    }

    /// Whether the state is the one that a traversal of `skips` is in after
    /// the first `log.len()` entries, when their tests returned what `log`
    /// holds.
    pub open spec fn agrees(
        self,
        skips: Seq<i32>,
        log: Seq<Option<(u32, H)>>,
        max_dist: u32,
    ) -> bool {
        &&& pending_skip(skips, log, log.len() as int) == (if self.skip > 0 {
            self.skip as int
        } else {
            0
        })
        &&& match self.best {
            Some((b, hit)) => {
                &&& nearest_among(skips, log, max_dist, log.len() as int, Some(b as int))
                &&& log[b as int] == Some((self.bound, hit))
            },
            None => self.bound == max_dist && nearest_among(
                skips,
                log,
                max_dist,
                log.len() as int,
                None,
            ),
        }
    }

    /// The state before the first entry: nothing to pass over, no leaf yet,
    /// and `max_dist` as the bound.
    pub fn start(max_dist: u32) -> (walk: Walk<H>)
        ensures
            walk.skip == 0,
            walk.bound == max_dist,
            walk.best is None,
    {
        Walk { skip: 0, bound: max_dist, best: None }
    }

    /// Whether the next entry is to be tested.
    pub fn wants_test(&self) -> (wanted: bool)
        ensures
            wanted == (self.skip <= 0),
    {
        self.skip <= 0
    }

    /// Steps over one entry: see `after`.
    pub fn advance(self, index: usize, bvh_skip: i32, found: Option<(u32, H)>) -> (next: Walk<H>)
        ensures
            next == self.after(index, bvh_skip, found),
    {
        if self.skip > 0 {
            Walk { skip: self.skip - 1, bound: self.bound, best: self.best }
        } else {
            match found {
                Some((dist, hit)) => {
                    if bvh_skip == 0 && dist < self.bound {
                        Walk { skip: self.skip, bound: dist, best: Some((index, hit)) }
                    } else {
                        self
                    }
                },
                None => Walk { skip: bvh_skip, bound: self.bound, best: self.best },
            }
        }
    }

    /// One step keeps the state in agreement with the list: from the state
    /// after the entries of `log`, the step over the next entry leads to the
    /// state after the entries of `log` and that one.
    pub proof fn lemma_advance_agrees(
        self,
        skips: Seq<i32>,
        log: Seq<Option<(u32, H)>>,
        max_dist: u32,
        found: Option<(u32, H)>,
    )
        requires
            self.agrees(skips, log, max_dist),
            log.len() < skips.len(),
            log.len() <= usize::MAX,
        ensures
            self.after(log.len() as usize, skips[log.len() as int], found).agrees(
                skips,
                log.push(found),
                max_dist,
            ),
    {
        let k = log.len() as int;
        let longer = log.push(found);
        let next = self.after(k as usize, skips[k], found);
        assert forall|i: int| 0 <= i <= k implies pending_skip(skips, longer, i) == pending_skip(
            skips,
            log,
            i,
        ) by {
            lemma_pending_prefix(skips, longer, log, i);
        }
        assert forall|i: int| 0 <= i < k implies is_candidate(skips, longer, max_dist, i)
            == is_candidate(skips, log, max_dist, i) by {
            assert(longer[i] == log[i]);
        }
        assert(pending_skip(skips, longer, k + 1) == (if next.skip > 0 {
            next.skip as int
        } else {
            0
        }));
        match next.best {
            Some((b, hit)) => {
                if self.best == next.best {
                    assert(longer[b as int] == log[b as int]);
                }
                assert(nearest_among(skips, longer, max_dist, k + 1, Some(b as int)));
            },
            None => {
                assert(nearest_among(skips, longer, max_dist, k + 1, None));
            },
        }
    }
}

impl<P> Entry<P> {
    /// The skip count of the entry.
    pub fn get_bvh_skip(&self) -> (skip: i32)
        ensures
            skip == self.bvh_skip,
    {
        self.bvh_skip
    }
}

impl<P> Scene<P> {
    /// A scene without entries.
    pub fn new() -> (scene: Scene<P>)
        ensures
            scene.entries@.len() == 0,
    {
        Scene { entries: Vec::new() }
    }

    /// Adds an entry at the end of the list.
    pub fn push(&mut self, shape: P, bvh_skip: i32)
        ensures
            final(self).entries@ == old(self).entries@.push(Entry { shape, bvh_skip }),
    {
        self.entries.push(Entry { shape, bvh_skip });
    }

    /// The skip counts of the entries, in list order.
    pub open spec fn skips(&self) -> Seq<i32> {
        self.entries@.map_values(|e: Entry<P>| e.bvh_skip)
    }

    /// Whether `log` is a possible record of one traversal with `probe`: it has
    /// one place per entry, and at each tested entry it holds what `probe` can
    /// return for that entry's shape. What it holds at the other places is free.
    pub open spec fn explains<H, F: Fn(&P) -> Option<(u32, H)>>(
        &self,
        probe: F,
        log: Seq<Option<(u32, H)>>,
    ) -> bool {
        &&& log.len() == self.entries.len()
        &&& forall|i: int|
            0 <= i < log.len() && #[trigger] tested(self.skips(), log, i) ==> probe.ensures(
                (&self.entries[i].shape,),
                log[i],
            )
    }

    /// Whether `probe` may be called on every entry that a traversal tests:
    /// whatever the tests of the entries before entry `i` returned, where
    /// these lead to the test of entry `i`, `probe` takes its shape. Nothing
    /// is asked for the entries that are passed over: they are never handed
    /// to `probe`.
    pub open spec fn probe_takes_tested<H, F: Fn(&P) -> Option<(u32, H)>>(&self, probe: F) -> bool {
        forall|log: Seq<Option<(u32, H)>>, i: int|
            0 <= i < self.entries.len() && log.len() == i && (forall|j: int|
                0 <= j < i && #[trigger] tested(self.skips(), log, j) ==> probe.ensures(
                    (&self.entries[j].shape,),
                    log[j],
                )) && #[trigger] tested(self.skips(), log, i) ==> probe.requires(
                (&self.entries[i].shape,),
            )
    }

    /// Whether `r` is the answer that the record `log` leads to: the index of
    /// the nearest candidate, with what the test of that entry handed back.
    pub open spec fn answers<H>(
        &self,
        log: Seq<Option<(u32, H)>>,
        max_dist: u32,
        r: Option<(usize, H)>,
    ) -> bool {
        match r {
            Some((b, hit)) => {
                &&& is_nearest(self.skips(), log, max_dist, Some(b as int))
                &&& log[b as int] == Some((dist_at(log, b as int), hit))
            },
            None => is_nearest(self.skips(), log, max_dist, None),
        }
    }

    /// Walks the list once and returns the nearest leaf that `probe` reports as
    /// hit below `max_dist`, with its index. `probe` returns the hit distance as
    /// a key that orders as the distances do, and whatever the caller wants to
    /// keep of the hit. An entry inside the run of a missed proxy is never
    /// handed to `probe`: the caller owes the precondition of `probe` for the
    /// tested entries only.
    pub fn trace_nearest<H, F: Fn(&P) -> Option<(u32, H)>>(&self, max_dist: u32, probe: F) -> (r:
        Option<(usize, H)>)
        requires
            self.probe_takes_tested(probe),
        ensures
            exists|log: Seq<Option<(u32, H)>>| #[trigger]
                self.explains(probe, log) && self.answers(log, max_dist, r),
            r matches Some(found) ==> {
                &&& found.0 < self.entries.len()
                &&& self.entries[found.0 as int].bvh_skip == 0
            },
    {
        let mut walk: Walk<H> = Walk::start(max_dist);
        let ghost mut log: Seq<Option<(u32, H)>> = Seq::empty();
        let ghost skips = self.skips();
        let n: usize = self.entries.len();
        let mut k: usize = 0;
        while k < n
            invariant
                k <= n,
                n == self.entries.len(),
                skips == self.skips(),
                self.probe_takes_tested(probe),
                log.len() == k,
                forall|i: int|
                    0 <= i < k && #[trigger] tested(skips, log, i) ==> probe.ensures(
                        (&self.entries[i].shape,),
                        log[i],
                    ),
                walk.agrees(skips, log, max_dist),
            decreases n - k,
        {
            let ghost before = log;
            let entry = &self.entries[k];
            let found = if walk.wants_test() {
                assert(tested(skips, log, k as int));
                probe(&entry.shape)
            } else {
                None
            };
            proof {
                walk.lemma_advance_agrees(skips, log, max_dist, found);
                log = log.push(found);
                assert forall|i: int|
                    0 <= i < k + 1 && #[trigger] tested(skips, log, i) implies probe.ensures(
                    (&self.entries[i].shape,),
                    log[i],
                ) by {
                    lemma_pending_prefix(skips, log, before, i);
                    if i < k {
                        assert(tested(skips, before, i));
                        assert(log[i] == before[i]);
                    }
                }
            }
            walk = walk.advance(k, entry.bvh_skip, found);
            k = k + 1;
        }
        proof {
            assert(self.explains(probe, log));
            assert(self.answers(log, max_dist, walk.best));
        }
        walk.best
    }
}

} // verus!
