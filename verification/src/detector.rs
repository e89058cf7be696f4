//! The stagnation detector: a sliding window of fingerprints, a table of how
//! often each occurs in the window, and the verdict drawn from the table.

use vstd::hash_map::StringHashMap;
use vstd::prelude::*;

verus! {

/// A fingerprint that occurs at least this often counts as highly recurring.
pub const HIGH_OCCURRENCE: usize = 20;

/// A fingerprint that occurs at least this often stops the run by itself.
pub const DOMINANT_OCCURRENCE: usize = 40;

/// How often `fingerprint` occurs in `window`.
pub open spec fn occurrences(window: Seq<Seq<char>>, fingerprint: Seq<char>) -> nat
    decreases window.len(),
{
    if window.len() == 0 {
        0
    } else {
        occurrences(window.drop_last(), fingerprint) + if window.last() == fingerprint {
            1nat
        } else {
            0nat
        }
    }
}

/// The table that belongs to a window: its keys are the fingerprints that
/// occur in the window, each mapped to the number of its occurrences.
pub open spec fn occurrence_table(window: Seq<Seq<char>>) -> Map<Seq<char>, nat> {
    Map::new(
        |fingerprint: Seq<char>| window.contains(fingerprint),
        |fingerprint: Seq<char>| occurrences(window, fingerprint),
    )
}

/// The window after `fingerprint` has been appended and, if that made the
/// window longer than `retention`, the oldest entry has been evicted.
pub open spec fn slide(window: Seq<Seq<char>>, fingerprint: Seq<char>, retention: nat) -> Seq<
    Seq<char>,
> {
    let grown = window.push(fingerprint);
    if grown.len() > retention {
        grown.drop_first()
    } else {
        grown
    }
}

/// The fingerprints of the table whose count is at least
/// [`HIGH_OCCURRENCE`].
pub open spec fn highly_recurring(table: Map<Seq<char>, nat>) -> Set<Seq<char>> {
    table.dom().filter(|fingerprint: Seq<char>| table[fingerprint] >= HIGH_OCCURRENCE)
}

/// The number of distinct fingerprints whose count is at least
/// [`HIGH_OCCURRENCE`].
pub open spec fn high_occurrence_count(table: Map<Seq<char>, nat>) -> nat {
    highly_recurring(table).len()
}

/// Some fingerprint of the table has a count of at least
/// [`DOMINANT_OCCURRENCE`].
pub open spec fn dominant_present(table: Map<Seq<char>, nat>) -> bool {
    exists|fingerprint: Seq<char>|
        table.dom().contains(fingerprint) && #[trigger] table[fingerprint] >= DOMINANT_OCCURRENCE
}

/// The verdict on a table: stop iff at least two distinct fingerprints are
/// highly recurring, or one is dominant.
pub open spec fn recurring_pattern(table: Map<Seq<char>, nat>) -> bool {
    high_occurrence_count(table) >= 2 || dominant_present(table)
}

/// The sum of the table's values.
pub open spec fn value_sum(table: Map<Seq<char>, nat>) -> nat
    decreases table.dom().len(),
    when table.dom().finite()
{
    if table.dom().len() == 0 {
        0
    } else {
        let key = table.dom().choose();
        table[key] + value_sum(table.remove(key))
    }
}

/// The window with every occurrence of `fingerprint` taken out.
spec fn without(window: Seq<Seq<char>>, fingerprint: Seq<char>) -> Seq<Seq<char>>
    decreases window.len(),
{
    if window.len() == 0 {
        Seq::empty()
    } else if window.last() == fingerprint {
        without(window.drop_last(), fingerprint)
    } else {
        without(window.drop_last(), fingerprint).push(window.last())
    }
}

/// A fingerprint occurs at most as often as the window is long, and at least
/// once iff the window contains it.
pub proof fn lemma_occurrences_bounds(window: Seq<Seq<char>>, fingerprint: Seq<char>)
    ensures
        occurrences(window, fingerprint) <= window.len(),
        occurrences(window, fingerprint) > 0 <==> window.contains(fingerprint),
    decreases window.len(),
{
    if window.len() > 0 {
        let front = window.drop_last();
        lemma_occurrences_bounds(front, fingerprint);
        if window.last() == fingerprint {
            assert(window[window.len() - 1] == fingerprint);
        } else if front.contains(fingerprint) {
            let i = choose|i: int| 0 <= i < front.len() && front[i] == fingerprint;
            assert(window[i] == fingerprint);
        } else if window.contains(fingerprint) {
            let i = choose|i: int| 0 <= i < window.len() && window[i] == fingerprint;
            assert(front[i] == fingerprint);
        }
    }
}

/// Appending an entry adds one occurrence of that entry and of no other.
pub proof fn lemma_occurrences_push(
    window: Seq<Seq<char>>,
    entry: Seq<char>,
    fingerprint: Seq<char>,
)
    ensures
        occurrences(window.push(entry), fingerprint) == occurrences(window, fingerprint) + if entry
            == fingerprint {
            1nat
        } else {
            0nat
        },
{
    assert(window.push(entry).drop_last() =~= window);
}

/// Evicting the oldest entry takes away one occurrence of that entry and of
/// no other.
pub proof fn lemma_occurrences_drop_first(window: Seq<Seq<char>>, fingerprint: Seq<char>)
    requires
        window.len() > 0,
    ensures
        occurrences(window, fingerprint) == occurrences(window.drop_first(), fingerprint)
            + if window.first() == fingerprint {
            1nat
        } else {
            0nat
        },
    decreases window.len(),
{
    if window.len() == 1 {
        assert(window.drop_last() =~= window.drop_first());
        assert(window.last() == window.first());
    } else {
        let front = window.drop_last();
        lemma_occurrences_drop_first(front, fingerprint);
        assert(front.drop_first() =~= window.drop_first().drop_last());
        assert(window.drop_first().last() == window.last());
        assert(front.first() == window.first());
    }
}

proof fn lemma_without(window: Seq<Seq<char>>, removed: Seq<char>, fingerprint: Seq<char>)
    ensures
        without(window, removed).len() + occurrences(window, removed) == window.len(),
        occurrences(without(window, removed), fingerprint) == if fingerprint == removed {
            0
        } else {
            occurrences(window, fingerprint)
        },
    decreases window.len(),
{
    if window.len() > 0 {
        lemma_without(window.drop_last(), removed, fingerprint);
        if window.last() != removed {
            lemma_occurrences_push(
                without(window.drop_last(), removed),
                window.last(),
                fingerprint,
            );
        }
    }
}

/// The keys of a window's table are finitely many.
pub proof fn lemma_occurrence_table_finite(window: Seq<Seq<char>>)
    ensures
        occurrence_table(window).dom().finite(),
        occurrence_table(window).dom() =~= window.to_set(),
{
    vstd::seq_lib::seq_to_set_is_finite(window);
    assert(occurrence_table(window).dom() =~= window.to_set());
}

/// The values of a window's table add up to the length of the window.
pub proof fn lemma_value_sum_is_window_length(window: Seq<Seq<char>>)
    ensures
        value_sum(occurrence_table(window)) == window.len(),
    decreases window.len(),
{
    let table = occurrence_table(window);
    lemma_occurrence_table_finite(window);
    if table.dom().len() == 0 {
        if window.len() > 0 {
            assert(window.contains(window[0]));
            assert(table.dom().contains(window[0]));
        }
    } else {
        let key = table.dom().choose();
        assert(table.dom().contains(key));
        let rest = without(window, key);
        lemma_occurrences_bounds(window, key);
        lemma_without(window, key, key);
        assert forall|fingerprint: Seq<char>|
            rest.contains(fingerprint) <==> (fingerprint != key && window.contains(
                fingerprint,
            )) by {
            lemma_without(window, key, fingerprint);
            lemma_occurrences_bounds(window, fingerprint);
            lemma_occurrences_bounds(rest, fingerprint);
        }
        assert forall|fingerprint: Seq<char>| fingerprint != key implies occurrences(
            rest,
            fingerprint,
        ) == occurrences(window, fingerprint) by {
            lemma_without(window, key, fingerprint);
        }
        assert(table.remove(key) =~= occurrence_table(rest));
        lemma_value_sum_is_window_length(rest);
    }
}

/// A table has at least two highly recurring fingerprints iff two distinct
/// keys both have a count of at least [`HIGH_OCCURRENCE`].
pub proof fn lemma_two_highly_recurring(table: Map<Seq<char>, nat>)
    requires
        table.dom().finite(),
    ensures
        high_occurrence_count(table) >= 2 <==> exists|a: Seq<char>, b: Seq<char>|
            a != b && #[trigger] table.dom().contains(a) && #[trigger] table.dom().contains(b)
                && table[a] >= HIGH_OCCURRENCE && table[b] >= HIGH_OCCURRENCE,
{
    let high = highly_recurring(table);
    vstd::set_lib::lemma_len_subset(high, table.dom());
    if high.len() >= 2 {
        let a = high.choose();
        assert(high.contains(a));
        let others = high.remove(a);
        assert(others.len() >= 1);
        let b = others.choose();
        assert(others.contains(b));
        assert(a != b && table.dom().contains(a) && table.dom().contains(b) && table[a]
            >= HIGH_OCCURRENCE && table[b] >= HIGH_OCCURRENCE);
    }
    if exists|a: Seq<char>, b: Seq<char>|
        a != b && #[trigger] table.dom().contains(a) && #[trigger] table.dom().contains(b)
            && table[a] >= HIGH_OCCURRENCE && table[b] >= HIGH_OCCURRENCE {
        let (a, b) = choose|a: Seq<char>, b: Seq<char>|
            a != b && #[trigger] table.dom().contains(a) && #[trigger] table.dom().contains(b)
                && table[a] >= HIGH_OCCURRENCE && table[b] >= HIGH_OCCURRENCE;
        assert(high.contains(a));
        assert(high.contains(b));
        assert(high.remove(a).contains(b));
        assert(high.remove(a).len() >= 1) by {
            if high.remove(a).len() == 0 {
                assert(high.remove(a) =~= Set::empty());
            }
        }
    }
}

/// The mathematical content of a [`Detector`].
pub struct DetectorView {
    /// The retained fingerprints, oldest first.
    pub window: Seq<Seq<char>>,
    /// How often each retained fingerprint occurs in the window.
    pub table: Map<Seq<char>, nat>,
    /// The greatest length that the window may have.
    pub retention: nat,
}

impl DetectorView {
    /// The window is within its bound and the table is the window's own.
    pub open spec fn wf(self) -> bool {
        &&& self.retention > 0
        &&& self.window.len() <= self.retention
        &&& self.table == occurrence_table(self.window)
    }

    /// The detector with an empty window.
    pub open spec fn empty(retention: nat) -> DetectorView {
        DetectorView { window: Seq::empty(), table: Map::empty(), retention }
    }

    /// The detector after one more fingerprint has been observed.
    pub open spec fn observe(self, fingerprint: Seq<char>) -> DetectorView {
        let window = slide(self.window, fingerprint, self.retention);
        DetectorView { window, table: occurrence_table(window), retention: self.retention }
    }

    /// Whether the table calls for a stop.
    pub open spec fn verdict(self) -> bool {
        recurring_pattern(self.table)
    }
}

/// The window of a well-formed detector never exceeds its bound and the
/// values of its table add up to the length of the window, before and after
/// any observation.
pub proof fn lemma_window_bounded_and_table_current(detector: DetectorView, fingerprint: Seq<char>)
    requires
        detector.wf(),
    ensures
        detector.window.len() <= detector.retention,
        value_sum(detector.table) == detector.window.len(),
        detector.observe(fingerprint).wf(),
        detector.observe(fingerprint).window.len() <= detector.retention,
        value_sum(detector.observe(fingerprint).table) == detector.observe(
            fingerprint,
        ).window.len(),
{
    lemma_value_sum_is_window_length(detector.window);
    lemma_value_sum_is_window_length(detector.observe(fingerprint).window);
}

/// The views of a sequence of strings.
spec fn texts(history: Seq<String>) -> Seq<Seq<char>> {
    Seq::new(history.len(), |i: int| history[i]@)
}

/// The counts of a table as natural numbers.
spec fn as_table(counts: Map<Seq<char>, usize>) -> Map<Seq<char>, nat> {
    Map::new(
        |fingerprint: Seq<char>| counts.contains_key(fingerprint),
        |fingerprint: Seq<char>| counts[fingerprint] as nat,
    )
}

/// The counts are those of the window: the keys are the fingerprints that
/// occur in it, each with the number of its occurrences.
spec fn tallies(counts: Map<Seq<char>, usize>, window: Seq<Seq<char>>) -> bool {
    forall|fingerprint: Seq<char>|
        {
            &&& #[trigger] counts.contains_key(fingerprint) <==> window.contains(fingerprint)
            &&& counts.contains_key(fingerprint) ==> counts[fingerprint] == occurrences(
                window,
                fingerprint,
            )
        }
}

/// The counts after one occurrence of `fingerprint` has been taken out.
spec fn forgotten(counts: Map<Seq<char>, usize>, fingerprint: Seq<char>) -> Map<
    Seq<char>,
    usize,
> {
    if counts.contains_key(fingerprint) && counts[fingerprint] > 1 {
        counts.insert(fingerprint, (counts[fingerprint] - 1) as usize)
    } else {
        counts.remove(fingerprint)
    }
}

/// The counts after one occurrence of `fingerprint` has been added.
spec fn recorded(counts: Map<Seq<char>, usize>, fingerprint: Seq<char>) -> Map<Seq<char>, usize> {
    counts.insert(
        fingerprint,
        if counts.contains_key(fingerprint) {
            (counts[fingerprint] + 1) as usize
        } else {
            1usize
        },
    )
}

proof fn lemma_tallies_table(counts: Map<Seq<char>, usize>, window: Seq<Seq<char>>)
    ensures
        tallies(counts, window) <==> as_table(counts) == occurrence_table(window),
{
    if tallies(counts, window) {
        assert(as_table(counts) =~= occurrence_table(window));
    }
    if as_table(counts) == occurrence_table(window) {
        assert forall|fingerprint: Seq<char>|
            {
                &&& #[trigger] counts.contains_key(fingerprint) <==> window.contains(fingerprint)
                &&& counts.contains_key(fingerprint) ==> counts[fingerprint] == occurrences(
                    window,
                    fingerprint,
                )
            } by {
            assert(as_table(counts).dom().contains(fingerprint) <==> counts.contains_key(
                fingerprint,
            ));
            if counts.contains_key(fingerprint) {
                assert(as_table(counts)[fingerprint] == counts[fingerprint] as nat);
            }
        }
    }
}

proof fn lemma_forget_tallies(counts: Map<Seq<char>, usize>, window: Seq<Seq<char>>)
    requires
        tallies(counts, window),
        window.len() > 0,
    ensures
        tallies(forgotten(counts, window.first()), window.drop_first()),
{
    let oldest = window.first();
    let kept = window.drop_first();
    let after = forgotten(counts, oldest);
    assert(window.contains(oldest));
    assert(counts.contains_key(oldest));
    assert forall|fingerprint: Seq<char>|
        {
            &&& #[trigger] after.contains_key(fingerprint) <==> kept.contains(fingerprint)
            &&& after.contains_key(fingerprint) ==> after[fingerprint] == occurrences(
                kept,
                fingerprint,
            )
        } by {
        lemma_occurrences_drop_first(window, fingerprint);
        lemma_occurrences_bounds(window, fingerprint);
        lemma_occurrences_bounds(kept, fingerprint);
        assert(counts.contains_key(fingerprint) <==> window.contains(fingerprint));
    }
}

proof fn lemma_record_tallies(
    counts: Map<Seq<char>, usize>,
    window: Seq<Seq<char>>,
    added: Seq<char>,
)
    requires
        tallies(counts, window),
        window.len() < usize::MAX,
    ensures
        tallies(recorded(counts, added), window.push(added)),
{
    let grown = window.push(added);
    let after = recorded(counts, added);
    assert forall|fingerprint: Seq<char>|
        {
            &&& #[trigger] after.contains_key(fingerprint) <==> grown.contains(fingerprint)
            &&& after.contains_key(fingerprint) ==> after[fingerprint] == occurrences(
                grown,
                fingerprint,
            )
        } by {
        lemma_occurrences_push(window, added, fingerprint);
        lemma_occurrences_bounds(window, fingerprint);
        lemma_occurrences_bounds(grown, fingerprint);
        assert(counts.contains_key(fingerprint) <==> window.contains(fingerprint));
    }
}

/// Takes one occurrence of `fingerprint` out of the table, and the key with
/// it when that was its last.
fn forget(counts: &mut StringHashMap<usize>, fingerprint: &str)
    ensures
        final(counts)@ == forgotten(old(counts)@, fingerprint@),
{
    let remaining: usize = match counts.get(fingerprint) {
        Some(count) => if *count > 1 {
            *count - 1
        } else {
            0
        },
        None => 0,
    };
    if remaining > 0 {
        counts.insert(fingerprint.to_owned(), remaining);
    } else {
        counts.remove(fingerprint);
    }
}

/// Adds one occurrence of `fingerprint` to the table.
fn record(counts: &mut StringHashMap<usize>, fingerprint: &str)
    requires
        old(counts)@.contains_key(fingerprint@) ==> old(counts)@[fingerprint@] < usize::MAX,
    ensures
        final(counts)@ == recorded(old(counts)@, fingerprint@),
{
    let count: usize = match counts.get(fingerprint) {
        Some(count) => *count + 1,
        None => 1,
    };
    counts.insert(fingerprint.to_owned(), count);
}

/// The recurring-state detector: the most recent fingerprints, at most
/// `retention` of them, and the number of times each occurs among them.
pub struct Detector {
    history: Vec<String>,
    counts: StringHashMap<usize>,
    retention: usize,
}

impl View for Detector {
    type V = DetectorView;

    closed spec fn view(&self) -> DetectorView {
        DetectorView {
            window: texts(self.history@),
            table: as_table(self.counts@),
            retention: self.retention as nat,
        }
    }
}

impl Detector {
    /// The invariant of a detector.
    pub open spec fn wf(&self) -> bool {
        self@.wf()
    }

    /// A detector with an empty window that retains up to `retention`
    /// fingerprints.
    pub fn new(retention: usize) -> (detector: Detector)
        requires
            retention > 0,
        ensures
            detector.wf(),
            detector@ == DetectorView::empty(retention as nat),
    {
        let detector = Detector {
            history: Vec::new(),
            counts: StringHashMap::with_capacity(30),
            retention,
        };
        assert(detector@.window =~= Seq::empty());
        assert(detector@.table =~= Map::empty());
        assert(detector@.table =~= occurrence_table(detector@.window));
        detector
    }

    /// The greatest number of fingerprints that the window holds.
    pub fn retention(&self) -> (retention: usize)
        ensures
            retention == self@.retention,
    {
        self.retention
    }

    /// The number of fingerprints in the window.
    pub fn window_len(&self) -> (len: usize)
        ensures
            len == self@.window.len(),
    {
        self.history.len()
    }

    /// How often `fingerprint` occurs in the window, according to the
    /// table.
    pub fn occurrence_count(&self, fingerprint: &str) -> (count: usize)
        requires
            self.wf(),
        ensures
            count == occurrences(self@.window, fingerprint@),
    {
        proof {
            lemma_occurrences_bounds(self@.window, fingerprint@);
            assert(self@.table.dom().contains(fingerprint@) <==> self@.window.contains(
                fingerprint@,
            ));
        }
        match self.counts.get(fingerprint) {
            Some(count) => {
                assert(self@.table[fingerprint@] == *count);
                *count
            },
            None => 0,
        }
    }

    /// Whether the table calls for a stop: at least two distinct
    /// fingerprints are highly recurring, or one is dominant.
    pub fn verdict(&self) -> (stop: bool)
        requires
            self.wf(),
        ensures
            stop == self@.verdict(),
    {
        let ghost window = self@.window;
        let ghost table = self@.table;
        let mut first_high: Option<usize> = None;
        let mut second_high = false;
        let mut dominant = false;
        let ghost mut high_pair: (int, int) = (0, 0);
        let ghost mut dominant_at: int = 0;
        let mut i: usize = 0;
        while i < self.history.len()
            invariant
                self.wf(),
                window == self@.window,
                table == self@.table,
                window.len() == self.history@.len(),
                i <= window.len(),
                match first_high {
                    Some(k) => k < i && table[window[k as int]] >= HIGH_OCCURRENCE,
                    None => forall|j: int| 0 <= j < i ==> table[#[trigger] window[j]] < HIGH_OCCURRENCE,
                },
                second_high ==> {
                    &&& 0 <= high_pair.0 < i
                    &&& 0 <= high_pair.1 < i
                    &&& window[high_pair.0] != window[high_pair.1]
                    &&& table[window[high_pair.0]] >= HIGH_OCCURRENCE
                    &&& table[window[high_pair.1]] >= HIGH_OCCURRENCE
                },
                !second_high ==> match first_high {
                    Some(k) => forall|j: int|
                        0 <= j < i && table[#[trigger] window[j]] >= HIGH_OCCURRENCE ==> window[j]
                            == window[k as int],
                    None => true,
                },
                dominant ==> 0 <= dominant_at < i && table[window[dominant_at]]
                    >= DOMINANT_OCCURRENCE,
                !dominant ==> forall|j: int|
                    0 <= j < i ==> table[#[trigger] window[j]] < DOMINANT_OCCURRENCE,
            decreases window.len() - i,
        {
            let count = self.occurrence_count(self.history[i].as_str());
            proof {
                assert(window[i as int] == self.history@[i as int]@);
                assert(window.contains(window[i as int]));
                assert(table[window[i as int]] == count);
            }
            if count >= DOMINANT_OCCURRENCE {
                dominant = true;
                proof {
                    dominant_at = i as int;
                }
            }
            if count >= HIGH_OCCURRENCE {
                match first_high {
                    Some(k) => {
                        assert(window[k as int] == self.history@[k as int]@);
                        if !second_high && self.history[i] != self.history[k] {
                            second_high = true;
                            proof {
                                high_pair = (k as int, i as int);
                            }
                        }
                    },
                    None => {
                        first_high = Some(i);
                    },
                }
            }
            i = i + 1;
        }
        proof {
            lemma_occurrence_table_finite(window);
            lemma_two_highly_recurring(table);
            if second_high {
                assert(window.contains(window[high_pair.0]));
                assert(window.contains(window[high_pair.1]));
                assert(table.dom().contains(window[high_pair.0]));
                assert(table.dom().contains(window[high_pair.1]));
            } else {
                assert forall|a: Seq<char>, b: Seq<char>|
                    #[trigger] table.dom().contains(a) && #[trigger] table.dom().contains(b)
                        && table[a] >= HIGH_OCCURRENCE && table[b]
                        >= HIGH_OCCURRENCE implies a == b by {
                    let ja = choose|j: int| 0 <= j < window.len() && window[j] == a;
                    let jb = choose|j: int| 0 <= j < window.len() && window[j] == b;
                    assert(table[window[ja]] >= HIGH_OCCURRENCE);
                    assert(table[window[jb]] >= HIGH_OCCURRENCE);
                }
            }
            if dominant {
                assert(window.contains(window[dominant_at]));
                assert(table.dom().contains(window[dominant_at]));
            } else {
                assert forall|fingerprint: Seq<char>|
                    table.dom().contains(fingerprint) implies #[trigger] table[fingerprint]
                    < DOMINANT_OCCURRENCE by {
                    let j = choose|j: int| 0 <= j < window.len() && window[j] == fingerprint;
                    assert(table[window[j]] < DOMINANT_OCCURRENCE);
                }
            }
        }
        second_high || dominant
    }

    /// Observes the fingerprint of a new generation: appends it to the
    /// window, evicts the oldest entry if the window has outgrown its
    /// bound, brings the table up to date, and returns the verdict on the
    /// table as it then stands.
    pub fn recurring_pattern_present(&mut self, digest: &str) -> (stop: bool)
        requires
            old(self).wf(),
        ensures
            final(self).wf(),
            final(self)@ == old(self)@.observe(digest@),
            stop == final(self)@.verdict(),
    {
        let ghost before = self@.window;
        proof {
            lemma_tallies_table(self.counts@, before);
        }
        self.history.push(digest.to_owned());
        assert(texts(self.history@) =~= before.push(digest@));
        let ghost kept = before;
        if self.history.len() > self.retention {
            let ghost counts_before = self.counts@;
            let evicted = self.history.remove(0);
            forget(&mut self.counts, evicted.as_str());
            proof {
                kept = before.drop_first();
                assert(texts(self.history@) =~= kept.push(digest@));
                lemma_forget_tallies(counts_before, before);
            }
        }
        let ghost counts_kept = self.counts@;
        proof {
            lemma_occurrences_bounds(kept, digest@);
        }
        record(&mut self.counts, digest);
        proof {
            lemma_record_tallies(counts_kept, kept, digest@);
            lemma_tallies_table(self.counts@, kept.push(digest@));
            assert(kept.push(digest@) =~= slide(before, digest@, self.retention as nat));
        }
        self.verdict()
    }
}

} // verus!
