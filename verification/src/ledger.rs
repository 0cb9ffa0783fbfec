//! What a sweep counted: records by strategy and label, the tally, and the recorded findings that
//! came up again or did not.

use std::collections::{BTreeMap, BTreeSet};

use vstd::prelude::*;
use vstd::std_specs::cmp::OrdSpec;
use vstd::std_specs::iter::IteratorSpec;
use vstd::string::{StrSliceExecFns, StringExecFns};

use crate::ordered::{self, TextMap};
use crate::pipeline::{
    Bucket, BucketView, ComparisonRecord, Tally, EXIT_CLEAN, EXIT_FAIL, EXIT_REVIEW,
};
use crate::sweep::SweepOpts;
use crate::text::{self, decimal_u64, hex_u64, pad_left, pad_right};

verus! {

/// Increasing numbers increase.
proof fn lemma_increasing(numbers: Seq<u64>)
    requires
        vstd::std_specs::btree::increasing_seq(numbers),
    ensures
        forall|i: int, j: int| 0 <= i < j < numbers.len() ==> numbers[i] < numbers[j],
{
    broadcast use vstd::laws_cmp::group_laws_cmp;

    assert forall|i: int, j: int| 0 <= i < j < numbers.len() implies numbers[i] < numbers[j] by {
        assert(numbers[i].cmp_spec(&numbers[j]) is Less);
    }
}

/// Whether numbers stand in strictly ascending order.
pub open spec fn ascending(numbers: Seq<u64>) -> bool {
    forall|i: int, j: int| 0 <= i < j < numbers.len() ==> numbers[i] < numbers[j]
}

/// The keys of a map, in order.
fn keys_of(map: &BTreeMap<u64, String>) -> (keys: Vec<u64>)
    ensures
        ascending(keys@),
        keys@.to_set() == map@.dom(),
        keys@.len() == map@.len(),
{
    proof {
        ordered::numbers_are_ordered();
    }
    let mut keys: Vec<u64> = Vec::new();
    let entries = map.iter();
    let ghost all = entries.remaining().map_values(|kv: (&u64, &String)| *kv.0);
    let ghost pairs = entries.remaining();
    proof {
        lemma_increasing(all);
        assert forall|k: u64| all.to_set().contains(k) <==> map@.dom().contains(k) by {
            if all.contains(k) {
                let i = choose|i: int| 0 <= i < all.len() && all[i] == k;
                assert(map@.contains_key(*pairs[i].0));
            }
            if map@.contains_key(k) {
                assert(pairs.contains((&k, &map@[k])));
                let i = choose|i: int| 0 <= i < pairs.len() && pairs[i] == (&k, &map@[k]);
                assert(all[i] == k);
            }
        }
        assert(all.to_set() =~= map@.dom());
    }
    for entry in it: entries
        invariant
            all == it.seq().map_values(|kv: (&u64, &String)| *kv.0),
            keys@ == all.take(it.index()),
    {
        keys.push(*entry.0);
        assert(keys@ =~= all.take(it.index() + 1));
    }
    assert(all.take(all.len() as int) =~= all);
    keys
}

/// Whether a recorded iteration has vanished: it belongs to the run and did not come up as
/// dangerous.
pub open spec fn has_vanished(opts: SweepOpts, reproduced: Set<u64>, k: u64) -> bool {
    opts.allow_iters@.contains_key(k) && opts.in_window(k) && !reproduced.contains(k)
}

/// The recorded iterations that have vanished, in order.
fn vanished_iterations(opts: &SweepOpts, reproduced: &BTreeSet<u64>) -> (vanished: Vec<u64>)
    ensures
        forall|k: u64| vanished@.contains(k) <==> has_vanished(*opts, reproduced@, k),
        ascending(vanished@),
        vanished@.len() <= opts.allow_iters@.len(),
{
    proof {
        ordered::numbers_are_ordered();
    }
    let keys = keys_of(&opts.allow_iters);
    let mut vanished: Vec<u64> = Vec::new();
    let mut i: usize = 0;
    while i < keys.len()
        invariant
            i <= keys@.len(),
            ascending(keys@),
            keys@.to_set() == opts.allow_iters@.dom(),
            ascending(vanished@),
            vanished@.len() <= i,
            vanished@.len() > 0 && i < keys@.len() ==> vanished@.last() < keys@[i as int],
            forall|k: u64|
                vanished@.contains(k) <==> keys@.take(i as int).contains(k) && has_vanished(
                    *opts,
                    reproduced@,
                    k,
                ),
        decreases keys.len() - i,
    {
        let ghost before = vanished@;
        let key: u64 = keys[i];
        assert(keys@.to_set().contains(key));
        if opts.covers(key) && !reproduced.contains(&key) {
            vanished.push(key);
        }
        proof {
            let more = keys@.take(i + 1);
            assert forall|k: u64|
                vanished@.contains(k) <==> more.contains(k) && has_vanished(
                    *opts,
                    reproduced@,
                    k,
                ) by {
                assert(more =~= keys@.take(i as int).push(key));
                if before.contains(k) {
                    let j = choose|j: int| 0 <= j < before.len() && before[j] == k;
                    assert(vanished@[j] == k);
                }
                if keys@.take(i as int).contains(k) {
                    let j = choose|j: int|
                        0 <= j < keys@.take(i as int).len() && keys@.take(i as int)[j] == k;
                    assert(more[j] == k);
                }
                assert(more[i as int] == key);
                if vanished@.len() > before.len() {
                    assert(vanished@[before.len() as int] == key);
                }
            }
        }
        i += 1;
    }
    proof {
        assert(keys@.take(i as int) =~= keys@);
        assert forall|k: u64| vanished@.contains(k) <==> has_vanished(*opts, reproduced@, k) by {
            if has_vanished(*opts, reproduced@, k) {
                assert(keys@.to_set().contains(k));
            }
        }
    }
    vanished
}

/// The sum of numbers.
pub open spec fn sum(numbers: Seq<u64>) -> int
    decreases numbers.len(),
{
    if numbers.len() == 0 {
        0
    } else {
        sum(numbers.drop_last()) + numbers.last()
    }
}

/// The sum of the counts whose labels are picked.
pub open spec fn total_where(
    rows: Seq<(String, [u64; 9])>,
    picked: spec_fn(Seq<char>) -> bool,
) -> int
    decreases rows.len(),
{
    if rows.len() == 0 {
        0
    } else {
        total_where(rows.drop_last(), picked) + (if picked(rows.last().0@) {
            sum(rows.last().1@)
        } else {
            0
        })
    }
}

/// The labels that are one text.
pub open spec fn exactly(text: Seq<char>) -> spec_fn(Seq<char>) -> bool {
    |label: Seq<char>| label == text
}

/// The labels that start with a text.
pub open spec fn starting_with(text: Seq<char>) -> spec_fn(Seq<char>) -> bool {
    |label: Seq<char>| text.is_prefix_of(label)
}

/// The labels of any kind.
pub open spec fn anything() -> spec_fn(Seq<char>) -> bool {
    |label: Seq<char>| true
}

/// The sum of all counts.
pub open spec fn total(rows: Seq<(String, [u64; 9])>) -> int {
    total_where(rows, anything())
}

proof fn lemma_sum_bounds(numbers: Seq<u64>)
    ensures
        0 <= sum(numbers),
        forall|i: int| 0 <= i < numbers.len() ==> #[trigger] numbers[i] <= sum(numbers),
    decreases numbers.len(),
{
    if numbers.len() > 0 {
        lemma_sum_bounds(numbers.drop_last());
        assert forall|i: int| 0 <= i < numbers.len() implies #[trigger] numbers[i] <= sum(
            numbers,
        ) by {
            if i < numbers.len() - 1 {
                assert(numbers.drop_last()[i] == numbers[i]);
            }
        }
    }
}

proof fn lemma_sum_update(numbers: Seq<u64>, i: int, n: u64)
    requires
        0 <= i < numbers.len(),
    ensures
        sum(numbers.update(i, n)) == sum(numbers) - numbers[i] + n,
    decreases numbers.len(),
{
    let changed = numbers.update(i, n);
    if i == numbers.len() - 1 {
        assert(changed.drop_last() =~= numbers.drop_last());
    } else {
        lemma_sum_update(numbers.drop_last(), i, n);
        assert(changed.drop_last() =~= numbers.drop_last().update(i, n));
    }
}

proof fn lemma_sum_zeros(n: nat)
    ensures
        sum(Seq::new(n, |i: int| 0u64)) == 0,
    decreases n,
{
    let zeros = Seq::new(n, |i: int| 0u64);
    if n > 0 {
        lemma_sum_zeros((n - 1) as nat);
        assert(zeros.drop_last() =~= Seq::new((n - 1) as nat, |i: int| 0u64));
    }
}

proof fn lemma_total_bounds(rows: Seq<(String, [u64; 9])>, picked: spec_fn(Seq<char>) -> bool)
    ensures
        0 <= total_where(rows, picked) <= total(rows),
        forall|i: int| 0 <= i < rows.len() ==> sum((#[trigger] rows[i]).1@) <= total(rows),
    decreases rows.len(),
{
    if rows.len() > 0 {
        lemma_total_bounds(rows.drop_last(), picked);
        lemma_sum_bounds(rows.last().1@);
        assert forall|i: int| 0 <= i < rows.len() implies sum((#[trigger] rows[i]).1@) <= total(
            rows,
        ) by {
            if i < rows.len() - 1 {
                assert(rows.drop_last()[i] == rows[i]);
            }
        }
    }
}

proof fn lemma_total_update(
    rows: Seq<(String, [u64; 9])>,
    i: int,
    row: (String, [u64; 9]),
    picked: spec_fn(Seq<char>) -> bool,
)
    requires
        0 <= i < rows.len(),
        rows[i].0@ == row.0@,
    ensures
        total_where(rows.update(i, row), picked) == total_where(rows, picked) + (if picked(
            row.0@,
        ) {
            sum(row.1@) - sum(rows[i].1@)
        } else {
            0
        }),
    decreases rows.len(),
{
    let changed = rows.update(i, row);
    if i == rows.len() - 1 {
        assert(changed.drop_last() =~= rows.drop_last());
    } else {
        lemma_total_update(rows.drop_last(), i, row, picked);
        assert(changed.drop_last() =~= rows.drop_last().update(i, row));
    }
}

proof fn lemma_total_insert(
    rows: Seq<(String, [u64; 9])>,
    i: int,
    row: (String, [u64; 9]),
    picked: spec_fn(Seq<char>) -> bool,
)
    requires
        0 <= i <= rows.len(),
    ensures
        total_where(rows.insert(i, row), picked) == total_where(rows, picked) + (if picked(
            row.0@,
        ) {
            sum(row.1@)
        } else {
            0
        }),
    decreases rows.len(),
{
    let changed = rows.insert(i, row);
    if i == rows.len() {
        assert(changed.drop_last() =~= rows);
    } else {
        lemma_total_insert(rows.drop_last(), i, row, picked);
        assert(changed.drop_last() =~= rows.drop_last().insert(i, row));
    }
}

/// What a sweep counted.
pub struct SweepLedger {
    /// The records of each label, by strategy.
    pub rows: TextMap<[u64; 9]>,
    pub tally: Tally,
    /// The recorded iterations that came up as dangerous.
    pub reproduced: BTreeSet<u64>,
    pub records: u64,
}

/// The label of a record: that of its bucket, but for a dangerous one that is recorded as such.
pub open spec fn record_name(bucket: BucketView, recorded: bool) -> Seq<char> {
    if Tally::is_known(bucket, recorded) {
        "known-dangerous"@
    } else {
        bucket.name()
    }
}

/// A row with one more record of a strategy.
pub open spec fn bumped(row: Seq<u64>, strategy: int) -> Seq<u64> {
    row.update(strategy, (row[strategy] + 1) as u64)
}

/// The counts of a label, by strategy.
pub open spec fn row_of(counts: Map<Seq<char>, Seq<u64>>, label: Seq<char>) -> Seq<u64> {
    if counts.contains_key(label) {
        counts[label]
    } else {
        Seq::new(9, |i: int| 0u64)
    }
}

/// Whether the counts by label agree with a tally.
pub open spec fn agrees_with(rows: Seq<(String, [u64; 9])>, tally: Tally) -> bool {
    &&& total_where(rows, exactly("agree-accept"@)) == tally.agree_accept
    &&& total_where(rows, exactly("agree-reject"@)) == tally.agree_reject
    &&& total_where(rows, starting_with("agree-"@)) == tally.agree_accept + tally.agree_reject
    &&& total_where(rows, starting_with("known-delta("@)) == tally.known_delta
    &&& total_where(rows, exactly("unexplained-safe"@)) == tally.unexplained_safe
    &&& total_where(rows, starting_with("DANGEROUS"@)) == tally.dangerous
    &&& total_where(rows, exactly("known-dangerous"@)) == tally.dangerous_known
    &&& total_where(rows, exactly("standing-mismatch"@)) == tally.standing_mismatch
    &&& total_where(rows, exactly("dcap-panic"@)) == tally.dcap_panic
}

/// Which of the reported labels a record's label is, and which of the reported beginnings it has.
proof fn lemma_names(bucket: BucketView, recorded: bool)
    ensures
        ({
            let name = record_name(bucket, recorded);
            let known = Tally::is_known(bucket, recorded);
            &&& exactly("agree-accept"@)(name) <==> bucket is AgreeAccept
            &&& exactly("agree-reject"@)(name) <==> bucket is AgreeReject
            &&& starting_with("agree-"@)(name) <==> bucket is AgreeAccept || bucket is AgreeReject
            &&& starting_with("known-delta("@)(name) <==> bucket is KnownDelta
            &&& exactly("unexplained-safe"@)(name) <==> bucket is UnexplainedSafe
            &&& starting_with("DANGEROUS"@)(name) <==> bucket is Dangerous && !known
            &&& exactly("known-dangerous"@)(name) <==> known
            &&& exactly("standing-mismatch"@)(name) <==> bucket is StandingMismatch
            &&& exactly("dcap-panic"@)(name) <==> bucket is DcapPanic
        }),
{
    reveal_strlit("agree-");
    reveal_strlit("agree-accept");
    reveal_strlit("agree-reject");
    reveal_strlit("known-delta(");
    reveal_strlit("unexplained-safe");
    reveal_strlit("DANGEROUS");
    reveal_strlit("DANGEROUS(");
    reveal_strlit("known-dangerous");
    reveal_strlit("standing-mismatch");
    reveal_strlit("dcap-panic");
    reveal_strlit(")");
    let name = record_name(bucket, recorded);
    let agree = "agree-"@;
    let delta = "known-delta("@;
    let danger = "DANGEROUS"@;
    if agree.is_prefix_of(name) {
        assert(name.subrange(0, agree.len() as int)[0] == 'a');
        assert(name[0] == 'a');
    }
    if delta.is_prefix_of(name) {
        assert(name.subrange(0, delta.len() as int)[6] == 'd');
        assert(name.subrange(0, delta.len() as int)[7] == 'e');
        assert(name.subrange(0, delta.len() as int)[0] == 'k');
        assert(name[0] == 'k' && name[6] == 'd' && name[7] == 'e');
    }
    if danger.is_prefix_of(name) {
        assert(name.subrange(0, danger.len() as int)[0] == 'D');
        assert(name[0] == 'D');
    }
    match bucket {
        BucketView::AgreeAccept => {
            assert(agree =~= name.subrange(0, agree.len() as int));
            assert(name[6] == 'a' && "agree-reject"@[6] == 'r');
        },
        BucketView::AgreeReject => {
            assert(agree =~= name.subrange(0, agree.len() as int));
            assert(name[6] == 'r' && "agree-accept"@[6] == 'a');
        },
        BucketView::KnownDelta(_) => {
            assert(delta =~= name.subrange(0, delta.len() as int));
            assert(name[7] == 'e' && "known-dangerous"@[7] == 'a');
        },
        BucketView::Dangerous(_) => {
            if Tally::is_known(bucket, recorded) {
                assert(name[7] == 'a');
            } else {
                assert(danger =~= name.subrange(0, danger.len() as int));
            }
        },
        BucketView::UnexplainedSafe => {
            assert(name[0] == 'u');
        },
        BucketView::StandingMismatch => {
            assert(name[0] == 's');
        },
        BucketView::DcapPanic => {
            assert(name[0] == 'd');
        },
    }
}

impl SweepLedger {
    /// The counts of each label that came up, by strategy.
    pub open spec fn counts(self) -> Map<Seq<char>, Seq<u64>> {
        self.rows@.map_values(|row: [u64; 9]| row@)
    }

    /// The labels stand in order, every record is counted once in the rows and once in the tally,
    /// and the two counts agree.
    pub open spec fn wf(self) -> bool {
        &&& self.rows.wf()
        &&& total(self.rows.entries@) == self.records
        &&& self.tally.recorded() == self.records
        &&& agrees_with(self.rows.entries@, self.tally)
    }

    pub fn new() -> (ledger: Self)
        ensures
            ledger.wf(),
            ledger.counts() == Map::<Seq<char>, Seq<u64>>::empty(),
            ledger.tally == Tally::zero(),
            ledger.reproduced@ == Set::<u64>::empty(),
            ledger.records == 0,
    {
        let ledger = SweepLedger {
            rows: TextMap { entries: Vec::new() },
            tally: Tally::default(),
            reproduced: BTreeSet::new(),
            records: 0,
        };
        assert(ledger.counts() =~= Map::<Seq<char>, Seq<u64>>::empty());
        ledger
    }

    /// Counts one record of an iteration, whose label is returned. A dangerous record whose
    /// iteration is recorded as dangerous counts as known, and the iteration as reproduced.
    pub fn record(&mut self, opts: &SweepOpts, i: u64, strategy: u64, bucket: &Bucket) -> (label:
        String)
        requires
            old(self).wf(),
            old(self).records < u64::MAX,
            strategy < 9,
        ensures
            final(self).wf(),
            final(self).records == old(self).records + 1,
            ({
                let recorded = opts.allow_iters@.contains_key(i);
                &&& label@ == record_name(bucket@, recorded)
                &&& final(self).tally == old(self).tally.settled(bucket@, recorded)
                &&& final(self).reproduced@ == if Tally::is_known(bucket@, recorded) {
                    old(self).reproduced@.insert(i)
                } else {
                    old(self).reproduced@
                }
                &&& final(self).counts() == old(self).counts().insert(
                    label@,
                    bumped(row_of(old(self).counts(), label@), strategy as int),
                )
            }),
    {
        proof {
            ordered::numbers_are_ordered();
        }
        let recorded: bool = opts.allow_iters.contains_key(&i);
        let known: bool = self.tally.settle(bucket, recorded);
        let label = if known {
            self.reproduced.insert(i);
            "known-dangerous".to_owned()
        } else {
            bucket.label()
        };
        self.count(label.as_str(), strategy);
        proof {
            lemma_names(bucket@, recorded);
        }
        label
    }

    /// Counts one record of a label and a strategy in the rows.
    fn count(&mut self, label: &str, strategy: u64)
        requires
            old(self).rows.wf(),
            total(old(self).rows.entries@) == old(self).records,
            old(self).records < u64::MAX,
            strategy < 9,
        ensures
            final(self).rows.wf(),
            total(final(self).rows.entries@) == final(self).records,
            final(self).records == old(self).records + 1,
            final(self).tally == old(self).tally,
            final(self).reproduced == old(self).reproduced,
            forall|picked: spec_fn(Seq<char>) -> bool| #[trigger]
                total_where(final(self).rows.entries@, picked) == total_where(
                    old(self).rows.entries@,
                    picked,
                ) + (if picked(label@) {
                    1int
                } else {
                    0
                }),
            final(self).counts() == old(self).counts().insert(
                label@,
                bumped(row_of(old(self).counts(), label@), strategy as int),
            ),
    {
        let ghost before = self.rows.entries@;
        let ghost counted = self.counts();
        let mut row: [u64; 9] = [0; 9];
        match self.rows.find(label) {
            Ok(i) => {
                row = self.rows.entries[i].1;
            },
            Err(_) => {
                assert(row@ =~= Seq::new(9, |i: int| 0u64));
            },
        }
        let ghost was = row@;
        proof {
            lemma_total_bounds(before, anything());
            lemma_sum_zeros(9);
            lemma_sum_bounds(was);
            lemma_sum_update(was, strategy as int, (was[strategy as int] + 1) as u64);
            assert(was == row_of(counted, label@));
        }
        let slot: usize = strategy as usize;
        row[slot] = row[slot] + 1;
        assert(row@ =~= bumped(was, strategy as int));
        let ghost known = self.rows@;
        let key = label.to_owned();
        self.rows.insert(key, row);
        self.records = self.records + 1;
        proof {
            let now = self.rows.entries@;
            if known.contains_key(label@) {
                let i = choose|i: int|
                    {
                        &&& 0 <= i < before.len()
                        &&& (#[trigger] before[i]).0@ == label@
                        &&& before[i].1 == known[label@]
                        &&& now == before.update(i, (key, row))
                    };
                assert forall|picked: spec_fn(Seq<char>) -> bool| #[trigger]
                    total_where(now, picked) == total_where(before, picked) + (if picked(label@) {
                        1int
                    } else {
                        0
                    }) by {
                    lemma_total_update(before, i, (key, row), picked);
                }
            } else {
                let i = choose|i: int|
                    {
                        &&& 0 <= i <= before.len()
                        &&& now == #[trigger] before.insert(i, (key, row))
                    };
                assert forall|picked: spec_fn(Seq<char>) -> bool| #[trigger]
                    total_where(now, picked) == total_where(before, picked) + (if picked(label@) {
                        1int
                    } else {
                        0
                    }) by {
                    lemma_total_insert(before, i, (key, row), picked);
                }
            }
            assert(self.counts() =~= counted.insert(label@, row@));
        }
    }
}

impl SweepLedger {
    /// Ends a sweep: the recorded iterations of the run that did not come up as dangerous, in order.
    /// Each counts as vanished.
    pub fn close(&mut self, opts: &SweepOpts) -> (vanished: Vec<u64>)
        requires
            old(self).wf(),
            old(self).tally.vanished + opts.allow_iters@.len() <= u64::MAX,
        ensures
            final(self).wf(),
            forall|k: u64|
                vanished@.contains(k) <==> has_vanished(*opts, old(self).reproduced@, k),
            ascending(vanished@),
            vanished@.len() <= opts.allow_iters@.len(),
            *final(self) == (SweepLedger {
                tally: Tally {
                    vanished: (old(self).tally.vanished + vanished@.len()) as u64,
                    ..old(self).tally
                },
                ..*old(self)
            }),
    {
        let vanished = vanished_iterations(opts, &self.reproduced);
        self.tally.vanished = self.tally.vanished + vanished.len() as u64;
        vanished
    }
}

fn sum_row(row: &[u64; 9]) -> (counted: u64)
    requires
        sum(row@) <= u64::MAX,
    ensures
        counted == sum(row@),
{
    let mut counted: u64 = 0;
    let mut i: usize = 0;
    while i < 9
        invariant
            i <= 9,
            row@.len() == 9,
            sum(row@) <= u64::MAX,
            counted == sum(row@.take(i as int)),
        decreases 9 - i,
    {
        proof {
            assert(row@.take(i + 1).drop_last() =~= row@.take(i as int));
            lemma_sum_prefix(row@, i + 1);
        }
        counted = counted + row[i];
        i += 1;
    }
    assert(row@.take(9) =~= row@);
    counted
}

proof fn lemma_sum_prefix(numbers: Seq<u64>, n: int)
    requires
        0 <= n <= numbers.len(),
    ensures
        sum(numbers.take(n)) <= sum(numbers),
    decreases numbers.len(),
{
    if n < numbers.len() {
        lemma_sum_prefix(numbers.drop_last(), n);
        assert(numbers.drop_last().take(n) =~= numbers.take(n));
    } else {
        assert(numbers.take(n) =~= numbers);
    }
}

proof fn lemma_total_prefix(
    rows: Seq<(String, [u64; 9])>,
    picked: spec_fn(Seq<char>) -> bool,
    n: int,
)
    requires
        0 <= n <= rows.len(),
    ensures
        total_where(rows.take(n), picked) <= total_where(rows, picked),
    decreases rows.len(),
{
    if n < rows.len() {
        lemma_total_prefix(rows.drop_last(), picked, n);
        lemma_sum_bounds(rows.last().1@);
        assert(rows.drop_last().take(n) =~= rows.take(n));
    } else {
        assert(rows.take(n) =~= rows);
    }
}

impl SweepLedger {
    /// How many records have a label that is a text, or that starts with it.
    fn sum_for(&self, text: &str, prefix: bool) -> (counted: u64)
        requires
            self.wf(),
        ensures
            counted == total_where(
                self.rows.entries@,
                if prefix {
                    starting_with(text@)
                } else {
                    exactly(text@)
                },
            ),
    {
        let ghost rows = self.rows.entries@;
        let ghost picked = if prefix {
            starting_with(text@)
        } else {
            exactly(text@)
        };
        proof {
            lemma_total_bounds(rows, picked);
        }
        let mut counted: u64 = 0;
        let mut i: usize = 0;
        while i < self.rows.entries.len()
            invariant
                i <= self.rows.entries@.len(),
                rows == self.rows.entries@,
                picked == (if prefix {
                    starting_with(text@)
                } else {
                    exactly(text@)
                }),
                total_where(rows, picked) <= total(rows) <= u64::MAX,
                forall|j: int| 0 <= j < rows.len() ==> sum((#[trigger] rows[j]).1@) <= total(rows),
                counted == total_where(rows.take(i as int), picked),
            decreases self.rows.entries.len() - i,
        {
            let label: &str = self.rows.entries[i].0.as_str();
            let taken: bool = if prefix {
                text::starts_with(label, text)
            } else {
                text::same_text(label, text)
            };
            proof {
                assert(rows.take(i + 1).drop_last() =~= rows.take(i as int));
                lemma_total_prefix(rows, picked, i + 1);
            }
            if taken {
                counted = counted + sum_row(&self.rows.entries[i].1);
            }
            i += 1;
        }
        assert(rows.take(i as int) =~= rows);
        counted
    }
}

/// The most bytes that a label takes.
pub open spec fn longest(rows: Seq<(String, [u64; 9])>) -> int
    decreases rows.len(),
{
    if rows.len() == 0 {
        0
    } else {
        let before = longest(rows.drop_last());
        let last = vstd::utf8::encode_utf8(rows.last().0@).len() as int;
        if last > before {
            last
        } else {
            before
        }
    }
}

/// The width of a column: two more than the longest label has bytes.
pub open spec fn column_width(rows: Seq<(String, [u64; 9])>) -> int {
    if rows.len() == 0 {
        14
    } else {
        longest(rows) + 2
    }
}

/// Texts set to the right in columns.
pub open spec fn cells(texts: Seq<Seq<char>>, width: int) -> Seq<char>
    decreases texts.len(),
{
    if texts.len() == 0 {
        seq![]
    } else {
        cells(texts.drop_last(), width) + text::padded_left(texts.last(), width)
    }
}

/// A line of the table: its head, and a column for each label.
pub open spec fn table_line(head: Seq<char>, texts: Seq<Seq<char>>, width: int) -> Seq<char> {
    text::padded_right(head, 10) + cells(texts, width)
}

/// The labels.
pub open spec fn labels(rows: Seq<(String, [u64; 9])>) -> Seq<Seq<char>> {
    Seq::new(rows.len(), |i: int| rows[i].0@)
}

/// The counts of a strategy.
pub open spec fn strategy_counts(rows: Seq<(String, [u64; 9])>, strategy: int) -> Seq<Seq<char>> {
    Seq::new(rows.len(), |i: int| text::decimal(rows[i].1@[strategy] as int))
}

/// The counts of all strategies together.
pub open spec fn label_totals(rows: Seq<(String, [u64; 9])>) -> Seq<Seq<char>> {
    Seq::new(rows.len(), |i: int| text::decimal(sum(rows[i].1@)))
}

/// The lines of the first `n` strategies.
pub open spec fn strategy_lines(rows: Seq<(String, [u64; 9])>, n: nat) -> Seq<Seq<char>> {
    Seq::new(
        n,
        |s: int| table_line(text::decimal(s), strategy_counts(rows, s), column_width(rows)),
    )
}

/// The kind of delta that a label names.
pub open spec fn delta_kind(label: Seq<char>) -> Option<Seq<char>> {
    let prefix = "known-delta("@;
    if prefix.is_prefix_of(label) && label.len() > prefix.len() && label.last() == ')' {
        Some(label.subrange(prefix.len() as int, label.len() - 1))
    } else {
        None
    }
}

/// The line of a label that names a known delta.
pub open spec fn delta_line(rows: Seq<(String, [u64; 9])>, label: Seq<char>) -> Seq<Seq<char>> {
    match delta_kind(label) {
        Some(kind) => seq![
            "known delta "@ + kind + ": "@ + text::decimal(total_where(rows, exactly(label))),
        ],
        None => seq![],
    }
}

/// The lines of the known deltas among the first `n` labels.
pub open spec fn delta_lines(rows: Seq<(String, [u64; 9])>, n: nat) -> Seq<Seq<char>>
    decreases n,
{
    if n == 0 {
        seq![]
    } else {
        delta_lines(rows, (n - 1) as nat) + delta_line(rows, rows[n - 1].0@)
    }
}

/// The line of the agreements.
pub open spec fn agreement_line(rows: Seq<(String, [u64; 9])>) -> Seq<char> {
    "agreements: "@ + text::decimal(total_where(rows, starting_with("agree-"@))) + " (accept "@
        + text::decimal(total_where(rows, exactly("agree-accept"@))) + ", reject "@
        + text::decimal(total_where(rows, exactly("agree-reject"@))) + ")"@
}

/// What a sweep reports: a table of the records by strategy and label, the agreements, each known
/// delta, and the rest.
pub open spec fn summary_lines(rows: Seq<(String, [u64; 9])>, records: int) -> Seq<Seq<char>> {
    let width = column_width(rows);
    seq![
        ""@,
        "=== sweep summary ("@ + text::decimal(records) + " iterations) ==="@,
        table_line("strategy"@, labels(rows), width),
    ] + strategy_lines(rows, 9) + seq![
        table_line("total"@, label_totals(rows), width),
        ""@,
        agreement_line(rows),
    ] + delta_lines(rows, rows.len()) + seq![
        "unexplained-safe: "@ + text::decimal(total_where(rows, exactly("unexplained-safe"@))),
        "standing-mismatch: "@ + text::decimal(total_where(rows, exactly("standing-mismatch"@))),
        "dcap-panic: "@ + text::decimal(total_where(rows, exactly("dcap-panic"@))),
        "DANGEROUS: "@ + text::decimal(total_where(rows, starting_with("DANGEROUS"@))),
    ]
}

fn line_of(head: &str, columns: &Vec<String>, width: usize) -> (line: String)
    ensures
        line@ == table_line(head@, text::texts(columns@), width as int),
{
    let ghost all = text::texts(columns@);
    let mut line = pad_right(head, 10);
    let ghost start = line@;
    let mut i: usize = 0;
    assert(all.take(0) =~= seq![]);
    assert(line@ =~= start + cells(all.take(0), width as int));
    while i < columns.len()
        invariant
            i <= columns@.len(),
            all == text::texts(columns@),
            line@ == start + cells(all.take(i as int), width as int),
        decreases columns.len() - i,
    {
        let cell = pad_left(columns[i].as_str(), width);
        proof {
            assert(all.take(i + 1).drop_last() =~= all.take(i as int));
            assert(start + cells(all.take(i as int), width as int) + cell@ =~= start + cells(
                all.take(i + 1),
                width as int,
            ));
        }
        line = line.concat(cell.as_str());
        i += 1;
    }
    assert(all.take(i as int) =~= all);
    line
}

impl SweepLedger {
    fn label_column(&self) -> (columns: Vec<String>)
        ensures
            text::texts(columns@) == labels(self.rows.entries@),
    {
        let mut columns: Vec<String> = Vec::new();
        let mut i: usize = 0;
        while i < self.rows.entries.len()
            invariant
                i <= self.rows.entries@.len(),
                columns@.len() == i,
                forall|j: int| 0 <= j < i ==> (#[trigger] columns@[j])@ == self.rows.entries@[j].0@,
            decreases self.rows.entries.len() - i,
        {
            columns.push(self.rows.entries[i].0.as_str().to_owned());
            i += 1;
        }
        assert(text::texts(columns@) =~= labels(self.rows.entries@));
        columns
    }

    fn strategy_column(&self, strategy: usize) -> (columns: Vec<String>)
        requires
            strategy < 9,
        ensures
            text::texts(columns@) == strategy_counts(self.rows.entries@, strategy as int),
    {
        let mut columns: Vec<String> = Vec::new();
        let mut i: usize = 0;
        while i < self.rows.entries.len()
            invariant
                i <= self.rows.entries@.len(),
                strategy < 9,
                columns@.len() == i,
                forall|j: int|
                    0 <= j < i ==> (#[trigger] columns@[j])@ == text::decimal(
                        self.rows.entries@[j].1@[strategy as int] as int,
                    ),
            decreases self.rows.entries.len() - i,
        {
            columns.push(decimal_u64(self.rows.entries[i].1[strategy]));
            i += 1;
        }
        assert(text::texts(columns@) =~= strategy_counts(self.rows.entries@, strategy as int));
        columns
    }

    fn total_column(&self) -> (columns: Vec<String>)
        requires
            self.wf(),
        ensures
            text::texts(columns@) == label_totals(self.rows.entries@),
    {
        proof {
            lemma_total_bounds(self.rows.entries@, anything());
        }
        let mut columns: Vec<String> = Vec::new();
        let mut i: usize = 0;
        while i < self.rows.entries.len()
            invariant
                i <= self.rows.entries@.len(),
                forall|j: int|
                    0 <= j < self.rows.entries@.len() ==> sum((#[trigger] self.rows.entries@[j]).1@)
                        <= u64::MAX,
                columns@.len() == i,
                forall|j: int|
                    0 <= j < i ==> (#[trigger] columns@[j])@ == text::decimal(
                        sum(self.rows.entries@[j].1@),
                    ),
            decreases self.rows.entries.len() - i,
        {
            columns.push(decimal_u64(sum_row(&self.rows.entries[i].1)));
            i += 1;
        }
        assert(text::texts(columns@) =~= label_totals(self.rows.entries@));
        columns
    }

    fn width(&self) -> (width: usize)
        requires
            column_width(self.rows.entries@) <= usize::MAX,
        ensures
            width == column_width(self.rows.entries@),
    {
        let ghost rows = self.rows.entries@;
        if self.rows.entries.len() == 0 {
            return 14;
        }
        let mut widest: usize = 0;
        let mut i: usize = 0;
        while i < self.rows.entries.len()
            invariant
                i <= self.rows.entries@.len(),
                rows == self.rows.entries@,
                widest == longest(rows.take(i as int)),
            decreases self.rows.entries.len() - i,
        {
            assert(rows.take(i + 1).drop_last() =~= rows.take(i as int));
            let len: usize = self.rows.entries[i].0.as_str().as_bytes().len();
            if len > widest {
                widest = len;
            }
            i += 1;
        }
        assert(rows.take(i as int) =~= rows);
        widest + 2
    }
}

/// The kind of delta that a label names.
fn kind_of_delta(label: &str) -> (kind: Option<&str>)
    ensures
        match kind {
            Some(text) => delta_kind(label@) == Some(text@),
            None => delta_kind(label@) is None,
        },
{
    proof {
        reveal_strlit("known-delta(");
    }
    let len: usize = label.unicode_len();
    if text::starts_with(label, "known-delta(") && len > 12 && label.get_char(len - 1) == ')' {
        Some(label.substring_char(12, len - 1))
    } else {
        None
    }
}

proof fn lemma_pushed(lines: Seq<String>, line: String)
    ensures
        text::texts(lines.push(line)) == text::texts(lines).push(line@),
{
    assert(text::texts(lines.push(line)) =~= text::texts(lines).push(line@));
}

impl SweepLedger {
    fn push_strategy_lines(&self, lines: &mut Vec<String>, width: usize)
        requires
            width == column_width(self.rows.entries@),
        ensures
            text::texts(final(lines)@) == text::texts(old(lines)@) + strategy_lines(
                self.rows.entries@,
                9,
            ),
    {
        let ghost start = text::texts(lines@);
        let ghost rows = self.rows.entries@;
        let mut strategy: usize = 0;
        assert(start =~= start + strategy_lines(rows, 0));
        while strategy < 9
            invariant
                strategy <= 9,
                rows == self.rows.entries@,
                width == column_width(rows),
                text::texts(lines@) == start + strategy_lines(rows, strategy as nat),
            decreases 9 - strategy,
        {
            let head = decimal_u64(strategy as u64);
            let line = line_of(head.as_str(), &self.strategy_column(strategy), width);
            proof {
                lemma_pushed(lines@, line);
                assert((start + strategy_lines(rows, strategy as nat)).push(line@) =~= start
                    + strategy_lines(rows, (strategy + 1) as nat));
            }
            lines.push(line);
            strategy += 1;
        }
    }

    fn push_delta_lines(&self, lines: &mut Vec<String>)
        requires
            self.wf(),
        ensures
            text::texts(final(lines)@) == text::texts(old(lines)@) + delta_lines(
                self.rows.entries@,
                self.rows.entries@.len(),
            ),
    {
        let ghost start = text::texts(lines@);
        let ghost rows = self.rows.entries@;
        let mut i: usize = 0;
        assert(start =~= start + delta_lines(rows, 0));
        while i < self.rows.entries.len()
            invariant
                i <= self.rows.entries@.len(),
                self.wf(),
                rows == self.rows.entries@,
                text::texts(lines@) == start + delta_lines(rows, i as nat),
            decreases self.rows.entries.len() - i,
        {
            let label: &str = self.rows.entries[i].0.as_str();
            let ghost before = text::texts(lines@);
            match kind_of_delta(label) {
                Some(kind) => {
                    let line = "known delta ".to_owned().concat(kind).concat(": ").concat(
                        decimal_u64(self.sum_for(label, false)).as_str(),
                    );
                    proof {
                        lemma_pushed(lines@, line);
                    }
                    lines.push(line);
                    assert(before.push(line@) =~= before + delta_line(rows, label@));
                },
                None => {
                    assert(before =~= before + delta_line(rows, label@));
                },
            }
            assert(before + delta_line(rows, label@) =~= start + (delta_lines(rows, i as nat)
                + delta_line(rows, label@)));
            i += 1;
        }
    }

    /// What a sweep reports, line by line.
    pub fn summary(&self) -> (lines: Vec<String>)
        requires
            self.wf(),
            column_width(self.rows.entries@) <= usize::MAX,
        ensures
            text::texts(lines@) == summary_lines(self.rows.entries@, self.records as int),
    {
        let ghost rows = self.rows.entries@;
        let width: usize = self.width();
        let mut lines: Vec<String> = Vec::new();
        lines.push("".to_owned());
        lines.push(
            "=== sweep summary (".to_owned().concat(decimal_u64(self.records).as_str()).concat(
                " iterations) ===",
            ),
        );
        lines.push(line_of("strategy", &self.label_column(), width));
        let ghost head = seq![
            ""@,
            "=== sweep summary ("@ + text::decimal(self.records as int) + " iterations) ==="@,
            table_line("strategy"@, labels(rows), width as int),
        ];
        assert(text::texts(lines@) =~= head);
        self.push_strategy_lines(&mut lines, width);
        let ghost before = text::texts(lines@);
        lines.push(line_of("total", &self.total_column(), width));
        lines.push("".to_owned());
        lines.push(
            "agreements: ".to_owned().concat(
                decimal_u64(self.sum_for("agree-", true)).as_str(),
            ).concat(" (accept ").concat(
                decimal_u64(self.sum_for("agree-accept", false)).as_str(),
            ).concat(", reject ").concat(
                decimal_u64(self.sum_for("agree-reject", false)).as_str(),
            ).concat(")"),
        );
        let ghost middle = seq![
            table_line("total"@, label_totals(rows), width as int),
            ""@,
            agreement_line(rows),
        ];
        assert(text::texts(lines@) =~= before + middle);
        self.push_delta_lines(&mut lines);
        let ghost upper = text::texts(lines@);
        lines.push(
            "unexplained-safe: ".to_owned().concat(
                decimal_u64(self.sum_for("unexplained-safe", false)).as_str(),
            ),
        );
        lines.push(
            "standing-mismatch: ".to_owned().concat(
                decimal_u64(self.sum_for("standing-mismatch", false)).as_str(),
            ),
        );
        lines.push(
            "dcap-panic: ".to_owned().concat(
                decimal_u64(self.sum_for("dcap-panic", false)).as_str(),
            ),
        );
        lines.push(
            "DANGEROUS: ".to_owned().concat(
                decimal_u64(self.sum_for("DANGEROUS", true)).as_str(),
            ),
        );
        let ghost tail = seq![
            "unexplained-safe: "@ + text::decimal(total_where(rows, exactly("unexplained-safe"@))),
            "standing-mismatch: "@ + text::decimal(
                total_where(rows, exactly("standing-mismatch"@)),
            ),
            "dcap-panic: "@ + text::decimal(total_where(rows, exactly("dcap-panic"@))),
            "DANGEROUS: "@ + text::decimal(total_where(rows, starting_with("DANGEROUS"@))),
        ];
        assert(text::texts(lines@) =~= upper + tail);
        lines
    }
}

/// A recorded iteration of the run either came up as dangerous or has vanished, never both.
pub proof fn recorded_iterations_are_accounted_for(opts: SweepOpts, reproduced: Set<u64>, k: u64)
    requires
        opts.allow_iters@.contains_key(k),
        opts.in_window(k),
    ensures
        has_vanished(opts, reproduced, k) <==> !reproduced.contains(k),
{
}

/// What a sweep has counted so far, by the tally and the recorded iterations that came up.
pub ghost struct SweepState {
    pub tally: Tally,
    pub reproduced: Set<u64>,
}

/// What a sweep has counted after the first `n` iterations of its window, whose records fell into
/// `buckets`: each is counted as [`SweepLedger::record`] counts it.
pub open spec fn swept(opts: SweepOpts, buckets: Seq<BucketView>, n: nat) -> SweepState
    decreases n,
{
    if n == 0 {
        SweepState { tally: Tally::zero(), reproduced: Set::empty() }
    } else {
        let before = swept(opts, buckets, (n - 1) as nat);
        let k = opts.window()[n - 1];
        let recorded = opts.allow_iters@.contains_key(k);
        SweepState {
            tally: before.tally.settled(buckets[n - 1], recorded),
            reproduced: if Tally::is_known(buckets[n - 1], recorded) {
                before.reproduced.insert(k)
            } else {
                before.reproduced
            },
        }
    }
}

/// Whether one of the first `n` records shows a defect.
pub open spec fn shows_defect(buckets: Seq<BucketView>, n: nat) -> bool {
    exists|i: int|
        0 <= i < n && (#[trigger] buckets[i] is DcapPanic || buckets[i] is StandingMismatch)
}

/// Whether one of the first `n` iterations is dangerous and not recorded as such.
pub open spec fn shows_unrecorded(opts: SweepOpts, buckets: Seq<BucketView>, n: nat) -> bool {
    exists|i: int|
        0 <= i < n && #[trigger] buckets[i] is Dangerous && !opts.allow_iters@.contains_key(
            opts.window()[i],
        )
}

/// Whether an iteration is one of the first `n` and came up as dangerous.
pub open spec fn came_up(opts: SweepOpts, buckets: Seq<BucketView>, n: nat, k: u64) -> bool {
    exists|i: int| 0 <= i < n && #[trigger] buckets[i] is Dangerous && opts.window()[i] == k
}

/// Whether a recorded iteration of the window did not come up as dangerous.
pub open spec fn misses_recorded(opts: SweepOpts, buckets: Seq<BucketView>) -> bool {
    exists|k: u64| #[trigger]
        opts.allow_iters@.contains_key(k) && opts.in_window(k) && !came_up(
            opts,
            buckets,
            buckets.len(),
            k,
        )
}

proof fn lemma_swept(opts: SweepOpts, buckets: Seq<BucketView>, n: nat)
    requires
        n <= buckets.len() == opts.window().len(),
    ensures
        ({
            let state = swept(opts, buckets, n);
            &&& state.tally.recorded() == n
            &&& state.tally.vanished == 0
            &&& state.tally.dcap_panic > 0 || state.tally.standing_mismatch > 0 <==> shows_defect(
                buckets,
                n,
            )
            &&& state.tally.dangerous > 0 <==> shows_unrecorded(opts, buckets, n)
            &&& forall|k: u64| #[trigger]
                state.reproduced.contains(k) <==> opts.allow_iters@.contains_key(k) && came_up(
                    opts,
                    buckets,
                    n,
                    k,
                )
        }),
    decreases n,
{
    if n > 0 {
        let m = (n - 1) as nat;
        let last = n - 1;
        lemma_swept(opts, buckets, m);
        let before = swept(opts, buckets, m);
        let state = swept(opts, buckets, n);
        let bucket = buckets[last];
        let k0 = opts.window()[last];
        assert(shows_defect(buckets, n) <==> shows_defect(buckets, m) || bucket is DcapPanic
            || bucket is StandingMismatch) by {
            if shows_defect(buckets, m) {
                let i = choose|i: int|
                    0 <= i < m && (#[trigger] buckets[i] is DcapPanic
                        || buckets[i] is StandingMismatch);
                assert(0 <= i < n && (buckets[i] is DcapPanic || buckets[i] is StandingMismatch));
            }
        }
        assert(shows_unrecorded(opts, buckets, n) <==> shows_unrecorded(opts, buckets, m) || (
        bucket is Dangerous && !opts.allow_iters@.contains_key(k0))) by {
            if shows_unrecorded(opts, buckets, m) {
                let i = choose|i: int|
                    0 <= i < m && #[trigger] buckets[i] is Dangerous
                        && !opts.allow_iters@.contains_key(opts.window()[i]);
                assert(0 <= i < n && buckets[i] is Dangerous);
            }
        }
        assert forall|k: u64| #[trigger]
            state.reproduced.contains(k) <==> opts.allow_iters@.contains_key(k) && came_up(
                opts,
                buckets,
                n,
                k,
            ) by {
            assert(came_up(opts, buckets, n, k) <==> came_up(opts, buckets, m, k) || (
            bucket is Dangerous && k0 == k)) by {
                if came_up(opts, buckets, m, k) {
                    let i = choose|i: int|
                        0 <= i < m && #[trigger] buckets[i] is Dangerous && opts.window()[i] == k;
                    assert(0 <= i < n && buckets[i] is Dangerous);
                }
            }
            assert(before.reproduced.contains(k) <==> opts.allow_iters@.contains_key(k)
                && came_up(opts, buckets, m, k));
        }
    }
}

/// The exit code of a whole sweep. Its window fell into `buckets`, record by record, and `vanished`
/// is what [`SweepLedger::close`] gave. A panic or a standing that differs is a failure; else a
/// dangerous iteration that is not recorded, or a recorded one of the window that did not come up,
/// calls for review; else the sweep is clean.
pub proof fn a_sweep_exits_by_what_it_found(
    opts: SweepOpts,
    buckets: Seq<BucketView>,
    vanished: Seq<u64>,
)
    requires
        buckets.len() == opts.window().len(),
        vanished.len() <= u64::MAX,
        forall|k: u64|
            vanished.contains(k) <==> has_vanished(
                opts,
                swept(opts, buckets, buckets.len()).reproduced,
                k,
            ),
    ensures
        (Tally {
            vanished: vanished.len() as u64,
            ..swept(opts, buckets, buckets.len()).tally
        }).code() == (if shows_defect(buckets, buckets.len()) {
            EXIT_FAIL
        } else if shows_unrecorded(opts, buckets, buckets.len()) || misses_recorded(
            opts,
            buckets,
        ) {
            EXIT_REVIEW
        } else {
            EXIT_CLEAN
        }),
{
    let n = buckets.len();
    let state = swept(opts, buckets, n);
    lemma_swept(opts, buckets, n);
    assert(vanished.len() > 0 <==> misses_recorded(opts, buckets)) by {
        if vanished.len() > 0 {
            let k = vanished[0];
            assert(vanished.contains(k));
            assert(has_vanished(opts, state.reproduced, k));
            assert(!state.reproduced.contains(k));
            assert(opts.allow_iters@.contains_key(k));
        }
        if misses_recorded(opts, buckets) {
            let k = choose|k: u64| #[trigger]
                opts.allow_iters@.contains_key(k) && opts.in_window(k) && !came_up(
                    opts,
                    buckets,
                    n,
                    k,
                );
            assert(!state.reproduced.contains(k));
            assert(has_vanished(opts, state.reproduced, k));
            assert(vanished.contains(k));
        }
    }
}

/// The summary and the verdict report the same counts.
pub proof fn the_summary_agrees_with_the_tally(ledger: SweepLedger)
    requires
        ledger.wf(),
    ensures
        ({
            let rows = ledger.rows.entries@;
            let tally = ledger.tally;
            &&& agreement_line(rows) == "agreements: "@ + text::decimal(
                tally.agree_accept + tally.agree_reject,
            ) + " (accept "@ + text::decimal(tally.agree_accept as int) + ", reject "@
                + text::decimal(tally.agree_reject as int) + ")"@
            &&& total_where(rows, starting_with("known-delta("@)) == tally.known_delta
            &&& total_where(rows, exactly("unexplained-safe"@)) == tally.unexplained_safe
            &&& total_where(rows, starting_with("DANGEROUS"@)) == tally.dangerous
            &&& total_where(rows, exactly("known-dangerous"@)) == tally.dangerous_known
            &&& total_where(rows, exactly("standing-mismatch"@)) == tally.standing_mismatch
            &&& total_where(rows, exactly("dcap-panic"@)) == tally.dcap_panic
        }),
{
}

/// The command that runs one iteration of a sweep again.
pub fn repro_command(seed: u64, i: u64) -> (command: String)
    ensures
        command@ == "dcap-differ sweep --seed 0x"@ + text::hexadecimal(seed as int, true)
            + " --iters 1 --only-iter "@ + text::decimal(i as int),
{
    "dcap-differ sweep --seed 0x".to_owned().concat(hex_u64(seed, true).as_str()).concat(
        " --iters 1 --only-iter ",
    ).concat(decimal_u64(i).as_str())
}

/// The name of the file that a sweep's findings are written to.
pub fn findings_file(seed: u64) -> (name: String)
    ensures
        name@ == "sweep-"@ + text::hexadecimal(seed as int, false) + ".jsonl"@,
{
    "sweep-".to_owned().concat(hex_u64(seed, false).as_str()).concat(".jsonl")
}

/// The line that reports a finding.
pub fn finding_line(
    i: u64,
    base: &str,
    strategy: u64,
    label: &str,
    record: &ComparisonRecord,
) -> (line: String)
    ensures
        line@ == "FINDING iter="@ + text::decimal(i as int) + " base="@ + base@ + " strategy="@
            + text::decimal(strategy as int) + " bucket="@ + label@ + " dcap="@
            + record.dcap@.name() + " qvl="@ + record.qvl@.name(),
{
    "FINDING iter=".to_owned().concat(decimal_u64(i).as_str()).concat(" base=").concat(
        base,
    ).concat(" strategy=").concat(decimal_u64(strategy).as_str()).concat(" bucket=").concat(
        label,
    ).concat(" dcap=").concat(record.dcap.label().as_str()).concat(" qvl=").concat(
        record.qvl.label().as_str(),
    )
}

/// How a recorded finding that no longer comes up is reported.
pub open spec fn vanished_text(subject: Seq<char>, finding: Seq<char>) -> Seq<char> {
    "VANISHED "@ + subject + " ("@ + finding
        + ") — allowlisted as dangerous but no longer reproduces; update FINDINGS.md and the allowlist together"@
}

/// The line that reports a recorded finding that no longer comes up.
pub fn vanished_line(subject: &str, finding: &str) -> (line: String)
    ensures
        line@ == vanished_text(subject@, finding@),
{
    "VANISHED ".to_owned().concat(subject).concat(" (").concat(finding).concat(
        ") — allowlisted as dangerous but no longer reproduces; update FINDINGS.md and the allowlist together",
    )
}

/// How a vanished iteration is named in a report.
pub fn iteration_subject(k: u64) -> (subject: String)
    ensures
        subject@ == "iter="@ + text::decimal(k as int),
{
    "iter=".to_owned().concat(decimal_u64(k).as_str())
}

/// A dangerous record is named known when it is recorded, and every other record after its bucket.
pub proof fn only_recorded_danger_is_known(bucket: BucketView, recorded: bool)
    ensures
        bucket is Dangerous && recorded ==> record_name(bucket, recorded) == "known-dangerous"@,
        bucket !is Dangerous || !recorded ==> record_name(bucket, recorded) == bucket.name(),
{
}

/// Counting a record raises its own cell by one and no other; a label that has not come up starts
/// from nine zeros.
pub proof fn one_cell_is_raised(
    row: Seq<u64>,
    counts: Map<Seq<char>, Seq<u64>>,
    label: Seq<char>,
    strategy: int,
    other: int,
)
    requires
        0 <= strategy < row.len(),
        row[strategy] < u64::MAX,
        0 <= other < row.len(),
        other != strategy,
    ensures
        bumped(row, strategy).len() == row.len(),
        bumped(row, strategy)[strategy] == row[strategy] + 1,
        bumped(row, strategy)[other] == row[other],
        counts.contains_key(label) ==> row_of(counts, label) == counts[label],
        !counts.contains_key(label) ==> row_of(counts, label).len() == 9 && forall|i: int|
            0 <= i < 9 ==> #[trigger] row_of(counts, label)[i] == 0,
{
}

/// A recorded iteration has vanished when the run went through it and it did not come up; one that
/// the run left out has not.
pub proof fn iterations_vanish_inside_the_run(opts: SweepOpts, reproduced: Set<u64>, k: u64)
    ensures
        opts.only_iter is None ==> (has_vanished(opts, reproduced, k) <==> k < opts.iters
            && opts.allow_iters@.contains_key(k) && !reproduced.contains(k)),
        opts.only_iter matches Some(only) ==> (has_vanished(opts, reproduced, k) <==> k == only
            && opts.allow_iters@.contains_key(k) && !reproduced.contains(k)),
{
}

/// Sums and totals of rows that follow each other add up.
pub proof fn totals_add_up(
    numbers: Seq<u64>,
    more: Seq<u64>,
    rows: Seq<(String, [u64; 9])>,
    others: Seq<(String, [u64; 9])>,
    picked: spec_fn(Seq<char>) -> bool,
)
    ensures
        sum(numbers + more) == sum(numbers) + sum(more),
        total_where(rows + others, picked) == total_where(rows, picked) + total_where(
            others,
            picked,
        ),
    decreases more.len(), others.len(),
{
    if more.len() > 0 {
        assert((numbers + more).drop_last() =~= numbers + more.drop_last());
        totals_add_up(numbers, more.drop_last(), rows, others, picked);
    } else if others.len() > 0 {
        assert(numbers + more =~= numbers);
        assert((rows + others).drop_last() =~= rows + others.drop_last());
        totals_add_up(numbers, more, rows, others.drop_last(), picked);
    } else {
        assert(numbers + more =~= numbers);
        assert(rows + others =~= rows);
    }
}

/// A single row counts with all its cells when its label is picked, and not at all otherwise.
pub proof fn a_row_counts_when_its_label_is_picked(
    row: (String, [u64; 9]),
    label: Seq<char>,
    n: u64,
)
    ensures
        sum(seq![n]) == n,
        total(seq![row]) == sum(row.1@),
        total_where(seq![row], exactly(label)) == if row.0@ == label {
            sum(row.1@)
        } else {
            0
        },
        total_where(seq![row], starting_with(label)) == if label.len() <= row.0@.len()
            && row.0@.subrange(0, label.len() as int) == label {
            sum(row.1@)
        } else {
            0
        },
{
    reveal_with_fuel(sum, 2);
    reveal_with_fuel(total_where, 2);
    let one = seq![row];
    assert(one.drop_last() =~= seq![]);
    assert(seq![n].drop_last() =~= seq![]);
}

proof fn lemma_no_such_label(rows: Seq<(String, [u64; 9])>, label: Seq<char>)
    requires
        forall|j: int| 0 <= j < rows.len() ==> (#[trigger] rows[j]).0@ != label,
    ensures
        total_where(rows, exactly(label)) == 0,
    decreases rows.len(),
{
    if rows.len() > 0 {
        let rest = rows.drop_last();
        assert(forall|j: int| 0 <= j < rest.len() ==> #[trigger] rest[j] == rows[j]);
        lemma_no_such_label(rest, label);
    }
}

/// Where no label stands twice, the total of a label is the sum of its row.
pub proof fn the_total_of_a_label_is_its_rows(rows: Seq<(String, [u64; 9])>, i: int)
    requires
        0 <= i < rows.len(),
        forall|j: int|
            0 <= j < rows.len() && j != i ==> (#[trigger] rows[j]).0@ != rows[i].0@,
    ensures
        total_where(rows, exactly(rows[i].0@)) == sum(rows[i].1@),
    decreases rows.len(),
{
    let rest = rows.drop_last();
    assert(forall|j: int| 0 <= j < rest.len() ==> #[trigger] rest[j] == rows[j]);
    if i == rows.len() - 1 {
        lemma_no_such_label(rest, rows[i].0@);
    } else {
        the_total_of_a_label_is_its_rows(rest, i);
        assert(rows[rows.len() - 1].0@ != rows[i].0@);
    }
}

/// A column is two wider than the longest label, and fourteen wide where there are no labels.
pub proof fn columns_are_wide_enough(rows: Seq<(String, [u64; 9])>, i: int) -> (widest: int)
    requires
        0 <= i < rows.len(),
    ensures
        column_width(seq![]) == 14,
        vstd::utf8::encode_utf8(rows[i].0@).len() + 2 <= column_width(rows),
        0 <= widest < rows.len(),
        vstd::utf8::encode_utf8(rows[widest].0@).len() == longest(rows) || longest(rows) == 0,
    decreases rows.len(),
{
    let rest = rows.drop_last();
    if rest.len() == 0 {
        reveal_with_fuel(longest, 2);
        0
    } else {
        let before = columns_are_wide_enough(
            rest,
            if i < rest.len() {
                i
            } else {
                0
            },
        );
        if vstd::utf8::encode_utf8(rows.last().0@).len() > longest(rest) {
            rows.len() - 1
        } else {
            before
        }
    }
}

/// The kind of a known delta is what stands between the brackets of its label.
pub proof fn delta_labels_name_their_kind(kind: Seq<char>)
    ensures
        delta_kind("known-delta("@ + kind + ")"@) == Some(kind),
        delta_kind("known-dangerous"@) is None,
        delta_kind("unexplained-safe"@) is None,
{
    reveal_strlit("known-delta(");
    reveal_strlit(")");
    reveal_strlit("known-dangerous");
    reveal_strlit("unexplained-safe");
    let label = "known-delta("@ + kind + ")"@;
    assert("known-delta("@ =~= label.subrange(0, 12));
    assert(label.subrange(12, label.len() - 1) =~= kind);
    assert("known-dangerous"@.last() == 's');
    assert("unexplained-safe"@.last() == 'e');
}

/// Texts are set in columns of one width, one after the other.
pub proof fn columns_follow_each_other(texts: Seq<Seq<char>>, more: Seq<char>, width: int)
    ensures
        cells(seq![], width) == Seq::<char>::empty(),
        cells(texts.push(more), width) == cells(texts, width) + text::padded_left(more, width),
{
    assert(texts.push(more).drop_last() =~= texts);
}

/// The report has a heading, a line for each of nine strategies with the count of each label under
/// that strategy, and a line of totals.
pub proof fn the_table_has_a_line_for_each_strategy(
    rows: Seq<(String, [u64; 9])>,
    records: int,
    s: int,
    i: int,
)
    requires
        0 <= s < 9,
        0 <= i < rows.len(),
    ensures
        ({
            let lines = summary_lines(rows, records);
            let width = longest(rows) + 2;
            &&& lines.len() == 19 + delta_lines(rows, rows.len()).len()
            &&& lines[1] == "=== sweep summary ("@ + text::decimal(records) + " iterations) ==="@
            &&& lines[2] == text::padded_right("strategy"@, 10) + cells(labels(rows), width)
            &&& lines[3 + s] == text::padded_right(text::decimal(s), 10) + cells(
                strategy_counts(rows, s),
                width,
            )
            &&& lines[12] == text::padded_right("total"@, 10) + cells(label_totals(rows), width)
            &&& lines.last() == "DANGEROUS: "@ + text::decimal(
                total_where(rows, starting_with("DANGEROUS"@)),
            )
        }),
        labels(rows).len() == rows.len() && labels(rows)[i] == rows[i].0@,
        strategy_counts(rows, s).len() == rows.len() && strategy_counts(rows, s)[i]
            == text::decimal(rows[i].1@[s] as int),
        label_totals(rows).len() == rows.len() && label_totals(rows)[i] == text::decimal(
            sum(rows[i].1@),
        ),
{
}

} // verus!
