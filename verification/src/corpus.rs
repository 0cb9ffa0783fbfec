//! Runs over a corpus of recorded cases, and the list of findings that are known.

use std::collections::BTreeMap;

use vstd::prelude::*;
use vstd::string::StringExecFns;

use crate::crypto;
use crate::ledger::{self, vanished_line};
use crate::ordered::{self, TextMap};
use crate::pipeline::{
    Bucket, BucketView, ComparisonRecord, Tally, EXIT_CLEAN, EXIT_FAIL, EXIT_REVIEW,
};
use crate::text::{self, pad_right};

verus! {

/// Why a text is no hexadecimal number of 64 bits.
#[derive(Debug, Clone, Copy, PartialEq, Eq, Structural)]
pub enum HexFault {
    Empty,
    InvalidDigit,
    TooLarge,
}

impl HexFault {
    /// The fault in words.
    pub fn text(&self) -> (message: &'static str)
        ensures
            message@ == match *self {
                HexFault::Empty => "cannot parse integer from empty string"@,
                HexFault::InvalidDigit => "invalid digit found in string"@,
                HexFault::TooLarge => "number too large to fit in target type"@,
            },
    {
        match self {
            HexFault::Empty => "cannot parse integer from empty string",
            HexFault::InvalidDigit => "invalid digit found in string",
            HexFault::TooLarge => "number too large to fit in target type",
        }
    }
}

/// The number that digits stand for, read from the left up to the first fault.
pub open spec fn digits_value(digits: Seq<char>) -> Result<int, HexFault>
    decreases digits.len(),
{
    if digits.len() == 0 {
        Ok(0)
    } else {
        match digits_value(digits.drop_last()) {
            Err(fault) => Err(fault),
            Ok(before) => match crypto::nibble(digits.last()) {
                None => Err(HexFault::InvalidDigit),
                Some(d) => if before * 16 + d > u64::MAX {
                    Err(HexFault::TooLarge)
                } else {
                    Ok(before * 16 + d)
                },
            },
        }
    }
}

/// Where the digits of a number begin: behind a leading `0x` or `0X`.
pub open spec fn without_marker(text: Seq<char>) -> Seq<char> {
    if text.len() >= 2 && text[0] == '0' && (text[1] == 'x' || text[1] == 'X') {
        text.skip(2)
    } else {
        text
    }
}

/// The number that a text stands for in hexadecimal: an optional `0x` or `0X`, an optional plus
/// sign, and digits.
pub open spec fn hex_value(text: Seq<char>) -> Result<int, HexFault> {
    let rest = without_marker(text);
    if rest.len() == 0 {
        Err(HexFault::Empty)
    } else if rest[0] == '+' && rest.len() > 1 {
        digits_value(rest.skip(1))
    } else {
        digits_value(rest)
    }
}

fn value_of_digit(c: char) -> (value: Option<u64>)
    ensures
        match value {
            Some(d) => crypto::nibble(c) == Some(d as int) && d < 16,
            None => crypto::nibble(c) is None,
        },
{
    if '0' <= c && c <= '9' {
        Some(c as u64 - '0' as u64)
    } else if 'a' <= c && c <= 'f' {
        Some(c as u64 - 'a' as u64 + 10)
    } else if 'A' <= c && c <= 'F' {
        Some(c as u64 - 'A' as u64 + 10)
    } else {
        None
    }
}

proof fn lemma_fault_stays(digits: Seq<char>, n: int)
    requires
        0 <= n <= digits.len(),
        digits_value(digits.take(n)) is Err,
    ensures
        digits_value(digits) == digits_value(digits.take(n)),
    decreases digits.len(),
{
    if n < digits.len() {
        assert(digits.drop_last().take(n) =~= digits.take(n));
        lemma_fault_stays(digits.drop_last(), n);
    } else {
        assert(digits.take(n) =~= digits);
    }
}

/// Reads a hexadecimal number.
pub fn parse_hex_u64(s: &str) -> (parsed: Result<u64, HexFault>)
    ensures
        match parsed {
            Ok(n) => hex_value(s@) == Ok::<int, HexFault>(n as int),
            Err(fault) => hex_value(s@) == Err::<int, HexFault>(fault),
        },
{
    let chars = text::characters(s);
    let mut start: usize = 0;
    if chars.len() >= 2 && chars[0] == '0' && (chars[1] == 'x' || chars[1] == 'X') {
        start = 2;
    }
    let ghost rest = without_marker(s@);
    assert(rest =~= s@.skip(start as int));
    if start == chars.len() {
        return Err(HexFault::Empty);
    }
    if chars[start] == '+' && chars.len() - start > 1 {
        assert(rest.skip(1) =~= s@.skip(start + 1));
        start += 1;
    }
    let ghost digits = s@.skip(start as int);
    assert(hex_value(s@) == digits_value(digits));
    let mut value: u64 = 0;
    let mut i: usize = start;
    assert(digits.take(0) =~= seq![]);
    while i < chars.len()
        invariant
            start <= i <= chars@.len(),
            chars@ == s@,
            digits == s@.skip(start as int),
            hex_value(s@) == digits_value(digits),
            digits_value(digits.take(i - start)) == Ok::<int, HexFault>(value as int),
        decreases chars.len() - i,
    {
        proof {
            assert(digits.take(i + 1 - start).drop_last() =~= digits.take(i - start));
            assert(digits.take(i + 1 - start).last() == chars@[i as int]);
        }
        match value_of_digit(chars[i]) {
            None => {
                proof {
                    lemma_fault_stays(digits, i + 1 - start);
                }
                return Err(HexFault::InvalidDigit);
            },
            Some(d) => {
                if value > 0x0fff_ffff_ffff_ffff {
                    proof {
                        lemma_fault_stays(digits, i + 1 - start);
                    }
                    return Err(HexFault::TooLarge);
                }
                value = value * 16 + d;
            },
        }
        i += 1;
    }
    assert(digits.take(i - start) =~= digits);
    Ok(value)
}

proof fn lemma_written_digits(n: int, upper: bool)
    requires
        0 <= n <= u64::MAX,
    ensures
        digits_value(text::hexadecimal(n, upper)) == Ok::<int, HexFault>(n),
        text::hexadecimal(n, upper).len() > 0,
        crypto::nibble(text::hexadecimal(n, upper)[0]) is Some,
    decreases n,
{
    let digits = text::hexadecimal(n, upper);
    reveal_with_fuel(digits_value, 2);
    if n < 16 {
        assert(digits.drop_last() =~= seq![]);
    } else {
        lemma_written_digits(n / 16, upper);
        assert(digits.drop_last() =~= text::hexadecimal(n / 16, upper));
    }
}

/// A number written in hexadecimal behind a marker reads back as the same number, so that the seed
/// in a command that runs an iteration again is the seed of the sweep.
pub proof fn written_numbers_read_back(n: u64, upper: bool)
    ensures
        hex_value("0x"@ + text::hexadecimal(n as int, upper)) == Ok::<int, HexFault>(n as int),
{
    reveal_strlit("0x");
    lemma_written_digits(n as int, upper);
    let whole = "0x"@ + text::hexadecimal(n as int, upper);
    assert(whole.skip(2) =~= text::hexadecimal(n as int, upper));
}

/// A sweep's iteration that is recorded as dangerous.
pub struct AllowSweep {
    pub finding: String,
    pub seed: String,
    pub iter: u64,
}

/// A case of the corpus that is recorded as dangerous.
pub struct AllowCase {
    pub finding: String,
    pub case: String,
}

/// A seed in the list of known findings that is no number.
pub struct BadSeed {
    pub seed: String,
    pub fault: HexFault,
}

/// The findings of a map, by their keys.
pub open spec fn findings(map: Map<u64, String>) -> Map<u64, Seq<char>> {
    map.map_values(|finding: String| finding@)
}

/// The iterations of a seed among the first `n` entries, with their findings. A later entry of the
/// same iteration replaces an earlier one, and the first seed that is no number is a fault.
pub open spec fn iterations_of(entries: Seq<AllowSweep>, seed: u64, n: nat) -> Result<
    Map<u64, Seq<char>>,
    (Seq<char>, HexFault),
>
    decreases n,
{
    if n == 0 {
        Ok(Map::empty())
    } else {
        match iterations_of(entries, seed, (n - 1) as nat) {
            Err(bad) => Err(bad),
            Ok(before) => {
                let entry = entries[n - 1];
                match hex_value(entry.seed@) {
                    Err(fault) => Err((entry.seed@, fault)),
                    Ok(number) => if number == seed {
                        Ok(before.insert(entry.iter, entry.finding@))
                    } else {
                        Ok(before)
                    },
                }
            },
        }
    }
}

proof fn lemma_bad_seed_stays(entries: Seq<AllowSweep>, seed: u64, n: nat, m: nat)
    requires
        n <= m,
        iterations_of(entries, seed, n) is Err,
    ensures
        iterations_of(entries, seed, m) == iterations_of(entries, seed, n),
    decreases m,
{
    if n < m {
        lemma_bad_seed_stays(entries, seed, n, (m - 1) as nat);
    }
}

/// The iterations of a seed that are recorded as dangerous, with their findings.
pub fn recorded_iterations(entries: &Vec<AllowSweep>, seed: u64) -> (recorded: Result<
    BTreeMap<u64, String>,
    BadSeed,
>)
    ensures
        match recorded {
            Ok(map) => iterations_of(entries@, seed, entries@.len()) == Ok::<
                Map<u64, Seq<char>>,
                (Seq<char>, HexFault),
            >(findings(map@)),
            Err(bad) => iterations_of(entries@, seed, entries@.len()) == Err::<
                Map<u64, Seq<char>>,
                (Seq<char>, HexFault),
            >((bad.seed@, bad.fault)),
        },
{
    proof {
        ordered::numbers_are_ordered();
    }
    let mut map: BTreeMap<u64, String> = BTreeMap::new();
    let mut i: usize = 0;
    assert(findings(map@) =~= Map::empty());
    while i < entries.len()
        invariant
            i <= entries@.len(),
            iterations_of(entries@, seed, i as nat) == Ok::<Map<u64, Seq<char>>, (Seq<char>, HexFault)>(
                findings(map@),
            ),
        decreases entries.len() - i,
    {
        let entry = &entries[i];
        match parse_hex_u64(entry.seed.as_str()) {
            Err(fault) => {
                proof {
                    lemma_bad_seed_stays(entries@, seed, (i + 1) as nat, entries@.len());
                }
                return Err(BadSeed { seed: entry.seed.as_str().to_owned(), fault });
            },
            Ok(number) => {
                if number == seed {
                    proof {
                        ordered::numbers_are_ordered();
                    }
                    let ghost before = map@;
                    let finding = entry.finding.as_str().to_owned();
                    map.insert(entry.iter, finding);
                    assert(findings(map@) =~= findings(before).insert(entry.iter, finding@));
                }
            },
        }
        i += 1;
    }
    Ok(map)
}

/// The cases among the first `n` entries, with their findings; a later entry of the same case
/// replaces an earlier one.
pub open spec fn cases_of(entries: Seq<AllowCase>, n: nat) -> Map<Seq<char>, Seq<char>>
    decreases n,
{
    if n == 0 {
        Map::empty()
    } else {
        cases_of(entries, (n - 1) as nat).insert(entries[n - 1].case@, entries[n - 1].finding@)
    }
}

/// The findings of a map from names.
pub open spec fn named_findings(map: Map<Seq<char>, String>) -> Map<Seq<char>, Seq<char>> {
    map.map_values(|finding: String| finding@)
}

/// The cases that are recorded as dangerous, with their findings.
pub fn recorded_cases(entries: &Vec<AllowCase>) -> (recorded: TextMap<String>)
    ensures
        recorded.wf(),
        named_findings(recorded@) == cases_of(entries@, entries@.len()),
{
    let mut recorded: TextMap<String> = TextMap::new();
    let mut i: usize = 0;
    assert(named_findings(recorded@) =~= Map::empty());
    while i < entries.len()
        invariant
            i <= entries@.len(),
            recorded.wf(),
            named_findings(recorded@) == cases_of(entries@, i as nat),
        decreases entries.len() - i,
    {
        let ghost before = recorded@;
        let case = entries[i].case.as_str().to_owned();
        let finding = entries[i].finding.as_str().to_owned();
        recorded.insert(case, finding);
        assert(named_findings(recorded@) =~= named_findings(before).insert(case@, finding@));
        i += 1;
    }
    recorded
}

/// What a run over a corpus counted.
pub struct CorpusLedger {
    pub tally: Tally,
    /// The recorded cases that came up as dangerous.
    pub reproduced: TextMap<()>,
}

/// The label of a case: that of its bucket, but for a dangerous one that is recorded as such.
pub open spec fn case_label(
    bucket: BucketView,
    recorded: Map<Seq<char>, Seq<char>>,
    name: Seq<char>,
) -> Seq<char> {
    if Tally::is_known(bucket, recorded.contains_key(name)) {
        "known-dangerous("@ + recorded[name] + ")"@
    } else {
        bucket.name()
    }
}

/// Whether a name is among others.
pub open spec fn is_among(name: Seq<char>, names: Seq<String>) -> bool {
    exists|i: int| 0 <= i < names.len() && (#[trigger] names[i])@ == name
}

/// The reports on the recorded cases among the first `n` that have vanished: they are present and
/// did not come up as dangerous.
pub open spec fn vanished_cases(
    recorded: Seq<(String, String)>,
    n: nat,
    present: Seq<String>,
    reproduced: Map<Seq<char>, ()>,
) -> Seq<Seq<char>>
    decreases n,
{
    if n == 0 {
        seq![]
    } else {
        let before = vanished_cases(recorded, (n - 1) as nat, present, reproduced);
        let (name, finding) = recorded[n - 1];
        if is_among(name@, present) && !reproduced.contains_key(name@) {
            before.push(ledger::vanished_text(name@, finding@))
        } else {
            before
        }
    }
}

fn among(name: &str, names: &Vec<String>) -> (found: bool)
    ensures
        found == is_among(name@, names@),
{
    let mut i: usize = 0;
    while i < names.len()
        invariant
            i <= names@.len(),
            forall|j: int| 0 <= j < i ==> (#[trigger] names@[j])@ != name@,
        decreases names.len() - i,
    {
        if text::same_text(names[i].as_str(), name) {
            return true;
        }
        i += 1;
    }
    false
}

impl CorpusLedger {
    pub fn new() -> (ledger: Self)
        ensures
            ledger.tally == Tally::zero(),
            ledger.reproduced.wf(),
            ledger.reproduced@ == Map::<Seq<char>, ()>::empty(),
    {
        CorpusLedger { tally: Tally::default(), reproduced: TextMap::new() }
    }

    /// Counts the record of one case, whose label is returned. A dangerous record of a case that is
    /// recorded as dangerous counts as known, and the case as reproduced.
    pub fn record(&mut self, name: &str, bucket: &Bucket, recorded: &TextMap<String>) -> (label:
        String)
        requires
            old(self).reproduced.wf(),
            recorded.wf(),
            old(self).tally.count(bucket@) < u64::MAX,
            old(self).tally.dangerous_known < u64::MAX,
        ensures
            label@ == case_label(bucket@, named_findings(recorded@), name@),
            final(self).reproduced.wf(),
            final(self).tally == old(self).tally.settled(bucket@, recorded@.contains_key(name@)),
            final(self).reproduced@ == if Tally::is_known(
                bucket@,
                recorded@.contains_key(name@),
            ) {
                old(self).reproduced@.insert(name@, ())
            } else {
                old(self).reproduced@
            },
    {
        match recorded.get(name) {
            Some(finding) => {
                if self.tally.settle(bucket, true) {
                    self.reproduced.insert(name.to_owned(), ());
                    "known-dangerous(".to_owned().concat(finding.as_str()).concat(")")
                } else {
                    bucket.label()
                }
            },
            None => {
                self.tally.settle(bucket, false);
                bucket.label()
            },
        }
    }

    /// Ends a run: the reports on the recorded cases that are present and did not come up as
    /// dangerous, in the order of their names. Each counts as vanished.
    pub fn close(&mut self, present: &Vec<String>, recorded: &TextMap<String>) -> (lines: Vec<
        String,
    >)
        requires
            old(self).reproduced.wf(),
            old(self).tally.vanished + recorded.entries@.len() <= u64::MAX,
        ensures
            text::texts(lines@) == vanished_cases(
                recorded.entries@,
                recorded.entries@.len(),
                present@,
                old(self).reproduced@,
            ),
            lines@.len() <= recorded.entries@.len(),
            *final(self) == (CorpusLedger {
                tally: Tally {
                    vanished: (old(self).tally.vanished + lines@.len()) as u64,
                    ..old(self).tally
                },
                ..*old(self)
            }),
    {
        let mut lines: Vec<String> = Vec::new();
        let mut i: usize = 0;
        assert(text::texts(lines@) =~= seq![]);
        while i < recorded.entries.len()
            invariant
                i <= recorded.entries@.len(),
                self.reproduced.wf(),
                *self == *old(self),
                lines@.len() <= i,
                text::texts(lines@) == vanished_cases(
                    recorded.entries@,
                    i as nat,
                    present@,
                    self.reproduced@,
                ),
            decreases recorded.entries.len() - i,
        {
            let name: &str = recorded.entries[i].0.as_str();
            if among(name, present) && self.reproduced.get(name).is_none() {
                let line = vanished_line(name, recorded.entries[i].1.as_str());
                let ghost before = lines@;
                lines.push(line);
                assert(text::texts(lines@) =~= text::texts(before).push(line@));
            }
            i += 1;
        }
        self.tally.vanished = self.tally.vanished + lines.len() as u64;
        lines
    }
}

/// What a run over a corpus has counted so far, by the tally and the recorded cases that came up.
pub ghost struct CorpusState {
    pub tally: Tally,
    pub reproduced: Map<Seq<char>, ()>,
}

/// What a run has counted after the first `n` of its cases, whose records fell into `buckets`: each
/// is counted as [`CorpusLedger::record`] counts it.
pub open spec fn examined(
    recorded: Map<Seq<char>, String>,
    present: Seq<String>,
    buckets: Seq<BucketView>,
    n: nat,
) -> CorpusState
    decreases n,
{
    if n == 0 {
        CorpusState { tally: Tally::zero(), reproduced: Map::empty() }
    } else {
        let before = examined(recorded, present, buckets, (n - 1) as nat);
        let name = present[n - 1]@;
        CorpusState {
            tally: before.tally.settled(buckets[n - 1], recorded.contains_key(name)),
            reproduced: if Tally::is_known(buckets[n - 1], recorded.contains_key(name)) {
                before.reproduced.insert(name, ())
            } else {
                before.reproduced
            },
        }
    }
}

/// Whether one of the first `n` cases is dangerous and not recorded as such.
pub open spec fn shows_unrecorded(
    recorded: Map<Seq<char>, String>,
    present: Seq<String>,
    buckets: Seq<BucketView>,
    n: nat,
) -> bool {
    exists|i: int|
        0 <= i < n && #[trigger] buckets[i] is Dangerous && !recorded.contains_key(present[i]@)
}

/// Whether a name is that of one of the first `n` cases, and the case came up as dangerous.
pub open spec fn came_up(
    present: Seq<String>,
    buckets: Seq<BucketView>,
    n: nat,
    name: Seq<char>,
) -> bool {
    exists|i: int| 0 <= i < n && #[trigger] buckets[i] is Dangerous && present[i]@ == name
}

/// Whether a recorded case is present and did not come up as dangerous.
pub open spec fn misses_recorded(
    recorded: Map<Seq<char>, String>,
    present: Seq<String>,
    buckets: Seq<BucketView>,
) -> bool {
    exists|name: Seq<char>| #[trigger]
        recorded.contains_key(name) && is_among(name, present) && !came_up(
            present,
            buckets,
            buckets.len(),
            name,
        )
}

proof fn lemma_examined(
    recorded: Map<Seq<char>, String>,
    present: Seq<String>,
    buckets: Seq<BucketView>,
    n: nat,
)
    requires
        n <= buckets.len() == present.len() <= u64::MAX,
    ensures
        ({
            let state = examined(recorded, present, buckets, n);
            &&& state.tally.recorded() == n
            &&& state.tally.vanished == 0
            &&& state.tally.dcap_panic > 0 || state.tally.standing_mismatch > 0
                <==> ledger::shows_defect(buckets, n)
            &&& state.tally.dangerous > 0 <==> shows_unrecorded(recorded, present, buckets, n)
            &&& forall|name: Seq<char>| #[trigger]
                state.reproduced.contains_key(name) <==> recorded.contains_key(name) && came_up(
                    present,
                    buckets,
                    n,
                    name,
                )
        }),
    decreases n,
{
    if n > 0 {
        let m = (n - 1) as nat;
        let last = n - 1;
        lemma_examined(recorded, present, buckets, m);
        let before = examined(recorded, present, buckets, m);
        let state = examined(recorded, present, buckets, n);
        let bucket = buckets[last];
        assert(ledger::shows_defect(buckets, n) <==> ledger::shows_defect(buckets, m)
            || bucket is DcapPanic || bucket is StandingMismatch) by {
            if ledger::shows_defect(buckets, m) {
                let i = choose|i: int|
                    0 <= i < m && (#[trigger] buckets[i] is DcapPanic
                        || buckets[i] is StandingMismatch);
                assert(0 <= i < n && (buckets[i] is DcapPanic || buckets[i] is StandingMismatch));
            }
        }
        assert(shows_unrecorded(recorded, present, buckets, n) <==> shows_unrecorded(
            recorded,
            present,
            buckets,
            m,
        ) || (bucket is Dangerous && !recorded.contains_key(present[last]@))) by {
            if shows_unrecorded(recorded, present, buckets, m) {
                let i = choose|i: int|
                    0 <= i < m && #[trigger] buckets[i] is Dangerous && !recorded.contains_key(
                        present[i]@,
                    );
                assert(0 <= i < n && buckets[i] is Dangerous);
            }
        }
        assert forall|name: Seq<char>| #[trigger]
            state.reproduced.contains_key(name) <==> recorded.contains_key(name) && came_up(
                present,
                buckets,
                n,
                name,
            ) by {
            assert(came_up(present, buckets, n, name) <==> came_up(present, buckets, m, name) || (
            bucket is Dangerous && present[last]@ == name)) by {
                if came_up(present, buckets, m, name) {
                    let i = choose|i: int|
                        0 <= i < m && #[trigger] buckets[i] is Dangerous && present[i]@ == name;
                    assert(0 <= i < n && buckets[i] is Dangerous);
                }
            }
            assert(before.reproduced.contains_key(name) <==> recorded.contains_key(name)
                && came_up(present, buckets, m, name));
        }
    }
}

proof fn lemma_vanished_cases(
    recorded: Seq<(String, String)>,
    n: nat,
    present: Seq<String>,
    reproduced: Map<Seq<char>, ()>,
)
    requires
        n <= recorded.len(),
    ensures
        vanished_cases(recorded, n, present, reproduced).len() <= n,
        vanished_cases(recorded, n, present, reproduced).len() > 0 <==> exists|i: int|
            0 <= i < n && is_among((#[trigger] recorded[i]).0@, present)
                && !reproduced.contains_key(recorded[i].0@),
    decreases n,
{
    if n > 0 {
        lemma_vanished_cases(recorded, (n - 1) as nat, present, reproduced);
        let last = recorded[n - 1];
        if is_among(last.0@, present) && !reproduced.contains_key(last.0@) {
            assert(vanished_cases(recorded, n, present, reproduced).len() > 0);
        }
    }
}

/// The exit code of a whole run over a corpus. Its cases fell into `buckets`, record by record, and
/// were closed with [`CorpusLedger::close`]. A panic or a standing that differs is a failure; else a
/// dangerous case that is not recorded, or a recorded one that is present and did not come up, calls
/// for review; else the run is clean.
pub proof fn a_run_exits_by_what_it_found(
    recorded: TextMap<String>,
    present: Seq<String>,
    buckets: Seq<BucketView>,
)
    requires
        buckets.len() == present.len() <= u64::MAX,
        recorded.entries@.len() <= u64::MAX,
    ensures
        ({
            let state = examined(recorded@, present, buckets, buckets.len());
            let vanished = vanished_cases(
                recorded.entries@,
                recorded.entries@.len(),
                present,
                state.reproduced,
            );
            (Tally { vanished: vanished.len() as u64, ..state.tally }).code() == (
            if ledger::shows_defect(buckets, buckets.len()) {
                EXIT_FAIL
            } else if shows_unrecorded(recorded@, present, buckets, buckets.len())
                || misses_recorded(recorded@, present, buckets) {
                EXIT_REVIEW
            } else {
                EXIT_CLEAN
            })
        }),
{
    let n = buckets.len();
    let entries = recorded.entries@;
    let state = examined(recorded@, present, buckets, n);
    lemma_examined(recorded@, present, buckets, n);
    lemma_vanished_cases(entries, entries.len(), present, state.reproduced);
    let vanished = vanished_cases(entries, entries.len(), present, state.reproduced);
    assert(vanished.len() > 0 <==> misses_recorded(recorded@, present, buckets)) by {
        if vanished.len() > 0 {
            let i = choose|i: int|
                0 <= i < entries.len() && is_among((#[trigger] entries[i]).0@, present)
                    && !state.reproduced.contains_key(entries[i].0@);
            let name = entries[i].0@;
            assert(recorded@.contains_key(name));
            assert(!state.reproduced.contains_key(name));
        }
        if misses_recorded(recorded@, present, buckets) {
            let name = choose|name: Seq<char>| #[trigger]
                recorded@.contains_key(name) && is_among(name, present) && !came_up(
                    present,
                    buckets,
                    n,
                    name,
                );
            assert(ordered::has_key(entries, name));
            assert(!state.reproduced.contains_key(name));
            let i = choose|i: int| 0 <= i < entries.len() && (#[trigger] entries[i]).0@ == name;
            assert(is_among(entries[i].0@, present));
        }
    }
}

/// A line of the report on a corpus: five columns, the last of them as long as it is.
pub open spec fn case_row(
    name: Seq<char>,
    dcap: Seq<char>,
    qvl: Seq<char>,
    bucket: Seq<char>,
    expected: Seq<char>,
) -> Seq<char> {
    text::padded_right(name, 28) + " "@ + text::padded_right(dcap, 50) + " "@
        + text::padded_right(qvl, 28) + " "@ + text::padded_right(bucket, 50) + " "@ + expected
}

fn row(name: &str, dcap: &str, qvl: &str, bucket: &str, expected: &str) -> (line: String)
    ensures
        line@ == case_row(name@, dcap@, qvl@, bucket@, expected@),
{
    pad_right(name, 28).concat(" ").concat(pad_right(dcap, 50).as_str()).concat(" ").concat(
        pad_right(qvl, 28).as_str(),
    ).concat(" ").concat(pad_right(bucket, 50).as_str()).concat(" ").concat(expected)
}

/// The heading of the report on a corpus.
pub fn case_heading() -> (line: String)
    ensures
        line@ == case_row("case"@, "dcap"@, "qvl"@, "bucket"@, "meta-expected"@),
{
    row("case", "dcap", "qvl", "bucket", "meta-expected")
}

/// The line of the report on one case.
pub fn case_line(name: &str, record: &ComparisonRecord, label: &str, expected: &str) -> (line:
    String)
    ensures
        line@ == case_row(
            name@,
            record.dcap@.name(),
            record.qvl@.name(),
            label@,
            expected@,
        ),
{
    row(name, record.dcap.label().as_str(), record.qvl.label().as_str(), label, expected)
}

/// What a case is expected to come to: its verdict, with the category of the rejection or else the
/// standing behind it, where the case gives one.
pub open spec fn expectation(
    verdict: Seq<char>,
    category: Option<Seq<char>>,
    standing: Option<Seq<char>>,
) -> Seq<char> {
    match (category, standing) {
        (Some(category), _) => verdict + "("@ + category + ")"@,
        (None, Some(standing)) => verdict + "("@ + standing + ")"@,
        (None, None) => verdict,
    }
}

/// The view of an optional text.
pub open spec fn optional_text(given: Option<&str>) -> Option<Seq<char>> {
    match given {
        Some(text) => Some(text@),
        None => None,
    }
}

/// What a case is expected to come to.
pub fn expected_label(verdict: &str, category: Option<&str>, standing: Option<&str>) -> (label:
    String)
    ensures
        label@ == expectation(verdict@, optional_text(category), optional_text(standing)),
{
    match (category, standing) {
        (Some(category), _) => verdict.to_owned().concat("(").concat(category).concat(")"),
        (None, Some(standing)) => verdict.to_owned().concat("(").concat(standing).concat(")"),
        (None, None) => verdict.to_owned(),
    }
}

/// The number that digits stand for in base sixteen, each digit worth sixteen times the next.
pub open spec fn number_in_base_sixteen(digits: Seq<char>) -> int
    decreases digits.len(),
{
    if digits.len() == 0 {
        0
    } else {
        let c = digits.last();
        let digit = if c <= '9' {
            c as int - 0x30
        } else if c <= 'F' {
            c as int - 0x41 + 10
        } else {
            c as int - 0x61 + 10
        };
        number_in_base_sixteen(digits.drop_last()) * 16 + digit
    }
}

/// Digits of either case are read in base sixteen, a number above 64 bits is too large, and
/// anything else than digits is no number.
pub proof fn digits_are_read_in_base_sixteen(digits: Seq<char>)
    ensures
        ({
            let all_digits = forall|i: int|
                0 <= i < digits.len() ==> {
                    let c = #[trigger] digits[i];
                    '0' <= c <= '9' || 'a' <= c <= 'f' || 'A' <= c <= 'F'
                };
            let number = number_in_base_sixteen(digits);
            &&& all_digits ==> number >= 0
            &&& all_digits && number <= 0xffff_ffff_ffff_ffff ==> digits_value(digits) == Ok::<
                int,
                HexFault,
            >(number)
            &&& all_digits && number > 0xffff_ffff_ffff_ffff ==> digits_value(digits) == Err::<
                int,
                HexFault,
            >(HexFault::TooLarge)
            &&& !all_digits ==> digits_value(digits) is Err
        }),
    decreases digits.len(),
{
    if digits.len() > 0 {
        let rest = digits.drop_last();
        digits_are_read_in_base_sixteen(rest);
        assert(forall|i: int| 0 <= i < rest.len() ==> #[trigger] rest[i] == digits[i]);
        let c = digits.last();
        assert(c == digits[digits.len() - 1]);
        if forall|i: int|
            0 <= i < rest.len() ==> {
                let c = #[trigger] rest[i];
                '0' <= c <= '9' || 'a' <= c <= 'f' || 'A' <= c <= 'F'
            } {
            assert(forall|i: int|
                0 <= i < digits.len() - 1 ==> {
                    let c = #[trigger] digits[i];
                    &&& rest[i] == c
                    &&& '0' <= c <= '9' || 'a' <= c <= 'f' || 'A' <= c <= 'F'
                });
        } else {
            let i = choose|i: int|
                0 <= i < rest.len() && !({
                    let c = #[trigger] rest[i];
                    '0' <= c <= '9' || 'a' <= c <= 'f' || 'A' <= c <= 'F'
                });
            assert(digits[i] == rest[i]);
        }
    }
}

/// A number may stand behind `0x` or `0X`, and its digits behind a plus sign; without digits there
/// is none.
pub proof fn markers_and_plus_signs_do_not_count(digits: Seq<char>)
    requires
        digits.len() > 0,
        digits[0] != '+',
        digits.len() >= 2 ==> digits[1] != 'x' && digits[1] != 'X',
    ensures
        hex_value(digits) == digits_value(digits),
        hex_value("0x"@ + digits) == digits_value(digits),
        hex_value("0X"@ + digits) == digits_value(digits),
        hex_value("+"@ + digits) == digits_value(digits),
        hex_value("0x+"@ + digits) == digits_value(digits),
        hex_value(seq![]) == Err::<int, HexFault>(HexFault::Empty),
        hex_value("0x"@) == Err::<int, HexFault>(HexFault::Empty),
        hex_value("+"@) == Err::<int, HexFault>(HexFault::InvalidDigit),
{
    reveal_strlit("0x");
    reveal_strlit("0X");
    reveal_strlit("+");
    reveal_strlit("0x+");
    assert(("0x"@ + digits).skip(2) =~= digits);
    assert(("0X"@ + digits).skip(2) =~= digits);
    assert(("+"@ + digits).skip(1) =~= digits);
    assert(("0x+"@ + digits).skip(2).skip(1) =~= digits);
    assert("0x"@.skip(2) =~= seq![]);
    let plus = "+"@;
    assert(plus.drop_last() =~= seq![]);
    reveal_with_fuel(digits_value, 2);
}

/// Each entry of the seed records its iteration, an entry of another seed records nothing, and the
/// first seed that is no number is the fault.
pub proof fn entries_record_the_iterations_of_their_seed(
    entries: Seq<AllowSweep>,
    entry: AllowSweep,
    seed: u64,
    k: u64,
)
    ensures
        iterations_of(seq![], seed, 0) == Ok::<Map<u64, Seq<char>>, (Seq<char>, HexFault)>(
            Map::empty(),
        ),
        ({
            let longer = iterations_of(entries.push(entry), seed, entries.len() + 1);
            match iterations_of(entries, seed, entries.len()) {
                Err(bad) => longer == Err::<Map<u64, Seq<char>>, (Seq<char>, HexFault)>(bad),
                Ok(before) => match hex_value(entry.seed@) {
                    Err(fault) => longer == Err::<Map<u64, Seq<char>>, (Seq<char>, HexFault)>(
                        (entry.seed@, fault),
                    ),
                    Ok(number) => {
                        &&& longer matches Ok(after)
                        &&& after.contains_key(k) <==> before.contains_key(k) || (number == seed
                            && k == entry.iter)
                        &&& number == seed && k == entry.iter ==> after[k] == entry.finding@
                        &&& before.contains_key(k) && !(number == seed && k == entry.iter)
                            ==> after[k] == before[k]
                    },
                },
            }
        }),
{
    lemma_same_entries(entries, entries.push(entry), seed, entries.len());
}

proof fn lemma_same_entries(a: Seq<AllowSweep>, b: Seq<AllowSweep>, seed: u64, n: nat)
    requires
        n <= a.len(),
        n <= b.len(),
        forall|i: int| 0 <= i < n ==> #[trigger] a[i] == b[i],
    ensures
        iterations_of(a, seed, n) == iterations_of(b, seed, n),
    decreases n,
{
    if n > 0 {
        lemma_same_entries(a, b, seed, (n - 1) as nat);
        assert(a[n - 1] == b[n - 1]);
    }
}

/// The cases that are recorded are those of the entries, each with the finding of its last entry.
pub proof fn the_last_entry_of_a_case_counts(entries: Seq<AllowCase>, n: nat, i: int)
    requires
        n <= entries.len(),
        0 <= i < n,
        forall|j: int| i < j < n ==> (#[trigger] entries[j]).case@ != entries[i].case@,
    ensures
        cases_of(entries, n).contains_key(entries[i].case@),
        cases_of(entries, n)[entries[i].case@] == entries[i].finding@,
        cases_of(entries, 0) == Map::<Seq<char>, Seq<char>>::empty(),
    decreases n,
{
    if i < n - 1 {
        the_last_entry_of_a_case_counts(entries, (n - 1) as nat, i);
        assert(entries[n - 1].case@ != entries[i].case@);
    }
}

/// A case that no entry names is not recorded.
pub proof fn only_named_cases_are_recorded(entries: Seq<AllowCase>, n: nat, name: Seq<char>)
    requires
        n <= entries.len(),
        forall|j: int| 0 <= j < n ==> (#[trigger] entries[j]).case@ != name,
    ensures
        !cases_of(entries, n).contains_key(name),
    decreases n,
{
    if n > 0 {
        only_named_cases_are_recorded(entries, (n - 1) as nat, name);
        assert(entries[n - 1].case@ != name);
    }
}

/// A dangerous case that is recorded is labelled with its finding, and every other case after its
/// bucket.
pub proof fn only_recorded_danger_names_its_finding(
    bucket: BucketView,
    recorded: Map<Seq<char>, Seq<char>>,
    name: Seq<char>,
)
    ensures
        bucket is Dangerous && recorded.contains_key(name) ==> case_label(bucket, recorded, name)
            == "known-dangerous("@ + recorded[name] + ")"@,
        bucket !is Dangerous || !recorded.contains_key(name) ==> case_label(bucket, recorded, name)
            == bucket.name(),
{
}

/// A recorded case is reported as vanished exactly when it was present and did not come up.
pub proof fn present_cases_vanish(
    recorded: Seq<(String, String)>,
    n: nat,
    present: Seq<String>,
    reproduced: Map<Seq<char>, ()>,
)
    ensures
        vanished_cases(recorded, 0, present, reproduced).len() == 0,
        ({
            let before = vanished_cases(recorded, n, present, reproduced);
            let after = vanished_cases(recorded, n + 1, present, reproduced);
            let (name, finding) = recorded[n as int];
            let there = exists|i: int| 0 <= i < present.len() && (#[trigger] present[i])@ == name@;
            &&& there && !reproduced.contains_key(name@) ==> after == before.push(
                "VANISHED "@ + name@ + " ("@ + finding@
                    + ") — allowlisted as dangerous but no longer reproduces; update FINDINGS.md and the allowlist together"@,
            )
            &&& !there || reproduced.contains_key(name@) ==> after == before
        }),
{
}

/// A case is expected to come to its verdict, with the category in brackets where it gives one and
/// else with the standing.
pub proof fn the_category_goes_before_the_standing(
    verdict: Seq<char>,
    category: Seq<char>,
    standing: Option<Seq<char>>,
    shown: Seq<char>,
)
    ensures
        expectation(verdict, Some(category), standing) == verdict + "("@ + category + ")"@,
        expectation(verdict, None, Some(shown)) == verdict + "("@ + shown + ")"@,
        expectation(verdict, None, None) == verdict,
        optional_text(None) is None,
{
}

} // verus!
