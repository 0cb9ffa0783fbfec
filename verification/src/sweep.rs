//! The mutation sweep: which iterations it runs, and how each mutates a genuine input.

use std::collections::BTreeMap;

use vstd::prelude::*;
use vstd::string::StringExecFns;

use crate::rng::{self, GAMMA, SplitMix64};
use crate::text::{self, decimal_i64, decimal_u64};

verus! {

/// A genuine input that mutations start from.
pub struct BaseCase {
    pub name: String,
    pub quote: Vec<u8>,
    pub collateral: Vec<u8>,
    pub current_time: i64,
}

/// A mutated input and what was done to it.
pub struct MutatedCase {
    pub quote: Vec<u8>,
    pub collateral: Vec<u8>,
    pub current_time: i64,
    pub desc: String,
}

/// What a [`MutatedCase`] holds.
#[verifier::ext_equal]
pub ghost struct MutatedView {
    pub quote: Seq<u8>,
    pub collateral: Seq<u8>,
    pub current_time: int,
    pub desc: Seq<char>,
}

impl View for MutatedCase {
    type V = MutatedView;

    open spec fn view(&self) -> MutatedView {
        MutatedView {
            quote: self.quote@,
            collateral: self.collateral@,
            current_time: self.current_time as int,
            desc: self.desc@,
        }
    }
}

/// Where the part of a quote behind its signed part begins.
pub const QUOTE_CERT_TAIL_OFFSET: usize = 436;

/// Three years of 365 days, in seconds.
pub const THREE_YEARS_SECS: u64 = 94_608_000;

/// A generator's state after `n` steps.
pub open spec fn stepped(state: u64, n: nat) -> u64
    decreases n,
{
    if n == 0 {
        state
    } else {
        rng::advanced(stepped(state, (n - 1) as nat))
    }
}

/// `data` with one bit flipped.
pub open spec fn bit_flipped(data: Seq<u8>, bit: int) -> Seq<u8> {
    data.update(bit / 8, data[bit / 8] ^ (1u8 << ((bit % 8) as u8)))
}

/// The bit that the `n`th draw picks in the bytes from `lo` up to `hi`.
pub open spec fn picked_bit(state: u64, n: nat, lo: int, hi: int) -> int {
    lo * 8 + rng::drawn(stepped(state, n), ((hi - lo) * 8) as u64)
}

/// The bits that the first `n` draws pick.
pub open spec fn picked_bits(state: u64, n: nat, lo: int, hi: int) -> Seq<int> {
    Seq::new(n, |k: int| picked_bit(state, k as nat, lo, hi))
}

/// `data` after the first `n` draws flipped a bit each.
pub open spec fn bits_flipped(data: Seq<u8>, state: u64, n: nat, lo: int, hi: int) -> Seq<u8>
    decreases n,
{
    if n == 0 {
        data
    } else {
        bit_flipped(
            bits_flipped(data, state, (n - 1) as nat, lo, hi),
            picked_bit(state, (n - 1) as nat, lo, hi),
        )
    }
}

/// What a mutation leaves: the bytes, its description and the generator's state.
#[verifier::ext_equal]
pub ghost struct Mutation {
    pub bytes: Seq<u8>,
    pub desc: Seq<char>,
    pub state: u64,
}

/// Numbers in decimal, separated by commas, in brackets.
pub open spec fn bracketed(items: Seq<int>) -> Seq<char> {
    "["@ + comma_separated(items) + "]"@
}

/// Numbers in decimal, separated by commas.
pub open spec fn comma_separated(items: Seq<int>) -> Seq<char>
    decreases items.len(),
{
    if items.len() == 0 {
        seq![]
    } else if items.len() == 1 {
        text::decimal(items[0])
    } else {
        comma_separated(items.drop_last()) + ", "@ + text::decimal(items.last())
    }
}

/// From one to eight bits flipped in the bytes from `lo` up to `hi`.
pub open spec fn random_bits_flipped(data: Seq<u8>, state: u64, lo: int, hi: int) -> Mutation {
    let count = (1 + rng::drawn(state, 8)) as nat;
    let from = rng::advanced(state);
    Mutation {
        bytes: bits_flipped(data, from, count, lo, hi),
        desc: "flip bits "@ + bracketed(picked_bits(from, count, lo, hi)),
        state: stepped(from, count),
    }
}

/// `data` cut to a drawn length below its own.
pub open spec fn cut(data: Seq<u8>, state: u64) -> Mutation {
    let len = rng::drawn(state, data.len() as u64) as int;
    Mutation {
        bytes: data.subrange(0, len),
        desc: "truncate to "@ + text::decimal(len),
        state: rng::advanced(state),
    }
}

/// `data` after the first `n` draws each overwrote a byte, from `offset` on.
pub open spec fn bytes_overwritten(data: Seq<u8>, state: u64, n: nat, offset: int) -> Seq<u8>
    decreases n,
{
    if n == 0 {
        data
    } else {
        bytes_overwritten(data, state, (n - 1) as nat, offset).update(
            offset + n - 1,
            (rng::mixed(stepped(state, n)) % 256) as u8,
        )
    }
}

/// From one to thirty-two bytes, as far as there are any, overwritten at a drawn place.
pub open spec fn region_overwritten(data: Seq<u8>, state: u64) -> Mutation {
    let wanted = 1 + rng::drawn(state, 32) as int;
    let count = if wanted <= data.len() {
        wanted
    } else {
        data.len() as int
    };
    let offset = rng::drawn(rng::advanced(state), (data.len() - count + 1) as u64) as int;
    let from = stepped(state, 2);
    Mutation {
        bytes: bytes_overwritten(data, from, count as nat, offset),
        desc: "overwrite "@ + text::decimal(count) + " bytes at "@ + text::decimal(offset),
        state: stepped(from, count as nat),
    }
}

fn flip_random_bits(
    data: &mut Vec<u8>,
    rng: &mut SplitMix64,
    byte_lo: usize,
    byte_hi: usize,
) -> (desc: String)
    requires
        byte_lo < byte_hi <= old(data)@.len(),
        byte_hi * 8 <= usize::MAX,
    ensures
        (Mutation { bytes: final(data)@, desc: desc@, state: final(rng).state })
            == random_bits_flipped(old(data)@, old(rng).state, byte_lo as int, byte_hi as int),
{
    let ghost before = data@;
    let ghost lo = byte_lo as int;
    let ghost hi = byte_hi as int;
    let count: u64 = 1 + rng.below(8);
    let ghost from = rng.state;
    let bit_lo: usize = byte_lo * 8;
    let bit_hi: usize = byte_hi * 8;
    let mut positions = String::new();
    let mut i: u64 = 0;
    assert(picked_bits(from, 0, lo, hi) =~= seq![]);
    while i < count
        invariant
            i <= count,
            lo == byte_lo,
            hi == byte_hi,
            byte_lo < byte_hi <= data@.len(),
            bit_lo == byte_lo * 8,
            bit_hi == byte_hi * 8,
            rng.state == stepped(from, i as nat),
            data@ == bits_flipped(before, from, i as nat, lo, hi),
            data@.len() == before.len(),
            positions@ == comma_separated(picked_bits(from, i as nat, lo, hi)),
        decreases count - i,
    {
        let bit: usize = bit_lo + rng.below((bit_hi - bit_lo) as u64) as usize;
        assert(bit == picked_bit(from, i as nat, lo, hi));
        let slot: usize = bit / 8;
        data[slot] = data[slot] ^ (1u8 << ((bit % 8) as u8));
        proof {
            let all = picked_bits(from, (i + 1) as nat, lo, hi);
            assert(all.drop_last() =~= picked_bits(from, i as nat, lo, hi));
            assert(all.last() == bit);
        }
        if i == 0 {
            positions = decimal_u64(bit as u64);
        } else {
            positions = positions.concat(", ").concat(decimal_u64(bit as u64).as_str());
        }
        i += 1;
    }
    "flip bits ".to_owned().concat("[".to_owned().concat(positions.as_str()).concat("]").as_str())
}

fn truncate(data: &mut Vec<u8>, rng: &mut SplitMix64) -> (desc: String)
    requires
        old(data)@.len() > 0,
    ensures
        (Mutation { bytes: final(data)@, desc: desc@, state: final(rng).state }) == cut(
            old(data)@,
            old(rng).state,
        ),
{
    let new_len: usize = rng.below(data.len() as u64) as usize;
    data.truncate(new_len);
    "truncate to ".to_owned().concat(decimal_u64(new_len as u64).as_str())
}

fn overwrite_region(data: &mut Vec<u8>, rng: &mut SplitMix64) -> (desc: String)
    requires
        old(data)@.len() < usize::MAX,
    ensures
        (Mutation { bytes: final(data)@, desc: desc@, state: final(rng).state })
            == region_overwritten(old(data)@, old(rng).state),
{
    let ghost before = data@;
    let ghost start = rng.state;
    let wanted: usize = 1 + rng.below(32) as usize;
    let count: usize = if wanted <= data.len() {
        wanted
    } else {
        data.len()
    };
    let offset: usize = rng.below((data.len() - count + 1) as u64) as usize;
    let ghost from = rng.state;
    assert(from == stepped(start, 2)) by {
        reveal_with_fuel(stepped, 3);
    }
    let mut i: usize = 0;
    while i < count
        invariant
            i <= count,
            offset + count <= data@.len(),
            data@.len() == before.len(),
            data@.len() <= usize::MAX,
            rng.state == stepped(from, i as nat),
            data@ == bytes_overwritten(before, from, i as nat, offset as int),
        decreases count - i,
    {
        data[offset + i] = (rng.next() % 256) as u8;
        i += 1;
    }
    "overwrite ".to_owned().concat(decimal_u64(count as u64).as_str()).concat(
        " bytes at ",
    ).concat(decimal_u64(offset as u64).as_str())
}

/// The bytes of the key that the TCB levels stand under, in quotes.
pub open spec fn levels_key() -> Seq<u8> {
    seq![0x22u8, 0x74, 0x63, 0x62, 0x4c, 0x65, 0x76, 0x65, 0x6c, 0x73, 0x22]
}

/// Where the key stands first, at or after `from`.
pub open spec fn key_from(json: Seq<u8>, from: int) -> Option<int>
    decreases json.len() - from,
{
    if from < 0 || from + 11 > json.len() {
        None
    } else if json.subrange(from, from + 11) == levels_key() {
        Some(from)
    } else {
        key_from(json, from + 1)
    }
}

/// Where the first opening bracket stands, at or after `from`; the end when there is none.
pub open spec fn bracket_from(json: Seq<u8>, from: int) -> int
    decreases json.len() - from,
{
    if from >= json.len() || json[from] == 0x5b {
        from
    } else {
        bracket_from(json, from + 1)
    }
}

/// Behind the closing bracket that ends the array being read at `at`. Brackets inside strings do
/// not count, and a quote behind a backslash does not end a string.
pub open spec fn array_end(
    json: Seq<u8>,
    at: int,
    depth: nat,
    in_string: bool,
    escaped: bool,
) -> Option<int>
    decreases json.len() - at,
{
    if at >= json.len() {
        None
    } else if in_string {
        if escaped {
            array_end(json, at + 1, depth, true, false)
        } else if json[at] == 0x5c {
            array_end(json, at + 1, depth, true, true)
        } else if json[at] == 0x22 {
            array_end(json, at + 1, depth, false, false)
        } else {
            array_end(json, at + 1, depth, true, false)
        }
    } else if json[at] == 0x22 {
        array_end(json, at + 1, depth, true, escaped)
    } else if json[at] == 0x5b {
        array_end(json, at + 1, depth + 1, false, escaped)
    } else if json[at] == 0x5d {
        if depth <= 1 {
            Some(at + 1)
        } else {
            array_end(json, at + 1, (depth - 1) as nat, false, escaped)
        }
    } else {
        array_end(json, at + 1, depth, false, escaped)
    }
}

/// The byte range of the first array of TCB levels, from its opening bracket to behind its closing
/// one.
pub open spec fn levels_range(json: Seq<u8>) -> Option<(int, int)> {
    match key_from(json, 0) {
        None => None,
        Some(key) => {
            let open = bracket_from(json, key + 11);
            match array_end(json, open, 0, false, false) {
                None => None,
                Some(end) => Some((open, end)),
            }
        },
    }
}

/// Whether the key stands at `at`.
fn key_at(json: &Vec<u8>, at: usize) -> (found: bool)
    requires
        at + 11 <= json.len(),
    ensures
        found == (json@.subrange(at as int, at + 11) == levels_key()),
{
    let key: [u8; 11] = [0x22, 0x74, 0x63, 0x62, 0x4c, 0x65, 0x76, 0x65, 0x6c, 0x73, 0x22];
    assert(key@ =~= levels_key());
    let mut i: usize = 0;
    while i < 11
        invariant
            i <= 11,
            at + 11 <= json.len(),
            key@ == levels_key(),
            forall|j: int| 0 <= j < i ==> json@[at + j] == key@[j],
        decreases 11 - i,
    {
        if json[at + i] != key[i] {
            assert(json@.subrange(at as int, at + 11)[i as int] != levels_key()[i as int]);
            return false;
        }
        i += 1;
    }
    assert(json@.subrange(at as int, at + 11) =~= levels_key());
    true
}

/// Byte range of the first "tcbLevels" array (the tcbInfo one; qe_identity's
/// copy comes later in the file). String-aware bracket matching so quoted
/// brackets cannot desync the depth counter.
pub fn tcb_levels_range(json: &Vec<u8>) -> (range: Option<(usize, usize)>)
    ensures
        match range {
            None => levels_range(json@) is None,
            Some((lo, hi)) => levels_range(json@) == Some((lo as int, hi as int)) && lo < hi
                <= json@.len(),
        },
{
    if json.len() < 11 {
        return None;
    }
    let last: usize = json.len() - 11;
    let mut start: usize = 0;
    while start <= last && !key_at(json, start)
        invariant
            last + 11 == json.len(),
            start <= last + 1,
            key_from(json@, 0) == key_from(json@, start as int),
        decreases last + 1 - start,
    {
        start += 1;
    }
    if start > last {
        return None;
    }
    let mut i: usize = start + 11;
    while i < json.len() && json[i] != 0x5b
        invariant
            start + 11 <= i <= json.len(),
            bracket_from(json@, start + 11) == bracket_from(json@, i as int),
        decreases json.len() - i,
    {
        i += 1;
    }
    let open: usize = i;
    let mut depth: usize = 0;
    let mut in_string: bool = false;
    let mut escaped: bool = false;
    while i < json.len()
        invariant
            open <= i <= json.len(),
            open < json.len() ==> json@[open as int] == 0x5b,
            i > open ==> depth >= 1,
            depth <= i - open,
            i == open ==> !in_string,
            key_from(json@, 0) == Some(start as int),
            open == bracket_from(json@, start + 11),
            array_end(json@, open as int, 0, false, false) == array_end(
                json@,
                i as int,
                depth as nat,
                in_string,
                escaped,
            ),
        decreases json.len() - i,
    {
        let b: u8 = json[i];
        if in_string {
            if escaped {
                escaped = false;
            } else if b == 0x5c {
                escaped = true;
            } else if b == 0x22 {
                in_string = false;
            }
        } else if b == 0x22 {
            in_string = true;
        } else if b == 0x5b {
            depth += 1;
        } else if b == 0x5d {
            depth -= 1;
            if depth == 0 {
                return Some((open, i + 1));
            }
        }
        i += 1;
    }
    None
}

/// A mutation under a longer description.
pub open spec fn described(prefix: Seq<char>, mutation: Mutation) -> Mutation {
    Mutation { desc: prefix + mutation.desc, ..mutation }
}

/// Where the bits that the fourth quote strategy flips begin.
pub open spec fn tail_start(len: int) -> int {
    if QUOTE_CERT_TAIL_OFFSET <= len - 1 {
        QUOTE_CERT_TAIL_OFFSET as int
    } else if len > 0 {
        len - 1
    } else {
        0
    }
}

/// A quote mutated by a quote strategy.
pub open spec fn quote_mutated(quote: Seq<u8>, strategy: u64, state: u64) -> Mutation {
    if strategy == 0 {
        described(
            "quote-bitflip: "@,
            random_bits_flipped(quote, state, 0, quote.len() as int),
        )
    } else if strategy == 1 {
        described("quote-"@, cut(quote, state))
    } else if strategy == 2 {
        described("quote-"@, region_overwritten(quote, state))
    } else {
        described(
            "quote-cert-tail-bitflip: "@,
            random_bits_flipped(quote, state, tail_start(quote.len() as int), quote.len() as int),
        )
    }
}

/// Whether a quote can be mutated by a quote strategy: only overwriting takes an empty one.
pub open spec fn quote_mutable(quote: Seq<u8>, strategy: u64) -> bool {
    &&& quote.len() * 8 <= usize::MAX
    &&& strategy == 2 || quote.len() > 0
}

fn mutate_quote(quote: &mut Vec<u8>, strategy: u64, rng: &mut SplitMix64) -> (desc: String)
    requires
        strategy <= 3,
        quote_mutable(old(quote)@, strategy),
    ensures
        (Mutation { bytes: final(quote)@, desc: desc@, state: final(rng).state })
            == quote_mutated(old(quote)@, strategy, old(rng).state),
{
    let len: usize = quote.len();
    if strategy == 0 {
        "quote-bitflip: ".to_owned().concat(flip_random_bits(quote, rng, 0, len).as_str())
    } else if strategy == 1 {
        "quote-".to_owned().concat(truncate(quote, rng).as_str())
    } else if strategy == 2 {
        "quote-".to_owned().concat(overwrite_region(quote, rng).as_str())
    } else {
        let lo: usize = if QUOTE_CERT_TAIL_OFFSET <= len - 1 {
            QUOTE_CERT_TAIL_OFFSET
        } else {
            len - 1
        };
        "quote-cert-tail-bitflip: ".to_owned().concat(
            flip_random_bits(quote, rng, lo, len).as_str(),
        )
    }
}

/// Collateral mutated by a collateral strategy.
pub open spec fn collateral_mutated(collateral: Seq<u8>, strategy: u64, state: u64) -> Mutation {
    if strategy == 4 {
        described(
            "coll-bitflip: "@,
            random_bits_flipped(collateral, state, 0, collateral.len() as int),
        )
    } else if strategy == 5 {
        described("coll-"@, cut(collateral, state))
    } else {
        match levels_range(collateral) {
            Some((lo, hi)) => described(
                "coll-tcblevels-bitflip range="@ + text::decimal(lo) + ".."@ + text::decimal(hi)
                    + ": "@,
                random_bits_flipped(collateral, state, lo, hi),
            ),
            None => described(
                "coll-bitflip (no tcbLevels found): "@,
                random_bits_flipped(collateral, state, 0, collateral.len() as int),
            ),
        }
    }
}

/// Whether collateral can be mutated.
pub open spec fn collateral_mutable(collateral: Seq<u8>) -> bool {
    0 < collateral.len() * 8 <= usize::MAX
}

fn mutate_collateral(collateral: &mut Vec<u8>, strategy: u64, rng: &mut SplitMix64) -> (desc:
    String)
    requires
        4 <= strategy <= 6,
        collateral_mutable(old(collateral)@),
    ensures
        (Mutation { bytes: final(collateral)@, desc: desc@, state: final(rng).state })
            == collateral_mutated(old(collateral)@, strategy, old(rng).state),
{
    let len: usize = collateral.len();
    if strategy == 4 {
        "coll-bitflip: ".to_owned().concat(flip_random_bits(collateral, rng, 0, len).as_str())
    } else if strategy == 5 {
        "coll-".to_owned().concat(truncate(collateral, rng).as_str())
    } else {
        match tcb_levels_range(collateral) {
            Some((lo, hi)) => "coll-tcblevels-bitflip range=".to_owned().concat(
                decimal_u64(lo as u64).as_str(),
            ).concat("..").concat(decimal_u64(hi as u64).as_str()).concat(": ").concat(
                flip_random_bits(collateral, rng, lo, hi).as_str(),
            ),
            None => "coll-bitflip (no tcbLevels found): ".to_owned().concat(
                flip_random_bits(collateral, rng, 0, len).as_str(),
            ),
        }
    }
}

/// By how much the eighth strategy moves the time: up to three years in either direction.
pub open spec fn time_shift(state: u64) -> int {
    rng::drawn(state, (2 * THREE_YEARS_SECS + 1) as u64) - THREE_YEARS_SECS
}

/// A base case mutated by a strategy, starting in a generator's state: quote strategies change the
/// quote alone, collateral strategies the collateral alone, the eighth the time alone, and the
/// ninth the quote and the collateral by drawn strategies.
pub open spec fn mutated(base: BaseCase, strategy: u64, state: u64) -> MutatedView {
    if strategy <= 3 {
        let quote = quote_mutated(base.quote@, strategy, state);
        MutatedView {
            quote: quote.bytes,
            collateral: base.collateral@,
            current_time: base.current_time as int,
            desc: quote.desc,
        }
    } else if strategy <= 6 {
        let collateral = collateral_mutated(base.collateral@, strategy, state);
        MutatedView {
            quote: base.quote@,
            collateral: collateral.bytes,
            current_time: base.current_time as int,
            desc: collateral.desc,
        }
    } else if strategy == 7 {
        let time = base.current_time + time_shift(state);
        MutatedView {
            quote: base.quote@,
            collateral: base.collateral@,
            current_time: time,
            desc: "time-jitter delta="@ + text::decimal(time_shift(state)) + "s -> "@
                + text::decimal(time),
        }
    } else {
        let quote = quote_mutated(base.quote@, rng::drawn(state, 4), stepped(state, 2));
        let collateral = collateral_mutated(
            base.collateral@,
            (4 + rng::drawn(rng::advanced(state), 3)) as u64,
            quote.state,
        );
        MutatedView {
            quote: quote.bytes,
            collateral: collateral.bytes,
            current_time: base.current_time as int,
            desc: "combo: "@ + quote.desc + "; "@ + collateral.desc,
        }
    }
}

/// The generator's state after a base case was mutated by a strategy.
pub open spec fn state_after(base: BaseCase, strategy: u64, state: u64) -> u64 {
    if strategy <= 3 {
        quote_mutated(base.quote@, strategy, state).state
    } else if strategy <= 6 {
        collateral_mutated(base.collateral@, strategy, state).state
    } else if strategy == 7 {
        rng::advanced(state)
    } else {
        let quote = quote_mutated(base.quote@, rng::drawn(state, 4), stepped(state, 2));
        collateral_mutated(
            base.collateral@,
            (4 + rng::drawn(rng::advanced(state), 3)) as u64,
            quote.state,
        ).state
    }
}

/// Whether a base case can be mutated by a strategy: what the strategy changes must be long enough
/// for it, and a moved time must fit.
pub open spec fn mutable(base: BaseCase, strategy: u64, state: u64) -> bool {
    if strategy <= 3 {
        quote_mutable(base.quote@, strategy)
    } else if strategy <= 6 {
        collateral_mutable(base.collateral@)
    } else if strategy == 7 {
        i64::MIN <= base.current_time + time_shift(state) <= i64::MAX
    } else {
        &&& strategy == 8
        &&& quote_mutable(base.quote@, rng::drawn(state, 4))
        &&& collateral_mutable(base.collateral@)
    }
}

/// Whether a base case can be mutated by a strategy, with the generator as it stands.
pub fn can_mutate(base: &BaseCase, strategy: u64, rng: &SplitMix64) -> (possible: bool)
    ensures
        possible == mutable(*base, strategy, rng.state),
{
    let longest: usize = usize::MAX / 8;
    let mut draws = SplitMix64::new(rng.state);
    let collateral_fits: bool = 0 < base.collateral.len() && base.collateral.len() <= longest;
    if strategy <= 3 {
        base.quote.len() <= longest && (strategy == 2 || base.quote.len() > 0)
    } else if strategy <= 6 {
        collateral_fits
    } else if strategy == 7 {
        let delta: i64 = draws.below(2 * THREE_YEARS_SECS + 1) as i64 - THREE_YEARS_SECS as i64;
        base.current_time.checked_add(delta).is_some()
    } else {
        let quote_strategy: u64 = draws.below(4);
        strategy == 8 && base.quote.len() <= longest && (quote_strategy == 2 || base.quote.len()
            > 0) && collateral_fits
    }
}

/// Mutates a base case by one of the nine strategies.
pub fn mutate(base: &BaseCase, strategy: u64, rng: &mut SplitMix64) -> (case: MutatedCase)
    requires
        mutable(*base, strategy, old(rng).state),
    ensures
        case@ == mutated(*base, strategy, old(rng).state),
        final(rng).state == state_after(*base, strategy, old(rng).state),
{
    let mut quote = base.quote.clone();
    let mut collateral = base.collateral.clone();
    let mut current_time: i64 = base.current_time;
    assert(quote@ =~= base.quote@);
    assert(collateral@ =~= base.collateral@);
    let desc = if strategy <= 3 {
        mutate_quote(&mut quote, strategy, rng)
    } else if strategy <= 6 {
        mutate_collateral(&mut collateral, strategy, rng)
    } else if strategy == 7 {
        let delta: i64 = rng.below(2 * THREE_YEARS_SECS + 1) as i64 - THREE_YEARS_SECS as i64;
        current_time = current_time + delta;
        "time-jitter delta=".to_owned().concat(decimal_i64(delta).as_str()).concat(
            "s -> ",
        ).concat(decimal_i64(current_time).as_str())
    } else {
        proof {
            reveal_with_fuel(stepped, 3);
        }
        let quote_strategy: u64 = rng.below(4);
        let collateral_strategy: u64 = 4 + rng.below(3);
        let quote_desc = mutate_quote(&mut quote, quote_strategy, rng);
        let collateral_desc = mutate_collateral(&mut collateral, collateral_strategy, rng);
        "combo: ".to_owned().concat(quote_desc.as_str()).concat("; ").concat(
            collateral_desc.as_str(),
        )
    };
    MutatedCase { quote, collateral, current_time, desc }
}

/// Flipping bits keeps the length, and the bytes outside the range that bits are picked from.
pub proof fn flips_stay_inside_their_range(data: Seq<u8>, state: u64, n: nat, lo: int, hi: int)
    requires
        0 <= lo < hi <= data.len(),
        hi * 8 <= u64::MAX,
    ensures
        bits_flipped(data, state, n, lo, hi).len() == data.len(),
        forall|i: int|
            0 <= i < data.len() && !(lo <= i < hi) ==> #[trigger] bits_flipped(
                data,
                state,
                n,
                lo,
                hi,
            )[i] == data[i],
    decreases n,
{
    if n > 0 {
        flips_stay_inside_their_range(data, state, (n - 1) as nat, lo, hi);
        let bit = picked_bit(state, (n - 1) as nat, lo, hi);
        assert(lo * 8 <= bit < hi * 8);
        assert(lo <= bit / 8 < hi);
    }
}

proof fn lemma_overwriting_keeps_the_length(data: Seq<u8>, state: u64, n: nat, offset: int)
    requires
        0 <= offset,
        offset + n <= data.len(),
    ensures
        bytes_overwritten(data, state, n, offset).len() == data.len(),
    decreases n,
{
    if n > 0 {
        lemma_overwriting_keeps_the_length(data, state, (n - 1) as nat, offset);
    }
}

proof fn lemma_quote_not_lengthened(quote: Seq<u8>, strategy: u64, state: u64)
    requires
        quote_mutable(quote, strategy),
    ensures
        quote_mutated(quote, strategy, state).bytes.len() <= quote.len(),
        strategy == 1 ==> quote_mutated(quote, strategy, state).bytes.len() < quote.len(),
{
    let len = quote.len() as int;
    let from = rng::advanced(state);
    let count = (1 + rng::drawn(state, 8)) as nat;
    if strategy == 0 {
        flips_stay_inside_their_range(quote, from, count, 0, len);
    } else if strategy == 1 {
    } else if strategy == 2 {
        let wanted = 1 + rng::drawn(state, 32) as int;
        let taken = if wanted <= len {
            wanted
        } else {
            len
        };
        let offset = rng::drawn(from, (len - taken + 1) as u64) as int;
        lemma_overwriting_keeps_the_length(quote, stepped(state, 2), taken as nat, offset);
    } else {
        flips_stay_inside_their_range(quote, from, count, tail_start(len), len);
    }
}

/// The array of TCB levels that is found lies inside the document.
pub proof fn levels_lie_inside(json: Seq<u8>)
    ensures
        levels_range(json) matches Some((lo, hi)) ==> 0 <= lo < hi <= json.len(),
{
    lemma_key_inside(json, 0);
    if let Some(key) = key_from(json, 0) {
        lemma_bracket_inside(json, key + 11);
        lemma_end_inside(json, bracket_from(json, key + 11), 0, false, false);
    }
}

proof fn lemma_key_inside(json: Seq<u8>, from: int)
    ensures
        key_from(json, from) matches Some(at) ==> 0 <= at && from <= at && at + 11 <= json.len(),
    decreases json.len() - from,
{
    if 0 <= from && from + 11 <= json.len() {
        lemma_key_inside(json, from + 1);
    }
}

proof fn lemma_bracket_inside(json: Seq<u8>, from: int)
    ensures
        from <= bracket_from(json, from),
    decreases json.len() - from,
{
    if from < json.len() && json[from] != 0x5b {
        lemma_bracket_inside(json, from + 1);
    }
}

proof fn lemma_end_inside(json: Seq<u8>, at: int, depth: nat, in_string: bool, escaped: bool)
    ensures
        array_end(json, at, depth, in_string, escaped) matches Some(end) ==> at < end
            <= json.len(),
    decreases json.len() - at,
{
    if at < json.len() {
        lemma_end_inside(json, at + 1, depth, true, false);
        lemma_end_inside(json, at + 1, depth, true, true);
        lemma_end_inside(json, at + 1, depth, false, false);
        lemma_end_inside(json, at + 1, depth, true, escaped);
        lemma_end_inside(json, at + 1, depth + 1, false, escaped);
        lemma_end_inside(json, at + 1, depth, false, escaped);
        if depth > 1 {
            lemma_end_inside(json, at + 1, (depth - 1) as nat, false, escaped);
        }
    }
}

proof fn lemma_collateral_not_lengthened(collateral: Seq<u8>, strategy: u64, state: u64)
    requires
        collateral_mutable(collateral),
    ensures
        collateral_mutated(collateral, strategy, state).bytes.len() <= collateral.len(),
        strategy == 5 ==> collateral_mutated(collateral, strategy, state).bytes.len()
            < collateral.len(),
{
    let len = collateral.len() as int;
    let from = rng::advanced(state);
    let count = (1 + rng::drawn(state, 8)) as nat;
    flips_stay_inside_their_range(collateral, from, count, 0, len);
    levels_lie_inside(collateral);
    if let Some((lo, hi)) = levels_range(collateral) {
        flips_stay_inside_their_range(collateral, from, count, lo, hi);
    }
}

/// No strategy makes the quote or the collateral longer.
pub proof fn mutations_never_lengthen(base: BaseCase, strategy: u64, state: u64)
    requires
        mutable(base, strategy, state),
    ensures
        mutated(base, strategy, state).quote.len() <= base.quote@.len(),
        mutated(base, strategy, state).collateral.len() <= base.collateral@.len(),
{
    if strategy <= 3 {
        lemma_quote_not_lengthened(base.quote@, strategy, state);
    } else if strategy <= 6 {
        lemma_collateral_not_lengthened(base.collateral@, strategy, state);
    } else if strategy == 8 {
        let quote_strategy = rng::drawn(state, 4);
        let quote = quote_mutated(base.quote@, quote_strategy, stepped(state, 2));
        lemma_quote_not_lengthened(base.quote@, quote_strategy, stepped(state, 2));
        lemma_collateral_not_lengthened(
            base.collateral@,
            (4 + rng::drawn(rng::advanced(state), 3)) as u64,
            quote.state,
        );
    }
}

/// A strategy leaves alone what it does not speak of: quote strategies keep the collateral and the
/// time, collateral strategies the quote and the time, and only the eighth moves the time, by three
/// years at most.
pub proof fn mutations_leave_the_rest_alone(base: BaseCase, strategy: u64, state: u64)
    requires
        mutable(base, strategy, state),
    ensures
        strategy <= 3 || strategy == 7 ==> mutated(base, strategy, state).collateral
            == base.collateral@,
        4 <= strategy <= 7 ==> mutated(base, strategy, state).quote == base.quote@,
        strategy != 7 ==> mutated(base, strategy, state).current_time == base.current_time,
        -THREE_YEARS_SECS <= mutated(base, strategy, state).current_time - base.current_time
            <= THREE_YEARS_SECS,
{
}

/// The seventh strategy, where there is an array of TCB levels, changes bytes of that array alone.
pub proof fn level_mutations_stay_inside_the_levels(
    base: BaseCase,
    state: u64,
    lo: int,
    hi: int,
    i: int,
)
    requires
        mutable(base, 6, state),
        levels_range(base.collateral@) == Some((lo, hi)),
        0 <= i < base.collateral@.len(),
        !(lo <= i < hi),
    ensures
        mutated(base, 6, state).collateral.len() == base.collateral@.len(),
        mutated(base, 6, state).collateral[i] == base.collateral@[i],
{
    levels_lie_inside(base.collateral@);
    let count = (1 + rng::drawn(state, 8)) as nat;
    flips_stay_inside_their_range(base.collateral@, rng::advanced(state), count, lo, hi);
}

/// What a sweep runs over.
pub struct SweepOpts {
    pub iters: u64,
    pub seed: u64,
    pub bases: Vec<String>,
    pub default_bases: bool,
    pub only_iter: Option<u64>,
    pub out: String,
    /// Iterations of this seed recorded as dangerous in the allowlist (iter to finding id): each
    /// counts as known-dangerous when it fires and as vanished when it is in the run's window but
    /// no longer dangerous.
    pub allow_iters: BTreeMap<u64, String>,
}

impl SweepOpts {
    /// The iterations of the run, in order.
    pub open spec fn window(self) -> Seq<u64> {
        match self.only_iter {
            Some(k) => seq![k],
            None => Seq::new(self.iters as nat, |i: int| i as u64),
        }
    }

    /// Whether an iteration belongs to the run.
    pub open spec fn in_window(self, k: u64) -> bool {
        match self.only_iter {
            Some(only) => k == only,
            None => k < self.iters,
        }
    }

    /// The iterations of the run, in order.
    pub fn indices(&self) -> (indices: Vec<u64>)
        ensures
            indices@ == self.window(),
    {
        let mut indices: Vec<u64> = Vec::new();
        match self.only_iter {
            Some(k) => {
                indices.push(k);
                assert(indices@ =~= self.window());
            },
            None => {
                let mut i: u64 = 0;
                while i < self.iters
                    invariant
                        i <= self.iters,
                        indices@ == Seq::new(i as nat, |j: int| j as u64),
                    decreases self.iters - i,
                {
                    indices.push(i);
                    i += 1;
                    assert(indices@ =~= Seq::new(i as nat, |j: int| j as u64));
                }
                assert(indices@ =~= self.window());
            },
        }
        indices
    }

    /// Whether an iteration belongs to the run.
    pub fn covers(&self, k: u64) -> (covered: bool)
        ensures
            covered == self.in_window(k),
    {
        match self.only_iter {
            Some(only) => k == only,
            None => k < self.iters,
        }
    }
}

/// The window is made of the iterations that belong to the run, each of them once.
pub proof fn the_window_holds_each_iteration_once(opts: SweepOpts, k: u64)
    ensures
        opts.window().contains(k) <==> opts.in_window(k),
        opts.window().no_duplicates(),
{
    if opts.in_window(k) {
        match opts.only_iter {
            Some(only) => {
                assert(opts.window()[0] == k);
            },
            None => {
                assert(opts.window()[k as int] == k);
            },
        }
    }
}

/// The state that the generator of an iteration starts in.
pub open spec fn iteration_state(seed: u64, i: u64) -> u64 {
    seed ^ i.wrapping_mul(GAMMA)
}

/// The base that an iteration picks: of the two default bases the first with a weight of eight in
/// ten, otherwise any of them with the same weight.
pub open spec fn picked_base(state: u64, base_count: nat, default_bases: bool) -> int {
    if default_bases {
        if rng::drawn(state, 10) < 8 {
            0
        } else {
            1
        }
    } else {
        rng::drawn(state, base_count as u64) as int
    }
}

/// The strategy that an iteration picks.
pub open spec fn picked_strategy(state: u64) -> u64 {
    rng::drawn(rng::advanced(state), 9)
}

/// What one iteration runs.
pub struct IterationPlan {
    pub base: usize,
    pub strategy: u64,
    pub case: MutatedCase,
}

/// Whether an iteration can be run: there are bases to pick from, and the picked one can be mutated
/// by the picked strategy.
pub open spec fn plannable(opts: SweepOpts, bases: Seq<BaseCase>, i: u64) -> bool {
    let state = iteration_state(opts.seed, i);
    &&& opts.default_bases ==> bases.len() >= 2
    &&& 0 < bases.len() <= u64::MAX
    &&& mutable(
        bases[picked_base(state, bases.len(), opts.default_bases)],
        picked_strategy(state),
        stepped(state, 2),
    )
}

/// The base that an iteration picks.
fn pick_base(default_bases: bool, base_count: usize, rng: &mut SplitMix64) -> (base: usize)
    requires
        default_bases ==> base_count >= 2,
        base_count > 0,
    ensures
        base == picked_base(old(rng).state, base_count as nat, default_bases),
        base < base_count,
        final(rng).state == rng::advanced(old(rng).state),
{
    if default_bases {
        if rng.below(10) < 8 {
            0
        } else {
            1
        }
    } else {
        rng.below(base_count as u64) as usize
    }
}

/// Whether an iteration can be run.
pub fn can_plan(opts: &SweepOpts, bases: &Vec<BaseCase>, i: u64) -> (possible: bool)
    ensures
        possible == plannable(*opts, bases@, i),
{
    if bases.len() == 0 || (opts.default_bases && bases.len() < 2) {
        return false;
    }
    let mut rng = SplitMix64::new(opts.seed ^ i.wrapping_mul(GAMMA));
    let base: usize = pick_base(opts.default_bases, bases.len(), &mut rng);
    let strategy: u64 = rng.below(9);
    proof {
        reveal_with_fuel(stepped, 3);
    }
    can_mutate(&bases[base], strategy, &rng)
}

/// The base, the strategy and the mutated input of one iteration: they depend on the seed and the
/// iteration alone, so a single iteration can be run again.
pub fn plan_iteration(opts: &SweepOpts, bases: &Vec<BaseCase>, i: u64) -> (plan: IterationPlan)
    requires
        plannable(*opts, bases@, i),
    ensures
        ({
            let state = iteration_state(opts.seed, i);
            &&& plan.base == picked_base(state, bases@.len(), opts.default_bases)
            &&& plan.base < bases@.len()
            &&& plan.strategy == picked_strategy(state)
            &&& plan.strategy < 9
            &&& plan.case@ == mutated(
                bases@[plan.base as int],
                plan.strategy,
                stepped(state, 2),
            )
        }),
{
    let mut rng = SplitMix64::new(opts.seed ^ i.wrapping_mul(GAMMA));
    let base: usize = pick_base(opts.default_bases, bases.len(), &mut rng);
    let strategy: u64 = rng.below(9);
    proof {
        reveal_with_fuel(stepped, 3);
    }
    let case = mutate(&bases[base], strategy, &mut rng);
    IterationPlan { base, strategy, case }
}

/// An iteration is the same in every run: two runs with the same seed and bases pick the same base
/// and strategy for it, whatever else they differ in, so any iteration can be run again alone.
pub proof fn iterations_do_not_depend_on_the_run(
    whole: SweepOpts,
    alone: SweepOpts,
    bases: Seq<BaseCase>,
    i: u64,
)
    requires
        whole.seed == alone.seed,
        whole.default_bases == alone.default_bases,
        alone.only_iter == Some(i),
    ensures
        alone.window() == seq![i],
        plannable(whole, bases, i) <==> plannable(alone, bases, i),
        picked_base(iteration_state(whole.seed, i), bases.len(), whole.default_bases)
            == picked_base(iteration_state(alone.seed, i), bases.len(), alone.default_bases),
{
}

/// Flipping a bit changes that bit of its byte and nothing else, and flipping it again undoes it.
pub proof fn a_flip_changes_one_bit(data: Seq<u8>, bit: int, k: u8)
    requires
        0 <= bit < data.len() * 8,
        k < 8,
    ensures
        bit_flipped(data, bit).len() == data.len(),
        forall|i: int|
            0 <= i < data.len() && i != bit / 8 ==> #[trigger] bit_flipped(data, bit)[i] == data[i],
        ((bit_flipped(data, bit)[bit / 8] >> k) & 1u8 != (data[bit / 8] >> k) & 1u8) <==> k == bit
            % 8,
        bit_flipped(bit_flipped(data, bit), bit) == data,
{
    let b = data[bit / 8];
    let j = (bit % 8) as u8;
    assert((((b ^ (1u8 << j)) >> k) & 1u8 != (b >> k) & 1u8) <==> k == j) by (bit_vector)
        requires
            k < 8,
            j < 8,
    ;
    assert((b ^ (1u8 << j)) ^ (1u8 << j) == b) by (bit_vector);
    assert(bit_flipped(bit_flipped(data, bit), bit) =~= data);
}

/// `data` with the bits at the given places flipped, one after the other.
pub open spec fn flipped_at(data: Seq<u8>, places: Seq<int>) -> Seq<u8> {
    places.fold_left(data, |bytes: Seq<u8>, bit: int| bit_flipped(bytes, bit))
}

proof fn lemma_flips_are_those_picked(data: Seq<u8>, state: u64, n: nat, lo: int, hi: int)
    requires
        0 <= lo < hi,
        hi * 8 <= u64::MAX,
    ensures
        bits_flipped(data, state, n, lo, hi) == flipped_at(data, picked_bits(state, n, lo, hi)),
        forall|k: int|
            0 <= k < n ==> lo * 8 <= #[trigger] picked_bits(state, n, lo, hi)[k] < hi * 8,
    decreases n,
{
    let places = picked_bits(state, n, lo, hi);
    if n > 0 {
        lemma_flips_are_those_picked(data, state, (n - 1) as nat, lo, hi);
        assert(places.drop_last() =~= picked_bits(state, (n - 1) as nat, lo, hi));
        assert(places.last() == picked_bit(state, (n - 1) as nat, lo, hi));
    }
    assert forall|k: int| 0 <= k < n implies lo * 8 <= #[trigger] places[k] < hi * 8 by {
        assert(places[k] == picked_bit(state, k as nat, lo, hi));
    }
}

/// From one to eight bits are flipped, all of them in the given bytes, and the description lists
/// them.
pub proof fn the_flipped_bits_are_listed(data: Seq<u8>, state: u64, lo: int, hi: int) -> (places:
    Seq<int>)
    requires
        0 <= lo < hi <= data.len(),
        hi * 8 <= u64::MAX,
    ensures
        1 <= places.len() <= 8,
        forall|k: int| 0 <= k < places.len() ==> lo * 8 <= #[trigger] places[k] < hi * 8,
        random_bits_flipped(data, state, lo, hi).bytes == flipped_at(data, places),
        random_bits_flipped(data, state, lo, hi).desc == "flip bits "@ + bracketed(places),
{
    let count = (1 + rng::drawn(state, 8)) as nat;
    lemma_flips_are_those_picked(data, rng::advanced(state), count, lo, hi);
    picked_bits(rng::advanced(state), count, lo, hi)
}

/// A list of numbers is written in brackets, each number behind the others after a comma.
pub proof fn numbers_are_listed_in_brackets(items: Seq<int>, item: int)
    ensures
        bracketed(seq![]) == "["@ + "]"@,
        bracketed(seq![item]) == "["@ + text::decimal(item) + "]"@,
        items.len() > 0 ==> bracketed(items.push(item)) == bracketed(items).drop_last() + ", "@
            + text::decimal(item) + "]"@,
{
    assert("["@ + seq![] + "]"@ =~= "["@ + "]"@);
    if items.len() > 0 {
        reveal_strlit("]");
        let all = items.push(item);
        assert(all.drop_last() =~= items);
        assert(all.last() == item);
        assert(bracketed(items).drop_last() =~= "["@ + comma_separated(items));
        assert(bracketed(all) =~= "["@ + comma_separated(items) + ", "@ + text::decimal(item)
            + "]"@);
    }
}

/// What is cut keeps its beginning and loses at least a byte.
pub proof fn a_cut_keeps_a_beginning(data: Seq<u8>, state: u64) -> (len: int)
    requires
        0 < data.len() <= u64::MAX,
    ensures
        0 <= len < data.len(),
        cut(data, state).bytes == data.subrange(0, len),
        cut(data, state).desc == "truncate to "@ + text::decimal(len),
{
    rng::drawn(state, data.len() as u64) as int
}

proof fn lemma_overwriting_stays_in_its_region(data: Seq<u8>, state: u64, n: nat, offset: int)
    requires
        0 <= offset,
        offset + n <= data.len(),
    ensures
        bytes_overwritten(data, state, n, offset).len() == data.len(),
        forall|i: int|
            0 <= i < data.len() && !(offset <= i < offset + n) ==> #[trigger] bytes_overwritten(
                data,
                state,
                n,
                offset,
            )[i] == data[i],
    decreases n,
{
    if n > 0 {
        lemma_overwriting_stays_in_its_region(data, state, (n - 1) as nat, offset);
    }
}

/// From one to thirty-two bytes in a row are overwritten, and no others; the description names
/// them.
pub proof fn overwriting_touches_one_region(data: Seq<u8>, state: u64) -> (region: (int, int))
    requires
        data.len() < u64::MAX,
    ensures
        ({
            let (offset, count) = region;
            let result = region_overwritten(data, state);
            &&& count <= 32 && (data.len() > 0 ==> 1 <= count)
            &&& 0 <= offset && offset + count <= data.len()
            &&& result.bytes.len() == data.len()
            &&& forall|i: int|
                0 <= i < data.len() && !(offset <= i < offset + count)
                    ==> #[trigger] result.bytes[i] == data[i]
            &&& result.desc == "overwrite "@ + text::decimal(count) + " bytes at "@
                + text::decimal(offset)
        }),
{
    let wanted = 1 + rng::drawn(state, 32) as int;
    let count = if wanted <= data.len() {
        wanted
    } else {
        data.len() as int
    };
    let offset = rng::drawn(rng::advanced(state), (data.len() - count + 1) as u64) as int;
    lemma_overwriting_stays_in_its_region(data, stepped(state, 2), count as nat, offset);
    (offset, count)
}

proof fn lemma_key_is_the_first(json: Seq<u8>, from: int)
    requires
        0 <= from,
    ensures
        match key_from(json, from) {
            Some(key) => {
                &&& from <= key && key + 11 <= json.len()
                &&& json.subrange(key, key + 11) == levels_key()
                &&& forall|i: int|
                    from <= i < key ==> #[trigger] json.subrange(i, i + 11) != levels_key()
            },
            None => forall|i: int|
                from <= i <= json.len() - 11 ==> #[trigger] json.subrange(i, i + 11)
                    != levels_key(),
        },
    decreases json.len() - from,
{
    if from + 11 <= json.len() && json.subrange(from, from + 11) != levels_key() {
        lemma_key_is_the_first(json, from + 1);
    }
}

proof fn lemma_bracket_is_the_first(json: Seq<u8>, from: int)
    requires
        0 <= from <= json.len(),
    ensures
        from <= bracket_from(json, from) <= json.len(),
        bracket_from(json, from) < json.len() ==> json[bracket_from(json, from)] == 0x5b,
        forall|i: int| from <= i < bracket_from(json, from) ==> #[trigger] json[i] != 0x5b,
    decreases json.len() - from,
{
    if from < json.len() && json[from] != 0x5b {
        lemma_bracket_is_the_first(json, from + 1);
    }
}

proof fn lemma_end_is_a_bracket(json: Seq<u8>, at: int, depth: nat, in_string: bool, escaped: bool)
    requires
        0 <= at,
    ensures
        array_end(json, at, depth, in_string, escaped) matches Some(end) ==> at < end
            <= json.len() && json[end - 1] == 0x5d,
    decreases json.len() - at,
{
    if at < json.len() {
        lemma_end_is_a_bracket(json, at + 1, depth, true, false);
        lemma_end_is_a_bracket(json, at + 1, depth, true, true);
        lemma_end_is_a_bracket(json, at + 1, depth, false, false);
        lemma_end_is_a_bracket(json, at + 1, depth, true, escaped);
        lemma_end_is_a_bracket(json, at + 1, depth + 1, false, escaped);
        lemma_end_is_a_bracket(json, at + 1, depth, false, escaped);
        if depth > 1 {
            lemma_end_is_a_bracket(json, at + 1, (depth - 1) as nat, false, escaped);
        }
    }
}

/// The levels that are found are those behind the first key `"tcbLevels"`, from the first bracket
/// that opens behind it to one that closes; without the key none are found.
pub proof fn the_levels_stand_behind_their_key(json: Seq<u8>) -> (key: int)
    ensures
        ({
            let text = seq![0x22u8, 0x74, 0x63, 0x62, 0x4c, 0x65, 0x76, 0x65, 0x6c, 0x73, 0x22];
            &&& levels_range(json) matches Some((lo, hi)) ==> {
                &&& 0 <= key && key + 11 <= lo < hi <= json.len()
                &&& json.subrange(key, key + 11) == text
                &&& forall|i: int| 0 <= i < key ==> #[trigger] json.subrange(i, i + 11) != text
                &&& forall|i: int| key + 11 <= i < lo ==> #[trigger] json[i] != 0x5b
                &&& json[lo] == 0x5b && json[hi - 1] == 0x5d
            }
            &&& (forall|i: int|
                0 <= i <= json.len() - 11 ==> #[trigger] json.subrange(i, i + 11) != text)
                ==> levels_range(json) is None
        }),
{
    lemma_key_is_the_first(json, 0);
    match key_from(json, 0) {
        None => 0,
        Some(key) => {
            lemma_bracket_is_the_first(json, key + 11);
            lemma_end_is_a_bracket(json, bracket_from(json, key + 11), 0, false, false);
            key
        },
    }
}

proof fn lemma_plain_string(json: Seq<u8>, at: int, end: int, depth: nat)
    requires
        0 <= at <= end < json.len(),
        json[end] == 0x22,
        forall|i: int| at <= i < end ==> #[trigger] json[i] != 0x22 && json[i] != 0x5c,
    ensures
        array_end(json, at, depth, true, false) == array_end(json, end + 1, depth, false, false),
    decreases end - at,
{
    if at < end {
        lemma_plain_string(json, at + 1, end, depth);
    }
}

/// Whatever stands in a string, brackets too, does not count when the end of an array is looked
/// for, and what follows a backslash in a string does not end it.
pub proof fn strings_do_not_count(json: Seq<u8>, at: int, end: int, depth: nat)
    requires
        0 <= at < end < json.len(),
        json[at] == 0x22,
        json[end] == 0x22,
        forall|i: int| at < i < end ==> #[trigger] json[i] != 0x22 && json[i] != 0x5c,
    ensures
        array_end(json, at, depth, false, false) == array_end(json, end + 1, depth, false, false),
{
    lemma_plain_string(json, at + 1, end, depth);
}

/// What follows a backslash in a string is passed over, a quote too.
pub proof fn escapes_are_passed_over(json: Seq<u8>, at: int, depth: nat)
    requires
        0 <= at < json.len() - 1,
        json[at] == 0x5c,
    ensures
        array_end(json, at, depth, true, false) == array_end(json, at + 2, depth, true, false),
{
    reveal_with_fuel(array_end, 3);
}

proof fn lemma_no_brackets(json: Seq<u8>, at: int, end: int, depth: nat)
    requires
        0 <= at <= end <= json.len(),
        forall|i: int|
            at <= i < end ==> #[trigger] json[i] != 0x22 && json[i] != 0x5b && json[i] != 0x5d,
    ensures
        array_end(json, at, depth, false, false) == array_end(json, end, depth, false, false),
    decreases end - at,
{
    if at < end {
        lemma_no_brackets(json, at + 1, end, depth);
    }
}

/// A bracket that opens is matched by the next that closes: alone it ends the array, and inside
/// another array it is passed over.
pub proof fn brackets_are_matched(json: Seq<u8>, at: int, end: int, depth: nat)
    requires
        0 <= at < end < json.len(),
        json[at] == 0x5b,
        json[end] == 0x5d,
        forall|i: int|
            at < i < end ==> #[trigger] json[i] != 0x22 && json[i] != 0x5b && json[i] != 0x5d,
    ensures
        depth == 0 ==> array_end(json, at, depth, false, false) == Some(end + 1),
        depth > 0 ==> array_end(json, at, depth, false, false) == array_end(
            json,
            end + 1,
            depth,
            false,
            false,
        ),
{
    lemma_no_brackets(json, at + 1, end, depth + 1);
    reveal_with_fuel(array_end, 2);
}

/// Each strategy does what its number stands for: the first flips bits anywhere in the quote, the
/// second cuts it, the third overwrites a region of it, the fourth flips bits behind its signed
/// part; the fifth flips bits anywhere in the collateral, the sixth cuts it, the seventh flips bits
/// of its TCB levels; the eighth moves the time.
pub proof fn strategies_do_what_their_number_stands_for(base: BaseCase, state: u64)
    ensures
        ({
            let quote = base.quote@;
            let end = quote.len() as int;
            let tail = if end > 436 {
                436
            } else {
                end - 1
            };
            &&& mutated(base, 0, state).quote == random_bits_flipped(quote, state, 0, end).bytes
            &&& mutated(base, 0, state).desc == "quote-bitflip: "@ + random_bits_flipped(
                quote,
                state,
                0,
                end,
            ).desc
            &&& mutated(base, 1, state).quote == cut(quote, state).bytes
            &&& mutated(base, 1, state).desc == "quote-"@ + cut(quote, state).desc
            &&& mutated(base, 2, state).quote == region_overwritten(quote, state).bytes
            &&& mutated(base, 2, state).desc == "quote-"@ + region_overwritten(quote, state).desc
            &&& end > 0 ==> mutated(base, 3, state).quote == random_bits_flipped(
                quote,
                state,
                tail,
                end,
            ).bytes && mutated(base, 3, state).desc == "quote-cert-tail-bitflip: "@
                + random_bits_flipped(quote, state, tail, end).desc
        }),
        ({
            let collateral = base.collateral@;
            let whole = random_bits_flipped(collateral, state, 0, collateral.len() as int);
            &&& mutated(base, 4, state).collateral == whole.bytes
            &&& mutated(base, 4, state).desc == "coll-bitflip: "@ + whole.desc
            &&& mutated(base, 5, state).collateral == cut(collateral, state).bytes
            &&& mutated(base, 5, state).desc == "coll-"@ + cut(collateral, state).desc
            &&& levels_range(collateral) matches Some((lo, hi)) ==> mutated(
                base,
                6,
                state,
            ).collateral == random_bits_flipped(collateral, state, lo, hi).bytes
            &&& levels_range(collateral) is None ==> mutated(base, 6, state).collateral
                == whole.bytes && mutated(base, 6, state).desc
                == "coll-bitflip (no tcbLevels found): "@ + whole.desc
        }),
        -94_608_000 <= mutated(base, 7, state).current_time - base.current_time <= 94_608_000,
        mutated(base, 7, state).desc == "time-jitter delta="@ + text::decimal(
            mutated(base, 7, state).current_time - base.current_time,
        ) + "s -> "@ + text::decimal(mutated(base, 7, state).current_time),
{
}

/// The ninth strategy is one of the first four on the quote and one of the next three on the
/// collateral.
pub proof fn combined_mutations_are_made_of_both(base: BaseCase, state: u64) -> (parts: (u64, u64))
    ensures
        parts.0 <= 3,
        4 <= parts.1 <= 6,
        ({
            let quote = quote_mutated(base.quote@, parts.0, stepped(state, 2));
            let collateral = collateral_mutated(base.collateral@, parts.1, quote.state);
            &&& mutated(base, 8, state).quote == quote.bytes
            &&& mutated(base, 8, state).collateral == collateral.bytes
            &&& mutated(base, 8, state).current_time == base.current_time
            &&& mutated(base, 8, state).desc == "combo: "@ + quote.desc + "; "@ + collateral.desc
        }),
{
    (rng::drawn(state, 4), (4 + rng::drawn(rng::advanced(state), 3)) as u64)
}

/// A whole run goes through the iterations from zero up to their number; a run of one iteration is
/// that one alone, whatever their number.
pub proof fn runs_go_through_their_iterations_in_order(opts: SweepOpts, k: u64)
    ensures
        opts.only_iter is None ==> opts.window().len() == opts.iters,
        opts.only_iter is None && k < opts.iters ==> opts.window()[k as int] == k,
        opts.only_iter is None ==> (opts.in_window(k) <==> k < opts.iters),
        opts.only_iter matches Some(only) ==> opts.window() == seq![only] && (opts.in_window(k)
            <==> k == only),
{
}

/// An iteration runs one of nine strategies on one of the bases; of the default bases it runs on
/// one of the first two, the first exactly when a draw of ten is below eight.
pub proof fn iterations_pick_a_base_and_a_strategy(state: u64, base_count: nat, i: u64, seed: u64)
    requires
        0 < base_count <= u64::MAX,
    ensures
        picked_strategy(state) < 9,
        0 <= picked_base(state, base_count, false) < base_count,
        picked_base(state, base_count, true) == 0 || picked_base(state, base_count, true) == 1,
        picked_base(state, base_count, true) == 0 <==> rng::mixed(rng::advanced(state)) % 10 < 8,
        iteration_state(seed, 0) == seed,
        iteration_state(0, i) == (i * 0x9E37_79B9_7F4A_7C15) % 0x1_0000_0000_0000_0000,
{
    assert(seed ^ 0u64 == seed) by (bit_vector);
    let product = i.wrapping_mul(GAMMA);
    assert(0u64 ^ product == product) by (bit_vector);
}

} // verus!
