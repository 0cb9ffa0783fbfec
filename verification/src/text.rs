//! Text that rejection messages are made of: decimal numbers and comparisons.

use vstd::prelude::*;
use vstd::string::{StrSliceExecFns, StringExecFns};

verus! {

/// The decimal digit of `d`, for `d` below ten.
pub open spec fn digit(d: int) -> char {
    ('0' as int + d) as char
}

/// `n` written in decimal, with a leading minus sign when it is negative.
pub open spec fn decimal(n: int) -> Seq<char>
    decreases (if n < 0 { 1 - n } else { n }),
{
    if n < 0 {
        "-"@ + decimal(-n)
    } else if n < 10 {
        seq![digit(n)]
    } else {
        decimal(n / 10) + seq![digit(n % 10)]
    }
}

fn digit_text(d: u64) -> (text: &'static str)
    requires
        d < 10,
    ensures
        text@ == seq![digit(d as int)],
{
    proof {
        reveal_strlit("0");
        reveal_strlit("1");
        reveal_strlit("2");
        reveal_strlit("3");
        reveal_strlit("4");
        reveal_strlit("5");
        reveal_strlit("6");
        reveal_strlit("7");
        reveal_strlit("8");
        reveal_strlit("9");
    }
    match d {
        0 => "0",
        1 => "1",
        2 => "2",
        3 => "3",
        4 => "4",
        5 => "5",
        6 => "6",
        7 => "7",
        8 => "8",
        _ => "9",
    }
}

/// `n` in decimal.
pub fn decimal_u64(n: u64) -> (text: String)
    ensures
        text@ == decimal(n as int),
    decreases n,
{
    if n < 10 {
        digit_text(n).to_owned()
    } else {
        decimal_u64(n / 10).concat(digit_text(n % 10))
    }
}

/// `n` in decimal, with a minus sign when it is negative.
pub fn decimal_i64(n: i64) -> (text: String)
    ensures
        text@ == decimal(n as int),
{
    if n >= 0 {
        decimal_u64(n as u64)
    } else {
        let magnitude: u64 = if n == i64::MIN {
            0x8000_0000_0000_0000
        } else {
            (-n) as u64
        };
        "-".to_owned().concat(decimal_u64(magnitude).as_str())
    }
}

/// Whether two texts are the same.
pub fn same_text(a: &str, b: &str) -> (same: bool)
    ensures
        same == (a@ == b@),
{
    a.to_owned() == b.to_owned()
}

/// Whether two byte strings are the same.
pub fn same_bytes(a: &[u8], b: &[u8]) -> (same: bool)
    ensures
        same == (a@ == b@),
{
    if a.len() != b.len() {
        return false;
    }
    let mut i: usize = 0;
    while i < a.len()
        invariant
            a.len() == b.len(),
            i <= a.len(),
            a@.subrange(0, i as int) == b@.subrange(0, i as int),
        decreases a.len() - i,
    {
        if a[i] != b[i] {
            assert(a@[i as int] != b@[i as int]);
            return false;
        }
        assert(a@.subrange(0, i + 1) == a@.subrange(0, i as int).push(a@[i as int]));
        assert(b@.subrange(0, i + 1) == b@.subrange(0, i as int).push(b@[i as int]));
        i += 1;
    }
    assert(a@.subrange(0, i as int) == a@);
    assert(b@.subrange(0, i as int) == b@);
    true
}

/// Whether `part` stands somewhere in `whole`.
pub open spec fn occurs_in(whole: Seq<char>, part: Seq<char>) -> bool {
    exists|at: int|
        0 <= at <= whole.len() - part.len() && #[trigger] whole.subrange(at, at + part.len())
            == part
}

/// The characters of a text.
pub fn characters(text: &str) -> (chars: Vec<char>)
    ensures
        chars@ == text@,
{
    let mut chars: Vec<char> = Vec::new();
    for c in it: text.chars()
        invariant
            it.seq() == text@,
            chars@ == text@.subrange(0, it.index() as int),
    {
        assert(text@.subrange(0, it.index() + 1) == text@.subrange(0, it.index() as int).push(c));
        chars.push(c);
    }
    assert(text@.subrange(0, text@.len() as int) == text@);
    chars
}

/// Whether `part` stands in `whole` at `at`.
fn stands_at(whole: &Vec<char>, part: &Vec<char>, at: usize) -> (found: bool)
    requires
        at + part.len() <= whole.len(),
    ensures
        found == (whole@.subrange(at as int, at + part@.len()) == part@),
{
    let mut i: usize = 0;
    while i < part.len()
        invariant
            at + part.len() <= whole.len(),
            i <= part.len(),
            forall|j: int| 0 <= j < i ==> whole@[at + j] == part@[j],
        decreases part.len() - i,
    {
        if whole[at + i] != part[i] {
            assert(whole@.subrange(at as int, at + part@.len())[i as int] != part@[i as int]);
            return false;
        }
        i += 1;
    }
    assert(whole@.subrange(at as int, at + part@.len()) == part@);
    true
}

/// Whether `part` stands somewhere in `whole`.
pub fn contains(whole: &str, part: &str) -> (found: bool)
    ensures
        found == occurs_in(whole@, part@),
{
    let whole_chars = characters(whole);
    let part_chars = characters(part);
    if part_chars.len() > whole_chars.len() {
        return false;
    }
    let last: usize = whole_chars.len() - part_chars.len();
    let mut at: usize = 0;
    loop
        invariant
            at <= last,
            last + part_chars@.len() == whole_chars@.len(),
            whole_chars@ == whole@,
            part_chars@ == part@,
            forall|k: int| 0 <= k < at ==> #[trigger] whole@.subrange(k, k + part@.len()) != part@,
        decreases last - at,
    {
        if stands_at(&whole_chars, &part_chars, at) {
            return true;
        }
        if at == last {
            return false;
        }
        at += 1;
    }
}

/// Texts by their characters.
pub open spec fn texts(items: Seq<String>) -> Seq<Seq<char>> {
    items.map_values(|item: String| item@)
}

/// Numbers in decimal, separated by commas.
pub open spec fn decimals(items: Seq<u32>) -> Seq<char>
    decreases items.len(),
{
    if items.len() == 0 {
        seq![]
    } else if items.len() == 1 {
        decimal(items[0] as int)
    } else {
        decimals(items.drop_last()) + ", "@ + decimal(items.last() as int)
    }
}

/// A list of numbers in brackets.
pub fn decimal_list(items: &[u32]) -> (text: String)
    ensures
        text@ == "["@ + decimals(items@) + "]"@,
{
    let mut inner = String::new();
    let mut i: usize = 0;
    assert(items@.subrange(0, 0) == Seq::<u32>::empty());
    while i < items.len()
        invariant
            i <= items.len(),
            inner@ == decimals(items@.subrange(0, i as int)),
        decreases items.len() - i,
    {
        assert(items@.subrange(0, i + 1).drop_last() == items@.subrange(0, i as int));
        if i == 0 {
            inner = decimal_u64(items[i] as u64);
        } else {
            inner = inner.concat(", ").concat(decimal_u64(items[i] as u64).as_str());
        }
        i += 1;
    }
    assert(items@.subrange(0, i as int) == items@);
    "[".to_owned().concat(inner.as_str()).concat("]")
}

/// `n` spaces.
pub open spec fn spaces(n: int) -> Seq<char> {
    Seq::new(if n > 0 { n as nat } else { 0nat }, |i: int| ' ')
}

/// A text followed by spaces up to `width` characters.
pub open spec fn padded_right(text: Seq<char>, width: int) -> Seq<char> {
    text + spaces(width - text.len())
}

/// A text preceded by spaces up to `width` characters.
pub open spec fn padded_left(text: Seq<char>, width: int) -> Seq<char> {
    spaces(width - text.len()) + text
}

/// The spaces that a text lacks to `width` characters.
fn missing_spaces(text: &str, width: usize) -> (fill: String)
    ensures
        fill@ == spaces(width - text@.len()),
{
    let len: usize = text.unicode_len();
    let mut fill = String::new();
    let mut i: usize = len;
    assert(fill@ =~= spaces(0));
    while i < width
        invariant
            len <= i,
            i <= width || i == len,
            fill@ == spaces(i - len),
        decreases width - i,
    {
        proof {
            reveal_strlit(" ");
            assert(spaces(i - len) + " "@ =~= spaces(i + 1 - len));
        }
        fill = fill.concat(" ");
        i += 1;
    }
    assert(fill@ =~= spaces(width - len));
    fill
}

/// A text with spaces behind it up to `width` characters.
pub fn pad_right(text: &str, width: usize) -> (padded: String)
    ensures
        padded@ == padded_right(text@, width as int),
{
    text.to_owned().concat(missing_spaces(text, width).as_str())
}

/// A text with spaces in front of it up to `width` characters.
pub fn pad_left(text: &str, width: usize) -> (padded: String)
    ensures
        padded@ == padded_left(text@, width as int),
{
    missing_spaces(text, width).concat(text)
}

/// Whether a text starts with another.
pub fn starts_with(whole: &str, part: &str) -> (starts: bool)
    ensures
        starts == part@.is_prefix_of(whole@),
{
    let w = characters(whole);
    let p = characters(part);
    if p.len() > w.len() {
        return false;
    }
    let mut i: usize = 0;
    while i < p.len()
        invariant
            i <= p.len() <= w.len(),
            w@ == whole@,
            p@ == part@,
            forall|j: int| 0 <= j < i ==> whole@[j] == part@[j],
        decreases p.len() - i,
    {
        if w[i] != p[i] {
            assert(part@[i as int] != whole@.subrange(0, part@.len() as int)[i as int]);
            return false;
        }
        i += 1;
    }
    assert(part@ =~= whole@.subrange(0, part@.len() as int));
    true
}

/// The hexadecimal digit of `d`, for `d` below sixteen.
pub open spec fn hex_digit(d: int, upper: bool) -> char {
    if d < 10 {
        digit(d)
    } else if upper {
        ('A' as int + d - 10) as char
    } else {
        ('a' as int + d - 10) as char
    }
}

/// `n` written in hexadecimal, without leading zeros.
pub open spec fn hexadecimal(n: int, upper: bool) -> Seq<char>
    decreases n,
{
    if n < 16 {
        seq![hex_digit(n, upper)]
    } else {
        hexadecimal(n / 16, upper) + seq![hex_digit(n % 16, upper)]
    }
}

fn hex_digit_text(d: u64, upper: bool) -> (text: &'static str)
    requires
        d < 16,
    ensures
        text@ == seq![hex_digit(d as int, upper)],
{
    proof {
        reveal_strlit("A");
        reveal_strlit("B");
        reveal_strlit("C");
        reveal_strlit("D");
        reveal_strlit("E");
        reveal_strlit("F");
        reveal_strlit("a");
        reveal_strlit("b");
        reveal_strlit("c");
        reveal_strlit("d");
        reveal_strlit("e");
        reveal_strlit("f");
    }
    if d < 10 {
        return digit_text(d);
    }
    match (d, upper) {
        (10, true) => "A",
        (11, true) => "B",
        (12, true) => "C",
        (13, true) => "D",
        (14, true) => "E",
        (_, true) => "F",
        (10, false) => "a",
        (11, false) => "b",
        (12, false) => "c",
        (13, false) => "d",
        (14, false) => "e",
        (_, false) => "f",
    }
}

/// `n` in hexadecimal.
pub fn hex_u64(n: u64, upper: bool) -> (text: String)
    ensures
        text@ == hexadecimal(n as int, upper),
    decreases n,
{
    if n < 16 {
        hex_digit_text(n, upper).to_owned()
    } else {
        hex_u64(n / 16, upper).concat(hex_digit_text(n % 16, upper))
    }
}

/// The number that decimal digits stand for, most significant digit first.
pub open spec fn number_in(digits: Seq<char>) -> int
    decreases digits.len(),
{
    if digits.len() == 0 {
        0
    } else {
        10 * number_in(digits.drop_last()) + (digits.last() as int - 48)
    }
}

/// A number written in decimal reads back: digits alone, without a leading zero, that stand for the
/// number, and a minus sign in front of them for a negative one.
pub proof fn decimal_numbers_read_back(n: int)
    ensures
        n >= 0 ==> {
            &&& decimal(n).len() >= 1
            &&& forall|i: int| 0 <= i < decimal(n).len() ==> '0' <= #[trigger] decimal(n)[i] <= '9'
            &&& number_in(decimal(n)) == n
            &&& n > 0 ==> decimal(n)[0] != '0'
        },
        n < 0 ==> decimal(n).len() >= 2 && decimal(n)[0] == '-' && decimal(n).skip(1) == decimal(
            -n,
        ),
    decreases (if n < 0 { 1 - n } else { n }),
{
    reveal_with_fuel(number_in, 2);
    if n < 0 {
        reveal_strlit("-");
        decimal_numbers_read_back(-n);
        assert(decimal(n).skip(1) =~= decimal(-n));
    } else if n < 10 {
        assert(decimal(n).drop_last() =~= Seq::<char>::empty());
    } else {
        decimal_numbers_read_back(n / 10);
        assert(decimal(n).drop_last() =~= decimal(n / 10));
        assert(decimal(n).last() == digit(n % 10));
        assert(decimal(n)[0] == decimal(n / 10)[0]);
        assert forall|i: int| 0 <= i < decimal(n).len() implies '0' <= #[trigger] decimal(n)[i]
            <= '9' by {
            if i < decimal(n).len() - 1 {
                assert(decimal(n)[i] == decimal(n / 10)[i]);
            }
        }
    }
}

/// Two numbers that are written alike are the same.
pub proof fn decimal_numbers_are_told_apart(a: int, b: int)
    requires
        decimal(a) == decimal(b),
    ensures
        a == b,
{
    decimal_numbers_read_back(a);
    decimal_numbers_read_back(b);
    if a < 0 && b < 0 {
        decimal_numbers_read_back(-a);
        decimal_numbers_read_back(-b);
    }
}

/// Numbers are listed one behind the other, with a comma and a space between any two.
pub proof fn lists_of_numbers_are_joined(a: Seq<u32>, b: Seq<u32>, n: u32)
    ensures
        decimals(seq![]) == Seq::<char>::empty(),
        decimals(seq![n]) == decimal(n as int),
        a.len() > 0 && b.len() > 0 ==> decimals(a + b) == decimals(a) + ", "@ + decimals(b),
    decreases b.len(),
{
    if a.len() > 0 && b.len() > 0 {
        assert((a + b).drop_last() =~= a + b.drop_last());
        assert((a + b).last() == b.last());
        if b.len() > 1 {
            lists_of_numbers_are_joined(a, b.drop_last(), n);
            assert(decimals(a + b) =~= decimals(a) + ", "@ + decimals(b));
        } else {
            assert(a + b.drop_last() =~= a);
        }
    }
}

/// Padding adds spaces on one side, up to the width and no further, and nothing else.
pub proof fn padding_adds_spaces_up_to_the_width(text: Seq<char>, width: int)
    ensures
        ({
            let len = if text.len() < width {
                width
            } else {
                text.len() as int
            };
            &&& padded_right(text, width).len() == len
            &&& forall|i: int|
                0 <= i < len ==> #[trigger] padded_right(text, width)[i] == (if i < text.len() {
                    text[i]
                } else {
                    ' '
                })
            &&& padded_left(text, width).len() == len
            &&& forall|i: int|
                0 <= i < len ==> #[trigger] padded_left(text, width)[i] == (if i < len
                    - text.len() {
                    ' '
                } else {
                    text[i - (len - text.len())]
                })
        }),
{
}

/// A text occurs in another exactly when the other is made of something, the text, and something.
pub proof fn occurring_means_standing_between(whole: Seq<char>, part: Seq<char>)
    ensures
        occurs_in(whole, part) <==> exists|before: Seq<char>, after: Seq<char>|
            whole == #[trigger] (before + part + after),
{
    if occurs_in(whole, part) {
        let at = choose|at: int|
            0 <= at <= whole.len() - part.len() && #[trigger] whole.subrange(at, at + part.len())
                == part;
        let before = whole.subrange(0, at);
        let after = whole.subrange(at + part.len(), whole.len() as int);
        assert(whole =~= before + part + after);
    }
    if exists|before: Seq<char>, after: Seq<char>| whole == #[trigger] (before + part + after) {
        let (before, after) = choose|before: Seq<char>, after: Seq<char>|
            whole == #[trigger] (before + part + after);
        let at = before.len() as int;
        assert(whole.subrange(at, at + part.len()) =~= part);
    }
}

/// A number in hexadecimal is made of digits of the asked case, without a leading zero.
pub proof fn hexadecimal_digits_are_of_one_case(n: int, upper: bool)
    requires
        n >= 0,
    ensures
        hexadecimal(n, upper).len() >= 1,
        forall|i: int|
            0 <= i < hexadecimal(n, upper).len() ==> {
                let c = #[trigger] hexadecimal(n, upper)[i];
                '0' <= c <= '9' || (upper && 'A' <= c <= 'F') || (!upper && 'a' <= c <= 'f')
            },
        n > 0 ==> hexadecimal(n, upper)[0] != '0',
    decreases n,
{
    if n >= 16 {
        hexadecimal_digits_are_of_one_case(n / 16, upper);
        let front = hexadecimal(n / 16, upper);
        assert forall|i: int| 0 <= i < hexadecimal(n, upper).len() implies ({
            let c = #[trigger] hexadecimal(n, upper)[i];
            '0' <= c <= '9' || (upper && 'A' <= c <= 'F') || (!upper && 'a' <= c <= 'f')
        }) by {
            if i < front.len() {
                assert(hexadecimal(n, upper)[i] == front[i]);
            }
        }
        assert(hexadecimal(n, upper)[0] == front[0]);
    }
}

/// Texts are shown one by one, each by its characters.
pub proof fn texts_are_shown_one_by_one(items: Seq<String>, i: int)
    requires
        0 <= i < items.len(),
    ensures
        texts(items).len() == items.len(),
        texts(items)[i] == items[i]@,
{
}

} // verus!
