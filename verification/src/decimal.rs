//! Decimal literals: the grammar by which text denotes an integer, a reader
//! that follows it, and the text by which an integer is written.

use vstd::prelude::*;

verus! {

/// Whether `c` is one of the ten ASCII decimal digits.
pub open spec fn is_digit(c: char) -> bool {
    '0' <= c && c <= '9'
}

/// The number that the ASCII digit `c` stands for.
pub open spec fn digit_value(c: char) -> int {
    c as int - '0' as int
}

/// Whether `s` is a non-empty run of ASCII decimal digits.
pub open spec fn is_digits(s: Seq<char>) -> bool {
    s.len() > 0 && forall|i: int| 0 <= i < s.len() ==> is_digit(#[trigger] s[i])
}

/// The number that a run of digits denotes in base ten, most significant digit first.
pub open spec fn digits_value(s: Seq<char>) -> int
    decreases s.len(),
{
    if s.len() == 0 {
        0
    } else {
        10 * digits_value(s.drop_last()) + digit_value(s.last())
    }
}

/// The number that an unsigned run of digits denotes, or `None` where `s` is not such a run.
pub open spec fn magnitude(s: Seq<char>) -> Option<int> {
    if is_digits(s) {
        Some(digits_value(s))
    } else {
        None
    }
}

/// The number that `s` denotes as a decimal literal: an optional sign, then one
/// or more digits and nothing else. A leading `+` is always accepted; a leading
/// `-` only where `allow_minus` holds.
pub open spec fn literal_value(s: Seq<char>, allow_minus: bool) -> Option<int> {
    if s.len() > 0 && s[0] == '+' {
        magnitude(s.skip(1))
    } else if allow_minus && s.len() > 0 && s[0] == '-' {
        match magnitude(s.skip(1)) {
            Some(m) => Some(-m),
            None => None,
        }
    } else {
        magnitude(s)
    }
}

/// The number that `s` denotes as a decimal literal, where that number lies in
/// `lo ..= hi`; `None` where `s` is no literal or denotes a number outside.
pub open spec fn bounded_value(s: Seq<char>, allow_minus: bool, lo: int, hi: int) -> Option<int> {
    match literal_value(s, allow_minus) {
        Some(v) => if lo <= v <= hi {
            Some(v)
        } else {
            None
        },
        None => None,
    }
}

/// The magnitude of the least `i64`. A run of digits that denotes more stands
/// for no `i64`, with a sign or without.
const MAGNITUDE_LIMIT: i128 = 0x8000_0000_0000_0000;

/// A run of digits denotes at least what any of its prefixes denotes.
proof fn lemma_prefix_value(s: Seq<char>, k: int)
    requires
        0 <= k <= s.len(),
        forall|i: int| 0 <= i < s.len() ==> is_digit(#[trigger] s[i]),
    ensures
        0 <= digits_value(s.take(k)) <= digits_value(s),
    decreases s.len(),
{
    if k == s.len() {
        assert(s.take(k) =~= s);
        if s.len() > 0 {
            lemma_prefix_value(s.drop_last(), k - 1);
            assert(s.drop_last().take(k - 1) =~= s.drop_last());
        }
    } else {
        lemma_prefix_value(s.drop_last(), k);
        assert(s.drop_last().take(k) =~= s.take(k));
    }
}

/// Reads `text` as a decimal literal whose number lies in `lo ..= hi`: `Some`
/// exactly where `text` is such a literal, and then its number. A `-` in front
/// is read as a sign only where `allow_minus` holds.
pub fn parse_bounded(text: &str, allow_minus: bool, lo: i64, hi: i64) -> (r: Option<i64>)
    ensures
        match r {
            Some(v) => bounded_value(text@, allow_minus, lo as int, hi as int) == Some(v as int),
            None => bounded_value(text@, allow_minus, lo as int, hi as int) is None,
        },
{
    let mut first = true;
    let mut negative = false;
    let mut any = false;
    let mut acc: i128 = 0;
    let ghost mut start: int = 0;
    for c in it: text.chars()
        invariant
            it.seq() == text@,
            it.index() <= text@.len(),
            first <==> it.index() == 0,
            0 <= start <= it.index(),
            start <= 1,
            !first ==> (start == 1 <==> (text@[0] == '+' || (allow_minus && text@[0] == '-'))),
            negative <==> (start == 1 && text@[0] == '-'),
            any <==> start < it.index(),
            forall|j: int| start <= j < it.index() ==> is_digit(#[trigger] text@[j]),
            acc == digits_value(text@.subrange(start, it.index() as int)),
            0 <= acc <= MAGNITUDE_LIMIT,
    {
        let ghost idx = it.index() as int;
        if first && (c == '+' || (allow_minus && c == '-')) {
            negative = c == '-';
            proof {
                start = 1;
                assert(text@.subrange(1, 1) =~= Seq::<char>::empty());
            }
        } else if '0' <= c && c <= '9' {
            let d: i128 = (c as u32 - '0' as u32) as i128;
            proof {
                let before = text@.subrange(start, idx);
                let after = text@.subrange(start, idx + 1);
                assert(after.drop_last() =~= before);
                assert(after.last() == c);
            }
            acc = acc * 10 + d;
            any = true;
            if acc > MAGNITUDE_LIMIT {
                proof {
                    let body = text@.skip(start);
                    if is_digits(body) {
                        lemma_prefix_value(body, idx + 1 - start);
                        assert(body.take(idx + 1 - start) =~= text@.subrange(start, idx + 1));
                    }
                    assert(text@.skip(0) =~= text@);
                }
                return None;
            }
        } else {
            proof {
                let body = text@.skip(start);
                assert(body[idx - start] == c);
                assert(text@.skip(0) =~= text@);
            }
            return None;
        }
        first = false;
    }
    proof {
        assert(text@.subrange(start, text@.len() as int) =~= text@.skip(start));
        assert(text@.skip(0) =~= text@);
    }
    if !any {
        return None;
    }
    let value: i128 = if negative { -acc } else { acc };
    if lo as i128 <= value && value <= hi as i128 {
        Some(value as i64)
    } else {
        None
    }
}

/// A fixed-width integer type that can be read from decimal text.
pub trait Decimal: Sized {
    /// Whether the type's grammar admits a leading `-`.
    spec fn signed() -> bool;

    /// The least number that the type holds.
    spec fn least() -> int;

    /// The greatest number that the type holds.
    spec fn greatest() -> int;

    /// The number that `self` holds.
    spec fn number(&self) -> int;

    /// Reads `text` by the type's grammar: `Some` exactly where `text` is a
    /// decimal literal whose number the type holds, and then that number.
    fn from_decimal(text: &str) -> (r: Option<Self>)
        ensures
            match r {
                Some(v) => bounded_value(text@, Self::signed(), Self::least(), Self::greatest())
                    == Some(v.number()),
                None => bounded_value(text@, Self::signed(), Self::least(), Self::greatest())
                    is None,
            },
    ;
}

/// The number that `s` denotes by the grammar of `T`, where `T` holds it.
pub open spec fn typed_value<T: Decimal>(s: Seq<char>) -> Option<int> {
    bounded_value(s, T::signed(), T::least(), T::greatest())
}

impl Decimal for i64 {
    open spec fn signed() -> bool {
        true
    }

    open spec fn least() -> int {
        i64::MIN as int
    }

    open spec fn greatest() -> int {
        i64::MAX as int
    }

    open spec fn number(&self) -> int {
        *self as int
    }

    fn from_decimal(text: &str) -> (r: Option<i64>) {
        parse_bounded(text, true, i64::MIN, i64::MAX)
    }
}

impl Decimal for u16 {
    open spec fn signed() -> bool {
        false
    }

    open spec fn least() -> int {
        0
    }

    open spec fn greatest() -> int {
        u16::MAX as int
    }

    open spec fn number(&self) -> int {
        *self as int
    }

    fn from_decimal(text: &str) -> (r: Option<u16>) {
        match parse_bounded(text, false, 0, 65535) {
            Some(v) => Some(v as u16),
            None => None,
        }
    }
}

/// The ASCII digit that stands for `d`, for `d` in `0 ..= 9`.
pub open spec fn digit_char(d: int) -> char {
    if d == 0 {
        '0'
    } else if d == 1 {
        '1'
    } else if d == 2 {
        '2'
    } else if d == 3 {
        '3'
    } else if d == 4 {
        '4'
    } else if d == 5 {
        '5'
    } else if d == 6 {
        '6'
    } else if d == 7 {
        '7'
    } else if d == 8 {
        '8'
    } else {
        '9'
    }
}

/// The shortest run of digits that denotes `n` in base ten.
pub open spec fn nat_text(n: nat) -> Seq<char>
    decreases n,
{
    if n < 10 {
        seq![digit_char(n as int)]
    } else {
        nat_text(n / 10).push(digit_char((n % 10) as int))
    }
}

/// The decimal text of `i`: a `-` where `i` is negative, then the shortest
/// run of digits that denotes its magnitude.
pub open spec fn int_text(i: int) -> Seq<char> {
    if i < 0 {
        seq!['-'] + nat_text((-i) as nat)
    } else {
        nat_text(i as nat)
    }
}

/// The one-character text of the digit `d`.
fn digit_str(d: u64) -> (s: &'static str)
    requires
        d < 10,
    ensures
        s@ == seq![digit_char(d as int)],
{
    proof {
        reveal_strlit("0");
        reveal_strlit("1");
        reveal_strlit("2");
        reveal_strlit("3");
        reveal_strlit("4");
        reveal_strlit("5");
        reveal_strlit("6");
        reveal_strlit("7");
        reveal_strlit("8");
        reveal_strlit("9");
    }
    let s = if d == 0 {
        "0"
    } else if d == 1 {
        "1"
    } else if d == 2 {
        "2"
    } else if d == 3 {
        "3"
    } else if d == 4 {
        "4"
    } else if d == 5 {
        "5"
    } else if d == 6 {
        "6"
    } else if d == 7 {
        "7"
    } else if d == 8 {
        "8"
    } else {
        "9"
    };
    assert(s@ =~= seq![digit_char(d as int)]);
    s
}

/// Appends the decimal text of `n` to `out`.
fn append_nat(out: &mut String, n: u64)
    ensures
        final(out)@ == old(out)@ + nat_text(n as nat),
    decreases n,
{
    if n >= 10 {
        append_nat(out, n / 10);
    }
    out.append(digit_str(n % 10));
    assert(out@ =~= old(out)@ + nat_text(n as nat));
}

/// The decimal text of `i`.
pub fn int_to_string(i: i64) -> (s: String)
    ensures
        s@ == int_text(i as int),
{
    let mut s = String::new();
    if i < 0 {
        proof {
            reveal_strlit("-");
        }
        s.append("-");
        let magnitude: u64 = (-(i + 1)) as u64 + 1;
        append_nat(&mut s, magnitude);
        assert(s@ =~= seq!['-'] + nat_text((-i) as nat));
    } else {
        append_nat(&mut s, i as u64);
        assert(s@ =~= nat_text(i as nat));
    }
    s
}

/// The text of a natural number is a run of digits that denotes it.
pub proof fn lemma_nat_text_denotes(n: nat)
    ensures
        is_digits(nat_text(n)),
        digits_value(nat_text(n)) == n,
    decreases n,
{
    if n < 10 {
        assert(nat_text(n).drop_last() =~= Seq::<char>::empty());
        reveal_with_fuel(digits_value, 2);
    } else {
        lemma_nat_text_denotes(n / 10);
        assert(nat_text(n).drop_last() =~= nat_text(n / 10));
    }
}

/// Reading the decimal text of a number gives the number back: of every
/// number with a sign admitted, of a number that is not negative without.
pub proof fn lemma_text_round_trip(i: int)
    ensures
        literal_value(int_text(i), true) == Some(i),
        i >= 0 ==> literal_value(int_text(i), false) == Some(i),
{
    if i < 0 {
        lemma_nat_text_denotes((-i) as nat);
        assert(int_text(i).skip(1) =~= nat_text((-i) as nat));
    } else {
        lemma_nat_text_denotes(i as nat);
        assert(is_digit(nat_text(i as nat)[0]));
    }
}

} // verus!
