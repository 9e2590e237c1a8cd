//! Decimal notation of integers: the text of a number and the number of a text.
use vstd::prelude::*;
use vstd::string::*;

verus! {

/// The character that stands for the digit `d`.
pub open spec fn digit_char(d: int) -> char {
    if d == 0 {
        '0'
    } else if d == 1 {
        '1'
    } else if d == 2 {
        '2'
    } else if d == 3 {
        '3'
    } else if d == 4 {
        '4'
    } else if d == 5 {
        '5'
    } else if d == 6 {
        '6'
    } else if d == 7 {
        '7'
    } else if d == 8 {
        '8'
    } else {
        '9'
    }
}

/// The digit that `c` stands for, if it is one of `'0'` to `'9'`.
pub open spec fn digit_value(c: char) -> Option<int> {
    if c == '0' {
        Some(0)
    } else if c == '1' {
        Some(1)
    } else if c == '2' {
        Some(2)
    } else if c == '3' {
        Some(3)
    } else if c == '4' {
        Some(4)
    } else if c == '5' {
        Some(5)
    } else if c == '6' {
        Some(6)
    } else if c == '7' {
        Some(7)
    } else if c == '8' {
        Some(8)
    } else if c == '9' {
        Some(9)
    } else {
        None
    }
}

/// The digits of `n`, most significant first, without leading zeros.
pub open spec fn natural_text(n: nat) -> Seq<char>
    decreases n,
{
    if n < 10 {
        seq![digit_char(n as int)]
    } else {
        natural_text(n / 10).push(digit_char((n % 10) as int))
    }
}

/// The decimal notation of `n`: a minus sign for a negative number, then the
/// digits of its magnitude.
pub open spec fn decimal_text(n: int) -> Seq<char> {
    if n < 0 {
        seq!['-'] + natural_text((-n) as nat)
    } else {
        natural_text(n as nat)
    }
}

/// Every character of `s` is a digit.
pub open spec fn all_digits(s: Seq<char>) -> bool {
    forall|i: int| 0 <= i < s.len() ==> (#[trigger] digit_value(s[i])) is Some
}

/// The number that a sequence of digits denotes; leading zeros count for
/// nothing and the empty sequence denotes zero.
pub open spec fn digits_number(s: Seq<char>) -> nat
    decreases s.len(),
{
    if s.len() == 0 {
        0
    } else {
        match digit_value(s.last()) {
            Some(d) => (digits_number(s.drop_last()) * 10 + d) as nat,
            None => 0,
        }
    }
}

/// The integer that `s` denotes: an optional minus sign followed by one or
/// more digits. Any other text denotes no integer.
pub open spec fn decimal_value(s: Seq<char>) -> Option<int> {
    if s.len() > 0 && s[0] == '-' {
        let digits = s.subrange(1, s.len() as int);
        if digits.len() > 0 && all_digits(digits) {
            Some(-(digits_number(digits) as int))
        } else {
            None
        }
    } else if s.len() > 0 && all_digits(s) {
        Some(digits_number(s) as int)
    } else {
        None
    }
}

/// The digits of a natural number are digits, at least one of them, and
/// denote that number.
pub proof fn lemma_natural_text(n: nat)
    ensures
        natural_text(n).len() > 0,
        all_digits(natural_text(n)),
        digits_number(natural_text(n)) == n,
    decreases n,
{
    if n < 10 {
        let t = natural_text(n);
        assert(t.drop_last() =~= Seq::<char>::empty());
        assert(digits_number(t.drop_last()) == 0);
    } else {
        lemma_natural_text(n / 10);
        let head = natural_text(n / 10);
        let t = natural_text(n);
        assert(t.drop_last() =~= head);
        assert(t.last() == digit_char((n % 10) as int));
        assert forall|i: int| 0 <= i < t.len() implies (#[trigger] digit_value(t[i])) is Some by {
            if i < head.len() {
                assert(t[i] == head[i]);
            }
        }
    }
}

/// Reading the decimal notation of an integer gives that integer back.
pub proof fn lemma_decimal_round_trip(n: int)
    ensures
        decimal_value(decimal_text(n)) == Some(n),
{
    if n < 0 {
        let m = (-n) as nat;
        lemma_natural_text(m);
        let t = decimal_text(n);
        assert(t.subrange(1, t.len() as int) =~= natural_text(m));
    } else {
        lemma_natural_text(n as nat);
        let t = natural_text(n as nat);
        assert(digit_value(t[0]) is Some);
    }
}

/// A sequence of digits denotes at least what any prefix of it denotes.
pub proof fn lemma_digits_number_prefix(s: Seq<char>, k: int)
    requires
        all_digits(s),
        0 <= k <= s.len(),
    ensures
        digits_number(s.take(k)) <= digits_number(s),
    decreases s.len() - k,
{
    if k == s.len() {
        assert(s.take(k) =~= s);
    } else {
        let front = s.drop_last();
        assert(digit_value(s.last()) is Some);
        assert forall|i: int| 0 <= i < front.len() implies (#[trigger] digit_value(front[i])) is Some by {
            assert(front[i] == s[i]);
        }
        lemma_digits_number_prefix(front, k);
        assert(front.take(k) =~= s.take(k));
    }
}

/// The one-character text of the digit `d`.
fn digit_text(d: u64) -> (s: &'static str)
    requires
        d < 10,
    ensures
        s@ == seq![digit_char(d as int)],
{
    proof {
        reveal_strlit("0");
        reveal_strlit("1");
        reveal_strlit("2");
        reveal_strlit("3");
        reveal_strlit("4");
        reveal_strlit("5");
        reveal_strlit("6");
        reveal_strlit("7");
        reveal_strlit("8");
        reveal_strlit("9");
    }
    let s = if d == 0 {
        "0"
    } else if d == 1 {
        "1"
    } else if d == 2 {
        "2"
    } else if d == 3 {
        "3"
    } else if d == 4 {
        "4"
    } else if d == 5 {
        "5"
    } else if d == 6 {
        "6"
    } else if d == 7 {
        "7"
    } else if d == 8 {
        "8"
    } else {
        "9"
    };
    assert(s@ =~= seq![digit_char(d as int)]);
    s
}

/// Writes a natural number in decimal notation.
pub fn natural_string(n: u64) -> (s: String)
    ensures
        s@ == natural_text(n as nat),
    decreases n,
{
    if n < 10 {
        digit_text(n).to_owned()
    } else {
        let mut s = natural_string(n / 10);
        s.append(digit_text(n % 10));
        assert(s@ =~= natural_text((n / 10) as nat).push(digit_char((n % 10) as int)));
        s
    }
}

/// Writes an integer in decimal notation.
pub fn decimal_string(n: i64) -> (s: String)
    ensures
        s@ == decimal_text(n as int),
{
    if n < 0 {
        let magnitude: u64 = if n == i64::MIN {
            9223372036854775808
        } else {
            (-n) as u64
        };
        proof {
            reveal_strlit("-");
        }
        let mut s = "-".to_owned();
        let digits = natural_string(magnitude);
        s.append(digits.as_str());
        assert(s@ =~= seq!['-'] + natural_text((-n) as nat));
        s
    } else {
        natural_string(n as u64)
    }
}

/// The digit that `c` stands for, if it is one.
fn digit_of(c: char) -> (d: Option<u64>)
    ensures
        match d {
            Some(v) => digit_value(c) == Some(v as int),
            None => digit_value(c) is None,
        },
{
    if c == '0' {
        Some(0)
    } else if c == '1' {
        Some(1)
    } else if c == '2' {
        Some(2)
    } else if c == '3' {
        Some(3)
    } else if c == '4' {
        Some(4)
    } else if c == '5' {
        Some(5)
    } else if c == '6' {
        Some(6)
    } else if c == '7' {
        Some(7)
    } else if c == '8' {
        Some(8)
    } else if c == '9' {
        Some(9)
    } else {
        None
    }
}

/// The integer that `s` denotes, where it denotes one that fits in 64 bits.
pub open spec fn decimal_value_i64(s: Seq<char>) -> Option<i64> {
    match decimal_value(s) {
        Some(n) => if i64::MIN <= n <= i64::MAX {
            Some(n as i64)
        } else {
            None
        },
        None => None,
    }
}

/// Reads an integer in decimal notation: an optional minus sign, then one or
/// more digits. Returns `None` for any other text and for a number that does
/// not fit in 64 bits.
pub fn parse_decimal(s: &str) -> (r: Option<i64>)
    ensures
        r == decimal_value_i64(s@),
{
    let len = s.unicode_len();
    if len == 0 {
        return None;
    }
    let negative = s.get_char(0) == '-';
    let start: usize = if negative { 1 } else { 0 };
    if start == len {
        assert(s@.subrange(1, s@.len() as int).len() == 0);
        return None;
    }
    let ghost digits = s@.subrange(start as int, len as int);
    let mut acc: u64 = 0;
    let mut i: usize = start;
    while i < len
        invariant
            start <= i <= len,
            len == s@.len(),
            negative == (s@[0] == '-'),
            start == if negative { 1usize } else { 0usize },
            digits == s@.subrange(start as int, len as int),
            all_digits(digits.take(i - start)),
            acc == digits_number(digits.take(i - start)),
            acc <= 9223372036854775809,
        decreases len - i,
    {
        let c = s.get_char(i);
        let ghost k = i - start;
        assert(digits[k] == c);
        match digit_of(c) {
            None => {
                assert(!all_digits(digits));
                assert(!negative ==> digits =~= s@);
                return None;
            },
            Some(d) => {
                proof {
                    let next = digits.take(k + 1);
                    assert(next.drop_last() =~= digits.take(k));
                    assert(next.last() == c);
                    assert forall|j: int| 0 <= j < next.len() implies (#[trigger] digit_value(
                        next[j],
                    )) is Some by {
                        if j < k {
                            assert(next[j] == digits.take(k)[j]);
                        }
                    }
                    assert(digits_number(next) == acc * 10 + d);
                }
                if acc > 922337203685477580 {
                    proof {
                        assert(!negative ==> digits =~= s@);
                        if all_digits(digits) {
                            lemma_digits_number_prefix(digits, k + 1);
                        }
                    }
                    return None;
                }
                acc = acc * 10 + d;
                i = i + 1;
            },
        }
    }
    assert(digits.take(i - start) =~= digits);
    assert(!negative ==> digits =~= s@);
    if negative {
        if acc > 9223372036854775808 {
            None
        } else if acc == 9223372036854775808 {
            Some(i64::MIN)
        } else {
            Some(-(acc as i64))
        }
    } else {
        if acc > 9223372036854775807 {
            None
        } else {
            Some(acc as i64)
        }
    }
}

} // verus!
