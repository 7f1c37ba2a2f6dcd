//! Source text primitives: owned strings and byte spans.

use vstd::prelude::*;
use vstd::string::*;

verus! {

/// An owned piece of text (an identifier, a label, a message).
#[derive(Debug, Clone, PartialEq, Eq, Hash, PartialOrd, Ord, Default)]
pub struct Text {
    pub value: String,
}

impl View for Text {
    type V = Seq<char>;

    open spec fn view(&self) -> Seq<char> {
        self.value@
    }
}

impl Text {
    /// Build a text from a string slice.
    pub fn new(s: &str) -> (r: Text)
        ensures
            r@ == s@,
    {
        Text { value: String::from_str(s) }
    }

    /// The text as a string slice.
    pub fn as_str(&self) -> (r: &str)
        ensures
            r@ == self@,
    {
        self.value.as_str()
    }

    /// Whether this text holds the same characters as `s`.
    pub fn equals_str(&self, s: &str) -> (r: bool)
        ensures
            r == (self@ == s@),
    {
        let a = self.value.as_str();
        let n = a.unicode_len();
        if n != s.unicode_len() {
            return false;
        }
        let mut i: usize = 0;
        while i < n
            invariant
                n == a@.len(),
                n == s@.len(),
                a@ == self@,
                0 <= i <= n,
                forall|j: int| 0 <= j < i ==> a@[j] == s@[j],
            decreases n - i,
        {
            if a.get_char(i) != s.get_char(i) {
                return false;
            }
            i = i + 1;
        }
        assert(a@ =~= s@);
        true
    }

    /// A copy of this text with the same characters.
    pub fn duplicate(&self) -> (r: Text)
        ensures
            r@ == self@,
    {
        Text { value: self.value.clone() }
    }
}

/// A half-open byte range `[start, start + length)` into a source file.
#[derive(Debug, Copy, Clone, PartialEq, Eq, Hash, PartialOrd, Ord, Default)]
pub struct Span {
    pub start: usize,
    pub length: usize,
}

impl Span {
    /// Create a span from its start offset and length.
    pub fn new(start: usize, length: usize) -> (r: Span)
        ensures
            r.start == start,
            r.length == length,
    {
        Span { start, length }
    }

    /// The offset one past the last byte of the span.
    pub fn end(&self) -> (r: usize)
        requires
            self.start + self.length <= usize::MAX,
        ensures
            r == self.start + self.length,
    {
        self.start + self.length
    }

    /// The span as a `start..end` range.
    pub fn to_range(self) -> (r: std::ops::Range<usize>)
        requires
            self.start + self.length <= usize::MAX,
        ensures
            r.start == self.start,
            r.end == self.start + self.length,
    {
        std::ops::Range { start: self.start, end: self.start + self.length }
    }

    /// The piece of `text` that the span covers; spans count bytes, which
    /// are characters in ASCII text.
    pub fn lookup<'a>(self, text: &'a str) -> (r: &'a str)
        requires
            text.is_ascii(),
            self.start + self.length <= text@.len(),
            self.start + self.length <= usize::MAX,
        ensures
            r@ == text@.subrange(self.start as int, self.start + self.length),
    {
        text.substring_ascii(self.start, self.start + self.length)
    }
}

/// The character of a decimal digit.
pub open spec fn digit_char(d: nat) -> char {
    if d == 0 {
        '0'
    } else if d == 1 {
        '1'
    } else if d == 2 {
        '2'
    } else if d == 3 {
        '3'
    } else if d == 4 {
        '4'
    } else if d == 5 {
        '5'
    } else if d == 6 {
        '6'
    } else if d == 7 {
        '7'
    } else if d == 8 {
        '8'
    } else {
        '9'
    }
}

/// Whether `c` is one of `0` to `9`.
pub open spec fn is_digit(c: char) -> bool {
    '0' <= c && c <= '9'
}

/// The value of a decimal digit character.
pub open spec fn digit_value(c: char) -> int {
    c as int - '0' as int
}

/// The decimal representation of `n`, without leading zeros.
pub open spec fn decimal(n: nat) -> Seq<char>
    decreases n,
{
    if n < 10 {
        seq![digit_char(n)]
    } else {
        decimal(n / 10).push(digit_char(n % 10))
    }
}

/// Whether `s` is a non-empty run of decimal digits.
pub open spec fn is_decimal(s: Seq<char>) -> bool {
    s.len() > 0 && forall|i: int| 0 <= i < s.len() ==> is_digit(#[trigger] s[i])
}

/// The value of a run of decimal digits.
pub open spec fn decimal_value(s: Seq<char>) -> int
    decreases s.len(),
{
    if s.len() == 0 {
        0
    } else {
        decimal_value(s.drop_last()) * 10 + digit_value(s.last())
    }
}

/// Reading back the decimal representation of `n` gives `n`.
pub proof fn lemma_decimal_round_trip(n: nat)
    ensures
        is_decimal(decimal(n)),
        decimal_value(decimal(n)) == n,
    decreases n,
{
    lemma_digit_round_trip((n % 10) as nat);
    if n >= 10 {
        lemma_decimal_round_trip(n / 10);
        assert(n == (n / 10) * 10 + n % 10);
        let d = decimal(n);
        assert(d.drop_last() =~= decimal(n / 10));
        assert forall|i: int| 0 <= i < d.len() implies is_digit(#[trigger] d[i]) by {
            if i < d.len() - 1 {
                assert(d[i] == decimal(n / 10)[i]);
            }
        }
        assert(decimal_value(d) == decimal_value(decimal(n / 10)) * 10 + digit_value(
            digit_char((n % 10) as nat),
        ));
    } else {
        assert(decimal(n).drop_last() =~= Seq::<char>::empty());
        assert(decimal(n).last() == digit_char(n));
        assert(decimal_value(Seq::<char>::empty()) == 0);
        lemma_digit_round_trip(n);
        assert(decimal_value(decimal(n)) == decimal_value(decimal(n).drop_last()) * 10
            + digit_value(decimal(n).last()));
    }
}

/// A digit character reads back as its digit.
proof fn lemma_digit_round_trip(d: nat)
    requires
        d < 10,
    ensures
        is_digit(digit_char(d)),
        digit_value(digit_char(d)) == d,
{
}

/// Different numbers have different decimal representations.
pub proof fn lemma_decimal_injective(a: nat, b: nat)
    ensures
        decimal(a) == decimal(b) ==> a == b,
{
    lemma_decimal_round_trip(a);
    lemma_decimal_round_trip(b);
}

/// The literal holding the one digit `d`.
fn digit_str(d: u64) -> (r: &'static str)
    requires
        d < 10,
    ensures
        r@ == seq![digit_char(d as nat)],
{
    proof {
        reveal_strlit("0");
        reveal_strlit("1");
        reveal_strlit("2");
        reveal_strlit("3");
        reveal_strlit("4");
        reveal_strlit("5");
        reveal_strlit("6");
        reveal_strlit("7");
        reveal_strlit("8");
        reveal_strlit("9");
    }
    if d == 0 {
        "0"
    } else if d == 1 {
        "1"
    } else if d == 2 {
        "2"
    } else if d == 3 {
        "3"
    } else if d == 4 {
        "4"
    } else if d == 5 {
        "5"
    } else if d == 6 {
        "6"
    } else if d == 7 {
        "7"
    } else if d == 8 {
        "8"
    } else {
        "9"
    }
}

/// Append the decimal representation of `n` to `out`.
pub fn push_decimal(out: &mut String, n: u64)
    ensures
        final(out)@ == old(out)@ + decimal(n as nat),
    decreases n,
{
    if n >= 10 {
        push_decimal(out, n / 10);
    }
    out.append(digit_str(n % 10));
    assert(final(out)@ =~= old(out)@ + decimal(n as nat));
}

/// Parse a run of decimal digits as an `i32`: `None` where `s` is not such a
/// run or its value exceeds `i32::MAX`.
pub fn parse_decimal_i32(s: &str) -> (r: Option<i32>)
    ensures
        r == (if is_decimal(s@) && decimal_value(s@) <= i32::MAX {
            Some(decimal_value(s@) as i32)
        } else {
            None
        }),
{
    let n = s.unicode_len();
    if n == 0 {
        return None;
    }
    let mut acc: i64 = 0;
    let mut i: usize = 0;
    while i < n
        invariant
            n == s@.len(),
            0 <= i <= n,
            forall|j: int| 0 <= j < i ==> is_digit(#[trigger] s@[j]),
            acc == decimal_value(s@.subrange(0, i as int)),
            0 <= acc <= i32::MAX,
        decreases n - i,
    {
        let c = s.get_char(i);
        if !('0' <= c && c <= '9') {
            return None;
        }
        assert(s@.subrange(0, i + 1).drop_last() =~= s@.subrange(0, i as int));
        let next = acc * 10 + (c as i64 - '0' as i64);
        if next > i32::MAX as i64 {
            proof {
                if is_decimal(s@) {
                    lemma_decimal_prefix_bound(s@, i as int + 1);
                }
            }
            return None;
        }
        acc = next;
        i = i + 1;
    }
    assert(s@.subrange(0, n as int) =~= s@);
    Some(acc as i32)
}

/// The value of a run of digits is at least that of any of its prefixes.
proof fn lemma_decimal_prefix_bound(s: Seq<char>, k: int)
    requires
        0 <= k <= s.len(),
        forall|i: int| 0 <= i < s.len() ==> is_digit(#[trigger] s[i]),
    ensures
        decimal_value(s) >= decimal_value(s.subrange(0, k)),
    decreases s.len() - k,
{
    if k < s.len() {
        lemma_decimal_prefix_bound(s, k + 1);
        assert(s.subrange(0, k + 1).drop_last() =~= s.subrange(0, k));
        lemma_decimal_nonneg(s.subrange(0, k));
    }
    assert(s.subrange(0, s.len() as int) =~= s);
}

/// A run of digits has a non-negative value.
proof fn lemma_decimal_nonneg(s: Seq<char>)
    requires
        forall|i: int| 0 <= i < s.len() ==> is_digit(#[trigger] s[i]),
    ensures
        decimal_value(s) >= 0,
    decreases s.len(),
{
    if s.len() > 0 {
        let t = s.drop_last();
        assert forall|i: int| 0 <= i < t.len() implies is_digit(#[trigger] t[i]) by {
            assert(t[i] == s[i]);
        }
        lemma_decimal_nonneg(t);
        assert(is_digit(s[s.len() - 1]));
    }
}

} // verus!
