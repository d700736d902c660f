//! Character sequences: what the token grammar scans.

use vstd::prelude::*;
use vstd::string::*;

verus! {

/// The sets of characters that the token grammar tells apart.
#[derive(Debug, Clone, Copy, PartialEq, Eq)]
pub enum CharClass {
    /// Any character but `=`: the key of a query parameter.
    QueryKey,
    /// Any character but `.`, `[`, `=` and `:`: a key written without brackets.
    BareKey,
    /// Any character but `]`: a key written in brackets.
    BracketKey,
    /// An ASCII letter or digit, `_` or `-`: the name of a header.
    HeaderName,
    /// An ASCII decimal digit.
    Digit,
}

impl CharClass {
    /// Whether the class holds the character.
    pub open spec fn has(self, c: char) -> bool {
        match self {
            CharClass::QueryKey => c != '=',
            CharClass::BareKey => c != '.' && c != '[' && c != '=' && c != ':',
            CharClass::BracketKey => c != ']',
            CharClass::HeaderName => ('A' <= c && c <= 'Z') || ('a' <= c && c <= 'z') || ('0' <= c
                && c <= '9') || c == '_' || c == '-',
            CharClass::Digit => '0' <= c && c <= '9',
        }
    }

    /// Whether the class holds the character.
    pub fn contains(self, c: char) -> (held: bool)
        ensures
            held == self.has(c),
    {
        match self {
            CharClass::QueryKey => c != '=',
            CharClass::BareKey => c != '.' && c != '[' && c != '=' && c != ':',
            CharClass::BracketKey => c != ']',
            CharClass::HeaderName => ('A' <= c && c <= 'Z') || ('a' <= c && c <= 'z') || ('0' <= c
                && c <= '9') || c == '_' || c == '-',
            CharClass::Digit => '0' <= c && c <= '9',
        }
    }
}

/// The length of the longest run of characters of `class` that starts at
/// `from`; zero where `from` is no position of `s`.
pub open spec fn run_len(s: Seq<char>, from: int, class: CharClass) -> int
    decreases s.len() - from,
{
    if 0 <= from < s.len() && class.has(s[from]) {
        1 + run_len(s, from + 1, class)
    } else {
        0
    }
}

/// A run ends inside the sequence, holds only characters of its class, and
/// is followed by none of them.
pub proof fn lemma_run_len(s: Seq<char>, from: int, class: CharClass)
    requires
        0 <= from <= s.len(),
    ensures
        0 <= run_len(s, from, class) <= s.len() - from,
        forall|i: int| from <= i < from + run_len(s, from, class) ==> class.has(#[trigger] s[i]),
        from + run_len(s, from, class) < s.len() ==> !class.has(
            s[from + run_len(s, from, class)],
        ),
    decreases s.len() - from,
{
    if from < s.len() && class.has(s[from]) {
        lemma_run_len(s, from + 1, class);
    }
}

/// A stretch of characters of one class that is followed by the end or by a
/// character outside the class is the run that starts there.
pub proof fn lemma_run_len_is(s: Seq<char>, from: int, len: int, class: CharClass)
    requires
        0 <= from,
        0 <= len,
        from + len <= s.len(),
        forall|i: int| from <= i < from + len ==> class.has(#[trigger] s[i]),
        from + len < s.len() ==> !class.has(s[from + len]),
    ensures
        run_len(s, from, class) == len,
    decreases len,
{
    if len > 0 {
        lemma_run_len_is(s, from + 1, len - 1, class);
    }
}

/// The end of the longest run of characters of `class` that starts at `from`.
pub fn scan_run(s: &Vec<char>, from: usize, class: CharClass) -> (end: usize)
    requires
        from <= s@.len(),
    ensures
        end == from + run_len(s@, from as int, class),
        from <= end <= s@.len(),
{
    let mut end: usize = from;
    while end < s.len() && class.contains(s[end])
        invariant
            from <= end <= s@.len(),
            forall|i: int| from <= i < end ==> class.has(#[trigger] s@[i]),
        decreases s@.len() - end,
    {
        end += 1;
    }
    proof {
        lemma_run_len_is(s@, from as int, end - from, class);
    }
    end
}

/// The number that a sequence of decimal digits writes; a character that is
/// no digit counts as zero.
pub open spec fn decimal_value(digits: Seq<char>) -> nat
    decreases digits.len(),
{
    if digits.len() == 0 {
        0
    } else {
        10 * decimal_value(digits.drop_last()) + digit_value(digits.last())
    }
}

/// The number that one decimal digit writes.
pub open spec fn digit_value(c: char) -> nat {
    if '0' <= c && c <= '9' {
        (c as u32 - '0' as u32) as nat
    } else {
        0
    }
}

/// A number never shrinks when a digit is written behind it.
pub proof fn lemma_decimal_value_grows(digits: Seq<char>, len: int)
    requires
        0 <= len <= digits.len(),
    ensures
        decimal_value(digits.take(len)) <= decimal_value(digits),
    decreases digits.len() - len,
{
    if len < digits.len() {
        lemma_decimal_value_grows(digits.drop_last(), len);
        assert(digits.drop_last().take(len) =~= digits.take(len));
    } else {
        assert(digits.take(len) =~= digits);
    }
}

/// The number that the digits of `s` from `from` to `to` write, where it
/// fits in 32 bits.
pub fn parse_decimal(s: &Vec<char>, from: usize, to: usize) -> (value: Option<u32>)
    requires
        from <= to <= s@.len(),
        forall|i: int| from <= i < to ==> CharClass::Digit.has(#[trigger] s@[i]),
    ensures
        value == if decimal_value(s@.subrange(from as int, to as int)) <= u32::MAX {
            Some(decimal_value(s@.subrange(from as int, to as int)) as u32)
        } else {
            None
        },
{
    let ghost digits = s@.subrange(from as int, to as int);
    let mut value: u32 = 0;
    let mut at: usize = from;
    proof {
        assert(digits.take(0) =~= Seq::<char>::empty());
    }
    while at < to
        invariant
            from <= at <= to <= s@.len(),
            digits == s@.subrange(from as int, to as int),
            forall|i: int| from <= i < to ==> CharClass::Digit.has(#[trigger] s@[i]),
            value == decimal_value(digits.take(at - from)),
        decreases to - at,
    {
        let c = s[at];
        let digit: u32 = c as u32 - '0' as u32;
        proof {
            let next = digits.take(at - from + 1);
            assert(next.drop_last() =~= digits.take(at - from));
            assert(next.last() == c);
            assert(decimal_value(next) == 10 * value + digit);
            lemma_decimal_value_grows(digits, at - from + 1);
        }
        if value > (u32::MAX - digit) / 10 {
            return None;
        }
        value = value * 10 + digit;
        at += 1;
    }
    proof {
        assert(digits.take(to - from) =~= digits);
    }
    Some(value)
}

/// The characters of a string, in order.
pub fn chars_of(text: &str) -> (chars: Vec<char>)
    ensures
        chars@ == text@,
{
    let mut chars: Vec<char> = Vec::new();
    for c in it: text.chars()
        invariant
            chars@ == it.seq().take(it.index()),
            it.seq() == text@,
    {
        chars.push(c);
    }
    chars
}

/// The characters of `text` from `from` to `to`, as a string of their own.
pub fn slice_of(text: &str, from: usize, to: usize) -> (part: String)
    requires
        from <= to <= text@.len(),
    ensures
        part@ == text@.subrange(from as int, to as int),
{
    text.substring_char(from, to).to_owned()
}

/// Whether two strings hold the same characters.
pub fn same_text(left: &str, right: &str) -> (same: bool)
    ensures
        same == (left@ == right@),
{
    let a = chars_of(left);
    let b = chars_of(right);
    if a.len() != b.len() {
        return false;
    }
    let mut at: usize = 0;
    while at < a.len()
        invariant
            at <= a@.len(),
            a@.len() == b@.len(),
            a@ == left@,
            b@ == right@,
            forall|i: int| 0 <= i < at ==> a@[i] == b@[i],
        decreases a@.len() - at,
    {
        if a[at] != b[at] {
            return false;
        }
        at += 1;
    }
    proof {
        assert(a@ =~= b@);
    }
    true
}

/// Whether `text` begins with the characters of `prefix`.
pub open spec fn has_prefix(text: Seq<char>, prefix: Seq<char>) -> bool {
    prefix.len() <= text.len() && text.subrange(0, prefix.len() as int) == prefix
}

/// Whether `text` begins with `prefix`.
pub fn starts_with(text: &str, prefix: &str) -> (begins: bool)
    ensures
        begins == has_prefix(text@, prefix@),
{
    let a = chars_of(text);
    let b = chars_of(prefix);
    if a.len() < b.len() {
        return false;
    }
    let mut at: usize = 0;
    while at < b.len()
        invariant
            at <= b@.len() <= a@.len(),
            a@ == text@,
            b@ == prefix@,
            forall|i: int| 0 <= i < at ==> a@[i] == b@[i],
        decreases b@.len() - at,
    {
        if a[at] != b[at] {
            proof {
                assert(a@.subrange(0, b@.len() as int)[at as int] == a@[at as int]);
            }
            return false;
        }
        at += 1;
    }
    proof {
        assert(a@.subrange(0, b@.len() as int) =~= b@);
    }
    true
}

/// The strings one after another, as one string.
pub fn concat(first: &str, second: &str) -> (whole: String)
    ensures
        whole@ == first@ + second@,
{
    first.to_owned().concat(second)
}

/// The decimal digit that writes a number below ten.
pub open spec fn digit_char(digit: nat) -> char {
    if digit == 0 {
        '0'
    } else if digit == 1 {
        '1'
    } else if digit == 2 {
        '2'
    } else if digit == 3 {
        '3'
    } else if digit == 4 {
        '4'
    } else if digit == 5 {
        '5'
    } else if digit == 6 {
        '6'
    } else if digit == 7 {
        '7'
    } else if digit == 8 {
        '8'
    } else {
        '9'
    }
}

/// The decimal digits that write a number, without leading zeros.
pub open spec fn decimal_text(n: nat) -> Seq<char>
    decreases n,
{
    if n < 10 {
        seq![digit_char(n)]
    } else {
        decimal_text(n / 10).push(digit_char(n % 10))
    }
}

/// The string that holds one decimal digit.
fn digit_str(digit: u16) -> (text: &'static str)
    requires
        digit < 10,
    ensures
        text@ == seq![digit_char(digit as nat)],
{
    proof {
        reveal_strlit("0");
        reveal_strlit("1");
        reveal_strlit("2");
        reveal_strlit("3");
        reveal_strlit("4");
        reveal_strlit("5");
        reveal_strlit("6");
        reveal_strlit("7");
        reveal_strlit("8");
        reveal_strlit("9");
    }
    let text = if digit == 0 {
        "0"
    } else if digit == 1 {
        "1"
    } else if digit == 2 {
        "2"
    } else if digit == 3 {
        "3"
    } else if digit == 4 {
        "4"
    } else if digit == 5 {
        "5"
    } else if digit == 6 {
        "6"
    } else if digit == 7 {
        "7"
    } else if digit == 8 {
        "8"
    } else {
        "9"
    };
    proof {
        assert(text@ =~= seq![digit_char(digit as nat)]);
    }
    text
}

/// A number in decimal digits, without leading zeros.
pub fn decimal_string(n: u16) -> (text: String)
    ensures
        text@ == decimal_text(n as nat),
    decreases n,
{
    if n < 10 {
        digit_str(n).to_owned()
    } else {
        let mut text = decimal_string(n / 10);
        text.append(digit_str(n % 10));
        proof {
            assert(text@ =~= decimal_text((n / 10) as nat).push(digit_char((n % 10) as nat)));
        }
        text
    }
}

} // verus!
