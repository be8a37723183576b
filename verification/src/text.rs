//! Text primitives: decimal numbers, trimming, searching and comparing.
//!
//! Text is modelled as its sequence of characters.

use vstd::prelude::*;
use vstd::string::*;

verus! {

// ---------------------------------------------------------------- models

/// The character that stands for the decimal digit `d`.
pub open spec fn digit_char(d: nat) -> char
    recommends
        d < 10,
{
    (48 + d) as char
}

/// Whether `c` is one of the ten ASCII digits.
pub open spec fn is_digit(c: char) -> bool {
    '0' <= c && c <= '9'
}

/// The number that the ASCII digit `c` stands for.
pub open spec fn digit_value(c: char) -> nat
    recommends
        is_digit(c),
{
    (c as int - 48) as nat
}

/// The shortest decimal text of `n`.
pub open spec fn decimal(n: nat) -> Seq<char>
    decreases n,
{
    if n < 10 {
        seq![digit_char(n)]
    } else {
        decimal(n / 10).push(digit_char(n % 10))
    }
}

/// Whether every character of `s` is an ASCII digit.
pub open spec fn all_digits(s: Seq<char>) -> bool {
    forall|i: int| 0 <= i < s.len() ==> is_digit(#[trigger] s[i])
}

/// The number that the digits of `s`, most significant first, spell out.
pub open spec fn digits_value(s: Seq<char>) -> nat
    decreases s.len(),
{
    if s.len() == 0 {
        0
    } else {
        digits_value(s.drop_last()) * 10 + digit_value(s.last())
    }
}

/// What is left of `s` without one leading plus sign.
pub open spec fn without_plus(s: Seq<char>) -> Seq<char> {
    if s.len() > 0 && s[0] == '+' {
        s.skip(1)
    } else {
        s
    }
}

/// The unsigned number that `s` denotes: an optional plus sign and then at
/// least one digit, with a value of at most `max`.
pub open spec fn unsigned_of(s: Seq<char>, max: nat) -> Option<nat> {
    let digits = without_plus(s);
    if digits.len() > 0 && all_digits(digits) && digits_value(digits) <= max {
        Some(digits_value(digits))
    } else {
        None
    }
}

/// The characters with the Unicode property White_Space.
pub open spec fn is_space(c: char) -> bool {
    let code = c as int;
    ||| 0x9 <= code <= 0xd
    ||| code == 0x20
    ||| code == 0x85
    ||| code == 0xa0
    ||| code == 0x1680
    ||| 0x2000 <= code <= 0x200a
    ||| code == 0x2028
    ||| code == 0x2029
    ||| code == 0x202f
    ||| code == 0x205f
    ||| code == 0x3000
}

/// `s` without its leading white space.
pub open spec fn trimmed_start(s: Seq<char>) -> Seq<char>
    decreases s.len(),
{
    if s.len() > 0 && is_space(s[0]) {
        trimmed_start(s.skip(1))
    } else {
        s
    }
}

/// `s` without its trailing white space.
pub open spec fn trimmed_end(s: Seq<char>) -> Seq<char>
    decreases s.len(),
{
    if s.len() > 0 && is_space(s.last()) {
        trimmed_end(s.drop_last())
    } else {
        s
    }
}

/// `s` without the white space at either end.
pub open spec fn trimmed(s: Seq<char>) -> Seq<char> {
    trimmed_end(trimmed_start(s))
}

/// `s` without the leading characters equal to `c`.
pub open spec fn without_leading(s: Seq<char>, c: char) -> Seq<char>
    decreases s.len(),
{
    if s.len() > 0 && s[0] == c {
        without_leading(s.skip(1), c)
    } else {
        s
    }
}

/// Whether `i` is the place of the first `c` in `s`.
pub open spec fn first_at(s: Seq<char>, c: char, i: int) -> bool {
    &&& 0 <= i < s.len()
    &&& s[i] == c
    &&& forall|j: int| 0 <= j < i ==> s[j] != c
}

// ---------------------------------------------------------------- lemmas

/// The decimal text of a number consists of digits, and is not empty.
pub proof fn lemma_decimal_digits(n: nat)
    ensures
        all_digits(decimal(n)),
        decimal(n).len() > 0,
    decreases n,
{
    if n >= 10 {
        lemma_decimal_digits(n / 10);
    }
}

/// The decimal text of a number spells out that number.
pub proof fn lemma_decimal_value(n: nat)
    ensures
        digits_value(decimal(n)) == n,
    decreases n,
{
    let s = decimal(n);
    if n >= 10 {
        lemma_decimal_value(n / 10);
        assert(s.drop_last() =~= decimal(n / 10));
    } else {
        assert(s.drop_last() =~= Seq::<char>::empty());
        assert(digits_value(Seq::<char>::empty()) == 0);
    }
}

/// Reading back the decimal text of a number gives the number.
pub proof fn law_decimal_is_read_back(n: nat, max: nat)
    requires
        n <= max,
    ensures
        unsigned_of(decimal(n), max) == Some(n),
{
    lemma_decimal_digits(n);
    lemma_decimal_value(n);
    assert(is_digit(decimal(n)[0]));
}

/// Taking digits away at the end does not make the number larger.
proof fn lemma_digits_value_take(s: Seq<char>, i: int)
    requires
        0 <= i <= s.len(),
    ensures
        digits_value(s.take(i)) <= digits_value(s),
    decreases s.len(),
{
    if i == s.len() {
        assert(s.take(i) =~= s);
    } else {
        lemma_digits_value_take(s.drop_last(), i);
        assert(s.drop_last().take(i) =~= s.take(i));
    }
}

// ---------------------------------------------------------------- functions

/// The text of the decimal digit `d`.
fn digit_text(d: u64) -> (r: &'static str)
    requires
        d < 10,
    ensures
        r@ == seq![digit_char(d as nat)],
{
    proof {
        reveal_strlit("0");
        reveal_strlit("1");
        reveal_strlit("2");
        reveal_strlit("3");
        reveal_strlit("4");
        reveal_strlit("5");
        reveal_strlit("6");
        reveal_strlit("7");
        reveal_strlit("8");
        reveal_strlit("9");
    }
    let r: &'static str = match d {
        0 => "0",
        1 => "1",
        2 => "2",
        3 => "3",
        4 => "4",
        5 => "5",
        6 => "6",
        7 => "7",
        8 => "8",
        _ => "9",
    };
    assert(r@ =~= seq![digit_char(d as nat)]);
    r
}

/// The shortest decimal text of `n`.
pub fn to_decimal(n: u64) -> (r: String)
    ensures
        r@ == decimal(n as nat),
    decreases n,
{
    if n < 10 {
        String::from_str(digit_text(n))
    } else {
        let mut r = to_decimal(n / 10);
        r.append(digit_text(n % 10));
        proof {
            let d = digit_char((n % 10) as nat);
            assert(decimal((n / 10) as nat) + seq![d] =~= decimal((n / 10) as nat).push(d));
        }
        r
    }
}

/// Reads an unsigned number of at most `max`, as the standard library does:
/// an optional plus sign and at least one digit, and nothing else.
pub fn parse_unsigned(text: &str, max: u64) -> (r: Option<u64>)
    ensures
        r matches Some(n) ==> unsigned_of(text@, max as nat) == Some(n as nat),
        r is None ==> unsigned_of(text@, max as nat) is None,
{
    let len: usize = text.unicode_len();
    let ghost digits = without_plus(text@);
    let start: usize = if len > 0 && text.get_char(0) == '+' { 1 } else { 0 };
    if len == start {
        return None;
    }
    let mut i: usize = start;
    let mut value: u64 = 0;
    assert(digits.take(0) =~= Seq::<char>::empty());
    while i < len
        invariant
            start <= i <= len,
            start <= 1,
            len == text@.len(),
            digits == without_plus(text@),
            digits.len() == len - start,
            forall|j: int| 0 <= j < digits.len() ==> digits[j] == text@[j + start],
            all_digits(digits.take(i - start)),
            value == digits_value(digits.take(i - start)),
            value <= max,
        decreases len - i,
    {
        let c: char = text.get_char(i);
        let ghost k = i - start;
        assert(digits[k] == c);
        if !('0' <= c && c <= '9') {
            assert(!is_digit(digits[k]));
            return None;
        }
        let d: u64 = (c as u64) - 48;
        assert(digits.take(k + 1).drop_last() =~= digits.take(k));
        assert(digits.take(k + 1).last() == c);
        proof {
            assert forall|j: int| 0 <= j < k + 1 implies is_digit(#[trigger] digits.take(k + 1)[j]) by {
                if j < k {
                    assert(digits.take(k + 1)[j] == digits.take(k)[j]);
                }
            }
            lemma_digits_value_take(digits, k + 1);
        }
        if d > max || value > (max - d) / 10 {
            assert(digits_value(digits.take(k + 1)) > max);
            return None;
        }
        value = value * 10 + d;
        i = i + 1;
    }
    assert(digits.take(len - start) =~= digits);
    Some(value)
}

/// Whether `c` has the Unicode property White_Space.
fn char_is_space(c: char) -> (r: bool)
    ensures
        r == is_space(c),
{
    let code: u32 = c as u32;
    (0x9 <= code && code <= 0xd) || code == 0x20 || code == 0x85 || code == 0xa0 || code == 0x1680
        || (0x2000 <= code && code <= 0x200a) || code == 0x2028 || code == 0x2029 || code == 0x202f
        || code == 0x205f || code == 0x3000
}

/// `text` without the white space at either end.
pub fn trim(text: &str) -> (r: &str)
    ensures
        r@ == trimmed(text@),
{
    let len: usize = text.unicode_len();
    let mut from: usize = 0;
    assert(text@.skip(0) =~= text@);
    while from < len && char_is_space(text.get_char(from))
        invariant
            from <= len,
            len == text@.len(),
            trimmed_start(text@.skip(from as int)) == trimmed_start(text@),
        decreases len - from,
    {
        assert(text@.skip(from as int).skip(1) =~= text@.skip(from + 1));
        assert(text@.skip(from as int)[0] == text@[from as int]);
        from = from + 1;
    }
    let ghost rest = text@.skip(from as int);
    assert(from < len ==> rest[0] == text@[from as int]);
    assert(trimmed_start(text@) == rest);
    let mut to: usize = len;
    assert(rest.take(len - from) =~= rest);
    while to > from && char_is_space(text.get_char(to - 1))
        invariant
            from <= to <= len,
            len == text@.len(),
            rest == text@.skip(from as int),
            trimmed_end(rest.take(to - from)) == trimmed_end(rest),
        decreases to,
    {
        let ghost whole = rest.take(to - from);
        assert(whole.last() == text@[to - 1]);
        assert(whole.drop_last() =~= rest.take(to - 1 - from));
        to = to - 1;
    }
    proof {
        let whole = rest.take(to - from);
        if to > from {
            assert(whole.last() == text@[to - 1]);
        }
        assert(text@.subrange(from as int, to as int) =~= whole);
    }
    text.substring_char(from, to)
}

/// `text` without the leading characters equal to `c`.
pub fn skip_leading(text: &str, c: char) -> (r: &str)
    ensures
        r@ == without_leading(text@, c),
{
    let len: usize = text.unicode_len();
    let mut from: usize = 0;
    assert(text@.skip(0) =~= text@);
    while from < len && text.get_char(from) == c
        invariant
            from <= len,
            len == text@.len(),
            without_leading(text@.skip(from as int), c) == without_leading(text@, c),
        decreases len - from,
    {
        assert(text@.skip(from as int).skip(1) =~= text@.skip(from + 1));
        assert(text@.skip(from as int)[0] == text@[from as int]);
        from = from + 1;
    }
    assert(from < len ==> text@.skip(from as int)[0] == text@[from as int]);
    assert(text@.subrange(from as int, len as int) =~= text@.skip(from as int));
    text.substring_char(from, len)
}

/// Whether `text` starts with `prefix`.
pub fn starts_with(text: &str, prefix: &str) -> (r: bool)
    ensures
        r == prefix@.is_prefix_of(text@),
{
    let len: usize = prefix.unicode_len();
    if len > text.unicode_len() {
        return false;
    }
    let mut i: usize = 0;
    while i < len
        invariant
            i <= len,
            len == prefix@.len(),
            len <= text@.len(),
            forall|j: int| 0 <= j < i ==> prefix@[j] == text@[j],
        decreases len - i,
    {
        if prefix.get_char(i) != text.get_char(i) {
            assert(text@.subrange(0, len as int)[i as int] == text@[i as int]);
            return false;
        }
        i = i + 1;
    }
    assert(prefix@ =~= text@.subrange(0, len as int));
    true
}

/// The place of the first `c` in `text`.
pub fn find_char(text: &str, c: char) -> (r: Option<usize>)
    ensures
        r matches Some(i) ==> first_at(text@, c, i as int),
        r is None ==> !text@.contains(c),
{
    let len: usize = text.unicode_len();
    let mut i: usize = 0;
    while i < len
        invariant
            i <= len,
            len == text@.len(),
            forall|j: int| 0 <= j < i ==> text@[j] != c,
        decreases len - i,
    {
        if text.get_char(i) == c {
            return Some(i);
        }
        i = i + 1;
    }
    None
}

/// Another copy of a text, where there is one.
pub fn copy_optional(text: &Option<String>) -> (r: Option<String>)
    ensures
        r == *text,
{
    match text {
        Some(text) => Some(text.clone()),
        None => None,
    }
}

/// The concatenation of `prefix` and the decimal text of `n`.
pub fn with_number(prefix: &str, n: u64) -> (r: String)
    ensures
        r@ == prefix@ + decimal(n as nat),
{
    let mut r = String::from_str(prefix);
    let digits = to_decimal(n);
    r.append(digits.as_str());
    r
}

// ---------------------------------------------------------------- laws

/// A number is read from its decimal text, with or without a plus sign before
/// it, where it is not too large, and from no text with another character.
pub proof fn law_numbers_are_read(text: &str, n: nat, max: u64, r: Option<u64>)
    requires
        call_ensures(parse_unsigned, (text, max), r),
    ensures
        text@ == decimal(n) || text@ == seq!['+'] + decimal(n) ==> {
            &&& r is Some <==> n <= max
            &&& r is Some ==> r->0 == n
        },
        r is Some ==> r->0 <= max && text@.len() > 0,
        r is Some ==> forall|i: int|
            0 <= i < text@.len() && !('0' <= #[trigger] text@[i] && text@[i] <= '9') ==> i == 0
                && text@[i] == '+' && text@.len() > 1,
{
    lemma_decimal_digits(n);
    lemma_decimal_value(n);
    assert(is_digit(decimal(n)[0]));
    let plus = seq!['+'] + decimal(n);
    assert(plus[0] == '+');
    assert(plus.skip(1) =~= decimal(n));
    if r is Some {
        let digits = without_plus(text@);
        assert forall|i: int|
            0 <= i < text@.len() && !('0' <= #[trigger] text@[i] && text@[i] <= '9') implies i == 0
            && text@[i] == '+' && text@.len() > 1 by {
            if text@[0] == '+' {
                if i > 0 {
                    assert(digits[i - 1] == text@[i]);
                }
            } else {
                assert(digits[i] == text@[i]);
            }
        }
    }
}

/// A number is written with digits only, without a zero in front unless it is
/// zero, and two numbers are never written alike.
pub proof fn law_numbers_are_written(n: u64, r: String, m: u64, s: String)
    requires
        call_ensures(to_decimal, (n,), r),
        call_ensures(to_decimal, (m,), s),
    ensures
        r@.len() > 0,
        forall|i: int| 0 <= i < r@.len() ==> '0' <= #[trigger] r@[i] && r@[i] <= '9',
        n > 0 ==> r@[0] != '0',
        r@ == s@ ==> n == m,
{
    lemma_decimal_digits(n as nat);
    lemma_decimal_value(n as nat);
    lemma_decimal_value(m as nat);
    if n > 0 {
        lemma_decimal_front(n as nat);
    }
    assert forall|i: int| 0 <= i < r@.len() implies '0' <= #[trigger] r@[i] && r@[i] <= '9' by {
        assert(is_digit(decimal(n as nat)[i]));
    }
}

/// The decimal text of a number that is not zero begins with no zero.
proof fn lemma_decimal_front(n: nat)
    requires
        n > 0,
    ensures
        decimal(n).len() > 0,
        decimal(n)[0] != '0',
    decreases n,
{
    if n >= 10 {
        lemma_decimal_front(n / 10);
    }
}

/// Trimming takes away white space at either end, and nothing else.
pub proof fn law_trimming_takes_only_space(text: &str, r: &str) -> (found: (int, int))
    requires
        call_ensures(trim, (text,), r),
    ensures
        0 <= found.0 <= found.1 <= text@.len(),
        r@ == text@.subrange(found.0, found.1),
        forall|i: int| 0 <= i < found.0 ==> is_space(#[trigger] text@[i]),
        forall|i: int| found.1 <= i < text@.len() ==> is_space(#[trigger] text@[i]),
        r@.len() > 0 ==> !is_space(r@[0]) && !is_space(r@.last()),
        forall|i: int|
            0 <= i < text@.len() && (text@[i] == ' ' || text@[i] == '\t' || text@[i] == '\n'
                || text@[i] == '\r') ==> is_space(#[trigger] text@[i]),
{
    let from = lemma_trimmed_start(text@);
    let rest = text@.skip(from);
    let to = lemma_trimmed_end(rest);
    assert(text@.subrange(from, from + to) =~= rest.take(to));
    assert forall|i: int| from + to <= i < text@.len() implies is_space(#[trigger] text@[i]) by {
        assert(rest[i - from] == text@[i]);
    }
    if r@.len() > 0 {
        assert(r@[0] == rest[0]);
    }
    (from, from + to)
}

/// Where a text begins without its leading white space.
proof fn lemma_trimmed_start(s: Seq<char>) -> (from: int)
    ensures
        0 <= from <= s.len(),
        trimmed_start(s) == s.skip(from),
        forall|i: int| 0 <= i < from ==> is_space(#[trigger] s[i]),
        from < s.len() ==> !is_space(s[from]),
    decreases s.len(),
{
    if s.len() > 0 && is_space(s[0]) {
        let from = lemma_trimmed_start(s.skip(1));
        assert(s.skip(1).skip(from) =~= s.skip(from + 1));
        assert forall|i: int| 0 <= i < from + 1 implies is_space(#[trigger] s[i]) by {
            if i > 0 {
                assert(s.skip(1)[i - 1] == s[i]);
            }
        }
        if from + 1 < s.len() {
            assert(s.skip(1)[from] == s[from + 1]);
        }
        from + 1
    } else {
        assert(s.skip(0) =~= s);
        0
    }
}

/// Where a text ends without its trailing white space.
proof fn lemma_trimmed_end(s: Seq<char>) -> (to: int)
    ensures
        0 <= to <= s.len(),
        trimmed_end(s) == s.take(to),
        forall|i: int| to <= i < s.len() ==> is_space(#[trigger] s[i]),
        to > 0 ==> !is_space(s[to - 1]),
    decreases s.len(),
{
    if s.len() > 0 && is_space(s.last()) {
        let to = lemma_trimmed_end(s.drop_last());
        assert(s.drop_last().take(to) =~= s.take(to));
        assert forall|i: int| to <= i < s.len() implies is_space(#[trigger] s[i]) by {
            if i < s.len() - 1 {
                assert(s.drop_last()[i] == s[i]);
            }
        }
        to
    } else {
        assert(s.take(s.len() as int) =~= s);
        s.len() as int
    }
}

} // verus!
