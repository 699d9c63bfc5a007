//! Small text utilities with exact specifications: equality, decimal
//! rendering and parsing, suffix tests and path joining.

use vstd::prelude::*;

verus! {

/// Whether two string slices hold the same characters.
pub fn str_eq(a: &str, b: &str) -> (r: bool)
    ensures
        r == (a@ == b@),
{
    let x = a.to_owned();
    let y = b.to_owned();
    x == y
}

/// The character of a decimal digit.
pub open spec fn digit_char(d: nat) -> char {
    if d == 0 {
        '0'
    } else if d == 1 {
        '1'
    } else if d == 2 {
        '2'
    } else if d == 3 {
        '3'
    } else if d == 4 {
        '4'
    } else if d == 5 {
        '5'
    } else if d == 6 {
        '6'
    } else if d == 7 {
        '7'
    } else if d == 8 {
        '8'
    } else {
        '9'
    }
}

/// The value of a decimal digit character.
pub open spec fn digit_value(c: char) -> nat {
    if c == '0' {
        0
    } else if c == '1' {
        1
    } else if c == '2' {
        2
    } else if c == '3' {
        3
    } else if c == '4' {
        4
    } else if c == '5' {
        5
    } else if c == '6' {
        6
    } else if c == '7' {
        7
    } else if c == '8' {
        8
    } else {
        9
    }
}

pub open spec fn is_digit(c: char) -> bool {
    '0' <= c && c <= '9'
}

/// Decimal text of a natural number, without leading zeros.
pub open spec fn nat_text(n: nat) -> Seq<char>
    decreases n,
{
    if n < 10 {
        seq![digit_char(n)]
    } else {
        nat_text(n / 10).push(digit_char(n % 10))
    }
}

/// Decimal text of an integer, with a leading `-` when negative.
pub open spec fn int_text(i: int) -> Seq<char> {
    if i < 0 {
        seq!['-'] + nat_text((-i) as nat)
    } else {
        nat_text(i as nat)
    }
}

/// Value of a string of decimal digits.
pub open spec fn digits_value(s: Seq<char>) -> nat
    decreases s.len(),
{
    if s.len() == 0 {
        0
    } else {
        digits_value(s.drop_last()) * 10 + digit_value(s.last())
    }
}

pub open spec fn all_digits(s: Seq<char>) -> bool {
    forall|i: int| 0 <= i < s.len() ==> is_digit(#[trigger] s[i])
}

/// The digits of an unsigned decimal: an optional leading `+` is dropped.
pub open spec fn unsigned_body(s: Seq<char>) -> Seq<char> {
    if s.len() > 0 && s[0] == '+' {
        s.drop_first()
    } else {
        s
    }
}

/// What parsing `s` as a `usize` yields: an optional `+`, then at least one
/// digit and nothing else, with a value that fits.
pub open spec fn parse_usize_spec(s: Seq<char>) -> Option<nat> {
    let body = unsigned_body(s);
    if body.len() > 0 && all_digits(body) && digits_value(body) <= usize::MAX {
        Some(digits_value(body))
    } else {
        None
    }
}

/// Whether `s` ends with `suffix`.
pub open spec fn ends_with_spec(s: Seq<char>, suffix: Seq<char>) -> bool {
    suffix.len() <= s.len() && s.subrange(s.len() - suffix.len(), s.len() as int) == suffix
}

/// Joining a relative or absolute path onto a base, as a Unix path push does:
/// an absolute part replaces the base, and a separator is put between the two
/// unless the base is empty or already ends with one.
pub open spec fn path_join_spec(base: Seq<char>, part: Seq<char>) -> Seq<char> {
    if part.len() > 0 && part[0] == '/' {
        part
    } else if base.len() > 0 && base.last() != '/' {
        base + seq!['/'] + part
    } else {
        base + part
    }
}

fn digit_str(d: u64) -> (r: &'static str)
    requires
        d < 10,
    ensures
        r@ == seq![digit_char(d as nat)],
{
    proof {
        reveal_strlit("0");
        reveal_strlit("1");
        reveal_strlit("2");
        reveal_strlit("3");
        reveal_strlit("4");
        reveal_strlit("5");
        reveal_strlit("6");
        reveal_strlit("7");
        reveal_strlit("8");
        reveal_strlit("9");
    }
    if d == 0 {
        "0"
    } else if d == 1 {
        "1"
    } else if d == 2 {
        "2"
    } else if d == 3 {
        "3"
    } else if d == 4 {
        "4"
    } else if d == 5 {
        "5"
    } else if d == 6 {
        "6"
    } else if d == 7 {
        "7"
    } else if d == 8 {
        "8"
    } else {
        "9"
    }
}

/// Decimal text of an unsigned number.
pub fn u64_text(n: u64) -> (r: String)
    ensures
        r@ == nat_text(n as nat),
    decreases n,
{
    if n < 10 {
        String::from_str(digit_str(n))
    } else {
        let mut s = u64_text(n / 10);
        s.append(digit_str(n % 10));
        s
    }
}

/// Decimal text of a signed number.
pub fn i64_text(i: i64) -> (r: String)
    ensures
        r@ == int_text(i as int),
{
    if i < 0 {
        let magnitude: u64 = (0i128 - i as i128) as u64;
        let mut s = String::from_str("-");
        proof {
            reveal_strlit("-");
        }
        let digits = u64_text(magnitude);
        s.append(digits.as_str());
        s
    } else {
        u64_text(i as u64)
    }
}

fn digit_str_wide(d: u128) -> (r: &'static str)
    requires
        d < 10,
    ensures
        r@ == seq![digit_char(d as nat)],
{
    digit_str(d as u64)
}

/// Decimal text of a wide unsigned number.
pub fn u128_text(n: u128) -> (r: String)
    ensures
        r@ == nat_text(n as nat),
    decreases n,
{
    if n < 10 {
        String::from_str(digit_str_wide(n))
    } else {
        let mut s = u128_text(n / 10);
        s.append(digit_str_wide(n % 10));
        s
    }
}

/// Decimal text of a wide signed number.
pub fn i128_text(i: i128) -> (r: String)
    requires
        i > i128::MIN,
    ensures
        r@ == int_text(i as int),
{
    if i < 0 {
        let magnitude: u128 = (0 - i) as u128;
        let mut s = String::from_str("-");
        proof {
            reveal_strlit("-");
        }
        let digits = u128_text(magnitude);
        s.append(digits.as_str());
        s
    } else {
        u128_text(i as u128)
    }
}

/// The text `true` or `false`.
pub fn bool_text(b: bool) -> (r: String)
    ensures
        r@ == (if b {
            "true"@
        } else {
            "false"@
        }),
{
    if b {
        String::from_str("true")
    } else {
        String::from_str("false")
    }
}

proof fn lemma_digits_value_prefix(s: Seq<char>, k: int)
    requires
        0 <= k <= s.len(),
    ensures
        digits_value(s.subrange(0, k)) <= digits_value(s),
    decreases s.len() - k,
{
    if k < s.len() {
        lemma_digits_value_prefix(s, k + 1);
        assert(s.subrange(0, k + 1).drop_last() =~= s.subrange(0, k));
    } else {
        assert(s.subrange(0, k) =~= s);
    }
}

fn char_digit(c: char) -> (r: u128)
    requires
        is_digit(c),
    ensures
        r == digit_value(c),
{
    if c == '0' {
        0
    } else if c == '1' {
        1
    } else if c == '2' {
        2
    } else if c == '3' {
        3
    } else if c == '4' {
        4
    } else if c == '5' {
        5
    } else if c == '6' {
        6
    } else if c == '7' {
        7
    } else if c == '8' {
        8
    } else {
        9
    }
}

/// Parses an unsigned decimal the way `usize`'s `FromStr` does.
pub fn parse_usize(s: &str) -> (r: Option<usize>)
    ensures
        match parse_usize_spec(s@) {
            Some(n) => r == Some(n as usize),
            None => r is None,
        },
{
    let n = s.unicode_len();
    let mut start: usize = 0;
    if n > 0 && s.get_char(0) == '+' {
        start = 1;
    }
    let ghost body = unsigned_body(s@);
    assert(body =~= s@.subrange(start as int, n as int));
    if start >= n {
        return None;
    }
    let mut value: u128 = 0;
    let mut i: usize = start;
    while i < n
        invariant
            start <= i <= n,
            n == s@.len(),
            body == s@.subrange(start as int, n as int),
            body == unsigned_body(s@),
            all_digits(body.subrange(0, i - start)),
            value == digits_value(body.subrange(0, i - start)),
            value <= usize::MAX,
        decreases n - i,
    {
        let c = s.get_char(i);
        let ghost pre = body.subrange(0, i - start);
        let ghost next = body.subrange(0, i + 1 - start);
        assert(next.drop_last() =~= pre);
        assert(next.last() == c);
        if !('0' <= c && c <= '9') {
            assert(!all_digits(body)) by {
                assert(body[i - start] == c);
                assert(!is_digit(body[i - start]));
            }
            return None;
        }
        value = value * 10 + char_digit(c);
        assert(digits_value(next) == digits_value(pre) * 10 + digit_value(c));
        assert(all_digits(next)) by {
            assert forall|j: int| 0 <= j < next.len() implies is_digit(#[trigger] next[j]) by {
                if j < pre.len() {
                    assert(next[j] == pre[j]);
                }
            }
        }
        if value > usize::MAX as u128 {
            proof {
                lemma_digits_value_prefix(body, i + 1 - start);
            }
            return None;
        }
        i = i + 1;
    }
    assert(body.subrange(0, n - start) =~= body);
    Some(value as usize)
}

/// Whether `s` ends with `suffix`.
pub fn ends_with(s: &str, suffix: &str) -> (r: bool)
    ensures
        r == ends_with_spec(s@, suffix@),
{
    let n = s.unicode_len();
    let m = suffix.unicode_len();
    if m > n {
        return false;
    }
    let tail = s.substring_char(n - m, n);
    str_eq(tail, suffix)
}

/// Joins `part` onto `base` as a Unix path push does.
pub fn path_join(base: &str, part: &str) -> (r: String)
    ensures
        r@ == path_join_spec(base@, part@),
{
    let pn = part.unicode_len();
    if pn > 0 && part.get_char(0) == '/' {
        return String::from_str(part);
    }
    let bn = base.unicode_len();
    let mut out = String::from_str(base);
    if bn > 0 && base.get_char(bn - 1) != '/' {
        out.append("/");
        proof {
            reveal_strlit("/");
        }
    }
    out.append(part);
    out
}

} // verus!
