//! Values of environment variables: the text of each variable, parsed as
//! `bool` and `i32` parse their text.
use vstd::prelude::*;

use crate::parser_output::same_name;

verus! {

/// `true` and `false` are the booleans.
pub open spec fn spec_parse_bool(s: Seq<char>) -> Option<bool> {
    if s == "true"@ {
        Some(true)
    } else if s == "false"@ {
        Some(false)
    } else {
        None
    }
}

/// An ASCII decimal digit.
pub open spec fn is_digit(c: char) -> bool {
    '0' <= c && c <= '9'
}

/// Every character is a digit.
pub open spec fn all_digits(s: Seq<char>) -> bool {
    forall|i: int| 0 <= i < s.len() ==> is_digit(#[trigger] s[i])
}

/// The number the digits write in base ten.
pub open spec fn digits_value(s: Seq<char>) -> int
    decreases s.len(),
{
    if s.len() == 0 {
        0
    } else {
        digits_value(s.drop_last()) * 10 + (s.last() as int - '0' as int)
    }
}

/// The magnitude, when the digits are one or more and write a number no
/// larger than `limit`.
pub open spec fn spec_magnitude(s: Seq<char>, limit: int) -> Option<int> {
    if s.len() > 0 && all_digits(s) && digits_value(s) <= limit {
        Some(digits_value(s))
    } else {
        None
    }
}

/// An `i32` written as optional sign and decimal digits, in range.
pub open spec fn spec_parse_i32(s: Seq<char>) -> Option<i32> {
    if s.len() > 0 && s[0] == '-' {
        match spec_magnitude(s.drop_first(), 2147483648) {
            Some(m) => Some((-m) as i32),
            None => None,
        }
    } else if s.len() > 0 && s[0] == '+' {
        match spec_magnitude(s.drop_first(), 2147483647) {
            Some(m) => Some(m as i32),
            None => None,
        }
    } else {
        match spec_magnitude(s, 2147483647) {
            Some(m) => Some(m as i32),
            None => None,
        }
    }
}

/// The environment as pairs of name and text.
pub open spec fn env_view(env: Seq<(String, String)>) -> Seq<(Seq<char>, Seq<char>)> {
    env.map_values(|p: (String, String)| (p.0@, p.1@))
}

/// The first variable called `name` whose text is a boolean.
pub open spec fn env_bool(env: Seq<(Seq<char>, Seq<char>)>, name: Seq<char>) -> Option<bool>
    decreases env.len(),
{
    if env.len() == 0 {
        None
    } else if env[0].0 == name && spec_parse_bool(env[0].1) is Some {
        spec_parse_bool(env[0].1)
    } else {
        env_bool(env.drop_first(), name)
    }
}

/// The first variable called `name` whose text is an `i32`.
pub open spec fn env_int(env: Seq<(Seq<char>, Seq<char>)>, name: Seq<char>) -> Option<i32>
    decreases env.len(),
{
    if env.len() == 0 {
        None
    } else if env[0].0 == name && spec_parse_i32(env[0].1) is Some {
        spec_parse_i32(env[0].1)
    } else {
        env_int(env.drop_first(), name)
    }
}

/// Digits never write a negative number.
proof fn lemma_digits_nonneg(s: Seq<char>)
    requires
        all_digits(s),
    ensures
        digits_value(s) >= 0,
    decreases s.len(),
{
    if s.len() > 0 {
        lemma_digits_nonneg(s.drop_last());
        assert(is_digit(s[s.len() - 1]));
    }
}

/// A prefix of digits writes a number no larger than the whole.
proof fn lemma_digits_prefix(s: Seq<char>, k: int)
    requires
        all_digits(s),
        0 <= k <= s.len(),
    ensures
        digits_value(s.take(k)) <= digits_value(s),
    decreases s.len(),
{
    if k < s.len() {
        let t = s.drop_last();
        assert(all_digits(t));
        assert(t.take(k) =~= s.take(k));
        lemma_digits_prefix(t, k);
        lemma_digits_nonneg(t);
        assert(is_digit(s[s.len() - 1]));
    } else {
        assert(s.take(k) =~= s);
    }
}

/// Parses `true` or `false`.
pub fn parse_bool(s: &str) -> (r: Option<bool>)
    ensures
        r == spec_parse_bool(s@),
{
    if same_name(s, "true") {
        Some(true)
    } else if same_name(s, "false") {
        Some(false)
    } else {
        None
    }
}

/// The magnitude written by the characters of `s` from `start`, if they
/// are one or more digits writing a number no larger than `limit`.
fn parse_magnitude(s: &str, start: usize, limit: u64) -> (r: Option<u64>)
    requires
        start <= s@.len(),
        limit <= 2147483648,
    ensures
        r == match spec_magnitude(s@.skip(start as int), limit as int) {
            Some(m) => Some(m as u64),
            None => None::<u64>,
        },
        r matches Some(v) ==> v <= limit && spec_magnitude(s@.skip(start as int), limit as int) == Some(v as int),
{
    let n = s.unicode_len();
    let ghost t = s@.skip(start as int);
    if start >= n {
        return None;
    }
    let mut acc: u64 = 0;
    let mut i: usize = start;
    assert(t.take(0) =~= Seq::<char>::empty());
    while i < n
        invariant
            n == s@.len(),
            t == s@.skip(start as int),
            start < n,
            start <= i <= n,
            limit <= 2147483648,
            all_digits(t.take(i - start)),
            acc == digits_value(t.take(i - start)),
            acc <= limit,
        decreases n - i,
    {
        let c = s.get_char(i);
        if c < '0' || c > '9' {
            proof {
                assert(t[i - start] == c);
                assert(!is_digit(t[i - start]));
            }
            return None;
        }
        let d: u64 = (c as u64) - ('0' as u64);
        let next: u64 = acc * 10 + d;
        proof {
            let p = t.take(i + 1 - start);
            assert(p.drop_last() =~= t.take(i - start));
            assert(p.last() == c);
            assert(all_digits(p));
        }
        if next > limit {
            proof {
                let p = t.take(i + 1 - start);
                if all_digits(t) {
                    lemma_digits_prefix(t, i + 1 - start);
                }
            }
            return None;
        }
        acc = next;
        i = i + 1;
    }
    assert(t.take(n - start) =~= t);
    proof {
        lemma_digits_nonneg(t);
    }
    Some(acc)
}

/// Parses an `i32`: an optional sign, then decimal digits, in range.
pub fn parse_i32(s: &str) -> (r: Option<i32>)
    ensures
        r == spec_parse_i32(s@),
{
    let n = s.unicode_len();
    if n > 0 && s.get_char(0) == '-' {
        assert(s@.skip(1) =~= s@.drop_first());
        match parse_magnitude(s, 1, 2147483648) {
            Option::Some(m) => {
                let v: i64 = 0i64 - (m as i64);
                Some(v as i32)
            },
            Option::None => None,
        }
    } else if n > 0 && s.get_char(0) == '+' {
        assert(s@.skip(1) =~= s@.drop_first());
        match parse_magnitude(s, 1, 2147483647) {
            Option::Some(m) => Some(m as i32),
            Option::None => None,
        }
    } else {
        assert(s@.skip(0) =~= s@);
        match parse_magnitude(s, 0, 2147483647) {
            Option::Some(m) => Some(m as i32),
            Option::None => None,
        }
    }
}

/// The first variable called `name` whose text is a boolean.
pub fn lookup_bool(env: &Vec<(String, String)>, name: &str) -> (r: Option<bool>)
    ensures
        r == env_bool(env_view(env@), name@),
{
    let ghost ev = env_view(env@);
    assert(ev.skip(0) =~= ev);
    let n = env.len();
    for i in 0..n
        invariant
            n == env@.len(),
            ev == env_view(env@),
            env_bool(ev, name@) == env_bool(ev.skip(i as int), name@),
    {
        assert(ev.skip(i as int)[0] == ev[i as int]);
        assert(ev.skip(i as int).drop_first() =~= ev.skip(i + 1));
        if same_name(env[i].0.as_str(), name) {
            match parse_bool(env[i].1.as_str()) {
                Option::Some(b) => return Some(b),
                Option::None => {},
            }
        }
    }
    assert(ev.skip(n as int) =~= Seq::<(Seq<char>, Seq<char>)>::empty());
    None
}

/// The first variable called `name` whose text is an `i32`.
pub fn lookup_int(env: &Vec<(String, String)>, name: &str) -> (r: Option<i32>)
    ensures
        r == env_int(env_view(env@), name@),
{
    let ghost ev = env_view(env@);
    assert(ev.skip(0) =~= ev);
    let n = env.len();
    for i in 0..n
        invariant
            n == env@.len(),
            ev == env_view(env@),
            env_int(ev, name@) == env_int(ev.skip(i as int), name@),
    {
        assert(ev.skip(i as int)[0] == ev[i as int]);
        assert(ev.skip(i as int).drop_first() =~= ev.skip(i + 1));
        if same_name(env[i].0.as_str(), name) {
            match parse_i32(env[i].1.as_str()) {
                Option::Some(v) => return Some(v),
                Option::None => {},
            }
        }
    }
    assert(ev.skip(n as int) =~= Seq::<(Seq<char>, Seq<char>)>::empty());
    None
}

/// The character of a decimal digit is a digit, with that value.
proof fn lemma_digit_char(d: int)
    requires
        0 <= d < 10,
    ensures
        is_digit(crate::text::digit_char(d)),
        crate::text::digit_char(d) as int - '0' as int == d,
{
    assert('0' as int == 48);
    assert('9' as int == 57);
    if d == 0 {
    } else if d == 1 {
        assert('1' as int == 49);
    } else if d == 2 {
        assert('2' as int == 50);
    } else if d == 3 {
        assert('3' as int == 51);
    } else if d == 4 {
        assert('4' as int == 52);
    } else if d == 5 {
        assert('5' as int == 53);
    } else if d == 6 {
        assert('6' as int == 54);
    } else if d == 7 {
        assert('7' as int == 55);
    } else if d == 8 {
        assert('8' as int == 56);
    }
}

/// The digits of a natural number are digits, one or more, and write it.
proof fn lemma_digits_write(m: nat)
    ensures
        crate::text::digits(m).len() > 0,
        all_digits(crate::text::digits(m)),
        digits_value(crate::text::digits(m)) == m,
    decreases m,
{
    let d = crate::text::digits(m);
    if m < 10 {
        lemma_digit_char(m as int);
        assert(d.drop_last() =~= Seq::<char>::empty());
        assert(digits_value(d) == digits_value(d.drop_last()) * 10 + (d.last() as int - '0' as int));
    } else {
        lemma_digit_char((m % 10) as int);
        lemma_digits_write(m / 10);
        let h = crate::text::digits(m / 10);
        assert(d.drop_last() =~= h);
        assert(d.last() == crate::text::digit_char((m % 10) as int));
        assert((m / 10) as int * 10 + (m % 10) as int == m) by (nonlinear_arith);
        assert(digits_value(d) == digits_value(h) * 10 + (d.last() as int - '0' as int));
        assert forall|i: int| 0 <= i < d.len() implies is_digit(#[trigger] d[i]) by {
            if i < h.len() {
                assert(d[i] == h[i]);
            }
        }
    }
}

/// Parsing the decimal text of an `i32` gives it back; `true` and `false`
/// parse as the booleans they write.
pub proof fn lemma_parse_printed(n: i32)
    ensures
        spec_parse_i32(crate::text::int_text(n as int)) == Some(n),
        spec_parse_bool("true"@) == Some(true),
        spec_parse_bool("false"@) == Some(false),
{
    reveal_strlit("true");
    reveal_strlit("false");
    assert("false"@ != "true"@) by {
        assert("false"@.len() != "true"@.len());
    }
    let t = crate::text::int_text(n as int);
    if n < 0 {
        let m = (-(n as int)) as nat;
        lemma_digits_write(m);
        assert(t.drop_first() =~= crate::text::digits(m));
    } else {
        lemma_digits_write(n as nat);
        assert(is_digit(t[0]));
    }
}

} // verus!
