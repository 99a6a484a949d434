//! Character-level helpers shared by the parsers.

use vstd::prelude::*;

verus! {

broadcast use vstd::string::group_string_axioms;

/// The characters of `s`, in order.
pub fn chars_of(s: &str) -> (v: Vec<char>)
    ensures
        v@ == s@,
{
    let mut v: Vec<char> = Vec::new();
    for c in it: s.chars()
        invariant
            v@ == it.seq().take(it.index() as int),
    {
        v.push(c);
    }
    v
}

/// Whether `a` and `b` hold the same characters.
pub fn str_eq(a: &str, b: &str) -> (r: bool)
    ensures
        r == (a@ == b@),
{
    let va = chars_of(a);
    let vb = chars_of(b);
    chars_eq(&va, &vb)
}

/// Whether `v` holds the characters of `s`.
pub fn chars_eq_str(v: &Vec<char>, s: &str) -> (r: bool)
    ensures
        r == (v@ == s@),
{
    let vs = chars_of(s);
    chars_eq(v, &vs)
}

/// Whether `va` and `vb` hold the same characters.
pub fn chars_eq(va: &Vec<char>, vb: &Vec<char>) -> (r: bool)
    ensures
        r == (va@ == vb@),
{
    if va.len() != vb.len() {
        return false;
    }
    let mut i: usize = 0;
    while i < va.len()
        invariant
            va.len() == vb.len(),
            0 <= i <= va.len(),
            forall|j: int| 0 <= j < i ==> va@[j] == vb@[j],
        decreases va.len() - i,
    {
        if va[i] != vb[i] {
            return false;
        }
        i = i + 1;
    }
    assert(va@ =~= vb@);
    true
}

/// The characters that carry the Unicode `White_Space` property.
pub open spec fn is_white_space(c: char) -> bool {
    let u = c as u32;
    ||| 0x09 <= u <= 0x0D
    ||| u == 0x20
    ||| u == 0x85
    ||| u == 0xA0
    ||| u == 0x1680
    ||| 0x2000 <= u <= 0x200A
    ||| u == 0x2028
    ||| u == 0x2029
    ||| u == 0x202F
    ||| u == 0x205F
    ||| u == 0x3000
}

/// Whether `c` is white space in the Unicode sense.
pub fn is_white_space_char(c: char) -> (r: bool)
    ensures
        r == is_white_space(c),
{
    let u = c as u32;
    (0x09 <= u && u <= 0x0D) || u == 0x20 || u == 0x85 || u == 0xA0 || u == 0x1680 || (0x2000
        <= u && u <= 0x200A) || u == 0x2028 || u == 0x2029 || u == 0x202F || u == 0x205F || u
        == 0x3000
}

/// `s` without its leading white space.
pub open spec fn trim_start(s: Seq<char>) -> Seq<char>
    decreases s.len(),
{
    if s.len() > 0 && is_white_space(s[0]) {
        trim_start(s.drop_first())
    } else {
        s
    }
}

/// `s` without its trailing white space.
pub open spec fn trim_end(s: Seq<char>) -> Seq<char>
    decreases s.len(),
{
    if s.len() > 0 && is_white_space(s.last()) {
        trim_end(s.drop_last())
    } else {
        s
    }
}

/// `s` without leading and trailing white space.
pub open spec fn trim(s: Seq<char>) -> Seq<char> {
    trim_end(trim_start(s))
}

/// The characters of `s` from `from` up to, not including, `to`.
pub fn copy_range(s: &Vec<char>, from: usize, to: usize) -> (t: Vec<char>)
    requires
        from <= to <= s.len(),
    ensures
        t@ == s@.subrange(from as int, to as int),
{
    let mut t: Vec<char> = Vec::new();
    let mut k = from;
    while k < to
        invariant
            from <= k <= to <= s.len(),
            t@ == s@.subrange(from as int, k as int),
        decreases to - k,
    {
        t.push(s[k]);
        k = k + 1;
    }
    t
}

/// `s` without leading and trailing white space.
pub fn trim_chars(s: &Vec<char>) -> (t: Vec<char>)
    ensures
        t@ == trim(s@),
{
    let mut i: usize = 0;
    assert(s@.skip(0) =~= s@);
    while i < s.len() && is_white_space_char(s[i])
        invariant
            0 <= i <= s.len(),
            trim_start(s@) == trim_start(s@.skip(i as int)),
        decreases s.len() - i,
    {
        assert(s@.skip(i as int).drop_first() =~= s@.skip(i + 1));
        i = i + 1;
    }
    assert(trim_start(s@) == s@.skip(i as int));
    let mut j: usize = s.len();
    assert(s@.skip(i as int) =~= s@.subrange(i as int, j as int));
    while j > i && is_white_space_char(s[j - 1])
        invariant
            i <= j <= s.len(),
            trim(s@) == trim_end(s@.subrange(i as int, j as int)),
        decreases j - i,
    {
        assert(s@.subrange(i as int, j as int).drop_last() =~= s@.subrange(i as int, j - 1));
        j = j - 1;
    }
    copy_range(s, i, j)
}

/// ASCII upper-case letters to lower case; every other character unchanged.
pub open spec fn ascii_lower(c: char) -> char {
    if 'A' <= c && c <= 'Z' {
        ((c as u32) + 32) as char
    } else {
        c
    }
}

/// `c` with an ASCII upper-case letter turned to lower case.
pub fn to_ascii_lower(c: char) -> (r: char)
    ensures
        r == ascii_lower(c),
{
    if 'A' <= c && c <= 'Z' {
        let b: u8 = c as u8;
        (b + 32) as char
    } else {
        c
    }
}

/// `s` with its ASCII upper-case letters turned to lower case.
pub fn lower_ascii_chars(s: &Vec<char>) -> (t: Vec<char>)
    ensures
        t@ == s@.map_values(|c: char| ascii_lower(c)),
{
    let mut t: Vec<char> = Vec::new();
    let mut k: usize = 0;
    while k < s.len()
        invariant
            0 <= k <= s.len(),
            t@ == s@.take(k as int).map_values(|c: char| ascii_lower(c)),
        decreases s.len() - k,
    {
        t.push(to_ascii_lower(s[k]));
        assert(s@.take(k + 1).map_values(|c: char| ascii_lower(c)) =~= s@.take(
            k as int,
        ).map_values(|c: char| ascii_lower(c)).push(ascii_lower(s@[k as int])));
        k = k + 1;
    }
    assert(s@.take(k as int) =~= s@);
    t
}

/// `i` is the first position of `c` in `s`.
pub open spec fn is_first_index_of(s: Seq<char>, c: char, i: int) -> bool {
    &&& 0 <= i < s.len()
    &&& s[i] == c
    &&& forall|j: int| 0 <= j < i ==> s[j] != c
}

/// `s` cut at the first `c`, which both parts leave out; `None` where `s` holds no `c`.
pub open spec fn split_once(s: Seq<char>, c: char) -> Option<(Seq<char>, Seq<char>)> {
    if exists|i: int| is_first_index_of(s, c, i) {
        let i = choose|i: int| is_first_index_of(s, c, i);
        Some((s.take(i), s.skip(i + 1)))
    } else {
        None
    }
}

/// There is at most one first position of a character.
pub proof fn lemma_first_index_unique(s: Seq<char>, c: char, i: int, k: int)
    requires
        is_first_index_of(s, c, i),
        is_first_index_of(s, c, k),
    ensures
        i == k,
{
}

/// `s` cut at the first `c`.
pub fn split_once_chars(s: &Vec<char>, c: char) -> (r: Option<(Vec<char>, Vec<char>)>)
    ensures
        match r {
            Some((a, b)) => split_once(s@, c) == Some((a@, b@)),
            None => split_once(s@, c) is None,
        },
{
    let mut i: usize = 0;
    while i < s.len()
        invariant
            0 <= i <= s.len(),
            forall|j: int| 0 <= j < i ==> s@[j] != c,
        decreases s.len() - i,
    {
        if s[i] == c {
            assert(is_first_index_of(s@, c, i as int));
            let ghost k = choose|k: int| is_first_index_of(s@, c, k);
            proof {
                lemma_first_index_unique(s@, c, i as int, k);
            }
            let a = copy_range(s, 0, i);
            let b = copy_range(s, i + 1, s.len());
            assert(a@ =~= s@.take(i as int));
            assert(b@ =~= s@.skip(i + 1));
            return Some((a, b));
        }
        i = i + 1;
    }
    assert(!exists|k: int| is_first_index_of(s@, c, k));
    None
}

/// The pieces of `s` between the separators `sep`; there is always at least one.
pub open spec fn split_on(s: Seq<char>, sep: char) -> Seq<Seq<char>>
    decreases s.len(),
{
    if s.len() == 0 {
        seq![Seq::<char>::empty()]
    } else {
        let rest = split_on(s.drop_last(), sep);
        if s.last() == sep {
            rest.push(Seq::<char>::empty())
        } else {
            rest.update(rest.len() - 1, rest.last().push(s.last()))
        }
    }
}

/// Splitting always yields at least one piece.
pub proof fn lemma_split_on_nonempty(s: Seq<char>, sep: char)
    ensures
        split_on(s, sep).len() >= 1,
    decreases s.len(),
{
    if s.len() > 0 {
        lemma_split_on_nonempty(s.drop_last(), sep);
    }
}

/// Whether `c` is an ASCII decimal digit.
pub open spec fn is_digit(c: char) -> bool {
    '0' <= c && c <= '9'
}

/// Every character of `s` is an ASCII decimal digit.
pub open spec fn all_digits(s: Seq<char>) -> bool {
    forall|i: int| 0 <= i < s.len() ==> is_digit(#[trigger] s[i])
}

/// The number that the decimal digits `s` write.
pub open spec fn digits_value(s: Seq<char>) -> nat
    decreases s.len(),
{
    if s.len() == 0 {
        0
    } else {
        digits_value(s.drop_last()) * 10 + ((s.last() as int) - ('0' as int)) as nat
    }
}

/// The digits of `s` after an optional `+`, as an unsigned number no larger
/// than `max`; `None` where the digits are missing, contain anything else, or
/// write a larger number.
pub open spec fn parse_unsigned(s: Seq<char>, max: nat) -> Option<nat> {
    let body = if s.len() > 0 && s[0] == '+' {
        s.drop_first()
    } else {
        s
    };
    if body.len() > 0 && all_digits(body) && digits_value(body) <= max {
        Some(digits_value(body))
    } else {
        None
    }
}

/// `s` read as a 32-bit signed decimal number with an optional `+` or `-`.
pub open spec fn parse_i32(s: Seq<char>) -> Option<int> {
    if s.len() > 0 && s[0] == '-' {
        let body = s.drop_first();
        if body.len() > 0 && all_digits(body) && digits_value(body) <= 0x8000_0000 {
            Some(-(digits_value(body) as int))
        } else {
            None
        }
    } else {
        match parse_unsigned(s, 0x7fff_ffff) {
            Some(v) => Some(v as int),
            None => None,
        }
    }
}

/// The number that the digits of `s` from `start` on write, or `cap` where it is larger;
/// `None` where there is no digit there or anything else follows.
pub fn digits_value_capped(s: &Vec<char>, start: usize, cap: u128) -> (r: Option<u128>)
    requires
        start <= s.len(),
        cap <= 0x1_0000_0000_0000_0000,
    ensures
        match r {
            Some(v) => {
                &&& s@.skip(start as int).len() > 0
                &&& all_digits(s@.skip(start as int))
                &&& v == if digits_value(s@.skip(start as int)) < cap {
                    digits_value(s@.skip(start as int))
                } else {
                    cap as nat
                }
            },
            None => s@.skip(start as int).len() == 0 || !all_digits(s@.skip(start as int)),
        },
{
    if start >= s.len() {
        return None;
    }
    let mut acc: u128 = 0;
    let mut k: usize = start;
    while k < s.len()
        invariant
            start <= k <= s.len(),
            cap <= 0x1_0000_0000_0000_0000,
            all_digits(s@.subrange(start as int, k as int)),
            acc == if digits_value(s@.subrange(start as int, k as int)) < cap {
                digits_value(s@.subrange(start as int, k as int))
            } else {
                cap as nat
            },
        decreases s.len() - k,
    {
        let c = s[k];
        if !('0' <= c && c <= '9') {
            assert(s@.skip(start as int)[k - start] == c);
            return None;
        }
        let d: u128 = (c as u32 - '0' as u32) as u128;
        let ghost prev = s@.subrange(start as int, k as int);
        let ghost next = s@.subrange(start as int, k + 1);
        assert(next.drop_last() =~= prev);
        assert(digits_value(next) == digits_value(prev) * 10 + d);
        if acc >= cap {
            acc = cap;
        } else {
            let v = acc * 10 + d;
            acc = if v < cap {
                v
            } else {
                cap
            };
        }
        assert(all_digits(next)) by {
            assert forall|i: int| 0 <= i < next.len() implies is_digit(#[trigger] next[i]) by {
                if i < prev.len() {
                    assert(next[i] == prev[i]);
                }
            }
        }
        k = k + 1;
    }
    assert(s@.subrange(start as int, k as int) =~= s@.skip(start as int));
    Some(acc)
}

/// `s` read as an unsigned number no larger than `max`, as `str::parse` reads one.
pub fn parse_unsigned_chars(s: &Vec<char>, max: u64) -> (r: Option<u64>)
    ensures
        match r {
            Some(v) => parse_unsigned(s@, max as nat) == Some(v as nat),
            None => parse_unsigned(s@, max as nat) is None,
        },
{
    let start: usize = if s.len() > 0 && s[0] == '+' {
        1
    } else {
        0
    };
    let ghost body = if s@.len() > 0 && s@[0] == '+' {
        s@.drop_first()
    } else {
        s@
    };
    assert(s@.skip(start as int) =~= body);
    let cap: u128 = max as u128 + 1;
    match digits_value_capped(s, start, cap) {
        Some(v) => {
            if v <= max as u128 {
                Some(v as u64)
            } else {
                None
            }
        },
        None => None,
    }
}

/// `s` read as a 32-bit signed number, as `str::parse::<i32>` reads one.
pub fn parse_i32_chars(s: &Vec<char>) -> (r: Option<i32>)
    ensures
        match r {
            Some(v) => parse_i32(s@) == Some(v as int),
            None => parse_i32(s@) is None,
        },
{
    if s.len() > 0 && s[0] == '-' {
        assert(s@.skip(1) =~= s@.drop_first());
        match digits_value_capped(s, 1, 0x8000_0001) {
            Some(v) => {
                if v <= 0x8000_0000 {
                    let n: i64 = 0i64 - (v as i64);
                    Some(n as i32)
                } else {
                    None
                }
            },
            None => None,
        }
    } else {
        match parse_unsigned_chars(s, 0x7fff_ffff) {
            Some(v) => Some(v as i32),
            None => None,
        }
    }
}

/// Appends `c` to `s` (`String::push`).
#[verifier::external_body]
fn push_char(s: &mut String, c: char)
    ensures
        final(s)@ == old(s)@.push(c),
{
    s.push(c);
}

/// A string holding the characters `v`.
pub fn string_from_chars(v: &Vec<char>) -> (s: String)
    ensures
        s@ == v@,
{
    let mut s = String::new();
    let mut k: usize = 0;
    while k < v.len()
        invariant
            0 <= k <= v.len(),
            s@ == v@.take(k as int),
        decreases v.len() - k,
    {
        push_char(&mut s, v[k]);
        assert(v@.take(k + 1) =~= v@.take(k as int).push(v@[k as int]));
        k = k + 1;
    }
    assert(v@.take(k as int) =~= v@);
    s
}

/// The character of the decimal digit `d`.
pub open spec fn digit_char(d: nat) -> char {
    if d == 0 {
        '0'
    } else if d == 1 {
        '1'
    } else if d == 2 {
        '2'
    } else if d == 3 {
        '3'
    } else if d == 4 {
        '4'
    } else if d == 5 {
        '5'
    } else if d == 6 {
        '6'
    } else if d == 7 {
        '7'
    } else if d == 8 {
        '8'
    } else {
        '9'
    }
}

/// `n` written in decimal, without leading zeros.
pub open spec fn decimal(n: nat) -> Seq<char>
    decreases n,
{
    if n < 10 {
        seq![digit_char(n)]
    } else {
        decimal(n / 10).push(digit_char(n % 10))
    }
}

/// The character of the decimal digit `d`.
fn digit_of(d: usize) -> (c: char)
    requires
        d < 10,
    ensures
        c == digit_char(d as nat),
{
    match d {
        0 => '0',
        1 => '1',
        2 => '2',
        3 => '3',
        4 => '4',
        5 => '5',
        6 => '6',
        7 => '7',
        8 => '8',
        _ => '9',
    }
}

/// The decimal digits of `n`.
fn decimal_digits(n: usize) -> (v: Vec<char>)
    ensures
        v@ == decimal(n as nat),
    decreases n,
{
    let mut v = if n < 10 {
        Vec::new()
    } else {
        decimal_digits(n / 10)
    };
    v.push(digit_of(n % 10));
    v
}

/// `n` written in decimal, as `format!("{n}")` writes it.
pub fn decimal_string(n: usize) -> (s: String)
    ensures
        s@ == decimal(n as nat),
{
    string_from_chars(&decimal_digits(n))
}

/// Whether `c` is an ASCII letter or digit.
pub open spec fn ascii_alnum(c: char) -> bool {
    ('0' <= c && c <= '9') || ('a' <= c && c <= 'z') || ('A' <= c && c <= 'Z')
}

/// Whether `c` is an ASCII letter or digit.
pub fn is_ascii_alnum(c: char) -> (r: bool)
    ensures
        r == ascii_alnum(c),
{
    ('0' <= c && c <= '9') || ('a' <= c && c <= 'z') || ('A' <= c && c <= 'Z')
}

} // verus!
