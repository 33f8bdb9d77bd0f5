//! Character-level helpers: comparison, search, trimming and number
//! formatting on strings viewed as sequences of characters.

use vstd::prelude::*;

verus! {

/// Appends a character to a string (std `String::push`).
#[verifier::external_body]
pub(crate) fn push_char(s: &mut String, c: char)
    ensures
        final(s)@ == old(s)@.push(c),
{
    s.push(c);
}

/// `needle` occurs in `hay` at some position.
pub open spec fn seq_contains(hay: Seq<char>, needle: Seq<char>) -> bool {
    exists|i: int| 0 <= i <= hay.len() - needle.len() && #[trigger] hay.subrange(i, i + needle.len()) == needle
}

/// The characters of `s`.
pub fn chars_of(s: &str) -> (v: Vec<char>)
    ensures
        v@ == s@,
{
    let n = s.unicode_len();
    let mut v: Vec<char> = Vec::new();
    let mut i: usize = 0;
    while i < n
        invariant
            i <= n,
            n == s@.len(),
            v@ == s@.subrange(0, i as int),
        decreases n - i,
    {
        let c = s.get_char(i);
        v.push(c);
        proof {
            assert(s@.subrange(0, i as int).push(c) =~= s@.subrange(0, i + 1));
        }
        i = i + 1;
    }
    assert(s@.subrange(0, n as int) =~= s@);
    v
}

/// A string made of the characters `v`.
pub fn string_of(v: &[char]) -> (s: String)
    ensures
        s@ == v@,
{
    let mut s = String::new();
    let mut i: usize = 0;
    while i < v.len()
        invariant
            i <= v@.len(),
            s@ == v@.subrange(0, i as int),
        decreases v@.len() - i,
    {
        push_char(&mut s, v[i]);
        proof {
            assert(v@.subrange(0, i as int).push(v@[i as int]) =~= v@.subrange(0, i + 1));
        }
        i = i + 1;
    }
    assert(v@.subrange(0, v@.len() as int) =~= v@);
    s
}

/// Whether two character sequences are equal.
pub fn chars_eq(a: &[char], b: &[char]) -> (r: bool)
    ensures
        r == (a@ == b@),
{
    if a.len() != b.len() {
        return false;
    }
    let mut i: usize = 0;
    while i < a.len()
        invariant
            i <= a@.len(),
            a@.len() == b@.len(),
            forall|k: int| 0 <= k < i ==> a@[k] == b@[k],
        decreases a@.len() - i,
    {
        if a[i] != b[i] {
            return false;
        }
        i = i + 1;
    }
    assert(a@ =~= b@);
    true
}

/// Whether `needle` occurs in `hay` at position `at`.
pub fn chars_match_at(hay: &[char], needle: &[char], at: usize) -> (r: bool)
    requires
        at + needle@.len() <= hay@.len(),
    ensures
        r == (hay@.subrange(at as int, at + needle@.len()) == needle@),
{
    let n = needle.len();
    let h = hay.len();
    let mut i: usize = 0;
    while i < n
        invariant
            i <= n,
            n == needle@.len(),
            h == hay@.len(),
            at + needle@.len() <= hay@.len(),
            forall|k: int| 0 <= k < i ==> hay@[at + k] == needle@[k],
        decreases needle@.len() - i,
    {
        if hay[at + i] != needle[i] {
            assert(hay@.subrange(at as int, at + needle@.len())[i as int] != needle@[i as int]);
            return false;
        }
        i = i + 1;
    }
    assert(hay@.subrange(at as int, at + needle@.len()) =~= needle@);
    true
}

/// Whether `needle` occurs in `hay`.
pub fn chars_contains(hay: &[char], needle: &[char]) -> (r: bool)
    ensures
        r == seq_contains(hay@, needle@),
{
    if needle.len() > hay.len() {
        return false;
    }
    let last = hay.len() - needle.len();
    let mut i: usize = 0;
    loop
        invariant
            last == hay@.len() - needle@.len(),
            i <= last,
            forall|k: int| 0 <= k < i ==> #[trigger] hay@.subrange(k, k + needle@.len()) != needle@,
        decreases last - i,
    {
        if chars_match_at(hay, needle, i) {
            return true;
        }
        if i == last {
            return false;
        }
        i = i + 1;
    }
}

/// Whether two strings are equal.
pub fn str_eq(a: &str, b: &str) -> (r: bool)
    ensures
        r == (a@ == b@),
{
    let va = chars_of(a);
    let vb = chars_of(b);
    chars_eq(va.as_slice(), vb.as_slice())
}

/// Whether `needle` occurs in `hay`.
pub fn str_contains(hay: &str, needle: &str) -> (r: bool)
    ensures
        r == seq_contains(hay@, needle@),
{
    let vh = chars_of(hay);
    let vn = chars_of(needle);
    chars_contains(vh.as_slice(), vn.as_slice())
}

/// Whether `c` is white space (the Unicode White_Space property, as
/// `char::is_whitespace`).
pub open spec fn is_ws(c: char) -> bool {
    let u = c as u32;
    ||| 0x09 <= u <= 0x0D
    ||| u == 0x20
    ||| u == 0x85
    ||| u == 0xA0
    ||| u == 0x1680
    ||| 0x2000 <= u <= 0x200A
    ||| u == 0x2028
    ||| u == 0x2029
    ||| u == 0x202F
    ||| u == 0x205F
    ||| u == 0x3000
}

/// Whether `c` is white space.
pub fn is_whitespace(c: char) -> (r: bool)
    ensures
        r == is_ws(c),
{
    let u = c as u32;
    (0x09 <= u && u <= 0x0D) || u == 0x20 || u == 0x85 || u == 0xA0 || u == 0x1680 || (0x2000 <= u && u <= 0x200A)
        || u == 0x2028 || u == 0x2029 || u == 0x202F || u == 0x205F || u == 0x3000
}

/// `s` without its leading white space.
pub open spec fn strip_leading_ws(s: Seq<char>) -> Seq<char>
    decreases s.len(),
{
    if s.len() > 0 && is_ws(s[0]) {
        strip_leading_ws(s.drop_first())
    } else {
        s
    }
}

/// `s` without its trailing white space.
pub open spec fn strip_trailing_ws(s: Seq<char>) -> Seq<char>
    decreases s.len(),
{
    if s.len() > 0 && is_ws(s.last()) {
        strip_trailing_ws(s.drop_last())
    } else {
        s
    }
}

/// `s` without leading and trailing white space (as `str::trim`).
pub open spec fn trim_ws(s: Seq<char>) -> Seq<char> {
    strip_trailing_ws(strip_leading_ws(s))
}

/// The bounds `start..end` of `v` without leading and trailing white space.
pub fn trim_bounds(v: &[char]) -> (r: (usize, usize))
    ensures
        r.0 <= r.1 <= v@.len(),
        v@.subrange(r.0 as int, r.1 as int) == trim_ws(v@),
{
    let n = v.len();
    let mut start: usize = 0;
    assert(v@.subrange(0, n as int) =~= v@);
    while start < n && is_whitespace(v[start])
        invariant
            start <= n,
            n == v@.len(),
            strip_leading_ws(v@) == strip_leading_ws(v@.subrange(start as int, n as int)),
        decreases n - start,
    {
        assert(v@.subrange(start as int, n as int).drop_first() =~= v@.subrange(start + 1, n as int));
        start = start + 1;
    }
    let ghost lead = v@.subrange(start as int, n as int);
    assert(strip_leading_ws(lead) == lead);
    let mut end: usize = n;
    while end > start && is_whitespace(v[end - 1])
        invariant
            start <= end <= n,
            n == v@.len(),
            lead == v@.subrange(start as int, n as int),
            strip_trailing_ws(lead) == strip_trailing_ws(v@.subrange(start as int, end as int)),
        decreases end,
    {
        assert(v@.subrange(start as int, end as int).drop_last() =~= v@.subrange(start as int, end - 1));
        end = end - 1;
    }
    let ghost mid = v@.subrange(start as int, end as int);
    assert(strip_trailing_ws(mid) == mid);
    (start, end)
}

/// The characters `v[lo..hi]`.
pub fn sub_chars(v: &[char], lo: usize, hi: usize) -> (r: Vec<char>)
    requires
        lo <= hi <= v@.len(),
    ensures
        r@ == v@.subrange(lo as int, hi as int),
{
    let mut r: Vec<char> = Vec::new();
    let mut i: usize = lo;
    while i < hi
        invariant
            lo <= i <= hi <= v@.len(),
            r@ =~= v@.subrange(lo as int, i as int),
        decreases hi - i,
    {
        r.push(v[i]);
        i = i + 1;
    }
    r
}

/// The characters of `v` without leading and trailing white space.
pub fn trim_chars(v: &[char]) -> (r: Vec<char>)
    ensures
        r@ == trim_ws(v@),
{
    let (a, b) = trim_bounds(v);
    sub_chars(v, a, b)
}

/// The decimal digits of `n` (no leading zeros; "0" for zero).
pub open spec fn decimal(n: nat) -> Seq<char>
    decreases n,
{
    if n < 10 {
        seq![digit_char((n % 10) as nat)]
    } else {
        decimal(n / 10).push(digit_char((n % 10) as nat))
    }
}

/// The character of a decimal digit.
pub open spec fn digit_char(d: nat) -> char {
    ('0' as u32 + d) as char
}

/// Appends the decimal digits of `n` to `s`.
pub fn push_decimal(s: &mut String, n: u64)
    ensures
        final(s)@ == old(s)@ + decimal(n as nat),
    decreases n,
{
    if n >= 10 {
        push_decimal(s, n / 10);
    }
    let d = (n % 10) as u8;
    let c: char = (48u8 + d) as char;
    assert(c == digit_char((n % 10) as nat));
    push_char(s, c);
    assert(old(s)@ + decimal(n as nat) =~= (old(s)@ + (if n >= 10 { decimal((n / 10) as nat) } else { seq![] })).push(c));
}

/// Whether `c` is an ASCII decimal digit.
pub open spec fn is_digit(c: char) -> bool {
    '0' <= c <= '9'
}

/// The value of a sequence of decimal digits.
pub open spec fn digits_value(d: Seq<char>) -> int
    decreases d.len(),
{
    if d.len() == 0 {
        0
    } else {
        digits_value(d.drop_last()) * 10 + (d.last() as int - '0' as int)
    }
}

/// `d` is a non-empty sequence of decimal digits.
pub open spec fn all_digits(d: Seq<char>) -> bool {
    d.len() > 0 && forall|i: int| 0 <= i < d.len() ==> #[trigger] is_digit(d[i])
}

/// The value of an optionally signed decimal number, as Rust's integer
/// parsing reads it: an optional '+' (or '-' if `signed`), then at least one
/// digit and nothing else.
pub open spec fn signed_value(s: Seq<char>, signed: bool) -> Option<int> {
    if s.len() > 0 && s[0] == '+' && all_digits(s.drop_first()) {
        Some(digits_value(s.drop_first()))
    } else if signed && s.len() > 0 && s[0] == '-' && all_digits(s.drop_first()) {
        Some(-digits_value(s.drop_first()))
    } else if all_digits(s) {
        Some(digits_value(s))
    } else {
        None
    }
}

/// What parsing `s` as an integer within `lo..=hi` gives.
pub open spec fn parse_int_spec(s: Seq<char>, signed: bool, lo: int, hi: int) -> Option<int> {
    match signed_value(s, signed) {
        Some(v) => if lo <= v <= hi { Some(v) } else { None },
        None => None,
    }
}

/// Digit values are not negative.
pub proof fn lemma_digits_value_nonneg(d: Seq<char>)
    requires
        forall|i: int| 0 <= i < d.len() ==> #[trigger] is_digit(d[i]),
    ensures
        digits_value(d) >= 0,
    decreases d.len(),
{
    if d.len() > 0 {
        assert(is_digit(d[d.len() - 1]));
        assert forall|i: int| 0 <= i < d.drop_last().len() implies #[trigger] is_digit(d.drop_last()[i]) by {
            assert(is_digit(d[i]));
        }
        lemma_digits_value_nonneg(d.drop_last());
        assert(d.last() as int - '0' as int >= 0);
    }
}

/// The magnitude of the digits `v[from..]`, or `None` if it exceeds `bound`
/// (or there are no digits, or a non-digit).
fn digits_magnitude(v: &[char], from: usize, bound: u64) -> (r: Option<u64>)
    requires
        from <= v@.len(),
    ensures
        match r {
            Some(m) => all_digits(v@.subrange(from as int, v@.len() as int)) && m == digits_value(v@.subrange(from as int, v@.len() as int)) && m <= bound,
            None => !all_digits(v@.subrange(from as int, v@.len() as int)) || digits_value(v@.subrange(from as int, v@.len() as int)) > bound,
        },
{
    let n = v.len();
    let ghost d = v@.subrange(from as int, n as int);
    if from >= n {
        return None;
    }
    let mut i = from;
    let mut m: u64 = 0;
    let mut over = false;
    while i < n
        invariant
            from <= i <= n,
            n == v@.len(),
            d == v@.subrange(from as int, n as int),
            forall|k: int| from <= k < i ==> #[trigger] is_digit(v@[k]),
            !over ==> m == digits_value(v@.subrange(from as int, i as int)) && m <= bound,
            over ==> digits_value(v@.subrange(from as int, i as int)) > bound,
        decreases n - i,
    {
        let c = v[i];
        if c < '0' || c > '9' {
            assert(!is_digit(d[i - from]));
            return None;
        }
        let dig = (c as u32 - 48) as u64;
        proof {
            assert(v@.subrange(from as int, i + 1).drop_last() =~= v@.subrange(from as int, i as int));
            assert(v@.subrange(from as int, i as int) =~= d.subrange(0, i - from));
        }
        if !over {
            if dig > bound || m > (bound - dig) / 10 {
                over = true;
                if dig <= bound {
                    let q = (bound - dig) / 10;
                    assert(m * 10 + dig > bound) by (nonlinear_arith)
                        requires
                            m > q,
                            q == (bound - dig) / 10,
                            dig <= bound,
                    ;
                }
            } else {
                assert(m * 10 + dig <= bound) by (nonlinear_arith)
                    requires
                        m <= (bound - dig) / 10,
                        dig <= 9,
                ;
                m = m * 10 + dig;
            }
        } else {
            proof {
                let pv = digits_value(v@.subrange(from as int, i as int));
                assert(pv * 10 + dig > bound) by (nonlinear_arith)
                    requires
                        pv > bound,
                        bound >= 0,
                        dig >= 0,
                ;
            }
        }
        i = i + 1;
    }
    if over {
        return None;
    }
    assert(v@.subrange(from as int, n as int) =~= d);
    Some(m)
}

/// Parses an optionally signed decimal number in `lo..=hi` whose magnitude
/// is at most `pos` when positive and `neg` when negative.
fn parse_signed(v: &[char], signed: bool, pos: u64, neg: u64) -> (r: Option<(bool, u64)>)
    ensures
        match r {
            Some((negative, m)) => signed_value(v@, signed) == Some(if negative { -(m as int) } else { m as int }) && (negative ==> signed && m <= neg) && (!negative ==> m <= pos),
            None => match signed_value(v@, signed) {
                Some(x) => x > pos || x < -(neg as int),
                None => true,
            },
        },
{
    let n = v.len();
    if n == 0 {
        return None;
    }
    proof {
        assert(v@.subrange(1, n as int) =~= v@.drop_first());
        assert(v@.subrange(0, n as int) =~= v@);
    }
    if v[0] == '+' {
        assert(!all_digits(v@)) by {
            assert(!is_digit(v@[0]));
        }
        match digits_magnitude(v, 1, pos) {
            Some(m) => Some((false, m)),
            None => None,
        }
    } else if signed && v[0] == '-' {
        assert(!all_digits(v@)) by {
            assert(!is_digit(v@[0]));
        }
        match digits_magnitude(v, 1, neg) {
            Some(m) => Some((true, m)),
            None => None,
        }
    } else {
        match digits_magnitude(v, 0, pos) {
            Some(m) => Some((false, m)),
            None => {
                proof {
                    if all_digits(v@) {
                        lemma_digits_value_nonneg(v@);
                    }
                }
                None
            },
        }
    }
}

/// Parses `v` as a `u32` the way `str::parse::<u32>` does.
pub fn parse_u32(v: &[char]) -> (r: Option<u32>)
    ensures
        match r {
            Some(x) => parse_int_spec(v@, false, 0, u32::MAX as int) == Some(x as int),
            None => parse_int_spec(v@, false, 0, u32::MAX as int) is None,
        },
{
    match parse_signed(v, false, 0xFFFF_FFFF, 0) {
        Some((_, m)) => Some(m as u32),
        None => None,
    }
}

/// Parses `v` as an `i32` the way `str::parse::<i32>` does.
pub fn parse_i32(v: &[char]) -> (r: Option<i32>)
    ensures
        match r {
            Some(x) => parse_int_spec(v@, true, i32::MIN as int, i32::MAX as int) == Some(x as int),
            None => parse_int_spec(v@, true, i32::MIN as int, i32::MAX as int) is None,
        },
{
    match parse_signed(v, true, 0x7FFF_FFFF, 0x8000_0000) {
        Some((negative, m)) => if negative {
            Some((0 - (m as i64)) as i32)
        } else {
            Some(m as i32)
        },
        None => None,
    }
}

/// Parses `v` as an `i64` the way `str::parse::<i64>` does.
pub fn parse_i64(v: &[char]) -> (r: Option<i64>)
    ensures
        match r {
            Some(x) => parse_int_spec(v@, true, i64::MIN as int, i64::MAX as int) == Some(x as int),
            None => parse_int_spec(v@, true, i64::MIN as int, i64::MAX as int) is None,
        },
{
    match parse_signed(v, true, 0x7FFF_FFFF_FFFF_FFFF, 0x8000_0000_0000_0000) {
        Some((negative, m)) => if negative {
            if m == 0x8000_0000_0000_0000 {
                Some(i64::MIN)
            } else {
                Some(0 - (m as i64))
            }
        } else {
            Some(m as i64)
        },
        None => None,
    }
}

/// The decimal digits of `n` are digits, without white space or line
/// breaks, and read back as `n`.
pub proof fn lemma_decimal_digits(n: nat)
    ensures
        all_digits(decimal(n)),
        digits_value(decimal(n)) == n,
        trim_ws(decimal(n)) == decimal(n),
        forall|i: int| 0 <= i < decimal(n).len() ==> #[trigger] decimal(n)[i] != '\n',
    decreases n,
{
    let d = decimal(n);
    assert(d.last() == digit_char((n % 10) as nat));
    assert(digit_char((n % 10) as nat) as int == '0' as int + n % 10);
    if n < 10 {
        assert(d.drop_last() =~= Seq::<char>::empty());
        assert(digits_value(d) == digits_value(d.drop_last()) * 10 + (d.last() as int - '0' as int));
    } else {
        lemma_decimal_digits(n / 10);
        assert(d.drop_last() =~= decimal(n / 10));
        assert(digits_value(d) == digits_value(d.drop_last()) * 10 + (d.last() as int - '0' as int));
        assert(digits_value(d) == (n / 10) * 10 + n % 10);
        assert forall|i: int| 0 <= i < d.len() implies #[trigger] is_digit(d[i]) by {
            if i < d.len() - 1 {
                assert(d[i] == decimal(n / 10)[i]);
            }
        }
        assert forall|i: int| 0 <= i < d.len() implies #[trigger] d[i] != '\n' by {
            if i < d.len() - 1 {
                assert(d[i] == decimal(n / 10)[i]);
            }
        }
    }
    assert(is_digit(d[0]));
    assert(is_digit(d.last()));
    assert(!is_ws(d[0]));
    assert(!is_ws(d.last()));
    assert(strip_leading_ws(d) == d);
    assert(strip_trailing_ws(d) == d);
}

} // verus!
