//! Character-level string helpers with exact specifications over `Seq<char>`.
use vstd::prelude::*;
use vstd::string::*;

verus! {

/// The ASCII decimal digit for `d` (which is below ten).
pub open spec fn digit_char(d: nat) -> char {
    (48 + d) as char
}

/// The decimal notation of `n`, without sign or leading zeros.
pub open spec fn decimal(n: nat) -> Seq<char>
    decreases n,
{
    if n < 10 {
        seq![digit_char(n)]
    } else {
        decimal(n / 10).push(digit_char(n % 10))
    }
}

/// `std::string::String::push`: appends one character.
#[verifier::external_body]
pub(crate) fn push_char(s: &mut String, c: char)
    ensures
        final(s)@ == old(s)@.push(c),
{
    s.push(c);
}

fn digit(d: u64) -> (c: char)
    requires
        d < 10,
    ensures
        c == digit_char(d as nat),
{
    let b: u8 = (d as u8) + 48u8;
    b as char
}

/// The decimal notation of `n`, as `n.to_string()` writes it.
pub fn decimal_string(n: u64) -> (s: String)
    ensures
        s@ == decimal(n as nat),
    decreases n,
{
    if n < 10 {
        let mut s = String::new();
        push_char(&mut s, digit(n));
        s
    } else {
        let mut s = decimal_string(n / 10);
        push_char(&mut s, digit(n % 10));
        s
    }
}

} // verus!

verus! {

/// The Unicode `White_Space` property: tab, line feed, vertical tab, form
/// feed, carriage return, space, next line, no-break space, ogham space mark,
/// the spaces U+2000 to U+200A, line and paragraph separators, narrow
/// no-break space, medium mathematical space and ideographic space.
pub open spec fn unicode_white_space(c: char) -> bool {
    let v = c as u32;
    ||| 0x09 <= v <= 0x0D
    ||| v == 0x20
    ||| v == 0x85
    ||| v == 0xA0
    ||| v == 0x1680
    ||| 0x2000 <= v <= 0x200A
    ||| v == 0x2028
    ||| v == 0x2029
    ||| v == 0x202F
    ||| v == 0x205F
    ||| v == 0x3000
}

/// Whether `c` has the Unicode `White_Space` property, as
/// `char::is_whitespace` answers.
fn is_whitespace(c: char) -> (b: bool)
    ensures
        b == unicode_white_space(c),
{
    let v = c as u32;
    (0x09 <= v && v <= 0x0D) || v == 0x20 || v == 0x85 || v == 0xA0 || v == 0x1680 || (0x2000 <= v && v
        <= 0x200A) || v == 0x2028 || v == 0x2029 || v == 0x202F || v == 0x205F || v == 0x3000
}

/// `s` without its leading whitespace.
pub open spec fn trim_start_ws(s: Seq<char>) -> Seq<char>
    decreases s.len(),
{
    if s.len() > 0 && unicode_white_space(s[0]) {
        trim_start_ws(s.drop_first())
    } else {
        s
    }
}

/// `s` without its trailing whitespace.
pub open spec fn trim_end_ws(s: Seq<char>) -> Seq<char>
    decreases s.len(),
{
    if s.len() > 0 && unicode_white_space(s.last()) {
        trim_end_ws(s.drop_last())
    } else {
        s
    }
}

/// `s` without leading and trailing whitespace, as `str::trim` gives it.
pub open spec fn trimmed(s: Seq<char>) -> Seq<char> {
    trim_end_ws(trim_start_ws(s))
}

/// `s` without any leading `c`.
pub open spec fn trim_start_matching(s: Seq<char>, c: char) -> Seq<char>
    decreases s.len(),
{
    if s.len() > 0 && s[0] == c {
        trim_start_matching(s.drop_first(), c)
    } else {
        s
    }
}

/// `s` without any trailing `c`, as `str::trim_end_matches(c)` gives it.
pub open spec fn trim_end_matching(s: Seq<char>, c: char) -> Seq<char>
    decreases s.len(),
{
    if s.len() > 0 && s.last() == c {
        trim_end_matching(s.drop_last(), c)
    } else {
        s
    }
}

/// `s` without leading and trailing `c`, as `str::trim_matches(c)` gives it.
pub open spec fn trim_matching(s: Seq<char>, c: char) -> Seq<char> {
    trim_end_matching(trim_start_matching(s, c), c)
}

/// `t` is a prefix of `s`.
pub open spec fn has_prefix(s: Seq<char>, t: Seq<char>) -> bool {
    t.len() <= s.len() && s.subrange(0, t.len() as int) == t
}

/// `t` is a suffix of `s`.
pub open spec fn has_suffix(s: Seq<char>, t: Seq<char>) -> bool {
    t.len() <= s.len() && s.subrange(s.len() - t.len(), s.len() as int) == t
}

/// `t` occurs in `s` at position `i`.
pub open spec fn occurs_at(s: Seq<char>, t: Seq<char>, i: int) -> bool {
    0 <= i && i + t.len() <= s.len() && s.subrange(i, i + t.len()) == t
}

/// `t` occurs somewhere in `s`.
pub open spec fn has_infix(s: Seq<char>, t: Seq<char>) -> bool {
    exists|i: int| occurs_at(s, t, i)
}

proof fn lemma_trim_start_ws_step(s: Seq<char>, i: int)
    requires
        0 <= i < s.len(),
        unicode_white_space(s[i]),
    ensures
        trim_start_ws(s.subrange(i, s.len() as int)) == trim_start_ws(s.subrange(i + 1, s.len() as int)),
{
    assert(s.subrange(i, s.len() as int).drop_first() =~= s.subrange(i + 1, s.len() as int));
}

proof fn lemma_trim_end_ws_step(s: Seq<char>, j: int)
    requires
        0 < j <= s.len(),
        unicode_white_space(s[j - 1]),
    ensures
        trim_end_ws(s.subrange(0, j)) == trim_end_ws(s.subrange(0, j - 1)),
{
    assert(s.subrange(0, j).drop_last() =~= s.subrange(0, j - 1));
}

/// `str::trim_start`.
pub fn trim_start(s: &str) -> (r: &str)
    ensures
        r@ == trim_start_ws(s@),
{
    let n = s.unicode_len();
    let mut i: usize = 0;
    assert(s@.subrange(0, n as int) =~= s@);
    while i < n
        invariant
            n == s@.len(),
            i <= n,
            trim_start_ws(s@) == trim_start_ws(s@.subrange(i as int, n as int)),
        ensures
            i <= n,
            trim_start_ws(s@) == trim_start_ws(s@.subrange(i as int, n as int)),
            i == n || !unicode_white_space(s@[i as int]),
        decreases n - i,
    {
        if !is_whitespace(s.get_char(i)) {
            break;
        }
        proof {
            lemma_trim_start_ws_step(s@, i as int);
        }
        i = i + 1;
    }
    s.substring_char(i, n)
}

/// `str::trim_end`.
pub fn trim_end(s: &str) -> (r: &str)
    ensures
        r@ == trim_end_ws(s@),
{
    let n = s.unicode_len();
    let mut j: usize = n;
    assert(s@.subrange(0, n as int) =~= s@);
    while j > 0
        invariant
            n == s@.len(),
            j <= n,
            trim_end_ws(s@) == trim_end_ws(s@.subrange(0, j as int)),
        ensures
            j <= n,
            trim_end_ws(s@) == trim_end_ws(s@.subrange(0, j as int)),
            j == 0 || !unicode_white_space(s@[j - 1]),
        decreases j,
    {
        if !is_whitespace(s.get_char(j - 1)) {
            break;
        }
        proof {
            lemma_trim_end_ws_step(s@, j as int);
        }
        j = j - 1;
    }
    s.substring_char(0, j)
}

/// `str::trim`: leading and trailing whitespace removed.
pub fn trim(s: &str) -> (r: &str)
    ensures
        r@ == trimmed(s@),
{
    trim_end(trim_start(s))
}

/// `str::trim_start_matches(c)` for a single character.
pub fn trim_start_char(s: &str, c: char) -> (r: &str)
    ensures
        r@ == trim_start_matching(s@, c),
{
    let n = s.unicode_len();
    let mut i: usize = 0;
    assert(s@.subrange(0, n as int) =~= s@);
    while i < n
        invariant
            n == s@.len(),
            i <= n,
            trim_start_matching(s@, c) == trim_start_matching(s@.subrange(i as int, n as int), c),
        ensures
            i <= n,
            trim_start_matching(s@, c) == trim_start_matching(s@.subrange(i as int, n as int), c),
            i == n || s@[i as int] != c,
        decreases n - i,
    {
        if s.get_char(i) != c {
            break;
        }
        assert(s@.subrange(i as int, n as int).drop_first() =~= s@.subrange(i + 1, n as int));
        i = i + 1;
    }
    s.substring_char(i, n)
}

/// `str::trim_end_matches(c)` for a single character.
pub fn trim_end_char(s: &str, c: char) -> (r: &str)
    ensures
        r@ == trim_end_matching(s@, c),
{
    let n = s.unicode_len();
    let mut j: usize = n;
    assert(s@.subrange(0, n as int) =~= s@);
    while j > 0
        invariant
            n == s@.len(),
            j <= n,
            trim_end_matching(s@, c) == trim_end_matching(s@.subrange(0, j as int), c),
        ensures
            j <= n,
            trim_end_matching(s@, c) == trim_end_matching(s@.subrange(0, j as int), c),
            j == 0 || s@[j - 1] != c,
        decreases j,
    {
        if s.get_char(j - 1) != c {
            break;
        }
        assert(s@.subrange(0, j as int).drop_last() =~= s@.subrange(0, j - 1));
        j = j - 1;
    }
    s.substring_char(0, j)
}

/// `str::trim_matches(c)` for a single character.
pub fn trim_char(s: &str, c: char) -> (r: &str)
    ensures
        r@ == trim_matching(s@, c),
{
    trim_end_char(trim_start_char(s, c), c)
}

/// Whether `s` and `t` hold the same characters.
pub fn str_eq(s: &str, t: &str) -> (b: bool)
    ensures
        b == (s@ == t@),
{
    let n = s.unicode_len();
    let m = t.unicode_len();
    if n != m {
        return false;
    }
    let mut i: usize = 0;
    while i < n
        invariant
            n == s@.len(),
            m == t@.len(),
            n == m,
            i <= n,
            forall|k: int| 0 <= k < i ==> s@[k] == t@[k],
        decreases n - i,
    {
        if s.get_char(i) != t.get_char(i) {
            return false;
        }
        i = i + 1;
    }
    assert(s@ =~= t@);
    true
}

/// Whether `t` occurs in `s` at character position `at`.
fn matches_at(s: &str, t: &str, at: usize) -> (b: bool)
    requires
        at <= s@.len(),
    ensures
        b == occurs_at(s@, t@, at as int),
{
    let n = s.unicode_len();
    let m = t.unicode_len();
    if m > n - at {
        return false;
    }
    let mut k: usize = 0;
    while k < m
        invariant
            n == s@.len(),
            m == t@.len(),
            at + m <= n,
            k <= m,
            forall|q: int| 0 <= q < k ==> s@[at + q] == t@[q],
        decreases m - k,
    {
        if s.get_char(at + k) != t.get_char(k) {
            assert(s@.subrange(at as int, at + m)[k as int] != t@[k as int]);
            return false;
        }
        k = k + 1;
    }
    assert(s@.subrange(at as int, at + m) =~= t@);
    true
}

/// `str::starts_with` for a string pattern.
pub fn starts_with(s: &str, t: &str) -> (b: bool)
    ensures
        b == has_prefix(s@, t@),
{
    matches_at(s, t, 0)
}

/// `str::ends_with` for a string pattern.
pub fn ends_with(s: &str, t: &str) -> (b: bool)
    ensures
        b == has_suffix(s@, t@),
{
    let n = s.unicode_len();
    let m = t.unicode_len();
    if m > n {
        return false;
    }
    matches_at(s, t, n - m)
}

/// `str::contains` for a string pattern.
pub fn contains(s: &str, t: &str) -> (b: bool)
    ensures
        b == has_infix(s@, t@),
{
    let n = s.unicode_len();
    let mut i: usize = 0;
    while i < n
        invariant
            n == s@.len(),
            i <= n,
            forall|q: int| 0 <= q < i ==> !occurs_at(s@, t@, q),
        decreases n - i,
    {
        if matches_at(s, t, i) {
            return true;
        }
        i = i + 1;
    }
    if matches_at(s, t, n) {
        return true;
    }
    assert forall|q: int| !occurs_at(s@, t@, q) by {
        if 0 <= q && q + t@.len() <= s@.len() {
            assert(q <= n);
        }
    }
    false
}

/// `str::strip_prefix` for a string pattern.
pub fn strip_prefix<'a>(s: &'a str, p: &str) -> (r: Option<&'a str>)
    ensures
        has_prefix(s@, p@) ==> (r matches Some(rest) && rest@ == s@.subrange(p@.len() as int, s@.len() as int)),
        !has_prefix(s@, p@) ==> r is None,
{
    if starts_with(s, p) {
        let n = s.unicode_len();
        let m = p.unicode_len();
        Some(s.substring_char(m, n))
    } else {
        None
    }
}

} // verus!

verus! {

/// `c` is an ASCII decimal digit.
pub open spec fn is_digit(c: char) -> bool {
    '0' <= c && c <= '9'
}

/// The value of the ASCII digit `c`.
pub open spec fn digit_value(c: char) -> nat {
    (c as int - 48) as nat
}

/// The value of the decimal digits `s`.
pub open spec fn digits_value(s: Seq<char>) -> nat
    decreases s.len(),
{
    if s.len() == 0 {
        0
    } else {
        digits_value(s.drop_last()) * 10 + digit_value(s.last())
    }
}

/// The digits of an unsigned number: `s` without one leading `+`.
pub open spec fn unsigned_digits(s: Seq<char>) -> Seq<char> {
    if s.len() > 0 && s[0] == '+' {
        s.drop_first()
    } else {
        s
    }
}

/// What `str::parse` gives for an unsigned integer type whose largest value
/// is `max`: an optional `+` followed by at least one decimal digit, and
/// nothing else, whose value does not exceed `max`.
pub open spec fn parse_unsigned(s: Seq<char>, max: nat) -> Option<nat> {
    let d = unsigned_digits(s);
    if d.len() > 0 && (forall|i: int| 0 <= i < d.len() ==> is_digit(d[i])) && digits_value(d) <= max {
        Some(digits_value(d))
    } else {
        None
    }
}

proof fn lemma_digits_value_monotone(d: Seq<char>, i: int, j: int)
    requires
        0 <= i <= j <= d.len(),
    ensures
        digits_value(d.take(i)) <= digits_value(d.take(j)),
    decreases j - i,
{
    if i < j {
        lemma_digits_value_monotone(d, i, j - 1);
        assert(d.take(j).drop_last() =~= d.take(j - 1));
    }
}

/// The decimal notation of `n` is a non-empty run of digits whose value is
/// `n`, with no leading zero unless it is `0` itself.
pub proof fn lemma_decimal_digits(n: nat)
    ensures
        decimal(n).len() > 0,
        forall|i: int| 0 <= i < decimal(n).len() ==> is_digit(#[trigger] decimal(n)[i]),
        digits_value(decimal(n)) == n,
        n > 0 ==> decimal(n)[0] != '0',
    decreases n,
{
    let r = n % 10;
    assert(digit_char(r) as int == 48 + r);
    assert(digit_value(digit_char(r)) == r);
    if n >= 10 {
        lemma_decimal_digits(n / 10);
        let d = decimal(n);
        assert(d.drop_last() =~= decimal(n / 10));
        assert(d.last() == digit_char(r));
        assert(d[0] == decimal(n / 10)[0]);
        assert(n == (n / 10) * 10 + r);
        assert(digits_value(d) == digits_value(d.drop_last()) * 10 + digit_value(d.last()));
    } else {
        let d = decimal(n);
        assert(d.drop_last() =~= Seq::<char>::empty());
        assert(r == n);
        assert(digits_value(d) == digits_value(d.drop_last()) * 10 + digit_value(d.last()));
    }
}

/// Writing a number in decimal and parsing it back gives the number: for
/// every `n` not above `max`, the parse of its decimal notation is `n`.
pub proof fn lemma_parse_decimal(n: nat, max: nat)
    requires
        n <= max,
    ensures
        parse_unsigned(decimal(n), max) == Some(n),
{
    lemma_decimal_digits(n);
    let d = decimal(n);
    assert(d[0] != '+');
    assert(unsigned_digits(d) == d);
}

/// Parse `s` as an unsigned decimal integer no larger than `max`, as
/// `str::parse` does for unsigned integer types.
pub fn parse_unsigned_upto(s: &str, max: u64) -> (r: Option<u64>)
    ensures
        r matches Some(v) ==> parse_unsigned(s@, max as nat) == Some(v as nat),
        r is None ==> parse_unsigned(s@, max as nat) is None,
{
    let n = s.unicode_len();
    let start: usize = if n > 0 && s.get_char(0) == '+' { 1 } else { 0 };
    let ghost d = unsigned_digits(s@);
    assert(d =~= s@.subrange(start as int, n as int));
    if start >= n {
        return None;
    }
    let mut acc: u64 = 0;
    let mut i: usize = start;
    while i < n
        invariant
            n == s@.len(),
            start <= i <= n,
            d == s@.subrange(start as int, n as int),
            d == unsigned_digits(s@),
            forall|k: int| 0 <= k < i - start ==> is_digit(d[k]),
            acc as nat == digits_value(d.take(i - start)),
            acc <= max,
        decreases n - i,
    {
        let c = s.get_char(i);
        let ghost k = i - start;
        assert(d[k] == c);
        if !('0' <= c && c <= '9') {
            assert(!is_digit(d[k as int]));
            return None;
        }
        let v: u64 = (c as u64) - 48;
        assert(d.take(k + 1).drop_last() =~= d.take(k));
        assert(digits_value(d.take(k + 1)) == digits_value(d.take(k)) * 10 + v);
        if v > max || acc > (max - v) / 10 {
            assert(acc * 10 + v > max) by (nonlinear_arith)
                requires
                    v > max || acc > (max - v) / 10,
                    v <= 9,
            ;
            proof {
                if forall|q: int| 0 <= q < d.len() ==> is_digit(d[q]) {
                    lemma_digits_value_monotone(d, k + 1, d.len() as int);
                    assert(d.take(d.len() as int) =~= d);
                    assert(digits_value(d.take(k + 1)) > max);
                    assert(digits_value(d) > max);
                }
            }
            return None;
        }
        assert(acc * 10 + v <= max) by (nonlinear_arith)
            requires
                v <= max,
                acc <= (max - v) / 10,
        ;
        acc = acc * 10 + v;
        i = i + 1;
    }
    assert(d.take(n - start) =~= d);
    Some(acc)
}

} // verus!

verus! {

/// `s` with every occurrence of `p` replaced by `r`, scanning from the left
/// without overlaps, as `str::replace` does for a non-empty pattern.
pub open spec fn replaced(s: Seq<char>, p: Seq<char>, r: Seq<char>) -> Seq<char>
    decreases s.len(),
{
    if s.len() == 0 || p.len() == 0 {
        s
    } else if has_prefix(s, p) {
        r + replaced(s.subrange(p.len() as int, s.len() as int), p, r)
    } else {
        seq![s[0]] + replaced(s.drop_first(), p, r)
    }
}

/// `str::replace` for a non-empty string pattern.
pub fn replace_all(s: &str, p: &str, r: &str) -> (out: String)
    requires
        p@.len() > 0,
    ensures
        out@ == replaced(s@, p@, r@),
{
    let n = s.unicode_len();
    let m = p.unicode_len();
    let mut out = String::new();
    let mut i: usize = 0;
    assert(s@.subrange(0, n as int) =~= s@);
    while i < n
        invariant
            n == s@.len(),
            m == p@.len(),
            m > 0,
            i <= n,
            out@ + replaced(s@.subrange(i as int, n as int), p@, r@) == replaced(s@, p@, r@),
        decreases n - i,
    {
        let ghost rest = s@.subrange(i as int, n as int);
        if matches_at(s, p, i) {
            assert(rest.subrange(0, m as int) =~= s@.subrange(i as int, i + m));
            assert(rest.subrange(m as int, rest.len() as int) =~= s@.subrange(i + m, n as int));
            out.append(r);
            assert(out@ + replaced(s@.subrange(i + m, n as int), p@, r@) =~= replaced(s@, p@, r@));
            i = i + m;
        } else {
            assert(!has_prefix(rest, p@)) by {
                if has_prefix(rest, p@) {
                    assert(rest.subrange(0, m as int) =~= s@.subrange(i as int, i + m));
                }
            }
            let c = s.get_char(i);
            push_char(&mut out, c);
            assert(rest.drop_first() =~= s@.subrange(i + 1, n as int));
            assert(out@ + replaced(s@.subrange(i + 1, n as int), p@, r@) =~= replaced(s@, p@, r@));
            i = i + 1;
        }
    }
    assert(s@.subrange(n as int, n as int) =~= Seq::<char>::empty());
    assert(out@ =~= out@ + Seq::<char>::empty());
    out
}

} // verus!
