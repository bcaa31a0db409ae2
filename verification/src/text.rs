use vstd::prelude::*;

verus! {

/// The Unicode `White_Space` property, the notion of whitespace that
/// `str::trim` strips: U+0009..U+000D, U+0020, U+0085, U+00A0, U+1680,
/// U+2000..U+200A, U+2028, U+2029, U+202F, U+205F and U+3000.
pub open spec fn is_white_space(c: char) -> bool {
    let u = c as u32;
    ||| 0x9 <= u && u <= 0xD
    ||| u == 0x20
    ||| u == 0x85
    ||| u == 0xA0
    ||| u == 0x1680
    ||| 0x2000 <= u && u <= 0x200A
    ||| u == 0x2028
    ||| u == 0x2029
    ||| u == 0x202F
    ||| u == 0x205F
    ||| u == 0x3000
}

/// `s` without its leading whitespace.
pub open spec fn trim_start(s: Seq<char>) -> Seq<char>
    decreases s.len(),
{
    if s.len() > 0 && is_white_space(s[0]) {
        trim_start(s.drop_first())
    } else {
        s
    }
}

/// `s` without its trailing whitespace.
pub open spec fn trim_end(s: Seq<char>) -> Seq<char>
    decreases s.len(),
{
    if s.len() > 0 && is_white_space(s.last()) {
        trim_end(s.drop_last())
    } else {
        s
    }
}

/// `s` without leading and trailing whitespace.
pub open spec fn trimmed(s: Seq<char>) -> Seq<char> {
    trim_end(trim_start(s))
}

/// Whether `c` is whitespace in the sense of `is_white_space`.
pub fn is_whitespace_char(c: char) -> (b: bool)
    ensures
        b == is_white_space(c),
{
    let u = c as u32;
    (0x9 <= u && u <= 0xD) || u == 0x20 || u == 0x85 || u == 0xA0 || u == 0x1680
        || (0x2000 <= u && u <= 0x200A) || u == 0x2028 || u == 0x2029 || u == 0x202F
        || u == 0x205F || u == 0x3000
}

/// The string slice `s` with leading and trailing whitespace removed.
pub fn trim(s: &str) -> (t: &str)
    ensures
        t@ == trimmed(s@),
{
    let n = s.unicode_len();
    let mut a: usize = 0;
    assert(s@.subrange(0, n as int) =~= s@);
    while a < n
        invariant
            a <= n,
            n == s@.len(),
            trim_start(s@) == trim_start(s@.subrange(a as int, n as int)),
        ensures
            a == n || !is_white_space(s@[a as int]),
        decreases n - a,
    {
        if !is_whitespace_char(s.get_char(a)) {
            break;
        }
        assert(s@.subrange(a as int, n as int).drop_first() =~= s@.subrange(a + 1, n as int));
        a = a + 1;
    }
    let ghost front = s@.subrange(a as int, n as int);
    assert(trim_start(s@) == front) by {
        if a < n {
            assert(front[0] == s@[a as int]);
        } else {
            assert(front.len() == 0);
        }
    }
    let mut b: usize = n;
    while b > a
        invariant
            a <= b <= n,
            n == s@.len(),
            trim_end(front) == trim_end(s@.subrange(a as int, b as int)),
        ensures
            b == a || !is_white_space(s@[b - 1]),
        decreases b - a,
    {
        if !is_whitespace_char(s.get_char(b - 1)) {
            break;
        }
        assert(s@.subrange(a as int, b as int).drop_last() =~= s@.subrange(a as int, b - 1));
        b = b - 1;
    }
    let ghost mid = s@.subrange(a as int, b as int);
    assert(trim_end(front) == mid) by {
        if b > a {
            assert(mid.last() == s@[b - 1]);
        } else {
            assert(mid.len() == 0);
        }
    }
    s.substring_char(a, b)
}

/// Whether two string slices hold the same characters.
pub fn str_eq(a: &str, b: &str) -> (r: bool)
    ensures
        r == (a@ == b@),
{
    let n = a.unicode_len();
    let m = b.unicode_len();
    if n != m {
        return false;
    }
    let mut i: usize = 0;
    while i < n
        invariant
            i <= n,
            n == a@.len(),
            m == b@.len(),
            n == m,
            forall|k: int| 0 <= k < i ==> a@[k] == b@[k],
        decreases n - i,
    {
        if a.get_char(i) != b.get_char(i) {
            return false;
        }
        i = i + 1;
    }
    assert(a@ =~= b@);
    true
}

/// Whether the string starts with the two characters `--` of a flag.
pub fn starts_with_dashes(s: &str) -> (r: bool)
    ensures
        r == (s@.len() >= 2 && s@[0] == '-' && s@[1] == '-'),
{
    let n = s.unicode_len();
    n >= 2 && s.get_char(0) == '-' && s.get_char(1) == '-'
}

/// Whether `c` is one of the ASCII digits `0`-`9`.
pub open spec fn is_digit(c: char) -> bool {
    '0' <= c && c <= '9'
}

/// The value of the decimal numeral `s` (all of whose characters are digits).
pub open spec fn digits_value(s: Seq<char>) -> nat
    decreases s.len(),
{
    if s.len() == 0 {
        0
    } else {
        (digits_value(s.drop_last()) * 10 + (s.last() as u32 - '0' as u32)) as nat
    }
}

/// The numeral part of `s` after an optional leading `+`.
pub open spec fn unsigned_digits(s: Seq<char>) -> Seq<char> {
    if s.len() > 0 && s[0] == '+' {
        s.drop_first()
    } else {
        s
    }
}

/// What `str::parse::<usize>` gives for `s`: an optional `+` followed by at
/// least one ASCII digit and nothing else, with a value that fits in a
/// `usize`; anything else (empty text, a sign alone, a `-`, whitespace,
/// other characters, overflow) is refused.
pub open spec fn parsed_usize(s: Seq<char>) -> Option<nat> {
    let d = unsigned_digits(s);
    if d.len() > 0 && all_digits(d) && digits_value(d) <= usize::MAX {
        Some(digits_value(d))
    } else {
        None
    }
}

/// Parses a decimal `usize` the way `str::parse::<usize>` does.
pub fn parse_usize(s: &str) -> (r: Option<usize>)
    ensures
        r matches Some(v) ==> parsed_usize(s@) == Some(v as nat),
        r is None ==> parsed_usize(s@) is None,
{
    let n = s.unicode_len();
    let mut start: usize = 0;
    if n > 0 && s.get_char(0) == '+' {
        start = 1;
    }
    let ghost d = unsigned_digits(s@);
    assert(d =~= s@.subrange(start as int, n as int));
    if start >= n {
        return None;
    }
    let mut value: usize = 0;
    let mut i: usize = start;
    while i < n
        invariant
            start <= i <= n,
            n == s@.len(),
            d == s@.subrange(start as int, n as int),
            d == unsigned_digits(s@),
            forall|k: int| start <= k < i ==> is_digit(#[trigger] s@[k]),
            value as nat == digits_value(s@.subrange(start as int, i as int)),
        decreases n - i,
    {
        let c = s.get_char(i);
        if !('0' <= c && c <= '9') {
            assert(d[i - start] == c);
            assert(!is_digit(d[i - start]));
            return None;
        }
        let digit = (c as u32 - '0' as u32) as usize;
        let ghost next = s@.subrange(start as int, i + 1);
        assert(next.drop_last() =~= s@.subrange(start as int, i as int));
        assert(next.last() == c);
        assert(digits_value(next) == value * 10 + digit);
        assert(d.subrange(0, (i + 1 - start) as int) =~= next);
        match value.checked_mul(10) {
            None => {
                proof { overflow_means_refused(d, (i + 1 - start) as nat); }
                return None;
            }
            Some(tens) => {
                match tens.checked_add(digit) {
                    None => {
                        proof { overflow_means_refused(d, (i + 1 - start) as nat); }
                        return None;
                    }
                    Some(v) => {
                        value = v;
                    }
                }
            }
        }
        i = i + 1;
    }
    assert(s@.subrange(start as int, n as int) =~= d);
    assert forall|k: int| 0 <= k < d.len() implies is_digit(#[trigger] d[k]) by {
        assert(d[k] == s@[start + k]);
    }
    Some(value)
}

/// The numeral part of `s` after an optional leading `+` or `-`.
pub open spec fn signed_digits(s: Seq<char>) -> Seq<char> {
    if s.len() > 0 && s[0] == '-' {
        s.drop_first()
    } else {
        unsigned_digits(s)
    }
}

/// Every character of `d` is an ASCII digit.
pub open spec fn all_digits(d: Seq<char>) -> bool {
    forall|k: int| 0 <= k < d.len() ==> is_digit(#[trigger] d[k])
}

/// What `str::parse::<i32>` gives for `s`: an optional sign (`+` or `-`)
/// followed by at least one ASCII digit and nothing else, with a value in
/// the range of `i32`; anything else is refused.
pub open spec fn parsed_i32(s: Seq<char>) -> Option<int> {
    let negative = s.len() > 0 && s[0] == '-';
    let d = signed_digits(s);
    let bound: int = if negative { 0x8000_0000 } else { 0x7fff_ffff };
    if d.len() > 0 && all_digits(d) && digits_value(d) <= bound {
        Some(if negative { -digits_value(d) } else { digits_value(d) as int })
    } else {
        None
    }
}

/// Parses a decimal `i32` the way `str::parse::<i32>` does.
pub fn parse_i32(s: &str) -> (r: Option<i32>)
    ensures
        r matches Some(v) ==> parsed_i32(s@) == Some(v as int),
        r is None ==> parsed_i32(s@) is None,
{
    let n = s.unicode_len();
    let negative = n > 0 && s.get_char(0) == '-';
    let mut start: usize = 0;
    if n > 0 && (s.get_char(0) == '-' || s.get_char(0) == '+') {
        start = 1;
    }
    let bound: u64 = if negative { 0x8000_0000 } else { 0x7fff_ffff };
    let ghost d = signed_digits(s@);
    assert(d =~= s@.subrange(start as int, n as int));
    if start >= n {
        return None;
    }
    let mut value: u64 = 0;
    let mut i: usize = start;
    while i < n
        invariant
            start <= i <= n,
            n == s@.len(),
            d == s@.subrange(start as int, n as int),
            d == signed_digits(s@),
            negative == (s@.len() > 0 && s@[0] == '-'),
            bound == (if negative { 0x8000_0000u64 } else { 0x7fff_ffffu64 }),
            forall|k: int| start <= k < i ==> is_digit(#[trigger] s@[k]),
            value as nat == digits_value(s@.subrange(start as int, i as int)),
            value <= bound,
        decreases n - i,
    {
        let c = s.get_char(i);
        if !('0' <= c && c <= '9') {
            assert(d[i - start] == c);
            assert(!is_digit(d[i - start]));
            return None;
        }
        let digit = (c as u32 - '0' as u32) as u64;
        let ghost next = s@.subrange(start as int, i + 1);
        assert(next.drop_last() =~= s@.subrange(start as int, i as int));
        assert(next.last() == c);
        assert(digits_value(next) == value * 10 + digit);
        assert(d.subrange(0, (i + 1 - start) as int) =~= next);
        value = value * 10 + digit;
        if value > bound {
            proof {
                if all_digits(d) {
                    lemma_digits_value_prefix_grows(d, (i + 1 - start) as nat);
                }
            }
            return None;
        }
        i = i + 1;
    }
    assert(s@.subrange(start as int, n as int) =~= d);
    assert forall|k: int| 0 <= k < d.len() implies is_digit(#[trigger] d[k]) by {
        assert(d[k] == s@[start + k]);
    }
    if negative {
        Some((0 - value as i64) as i32)
    } else {
        Some(value as i32)
    }
}

/// A prefix whose value exceeds `usize::MAX` makes the whole text refused.
proof fn overflow_means_refused(d: Seq<char>, j: nat)
    requires
        0 < j <= d.len(),
        digits_value(d.subrange(0, j as int)) > usize::MAX,
    ensures
        !(d.len() > 0 && all_digits(d) && digits_value(d) <= usize::MAX),
{
    if all_digits(d) {
        lemma_digits_value_prefix_grows(d, j);
    }
}

/// The value of a numeral never shrinks when digits are appended.
proof fn lemma_digits_value_prefix_grows(d: Seq<char>, j: nat)
    requires
        j <= d.len(),
        all_digits(d),
    ensures
        digits_value(d.subrange(0, j as int)) <= digits_value(d),
    decreases d.len() - j,
{
    if j < d.len() {
        lemma_digits_value_prefix_grows(d, j + 1);
        let p = d.subrange(0, (j + 1) as int);
        assert(p.drop_last() =~= d.subrange(0, j as int));
        assert(is_digit(p.last()));
    } else {
        assert(d.subrange(0, j as int) =~= d);
    }
}

/// The whitespace-separated words of `s` from position `i` on, where the
/// current word (if `start < i`) began at `start`.
pub open spec fn words_from(s: Seq<char>, i: int, start: int) -> Seq<Seq<char>>
    decreases s.len() - i,
{
    if i >= s.len() {
        if 0 <= start < s.len() {
            seq![s.subrange(start, s.len() as int)]
        } else {
            Seq::empty()
        }
    } else if is_white_space(s[i]) {
        let rest = words_from(s, i + 1, i + 1);
        if start < i {
            seq![s.subrange(start, i)] + rest
        } else {
            rest
        }
    } else {
        words_from(s, i + 1, start)
    }
}

/// The words of `s`: its maximal runs of non-whitespace characters, in
/// order (what `str::split_whitespace` yields).
pub open spec fn words(s: Seq<char>) -> Seq<Seq<char>> {
    words_from(s, 0, 0)
}

/// Splits `s` into its whitespace-separated words.
pub fn split_words(s: &str) -> (r: Vec<&str>)
    ensures
        r@.len() == words(s@).len(),
        forall|k: int| 0 <= k < r@.len() ==> #[trigger] r@[k]@ == words(s@)[k],
{
    let n = s.unicode_len();
    let mut out: Vec<&str> = Vec::new();
    let ghost mut acc: Seq<Seq<char>> = Seq::empty();
    let mut start: usize = 0;
    let mut i: usize = 0;
    while i < n
        invariant
            start <= i <= n,
            n == s@.len(),
            acc.len() == out@.len(),
            forall|k: int| 0 <= k < acc.len() ==> #[trigger] out@[k]@ == acc[k],
            words(s@) == acc + words_from(s@, i as int, start as int),
        decreases n - i,
    {
        if is_whitespace_char(s.get_char(i)) {
            let ghost rest = words_from(s@, i + 1, i + 1);
            if start < i {
                let w = s.substring_char(start, i);
                out.push(w);
                proof {
                    let single = seq![s@.subrange(start as int, i as int)];
                    assert(acc + (single + rest) =~= (acc + single) + rest);
                    acc = acc + single;
                }
            } else {
                assert(acc + rest =~= acc + rest);
            }
            start = i + 1;
        }
        i = i + 1;
    }
    if start < n {
        let w = s.substring_char(start, n);
        out.push(w);
        proof {
            acc = acc + seq![s@.subrange(start as int, n as int)];
        }
    } else {
        assert(acc + Seq::<Seq<char>>::empty() =~= acc);
    }
    assert(acc == words(s@));
    out
}

/// The first position at or after `k` that holds a `.`, or the length of
/// `w` when there is none.
pub open spec fn first_dot(w: Seq<char>, k: int) -> int
    decreases w.len() - k,
{
    if k >= w.len() {
        w.len() as int
    } else if w[k] == '.' {
        k
    } else {
        first_dot(w, k + 1)
    }
}

/// The whole and fractional digits of a decimal written `123`, `123.`,
/// `123.45` or `.45`: `None` when `w` has another form.
pub open spec fn decimal_parts(w: Seq<char>) -> Option<(Seq<char>, Seq<char>)> {
    let d = first_dot(w, 0);
    let whole = w.take(d);
    let frac = if d < w.len() { w.skip(d + 1) } else { Seq::empty() };
    if all_digits(whole) && all_digits(frac) && whole.len() + frac.len() > 0 {
        Some((whole, frac))
    } else {
        None
    }
}

/// The first three fractional digits, padded with zeros.
pub open spec fn first_three(frac: Seq<char>) -> Seq<char> {
    if frac.len() >= 3 {
        frac.take(3)
    } else {
        frac + Seq::new((3 - frac.len()) as nat, |k: int| '0')
    }
}

/// Every character of `d` is `0`.
pub open spec fn all_zero(d: Seq<char>) -> bool {
    forall|k: int| 0 <= k < d.len() ==> #[trigger] d[k] == '0'
}

/// The value in thousandths of a decimal between 0 and 1 written in plain
/// decimal notation (`0.5`, `.25`, `1`, `1.000`), rounded to the nearest
/// thousandth with halves rounded up (`0.1234` gives 123, `0.0005` gives 1).
/// Only digits and one `.` are read: a sign (`+0.5`), an exponent (`5e-1`)
/// or a named value (`inf`, `NaN`) is refused, as is a value outside
/// `[0, 1]`.
pub open spec fn unit_thousandths(w: Seq<char>) -> Option<nat> {
    match decimal_parts(w) {
        None => None,
        Some((whole, frac)) => {
            let up: nat = if frac.len() > 3 && frac[3] >= '5' { 1 } else { 0 };
            if digits_value(whole) == 0 {
                Some(digits_value(first_three(frac)) + up)
            } else if digits_value(whole) == 1 && all_zero(frac) {
                Some(1000)
            } else {
                None
            }
        }
    }
}

/// The value of a three-digit numeral.
proof fn lemma_three_digits(s: Seq<char>)
    requires
        s.len() == 3,
        all_digits(s),
    ensures
        digits_value(s) == (s[0] as u32 - '0' as u32) * 100 + (s[1] as u32 - '0' as u32) * 10
            + (s[2] as u32 - '0' as u32),
{
    let s2 = s.drop_last();
    let s1 = s2.drop_last();
    let s0 = s1.drop_last();
    assert(is_digit(s[0]) && is_digit(s[1]) && is_digit(s[2]));
    assert(s0.len() == 0);
    assert(digits_value(s0) == 0);
    assert(s1.last() == s[0]);
    assert(digits_value(s1) == (s[0] as u32 - '0' as u32));
    assert(s2.last() == s[1]);
    assert(digits_value(s2) == (s[0] as u32 - '0' as u32) * 10 + (s[1] as u32 - '0' as u32));
    assert(s.last() == s[2]);
}

/// The digit at `k` of `w`, or `0` past its end.
fn digit_or_zero(w: &str, n: usize, k: usize) -> (v: u16)
    requires
        n == w@.len(),
        forall|j: int| 0 <= j < n ==> is_digit(#[trigger] w@[j]),
    ensures
        k < n ==> v == w@[k as int] as u32 - '0' as u32,
        k >= n ==> v == 0,
        v <= 9,
{
    if k < n {
        let c = w.get_char(k);
        assert(is_digit(w@[k as int]));
        (c as u32 - '0' as u32) as u16
    } else {
        0
    }
}

/// Reads a decimal between 0 and 1 in thousandths (see `unit_thousandths`).
pub fn parse_unit_thousandths(w: &str) -> (r: Option<u16>)
    ensures
        r matches Some(v) ==> unit_thousandths(w@) == Some(v as nat),
        r is None ==> unit_thousandths(w@) is None,
{
    let n = w.unicode_len();
    let mut d: usize = 0;
    while d < n
        invariant
            d <= n,
            n == w@.len(),
            first_dot(w@, 0) == first_dot(w@, d as int),
        ensures
            d == first_dot(w@, 0),
        decreases n - d,
    {
        if w.get_char(d) == '.' {
            break;
        }
        d = d + 1;
    }
    let ghost whole = w@.take(d as int);
    let ghost frac: Seq<char> = if d < n { w@.skip(d + 1) } else { Seq::empty() };
    let frac_start: usize = if d < n { d + 1 } else { n };
    assert(frac =~= w@.subrange(frac_start as int, n as int));
    let mut k: usize = 0;
    while k < n
        invariant
            k <= n,
            n == w@.len(),
            d <= n,
            frac_start <= n,
            whole == w@.take(d as int),
            frac == w@.subrange(frac_start as int, n as int),
            d < n ==> frac_start == d + 1,
            d == n ==> frac_start == n,
            d == first_dot(w@, 0),
            frac == (if d < n { w@.skip(d + 1) } else { Seq::<char>::empty() }),
            forall|j: int| 0 <= j < k && j != d ==> is_digit(#[trigger] w@[j]),
        decreases n - k,
    {
        if k != d {
            let c = w.get_char(k);
            if !('0' <= c && c <= '9') {
                proof {
                    if k < d {
                        assert(whole[k as int] == c);
                        assert(!all_digits(whole));
                    } else {
                        assert(frac[k - frac_start] == c);
                        assert(!all_digits(frac));
                    }
                }
                return None;
            }
        }
        k = k + 1;
    }
    assert(all_digits(whole) && all_digits(frac)) by {
        assert forall|j: int| 0 <= j < whole.len() implies is_digit(#[trigger] whole[j]) by {
            assert(whole[j] == w@[j]);
        }
        assert forall|j: int| 0 <= j < frac.len() implies is_digit(#[trigger] frac[j]) by {
            assert(frac[j] == w@[frac_start + j]);
        }
    }
    if d + (n - frac_start) == 0 {
        return None;
    }
    assert(decimal_parts(w@) == Some((whole, frac)));
    // the whole part, refused as soon as it passes 1
    let mut value: u16 = 0;
    let mut i: usize = 0;
    while i < d
        invariant
            i <= d <= n,
            n == w@.len(),
            whole == w@.take(d as int),
            all_digits(whole),
            decimal_parts(w@) == Some((whole, frac)),
            value as nat == digits_value(whole.take(i as int)),
            value <= 1,
        decreases d - i,
    {
        let c = w.get_char(i);
        assert(whole[i as int] == c);
        let digit = (c as u32 - '0' as u32) as u16;
        let ghost next = whole.take(i + 1);
        assert(next.drop_last() =~= whole.take(i as int));
        assert(digits_value(next) == value * 10 + digit);
        value = value * 10 + digit;
        if value > 1 {
            proof {
                lemma_digits_value_prefix_grows(whole, (i + 1) as nat);
            }
            return None;
        }
        i = i + 1;
    }
    assert(whole.take(d as int) =~= whole);
    let frac_len = n - frac_start;
    if value == 1 {
        let mut j: usize = frac_start;
        while j < n
            invariant
                frac_start <= j <= n,
                n == w@.len(),
                frac == w@.subrange(frac_start as int, n as int),
                decimal_parts(w@) == Some((whole, frac)),
                digits_value(whole) == 1,
                forall|m: int| 0 <= m < j - frac_start ==> #[trigger] frac[m] == '0',
            decreases n - j,
        {
            if w.get_char(j) != '0' {
                assert(frac[j - frac_start] == w@[j as int]);
                return None;
            }
            j = j + 1;
        }
        return Some(1000);
    }
    let fs = w.substring_char(frac_start, n);
    assert(fs@ == frac);
    let d0 = digit_or_zero(fs, frac_len, 0);
    let d1 = digit_or_zero(fs, frac_len, 1);
    let d2 = digit_or_zero(fs, frac_len, 2);
    let up: u16 = if frac_len > 3 && fs.get_char(3) >= '5' { 1 } else { 0 };
    proof {
        let t = first_three(frac);
        assert(t.len() == 3);
        assert(t[0] == (if frac.len() > 0 { frac[0] } else { '0' }));
        assert(t[1] == (if frac.len() > 1 { frac[1] } else { '0' }));
        assert(t[2] == (if frac.len() > 2 { frac[2] } else { '0' }));
        assert(all_digits(t)) by {
            assert forall|m: int| 0 <= m < 3 implies is_digit(#[trigger] t[m]) by {
                if m < frac.len() {
                    assert(is_digit(frac[m]));
                }
            }
        }
        lemma_three_digits(t);
    }
    Some(d0 * 100 + d1 * 10 + d2 + up)
}

/// A name for what `str::to_lowercase` returns for a string: the string
/// under the Unicode lowercase mapping, in which one character may become
/// several and a capital sigma lowers according to its place in a word.
/// The mapping takes tables to state, so it is named here and not spelled
/// out; nothing more of it (such as lowering twice being lowering once) is
/// claimed.
pub uninterp spec fn lowercase(s: Seq<char>) -> Seq<char>;

/// Calls `str::to_lowercase`. Its contract claims only that the result is the
/// named lowercase form of the argument, a function of the string alone.
#[verifier::external_body]
pub(crate) fn to_lowercase(s: &str) -> (r: String)
    ensures
        r@ == lowercase(s@),
{
    s.to_lowercase()
}

} // verus!
