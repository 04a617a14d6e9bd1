//! Text primitives shared by the library: decimal digits, whitespace
//! trimming, substring search and integer parsing, each with the meaning
//! that std gives the corresponding operation.

use vstd::prelude::*;

verus! {

/// The text of an optional string.
pub open spec fn opt_text(o: Option<String>) -> Option<Seq<char>> {
    match o {
        Some(s) => Some(s@),
        None => None,
    }
}

/// The character of a decimal digit `d` (`d < 10`).
pub open spec fn digit_char(d: nat) -> char {
    ('0' as u32 + d) as char
}

/// Decimal notation of `n`, most significant digit first, without leading
/// zeros (what `to_string` gives for an unsigned integer).
pub open spec fn decimal(n: nat) -> Seq<char>
    decreases n,
{
    if n < 10 {
        seq![digit_char(n)]
    } else {
        decimal(n / 10).push(digit_char(n % 10))
    }
}

fn digit_str(d: u64) -> (s: &'static str)
    requires
        d < 10,
    ensures
        s@ == seq![digit_char(d as nat)],
{
    proof {
        reveal_strlit("0");
        reveal_strlit("1");
        reveal_strlit("2");
        reveal_strlit("3");
        reveal_strlit("4");
        reveal_strlit("5");
        reveal_strlit("6");
        reveal_strlit("7");
        reveal_strlit("8");
        reveal_strlit("9");
    }
    match d {
        0 => "0",
        1 => "1",
        2 => "2",
        3 => "3",
        4 => "4",
        5 => "5",
        6 => "6",
        7 => "7",
        8 => "8",
        _ => "9",
    }
}

/// Decimal notation of an unsigned integer.
pub fn decimal_string(n: u64) -> (s: String)
    ensures
        s@ == decimal(n as nat),
    decreases n,
{
    if n < 10 {
        digit_str(n).to_owned()
    } else {
        let mut s = decimal_string(n / 10);
        s.append(digit_str(n % 10));
        s
    }
}


/// A character with the Unicode `White_Space` property, the set that
/// `char::is_whitespace` documents (and `str::trim` removes).
pub open spec fn is_white_space(c: char) -> bool {
    let v = c as u32;
    ||| 0x09 <= v <= 0x0d
    ||| v == 0x20
    ||| v == 0x85
    ||| v == 0xa0
    ||| v == 0x1680
    ||| 0x2000 <= v <= 0x200a
    ||| v == 0x2028
    ||| v == 0x2029
    ||| v == 0x202f
    ||| v == 0x205f
    ||| v == 0x3000
}

/// Whether `c` has the Unicode `White_Space` property.
pub fn char_is_white_space(c: char) -> (b: bool)
    ensures
        b == is_white_space(c),
{
    let v = c as u32;
    (0x09 <= v && v <= 0x0d) || v == 0x20 || v == 0x85 || v == 0xa0 || v == 0x1680 || (0x2000
        <= v && v <= 0x200a) || v == 0x2028 || v == 0x2029 || v == 0x202f || v == 0x205f || v
        == 0x3000
}

/// Index of the first character of `s` at or after `i` that is not white space
/// (`s.len()` when there is none).
pub open spec fn skip_white_space(s: Seq<char>, i: int) -> int
    decreases s.len() - i,
{
    if i < 0 || i >= s.len() {
        s.len() as int
    } else if is_white_space(s[i]) {
        skip_white_space(s, i + 1)
    } else {
        i
    }
}

/// End of `s[lo..j]` once its trailing white space is cut off.
pub open spec fn cut_white_space(s: Seq<char>, lo: int, j: int) -> int
    decreases j - lo,
{
    if j <= lo {
        lo
    } else if is_white_space(s[j - 1]) {
        cut_white_space(s, lo, j - 1)
    } else {
        j
    }
}

/// `s` without its leading and trailing white space (`str::trim`).
pub open spec fn trimmed(s: Seq<char>) -> Seq<char> {
    let lo = skip_white_space(s, 0);
    s.subrange(lo, cut_white_space(s, lo, s.len() as int))
}

proof fn lemma_skip_white_space(s: Seq<char>, i: int)
    requires
        0 <= i <= s.len(),
    ensures
        i <= skip_white_space(s, i) <= s.len(),
        forall|k: int| i <= k < skip_white_space(s, i) ==> is_white_space(#[trigger] s[k]),
        skip_white_space(s, i) < s.len() ==> !is_white_space(s[skip_white_space(s, i)]),
    decreases s.len() - i,
{
    if i < s.len() && is_white_space(s[i]) {
        lemma_skip_white_space(s, i + 1);
    }
}

proof fn lemma_cut_white_space(s: Seq<char>, lo: int, j: int)
    requires
        0 <= lo <= j <= s.len(),
    ensures
        lo <= cut_white_space(s, lo, j) <= j,
        forall|k: int| cut_white_space(s, lo, j) <= k < j ==> is_white_space(#[trigger] s[k]),
        cut_white_space(s, lo, j) > lo ==> !is_white_space(s[cut_white_space(s, lo, j) - 1]),
    decreases j - lo,
{
    if j > lo && is_white_space(s[j - 1]) {
        lemma_cut_white_space(s, lo, j - 1);
    }
}

/// What trimming keeps: a stretch `s[i..j]` such that everything before it
/// and everything after it is white space, and that neither starts nor ends
/// with white space when it is not empty.
pub proof fn lemma_trimmed_is_core(s: Seq<char>)
    ensures
        exists|i: int, j: int|
            {
                &&& 0 <= i <= j <= s.len()
                &&& trimmed(s) == s.subrange(i, j)
                &&& forall|k: int| 0 <= k < i ==> is_white_space(#[trigger] s[k])
                &&& forall|k: int| j <= k < s.len() ==> is_white_space(#[trigger] s[k])
                &&& i < j ==> !is_white_space(s[i]) && !is_white_space(s[j - 1])
            },
{
    lemma_skip_white_space(s, 0);
    let i = skip_white_space(s, 0);
    lemma_cut_white_space(s, i, s.len() as int);
    let j = cut_white_space(s, i, s.len() as int);
    assert(forall|k: int| 0 <= k < i ==> is_white_space(#[trigger] s[k]));
    assert(trimmed(s) == s.subrange(i, j));
}

/// `s` with leading and trailing white space removed, as `str::trim` does.
pub fn trim(s: &str) -> (r: String)
    ensures
        r@ == trimmed(s@),
{
    let n = s.unicode_len();
    let mut lo: usize = 0;
    while lo < n && char_is_white_space(s.get_char(lo))
        invariant
            n == s@.len(),
            lo <= n,
            skip_white_space(s@, lo as int) == skip_white_space(s@, 0),
        decreases n - lo,
    {
        lo = lo + 1;
    }
    let mut hi: usize = n;
    while hi > lo && char_is_white_space(s.get_char(hi - 1))
        invariant
            n == s@.len(),
            lo <= hi <= n,
            skip_white_space(s@, 0) == lo,
            cut_white_space(s@, lo as int, hi as int) == cut_white_space(s@, lo as int, n as int),
        decreases hi,
    {
        hi = hi - 1;
    }
    s.substring_char(lo, hi).to_owned()
}


/// An ASCII decimal digit.
pub open spec fn is_digit(c: char) -> bool {
    48 <= c as u32 <= 57
}

/// Every character of `d` is an ASCII decimal digit.
pub open spec fn all_digits(d: Seq<char>) -> bool {
    forall|i: int| 0 <= i < d.len() ==> #[trigger] is_digit(d[i])
}

/// The number that the digit string `d` denotes in base ten.
pub open spec fn digits_value(d: Seq<char>) -> nat
    decreases d.len(),
{
    if d.len() == 0 {
        0
    } else {
        digits_value(d.drop_last()) * 10 + (d.last() as u32 - 48) as nat
    }
}

/// What `u32::from_str` accepts and gives back: an optional `+`, then one
/// or more ASCII digits whose value fits in `u32`; anything else is refused.
pub open spec fn parse_u32_spec(s: Seq<char>) -> Option<u32> {
    let d = if s.len() > 0 && s[0] == '+' {
        s.drop_first()
    } else {
        s
    };
    if d.len() > 0 && all_digits(d) && digits_value(d) <= u32::MAX {
        Some(digits_value(d) as u32)
    } else {
        None
    }
}

/// What `i32::from_str` accepts and gives back: an optional `+` or `-`,
/// then one or more ASCII digits whose signed value fits in `i32`.
pub open spec fn parse_i32_spec(s: Seq<char>) -> Option<i32> {
    let negative = s.len() > 0 && s[0] == '-';
    let d = if s.len() > 0 && (s[0] == '+' || s[0] == '-') {
        s.drop_first()
    } else {
        s
    };
    if d.len() > 0 && all_digits(d) {
        if negative && digits_value(d) <= 0x8000_0000 {
            Some((0 - digits_value(d)) as i32)
        } else if !negative && digits_value(d) <= 0x7fff_ffff {
            Some(digits_value(d) as i32)
        } else {
            None
        }
    } else {
        None
    }
}

proof fn lemma_digits_value_grows(d: Seq<char>, k: int)
    requires
        0 <= k <= d.len(),
        all_digits(d),
    ensures
        digits_value(d.subrange(0, k)) <= digits_value(d),
    decreases d.len() - k,
{
    if k < d.len() {
        lemma_digits_value_grows(d, k + 1);
        let p = d.subrange(0, k + 1);
        assert(p.drop_last() =~= d.subrange(0, k));
        assert(is_digit(d[k]));
    } else {
        assert(d.subrange(0, k) =~= d);
    }
}

/// The value of the digits `s[from..to]`, where they are all digits and the
/// value is at most `limit`; `None` otherwise.
fn bounded_digits_value(s: &str, from: usize, to: usize, limit: u64) -> (r: Option<u64>)
    requires
        from <= to <= s@.len(),
        limit <= 0x1_0000_0000,
    ensures
        ({
            let d = s@.subrange(from as int, to as int);
            match r {
                Some(v) => all_digits(d) && digits_value(d) <= limit && v == digits_value(d),
                None => !(all_digits(d) && digits_value(d) <= limit),
            }
        }),
{
    let ghost d = s@.subrange(from as int, to as int);
    let mut acc: u64 = 0;
    let mut i: usize = from;
    while i < to
        invariant
            from <= i <= to <= s@.len(),
            limit <= 0x1_0000_0000,
            d == s@.subrange(from as int, to as int),
            all_digits(s@.subrange(from as int, i as int)),
            acc == digits_value(s@.subrange(from as int, i as int)),
            acc <= limit,
        decreases to - i,
    {
        let c = s.get_char(i);
        let v = c as u32;
        let ghost p = s@.subrange(from as int, i as int);
        let ghost q = s@.subrange(from as int, i + 1);
        assert(q.drop_last() =~= p);
        assert(q.last() == c);
        if v < 48 || v > 57 {
            assert(d[i - from] == c);
            assert(!is_digit(d[i - from]));
            return None;
        }
        assert(digits_value(q) == digits_value(p) * 10 + (v - 48) as nat);
        acc = acc * 10 + (v - 48) as u64;
        assert forall|j: int| 0 <= j < q.len() implies #[trigger] is_digit(q[j]) by {
            if j < p.len() {
                assert(q[j] == p[j]);
            }
        }
        if acc > limit {
            proof {
                if all_digits(d) {
                    assert(d.subrange(0, i + 1 - from) =~= q);
                    lemma_digits_value_grows(d, i + 1 - from);
                }
            }
            return None;
        }
        i = i + 1;
    }
    assert(s@.subrange(from as int, i as int) =~= d);
    Some(acc)
}

/// Parses a `u32` the way `str::parse::<u32>` does.
pub fn parse_u32(s: &str) -> (r: Option<u32>)
    ensures
        r == parse_u32_spec(s@),
{
    let n = s.unicode_len();
    let from: usize = if n > 0 && s.get_char(0) == '+' {
        1
    } else {
        0
    };
    if from == n {
        return None;
    }
    proof {
        if from == 1 {
            assert(s@.subrange(1, n as int) =~= s@.drop_first());
        } else {
            assert(s@.subrange(0, n as int) =~= s@);
        }
    }
    match bounded_digits_value(s, from, n, 0xffff_ffff) {
        Some(v) => Some(v as u32),
        None => None,
    }
}

/// Parses an `i32` the way `str::parse::<i32>` does.
pub fn parse_i32(s: &str) -> (r: Option<i32>)
    ensures
        r == parse_i32_spec(s@),
{
    let n = s.unicode_len();
    let negative = n > 0 && s.get_char(0) == '-';
    let from: usize = if n > 0 && (s.get_char(0) == '+' || negative) {
        1
    } else {
        0
    };
    if from == n {
        return None;
    }
    proof {
        if from == 1 {
            assert(s@.subrange(1, n as int) =~= s@.drop_first());
        } else {
            assert(s@.subrange(0, n as int) =~= s@);
        }
    }
    let limit: u64 = if negative {
        0x8000_0000
    } else {
        0x7fff_ffff
    };
    match bounded_digits_value(s, from, n, limit) {
        Some(v) => {
            if negative {
                Some((0 - (v as i64)) as i32)
            } else {
                Some(v as i32)
            }
        },
        None => None,
    }
}


/// The decimal notation of `n` is a non-empty run of digits denoting `n`.
pub proof fn lemma_decimal_digits(n: nat)
    ensures
        decimal(n).len() >= 1,
        all_digits(decimal(n)),
        digits_value(decimal(n)) == n,
    decreases n,
{
    if n < 10 {
        let d = decimal(n);
        assert(d.drop_last() =~= Seq::<char>::empty());
        assert((digit_char(n) as u32 - 48) as nat == n);
        assert(digits_value(d.drop_last()) == 0);
        assert(digits_value(d) == digits_value(d.drop_last()) * 10 + (d.last() as u32 - 48) as nat);
    } else {
        lemma_decimal_digits(n / 10);
        let d = decimal(n);
        assert(d.drop_last() =~= decimal(n / 10));
        assert(d.last() == digit_char(n % 10));
        assert((digit_char(n % 10) as u32 - 48) as nat == n % 10);
        assert(n == (n / 10) * 10 + n % 10);
        assert(digits_value(d) == digits_value(d.drop_last()) * 10 + (d.last() as u32 - 48) as nat);
        assert forall|i: int| 0 <= i < d.len() implies #[trigger] is_digit(d[i]) by {
            if i < d.len() - 1 {
                assert(d[i] == decimal(n / 10)[i]);
            }
        }
    }
}

/// A string that neither starts nor ends with white space is its own trim.
pub proof fn lemma_trimmed_unchanged(s: Seq<char>)
    requires
        s.len() > 0,
        !is_white_space(s[0]),
        !is_white_space(s.last()),
    ensures
        trimmed(s) == s,
{
    assert(skip_white_space(s, 0) == 0);
    assert(cut_white_space(s, 0, s.len() as int) == s.len());
    assert(s.subrange(0, s.len() as int) =~= s);
}

/// `t` occurs in `s` starting at index `i`.
pub open spec fn occurs_at(s: Seq<char>, t: Seq<char>, i: int) -> bool {
    0 <= i && i + t.len() <= s.len() && s.subrange(i, i + t.len()) == t
}

/// `t` occurs somewhere in `s` (`str::contains` with a string pattern).
pub open spec fn contains_text(s: Seq<char>, t: Seq<char>) -> bool {
    exists|i: int| occurs_at(s, t, i)
}

fn occurs_at_exec(s: &str, n: usize, t: &str, m: usize, i: usize) -> (b: bool)
    requires
        n == s@.len(),
        m == t@.len(),
        i + m <= n,
    ensures
        b == occurs_at(s@, t@, i as int),
{
    let mut j: usize = 0;
    while j < m
        invariant
            n == s@.len(),
            m == t@.len(),
            i + m <= n,
            j <= m,
            forall|k: int| 0 <= k < j ==> s@[i + k] == t@[k],
        decreases m - j,
    {
        if s.get_char(i + j) != t.get_char(j) {
            assert(s@.subrange(i as int, i + m)[j as int] != t@[j as int]);
            return false;
        }
        j = j + 1;
    }
    assert(s@.subrange(i as int, i + m) =~= t@);
    true
}

/// Whether `t` occurs in `s`, as `str::contains` answers it.
pub fn contains(s: &str, t: &str) -> (b: bool)
    ensures
        b == contains_text(s@, t@),
{
    let n = s.unicode_len();
    let m = t.unicode_len();
    if m > n {
        return false;
    }
    if m == 0 {
        assert(s@.subrange(0, 0) =~= t@);
        assert(occurs_at(s@, t@, 0));
        return true;
    }
    let mut i: usize = 0;
    while i <= n - m
        invariant
            n == s@.len(),
            m == t@.len(),
            1 <= m <= n,
            i <= n - m + 1,
            forall|k: int| 0 <= k < i ==> !occurs_at(s@, t@, k),
        decreases n - m + 1 - i,
    {
        if occurs_at_exec(s, n, t, m, i) {
            return true;
        }
        i = i + 1;
    }
    false
}


/// The texts of a sequence of lines.
pub open spec fn lines_text(v: Seq<String>) -> Seq<Seq<char>> {
    v.map_values(|l: String| l@)
}

/// `label` followed by `value`.
pub fn labeled(label: &str, value: &str) -> (r: String)
    ensures
        r@ == label@ + value@,
{
    let mut r = label.to_owned();
    r.append(value);
    r
}

/// Appends one line to `out`.
pub fn push_line(out: &mut Vec<String>, line: String)
    ensures
        lines_text(final(out)@) == lines_text(old(out)@).push(line@),
{
    out.push(line);
    assert(lines_text(out@) =~= lines_text(old(out)@).push(line@));
}

/// The line `label` + `value` when there is a value, no line otherwise.
pub open spec fn optional_line(label: Seq<char>, value: Option<Seq<char>>) -> Seq<Seq<char>> {
    match value {
        Some(v) => seq![label + v],
        None => seq![],
    }
}

/// Appends `label` + `value` to `out` when there is a value.
pub fn push_optional_line(out: &mut Vec<String>, label: &str, value: &Option<String>)
    ensures
        lines_text(final(out)@) == lines_text(old(out)@) + optional_line(label@, opt_text(*value)),
{
    match value {
        Some(v) => {
            push_line(out, labeled(label, v.as_str()));
            assert(lines_text(old(out)@).push(label@ + v@) =~= lines_text(old(out)@)
                + optional_line(label@, opt_text(*value)));
        },
        None => {
            assert(lines_text(old(out)@) =~= lines_text(old(out)@) + optional_line(
                label@,
                opt_text(*value),
            ));
        },
    }
}


/// Decimal notation of `n`, with zeros in front up to `width` digits.
pub open spec fn zero_padded(n: nat, width: nat) -> Seq<char> {
    if decimal(n).len() >= width {
        decimal(n)
    } else {
        Seq::new((width - decimal(n).len()) as nat, |_i: int| '0') + decimal(n)
    }
}

proof fn lemma_zeros_value(k: nat)
    ensures
        digits_value(Seq::new(k, |_i: int| '0')) == 0,
        all_digits(Seq::new(k, |_i: int| '0')),
    decreases k,
{
    if k > 0 {
        lemma_zeros_value((k - 1) as nat);
        assert(Seq::new(k, |_i: int| '0').drop_last() =~= Seq::new((k - 1) as nat, |_i: int| '0'));
    }
}

proof fn lemma_leading_zeros_value(k: nat, d: Seq<char>)
    ensures
        digits_value(Seq::new(k, |_i: int| '0') + d) == digits_value(d),
    decreases d.len(),
{
    let z = Seq::new(k, |_i: int| '0');
    if d.len() == 0 {
        lemma_zeros_value(k);
        assert(z + d =~= z);
    } else {
        lemma_leading_zeros_value(k, d.drop_last());
        assert((z + d).drop_last() =~= z + d.drop_last());
    }
}

/// Zero padding keeps the number: the padded notation is all digits, at
/// least `width` long, and denotes `n`.
pub proof fn lemma_zero_padded_value(n: nat, width: nat)
    ensures
        all_digits(zero_padded(n, width)),
        zero_padded(n, width).len() >= width,
        zero_padded(n, width).len() >= 1,
        digits_value(zero_padded(n, width)) == n,
        decimal(n).len() <= width ==> zero_padded(n, width).len() == width,
{
    lemma_decimal_digits(n);
    if decimal(n).len() < width {
        let k = (width - decimal(n).len()) as nat;
        lemma_leading_zeros_value(k, decimal(n));
        lemma_zeros_value(k);
        let p = zero_padded(n, width);
        assert forall|i: int| 0 <= i < p.len() implies #[trigger] is_digit(p[i]) by {
            if i >= k {
                assert(p[i] == decimal(n)[i - k]);
            } else {
                assert(is_digit(Seq::new(k, |_i: int| '0')[i]));
            }
        }
    }
}

/// Numbers below 10, 100, 1000 and 10000 have at most 1, 2, 3 and 4 digits.
pub proof fn lemma_decimal_short(n: nat)
    ensures
        n < 10 ==> decimal(n).len() == 1,
        n < 100 ==> decimal(n).len() <= 2,
        n < 1000 ==> decimal(n).len() <= 3,
        n < 10000 ==> decimal(n).len() <= 4,
    decreases n,
{
    if n >= 10 {
        lemma_decimal_short(n / 10);
    }
}

/// Decimal notation of `n`, zero-padded to `width` digits.
pub fn zero_padded_string(n: u64, width: usize) -> (r: String)
    ensures
        r@ == zero_padded(n as nat, width as nat),
{
    proof {
        reveal_strlit("0");
    }
    let d = decimal_string(n);
    let k = d.unicode_len();
    if k >= width {
        return d;
    }
    let mut r = String::new();
    let mut i: usize = 0;
    while i < width - k
        invariant
            k < width,
            i <= width - k,
            r@ =~= Seq::new(i as nat, |_i: int| '0'),
        decreases width - k - i,
    {
        proof {
            reveal_strlit("0");
        }
        let ghost before = r@;
        r.append("0");
        assert(r@ =~= before.push('0'));
        i = i + 1;
    }
    r.append(d.as_str());
    r
}

} // verus!
