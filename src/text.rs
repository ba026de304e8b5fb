//! Character-level helpers shared by the parser and the path builders.
use vstd::prelude::*;

verus! {

/// The character of a decimal digit `d < 10`.
pub open spec fn digit_char(d: nat) -> char {
    if d == 0 { '0' }
    else if d == 1 { '1' }
    else if d == 2 { '2' }
    else if d == 3 { '3' }
    else if d == 4 { '4' }
    else if d == 5 { '5' }
    else if d == 6 { '6' }
    else if d == 7 { '7' }
    else if d == 8 { '8' }
    else { '9' }
}

/// Decimal digits of `n`, most significant first, without leading zeros.
pub open spec fn digits_of(n: nat) -> Seq<char>
    decreases n,
{
    if n < 10 {
        seq![digit_char(n)]
    } else {
        digits_of(n / 10).push(digit_char(n % 10))
    }
}

/// Decimal text of a signed integer, with a leading `-` when negative.
pub open spec fn decimal(n: int) -> Seq<char> {
    if n < 0 {
        seq!['-'] + digits_of((-n) as nat)
    } else {
        digits_of(n as nat)
    }
}

/// `n` written with at least `width` digits, zero-padded on the left.
pub open spec fn padded(n: nat, width: nat) -> Seq<char> {
    let d = digits_of(n);
    if d.len() >= width {
        d
    } else {
        Seq::new((width - d.len()) as nat, |i: int| '0') + d
    }
}

fn digit_text(d: u64) -> (r: &'static str)
    requires
        d < 10,
    ensures
        r@ == seq![digit_char(d as nat)],
{
    proof {
        reveal_strlit("0");
        reveal_strlit("1");
        reveal_strlit("2");
        reveal_strlit("3");
        reveal_strlit("4");
        reveal_strlit("5");
        reveal_strlit("6");
        reveal_strlit("7");
        reveal_strlit("8");
        reveal_strlit("9");
    }
    if d == 0 { "0" }
    else if d == 1 { "1" }
    else if d == 2 { "2" }
    else if d == 3 { "3" }
    else if d == 4 { "4" }
    else if d == 5 { "5" }
    else if d == 6 { "6" }
    else if d == 7 { "7" }
    else if d == 8 { "8" }
    else { "9" }
}

/// Appends the decimal digits of `n`.
pub fn push_digits(out: &mut String, n: u64)
    ensures
        final(out)@ == old(out)@ + digits_of(n as nat),
    decreases n,
{
    if n >= 10 {
        push_digits(out, n / 10);
    }
    out.append(digit_text(n % 10));
    proof {
        if n >= 10 {
            assert(old(out)@ + digits_of(n as nat) =~= old(out)@ + digits_of((n / 10) as nat)
                + seq![digit_char((n % 10) as nat)]);
        }
    }
}

proof fn lemma_digits_len(n: nat)
    ensures
        digits_of(n).len() >= 1,
        n >= 10 ==> digits_of(n).len() <= n,
    decreases n,
{
    if n >= 10 {
        lemma_digits_len(n / 10);
    }
}

/// Appends `n` zero-padded to at least `width` digits.
pub fn push_padded(out: &mut String, n: u64, width: u64)
    ensures
        final(out)@ == old(out)@ + padded(n as nat, width as nat),
{
    let mut count: u64 = 1;
    let mut m: u64 = n;
    proof {
        lemma_digits_len(n as nat);
    }
    while m >= 10
        invariant
            count >= 1,
            count + digits_of(m as nat).len() - 1 == digits_of(n as nat).len(),
            digits_of(n as nat).len() <= n || n < 10,
        decreases m,
    {
        proof {
            lemma_digits_len(m as nat);
            lemma_digits_len((m / 10) as nat);
        }
        m = m / 10;
        count = count + 1;
    }
    let ghost start = out@;
    let mut i: u64 = count;
    while i < width
        invariant
            count == digits_of(n as nat).len(),
            count <= i,
            i <= width || i == count,
            out@ == start + Seq::new((i - count) as nat, |k: int| '0'),
        decreases width - i,
    {
        proof {
            reveal_strlit("0");
        }
        out.append("0");
        assert(out@ =~= start + Seq::new((i + 1 - count) as nat, |k: int| '0'));
        i = i + 1;
    }
    push_digits(out, n);
    proof {
        if count >= width {
            assert(out@ =~= start + digits_of(n as nat));
        } else {
            assert(out@ =~= start + padded(n as nat, width as nat));
        }
    }
}

/// Appends the decimal text of a signed integer.
pub fn push_decimal(out: &mut String, n: i64)
    ensures
        final(out)@ == old(out)@ + decimal(n as int),
{
    if n < 0 {
        proof {
            reveal_strlit("-");
        }
        out.append("-");
        let m: u64 = (-(n as i128)) as u64;
        push_digits(out, m);
        assert(final(out)@ =~= old(out)@ + decimal(n as int));
    } else {
        push_digits(out, n as u64);
    }
}

/// The characters of `s`, one per element.
pub fn chars_of(s: &str) -> (r: Vec<char>)
    ensures
        r@ == s@,
{
    let mut r: Vec<char> = Vec::new();
    for c in it: s.chars()
        invariant
            r@ == it.seq().take(it.index() as int),
    {
        r.push(c);
    }
    r
}

/// Index of the first occurrence of `pat` in `s` that starts at or after `i`
/// and inside `s`.
pub open spec fn find_from(s: Seq<char>, pat: Seq<char>, i: int) -> Option<int>
    decreases s.len() - i,
{
    if i < 0 || i >= s.len() || i + pat.len() > s.len() {
        None
    } else if s.subrange(i, i + pat.len()) == pat {
        Some(i)
    } else {
        find_from(s, pat, i + 1)
    }
}

/// Index of the first occurrence of `pat` in `s`.
pub open spec fn find(s: Seq<char>, pat: Seq<char>) -> Option<int> {
    find_from(s, pat, 0)
}

/// Whether `pat` occurs at index `j` of `v`, ending no later than `hi`.
pub fn matches_at(v: &Vec<char>, j: usize, hi: usize, pat: &str) -> (r: bool)
    requires
        j <= hi <= v@.len(),
    ensures
        r == (j + pat@.len() <= hi && v@.subrange(j as int, j + pat@.len()) == pat@),
{
    let m: usize = pat.unicode_len();
    if m > hi - j {
        return false;
    }
    let mut k: usize = 0;
    while k < m
        invariant
            k <= m,
            m == pat@.len(),
            j + m <= hi <= v@.len(),
            forall|t: int| 0 <= t < k ==> v@[j + t] == pat@[t],
        decreases m - k,
    {
        if v[j + k] != pat.get_char(k) {
            assert(v@.subrange(j as int, j + m)[k as int] != pat@[k as int]);
            return false;
        }
        k = k + 1;
    }
    assert(v@.subrange(j as int, j + m) =~= pat@);
    true
}

/// Whether the characters of `v` in `[lo, hi)` are exactly `lit`.
pub fn range_equals(v: &Vec<char>, lo: usize, hi: usize, lit: &str) -> (r: bool)
    requires
        lo <= hi <= v@.len(),
    ensures
        r == (v@.subrange(lo as int, hi as int) == lit@),
{
    let m: usize = lit.unicode_len();
    if m != hi - lo {
        proof {
            if v@.subrange(lo as int, hi as int) == lit@ {
                assert(v@.subrange(lo as int, hi as int).len() == lit@.len());
            }
        }
        return false;
    }
    matches_at(v, lo, hi, lit)
}

/// First occurrence of `pat` inside `v[lo..hi]`, as an index into `v`.
pub fn find_in(v: &Vec<char>, lo: usize, hi: usize, pat: &str) -> (r: Option<usize>)
    requires
        lo <= hi <= v@.len(),
    ensures
        match r {
            Some(j) => lo <= j && j + pat@.len() <= hi && find(v@.subrange(lo as int, hi as int), pat@)
                == Some(j - lo),
            None => find(v@.subrange(lo as int, hi as int), pat@) is None,
        },
{
    let ghost sub = v@.subrange(lo as int, hi as int);
    let m: usize = pat.unicode_len();
    let mut j: usize = lo;
    while j < hi && m <= hi - j
        invariant
            lo <= j,
            hi <= v@.len(),
            m == pat@.len(),
            sub == v@.subrange(lo as int, hi as int),
            find(sub, pat@) == find_from(sub, pat@, j - lo),
        decreases hi - j,
    {
        let hit = matches_at(v, j, hi, pat);
        assert(sub.subrange(j - lo, j - lo + m) =~= v@.subrange(j as int, j + m));
        if hit {
            return Some(j);
        }
        j = j + 1;
    }
    None
}

/// Whether `c` is a whitespace character in Unicode's `White_Space` sense.
pub open spec fn is_space(c: char) -> bool {
    let u: u32 = c as u32;
    ||| 9 <= u <= 13
    ||| u == 32
    ||| u == 0x85
    ||| u == 0xa0
    ||| u == 0x1680
    ||| 0x2000 <= u <= 0x200a
    ||| u == 0x2028
    ||| u == 0x2029
    ||| u == 0x202f
    ||| u == 0x205f
    ||| u == 0x3000
}

pub fn space_char(c: char) -> (r: bool)
    ensures
        r == is_space(c),
{
    let u: u32 = c as u32;
    (9 <= u && u <= 13) || u == 32 || u == 0x85 || u == 0xa0 || u == 0x1680 || (0x2000 <= u
        && u <= 0x200a) || u == 0x2028 || u == 0x2029 || u == 0x202f || u == 0x205f || u
        == 0x3000
}

/// `s` without its leading whitespace.
pub open spec fn trim_start(s: Seq<char>) -> Seq<char>
    decreases s.len(),
{
    if s.len() > 0 && is_space(s[0]) {
        trim_start(s.drop_first())
    } else {
        s
    }
}

/// `s` without its trailing whitespace.
pub open spec fn trim_end(s: Seq<char>) -> Seq<char>
    decreases s.len(),
{
    if s.len() > 0 && is_space(s.last()) {
        trim_end(s.drop_last())
    } else {
        s
    }
}

/// `s` without leading and trailing whitespace.
pub open spec fn trim(s: Seq<char>) -> Seq<char> {
    trim_end(trim_start(s))
}

/// Bounds of `v[lo..hi]` with surrounding whitespace removed.
pub fn trim_range(v: &Vec<char>, lo: usize, hi: usize) -> (r: (usize, usize))
    requires
        lo <= hi <= v@.len(),
    ensures
        lo <= r.0 <= r.1 <= hi,
        v@.subrange(r.0 as int, r.1 as int) == trim(v@.subrange(lo as int, hi as int)),
{
    let mut a: usize = lo;
    while a < hi && space_char(v[a])
        invariant
            lo <= a <= hi <= v@.len(),
            trim_start(v@.subrange(lo as int, hi as int)) == trim_start(
                v@.subrange(a as int, hi as int),
            ),
        decreases hi - a,
    {
        assert(v@.subrange(a as int, hi as int).drop_first() =~= v@.subrange(a + 1, hi as int));
        a = a + 1;
    }
    let mut b: usize = hi;
    while b > a && space_char(v[b - 1])
        invariant
            lo <= a <= b <= hi <= v@.len(),
            trim(v@.subrange(lo as int, hi as int)) == trim_end(v@.subrange(a as int, b as int)),
        decreases b - a,
    {
        assert(v@.subrange(a as int, b as int).drop_last() =~= v@.subrange(a as int, b - 1));
        b = b - 1;
    }
    (a, b)
}

/// No character of a decimal text is `_`.
pub proof fn lemma_decimal_no_underscore(n: int)
    ensures
        forall|i: int| 0 <= i < decimal(n).len() ==> decimal(n)[i] != '_',
{
    if n < 0 {
        lemma_digits_no_underscore((-n) as nat);
        assert forall|i: int| 0 <= i < decimal(n).len() implies decimal(n)[i] != '_' by {
            if i > 0 {
                assert(decimal(n)[i] == digits_of((-n) as nat)[i - 1]);
            }
        }
    } else {
        lemma_digits_no_underscore(n as nat);
    }
}

proof fn lemma_digits_no_underscore(n: nat)
    ensures
        forall|i: int| 0 <= i < digits_of(n).len() ==> digits_of(n)[i] != '_' && digits_of(n)[i]
            != '-',
    decreases n,
{
    if n >= 10 {
        lemma_digits_no_underscore(n / 10);
        assert forall|i: int| 0 <= i < digits_of(n).len() implies digits_of(n)[i] != '_'
            && digits_of(n)[i] != '-' by {
            if i < digits_of(n / 10).len() {
                assert(digits_of(n)[i] == digits_of(n / 10)[i]);
            }
        }
    }
}

proof fn lemma_digit_char_injective(a: nat, b: nat)
    requires
        a < 10,
        b < 10,
        digit_char(a) == digit_char(b),
    ensures
        a == b,
{
}

proof fn lemma_digits_injective(a: nat, b: nat)
    requires
        digits_of(a) == digits_of(b),
    ensures
        a == b,
    decreases a,
{
    lemma_digits_len(a);
    lemma_digits_len(b);
    if a >= 10 && b >= 10 {
        lemma_digits_len(a / 10);
        lemma_digits_len(b / 10);
        let da = digits_of(a / 10);
        let db = digits_of(b / 10);
        assert(digits_of(a) == da.push(digit_char(a % 10)));
        assert(digits_of(b) == db.push(digit_char(b % 10)));
        assert(digits_of(a).last() == digit_char(a % 10));
        assert(digits_of(b).last() == digit_char(b % 10));
        assert(da =~= digits_of(a).drop_last());
        assert(db =~= digits_of(b).drop_last());
        lemma_digits_injective(a / 10, b / 10);
        lemma_digit_char_injective(a % 10, b % 10);
    } else if a >= 10 {
        lemma_digits_len(a / 10);
    } else if b >= 10 {
        lemma_digits_len(b / 10);
    } else {
        assert(digits_of(a) == seq![digit_char(a)]);
        assert(digits_of(b) == seq![digit_char(b)]);
        assert(digits_of(a)[0] == digit_char(a));
        assert(digits_of(b)[0] == digit_char(b));
        lemma_digit_char_injective(a, b);
    }
}

/// Different integers have different decimal texts.
pub proof fn lemma_decimal_injective(a: int, b: int)
    requires
        decimal(a) == decimal(b),
    ensures
        a == b,
{
    lemma_digits_len(if a < 0 { (-a) as nat } else { a as nat });
    lemma_digits_len(if b < 0 { (-b) as nat } else { b as nat });
    lemma_digits_no_underscore(if a < 0 { (-a) as nat } else { a as nat });
    lemma_digits_no_underscore(if b < 0 { (-b) as nat } else { b as nat });
    if a < 0 && b < 0 {
        assert(digits_of((-a) as nat) =~= decimal(a).drop_first());
        assert(digits_of((-b) as nat) =~= decimal(b).drop_first());
        lemma_digits_injective((-a) as nat, (-b) as nat);
    } else if a < 0 {
        assert(decimal(a)[0] == '-');
    } else if b < 0 {
        assert(decimal(b)[0] == '-');
    } else {
        lemma_digits_injective(a as nat, b as nat);
    }
}

/// Where `x1 + d1 == x2 + d2`, both `x` end in `_` and neither `d` holds one,
/// the shorter `d` cannot be strictly shorter: the two `d` are equal.
proof fn lemma_split_at_last_underscore(x1: Seq<char>, d1: Seq<char>, x2: Seq<char>, d2: Seq<char>)
    requires
        x1 + d1 == x2 + d2,
        x1.len() > 0 && x1.last() == '_',
        x2.len() > 0 && x2.last() == '_',
        forall|i: int| 0 <= i < d1.len() ==> d1[i] != '_',
        forall|i: int| 0 <= i < d2.len() ==> d2[i] != '_',
        d1.len() <= d2.len(),
    ensures
        d1 == d2,
{
    let c = x1 + d1;
    let n = c.len();
    if d1.len() < d2.len() {
        let p = x1.len() - 1;
        assert(c[p] == '_');
        assert((x2 + d2)[p] == d2[p - x2.len()]);
    }
    assert(d1 =~= c.subrange(n - d1.len(), n as int));
    assert(d2 =~= (x2 + d2).subrange(n - d2.len(), n as int));
}

/// Texts of the form `x + "_" + decimal(k) + y` with the same `y` and
/// different `k` differ.
pub proof fn lemma_underscore_decimal_distinct(x1: Seq<char>, x2: Seq<char>, k1: int, k2: int, y: Seq<char>)
    requires
        k1 != k2,
    ensures
        x1 + "_"@ + decimal(k1) + y != x2 + "_"@ + decimal(k2) + y,
{
    reveal_strlit("_");
    if x1 + "_"@ + decimal(k1) + y == x2 + "_"@ + decimal(k2) + y {
        let t = x1 + "_"@ + decimal(k1) + y;
        let a1 = x1 + "_"@;
        let a2 = x2 + "_"@;
        let m = t.len() - y.len();
        assert(a1 + decimal(k1) =~= t.subrange(0, m));
        assert(a2 + decimal(k2) =~= (x2 + "_"@ + decimal(k2) + y).subrange(0, m));
        assert(a1.last() == '_');
        assert(a2.last() == '_');
        lemma_decimal_no_underscore(k1);
        lemma_decimal_no_underscore(k2);
        if decimal(k1).len() <= decimal(k2).len() {
            lemma_split_at_last_underscore(a1, decimal(k1), a2, decimal(k2));
        } else {
            lemma_split_at_last_underscore(a2, decimal(k2), a1, decimal(k1));
        }
        lemma_decimal_injective(k1, k2);
    }
}

} // verus!
