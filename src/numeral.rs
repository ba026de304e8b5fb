//! The grammar of number literals accepted by std's parser for 64-bit
//! binary floating-point values:
//!
//! ```text
//! Literal  ::= Sign? ( 'inf' | 'infinity' | 'nan' | Number )
//! Number   ::= ( Digit+ | Digit+ '.' Digit* | Digit* '.' Digit+ ) Exp?
//! Exp      ::= 'e' Sign? Digit+
//! Sign     ::= [+-]
//! Digit    ::= [0-9]
//! ```
//!
//! Letters match in either case; surrounding whitespace is not accepted.
use vstd::prelude::*;

verus! {

pub open spec fn is_digit(c: char) -> bool {
    48 <= (c as u32) <= 57
}

pub open spec fn is_sign(c: char) -> bool {
    c == '+' || c == '-'
}

pub open spec fn all_digits(s: Seq<char>) -> bool {
    forall|i: int| 0 <= i < s.len() ==> is_digit(#[trigger] s[i])
}

/// Digits with at most one `.`, and at least one digit.
pub open spec fn is_mantissa(m: Seq<char>) -> bool {
    ||| m.len() > 0 && all_digits(m)
    ||| exists|j: int|
        0 <= j < m.len() && m[j] == '.' && m.len() >= 2 && all_digits(#[trigger] m.subrange(0, j))
            && all_digits(m.subrange(j + 1, m.len() as int))
}

/// `e` or `E`, an optional sign, then at least one digit.
pub open spec fn is_exponent(x: Seq<char>) -> bool {
    &&& x.len() >= 2
    &&& x[0] == 'e' || x[0] == 'E'
    &&& if is_sign(x[1]) {
        x.len() >= 3 && all_digits(x.subrange(2, x.len() as int))
    } else {
        all_digits(x.subrange(1, x.len() as int))
    }
}

pub open spec fn is_number(b: Seq<char>) -> bool {
    ||| is_mantissa(b)
    ||| exists|k: int|
        0 <= k <= b.len() && is_mantissa(#[trigger] b.subrange(0, k)) && is_exponent(
            b.subrange(k, b.len() as int),
        )
}

/// `s` spells the lower-case `word` with letters in either case.
pub open spec fn same_word(s: Seq<char>, word: Seq<char>) -> bool {
    &&& s.len() == word.len()
    &&& forall|i: int|
        0 <= i < s.len() ==> #[trigger] s[i] == word[i] || (s[i] as u32) + 32 == (word[i] as u32)
}

/// Whether `t` is a number literal of the grammar above.
pub open spec fn is_number_literal(t: Seq<char>) -> bool {
    let b = if t.len() > 0 && is_sign(t[0]) {
        t.drop_first()
    } else {
        t
    };
    ||| same_word(b, "inf"@)
    ||| same_word(b, "infinity"@)
    ||| same_word(b, "nan"@)
    ||| is_number(b)
}

fn digit_at(c: char) -> (r: bool)
    ensures
        r == is_digit(c),
{
    let u: u32 = c as u32;
    48 <= u && u <= 57
}

fn digits_range(v: &Vec<char>, a: usize, b: usize) -> (r: bool)
    requires
        a <= b <= v@.len(),
    ensures
        r == all_digits(v@.subrange(a as int, b as int)),
{
    let mut i: usize = a;
    while i < b
        invariant
            a <= i <= b <= v@.len(),
            forall|t: int| a <= t < i ==> is_digit(v@[t]),
        decreases b - i,
    {
        if !digit_at(v[i]) {
            assert(v@.subrange(a as int, b as int)[i - a] == v@[i as int]);
            return false;
        }
        i = i + 1;
    }
    assert forall|t: int| 0 <= t < b - a implies is_digit(
        #[trigger] v@.subrange(a as int, b as int)[t],
    ) by {
        assert(v@.subrange(a as int, b as int)[t] == v@[a + t]);
    }
    true
}

/// First index in `[a, b)` holding `c1` or `c2`, or `b`.
fn first_of(v: &Vec<char>, a: usize, b: usize, c1: char, c2: char) -> (r: usize)
    requires
        a <= b <= v@.len(),
    ensures
        a <= r <= b,
        r < b ==> (v@[r as int] == c1 || v@[r as int] == c2),
        forall|t: int| a <= t < r ==> v@[t] != c1 && v@[t] != c2,
{
    let mut i: usize = a;
    while i < b && v[i] != c1 && v[i] != c2
        invariant
            a <= i <= b <= v@.len(),
            forall|t: int| a <= t < i ==> v@[t] != c1 && v@[t] != c2,
        decreases b - i,
    {
        i = i + 1;
    }
    i
}

fn mantissa_range(v: &Vec<char>, a: usize, b: usize) -> (r: bool)
    requires
        a <= b <= v@.len(),
    ensures
        r == is_mantissa(v@.subrange(a as int, b as int)),
{
    let ghost m = v@.subrange(a as int, b as int);
    let j: usize = first_of(v, a, b, '.', '.');
    let before = digits_range(v, a, j);
    assert(m.subrange(0, j - a) =~= v@.subrange(a as int, j as int));
    if j == b {
        assert(m =~= v@.subrange(a as int, j as int));
        proof {
            if exists|k: int|
                0 <= k < m.len() && m[k] == '.' && m.len() >= 2 && all_digits(
                    #[trigger] m.subrange(0, k),
                ) && all_digits(m.subrange(k + 1, m.len() as int)) {
                let k = choose|k: int|
                    0 <= k < m.len() && m[k] == '.' && m.len() >= 2 && all_digits(
                        #[trigger] m.subrange(0, k),
                    ) && all_digits(m.subrange(k + 1, m.len() as int));
                assert(v@[a + k] == '.');
            }
        }
        return b > a && before;
    }
    let after = digits_range(v, j + 1, b);
    assert(m.subrange(j - a + 1, m.len() as int) =~= v@.subrange(j + 1, b as int));
    assert(m[j - a] == '.');
    assert(!is_digit(m[j - a]));
    proof {
        if exists|k: int|
            0 <= k < m.len() && m[k] == '.' && m.len() >= 2 && all_digits(
                #[trigger] m.subrange(0, k),
            ) && all_digits(m.subrange(k + 1, m.len() as int)) {
            let k = choose|k: int|
                0 <= k < m.len() && m[k] == '.' && m.len() >= 2 && all_digits(
                    #[trigger] m.subrange(0, k),
                ) && all_digits(m.subrange(k + 1, m.len() as int));
            if k < j - a {
                assert(v@[a + k] == '.');
            } else if k > j - a {
                assert(m.subrange(0, k)[j - a] == '.');
            }
        }
    }
    before && after && b - a >= 2
}

fn exponent_range(v: &Vec<char>, a: usize, b: usize) -> (r: bool)
    requires
        a <= b <= v@.len(),
    ensures
        r == is_exponent(v@.subrange(a as int, b as int)),
{
    let ghost x = v@.subrange(a as int, b as int);
    if b - a < 2 || (v[a] != 'e' && v[a] != 'E') {
        return false;
    }
    if v[a + 1] == '+' || v[a + 1] == '-' {
        assert(x.subrange(2, x.len() as int) =~= v@.subrange(a + 2, b as int));
        b - a >= 3 && digits_range(v, a + 2, b)
    } else {
        assert(x.subrange(1, x.len() as int) =~= v@.subrange(a + 1, b as int));
        digits_range(v, a + 1, b)
    }
}

fn number_range(v: &Vec<char>, a: usize, b: usize) -> (r: bool)
    requires
        a <= b <= v@.len(),
    ensures
        r == is_number(v@.subrange(a as int, b as int)),
{
    let ghost s = v@.subrange(a as int, b as int);
    if mantissa_range(v, a, b) {
        return true;
    }
    let k: usize = first_of(v, a, b, 'e', 'E');
    let ok = k < b && mantissa_range(v, a, k) && exponent_range(v, k, b);
    assert(s.subrange(0, k - a) =~= v@.subrange(a as int, k as int));
    assert(s.subrange(k - a, s.len() as int) =~= v@.subrange(k as int, b as int));
    proof {
        if !ok && exists|q: int|
            0 <= q <= s.len() && is_mantissa(#[trigger] s.subrange(0, q)) && is_exponent(
                s.subrange(q, s.len() as int),
            ) {
            let q = choose|q: int|
                0 <= q <= s.len() && is_mantissa(#[trigger] s.subrange(0, q)) && is_exponent(
                    s.subrange(q, s.len() as int),
                );
            let mq = s.subrange(0, q);
            assert(s.subrange(q, s.len() as int)[0] == s[q]);
            if q < k - a {
                assert(v@[a + q] == 'e' || v@[a + q] == 'E');
            } else if q > k - a {
                assert(mq[k - a] == v@[k as int]);
                assert(!(mq[k - a] == '.'));
                assert(!is_digit(mq[k - a]));
                if mq.len() > 0 && all_digits(mq) {
                    assert(is_digit(mq[k - a]));
                } else {
                    let j = choose|j: int|
                        0 <= j < mq.len() && mq[j] == '.' && mq.len() >= 2 && all_digits(
                            #[trigger] mq.subrange(0, j),
                        ) && all_digits(mq.subrange(j + 1, mq.len() as int));
                    if k - a < j {
                        assert(mq.subrange(0, j)[k - a] == mq[k - a]);
                    } else {
                        assert(mq.subrange(j + 1, mq.len() as int)[k - a - j - 1] == mq[k - a]);
                    }
                }
            }
        }
    }
    ok
}

fn word_range(v: &Vec<char>, a: usize, b: usize, word: &str) -> (r: bool)
    requires
        a <= b <= v@.len(),
    ensures
        r == same_word(v@.subrange(a as int, b as int), word@),
{
    let ghost s = v@.subrange(a as int, b as int);
    let n: usize = word.unicode_len();
    if n != b - a {
        return false;
    }
    let mut i: usize = 0;
    while i < n
        invariant
            i <= n,
            n == word@.len(),
            n == b - a,
            a <= b <= v@.len(),
            s == v@.subrange(a as int, b as int),
            forall|t: int| 0 <= t < i ==> #[trigger] s[t] == word@[t] || (s[t] as u32) + 32 == (
            word@[t] as u32),
        decreases n - i,
    {
        let c = v[a + i];
        let w = word.get_char(i);
        assert(s[i as int] == c);
        let cu: u32 = c as u32;
        let wu: u32 = w as u32;
        if c != w && cu as u64 + 32 != wu as u64 {
            return false;
        }
        i = i + 1;
    }
    true
}

/// Whether `v[a..b]` is a number literal in the sense of [`is_number_literal`].
pub fn number_literal_range(v: &Vec<char>, a: usize, b: usize) -> (r: bool)
    requires
        a <= b <= v@.len(),
    ensures
        r == is_number_literal(v@.subrange(a as int, b as int)),
{
    let ghost t = v@.subrange(a as int, b as int);
    let mut s: usize = a;
    if a < b && (v[a] == '+' || v[a] == '-') {
        s = a + 1;
    }
    assert(v@.subrange(s as int, b as int) =~= if t.len() > 0 && is_sign(t[0]) {
        t.drop_first()
    } else {
        t
    });
    word_range(v, s, b, "inf") || word_range(v, s, b, "infinity") || word_range(v, s, b, "nan")
        || number_range(v, s, b)
}

} // verus!
