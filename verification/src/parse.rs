//! Tokenizing and numeric-token grammars.
//!
//! Input lines are split on a single separator character, exactly as the
//! sources are formatted: consecutive separators yield empty tokens, and
//! every line yields at least one token. The price token follows the
//! floating-point numeral grammar (an optional sign, then `inf`,
//! `infinity` or `nan` case-insensitively, or a decimal numeral with an
//! optional fraction and exponent); the quantity token is an unsigned
//! decimal numeral with an optional leading `+` that must fit in 32 bits.

use vstd::prelude::*;

use crate::text::lower_seq;
use crate::text::to_lower;
use crate::text::eq_lit;

verus! {

/// `s` split on `sep`: the sequence of (possibly empty) tokens between
/// separators. Never empty; splitting the empty sequence yields one
/// empty token.
pub open spec fn split_on(s: Seq<char>, sep: char) -> Seq<Seq<char>>
    decreases s.len(),
{
    if s.len() == 0 {
        seq![Seq::empty()]
    } else if s[0] == sep {
        seq![Seq::<char>::empty()] + split_on(s.drop_first(), sep)
    } else {
        let r = split_on(s.drop_first(), sep);
        seq![seq![s[0]] + r[0]] + r.drop_first()
    }
}

/// Splits the tail of `s` that starts at `i` on `sep`.
fn split_from(s: &Vec<char>, i: usize, sep: char) -> (r: Vec<Vec<char>>)
    requires
        i <= s.len(),
    ensures
        r.deep_view() == split_on(s@.skip(i as int), sep),
        r@.len() >= 1,
    decreases s.len() - i,
{
    if i == s.len() {
        let r: Vec<Vec<char>> = vec![Vec::new()];
        proof {
            assert(s@.skip(i as int).len() == 0);
            assert(r.deep_view() =~~= split_on(s@.skip(i as int), sep));
        }
        r
    } else {
        let c = s[i];
        let mut r = split_from(s, i + 1, sep);
        proof {
            assert(s@.skip(i as int)[0] == s@[i as int]);
            assert(s@.skip(i as int).drop_first() =~= s@.skip(i + 1));
        }
        if c == sep {
            r.insert(0, Vec::new());
            proof {
                assert(r.deep_view() =~~= split_on(s@.skip(i as int), sep));
            }
        } else {
            r[0].insert(0, c);
            proof {
                assert(r.deep_view() =~~= split_on(s@.skip(i as int), sep));
            }
        }
        r
    }
}

/// Splits `s` on `sep`.
pub fn split_exec(s: &Vec<char>, sep: char) -> (r: Vec<Vec<char>>)
    ensures
        r.deep_view() == split_on(s@, sep),
        r@.len() >= 1,
{
    let r = split_from(s, 0, sep);
    proof {
        assert(s@.skip(0) =~= s@);
    }
    r
}

/// An ASCII decimal digit.
pub open spec fn is_digit_char(c: char) -> bool {
    48 <= c as u32 && c as u32 <= 57
}

/// Every character of `s` is a decimal digit.
pub open spec fn all_digits(s: Seq<char>) -> bool {
    forall|i: int| 0 <= i < s.len() ==> is_digit_char(#[trigger] s[i])
}

/// The numeric value of a digit character (zero on anything else).
pub open spec fn digit_val(c: char) -> nat {
    if is_digit_char(c) {
        (c as u32 - 48) as nat
    } else {
        0
    }
}

/// The value of a digit string read in base ten.
pub open spec fn digits_val(s: Seq<char>) -> nat
    decreases s.len(),
{
    if s.len() == 0 {
        0
    } else {
        digits_val(s.drop_last()) * 10 + digit_val(s.last())
    }
}

/// `s` without one leading `+` or `-` sign, if it carries one.
pub open spec fn strip_sign(s: Seq<char>) -> Seq<char> {
    if s.len() > 0 && (s[0] == '+' || s[0] == '-') {
        s.drop_first()
    } else {
        s
    }
}

/// The index of the first `.` in `s`, or `s.len()` if there is none.
pub open spec fn find_dot(s: Seq<char>) -> int
    decreases s.len(),
{
    if s.len() == 0 {
        0
    } else if s[0] == '.' {
        0
    } else {
        1 + find_dot(s.drop_first())
    }
}

/// The index of the first `e` or `E` in `s`, or `s.len()` if there is
/// none.
pub open spec fn find_exp(s: Seq<char>) -> int
    decreases s.len(),
{
    if s.len() == 0 {
        0
    } else if s[0] == 'e' || s[0] == 'E' {
        0
    } else {
        1 + find_exp(s.drop_first())
    }
}

/// `find_dot` is determined by its first-occurrence characterization.
pub proof fn lemma_find_dot(s: Seq<char>, i: int)
    requires
        0 <= i <= s.len(),
        forall|j: int| 0 <= j < i ==> s[j] != '.',
        i < s.len() ==> s[i] == '.',
    ensures
        find_dot(s) == i,
    decreases s.len(),
{
    if s.len() > 0 && i > 0 {
        assert(forall|j: int| 0 <= j < i - 1 ==> s.drop_first()[j] == s[j + 1]);
        lemma_find_dot(s.drop_first(), i - 1);
    }
}

/// `find_exp` is determined by its first-occurrence characterization.
pub proof fn lemma_find_exp(s: Seq<char>, i: int)
    requires
        0 <= i <= s.len(),
        forall|j: int| 0 <= j < i ==> s[j] != 'e' && s[j] != 'E',
        i < s.len() ==> (s[i] == 'e' || s[i] == 'E'),
    ensures
        find_exp(s) == i,
    decreases s.len(),
{
    if s.len() > 0 && i > 0 {
        assert(forall|j: int| 0 <= j < i - 1 ==> s.drop_first()[j] == s[j + 1]);
        lemma_find_exp(s.drop_first(), i - 1);
    }
}

/// A mantissa: a nonempty digit string, with at most one `.` anywhere in
/// it (a bare `.` alone is not a mantissa).
pub open spec fn is_mantissa(s: Seq<char>) -> bool {
    let j = find_dot(s);
    if j == s.len() {
        s.len() > 0 && all_digits(s)
    } else {
        all_digits(s.take(j)) && all_digits(s.skip(j + 1)) && s.len() >= 2
    }
}

/// An exponent part: an optional sign, then at least one digit.
pub open spec fn is_exponent(s: Seq<char>) -> bool {
    let t = strip_sign(s);
    t.len() > 0 && all_digits(t)
}

/// A floating-point numeral: an optional sign, then `inf`, `infinity` or
/// `nan` in any case, or a mantissa with an optional `e`/`E` exponent.
pub open spec fn is_float_value(s: Seq<char>) -> bool {
    let t = strip_sign(s);
    let l = lower_seq(t);
    ||| l == "inf"@
    ||| l == "infinity"@
    ||| l == "nan"@
    ||| {
        let e = find_exp(t);
        if e == t.len() {
            is_mantissa(t)
        } else {
            is_mantissa(t.take(e)) && is_exponent(t.skip(e + 1))
        }
    }
}

/// Every character of `s` in `lo..hi` is a digit.
fn all_digits_range(s: &Vec<char>, lo: usize, hi: usize) -> (r: bool)
    requires
        lo <= hi <= s.len(),
    ensures
        r == all_digits(s@.subrange(lo as int, hi as int)),
{
    let mut i: usize = lo;
    while i < hi
        invariant
            lo <= i <= hi <= s.len(),
            forall|j: int| lo <= j < i ==> is_digit_char(#[trigger] s@[j]),
        decreases hi - i,
    {
        let u = s[i] as u32;
        if u < 48 || u > 57 {
            proof {
                assert(s@.subrange(lo as int, hi as int)[i - lo] == s@[i as int]);
            }
            return false;
        }
        i = i + 1;
    }
    proof {
        assert forall|j: int| 0 <= j < hi - lo implies is_digit_char(
            #[trigger] s@.subrange(lo as int, hi as int)[j],
        ) by {
            assert(s@.subrange(lo as int, hi as int)[j] == s@[j + lo]);
        }
    }
    true
}

/// The copy of `s` in `lo..hi`.
fn sub_vec(s: &Vec<char>, lo: usize, hi: usize) -> (r: Vec<char>)
    requires
        lo <= hi <= s.len(),
    ensures
        r@ == s@.subrange(lo as int, hi as int),
{
    let mut r: Vec<char> = Vec::new();
    let mut i: usize = lo;
    while i < hi
        invariant
            lo <= i <= hi <= s.len(),
            r@ =~= s@.subrange(lo as int, i as int),
        decreases hi - i,
    {
        r.push(s[i]);
        i = i + 1;
        proof {
            assert(r@ =~= s@.subrange(lo as int, i as int));
        }
    }
    r
}

/// The index of the first `.` in `t`, or its length.
fn find_dot_exec(t: &Vec<char>) -> (i: usize)
    ensures
        i == find_dot(t@),
        i <= t.len(),
{
    let mut i: usize = 0;
    while i < t.len()
        invariant
            i <= t.len(),
            forall|j: int| 0 <= j < i ==> t@[j] != '.',
        decreases t.len() - i,
    {
        if t[i] == '.' {
            proof {
                lemma_find_dot(t@, i as int);
            }
            return i;
        }
        i = i + 1;
    }
    proof {
        lemma_find_dot(t@, i as int);
    }
    i
}

/// The index of the first `e` or `E` in `t`, or its length.
fn find_exp_exec(t: &Vec<char>) -> (i: usize)
    ensures
        i == find_exp(t@),
        i <= t.len(),
{
    let mut i: usize = 0;
    while i < t.len()
        invariant
            i <= t.len(),
            forall|j: int| 0 <= j < i ==> t@[j] != 'e' && t@[j] != 'E',
        decreases t.len() - i,
    {
        if t[i] == 'e' || t[i] == 'E' {
            proof {
                lemma_find_exp(t@, i as int);
            }
            return i;
        }
        i = i + 1;
    }
    proof {
        lemma_find_exp(t@, i as int);
    }
    i
}

/// Decides [`is_mantissa`].
fn is_mantissa_exec(m: &Vec<char>) -> (r: bool)
    ensures
        r == is_mantissa(m@),
{
    let j = find_dot_exec(m);
    if j == m.len() {
        proof {
            assert(m@.subrange(0, m@.len() as int) =~= m@);
        }
        m.len() > 0 && all_digits_range(m, 0, m.len())
    } else {
        proof {
            assert(m@.subrange(0, j as int) =~= m@.take(j as int));
            assert(m@.subrange(j + 1, m@.len() as int) =~= m@.skip(j + 1));
        }
        all_digits_range(m, 0, j) && all_digits_range(m, j + 1, m.len()) && m.len() >= 2
    }
}

/// Decides [`is_exponent`].
fn is_exponent_exec(x: &Vec<char>) -> (r: bool)
    ensures
        r == is_exponent(x@),
{
    let start: usize = if x.len() > 0 && (x[0] == '+' || x[0] == '-') {
        1
    } else {
        0
    };
    proof {
        assert(x@.subrange(start as int, x@.len() as int) =~= strip_sign(x@));
    }
    x.len() > start && all_digits_range(x, start, x.len())
}

/// Decides [`is_float_value`]: whether a price token is a well-formed
/// floating-point numeral.
pub fn is_float_token(s: &Vec<char>) -> (r: bool)
    ensures
        r == is_float_value(s@),
{
    let start: usize = if s.len() > 0 && (s[0] == '+' || s[0] == '-') {
        1
    } else {
        0
    };
    let t = sub_vec(s, start, s.len());
    proof {
        assert(t@ =~= strip_sign(s@));
    }
    let l = to_lower(&t);
    if eq_lit(&l, "inf") || eq_lit(&l, "infinity") || eq_lit(&l, "nan") {
        return true;
    }
    let e = find_exp_exec(&t);
    if e == t.len() {
        is_mantissa_exec(&t)
    } else {
        let m = sub_vec(&t, 0, e);
        let x = sub_vec(&t, e + 1, t.len());
        proof {
            assert(m@ =~= t@.take(e as int));
            assert(x@ =~= t@.skip(e + 1));
        }
        is_mantissa_exec(&m) && is_exponent_exec(&x)
    }
}

/// The value of an unsigned 32-bit decimal token (an optional `+`, then
/// at least one digit, value at most `u32::MAX`), or nothing.
pub open spec fn parse_u32_spec(s: Seq<char>) -> Option<u32> {
    let t = if s.len() > 0 && s[0] == '+' {
        s.drop_first()
    } else {
        s
    };
    if t.len() > 0 && all_digits(t) && digits_val(t) <= u32::MAX {
        Some(digits_val(t) as u32)
    } else {
        None
    }
}

/// Appending one digit multiplies the prefix value by ten and adds it.
proof fn lemma_digits_val_prefix_step(t: Seq<char>, i: int)
    requires
        0 <= i < t.len(),
    ensures
        digits_val(t.take(i + 1)) == digits_val(t.take(i)) * 10 + digit_val(t[i]),
{
    assert(t.take(i + 1).drop_last() =~= t.take(i));
    assert(t.take(i + 1).last() == t[i]);
}

/// Decides [`parse_u32_spec`].
pub fn parse_u32_token(s: &Vec<char>) -> (r: Option<u32>)
    ensures
        r == parse_u32_spec(s@),
{
    let start: usize = if s.len() > 0 && s[0] == '+' {
        1
    } else {
        0
    };
    let t = sub_vec(s, start, s.len());
    proof {
        if s@.len() > 0 && s@[0] == '+' {
            assert(t@ =~= s@.drop_first());
        } else {
            assert(t@ =~= s@);
        }
    }
    if t.len() == 0 || !all_digits_range(&t, 0, t.len()) {
        proof {
            assert(t@.subrange(0, t@.len() as int) =~= t@);
        }
        return None;
    }
    proof {
        assert(t@.subrange(0, t@.len() as int) =~= t@);
    }
    let cap: u64 = 4294967296;
    let mut v: u64 = 0;
    let mut i: usize = 0;
    proof {
        assert(t@.take(0) =~= Seq::<char>::empty());
    }
    while i < t.len()
        invariant
            i <= t.len(),
            all_digits(t@),
            v <= cap,
            cap == 4294967296,
            v < cap ==> v == digits_val(t@.take(i as int)),
            v == cap ==> digits_val(t@.take(i as int)) >= cap,
        decreases t.len() - i,
    {
        let d = (t[i] as u32 - 48) as u64;
        proof {
            assert(is_digit_char(t@[i as int]));
            assert(d == digit_val(t@[i as int]));
            lemma_digits_val_prefix_step(t@, i as int);
        }
        if v < cap {
            let nv = v * 10 + d;
            if nv >= cap {
                v = cap;
            } else {
                v = nv;
            }
        } else {
            proof {
                assert(digits_val(t@.take(i + 1)) >= digits_val(t@.take(i as int)) * 10) by {
                    assert(digit_val(t@[i as int]) >= 0);
                };
                assert(digits_val(t@.take(i as int)) * 10 >= cap) by (nonlinear_arith)
                    requires
                        digits_val(t@.take(i as int)) >= cap,
                        cap > 0,
                ;
            }
        }
        i = i + 1;
    }
    proof {
        assert(t@.take(t@.len() as int) =~= t@);
    }
    if v <= 0xFFFF_FFFF {
        Some(v as u32)
    } else {
        None
    }
}

} // verus!
