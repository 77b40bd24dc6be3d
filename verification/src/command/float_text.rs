//! The text of a decimal floating-point number, as `f64::from_str` accepts it:
//!
//! ```text
//! Float  ::= Sign? ( 'inf' | 'infinity' | 'nan' | Number )
//! Number ::= ( Digit+ | Digit+ '.' Digit* | Digit* '.' Digit+ ) Exp?
//! Exp    ::= 'e' Sign? Digit+
//! Sign   ::= [+-]
//! Digit  ::= [0-9]
//! ```
//!
//! Letters match in either case. The value is not computed here: only
//! whether the text is a number at all.

use vstd::prelude::*;

use crate::command::text::all_digits;

verus! {

pub open spec fn is_sign(c: char) -> bool {
    c == '+' || c == '-'
}

pub open spec fn is_exp_mark(c: char) -> bool {
    c == 'e' || c == 'E'
}

/// `s` without one leading sign.
pub open spec fn unsigned_part(s: Seq<char>) -> Seq<char> {
    if s.len() > 0 && is_sign(s[0]) {
        s.drop_first()
    } else {
        s
    }
}

/// `s` is the lower-case word `w` with any of its letters in upper case.
pub open spec fn folds_to(s: Seq<char>, w: Seq<char>) -> bool {
    &&& s.len() == w.len()
    &&& forall|i: int|
        0 <= i < s.len() ==> #[trigger] s[i] == w[i] || ('A' <= s[i] <= 'Z' && (s[i] as u32)
            + 32 == (w[i] as u32))
}

/// `k` is the position of the first `.` of `s`, or its length when it has none.
pub open spec fn first_dot_at(s: Seq<char>, k: int) -> bool {
    &&& 0 <= k <= s.len()
    &&& forall|j: int| 0 <= j < k ==> #[trigger] s[j] != '.'
    &&& k < s.len() ==> s[k] == '.'
}

/// `k` is the position of the first exponent mark of `s`, or its length when
/// it has none.
pub open spec fn first_exp_at(s: Seq<char>, k: int) -> bool {
    &&& 0 <= k <= s.len()
    &&& forall|j: int| 0 <= j < k ==> !is_exp_mark(#[trigger] s[j])
    &&& k < s.len() ==> is_exp_mark(s[k])
}

/// Digits with at most one point, and at least one digit.
pub open spec fn digits_with_point(m: Seq<char>) -> bool {
    forall|d: int|
        #[trigger] first_dot_at(m, d) ==> if d == m.len() {
            m.len() > 0 && all_digits(m)
        } else {
            &&& m.len() >= 2
            &&& all_digits(m.subrange(0, d))
            &&& all_digits(m.subrange(d + 1, m.len() as int))
        }
}

/// An exponent after its mark: an optional sign, then at least one digit.
pub open spec fn exponent_digits(x: Seq<char>) -> bool {
    unsigned_part(x).len() > 0 && all_digits(unsigned_part(x))
}

/// A number: digits with at most one point, then perhaps an exponent.
pub open spec fn decimal_number(b: Seq<char>) -> bool {
    forall|k: int|
        #[trigger] first_exp_at(b, k) ==> digits_with_point(b.subrange(0, k)) && (k == b.len()
            || exponent_digits(b.subrange(k + 1, b.len() as int)))
}

/// The words for an infinity or a NaN.
pub open spec fn special_float(b: Seq<char>) -> bool {
    ||| folds_to(b, seq!['i', 'n', 'f'])
    ||| folds_to(b, seq!['i', 'n', 'f', 'i', 'n', 'i', 't', 'y'])
    ||| folds_to(b, seq!['n', 'a', 'n'])
}

/// `s` is the text of a floating-point number.
pub open spec fn float_text(s: Seq<char>) -> bool {
    special_float(unsigned_part(s)) || decimal_number(unsigned_part(s))
}

proof fn lemma_first_dot_unique(s: Seq<char>, a: int, b: int)
    requires
        first_dot_at(s, a),
        first_dot_at(s, b),
    ensures
        a == b,
{
    if a < b {
        assert(s[a] != '.');
    } else if b < a {
        assert(s[b] != '.');
    }
}

proof fn lemma_first_exp_unique(s: Seq<char>, a: int, b: int)
    requires
        first_exp_at(s, a),
        first_exp_at(s, b),
    ensures
        a == b,
{
    if a < b {
        assert(!is_exp_mark(s[a]));
    } else if b < a {
        assert(!is_exp_mark(s[b]));
    }
}

/// The characters of `v` from `lo` up to `hi`.
fn sub_chars(v: &Vec<char>, lo: usize, hi: usize) -> (r: Vec<char>)
    requires
        lo <= hi <= v@.len(),
    ensures
        r@ == v@.subrange(lo as int, hi as int),
{
    let mut r: Vec<char> = Vec::new();
    let mut i = lo;
    while i < hi
        invariant
            lo <= i <= hi,
            hi <= v@.len(),
            r@ == v@.subrange(lo as int, i as int),
        decreases hi - i,
    {
        r.push(v[i]);
        assert(v@.subrange(lo as int, i + 1) == v@.subrange(lo as int, i as int).push(v@[i as int]));
        i = i + 1;
    }
    r
}

fn are_digits(v: &Vec<char>) -> (r: bool)
    ensures
        r == all_digits(v@),
{
    let mut i: usize = 0;
    while i < v.len()
        invariant
            i <= v@.len(),
            forall|j: int| 0 <= j < i ==> '0' <= #[trigger] v@[j] <= '9',
        decreases v@.len() - i,
    {
        if v[i] < '0' || v[i] > '9' {
            return false;
        }
        i = i + 1;
    }
    true
}

fn first_dot(v: &Vec<char>) -> (k: usize)
    ensures
        first_dot_at(v@, k as int),
{
    let mut i: usize = 0;
    while i < v.len() && v[i] != '.'
        invariant
            i <= v@.len(),
            forall|j: int| 0 <= j < i ==> #[trigger] v@[j] != '.',
        decreases v@.len() - i,
    {
        i = i + 1;
    }
    i
}

fn first_exp(v: &Vec<char>) -> (k: usize)
    ensures
        first_exp_at(v@, k as int),
{
    let mut i: usize = 0;
    while i < v.len() && v[i] != 'e' && v[i] != 'E'
        invariant
            i <= v@.len(),
            forall|j: int| 0 <= j < i ==> !is_exp_mark(#[trigger] v@[j]),
        decreases v@.len() - i,
    {
        i = i + 1;
    }
    i
}

fn unsigned_chars(v: &Vec<char>) -> (r: Vec<char>)
    ensures
        r@ == unsigned_part(v@),
{
    if v.len() > 0 && (v[0] == '+' || v[0] == '-') {
        sub_chars(v, 1, v.len())
    } else {
        sub_chars(v, 0, v.len())
    }
}

fn folds_to_word(v: &Vec<char>, w: &Vec<char>) -> (r: bool)
    ensures
        r == folds_to(v@, w@),
{
    if v.len() != w.len() {
        return false;
    }
    let mut i: usize = 0;
    while i < v.len()
        invariant
            v@.len() == w@.len(),
            i <= v@.len(),
            forall|j: int|
                0 <= j < i ==> #[trigger] v@[j] == w@[j] || ('A' <= v@[j] <= 'Z' && (v@[j] as u32)
                    + 32 == (w@[j] as u32)),
        decreases v@.len() - i,
    {
        let c = v[i];
        let d = w[i];
        if !(c == d || ('A' <= c && c <= 'Z' && (c as u32) + 32 == (d as u32))) {
            return false;
        }
        i = i + 1;
    }
    true
}

fn is_digits_with_point(m: &Vec<char>) -> (r: bool)
    ensures
        r == digits_with_point(m@),
{
    let d = first_dot(m);
    proof {
        assert forall|e: int| #[trigger] first_dot_at(m@, e) implies e == d by {
            lemma_first_dot_unique(m@, e, d as int);
        }
    }
    if d == m.len() {
        m.len() > 0 && are_digits(m)
    } else {
        let before = sub_chars(m, 0, d);
        let after = sub_chars(m, d + 1, m.len());
        m.len() >= 2 && are_digits(&before) && are_digits(&after)
    }
}

fn is_exponent_digits(x: &Vec<char>) -> (r: bool)
    ensures
        r == exponent_digits(x@),
{
    let y = unsigned_chars(x);
    y.len() > 0 && are_digits(&y)
}

fn is_decimal_number(b: &Vec<char>) -> (r: bool)
    ensures
        r == decimal_number(b@),
{
    let k = first_exp(b);
    proof {
        assert forall|e: int| #[trigger] first_exp_at(b@, e) implies e == k by {
            lemma_first_exp_unique(b@, e, k as int);
        }
    }
    let mantissa = sub_chars(b, 0, k);
    if !is_digits_with_point(&mantissa) {
        return false;
    }
    if k == b.len() {
        return true;
    }
    let exponent = sub_chars(b, k + 1, b.len());
    is_exponent_digits(&exponent)
}

/// Whether `v` is the text of a floating-point number (see the module's grammar).
pub fn is_float_text(v: &Vec<char>) -> (r: bool)
    ensures
        r == float_text(v@),
{
    let b = unsigned_chars(v);
    let inf = vec!['i', 'n', 'f'];
    let infinity = vec!['i', 'n', 'f', 'i', 'n', 'i', 't', 'y'];
    let nan = vec!['n', 'a', 'n'];
    assert(inf@ == seq!['i', 'n', 'f']);
    assert(infinity@ == seq!['i', 'n', 'f', 'i', 'n', 'i', 't', 'y']);
    assert(nan@ == seq!['n', 'a', 'n']);
    folds_to_word(&b, &inf) || folds_to_word(&b, &infinity) || folds_to_word(&b, &nan)
        || is_decimal_number(&b)
}

} // verus!
