//! Character-level text handling for the command line: whitespace, trimming,
//! splitting into words and reading unsigned integers.

use vstd::prelude::*;

verus! {

/// Unicode `White_Space`, the characters `char::is_whitespace` accepts.
pub open spec fn is_ws(c: char) -> bool {
    let u = c as u32;
    (9 <= u <= 13) || u == 32 || u == 0x85 || u == 0xA0 || u == 0x1680 || (0x2000 <= u <= 0x200A)
        || u == 0x2028 || u == 0x2029 || u == 0x202F || u == 0x205F || u == 0x3000
}

pub fn is_whitespace(c: char) -> (r: bool)
    ensures
        r == is_ws(c),
{
    let u = c as u32;
    (9 <= u && u <= 13) || u == 32 || u == 0x85 || u == 0xA0 || u == 0x1680 || (0x2000 <= u && u
        <= 0x200A) || u == 0x2028 || u == 0x2029 || u == 0x202F || u == 0x205F || u == 0x3000
}

/// `s` without its leading whitespace.
pub open spec fn trim_start(s: Seq<char>) -> Seq<char>
    decreases s.len(),
{
    if s.len() > 0 && is_ws(s[0]) {
        trim_start(s.drop_first())
    } else {
        s
    }
}

/// `s` without its trailing whitespace.
pub open spec fn trim_end(s: Seq<char>) -> Seq<char>
    decreases s.len(),
{
    if s.len() > 0 && is_ws(s.last()) {
        trim_end(s.drop_last())
    } else {
        s
    }
}

/// `s` without leading and trailing whitespace.
pub open spec fn trim(s: Seq<char>) -> Seq<char> {
    trim_end(trim_start(s))
}

/// The index after the word that starts at `i`: the first whitespace at or
/// after `i`, or the length.
pub open spec fn word_end(s: Seq<char>, i: int) -> int
    decreases s.len() - i,
{
    if i < 0 || i >= s.len() || is_ws(s[i]) {
        i
    } else {
        word_end(s, i + 1)
    }
}

pub proof fn lemma_word_end_bounds(s: Seq<char>, i: int)
    requires
        0 <= i <= s.len(),
    ensures
        i <= word_end(s, i) <= s.len(),
        word_end(s, i) < s.len() ==> is_ws(s[word_end(s, i)]),
        forall|k: int| i <= k < word_end(s, i) ==> !is_ws(#[trigger] s[k]),
    decreases s.len() - i,
{
    if i < s.len() && !is_ws(s[i]) {
        lemma_word_end_bounds(s, i + 1);
    }
}

/// The whitespace-separated words of `s` from index `i` on.
pub open spec fn words_from(s: Seq<char>, i: int) -> Seq<Seq<char>>
    decreases s.len() - i,
{
    if i < 0 || i >= s.len() {
        Seq::empty()
    } else if is_ws(s[i]) {
        words_from(s, i + 1)
    } else {
        let e = word_end(s, i + 1);
        proof {
            lemma_word_end_bounds(s, i + 1);
        }
        seq![s.subrange(i, e)] + words_from(s, e)
    }
}

/// The whitespace-separated words of `s` (`str::split_whitespace`).
pub open spec fn words(s: Seq<char>) -> Seq<Seq<char>> {
    words_from(s, 0)
}

/// Words joined by single spaces.
pub open spec fn join_words(ws: Seq<Seq<char>>) -> Seq<char>
    decreases ws.len(),
{
    if ws.len() == 0 {
        Seq::empty()
    } else if ws.len() == 1 {
        ws[0]
    } else {
        join_words(ws.drop_last()) + seq![' '] + ws.last()
    }
}

/// Collects characters into a `String` (`Iterator::collect`).
#[verifier::external_body]
pub(crate) fn string_from_chars(chars: &Vec<char>) -> (r: String)
    ensures
        r@ == chars@,
{
    chars.iter().collect()
}

/// The characters of a string slice.
pub fn chars_of(s: &str) -> (r: Vec<char>)
    ensures
        r@ == s@,
{
    let n = s.unicode_len();
    let mut out: Vec<char> = Vec::new();
    let mut i: usize = 0;
    while i < n
        invariant
            n == s@.len(),
            0 <= i <= n,
            out@ == s@.subrange(0, i as int),
        decreases n - i,
    {
        out.push(s.get_char(i));
        assert(s@.subrange(0, i + 1) == s@.subrange(0, i as int).push(s@[i as int]));
        i = i + 1;
    }
    assert(s@.subrange(0, n as int) == s@);
    out
}

/// Whether the characters are exactly those of a string literal.
pub fn chars_eq_str(v: &Vec<char>, lit: &str) -> (r: bool)
    ensures
        r == (v@ == lit@),
{
    let n = lit.unicode_len();
    if v.len() != n {
        return false;
    }
    let mut i: usize = 0;
    while i < n
        invariant
            n == lit@.len(),
            n == v@.len(),
            0 <= i <= n,
            forall|k: int| 0 <= k < i ==> v@[k] == lit@[k],
        decreases n - i,
    {
        if v[i] != lit.get_char(i) {
            return false;
        }
        i = i + 1;
    }
    assert(v@ == lit@);
    true
}

/// The range `[start, end)` of `s` left after trimming whitespace at both ends.
pub fn trim_bounds(s: &Vec<char>) -> (r: (usize, usize))
    ensures
        r.0 <= r.1 <= s@.len(),
        trim(s@) == s@.subrange(r.0 as int, r.1 as int),
{
    let n = s.len();
    let mut a: usize = 0;
    assert(s@.subrange(0, n as int) == s@);
    while a < n && is_whitespace(s[a])
        invariant
            n == s@.len(),
            0 <= a <= n,
            trim_start(s@) == trim_start(s@.subrange(a as int, n as int)),
        decreases n - a,
    {
        let ghost sub = s@.subrange(a as int, n as int);
        assert(sub.drop_first() == s@.subrange(a + 1, n as int));
        a = a + 1;
    }
    let ghost head = s@.subrange(a as int, n as int);
    assert(trim_start(head) == head);
    let mut b: usize = n;
    while b > a && is_whitespace(s[b - 1])
        invariant
            n == s@.len(),
            0 <= a <= b <= n,
            head == s@.subrange(a as int, n as int),
            trim_end(head) == trim_end(s@.subrange(a as int, b as int)),
        decreases b,
    {
        let ghost sub = s@.subrange(a as int, b as int);
        assert(sub.drop_last() == s@.subrange(a as int, b - 1));
        b = b - 1;
    }
    let ghost tail = s@.subrange(a as int, b as int);
    assert(trim_end(tail) == tail);
    (a, b)
}

/// Splits `s[start..end]` into whitespace-separated words.
pub fn split_words(s: &Vec<char>, start: usize, end: usize) -> (r: Vec<Vec<char>>)
    requires
        start <= end <= s@.len(),
    ensures
        r@.len() == words(s@.subrange(start as int, end as int)).len(),
        forall|k: int|
            0 <= k < r@.len() ==> #[trigger] r@[k]@ == words(
                s@.subrange(start as int, end as int),
            )[k],
{
    let ghost t = s@.subrange(start as int, end as int);
    let mut parts: Vec<Vec<char>> = Vec::new();
    let ghost mut got: Seq<Seq<char>> = Seq::empty();
    let mut i: usize = start;
    while i < end
        invariant
            start <= i <= end <= s@.len(),
            t == s@.subrange(start as int, end as int),
            got.len() == parts@.len(),
            forall|k: int| 0 <= k < parts@.len() ==> #[trigger] parts@[k]@ == got[k],
            got + words_from(t, i - start) == words(t),
        decreases end - i,
    {
        assert(t[i - start] == s@[i as int]);
        if is_whitespace(s[i]) {
            i = i + 1;
        } else {
            let mut j: usize = i + 1;
            while j < end && !is_whitespace(s[j])
                invariant
                    start <= i < j <= end <= s@.len(),
                    t == s@.subrange(start as int, end as int),
                    word_end(t, i + 1 - start) == word_end(t, j - start),
                    forall|k: int| i - start <= k < j - start ==> !is_ws(t[k]),
                decreases end - j,
            {
                assert(t[j - start] == s@[j as int]);
                j = j + 1;
            }
            if j < end {
                assert(t[j - start] == s@[j as int]);
            }
            assert(word_end(t, j - start) == j - start);
            let mut w: Vec<char> = Vec::new();
            let mut k: usize = i;
            while k < j
                invariant
                    start <= i <= k <= j <= end <= s@.len(),
                    t == s@.subrange(start as int, end as int),
                    w@ == t.subrange(i - start, k - start),
                decreases j - k,
            {
                w.push(s[k]);
                assert(t.subrange(i - start, k + 1 - start) == t.subrange(
                    i - start,
                    k - start,
                ).push(t[k - start]));
                k = k + 1;
            }
            proof {
                let word = t.subrange(i - start, j - start);
                assert(words_from(t, i - start) == seq![word] + words_from(t, j - start));
                assert(got.push(word) + words_from(t, j - start) == got + words_from(
                    t,
                    i - start,
                ));
                got = got.push(word);
            }
            parts.push(w);
            i = j;
        }
    }
    assert(words_from(t, i - start) == Seq::<Seq<char>>::empty());
    assert(got + Seq::<Seq<char>>::empty() == got);
    parts
}

/// `s` read as an unsigned decimal number the way `str::parse` reads it:
/// an optional `+`, then one or more ASCII digits.
pub open spec fn digits_value(s: Seq<char>) -> nat
    decreases s.len(),
{
    if s.len() == 0 {
        0
    } else {
        digits_value(s.drop_last()) * 10 + ((s.last() as u32) - ('0' as u32)) as nat
    }
}

pub open spec fn all_digits(s: Seq<char>) -> bool {
    forall|i: int| 0 <= i < s.len() ==> '0' <= #[trigger] s[i] <= '9'
}

/// The digits of an unsigned number: `s` without one leading `+`.
pub open spec fn unsigned_digits(s: Seq<char>) -> Seq<char> {
    if s.len() > 0 && s[0] == '+' {
        s.drop_first()
    } else {
        s
    }
}

/// What `str::parse` gives for an unsigned integer type whose largest value is `max`.
pub open spec fn spec_parse_unsigned(s: Seq<char>, max: nat) -> Option<nat> {
    let d = unsigned_digits(s);
    if d.len() > 0 && all_digits(d) && digits_value(d) <= max {
        Some(digits_value(d))
    } else {
        None
    }
}

/// Reads an unsigned decimal number no larger than `max`.
pub fn parse_unsigned(s: &Vec<char>, max: u64) -> (r: Option<u64>)
    ensures
        match r {
            Some(v) => spec_parse_unsigned(s@, max as nat) == Some(v as nat),
            None => spec_parse_unsigned(s@, max as nat).is_none(),
        },
{
    let n = s.len();
    let first: usize = if n > 0 && s[0] == '+' {
        1
    } else {
        0
    };
    let ghost d = unsigned_digits(s@);
    assert(d == s@.subrange(first as int, n as int));
    if first == n {
        return None;
    }
    let mut value: u64 = 0;
    let mut i: usize = first;
    while i < n
        invariant
            first <= i <= n,
            n == s@.len(),
            d == s@.subrange(first as int, n as int),
            d == unsigned_digits(s@),
            all_digits(s@.subrange(first as int, i as int)),
            value == digits_value(s@.subrange(first as int, i as int)),
            value <= max,
        decreases n - i,
    {
        let c = s[i];
        let ghost prefix = s@.subrange(first as int, i + 1);
        assert(prefix.drop_last() == s@.subrange(first as int, i as int));
        if c < '0' || c > '9' {
            proof {
                assert(!('0' <= d[i - first] <= '9'));
            }
            return None;
        }
        let digit = (c as u32 - '0' as u32) as u64;
        let next: u128 = value as u128 * 10 + digit as u128;
        assert(prefix.last() == c);
        assert(next == digits_value(prefix));
        if next > max as u128 {
            proof {
                if all_digits(d) {
                    assert(prefix == d.subrange(0, i + 1 - first));
                    lemma_digits_value_prefix(d, i + 1 - first);
                }
            }
            return None;
        }
        assert(all_digits(prefix)) by {
            assert forall|k: int| 0 <= k < prefix.len() implies '0' <= #[trigger] prefix[k] <= '9' by {
                if k < prefix.len() - 1 {
                    assert(prefix[k] == prefix.drop_last()[k]);
                }
            }
        }
        value = next as u64;
        i = i + 1;
    }
    assert(s@.subrange(first as int, n as int) == d);
    Some(value)
}

/// A number's value is at least the value of any of its prefixes.
pub proof fn lemma_digits_value_prefix(d: Seq<char>, k: int)
    requires
        all_digits(d),
        0 <= k <= d.len(),
    ensures
        digits_value(d) >= digits_value(d.subrange(0, k)),
    decreases d.len(),
{
    if k == d.len() {
        assert(d.subrange(0, k) == d);
    } else {
        let p = d.drop_last();
        assert(all_digits(p)) by {
            assert forall|i: int| 0 <= i < p.len() implies '0' <= #[trigger] p[i] <= '9' by {
                assert(p[i] == d[i]);
            }
        }
        lemma_digits_value_prefix(p, k);
        assert(p.subrange(0, k) == d.subrange(0, k));
    }
}

/// The decimal digits of `n`, most significant first (as `Display` writes it).
pub open spec fn decimal(n: nat) -> Seq<char>
    decreases n,
{
    if n < 10 {
        seq![(('0' as u32) + n) as char]
    } else {
        decimal(n / 10).push((('0' as u32) + (n % 10)) as char)
    }
}

/// Writes `n` in decimal.
pub fn decimal_chars(n: usize) -> (r: Vec<char>)
    ensures
        r@ == decimal(n as nat),
    decreases n,
{
    let d = n % 10;
    let c = char_of_digit(d);
    if n < 10 {
        let mut out: Vec<char> = Vec::new();
        out.push(c);
        out
    } else {
        let mut out = decimal_chars(n / 10);
        out.push(c);
        out
    }
}

fn char_of_digit(d: usize) -> (c: char)
    requires
        d < 10,
    ensures
        c == (('0' as u32) + d) as char,
{
    if d == 0 {
        '0'
    } else if d == 1 {
        '1'
    } else if d == 2 {
        '2'
    } else if d == 3 {
        '3'
    } else if d == 4 {
        '4'
    } else if d == 5 {
        '5'
    } else if d == 6 {
        '6'
    } else if d == 7 {
        '7'
    } else if d == 8 {
        '8'
    } else {
        '9'
    }
}

/// The decimal digits of `n` are digits, and read back as `n`.
pub proof fn lemma_decimal_reads_back(n: nat)
    ensures
        decimal(n).len() > 0,
        all_digits(decimal(n)),
        digits_value(decimal(n)) == n,
        decimal(n)[0] != '+',
    decreases n,
{
    if n < 10 {
        let c = (('0' as u32) + n) as char;
        assert(decimal(n) == seq![c]);
        assert((c as u32) == ('0' as u32) + n);
        assert(seq![c].drop_last() =~= Seq::<char>::empty());
        assert(seq![c].last() == c);
        assert(digits_value(seq![c]) == digits_value(Seq::<char>::empty()) * 10 + n);
    } else {
        lemma_decimal_reads_back(n / 10);
        let p = decimal(n / 10);
        let c = (('0' as u32) + (n % 10)) as char;
        assert(decimal(n) == p.push(c));
        assert((c as u32) == ('0' as u32) + (n % 10));
        assert(p.push(c).drop_last() =~= p);
        assert(p.push(c).last() == c);
        assert(n == (n / 10) * 10 + n % 10) by {
            vstd::arithmetic::div_mod::lemma_fundamental_div_mod(n as int, 10);
        }
        assert(digits_value(p.push(c)) == digits_value(p) * 10 + (n % 10));
        assert forall|i: int| 0 <= i < p.push(c).len() implies '0' <= #[trigger] p.push(c)[i]
            <= '9' by {
            if i < p.len() {
                assert(p.push(c)[i] == p[i]);
            }
        }
        assert(p.push(c)[0] == p[0]);
    }
}

/// A run of non-whitespace from `i` up to `j`, followed by whitespace or the
/// end, is one word: it ends at `j`.
pub proof fn lemma_word_end_run(s: Seq<char>, i: int, j: int)
    requires
        0 <= i <= j <= s.len(),
        forall|k: int| i <= k < j ==> !is_ws(#[trigger] s[k]),
        j == s.len() || is_ws(s[j]),
    ensures
        word_end(s, i) == j,
    decreases j - i,
{
    if i < j {
        lemma_word_end_run(s, i + 1, j);
    }
}

/// A word, a space and another word split into the two words.
pub proof fn lemma_two_words(w: Seq<char>, d: Seq<char>)
    requires
        w.len() > 0,
        d.len() > 0,
        forall|k: int| 0 <= k < w.len() ==> !is_ws(#[trigger] w[k]),
        forall|k: int| 0 <= k < d.len() ==> !is_ws(#[trigger] d[k]),
    ensures
        words(w + seq![' '] + d) == seq![w, d],
{
    let s = w + seq![' '] + d;
    let m = w.len() as int;
    let n = s.len() as int;
    assert forall|k: int| 0 <= k < m implies !is_ws(#[trigger] s[k]) by {
        assert(s[k] == w[k]);
    }
    assert forall|k: int| m + 1 <= k < n implies !is_ws(#[trigger] s[k]) by {
        assert(s[k] == d[k - m - 1]);
    }
    assert(s[m] == ' ');
    assert(is_ws(' '));
    lemma_word_end_run(s, 1, m);
    lemma_word_end_run(s, m + 2, n);
    assert(words_from(s, n) == Seq::<Seq<char>>::empty());
    assert(s[m + 1] == d[0]);
    assert(words_from(s, m + 1) == seq![s.subrange(m + 1, n)] + words_from(s, n));
    assert(words_from(s, m) == words_from(s, m + 1));
    assert(s[0] == w[0]);
    assert(words_from(s, 0) == seq![s.subrange(0, m)] + words_from(s, m));
    assert(s.subrange(0, m) =~= w);
    assert(s.subrange(m + 1, n) =~= d);
    assert(seq![w] + (seq![d] + Seq::<Seq<char>>::empty()) =~= seq![w, d]);
}

/// A run of non-whitespace is one word.
pub proof fn lemma_one_word(w: Seq<char>)
    requires
        w.len() > 0,
        forall|k: int| 0 <= k < w.len() ==> !is_ws(#[trigger] w[k]),
    ensures
        words(w) == seq![w],
{
    let n = w.len() as int;
    lemma_word_end_run(w, 1, n);
    assert(words_from(w, n) == Seq::<Seq<char>>::empty());
    assert(words_from(w, 0) == seq![w.subrange(0, n)] + words_from(w, n));
    assert(w.subrange(0, n) =~= w);
    assert(seq![w] + Seq::<Seq<char>>::empty() =~= seq![w]);
}

/// A line that neither starts nor ends with whitespace is its own trim.
pub proof fn lemma_trim_unchanged(s: Seq<char>)
    requires
        s.len() > 0,
        !is_ws(s[0]),
        !is_ws(s.last()),
    ensures
        trim(s) == s,
{
}

} // verus!
