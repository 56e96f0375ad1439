//! Character-level building blocks: whitespace trimming, splitting at a
//! separator, and decimal numbers.
use vstd::prelude::*;
use vstd::string::*;

verus! {

/// The Unicode `White_Space` property, which is what `char::is_whitespace`
/// and `str::trim` go by.
pub open spec fn is_white_space(c: char) -> bool {
    ||| ('\u{9}' <= c && c <= '\u{d}')
    ||| c == ' '
    ||| c == '\u{85}'
    ||| c == '\u{a0}'
    ||| c == '\u{1680}'
    ||| ('\u{2000}' <= c && c <= '\u{200a}')
    ||| c == '\u{2028}'
    ||| c == '\u{2029}'
    ||| c == '\u{202f}'
    ||| c == '\u{205f}'
    ||| c == '\u{3000}'
}

/// `s` without its leading whitespace.
pub open spec fn trim_start(s: Seq<char>) -> Seq<char>
    decreases s.len(),
{
    if s.len() > 0 && is_white_space(s[0]) {
        trim_start(s.drop_first())
    } else {
        s
    }
}

/// `s` without its trailing whitespace.
pub open spec fn trim_end(s: Seq<char>) -> Seq<char>
    decreases s.len(),
{
    if s.len() > 0 && is_white_space(s.last()) {
        trim_end(s.drop_last())
    } else {
        s
    }
}

/// `s` without leading and trailing whitespace, as `str::trim` gives it.
pub open spec fn trimmed(s: Seq<char>) -> Seq<char> {
    trim_end(trim_start(s))
}

fn is_white_space_char(c: char) -> (r: bool)
    ensures
        r == is_white_space(c),
{
    ('\u{9}' <= c && c <= '\u{d}') || c == ' ' || c == '\u{85}' || c == '\u{a0}' || c
        == '\u{1680}' || ('\u{2000}' <= c && c <= '\u{200a}') || c == '\u{2028}' || c
        == '\u{2029}' || c == '\u{202f}' || c == '\u{205f}' || c == '\u{3000}'
}

/// Removes leading and trailing whitespace.
pub fn trim(s: &str) -> (r: &str)
    ensures
        r@ == trimmed(s@),
{
    let n = s.unicode_len();
    let mut i: usize = 0;
    assert(s@.skip(0) =~= s@);
    while i < n && is_white_space_char(s.get_char(i))
        invariant
            n == s@.len(),
            i <= n,
            trim_start(s@) == trim_start(s@.skip(i as int)),
        decreases n - i,
    {
        assert(s@.skip(i as int).drop_first() =~= s@.skip(i + 1));
        i = i + 1;
    }
    assert(trim_start(s@.skip(i as int)) == s@.skip(i as int));
    let mut j: usize = n;
    assert(s@.skip(i as int) =~= s@.subrange(i as int, n as int));
    while j > i && is_white_space_char(s.get_char(j - 1))
        invariant
            n == s@.len(),
            i <= j <= n,
            trimmed(s@) == trim_end(s@.subrange(i as int, j as int)),
        decreases j - i,
    {
        assert(s@.subrange(i as int, j as int).drop_last() =~= s@.subrange(i as int, j - 1));
        j = j - 1;
    }
    s.substring_char(i, j)
}

} // verus!

verus! {

/// Number of characters of `s` before its first `sep`, or the length of `s`
/// when it holds no `sep`.
pub open spec fn seg_len(s: Seq<char>, sep: char) -> nat
    decreases s.len(),
{
    if s.len() == 0 || s[0] == sep {
        0
    } else {
        1 + seg_len(s.drop_first(), sep)
    }
}

/// The `k`-th piece (from 0) of `s` split at `sep`, as `str::split` yields
/// them, or the empty sequence when `s` has fewer than `k + 1` pieces.
pub open spec fn piece(s: Seq<char>, sep: char, k: nat) -> Seq<char>
    decreases k,
{
    let n = seg_len(s, sep);
    if k == 0 {
        s.take(n as int)
    } else if n >= s.len() {
        Seq::empty()
    } else {
        piece(s.skip((n + 1) as int), sep, (k - 1) as nat)
    }
}

/// The first `sep` of `s`, if any, stands at `seg_len(s, sep)`.
pub proof fn lemma_seg_len(s: Seq<char>, sep: char)
    ensures
        seg_len(s, sep) <= s.len(),
        seg_len(s, sep) < s.len() ==> s[seg_len(s, sep) as int] == sep,
        forall|i: int| 0 <= i < seg_len(s, sep) ==> s[i] != sep,
    decreases s.len(),
{
    if s.len() > 0 && s[0] != sep {
        lemma_seg_len(s.drop_first(), sep);
        assert forall|i: int| 0 <= i < seg_len(s, sep) implies s[i] != sep by {
            if i > 0 {
                assert(s[i] == s.drop_first()[i - 1]);
            }
        }
    }
}

/// Position of the first `sep` at or after `from`, or `s`'s length when
/// there is none.
pub(crate) fn find_sep(s: &str, n: usize, sep: char, from: usize) -> (r: usize)
    requires
        n == s@.len(),
        from <= n,
    ensures
        r == from + seg_len(s@.skip(from as int), sep),
        r <= n,
{
    let mut i = from;
    assert(s@.skip(from as int).skip(0) =~= s@.skip(from as int));
    while i < n && s.get_char(i) != sep
        invariant
            n == s@.len(),
            from <= i <= n,
            seg_len(s@.skip(from as int), sep) == (i - from) + seg_len(s@.skip(i as int), sep),
        decreases n - i,
    {
        assert(s@.skip(i as int).drop_first() =~= s@.skip(i + 1));
        i = i + 1;
    }
    i
}

/// The `k`-th piece of `s` split at `sep` (see `piece`).
pub fn piece_of(s: &str, sep: char, k: usize) -> (r: &str)
    ensures
        r@ == piece(s@, sep, k as nat),
{
    let n = s.unicode_len();
    let mut p: usize = 0;
    let mut j: usize = 0;
    assert(s@.skip(0) =~= s@);
    loop
        invariant
            n == s@.len(),
            p <= n,
            j <= k,
            piece(s@, sep, k as nat) == piece(s@.skip(p as int), sep, (k - j) as nat),
        decreases k - j,
    {
        let e = find_sep(s, n, sep, p);
        proof {
            lemma_seg_len(s@.skip(p as int), sep);
        }
        if j == k {
            assert(s@.skip(p as int).take(e - p) =~= s@.subrange(p as int, e as int));
            return s.substring_char(p, e);
        }
        if e == n {
            proof {
                reveal_strlit("");
            }
            return "";
        }
        assert(s@.skip(p as int).skip(e - p + 1) =~= s@.skip(e + 1));
        p = e + 1;
        j = j + 1;
    }
}

} // verus!

verus! {

pub open spec fn is_digit(c: char) -> bool {
    '0' <= c && c <= '9'
}

pub open spec fn digit_value(c: char) -> int {
    c as int - '0' as int
}

/// The character of decimal digit `d` (for `d < 10`).
pub open spec fn digit_char(d: int) -> char {
    (d + '0' as int) as char
}

pub open spec fn all_digits(s: Seq<char>) -> bool {
    forall|i: int| 0 <= i < s.len() ==> is_digit(#[trigger] s[i])
}

/// The number that the decimal digits `s` spell.
pub open spec fn digits_value(s: Seq<char>) -> int
    decreases s.len(),
{
    if s.len() == 0 {
        0
    } else {
        digits_value(s.drop_last()) * 10 + digit_value(s.last())
    }
}

/// `s` without the one `+` that may lead it.
pub open spec fn unsigned_digits(s: Seq<char>) -> Seq<char> {
    if s.len() > 0 && s[0] == '+' {
        s.drop_first()
    } else {
        s
    }
}

/// What `str::parse` reads as an unsigned integer, bounds aside: an optional
/// `+` and at least one decimal digit, nothing else.
pub open spec fn decimal_value(s: Seq<char>) -> Option<int> {
    let d = unsigned_digits(s);
    if d.len() > 0 && all_digits(d) {
        Some(digits_value(d))
    } else {
        None
    }
}

/// The shortest decimal spelling of `n`, as `{}` formats an integer.
pub open spec fn decimal(n: nat) -> Seq<char>
    decreases n,
{
    if n < 10 {
        seq![digit_char(n as int)]
    } else {
        decimal(n / 10).push(digit_char((n % 10) as int))
    }
}

/// A prefix of a run of digits spells no larger a number than the run.
pub proof fn lemma_digits_prefix(s: Seq<char>, k: int)
    requires
        all_digits(s),
        0 <= k <= s.len(),
    ensures
        0 <= digits_value(s.take(k)) <= digits_value(s),
    decreases s.len(),
{
    if k == s.len() {
        assert(s.take(k) =~= s);
        if s.len() > 0 {
            lemma_digits_prefix(s.drop_last(), k - 1);
            assert(s.drop_last().take(k - 1) =~= s.drop_last());
        }
    } else {
        lemma_digits_prefix(s.drop_last(), k);
        lemma_digits_prefix(s.drop_last(), s.len() - 1);
        assert(s.drop_last().take(k) =~= s.take(k));
        assert(s.drop_last().take(s.len() - 1) =~= s.drop_last());
    }
}

/// Reads `s` as `str::parse` reads an unsigned integer no larger than `max`.
pub fn parse_decimal(s: &str, max: u64) -> (r: Option<u64>)
    requires
        max <= u32::MAX,
    ensures
        r is Some <==> (decimal_value(s@) is Some && decimal_value(s@)->0 <= max),
        r matches Some(v) ==> v == decimal_value(s@)->0,
{
    let n = s.unicode_len();
    let start: usize = if n > 0 && s.get_char(0) == '+' {
        1
    } else {
        0
    };
    let ghost d = s@.skip(start as int);
    assert(d =~= unsigned_digits(s@));
    if start == n {
        return None;
    }
    let mut acc: u64 = 0;
    let mut i: usize = start;
    assert(d.take(0) =~= Seq::<char>::empty());
    while i < n
        invariant
            n == s@.len(),
            start <= i <= n,
            d == s@.skip(start as int),
            d == unsigned_digits(s@),
            acc <= max <= u32::MAX,
            acc == digits_value(d.take(i - start)),
            all_digits(d.take(i - start)),
        decreases n - i,
    {
        let c = s.get_char(i);
        if c < '0' || c > '9' {
            assert(d[i - start] == c);
            assert(!is_digit(d[i - start]));
            assert(!all_digits(d));
            return None;
        }
        let v = acc * 10 + (c as u64 - '0' as u64);
        assert(d.take(i - start + 1).drop_last() =~= d.take(i - start));
        assert(d.take(i - start + 1).last() == c);
        assert(all_digits(d.take(i - start + 1)));
        assert(digits_value(d.take(i - start + 1)) == v);
        if v > max {
            proof {
                if all_digits(d) {
                    lemma_digits_prefix(d, i - start + 1);
                }
            }
            return None;
        }
        acc = v;
        i = i + 1;
    }
    assert(d.take(n - start) =~= d);
    Some(acc)
}

} // verus!

verus! {

/// The character of a decimal digit is a digit of that value.
pub proof fn lemma_digit_char(d: int)
    requires
        0 <= d < 10,
    ensures
        is_digit(digit_char(d)),
        digit_value(digit_char(d)) == d,
        !is_white_space(digit_char(d)),
        digit_char(d) != '+',
{
}

/// The decimal spelling of `n` reads back as `n`.
pub proof fn lemma_decimal_reads_back(n: nat)
    ensures
        decimal(n).len() > 0,
        all_digits(decimal(n)),
        digits_value(decimal(n)) == n,
        decimal_value(decimal(n)) == Some(n as int),
    decreases n,
{
    if n < 10 {
        lemma_digit_char(n as int);
        assert(decimal(n).drop_last() =~= Seq::<char>::empty());
        assert(digits_value(Seq::<char>::empty()) == 0);
        assert(decimal(n).last() == digit_char(n as int));
        assert(digits_value(decimal(n)) == n);
    } else {
        lemma_decimal_reads_back(n / 10);
        lemma_digit_char((n % 10) as int);
        assert(decimal(n).drop_last() =~= decimal(n / 10));
        assert(n == (n / 10) * 10 + n % 10) by (nonlinear_arith);
        assert(decimal(n).last() == digit_char((n % 10) as int));
        assert(digits_value(decimal(n)) == digits_value(decimal(n / 10)) * 10 + (n % 10));
        assert forall|i: int| 0 <= i < decimal(n).len() implies is_digit(#[trigger] decimal(n)[i]) by {
            if i < decimal(n).len() - 1 {
                assert(decimal(n)[i] == decimal(n / 10)[i]);
            }
        }
    }
    assert(is_digit(decimal(n)[0]));
    assert(unsigned_digits(decimal(n)) == decimal(n));
}

/// The decimal spelling of `n`, as `{}` formats it.
pub fn decimal_string(n: u32) -> (r: String)
    ensures
        r@ == decimal(n as nat),
    decreases n,
{
    let digits = "0123456789";
    proof {
        reveal_strlit("0123456789");
    }
    let d = (n % 10) as usize;
    let one = digits.substring_char(d, d + 1);
    assert(one@ =~= seq![digit_char(d as int)]);
    if n < 10 {
        String::from_str(one)
    } else {
        let mut r = decimal_string(n / 10);
        r.append(one);
        r
    }
}

} // verus!

verus! {

/// Whether `a` and `b` hold the same characters.
pub fn same_text(a: &str, b: &str) -> (r: bool)
    ensures
        r == (a@ == b@),
{
    let n = a.unicode_len();
    if n != b.unicode_len() {
        return false;
    }
    for i in 0..n
        invariant
            n == a@.len() == b@.len(),
            forall|j: int| 0 <= j < i ==> a@[j] == b@[j],
    {
        if a.get_char(i) != b.get_char(i) {
            return false;
        }
    }
    assert(a@ =~= b@);
    true
}

} // verus!

verus! {

/// No piece of `s` split at `sep` holds `sep`.
pub proof fn lemma_piece_lacks_sep(s: Seq<char>, sep: char, k: nat)
    ensures
        !piece(s, sep, k).contains(sep),
    decreases k,
{
    lemma_seg_len(s, sep);
    let n = seg_len(s, sep);
    if k == 0 {
        if s.take(n as int).contains(sep) {
            let i = choose|i: int| 0 <= i < s.take(n as int).len() && s.take(n as int)[i] == sep;
            assert(s[i] == sep);
        }
    } else if n < s.len() {
        lemma_piece_lacks_sep(s.skip((n + 1) as int), sep, (k - 1) as nat);
    }
}

proof fn lemma_trim_start_shape(s: Seq<char>)
    ensures
        trim_start(s).len() == 0 || !is_white_space(trim_start(s)[0]),
        trim_start(s) == s.skip(s.len() - trim_start(s).len()),
        trim_start(s).len() <= s.len(),
    decreases s.len(),
{
    if s.len() > 0 && is_white_space(s[0]) {
        lemma_trim_start_shape(s.drop_first());
        assert(s.drop_first().skip(s.drop_first().len() - trim_start(s).len()) =~= s.skip(
            s.len() - trim_start(s).len(),
        ));
    } else {
        assert(s.skip(0) =~= s);
    }
}

proof fn lemma_trim_end_shape(s: Seq<char>)
    ensures
        trim_end(s).len() == 0 || !is_white_space(trim_end(s).last()),
        trim_end(s) == s.take(trim_end(s).len() as int),
        trim_end(s).len() <= s.len(),
    decreases s.len(),
{
    if s.len() > 0 && is_white_space(s.last()) {
        lemma_trim_end_shape(s.drop_last());
        assert(s.drop_last().take(trim_end(s).len() as int) =~= s.take(trim_end(s).len() as int));
    } else {
        assert(s.take(s.len() as int) =~= s);
    }
}

/// Trimming twice trims no more than once, and keeps out what `s` lacks.
pub proof fn lemma_trimmed(s: Seq<char>, c: char)
    ensures
        trimmed(trimmed(s)) == trimmed(s),
        !s.contains(c) ==> !trimmed(s).contains(c),
{
    lemma_trim_start_shape(s);
    let a = trim_start(s);
    lemma_trim_end_shape(a);
    let b = trim_end(a);
    if b.len() > 0 {
        assert(b[0] == a[0]);
    }
    assert(trim_start(b) == b);
    assert(trim_end(b) == b);
    if !s.contains(c) && b.contains(c) {
        let i = choose|i: int| 0 <= i < b.len() && b[i] == c;
        assert(a[i] == c);
        assert(s[i + (s.len() - a.len())] == c);
    }
}

} // verus!

verus! {

/// Where the first `sep` of `a + b` stands: in `a` if `a` holds one, else
/// in `b`, after all of `a`.
pub proof fn lemma_seg_len_concat(a: Seq<char>, b: Seq<char>, sep: char)
    ensures
        seg_len(a + b, sep) == if seg_len(a, sep) < a.len() {
            seg_len(a, sep)
        } else {
            a.len() + seg_len(b, sep)
        },
    decreases a.len(),
{
    lemma_seg_len(a, sep);
    if a.len() == 0 {
        assert(a + b =~= b);
    } else if a[0] != sep {
        lemma_seg_len_concat(a.drop_first(), b, sep);
        assert((a + b).drop_first() =~= a.drop_first() + b);
    }
}

/// A text without `sep` is one whole piece.
pub proof fn lemma_piece_whole(a: Seq<char>, sep: char)
    requires
        !a.contains(sep),
    ensures
        seg_len(a, sep) == a.len(),
        piece(a, sep, 0) == a,
{
    lemma_seg_len(a, sep);
    if seg_len(a, sep) < a.len() {
        assert(a[seg_len(a, sep) as int] == sep);
    }
    assert(a.take(a.len() as int) =~= a);
}

/// Splitting `a`, a separator and `rest` yields `a` first and then the
/// pieces of `rest`.
pub proof fn lemma_piece_after(a: Seq<char>, sep: char, rest: Seq<char>, k: nat)
    requires
        !a.contains(sep),
    ensures
        piece(a + seq![sep] + rest, sep, 0) == a,
        piece(a + seq![sep] + rest, sep, k + 1) == piece(rest, sep, k),
{
    let s = a + seq![sep] + rest;
    lemma_piece_whole(a, sep);
    lemma_seg_len_concat(a, seq![sep] + rest, sep);
    assert(s =~= a + (seq![sep] + rest));
    assert((seq![sep] + rest)[0] == sep);
    assert(s.take(a.len() as int) =~= a);
    assert(s.skip((a.len() + 1) as int) =~= rest);
}

} // verus!

verus! {

/// What neither `a` nor `b` holds, `a + b` does not hold.
pub proof fn lemma_concat_lacks(a: Seq<char>, b: Seq<char>, c: char)
    requires
        !a.contains(c),
        !b.contains(c),
    ensures
        !(a + b).contains(c),
{
    if (a + b).contains(c) {
        let i = choose|i: int| 0 <= i < (a + b).len() && (a + b)[i] == c;
        if i < a.len() {
            assert(a[i] == c);
        } else {
            assert(b[i - a.len()] == c);
        }
    }
}

/// A decimal spelling holds nothing but digits.
pub proof fn lemma_decimal_lacks(n: nat, c: char)
    requires
        !is_digit(c),
    ensures
        !decimal(n).contains(c),
{
    lemma_decimal_reads_back(n);
    if decimal(n).contains(c) {
        let i = choose|i: int| 0 <= i < decimal(n).len() && decimal(n)[i] == c;
        assert(is_digit(decimal(n)[i]));
    }
}

} // verus!

verus! {

proof fn lemma_trim_start_skips(w: Seq<char>, r: Seq<char>)
    requires
        forall|i: int| 0 <= i < w.len() ==> is_white_space(#[trigger] w[i]),
    ensures
        trim_start(w + r) == trim_start(r),
    decreases w.len(),
{
    if w.len() == 0 {
        assert(w + r =~= r);
    } else {
        assert((w + r)[0] == w[0]);
        assert((w + r).drop_first() =~= w.drop_first() + r);
        assert forall|i: int| 0 <= i < w.drop_first().len() implies is_white_space(
            #[trigger] w.drop_first()[i],
        ) by {
            assert(w.drop_first()[i] == w[i + 1]);
        }
        lemma_trim_start_skips(w.drop_first(), r);
    }
}

proof fn lemma_trim_end_skips(r: Seq<char>, w: Seq<char>)
    requires
        forall|i: int| 0 <= i < w.len() ==> is_white_space(#[trigger] w[i]),
    ensures
        trim_end(r + w) == trim_end(r),
    decreases w.len(),
{
    if w.len() == 0 {
        assert(r + w =~= r);
    } else {
        assert((r + w).last() == w.last());
        assert((r + w).drop_last() =~= r + w.drop_last());
        assert forall|i: int| 0 <= i < w.drop_last().len() implies is_white_space(
            #[trigger] w.drop_last()[i],
        ) by {
            assert(w.drop_last()[i] == w[i]);
        }
        lemma_trim_end_skips(r, w.drop_last());
    }
}

/// Trimming removes exactly the whitespace around a text: for runs of
/// whitespace `w1` and `w2` and a text `m` that is empty or neither starts
/// nor ends with whitespace, `w1 + m + w2` trims to `m`.
pub proof fn lemma_trimmed_around(w1: Seq<char>, m: Seq<char>, w2: Seq<char>)
    requires
        forall|i: int| 0 <= i < w1.len() ==> is_white_space(#[trigger] w1[i]),
        forall|i: int| 0 <= i < w2.len() ==> is_white_space(#[trigger] w2[i]),
        m.len() == 0 || (!is_white_space(m[0]) && !is_white_space(m.last())),
    ensures
        trimmed(w1 + m + w2) == m,
{
    assert(w1 + m + w2 =~= w1 + (m + w2));
    lemma_trim_start_skips(w1, m + w2);
    if m.len() == 0 {
        assert(m + w2 =~= w2 + m);
        lemma_trim_start_skips(w2, m);
    } else {
        assert((m + w2)[0] == m[0]);
        lemma_trim_end_skips(m, w2);
    }
}

} // verus!
