//! Character-level text primitives shared by the parsers: whitespace and
//! trimming as `str::trim` defines them, substring search, ASCII case folding
//! and the decimal parsing that `str::parse` performs for unsigned integers.

use vstd::prelude::*;
use vstd::utf8::{decode_utf8, valid_utf8};

verus! {

/// The characters of `s`, in order.
pub fn chars_of(s: &str) -> (v: Vec<char>)
    ensures
        v@ == s@,
{
    let mut v: Vec<char> = Vec::new();
    for c in it: s.chars()
        invariant
            v@ == it.seq().take(it.index() as int),
    {
        v.push(c);
    }
    v
}

/// Appends one character to a `String`, through `String::push`.
#[verifier::external_body]
pub(crate) fn push_char(s: &mut String, c: char)
    ensures
        final(s)@ == old(s)@.push(c),
{
    s.push(c);
}

/// The text that `String::from_utf8_lossy` makes of a byte sequence.
pub uninterp spec fn utf8_lossy(bytes: Seq<u8>) -> Seq<char>;

/// Decodes `bytes` through `String::from_utf8_lossy`, which replaces every
/// invalid UTF-8 sequence with U+FFFD. The contract names the result, and
/// states what the documentation promises: valid UTF-8 decodes to itself.
#[verifier::external_body]
pub(crate) fn lossy_text(bytes: &[u8]) -> (s: String)
    ensures
        s@ == utf8_lossy(bytes@),
        valid_utf8(bytes@) ==> s@ == decode_utf8(bytes@),
{
    String::from_utf8_lossy(bytes).into_owned()
}

/// Whether `c` has the Unicode `White_Space` property (`char::is_whitespace`).
pub open spec fn is_ws(c: char) -> bool {
    let u = c as u32;
    ||| u == 0x20
    ||| 0x09 <= u <= 0x0d
    ||| u == 0x85
    ||| u == 0xa0
    ||| u == 0x1680
    ||| 0x2000 <= u <= 0x200a
    ||| u == 0x2028
    ||| u == 0x2029
    ||| u == 0x202f
    ||| u == 0x205f
    ||| u == 0x3000
}

/// Executable `is_ws`.
pub fn is_whitespace(c: char) -> (r: bool)
    ensures
        r == is_ws(c),
{
    let u = c as u32;
    u == 0x20 || (0x09 <= u && u <= 0x0d) || u == 0x85 || u == 0xa0 || u == 0x1680 || (0x2000
        <= u && u <= 0x200a) || u == 0x2028 || u == 0x2029 || u == 0x202f || u == 0x205f || u
        == 0x3000
}

/// Which characters a trimming operation removes.
#[derive(Clone, Copy, PartialEq, Eq, Debug)]
pub enum Strip {
    /// Unicode whitespace, as `str::trim` removes it.
    Whitespace,
    /// The NUL character `'\0'`.
    Nul,
    /// The line feed `'\n'`.
    Newline,
}

pub open spec fn strips(k: Strip, c: char) -> bool {
    match k {
        Strip::Whitespace => is_ws(c),
        Strip::Nul => c == '\0',
        Strip::Newline => c == '\n',
    }
}

/// `s` without its leading characters of kind `k`.
pub open spec fn strip_front(s: Seq<char>, k: Strip) -> Seq<char>
    decreases s.len(),
{
    if s.len() > 0 && strips(k, s[0]) {
        strip_front(s.drop_first(), k)
    } else {
        s
    }
}

/// `s` without its trailing characters of kind `k`.
pub open spec fn strip_back(s: Seq<char>, k: Strip) -> Seq<char>
    decreases s.len(),
{
    if s.len() > 0 && strips(k, s.last()) {
        strip_back(s.drop_last(), k)
    } else {
        s
    }
}

/// `s` without leading and trailing characters of kind `k` (`str::trim_matches`).
pub open spec fn strip_both(s: Seq<char>, k: Strip) -> Seq<char> {
    strip_back(strip_front(s, k), k)
}

/// `str::trim`.
pub open spec fn trim(s: Seq<char>) -> Seq<char> {
    strip_both(s, Strip::Whitespace)
}

/// What `strip_front` leaves starts with a character it keeps, and is a suffix of `s`.
pub proof fn lemma_strip_front_shape(s: Seq<char>, k: Strip)
    ensures
        strip_front(s, k).len() <= s.len(),
        strip_front(s, k) == s.skip(s.len() - strip_front(s, k).len()),
        strip_front(s, k).len() == 0 || !strips(k, strip_front(s, k)[0]),
    decreases s.len(),
{
    if s.len() > 0 && strips(k, s[0]) {
        lemma_strip_front_shape(s.drop_first(), k);
        let r = strip_front(s, k);
        assert(s.drop_first().skip(s.drop_first().len() - r.len()) =~= s.skip(s.len() - r.len()));
    } else {
        assert(s.skip(0) =~= s);
    }
}

/// What `strip_back` leaves ends with a character it keeps, and is a prefix of `s`.
pub proof fn lemma_strip_back_shape(s: Seq<char>, k: Strip)
    ensures
        strip_back(s, k).len() <= s.len(),
        strip_back(s, k) == s.take(strip_back(s, k).len() as int),
        strip_back(s, k).len() == 0 || !strips(k, strip_back(s, k).last()),
    decreases s.len(),
{
    if s.len() > 0 && strips(k, s.last()) {
        lemma_strip_back_shape(s.drop_last(), k);
        let r = strip_back(s, k);
        assert(s.drop_last().take(r.len() as int) =~= s.take(r.len() as int));
    } else {
        assert(s.take(s.len() as int) =~= s);
    }
}

/// Leading characters that `strip_front` removes do not change its result.
pub proof fn lemma_strip_front_past(w: Seq<char>, x: Seq<char>, k: Strip)
    requires
        forall|i: int| 0 <= i < w.len() ==> strips(k, #[trigger] w[i]),
    ensures
        strip_front(w + x, k) == strip_front(x, k),
    decreases w.len(),
{
    if w.len() == 0 {
        assert(w + x =~= x);
    } else {
        assert((w + x)[0] == w[0]);
        assert((w + x).drop_first() =~= w.drop_first() + x);
        lemma_strip_front_past(w.drop_first(), x, k);
    }
}

/// Trailing characters that `strip_back` removes do not change its result.
pub proof fn lemma_strip_back_past(x: Seq<char>, w: Seq<char>, k: Strip)
    requires
        forall|i: int| 0 <= i < w.len() ==> strips(k, #[trigger] w[i]),
    ensures
        strip_back(x + w, k) == strip_back(x, k),
    decreases w.len(),
{
    if w.len() == 0 {
        assert(x + w =~= x);
    } else {
        assert((x + w).last() == w.last());
        assert((x + w).drop_last() =~= x + w.drop_last());
        lemma_strip_back_past(x, w.drop_last(), k);
    }
}

/// `trim` of a text padded with whitespace on both sides, whose own ends are
/// not whitespace, is that text.
pub proof fn lemma_trim_padded(w1: Seq<char>, m: Seq<char>, w2: Seq<char>)
    requires
        forall|i: int| 0 <= i < w1.len() ==> is_ws(#[trigger] w1[i]),
        forall|i: int| 0 <= i < w2.len() ==> is_ws(#[trigger] w2[i]),
        m.len() > 0,
        !is_ws(m[0]),
        !is_ws(m.last()),
    ensures
        trim(w1 + m + w2) == m,
{
    let k = Strip::Whitespace;
    assert(w1 + m + w2 =~= w1 + (m + w2));
    lemma_strip_front_past(w1, m + w2, k);
    assert((m + w2)[0] == m[0]);
    assert(strip_front(m + w2, k) == m + w2);
    lemma_strip_back_past(m, w2, k);
}

/// Stripping both ends twice strips no more than once.
pub proof fn lemma_strip_both_idempotent(s: Seq<char>, k: Strip)
    ensures
        strip_both(strip_both(s, k), k) == strip_both(s, k),
{
    let y = strip_front(s, k);
    let z = strip_back(y, k);
    lemma_strip_front_shape(s, k);
    lemma_strip_back_shape(y, k);
    if z.len() > 0 {
        assert(z[0] == y[0]);
    }
    assert(strip_front(z, k) == z);
}

fn strips_char(k: Strip, c: char) -> (r: bool)
    ensures
        r == strips(k, c),
{
    match k {
        Strip::Whitespace => is_whitespace(c),
        Strip::Nul => c == '\0',
        Strip::Newline => c == '\n',
    }
}

/// The first index in `lo..hi` from which `strip_front` keeps the characters.
pub fn front_index(v: &Vec<char>, lo: usize, hi: usize, k: Strip) -> (i: usize)
    requires
        lo <= hi <= v.len(),
    ensures
        lo <= i <= hi,
        v@.subrange(i as int, hi as int) == strip_front(v@.subrange(lo as int, hi as int), k),
{
    let mut i = lo;
    while i < hi && strips_char(k, v[i])
        invariant
            lo <= i <= hi <= v.len(),
            strip_front(v@.subrange(i as int, hi as int), k) == strip_front(
                v@.subrange(lo as int, hi as int),
                k,
            ),
        decreases hi - i,
    {
        assert(v@.subrange(i as int, hi as int).drop_first() =~= v@.subrange(i + 1, hi as int));
        i += 1;
    }
    i
}

/// The end index in `lo..hi` up to which `strip_back` keeps the characters.
pub fn back_index(v: &Vec<char>, lo: usize, hi: usize, k: Strip) -> (j: usize)
    requires
        lo <= hi <= v.len(),
    ensures
        lo <= j <= hi,
        v@.subrange(lo as int, j as int) == strip_back(v@.subrange(lo as int, hi as int), k),
{
    let mut j = hi;
    while j > lo && strips_char(k, v[j - 1])
        invariant
            lo <= j <= hi <= v.len(),
            strip_back(v@.subrange(lo as int, j as int), k) == strip_back(
                v@.subrange(lo as int, hi as int),
                k,
            ),
        decreases j - lo,
    {
        assert(v@.subrange(lo as int, j as int).drop_last() =~= v@.subrange(lo as int, j - 1));
        j -= 1;
    }
    j
}

/// The bounds, inside `lo..hi`, of what `strip_both` keeps.
pub fn strip_range(v: &Vec<char>, lo: usize, hi: usize, k: Strip) -> (r: (usize, usize))
    requires
        lo <= hi <= v.len(),
    ensures
        lo <= r.0 <= r.1 <= hi,
        v@.subrange(r.0 as int, r.1 as int) == strip_both(v@.subrange(lo as int, hi as int), k),
{
    let a = front_index(v, lo, hi, k);
    let b = back_index(v, a, hi, k);
    (a, b)
}

/// Whether `pat` occurs in `s` at index `i`.
pub open spec fn matches_at(s: Seq<char>, pat: Seq<char>, i: int) -> bool {
    0 <= i && i + pat.len() <= s.len() && s.subrange(i, i + pat.len()) == pat
}

/// The first index at or after `i` where `pat` occurs in `s`.
pub open spec fn find_from(s: Seq<char>, pat: Seq<char>, i: int) -> Option<int>
    decreases s.len() + 1 - i,
{
    if i < 0 || i + pat.len() > s.len() {
        None
    } else if matches_at(s, pat, i) {
        Some(i)
    } else {
        find_from(s, pat, i + 1)
    }
}

/// The first index where `pat` occurs in `s` (`str::find`, counted in characters).
pub open spec fn find(s: Seq<char>, pat: Seq<char>) -> Option<int> {
    find_from(s, pat, 0)
}

/// Where `find_from` finds `pat`, it occurs, and no earlier than `i`.
pub proof fn lemma_find_from(s: Seq<char>, pat: Seq<char>, i: int)
    ensures
        find_from(s, pat, i) matches Some(j) ==> i <= j && matches_at(s, pat, j),
    decreases s.len() + 1 - i,
{
    if i >= 0 && i + pat.len() <= s.len() && !matches_at(s, pat, i) {
        lemma_find_from(s, pat, i + 1);
    }
}

/// Where `find` finds `pat`, it occurs there, inside `s`.
pub proof fn lemma_find(s: Seq<char>, pat: Seq<char>)
    ensures
        find(s, pat) matches Some(j) ==> 0 <= j && j + pat.len() <= s.len() && matches_at(s, pat, j),
{
    lemma_find_from(s, pat, 0);
}

proof fn lemma_find_from_first(s: Seq<char>, pat: Seq<char>, i: int, k: int)
    requires
        0 <= i <= k,
        matches_at(s, pat, k),
        forall|j: int| i <= j < k ==> !matches_at(s, pat, j),
    ensures
        find_from(s, pat, i) == Some(k),
    decreases k - i,
{
    if i < k {
        lemma_find_from_first(s, pat, i + 1, k);
    }
}

/// `find` gives the first place where `pat` occurs.
pub proof fn lemma_find_first(s: Seq<char>, pat: Seq<char>, k: int)
    requires
        matches_at(s, pat, k),
        forall|j: int| 0 <= j < k ==> !matches_at(s, pat, j),
    ensures
        find(s, pat) == Some(k),
{
    lemma_find_from_first(s, pat, 0, k);
}

/// `find` gives nothing where `pat` does not occur.
pub proof fn lemma_find_none(s: Seq<char>, pat: Seq<char>)
    requires
        forall|j: int| !matches_at(s, pat, j),
    ensures
        find(s, pat) is None,
{
    lemma_find(s, pat);
}

fn matches_at_exec(v: &Vec<char>, i: usize, pat: &Vec<char>) -> (r: bool)
    requires
        i + pat.len() <= v.len(),
    ensures
        r == (v@.subrange(i as int, i + pat.len()) == pat@),
{
    let mut k: usize = 0;
    while k < pat.len()
        invariant
            k <= pat.len(),
            i + pat.len() <= v.len(),
            forall|m: int| 0 <= m < k ==> v@[i + m] == pat@[m],
        decreases pat.len() - k,
    {
        if v[i + k] != pat[k] {
            assert(v@.subrange(i as int, i + pat.len())[k as int] != pat@[k as int]);
            return false;
        }
        k += 1;
    }
    assert(v@.subrange(i as int, i + pat.len()) =~= pat@);
    true
}

/// Searches `pat` in the characters `lo..hi` of `v`; the index found is one of `v`.
pub fn find_in(v: &Vec<char>, lo: usize, hi: usize, pat: &Vec<char>) -> (r: Option<usize>)
    requires
        lo <= hi <= v.len(),
    ensures
        match r {
            None => find(v@.subrange(lo as int, hi as int), pat@) is None,
            Some(i) => lo <= i && i + pat.len() <= hi && find(
                v@.subrange(lo as int, hi as int),
                pat@,
            ) == Some(i - lo),
        },
{
    let ghost s = v@.subrange(lo as int, hi as int);
    let mut i = lo;
    while pat.len() <= hi - i
        invariant
            lo <= i <= hi,
            hi <= v.len(),
            s == v@.subrange(lo as int, hi as int),
            find(s, pat@) == find_from(s, pat@, i - lo),
        decreases hi + 1 - i,
    {
        if matches_at_exec(v, i, pat) {
            assert(s.subrange(i - lo, i - lo + pat.len()) =~= v@.subrange(
                i as int,
                i + pat.len(),
            ));
            return Some(i);
        }
        assert(s.subrange(i - lo, i - lo + pat.len()) =~= v@.subrange(i as int, i + pat.len()));
        if pat.len() == 0 {
            assert(v@.subrange(i as int, i as int) =~= pat@);
        }
        i += 1;
    }
    None
}

/// Whether two character vectors hold the same characters.
pub fn same_chars(a: &Vec<char>, b: &Vec<char>) -> (r: bool)
    ensures
        r == (a@ == b@),
{
    if a.len() != b.len() {
        return false;
    }
    let mut i: usize = 0;
    while i < a.len()
        invariant
            a.len() == b.len(),
            i <= a.len(),
            forall|k: int| 0 <= k < i ==> a@[k] == b@[k],
        decreases a.len() - i,
    {
        if a[i] != b[i] {
            return false;
        }
        i += 1;
    }
    assert(a@ =~= b@);
    true
}

/// Whether two strings hold the same characters.
pub fn same_str(a: &str, b: &str) -> (r: bool)
    ensures
        r == (a@ == b@),
{
    same_chars(&chars_of(a), &chars_of(b))
}

/// ASCII lower-casing of one byte (`u8::to_ascii_lowercase`).
pub open spec fn lower_byte(b: u8) -> u8 {
    if 65 <= b <= 90 {
        (b + 32) as u8
    } else {
        b
    }
}

/// ASCII lower-casing of one character (`char::to_ascii_lowercase`), as a code point.
pub open spec fn lower_code(c: char) -> u32 {
    let u = c as u32;
    if 65 <= u <= 90 {
        (u + 32) as u32
    } else {
        u
    }
}

/// Whether `s`, ASCII lower-cased, equals `t`.
pub open spec fn lower_eq(s: Seq<char>, t: Seq<char>) -> bool {
    s.len() == t.len() && forall|i: int| 0 <= i < s.len() ==> lower_code(#[trigger] s[i]) == t[i] as u32
}

/// Executable `lower_eq` on the characters `lo..hi` of `v`.
pub fn lower_eq_at(v: &Vec<char>, lo: usize, hi: usize, t: &Vec<char>) -> (r: bool)
    requires
        lo <= hi <= v.len(),
    ensures
        r == lower_eq(v@.subrange(lo as int, hi as int), t@),
{
    let ghost s = v@.subrange(lo as int, hi as int);
    if hi - lo != t.len() {
        return false;
    }
    let mut k: usize = 0;
    while k < t.len()
        invariant
            s == v@.subrange(lo as int, hi as int),
            hi - lo == t.len(),
            lo <= hi <= v.len(),
            k <= t.len(),
            forall|m: int| 0 <= m < k ==> lower_code(#[trigger] s[m]) == t@[m] as u32,
        decreases t.len() - k,
    {
        let u = v[lo + k] as u32;
        let l = if 65 <= u && u <= 90 {
            u + 32
        } else {
            u
        };
        assert(s[k as int] == v@[lo + k]);
        if l != t[k] as u32 {
            return false;
        }
        k += 1;
    }
    true
}

/// Whether a byte is an ASCII decimal digit.
pub open spec fn is_digit(b: u8) -> bool {
    48 <= b <= 57
}

pub open spec fn all_digits(s: Seq<u8>) -> bool {
    forall|i: int| 0 <= i < s.len() ==> is_digit(#[trigger] s[i])
}

/// The number that a sequence of decimal digits writes.
pub open spec fn digits_value(s: Seq<u8>) -> nat
    decreases s.len(),
{
    if s.len() == 0 {
        0
    } else {
        digits_value(s.drop_last()) * 10 + (s.last() - 48) as nat
    }
}

/// The digits after an optional leading `+`.
pub open spec fn unsigned_digits(s: Seq<u8>) -> Seq<u8> {
    if s.len() > 0 && s[0] == 43 {
        s.drop_first()
    } else {
        s
    }
}

/// What `str::parse` gives for an unsigned integer type whose largest value is
/// `max`: an optional `+`, then at least one decimal digit, and no overflow.
pub open spec fn parse_unsigned(s: Seq<u8>, max: nat) -> Option<nat> {
    let d = unsigned_digits(s);
    if d.len() > 0 && all_digits(d) && digits_value(d) <= max {
        Some(digits_value(d))
    } else {
        None
    }
}

proof fn lemma_digits_prefix(s: Seq<u8>, k: int)
    requires
        all_digits(s),
        0 <= k <= s.len(),
    ensures
        digits_value(s.take(k)) <= digits_value(s),
    decreases s.len(),
{
    if k < s.len() {
        assert(all_digits(s.drop_last()));
        lemma_digits_prefix(s.drop_last(), k);
        assert(s.drop_last().take(k) =~= s.take(k));
    } else {
        assert(s.take(k) =~= s);
    }
}

/// Parses `s` as `str::parse` does for an unsigned integer type whose largest
/// value is `max`.
pub fn parse_decimal(s: &[u8], max: u64) -> (r: Option<u64>)
    ensures
        match r {
            Some(x) => parse_unsigned(s@, max as nat) == Some(x as nat),
            None => parse_unsigned(s@, max as nat) is None,
        },
{
    let start: usize = if s.len() > 0 && s[0] == 43 {
        1
    } else {
        0
    };
    let ghost d = unsigned_digits(s@);
    assert(d =~= s@.subrange(start as int, s@.len() as int));
    if start == s.len() {
        return None;
    }
    let mut acc: u64 = 0;
    let mut i = start;
    while i < s.len()
        invariant
            start <= i <= s.len(),
            d == unsigned_digits(s@),
            d =~= s@.subrange(start as int, s@.len() as int),
            acc as nat == digits_value(d.take(i - start)),
            acc <= max,
            all_digits(d.take(i - start)),
        decreases s.len() - i,
    {
        let b = s[i];
        assert(d[i - start] == b);
        if b < 48 || b > 57 {
            assert(!is_digit(d[i - start]));
            assert(!all_digits(d));
            return None;
        }
        let digit = (b - 48) as u64;
        assert(d.take(i + 1 - start).drop_last() =~= d.take(i - start));
        assert(all_digits(d.take(i + 1 - start)));
        assert(d.take(i + 1 - start).last() == b);
        assert(digits_value(d.take(i + 1 - start)) == acc * 10 + digit);
        if digit > max || acc > (max - digit) / 10 {
            assert(acc * 10 + digit > max) by (nonlinear_arith)
                requires
                    digit > max || acc > (max - digit) / 10,
                    digit <= max ==> (max - digit) / 10 * 10 <= max - digit,
                    digit <= max ==> max - digit < ((max - digit) / 10 + 1) * 10,
            ;
            proof {
                if all_digits(d) {
                    lemma_digits_prefix(d, (i + 1 - start) as int);
                }
            }
            return None;
        }
        assert(acc * 10 + digit <= max) by (nonlinear_arith)
            requires
                digit <= max,
                acc <= (max - digit) / 10,
                (max - digit) / 10 * 10 <= max - digit,
        ;
        acc = acc * 10 + digit;
        i += 1;
    }
    assert(d.take(i - start) =~= d);
    Some(acc)
}

} // verus!
