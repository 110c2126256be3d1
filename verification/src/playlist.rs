//! PLS playlist support: detecting a `.pls` response and extracting its
//! stream entries, so a playlist URL can stand in for a direct stream URL.
//!
//! PLS is the INI-style SHOUTcast/Icecast playlist format:
//!
//! ```text
//! [playlist]
//! File1=https://example.com/stream.mp3
//! Title1=Example Radio
//! Length1=-1
//! NumberOfEntries=1
//! Version=2
//! ```
//!
//! Only the `FileN` keys matter here.

use vstd::prelude::*;
use vstd::string::StringSliceAdditionalSpecFns;
use vstd::slice::slice_subrange;
use vstd::utf8::encode_utf8;

use crate::text::{
    chars_of, find, find_in, is_ws, lemma_find, lemma_find_first, lemma_find_none,
    lemma_trim_padded, lower_byte, lower_code, lower_eq, lower_eq_at, matches_at, parse_decimal,
    parse_unsigned, strip_range, trim, Strip,
};

verus! {

/// The characters of `.pls`.
pub open spec fn pls_suffix() -> Seq<char> {
    seq!['.', 'p', 'l', 's']
}

/// The characters of `audio/x-scpls`.
pub open spec fn mime_x_scpls() -> Seq<char> {
    seq!['a', 'u', 'd', 'i', 'o', '/', 'x', '-', 's', 'c', 'p', 'l', 's']
}

/// The characters of `audio/scpls`.
pub open spec fn mime_scpls() -> Seq<char> {
    seq!['a', 'u', 'd', 'i', 'o', '/', 's', 'c', 'p', 'l', 's']
}

/// The MIME type of a `Content-Type` value: what precedes the first `;`, trimmed.
pub open spec fn mime_type(content_type: Seq<char>) -> Seq<char> {
    let end = match find(content_type, seq![';']) {
        Some(j) => j,
        None => content_type.len() as int,
    };
    trim(content_type.take(end))
}

/// A response is a PLS playlist if its URL path ends in `.pls`, or its MIME
/// type is `audio/x-scpls` or `audio/scpls`, all compared ignoring ASCII case.
pub open spec fn is_pls_response(url_path: Seq<char>, content_type: Option<Seq<char>>) -> bool {
    ||| url_path.len() >= 4 && lower_eq(url_path.skip(url_path.len() - 4), pls_suffix())
    ||| match content_type {
        Some(ct) => lower_eq(mime_type(ct), mime_x_scpls()) || lower_eq(
            mime_type(ct),
            mime_scpls(),
        ),
        None => false,
    }
}

pub open spec fn opt_str(o: Option<&str>) -> Option<Seq<char>> {
    match o {
        Some(s) => Some(s@),
        None => None,
    }
}

/// Whether a response looks like a PLS playlist rather than an audio stream,
/// judged by the URL path and/or the `Content-Type` header.
pub fn looks_like_pls(url_path: &str, content_type: Option<&str>) -> (r: bool)
    ensures
        r == is_pls_response(url_path@, opt_str(content_type)),
{
    let p = chars_of(url_path);
    let suffix: Vec<char> = vec!['.', 'p', 'l', 's'];
    assert(suffix@ =~= pls_suffix());
    if p.len() >= 4 {
        assert(p@.subrange(p.len() - 4, p.len() as int) =~= p@.skip(p.len() - 4));
        if lower_eq_at(&p, p.len() - 4, p.len(), &suffix) {
            return true;
        }
    }
    match content_type {
        None => false,
        Some(ct) => {
            let c = chars_of(ct);
            let semi: Vec<char> = vec![';'];
            assert(semi@ =~= seq![';']);
            assert(c@.subrange(0, c@.len() as int) =~= c@);
            let end = match find_in(&c, 0, c.len(), &semi) {
                Some(j) => j,
                None => c.len(),
            };
            assert(c@.take(end as int) =~= c@.subrange(0, end as int));
            let (a, b) = strip_range(&c, 0, end, Strip::Whitespace);
            let x: Vec<char> = vec!['a', 'u', 'd', 'i', 'o', '/', 'x', '-', 's', 'c', 'p', 'l', 's'];
            let y: Vec<char> = vec!['a', 'u', 'd', 'i', 'o', '/', 's', 'c', 'p', 'l', 's'];
            assert(x@ =~= mime_x_scpls());
            assert(y@ =~= mime_scpls());
            lower_eq_at(&c, a, b, &x) || lower_eq_at(&c, a, b, &y)
        },
    }
}

/// Law: a response whose URL path ends in `.pls`, in any ASCII case, is a
/// playlist whatever its Content-Type says; without a Content-Type, the path
/// alone decides.
pub proof fn law_pls_path_decides(p: Seq<char>, content_type: Option<Seq<char>>)
    ensures
        ({
            let n = p.len() as int;
            let pls_path = n >= 4 && p[n - 4] == '.' && (p[n - 3] == 'p' || p[n - 3] == 'P') && (
            p[n - 2] == 'l' || p[n - 2] == 'L') && (p[n - 1] == 's' || p[n - 1] == 'S');
            &&& pls_path ==> is_pls_response(p, content_type)
            &&& is_pls_response(p, None) == pls_path
        }),
{
    let n = p.len() as int;
    if n >= 4 {
        let tail = p.skip(n - 4);
        assert(tail[0] == p[n - 4] && tail[1] == p[n - 3] && tail[2] == p[n - 2] && tail[3] == p[n
            - 1]);
        let lowered = lower_eq(tail, pls_suffix());
        assert(lowered == (lower_code(tail[0]) == '.' as u32 && lower_code(tail[1]) == 'p' as u32
            && lower_code(tail[2]) == 'l' as u32 && lower_code(tail[3]) == 's' as u32));
        lemma_lower_code_is(tail[0], '.', '.');
        lemma_lower_code_is(tail[1], 'p', 'P');
        lemma_lower_code_is(tail[2], 'l', 'L');
        lemma_lower_code_is(tail[3], 's', 'S');
    }
}

/// A character lower-cases to `lo` exactly when it is `lo` or `up`, where `up`
/// is the upper-case form of a lower-case ASCII letter `lo`, or `lo` itself.
proof fn lemma_lower_code_is(c: char, lo: char, up: char)
    requires
        (lo == '.' && up == '.') || (lo == 'p' && up == 'P') || (lo == 'l' && up == 'L') || (lo
            == 's' && up == 'S'),
    ensures
        (lower_code(c) == lo as u32) == (c == lo || c == up),
{
    if c as u32 == lo as u32 {
        assert(c == lo);
    }
    if c as u32 == up as u32 {
        assert(c == up);
    }
}

/// The MIME type of `w1 + m + w2 + params` is `m`, where `w1` and `w2` are
/// whitespace, `m` holds no `;` and has no whitespace at its ends, and
/// `params` is empty or starts with `;`.
proof fn lemma_mime_of_padded(w1: Seq<char>, m: Seq<char>, w2: Seq<char>, params: Seq<char>)
    requires
        forall|i: int| 0 <= i < w1.len() ==> is_ws(#[trigger] w1[i]),
        forall|i: int| 0 <= i < w2.len() ==> is_ws(#[trigger] w2[i]),
        m.len() > 0,
        !is_ws(m[0]),
        !is_ws(m.last()),
        forall|i: int| 0 <= i < m.len() ==> #[trigger] m[i] != ';',
        params.len() == 0 || params[0] == ';',
    ensures
        mime_type(w1 + m + w2 + params) == m,
{
    let ct = w1 + m + w2 + params;
    let n = (w1.len() + m.len() + w2.len()) as int;
    let semi = seq![';'];
    assert forall|j: int| 0 <= j < n implies !matches_at(ct, semi, j) by {
        if matches_at(ct, semi, j) {
            assert(ct.subrange(j, j + 1)[0] == ct[j]);
            if j < w1.len() {
                assert(is_ws(w1[j]));
            } else if j < w1.len() + m.len() {
                assert(m[j - w1.len()] != ';');
            } else {
                assert(is_ws(w2[j - w1.len() - m.len()]));
            }
        }
    }
    if params.len() > 0 {
        assert(ct.subrange(n, n + 1) =~= semi);
        lemma_find_first(ct, semi, n);
    } else {
        assert forall|j: int| !matches_at(ct, semi, j) by {}
        lemma_find_none(ct, semi);
    }
    assert(ct.take(n) =~= w1 + m + w2);
    lemma_trim_padded(w1, m, w2);
}

/// Law: a response whose MIME type is `audio/x-scpls` or `audio/scpls`, in
/// any ASCII case, with whitespace around it and parameters after a `;`, is
/// a playlist whatever its URL path.
pub proof fn law_pls_content_type(
    p: Seq<char>,
    w1: Seq<char>,
    m: Seq<char>,
    w2: Seq<char>,
    params: Seq<char>,
)
    requires
        lower_eq(m, seq!['a', 'u', 'd', 'i', 'o', '/', 'x', '-', 's', 'c', 'p', 'l', 's'])
            || lower_eq(m, seq!['a', 'u', 'd', 'i', 'o', '/', 's', 'c', 'p', 'l', 's']),
        forall|i: int| 0 <= i < w1.len() ==> is_ws(#[trigger] w1[i]),
        forall|i: int| 0 <= i < w2.len() ==> is_ws(#[trigger] w2[i]),
        params.len() == 0 || params[0] == ';',
    ensures
        is_pls_response(p, Some(w1 + m + w2 + params)),
{
    assert(seq!['a', 'u', 'd', 'i', 'o', '/', 'x', '-', 's', 'c', 'p', 'l', 's'] =~= mime_x_scpls());
    assert(seq!['a', 'u', 'd', 'i', 'o', '/', 's', 'c', 'p', 'l', 's'] =~= mime_scpls());
    assert forall|i: int| 0 <= i < m.len() implies #[trigger] m[i] != ';' by {
        assert(lower_code(m[i]) != lower_code(';'));
    }
    assert(lower_code(m[0]) == 'a' as u32);
    assert(lower_code(m.last()) == 's' as u32);
    lemma_mime_of_padded(w1, m, w2, params);
}

/// Law: with a URL path that does not end in `.pls` (in any ASCII case), a
/// response is a playlist exactly when its MIME type (before any `;`, without
/// the whitespace around it) is `audio/x-scpls` or `audio/scpls`, in any
/// ASCII case; any other type, such as an audio format, is no playlist.
pub proof fn law_pls_content_type_decides(
    p: Seq<char>,
    w1: Seq<char>,
    m: Seq<char>,
    w2: Seq<char>,
    params: Seq<char>,
)
    requires
        !(p.len() >= 4 && p[p.len() - 4] == '.' && (p[p.len() - 3] == 'p' || p[p.len() - 3]
            == 'P') && (p[p.len() - 2] == 'l' || p[p.len() - 2] == 'L') && (p[p.len() - 1] == 's'
            || p[p.len() - 1] == 'S')),
        forall|i: int| 0 <= i < w1.len() ==> is_ws(#[trigger] w1[i]),
        forall|i: int| 0 <= i < w2.len() ==> is_ws(#[trigger] w2[i]),
        m.len() > 0,
        !is_ws(m[0]),
        !is_ws(m.last()),
        forall|i: int| 0 <= i < m.len() ==> #[trigger] m[i] != ';',
        params.len() == 0 || params[0] == ';',
    ensures
        is_pls_response(p, Some(w1 + m + w2 + params)) == (lower_eq(
            m,
            seq!['a', 'u', 'd', 'i', 'o', '/', 'x', '-', 's', 'c', 'p', 'l', 's'],
        ) || lower_eq(m, seq!['a', 'u', 'd', 'i', 'o', '/', 's', 'c', 'p', 'l', 's'])),
{
    assert(seq!['a', 'u', 'd', 'i', 'o', '/', 'x', '-', 's', 'c', 'p', 'l', 's'] =~= mime_x_scpls());
    assert(seq!['a', 'u', 'd', 'i', 'o', '/', 's', 'c', 'p', 'l', 's'] =~= mime_scpls());
    law_pls_path_decides(p, None);
    lemma_mime_of_padded(w1, m, w2, params);
}

/// A line without the `\r` of a `\r\n` line ending.
pub open spec fn strip_cr(line: Seq<char>) -> Seq<char> {
    if line.len() > 0 && line.last() == '\r' {
        line.drop_last()
    } else {
        line
    }
}

/// The lines of a text as `str::lines` splits it: at each `\n`, with the `\r`
/// of a `\r\n` ending removed; a final line ending adds no empty line.
pub open spec fn lines(t: Seq<char>) -> Seq<Seq<char>>
    decreases t.len(),
{
    if t.len() == 0 {
        Seq::empty()
    } else {
        match find(t, seq!['\n']) {
            None => seq![t],
            Some(i) => {
                proof {
                    lemma_find(t, seq!['\n']);
                }
                seq![strip_cr(t.take(i))] + lines(t.skip(i + 1))
            },
        }
    }
}

/// Whether four key bytes spell `file`, ignoring ASCII case.
pub open spec fn is_file_prefix(b: Seq<u8>) -> bool {
    &&& b.len() == 4
    &&& lower_byte(b[0]) == 102
    &&& lower_byte(b[1]) == 105
    &&& lower_byte(b[2]) == 108
    &&& lower_byte(b[3]) == 101
}

/// The UTF-8 bytes of a line's key: what precedes its first `=`, trimmed.
pub open spec fn key_bytes(line: Seq<char>, eq: int) -> Seq<u8> {
    encode_utf8(trim(line.take(eq)))
}

/// The `(N, url)` of a line `FileN=url`: the key, trimmed, is `file` in any
/// ASCII case followed by a `u32` as `str::parse` reads it, and the value,
/// trimmed, is not empty. Other lines give nothing.
pub open spec fn pls_entry(line: Seq<char>) -> Option<(nat, Seq<char>)> {
    match find(line, seq!['=']) {
        None => None,
        Some(i) => {
            let key = key_bytes(line, i);
            let value = trim(line.skip(i + 1));
            if key.len() <= 4 || !is_file_prefix(key.take(4)) || value.len() == 0 {
                None
            } else {
                match parse_unsigned(key.skip(4), u32::MAX as nat) {
                    Some(n) => Some((n, value)),
                    None => None,
                }
            }
        },
    }
}

/// The entries of a sequence of lines, in line order.
pub open spec fn pls_entries(ls: Seq<Seq<char>>) -> Seq<(nat, Seq<char>)>
    decreases ls.len(),
{
    if ls.len() == 0 {
        Seq::empty()
    } else {
        let before = pls_entries(ls.drop_last());
        match pls_entry(ls.last()) {
            Some(e) => before.push(e),
            None => before,
        }
    }
}

/// Where an entry with index `key` goes in `s`: after every entry at the end
/// of `s` whose index exceeds `key` has been passed over from the back.
pub open spec fn insert_pos(s: Seq<(nat, Seq<char>)>, key: nat) -> int
    decreases s.len(),
{
    if s.len() == 0 {
        0
    } else if s.last().0 > key {
        insert_pos(s.drop_last(), key)
    } else {
        s.len() as int
    }
}

/// The entries stably sorted by index: entries with equal indices keep their order.
pub open spec fn sort_by_index(s: Seq<(nat, Seq<char>)>) -> Seq<(nat, Seq<char>)>
    decreases s.len(),
{
    if s.len() == 0 {
        s
    } else {
        let t = sort_by_index(s.drop_last());
        t.insert(insert_pos(t, s.last().0), s.last())
    }
}

/// The URLs of a PLS text, ordered by their `FileN` index.
pub open spec fn pls_urls(text: Seq<char>) -> Seq<Seq<char>> {
    sort_by_index(pls_entries(lines(text))).map_values(|e: (nat, Seq<char>)| e.1)
}

pub open spec fn entries_view(s: Seq<(u32, String)>) -> Seq<(nat, Seq<char>)> {
    s.map_values(|e: (u32, String)| (e.0 as nat, e.1@))
}

pub open spec fn entry_view(o: Option<(u32, String)>) -> Option<(nat, Seq<char>)> {
    match o {
        Some(e) => Some((e.0 as nat, e.1@)),
        None => None,
    }
}

proof fn lemma_insert_pos_range(s: Seq<(nat, Seq<char>)>, key: nat)
    ensures
        0 <= insert_pos(s, key) <= s.len(),
    decreases s.len(),
{
    if s.len() > 0 && s.last().0 > key {
        lemma_insert_pos_range(s.drop_last(), key);
    }
}

/// Entries in nondecreasing index order.
pub open spec fn sorted_by_index(s: Seq<(nat, Seq<char>)>) -> bool {
    forall|i: int, j: int| 0 <= i < j < s.len() ==> s[i].0 <= s[j].0
}

proof fn lemma_insert_pos_sorted(t: Seq<(nat, Seq<char>)>, k: nat)
    requires
        sorted_by_index(t),
    ensures
        0 <= insert_pos(t, k) <= t.len(),
        forall|i: int| 0 <= i < insert_pos(t, k) ==> t[i].0 <= k,
        forall|i: int| insert_pos(t, k) <= i < t.len() ==> t[i].0 > k,
    decreases t.len(),
{
    if t.len() > 0 {
        if t.last().0 > k {
            let d = t.drop_last();
            assert(sorted_by_index(d)) by {
                assert forall|i: int, j: int| 0 <= i < j < d.len() implies d[i].0 <= d[j].0 by {
                    assert(d[i] == t[i] && d[j] == t[j]);
                }
            }
            lemma_insert_pos_sorted(d, k);
            assert(insert_pos(t, k) == insert_pos(d, k));
            assert forall|i: int| 0 <= i < insert_pos(t, k) implies t[i].0 <= k by {
                assert(d[i] == t[i]);
            }
            assert forall|i: int| insert_pos(t, k) <= i < t.len() implies t[i].0 > k by {
                if i < d.len() {
                    assert(d[i] == t[i]);
                }
            }
        } else {
            assert forall|i: int| 0 <= i < t.len() implies t[i].0 <= k by {
                if i < t.len() - 1 {
                    assert(t[i].0 <= t[t.len() - 1].0);
                }
            }
        }
    }
}

/// Law: the entries come out in nondecreasing index order.
pub proof fn law_pls_sorted(s: Seq<(nat, Seq<char>)>)
    ensures
        sorted_by_index(sort_by_index(s)),
    decreases s.len(),
{
    if s.len() > 0 {
        let t = sort_by_index(s.drop_last());
        law_pls_sorted(s.drop_last());
        let e = s.last();
        lemma_insert_pos_sorted(t, e.0);
        let p = insert_pos(t, e.0);
        let u = t.insert(p, e);
        assert forall|i: int, j: int| 0 <= i < j < u.len() implies u[i].0 <= u[j].0 by {
            if j < p {
            } else if j == p {
            } else if i < p {
                assert(u[j] == t[j - 1]);
            } else if i == p {
                assert(u[j] == t[j - 1]);
            } else {
                assert(u[i] == t[i - 1] && u[j] == t[j - 1]);
            }
        }
    }
}

/// Law: sorting keeps every entry, each as often as it occurs.
pub proof fn law_pls_permutation(s: Seq<(nat, Seq<char>)>)
    ensures
        sort_by_index(s).to_multiset() == s.to_multiset(),
    decreases s.len(),
{
    broadcast use vstd::seq_lib::group_to_multiset_ensures;

    if s.len() > 0 {
        let t = sort_by_index(s.drop_last());
        law_pls_permutation(s.drop_last());
        let e = s.last();
        lemma_insert_pos_range(t, e.0);
        let p = insert_pos(t, e.0);
        let u = t.insert(p, e);
        assert(u.remove(p) =~= t);
        assert(u[p] == e);
        assert(u.to_multiset().count(e) > 0);
        assert(u.to_multiset() =~= t.to_multiset().insert(e));
        assert(s =~= s.drop_last().push(e));
    }
}

/// Law: every URL that `parse_pls` yields is non-empty: a `FileN=` line with
/// nothing after the `=` is skipped.
pub proof fn law_pls_urls_nonempty(text: Seq<char>)
    ensures
        forall|i: int| 0 <= i < pls_urls(text).len() ==> #[trigger] pls_urls(text)[i].len() > 0,
{
    let es = pls_entries(lines(text));
    lemma_entries_nonempty(lines(text));
    law_pls_permutation(es);
    broadcast use vstd::seq_lib::group_to_multiset_ensures;

    let sorted = sort_by_index(es);
    assert forall|i: int| 0 <= i < pls_urls(text).len() implies #[trigger] pls_urls(
        text,
    )[i].len() > 0 by {
        assert(sorted.to_multiset().count(sorted[i]) > 0);
        assert(es.contains(sorted[i]));
    }
}

proof fn lemma_entries_nonempty(ls: Seq<Seq<char>>)
    ensures
        forall|i: int| 0 <= i < pls_entries(ls).len() ==> #[trigger] pls_entries(ls)[i].1.len() > 0,
    decreases ls.len(),
{
    if ls.len() > 0 {
        let before = pls_entries(ls.drop_last());
        lemma_entries_nonempty(ls.drop_last());
        match pls_entry(ls.last()) {
            Some(e) => {
                let line = ls.last();
                let i = find(line, seq!['='])->0;
                assert(e.1 == trim(line.skip(i + 1)));
                assert forall|j: int| 0 <= j < before.push(e).len() implies #[trigger] before.push(
                    e,
                )[j].1.len() > 0 by {
                    if j < before.len() {
                        assert(before.push(e)[j] == before[j]);
                    }
                }
            },
            None => {},
        }
    }
}

fn is_file_bytes(b: &[u8]) -> (r: bool)
    ensures
        r == is_file_prefix(b@),
{
    if b.len() != 4 {
        return false;
    }
    lower_ascii(b[0]) == 102 && lower_ascii(b[1]) == 105 && lower_ascii(b[2]) == 108
        && lower_ascii(b[3]) == 101
}

fn lower_ascii(b: u8) -> (r: u8)
    ensures
        r == lower_byte(b),
{
    if 65 <= b && b <= 90 {
        b + 32
    } else {
        b
    }
}

/// The entry of the line made of the characters `a..b` of `text`.
fn line_entry(text: &str, v: &Vec<char>, a: usize, b: usize) -> (r: Option<(u32, String)>)
    requires
        v@ == text@,
        a <= b <= v.len(),
    ensures
        entry_view(r) == pls_entry(v@.subrange(a as int, b as int)),
{
    let ghost line = v@.subrange(a as int, b as int);
    let eq: Vec<char> = vec!['='];
    assert(eq@ =~= seq!['=']);
    match find_in(v, a, b, &eq) {
        None => None,
        Some(i) => {
            assert(line.take(i - a) =~= v@.subrange(a as int, i as int));
            assert(line.skip(i - a + 1) =~= v@.subrange(i + 1, b as int));
            let (ka, kb) = strip_range(v, a, i, Strip::Whitespace);
            let (va, vb) = strip_range(v, i + 1, b, Strip::Whitespace);
            let key = text.substring_char(ka, kb);
            assert(key@ == trim(line.take(i - a)));
            assert(key.spec_bytes() == key_bytes(line, i - a));
            let kb = key.as_bytes();
            if kb.len() <= 4 {
                return None;
            }
            // Only the first four bytes are compared; where they spell `file`
            // they are ASCII, so the digits start on a character boundary.
            let hb = slice_subrange(kb, 0, 4);
            assert(hb@ =~= key_bytes(line, i - a).take(4));
            if !is_file_bytes(hb) {
                return None;
            }
            if va == vb {
                return None;
            }
            let tb = slice_subrange(kb, 4, kb.len());
            assert(tb@ =~= key_bytes(line, i - a).skip(4));
            match parse_decimal(tb, 0xffff_ffff) {
                None => None,
                Some(n) => {
                    let url = String::from_str(text.substring_char(va, vb));
                    Some((n as u32, url))
                },
            }
        },
    }
}

/// Inserts `e` into `sorted` where `sort_by_index` puts it.
fn insert_entry(sorted: &mut Vec<(u32, String)>, e: (u32, String))
    ensures
        entries_view(final(sorted)@) == entries_view(old(sorted)@).insert(
            insert_pos(entries_view(old(sorted)@), e.0 as nat),
            (e.0 as nat, e.1@),
        ),
{
    let ghost s = entries_view(sorted@);
    let key = e.0;
    let mut j = sorted.len();
    assert(s.take(j as int) =~= s);
    while j > 0 && sorted[j - 1].0 > key
        invariant
            j <= sorted.len(),
            s == entries_view(sorted@),
            insert_pos(s, key as nat) == insert_pos(s.take(j as int), key as nat),
        decreases j,
    {
        assert(s.take(j as int).drop_last() =~= s.take(j - 1));
        j -= 1;
    }
    assert(insert_pos(s.take(j as int), key as nat) == j);
    let ghost pos = j as int;
    sorted.insert(j, e);
    assert(entries_view(sorted@) =~= s.insert(pos, (e.0 as nat, e.1@)));
}

/// Extract the `FileN` entries from PLS text, ordered by their index.
/// Unknown keys and malformed lines are ignored, matching the lenient way
/// players have always treated the format.
pub fn parse_pls(text: &str) -> (r: Vec<String>)
    ensures
        r@.map_values(|s: String| s@) == pls_urls(text@),
{
    let v = chars_of(text);
    let nlv: Vec<char> = vec!['\n'];
    assert(nlv@ =~= seq!['\n']);
    let mut sorted: Vec<(u32, String)> = Vec::new();
    let mut pos: usize = 0;
    let ghost mut seen: Seq<Seq<char>> = Seq::empty();
    assert(v@.skip(0) =~= v@);
    assert(Seq::<Seq<char>>::empty() + lines(v@) =~= lines(v@));
    while pos < v.len()
        invariant
            pos <= v.len(),
            v@ == text@,
            nlv@ == seq!['\n'],
            lines(text@) == seen + lines(v@.skip(pos as int)),
            entries_view(sorted@) == sort_by_index(pls_entries(seen)),
        decreases v.len() - pos,
    {
        let ghost t = v@.skip(pos as int);
        assert(t =~= v@.subrange(pos as int, v@.len() as int));
        let found = find_in(&v, pos, v.len(), &nlv);
        let (mut b, next) = match found {
            Some(j) => (j, j + 1),
            None => (v.len(), v.len()),
        };
        let ghost line: Seq<char>;
        let ghost rest: Seq<Seq<char>>;
        if found.is_some() {
            assert(t.take(b - pos) =~= v@.subrange(pos as int, b as int));
            assert(t.skip(b - pos + 1) =~= v@.skip(next as int));
            if b > pos && v[b - 1] == '\r' {
                assert(v@.subrange(pos as int, b as int).drop_last() =~= v@.subrange(
                    pos as int,
                    b - 1,
                ));
                b = b - 1;
            }
            proof {
                line = v@.subrange(pos as int, b as int);
                rest = lines(v@.skip(next as int));
            }
        } else {
            assert(v@.skip(next as int) =~= Seq::<char>::empty());
            proof {
                line = v@.subrange(pos as int, b as int);
                rest = Seq::empty();
            }
        }
        assert(lines(t) == seq![line] + rest);
        assert(seen + (seq![line] + rest) =~= seen.push(line) + rest);
        let entry = line_entry(text, &v, pos, b);
        assert(seen.push(line).drop_last() =~= seen);
        match entry {
            Some(e) => {
                let ghost ev = (e.0 as nat, e.1@);
                assert(pls_entries(seen).push(ev).drop_last() =~= pls_entries(seen));
                insert_entry(&mut sorted, e);
            },
            None => {},
        }
        proof {
            seen = seen.push(line);
        }
        pos = next;
    }
    assert(v@.skip(pos as int) =~= Seq::<char>::empty());
    assert(seen + Seq::<Seq<char>>::empty() =~= seen);
    let mut out: Vec<String> = Vec::new();
    let n = sorted.len();
    for i in 0..n
        invariant
            n == sorted.len(),
            out@.len() == i,
            forall|k: int| 0 <= k < i ==> (#[trigger] out@[k])@ == sorted@[k].1@,
    {
        out.push(sorted[i].1.clone());
    }
    assert(out@.map_values(|s: String| s@) =~= entries_view(sorted@).map_values(
        |e: (nat, Seq<char>)| e.1,
    ));
    out
}

} // verus!
