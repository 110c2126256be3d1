//! Small helpers.

use vstd::prelude::*;

use crate::playlist::opt_str;
use crate::text::{
    chars_of, find, find_in, lemma_find_first, lemma_find_none, lemma_strip_both_idempotent, matches_at, strip_range, trim, Strip,
};

verus! {

/// The characters of ` - `, which separate artist and title.
pub open spec fn artist_separator() -> Seq<char> {
    seq![' ', '-', ' ']
}

/// `(artist, title)` of an ICY `StreamTitle` of the form `Artist - Title`:
/// split at the first ` - ` where both sides, trimmed, are non-empty;
/// otherwise no artist, and the whole string, trimmed, as the title.
pub open spec fn artist_title(s: Seq<char>) -> (Option<Seq<char>>, Seq<char>) {
    match find(s, artist_separator()) {
        Some(i) => {
            let artist = trim(s.take(i));
            let title = trim(s.skip(i + 3));
            if artist.len() > 0 && title.len() > 0 {
                (Some(artist), title)
            } else {
                (None, trim(s))
            }
        },
        None => (None, trim(s)),
    }
}

/// In `a + " - " + b`, where `a + " -"` holds no ` - `, the first separator
/// is the joining one.
proof fn lemma_joined_at_first_separator(a: Seq<char>, b: Seq<char>)
    requires
        forall|j: int| !matches_at(a + seq![' ', '-'], seq![' ', '-', ' '], j),
    ensures
        find(a + artist_separator() + b, artist_separator()) == Some(a.len() as int),
        (a + artist_separator() + b).take(a.len() as int) == a,
        (a + artist_separator() + b).skip(a.len() + 3int) == b,
{
    let sep = seq![' ', '-', ' '];
    assert(sep =~= artist_separator());
    let s = a + sep + b;
    let a2 = a + seq![' ', '-'];
    assert forall|j: int| 0 <= j < a.len() implies !matches_at(s, sep, j) by {
        assert(!matches_at(a2, sep, j));
        assert(s.subrange(j, j + 3) =~= a2.subrange(j, j + 3));
    }
    assert(s.subrange(a.len() as int, a.len() + 3int) =~= sep);
    lemma_find_first(s, sep, a.len() as int);
    assert(s.take(a.len() as int) =~= a);
    assert(s.skip(a.len() + 3int) =~= b);
}

/// Law: an artist `a` and a title `b`, both non-blank and without whitespace
/// at their ends, joined by ` - `, split back into `(a, b)`, provided the
/// first ` - ` of the string is the joining one (`a` has none, and does not
/// end in ` -`). A hyphen without spaces around it never splits.
pub proof fn law_split_at_spaced_hyphen(a: Seq<char>, b: Seq<char>)
    requires
        a.len() > 0,
        b.len() > 0,
        trim(a) == a,
        trim(b) == b,
        forall|j: int| !matches_at(a + seq![' ', '-'], seq![' ', '-', ' '], j),
    ensures
        artist_title(a + seq![' ', '-', ' '] + b) == (Some(a), b),
{
    law_split_trims_padding(a, b);
}

/// Law: whitespace around the artist or the title is trimmed away: joined by
/// ` - `, with nothing but whitespace around them, a non-blank artist `a` and
/// title `b` split back into `(a, b)`, provided the first ` - ` of the
/// string is the joining one.
pub proof fn law_split_trims_padding(a: Seq<char>, b: Seq<char>)
    requires
        trim(a).len() > 0,
        trim(b).len() > 0,
        forall|j: int| !matches_at(a + seq![' ', '-'], seq![' ', '-', ' '], j),
    ensures
        artist_title(a + seq![' ', '-', ' '] + b) == (Some(trim(a)), trim(b)),
{
    lemma_joined_at_first_separator(a, b);
}

/// Law: where the side before or after the first ` - ` is blank, there is no
/// artist, and the whole string, trimmed, is the title.
pub proof fn law_blank_side_no_artist(a: Seq<char>, b: Seq<char>)
    requires
        trim(a).len() == 0 || trim(b).len() == 0,
        forall|j: int| !matches_at(a + seq![' ', '-'], seq![' ', '-', ' '], j),
    ensures
        artist_title(a + seq![' ', '-', ' '] + b) == (None::<Seq<char>>, trim(
            a + seq![' ', '-', ' '] + b,
        )),
{
    lemma_joined_at_first_separator(a, b);
}

/// Law: a string without ` - ` has no artist; the whole string, trimmed, is
/// the title.
pub proof fn law_no_separator_no_artist(s: Seq<char>)
    requires
        forall|j: int| !matches_at(s, seq![' ', '-', ' '], j),
    ensures
        artist_title(s) == (None::<Seq<char>>, trim(s)),
{
    assert(seq![' ', '-', ' '] =~= artist_separator());
    lemma_find_none(s, artist_separator());
}

/// Law: both parts come out trimmed, an artist only together with a title,
/// neither of them blank; without an artist the title is the whole string,
/// trimmed.
pub proof fn law_split_parts_trimmed(s: Seq<char>)
    ensures
        trim(artist_title(s).1) == artist_title(s).1,
        artist_title(s).0 matches Some(a) ==> a.len() > 0 && trim(a) == a && artist_title(s).1.len()
            > 0,
        artist_title(s).0 is None ==> artist_title(s).1 == trim(s),
{
    lemma_strip_both_idempotent(s, Strip::Whitespace);
    if let Some(i) = find(s, artist_separator()) {
        lemma_strip_both_idempotent(s.take(i), Strip::Whitespace);
        lemma_strip_both_idempotent(s.skip(i + 3), Strip::Whitespace);
    }
}

/// Split an ICY `StreamTitle` of the form `Artist - Title` into its parts.
///
/// Returns `(artist, title)`. If there is no ` - ` separator the whole string
/// is treated as the title and the artist is `None`.
pub fn split_artist_title<'a>(s: &'a str) -> (r: (Option<&'a str>, &'a str))
    ensures
        (opt_str(r.0), r.1@) == artist_title(s@),
{
    let v = chars_of(s);
    let sep: Vec<char> = vec![' ', '-', ' '];
    assert(sep@ =~= artist_separator());
    assert(v@.subrange(0, v@.len() as int) =~= v@);
    let (wa, wb) = strip_range(&v, 0, v.len(), Strip::Whitespace);
    match find_in(&v, 0, v.len(), &sep) {
        Some(i) => {
            assert(v@.take(i as int) =~= v@.subrange(0, i as int));
            assert(v@.skip(i + 3) =~= v@.subrange(i + 3, v@.len() as int));
            let (aa, ab) = strip_range(&v, 0, i, Strip::Whitespace);
            let (ta, tb) = strip_range(&v, i + 3, v.len(), Strip::Whitespace);
            if aa < ab && ta < tb {
                (Some(s.substring_char(aa, ab)), s.substring_char(ta, tb))
            } else {
                (None, s.substring_char(wa, wb))
            }
        },
        None => (None, s.substring_char(wa, wb)),
    }
}

} // verus!
