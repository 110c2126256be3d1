//! ICY (SHOUTcast/Icecast) metadata de-multiplexing.
//!
//! Internet radio streams that advertise `icy-metaint: N` interleave a metadata
//! block after every `N` bytes of audio: one length byte `L`, then `16 * L`
//! bytes of text such as `StreamTitle='Artist - Song';`. [`IcyReader`] takes
//! the raw stream in chunks of any size, hands back only the audio bytes, and
//! reports every change of the `StreamTitle`.

use vstd::prelude::*;

use crate::text::{
    lemma_find_first, lemma_find_none, matches_at, chars_of, find, find_in, lossy_text, strip_both, strip_range, trim, utf8_lossy, Strip,
};

verus! {

/// A `String` option as an option of character sequences.
pub open spec fn opt_chars(o: Option<String>) -> Option<Seq<char>> {
    match o {
        Some(s) => Some(s@),
        None => None,
    }
}

/// The characters of `StreamTitle='`.
pub open spec fn title_key() -> Seq<char> {
    seq!['S', 't', 'r', 'e', 'a', 'm', 'T', 'i', 't', 'l', 'e', '=', '\'']
}

/// The characters of `';`, which close a metadata value.
pub open spec fn value_end() -> Seq<char> {
    seq!['\'', ';']
}

/// The value of `StreamTitle='...'` in metadata text: the value runs from the
/// key to the first `';` after it (or to the end of the text), and is trimmed
/// of whitespace, then of NULs.
pub open spec fn title_in_text(text: Seq<char>) -> Option<Seq<char>> {
    match find(text, title_key()) {
        None => None,
        Some(i) => {
            let rest = text.skip(i + title_key().len());
            let end = match find(rest, value_end()) {
                Some(j) => j,
                None => rest.len() as int,
            };
            Some(strip_both(trim(rest.take(end)), Strip::Nul))
        },
    }
}

/// The value of `StreamTitle='...'` in a raw metadata block, read as (lossy)
/// UTF-8 text.
pub open spec fn stream_title(block: Seq<u8>) -> Option<Seq<char>> {
    title_in_text(utf8_lossy(block))
}

/// Extract the value of `StreamTitle='...'` from a raw ICY metadata block.
pub fn parse_stream_title(block: &[u8]) -> (r: Option<String>)
    ensures
        opt_chars(r) == stream_title(block@),
{
    let text = lossy_text(block);
    title_from_text(text.as_str())
}

/// Extract the value of `StreamTitle='...'` from metadata text.
pub fn title_from_text(text: &str) -> (r: Option<String>)
    ensures
        opt_chars(r) == title_in_text(text@),
{
    let v = chars_of(text);
    let key: Vec<char> = vec!['S', 't', 'r', 'e', 'a', 'm', 'T', 'i', 't', 'l', 'e', '=', '\''];
    let close: Vec<char> = vec!['\'', ';'];
    assert(key@ =~= title_key());
    assert(close@ =~= value_end());
    assert(v@.subrange(0, v@.len() as int) =~= v@);
    match find_in(&v, 0, v.len(), &key) {
        None => None,
        Some(i) => {
            let start = i + key.len();
            let ghost rest = v@.skip(start as int);
            assert(rest =~= v@.subrange(start as int, v@.len() as int));
            let end = match find_in(&v, start, v.len(), &close) {
                Some(j) => j,
                None => v.len(),
            };
            assert(rest.take(end - start) =~= v@.subrange(start as int, end as int));
            let (a, b) = strip_range(&v, start, end, Strip::Whitespace);
            let (c, d) = strip_range(&v, a, b, Strip::Nul);
            Some(String::from_str(text.substring_char(c, d)))
        },
    }
}

/// Where `pre` holds no `StreamTitle='`, the first one in `pre + key + rest`
/// is the one after `pre`, and what follows it is `rest`.
proof fn lemma_key_after(pre: Seq<char>, rest: Seq<char>)
    requires
        forall|j: int| 0 <= j < pre.len() ==> !matches_at(pre + title_key(), title_key(), j),
    ensures
        find(pre + title_key() + rest, title_key()) == Some(pre.len() as int),
        (pre + title_key() + rest).skip(pre.len() + title_key().len() as int) == rest,
{
    let k = title_key();
    let text = pre + k + rest;
    let pk = pre + k;
    assert forall|j: int| 0 <= j < pre.len() implies !matches_at(text, k, j) by {
        assert(!matches_at(pk, k, j));
        assert(text.subrange(j, j + 13) =~= pk.subrange(j, j + 13));
    }
    assert(text.subrange(pre.len() as int, pre.len() + 13int) =~= k);
    lemma_find_first(text, k, pre.len() as int);
    assert(text.skip(pre.len() + 13int) =~= rest);
}

/// Law: the title is the text between the first `StreamTitle='` and the first
/// `';` after it (trimmed of whitespace, then of NULs), whatever stands before
/// the key and after the `';`; an apostrophe not followed by `;` belongs to
/// the title.
pub proof fn law_title_up_to_closing_quote(pre: Seq<char>, s: Seq<char>, t: Seq<char>)
    requires
        forall|j: int|
            0 <= j < pre.len() ==> !matches_at(
                pre + seq!['S', 't', 'r', 'e', 'a', 'm', 'T', 'i', 't', 'l', 'e', '=', '\''],
                seq!['S', 't', 'r', 'e', 'a', 'm', 'T', 'i', 't', 'l', 'e', '=', '\''],
                j,
            ),
        forall|j: int| !matches_at(s, seq!['\'', ';'], j),
    ensures
        title_in_text(
            pre + seq!['S', 't', 'r', 'e', 'a', 'm', 'T', 'i', 't', 'l', 'e', '=', '\''] + (s
                + seq!['\'', ';'] + t),
        ) == Some(strip_both(trim(s), Strip::Nul)),
{
    let e = seq!['\'', ';'];
    assert(seq!['S', 't', 'r', 'e', 'a', 'm', 'T', 'i', 't', 'l', 'e', '=', '\''] =~= title_key());
    assert(e =~= value_end());
    let rest = s + e + t;
    lemma_key_after(pre, rest);
    assert forall|j: int| 0 <= j < s.len() implies !matches_at(rest, e, j) by {
        if j + 2 <= s.len() {
            assert(!matches_at(s, e, j));
            assert(rest.subrange(j, j + 2) =~= s.subrange(j, j + 2));
        } else {
            assert(rest[j + 1] == '\'');
            if matches_at(rest, e, j) {
                assert(rest.subrange(j, j + 2)[1] == rest[j + 1]);
                assert(rest.subrange(j, j + 2)[1] == e[1]);
                assert(e[1] == ';');
            }
        }
    }
    assert(rest.subrange(s.len() as int, s.len() + 2int) =~= e);
    lemma_find_first(rest, e, s.len() as int);
    assert(rest.take(s.len() as int) =~= s);
}

/// Law: a title whose closing `';` never comes runs to the end of the text.
pub proof fn law_title_unclosed_runs_to_end(pre: Seq<char>, s: Seq<char>)
    requires
        forall|j: int|
            0 <= j < pre.len() ==> !matches_at(
                pre + seq!['S', 't', 'r', 'e', 'a', 'm', 'T', 'i', 't', 'l', 'e', '=', '\''],
                seq!['S', 't', 'r', 'e', 'a', 'm', 'T', 'i', 't', 'l', 'e', '=', '\''],
                j,
            ),
        forall|j: int| !matches_at(s, seq!['\'', ';'], j),
    ensures
        title_in_text(
            pre + seq!['S', 't', 'r', 'e', 'a', 'm', 'T', 'i', 't', 'l', 'e', '=', '\''] + s,
        ) == Some(strip_both(trim(s), Strip::Nul)),
{
    assert(seq!['S', 't', 'r', 'e', 'a', 'm', 'T', 'i', 't', 'l', 'e', '=', '\''] =~= title_key());
    assert(seq!['\'', ';'] =~= value_end());
    lemma_key_after(pre, s);
    lemma_find_none(s, value_end());
    assert(s.take(s.len() as int) =~= s);
}

/// Law: metadata text without `StreamTitle='` has no title.
pub proof fn law_no_title_without_key(text: Seq<char>)
    requires
        forall|j: int|
            !matches_at(
                text,
                seq!['S', 't', 'r', 'e', 'a', 'm', 'T', 'i', 't', 'l', 'e', '=', '\''],
                j,
            ),
    ensures
        title_in_text(text) is None,
{
    assert(seq!['S', 't', 'r', 'e', 'a', 'm', 'T', 'i', 't', 'l', 'e', '=', '\''] =~= title_key());
    lemma_find_none(text, title_key());
}

/// Where the parse of a stream prefix stands.
pub enum IcyPhase {
    /// Inside an audio run, with `left` audio bytes to go before the next block.
    Audio { left: nat },
    /// Waiting for the length byte of the next metadata block.
    Length,
    /// Inside a metadata block of `len` bytes, of which `got` have arrived.
    Meta { len: nat, got: Seq<u8> },
}

/// The bytes of a stream prefix's first metadata section, after its `m` audio
/// bytes: the length byte and `16 *` that many bytes of text.
pub open spec fn frame_len(m: nat, s: Seq<u8>) -> nat
    recommends
        s.len() > m,
{
    m + 1 + (s[m as int] as nat) * 16
}

/// The audio bytes of the stream prefix `s` with metadata interval `m`: the
/// stream with every metadata section (length byte and block) removed.
pub open spec fn icy_audio(m: nat, s: Seq<u8>) -> Seq<u8>
    decreases s.len(),
{
    if m == 0 || s.len() <= m {
        s
    } else if s.len() < frame_len(m, s) {
        s.take(m as int)
    } else {
        s.take(m as int) + icy_audio(m, s.skip(frame_len(m, s) as int))
    }
}

/// The complete, non-empty metadata blocks of the stream prefix `s`, in order.
pub open spec fn icy_blocks(m: nat, s: Seq<u8>) -> Seq<Seq<u8>>
    decreases s.len(),
{
    if m == 0 || s.len() <= m || s.len() < frame_len(m, s) {
        Seq::empty()
    } else {
        let f = frame_len(m, s);
        let rest = icy_blocks(m, s.skip(f as int));
        if f > m + 1 {
            seq![s.subrange(m + 1int, f as int)] + rest
        } else {
            rest
        }
    }
}

/// Where the parse stands after the stream prefix `s`.
pub open spec fn icy_phase(m: nat, s: Seq<u8>) -> IcyPhase
    decreases s.len(),
{
    if s.len() < m {
        IcyPhase::Audio { left: (m - s.len()) as nat }
    } else if s.len() == m {
        IcyPhase::Length
    } else if s.len() < frame_len(m, s) {
        IcyPhase::Meta {
            len: (frame_len(m, s) - m - 1) as nat,
            got: s.subrange(m + 1int, s.len() as int),
        }
    } else {
        icy_phase(m, s.skip(frame_len(m, s) as int))
    }
}

/// The callback's argument for a block, if the block changes the title: an
/// empty `StreamTitle` clears the title, and an unchanged title is not reported.
pub open spec fn title_change(last: Option<Seq<char>>, block: Seq<u8>) -> Option<
    Option<Seq<char>>,
> {
    match stream_title(block) {
        None => None,
        Some(t) => {
            let next = if t.len() == 0 {
                None
            } else {
                Some(t)
            };
            if next != last {
                Some(next)
            } else {
                None
            }
        },
    }
}

/// The current title after a sequence of metadata blocks.
pub open spec fn current_title(blocks: Seq<Seq<u8>>) -> Option<Seq<char>>
    decreases blocks.len(),
{
    if blocks.len() == 0 {
        None
    } else {
        let before = current_title(blocks.drop_last());
        match title_change(before, blocks.last()) {
            Some(next) => next,
            None => before,
        }
    }
}

/// Every title change that a sequence of metadata blocks reports, in order.
pub open spec fn title_events(blocks: Seq<Seq<u8>>) -> Seq<Option<Seq<char>>>
    decreases blocks.len(),
{
    if blocks.len() == 0 {
        Seq::empty()
    } else {
        let before = title_events(blocks.drop_last());
        match title_change(current_title(blocks.drop_last()), blocks.last()) {
            Some(next) => before.push(next),
            None => before,
        }
    }
}

/// The views of a list of reported titles.
pub open spec fn titles_view(v: Seq<Option<String>>) -> Seq<Option<Seq<char>>> {
    v.map_values(|o: Option<String>| opt_chars(o))
}

proof fn lemma_phase_shape(m: nat, s: Seq<u8>)
    requires
        m > 0,
    ensures
        match icy_phase(m, s) {
            IcyPhase::Audio { left } => 0 < left <= m,
            IcyPhase::Length => true,
            IcyPhase::Meta { len, got } => 0 < len <= 4080 && got.len() < len,
        },
    decreases s.len(),
{
    if s.len() > m && s.len() >= frame_len(m, s) {
        lemma_phase_shape(m, s.skip(frame_len(m, s) as int));
    }
}

/// How one more byte moves the parse.
proof fn lemma_push(m: nat, s: Seq<u8>, x: u8)
    requires
        m > 0,
    ensures
        match icy_phase(m, s) {
            IcyPhase::Audio { left } => {
                &&& icy_audio(m, s.push(x)) == icy_audio(m, s).push(x)
                &&& icy_blocks(m, s.push(x)) == icy_blocks(m, s)
                &&& icy_phase(m, s.push(x)) == if left == 1 {
                    IcyPhase::Length
                } else {
                    IcyPhase::Audio { left: (left - 1) as nat }
                }
            },
            IcyPhase::Length => {
                &&& icy_audio(m, s.push(x)) == icy_audio(m, s)
                &&& icy_blocks(m, s.push(x)) == icy_blocks(m, s)
                &&& icy_phase(m, s.push(x)) == if x == 0 {
                    IcyPhase::Audio { left: m }
                } else {
                    IcyPhase::Meta { len: (x as nat) * 16, got: Seq::empty() }
                }
            },
            IcyPhase::Meta { len, got } => {
                &&& icy_audio(m, s.push(x)) == icy_audio(m, s)
                &&& if got.len() + 1 == len {
                    &&& icy_blocks(m, s.push(x)) == icy_blocks(m, s).push(got.push(x))
                    &&& icy_phase(m, s.push(x)) == IcyPhase::Audio { left: m }
                } else {
                    &&& icy_blocks(m, s.push(x)) == icy_blocks(m, s)
                    &&& icy_phase(m, s.push(x)) == IcyPhase::Meta { len, got: got.push(x) }
                }
            },
        },
    decreases s.len(),
{
    let t = s.push(x);
    let e = Seq::<u8>::empty();
    assert(icy_audio(m, e) == e);
    assert(icy_blocks(m, e) == Seq::<Seq<u8>>::empty());
    assert(icy_phase(m, e) == IcyPhase::Audio { left: m });
    if s.len() < m {
    } else if s.len() == m {
        assert(t.take(m as int) =~= s);
        assert(t[m as int] == x);
        if x == 0 {
            assert(t.skip(frame_len(m, t) as int) =~= e);
            assert(s + e =~= s);
        } else {
            assert(t.subrange(m + 1int, t.len() as int) =~= e);
        }
    } else {
        assert(t[m as int] == s[m as int]);
        assert(t.take(m as int) =~= s.take(m as int));
        let f = frame_len(m, s);
        assert(frame_len(m, t) == f);
        if s.len() < f {
            assert(t.subrange(m + 1int, t.len() as int) =~= s.subrange(m + 1int, s.len() as int).push(x));
            if s.len() + 1 == f {
                assert(t.skip(f as int) =~= e);
                assert(t.take(m as int) + e =~= t.take(m as int));
                assert(t.subrange(m + 1int, f as int) =~= s.subrange(m + 1int, s.len() as int).push(x));
                assert(seq![t.subrange(m + 1int, f as int)] + Seq::<Seq<u8>>::empty() =~= seq![
                    t.subrange(m + 1int, f as int),
                ]);
                assert(Seq::<Seq<u8>>::empty().push(t.subrange(m + 1int, f as int)) =~= seq![
                    t.subrange(m + 1int, f as int),
                ]);
            }
        } else {
            let r = s.skip(f as int);
            assert(t.skip(f as int) =~= r.push(x));
            lemma_push(m, r, x);
            assert(t.subrange(m + 1int, f as int) =~= s.subrange(m + 1int, f as int));
            match icy_phase(m, r) {
                IcyPhase::Audio { left } => {
                    assert(s.take(m as int) + icy_audio(m, r).push(x) =~= (s.take(m as int)
                        + icy_audio(m, r)).push(x));
                },
                IcyPhase::Length => {},
                IcyPhase::Meta { len, got } => {
                    if got.len() + 1 == len {
                        if f > m + 1 {
                            assert(seq![s.subrange(m + 1int, f as int)] + icy_blocks(m, r).push(
                                got.push(x),
                            ) =~= (seq![s.subrange(m + 1int, f as int)] + icy_blocks(m, r)).push(
                                got.push(x),
                            ));
                        }
                    }
                },
            }
        }
    }
}

proof fn lemma_events_push(blocks: Seq<Seq<u8>>, b: Seq<u8>)
    ensures
        title_events(blocks.push(b)) == match title_change(current_title(blocks), b) {
            Some(next) => title_events(blocks).push(next),
            None => title_events(blocks),
        },
        current_title(blocks.push(b)) == match title_change(current_title(blocks), b) {
            Some(next) => next,
            None => current_title(blocks),
        },
{
    assert(blocks.push(b).drop_last() =~= blocks);
}

/// Law: a stream with metadata interval `m` that starts with `m` audio bytes
/// `a`, a length byte `n` and a block `b` of `16 * n` bytes yields `a`, then
/// what the rest `r` yields; the block is reported if it is not empty.
pub proof fn law_icy_frame(m: nat, a: Seq<u8>, n: u8, b: Seq<u8>, r: Seq<u8>)
    requires
        m > 0,
        a.len() == m,
        b.len() == (n as nat) * 16,
    ensures
        icy_audio(m, a + seq![n] + b + r) == a + icy_audio(m, r),
        icy_blocks(m, a + seq![n] + b + r) == if n > 0 {
            seq![b] + icy_blocks(m, r)
        } else {
            icy_blocks(m, r)
        },
{
    let s = a + seq![n] + b + r;
    assert(s[m as int] == n);
    let f = frame_len(m, s);
    assert(s.take(m as int) =~= a);
    assert(s.skip(f as int) =~= r);
    assert(s.subrange(m + 1int, f as int) =~= b);
}

/// Law: with no metadata interval the stream passes through unchanged.
pub proof fn law_icy_passthrough(s: Seq<u8>)
    ensures
        icy_audio(0, s) == s,
        icy_blocks(0, s) == Seq::<Seq<u8>>::empty(),
{
}

/// Law: what a stream prefix yields (audio, metadata blocks, title changes)
/// is a prefix of what any longer prefix yields. Nothing once handed out is
/// taken back, so splitting a stream into chunks of any size changes nothing.
pub proof fn law_icy_prefix(m: nat, s: Seq<u8>, t: Seq<u8>)
    ensures
        icy_audio(m, s).is_prefix_of(icy_audio(m, s + t)),
        icy_blocks(m, s).is_prefix_of(icy_blocks(m, s + t)),
        title_events(icy_blocks(m, s)).is_prefix_of(title_events(icy_blocks(m, s + t))),
    decreases t.len(),
{
    if t.len() == 0 {
        assert(s + t =~= s);
    } else {
        let u = t.drop_last();
        let x = t.last();
        law_icy_prefix(m, s, u);
        assert(s + t =~= (s + u).push(x));
        if m == 0 {
        } else {
            lemma_push(m, s + u, x);
            let bu = icy_blocks(m, s + u);
            let bt = icy_blocks(m, s + t);
            if bt.len() > bu.len() {
                lemma_events_push(bu, bt.last());
                assert(bu.push(bt.last()) =~= bt);
            } else {
                assert(bt == bu);
            }
        }
    }
}

/// The title that a sequence of reported changes leaves in place.
pub open spec fn last_reported(events: Seq<Option<Seq<char>>>) -> Option<Seq<char>> {
    if events.len() == 0 {
        None
    } else {
        events.last()
    }
}

proof fn lemma_current_is_last_reported(blocks: Seq<Seq<u8>>)
    ensures
        current_title(blocks) == last_reported(title_events(blocks)),
    decreases blocks.len(),
{
    if blocks.len() > 0 {
        lemma_current_is_last_reported(blocks.drop_last());
    }
}

/// Law: every reported title differs from the one before it (the first from
/// "no title"): an unchanged title, or a clear while nothing is shown, is
/// never reported.
pub proof fn law_icy_titles_change(blocks: Seq<Seq<u8>>)
    ensures
        forall|i: int|
            0 <= i < title_events(blocks).len() ==> #[trigger] title_events(blocks)[i]
                != last_reported(title_events(blocks).take(i)),
    decreases blocks.len(),
{
    if blocks.len() > 0 {
        let bs = blocks.drop_last();
        law_icy_titles_change(bs);
        lemma_current_is_last_reported(bs);
        let before = title_events(bs);
        let all = title_events(blocks);
        assert forall|i: int| 0 <= i < all.len() implies #[trigger] all[i] != last_reported(
            all.take(i),
        ) by {
            if i < before.len() {
                assert(all[i] == before[i]);
                assert(all.take(i) =~= before.take(i));
            } else {
                assert(all.take(i) =~= before);
            }
        }
    }
}

/// A stream made of whole frames (`m` audio bytes, a length byte `n`, a block
/// of `16 * n` bytes), then `tail`.
pub open spec fn frames_stream(frames: Seq<(Seq<u8>, u8, Seq<u8>)>, tail: Seq<u8>) -> Seq<u8>
    decreases frames.len(),
{
    if frames.len() == 0 {
        tail
    } else {
        let f = frames[0];
        f.0 + seq![f.1] + f.2 + frames_stream(frames.drop_first(), tail)
    }
}

/// The audio parts of such a stream, in order.
pub open spec fn frames_audio(frames: Seq<(Seq<u8>, u8, Seq<u8>)>, tail: Seq<u8>) -> Seq<u8>
    decreases frames.len(),
{
    if frames.len() == 0 {
        tail
    } else {
        frames[0].0 + frames_audio(frames.drop_first(), tail)
    }
}

/// The non-empty metadata blocks of such a stream, in order.
pub open spec fn frames_blocks(frames: Seq<(Seq<u8>, u8, Seq<u8>)>) -> Seq<Seq<u8>>
    decreases frames.len(),
{
    if frames.len() == 0 {
        Seq::empty()
    } else if frames[0].1 > 0 {
        seq![frames[0].2] + frames_blocks(frames.drop_first())
    } else {
        frames_blocks(frames.drop_first())
    }
}

/// Whether every frame has `m` audio bytes and a block of the length its
/// length byte gives.
pub open spec fn well_framed(m: nat, frames: Seq<(Seq<u8>, u8, Seq<u8>)>) -> bool {
    forall|i: int|
        0 <= i < frames.len() ==> (#[trigger] frames[i]).0.len() == m && frames[i].2.len() == (
        frames[i].1 as nat) * 16
}

/// Law: a whole stream of frames, ending in fewer than `m` (or exactly `m`)
/// audio bytes, yields exactly its audio parts in order, and reports exactly
/// its non-empty blocks: no length byte or metadata byte is ever yielded.
pub proof fn law_icy_stream(m: nat, frames: Seq<(Seq<u8>, u8, Seq<u8>)>, tail: Seq<u8>)
    requires
        m > 0,
        well_framed(m, frames),
        tail.len() <= m,
    ensures
        icy_audio(m, frames_stream(frames, tail)) == frames_audio(frames, tail),
        icy_blocks(m, frames_stream(frames, tail)) == frames_blocks(frames),
    decreases frames.len(),
{
    if frames.len() > 0 {
        let f = frames[0];
        let rest = frames.drop_first();
        assert(well_framed(m, rest)) by {
            assert forall|i: int| 0 <= i < rest.len() implies (#[trigger] rest[i]).0.len() == m
                && rest[i].2.len() == (rest[i].1 as nat) * 16 by {
                assert(rest[i] == frames[i + 1]);
            }
        }
        assert(f.0.len() == m && f.2.len() == (f.1 as nat) * 16);
        law_icy_stream(m, rest, tail);
        law_icy_frame(m, f.0, f.1, f.2, frames_stream(rest, tail));
    }
}

/// The audio, and the title changes, that one call of [`IcyReader::feed`] yields.
pub struct IcyChunk {
    /// The audio bytes, metadata removed.
    pub audio: Vec<u8>,
    /// Each change of the stream title, in order (`None` clears it).
    pub titles: Vec<Option<String>>,
}

/// Strips ICY metadata from a stream that arrives in chunks, and reports
/// track-title changes.
pub struct IcyReader {
    metaint: usize,
    remaining: usize,
    meta_len: usize,
    block: Vec<u8>,
    last_title: Option<String>,
    consumed: Ghost<Seq<u8>>,
}

impl IcyReader {
    /// The metadata interval: the number of audio bytes between two blocks (0: none).
    pub closed spec fn metaint(&self) -> nat {
        self.metaint as nat
    }

    /// Every byte of the stream fed so far.
    pub closed spec fn consumed(&self) -> Seq<u8> {
        self.consumed@
    }

    /// The reader's internal state matches the parse of what it has consumed.
    pub closed spec fn wf(&self) -> bool {
        let m = self.metaint as nat;
        &&& opt_chars(self.last_title) == current_title(icy_blocks(m, self.consumed@))
        &&& m > 0 ==> match icy_phase(m, self.consumed@) {
            IcyPhase::Audio { left } => self.remaining == left && self.meta_len == 0,
            IcyPhase::Length => self.remaining == 0 && self.meta_len == 0,
            IcyPhase::Meta { len, got } => {
                &&& self.remaining == 0
                &&& self.meta_len == len
                &&& self.block@ == got
            },
        }
    }

    /// A reader for a stream with metadata interval `metaint`. If `metaint` is 0
    /// the stream carries no metadata and bytes are passed through unchanged.
    pub fn new(metaint: usize) -> (r: Self)
        ensures
            r.wf(),
            r.metaint() == metaint,
            r.consumed() == Seq::<u8>::empty(),
    {
        let r = IcyReader {
            metaint,
            remaining: metaint,
            meta_len: 0,
            block: Vec::new(),
            last_title: None,
            consumed: Ghost(Seq::empty()),
        };
        assert(icy_blocks(metaint as nat, Seq::<u8>::empty()) == Seq::<Seq<u8>>::empty());
        r
    }

    /// The title that the last reported change set (`None`: no title).
    pub fn current(&self) -> (r: &Option<String>)
        requires
            self.wf(),
        ensures
            opt_chars(*r) == current_title(icy_blocks(self.metaint(), self.consumed())),
    {
        &self.last_title
    }

    /// Whether the stream fed so far stops inside a metadata section (waiting
    /// for a length byte or for block bytes): a stream that ends here is
    /// truncated.
    pub fn in_metadata(&self) -> (r: bool)
        requires
            self.wf(),
        ensures
            r == (self.metaint() > 0 && !(icy_phase(self.metaint(), self.consumed()) is Audio)),
    {
        proof {
            if self.metaint > 0 {
                lemma_phase_shape(self.metaint as nat, self.consumed@);
            }
        }
        self.metaint > 0 && (self.remaining == 0 || self.meta_len > 0)
    }

    /// Parses a complete metadata block and reports a title change, if any.
    fn read_metadata_block(&mut self, block: &Vec<u8>) -> (change: Option<Option<String>>)
        ensures
            final(self).metaint == old(self).metaint,
            final(self).remaining == old(self).remaining,
            final(self).meta_len == old(self).meta_len,
            final(self).block == old(self).block,
            final(self).consumed == old(self).consumed,
            match title_change(opt_chars(old(self).last_title), block@) {
                Some(next) => change is Some && opt_chars(change->0) == next && opt_chars(
                    final(self).last_title,
                ) == next,
                None => change is None && final(self).last_title == old(self).last_title,
            },
    {
        match parse_stream_title(block.as_slice()) {
            None => None,
            Some(title) => {
                let next = if title.as_str().is_empty() {
                    None
                } else {
                    Some(title)
                };
                if !same_title(&next, &self.last_title) {
                    self.last_title = copy_title(&next);
                    Some(next)
                } else {
                    None
                }
            },
        }
    }

    /// Consume the next chunk of the raw stream. The audio handed back,
    /// appended to the audio of all earlier chunks, is the audio of the whole
    /// stream fed so far; likewise for the reported title changes.
    pub fn feed(&mut self, input: &[u8]) -> (out: IcyChunk)
        requires
            old(self).wf(),
        ensures
            final(self).wf(),
            final(self).metaint() == old(self).metaint(),
            final(self).consumed() == old(self).consumed() + input@,
            icy_audio(old(self).metaint(), old(self).consumed()) + out.audio@ == icy_audio(
                final(self).metaint(),
                final(self).consumed(),
            ),
            title_events(icy_blocks(old(self).metaint(), old(self).consumed())) + titles_view(
                out.titles@,
            ) == title_events(icy_blocks(final(self).metaint(), final(self).consumed())),
    {
        let ghost m = self.metaint as nat;
        let ghost start = self.consumed@;
        let mut audio: Vec<u8> = Vec::new();
        let mut titles: Vec<Option<String>> = Vec::new();
        let mut k: usize = 0;
        assert(input@.take(0) =~= Seq::<u8>::empty());
        assert(start + Seq::<u8>::empty() =~= start);
        while k < input.len()
            invariant
                k <= input.len(),
                self.wf(),
                self.metaint as nat == m,
                self.consumed@ == start + input@.take(k as int),
                icy_audio(m, start) + audio@ == icy_audio(m, self.consumed@),
                title_events(icy_blocks(m, start)) + titles_view(titles@) == title_events(
                    icy_blocks(m, self.consumed@),
                ),
            decreases input.len() - k,
        {
            let x = input[k];
            let ghost s = self.consumed@;
            let ghost old_audio = audio@;
            let ghost old_titles = titles@;
            if self.metaint == 0 {
                audio.push(x);
            } else {
                proof {
                    lemma_push(m, s, x);
                    lemma_phase_shape(m, s);
                }
                if self.meta_len == 0 && self.remaining > 0 {
                    audio.push(x);
                    self.remaining = self.remaining - 1;
                } else if self.meta_len == 0 {
                    let len = (x as usize) * 16;
                    if len == 0 {
                        self.remaining = self.metaint;
                    } else {
                        self.meta_len = len;
                        self.block = Vec::new();
                    }
                } else {
                    self.block.push(x);
                    if self.block.len() == self.meta_len {
                        let mut block: Vec<u8> = Vec::new();
                        std::mem::swap(&mut block, &mut self.block);
                        proof {
                            lemma_events_push(icy_blocks(m, s), block@);
                        }
                        let change = self.read_metadata_block(&block);
                        match change {
                            Some(next) => {
                                titles.push(next);
                            },
                            None => {},
                        }
                        self.meta_len = 0;
                        self.remaining = self.metaint;
                    }
                }
            }
            self.consumed = Ghost(s.push(x));
            proof {
                assert(start + input@.take(k + 1) =~= (start + input@.take(k as int)).push(x));
                assert(icy_audio(m, start) + audio@ =~= if audio@.len() > old_audio.len() {
                    (icy_audio(m, start) + old_audio).push(x)
                } else {
                    icy_audio(m, start) + old_audio
                });
                assert(titles_view(titles@) =~= if titles@.len() > old_titles.len() {
                    titles_view(old_titles).push(opt_chars(titles@.last()))
                } else {
                    titles_view(old_titles)
                });
            }
            k += 1;
        }
        assert(input@.take(k as int) =~= input@);
        IcyChunk { audio, titles }
    }
}

/// Whether two optional titles hold the same text.
fn same_title(a: &Option<String>, b: &Option<String>) -> (r: bool)
    ensures
        r == (opt_chars(*a) == opt_chars(*b)),
{
    match (a, b) {
        (Some(x), Some(y)) => String::eq(x, y),
        (None, None) => true,
        _ => false,
    }
}

fn copy_title(a: &Option<String>) -> (r: Option<String>)
    ensures
        opt_chars(r) == opt_chars(*a),
{
    match a {
        Some(x) => Some(x.clone()),
        None => None,
    }
}

} // verus!
