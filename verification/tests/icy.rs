use whirr::icy::{parse_stream_title, IcyReader};

#[test]
fn parses_title() {
    let block = b"StreamTitle='Artist - Song';StreamUrl='https://example.com/';\0\0";
    assert_eq!(parse_stream_title(block).as_deref(), Some("Artist - Song"));
}

#[test]
fn empty_title() {
    let block = b"StreamTitle='';\0";
    assert_eq!(parse_stream_title(block).as_deref(), Some(""));
}

#[test]
fn strips_metadata_from_stream() {
    // metaint = 4: 4 audio bytes, then an ICY metadata section, then audio.
    let mut raw = Vec::new();
    raw.extend_from_slice(b"AUDI");
    let payload = b"StreamTitle='Hi';";
    let blocks = payload.len().div_ceil(16); // 16-byte blocks needed
    let mut meta = payload.to_vec();
    meta.resize(blocks * 16, 0);
    raw.push(blocks as u8); // length prefix, in 16-byte units
    raw.extend_from_slice(&meta);
    raw.extend_from_slice(b"OOO");

    let mut reader = IcyReader::new(4);
    let out = reader.feed(&raw);
    let seen = out.titles.last().cloned().flatten();
    assert_eq!(out.audio, b"AUDIOOO");
    assert_eq!(seen.as_deref(), Some("Hi"));
}

fn frame(audio: &[u8], payload: &[u8]) -> Vec<u8> {
    let blocks = payload.len().div_ceil(16);
    let mut v = audio.to_vec();
    v.push(blocks as u8);
    let mut meta = payload.to_vec();
    meta.resize(blocks * 16, 0);
    v.extend_from_slice(&meta);
    v
}

#[test]
fn chunking_does_not_change_the_output() {
    let mut raw = frame(b"abcd", b"StreamTitle='One';");
    raw.extend(frame(b"efgh", b"StreamTitle='Two';"));
    raw.extend_from_slice(b"ij");
    let mut whole = IcyReader::new(4);
    let all = whole.feed(&raw);
    for size in 1..raw.len() {
        let mut reader = IcyReader::new(4);
        let mut audio = Vec::new();
        let mut titles = Vec::new();
        for chunk in raw.chunks(size) {
            let out = reader.feed(chunk);
            audio.extend(out.audio);
            titles.extend(out.titles);
        }
        assert_eq!(audio, all.audio);
        assert_eq!(titles, all.titles);
    }
    assert_eq!(all.audio, b"abcdefghij");
    assert_eq!(
        all.titles,
        vec![Some("One".to_string()), Some("Two".to_string())]
    );
}

#[test]
fn zero_metaint_passes_bytes_through() {
    let mut reader = IcyReader::new(0);
    let out = reader.feed(b"\x01StreamTitle='x';");
    assert_eq!(out.audio, b"\x01StreamTitle='x';");
    assert!(out.titles.is_empty());
}

#[test]
fn empty_metadata_block_and_repeated_title_are_quiet() {
    let mut raw = frame(b"ab", b"StreamTitle='Same';");
    raw.extend_from_slice(b"cd");
    raw.push(0); // an empty metadata section
    raw.extend(frame(b"ef", b"StreamTitle='Same';"));
    raw.extend(frame(b"gh", b"StreamTitle='';"));
    let mut reader = IcyReader::new(2);
    let out = reader.feed(&raw);
    assert_eq!(out.audio, b"abcdefgh");
    assert_eq!(out.titles, vec![Some("Same".to_string()), None]);
    assert_eq!(reader.current(), &None);
}

#[test]
fn incomplete_metadata_block_is_held_back() {
    let mut reader = IcyReader::new(2);
    let first = reader.feed(b"ab\x01StreamTi");
    assert_eq!(first.audio, b"ab");
    assert!(first.titles.is_empty());
    let second = reader.feed(b"tle='T';xy");
    assert_eq!(second.audio, b"xy");
    assert_eq!(second.titles, vec![Some("T".to_string())]);
}

#[test]
fn title_without_closing_quote_runs_to_the_end() {
    assert_eq!(
        parse_stream_title(b"StreamTitle=' Padded \0\0").as_deref(),
        Some("Padded ")
    );
    assert_eq!(parse_stream_title(b"StreamUrl='x';"), None);
}

#[test]
fn invalid_utf8_is_replaced() {
    assert_eq!(
        parse_stream_title(b"StreamTitle='a\xffb';").as_deref(),
        Some("a\u{fffd}b")
    );
}

#[test]
fn truncated_metadata_section_is_detected() {
    let mut reader = IcyReader::new(2);
    reader.feed(b"ab");
    assert!(reader.in_metadata());
    reader.feed(b"\x01Stream");
    assert!(reader.in_metadata());
    reader.feed(b"Title='x';c");
    assert!(!reader.in_metadata());
    assert!(!IcyReader::new(0).in_metadata());
}
