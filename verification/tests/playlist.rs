use whirr::playlist::{looks_like_pls, parse_pls};

#[test]
fn detects_pls_by_extension() {
    assert!(looks_like_pls("/listen.pls", None));
    assert!(looks_like_pls("/LISTEN.PLS", None));
    assert!(!looks_like_pls("/stream.mp3", None));
}

#[test]
fn detects_pls_by_content_type() {
    assert!(looks_like_pls("/listen", Some("audio/x-scpls")));
    assert!(looks_like_pls(
        "/listen",
        Some("audio/scpls; charset=utf-8")
    ));
    assert!(looks_like_pls("/listen", Some("Audio/X-SCPLS")));
    assert!(!looks_like_pls("/listen", Some("audio/mpeg")));
    assert!(!looks_like_pls("/listen", None));
}

#[test]
fn parses_entries_in_index_order() {
    let text = "\
[playlist]
File2=https://example.com/two.mp3
Title2=Two
File1=https://example.com/one.mp3
Length1=-1
NumberOfEntries=2
Version=2
";
    assert_eq!(
        parse_pls(text),
        vec![
            "https://example.com/one.mp3".to_string(),
            "https://example.com/two.mp3".to_string(),
        ]
    );
}

#[test]
fn ignores_malformed_and_unrelated_lines() {
    let text = "\
[playlist]
garbage
File=missing-index
Filex=bad-index
File1=
file2 = https://example.com/lenient.mp3
NumberOfEntries=1
";
    assert_eq!(
        parse_pls(text),
        vec!["https://example.com/lenient.mp3".to_string()]
    );
}

#[test]
fn empty_playlist_yields_no_entries() {
    assert!(parse_pls("[playlist]\nNumberOfEntries=0\n").is_empty());
}

#[test]
fn content_type_is_trimmed_and_only_its_mime_counts() {
    assert!(looks_like_pls("/x", Some("  audio/x-scpls  ;q=1")));
    assert!(!looks_like_pls("/x", Some("text/plain; audio/x-scpls")));
    assert!(!looks_like_pls("/x.pl", Some("")));
    assert!(looks_like_pls("pls.PlS", None));
}

#[test]
fn equal_indices_keep_their_order_and_crlf_is_stripped() {
    let text = "File3=c\r\nFILE1=a\r\nfile3=d\r\nFile+2=b\r\nFile-1=x\r\nFile4294967296=y\r\nFile4294967295=z";
    assert_eq!(
        parse_pls(text),
        vec![
            "a".to_string(),
            "b".to_string(),
            "c".to_string(),
            "d".to_string(),
            "z".to_string(),
        ]
    );
}

#[test]
fn lone_carriage_return_on_last_line_is_kept() {
    assert_eq!(parse_pls("File1=a\r"), vec!["a".to_string()]);
    assert_eq!(parse_pls("File1= a b \n"), vec!["a b".to_string()]);
}

#[test]
fn key_cut_inside_a_character_is_ignored() {
    assert!(parse_pls("abcé=x\n").is_empty());
    assert!(parse_pls("filé1=x\n").is_empty());
    assert_eq!(
        parse_pls("abcé=x\nFile1=y\n"),
        vec!["y".to_string()]
    );
}
