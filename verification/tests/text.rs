use whirr::config::{config_file_text, is_valid_stream_url, normalized_stream_url, STREAM_URL_HINT};
use whirr::dialog::{
    applescript_str, osascript_reply, powershell_reply, powershell_str, prompt_text, Reason,
};
use whirr::util::split_artist_title;

#[test]
fn rejects_invalid_stream_url() {
    let unsupported_scheme = normalized_stream_url(Some("file:///tmp/audio.mp3".to_string()));
    let unparsable = normalized_stream_url(Some("not a url".to_string()));

    assert_eq!(unsupported_scheme, None);
    assert_eq!(unparsable, None);
}

#[test]
fn keeps_valid_stream_url() {
    let url = normalized_stream_url(Some("https://example.com/stream.mp3".to_string()));

    assert_eq!(url.as_deref(), Some("https://example.com/stream.mp3"));
}

#[test]
fn stream_url_schemes() {
    assert!(is_valid_stream_url("http://example.com/"));
    assert!(is_valid_stream_url("HTTPS://example.com/live"));
    assert!(!is_valid_stream_url("ftp://example.com/"));
    assert!(!is_valid_stream_url("/relative/path"));
    assert!(!is_valid_stream_url(""));
    assert_eq!(normalized_stream_url(None), None);
}

#[test]
fn config_text_carries_hint_only_without_url() {
    assert_eq!(config_file_text("volume = 1.0\n".to_string(), true), "volume = 1.0\n");
    let text = config_file_text("volume = 1.0\n".to_string(), false);
    assert!(text.starts_with("# No stream URL is configured."));
    assert_eq!(text, format!("{STREAM_URL_HINT}volume = 1.0\n"));
}

#[test]
fn splits_artist_and_title() {
    assert_eq!(split_artist_title("Artist - Song"), (Some("Artist"), "Song"));
    assert_eq!(split_artist_title("  Song only  "), (None, "Song only"));
    assert_eq!(split_artist_title(" - Song"), (None, "- Song"));
    assert_eq!(split_artist_title("Artist -  "), (None, "Artist -"));
    assert_eq!(
        split_artist_title("A - B - C"),
        (Some("A"), "B - C")
    );
}

#[test]
fn prompt_texts() {
    assert_eq!(prompt_text(Reason::Configure), "Enter the URL of the MP3 stream to play:");
    assert!(prompt_text(Reason::InvalidInput).starts_with("That is not a valid http(s) URL.\n"));
    assert_eq!(
        prompt_text(Reason::PlayRequested),
        "No stream URL is configured, so there is nothing to play yet.\nEnter the URL of the MP3 stream to play:"
    );
}

#[test]
fn quoting_for_prompts() {
    assert_eq!(applescript_str(r#"a\b"c"#), r#""a\\b\"c""#);
    assert_eq!(applescript_str(""), "\"\"");
    assert_eq!(powershell_str("it's"), "'it''s'");
    assert_eq!(powershell_str("a\nb"), "'a\nb'");
}

#[test]
fn prompt_replies() {
    assert_eq!(osascript_reply(b"http://x/\n\n"), "http://x/");
    assert_eq!(osascript_reply(b" x \r\n"), " x \r");
    assert_eq!(powershell_reply(b"  http://x/ \r\n").as_deref(), Some("http://x/"));
    assert_eq!(powershell_reply(b" \r\n"), None);
}
