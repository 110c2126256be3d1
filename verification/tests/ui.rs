use whirr::dialog::Reason;
use whirr::player::{Command, PlaybackStatus};
use whirr::ui::{
    initial_now_playing, is_active, media_command, menu_action, play_pause_label, MediaKey,
    MenuAction, Settings, UiModel, UrlEntry, ID_QUIT,
};

fn settings(url: Option<&str>) -> Settings {
    Settings {
        stream_url: url.map(str::to_string),
        autoplay: true,
        autostart: false,
        notifications: true,
    }
}

#[test]
fn menu_ids_map_to_actions() {
    assert_eq!(menu_action("play_pause"), Some(MenuAction::TogglePlayback));
    assert_eq!(menu_action("set_stream_url"), Some(MenuAction::SetStreamUrl));
    assert_eq!(menu_action("about"), Some(MenuAction::About));
    assert_eq!(menu_action("autostart"), Some(MenuAction::ToggleAutostart));
    assert_eq!(menu_action("autoplay"), Some(MenuAction::ToggleAutoplay));
    assert_eq!(menu_action("notifications"), Some(MenuAction::ToggleNotifications));
    assert_eq!(menu_action(ID_QUIT), Some(MenuAction::Quit));
    assert_eq!(menu_action("now_playing"), None);
}

#[test]
fn media_keys_map_to_commands() {
    assert!(matches!(media_command(MediaKey::Play), Some(Command::Play)));
    assert!(matches!(media_command(MediaKey::Stop), Some(Command::Pause)));
    assert!(matches!(media_command(MediaKey::Pause), Some(Command::Pause)));
    assert!(matches!(media_command(MediaKey::Toggle), Some(Command::Toggle)));
    assert!(media_command(MediaKey::Other).is_none());
}

#[test]
fn tooltip_and_labels_follow_the_state() {
    let mut m = UiModel::new(settings(None));
    assert_eq!(m.tooltip(), "No stream URL configured");
    assert_eq!(m.now_playing_text(), "No stream URL configured");
    m.settings.stream_url = Some("http://x/".to_string());
    assert_eq!(m.tooltip(), "Paused");
    assert_eq!(m.now_playing_text(), "Not playing");
    m.apply_status(PlaybackStatus::Buffering);
    assert_eq!(m.tooltip(), "Connecting…");
    m.apply_status(PlaybackStatus::Error);
    assert_eq!(m.tooltip(), "Reconnecting…");
    m.apply_status(PlaybackStatus::Playing);
    assert_eq!(m.tooltip(), "Playing");
    m.apply_title(Some("A - B".to_string()));
    assert_eq!(m.tooltip(), "A - B");
    assert_eq!(m.now_playing_text(), "A - B");
    assert!(is_active(PlaybackStatus::Playing) && is_active(PlaybackStatus::Buffering));
    assert!(!is_active(PlaybackStatus::Paused) && !is_active(PlaybackStatus::Error));
    assert_eq!(play_pause_label(PlaybackStatus::Buffering), "Pause");
    assert_eq!(play_pause_label(PlaybackStatus::Error), "Play");
    assert_eq!(initial_now_playing(true), "Not playing");
}

#[test]
fn same_song_after_pause_is_not_announced_again() {
    let mut m = UiModel::new(settings(Some("http://x/")));
    assert_eq!(m.apply_title(Some("Song".to_string())).as_deref(), Some("Song"));
    assert_eq!(m.apply_title(None), None);
    assert_eq!(m.apply_title(Some("Song".to_string())), None);
    assert_eq!(m.apply_title(Some("Next".to_string())).as_deref(), Some("Next"));
    m.toggle_notifications();
    assert_eq!(m.apply_title(Some("Muted".to_string())), None);
    m.toggle_notifications();
    assert_eq!(m.apply_title(Some("Muted".to_string())), None);
}

#[test]
fn media_metadata_splits_artist() {
    let mut m = UiModel::new(settings(Some("http://x/")));
    assert_eq!(m.media_metadata(), (None, "Whirr".to_string()));
    m.apply_title(Some(" Artist  -  Song ".to_string()));
    assert_eq!(
        m.media_metadata(),
        (Some("Artist".to_string()), "Song".to_string())
    );
}

#[test]
fn url_prompt_flow() {
    let mut m = UiModel::new(settings(Some("http://old/")));
    let req = m.open_url_dialog(false, None).unwrap();
    assert_eq!(req.current.as_deref(), Some("http://old/"));
    assert_eq!(req.reason, Reason::Configure);
    assert!(m.open_url_dialog(false, None).is_none());

    match m.on_stream_url_entered(Some("  not a url ".to_string())) {
        UrlEntry::Rejected(req) => {
            assert_eq!(req.current.as_deref(), Some("not a url"));
            assert_eq!(req.reason, Reason::InvalidInput);
        }
        _ => panic!("expected the input to be rejected"),
    }
    assert!(m.url_dialog_open);
    assert!(matches!(m.on_stream_url_entered(None), UrlEntry::Ignored));
    assert!(!m.url_dialog_open);
    assert!(matches!(
        m.on_stream_url_entered(Some("   ".to_string())),
        UrlEntry::Ignored
    ));
    assert!(matches!(
        m.on_stream_url_entered(Some(" https://new.example/s.mp3\n".to_string())),
        UrlEntry::Accepted
    ));
    assert_eq!(
        m.settings.stream_url.as_deref(),
        Some("https://new.example/s.mp3")
    );
}

#[test]
fn settings_reload_reports_changes() {
    let mut m = UiModel::new(settings(Some("http://a/")));
    let c = m.apply_settings(settings(Some("http://a/")));
    assert!(!c.stream_url_changed && !c.autostart_changed);
    let mut s = settings(None);
    s.autostart = true;
    let c = m.apply_settings(s);
    assert!(c.stream_url_changed && c.autostart_changed);
    assert!(!m.should_autoplay());
    assert!(m.toggle_autoplay() == false);
}

#[test]
fn defaults_to_no_stream_url() {
    assert_eq!(Settings::default().stream_url, None);
}

#[test]
fn autoplay_is_on_by_default() {
    let s = Settings::default();
    assert!(s.autoplay);
    assert!(!s.autostart);
    assert!(s.notifications);
}
