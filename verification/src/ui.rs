//! The state behind the tray menu, the tooltip and the media controls, and
//! what each user or player event does to it. The event loop performs the
//! outside work (showing dialogs, saving the config, driving the player);
//! this module decides it.

use vstd::prelude::*;

use crate::config::{is_valid_stream_url, valid_stream_url, APP_DISPLAY_NAME};
use crate::dialog::Reason;
use crate::icy::opt_chars;
use crate::player::{Command, PlaybackStatus};
use crate::playlist::opt_str;
use crate::text::{chars_of, same_str, strip_range, trim, Strip};
use crate::util::{artist_title, split_artist_title};

verus! {

/// Menu-item id: play/pause.
pub const ID_PLAY_PAUSE: &'static str = "play_pause";
/// Menu-item id: the (disabled) now-playing line.
pub const ID_NOW_PLAYING: &'static str = "now_playing";
/// Menu-item id: set the stream URL.
pub const ID_SET_URL: &'static str = "set_stream_url";
/// Menu-item id: start on login.
pub const ID_AUTOSTART: &'static str = "autostart";
/// Menu-item id: autoplay on startup.
pub const ID_AUTOPLAY: &'static str = "autoplay";
/// Menu-item id: notify on song change.
pub const ID_NOTIFICATIONS: &'static str = "notifications";
/// Menu-item id: about.
pub const ID_ABOUT: &'static str = "about";
/// Menu-item id: quit.
pub const ID_QUIT: &'static str = "quit";

/// Shown while no stream URL is configured.
pub const NO_STREAM_URL: &'static str = "No stream URL configured";
/// Shown while a stream URL is configured but nothing plays.
pub const NOT_PLAYING: &'static str = "Not playing";

/// What a click on a menu item asks for.
#[derive(Clone, Copy, PartialEq, Eq, Debug, Structural)]
pub enum MenuAction {
    TogglePlayback,
    SetStreamUrl,
    About,
    ToggleAutostart,
    ToggleAutoplay,
    ToggleNotifications,
    Quit,
}

/// The action of the menu item with id `id`, if it has one.
pub open spec fn menu_action_of(id: Seq<char>) -> Option<MenuAction> {
    if id == ID_PLAY_PAUSE@ {
        Some(MenuAction::TogglePlayback)
    } else if id == ID_SET_URL@ {
        Some(MenuAction::SetStreamUrl)
    } else if id == ID_ABOUT@ {
        Some(MenuAction::About)
    } else if id == ID_AUTOSTART@ {
        Some(MenuAction::ToggleAutostart)
    } else if id == ID_AUTOPLAY@ {
        Some(MenuAction::ToggleAutoplay)
    } else if id == ID_NOTIFICATIONS@ {
        Some(MenuAction::ToggleNotifications)
    } else if id == ID_QUIT@ {
        Some(MenuAction::Quit)
    } else {
        None
    }
}

/// The action of a clicked menu item.
pub fn menu_action(id: &str) -> (r: Option<MenuAction>)
    ensures
        r == menu_action_of(id@),
{
    if same_str(id, ID_PLAY_PAUSE) {
        Some(MenuAction::TogglePlayback)
    } else if same_str(id, ID_SET_URL) {
        Some(MenuAction::SetStreamUrl)
    } else if same_str(id, ID_ABOUT) {
        Some(MenuAction::About)
    } else if same_str(id, ID_AUTOSTART) {
        Some(MenuAction::ToggleAutostart)
    } else if same_str(id, ID_AUTOPLAY) {
        Some(MenuAction::ToggleAutoplay)
    } else if same_str(id, ID_NOTIFICATIONS) {
        Some(MenuAction::ToggleNotifications)
    } else if same_str(id, ID_QUIT) {
        Some(MenuAction::Quit)
    } else {
        None
    }
}

/// A media key or media-control request.
#[derive(Clone, Copy, PartialEq, Eq, Debug, Structural)]
pub enum MediaKey {
    Play,
    Pause,
    Stop,
    Toggle,
    /// Anything else (next, seek, volume, ...), which this player ignores.
    Other,
}

/// The player command for a media key: stop pauses, like pause.
pub open spec fn media_command_of(key: MediaKey) -> Option<Command> {
    match key {
        MediaKey::Play => Some(Command::Play),
        MediaKey::Pause | MediaKey::Stop => Some(Command::Pause),
        MediaKey::Toggle => Some(Command::Toggle),
        MediaKey::Other => None,
    }
}

/// The player command for a media key.
pub fn media_command(key: MediaKey) -> (r: Option<Command>)
    ensures
        r == media_command_of(key),
{
    match key {
        MediaKey::Play => Some(Command::Play),
        MediaKey::Pause | MediaKey::Stop => Some(Command::Pause),
        MediaKey::Toggle => Some(Command::Toggle),
        MediaKey::Other => None,
    }
}

/// The persisted settings that the tray shows and changes (the volume,
/// a float, is kept by the caller).
pub struct Settings {
    /// The http(s) stream to play; there is no default.
    pub stream_url: Option<String>,
    /// Start playing automatically when the app launches.
    pub autoplay: bool,
    /// Whether the app is registered to start on login.
    pub autostart: bool,
    /// Show a desktop notification when the playing track changes.
    pub notifications: bool,
}

impl Default for Settings {
    /// No stream URL, playback starting automatically on launch, no
    /// autostart, notifications on.
    fn default() -> (s: Self)
        ensures
            s.stream_url is None,
            s.autoplay,
            !s.autostart,
            s.notifications,
    {
        Settings { stream_url: None, autoplay: true, autostart: false, notifications: true }
    }
}

/// A request to show the stream-URL prompt.
pub struct DialogRequest {
    /// The text the input starts with.
    pub current: Option<String>,
    /// Which explanation the prompt shows.
    pub reason: Reason,
}

/// What became of the text entered in the stream-URL prompt.
pub enum UrlEntry {
    /// Cancelled, or nothing entered: nothing changes.
    Ignored,
    /// Not a valid http(s) URL: the prompt is shown again with this request.
    Rejected(DialogRequest),
    /// Accepted as the new stream URL, now in the settings: save them, hand
    /// the URL to the player, refresh the tray and start playing.
    Accepted,
}

/// Which settings a reloaded config file changed.
pub struct SettingsChange {
    pub stream_url_changed: bool,
    pub autostart_changed: bool,
}

/// The state behind the tray, the tooltip and the media controls.
pub struct UiModel {
    pub settings: Settings,
    pub status: PlaybackStatus,
    /// The current track title, if any.
    pub title: Option<String>,
    /// The last non-empty song title announced (or seen while notifications
    /// were off), so that only a genuine track change is announced.
    pub last_song: Option<String>,
    /// Whether the stream-URL prompt is showing.
    pub url_dialog_open: bool,
}

/// Whether the player counts as active (playing or about to).
pub open spec fn is_active_status(status: PlaybackStatus) -> bool {
    status == PlaybackStatus::Playing || status == PlaybackStatus::Buffering
}

/// Whether the player counts as active: the tray icon is lit, the menu offers
/// "Pause", and the media controls show "playing".
pub fn is_active(status: PlaybackStatus) -> (r: bool)
    ensures
        r == is_active_status(status),
{
    match status {
        PlaybackStatus::Playing | PlaybackStatus::Buffering => true,
        _ => false,
    }
}

/// The label of the play/pause menu item.
pub fn play_pause_label(status: PlaybackStatus) -> (r: &'static str)
    ensures
        r@ == if is_active_status(status) {
            "Pause"@
        } else {
            "Play"@
        },
{
    if is_active(status) {
        "Pause"
    } else {
        "Play"
    }
}

/// The tooltip of the tray icon.
pub open spec fn tooltip_of(has_url: bool, status: PlaybackStatus, title: Option<Seq<char>>) -> Seq<
    char,
> {
    if !has_url {
        NO_STREAM_URL@
    } else {
        match status {
            PlaybackStatus::Playing => match title {
                Some(t) => t,
                None => "Playing"@,
            },
            PlaybackStatus::Buffering => "Connecting…"@,
            PlaybackStatus::Paused => "Paused"@,
            PlaybackStatus::Error => "Reconnecting…"@,
        }
    }
}

/// The text of the now-playing menu line.
pub open spec fn now_playing_of(has_url: bool, title: Option<Seq<char>>) -> Seq<char> {
    match title {
        Some(t) => t,
        None => if !has_url {
            NO_STREAM_URL@
        } else {
            NOT_PLAYING@
        },
    }
}

/// The now-playing line that the tray starts with, before any title arrives.
pub fn initial_now_playing(has_stream_url: bool) -> (r: &'static str)
    ensures
        r@ == now_playing_of(has_stream_url, None),
{
    if has_stream_url {
        NOT_PLAYING
    } else {
        NO_STREAM_URL
    }
}

/// How a new title moves the last announced song, and which song to
/// announce: a title different from the last song is a new song, announced
/// when notifications are on; no title (e.g. on pause) leaves the last song
/// alone, so resuming the same track stays quiet.
pub open spec fn song_notice(
    last_song: Option<Seq<char>>,
    notifications: bool,
    title: Option<Seq<char>>,
) -> (Option<Seq<char>>, Option<Seq<char>>) {
    match title {
        Some(song) => if last_song != Some(song) {
            (
                Some(song),
                if notifications {
                    Some(song)
                } else {
                    None
                },
            )
        } else {
            (last_song, None)
        },
        None => (last_song, None),
    }
}

/// The `(artist, title)` shown by the media controls.
pub open spec fn media_metadata_of(title: Option<Seq<char>>) -> (Option<Seq<char>>, Seq<char>) {
    match title {
        Some(t) => artist_title(t),
        None => (None, APP_DISPLAY_NAME@),
    }
}

/// The outcome of entering `input` in the prompt: `None` if it is ignored,
/// else the trimmed text and whether it is accepted.
pub open spec fn url_entry_of(result: Option<Seq<char>>) -> Option<(Seq<char>, bool)> {
    match result {
        None => None,
        Some(input) => {
            let t = trim(input);
            if t.len() == 0 {
                None
            } else {
                Some((t, valid_stream_url(t)))
            }
        },
    }
}

fn same_opt(a: &Option<String>, b: &Option<String>) -> (r: bool)
    ensures
        r == (opt_chars(*a) == opt_chars(*b)),
{
    match (a, b) {
        (Some(x), Some(y)) => same_str(x.as_str(), y.as_str()),
        (None, None) => true,
        _ => false,
    }
}

fn copy_opt(a: &Option<String>) -> (r: Option<String>)
    ensures
        r == *a,
{
    match a {
        Some(x) => Some(x.clone()),
        None => None,
    }
}

impl UiModel {
    /// The state at startup: paused, no title, no prompt.
    pub fn new(settings: Settings) -> (m: Self)
        ensures
            m.settings == settings,
            m.status == PlaybackStatus::Paused,
            m.title is None,
            m.last_song is None,
            !m.url_dialog_open,
    {
        UiModel {
            settings,
            status: PlaybackStatus::Paused,
            title: None,
            last_song: None,
            url_dialog_open: false,
        }
    }

    /// Whether to start playing once the tray is up: autoplay is on and a
    /// stream URL is configured.
    pub fn should_autoplay(&self) -> (r: bool)
        ensures
            r == (self.settings.autoplay && self.settings.stream_url is Some),
    {
        self.settings.autoplay && self.settings.stream_url.is_some()
    }

    /// Record a new playback status.
    pub fn apply_status(&mut self, status: PlaybackStatus)
        ensures
            *final(self) == (UiModel { status, ..*old(self) }),
    {
        self.status = status;
    }

    /// The tooltip for the current state.
    pub fn tooltip(&self) -> (r: String)
        ensures
            r@ == tooltip_of(
                self.settings.stream_url is Some,
                self.status,
                opt_chars(self.title),
            ),
    {
        if self.settings.stream_url.is_none() {
            return String::from_str(NO_STREAM_URL);
        }
        match self.status {
            PlaybackStatus::Playing => match &self.title {
                Some(t) => t.clone(),
                None => String::from_str("Playing"),
            },
            PlaybackStatus::Buffering => String::from_str("Connecting…"),
            PlaybackStatus::Paused => String::from_str("Paused"),
            PlaybackStatus::Error => String::from_str("Reconnecting…"),
        }
    }

    /// The text of the now-playing menu line.
    pub fn now_playing_text(&self) -> (r: String)
        ensures
            r@ == now_playing_of(self.settings.stream_url is Some, opt_chars(self.title)),
    {
        match &self.title {
            Some(t) => t.clone(),
            None => String::from_str(initial_now_playing(self.settings.stream_url.is_some())),
        }
    }

    /// Record a new track title. Returns the song to announce with a desktop
    /// notification, if any.
    pub fn apply_title(&mut self, title: Option<String>) -> (notify: Option<String>)
        ensures
            (opt_chars(final(self).last_song), opt_chars(notify)) == song_notice(
                opt_chars(old(self).last_song),
                old(self).settings.notifications,
                opt_chars(title),
            ),
            final(self).title == title,
            final(self).settings == old(self).settings,
            final(self).status == old(self).status,
            final(self).url_dialog_open == old(self).url_dialog_open,
    {
        let mut notify = None;
        if let Some(song) = &title {
            let differs = match &self.last_song {
                Some(last) => !same_str(last.as_str(), song.as_str()),
                None => true,
            };
            if differs {
                if self.settings.notifications {
                    notify = Some(song.clone());
                }
                self.last_song = Some(song.clone());
            }
        }
        self.title = title;
        notify
    }

    /// The `(artist, title)` for the media controls: the track title split at
    /// ` - `, or the application's name while there is no title.
    pub fn media_metadata(&self) -> (r: (Option<String>, String))
        ensures
            (opt_chars(r.0), r.1@) == media_metadata_of(opt_chars(self.title)),
    {
        match &self.title {
            Some(s) => {
                let (artist, title) = split_artist_title(s.as_str());
                let a = match artist {
                    Some(x) => Some(String::from_str(x)),
                    None => None,
                };
                assert(opt_chars(a) == opt_str(artist));
                (a, String::from_str(title))
            },
            None => (None, String::from_str(APP_DISPLAY_NAME)),
        }
    }

    /// Ask for the stream-URL prompt, pre-filled with `prefill` or else the
    /// configured URL. Returns `None` while a prompt is already showing, so
    /// repeated menu clicks do not stack prompts.
    pub fn open_url_dialog(&mut self, invalid: bool, prefill: Option<String>) -> (r: Option<
        DialogRequest,
    >)
        ensures
            old(self).url_dialog_open ==> r is None && *final(self) == *old(self),
            !old(self).url_dialog_open ==> {
                &&& r is Some
                &&& r->0.current == if prefill is Some {
                    prefill
                } else {
                    old(self).settings.stream_url
                }
                &&& r->0.reason == if invalid {
                    Reason::InvalidInput
                } else {
                    Reason::Configure
                }
                &&& *final(self) == (UiModel { url_dialog_open: true, ..*old(self) })
            },
    {
        if self.url_dialog_open {
            return None;
        }
        self.url_dialog_open = true;
        let current = match prefill {
            Some(p) => Some(p),
            None => copy_opt(&self.settings.stream_url),
        };
        let reason = if invalid {
            Reason::InvalidInput
        } else {
            Reason::Configure
        };
        Some(DialogRequest { current, reason })
    }

    /// Handle the prompt's result (`None`: cancelled). The input is trimmed;
    /// empty input is ignored, an invalid URL opens the prompt again with the
    /// rejected text, and a valid http(s) URL becomes the stream URL.
    pub fn on_stream_url_entered(&mut self, result: Option<String>) -> (r: UrlEntry)
        ensures
            match url_entry_of(opt_chars(result)) {
                None => r is Ignored && *final(self) == (UiModel {
                    url_dialog_open: false,
                    ..*old(self)
                }),
                Some((text, true)) => {
                    &&& r is Accepted
                    &&& opt_chars(final(self).settings.stream_url) == Some(text)
                    &&& final(self).settings.autoplay == old(self).settings.autoplay
                    &&& final(self).settings.autostart == old(self).settings.autostart
                    &&& final(self).settings.notifications == old(self).settings.notifications
                    &&& final(self).status == old(self).status
                    &&& final(self).title == old(self).title
                    &&& final(self).last_song == old(self).last_song
                    &&& !final(self).url_dialog_open
                },
                Some((text, false)) => {
                    &&& r matches UrlEntry::Rejected(req)
                    &&& opt_chars(r->Rejected_0.current) == Some(text)
                    &&& r->Rejected_0.reason == Reason::InvalidInput
                    &&& *final(self) == (UiModel { url_dialog_open: true, ..*old(self) })
                },
            },
    {
        self.url_dialog_open = false;
        let input = match result {
            None => {
                return UrlEntry::Ignored;
            },
            Some(input) => input,
        };
        let v = chars_of(input.as_str());
        assert(v@.subrange(0, v@.len() as int) =~= v@);
        let (a, b) = strip_range(&v, 0, v.len(), Strip::Whitespace);
        if a == b {
            return UrlEntry::Ignored;
        }
        let trimmed = String::from_str(input.as_str().substring_char(a, b));
        if !is_valid_stream_url(trimmed.as_str()) {
            match self.open_url_dialog(true, Some(trimmed)) {
                Some(req) => UrlEntry::Rejected(req),
                None => UrlEntry::Ignored,
            }
        } else {
            self.settings.stream_url = Some(trimmed);
            UrlEntry::Accepted
        }
    }

    /// Flip autoplay-on-startup; returns the new value. Playback is left alone.
    pub fn toggle_autoplay(&mut self) -> (r: bool)
        ensures
            r == !old(self).settings.autoplay,
            final(self).settings.autoplay == r,
            final(self).settings.stream_url == old(self).settings.stream_url,
            final(self).settings.autostart == old(self).settings.autostart,
            final(self).settings.notifications == old(self).settings.notifications,
            final(self).status == old(self).status,
            final(self).title == old(self).title,
            final(self).last_song == old(self).last_song,
            final(self).url_dialog_open == old(self).url_dialog_open,
    {
        self.settings.autoplay = !self.settings.autoplay;
        self.settings.autoplay
    }

    /// Flip song-change notifications; returns the new value.
    pub fn toggle_notifications(&mut self) -> (r: bool)
        ensures
            r == !old(self).settings.notifications,
            final(self).settings.notifications == r,
            final(self).settings.stream_url == old(self).settings.stream_url,
            final(self).settings.autostart == old(self).settings.autostart,
            final(self).settings.autoplay == old(self).settings.autoplay,
            final(self).status == old(self).status,
            final(self).title == old(self).title,
            final(self).last_song == old(self).last_song,
            final(self).url_dialog_open == old(self).url_dialog_open,
    {
        self.settings.notifications = !self.settings.notifications;
        self.settings.notifications
    }

    /// Record that start-on-login is now `enabled`.
    pub fn set_autostart(&mut self, enabled: bool)
        ensures
            final(self).settings.autostart == enabled,
            final(self).settings.stream_url == old(self).settings.stream_url,
            final(self).settings.autoplay == old(self).settings.autoplay,
            final(self).settings.notifications == old(self).settings.notifications,
            final(self).status == old(self).status,
            final(self).title == old(self).title,
            final(self).last_song == old(self).last_song,
            final(self).url_dialog_open == old(self).url_dialog_open,
    {
        self.settings.autostart = enabled;
    }

    /// Take over the settings of a reloaded config file, and report which of
    /// those that need outside work changed.
    pub fn apply_settings(&mut self, new: Settings) -> (r: SettingsChange)
        ensures
            r.stream_url_changed == (opt_chars(new.stream_url) != opt_chars(
                old(self).settings.stream_url,
            )),
            r.autostart_changed == (new.autostart != old(self).settings.autostart),
            *final(self) == (UiModel { settings: new, ..*old(self) }),
    {
        let stream_url_changed = !same_opt(&new.stream_url, &self.settings.stream_url);
        let autostart_changed = new.autostart != self.settings.autostart;
        self.settings = new;
        SettingsChange { stream_url_changed, autostart_changed }
    }
}

/// Law: pausing and resuming the same song announces it once. After a song
/// has been seen, a cleared title and the same song again announce nothing.
pub proof fn law_quiet_resume(last: Option<Seq<char>>, notifications: bool, song: Seq<char>)
    ensures
        ({
            let (l1, _) = song_notice(last, notifications, Some(song));
            let (l2, n2) = song_notice(l1, notifications, None);
            let (l3, n3) = song_notice(l2, notifications, Some(song));
            &&& l1 == Some(song)
            &&& n2 is None && n3 is None
            &&& l3 == Some(song)
        }),
{
}

/// Law: a new song is announced exactly when notifications are on, and is
/// remembered either way, so turning notifications on later does not
/// announce the song already playing.
pub proof fn law_new_song(last: Option<Seq<char>>, notifications: bool, song: Seq<char>)
    requires
        last != Some(song),
    ensures
        song_notice(last, notifications, Some(song)).0 == Some(song),
        song_notice(last, notifications, Some(song)).1 == if notifications {
            Some(song)
        } else {
            None
        },
        song_notice(Some(song), true, Some(song)).1 is None,
{
}

/// Law: only a valid http(s) URL is ever accepted as the stream URL, and it
/// is never empty.
pub proof fn law_only_valid_urls(result: Option<Seq<char>>)
    ensures
        url_entry_of(result) matches Some((text, true)) ==> valid_stream_url(text) && text.len()
            > 0,
{
}

/// Law: only the `Playing` status shows the track title in the tooltip (or
/// "Playing" before one is known); connecting, paused and reconnecting show
/// their fixed texts, whatever the title is.
pub proof fn law_tooltip_title_only_while_playing(
    status: PlaybackStatus,
    t1: Option<Seq<char>>,
    t2: Option<Seq<char>>,
    song: Seq<char>,
)
    ensures
        status != PlaybackStatus::Playing ==> tooltip_of(true, status, t1) == tooltip_of(
            true,
            status,
            t2,
        ),
        tooltip_of(true, PlaybackStatus::Error, t1) == "Reconnecting…"@,
        tooltip_of(true, PlaybackStatus::Buffering, t1) == "Connecting…"@,
        tooltip_of(true, PlaybackStatus::Paused, t1) == "Paused"@,
        tooltip_of(true, PlaybackStatus::Playing, Some(song)) == song,
        tooltip_of(true, PlaybackStatus::Playing, None) == "Playing"@,
{
}

/// Law: without a stream URL the tooltip says so, whatever the player does.
pub proof fn law_tooltip_without_url(status: PlaybackStatus, title: Option<Seq<char>>)
    ensures
        tooltip_of(false, status, title) == NO_STREAM_URL@,
        now_playing_of(false, None) == NO_STREAM_URL@,
{
}

} // verus!
