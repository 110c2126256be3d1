//! The decisions of the audio engine.
//!
//! * "Playing" is represented by a monotonically increasing *generation*.
//!   Starting playback bumps the generation and spawns a worker tagged with it;
//!   pausing or stopping bumps the generation again. A worker keeps running
//!   only while its generation is the active one, so there is never more than
//!   one worker feeding the speakers.
//! * The audio device is opened on the first play and released whenever
//!   playback stops, so an idle engine holds no output stream open.
//! * The worker reconnects on any disconnect or error, backing off
//!   exponentially ([`Backoff`]).
//!
//! [`Engine`] decides what each command does; the caller performs the
//! [`Effect`]s it returns (opening the device, spawning workers, emitting
//! events). [`ChunkCursor`] is the read position inside the audio chunks that
//! the network thread hands to the decoder.

use vstd::prelude::*;
use vstd::arithmetic::power2::{lemma_pow2_pos, lemma_pow2_unfold, pow2};
use vstd::string::StringSliceAdditionalSpecFns;

use crate::icy::opt_chars;
use crate::text::{parse_decimal, parse_unsigned};

verus! {

/// Coarse playback state surfaced to the UI and media controls.
#[derive(Clone, Copy, PartialEq, Eq, Debug, Structural)]
pub enum PlaybackStatus {
    /// Not playing (user paused/stopped).
    Paused,
    /// Connecting or waiting to reconnect.
    Buffering,
    /// Audio is playing.
    Playing,
    /// A recoverable error occurred; the engine will retry.
    Error,
}

/// Events emitted by the engine for the UI to react to.
#[derive(Clone, Debug)]
pub enum PlayerEvent {
    Status(PlaybackStatus),
    /// Current track title (`None` when unknown/cleared).
    Title(Option<String>),
}

/// Commands accepted by the engine. (A volume change needs no decision and
/// is applied by the caller directly.)
#[derive(Debug)]
pub enum Command {
    Play,
    Pause,
    Toggle,
    /// Switch to a new stream URL (or none), restarting playback if active.
    SetStreamUrl(Option<String>),
    /// The worker of the given generation gave up (it could not get a sink).
    WorkerFailed(usize),
    Quit,
}

/// What the caller must do after the engine handled a command, in order.
#[derive(Debug)]
pub enum Effect {
    /// Emit an event to the UI.
    Emit(PlayerEvent),
    /// Spawn a worker for the current stream URL, tagged with this generation.
    SpawnWorker(usize),
    /// Drop the audio output stream.
    ReleaseDevice,
    /// Stop processing commands.
    Shutdown,
}

/// The engine's state, as the contracts see it.
pub struct EngineView {
    /// Whether a playback session is active.
    pub playing: bool,
    /// The generation of the active session (or of the last retired one).
    pub generation: usize,
    /// Whether the audio output stream is open.
    pub device_open: bool,
    /// The configured stream URL.
    pub stream_url: Option<Seq<char>>,
}

/// The generation after `g` (`AtomicUsize::fetch_add` wraps around).
pub open spec fn next_gen(g: usize) -> usize {
    if g == usize::MAX {
        0
    } else {
        (g + 1) as usize
    }
}

/// The engine's invariant: the device is open exactly while playing, and
/// playing needs a stream URL.
pub open spec fn engine_wf(e: EngineView) -> bool {
    &&& e.device_open == e.playing
    &&& e.playing ==> e.stream_url is Some
}

/// Begin a playback session: open the device if it is not open (`device_ok`
/// says whether that works), then spawn a worker under a fresh generation.
pub open spec fn start(e: EngineView, device_ok: bool) -> (EngineView, Seq<Effect>) {
    if !e.device_open && !device_ok {
        (
            EngineView { playing: false, ..e },
            seq![Effect::Emit(PlayerEvent::Status(PlaybackStatus::Error))],
        )
    } else {
        let g = next_gen(e.generation);
        (
            EngineView { playing: true, generation: g, device_open: true, ..e },
            seq![Effect::Emit(PlayerEvent::Status(PlaybackStatus::Buffering)), Effect::SpawnWorker(g)],
        )
    }
}

/// Stop playback: retire the session and release the device.
pub open spec fn pause(e: EngineView) -> (EngineView, Seq<Effect>) {
    (
        EngineView {
            playing: false,
            generation: next_gen(e.generation),
            device_open: false,
            ..e
        },
        seq![
            Effect::ReleaseDevice,
            Effect::Emit(PlayerEvent::Status(PlaybackStatus::Paused)),
            Effect::Emit(PlayerEvent::Title(None)),
        ],
    )
}

/// Start playback if a stream URL is configured; otherwise report `Paused`.
pub open spec fn play(e: EngineView, device_ok: bool) -> (EngineView, Seq<Effect>) {
    if e.stream_url is Some {
        start(e, device_ok)
    } else {
        (e, seq![Effect::Emit(PlayerEvent::Status(PlaybackStatus::Paused))])
    }
}

/// What the engine does with one command. `device_ok` is whether opening the
/// audio device succeeds, where the command opens it (see `needs_device`).
pub open spec fn step(e: EngineView, cmd: Command, device_ok: bool) -> (EngineView, Seq<Effect>) {
    match cmd {
        Command::Play => if e.playing {
            (e, Seq::empty())
        } else {
            play(e, device_ok)
        },
        Command::Pause => if e.playing {
            pause(e)
        } else {
            (e, Seq::empty())
        },
        Command::Toggle => if e.playing {
            pause(e)
        } else {
            play(e, device_ok)
        },
        Command::SetStreamUrl(url) => {
            let e1 = EngineView { stream_url: opt_chars(url), ..e };
            if e.playing {
                let e2 = EngineView { generation: next_gen(e.generation), ..e1 };
                let cleared = seq![Effect::Emit(PlayerEvent::Title(None))];
                if url is Some {
                    let (e3, fx) = start(e2, device_ok);
                    if e3.playing {
                        (e3, cleared + fx)
                    } else {
                        (
                            EngineView { device_open: false, ..e3 },
                            cleared + fx + seq![Effect::ReleaseDevice],
                        )
                    }
                } else {
                    (
                        EngineView { playing: false, device_open: false, ..e2 },
                        cleared + seq![
                            Effect::ReleaseDevice,
                            Effect::Emit(PlayerEvent::Status(PlaybackStatus::Paused)),
                        ],
                    )
                }
            } else {
                (e1, Seq::empty())
            }
        },
        Command::WorkerFailed(g) => if e.playing && e.generation == g {
            (
                EngineView { playing: false, device_open: false, ..e },
                seq![
                    Effect::ReleaseDevice,
                    Effect::Emit(PlayerEvent::Title(None)),
                    Effect::Emit(PlayerEvent::Status(PlaybackStatus::Paused)),
                ],
            )
        } else {
            (e, Seq::empty())
        },
        Command::Quit => (
            EngineView {
                playing: false,
                generation: next_gen(e.generation),
                device_open: false,
                ..e
            },
            seq![Effect::Shutdown],
        ),
    }
}

/// Whether handling `cmd` first opens the audio device.
pub open spec fn needs_device(e: EngineView, cmd: Command) -> bool {
    match cmd {
        Command::Play | Command::Toggle => !e.playing && e.stream_url is Some && !e.device_open,
        _ => false,
    }
}

/// The command loop's state.
pub struct Engine {
    playing: bool,
    generation: usize,
    device_open: bool,
    stream_url: Option<String>,
}

impl View for Engine {
    type V = EngineView;

    closed spec fn view(&self) -> EngineView {
        EngineView {
            playing: self.playing,
            generation: self.generation,
            device_open: self.device_open,
            stream_url: opt_chars(self.stream_url),
        }
    }
}

fn bump(g: usize) -> (r: usize)
    ensures
        r == next_gen(g),
{
    if g == usize::MAX {
        0
    } else {
        g + 1
    }
}

impl Engine {
    /// An idle engine for the given stream URL, at generation 0.
    pub fn new(stream_url: Option<String>) -> (e: Self)
        ensures
            e@ == (EngineView {
                playing: false,
                generation: 0,
                device_open: false,
                stream_url: opt_chars(stream_url),
            }),
            engine_wf(e@),
    {
        Engine { playing: false, generation: 0, device_open: false, stream_url }
    }

    /// Whether a session is active.
    pub fn is_playing(&self) -> (r: bool)
        ensures
            r == self@.playing,
    {
        self.playing
    }

    /// The generation of the active (or last retired) session.
    pub fn generation(&self) -> (r: usize)
        ensures
            r == self@.generation,
    {
        self.generation
    }

    /// The configured stream URL.
    pub fn stream_url(&self) -> (r: &Option<String>)
        ensures
            opt_chars(*r) == self@.stream_url,
    {
        &self.stream_url
    }

    /// Whether handling `cmd` first opens the audio device: the caller tries
    /// to open it and passes the outcome to [`Engine::handle`].
    pub fn needs_device(&self, cmd: &Command) -> (r: bool)
        ensures
            r == needs_device(self@, *cmd),
    {
        match cmd {
            Command::Play | Command::Toggle => !self.playing && self.stream_url.is_some()
                && !self.device_open,
            _ => false,
        }
    }

    fn start(&mut self, device_ok: bool, fx: &mut Vec<Effect>)
        ensures
            final(self)@ == start(old(self)@, device_ok).0,
            final(fx)@ == old(fx)@ + start(old(self)@, device_ok).1,
    {
        if !self.device_open && !device_ok {
            self.playing = false;
            fx.push(Effect::Emit(PlayerEvent::Status(PlaybackStatus::Error)));
        } else {
            self.device_open = true;
            self.generation = bump(self.generation);
            self.playing = true;
            fx.push(Effect::Emit(PlayerEvent::Status(PlaybackStatus::Buffering)));
            fx.push(Effect::SpawnWorker(self.generation));
        }
        assert(fx@ =~= old(fx)@ + start(old(self)@, device_ok).1);
    }

    fn pause(&mut self) -> (fx: Vec<Effect>)
        ensures
            (final(self)@, fx@) == pause(old(self)@),
    {
        self.playing = false;
        self.generation = bump(self.generation);
        self.device_open = false;
        let fx = vec![
            Effect::ReleaseDevice,
            Effect::Emit(PlayerEvent::Status(PlaybackStatus::Paused)),
            Effect::Emit(PlayerEvent::Title(None)),
        ];
        assert(fx@ =~= pause(old(self)@).1);
        fx
    }

    fn play(&mut self, device_ok: bool) -> (fx: Vec<Effect>)
        ensures
            (final(self)@, fx@) == play(old(self)@, device_ok),
    {
        let mut fx = Vec::new();
        if self.stream_url.is_some() {
            self.start(device_ok, &mut fx);
            assert(fx@ =~= start(old(self)@, device_ok).1);
        } else {
            fx.push(Effect::Emit(PlayerEvent::Status(PlaybackStatus::Paused)));
            assert(fx@ =~= play(old(self)@, device_ok).1);
        }
        fx
    }

    /// Handle one command and return what the caller must do, in order.
    /// `device_ok` is the outcome of opening the audio device, where
    /// [`Engine::needs_device`] asked for it; it is ignored otherwise.
    pub fn handle(&mut self, cmd: Command, device_ok: bool) -> (fx: Vec<Effect>)
        requires
            engine_wf(old(self)@),
        ensures
            (final(self)@, fx@) == step(old(self)@, cmd, device_ok),
            engine_wf(final(self)@),
    {
        let ghost e0 = self@;
        let ghost c = cmd;
        match cmd {
            Command::Play => {
                if self.playing {
                    Vec::new()
                } else {
                    self.play(device_ok)
                }
            },
            Command::Pause => {
                if self.playing {
                    self.pause()
                } else {
                    Vec::new()
                }
            },
            Command::Toggle => {
                if self.playing {
                    self.pause()
                } else {
                    self.play(device_ok)
                }
            },
            Command::SetStreamUrl(url) => {
                let has_url = url.is_some();
                self.stream_url = url;
                if self.playing {
                    self.generation = bump(self.generation);
                    let mut fx = vec![Effect::Emit(PlayerEvent::Title(None))];
                    let ghost cleared = fx@;
                    let ghost e2 = self@;
                    if has_url {
                        self.start(device_ok, &mut fx);
                        if !self.playing {
                            self.device_open = false;
                            fx.push(Effect::ReleaseDevice);
                            assert(fx@ =~= cleared + start(e2, device_ok).1 + seq![
                                Effect::ReleaseDevice,
                            ]);
                        } else {
                            assert(fx@ =~= cleared + start(e2, device_ok).1);
                        }
                    } else {
                        self.playing = false;
                        self.device_open = false;
                        fx.push(Effect::ReleaseDevice);
                        fx.push(Effect::Emit(PlayerEvent::Status(PlaybackStatus::Paused)));
                        assert(fx@ =~= cleared + seq![
                            Effect::ReleaseDevice,
                            Effect::Emit(PlayerEvent::Status(PlaybackStatus::Paused)),
                        ]);
                    }
                    fx
                } else {
                    Vec::new()
                }
            },
            Command::WorkerFailed(g) => {
                if self.playing && self.generation == g {
                    self.playing = false;
                    self.device_open = false;
                    let fx = vec![
                        Effect::ReleaseDevice,
                        Effect::Emit(PlayerEvent::Title(None)),
                        Effect::Emit(PlayerEvent::Status(PlaybackStatus::Paused)),
                    ];
                    assert(fx@ =~= step(e0, c, device_ok).1);
                    fx
                } else {
                    Vec::new()
                }
            },
            Command::Quit => {
                self.playing = false;
                self.generation = bump(self.generation);
                self.device_open = false;
                let fx = vec![Effect::Shutdown];
                assert(fx@ =~= step(e0, c, device_ok).1);
                fx
            },
        }
    }
}

/// Law: every command keeps the engine's invariant; in particular an engine
/// that is not playing holds no output stream open.
pub proof fn law_engine_invariant(e: EngineView, cmd: Command, device_ok: bool)
    requires
        engine_wf(e),
    ensures
        engine_wf(step(e, cmd, device_ok).0),
        !step(e, cmd, device_ok).0.playing ==> !step(e, cmd, device_ok).0.device_open,
{
}

/// Law: at most one worker feeds the device. A spawned worker carries the
/// engine's new generation, and any command that ends or replaces a running
/// session moves the generation on, which retires the old worker.
pub proof fn law_engine_single_worker(e: EngineView, cmd: Command, device_ok: bool)
    requires
        engine_wf(e),
    ensures
        ({
            let (e2, fx) = step(e, cmd, device_ok);
            &&& forall|i: int| #![auto] 0 <= i < fx.len() && fx[i] is SpawnWorker ==> fx[i]
                == Effect::SpawnWorker(e2.generation) && e2.playing
            &&& e.playing && (!e2.playing || exists|i: int| #![auto] 0 <= i < fx.len()
                && fx[i] is SpawnWorker) ==> e2.generation != e.generation
                || cmd is WorkerFailed
        }),
{
    let (e2, fx) = step(e, cmd, device_ok);
    assert forall|i: int| #![auto] 0 <= i < fx.len() && fx[i] is SpawnWorker implies fx[i]
        == Effect::SpawnWorker(e2.generation) && e2.playing by {
        match cmd {
            Command::SetStreamUrl(url) => {
                if e.playing && url is Some {
                    let cleared = seq![Effect::Emit(PlayerEvent::Title(None))];
                    let e1 = EngineView { stream_url: opt_chars(url), ..e };
                    let e3 = EngineView { generation: next_gen(e.generation), ..e1 };
                    let s = start(e3, device_ok);
                    if s.0.playing {
                        assert((cleared + s.1)[i] == s.1[i - 1]);
                    } else {
                        assert(fx[i] == Effect::Emit(PlayerEvent::Title(None)) || fx[i]
                            == Effect::Emit(PlayerEvent::Status(PlaybackStatus::Error)) || fx[i]
                            == Effect::ReleaseDevice);
                    }
                }
            },
            _ => {},
        }
    }
}

/// Law: the caller is asked to open the audio device exactly when a command
/// starts playback on an engine without one. A command that starts a worker
/// while no device is open is one that asked for the device; a command that
/// did not ask ignores `device_ok`; and from an idle engine with a stream
/// URL, both play and toggle ask, start playback when the device opens, and
/// stay idle when it does not.
pub proof fn law_device_opened_when_needed(e: EngineView, cmd: Command, device_ok: bool)
    requires
        engine_wf(e),
    ensures
        !e.device_open && (exists|i: int|
            0 <= i < step(e, cmd, device_ok).1.len() && (#[trigger] step(
                e,
                cmd,
                device_ok,
            ).1[i]) is SpawnWorker) ==> needs_device(e, cmd),
        !needs_device(e, cmd) ==> step(e, cmd, true) == step(e, cmd, false),
        needs_device(e, cmd) ==> step(e, cmd, true).0.playing && step(e, cmd, true).0.device_open
            && !step(e, cmd, false).0.playing && !step(e, cmd, false).0.device_open,
        !e.playing && e.stream_url is Some ==> needs_device(e, Command::Play) && needs_device(
            e,
            Command::Toggle,
        ),
{
    let fx = step(e, cmd, device_ok).1;
    if !e.device_open && !needs_device(e, cmd) {
        assert forall|i: int| 0 <= i < fx.len() implies !(#[trigger] fx[i] is SpawnWorker) by {
            match cmd {
                Command::Play | Command::Toggle => {
                    assert(e.stream_url is None);
                    assert(fx =~= seq![Effect::Emit(PlayerEvent::Status(PlaybackStatus::Paused))]);
                },
                Command::Pause => {},
                Command::SetStreamUrl(_) => {},
                Command::WorkerFailed(_) => {},
                Command::Quit => {},
            }
        }
    }
}

/// Law: a failure report from a retired worker changes nothing.
pub proof fn law_engine_stale_failure_ignored(e: EngineView, g: usize, device_ok: bool)
    requires
        !e.playing || g != e.generation,
    ensures
        step(e, Command::WorkerFailed(g), device_ok) == (e, Seq::<Effect>::empty()),
{
}

/// Law: play while playing, and pause while paused, change nothing.
pub proof fn law_engine_idempotent(e: EngineView, device_ok: bool)
    ensures
        e.playing ==> step(e, Command::Play, device_ok) == (e, Seq::<Effect>::empty()),
        !e.playing ==> step(e, Command::Pause, device_ok) == (e, Seq::<Effect>::empty()),
{
}

/// Law: from an idle engine with a stream URL and a working device, toggling
/// twice starts and stops playback, ends idle with the device released, and
/// reports `Paused` with the title cleared.
pub proof fn law_engine_toggle_twice(e: EngineView)
    requires
        engine_wf(e),
        !e.playing,
        e.stream_url is Some,
    ensures
        ({
            let (e1, fx1) = step(e, Command::Toggle, true);
            let (e2, fx2) = step(e1, Command::Toggle, true);
            &&& e1.playing && e1.device_open
            &&& fx1 == seq![
                Effect::Emit(PlayerEvent::Status(PlaybackStatus::Buffering)),
                Effect::SpawnWorker(e1.generation),
            ]
            &&& !e2.playing && !e2.device_open
            &&& e2.generation == next_gen(next_gen(e.generation))
            &&& fx2 == seq![
                Effect::ReleaseDevice,
                Effect::Emit(PlayerEvent::Status(PlaybackStatus::Paused)),
                Effect::Emit(PlayerEvent::Title(None)),
            ]
        }),
{
}

/// The shortest wait before reconnecting after an error, in milliseconds.
pub const BACKOFF_MIN_MS: u64 = 1000;

/// The longest wait before reconnecting after an error, in milliseconds.
pub const BACKOFF_MAX_MS: u64 = 30_000;

/// The wait before reconnecting after a clean end of the stream, in milliseconds.
pub const RECONNECT_PAUSE_MS: u64 = 500;

/// The exponential backoff of a worker's reconnect loop.
pub struct Backoff {
    delay_ms: u64,
}

impl Backoff {
    /// The wait that the next error will cause, in milliseconds.
    pub closed spec fn delay(&self) -> nat {
        self.delay_ms as nat
    }

    pub closed spec fn wf(&self) -> bool {
        BACKOFF_MIN_MS <= self.delay_ms <= BACKOFF_MAX_MS
    }

    /// A fresh backoff: the first error waits one second.
    pub fn new() -> (b: Self)
        ensures
            b.wf(),
            b.delay() == BACKOFF_MIN_MS,
    {
        Backoff { delay_ms: BACKOFF_MIN_MS }
    }

    /// After a clean end of the stream (server closed, track boundary):
    /// reconnect quickly, and forget earlier failures.
    pub fn after_clean_end(&mut self) -> (sleep_ms: u64)
        ensures
            final(self).wf(),
            sleep_ms == RECONNECT_PAUSE_MS,
            final(self).delay() == BACKOFF_MIN_MS,
    {
        self.delay_ms = BACKOFF_MIN_MS;
        RECONNECT_PAUSE_MS
    }

    /// After a session ended in an error: wait the current delay (a session
    /// that had played audio restarts the delay at one second), then double
    /// the delay for the next error, up to 30 seconds.
    pub fn after_error(&mut self, played: bool) -> (sleep_ms: u64)
        requires
            old(self).wf(),
        ensures
            final(self).wf(),
            sleep_ms == if played {
                BACKOFF_MIN_MS as int
            } else {
                old(self).delay() as int
            },
            final(self).delay() == if 2 * sleep_ms <= BACKOFF_MAX_MS {
                2 * sleep_ms
            } else {
                BACKOFF_MAX_MS as int
            },
            forall|k: nat|
                !played && old(self).delay() == #[trigger] error_wait(k) ==> sleep_ms == error_wait(k)
                    && final(self).delay() == error_wait(k + 1),
    {
        if played {
            self.delay_ms = BACKOFF_MIN_MS;
        }
        let sleep = self.delay_ms;
        assert forall|k: nat| !played && old(self).delay() == #[trigger] error_wait(k) implies (
        if 2 * sleep <= BACKOFF_MAX_MS {
            2 * sleep
        } else {
            BACKOFF_MAX_MS as int
        }) == error_wait(k + 1) by {
            assert(error_wait(k + 1) == if 2 * error_wait(k) <= BACKOFF_MAX_MS {
                2 * error_wait(k)
            } else {
                BACKOFF_MAX_MS as nat
            });
        }
        self.delay_ms = if 2 * sleep <= BACKOFF_MAX_MS {
            2 * sleep
        } else {
            BACKOFF_MAX_MS
        };
        sleep
    }
}

/// How a worker's streaming session ended.
#[derive(Clone, Copy, PartialEq, Eq, Debug, Structural)]
pub enum SessionEnd {
    /// The server closed the stream (or a track boundary forced a re-probe).
    Clean,
    /// The session failed; `played` says whether audio had reached the sink.
    Failed { played: bool },
}

/// What a worker does after a session ended.
#[derive(Clone, Copy, PartialEq, Eq, Debug, Structural)]
pub enum WorkerStep {
    /// The worker's generation was retired: stop.
    Stop,
    /// Wait `wait_ms` (waking early if retired), then reconnect; report the
    /// `Error` status first if `report_error`.
    Retry { wait_ms: u64, report_error: bool },
}

impl Backoff {
    /// The worker's decision after a session ended, `still_active` telling
    /// whether its generation is still the active one.
    pub fn next_step(&mut self, end: SessionEnd, still_active: bool) -> (r: WorkerStep)
        requires
            old(self).wf(),
        ensures
            final(self).wf(),
            !still_active ==> r == WorkerStep::Stop && final(self).delay() == old(self).delay(),
            still_active && end == SessionEnd::Clean ==> r == (WorkerStep::Retry {
                wait_ms: RECONNECT_PAUSE_MS,
                report_error: false,
            }) && final(self).delay() == BACKOFF_MIN_MS,
            still_active ==> (end matches SessionEnd::Failed { played } ==> {
                let wait = if played {
                    BACKOFF_MIN_MS as nat
                } else {
                    old(self).delay()
                };
                &&& r == (WorkerStep::Retry { wait_ms: wait as u64, report_error: true })
                &&& final(self).delay() == if 2 * wait <= BACKOFF_MAX_MS {
                    2 * wait
                } else {
                    BACKOFF_MAX_MS as nat
                }
            }),
    {
        if !still_active {
            return WorkerStep::Stop;
        }
        match end {
            SessionEnd::Clean => WorkerStep::Retry {
                wait_ms: self.after_clean_end(),
                report_error: false,
            },
            SessionEnd::Failed { played } => WorkerStep::Retry {
                wait_ms: self.after_error(played),
                report_error: true,
            },
        }
    }
}

/// The wait after the `k`-th consecutive error (counting from 0) of sessions
/// that played no audio, starting from a fresh backoff.
pub open spec fn error_wait(k: nat) -> nat
    decreases k,
{
    if k == 0 {
        BACKOFF_MIN_MS as nat
    } else {
        let w = 2 * error_wait((k - 1) as nat);
        if w <= BACKOFF_MAX_MS {
            w
        } else {
            BACKOFF_MAX_MS as nat
        }
    }
}

/// Law: the `k`-th consecutive error waits one second doubled `k` times,
/// capped at 30 seconds.
pub proof fn law_backoff_exponential(k: nat)
    ensures
        error_wait(k) == if 1000 * pow2(k) <= 30_000 {
            1000 * pow2(k)
        } else {
            30_000
        },
    decreases k,
{
    if k == 0 {
        assert(pow2(0) == 1) by {
            vstd::arithmetic::power2::lemma2_to64();
        }
    } else {
        law_backoff_exponential((k - 1) as nat);
        lemma_pow2_unfold(k);
        lemma_pow2_pos((k - 1) as nat);
    }
}

/// Law: one more error never shortens the wait, and no wait exceeds 30 seconds.
pub proof fn law_backoff_bounded(k: nat)
    ensures
        BACKOFF_MIN_MS <= error_wait(k) <= error_wait(k + 1) <= BACKOFF_MAX_MS,
    decreases k,
{
    if k > 0 {
        law_backoff_bounded((k - 1) as nat);
    }
}

/// The `icy-metaint` of a response: the header value parsed as `usize`, or 0
/// when the header is missing or not a number.
pub open spec fn metaint_of(header: Option<Seq<char>>) -> nat {
    match header {
        Some(h) => match parse_unsigned(vstd::utf8::encode_utf8(h), usize::MAX as nat) {
            Some(n) => n,
            None => 0,
        },
        None => 0,
    }
}

/// Read the metadata interval from the `icy-metaint` header value.
pub fn parse_metaint(header: Option<&str>) -> (r: usize)
    ensures
        r as nat == metaint_of(crate::playlist::opt_str(header)),
{
    match header {
        None => 0,
        Some(h) => match parse_decimal(h.as_bytes(), usize::MAX as u64) {
            Some(n) => n as usize,
            None => 0,
        },
    }
}

/// What reading the next packet from the demuxer gave.
#[derive(Clone, Copy, PartialEq, Eq, Debug, Structural)]
pub enum PacketRead {
    /// A packet; `ours` tells whether it belongs to the decoded track.
    Packet { ours: bool },
    /// The stream ended (an unexpected end of file).
    EndOfStream,
    /// The demuxer needs to be re-created (a reconnect re-probes).
    ResetRequired,
    /// Any other error.
    Failed,
}

/// What decoding a packet gave.
#[derive(Clone, Copy, PartialEq, Eq, Debug, Structural)]
pub enum DecodeResult {
    /// Audio samples.
    Audio,
    /// A corrupt packet, which a live stream has now and then.
    Corrupt,
    /// The stream ended (an unexpected end of file).
    EndOfStream,
    /// Any other error.
    Failed,
}

/// What the decode loop does next.
#[derive(Clone, Copy, PartialEq, Eq, Debug, Structural)]
pub enum DecodeStep {
    /// Decode the packet.
    Decode,
    /// Go on with the next packet.
    Skip,
    /// Queue the decoded samples in the sink.
    Append,
    /// End the session cleanly (the worker reconnects promptly).
    Finish,
    /// End the session with an error (the worker backs off).
    Fail,
}

/// The decode loop's decision after reading a packet: packets of other
/// tracks are skipped, the end of the stream or a needed reset ends the
/// session cleanly, other errors end it with an error.
pub open spec fn packet_step(r: PacketRead) -> DecodeStep {
    match r {
        PacketRead::Packet { ours } => if ours {
            DecodeStep::Decode
        } else {
            DecodeStep::Skip
        },
        PacketRead::EndOfStream | PacketRead::ResetRequired => DecodeStep::Finish,
        PacketRead::Failed => DecodeStep::Fail,
    }
}

/// The decode loop's decision after decoding a packet: audio is queued, a
/// corrupt packet skipped, the end of the stream ends the session cleanly,
/// other errors end it with an error.
pub open spec fn decode_step(r: DecodeResult) -> DecodeStep {
    match r {
        DecodeResult::Audio => DecodeStep::Append,
        DecodeResult::Corrupt => DecodeStep::Skip,
        DecodeResult::EndOfStream => DecodeStep::Finish,
        DecodeResult::Failed => DecodeStep::Fail,
    }
}

/// Executable `packet_step`.
pub fn after_packet(r: PacketRead) -> (s: DecodeStep)
    ensures
        s == packet_step(r),
{
    match r {
        PacketRead::Packet { ours } => if ours {
            DecodeStep::Decode
        } else {
            DecodeStep::Skip
        },
        PacketRead::EndOfStream | PacketRead::ResetRequired => DecodeStep::Finish,
        PacketRead::Failed => DecodeStep::Fail,
    }
}

/// Executable `decode_step`.
pub fn after_decode(r: DecodeResult) -> (s: DecodeStep)
    ensures
        s == decode_step(r),
{
    match r {
        DecodeResult::Audio => DecodeStep::Append,
        DecodeResult::Corrupt => DecodeStep::Skip,
        DecodeResult::EndOfStream => DecodeStep::Finish,
        DecodeResult::Failed => DecodeStep::Fail,
    }
}

/// How many sample buffers the sink may hold before decoding waits.
pub const MAX_QUEUED_BUFFERS: usize = 32;

/// Back-pressure: whether to wait before queueing more samples, with `queued`
/// buffers in the sink and the session still `running`.
pub fn must_wait(queued: usize, running: bool) -> (r: bool)
    ensures
        r == (queued > MAX_QUEUED_BUFFERS && running),
{
    queued > MAX_QUEUED_BUFFERS && running
}

/// What the decode loop remembers across packets.
pub struct DecodeState {
    played: bool,
    volume_bits: u32,
}

impl DecodeState {
    /// Whether audio has reached the sink in this session.
    pub closed spec fn has_played(&self) -> bool {
        self.played
    }

    /// The volume (as `f32` bits) last applied to the sink.
    pub closed spec fn volume(&self) -> u32 {
        self.volume_bits
    }

    /// A session with no audio played yet and the sink at `volume_bits`.
    pub fn new(volume_bits: u32) -> (d: Self)
        ensures
            !d.has_played(),
            d.volume() == volume_bits,
    {
        DecodeState { played: false, volume_bits }
    }

    /// Whether audio has reached the sink in this session.
    pub fn played(&self) -> (r: bool)
        ensures
            r == self.has_played(),
    {
        self.played
    }

    /// Pick up a live volume change: the new bits to apply to the sink, if
    /// they differ from those last applied.
    pub fn poll_volume(&mut self, bits: u32) -> (r: Option<u32>)
        ensures
            r == if bits != old(self).volume() {
                Some(bits)
            } else {
                None::<u32>
            },
            final(self).volume() == bits,
            final(self).has_played() == old(self).has_played(),
    {
        if bits != self.volume_bits {
            self.volume_bits = bits;
            Some(bits)
        } else {
            None
        }
    }

    /// Samples were queued. Returns whether they are the session's first
    /// audio, which starts the sink and reports `Playing` once.
    pub fn on_appended(&mut self) -> (first: bool)
        ensures
            first == !old(self).has_played(),
            final(self).has_played(),
            final(self).volume() == old(self).volume(),
    {
        let first = !self.played;
        self.played = true;
        first
    }
}

/// The first `max` bytes of `u`, or all of `u` if it is shorter.
pub open spec fn take_up_to(u: Seq<u8>, max: nat) -> Seq<u8> {
    u.take(if max < u.len() {
        max as int
    } else {
        u.len() as int
    })
}

/// One read from a source of audio chunks, as the decoder's byte source
/// reads: with the current chunk `unread` used up, the next queued chunk
/// becomes current; then up to `max` of its bytes are read. Returns what was
/// read, the unread rest and the chunks still queued.
pub open spec fn source_read(unread: Seq<u8>, queued: Seq<Seq<u8>>, max: nat) -> (
    Seq<u8>,
    Seq<u8>,
    Seq<Seq<u8>>,
) {
    let (cur, rest) = if unread.len() == 0 && queued.len() > 0 {
        (queued[0], queued.drop_first())
    } else {
        (unread, queued)
    };
    let out = take_up_to(cur, max);
    (out, cur.skip(out.len() as int), rest)
}

/// Successive reads of sizes `sizes`: everything read, in order, the unread
/// rest of the current chunk, and the chunks still queued.
pub open spec fn source_reads(unread: Seq<u8>, queued: Seq<Seq<u8>>, sizes: Seq<nat>) -> (
    Seq<u8>,
    Seq<u8>,
    Seq<Seq<u8>>,
)
    decreases sizes.len(),
{
    if sizes.len() == 0 {
        (Seq::empty(), unread, queued)
    } else {
        let (out, u, q) = source_read(unread, queued, sizes[0]);
        let (more, u2, q2) = source_reads(u, q, sizes.drop_first());
        (out + more, u2, q2)
    }
}

/// Law: reads from a source of chunks lose and repeat nothing: what was read,
/// then what is left unread, then the chunks still queued, is exactly the
/// bytes the source started with, in order. Each read returns at most the
/// bytes asked for.
pub proof fn law_chunks_concatenate(unread: Seq<u8>, queued: Seq<Seq<u8>>, sizes: Seq<nat>)
    ensures
        ({
            let (out, u, q) = source_reads(unread, queued, sizes);
            out + u + q.flatten() == unread + queued.flatten()
        }),
        forall|max: nat| #[trigger] source_read(unread, queued, max).0.len() <= max,
    decreases sizes.len(),
{
    if sizes.len() > 0 {
        let (out, u, q) = source_read(unread, queued, sizes[0]);
        law_chunks_concatenate(u, q, sizes.drop_first());
        let (more, u2, q2) = source_reads(u, q, sizes.drop_first());
        if unread.len() == 0 && queued.len() > 0 {
            assert(unread =~= Seq::<u8>::empty());
            assert(queued.flatten() == queued[0] + queued.drop_first().flatten());
            assert(out + u =~= queued[0]);
        } else {
            assert(out + u =~= unread);
        }
        assert(out + more + u2 + q2.flatten() =~= out + (more + u2 + q2.flatten()));
        assert(out + u + q.flatten() =~= (out + u) + q.flatten());
    }
}

/// Law: while bytes remain and no queued chunk is empty, a read of at least
/// one byte returns at least one byte; once everything is read, every further
/// read returns nothing (the end of the stream).
pub proof fn law_chunks_progress(unread: Seq<u8>, queued: Seq<Seq<u8>>, max: nat)
    requires
        forall|i: int| 0 <= i < queued.len() ==> (#[trigger] queued[i]).len() > 0,
    ensures
        max >= 1 && (unread.len() > 0 || queued.len() > 0) ==> source_read(
            unread,
            queued,
            max,
        ).0.len() >= 1,
        unread.len() == 0 && queued.len() == 0 ==> source_read(unread, queued, max).0.len() == 0,
{
}

/// The read position inside the current chunk of audio bytes.
pub struct ChunkCursor {
    current: Vec<u8>,
    pos: usize,
}

impl View for ChunkCursor {
    type V = Seq<u8>;

    /// The bytes of the current chunk not yet read.
    closed spec fn view(&self) -> Seq<u8> {
        self.current@.skip(self.pos as int)
    }
}

impl ChunkCursor {
    pub closed spec fn wf(&self) -> bool {
        self.pos <= self.current.len()
    }

    /// A cursor with nothing to read.
    pub fn new() -> (c: Self)
        ensures
            c.wf(),
            c@ == Seq::<u8>::empty(),
    {
        ChunkCursor { current: Vec::new(), pos: 0 }
    }

    /// Whether every byte of the current chunk has been read.
    pub fn is_drained(&self) -> (r: bool)
        requires
            self.wf(),
        ensures
            r == (self@.len() == 0),
    {
        self.pos >= self.current.len()
    }

    /// Start reading a new chunk.
    pub fn refill(&mut self, chunk: Vec<u8>)
        ensures
            final(self).wf(),
            final(self)@ == chunk@,
    {
        self.current = chunk;
        self.pos = 0;
        assert(self.current@.skip(0) =~= self.current@);
    }

    /// Read up to `max` bytes of the current chunk.
    pub fn read(&mut self, max: usize) -> (out: Vec<u8>)
        requires
            old(self).wf(),
        ensures
            final(self).wf(),
            out@ == take_up_to(old(self)@, max as nat),
            final(self)@ == old(self)@.skip(out@.len() as int),
    {
        let avail = self.current.len() - self.pos;
        let n = if avail < max {
            avail
        } else {
            max
        };
        let mut out: Vec<u8> = Vec::new();
        let mut k: usize = 0;
        while k < n
            invariant
                k <= n,
                n <= self.current.len() - self.pos,
                self.pos <= self.current.len(),
                out@ == self.current@.subrange(self.pos as int, self.pos + k),
            decreases n - k,
        {
            out.push(self.current[self.pos + k]);
            assert(self.current@.subrange(self.pos as int, self.pos + k + 1) =~= self.current@.subrange(
                self.pos as int,
                self.pos + k,
            ).push(self.current@[self.pos + k]));
            k += 1;
        }
        let ghost before = self@;
        assert(out@ =~= before.take(n as int));
        self.pos = self.pos + n;
        assert(self@ =~= before.skip(n as int));
        out
    }
}

} // verus!
