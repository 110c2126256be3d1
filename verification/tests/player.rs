use whirr::player::{
    parse_metaint, Backoff, ChunkCursor, Command, Effect, Engine, PlaybackStatus, PlayerEvent,
    SessionEnd, WorkerStep, after_decode, after_packet, must_wait, DecodeResult, DecodeState,
    DecodeStep, PacketRead,
};

fn is_status(e: &Effect, s: PlaybackStatus) -> bool {
    matches!(e, Effect::Emit(PlayerEvent::Status(x)) if *x == s)
}

fn is_title_cleared(e: &Effect) -> bool {
    matches!(e, Effect::Emit(PlayerEvent::Title(None)))
}

#[test]
fn play_starts_a_worker_and_pause_releases_the_device() {
    let mut engine = Engine::new(Some("https://example.com/s.mp3".to_string()));
    assert!(engine.needs_device(&Command::Play));
    let fx = engine.handle(Command::Play, true);
    assert_eq!(fx.len(), 2);
    assert!(is_status(&fx[0], PlaybackStatus::Buffering));
    assert!(matches!(fx[1], Effect::SpawnWorker(1)));
    assert!(engine.is_playing());
    assert_eq!(engine.generation(), 1);

    // Play while playing changes nothing.
    assert!(!engine.needs_device(&Command::Play));
    assert!(engine.handle(Command::Play, true).is_empty());

    let fx = engine.handle(Command::Pause, true);
    assert_eq!(fx.len(), 3);
    assert!(matches!(fx[0], Effect::ReleaseDevice));
    assert!(is_status(&fx[1], PlaybackStatus::Paused));
    assert!(is_title_cleared(&fx[2]));
    assert!(!engine.is_playing());
    assert_eq!(engine.generation(), 2);

    // Pause while paused changes nothing.
    assert!(engine.handle(Command::Pause, true).is_empty());
}

#[test]
fn play_without_url_reports_paused() {
    let mut engine = Engine::new(None);
    assert!(!engine.needs_device(&Command::Toggle));
    let fx = engine.handle(Command::Toggle, true);
    assert_eq!(fx.len(), 1);
    assert!(is_status(&fx[0], PlaybackStatus::Paused));
    assert!(!engine.is_playing());
    assert_eq!(engine.generation(), 0);
}

#[test]
fn missing_device_reports_error() {
    let mut engine = Engine::new(Some("http://x/".to_string()));
    let fx = engine.handle(Command::Play, false);
    assert_eq!(fx.len(), 1);
    assert!(is_status(&fx[0], PlaybackStatus::Error));
    assert!(!engine.is_playing());
    assert_eq!(engine.generation(), 0);
}

#[test]
fn new_url_restarts_a_running_session() {
    let mut engine = Engine::new(Some("http://a/".to_string()));
    engine.handle(Command::Toggle, true);
    let fx = engine.handle(Command::SetStreamUrl(Some("http://b/".to_string())), true);
    assert_eq!(fx.len(), 3);
    assert!(is_title_cleared(&fx[0]));
    assert!(is_status(&fx[1], PlaybackStatus::Buffering));
    assert!(matches!(fx[2], Effect::SpawnWorker(3)));
    assert_eq!(engine.stream_url().as_deref(), Some("http://b/"));

    let fx = engine.handle(Command::SetStreamUrl(None), true);
    assert_eq!(fx.len(), 3);
    assert!(is_title_cleared(&fx[0]));
    assert!(matches!(fx[1], Effect::ReleaseDevice));
    assert!(is_status(&fx[2], PlaybackStatus::Paused));
    assert!(!engine.is_playing());
    assert_eq!(engine.generation(), 4);
}

#[test]
fn new_url_while_paused_only_changes_the_url() {
    let mut engine = Engine::new(None);
    assert!(engine
        .handle(Command::SetStreamUrl(Some("http://c/".to_string())), true)
        .is_empty());
    assert_eq!(engine.stream_url().as_deref(), Some("http://c/"));
    assert!(!engine.is_playing());
}

#[test]
fn only_the_current_worker_failure_stops_playback() {
    let mut engine = Engine::new(Some("http://a/".to_string()));
    engine.handle(Command::Play, true);
    engine.handle(Command::Pause, true);
    engine.handle(Command::Play, true);
    assert_eq!(engine.generation(), 3);
    assert!(engine.handle(Command::WorkerFailed(1), true).is_empty());
    assert!(engine.is_playing());
    let fx = engine.handle(Command::WorkerFailed(3), true);
    assert_eq!(fx.len(), 3);
    assert!(matches!(fx[0], Effect::ReleaseDevice));
    assert!(is_title_cleared(&fx[1]));
    assert!(is_status(&fx[2], PlaybackStatus::Paused));
    assert!(!engine.is_playing());
}

#[test]
fn quit_retires_the_session() {
    let mut engine = Engine::new(Some("http://a/".to_string()));
    engine.handle(Command::Play, true);
    let fx = engine.handle(Command::Quit, true);
    assert_eq!(fx.len(), 1);
    assert!(matches!(fx[0], Effect::Shutdown));
    assert_eq!(engine.generation(), 2);
    assert!(!engine.is_playing());
}

#[test]
fn backoff_doubles_up_to_thirty_seconds() {
    let mut b = Backoff::new();
    let waits: Vec<u64> = (0..7).map(|_| b.after_error(false)).collect();
    assert_eq!(waits, vec![1000, 2000, 4000, 8000, 16000, 30000, 30000]);
    assert_eq!(b.after_error(true), 1000);
    assert_eq!(b.after_error(false), 2000);
    assert_eq!(b.after_clean_end(), 500);
    assert_eq!(b.after_error(false), 1000);
}

#[test]
fn metaint_header_parsing() {
    assert_eq!(parse_metaint(Some("16000")), 16000);
    assert_eq!(parse_metaint(Some("+8192")), 8192);
    assert_eq!(parse_metaint(Some(" 8192")), 0);
    assert_eq!(parse_metaint(Some("-1")), 0);
    assert_eq!(parse_metaint(Some("")), 0);
    assert_eq!(parse_metaint(Some("99999999999999999999999")), 0);
    assert_eq!(parse_metaint(None), 0);
}

#[test]
fn chunk_cursor_reads_in_pieces() {
    let mut c = ChunkCursor::new();
    assert!(c.is_drained());
    c.refill(b"abcde".to_vec());
    assert_eq!(c.read(2), b"ab");
    assert_eq!(c.read(10), b"cde");
    assert!(c.is_drained());
    assert_eq!(c.read(3), b"");
}

#[test]
fn worker_steps_after_sessions() {
    let mut b = Backoff::new();
    assert_eq!(
        b.next_step(SessionEnd::Failed { played: false }, true),
        WorkerStep::Retry { wait_ms: 1000, report_error: true }
    );
    assert_eq!(
        b.next_step(SessionEnd::Failed { played: false }, true),
        WorkerStep::Retry { wait_ms: 2000, report_error: true }
    );
    assert_eq!(
        b.next_step(SessionEnd::Failed { played: true }, true),
        WorkerStep::Retry { wait_ms: 1000, report_error: true }
    );
    assert_eq!(b.next_step(SessionEnd::Clean, false), WorkerStep::Stop);
    assert_eq!(
        b.next_step(SessionEnd::Clean, true),
        WorkerStep::Retry { wait_ms: 500, report_error: false }
    );
    assert_eq!(
        b.next_step(SessionEnd::Failed { played: false }, true),
        WorkerStep::Retry { wait_ms: 1000, report_error: true }
    );
}

#[test]
fn decode_loop_decisions() {
    assert_eq!(after_packet(PacketRead::Packet { ours: true }), DecodeStep::Decode);
    assert_eq!(after_packet(PacketRead::Packet { ours: false }), DecodeStep::Skip);
    assert_eq!(after_packet(PacketRead::EndOfStream), DecodeStep::Finish);
    assert_eq!(after_packet(PacketRead::ResetRequired), DecodeStep::Finish);
    assert_eq!(after_packet(PacketRead::Failed), DecodeStep::Fail);
    assert_eq!(after_decode(DecodeResult::Audio), DecodeStep::Append);
    assert_eq!(after_decode(DecodeResult::Corrupt), DecodeStep::Skip);
    assert_eq!(after_decode(DecodeResult::EndOfStream), DecodeStep::Finish);
    assert_eq!(after_decode(DecodeResult::Failed), DecodeStep::Fail);
    assert!(must_wait(33, true));
    assert!(!must_wait(32, true));
    assert!(!must_wait(100, false));
}

#[test]
fn decode_state_reports_first_audio_once() {
    let mut d = DecodeState::new(7);
    assert!(!d.played());
    assert_eq!(d.poll_volume(7), None);
    assert_eq!(d.poll_volume(9), Some(9));
    assert_eq!(d.poll_volume(9), None);
    assert!(d.on_appended());
    assert!(!d.on_appended());
    assert!(d.played());
}

#[test]
fn cursor_reads_concatenate_chunks() {
    let chunks: Vec<Vec<u8>> = vec![b"abc".to_vec(), b"d".to_vec(), b"efgh".to_vec()];
    let mut c = ChunkCursor::new();
    let mut queue = chunks.clone().into_iter();
    let mut out = Vec::new();
    for size in [2usize, 2, 1, 3, 5, 4] {
        if c.is_drained() {
            match queue.next() {
                Some(chunk) => c.refill(chunk),
                None => break,
            }
        }
        let got = c.read(size);
        assert!(got.len() <= size);
        out.extend(got);
    }
    assert_eq!(out, b"abcdefgh");
}
