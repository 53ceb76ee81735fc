use signalstream::playback::{
    PlaybackAction, PlaybackEvent, PlaybackState, PlaylistPlayer, FRAME_PAUSE_MS, FRAME_SIZE,
};
use signalstream::playlist::PlaylistSource;

fn player(tracks: &[&str]) -> PlaylistPlayer {
    PlaylistPlayer::from_tracks(tracks.iter().map(|s| s.to_string()).collect())
}

fn read() -> Option<PlaybackAction> {
    Some(PlaybackAction::ReadChunk { limit: FRAME_SIZE })
}

fn open(track: usize) -> Option<PlaybackAction> {
    Some(PlaybackAction::OpenTrack { track })
}

fn frame(bytes: &[u8]) -> Option<PlaybackAction> {
    Some(PlaybackAction::Broadcast { frame: bytes.to_vec(), pause_ms: FRAME_PAUSE_MS })
}

#[test]
fn frame_constants_are_as_documented() {
    assert_eq!(FRAME_SIZE, 4096);
    assert_eq!(FRAME_PAUSE_MS, 25);
}

#[test]
fn empty_playlist_stops_at_once() {
    let mut p = player(&[]);
    assert!(p.is_empty());
    assert_eq!(p.play(PlaybackEvent::Start), Some(PlaybackAction::Stop));
    assert_eq!(p.state(), PlaybackState::Idle);
    assert_eq!(p.play(PlaybackEvent::Opened), None);
}

#[test]
fn two_tracks_play_in_order_and_loop() {
    let mut p = player(&["a.mp3", "b.mp3"]);
    assert!(p.loop_enabled());
    assert_eq!(p.len(), 2);
    assert_eq!(p.play(PlaybackEvent::Start), open(0));
    assert_eq!(p.play(PlaybackEvent::Opened), read());
    assert_eq!(p.play(PlaybackEvent::Chunk(vec![1, 2])), frame(&[1, 2]));
    assert_eq!(p.state(), PlaybackState::Pausing { track: 0 });
    assert_eq!(p.play(PlaybackEvent::Paused), read());
    assert_eq!(p.play(PlaybackEvent::Chunk(vec![3])), frame(&[3]));
    assert_eq!(p.play(PlaybackEvent::Paused), read());
    assert_eq!(p.play(PlaybackEvent::EndOfFile), open(1));
    assert_eq!(p.play(PlaybackEvent::Opened), read());
    assert_eq!(p.play(PlaybackEvent::Chunk(vec![9])), frame(&[9]));
    assert_eq!(p.play(PlaybackEvent::Paused), read());
    assert_eq!(p.play(PlaybackEvent::EndOfFile), open(0));
    assert_eq!(p.state(), PlaybackState::Opening { track: 0 });
}

#[test]
fn without_looping_the_player_stops_after_the_last_track() {
    let mut p = player(&["a.mp3"]);
    p.set_loop_enabled(false);
    assert!(!p.loop_enabled());
    assert_eq!(p.play(PlaybackEvent::Start), open(0));
    assert_eq!(p.play(PlaybackEvent::Opened), read());
    assert_eq!(p.play(PlaybackEvent::EndOfFile), Some(PlaybackAction::Stop));
    assert_eq!(p.state(), PlaybackState::Idle);
    assert_eq!(p.play(PlaybackEvent::Start), open(0));
}

#[test]
fn a_track_that_cannot_be_opened_is_skipped() {
    let mut p = player(&["missing.mp3", "b.mp3"]);
    assert_eq!(p.play(PlaybackEvent::Start), open(0));
    assert_eq!(p.play(PlaybackEvent::OpenFailed), open(1));
    assert_eq!(p.play(PlaybackEvent::Opened), read());
}

#[test]
fn a_read_error_abandons_the_track() {
    let mut p = player(&["a.mp3", "b.mp3"]);
    p.play(PlaybackEvent::Start);
    p.play(PlaybackEvent::Opened);
    assert_eq!(p.play(PlaybackEvent::Chunk(vec![7; 10])), frame(&[7; 10]));
    assert_eq!(p.play(PlaybackEvent::Paused), read());
    assert_eq!(p.play(PlaybackEvent::ReadFailed), open(1));
}

#[test]
fn an_empty_chunk_ends_the_track() {
    let mut p = player(&["a.mp3", "b.mp3"]);
    p.play(PlaybackEvent::Start);
    p.play(PlaybackEvent::Opened);
    assert_eq!(p.play(PlaybackEvent::Chunk(Vec::new())), open(1));
}

#[test]
fn a_full_frame_is_taken_and_a_longer_one_is_not() {
    let mut p = player(&["a.mp3"]);
    p.play(PlaybackEvent::Start);
    p.play(PlaybackEvent::Opened);
    assert_eq!(p.play(PlaybackEvent::Chunk(vec![0; FRAME_SIZE + 1])), None);
    assert_eq!(p.state(), PlaybackState::Reading { track: 0 });
    assert_eq!(p.play(PlaybackEvent::Chunk(vec![5; FRAME_SIZE])), frame(&[5; FRAME_SIZE]));
}

#[test]
fn events_that_do_not_fit_change_nothing() {
    let mut p = player(&["a.mp3"]);
    assert_eq!(p.play(PlaybackEvent::Paused), None);
    assert_eq!(p.play(PlaybackEvent::EndOfFile), None);
    assert_eq!(p.state(), PlaybackState::Idle);
    p.play(PlaybackEvent::Start);
    assert_eq!(p.play(PlaybackEvent::Start), None);
    assert_eq!(p.play(PlaybackEvent::Chunk(vec![1])), None);
    assert_eq!(p.play(PlaybackEvent::Paused), None);
    assert_eq!(p.state(), PlaybackState::Opening { track: 0 });
    p.play(PlaybackEvent::Opened);
    assert_eq!(p.play(PlaybackEvent::Opened), None);
    assert_eq!(p.play(PlaybackEvent::OpenFailed), None);
    assert_eq!(p.state(), PlaybackState::Reading { track: 0 });
    p.play(PlaybackEvent::Chunk(vec![1]));
    assert_eq!(p.play(PlaybackEvent::EndOfFile), None);
    assert_eq!(p.play(PlaybackEvent::Chunk(vec![1])), None);
    assert_eq!(p.state(), PlaybackState::Pausing { track: 0 });
}

#[test]
fn a_single_looping_track_never_stops() {
    let mut p = player(&["only.mp3"]);
    p.play(PlaybackEvent::Start);
    for _ in 0..100 {
        assert_eq!(p.play(PlaybackEvent::Opened), read());
        assert_eq!(p.play(PlaybackEvent::Chunk(vec![1])), frame(&[1]));
        assert_eq!(p.play(PlaybackEvent::Paused), read());
        assert_eq!(p.play(PlaybackEvent::EndOfFile), open(0));
    }
}

#[test]
fn titles_are_the_file_names_of_the_tracks() {
    let p = player(&["/music/rock/01 intro.mp3", "b.mp3", "dir/"]);
    assert_eq!(p.track_title(0), Some("01 intro.mp3".to_string()));
    assert_eq!(p.track_path(0), Some("/music/rock/01 intro.mp3".to_string()));
    assert_eq!(p.track_title(1), Some("b.mp3".to_string()));
    assert_eq!(p.track_title(2), Some("dir".to_string()));
    assert_eq!(p.track_title(3), None);
    assert_eq!(p.track_path(3), None);
}

#[test]
fn load_takes_the_tracks_of_the_source() {
    let source = PlaylistSource::ListFile { text: "a.mp3\n# no\nb.mp3\n".to_string() };
    let p = PlaylistPlayer::load(&source);
    assert_eq!(p.len(), 2);
    assert!(p.loop_enabled());
    assert_eq!(p.state(), PlaybackState::Idle);
    assert_eq!(p.track_path(1), Some("b.mp3".to_string()));
    let empty = PlaylistPlayer::load(&PlaylistSource::Unavailable);
    assert!(empty.is_empty());
}

#[test]
fn play_file_answers_events_within_a_track() {
    let mut p = player(&["a.mp3"]);
    p.play(PlaybackEvent::Start);
    assert_eq!(p.play_file(PlaybackEvent::Opened), read());
    assert_eq!(p.play_file(PlaybackEvent::Start), None);
    assert_eq!(p.play_file(PlaybackEvent::EndOfFile), open(0));
}
