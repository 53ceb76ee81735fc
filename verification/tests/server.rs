use signalstream::config::StationConfig;
use signalstream::hub::Subscription;
use signalstream::playback::PlaybackEvent;
use signalstream::playlist::PlaylistSource;
use signalstream::route::Command;
use signalstream::server::{
    encode_status, handle_status, route_request, stream_media_type, write_status_document, Route,
    StationRegistry, StationStatus, StatusReply, StreamHandle, StreamReply,
};
use signalstream::station::StationManager;

fn manager(id: &str) -> StationManager {
    StationManager::new(StationConfig {
        id: id.to_string(),
        mount: String::new(),
        playlist: vec![format!("{}.m3u", id)],
        fallback: String::new(),
        enable_live: false,
    })
}

fn registry(ids: &[&str]) -> StationRegistry {
    StationRegistry::new(ids.iter().map(|id| manager(id)).collect())
}

fn found(body: &str) -> StatusReply {
    StatusReply::Found { body: body.to_string() }
}

fn handle(station: usize, id: u64) -> StreamHandle {
    StreamHandle { station, subscription: Subscription { id } }
}

#[test]
fn routes_of_the_http_surface() {
    assert_eq!(route_request("/"), Route::Index);
    assert_eq!(route_request(""), Route::Index);
    assert_eq!(route_request("/rock.mp3"), Route::Stream { file_name: "rock.mp3".to_string() });
    assert_eq!(route_request("/rock.mp3/"), Route::Stream { file_name: "rock.mp3".to_string() });
    assert_eq!(route_request("/status/rock"), Route::Status { id: "rock".to_string() });
    assert_eq!(route_request("/status/rock/"), Route::Status { id: "rock".to_string() });
    assert_eq!(
        route_request("/dash/rock/manifest.mpd"),
        Route::Dash { tail: "rock/manifest.mpd".to_string() }
    );
}

#[test]
fn routes_at_the_edges() {
    assert_eq!(route_request("/status"), Route::Stream { file_name: "status".to_string() });
    assert_eq!(route_request("/dash"), Route::Stream { file_name: "dash".to_string() });
    assert_eq!(route_request("/dash/"), Route::Stream { file_name: "dash".to_string() });
    assert_eq!(route_request("/status/a/b"), Route::NotFound);
    assert_eq!(route_request("/status//"), Route::NotFound);
    assert_eq!(route_request("//rock.mp3"), Route::NotFound);
    assert_eq!(route_request("/rock.mp3//"), Route::NotFound);
    assert_eq!(route_request("/a/b"), Route::NotFound);
    assert_eq!(route_request("/dash//x"), Route::Dash { tail: "/x".to_string() });
    assert_eq!(route_request("rock.mp3"), Route::Stream { file_name: "rock.mp3".to_string() });
}

#[test]
fn lookup_finds_stations_by_identifier() {
    let r = registry(&["rock", "jazz"]);
    assert_eq!(r.len(), 2);
    assert!(!r.is_empty());
    assert_eq!(r.lookup("rock"), Some(0));
    assert_eq!(r.lookup("jazz"), Some(1));
    assert_eq!(r.lookup("Rock"), None);
    assert_eq!(r.lookup(""), None);
    assert_eq!(r.station_id(1), Some("jazz".to_string()));
    assert_eq!(r.station_id(2), None);
    assert!(registry(&[]).is_empty());
}

#[test]
fn later_station_wins_a_shared_identifier() {
    let r = registry(&["rock", "jazz", "rock"]);
    assert_eq!(r.lookup("rock"), Some(2));
}

#[test]
fn unknown_station_is_not_found_on_both_endpoints() {
    let mut r = registry(&["rock"]);
    assert_eq!(handle_status("pop", &r), StatusReply::NotFound);
    assert_eq!(r.status("pop"), None);
    assert_eq!(r.open_stream("pop.mp3"), StreamReply::NotFound);
    assert_eq!(r.open_stream("rock"), StreamReply::NotFound);
    assert_eq!(r.open_stream("rock.mp4"), StreamReply::NotFound);
    assert_eq!(r.open_stream(""), StreamReply::NotFound);
    // No subscription was created by any of these.
    assert_eq!(r.open_stream("rock.mp3"), StreamReply::Stream(handle(0, 0)));
}

#[test]
fn stream_request_subscribes_to_the_station() {
    let mut r = registry(&["rock", "jazz"]);
    assert_eq!(r.open_stream("jazz.mp3"), StreamReply::Stream(handle(1, 0)));
    assert_eq!(r.open_stream("jazz.mp3"), StreamReply::Stream(handle(1, 1)));
    assert_eq!(r.open_stream("rock.mp3.mp3"), StreamReply::NotFound);
    assert_eq!(r.open_stream("rock.mp3"), StreamReply::Stream(handle(0, 0)));
    assert_eq!(r.next_frame(handle(1, 0)), None);
    assert_eq!(r.next_frame(handle(9, 0)), None);
}

#[test]
fn repeated_suffix_names_another_station() {
    let mut r = registry(&["a", "a.mp3"]);
    assert_eq!(r.open_stream("a.mp3.mp3"), StreamReply::Stream(handle(1, 0)));
    assert_eq!(r.open_stream("a.mp3"), StreamReply::Stream(handle(0, 0)));
    let mut only_a = registry(&["a"]);
    assert_eq!(only_a.open_stream("a.mp3.mp3"), StreamReply::NotFound);
    assert_eq!(only_a.open_stream("a.mp3"), StreamReply::Stream(handle(0, 0)));
}

#[test]
fn station_with_empty_identifier_is_served_by_bare_suffix() {
    let mut r = registry(&[""]);
    assert_eq!(r.open_stream(".mp3"), StreamReply::Stream(handle(0, 0)));
}

#[test]
fn stream_carries_the_frames_of_its_station_only() {
    let mut r = registry(&["rock", "jazz"]);
    let rock = handle(0, 0);
    let jazz = handle(1, 0);
    assert_eq!(r.open_stream("rock.mp3"), StreamReply::Stream(rock));
    assert_eq!(r.open_stream("jazz.mp3"), StreamReply::Stream(jazz));
    let list = PlaylistSource::ListFile { text: "t/one.mp3\n".to_string() };
    let plan = r.start(0, &list).unwrap();
    assert_eq!(plan.playback, Command::Open { path: "t/one.mp3".to_string() });
    assert_eq!(plan.packager.output_dir, "public/dash/rock");
    assert!(r.start(5, &list).is_none());
    assert_eq!(r.advance(0, PlaybackEvent::Opened), Some(Command::Read { limit: 4096 }));
    assert_eq!(r.advance(0, PlaybackEvent::Chunk(vec![1, 2, 3])), Some(Command::Pause { millis: 25 }));
    assert_eq!(r.advance(1, PlaybackEvent::Opened), None);
    assert_eq!(r.advance(7, PlaybackEvent::Opened), None);
    assert_eq!(r.next_frame(jazz), None);
    assert_eq!(r.next_frame(rock), Some(vec![1, 2, 3]));
    assert_eq!(r.next_frame(rock), None);
}

#[test]
fn closing_one_stream_leaves_the_other() {
    let mut r = registry(&["rock"]);
    let first = handle(0, 0);
    let second = handle(0, 1);
    r.open_stream("rock.mp3");
    r.open_stream("rock.mp3");
    r.start(0, &PlaylistSource::ListFile { text: "a.mp3".to_string() });
    r.advance(0, PlaybackEvent::Opened);
    assert!(r.close_stream(first));
    assert!(!r.close_stream(first));
    assert!(!r.close_stream(handle(3, 0)));
    r.advance(0, PlaybackEvent::Chunk(vec![8]));
    assert_eq!(r.next_frame(first), None);
    assert_eq!(r.next_frame(second), Some(vec![8]));
}

#[test]
fn status_of_a_silent_station_says_nothing_playing() {
    let mut r = registry(&["rock"]);
    assert_eq!(handle_status("rock", &r), found("{\"id\":\"rock\",\"now_playing\":\"Nothing playing\"}"));
    r.start(0, &PlaylistSource::Directory { entries: Vec::new() });
    assert_eq!(handle_status("rock", &r), found("{\"id\":\"rock\",\"now_playing\":\"Nothing playing\"}"));
    assert_eq!(
        r.status("rock"),
        Some(StationStatus { id: "rock".to_string(), now_playing: "Nothing playing".to_string() })
    );
}

#[test]
fn status_names_the_track_being_played() {
    let mut r = registry(&["rock"]);
    r.start(0, &PlaylistSource::ListFile { text: "/m/first song.mp3\n".to_string() });
    assert_eq!(
        handle_status("rock", &r),
        found("{\"id\":\"rock\",\"now_playing\":\"first song.mp3\"}")
    );
}

#[test]
fn status_strings_are_escaped_as_json() {
    let status = StationStatus {
        id: "a\"b\\c".to_string(),
        now_playing: "tab\there\nnew \u{1}é".to_string(),
    };
    assert_eq!(
        encode_status(&status),
        found("{\"id\":\"a\\\"b\\\\c\",\"now_playing\":\"tab\\there\\nnew \\u0001é\"}")
    );
}

#[test]
fn status_document_is_put_together_from_literals() {
    assert_eq!(write_status_document("\"x\"", "\"y\""), "{\"id\":\"x\",\"now_playing\":\"y\"}");
    assert_eq!(write_status_document("1", "2"), "{\"id\":1,\"now_playing\":2}");
}

#[test]
fn streams_are_served_as_mpeg_audio() {
    assert_eq!(stream_media_type(), "audio/mpeg");
}
