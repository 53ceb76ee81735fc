use signalstream::config::StationConfig;
use signalstream::playback::PlaybackState;
use signalstream::playlist::{DirectoryEntry, PathKind, PlaylistSource};
use signalstream::route::Command;
use signalstream::station::{load_all_stations, PackagerCommand, StationManager};

fn config(id: &str, playlist: &[&str]) -> StationConfig {
    StationConfig {
        id: id.to_string(),
        mount: format!("/{}", id),
        playlist: playlist.iter().map(|s| s.to_string()).collect(),
        fallback: String::new(),
        enable_live: false,
    }
}

#[test]
fn packager_command_is_exact() {
    let command = PackagerCommand::for_station("rock");
    assert_eq!(command.program, "ffmpeg");
    assert_eq!(command.output_dir, "public/dash/rock");
    assert_eq!(
        command.args,
        vec![
            "-i",
            "http://127.0.0.1:9090/rock.mp3",
            "-map",
            "0:a",
            "-c:a",
            "aac",
            "-f",
            "dash",
            "-seg_duration",
            "2",
            "-use_timeline",
            "1",
            "-use_template",
            "1",
            "public/dash/rock/manifest.mpd",
        ]
    );
}

#[test]
fn packager_directory_follows_path_joining() {
    assert_eq!(PackagerCommand::for_station("/srv/x").output_dir, "/srv/x");
    assert_eq!(PackagerCommand::for_station("").output_dir, "public/dash/");
    let joined = std::path::PathBuf::from("public").join("dash").join("a/b");
    assert_eq!(PackagerCommand::for_station("a/b").output_dir, joined.to_string_lossy());
    assert_eq!(
        PackagerCommand::for_station("/srv/x").args.last().unwrap(),
        "/srv/x/manifest.mpd"
    );
}

#[test]
fn config_copy_is_equal_field_by_field() {
    let c = config("jazz", &["lists/jazz.m3u", "more"]);
    let d = c.duplicate();
    assert_eq!(d.id, c.id);
    assert_eq!(d.mount, c.mount);
    assert_eq!(d.playlist, c.playlist);
    assert_eq!(d.fallback, c.fallback);
    assert_eq!(d.enable_live, c.enable_live);
}

#[test]
fn new_manager_is_not_started() {
    let manager = StationManager::new(config("jazz", &["lists/jazz.m3u"]));
    assert_eq!(manager.config.id, "jazz");
    assert_eq!(manager.router.id(), "jazz");
    assert_eq!(manager.router.playlist_path(), "lists/jazz.m3u");
    assert_eq!(manager.router.config().id, manager.config.id);
    assert_eq!(manager.router.config().mount, "/jazz");
    assert_eq!(manager.router.config().playlist, manager.config.playlist);
    assert_eq!(manager.router.config().fallback, manager.config.fallback);
    assert_eq!(manager.router.config().enable_live, manager.config.enable_live);
    assert_eq!(manager.router.now_playing(), None);
    assert_eq!(manager.router.state(), PlaybackState::Idle);
    assert_eq!(StationManager::new(config("x", &[])).router.playlist_path(), "");
}

#[test]
fn start_names_the_first_track_and_the_packager() {
    let mut manager = StationManager::new(config("jazz", &["music"]));
    let source = PlaylistSource::Directory {
        entries: vec![
            DirectoryEntry { path: "music/a.mp3".to_string(), kind: PathKind::File },
            DirectoryEntry { path: "music/b.mp3".to_string(), kind: PathKind::File },
        ],
    };
    let plan = manager.start(&source);
    assert_eq!(plan.playback, Command::Open { path: "music/a.mp3".to_string() });
    assert_eq!(plan.packager, PackagerCommand::for_station("jazz"));
    assert_eq!(manager.router.now_playing(), Some("a.mp3".to_string()));
    assert_eq!(manager.router.state(), PlaybackState::Opening { track: 0 });
}

#[test]
fn start_on_an_empty_playlist_halts() {
    let mut manager = StationManager::new(config("jazz", &["music"]));
    let plan = manager.start(&PlaylistSource::Directory { entries: Vec::new() });
    assert_eq!(plan.playback, Command::Halt);
    assert_eq!(plan.packager.output_dir, "public/dash/jazz");
    assert_eq!(manager.router.now_playing(), None);
    assert_eq!(manager.router.state(), PlaybackState::Idle);
}

#[test]
fn stations_that_could_not_be_loaded_are_left_out() {
    let entries = vec![
        Some(config("a", &[])),
        None,
        Some(config("b", &[])),
        None,
        Some(config("c", &[])),
    ];
    let managers = load_all_stations(entries);
    let ids: Vec<&str> = managers.iter().map(|m| m.config.id.as_str()).collect();
    assert_eq!(ids, vec!["a", "b", "c"]);
    assert!(load_all_stations(vec![None, None]).is_empty());
    assert!(StationManager::load_all(Vec::new()).is_empty());
    assert_eq!(StationManager::load_all(vec![Some(config("z", &[]))]).len(), 1);
}
