use signalstream::playlist::{
    parse_list, select_audio_files, DirectoryEntry, PathKind, PlaylistSource, SourcePlan,
};

fn strings(items: &[&str]) -> Vec<String> {
    items.iter().map(|s| s.to_string()).collect()
}

fn files(items: &[&str]) -> Vec<DirectoryEntry> {
    items.iter().map(|s| DirectoryEntry { path: s.to_string(), kind: PathKind::File }).collect()
}

#[test]
fn list_skips_blank_lines_and_comments() {
    let text = "#EXTM3U\n\n  a.mp3  \n# comment\n/music/b.mp3\r\n   \n\t#x\nc d.mp3";
    assert_eq!(parse_list(text), strings(&["a.mp3", "/music/b.mp3", "c d.mp3"]));
}

#[test]
fn list_agrees_with_line_by_line_reading() {
    for text in ["", "\n", "a", "a\n", "a\n\nb\n", " #a\nb#c\n", "\r\n x \r\n", "a\rb\nc"] {
        let expected: Vec<String> = text
            .lines()
            .map(|l| l.trim())
            .filter(|l| !l.is_empty() && !l.starts_with('#'))
            .map(|l| l.to_string())
            .collect();
        assert_eq!(parse_list(text), expected, "{:?}", text);
    }
}

#[test]
fn list_does_not_look_at_whether_paths_exist() {
    assert_eq!(parse_list("/no/such/file.mp3\n"), strings(&["/no/such/file.mp3"]));
}

#[test]
fn directory_keeps_audio_files_in_listing_order() {
    let entries = files(&["m/z.mp3", "m/readme.txt", "m/a.mp3", "m/.mp3", "m/b.MP3", "m/c.mp3"]);
    assert_eq!(select_audio_files(&entries), strings(&["m/z.mp3", "m/a.mp3", "m/c.mp3"]));
}

#[test]
fn directory_keeps_regular_files_only() {
    let entries = vec![
        DirectoryEntry { path: "m/a.mp3".to_string(), kind: PathKind::File },
        DirectoryEntry { path: "m/album.mp3".to_string(), kind: PathKind::Directory },
        DirectoryEntry { path: "m/socket.mp3".to_string(), kind: PathKind::Other },
        DirectoryEntry { path: "m/b.mp3".to_string(), kind: PathKind::File },
    ];
    assert_eq!(select_audio_files(&entries), strings(&["m/a.mp3", "m/b.mp3"]));
}

#[test]
fn empty_directory_yields_no_tracks() {
    assert_eq!(select_audio_files(&Vec::new()), Vec::<String>::new());
    let source = PlaylistSource::Directory { entries: Vec::new() };
    assert_eq!(source.resolve(), Vec::<String>::new());
}

#[test]
fn plan_follows_the_kind_of_path() {
    assert_eq!(PlaylistSource::plan("music", PathKind::Directory), SourcePlan::ListDirectory);
    assert_eq!(PlaylistSource::plan("music.m3u", PathKind::Directory), SourcePlan::ListDirectory);
    assert_eq!(PlaylistSource::plan("lists/rock.m3u", PathKind::File), SourcePlan::ReadListFile);
    assert_eq!(PlaylistSource::plan("lists/rock.mp3", PathKind::File), SourcePlan::Nothing);
    assert_eq!(PlaylistSource::plan(".m3u", PathKind::File), SourcePlan::Nothing);
    assert_eq!(PlaylistSource::plan("rock.m3u", PathKind::Other), SourcePlan::Nothing);
    assert_eq!(PlaylistSource::plan("", PathKind::Other), SourcePlan::Nothing);
}

#[test]
fn sources_resolve_to_their_tracks() {
    let dir = PlaylistSource::Directory { entries: files(&["d/a.mp3", "d/b.txt"]) };
    assert_eq!(dir.resolve(), strings(&["d/a.mp3"]));
    let list = PlaylistSource::ListFile { text: "x.mp3\n#y\nz.ogg\n".to_string() };
    assert_eq!(list.resolve(), strings(&["x.mp3", "z.ogg"]));
    assert_eq!(PlaylistSource::Unavailable.resolve(), Vec::<String>::new());
}
