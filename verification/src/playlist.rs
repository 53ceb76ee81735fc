//! Where a playlist comes from: a directory of audio files, or a list file
//! with one path per line.
//!
//! Nothing here reads the file system. The caller says what the path is
//! (`PathKind`), is told what to fetch (`SourcePlan`), and hands back what it
//! found (`PlaylistSource`).
//!
//! From a directory come the regular files with the audio extension; a
//! sub-directory is never a track, whatever its name.
//!
//! Order. Tracks from a directory keep the order in which the listing was
//! handed in; it is not sorted here. Tracks from a list file keep the order
//! of its lines.

use crate::text::{
    chars_of, first_index, has_extension, lemma_first_index, path_has_extension, string_of, trim,
    trim_slice,
};
use vstd::prelude::*;
use vstd::slice::slice_subrange;

verus! {

/// The extension of the audio files that a directory is searched for: `mp3`.
pub open spec fn audio_extension() -> Seq<char> {
    seq!['m', 'p', '3']
}

/// The extension of a list file: `m3u`.
pub open spec fn list_extension() -> Seq<char> {
    seq!['m', '3', 'u']
}

/// Whether `path` names an audio file, by its extension.
pub open spec fn is_audio_file(path: Seq<char>) -> bool {
    has_extension(path, audio_extension())
}

/// Whether `path` names a list file, by its extension.
pub open spec fn is_list_file(path: Seq<char>) -> bool {
    has_extension(path, list_extension())
}

/// Whether a directory entry is a track: a regular file whose path has the
/// audio extension. A sub-directory is none, whatever its name.
pub open spec fn is_track(entry: (Seq<char>, PathKind)) -> bool {
    entry.1 == PathKind::File && is_audio_file(entry.0)
}

/// The paths of the tracks among `entries`, in the order of `entries`.
pub open spec fn audio_files(entries: Seq<(Seq<char>, PathKind)>) -> Seq<Seq<char>>
    decreases entries.len(),
{
    if entries.len() == 0 {
        Seq::empty()
    } else if is_track(entries.last()) {
        audio_files(entries.drop_last()).push(entries.last().0)
    } else {
        audio_files(entries.drop_last())
    }
}

/// The tracks of a directory are exactly the paths of its entries that are
/// regular files with the audio extension: each track is the path of such an
/// entry, and the path of each such entry is a track.
pub proof fn lemma_audio_files_are_the_tracks(entries: Seq<(Seq<char>, PathKind)>)
    ensures
        forall|k: int|
            0 <= k < audio_files(entries).len() ==> is_audio_file(
                #[trigger] audio_files(entries)[k],
            ) && entries.contains((audio_files(entries)[k], PathKind::File)),
        forall|i: int|
            0 <= i < entries.len() && is_track(#[trigger] entries[i]) ==> audio_files(
                entries,
            ).contains(entries[i].0),
    decreases entries.len(),
{
    if entries.len() > 0 {
        let front = entries.drop_last();
        let kept = audio_files(entries);
        lemma_audio_files_are_the_tracks(front);
        assert forall|i: int| 0 <= i < entries.len() && is_track(
            #[trigger] entries[i],
        ) implies kept.contains(entries[i].0) by {
            if i < front.len() {
                let k = choose|k: int|
                    0 <= k < audio_files(front).len() && audio_files(front)[k] == front[i].0;
                assert(kept[k] == entries[i].0);
            } else {
                assert(kept[kept.len() - 1] == entries[i].0);
            }
        }
    }
}

/// The length of the first line of `text`: the number of characters before
/// its first line feed, or all of them if it has none.
pub open spec fn line_end(text: Seq<char>) -> int {
    first_index(text, '\n')
}

/// The track that one line of a list file names: the line without the
/// whitespace around it, unless that is empty or begins with `#`.
pub open spec fn line_entry(line: Seq<char>) -> Option<Seq<char>> {
    let path = trim(line);
    if path.len() == 0 || path.first() == '#' {
        None
    } else {
        Some(path)
    }
}

/// The tracks that the text of a list file names, line by line.
pub open spec fn list_entries(text: Seq<char>) -> Seq<Seq<char>>
    decreases text.len(),
{
    if text.len() == 0 {
        Seq::empty()
    } else {
        let end = line_end(text);
        let rest = if 0 <= end < text.len() {
            list_entries(text.skip(end + 1))
        } else {
            Seq::empty()
        };
        match line_entry(text.take(end)) {
            Some(path) => seq![path] + rest,
            None => rest,
        }
    }
}

/// What the file system says a playlist path is.
#[derive(Clone, Copy, Debug, PartialEq, Eq, Structural)]
pub enum PathKind {
    /// A directory.
    Directory,
    /// A regular file.
    File,
    /// Neither: missing, or something else.
    Other,
}

/// What to fetch for a playlist path.
#[derive(Clone, Copy, Debug, PartialEq, Eq, Structural)]
pub enum SourcePlan {
    /// List the directory.
    ListDirectory,
    /// Read the list file as text.
    ReadListFile,
    /// Nothing: the path yields no tracks.
    Nothing,
}

/// The plan for a path of the given kind: a directory is listed, a regular
/// file with the list extension is read, anything else yields nothing.
pub open spec fn source_plan(path: Seq<char>, kind: PathKind) -> SourcePlan {
    match kind {
        PathKind::Directory => SourcePlan::ListDirectory,
        PathKind::File => if is_list_file(path) {
            SourcePlan::ReadListFile
        } else {
            SourcePlan::Nothing
        },
        PathKind::Other => SourcePlan::Nothing,
    }
}

/// One entry of a directory listing.
#[derive(Debug, PartialEq, Eq)]
pub struct DirectoryEntry {
    /// The path of the entry.
    pub path: String,
    /// What the file system says the entry is.
    pub kind: PathKind,
}

/// The entries of a listing as pairs of path and kind.
pub open spec fn listing(entries: Seq<DirectoryEntry>) -> Seq<(Seq<char>, PathKind)> {
    Seq::new(entries.len(), |i: int| (entries[i].path@, entries[i].kind))
}

/// What was found at a playlist path.
#[derive(Debug, PartialEq, Eq)]
pub enum PlaylistSource {
    /// The entries of a directory, in listing order.
    Directory { entries: Vec<DirectoryEntry> },
    /// The text of a list file.
    ListFile { text: String },
    /// Nothing: the path was neither, or could not be read.
    Unavailable,
}

/// The views of the strings of `strings`.
pub open spec fn views(strings: Seq<String>) -> Seq<Seq<char>> {
    Seq::new(strings.len(), |i: int| strings[i]@)
}

impl PlaylistSource {
    /// The tracks that this source yields, in playing order.
    pub open spec fn tracks(self) -> Seq<Seq<char>> {
        match self {
            PlaylistSource::Directory { entries } => audio_files(listing(entries@)),
            PlaylistSource::ListFile { text } => list_entries(text@),
            PlaylistSource::Unavailable => Seq::empty(),
        }
    }

    /// Decide what to fetch for `path`, given what the file system says it
    /// is.
    pub fn plan(path: &str, kind: PathKind) -> (plan: SourcePlan)
        ensures
            plan == source_plan(path@, kind),
    {
        match kind {
            PathKind::Directory => SourcePlan::ListDirectory,
            PathKind::File => {
                let chars = chars_of(path);
                let ext = chars_of("m3u");
                proof {
                    reveal_strlit("m3u");
                    assert(ext@ =~= list_extension());
                }
                if path_has_extension(chars.as_slice(), ext.as_slice()) {
                    SourcePlan::ReadListFile
                } else {
                    SourcePlan::Nothing
                }
            },
            PathKind::Other => SourcePlan::Nothing,
        }
    }

    /// The tracks that this source yields, in playing order. An empty result
    /// is not an error here; the player stops on it.
    pub fn resolve(&self) -> (tracks: Vec<String>)
        ensures
            views(tracks@) == self.tracks(),
    {
        match self {
            PlaylistSource::Directory { entries } => select_audio_files(entries),
            PlaylistSource::ListFile { text } => parse_list(text.as_str()),
            PlaylistSource::Unavailable => {
                let tracks: Vec<String> = Vec::new();
                tracks
            },
        }
    }
}

/// The tracks of a directory listing: the paths of the entries that are
/// regular files with the audio extension, in the order of `entries`.
pub fn select_audio_files(entries: &Vec<DirectoryEntry>) -> (tracks: Vec<String>)
    ensures
        views(tracks@) == audio_files(listing(entries@)),
{
    let ext = chars_of("mp3");
    proof {
        reveal_strlit("mp3");
    }
    let ghost all = listing(entries@);
    let mut tracks: Vec<String> = Vec::new();
    let mut i: usize = 0;
    while i < entries.len()
        invariant
            i <= entries.len(),
            all == listing(entries@),
            ext@ == audio_extension(),
            views(tracks@) == audio_files(all.take(i as int)),
        decreases entries.len() - i,
    {
        let entry = &entries[i];
        proof {
            assert(all.take(i + 1).drop_last() =~= all.take(i as int));
        }
        if entry.kind == PathKind::File {
            let chars = chars_of(entry.path.as_str());
            if path_has_extension(chars.as_slice(), ext.as_slice()) {
                tracks.push(entry.path.clone());
            }
        }
        i += 1;
    }
    assert(all.take(entries.len() as int) =~= all);
    tracks
}

/// The tracks that the text of a list file names: each line without the
/// whitespace around it, leaving out empty lines and lines that begin with
/// `#`. Whether a path exists is not looked at.
pub fn parse_list(text: &str) -> (tracks: Vec<String>)
    ensures
        views(tracks@) == list_entries(text@),
{
    let chars = chars_of(text);
    let all = chars.as_slice();
    let mut tracks: Vec<String> = Vec::new();
    let mut start: usize = 0;
    assert(all@.skip(0) =~= all@);
    while start < all.len()
        invariant
            start <= all.len(),
            all@ == text@,
            list_entries(text@) == views(tracks@) + list_entries(all@.skip(start as int)),
        decreases all.len() - start,
    {
        let mut end: usize = start;
        while end < all.len() && all[end] != '\n'
            invariant
                start <= end <= all.len(),
                forall|i: int| start <= i < end ==> all@[i] != '\n',
            decreases all.len() - end,
        {
            end += 1;
        }
        let ghost rest = all@.skip(start as int);
        proof {
            lemma_first_index(rest, '\n', end - start);
            assert(rest.take(end - start) =~= all@.subrange(start as int, end as int));
            if end < all.len() {
                assert(rest.skip(end - start + 1) =~= all@.skip(end + 1));
            }
        }
        let line = slice_subrange(all, start, end);
        let path = trim_slice(line);
        if path.len() > 0 && path[0] != '#' {
            tracks.push(string_of(path));
        }
        if end < all.len() {
            start = end + 1;
        } else {
            start = end;
        }
    }
    tracks
}

} // verus!
