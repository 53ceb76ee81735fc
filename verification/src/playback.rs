//! The playback loop as a state machine.
//!
//! The player never touches a file or a clock. It is told what happened
//! (`PlaybackEvent`) and answers with what to do next (`PlaybackAction`); the
//! caller opens, reads and waits. Within a track the player alternates
//! between asking for a chunk and handing that chunk out as one frame; at the
//! end of a track, or when a track cannot be opened or read, it moves on to
//! the next one, and after the last one back to the first while looping is
//! enabled.
//!
//! The title of a track is announced with the action that opens it, that is,
//! before any frame of that track is handed out.

use crate::playlist::{views, PlaylistSource};
use crate::text::{chars_of, file_name, file_name_slice, string_of};
use vstd::prelude::*;

verus! {

/// The most bytes read from a track at once, and so the most bytes in a
/// frame.
pub const FRAME_SIZE: usize = 4096;

/// The pause after each frame, in milliseconds. It stands for the time that
/// `FRAME_SIZE` bytes take to play at the nominal bit rate; it is not derived
/// from the audio itself.
pub const FRAME_PAUSE_MS: u64 = 25;

/// Where the player is in its loop.
#[derive(Clone, Copy, Debug, PartialEq, Eq, Structural)]
pub enum PlaybackState {
    /// Not playing: before the start, or after the end of a playlist that is
    /// empty or does not loop.
    Idle,
    /// Waiting for track `track` to be opened.
    Opening { track: usize },
    /// Waiting for the next chunk of track `track`.
    Reading { track: usize },
    /// Waiting for the pause after a frame of track `track`.
    Pausing { track: usize },
}

/// What happened since the player's last action.
#[derive(Debug, PartialEq, Eq)]
pub enum PlaybackEvent {
    /// Playback is to begin.
    Start,
    /// The track was opened.
    Opened,
    /// The track could not be opened.
    OpenFailed,
    /// These bytes were read from the track.
    Chunk(Vec<u8>),
    /// The track has no more bytes.
    EndOfFile,
    /// Reading the track failed.
    ReadFailed,
    /// The frame was published and the pause is over.
    Paused,
}

/// What the player's caller is to do next.
#[derive(Debug, PartialEq, Eq)]
pub enum PlaybackAction {
    /// Announce the title of track `track` as now playing, then open it.
    OpenTrack { track: usize },
    /// Read at most `limit` bytes from the open track.
    ReadChunk { limit: usize },
    /// Publish `frame`, then wait `pause_ms` milliseconds.
    Broadcast { frame: Vec<u8>, pause_ms: u64 },
    /// Stop: there is nothing to play.
    Stop,
}

/// `PlaybackEvent` with its bytes as a sequence.
pub enum EventView {
    Start,
    Opened,
    OpenFailed,
    Chunk(Seq<u8>),
    EndOfFile,
    ReadFailed,
    Paused,
}

/// `PlaybackAction` with its bytes as a sequence.
pub enum ActionView {
    OpenTrack { track: usize },
    ReadChunk { limit: usize },
    Broadcast { frame: Seq<u8>, pause_ms: u64 },
    Stop,
}

impl View for PlaybackEvent {
    type V = EventView;

    open spec fn view(&self) -> EventView {
        match self {
            PlaybackEvent::Start => EventView::Start,
            PlaybackEvent::Opened => EventView::Opened,
            PlaybackEvent::OpenFailed => EventView::OpenFailed,
            PlaybackEvent::Chunk(bytes) => EventView::Chunk(bytes@),
            PlaybackEvent::EndOfFile => EventView::EndOfFile,
            PlaybackEvent::ReadFailed => EventView::ReadFailed,
            PlaybackEvent::Paused => EventView::Paused,
        }
    }
}

impl View for PlaybackAction {
    type V = ActionView;

    open spec fn view(&self) -> ActionView {
        match self {
            PlaybackAction::OpenTrack { track } => ActionView::OpenTrack { track: *track },
            PlaybackAction::ReadChunk { limit } => ActionView::ReadChunk { limit: *limit },
            PlaybackAction::Broadcast { frame, pause_ms } => ActionView::Broadcast {
                frame: frame@,
                pause_ms: *pause_ms,
            },
            PlaybackAction::Stop => ActionView::Stop,
        }
    }
}

/// The mathematical state of a player.
pub struct PlayerModel {
    /// The paths of the tracks, in playing order.
    pub playlist: Seq<Seq<char>>,
    /// Whether the first track follows the last one.
    pub loop_enabled: bool,
    /// Where the player is.
    pub state: PlaybackState,
}

impl PlayerModel {
    /// The track that the state refers to lies in the playlist.
    pub open spec fn wf(self) -> bool {
        match self.state {
            PlaybackState::Idle => true,
            PlaybackState::Opening { track } => track < self.playlist.len(),
            PlaybackState::Reading { track } => track < self.playlist.len(),
            PlaybackState::Pausing { track } => track < self.playlist.len(),
        }
    }

    /// This player in another state.
    pub open spec fn at(self, state: PlaybackState) -> PlayerModel {
        PlayerModel { state, ..self }
    }

    /// What follows track `track`: the state to enter and the action to take.
    pub open spec fn after_track(self, track: usize) -> (PlaybackState, ActionView) {
        if track + 1 < self.playlist.len() {
            let next = (track + 1) as usize;
            (PlaybackState::Opening { track: next }, ActionView::OpenTrack { track: next })
        } else if self.loop_enabled && self.playlist.len() > 0 {
            (PlaybackState::Opening { track: 0 }, ActionView::OpenTrack { track: 0 })
        } else {
            (PlaybackState::Idle, ActionView::Stop)
        }
    }

    /// The transition function: the state and the action that answer `event`,
    /// or `None` when `event` is not an answer to what the player waits for.
    pub open spec fn step(self, event: EventView) -> Option<(PlaybackState, ActionView)> {
        match (self.state, event) {
            (PlaybackState::Idle, EventView::Start) => if self.playlist.len() == 0 {
                Some((PlaybackState::Idle, ActionView::Stop))
            } else {
                Some((PlaybackState::Opening { track: 0 }, ActionView::OpenTrack { track: 0 }))
            },
            (PlaybackState::Opening { track }, EventView::Opened) => Some(
                (PlaybackState::Reading { track }, ActionView::ReadChunk { limit: FRAME_SIZE }),
            ),
            (PlaybackState::Opening { track }, EventView::OpenFailed) => Some(
                self.after_track(track),
            ),
            (PlaybackState::Reading { track }, EventView::Chunk(bytes)) => if bytes.len() == 0 {
                Some(self.after_track(track))
            } else if bytes.len() <= FRAME_SIZE {
                Some(
                    (
                        PlaybackState::Pausing { track },
                        ActionView::Broadcast { frame: bytes, pause_ms: FRAME_PAUSE_MS },
                    ),
                )
            } else {
                None
            },
            (PlaybackState::Reading { track }, EventView::EndOfFile) => Some(
                self.after_track(track),
            ),
            (PlaybackState::Reading { track }, EventView::ReadFailed) => Some(
                self.after_track(track),
            ),
            (PlaybackState::Pausing { track }, EventView::Paused) => Some(
                (PlaybackState::Reading { track }, ActionView::ReadChunk { limit: FRAME_SIZE }),
            ),
            _ => None,
        }
    }

    /// The player after `events`, one after the other, and the actions it
    /// answered with, or `None` if one of them did not fit.
    pub open spec fn run(self, events: Seq<EventView>) -> Option<(PlayerModel, Seq<ActionView>)>
        decreases events.len(),
    {
        if events.len() == 0 {
            Some((self, Seq::empty()))
        } else {
            match self.step(events.first()) {
                None => None,
                Some((state, action)) => match self.at(state).run(events.drop_first()) {
                    None => None,
                    Some((end, actions)) => Some((end, seq![action] + actions)),
                },
            }
        }
    }
}

/// The frames that `actions` hand out, in order.
pub open spec fn broadcasts(actions: Seq<ActionView>) -> Seq<Seq<u8>>
    decreases actions.len(),
{
    if actions.len() == 0 {
        Seq::empty()
    } else {
        match actions.first() {
            ActionView::Broadcast { frame, .. } => seq![frame] + broadcasts(
                actions.drop_first(),
            ),
            _ => broadcasts(actions.drop_first()),
        }
    }
}

/// Whether every chunk could have come from one read: not empty and not
/// longer than a frame.
pub open spec fn readable(chunks: Seq<Seq<u8>>) -> bool {
    forall|i: int| 0 <= i < chunks.len() ==> 0 < (#[trigger] chunks[i]).len() <= FRAME_SIZE
}

/// The events of reading `chunks` from an open track, each chunk followed by
/// the end of its pause.
pub open spec fn chunk_events(chunks: Seq<Seq<u8>>) -> Seq<EventView>
    decreases chunks.len(),
{
    if chunks.len() == 0 {
        Seq::empty()
    } else {
        seq![EventView::Chunk(chunks.first()), EventView::Paused] + chunk_events(
            chunks.drop_first(),
        )
    }
}

/// The events of playing one track that is read as `chunks`: it opens, the
/// chunks come, and the file ends.
pub open spec fn track_events(chunks: Seq<Seq<u8>>) -> Seq<EventView> {
    seq![EventView::Opened] + chunk_events(chunks) + seq![EventView::EndOfFile]
}

/// The events of playing several tracks, one after the other.
pub open spec fn playlist_events(tracks: Seq<Seq<Seq<u8>>>) -> Seq<EventView>
    decreases tracks.len(),
{
    if tracks.len() == 0 {
        Seq::empty()
    } else {
        track_events(tracks.first()) + playlist_events(tracks.drop_first())
    }
}

/// The chunks of several tracks, one track after the other.
pub open spec fn all_chunks(tracks: Seq<Seq<Seq<u8>>>) -> Seq<Seq<u8>>
    decreases tracks.len(),
{
    if tracks.len() == 0 {
        Seq::empty()
    } else {
        tracks.first() + all_chunks(tracks.drop_first())
    }
}

/// A run of one event is one step.
pub proof fn lemma_run_one(player: PlayerModel, event: EventView)
    ensures
        player.run(seq![event]) == match player.step(event) {
            None => None,
            Some((state, action)) => Some((player.at(state), seq![action])),
        },
{
    assert(seq![event].drop_first() =~= Seq::<EventView>::empty());
    if let Some((state, action)) = player.step(event) {
        let next = player.at(state);
        assert(next.run(Seq::<EventView>::empty()) == Some((next, Seq::<ActionView>::empty())));
    }
}

/// Running two runs of events one after the other is running their
/// concatenation.
pub proof fn lemma_run_concat(player: PlayerModel, first: Seq<EventView>, second: Seq<EventView>)
    ensures
        player.run(first + second) == match player.run(first) {
            None => None,
            Some((mid, head)) => match mid.run(second) {
                None => None,
                Some((end, tail)) => Some((end, head + tail)),
            },
        },
    decreases first.len(),
{
    if first.len() == 0 {
        assert(first + second =~= second);
        if let Some((_, tail)) = player.run(second) {
            assert(Seq::<ActionView>::empty() + tail =~= tail);
        }
    } else {
        assert((first + second).drop_first() =~= first.drop_first() + second);
        if let Some((state, action)) = player.step(first.first()) {
            let next = player.at(state);
            lemma_run_concat(next, first.drop_first(), second);
            if let Some((mid, head)) = next.run(first.drop_first()) {
                if let Some((_, tail)) = mid.run(second) {
                    assert(seq![action] + (head + tail) =~= (seq![action] + head) + tail);
                }
            }
        }
    }
}

/// The frames of two runs of actions are the frames of the first followed by
/// the frames of the second.
pub proof fn lemma_broadcasts_concat(first: Seq<ActionView>, second: Seq<ActionView>)
    ensures
        broadcasts(first + second) == broadcasts(first) + broadcasts(second),
    decreases first.len(),
{
    if first.len() > 0 {
        assert((first + second).drop_first() =~= first.drop_first() + second);
        lemma_broadcasts_concat(first.drop_first(), second);
    }
}

/// While a track is read, every chunk is handed out as one frame, unchanged
/// and in the order read, and the player stays with that track.
pub proof fn lemma_chunks_are_broadcast(player: PlayerModel, track: usize, chunks: Seq<Seq<u8>>)
    requires
        player.wf(),
        player.state == (PlaybackState::Reading { track }),
        readable(chunks),
    ensures
        player.run(chunk_events(chunks)) matches Some((end, actions)) && end == player
            && broadcasts(actions) == chunks,
    decreases chunks.len(),
{
    if chunks.len() > 0 {
        let chunk = chunks.first();
        let rest = chunks.drop_first();
        let round = seq![EventView::Chunk(chunk), EventView::Paused];
        let paused = player.at(PlaybackState::Pausing { track });
        let frame = ActionView::Broadcast { frame: chunk, pause_ms: FRAME_PAUSE_MS };
        let read = ActionView::ReadChunk { limit: FRAME_SIZE };
        lemma_run_one(player, EventView::Chunk(chunk));
        lemma_run_one(paused, EventView::Paused);
        lemma_run_concat(player, seq![EventView::Chunk(chunk)], seq![EventView::Paused]);
        assert(seq![EventView::Chunk(chunk)] + seq![EventView::Paused] =~= round);
        let answers = seq![frame] + seq![read];
        lemma_run_concat(player, round, chunk_events(rest));
        lemma_chunks_are_broadcast(player, track, rest);
        let tail = (player.run(chunk_events(rest))->0).1;
        lemma_broadcasts_concat(answers, tail);
        assert(broadcasts(answers) =~= seq![chunk]) by {
            reveal_with_fuel(broadcasts, 3);
        }
    }
}

/// One track: from the moment it is being opened until its file ends, the
/// frames handed out are exactly the chunks read, so put together they are
/// the bytes of the track; then the player turns to the track that follows.
pub proof fn lemma_track_is_reproduced(player: PlayerModel, track: usize, chunks: Seq<Seq<u8>>)
    requires
        player.wf(),
        player.state == (PlaybackState::Opening { track }),
        readable(chunks),
    ensures
        player.run(track_events(chunks)) matches Some((end, actions)) && end == player.at(
            player.after_track(track).0,
        ) && broadcasts(actions) == chunks && actions.len() > 0 && actions.last()
            == player.after_track(track).1,
{
    let reading = player.at(PlaybackState::Reading { track });
    let read = ActionView::ReadChunk { limit: FRAME_SIZE };
    let opened = seq![EventView::Opened];
    let ended = seq![EventView::EndOfFile];
    let follow = player.after_track(track);
    lemma_run_one(player, EventView::Opened);
    lemma_run_one(reading, EventView::EndOfFile);
    lemma_chunks_are_broadcast(reading, track, chunks);
    lemma_run_concat(reading, chunk_events(chunks), ended);
    lemma_run_concat(player, opened, chunk_events(chunks) + ended);
    assert(opened + (chunk_events(chunks) + ended) =~= track_events(chunks));
    let first = seq![read];
    let middle = (reading.run(chunk_events(chunks))->0).1;
    let last = seq![follow.1];
    lemma_broadcasts_concat(first, middle + last);
    lemma_broadcasts_concat(middle, last);
    assert(broadcasts(first) =~= Seq::<Seq<u8>>::empty()) by {
        reveal_with_fuel(broadcasts, 2);
    }
    assert(broadcasts(last) =~= Seq::<Seq<u8>>::empty()) by {
        reveal_with_fuel(broadcasts, 2);
    }
}

/// Several tracks in a row: played from track `first` on, the frames handed
/// out are the chunks of each track in playlist order, nothing added and
/// nothing left out, and the player then turns to what follows the last of
/// them. With looping enabled, a pass over the whole playlist leaves the
/// player exactly where it began, so the same holds of every further pass.
pub proof fn lemma_playlist_is_reproduced(
    player: PlayerModel,
    first: usize,
    tracks: Seq<Seq<Seq<u8>>>,
)
    requires
        player.wf(),
        player.state == (PlaybackState::Opening { track: first }),
        tracks.len() > 0,
        first + tracks.len() <= player.playlist.len() <= usize::MAX,
        forall|i: int| 0 <= i < tracks.len() ==> readable(#[trigger] tracks[i]),
    ensures
        player.run(playlist_events(tracks)) matches Some((end, actions)) && end == player.at(
            player.after_track((first + tracks.len() - 1) as usize).0,
        ) && broadcasts(actions) == all_chunks(tracks),
        first == 0 && tracks.len() == player.playlist.len() && player.loop_enabled ==> (player.run(
            playlist_events(tracks),
        )->0).0 == player,
    decreases tracks.len(),
{
    let head = tracks.first();
    let rest = tracks.drop_first();
    lemma_track_is_reproduced(player, first, head);
    lemma_run_concat(player, track_events(head), playlist_events(rest));
    let mid = player.at(player.after_track(first).0);
    let played = (player.run(track_events(head))->0).1;
    if rest.len() == 0 {
        assert(head + all_chunks(rest) =~= head);
    } else {
        let next = (first + 1) as usize;
        lemma_playlist_is_reproduced(mid, next, rest);
        let later = (mid.run(playlist_events(rest))->0).1;
        lemma_broadcasts_concat(played, later);
    }
}

/// The events of several passes over the whole playlist, one after the
/// other. Each pass says, track by track, how the track was read.
pub open spec fn rounds_events(rounds: Seq<Seq<Seq<Seq<u8>>>>) -> Seq<EventView>
    decreases rounds.len(),
{
    if rounds.len() == 0 {
        Seq::empty()
    } else {
        playlist_events(rounds.first()) + rounds_events(rounds.drop_first())
    }
}

/// The chunks of several passes, one pass after the other.
pub open spec fn rounds_chunks(rounds: Seq<Seq<Seq<Seq<u8>>>>) -> Seq<Seq<u8>>
    decreases rounds.len(),
{
    if rounds.len() == 0 {
        Seq::empty()
    } else {
        all_chunks(rounds.first()) + rounds_chunks(rounds.drop_first())
    }
}

/// Looping without end: a looping player at the start of a playlist that is
/// not empty plays any number of passes. In each pass the frames handed out
/// are the chunks of every track in playlist order, and after every pass the
/// player is where it began, ready for the next.
pub proof fn lemma_loop_repeats(player: PlayerModel, rounds: Seq<Seq<Seq<Seq<u8>>>>)
    requires
        player.wf(),
        player.loop_enabled,
        player.state == (PlaybackState::Opening { track: 0 }),
        0 < player.playlist.len() <= usize::MAX,
        forall|r: int|
            0 <= r < rounds.len() ==> (#[trigger] rounds[r]).len() == player.playlist.len(),
        forall|r: int, i: int|
            0 <= r < rounds.len() && 0 <= i < rounds[r].len() ==> readable(
                #[trigger] rounds[r][i],
            ),
    ensures
        player.run(rounds_events(rounds)) matches Some((end, actions)) && end == player
            && broadcasts(actions) == rounds_chunks(rounds),
    decreases rounds.len(),
{
    if rounds.len() > 0 {
        let pass = rounds.first();
        let rest = rounds.drop_first();
        lemma_playlist_is_reproduced(player, 0, pass);
        lemma_loop_repeats(player, rest);
        lemma_run_concat(player, playlist_events(pass), rounds_events(rest));
        let played = (player.run(playlist_events(pass))->0).1;
        let later = (player.run(rounds_events(rest))->0).1;
        lemma_broadcasts_concat(played, later);
    }
}

/// A looping player with something to play never comes to rest: whatever
/// happens while it plays, it does not become idle.
pub proof fn lemma_looping_never_stops(player: PlayerModel, event: EventView)
    requires
        player.wf(),
        player.loop_enabled,
        player.playlist.len() > 0,
        player.state != PlaybackState::Idle || event == EventView::Start,
    ensures
        player.step(event) matches Some((state, action)) ==> state != PlaybackState::Idle
            && action != ActionView::Stop && player.at(state).wf(),
{
}

/// The display name of a track: the last component of its path.
pub open spec fn track_title(path: Seq<char>) -> Seq<char> {
    file_name(path)
}

/// Plays a list of tracks, in order, as a sequence of decisions.
pub struct PlaylistPlayer {
    playlist: Vec<String>,
    loop_enabled: bool,
    state: PlaybackState,
}

impl View for PlaylistPlayer {
    type V = PlayerModel;

    closed spec fn view(&self) -> PlayerModel {
        PlayerModel {
            playlist: Seq::new(self.playlist@.len(), |i: int| self.playlist@[i]@),
            loop_enabled: self.loop_enabled,
            state: self.state,
        }
    }
}

impl PlaylistPlayer {
    /// The representation invariant: the track being played is in the
    /// playlist.
    pub closed spec fn wf(&self) -> bool {
        self@.wf()
    }

    /// A well-formed player has a well-formed state, and its playlist fits
    /// the machine, so what is proved of `PlayerModel` holds of `self@`.
    pub proof fn lemma_wf_state(&self)
        requires
            self.wf(),
        ensures
            self@.wf(),
            self@.playlist.len() <= usize::MAX,
    {
        assert(self.playlist.len() == self.playlist@.len());
    }

    /// An idle, looping player for `playlist`.
    pub fn from_tracks(playlist: Vec<String>) -> (player: PlaylistPlayer)
        ensures
            player.wf(),
            player@.playlist == views(playlist@),
            player@.loop_enabled,
            player@.state == PlaybackState::Idle,
    {
        PlaylistPlayer { playlist, loop_enabled: true, state: PlaybackState::Idle }
    }

    /// An idle, looping player for the tracks that `source` yields: the audio
    /// files of a directory in listing order, or the paths that a list file
    /// names. A source that yields nothing gives a player that stops as soon
    /// as it is started.
    pub fn load(source: &PlaylistSource) -> (player: PlaylistPlayer)
        ensures
            player.wf(),
            player@.playlist == source.tracks(),
            player@.loop_enabled,
            player@.state == PlaybackState::Idle,
    {
        let tracks = source.resolve();
        PlaylistPlayer::from_tracks(tracks)
    }

    /// Choose whether the first track follows the last one.
    pub fn set_loop_enabled(&mut self, enabled: bool)
        requires
            old(self).wf(),
        ensures
            final(self).wf(),
            final(self)@ == (PlayerModel { loop_enabled: enabled, ..old(self)@ }),
    {
        self.loop_enabled = enabled;
    }

    /// Whether the first track follows the last one.
    pub fn loop_enabled(&self) -> (enabled: bool)
        ensures
            enabled == self@.loop_enabled,
    {
        self.loop_enabled
    }

    /// Where the player is in its loop.
    pub fn state(&self) -> (state: PlaybackState)
        ensures
            state == self@.state,
    {
        self.state
    }

    /// The number of tracks.
    pub fn len(&self) -> (n: usize)
        ensures
            n == self@.playlist.len(),
    {
        self.playlist.len()
    }

    /// Whether there is no track to play.
    pub fn is_empty(&self) -> (empty: bool)
        ensures
            empty == (self@.playlist.len() == 0),
    {
        self.playlist.len() == 0
    }

    /// The path of track `track`, or `None` if there is no such track.
    pub fn track_path(&self, track: usize) -> (path: Option<String>)
        ensures
            match path {
                Some(p) => track < self@.playlist.len() && p@ == self@.playlist[track as int],
                None => track >= self@.playlist.len(),
            },
    {
        if track < self.playlist.len() {
            Some(self.playlist[track].clone())
        } else {
            None
        }
    }

    /// The display name of track `track`, or `None` if there is no such
    /// track.
    pub fn track_title(&self, track: usize) -> (title: Option<String>)
        ensures
            match title {
                Some(t) => track < self@.playlist.len() && t@ == track_title(
                    self@.playlist[track as int],
                ),
                None => track >= self@.playlist.len(),
            },
    {
        if track < self.playlist.len() {
            let chars = chars_of(self.playlist[track].as_str());
            Some(string_of(file_name_slice(chars.as_slice())))
        } else {
            None
        }
    }

    fn next_track(&mut self, track: usize) -> (action: PlaybackAction)
        requires
            old(self).wf(),
            track < old(self)@.playlist.len(),
        ensures
            final(self).wf(),
            final(self)@ == old(self)@.at(old(self)@.after_track(track).0),
            action@ == old(self)@.after_track(track).1,
    {
        assert(self.playlist.len() == self.playlist@.len());
        if track + 1 < self.playlist.len() {
            self.state = PlaybackState::Opening { track: track + 1 };
            PlaybackAction::OpenTrack { track: track + 1 }
        } else if self.loop_enabled {
            self.state = PlaybackState::Opening { track: 0 };
            PlaybackAction::OpenTrack { track: 0 }
        } else {
            self.state = PlaybackState::Idle;
            PlaybackAction::Stop
        }
    }

    /// Answer an event that arrives while a track is being played. Returns
    /// `None`, and changes nothing, when the player is idle or `event` is not
    /// an answer to what it waits for.
    pub fn play_file(&mut self, event: PlaybackEvent) -> (action: Option<PlaybackAction>)
        requires
            old(self).wf(),
            old(self)@.state != PlaybackState::Idle,
        ensures
            final(self).wf(),
            match old(self)@.step(event@) {
                Some((state, expected)) => {
                    &&& final(self)@ == old(self)@.at(state)
                    &&& action matches Some(a)
                    &&& a@ == expected
                },
                None => final(self)@ == old(self)@ && action is None,
            },
    {
        match self.state {
            PlaybackState::Idle => None,
            PlaybackState::Opening { track } => match event {
                PlaybackEvent::Opened => {
                    self.state = PlaybackState::Reading { track };
                    Some(PlaybackAction::ReadChunk { limit: FRAME_SIZE })
                },
                PlaybackEvent::OpenFailed => Some(self.next_track(track)),
                _ => None,
            },
            PlaybackState::Reading { track } => match event {
                PlaybackEvent::Chunk(bytes) => {
                    if bytes.len() == 0 {
                        Some(self.next_track(track))
                    } else if bytes.len() <= FRAME_SIZE {
                        self.state = PlaybackState::Pausing { track };
                        Some(PlaybackAction::Broadcast { frame: bytes, pause_ms: FRAME_PAUSE_MS })
                    } else {
                        None
                    }
                },
                PlaybackEvent::EndOfFile => Some(self.next_track(track)),
                PlaybackEvent::ReadFailed => Some(self.next_track(track)),
                _ => None,
            },
            PlaybackState::Pausing { track } => match event {
                PlaybackEvent::Paused => {
                    self.state = PlaybackState::Reading { track };
                    Some(PlaybackAction::ReadChunk { limit: FRAME_SIZE })
                },
                _ => None,
            },
        }
    }

    /// Answer `event` with the next action. Returns `None`, and changes
    /// nothing, when `event` is not an answer to what the player waits for.
    ///
    /// From `Idle`, `Start` begins with the first track, or stops at once if
    /// the playlist is empty.
    pub fn play(&mut self, event: PlaybackEvent) -> (action: Option<PlaybackAction>)
        requires
            old(self).wf(),
        ensures
            final(self).wf(),
            match old(self)@.step(event@) {
                Some((state, expected)) => {
                    &&& final(self)@ == old(self)@.at(state)
                    &&& action matches Some(a)
                    &&& a@ == expected
                },
                None => final(self)@ == old(self)@ && action is None,
            },
    {
        match self.state {
            PlaybackState::Idle => match event {
                PlaybackEvent::Start => {
                    if self.playlist.len() == 0 {
                        Some(PlaybackAction::Stop)
                    } else {
                        self.state = PlaybackState::Opening { track: 0 };
                        Some(PlaybackAction::OpenTrack { track: 0 })
                    }
                },
                _ => None,
            },
            _ => self.play_file(event),
        }
    }
}

} // verus!
