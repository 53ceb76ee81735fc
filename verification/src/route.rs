//! One station's session: its hub, its now-playing cell and its player,
//! moved forward together.
//!
//! The router turns the player's decisions into effects on the hub and on
//! the now-playing cell, and hands the caller only what needs the outside
//! world: open a file, read from it, wait. The title of a track is written to
//! the now-playing cell in the same step that asks for the track to be
//! opened, so a reader sees the title before any frame of that track reaches
//! a subscriber.

use crate::config::StationConfig;
use crate::hub::{
    lemma_publish_never_overflows, retained, retained_from, BroadcastHub, HubState, Subscription,
};
use crate::now_playing::{nothing_playing, NowPlaying};
use crate::playback::{
    track_title, ActionView, EventView, PlaybackAction, PlaybackEvent, PlaybackState,
    PlayerModel, PlaylistPlayer,
};
use crate::playlist::PlaylistSource;
use vstd::prelude::*;

verus! {

/// The number of frames that a subscription's queue holds.
pub const HUB_CAPACITY: usize = 32;

/// What the caller of a router is to do in the outside world.
#[derive(Debug, PartialEq, Eq)]
pub enum Command {
    /// Open the file at `path`.
    Open { path: String },
    /// Read at most `limit` bytes from the open file.
    Read { limit: usize },
    /// Wait `millis` milliseconds.
    Pause { millis: u64 },
    /// Stop: the station has nothing to play.
    Halt,
}

/// `Command` with its path as a sequence.
pub enum CommandView {
    Open { path: Seq<char> },
    Read { limit: usize },
    Pause { millis: u64 },
    Halt,
}

impl View for Command {
    type V = CommandView;

    open spec fn view(&self) -> CommandView {
        match self {
            Command::Open { path } => CommandView::Open { path: path@ },
            Command::Read { limit } => CommandView::Read { limit: *limit },
            Command::Pause { millis } => CommandView::Pause { millis: *millis },
            Command::Halt => CommandView::Halt,
        }
    }
}

/// The mathematical state of a router.
pub struct RouterModel {
    /// The station's identifier.
    pub id: Seq<char>,
    /// The path that the station's playlist comes from.
    pub playlist_path: Seq<char>,
    /// The player.
    pub player: PlayerModel,
    /// The hub.
    pub hub: HubState,
    /// The title announced last, if any.
    pub now_playing: Option<Seq<char>>,
}

impl RouterModel {
    /// While a track is being opened, read or paused, the title in the
    /// now-playing cell is the title of that track.
    pub open spec fn announced(self) -> bool {
        match self.player.state {
            PlaybackState::Idle => true,
            PlaybackState::Opening { track } => self.now_playing == Some(
                track_title(self.player.playlist[track as int]),
            ),
            PlaybackState::Reading { track } => self.now_playing == Some(
                track_title(self.player.playlist[track as int]),
            ),
            PlaybackState::Pausing { track } => self.now_playing == Some(
                track_title(self.player.playlist[track as int]),
            ),
        }
    }

    /// The parts are well formed and the current track is announced.
    pub open spec fn wf(self) -> bool {
        &&& self.player.wf()
        &&& self.hub.wf()
        &&& self.announced()
    }

    /// What `action` does to the router, and the command that is left for
    /// the caller: opening a track announces its title, a frame is published
    /// to the hub, reading and stopping touch nothing.
    pub open spec fn effect(self, action: ActionView) -> (RouterModel, CommandView) {
        match action {
            ActionView::OpenTrack { track } => (
                RouterModel {
                    now_playing: Some(track_title(self.player.playlist[track as int])),
                    ..self
                },
                CommandView::Open { path: self.player.playlist[track as int] },
            ),
            ActionView::ReadChunk { limit } => (self, CommandView::Read { limit }),
            ActionView::Broadcast { frame, pause_ms } => (
                RouterModel { hub: self.hub.publish(frame), ..self },
                CommandView::Pause { millis: pause_ms },
            ),
            ActionView::Stop => (self, CommandView::Halt),
        }
    }

    /// The router after its player has moved to `state` and the player's
    /// `action` has taken effect, and the command that is left for the
    /// caller.
    pub open spec fn apply(self, state: PlaybackState, action: ActionView) -> (
        RouterModel,
        CommandView,
    ) {
        RouterModel { player: self.player.at(state), ..self }.effect(action)
    }

    /// The transition function: the router and the command that answer
    /// `event`, or `None` when `event` is not an answer to what the player
    /// waits for.
    pub open spec fn advance(self, event: EventView) -> Option<(RouterModel, CommandView)> {
        match self.player.step(event) {
            None => None,
            Some((state, action)) => Some(self.apply(state, action)),
        }
    }

    /// The router with an idle, looping player for `playlist`.
    pub open spec fn loaded(self, playlist: Seq<Seq<char>>) -> RouterModel {
        RouterModel {
            player: PlayerModel { playlist, loop_enabled: true, state: PlaybackState::Idle },
            ..self
        }
    }
}

/// Announce before content: whenever a step publishes a frame, the title in
/// the now-playing cell is already that of the track the frame belongs to,
/// and every step keeps the router well formed.
pub proof fn lemma_title_precedes_frames(router: RouterModel, event: EventView)
    requires
        router.wf(),
    ensures
        router.advance(event) matches Some((next, command)) ==> {
            &&& next.wf()
            &&& (command is Pause ==> (router.player.state matches PlaybackState::Reading {
                track,
            } && router.now_playing == Some(track_title(router.player.playlist[track as int]))
                && next.now_playing == router.now_playing))
        },
{
    if let Some((_, ActionView::Broadcast { frame, .. })) = router.player.step(event) {
        lemma_publish_never_overflows(router.hub, frame);
    }
}

/// One station: configuration, hub, now-playing cell and player.
pub struct StreamRouter {
    config: StationConfig,
    hub: BroadcastHub,
    now_playing: NowPlaying,
    player: PlaylistPlayer,
}

impl View for StreamRouter {
    type V = RouterModel;

    closed spec fn view(&self) -> RouterModel {
        RouterModel {
            id: self.config.id@,
            playlist_path: self.config.playlist_path(),
            player: self.player@,
            hub: self.hub@,
            now_playing: self.now_playing@,
        }
    }
}

impl StreamRouter {
    /// The representation invariant.
    pub closed spec fn wf(&self) -> bool {
        &&& self.hub.wf()
        &&& self.player.wf()
        &&& self@.announced()
    }

    /// A well-formed router has a well-formed state, so what is proved of
    /// `RouterModel` holds of `self@`.
    pub proof fn lemma_wf_state(&self)
        requires
            self.wf(),
        ensures
            self@.wf(),
    {
        self.hub.lemma_wf_state();
        self.player.lemma_wf_state();
    }

    /// A router for the station that `config` describes: no subscriptions,
    /// nothing announced, nothing to play yet.
    pub fn new(config: StationConfig) -> (router: StreamRouter)
        ensures
            router.wf(),
            router.configuration() == config,
            router@.id == config.id@,
            router@.playlist_path == config.playlist_path(),
            router@.player == (PlayerModel {
                playlist: Seq::empty(),
                loop_enabled: true,
                state: PlaybackState::Idle,
            }),
            router@.hub == HubState::empty(HUB_CAPACITY as nat),
            router@.now_playing is None,
    {
        let player = PlaylistPlayer::load(&PlaylistSource::Unavailable);
        assert(retained(HUB_CAPACITY as nat) == HUB_CAPACITY) by {
            reveal_with_fuel(retained_from, 7);
        }
        StreamRouter {
            config,
            hub: BroadcastHub::new(HUB_CAPACITY),
            now_playing: NowPlaying::new(),
            player,
        }
    }

    /// The configuration that the router was made with.
    pub closed spec fn configuration(&self) -> StationConfig {
        self.config
    }

    /// The identifier and the playlist path of the router's state are those
    /// of its configuration.
    pub proof fn lemma_configuration(&self)
        ensures
            self@.id == self.configuration().id@,
            self@.playlist_path == self.configuration().playlist_path(),
    {
    }

    /// The station's configuration.
    pub fn config(&self) -> (config: &StationConfig)
        ensures
            *config == self.configuration(),
            config.id@ == self@.id,
            config.playlist_path() == self@.playlist_path,
    {
        &self.config
    }

    /// The station's identifier.
    pub fn id(&self) -> (id: String)
        ensures
            id@ == self@.id,
    {
        self.config.id.clone()
    }

    /// The path that the playlist comes from: the first playlist path of the
    /// configuration, or the empty path if it has none.
    pub fn playlist_path(&self) -> (path: String)
        ensures
            path@ == self@.playlist_path,
    {
        if self.config.playlist.len() > 0 {
            self.config.playlist[0].clone()
        } else {
            String::new()
        }
    }

    /// The title announced last, if any.
    pub fn now_playing(&self) -> (title: Option<String>)
        ensures
            match title {
                Some(t) => self@.now_playing == Some(t@),
                None => self@.now_playing is None,
            },
    {
        self.now_playing.get()
    }

    /// The title announced last, or `Nothing playing`.
    pub fn now_playing_text(&self) -> (text: String)
        ensures
            text@ == match self@.now_playing {
                Some(title) => title,
                None => nothing_playing(),
            },
    {
        self.now_playing.describe()
    }

    /// Where the player is in its loop.
    pub fn state(&self) -> (state: PlaybackState)
        ensures
            state == self@.player.state,
    {
        self.player.state()
    }

    fn perform(&mut self, action: PlaybackAction) -> (command: Command)
        requires
            old(self).hub.wf(),
            old(self).player.wf(),
            action@ matches ActionView::OpenTrack { track } ==> track < old(
                self,
            )@.player.playlist.len(),
        ensures
            final(self).hub.wf(),
            final(self).player.wf(),
            final(self).config == old(self).config,
            (final(self)@, command@) == old(self)@.effect(action@),
    {
        match action {
            PlaybackAction::OpenTrack { track } => {
                let title = self.player.track_title(track);
                let path = self.player.track_path(track);
                match (title, path) {
                    (Some(title), Some(path)) => {
                        self.now_playing.set(title);
                        Command::Open { path }
                    },
                    _ => Command::Halt,
                }
            },
            PlaybackAction::ReadChunk { limit } => Command::Read { limit },
            PlaybackAction::Broadcast { frame, pause_ms } => {
                let _ = self.hub.publish(frame.as_slice());
                Command::Pause { millis: pause_ms }
            },
            PlaybackAction::Stop => Command::Halt,
        }
    }

    /// Answer `event`: move the player, write the now-playing cell or publish
    /// a frame as the player decides, and return what is left for the caller
    /// to do. Returns `None`, and changes nothing, when `event` is not an
    /// answer to what the player waits for.
    pub fn advance(&mut self, event: PlaybackEvent) -> (command: Option<Command>)
        requires
            old(self).wf(),
        ensures
            final(self).wf(),
            final(self).configuration() == old(self).configuration(),
            match old(self)@.advance(event@) {
                Some((next, expected)) => {
                    &&& final(self)@ == next
                    &&& command matches Some(c)
                    &&& c@ == expected
                },
                None => final(self)@ == old(self)@ && command is None,
            },
    {
        match self.player.play(event) {
            None => None,
            Some(action) => Some(self.perform(action)),
        }
    }

    /// Take the playlist from `source` and begin: the player starts over,
    /// idle and looping, and is started. The command is `Open` for the first
    /// track, or `Halt` if the source yields no track.
    pub fn start(&mut self, source: &PlaylistSource) -> (command: Command)
        requires
            old(self).wf(),
        ensures
            final(self).wf(),
            final(self).configuration() == old(self).configuration(),
            old(self)@.loaded(source.tracks()).advance(EventView::Start) == Some(
                (final(self)@, command@),
            ),
    {
        self.player = PlaylistPlayer::load(source);
        match self.player.play(PlaybackEvent::Start) {
            Some(action) => self.perform(action),
            None => Command::Halt,
        }
    }

    /// Add a subscription to the station's hub. `None` only when the hub has
    /// handed out every identifier.
    pub fn subscribe(&mut self) -> (subscription: Option<Subscription>)
        requires
            old(self).wf(),
        ensures
            final(self).wf(),
            final(self).configuration() == old(self).configuration(),
            match subscription {
                Some(s) => {
                    &&& old(self)@.hub.next_id < u64::MAX
                    &&& s.id == old(self)@.hub.next_id
                    &&& final(self)@ == (RouterModel {
                        hub: old(self)@.hub.subscribe(),
                        ..old(self)@
                    })
                },
                None => old(self)@.hub.next_id == u64::MAX && final(self)@ == old(self)@,
            },
    {
        self.hub.subscribe()
    }

    /// Take the oldest frame waiting for `subscription`, if any.
    pub fn poll(&mut self, subscription: Subscription) -> (frame: Option<Vec<u8>>)
        requires
            old(self).wf(),
        ensures
            final(self).wf(),
            final(self).configuration() == old(self).configuration(),
            final(self)@ == (RouterModel {
                hub: old(self)@.hub.poll(subscription.id),
                ..old(self)@
            }),
            match frame {
                Some(f) => old(self)@.hub.next_frame(subscription.id) == Some(f@),
                None => old(self)@.hub.next_frame(subscription.id) is None,
            },
    {
        self.hub.poll(subscription)
    }

    /// Drop `subscription`. Returns whether it was live.
    pub fn unsubscribe(&mut self, subscription: Subscription) -> (was_live: bool)
        requires
            old(self).wf(),
        ensures
            final(self).wf(),
            final(self).configuration() == old(self).configuration(),
            final(self)@ == (RouterModel {
                hub: old(self)@.hub.unsubscribe(subscription.id),
                ..old(self)@
            }),
            was_live == old(self)@.hub.is_live(subscription.id),
    {
        self.hub.unsubscribe(subscription)
    }
}

} // verus!
