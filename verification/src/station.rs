//! A station as the server runs it: its configuration, its router, and the
//! command line of the packager that repackages its stream.
//!
//! Starting a station is two things for the caller to do: carry out the first
//! playback command, and launch the packager on the station's own stream
//! endpoint. Nothing is launched here; `start` says what to launch.

use crate::config::StationConfig;
use crate::hub::HubState;
use crate::playback::{EventView, PlaybackState};
use crate::playlist::PlaylistSource;
use crate::route::{Command, RouterModel, StreamRouter, HUB_CAPACITY};
use crate::text::chars_of;
use vstd::prelude::*;

verus! {

/// The directory that the packager of station `id` writes to: `id` under
/// `public/dash/`, or `id` itself when it begins with `/`.
pub open spec fn output_dir(id: Seq<char>) -> Seq<char> {
    if id.len() > 0 && id[0] == '/' {
        id
    } else {
        "public/dash/"@ + id
    }
}

/// The address of the live stream of station `id`.
pub open spec fn stream_url(id: Seq<char>) -> Seq<char> {
    "http://127.0.0.1:9090/"@ + id + ".mp3"@
}

/// The manifest that the packager of station `id` writes.
pub open spec fn manifest_path(id: Seq<char>) -> Seq<char> {
    output_dir(id) + "/manifest.mpd"@
}

/// The arguments of the packager of station `id`: read the station's live
/// stream, take its audio, encode it as AAC and write it as DASH in segments
/// of two seconds.
pub open spec fn packager_args(id: Seq<char>) -> Seq<Seq<char>> {
    seq![
        "-i"@,
        stream_url(id),
        "-map"@,
        "0:a"@,
        "-c:a"@,
        "aac"@,
        "-f"@,
        "dash"@,
        "-seg_duration"@,
        "2"@,
        "-use_timeline"@,
        "1"@,
        "-use_template"@,
        "1"@,
        manifest_path(id),
    ]
}

/// How to launch the packager of a station.
#[derive(Debug, PartialEq, Eq)]
pub struct PackagerCommand {
    /// The directory to create before the launch.
    pub output_dir: String,
    /// The program to run.
    pub program: String,
    /// Its arguments.
    pub args: Vec<String>,
}

impl PackagerCommand {
    /// Whether this is the launch of the packager of station `id`.
    pub open spec fn is_for(&self, id: Seq<char>) -> bool {
        &&& self.output_dir@ == output_dir(id)
        &&& self.program@ == "ffmpeg"@
        &&& self.args@.len() == packager_args(id).len()
        &&& forall|i: int| 0 <= i < self.args@.len() ==> self.args@[i]@ == packager_args(id)[i]
    }

    /// The launch of the packager of station `id`.
    pub fn for_station(id: &str) -> (command: PackagerCommand)
        ensures
            command.is_for(id@),
    {
        let chars = chars_of(id);
        let dir = if chars.len() > 0 && chars[0] == '/' {
            String::from_str(id)
        } else {
            String::from_str("public/dash/").concat(id)
        };
        let url = String::from_str("http://127.0.0.1:9090/").concat(id).concat(".mp3");
        let manifest = dir.clone().concat("/manifest.mpd");
        let mut args: Vec<String> = Vec::new();
        args.push(String::from_str("-i"));
        args.push(url);
        args.push(String::from_str("-map"));
        args.push(String::from_str("0:a"));
        args.push(String::from_str("-c:a"));
        args.push(String::from_str("aac"));
        args.push(String::from_str("-f"));
        args.push(String::from_str("dash"));
        args.push(String::from_str("-seg_duration"));
        args.push(String::from_str("2"));
        args.push(String::from_str("-use_timeline"));
        args.push(String::from_str("1"));
        args.push(String::from_str("-use_template"));
        args.push(String::from_str("1"));
        args.push(manifest);
        PackagerCommand { output_dir: dir, program: String::from_str("ffmpeg"), args }
    }
}

/// What the caller is to do to start a station.
#[derive(Debug, PartialEq, Eq)]
pub struct StartPlan {
    /// The first playback command.
    pub playback: Command,
    /// The packager to launch. If it cannot be launched the station streams
    /// all the same.
    pub packager: PackagerCommand,
}

/// One configured station.
pub struct StationManager {
    /// The station's configuration.
    pub config: StationConfig,
    /// The station's router.
    pub router: StreamRouter,
}

impl StationManager {
    /// The router is well formed and was made with a configuration that
    /// agrees with the manager's, field by field.
    pub open spec fn wf(&self) -> bool {
        &&& self.router.wf()
        &&& self.router.configuration().agrees(&self.config)
    }

    /// The router of a well-formed manager bears the identifier and the
    /// playlist path of the manager's configuration.
    pub proof fn lemma_router_is_configured(&self)
        requires
            self.wf(),
        ensures
            self.router@.id == self.config.id@,
            self.router@.playlist_path == self.config.playlist_path(),
    {
        self.router.lemma_configuration();
    }

    /// The manager of the station that `config` describes, not yet started.
    /// The manager keeps `config`, and its router is made with a copy that
    /// agrees with it in every field.
    pub fn new(config: StationConfig) -> (manager: StationManager)
        ensures
            manager.wf(),
            manager.config == config,
            manager.router.configuration().agrees(&config),
            is_fresh(manager.router@),
    {
        let copy = config.duplicate();
        let router = StreamRouter::new(copy);
        StationManager { config, router }
    }

    /// Start the station on the playlist that `source` yields: the router
    /// begins to play, and the plan names the first playback command and the
    /// packager to launch on the station's stream.
    pub fn start(&mut self, source: &PlaylistSource) -> (plan: StartPlan)
        requires
            old(self).wf(),
        ensures
            final(self).wf(),
            final(self).config == old(self).config,
            old(self).router@.loaded(source.tracks()).advance(EventView::Start) == Some(
                (final(self).router@, plan.playback@),
            ),
            plan.packager.is_for(old(self).config.id@),
    {
        let playback = self.router.start(source);
        let packager = PackagerCommand::for_station(self.config.id.as_str());
        StartPlan { playback, packager }
    }

    /// The managers of the stations whose configuration could be loaded, in
    /// the order of `entries`.
    pub fn load_all(entries: Vec<Option<StationConfig>>) -> (managers: Vec<StationManager>)
        ensures
            managers@.len() == loaded(entries@).len(),
            forall|i: int|
                0 <= i < managers@.len() ==> (#[trigger] managers@[i]).wf() && managers@[i].config
                    == loaded(entries@)[i] && is_fresh(managers@[i].router@),
    {
        load_all_stations(entries)
    }
}

/// The configurations among `entries` that could be loaded, in order. An
/// entry is `None` where a station file could not be read or decoded; such a
/// station is left out and the others go on.
pub open spec fn loaded(entries: Seq<Option<StationConfig>>) -> Seq<StationConfig>
    decreases entries.len(),
{
    if entries.len() == 0 {
        Seq::empty()
    } else {
        match entries.last() {
            Some(config) => loaded(entries.drop_last()).push(config),
            None => loaded(entries.drop_last()),
        }
    }
}

/// Whether a router has not been started: no subscription, nothing announced,
/// nothing to play.
pub open spec fn is_fresh(router: RouterModel) -> bool {
    &&& router.hub == HubState::empty(HUB_CAPACITY as nat)
    &&& router.now_playing is None
    &&& router.player.playlist.len() == 0
    &&& router.player.state == PlaybackState::Idle
}

/// The managers of the stations whose configuration could be loaded, in the
/// order of `entries`, none of them started.
pub fn load_all_stations(entries: Vec<Option<StationConfig>>) -> (managers: Vec<StationManager>)
    ensures
        managers@.len() == loaded(entries@).len(),
        forall|i: int|
            0 <= i < managers@.len() ==> (#[trigger] managers@[i]).wf() && managers@[i].config
                == loaded(entries@)[i] && is_fresh(managers@[i].router@),
{
    let mut managers: Vec<StationManager> = Vec::new();
    let ghost all = entries@;
    let mut entries = entries;
    let mut rest: Vec<Option<StationConfig>> = Vec::new();
    // Turn the list round so that entries can be taken from its end in order.
    while entries.len() > 0
        invariant
            entries@.len() + rest@.len() == all.len(),
            forall|i: int| 0 <= i < entries@.len() ==> entries@[i] == all[i],
            forall|i: int| 0 <= i < rest@.len() ==> rest@[i] == all[all.len() - 1 - i],
        decreases entries.len(),
    {
        let last = entries.pop();
        match last {
            Some(entry) => rest.push(entry),
            None => {},
        }
    }
    let ghost mut done: int = 0;
    while rest.len() > 0
        invariant
            0 <= done <= all.len(),
            rest@.len() == all.len() - done,
            forall|i: int| 0 <= i < rest@.len() ==> rest@[i] == all[all.len() - 1 - i],
            managers@.len() == loaded(all.take(done)).len(),
            forall|i: int|
                0 <= i < managers@.len() ==> (#[trigger] managers@[i]).wf() && managers@[i].config
                    == loaded(all.take(done))[i] && is_fresh(managers@[i].router@),
        decreases rest.len(),
    {
        let next = rest.pop();
        proof {
            assert(all.take(done + 1).drop_last() =~= all.take(done));
        }
        match next {
            Some(Some(config)) => {
                let manager = StationManager::new(config);
                managers.push(manager);
            },
            _ => {},
        }
        proof {
            done = done + 1;
        }
    }
    assert(all.take(all.len() as int) =~= all);
    managers
}

} // verus!
