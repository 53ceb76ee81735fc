//! The decisions behind the HTTP surface: which station a request means,
//! what a stream request gets, and what a status request is answered with.
//!
//! The registry is built once, from the managers of all stations, and keeps
//! them for the life of the server. A stream request for `<id>.mp3` gets a
//! subscription to the hub of station `<id>`; the body of the response is
//! whatever that subscription yields, for as long as the client stays. A
//! request for a station that is not there changes nothing and is answered
//! "not found".

use crate::hub::Subscription;
use crate::now_playing::nothing_playing;
use crate::playback::{EventView, PlaybackEvent};
use crate::playlist::PlaylistSource;
use crate::route::{Command, RouterModel};
use crate::station::{StartPlan, StationManager};
use crate::text::{
    chars_of, ends_with, first_index, index_of_first, same_chars, slice_ends_with, string_of,
};
use vstd::slice::slice_subrange;
use vstd::prelude::*;

verus! {

/// What a request path asks for.
#[derive(Debug, PartialEq, Eq)]
pub enum Route {
    /// `/`: the landing page.
    Index,
    /// `/<file_name>`: the live stream that `file_name` means, if any.
    Stream { file_name: String },
    /// `/status/<id>`: the status of station `id`.
    Status { id: String },
    /// `/dash/<tail>`: a file that the packager wrote.
    Dash { tail: String },
    /// Anything else.
    NotFound,
}

/// `Route` with its strings as sequences.
pub enum RouteView {
    Index,
    Stream { file_name: Seq<char> },
    Status { id: Seq<char> },
    Dash { tail: Seq<char> },
    NotFound,
}

impl View for Route {
    type V = RouteView;

    open spec fn view(&self) -> RouteView {
        match self {
            Route::Index => RouteView::Index,
            Route::Stream { file_name } => RouteView::Stream { file_name: file_name@ },
            Route::Status { id } => RouteView::Status { id: id@ },
            Route::Dash { tail } => RouteView::Dash { tail: tail@ },
            Route::NotFound => RouteView::NotFound,
        }
    }
}

/// The first segment of `path`: what comes before its first `/`.
pub open spec fn first_segment(path: Seq<char>) -> Seq<char> {
    path.take(first_index(path, '/'))
}

/// What follows the first segment of `path` and the `/` behind it.
pub open spec fn after_first_segment(path: Seq<char>) -> Seq<char> {
    if 0 <= first_index(path, '/') < path.len() {
        path.skip(first_index(path, '/') + 1)
    } else {
        Seq::empty()
    }
}

/// What a request path asks for. The path is taken without its leading `/`
/// and cut into segments at each further `/`; one `/` at the very end does
/// not count.
///
/// * Nothing left: the landing page.
/// * One segment: a stream request for that segment. This comes first, so a
///   lone `dash` or `status` is a stream request too.
/// * `dash` and more: a packaged file.
/// * `status` and exactly one more segment: a status request.
/// * Anything else: not found.
pub open spec fn route_of(path: Seq<char>) -> RouteView {
    let tail = if path.len() > 0 && path[0] == '/' {
        path.skip(1)
    } else {
        path
    };
    let first = first_segment(tail);
    let rest = after_first_segment(tail);
    if tail.len() == 0 {
        RouteView::Index
    } else if first.len() > 0 && rest.len() == 0 {
        RouteView::Stream { file_name: first }
    } else if first == "dash"@ {
        RouteView::Dash { tail: rest }
    } else if first == "status"@ && first_segment(rest).len() > 0 && after_first_segment(
        rest,
    ).len() == 0 {
        RouteView::Status { id: first_segment(rest) }
    } else {
        RouteView::NotFound
    }
}

/// Decide what the request path `path` asks for.
pub fn route_request(path: &str) -> (route: Route)
    ensures
        route@ == route_of(path@),
{
    let chars = chars_of(path);
    let all = chars.as_slice();
    let tail = if all.len() > 0 && all[0] == '/' {
        slice_subrange(all, 1, all.len())
    } else {
        all
    };
    if tail.len() == 0 {
        return Route::Index;
    }
    let cut = index_of_first(tail, '/');
    let first = slice_subrange(tail, 0, cut);
    let rest = if cut < tail.len() {
        slice_subrange(tail, cut + 1, tail.len())
    } else {
        slice_subrange(tail, 0, 0)
    };
    if first.len() > 0 && rest.len() == 0 {
        return Route::Stream { file_name: string_of(first) };
    }
    let dash = chars_of("dash");
    if same_chars(first, dash.as_slice()) {
        return Route::Dash { tail: string_of(rest) };
    }
    let status = chars_of("status");
    if same_chars(first, status.as_slice()) {
        let cut = index_of_first(rest, '/');
        let second = slice_subrange(rest, 0, cut);
        let after_len = if cut < rest.len() {
            rest.len() - cut - 1
        } else {
            0
        };
        if second.len() > 0 && after_len == 0 {
            return Route::Status { id: string_of(second) };
        }
    }
    Route::NotFound
}

/// The content type of a stream response, as a sequence.
pub open spec fn stream_content_type() -> Seq<char> {
    "audio/mpeg"@
}

/// The content type of a stream response: `audio/mpeg`.
pub fn stream_media_type() -> (media_type: String)
    ensures
        media_type@ == stream_content_type(),
{
    String::from_str("audio/mpeg")
}

/// The suffix that a stream request carries behind the station's identifier.
pub open spec fn stream_suffix() -> Seq<char> {
    ".mp3"@
}

/// The station that `id` names among `stations`: the last one with that
/// identifier, if there is one. (Where two stations share an identifier the
/// later one is served.)
pub open spec fn lookup(stations: Seq<RouterModel>, id: Seq<char>) -> Option<int>
    decreases stations.len(),
{
    if stations.len() == 0 {
        None
    } else if stations.last().id == id {
        Some(stations.len() - 1)
    } else {
        lookup(stations.drop_last(), id)
    }
}

/// The station that a stream request for `file_name` means: the name has to
/// be a station's identifier followed by `.mp3`. Only that one suffix is
/// taken off, so `a.mp3.mp3` asks for the station `a.mp3`.
pub open spec fn stream_station(stations: Seq<RouterModel>, file_name: Seq<char>) -> Option<int> {
    if ends_with(file_name, stream_suffix()) {
        lookup(stations, file_name.take(file_name.len() - stream_suffix().len()))
    } else {
        None
    }
}

/// A station found by `lookup` is the last of the stations with the
/// identifier asked for, and none is found only if none has it.
pub proof fn lemma_lookup(stations: Seq<RouterModel>, id: Seq<char>)
    ensures
        match lookup(stations, id) {
            Some(i) => {
                &&& 0 <= i < stations.len()
                &&& stations[i].id == id
                &&& forall|j: int| i < j < stations.len() ==> stations[j].id != id
            },
            None => forall|i: int| 0 <= i < stations.len() ==> stations[i].id != id,
        },
    decreases stations.len(),
{
    if stations.len() > 0 && stations.last().id != id {
        let front = stations.drop_last();
        lemma_lookup(front, id);
        assert forall|i: int| 0 <= i < front.len() implies front[i] == stations[i] by {}
    }
}

/// The JSON string literal for `text`, as `serde_json` writes it: `text` in
/// double quotes, with the characters that JSON does not take as they are
/// written as escapes.
pub uninterp spec fn json_string(text: Seq<char>) -> Seq<char>;

/// The error of `serde_json`.
#[verifier::external_type_specification]
#[verifier::external_body]
pub struct ExJsonError(serde_json::Error);

/// `serde_json::to_string` on a string. It succeeds on every string, since
/// a string is written into a byte vector and neither step can fail, and
/// what it returns is a function of `text` alone, named `json_string`.
#[verifier::external_body]
fn encode_json_string(text: &str) -> (encoded: Result<String, serde_json::Error>)
    ensures
        encoded is Ok,
        encoded matches Ok(literal) ==> literal@ == json_string(text@),
{
    serde_json::to_string(text)
}

/// The status document made of two JSON string literals: an object with the
/// members `id` and `now_playing`, in that order, without white space.
pub open spec fn status_document(id_literal: Seq<char>, title_literal: Seq<char>) -> Seq<char> {
    "{\"id\":"@ + id_literal + ",\"now_playing\":"@ + title_literal + "}"@
}

/// What a status request is answered with.
#[derive(Debug, PartialEq, Eq)]
pub enum StatusReply {
    /// The station is there: `body` is its status document.
    Found { body: String },
    /// There is no such station.
    NotFound,
}

/// The status record of a station.
#[derive(Debug, PartialEq, Eq)]
pub struct StationStatus {
    /// The station's identifier.
    pub id: String,
    /// The title announced last, or `Nothing playing`.
    pub now_playing: String,
}

/// Put two JSON string literals together as a status document.
pub fn write_status_document(id_literal: &str, title_literal: &str) -> (body: String)
    ensures
        body@ == status_document(id_literal@, title_literal@),
{
    String::from_str("{\"id\":").concat(id_literal).concat(",\"now_playing\":").concat(
        title_literal,
    ).concat("}")
}

/// The status document of `status`: the JSON literals of its identifier and
/// of its title, put together.
pub fn encode_status(status: &StationStatus) -> (reply: StatusReply)
    ensures
        reply matches StatusReply::Found { body } && body@ == status_document(
            json_string(status.id@),
            json_string(status.now_playing@),
        ),
{
    let id = encode_json_string(status.id.as_str()).unwrap();
    let title = encode_json_string(status.now_playing.as_str()).unwrap();
    StatusReply::Found { body: write_status_document(id.as_str(), title.as_str()) }
}

/// An open stream: a subscription to the hub of one station.
#[derive(Clone, Copy, Debug, PartialEq, Eq, Structural)]
pub struct StreamHandle {
    /// The index of the station in the registry.
    pub station: usize,
    /// The subscription in that station's hub.
    pub subscription: Subscription,
}

/// What a stream request is answered with.
#[derive(Clone, Copy, Debug, PartialEq, Eq, Structural)]
pub enum StreamReply {
    /// The station is there: the body of the response is what the stream
    /// yields, with the content type `audio/mpeg`.
    Stream(StreamHandle),
    /// There is no such station.
    NotFound,
    /// The station is there but cannot take another subscription.
    Unavailable,
}

/// The stations of the server, by index and by identifier.
pub struct StationRegistry {
    stations: Vec<StationManager>,
}

impl View for StationRegistry {
    type V = Seq<RouterModel>;

    closed spec fn view(&self) -> Seq<RouterModel> {
        Seq::new(self.stations@.len(), |i: int| self.stations@[i].router@)
    }
}

/// The routers of `managers`, in order.
pub open spec fn routers(managers: Seq<StationManager>) -> Seq<RouterModel> {
    Seq::new(managers.len(), |i: int| managers[i].router@)
}

/// Whether every one of `managers` is well formed.
pub open spec fn all_wf(managers: Seq<StationManager>) -> bool {
    forall|i: int| 0 <= i < managers.len() ==> (#[trigger] managers[i]).wf()
}

impl StationRegistry {
    /// The representation invariant: every station is well formed.
    pub closed spec fn wf(&self) -> bool {
        all_wf(self.stations@)
    }

    /// In a well-formed registry every station has a well-formed state, so
    /// what is proved of `RouterModel` holds of each `self@[i]`.
    pub proof fn lemma_wf_state(&self)
        requires
            self.wf(),
        ensures
            forall|i: int| 0 <= i < self@.len() ==> (#[trigger] self@[i]).wf(),
            self@.len() <= usize::MAX,
    {
        assert forall|i: int| 0 <= i < self@.len() implies (#[trigger] self@[i]).wf() by {
            self.stations@[i].router.lemma_wf_state();
        }
        assert(self.stations.len() == self@.len());
    }

    /// The registry of `managers`, in their order.
    pub fn new(managers: Vec<StationManager>) -> (registry: StationRegistry)
        requires
            all_wf(managers@),
        ensures
            registry.wf(),
            registry@ == routers(managers@),
    {
        StationRegistry { stations: managers }
    }

    /// The number of stations.
    pub fn len(&self) -> (n: usize)
        ensures
            n == self@.len(),
    {
        self.stations.len()
    }

    /// Whether there is no station at all.
    pub fn is_empty(&self) -> (empty: bool)
        ensures
            empty == (self@.len() == 0),
    {
        self.stations.len() == 0
    }

    /// The index of the station that `id` names, if there is one.
    pub fn lookup(&self, id: &str) -> (found: Option<usize>)
        requires
            self.wf(),
        ensures
            match found {
                Some(i) => lookup(self@, id@) == Some(i as int),
                None => lookup(self@, id@) is None,
            },
    {
        let wanted = String::from_str(id);
        let mut i: usize = self.stations.len();
        assert(self@.take(i as int) =~= self@);
        while i > 0
            invariant
                i <= self.stations.len(),
                self.wf(),
                wanted@ == id@,
                lookup(self@, id@) == lookup(self@.take(i as int), id@),
            decreases i,
        {
            proof {
                self.stations@[i - 1].lemma_router_is_configured();
                assert(self@.take(i as int).drop_last() =~= self@.take(i - 1));
            }
            if self.stations[i - 1].config.id == wanted {
                return Some(i - 1);
            }
            i -= 1;
        }
        None
    }

    /// The identifier of station `station`, if there is such a station.
    pub fn station_id(&self, station: usize) -> (id: Option<String>)
        ensures
            match id {
                Some(text) => station < self@.len() && text@ == self@[station as int].id,
                None => station >= self@.len(),
            },
    {
        if station < self.stations.len() {
            Some(self.stations[station].router.id())
        } else {
            None
        }
    }

    /// The path that the playlist of station `station` comes from, if there
    /// is such a station.
    pub fn playlist_path(&self, station: usize) -> (path: Option<String>)
        ensures
            match path {
                Some(text) => station < self@.len() && text@ == self@[station as int].playlist_path,
                None => station >= self@.len(),
            },
    {
        if station < self.stations.len() {
            Some(self.stations[station].router.playlist_path())
        } else {
            None
        }
    }

    /// The status record of the station that `id` names, if there is one.
    pub fn status(&self, id: &str) -> (status: Option<StationStatus>)
        requires
            self.wf(),
        ensures
            match status {
                Some(record) => lookup(self@, id@) matches Some(i) && record.id@ == self@[i].id
                    && record.now_playing@ == match self@[i].now_playing {
                    Some(title) => title,
                    None => nothing_playing(),
                },
                None => lookup(self@, id@) is None,
            },
    {
        match self.lookup(id) {
            None => None,
            Some(i) => {
                proof {
                    lemma_lookup(self@, id@);
                }
                let router = &self.stations[i].router;
                Some(StationStatus { id: router.id(), now_playing: router.now_playing_text() })
            },
        }
    }

    /// Start station `station` on the playlist that `source` yields. Returns
    /// `None`, and changes nothing, if there is no such station.
    pub fn start(&mut self, station: usize, source: &PlaylistSource) -> (plan: Option<StartPlan>)
        requires
            old(self).wf(),
        ensures
            final(self).wf(),
            final(self)@.len() == old(self)@.len(),
            match plan {
                None => station >= old(self)@.len() && final(self)@ == old(self)@,
                Some(p) => {
                    &&& station < old(self)@.len()
                    &&& old(self)@[station as int].loaded(source.tracks()).advance(
                        EventView::Start,
                    ) == Some((final(self)@[station as int], p.playback@))
                    &&& p.packager.is_for(old(self)@[station as int].id)
                    &&& final(self)@ == old(self)@.update(
                        station as int,
                        final(self)@[station as int],
                    )
                },
            },
    {
        if station >= self.stations.len() {
            return None;
        }
        proof {
            self.stations@[station as int].lemma_router_is_configured();
        }
        let manager = &mut self.stations[station];
        let plan = manager.start(source);
        Some(plan)
    }

    /// Answer `event` on behalf of station `station`. Returns `None`, and
    /// changes nothing, if there is no such station or `event` is not an
    /// answer to what its player waits for.
    pub fn advance(&mut self, station: usize, event: PlaybackEvent) -> (command: Option<Command>)
        requires
            old(self).wf(),
        ensures
            final(self).wf(),
            final(self)@.len() == old(self)@.len(),
            match command {
                None => final(self)@ == old(self)@ && (station >= old(self)@.len() || old(
                    self,
                )@[station as int].advance(event@) is None),
                Some(c) => {
                    &&& station < old(self)@.len()
                    &&& old(self)@[station as int].advance(event@) == Some(
                        (final(self)@[station as int], c@),
                    )
                    &&& final(self)@ == old(self)@.update(
                        station as int,
                        final(self)@[station as int],
                    )
                },
            },
    {
        if station >= self.stations.len() {
            return None;
        }
        let manager = &mut self.stations[station];
        let command = manager.router.advance(event);
        command
    }

    /// Answer a stream request for `file_name`. If it means a station, the
    /// reply carries a new subscription to that station's hub, which will see
    /// the frames published from now on; otherwise nothing changes and the
    /// reply is `NotFound`.
    pub fn open_stream(&mut self, file_name: &str) -> (reply: StreamReply)
        requires
            old(self).wf(),
        ensures
            final(self).wf(),
            final(self)@.len() == old(self)@.len(),
            match stream_station(old(self)@, file_name@) {
                None => reply is NotFound && final(self)@ == old(self)@,
                Some(i) => if old(self)@[i].hub.next_id < u64::MAX {
                    &&& reply == StreamReply::Stream(
                        StreamHandle {
                            station: i as usize,
                            subscription: Subscription { id: old(self)@[i].hub.next_id as u64 },
                        },
                    )
                    &&& final(self)@ == old(self)@.update(
                        i,
                        RouterModel { hub: old(self)@[i].hub.subscribe(), ..old(self)@[i] },
                    )
                } else {
                    reply is Unavailable && final(self)@ == old(self)@
                },
            },
    {
        let name = chars_of(file_name);
        let suffix = chars_of(".mp3");
        if !slice_ends_with(name.as_slice(), suffix.as_slice()) {
            return StreamReply::NotFound;
        }
        let id = string_of(slice_subrange(name.as_slice(), 0, name.len() - suffix.len()));
        match self.lookup(id.as_str()) {
            None => StreamReply::NotFound,
            Some(station) => {
                proof {
                    lemma_lookup(self@, id@);
                }
                let manager = &mut self.stations[station];
                let subscription = manager.router.subscribe();
                match subscription {
                    Some(subscription) => {
                        StreamReply::Stream(StreamHandle { station, subscription })
                    },
                    None => {
                        StreamReply::Unavailable
                    },
                }
            },
        }
    }

    /// The next frame of an open stream, if one is waiting. Returns `None`,
    /// and changes nothing, when nothing waits or the stream is not open.
    pub fn next_frame(&mut self, stream: StreamHandle) -> (frame: Option<Vec<u8>>)
        requires
            old(self).wf(),
        ensures
            final(self).wf(),
            final(self)@.len() == old(self)@.len(),
            stream.station >= old(self)@.len() ==> frame is None && final(self)@ == old(self)@,
            stream.station < old(self)@.len() ==> {
                let before = old(self)@[stream.station as int];
                &&& final(self)@ == old(self)@.update(
                    stream.station as int,
                    RouterModel { hub: before.hub.poll(stream.subscription.id), ..before },
                )
                &&& match frame {
                    Some(f) => before.hub.next_frame(stream.subscription.id) == Some(f@),
                    None => before.hub.next_frame(stream.subscription.id) is None,
                }
            },
    {
        if stream.station >= self.stations.len() {
            return None;
        }
        let manager = &mut self.stations[stream.station];
        let frame = manager.router.poll(stream.subscription);
        frame
    }

    /// Close a stream: its subscription is dropped, and nothing else changes,
    /// neither for the station's player nor for the other subscriptions.
    /// Returns whether the stream was open.
    pub fn close_stream(&mut self, stream: StreamHandle) -> (was_open: bool)
        requires
            old(self).wf(),
        ensures
            final(self).wf(),
            final(self)@.len() == old(self)@.len(),
            stream.station >= old(self)@.len() ==> !was_open && final(self)@ == old(self)@,
            stream.station < old(self)@.len() ==> {
                let before = old(self)@[stream.station as int];
                &&& final(self)@ == old(self)@.update(
                    stream.station as int,
                    RouterModel { hub: before.hub.unsubscribe(stream.subscription.id), ..before },
                )
                &&& was_open == before.hub.is_live(stream.subscription.id)
            },
    {
        if stream.station >= self.stations.len() {
            return false;
        }
        let manager = &mut self.stations[stream.station];
        let was_open = manager.router.unsubscribe(stream.subscription);
        was_open
    }
}

/// Answer a status request for the station that `id` names: its status
/// document, which gives its identifier and the title it is playing (or
/// `Nothing playing`), or `NotFound` if there is no such station.
pub fn handle_status(id: &str, stations: &StationRegistry) -> (reply: StatusReply)
    requires
        stations.wf(),
    ensures
        match lookup(stations@, id@) {
            None => reply is NotFound,
            Some(i) => reply matches StatusReply::Found { body } && body@ == status_document(
                json_string(stations@[i].id),
                json_string(
                    match stations@[i].now_playing {
                        Some(title) => title,
                        None => nothing_playing(),
                    },
                ),
            ),
        },
{
    match stations.status(id) {
        None => StatusReply::NotFound,
        Some(status) => encode_status(&status),
    }
}

} // verus!
