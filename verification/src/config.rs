//! The configuration record of one station.

use vstd::prelude::*;

verus! {

/// What is configured for one station. The record is taken as given: it is
/// decoded and checked before it gets here.
#[derive(Debug)]
pub struct StationConfig {
    /// The station's identifier: the key under which it is routed and looked
    /// up.
    pub id: String,
    /// The mount point.
    pub mount: String,
    /// Playlist paths; the first one is played.
    pub playlist: Vec<String>,
    /// What to fall back to.
    pub fallback: String,
    /// Whether live input is enabled.
    pub enable_live: bool,
}

impl StationConfig {
    /// Whether this record says what `other` says, field by field.
    pub open spec fn agrees(&self, other: &StationConfig) -> bool {
        &&& self.id@ == other.id@
        &&& self.mount@ == other.mount@
        &&& self.playlist@.len() == other.playlist@.len()
        &&& forall|i: int|
            0 <= i < self.playlist@.len() ==> self.playlist@[i]@ == other.playlist@[i]@
        &&& self.fallback@ == other.fallback@
        &&& self.enable_live == other.enable_live
    }

    /// A copy of this record.
    pub fn duplicate(&self) -> (copy: StationConfig)
        ensures
            copy.agrees(self),
    {
        let mut playlist: Vec<String> = Vec::new();
        let mut i: usize = 0;
        while i < self.playlist.len()
            invariant
                i <= self.playlist.len(),
                playlist@.len() == i,
                forall|j: int| 0 <= j < i ==> playlist@[j]@ == self.playlist@[j]@,
            decreases self.playlist.len() - i,
        {
            playlist.push(self.playlist[i].clone());
            i += 1;
        }
        StationConfig {
            id: self.id.clone(),
            mount: self.mount.clone(),
            playlist,
            fallback: self.fallback.clone(),
            enable_live: self.enable_live,
        }
    }

    /// The path that the station plays: the first playlist path, or the
    /// empty path if there is none.
    pub open spec fn playlist_path(&self) -> Seq<char> {
        if self.playlist@.len() > 0 {
            self.playlist@[0]@
        } else {
            Seq::empty()
        }
    }
}

} // verus!
