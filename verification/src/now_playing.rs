//! The title of the track that a station is playing.
//!
//! One writer, the playback loop, replaces the value as a whole; readers take
//! the value as a whole. A reader therefore sees either "nothing yet" or a
//! title that was written, never a mixture of two.

use vstd::prelude::*;

verus! {

/// What a reader is told while no track has been announced.
pub open spec fn nothing_playing() -> Seq<char> {
    "Nothing playing"@
}

/// The value of a cell after `title` is written to it: `title`, whatever the
/// cell held.
pub open spec fn written(cell: Option<Seq<char>>, title: Seq<char>) -> Option<Seq<char>> {
    Some(title)
}

/// The value that a reader finds after `writes`, applied in order to a cell
/// that held `initial`.
pub open spec fn after_writes(initial: Option<Seq<char>>, writes: Seq<Seq<char>>) -> Option<
    Seq<char>,
>
    decreases writes.len(),
{
    if writes.len() == 0 {
        initial
    } else {
        written(after_writes(initial, writes.drop_last()), writes.last())
    }
}

/// No torn reads: after any run of writes a reader finds the value the cell
/// began with, if nothing was written, and otherwise the title written last,
/// whole. It never finds a value that was not set.
pub proof fn lemma_reads_see_written_values(initial: Option<Seq<char>>, writes: Seq<Seq<char>>)
    ensures
        writes.len() == 0 ==> after_writes(initial, writes) == initial,
        writes.len() > 0 ==> after_writes(initial, writes) == Some(writes.last()),
        after_writes(initial, writes) == initial || exists|i: int|
            0 <= i < writes.len() && after_writes(initial, writes) == Some(#[trigger] writes[i]),
{
}

/// The now-playing cell of one station.
#[derive(Debug)]
pub struct NowPlaying {
    current: Option<String>,
}

impl View for NowPlaying {
    type V = Option<Seq<char>>;

    closed spec fn view(&self) -> Option<Seq<char>> {
        match self.current {
            Some(title) => Some(title@),
            None => None,
        }
    }
}

impl NowPlaying {
    /// A cell in which nothing has been announced.
    pub fn new() -> (cell: NowPlaying)
        ensures
            cell@ is None,
    {
        NowPlaying { current: None }
    }

    /// Replace the value by `title`.
    pub fn set(&mut self, title: String)
        ensures
            final(self)@ == written(old(self)@, title@),
    {
        self.current = Some(title);
    }

    /// The title announced last, if any.
    pub fn get(&self) -> (title: Option<String>)
        ensures
            match title {
                Some(t) => self@ == Some(t@),
                None => self@ is None,
            },
    {
        match &self.current {
            Some(title) => Some(title.clone()),
            None => None,
        }
    }

    /// The title announced last, or `Nothing playing` if there is none.
    pub fn describe(&self) -> (text: String)
        ensures
            text@ == match self@ {
                Some(title) => title,
                None => nothing_playing(),
            },
    {
        match &self.current {
            Some(title) => title.clone(),
            None => String::from_str("Nothing playing"),
        }
    }
}

} // verus!
