//! The records that searches produce and that the player shows.
use vstd::prelude::*;

verus! {

/// A reply of the search service.
#[derive(Debug, Clone)]
pub struct SearchResponse {
    pub data: SearchData,
}

/// The body of a search reply.
#[derive(Debug, Clone)]
pub struct SearchData {
    pub items: Vec<Track>,
}

/// A playable track, as the results list shows it.
#[derive(Debug, Clone, PartialEq, Eq)]
pub struct Track {
    pub id: String,
    pub title: String,
    pub artist: Option<String>,
    pub album: Option<String>,
    pub year: Option<u16>,
    pub artwork: Option<String>,
}

/// An artist as the search service describes it.
#[derive(Debug, Clone)]
pub struct Artist {
    pub name: Option<String>,
}

/// An album as the search service describes it.
#[derive(Debug, Clone)]
pub struct Album {
    pub title: Option<String>,
    pub artwork: Option<String>,
}

/// The characters of an optional string.
pub open spec fn opt_view(o: Option<String>) -> Option<Seq<char>> {
    match o {
        Some(s) => Some(s@),
        None => None,
    }
}

/// A copy of an optional string.
pub fn copy_opt(o: &Option<String>) -> (r: Option<String>)
    ensures
        r == *o,
{
    match o {
        Some(s) => Some(s.clone()),
        None => None,
    }
}

impl Track {
    /// A copy of this track, field by field.
    pub fn copy(&self) -> (t: Track)
        ensures
            t == *self,
    {
        Track {
            id: self.id.clone(),
            title: self.title.clone(),
            artist: copy_opt(&self.artist),
            album: copy_opt(&self.album),
            year: self.year,
            artwork: copy_opt(&self.artwork),
        }
    }
}

} // verus!
