//! The tracks of the library.

use vstd::prelude::*;

verus! {

#[derive(Debug, PartialEq, Eq)]
pub struct Track {
    pub id: Option<i64>,
    pub title: String,
    pub artist: Option<String>,
    pub album: Option<String>,
    pub album_artist: Option<String>,
    pub track_number: Option<u32>,
    pub disc_number: Option<u32>,
    pub duration_ms: Option<u64>,
    pub sample_rate: Option<u32>,
    pub channel_count: Option<u32>,
    pub bit_depth: Option<u32>,
    pub path: String,
    pub modified_unix: i64,
    pub size_bytes: u64,
}

#[derive(Debug, Clone, Copy, PartialEq, Eq, Structural)]
pub struct FileFingerprint {
    pub modified_unix: i64,
    pub size_bytes: u64,
}

pub fn clone_text(value: &Option<String>) -> (r: Option<String>)
    ensures
        r == *value,
{
    match value {
        Some(text) => Some(text.clone()),
        None => None,
    }
}

impl Clone for Track {
    fn clone(&self) -> (r: Self)
        ensures
            r == *self,
    {
        Track {
            id: self.id,
            title: self.title.clone(),
            artist: clone_text(&self.artist),
            album: clone_text(&self.album),
            album_artist: clone_text(&self.album_artist),
            track_number: self.track_number,
            disc_number: self.disc_number,
            duration_ms: self.duration_ms,
            sample_rate: self.sample_rate,
            channel_count: self.channel_count,
            bit_depth: self.bit_depth,
            path: self.path.clone(),
            modified_unix: self.modified_unix,
            size_bytes: self.size_bytes,
        }
    }
}

/// The text inside, or `fallback`.
pub open spec fn text_or(value: Option<String>, fallback: Seq<char>) -> Seq<char> {
    match value {
        Some(text) => text@,
        None => fallback,
    }
}

pub fn text_or_default<'a>(value: &'a Option<String>, fallback: &'a str) -> (r: &'a str)
    ensures
        r@ == text_or(*value, fallback@),
{
    match value {
        Some(text) => text.as_str(),
        None => fallback,
    }
}

} // verus!
