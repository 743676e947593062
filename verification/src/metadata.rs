//! Tracks from what a file and its tags say.

use crate::app;
use crate::error::EchoError;
use crate::library::Track;
use crate::paths;
use crate::text;
use vstd::prelude::*;

verus! {

/// What the tags and the audio properties of a file say.
#[derive(Debug, PartialEq, Eq)]
pub struct TagInfo {
    pub title: Option<String>,
    pub artist: Option<String>,
    pub album: Option<String>,
    pub album_artist: Option<String>,
    pub track_number: Option<u32>,
    pub disc_number: Option<u32>,
    /// Zero where it is not known.
    pub duration_ms: u64,
    pub sample_rate: Option<u32>,
    pub channels: Option<u8>,
    pub bit_depth: Option<u8>,
}

/// What the file system says of a file.
#[derive(Debug, PartialEq, Eq)]
pub struct FileFacts {
    /// Seconds since the Unix epoch, or why they cannot be had.
    pub modified_secs: Result<u64, String>,
    pub size_bytes: u64,
}

/// A text that is not blank, trimmed.
pub open spec fn clean_spec(value: Option<String>) -> Option<Seq<char>> {
    match value {
        Some(value) => if text::trim_spec(value@).len() > 0 {
            Some(text::trim_spec(value@))
        } else {
            None
        },
        None => None,
    }
}

pub fn clean_optional(value: &Option<String>) -> (r: Option<String>)
    ensures
        paths::view_of(r) == clean_spec(*value),
{
    match value {
        Some(value) => {
            let trimmed = text::trim(value.as_str());
            if trimmed.is_empty() {
                None
            } else {
                Some(trimmed.to_owned())
            }
        },
        None => None,
    }
}

/// The title is the file's name, as the platform reads it.
pub open spec fn titled_by_path(title: Seq<char>, path: Seq<char>) -> bool {
    &&& paths::plain_path(path) ==> title == app::title_spec(
        Some(paths::stem_spec(paths::tail_spec(path))),
    )
    &&& paths::names_a_file(path) ==> title == app::title_spec(
        Some(paths::stem_spec(paths::name_spec(path))),
    ) || title == app::title_spec(Some(paths::stem_spec(paths::tail_spec(path))))
    &&& title == "Untitled"@ || exists|name: Seq<char>| #[trigger]
        text::contains_spec(path, name) && title == app::title_spec(Some(name))
}

pub open spec fn widened(value: Option<u8>) -> Option<u32> {
    match value {
        Some(value) => Some(value as u32),
        None => None,
    }
}

/// The track shows what the tags say, each blank text left out.
pub open spec fn shows_tags(
    track: Track,
    path: Seq<char>,
    tags: TagInfo,
    modified: u64,
    size: u64,
) -> bool {
    &&& track.id is None
    &&& match clean_spec(tags.title) {
        Some(title) => track.title@ == title,
        None => titled_by_path(track.title@, path),
    }
    &&& paths::view_of(track.artist) == clean_spec(tags.artist)
    &&& paths::view_of(track.album) == clean_spec(tags.album)
    &&& paths::view_of(track.album_artist) == clean_spec(tags.album_artist)
    &&& track.track_number == tags.track_number
    &&& track.disc_number == tags.disc_number
    &&& track.duration_ms == if tags.duration_ms > 0 {
        Some(tags.duration_ms)
    } else {
        None
    }
    &&& track.sample_rate == tags.sample_rate
    &&& track.channel_count == widened(tags.channels)
    &&& track.bit_depth == widened(tags.bit_depth)
    &&& track.path@ == path
    &&& track.modified_unix == modified as i64
    &&& track.size_bytes == size
}

fn widen(value: Option<u8>) -> (r: Option<u32>)
    ensures
        r == widened(value),
{
    match value {
        Some(value) => Some(value as u32),
        None => None,
    }
}

/// A track from the tags of its file. Tags that could not be read are an error, and then a file
/// time that cannot be had.
pub fn read_track(path: &str, tags: &Result<TagInfo, String>, facts: &FileFacts) -> (r: Result<
    Track,
    EchoError,
>)
    ensures
        match *tags {
            Err(message) => r matches Err(EchoError::Metadata { path: at, message: why }) && at@
                == path@ && why@ == message@,
            Ok(tags) => match facts.modified_secs {
                Err(message) => r matches Err(EchoError::Io(why)) && why@ == message@,
                Ok(modified) => r matches Ok(track) && shows_tags(
                    track,
                    path@,
                    tags,
                    modified,
                    facts.size_bytes,
                ),
            },
        },
        *tags is Ok && facts.modified_secs is Ok ==> r is Ok,
        r matches Ok(track) ==> *tags is Ok && facts.modified_secs is Ok && {
            let tags = tags->Ok_0;
            &&& clean_spec(tags.title) is Some ==> Some(track.title@) == clean_spec(
                tags.title,
            )
            &&& paths::view_of(track.artist) == clean_spec(tags.artist)
            &&& paths::view_of(track.album) == clean_spec(tags.album)
            &&& paths::view_of(track.album_artist) == clean_spec(tags.album_artist)
            &&& track.track_number == tags.track_number
            &&& track.disc_number == tags.disc_number
            &&& tags.duration_ms > 0 ==> track.duration_ms == Some(tags.duration_ms)
            &&& tags.duration_ms == 0 ==> track.duration_ms is None
            &&& track.sample_rate == tags.sample_rate
            &&& track.channel_count is Some <==> tags.channels is Some
            &&& tags.channels matches Some(n) ==> track.channel_count->0 == n
            &&& track.bit_depth is Some <==> tags.bit_depth is Some
            &&& tags.bit_depth matches Some(n) ==> track.bit_depth->0 == n
            &&& track.path@ == path@
            &&& track.modified_unix == facts.modified_secs->Ok_0 as i64
            &&& track.size_bytes == facts.size_bytes
            &&& track.id is None
        },
{
    let tags = match tags {
        Ok(tags) => tags,
        Err(message) => {
            return Err(
                EchoError::Metadata { path: path.to_owned(), message: message.clone() },
            );
        },
    };
    let modified = match &facts.modified_secs {
        Ok(modified) => *modified,
        Err(message) => {
            return Err(EchoError::Io(message.clone()));
        },
    };
    let title = match clean_optional(&tags.title) {
        Some(title) => title,
        None => app::fallback_title_from_path(path),
    };
    Ok(
        Track {
            id: None,
            title,
            artist: clean_optional(&tags.artist),
            album: clean_optional(&tags.album),
            album_artist: clean_optional(&tags.album_artist),
            track_number: tags.track_number,
            disc_number: tags.disc_number,
            duration_ms: if tags.duration_ms > 0 {
                Some(tags.duration_ms)
            } else {
                None
            },
            sample_rate: tags.sample_rate,
            channel_count: widen(tags.channels),
            bit_depth: widen(tags.bit_depth),
            path: path.to_owned(),
            modified_unix: modified as i64,
            size_bytes: facts.size_bytes,
        },
    )
}

/// A tag is taken over without the white space around it, and not at all where nothing is left.
pub open spec fn taken_over(tag: Option<String>, field: Option<String>) -> bool {
    match tag {
        None => field is None,
        Some(tag) => if text::trim_spec(tag@).len() == 0 {
            field is None
        } else {
            field is Some && field->0@ == text::trim_spec(tag@)
        },
    }
}

/// Each tag shows in its own field, whatever the other tags hold: the artist as the artist, the
/// album as the album, the album artist as the album artist.
pub proof fn tags_stay_in_their_fields(
    track: Track,
    path: Seq<char>,
    tags: TagInfo,
    modified: u64,
    size: u64,
)
    requires
        shows_tags(track, path, tags, modified, size),
    ensures
        taken_over(tags.artist, track.artist),
        taken_over(tags.album, track.album),
        taken_over(tags.album_artist, track.album_artist),
        tags.title matches Some(title) ==> text::trim_spec(title@).len() > 0 ==> track.title@
            == text::trim_spec(title@),
        tags.title matches Some(title) ==> text::trim_spec(title@).len() == 0 ==> titled_by_path(
            track.title@,
            path,
        ),
        tags.title is None ==> titled_by_path(track.title@, path),
        track.track_number == tags.track_number,
        track.disc_number == tags.disc_number,
        tags.duration_ms > 0 ==> track.duration_ms == Some(tags.duration_ms),
        tags.duration_ms == 0 ==> track.duration_ms is None,
        track.sample_rate == tags.sample_rate,
        track.path@ == path,
        track.modified_unix == modified as i64,
        track.size_bytes == size,
{
}

/// Changing one tag changes the field of that tag alone.
pub proof fn other_tags_make_no_difference(
    one: Track,
    other: Track,
    path: Seq<char>,
    tags: TagInfo,
    album: Option<String>,
    album_artist: Option<String>,
    artist: Option<String>,
    modified: u64,
    size: u64,
)
    requires
        shows_tags(one, path, tags, modified, size),
    ensures
        shows_tags(other, path, TagInfo { album, ..tags }, modified, size) ==> paths::view_of(
            one.album_artist,
        ) == paths::view_of(other.album_artist) && paths::view_of(one.artist) == paths::view_of(
            other.artist,
        ),
        shows_tags(other, path, TagInfo { album_artist, ..tags }, modified, size)
            ==> paths::view_of(one.album) == paths::view_of(other.album) && paths::view_of(
            one.artist,
        ) == paths::view_of(other.artist),
        shows_tags(other, path, TagInfo { artist, ..tags }, modified, size) ==> paths::view_of(
            one.album,
        ) == paths::view_of(other.album) && paths::view_of(one.album_artist) == paths::view_of(
            other.album_artist,
        ),
{
}

/// The track shows its file and nothing else.
pub open spec fn shows_file(track: Track, path: Seq<char>, modified: u64, size: u64) -> bool {
    &&& track.id is None
    &&& titled_by_path(track.title@, path)
    &&& track.artist is None
    &&& track.album is None
    &&& track.album_artist is None
    &&& track.track_number is None
    &&& track.disc_number is None
    &&& track.duration_ms is None
    &&& track.sample_rate is None
    &&& track.channel_count is None
    &&& track.bit_depth is None
    &&& track.path@ == path
    &&& track.modified_unix == modified as i64
    &&& track.size_bytes == size
}

/// A track from its file alone.
pub fn fallback_track(path: &str, facts: &FileFacts) -> (r: Result<Track, EchoError>)
    ensures
        match facts.modified_secs {
            Err(message) => r matches Err(EchoError::Io(why)) && why@ == message@,
            Ok(modified) => r matches Ok(track) && shows_file(
                track,
                path@,
                modified,
                facts.size_bytes,
            ),
        },
        r is Ok <==> facts.modified_secs is Ok,
        r matches Ok(track) ==> {
            &&& track.artist is None && track.album is None && track.album_artist is None
            &&& track.duration_ms is None
            &&& track.path@ == path@
            &&& track.modified_unix == facts.modified_secs->Ok_0 as i64
            &&& track.size_bytes == facts.size_bytes
            &&& paths::plain_path(path@) ==> track.title@ == app::title_spec(
                Some(paths::stem_spec(paths::tail_spec(path@))),
            )
        },
{
    let modified = match &facts.modified_secs {
        Ok(modified) => *modified,
        Err(message) => {
            return Err(EchoError::Io(message.clone()));
        },
    };
    Ok(
        Track {
            id: None,
            title: app::fallback_title_from_path(path),
            artist: None,
            album: None,
            album_artist: None,
            track_number: None,
            disc_number: None,
            duration_ms: None,
            sample_rate: None,
            channel_count: None,
            bit_depth: None,
            path: path.to_owned(),
            modified_unix: modified as i64,
            size_bytes: facts.size_bytes,
        },
    )
}

/// Tags lose the white space around them, and blank ones count as missing.
pub proof fn tags_are_trimmed(value: String, small: u8)
    ensures
        clean_spec(None) is None,
        text::trim_spec(value@).len() == 0 ==> clean_spec(Some(value)) is None,
        text::trim_spec(value@).len() > 0 ==> clean_spec(Some(value)) == Some(
            text::trim_spec(value@),
        ),
        widened(Some(small)) == Some(small as u32),
        widened(None) is None,
{
}

} // verus!
