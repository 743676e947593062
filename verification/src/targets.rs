//! What is to be played, by a path or by what it is called.
//!
//! A file that exists is played as it is. Else the library is asked for a track with that path,
//! and last for the best match of a search.

use crate::error::EchoError;
use crate::library::Track;
use crate::metadata;
use crate::metadata::{FileFacts, TagInfo};
use crate::search::SearchResult;
use crate::shell::session;
use vstd::prelude::*;

verus! {

/// What the file system says of a path at which something exists.
#[derive(Debug, PartialEq, Eq)]
pub struct FoundFile {
    pub facts: Result<FileFacts, String>,
    pub tags: Result<TagInfo, String>,
}

/// How the search for a target goes on.
#[derive(Debug)]
pub enum TargetStep {
    Found(Track),
    Failed(EchoError),
    /// Ask the library for a track with exactly this path.
    AskLibrary,
    /// Search the library.
    Search,
}

/// The step after a look at the path: a file that exists is played, with its tags where they can
/// be read.
pub open spec fn file_step(path: Seq<char>, file: Option<FoundFile>, step: TargetStep) -> bool {
    match file {
        None => step is AskLibrary,
        Some(file) => match file.facts {
            Err(message) => step matches TargetStep::Failed(EchoError::Io(why)) && why@
                == message@,
            Ok(facts) => match facts.modified_secs {
                Err(message) => step matches TargetStep::Failed(EchoError::Io(why)) && why@
                    == message@,
                Ok(modified) => step matches TargetStep::Found(track) && match file.tags {
                    Ok(tags) => metadata::shows_tags(track, path, tags, modified, facts.size_bytes),
                    Err(_) => metadata::shows_file(track, path, modified, facts.size_bytes),
                },
            },
        },
    }
}

pub fn target_from_file(path: &str, file: &Option<FoundFile>) -> (r: TargetStep)
    ensures
        file_step(path@, *file, r),
        *file is None ==> r is AskLibrary,
        *file matches Some(found) ==> match found.facts {
            Err(message) => r matches TargetStep::Failed(EchoError::Io(why)) && why@ == message@,
            Ok(facts) => match facts.modified_secs {
                Err(message) => r matches TargetStep::Failed(EchoError::Io(why)) && why@
                    == message@,
                Ok(modified) => r matches TargetStep::Found(track) && track.path@ == path@
                    && track.size_bytes == facts.size_bytes && track.modified_unix
                    == modified as i64 && (found.tags is Err ==> track.artist is None
                    && track.album is None && track.duration_ms is None),
            },
        },
{
    let file = match file {
        Some(file) => file,
        None => {
            return TargetStep::AskLibrary;
        },
    };
    let facts = match &file.facts {
        Ok(facts) => facts,
        Err(message) => {
            return TargetStep::Failed(EchoError::Io(message.clone()));
        },
    };
    match metadata::read_track(path, &file.tags, facts) {
        Ok(track) => TargetStep::Found(track),
        Err(_) => match metadata::fallback_track(path, facts) {
            Ok(track) => TargetStep::Found(track),
            Err(error) => TargetStep::Failed(error),
        },
    }
}

/// The step after the library was asked for the path.
pub fn target_from_library(found: Option<Track>) -> (r: TargetStep)
    ensures
        match found {
            Some(track) => r == TargetStep::Found(track),
            None => r is Search,
        },
{
    match found {
        Some(track) => TargetStep::Found(track),
        None => TargetStep::Search,
    }
}

/// The end of the search: its best match, or an error that names the query.
pub fn target_from_search(query: &str, results: Vec<SearchResult>) -> (r: Result<Track, EchoError>)
    ensures
        if results@.len() > 0 {
            r == Ok::<Track, EchoError>(results@[0].track)
        } else {
            r matches Err(EchoError::Playback(why)) && why@ == "no playable match for: "@ + query@
        },
{
    let mut results = results;
    if results.len() > 0 {
        return Ok(results.remove(0).track);
    }
    Err(EchoError::Playback(session::no_playable_match(query)))
}

/// A file that exists never falls back to the library: it is played, or its error is told.
pub proof fn existing_file_is_final(path: Seq<char>, file: FoundFile, step: TargetStep)
    requires
        file_step(path, Some(file), step),
    ensures
        step is Found || step is Failed,
        step matches TargetStep::Found(track) ==> track.path@ == path,
{
}

} // verus!
