//! What playback is told and what it tells.

use crate::audio_backend::OutputStreamInfo;
use crate::decoder::DecodeStreamInfo;
use crate::error::EchoError;
use vstd::prelude::*;

verus! {

#[derive(Debug, PartialEq, Eq)]
pub enum PlaybackCommand {
    Play(String),
    Pause,
    Resume,
    Stop,
    Next,
    Previous,
    SeekMillis(u64),
}

/// A control of the track that is playing.
#[derive(Debug, Clone, Copy, PartialEq, Eq, Structural)]
pub enum PlaybackControl {
    Pause,
    Resume,
    Stop,
}

#[derive(Debug, PartialEq, Eq)]
pub enum PlaybackEvent {
    Loading { title: String, path: String },
    Playing { title: String, stream: DecodeStreamInfo, output: OutputStreamInfo },
    Warning(String),
    Paused { title: String },
    Resumed { title: String },
    Stopped { title: String, elapsed_ms: u128 },
    Finished { title: String, elapsed_ms: u128 },
    Error { path: String, message: String },
}

/// The last event of a playback that has come to its end: its error, where playing failed without
/// saying so itself.
pub fn closing_event(reported_error: bool, path: &str, result: &Result<(), EchoError>) -> (r: Option<
    PlaybackEvent,
>)
    ensures
        match *result {
            Err(error) => if reported_error {
                r is None
            } else {
                r matches Some(PlaybackEvent::Error { path: at, message }) && at@ == path@
                    && message@ == error.message_spec()
            },
            Ok(_) => r is None,
        },
{
    match result {
        Err(error) => if reported_error {
            None
        } else {
            Some(PlaybackEvent::Error { path: path.to_owned(), message: error.message() })
        },
        Ok(_) => None,
    }
}

} // verus!
