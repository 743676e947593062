//! Errors, and what they say.

use crate::text;
use vstd::prelude::*;

verus! {

#[derive(Debug, PartialEq, Eq)]
pub enum EchoError {
    ConfigPathUnavailable,
    Metadata { path: String, message: String },
    Audio(String),
    Decode { path: String, message: String },
    Playback(String),
    Io(String),
    Db(String),
    WalkDir(String),
}

impl EchoError {
    pub open spec fn message_spec(self) -> Seq<char> {
        match self {
            EchoError::ConfigPathUnavailable =>
                "configuration path is unavailable on this system"@,
            EchoError::Metadata { path, message } => "metadata read failed for "@ + path@ + ": "@
                + message@,
            EchoError::Audio(message) => "audio output failed: "@ + message@,
            EchoError::Decode { path, message } => "decode failed for "@ + path@ + ": "@ + message@,
            EchoError::Playback(message) => "playback failed: "@ + message@,
            EchoError::Io(message) => message@,
            EchoError::Db(message) => message@,
            EchoError::WalkDir(message) => message@,
        }
    }

    pub fn message(&self) -> (r: String)
        ensures
            r@ == self.message_spec(),
    {
        match self {
            EchoError::ConfigPathUnavailable =>
                "configuration path is unavailable on this system".to_owned(),
            EchoError::Metadata { path, message } => text::text4(
                "metadata read failed for ",
                path.as_str(),
                ": ",
                message.as_str(),
            ),
            EchoError::Audio(message) => text::text2("audio output failed: ", message.as_str()),
            EchoError::Decode { path, message } => text::text4(
                "decode failed for ",
                path.as_str(),
                ": ",
                message.as_str(),
            ),
            EchoError::Playback(message) => text::text2("playback failed: ", message.as_str()),
            EchoError::Io(message) => message.clone(),
            EchoError::Db(message) => message.clone(),
            EchoError::WalkDir(message) => message.clone(),
        }
    }
}

/// Errors are told with what they carry.
pub proof fn errors_tell_their_message(path: String, message: String)
    ensures
        ({
            let metadata = EchoError::Metadata { path, message }.message_spec();
            let decode = EchoError::Decode { path, message }.message_spec();
            &&& text::ends_with_spec(metadata, path@ + ": "@ + message@)
            &&& text::ends_with_spec(decode, path@ + ": "@ + message@)
            &&& text::ends_with_spec(EchoError::Audio(message).message_spec(), message@)
            &&& text::ends_with_spec(EchoError::Playback(message).message_spec(), message@)
            &&& EchoError::Io(message).message_spec() == message@
            &&& EchoError::Db(message).message_spec() == message@
            &&& EchoError::WalkDir(message).message_spec() == message@
        }),
{
    lemma_told("metadata read failed for "@, path@, message@);
    lemma_told("decode failed for "@, path@, message@);
    text::begins_and_ends("audio output failed: "@, message@);
    text::begins_and_ends("playback failed: "@, message@);
}

proof fn lemma_told(what: Seq<char>, path: Seq<char>, message: Seq<char>)
    ensures
        text::ends_with_spec(what + path + ": "@ + message, path + ": "@ + message),
{
    text::lemma_regroup(what, path, ": "@);
    text::lemma_regroup(what, path + ": "@, message);
    text::begins_and_ends(what, path + ": "@ + message);
}

} // verus!
