//! What is known of an audio stream before it is decoded.

use vstd::prelude::*;

verus! {

#[derive(Debug, PartialEq, Eq)]
pub struct DecodeRequest {
    pub path: String,
}

#[derive(Debug, Clone, Copy, PartialEq, Eq, Structural)]
pub struct DecodeStreamInfo {
    pub sample_rate: u32,
    pub channel_count: u16,
    pub bit_depth: Option<u32>,
    pub duration_ms: Option<u64>,
}

} // verus!
