//! The shared audio output: which configuration is opened and how channels are mapped.

use crate::decoder::DecodeStreamInfo;
use crate::error::EchoError;
use crate::text;
use std::collections::VecDeque;
use vstd::prelude::*;

verus! {

#[derive(Debug, PartialEq, Eq)]
pub struct OutputStreamInfo {
    pub device_name: String,
    pub mode: &'static str,
    pub sample_rate: u32,
    pub channel_count: u16,
    pub sample_format: String,
    pub buffer_size: String,
    pub warnings: Vec<String>,
}

pub fn backend_status_line(windows: bool) -> (r: &'static str)
    ensures
        r@ == if windows {
            "CPAL shared output over Windows audio; WASAPI exclusive planned"@
        } else {
            "CPAL shared output; Windows is the primary target"@
        },
{
    if windows {
        "CPAL shared output over Windows audio; WASAPI exclusive planned"
    } else {
        "CPAL shared output; Windows is the primary target"
    }
}

// ---------------------------------------------------------------- the configuration

/// How a device takes its samples.
#[derive(Debug, Clone, Copy, PartialEq, Eq, Structural)]
pub enum SampleKind {
    F32,
    I16,
    U16,
    Other,
}

/// A range of configurations that a device supports.
#[derive(Debug, Clone, Copy, PartialEq, Eq, Structural)]
pub struct OutputRange {
    pub channels: u16,
    pub min_sample_rate: u32,
    pub max_sample_rate: u32,
    pub kind: SampleKind,
}

pub open spec fn supported_kind(kind: SampleKind) -> bool {
    kind != SampleKind::Other
}

pub fn supported_output_sample_format(kind: SampleKind) -> (r: bool)
    ensures
        r == supported_kind(kind),
{
    kind != SampleKind::Other
}

/// The range has the stream's rate and a supported format.
pub open spec fn eligible(range: OutputRange, stream: DecodeStreamInfo) -> bool {
    &&& supported_kind(range.kind)
    &&& range.min_sample_rate <= stream.sample_rate <= range.max_sample_rate
}

/// `a` is preferred to `b`: the stream's own channel count first, then floating-point samples,
/// then fewer channels.
pub open spec fn preferred(a: OutputRange, b: OutputRange, stream: DecodeStreamInfo) -> bool {
    let a_same = a.channels == stream.channel_count;
    let b_same = b.channels == stream.channel_count;
    let a_float = a.kind == SampleKind::F32;
    let b_float = b.kind == SampleKind::F32;
    if a_same != b_same {
        a_same
    } else if a_float != b_float {
        a_float
    } else {
        a.channels < b.channels
    }
}

/// Range `i` is eligible, none is preferred to it, and none before it is as good.
pub open spec fn best_range(ranges: Seq<OutputRange>, stream: DecodeStreamInfo, i: int) -> bool {
    &&& 0 <= i < ranges.len()
    &&& eligible(ranges[i], stream)
    &&& forall|j: int|
        0 <= j < ranges.len() && eligible(#[trigger] ranges[j], stream) ==> !preferred(
            ranges[j],
            ranges[i],
            stream,
        )
    &&& forall|j: int|
        0 <= j < i && eligible(#[trigger] ranges[j], stream) ==> preferred(
            ranges[i],
            ranges[j],
            stream,
        )
}

fn is_preferred(a: OutputRange, b: OutputRange, stream: DecodeStreamInfo) -> (r: bool)
    ensures
        r == preferred(a, b, stream),
{
    let a_same = a.channels == stream.channel_count;
    let b_same = b.channels == stream.channel_count;
    let a_float = a.kind == SampleKind::F32;
    let b_float = b.kind == SampleKind::F32;
    if a_same != b_same {
        a_same
    } else if a_float != b_float {
        a_float
    } else {
        a.channels < b.channels
    }
}

/// The range to open at the stream's rate.
pub fn select_output_range(ranges: &[OutputRange], stream: DecodeStreamInfo) -> (r: Option<usize>)
    ensures
        match r {
            Some(i) => best_range(ranges@, stream, i as int),
            None => forall|j: int|
                0 <= j < ranges@.len() ==> !eligible(#[trigger] ranges@[j], stream),
        },
        r matches Some(i) ==> i < ranges@.len() && ranges@[i as int].min_sample_rate
            <= stream.sample_rate <= ranges@[i as int].max_sample_rate && ranges@[i as int].kind
            != SampleKind::Other,
        r is None ==> forall|j: int|
            0 <= j < ranges@.len() ==> (#[trigger] ranges@[j]).kind == SampleKind::Other
                || stream.sample_rate < ranges@[j].min_sample_rate || stream.sample_rate
                > ranges@[j].max_sample_rate,
{
    let mut best: Option<usize> = None;
    for i in 0..ranges.len()
        invariant
            match best {
                Some(b) => b < i && best_range(ranges@.take(i as int), stream, b as int),
                None => forall|j: int|
                    0 <= j < i ==> !eligible(#[trigger] ranges@[j], stream),
            },
    {
        let range = ranges[i];
        let ghost before = best;
        let fits = supported_output_sample_format(range.kind) && range.min_sample_rate
            <= stream.sample_rate && stream.sample_rate <= range.max_sample_rate;
        if fits {
            let better = match best {
                Some(b) => is_preferred(range, ranges[b], stream),
                None => true,
            };
            if better {
                best = Some(i);
            }
        }
        proof {
            let now = ranges@.take(i + 1);
            let then = ranges@.take(i as int);
            assert(forall|j: int| 0 <= j < i ==> then[j] == ranges@[j] && now[j] == ranges@[j]);
            assert(now[i as int] == range);
            match best {
                Some(b) => {
                    assert(best_range(now, stream, b as int)) by {
                        if b == i {
                            match before {
                                Some(a) => {
                                    assert forall|j: int|
                                        0 <= j < i && eligible(
                                            #[trigger] now[j],
                                            stream,
                                        ) implies preferred(now[i as int], now[j], stream)
                                        && !preferred(now[j], now[i as int], stream) by {
                                        assert(then[j] == now[j]);
                                        assert(!preferred(then[j], then[a as int], stream));
                                    }
                                },
                                None => {},
                            }
                        } else {
                            assert(before == Some(b));
                            assert forall|j: int|
                                0 <= j < now.len() && eligible(
                                    #[trigger] now[j],
                                    stream,
                                ) implies !preferred(now[j], now[b as int], stream) by {
                                if j < i {
                                    assert(then[j] == now[j]);
                                }
                            }
                            assert forall|j: int|
                                0 <= j < b && eligible(#[trigger] now[j], stream) implies preferred(
                                now[b as int],
                                now[j],
                                stream,
                            ) by {
                                assert(then[j] == now[j]);
                            }
                        }
                    }
                },
                None => {},
            }
        }
    }
    assert(ranges@.take(ranges@.len() as int) =~= ranges@);
    best
}

/// The one range that is best is the only one.
pub proof fn best_range_is_unique(ranges: Seq<OutputRange>, stream: DecodeStreamInfo, i: int, j: int)
    requires
        best_range(ranges, stream, i),
        best_range(ranges, stream, j),
    ensures
        i == j,
{
    assert(eligible(ranges[i], stream) && eligible(ranges[j], stream));
}

/// What is opened plays the stream at its own rate. Where some range with that rate has the
/// stream's channel count, the one opened has it; among those alike in that, where some takes
/// floating-point samples, the one opened does; and among those alike in both, none has fewer
/// channels.
pub proof fn opened_range_serves_the_stream(
    ranges: Seq<OutputRange>,
    stream: DecodeStreamInfo,
    i: int,
    j: int,
)
    requires
        best_range(ranges, stream, i),
        0 <= j < ranges.len(),
        ranges[j].min_sample_rate <= stream.sample_rate <= ranges[j].max_sample_rate,
        ranges[j].kind == SampleKind::F32 || ranges[j].kind == SampleKind::I16 || ranges[j].kind
            == SampleKind::U16,
    ensures
        ranges[i].min_sample_rate <= stream.sample_rate <= ranges[i].max_sample_rate,
        ranges[i].kind != SampleKind::Other,
        ranges[j].channels == stream.channel_count ==> ranges[i].channels == stream.channel_count,
        ranges[j].channels == stream.channel_count && ranges[j].kind == SampleKind::F32
            ==> ranges[i].kind == SampleKind::F32,
        ranges[i].channels != stream.channel_count && ranges[j].kind == SampleKind::F32
            ==> ranges[i].kind == SampleKind::F32,
        ranges[i].channels != stream.channel_count && (ranges[i].kind == SampleKind::F32 <==>
            ranges[j].kind == SampleKind::F32) ==> ranges[i].channels <= ranges[j].channels,
        j < i && ranges[j].channels == ranges[i].channels ==> ranges[i].kind == SampleKind::F32
            && ranges[j].kind != SampleKind::F32,
{
    assert(eligible(ranges[j], stream));
}

/// The default configuration serves where its format is supported.
pub fn check_default_format(kind: SampleKind, format_name: &str) -> (r: Result<(), EchoError>)
    ensures
        match r {
            Ok(_) => supported_kind(kind),
            Err(EchoError::Audio(message)) => !supported_kind(kind) && message@
                == "unsupported default output sample format: "@ + format_name@,
            Err(_) => false,
        },
{
    if supported_output_sample_format(kind) {
        Ok(())
    } else {
        Err(
            EchoError::Audio(
                text::text2("unsupported default output sample format: ", format_name),
            ),
        )
    }
}

/// What is said where the output differs from the stream.
pub open spec fn warnings_spec(rate: u32, channels: u16, stream: DecodeStreamInfo) -> Seq<Seq<char>> {
    let rates = if rate != stream.sample_rate {
        seq![
            "sample-rate conversion "@ + text::decimal_spec(stream.sample_rate as nat) + " Hz -> "@
                + text::decimal_spec(rate as nat) + " Hz"@,
        ]
    } else {
        Seq::empty()
    };
    let mapping = if channels != stream.channel_count {
        seq![
            "channel mapping "@ + text::decimal_spec(stream.channel_count as nat) + "ch -> "@
                + text::decimal_spec(channels as nat) + "ch"@,
        ]
    } else {
        Seq::empty()
    };
    rates + mapping
}

pub fn stream_warnings(rate: u32, channels: u16, stream: DecodeStreamInfo) -> (r: Vec<String>)
    ensures
        text::texts(r@) == warnings_spec(rate, channels, stream),
{
    let mut r: Vec<String> = Vec::new();
    if rate != stream.sample_rate {
        let from = text::decimal(stream.sample_rate as u128);
        let to = text::decimal(rate as u128);
        r.push(text::text5("sample-rate conversion ", &from, " Hz -> ", &to, " Hz"));
    }
    if channels != stream.channel_count {
        let from = text::decimal(stream.channel_count as u128);
        let to = text::decimal(channels as u128);
        r.push(text::text5("channel mapping ", &from, "ch -> ", &to, "ch"));
    }
    assert(text::texts(r@) =~= warnings_spec(rate, channels, stream));
    r
}

/// The description of an opened output.
pub fn output_stream_info(
    device_name: Option<String>,
    rate: u32,
    channels: u16,
    sample_format: String,
    buffer_size: String,
    stream: DecodeStreamInfo,
) -> (r: OutputStreamInfo)
    ensures
        r.device_name@ == match device_name {
            Some(name) => name@,
            None => "unknown output device"@,
        },
        r.mode@ == "shared"@,
        r.sample_rate == rate,
        r.channel_count == channels,
        r.sample_format == sample_format,
        r.buffer_size == buffer_size,
        text::texts(r.warnings@) == warnings_spec(rate, channels, stream),
{
    OutputStreamInfo {
        device_name: match device_name {
            Some(name) => name,
            None => "unknown output device".to_owned(),
        },
        mode: "shared",
        sample_rate: rate,
        channel_count: channels,
        sample_format,
        buffer_size,
        warnings: stream_warnings(rate, channels, stream),
    }
}

// ---------------------------------------------------------------- channels

/// Where an output channel takes its sample from.
#[derive(Debug, Clone, Copy, PartialEq, Eq, Structural)]
pub enum ChannelSource {
    Silence,
    Source(usize),
    AverageOfFirstTwo,
}

/// One source channel is duplicated, several are averaged into one output or taken over one by
/// one; output channels beyond them are silent.
pub open spec fn channel_source(sources: nat, outputs: nat, index: nat) -> ChannelSource {
    if sources == 0 {
        ChannelSource::Silence
    } else if outputs == 1 && sources > 1 {
        ChannelSource::AverageOfFirstTwo
    } else if sources == 1 {
        ChannelSource::Source(0)
    } else if index < sources {
        ChannelSource::Source(index as usize)
    } else {
        ChannelSource::Silence
    }
}

/// The source of every output channel: with several sources and several outputs, output `i` plays
/// source `i` and those beyond are silent; a single source is played by all; a single output
/// averages.
pub fn map_frame(sources: usize, output_channels: u16) -> (r: Vec<ChannelSource>)
    ensures
        r@.len() == output_channels,
        sources >= 2 && output_channels != 1 ==> forall|i: int|
            0 <= i < r@.len() && i < sources ==> #[trigger] r@[i] == ChannelSource::Source(
                i as usize,
            ),
        sources >= 2 && output_channels != 1 ==> forall|i: int|
            sources <= i < r@.len() ==> #[trigger] r@[i] == ChannelSource::Silence,
        sources == 1 ==> forall|i: int|
            0 <= i < r@.len() ==> #[trigger] r@[i] == ChannelSource::Source(0),
        sources >= 2 && output_channels == 1 ==> r@[0] == ChannelSource::AverageOfFirstTwo,
        sources == 0 ==> forall|i: int|
            0 <= i < r@.len() ==> #[trigger] r@[i] == ChannelSource::Silence,
        r@ == Seq::new(
            output_channels as nat,
            |i: int| channel_source(sources as nat, output_channels as nat, i as nat),
        ),
{
    let mut r: Vec<ChannelSource> = Vec::new();
    for i in 0..output_channels as usize
        invariant
            r@.len() == i,
            forall|j: int|
                0 <= j < i ==> #[trigger] r@[j] == channel_source(
                    sources as nat,
                    output_channels as nat,
                    j as nat,
                ),
    {
        r.push(
            if sources == 0 {
                ChannelSource::Silence
            } else if output_channels == 1 && sources > 1 {
                ChannelSource::AverageOfFirstTwo
            } else if sources == 1 {
                ChannelSource::Source(0)
            } else if i < sources {
                ChannelSource::Source(i)
            } else {
                ChannelSource::Silence
            },
        );
    }
    assert(r@ =~= Seq::new(
        output_channels as nat,
        |i: int| channel_source(sources as nat, output_channels as nat, i as nat),
    ));
    r
}

/// The sample that an output channel plays of a frame, where `average` is what the first two
/// channels have between them.
pub open spec fn played(frame: Seq<int>, average: int, outputs: nat, index: int) -> int {
    match channel_source(frame.len(), outputs, index as nat) {
        ChannelSource::Silence => 0,
        ChannelSource::Source(i) => frame[i as int],
        ChannelSource::AverageOfFirstTwo => average,
    }
}

/// A frame is played as it is on as many channels: left plays left, right plays right.
pub proof fn equal_counts_play_the_frame_itself(frame: Seq<int>, average: int)
    requires
        0 < frame.len() <= usize::MAX,
    ensures
        Seq::new(frame.len(), |i: int| played(frame, average, frame.len(), i)) == frame,
{
    assert(Seq::new(frame.len(), |i: int| played(frame, average, frame.len(), i)) =~= frame);
}

/// On more channels than it has, a frame of several is followed by silence; on fewer, but more than
/// one, it loses its last channels.
pub proof fn other_counts_cut_or_fill_the_frame(frame: Seq<int>, average: int, outputs: nat)
    requires
        2 <= frame.len() <= usize::MAX,
        outputs >= 2,
    ensures
        outputs >= frame.len() ==> Seq::new(
            outputs,
            |i: int| played(frame, average, outputs, i),
        ) == frame + Seq::new((outputs - frame.len()) as nat, |i: int| 0),
        outputs <= frame.len() ==> Seq::new(
            outputs,
            |i: int| played(frame, average, outputs, i),
        ) == frame.take(outputs as int),
{
    let all = Seq::new(outputs, |i: int| played(frame, average, outputs, i));
    if outputs >= frame.len() {
        assert(all =~= frame + Seq::new((outputs - frame.len()) as nat, |i: int| 0));
    }
    if outputs <= frame.len() {
        assert(all =~= frame.take(outputs as int));
    }
}

/// A single channel is heard on every output, none is silence, and several on one output are
/// averaged.
pub proof fn single_channels_are_shared_or_averaged(frame: Seq<int>, average: int, outputs: nat, i: int)
    requires
        0 <= i < outputs,
    ensures
        frame.len() == 1 ==> played(frame, average, outputs, i) == frame[0],
        frame.len() == 0 ==> played(frame, average, outputs, i) == 0,
        frame.len() >= 2 && outputs == 1 ==> played(frame, average, outputs, i) == average,
{
}

/// A channel is only ever taken from a source that exists.
pub proof fn channel_sources_exist(sources: nat, outputs: nat, index: nat)
    requires
        sources <= usize::MAX,
    ensures
        channel_source(sources, outputs, index) matches ChannelSource::Source(i) ==> i < sources,
        channel_source(sources, outputs, index) is AverageOfFirstTwo ==> sources >= 2,
{
}

// ---------------------------------------------------------------- samples on their way

/// What the device has yet to play: the samples, in the order in which the decoder sent them, and
/// the numbers of channels on both sides.
#[derive(Debug)]
pub struct ChannelMapper<T> {
    pub source_channels: u16,
    pub output_channels: u16,
    pub scratch: VecDeque<T>,
}

impl<T> ChannelMapper<T> {
    pub fn new(source_channels: u16, output_channels: u16) -> (r: Self)
        ensures
            r.source_channels == source_channels,
            r.output_channels == output_channels,
            r.scratch@ == Seq::<T>::empty(),
    {
        ChannelMapper { source_channels, output_channels, scratch: VecDeque::new() }
    }

    /// Whether nothing is left to play, so that the next samples are to be asked for.
    pub fn is_starved(&self) -> (r: bool)
        ensures
            r == (self.scratch@.len() == 0),
    {
        self.scratch.len() == 0
    }

    /// Puts the samples behind those that wait.
    pub fn receive(&mut self, samples: Vec<T>)
        ensures
            final(self).scratch@ == old(self).scratch@ + samples@,
            final(self).source_channels == old(self).source_channels,
            final(self).output_channels == old(self).output_channels,
    {
        let ghost all = samples@;
        for sample in it: samples
            invariant
                it.seq() == all,
                self.scratch@ == old(self).scratch@ + all.take(it.index() as int),
                self.source_channels == old(self).source_channels,
                self.output_channels == old(self).output_channels,
        {
            self.scratch.push_back(sample);
            assert(all.take(it.index() + 1) =~= all.take(it.index() as int).push(sample));
            assert(self.scratch@ =~= old(self).scratch@ + all.take(it.index() + 1));
        }
        assert(all.take(all.len() as int) =~= all);
    }

    /// The sample that has waited longest, if any waits.
    pub fn pop_sample(&mut self) -> (r: Option<T>)
        ensures
            r == if old(self).scratch@.len() > 0 {
                Some(old(self).scratch@[0])
            } else {
                None
            },
            final(self).scratch@ == old(self).scratch@.skip(
                if old(self).scratch@.len() > 0 {
                    1
                } else {
                    0
                },
            ),
            final(self).source_channels == old(self).source_channels,
            final(self).output_channels == old(self).output_channels,
    {
        let r = self.scratch.pop_front();
        assert(self.scratch@ =~= old(self).scratch@.skip(
            if old(self).scratch@.len() > 0 {
                1
            } else {
                0
            },
        ));
        r
    }

    /// Where each channel of an output frame takes its sample from.
    pub fn frame_sources(&self) -> (r: Vec<ChannelSource>)
        ensures
            r@ == Seq::new(
                self.output_channels as nat,
                |i: int|
                    channel_source(
                        self.source_channels as nat,
                        self.output_channels as nat,
                        i as nat,
                    ),
            ),
    {
        map_frame(self.source_channels as usize, self.output_channels)
    }
}

/// Samples leave in the order in which they came: it makes no difference to those that wait
/// whether more come in before or after some of them have left.
pub proof fn samples_leave_in_order<T>(waiting: Seq<T>, samples: Seq<T>, n: int)
    requires
        0 <= n <= waiting.len(),
    ensures
        (waiting + samples).skip(n) == waiting.skip(n) + samples,
        (waiting + samples).take(n) == waiting.take(n),
{
    assert((waiting + samples).skip(n) =~= waiting.skip(n) + samples);
    assert((waiting + samples).take(n) =~= waiting.take(n));
}

} // verus!
