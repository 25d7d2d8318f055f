use vstd::prelude::*;

verus! {

/// A supported rate that can be chosen: the media engine ends its lists with
/// a `0` sentinel, which is never a rate.
pub open spec fn usable_rate(r: i32) -> bool {
    r > 0
}

/// Some usable rate of `rates` is at or above `source`.
pub open spec fn has_rate_at_or_above(source: i32, rates: Seq<i32>) -> bool {
    exists|i: int| 0 <= i < rates.len() && usable_rate(rates[i]) && rates[i] >= source
}

/// `rates` holds some usable rate.
pub open spec fn has_usable_rate(rates: Seq<i32>) -> bool {
    exists|i: int| 0 <= i < rates.len() && usable_rate(rates[i])
}

/// `r` is the rate that best-rate selection picks for `source` from `rates`:
/// the lowest usable rate at or above the source; failing that, the highest
/// usable rate below it; failing that, the source itself.
pub open spec fn is_best_rate(source: i32, rates: Seq<i32>, r: i32) -> bool {
    if has_rate_at_or_above(source, rates) {
        &&& rates.contains(r)
        &&& usable_rate(r)
        &&& r >= source
        &&& forall|j: int| 0 <= j < rates.len() && usable_rate(rates[j]) && rates[j] >= source ==> r <= rates[j]
    } else if has_usable_rate(rates) {
        &&& rates.contains(r)
        &&& usable_rate(r)
        &&& r < source
        &&& forall|j: int| 0 <= j < rates.len() && usable_rate(rates[j]) ==> rates[j] <= r
    } else {
        r == source
    }
}

/// Chooses the encoder's sample rate for a source rate: the closest supported
/// rate at or above the source, else the closest below it, else the source
/// itself (also when the encoder lists no rates). The list may be unsorted and
/// may hold `0` sentinels, which are skipped.
pub fn select_best_rate(source: i32, supported: Option<Vec<i32>>) -> (r: i32)
    ensures
        match supported {
            None => r == source,
            Some(rates) => is_best_rate(source, rates@, r),
        },
{
    match supported {
        None => source,
        Some(rates) => {
            let mut above: Option<i32> = None;
            let mut below: Option<i32> = None;
            let mut i: usize = 0;
            while i < rates.len()
                invariant
                    i <= rates.len(),
                    match above {
                        None => forall|j: int| 0 <= j < i && usable_rate(rates@[j]) ==> rates@[j] < source,
                        Some(a) => {
                            &&& rates@.contains(a)
                            &&& usable_rate(a)
                            &&& a >= source
                            &&& forall|j: int| 0 <= j < i && usable_rate(rates@[j]) && rates@[j] >= source ==> a <= rates@[j]
                        },
                    },
                    match below {
                        None => forall|j: int| 0 <= j < i ==> !(usable_rate(rates@[j]) && rates@[j] < source),
                        Some(b) => {
                            &&& rates@.contains(b)
                            &&& usable_rate(b)
                            &&& b < source
                            &&& forall|j: int| 0 <= j < i && usable_rate(rates@[j]) && rates@[j] < source ==> rates@[j] <= b
                        },
                    },
                decreases rates.len() - i,
            {
                let rate = rates[i];
                if rate > 0 {
                    if rate >= source {
                        match above {
                            Some(a) if a <= rate => {},
                            _ => { above = Some(rate); },
                        }
                    } else {
                        match below {
                            Some(b) if b >= rate => {},
                            _ => { below = Some(rate); },
                        }
                    }
                }
                i = i + 1;
            }
            match above {
                Some(a) => a,
                None => match below {
                    Some(b) => b,
                    None => source,
                },
            }
        },
    }
}

/// How the encoder of a transcode is set up.
#[derive(Debug, Clone, Copy, PartialEq, Eq, Structural)]
pub struct EncoderSettings {
    /// The encoder's sample rate.
    pub sample_rate: i32,
    /// The numerator of the encoder's time base.
    pub time_base_num: i32,
    /// The denominator of the encoder's time base: one tick per source sample.
    pub time_base_den: i32,
    /// The target bit rate in bits per second.
    pub bit_rate: usize,
}

/// The encoder setup for a decoder running at `decoder_rate`: the best
/// supported sample rate, a time base of one tick per source sample, and the
/// target bit rate. `None` when the rate does not fit the engine's signed
/// 32-bit rates.
pub fn encoder_settings(decoder_rate: u32, supported: Option<Vec<i32>>, bit_rate: usize) -> (r: Option<EncoderSettings>)
    ensures
        decoder_rate > i32::MAX ==> r is None,
        decoder_rate <= i32::MAX ==> match r {
            Some(e) => e.time_base_num == 1 && e.time_base_den == decoder_rate as i32 && e.bit_rate == bit_rate && match supported {
                None => e.sample_rate == decoder_rate as i32,
                Some(rates) => is_best_rate(decoder_rate as i32, rates@, e.sample_rate),
            },
            None => false,
        },
{
    if decoder_rate > i32::MAX as u32 {
        return None;
    }
    let source = decoder_rate as i32;
    Some(EncoderSettings { sample_rate: select_best_rate(source, supported), time_base_num: 1, time_base_den: source, bit_rate })
}

/// The frame size that the filter sink must emit: the encoder's own when it
/// cannot take frames of varying size, none otherwise.
pub fn sink_frame_size(variable_frame_size: bool, encoder_frame_size: u32) -> (r: Option<u32>)
    ensures
        r == (if variable_frame_size { None } else { Some(encoder_frame_size) }),
{
    if variable_frame_size {
        None
    } else {
        Some(encoder_frame_size)
    }
}

/// Where a transcode stands. The stages come in this order and are never
/// skipped or repeated.
#[derive(Debug, Clone, Copy, PartialEq, Eq, Structural)]
pub enum Stage {
    /// Packets of the input are read, decoded, filtered and encoded.
    Reading,
    /// The input has ended: the filter's source is flushed and the frames
    /// left in it are encoded.
    FlushingFilter,
    /// The encoder is flushed and its last packets written.
    FlushingEncoder,
    /// The container's trailer is written.
    WritingTrailer,
    /// The output is complete.
    Finished,
}

pub open spec fn stage_index(s: Stage) -> int {
    match s {
        Stage::Reading => 0,
        Stage::FlushingFilter => 1,
        Stage::FlushingEncoder => 2,
        Stage::WritingTrailer => 3,
        Stage::Finished => 4,
    }
}

/// The stage after `s`; the last stays.
pub open spec fn next_stage(s: Stage) -> Stage {
    match s {
        Stage::Reading => Stage::FlushingFilter,
        Stage::FlushingFilter => Stage::FlushingEncoder,
        Stage::FlushingEncoder => Stage::WritingTrailer,
        Stage::WritingTrailer => Stage::Finished,
        Stage::Finished => Stage::Finished,
    }
}

/// The state of one file's transcode: the input stream it reads, its stage
/// and how many packets it has written. Owned by the task of that file.
pub struct TranscodeSession {
    stream: usize,
    stage: Stage,
    written: u64,
}

impl TranscodeSession {
    pub closed spec fn stream(&self) -> usize {
        self.stream
    }

    pub closed spec fn stage(&self) -> Stage {
        self.stage
    }

    pub closed spec fn written(&self) -> nat {
        self.written as nat
    }

    /// A transcode that reads input stream `stream`.
    pub fn new(stream: usize) -> (r: TranscodeSession)
        ensures
            r.stream() == stream,
            r.stage() == Stage::Reading,
            r.written() == 0,
    {
        TranscodeSession { stream, stage: Stage::Reading, written: 0 }
    }

    /// Whether a packet of input stream `stream_index` is decoded: only
    /// packets of the selected stream, and only while reading.
    pub fn accepts_packet(&self, stream_index: usize) -> (r: bool)
        ensures
            r == (self.stage() == Stage::Reading && stream_index == self.stream()),
    {
        match self.stage {
            Stage::Reading => stream_index == self.stream,
            _ => false,
        }
    }

    /// Whether encoded packets may still be written.
    pub fn accepts_output(&self) -> (r: bool)
        ensures
            r == (stage_index(self.stage()) <= 2),
    {
        match self.stage {
            Stage::Reading | Stage::FlushingFilter | Stage::FlushingEncoder => true,
            _ => false,
        }
    }

    /// Counts one packet written to the output.
    pub fn packet_written(&mut self)
        requires
            stage_index(old(self).stage()) <= 2,
            old(self).written() < u64::MAX,
        ensures
            final(self).stream() == old(self).stream(),
            final(self).stage() == old(self).stage(),
            final(self).written() == old(self).written() + 1,
    {
        self.written = self.written + 1;
    }

    /// How many packets have been written.
    pub fn packets_written(&self) -> (r: u64)
        ensures
            r == self.written(),
    {
        self.written
    }

    /// The current stage.
    pub fn current_stage(&self) -> (r: Stage)
        ensures
            r == self.stage(),
    {
        self.stage
    }

    /// Moves on to the next stage, once the work of this one is done.
    pub fn advance(&mut self) -> (r: Stage)
        ensures
            final(self).stream() == old(self).stream(),
            final(self).written() == old(self).written(),
            final(self).stage() == next_stage(old(self).stage()),
            r == final(self).stage(),
            old(self).stage() != Stage::Finished ==> stage_index(final(self).stage()) == stage_index(old(self).stage()) + 1,
    {
        self.stage = match self.stage {
            Stage::Reading => Stage::FlushingFilter,
            Stage::FlushingFilter => Stage::FlushingEncoder,
            Stage::FlushingEncoder => Stage::WritingTrailer,
            Stage::WritingTrailer => Stage::Finished,
            Stage::Finished => Stage::Finished,
        };
        self.stage
    }
}

} // verus!
