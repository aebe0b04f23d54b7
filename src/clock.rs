//! The playback clock's duration, from an audio file's header.
use vstd::prelude::*;

verus! {

#[derive(Clone, Copy, Debug, PartialEq, Eq, Structural)]
pub enum AudioFormatError {
    /// The header gives a sample rate of zero, so the audio has no duration.
    ZeroSampleRate,
}

/// The length in whole milliseconds, rounded down, of `samples` samples per
/// channel played at `sample_rate` samples per second.
pub open spec fn duration_ms(samples: int, sample_rate: int) -> int {
    samples * 1000 / sample_rate
}

/// The duration in milliseconds of audio with `samples` samples per channel at
/// `sample_rate` samples per second, or an error for a zero sample rate.
pub fn wav_duration_ms(samples: u32, sample_rate: u32) -> (r: Result<u64, AudioFormatError>)
    ensures
        sample_rate == 0 <==> r == Err::<u64, AudioFormatError>(AudioFormatError::ZeroSampleRate),
        r is Ok ==> r->Ok_0 == duration_ms(samples as int, sample_rate as int),
{
    if sample_rate == 0 {
        return Err(AudioFormatError::ZeroSampleRate);
    }
    let scaled: u64 = samples as u64 * 1000;
    Ok(scaled / sample_rate as u64)
}

} // verus!
