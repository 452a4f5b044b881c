use vstd::prelude::*;
use vstd::string::StringExecFns;

verus! {

/// Format negotiated with the capture device, fixed at startup.
#[derive(Clone, Copy, Debug, PartialEq, Eq, Structural)]
pub struct StreamFormat {
    pub sample_rate: u32,
    pub channels: u16,
    pub bits_per_sample: u16,
    pub is_float: bool,
}

impl StreamFormat {
    /// The format of a device stream whose samples take `sample_size` bytes;
    /// `None` where the bit depth does not fit in 16 bits.
    pub fn from_device(sample_rate: u32, channels: u16, sample_size: usize, is_float: bool) -> (r:
        Option<StreamFormat>)
        ensures
            r is None <==> sample_size * 8 > u16::MAX,
            r matches Some(f) ==> f.sample_rate == sample_rate && f.channels == channels
                && f.bits_per_sample == sample_size * 8 && f.is_float == is_float,
    {
        if sample_size > 8191 {
            None
        } else {
            Some(
                StreamFormat {
                    sample_rate,
                    channels,
                    bits_per_sample: (sample_size * 8) as u16,
                    is_float,
                },
            )
        }
    }

    /// Samples held by a window of `seconds` of this stream.
    pub fn window_samples(&self, seconds: usize) -> (r: Option<usize>)
        ensures
            r is None <==> self.sample_rate * self.channels * seconds > usize::MAX,
            r matches Some(c) ==> c == self.sample_rate * self.channels * seconds,
    {
        window_capacity(self.sample_rate as usize, self.channels as usize, seconds)
    }
}

/// Number of interleaved samples in `seconds` of audio; `None` where it does
/// not fit in a `usize`.
pub fn window_capacity(sample_rate: usize, channels: usize, seconds: usize) -> (r: Option<usize>)
    ensures
        r is None <==> sample_rate * channels * seconds > usize::MAX,
        r matches Some(c) ==> c == sample_rate * channels * seconds,
{
    if seconds == 0 {
        assert(sample_rate * channels * 0 == 0) by (nonlinear_arith);
        return Some(0);
    }
    match sample_rate.checked_mul(channels) {
        Some(a) => a.checked_mul(seconds),
        None => {
            assert(sample_rate * channels * seconds >= sample_rate * channels) by (nonlinear_arith)
                requires
                    seconds >= 1,
                    sample_rate * channels >= 0,
            ;
            None
        },
    }
}

/// Name of the file a clip is saved to, from the formatted time of saving.
pub fn recording_file_name(stamp: &str) -> (r: String)
    ensures
        r@ == "recorded_"@ + stamp@ + ".wav"@,
{
    let mut r = String::from_str("recorded_");
    r.append(stamp);
    r.append(".wav");
    r
}

} // verus!
