use vstd::prelude::*;

verus! {

/// The PCM encoding the recognizer expects: signed 16-bit little-endian.
pub const TARGET_SAMPLE_RATE: u32 = 16000;

/// Mono capture.
pub const TARGET_CHANNELS: u16 = 1;

/// The native sample formats the capture path can convert.
#[derive(Clone, Copy, Debug, PartialEq, Eq, Structural)]
pub enum SampleFormat {
    I16,
    U16,
    F32,
    Other,
}

/// Fatal capture-side failures; each session reports one at most once.
#[derive(Clone, Copy, Debug, PartialEq, Eq, Structural)]
pub enum AudioError {
    /// No input device is available.
    NoDevice,
    /// The device offers no default input configuration.
    NoDefaultConfig,
    /// The device's native sample format cannot be converted.
    UnsupportedFormat,
    /// Building the input stream failed.
    BuildFailed,
    /// Starting the input stream failed.
    StartFailed,
}

/// The stream configuration requested from the device.
#[derive(Clone, Copy, Debug, PartialEq, Eq, Structural)]
pub struct StreamRequest {
    pub sample_rate: u32,
    pub channels: u16,
}

/// The unsigned 16-bit pattern that holds a sample's two's-complement bits.
pub open spec fn sample_rep(s: i16) -> int {
    if s >= 0 {
        s as int
    } else {
        s as int + 0x10000
    }
}

/// The two little-endian bytes of one sample.
pub open spec fn le_bytes_of(s: i16) -> Seq<u8> {
    seq![(sample_rep(s) % 256) as u8, (sample_rep(s) / 256) as u8]
}

/// A whole batch of samples as the raw bytes of one audio frame.
pub open spec fn pcm_bytes_of(samples: Seq<i16>) -> Seq<u8>
    decreases samples.len(),
{
    if samples.len() == 0 {
        Seq::empty()
    } else {
        pcm_bytes_of(samples.drop_last()) + le_bytes_of(samples.last())
    }
}

/// An unsigned sample re-centered around zero by subtracting the midpoint.
pub open spec fn recentered(s: u16) -> i16 {
    (s as int - 0x8000) as i16
}

/// A whole unsigned batch re-centered.
pub open spec fn recentered_all(samples: Seq<u16>) -> Seq<i16> {
    samples.map_values(|s: u16| recentered(s))
}

/// Re-centers one unsigned 16-bit sample by subtracting the unsigned midpoint.
pub fn recenter_u16(s: u16) -> (r: i16)
    ensures
        r == recentered(s),
        r as int == s as int - 0x8000,
{
    ((s as i32) - 0x8000) as i16
}

/// Encodes a batch of signed 16-bit samples as little-endian frame bytes.
pub fn encode_frame_i16(samples: &Vec<i16>) -> (r: Vec<u8>)
    ensures
        r@ == pcm_bytes_of(samples@),
        r@.len() == 2 * samples@.len(),
{
    let n = samples.len();
    let mut out: Vec<u8> = Vec::new();
    let mut i: usize = 0;
    while i < n
        invariant
            n == samples@.len(),
            0 <= i <= n,
            out@ == pcm_bytes_of(samples@.subrange(0, i as int)),
            out@.len() == 2 * i,
        decreases n - i,
    {
        let s = samples[i];
        let rep: u32 = if s >= 0 {
            s as u32
        } else {
            ((s as i32) + 0x10000) as u32
        };
        proof {
            assert(rep == sample_rep(samples@[i as int]));
        }
        out.push((rep % 256) as u8);
        out.push((rep / 256) as u8);
        proof {
            assert(samples@.subrange(0, i + 1).drop_last() =~= samples@.subrange(0, i as int));
            assert(out@ =~= pcm_bytes_of(samples@.subrange(0, i as int)) + le_bytes_of(
                samples@[i as int]));
        }
        i += 1;
    }
    proof {
        assert(samples@.subrange(0, n as int) =~= samples@);
    }
    out
}

/// Encodes a batch of unsigned 16-bit samples: re-centers each around zero,
/// then encodes little-endian.
pub fn encode_frame_u16(samples: &Vec<u16>) -> (r: Vec<u8>)
    ensures
        r@ == pcm_bytes_of(recentered_all(samples@)),
        r@.len() == 2 * samples@.len(),
{
    let n = samples.len();
    let mut conv: Vec<i16> = Vec::new();
    let mut i: usize = 0;
    while i < n
        invariant
            n == samples@.len(),
            0 <= i <= n,
            conv@ == recentered_all(samples@.subrange(0, i as int)),
        decreases n - i,
    {
        conv.push(recenter_u16(samples[i]));
        proof {
            assert(conv@ =~= recentered_all(samples@.subrange(0, i + 1)));
        }
        i += 1;
    }
    proof {
        assert(samples@.subrange(0, n as int) =~= samples@);
        assert(recentered_all(samples@).len() == samples@.len());
    }
    encode_frame_i16(&conv)
}

/// One run of the capture callback over a signed batch: after a stop
/// observation frames are discarded, an empty batch queues nothing, and
/// otherwise the converted frame is handed back for the bounded queue.
pub fn capture_step_i16(stopped: bool, samples: &Vec<i16>) -> (r: Option<Vec<u8>>)
    ensures
        stopped ==> r is None,
        !stopped && samples@.len() == 0 ==> r is None,
        !stopped && samples@.len() > 0 ==> r is Some && r->Some_0@ == pcm_bytes_of(samples@),
{
    if stopped || samples.len() == 0 {
        None
    } else {
        Some(encode_frame_i16(samples))
    }
}

/// One run of the capture callback over an unsigned batch.
pub fn capture_step_u16(stopped: bool, samples: &Vec<u16>) -> (r: Option<Vec<u8>>)
    ensures
        stopped ==> r is None,
        !stopped && samples@.len() == 0 ==> r is None,
        !stopped && samples@.len() > 0 ==> r is Some && r->Some_0@ == pcm_bytes_of(
            recentered_all(samples@)),
{
    if stopped || samples.len() == 0 {
        None
    } else {
        Some(encode_frame_u16(samples))
    }
}

/// Decides the stream configuration to request from the device, failing fast
/// on a native format the conversion path cannot honor rather than streaming
/// wrongly converted audio.
pub fn stream_request(format: SampleFormat) -> (r: Result<StreamRequest, AudioError>)
    ensures
        r is Err <==> format == SampleFormat::Other,
        r is Err ==> r->Err_0 == AudioError::UnsupportedFormat,
        r is Ok ==> r->Ok_0.sample_rate == TARGET_SAMPLE_RATE && r->Ok_0.channels
            == TARGET_CHANNELS,
{
    if format == SampleFormat::Other {
        Err(AudioError::UnsupportedFormat)
    } else {
        Ok(StreamRequest { sample_rate: TARGET_SAMPLE_RATE, channels: TARGET_CHANNELS })
    }
}

} // verus!
