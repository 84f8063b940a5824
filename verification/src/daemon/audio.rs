//! Choosing the input stream.

use vstd::prelude::*;

verus! {

/// The sample format of an input device.
#[derive(Clone, Copy, Debug, PartialEq, Eq, Structural)]
pub enum SampleFormat {
    F32,
    I16,
    U16,
    Other,
}

/// A configuration that an input device offers: a number of channels and a range of rates.
#[derive(Clone, Copy, Debug, PartialEq, Eq, Structural)]
pub struct SupportedConfig {
    pub channels: u16,
    pub min_sample_rate: u32,
    pub max_sample_rate: u32,
}

/// The configuration of a stream.
#[derive(Clone, Copy, Debug, PartialEq, Eq, Structural)]
pub struct StreamConfig {
    pub channels: u16,
    pub sample_rate: u32,
}

/// Why no stream can be opened.
#[derive(Clone, Copy, Debug, PartialEq, Eq, Structural)]
pub enum AudioError {
    NoInputDevice,
    UnsupportedFormat,
}

/// The default input device.
#[derive(Debug)]
pub struct InputDevice {
    pub format: SampleFormat,
    pub default_config: StreamConfig,
    pub supported: Vec<SupportedConfig>,
}

/// Mono at 16 kHz.
pub open spec fn whisper_config() -> StreamConfig {
    StreamConfig { channels: 1, sample_rate: 16000 }
}

/// A device configuration whose one rate is 16 kHz, in mono. A range that merely holds 16 kHz
/// does not count: devices report ranges that they do not honour.
pub open spec fn natively_whisper(c: SupportedConfig) -> bool {
    c.channels == 1 && c.min_sample_rate == 16000 && c.max_sample_rate == 16000
}

/// Some configuration is natively 16 kHz mono.
pub open spec fn any_native(cs: Seq<SupportedConfig>) -> bool {
    exists|i: int| 0 <= i < cs.len() && natively_whisper(#[trigger] cs[i])
}

/// The stream to open on the default input device: 16 kHz mono where the device has exactly
/// that, else the default configuration of the device.
pub open spec fn chosen_stream(device: Option<InputDevice>) -> Result<StreamConfig, AudioError> {
    match device {
        None => Err(AudioError::NoInputDevice),
        Some(d) => if d.format == SampleFormat::Other {
            Err(AudioError::UnsupportedFormat)
        } else if any_native(d.supported@) {
            Ok(whisper_config())
        } else {
            Ok(d.default_config)
        },
    }
}

/// The recording side of the daemon.
#[derive(Clone, Copy, Debug, PartialEq, Eq, Structural)]
pub struct AudioEngine {
    /// The stream that was chosen.
    pub stream: Option<StreamConfig>,
}

impl AudioEngine {
    /// An engine without a stream.
    pub fn new() -> (r: AudioEngine)
        ensures
            r.stream is None,
    {
        AudioEngine { stream: None }
    }

    /// Chooses the stream, and gives its sample rate.
    pub fn start(&mut self, device: &Option<InputDevice>) -> (r: Result<u32, AudioError>)
        ensures
            match chosen_stream(*device) {
                Ok(c) => r == Ok::<u32, AudioError>(c.sample_rate) && final(self).stream == Some(c),
                Err(e) => r == Err::<u32, AudioError>(e) && *final(self) == *old(self),
            },
    {
        match choose_stream(device) {
            Ok(c) => {
                self.stream = Some(c);
                Ok(c.sample_rate)
            },
            Err(e) => Err(e),
        }
    }
}

fn choose_stream(device: &Option<InputDevice>) -> (r: Result<StreamConfig, AudioError>)
    ensures
        r == chosen_stream(*device),
{
    match device {
        None => Err(AudioError::NoInputDevice),
        Some(d) => {
            let mut i: usize = 0;
            let mut config: StreamConfig = d.default_config;
            while i < d.supported.len()
                invariant
                    i <= d.supported.len(),
                    config == (if any_native(d.supported@.take(i as int)) {
                        whisper_config()
                    } else {
                        d.default_config
                    }),
                decreases d.supported.len() - i,
            {
                let c: SupportedConfig = d.supported[i];
                let ghost now = d.supported@.take(i as int);
                let ghost next = d.supported@.take(i + 1);
                if c.channels == 1 && c.min_sample_rate == 16000 && c.max_sample_rate == 16000 {
                    config = StreamConfig { channels: 1, sample_rate: 16000 };
                    assert(natively_whisper(next[i as int]));
                } else {
                    assert(any_native(now) <==> any_native(next)) by {
                        if any_native(now) {
                            let k = choose|k: int|
                                0 <= k < now.len() && natively_whisper(#[trigger] now[k]);
                            assert(natively_whisper(next[k]));
                        }
                        if any_native(next) {
                            let k = choose|k: int|
                                0 <= k < next.len() && natively_whisper(#[trigger] next[k]);
                            assert(k < i);
                            assert(natively_whisper(now[k]));
                        }
                    }
                }
                i = i + 1;
            }
            assert(d.supported@.take(i as int) =~= d.supported@);
            match d.format {
                SampleFormat::Other => Err(AudioError::UnsupportedFormat),
                _ => Ok(config),
            }
        },
    }
}

impl AudioError {
    /// The text shown to the operator.
    pub fn message(&self) -> (r: String)
        ensures
            r@ == match *self {
                AudioError::NoInputDevice => "No input device found"@,
                AudioError::UnsupportedFormat => "Unsupported sample format"@,
            },
    {
        match self {
            AudioError::NoInputDevice => "No input device found".to_owned(),
            AudioError::UnsupportedFormat => "Unsupported sample format".to_owned(),
        }
    }
}

/// Which stream is opened: one channel at sixteen thousand samples a second, where some
/// configuration of the device has one channel and no other rate; otherwise the default of the
/// device. Without a device, or with one of an unknown format, there is none.
pub proof fn which_stream_is_opened(d: InputDevice)
    ensures
        chosen_stream(None) == Err::<StreamConfig, AudioError>(AudioError::NoInputDevice),
        chosen_stream(Some(d)) is Err <==> d.format == SampleFormat::Other,
        d.format == SampleFormat::Other ==> chosen_stream(Some(d))
            == Err::<StreamConfig, AudioError>(AudioError::UnsupportedFormat),
        d.format != SampleFormat::Other && (exists|i: int|
            0 <= i < d.supported@.len() && (#[trigger] d.supported@[i]).channels == 1
                && d.supported@[i].min_sample_rate == 16000 && d.supported@[i].max_sample_rate
                == 16000) ==> chosen_stream(Some(d)) == Ok::<StreamConfig, AudioError>(
            StreamConfig { channels: 1, sample_rate: 16000 },
        ),
        d.format != SampleFormat::Other && !(exists|i: int|
            0 <= i < d.supported@.len() && (#[trigger] d.supported@[i]).channels == 1
                && d.supported@[i].min_sample_rate == 16000 && d.supported@[i].max_sample_rate
                == 16000) ==> chosen_stream(Some(d)) == Ok::<StreamConfig, AudioError>(
            d.default_config,
        ),
{
    let cs = d.supported@;
    if any_native(cs) {
        let i = choose|i: int| 0 <= i < cs.len() && natively_whisper(#[trigger] cs[i]);
        assert(cs[i].channels == 1);
    }
    if exists|i: int|
        0 <= i < cs.len() && (#[trigger] cs[i]).channels == 1 && cs[i].min_sample_rate == 16000
            && cs[i].max_sample_rate == 16000 {
        let i = choose|i: int|
            0 <= i < cs.len() && (#[trigger] cs[i]).channels == 1 && cs[i].min_sample_rate == 16000
                && cs[i].max_sample_rate == 16000;
        assert(natively_whisper(cs[i]));
    }
}

} // verus!
