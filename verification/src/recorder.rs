use vstd::prelude::*;
use crate::text::{trim, opt_string_view};
use crate::audio_devices::sanitize_preferred_input;

verus! {

/// Why recording could not start or stop.
#[derive(Debug, Clone)]
pub enum RecordingError {
    AlreadyRecording,
    NotRecording,
    InputDeviceUnavailable,
    StreamConfig(String),
    StreamBuild(String),
    StreamPlay(String),
    UnsupportedFormat(String),
}

/// The device that last started a recording: its host and its name.
#[derive(Debug, Clone)]
pub struct CachedDevice {
    pub host_id: usize,
    pub device_name: String,
}

/// The state of the recorder: the sample rate of the running recording (none when idle),
/// the preferred input as the user named it, and the device that last worked.
pub struct RecordingManager {
    pub active_sample_rate: Option<u32>,
    pub preferred_input: Option<String>,
    pub cached_device: Option<CachedDevice>,
}

/// The preferred input kept by the recorder: trimmed, and none when blank.
pub open spec fn sanitized_input(name: Option<String>) -> Option<Seq<char>> {
    match name {
        Some(n) => if trim(n@).len() > 0 { Some(trim(n@)) } else { None },
        None => None,
    }
}

/// The recorder once a recording started at `rate` on `device`.
pub open spec fn started(s: RecordingManager, rate: u32, device: CachedDevice) -> RecordingManager {
    RecordingManager { active_sample_rate: Some(rate), cached_device: Some(device), ..s }
}

/// The recorder once its recording stopped.
pub open spec fn stopped(s: RecordingManager) -> RecordingManager {
    RecordingManager { active_sample_rate: None, ..s }
}

/// Whether a recording may start: only when none runs.
pub open spec fn start_allowed(s: RecordingManager) -> bool {
    s.active_sample_rate is None
}

/// What stopping answers: the running recording's sample rate and its size in bytes (four
/// per sample), or `NotRecording`.
pub open spec fn stop_outcome(s: RecordingManager, sample_count: nat) -> Option<(u32, int)> {
    match s.active_sample_rate {
        Some(rate) => Some((rate, (4 * sample_count) as int)),
        None => None,
    }
}

impl RecordingManager {
    /// An idle recorder with no preference and no known device.
    pub fn new() -> (r: RecordingManager)
        ensures
            r.active_sample_rate is None,
            r.preferred_input is None,
            r.cached_device is None,
    {
        RecordingManager { active_sample_rate: None, preferred_input: None, cached_device: None }
    }

    /// Sets the preferred input (trimmed, none when blank) and forgets the device that
    /// last worked.
    pub fn set_preferred_input_device(&mut self, name: Option<String>)
        ensures
            opt_string_view(final(self).preferred_input) == sanitized_input(name),
            final(self).cached_device is None,
            final(self).active_sample_rate == old(self).active_sample_rate,
    {
        self.preferred_input = sanitize_preferred_input(name);
        self.cached_device = None;
    }

    /// Forgets the device that last worked.
    pub fn clear_device_cache(&mut self)
        ensures
            final(self).cached_device is None,
            final(self).active_sample_rate == old(self).active_sample_rate,
            final(self).preferred_input == old(self).preferred_input,
    {
        self.cached_device = None;
    }

    /// The sample rate of the running recording.
    pub fn current_sample_rate(&self) -> (r: Option<u32>)
        ensures
            r == self.active_sample_rate,
    {
        self.active_sample_rate
    }

    /// Whether a start may go ahead: not while a recording runs.
    pub fn begin_start(&self) -> (r: Result<(), RecordingError>)
        ensures
            match r {
                Ok(()) => start_allowed(*self),
                Err(e) => !start_allowed(*self) && e is AlreadyRecording,
            },
    {
        if self.active_sample_rate.is_some() {
            Err(RecordingError::AlreadyRecording)
        } else {
            Ok(())
        }
    }

    /// Records how a start went: on success the recording runs at its sample rate and its
    /// device is remembered; on failure nothing changes and the error is handed back.
    pub fn finish_start(&mut self, outcome: Result<(u32, CachedDevice), RecordingError>) -> (r: Result<(), RecordingError>)
        requires
            old(self).active_sample_rate is None,
        ensures
            match outcome {
                Ok((rate, device)) => r is Ok && *final(self) == started(*old(self), rate, device),
                Err(e) => r == Err::<(), RecordingError>(e) && *final(self) == *old(self),
            },
    {
        match outcome {
            Ok((rate, device)) => {
                self.active_sample_rate = Some(rate);
                self.cached_device = Some(device);
                Ok(())
            },
            Err(e) => Err(e),
        }
    }

    /// Stops the running recording of `sample_count` samples: its sample rate and its size
    /// in bytes (four per sample), or `NotRecording` when none runs.
    pub fn stop(&mut self, sample_count: usize) -> (r: Result<(u32, u64), RecordingError>)
        requires
            sample_count <= u64::MAX / 4,
        ensures
            *final(self) == stopped(*old(self)),
            match stop_outcome(*old(self), sample_count as nat) {
                Some((rate, size)) => r matches Ok((s, z)) && s == rate && z == size,
                None => r matches Err(e) && e is NotRecording,
            },
    {
        match self.active_sample_rate {
            Some(rate) => {
                self.active_sample_rate = None;
                Ok((rate, (sample_count as u64) * 4))
            },
            None => Err(RecordingError::NotRecording),
        }
    }
}

/// The error of a start that found no usable device: the last device's error, or
/// `InputDeviceUnavailable` when there was no device to try.
pub fn start_failure(last_error: Option<RecordingError>) -> (r: RecordingError)
    ensures
        r == (match last_error { Some(e) => e, None => RecordingError::InputDeviceUnavailable }),
{
    match last_error {
        Some(e) => e,
        None => RecordingError::InputDeviceUnavailable,
    }
}

/// A recording runs from a successful start to the next stop: while it runs no other
/// may start; its stop answers the sample rate it started at; after the stop a new one may
/// start and a second stop finds nothing running.
pub proof fn lemma_start_stop_cycle(s: RecordingManager, rate: u32, device: CachedDevice, sample_count: nat)
    ensures
        !start_allowed(started(s, rate, device)),
        stop_outcome(started(s, rate, device), sample_count) == Some((rate, (4 * sample_count) as int)),
        start_allowed(stopped(started(s, rate, device))),
        stop_outcome(stopped(started(s, rate, device)), sample_count) is None,
        stopped(started(s, rate, device)).preferred_input == s.preferred_input,
        stopped(started(s, rate, device)).cached_device == Some(device),
{
}

/// The sample rate that transcription works at natively.
pub const PREFERRED_SAMPLE_RATE: u32 = 16000;

/// A range of input configurations that a device supports: a channel count and the sample
/// rates from `min_sample_rate` to `max_sample_rate`.
pub struct SupportedInputRange {
    pub channels: u16,
    pub min_sample_rate: u32,
    pub max_sample_rate: u32,
}

/// What an input stream is opened with.
pub struct StreamSettings {
    pub channels: u16,
    pub sample_rate: u32,
}

/// A supported range that offers the preferred rate at the given channel count.
pub open spec fn offers_preferred_rate(r: SupportedInputRange, channels: u16) -> bool {
    r.channels == channels && r.min_sample_rate <= PREFERRED_SAMPLE_RATE && PREFERRED_SAMPLE_RATE
        <= r.max_sample_rate
}

/// The settings to open a device's input stream with: the device's default channel count,
/// at the preferred rate when one of its supported ranges offers it at that channel count,
/// else at its default rate.
pub fn preferred_stream_config(supported: &Vec<SupportedInputRange>, default_channels: u16, default_sample_rate: u32) -> (r: StreamSettings)
    ensures
        r.channels == default_channels,
        r.sample_rate == if exists|i: int| 0 <= i < supported@.len() && offers_preferred_rate(#[trigger] supported@[i], default_channels) {
            PREFERRED_SAMPLE_RATE
        } else {
            default_sample_rate
        },
{
    let mut i: usize = 0;
    while i < supported.len()
        invariant
            i <= supported@.len(),
            forall|j: int| 0 <= j < i ==> !offers_preferred_rate(#[trigger] supported@[j], default_channels),
        decreases supported.len() - i,
    {
        let range = &supported[i];
        if range.channels == default_channels && range.min_sample_rate <= PREFERRED_SAMPLE_RATE
            && range.max_sample_rate >= PREFERRED_SAMPLE_RATE {
            assert(offers_preferred_rate(supported@[i as int], default_channels));
            return StreamSettings { channels: default_channels, sample_rate: PREFERRED_SAMPLE_RATE };
        }
        i += 1;
    }
    StreamSettings { channels: default_channels, sample_rate: default_sample_rate }
}

} // verus!
