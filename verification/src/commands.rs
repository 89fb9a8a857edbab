use vstd::prelude::*;
use vstd::utf8::*;
use vstd::string::StringSliceAdditionalSpecFns;
use crate::text::{chars_of, owned, concat_strs, trim, trim_chars, string_from_chars, opt_string_view};
use crate::transcription::{without_nul, remove_nul};

verus! {

broadcast use vstd::utf8::encode_utf8_decode_utf8;

/// What `start_recording` answers: the sample rate of the recording.
#[derive(Debug, Clone, Copy, PartialEq, Eq, Structural)]
pub struct StartRecordingResponse {
    pub sample_rate: u32,
}

/// The application in the foreground, with its icon as base64.
#[derive(Debug, Clone)]
pub struct CurrentAppInfoResponse {
    pub app_name: String,
    pub icon_base64: String,
}

/// The arguments of `app_target_upsert`.
#[derive(Debug, Clone)]
pub struct AppTargetUpsertArgs {
    pub id: String,
    pub name: String,
    pub tone_id: Option<String>,
    pub icon_path: Option<String>,
    pub paste_keybind: Option<String>,
}

/// The sound clips that `play_audio` can play.
#[derive(Debug, Clone, Copy, PartialEq, Eq, Structural)]
pub enum AudioClip {
    StartRecordingClip,
    StopRecordingClip,
    AlertLinuxClip,
    AlertMacosClip,
    AlertWindows10Clip,
    AlertWindows11Clip,
}

/// The arguments of `start_recording`.
#[derive(Debug, Clone)]
pub struct StartRecordingArgs {
    pub preferred_microphone: Option<String>,
}

impl Default for StartRecordingArgs {
    fn default() -> (r: Self)
        ensures
            r.preferred_microphone is None,
    {
        StartRecordingArgs { preferred_microphone: None }
    }
}

/// The arguments of `user_preferences_get`.
#[derive(Debug, Clone)]
pub struct UserPreferencesGetArgs {
    pub user_id: String,
}

/// The arguments of `storage_upload_data`.
#[derive(Debug, Clone)]
pub struct StorageUploadArgs {
    pub path: String,
    pub data: Vec<u8>,
}

/// A GPU chosen for transcription, by index, by name, or both.
#[derive(Debug, Clone)]
pub struct GpuDescriptor {
    pub id: Option<u32>,
    pub name: Option<String>,
}

/// Where a transcription runs.
#[derive(Debug, Clone)]
pub enum TranscriptionDevice {
    Cpu,
    Gpu(GpuDescriptor),
}

/// What the transcriber is asked for, besides the samples.
#[derive(Debug, Clone)]
pub struct TranscriptionRequest {
    pub device: Option<TranscriptionDevice>,
    pub model_path: Option<String>,
    pub initial_prompt: Option<String>,
    pub language: Option<String>,
}

pub open spec fn is_default_request(r: TranscriptionRequest) -> bool {
    &&& r.device is None
    &&& r.model_path is None
    &&& r.initial_prompt is None
    &&& r.language is None
}

impl Default for TranscriptionRequest {
    fn default() -> (r: Self)
        ensures
            is_default_request(r),
    {
        TranscriptionRequest { device: None, model_path: None, initial_prompt: None, language: None }
    }
}

/// The device that the front end selected for transcription.
#[derive(Debug, Clone)]
pub struct TranscriptionDeviceSelectionDto {
    pub cpu: bool,
    pub device_id: Option<u32>,
    pub device_name: Option<String>,
}

/// The device a selection asks for: the CPU when it says so, else a GPU when it names one
/// by index or by name, else none.
pub open spec fn selected_device(d: TranscriptionDeviceSelectionDto) -> Option<TranscriptionDevice> {
    if d.cpu {
        Some(TranscriptionDevice::Cpu)
    } else if d.device_id is Some || d.device_name is Some {
        Some(TranscriptionDevice::Gpu(GpuDescriptor { id: d.device_id, name: d.device_name }))
    } else {
        None
    }
}

impl TranscriptionDeviceSelectionDto {
    /// A default request with the selected device.
    pub fn into_request(self) -> (r: TranscriptionRequest)
        ensures
            r.device == selected_device(self),
            r.model_path is None,
            r.initial_prompt is None,
            r.language is None,
    {
        let mut request = TranscriptionRequest::default();
        if self.cpu {
            request.device = Some(TranscriptionDevice::Cpu);
            return request;
        }
        if self.device_id.is_some() || self.device_name.is_some() {
            request.device = Some(TranscriptionDevice::Gpu(GpuDescriptor { id: self.device_id, name: self.device_name }));
        }
        request
    }
}

/// The transcription options that the front end sends.
#[derive(Debug, Clone)]
pub struct TranscriptionOptionsDto {
    pub device: Option<TranscriptionDeviceSelectionDto>,
    pub model_size: Option<String>,
    pub initial_prompt: Option<String>,
    pub language: Option<String>,
}

/// A text option as the transcriber gets it: without NUL characters, trimmed, and only
/// when something is left.
pub open spec fn sanitized_option(value: Seq<char>) -> Option<Seq<char>> {
    if trim(without_nul(value)).len() > 0 {
        Some(trim(without_nul(value)))
    } else {
        None
    }
}

pub open spec fn sanitized_opt(value: Option<String>) -> Option<Seq<char>> {
    match value {
        Some(v) => sanitized_option(v@),
        None => None,
    }
}

/// `value` without NUL characters and trimmed, when something is left.
pub fn sanitize_option_text(value: &str) -> (r: Option<String>)
    ensures
        opt_string_view(r) == sanitized_option(value@),
{
    let v = chars_of(value);
    let clean = remove_nul(v.as_slice());
    let t = trim_chars(clean.as_slice());
    if t.len() > 0 {
        Some(string_from_chars(t.as_slice()))
    } else {
        None
    }
}

fn sanitize_opt(value: Option<String>) -> (r: Option<String>)
    ensures
        opt_string_view(r) == sanitized_opt(value),
{
    match value {
        Some(v) => sanitize_option_text(v.as_str()),
        None => None,
    }
}

/// The request built from the options of `transcribe_audio`, and the model size that the
/// options name, still to be parsed.
pub fn transcription_request_from_options(options: Option<TranscriptionOptionsDto>) -> (r: (TranscriptionRequest, Option<String>))
    ensures
        r.0.model_path is None,
        match options {
            None => is_default_request(r.0) && r.1 is None,
            Some(o) => {
                &&& r.0.device == (match o.device {
                    Some(d) => selected_device(d),
                    None => None,
                })
                &&& opt_string_view(r.0.initial_prompt) == sanitized_opt(o.initial_prompt)
                &&& opt_string_view(r.0.language) == sanitized_opt(o.language)
                &&& r.1 == o.model_size
            },
        },
{
    let mut request = TranscriptionRequest::default();
    match options {
        None => (request, None),
        Some(o) => {
            let TranscriptionOptionsDto { device, model_size, initial_prompt, language } = o;
            match device {
                Some(d) => {
                    request = d.into_request();
                },
                None => {},
            }
            request.initial_prompt = sanitize_opt(initial_prompt);
            request.language = sanitize_opt(language);
            (request, model_size)
        },
    }
}

/// The sample rate reported when none is known.
pub const DEFAULT_SAMPLE_RATE: u32 = 16000;

/// What `start_recording` answers, from how starting went (`Err` carries the message and
/// whether a recording was already running) and the recorder's current sample rate: an
/// already running recording counts as started.
pub fn start_recording_outcome(start: Result<(), (String, bool)>, current_sample_rate: Option<u32>) -> (r: Result<StartRecordingResponse, String>)
    ensures
        match start {
            Ok(()) => r == Ok::<StartRecordingResponse, String>(StartRecordingResponse {
                sample_rate: match current_sample_rate { Some(s) => s, None => DEFAULT_SAMPLE_RATE },
            }),
            Err((message, already_recording)) => if already_recording {
                r == Ok::<StartRecordingResponse, String>(StartRecordingResponse {
                    sample_rate: match current_sample_rate { Some(s) => s, None => DEFAULT_SAMPLE_RATE },
                })
            } else {
                r == Err::<StartRecordingResponse, String>(message)
            },
        },
{
    let rate = match current_sample_rate {
        Some(s) => s,
        None => DEFAULT_SAMPLE_RATE,
    };
    match start {
        Ok(()) => Ok(StartRecordingResponse { sample_rate: rate }),
        Err((message, already_recording)) => {
            if already_recording {
                Ok(StartRecordingResponse { sample_rate: rate })
            } else {
                Err(message)
            }
        },
    }
}

/// The error `stop_recording` answers when the recorder fails: a fixed message when no
/// recording was running, else the recorder's own message.
pub fn stop_recording_error(not_recording: bool, message: String) -> (r: String)
    ensures
        r@ == (if not_recording { "No recording is active. Please start a recording first."@ } else { message@ }),
{
    if not_recording {
        owned("No recording is active. Please start a recording first.")
    } else {
        message
    }
}

/// The checks before audio is stored: a sample rate of zero is refused first, then a
/// clip with no usable (finite) sample.
pub fn check_audio_to_store(sample_rate: u32, usable_samples: usize) -> (r: Result<(), String>)
    ensures
        match r {
            Ok(()) => sample_rate > 0 && usable_samples > 0,
            Err(e) => if sample_rate == 0 {
                e@ == "Audio sample rate must be greater than zero"@
            } else {
                usable_samples == 0 && e@ == "No usable audio samples provided"@
            },
        },
{
    if sample_rate == 0 {
        return Err(owned("Audio sample rate must be greater than zero"));
    }
    check_usable_samples(usable_samples)
}

/// A clip with no usable (finite) sample is refused.
pub fn check_usable_samples(usable_samples: usize) -> (r: Result<(), String>)
    ensures
        match r {
            Ok(()) => usable_samples > 0,
            Err(e) => usable_samples == 0 && e@ == "No usable audio samples provided"@,
        },
{
    if usable_samples == 0 {
        Err(owned("No usable audio samples provided"))
    } else {
        Ok(())
    }
}

/// What `transcribe_audio` answers from the transcriber's result: the text trimmed, or
/// the error unchanged.
pub fn finish_transcription(result: Result<String, String>) -> (r: Result<String, String>)
    ensures
        match result {
            Ok(t) => r matches Ok(u) && u@ == trim(t@),
            Err(e) => r == Err::<String, String>(e),
        },
{
    match result {
        Ok(t) => Ok(crate::text::trim_string(t.as_str())),
        Err(e) => Err(e),
    }
}

/// The page of transcriptions that `transcription_list` reads: twenty from the start
/// unless the caller says otherwise.
pub fn transcription_page(limit: Option<u32>, offset: Option<u32>) -> (r: (u32, u32))
    ensures
        r.0 == (match limit { Some(l) => l, None => 20u32 }),
        r.1 == (match offset { Some(o) => o, None => 0u32 }),
{
    let l = match limit {
        Some(l) => l,
        None => 20u32,
    };
    let o = match offset {
        Some(o) => o,
        None => 0u32,
    };
    (l, o)
}

/// How many transcriptions keep their audio.
pub const MAX_RETAINED_TRANSCRIPTION_AUDIO: usize = 20;

/// The audio entries to purge from `(id, audio path)` rows ordered newest first: all but
/// the newest twenty, in their order.
pub fn stale_audio_entries(rows: Vec<(String, String)>) -> (r: Vec<(String, String)>)
    ensures
        r@ == (if rows@.len() > MAX_RETAINED_TRANSCRIPTION_AUDIO {
            rows@.skip(MAX_RETAINED_TRANSCRIPTION_AUDIO as int)
        } else {
            Seq::empty()
        }),
{
    if rows.len() <= MAX_RETAINED_TRANSCRIPTION_AUDIO {
        return Vec::new();
    }
    let mut kept = rows;
    let stale = kept.split_off(MAX_RETAINED_TRANSCRIPTION_AUDIO);
    assert(stale@ =~= rows@.skip(MAX_RETAINED_TRANSCRIPTION_AUDIO as int));
    stale
}

/// The path of a transcription's audio snapshot, when there is one and it lies in the
/// managed directory.
pub fn audio_snapshot_path(audio_path: Option<String>, inside_audio_dir: bool) -> (r: Result<String, String>)
    ensures
        match audio_path {
            None => r matches Err(e) && e@ == "No audio snapshot available for this transcription"@,
            Some(p) => if inside_audio_dir {
                r == Ok::<String, String>(p)
            } else {
                r matches Err(e) && e@ == "Audio snapshot path is outside the managed directory"@
            },
        },
{
    match audio_path {
        None => Err(owned("No audio snapshot available for this transcription")),
        Some(p) => {
            if inside_audio_dir {
                Ok(p)
            } else {
                Err(owned("Audio snapshot path is outside the managed directory"))
            }
        },
    }
}

/// The short id in an export's file name: the first eight bytes of the id, or all of it.
pub open spec fn short_id(id: &str) -> Seq<char> {
    if id.spec_bytes().len() > 8 {
        decode_utf8(id.spec_bytes().subrange(0, 8))
    } else {
        id@
    }
}

/// The file name offered when a transcription is exported: `voquill-<short id>.zip`.
pub fn export_file_name(id: &str) -> (r: String)
    requires
        id.spec_bytes().len() <= usize::MAX,
        id.spec_bytes().len() > 8 ==> is_char_boundary(id.spec_bytes(), 8),
    ensures
        r@ == "voquill-"@ + short_id(id) + ".zip"@,
{
    let with_id = if id.len() > 8 {
        let (short, _rest) = id.split_at(8);
        proof {
            assert(short.spec_bytes() == id.spec_bytes().subrange(0, 8));
            assert(decode_utf8(encode_utf8(short@)) == short@);
        }
        concat_strs("voquill-", short)
    } else {
        concat_strs("voquill-", id)
    };
    concat_strs(with_id.as_str(), ".zip")
}

/// Whether an export holds the raw transcript: only when there is one and it is not empty.
pub fn export_includes_raw(raw_transcript: &Option<String>) -> (r: bool)
    ensures
        r == (match raw_transcript { Some(t) => t@.len() > 0, None => false }),
{
    match raw_transcript {
        Some(t) => t.as_str().unicode_len() > 0,
        None => false,
    }
}

/// The title set on the tray icon: the given title when it is not empty, else nothing.
pub fn tray_title_text(title: &Option<String>) -> (r: String)
    ensures
        r@ == (match title { Some(t) => if t@.len() > 0 { t@ } else { ""@ }, None => ""@ }),
{
    match title {
        Some(t) => {
            if t.as_str().unicode_len() > 0 {
                t.clone()
            } else {
                owned("")
            }
        },
        None => owned(""),
    }
}

/// The tables that `clear_local_data` empties, in order.
pub open spec fn cleared_tables() -> Seq<Seq<char>> {
    seq!["user_profiles"@, "transcriptions"@, "terms"@, "hotkeys"@, "api_keys"@, "user_preferences"@]
}

/// The statements that `clear_local_data` runs in one transaction: `DELETE FROM <table>`
/// for each table that it empties.
pub fn clear_local_data_statements() -> (r: Vec<String>)
    ensures
        r@.len() == cleared_tables().len(),
        forall|k: int| 0 <= k < r@.len() ==> #[trigger] r@[k]@ == "DELETE FROM "@ + cleared_tables()[k],
{
    let mut v: Vec<String> = Vec::new();
    v.push(concat_strs("DELETE FROM ", "user_profiles"));
    v.push(concat_strs("DELETE FROM ", "transcriptions"));
    v.push(concat_strs("DELETE FROM ", "terms"));
    v.push(concat_strs("DELETE FROM ", "hotkeys"));
    v.push(concat_strs("DELETE FROM ", "api_keys"));
    v.push(concat_strs("DELETE FROM ", "user_preferences"));
    v
}

/// A millisecond count as a timestamp: counts beyond `i64::MAX` are capped there.
pub fn timestamp_from_millis(millis: u128) -> (r: i64)
    ensures
        r == (if millis <= i64::MAX as u128 { millis as int } else { i64::MAX as int }),
{
    if millis <= 9223372036854775807u128 {
        millis as i64
    } else {
        i64::MAX
    }
}

/// The current time in milliseconds since the epoch, from the clock's reading (an `Err`
/// when the clock stands before the epoch).
pub fn current_timestamp_millis(elapsed_millis: Result<u128, String>) -> (r: Result<i64, String>)
    ensures
        match elapsed_millis {
            Ok(ms) => r == Ok::<i64, String>(
                if ms <= i64::MAX as u128 { ms as i64 } else { i64::MAX },
            ),
            Err(e) => r == Err::<i64, String>(e),
        },
{
    match elapsed_millis {
        Ok(ms) => Ok(timestamp_from_millis(ms)),
        Err(e) => Err(e),
    }
}

/// The creation time a saved tone gets: that of the stored tone when it exists, else the
/// one given when positive; `None` when neither, and the tone is stamped with the current
/// time.
pub fn tone_created_at(existing_created_at: Option<i64>, requested_created_at: i64) -> (r: Option<i64>)
    ensures
        r == (match existing_created_at {
            Some(c) => Some(c),
            None => if requested_created_at > 0 { Some(requested_created_at) } else { None },
        }),
{
    match existing_created_at {
        Some(c) => Some(c),
        None => {
            if requested_created_at > 0 {
                Some(requested_created_at)
            } else {
                None
            }
        },
    }
}

} // verus!
