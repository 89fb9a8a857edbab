use voquill::transcription::{
    check_transcription_input, collect_transcription, context_cache_key, cpu_devices, describe_gpu_device,
    ensure_gpu_runtime_available, gpu_device_index, gpu_runtime_status, remove_nul, resolve_device,
    silence_frame_size, trim_frame_size, trim_silence_bounds, whisper_language, whisper_prompt, ComputeDevice, ComputeMode,
};

fn device(id: &str, name: &str) -> ComputeDevice {
    ComputeDevice { id: id.to_string(), name: name.to_string() }
}

fn voiced(pattern: &[(usize, bool)]) -> Vec<bool> {
    pattern.iter().flat_map(|&(n, v)| std::iter::repeat(v).take(n)).collect()
}

#[test]
fn cpu_engine_offers_the_cpu() {
    let d = cpu_devices();
    assert_eq!(d.len(), 1);
    assert_eq!((d[0].id.as_str(), d[0].name.as_str()), ("cpu:0", "CPU"));
    assert_eq!(ComputeMode::Cpu.as_str(), "cpu");
    assert_eq!(ComputeMode::Gpu.as_str(), "gpu");
}

#[test]
fn device_resolution() {
    let devices = || vec![device("gpu:0", "A"), device("gpu:1", "B"), device("gpu:1", "C")];
    assert_eq!(resolve_device(devices(), None, ComputeMode::Gpu).ok().map(|d| d.name), Some("A".to_string()));
    assert_eq!(resolve_device(devices(), Some("  "), ComputeMode::Gpu).ok().map(|d| d.name), Some("A".to_string()));
    assert_eq!(resolve_device(devices(), Some(" gpu:1 "), ComputeMode::Gpu).ok().map(|d| d.name), Some("B".to_string()));
    assert_eq!(resolve_device(devices(), Some("gpu:7"), ComputeMode::Gpu).err(), Some("unsupported deviceId 'gpu:7'".to_string()));
    assert_eq!(resolve_device(vec![], None, ComputeMode::Cpu).err(), Some("no cpu devices available".to_string()));
    assert_eq!(resolve_device(vec![], Some("x"), ComputeMode::Gpu).err(), Some("no gpu devices available".to_string()));
}

#[test]
fn frame_size_of_twenty_ms() {
    assert_eq!(silence_frame_size(16000, 20), 320);
    assert_eq!(silence_frame_size(44100, 10), 441);
    assert_eq!(silence_frame_size(10, 20), 0);
}

#[test]
fn trim_silence_bounds_removes_leading_and_trailing_silence() {
    let frame = 320;
    let v = voiced(&[(10, false), (50, true), (10, false)]);
    let len = 70 * frame;
    let (start, end) = trim_silence_bounds(len, frame, &v, 0);
    assert_eq!((start, end), (10 * frame, 60 * frame));
    assert!(end - start < len);
    assert!(end - start >= 50 * frame);
}

#[test]
fn trim_silence_bounds_preserves_padding() {
    let frame = 320;
    let v = voiced(&[(15, false), (25, true), (15, false)]);
    let len = 55 * frame;
    let (s0, e0) = trim_silence_bounds(len, frame, &v, 0);
    let (s1, e1) = trim_silence_bounds(len, frame, &v, 10);
    assert!(e1 - s1 >= (e0 - s0) + 10 * 2 * frame);
    assert!(e1 - s1 < len);
    assert_eq!((s1, e1), (5 * frame, 50 * frame));
}

#[test]
fn trim_silence_bounds_keeps_everything_when_all_silent() {
    let frame = 320;
    let v = voiced(&[(50, false)]);
    assert_eq!(trim_silence_bounds(50 * frame, frame, &v, 10), (0, 50 * frame));
}

#[test]
fn trim_silence_bounds_short_last_frame() {
    let v = voiced(&[(1, false), (1, true), (1, false)]);
    assert_eq!(trim_silence_bounds(25, 10, &v, 0), (10, 20));
    assert_eq!(trim_silence_bounds(25, 10, &v, 1), (0, 25));
}

#[test]
fn gpu_indices() {
    assert_eq!(gpu_device_index("cuda:0"), Ok(0));
    assert_eq!(gpu_device_index("vulkan:12"), Ok(12));
    assert_eq!(gpu_device_index("a:b:1"), Err("invalid gpu device id 'a:b:1'".to_string()));
    assert_eq!(gpu_device_index("gpu"), Err("invalid gpu device id 'gpu'".to_string()));
    assert_eq!(gpu_device_index("gpu:99999999999"), Err("invalid gpu device id 'gpu:99999999999'".to_string()));
    assert_eq!(gpu_device_index("gpu:-1"), Ok(-1));
}

#[test]
fn transcript_pieces_joined() {
    let pieces: Vec<String> = vec!["  Hello ".into(), "".into(), "world.".into(), "   ".into(), " Bye".into()];
    assert_eq!(collect_transcription(&pieces), "Hello world. Bye");
    assert_eq!(collect_transcription(&vec![]), "");
}

#[test]
fn gpu_labels() {
    let some = |s: &str| Some(s.to_string());
    assert_eq!(describe_gpu_device(some("NVIDIA RTX"), some("CUDA0"), some("CUDA")), "NVIDIA RTX (CUDA)");
    assert_eq!(describe_gpu_device(some(""), some("Vulkan0"), some("vulkan0")), "Vulkan0");
    assert_eq!(describe_gpu_device(None, None, None), "GPU");
    assert_eq!(describe_gpu_device(None, some("Metal"), some("")), "Metal");
}

#[test]
fn transcription_input_checks() {
    assert_eq!(check_transcription_input(0, 10, 10, 10), Err("sampleRate must be greater than 0".to_string()));
    assert_eq!(check_transcription_input(16000, 0, 0, 0), Err("samples must not be empty".to_string()));
    assert_eq!(check_transcription_input(16000, 10, 0, 0), Err("no finite samples provided".to_string()));
    assert_eq!(check_transcription_input(16000, 10, 10, 0), Err("unable to resample audio".to_string()));
    assert_eq!(check_transcription_input(16000, 10, 10, 10), Ok(()));
}

#[test]
fn prompt_and_language() {
    assert_eq!(remove_nul(&['a', '\0', 'b']), vec!['a', 'b']);
    assert_eq!(whisper_language(Some("  en ")), Some("en".to_string()));
    assert_eq!(whisper_language(Some("  ")), None);
    assert_eq!(whisper_language(None), None);
    assert_eq!(whisper_prompt(Some(" a\0b ")), Some("ab".to_string()));
    assert_eq!(whisper_prompt(Some("\0")), None);
    assert_eq!(whisper_prompt(None), None);
    assert_eq!(context_cache_key("/m/model.bin", "cuda:0"), "/m/model.bin#cuda:0");
}

#[test]
fn gpu_runtime() {
    assert_eq!(ensure_gpu_runtime_available(), Err("gpu runtime check requested but gpu feature is not enabled".to_string()));
    assert_eq!(gpu_runtime_status(0), Err("no GPU-capable backend detected".to_string()));
    assert_eq!(gpu_runtime_status(2), Ok(()));
}

use voquill::transcription::{context_uses_gpu, list_devices_blocking, resolve_device_blocking};

#[test]
fn engine_devices_without_gpu_support() {
    let cpu = list_devices_blocking(ComputeMode::Cpu).ok().unwrap();
    assert_eq!(cpu.len(), 1);
    assert_eq!(list_devices_blocking(ComputeMode::Gpu).err(), Some("gpu mode requested but binary was built without gpu feature".to_string()));
    assert_eq!(resolve_device_blocking(ComputeMode::Cpu, None).ok().map(|d| d.id), Some("cpu:0".to_string()));
    assert_eq!(resolve_device_blocking(ComputeMode::Cpu, Some("gpu:0")).err(), Some("unsupported deviceId 'gpu:0'".to_string()));
    assert_eq!(resolve_device_blocking(ComputeMode::Gpu, None).err(), Some("gpu mode requested but binary was built without gpu feature".to_string()));
}

#[test]
fn model_context_runs_on_cpu_without_gpu_support() {
    assert_eq!(context_uses_gpu(ComputeMode::Cpu), Ok(false));
    assert_eq!(
        context_uses_gpu(ComputeMode::Gpu),
        Err("gpu mode requested but binary was built without gpu feature".to_string())
    );
}

#[test]
fn short_audio_is_kept_whole() {
    // Ten samples at 16 kHz with 20 ms frames: fewer than two frames of 320 samples.
    assert_eq!(trim_frame_size(10, 16000, 20), None);
    assert_eq!(trim_silence_bounds(10, 320, &vec![], 10), (0, 10));
    assert_eq!(trim_silence_bounds(639, 320, &vec![false, false], 0), (0, 639));
    assert_eq!(trim_silence_bounds(10, 0, &vec![], 10), (0, 10));
    assert_eq!(trim_frame_size(640, 16000, 20), Some(320));
    assert_eq!(trim_frame_size(10_000, 16000, 0), None);
    assert_eq!(trim_frame_size(10_000, 10, 20), None);
}

#[test]
fn trimming_keeps_every_voiced_frame() {
    let frame = 320;
    let len = 20 * frame + 100;
    let mut v = vec![false; 21];
    v[3] = true;
    v[20] = true;
    let (s, e) = trim_silence_bounds(len, frame, &v, 1);
    assert_eq!((s, e), (2 * frame, len));
    assert_eq!(s % frame, 0);
}
