use vstd::prelude::*;

use crate::text::{
    chars_equal, chars_of, concat_strs, lower, owned, string_from_chars, trim, trim_string,
};

verus! {

/// The text and the device of a finished transcription.
pub struct TranscriptionOutput {
    pub text: String,
    pub inference_device: String,
}

/// A device the engine can run on.
pub struct ComputeDevice {
    pub id: String,
    pub name: String,
}

/// Whether the engine runs on the CPU or on a GPU.
#[derive(Debug, Clone, Copy, PartialEq, Eq, Structural)]
pub enum ComputeMode {
    Cpu,
    Gpu,
}

impl ComputeMode {
    pub fn as_str(&self) -> (r: &'static str)
        ensures
            r@ == (match self {
                ComputeMode::Cpu => "cpu"@,
                ComputeMode::Gpu => "gpu"@,
            }),
    {
        match self {
            ComputeMode::Cpu => "cpu",
            ComputeMode::Gpu => "gpu",
        }
    }
}

pub struct DeviceView {
    pub id: Seq<char>,
    pub name: Seq<char>,
}

impl View for ComputeDevice {
    type V = DeviceView;

    open spec fn view(&self) -> DeviceView {
        DeviceView { id: self.id@, name: self.name@ }
    }
}

pub open spec fn devices_view(v: Seq<ComputeDevice>) -> Seq<DeviceView> {
    v.map_values(|d: ComputeDevice| d@)
}

/// The devices a CPU engine offers: the CPU alone.
pub fn cpu_devices() -> (r: Vec<ComputeDevice>)
    ensures
        devices_view(r@) == seq![DeviceView { id: "cpu:0"@, name: "CPU"@ }],
{
    let mut v: Vec<ComputeDevice> = Vec::new();
    v.push(ComputeDevice { id: owned("cpu:0"), name: owned("CPU") });
    assert(devices_view(v@) =~= seq![DeviceView { id: "cpu:0"@, name: "CPU"@ }]);
    v
}

/// The device a request runs on: with a non-blank requested id (trimmed), the first device
/// with that id, or an error when none has it; otherwise the first device. No device at
/// all is an error.
pub open spec fn select_device(devices: Seq<DeviceView>, requested: Option<Seq<char>>, mode: Seq<char>) -> Result<DeviceView, Seq<char>> {
    if devices.len() == 0 {
        Err("no "@ + mode + " devices available"@)
    } else {
        match requested {
            Some(r) if trim(r).len() > 0 => {
                if exists|i: int| 0 <= i < devices.len() && devices[i].id == trim(r) {
                    let i = choose|i: int|
                        0 <= i < devices.len() && devices[i].id == trim(r) && (forall|j: int|
                            0 <= j < i ==> devices[j].id != trim(r));
                    Ok(devices[i])
                } else {
                    Err("unsupported deviceId '"@ + trim(r) + "'"@)
                }
            },
            _ => Ok(devices[0]),
        }
    }
}

/// The device to run on, among `devices`, for an optional requested device id.
pub fn resolve_device(devices: Vec<ComputeDevice>, requested_device_id: Option<&str>, mode: ComputeMode) -> (r: Result<ComputeDevice, String>)
    ensures
        ({
            let req = match requested_device_id {
                Some(s) => Some(s@),
                None => None,
            };
            let m = if mode == ComputeMode::Cpu { "cpu"@ } else { "gpu"@ };
            match r {
                Ok(d) => select_device(devices_view(devices@), req, m) == Ok::<DeviceView, Seq<char>>(d@),
                Err(e) => select_device(devices_view(devices@), req, m) == Err::<DeviceView, Seq<char>>(e@),
            }
        }),
{
    let ghost dv = devices_view(devices@);
    if devices.len() == 0 {
        let a = concat_strs("no ", mode.as_str());
        return Err(concat_strs(a.as_str(), " devices available"));
    }
    let wanted: Option<Vec<char>> = match requested_device_id {
        Some(r) => {
            let t = crate::text::trim_chars(chars_of(r).as_slice());
            if t.len() > 0 {
                Some(t)
            } else {
                None
            }
        },
        None => None,
    };
    match wanted {
        Some(w) => {
            let mut i: usize = 0;
            while i < devices.len()
                invariant
                    i <= devices@.len(),
                    dv == devices_view(devices@),
                    devices@.len() > 0,
                    match requested_device_id {
                        Some(s) => trim(s@) == w@ && w@.len() > 0,
                        None => false,
                    },
                    forall|j: int| 0 <= j < i ==> dv[j].id != w@,
                decreases devices@.len() - i,
            {
                let id = chars_of(devices[i].id.as_str());
                if chars_equal(id.as_slice(), w.as_slice()) {
                    let mut devices = devices;
                    let d = devices.swap_remove(i);
                    proof {
                        assert(dv[i as int].id == w@);
                        assert(0 <= i < dv.len() && dv[i as int].id == w@ && (forall|j: int| 0 <= j < i ==> dv[j].id != w@));
                        let k = choose|k: int|
                            0 <= k < dv.len() && dv[k].id == w@ && (forall|j: int| 0 <= j < k ==> dv[j].id != w@);
                        if k < i {
                        } else if k > i {
                            assert(dv[i as int].id != w@);
                        }
                    }
                    return Ok(d);
                }
                i += 1;
            }
            let a = concat_strs("unsupported deviceId '", string_from_chars(w.as_slice()).as_str());
            Err(concat_strs(a.as_str(), "'"))
        },
        None => {
            let mut devices = devices;
            let d = devices.swap_remove(0);
            Ok(d)
        },
    }
}


/// The samples of one analysis frame: `sample_rate * frame_ms / 1000`.
pub fn silence_frame_size(sample_rate: u32, frame_ms: u32) -> (r: usize)
    requires
        (sample_rate as int * frame_ms as int) / 1000 <= usize::MAX,
    ensures
        r as int == (sample_rate as int * frame_ms as int) / 1000,
{
    assert((sample_rate as int) * (frame_ms as int) <= 0xffff_ffff * 0xffff_ffff) by (nonlinear_arith);
    let n: u64 = (sample_rate as u64) * (frame_ms as u64) / 1000;
    n as usize
}

/// The number of frames of `frame_size` samples (the last one may be short).
pub open spec fn frame_count(len: int, frame_size: int) -> int {
    (len + frame_size - 1) / frame_size
}

/// The first voiced frame, or 0 when no frame is voiced.
pub open spec fn first_voiced(voiced: Seq<bool>) -> int {
    if exists|i: int| 0 <= i < voiced.len() && voiced[i] {
        choose|i: int| 0 <= i < voiced.len() && voiced[i] && (forall|j: int| 0 <= j < i ==> !voiced[j])
    } else {
        0
    }
}

/// One past the last voiced frame, or the number of frames when no frame is voiced.
pub open spec fn end_voiced(voiced: Seq<bool>) -> int {
    if exists|i: int| 0 <= i < voiced.len() && voiced[i] {
        1 + choose|i: int| 0 <= i < voiced.len() && voiced[i] && (forall|j: int| i < j < voiced.len() ==> !voiced[j])
    } else {
        voiced.len() as int
    }
}

/// The sample range kept after trimming silence: from `pad_frames` frames before the first
/// voiced frame to `pad_frames` frames after the last one (within the audio); the whole
/// audio when that range is empty.
pub open spec fn trimmed_range(len: int, frame_size: int, voiced: Seq<bool>, pad_frames: int) -> (int, int) {
    let total = voiced.len() as int;
    let ps = if first_voiced(voiced) >= pad_frames { first_voiced(voiced) - pad_frames } else { 0 };
    let pe = if end_voiced(voiced) + pad_frames <= total { end_voiced(voiced) + pad_frames } else { total };
    if ps >= pe {
        (0, len)
    } else {
        (ps * frame_size, if pe == total { len } else { pe * frame_size })
    }
}

/// The trimmed range starts on a frame boundary and ends on one or at the end of the audio.
pub proof fn lemma_trimmed_range_frame_aligned(len: int, frame_size: int, voiced: Seq<bool>, pad_frames: int)
    requires
        frame_size > 0,
    ensures
        trimmed_range(len, frame_size, voiced, pad_frames).0 % frame_size == 0,
        trimmed_range(len, frame_size, voiced, pad_frames).1 == len
            || trimmed_range(len, frame_size, voiced, pad_frames).1 % frame_size == 0,
{
    let total = voiced.len() as int;
    let ps = if first_voiced(voiced) >= pad_frames { first_voiced(voiced) - pad_frames } else { 0 };
    let pe = if end_voiced(voiced) + pad_frames <= total { end_voiced(voiced) + pad_frames } else { total };
    vstd::arithmetic::div_mod::lemma_mod_multiples_basic(ps, frame_size);
    vstd::arithmetic::div_mod::lemma_mod_multiples_basic(pe, frame_size);
    vstd::arithmetic::div_mod::lemma_mod_multiples_basic(0, frame_size);
}

/// The sample range that trimming silence keeps: the whole audio when frames are empty or
/// the audio holds fewer than two frames; otherwise the range around the voiced frames.
pub open spec fn silence_kept_range(len: int, frame_size: int, voiced: Seq<bool>, pad_frames: int) -> (int, int) {
    if frame_size == 0 || len < 2 * frame_size {
        (0, len)
    } else {
        trimmed_range(len, frame_size, voiced, pad_frames)
    }
}

proof fn lemma_first_voiced_exists(voiced: Seq<bool>, i: int)
    requires
        0 <= i < voiced.len(),
        voiced[i],
    ensures
        exists|c: int| 0 <= c <= i && voiced[c] && (forall|q: int| 0 <= q < c ==> !#[trigger] voiced[q]),
    decreases i,
{
    if exists|q: int| 0 <= q < i && #[trigger] voiced[q] {
        let q = choose|q: int| 0 <= q < i && #[trigger] voiced[q];
        lemma_first_voiced_exists(voiced, q);
    } else {
        assert(forall|q: int| 0 <= q < i ==> !#[trigger] voiced[q]);
    }
}

proof fn lemma_last_voiced_exists(voiced: Seq<bool>, i: int)
    requires
        0 <= i < voiced.len(),
        voiced[i],
    ensures
        exists|e: int| i <= e < voiced.len() && voiced[e] && (forall|q: int| e < q < voiced.len() ==> !#[trigger] voiced[q]),
    decreases voiced.len() - i,
{
    if exists|q: int| i < q < voiced.len() && #[trigger] voiced[q] {
        let q = choose|q: int| i < q < voiced.len() && #[trigger] voiced[q];
        lemma_last_voiced_exists(voiced, q);
    } else {
        assert(forall|q: int| i < q < voiced.len() ==> !#[trigger] voiced[q]);
    }
}

proof fn lemma_first_voiced_le(voiced: Seq<bool>, i: int)
    requires
        0 <= i < voiced.len(),
        voiced[i],
    ensures
        first_voiced(voiced) <= i,
{
    lemma_first_voiced_exists(voiced, i);
    let c = first_voiced(voiced);
    assert(0 <= c < voiced.len() && voiced[c] && (forall|q: int| 0 <= q < c ==> !voiced[q]));
    if i < c {
        assert(!voiced[i]);
    }
}

proof fn lemma_end_voiced_gt(voiced: Seq<bool>, i: int)
    requires
        0 <= i < voiced.len(),
        voiced[i],
    ensures
        i < end_voiced(voiced),
{
    lemma_last_voiced_exists(voiced, i);
    let e = end_voiced(voiced) - 1;
    assert(0 <= e < voiced.len() && voiced[e] && (forall|q: int| e < q < voiced.len() ==> !voiced[q]));
    if e < i {
        assert(!voiced[i]);
    }
}

proof fn lemma_mul_le(a: int, b: int, m: int)
    by (nonlinear_arith)
    requires
        a <= b,
        m > 0,
    ensures
        a * m <= b * m,
{
}

proof fn lemma_frames_cover(len: int, frame_size: int, total: int)
    by (nonlinear_arith)
    requires
        total == (len + frame_size - 1) / frame_size,
        frame_size > 0,
        len >= 0,
    ensures
        (total - 1) * frame_size < len,
{
}

/// Trimming silence keeps every voiced frame: each voiced frame's samples lie inside the
/// kept range, which is the whole audio when no frame is voiced.
pub proof fn lemma_trim_keeps_voiced_frames(len: int, frame_size: int, voiced: Seq<bool>, pad_frames: int)
    requires
        frame_size > 0,
        len >= 2 * frame_size,
        voiced.len() == frame_count(len, frame_size),
        pad_frames >= 0,
    ensures
        forall|i: int|
            0 <= i < voiced.len() && #[trigger] voiced[i] ==> silence_kept_range(len, frame_size, voiced, pad_frames).0
                <= i * frame_size && (if (i + 1) * frame_size <= len { (i + 1) * frame_size } else { len })
                <= silence_kept_range(len, frame_size, voiced, pad_frames).1,
        (forall|i: int| 0 <= i < voiced.len() ==> !#[trigger] voiced[i]) ==> silence_kept_range(
            len,
            frame_size,
            voiced,
            pad_frames,
        ) == (0int, len),
{
    let total = voiced.len() as int;
    let fv = first_voiced(voiced);
    let ev = end_voiced(voiced);
    let ps = if fv >= pad_frames { fv - pad_frames } else { 0 };
    let pe = if ev + pad_frames <= total { ev + pad_frames } else { total };
    lemma_frames_cover(len, frame_size, total);
    if forall|i: int| 0 <= i < voiced.len() ==> !#[trigger] voiced[i] {
        assert(!(exists|j: int| 0 <= j < voiced.len() && voiced[j]));
        assert(fv == 0 && ev == total);
    }
    assert forall|i: int| 0 <= i < voiced.len() && #[trigger] voiced[i] implies silence_kept_range(
        len,
        frame_size,
        voiced,
        pad_frames,
    ).0 <= i * frame_size && (if (i + 1) * frame_size <= len { (i + 1) * frame_size } else { len })
        <= silence_kept_range(len, frame_size, voiced, pad_frames).1 by {
        lemma_first_voiced_le(voiced, i);
        lemma_end_voiced_gt(voiced, i);
        assert(ps <= i && i < pe);
        lemma_mul_le(ps, i, frame_size);
        if pe < total {
            lemma_mul_le(i + 1, pe, frame_size);
        }
    }
}

/// The frame size that trimming silence uses: `sample_rate * frame_ms / 1000` samples.
pub open spec fn trim_frame_len(sample_rate: u32, frame_ms: u32) -> usize {
    ((sample_rate as int * frame_ms as int) / 1000) as usize
}

/// The frame size for trimming the silence of `len` samples, when there is anything to
/// trim: none when the frame size is 0 or the audio holds fewer than two frames.
pub fn trim_frame_size(len: usize, sample_rate: u32, frame_ms: u32) -> (r: Option<usize>)
    ensures
        r == (if trim_frame_len(sample_rate, frame_ms) > 0 && len >= 2 * trim_frame_len(sample_rate, frame_ms) {
            Some(trim_frame_len(sample_rate, frame_ms))
        } else {
            None
        }),
{
    assert((sample_rate as int) * (frame_ms as int) <= 0xffff_ffff * 0xffff_ffff) by (nonlinear_arith);
    let n: u64 = (sample_rate as u64) * (frame_ms as u64) / 1000;
    let fs = n as usize;
    if fs == 0 {
        return None;
    }
    match fs.checked_mul(2) {
        Some(two) => if len >= two { Some(fs) } else { None },
        None => None,
    }
}

/// The sample range that trimming silence keeps, given which frames of `frame_size`
/// samples are voiced: the whole audio when the frame size is 0 or the audio holds fewer
/// than two frames.
pub fn trim_silence_bounds(len: usize, frame_size: usize, voiced: &Vec<bool>, pad_frames: usize) -> (r: (usize, usize))
    requires
        frame_size > 0 && len >= 2 * frame_size ==> voiced@.len() == frame_count(len as int, frame_size as int),
    ensures
        (r.0 as int, r.1 as int) == silence_kept_range(len as int, frame_size as int, voiced@, pad_frames as int),
        r.0 <= r.1 <= len,
        frame_size > 0 && len >= 2 * frame_size ==> r.0 < r.1,
{
    if frame_size == 0 {
        return (0, len);
    }
    match frame_size.checked_mul(2) {
        Some(two) => {
            if len < two {
                return (0, len);
            }
        },
        None => {
            return (0, len);
        },
    }
    voiced_bounds(len, frame_size, voiced, pad_frames)
}

fn voiced_bounds(len: usize, frame_size: usize, voiced: &Vec<bool>, pad_frames: usize) -> (r: (usize, usize))
    requires
        frame_size > 0,
        len >= 2 * frame_size,
        voiced@.len() == frame_count(len as int, frame_size as int),
    ensures
        (r.0 as int, r.1 as int) == trimmed_range(len as int, frame_size as int, voiced@, pad_frames as int),
        r.0 < r.1 <= len,
{
    let total = voiced.len();
    let mut start_frame: usize = 0;
    let mut found = false;
    let mut i: usize = 0;
    while i < total
        invariant
            total == voiced@.len(),
            i <= total,
            !found ==> forall|j: int| 0 <= j < i ==> !voiced@[j],
            !found ==> start_frame == 0,
            found ==> start_frame < total && voiced@[start_frame as int] && (forall|j: int| 0 <= j < start_frame ==> !voiced@[j]),
        decreases total - i,
    {
        if !found && voiced[i] {
            start_frame = i;
            found = true;
        }
        i += 1;
    }
    let mut end_frame: usize = total;
    let mut k: usize = total;
    let mut found_end = false;
    while k > 0
        invariant
            total == voiced@.len(),
            k <= total,
            !found_end ==> forall|j: int| k <= j < total ==> !voiced@[j],
            found_end ==> 0 < end_frame <= total && voiced@[end_frame - 1] && (forall|j: int| end_frame <= j < total ==> !voiced@[j]),
            !found_end ==> end_frame == total,
        decreases k,
    {
        k -= 1;
        if !found_end && voiced[k] {
            end_frame = k + 1;
            found_end = true;
        }
    }
    proof {
        if found {
            assert(exists|j: int| 0 <= j < voiced@.len() && voiced@[j]);
            let c = choose|j: int| 0 <= j < voiced@.len() && voiced@[j] && (forall|q: int| 0 <= q < j ==> !voiced@[q]);
            assert(0 <= start_frame < voiced@.len() && voiced@[start_frame as int] && (forall|q: int| 0 <= q < start_frame ==> !voiced@[q]));
            if c < start_frame {
            } else if c > start_frame {
            }
            assert(c == start_frame);
            assert(found_end);
            let e = choose|j: int| 0 <= j < voiced@.len() && voiced@[j] && (forall|q: int| j < q < voiced@.len() ==> !voiced@[q]);
            assert(0 <= end_frame - 1 < voiced@.len() && voiced@[end_frame - 1] && (forall|q: int| end_frame - 1 < q < voiced@.len() ==> !voiced@[q]));
            if e < end_frame - 1 {
            } else if e > end_frame - 1 {
            }
            assert(e == end_frame - 1);
            assert(first_voiced(voiced@) == start_frame);
        } else {
            if found_end {
                assert(voiced@[end_frame - 1]);
            }
            assert(!found_end);
            assert(!(exists|j: int| 0 <= j < voiced@.len() && voiced@[j]));
        }
    }
    assert(first_voiced(voiced@) == start_frame);
    assert(end_voiced(voiced@) == end_frame);
    let padded_start = if start_frame >= pad_frames {
        start_frame - pad_frames
    } else {
        0
    };
    let padded_end = if pad_frames <= total - end_frame {
        end_frame + pad_frames
    } else {
        total
    };
    if padded_start >= padded_end {
        return (0, len);
    }
    proof {
        assert(frame_count(len as int, frame_size as int) * frame_size <= len + frame_size - 1) by (nonlinear_arith)
            requires
                frame_size > 0,
        {
        }
        assert(padded_start * frame_size < total * frame_size) by (nonlinear_arith)
            requires
                padded_start < total,
                frame_size > 0,
        {
        }
        if padded_end < total {
            assert(padded_end * frame_size <= (total - 1) * frame_size) by (nonlinear_arith)
                requires
                    padded_end <= total - 1,
                    frame_size > 0,
            {
            }
            assert((total - 1) * frame_size < len) by (nonlinear_arith)
                requires
                    total as int == (len + frame_size - 1) as int / (frame_size as int),
                    frame_size > 0,
            {
            }
            assert(padded_start * frame_size < padded_end * frame_size) by (nonlinear_arith)
                requires
                    padded_start < padded_end,
                    frame_size > 0,
            {
            }
        } else {
            assert((total - 1) * frame_size < len) by (nonlinear_arith)
                requires
                    total as int == (len + frame_size - 1) as int / (frame_size as int),
                    frame_size > 0,
            {
            }
            assert(padded_start * frame_size <= (total - 1) * frame_size) by (nonlinear_arith)
                requires
                    padded_start <= total - 1,
                    frame_size > 0,
            {
            }
        }
    }
    let start_sample = padded_start * frame_size;
    let end_sample = if padded_end == total {
        len
    } else {
        padded_end * frame_size
    };
    (start_sample, end_sample)
}


/// What `str::parse::<i32>` gives.
pub open spec fn parse_i32(s: Seq<char>) -> Option<i32> {
    match crate::auth::parse_i64(s) {
        Some(v) => if i32::MIN <= v <= i32::MAX { Some(v as i32) } else { None },
        None => None,
    }
}

/// The GPU index of a device id `<backend>:<index>`: what follows the first `:`, parsed.
pub open spec fn gpu_index_of(id: Seq<char>) -> Option<i32> {
    if exists|i: int| 0 <= i < id.len() && id[i] == ':' {
        let i = choose|i: int| 0 <= i < id.len() && id[i] == ':' && (forall|j: int| 0 <= j < i ==> id[j] != ':');
        parse_i32(id.skip(i + 1))
    } else {
        None
    }
}

/// The GPU index of a device id, or the error naming the id.
pub fn gpu_device_index(id: &str) -> (r: Result<i32, String>)
    ensures
        match r {
            Ok(v) => gpu_index_of(id@) == Some(v),
            Err(e) => gpu_index_of(id@) is None && e@ == "invalid gpu device id '"@ + id@ + "'"@,
        },
{
    let v = chars_of(id);
    let mut i: usize = 0;
    while i < v.len()
        invariant
            v@ == id@,
            i <= v@.len(),
            forall|j: int| 0 <= j < i ==> v@[j] != ':',
        decreases v@.len() - i,
    {
        if v[i] == ':' {
            let mut rest: Vec<char> = Vec::new();
            let mut k: usize = i + 1;
            while k < v.len()
                invariant
                    v@ == id@,
                    i < k <= v@.len(),
                    rest@ =~= v@.subrange(i + 1, k as int),
                decreases v@.len() - k,
            {
                rest.push(v[k]);
                k += 1;
            }
            proof {
                assert(rest@ =~= id@.skip(i + 1));
                let c = choose|c: int| 0 <= c < id@.len() && id@[c] == ':' && (forall|j: int| 0 <= j < c ==> id@[j] != ':');
                assert(0 <= i < id@.len() && id@[i as int] == ':' && (forall|j: int| 0 <= j < i ==> id@[j] != ':'));
                if c < i {
                } else if c > i {
                }
                assert(c == i);
            }
            let tail = string_from_chars(rest.as_slice());
            match crate::auth::parse_i64_decimal(tail.as_str()) {
                Some(n) => {
                    if -2147483648 <= n && n <= 2147483647 {
                        return Ok(n as i32);
                    }
                },
                None => {},
            }
            let a = concat_strs("invalid gpu device id '", id);
            return Err(concat_strs(a.as_str(), "'"));
        }
        i += 1;
    }
    let a = concat_strs("invalid gpu device id '", id);
    Err(concat_strs(a.as_str(), "'"))
}

/// The pieces of a transcript, each trimmed, the empty ones dropped, joined by single
/// spaces.
pub open spec fn join_pieces(pieces: Seq<Seq<char>>) -> Seq<char>
    decreases pieces.len(),
{
    if pieces.len() == 0 {
        Seq::empty()
    } else {
        let acc = join_pieces(pieces.drop_last());
        let p = trim(pieces.last());
        if p.len() == 0 {
            acc
        } else if acc.len() == 0 {
            p
        } else {
            acc + seq![' '] + p
        }
    }
}

pub open spec fn strings_view(v: Seq<String>) -> Seq<Seq<char>> {
    v.map_values(|s: String| s@)
}

/// The transcript from the text of its segments, trimmed.
pub fn collect_transcription(pieces: &Vec<String>) -> (r: String)
    ensures
        r@ == trim(join_pieces(strings_view(pieces@))),
{
    let mut out: Vec<char> = Vec::new();
    let mut i: usize = 0;
    while i < pieces.len()
        invariant
            i <= pieces@.len(),
            out@ == join_pieces(strings_view(pieces@).take(i as int)),
        decreases pieces@.len() - i,
    {
        let p = crate::text::trim_chars(chars_of(pieces[i].as_str()).as_slice());
        proof {
            assert(strings_view(pieces@).take(i + 1).drop_last() =~= strings_view(pieces@).take(i as int));
            assert(strings_view(pieces@).take(i + 1).last() == pieces@[i as int]@);
        }
        if p.len() > 0 {
            if out.len() > 0 {
                out.push(' ');
            }
            let mut k: usize = 0;
            let ghost base = out@;
            while k < p.len()
                invariant
                    k <= p@.len(),
                    out@ =~= base + p@.take(k as int),
                decreases p@.len() - k,
            {
                out.push(p[k]);
                k += 1;
            }
            assert(p@.take(p@.len() as int) =~= p@);
        }
        i += 1;
    }
    assert(strings_view(pieces@).take(pieces@.len() as int) =~= strings_view(pieces@));
    let t = crate::text::trim_chars(out.as_slice());
    string_from_chars(t.as_slice())
}

/// The label of a GPU: its description, else its name, else `GPU`; followed by the
/// backend in parentheses when it has one that differs (ignoring ASCII case) from the
/// label.
pub open spec fn gpu_label(description: Option<Seq<char>>, name: Option<Seq<char>>, backend: Option<Seq<char>>) -> Seq<char> {
    let label = match description {
        Some(d) if d.len() > 0 => d,
        _ => match name {
            Some(n) => n,
            None => "GPU"@,
        },
    };
    match backend {
        Some(b) if b.len() > 0 && lower(b) != lower(label) => label + " ("@ + b + ")"@,
        _ => label,
    }
}

/// The label of a GPU from its description, name and backend (each as reported, trimmed,
/// and absent when empty).
pub fn describe_gpu_device(description: Option<String>, name: Option<String>, backend: Option<String>) -> (r: String)
    ensures
        r@ == gpu_label(
            crate::text::opt_string_view(description),
            crate::text::opt_string_view(name),
            crate::text::opt_string_view(backend),
        ),
{
    let label = match description {
        Some(d) if d.as_str().unicode_len() > 0 => d,
        _ => match name {
            Some(n) => n,
            None => owned("GPU"),
        },
    };
    match backend {
        Some(b) => {
            if b.as_str().unicode_len() > 0 {
                let bl = crate::text::lowercase_string(b.as_str());
                let ll = crate::text::lowercase_string(label.as_str());
                if !chars_equal(chars_of(bl.as_str()).as_slice(), chars_of(ll.as_str()).as_slice()) {
                    let a = concat_strs(label.as_str(), " (");
                    let c = concat_strs(a.as_str(), b.as_str());
                    return concat_strs(c.as_str(), ")");
                }
            }
            label
        },
        None => label,
    }
}

/// Why a transcription input is refused: a zero sample rate, no samples, no finite
/// sample, or nothing left after resampling.
pub open spec fn input_problem(sample_rate: u32, sample_count: usize, finite_count: usize, resampled_count: usize) -> Option<Seq<char>> {
    if sample_rate == 0 {
        Some("sampleRate must be greater than 0"@)
    } else if sample_count == 0 {
        Some("samples must not be empty"@)
    } else if finite_count == 0 {
        Some("no finite samples provided"@)
    } else if resampled_count == 0 {
        Some("unable to resample audio"@)
    } else {
        None
    }
}

/// Check a transcription input by its counts.
pub fn check_transcription_input(sample_rate: u32, sample_count: usize, finite_count: usize, resampled_count: usize) -> (r: Result<(), String>)
    ensures
        match r {
            Ok(()) => input_problem(sample_rate, sample_count, finite_count, resampled_count) is None,
            Err(e) => input_problem(sample_rate, sample_count, finite_count, resampled_count) == Some(e@),
        },
{
    if sample_rate == 0 {
        Err(owned("sampleRate must be greater than 0"))
    } else if sample_count == 0 {
        Err(owned("samples must not be empty"))
    } else if finite_count == 0 {
        Err(owned("no finite samples provided"))
    } else if resampled_count == 0 {
        Err(owned("unable to resample audio"))
    } else {
        Ok(())
    }
}

/// `s` without its NUL characters.
pub open spec fn without_nul(s: Seq<char>) -> Seq<char>
    decreases s.len(),
{
    if s.len() == 0 {
        Seq::empty()
    } else if s.last() == '\0' {
        without_nul(s.drop_last())
    } else {
        without_nul(s.drop_last()).push(s.last())
    }
}

pub fn remove_nul(v: &[char]) -> (r: Vec<char>)
    ensures
        r@ == without_nul(v@),
{
    let mut out: Vec<char> = Vec::new();
    let mut i: usize = 0;
    while i < v.len()
        invariant
            i <= v@.len(),
            out@ == without_nul(v@.take(i as int)),
        decreases v@.len() - i,
    {
        proof {
            assert(v@.take(i + 1).drop_last() =~= v@.take(i as int));
        }
        if v[i] != '\0' {
            out.push(v[i]);
        }
        i += 1;
    }
    assert(v@.take(v@.len() as int) =~= v@);
    out
}

/// The language passed to the model: the option trimmed, when not blank.
pub fn whisper_language(language: Option<&str>) -> (r: Option<String>)
    ensures
        crate::text::opt_string_view(r) == match language {
            Some(l) => if trim(l@).len() > 0 { Some(trim(l@)) } else { None },
            None => None,
        },
{
    match language {
        Some(l) => {
            let t = trim_string(l);
            if t.as_str().unicode_len() > 0 {
                Some(t)
            } else {
                None
            }
        },
        None => None,
    }
}

/// The initial prompt passed to the model: the option trimmed and without NUL
/// characters, when something is left.
pub fn whisper_prompt(prompt: Option<&str>) -> (r: Option<String>)
    ensures
        crate::text::opt_string_view(r) == match prompt {
            Some(p) => if trim(p@).len() > 0 && without_nul(trim(p@)).len() > 0 {
                Some(without_nul(trim(p@)))
            } else {
                None
            },
            None => None,
        },
{
    match prompt {
        Some(p) => {
            let t = crate::text::trim_chars(chars_of(p).as_slice());
            if t.len() == 0 {
                return None;
            }
            let s = remove_nul(t.as_slice());
            if s.len() > 0 {
                Some(string_from_chars(s.as_slice()))
            } else {
                None
            }
        },
        None => None,
    }
}

/// The key of a model context in the cache: `<model path>#<device id>`.
pub fn context_cache_key(model_path: &str, device_id: &str) -> (r: String)
    ensures
        r@ == model_path@ + "#"@ + device_id@,
{
    let a = concat_strs(model_path, "#");
    concat_strs(a.as_str(), device_id)
}

/// The GPU runtime check of a build without the `gpu` feature: always refused.
pub fn ensure_gpu_runtime_available() -> (r: Result<(), String>)
    ensures
        r matches Err(e) && e@ == "gpu runtime check requested but gpu feature is not enabled"@,
{
    Err(owned("gpu runtime check requested but gpu feature is not enabled"))
}

/// The GPU runtime check from the number of GPU devices found: none is an error.
pub fn gpu_runtime_status(gpu_device_count: usize) -> (r: Result<(), String>)
    ensures
        match r {
            Ok(()) => gpu_device_count > 0,
            Err(e) => gpu_device_count == 0 && e@ == "no GPU-capable backend detected"@,
        },
{
    if gpu_device_count == 0 {
        Err(owned("no GPU-capable backend detected"))
    } else {
        Ok(())
    }
}

/// The error of GPU work in a build without GPU support.
pub open spec fn no_gpu_feature() -> Seq<char> {
    "gpu mode requested but binary was built without gpu feature"@
}

/// The devices an engine offers in a build without GPU support: the CPU in CPU mode; GPU
/// mode is refused.
pub fn list_devices_blocking(mode: ComputeMode) -> (r: Result<Vec<ComputeDevice>, String>)
    ensures
        match r {
            Ok(v) => mode == ComputeMode::Cpu && devices_view(v@) == seq![DeviceView { id: "cpu:0"@, name: "CPU"@ }],
            Err(e) => mode == ComputeMode::Gpu && e@ == no_gpu_feature(),
        },
{
    match mode {
        ComputeMode::Cpu => Ok(cpu_devices()),
        ComputeMode::Gpu => Err(owned("gpu mode requested but binary was built without gpu feature")),
    }
}

/// The device an engine runs a request on, in a build without GPU support: the CPU device
/// selected by the requested id; GPU mode is refused.
pub fn resolve_device_blocking(mode: ComputeMode, requested_device_id: Option<&str>) -> (r: Result<ComputeDevice, String>)
    ensures
        ({
            let req = match requested_device_id {
                Some(s) => Some(s@),
                None => None,
            };
            match mode {
                ComputeMode::Gpu => r matches Err(e) && e@ == no_gpu_feature(),
                ComputeMode::Cpu => match r {
                    Ok(d) => select_device(seq![DeviceView { id: "cpu:0"@, name: "CPU"@ }], req, "cpu"@)
                        == Ok::<DeviceView, Seq<char>>(d@),
                    Err(e) => select_device(seq![DeviceView { id: "cpu:0"@, name: "CPU"@ }], req, "cpu"@)
                        == Err::<DeviceView, Seq<char>>(e@),
                },
            }
        }),
{
    let devices = list_devices_blocking(mode)?;
    resolve_device(devices, requested_device_id, mode)
}

/// Whether a model context runs on the GPU, in a build without GPU support: not in CPU
/// mode; GPU mode is refused.
pub fn context_uses_gpu(mode: ComputeMode) -> (r: Result<bool, String>)
    ensures
        match mode {
            ComputeMode::Cpu => r == Ok::<bool, String>(false),
            ComputeMode::Gpu => r matches Err(e) && e@ == no_gpu_feature(),
        },
{
    match mode {
        ComputeMode::Cpu => Ok(false),
        ComputeMode::Gpu => Err(owned("gpu mode requested but binary was built without gpu feature")),
    }
}

} // verus!
