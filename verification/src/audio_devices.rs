use vstd::prelude::*;

use crate::order::{is_stable_order, key_lt, stable_order_by_key};
use crate::text::{
    chars_equal, chars_of, clone_opt_string, contains_chars, contains_seq, ends_with_chars,
    ends_with_seq, lex_less, lex_lt, lower, opt_string_view, owned, string_from_chars,
    to_lower_chars, trim, trim_chars,
};

verus! {

/// An input device as the device picker presents it.
pub struct InputDeviceDescriptor {
    pub label: String,
    pub is_default: bool,
    pub caution: bool,
}

/// Names that mark a (typically Bluetooth) input of poor quality.
pub open spec fn has_low_quality_keyword(lowered: Seq<char>) -> bool {
    ||| contains_seq(lowered, "airpods"@)
    ||| contains_seq(lowered, "beats"@)
    ||| contains_seq(lowered, "bluetooth"@)
    ||| contains_seq(lowered, "earbud"@)
    ||| contains_seq(lowered, "hands-free"@)
    ||| contains_seq(lowered, "headset"@)
    ||| contains_seq(lowered, "hfp"@)
    ||| contains_seq(lowered, "hsp"@)
    ||| contains_seq(lowered, "sony wh-"@)
}

/// Names of a built-in microphone.
pub open spec fn names_builtin_microphone(lowered: Seq<char>) -> bool {
    ||| contains_seq(lowered, "built-in"@)
    ||| contains_seq(lowered, "builtin"@)
    ||| contains_seq(lowered, "macbook"@)
    ||| contains_seq(lowered, "mac mini"@)
    ||| contains_seq(lowered, "imac"@)
    ||| contains_seq(lowered, "mac studio"@)
    ||| contains_seq(lowered, "dmic"@)
    ||| contains_seq(lowered, "internal mic"@)
    ||| contains_seq(lowered, "int mic"@)
}

/// A name that says "microphone" and carries no low-quality keyword.
pub open spec fn names_preferred_input(lowered: Seq<char>) -> bool {
    &&& !has_low_quality_keyword(lowered)
    &&& (contains_seq(lowered, "microphone"@) || contains_seq(lowered, " mic"@) || ends_with_seq(
        lowered,
        "mic"@,
    ))
}

fn contains_literal(hay: &[char], needle: &str) -> (r: bool)
    ensures
        r == contains_seq(hay@, needle@),
{
    let n = chars_of(needle);
    contains_chars(hay, n.as_slice())
}

fn lowered_has_low_quality_keyword(l: &[char]) -> (r: bool)
    ensures
        r == has_low_quality_keyword(l@),
{
    contains_literal(l, "airpods") || contains_literal(l, "beats") || contains_literal(l, "bluetooth")
        || contains_literal(l, "earbud") || contains_literal(l, "hands-free") || contains_literal(
        l,
        "headset",
    ) || contains_literal(l, "hfp") || contains_literal(l, "hsp") || contains_literal(l, "sony wh-")
}

fn lowered_chars(name: &str) -> (r: Vec<char>)
    ensures
        r@ == lower(name@),
{
    let v = chars_of(name);
    to_lower_chars(v.as_slice())
}

/// Whether the name carries a keyword of a low-quality (Bluetooth, headset) input.
pub fn name_has_low_quality_keyword(name: &str) -> (r: bool)
    ensures
        r == has_low_quality_keyword(lower(name@)),
{
    let l = lowered_chars(name);
    lowered_has_low_quality_keyword(l.as_slice())
}

/// Whether the name looks like a microphone worth preferring.
pub fn is_preferred_input_device_name(name: &str) -> (r: bool)
    ensures
        r == names_preferred_input(lower(name@)),
{
    let l = lowered_chars(name);
    if lowered_has_low_quality_keyword(l.as_slice()) {
        return false;
    }
    let mic = chars_of("mic");
    contains_literal(l.as_slice(), "microphone") || contains_literal(l.as_slice(), " mic")
        || ends_with_chars(l.as_slice(), mic.as_slice())
}

/// Whether the name looks like a built-in microphone.
pub fn is_builtin_microphone_name(name: &str) -> (r: bool)
    ensures
        r == names_builtin_microphone(lower(name@)),
{
    let l = lowered_chars(name);
    let s = l.as_slice();
    contains_literal(s, "built-in") || contains_literal(s, "builtin") || contains_literal(s, "macbook")
        || contains_literal(s, "mac mini") || contains_literal(s, "imac") || contains_literal(
        s,
        "mac studio",
    ) || contains_literal(s, "dmic") || contains_literal(s, "internal mic") || contains_literal(
        s,
        "int mic",
    )
}

/// The name under which devices are compared: trimmed and ASCII-lowercased.
pub open spec fn normalized(name: Seq<char>) -> Seq<char> {
    lower(trim(name))
}

/// Whether a device name, trimmed and lowercased, equals the (already normalized)
/// preferred name.
pub fn device_matches_preferred(device_name: &str, preferred_lower: &str) -> (r: bool)
    ensures
        r == (normalized(device_name@) == preferred_lower@),
{
    let n = normalize_name(device_name);
    let p = chars_of(preferred_lower);
    crate::text::chars_equal(n.as_slice(), p.as_slice())
}

/// The trimmed, ASCII-lowercased characters of `name`.
pub fn normalize_name(name: &str) -> (r: Vec<char>)
    ensures
        r@ == normalized(name@),
{
    let v = chars_of(name);
    let t = trim_chars(v.as_slice());
    to_lower_chars(t.as_slice())
}

/// Whether to deprioritise a device: its name and the default output's name both carry a
/// low-quality keyword, or its default input rate is at most 16 kHz.
pub open spec fn avoid_device(name: Option<Seq<char>>, output_name: Option<Seq<char>>, rate: Option<u32>) -> bool {
    let name_match = match name {
        Some(n) => has_low_quality_keyword(lower(n)),
        None => false,
    };
    let output_match = match output_name {
        Some(n) => has_low_quality_keyword(lower(n)),
        None => false,
    };
    (name_match && output_match) || (match rate {
        Some(r) => r <= 16_000,
        None => false,
    })
}

pub open spec fn opt_str_view(o: Option<&str>) -> Option<Seq<char>> {
    match o {
        Some(s) => Some(s@),
        None => None,
    }
}

/// Whether a device should be avoided, given its name, the host's default output name and
/// the sample rate of its default input configuration (each when it could be read).
pub fn should_avoid_input_device(
    device_name: Option<&str>,
    default_output_name: Option<&str>,
    default_input_sample_rate: Option<u32>,
) -> (r: bool)
    ensures
        r == avoid_device(opt_str_view(device_name), opt_str_view(default_output_name), default_input_sample_rate),
{
    let name_match = match device_name {
        Some(n) => name_has_low_quality_keyword(n),
        None => false,
    };
    let output_match = match default_output_name {
        Some(n) => name_has_low_quality_keyword(n),
        None => false,
    };
    if name_match && output_match {
        return true;
    }
    match default_input_sample_rate {
        Some(rate) => rate <= 16_000,
        None => false,
    }
}


/// What the recorder reads of an input device: its name and the sample rate of its
/// default input configuration, each when the device reports it.
pub struct DeviceProbe {
    pub name: Option<String>,
    pub default_input_sample_rate: Option<u32>,
}

pub struct DeviceProbeView {
    pub name: Option<Seq<char>>,
    pub default_input_sample_rate: Option<u32>,
}

impl View for DeviceProbe {
    type V = DeviceProbeView;

    open spec fn view(&self) -> DeviceProbeView {
        DeviceProbeView {
            name: opt_string_view(self.name),
            default_input_sample_rate: self.default_input_sample_rate,
        }
    }
}

/// Where a candidate comes from: the host's default input device, or the device at an
/// index of the host's input device list.
#[derive(Clone, Copy, PartialEq, Eq, Structural)]
pub enum CandidateSource {
    DefaultDevice,
    Listed(usize),
}

/// A device to try when starting a recording, with its rank.
pub struct DeviceCandidate {
    pub source: CandidateSource,
    pub name: Option<String>,
    pub normalized_name: String,
    pub priority: u32,
    pub avoid_reason: Option<String>,
    pub matches_preferred: bool,
    pub is_default: bool,
}

pub struct CandidateView {
    pub source: CandidateSource,
    pub name: Option<Seq<char>>,
    pub key: Seq<char>,
    pub priority: int,
    pub avoid_reason: Option<Seq<char>>,
    pub matches_preferred: bool,
    pub is_default: bool,
}

impl View for DeviceCandidate {
    type V = CandidateView;

    open spec fn view(&self) -> CandidateView {
        CandidateView {
            source: self.source,
            name: opt_string_view(self.name),
            key: self.normalized_name@,
            priority: self.priority as int,
            avoid_reason: opt_string_view(self.avoid_reason),
            matches_preferred: self.matches_preferred,
            is_default: self.is_default,
        }
    }
}

pub open spec fn candidates_view(v: Seq<DeviceCandidate>) -> Seq<CandidateView> {
    v.map_values(|c: DeviceCandidate| c@)
}

/// The key under which devices are deduplicated: the normalized name, or `<unknown>`.
pub open spec fn device_key(name: Option<Seq<char>>) -> Seq<char> {
    match name {
        Some(n) => normalized(n),
        None => "<unknown>"@,
    }
}

/// Whether a device name matches the normalized preferred name.
pub open spec fn name_matches(name: Option<Seq<char>>, preferred: Option<Seq<char>>) -> bool {
    match (name, preferred) {
        (Some(n), Some(p)) => normalized(n) == p,
        _ => false,
    }
}

pub open spec fn default_candidate(
    d: DeviceProbeView,
    output_name: Option<Seq<char>>,
    preferred: Option<Seq<char>>,
) -> CandidateView {
    let m = name_matches(d.name, preferred);
    let avoid = avoid_device(d.name, output_name, d.default_input_sample_rate);
    CandidateView {
        source: CandidateSource::DefaultDevice,
        name: d.name,
        key: device_key(d.name),
        priority: if m { 0 } else if avoid { 300 } else { 5 },
        avoid_reason: if avoid { Some("avoiding low-quality default device"@) } else { None },
        matches_preferred: m,
        is_default: true,
    }
}

/// Priority and avoid reason of a listed (non-default) device.
pub open spec fn listed_rank(name: Option<Seq<char>>, m: bool) -> (int, Option<Seq<char>>) {
    match name {
        Some(label) => {
            let l = lower(label);
            if m {
                (0, if has_low_quality_keyword(l) { Some("potential low-quality input"@) } else { None })
            } else if names_builtin_microphone(l) {
                (0, None)
            } else if names_preferred_input(l) {
                (10, None)
            } else if has_low_quality_keyword(l) {
                (250, Some("potential low-quality input"@))
            } else {
                (100, None)
            }
        },
        None => (if m { 0 } else { 100 }, None),
    }
}

pub open spec fn listed_candidate(d: DeviceProbeView, index: int, preferred: Option<Seq<char>>) -> CandidateView {
    let m = name_matches(d.name, preferred);
    let r = listed_rank(d.name, m);
    CandidateView {
        source: CandidateSource::Listed(index as usize),
        name: d.name,
        key: device_key(d.name),
        priority: r.0,
        avoid_reason: r.1,
        matches_preferred: m,
        is_default: false,
    }
}

/// Candidates for the listed devices from index `base` on, skipping a device whose key was
/// already seen.
pub open spec fn listed_from(
    devs: Seq<DeviceProbeView>,
    preferred: Option<Seq<char>>,
    seen: Seq<Seq<char>>,
    base: int,
) -> Seq<CandidateView>
    decreases devs.len(),
{
    if devs.len() == 0 {
        Seq::empty()
    } else {
        let d = devs[0];
        let k = device_key(d.name);
        if seen.contains(k) {
            listed_from(devs.drop_first(), preferred, seen, base + 1)
        } else {
            seq![listed_candidate(d, base, preferred)] + listed_from(
                devs.drop_first(),
                preferred,
                seen.push(k),
                base + 1,
            )
        }
    }
}

/// The candidates of a host: its default input device first, then each listed device
/// whose key has not been seen before.
pub open spec fn host_candidates(
    default_device: Option<DeviceProbeView>,
    devs: Seq<DeviceProbeView>,
    output_name: Option<Seq<char>>,
    preferred: Option<Seq<char>>,
) -> Seq<CandidateView> {
    match default_device {
        Some(d) => seq![default_candidate(d, output_name, preferred)] + listed_from(
            devs,
            preferred,
            seq![device_key(d.name)],
            0,
        ),
        None => listed_from(devs, preferred, Seq::empty(), 0),
    }
}

/// The name of a candidate mentions a built-in microphone.
pub open spec fn builtin_named(c: CandidateView) -> bool {
    c.name is Some && names_builtin_microphone(lower(c.name->0))
}

proof fn lemma_listed_ranks(devs: Seq<DeviceProbeView>, preferred: Option<Seq<char>>, seen: Seq<Seq<char>>, base: int)
    ensures
        forall|k: int|
            0 <= k < listed_from(devs, preferred, seen, base).len() ==> {
                let c = #[trigger] listed_from(devs, preferred, seen, base)[k];
                &&& !c.is_default
                &&& 0 <= c.priority <= 250
                &&& (!c.matches_preferred && !builtin_named(c)) ==> c.priority >= 10
            },
    decreases devs.len(),
{
    if devs.len() > 0 {
        let d = devs[0];
        let k = device_key(d.name);
        if seen.contains(k) {
            lemma_listed_ranks(devs.drop_first(), preferred, seen, base + 1);
        } else {
            lemma_listed_ranks(devs.drop_first(), preferred, seen.push(k), base + 1);
            let rest = listed_from(devs.drop_first(), preferred, seen.push(k), base + 1);
            let all = listed_from(devs, preferred, seen, base);
            assert(all == seq![listed_candidate(d, base, preferred)] + rest);
            assert forall|q: int| 0 <= q < all.len() implies {
                let c = #[trigger] all[q];
                &&& !c.is_default
                &&& 0 <= c.priority <= 250
                &&& (!c.matches_preferred && !builtin_named(c)) ==> c.priority >= 10
            } by {
                if q > 0 {
                    assert(all[q] == rest[q - 1]);
                }
            }
        }
    }
}

/// A host's default input device that is neither avoided nor the preferred match is
/// ranked first: its priority is below that of every listed device that is not the
/// preferred match and does not name a built-in microphone.
pub proof fn lemma_default_device_outranks_listed(
    d: DeviceProbeView,
    devs: Seq<DeviceProbeView>,
    output_name: Option<Seq<char>>,
    preferred: Option<Seq<char>>,
)
    requires
        !name_matches(d.name, preferred),
        !avoid_device(d.name, output_name, d.default_input_sample_rate),
    ensures
        ({
            let cs = host_candidates(Some(d), devs, output_name, preferred);
            &&& cs.len() >= 1
            &&& cs[0].is_default
            &&& !cs[0].matches_preferred
            &&& forall|k: int|
                1 <= k < cs.len() && !(#[trigger] cs[k]).matches_preferred && !builtin_named(cs[k]) ==> cs[0].priority
                    < cs[k].priority
        }),
{
    let cs = host_candidates(Some(d), devs, output_name, preferred);
    let rest = listed_from(devs, preferred, seq![device_key(d.name)], 0);
    lemma_listed_ranks(devs, preferred, seq![device_key(d.name)], 0);
    assert forall|k: int| 1 <= k < cs.len() && !(#[trigger] cs[k]).matches_preferred && !builtin_named(cs[k]) implies cs[0].priority
        < cs[k].priority by {
        assert(cs[k] == rest[k - 1]);
    }
}

/// A host's default input device that is avoided (and not the preferred match) is ranked
/// last: its priority is above that of every listed device.
pub proof fn lemma_avoided_default_ranked_last(
    d: DeviceProbeView,
    devs: Seq<DeviceProbeView>,
    output_name: Option<Seq<char>>,
    preferred: Option<Seq<char>>,
)
    requires
        !name_matches(d.name, preferred),
        avoid_device(d.name, output_name, d.default_input_sample_rate),
    ensures
        ({
            let cs = host_candidates(Some(d), devs, output_name, preferred);
            &&& cs[0].is_default
            &&& cs[0].avoid_reason is Some
            &&& forall|k: int| 1 <= k < cs.len() ==> (#[trigger] cs[k]).priority < cs[0].priority
        }),
{
    let cs = host_candidates(Some(d), devs, output_name, preferred);
    let rest = listed_from(devs, preferred, seq![device_key(d.name)], 0);
    lemma_listed_ranks(devs, preferred, seq![device_key(d.name)], 0);
    assert forall|k: int| 1 <= k < cs.len() implies (#[trigger] cs[k]).priority < cs[0].priority by {
        assert(cs[k] == rest[k - 1]);
    }
}

/// The try order puts preferred matches first, and among candidates that are equally
/// (not) preferred, lower priority first.
pub proof fn lemma_try_order_ranks(cs: Seq<CandidateView>, p: Seq<usize>)
    requires
        is_stable_order(try_keys(cs), p),
        forall|i: int| 0 <= i < cs.len() ==> 0 <= #[trigger] cs[i].priority < 4294967296,
    ensures
        forall|a: int, b: int|
            0 <= a < b < p.len() ==> {
                let x = cs[#[trigger] p[a] as int];
                let y = cs[#[trigger] p[b] as int];
                &&& !(y.matches_preferred && !x.matches_preferred)
                &&& x.matches_preferred == y.matches_preferred ==> x.priority <= y.priority
            },
{
    let keys = try_keys(cs);
    assert forall|a: int, b: int| 0 <= a < b < p.len() implies {
        let x = cs[#[trigger] p[a] as int];
        let y = cs[#[trigger] p[b] as int];
        &&& !(y.matches_preferred && !x.matches_preferred)
        &&& x.matches_preferred == y.matches_preferred ==> x.priority <= y.priority
    } by {
        assert(key_lt(keys, p[a] as int, p[b] as int));
        assert(keys[p[a] as int] == try_key(cs[p[a] as int]));
        assert(keys[p[b] as int] == try_key(cs[p[b] as int]));
    }
}

/// When no listed device is the preferred match or names a built-in microphone, a default
/// input device that is neither avoided nor preferred is the first one tried.
pub proof fn lemma_default_device_tried_first(
    d: DeviceProbeView,
    devs: Seq<DeviceProbeView>,
    output_name: Option<Seq<char>>,
    preferred: Option<Seq<char>>,
    p: Seq<usize>,
)
    requires
        !name_matches(d.name, preferred),
        !avoid_device(d.name, output_name, d.default_input_sample_rate),
        forall|k: int|
            1 <= k < host_candidates(Some(d), devs, output_name, preferred).len() ==> !(#[trigger] host_candidates(
                Some(d),
                devs,
                output_name,
                preferred,
            )[k]).matches_preferred && !builtin_named(host_candidates(Some(d), devs, output_name, preferred)[k]),
        is_stable_order(try_keys(host_candidates(Some(d), devs, output_name, preferred)), p),
    ensures
        p.len() >= 1 && p[0] == 0,
{
    let cs = host_candidates(Some(d), devs, output_name, preferred);
    lemma_default_device_outranks_listed(d, devs, output_name, preferred);
    let rest = listed_from(devs, preferred, seq![device_key(d.name)], 0);
    lemma_listed_ranks(devs, preferred, seq![device_key(d.name)], 0);
    assert forall|i: int| 0 <= i < cs.len() implies 0 <= #[trigger] cs[i].priority < 4294967296 by {
        if i > 0 {
            assert(cs[i] == rest[i - 1]);
        }
    }
    lemma_try_order_ranks(cs, p);
    assert(p.contains(0usize));
    let a = choose|a: int| 0 <= a < p.len() && p[a] == 0usize;
    if a > 0 {
        let k = p[0] as int;
        assert(k != 0) by {
            if k == 0 {
                assert(p[0] == p[a]);
            }
        }
        assert(cs[k].priority <= cs[0].priority);
        assert(cs[0].priority < cs[k].priority);
    }
}

pub open spec fn probes_view(v: Seq<DeviceProbe>) -> Seq<DeviceProbeView> {
    v.map_values(|d: DeviceProbe| d@)
}

pub open spec fn keys_view(v: Seq<Vec<char>>) -> Seq<Seq<char>> {
    v.map_values(|k: Vec<char>| k@)
}

fn key_for(name: &Option<String>) -> (r: Vec<char>)
    ensures
        r@ == device_key(opt_string_view(*name)),
{
    match name {
        Some(n) => normalize_name(n.as_str()),
        None => chars_of("<unknown>"),
    }
}

fn seen_contains(seen: &Vec<Vec<char>>, key: &Vec<char>) -> (r: bool)
    ensures
        r == keys_view(seen@).contains(key@),
{
    let mut i: usize = 0;
    while i < seen.len()
        invariant
            i <= seen@.len(),
            forall|k: int| 0 <= k < i ==> seen@[k]@ != key@,
        decreases seen@.len() - i,
    {
        if chars_equal(seen[i].as_slice(), key.as_slice()) {
            assert(keys_view(seen@)[i as int] == key@);
            return true;
        }
        i += 1;
    }
    assert forall|k: int| 0 <= k < keys_view(seen@).len() implies keys_view(seen@)[k] != key@ by {
        assert(keys_view(seen@)[k] == seen@[k]@);
    }
    false
}

fn matches_opt(name: &Option<String>, preferred_lower: &Option<Vec<char>>) -> (r: bool)
    ensures
        r == name_matches(
            opt_string_view(*name),
            match preferred_lower {
                Some(p) => Some(p@),
                None => None,
            },
        ),
{
    match (name, preferred_lower) {
        (Some(n), Some(p)) => {
            let k = normalize_name(n.as_str());
            chars_equal(k.as_slice(), p.as_slice())
        },
        _ => false,
    }
}

/// The ranked candidates of one host, from what was read of its default input device and
/// of its listed input devices; `preferred_name` is the user's preferred device, if any.
pub fn device_candidates_for_host(
    default_device: Option<&DeviceProbe>,
    devices: &Vec<DeviceProbe>,
    default_output_name: Option<&str>,
    preferred_name: Option<&str>,
) -> (candidates: Vec<DeviceCandidate>)
    ensures
        candidates_view(candidates@) == host_candidates(
            match default_device {
                Some(d) => Some(d@),
                None => None,
            },
            probes_view(devices@),
            opt_str_view(default_output_name),
            match preferred_name {
                Some(p) => Some(normalized(p@)),
                None => None,
            },
        ),
{
    let ghost pref = match preferred_name {
        Some(p) => Some(normalized(p@)),
        None => None::<Seq<char>>,
    };
    let preferred_lower: Option<Vec<char>> = match preferred_name {
        Some(p) => Some(normalize_name(p)),
        None => None,
    };
    let mut candidates: Vec<DeviceCandidate> = Vec::new();
    let mut seen: Vec<Vec<char>> = Vec::new();
    let ghost total = host_candidates(
        match default_device {
            Some(d) => Some(d@),
            None => None,
        },
        probes_view(devices@),
        opt_str_view(default_output_name),
        pref,
    );
    let ghost devs = probes_view(devices@);
    match default_device {
        Some(d) => {
            let key = key_for(&d.name);
            let m = matches_opt(&d.name, &preferred_lower);
            let name_ref: Option<&str> = match &d.name {
                Some(n) => Some(n.as_str()),
                None => None,
            };
            assert(opt_str_view(name_ref) == opt_string_view(d.name));
            let avoid = should_avoid_input_device(name_ref, default_output_name, d.default_input_sample_rate);
            let priority: u32 = if m {
                0
            } else if avoid {
                300
            } else {
                5
            };
            let reason = if avoid {
                Some(owned("avoiding low-quality default device"))
            } else {
                None
            };
            candidates.push(DeviceCandidate {
                source: CandidateSource::DefaultDevice,
                name: clone_opt_string(&d.name),
                normalized_name: string_from_chars(key.as_slice()),
                priority,
                avoid_reason: reason,
                matches_preferred: m,
                is_default: true,
            });
            seen.push(key);
            proof {
                assert(candidates_view(candidates@) =~= seq![default_candidate(d@, opt_str_view(default_output_name), pref)]);
                assert(keys_view(seen@) =~= seq![device_key(d@.name)]);
            }
        },
        None => {
            proof {
                assert(candidates_view(candidates@) =~= Seq::<CandidateView>::empty());
                assert(keys_view(seen@) =~= Seq::<Seq<char>>::empty());
            }
        },
    }
    proof {
        assert(devs.skip(0) =~= devs);
    }
    let mut i: usize = 0;
    while i < devices.len()
        invariant
            i <= devices@.len(),
            devs == probes_view(devices@),
            pref == match preferred_lower {
                Some(p) => Some(p@),
                None => None::<Seq<char>>,
            },
            candidates_view(candidates@) + listed_from(devs.skip(i as int), pref, keys_view(seen@), i as int)
                == total,
        decreases devices@.len() - i,
    {
        let d = &devices[i];
        let key = key_for(&d.name);
        let ghost rest = devs.skip(i as int);
        proof {
            assert(rest[0] == d@);
            assert(rest.drop_first() =~= devs.skip(i + 1));
        }
        let ghost before = candidates_view(candidates@);
        if !seen_contains(&seen, &key) {
            let m = matches_opt(&d.name, &preferred_lower);
            let mut priority: u32 = if m {
                0
            } else {
                100
            };
            let mut reason: Option<String> = None;
            match &d.name {
                Some(label) => {
                    if m {
                        if name_has_low_quality_keyword(label.as_str()) {
                            reason = Some(owned("potential low-quality input"));
                        }
                    } else if is_builtin_microphone_name(label.as_str()) {
                        priority = 0;
                    } else if is_preferred_input_device_name(label.as_str()) {
                        priority = 10;
                    } else if name_has_low_quality_keyword(label.as_str()) {
                        priority = 250;
                        reason = Some(owned("potential low-quality input"));
                    }
                },
                None => {},
            }
            candidates.push(DeviceCandidate {
                source: CandidateSource::Listed(i),
                name: clone_opt_string(&d.name),
                normalized_name: string_from_chars(key.as_slice()),
                priority,
                avoid_reason: reason,
                matches_preferred: m,
                is_default: false,
            });
            let ghost before_seen = keys_view(seen@);
            seen.push(key);
            proof {
                assert(candidates_view(candidates@) =~= before.push(listed_candidate(d@, i as int, pref)));
                assert(keys_view(seen@) =~= before_seen.push(device_key(d@.name)));
                assert(candidates_view(candidates@) + listed_from(devs.skip(i + 1), pref, keys_view(seen@), i + 1)
                    =~= before + listed_from(rest, pref, before_seen, i as int));
            }
        }
        i += 1;
    }
    proof {
        assert(devs.skip(i as int) =~= Seq::<DeviceProbeView>::empty());
        assert(candidates_view(candidates@) =~= total);
    }
    candidates
}


/// The rank by which candidates are tried: a match of the preferred device first, then by
/// increasing priority.
pub open spec fn try_key(c: CandidateView) -> u64 {
    ((if c.matches_preferred { 0int } else { 4294967296int }) + c.priority) as u64
}

pub open spec fn try_keys(cs: Seq<CandidateView>) -> Seq<u64> {
    cs.map_values(|c: CandidateView| try_key(c))
}

/// The order in which to try the candidates: a stable sort by (not a preferred match,
/// priority), as indices into `candidates`.
pub fn candidate_try_order(candidates: &Vec<DeviceCandidate>) -> (order: Vec<usize>)
    ensures
        is_stable_order(try_keys(candidates_view(candidates@)), order@),
{
    let mut keys: Vec<u64> = Vec::new();
    let mut i: usize = 0;
    while i < candidates.len()
        invariant
            i <= candidates@.len(),
            keys@ =~= try_keys(candidates_view(candidates@)).take(i as int),
        decreases candidates@.len() - i,
    {
        let c = &candidates[i];
        let k: u64 = if c.matches_preferred {
            0
        } else {
            4294967296
        } + (c.priority as u64);
        keys.push(k);
        i += 1;
    }
    assert(try_keys(candidates_view(candidates@)).take(candidates@.len() as int) =~= try_keys(
        candidates_view(candidates@),
    ));
    stable_order_by_key(keys.as_slice())
}


/// What the recorder reads of one audio host: its default input device, its listed input
/// devices and the name of its default output device, each as far as the host reports it.
pub struct HostDevices {
    pub default_device: Option<DeviceProbe>,
    pub devices: Vec<DeviceProbe>,
    pub default_output_name: Option<String>,
}

pub open spec fn host_view_candidates(h: HostDevices) -> Seq<CandidateView> {
    host_candidates(
        match h.default_device {
            Some(d) => Some(d@),
            None => None,
        },
        probes_view(h.devices@),
        opt_string_view(h.default_output_name),
        None,
    )
}

/// The candidates of all hosts, host after host.
pub open spec fn all_host_candidates(hosts: Seq<HostDevices>) -> Seq<CandidateView>
    decreases hosts.len(),
{
    if hosts.len() == 0 {
        Seq::empty()
    } else {
        all_host_candidates(hosts.drop_last()) + host_view_candidates(hosts.last())
    }
}

pub struct DescriptorView {
    pub label: Seq<char>,
    pub is_default: bool,
    pub caution: bool,
}

impl View for InputDeviceDescriptor {
    type V = DescriptorView;

    open spec fn view(&self) -> DescriptorView {
        DescriptorView { label: self.label@, is_default: self.is_default, caution: self.caution }
    }
}

/// The label shown for a candidate: its trimmed name, or `<unknown>`.
pub open spec fn label_of(c: CandidateView) -> Seq<char> {
    match c.name {
        Some(n) => trim(n),
        None => "<unknown>"@,
    }
}

/// The descriptors by device key after taking in the candidates in order: the label of the
/// last candidate with the key, marked default when any of them is the default device and
/// with caution when any of them is to be avoided.
pub open spec fn merge_descriptors(cs: Seq<CandidateView>) -> Map<Seq<char>, DescriptorView>
    decreases cs.len(),
{
    if cs.len() == 0 {
        Map::empty()
    } else {
        let m = merge_descriptors(cs.drop_last());
        let c = cs.last();
        let had = m.contains_key(c.key);
        m.insert(
            c.key,
            DescriptorView {
                label: label_of(c),
                is_default: (had && m[c.key].is_default) || c.is_default,
                caution: (had && m[c.key].caution) || c.avoid_reason is Some,
            },
        )
    }
}

/// The order of the device list: default devices first, then by lowercased label.
pub open spec fn descriptor_lt(x: DescriptorView, y: DescriptorView) -> bool {
    (x.is_default && !y.is_default) || (x.is_default == y.is_default && lex_lt(lower(x.label), lower(y.label)))
}

pub open spec fn descriptors_view(v: Seq<InputDeviceDescriptor>) -> Seq<DescriptorView> {
    v.map_values(|d: InputDeviceDescriptor| d@)
}

/// `list` holds each descriptor of `m` once, under its key, in increasing `descriptor_lt`
/// order.
pub open spec fn is_device_list(m: Map<Seq<char>, DescriptorView>, list: Seq<DescriptorView>) -> bool {
    &&& forall|i: int|
        0 <= i < list.len() ==> m.contains_key(lower(#[trigger] list[i].label)) && m[lower(
            list[i].label,
        )] == list[i]
    &&& forall|k: Seq<char>| #[trigger] m.contains_key(k) ==> exists|i: int| 0 <= i < list.len() && lower(#[trigger] list[i].label) == k
    &&& forall|a: int, b: int| 0 <= a < b < list.len() ==> descriptor_lt(#[trigger] list[a], #[trigger] list[b])
}

pub open spec fn keyed_by_label(cs: Seq<CandidateView>) -> bool {
    forall|i: int| 0 <= i < cs.len() ==> lower(label_of(#[trigger] cs[i])) == cs[i].key
}

proof fn lemma_unknown_lower()
    ensures
        lower("<unknown>"@) == "<unknown>"@,
{
    reveal_strlit("<unknown>");
    assert(lower("<unknown>"@) =~= "<unknown>"@);
}

proof fn lemma_listed_keyed(devs: Seq<DeviceProbeView>, preferred: Option<Seq<char>>, seen: Seq<Seq<char>>, base: int)
    ensures
        keyed_by_label(listed_from(devs, preferred, seen, base)),
    decreases devs.len(),
{
    lemma_unknown_lower();
    if devs.len() > 0 {
        let d = devs[0];
        let k = device_key(d.name);
        if seen.contains(k) {
            lemma_listed_keyed(devs.drop_first(), preferred, seen, base + 1);
        } else {
            let rest = listed_from(devs.drop_first(), preferred, seen.push(k), base + 1);
            lemma_listed_keyed(devs.drop_first(), preferred, seen.push(k), base + 1);
            let all = seq![listed_candidate(d, base, preferred)] + rest;
            assert forall|i: int| 0 <= i < all.len() implies lower(label_of(#[trigger] all[i])) == all[i].key by {
                if i > 0 {
                    assert(all[i] == rest[i - 1]);
                }
            }
        }
    }
}

proof fn lemma_host_keyed(h: HostDevices)
    ensures
        keyed_by_label(host_view_candidates(h)),
{
    lemma_unknown_lower();
    match h.default_device {
        Some(d) => {
            let rest = listed_from(probes_view(h.devices@), None, seq![device_key(d@.name)], 0);
            lemma_listed_keyed(probes_view(h.devices@), None, seq![device_key(d@.name)], 0);
            let all = seq![default_candidate(d@, opt_string_view(h.default_output_name), None)] + rest;
            assert forall|i: int| 0 <= i < all.len() implies lower(label_of(#[trigger] all[i])) == all[i].key by {
                if i > 0 {
                    assert(all[i] == rest[i - 1]);
                }
            }
        },
        None => {
            lemma_listed_keyed(probes_view(h.devices@), None, Seq::empty(), 0);
        },
    }
}

proof fn lemma_merge_labels(cs: Seq<CandidateView>)
    requires
        keyed_by_label(cs),
    ensures
        forall|k: Seq<char>| #[trigger] merge_descriptors(cs).contains_key(k) ==> lower(merge_descriptors(cs)[k].label) == k,
    decreases cs.len(),
{
    if cs.len() > 0 {
        assert(keyed_by_label(cs.drop_last())) by {
            assert forall|i: int| 0 <= i < cs.drop_last().len() implies lower(label_of(#[trigger] cs.drop_last()[i])) == cs.drop_last()[i].key by {
                assert(cs.drop_last()[i] == cs[i]);
            }
        }
        lemma_merge_labels(cs.drop_last());
        assert(lower(label_of(cs[cs.len() - 1])) == cs[cs.len() - 1].key);
        let m = merge_descriptors(cs.drop_last());
        assert forall|k: Seq<char>| #[trigger] merge_descriptors(cs).contains_key(k) implies lower(
            merge_descriptors(cs)[k].label,
        ) == k by {
            if k != cs.last().key {
                assert(m.contains_key(k));
            }
        }
    }
}

/// Entries kept in parallel to their keys hold exactly the merged map.
pub open spec fn entries_hold(
    m: Map<Seq<char>, DescriptorView>,
    keys: Seq<Seq<char>>,
    es: Seq<DescriptorView>,
) -> bool {
    &&& keys.len() == es.len()
    &&& keys.no_duplicates()
    &&& forall|i: int| 0 <= i < keys.len() ==> m.contains_key(#[trigger] keys[i]) && m[keys[i]] == es[i]
    &&& forall|k: Seq<char>| #[trigger] m.contains_key(k) ==> keys.contains(k)
}

fn find_key(keys: &Vec<Vec<char>>, key: &Vec<char>) -> (r: Option<usize>)
    ensures
        match r {
            Some(i) => i < keys@.len() && keys@[i as int]@ == key@,
            None => !keys_view(keys@).contains(key@),
        },
{
    let mut i: usize = 0;
    while i < keys.len()
        invariant
            i <= keys@.len(),
            forall|k: int| 0 <= k < i ==> keys@[k]@ != key@,
        decreases keys@.len() - i,
    {
        if chars_equal(keys[i].as_slice(), key.as_slice()) {
            return Some(i);
        }
        i += 1;
    }
    assert forall|k: int| 0 <= k < keys_view(keys@).len() implies keys_view(keys@)[k] != key@ by {
        assert(keys_view(keys@)[k] == keys@[k]@);
    }
    None
}

fn candidate_label(c: &DeviceCandidate) -> (r: String)
    ensures
        r@ == label_of(c@),
{
    match &c.name {
        Some(n) => crate::text::trim_string(n.as_str()),
        None => owned("<unknown>"),
    }
}

proof fn lemma_descriptor_order(x: DescriptorView, y: DescriptorView, z: DescriptorView)
    ensures
        lower(x.label) != lower(y.label) ==> descriptor_lt(x, y) || descriptor_lt(y, x),
        !(descriptor_lt(x, y) && descriptor_lt(y, x)),
        descriptor_lt(x, y) && descriptor_lt(y, z) ==> descriptor_lt(x, z),
{
    crate::text::lemma_lex_total(lower(x.label), lower(y.label));
    crate::text::lemma_lex_asymmetric(lower(x.label), lower(y.label));
    if descriptor_lt(x, y) && descriptor_lt(y, z) && x.is_default == y.is_default && y.is_default == z.is_default {
        crate::text::lemma_lex_transitive(lower(x.label), lower(y.label), lower(z.label));
    }
}

fn descriptor_less(x: &InputDeviceDescriptor, y: &InputDeviceDescriptor) -> (r: bool)
    ensures
        r == descriptor_lt(x@, y@),
{
    if x.is_default != y.is_default {
        return x.is_default;
    }
    let xl = lowered_chars(x.label.as_str());
    let yl = lowered_chars(y.label.as_str());
    lex_less(xl.as_slice(), yl.as_slice())
}

/// The input devices of all hosts for the device picker: one entry per device key, marked
/// default when a host reports it as its default input, with caution when it is to be
/// avoided, default devices first and then by lowercased label.
pub fn list_input_devices(hosts: &Vec<HostDevices>) -> (list: Vec<InputDeviceDescriptor>)
    ensures
        is_device_list(merge_descriptors(all_host_candidates(hosts@)), descriptors_view(list@)),
{
    let mut keys: Vec<Vec<char>> = Vec::new();
    let mut entries: Vec<InputDeviceDescriptor> = Vec::new();
    let mut h: usize = 0;
    assert(all_host_candidates(hosts@.take(0)) =~= Seq::<CandidateView>::empty());
    while h < hosts.len()
        invariant
            h <= hosts@.len(),
            entries_hold(merge_descriptors(all_host_candidates(hosts@.take(h as int))), keys_view(keys@), descriptors_view(entries@)),
            keyed_by_label(all_host_candidates(hosts@.take(h as int))),
        decreases hosts@.len() - h,
    {
        let host = &hosts[h];
        let out_name: Option<&str> = match &host.default_output_name {
            Some(n) => Some(n.as_str()),
            None => None,
        };
        let default_ref: Option<&DeviceProbe> = match &host.default_device {
            Some(d) => Some(d),
            None => None,
        };
        let cands = device_candidates_for_host(default_ref, &host.devices, out_name, None);
        let ghost prefix = all_host_candidates(hosts@.take(h as int));
        proof {
            assert(opt_str_view(out_name) == opt_string_view(host.default_output_name));
            assert(candidates_view(cands@) == host_view_candidates(*host));
            assert(hosts@.take(h + 1).drop_last() =~= hosts@.take(h as int));
            assert(all_host_candidates(hosts@.take(h + 1)) == prefix + candidates_view(cands@));
            lemma_host_keyed(*host);
            assert(prefix + candidates_view(cands@).take(0) =~= prefix);
        }
        let mut j: usize = 0;
        while j < cands.len()
            invariant
                j <= cands@.len(),
                keyed_by_label(prefix),
                keyed_by_label(candidates_view(cands@)),
                entries_hold(
                    merge_descriptors(prefix + candidates_view(cands@).take(j as int)),
                    keys_view(keys@),
                    descriptors_view(entries@),
                ),
            decreases cands@.len() - j,
        {
            let c = &cands[j];
            let ghost done = prefix + candidates_view(cands@).take(j as int);
            let ghost m = merge_descriptors(done);
            let ghost next = prefix + candidates_view(cands@).take(j + 1);
            proof {
                assert(next.drop_last() =~= done);
                assert(next.last() == c@);
            }
            let key: Vec<char> = chars_of(c.normalized_name.as_str());
            let label = candidate_label(c);
            let caution = c.avoid_reason.is_some();
            match find_key(&keys, &key) {
                Some(idx) => {
                    let ghost old_keys = keys_view(keys@);
                    let ghost old_es = descriptors_view(entries@);
                    let prev_default = entries[idx].is_default;
                    let prev_caution = entries[idx].caution;
                    let updated = InputDeviceDescriptor {
                        label,
                        is_default: prev_default || c.is_default,
                        caution: prev_caution || caution,
                    };
                    entries.set(idx, updated);
                    proof {
                        assert(old_keys[idx as int] == c@.key);
                        assert(descriptors_view(entries@) =~= old_es.update(idx as int, updated@));
                        let m2 = merge_descriptors(next);
                        assert forall|i: int| 0 <= i < old_keys.len() implies m2.contains_key(#[trigger] old_keys[i])
                            && m2[old_keys[i]] == descriptors_view(entries@)[i] by {
                            if i != idx {
                                assert(old_keys[i] != old_keys[idx as int]);
                            }
                        }
                        assert forall|k: Seq<char>| #[trigger] m2.contains_key(k) implies old_keys.contains(k) by {
                            if k != c@.key {
                                assert(m.contains_key(k));
                            } else {
                                assert(old_keys[idx as int] == k);
                            }
                        }
                    }
                },
                None => {
                    let ghost old_keys = keys_view(keys@);
                    let ghost old_es = descriptors_view(entries@);
                    let fresh = InputDeviceDescriptor { label, is_default: c.is_default, caution };
                    keys.push(key);
                    entries.push(fresh);
                    proof {
                        assert(keys_view(keys@) =~= old_keys.push(c@.key));
                        assert(descriptors_view(entries@) =~= old_es.push(fresh@));
                        assert(!m.contains_key(c@.key));
                        let m2 = merge_descriptors(next);
                        let nk = keys_view(keys@);
                        assert forall|i: int| 0 <= i < nk.len() implies m2.contains_key(#[trigger] nk[i])
                            && m2[nk[i]] == descriptors_view(entries@)[i] by {
                            if i < old_keys.len() {
                                assert(nk[i] == old_keys[i]);
                                assert(old_keys[i] != c@.key);
                            }
                        }
                        assert forall|k: Seq<char>| #[trigger] m2.contains_key(k) implies nk.contains(k) by {
                            if k != c@.key {
                                assert(old_keys.contains(k));
                                let w = choose|w: int| 0 <= w < old_keys.len() && old_keys[w] == k;
                                assert(nk[w] == k);
                            } else {
                                assert(nk[nk.len() - 1] == k);
                            }
                        }
                        assert(nk.no_duplicates()) by {
                            assert forall|a: int, b: int| 0 <= a < nk.len() && 0 <= b < nk.len() && a != b implies nk[a] != nk[b] by {
                                if a < old_keys.len() && b < old_keys.len() {
                                } else if a < old_keys.len() {
                                    assert(old_keys.contains(nk[a]));
                                } else {
                                    assert(old_keys.contains(nk[b]));
                                }
                            }
                        }
                    }
                },
            }
            j += 1;
        }
        proof {
            assert(candidates_view(cands@).take(cands@.len() as int) =~= candidates_view(cands@));
            let all = prefix + candidates_view(cands@);
            assert forall|i: int| 0 <= i < all.len() implies lower(label_of(#[trigger] all[i])) == all[i].key by {
                if i >= prefix.len() {
                    assert(all[i] == candidates_view(cands@)[i - prefix.len()]);
                }
            }
        }
        h += 1;
    }
    proof {
        assert(hosts@.take(hosts@.len() as int) =~= hosts@);
    }
    let ghost m = merge_descriptors(all_host_candidates(hosts@));
    let ghost ks = keys_view(keys@);
    let ghost es = descriptors_view(entries@);
    proof {
        lemma_merge_labels(all_host_candidates(hosts@));
        assert forall|i: int| 0 <= i < es.len() implies lower(#[trigger] es[i].label) == ks[i] by {
            assert(m.contains_key(ks[i]));
        }
    }
    // Sort the entries by index with an insertion sort.
    let n = entries.len();
    let mut p: Vec<usize> = Vec::new();
    let mut i: usize = 0;
    while i < n
        invariant
            n == es.len(),
            es == descriptors_view(entries@),
            ks.no_duplicates(),
            ks.len() == es.len(),
            forall|t: int| 0 <= t < es.len() ==> lower(#[trigger] es[t].label) == ks[t],
            i <= n,
            p@.len() == i,
            forall|k: int| 0 <= k < p@.len() ==> #[trigger] p@[k] < i,
            forall|j: usize| j < i ==> #[trigger] p@.contains(j),
            forall|a: int, b: int|
                0 <= a < b < p@.len() ==> descriptor_lt(es[#[trigger] p@[a] as int], es[#[trigger] p@[b] as int]),
        decreases n - i,
    {
        let mut pos: usize = 0;
        while pos < p.len() && descriptor_less(&entries[p[pos]], &entries[i])
            invariant
                n == es.len(),
                es == descriptors_view(entries@),
                i < n,
                pos <= p@.len(),
                forall|k: int| 0 <= k < p@.len() ==> #[trigger] p@[k] < i,
                forall|k: int| 0 <= k < pos ==> descriptor_lt(es[#[trigger] p@[k] as int], es[i as int]),
            decreases p@.len() - pos,
        {
            pos += 1;
        }
        let ghost old_p = p@;
        proof {
            if pos < old_p.len() {
                let q = old_p[pos as int] as int;
                assert(!descriptor_lt(es[q], es[i as int]));
                assert(ks[q] != ks[i as int]);
                lemma_descriptor_order(es[q], es[i as int], es[i as int]);
                assert(descriptor_lt(es[i as int], es[q]));
            }
        }
        p.insert(pos, i);
        proof {
            assert(p@ =~= old_p.subrange(0, pos as int).push(i).add(old_p.subrange(pos as int, old_p.len() as int)));
            assert forall|k: int| 0 <= k < p@.len() implies #[trigger] p@[k] < i + 1 by {
                if k < pos {
                    assert(p@[k] == old_p[k]);
                } else if k > pos {
                    assert(p@[k] == old_p[k - 1]);
                }
            }
            assert forall|j: usize| j < i + 1 implies #[trigger] p@.contains(j) by {
                if j == i {
                    assert(p@[pos as int] == i);
                } else {
                    assert(old_p.contains(j));
                    let w = choose|w: int| 0 <= w < old_p.len() && old_p[w] == j;
                    if w < pos {
                        assert(p@[w] == j);
                    } else {
                        assert(p@[w + 1] == j);
                    }
                }
            }
            assert forall|a: int, b: int| 0 <= a < b < p@.len() implies descriptor_lt(
                es[#[trigger] p@[a] as int],
                es[#[trigger] p@[b] as int],
            ) by {
                if b < pos {
                    assert(p@[a] == old_p[a] && p@[b] == old_p[b]);
                } else if b == pos {
                    assert(p@[a] == old_p[a]);
                } else if a > pos {
                    assert(p@[a] == old_p[a - 1] && p@[b] == old_p[b - 1]);
                } else if a == pos {
                    assert(p@[b] == old_p[b - 1]);
                    if b - 1 > pos {
                        let q = old_p[pos as int] as int;
                        assert(descriptor_lt(es[q], es[old_p[b - 1] as int]));
                        lemma_descriptor_order(es[i as int], es[q], es[old_p[b - 1] as int]);
                    }
                } else {
                    assert(p@[a] == old_p[a] && p@[b] == old_p[b - 1]);
                }
            }
        }
        i += 1;
    }
    let mut list: Vec<InputDeviceDescriptor> = Vec::new();
    let mut k: usize = 0;
    while k < n
        invariant
            n == es.len(),
            es == descriptors_view(entries@),
            p@.len() == n,
            forall|t: int| 0 <= t < p@.len() ==> #[trigger] p@[t] < n,
            k <= n,
            descriptors_view(list@) =~= p@.take(k as int).map_values(|t: usize| es[t as int]),
        decreases n - k,
    {
        let e = &entries[p[k]];
        let ghost before = descriptors_view(list@);
        let d = InputDeviceDescriptor { label: e.label.clone(), is_default: e.is_default, caution: e.caution };
        assert(d@ == es[p@[k as int] as int]);
        list.push(d);
        proof {
            assert(descriptors_view(list@) =~= before.push(d@));
            assert(p@.take(k + 1).map_values(|t: usize| es[t as int]) =~= p@.take(k as int).map_values(
                |t: usize| es[t as int],
            ).push(es[p@[k as int] as int]));
        }
        k += 1;
    }
    proof {
        let lv = descriptors_view(list@);
        assert(p@.take(n as int) =~= p@);
        assert forall|t: int| 0 <= t < lv.len() implies m.contains_key(lower(#[trigger] lv[t].label)) && m[lower(lv[t].label)] == lv[t] by {
            let q = p@[t] as int;
            assert(lv[t] == es[q]);
            assert(m.contains_key(ks[q]));
        }
        assert forall|key: Seq<char>| #[trigger] m.contains_key(key) implies exists|t: int| 0 <= t < lv.len() && lower(#[trigger] lv[t].label) == key by {
            assert(ks.contains(key));
            let w = choose|w: int| 0 <= w < ks.len() && ks[w] == key;
            assert(p@.contains(w as usize));
            let t = choose|t: int| 0 <= t < p@.len() && p@[t] == w as usize;
            assert(lv[t] == es[w]);
        }
        assert forall|a: int, b: int| 0 <= a < b < lv.len() implies descriptor_lt(#[trigger] lv[a], #[trigger] lv[b]) by {
            assert(lv[a] == es[p@[a] as int]);
            assert(lv[b] == es[p@[b] as int]);
        }
    }
    list
}


/// The rank of an audio host in the order hosts are tried after the default one.
pub fn host_rank(_id: usize) -> (r: u8)
    ensures
        r == 0,
{
    0
}

/// The order in which audio hosts are tried: the default host first, then the other
/// available hosts in their order (all hosts rank alike, and the sort by rank is stable).
pub fn ordered_host_ids(default_id: usize, available: &Vec<usize>) -> (ordered: Vec<usize>)
    ensures
        ordered@ == seq![default_id] + available@.filter(|id: usize| id != default_id),
{
    let mut ordered: Vec<usize> = Vec::new();
    ordered.push(default_id);
    let mut i: usize = 0;
    while i < available.len()
        invariant
            i <= available@.len(),
            ordered@ == seq![default_id] + available@.take(i as int).filter(|id: usize| id != default_id),
        decreases available@.len() - i,
    {
        let id = available[i];
        let _ = host_rank(id);
        proof {
            let f = |id: usize| id != default_id;
            assert(available@.take(i + 1).drop_last() =~= available@.take(i as int));
            reveal(Seq::filter);
            assert(available@.take(i + 1).filter(f) == if f(id) {
                available@.take(i as int).filter(f).push(id)
            } else {
                available@.take(i as int).filter(f)
            });
        }
        if id != default_id {
            ordered.push(id);
        }
        i += 1;
        proof {
            assert(ordered@ =~= seq![default_id] + available@.take(i as int).filter(|id: usize| id != default_id));
        }
    }
    assert(available@.take(available@.len() as int) =~= available@);
    ordered
}

pub open spec fn sanitized_preference(name: Option<Seq<char>>) -> Option<Seq<char>> {
    match name {
        Some(n) => if trim(n).len() > 0 { Some(trim(n)) } else { None },
        None => None,
    }
}

/// The preferred input device as the recorder keeps it: trimmed, and none when empty.
pub fn sanitize_preferred_input(name: Option<String>) -> (r: Option<String>)
    ensures
        opt_string_view(r) == sanitized_preference(opt_string_view(name)),
{
    match name {
        Some(n) => {
            let t = crate::text::trim_string(n.as_str());
            if t.as_str().unicode_len() > 0 {
                Some(t)
            } else {
                None
            }
        },
        None => None,
    }
}

/// Whether the cached device may be used for a recording: no preference is set, or the
/// cached device name, lowercased, equals the normalized preference.
pub fn cached_device_usable(cached_name: &str, preferred_normalized: Option<&str>) -> (r: bool)
    ensures
        r == match preferred_normalized {
            Some(p) => lower(cached_name@) == p@,
            None => true,
        },
{
    match preferred_normalized {
        Some(p) => {
            let c = lowered_chars(cached_name);
            let pc = chars_of(p);
            chars_equal(c.as_slice(), pc.as_slice())
        },
        None => true,
    }
}

} // verus!
