use vstd::prelude::*;
use crate::auth::json_string;

verus! {

/// Where a transcription's audio is kept, and how long it lasts.
#[derive(Debug, Clone)]
pub struct TranscriptionAudioSnapshot {
    pub file_path: String,
    pub duration_ms: i64,
}

/// The audio snapshot of a stored transcription row: present when the row has an audio
/// path, with the stored duration, or zero when none is stored.
pub fn audio_snapshot_from_row(audio_path: Option<String>, audio_duration_ms: Option<i64>) -> (r: Option<TranscriptionAudioSnapshot>)
    ensures
        match audio_path {
            Some(p) => r matches Some(s) && s.file_path == p
                && s.duration_ms == (match audio_duration_ms { Some(d) => d, None => 0i64 }),
            None => r is None,
        },
{
    match audio_path {
        Some(file_path) => {
            let duration_ms = match audio_duration_ms {
                Some(d) => d,
                None => 0i64,
            };
            Some(TranscriptionAudioSnapshot { file_path, duration_ms })
        },
        None => None,
    }
}

pub open spec fn strings_view(v: Seq<String>) -> Seq<Seq<char>> {
    v.map_values(|s: String| s@)
}

/// The JSON literals of the strings, separated by commas.
pub open spec fn json_items(v: Seq<Seq<char>>) -> Seq<char>
    decreases v.len(),
{
    if v.len() == 0 {
        Seq::empty()
    } else if v.len() == 1 {
        json_string(v[0])
    } else {
        json_items(v.drop_last()) + seq![','] + json_string(v.last())
    }
}

/// A list of strings as compact JSON: `[`, the string literals separated by commas, `]`.
pub open spec fn json_string_array(v: Seq<Seq<char>>) -> Seq<char> {
    seq!['['] + json_items(v) + seq![']']
}

/// `serde_json::to_string` of a list of strings. Its compact formatter writes `[`, each
/// element's string literal with a comma before all but the first, and `]`; serializing
/// strings cannot fail.
#[verifier::external_body]
fn json_of_strings(v: &Vec<String>) -> (r: String)
    ensures
        r@ == json_string_array(strings_view(v@)),
{
    serde_json::to_string(v).unwrap_or_default()
}

/// A read of `text` gives back every list of strings whose compact JSON array `text` is.
pub open spec fn reads_back(text: Seq<char>, r: Option<Vec<String>>) -> bool {
    forall|vs: Seq<Seq<char>>| text == #[trigger] json_string_array(vs) ==> (r matches Some(v) && strings_view(v@) == vs)
}

/// What `serde_json::from_str` reads as a list of strings from a text: the strings, or
/// nothing when the text is not a JSON array of strings.
pub uninterp spec fn json_strings_parse(text: Seq<char>) -> Option<Seq<Seq<char>>>;

/// `serde_json::from_str::<Vec<String>>`, with a parse error as `None`. The contract names
/// the outcome, and states one fact of JSON syntax: the compact array that
/// `serde_json::to_string` writes for a list of strings reads back as that list.
#[verifier::external_body]
fn parse_json_strings(text: &str) -> (r: Option<Vec<String>>)
    ensures
        match r {
            Some(v) => json_strings_parse(text@) == Some(strings_view(v@)),
            None => json_strings_parse(text@) is None,
        },
        reads_back(text@, r),
{
    match serde_json::from_str::<Vec<String>>(text) {
        Ok(v) => Some(v),
        Err(_) => None,
    }
}

/// The warnings of a transcription as stored: a JSON array of strings, when there are
/// warnings.
pub fn serialize_warnings(warnings: &Option<Vec<String>>) -> (r: Option<String>)
    ensures
        match warnings {
            Some(w) => r matches Some(s) && s@ == json_string_array(strings_view(w@)),
            None => r is None,
        },
{
    match warnings {
        Some(w) => Some(json_of_strings(w)),
        None => None,
    }
}

/// The warnings of a stored transcription: the stored JSON read as a list of strings;
/// nothing when none is stored or it does not read as one. Warnings stored by
/// `serialize_warnings` read back as they were.
pub fn parse_warnings(warnings_json: Option<String>) -> (r: Option<Vec<String>>)
    ensures
        match warnings_json {
            Some(j) => match r {
                Some(v) => json_strings_parse(j@) == Some(strings_view(v@)),
                None => json_strings_parse(j@) is None,
            },
            None => r is None,
        },
        forall|vs: Seq<Seq<char>>|
            warnings_json matches Some(j) && j@ == #[trigger] json_string_array(vs) ==> (r matches Some(v)
                && strings_view(v@) == vs),
{
    match warnings_json {
        Some(j) => parse_json_strings(j.as_str()),
        None => None,
    }
}

} // verus!
