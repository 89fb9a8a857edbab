use vstd::prelude::*;

use crate::linux::{lowercase, unicode_lowercase};
use crate::text::{
    chars_equal, chars_of, concat_strs, decimal_int, decimal_string, lower, opt_string_view,
    owned, starts_with_seq, string_from_chars, clone_opt_string,
};

verus! {

/// The identifying attributes of a UI element, captured when a field is bound and used to
/// find the same element again (Windows UIA attributes and macOS AX attributes).
pub struct ElementFingerprint {
    pub automation_id: Option<String>,
    pub class_name: Option<String>,
    pub control_type: i32,
    pub name: Option<String>,
    pub framework_id: Option<String>,
    pub child_index: usize,
    pub ax_role: Option<String>,
    pub ax_subrole: Option<String>,
    pub ax_title: Option<String>,
    pub ax_description: Option<String>,
    pub ax_identifier: Option<String>,
}

/// What was read of a UIA element.
pub struct UiaElementAttributes {
    pub automation_id: Option<String>,
    pub class_name: Option<String>,
    pub control_type: i32,
    pub name: Option<String>,
}

/// Both values are present and equal.
pub open spec fn opt_eq(expected: Option<String>, actual: Option<String>) -> bool {
    match (expected, actual) {
        (Some(e), Some(a)) => e@ == a@,
        _ => false,
    }
}

/// How well a UIA element matches a fingerprint: 0 when its AutomationId differs from the
/// expected one or its control type differs; otherwise 100 for the AutomationId, 40 for the
/// control type, 30 for the class name, 20 for the name and 5 for the index.
pub open spec fn uia_score(el: UiaElementAttributes, fp: ElementFingerprint, actual_index: usize) -> u32 {
    let id_mismatch = fp.automation_id is Some && el.automation_id is Some && !opt_eq(fp.automation_id, el.automation_id);
    if id_mismatch || el.control_type != fp.control_type {
        0
    } else {
        ((if opt_eq(fp.automation_id, el.automation_id) { 100int } else { 0int }) + 40 + (if opt_eq(
            fp.class_name,
            el.class_name,
        ) {
            30int
        } else {
            0int
        }) + (if opt_eq(fp.name, el.name) { 20int } else { 0int }) + (if actual_index == fp.child_index {
            5int
        } else {
            0int
        })) as u32
    }
}

/// A UIA element whose AutomationId differs from the recorded one, or whose control type
/// differs, scores 0; one with the recorded control type and no differing AutomationId
/// scores above 0; and one carrying the recorded AutomationId outscores any element
/// without it.
pub proof fn lemma_uia_score_law(
    el: UiaElementAttributes,
    other: UiaElementAttributes,
    fp: ElementFingerprint,
    i: usize,
    j: usize,
)
    ensures
        (fp.automation_id is Some && el.automation_id is Some && fp.automation_id->0@ != el.automation_id->0@)
            ==> uia_score(el, fp, i) == 0,
        el.control_type != fp.control_type ==> uia_score(el, fp, i) == 0,
        (el.control_type == fp.control_type && !(fp.automation_id is Some && el.automation_id is Some
            && fp.automation_id->0@ != el.automation_id->0@)) ==> uia_score(el, fp, i) >= 40,
        (el.control_type == fp.control_type && fp.automation_id is Some && el.automation_id is Some
            && fp.automation_id->0@ == el.automation_id->0@ && (other.automation_id is None
            || other.automation_id->0@ != fp.automation_id->0@)) ==> uia_score(other, fp, j) < uia_score(el, fp, i),
{
}

fn opt_strings_equal(a: &Option<String>, b: &Option<String>) -> (r: bool)
    ensures
        r == opt_eq(*a, *b),
{
    match (a, b) {
        (Some(x), Some(y)) => chars_equal(chars_of(x.as_str()).as_slice(), chars_of(y.as_str()).as_slice()),
        _ => false,
    }
}

/// How well a UIA element matches the fingerprint, at child index `actual_index`.
pub fn score_element_match(element: &UiaElementAttributes, fingerprint: &ElementFingerprint, actual_index: usize) -> (r: u32)
    ensures
        r == uia_score(*element, *fingerprint, actual_index),
{
    let mut score: u32 = 0;
    if fingerprint.automation_id.is_some() && element.automation_id.is_some() {
        if opt_strings_equal(&fingerprint.automation_id, &element.automation_id) {
            score += 100;
        } else {
            return 0;
        }
    }
    if element.control_type == fingerprint.control_type {
        score += 40;
    } else {
        return 0;
    }
    if opt_strings_equal(&fingerprint.class_name, &element.class_name) {
        score += 30;
    }
    if opt_strings_equal(&fingerprint.name, &element.name) {
        score += 20;
    }
    if actual_index == fingerprint.child_index {
        score += 5;
    }
    score
}

/// What was read of a macOS AX element.
pub struct AxElementAttributes {
    pub identifier: Option<String>,
    pub role: Option<String>,
    pub subrole: Option<String>,
    pub title: Option<String>,
    pub description: Option<String>,
}

/// Whether the fingerprint holds any AX attribute.
pub open spec fn has_ax_signal(fp: ElementFingerprint) -> bool {
    fp.ax_identifier is Some || fp.ax_role is Some || fp.ax_subrole is Some || fp.ax_title is Some
        || fp.ax_description is Some
}

/// How well an AX element matches a fingerprint: 0 when the identifier differs or the role
/// differs or is missing; otherwise 200 for the identifier, 50 for the role, 30 for the
/// subrole, 40 for the title, 20 for the description and 5 for the index; 1 for a
/// fingerprint without any AX attribute that scored nothing.
pub open spec fn ax_score(el: AxElementAttributes, fp: ElementFingerprint, actual_index: usize) -> u32 {
    let id_mismatch = fp.ax_identifier is Some && el.identifier is Some && !opt_eq(fp.ax_identifier, el.identifier);
    let role_mismatch = fp.ax_role is Some && !opt_eq(fp.ax_role, el.role);
    if id_mismatch || role_mismatch {
        0
    } else {
        let s = (if opt_eq(fp.ax_identifier, el.identifier) { 200int } else { 0int }) + (if fp.ax_role is Some {
            50int
        } else {
            0int
        }) + (if opt_eq(fp.ax_subrole, el.subrole) { 30int } else { 0int }) + (if opt_eq(fp.ax_title, el.title) {
            40int
        } else {
            0int
        }) + (if opt_eq(fp.ax_description, el.description) { 20int } else { 0int }) + (if actual_index
            == fp.child_index {
            5int
        } else {
            0int
        });
        if s == 0 && !has_ax_signal(fp) {
            1
        } else {
            s as u32
        }
    }
}

/// An element whose AX identifier differs from the one recorded is never the bound
/// element: it scores 0, whatever else it shares with the fingerprint. So does an element
/// whose role differs from (or lacks) the recorded role.
pub proof fn lemma_ax_mismatch_scores_zero(el: AxElementAttributes, fp: ElementFingerprint, actual_index: usize)
    ensures
        (fp.ax_identifier is Some && el.identifier is Some && fp.ax_identifier->0@ != el.identifier->0@) ==> ax_score(
            el,
            fp,
            actual_index,
        ) == 0,
        (fp.ax_role is Some && (el.role is None || el.role->0@ != fp.ax_role->0@)) ==> ax_score(
            el,
            fp,
            actual_index,
        ) == 0,
{
}

/// An element that carries the recorded AX identifier and role always scores above 0, and
/// above any element that lacks the identifier, so it is the one chosen among siblings.
pub proof fn lemma_ax_identifier_match_wins(
    el: AxElementAttributes,
    other: AxElementAttributes,
    fp: ElementFingerprint,
    i: usize,
    j: usize,
)
    requires
        fp.ax_identifier is Some && el.identifier is Some && fp.ax_identifier->0@ == el.identifier->0@,
        fp.ax_role is None || (el.role is Some && el.role->0@ == fp.ax_role->0@),
        other.identifier is None || other.identifier->0@ != fp.ax_identifier->0@,
    ensures
        ax_score(el, fp, i) >= 200,
        ax_score(other, fp, j) < ax_score(el, fp, i),
{
}

/// How well an AX element matches the fingerprint, at child index `actual_index`.
pub fn fingerprint_score(element: &AxElementAttributes, fp: &ElementFingerprint, actual_index: usize) -> (r: u32)
    ensures
        r == ax_score(*element, *fp, actual_index),
{
    let mut score: u32 = 0;
    if fp.ax_identifier.is_some() && element.identifier.is_some() {
        if opt_strings_equal(&fp.ax_identifier, &element.identifier) {
            score += 200;
        } else {
            return 0;
        }
    }
    if fp.ax_role.is_some() {
        if opt_strings_equal(&fp.ax_role, &element.role) {
            score += 50;
        } else {
            return 0;
        }
    }
    if opt_strings_equal(&fp.ax_subrole, &element.subrole) {
        score += 30;
    }
    if opt_strings_equal(&fp.ax_title, &element.title) {
        score += 40;
    }
    if opt_strings_equal(&fp.ax_description, &element.description) {
        score += 20;
    }
    if actual_index == fp.child_index {
        score += 5;
    }
    if score == 0 {
        let any_signal = fp.ax_identifier.is_some() || fp.ax_role.is_some() || fp.ax_subrole.is_some()
            || fp.ax_title.is_some() || fp.ax_description.is_some();
        if !any_signal {
            return 1;
        }
    }
    score
}

/// `i` holds the highest score above `floor`, and no earlier index holds as much.
pub open spec fn is_first_max_above(scores: Seq<i64>, floor: i64, i: int) -> bool {
    &&& 0 <= i < scores.len()
    &&& scores[i] > floor
    &&& forall|j: int| 0 <= j < scores.len() ==> #[trigger] scores[j] <= scores[i]
    &&& forall|j: int| 0 <= j < i ==> #[trigger] scores[j] < scores[i]
}

/// The first index with the highest score, when some score is above `floor`.
pub fn first_max_above(scores: &Vec<i64>, floor: i64) -> (r: Option<usize>)
    ensures
        match r {
            Some(i) => is_first_max_above(scores@, floor, i as int),
            None => forall|j: int| 0 <= j < scores@.len() ==> #[trigger] scores@[j] <= floor,
        },
{
    let mut best: Option<usize> = None;
    let mut i: usize = 0;
    while i < scores.len()
        invariant
            i <= scores@.len(),
            match best {
                Some(b) => b < i && scores@[b as int] > floor && (forall|j: int| 0 <= j < i ==> #[trigger] scores@[j] <= scores@[b as int])
                    && (forall|j: int| 0 <= j < b ==> #[trigger] scores@[j] < scores@[b as int]),
                None => forall|j: int| 0 <= j < i ==> #[trigger] scores@[j] <= floor,
            },
        decreases scores@.len() - i,
    {
        let s = scores[i];
        match best {
            Some(b) => {
                if s > scores[b] {
                    best = Some(i);
                }
            },
            None => {
                if s > floor {
                    best = Some(i);
                }
            },
        }
        i += 1;
    }
    best
}

/// The child chosen on Windows: the first best-scoring one when some child scores above 0,
/// else the recorded index when it is in range.
pub fn windows_child_choice(scores: &Vec<i64>, recorded_index: usize) -> (r: Option<usize>)
    ensures
        match r {
            Some(i) => is_first_max_above(scores@, 0, i as int) || ((forall|j: int|
                0 <= j < scores@.len() ==> #[trigger] scores@[j] <= 0) && i == recorded_index
                && recorded_index < scores@.len()),
            None => (forall|j: int| 0 <= j < scores@.len() ==> #[trigger] scores@[j] <= 0) && recorded_index
                >= scores@.len(),
        },
{
    match first_max_above(scores, 0) {
        Some(i) => Some(i),
        None => {
            if recorded_index < scores.len() {
                Some(recorded_index)
            } else {
                None
            }
        },
    }
}

/// The child chosen on macOS at one level of a recorded path, from each child's score
/// (`None` for a child that could not be read): the recorded index when its child scores
/// above 0; else, with a fingerprint, the first best-scoring child, or the recorded index
/// when in range; without a fingerprint, the recorded index when in range.
pub open spec fn macos_choice(scores: Seq<Option<u32>>, recorded: int, has_fingerprint: bool) -> Option<int> {
    let flat = scores.map_values(|s: Option<u32>| match s { Some(v) => v as i64, None => 0i64 });
    if 0 <= recorded < scores.len() && (match scores[recorded] { Some(v) => v > 0, None => false }) {
        Some(recorded)
    } else if has_fingerprint && exists|i: int| is_first_max_above(flat, 0, i) {
        Some(choose|i: int| is_first_max_above(flat, 0, i))
    } else if 0 <= recorded < scores.len() {
        Some(recorded)
    } else {
        None
    }
}

proof fn lemma_first_max_unique(s: Seq<i64>, floor: i64, a: int, b: int)
    requires
        is_first_max_above(s, floor, a),
        is_first_max_above(s, floor, b),
    ensures
        a == b,
{
    assert(s[a] <= s[b]);
    assert(s[b] <= s[a]);
    if a < b {
        assert(s[a] < s[b]);
    } else if b < a {
        assert(s[b] < s[a]);
    }
}

proof fn lemma_first_max_exists(s: Seq<i64>, floor: i64)
    requires
        exists|j: int| 0 <= j < s.len() && s[j] > floor,
    ensures
        exists|i: int| is_first_max_above(s, floor, i),
    decreases s.len(),
{
    let d = s.drop_last();
    let last = s.len() - 1;
    if exists|j: int| 0 <= j < d.len() && d[j] > floor {
        lemma_first_max_exists(d, floor);
        let m = choose|i: int| is_first_max_above(d, floor, i);
        assert(s[m] == d[m]);
        if s[last] > s[m] {
            assert forall|j: int| 0 <= j < s.len() implies #[trigger] s[j] <= s[last] by {
                if j < last {
                    assert(s[j] == d[j]);
                }
            }
            assert forall|j: int| 0 <= j < last implies #[trigger] s[j] < s[last] by {
                assert(s[j] == d[j]);
            }
            assert(is_first_max_above(s, floor, last));
        } else {
            assert forall|j: int| 0 <= j < s.len() implies #[trigger] s[j] <= s[m] by {
                if j < last {
                    assert(s[j] == d[j]);
                }
            }
            assert forall|j: int| 0 <= j < m implies #[trigger] s[j] < s[m] by {
                assert(s[j] == d[j]);
            }
            assert(is_first_max_above(s, floor, m));
        }
    } else {
        assert(s[last] > floor) by {
            let j = choose|j: int| 0 <= j < s.len() && s[j] > floor;
            if j < last {
                assert(d[j] == s[j]);
            }
        }
        assert forall|j: int| 0 <= j < s.len() implies #[trigger] s[j] <= s[last] by {
            if j < last {
                assert(s[j] == d[j]);
            }
        }
        assert forall|j: int| 0 <= j < last implies #[trigger] s[j] < s[last] by {
            assert(s[j] == d[j]);
        }
        assert(is_first_max_above(s, floor, last));
    }
}

/// The score of a child as a number, 0 when it could not be read.
pub open spec fn score_of(s: Option<u32>) -> int {
    match s {
        Some(v) => v as int,
        None => 0,
    }
}

/// How a macOS child is chosen at one level: the recorded index when it is in range and
/// scores above 0; otherwise, with a fingerprint, a child whose score is above 0 and no
/// lower than any sibling's (the first such), when there is one; otherwise the recorded
/// index when in range; otherwise none. A chosen index is always in range.
pub proof fn lemma_macos_choice_law(scores: Seq<Option<u32>>, recorded: int, has_fingerprint: bool)
    ensures
        (0 <= recorded < scores.len() && score_of(scores[recorded]) > 0) ==> macos_choice(scores, recorded, has_fingerprint)
            == Some(recorded),
        macos_choice(scores, recorded, has_fingerprint) matches Some(i) ==> 0 <= i < scores.len(),
        (!(0 <= recorded < scores.len() && score_of(scores[recorded]) > 0) && has_fingerprint && exists|j: int|
            0 <= j < scores.len() && score_of(#[trigger] scores[j]) > 0) ==> ({
            let i = macos_choice(scores, recorded, has_fingerprint)->0;
            &&& macos_choice(scores, recorded, has_fingerprint) is Some
            &&& score_of(scores[i]) > 0
            &&& forall|j: int| 0 <= j < scores.len() ==> score_of(#[trigger] scores[j]) <= score_of(scores[i])
            &&& forall|j: int| 0 <= j < i ==> score_of(#[trigger] scores[j]) < score_of(scores[i])
        }),
        (macos_choice(scores, recorded, has_fingerprint) is None) == (!(0 <= recorded < scores.len()) && (
        !has_fingerprint || forall|j: int| 0 <= j < scores.len() ==> score_of(#[trigger] scores[j]) == 0)),
{
    let flat = scores.map_values(|s: Option<u32>| match s { Some(v) => v as i64, None => 0i64 });
    assert forall|j: int| 0 <= j < scores.len() implies #[trigger] flat[j] as int == score_of(scores[j]) by {}
    if exists|j: int| 0 <= j < scores.len() && score_of(#[trigger] scores[j]) > 0 {
        let j = choose|j: int| 0 <= j < scores.len() && score_of(#[trigger] scores[j]) > 0;
        assert(flat[j] > 0);
        lemma_first_max_exists(flat, 0);
        let i = choose|i: int| is_first_max_above(flat, 0, i);
        assert(flat[i] as int == score_of(scores[i]));
        assert forall|q: int| 0 <= q < scores.len() implies score_of(#[trigger] scores[q]) <= score_of(scores[i]) by {
            assert(flat[q] <= flat[i]);
        }
        assert forall|q: int| 0 <= q < i implies score_of(#[trigger] scores[q]) < score_of(scores[i]) by {
            assert(flat[q] < flat[i]);
        }
    } else {
        assert forall|i: int| !is_first_max_above(flat, 0, i) by {
            if 0 <= i < flat.len() {
                assert(flat[i] as int == score_of(scores[i]));
            }
        }
    }
}

/// The child chosen on macOS at one level of a recorded path.
pub fn macos_child_choice(scores: &Vec<Option<u32>>, recorded_index: usize, has_fingerprint: bool) -> (r: Option<usize>)
    ensures
        match r {
            Some(i) => macos_choice(scores@, recorded_index as int, has_fingerprint) == Some(i as int),
            None => macos_choice(scores@, recorded_index as int, has_fingerprint) is None,
        },
{
    if recorded_index < scores.len() {
        if let Some(v) = scores[recorded_index] {
            if v > 0 {
                return Some(recorded_index);
            }
        }
    }
    let ghost flat = scores@.map_values(|s: Option<u32>| match s { Some(v) => v as i64, None => 0i64 });
    if has_fingerprint {
        let mut flat_v: Vec<i64> = Vec::new();
        let mut i: usize = 0;
        while i < scores.len()
            invariant
                i <= scores@.len(),
                flat == scores@.map_values(|s: Option<u32>| match s { Some(v) => v as i64, None => 0i64 }),
                flat_v@ =~= flat.take(i as int),
            decreases scores@.len() - i,
        {
            let v: i64 = match scores[i] {
                Some(v) => v as i64,
                None => 0,
            };
            flat_v.push(v);
            i += 1;
        }
        assert(flat.take(scores@.len() as int) =~= flat);
        match first_max_above(&flat_v, 0) {
            Some(b) => {
                proof {
                    let c = choose|c: int| is_first_max_above(flat, 0, c);
                    lemma_first_max_unique(flat, 0, b as int, c);
                }
                return Some(b);
            },
            None => {
                assert forall|c: int| !is_first_max_above(flat, 0, c) by {
                    if 0 <= c < flat.len() {
                        assert(flat[c] <= 0);
                    }
                }
            },
        }
    }
    if recorded_index < scores.len() {
        Some(recorded_index)
    } else {
        None
    }
}


/// One segment of a Java Access Bridge path: the element's name and role as recorded, and
/// its index among its siblings.
pub struct JabElementId {
    pub name: Option<String>,
    pub role: Option<String>,
    pub index_in_parent: usize,
}

pub open spec fn nonempty_opt(o: Option<String>) -> bool {
    match o {
        Some(s) => s@.len() > 0,
        None => false,
    }
}

/// How well a Java child matches a path segment: 100 for the name, 40 for the role, 5 for
/// the index.
pub open spec fn jab_score(seg: JabElementId, name: Seq<char>, role: Seq<char>, index: int) -> int {
    (if nonempty_opt(seg.name) && opt_string_view(seg.name) == Some(name) { 100int } else { 0int }) + (if nonempty_opt(seg.role)
        && opt_string_view(seg.role) == Some(role) {
        40int
    } else {
        0int
    }) + (if index == seg.index_in_parent { 5int } else { 0int })
}

fn opt_equals_chars(o: &Option<String>, s: &str) -> (r: bool)
    ensures
        r == (opt_string_view(*o) == Some(s@)),
{
    match o {
        Some(x) => chars_equal(chars_of(x.as_str()).as_slice(), chars_of(s).as_slice()),
        None => false,
    }
}

/// The score of a Java child with the given name and role at `index`.
pub fn jab_child_score(seg: &JabElementId, name: &str, role: &str, index: usize) -> (r: i64)
    ensures
        r == jab_score(*seg, name@, role@, index as int),
{
    let has_name = match &seg.name {
        Some(n) => n.as_str().unicode_len() > 0,
        None => false,
    };
    let has_role = match &seg.role {
        Some(n) => n.as_str().unicode_len() > 0,
        None => false,
    };
    let mut s: i64 = 0;
    if has_name && opt_equals_chars(&seg.name, name) {
        s += 100;
    }
    if has_role && opt_equals_chars(&seg.role, role) {
        s += 40;
    }
    if index == seg.index_in_parent {
        s += 5;
    }
    s
}

/// The least score of a match: a name match when the segment has a name, else a role
/// match.
pub fn jab_match_threshold(seg: &JabElementId) -> (r: i64)
    ensures
        r == (if nonempty_opt(seg.name) { 100int } else { 40int }),
{
    let has_name = match &seg.name {
        Some(n) => n.as_str().unicode_len() > 0,
        None => false,
    };
    if has_name {
        100
    } else {
        40
    }
}

/// The child to follow for a segment among the fetched children (`-1` for a child whose
/// information could not be read): the first best-scoring one that reaches the threshold.
pub fn jab_pick_child(scores: &Vec<i64>, threshold: i64) -> (r: Option<usize>)
    requires
        threshold > i64::MIN,
    ensures
        match r {
            Some(i) => is_first_max_above(scores@, (threshold - 1) as i64, i as int),
            None => forall|j: int| 0 <= j < scores@.len() ==> #[trigger] scores@[j] < threshold,
        },
{
    first_max_above(scores, threshold - 1)
}

/// Whether a process name is a Java runtime.
pub open spec fn java_process(name: Option<Seq<char>>) -> bool {
    match name {
        Some(n) => {
            let l = lower(n);
            l == "java.exe"@ || l == "javaw.exe"@ || l == "javaws.exe"@ || starts_with_seq(l, "java"@)
                || crate::text::contains_seq(l, "openwebstart"@)
        },
        None => false,
    }
}

/// Whether the process name belongs to a Java runtime.
pub fn is_java_process_name(name: Option<&str>) -> (r: bool)
    ensures
        r == java_process(match name {
            Some(n) => Some(n@),
            None => None,
        }),
{
    match name {
        Some(n) => {
            let l = crate::text::to_lower_chars(chars_of(n).as_slice());
            let ls = l.as_slice();
            chars_equal(ls, chars_of("java.exe").as_slice()) || chars_equal(ls, chars_of("javaw.exe").as_slice())
                || chars_equal(ls, chars_of("javaws.exe").as_slice()) || crate::text::starts_with_chars(
                ls,
                chars_of("java").as_slice(),
            ) || crate::text::contains_chars(ls, chars_of("openwebstart").as_slice())
        },
        None => false,
    }
}

/// Whether an AX role names a text-input widget.
pub fn is_text_role(role: Option<&str>) -> (r: bool)
    ensures
        r == match role {
            Some(s) => s@ == "AXTextField"@ || s@ == "AXTextArea"@ || s@ == "AXSecureTextField"@ || s@
                == "AXComboBox"@,
            None => false,
        },
{
    match role {
        Some(s) => {
            let c = chars_of(s);
            let cs = c.as_slice();
            chars_equal(cs, chars_of("AXTextField").as_slice()) || chars_equal(cs, chars_of("AXTextArea").as_slice())
                || chars_equal(cs, chars_of("AXSecureTextField").as_slice()) || chars_equal(
                cs,
                chars_of("AXComboBox").as_slice(),
            )
        },
        None => false,
    }
}

// UI Automation control type identifiers.
pub const UIA_BUTTON: i32 = 50000;
pub const UIA_CALENDAR: i32 = 50001;
pub const UIA_CHECK_BOX: i32 = 50002;
pub const UIA_COMBO_BOX: i32 = 50003;
pub const UIA_EDIT: i32 = 50004;
pub const UIA_HYPERLINK: i32 = 50005;
pub const UIA_IMAGE: i32 = 50006;
pub const UIA_LIST_ITEM: i32 = 50007;
pub const UIA_LIST: i32 = 50008;
pub const UIA_MENU: i32 = 50009;
pub const UIA_MENU_BAR: i32 = 50010;
pub const UIA_MENU_ITEM: i32 = 50011;
pub const UIA_PROGRESS_BAR: i32 = 50012;
pub const UIA_RADIO_BUTTON: i32 = 50013;
pub const UIA_SLIDER: i32 = 50015;
pub const UIA_STATUS_BAR: i32 = 50017;
pub const UIA_TAB: i32 = 50018;
pub const UIA_TAB_ITEM: i32 = 50019;
pub const UIA_TEXT: i32 = 50020;
pub const UIA_TOOL_BAR: i32 = 50021;
pub const UIA_TREE: i32 = 50023;
pub const UIA_TREE_ITEM: i32 = 50024;
pub const UIA_CUSTOM: i32 = 50025;
pub const UIA_GROUP: i32 = 50026;
pub const UIA_THUMB: i32 = 50027;
pub const UIA_DATA_GRID: i32 = 50028;
pub const UIA_DOCUMENT: i32 = 50030;
pub const UIA_SPLIT_BUTTON: i32 = 50031;
pub const UIA_WINDOW: i32 = 50032;
pub const UIA_PANE: i32 = 50033;
pub const UIA_HEADER: i32 = 50034;
pub const UIA_TABLE: i32 = 50036;
pub const UIA_TITLE_BAR: i32 = 50037;
pub const UIA_SEMANTIC_ZOOM: i32 = 50039;
pub const UIA_APP_BAR: i32 = 50040;

/// Control types that never take text: buttons, check boxes, menu items, progress bars,
/// radio buttons, sliders, split buttons, thumbs and title bars.
pub fn is_non_text_control(control_type: i32) -> (r: bool)
    ensures
        r == (control_type == UIA_BUTTON || control_type == UIA_CHECK_BOX || control_type == UIA_MENU_ITEM
            || control_type == UIA_PROGRESS_BAR || control_type == UIA_RADIO_BUTTON || control_type == UIA_SLIDER
            || control_type == UIA_SPLIT_BUTTON || control_type == UIA_THUMB || control_type == UIA_TITLE_BAR),
{
    control_type == UIA_BUTTON || control_type == UIA_CHECK_BOX || control_type == UIA_MENU_ITEM || control_type
        == UIA_PROGRESS_BAR || control_type == UIA_RADIO_BUTTON || control_type == UIA_SLIDER || control_type
        == UIA_SPLIT_BUTTON || control_type == UIA_THUMB || control_type == UIA_TITLE_BAR
}

/// Control types skipped when recording a path: unknown (0), thumbs, title bars, images.
pub fn should_skip_control_type(control_type: i32) -> (r: bool)
    ensures
        r == (control_type == 0 || control_type == UIA_THUMB || control_type == UIA_TITLE_BAR || control_type
            == UIA_IMAGE),
{
    control_type == 0 || control_type == UIA_THUMB || control_type == UIA_TITLE_BAR || control_type == UIA_IMAGE
}

/// Control types that group other controls.
pub fn is_container_control_type(control_type: i32) -> (r: bool)
    ensures
        r == (control_type == UIA_TAB || control_type == UIA_MENU || control_type == UIA_MENU_BAR || control_type
            == UIA_TOOL_BAR || control_type == UIA_STATUS_BAR || control_type == UIA_HEADER || control_type == UIA_PANE
            || control_type == UIA_GROUP || control_type == UIA_DOCUMENT || control_type == UIA_LIST || control_type
            == UIA_TABLE || control_type == UIA_TREE || control_type == UIA_DATA_GRID || control_type == UIA_CUSTOM
            || control_type == UIA_CALENDAR || control_type == UIA_SEMANTIC_ZOOM || control_type == UIA_APP_BAR),
{
    control_type == UIA_TAB || control_type == UIA_MENU || control_type == UIA_MENU_BAR || control_type == UIA_TOOL_BAR
        || control_type == UIA_STATUS_BAR || control_type == UIA_HEADER || control_type == UIA_PANE || control_type
        == UIA_GROUP || control_type == UIA_DOCUMENT || control_type == UIA_LIST || control_type == UIA_TABLE
        || control_type == UIA_TREE || control_type == UIA_DATA_GRID || control_type == UIA_CUSTOM || control_type
        == UIA_CALENDAR || control_type == UIA_SEMANTIC_ZOOM || control_type == UIA_APP_BAR
}

/// The name of a control type in dumps.
pub open spec fn control_type_label(ct: i32) -> Seq<char> {
    if ct == UIA_EDIT {
        "Edit"@
    } else if ct == UIA_DOCUMENT {
        "Document"@
    } else if ct == UIA_TEXT {
        "Text"@
    } else if ct == UIA_BUTTON {
        "Button"@
    } else if ct == UIA_COMBO_BOX {
        "ComboBox"@
    } else if ct == UIA_LIST_ITEM {
        "ListItem"@
    } else if ct == UIA_WINDOW {
        "Window"@
    } else if ct == UIA_GROUP {
        "Group"@
    } else if ct == UIA_PANE {
        "Pane"@
    } else if ct == UIA_CHECK_BOX {
        "CheckBox"@
    } else if ct == UIA_RADIO_BUTTON {
        "RadioButton"@
    } else if ct == UIA_TAB_ITEM {
        "TabItem"@
    } else if ct == UIA_MENU_ITEM {
        "MenuItem"@
    } else if ct == UIA_HYPERLINK {
        "Hyperlink"@
    } else if ct == UIA_TREE_ITEM {
        "TreeItem"@
    } else if ct == UIA_SLIDER {
        "Slider"@
    } else if ct == UIA_CUSTOM {
        "Custom"@
    } else {
        "ControlType("@ + decimal_int(ct as int) + ")"@
    }
}

/// The name of a control type in dumps.
pub fn control_type_name(ct: i32) -> (r: String)
    ensures
        r@ == control_type_label(ct),
{
    if ct == UIA_EDIT {
        owned("Edit")
    } else if ct == UIA_DOCUMENT {
        owned("Document")
    } else if ct == UIA_TEXT {
        owned("Text")
    } else if ct == UIA_BUTTON {
        owned("Button")
    } else if ct == UIA_COMBO_BOX {
        owned("ComboBox")
    } else if ct == UIA_LIST_ITEM {
        owned("ListItem")
    } else if ct == UIA_WINDOW {
        owned("Window")
    } else if ct == UIA_GROUP {
        owned("Group")
    } else if ct == UIA_PANE {
        owned("Pane")
    } else if ct == UIA_CHECK_BOX {
        owned("CheckBox")
    } else if ct == UIA_RADIO_BUTTON {
        owned("RadioButton")
    } else if ct == UIA_TAB_ITEM {
        owned("TabItem")
    } else if ct == UIA_MENU_ITEM {
        owned("MenuItem")
    } else if ct == UIA_HYPERLINK {
        owned("Hyperlink")
    } else if ct == UIA_TREE_ITEM {
        owned("TreeItem")
    } else if ct == UIA_SLIDER {
        owned("Slider")
    } else if ct == UIA_CUSTOM {
        owned("Custom")
    } else {
        let d = decimal_string(ct as i64);
        let a = concat_strs("ControlType(", d.as_str());
        concat_strs(a.as_str(), ")")
    }
}

/// Longest value shown in an accessibility dump, in characters.
pub const DUMP_MAX_VALUE_CHARS: usize = 80;

/// `s` with each newline written `\n` and each carriage return written `\r`.
pub open spec fn escape_breaks(s: Seq<char>) -> Seq<char>
    decreases s.len(),
{
    if s.len() == 0 {
        Seq::empty()
    } else {
        let c = s.last();
        escape_breaks(s.drop_last()) + (if c == '\n' {
            seq!['\\', 'n']
        } else if c == '\r' {
            seq!['\\', 'r']
        } else {
            seq![c]
        })
    }
}

/// A value as an accessibility dump shows it: line breaks escaped, cut to 80 characters,
/// with an ellipsis when cut.
pub open spec fn dump_value(s: Seq<char>) -> Seq<char> {
    let c = escape_breaks(s);
    if c.len() > DUMP_MAX_VALUE_CHARS {
        c.take(DUMP_MAX_VALUE_CHARS as int).push('\u{2026}')
    } else {
        c
    }
}

/// A value as an accessibility dump shows it.
pub fn truncate_for_dump(s: &str) -> (r: String)
    ensures
        r@ == dump_value(s@),
{
    let v = chars_of(s);
    let mut c: Vec<char> = Vec::new();
    let mut i: usize = 0;
    while i < v.len()
        invariant
            i <= v@.len(),
            c@ == escape_breaks(v@.take(i as int)),
        decreases v@.len() - i,
    {
        proof {
            assert(v@.take(i + 1).drop_last() =~= v@.take(i as int));
        }
        let ghost before = c@;
        if v[i] == '\n' {
            c.push('\\');
            c.push('n');
        } else if v[i] == '\r' {
            c.push('\\');
            c.push('r');
        } else {
            c.push(v[i]);
        }
        proof {
            assert(c@ =~= escape_breaks(v@.take(i + 1)));
        }
        i += 1;
    }
    assert(v@.take(v@.len() as int) =~= v@);
    if c.len() > DUMP_MAX_VALUE_CHARS {
        let mut t: Vec<char> = Vec::new();
        let mut k: usize = 0;
        while k < DUMP_MAX_VALUE_CHARS
            invariant
                k <= DUMP_MAX_VALUE_CHARS,
                DUMP_MAX_VALUE_CHARS < c@.len(),
                t@ =~= c@.take(k as int),
            decreases DUMP_MAX_VALUE_CHARS - k,
        {
            t.push(c[k]);
            k += 1;
        }
        t.push('\u{2026}');
        string_from_chars(t.as_slice())
    } else {
        string_from_chars(c.as_slice())
    }
}

/// The last `\`-separated component of a path.
pub open spec fn last_component(path: Seq<char>) -> Seq<char> {
    if exists|i: int| 0 <= i < path.len() && path[i] == '\\' {
        let i = choose|i: int| 0 <= i < path.len() && path[i] == '\\' && (forall|j: int| i < j < path.len() ==> path[j] != '\\');
        path.skip(i + 1)
    } else {
        path
    }
}

/// The executable's file name from its full path.
pub fn exe_name_from_path(path: &str) -> (r: String)
    ensures
        r@ == last_component(path@),
{
    let v = chars_of(path);
    let mut k: usize = v.len();
    while k > 0
        invariant
            v@ == path@,
            k <= v@.len(),
            forall|j: int| k <= j < v@.len() ==> v@[j] != '\\',
        decreases k,
    {
        if v[k - 1] == '\\' {
            let mut out: Vec<char> = Vec::new();
            let mut t: usize = k;
            while t < v.len()
                invariant
                    k <= t <= v@.len(),
                    out@ =~= v@.subrange(k as int, t as int),
                decreases v@.len() - t,
            {
                out.push(v[t]);
                t += 1;
            }
            proof {
                let i = (k - 1) as int;
                assert(0 <= i < path@.len() && path@[i] == '\\' && (forall|j: int| i < j < path@.len() ==> path@[j] != '\\'));
                let c = choose|c: int| 0 <= c < path@.len() && path@[c] == '\\' && (forall|j: int| c < j < path@.len() ==> path@[j] != '\\');
                if c < i {
                } else if c > i {
                }
                assert(c == i);
                assert(out@ =~= path@.skip(i + 1));
            }
            return string_from_chars(out.as_slice());
        }
        k -= 1;
    }
    string_from_chars(v.as_slice())
}

/// Whether the focused element can take a paste.
#[derive(Debug, Clone, Copy, PartialEq, Eq, Structural)]
pub enum PasteTargetState {
    Editable,
    NotEditable,
    Unknown,
}

/// The paste target on Windows: the desktop shell (`Progman`, `WorkerW`) never takes text;
/// otherwise whether the focused control may take text, or unknown when that could not be
/// read.
pub fn check_focused_paste_target(foreground_class: Option<&str>, text_input_focused: Option<bool>) -> (r: PasteTargetState)
    ensures
        r == (if match foreground_class {
            Some(c) => c@ == "Progman"@ || c@ == "WorkerW"@,
            None => false,
        } {
            PasteTargetState::NotEditable
        } else {
            match text_input_focused {
                Some(true) => PasteTargetState::Editable,
                Some(false) => PasteTargetState::NotEditable,
                None => PasteTargetState::Unknown,
            }
        }),
{
    if let Some(cls) = foreground_class {
        let c = chars_of(cls);
        if chars_equal(c.as_slice(), chars_of("Progman").as_slice()) || chars_equal(c.as_slice(), chars_of("WorkerW").as_slice()) {
            return PasteTargetState::NotEditable;
        }
    }
    match text_input_focused {
        Some(true) => PasteTargetState::Editable,
        Some(false) => PasteTargetState::NotEditable,
        None => PasteTargetState::Unknown,
    }
}


pub const MAX_STRING_SIZE: usize = 1024;
pub const SHORT_STRING_SIZE: usize = 256;

/// The Java Access Bridge's description of an accessible context (wide strings, NUL
/// terminated).
pub struct AccessibleContextInfo {
    pub name: [u16; MAX_STRING_SIZE],
    pub description: [u16; MAX_STRING_SIZE],
    pub role: [u16; SHORT_STRING_SIZE],
    pub role_en_us: [u16; SHORT_STRING_SIZE],
    pub states: [u16; SHORT_STRING_SIZE],
    pub states_en_us: [u16; SHORT_STRING_SIZE],
    pub index_in_parent: i32,
    pub children_count: i32,
    pub x: i32,
    pub y: i32,
    pub width: i32,
    pub height: i32,
    pub accessible_component: i32,
    pub accessible_action: i32,
    pub accessible_selection: i32,
    pub accessible_text: i32,
    pub accessible_interfaces: i32,
}

/// The Java Access Bridge's description of an accessible text.
pub struct AccessibleTextInfo {
    pub char_count: i32,
    pub caret_index: i32,
    pub index_at_point: i32,
}

/// UTF-16 decoding that replaces each unpaired surrogate with U+FFFD, as
/// `String::from_utf16_lossy` documents it.
pub open spec fn utf16_lossy(u: Seq<u16>) -> Seq<char>
    decreases u.len(),
{
    if u.len() == 0 {
        Seq::empty()
    } else if 0xD800 <= u[0] < 0xDC00 && u.len() > 1 && 0xDC00 <= u[1] < 0xE000 {
        seq![(0x10000 + (u[0] - 0xD800) * 0x400 + (u[1] - 0xDC00)) as char] + utf16_lossy(u.skip(2))
    } else if 0xD800 <= u[0] < 0xE000 {
        seq!['\u{fffd}'] + utf16_lossy(u.skip(1))
    } else {
        seq![(u[0] as u32) as char] + utf16_lossy(u.skip(1))
    }
}

/// `String::from_utf16_lossy`.
#[verifier::external_body]
fn string_from_utf16_lossy(units: &[u16]) -> (r: String)
    ensures
        r@ == utf16_lossy(units@),
{
    String::from_utf16_lossy(units)
}

/// The units before the first NUL (all of them when there is none).
pub open spec fn before_nul(u: Seq<u16>) -> Seq<u16> {
    if exists|i: int| 0 <= i < u.len() && u[i] == 0 {
        u.take(choose|i: int| 0 <= i < u.len() && u[i] == 0 && (forall|j: int| 0 <= j < i ==> u[j] != 0))
    } else {
        u
    }
}

/// A NUL-terminated wide string.
pub fn wchar_to_string(buf: &[u16]) -> (r: String)
    ensures
        r@ == utf16_lossy(before_nul(buf@)),
{
    let mut len: usize = 0;
    while len < buf.len() && buf[len] != 0
        invariant
            len <= buf@.len(),
            forall|j: int| 0 <= j < len ==> buf@[j] != 0,
        decreases buf@.len() - len,
    {
        len += 1;
    }
    proof {
        if len < buf@.len() {
            assert(0 <= len < buf@.len() && buf@[len as int] == 0 && (forall|j: int| 0 <= j < len ==> buf@[j] != 0));
            let c = choose|c: int| 0 <= c < buf@.len() && buf@[c] == 0 && (forall|j: int| 0 <= j < c ==> buf@[j] != 0);
            if c < len {
            } else if c > len {
            }
            assert(c == len);
        } else {
            assert(buf@.take(len as int) =~= buf@);
        }
    }
    let prefix = &buf[0..len];
    string_from_utf16_lossy(prefix)
}


/// Whether the focused control may take text: anything but a control that never takes
/// text; false when its control type could not be read.
pub fn is_text_input_focused(control_type: Option<i32>) -> (r: bool)
    ensures
        r == match control_type {
            Some(ct) => !(ct == UIA_BUTTON || ct == UIA_CHECK_BOX || ct == UIA_MENU_ITEM || ct == UIA_PROGRESS_BAR
                || ct == UIA_RADIO_BUTTON || ct == UIA_SLIDER || ct == UIA_SPLIT_BUTTON || ct == UIA_THUMB || ct
                == UIA_TITLE_BAR),
            None => false,
        },
{
    match control_type {
        Some(ct) => !is_non_text_control(ct),
        None => false,
    }
}

/// Who an application is: its executable's path and name, or its bundle id.
pub struct AppIdentity {
    pub exe_path: Option<String>,
    pub exe_name: Option<String>,
    pub bundle_id: Option<String>,
}

/// The identity of a Windows process from its executable path, when it could be read.
pub fn capture_app_identity(exe_path: Option<String>) -> (r: Option<AppIdentity>)
    ensures
        match exe_path {
            Some(p) => r matches Some(id) && opt_string_view(id.exe_path) == Some(p@) && opt_string_view(id.exe_name)
                == Some(last_component(p@)) && id.bundle_id is None,
            None => r is None,
        },
{
    match exe_path {
        Some(p) => {
            let name = exe_name_from_path(p.as_str());
            Some(AppIdentity { exe_path: Some(p), exe_name: Some(name), bundle_id: None })
        },
        None => None,
    }
}

/// What a text field reports: the caret position, the selection length and the content,
/// each when known.
pub struct TextFieldInfo {
    pub cursor_position: Option<usize>,
    pub selection_length: Option<usize>,
    pub text_content: Option<String>,
}

/// A text field that reports nothing.
pub fn empty_text_field_info() -> (r: TextFieldInfo)
    ensures
        r.cursor_position is None && r.selection_length is None && r.text_content is None,
{
    TextFieldInfo { cursor_position: None, selection_length: None, text_content: None }
}

/// The text around the focused element.
pub struct ScreenContextInfo {
    pub screen_context: Option<String>,
}

/// A dump of the focused window's accessibility tree.
pub struct AccessibilityDumpResult {
    pub dump: Option<String>,
    pub window_title: Option<String>,
    pub process_name: Option<String>,
    pub element_count: usize,
}

/// A dump with nothing in it.
pub fn empty_dump_result() -> (r: AccessibilityDumpResult)
    ensures
        r.dump is None && r.window_title is None && r.process_name is None && r.element_count == 0,
{
    AccessibilityDumpResult { dump: None, window_title: None, process_name: None, element_count: 0 }
}

/// A process found for an application: its id, executable path and name, and the title of
/// its first visible window.
pub struct AppProcessMatch {
    pub pid: i32,
    pub exe_path: Option<String>,
    pub app_name: Option<String>,
    pub window_title: Option<String>,
}

/// A running process whose executable path could be read, with the title of its first
/// visible window, if any.
pub struct ProcessEntry {
    pub pid: u32,
    pub exe_path: String,
    pub window_title: Option<String>,
}

/// The process's full path equals the expected one, compared in lowercase.
pub open spec fn path_matches(expected_path: Option<Seq<char>>, p: ProcessEntry) -> bool {
    match expected_path {
        Some(e) => unicode_lowercase(p.exe_path@) == unicode_lowercase(e),
        None => false,
    }
}

/// The process's executable name equals the expected one, compared in lowercase.
pub open spec fn name_matches(expected_name: Option<Seq<char>>, p: ProcessEntry) -> bool {
    match expected_name {
        Some(e) => unicode_lowercase(last_component(p.exe_path@)) == unicode_lowercase(e),
        None => false,
    }
}

/// Some process (other than id 0) matches by full path.
pub open spec fn any_path_match(expected_path: Option<Seq<char>>, procs: Seq<ProcessEntry>) -> bool {
    exists|i: int| 0 <= i < procs.len() && procs[i].pid != 0 && #[trigger] path_matches(expected_path, procs[i])
}

/// The processes kept, in order: those (other than id 0) that match by full path when
/// `by_path`, else those that match by name.
pub open spec fn kept_processes(
    expected_path: Option<Seq<char>>,
    expected_name: Option<Seq<char>>,
    by_path: bool,
    procs: Seq<ProcessEntry>,
) -> Seq<ProcessEntry>
    decreases procs.len(),
{
    if procs.len() == 0 {
        Seq::empty()
    } else {
        let r = kept_processes(expected_path, expected_name, by_path, procs.drop_last());
        let p = procs.last();
        if p.pid != 0 && (if by_path { path_matches(expected_path, p) } else { name_matches(expected_name, p) }) {
            r.push(p)
        } else {
            r
        }
    }
}

fn lowered_equal(a: &str, b: &str) -> (r: bool)
    ensures
        r == (unicode_lowercase(a@) == unicode_lowercase(b@)),
{
    let la = lowercase(a);
    let lb = lowercase(b);
    chars_equal(chars_of(la.as_str()).as_slice(), chars_of(lb.as_str()).as_slice())
}

fn process_path_matches(expected_path: Option<&str>, p: &ProcessEntry) -> (r: bool)
    ensures
        r == path_matches(match expected_path { Some(e) => Some(e@), None => None }, *p),
{
    match expected_path {
        Some(e) => lowered_equal(p.exe_path.as_str(), e),
        None => false,
    }
}

fn process_name_matches(expected_name: Option<&str>, p: &ProcessEntry) -> (r: bool)
    ensures
        r == name_matches(match expected_name { Some(e) => Some(e@), None => None }, *p),
{
    match expected_name {
        Some(e) => {
            let name = exe_name_from_path(p.exe_path.as_str());
            lowered_equal(name.as_str(), e)
        },
        None => false,
    }
}

/// The processes that belong to an application, from its expected executable path and
/// name: none when neither is known; the processes (other than id 0) whose full path
/// matches, when any does; otherwise those whose executable name matches. Both compare
/// in lowercase. Each match carries the process's id, path, lowercase executable name and
/// first window title.
pub fn select_app_matches(expected_path: Option<&str>, expected_name: Option<&str>, procs: &Vec<ProcessEntry>) -> (r: Vec<AppProcessMatch>)
    ensures
        ({
            let ep = match expected_path { Some(e) => Some(e@), None => None };
            let en = match expected_name { Some(e) => Some(e@), None => None };
            let kept = kept_processes(ep, en, any_path_match(ep, procs@), procs@);
            &&& r@.len() == kept.len()
            &&& forall|i: int| 0 <= i < kept.len() ==> {
                &&& (#[trigger] r@[i]).pid == kept[i].pid as i32
                &&& opt_string_view(r@[i].exe_path) == Some(kept[i].exe_path@)
                &&& opt_string_view(r@[i].app_name) == Some(unicode_lowercase(last_component(kept[i].exe_path@)))
                &&& opt_string_view(r@[i].window_title) == opt_string_view(kept[i].window_title)
            }
        }),
        expected_path is None && expected_name is None ==> r@.len() == 0,
{
    let ghost ep = match expected_path { Some(e) => Some(e@), None => None };
    let ghost en = match expected_name { Some(e) => Some(e@), None => None };
    let mut k: usize = 0;
    let mut by_path = false;
    while k < procs.len()
        invariant
            k <= procs@.len(),
            ep == match expected_path { Some(e) => Some(e@), None => None },
            !by_path ==> forall|j: int| 0 <= j < k ==> !(procs@[j].pid != 0 && #[trigger] path_matches(ep, procs@[j])),
            by_path ==> any_path_match(ep, procs@),
        decreases procs@.len() - k,
    {
        if procs[k].pid != 0 && process_path_matches(expected_path, &procs[k]) {
            by_path = true;
        }
        k += 1;
    }
    assert(by_path == any_path_match(ep, procs@));
    let mut out: Vec<AppProcessMatch> = Vec::new();
    let mut i: usize = 0;
    while i < procs.len()
        invariant
            i <= procs@.len(),
            ep == match expected_path { Some(e) => Some(e@), None => None },
            en == match expected_name { Some(e) => Some(e@), None => None },
            ({
                let kept = kept_processes(ep, en, by_path, procs@.take(i as int));
                &&& out@.len() == kept.len()
                &&& forall|t: int| 0 <= t < kept.len() ==> {
                    &&& (#[trigger] out@[t]).pid == kept[t].pid as i32
                    &&& opt_string_view(out@[t].exe_path) == Some(kept[t].exe_path@)
                    &&& opt_string_view(out@[t].app_name) == Some(unicode_lowercase(last_component(kept[t].exe_path@)))
                    &&& opt_string_view(out@[t].window_title) == opt_string_view(kept[t].window_title)
                }
            }),
        decreases procs@.len() - i,
    {
        let p = &procs[i];
        proof {
            assert(procs@.take(i + 1).drop_last() =~= procs@.take(i as int));
            assert(procs@.take(i + 1).last() == procs@[i as int]);
        }
        let keep = p.pid != 0 && if by_path {
            process_path_matches(expected_path, p)
        } else {
            process_name_matches(expected_name, p)
        };
        if keep {
            let name = exe_name_from_path(p.exe_path.as_str());
            let m = AppProcessMatch {
                pid: p.pid as i32,
                exe_path: Some(p.exe_path.clone()),
                app_name: Some(lowercase(name.as_str())),
                window_title: clone_opt_string(&p.window_title),
            };
            let ghost before = out@;
            out.push(m);
            proof {
                let kept = kept_processes(ep, en, by_path, procs@.take(i + 1));
                assert(kept == kept_processes(ep, en, by_path, procs@.take(i as int)).push(procs@[i as int]));
                assert forall|t: int| 0 <= t < kept.len() implies {
                    &&& (#[trigger] out@[t]).pid == kept[t].pid as i32
                    &&& opt_string_view(out@[t].exe_path) == Some(kept[t].exe_path@)
                    &&& opt_string_view(out@[t].app_name) == Some(unicode_lowercase(last_component(kept[t].exe_path@)))
                    &&& opt_string_view(out@[t].window_title) == opt_string_view(kept[t].window_title)
                } by {
                    if t < before.len() {
                        assert(out@[t] == before[t]);
                    }
                }
            }
        }
        i += 1;
    }
    assert(procs@.take(procs@.len() as int) =~= procs@);
    proof {
        if expected_path is None && expected_name is None {
            lemma_nothing_kept(ep, en, by_path, procs@);
        }
    }
    out
}

proof fn lemma_nothing_kept(ep: Option<Seq<char>>, en: Option<Seq<char>>, by_path: bool, procs: Seq<ProcessEntry>)
    requires
        ep is None,
        en is None,
    ensures
        kept_processes(ep, en, by_path, procs).len() == 0,
    decreases procs.len(),
{
    if procs.len() > 0 {
        lemma_nothing_kept(ep, en, by_path, procs.drop_last());
    }
}

} // verus!
