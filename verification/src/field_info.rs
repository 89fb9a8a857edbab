use vstd::prelude::*;

use crate::text::{chars_of, contains_chars, contains_seq, opt_string_view, owned};
use crate::accessibility::{
    AppIdentity, ElementFingerprint, JabElementId, UIA_COMBO_BOX, UIA_DOCUMENT, UIA_EDIT, UIA_WINDOW,
    control_type_label, control_type_name, java_process,
};
use crate::uia::{can_paste_into, focused_is_java, java_framework, opt_str_view};

verus! {

/// What is recorded of a field when it is bound: its attributes, the application and window
/// it belongs to, and the paths by which it is found again.
pub struct AccessibilityFieldInfo {
    pub role: Option<String>,
    pub title: Option<String>,
    pub description: Option<String>,
    pub value: Option<String>,
    pub placeholder: Option<String>,
    pub app_pid: Option<i32>,
    pub app_name: Option<String>,
    pub window_title: Option<String>,
    pub is_settable: bool,
    pub element_index_path: Vec<usize>,
    pub fingerprint_chain: Vec<ElementFingerprint>,
    pub can_paste: bool,
    pub backend: Option<String>,
    pub jab_string_path: Vec<JabElementId>,
    pub app_identity: Option<AppIdentity>,
}

/// How many levels the walk up from a focused element visits at most.
pub const MAX_LEVELS_UP: usize = 20;

/// The process that a reported id names: only a positive id names one.
pub open spec fn positive_pid(pid_value: Option<i32>) -> Option<i32> {
    match pid_value {
        Some(v) => if v > 0 { Some(v) } else { None },
        None => None,
    }
}

/// The process of the focused element, from the id that UI Automation reported for it.
pub fn focused_app_pid(pid_value: Option<i32>) -> (r: Option<i32>)
    ensures
        r == positive_pid(pid_value),
{
    match pid_value {
        Some(v) => if v > 0 { Some(v) } else { None },
        None => None,
    }
}

/// One step of the walk up from the focused element: the fingerprint of the current element
/// at its index among its parent's children, when that index was found, and the parent's
/// control type and name.
pub struct UiaAncestorStep {
    pub found: Option<ElementFingerprint>,
    pub parent_control_type: i32,
    pub parent_name: Option<String>,
}

/// The fingerprint that a step records, if any.
pub open spec fn step_found(s: UiaAncestorStep) -> Seq<ElementFingerprint> {
    match s.found {
        Some(fp) => seq![fp],
        None => Seq::empty(),
    }
}

/// What the walk up over `steps` (nearest first) records: the fingerprints of the levels whose
/// index was found, outermost first, and the name of the window parent where it stops.
pub open spec fn uia_walk(steps: Seq<UiaAncestorStep>) -> (Seq<ElementFingerprint>, Option<Seq<char>>)
    decreases steps.len(),
{
    if steps.len() == 0 {
        (Seq::empty(), None)
    } else if steps[0].parent_control_type == UIA_WINDOW {
        (step_found(steps[0]), opt_string_view(steps[0].parent_name))
    } else {
        let rest = uia_walk(steps.skip(1));
        (rest.0 + step_found(steps[0]), rest.1)
    }
}

/// The steps of a walk up that are visited: no more than the limit.
pub open spec fn visited_steps(steps: Seq<UiaAncestorStep>) -> Seq<UiaAncestorStep> {
    steps.take(if steps.len() < MAX_LEVELS_UP { steps.len() as int } else { MAX_LEVELS_UP as int })
}

/// The child indexes of a chain of fingerprints.
pub open spec fn chain_indexes(chain: Seq<ElementFingerprint>) -> Seq<usize> {
    chain.map_values(|f: ElementFingerprint| f.child_index)
}

/// The walk up over `steps`, nearest first, of which at most the limit are visited: the
/// index path and fingerprint chain, outermost first, and the window title.
fn walk_up(steps: Vec<UiaAncestorStep>) -> (r: (Vec<usize>, Vec<ElementFingerprint>, Option<String>))
    ensures
        r.1@ == uia_walk(visited_steps(steps@)).0,
        r.0@ == chain_indexes(r.1@),
        opt_string_view(r.2) == uia_walk(visited_steps(steps@)).1,
{
    let ghost all = visited_steps(steps@);
    let n: usize = if steps.len() < MAX_LEVELS_UP { steps.len() } else { MAX_LEVELS_UP };
    let mut rest = steps;
    let mut path: Vec<usize> = Vec::new();
    let mut chain: Vec<ElementFingerprint> = Vec::new();
    let mut k: usize = 0;
    assert(all.skip(0) =~= all);
    while k < n
        invariant
            all == visited_steps(steps@),
            all.len() == n,
            k <= n,
            n <= k + rest@.len(),
            forall|j: int| 0 <= j < n - k ==> #[trigger] rest@[j] == all[k + j],
            uia_walk(all) == (uia_walk(all.skip(k as int)).0 + chain@, uia_walk(all.skip(k as int)).1),
            path@ == chain_indexes(chain@),
        decreases n - k,
    {
        let ghost prev = rest@;
        let step = rest.remove(0);
        proof {
            assert(step == all[k as int]);
            assert(all.skip(k as int)[0] == all[k as int]);
            assert(all.skip(k as int).skip(1) =~= all.skip(k + 1));
            assert forall|j: int| 0 <= j < n - (k + 1) implies #[trigger] rest@[j] == all[k + 1 + j] by {
                assert(rest@[j] == prev[j + 1]);
            }
        }
        let UiaAncestorStep { found, parent_control_type, parent_name } = step;
        let ghost before = chain@;
        match found {
            Some(fp) => {
                path.insert(0, fp.child_index);
                chain.insert(0, fp);
                proof {
                    assert(chain@ =~= seq![fp] + before);
                    assert(chain_indexes(chain@) =~= seq![fp.child_index] + chain_indexes(before));
                }
            },
            None => {},
        }
        proof {
            assert(chain@ =~= step_found(all[k as int]) + before);
        }
        if parent_control_type == UIA_WINDOW {
            proof {
                let here = all.skip(k as int);
                assert(here.len() > 0 && here[0].parent_control_type == UIA_WINDOW);
                assert(uia_walk(here) == (step_found(here[0]), opt_string_view(here[0].parent_name)));
                assert(uia_walk(all).0 =~= chain@);
            }
            return (path, chain, parent_name);
        }
        proof {
            assert(uia_walk(all.skip(k as int)).0 + before =~= uia_walk(all.skip(k + 1)).0 + chain@);
        }
        k += 1;
    }
    assert(all.skip(n as int) =~= Seq::<UiaAncestorStep>::empty());
    assert(uia_walk(all).0 =~= chain@);
    (path, chain, None)
}

/// What UI Automation reads of the focused element: the process id it reported, the process's
/// name and identity, the UI framework, what the Java Access Bridge gave when it was asked
/// (for a Java application), the element's control type, name, help text and value, whether
/// its value can be set, whether it has a text pattern, and the steps of the walk up from it.
pub struct UiaFocusReading {
    pub pid_value: Option<i32>,
    pub app_name: Option<String>,
    pub framework: Option<String>,
    pub app_identity: Option<AppIdentity>,
    pub jab_info: Option<AccessibilityFieldInfo>,
    pub control_type: i32,
    pub name: Option<String>,
    pub help_text: Option<String>,
    pub value: Option<String>,
    pub is_settable: bool,
    pub has_text_pattern: bool,
    pub steps: Vec<UiaAncestorStep>,
}

/// The focused element belongs to a Java application, by its process name or its framework.
pub open spec fn reading_is_java(rd: UiaFocusReading) -> bool {
    java_process(opt_string_view(rd.app_name)) || java_framework(opt_string_view(rd.framework))
}

/// `info` is what UI Automation itself records of the focused element in `rd`.
pub open spec fn uia_field_info(info: AccessibilityFieldInfo, rd: UiaFocusReading) -> bool {
    let walk = uia_walk(visited_steps(rd.steps@));
    &&& opt_string_view(info.role) == Some(control_type_label(rd.control_type))
    &&& info.title == rd.name
    &&& info.description == rd.help_text
    &&& info.value == rd.value
    &&& info.placeholder is None
    &&& info.app_pid == positive_pid(rd.pid_value)
    &&& info.app_name == rd.app_name
    &&& opt_string_view(info.window_title) == walk.1
    &&& info.is_settable == rd.is_settable
    &&& info.fingerprint_chain@ == walk.0
    &&& info.element_index_path@ == chain_indexes(walk.0)
    &&& info.can_paste == (!rd.is_settable && (rd.has_text_pattern || rd.control_type == UIA_EDIT
        || rd.control_type == UIA_DOCUMENT || rd.control_type == UIA_COMBO_BOX))
    &&& info.backend is None
    &&& info.jab_string_path@.len() == 0
    &&& info.app_identity == rd.app_identity
}

fn opt_as_str(o: &Option<String>) -> (r: Option<&str>)
    ensures
        opt_str_view(r) == opt_string_view(*o),
{
    match o {
        Some(s) => Some(s.as_str()),
        None => None,
    }
}

/// What is recorded of the focused field when it is bound, from what UI Automation read of
/// it: nothing when the reading failed; for a Java application for which the Java Access
/// Bridge gave a field, that field with the identity of the application; otherwise the
/// element's own attributes, with the index path and fingerprint chain of the walk up, which
/// stops at the first window and visits at most twenty levels.
pub fn get_focused_field_info(reading: Result<UiaFocusReading, String>) -> (r: Option<AccessibilityFieldInfo>)
    ensures
        match reading {
            Err(_) => r is None,
            Ok(rd) => r matches Some(info) && if reading_is_java(rd) && rd.jab_info is Some {
                let jab = rd.jab_info->0;
                &&& info.app_identity == rd.app_identity
                &&& info.role == jab.role && info.title == jab.title && info.description == jab.description
                &&& info.value == jab.value && info.placeholder == jab.placeholder && info.app_pid == jab.app_pid
                &&& info.app_name == jab.app_name && info.window_title == jab.window_title
                &&& info.is_settable == jab.is_settable && info.element_index_path == jab.element_index_path
                &&& info.fingerprint_chain == jab.fingerprint_chain && info.can_paste == jab.can_paste
                &&& info.backend == jab.backend && info.jab_string_path == jab.jab_string_path
            } else {
                uia_field_info(info, rd)
            },
        },
        reading matches Ok(rd) ==> (r matches Some(info) && (info.backend is Some <==> (reading_is_java(rd)
            && rd.jab_info is Some && rd.jab_info->0.backend is Some))),
{
    let rd = match reading {
        Ok(rd) => rd,
        Err(_) => return None,
    };
    let is_java = focused_is_java(opt_as_str(&rd.app_name), opt_as_str(&rd.framework));
    let UiaFocusReading {
        pid_value,
        app_name,
        framework: _,
        app_identity,
        jab_info,
        control_type,
        name,
        help_text,
        value,
        is_settable,
        has_text_pattern,
        steps,
    } = rd;
    if is_java {
        if let Some(mut info) = jab_info {
            info.app_identity = app_identity;
            return Some(info);
        }
    }
    let (element_index_path, fingerprint_chain, window_title) = walk_up(steps);
    Some(AccessibilityFieldInfo {
        role: Some(control_type_name(control_type)),
        title: name,
        description: help_text,
        value,
        placeholder: None,
        app_pid: focused_app_pid(pid_value),
        app_name,
        window_title,
        is_settable,
        element_index_path,
        fingerprint_chain,
        can_paste: can_paste_into(is_settable, has_text_pattern, control_type),
        backend: None,
        jab_string_path: Vec::new(),
        app_identity,
    })
}

/// One level of the Java Access Bridge walk up from the focused element: the index in its
/// parent that the bridge reported (negative when it reported none), the index found by
/// scanning the parent's children when it reported none, and the element's name and role.
pub struct JabLevel {
    pub index_in_parent: i32,
    pub sibling_index: Option<usize>,
    pub name: String,
    pub role: String,
}

/// What the Java Access Bridge reads of the focused element: its name, role, states and
/// description, its text when it has some, and the levels of the walk up from it, nearest
/// first, up to the root.
pub struct JabFocusReading {
    pub name: String,
    pub role: String,
    pub states: String,
    pub description: String,
    pub text: Option<String>,
    pub levels: Vec<JabLevel>,
}

/// The index of a level in its parent: the one the bridge reported, else the one found
/// among the parent's children.
pub open spec fn level_index(l: JabLevel) -> Option<usize> {
    if l.index_in_parent >= 0 {
        Some(l.index_in_parent as usize)
    } else {
        l.sibling_index
    }
}

/// A text, when it is not empty.
pub open spec fn nonempty_text(s: Seq<char>) -> Option<Seq<char>> {
    if s.len() > 0 {
        Some(s)
    } else {
        None
    }
}

/// A segment of a Java path: the index, and the name and role when not empty.
pub open spec fn jab_entry(l: JabLevel, i: usize) -> (usize, Option<Seq<char>>, Option<Seq<char>>) {
    (i, nonempty_text(l.name@), nonempty_text(l.role@))
}

/// What the walk up over `levels` (nearest first) records, outermost first: it stops at the
/// first level whose index is unknown.
pub open spec fn jab_walk(levels: Seq<JabLevel>) -> Seq<(usize, Option<Seq<char>>, Option<Seq<char>>)>
    decreases levels.len(),
{
    if levels.len() == 0 {
        Seq::empty()
    } else {
        match level_index(levels[0]) {
            Some(i) => jab_walk(levels.skip(1)).push(jab_entry(levels[0], i)),
            None => Seq::empty(),
        }
    }
}

/// A segment of a Java path, by its views.
pub open spec fn jab_id_view(id: JabElementId) -> (usize, Option<Seq<char>>, Option<Seq<char>>) {
    (id.index_in_parent, opt_string_view(id.name), opt_string_view(id.role))
}

fn nonempty_string(s: String) -> (r: Option<String>)
    ensures
        opt_string_view(r) == nonempty_text(s@),
{
    if s.as_str().unicode_len() > 0 {
        Some(s)
    } else {
        None
    }
}

/// The index path and string path of the Java walk up over `levels`, outermost first.
fn jab_walk_up(levels: Vec<JabLevel>) -> (r: (Vec<usize>, Vec<JabElementId>))
    ensures
        r.1@.map_values(|id: JabElementId| jab_id_view(id)) == jab_walk(levels@),
        r.0@ == r.1@.map_values(|id: JabElementId| id.index_in_parent),
{
    let ghost all = levels@;
    let n = levels.len();
    let mut rest = levels;
    let mut path: Vec<usize> = Vec::new();
    let mut ids: Vec<JabElementId> = Vec::new();
    let mut k: usize = 0;
    assert(all.skip(0) =~= all);
    while k < n
        invariant
            all == levels@,
            all.len() == n,
            k <= n,
            rest@ == all.skip(k as int),
            jab_walk(all) == jab_walk(all.skip(k as int)) + ids@.map_values(|id: JabElementId| jab_id_view(id)),
            path@ == ids@.map_values(|id: JabElementId| id.index_in_parent),
        decreases n - k,
    {
        let ghost prev = rest@;
        let level = rest.remove(0);
        proof {
            assert(level == all[k as int]);
            assert(all.skip(k as int)[0] == all[k as int]);
            assert(all.skip(k as int).skip(1) =~= all.skip(k + 1));
            assert(rest@ =~= all.skip(k + 1));
        }
        let JabLevel { index_in_parent, sibling_index, name, role } = level;
        let index = if index_in_parent >= 0 {
            Some(index_in_parent as usize)
        } else {
            sibling_index
        };
        let i = match index {
            Some(i) => i,
            None => {
                proof {
                    assert(jab_walk(all.skip(k as int)) =~= Seq::empty());
                    assert(jab_walk(all) =~= ids@.map_values(|id: JabElementId| jab_id_view(id)));
                }
                return (path, ids);
            },
        };
        let id = JabElementId { name: nonempty_string(name), role: nonempty_string(role), index_in_parent: i };
        let ghost before = ids@;
        path.insert(0, i);
        ids.insert(0, id);
        proof {
            assert(ids@ =~= seq![id] + before);
            assert(ids@.map_values(|id: JabElementId| jab_id_view(id)) =~= seq![jab_entry(all[k as int], i)]
                + before.map_values(|id: JabElementId| jab_id_view(id)));
            assert(path@ =~= ids@.map_values(|id: JabElementId| id.index_in_parent));
            assert(jab_walk(all.skip(k as int)) == jab_walk(all.skip(k + 1)).push(jab_entry(all[k as int], i)));
            assert(jab_walk(all) =~= jab_walk(all.skip(k + 1)) + ids@.map_values(|id: JabElementId| jab_id_view(id)));
        }
        k += 1;
    }
    assert(all.skip(n as int) =~= Seq::<JabLevel>::empty());
    assert(jab_walk(all) =~= ids@.map_values(|id: JabElementId| jab_id_view(id)));
    (path, ids)
}

/// What is recorded of the focused field of a Java application when it is bound, from what
/// the Java Access Bridge read of it: nothing when the bridge gave no reading; otherwise its
/// role, its name, description and text when not empty, settable when its states include
/// `editable`, and the index path and string path of the walk up, outermost first.
pub fn jab_get_focused_field_info(
    reading: Option<JabFocusReading>,
    app_pid: i32,
    app_name: Option<&str>,
    window_title: Option<String>,
) -> (r: Option<AccessibilityFieldInfo>)
    ensures
        match reading {
            None => r is None,
            Some(rd) => r matches Some(info) && {
                let walk = jab_walk(rd.levels@);
                &&& opt_string_view(info.role) == Some(rd.role@)
                &&& opt_string_view(info.title) == nonempty_text(rd.name@)
                &&& opt_string_view(info.description) == nonempty_text(rd.description@)
                &&& opt_string_view(info.value) == match rd.text {
                    Some(t) => nonempty_text(t@),
                    None => None,
                }
                &&& info.placeholder is None
                &&& info.app_pid == Some(app_pid)
                &&& opt_string_view(info.app_name) == opt_str_view(app_name)
                &&& info.window_title == window_title
                &&& info.is_settable == contains_seq(rd.states@, "editable"@)
                &&& info.jab_string_path@.map_values(|id: JabElementId| jab_id_view(id)) == walk
                &&& info.element_index_path@ == walk.map_values(|e: (usize, Option<Seq<char>>, Option<Seq<char>>)| e.0)
                &&& info.fingerprint_chain@.len() == 0
                &&& !info.can_paste
                &&& opt_string_view(info.backend) == Some("jab"@)
                &&& info.app_identity is None
            },
        },
{
    let rd = match reading {
        Some(rd) => rd,
        None => return None,
    };
    let JabFocusReading { name, role, states, description, text, levels } = rd;
    let is_editable = contains_chars(chars_of(states.as_str()).as_slice(), chars_of("editable").as_slice());
    let value = match text {
        Some(t) => nonempty_string(t),
        None => None,
    };
    let (element_index_path, jab_string_path) = jab_walk_up(levels);
    proof {
        let walk = jab_walk(rd.levels@);
        assert(element_index_path@ =~= walk.map_values(|e: (usize, Option<Seq<char>>, Option<Seq<char>>)| e.0)) by {
            assert forall|j: int| 0 <= j < element_index_path@.len() implies element_index_path@[j] == walk[j].0 by {
                assert(walk[j] == jab_id_view(jab_string_path@[j]));
            }
        }
    }
    let app = match app_name {
        Some(s) => Some(owned(s)),
        None => None,
    };
    Some(AccessibilityFieldInfo {
        role: Some(role),
        title: nonempty_string(name),
        description: nonempty_string(description),
        value,
        placeholder: None,
        app_pid: Some(app_pid),
        app_name: app,
        window_title,
        is_settable: is_editable,
        element_index_path,
        fingerprint_chain: Vec::new(),
        can_paste: false,
        backend: Some(owned("jab")),
        jab_string_path,
        app_identity: None,
    })
}

} // verus!
