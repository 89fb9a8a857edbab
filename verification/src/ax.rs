use vstd::prelude::*;
use crate::text::{chars_of, chars_equal, owned, opt_string_view};
use crate::accessibility::{PasteTargetState, is_text_role};

verus! {

pub open spec fn opt_str_view(o: Option<&str>) -> Option<Seq<char>> {
    match o {
        Some(s) => Some(s@),
        None => None,
    }
}

/// An AX role that names a text-input widget.
pub open spec fn text_role(role: Option<Seq<char>>) -> bool {
    match role {
        Some(s) => s == "AXTextField"@ || s == "AXTextArea"@ || s == "AXSecureTextField"@ || s == "AXComboBox"@,
        None => false,
    }
}

/// Which element a field binding records.
#[derive(Debug, Clone, Copy, PartialEq, Eq, Structural)]
pub enum BindTarget {
    /// The element that has focus.
    Focused,
    /// The element under the mouse cursor.
    UnderCursor,
}

/// Which element a field binding records, from the focused element's role and, when there
/// is an element under the cursor, its role: the focused element when it is a text
/// widget, else the element under the cursor when that one is, else the focused one.
pub fn bind_target(focused_role: Option<&str>, cursor_role: Option<Option<&str>>) -> (r: BindTarget)
    ensures
        r == (if text_role(opt_str_view(focused_role)) {
            BindTarget::Focused
        } else {
            match cursor_role {
                Some(c) => if text_role(opt_str_view(c)) { BindTarget::UnderCursor } else { BindTarget::Focused },
                None => BindTarget::Focused,
            }
        }),
{
    if is_text_role(focused_role) {
        return BindTarget::Focused;
    }
    match cursor_role {
        Some(c) => {
            if is_text_role(c) {
                BindTarget::UnderCursor
            } else {
                BindTarget::Focused
            }
        },
        None => BindTarget::Focused,
    }
}

/// One ancestor met when walking up from the bound element: its role and its title.
pub struct AxAncestor {
    pub role: Option<String>,
    pub title: Option<String>,
}

/// How many ancestors the walk up visits at most.
pub const MAX_LEVELS_UP: usize = 20;

/// The window title and application name that the walk up over `ancestors` (nearest
/// first) finds, starting with `window` and `app` found so far: the title of the first
/// window that has one, and the title of the application, where the walk stops.
pub open spec fn walk_names(ancestors: Seq<AxAncestor>, window: Option<Seq<char>>) -> (Option<Seq<char>>, Option<Seq<char>>)
    decreases ancestors.len(),
{
    if ancestors.len() == 0 {
        (window, None)
    } else {
        let a = ancestors[0];
        if opt_string_view(a.role) == Some("AXApplication"@) {
            (window, opt_string_view(a.title))
        } else if opt_string_view(a.role) == Some("AXWindow"@) && window is None {
            walk_names(ancestors.skip(1), opt_string_view(a.title))
        } else {
            walk_names(ancestors.skip(1), window)
        }
    }
}

fn role_is(role: &Option<String>, name: &str) -> (r: bool)
    ensures
        r == (opt_string_view(*role) == Some(name@)),
{
    match role {
        Some(s) => chars_equal(chars_of(s.as_str()).as_slice(), chars_of(name).as_slice()),
        None => false,
    }
}

/// The window title and application name of a bound element, from its ancestors nearest
/// first, of which at most twenty are visited.
pub fn window_and_app_names(ancestors: &Vec<AxAncestor>) -> (r: (Option<String>, Option<String>))
    ensures
        opt_string_view(r.0) == walk_names(ancestors@.take(
            if ancestors@.len() < MAX_LEVELS_UP { ancestors@.len() as int } else { MAX_LEVELS_UP as int },
        ), None).0,
        opt_string_view(r.1) == walk_names(ancestors@.take(
            if ancestors@.len() < MAX_LEVELS_UP { ancestors@.len() as int } else { MAX_LEVELS_UP as int },
        ), None).1,
{
    let n: usize = if ancestors.len() < MAX_LEVELS_UP { ancestors.len() } else { MAX_LEVELS_UP };
    let ghost all = ancestors@.take(n as int);
    let mut window: Option<String> = None;
    let mut k: usize = 0;
    assert(all.skip(0) =~= all);
    while k < n
        invariant
            n == (if ancestors@.len() < MAX_LEVELS_UP { ancestors@.len() as int } else { MAX_LEVELS_UP as int }),
            n <= ancestors@.len(),
            k <= n,
            all == ancestors@.take(n as int),
            walk_names(all, None) == walk_names(all.skip(k as int), opt_string_view(window)),
        decreases n - k,
    {
        let a = &ancestors[k];
        proof {
            let rest = all.skip(k as int);
            assert(rest[0] == ancestors@[k as int]);
            assert(rest.skip(1) =~= all.skip(k + 1));
        }
        if role_is(&a.role, "AXApplication") {
            let app = match &a.title {
                Some(t) => Some(t.clone()),
                None => None,
            };
            return (window, app);
        }
        if role_is(&a.role, "AXWindow") && window.is_none() {
            window = match &a.title {
                Some(t) => Some(t.clone()),
                None => None,
            };
        }
        k += 1;
    }
    assert(all.skip(n as int) =~= Seq::<AxAncestor>::empty());
    (window, None)
}

/// What is read of the focused element to tell whether it takes a paste.
pub struct AxPasteProbe {
    /// Whether reading the focused element failed.
    pub read_failed: bool,
    /// Whether there is a focused element.
    pub has_focus: bool,
    pub role: Option<String>,
    pub inside_web_area: bool,
    pub selected_text_settable: bool,
    pub value_settable: bool,
}

/// An AX role of an editable text widget.
pub open spec fn editable_role(role: Option<Seq<char>>) -> bool {
    match role {
        Some(r) => r == "AXTextField"@ || r == "AXTextArea"@ || r == "AXComboBox"@ || r == "AXSearchField"@,
        None => false,
    }
}

/// The paste target on macOS: unknown when the focused element cannot be read, not
/// editable without one; editable for text widgets; unknown inside web content; else
/// editable when its selected text or its value can be set.
pub open spec fn ax_paste_target(p: AxPasteProbe) -> PasteTargetState {
    if p.read_failed {
        PasteTargetState::Unknown
    } else if !p.has_focus {
        PasteTargetState::NotEditable
    } else if editable_role(opt_string_view(p.role)) {
        PasteTargetState::Editable
    } else if p.inside_web_area {
        PasteTargetState::Unknown
    } else if p.selected_text_settable || p.value_settable {
        PasteTargetState::Editable
    } else {
        PasteTargetState::NotEditable
    }
}

/// A readable, focused element takes a paste when its role is a text widget, or when,
/// outside web content, its selected text or its value can be set; an unreadable focus is
/// unknown and no focus is not editable. Editable is given for no other probe.
pub proof fn lemma_paste_target_editable(p: AxPasteProbe)
    ensures
        (!p.read_failed && p.has_focus && !p.inside_web_area && (p.selected_text_settable || p.value_settable))
            ==> ax_paste_target(p) == PasteTargetState::Editable,
        (!p.read_failed && p.has_focus && p.role is Some && (p.role->0@ == "AXTextField"@ || p.role->0@
            == "AXTextArea"@ || p.role->0@ == "AXComboBox"@ || p.role->0@ == "AXSearchField"@)) ==> ax_paste_target(p)
            == PasteTargetState::Editable,
        p.read_failed ==> ax_paste_target(p) == PasteTargetState::Unknown,
        (!p.read_failed && !p.has_focus) ==> ax_paste_target(p) == PasteTargetState::NotEditable,
        ax_paste_target(p) == PasteTargetState::Editable ==> !p.read_failed && p.has_focus && (p.selected_text_settable
            || p.value_settable || (p.role is Some && editable_role(opt_string_view(p.role)))),
{
}

/// Whether the focused element takes a paste, from what was read of it.
pub fn paste_target_from_probe(p: &AxPasteProbe) -> (r: PasteTargetState)
    ensures
        r == ax_paste_target(*p),
{
    if p.read_failed {
        return PasteTargetState::Unknown;
    }
    if !p.has_focus {
        return PasteTargetState::NotEditable;
    }
    if role_is(&p.role, "AXTextField") || role_is(&p.role, "AXTextArea") || role_is(&p.role, "AXComboBox")
        || role_is(&p.role, "AXSearchField") {
        return PasteTargetState::Editable;
    }
    if p.inside_web_area {
        return PasteTargetState::Unknown;
    }
    if p.selected_text_settable || p.value_settable {
        PasteTargetState::Editable
    } else {
        PasteTargetState::NotEditable
    }
}

/// How an insertion at the caret ended, once the selected text was set: a value that
/// reads the same before and after means the insertion was silently dropped.
pub fn insertion_verdict(value_before: &Option<String>, value_after: &Option<String>) -> (r: Result<(), String>)
    ensures
        match r {
            Ok(()) => !(value_before is Some && value_after is Some && opt_string_view(*value_before) == opt_string_view(*value_after)),
            Err(e) => value_before is Some && value_after is Some
                && opt_string_view(*value_before) == opt_string_view(*value_after)
                && e@ == "AXSelectedText accepted but field value unchanged"@,
        },
{
    match (value_before, value_after) {
        (Some(before), Some(after)) => {
            if chars_equal(chars_of(before.as_str()).as_slice(), chars_of(after.as_str()).as_slice()) {
                return Err(owned("AXSelectedText accepted but field value unchanged"));
            }
            Ok(())
        },
        _ => Ok(()),
    }
}

} // verus!
