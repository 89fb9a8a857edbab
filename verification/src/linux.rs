use vstd::prelude::*;
use crate::text::{chars_of, chars_equal, contains_chars, contains_seq, lower, to_lower_chars, trim, trim_chars, owned};

verus! {

/// Whether there is anything to paste: text that is blank is not pasted at all.
pub fn should_paste(text: &str) -> (r: bool)
    ensures
        r == (trim(text@).len() > 0),
{
    let t = trim_chars(chars_of(text).as_slice());
    t.len() > 0
}

/// The text that is injected: a debugging override when one is set, else the text itself.
pub fn paste_target(text: String, override_text: Option<String>) -> (r: String)
    ensures
        r == (match override_text { Some(o) => o, None => text }),
{
    match override_text {
        Some(o) => o,
        None => text,
    }
}

/// Whether a paste presses Shift with Ctrl+V: as the keybind says when one is given,
/// else as the focused window asks for.
pub fn paste_uses_shift(keybind: Option<&str>, window_wants_shift: bool) -> (r: bool)
    ensures
        r == (match keybind { Some(kb) => kb@ == "ctrl+shift+v"@, None => window_wants_shift }),
{
    match keybind {
        Some(kb) => {
            let a = chars_of(kb);
            let b = chars_of("ctrl+shift+v");
            chars_equal(a.as_slice(), b.as_slice())
        },
        None => window_wants_shift,
    }
}

/// The window classes (lowercase) of terminals and editors that paste with Ctrl+Shift+V.
pub open spec fn ctrl_shift_v_classes() -> Seq<Seq<char>> {
    seq![
        "gnome-terminal"@, "xterm"@, "kitty"@, "alacritty"@, "konsole"@, "xfce4-terminal"@,
        "terminator"@, "tilix"@, "urxvt"@, "rxvt"@, "st"@, "foot"@, "sakura"@, "terminology"@,
        "wezterm"@, "guake"@, "tilda"@, "yakuake"@, "rio"@, "cool-retro-term"@, "lxterminal"@,
        "mate-terminal"@, "deepin-terminal"@, "qterminal"@, "eterm"@, "aterm"@,
        "blackbox-terminal"@, "contour"@, "code"@, "code-insiders"@, "codium"@, "vscodium"@,
    ]
}

fn ctrl_shift_v_class_list() -> (r: Vec<&'static str>)
    ensures
        r@.len() == ctrl_shift_v_classes().len(),
        forall|k: int| 0 <= k < r@.len() ==> #[trigger] r@[k]@ == ctrl_shift_v_classes()[k],
{
    vec![
        "gnome-terminal", "xterm", "kitty", "alacritty", "konsole", "xfce4-terminal",
        "terminator", "tilix", "urxvt", "rxvt", "st", "foot", "sakura", "terminology",
        "wezterm", "guake", "tilda", "yakuake", "rio", "cool-retro-term", "lxterminal",
        "mate-terminal", "deepin-terminal", "qterminal", "eterm", "aterm",
        "blackbox-terminal", "contour", "code", "code-insiders", "codium", "vscodium",
    ]
}

/// Whether a window with the X11 class hint `(res_name, res_class)` pastes with
/// Ctrl+Shift+V: either part, in ASCII lowercase, is one of the known classes. Without a
/// class hint, plain Ctrl+V is used.
pub open spec fn window_wants_shift(class_hint: Option<(Seq<char>, Seq<char>)>) -> bool {
    match class_hint {
        None => false,
        Some((name, class)) => exists|k: int| 0 <= k < ctrl_shift_v_classes().len()
            && (lower(name) == #[trigger] ctrl_shift_v_classes()[k] || lower(class) == ctrl_shift_v_classes()[k]),
    }
}

/// A terminal (or editor) window pastes with Ctrl+Shift+V: one whose X11 res_name or
/// res_class, in ASCII lowercase, names any of these programs.
pub proof fn lemma_terminals_paste_with_shift(name: Seq<char>, class: Seq<char>, t: Seq<char>)
    requires
        lower(name) == t || lower(class) == t,
        ({
            t == "gnome-terminal"@ || t == "xterm"@ || t == "kitty"@ || t == "alacritty"@ || t == "konsole"@
            || t == "xfce4-terminal"@ || t == "terminator"@ || t == "tilix"@ || t == "urxvt"@ || t == "rxvt"@
            || t == "st"@ || t == "foot"@ || t == "sakura"@ || t == "terminology"@ || t == "wezterm"@
            || t == "guake"@ || t == "tilda"@ || t == "yakuake"@ || t == "rio"@ || t == "cool-retro-term"@
            || t == "lxterminal"@ || t == "mate-terminal"@ || t == "deepin-terminal"@ || t == "qterminal"@
            || t == "eterm"@ || t == "aterm"@ || t == "blackbox-terminal"@ || t == "contour"@ || t == "code"@
            || t == "code-insiders"@ || t == "codium"@ || t == "vscodium"@
        }),
    ensures
        window_wants_shift(Some((name, class))),
{
    assert(ctrl_shift_v_classes()[0] == "gnome-terminal"@);
    assert(ctrl_shift_v_classes()[1] == "xterm"@);
    assert(ctrl_shift_v_classes()[2] == "kitty"@);
    assert(ctrl_shift_v_classes()[3] == "alacritty"@);
    assert(ctrl_shift_v_classes()[4] == "konsole"@);
    assert(ctrl_shift_v_classes()[5] == "xfce4-terminal"@);
    assert(ctrl_shift_v_classes()[6] == "terminator"@);
    assert(ctrl_shift_v_classes()[7] == "tilix"@);
    assert(ctrl_shift_v_classes()[8] == "urxvt"@);
    assert(ctrl_shift_v_classes()[9] == "rxvt"@);
    assert(ctrl_shift_v_classes()[10] == "st"@);
    assert(ctrl_shift_v_classes()[11] == "foot"@);
    assert(ctrl_shift_v_classes()[12] == "sakura"@);
    assert(ctrl_shift_v_classes()[13] == "terminology"@);
    assert(ctrl_shift_v_classes()[14] == "wezterm"@);
    assert(ctrl_shift_v_classes()[15] == "guake"@);
    assert(ctrl_shift_v_classes()[16] == "tilda"@);
    assert(ctrl_shift_v_classes()[17] == "yakuake"@);
    assert(ctrl_shift_v_classes()[18] == "rio"@);
    assert(ctrl_shift_v_classes()[19] == "cool-retro-term"@);
    assert(ctrl_shift_v_classes()[20] == "lxterminal"@);
    assert(ctrl_shift_v_classes()[21] == "mate-terminal"@);
    assert(ctrl_shift_v_classes()[22] == "deepin-terminal"@);
    assert(ctrl_shift_v_classes()[23] == "qterminal"@);
    assert(ctrl_shift_v_classes()[24] == "eterm"@);
    assert(ctrl_shift_v_classes()[25] == "aterm"@);
    assert(ctrl_shift_v_classes()[26] == "blackbox-terminal"@);
    assert(ctrl_shift_v_classes()[27] == "contour"@);
    assert(ctrl_shift_v_classes()[28] == "code"@);
    assert(ctrl_shift_v_classes()[29] == "code-insiders"@);
    assert(ctrl_shift_v_classes()[30] == "codium"@);
    assert(ctrl_shift_v_classes()[31] == "vscodium"@);
    assert(ctrl_shift_v_classes().len() == 32);
}

/// Only those programs paste with Ctrl+Shift+V: a window that does has a res_name or
/// res_class that, in ASCII lowercase, names one of them.
pub proof fn lemma_shift_paste_only_for_terminals(name: Seq<char>, class: Seq<char>)
    requires
        window_wants_shift(Some((name, class))),
    ensures
        ({
            let t = lower(name);
            t == "gnome-terminal"@ || t == "xterm"@ || t == "kitty"@ || t == "alacritty"@ || t == "konsole"@
            || t == "xfce4-terminal"@ || t == "terminator"@ || t == "tilix"@ || t == "urxvt"@ || t == "rxvt"@
            || t == "st"@ || t == "foot"@ || t == "sakura"@ || t == "terminology"@ || t == "wezterm"@
            || t == "guake"@ || t == "tilda"@ || t == "yakuake"@ || t == "rio"@ || t == "cool-retro-term"@
            || t == "lxterminal"@ || t == "mate-terminal"@ || t == "deepin-terminal"@ || t == "qterminal"@
            || t == "eterm"@ || t == "aterm"@ || t == "blackbox-terminal"@ || t == "contour"@ || t == "code"@
            || t == "code-insiders"@ || t == "codium"@ || t == "vscodium"@
        }) || ({
            let t = lower(class);
            t == "gnome-terminal"@ || t == "xterm"@ || t == "kitty"@ || t == "alacritty"@ || t == "konsole"@
            || t == "xfce4-terminal"@ || t == "terminator"@ || t == "tilix"@ || t == "urxvt"@ || t == "rxvt"@
            || t == "st"@ || t == "foot"@ || t == "sakura"@ || t == "terminology"@ || t == "wezterm"@
            || t == "guake"@ || t == "tilda"@ || t == "yakuake"@ || t == "rio"@ || t == "cool-retro-term"@
            || t == "lxterminal"@ || t == "mate-terminal"@ || t == "deepin-terminal"@ || t == "qterminal"@
            || t == "eterm"@ || t == "aterm"@ || t == "blackbox-terminal"@ || t == "contour"@ || t == "code"@
            || t == "code-insiders"@ || t == "codium"@ || t == "vscodium"@
        }),
{
    assert(ctrl_shift_v_classes()[0] == "gnome-terminal"@);
    assert(ctrl_shift_v_classes()[1] == "xterm"@);
    assert(ctrl_shift_v_classes()[2] == "kitty"@);
    assert(ctrl_shift_v_classes()[3] == "alacritty"@);
    assert(ctrl_shift_v_classes()[4] == "konsole"@);
    assert(ctrl_shift_v_classes()[5] == "xfce4-terminal"@);
    assert(ctrl_shift_v_classes()[6] == "terminator"@);
    assert(ctrl_shift_v_classes()[7] == "tilix"@);
    assert(ctrl_shift_v_classes()[8] == "urxvt"@);
    assert(ctrl_shift_v_classes()[9] == "rxvt"@);
    assert(ctrl_shift_v_classes()[10] == "st"@);
    assert(ctrl_shift_v_classes()[11] == "foot"@);
    assert(ctrl_shift_v_classes()[12] == "sakura"@);
    assert(ctrl_shift_v_classes()[13] == "terminology"@);
    assert(ctrl_shift_v_classes()[14] == "wezterm"@);
    assert(ctrl_shift_v_classes()[15] == "guake"@);
    assert(ctrl_shift_v_classes()[16] == "tilda"@);
    assert(ctrl_shift_v_classes()[17] == "yakuake"@);
    assert(ctrl_shift_v_classes()[18] == "rio"@);
    assert(ctrl_shift_v_classes()[19] == "cool-retro-term"@);
    assert(ctrl_shift_v_classes()[20] == "lxterminal"@);
    assert(ctrl_shift_v_classes()[21] == "mate-terminal"@);
    assert(ctrl_shift_v_classes()[22] == "deepin-terminal"@);
    assert(ctrl_shift_v_classes()[23] == "qterminal"@);
    assert(ctrl_shift_v_classes()[24] == "eterm"@);
    assert(ctrl_shift_v_classes()[25] == "aterm"@);
    assert(ctrl_shift_v_classes()[26] == "blackbox-terminal"@);
    assert(ctrl_shift_v_classes()[27] == "contour"@);
    assert(ctrl_shift_v_classes()[28] == "code"@);
    assert(ctrl_shift_v_classes()[29] == "code-insiders"@);
    assert(ctrl_shift_v_classes()[30] == "codium"@);
    assert(ctrl_shift_v_classes()[31] == "vscodium"@);
    let k = choose|k: int| 0 <= k < ctrl_shift_v_classes().len() && (lower(name) == #[trigger] ctrl_shift_v_classes()[k]
        || lower(class) == ctrl_shift_v_classes()[k]);
    assert(k == 0 || k == 1 || k == 2 || k == 3 || k == 4 || k == 5 || k == 6 || k == 7 || k == 8 || k == 9 || k == 10 || k == 11 || k == 12 || k == 13 || k == 14 || k == 15 || k == 16 || k == 17 || k == 18 || k == 19 || k == 20 || k == 21 || k == 22 || k == 23 || k == 24 || k == 25 || k == 26 || k == 27 || k == 28 || k == 29 || k == 30 || k == 31);
}

/// A window without a class hint pastes with plain Ctrl+V.
pub proof fn lemma_no_class_hint_plain_paste()
    ensures
        !window_wants_shift(None),
{
}

pub open spec fn class_hint_view(h: Option<(String, String)>) -> Option<(Seq<char>, Seq<char>)> {
    match h {
        Some(p) => Some((p.0@, p.1@)),
        None => None,
    }
}

/// Whether the focused window, known by its X11 class hint, pastes with Ctrl+Shift+V.
pub fn is_ctrl_shift_v_window(class_hint: &Option<(String, String)>) -> (r: bool)
    ensures
        r == window_wants_shift(class_hint_view(*class_hint)),
{
    match class_hint {
        None => false,
        Some(pair) => {
            let name = &pair.0;
            let class = &pair.1;
            let n = to_lower_chars(chars_of(name.as_str()).as_slice());
            let c = to_lower_chars(chars_of(class.as_str()).as_slice());
            let list = ctrl_shift_v_class_list();
            let mut k: usize = 0;
            while k < list.len()
                invariant
                    k <= list@.len(),
                    list@.len() == ctrl_shift_v_classes().len(),
                    forall|j: int| 0 <= j < list@.len() ==> #[trigger] list@[j]@ == ctrl_shift_v_classes()[j],
                    class_hint_view(*class_hint) == Some((name@, class@)),
                    n@ == lower(name@),
                    c@ == lower(class@),
                    forall|j: int| 0 <= j < k ==> lower(name@) != #[trigger] ctrl_shift_v_classes()[j] && lower(class@) != ctrl_shift_v_classes()[j],
                decreases list@.len() - k,
            {
                let t = chars_of(list[k]);
                if chars_equal(n.as_slice(), t.as_slice()) || chars_equal(c.as_slice(), t.as_slice()) {
                    assert(lower(name@) == ctrl_shift_v_classes()[k as int] || lower(class@) == ctrl_shift_v_classes()[k as int]);
                    assert(window_wants_shift(Some((name@, class@))));
                    return true;
                }
                k += 1;
            }
            false
        },
    }
}

/// Whether the session is a Wayland one, from the lowercased `GDK_BACKEND` (when set) and
/// whether `WAYLAND_DISPLAY` is set: a backend that names x11 rules Wayland out.
pub fn wayland_session(lowered_gdk_backend: Option<&str>, wayland_display_set: bool) -> (r: bool)
    ensures
        r == (match lowered_gdk_backend {
            Some(b) => !contains_seq(b@, "x11"@) && wayland_display_set,
            None => wayland_display_set,
        }),
{
    match lowered_gdk_backend {
        Some(b) => {
            let v = chars_of(b);
            let x = chars_of("x11");
            if contains_chars(v.as_slice(), x.as_slice()) {
                false
            } else {
                wayland_display_set
            }
        },
        None => wayland_display_set,
    }
}

/// The Unicode lowercase of a text, as `str::to_lowercase` gives it.
pub uninterp spec fn unicode_lowercase(s: Seq<char>) -> Seq<char>;

/// `str::to_lowercase`. Its result is a function of the text alone, named
/// `unicode_lowercase`; what that function is, the Unicode tables of std decide and
/// nothing here states.
#[verifier::external_body]
pub(crate) fn lowercase(s: &str) -> (r: String)
    ensures
        r@ == unicode_lowercase(s@),
{
    s.to_lowercase()
}

/// Whether the session is a Wayland one, from `GDK_BACKEND` (when set) and whether
/// `WAYLAND_DISPLAY` is set.
pub fn is_wayland(gdk_backend: Option<&str>, wayland_display_set: bool) -> (r: bool)
    ensures
        r == (match gdk_backend {
            Some(b) => !contains_seq(unicode_lowercase(b@), "x11"@) && wayland_display_set,
            None => wayland_display_set,
        }),
{
    match gdk_backend {
        Some(b) => {
            let l = lowercase(b);
            wayland_session(Some(l.as_str()), wayland_display_set)
        },
        None => wayland_session(None, wayland_display_set),
    }
}

/// The arguments of a `wtype` call that presses `key` with `modifiers` held: each
/// modifier pressed in order, the key, then the modifiers released in reverse order.
pub open spec fn wtype_args(modifiers: Seq<Seq<char>>, key: Seq<char>) -> Seq<Seq<char>>
    decreases modifiers.len(),
{
    if modifiers.len() == 0 {
        seq!["-k"@, key]
    } else {
        seq!["-M"@, modifiers[0]] + wtype_args(modifiers.skip(1), key) + seq!["-m"@, modifiers[0]]
    }
}

proof fn lemma_wtype_args_split(modifiers: Seq<Seq<char>>, key: Seq<char>, k: int)
    requires
        0 <= k <= modifiers.len(),
    ensures
        wtype_args(modifiers, key) == press_args(modifiers.take(k)) + wtype_args(modifiers.skip(k), key) + release_args(modifiers.take(k)),
    decreases k,
{
    if k > 0 {
        lemma_wtype_args_split(modifiers, key, k - 1);
        let rest = modifiers.skip(k - 1);
        assert(rest.skip(1) =~= modifiers.skip(k));
        assert(rest[0] == modifiers[k - 1]);
        assert(modifiers.take(k).drop_last() =~= modifiers.take(k - 1));
        assert(modifiers.take(k).last() == modifiers[k - 1]);
        assert(press_args(modifiers.take(k)) =~= press_args(modifiers.take(k - 1)) + seq!["-M"@, modifiers[k - 1]]);
        assert(release_args(modifiers.take(k)) =~= seq!["-m"@, modifiers[k - 1]] + release_args(modifiers.take(k - 1)));
        assert(wtype_args(rest, key) == seq!["-M"@, rest[0]] + wtype_args(rest.skip(1), key) + seq!["-m"@, rest[0]]);
        assert(wtype_args(modifiers, key) =~= press_args(modifiers.take(k)) + wtype_args(modifiers.skip(k), key) + release_args(modifiers.take(k)));
    } else {
        assert(modifiers.take(0) =~= Seq::<Seq<char>>::empty());
        assert(modifiers.skip(0) =~= modifiers);
        assert(press_args(Seq::<Seq<char>>::empty()) =~= Seq::<Seq<char>>::empty());
        assert(release_args(Seq::<Seq<char>>::empty()) =~= Seq::<Seq<char>>::empty());
        assert(wtype_args(modifiers, key) =~= Seq::<Seq<char>>::empty() + wtype_args(modifiers, key) + Seq::<Seq<char>>::empty());
    }
}

/// `-M m` for each modifier, in order.
pub open spec fn press_args(modifiers: Seq<Seq<char>>) -> Seq<Seq<char>>
    decreases modifiers.len(),
{
    if modifiers.len() == 0 {
        Seq::empty()
    } else {
        press_args(modifiers.drop_last()) + seq!["-M"@, modifiers.last()]
    }
}

/// `-m m` for each modifier, in reverse order.
pub open spec fn release_args(modifiers: Seq<Seq<char>>) -> Seq<Seq<char>>
    decreases modifiers.len(),
{
    if modifiers.len() == 0 {
        Seq::empty()
    } else {
        seq!["-m"@, modifiers.last()] + release_args(modifiers.drop_last())
    }
}

proof fn lemma_release_args_first(modifiers: Seq<Seq<char>>)
    requires
        modifiers.len() > 0,
    ensures
        release_args(modifiers) == release_args(modifiers.skip(1)) + seq!["-m"@, modifiers[0]],
    decreases modifiers.len(),
{
    if modifiers.len() == 1 {
        assert(modifiers.skip(1) =~= Seq::<Seq<char>>::empty());
        assert(modifiers.drop_last() =~= Seq::<Seq<char>>::empty());
        assert(release_args(modifiers) =~= release_args(modifiers.skip(1)) + seq!["-m"@, modifiers[0]]);
    } else {
        let init = modifiers.drop_last();
        lemma_release_args_first(init);
        assert(init[0] == modifiers[0]);
        assert(init.skip(1) =~= modifiers.skip(1).drop_last());
        assert(modifiers.skip(1).last() == modifiers.last());
        assert(release_args(modifiers) =~= release_args(modifiers.skip(1)) + seq!["-m"@, modifiers[0]]);
    }
}

pub open spec fn strs_view(v: Seq<&str>) -> Seq<Seq<char>> {
    v.map_values(|s: &str| s@)
}

pub open spec fn strings_view(v: Seq<String>) -> Seq<Seq<char>> {
    v.map_values(|s: String| s@)
}

/// The arguments of the `wtype` call that presses `key` with `modifiers` held.
pub fn wtype_key_args(modifiers: &[&str], key: &str) -> (r: Vec<String>)
    ensures
        strings_view(r@) == wtype_args(strs_view(modifiers@), key@),
{
    let ghost ms = strs_view(modifiers@);
    let mut out: Vec<String> = Vec::new();
    let mut i: usize = 0;
    while i < modifiers.len()
        invariant
            i <= modifiers@.len(),
            ms == strs_view(modifiers@),
            strings_view(out@) == press_args(ms.take(i as int)),
        decreases modifiers@.len() - i,
    {
        out.push(owned("-M"));
        out.push(owned(modifiers[i]));
        i += 1;
        proof {
            assert(ms.take(i as int).drop_last() =~= ms.take(i - 1));
            assert(strings_view(out@) =~= press_args(ms.take(i as int)));
        }
    }
    out.push(owned("-k"));
    out.push(owned(key));
    let mut j: usize = modifiers.len();
    proof {
        assert(ms.take(ms.len() as int) =~= ms);
        assert(ms.skip(ms.len() as int) =~= Seq::<Seq<char>>::empty());
        assert(strings_view(out@) =~= press_args(ms) + wtype_args(ms.skip(ms.len() as int), key@));
        assert(ms.skip(j as int) =~= Seq::<Seq<char>>::empty());
        assert(release_args(ms.skip(j as int)) =~= Seq::<Seq<char>>::empty());
    }
    while j > 0
        invariant
            j <= modifiers@.len(),
            ms == strs_view(modifiers@),
            ms.len() == modifiers@.len(),
            strings_view(out@) == press_args(ms) + wtype_args(Seq::<Seq<char>>::empty(), key@) + release_args(ms.skip(j as int)),
        decreases j,
    {
        let ghost before = strings_view(out@);
        j -= 1;
        let a = owned("-m");
        let b = owned(modifiers[j]);
        out.push(a);
        out.push(b);
        proof {
            assert(strings_view(out@) =~= before + seq![a@, b@]);
            assert(a@ == "-m"@ && b@ == ms[j as int]);
            let s = ms.skip(j as int);
            assert(s.skip(1) =~= ms.skip(j + 1));
            assert(s[0] == ms[j as int]);
            lemma_release_args_first(s);
            assert(strings_view(out@) =~= press_args(ms) + wtype_args(Seq::<Seq<char>>::empty(), key@) + release_args(ms.skip(j as int)));
        }
    }
    proof {
        lemma_wtype_args_split(ms, key@, ms.len() as int);
        assert(ms.take(ms.len() as int) =~= ms);
        assert(ms.skip(ms.len() as int) =~= Seq::<Seq<char>>::empty());
        assert(ms.skip(0) =~= ms);
    }
    out
}

/// The modifiers held for a paste on Wayland: Ctrl, and Shift when asked for.
pub fn wayland_paste_modifiers(use_shift: bool) -> (r: Vec<&'static str>)
    ensures
        strs_view(r@) == (if use_shift { seq!["ctrl"@, "shift"@] } else { seq!["ctrl"@] }),
{
    let r = if use_shift {
        vec!["ctrl", "shift"]
    } else {
        vec!["ctrl"]
    };
    assert(strs_view(r@) =~= (if use_shift { seq!["ctrl"@, "shift"@] } else { seq!["ctrl"@] }));
    r
}

/// A way of putting text into the focused field.
#[derive(Debug, Clone, Copy, PartialEq, Eq, Structural)]
pub enum PasteMethod {
    WaylandClipboard,
    X11Clipboard,
    WtypeText,
    SimulatedTyping,
}

/// The ways tried in turn until one works: on Wayland the Wayland clipboard, the X11
/// clipboard, `wtype` typing, then simulated typing; elsewhere the clipboard, then
/// simulated typing.
pub fn paste_methods(wayland: bool) -> (r: Vec<PasteMethod>)
    ensures
        r@ == (if wayland {
            seq![PasteMethod::WaylandClipboard, PasteMethod::X11Clipboard, PasteMethod::WtypeText, PasteMethod::SimulatedTyping]
        } else {
            seq![PasteMethod::X11Clipboard, PasteMethod::SimulatedTyping]
        }),
{
    let r = if wayland {
        vec![PasteMethod::WaylandClipboard, PasteMethod::X11Clipboard, PasteMethod::WtypeText, PasteMethod::SimulatedTyping]
    } else {
        vec![PasteMethod::X11Clipboard, PasteMethod::SimulatedTyping]
    };
    assert(r@ =~= (if wayland {
        seq![PasteMethod::WaylandClipboard, PasteMethod::X11Clipboard, PasteMethod::WtypeText, PasteMethod::SimulatedTyping]
    } else {
        seq![PasteMethod::X11Clipboard, PasteMethod::SimulatedTyping]
    }));
    r
}

/// The selected text read back from the clipboard: nothing when it is empty.
pub fn nonempty_selection(selected: Option<String>) -> (r: Option<String>)
    ensures
        r == (match selected { Some(s) => if s@.len() > 0 { Some(s) } else { None }, None => None }),
{
    match selected {
        Some(s) => {
            if s.as_str().unicode_len() > 0 {
                Some(s)
            } else {
                None
            }
        },
        None => None,
    }
}

/// The insets of a monitor's work area within its geometry, in device pixels: top,
/// bottom, left, right.
pub fn work_area_insets(
    geometry: (i32, i32, i32, i32),
    workarea: (i32, i32, i32, i32),
) -> (r: (i32, i32, i32, i32))
    requires
        i32::MIN <= workarea.1 - geometry.1 <= i32::MAX,
        i32::MIN <= geometry.1 + geometry.3 <= i32::MAX,
        i32::MIN <= workarea.1 + workarea.3 <= i32::MAX,
        i32::MIN <= (geometry.1 + geometry.3) - (workarea.1 + workarea.3) <= i32::MAX,
        i32::MIN <= workarea.0 - geometry.0 <= i32::MAX,
        i32::MIN <= geometry.0 + geometry.2 <= i32::MAX,
        i32::MIN <= workarea.0 + workarea.2 <= i32::MAX,
        i32::MIN <= (geometry.0 + geometry.2) - (workarea.0 + workarea.2) <= i32::MAX,
    ensures
        r.0 == workarea.1 - geometry.1,
        r.1 == (geometry.1 + geometry.3) - (workarea.1 + workarea.3),
        r.2 == workarea.0 - geometry.0,
        r.3 == (geometry.0 + geometry.2) - (workarea.0 + workarea.2),
{
    let (gx, gy, gw, gh) = geometry;
    let (wx, wy, ww, wh) = workarea;
    (wy - gy, (gy + gh) - (wy + wh), wx - gx, (gx + gw) - (wx + ww))
}

/// How many windows, from the focused one up through its parents, are asked for a class
/// hint.
pub const MAX_CLASS_HINT_LEVELS: usize = 16;

/// Whether a class hint names anything.
pub open spec fn names_something(h: Option<(String, String)>) -> bool {
    match h {
        Some(p) => p.0@.len() > 0 || p.1@.len() > 0,
        None => false,
    }
}

/// The class hint of the focused window: the first hint, from the focused window up
/// through at most sixteen windows, that names something. `hints` holds what each window
/// answered, nearest first (`None` where it had no hint).
pub fn focused_class_hint(hints: Vec<Option<(String, String)>>) -> (r: Option<(String, String)>)
    ensures
        match r {
            Some(p) => exists|k: int| 0 <= k < hints@.len() && k < MAX_CLASS_HINT_LEVELS
                && hints@[k] == Some(p) && names_something(hints@[k])
                && forall|j: int| 0 <= j < k ==> !names_something(#[trigger] hints@[j]),
            None => forall|j: int| 0 <= j < hints@.len() && j < MAX_CLASS_HINT_LEVELS ==> !names_something(#[trigger] hints@[j]),
        },
{
    let mut k: usize = 0;
    while k < hints.len() && k < MAX_CLASS_HINT_LEVELS
        invariant
            k <= hints@.len(),
            k <= MAX_CLASS_HINT_LEVELS,
            forall|j: int| 0 <= j < k ==> !names_something(#[trigger] hints@[j]),
        decreases hints@.len() - k,
    {
        match &hints[k] {
            Some(p) => {
                if p.0.as_str().unicode_len() > 0 || p.1.as_str().unicode_len() > 0 {
                    let found = (p.0.clone(), p.1.clone());
                    assert(hints@[k as int] == Some(found));
                    return Some(found);
                }
            },
            None => {},
        }
        k += 1;
    }
    None
}

} // verus!
