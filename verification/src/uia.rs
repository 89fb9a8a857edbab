use vstd::prelude::*;
use vstd::utf8::{encode_utf8, decode_utf8, is_char_boundary};
use vstd::string::StringSliceAdditionalSpecFns;
use crate::text::{chars_of, chars_equal, owned, concat_strs, string_from_chars, trim, trim_string, opt_string_view, decimal_nat, decimal_u64};
use crate::accessibility::{
    TextFieldInfo, ScreenContextInfo, AccessibilityDumpResult, empty_text_field_info, empty_dump_result,
    java_process, is_java_process_name, UIA_TEXT, UIA_HYPERLINK, UIA_LIST_ITEM, UIA_TREE_ITEM, UIA_MENU_ITEM,
    UIA_BUTTON, UIA_CHECK_BOX, UIA_RADIO_BUTTON, UIA_COMBO_BOX, UIA_TAB_ITEM, UIA_SPLIT_BUTTON, UIA_SLIDER,
    UIA_PROGRESS_BAR, UIA_EDIT, UIA_DOCUMENT, control_type_label, control_type_name,
};

verus! {

/// The length in bytes of a text's UTF-8 encoding, as `str::len` reports it.
pub open spec fn byte_len(s: Seq<char>) -> usize {
    encode_utf8(s).len() as usize
}

/// What UI Automation reads from a focused element with a text pattern: the whole
/// document, and for the first selection, its text and the text before it.
pub struct UiaTextReading {
    pub document: String,
    pub selection: Option<(String, String)>,
}

/// What a text field reports, from what UI Automation read (an `Err` when reading
/// failed, `None` when the element has no text pattern): the document as content, and
/// with a selection, the caret as the byte length of the text before it and the
/// selection's byte length; without one, no caret and an empty selection.
pub fn get_text_field_info(reading: Result<Option<UiaTextReading>, String>) -> (r: TextFieldInfo)
    ensures
        match reading {
            Ok(Some(rd)) => {
                &&& opt_string_view(r.text_content) == Some(rd.document@)
                &&& match rd.selection {
                    Some((selected, before)) => r.cursor_position == Some(byte_len(before@))
                        && r.selection_length == Some(byte_len(selected@)),
                    None => r.cursor_position is None && r.selection_length == Some(0usize),
                }
            },
            _ => r.cursor_position is None && r.selection_length is None && r.text_content is None,
        },
{
    match reading {
        Ok(Some(rd)) => {
            let UiaTextReading { document, selection } = rd;
            match selection {
                Some((selected, before)) => {
                    let cursor = before.as_str().len();
                    let sel = selected.as_str().len();
                    TextFieldInfo { cursor_position: Some(cursor), selection_length: Some(sel), text_content: Some(document) }
                },
                None => TextFieldInfo { cursor_position: None, selection_length: Some(0), text_content: Some(document) },
            }
        },
        _ => empty_text_field_info(),
    }
}

/// Control types whose value is read as context.
pub open spec fn value_safe_type(ct: i32) -> bool {
    ||| ct == UIA_TEXT
    ||| ct == UIA_HYPERLINK
    ||| ct == 50029i32
    ||| ct == UIA_LIST_ITEM
    ||| ct == UIA_TREE_ITEM
    ||| ct == UIA_MENU_ITEM
    ||| ct == UIA_BUTTON
    ||| ct == UIA_CHECK_BOX
    ||| ct == UIA_RADIO_BUTTON
    ||| ct == UIA_COMBO_BOX
    ||| ct == UIA_TAB_ITEM
    ||| ct == 50035i32
    ||| ct == UIA_SPLIT_BUTTON
    ||| ct == UIA_SLIDER
    ||| ct == 50016i32
    ||| ct == UIA_PROGRESS_BAR
}

fn is_value_safe_type(ct: i32) -> (r: bool)
    ensures
        r == value_safe_type(ct),
{
    ct == UIA_TEXT || ct == UIA_HYPERLINK || ct == 50029i32 || ct == UIA_LIST_ITEM || ct == UIA_TREE_ITEM
        || ct == UIA_MENU_ITEM || ct == UIA_BUTTON || ct == UIA_CHECK_BOX || ct == UIA_RADIO_BUTTON
        || ct == UIA_COMBO_BOX || ct == UIA_TAB_ITEM || ct == 50035i32 || ct == UIA_SPLIT_BUTTON
        || ct == UIA_SLIDER || ct == 50016i32 || ct == UIA_PROGRESS_BAR
}

/// A trimmed text kept as context: not empty and under 500 bytes.
pub open spec fn usable_context(t: Seq<char>) -> bool {
    t.len() > 0 && byte_len(t) < 500
}

/// The context texts of one element: its trimmed name; its trimmed value, for the
/// control types whose value is read, unless already there; its trimmed help text,
/// unless already there; each only when usable.
pub open spec fn element_context(ct: i32, name: Option<Seq<char>>, value: Option<Seq<char>>, help: Option<Seq<char>>) -> Seq<Seq<char>> {
    let a: Seq<Seq<char>> = match name {
        Some(n) => if usable_context(trim(n)) { seq![trim(n)] } else { Seq::empty() },
        None => Seq::empty(),
    };
    let b: Seq<Seq<char>> = match value {
        Some(v) => if value_safe_type(ct) && usable_context(trim(v)) && !a.contains(trim(v)) { a.push(trim(v)) } else { a },
        None => a,
    };
    match help {
        Some(h) => if usable_context(trim(h)) && !b.contains(trim(h)) { b.push(trim(h)) } else { b },
        None => b,
    }
}

/// An element's context texts: its help text, trimmed, is gathered for every control type
/// when it is not empty and under 500 bytes; so is its trimmed name, first; its value only
/// for the control types whose value is read; and no text is gathered twice.
pub proof fn lemma_element_context_gathers(ct: i32, name: Option<Seq<char>>, value: Option<Seq<char>>, help: Option<Seq<char>>)
    ensures
        (help is Some && trim(help->0).len() > 0 && byte_len(trim(help->0)) < 500) ==> element_context(
            ct,
            name,
            value,
            help,
        ).contains(trim(help->0)),
        (name is Some && trim(name->0).len() > 0 && byte_len(trim(name->0)) < 500) ==> element_context(
            ct,
            name,
            value,
            help,
        ).len() >= 1 && element_context(ct, name, value, help)[0] == trim(name->0),
        (value is Some && trim(value->0).len() > 0 && byte_len(trim(value->0)) < 500 && value_safe_type(ct))
            ==> element_context(ct, name, value, help).contains(trim(value->0)),
        forall|i: int, j: int|
            0 <= i < j < element_context(ct, name, value, help).len() ==> #[trigger] element_context(
                ct,
                name,
                value,
                help,
            )[i] != #[trigger] element_context(ct, name, value, help)[j],
        forall|i: int|
            0 <= i < element_context(ct, name, value, help).len() ==> {
                let t = #[trigger] element_context(ct, name, value, help)[i];
                &&& t.len() > 0 && byte_len(t) < 500
                &&& (name is Some && t == trim(name->0)) || (value is Some && value_safe_type(ct) && t == trim(value->0))
                    || (help is Some && t == trim(help->0))
            },
{
    let a: Seq<Seq<char>> = match name {
        Some(n) => if usable_context(trim(n)) { seq![trim(n)] } else { Seq::empty() },
        None => Seq::empty(),
    };
    let b: Seq<Seq<char>> = match value {
        Some(v) => if value_safe_type(ct) && usable_context(trim(v)) && !a.contains(trim(v)) { a.push(trim(v)) } else { a },
        None => a,
    };
    let c = element_context(ct, name, value, help);
    if help is Some && usable_context(trim(help->0)) {
        if b.contains(trim(help->0)) {
            assert(c == b);
        } else {
            assert(c[c.len() - 1] == trim(help->0));
        }
    }
    if value is Some && usable_context(trim(value->0)) && value_safe_type(ct) {
        if a.contains(trim(value->0)) {
            let k = choose|k: int| 0 <= k < a.len() && a[k] == trim(value->0);
            assert(c[k] == a[k]);
        } else {
            assert(b[b.len() - 1] == trim(value->0));
            assert(c[b.len() - 1] == b[b.len() - 1]);
        }
    }
    assert forall|i: int, j: int| 0 <= i < j < c.len() implies #[trigger] c[i] != #[trigger] c[j] by {
        if j < b.len() {
            assert(c[i] == b[i] && c[j] == b[j]);
            if j < a.len() {
            } else {
                assert(b[i] == a[i]);
                assert(a.contains(a[i]));
            }
        } else {
            assert(c[i] == b[i]);
            assert(b.contains(b[i]));
        }
    }
}

pub open spec fn strings_view(v: Seq<String>) -> Seq<Seq<char>> {
    v.map_values(|s: String| s@)
}

pub open spec fn opt_str_view(o: Option<&str>) -> Option<Seq<char>> {
    match o {
        Some(s) => Some(s@),
        None => None,
    }
}

/// Whether `t` is one of `v`.
fn contains_string(v: &Vec<String>, t: &str) -> (r: bool)
    ensures
        r == strings_view(v@).contains(t@),
{
    let tc = chars_of(t);
    let mut k: usize = 0;
    while k < v.len()
        invariant
            k <= v@.len(),
            tc@ == t@,
            forall|j: int| 0 <= j < k ==> v@[j]@ != t@,
        decreases v@.len() - k,
    {
        let c = chars_of(v[k].as_str());
        if chars_equal(c.as_slice(), tc.as_slice()) {
            assert(strings_view(v@)[k as int] == t@);
            return true;
        }
        k += 1;
    }
    assert forall|j: int| 0 <= j < strings_view(v@).len() implies strings_view(v@)[j] != t@ by {}
    false
}

/// The trimmed text when it is usable as context.
fn usable_trimmed(s: &str) -> (r: Option<String>)
    ensures
        match r {
            Some(t) => usable_context(trim(s@)) && t@ == trim(s@),
            None => !usable_context(trim(s@)),
        },
{
    let t = trim_string(s);
    if t.as_str().unicode_len() > 0 && t.as_str().len() < 500 {
        Some(t)
    } else {
        None
    }
}

/// The context texts of one element, from its control type, name, value and help text.
pub fn element_context_texts(control_type: i32, name: Option<&str>, value: Option<&str>, help: Option<&str>) -> (r: Vec<String>)
    ensures
        strings_view(r@) == element_context(control_type, opt_str_view(name), opt_str_view(value), opt_str_view(help)),
{
    let mut texts: Vec<String> = Vec::new();
    match name {
        Some(n) => match usable_trimmed(n) {
            Some(t) => { texts.push(t); },
            None => {},
        },
        None => {},
    }
    let ghost a = strings_view(texts@);
    assert(a =~= match opt_str_view(name) {
        Some(n) => if usable_context(trim(n)) { seq![trim(n)] } else { Seq::<Seq<char>>::empty() },
        None => Seq::<Seq<char>>::empty(),
    });
    match value {
        Some(v) => {
            if is_value_safe_type(control_type) {
                match usable_trimmed(v) {
                    Some(t) => {
                        if !contains_string(&texts, t.as_str()) {
                            texts.push(t);
                        }
                    },
                    None => {},
                }
            }
        },
        None => {},
    }
    let ghost b = strings_view(texts@);
    assert(b =~= match opt_str_view(value) {
        Some(v) => if value_safe_type(control_type) && usable_context(trim(v)) && !a.contains(trim(v)) { a.push(trim(v)) } else { a },
        None => a,
    });
    match help {
        Some(h) => match usable_trimmed(h) {
            Some(t) => {
                if !contains_string(&texts, t.as_str()) {
                    texts.push(t);
                }
            },
            None => {},
        },
        None => {},
    }
    assert(strings_view(texts@) =~= element_context(control_type, opt_str_view(name), opt_str_view(value), opt_str_view(help)));
    texts
}

/// The texts with every repeat of an earlier one left out, in order.
pub open spec fn first_occurrences(s: Seq<Seq<char>>) -> Seq<Seq<char>>
    decreases s.len(),
{
    if s.len() == 0 {
        Seq::empty()
    } else {
        let d = first_occurrences(s.drop_last());
        if d.contains(s.last()) { d } else { d.push(s.last()) }
    }
}

/// The texts joined with newlines.
pub open spec fn join_lines(s: Seq<Seq<char>>) -> Seq<char>
    decreases s.len(),
{
    if s.len() == 0 {
        Seq::empty()
    } else if s.len() == 1 {
        s[0]
    } else {
        join_lines(s.drop_last()) + seq!['\n'] + s.last()
    }
}

/// The texts joined with newlines.
pub fn join_with_newlines(v: &Vec<String>) -> (r: String)
    ensures
        r@ == join_lines(strings_view(v@)),
{
    let mut out: Vec<char> = Vec::new();
    let mut k: usize = 0;
    while k < v.len()
        invariant
            k <= v@.len(),
            out@ == join_lines(strings_view(v@).take(k as int)),
        decreases v@.len() - k,
    {
        let ghost before = out@;
        if k > 0 {
            out.push('\n');
        }
        let c = chars_of(v[k].as_str());
        let mut i: usize = 0;
        let ghost mid = out@;
        while i < c.len()
            invariant
                i <= c@.len(),
                out@ == mid + c@.take(i as int),
            decreases c@.len() - i,
        {
            out.push(c[i]);
            i += 1;
            assert(out@ =~= mid + c@.take(i as int));
        }
        proof {
            assert(c@.take(c@.len() as int) =~= c@);
            let s = strings_view(v@);
            assert(s.take(k + 1).drop_last() =~= s.take(k as int));
            assert(s.take(k + 1).last() == v@[k as int]@);
            if k == 0 {
                assert(s.take(1) =~= seq![v@[0]@]);
                assert(out@ =~= join_lines(s.take(1)));
            } else {
                assert(out@ =~= join_lines(s.take(k + 1)));
            }
        }
        k += 1;
    }
    assert(strings_view(v@).take(v@.len() as int) =~= strings_view(v@));
    string_from_chars(out.as_slice())
}

/// The texts without repeats, the first of each kept, in order.
pub fn unique_texts(texts: Vec<String>) -> (r: Vec<String>)
    ensures
        strings_view(r@) == first_occurrences(strings_view(texts@)),
{
    let mut out: Vec<String> = Vec::new();
    let mut k: usize = 0;
    while k < texts.len()
        invariant
            k <= texts@.len(),
            strings_view(out@) == first_occurrences(strings_view(texts@).take(k as int)),
        decreases texts@.len() - k,
    {
        let t = texts[k].clone();
        proof {
            let s = strings_view(texts@);
            assert(s.take(k + 1).drop_last() =~= s.take(k as int));
            assert(s.take(k + 1).last() == t@);
        }
        if !contains_string(&out, t.as_str()) {
            out.push(t);
            assert(strings_view(out@) =~= first_occurrences(strings_view(texts@).take(k + 1)));
        }
        k += 1;
    }
    assert(strings_view(texts@).take(texts@.len() as int) =~= strings_view(texts@));
    out
}

/// The texts that are not empty, in order.
pub open spec fn nonempty_texts(s: Seq<Seq<char>>) -> Seq<Seq<char>>
    decreases s.len(),
{
    if s.len() == 0 {
        Seq::empty()
    } else {
        let r = nonempty_texts(s.drop_last());
        if s.last().len() > 0 { r.push(s.last()) } else { r }
    }
}

/// The texts that are not empty, in order.
pub fn drop_empty_texts(texts: Vec<String>) -> (r: Vec<String>)
    ensures
        strings_view(r@) == nonempty_texts(strings_view(texts@)),
{
    let mut out: Vec<String> = Vec::new();
    let mut k: usize = 0;
    while k < texts.len()
        invariant
            k <= texts@.len(),
            strings_view(out@) == nonempty_texts(strings_view(texts@).take(k as int)),
        decreases texts@.len() - k,
    {
        let t = texts[k].clone();
        proof {
            let s = strings_view(texts@);
            assert(s.take(k + 1).drop_last() =~= s.take(k as int));
            assert(s.take(k + 1).last() == t@);
        }
        if t.as_str().unicode_len() > 0 {
            out.push(t);
            assert(strings_view(out@) =~= nonempty_texts(strings_view(texts@).take(k + 1)));
        }
        k += 1;
    }
    assert(strings_view(texts@).take(texts@.len() as int) =~= strings_view(texts@));
    out
}

proof fn lemma_nonempty_texts(s: Seq<Seq<char>>)
    ensures
        forall|i: int| 0 <= i < nonempty_texts(s).len() ==> (#[trigger] nonempty_texts(s)[i]).len() > 0
            && s.contains(nonempty_texts(s)[i]),
    decreases s.len(),
{
    if s.len() > 0 {
        let d = s.drop_last();
        lemma_nonempty_texts(d);
        assert forall|i: int| 0 <= i < nonempty_texts(s).len() implies (#[trigger] nonempty_texts(s)[i]).len()
            > 0 && s.contains(nonempty_texts(s)[i]) by {
            if i < nonempty_texts(d).len() {
                assert(nonempty_texts(s)[i] == nonempty_texts(d)[i]);
                let j = choose|j: int| 0 <= j < d.len() && d[j] == nonempty_texts(d)[i];
                assert(s[j] == d[j]);
            } else {
                assert(nonempty_texts(s)[i] == s.last());
                assert(s[s.len() - 1] == s.last());
            }
        }
    }
}

proof fn lemma_first_occurrences(s: Seq<Seq<char>>)
    ensures
        forall|i: int| 0 <= i < first_occurrences(s).len() ==> s.contains(#[trigger] first_occurrences(s)[i]),
        forall|i: int, j: int|
            0 <= i < j < first_occurrences(s).len() ==> #[trigger] first_occurrences(s)[i]
                != #[trigger] first_occurrences(s)[j],
    decreases s.len(),
{
    if s.len() > 0 {
        let d = s.drop_last();
        lemma_first_occurrences(d);
        let fd = first_occurrences(d);
        let f = first_occurrences(s);
        assert forall|i: int| 0 <= i < f.len() implies s.contains(#[trigger] f[i]) by {
            if i < fd.len() {
                assert(f[i] == fd[i]);
                let j = choose|j: int| 0 <= j < d.len() && d[j] == fd[i];
                assert(s[j] == d[j]);
            } else {
                assert(f[i] == s.last());
                assert(s[s.len() - 1] == s.last());
            }
        }
        assert forall|i: int, j: int| 0 <= i < j < f.len() implies #[trigger] f[i] != #[trigger] f[j] by {
            if j < fd.len() {
                assert(f[i] == fd[i] && f[j] == fd[j]);
            } else {
                assert(f[i] == fd[i]);
                assert(!fd.contains(s.last()));
            }
        }
    }
}

/// The pieces of a screen context gathered from `texts`: none is empty, no two are equal,
/// and each is one of the texts.
pub proof fn lemma_screen_context_pieces(texts: Seq<Seq<char>>)
    ensures
        forall|i: int|
            0 <= i < first_occurrences(nonempty_texts(texts)).len() ==> (#[trigger] first_occurrences(
                nonempty_texts(texts),
            )[i]).len() > 0 && texts.contains(first_occurrences(nonempty_texts(texts))[i]),
        forall|i: int, j: int|
            0 <= i < j < first_occurrences(nonempty_texts(texts)).len() ==> #[trigger] first_occurrences(
                nonempty_texts(texts),
            )[i] != #[trigger] first_occurrences(nonempty_texts(texts))[j],
{
    let n = nonempty_texts(texts);
    lemma_nonempty_texts(texts);
    lemma_first_occurrences(n);
    let f = first_occurrences(n);
    assert forall|i: int| 0 <= i < f.len() implies (#[trigger] f[i]).len() > 0 && texts.contains(f[i]) by {
        assert(n.contains(f[i]));
        let j = choose|j: int| 0 <= j < n.len() && n[j] == f[i];
        assert(n[j].len() > 0 && texts.contains(n[j]));
    }
}

/// The text around the focused element, from the texts gathered outward from it (an `Err`
/// when gathering failed): the texts that are not empty, without repeats (the first of each
/// kept), one per line; nothing when there is none.
pub fn get_screen_context(gathered: Result<Vec<String>, String>) -> (r: ScreenContextInfo)
    ensures
        match gathered {
            Ok(texts) => opt_string_view(r.screen_context) == (
                if first_occurrences(nonempty_texts(strings_view(texts@))).len() == 0 {
                    None
                } else {
                    Some(join_lines(first_occurrences(nonempty_texts(strings_view(texts@)))))
                }),
            Err(_) => r.screen_context is None,
        },
        r.screen_context matches Some(c) ==> c@.len() > 0,
{
    match gathered {
        Ok(texts) => {
            let ghost pieces = first_occurrences(nonempty_texts(strings_view(texts@)));
            let u = unique_texts(drop_empty_texts(texts));
            proof {
                lemma_screen_context_pieces(strings_view(texts@));
                if pieces.len() > 0 {
                    lemma_join_lines_nonempty(pieces);
                }
            }
            if u.len() == 0 {
                ScreenContextInfo { screen_context: None }
            } else {
                ScreenContextInfo { screen_context: Some(join_with_newlines(&u)) }
            }
        },
        Err(_) => ScreenContextInfo { screen_context: None },
    }
}

proof fn lemma_join_lines_nonempty(s: Seq<Seq<char>>)
    requires
        s.len() > 0,
        s[0].len() > 0,
    ensures
        join_lines(s).len() > 0,
    decreases s.len(),
{
    if s.len() > 1 {
        assert(s.drop_last()[0] == s[0]);
        lemma_join_lines_nonempty(s.drop_last());
    }
}

/// The most context gathered, in bytes, before the walk outward stops.
pub const MAX_CONTEXT_LENGTH: usize = 12000;

/// The total byte length of the texts.
pub open spec fn total_bytes(s: Seq<Seq<char>>) -> int
    decreases s.len(),
{
    if s.len() == 0 {
        0
    } else {
        total_bytes(s.drop_last()) + byte_len(s.last())
    }
}

proof fn lemma_total_bytes_monotone(s: Seq<Seq<char>>, k: int)
    requires
        0 <= k <= s.len(),
    ensures
        total_bytes(s.take(k)) <= total_bytes(s),
    decreases s.len() - k,
{
    if k < s.len() {
        lemma_total_bytes_monotone(s, k + 1);
        assert(s.take(k + 1).drop_last() =~= s.take(k));
    } else {
        assert(s.take(k) =~= s);
    }
}

/// Whether the gathered texts exceed the context limit, by total byte length.
pub fn context_exceeds_limit(texts: &Vec<String>) -> (r: bool)
    ensures
        r == (total_bytes(strings_view(texts@)) > MAX_CONTEXT_LENGTH),
{
    let mut acc: usize = 0;
    let mut k: usize = 0;
    while k < texts.len()
        invariant
            k <= texts@.len(),
            acc == total_bytes(strings_view(texts@).take(k as int)),
            acc <= MAX_CONTEXT_LENGTH,
        decreases texts@.len() - k,
    {
        let n = texts[k].as_str().len();
        proof {
            let s = strings_view(texts@);
            assert(s.take(k + 1).drop_last() =~= s.take(k as int));
            assert(s.take(k + 1).last() == texts@[k as int]@);
        }
        if n > MAX_CONTEXT_LENGTH - acc {
            proof {
                lemma_total_bytes_monotone(strings_view(texts@), k + 1);
            }
            return true;
        }
        acc = acc + n;
        k += 1;
    }
    assert(strings_view(texts@).take(texts@.len() as int) =~= strings_view(texts@));
    false
}

/// The most levels that the walk outward from the focused element climbs.
pub const CONTEXT_MAX_LEVELS_UP: usize = 20;

/// The most children of a parent whose texts the walk outward gathers.
pub const MAX_SIBLINGS: usize = 80;

/// What the walk outward reads of the next parent: its control type, its name, and the
/// texts gathered from each of its children, in order.
pub struct ContextParent {
    pub control_type: i32,
    pub name: Option<String>,
    pub child_texts: Vec<Vec<String>>,
}

/// The walk outward from the focused element: the texts gathered so far, how many levels
/// it has climbed, and whether it has stopped.
pub struct ContextWalk {
    pub texts: Vec<String>,
    pub levels_up: usize,
    pub done: bool,
}

/// The texts `acc`, followed by the texts of each child in turn, until their total length
/// passes the context limit.
pub open spec fn add_child_texts(acc: Seq<Seq<char>>, children: Seq<Seq<Seq<char>>>) -> Seq<Seq<char>>
    decreases children.len(),
{
    if children.len() == 0 {
        acc
    } else {
        let next = acc + children[0];
        if total_bytes(next) > MAX_CONTEXT_LENGTH {
            next
        } else {
            add_child_texts(next, children.skip(1))
        }
    }
}

/// The text that a window parent adds: `[Window: name]` with the name trimmed, when that is
/// not empty.
pub open spec fn window_line(name: Option<Seq<char>>) -> Seq<Seq<char>> {
    match name {
        Some(n) => if trim(n).len() > 0 { seq!["[Window: "@ + trim(n) + "]"@] } else { Seq::empty() },
        None => Seq::empty(),
    }
}

/// The text that another parent's name adds: the name trimmed, when it is longer than one
/// byte.
pub open spec fn parent_line(name: Option<Seq<char>>) -> Seq<Seq<char>> {
    match name {
        Some(n) => if byte_len(trim(n)) > 1 { seq![trim(n)] } else { Seq::empty() },
        None => Seq::empty(),
    }
}

/// The walk that starts at the focused element, with the texts gathered from it.
pub fn context_walk_start(focused_texts: Vec<String>) -> (r: ContextWalk)
    ensures
        r.texts@ == focused_texts@,
        r.levels_up == 0,
        !r.done,
{
    ContextWalk { texts: focused_texts, levels_up: 0, done: false }
}

/// Whether the walk reads another parent: when it has not stopped and has climbed fewer
/// than the most levels.
pub fn context_walk_continues(walk: &ContextWalk) -> (r: bool)
    ensures
        r == (!walk.done && walk.levels_up < CONTEXT_MAX_LEVELS_UP),
{
    !walk.done && walk.levels_up < CONTEXT_MAX_LEVELS_UP
}

fn append_child_texts(texts: &mut Vec<String>, children: Vec<Vec<String>>)
    ensures
        strings_view(final(texts)@) == add_child_texts(strings_view(old(texts)@), children@.map_values(
            |c: Vec<String>| strings_view(c@),
        )),
{
    let ghost all = children@.map_values(|c: Vec<String>| strings_view(c@));
    let n = children.len();
    let mut rest = children;
    let mut k: usize = 0;
    assert(all.skip(0) =~= all);
    while k < n
        invariant
            all == children@.map_values(|c: Vec<String>| strings_view(c@)),
            all.len() == n,
            k <= n,
            rest@.len() == n - k,
            forall|j: int| 0 <= j < n - k ==> strings_view(#[trigger] rest@[j]@) == all[k + j],
            add_child_texts(strings_view(old(texts)@), all) == add_child_texts(strings_view(texts@), all.skip(k as int)),
        decreases n - k,
    {
        let ghost prev = rest@;
        let mut child = rest.remove(0);
        proof {
            assert(strings_view(child@) == all[k as int]);
            assert(all.skip(k as int)[0] == all[k as int]);
            assert(all.skip(k as int).skip(1) =~= all.skip(k + 1));
            assert forall|j: int| 0 <= j < n - (k + 1) implies strings_view(#[trigger] rest@[j]@) == all[k + 1 + j] by {
                assert(rest@[j] == prev[j + 1]);
            }
        }
        let ghost before = strings_view(texts@);
        texts.append(&mut child);
        assert(strings_view(texts@) =~= before + all[k as int]);
        if context_exceeds_limit(texts) {
            assert(add_child_texts(before, all.skip(k as int)) == strings_view(texts@));
            return;
        }
        assert(add_child_texts(before, all.skip(k as int)) == add_child_texts(strings_view(texts@), all.skip(k + 1)));
        k += 1;
    }
    assert(all.skip(n as int) =~= Seq::<Seq<Seq<char>>>::empty());
}

/// The walk after reading the next parent. A stopped walk, or one that has climbed the most
/// levels, stays as it is and is stopped. At a window the walk adds `[Window: name]` and
/// stops. At another parent it adds the parent's name when longer than one byte, then the
/// texts of its first `MAX_SIBLINGS` children in turn until their total length passes the
/// context limit, and it stops when the total has passed the limit; else it climbs a level.
pub fn context_walk_step(walk: ContextWalk, parent: ContextParent) -> (r: ContextWalk)
    ensures
        ({
            let before = strings_view(walk.texts@);
            if walk.done || walk.levels_up >= CONTEXT_MAX_LEVELS_UP {
                strings_view(r.texts@) == before && r.levels_up == walk.levels_up && r.done
            } else if parent.control_type == crate::accessibility::UIA_WINDOW {
                strings_view(r.texts@) == before + window_line(opt_string_view(parent.name))
                    && r.levels_up == walk.levels_up && r.done
            } else {
                let children = parent.child_texts@.map_values(|c: Vec<String>| strings_view(c@));
                let shown = if children.len() <= MAX_SIBLINGS { children } else { children.take(MAX_SIBLINGS as int) };
                let after = add_child_texts(before + parent_line(opt_string_view(parent.name)), shown);
                &&& strings_view(r.texts@) == after
                &&& r.done == (total_bytes(after) > MAX_CONTEXT_LENGTH)
                &&& r.levels_up == (if r.done { walk.levels_up as int } else { walk.levels_up + 1 })
            }
        }),
{
    let ContextWalk { mut texts, levels_up, done } = walk;
    if done || levels_up >= CONTEXT_MAX_LEVELS_UP {
        return ContextWalk { texts, levels_up, done: true };
    }
    let ContextParent { control_type, name, mut child_texts } = parent;
    let ghost before = strings_view(texts@);
    if control_type == crate::accessibility::UIA_WINDOW {
        match &name {
            Some(n) => {
                let t = trim_string(n.as_str());
                if t.as_str().unicode_len() > 0 {
                    let head = concat_strs("[Window: ", t.as_str());
                    texts.push(concat_strs(head.as_str(), "]"));
                }
            },
            None => {},
        }
        assert(strings_view(texts@) =~= before + window_line(opt_string_view(name)));
        return ContextWalk { texts, levels_up, done: true };
    }
    match &name {
        Some(n) => {
            let t = trim_string(n.as_str());
            if t.as_str().len() > 1 {
                texts.push(t);
            }
        },
        None => {},
    }
    assert(strings_view(texts@) =~= before + parent_line(opt_string_view(name)));
    let ghost children = child_texts@.map_values(|c: Vec<String>| strings_view(c@));
    child_texts.truncate(MAX_SIBLINGS);
    proof {
        let shown = if children.len() <= MAX_SIBLINGS { children } else { children.take(MAX_SIBLINGS as int) };
        assert(child_texts@.map_values(|c: Vec<String>| strings_view(c@)) =~= shown);
    }
    append_child_texts(&mut texts, child_texts);
    if context_exceeds_limit(&texts) {
        ContextWalk { texts, levels_up, done: true }
    } else {
        ContextWalk { texts, levels_up: levels_up + 1, done: false }
    }
}

/// Whether a focused element can receive a paste: it is not settable through its value
/// pattern, and it has a text pattern or is an edit, document or combo box.
pub fn can_paste_into(is_settable: bool, has_text_pattern: bool, control_type: i32) -> (r: bool)
    ensures
        r == (!is_settable && (has_text_pattern || control_type == UIA_EDIT || control_type == UIA_DOCUMENT
            || control_type == UIA_COMBO_BOX)),
{
    let editable = control_type == UIA_EDIT || control_type == UIA_DOCUMENT || control_type == UIA_COMBO_BOX;
    !is_settable && (has_text_pattern || editable)
}

/// A UI framework that belongs to Java.
pub open spec fn java_framework(framework: Option<Seq<char>>) -> bool {
    match framework {
        Some(f) => f == "Java"@ || f == "JavaFX"@,
        None => false,
    }
}

fn is_java_framework(framework: Option<&str>) -> (r: bool)
    ensures
        r == java_framework(opt_str_view(framework)),
{
    match framework {
        Some(f) => {
            let c = chars_of(f);
            chars_equal(c.as_slice(), chars_of("Java").as_slice()) || chars_equal(c.as_slice(), chars_of("JavaFX").as_slice())
        },
        None => false,
    }
}

/// Whether the focused element belongs to a Java application: by its process name or by
/// its UI framework.
pub fn focused_is_java(process_name: Option<&str>, framework: Option<&str>) -> (r: bool)
    ensures
        r == (java_process(opt_str_view(process_name)) || java_framework(opt_str_view(framework))),
{
    let by_name = is_java_process_name(process_name);
    proof {
        assert(opt_str_view(process_name) == match process_name { Some(n) => Some(n@), None => None });
    }
    by_name || is_java_framework(framework)
}

/// The text selected in the focused element: the selection that UI Automation reports
/// when it is not empty, else what `read_clipboard` copies out, when not empty.
pub fn get_selected_text<F: FnOnce() -> Option<String>>(uia_selection: Result<Option<String>, String>, read_clipboard: F) -> (r: Option<String>)
    requires
        read_clipboard.requires(()),
    ensures
        match uia_selection {
            Ok(Some(t)) if t@.len() > 0 => r == Some(t),
            _ => exists|c: Option<String>| read_clipboard.ensures((), c) && r == (match c {
                Some(s) => if s@.len() > 0 { Some(s) } else { None },
                None => None,
            }),
        },
{
    match uia_selection {
        Ok(Some(t)) => {
            if t.as_str().unicode_len() > 0 {
                return Some(t);
            }
        },
        _ => {},
    }
    let c = read_clipboard();
    let r = crate::linux::nonempty_selection(c);
    r
}

broadcast use vstd::utf8::encode_utf8_decode_utf8;

/// How deep the accessibility dump descends.
pub const DUMP_MAX_DEPTH: usize = 30;

/// How many elements the accessibility dump lists at most.
pub const DUMP_MAX_ELEMENTS: usize = 5000;

/// Whether the dump descends into the children of an element at `depth`, with
/// `element_count` elements listed so far.
pub fn dump_descends(depth: usize, element_count: usize) -> (r: bool)
    ensures
        r == (depth <= DUMP_MAX_DEPTH && element_count < DUMP_MAX_ELEMENTS),
{
    !(depth > DUMP_MAX_DEPTH || element_count >= DUMP_MAX_ELEMENTS)
}

/// Two spaces per level of depth.
pub open spec fn indent(depth: nat) -> Seq<char> {
    Seq::new(2 * depth, |i: int| ' ')
}

fn push_str(out: &mut Vec<char>, s: &str)
    ensures
        final(out)@ == old(out)@ + s@,
{
    let c = chars_of(s);
    let mut i: usize = 0;
    let ghost start = out@;
    while i < c.len()
        invariant
            i <= c@.len(),
            c@ == s@,
            out@ == start + c@.take(i as int),
        decreases c@.len() - i,
    {
        out.push(c[i]);
        i += 1;
        assert(out@ =~= start + c@.take(i as int));
    }
    assert(c@.take(c@.len() as int) =~= c@);
}

fn push_indent(out: &mut Vec<char>, depth: usize)
    ensures
        final(out)@ == old(out)@ + indent(depth as nat),
{
    let mut k: usize = 0;
    let ghost start = out@;
    while k < depth
        invariant
            k <= depth,
            out@ == start + indent(k as nat),
        decreases depth - k,
    {
        out.push(' ');
        out.push(' ');
        k += 1;
        assert(out@ =~= start + indent(k as nat));
    }
}

/// The line that ends a dump cut short at `depth`.
pub fn truncation_line(depth: usize) -> (r: String)
    ensures
        r@ == indent(depth as nat) + "... (truncated, max 5000 elements reached)"@,
{
    let mut out: Vec<char> = Vec::new();
    push_indent(&mut out, depth);
    push_str(&mut out, "... (truncated, max 5000 elements reached)");
    assert(out@ =~= indent(depth as nat) + "... (truncated, max 5000 elements reached)"@);
    string_from_chars(out.as_slice())
}

pub open spec fn or_empty(o: Option<Seq<char>>) -> Seq<char> {
    match o {
        Some(s) => s,
        None => Seq::empty(),
    }
}

/// A text shown in a dump: its first 100 bytes followed by `...` when it is longer.
pub open spec fn cut_to_100(t: Seq<char>) -> Seq<char> {
    if byte_len(t) > 100 {
        decode_utf8(encode_utf8(t).subrange(0, 100)) + "..."@
    } else {
        t
    }
}

/// A text as a dump shows it: cut after 100 bytes, then followed by `...`.
fn cut_to_100_bytes(t: &str) -> (r: String)
    requires
        encode_utf8(t@).len() > 100 ==> is_char_boundary(encode_utf8(t@), 100),
    ensures
        r@ == cut_to_100(t@),
{
    if t.len() > 100 {
        let (short, _rest) = t.split_at(100);
        proof {
            assert(short.spec_bytes() == encode_utf8(t@).subrange(0, 100));
            assert(decode_utf8(encode_utf8(short@)) == short@);
        }
        concat_strs(short, "...")
    } else {
        owned(t)
    }
}

/// The value part of a dump line: ` value="<value>"` with the value trimmed and cut to
/// its first 100 bytes (then followed by `...`), or nothing when the value is missing or
/// blank.
pub open spec fn dump_value_part(value: Option<Seq<char>>) -> Seq<char> {
    match value {
        Some(v) => {
            let t = trim(v);
            if t.len() == 0 {
                Seq::empty()
            } else {
                " value=\""@ + cut_to_100(t) + "\""@
            }
        },
        None => Seq::empty(),
    }
}

/// The annotations of a dump line, in order: `settable`, `text-pattern`, the automation
/// id, class name and framework when not empty, and the trimmed help text when not empty
/// and under 200 bytes.
pub open spec fn dump_annotations(
    settable: bool,
    text_pattern: bool,
    automation_id: Option<Seq<char>>,
    class_name: Option<Seq<char>>,
    framework: Option<Seq<char>>,
    help: Option<Seq<char>>,
) -> Seq<Seq<char>> {
    let a0: Seq<Seq<char>> = if settable { seq!["settable"@] } else { Seq::empty() };
    let a1 = if text_pattern { a0.push("text-pattern"@) } else { a0 };
    let a2 = match automation_id {
        Some(i) => if i.len() > 0 { a1.push("id="@ + i) } else { a1 },
        None => a1,
    };
    let a3 = match class_name {
        Some(c) => if c.len() > 0 { a2.push("class="@ + c) } else { a2 },
        None => a2,
    };
    let a4 = match framework {
        Some(f) => if f.len() > 0 { a3.push("framework="@ + f) } else { a3 },
        None => a3,
    };
    match help {
        Some(h) => if trim(h).len() > 0 && byte_len(trim(h)) < 200 { a4.push("help=\""@ + trim(h) + "\""@) } else { a4 },
        None => a4,
    }
}

/// The texts joined with `, `.
pub open spec fn join_commas(s: Seq<Seq<char>>) -> Seq<char>
    decreases s.len(),
{
    if s.len() == 0 {
        Seq::empty()
    } else if s.len() == 1 {
        s[0]
    } else {
        join_commas(s.drop_last()) + ", "@ + s.last()
    }
}

/// One line of the accessibility dump for an element at `depth`:
/// `[<type>] "<name>"`, indented, then the value part, then the annotations in brackets.
pub open spec fn dump_line(
    depth: nat,
    control_type: i32,
    name: Option<Seq<char>>,
    value: Option<Seq<char>>,
    settable: bool,
    text_pattern: bool,
    automation_id: Option<Seq<char>>,
    class_name: Option<Seq<char>>,
    framework: Option<Seq<char>>,
    help: Option<Seq<char>>,
) -> Seq<char> {
    let notes = dump_annotations(settable, text_pattern, automation_id, class_name, framework, help);
    indent(depth) + "["@ + control_type_label(control_type) + "] \""@ + or_empty(name) + "\""@
        + dump_value_part(value) + (if notes.len() > 0 { " ("@ + join_commas(notes) + ")"@ } else { Seq::empty() })
}

fn push_opt_annotation(notes: &mut Vec<String>, key: &str, v: Option<&str>)
    ensures
        strings_view(final(notes)@) == match opt_str_view(v) {
            Some(s) => if s.len() > 0 { strings_view(old(notes)@).push(key@ + s) } else { strings_view(old(notes)@) },
            None => strings_view(old(notes)@),
        },
{
    match v {
        Some(s) => {
            if s.unicode_len() > 0 {
                notes.push(concat_strs(key, s));
                assert(strings_view(notes@) =~= strings_view(old(notes)@).push(key@ + s@));
            }
        },
        None => {},
    }
}

fn join_comma_strings(v: &Vec<String>) -> (r: Vec<char>)
    ensures
        r@ == join_commas(strings_view(v@)),
{
    let mut out: Vec<char> = Vec::new();
    let mut k: usize = 0;
    while k < v.len()
        invariant
            k <= v@.len(),
            out@ == join_commas(strings_view(v@).take(k as int)),
        decreases v@.len() - k,
    {
        if k > 0 {
            push_str(&mut out, ", ");
        }
        push_str(&mut out, v[k].as_str());
        proof {
            let s = strings_view(v@);
            assert(s.take(k + 1).drop_last() =~= s.take(k as int));
            assert(s.take(k + 1).last() == v@[k as int]@);
            if k == 0 {
                assert(s.take(1).len() == 1);
                assert(out@ =~= join_commas(s.take(1)));
            } else {
                assert(out@ =~= join_commas(s.take(k + 1)));
            }
        }
        k += 1;
    }
    assert(strings_view(v@).take(v@.len() as int) =~= strings_view(v@));
    out
}

/// One line of the accessibility dump for an element.
pub fn format_dump_line(
    depth: usize,
    control_type: i32,
    name: Option<&str>,
    value: Option<&str>,
    is_settable: bool,
    has_text_pattern: bool,
    automation_id: Option<&str>,
    class_name: Option<&str>,
    framework: Option<&str>,
    help: Option<&str>,
) -> (r: String)
    requires
        value matches Some(v) ==> (encode_utf8(trim(v@)).len() > 100 ==> is_char_boundary(encode_utf8(trim(v@)), 100)),
    ensures
        r@ == dump_line(depth as nat, control_type, opt_str_view(name), opt_str_view(value), is_settable,
            has_text_pattern, opt_str_view(automation_id), opt_str_view(class_name), opt_str_view(framework),
            opt_str_view(help)),
{
    let mut out: Vec<char> = Vec::new();
    push_indent(&mut out, depth);
    push_str(&mut out, "[");
    let tn = control_type_name(control_type);
    push_str(&mut out, tn.as_str());
    push_str(&mut out, "] \"");
    match name {
        Some(n) => push_str(&mut out, n),
        None => {},
    }
    push_str(&mut out, "\"");
    let ghost head = out@;
    assert(head =~= indent(depth as nat) + "["@ + control_type_label(control_type) + "] \""@ + or_empty(opt_str_view(name)) + "\""@);
    match value {
        Some(v) => {
            let t = trim_string(v);
            if t.as_str().unicode_len() > 0 {
                push_str(&mut out, " value=\"");
                let shown = cut_to_100_bytes(t.as_str());
                push_str(&mut out, shown.as_str());
                push_str(&mut out, "\"");
            }
        },
        None => {},
    }
    assert(out@ =~= head + dump_value_part(opt_str_view(value)));
    let ghost with_value = out@;
    let mut notes: Vec<String> = Vec::new();
    if is_settable {
        notes.push(owned("settable"));
    }
    assert(strings_view(notes@) =~= (if is_settable { seq!["settable"@] } else { Seq::<Seq<char>>::empty() }));
    let ghost a0 = strings_view(notes@);
    if has_text_pattern {
        notes.push(owned("text-pattern"));
    }
    assert(strings_view(notes@) =~= (if has_text_pattern { a0.push("text-pattern"@) } else { a0 }));
    push_opt_annotation(&mut notes, "id=", automation_id);
    push_opt_annotation(&mut notes, "class=", class_name);
    push_opt_annotation(&mut notes, "framework=", framework);
    let ghost a4 = strings_view(notes@);
    match help {
        Some(h) => {
            let ht = trim_string(h);
            if ht.as_str().unicode_len() > 0 && ht.as_str().len() < 200 {
                let a = concat_strs("help=\"", ht.as_str());
                notes.push(concat_strs(a.as_str(), "\""));
                assert(strings_view(notes@) =~= a4.push("help=\""@ + trim(h@) + "\""@));
            }
        },
        None => {},
    }
    let ghost notes_spec = dump_annotations(is_settable, has_text_pattern, opt_str_view(automation_id),
        opt_str_view(class_name), opt_str_view(framework), opt_str_view(help));
    assert(strings_view(notes@) =~= notes_spec);
    if notes.len() > 0 {
        push_str(&mut out, " (");
        let j = join_comma_strings(&notes);
        push_str(&mut out, string_from_chars(j.as_slice()).as_str());
        push_str(&mut out, ")");
    }
    assert(out@ =~= with_value + (if notes_spec.len() > 0 { " ("@ + join_commas(notes_spec) + ")"@ } else { Seq::empty() }));
    string_from_chars(out.as_slice())
}

/// The header line of the dump: `[Window] "<title>"`, then ` (pid=<pid>)` when the pid is
/// known (not zero), ` process=<name>` and ` framework=<framework>` when known.
pub open spec fn dump_header_text(title: Option<Seq<char>>, pid: u32, process: Option<Seq<char>>, framework: Option<Seq<char>>) -> Seq<char> {
    "[Window] \""@ + or_empty(title) + "\""@
        + (if pid > 0 { " (pid="@ + decimal_nat(pid as nat) + ")"@ } else { Seq::empty() })
        + (match process { Some(p) => " process="@ + p, None => Seq::empty() })
        + (match framework { Some(f) => " framework="@ + f, None => Seq::empty() })
}

/// The header line of the dump.
pub fn dump_header(title: Option<&str>, pid: u32, process: Option<&str>, framework: Option<&str>) -> (r: String)
    ensures
        r@ == dump_header_text(opt_str_view(title), pid, opt_str_view(process), opt_str_view(framework)),
{
    let mut out: Vec<char> = Vec::new();
    push_str(&mut out, "[Window] \"");
    match title {
        Some(t) => push_str(&mut out, t),
        None => {},
    }
    push_str(&mut out, "\"");
    let ghost a = out@;
    if pid > 0 {
        push_str(&mut out, " (pid=");
        let d = decimal_u64(pid as u64);
        push_str(&mut out, string_from_chars(d.as_slice()).as_str());
        push_str(&mut out, ")");
    }
    assert(out@ =~= a + (if pid > 0 { " (pid="@ + decimal_nat(pid as nat) + ")"@ } else { Seq::<char>::empty() }));
    let ghost b = out@;
    match process {
        Some(p) => {
            push_str(&mut out, " process=");
            push_str(&mut out, p);
        },
        None => {},
    }
    assert(out@ =~= b + (match opt_str_view(process) { Some(p) => " process="@ + p, None => Seq::<char>::empty() }));
    let ghost c = out@;
    match framework {
        Some(f) => {
            push_str(&mut out, " framework=");
            push_str(&mut out, f);
        },
        None => {},
    }
    assert(out@ =~= c + (match opt_str_view(framework) { Some(f) => " framework="@ + f, None => Seq::<char>::empty() }));
    assert(out@ =~= dump_header_text(opt_str_view(title), pid, opt_str_view(process), opt_str_view(framework)));
    string_from_chars(out.as_slice())
}

/// The framework of an element marks it as part of a Java application.
pub fn framework_is_java(framework: Option<&str>) -> (r: bool)
    ensures
        r == java_framework(opt_str_view(framework)),
{
    is_java_framework(framework)
}

/// Whether a Java application's tree is read through the Java Access Bridge: when UI
/// Automation showed fewer than ten elements of it.
pub fn needs_jab_fallback(is_java_app: bool, element_count: usize) -> (r: bool)
    ensures
        r == (is_java_app && element_count < 10),
{
    is_java_app && element_count < 10
}

/// The lines of an accessibility dump as the walk over a window's tree builds them: the
/// header first, then one line per element listed (and the truncation line where the walk
/// was cut short), with the number of elements listed, the header counted, never more than
/// `DUMP_MAX_ELEMENTS`.
pub struct DumpTree {
    header: String,
    body: Vec<String>,
    element_count: usize,
}

impl DumpTree {
    #[verifier::type_invariant]
    spec fn well_formed(self) -> bool {
        1 <= self.element_count <= DUMP_MAX_ELEMENTS
    }

    /// The lines so far.
    pub closed spec fn lines_view(self) -> Seq<Seq<char>> {
        seq![self.header@] + strings_view(self.body@)
    }

    /// The number of elements listed so far, the header counted.
    pub closed spec fn count(self) -> nat {
        self.element_count as nat
    }

    /// A dump that holds the window's header line, which counts as one element.
    pub fn new(header: String) -> (r: DumpTree)
        ensures
            r.lines_view() == seq![header@],
            r.count() == 1,
    {
        let body: Vec<String> = Vec::new();
        let r = DumpTree { header, body, element_count: 1 };
        assert(r.lines_view() =~= seq![header@]);
        r
    }

    /// The number of elements listed so far, the header counted.
    pub fn element_count(&self) -> (r: usize)
        ensures
            r == self.count(),
            1 <= r <= DUMP_MAX_ELEMENTS,
    {
        proof {
            use_type_invariant(self);
        }
        self.element_count
    }

    /// Whether the dump has listed as many elements as it may.
    pub fn is_full(&self) -> (r: bool)
        ensures
            r == (self.count() >= DUMP_MAX_ELEMENTS),
    {
        self.element_count >= DUMP_MAX_ELEMENTS
    }

    /// The next child met at `depth`: its line is added and counted when the dump is not
    /// full; otherwise the truncation line is added and the walk stops (`false`).
    pub fn add_child(&mut self, depth: usize, line: String) -> (added: bool)
        ensures
            added == (old(self).count() < DUMP_MAX_ELEMENTS),
            added ==> final(self).lines_view() == old(self).lines_view().push(line@) && final(self).count()
                == old(self).count() + 1,
            !added ==> final(self).lines_view() == old(self).lines_view().push(
                indent(depth as nat) + "... (truncated, max 5000 elements reached)"@,
            ) && final(self).count() == old(self).count(),
    {
        proof {
            use_type_invariant(&*self);
        }
        let mut body: Vec<String> = Vec::new();
        std::mem::swap(&mut body, &mut self.body);
        let ghost before = strings_view(body@);
        let added = if self.element_count >= DUMP_MAX_ELEMENTS {
            body.push(truncation_line(depth));
            false
        } else {
            body.push(line);
            self.element_count = self.element_count + 1;
            true
        };
        assert(strings_view(body@) =~= before.push(body@.last()@));
        self.body = body;
        proof {
            assert(self.lines_view() =~= old(self).lines_view().push(self.body@.last()@));
        }
        added
    }
}

/// What the walk over the foreground window's tree found: its title and process, the
/// dump it built, whether the window belongs to Java, and, when the Java Access Bridge was
/// asked, its dump and element count.
pub struct DumpReading {
    pub window_title: Option<String>,
    pub process_name: Option<String>,
    pub tree: DumpTree,
    pub is_java_app: bool,
    pub jab_dump: Option<(String, usize)>,
}

/// The warning added when a Java application's tree could not be read.
pub open spec fn java_warning() -> Seq<char> {
    "WARNING: This appears to be a Java application but the accessibility tree is not visible. Ensure Java Access Bridge is enabled and the .accessibility.properties file is configured."@
}

/// The lines of a dump, with the warning appended when a Java application with few
/// elements could not be read through the bridge either.
pub open spec fn final_lines(rd: DumpReading) -> Seq<Seq<char>> {
    if rd.is_java_app && rd.tree.count() < 10 && rd.jab_dump is None {
        rd.tree.lines_view() + seq![Seq::empty(), java_warning()]
    } else {
        rd.tree.lines_view()
    }
}

/// The dump of the foreground window from what the walk found (an `Err` when it failed,
/// `None` when there is no foreground window). A Java application with fewer than ten
/// elements is dumped through the bridge when that worked: the header line, a newline,
/// and the bridge's dump, counting one element more than the bridge; otherwise the lines
/// joined with newlines, with the elements the walk counted. There is a dump exactly when
/// at least one element is counted.
pub fn gather_accessibility_dump(reading: Result<Option<DumpReading>, String>) -> (r: AccessibilityDumpResult)
    requires
        reading matches Ok(Some(rd)) ==> (rd.jab_dump matches Some(j) ==> j.1 < usize::MAX),
    ensures
        match reading {
            Ok(Some(rd)) => {
                &&& opt_string_view(r.window_title) == opt_string_view(rd.window_title)
                &&& opt_string_view(r.process_name) == opt_string_view(rd.process_name)
                &&& if rd.is_java_app && rd.tree.count() < 10 && rd.jab_dump is Some {
                    let (d, c) = rd.jab_dump->0;
                    &&& opt_string_view(r.dump) == Some(rd.tree.lines_view()[0] + seq!['\n'] + d@)
                    &&& r.element_count == c + 1
                } else {
                    &&& opt_string_view(r.dump) == Some(join_lines(final_lines(rd)))
                    &&& r.element_count == rd.tree.count()
                    &&& 1 <= r.element_count <= DUMP_MAX_ELEMENTS
                }
            },
            _ => r.dump is None && r.window_title is None && r.process_name is None && r.element_count == 0,
        },
        r.dump is Some <==> r.element_count >= 1,
        r.dump is None ==> r.element_count == 0 && r.window_title is None && r.process_name is None,
{
    match reading {
        Ok(Some(rd)) => {
            let ghost rd0 = rd;
            let DumpReading { window_title, process_name, tree, is_java_app, jab_dump } = rd;
            proof {
                use_type_invariant(&tree);
            }
            let DumpTree { header, body, element_count } = tree;
            let mut body = body;
            let mut lines: Vec<String> = Vec::new();
            lines.push(header);
            lines.append(&mut body);
            assert(strings_view(lines@) =~= rd0.tree.lines_view());
            if needs_jab_fallback(is_java_app, element_count) {
                match jab_dump {
                    Some((d, c)) => {
                        let mut out: Vec<char> = Vec::new();
                        push_str(&mut out, lines[0].as_str());
                        out.push('\n');
                        push_str(&mut out, d.as_str());
                        return AccessibilityDumpResult {
                            dump: Some(string_from_chars(out.as_slice())),
                            window_title,
                            process_name,
                            element_count: c + 1,
                        };
                    },
                    None => {
                        lines.push(String::new());
                        lines.push(owned("WARNING: This appears to be a Java application but the accessibility tree is not visible. Ensure Java Access Bridge is enabled and the .accessibility.properties file is configured."));
                        assert(strings_view(lines@) =~= final_lines(rd0));
                    },
                }
            }
            assert(strings_view(lines@) =~= final_lines(rd0));
            let dump = Some(join_with_newlines(&lines));
            AccessibilityDumpResult { dump, window_title, process_name, element_count }
        },
        _ => empty_dump_result(),
    }
}

/// How writing one field went.
#[derive(Debug, Clone)]
pub enum WriteOutcome {
    /// The value was written.
    Written,
    /// The Java Access Bridge failed, with its message.
    JabFailed(String),
    /// No window of the process was found for the bridge.
    NoWindow,
    /// The element could not be found again, with the message that says why.
    ResolveFailed(String),
    /// Pasting into the element failed, with its message.
    PasteFailed(String),
}

/// One field's write: the process, the element's index path, and how it went.
pub struct FieldWrite {
    pub app_pid: i32,
    pub element_index_path: Vec<usize>,
    pub outcome: WriteOutcome,
}

/// What writing a batch of fields reports: how many were written, how many failed, and
/// a message per failure.
pub struct AccessibilityWriteResult {
    pub succeeded: usize,
    pub failed: usize,
    pub errors: Vec<String>,
}

/// An index path as `Debug` prints a list: `[1, 2, 3]`.
pub open spec fn index_path_text(path: Seq<usize>) -> Seq<char> {
    "["@ + join_commas(path.map_values(|k: usize| decimal_nat(k as nat))) + "]"@
}

/// The message of a failed write, or none when it was written.
pub open spec fn write_error(pid: i32, path: Seq<usize>, outcome: WriteOutcome) -> Option<Seq<char>> {
    match outcome {
        WriteOutcome::Written => None,
        WriteOutcome::JabFailed(e) => Some("JAB write failed for PID "@ + crate::text::decimal_int(pid as int) + ": "@ + e@),
        WriteOutcome::NoWindow => Some("No window found for PID "@ + crate::text::decimal_int(pid as int)),
        WriteOutcome::ResolveFailed(e) => Some(e@),
        WriteOutcome::PasteFailed(e) => Some("Write failed for PID "@ + crate::text::decimal_int(pid as int) + " path "@
            + index_path_text(path) + ": paste failed: "@ + e@),
    }
}

/// The failure messages of a batch, in order.
pub open spec fn write_errors(w: Seq<FieldWrite>) -> Seq<Seq<char>>
    decreases w.len(),
{
    if w.len() == 0 {
        Seq::empty()
    } else {
        let rest = write_errors(w.drop_last());
        match write_error(w.last().app_pid, w.last().element_index_path@, w.last().outcome) {
            Some(m) => rest.push(m),
            None => rest,
        }
    }
}

/// How many writes of a batch succeeded.
pub open spec fn written_count(w: Seq<FieldWrite>) -> nat
    decreases w.len(),
{
    if w.len() == 0 {
        0
    } else {
        written_count(w.drop_last()) + (if w.last().outcome is Written { 1nat } else { 0nat })
    }
}

proof fn lemma_write_counts(w: Seq<FieldWrite>)
    ensures
        written_count(w) + write_errors(w).len() == w.len(),
    decreases w.len(),
{
    if w.len() > 0 {
        lemma_write_counts(w.drop_last());
    }
}

/// An index path as `Debug` prints a list.
fn index_path_string(path: &Vec<usize>) -> (r: String)
    ensures
        r@ == index_path_text(path@),
{
    let mut parts: Vec<String> = Vec::new();
    let mut k: usize = 0;
    while k < path.len()
        invariant
            k <= path@.len(),
            strings_view(parts@) == path@.take(k as int).map_values(|j: usize| decimal_nat(j as nat)),
        decreases path@.len() - k,
    {
        let ghost before = strings_view(parts@);
        let d = decimal_u64(path[k] as u64);
        let ds = string_from_chars(d.as_slice());
        assert(ds@ == decimal_nat(path@[k as int] as nat));
        parts.push(ds);
        assert(strings_view(parts@) =~= before.push(ds@));
        assert(path@.take(k + 1) =~= path@.take(k as int).push(path@[k as int]));
        k += 1;
        assert(strings_view(parts@) =~= path@.take(k as int).map_values(|j: usize| decimal_nat(j as nat)));
    }
    assert(path@.take(path@.len() as int) =~= path@);
    let j = join_comma_strings(&parts);
    let mut out: Vec<char> = Vec::new();
    push_str(&mut out, "[");
    push_str(&mut out, string_from_chars(j.as_slice()).as_str());
    push_str(&mut out, "]");
    string_from_chars(out.as_slice())
}

/// The message of a failed write.
fn write_error_message(pid: i32, path: &Vec<usize>, outcome: &WriteOutcome) -> (r: Option<String>)
    ensures
        opt_string_view(r) == write_error(pid, path@, *outcome),
{
    match outcome {
        WriteOutcome::Written => None,
        WriteOutcome::JabFailed(e) => {
            let p = crate::text::decimal_string(pid as i64);
            let a = concat_strs("JAB write failed for PID ", p.as_str());
            let b = concat_strs(a.as_str(), ": ");
            Some(concat_strs(b.as_str(), e.as_str()))
        },
        WriteOutcome::NoWindow => {
            let p = crate::text::decimal_string(pid as i64);
            Some(concat_strs("No window found for PID ", p.as_str()))
        },
        WriteOutcome::ResolveFailed(e) => Some(e.clone()),
        WriteOutcome::PasteFailed(e) => {
            let p = crate::text::decimal_string(pid as i64);
            let a = concat_strs("Write failed for PID ", p.as_str());
            let b = concat_strs(a.as_str(), " path ");
            let path_text = index_path_string(path);
            let c = concat_strs(b.as_str(), path_text.as_str());
            let d = concat_strs(c.as_str(), ": paste failed: ");
            Some(concat_strs(d.as_str(), e.as_str()))
        },
    }
}

/// What writing a batch of fields reports, from how each write went: the writes that
/// succeeded counted, the others counted as failed with one message each, in order.
pub fn write_accessibility_fields(writes: &Vec<FieldWrite>) -> (r: AccessibilityWriteResult)
    ensures
        r.succeeded == written_count(writes@),
        strings_view(r.errors@) == write_errors(writes@),
        r.failed == r.errors@.len(),
        r.succeeded + r.failed == writes@.len(),
{
    let mut succeeded: usize = 0;
    let mut errors: Vec<String> = Vec::new();
    let mut k: usize = 0;
    while k < writes.len()
        invariant
            k <= writes@.len(),
            succeeded == written_count(writes@.take(k as int)),
            strings_view(errors@) == write_errors(writes@.take(k as int)),
            succeeded + errors@.len() == k,
        decreases writes@.len() - k,
    {
        let w = &writes[k];
        proof {
            assert(writes@.take(k + 1).drop_last() =~= writes@.take(k as int));
            lemma_write_counts(writes@.take(k as int));
        }
        match write_error_message(w.app_pid, &w.element_index_path, &w.outcome) {
            Some(m) => {
                errors.push(m);
                assert(strings_view(errors@) =~= write_errors(writes@.take(k + 1)));
            },
            None => {
                succeeded += 1;
            },
        }
        k += 1;
    }
    assert(writes@.take(writes@.len() as int) =~= writes@);
    let failed = errors.len();
    AccessibilityWriteResult { succeeded, failed, errors }
}

/// What a batch reports when UI Automation cannot be started: every field failed, with one
/// message.
pub fn write_unavailable(entry_count: usize, message: &str) -> (r: AccessibilityWriteResult)
    ensures
        r.succeeded == 0,
        r.failed == entry_count,
        strings_view(r.errors@) == seq!["Failed to create UIAutomation: "@ + message@],
{
    let mut errors: Vec<String> = Vec::new();
    errors.push(concat_strs("Failed to create UIAutomation: ", message));
    assert(strings_view(errors@) =~= seq!["Failed to create UIAutomation: "@ + message@]);
    AccessibilityWriteResult { succeeded: 0, failed: entry_count, errors }
}

/// What reading one field gives: its value, or the message of the error.
pub struct FieldValueResult {
    pub value: Option<String>,
    pub error: Option<String>,
}

/// How reading one field went.
pub enum ReadOutcome {
    /// The Java Access Bridge read the field, with the value it gave.
    JabRead(Option<String>),
    /// The Java Access Bridge failed, with its message.
    JabFailed(String),
    /// No window of the process was found for the bridge.
    NoWindow,
    /// The element could not be found again, with the message that says why.
    ResolveFailed(String),
    /// The element was found: its value pattern's value, and its text pattern's document
    /// text, as far as they could be read.
    Resolved { value: Option<String>, document: Option<String> },
}

/// One field's read: the process and how it went.
pub struct FieldRead {
    pub app_pid: i32,
    pub outcome: ReadOutcome,
}

/// The value and error that a read gives, by their views: the bridge's value or message;
/// for a found element, its value pattern's value, else its document text when not empty,
/// else the empty text.
pub open spec fn read_result(pid: i32, outcome: ReadOutcome) -> (Option<Seq<char>>, Option<Seq<char>>) {
    match outcome {
        ReadOutcome::JabRead(v) => (opt_string_view(v), None),
        ReadOutcome::JabFailed(e) => (None, Some(e@)),
        ReadOutcome::NoWindow => (None, Some("No window for PID "@ + crate::text::decimal_int(pid as int))),
        ReadOutcome::ResolveFailed(e) => (None, Some(e@)),
        ReadOutcome::Resolved { value, document } => match value {
            Some(v) => (Some(v@), None),
            None => match document {
                Some(d) => if d@.len() > 0 { (Some(d@), None) } else { (Some(Seq::empty()), None) },
                None => (Some(Seq::empty()), None),
            },
        },
    }
}

pub open spec fn value_result_view(r: FieldValueResult) -> (Option<Seq<char>>, Option<Seq<char>>) {
    (opt_string_view(r.value), opt_string_view(r.error))
}

/// What reading one field gives, from how the read went.
pub fn field_value_result(read: FieldRead) -> (r: FieldValueResult)
    ensures
        value_result_view(r) == read_result(read.app_pid, read.outcome),
{
    let FieldRead { app_pid, outcome } = read;
    match outcome {
        ReadOutcome::JabRead(v) => FieldValueResult { value: v, error: None },
        ReadOutcome::JabFailed(e) => FieldValueResult { value: None, error: Some(e) },
        ReadOutcome::NoWindow => {
            let p = crate::text::decimal_string(app_pid as i64);
            FieldValueResult { value: None, error: Some(concat_strs("No window for PID ", p.as_str())) }
        },
        ReadOutcome::ResolveFailed(e) => FieldValueResult { value: None, error: Some(e) },
        ReadOutcome::Resolved { value, document } => match value {
            Some(v) => FieldValueResult { value: Some(v), error: None },
            None => match document {
                Some(d) => if d.as_str().unicode_len() > 0 {
                    FieldValueResult { value: Some(d), error: None }
                } else {
                    FieldValueResult { value: Some(String::new()), error: None }
                },
                None => FieldValueResult { value: Some(String::new()), error: None },
            },
        },
    }
}

/// What reading a batch of fields gives, one result per field in order, from how each read
/// went; when UI Automation could not be started (`Err` with its message), every one of
/// the `field_count` fields gets the same error.
pub fn read_field_values(reads: Result<Vec<FieldRead>, String>, field_count: usize) -> (r: Vec<FieldValueResult>)
    ensures
        match reads {
            Ok(v) => r@.len() == v@.len() && forall|i: int| 0 <= i < v@.len() ==> value_result_view(#[trigger] r@[i])
                == read_result(v@[i].app_pid, v@[i].outcome),
            Err(m) => r@.len() == field_count && forall|i: int| 0 <= i < field_count ==> value_result_view(
                #[trigger] r@[i],
            ) == (None::<Seq<char>>, Some("Failed to create UIAutomation: "@ + m@)),
        },
{
    match reads {
        Ok(v) => {
            let ghost all = v@;
            let n = v.len();
            let mut rest = v;
            let mut out: Vec<FieldValueResult> = Vec::new();
            let mut k: usize = 0;
            while k < n
                invariant
                    all.len() == n,
                    k <= n,
                    rest@ == all.skip(k as int),
                    out@.len() == k,
                    forall|i: int| 0 <= i < k ==> value_result_view(#[trigger] out@[i]) == read_result(all[i].app_pid, all[i].outcome),
                decreases n - k,
            {
                let read = rest.remove(0);
                proof {
                    assert(read == all[k as int]);
                }
                let ghost before = out@;
                out.push(field_value_result(read));
                proof {
                    assert(rest@ =~= all.skip(k + 1));
                    assert forall|i: int| 0 <= i < k + 1 implies value_result_view(#[trigger] out@[i]) == read_result(all[i].app_pid, all[i].outcome) by {
                        if i < k {
                            assert(out@[i] == before[i]);
                        }
                    }
                }
                k += 1;
            }
            out
        },
        Err(m) => {
            let err = concat_strs("Failed to create UIAutomation: ", m.as_str());
            let mut out: Vec<FieldValueResult> = Vec::new();
            let mut k: usize = 0;
            while k < field_count
                invariant
                    k <= field_count,
                    out@.len() == k,
                    err@ == "Failed to create UIAutomation: "@ + m@,
                    forall|i: int| 0 <= i < k ==> value_result_view(#[trigger] out@[i]) == (None::<Seq<char>>, Some(err@)),
                decreases field_count - k,
            {
                let ghost before = out@;
                out.push(FieldValueResult { value: None, error: Some(err.clone()) });
                proof {
                    assert forall|i: int| 0 <= i < k + 1 implies value_result_view(#[trigger] out@[i]) == (None::<Seq<char>>, Some(err@)) by {
                        if i < k {
                            assert(out@[i] == before[i]);
                        }
                    }
                }
                k += 1;
            }
            out
        },
    }
}

/// Whether a field is written through the Java Access Bridge: when its backend says `jab`.
pub fn writes_through_jab(backend: Option<&str>) -> (r: bool)
    ensures
        r == (opt_str_view(backend) == Some("jab"@)),
{
    match backend {
        Some(b) => chars_equal(chars_of(b).as_slice(), chars_of("jab").as_slice()),
        None => false,
    }
}

/// The annotations of a line of the Java Access Bridge dump: `editable` for elements with
/// text, `action` for those with actions, and their states when there are any.
pub open spec fn jab_annotations(has_text: bool, has_action: bool, states: Seq<char>) -> Seq<Seq<char>> {
    let a0: Seq<Seq<char>> = if has_text { seq!["editable"@] } else { Seq::empty() };
    let a1 = if has_action { a0.push("action"@) } else { a0 };
    if states.len() > 0 { a1.push("states="@ + states) } else { a1 }
}

/// One line of the Java Access Bridge dump for an element at `depth`: `[<role>] "<name>"`
/// indented (role `unknown` when empty), its description and text (each cut after 100
/// bytes) when not empty, then the annotations in brackets. The text is shown only for
/// elements that have text.
pub open spec fn jab_dump_line(
    depth: nat,
    role: Seq<char>,
    name: Seq<char>,
    description: Seq<char>,
    has_text: bool,
    text: Seq<char>,
    has_action: bool,
    states: Seq<char>,
) -> Seq<char> {
    let notes = jab_annotations(has_text, has_action, states);
    indent(depth) + "["@ + (if role.len() == 0 { "unknown"@ } else { role }) + "] \""@ + name + "\""@
        + (if description.len() > 0 { " desc=\""@ + cut_to_100(description) + "\""@ } else { Seq::empty() })
        + (if has_text && text.len() > 0 { " text=\""@ + cut_to_100(text) + "\""@ } else { Seq::empty() })
        + (if notes.len() > 0 { " ("@ + join_commas(notes) + ")"@ } else { Seq::empty() })
}

/// ` <key>"<value cut after 100 bytes>"` when shown and the value is not empty.
fn quoted_part(key: &str, value: &str, show: bool) -> (r: String)
    requires
        show && encode_utf8(value@).len() > 100 ==> is_char_boundary(encode_utf8(value@), 100),
    ensures
        r@ == (if show && value@.len() > 0 { key@ + cut_to_100(value@) + "\""@ } else { Seq::<char>::empty() }),
{
    if show && value.unicode_len() > 0 {
        let c = cut_to_100_bytes(value);
        let a = concat_strs(key, c.as_str());
        concat_strs(a.as_str(), "\"")
    } else {
        String::new()
    }
}

/// ` (<notes joined with commas>)` when there are notes.
fn notes_part(notes: &Vec<String>) -> (r: String)
    ensures
        r@ == (if notes@.len() > 0 { " ("@ + join_commas(strings_view(notes@)) + ")"@ } else { Seq::<char>::empty() }),
{
    if notes.len() > 0 {
        let j = join_comma_strings(notes);
        let js = string_from_chars(j.as_slice());
        let a = concat_strs(" (", js.as_str());
        concat_strs(a.as_str(), ")")
    } else {
        String::new()
    }
}

fn jab_line_head(depth: usize, role: &str, name: &str) -> (r: String)
    ensures
        r@ == indent(depth as nat) + "["@ + (if role@.len() == 0 { "unknown"@ } else { role@ }) + "] \""@ + name@ + "\""@,
{
    let mut out: Vec<char> = Vec::new();
    push_indent(&mut out, depth);
    push_str(&mut out, "[");
    if role.unicode_len() == 0 {
        push_str(&mut out, "unknown");
    } else {
        push_str(&mut out, role);
    }
    push_str(&mut out, "] \"");
    push_str(&mut out, name);
    push_str(&mut out, "\"");
    string_from_chars(out.as_slice())
}

fn jab_notes(has_text: bool, has_action: bool, states: &str) -> (r: Vec<String>)
    ensures
        strings_view(r@) == jab_annotations(has_text, has_action, states@),
{
    let mut notes: Vec<String> = Vec::new();
    if has_text {
        notes.push(owned("editable"));
    }
    let ghost n0 = strings_view(notes@);
    assert(n0 =~= (if has_text { seq!["editable"@] } else { Seq::<Seq<char>>::empty() }));
    if has_action {
        notes.push(owned("action"));
    }
    let ghost n1 = strings_view(notes@);
    assert(n1 =~= (if has_action { n0.push("action"@) } else { n0 }));
    if states.unicode_len() > 0 {
        notes.push(concat_strs("states=", states));
    }
    assert(strings_view(notes@) =~= jab_annotations(has_text, has_action, states@));
    notes
}

/// One line of the Java Access Bridge dump. `text` is what was read of the element's text
/// (empty when nothing could be read).
pub fn format_jab_dump_line(
    depth: usize,
    role: &str,
    name: &str,
    description: &str,
    has_text: bool,
    text: &str,
    has_action: bool,
    states: &str,
) -> (r: String)
    requires
        encode_utf8(description@).len() > 100 ==> is_char_boundary(encode_utf8(description@), 100),
        has_text && encode_utf8(text@).len() > 100 ==> is_char_boundary(encode_utf8(text@), 100),
    ensures
        r@ == jab_dump_line(depth as nat, role@, name@, description@, has_text, text@, has_action, states@),
{
    let head = jab_line_head(depth, role, name);
    let desc = quoted_part(" desc=\"", description, true);
    let txt = quoted_part(" text=\"", text, has_text);
    let notes = jab_notes(has_text, has_action, states);
    let tail = notes_part(&notes);
    let a = concat_strs(head.as_str(), desc.as_str());
    let b = concat_strs(a.as_str(), txt.as_str());
    let r = concat_strs(b.as_str(), tail.as_str());
    assert(r@ =~= jab_dump_line(depth as nat, role@, name@, description@, has_text, text@, has_action, states@));
    r
}

} // verus!
