use vstd::prelude::*;
use crate::text::{chars_of, chars_equal, string_from_chars, trim, trim_chars, owned, concat_strs};

verus! {

/// The size the pill window takes.
#[derive(Debug, Clone, Copy, PartialEq, Eq, Structural)]
pub enum WindowMode {
    Dictation,
    AssistantCompact,
    AssistantExpanded,
    AssistantTyping,
}

/// The window size, width and height, of each mode.
#[derive(Debug, Clone, Copy)]
pub struct WindowSizes {
    pub dictation: (i32, i32),
    pub compact: (i32, i32),
    pub expanded: (i32, i32),
    pub typing: (i32, i32),
}

/// The mode that a window-size message names; anything unknown is dictation.
pub open spec fn mode_named(s: Seq<char>) -> WindowMode {
    if s == "assistant_compact"@ {
        WindowMode::AssistantCompact
    } else if s == "assistant_expanded"@ {
        WindowMode::AssistantExpanded
    } else if s == "assistant_typing"@ {
        WindowMode::AssistantTyping
    } else {
        WindowMode::Dictation
    }
}

fn is_literal(v: &Vec<char>, lit: &str) -> (r: bool)
    ensures
        r == (v@ == lit@),
{
    let l = chars_of(lit);
    chars_equal(v.as_slice(), l.as_slice())
}

impl WindowMode {
    /// The mode that a window-size message names.
    pub fn from_str(s: &str) -> (r: WindowMode)
        ensures
            r == mode_named(s@),
    {
        let v = chars_of(s);
        if is_literal(&v, "assistant_compact") {
            WindowMode::AssistantCompact
        } else if is_literal(&v, "assistant_expanded") {
            WindowMode::AssistantExpanded
        } else if is_literal(&v, "assistant_typing") {
            WindowMode::AssistantTyping
        } else {
            WindowMode::Dictation
        }
    }

    /// The width and height of the window in this mode.
    pub fn dimensions(&self, sizes: &WindowSizes) -> (r: (i32, i32))
        ensures
            r == (match *self {
                WindowMode::Dictation => sizes.dictation,
                WindowMode::AssistantCompact => sizes.compact,
                WindowMode::AssistantExpanded => sizes.expanded,
                WindowMode::AssistantTyping => sizes.typing,
            }),
    {
        match self {
            WindowMode::Dictation => sizes.dictation,
            WindowMode::AssistantCompact => sizes.compact,
            WindowMode::AssistantExpanded => sizes.expanded,
            WindowMode::AssistantTyping => sizes.typing,
        }
    }
}

/// A space or a tab, as UTF-16 units.
pub open spec fn is_blank_unit(u: u16) -> bool {
    u == 32 || u == 9
}

/// Moving back from `pos` over spaces and tabs.
pub open spec fn skip_blanks_back(buf: Seq<u16>, pos: int) -> int
    decreases pos,
{
    if pos > 0 && is_blank_unit(buf[pos - 1]) {
        skip_blanks_back(buf, pos - 1)
    } else {
        pos
    }
}

/// Moving back from `pos` over everything but spaces and tabs.
pub open spec fn skip_word_back(buf: Seq<u16>, pos: int) -> int
    decreases pos,
{
    if pos > 0 && !is_blank_unit(buf[pos - 1]) {
        skip_word_back(buf, pos - 1)
    } else {
        pos
    }
}

/// Where the word before the caret starts: back over the blanks before the caret, then
/// back over the word.
pub open spec fn word_start(buf: Seq<u16>, caret: int, len: int) -> int {
    skip_word_back(buf, skip_blanks_back(buf, if caret < len { caret } else { len }))
}

/// The range that Ctrl+Backspace deletes in the entry field, from the caret position and
/// the text as UTF-16 units (`len` of them, in `buf`): from the start of the word before
/// the caret to the caret. Nothing is deleted at the start of the field or when it is empty.
pub fn ctrl_backspace_range(buf: &[u16], caret: usize, len: usize) -> (r: Option<(usize, usize)>)
    requires
        len <= buf@.len(),
    ensures
        match r {
            None => caret == 0 || len == 0,
            Some((start, end)) => caret > 0 && len > 0 && end == caret
                && start == word_start(buf@, caret as int, len as int),
        },
{
    if caret == 0 || len == 0 {
        return None;
    }
    let mut pos: usize = if caret < len { caret } else { len };
    let ghost p0 = pos as int;
    while pos > 0 && (buf[pos - 1] == 32u16 || buf[pos - 1] == 9u16)
        invariant
            pos <= len <= buf@.len(),
            skip_blanks_back(buf@, pos as int) == skip_blanks_back(buf@, p0),
        decreases pos,
    {
        pos -= 1;
    }
    let ghost p1 = pos as int;
    assert(skip_blanks_back(buf@, p0) == p1);
    while pos > 0 && buf[pos - 1] != 32u16 && buf[pos - 1] != 9u16
        invariant
            pos <= len <= buf@.len(),
            skip_word_back(buf@, pos as int) == skip_word_back(buf@, p1),
        decreases pos,
    {
        pos -= 1;
    }
    Some((pos, caret))
}

/// A control character, general category Cc: U+0000 to U+001F and U+007F to U+009F, as
/// `char::is_control` documents it.
pub open spec fn is_control(c: char) -> bool {
    (c as u32) <= 0x1f || (0x7f <= (c as u32) && (c as u32) <= 0x9f)
}

pub fn is_control_char(c: char) -> (r: bool)
    ensures
        r == is_control(c),
{
    let u = c as u32;
    u <= 0x1f || (0x7f <= u && u <= 0x9f)
}

/// What pressing Enter in the entry field sends: the text trimmed, unless it is blank.
pub fn submitted_text(entry: &str) -> (r: Option<String>)
    ensures
        match r {
            Some(t) => trim(entry@).len() > 0 && t@ == trim(entry@),
            None => trim(entry@).len() == 0,
        },
{
    let t = trim_chars(chars_of(entry).as_slice());
    if t.len() > 0 {
        Some(string_from_chars(t.as_slice()))
    } else {
        None
    }
}

/// The entry field's text after a typed character, and the message it sends if any:
/// Enter sends the trimmed text and clears the field (a blank text is kept and nothing is
/// sent); Backspace removes the last character; other control characters are ignored;
/// anything else is appended.
pub open spec fn after_typed(text: Seq<char>, ch: char) -> (Seq<char>, Option<Seq<char>>) {
    if ch == '\r' || ch == '\n' {
        if trim(text).len() > 0 {
            (Seq::empty(), Some(trim(text)))
        } else {
            (text, None)
        }
    } else if ch == '\u{8}' {
        (if text.len() > 0 { text.drop_last() } else { text }, None)
    } else if !is_control(ch) {
        (text.push(ch), None)
    } else {
        (text, None)
    }
}

/// The entry field's text after the character `ch` is typed, and the message sent.
pub fn type_into_entry(text: &str, ch: char) -> (r: (String, Option<String>))
    ensures
        r.0@ == after_typed(text@, ch).0,
        match r.1 {
            Some(m) => after_typed(text@, ch).1 == Some(m@),
            None => after_typed(text@, ch).1 is None,
        },
{
    let v = chars_of(text);
    if ch == '\r' || ch == '\n' {
        match submitted_text(text) {
            Some(m) => (String::new(), Some(m)),
            None => (string_from_chars(v.as_slice()), None),
        }
    } else if ch == '\u{8}' {
        if v.len() > 0 {
            let mut w = v;
            w.pop();
            (string_from_chars(w.as_slice()), None)
        } else {
            (string_from_chars(v.as_slice()), None)
        }
    } else if !is_control_char(ch) {
        let mut w = v;
        w.push(ch);
        (string_from_chars(w.as_slice()), None)
    } else {
        (string_from_chars(v.as_slice()), None)
    }
}

/// The line shown for a tool call: `Used <name>` once done, `Using <name>…` while it runs.
pub fn tool_call_label(name: &str, done: bool) -> (r: String)
    ensures
        r@ == (if done { "Used "@ + name@ } else { "Using "@ + name@ + "\u{2026}"@ }),
{
    if done {
        concat_strs("Used ", name)
    } else {
        let a = concat_strs("Using ", name);
        concat_strs(a.as_str(), "\u{2026}")
    }
}

/// The line shown for a tool result: the tool's description, else its name, else `Tool`,
/// followed by ` — <reason>` when a reason is given.
pub open spec fn tool_result_text(description: Option<Seq<char>>, name: Option<Seq<char>>, reason: Option<Seq<char>>) -> Seq<char> {
    let tool = match description {
        Some(d) => d,
        None => match name {
            Some(n) => n,
            None => "Tool"@,
        },
    };
    let why = match reason {
        Some(r) => r,
        None => ""@,
    };
    if why.len() == 0 {
        tool
    } else {
        tool + " \u{2014} "@ + why
    }
}

pub open spec fn opt_view(o: Option<&str>) -> Option<Seq<char>> {
    match o {
        Some(s) => Some(s@),
        None => None,
    }
}

/// The line shown for a tool result.
pub fn tool_result_label(description: Option<&str>, name: Option<&str>, reason: Option<&str>) -> (r: String)
    ensures
        r@ == tool_result_text(opt_view(description), opt_view(name), opt_view(reason)),
{
    let tool: &str = match description {
        Some(d) => d,
        None => match name {
            Some(n) => n,
            None => "Tool",
        },
    };
    let why: &str = match reason {
        Some(r) => r,
        None => "",
    };
    proof {
        reveal_strlit("");
    }
    if why.unicode_len() == 0 {
        owned(tool)
    } else {
        let a = concat_strs(tool, " \u{2014} ");
        concat_strs(a.as_str(), why)
    }
}

/// The label under a reasoning block: `Thinking…` while it streams, else `Thought process`.
pub fn reasoning_label(is_streaming: bool) -> (r: &'static str)
    ensures
        r@ == (if is_streaming { "Thinking\u{2026}"@ } else { "Thought process"@ }),
{
    if is_streaming {
        "Thinking\u{2026}"
    } else {
        "Thought process"
    }
}

/// When the pill is shown.
#[derive(Debug, Clone, Copy, PartialEq, Eq, Structural)]
pub enum Visibility {
    Hidden,
    WhileActive,
    Persistent,
}

/// Whether the pill window is shown: always when persistent; while dictating or while the
/// assistant is open when shown while active; only for the assistant when hidden.
pub fn should_show(visibility: Visibility, phase_active: bool, assistant_active: bool) -> (r: bool)
    ensures
        r == (match visibility {
            Visibility::Hidden => assistant_active,
            Visibility::WhileActive => phase_active || assistant_active,
            Visibility::Persistent => true,
        }),
{
    match visibility {
        Visibility::Hidden => assistant_active,
        Visibility::WhileActive => phase_active || assistant_active,
        Visibility::Persistent => true,
    }
}

/// Whether the assistant takes typed input: it is open in the `type` input mode.
pub fn is_typing_mode(assistant_active: bool, input_mode: &str) -> (r: bool)
    ensures
        r == (assistant_active && input_mode@ == "type"@),
{
    assistant_active && is_literal(&chars_of(input_mode), "type")
}

/// What the typing focus does when the typing mode changes: focus the entry field when
/// typing starts, clear it when typing ends, nothing otherwise.
#[derive(Debug, Clone, Copy, PartialEq, Eq, Structural)]
pub enum TypingFocusChange {
    Focus,
    Clear,
    Keep,
}

pub fn typing_focus_change(was_typing: bool, is_typing: bool) -> (r: TypingFocusChange)
    ensures
        r == (if is_typing && !was_typing {
            TypingFocusChange::Focus
        } else if !is_typing && was_typing {
            TypingFocusChange::Clear
        } else {
            TypingFocusChange::Keep
        }),
{
    if is_typing && !was_typing {
        TypingFocusChange::Focus
    } else if !is_typing && was_typing {
        TypingFocusChange::Clear
    } else {
        TypingFocusChange::Keep
    }
}

/// Whether a toast shows as an error: its type is `error`.
pub fn toast_is_error(toast_type: Option<&str>) -> (r: bool)
    ensures
        r == (match toast_type { Some(t) => t@ == "error"@, None => false }),
{
    match toast_type {
        Some(t) => is_literal(&chars_of(t), "error"),
        None => false,
    }
}

/// Whether the transcript sticks to its bottom, scrolled back to the start: when the
/// assistant opens.
pub fn sticks_on_open(was_active: bool, active: bool) -> (r: bool)
    ensures
        r == (active && !was_active),
{
    active && !was_active
}

/// Whether the audio levels and wave reset: when dictation goes idle.
pub fn resets_levels(previous_phase_idle: bool, phase_idle: bool) -> (r: bool)
    ensures
        r == (phase_idle && !previous_phase_idle),
{
    phase_idle && !previous_phase_idle
}

} // verus!
