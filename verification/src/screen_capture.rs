use vstd::prelude::*;
use crate::text::{trim, trim_string};
use crate::uia::{strings_view, join_lines, join_with_newlines};

verus! {

/// What the window list reports of one on-screen window: its owner's pid, its number and
/// its layer, each when present.
#[derive(Debug, Clone, Copy)]
pub struct WindowInfo {
    pub owner_pid: Option<i32>,
    pub window_number: Option<u32>,
    pub layer: Option<isize>,
}

/// A window of the process `pid` with a usable number.
pub open spec fn owned_window(w: WindowInfo, pid: i32) -> bool {
    w.owner_pid == Some(pid) && (match w.window_number { Some(n) => n != 0, None => false })
}

/// A window in the normal layer (a missing layer counts as the normal one).
pub open spec fn normal_layer(w: WindowInfo) -> bool {
    match w.layer { Some(l) => l == 0, None => true }
}

/// The window to capture for the frontmost process `pid`, from the on-screen windows in
/// front-to-back order: its first window in the normal layer, else its first window.
pub open spec fn frontmost_window(windows: Seq<WindowInfo>, pid: i32) -> Option<u32> {
    if exists|i: int| 0 <= i < windows.len() && owned_window(windows[i], pid) && normal_layer(windows[i]) {
        let i = choose|i: int| 0 <= i < windows.len() && owned_window(windows[i], pid) && normal_layer(windows[i])
            && forall|j: int| 0 <= j < i ==> !(owned_window(#[trigger] windows[j], pid) && normal_layer(windows[j]));
        windows[i].window_number
    } else if exists|i: int| 0 <= i < windows.len() && owned_window(windows[i], pid) {
        let i = choose|i: int| 0 <= i < windows.len() && owned_window(windows[i], pid)
            && forall|j: int| 0 <= j < i ==> !owned_window(#[trigger] windows[j], pid);
        windows[i].window_number
    } else {
        None
    }
}

/// The number of the window to capture for the frontmost process.
pub fn frontmost_window_id(windows: &Vec<WindowInfo>, pid: i32) -> (r: Option<u32>)
    ensures
        r == frontmost_window(windows@, pid),
{
    let mut fallback: Option<u32> = None;
    let ghost mut first: int = -1;
    let mut k: usize = 0;
    while k < windows.len()
        invariant
            k <= windows@.len(),
            forall|j: int| 0 <= j < k ==> !(owned_window(#[trigger] windows@[j], pid) && normal_layer(windows@[j])),
            fallback is None ==> forall|j: int| 0 <= j < k ==> !owned_window(#[trigger] windows@[j], pid),
            fallback is Some ==> 0 <= first < k && owned_window(windows@[first], pid)
                && fallback == windows@[first].window_number
                && forall|j: int| 0 <= j < first ==> !owned_window(#[trigger] windows@[j], pid),
        decreases windows@.len() - k,
    {
        let w = &windows[k];
        let owned = match (w.owner_pid, w.window_number) {
            (Some(p), Some(n)) => p == pid && n != 0,
            _ => false,
        };
        if owned {
            if fallback.is_none() {
                fallback = w.window_number;
                proof {
                    first = k as int;
                }
            }
            let normal = match w.layer {
                Some(l) => l == 0,
                None => true,
            };
            if normal {
                proof {
                    assert(owned_window(windows@[k as int], pid) && normal_layer(windows@[k as int]));
                    let c = choose|i: int| 0 <= i < windows@.len() && owned_window(windows@[i], pid) && normal_layer(windows@[i])
                        && forall|j: int| 0 <= j < i ==> !(owned_window(#[trigger] windows@[j], pid) && normal_layer(windows@[j]));
                    if c < k {
                    } else if c > k {
                        assert(!(owned_window(windows@[k as int], pid) && normal_layer(windows@[k as int])));
                    }
                }
                return w.window_number;
            }
        }
        k += 1;
    }
    proof {
        if fallback is Some {
            let c = choose|i: int| 0 <= i < windows@.len() && owned_window(windows@[i], pid)
                && forall|j: int| 0 <= j < i ==> !owned_window(#[trigger] windows@[j], pid);
            assert(owned_window(windows@[first], pid));
            if c < first {
            } else if c > first {
                assert(!owned_window(windows@[first], pid));
            }
        }
    }
    fallback
}

/// The lines that text recognition read: each top candidate trimmed, the blank ones left
/// out.
pub open spec fn recognized_lines(candidates: Seq<Option<String>>) -> Seq<Seq<char>>
    decreases candidates.len(),
{
    if candidates.len() == 0 {
        Seq::empty()
    } else {
        let rest = recognized_lines(candidates.drop_last());
        match candidates.last() {
            Some(t) => if trim(t@).len() > 0 { rest.push(trim(t@)) } else { rest },
            None => rest,
        }
    }
}

/// The text read off a captured window, from each observation's top candidate (`None`
/// where an observation had none): the lines joined with newlines, or nothing when no
/// line is left.
pub fn recognized_text(candidates: &Vec<Option<String>>) -> (r: Option<String>)
    ensures
        match r {
            Some(t) => recognized_lines(candidates@).len() > 0 && t@ == join_lines(recognized_lines(candidates@)),
            None => recognized_lines(candidates@).len() == 0,
        },
{
    let mut lines: Vec<String> = Vec::new();
    let mut k: usize = 0;
    while k < candidates.len()
        invariant
            k <= candidates@.len(),
            strings_view(lines@) == recognized_lines(candidates@.take(k as int)),
        decreases candidates@.len() - k,
    {
        proof {
            assert(candidates@.take(k + 1).drop_last() =~= candidates@.take(k as int));
        }
        match &candidates[k] {
            Some(t) => {
                let trimmed = trim_string(t.as_str());
                if trimmed.as_str().unicode_len() > 0 {
                    lines.push(trimmed);
                    assert(strings_view(lines@) =~= recognized_lines(candidates@.take(k + 1)));
                }
            },
            None => {},
        }
        k += 1;
    }
    assert(candidates@.take(candidates@.len() as int) =~= candidates@);
    if lines.len() == 0 {
        None
    } else {
        Some(join_with_newlines(&lines))
    }
}

} // verus!
