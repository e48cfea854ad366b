//! Scroll state and window computation for the dual-pane disassembly viewer.

use vstd::prelude::*;

verus! {

/// A key press, as the viewer's state machine sees it. `fast` marks the
/// accelerator modifier that scrolls ten lines at a time.
#[derive(Clone, Copy, Debug, PartialEq, Eq, Structural)]
pub enum KeyInput {
    Up { fast: bool },
    Down { fast: bool },
    Quit,
    Other,
}

/// The viewer's state: how far the panes are scrolled down.
#[derive(Clone, Copy, Debug, PartialEq, Eq, Structural)]
pub struct App {
    pub scroll: u64,
}

/// The scroll offset after one key press: down moves one line, or ten with the
/// accelerator, saturating at the top of the range; up moves ten only when at
/// least ten lines down, else one, and never below zero.
pub open spec fn spec_scroll_after(s: u64, key: KeyInput) -> u64 {
    match key {
        KeyInput::Up { fast } => if s == 0 {
            s
        } else if fast && s >= 10 {
            (s - 10) as u64
        } else {
            (s - 1) as u64
        },
        KeyInput::Down { fast } => {
            let step: u64 = if fast { 10 } else { 1 };
            if s <= u64::MAX - step {
                (s + step) as u64
            } else {
                u64::MAX
            }
        },
        _ => s,
    }
}

impl App {
    /// A viewer that starts at the top.
    pub fn new() -> (r: Self)
        ensures
            r.scroll == 0,
    {
        App { scroll: 0 }
    }

    /// Feeds one key press to the state machine; returns whether the viewer
    /// should quit.
    pub fn handle_key(&mut self, key: KeyInput) -> (quit: bool)
        ensures
            quit == (key is Quit),
            final(self).scroll == spec_scroll_after(old(self).scroll, key),
    {
        match key {
            KeyInput::Up { fast } => {
                if self.scroll > 0 {
                    let step: u64 = if fast && self.scroll >= 10 {
                        10
                    } else {
                        1
                    };
                    self.scroll = self.scroll - step;
                }
                false
            },
            KeyInput::Down { fast } => {
                let step: u64 = if fast {
                    10
                } else {
                    1
                };
                if self.scroll <= u64::MAX - step {
                    self.scroll = self.scroll + step;
                } else {
                    self.scroll = u64::MAX;
                }
                false
            },
            KeyInput::Quit => true,
            KeyInput::Other => false,
        }
    }
}

/// First visible line of a pane of `total` lines under a viewport of `height`
/// lines: the scroll offset, clamped so the window never runs past the end.
pub open spec fn spec_window_start(scroll: u64, total: int, height: int) -> int {
    if total <= height {
        0
    } else if scroll <= total - height {
        scroll as int
    } else {
        total - height
    }
}

/// Number of visible lines: the whole pane when it fits, else the viewport.
pub open spec fn spec_window_len(total: int, height: int) -> int {
    if total <= height {
        total
    } else {
        height
    }
}

/// The visible window `[start, start + len)` of a pane of `total` lines under
/// a viewport of `height` lines.
pub fn visible_range(scroll: u64, total: usize, height: usize) -> (r: (usize, usize))
    ensures
        r.0 == spec_window_start(scroll, total as int, height as int),
        r.1 == spec_window_len(total as int, height as int),
        r.0 + r.1 <= total,
        total >= height ==> r.1 == height,
{
    if total <= height {
        (0, total)
    } else {
        let max_start = total - height;
        let start = if scroll <= max_start as u64 {
            scroll as usize
        } else {
            max_start
        };
        (start, height)
    }
}

/// The visible slice of a pane, cloned out of the full line sequence.
pub fn window_lines(lines: &Vec<String>, scroll: u64, height: usize) -> (r: Vec<String>)
    ensures
        r@.len() == spec_window_len(lines@.len() as int, height as int),
        forall|m: int|
            0 <= m < r@.len() ==> r@[m]@ == lines@[spec_window_start(
                scroll,
                lines@.len() as int,
                height as int,
            ) + m]@,
{
    let (start, len) = visible_range(scroll, lines.len(), height);
    let mut out: Vec<String> = Vec::new();
    let mut m: usize = 0;
    while m < len
        invariant
            start + len <= lines.len(),
            start == spec_window_start(scroll, lines@.len() as int, height as int),
            len == spec_window_len(lines@.len() as int, height as int),
            m <= len,
            out@.len() == m,
            forall|q: int| 0 <= q < m ==> out@[q]@ == lines@[start + q]@,
        decreases len - m,
    {
        out.push(lines[start + m].clone());
        m += 1;
    }
    out
}

/// The visible window always lies within the pane — scrolling past the end
/// cannot produce an out-of-range slice — and it fills the whole viewport as
/// soon as the pane holds at least a viewport of lines.
pub proof fn lemma_window_in_bounds(scroll: u64, total: int, height: int)
    requires
        0 <= total,
        0 <= height,
    ensures
        0 <= spec_window_start(scroll, total, height),
        spec_window_start(scroll, total, height) + spec_window_len(total, height) <= total,
        total >= height ==> spec_window_len(total, height) == height,
{
}

/// An upward scroll at the very top leaves the offset at the top: no underflow.
pub proof fn lemma_scroll_up_at_top(fast: bool)
    ensures
        spec_scroll_after(0, KeyInput::Up { fast }) == 0,
{
}

} // verus!
