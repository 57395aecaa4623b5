//! The preview pane beside a section list: when it is kept, rebuilt or dropped, and when
//! its detail fetch goes out (once the cursor has rested on a row).
use vstd::prelude::*;

use crate::text::str_eq;

verus! {

/// Anim ticks the cursor has to rest on a row before the preview fetches its detail, so
/// holding ↓ through a list doesn't fire provider calls for every row passed.
pub const PREVIEW_SETTLE_TICKS: u8 = 2;

/// Where the preview's detail fetch stands.
#[derive(Debug, Clone, Copy, PartialEq, Eq, Structural)]
pub struct PreviewFetch {
    /// The fetch has gone out since the preview was built (or last marked for resend).
    pub sent: bool,
    /// Anim ticks since the cursor landed on this row.
    pub ticks: u8,
}

/// What a tick of the anim timer does to the fetch: an unsent fetch counts the tick and
/// goes out once the cursor has rested `PREVIEW_SETTLE_TICKS` ticks.
pub open spec fn ticked_fetch(f: PreviewFetch) -> (PreviewFetch, bool) {
    if f.sent {
        (f, false)
    } else {
        let t = if f.ticks == u8::MAX {
            u8::MAX
        } else {
            (f.ticks + 1) as u8
        };
        if t < PREVIEW_SETTLE_TICKS {
            (PreviewFetch { sent: false, ticks: t }, false)
        } else {
            (PreviewFetch { sent: true, ticks: t }, true)
        }
    }
}

impl PreviewFetch {
    /// A preview just built: nothing sent, no ticks yet.
    pub fn new() -> (r: PreviewFetch)
        ensures
            r == (PreviewFetch { sent: false, ticks: 0 }),
    {
        PreviewFetch { sent: false, ticks: 0 }
    }

    /// A tick of the anim timer; answers whether the detail fetch goes out now.
    pub fn tick(&mut self) -> (send: bool)
        ensures
            (*final(self), send) == ticked_fetch(*old(self)),
    {
        if self.sent {
            return false;
        }
        self.ticks = if self.ticks == u8::MAX {
            u8::MAX
        } else {
            self.ticks + 1
        };
        if self.ticks < PREVIEW_SETTLE_TICKS {
            return false;
        }
        self.sent = true;
        true
    }

    /// After a refresh of a pipeline row: its run is live, so the detail is asked again at
    /// the next tick.
    pub fn resend(&mut self)
        ensures
            *final(self) == (PreviewFetch { sent: false, ticks: PREVIEW_SETTLE_TICKS }),
    {
        self.sent = false;
        self.ticks = PREVIEW_SETTLE_TICKS;
    }
}

/// A fresh preview's fetch goes out on its `PREVIEW_SETTLE_TICKS`-th tick and not before,
/// and once sent, no later tick sends it again.
pub proof fn lemma_preview_fetch_once(f0: PreviewFetch)
    requires
        f0 == (PreviewFetch { sent: false, ticks: 0 }),
    ensures
        !ticked_fetch(f0).1,
        ticked_fetch(ticked_fetch(f0).0).1,
        !ticked_fetch(ticked_fetch(ticked_fetch(f0).0).0).1,
{
}

/// What becomes of the preview as the screen settles.
#[derive(Debug, Clone, Copy, PartialEq, Eq, Structural)]
pub enum PreviewPlan {
    /// No preview: not on a section list, the pane is off or doesn't fit, or no row.
    Drop,
    /// The preview already shows the selected row.
    Keep,
    /// Build it afresh for the selected row (no fetch until it settles).
    Rebuild,
}

/// The plan for the preview: dropped anywhere but a section list that shows the pane with
/// a row selected; kept while it shows that row of the active section; rebuilt otherwise.
pub open spec fn preview_plan_of(
    on_list: bool,
    shown: bool,
    row_key: Option<Seq<char>>,
    current: Option<(usize, Seq<char>)>,
    active: usize,
) -> PreviewPlan {
    if !on_list || !shown {
        PreviewPlan::Drop
    } else {
        match row_key {
            None => PreviewPlan::Drop,
            Some(k) => match current {
                Some(c) => if c.0 == active && c.1 == k {
                    PreviewPlan::Keep
                } else {
                    PreviewPlan::Rebuild
                },
                None => PreviewPlan::Rebuild,
            },
        }
    }
}

pub open spec fn key_view(k: Option<String>) -> Option<Seq<char>> {
    match k {
        Some(s) => Some(s@),
        None => None,
    }
}

pub open spec fn current_view(c: Option<(usize, String)>) -> Option<(usize, Seq<char>)> {
    match c {
        Some(p) => Some((p.0, p.1@)),
        None => None,
    }
}

/// Brings the preview in line with the screen (see `preview_plan_of`): `row_key` is the
/// detail key of the selected row, `current` the section and key the preview shows.
pub fn preview_plan(
    on_list: bool,
    shown: bool,
    row_key: &Option<String>,
    current: &Option<(usize, String)>,
    active: usize,
) -> (r: PreviewPlan)
    ensures
        r == preview_plan_of(on_list, shown, key_view(*row_key), current_view(*current), active),
{
    if !on_list || !shown {
        return PreviewPlan::Drop;
    }
    match row_key {
        None => PreviewPlan::Drop,
        Some(k) => match current {
            Some(c) => if c.0 == active && str_eq(c.1.as_str(), k.as_str()) {
                PreviewPlan::Keep
            } else {
                PreviewPlan::Rebuild
            },
            None => PreviewPlan::Rebuild,
        },
    }
}


/// What the preview pane makes of a key.
#[derive(Debug)]
pub enum PreviewKey {
    /// Not the pane's key: the screen gets it.
    Pass,
    /// Taken, nothing more to do.
    Stay,
    /// Move the preview's view into the screen, still beside the list.
    Focus,
    /// Hand the focused view back to the pane as it is.
    HandBack,
    /// Switch the pane off or on for the section.
    TogglePane,
    /// Taken; say this in the status line.
    Toast(&'static str),
}

pub open spec fn lit_pane_off() -> Seq<char> {
    "The preview is off here. P turns it on."@
}

pub open spec fn lit_too_narrow() -> Seq<char> {
    "The preview needs a terminal at least 140 columns wide."@
}

/// The pane's reading of a key (see `preview_key`).
pub open spec fn preview_key_of(
    key: crate::keys::Key,
    on_list: bool,
    focused: bool,
    has_preview: bool,
    head_selected: bool,
    hidden_here: bool,
    wide_enough: bool,
) -> Option<PreviewKey> {
    if key == crate::keys::Key::Enter && on_list && has_preview && !head_selected {
        Some(PreviewKey::Focus)
    } else if key == crate::keys::Key::Char('p') && on_list {
        if has_preview {
            Some(PreviewKey::Focus)
        } else if hidden_here {
            None
        } else if !wide_enough {
            None
        } else {
            Some(PreviewKey::Stay)
        }
    } else if key == crate::keys::Key::Char('p') && focused {
        Some(PreviewKey::HandBack)
    } else if key == crate::keys::Key::Char('P') && (on_list || focused) {
        Some(PreviewKey::TogglePane)
    } else {
        Some(PreviewKey::Pass)
    }
}

/// Keys the preview pane answers before the screen: Enter on a run row (not a group
/// header) or `p` focuses the pane, `p` in a focused view hands it back, `P` switches the
/// pane for the section. A `p` with no pane says why: switched off here, or a terminal
/// narrower than `PREVIEW_MIN_WIDTH`.
pub fn preview_key(
    key: crate::keys::Key,
    on_list: bool,
    focused: bool,
    has_preview: bool,
    head_selected: bool,
    hidden_here: bool,
    content_w: u16,
) -> (r: PreviewKey)
    ensures
        ({
            let wide = content_w >= crate::tabs::PREVIEW_MIN_WIDTH;
            match preview_key_of(key, on_list, focused, has_preview, head_selected, hidden_here, wide) {
                Some(k) => r == k,
                None => if hidden_here {
                    r matches PreviewKey::Toast(t) && t@ == lit_pane_off()
                } else {
                    r matches PreviewKey::Toast(t) && t@ == lit_too_narrow()
                },
            }
        }),
{
    if key == crate::keys::Key::Enter && on_list && has_preview && !head_selected {
        return PreviewKey::Focus;
    }
    if key == crate::keys::Key::Char('p') && on_list {
        if has_preview {
            return PreviewKey::Focus;
        } else if hidden_here {
            return PreviewKey::Toast("The preview is off here. P turns it on.");
        } else if content_w < crate::tabs::PREVIEW_MIN_WIDTH {
            return PreviewKey::Toast("The preview needs a terminal at least 140 columns wide.");
        }
        return PreviewKey::Stay;
    }
    if key == crate::keys::Key::Char('p') && focused {
        return PreviewKey::HandBack;
    }
    if key == crate::keys::Key::Char('P') && (on_list || focused) {
        return PreviewKey::TogglePane;
    }
    PreviewKey::Pass
}

} // verus!
