//! The layout engine: a pure function from the current window set, the
//! monitor topology and the configuration to a target rectangle per
//! window.  It never inspects the backend type and has no
//! transport-specific logic.

use crate::model::{Config, ConfigInfo, Monitor, MonitorInfo, Rect, WindowInfo, WindowRecord};
use vstd::prelude::*;

verus! {

/// Ghost view of a [`Rect`].
pub ghost struct RectInfo {
    pub x: int,
    pub y: int,
    pub width: int,
    pub height: int,
}

impl View for Rect {
    type V = RectInfo;

    open spec fn view(&self) -> RectInfo {
        RectInfo {
            x: self.x as int,
            y: self.y as int,
            width: self.width as int,
            height: self.height as int,
        }
    }
}

/// Index of the first monitor at or after `i` bearing the given name.
pub open spec fn find_monitor(mons: Seq<MonitorInfo>, name: Seq<char>, i: int) -> Option<int>
    decreases mons.len() - i when 0 <= i
{
    if i >= mons.len() {
        None
    } else if mons[i].name == name {
        Some(i)
    } else {
        find_monitor(mons, name, i + 1)
    }
}

/// A window is the primary instance exactly when a primary title is
/// configured and equals its title.
pub open spec fn is_primary(w: WindowInfo, c: ConfigInfo) -> bool {
    c.primary_character == Some(w.title)
}

/// A found monitor index, or the first monitor as the fallback.
pub open spec fn found_or_first(o: Option<int>) -> Option<int> {
    match o {
        Some(i) => Some(i),
        None => Some(0),
    }
}

/// The monitor a window is placed on: the primary instance prefers the
/// configured primary monitor, every other window the monitor already
/// hosting it, each falling back to the first monitor of a non-empty
/// topology; an empty topology places nothing.
pub open spec fn target_monitor(w: WindowInfo, mons: Seq<MonitorInfo>, c: ConfigInfo) -> Option<
    int,
> {
    if mons.len() == 0 {
        None
    } else if is_primary(w, c) {
        match c.primary_monitor {
            Some(name) => found_or_first(find_monitor(mons, name, 0)),
            None => Some(0),
        }
    } else {
        match w.monitor {
            Some(name) => found_or_first(find_monitor(mons, name, 0)),
            None => Some(0),
        }
    }
}

/// Subtraction floored at zero, as heights are reduced by the panel
/// reservation.
pub open spec fn sat_sub(a: int, b: int) -> int {
    if b <= a {
        a - b
    } else {
        0
    }
}

/// The target rectangle of one window.  On a monitor: the whole monitor
/// in stacked mode, a horizontally centered region of the target width
/// in centered mode, the height in both modes the monitor height minus
/// the panel reservation, floored at zero.  With no topology: the
/// global fallback dimensions, centered horizontally at the top of the
/// display.
pub open spec fn place_rect(w: WindowInfo, mons: Seq<MonitorInfo>, c: ConfigInfo) -> RectInfo {
    match target_monitor(w, mons, c) {
        Some(i) => {
            let m = mons[i];
            if c.fullscreen_stack {
                RectInfo { x: m.x, y: m.y, width: m.width, height: sat_sub(m.height, c.panel_height) }
            } else {
                let ew = if c.eve_width <= m.width {
                    c.eve_width
                } else {
                    m.width
                };
                RectInfo {
                    x: m.x + (m.width - ew) / 2,
                    y: m.y,
                    width: ew,
                    height: sat_sub(m.height, c.panel_height),
                }
            }
        },
        None => RectInfo {
            x: (c.display_width - c.eve_width) / 2,
            y: 0,
            width: c.eve_width,
            height: c.display_height - c.panel_height,
        },
    }
}

/// The placements of a whole window list, in enumeration order.
pub open spec fn placements(ws: Seq<WindowInfo>, mons: Seq<MonitorInfo>, c: ConfigInfo) -> Seq<
    (u64, RectInfo),
> {
    Seq::new(ws.len(), |i: int| (ws[i].id, place_rect(ws[i], mons, c)))
}

pub proof fn lemma_find_monitor_props(mons: Seq<MonitorInfo>, name: Seq<char>, i: int)
    requires
        0 <= i <= mons.len(),
    ensures
        match find_monitor(mons, name, i) {
            Some(j) => i <= j < mons.len() && mons[j].name == name && forall|k: int|
                i <= k < j ==> (#[trigger] mons[k]).name != name,
            None => forall|k: int| i <= k < mons.len() ==> (#[trigger] mons[k]).name != name,
        },
    decreases mons.len() - i,
{
    if i < mons.len() && mons[i].name != name {
        lemma_find_monitor_props(mons, name, i + 1);
    }
}

/// Finds the first monitor with the given name.
fn find_monitor_exec(monitors: &Vec<Monitor>, name: &String) -> (r: Option<usize>)
    ensures
        match r {
            Some(j) => j < monitors@.len() && find_monitor(monitors.deep_view(), name@, 0) == Some(
                j as int,
            ),
            None => find_monitor(monitors.deep_view(), name@, 0) is None,
        },
{
    let ghost mons = monitors.deep_view();
    let mut i: usize = 0;
    while i < monitors.len()
        invariant
            i <= monitors@.len(),
            mons == monitors.deep_view(),
            find_monitor(mons, name@, 0) == find_monitor(mons, name@, i as int),
        decreases monitors@.len() - i,
    {
        if crate::text::str_eq(monitors[i].name.as_str(), name.as_str()) {
            return Some(i);
        }
        i += 1;
    }
    None
}

/// The index of the monitor the window is placed on, under the target
/// policy.
fn target_monitor_exec(w: &WindowRecord, monitors: &Vec<Monitor>, c: &Config) -> (r: Option<usize>)
    ensures
        match r {
            Some(j) => j < monitors@.len() && target_monitor(w@, monitors.deep_view(), c@) == Some(
                j as int,
            ),
            None => target_monitor(w@, monitors.deep_view(), c@) is None,
        },
{
    if monitors.len() == 0 {
        return None;
    }
    let primary = match &c.primary_character {
        Some(name) => crate::text::str_eq(w.title.as_str(), name.as_str()),
        None => false,
    };
    let preferred: &Option<String> = if primary {
        &c.primary_monitor
    } else {
        &w.monitor
    };
    match preferred {
        Some(name) => {
            match find_monitor_exec(monitors, name) {
                Some(j) => Some(j),
                None => Some(0),
            }
        },
        None => Some(0),
    }
}

/// Computes the target rectangle of one window.
pub fn place_window(w: &WindowRecord, monitors: &Vec<Monitor>, c: &Config) -> (r: Rect)
    requires
        c@.wf(),
        forall|j: int| 0 <= j < monitors@.len() ==> (#[trigger] monitors.deep_view()[j]).wf(),
    ensures
        r@ == place_rect(w@, monitors.deep_view(), c@),
{
    match target_monitor_exec(w, monitors, c) {
        Some(j) => {
            let m = &monitors[j];
            proof {
                assert(monitors.deep_view()[j as int].wf());
            }
            let height = m.height.saturating_sub(c.panel_height);
            if c.fullscreen_stack {
                Rect { x: m.x, y: m.y, width: m.width, height }
            } else {
                let ew = if c.eve_width <= m.width {
                    c.eve_width
                } else {
                    m.width
                };
                let off = (m.width - ew) / 2;
                proof {
                    assert(off <= m.width - ew) by {
                        assert((m.width - ew) / 2 <= m.width - ew);
                    }
                }
                Rect { x: m.x + off as i32, y: m.y, width: ew, height }
            }
        },
        None => {
            let x = ((c.display_width - c.eve_width) / 2) as i32;
            let height = c.display_height - c.panel_height;
            Rect { x, y: 0, width: c.eve_width, height }
        },
    }
}

/// Computes the target rectangle of every window of the list, keyed by
/// canonical identifier, in enumeration order.  A pure function of its
/// three inputs: it mutates none of them.
pub fn compute_placements(windows: &Vec<WindowRecord>, monitors: &Vec<Monitor>, c: &Config) -> (r:
    Vec<(u64, Rect)>)
    requires
        c@.wf(),
        forall|j: int| 0 <= j < monitors@.len() ==> (#[trigger] monitors.deep_view()[j]).wf(),
    ensures
        r@.len() == windows@.len(),
        forall|i: int|
            0 <= i < r@.len() ==> (#[trigger] r@[i]).0 == placements(
                windows.deep_view(),
                monitors.deep_view(),
                c@,
            )[i].0 && r@[i].1@ == placements(windows.deep_view(), monitors.deep_view(), c@)[i].1,
{
    let mut r: Vec<(u64, Rect)> = Vec::new();
    let mut i: usize = 0;
    let ghost ws = windows.deep_view();
    let ghost mons = monitors.deep_view();
    while i < windows.len()
        invariant
            i <= windows@.len(),
            r@.len() == i,
            ws == windows.deep_view(),
            mons == monitors.deep_view(),
            c@.wf(),
            forall|j: int| 0 <= j < mons.len() ==> (#[trigger] mons[j]).wf(),
            forall|k: int|
                0 <= k < i ==> (#[trigger] r@[k]).0 == ws[k].id && r@[k].1@ == place_rect(
                    ws[k],
                    mons,
                    c@,
                ),
        decreases windows@.len() - i,
    {
        let w = &windows[i];
        let rect = place_window(w, monitors, c);
        r.push((w.id, rect));
        i += 1;
    }
    r
}

/// The layout computation is deterministic: any two outputs that meet
/// its contract on identical inputs are identical.
pub proof fn lemma_placements_deterministic(
    ws: Seq<WindowInfo>,
    mons: Seq<MonitorInfo>,
    c: ConfigInfo,
    r1: Seq<(u64, RectInfo)>,
    r2: Seq<(u64, RectInfo)>,
)
    requires
        r1.len() == ws.len(),
        r2.len() == ws.len(),
        forall|i: int| 0 <= i < r1.len() ==> #[trigger] r1[i] == placements(ws, mons, c)[i],
        forall|i: int| 0 <= i < r2.len() ==> #[trigger] r2[i] == placements(ws, mons, c)[i],
    ensures
        r1 == r2,
{
    assert(r1 =~= r2);
}

/// In stacked mode the computed height is always the monitor height
/// minus the panel reservation, floored at zero — never negative, for
/// any panel reservation.
pub proof fn lemma_stacked_height(w: WindowInfo, mons: Seq<MonitorInfo>, c: ConfigInfo, i: int)
    requires
        c.fullscreen_stack,
        0 <= c.panel_height,
        target_monitor(w, mons, c) == Some(i),
        0 <= i < mons.len(),
    ensures
        place_rect(w, mons, c).height == sat_sub(mons[i].height, c.panel_height),
        c.panel_height <= mons[i].height ==> place_rect(w, mons, c).height == mons[i].height
            - c.panel_height,
        place_rect(w, mons, c).height >= 0,
{
}

/// In centered mode the horizontal placement always lies within the
/// target monitor: the computed origin is at or right of the monitor's
/// origin and the computed right edge at or left of the monitor's.
pub proof fn lemma_centered_within_bounds(w: WindowInfo, mons: Seq<MonitorInfo>, c: ConfigInfo, i: int)
    requires
        !c.fullscreen_stack,
        0 <= c.eve_width,
        target_monitor(w, mons, c) == Some(i),
        0 <= i < mons.len(),
        mons[i].wf(),
    ensures
        mons[i].x <= place_rect(w, mons, c).x,
        place_rect(w, mons, c).x + place_rect(w, mons, c).width <= mons[i].x + mons[i].width,
{
    let m = mons[i];
    let ew = if c.eve_width <= m.width {
        c.eve_width
    } else {
        m.width
    };
    let d = m.width - ew;
    assert(0 <= d / 2 <= d);
}

} // verus!
