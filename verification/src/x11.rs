//! The direct wire-protocol backend's pure logic: filtering raw
//! window properties into application windows, assigning each window
//! a monitor from the center of its geometry, and reading the focus
//! query's reply.  Identifiers on this transport are 32-bit wire
//! values, widened losslessly into the canonical 64-bit space.

use crate::codec::valid_window_id;
use crate::filter::{is_app_title, is_app_window, stored_title, strip_app_prefix};
use crate::model::{Monitor, MonitorInfo, WindowInfo, WindowRecord};
use crate::text::str_eq;
use crate::topology::{center_coord, center_of, locate, locate_spec};
use vstd::prelude::*;

verus! {

/// A window's geometry as the protocol reports it.
#[derive(Clone, Copy, PartialEq, Eq, Structural, Debug)]
pub struct Geometry {
    pub x: i32,
    pub y: i32,
    pub width: u32,
    pub height: u32,
}

/// One window as the wire protocol reports it: the 32-bit identifier,
/// the title property, and the geometry where it could be fetched.
pub struct RawX11Window {
    pub id: u32,
    pub title: String,
    pub geometry: Option<Geometry>,
}

/// Ghost view of a [`RawX11Window`].
pub ghost struct RawX11Info {
    pub id: u32,
    pub title: Seq<char>,
    pub geometry: Option<Geometry>,
}

impl View for RawX11Window {
    type V = RawX11Info;

    open spec fn view(&self) -> RawX11Info {
        RawX11Info { id: self.id, title: self.title@, geometry: self.geometry }
    }
}

impl DeepView for RawX11Window {
    type V = RawX11Info;

    open spec fn deep_view(&self) -> RawX11Info {
        self.view()
    }
}

/// The monitor of a raw window: the one hosting its center point,
/// under the resolver's fallback policy; nothing when the geometry
/// could not be fetched.
pub open spec fn monitor_of_geometry(g: Option<Geometry>, mons: Seq<MonitorInfo>) -> Option<
    Seq<char>,
> {
    match g {
        Some(g) => locate_spec(
            mons,
            center_coord(g.x as int, g.width as int),
            center_coord(g.y as int, g.height as int),
        ),
        None => None,
    }
}

/// The application windows among the raw windows, from index `i` on:
/// windows whose title passes the filter and whose identifier is not
/// the invalid sentinel.
pub open spec fn x11_windows_from(rs: Seq<RawX11Info>, i: int, mons: Seq<MonitorInfo>) -> Seq<
    WindowInfo,
>
    decreases rs.len() - i when 0 <= i
{
    if i >= rs.len() {
        Seq::empty()
    } else {
        let rest = x11_windows_from(rs, i + 1, mons);
        if is_app_title(rs[i].title) && valid_window_id(rs[i].id as u64) {
            seq![
                WindowInfo {
                    id: rs[i].id as u64,
                    title: stored_title(rs[i].title),
                    monitor: monitor_of_geometry(rs[i].geometry, mons),
                },
            ] + rest
        } else {
            rest
        }
    }
}

/// The identifier of the first raw window whose full title matches
/// exactly.
pub open spec fn x11_find_from(rs: Seq<RawX11Info>, i: int, title: Seq<char>) -> Option<u64>
    decreases rs.len() - i when 0 <= i
{
    if i >= rs.len() {
        None
    } else if rs[i].title == title {
        Some(rs[i].id as u64)
    } else {
        x11_find_from(rs, i + 1, title)
    }
}

/// The direct wire-protocol backend: every operation's computing
/// half, over the raw values read from the connection.
pub struct X11Manager;

impl X11Manager {
    /// Enumerates the application windows among the raw windows,
    /// naming each one's monitor from the center of its geometry.
    pub fn get_eve_windows(raw: &Vec<RawX11Window>, monitors: &Vec<Monitor>) -> (r: Vec<
        WindowRecord,
    >)
        ensures
            r.deep_view() == x11_windows_from(raw.deep_view(), 0, monitors.deep_view()),
    {
        let ghost rs = raw.deep_view();
        let ghost mons = monitors.deep_view();
        let mut r: Vec<WindowRecord> = Vec::new();
        let mut i: usize = 0;
        while i < raw.len()
            invariant
                i <= rs.len(),
                rs == raw.deep_view(),
                mons == monitors.deep_view(),
                x11_windows_from(rs, 0, mons) == r.deep_view() + x11_windows_from(
                    rs,
                    i as int,
                    mons,
                ),
            decreases rs.len() - i,
        {
            let w = &raw[i];
            proof {
                assert(rs[i as int] == raw@[i as int]@);
            }
            if is_app_window(w.title.as_str()) && w.id != 0 {
                let mon: Option<String> = match w.geometry {
                    Some(g) => {
                        let cx = center_of(g.x as i64, g.width as i64);
                        let cy = center_of(g.y as i64, g.height as i64);
                        locate(monitors, cx, cy)
                    },
                    None => None,
                };
                let ghost prev = r.deep_view();
                let rec = WindowRecord {
                    id: w.id as u64,
                    title: strip_app_prefix(w.title.as_str()),
                    monitor: mon,
                };
                r.push(rec);
                proof {
                    assert(r.deep_view() =~= prev.push(rec@));
                    assert(r.deep_view() + x11_windows_from(rs, i + 1, mons) =~= prev
                        + x11_windows_from(rs, i as int, mons));
                }
            }
            i += 1;
        }
        proof {
            assert(r.deep_view() + x11_windows_from(rs, i as int, mons) =~= r.deep_view());
        }
        r
    }

    /// Looks the raw windows up by exact full title.
    pub fn find_window_by_title(raw: &Vec<RawX11Window>, title: &str) -> (r: Option<u64>)
        ensures
            r == x11_find_from(raw.deep_view(), 0, title@),
    {
        let ghost rs = raw.deep_view();
        let mut i: usize = 0;
        while i < raw.len()
            invariant
                i <= rs.len(),
                rs == raw.deep_view(),
                x11_find_from(rs, 0, title@) == x11_find_from(rs, i as int, title@),
            decreases rs.len() - i,
        {
            let w = &raw[i];
            proof {
                assert(rs[i as int] == raw@[i as int]@);
            }
            if str_eq(w.title.as_str(), title) {
                return Some(w.id as u64);
            }
            i += 1;
        }
        None
    }

    /// Reads the focus query's reply: the first listed window, when
    /// there is one and it is not the invalid sentinel.
    pub fn active_window_from(ids: &Vec<u32>) -> (r: Option<u64>)
        ensures
            ids@.len() > 0 && ids@[0] != 0 ==> r == Some(ids@[0] as u64),
            !(ids@.len() > 0 && ids@[0] != 0) ==> r is None,
    {
        if ids.len() > 0 && ids[0] != 0 {
            Some(ids[0] as u64)
        } else {
            None
        }
    }
}

} // verus!
