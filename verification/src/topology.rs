//! The monitor-topology resolver: mapping a point of the virtual
//! desktop to the monitor that hosts it, computing window center
//! points, and assembling a topology from the raw numbers a compositor
//! reports.

use crate::model::{Monitor, MonitorInfo};
use vstd::prelude::*;

verus! {

/// Index of the first monitor at or after `i` whose rectangle contains
/// the point, if any.
pub open spec fn first_containing(mons: Seq<MonitorInfo>, px: int, py: int, i: int) -> Option<int>
    decreases mons.len() - i when 0 <= i
{
    if i >= mons.len() {
        None
    } else if mons[i].contains(px, py) {
        Some(i)
    } else {
        first_containing(mons, px, py, i + 1)
    }
}

pub proof fn lemma_first_containing_props(mons: Seq<MonitorInfo>, px: int, py: int, i: int)
    requires
        0 <= i <= mons.len(),
    ensures
        match first_containing(mons, px, py, i) {
            Some(j) => i <= j < mons.len() && mons[j].contains(px, py) && forall|k: int|
                i <= k < j ==> !(#[trigger] mons[k]).contains(px, py),
            None => forall|k: int| i <= k < mons.len() ==> !(#[trigger] mons[k]).contains(px, py),
        },
    decreases mons.len() - i,
{
    if i < mons.len() && !mons[i].contains(px, py) {
        lemma_first_containing_props(mons, px, py, i + 1);
    }
}

/// The name of the monitor hosting the point: the first whose rectangle
/// contains it, the first of the topology when none does, and nothing
/// when the topology is empty.
pub open spec fn locate_spec(mons: Seq<MonitorInfo>, px: int, py: int) -> Option<Seq<char>> {
    if mons.len() == 0 {
        None
    } else {
        match first_containing(mons, px, py, 0) {
            Some(j) => Some(mons[j].name),
            None => Some(mons[0].name),
        }
    }
}

/// Whenever some monitor's rectangle contains the point, `locate` names
/// a monitor that contains it; otherwise it falls back to the first
/// entry of a non-empty topology, and reports nothing only for an empty
/// one.
pub proof fn lemma_locate_covers(mons: Seq<MonitorInfo>, px: int, py: int)
    ensures
        (exists|i: int| 0 <= i < mons.len() && (#[trigger] mons[i]).contains(px, py))
            ==> (locate_spec(mons, px, py) matches Some(name) && exists|i: int|
            0 <= i < mons.len() && (#[trigger] mons[i]).contains(px, py) && mons[i].name == name),
        mons.len() > 0 && !(exists|i: int|
            0 <= i < mons.len() && (#[trigger] mons[i]).contains(px, py)) ==> locate_spec(
            mons,
            px,
            py,
        ) == Some(mons[0].name),
        mons.len() == 0 ==> locate_spec(mons, px, py) is None,
{
    if mons.len() > 0 {
        lemma_first_containing_props(mons, px, py, 0);
    }
}

/// Finds the first monitor whose rectangle contains the point.
pub fn find_containing(monitors: &Vec<Monitor>, px: i64, py: i64) -> (r: Option<usize>)
    ensures
        match r {
            Some(j) => j < monitors@.len() && first_containing(
                monitors.deep_view(),
                px as int,
                py as int,
                0,
            ) == Some(j as int),
            None => first_containing(monitors.deep_view(), px as int, py as int, 0) is None,
        },
{
    let ghost mons = monitors.deep_view();
    let mut i: usize = 0;
    while i < monitors.len()
        invariant
            i <= monitors@.len(),
            mons == monitors.deep_view(),
            first_containing(mons, px as int, py as int, 0) == first_containing(
                mons,
                px as int,
                py as int,
                i as int,
            ),
        decreases monitors@.len() - i,
    {
        let m = &monitors[i];
        if m.x as i64 <= px && px < m.x as i64 + m.width as i64 && m.y as i64 <= py && py < m.y
            as i64 + m.height as i64 {
            proof {
                assert(mons[i as int].contains(px as int, py as int));
            }
            return Some(i);
        }
        proof {
            assert(!mons[i as int].contains(px as int, py as int));
        }
        i += 1;
    }
    None
}

/// Finds the monitor hosting the point `(px, py)`.
pub fn locate(monitors: &Vec<Monitor>, px: i64, py: i64) -> (r: Option<String>)
    ensures
        match r {
            Some(name) => locate_spec(monitors.deep_view(), px as int, py as int) == Some(name@),
            None => locate_spec(monitors.deep_view(), px as int, py as int) is None,
        },
{
    if monitors.len() == 0 {
        return None;
    }
    match find_containing(monitors, px, py) {
        Some(j) => Some(monitors[j].name.clone()),
        None => Some(monitors[0].name.clone()),
    }
}

/// Truncating halving, as the compositors' own integer division rounds
/// toward zero.
pub open spec fn half_trunc(v: int) -> int {
    if v >= 0 {
        v / 2
    } else {
        -((-v) / 2)
    }
}

/// The center coordinate of a span starting at `o` with length `len`.
pub open spec fn center_coord(o: int, len: int) -> int {
    o + half_trunc(len)
}

/// Center coordinate of a window edge: origin plus half the extent,
/// computed without overflow.
pub fn center_of(o: i64, len: i64) -> (c: i64)
    requires
        i32::MIN <= o <= i32::MAX,
        i32::MIN <= len <= u32::MAX,
    ensures
        c == center_coord(o as int, len as int),
{
    if len >= 0 {
        o + ((len as u64 / 2) as i64)
    } else {
        o - (((-len) as u64 / 2) as i64)
    }
}

/// Raw monitor numbers as a compositor's output query reports them,
/// before range checking.
pub struct RawMonitor {
    pub name: String,
    pub x: i64,
    pub y: i64,
    pub width: u64,
    pub height: u64,
}

/// Ghost view of a [`RawMonitor`].
pub ghost struct RawMonitorInfo {
    pub name: Seq<char>,
    pub x: int,
    pub y: int,
    pub width: int,
    pub height: int,
}

impl View for RawMonitor {
    type V = RawMonitorInfo;

    open spec fn view(&self) -> RawMonitorInfo {
        RawMonitorInfo {
            name: self.name@,
            x: self.x as int,
            y: self.y as int,
            width: self.width as int,
            height: self.height as int,
        }
    }
}

impl DeepView for RawMonitor {
    type V = RawMonitorInfo;

    open spec fn deep_view(&self) -> RawMonitorInfo {
        self.view()
    }
}

/// A raw entry is usable when its rectangle fits the signed 32-bit
/// virtual-desktop coordinate space, right and bottom edges included.
pub open spec fn raw_in_range(r: RawMonitorInfo) -> bool {
    &&& i32::MIN <= r.x
    &&& i32::MIN <= r.y
    &&& 0 <= r.width
    &&& 0 <= r.height
    &&& r.x + r.width <= i32::MAX
    &&& r.y + r.height <= i32::MAX
}

pub open spec fn monitor_of_raw(r: RawMonitorInfo) -> MonitorInfo {
    MonitorInfo { name: r.name, x: r.x, y: r.y, width: r.width, height: r.height }
}

/// The canonical monitors of a raw list: entries out of range are
/// malformed single records and are silently excluded.
pub open spec fn monitors_of_raw(rs: Seq<RawMonitorInfo>) -> Seq<MonitorInfo>
    decreases rs.len(),
{
    if rs.len() == 0 {
        Seq::empty()
    } else {
        let rest = monitors_of_raw(rs.drop_first());
        if raw_in_range(rs[0]) {
            seq![monitor_of_raw(rs[0])] + rest
        } else {
            rest
        }
    }
}

proof fn lemma_monitors_of_raw_split(rs: Seq<RawMonitorInfo>, i: int)
    requires
        0 <= i < rs.len(),
    ensures
        monitors_of_raw(rs.subrange(i, rs.len() as int)) == if raw_in_range(rs[i]) {
            seq![monitor_of_raw(rs[i])] + monitors_of_raw(rs.subrange(i + 1, rs.len() as int))
        } else {
            monitors_of_raw(rs.subrange(i + 1, rs.len() as int))
        },
{
    let t = rs.subrange(i, rs.len() as int);
    assert(t.drop_first() =~= rs.subrange(i + 1, rs.len() as int));
    assert(t[0] == rs[i]);
}

/// Builds the canonical monitor list from raw compositor output,
/// skipping entries whose numbers do not fit the coordinate space.
pub fn monitors_from_raw(raw: &Vec<RawMonitor>) -> (r: Vec<Monitor>)
    ensures
        r.deep_view() == monitors_of_raw(raw.deep_view()),
{
    let ghost rs = raw.deep_view();
    let mut r: Vec<Monitor> = Vec::new();
    let mut i: usize = 0;
    proof {
        assert(rs.subrange(0, rs.len() as int) =~= rs);
    }
    while i < raw.len()
        invariant
            i <= raw@.len(),
            rs == raw.deep_view(),
            monitors_of_raw(rs) == r.deep_view() + monitors_of_raw(
                rs.subrange(i as int, rs.len() as int),
            ),
        decreases raw@.len() - i,
    {
        let e = &raw[i];
        proof {
            lemma_monitors_of_raw_split(rs, i as int);
        }
        let ghost prev = r.deep_view();
        if -0x8000_0000i64 <= e.x && e.x <= 0x7fff_ffffi64 && -0x8000_0000i64 <= e.y && e.y
            <= 0x7fff_ffffi64 && e.width <= 0xffff_ffffu64 && e.height <= 0xffff_ffffu64 && e.x
            + e.width as i64 <= 0x7fff_ffffi64 && e.y + e.height as i64 <= 0x7fff_ffffi64 {
            let m = Monitor {
                name: e.name.clone(),
                x: e.x as i32,
                y: e.y as i32,
                width: e.width as u32,
                height: e.height as u32,
            };
            r.push(m);
            proof {
                assert(r.deep_view() =~= prev.push(monitor_of_raw(rs[i as int])));
                assert(r.deep_view() + monitors_of_raw(rs.subrange(i + 1, rs.len() as int)) =~= prev
                    + monitors_of_raw(rs.subrange(i as int, rs.len() as int)));
            }
        } else {
            proof {
                if rs[i as int].width > u32::MAX || rs[i as int].height > u32::MAX {
                    assert(i32::MIN + u32::MAX + 1 > i32::MAX);
                }
                assert(!raw_in_range(rs[i as int]));
            }
        }
        i += 1;
    }
    proof {
        assert(monitors_of_raw(rs.subrange(rs.len() as int, rs.len() as int)) =~= Seq::<
            MonitorInfo,
        >::empty());
        assert(r.deep_view() + Seq::<MonitorInfo>::empty() =~= r.deep_view());
    }
    r
}

/// A raw list whose numbers are in range yields well-formed monitors.
pub proof fn lemma_monitors_of_raw_wf(rs: Seq<RawMonitorInfo>)
    ensures
        forall|j: int|
            0 <= j < monitors_of_raw(rs).len() ==> (#[trigger] monitors_of_raw(rs)[j]).wf(),
    decreases rs.len(),
{
    if rs.len() > 0 {
        lemma_monitors_of_raw_wf(rs.drop_first());
        let rest = monitors_of_raw(rs.drop_first());
        if raw_in_range(rs[0]) {
            let whole = seq![monitor_of_raw(rs[0])] + rest;
            assert(monitors_of_raw(rs) == whole);
            assert forall|j: int| 0 <= j < whole.len() implies (#[trigger] whole[j]).wf() by {
                if j == 0 {
                    assert(whole[0] == monitor_of_raw(rs[0]));
                } else {
                    assert(whole[j] == rest[j - 1]);
                }
            }
        }
    }
}

} // verus!
