//! The desktop shell backend's pure logic: parsing the window listing
//! tool's tabular output, mapping a window to its monitor through the
//! geometry listing, and building the tool's move/resize argument.
//!
//! One listing line reads `ID DESKTOP HOST TITLE...`; the identifier is
//! hexadecimal with a `0x` prefix.  The geometry listing reads
//! `ID DESKTOP X Y WIDTH HEIGHT HOST TITLE...`.

use crate::codec::{canonical_id, canonical_id_spec, decimal_of_int, format_decimal_i64, valid_window_id};
use crate::filter::{is_app_title, is_app_window, stored_title, strip_app_prefix};
use crate::layout::RectInfo;
use crate::model::{Monitor, MonitorInfo, Rect, WindowInfo, WindowRecord};
use crate::text::{
    has_prefix, join_space, join_space_from, lines_from, push_char, split_lines, starts_with_str,
    str_eq, tokens, tokens_from,
};
use crate::topology::{center_coord, center_of, first_containing};
use vstd::prelude::*;

verus! {

/// The identifier token and the joined title of one listing line, for
/// lines of at least four columns.
pub open spec fn parse_window_line(l: Seq<char>) -> Option<(Seq<char>, Seq<char>)> {
    let parts = tokens_from(l, 0);
    if parts.len() >= 4 {
        Some((parts[0], join_space(parts, 3)))
    } else {
        None
    }
}

/// The window center denoted by columns three to six of a geometry
/// line, absent when any of them fails to parse.
pub open spec fn center_of_geometry(parts: Seq<Seq<char>>) -> Option<(int, int)> {
    match crate::codec::i32_of_str(parts[2]) {
        Some(x) => match crate::codec::i32_of_str(parts[3]) {
            Some(y) => match crate::codec::i32_of_str(parts[4]) {
                Some(w) => match crate::codec::i32_of_str(parts[5]) {
                    Some(h) => Some((center_coord(x as int, w as int), center_coord(y as int, h as int))),
                    None => None,
                },
                None => None,
            },
            None => None,
        },
        None => None,
    }
}

/// The monitor hosting the window with the given identifier token,
/// read from the geometry listing: the first matching line of at least
/// six columns decides by its center point; a line whose numbers fail
/// to parse decides nothing at all; and when no line decides, the
/// first monitor of a non-empty topology is the fallback.
pub open spec fn monitor_for_id_spec(
    gls: Seq<Seq<char>>,
    i: int,
    id: Seq<char>,
    mons: Seq<MonitorInfo>,
) -> Option<Seq<char>>
    decreases gls.len() - i when 0 <= i
{
    if i >= gls.len() {
        if mons.len() > 0 {
            Some(mons[0].name)
        } else {
            None
        }
    } else if has_prefix(gls[i], id) {
        let parts = tokens_from(gls[i], 0);
        if parts.len() >= 6 {
            match center_of_geometry(parts) {
                Some(c) => match first_containing(mons, c.0, c.1, 0) {
                    Some(j) => Some(mons[j].name),
                    None => monitor_for_id_spec(gls, i + 1, id, mons),
                },
                None => None,
            }
        } else {
            monitor_for_id_spec(gls, i + 1, id, mons)
        }
    } else {
        monitor_for_id_spec(gls, i + 1, id, mons)
    }
}

/// The application windows of the whole listing, from line `i` on:
/// lines of at least four columns whose title passes the filter and
/// whose identifier is valid, each with the stripped title and the
/// monitor its geometry places it on.
pub open spec fn kwin_windows_from(
    ls: Seq<Seq<char>>,
    i: int,
    gls: Seq<Seq<char>>,
    mons: Seq<MonitorInfo>,
) -> Seq<WindowInfo>
    decreases ls.len() - i when 0 <= i
{
    if i >= ls.len() {
        Seq::empty()
    } else {
        let rest = kwin_windows_from(ls, i + 1, gls, mons);
        match parse_window_line(ls[i]) {
            Some(e) => {
                if is_app_title(e.1) && valid_window_id(canonical_id_spec(e.0)) {
                    seq![
                        WindowInfo {
                            id: canonical_id_spec(e.0),
                            title: stored_title(e.1),
                            monitor: monitor_for_id_spec(gls, 0, e.0, mons),
                        },
                    ] + rest
                } else {
                    rest
                }
            },
            None => rest,
        }
    }
}

/// The identifier of the first listing entry whose full title matches
/// exactly and whose identifier is valid.
pub open spec fn find_by_title_from(ls: Seq<Seq<char>>, i: int, title: Seq<char>) -> Option<u64>
    decreases ls.len() - i when 0 <= i
{
    if i >= ls.len() {
        None
    } else {
        match parse_window_line(ls[i]) {
            Some(e) => {
                if e.1 == title && valid_window_id(canonical_id_spec(e.0)) {
                    Some(canonical_id_spec(e.0))
                } else {
                    find_by_title_from(ls, i + 1, title)
                }
            },
            None => find_by_title_from(ls, i + 1, title),
        }
    }
}

/// The title of the first listing line starting with the given
/// identifier token and holding at least four columns.
pub open spec fn title_for_id_from(ls: Seq<Seq<char>>, i: int, id: Seq<char>) -> Option<Seq<char>>
    decreases ls.len() - i when 0 <= i
{
    if i >= ls.len() {
        None
    } else if has_prefix(ls[i], id) && tokens_from(ls[i], 0).len() >= 4 {
        Some(join_space(tokens_from(ls[i], 0), 3))
    } else {
        title_for_id_from(ls, i + 1, id)
    }
}

/// The identifier printed by the focus query tool: its output must be
/// one decimal token.
pub open spec fn active_id_of_output(s: Seq<char>) -> Option<u64> {
    let ts = tokens_from(s, 0);
    if ts.len() == 1 && ts[0].len() > 0 && crate::codec::all_dec(ts[0]) && crate::codec::dec_val(
        ts[0],
    ) <= u64::MAX {
        Some(crate::codec::dec_val(ts[0]) as u64)
    } else {
        None
    }
}

/// The move/resize argument handed to the window listing tool:
/// gravity `0`, then origin and size, comma-separated.
pub open spec fn move_resize_arg_spec(r: RectInfo) -> Seq<char> {
    seq!['0'] + seq![','] + decimal_of_int(r.x) + seq![','] + decimal_of_int(r.y) + seq![',']
        + decimal_of_int(r.width) + seq![','] + decimal_of_int(r.height)
}

/// The desktop shell backend: every operation's computing half, over
/// the texts its tools print.
pub struct KWinManager;

impl KWinManager {
    /// Enumerates the application windows of a window listing, using
    /// the geometry listing and the topology to name each window's
    /// monitor.
    pub fn get_eve_windows(
        window_list: &str,
        geometry_list: &str,
        monitors: &Vec<Monitor>,
    ) -> (r: Vec<WindowRecord>)
        ensures
            r.deep_view() == kwin_windows_from(
                lines_from(window_list@, 0),
                0,
                lines_from(geometry_list@, 0),
                monitors.deep_view(),
            ),
    {
        let lines = split_lines(window_list);
        let ghost ls = lines.deep_view();
        let ghost gls = lines_from(geometry_list@, 0);
        let ghost mons = monitors.deep_view();
        let mut r: Vec<WindowRecord> = Vec::new();
        let mut i: usize = 0;
        while i < lines.len()
            invariant
                i <= ls.len(),
                ls == lines.deep_view(),
                gls == lines_from(geometry_list@, 0),
                mons == monitors.deep_view(),
                kwin_windows_from(ls, 0, gls, mons) == r.deep_view() + kwin_windows_from(
                    ls,
                    i as int,
                    gls,
                    mons,
                ),
            decreases ls.len() - i,
        {
            let parts = tokens(lines[i].as_str());
            proof {
                assert(ls[i as int] == lines@[i as int]@);
            }
            if parts.len() >= 4 {
                let title = join_space_from(&parts, 3);
                proof {
                    assert(parts.deep_view()[0] == parts@[0]@);
                    assert(parse_window_line(ls[i as int]) == Some(
                        (parts.deep_view()[0], title@),
                    ));
                }
                if is_app_window(title.as_str()) {
                    let id = canonical_id(parts[0].as_str());
                    if id != 0 {
                        let mon = Self::get_window_monitor(geometry_list, &parts[0], monitors);
                        let ghost prev = r.deep_view();
                        let rec = WindowRecord {
                            id,
                            title: strip_app_prefix(title.as_str()),
                            monitor: mon,
                        };
                        r.push(rec);
                        proof {
                            assert(r.deep_view() =~= prev.push(rec@));
                            assert(r.deep_view() + kwin_windows_from(ls, i + 1, gls, mons) =~= prev
                                + kwin_windows_from(ls, i as int, gls, mons));
                        }
                    }
                }
            }
            i += 1;
        }
        proof {
            assert(r.deep_view() + kwin_windows_from(ls, i as int, gls, mons) =~= r.deep_view());
        }
        r
    }

    /// Names the monitor hosting the window with the given identifier
    /// token, from the geometry listing.
    pub fn get_window_monitor(
        geometry_list: &str,
        id_str: &String,
        monitors: &Vec<Monitor>,
    ) -> (r: Option<String>)
        ensures
            match r {
                Some(name) => monitor_for_id_spec(
                    lines_from(geometry_list@, 0),
                    0,
                    id_str@,
                    monitors.deep_view(),
                ) == Some(name@),
                None => monitor_for_id_spec(
                    lines_from(geometry_list@, 0),
                    0,
                    id_str@,
                    monitors.deep_view(),
                ) is None,
            },
    {
        let lines = split_lines(geometry_list);
        let ghost gls = lines.deep_view();
        let ghost mons = monitors.deep_view();
        let mut i: usize = 0;
        while i < lines.len()
            invariant
                i <= gls.len(),
                gls == lines.deep_view(),
                gls == lines_from(geometry_list@, 0),
                mons == monitors.deep_view(),
                monitor_for_id_spec(gls, 0, id_str@, mons) == monitor_for_id_spec(
                    gls,
                    i as int,
                    id_str@,
                    mons,
                ),
            decreases gls.len() - i,
        {
            proof {
                assert(gls[i as int] == lines@[i as int]@);
            }
            if starts_with_str(lines[i].as_str(), id_str.as_str()) {
                let parts = tokens(lines[i].as_str());
                if parts.len() >= 6 {
                    proof {
                        assert(parts.deep_view()[2] == parts@[2]@);
                        assert(parts.deep_view()[3] == parts@[3]@);
                        assert(parts.deep_view()[4] == parts@[4]@);
                        assert(parts.deep_view()[5] == parts@[5]@);
                    }
                    let x = crate::codec::parse_i32(parts[2].as_str());
                    let y = crate::codec::parse_i32(parts[3].as_str());
                    let w = crate::codec::parse_i32(parts[4].as_str());
                    let h = crate::codec::parse_i32(parts[5].as_str());
                    match (x, y, w, h) {
                        (Some(x), Some(y), Some(w), Some(h)) => {
                            let cx = center_of(x as i64, w as i64);
                            let cy = center_of(y as i64, h as i64);
                            proof {
                                assert(center_of_geometry(tokens_from(gls[i as int], 0)) == Some(
                                    (cx as int, cy as int),
                                ));
                            }
                            match crate::topology::find_containing(monitors, cx, cy) {
                                Some(j) => {
                                    proof {
                                        assert(monitor_for_id_spec(gls, i as int, id_str@, mons)
                                            == Some(mons[j as int].name));
                                    }
                                    return Some(monitors[j].name.clone());
                                },
                                None => {},
                            }
                        },
                        _ => {
                            return None;
                        },
                    }
                }
            }
            i += 1;
        }
        if monitors.len() > 0 {
            Some(monitors[0].name.clone())
        } else {
            None
        }
    }

    /// Looks the window list up by exact full title.
    pub fn find_window_by_title(window_list: &str, title: &str) -> (r: Option<u64>)
        ensures
            r == find_by_title_from(lines_from(window_list@, 0), 0, title@),
    {
        let lines = split_lines(window_list);
        let ghost ls = lines.deep_view();
        let mut i: usize = 0;
        while i < lines.len()
            invariant
                i <= ls.len(),
                ls == lines.deep_view(),
                ls == lines_from(window_list@, 0),
                find_by_title_from(ls, 0, title@) == find_by_title_from(ls, i as int, title@),
            decreases ls.len() - i,
        {
            proof {
                assert(ls[i as int] == lines@[i as int]@);
            }
            let parts = tokens(lines[i].as_str());
            if parts.len() >= 4 {
                let t = join_space_from(&parts, 3);
                proof {
                    assert(parts.deep_view()[0] == parts@[0]@);
                    assert(parse_window_line(ls[i as int]) == Some((parts.deep_view()[0], t@)));
                }
                if str_eq(t.as_str(), title) {
                    let id = canonical_id(parts[0].as_str());
                    if id != 0 {
                        return Some(id);
                    }
                }
            }
            i += 1;
        }
        None
    }

    /// The full title of the listing line starting with the given
    /// identifier token.
    pub fn get_window_title_by_id(window_list: &str, hex_id: &str) -> (r: Option<String>)
        ensures
            match r {
                Some(t) => title_for_id_from(lines_from(window_list@, 0), 0, hex_id@) == Some(t@),
                None => title_for_id_from(lines_from(window_list@, 0), 0, hex_id@) is None,
            },
    {
        let lines = split_lines(window_list);
        let ghost ls = lines.deep_view();
        let mut i: usize = 0;
        while i < lines.len()
            invariant
                i <= ls.len(),
                ls == lines.deep_view(),
                ls == lines_from(window_list@, 0),
                title_for_id_from(ls, 0, hex_id@) == title_for_id_from(ls, i as int, hex_id@),
            decreases ls.len() - i,
        {
            proof {
                assert(ls[i as int] == lines@[i as int]@);
            }
            if starts_with_str(lines[i].as_str(), hex_id) {
                let parts = tokens(lines[i].as_str());
                if parts.len() >= 4 {
                    let t = join_space_from(&parts, 3);
                    return Some(t);
                }
            }
            i += 1;
        }
        None
    }

    /// Reads the focus query tool's output: exactly one decimal token.
    pub fn parse_active_window(output: &str) -> (r: Option<u64>)
        ensures
            r == active_id_of_output(output@),
    {
        let ts = tokens(output);
        if ts.len() != 1 {
            return None;
        }
        proof {
            assert(ts.deep_view()[0] == ts@[0]@);
            assert(ts@[0]@.subrange(0, ts@[0]@.len() as int) =~= ts@[0]@);
        }
        crate::codec::dec_value_from(ts[0].as_str(), 0)
    }

    /// Builds the move/resize argument for a computed rectangle.
    pub fn move_resize_argument(r: &Rect) -> (s: String)
        ensures
            s@ == move_resize_arg_spec(r@),
    {
        let mut s = String::new();
        push_char(&mut s, '0');
        push_char(&mut s, ',');
        let xs = format_decimal_i64(r.x as i64);
        s.append(xs.as_str());
        push_char(&mut s, ',');
        let ys = format_decimal_i64(r.y as i64);
        s.append(ys.as_str());
        push_char(&mut s, ',');
        let ws = format_decimal_i64(r.width as i64);
        s.append(ws.as_str());
        push_char(&mut s, ',');
        let hs = format_decimal_i64(r.height as i64);
        s.append(hs.as_str());
        proof {
            assert(s@ =~= move_resize_arg_spec(r@));
        }
        s
    }
}

} // verus!
