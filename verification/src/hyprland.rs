//! The JSON compositor backend's pure logic: filtering its client
//! records into application windows, mapping a client's monitor
//! ordinal to the Nth entry of the separately queried monitor list,
//! and building its dispatcher arguments.
//!
//! Window identity is a hexadecimal address string; the monitor
//! ordinal mapping is fragile if the two queries disagree in ordering,
//! a known correctness risk of this transport, which names monitors
//! only in the monitor query.

use crate::codec::{
    canonical_id, canonical_id_spec, decimal_of_int, format_decimal_i64, format_hex_address,
    native_hex_address, valid_window_id,
};
use crate::filter::{is_app_title, is_app_window, stored_title, strip_app_prefix};
use crate::model::{Monitor, MonitorInfo, WindowInfo, WindowRecord};
use crate::text::{contains_seq, contains_str, str_eq};
use vstd::prelude::*;

verus! {

/// One client record, holding exactly what the logic reads of the
/// compositor's client listing.
pub struct HyprClient {
    pub title: Option<String>,
    pub address: Option<String>,
    pub monitor: Option<i64>,
}

/// Ghost view of a [`HyprClient`].
pub ghost struct HyprClientInfo {
    pub title: Option<Seq<char>>,
    pub address: Option<Seq<char>>,
    pub monitor: Option<int>,
}

impl View for HyprClient {
    type V = HyprClientInfo;

    open spec fn view(&self) -> HyprClientInfo {
        HyprClientInfo {
            title: match self.title {
                Some(ref t) => Some(t@),
                None => None,
            },
            address: match self.address {
                Some(ref a) => Some(a@),
                None => None,
            },
            monitor: match self.monitor {
                Some(m) => Some(m as int),
                None => None,
            },
        }
    }
}

impl DeepView for HyprClient {
    type V = HyprClientInfo;

    open spec fn deep_view(&self) -> HyprClientInfo {
        self.view()
    }
}

/// The monitor name a client's ordinal denotes: the Nth entry of the
/// monitor list, nothing when out of range or absent.
pub open spec fn ordinal_monitor(o: Option<int>, mons: Seq<MonitorInfo>) -> Option<Seq<char>> {
    match o {
        Some(m) => {
            if 0 <= m < mons.len() {
                Some(mons[m].name)
            } else {
                None
            }
        },
        None => None,
    }
}

/// The application windows among the clients, from index `i` on:
/// clients with a title that passes the filter, an address, and a
/// valid canonical identifier.
pub open spec fn hypr_windows_from(
    cs: Seq<HyprClientInfo>,
    i: int,
    mons: Seq<MonitorInfo>,
) -> Seq<WindowInfo>
    decreases cs.len() - i when 0 <= i
{
    if i >= cs.len() {
        Seq::empty()
    } else {
        let rest = hypr_windows_from(cs, i + 1, mons);
        match cs[i].title {
            Some(tl) => {
                if is_app_title(tl) {
                    match cs[i].address {
                        Some(a) => {
                            if valid_window_id(canonical_id_spec(a)) {
                                seq![
                                    WindowInfo {
                                        id: canonical_id_spec(a),
                                        title: stored_title(tl),
                                        monitor: ordinal_monitor(cs[i].monitor, mons),
                                    },
                                ] + rest
                            } else {
                                rest
                            }
                        },
                        None => rest,
                    }
                } else {
                    rest
                }
            },
            None => rest,
        }
    }
}

/// The identifier of the first client whose full title matches
/// exactly and that carries an address.
pub open spec fn hypr_find_from(cs: Seq<HyprClientInfo>, i: int, title: Seq<char>) -> Option<u64>
    decreases cs.len() - i when 0 <= i
{
    if i >= cs.len() {
        None
    } else if cs[i].title == Some(title) && cs[i].address is Some {
        Some(canonical_id_spec(cs[i].address->Some_0))
    } else {
        hypr_find_from(cs, i + 1, title)
    }
}

/// The JSON compositor backend: every operation's computing half,
/// over its client records and its dispatcher arguments.
pub struct HyprlandManager;

impl HyprlandManager {
    /// Enumerates the application windows of a client listing, naming
    /// each window's monitor through its ordinal into the monitor
    /// list.
    pub fn get_eve_windows(clients: &Vec<HyprClient>, monitors: &Vec<Monitor>) -> (r: Vec<
        WindowRecord,
    >)
        ensures
            r.deep_view() == hypr_windows_from(clients.deep_view(), 0, monitors.deep_view()),
    {
        let ghost cs = clients.deep_view();
        let ghost mons = monitors.deep_view();
        let mut r: Vec<WindowRecord> = Vec::new();
        let mut i: usize = 0;
        while i < clients.len()
            invariant
                i <= cs.len(),
                cs == clients.deep_view(),
                mons == monitors.deep_view(),
                hypr_windows_from(cs, 0, mons) == r.deep_view() + hypr_windows_from(
                    cs,
                    i as int,
                    mons,
                ),
            decreases cs.len() - i,
        {
            let c = &clients[i];
            proof {
                assert(cs[i as int] == clients@[i as int]@);
            }
            match &c.title {
                Some(tl) => {
                    if is_app_window(tl.as_str()) {
                        match &c.address {
                            Some(a) => {
                                let id = canonical_id(a.as_str());
                                if id != 0 {
                                    let mon: Option<String> = match c.monitor {
                                        Some(m) => {
                                            if m >= 0 && (m as u64) < (monitors.len() as u64) {
                                                proof {
                                                    assert(mons[m as int] == monitors@[
                                                        m as int
                                                    ]@);
                                                }
                                                Some(monitors[m as usize].name.clone())
                                            } else {
                                                None
                                            }
                                        },
                                        None => None,
                                    };
                                    let ghost prev = r.deep_view();
                                    let rec = WindowRecord {
                                        id,
                                        title: strip_app_prefix(tl.as_str()),
                                        monitor: mon,
                                    };
                                    r.push(rec);
                                    proof {
                                        assert(r.deep_view() =~= prev.push(rec@));
                                        assert(r.deep_view() + hypr_windows_from(cs, i + 1, mons)
                                            =~= prev + hypr_windows_from(cs, i as int, mons));
                                    }
                                }
                            },
                            None => {},
                        }
                    }
                },
                None => {},
            }
            i += 1;
        }
        proof {
            assert(r.deep_view() + hypr_windows_from(cs, i as int, mons) =~= r.deep_view());
        }
        r
    }

    /// The canonical identifier of the focused window, from the
    /// address field of the focus query's reply; nothing when the
    /// reply carries no address.
    pub fn active_window_id(address: Option<&str>) -> (r: Option<u64>)
        ensures
            match address {
                Some(a) => r == Some(canonical_id_spec(a@)),
                None => r is None,
            },
    {
        match address {
            Some(a) => Some(canonical_id(a)),
            None => None,
        }
    }

    /// Looks the client listing up by exact full title.
    pub fn find_window_by_title(clients: &Vec<HyprClient>, title: &str) -> (r: Option<u64>)
        ensures
            r == hypr_find_from(clients.deep_view(), 0, title@),
    {
        let ghost cs = clients.deep_view();
        let mut i: usize = 0;
        while i < clients.len()
            invariant
                i <= cs.len(),
                cs == clients.deep_view(),
                hypr_find_from(cs, 0, title@) == hypr_find_from(cs, i as int, title@),
            decreases cs.len() - i,
        {
            let c = &clients[i];
            proof {
                assert(cs[i as int] == clients@[i as int]@);
            }
            let matches_title = match &c.title {
                Some(tl) => str_eq(tl.as_str(), title),
                None => false,
            };
            if matches_title {
                match &c.address {
                    Some(a) => {
                        return Some(canonical_id(a.as_str()));
                    },
                    None => {},
                }
            }
            i += 1;
        }
        None
    }

    /// The dispatcher's window selector: `address:` plus the native
    /// hexadecimal address.
    pub fn focus_arg(id: u64) -> (s: String)
        ensures
            s@ == "address:"@ + native_hex_address(id),
    {
        let mut s = String::new();
        s.append("address:");
        let a = format_hex_address(id);
        s.append(a.as_str());
        proof {
            assert(s@ =~= "address:"@ + native_hex_address(id));
        }
        s
    }

    /// The dispatcher argument moving a window to an exact position.
    pub fn move_arg(id: u64, x: i32, y: i32) -> (s: String)
        ensures
            s@ == "exact "@ + decimal_of_int(x as int) + " "@ + decimal_of_int(y as int)
                + ",address:"@ + native_hex_address(id),
    {
        let mut s = String::new();
        s.append("exact ");
        let xs = format_decimal_i64(x as i64);
        s.append(xs.as_str());
        s.append(" ");
        let ys = format_decimal_i64(y as i64);
        s.append(ys.as_str());
        s.append(",address:");
        let a = format_hex_address(id);
        s.append(a.as_str());
        proof {
            assert(s@ =~= "exact "@ + decimal_of_int(x as int) + " "@ + decimal_of_int(y as int)
                + ",address:"@ + native_hex_address(id));
        }
        s
    }

    /// The dispatcher argument resizing a window to an exact size.
    pub fn resize_arg(id: u64, width: i32, height: i32) -> (s: String)
        ensures
            s@ == "exact "@ + decimal_of_int(width as int) + " "@ + decimal_of_int(height as int)
                + ",address:"@ + native_hex_address(id),
    {
        let mut s = String::new();
        s.append("exact ");
        let ws = format_decimal_i64(width as i64);
        s.append(ws.as_str());
        s.append(" ");
        let hs = format_decimal_i64(height as i64);
        s.append(hs.as_str());
        s.append(",address:");
        let a = format_hex_address(id);
        s.append(a.as_str());
        proof {
            assert(s@ =~= "exact "@ + decimal_of_int(width as int) + " "@ + decimal_of_int(
                height as int,
            ) + ",address:"@ + native_hex_address(id));
        }
        s
    }

    /// The dispatcher argument hiding a window on the special
    /// workspace.
    pub fn minimize_arg(id: u64) -> (s: String)
        ensures
            s@ == "special,address:"@ + native_hex_address(id),
    {
        let mut s = String::new();
        s.append("special,address:");
        let a = format_hex_address(id);
        s.append(a.as_str());
        proof {
            assert(s@ =~= "special,address:"@ + native_hex_address(id));
        }
        s
    }

    /// The dispatcher argument bringing a window back to the current
    /// workspace.
    pub fn restore_arg(id: u64) -> (s: String)
        ensures
            s@ == "e+0,address:"@ + native_hex_address(id),
    {
        let mut s = String::new();
        s.append("e+0,address:");
        let a = format_hex_address(id);
        s.append(a.as_str());
        proof {
            assert(s@ =~= "e+0,address:"@ + native_hex_address(id));
        }
        s
    }

    /// Whether a dispatcher reply reports the fullscreen rejection,
    /// after which the move or resize is retried exactly once.
    pub fn needs_fullscreen_retry(output: &str) -> (r: bool)
        ensures
            r == contains_seq(output@, "Window is fullscreen"@),
    {
        contains_str(output, "Window is fullscreen")
    }
}

} // verus!
