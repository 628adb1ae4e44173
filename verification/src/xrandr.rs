//! Parser for the display query tool's tabular output, the monitor
//! topology source of the direct-protocol backend and of the desktop
//! shell backend: every line naming a connected output contributes one
//! monitor, taken from its first token of the form
//! `WIDTHxHEIGHT+X+Y`.

use crate::codec::{i32_of_str, parse_i32, parse_u32, u32_of_str};
use crate::model::{Monitor, MonitorInfo};
use crate::text::{
    contains_seq, contains_str, lines_from, sep_end, split_char, split_from, split_lines,
    split_once_at, tokens, tokens_from,
};
use vstd::prelude::*;

verus! {

/// The marker that distinguishes a connected output's line.
pub open spec fn connected_marker() -> Seq<char> {
    " connected"@
}

/// The monitor denoted by one geometry token, under the name of its
/// line: `WIDTHxHEIGHT+X+Y`, absent when any part is missing, fails to
/// parse, or the rectangle leaves the 32-bit coordinate space.
pub open spec fn monitor_of_token(name: Seq<char>, tok: Seq<char>) -> Option<MonitorInfo> {
    match split_once_at(tok, '+') {
        Some((res, pos)) => match split_once_at(res, 'x') {
            Some((ws, hs)) => {
                let pp = split_from(pos, '+', 0);
                if pp.len() >= 2 {
                    match u32_of_str(ws) {
                        Some(w) => match u32_of_str(hs) {
                            Some(h) => match i32_of_str(pp[0]) {
                                Some(x) => match i32_of_str(pp[1]) {
                                    Some(y) => {
                                        if x + w <= i32::MAX && y + h <= i32::MAX {
                                            Some(
                                                MonitorInfo {
                                                    name: name,
                                                    x: x as int,
                                                    y: y as int,
                                                    width: w as int,
                                                    height: h as int,
                                                },
                                            )
                                        } else {
                                            None
                                        }
                                    },
                                    None => None,
                                },
                                None => None,
                            },
                            None => None,
                        },
                        None => None,
                    }
                } else {
                    None
                }
            },
            None => None,
        },
        None => None,
    }
}

/// The first token at or after `j` that denotes a monitor, if any.
pub open spec fn first_mode_token(parts: Seq<Seq<char>>, name: Seq<char>, j: int) -> Option<
    MonitorInfo,
>
    decreases parts.len() - j when 0 <= j
{
    if j >= parts.len() {
        None
    } else {
        match monitor_of_token(name, parts[j]) {
            Some(m) => Some(m),
            None => first_mode_token(parts, name, j + 1),
        }
    }
}

/// The monitor contributed by one output line: only lines bearing the
/// connected marker count; the name is the first token.
pub open spec fn monitor_of_line(l: Seq<char>) -> Option<MonitorInfo> {
    if contains_seq(l, connected_marker()) {
        let parts = tokens_from(l, 0);
        let name = if parts.len() > 0 {
            parts[0]
        } else {
            Seq::empty()
        };
        first_mode_token(parts, name, 0)
    } else {
        None
    }
}

/// The monitors of the whole query output, from line `i` on.
pub open spec fn monitors_of_output(ls: Seq<Seq<char>>, i: int) -> Seq<MonitorInfo>
    decreases ls.len() - i when 0 <= i
{
    if i >= ls.len() {
        Seq::empty()
    } else {
        let rest = monitors_of_output(ls, i + 1);
        match monitor_of_line(ls[i]) {
            Some(m) => seq![m] + rest,
            None => rest,
        }
    }
}

/// The monitor topology denoted by the display query tool's output.
pub open spec fn monitors_of_xrandr(text: Seq<char>) -> Seq<MonitorInfo> {
    monitors_of_output(lines_from(text, 0), 0)
}

/// Parses one geometry token into a monitor.
fn monitor_of_token_exec(name: &String, tok: &String) -> (r: Option<Monitor>)
    ensures
        match r {
            Some(m) => monitor_of_token(name@, tok@) == Some(m@),
            None => monitor_of_token(name@, tok@) is None,
        },
{
    let n = tok.as_str().unicode_len();
    let p = crate::text::find_sep(tok.as_str(), '+', 0);
    if p >= n {
        return None;
    }
    let res = tok.as_str().substring_char(0, p).to_owned();
    let pos = tok.as_str().substring_char(p + 1, n).to_owned();
    let rn = res.as_str().unicode_len();
    let q = crate::text::find_sep(res.as_str(), 'x', 0);
    proof {
        assert(res@ == tok@.subrange(0, p as int));
        assert(sep_end(res@, 'x', 0) == q);
    }
    if q >= rn {
        return None;
    }
    let ws = res.as_str().substring_char(0, q).to_owned();
    let hs = res.as_str().substring_char(q + 1, rn).to_owned();
    let pp = split_char(pos.as_str(), '+');
    if pp.len() < 2 {
        return None;
    }
    let w = match parse_u32(ws.as_str()) {
        Some(w) => w,
        None => {
            return None;
        },
    };
    let h = match parse_u32(hs.as_str()) {
        Some(h) => h,
        None => {
            return None;
        },
    };
    let x = match parse_i32(pp[0].as_str()) {
        Some(x) => x,
        None => {
            return None;
        },
    };
    let y = match parse_i32(pp[1].as_str()) {
        Some(y) => y,
        None => {
            return None;
        },
    };
    if x as i64 + w as i64 <= 0x7fff_ffffi64 && y as i64 + h as i64 <= 0x7fff_ffffi64 {
        Some(Monitor { name: name.clone(), x, y, width: w, height: h })
    } else {
        None
    }
}

/// The monitor contributed by one output line, if any.
fn monitor_of_line_exec(line: &String) -> (r: Option<Monitor>)
    ensures
        match r {
            Some(m) => monitor_of_line(line@) == Some(m@),
            None => monitor_of_line(line@) is None,
        },
{
    if !contains_str(line.as_str(), " connected") {
        return None;
    }
    let parts = tokens(line.as_str());
    let ghost pv = parts.deep_view();
    let name = if parts.len() > 0 {
        parts[0].clone()
    } else {
        String::new()
    };
    proof {
        if pv.len() == 0 {
            assert(name@ =~= Seq::<char>::empty());
        }
    }
    let mut j: usize = 0;
    while j < parts.len()
        invariant
            j <= pv.len(),
            pv == parts.deep_view(),
            pv == tokens_from(line@, 0),
            contains_seq(line@, connected_marker()),
            name@ == if pv.len() > 0 {
                pv[0]
            } else {
                Seq::<char>::empty()
            },
            first_mode_token(pv, name@, 0) == first_mode_token(pv, name@, j as int),
        decreases pv.len() - j,
    {
        let tok_monitor = monitor_of_token_exec(&name, &parts[j]);
        proof {
            assert(pv[j as int] == parts@[j as int]@);
        }
        match tok_monitor {
            Some(m) => {
                proof {
                    assert(first_mode_token(pv, name@, j as int) == Some(m@));
                    assert(pv == tokens_from(line@, 0));
                    assert(monitor_of_line(line@) == first_mode_token(pv, name@, 0));
                }
                return Some(m);
            },
            None => {},
        }
        j += 1;
    }
    None
}

/// Parses the display query tool's whole output into the monitor
/// topology.  A line or token that fails to parse is a malformed
/// single record: it is skipped, never a whole-call failure.
pub fn parse_monitors(text: &str) -> (r: Vec<Monitor>)
    ensures
        r.deep_view() == monitors_of_xrandr(text@),
{
    let lines = split_lines(text);
    let ghost ls = lines.deep_view();
    let mut r: Vec<Monitor> = Vec::new();
    let mut i: usize = 0;
    while i < lines.len()
        invariant
            i <= ls.len(),
            ls == lines.deep_view(),
            monitors_of_output(ls, 0) == r.deep_view() + monitors_of_output(ls, i as int),
        decreases ls.len() - i,
    {
        let ghost prev = r.deep_view();
        match monitor_of_line_exec(&lines[i]) {
            Some(m) => {
                r.push(m);
                proof {
                    assert(r.deep_view() =~= prev.push(m@));
                    assert(r.deep_view() + monitors_of_output(ls, i + 1) =~= prev
                        + monitors_of_output(ls, i as int));
                }
            },
            None => {},
        }
        i += 1;
    }
    proof {
        assert(r.deep_view() + monitors_of_output(ls, i as int) =~= r.deep_view());
    }
    r
}

proof fn lemma_first_mode_token_wf(parts: Seq<Seq<char>>, name: Seq<char>, j: int)
    requires
        0 <= j,
    ensures
        first_mode_token(parts, name, j) matches Some(m) ==> m.wf(),
    decreases parts.len() - j,
{
    if j < parts.len() {
        lemma_first_mode_token_wf(parts, name, j + 1);
    }
}

/// Every monitor the parser yields is well formed: its rectangle fits
/// the 32-bit coordinate space.
pub proof fn lemma_xrandr_monitors_wf(ls: Seq<Seq<char>>, i: int)
    requires
        0 <= i,
    ensures
        forall|j: int|
            0 <= j < monitors_of_output(ls, i).len() ==> (#[trigger] monitors_of_output(
                ls,
                i,
            )[j]).wf(),
    decreases ls.len() - i,
{
    if i < ls.len() {
        lemma_xrandr_monitors_wf(ls, i + 1);
        let rest = monitors_of_output(ls, i + 1);
        match monitor_of_line(ls[i]) {
            Some(m) => {
                if contains_seq(ls[i], connected_marker()) {
                    let parts = tokens_from(ls[i], 0);
                    let name = if parts.len() > 0 {
                        parts[0]
                    } else {
                        Seq::<char>::empty()
                    };
                    lemma_first_mode_token_wf(parts, name, 0);
                }
                let whole = seq![m] + rest;
                assert(monitors_of_output(ls, i) == whole);
                assert forall|j: int| 0 <= j < whole.len() implies (#[trigger] whole[j]).wf() by {
                    if j == 0 {
                        assert(whole[0] == m);
                    } else {
                        assert(whole[j] == rest[j - 1]);
                    }
                }
            },
            None => {},
        }
    }
}

} // verus!
