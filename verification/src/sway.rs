//! The tiling compositor backend's pure logic: walking its tree of
//! containers — both the primary and the floating child list at every
//! level — to collect candidate windows, carrying the owning output's
//! name down the recursion; filtering them into application windows;
//! and building the compositor's command strings.

use crate::codec::{format_decimal, format_decimal_i64, native_decimal, decimal_of_int, valid_window_id};
use crate::filter::{is_app_title, is_app_window, stored_title, strip_app_prefix};
use crate::model::{WindowInfo, WindowRecord};
use crate::text::{push_char, str_eq};
use vstd::prelude::*;

verus! {

/// Whether a tree field is absent, present but null, or present with a
/// value.
#[derive(Clone, Copy, PartialEq, Eq, Structural, Debug)]
pub enum FieldPresence {
    Absent,
    Null,
    Value,
}

/// One node of the compositor's tree, holding exactly what the walk
/// reads: the node type, the name, the container identifier, the focus
/// flag, the presence of the application-identifier and
/// window-properties fields, and the two child lists.
pub struct TreeNode {
    pub node_type: String,
    pub name: Option<String>,
    pub id: Option<u64>,
    pub focused: bool,
    pub app_id: FieldPresence,
    pub window_properties: FieldPresence,
    pub nodes: Vec<TreeNode>,
    pub floating_nodes: Vec<TreeNode>,
}

/// Ghost record of one candidate window the walk found.
pub ghost struct SwayCandidate {
    pub title: Option<Seq<char>>,
    pub id: Option<u64>,
    pub focused: bool,
    pub output: Option<Seq<char>>,
}

/// One candidate window as the walk hands it out.
pub struct SwayWindow {
    pub title: Option<String>,
    pub id: Option<u64>,
    pub focused: bool,
    pub output: Option<String>,
}

pub open spec fn opt_string_view(o: Option<String>) -> Option<Seq<char>> {
    match o {
        Some(s) => Some(s@),
        None => None,
    }
}

impl View for SwayWindow {
    type V = SwayCandidate;

    open spec fn view(&self) -> SwayCandidate {
        SwayCandidate {
            title: opt_string_view(self.title),
            id: self.id,
            focused: self.focused,
            output: opt_string_view(self.output),
        }
    }
}

impl DeepView for SwayWindow {
    type V = SwayCandidate;

    open spec fn deep_view(&self) -> SwayCandidate {
        self.view()
    }
}

/// The output name the children of `t` inherit: an output node hands
/// its own name down, every other node passes the inherited one on.
pub open spec fn node_output(t: TreeNode, out: Option<Seq<char>>) -> Option<Seq<char>> {
    if t.node_type@ == "output"@ {
        opt_string_view(t.name)
    } else {
        out
    }
}

/// A node is a candidate window when it is a container — tiled or
/// floating — that carries an application identifier, or, lacking that
/// field altogether, a window-properties value.
pub open spec fn is_window_node(t: TreeNode) -> bool {
    &&& (t.node_type@ == "con"@ || t.node_type@ == "floating_con"@)
    &&& match t.app_id {
        FieldPresence::Value => true,
        FieldPresence::Null => false,
        FieldPresence::Absent => t.window_properties == FieldPresence::Value,
    }
}

pub open spec fn candidate_of(t: TreeNode, out: Option<Seq<char>>) -> SwayCandidate {
    SwayCandidate {
        title: opt_string_view(t.name),
        id: t.id,
        focused: t.focused,
        output: out,
    }
}

/// The candidate windows under `t`, in walk order: the node itself
/// first, then its primary children, then its floating children, each
/// child list walked left to right under the inherited output name.
pub open spec fn candidates_of(t: TreeNode, out: Option<Seq<char>>) -> Seq<SwayCandidate>
    decreases t via candidates_of_decreases
{
    let o = node_output(t, out);
    let here = if is_window_node(t) {
        seq![candidate_of(t, o)]
    } else {
        Seq::empty()
    };
    here + candidates_of_list(t.nodes@, o) + candidates_of_list(t.floating_nodes@, o)
}

#[via_fn]
proof fn candidates_of_decreases(t: TreeNode, out: Option<Seq<char>>) {
    assert(decreases_to!(t => t.nodes@));
    assert(decreases_to!(t => t.floating_nodes@));
}

/// The candidate windows under every node of a child list.
pub open spec fn candidates_of_list(ts: Seq<TreeNode>, out: Option<Seq<char>>) -> Seq<
    SwayCandidate,
>
    decreases ts via candidates_of_list_decreases
{
    if ts.len() == 0 {
        Seq::empty()
    } else {
        candidates_of(ts[0], out) + candidates_of_list(ts.drop_first(), out)
    }
}

#[via_fn]
proof fn candidates_of_list_decreases(ts: Seq<TreeNode>, out: Option<Seq<char>>) {
    if ts.len() > 0 {
        assert(decreases_to!(ts => ts[0]));
        assert(decreases_to!(ts => ts.drop_first()));
    }
}

pub open spec fn opt_name_view(o: Option<&String>) -> Option<Seq<char>> {
    match o {
        Some(s) => Some(s@),
        None => None,
    }
}

/// Walks the tree under `t`, appending every candidate window to
/// `acc`, with `out` the inherited output name.
pub fn collect_candidates(t: &TreeNode, out: Option<&String>, acc: &mut Vec<SwayWindow>)
    ensures
        final(acc).deep_view() == old(acc).deep_view() + candidates_of(*t, opt_name_view(out)),
    decreases *t,
{
    let ghost outv = opt_name_view(out);
    let ghost base = acc.deep_view();
    let o: Option<&String> = if str_eq(t.node_type.as_str(), "output") {
        match &t.name {
            Some(n) => Some(n),
            None => None,
        }
    } else {
        out
    };
    let ghost ov = opt_name_view(o);
    proof {
        assert(ov == node_output(*t, outv));
    }
    let is_con = str_eq(t.node_type.as_str(), "con") || str_eq(
        t.node_type.as_str(),
        "floating_con",
    );
    let carries = match t.app_id {
        FieldPresence::Value => true,
        FieldPresence::Null => false,
        FieldPresence::Absent => match t.window_properties {
            FieldPresence::Value => true,
            _ => false,
        },
    };
    if is_con && carries {
        let w = SwayWindow {
            title: match &t.name {
                Some(n) => Some(n.clone()),
                None => None,
            },
            id: t.id,
            focused: t.focused,
            output: match o {
                Some(n) => Some(n.clone()),
                None => None,
            },
        };
        proof {
            assert(w@ == candidate_of(*t, ov));
        }
        let ghost prev = acc.deep_view();
        acc.push(w);
        proof {
            assert(acc.deep_view() =~= prev.push(candidate_of(*t, ov)));
        }
    }
    let ghost here = if is_window_node(*t) {
        seq![candidate_of(*t, ov)]
    } else {
        Seq::<SwayCandidate>::empty()
    };
    proof {
        assert(acc.deep_view() =~= base + here);
    }
    let mut i: usize = 0;
    while i < t.nodes.len()
        invariant
            i <= t.nodes@.len(),
            ov == node_output(*t, outv),
            here == if is_window_node(*t) {
                seq![candidate_of(*t, ov)]
            } else {
                Seq::<SwayCandidate>::empty()
            },
            opt_name_view(o) == ov,
            acc.deep_view() == base + here + candidates_of_list(
                t.nodes@.subrange(0, i as int),
                ov,
            ),
        decreases t.nodes@.len() - i,
    {
        proof {
            assert(decreases_to!(*t => t.nodes@[i as int]));
        }
        collect_candidates(&t.nodes[i], o, acc);
        proof {
            lemma_candidates_list_snoc(t.nodes@.subrange(0, i as int), t.nodes@[i as int], ov);
            assert(t.nodes@.subrange(0, i as int).push(t.nodes@[i as int]) =~= t.nodes@.subrange(
                0,
                i + 1,
            ));
        }
        i += 1;
    }
    proof {
        assert(t.nodes@.subrange(0, t.nodes@.len() as int) =~= t.nodes@);
    }
    let mut j: usize = 0;
    while j < t.floating_nodes.len()
        invariant
            j <= t.floating_nodes@.len(),
            ov == node_output(*t, outv),
            here == if is_window_node(*t) {
                seq![candidate_of(*t, ov)]
            } else {
                Seq::<SwayCandidate>::empty()
            },
            opt_name_view(o) == ov,
            acc.deep_view() == base + here + candidates_of_list(t.nodes@, ov)
                + candidates_of_list(t.floating_nodes@.subrange(0, j as int), ov),
        decreases t.floating_nodes@.len() - j,
    {
        proof {
            assert(decreases_to!(*t => t.floating_nodes@[j as int]));
        }
        collect_candidates(&t.floating_nodes[j], o, acc);
        proof {
            lemma_candidates_list_snoc(
                t.floating_nodes@.subrange(0, j as int),
                t.floating_nodes@[j as int],
                ov,
            );
            assert(t.floating_nodes@.subrange(0, j as int).push(t.floating_nodes@[j as int])
                =~= t.floating_nodes@.subrange(0, j + 1));
        }
        j += 1;
    }
    proof {
        assert(t.floating_nodes@.subrange(0, t.floating_nodes@.len() as int)
            =~= t.floating_nodes@);
        assert(acc.deep_view() =~= base + candidates_of(*t, outv));
    }
}

/// Appending one node to a walked list appends its candidates.
proof fn lemma_candidates_list_snoc(ts: Seq<TreeNode>, t: TreeNode, out: Option<Seq<char>>)
    ensures
        candidates_of_list(ts.push(t), out) == candidates_of_list(ts, out) + candidates_of(t, out),
    decreases ts.len(),
{
    if ts.len() == 0 {
        assert(ts.push(t)[0] == t);
        assert(ts.push(t).drop_first() =~= Seq::<TreeNode>::empty());
        assert(candidates_of_list(Seq::<TreeNode>::empty(), out) =~= Seq::<SwayCandidate>::empty());
        assert(candidates_of_list(ts.push(t), out) =~= candidates_of(t, out));
        assert(candidates_of_list(ts, out) + candidates_of(t, out) =~= candidates_of(t, out));
    } else {
        assert(ts.push(t).drop_first() =~= ts.drop_first().push(t));
        assert(ts.push(t)[0] == ts[0]);
        lemma_candidates_list_snoc(ts.drop_first(), t, out);
        assert(candidates_of_list(ts.push(t), out) =~= candidates_of_list(ts, out)
            + candidates_of(t, out));
    }
}

/// The application windows among the walked candidates, from index `i`
/// on: candidates with a title that passes the filter and a valid
/// identifier, each carrying its inherited output as its monitor.
pub open spec fn sway_windows_from(cs: Seq<SwayCandidate>, i: int) -> Seq<WindowInfo>
    decreases cs.len() - i when 0 <= i
{
    if i >= cs.len() {
        Seq::empty()
    } else {
        let rest = sway_windows_from(cs, i + 1);
        match cs[i].title {
            Some(tl) => {
                if is_app_title(tl) && (cs[i].id matches Some(id) && valid_window_id(id)) {
                    seq![
                        WindowInfo {
                            id: cs[i].id->Some_0,
                            title: stored_title(tl),
                            monitor: cs[i].output,
                        },
                    ] + rest
                } else {
                    rest
                }
            },
            None => rest,
        }
    }
}

/// The first focused candidate with an identifier, from index `i` on.
pub open spec fn focused_id_from(cs: Seq<SwayCandidate>, i: int) -> Option<u64>
    decreases cs.len() - i when 0 <= i
{
    if i >= cs.len() {
        None
    } else if cs[i].focused && cs[i].id is Some {
        Some(cs[i].id->Some_0)
    } else {
        focused_id_from(cs, i + 1)
    }
}

/// The identifier of the first candidate whose full title matches
/// exactly, from index `i` on.
pub open spec fn title_id_from(cs: Seq<SwayCandidate>, i: int, title: Seq<char>) -> Option<u64>
    decreases cs.len() - i when 0 <= i
{
    if i >= cs.len() {
        None
    } else if cs[i].title == Some(title) && cs[i].id is Some {
        Some(cs[i].id->Some_0)
    } else {
        title_id_from(cs, i + 1, title)
    }
}

/// The tiling compositor backend: every operation's computing half,
/// over its tree and its command strings.
pub struct SwayManager;

impl SwayManager {
    /// Walks the whole tree and hands out its candidate windows.
    pub fn all_windows(tree: &TreeNode) -> (r: Vec<SwayWindow>)
        ensures
            r.deep_view() == candidates_of(*tree, None),
    {
        let mut acc: Vec<SwayWindow> = Vec::new();
        collect_candidates(tree, None, &mut acc);
        proof {
            assert(Seq::<SwayCandidate>::empty() + candidates_of(*tree, None) =~= candidates_of(
                *tree,
                None,
            ));
            assert(acc.deep_view() =~= candidates_of(*tree, None));
        }
        acc
    }

    /// Enumerates the application windows of the tree; each inherits
    /// the name of the output it sits under as its monitor.
    pub fn get_eve_windows(tree: &TreeNode) -> (r: Vec<WindowRecord>)
        ensures
            r.deep_view() == sway_windows_from(candidates_of(*tree, None), 0),
    {
        let cands = Self::all_windows(tree);
        let ghost cs = cands.deep_view();
        let mut r: Vec<WindowRecord> = Vec::new();
        let mut i: usize = 0;
        while i < cands.len()
            invariant
                i <= cs.len(),
                cs == cands.deep_view(),
                sway_windows_from(cs, 0) == r.deep_view() + sway_windows_from(cs, i as int),
            decreases cs.len() - i,
        {
            let c = &cands[i];
            proof {
                assert(cs[i as int] == cands@[i as int]@);
            }
            match &c.title {
                Some(tl) => {
                    if is_app_window(tl.as_str()) {
                        match c.id {
                            Some(id) => {
                                if id != 0 {
                                    let ghost prev = r.deep_view();
                                    let rec = WindowRecord {
                                        id,
                                        title: strip_app_prefix(tl.as_str()),
                                        monitor: match &c.output {
                                            Some(n) => Some(n.clone()),
                                            None => None,
                                        },
                                    };
                                    r.push(rec);
                                    proof {
                                        assert(r.deep_view() =~= prev.push(rec@));
                                        assert(r.deep_view() + sway_windows_from(cs, i + 1)
                                            =~= prev + sway_windows_from(cs, i as int));
                                    }
                                }
                            },
                            None => {},
                        }
                    }
                },
                None => {},
            }
            i += 1;
        }
        proof {
            assert(r.deep_view() + sway_windows_from(cs, i as int) =~= r.deep_view());
        }
        r
    }

    /// The focused window's identifier, scanning the tree in walk
    /// order.
    pub fn get_active_window(tree: &TreeNode) -> (r: Option<u64>)
        ensures
            r == focused_id_from(candidates_of(*tree, None), 0),
    {
        let cands = Self::all_windows(tree);
        let ghost cs = cands.deep_view();
        let mut i: usize = 0;
        while i < cands.len()
            invariant
                i <= cs.len(),
                cs == cands.deep_view(),
                cs == candidates_of(*tree, None),
                focused_id_from(cs, 0) == focused_id_from(cs, i as int),
            decreases cs.len() - i,
        {
            let c = &cands[i];
            proof {
                assert(cs[i as int] == cands@[i as int]@);
            }
            if c.focused {
                match c.id {
                    Some(id) => {
                        return Some(id);
                    },
                    None => {},
                }
            }
            i += 1;
        }
        None
    }

    /// Looks the tree up by exact full title.
    pub fn find_window_by_title(tree: &TreeNode, title: &str) -> (r: Option<u64>)
        ensures
            r == title_id_from(candidates_of(*tree, None), 0, title@),
    {
        let cands = Self::all_windows(tree);
        let ghost cs = cands.deep_view();
        let mut i: usize = 0;
        while i < cands.len()
            invariant
                i <= cs.len(),
                cs == cands.deep_view(),
                cs == candidates_of(*tree, None),
                title_id_from(cs, 0, title@) == title_id_from(cs, i as int, title@),
            decreases cs.len() - i,
        {
            let c = &cands[i];
            proof {
                assert(cs[i as int] == cands@[i as int]@);
            }
            let matches_title = match &c.title {
                Some(tl) => str_eq(tl.as_str(), title),
                None => false,
            };
            if matches_title {
                match c.id {
                    Some(id) => {
                        return Some(id);
                    },
                    None => {},
                }
            }
            i += 1;
        }
        None
    }

    /// The command focusing a container.
    pub fn focus_command(id: u64) -> (s: String)
        ensures
            s@ == "[con_id="@ + native_decimal(id) + "] focus"@,
    {
        let mut s = String::new();
        s.append("[con_id=");
        let d = format_decimal(id);
        s.append(d.as_str());
        s.append("] focus");
        proof {
            assert(s@ =~= "[con_id="@ + native_decimal(id) + "] focus"@);
        }
        s
    }

    /// The command making a container float, the precondition of
    /// pixel-exact placement.
    pub fn floating_enable_command(id: u64) -> (s: String)
        ensures
            s@ == "[con_id="@ + native_decimal(id) + "] floating enable"@,
    {
        let mut s = String::new();
        s.append("[con_id=");
        let d = format_decimal(id);
        s.append(d.as_str());
        s.append("] floating enable");
        proof {
            assert(s@ =~= "[con_id="@ + native_decimal(id) + "] floating enable"@);
        }
        s
    }

    /// The command moving a container to a position.
    pub fn move_command(id: u64, x: i32, y: i32) -> (s: String)
        ensures
            s@ == "[con_id="@ + native_decimal(id) + "] move position "@ + decimal_of_int(x as int)
                + " "@ + decimal_of_int(y as int),
    {
        let mut s = String::new();
        s.append("[con_id=");
        let d = format_decimal(id);
        s.append(d.as_str());
        s.append("] move position ");
        let xs = format_decimal_i64(x as i64);
        s.append(xs.as_str());
        s.append(" ");
        let ys = format_decimal_i64(y as i64);
        s.append(ys.as_str());
        proof {
            assert(s@ =~= "[con_id="@ + native_decimal(id) + "] move position "@ + decimal_of_int(
                x as int,
            ) + " "@ + decimal_of_int(y as int));
        }
        s
    }

    /// The command resizing a container.
    pub fn resize_command(id: u64, width: i32, height: i32) -> (s: String)
        ensures
            s@ == "[con_id="@ + native_decimal(id) + "] resize set "@ + decimal_of_int(
                width as int,
            ) + " "@ + decimal_of_int(height as int),
    {
        let mut s = String::new();
        s.append("[con_id=");
        let d = format_decimal(id);
        s.append(d.as_str());
        s.append("] resize set ");
        let ws = format_decimal_i64(width as i64);
        s.append(ws.as_str());
        s.append(" ");
        let hs = format_decimal_i64(height as i64);
        s.append(hs.as_str());
        proof {
            assert(s@ =~= "[con_id="@ + native_decimal(id) + "] resize set "@ + decimal_of_int(
                width as int,
            ) + " "@ + decimal_of_int(height as int));
        }
        s
    }

    /// The command hiding a container on the scratchpad.
    pub fn minimize_command(id: u64) -> (s: String)
        ensures
            s@ == "[con_id="@ + native_decimal(id) + "] move scratchpad"@,
    {
        let mut s = String::new();
        s.append("[con_id=");
        let d = format_decimal(id);
        s.append(d.as_str());
        s.append("] move scratchpad");
        proof {
            assert(s@ =~= "[con_id="@ + native_decimal(id) + "] move scratchpad"@);
        }
        s
    }

    /// The command showing a container back from the scratchpad.
    pub fn restore_command(id: u64) -> (s: String)
        ensures
            s@ == "[con_id="@ + native_decimal(id) + "] scratchpad show"@,
    {
        let mut s = String::new();
        s.append("[con_id=");
        let d = format_decimal(id);
        s.append(d.as_str());
        s.append("] scratchpad show");
        proof {
            assert(s@ =~= "[con_id="@ + native_decimal(id) + "] scratchpad show"@);
        }
        s
    }
}

} // verus!
