//! One application entry of the dock: an application id, whether it is
//! pinned, and the windows that belong to it.

use vstd::prelude::*;

use crate::order::{
    flip, lemma_ord_opt_seq, lemma_ord_seq, no_greater, ord_int, ord_opt_seq, ord_pair, ord_seq,
    order_opt_str, order_str, order_then, order_u64, or_else_order, Order,
};
use crate::services::niri::window::NiriWindow;
use crate::services::niri::Niri;
use crate::text::{copy_string, opt_view, or_empty};

verus! {

broadcast use vstd::seq_lib::group_to_multiset_ensures;

/// The abstract state of an [App].
pub ghost struct AppModel {
    pub app_id: Seq<char>,
    pub is_pinned: bool,
    /// Ids of the application's windows, in the order they were added.
    pub windows: Seq<u64>,
}

/// An application entry of the dock.
#[derive(Debug)]
pub struct App {
    /// The application id of the windows, and the name of the `.desktop` entry.
    app_id: String,
    /// Whether the application is pinned to the dock.
    is_pinned: bool,
    /// Ids of the application's windows, in the order they were added.
    windows: Vec<u64>,
}

impl View for App {
    type V = AppModel;

    closed spec fn view(&self) -> AppModel {
        AppModel { app_id: self.app_id@, is_pinned: self.is_pinned, windows: self.windows@ }
    }
}

/// Position of a window in the scrolling layout; a floating window reads as (0, 0).
pub open spec fn pos_key(w: NiriWindow) -> (int, int) {
    match w.layout.pos_in_scrolling_layout {
        Some((c, r)) => (c as int, r as int),
        None => (0, 0),
    }
}

/// Order keys of a window's tile position; an invisible tile reads as (0, 0).
pub open spec fn tile_key(w: NiriWindow) -> (int, int) {
    match w.layout.tile_pos_in_workspace_view {
        Some((x, y)) => (x as int, y as int),
        None => (0, 0),
    }
}

/// Windows by scrolling-layout position, then by tile position.
pub open spec fn spec_compare_windows_pos(a: NiriWindow, b: NiriWindow) -> Order {
    or_else_order(ord_pair(pos_key(a), pos_key(b)), ord_pair(tile_key(a), tile_key(b)))
}

/// Windows by application id, output, workspace index, position, and then id.
pub open spec fn spec_compare_windows(a: NiriWindow, b: NiriWindow) -> Order {
    or_else_order(
        ord_opt_seq(opt_view(a.app_id), opt_view(b.app_id)),
        or_else_order(
            ord_seq(or_empty(a.output), or_empty(b.output)),
            or_else_order(
                ord_int(a.workspace_idx as int, b.workspace_idx as int),
                or_else_order(spec_compare_windows_pos(a, b), ord_int(a.id as int, b.id as int)),
            ),
        ),
    )
}

/// Windows in the scrolling layout order by column first, then by tile
/// within the column; only where both are equal does the tile position
/// decide. Two windows of one application on the same output and workspace
/// sort in that order.
pub proof fn law_windows_order_by_column_then_row(a: NiriWindow, b: NiriWindow, ca: usize, ra: usize, cb: usize, rb: usize)
    requires
        a.layout.pos_in_scrolling_layout == Some((ca, ra)),
        b.layout.pos_in_scrolling_layout == Some((cb, rb)),
    ensures
        ca < cb ==> spec_compare_windows_pos(a, b) == Order::Less,
        ca > cb ==> spec_compare_windows_pos(a, b) == Order::Greater,
        ca == cb && ra < rb ==> spec_compare_windows_pos(a, b) == Order::Less,
        ca == cb && ra > rb ==> spec_compare_windows_pos(a, b) == Order::Greater,
        a.app_id == b.app_id && a.output == b.output && a.workspace_idx == b.workspace_idx && ca < cb
            ==> spec_compare_windows(a, b) == Order::Less,
        a.app_id == b.app_id && a.output == b.output && a.workspace_idx == b.workspace_idx && ca > cb
            ==> spec_compare_windows(a, b) == Order::Greater,
{
    lemma_ord_opt_seq(opt_view(a.app_id), opt_view(b.app_id), opt_view(a.app_id));
    lemma_ord_seq(or_empty(a.output), or_empty(b.output), or_empty(a.output));
}

/// In window order, of two windows of one application on the same output
/// and workspace, the one in the lower column of the scrolling layout comes first.
pub proof fn law_sorted_windows_by_column(t: Seq<u64>, m: Map<u64, NiriWindow>, i: int, j: int)
    requires
        windows_sorted(t, m),
        0 <= i < t.len(),
        0 <= j < t.len(),
        m[t[i]].app_id == m[t[j]].app_id,
        m[t[i]].output == m[t[j]].output,
        m[t[i]].workspace_idx == m[t[j]].workspace_idx,
        m[t[i]].layout.pos_in_scrolling_layout matches Some((ci, _)) && m[t[j]].layout.pos_in_scrolling_layout matches Some(
            (cj, _),
        ) && ci < cj,
    ensures
        i < j,
{
    let (ci, ri) = m[t[i]].layout.pos_in_scrolling_layout->0;
    let (cj, rj) = m[t[j]].layout.pos_in_scrolling_layout->0;
    law_windows_order_by_column_then_row(m[t[j]], m[t[i]], cj, rj, ci, ri);
    if j < i {
        assert(no_greater(spec_compare_windows(m[t[j]], m[t[i]])));
    }
}

/// Applications pinned first, then by application id.
pub open spec fn spec_compare_apps(a: AppModel, b: AppModel) -> Order {
    if a.is_pinned != b.is_pinned {
        if a.is_pinned {
            Order::Less
        } else {
            Order::Greater
        }
    } else {
        ord_seq(a.app_id, b.app_id)
    }
}


/// The ids of `ids` that `m` knows, in order.
pub open spec fn present_ids(ids: Seq<u64>, m: Map<u64, NiriWindow>) -> Seq<u64>
    decreases ids.len(),
{
    if ids.len() == 0 {
        Seq::empty()
    } else if m.contains_key(ids.last()) {
        present_ids(ids.drop_last(), m).push(ids.last())
    } else {
        present_ids(ids.drop_last(), m)
    }
}

/// Every id of `present_ids` is known and occurs in `ids`.
pub proof fn lemma_present_ids(ids: Seq<u64>, m: Map<u64, NiriWindow>)
    ensures
        forall|i: int| 0 <= i < present_ids(ids, m).len() ==> m.contains_key(#[trigger] present_ids(ids, m)[i])
            && ids.contains(present_ids(ids, m)[i]),
        forall|k: u64| ids.contains(k) && m.contains_key(k) ==> #[trigger] present_ids(ids, m).contains(k),
    decreases ids.len(),
{
    if ids.len() > 0 {
        lemma_present_ids(ids.drop_last(), m);
        let p = present_ids(ids.drop_last(), m);
        assert forall|i: int| 0 <= i < present_ids(ids, m).len() implies m.contains_key(
            #[trigger] present_ids(ids, m)[i],
        ) && ids.contains(present_ids(ids, m)[i]) by {
            if i < p.len() {
                assert(present_ids(ids, m)[i] == p[i]);
                let j = choose|j: int| 0 <= j < ids.drop_last().len() && ids.drop_last()[j] == p[i];
                assert(ids[j] == p[i]);
            } else {
                assert(ids[ids.len() - 1] == ids.last());
            }
        }
        assert forall|k: u64| ids.contains(k) && m.contains_key(k) implies #[trigger] present_ids(ids, m).contains(k) by {
            let j = choose|j: int| 0 <= j < ids.len() && ids[j] == k;
            if j < ids.len() - 1 {
                assert(ids.drop_last()[j] == k);
                assert(p.contains(k));
                let q = choose|q: int| 0 <= q < p.len() && p[q] == k;
                assert(present_ids(ids, m)[q] == k);
            } else {
                assert(present_ids(ids, m).last() == k);
            }
        }
    }
}

/// The position of the first occurrence of `id` in `s`, if any.
pub open spec fn first_index_of(s: Seq<u64>, id: u64) -> Option<int>
    decreases s.len(),
{
    if s.len() == 0 {
        None
    } else if s[0] == id {
        Some(0)
    } else {
        match first_index_of(s.drop_first(), id) {
            Some(i) => Some(i + 1),
            None => None,
        }
    }
}

/// The first occurrence is a position of `id` with none before it; there is none only if `id` does not occur.
pub proof fn lemma_first_index_of(s: Seq<u64>, id: u64)
    ensures
        first_index_of(s, id) matches Some(i) ==> 0 <= i < s.len() && s[i] == id && forall|j: int| 0 <= j < i ==> s[j] != id,
        first_index_of(s, id) is None ==> !s.contains(id),
    decreases s.len(),
{
    if s.len() > 0 && s[0] != id {
        lemma_first_index_of(s.drop_first(), id);
        if first_index_of(s.drop_first(), id) is None {
            if s.contains(id) {
                let j = choose|j: int| 0 <= j < s.len() && s[j] == id;
                assert(s.drop_first()[j - 1] == id);
            }
        } else {
            let i = first_index_of(s.drop_first(), id)->0;
            assert forall|j: int| 0 <= j < i + 1 implies s[j] != id by {
                if j > 0 {
                    assert(s[j] == s.drop_first()[j - 1]);
                }
            }
        }
    }
}

/// Whether `s` is in non-decreasing window order.
pub open spec fn windows_sorted(s: Seq<u64>, m: Map<u64, NiriWindow>) -> bool {
    forall|i: int, j: int| 0 <= i < j < s.len() ==> no_greater(spec_compare_windows(m[#[trigger] s[i]], m[#[trigger] s[j]]))
}

/// Whether every window of `m` is stored under its own id.
pub open spec fn ids_match(m: Map<u64, NiriWindow>) -> bool {
    forall|k: u64| #[trigger] m.contains_key(k) ==> m[k].id == k
}

/// Whether `t` is an arrangement in window order of the windows of `ids` that `m` knows.
pub open spec fn is_window_order(t: Seq<u64>, ids: Seq<u64>, m: Map<u64, NiriWindow>) -> bool {
    &&& t.to_multiset() == present_ids(ids, m).to_multiset()
    &&& windows_sorted(t, m)
    &&& forall|i: int| 0 <= i < t.len() ==> m.contains_key(#[trigger] t[i])
}

/// The windows of `ids` that `m` knows, in window order. Where every window
/// is stored under its own id there is exactly one such order
/// ([law_window_order_is_unique]).
pub open spec fn sorted_window_ids(ids: Seq<u64>, m: Map<u64, NiriWindow>) -> Seq<u64> {
    choose|t: Seq<u64>| is_window_order(t, ids, m)
}

/// Two arrangements in window order of the same known windows are the same
/// sequence, where every window is stored under its own id.
pub proof fn law_window_order_is_unique(s: Seq<u64>, t: Seq<u64>, m: Map<u64, NiriWindow>)
    requires
        ids_match(m),
        windows_sorted(s, m),
        windows_sorted(t, m),
        s.to_multiset() == t.to_multiset(),
        forall|i: int| 0 <= i < s.len() ==> m.contains_key(#[trigger] s[i]),
        forall|i: int| 0 <= i < t.len() ==> m.contains_key(#[trigger] t[i]),
    ensures
        s == t,
    decreases s.len(),
{
    assert(s.len() == t.len()) by {
        assert(s.len() == s.to_multiset().len());
        assert(t.len() == t.to_multiset().len());
    }
    if s.len() > 0 {
        assert(s.to_multiset().count(s[0]) > 0) by {
            assert(s.contains(s[0]));
        }
        assert(t.contains(s[0]));
        let j = choose|j: int| 0 <= j < t.len() && t[j] == s[0];
        assert(t.to_multiset().count(t[0]) > 0) by {
            assert(t.contains(t[0]));
        }
        assert(s.contains(t[0]));
        let i = choose|i: int| 0 <= i < s.len() && s[i] == t[0];
        if j > 0 && i > 0 {
            assert(no_greater(spec_compare_windows(m[t[0]], m[t[j]])));
            assert(no_greater(spec_compare_windows(m[s[0]], m[s[i]])));
            law_compare_windows_total_order(m[s[0]], m[t[0]], m[s[0]]);
            assert(m[s[0]].id == m[t[0]].id);
            assert(m.contains_key(s[0]) && m.contains_key(t[0]));
        }
        assert(s[0] == t[0]);
        assert(s.remove(0) =~= s.drop_first());
        assert(t.remove(0) =~= t.drop_first());
        assert(s.drop_first().to_multiset() == t.drop_first().to_multiset());
        assert forall|a: int, b: int| 0 <= a < b < s.drop_first().len() implies no_greater(
            spec_compare_windows(m[#[trigger] s.drop_first()[a]], m[#[trigger] s.drop_first()[b]]),
        ) by {
            assert(s.drop_first()[a] == s[a + 1] && s.drop_first()[b] == s[b + 1]);
        }
        assert forall|a: int, b: int| 0 <= a < b < t.drop_first().len() implies no_greater(
            spec_compare_windows(m[#[trigger] t.drop_first()[a]], m[#[trigger] t.drop_first()[b]]),
        ) by {
            assert(t.drop_first()[a] == t[a + 1] && t.drop_first()[b] == t[b + 1]);
        }
        assert forall|a: int| 0 <= a < s.drop_first().len() implies m.contains_key(#[trigger] s.drop_first()[a]) by {
            assert(s.drop_first()[a] == s[a + 1]);
        }
        assert forall|a: int| 0 <= a < t.drop_first().len() implies m.contains_key(#[trigger] t.drop_first()[a]) by {
            assert(t.drop_first()[a] == t[a + 1]);
        }
        law_window_order_is_unique(s.drop_first(), t.drop_first(), m);
        assert(s =~= seq![s[0]] + s.drop_first());
        assert(t =~= seq![t[0]] + t.drop_first());
    } else {
        assert(s =~= t);
    }
}

impl App {
    /// An entry with an empty application id.
    pub fn new() -> (r: App)
        ensures
            r@ == (AppModel { app_id: Seq::empty(), is_pinned: false, windows: Seq::empty() }),
    {
        App { app_id: String::new(), is_pinned: false, windows: Vec::new() }
    }

    /// An entry for `app_id`, not pinned and without windows.
    pub fn new_for_id(app_id: String) -> (r: App)
        ensures
            r@ == (AppModel { app_id: app_id@, is_pinned: false, windows: Seq::empty() }),
    {
        App { app_id, is_pinned: false, windows: Vec::new() }
    }

    pub fn app_id(&self) -> (r: &String)
        ensures
            r@ == self@.app_id,
    {
        &self.app_id
    }

    pub fn is_pinned(&self) -> (r: bool)
        ensures
            r == self@.is_pinned,
    {
        self.is_pinned
    }

    pub fn set_is_pinned(&mut self, is_pinned: bool)
        ensures
            final(self)@ == (AppModel { is_pinned, ..old(self)@ }),
    {
        self.is_pinned = is_pinned;
    }

    /// Ids of the windows, in the order they were added.
    pub fn windows(&self) -> (r: &Vec<u64>)
        ensures
            r@ == self@.windows,
    {
        &self.windows
    }


    /// Ids of the windows that `niri` knows, in window order: the one
    /// order [sorted_window_ids].
    pub fn sorted_windows(&self, niri: &Niri) -> (r: Vec<u64>)
        ensures
            r@.to_multiset() == present_ids(self@.windows, niri@.windows).to_multiset(),
            windows_sorted(r@, niri@.windows),
            forall|i: int| 0 <= i < r@.len() ==> niri@.windows.contains_key(#[trigger] r@[i]),
            r@ == sorted_window_ids(self@.windows, niri@.windows),
    {
        let map = niri.get_windows();
        let ghost m = map@;
        let mut out: Vec<u64> = Vec::new();
        let mut i: usize = 0;
        proof {
            assert(self@.windows.take(0) =~= Seq::<u64>::empty());
        }
        while i < self.windows.len()
            invariant
                m == map@,
                m == niri@.windows,
                i <= self@.windows.len(),
                forall|q: int| 0 <= q < out@.len() ==> m.contains_key(#[trigger] out@[q]),
                windows_sorted(out@, m),
                out@.to_multiset() == present_ids(self@.windows.take(i as int), m).to_multiset(),
            decreases self@.windows.len() - i,
        {
            let id = self.windows[i];
            proof {
                assert(self@.windows.take(i + 1).drop_last() =~= self@.windows.take(i as int));
                assert(self@.windows.take(i + 1).last() == id);
            }
            if map.contains_key(&id) {
                let w = map.get(&id).unwrap();
                let ghost before = out@;
                let mut pos: usize = 0;
                while pos < out.len() && compare_windows(w, map.get(&out[pos]).unwrap()) != Order::Less
                    invariant
                        m == map@,
                        out@ == before,
                        *w == m[id],
                        pos <= out@.len(),
                        forall|q: int| 0 <= q < out@.len() ==> m.contains_key(#[trigger] out@[q]),
                        forall|q: int| 0 <= q < pos ==> spec_compare_windows(m[id], m[#[trigger] out@[q]]) != Order::Less,
                    decreases out@.len() - pos,
                {
                    pos = pos + 1;
                }
                out.insert(pos, id);
                proof {
                    let nv = out@;
                    assert(nv =~= before.insert(pos as int, id));
                    assert forall|a: int, b: int| 0 <= a < b < nv.len() implies no_greater(
                        spec_compare_windows(m[#[trigger] nv[a]], m[#[trigger] nv[b]]),
                    ) by {
                        if a < pos && b == pos {
                            law_compare_windows_total_order(m[id], m[before[a]], m[id]);
                        } else if a == pos && b > pos {
                            law_compare_windows_total_order(m[id], m[before[pos as int]], m[before[b - 1]]);
                            assert(no_greater(spec_compare_windows(m[before[pos as int]], m[before[b - 1]]))) by {
                                if b - 1 > pos {
                                    assert(before[pos as int] == nv[pos + 1]);
                                }
                            }
                        } else if a < pos && b > pos {
                            assert(nv[a] == before[a]);
                            assert(nv[b] == before[b - 1]);
                        } else if b < pos {
                            assert(nv[a] == before[a]);
                            assert(nv[b] == before[b]);
                        } else {
                            assert(nv[a] == before[a - 1]);
                            assert(nv[b] == before[b - 1]);
                        }
                    }
                }
            } else {
            }
            i = i + 1;
        }
        proof {
            assert(self@.windows.take(self@.windows.len() as int) =~= self@.windows);
            assert(is_window_order(out@, self@.windows, m));
            let t = sorted_window_ids(self@.windows, m);
            assert(is_window_order(t, self@.windows, m));
            law_window_order_is_unique(out@, t, m);
        }
        out
    }


    /// The window at `pos` in window order ([sorted_window_ids]), if there is one.
    pub fn get_window(&self, pos: usize, niri: &Niri) -> (r: Option<u64>)
        ensures
            r == (if pos < sorted_window_ids(self@.windows, niri@.windows).len() {
                Some(sorted_window_ids(self@.windows, niri@.windows)[pos as int])
            } else {
                None
            }),
            exists|sorted: Seq<u64>| {
                &&& sorted.to_multiset() == present_ids(self@.windows, niri@.windows).to_multiset()
                &&& windows_sorted(sorted, niri@.windows)
                &&& r == if pos < sorted.len() {
                    Some(sorted[pos as int])
                } else {
                    None
                }
            },
    {
        let sorted = self.sorted_windows(niri);
        if pos < sorted.len() {
            Some(sorted[pos])
        } else {
            None
        }
    }

    /// Whether one of the application's windows is on output `output`.
    pub fn in_output(&self, output: &str, niri: &Niri) -> (r: bool)
        ensures
            r == exists|i: int| 0 <= i < self@.windows.len() && niri@.windows.contains_key(#[trigger] self@.windows[i])
                && or_empty(niri@.windows[self@.windows[i]].output) == output@,
    {
        let map = niri.get_windows();
        let mut i: usize = 0;
        while i < self.windows.len()
            invariant
                map@ == niri@.windows,
                i <= self@.windows.len(),
                forall|j: int| 0 <= j < i ==> !(niri@.windows.contains_key(#[trigger] self@.windows[j])
                    && or_empty(niri@.windows[self@.windows[j]].output) == output@),
            decreases self@.windows.len() - i,
        {
            match map.get(&self.windows[i]) {
                Some(w) => {
                    let name = w.output_name();
                    if crate::text::str_eq(name.as_str(), output) {
                        return true;
                    }
                },
                None => {},
            }
            i = i + 1;
        }
        false
    }

    /// Whether one of the application's windows is on a workspace with index `idx`.
    pub fn in_workspace(&self, idx: u8, niri: &Niri) -> (r: bool)
        ensures
            r == exists|i: int| 0 <= i < self@.windows.len() && niri@.windows.contains_key(#[trigger] self@.windows[i])
                && niri@.windows[self@.windows[i]].workspace_idx == idx,
    {
        let map = niri.get_windows();
        let mut i: usize = 0;
        while i < self.windows.len()
            invariant
                map@ == niri@.windows,
                i <= self@.windows.len(),
                forall|j: int| 0 <= j < i ==> !(niri@.windows.contains_key(#[trigger] self@.windows[j])
                    && niri@.windows[self@.windows[j]].workspace_idx == idx),
            decreases self@.windows.len() - i,
        {
            match map.get(&self.windows[i]) {
                Some(w) => {
                    if w.workspace_idx == idx {
                        return true;
                    }
                },
                None => {},
            }
            i = i + 1;
        }
        false
    }

    /// Whether one of the application's windows is on output `output`, on
    /// the workspace with index `idx` there.
    pub fn in_output_workspace(&self, output: &str, idx: u8, niri: &Niri) -> (r: bool)
        ensures
            r == exists|i: int| 0 <= i < self@.windows.len() && niri@.windows.contains_key(#[trigger] self@.windows[i])
                && or_empty(niri@.windows[self@.windows[i]].output) == output@
                && niri@.windows[self@.windows[i]].workspace_idx == idx,
    {
        let map = niri.get_windows();
        let mut i: usize = 0;
        while i < self.windows.len()
            invariant
                map@ == niri@.windows,
                i <= self@.windows.len(),
                forall|j: int| 0 <= j < i ==> !(niri@.windows.contains_key(#[trigger] self@.windows[j])
                    && or_empty(niri@.windows[self@.windows[j]].output) == output@
                    && niri@.windows[self@.windows[j]].workspace_idx == idx),
            decreases self@.windows.len() - i,
        {
            match map.get(&self.windows[i]) {
                Some(w) => {
                    if w.workspace_idx == idx {
                        let name = w.output_name();
                        if crate::text::str_eq(name.as_str(), output) {
                            return true;
                        }
                    }
                },
                None => {},
            }
            i = i + 1;
        }
        false
    }

    /// Adds window `id`.
    pub fn add_window(&mut self, id: u64)
        ensures
            final(self)@ == (AppModel { windows: old(self)@.windows.push(id), ..old(self)@ }),
    {
        self.windows.push(id);
    }

    /// The position of the first window with id `id`.
    pub fn find_window(&self, id: u64) -> (r: Option<usize>)
        ensures
            r is None <==> !self@.windows.contains(id),
            r matches Some(i) ==> i < self@.windows.len() && self@.windows[i as int] == id && forall|j: int|
                0 <= j < i ==> self@.windows[j] != id,
    {
        let mut i: usize = 0;
        while i < self.windows.len()
            invariant
                i <= self@.windows.len(),
                forall|j: int| 0 <= j < i ==> self@.windows[j] != id,
            decreases self@.windows.len() - i,
        {
            if self.windows[i] == id {
                return Some(i);
            }
            i = i + 1;
        }
        None
    }

    /// Removes the window with id `id`, if there is one, and returns how many windows remain.
    pub fn remove_window(&mut self, id: u64) -> (remaining: usize)
        ensures
            final(self)@.app_id == old(self)@.app_id,
            final(self)@.is_pinned == old(self)@.is_pinned,
            match first_index_of(old(self)@.windows, id) {
                Some(i) => final(self)@.windows == old(self)@.windows.remove(i),
                None => final(self)@.windows == old(self)@.windows,
            },
            remaining == final(self)@.windows.len(),
    {
        match self.find_window(id) {
            Some(index) => {
                proof {
                    lemma_first_index_of(self@.windows, id);
                    let f = first_index_of(self@.windows, id);
                    assert(self@.windows.contains(id));
                    assert(self@.windows[index as int] == id);
                    assert(f->0 == index);
                }
                self.windows.remove(index);
            },
            None => {
                proof {
                    lemma_first_index_of(self@.windows, id);
                }
            },
        }
        self.windows.len()
    }
}

/// Compares two [App]s by reversed `is_pinned` and then `app_id`.
pub fn compare_apps(a: &App, b: &App) -> (r: Order)
    ensures
        r == spec_compare_apps(a@, b@),
{
    if a.is_pinned != b.is_pinned {
        if a.is_pinned {
            Order::Less
        } else {
            Order::Greater
        }
    } else {
        order_str(a.app_id.as_str(), b.app_id.as_str())
    }
}

/// Compares two pairs, first component first.
fn order_pair_usize(a: (usize, usize), b: (usize, usize)) -> (r: Order)
    ensures
        r == ord_pair((a.0 as int, a.1 as int), (b.0 as int, b.1 as int)),
{
    order_then(order_u64(a.0 as u64, b.0 as u64), order_u64(a.1 as u64, b.1 as u64))
}

/// Compares two pairs of order keys, first component first.
fn order_pair_i64(a: (i64, i64), b: (i64, i64)) -> (r: Order)
    ensures
        r == ord_pair((a.0 as int, a.1 as int), (b.0 as int, b.1 as int)),
{
    let first = if a.0 < b.0 {
        Order::Less
    } else if a.0 == b.0 {
        Order::Equal
    } else {
        Order::Greater
    };
    let second = if a.1 < b.1 {
        Order::Less
    } else if a.1 == b.1 {
        Order::Equal
    } else {
        Order::Greater
    };
    order_then(first, second)
}

/// Compares two windows by their `pos_in_scrolling_layout`s and `tile_pos_in_workspace_view`s.
pub fn compare_windows_pos(a: &NiriWindow, b: &NiriWindow) -> (r: Order)
    ensures
        r == spec_compare_windows_pos(*a, *b),
{
    let pa = match a.layout.pos_in_scrolling_layout {
        Some(p) => p,
        None => (0, 0),
    };
    let pb = match b.layout.pos_in_scrolling_layout {
        Some(p) => p,
        None => (0, 0),
    };
    let ta = match a.layout.tile_pos_in_workspace_view {
        Some(t) => t,
        None => (0, 0),
    };
    let tb = match b.layout.tile_pos_in_workspace_view {
        Some(t) => t,
        None => (0, 0),
    };
    order_then(order_pair_usize(pa, pb), order_pair_i64(ta, tb))
}

/// Compares two windows by `app_id`, `output`, `workspace_idx`, position and then `id`.
pub fn compare_windows(a: &NiriWindow, b: &NiriWindow) -> (r: Order)
    ensures
        r == spec_compare_windows(*a, *b),
{
    let by_app = order_opt_str(&a.app_id, &b.app_id);
    let oa = a.output_name();
    let ob = b.output_name();
    let by_output = order_str(oa.as_str(), ob.as_str());
    let by_idx = order_u64(a.workspace_idx as u64, b.workspace_idx as u64);
    let by_pos = compare_windows_pos(a, b);
    let by_id = order_u64(a.id, b.id);
    order_then(by_app, order_then(by_output, order_then(by_idx, order_then(by_pos, by_id))))
}

/// Window comparison is a total order: seen from the other side it flips,
/// it is transitive, and two windows compare equal only if all their keys,
/// the id included, are equal.
pub proof fn law_compare_windows_total_order(a: NiriWindow, b: NiriWindow, c: NiriWindow)
    ensures
        spec_compare_windows(a, b) == flip(spec_compare_windows(b, a)),
        spec_compare_windows(a, b) == Order::Equal ==> a.id == b.id,
        no_greater(spec_compare_windows(a, b)) && no_greater(spec_compare_windows(b, c)) ==> no_greater(
            spec_compare_windows(a, c),
        ),
        spec_compare_windows(a, b) == Order::Less && no_greater(spec_compare_windows(b, c))
            ==> spec_compare_windows(a, c) == Order::Less,
{
    lemma_ord_opt_seq(opt_view(a.app_id), opt_view(b.app_id), opt_view(c.app_id));
    lemma_ord_seq(or_empty(a.output), or_empty(b.output), or_empty(c.output));
}

/// Application comparison is a total order on (pinned, application id):
/// it flips when seen from the other side and it is transitive.
pub proof fn law_compare_apps_total_order(a: AppModel, b: AppModel, c: AppModel)
    ensures
        spec_compare_apps(a, b) == flip(spec_compare_apps(b, a)),
        spec_compare_apps(a, b) == Order::Equal <==> (a.is_pinned == b.is_pinned && a.app_id == b.app_id),
        no_greater(spec_compare_apps(a, b)) && no_greater(spec_compare_apps(b, c)) ==> no_greater(
            spec_compare_apps(a, c),
        ),
        spec_compare_apps(a, b) == Order::Less && no_greater(spec_compare_apps(b, c))
            ==> spec_compare_apps(a, c) == Order::Less,
{
    lemma_ord_seq(a.app_id, b.app_id, c.app_id);
}

} // verus!
