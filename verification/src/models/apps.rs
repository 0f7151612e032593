//! The store of application entries: which applications the dock shows,
//! how windows are grouped into them, and how pinning changes them.

use vstd::prelude::*;

use super::app::{first_index_of, App, AppModel, spec_compare_apps, compare_apps, law_compare_apps_total_order};
use crate::config::{strings_view, substituted, NeoDockConfig};
use crate::order::{no_greater, Order};
use crate::services::niri::window::NiriWindow;
use crate::services::niri::{Changes, ChangesModel, Niri};
use crate::text::{or_empty, str_eq, string_or_empty};

verus! {

broadcast use vstd::seq_lib::group_to_multiset_ensures;

/// The abstract entries of a list of [App]s.
pub open spec fn apps_view(s: Seq<App>) -> Seq<AppModel> {
    Seq::new(s.len(), |i: int| s[i]@)
}

/// The position of the first entry for `app_id`, if any.
pub open spec fn first_app_index(s: Seq<AppModel>, app_id: Seq<char>) -> Option<int>
    decreases s.len(),
{
    if s.len() == 0 {
        None
    } else if s[0].app_id == app_id {
        Some(0)
    } else {
        match first_app_index(s.drop_first(), app_id) {
            Some(i) => Some(i + 1),
            None => None,
        }
    }
}

/// The first entry for an id, when there is one, lies in range and carries that id, with none before it.
pub proof fn lemma_first_app_index(s: Seq<AppModel>, x: Seq<char>)
    ensures
        first_app_index(s, x) matches Some(i) ==> 0 <= i < s.len() && s[i].app_id == x && forall|j: int|
            0 <= j < i ==> s[j].app_id != x,
        first_app_index(s, x) is None ==> forall|j: int| 0 <= j < s.len() ==> s[j].app_id != x,
    decreases s.len(),
{
    if s.len() > 0 && s[0].app_id != x {
        lemma_first_app_index(s.drop_first(), x);
        assert forall|j: int| 0 < j < s.len() implies s[j] == s.drop_first()[j - 1] by {}
    }
}

/// Every entry is pinned or has a window: an entry that is neither is never kept.
pub open spec fn apps_wf(s: Seq<AppModel>) -> bool {
    forall|i: int| 0 <= i < s.len() ==> (#[trigger] s[i]).is_pinned || s[i].windows.len() > 0
}

/// The application id under which window `w` is grouped: its own id
/// (absent reads as empty) after substitution through `sub`.
pub open spec fn window_key(w: NiriWindow, sub: Map<Seq<char>, Seq<char>>) -> Seq<char> {
    substituted(sub, or_empty(w.app_id))
}

/// The entries after window `w` opened: it joins the first entry of its
/// key ([window_key]), or a new unpinned entry at the end.
pub open spec fn spec_add_window(s: Seq<AppModel>, w: NiriWindow, sub: Map<Seq<char>, Seq<char>>) -> Seq<AppModel> {
    let id = window_key(w, sub);
    match first_app_index(s, id) {
        Some(i) => s.update(i, AppModel { windows: s[i].windows.push(w.id), ..s[i] }),
        None => s.push(AppModel { app_id: id, is_pinned: false, windows: seq![w.id] }),
    }
}

/// The entries after window `w` closed: it leaves the first entry of its
/// key ([window_key]), and that entry goes if it is left unpinned without windows.
pub open spec fn spec_remove_window(s: Seq<AppModel>, w: NiriWindow, sub: Map<Seq<char>, Seq<char>>) -> Seq<AppModel> {
    match first_app_index(s, window_key(w, sub)) {
        Some(i) => {
            let a = s[i];
            let ws = match first_index_of(a.windows, w.id) {
                Some(j) => a.windows.remove(j),
                None => a.windows,
            };
            if ws.len() == 0 && !a.is_pinned {
                s.remove(i)
            } else {
                s.update(i, AppModel { windows: ws, ..a })
            }
        },
        None => s,
    }
}

/// The entries after the windows `ids` opened, in order; ids that `m` does
/// not know are passed over.
pub open spec fn spec_add_windows(
    s: Seq<AppModel>,
    ids: Seq<u64>,
    m: Map<u64, NiriWindow>,
    sub: Map<Seq<char>, Seq<char>>,
) -> Seq<AppModel>
    decreases ids.len(),
{
    if ids.len() == 0 {
        s
    } else {
        let t = spec_add_windows(s, ids.drop_last(), m, sub);
        if m.contains_key(ids.last()) {
            spec_add_window(t, m[ids.last()], sub)
        } else {
            t
        }
    }
}

/// The entries after an event of the mirror `m` reported `changes`: the
/// windows it opened join their entries, then the window it closed leaves its own.
pub open spec fn spec_follow_changes(
    s: Seq<AppModel>,
    m: Map<u64, NiriWindow>,
    changes: ChangesModel,
    sub: Map<Seq<char>, Seq<char>>,
) -> Seq<AppModel> {
    let added = spec_add_windows(s, changes.created, m, sub);
    match changes.closed {
        Some(w) => spec_remove_window(added, w, sub),
        None => added,
    }
}

/// Whether `t` lists the positions of `s` in display order: each position
/// once, pinned entries first, then by application id, and entries that
/// compare equal in store order.
pub open spec fn is_display_order(t: Seq<usize>, s: Seq<AppModel>) -> bool {
    &&& t.to_multiset() == Seq::new(s.len(), |i: int| i as usize).to_multiset()
    &&& forall|i: int| 0 <= i < t.len() ==> #[trigger] t[i] < s.len()
    &&& forall|i: int, j: int| 0 <= i < j < t.len() ==> no_greater(
        spec_compare_apps(s[#[trigger] t[i] as int], s[#[trigger] t[j] as int]),
    )
    &&& forall|i: int, j: int| 0 <= i < j < t.len() && spec_compare_apps(
        s[#[trigger] t[i] as int],
        s[#[trigger] t[j] as int],
    ) == Order::Equal ==> t[i] < t[j]
}

/// The positions of `s` in display order; there is exactly one such order
/// ([law_display_order_is_unique]).
pub open spec fn display_order(s: Seq<AppModel>) -> Seq<usize> {
    choose|t: Seq<usize>| is_display_order(t, s)
}

/// Two lists of the positions of `s` in display order are the same list.
pub proof fn law_display_order_is_unique(a: Seq<usize>, b: Seq<usize>, s: Seq<AppModel>)
    requires
        is_display_order(a, s),
        is_display_order(b, s),
    ensures
        a == b,
{
    lemma_same_order_prefix(a, b, s);
}

/// Two position lists with the same elements, each sorted and stable, are equal.
proof fn lemma_same_order_prefix(a: Seq<usize>, b: Seq<usize>, s: Seq<AppModel>)
    requires
        a.to_multiset() == b.to_multiset(),
        forall|i: int| 0 <= i < a.len() ==> #[trigger] a[i] < s.len(),
        forall|i: int| 0 <= i < b.len() ==> #[trigger] b[i] < s.len(),
        forall|i: int, j: int| 0 <= i < j < a.len() ==> no_greater(
            spec_compare_apps(s[#[trigger] a[i] as int], s[#[trigger] a[j] as int]),
        ),
        forall|i: int, j: int| 0 <= i < j < a.len() && spec_compare_apps(
            s[#[trigger] a[i] as int],
            s[#[trigger] a[j] as int],
        ) == Order::Equal ==> a[i] < a[j],
        forall|i: int, j: int| 0 <= i < j < b.len() ==> no_greater(
            spec_compare_apps(s[#[trigger] b[i] as int], s[#[trigger] b[j] as int]),
        ),
        forall|i: int, j: int| 0 <= i < j < b.len() && spec_compare_apps(
            s[#[trigger] b[i] as int],
            s[#[trigger] b[j] as int],
        ) == Order::Equal ==> b[i] < b[j],
    ensures
        a == b,
    decreases a.len(),
{
    assert(a.len() == b.len()) by {
        assert(a.len() == a.to_multiset().len());
        assert(b.len() == b.to_multiset().len());
    }
    if a.len() > 0 {
        assert(a.to_multiset().count(a[0]) > 0) by {
            assert(a.contains(a[0]));
        }
        assert(b.contains(a[0]));
        let j = choose|j: int| 0 <= j < b.len() && b[j] == a[0];
        assert(b.to_multiset().count(b[0]) > 0) by {
            assert(b.contains(b[0]));
        }
        assert(a.contains(b[0]));
        let i = choose|i: int| 0 <= i < a.len() && a[i] == b[0];
        if j > 0 && i > 0 {
            let x = s[a[0] as int];
            let y = s[b[0] as int];
            assert(no_greater(spec_compare_apps(y, s[b[j] as int])));
            assert(no_greater(spec_compare_apps(x, s[a[i] as int])));
            law_compare_apps_total_order(x, y, x);
            assert(spec_compare_apps(x, y) == Order::Equal);
            assert(b[0] < b[j]);
            assert(a[0] < a[i]);
        }
        assert(a[0] == b[0]);
        assert(a.remove(0) =~= a.drop_first());
        assert(b.remove(0) =~= b.drop_first());
        assert(a.drop_first().to_multiset() == b.drop_first().to_multiset());
        let a1 = a.drop_first();
        let b1 = b.drop_first();
        assert forall|p: int, q: int| 0 <= p < q < a1.len() implies no_greater(
            spec_compare_apps(s[#[trigger] a1[p] as int], s[#[trigger] a1[q] as int]),
        ) && (spec_compare_apps(s[a1[p] as int], s[a1[q] as int]) == Order::Equal ==> a1[p] < a1[q]) by {
            assert(a1[p] == a[p + 1] && a1[q] == a[q + 1]);
        }
        assert forall|p: int, q: int| 0 <= p < q < b1.len() implies no_greater(
            spec_compare_apps(s[#[trigger] b1[p] as int], s[#[trigger] b1[q] as int]),
        ) && (spec_compare_apps(s[b1[p] as int], s[b1[q] as int]) == Order::Equal ==> b1[p] < b1[q]) by {
            assert(b1[p] == b[p + 1] && b1[q] == b[q + 1]);
        }
        assert forall|p: int| 0 <= p < a1.len() implies #[trigger] a1[p] < s.len() by {
            assert(a1[p] == a[p + 1]);
        }
        assert forall|p: int| 0 <= p < b1.len() implies #[trigger] b1[p] < s.len() by {
            assert(b1[p] == b[p + 1]);
        }
        lemma_same_order_prefix(a1, b1, s);
        assert(a =~= seq![a[0]] + a1);
        assert(b =~= seq![b[0]] + b1);
    } else {
        assert(a =~= b);
    }
}

/// Whether entry `a` is pinned but no longer listed in `pinned`.
pub open spec fn loses_pin(a: AppModel, pinned: Seq<Seq<char>>) -> bool {
    a.is_pinned && !pinned.contains(a.app_id)
}

/// The entries after unpinning those no longer listed: an entry that loses
/// its pin is dropped if it has no window, and kept unpinned otherwise.
pub open spec fn spec_unpin(s: Seq<AppModel>, pinned: Seq<Seq<char>>) -> Seq<AppModel>
    decreases s.len(),
{
    if s.len() == 0 {
        Seq::empty()
    } else {
        let p = spec_unpin(s.drop_last(), pinned);
        let a = s.last();
        if loses_pin(a, pinned) {
            if a.windows.len() == 0 {
                p
            } else {
                p.push(AppModel { is_pinned: false, ..a })
            }
        } else {
            p.push(a)
        }
    }
}

/// Whether `app_id` was pinned in `s` and is still listed in `pinned`.
pub open spec fn kept_pinned(s: Seq<AppModel>, pinned: Seq<Seq<char>>, app_id: Seq<char>) -> bool {
    pinned.contains(app_id) && exists|i: int| 0 <= i < s.len() && s[i].is_pinned && s[i].app_id == app_id
}

/// Whether one of the first `n` entries of `s` is pinned with an id listed in `pinned`, the id being `x`.
pub open spec fn pinned_before(s: Seq<AppModel>, pinned: Seq<Seq<char>>, n: int, x: Seq<char>) -> bool {
    exists|j: int| 0 <= j < n && s[j].is_pinned && pinned.contains(s[j].app_id) && s[j].app_id == x
}

/// One listed application pinned: skipped if it was pinned already, else
/// its first entry is pinned, or a new pinned entry is added at the end.
pub open spec fn spec_pin_one(s: Seq<AppModel>, kept: bool, app_id: Seq<char>) -> Seq<AppModel> {
    if kept {
        s
    } else {
        match first_app_index(s, app_id) {
            Some(i) => s.update(i, AppModel { is_pinned: true, ..s[i] }),
            None => s.push(AppModel { app_id, is_pinned: true, windows: Seq::empty() }),
        }
    }
}

/// Every listed application of `list` pinned in order.
pub open spec fn spec_pin_all(s: Seq<AppModel>, orig: Seq<AppModel>, pinned: Seq<Seq<char>>, list: Seq<Seq<char>>) -> Seq<AppModel>
    decreases list.len(),
{
    if list.len() == 0 {
        s
    } else {
        let p = spec_pin_all(s, orig, pinned, list.drop_last());
        spec_pin_one(p, kept_pinned(orig, pinned, list.last()), list.last())
    }
}

/// The entries after the pinned list became `pinned`.
pub open spec fn spec_update_pinned(s: Seq<AppModel>, pinned: Seq<Seq<char>>) -> Seq<AppModel> {
    spec_pin_all(spec_unpin(s, pinned), s, pinned, pinned)
}

/// Whether `v` holds a string with the characters of `x`.
pub fn contains_str(v: &Vec<String>, x: &str) -> (r: bool)
    ensures
        r == strings_view(v@).contains(x@),
{
    let mut i: usize = 0;
    while i < v.len()
        invariant
            i <= v@.len(),
            forall|j: int| 0 <= j < i ==> v@[j]@ != x@,
        decreases v@.len() - i,
    {
        if str_eq(v[i].as_str(), x) {
            proof {
                assert(strings_view(v@)[i as int] == x@);
            }
            return true;
        }
        i = i + 1;
    }
    proof {
        if strings_view(v@).contains(x@) {
            let j = choose|j: int| 0 <= j < strings_view(v@).len() && strings_view(v@)[j] == x@;
            assert(v@[j]@ == x@);
        }
    }
    false
}

/// The application entries of the dock, in the order they were added.
pub struct Apps {
    apps: Vec<App>,
}

impl View for Apps {
    type V = Seq<AppModel>;

    closed spec fn view(&self) -> Seq<AppModel> {
        apps_view(self.apps@)
    }
}

impl Apps {
    /// No entries.
    pub fn new() -> (r: Apps)
        ensures
            r@ == Seq::<AppModel>::empty(),
    {
        let r = Apps { apps: Vec::new() };
        proof {
            assert(r@ =~= Seq::<AppModel>::empty());
        }
        r
    }

    /// Number of entries.
    pub fn len(&self) -> (r: usize)
        ensures
            r == self@.len(),
    {
        self.apps.len()
    }

    /// The entry at `index`.
    pub fn get(&self, index: usize) -> (r: &App)
        requires
            index < self@.len(),
        ensures
            r@ == self@[index as int],
    {
        &self.apps[index]
    }


    /// Positions of the entries in display order: pinned first, then by
    /// application id; entries that compare equal keep their store order.
    pub fn sorted_apps(&self) -> (r: Vec<usize>)
        ensures
            r@.to_multiset() == Seq::new(self@.len(), |i: int| i as usize).to_multiset(),
            forall|i: int| 0 <= i < r@.len() ==> #[trigger] r@[i] < self@.len(),
            forall|i: int, j: int| 0 <= i < j < r@.len() ==> no_greater(
                spec_compare_apps(self@[#[trigger] r@[i] as int], self@[#[trigger] r@[j] as int]),
            ),
            forall|i: int, j: int| 0 <= i < j < r@.len() && spec_compare_apps(
                self@[#[trigger] r@[i] as int],
                self@[#[trigger] r@[j] as int],
            ) == Order::Equal ==> r@[i] < r@[j],
            r@ == display_order(self@),
    {
        let ghost m = self@;
        let mut out: Vec<usize> = Vec::new();
        let mut i: usize = 0;
        proof {
            assert(Seq::new(0nat, |k: int| k as usize) =~= Seq::<usize>::empty());
        }
        while i < self.apps.len()
            invariant
                m == self@,
                m == apps_view(self.apps@),
                i <= m.len(),
                forall|q: int| 0 <= q < out@.len() ==> #[trigger] out@[q] < i,
                forall|a: int, b: int| 0 <= a < b < out@.len() ==> no_greater(
                    spec_compare_apps(m[#[trigger] out@[a] as int], m[#[trigger] out@[b] as int]),
                ),
                out@.to_multiset() == Seq::new(i as nat, |k: int| k as usize).to_multiset(),
                forall|a: int, b: int| 0 <= a < b < out@.len() && spec_compare_apps(
                    m[#[trigger] out@[a] as int],
                    m[#[trigger] out@[b] as int],
                ) == Order::Equal ==> out@[a] < out@[b],
            decreases m.len() - i,
        {
            let ghost before = out@;
            let mut pos: usize = 0;
            while pos < out.len() && compare_apps(&self.apps[i], &self.apps[out[pos]]) != Order::Less
                invariant
                    m == apps_view(self.apps@),
                    out@ == before,
                    i < m.len(),
                    pos <= out@.len(),
                    forall|q: int| 0 <= q < out@.len() ==> #[trigger] out@[q] < i,
                    forall|q: int| 0 <= q < pos ==> spec_compare_apps(m[i as int], m[#[trigger] out@[q] as int]) != Order::Less,
                decreases out@.len() - pos,
            {
                pos = pos + 1;
            }
            out.insert(pos, i);
            proof {
                let nv = out@;
                assert(nv =~= before.insert(pos as int, i));
                vstd::seq_lib::to_multiset_insert(before, pos as int, i);
                vstd::seq_lib::to_multiset_build(Seq::new(i as nat, |k: int| k as usize), i);
                assert(Seq::new((i + 1) as nat, |k: int| k as usize) =~= Seq::new(i as nat, |k: int| k as usize).push(i));
                assert forall|a: int, b: int| 0 <= a < b < nv.len() implies no_greater(
                    spec_compare_apps(m[#[trigger] nv[a] as int], m[#[trigger] nv[b] as int]),
                ) by {
                    if a < pos && b == pos {
                        law_compare_apps_total_order(m[i as int], m[before[a] as int], m[i as int]);
                    } else if a == pos && b > pos {
                        law_compare_apps_total_order(m[i as int], m[before[pos as int] as int], m[before[b - 1] as int]);
                        if b - 1 > pos {
                            assert(no_greater(spec_compare_apps(m[before[pos as int] as int], m[before[b - 1] as int])));
                        } else {
                            law_compare_apps_total_order(m[before[pos as int] as int], m[before[pos as int] as int], m[before[pos as int] as int]);
                        }
                    } else if a < pos && b > pos {
                        assert(nv[a] == before[a]);
                        assert(nv[b] == before[b - 1]);
                    } else if b < pos {
                        assert(nv[a] == before[a]);
                        assert(nv[b] == before[b]);
                    } else {
                        assert(nv[a] == before[a - 1]);
                        assert(nv[b] == before[b - 1]);
                    }
                }
                assert forall|a: int, b: int| 0 <= a < b < nv.len() && spec_compare_apps(
                    m[#[trigger] nv[a] as int],
                    m[#[trigger] nv[b] as int],
                ) == Order::Equal implies nv[a] < nv[b] by {
                    if a == pos && b > pos {
                        assert(spec_compare_apps(m[i as int], m[before[pos as int] as int]) == Order::Less);
                        if b - 1 > pos {
                            assert(no_greater(spec_compare_apps(m[before[pos as int] as int], m[before[b - 1] as int])));
                        } else {
                            law_compare_apps_total_order(m[before[pos as int] as int], m[before[pos as int] as int], m[before[pos as int] as int]);
                        }
                        law_compare_apps_total_order(m[i as int], m[before[pos as int] as int], m[before[b - 1] as int]);
                    } else if a < pos && b > pos {
                        assert(nv[a] == before[a]);
                        assert(nv[b] == before[b - 1]);
                    } else if b < pos {
                        assert(nv[a] == before[a]);
                        assert(nv[b] == before[b]);
                    } else if a > pos {
                        assert(nv[a] == before[a - 1]);
                        assert(nv[b] == before[b - 1]);
                    }
                }
            }
            i = i + 1;
        }
        proof {
            assert(Seq::new(i as nat, |k: int| k as usize) =~= Seq::new(m.len(), |k: int| k as usize));
            assert(is_display_order(out@, m));
            law_display_order_is_unique(out@, display_order(m), m);
        }
        out
    }

    /// Finds the first entry for `app_id`.
    pub fn find_app_info(&self, app_id: &str) -> (r: Option<usize>)
        ensures
            r matches Some(i) ==> first_app_index(self@, app_id@) == Some(i as int) && i < self@.len()
                && self@[i as int].app_id == app_id@,
            r is None ==> first_app_index(self@, app_id@) is None,
    {
        let mut i: usize = 0;
        while i < self.apps.len()
            invariant
                i <= self@.len(),
                self@ == apps_view(self.apps@),
                forall|j: int| 0 <= j < i ==> self@[j].app_id != app_id@,
            decreases self@.len() - i,
        {
            if str_eq(self.apps[i].app_id().as_str(), app_id) {
                proof {
                    lemma_first_app_index(self@, app_id@);
                    let f = first_app_index(self@, app_id@);
                    assert(self@[i as int].app_id == app_id@);
                    assert(f is Some);
                    assert(f->0 == i);
                }
                return Some(i);
            }
            i = i + 1;
        }
        proof {
            lemma_first_app_index(self@, app_id@);
            if first_app_index(self@, app_id@) is Some {
                let c = first_app_index(self@, app_id@)->0;
                assert(self@[c].app_id == app_id@);
            }
        }
        None
    }

    /// Appends an entry.
    fn push(&mut self, app: App)
        ensures
            final(self)@ == old(self)@.push(app@),
    {
        self.apps.push(app);
        proof {
            assert(self@ =~= old(self)@.push(app@));
        }
    }

    /// Adds a pinned entry for each of `pinned`, in order.
    pub fn add_pinned_apps(&mut self, pinned: &Vec<String>)
        ensures
            final(self)@ == old(self)@ + Seq::new(
                pinned@.len(),
                |i: int| AppModel { app_id: pinned@[i]@, is_pinned: true, windows: Seq::empty() },
            ),
    {
        let ghost start = self@;
        let mut i: usize = 0;
        while i < pinned.len()
            invariant
                i <= pinned@.len(),
                self@ == start + Seq::new(
                    i as nat,
                    |k: int| AppModel { app_id: pinned@[k]@, is_pinned: true, windows: Seq::empty() },
                ),
            decreases pinned@.len() - i,
        {
            let mut app = App::new_for_id(pinned[i].clone());
            app.set_is_pinned(true);
            self.push(app);
            i = i + 1;
            proof {
                assert(self@ =~= start + Seq::new(
                    i as nat,
                    |k: int| AppModel { app_id: pinned@[k]@, is_pinned: true, windows: Seq::empty() },
                ));
            }
        }
    }


    /// Pins every application of `pinned` that `already` does not hold.
    #[verifier::rlimit(60)]
    fn pin_listed(
        &mut self,
        pinned: &Vec<String>,
        already: &Vec<String>,
        Ghost(orig): Ghost<Seq<AppModel>>,
        Ghost(unpinned): Ghost<Seq<AppModel>>,
    )
        requires
            forall|x: Seq<char>| #[trigger] strings_view(already@).contains(x) == kept_pinned(orig, strings_view(pinned@), x),
            old(self)@ == unpinned,
        ensures
            final(self)@ == spec_pin_all(unpinned, orig, strings_view(pinned@), strings_view(pinned@)),
    {
        let ghost pv = strings_view(pinned@);
        proof {
            assert(pv.take(0) =~= Seq::<Seq<char>>::empty());
        }
        let mut i: usize = 0;
        while i < pinned.len()
            invariant
                i <= pinned@.len(),
                pv == strings_view(pinned@),
                forall|x: Seq<char>| #[trigger] strings_view(already@).contains(x) == kept_pinned(orig, pv, x),
                self@ == spec_pin_all(unpinned, orig, pv, pv.take(i as int)),
            decreases pinned@.len() - i,
        {
            let x = pinned[i].as_str();
            proof {
                assert(pv.take(i + 1).drop_last() =~= pv.take(i as int));
                assert(pv.take(i + 1).last() == x@);
                assert(pv.contains(x@)) by {
                    assert(pv[i as int] == x@);
                }
            }
            let kept_before = contains_str(&already, x);
            proof {
                assert(kept_before == kept_pinned(orig, pv, x@));
            }
            if !kept_before {
                match self.find_app_info(x) {
                    Some(j) => {
                        let ghost s = self@;
                        let ghost sa = self.apps@;
                        let mut app = self.apps.remove(j);
                        app.set_is_pinned(true);
                        self.apps.insert(j, app);
                        proof {
                            assert(self.apps@ =~= sa.update(j as int, app));
                            assert(self@ =~= s.update(j as int, AppModel { is_pinned: true, ..s[j as int] }));
                        }
                    },
                    None => {
                        let mut app = App::new_for_id(pinned[i].clone());
                        app.set_is_pinned(true);
                        self.push(app);
                    },
                }
            }
            i = i + 1;
        }
        proof {
            assert(pv.take(pv.len() as int) =~= pv);
        }
    }


    /// Follows a new list of pinned applications: entries that are no longer
    /// listed lose their pin (and go if they have no window), and every
    /// listed application gets a pinned entry.
    #[verifier::rlimit(40)]
    pub fn update_pinned_apps(&mut self, pinned: &Vec<String>)
        ensures
            final(self)@ == spec_update_pinned(old(self)@, strings_view(pinned@)),
    {
        let ghost orig = self@;
        let ghost pv = strings_view(pinned@);
        let mut old_apps: Vec<App> = Vec::new();
        std::mem::swap(&mut old_apps, &mut self.apps);
        let ghost src = old_apps@;
        proof {
            assert(apps_view(src) == orig);
        }
        let mut kept: Vec<App> = Vec::new();
        let mut already: Vec<String> = Vec::new();
        proof {
            assert(apps_view(kept@) =~= spec_unpin(orig.take(0), pv)) by {
                assert(orig.take(0).len() == 0);
            }
        }
        for app in it: old_apps
            invariant
                it.seq() == src,
                apps_view(src) == orig,
                pv == strings_view(pinned@),
                apps_view(kept@) == spec_unpin(orig.take(it.index() as int), pv),
                forall|x: Seq<char>| #[trigger] strings_view(already@).contains(x) == pinned_before(orig, pv, it.index() as int, x),
        {
            let ghost n = it.index() as int;
            let ghost before_already = strings_view(already@);
            let mut app = app;
            proof {
                assert(app@ == orig[n]);
                assert(orig.take(n + 1).drop_last() =~= orig.take(n));
                assert(orig.take(n + 1).last() == orig[n]);
            }
            if app.is_pinned() && contains_str(pinned, app.app_id().as_str()) {
                already.push(app.app_id().clone());
                proof {
                    assert(strings_view(already@) =~= before_already.push(orig[n].app_id));
                    assert forall|x: Seq<char>| #[trigger] strings_view(already@).contains(x) == pinned_before(orig, pv, n + 1, x) by {
                        if x == orig[n].app_id {
                            assert(strings_view(already@)[before_already.len() as int] == x);
                        } else {
                            if strings_view(already@).contains(x) {
                                let q = choose|q: int| 0 <= q < strings_view(already@).len() && strings_view(already@)[q] == x;
                                assert(before_already[q] == x);
                            }
                            if before_already.contains(x) {
                                let q = choose|q: int| 0 <= q < before_already.len() && before_already[q] == x;
                                assert(strings_view(already@)[q] == x);
                            }
                        }
                    }
                }
                kept.push(app);
            } else {
                proof {
                    assert forall|x: Seq<char>| #[trigger] strings_view(already@).contains(x) == pinned_before(orig, pv, n + 1, x) by {
                        if pinned_before(orig, pv, n + 1, x) {
                            let j = choose|j: int| 0 <= j < n + 1 && orig[j].is_pinned && pv.contains(orig[j].app_id) && orig[j].app_id == x;
                            if j < n {
                                assert(pinned_before(orig, pv, n, x));
                            }
                        }
                    }
                }
                if app.is_pinned() {
                    app.set_is_pinned(false);
                    if app.windows().len() > 0 {
                        kept.push(app);
                    }
                } else {
                    kept.push(app);
                }
            }
            proof {
                assert(apps_view(kept@) =~= spec_unpin(orig.take(n + 1), pv));
            }
        }
        proof {
            assert forall|x: Seq<char>| #[trigger] strings_view(already@).contains(x) == kept_pinned(orig, pv, x) by {
                if pinned_before(orig, pv, orig.len() as int, x) {
                    let j = choose|j: int| 0 <= j < orig.len() && orig[j].is_pinned && pv.contains(orig[j].app_id) && orig[j].app_id == x;
                }
                if kept_pinned(orig, pv, x) {
                    let j = choose|j: int| 0 <= j < orig.len() && orig[j].is_pinned && orig[j].app_id == x;
                    assert(pinned_before(orig, pv, orig.len() as int, x));
                }
            }
        }
        self.apps = kept;
        let ghost unpinned = self@;
        proof {
            assert(orig.take(orig.len() as int) =~= orig);
            assert(unpinned == spec_unpin(orig, pv));
            assert(pv.take(0) =~= Seq::<Seq<char>>::empty());
        }
        self.pin_listed(pinned, &already, Ghost(orig), Ghost(unpinned));
    }

    /// Adds window `window` to the entry of its application, creating an
    /// entry if there is none; the application id is taken after the
    /// substitution that `config` sets.
    pub fn add_window_to_apps(&mut self, window: &NiriWindow, config: &NeoDockConfig)
        ensures
            final(self)@ == spec_add_window(old(self)@, *window, config@.app_id_substitution),
    {
        let app_id = config.get_substituted(string_or_empty(&window.app_id));
        match self.find_app_info(app_id.as_str()) {
            Some(i) => {
                let mut app = self.apps.remove(i);
                app.add_window(window.id);
                self.apps.insert(i, app);
                proof {
                    let s = old(self)@;
                    assert(first_app_index(s, window_key(*window, config@.app_id_substitution)) == Some(i as int));
                    assert(self.apps@ =~= old(self).apps@.update(i as int, app));
                    assert(self@ =~= s.update(i as int, AppModel { windows: s[i as int].windows.push(window.id), ..s[i as int] }));
                }
            },
            None => {
                let mut app = App::new_for_id(app_id);
                app.add_window(window.id);
                self.push(app);
                proof {
                    assert(self@ =~= spec_add_window(old(self)@, *window, config@.app_id_substitution));
                }
            },
        }
    }

    /// Removes window `window` from the entry of its application (its id
    /// after the substitution that `config` sets), and drops that entry if it
    /// is unpinned and left without windows.
    #[verifier::rlimit(40)]
    pub fn remove_window_from_apps(&mut self, window: &NiriWindow, config: &NeoDockConfig)
        ensures
            final(self)@ == spec_remove_window(old(self)@, *window, config@.app_id_substitution),
    {
        let app_id = config.get_substituted(string_or_empty(&window.app_id));
        match self.find_app_info(app_id.as_str()) {
            Some(i) => {
                let mut app = self.apps.remove(i);
                let ghost taken = app@;
                let remaining = app.remove_window(window.id);
                proof {
                    let s = old(self)@;
                    assert(taken == s[i as int]);
                    let ws = match first_index_of(taken.windows, window.id) {
                        Some(j) => taken.windows.remove(j),
                        None => taken.windows,
                    };
                    assert(app@.windows == ws);
                    assert(app@ == AppModel { windows: ws, ..taken });
                }
                if remaining == 0 && !app.is_pinned() {
                    proof {
                        assert(self.apps@ =~= old(self).apps@.remove(i as int));
                        assert(self@ =~= old(self)@.remove(i as int));
                    }
                } else {
                    self.apps.insert(i, app);
                    proof {
                        let s = old(self)@;
                        assert(self.apps@ =~= old(self).apps@.update(i as int, app));
                        assert(self@ =~= s.update(i as int, app@));
                    }
                }
            },
            None => {},
        }
    }

    /// Regroups the windows after an event of `niri` reported `changes`:
    /// each window opened joins the entry of its application, and the
    /// window closed leaves its entry; application ids are taken after the
    /// substitution that `config` sets.
    pub fn follow_changes(&mut self, niri: &Niri, changes: &Changes, config: &NeoDockConfig)
        ensures
            final(self)@ == spec_follow_changes(old(self)@, niri@.windows, changes@, config@.app_id_substitution),
    {
        let ghost start = self@;
        let ghost m = niri@.windows;
        let map = niri.get_windows();
        let mut i: usize = 0;
        while i < changes.created.len()
            invariant
                map@ == m,
                i <= changes.created@.len(),
                self@ == spec_add_windows(start, changes.created@.take(i as int), m, config@.app_id_substitution),
            decreases changes.created@.len() - i,
        {
            let id = changes.created[i];
            proof {
                let ids = changes.created@.take(i + 1);
                assert(ids.drop_last() =~= changes.created@.take(i as int));
                assert(ids.last() == id);
            }
            match map.get(&id) {
                Some(w) => self.add_window_to_apps(w, config),
                None => {},
            }
            i = i + 1;
        }
        proof {
            assert(changes.created@.take(changes.created@.len() as int) =~= changes.created@);
        }
        match &changes.closed {
            Some(w) => self.remove_window_from_apps(w, config),
            None => {},
        }
    }
}

} // verus!
