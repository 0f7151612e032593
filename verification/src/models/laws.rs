//! Properties of the application store that hold across operations.

use vstd::prelude::*;

use super::app::{first_index_of, lemma_first_index_of, present_ids, AppModel};
use super::apps::{apps_wf, first_app_index, lemma_first_app_index, kept_pinned, loses_pin, spec_add_window, spec_add_windows, window_key, spec_follow_changes, spec_pin_all, spec_pin_one, spec_remove_window, spec_unpin, spec_update_pinned};
use crate::services::niri::ipc;
use crate::services::niri::laws::{keeps_app_ids, keeps_windows, law_reported_window_is_recorded, lemma_apply_windows};
use crate::services::niri::window::NiriWindow;
use crate::services::niri::NiriModel;
use crate::config::substituted;
use crate::text::or_empty;

verus! {

/// The first entry for an id depends only on the ids of the entries.
pub proof fn lemma_first_app_index_ids(s: Seq<AppModel>, t: Seq<AppModel>, x: Seq<char>)
    requires
        s.len() == t.len(),
        forall|k: int| 0 <= k < s.len() ==> (#[trigger] s[k]).app_id == t[k].app_id,
    ensures
        first_app_index(s, x) == first_app_index(t, x),
    decreases s.len(),
{
    if s.len() > 0 {
        assert(s[0].app_id == t[0].app_id);
        assert forall|k: int| 0 <= k < s.drop_first().len() implies (#[trigger] s.drop_first()[k]).app_id == t.drop_first()[k].app_id by {
            assert(s[k + 1].app_id == t[k + 1].app_id);
        }
        lemma_first_app_index_ids(s.drop_first(), t.drop_first(), x);
    }
}

/// A window that opens and then closes leaves the entries as they were,
/// provided the entries are well formed and the window was not yet listed
/// under its application.
pub proof fn law_add_then_remove_window_restores(s: Seq<AppModel>, w: NiriWindow, sub: Map<Seq<char>, Seq<char>>)
    requires
        apps_wf(s),
        forall|i: int| 0 <= i < s.len() && (#[trigger] s[i]).app_id == window_key(w, sub) ==> !s[i].windows.contains(w.id),
    ensures
        spec_remove_window(spec_add_window(s, w, sub), w, sub) == s,
{
    let x = window_key(w, sub);
    let s1 = spec_add_window(s, w, sub);
    lemma_first_app_index(s, x);
    match first_app_index(s, x) {
        Some(i) => {
            lemma_first_app_index_ids(s, s1, x);
            let a1 = s1[i];
            assert(!s[i].windows.contains(w.id));
            lemma_first_index_of(a1.windows, w.id);
            let f = first_index_of(a1.windows, w.id);
            assert(a1.windows[s[i].windows.len() as int] == w.id);
            assert(a1.windows.contains(w.id));
            let j = f->0;
            if j < s[i].windows.len() {
                assert(a1.windows[j] == s[i].windows[j]);
                assert(s[i].windows.contains(w.id));
            }
            assert(j == s[i].windows.len());
            assert(a1.windows.remove(j) =~= s[i].windows);
            assert(s[i].is_pinned || s[i].windows.len() > 0);
            assert(spec_remove_window(s1, w, sub) =~= s);
        },
        None => {
            lemma_first_app_index(s1, x);
            assert(s1[s.len() as int].app_id == x);
            let i = first_app_index(s1, x)->0;
            if i < s.len() {
                assert(s1[i] == s[i]);
            }
            assert(i == s.len());
            let a1 = s1[i];
            assert(a1.windows == seq![w.id]);
            assert(a1.windows[0] == w.id);
            lemma_first_index_of(a1.windows, w.id);
            let j = first_index_of(a1.windows, w.id)->0;
            assert(j == 0);
            assert(a1.windows.remove(0) =~= Seq::<u64>::empty());
            assert(s1.remove(i) =~= s);
        },
    }
}

/// A window that niri reports opened and then closed leaves the entries as
/// they were, provided the dock did not know the window, the entries are
/// well formed, and the window was not yet listed under its application.
pub proof fn law_window_opened_then_closed_restores_apps(
    m: NiriModel,
    s: Seq<AppModel>,
    win: ipc::Window,
    sub: Map<Seq<char>, Seq<char>>,
)
    requires
        m.wf(),
        !m.windows.contains_key(win.id),
        apps_wf(s),
        forall|i: int| 0 <= i < s.len() && (#[trigger] s[i]).app_id == substituted(sub, or_empty(win.app_id))
            ==> !s[i].windows.contains(win.id),
    ensures
        ({
            let (m1, c1) = m.spec_apply(ipc::Event::WindowOpenedOrChanged { window: win });
            let s1 = spec_follow_changes(s, m1.windows, c1, sub);
            let (m2, c2) = m1.spec_apply(ipc::Event::WindowClosed { id: win.id });
            spec_follow_changes(s1, m2.windows, c2, sub) == s
        }),
{
    law_reported_window_is_recorded(m, win);
    let (m1, c1) = m.spec_apply(ipc::Event::WindowOpenedOrChanged { window: win });
    let r = m1.windows[win.id];
    assert(c1.created == seq![win.id]);
    assert(c1.created.drop_last() =~= Seq::<u64>::empty());
    assert(spec_add_windows(s, c1.created.drop_last(), m1.windows, sub) == s);
    assert(c1.created.last() == win.id);
    assert(spec_add_windows(s, c1.created, m1.windows, sub) == spec_add_window(s, r, sub));
    let s1 = spec_follow_changes(s, m1.windows, c1, sub);
    let (m2, c2) = m1.spec_apply(ipc::Event::WindowClosed { id: win.id });
    assert(c2.closed == Some(NiriWindow { closed: true, ..r }));
    assert(spec_remove_window(s1, NiriWindow { closed: true, ..r }, sub) == spec_remove_window(s1, r, sub));
    law_add_then_remove_window_restores(s, r, sub);
}

/// Whether the entries hold window `k`.
pub open spec fn holds_window(s: Seq<AppModel>, k: u64) -> bool {
    exists|i: int, j: int| 0 <= i < s.len() && 0 <= j < s[i].windows.len() && s[i].windows[j] == k
}

/// Whether the entries track the windows of `m` under the substitution
/// `sub`: every entry is pinned or has a window; every window an entry
/// holds is known to `m` and has that entry's id as its key; an entry with
/// windows is the first entry of its id; and no window is held twice.
pub open spec fn apps_track(s: Seq<AppModel>, m: Map<u64, NiriWindow>, sub: Map<Seq<char>, Seq<char>>) -> bool {
    &&& apps_wf(s)
    &&& forall|i: int, j: int| 0 <= i < s.len() && 0 <= j < s[i].windows.len() ==> m.contains_key(
        #[trigger] s[i].windows[j],
    ) && window_key(m[s[i].windows[j]], sub) == s[i].app_id
    &&& forall|i: int, i2: int| 0 <= i2 < i < s.len() && s[i].windows.len() > 0 ==> (#[trigger] s[i2]).app_id != (
    #[trigger] s[i]).app_id
    &&& forall|i: int, j: int, i2: int, j2: int|
        0 <= i < s.len() && 0 <= j < s[i].windows.len() && 0 <= i2 < s.len() && 0 <= j2 < s[i2].windows.len()
            && #[trigger] s[i].windows[j] == #[trigger] s[i2].windows[j2] ==> i == i2 && j == j2
}

/// Tracking carries over to a mirror that keeps every window with its id and application id.
pub proof fn lemma_track_keeps(
    s: Seq<AppModel>,
    m: Map<u64, NiriWindow>,
    m2: Map<u64, NiriWindow>,
    sub: Map<Seq<char>, Seq<char>>,
)
    requires
        apps_track(s, m, sub),
        keeps_windows(m, m2),
    ensures
        apps_track(s, m2, sub),
{
    assert forall|i: int, j: int| 0 <= i < s.len() && 0 <= j < s[i].windows.len() implies m2.contains_key(
        #[trigger] s[i].windows[j],
    ) && window_key(m2[s[i].windows[j]], sub) == s[i].app_id by {
        assert(m.contains_key(s[i].windows[j]));
    }
}

/// Adding a known window that the entries do not hold keeps them tracked,
/// and the entries then hold exactly what they held and that window.
pub proof fn lemma_track_add(t: Seq<AppModel>, m: Map<u64, NiriWindow>, sub: Map<Seq<char>, Seq<char>>, id: u64)
    requires
        apps_track(t, m, sub),
        m.contains_key(id),
        m[id].id == id,
        !holds_window(t, id),
    ensures
        apps_track(spec_add_window(t, m[id], sub), m, sub),
        forall|k: u64| holds_window(spec_add_window(t, m[id], sub), k) ==> holds_window(t, k) || k == id,
{
    let w = m[id];
    let x = window_key(w, sub);
    let r = spec_add_window(t, w, sub);
    lemma_first_app_index(t, x);
    law_operations_keep_apps_wf(t, w, Seq::empty(), sub);
    match first_app_index(t, x) {
        Some(p) => {
            assert(r.len() == t.len());
            assert forall|i: int| 0 <= i < r.len() && i != p implies #[trigger] r[i] == t[i] by {}
            assert(r[p].windows == t[p].windows.push(id));
            assert(r[p].app_id == t[p].app_id);
            assert forall|i: int, j: int| 0 <= i < r.len() && 0 <= j < r[i].windows.len() implies m.contains_key(
                #[trigger] r[i].windows[j],
            ) && window_key(m[r[i].windows[j]], sub) == r[i].app_id by {
                if i == p && j < t[p].windows.len() {
                    assert(r[i].windows[j] == t[p].windows[j]);
                }
            }
            assert forall|i: int, i2: int| 0 <= i2 < i < r.len() && r[i].windows.len() > 0 implies (#[trigger] r[i2]).app_id
                != (#[trigger] r[i]).app_id by {
                if i != p {
                    assert(t[i].windows.len() > 0);
                    assert(t[i2].app_id != t[i].app_id);
                }
            }
            assert forall|i: int, j: int, i2: int, j2: int|
                0 <= i < r.len() && 0 <= j < r[i].windows.len() && 0 <= i2 < r.len() && 0 <= j2 < r[i2].windows.len()
                    && #[trigger] r[i].windows[j] == #[trigger] r[i2].windows[j2] implies i == i2 && j == j2 by {
                let old_i = i == p && j == t[p].windows.len();
                let old_i2 = i2 == p && j2 == t[p].windows.len();
                if !old_i && !old_i2 {
                    if i == p {
                        assert(r[i].windows[j] == t[i].windows[j]);
                    }
                    if i2 == p {
                        assert(r[i2].windows[j2] == t[i2].windows[j2]);
                    }
                    assert(t[i].windows[j] == t[i2].windows[j2]);
                } else if old_i && !old_i2 {
                    if i2 == p {
                        assert(r[i2].windows[j2] == t[i2].windows[j2]);
                    }
                    assert(holds_window(t, t[i2].windows[j2]));
                } else if !old_i && old_i2 {
                    if i == p {
                        assert(r[i].windows[j] == t[i].windows[j]);
                    }
                    assert(holds_window(t, t[i].windows[j]));
                }
            }
            assert forall|k: u64| holds_window(r, k) implies holds_window(t, k) || k == id by {
                let (i, j) = choose|i: int, j: int| 0 <= i < r.len() && 0 <= j < r[i].windows.len() && r[i].windows[j] == k;
                if i != p || j < t[p].windows.len() {
                    if i == p {
                        assert(r[i].windows[j] == t[i].windows[j]);
                    }
                    assert(t[i].windows[j] == k);
                }
            }
        },
        None => {
            assert(r == t.push(AppModel { app_id: x, is_pinned: false, windows: seq![id] }));
            assert forall|i: int| 0 <= i < t.len() implies #[trigger] r[i] == t[i] by {}
            assert forall|i: int, j: int| 0 <= i < r.len() && 0 <= j < r[i].windows.len() implies m.contains_key(
                #[trigger] r[i].windows[j],
            ) && window_key(m[r[i].windows[j]], sub) == r[i].app_id by {
                if i < t.len() {
                    assert(r[i].windows[j] == t[i].windows[j]);
                }
            }
            assert forall|i: int, i2: int| 0 <= i2 < i < r.len() && r[i].windows.len() > 0 implies (#[trigger] r[i2]).app_id
                != (#[trigger] r[i]).app_id by {
                if i < t.len() {
                    assert(t[i2].app_id != t[i].app_id);
                }
            }
            assert forall|i: int, j: int, i2: int, j2: int|
                0 <= i < r.len() && 0 <= j < r[i].windows.len() && 0 <= i2 < r.len() && 0 <= j2 < r[i2].windows.len()
                    && #[trigger] r[i].windows[j] == #[trigger] r[i2].windows[j2] implies i == i2 && j == j2 by {
                if i < t.len() && i2 < t.len() {
                    assert(t[i].windows[j] == t[i2].windows[j2]);
                } else if i < t.len() {
                    assert(holds_window(t, t[i].windows[j]));
                } else if i2 < t.len() {
                    assert(holds_window(t, t[i2].windows[j2]));
                }
            }
            assert forall|k: u64| holds_window(r, k) implies holds_window(t, k) || k == id by {
                let (i, j) = choose|i: int, j: int| 0 <= i < r.len() && 0 <= j < r[i].windows.len() && r[i].windows[j] == k;
                if i < t.len() {
                    assert(t[i].windows[j] == k);
                }
            }
        },
    }
}

/// Adding known windows, each not yet held and each once, keeps the entries
/// tracked; the entries then hold only what they held and those windows.
pub proof fn lemma_track_add_windows(
    s: Seq<AppModel>,
    ids: Seq<u64>,
    m: Map<u64, NiriWindow>,
    sub: Map<Seq<char>, Seq<char>>,
)
    requires
        apps_track(s, m, sub),
        forall|i: int| 0 <= i < ids.len() ==> m.contains_key(#[trigger] ids[i]) && m[ids[i]].id == ids[i]
            && !holds_window(s, ids[i]),
        forall|i: int, j: int| 0 <= i < j < ids.len() ==> #[trigger] ids[i] != #[trigger] ids[j],
    ensures
        apps_track(spec_add_windows(s, ids, m, sub), m, sub),
        forall|k: u64| holds_window(spec_add_windows(s, ids, m, sub), k) ==> holds_window(s, k) || ids.contains(k),
    decreases ids.len(),
{
    if ids.len() > 0 {
        let init = ids.drop_last();
        let last = ids.last();
        assert(ids[ids.len() - 1] == last);
        assert forall|i: int| 0 <= i < init.len() implies m.contains_key(#[trigger] init[i]) && m[init[i]].id == init[i]
            && !holds_window(s, init[i]) by {
            assert(init[i] == ids[i]);
        }
        assert forall|i: int, j: int| 0 <= i < j < init.len() implies #[trigger] init[i] != #[trigger] init[j] by {
            assert(init[i] == ids[i] && init[j] == ids[j]);
        }
        lemma_track_add_windows(s, init, m, sub);
        let t = spec_add_windows(s, init, m, sub);
        assert(!holds_window(t, last)) by {
            if holds_window(t, last) {
                if init.contains(last) {
                    let q = choose|q: int| 0 <= q < init.len() && init[q] == last;
                    assert(ids[q] == ids[ids.len() - 1]);
                }
            }
        }
        lemma_track_add(t, m, sub, last);
        assert forall|k: u64| holds_window(spec_add_windows(s, ids, m, sub), k) implies holds_window(s, k) || ids.contains(k) by {
            if holds_window(t, k) && !holds_window(s, k) {
                let q = choose|q: int| 0 <= q < init.len() && init[q] == k;
                assert(ids[q] == k);
            }
            if k == last {
                assert(ids[ids.len() - 1] == k);
            }
        }
    }
}

/// Removing a closed window keeps the entries tracked by the mirror without it.
pub proof fn lemma_track_remove(s: Seq<AppModel>, m: Map<u64, NiriWindow>, sub: Map<Seq<char>, Seq<char>>, id: u64)
    requires
        apps_track(s, m, sub),
        m.contains_key(id),
        m[id].id == id,
    ensures
        apps_track(spec_remove_window(s, NiriWindow { closed: true, ..m[id] }, sub), m.remove(id), sub),
{
    let w = NiriWindow { closed: true, ..m[id] };
    let x = window_key(w, sub);
    let r = spec_remove_window(s, w, sub);
    let m2 = m.remove(id);
    lemma_first_app_index(s, x);
    law_operations_keep_apps_wf(s, w, Seq::empty(), sub);
    match first_app_index(s, x) {
        Some(p) => {
            let a = s[p];
            lemma_first_index_of(a.windows, id);
            let ws = match first_index_of(a.windows, id) {
                Some(j) => a.windows.remove(j),
                None => a.windows,
            };
            // where the window is held, it is held in entry `p`, once.
            assert forall|i: int, j: int| 0 <= i < s.len() && 0 <= j < s[i].windows.len() && s[i].windows[j] == id implies i
                == p && first_index_of(a.windows, id) == Some(j) by {
                assert(window_key(m[s[i].windows[j]], sub) == s[i].app_id);
                if i < p {
                } else if i > p {
                    assert(s[p].app_id != s[i].app_id);
                }
                let f = first_index_of(a.windows, id)->0;
                assert(s[p].windows[f] == id);
            }
            // the entries left hold the same windows as before but `id`.
            assert forall|i: int, j: int| 0 <= i < r.len() && 0 <= j < r[i].windows.len() implies exists|i0: int, j0: int|
                0 <= i0 < s.len() && 0 <= j0 < s[i0].windows.len() && r[i].windows[j] == s[i0].windows[j0] && r[i].app_id
                    == s[i0].app_id && #[trigger] r[i].windows[j] != id && (i < p ==> i0 == i) && (i > p ==> i0 >= i)
                    && (i0 == i || i0 == i + 1) by {
                if ws.len() == 0 && !a.is_pinned {
                    if i < p {
                        assert(r[i] == s[i]);
                        assert(s[i].windows[j] != id);
                    } else {
                        assert(r[i] == s[i + 1]);
                        assert(s[i + 1].windows[j] != id);
                    }
                } else {
                    if i != p {
                        assert(r[i] == s[i]);
                        assert(s[i].windows[j] != id);
                    } else {
                        match first_index_of(a.windows, id) {
                            Some(f) => {
                                if j < f {
                                    assert(r[i].windows[j] == a.windows[j]);
                                    assert(a.windows[j] != id);
                                } else {
                                    assert(r[i].windows[j] == a.windows[j + 1]);
                                    assert(a.windows[j + 1] != id) by {
                                        if a.windows[j + 1] == id {
                                            assert(s[p].windows[j + 1] == id);
                                        }
                                    }
                                }
                            },
                            None => {
                                assert(r[i].windows[j] == a.windows[j]);
                                assert(a.windows.contains(a.windows[j]));
                            },
                        }
                    }
                }
            }

        },
        None => {
            assert(r == s);
            assert forall|i: int, j: int| 0 <= i < s.len() && 0 <= j < s[i].windows.len() implies m2.contains_key(
                #[trigger] s[i].windows[j],
            ) && window_key(m2[s[i].windows[j]], sub) == s[i].app_id by {
                if s[i].windows[j] == id {
                    assert(window_key(m[id], sub) == s[i].app_id);
                    assert(x == window_key(m[id], sub));
                }
            }
        },
    }
}

/// Freshly pinned entries, holding no window, track any mirror.
pub proof fn law_pinned_entries_are_tracked(pinned: Seq<Seq<char>>, m: Map<u64, NiriWindow>, sub: Map<Seq<char>, Seq<char>>)
    ensures
        apps_track(
            Seq::new(pinned.len(), |i: int| AppModel { app_id: pinned[i], is_pinned: true, windows: Seq::empty() }),
            m,
            sub,
        ),
{
}

/// The entries keep tracking niri's windows through every event that keeps
/// the application ids of the windows the dock knows: after niri applies
/// the event and the entries follow what it reported, every window an
/// entry holds is a window niri knows, grouped under its key, and held once.
pub proof fn law_events_keep_apps_tracked(
    m: NiriModel,
    s: Seq<AppModel>,
    event: ipc::Event,
    sub: Map<Seq<char>, Seq<char>>,
)
    requires
        m.wf(),
        keeps_app_ids(m, event),
        apps_track(s, m.windows, sub),
    ensures
        ({
            let (m2, c) = m.spec_apply(event);
            apps_track(spec_follow_changes(s, m2.windows, c, sub), m2.windows, sub)
        }),
{
    lemma_apply_windows(m, event);
    let (m2, c) = m.spec_apply(event);
    match event {
        ipc::Event::WindowClosed { id } => {
            assert(c.created =~= Seq::<u64>::empty());
            assert(spec_add_windows(s, c.created, m2.windows, sub) == s);
            if m.windows.contains_key(id) {
                lemma_track_remove(s, m.windows, sub, id);
            } else {
                assert(m2.windows =~= m.windows);
            }
        },
        _ => {
            lemma_track_keeps(s, m.windows, m2.windows, sub);
            assert forall|i: int| 0 <= i < c.created.len() implies m2.windows.contains_key(#[trigger] c.created[i])
                && m2.windows[c.created[i]].id == c.created[i] && !holds_window(s, c.created[i]) by {
                if holds_window(s, c.created[i]) {
                    let (i0, j0) = choose|i0: int, j0: int| 0 <= i0 < s.len() && 0 <= j0 < s[i0].windows.len()
                        && s[i0].windows[j0] == c.created[i];
                    assert(m.windows.contains_key(s[i0].windows[j0]));
                }
            }
            lemma_track_add_windows(s, c.created, m2.windows, sub);
        },
    }
}

/// Every entry left by unpinning is an entry of `t` with only its pin changed.
pub proof fn lemma_unpin_entries_come_from(t: Seq<AppModel>, pinned: Seq<Seq<char>>)
    ensures
        forall|i: int| 0 <= i < spec_unpin(t, pinned).len() ==> exists|j: int| 0 <= j < t.len() && (
        #[trigger] spec_unpin(t, pinned)[i]).app_id == t[j].app_id && spec_unpin(t, pinned)[i].windows == t[j].windows,
    decreases t.len(),
{
    if t.len() > 0 {
        lemma_unpin_entries_come_from(t.drop_last(), pinned);
        let p = spec_unpin(t.drop_last(), pinned);
        let u = spec_unpin(t, pinned);
        assert forall|i: int| 0 <= i < u.len() implies exists|j: int| 0 <= j < t.len() && (#[trigger] u[i]).app_id
            == t[j].app_id && u[i].windows == t[j].windows by {
            if i < p.len() {
                assert(u[i] == p[i]);
                let j = choose|j: int| 0 <= j < t.drop_last().len() && p[i].app_id == t.drop_last()[j].app_id
                    && p[i].windows == t.drop_last()[j].windows;
                assert(t[j] == t.drop_last()[j]);
            } else {
                assert(u[i].app_id == t[t.len() - 1].app_id && u[i].windows == t[t.len() - 1].windows);
            }
        }
    }
}

/// Unpinning keeps the entries tracked.
pub proof fn lemma_unpin_keeps_tracked(
    s: Seq<AppModel>,
    pinned: Seq<Seq<char>>,
    m: Map<u64, NiriWindow>,
    sub: Map<Seq<char>, Seq<char>>,
)
    requires
        apps_track(s, m, sub),
    ensures
        apps_track(spec_unpin(s, pinned), m, sub),
    decreases s.len(),
{
    lemma_unpin_wf(s, pinned);
    if s.len() > 0 {
        let t = s.drop_last();
        let a = s.last();
        assert(s[s.len() - 1] == a);
        assert forall|i: int| 0 <= i < t.len() implies #[trigger] t[i] == s[i] by {}
        lemma_unpin_keeps_tracked(t, pinned, m, sub);
        lemma_unpin_entries_come_from(t, pinned);
        let p = spec_unpin(t, pinned);
        let u = spec_unpin(s, pinned);
        if !(loses_pin(a, pinned) && a.windows.len() == 0) {
            let b = if loses_pin(a, pinned) {
                AppModel { is_pinned: false, ..a }
            } else {
                a
            };
            assert(u == p.push(b));
            assert forall|i: int| 0 <= i < p.len() implies #[trigger] u[i] == p[i] by {}
            assert(u[p.len() as int] == b);
            assert forall|i: int, j: int| 0 <= i < u.len() && 0 <= j < u[i].windows.len() implies m.contains_key(
                #[trigger] u[i].windows[j],
            ) && window_key(m[u[i].windows[j]], sub) == u[i].app_id by {
                if i < p.len() {
                    assert(u[i].windows[j] == p[i].windows[j]);
                } else {
                    assert(u[i].windows[j] == s[s.len() - 1].windows[j]);
                }
            }
            assert forall|i: int, i2: int| 0 <= i2 < i < u.len() && u[i].windows.len() > 0 implies (#[trigger] u[i2]).app_id
                != (#[trigger] u[i]).app_id by {
                if i == p.len() {
                    let j = choose|j: int| 0 <= j < t.len() && p[i2].app_id == t[j].app_id && p[i2].windows == t[j].windows;
                    assert(s[j].app_id != s[s.len() - 1].app_id);
                }
            }
            assert forall|i: int, j: int, i2: int, j2: int|
                0 <= i < u.len() && 0 <= j < u[i].windows.len() && 0 <= i2 < u.len() && 0 <= j2 < u[i2].windows.len()
                    && #[trigger] u[i].windows[j] == #[trigger] u[i2].windows[j2] implies i == i2 && j == j2 by {
                if i < p.len() && i2 < p.len() {
                    assert(p[i].windows[j] == p[i2].windows[j2]);
                } else if i < p.len() {
                    let q = choose|q: int| 0 <= q < t.len() && p[i].app_id == t[q].app_id && p[i].windows == t[q].windows;
                    assert(s[q].windows[j] == s[s.len() - 1].windows[j2]);
                } else if i2 < p.len() {
                    let q = choose|q: int| 0 <= q < t.len() && p[i2].app_id == t[q].app_id && p[i2].windows == t[q].windows;
                    assert(s[q].windows[j2] == s[s.len() - 1].windows[j]);
                } else {
                    assert(s[s.len() - 1].windows[j] == s[s.len() - 1].windows[j2]);
                }
            }
        }
    }
}

/// Pinning one application keeps the entries tracked.
pub proof fn lemma_pin_one_keeps_tracked(
    s: Seq<AppModel>,
    kept: bool,
    app_id: Seq<char>,
    m: Map<u64, NiriWindow>,
    sub: Map<Seq<char>, Seq<char>>,
)
    requires
        apps_track(s, m, sub),
    ensures
        apps_track(spec_pin_one(s, kept, app_id), m, sub),
{
    let r = spec_pin_one(s, kept, app_id);
    if !kept {
        lemma_first_app_index(s, app_id);
        match first_app_index(s, app_id) {
            Some(p) => {
                assert forall|i: int| 0 <= i < s.len() && i != p implies #[trigger] r[i] == s[i] by {}
                assert(r[p].windows == s[p].windows && r[p].app_id == s[p].app_id);
                assert forall|i: int, j: int, i2: int, j2: int|
                    0 <= i < r.len() && 0 <= j < r[i].windows.len() && 0 <= i2 < r.len() && 0 <= j2 < r[i2].windows.len()
                        && #[trigger] r[i].windows[j] == #[trigger] r[i2].windows[j2] implies i == i2 && j == j2 by {
                    assert(s[i].windows[j] == s[i2].windows[j2]);
                }
            },
            None => {
                assert forall|i: int| 0 <= i < s.len() implies #[trigger] r[i] == s[i] by {}
                assert forall|i: int, j: int, i2: int, j2: int|
                    0 <= i < r.len() && 0 <= j < r[i].windows.len() && 0 <= i2 < r.len() && 0 <= j2 < r[i2].windows.len()
                        && #[trigger] r[i].windows[j] == #[trigger] r[i2].windows[j2] implies i == i2 && j == j2 by {
                    assert(s[i].windows[j] == s[i2].windows[j2]);
                }
            },
        }
    }
}

/// Pinning listed applications keeps the entries tracked.
pub proof fn lemma_pin_all_keeps_tracked(
    s: Seq<AppModel>,
    orig: Seq<AppModel>,
    pinned: Seq<Seq<char>>,
    list: Seq<Seq<char>>,
    m: Map<u64, NiriWindow>,
    sub: Map<Seq<char>, Seq<char>>,
)
    requires
        apps_track(s, m, sub),
    ensures
        apps_track(spec_pin_all(s, orig, pinned, list), m, sub),
    decreases list.len(),
{
    if list.len() > 0 {
        lemma_pin_all_keeps_tracked(s, orig, pinned, list.drop_last(), m, sub);
        lemma_pin_one_keeps_tracked(
            spec_pin_all(s, orig, pinned, list.drop_last()),
            kept_pinned(orig, pinned, list.last()),
            list.last(),
            m,
            sub,
        );
    }
}

/// A change of the pinned list keeps the entries tracking niri's windows.
pub proof fn law_update_pinned_keeps_apps_tracked(
    s: Seq<AppModel>,
    pinned: Seq<Seq<char>>,
    m: Map<u64, NiriWindow>,
    sub: Map<Seq<char>, Seq<char>>,
)
    requires
        apps_track(s, m, sub),
    ensures
        apps_track(spec_update_pinned(s, pinned), m, sub),
{
    lemma_unpin_keeps_tracked(s, pinned, m, sub);
    lemma_pin_all_keeps_tracked(spec_unpin(s, pinned), s, pinned, pinned, m, sub);
}

/// In tracking entries, every window an entry holds is known, so the
/// windows of an entry in window order ([App::sorted_windows]) are all of them.
pub proof fn law_tracked_entry_windows_are_known(s: Seq<AppModel>, m: Map<u64, NiriWindow>, sub: Map<Seq<char>, Seq<char>>, i: int)
    requires
        apps_track(s, m, sub),
        0 <= i < s.len(),
    ensures
        present_ids(s[i].windows, m) == s[i].windows,
{
    lemma_present_ids_all_known(s[i].windows, m);
}

/// Where every id is known, the known ids are all the ids.
pub proof fn lemma_present_ids_all_known(ids: Seq<u64>, m: Map<u64, NiriWindow>)
    requires
        forall|j: int| 0 <= j < ids.len() ==> m.contains_key(#[trigger] ids[j]),
    ensures
        present_ids(ids, m) == ids,
    decreases ids.len(),
{
    if ids.len() > 0 {
        assert forall|j: int| 0 <= j < ids.drop_last().len() implies m.contains_key(#[trigger] ids.drop_last()[j]) by {
            assert(ids.drop_last()[j] == ids[j]);
        }
        lemma_present_ids_all_known(ids.drop_last(), m);
        assert(m.contains_key(ids[ids.len() - 1]));
        assert(ids.drop_last().push(ids.last()) =~= ids);
    }
}

/// Unpinning keeps entries well formed.
pub proof fn lemma_unpin_wf(s: Seq<AppModel>, pinned: Seq<Seq<char>>)
    requires
        apps_wf(s),
    ensures
        apps_wf(spec_unpin(s, pinned)),
    decreases s.len(),
{
    if s.len() > 0 {
        lemma_unpin_wf(s.drop_last(), pinned);
        assert(s.drop_last().len() < s.len());
        assert(s.last() == s[s.len() - 1]);
    }
}

/// Pinning keeps entries well formed.
pub proof fn lemma_pin_all_wf(s: Seq<AppModel>, orig: Seq<AppModel>, pinned: Seq<Seq<char>>, list: Seq<Seq<char>>)
    requires
        apps_wf(s),
    ensures
        apps_wf(spec_pin_all(s, orig, pinned, list)),
    decreases list.len(),
{
    if list.len() > 0 {
        lemma_pin_all_wf(s, orig, pinned, list.drop_last());
        let p = spec_pin_all(s, orig, pinned, list.drop_last());
        lemma_first_app_index(p, list.last());
    }
}

/// Every operation on the entries keeps every entry pinned or with a window.
pub proof fn law_operations_keep_apps_wf(
    s: Seq<AppModel>,
    w: NiriWindow,
    pinned: Seq<Seq<char>>,
    sub: Map<Seq<char>, Seq<char>>,
)
    requires
        apps_wf(s),
    ensures
        apps_wf(spec_add_window(s, w, sub)),
        apps_wf(spec_remove_window(s, w, sub)),
        apps_wf(spec_update_pinned(s, pinned)),
{
    let x = window_key(w, sub);
    lemma_first_app_index(s, x);
    let s1 = spec_add_window(s, w, sub);
    assert forall|i: int| 0 <= i < s1.len() implies (#[trigger] s1[i]).is_pinned || s1[i].windows.len() > 0 by {
        if first_app_index(s, x) is None && i == s.len() {
        } else if first_app_index(s, x) is None {
            assert(s1[i] == s[i]);
        }
    }
    let s2 = spec_remove_window(s, w, sub);
    assert forall|i: int| 0 <= i < s2.len() implies (#[trigger] s2[i]).is_pinned || s2[i].windows.len() > 0 by {
        match first_app_index(s, x) {
            Some(k) => {
                let a = s[k];
                let ws = match first_index_of(a.windows, w.id) {
                    Some(j) => a.windows.remove(j),
                    None => a.windows,
                };
                if ws.len() == 0 && !a.is_pinned {
                    if i < k {
                        assert(s2[i] == s[i]);
                    } else {
                        assert(s2[i] == s[i + 1]);
                    }
                }
            },
            None => {},
        }
    }
    lemma_unpin_wf(s, pinned);
    lemma_pin_all_wf(spec_unpin(s, pinned), s, pinned, pinned);
}

/// An entry that is pinned and listed survives unpinning unchanged.
pub proof fn lemma_unpin_keeps_listed(s: Seq<AppModel>, pinned: Seq<Seq<char>>, j: int)
    requires
        0 <= j < s.len(),
        !loses_pin(s[j], pinned),
    ensures
        spec_unpin(s, pinned).contains(s[j]),
    decreases s.len(),
{
    if j < s.len() - 1 {
        assert(s.drop_last()[j] == s[j]);
        lemma_unpin_keeps_listed(s.drop_last(), pinned, j);
        let p = spec_unpin(s.drop_last(), pinned);
        let q = choose|q: int| 0 <= q < p.len() && p[q] == s[j];
        assert(spec_unpin(s, pinned)[q] == s[j]);
    } else {
        let p = spec_unpin(s.drop_last(), pinned);
        assert(spec_unpin(s, pinned)[p.len() as int] == s[j]);
    }
}

/// An entry with windows survives unpinning with its id and windows.
pub proof fn lemma_unpin_keeps_windows(s: Seq<AppModel>, pinned: Seq<Seq<char>>, j: int)
    requires
        0 <= j < s.len(),
        s[j].windows.len() > 0,
    ensures
        exists|q: int| 0 <= q < spec_unpin(s, pinned).len() && (#[trigger] spec_unpin(s, pinned)[q]).app_id == s[j].app_id
            && spec_unpin(s, pinned)[q].windows == s[j].windows,
    decreases s.len(),
{
    if j < s.len() - 1 {
        assert(s.drop_last()[j] == s[j]);
        lemma_unpin_keeps_windows(s.drop_last(), pinned, j);
        let p = spec_unpin(s.drop_last(), pinned);
        let q = choose|q: int| 0 <= q < p.len() && (#[trigger] p[q]).app_id == s[j].app_id && p[q].windows == s[j].windows;
        assert(spec_unpin(s, pinned)[q] == p[q]);
    } else {
        let p = spec_unpin(s.drop_last(), pinned);
        assert(spec_unpin(s, pinned)[p.len() as int].app_id == s[j].app_id);
    }
}

/// Entries pinned after unpinning are listed.
pub proof fn lemma_unpin_pinned_are_listed(s: Seq<AppModel>, pinned: Seq<Seq<char>>)
    ensures
        forall|q: int| 0 <= q < spec_unpin(s, pinned).len() && (#[trigger] spec_unpin(s, pinned)[q]).is_pinned
            ==> pinned.contains(spec_unpin(s, pinned)[q].app_id),
    decreases s.len(),
{
    if s.len() > 0 {
        lemma_unpin_pinned_are_listed(s.drop_last(), pinned);
        let p = spec_unpin(s.drop_last(), pinned);
        let r = spec_unpin(s, pinned);
        assert forall|q: int| 0 <= q < r.len() && (#[trigger] r[q]).is_pinned implies pinned.contains(r[q].app_id) by {
            if q < p.len() {
                assert(r[q] == p[q]);
            }
        }
    }
}

/// Pinning keeps every pinned entry pinned, every entry's id and windows,
/// pins every listed id, and pins nothing outside `list`.
pub proof fn lemma_pin_all(s: Seq<AppModel>, orig: Seq<AppModel>, pinned: Seq<Seq<char>>, list: Seq<Seq<char>>)
    ensures
        spec_pin_all(s, orig, pinned, list).len() >= s.len(),
        forall|q: int| 0 <= q < s.len() ==> (#[trigger] spec_pin_all(s, orig, pinned, list)[q]).app_id == s[q].app_id
            && spec_pin_all(s, orig, pinned, list)[q].windows == s[q].windows
            && (s[q].is_pinned ==> spec_pin_all(s, orig, pinned, list)[q].is_pinned),
        forall|q: int| 0 <= q < spec_pin_all(s, orig, pinned, list).len() && (#[trigger] spec_pin_all(s, orig, pinned, list)[q]).is_pinned
            ==> (q < s.len() && s[q].is_pinned) || list.contains(spec_pin_all(s, orig, pinned, list)[q].app_id),
        forall|y: Seq<char>| #[trigger] list.contains(y) && !kept_pinned(orig, pinned, y) ==> exists|q: int|
            0 <= q < spec_pin_all(s, orig, pinned, list).len() && spec_pin_all(s, orig, pinned, list)[q].app_id == y
                && spec_pin_all(s, orig, pinned, list)[q].is_pinned,
    decreases list.len(),
{
    if list.len() > 0 {
        let l0 = list.drop_last();
        let y0 = list.last();
        lemma_pin_all(s, orig, pinned, l0);
        let p = spec_pin_all(s, orig, pinned, l0);
        let r = spec_pin_all(s, orig, pinned, list);
        lemma_first_app_index(p, y0);
        assert(r == spec_pin_one(p, kept_pinned(orig, pinned, y0), y0));
        assert forall|q: int| 0 <= q < r.len() && (#[trigger] r[q]).is_pinned implies (q < s.len() && s[q].is_pinned)
            || list.contains(r[q].app_id) by {
            if q < p.len() && p[q].is_pinned {
                if !(q < s.len() && s[q].is_pinned) {
                    let k = choose|k: int| 0 <= k < l0.len() && l0[k] == p[q].app_id;
                    assert(list[k] == p[q].app_id);
                }
            } else {
                assert(list[list.len() - 1] == y0);
            }
        }
        assert forall|y: Seq<char>| #[trigger] list.contains(y) && !kept_pinned(orig, pinned, y) implies exists|q: int|
            0 <= q < r.len() && r[q].app_id == y && r[q].is_pinned by {
            if y == y0 {
                match first_app_index(p, y0) {
                    Some(i) => {
                        assert(r[i].app_id == y && r[i].is_pinned);
                    },
                    None => {
                        assert(r[p.len() as int].app_id == y && r[p.len() as int].is_pinned);
                    },
                }
            } else {
                let k = choose|k: int| 0 <= k < list.len() && list[k] == y;
                assert(l0[k] == y);
                assert(l0.contains(y));
                let q = choose|q: int| 0 <= q < p.len() && p[q].app_id == y && p[q].is_pinned;
                assert(r[q].app_id == y && r[q].is_pinned);
            }
        }
    }
}

/// After the pinned list changes to `pinned`: every listed application has
/// a pinned entry, every pinned entry is listed, and every entry that had a
/// window is still there with its windows.
pub proof fn law_update_pinned(s: Seq<AppModel>, pinned: Seq<Seq<char>>)
    ensures
        forall|y: Seq<char>| #[trigger] pinned.contains(y) ==> exists|q: int|
            0 <= q < spec_update_pinned(s, pinned).len() && spec_update_pinned(s, pinned)[q].app_id == y
                && spec_update_pinned(s, pinned)[q].is_pinned,
        forall|q: int| 0 <= q < spec_update_pinned(s, pinned).len() && (#[trigger] spec_update_pinned(s, pinned)[q]).is_pinned
            ==> pinned.contains(spec_update_pinned(s, pinned)[q].app_id),
        forall|j: int| 0 <= j < s.len() && (#[trigger] s[j]).windows.len() > 0 ==> exists|q: int|
            0 <= q < spec_update_pinned(s, pinned).len() && spec_update_pinned(s, pinned)[q].app_id == s[j].app_id
                && spec_update_pinned(s, pinned)[q].windows == s[j].windows,
{
    let u = spec_unpin(s, pinned);
    let r = spec_update_pinned(s, pinned);
    lemma_pin_all(u, s, pinned, pinned);
    lemma_unpin_pinned_are_listed(s, pinned);
    assert forall|y: Seq<char>| #[trigger] pinned.contains(y) implies exists|q: int|
        0 <= q < r.len() && r[q].app_id == y && r[q].is_pinned by {
        if kept_pinned(s, pinned, y) {
            let j = choose|j: int| 0 <= j < s.len() && s[j].is_pinned && s[j].app_id == y;
            lemma_unpin_keeps_listed(s, pinned, j);
            let q = choose|q: int| 0 <= q < u.len() && u[q] == s[j];
            assert(r[q].app_id == y && r[q].is_pinned);
        }
    }
    assert forall|j: int| 0 <= j < s.len() && (#[trigger] s[j]).windows.len() > 0 implies exists|q: int|
        0 <= q < r.len() && r[q].app_id == s[j].app_id && r[q].windows == s[j].windows by {
        lemma_unpin_keeps_windows(s, pinned, j);
        let q = choose|q: int| 0 <= q < u.len() && (#[trigger] u[q]).app_id == s[j].app_id && u[q].windows == s[j].windows;
        assert(r[q].app_id == s[j].app_id);
    }
}

} // verus!
