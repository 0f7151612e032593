//! Properties of the niri mirror that hold across events.

use vstd::prelude::*;

use super::ipc;
use super::window::NiriWindow;
use super::window::u64_or_zero;
use super::{last_workspace_index, lemma_last_workspace_index, lists_workspace, rebound, NiriModel};
use crate::text::opt_view;

verus! {

/// A closed window is forgotten, and every other window stays as it was.
pub proof fn law_closed_window_is_forgotten(m: NiriModel, id: u64)
    requires
        m.wf(),
    ensures
        !m.spec_apply(ipc::Event::WindowClosed { id }).0.windows.contains_key(id),
        forall|k: u64| k != id && #[trigger] m.windows.contains_key(k) ==> m.spec_apply(
            ipc::Event::WindowClosed { id },
        ).0.windows.contains_key(k) && m.spec_apply(ipc::Event::WindowClosed { id }).0.windows[k]
            == m.windows[k],
        m.windows.contains_key(id) ==> m.spec_apply(ipc::Event::WindowClosed { id }).1.closed == Some(
            NiriWindow { closed: true, ..m.windows[id] },
        ),
{
}

/// After a window is reported opened or changed, the dock knows it under its
/// id with everything niri reported about it, and it is announced as created
/// exactly when it was not known before.
pub proof fn law_reported_window_is_recorded(m: NiriModel, win: ipc::Window)
    requires
        m.wf(),
    ensures
        ({
            let (post, changes) = m.spec_apply(ipc::Event::WindowOpenedOrChanged { window: win });
            &&& post.windows.contains_key(win.id)
            &&& post.windows[win.id].title == win.title
            &&& post.windows[win.id].app_id == win.app_id
            &&& post.windows[win.id].is_focused == win.is_focused
            &&& post.windows[win.id].is_floating == win.is_floating
            &&& post.windows[win.id].is_urgent == win.is_urgent
            &&& post.windows[win.id].layout == win.layout
            &&& (changes.created == if m.windows.contains_key(win.id) {
                Seq::<u64>::empty()
            } else {
                seq![win.id]
            })
            &&& post.wf()
        }),
{
    let (m1, _) = m.spec_handle_window(win);
}

/// Focusing a known window makes it the focused window with its flag set,
/// clears the flag of the window focused before, and touches no other window.
pub proof fn law_focus_moves(m: NiriModel, id: u64)
    requires
        m.wf(),
        m.windows.contains_key(id),
    ensures
        ({
            let post = m.spec_apply(ipc::Event::WindowFocusChanged { id: Some(id) }).0;
            &&& post.focused_window == Some(id)
            &&& post.windows[id].is_focused
            &&& post.windows.dom() == m.windows.dom()
            &&& forall|f: u64| m.focused_window == Some(f) && f != id && #[trigger] m.windows.contains_key(f)
                ==> !post.windows[f].is_focused
            &&& forall|k: u64| #[trigger] m.windows.contains_key(k) && k != id && Some(k) != m.focused_window
                ==> post.windows[k] == m.windows[k]
        }),
{
    let post = m.spec_apply(ipc::Event::WindowFocusChanged { id: Some(id) }).0;
    assert(post.windows.dom() =~= m.windows.dom());
}

/// Moving the focus to `id` leaves only the newly focused window flagged,
/// provided every flagged window was the focused one or `id`.
pub proof fn lemma_focus_changed_keeps_focus(m: NiriModel, id: Option<u64>)
    requires
        forall|k: u64| #[trigger] m.windows.contains_key(k) && m.windows[k].is_focused ==> m.focused_window == Some(k)
            || k == u64_or_zero(id),
    ensures
        m.spec_focus_changed(id).focus_ok(),
{
    let i = u64_or_zero(id);
    let m1 = match m.focused_window {
        Some(f) => m.with_window_focus(f, false),
        None => m,
    };
    assert forall|k: u64| #[trigger] m1.windows.contains_key(k) && m1.windows[k].is_focused implies k == i by {
        assert(m.windows.contains_key(k));
    }
    let post = m.spec_focus_changed(id);
    assert forall|k: u64| #[trigger] post.windows.contains_key(k) && post.windows[k].is_focused implies post.focused_window
        == Some(k) by {
        if m1.windows.contains_key(i) {
            if k != i {
                assert(m1.windows[k] == post.windows[k]);
            }
        } else {
            assert(m1.windows.contains_key(k));
        }
    }
}

/// Handling one reported window keeps every flagged window the focused one.
pub proof fn lemma_handle_window_keeps_focus(m: NiriModel, win: ipc::Window)
    requires
        m.focus_ok(),
    ensures
        m.spec_handle_window(win).0.focus_ok(),
{
    let known = m.windows.contains_key(win.id);
    let base = if known {
        m.windows[win.id].spec_updated(win)
    } else {
        NiriWindow::spec_new(win)
    };
    let m1 = NiriModel {
        windows: m.windows.insert(win.id, m.bind_if_known(base)),
        window_created: if known {
            m.window_created
        } else {
            Some(win.id)
        },
        ..m
    };
    assert(m1.windows[win.id].is_focused == win.is_focused);
    assert forall|k: u64| #[trigger] m1.windows.contains_key(k) && m1.windows[k].is_focused implies m1.focused_window
        == Some(k) || k == win.id by {
        if k != win.id {
            assert(m.windows.contains_key(k));
        }
    }
    if win.is_focused {
        lemma_focus_changed_keeps_focus(m1, Some(win.id));
    }
}

/// Handling a list of reported windows keeps every flagged window the focused one.
pub proof fn lemma_handle_windows_keeps_focus(m: NiriModel, list: Seq<ipc::Window>)
    requires
        m.focus_ok(),
    ensures
        m.spec_handle_windows(list).0.focus_ok(),
    decreases list.len(),
{
    if list.len() > 0 {
        lemma_handle_windows_keeps_focus(m, list.drop_last());
        lemma_handle_window_keeps_focus(m.spec_handle_windows(list.drop_last()).0, list.last());
    }
}

/// Layout changes keep every flagged window the focused one.
pub proof fn lemma_layouts_keep_focus(m: NiriModel, changes: Seq<(u64, ipc::WindowLayout)>)
    requires
        m.focus_ok(),
    ensures
        m.spec_layouts_changed(changes).focus_ok(),
    decreases changes.len(),
{
    if changes.len() > 0 {
        lemma_layouts_keep_focus(m, changes.drop_last());
        let m1 = m.spec_layouts_changed(changes.drop_last());
        let post = m.spec_layouts_changed(changes);
        assert forall|k: u64| #[trigger] post.windows.contains_key(k) && post.windows[k].is_focused implies post.focused_window
            == Some(k) by {
            assert(m1.windows.contains_key(k));
        }
    }
}

/// Every event keeps the focus consistent: a window that carries the focus
/// flag is the focused window, so at most one window is flagged. The state
/// before any event satisfies it, so every state reached by events does.
pub proof fn law_focused_window_is_the_flagged_one(m: NiriModel, event: ipc::Event)
    requires
        m.focus_ok(),
    ensures
        NiriModel::empty().focus_ok(),
        m.spec_apply(event).0.focus_ok(),
        forall|a: u64, b: u64| #[trigger] m.windows.contains_key(a) && #[trigger] m.windows.contains_key(b)
            && m.windows[a].is_focused && m.windows[b].is_focused ==> a == b,
{
    let post = m.spec_apply(event).0;
    match event {
        ipc::Event::WorkspacesChanged { workspaces } => {
            assert forall|k: u64| #[trigger] post.windows.contains_key(k) && post.windows[k].is_focused implies post.focused_window
                == Some(k) by {
                assert(m.windows.contains_key(k));
                assert(post.windows[k].is_focused == m.windows[k].is_focused);
            }
        },
        ipc::Event::WindowsChanged { windows } => {
            lemma_handle_windows_keeps_focus(m, windows@);
        },
        ipc::Event::WindowOpenedOrChanged { window } => {
            lemma_handle_window_keeps_focus(m, window);
        },
        ipc::Event::WindowFocusChanged { id } => {
            lemma_focus_changed_keeps_focus(m, id);
        },
        ipc::Event::WindowLayoutsChanged { changes } => {
            lemma_layouts_keep_focus(m, changes@);
        },
        ipc::Event::WindowClosed { id } => {
            assert forall|k: u64| #[trigger] post.windows.contains_key(k) && post.windows[k].is_focused implies post.focused_window
                == Some(k) by {
                assert(m.windows.contains_key(k));
            }
        },
        ipc::Event::WindowFocusTimestampChanged { id, focus_timestamp } => {
            assert forall|k: u64| #[trigger] post.windows.contains_key(k) && post.windows[k].is_focused implies post.focused_window
                == Some(k) by {
                assert(m.windows.contains_key(k));
            }
        },
        ipc::Event::WindowUrgencyChanged { id, urgent } => {
            assert forall|k: u64| #[trigger] post.windows.contains_key(k) && post.windows[k].is_focused implies post.focused_window
                == Some(k) by {
                assert(m.windows.contains_key(k));
            }
        },
        _ => {},
    }
}

/// A window bound to a workspace carries that workspace's index and output
/// in every state the events reach; when the workspace list changes, it
/// takes the listed index and output of its workspace, and a window whose
/// workspace is no longer listed is unbound and keeps what it had.
pub proof fn law_bound_window_mirrors_workspace(m: NiriModel, list: Vec<ipc::Workspace>, k: u64)
    requires
        m.wf(),
        m.windows.contains_key(k),
    ensures
        m.windows[k].bound_workspace matches Some(b) ==> (m.workspaces.contains_key(b)
            && m.windows[k].workspace_idx == m.workspaces[b].idx && m.windows[k].output == m.workspaces[b].output),
        ({
            let post = m.spec_apply(ipc::Event::WorkspacesChanged { workspaces: list }).0;
            let w = m.windows[k];
            &&& post.windows.contains_key(k)
            &&& (w.bound_workspace matches Some(b) && lists_workspace(list@, b)) ==> (post.windows[k].bound_workspace
                == w.bound_workspace && post.windows[k].workspace_idx == list@[last_workspace_index(
                list@,
                w.bound_workspace->0,
            )].idx && post.windows[k].output == list@[last_workspace_index(list@, w.bound_workspace->0)].output)
            &&& (w.bound_workspace matches Some(b) && !lists_workspace(list@, b)) ==> (post.windows[k].bound_workspace is None
                && post.windows[k].workspace_idx == w.workspace_idx && post.windows[k].output == w.output)
        }),
{
    match m.windows[k].bound_workspace {
        Some(b) => {
            lemma_last_workspace_index(list@, b);
        },
        None => {},
    }
}

/// A window reported on a known workspace is bound to it and carries its
/// index and output.
pub proof fn law_window_binds_to_its_workspace(m: NiriModel, win: ipc::Window)
    requires
        m.wf(),
        !win.is_focused,
        win.workspace_id matches Some(b) && m.workspaces.contains_key(b),
    ensures
        ({
            let post = m.spec_apply(ipc::Event::WindowOpenedOrChanged { window: win }).0;
            let b = win.workspace_id->0;
            &&& post.windows[win.id].bound_workspace == Some(b)
            &&& post.windows[win.id].workspace_idx == m.workspaces[b].idx
            &&& post.windows[win.id].output == m.workspaces[b].output
        }),
{
}

/// Every window of `m` is still in `m2` with the same id and application id.
pub open spec fn keeps_windows(m: Map<u64, NiriWindow>, m2: Map<u64, NiriWindow>) -> bool {
    forall|k: u64| #[trigger] m.contains_key(k) ==> m2.contains_key(k) && m2[k].id == m[k].id && m2[k].app_id
        == m[k].app_id
}

/// Whether every window of `m` is stored under its own id.
pub open spec fn window_ids_match(m: Map<u64, NiriWindow>) -> bool {
    forall|k: u64| #[trigger] m.contains_key(k) ==> m[k].id == k
}

/// Whether `event` reports every window that the dock knows under the
/// application id it already has.
pub open spec fn keeps_app_ids(m: NiriModel, event: ipc::Event) -> bool {
    match event {
        ipc::Event::WindowOpenedOrChanged { window } => m.windows.contains_key(window.id) ==> m.windows[window.id].app_id
            == window.app_id,
        ipc::Event::WindowsChanged { windows } => forall|i: int| 0 <= i < windows@.len() && m.windows.contains_key(
            #[trigger] windows@[i].id,
        ) ==> m.windows[windows@[i].id].app_id == windows@[i].app_id,
        _ => true,
    }
}

/// Moving the focus keeps every window, its id and its application id.
pub proof fn lemma_focus_changed_keeps_windows(m: NiriModel, id: Option<u64>)
    ensures
        keeps_windows(m.windows, m.spec_focus_changed(id).windows),
        forall|k: u64| #[trigger] m.spec_focus_changed(id).windows.contains_key(k) ==> m.windows.contains_key(k),
{
}

/// One reported window: it is known afterwards under its id and with its
/// application id, the others keep theirs, and it is new exactly when it was not known.
pub proof fn lemma_handle_window_windows(m: NiriModel, win: ipc::Window)
    ensures
        ({
            let (m1, is_new) = m.spec_handle_window(win);
            &&& is_new == !m.windows.contains_key(win.id)
            &&& m1.windows.contains_key(win.id)
            &&& m1.windows[win.id].id == win.id
            &&& m1.windows[win.id].app_id == win.app_id
            &&& forall|k: u64| #[trigger] m1.windows.contains_key(k) ==> m.windows.contains_key(k) || k == win.id
            &&& forall|k: u64| #[trigger] m.windows.contains_key(k) && k != win.id ==> m1.windows.contains_key(k)
                && m1.windows[k].id == m.windows[k].id && m1.windows[k].app_id == m.windows[k].app_id
        }),
{
    let known = m.windows.contains_key(win.id);
    let base = if known {
        m.windows[win.id].spec_updated(win)
    } else {
        NiriWindow::spec_new(win)
    };
    let m1 = NiriModel {
        windows: m.windows.insert(win.id, m.bind_if_known(base)),
        window_created: if known {
            m.window_created
        } else {
            Some(win.id)
        },
        ..m
    };
    lemma_focus_changed_keeps_windows(m1, Some(win.id));
}

/// A list of reported windows: every window known before stays, with its
/// application id when the list keeps it; every window is stored under its
/// own id; the windows announced as created were not known before, are
/// known after, and are announced once each.
pub proof fn lemma_handle_windows_windows(m: NiriModel, list: Seq<ipc::Window>)
    requires
        window_ids_match(m.windows),
        forall|i: int| 0 <= i < list.len() && m.windows.contains_key(#[trigger] list[i].id) ==> m.windows[list[i].id].app_id
            == list[i].app_id,
    ensures
        ({
            let (m1, created) = m.spec_handle_windows(list);
            &&& keeps_windows(m.windows, m1.windows)
            &&& window_ids_match(m1.windows)
            &&& forall|i: int| 0 <= i < created.len() ==> !m.windows.contains_key(#[trigger] created[i])
                && m1.windows.contains_key(created[i])
            &&& forall|i: int, j: int| 0 <= i < j < created.len() ==> #[trigger] created[i] != #[trigger] created[j]
        }),
    decreases list.len(),
{
    if list.len() > 0 {
        let init = list.drop_last();
        assert forall|i: int| 0 <= i < init.len() && m.windows.contains_key(#[trigger] init[i].id) implies m.windows[init[i].id].app_id
            == init[i].app_id by {
            assert(init[i] == list[i]);
        }
        lemma_handle_windows_windows(m, init);
        let (m0, c0) = m.spec_handle_windows(init);
        let win = list.last();
        lemma_handle_window_windows(m0, win);
        let (m1, is_new) = m0.spec_handle_window(win);
        assert(list[list.len() - 1] == win);
        let created = m.spec_handle_windows(list).1;
        if is_new {
            assert(created == c0.push(win.id));
            assert forall|i: int| 0 <= i < created.len() implies !m.windows.contains_key(#[trigger] created[i])
                && m1.windows.contains_key(created[i]) by {
                if i < c0.len() {
                    assert(created[i] == c0[i]);
                }
            }
            assert forall|i: int, j: int| 0 <= i < j < created.len() implies #[trigger] created[i] != #[trigger] created[j] by {
                if j < c0.len() {
                    assert(created[i] == c0[i] && created[j] == c0[j]);
                } else {
                    assert(created[i] == c0[i]);
                }
            }
        } else {
            assert(created == c0);
        }
        assert forall|k: u64| #[trigger] m1.windows.contains_key(k) implies m1.windows[k].id == k by {
            if k != win.id {
                assert(m0.windows.contains_key(k));
            }
        }
    }
}

/// Layout changes keep every window, its id and its application id, and no other window appears.
pub proof fn lemma_layouts_keep_windows(m: NiriModel, changes: Seq<(u64, ipc::WindowLayout)>)
    ensures
        keeps_windows(m.windows, m.spec_layouts_changed(changes).windows),
        forall|k: u64| #[trigger] m.spec_layouts_changed(changes).windows.contains_key(k) ==> m.windows.contains_key(k),
    decreases changes.len(),
{
    if changes.len() > 0 {
        lemma_layouts_keep_windows(m, changes.drop_last());
    }
}

/// What an event does to the windows, as far as the application entries
/// care: a closed window is the only one that goes; otherwise every window
/// stays with its id and (for events that keep them) its application id;
/// the windows announced as created were not known before, are known
/// after, and are announced once each; every window is stored under its own id.
pub proof fn lemma_apply_windows(m: NiriModel, event: ipc::Event)
    requires
        m.wf(),
        keeps_app_ids(m, event),
    ensures
        ({
            let (m2, c) = m.spec_apply(event);
            &&& window_ids_match(m2.windows)
            &&& forall|i: int| 0 <= i < c.created.len() ==> !m.windows.contains_key(#[trigger] c.created[i])
                && m2.windows.contains_key(c.created[i])
            &&& forall|i: int, j: int| 0 <= i < j < c.created.len() ==> #[trigger] c.created[i] != #[trigger] c.created[j]
            &&& (event matches ipc::Event::WindowClosed { id } ==> {
                &&& m2.windows == m.windows.remove(id)
                &&& c.created.len() == 0
                &&& c.closed == if m.windows.contains_key(id) {
                    Some(NiriWindow { closed: true, ..m.windows[id] })
                } else {
                    None
                }
            })
            &&& (!(event is WindowClosed) ==> keeps_windows(m.windows, m2.windows) && c.closed is None)
        }),
{
    let (m2, c) = m.spec_apply(event);
    match event {
        ipc::Event::WindowsChanged { windows } => {
            lemma_handle_windows_windows(m, windows@);
        },
        ipc::Event::WindowOpenedOrChanged { window } => {
            lemma_handle_window_windows(m, window);
            assert forall|k: u64| #[trigger] m2.windows.contains_key(k) implies m2.windows[k].id == k by {
                if k != window.id {
                    assert(m.windows.contains_key(k));
                }
            }
        },
        ipc::Event::WindowFocusChanged { id } => {
            lemma_focus_changed_keeps_windows(m, id);
            assert forall|k: u64| #[trigger] m2.windows.contains_key(k) implies m2.windows[k].id == k by {
                assert(m.windows.contains_key(k));
            }
        },
        ipc::Event::WindowLayoutsChanged { changes } => {
            lemma_layouts_keep_windows(m, changes@);
            assert forall|k: u64| #[trigger] m2.windows.contains_key(k) implies m2.windows[k].id == k by {
                assert(m.windows.contains_key(k));
            }
        },
        ipc::Event::WorkspacesChanged { workspaces } => {
            assert forall|k: u64| #[trigger] m2.windows.contains_key(k) implies m2.windows[k].id == k by {
                assert(m.windows.contains_key(k));
            }
        },
        _ => {
            assert forall|k: u64| #[trigger] m2.windows.contains_key(k) implies m2.windows[k].id == k by {
                assert(m.windows.contains_key(k));
            }
        },
    }
}

/// Each layout change, applied in order: every known window named in the
/// list takes the layout of the last entry for its id and keeps everything
/// else; every other window stays as it was; no window appears or goes.
pub proof fn lemma_layouts_changed_per_window(m: NiriModel, changes: Seq<(u64, ipc::WindowLayout)>)
    ensures
        ({
            let post = m.spec_layouts_changed(changes);
            &&& post.windows.dom() == m.windows.dom()
            &&& forall|k: u64| #[trigger] m.windows.contains_key(k) ==> post.windows[k] == (NiriWindow {
                layout: post.windows[k].layout,
                ..m.windows[k]
            })
            &&& forall|k: u64| #[trigger] m.windows.contains_key(k) && (forall|i: int| 0 <= i < changes.len() ==> changes[i].0 != k)
                ==> post.windows[k] == m.windows[k]
            &&& forall|k: u64, i: int| #[trigger] m.windows.contains_key(k) && 0 <= i < changes.len() && #[trigger] changes[i].0 == k
                && (forall|j: int| i < j < changes.len() ==> changes[j].0 != k) ==> post.windows[k] == (NiriWindow {
                layout: changes[i].1,
                ..m.windows[k]
            })
            &&& post.workspaces == m.workspaces
            &&& post.focused_window == m.focused_window
            &&& post.focused_workspace == m.focused_workspace
            &&& post.overview_is_open == m.overview_is_open
            &&& post.window_created == m.window_created
        }),
    decreases changes.len(),
{
    if changes.len() > 0 {
        let init = changes.drop_last();
        lemma_layouts_changed_per_window(m, init);
        let m1 = m.spec_layouts_changed(init);
        let (id, layout) = changes.last();
        let post = m.spec_layouts_changed(changes);
        assert(changes[changes.len() - 1] == changes.last());
        assert(post.windows.dom() =~= m.windows.dom());
        assert forall|k: u64| #[trigger] m.windows.contains_key(k) && (forall|i: int| 0 <= i < changes.len() ==> changes[i].0 != k)
            implies post.windows[k] == m.windows[k] by {
            assert forall|i: int| 0 <= i < init.len() implies init[i].0 != k by {
                assert(init[i] == changes[i]);
            }
            assert(changes[changes.len() - 1].0 != k);
        }
        assert forall|k: u64, i: int| #[trigger] m.windows.contains_key(k) && 0 <= i < changes.len() && #[trigger] changes[i].0 == k
            && (forall|j: int| i < j < changes.len() ==> changes[j].0 != k) implies post.windows[k] == (NiriWindow {
            layout: changes[i].1,
            ..m.windows[k]
        }) by {
            if i == changes.len() - 1 {
                assert(k == id);
                assert(m1.windows[k] == NiriWindow { layout: m1.windows[k].layout, ..m.windows[k] });
            } else {
                assert(init[i] == changes[i]);
                assert(changes[changes.len() - 1].0 != k);
                assert forall|j: int| i < j < init.len() implies init[j].0 != k by {
                    assert(init[j] == changes[j]);
                }
            }
        }
    }
}

/// After niri reports layout changes, every known window named in the list
/// has the layout of the last entry for its id, with everything else as
/// before; every other window, and every workspace, is unchanged.
pub proof fn law_layouts_follow_the_last_change(m: NiriModel, changes: Vec<(u64, ipc::WindowLayout)>)
    ensures
        ({
            let (post, c) = m.spec_apply(ipc::Event::WindowLayoutsChanged { changes });
            let list = changes@;
            &&& post.windows.dom() == m.windows.dom()
            &&& forall|k: u64| #[trigger] m.windows.contains_key(k) && (forall|i: int| 0 <= i < list.len() ==> list[i].0 != k)
                ==> post.windows[k] == m.windows[k]
            &&& forall|k: u64, i: int| #[trigger] m.windows.contains_key(k) && 0 <= i < list.len() && #[trigger] list[i].0 == k
                && (forall|j: int| i < j < list.len() ==> list[j].0 != k) ==> post.windows[k] == (NiriWindow {
                layout: list[i].1,
                ..m.windows[k]
            })
            &&& post.workspaces == m.workspaces
            &&& post.focused_window == m.focused_window
        }),
{
    lemma_layouts_changed_per_window(m, changes@);
}

/// Activating a known workspace makes it the only active workspace among
/// those on its output, and leaves workspaces on other outputs as they were.
pub proof fn law_one_active_workspace_per_output(m: NiriModel, id: u64, focused: bool)
    requires
        m.wf(),
        m.workspaces.contains_key(id),
    ensures
        ({
            let post = m.spec_apply(ipc::Event::WorkspaceActivated { id, focused }).0;
            &&& post.workspaces.dom() == m.workspaces.dom()
            &&& forall|k: u64| #[trigger] post.workspaces.contains_key(k) && opt_view(post.workspaces[k].output)
                == opt_view(m.workspaces[id].output) ==> (post.workspaces[k].is_active <==> k == id)
            &&& forall|k: u64| #[trigger] post.workspaces.contains_key(k) && opt_view(post.workspaces[k].output)
                != opt_view(m.workspaces[id].output) ==> post.workspaces[k].is_active
                == m.workspaces[k].is_active
            &&& focused ==> forall|k: u64| #[trigger] post.workspaces.contains_key(k) ==> (
            post.workspaces[k].is_focused <==> k == id)
        }),
{
    let post = m.spec_apply(ipc::Event::WorkspaceActivated { id, focused }).0;
    assert(post.workspaces.dom() =~= m.workspaces.dom());
}

/// Focusing a known workspace that was not focused makes it the focused
/// workspace, with its index and output unchanged, and reports the change.
pub proof fn law_focused_workspace_follows_activation(m: NiriModel, id: u64)
    requires
        m.wf(),
        m.workspaces.contains_key(id),
        !m.workspaces[id].is_focused,
    ensures
        ({
            let (post, changes) = m.spec_apply(ipc::Event::WorkspaceActivated { id, focused: true });
            &&& post.focused_workspace == Some(id)
            &&& post.workspaces.contains_key(id)
            &&& post.workspaces[id].idx == m.workspaces[id].idx
            &&& post.workspaces[id].output == m.workspaces[id].output
            &&& changes.focused_workspace
        }),
{
}

/// After a full list of workspaces, the dock knows exactly the listed
/// workspaces, and every window bound to one of them carries its index and output.
pub proof fn law_workspaces_follow_list(m: NiriModel, list: Vec<ipc::Workspace>)
    requires
        m.wf(),
    ensures
        ({
            let post = m.spec_apply(ipc::Event::WorkspacesChanged { workspaces: list }).0;
            &&& forall|k: u64| post.workspaces.contains_key(k) <==> lists_workspace(list@, k)
            &&& forall|k: u64| #[trigger] post.workspaces.contains_key(k) ==> post.workspaces[k].id == k
            &&& forall|k: u64| #[trigger] post.windows.contains_key(k) ==> post.binding_ok(post.windows[k])
            &&& post.windows.dom() == m.windows.dom()
        }),
{
    let post = m.spec_apply(ipc::Event::WorkspacesChanged { workspaces: list }).0;
    assert(post.windows.dom() =~= m.windows.dom());
    assert forall|k: u64| #[trigger] post.workspaces.contains_key(k) implies post.workspaces[k].id == k by {
        lemma_last_workspace_index(list@, k);
    }
}

/// Reporting the same full list of workspaces a second time changes nothing.
pub proof fn law_workspaces_list_is_idempotent(m: NiriModel, list: Vec<ipc::Workspace>)
    requires
        m.wf(),
    ensures
        ({
            let once = m.spec_apply(ipc::Event::WorkspacesChanged { workspaces: list }).0;
            let twice = once.spec_apply(ipc::Event::WorkspacesChanged { workspaces: list }).0;
            twice == once
        }),
{
    let once = m.spec_workspaces_changed(list@);
    let twice = once.spec_workspaces_changed(list@);
    assert(twice.workspaces =~= once.workspaces);
    assert forall|k: u64| #[trigger] once.windows.contains_key(k) implies twice.windows[k] == once.windows[k] by {
        let w = m.windows[k];
        assert(once.windows[k] == rebound(w, once.workspaces));
        assert(twice.windows[k] == rebound(once.windows[k], once.workspaces));
        let ws = once.workspaces;
        match w.bound_workspace {
            Some(b) => {
                if ws.contains_key(b) {
                    lemma_last_workspace_index(list@, b);
                    assert(rebound(w, ws) == w.spec_bound(ws[b]));
                    assert(rebound(w, ws).bound_workspace == Some(b));
                    assert(rebound(rebound(w, ws), ws) == rebound(w, ws).spec_bound(ws[b]));
                    assert(rebound(w, ws).spec_bound(ws[b]) =~= rebound(w, ws));
                }
            },
            None => {},
        }
    }
    assert(twice.windows =~= once.windows);
}

/// Events about windows or workspaces that the dock does not know change nothing.
pub proof fn law_unknown_ids_change_nothing(m: NiriModel, id: u64, urgent: bool, ts: Option<ipc::Timestamp>)
    requires
        m.wf(),
        !m.windows.contains_key(id),
        !m.workspaces.contains_key(id),
    ensures
        m.spec_apply(ipc::Event::WindowUrgencyChanged { id, urgent }).0 == m,
        m.spec_apply(ipc::Event::WindowFocusTimestampChanged { id, focus_timestamp: ts }).0 == m,
        m.spec_apply(ipc::Event::WorkspaceUrgencyChanged { id, urgent }).0 == m,
        m.spec_apply(ipc::Event::WorkspaceActivated { id, focused: true }).0 == m,
        m.spec_apply(ipc::Event::WorkspaceActiveWindowChanged { workspace_id: id, active_window_id: None }).0 == m,
{
}

/// The overview flag is what the last overview event said.
pub proof fn law_overview_follows_event(m: NiriModel, is_open: bool)
    ensures
        m.spec_apply(ipc::Event::OverviewOpenedOrClosed { is_open }).0.overview_is_open == is_open,
        m.spec_apply(ipc::Event::OverviewOpenedOrClosed { is_open }).1.overview,
{
}

} // verus!
