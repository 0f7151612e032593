//! The dock's mirror of niri's windows and workspaces.
//!
//! [Niri] holds every window and workspace that the compositor has reported,
//! and [Niri::apply] folds one compositor event into it. The result of each
//! event is stated exactly by [NiriModel::spec_apply].

pub mod ipc;
pub mod window;
pub mod workspace;
pub mod laws;
pub mod socket;

use std::collections::HashMap;
use vstd::prelude::*;

use crate::maps::{contains_u64, keys_of};
use crate::text::opt_string_eq;
use crate::text::opt_view;
use window::{timestamp_or_zero, u64_or_zero, NiriWindow};
use workspace::NiriWorkspace;

verus! {

broadcast use vstd::std_specs::hash::group_hash_axioms;

/// The abstract state of [Niri].
pub ghost struct NiriModel {
    /// Windows by id.
    pub windows: Map<u64, NiriWindow>,
    /// Workspaces by id.
    pub workspaces: Map<u64, NiriWorkspace>,
    pub overview_is_open: bool,
    /// The workspace that was last reported focused.
    pub focused_workspace: Option<u64>,
    /// The window that holds the keyboard focus, as far as the dock knows.
    pub focused_window: Option<u64>,
    /// The window that was opened last.
    pub window_created: Option<u64>,
}

/// What an event changed, for those who watch the state.
pub ghost struct ChangesModel {
    /// The set of workspaces was replaced.
    pub workspaces: bool,
    /// Windows were opened or closed.
    pub windows: bool,
    /// Ids of the windows opened, in order.
    pub created: Seq<u64>,
    /// The record of the window closed, marked closed.
    pub closed: Option<NiriWindow>,
    /// The focused workspace was set.
    pub focused_workspace: bool,
    /// The focused window was set.
    pub focused_window: bool,
    /// The overview state was set.
    pub overview: bool,
}

/// What an event changed.
pub struct Changes {
    pub workspaces: bool,
    pub windows: bool,
    pub created: Vec<u64>,
    pub closed: Option<NiriWindow>,
    pub focused_workspace: bool,
    pub focused_window: bool,
    pub overview: bool,
}

impl View for Changes {
    type V = ChangesModel;

    open spec fn view(&self) -> ChangesModel {
        ChangesModel {
            workspaces: self.workspaces,
            windows: self.windows,
            created: self.created@,
            closed: self.closed,
            focused_workspace: self.focused_workspace,
            focused_window: self.focused_window,
            overview: self.overview,
        }
    }
}

/// Nothing changed.
pub open spec fn no_changes() -> ChangesModel {
    ChangesModel {
        workspaces: false,
        windows: false,
        created: Seq::empty(),
        closed: None,
        focused_workspace: false,
        focused_window: false,
        overview: false,
    }
}

/// The position of the last workspace in `list` with id `k`, or -1.
pub open spec fn last_workspace_index(list: Seq<ipc::Workspace>, k: u64) -> int
    decreases list.len(),
{
    if list.len() == 0 {
        -1
    } else if list.last().id == k {
        list.len() - 1
    } else {
        last_workspace_index(list.drop_last(), k)
    }
}

/// Whether some workspace in `list` has id `k`.
pub open spec fn lists_workspace(list: Seq<ipc::Workspace>, k: u64) -> bool {
    exists|i: int| 0 <= i < list.len() && list[i].id == k
}

/// A window after the workspaces became `ws`: a window bound to a workspace
/// that is still there mirrors it anew; one bound to a workspace that is gone
/// keeps what it had and is unbound.
pub open spec fn rebound(w: NiriWindow, ws: Map<u64, NiriWorkspace>) -> NiriWindow {
    match w.bound_workspace {
        Some(b) => if ws.contains_key(b) {
            w.spec_bound(ws[b])
        } else {
            NiriWindow { bound_workspace: None, ..w }
        },
        None => w,
    }
}

/// A workspace after workspace `id` of output `output` was activated.
pub open spec fn activated(
    w: NiriWorkspace,
    k: u64,
    id: u64,
    output: Option<Seq<char>>,
    focused: bool,
) -> NiriWorkspace {
    NiriWorkspace {
        is_active: if opt_view(w.output) == output {
            k == id
        } else {
            w.is_active
        },
        is_focused: if focused {
            k == id
        } else {
            w.is_focused
        },
        ..w
    }
}


/// The last index of `k` in `list` is a position of `k`, and there is one exactly when `k` is listed.
pub proof fn lemma_last_workspace_index(list: Seq<ipc::Workspace>, k: u64)
    ensures
        -1 <= last_workspace_index(list, k) < list.len(),
        last_workspace_index(list, k) >= 0 <==> lists_workspace(list, k),
        last_workspace_index(list, k) >= 0 ==> list[last_workspace_index(list, k)].id == k,
    decreases list.len(),
{
    if list.len() > 0 {
        lemma_last_workspace_index(list.drop_last(), k);
        if list.last().id != k {
            if lists_workspace(list, k) {
                let i = choose|i: int| 0 <= i < list.len() && list[i].id == k;
                assert(list.drop_last()[i].id == k);
            }
            if lists_workspace(list.drop_last(), k) {
                let i = choose|i: int| 0 <= i < list.drop_last().len() && list.drop_last()[i].id == k;
                assert(list[i].id == k);
            }
        }
    }
}

impl NiriModel {
    /// Every record is stored under its own id, and every bound window mirrors its workspace.
    pub open spec fn wf(self) -> bool {
        &&& forall|k: u64| #[trigger] self.windows.contains_key(k) ==> self.windows[k].id == k
        &&& forall|k: u64| #[trigger] self.workspaces.contains_key(k) ==> self.workspaces[k].id == k
        &&& forall|k: u64| #[trigger] self.windows.contains_key(k) ==> self.binding_ok(self.windows[k])
    }

    /// Every window that carries the focus flag is the focused window.
    pub open spec fn focus_ok(self) -> bool {
        forall|k: u64| #[trigger] self.windows.contains_key(k) && self.windows[k].is_focused ==> self.focused_window
            == Some(k)
    }

    /// `w` is unbound, or bound to a known workspace whose index and output it carries.
    pub open spec fn binding_ok(self, w: NiriWindow) -> bool {
        w.bound_workspace matches Some(b) ==> {
            &&& self.workspaces.contains_key(b)
            &&& w.workspace_idx == self.workspaces[b].idx
            &&& w.output == self.workspaces[b].output
        }
    }

    /// The state before any event.
    pub open spec fn empty() -> NiriModel {
        NiriModel {
            windows: Map::empty(),
            workspaces: Map::empty(),
            overview_is_open: false,
            focused_workspace: None,
            focused_window: None,
            window_created: None,
        }
    }

    /// `w` bound to the workspace it names, if that workspace is known.
    pub open spec fn bind_if_known(self, w: NiriWindow) -> NiriWindow {
        if self.workspaces.contains_key(w.workspace_id) {
            w.spec_bound(self.workspaces[w.workspace_id])
        } else {
            w
        }
    }

    /// Window `id` with its focus flag set to `focused`, if it is known.
    pub open spec fn with_window_focus(self, id: u64, focused: bool) -> NiriModel {
        if self.windows.contains_key(id) {
            NiriModel {
                windows: self.windows.insert(id, NiriWindow { is_focused: focused, ..self.windows[id] }),
                ..self
            }
        } else {
            self
        }
    }

    /// The keyboard focus moved to window `id` (absent reads as zero): the
    /// previously focused window loses its flag, and `id` gains it and
    /// becomes the focused window if it is known; else none is focused.
    pub open spec fn spec_focus_changed(self, id: Option<u64>) -> NiriModel {
        let id = u64_or_zero(id);
        let m = match self.focused_window {
            Some(f) => self.with_window_focus(f, false),
            None => self,
        };
        if m.windows.contains_key(id) {
            NiriModel { focused_window: Some(id), ..m.with_window_focus(id, true) }
        } else {
            NiriModel { focused_window: None, ..m }
        }
    }

    /// Window `win` opened or changed; the flag tells whether it was new.
    pub open spec fn spec_handle_window(self, win: ipc::Window) -> (NiriModel, bool) {
        let known = self.windows.contains_key(win.id);
        let base = if known {
            self.windows[win.id].spec_updated(win)
        } else {
            NiriWindow::spec_new(win)
        };
        let m = NiriModel {
            windows: self.windows.insert(win.id, self.bind_if_known(base)),
            window_created: if known {
                self.window_created
            } else {
                Some(win.id)
            },
            ..self
        };
        (
            if win.is_focused {
                m.spec_focus_changed(Some(win.id))
            } else {
                m
            },
            !known,
        )
    }

    /// Every window of `list` handled in order, with the ids of those that were new.
    pub open spec fn spec_handle_windows(self, list: Seq<ipc::Window>) -> (NiriModel, Seq<u64>)
        decreases list.len(),
    {
        if list.len() == 0 {
            (self, Seq::empty())
        } else {
            let (m, created) = self.spec_handle_windows(list.drop_last());
            let (m2, is_new) = m.spec_handle_window(list.last());
            (
                m2,
                if is_new {
                    created.push(list.last().id)
                } else {
                    created
                },
            )
        }
    }

    /// The workspaces after niri reported the full list `list`.
    pub open spec fn spec_workspaces_after(self, list: Seq<ipc::Workspace>) -> Map<u64, NiriWorkspace> {
        Map::new(
            |k: u64| lists_workspace(list, k),
            |k: u64|
                if self.workspaces.contains_key(k) {
                    self.workspaces[k].spec_updated(list[last_workspace_index(list, k)])
                } else {
                    NiriWorkspace::spec_new(list[last_workspace_index(list, k)])
                },
        )
    }

    /// niri reported the full list of workspaces: those not listed are
    /// dropped, listed ones are created or updated (the last entry of an id
    /// wins), and windows follow their workspaces.
    pub open spec fn spec_workspaces_changed(self, list: Seq<ipc::Workspace>) -> NiriModel {
        let ws = self.spec_workspaces_after(list);
        NiriModel {
            workspaces: ws,
            windows: Map::new(
                |k: u64| self.windows.contains_key(k),
                |k: u64| rebound(self.windows[k], ws),
            ),
            ..self
        }
    }

    /// Workspace `id` became active on its output, and focused if `focused`.
    pub open spec fn spec_workspace_activated(self, id: u64, focused: bool) -> (NiriModel, bool) {
        if self.workspaces.contains_key(id) {
            let target = self.workspaces[id];
            let newly_focused = focused && !target.is_focused;
            (
                NiriModel {
                    workspaces: Map::new(
                        |k: u64| self.workspaces.contains_key(k),
                        |k: u64| activated(self.workspaces[k], k, id, opt_view(target.output), focused),
                    ),
                    focused_workspace: if newly_focused {
                        Some(id)
                    } else {
                        self.focused_workspace
                    },
                    ..self
                },
                newly_focused,
            )
        } else {
            (self, false)
        }
    }

    /// Each layout change applied in order to the windows that are known.
    pub open spec fn spec_layouts_changed(self, changes: Seq<(u64, ipc::WindowLayout)>) -> NiriModel
        decreases changes.len(),
    {
        if changes.len() == 0 {
            self
        } else {
            let m = self.spec_layouts_changed(changes.drop_last());
            let (id, layout) = changes.last();
            if m.windows.contains_key(id) {
                NiriModel { windows: m.windows.insert(id, NiriWindow { layout, ..m.windows[id] }), ..m }
            } else {
                m
            }
        }
    }

    /// The state after `event`, and what changed.
    pub open spec fn spec_apply(self, event: ipc::Event) -> (NiriModel, ChangesModel) {
        match event {
            ipc::Event::WorkspacesChanged { workspaces } => (
                self.spec_workspaces_changed(workspaces@),
                ChangesModel { workspaces: true, ..no_changes() },
            ),
            ipc::Event::WorkspaceUrgencyChanged { id, urgent } => (
                if self.workspaces.contains_key(id) {
                    NiriModel {
                        workspaces: self.workspaces.insert(
                            id,
                            NiriWorkspace { is_urgent: urgent, ..self.workspaces[id] },
                        ),
                        ..self
                    }
                } else {
                    self
                },
                no_changes(),
            ),
            ipc::Event::WorkspaceActivated { id, focused } => {
                let (m, newly_focused) = self.spec_workspace_activated(id, focused);
                (m, ChangesModel { focused_workspace: newly_focused, ..no_changes() })
            },
            ipc::Event::WorkspaceActiveWindowChanged { workspace_id, active_window_id } => (
                if self.workspaces.contains_key(workspace_id) {
                    NiriModel {
                        workspaces: self.workspaces.insert(
                            workspace_id,
                            NiriWorkspace {
                                active_window_id: u64_or_zero(active_window_id),
                                ..self.workspaces[workspace_id]
                            },
                        ),
                        ..self
                    }
                } else {
                    self
                },
                no_changes(),
            ),
            ipc::Event::WindowsChanged { windows } => {
                let (m, created) = self.spec_handle_windows(windows@);
                (
                    m,
                    ChangesModel {
                        windows: true,
                        created,
                        focused_window: exists|i: int| 0 <= i < windows@.len() && windows@[i].is_focused,
                        ..no_changes()
                    },
                )
            },
            ipc::Event::WindowOpenedOrChanged { window } => {
                let (m, is_new) = self.spec_handle_window(window);
                (
                    m,
                    ChangesModel {
                        windows: is_new,
                        created: if is_new {
                            seq![window.id]
                        } else {
                            Seq::empty()
                        },
                        focused_window: window.is_focused,
                        ..no_changes()
                    },
                )
            },
            ipc::Event::WindowClosed { id } => (
                NiriModel { windows: self.windows.remove(id), ..self },
                ChangesModel {
                    windows: true,
                    closed: if self.windows.contains_key(id) {
                        Some(NiriWindow { closed: true, ..self.windows[id] })
                    } else {
                        None
                    },
                    ..no_changes()
                },
            ),
            ipc::Event::WindowFocusChanged { id } => (
                self.spec_focus_changed(id),
                ChangesModel { focused_window: true, ..no_changes() },
            ),
            ipc::Event::WindowFocusTimestampChanged { id, focus_timestamp } => (
                if self.windows.contains_key(id) {
                    NiriModel {
                        windows: self.windows.insert(
                            id,
                            NiriWindow { focus_timestamp: timestamp_or_zero(focus_timestamp), ..self.windows[id] },
                        ),
                        ..self
                    }
                } else {
                    self
                },
                no_changes(),
            ),
            ipc::Event::WindowUrgencyChanged { id, urgent } => (
                if self.windows.contains_key(id) {
                    NiriModel {
                        windows: self.windows.insert(id, NiriWindow { is_urgent: urgent, ..self.windows[id] }),
                        ..self
                    }
                } else {
                    self
                },
                no_changes(),
            ),
            ipc::Event::WindowLayoutsChanged { changes } => (self.spec_layouts_changed(changes@), no_changes()),
            ipc::Event::OverviewOpenedOrClosed { is_open } => (
                NiriModel { overview_is_open: is_open, ..self },
                ChangesModel { overview: true, ..no_changes() },
            ),
            ipc::Event::Other => (self, no_changes()),
        }
    }
}

/// The records behind [Niri], changed in place by each event.
struct Mirror {
    windows: HashMap<u64, NiriWindow>,
    workspaces: HashMap<u64, NiriWorkspace>,
    overview_is_open: bool,
    focused_workspace: Option<u64>,
    focused_window: Option<u64>,
    window_created: Option<u64>,
}

impl View for Mirror {
    type V = NiriModel;

    closed spec fn view(&self) -> NiriModel {
        NiriModel {
            windows: self.windows@,
            workspaces: self.workspaces@,
            overview_is_open: self.overview_is_open,
            focused_workspace: self.focused_workspace,
            focused_window: self.focused_window,
            window_created: self.window_created,
        }
    }
}


impl Mirror {
    /// An empty mirror, before any event.
    fn new() -> (r: Mirror)
        ensures
            r@ == NiriModel::empty(),
            r@.wf(),
            r@.focus_ok(),
    {
        Mirror {
            windows: HashMap::new(),
            workspaces: HashMap::new(),
            overview_is_open: false,
            focused_workspace: None,
            focused_window: None,
            window_created: None,
        }
    }

    /// Sets the focus flag of window `id`, if it is known.
    fn set_window_focus(&mut self, id: u64, focused: bool)
        requires
            old(self)@.wf(),
        ensures
            final(self)@ == old(self)@.with_window_focus(id, focused),
            final(self)@.wf(),
    {
        match self.windows.remove(&id) {
            Some(mut w) => {
                w.is_focused = focused;
                self.windows.insert(id, w);
                proof {
                    assert(self.windows@ =~= old(self)@.windows.insert(
                        id,
                        NiriWindow { is_focused: focused, ..old(self)@.windows[id] },
                    ));
                }
            },
            None => {
                assert(self.windows@ =~= old(self)@.windows);
            },
        }
    }



    /// Folds one compositor event into the mirror and reports what changed.
    fn apply(&mut self, event: ipc::Event) -> (changes: Changes)
        requires
            old(self)@.wf(),
        ensures
            (final(self)@, changes@) == old(self)@.spec_apply(event),
            final(self)@.wf(),
            old(self)@.focus_ok() ==> final(self)@.focus_ok(),
    {
        let ghost ev = event;
        proof {
            if old(self)@.focus_ok() {
                laws::law_focused_window_is_the_flagged_one(old(self)@, ev);
            }
        }
        let mut changes = Changes {
            workspaces: false,
            windows: false,
            created: Vec::new(),
            closed: None,
            focused_workspace: false,
            focused_window: false,
            overview: false,
        };
        match event {
            ipc::Event::WorkspacesChanged { workspaces } => {
                self.apply_workspaces_changed(workspaces);
                changes.workspaces = true;
            },
            ipc::Event::WorkspaceUrgencyChanged { id, urgent } => {
                self.set_workspace_urgent(id, urgent);
            },
            ipc::Event::WorkspaceActivated { id, focused } => {
                changes.focused_workspace = self.apply_workspace_activated(id, focused);
            },
            ipc::Event::WorkspaceActiveWindowChanged { workspace_id, active_window_id } => {
                self.set_workspace_active_window(workspace_id, active_window_id);
            },
            ipc::Event::WindowsChanged { windows } => {
                let mut any_focused = false;
                let mut i: usize = 0;
                while i < windows.len()
                    invariant
                        i <= windows@.len(),
                        any_focused == exists|j: int| 0 <= j < i && windows@[j].is_focused,
                    decreases windows@.len() - i,
                {
                    if windows[i].is_focused {
                        any_focused = true;
                    }
                    i = i + 1;
                }
                changes.created = self.apply_windows_changed(windows);
                changes.windows = true;
                changes.focused_window = any_focused;
            },
            ipc::Event::WindowOpenedOrChanged { window } => {
                let id = window.id;
                let focused = window.is_focused;
                if self.handle_window_opened_or_changed(window) {
                    changes.windows = true;
                    changes.created.push(id);
                }
                changes.focused_window = focused;
            },
            ipc::Event::WindowClosed { id } => {
                changes.closed = self.apply_window_closed(id);
                changes.windows = true;
            },
            ipc::Event::WindowFocusChanged { id } => {
                self.apply_window_focus_changed(id);
                changes.focused_window = true;
            },
            ipc::Event::WindowFocusTimestampChanged { id, focus_timestamp } => {
                self.set_window_focus_timestamp(id, focus_timestamp);
            },
            ipc::Event::WindowUrgencyChanged { id, urgent } => {
                self.set_window_urgent(id, urgent);
            },
            ipc::Event::WindowLayoutsChanged { changes: layout_changes } => {
                self.apply_layouts_changed(layout_changes);
            },
            ipc::Event::OverviewOpenedOrClosed { is_open } => {
                self.overview_is_open = is_open;
                changes.overview = true;
            },
            ipc::Event::Other => {},
        }
        proof {
            assert(changes.created@ =~= old(self)@.spec_apply(event).1.created);
        }
        changes
    }

    /// Records window `window` as opened or changed, binds it to its
    /// workspace if that is known, follows its focus, and returns whether
    /// the window is new.
    fn handle_window_opened_or_changed(&mut self, window: ipc::Window) -> (is_new: bool)
        requires
            old(self)@.wf(),
        ensures
            (final(self)@, is_new) == old(self)@.spec_handle_window(window),
            final(self)@.wf(),
    {
        let id = window.id;
        let ghost pre = self@;
        let (mut rec, known) = match self.windows.remove(&id) {
            Some(mut w) => {
                w.update(window);
                (w, true)
            },
            None => (NiriWindow::new(window), false),
        };
        match self.workspaces.get(&rec.workspace_id) {
            Some(ws) => rec.bind_workspace(ws),
            None => {},
        }
        let focused = rec.is_focused;
        self.windows.insert(id, rec);
        if !known {
            self.window_created = Some(id);
        }
        proof {
            assert(self.windows@ =~= pre.windows.insert(
                id,
                pre.bind_if_known(
                    if known {
                        pre.windows[id].spec_updated(window)
                    } else {
                        NiriWindow::spec_new(window)
                    },
                ),
            ));
        }
        if focused {
            self.apply_window_focus_changed(Some(id));
        }
        !known
    }

    /// Records every window of `windows`, in order, and returns the ids of those that were new.
    fn apply_windows_changed(&mut self, windows: Vec<ipc::Window>) -> (created: Vec<u64>)
        requires
            old(self)@.wf(),
        ensures
            (final(self)@, created@) == old(self)@.spec_handle_windows(windows@),
            final(self)@.wf(),
    {
        let ghost list = windows@;
        let ghost pre = self@;
        let mut created: Vec<u64> = Vec::new();
        for win in it: windows
            invariant
                it.seq() == list,
                self@.wf(),
                (self@, created@) == pre.spec_handle_windows(list.take(it.index() as int)),
        {
            let ghost i = it.index() as int;
            proof {
                assert(list.take(i + 1).drop_last() =~= list.take(i));
                assert(list.take(i + 1).last() == list[i]);
            }
            let wid = win.id;
            if self.handle_window_opened_or_changed(win) {
                created.push(wid);
            }
        }
        proof {
            assert(list.take(list.len() as int) =~= list);
        }
        created
    }


    /// Applies each layout change, in order, to the windows that are known.
    fn apply_layouts_changed(&mut self, changes: Vec<(u64, ipc::WindowLayout)>)
        requires
            old(self)@.wf(),
        ensures
            final(self)@ == old(self)@.spec_layouts_changed(changes@),
            final(self)@.wf(),
    {
        let ghost list = changes@;
        let ghost pre = self@;
        for change in it: changes
            invariant
                it.seq() == list,
                self@.wf(),
                self@ == pre.spec_layouts_changed(list.take(it.index() as int)),
        {
            let ghost i = it.index() as int;
            proof {
                assert(list.take(i + 1).drop_last() =~= list.take(i));
                assert(list.take(i + 1).last() == list[i]);
            }
            let (id, layout) = change;
            let ghost mid = self@;
            match self.windows.remove(&id) {
                Some(mut w) => {
                    w.set_layout_(layout);
                    self.windows.insert(id, w);
                    proof {
                        assert(self.windows@ =~= mid.windows.insert(
                            id,
                            NiriWindow { layout, ..mid.windows[id] },
                        ));
                    }
                },
                None => {
                    assert(self.windows@ =~= mid.windows);
                },
            }
        }
        proof {
            assert(list.take(list.len() as int) =~= list);
        }
    }

    /// Forgets window `id`, and returns its record marked closed.
    fn apply_window_closed(&mut self, id: u64) -> (closed: Option<NiriWindow>)
        requires
            old(self)@.wf(),
        ensures
            final(self)@ == (NiriModel { windows: old(self)@.windows.remove(id), ..old(self)@ }),
            closed == (if old(self)@.windows.contains_key(id) {
                Some(NiriWindow { closed: true, ..old(self)@.windows[id] })
            } else {
                None
            }),
            final(self)@.wf(),
    {
        match self.windows.remove(&id) {
            Some(mut w) => {
                w.closed = true;
                Some(w)
            },
            None => None,
        }
    }

    /// Sets the urgency of workspace `id`, if it is known.
    fn set_workspace_urgent(&mut self, id: u64, urgent: bool)
        requires
            old(self)@.wf(),
        ensures
            final(self)@ == (if old(self)@.workspaces.contains_key(id) {
                NiriModel {
                    workspaces: old(self)@.workspaces.insert(
                        id,
                        NiriWorkspace { is_urgent: urgent, ..old(self)@.workspaces[id] },
                    ),
                    ..old(self)@
                }
            } else {
                old(self)@
            }),
            final(self)@.wf(),
    {
        match self.workspaces.remove(&id) {
            Some(mut ws) => {
                ws.is_urgent = urgent;
                self.workspaces.insert(id, ws);
                proof {
                    assert(self.workspaces@ =~= old(self)@.workspaces.insert(
                        id,
                        NiriWorkspace { is_urgent: urgent, ..old(self)@.workspaces[id] },
                    ));
                }
            },
            None => {
                assert(self.workspaces@ =~= old(self)@.workspaces);
            },
        }
    }

    /// Sets the active window of workspace `id`, if it is known; absent reads as zero.
    fn set_workspace_active_window(&mut self, id: u64, active_window_id: Option<u64>)
        requires
            old(self)@.wf(),
        ensures
            final(self)@ == (if old(self)@.workspaces.contains_key(id) {
                NiriModel {
                    workspaces: old(self)@.workspaces.insert(
                        id,
                        NiriWorkspace {
                            active_window_id: u64_or_zero(active_window_id),
                            ..old(self)@.workspaces[id]
                        },
                    ),
                    ..old(self)@
                }
            } else {
                old(self)@
            }),
            final(self)@.wf(),
    {
        match self.workspaces.remove(&id) {
            Some(mut ws) => {
                ws.active_window_id = match active_window_id {
                    Some(w) => w,
                    None => 0,
                };
                self.workspaces.insert(id, ws);
                proof {
                    assert(self.workspaces@ =~= old(self)@.workspaces.insert(
                        id,
                        NiriWorkspace {
                            active_window_id: u64_or_zero(active_window_id),
                            ..old(self)@.workspaces[id]
                        },
                    ));
                }
            },
            None => {
                assert(self.workspaces@ =~= old(self)@.workspaces);
            },
        }
    }

    /// Sets the focus timestamp of window `id`, if it is known; absent reads as zero.
    fn set_window_focus_timestamp(&mut self, id: u64, focus_timestamp: Option<ipc::Timestamp>)
        requires
            old(self)@.wf(),
        ensures
            final(self)@ == (if old(self)@.windows.contains_key(id) {
                NiriModel {
                    windows: old(self)@.windows.insert(
                        id,
                        NiriWindow { focus_timestamp: timestamp_or_zero(focus_timestamp), ..old(self)@.windows[id] },
                    ),
                    ..old(self)@
                }
            } else {
                old(self)@
            }),
            final(self)@.wf(),
    {
        match self.windows.remove(&id) {
            Some(mut w) => {
                w.set_focus_timestamp_(focus_timestamp);
                self.windows.insert(id, w);
                proof {
                    assert(self.windows@ =~= old(self)@.windows.insert(
                        id,
                        NiriWindow { focus_timestamp: timestamp_or_zero(focus_timestamp), ..old(self)@.windows[id] },
                    ));
                }
            },
            None => {
                assert(self.windows@ =~= old(self)@.windows);
            },
        }
    }

    /// Sets the urgency of window `id`, if it is known.
    fn set_window_urgent(&mut self, id: u64, urgent: bool)
        requires
            old(self)@.wf(),
        ensures
            final(self)@ == (if old(self)@.windows.contains_key(id) {
                NiriModel {
                    windows: old(self)@.windows.insert(id, NiriWindow { is_urgent: urgent, ..old(self)@.windows[id] }),
                    ..old(self)@
                }
            } else {
                old(self)@
            }),
            final(self)@.wf(),
    {
        match self.windows.remove(&id) {
            Some(mut w) => {
                w.is_urgent = urgent;
                self.windows.insert(id, w);
                proof {
                    assert(self.windows@ =~= old(self)@.windows.insert(
                        id,
                        NiriWindow { is_urgent: urgent, ..old(self)@.windows[id] },
                    ));
                }
            },
            None => {
                assert(self.windows@ =~= old(self)@.windows);
            },
        }
    }


    /// Workspace `id` became active on its output (and focused if `focused`);
    /// returns whether it became the focused workspace.
    fn apply_workspace_activated(&mut self, id: u64, focused: bool) -> (newly_focused: bool)
        requires
            old(self)@.wf(),
        ensures
            (final(self)@, newly_focused) == old(self)@.spec_workspace_activated(id, focused),
            final(self)@.wf(),
    {
        let ghost pre = self@;
        let (target_output, target_focused) = match self.workspaces.get(&id) {
            Some(ws) => (crate::text::copy_opt_string(&ws.output), ws.is_focused),
            None => {
                return false;
            },
        };
        let keys = keys_of(&self.workspaces);
        let mut i: usize = 0;
        while i < keys.len()
            invariant
                pre.wf(),
                pre.workspaces.contains_key(id),
                target_output == pre.workspaces[id].output,
                keys@.to_set() == pre.workspaces.dom(),
                keys@.no_duplicates(),
                i <= keys@.len(),
                self.workspaces@.dom() == pre.workspaces.dom(),
                forall|j: int| 0 <= j < i ==> self.workspaces@[#[trigger] keys@[j]] == activated(
                    pre.workspaces[keys@[j]],
                    keys@[j],
                    id,
                    opt_view(target_output),
                    focused,
                ),
                forall|j: int| i <= j < keys@.len() ==> self.workspaces@[#[trigger] keys@[j]] == pre.workspaces[keys@[j]],
                self.windows@ == pre.windows,
                self.overview_is_open == pre.overview_is_open,
                self.focused_workspace == pre.focused_workspace,
                self.focused_window == pre.focused_window,
                self.window_created == pre.window_created,
            decreases keys@.len() - i,
        {
            let k = keys[i];
            proof {
                assert(keys@.to_set().contains(k));
            }
            match self.workspaces.remove(&k) {
                Some(mut ws) => {
                    if opt_string_eq(&ws.output, &target_output) {
                        ws.is_active = k == id;
                    }
                    if focused {
                        ws.is_focused = k == id;
                    }
                    self.workspaces.insert(k, ws);
                },
                None => {},
            }
            proof {
                assert(self.workspaces@.dom() =~= pre.workspaces.dom());
                assert forall|j: int| 0 <= j < keys@.len() && j != i implies keys@[j] != k by {}
            }
            i = i + 1;
        }
        let newly_focused = focused && !target_focused;
        if newly_focused {
            self.focused_workspace = Some(id);
        }
        proof {
            let spec_ws = Map::new(
                |k: u64| pre.workspaces.contains_key(k),
                |k: u64| activated(pre.workspaces[k], k, id, opt_view(pre.workspaces[id].output), focused),
            );
            assert forall|k: u64| self.workspaces@.contains_key(k) implies self.workspaces@[k] == spec_ws[k] by {
                assert(keys@.to_set().contains(k));
                let j = choose|j: int| 0 <= j < keys@.len() && keys@[j] == k;
            }
            assert(self.workspaces@ =~= spec_ws);
        }
        newly_focused
    }


    /// Replaces the workspaces by the full list `workspaces`, and lets
    /// windows follow their workspaces.
    fn apply_workspaces_changed(&mut self, workspaces: Vec<ipc::Workspace>)
        requires
            old(self)@.wf(),
        ensures
            final(self)@ == old(self)@.spec_workspaces_changed(workspaces@),
            final(self)@.wf(),
    {
        let ghost pre = self@;
        let ghost list = workspaces@;
        // ids of the listed workspaces.
        let mut ids: Vec<u64> = Vec::new();
        let mut i: usize = 0;
        while i < workspaces.len()
            invariant
                list == workspaces@,
                i <= list.len(),
                ids@.len() == i,
                forall|j: int| 0 <= j < i ==> #[trigger] ids@[j] == list[j].id,
            decreases list.len() - i,
        {
            ids.push(workspaces[i].id);
            i = i + 1;
        }
        assert forall|k: u64| ids@.contains(k) <==> lists_workspace(list, k) by {
            if ids@.contains(k) {
                let j = choose|j: int| 0 <= j < ids@.len() && ids@[j] == k;
                assert(list[j].id == k);
            }
            if lists_workspace(list, k) {
                let j = choose|j: int| 0 <= j < list.len() && list[j].id == k;
                assert(ids@[j] == k);
            }
        }
        // drops the workspaces that are not listed.
        let keys = keys_of(&self.workspaces);
        let mut i: usize = 0;
        while i < keys.len()
            invariant
                keys@.to_set() == pre.workspaces.dom(),
                keys@.no_duplicates(),
                i <= keys@.len(),
                forall|k: u64| ids@.contains(k) <==> lists_workspace(list, k),
                forall|k: u64| #[trigger] self.workspaces@.contains_key(k) ==> pre.workspaces.contains_key(k)
                    && self.workspaces@[k] == pre.workspaces[k],
                forall|j: int| 0 <= j < i ==> (self.workspaces@.contains_key(#[trigger] keys@[j])
                    <==> lists_workspace(list, keys@[j])),
                forall|j: int| i <= j < keys@.len() ==> self.workspaces@.contains_key(#[trigger] keys@[j]),
                self.windows@ == pre.windows,
                self.overview_is_open == pre.overview_is_open,
                self.focused_workspace == pre.focused_workspace,
                self.focused_window == pre.focused_window,
                self.window_created == pre.window_created,
            decreases keys@.len() - i,
        {
            let k = keys[i];
            if !contains_u64(&ids, k) {
                self.workspaces.remove(&k);
            }
            proof {
                assert forall|j: int| 0 <= j < keys@.len() && j != i implies keys@[j] != k by {}
            }
            i = i + 1;
        }
        proof {
            assert forall|k: u64| self.workspaces@.contains_key(k) <==> (pre.workspaces.contains_key(k)
                && lists_workspace(list, k)) by {
                if pre.workspaces.contains_key(k) {
                    assert(keys@.to_set().contains(k));
                    let j = choose|j: int| 0 <= j < keys@.len() && keys@[j] == k;
                }
            }
        }
        // creates or updates the listed workspaces, in order.
        for ws in it: workspaces
            invariant
                it.seq() == list,
                pre.wf(),
                forall|k: u64| #[trigger] self.workspaces@.contains_key(k) <==> ((pre.workspaces.contains_key(k)
                    && lists_workspace(list, k)) || lists_workspace(list.take(it.index() as int), k)),
                forall|k: u64| #[trigger] self.workspaces@.contains_key(k) ==> self.workspaces@[k] == (
                    if lists_workspace(list.take(it.index() as int), k) {
                        if pre.workspaces.contains_key(k) {
                            pre.workspaces[k].spec_updated(
                                list.take(it.index() as int)[last_workspace_index(list.take(it.index() as int), k)],
                            )
                        } else {
                            NiriWorkspace::spec_new(
                                list.take(it.index() as int)[last_workspace_index(list.take(it.index() as int), k)],
                            )
                        }
                    } else {
                        pre.workspaces[k]
                    }),
                self.windows@ == pre.windows,
                self.overview_is_open == pre.overview_is_open,
                self.focused_workspace == pre.focused_workspace,
                self.focused_window == pre.focused_window,
                self.window_created == pre.window_created,
        {
            let ghost n = it.index() as int;
            let ghost p = list.take(n);
            let ghost p1 = list.take(n + 1);
            let ghost x = ws;
            proof {
                assert(p1.drop_last() =~= p);
                assert(p1.last() == list[n]);
                assert(ws == list[n]);
                assert forall|k: u64| #[trigger] lists_workspace(p1, k) <==> (lists_workspace(p, k) || k == x.id) by {
                    if lists_workspace(p1, k) {
                        let j = choose|j: int| 0 <= j < p1.len() && p1[j].id == k;
                        if j < n {
                            assert(p[j].id == k);
                        }
                    }
                    if lists_workspace(p, k) {
                        let j = choose|j: int| 0 <= j < p.len() && p[j].id == k;
                        assert(p1[j].id == k);
                    }
                    if k == x.id {
                        assert(p1[n].id == k);
                    }
                }
                assert forall|k: u64| k != x.id implies #[trigger] last_workspace_index(p1, k)
                    == last_workspace_index(p, k) by {}
                assert forall|k: u64| k != x.id && lists_workspace(p, k) implies #[trigger] p1[last_workspace_index(p1, k)]
                    == p[last_workspace_index(p, k)] by {
                    lemma_last_workspace_index(p, k);
                }
                assert(last_workspace_index(p1, x.id) == n);
                assert(lists_workspace(list, x.id)) by {
                    assert(list[n].id == x.id);
                }
            }
            let wid = ws.id;
            match self.workspaces.remove(&wid) {
                Some(mut w) => {
                    w.update(ws);
                    self.workspaces.insert(wid, w);
                },
                None => {
                    self.workspaces.insert(wid, NiriWorkspace::new(ws));
                },
            }
            proof {
                assert forall|k: u64| #[trigger] self.workspaces@.contains_key(k) <==> ((pre.workspaces.contains_key(k)
                    && lists_workspace(list, k)) || lists_workspace(p1, k)) by {}
            }
        }
        proof {
            assert(list.take(list.len() as int) =~= list);
            let ws_spec = pre.spec_workspaces_after(list);
            assert forall|k: u64| self.workspaces@.contains_key(k) <==> ws_spec.contains_key(k) by {}
            assert(self.workspaces@ =~= ws_spec);
        }
        // lets windows follow the workspaces they are bound to.
        let ghost ws_final = self.workspaces@;
        let wkeys = keys_of(&self.windows);
        let mut i: usize = 0;
        while i < wkeys.len()
            invariant
                pre.wf(),
                self.workspaces@ == ws_final,
                ws_final == pre.spec_workspaces_after(list),
                wkeys@.to_set() == pre.windows.dom(),
                wkeys@.no_duplicates(),
                i <= wkeys@.len(),
                self.windows@.dom() == pre.windows.dom(),
                forall|j: int| 0 <= j < i ==> self.windows@[#[trigger] wkeys@[j]] == rebound(
                    pre.windows[wkeys@[j]],
                    ws_final,
                ),
                forall|j: int| i <= j < wkeys@.len() ==> self.windows@[#[trigger] wkeys@[j]] == pre.windows[wkeys@[j]],
                self.overview_is_open == pre.overview_is_open,
                self.focused_workspace == pre.focused_workspace,
                self.focused_window == pre.focused_window,
                self.window_created == pre.window_created,
            decreases wkeys@.len() - i,
        {
            let k = wkeys[i];
            proof {
                assert(wkeys@.to_set().contains(k));
            }
            match self.windows.remove(&k) {
                Some(mut w) => {
                    match w.bound_workspace {
                        Some(b) => match self.workspaces.get(&b) {
                            Some(ws) => w.bind_workspace(ws),
                            None => {
                                w.bound_workspace = None;
                            },
                        },
                        None => {},
                    }
                    self.windows.insert(k, w);
                },
                None => {},
            }
            proof {
                assert(self.windows@.dom() =~= pre.windows.dom());
                assert forall|j: int| 0 <= j < wkeys@.len() && j != i implies wkeys@[j] != k by {}
            }
            i = i + 1;
        }
        proof {
            let spec_windows = Map::new(
                |k: u64| pre.windows.contains_key(k),
                |k: u64| rebound(pre.windows[k], ws_final),
            );
            assert forall|k: u64| self.windows@.contains_key(k) implies self.windows@[k] == spec_windows[k] by {
                assert(wkeys@.to_set().contains(k));
                let j = choose|j: int| 0 <= j < wkeys@.len() && wkeys@[j] == k;
            }
            assert(self.windows@ =~= spec_windows);
            assert forall|k: u64| #[trigger] ws_final.contains_key(k) implies ws_final[k].id == k by {
                lemma_last_workspace_index(list, k);
            }
        }
    }

    /// Moves the keyboard focus to window `id`.
    fn apply_window_focus_changed(&mut self, id: Option<u64>)
        requires
            old(self)@.wf(),
        ensures
            final(self)@ == old(self)@.spec_focus_changed(id),
            final(self)@.wf(),
    {
        let id = match id {
            Some(id) => id,
            None => 0,
        };
        match self.focused_window {
            Some(f) => self.set_window_focus(f, false),
            None => {},
        }
        if self.windows.contains_key(&id) {
            self.set_window_focus(id, true);
            self.focused_window = Some(id);
        } else {
            self.focused_window = None;
        }
    }
}


/// The dock's mirror of the compositor's windows and workspaces.
///
/// It changes only by [Niri::apply], and it is always well formed
/// ([NiriModel::wf]) with a consistent focus ([NiriModel::focus_ok]).
pub struct Niri {
    state: Mirror,
}

impl View for Niri {
    type V = NiriModel;

    closed spec fn view(&self) -> NiriModel {
        self.state@
    }
}

impl Niri {
    #[verifier::type_invariant]
    spec fn inv(self) -> bool {
        self.state@.wf() && self.state@.focus_ok()
    }

    /// An empty mirror, before any event.
    pub fn new() -> (r: Niri)
        ensures
            r@ == NiriModel::empty(),
            r@.wf(),
            r@.focus_ok(),
    {
        Niri { state: Mirror::new() }
    }

    /// Windows by id.
    pub fn get_windows(&self) -> (r: &HashMap<u64, NiriWindow>)
        ensures
            r@ == self@.windows,
            self@.wf(),
            self@.focus_ok(),
    {
        proof {
            use_type_invariant(self);
        }
        &self.state.windows
    }

    /// Workspaces by id.
    pub fn get_workspaces(&self) -> (r: &HashMap<u64, NiriWorkspace>)
        ensures
            r@ == self@.workspaces,
            self@.wf(),
            self@.focus_ok(),
    {
        proof {
            use_type_invariant(self);
        }
        &self.state.workspaces
    }

    pub fn overview_is_open(&self) -> (r: bool)
        ensures
            r == self@.overview_is_open,
    {
        self.state.overview_is_open
    }

    pub fn focused_workspace(&self) -> (r: Option<u64>)
        ensures
            r == self@.focused_workspace,
    {
        self.state.focused_workspace
    }

    pub fn focused_window(&self) -> (r: Option<u64>)
        ensures
            r == self@.focused_window,
    {
        self.state.focused_window
    }

    pub fn window_created(&self) -> (r: Option<u64>)
        ensures
            r == self@.window_created,
    {
        self.state.window_created
    }

    /// Folds one compositor event into the mirror and reports what changed.
    pub fn apply(&mut self, event: ipc::Event) -> (changes: Changes)
        ensures
            (final(self)@, changes@) == old(self)@.spec_apply(event),
            final(self)@.wf(),
            final(self)@.focus_ok(),
    {
        proof {
            use_type_invariant(&*self);
        }
        let mut state = Mirror::new();
        std::mem::swap(&mut state, &mut self.state);
        let changes = state.apply(event);
        self.state = state;
        changes
    }
}

} // verus!
