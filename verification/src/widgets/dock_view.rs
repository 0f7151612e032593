//! Decisions of the dock view: which applications it shows, when it
//! reveals itself, and which workspace it follows.

use vstd::prelude::*;

use crate::config::{ConfigModel, NeoDockConfig, WindowsFilter};
use crate::maps::keys_of;
use crate::models::app::{App, AppModel};
use crate::models::apps::{display_order, Apps};
use crate::services::niri::window::NiriWindow;
use crate::services::niri::Niri;
use crate::text::or_empty;

verus! {

broadcast use vstd::std_specs::hash::group_hash_axioms;

impl WindowsFilter {
    /// Whether the filter depends on the active workspace, so that the
    /// applications must be filtered again when it changes.
    pub fn depends_on_workspace(&self) -> (r: bool)
        ensures
            r == (*self == WindowsFilter::SameWorkspace),
    {
        match self {
            WindowsFilter::SameWorkspace => true,
            _ => false,
        }
    }
}

/// Whether the dock on output `output`, whose active workspace has index
/// `workspace_idx`, shows the entry `a` when niri's windows are `m`: pinned
/// entries always; others as the windows filter says (for the active
/// workspace, one window must be both on the output and on that workspace).
pub open spec fn spec_app_visible(
    a: AppModel,
    m: Map<u64, NiriWindow>,
    filter: WindowsFilter,
    output: Seq<char>,
    workspace_idx: u8,
) -> bool {
    a.is_pinned || match filter {
        WindowsFilter::All => true,
        WindowsFilter::SameOutput => exists|i: int| 0 <= i < a.windows.len() && m.contains_key(#[trigger] a.windows[i])
            && or_empty(m[a.windows[i]].output) == output,
        WindowsFilter::SameWorkspace => exists|i: int| 0 <= i < a.windows.len() && m.contains_key(
            #[trigger] a.windows[i],
        ) && or_empty(m[a.windows[i]].output) == output && m[a.windows[i]].workspace_idx == workspace_idx,
    }
}

/// Whether the dock on output `output`, whose active workspace has index
/// `workspace_idx`, shows application `app` ([spec_app_visible]).
pub fn app_visible(app: &App, niri: &Niri, filter: WindowsFilter, output: &str, workspace_idx: u8) -> (r: bool)
    ensures
        r == spec_app_visible(app@, niri@.windows, filter, output@, workspace_idx),
{
    if app.is_pinned() {
        return true;
    }
    match filter {
        WindowsFilter::All => true,
        WindowsFilter::SameOutput => app.in_output(output, niri),
        WindowsFilter::SameWorkspace => app.in_output_workspace(output, workspace_idx, niri),
    }
}

/// The positions of `order` whose entries of `s` the dock shows, in the order of `order`.
pub open spec fn visible_in(
    order: Seq<usize>,
    s: Seq<AppModel>,
    m: Map<u64, NiriWindow>,
    filter: WindowsFilter,
    output: Seq<char>,
    workspace_idx: u8,
) -> Seq<usize>
    decreases order.len(),
{
    if order.len() == 0 {
        Seq::empty()
    } else {
        let t = visible_in(order.drop_last(), s, m, filter, output, workspace_idx);
        if spec_app_visible(s[order.last() as int], m, filter, output, workspace_idx) {
            t.push(order.last())
        } else {
            t
        }
    }
}

/// The positions of the entries that the dock on output `output` (active
/// workspace index `workspace_idx`) shows, in display order: the display
/// order of `apps` with the hidden entries left out.
pub fn visible_apps(apps: &Apps, niri: &Niri, filter: WindowsFilter, output: &str, workspace_idx: u8) -> (r: Vec<usize>)
    ensures
        r@ == visible_in(display_order(apps@), apps@, niri@.windows, filter, output@, workspace_idx),
{
    let order = apps.sorted_apps();
    let mut r: Vec<usize> = Vec::new();
    let mut i: usize = 0;
    while i < order.len()
        invariant
            order@ == display_order(apps@),
            forall|q: int| 0 <= q < order@.len() ==> #[trigger] order@[q] < apps@.len(),
            i <= order@.len(),
            r@ == visible_in(order@.take(i as int), apps@, niri@.windows, filter, output@, workspace_idx),
        decreases order@.len() - i,
    {
        proof {
            assert(order@.take(i + 1).drop_last() =~= order@.take(i as int));
            assert(order@.take(i + 1).last() == order@[i as int]);
        }
        let k = order[i];
        if app_visible(apps.get(k), niri, filter, output, workspace_idx) {
            r.push(k);
        }
        i = i + 1;
    }
    proof {
        assert(order@.take(order@.len() as int) =~= order@);
    }
    r
}

/// Whether the dock should be revealed: always without settings or when it
/// does not hide; in the overview as configured; otherwise while hovered or
/// while something is dragged over it.
pub open spec fn spec_should_reveal(config: Option<ConfigModel>, overview_is_open: bool, hovered: bool, drop_active: bool) -> bool {
    match config {
        None => true,
        Some(c) => if !c.auto_hide {
            true
        } else if overview_is_open {
            c.show_in_overview
        } else {
            hovered || drop_active
        },
    }
}

/// The dock always shows when it does not hide (or has no settings yet),
/// whatever the overview, hover and drop states; when it hides, it shows in
/// the overview exactly as configured, and elsewhere exactly while hovered
/// or while something is dragged over it.
pub proof fn law_reveal_follows_auto_hide(c: ConfigModel, overview_is_open: bool, hovered: bool, drop_active: bool)
    ensures
        spec_should_reveal(None, overview_is_open, hovered, drop_active),
        !c.auto_hide ==> spec_should_reveal(Some(c), overview_is_open, hovered, drop_active),
        c.auto_hide && overview_is_open ==> spec_should_reveal(Some(c), overview_is_open, hovered, drop_active)
            == c.show_in_overview,
        c.auto_hide && !overview_is_open ==> spec_should_reveal(Some(c), overview_is_open, hovered, drop_active) == (
        hovered || drop_active),
{
}

/// Decides whether the dock view should be revealed.
pub fn should_reveal_view(config: Option<&NeoDockConfig>, overview_is_open: bool, hovered: bool, drop_active: bool) -> (r: bool)
    ensures
        r == spec_should_reveal(
            match config {
                Some(c) => Some(c@),
                None => None,
            },
            overview_is_open,
            hovered,
            drop_active,
        ),
        config matches Some(c) && !c@.auto_hide ==> r,
        config is None ==> r,
{
    let config = match config {
        Some(c) => c,
        None => {
            return true;
        },
    };
    if !config.auto_hide() {
        return true;
    }
    if overview_is_open {
        return config.show_in_overview();
    }
    if hovered || drop_active {
        true
    } else {
        overview_is_open
    }
}

/// What the view does after its state changed.
#[derive(Clone, Copy, Debug, PartialEq, Eq, Structural)]
pub struct RevealStep {
    /// Cancel the pending hide timer.
    pub cancel_timer: bool,
    /// Reveal the view now.
    pub show: bool,
    /// Start the hide timer; when it fires, the view hides.
    pub start_timer: bool,
}

/// Reveals the view when it should be revealed (cancelling a pending hide);
/// otherwise, when it is revealed and no hide is pending, starts the hide timer.
pub fn reveal_or_hide_view(is_revealed: bool, should_reveal: bool, has_timer: bool) -> (r: RevealStep)
    ensures
        r.cancel_timer == (should_reveal && has_timer),
        r.show == (should_reveal && !is_revealed),
        r.start_timer == (!should_reveal && is_revealed && !has_timer),
{
    if should_reveal {
        RevealStep { cancel_timer: has_timer, show: !is_revealed, start_timer: false }
    } else {
        RevealStep { cancel_timer: false, show: false, start_timer: is_revealed && !has_timer }
    }
}

/// The index of an active workspace on output `output`, if there is one.
pub fn active_workspace_idx(niri: &Niri, output: &str) -> (r: Option<u8>)
    ensures
        r is None <==> !exists|k: u64| #[trigger] niri@.workspaces.contains_key(k) && niri@.workspaces[k].is_active
            && or_empty(niri@.workspaces[k].output) == output@,
        r matches Some(idx) ==> exists|k: u64| #[trigger] niri@.workspaces.contains_key(k) && niri@.workspaces[k].is_active
            && or_empty(niri@.workspaces[k].output) == output@ && niri@.workspaces[k].idx == idx,
{
    let map = niri.get_workspaces();
    let keys = keys_of(map);
    let mut i: usize = 0;
    while i < keys.len()
        invariant
            map@ == niri@.workspaces,
            keys@.to_set() == map@.dom(),
            i <= keys@.len(),
            forall|j: int| 0 <= j < i ==> !(map@[#[trigger] keys@[j]].is_active && or_empty(map@[keys@[j]].output) == output@),
        decreases keys@.len() - i,
    {
        let k = keys[i];
        proof {
            assert(keys@.to_set().contains(k));
        }
        let ws = map.get(&k).unwrap();
        let name = crate::text::string_or_empty(&ws.output);
        if ws.is_active && crate::text::str_eq(name.as_str(), output) {
            return Some(ws.idx);
        }
        i = i + 1;
    }
    proof {
        assert forall|k: u64| #[trigger] niri@.workspaces.contains_key(k) implies !(niri@.workspaces[k].is_active
            && or_empty(niri@.workspaces[k].output) == output@) by {
            assert(keys@.to_set().contains(k));
            let j = choose|j: int| 0 <= j < keys@.len() && keys@[j] == k;
        }
    }
    None
}

/// The index of the focused workspace, if it is known and on output `output`.
pub fn focused_workspace_idx(niri: &Niri, output: &str) -> (r: Option<u8>)
    ensures
        r == (match niri@.focused_workspace {
            Some(k) => if niri@.workspaces.contains_key(k) && or_empty(niri@.workspaces[k].output) == output@ {
                Some(niri@.workspaces[k].idx)
            } else {
                None
            },
            None => None,
        }),
{
    match niri.focused_workspace() {
        Some(k) => match niri.get_workspaces().get(&k) {
            Some(ws) => {
                let name = crate::text::string_or_empty(&ws.output);
                if crate::text::str_eq(name.as_str(), output) {
                    Some(ws.idx)
                } else {
                    None
                }
            },
            None => None,
        },
        None => None,
    }
}

/// The program and arguments of the launcher command, or `None` when the
/// command is empty.
pub fn launcher_argv(command: &Vec<String>) -> (r: Option<(String, Vec<String>)>)
    ensures
        command@.len() == 0 <==> r is None,
        r matches Some((program, args)) ==> program@ == command@[0]@ && args@.len() == command@.len() - 1
            && forall|i: int| 0 <= i < args@.len() ==> #[trigger] args@[i]@ == command@[i + 1]@,
{
    if command.len() == 0 {
        return None;
    }
    let program = command[0].clone();
    let mut args: Vec<String> = Vec::new();
    let mut i: usize = 1;
    while i < command.len()
        invariant
            1 <= i <= command@.len(),
            args@.len() == i - 1,
            forall|j: int| 0 <= j < args@.len() ==> #[trigger] args@[j]@ == command@[j + 1]@,
        decreases command@.len() - i,
    {
        args.push(command[i].clone());
        i = i + 1;
    }
    Some((program, args))
}

} // verus!
