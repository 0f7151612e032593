//! The user configuration: its defaults, how a reload is merged into the
//! live settings, and the application id substitution.

use vstd::prelude::*;

use crate::text::{lemma_seq_lt_transitive, lemma_seq_lt_trichotomy, seq_lt, str_eq, str_lt};

verus! {

broadcast use vstd::seq_lib::group_to_multiset_ensures;

/// In which layer the dock window is displayed.
#[derive(Clone, Copy, Debug, PartialEq, Eq, Structural)]
pub enum DockLayer {
    Bottom,
    Top,
    Overlay,
}

impl DockLayer {
    /// The layer used when the configuration names none.
    pub fn default_layer() -> (r: DockLayer)
        ensures
            r == DockLayer::Top,
    {
        DockLayer::Top
    }
}

/// Which windows (and so which application icons) the dock shows.
#[derive(Clone, Copy, Debug, PartialEq, Eq, Structural)]
pub enum WindowsFilter {
    /// Windows of every output.
    All,
    /// Windows on the dock's own output.
    SameOutput,
    /// Windows on the active workspace of the dock's output.
    SameWorkspace,
}

impl WindowsFilter {
    /// The filter used when the configuration names none.
    pub fn default_filter() -> (r: WindowsFilter)
        ensures
            r == WindowsFilter::SameOutput,
    {
        WindowsFilter::SameOutput
    }
}

/// The contents of the user's configuration file.
#[derive(Debug)]
pub struct Config {
    pub auto_hide: bool,
    pub auto_hide_delay: u64,
    pub show_in_overview: bool,
    pub dock_layer: DockLayer,
    pub filter_windows: WindowsFilter,
    pub launcher_command: Vec<String>,
    pub pinned_apps: Vec<String>,
    /// `app_id` substitution entries; a later entry for the same key wins.
    pub app_id_substitution: Vec<(String, String)>,
}

/// The characters of each string.
pub open spec fn strings_view(v: Seq<String>) -> Seq<Seq<char>> {
    Seq::new(v.len(), |i: int| v[i]@)
}

/// The substitution dictionary that a list of entries describes: entries
/// are taken in order, so the last entry for a key wins.
pub open spec fn subst_map(s: Seq<(String, String)>) -> Map<Seq<char>, Seq<char>>
    decreases s.len(),
{
    if s.len() == 0 {
        Map::empty()
    } else {
        subst_map(s.drop_last()).insert(s.last().0@, s.last().1@)
    }
}

/// `id` after substitution through `sub`: its replacement if it has one, else `id` itself.
pub open spec fn substituted(sub: Map<Seq<char>, Seq<char>>, id: Seq<char>) -> Seq<char> {
    if sub.contains_key(id) {
        sub[id]
    } else {
        id
    }
}

/// Whether `s` is in non-decreasing lexicographic order.
pub open spec fn sorted_strings(s: Seq<Seq<char>>) -> bool {
    forall|i: int, j: int| 0 <= i < j < s.len() ==> !seq_lt(#[trigger] s[j], #[trigger] s[i])
}

/// The launcher command used when the configuration names none.
pub open spec fn spec_default_launcher_command() -> Seq<Seq<char>> {
    seq![
        "qs"@,
        "-c"@,
        "noctalia-shell"@,
        "ipc"@,
        "call"@,
        "launcher"@,
        "toggle"@,
    ]
}

impl Config {
    /// Whether the dock hides by default: yes.
    pub fn default_auto_hide() -> (r: bool)
        ensures
            r,
    {
        true
    }

    /// The default delay before hiding, in milliseconds.
    pub fn default_auto_hide_delay() -> (r: u64)
        ensures
            r == 800,
    {
        800
    }

    /// Whether the dock shows in the overview by default: yes.
    pub fn default_show_in_overview() -> (r: bool)
        ensures
            r,
    {
        true
    }

    /// The default launcher command.
    pub fn default_launcher_command() -> (r: Vec<String>)
        ensures
            strings_view(r@) == spec_default_launcher_command(),
    {
        let r = vec![
            String::from_str("qs"),
            String::from_str("-c"),
            String::from_str("noctalia-shell"),
            String::from_str("ipc"),
            String::from_str("call"),
            String::from_str("launcher"),
            String::from_str("toggle"),
        ];
        assert(strings_view(r@) =~= spec_default_launcher_command());
        r
    }

    /// The configuration of an empty file: every setting at its default.
    pub fn with_defaults() -> (r: Config)
        ensures
            r.auto_hide,
            r.auto_hide_delay == 800,
            r.show_in_overview,
            r.dock_layer == DockLayer::Top,
            r.filter_windows == WindowsFilter::SameOutput,
            strings_view(r.launcher_command@) == spec_default_launcher_command(),
            r.pinned_apps@.len() == 0,
            r.app_id_substitution@.len() == 0,
    {
        Config {
            auto_hide: Config::default_auto_hide(),
            auto_hide_delay: Config::default_auto_hide_delay(),
            show_in_overview: Config::default_show_in_overview(),
            dock_layer: DockLayer::default_layer(),
            filter_windows: WindowsFilter::default_filter(),
            launcher_command: Config::default_launcher_command(),
            pinned_apps: Vec::new(),
            app_id_substitution: Vec::new(),
        }
    }
}


/// Entries after position `i` do not matter for key `k` if none of them has key `k`.
pub proof fn lemma_subst_map_suffix(s: Seq<(String, String)>, i: int, k: Seq<char>)
    requires
        0 <= i <= s.len(),
        forall|j: int| i <= j < s.len() ==> (#[trigger] s[j]).0@ != k,
    ensures
        subst_map(s).contains_key(k) == subst_map(s.take(i)).contains_key(k),
        subst_map(s).contains_key(k) ==> subst_map(s)[k] == subst_map(s.take(i))[k],
    decreases s.len() - i,
{
    if i < s.len() {
        assert(s.drop_last().take(i) =~= s.take(i));
        assert forall|j: int| i <= j < s.drop_last().len() implies (#[trigger] s.drop_last()[j]).0@ != k by {
            assert(s.drop_last()[j] == s[j]);
        }
        lemma_subst_map_suffix(s.drop_last(), i, k);
        assert(s.last() == s[s.len() - 1]);
    } else {
        assert(s.take(i) =~= s);
    }
}

/// The position of the entry that decides key `k`: the last entry with that key.
pub fn find_subst(v: &Vec<(String, String)>, k: &str) -> (r: Option<usize>)
    ensures
        r is None <==> !subst_map(v@).contains_key(k@),
        r matches Some(i) ==> i < v@.len() && v@[i as int].0@ == k@ && v@[i as int].1@ == subst_map(v@)[k@],
{
    let mut i: usize = v.len();
    while i > 0
        invariant
            i <= v@.len(),
            forall|j: int| i <= j < v@.len() ==> (#[trigger] v@[j]).0@ != k@,
        decreases i,
    {
        if str_eq(v[i - 1].0.as_str(), k) {
            proof {
                lemma_subst_map_suffix(v@, i as int, k@);
                assert(v@.take(i as int).drop_last() =~= v@.take(i - 1));
                assert(v@.take(i as int).last() == v@[i - 1]);
            }
            return Some(i - 1);
        }
        i = i - 1;
    }
    proof {
        lemma_subst_map_suffix(v@, 0, k@);
        assert(v@.take(0) =~= Seq::<(String, String)>::empty());
    }
    None
}


/// The keys of the dictionary are exactly the keys of the entries.
pub proof fn lemma_subst_map_dom(s: Seq<(String, String)>)
    ensures
        forall|k: Seq<char>| #[trigger] subst_map(s).contains_key(k) <==> exists|i: int| 0 <= i < s.len() && s[i].0@ == k,
    decreases s.len(),
{
    if s.len() > 0 {
        lemma_subst_map_dom(s.drop_last());
        assert forall|k: Seq<char>| #[trigger] subst_map(s).contains_key(k) <==> exists|i: int|
            0 <= i < s.len() && s[i].0@ == k by {
            if subst_map(s).contains_key(k) {
                if k == s.last().0@ {
                    assert(s[s.len() - 1].0@ == k);
                } else {
                    assert(subst_map(s.drop_last()).contains_key(k));
                    let i = choose|i: int| 0 <= i < s.drop_last().len() && s.drop_last()[i].0@ == k;
                    assert(s[i].0@ == k);
                }
            }
            if exists|i: int| 0 <= i < s.len() && s[i].0@ == k {
                let i = choose|i: int| 0 <= i < s.len() && s[i].0@ == k;
                if i < s.len() - 1 {
                    assert(s.drop_last()[i].0@ == k);
                    assert(subst_map(s.drop_last()).contains_key(k));
                }
            }
        }
    }
}

/// Whether two entry lists describe the same dictionary.
pub fn subst_equal(a: &Vec<(String, String)>, b: &Vec<(String, String)>) -> (r: bool)
    ensures
        r == (subst_map(a@) == subst_map(b@)),
{
    proof {
        lemma_subst_map_dom(a@);
        lemma_subst_map_dom(b@);
    }
    let mut i: usize = 0;
    while i < a.len()
        invariant
            i <= a@.len(),
            forall|j: int| 0 <= j < i ==> subst_map(b@).contains_key(#[trigger] a@[j].0@)
                && subst_map(b@)[a@[j].0@] == subst_map(a@)[a@[j].0@],
            forall|k: Seq<char>| #[trigger] subst_map(a@).contains_key(k) <==> exists|i: int| 0 <= i < a@.len() && a@[i].0@ == k,
        decreases a@.len() - i,
    {
        let k = a[i].0.as_str();
        let ia = find_subst(a, k);
        let ib = find_subst(b, k);
        proof {
            assert(subst_map(a@).contains_key(a@[i as int].0@));
        }
        match (ia, ib) {
            (Some(x), Some(y)) => {
                if a[x].1 != b[y].1 {
                    return false;
                }
            },
            _ => {
                return false;
            },
        }
        i = i + 1;
    }
    let mut i: usize = 0;
    while i < b.len()
        invariant
            i <= b@.len(),
            forall|j: int| 0 <= j < a@.len() ==> subst_map(b@).contains_key(#[trigger] a@[j].0@)
                && subst_map(b@)[a@[j].0@] == subst_map(a@)[a@[j].0@],
            forall|j: int| 0 <= j < i ==> subst_map(a@).contains_key(#[trigger] b@[j].0@),
            forall|k: Seq<char>| #[trigger] subst_map(b@).contains_key(k) <==> exists|i: int| 0 <= i < b@.len() && b@[i].0@ == k,
        decreases b@.len() - i,
    {
        let k = b[i].0.as_str();
        let ia = find_subst(a, k);
        proof {
            assert(subst_map(b@).contains_key(b@[i as int].0@));
        }
        if ia.is_none() {
            return false;
        }
        i = i + 1;
    }
    proof {
        assert forall|k: Seq<char>| subst_map(a@).contains_key(k) implies subst_map(b@).contains_key(k)
            && subst_map(b@)[k] == subst_map(a@)[k] by {
            let j = choose|j: int| 0 <= j < a@.len() && a@[j].0@ == k;
        }
        assert forall|k: Seq<char>| subst_map(b@).contains_key(k) implies subst_map(a@).contains_key(k) by {
            let j = choose|j: int| 0 <= j < b@.len() && b@[j].0@ == k;
        }
        assert(subst_map(a@) =~= subst_map(b@));
    }
    true
}

/// Whether two lists hold the same strings, in the same order.
pub fn strings_equal(a: &Vec<String>, b: &Vec<String>) -> (r: bool)
    ensures
        r == (strings_view(a@) == strings_view(b@)),
{
    if a.len() != b.len() {
        proof {
            assert(strings_view(a@).len() != strings_view(b@).len());
        }
        return false;
    }
    let mut i: usize = 0;
    while i < a.len()
        invariant
            a@.len() == b@.len(),
            i <= a@.len(),
            forall|j: int| 0 <= j < i ==> a@[j]@ == b@[j]@,
        decreases a@.len() - i,
    {
        if a[i] != b[i] {
            proof {
                assert(strings_view(a@)[i as int] != strings_view(b@)[i as int]);
            }
            return false;
        }
        i = i + 1;
    }
    proof {
        assert(strings_view(a@) =~= strings_view(b@));
    }
    true
}


/// The abstract state of [NeoDockConfig].
pub ghost struct ConfigModel {
    pub auto_hide: bool,
    pub auto_hide_delay: u64,
    pub show_in_overview: bool,
    pub dock_layer: DockLayer,
    pub filter_windows: WindowsFilter,
    pub launcher_command: Seq<Seq<char>>,
    pub pinned_apps: Seq<Seq<char>>,
    pub app_id_substitution: Map<Seq<char>, Seq<char>>,
}

/// Which settings a reload changed.
#[derive(Clone, Copy, Debug, PartialEq, Eq, Structural)]
pub struct ConfigChanges {
    pub auto_hide: bool,
    pub auto_hide_delay: bool,
    pub show_in_overview: bool,
    pub dock_layer: bool,
    pub filter_windows: bool,
    pub launcher_command: bool,
    pub pinned_apps: bool,
    pub app_id_substitution: bool,
}


/// `post` and `changes` are what reloading `config` over `pre` gives:
/// every setting of `config` is taken, the pinned applications sorted, and
/// a setting is reported changed exactly when it differs from before.
pub open spec fn spec_reloaded(pre: ConfigModel, config: Config, post: ConfigModel, changes: ConfigChanges) -> bool {
    &&& post.auto_hide == config.auto_hide
    &&& post.auto_hide_delay == config.auto_hide_delay
    &&& post.show_in_overview == config.show_in_overview
    &&& post.dock_layer == config.dock_layer
    &&& post.filter_windows == config.filter_windows
    &&& post.launcher_command == strings_view(config.launcher_command@)
    &&& sorted_strings(post.pinned_apps)
    &&& post.pinned_apps.to_multiset() == strings_view(config.pinned_apps@).to_multiset()
    &&& post.app_id_substitution == subst_map(config.app_id_substitution@)
    &&& changes.auto_hide == (pre.auto_hide != config.auto_hide)
    &&& changes.auto_hide_delay == (pre.auto_hide_delay != config.auto_hide_delay)
    &&& changes.show_in_overview == (pre.show_in_overview != config.show_in_overview)
    &&& changes.dock_layer == (pre.dock_layer != config.dock_layer)
    &&& changes.filter_windows == (pre.filter_windows != config.filter_windows)
    &&& changes.launcher_command == (pre.launcher_command != post.launcher_command)
    &&& changes.pinned_apps == (pre.pinned_apps != post.pinned_apps)
    &&& changes.app_id_substitution == (pre.app_id_substitution != post.app_id_substitution)
}

/// Two sorted orderings of the same strings are the same sequence.
pub proof fn lemma_sorted_unique(s: Seq<Seq<char>>, t: Seq<Seq<char>>)
    requires
        sorted_strings(s),
        sorted_strings(t),
        s.to_multiset() == t.to_multiset(),
    ensures
        s == t,
    decreases s.len(),
{
    broadcast use vstd::seq_lib::group_to_multiset_ensures;

    assert(s.len() == t.len()) by {
        assert(s.len() == s.to_multiset().len());
        assert(t.len() == t.to_multiset().len());
    }
    if s.len() > 0 {
        assert(s.to_multiset().count(s[0]) > 0) by {
            assert(s.contains(s[0]));
        }
        assert(t.contains(s[0]));
        let j = choose|j: int| 0 <= j < t.len() && t[j] == s[0];
        assert(t.to_multiset().count(t[0]) > 0) by {
            assert(t.contains(t[0]));
        }
        assert(s.contains(t[0]));
        let i = choose|i: int| 0 <= i < s.len() && s[i] == t[0];
        lemma_seq_lt_trichotomy(s[0], t[0]);
        if j > 0 {
            assert(!seq_lt(t[j], t[0]));
        }
        if i > 0 {
            assert(!seq_lt(s[i], s[0]));
        }
        assert(s[0] == t[0]);
        assert(s.remove(0) =~= s.drop_first());
        assert(t.remove(0) =~= t.drop_first());
        assert(s.drop_first().to_multiset() == t.drop_first().to_multiset());
        lemma_sorted_unique(s.drop_first(), t.drop_first());
        assert(s =~= seq![s[0]] + s.drop_first());
        assert(t =~= seq![t[0]] + t.drop_first());
    } else {
        assert(s =~= t);
    }
}

/// Reloading a configuration that holds the same settings as the last one
/// reported changes nothing and leaves the settings as they were.
pub proof fn law_reload_unchanged_reports_nothing(
    a: ConfigModel,
    first: Config,
    b: ConfigModel,
    changes1: ConfigChanges,
    second: Config,
    c: ConfigModel,
    changes2: ConfigChanges,
)
    requires
        spec_reloaded(a, first, b, changes1),
        spec_reloaded(b, second, c, changes2),
        second.auto_hide == first.auto_hide,
        second.auto_hide_delay == first.auto_hide_delay,
        second.show_in_overview == first.show_in_overview,
        second.dock_layer == first.dock_layer,
        second.filter_windows == first.filter_windows,
        strings_view(second.launcher_command@) == strings_view(first.launcher_command@),
        strings_view(second.pinned_apps@).to_multiset() == strings_view(first.pinned_apps@).to_multiset(),
        subst_map(second.app_id_substitution@) == subst_map(first.app_id_substitution@),
    ensures
        c == b,
        changes2 == (ConfigChanges {
            auto_hide: false,
            auto_hide_delay: false,
            show_in_overview: false,
            dock_layer: false,
            filter_windows: false,
            launcher_command: false,
            pinned_apps: false,
            app_id_substitution: false,
        }),
{
    lemma_sorted_unique(b.pinned_apps, c.pinned_apps);
}

/// The live settings of the dock.
#[derive(Debug)]
pub struct NeoDockConfig {
    /// Whether the dock hides automatically after a delay; the exclusive
    /// zone is kept only when it does not.
    auto_hide: bool,
    /// Delay before hiding, in milliseconds.
    auto_hide_delay: u64,
    /// Whether the dock always shows in the overview, even when it hides.
    show_in_overview: bool,
    /// In which layer the dock window shows.
    dock_layer: DockLayer,
    /// Which windows the dock shows.
    filter_windows: WindowsFilter,
    /// Command run when the launcher button is clicked.
    launcher_command: Vec<String>,
    /// Pinned applications, in lexicographic order.
    pinned_apps: Vec<String>,
    /// `app_id` substitution entries.
    app_id_substitution: Vec<(String, String)>,
}

impl View for NeoDockConfig {
    type V = ConfigModel;

    closed spec fn view(&self) -> ConfigModel {
        ConfigModel {
            auto_hide: self.auto_hide,
            auto_hide_delay: self.auto_hide_delay,
            show_in_overview: self.show_in_overview,
            dock_layer: self.dock_layer,
            filter_windows: self.filter_windows,
            launcher_command: strings_view(self.launcher_command@),
            pinned_apps: strings_view(self.pinned_apps@),
            app_id_substitution: subst_map(self.app_id_substitution@),
        }
    }
}

impl NeoDockConfig {
    /// Settings before the configuration file is read: every flag off,
    /// no delay, the default layer and filter, and empty lists.
    pub fn new() -> (r: NeoDockConfig)
        ensures
            r@ == (ConfigModel {
                auto_hide: false,
                auto_hide_delay: 0,
                show_in_overview: false,
                dock_layer: DockLayer::Top,
                filter_windows: WindowsFilter::SameOutput,
                launcher_command: Seq::empty(),
                pinned_apps: Seq::empty(),
                app_id_substitution: Map::empty(),
            }),
    {
        let r = NeoDockConfig {
            auto_hide: false,
            auto_hide_delay: 0,
            show_in_overview: false,
            dock_layer: DockLayer::default_layer(),
            filter_windows: WindowsFilter::default_filter(),
            launcher_command: Vec::new(),
            pinned_apps: Vec::new(),
            app_id_substitution: Vec::new(),
        };
        proof {
            assert(strings_view(r.launcher_command@) =~= Seq::<Seq<char>>::empty());
            assert(strings_view(r.pinned_apps@) =~= Seq::<Seq<char>>::empty());
        }
        r
    }

    /// Takes every setting of `config`, with the pinned applications
    /// sorted, and reports which settings differ from before.
    pub fn reload(&mut self, config: Config) -> (changes: ConfigChanges)
        ensures
            spec_reloaded(old(self)@, config, final(self)@, changes),
    {
        let changes = ConfigChanges {
            auto_hide: self.auto_hide != config.auto_hide,
            auto_hide_delay: self.auto_hide_delay != config.auto_hide_delay,
            show_in_overview: self.show_in_overview != config.show_in_overview,
            dock_layer: self.dock_layer != config.dock_layer,
            filter_windows: self.filter_windows != config.filter_windows,
            launcher_command: !strings_equal(&self.launcher_command, &config.launcher_command),
            pinned_apps: false,
            app_id_substitution: !subst_equal(&self.app_id_substitution, &config.app_id_substitution),
        };
        let pinned = sort_strings(config.pinned_apps);
        let changes = ConfigChanges { pinned_apps: !strings_equal(&self.pinned_apps, &pinned), ..changes };
        self.auto_hide = config.auto_hide;
        self.auto_hide_delay = config.auto_hide_delay;
        self.show_in_overview = config.show_in_overview;
        self.dock_layer = config.dock_layer;
        self.filter_windows = config.filter_windows;
        self.launcher_command = config.launcher_command;
        self.pinned_apps = pinned;
        self.app_id_substitution = config.app_id_substitution;
        changes
    }

    pub fn auto_hide(&self) -> (r: bool)
        ensures
            r == self@.auto_hide,
    {
        self.auto_hide
    }

    pub fn auto_hide_delay(&self) -> (r: u64)
        ensures
            r == self@.auto_hide_delay,
    {
        self.auto_hide_delay
    }

    pub fn show_in_overview(&self) -> (r: bool)
        ensures
            r == self@.show_in_overview,
    {
        self.show_in_overview
    }

    pub fn get_dock_layer(&self) -> (r: DockLayer)
        ensures
            r == self@.dock_layer,
    {
        self.dock_layer
    }

    pub fn get_filter_windows(&self) -> (r: WindowsFilter)
        ensures
            r == self@.filter_windows,
    {
        self.filter_windows
    }

    pub fn launcher_command(&self) -> (r: &Vec<String>)
        ensures
            strings_view(r@) == self@.launcher_command,
    {
        &self.launcher_command
    }

    pub fn pinned_apps(&self) -> (r: &Vec<String>)
        ensures
            strings_view(r@) == self@.pinned_apps,
    {
        &self.pinned_apps
    }

    /// The `app_id` substitution entries.
    pub fn get_app_id_substitution(&self) -> (r: &Vec<(String, String)>)
        ensures
            subst_map(r@) == self@.app_id_substitution,
    {
        &self.app_id_substitution
    }

    /// `app_id` after substitution: the configured replacement, or `app_id` itself.
    pub fn get_substituted(&self, app_id: String) -> (r: String)
        ensures
            r@ == substituted(self@.app_id_substitution, app_id@),
    {
        match find_subst(&self.app_id_substitution, app_id.as_str()) {
            Some(i) => self.app_id_substitution[i].1.clone(),
            None => app_id,
        }
    }
}

/// `v` sorted in lexicographic order: a sorted permutation of its strings.
pub fn sort_strings(v: Vec<String>) -> (r: Vec<String>)
    ensures
        sorted_strings(strings_view(r@)),
        strings_view(r@).to_multiset() == strings_view(v@).to_multiset(),
{
    let ghost src = v@;
    let mut out: Vec<String> = Vec::new();
    proof {
        assert(strings_view(out@) =~= Seq::<Seq<char>>::empty());
        assert(strings_view(src.take(0)) =~= Seq::<Seq<char>>::empty());
    }
    for x in it: v
        invariant
            it.seq() == src,
            sorted_strings(strings_view(out@)),
            strings_view(out@).to_multiset() == strings_view(src.take(it.index() as int)).to_multiset(),
    {
        let ghost n = it.index() as int;
        let ghost before = out@;
        let mut pos: usize = 0;
        while pos < out.len() && !str_lt(x.as_str(), out[pos].as_str())
            invariant
                out@ == before,
                pos <= out@.len(),
                forall|i: int| 0 <= i < pos ==> !seq_lt(x@, #[trigger] out@[i]@),
            decreases out@.len() - pos,
        {
            pos = pos + 1;
        }
        let ghost xv = x@;
        proof {
            assert(src[n] == x);
        }
        out.insert(pos, x);
        proof {
            let sv = strings_view(before);
            assert(strings_view(out@) =~= sv.insert(pos as int, xv));
            assert(strings_view(src.take(n + 1)) =~= strings_view(src.take(n)).push(xv));
            vstd::seq_lib::to_multiset_insert(sv, pos as int, xv);
            let nv = strings_view(out@);
            assert forall|i: int, j: int| 0 <= i < j < nv.len() implies !seq_lt(#[trigger] nv[j], #[trigger] nv[i]) by {
                if i < pos && j == pos {
                } else if i == pos && j > pos {
                    // x < before[pos] <= before[j - 1]
                    lemma_seq_lt_trichotomy(sv[pos as int], sv[j - 1]);
                    lemma_seq_lt_trichotomy(xv, sv[j - 1]);
                    if seq_lt(sv[pos as int], sv[j - 1]) {
                        lemma_seq_lt_transitive(xv, sv[pos as int], sv[j - 1]);
                    }
                } else if i < pos && j > pos {
                    assert(nv[i] == sv[i]);
                    assert(nv[j] == sv[j - 1]);
                } else if j < pos {
                    assert(nv[i] == sv[i]);
                    assert(nv[j] == sv[j]);
                } else {
                    assert(nv[i] == sv[i - 1]);
                    assert(nv[j] == sv[j - 1]);
                }
            }
        }
    }
    proof {
        assert(src.take(src.len() as int) =~= src);
    }
    out
}

} // verus!
