//! Decisions of an application icon: its tooltip, its window indicators,
//! what a click or a scroll focuses, and its menu.

use vstd::prelude::*;

use crate::services::niri::ipc::{Action, Timestamp};
use crate::services::niri::window::NiriWindow;
use crate::services::niri::Niri;
use crate::text::{push_char, push_decimal, push_str, spec_decimal};

verus! {

/// The display width that `unicode_width` gives to `c` (`None` for control characters).
pub uninterp spec fn char_width(c: char) -> Option<usize>;

/// The display width of `c` in columns, or `None` for a control character.
///
/// Calls `unicode_width::UnicodeWidthChar::width`. Its result is named
/// [char_width]; beside the name, the contract states what the crate's
/// source shows for the first code points: control characters below U+0020
/// and from U+007F to U+009F have no width, printable ASCII is one column
/// wide, and every width fits in a byte. The widths of other characters come
/// from the crate's Unicode tables and are left unsaid.
#[verifier::external_body]
fn unicode_char_width(c: char) -> (w: Option<usize>)
    ensures
        w == char_width(c),
        ((c as int) < 0x20 || (0x7f <= (c as int) && (c as int) < 0xa0)) <==> w is None,
        (0x20 <= (c as int) && (c as int) < 0x7f) ==> w == Some(1usize),
        w matches Some(x) ==> x <= 255,
{
    unicode_width::UnicodeWidthChar::width(c)
}

/// Width of a character as the menu counts it: control characters count zero.
pub open spec fn width_or_zero(c: char) -> int {
    match char_width(c) {
        Some(w) => w as int,
        None => 0,
    }
}

/// Display width of a string: the sum of its characters' widths.
pub open spec fn label_width(s: Seq<char>) -> int
    decreases s.len(),
{
    if s.len() == 0 {
        0
    } else {
        label_width(s.drop_last()) + width_or_zero(s.last())
    }
}

/// Whether `t` is `label` fitted to the menu: `label` itself if it is at
/// most [MAX_LABEL_WIDTH] columns wide; otherwise `label` cut before the
/// first character that would exceed the width, followed by `...`.
pub open spec fn is_truncation(label: Seq<char>, t: Seq<char>) -> bool {
    &&& label_width(label) <= MAX_LABEL_WIDTH ==> t == label
    &&& label_width(label) > MAX_LABEL_WIDTH ==> exists|k: int| 0 <= k < label.len()
        && label_width(label.take(k)) <= MAX_LABEL_WIDTH
        && label_width(label.take(k + 1)) > MAX_LABEL_WIDTH
        && t == label.take(k) + "..."@
}

/// Whether every character of `s` is printable ASCII (U+0020 to U+007E),
/// one column wide each.
pub open spec fn printable_ascii(s: Seq<char>) -> bool {
    forall|i: int| 0 <= i < s.len() ==> 0x20 <= (#[trigger] s[i] as int) && (s[i] as int) < 0x7f
}

/// Widest menu label, in columns.
pub const MAX_LABEL_WIDTH: usize = 32;

/// `label` unchanged if it is at most [MAX_LABEL_WIDTH] columns wide;
/// otherwise cut before the first character that would exceed the width,
/// and ended with `...`.
pub fn truncate_menu_label(label: String) -> (r: String)
    ensures
        is_truncation(label@, r@),
        printable_ascii(label@) ==> r@ == (if label@.len() <= MAX_LABEL_WIDTH {
            label@
        } else {
            label@.take(MAX_LABEL_WIDTH as int) + "..."@
        }),
{
    let chars = crate::text::chars_of(label.as_str());
    let mut width: usize = 0;
    let mut i: usize = 0;
    proof {
        assert(chars@.take(0) =~= Seq::<char>::empty());
    }
    while i < chars.len()
        invariant
            chars@ == label@,
            i <= chars@.len(),
            width == label_width(chars@.take(i as int)),
            width <= MAX_LABEL_WIDTH,
            printable_ascii(label@) ==> width == i,
        decreases chars@.len() - i,
    {
        let w = match unicode_char_width(chars[i]) {
            Some(w) => w,
            None => 0,
        };
        proof {
            assert(chars@.take(i + 1).drop_last() =~= chars@.take(i as int));
            assert(chars@.take(i + 1).last() == chars@[i as int]);
        }
        width = width + w;
        if width > MAX_LABEL_WIDTH {
            let mut r = String::new();
            let mut j: usize = 0;
            while j < i
                invariant
                    j <= i,
                    i < chars@.len(),
                    r@ == chars@.take(j as int),
                decreases i - j,
            {
                push_char(&mut r, chars[j]);
                j = j + 1;
                proof {
                    assert(r@ =~= chars@.take(j as int));
                }
            }
            push_str(&mut r, "...");
            proof {
                lemma_label_width_monotone(label@, i + 1);
            }
            return r;
        }
        i = i + 1;
    }
    proof {
        assert(chars@.take(chars@.len() as int) =~= chars@);
    }
    label
}

/// Prefix widths grow with the prefix, so the full width is at least that of any prefix.
pub proof fn lemma_label_width_monotone(s: Seq<char>, k: int)
    requires
        0 <= k <= s.len(),
    ensures
        label_width(s.take(k)) <= label_width(s),
    decreases s.len() - k,
{
    if k < s.len() {
        lemma_label_width_monotone(s, k + 1);
        assert(s.take(k + 1).drop_last() =~= s.take(k));
        assert(width_or_zero(s.take(k + 1).last()) >= 0) by {
            match char_width(s.take(k + 1).last()) {
                Some(w) => {},
                None => {},
            }
        }
    } else {
        assert(s.take(k) =~= s);
    }
}


/// The records of windows `ids`, in order.
pub open spec fn window_records(ids: Seq<u64>, m: Map<u64, NiriWindow>) -> Seq<NiriWindow> {
    Seq::new(ids.len(), |i: int| m[ids[i]])
}

/// Whether position `i` holds the first focused window.
pub open spec fn first_focused_at(recs: Seq<NiriWindow>, i: int) -> bool {
    0 <= i < recs.len() && recs[i].is_focused && forall|j: int| 0 <= j < i ==> !recs[j].is_focused
}

/// Whether position `i` holds the first window with the latest focus timestamp.
pub open spec fn first_latest_at(recs: Seq<NiriWindow>, i: int) -> bool {
    &&& 0 <= i < recs.len()
    &&& forall|j: int| 0 <= j < recs.len() ==> !recs[i].focus_timestamp.spec_before(#[trigger] recs[j].focus_timestamp)
    &&& forall|j: int| 0 <= j < i ==> (#[trigger] recs[j]).focus_timestamp.spec_before(recs[i].focus_timestamp)
}

/// The window that was focused last: the focused one if there is one
/// (the first), else the first with the latest focus timestamp.
pub open spec fn spec_last_focused(recs: Seq<NiriWindow>) -> Option<int> {
    if recs.len() == 0 {
        None
    } else if exists|i: int| 0 <= i < recs.len() && recs[i].is_focused {
        Some(choose|i: int| first_focused_at(recs, i))
    } else {
        Some(choose|i: int| first_latest_at(recs, i))
    }
}

/// Returns the position of the window focused last among `windows`.
pub fn find_last_focused(windows: &Vec<u64>, niri: &Niri) -> (r: Option<usize>)
    requires
        forall|i: int| 0 <= i < windows@.len() ==> niri@.windows.contains_key(#[trigger] windows@[i]),
    ensures
        r is None ==> spec_last_focused(window_records(windows@, niri@.windows)) is None,
        r matches Some(i) ==> spec_last_focused(window_records(windows@, niri@.windows)) == Some(i as int),
        r is Some <==> windows@.len() > 0,
        r matches Some(i) ==> i < windows@.len(),
{
    let ghost recs = window_records(windows@, niri@.windows);
    if windows.len() == 0 {
        return None;
    }
    let map = niri.get_windows();
    let mut index: usize = 0;
    let mut focus_ts = Timestamp::zero();
    let mut i: usize = 0;
    while i < windows.len()
        invariant
            map@ == niri@.windows,
            recs == window_records(windows@, niri@.windows),
            forall|q: int| 0 <= q < windows@.len() ==> niri@.windows.contains_key(#[trigger] windows@[q]),
            windows@.len() > 0,
            i <= windows@.len(),
            index < windows@.len(),
            i > 0 ==> index < i,
            i > 0 ==> focus_ts == recs[index as int].focus_timestamp,
            i == 0 ==> index == 0 && focus_ts == Timestamp::spec_zero(),
            forall|j: int| 0 <= j < i ==> !recs[j].is_focused,
            forall|j: int| 0 <= j < i ==> !focus_ts.spec_before(#[trigger] recs[j].focus_timestamp),
            forall|j: int| 0 <= j < index ==> (#[trigger] recs[j]).focus_timestamp.spec_before(recs[index as int].focus_timestamp),
        decreases windows@.len() - i,
    {
        let w = map.get(&windows[i]).unwrap();
        if w.is_focused {
            proof {
                assert(first_focused_at(recs, i as int));
                let c = choose|c: int| first_focused_at(recs, c);
                assert(c == i);
            }
            return Some(i);
        }
        let ts = w.get_focus_timestamp();
        if focus_ts.before(&ts) {
            focus_ts = ts;
            index = i;
        }
        i = i + 1;
    }
    proof {
        assert(first_latest_at(recs, index as int));
        let c = choose|c: int| first_latest_at(recs, c);
        assert(c == index);
    }
    Some(index)
}

/// The indicator range `[left, right)` of at most five windows around the last focused one.
pub open spec fn spec_indicator_window(n: int, last_focused: int) -> (int, int) {
    if n <= 5 {
        (0, n)
    } else {
        let left = if last_focused - 2 < 0 {
            0
        } else if last_focused - 2 > n - 5 {
            n - 5
        } else {
            last_focused - 2
        };
        (left, left + 5)
    }
}

/// Chooses which of `n` windows get an indicator dot: the whole range if
/// there are at most five, else five consecutive windows that keep the last
/// focused one as central as the ends allow.
pub fn indicator_window(n: usize, last_focused: usize) -> (r: (usize, usize))
    requires
        last_focused < n,
    ensures
        r.0 as int == spec_indicator_window(n as int, last_focused as int).0,
        r.1 as int == spec_indicator_window(n as int, last_focused as int).1,
        r.0 <= last_focused < r.1 <= n,
        r.1 - r.0 == if n < 5 { n } else { 5 },
{
    let ghost lt: int = spec_indicator_window(n as int, last_focused as int).0;
    let ghost lf: int = last_focused as int;
    let mut left: usize = 0;
    let mut right: usize = n;
    while right - left > 5
        invariant
            left <= last_focused < right <= n,
            lf == last_focused,
            lt == spec_indicator_window(n as int, lf).0,
            n > 5 ==> left <= lt && lt + 5 <= right,
            n <= 5 ==> left == 0 && right == n,
        decreases right - left,
    {
        proof {
            if n > 5 {
                if lf - 2 < 0 {
                    assert(lt == 0);
                } else if lf - 2 > n - 5 {
                    assert(lt == n - 5);
                } else {
                    assert(lt == lf - 2);
                }
            }
        }
        if last_focused - left < right - last_focused {
            right = right - 1;
        } else {
            left = left + 1;
        }
    }
    (left, right)
}

/// What a click on an application icon does.
#[derive(Clone, Copy, Debug, PartialEq, Eq, Structural)]
pub enum ClickAction {
    /// Launch the application: it has no window.
    Launch,
    /// Focus the window with this id.
    Focus(u64),
}

/// The position a click focuses among `n` windows, given the last focused one.
pub open spec fn spec_click_target(recs: Seq<NiriWindow>, last: int) -> int {
    if !recs[last].is_focused {
        last
    } else {
        (last + 1) % (recs.len() as int)
    }
}

/// A click focuses the window focused last when it does not hold the focus
/// yet; when it does, the click moves the focus to the next window in
/// window order, from the last back to the first.
pub proof fn law_click_focuses_next_window(recs: Seq<NiriWindow>)
    requires
        0 <= spec_last_focused(recs)->0 < recs.len(),
    ensures
        ({
            let last = spec_last_focused(recs)->0;
            let n = recs.len() as int;
            &&& !recs[last].is_focused ==> spec_click_target(recs, last) == last
            &&& recs[last].is_focused ==> spec_click_target(recs, last) == if last + 1 < n {
                last + 1
            } else {
                0
            }
        }),
{
    let last = spec_last_focused(recs)->0;
    let n = recs.len() as int;
    if last + 1 < n {
        vstd::arithmetic::div_mod::lemma_small_mod((last + 1) as nat, n as nat);
    } else {
        vstd::arithmetic::div_mod::lemma_mod_self_0(n);
    }
}

/// Launches the application if it has no window; otherwise focuses the
/// window focused last, or, if that one holds the focus already, cycles to
/// the next window.
pub fn on_button_clicked(windows: &Vec<u64>, niri: &Niri) -> (r: ClickAction)
    requires
        forall|i: int| 0 <= i < windows@.len() ==> niri@.windows.contains_key(#[trigger] windows@[i]),
    ensures
        windows@.len() == 0 ==> r == ClickAction::Launch,
        windows@.len() > 0 ==> ({
            let recs = window_records(windows@, niri@.windows);
            let last = spec_last_focused(recs)->0;
            r == ClickAction::Focus(recs[spec_click_target(recs, last)].id)
        }),
        windows@.len() > 0 ==> ({
            let recs = window_records(windows@, niri@.windows);
            let n = recs.len() as int;
            let last = spec_last_focused(recs)->0;
            &&& 0 <= last < n
            &&& !recs[last].is_focused ==> r == ClickAction::Focus(recs[last].id)
            &&& recs[last].is_focused ==> r == ClickAction::Focus(
                recs[if last + 1 < n {
                    last + 1
                } else {
                    0
                }].id,
            )
        }),
{
    let ghost recs = window_records(windows@, niri@.windows);
    let n = windows.len();
    match find_last_focused(windows, niri) {
        None => ClickAction::Launch,
        Some(last) => {
            let map = niri.get_windows();
            let w = map.get(&windows[last]).unwrap();
            proof {
                assert(recs[last as int] == niri@.windows[windows@[last as int]]);
            }
            if !w.is_focused {
                ClickAction::Focus(w.id)
            } else {
                let next = (last + 1) % n;
                let v = map.get(&windows[next]).unwrap();
                proof {
                    assert(recs[next as int] == niri@.windows[windows@[next as int]]);
                    if last + 1 < n {
                        vstd::arithmetic::div_mod::lemma_small_mod((last + 1) as nat, n as nat);
                    } else {
                        vstd::arithmetic::div_mod::lemma_mod_self_0(n as int);
                    }
                }
                ClickAction::Focus(v.id)
            }
        },
    }
}

/// Focuses the next window on a scroll down or right (`x + y > 0`), the
/// previous one otherwise; does nothing for fewer than two windows.
pub fn on_button_scrolled(windows: &Vec<u64>, niri: &Niri, x: u8, y: u8) -> (r: Option<u64>)
    requires
        forall|i: int| 0 <= i < windows@.len() ==> niri@.windows.contains_key(#[trigger] windows@[i]),
        x + y <= 255,
    ensures
        windows@.len() <= 1 ==> r is None,
        windows@.len() > 1 ==> ({
            let recs = window_records(windows@, niri@.windows);
            let n = recs.len() as int;
            let last = spec_last_focused(recs)->0;
            let target = if x + y > 0 {
                (last + 1) % n
            } else {
                (last + n - 1) % n
            };
            r == Some(recs[target].id)
        }),
{
    let n = windows.len();
    if n <= 1 {
        return None;
    }
    match find_last_focused(windows, niri) {
        Some(last) => {
            let index = if x + y > 0 {
                (last + 1) % n
            } else if last == 0 {
                n - 1
            } else {
                last - 1
            };
            proof {
                if !(x + y > 0) {
                    if last == 0 {
                        vstd::arithmetic::div_mod::lemma_small_mod((n - 1) as nat, n as nat);
                    } else {
                        vstd::arithmetic::div_mod::lemma_mod_add_multiples_vanish(last - 1, n as int);
                        vstd::arithmetic::div_mod::lemma_small_mod((last - 1) as nat, n as nat);
                        assert(n + (last - 1) == last + n - 1);
                    }
                }
            }
            let map = niri.get_windows();
            let w = map.get(&windows[index]).unwrap();
            proof {
                let recs = window_records(windows@, niri@.windows);
                assert(recs[index as int] == niri@.windows[windows@[index as int]]);
            }
            Some(w.id)
        },
        None => None,
    }
}


/// The tooltip of an application icon: the application's name, then
/// "(pinned)" when it has no window, the window's title when it has one,
/// or the number of windows; followed by the application id on a line of
/// its own, when it has one.
pub open spec fn spec_tooltip(name: Seq<char>, app_id: Seq<char>, count: nat, title: Seq<char>) -> Seq<char> {
    let mark = if app_id.len() == 0 {
        Seq::empty()
    } else {
        "\n#"@ + app_id
    };
    if count == 0 {
        name + " (pinned)"@ + mark
    } else if count == 1 {
        name + " - "@ + title + mark
    } else {
        name + " ("@ + spec_decimal(count) + " windows)"@ + mark
    }
}

/// Builds the tooltip of an application icon with `count` windows, the
/// first of which (when there is one) has title `title`.
pub fn tooltip_text(name: &str, app_id: &str, count: usize, title: &Option<String>) -> (r: String)
    ensures
        r@ == spec_tooltip(name@, app_id@, count as nat, crate::text::or_empty(*title)),
{
    let mut r = String::from_str(name);
    if count == 0 {
        push_str(&mut r, " (pinned)");
    } else if count == 1 {
        push_str(&mut r, " - ");
        match title {
            Some(t) => push_str(&mut r, t.as_str()),
            None => {},
        }
    } else {
        push_str(&mut r, " (");
        push_decimal(&mut r, count as u64);
        push_str(&mut r, " windows)");
    }
    if !app_id.is_empty() {
        push_str(&mut r, "\n#");
        push_str(&mut r, app_id);
    }
    proof {
        let mark = if app_id@.len() == 0 {
            Seq::<char>::empty()
        } else {
            "\n#"@ + app_id@
        };
        if count == 0 {
            assert(r@ =~= name@ + " (pinned)"@ + mark);
        } else if count == 1 {
            assert(r@ =~= name@ + " - "@ + crate::text::or_empty(*title) + mark);
        } else {
            assert(r@ =~= name@ + " ("@ + spec_decimal(count as nat) + " windows)"@ + mark);
        }
    }
    r
}

/// The lowercase form of `s`, as std's `str::to_lowercase` gives it.
pub uninterp spec fn lowercased(s: Seq<char>) -> Seq<char>;

/// Calls std's `str::to_lowercase`. The Unicode case mapping is left to
/// std and named [lowercased]; it depends on `s` alone.
#[verifier::external_body]
fn to_lowercase(s: &str) -> (r: String)
    ensures
        r@ == lowercased(s@),
{
    s.to_lowercase()
}

/// `s` with every space replaced by a hyphen.
pub open spec fn spaces_to_hyphens(s: Seq<char>) -> Seq<char> {
    Seq::new(s.len(), |i: int| if s[i] == ' ' { '-' } else { s[i] })
}

/// The name of a window menu action: `win-`, the window id, `-`, and the
/// lowercase label with hyphens for spaces.
pub open spec fn spec_window_action_name(id: u64, label: Seq<char>) -> Seq<char> {
    "win-"@ + spec_decimal(id as nat) + "-"@ + spaces_to_hyphens(lowercased(label))
}

/// Builds the name of the menu action `label` for window `id`.
pub fn window_action_name(id: u64, label: &str) -> (r: String)
    ensures
        r@ == spec_window_action_name(id, label@),
{
    let lower = to_lowercase(label);
    let chars = crate::text::chars_of(lower.as_str());
    let mut r = String::from_str("win-");
    push_decimal(&mut r, id);
    push_str(&mut r, "-");
    let ghost prefix = r@;
    let mut i: usize = 0;
    while i < chars.len()
        invariant
            i <= chars@.len(),
            chars@ == lowercased(label@),
            r@ == prefix + spaces_to_hyphens(chars@).take(i as int),
        decreases chars@.len() - i,
    {
        if chars[i] == ' ' {
            push_char(&mut r, '-');
        } else {
            push_char(&mut r, chars[i]);
        }
        i = i + 1;
        proof {
            assert(r@ =~= prefix + spaces_to_hyphens(chars@).take(i as int));
        }
    }
    proof {
        assert(spaces_to_hyphens(chars@).take(chars@.len() as int) =~= spaces_to_hyphens(chars@));
    }
    r
}

/// One entry of a window's menu: what it shows, the action it names, and
/// the requests it sends to niri.
#[derive(Debug)]
pub struct MenuEntry {
    pub label: String,
    pub action: String,
    pub commands: Vec<Action>,
}

/// The labels of a window's menu, in order.
pub open spec fn window_menu_labels() -> Seq<Seq<char>> {
    seq!["Focus"@, "Center"@, "Fullscreen"@, "Maximize"@, "Toggle Floating"@, "Close"@]
}

/// The requests of each entry of the menu of window `w`, in order.
pub open spec fn window_menu_commands(w: NiriWindow) -> Seq<Seq<Action>> {
    seq![
        seq![Action::FocusWindow { id: w.id }],
        seq![Action::FocusWindow { id: w.id }, Action::CenterWindow { id: Some(w.id) }],
        seq![Action::FocusWindow { id: w.id }, Action::FullscreenWindow { id: Some(w.id) }],
        seq![Action::FocusWindow { id: w.id }, Action::MaximizeColumn],
        seq![Action::FocusWindow { id: w.id }, Action::ToggleWindowFloating { id: Some(w.id) }],
        seq![Action::CloseWindow { id: Some(w.id) }],
    ]
}

/// Whether the requests `commands` are what the menu label `label` names
/// for window `id`: focusing it, then (except for "Focus" and "Close")
/// centering it, toggling it fullscreen, maximizing its column or toggling
/// it floating; "Close" closes it without focusing it.
pub open spec fn menu_entry_does_what_it_says(label: Seq<char>, commands: Seq<Action>, id: u64) -> bool {
    &&& label == "Focus"@ ==> commands == seq![Action::FocusWindow { id }]
    &&& label == "Center"@ ==> commands == seq![Action::FocusWindow { id }, Action::CenterWindow { id: Some(id) }]
    &&& label == "Fullscreen"@ ==> commands == seq![
        Action::FocusWindow { id },
        Action::FullscreenWindow { id: Some(id) },
    ]
    &&& label == "Maximize"@ ==> commands == seq![Action::FocusWindow { id }, Action::MaximizeColumn]
    &&& label == "Toggle Floating"@ ==> commands == seq![
        Action::FocusWindow { id },
        Action::ToggleWindowFloating { id: Some(id) },
    ]
    &&& label == "Close"@ ==> commands == seq![Action::CloseWindow { id: Some(id) }]
}

/// Every entry of a window's menu sends the requests its label names, and
/// the menu has one entry for each of the six labels.
pub proof fn law_menu_entries_do_what_they_say(w: NiriWindow)
    ensures
        window_menu_labels().len() == 6,
        window_menu_commands(w).len() == 6,
        forall|k: int| 0 <= k < 6 ==> menu_entry_does_what_it_says(
            #[trigger] window_menu_labels()[k],
            window_menu_commands(w)[k],
            w.id,
        ),
        window_menu_labels().contains("Fullscreen"@),
        window_menu_labels().contains("Maximize"@),
{
    reveal_strlit("Focus");
    reveal_strlit("Center");
    reveal_strlit("Fullscreen");
    reveal_strlit("Maximize");
    reveal_strlit("Toggle Floating");
    reveal_strlit("Close");
    // the labels differ in length or in their first character.
    assert("Focus"@.len() == 5 && "Focus"@[0] == 'F');
    assert("Center"@.len() == 6 && "Center"@[0] == 'C');
    assert("Fullscreen"@.len() == 10 && "Fullscreen"@[0] == 'F');
    assert("Maximize"@.len() == 8 && "Maximize"@[0] == 'M');
    assert("Toggle Floating"@.len() == 15 && "Toggle Floating"@[0] == 'T');
    assert("Close"@.len() == 5 && "Close"@[0] == 'C');
    let labels = window_menu_labels();
    let commands = window_menu_commands(w);
    assert(menu_entry_does_what_it_says(labels[0], commands[0], w.id));
    assert(menu_entry_does_what_it_says(labels[1], commands[1], w.id));
    assert(menu_entry_does_what_it_says(labels[2], commands[2], w.id));
    assert(menu_entry_does_what_it_says(labels[3], commands[3], w.id));
    assert(menu_entry_does_what_it_says(labels[4], commands[4], w.id));
    assert(menu_entry_does_what_it_says(labels[5], commands[5], w.id));
    assert(labels[2] == "Fullscreen"@);
    assert(labels[3] == "Maximize"@);
}

fn menu_entry(window: &NiriWindow, label: &str, commands: Vec<Action>) -> (r: MenuEntry)
    ensures
        r.label@ == label@,
        r.action@ == spec_window_action_name(window.id, label@),
        r.commands@ == commands@,
{
    MenuEntry { label: String::from_str(label), action: window_action_name(window.id, label), commands }
}

/// The entries of the submenu of `window`: focus, center, fullscreen,
/// maximize, toggle floating and close.
pub fn window_menu_entries(window: &NiriWindow) -> (r: Vec<MenuEntry>)
    ensures
        r@.len() == 6,
        forall|k: int| 0 <= k < 6 ==> {
            &&& (#[trigger] r@[k]).label@ == window_menu_labels()[k]
            &&& r@[k].action@ == spec_window_action_name(window.id, window_menu_labels()[k])
            &&& r@[k].commands@ == window_menu_commands(*window)[k]
            &&& menu_entry_does_what_it_says(r@[k].label@, r@[k].commands@, window.id)
        },
{
    proof {
        law_menu_entries_do_what_they_say(*window);
    }
    let r = vec![
        menu_entry(window, "Focus", window.cmd_focus()),
        menu_entry(window, "Center", window.cmd_center()),
        menu_entry(window, "Fullscreen", window.cmd_toggle_fullscreen()),
        menu_entry(window, "Maximize", window.cmd_toggle_maximize()),
        menu_entry(window, "Toggle Floating", window.cmd_toggle_floating()),
        menu_entry(window, "Close", window.cmd_close()),
    ];
    r
}


/// How one window indicator dot is drawn.
#[derive(Clone, Copy, Debug, PartialEq, Eq, Structural)]
pub struct IndicatorDot {
    /// The dot stands for the window focused last.
    pub selected: bool,
    /// The dot stands for a window that holds the focus.
    pub focused: bool,
}

/// The indicator dots of an icon whose windows are `windows`, in order:
/// none without windows; else one per window of [indicator_window]'s range
/// around the window focused last.
pub fn indicator_states(windows: &Vec<u64>, niri: &Niri) -> (r: Vec<IndicatorDot>)
    requires
        forall|i: int| 0 <= i < windows@.len() ==> niri@.windows.contains_key(#[trigger] windows@[i]),
    ensures
        windows@.len() == 0 ==> r@.len() == 0,
        windows@.len() > 0 ==> ({
            let recs = window_records(windows@, niri@.windows);
            let last = spec_last_focused(recs)->0;
            let (left, right) = spec_indicator_window(recs.len() as int, last);
            &&& r@.len() == right - left
            &&& forall|i: int| 0 <= i < r@.len() ==> (#[trigger] r@[i]).selected == (left + i == last)
                && r@[i].focused == recs[left + i].is_focused
        }),
{
    let mut r: Vec<IndicatorDot> = Vec::new();
    let last = match find_last_focused(windows, niri) {
        Some(last) => last,
        None => {
            return r;
        },
    };
    let ghost recs = window_records(windows@, niri@.windows);
    let (left, right) = indicator_window(windows.len(), last);
    let map = niri.get_windows();
    let mut i: usize = left;
    while i < right
        invariant
            map@ == niri@.windows,
            recs == window_records(windows@, niri@.windows),
            forall|q: int| 0 <= q < windows@.len() ==> niri@.windows.contains_key(#[trigger] windows@[q]),
            left <= i <= right <= windows@.len(),
            r@.len() == i - left,
            forall|q: int| 0 <= q < r@.len() ==> (#[trigger] r@[q]).selected == (left + q == last)
                && r@[q].focused == recs[left + q].is_focused,
        decreases right - i,
    {
        let w = map.get(&windows[i]).unwrap();
        proof {
            assert(recs[i as int] == niri@.windows[windows@[i as int]]);
        }
        r.push(IndicatorDot { selected: i == last, focused: w.is_focused });
        i = i + 1;
    }
    r
}

/// The title of the windows section of an icon's menu: none without
/// windows, the (truncated) title of a single window, or the number of windows.
pub fn windows_section_title(windows: &Vec<u64>, niri: &Niri) -> (r: Option<String>)
    requires
        forall|i: int| 0 <= i < windows@.len() ==> niri@.windows.contains_key(#[trigger] windows@[i]),
    ensures
        windows@.len() == 0 ==> r is None,
        windows@.len() == 1 ==> (r matches Some(t) && is_truncation(
            crate::text::or_empty(niri@.windows[windows@[0]].title),
            t@,
        )),
        windows@.len() > 1 ==> (r matches Some(t) && t@ == spec_decimal(windows@.len() as nat) + " windows"@),
{
    if windows.len() == 0 {
        None
    } else if windows.len() == 1 {
        let w = niri.get_windows().get(&windows[0]).unwrap();
        Some(single_window_label(&w.title))
    } else {
        Some(windows_section_label(windows.len()))
    }
}

/// The label of the section of a single window: its title, truncated.
pub fn single_window_label(title: &Option<String>) -> (r: String)
    ensures
        is_truncation(crate::text::or_empty(*title), r@),
{
    truncate_menu_label(crate::text::string_or_empty(title))
}

/// The label of the submenu of the window at position `pos` (counted from
/// zero): its number counted from one, a dot, and its (truncated) title.
pub fn window_entry_label(pos: usize, title: &Option<String>) -> (r: String)
    requires
        pos < usize::MAX,
    ensures
        exists|t: Seq<char>| #[trigger] is_truncation(crate::text::or_empty(*title), t)
            && r@ == spec_decimal(pos as nat + 1) + ". "@ + t,
{
    let t = single_window_label(title);
    let mut r = String::new();
    push_decimal(&mut r, (pos + 1) as u64);
    push_str(&mut r, ". ");
    push_str(&mut r, t.as_str());
    proof {
        assert(r@ =~= spec_decimal(pos as nat + 1) + ". "@ + t@);
    }
    r
}

/// The label of the windows section: the number of windows, then "windows".
pub fn windows_section_label(count: usize) -> (r: String)
    ensures
        r@ == spec_decimal(count as nat) + " windows"@,
{
    let mut r = String::new();
    push_decimal(&mut r, count as u64);
    push_str(&mut r, " windows");
    proof {
        assert(r@ =~= spec_decimal(count as nat) + " windows"@);
    }
    r
}

/// The requests of "Close All": close each window, in order.
pub fn close_all_commands(windows: &Vec<u64>, niri: &Niri) -> (r: Vec<Action>)
    requires
        forall|i: int| 0 <= i < windows@.len() ==> niri@.windows.contains_key(#[trigger] windows@[i]),
    ensures
        r@ == Seq::new(windows@.len(), |i: int| Action::CloseWindow { id: Some(niri@.windows[windows@[i]].id) }),
{
    let map = niri.get_windows();
    let mut r: Vec<Action> = Vec::new();
    let mut i: usize = 0;
    while i < windows.len()
        invariant
            map@ == niri@.windows,
            forall|q: int| 0 <= q < windows@.len() ==> niri@.windows.contains_key(#[trigger] windows@[q]),
            i <= windows@.len(),
            r@ == Seq::new(i as nat, |q: int| Action::CloseWindow { id: Some(niri@.windows[windows@[q]].id) }),
        decreases windows@.len() - i,
    {
        let w = map.get(&windows[i]).unwrap();
        r.push(Action::CloseWindow { id: Some(w.id) });
        i = i + 1;
        proof {
            assert(r@ =~= Seq::new(i as nat, |q: int| Action::CloseWindow { id: Some(niri@.windows[windows@[q]].id) }));
        }
    }
    r
}


/// A longer prefix is at least as wide.
pub proof fn lemma_prefix_width_monotone(s: Seq<char>, a: int, b: int)
    requires
        0 <= a <= b <= s.len(),
    ensures
        label_width(s.take(a)) <= label_width(s.take(b)),
{
    lemma_label_width_monotone(s.take(b), a);
    assert(s.take(b).take(a) =~= s.take(a));
}

/// A label fits the menu in exactly one way.
pub proof fn law_truncation_is_unique(label: Seq<char>, t1: Seq<char>, t2: Seq<char>)
    requires
        is_truncation(label, t1),
        is_truncation(label, t2),
    ensures
        t1 == t2,
{
    if label_width(label) > MAX_LABEL_WIDTH {
        let k1 = choose|k: int| 0 <= k < label.len() && label_width(label.take(k)) <= MAX_LABEL_WIDTH
            && label_width(label.take(k + 1)) > MAX_LABEL_WIDTH && t1 == label.take(k) + "..."@;
        let k2 = choose|k: int| 0 <= k < label.len() && label_width(label.take(k)) <= MAX_LABEL_WIDTH
            && label_width(label.take(k + 1)) > MAX_LABEL_WIDTH && t2 == label.take(k) + "..."@;
        if k1 < k2 {
            lemma_prefix_width_monotone(label, k1 + 1, k2);
        } else if k2 < k1 {
            lemma_prefix_width_monotone(label, k2 + 1, k1);
        }
    }
}

} // verus!
