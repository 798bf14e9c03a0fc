//! The capsule window: when it lets clicks through, when it expands, and when
//! the blacklist hides it.
use vstd::prelude::*;
use crate::text::{lowercase_text, lowercased, text_eq};

verus! {

/// The extended window style that lets mouse input through
/// (`WS_EX_TRANSPARENT`).
pub const WS_EX_TRANSPARENT: i32 = 0x20;

/// The extended window style of a layered window (`WS_EX_LAYERED`).
pub const WS_EX_LAYERED: i32 = 0x80000;

/// The extended style a window gets so that it lets clicks through
/// (`through`) or takes them; none where it already does.
pub open spec fn click_through_style_of(ex_style: i32, through: bool) -> Option<i32> {
    let has_transparent = (ex_style & WS_EX_TRANSPARENT) != 0;
    if through && !has_transparent {
        Some(ex_style | WS_EX_TRANSPARENT | WS_EX_LAYERED)
    } else if !through && has_transparent {
        Some(ex_style & !WS_EX_TRANSPARENT)
    } else {
        None
    }
}

/// The extended style to set so that the window lets clicks through or takes
/// them, or none where it already does.
pub fn click_through_style(ex_style: i32, through: bool) -> (r: Option<i32>)
    ensures
        r == click_through_style_of(ex_style, through),
{
    let has_transparent = (ex_style & WS_EX_TRANSPARENT) != 0;
    if through && !has_transparent {
        Some(ex_style | WS_EX_TRANSPARENT | WS_EX_LAYERED)
    } else if !through && has_transparent {
        Some(ex_style & !WS_EX_TRANSPARENT)
    } else {
        None
    }
}

/// Law: once the new style is set, asking again changes nothing; and no other
/// style bit than the two named is touched.
pub proof fn law_click_through_settles(ex_style: i32, through: bool)
    ensures
        click_through_style_of(ex_style, through) matches Some(s) ==> {
            &&& click_through_style_of(s, through) is None
            &&& (s & !(WS_EX_TRANSPARENT | WS_EX_LAYERED)) == (ex_style & !(WS_EX_TRANSPARENT
                | WS_EX_LAYERED))
        },
{
    let t: i32 = 0x20;
    let l: i32 = 0x80000;
    assert(((ex_style | t | l) & t) != 0) by (bit_vector)
        requires
            t == 0x20i32,
            l == 0x80000i32,
    ;
    assert(((ex_style & !t) & t) == 0) by (bit_vector)
        requires
            t == 0x20i32,
    ;
    assert(((ex_style | t | l) & !(t | l)) == (ex_style & !(t | l))) by (bit_vector);
    assert(((ex_style & !t) & !(t | l)) == (ex_style & !(t | l))) by (bit_vector);
}

/// Whether the cursor is in the zone at the top of the screen that expands
/// the capsule: strictly within `zone_half` of the centre across, and above
/// `zone_top`.
pub open spec fn in_trigger_zone_of(x: i32, y: i32, center_x: i32, zone_half: i32, zone_top: i32) -> bool {
    center_x - zone_half < x < center_x + zone_half && y < zone_top
}

pub fn in_trigger_zone(x: i32, y: i32, center_x: i32, zone_half: i32, zone_top: i32) -> (r: bool)
    requires
        i32::MIN <= center_x - zone_half <= i32::MAX,
        i32::MIN <= center_x + zone_half <= i32::MAX,
    ensures
        r == in_trigger_zone_of(x, y, center_x, zone_half, zone_top),
{
    x > center_x - zone_half && x < center_x + zone_half && y < zone_top
}

/// The white space JSON allows around a value.
pub open spec fn json_space(c: char) -> bool {
    c == ' ' || c == '\n' || c == '\t' || c == '\r'
}

pub open spec fn all_json_space(s: Seq<char>) -> bool {
    forall|i: int| 0 <= i < s.len() ==> #[trigger] json_space(s[i])
}

/// `t` is the word `w`, with JSON white space before and after it.
pub open spec fn padded_word(t: Seq<char>, w: Seq<char>) -> bool {
    exists|a: Seq<char>, b: Seq<char>|
        all_json_space(a) && all_json_space(b) && #[trigger] (a + w + b) == t
}

/// `serde_json::from_str::<bool>`: `Some(true)` exactly for the text `true`
/// and `Some(false)` exactly for `false`, each with optional JSON white space
/// (space, tab, line feed, carriage return) around it; none for any other
/// text.
#[verifier::external_body]
fn parse_json_bool(text: &str) -> (r: Option<bool>)
    ensures
        r == Some(true) <==> padded_word(text@, "true"@),
        r == Some(false) <==> padded_word(text@, "false"@),
{
    serde_json::from_str::<bool>(text).ok()
}

/// A flag the front end sends with an event (`set-expand`,
/// `set-interacting`): set exactly where the text is the JSON `true`; any
/// other text, `false` or not JSON, clears it.
pub fn read_flag(payload: &str) -> (r: bool)
    ensures
        r == padded_word(payload@, "true"@),
{
    match parse_json_bool(payload) {
        Some(b) => b,
        None => false,
    }
}

/// What one look at the cursor asks of the window.
pub struct HoverActions {
    /// Let clicks through (`Some(true)`) or take them (`Some(false)`).
    pub click_through: Option<bool>,
    /// Tell the front end to expand (`Some(true)`) or collapse (`Some(false)`).
    pub expand: Option<bool>,
}

/// The inputs of one look at the cursor.
pub struct HoverInput {
    /// Debug mode keeps the capsule taking clicks.
    pub debug_mode: bool,
    /// The front end is in the middle of a drag or a menu.
    pub interacting: bool,
    /// The capsule is expanded.
    pub expanded: bool,
    /// The cursor is over the capsule.
    pub on_capsule: bool,
    /// The cursor is in the trigger zone at the top of the screen.
    pub in_zone: bool,
    /// The cursor's height on the screen.
    pub cursor_y: i32,
    /// The bottom of the window plus a margin, where the window's rectangle
    /// could be read.
    pub window_bottom: Option<i32>,
}

/// The cursor was over the capsule at the last look, and what this look
/// asks: in debug mode the window always takes clicks; otherwise entering the
/// capsule makes it take clicks and leaving it lets them through, unless the
/// front end is interacting. Entering the zone expands a collapsed capsule;
/// going below the window collapses an expanded one.
pub open spec fn hover_step_of(was_on_capsule: bool, i: HoverInput) -> (bool, Option<bool>, Option<bool>) {
    let (on, click) = if i.debug_mode {
        (i.on_capsule, Some(false))
    } else if i.on_capsule && !was_on_capsule {
        (true, if !i.interacting { Some(false) } else { None })
    } else if !i.on_capsule && was_on_capsule {
        (false, if !i.interacting { Some(true) } else { None })
    } else {
        (was_on_capsule, None)
    };
    let expand = if i.in_zone && !i.expanded {
        Some(true)
    } else if i.expanded {
        match i.window_bottom {
            Some(b) => if i.cursor_y > b { Some(false) } else { None },
            None => None,
        }
    } else {
        None
    };
    (on, click, expand)
}

/// One look at the cursor: the new "was over the capsule" and what to do.
pub fn hover_step(was_on_capsule: bool, input: &HoverInput) -> (r: (bool, HoverActions))
    ensures
        (r.0, r.1.click_through, r.1.expand) == hover_step_of(was_on_capsule, *input),
{
    let mut on = was_on_capsule;
    let mut click: Option<bool> = None;
    if input.debug_mode {
        click = Some(false);
        on = input.on_capsule;
    } else if input.on_capsule && !was_on_capsule {
        if !input.interacting {
            click = Some(false);
        }
        on = true;
    } else if !input.on_capsule && was_on_capsule {
        if !input.interacting {
            click = Some(true);
        }
        on = false;
    }
    let mut expand: Option<bool> = None;
    if input.in_zone && !input.expanded {
        expand = Some(true);
    } else if input.expanded {
        if let Some(b) = input.window_bottom {
            if input.cursor_y > b {
                expand = Some(false);
            }
        }
    }
    (on, HoverActions { click_through: click, expand })
}

/// Law: in debug mode the window takes clicks whatever the cursor does;
/// otherwise the capsule never collapses while the cursor is above the
/// window's bottom.
pub proof fn law_debug_mode_takes_clicks(was_on_capsule: bool, i: HoverInput)
    ensures
        i.debug_mode ==> hover_step_of(was_on_capsule, i).1 == Some(false),
        (i.window_bottom matches Some(b) && i.cursor_y <= b) ==> hover_step_of(
            was_on_capsule,
            i,
        ).2 != Some(false),
{
}

/// Law: while the front end is interacting (a drag or the menu), a look at
/// the cursor outside debug mode never changes click-through. Otherwise,
/// outside debug mode, entering the capsule makes the window take clicks and
/// leaving it lets them through.
pub proof fn law_interacting_keeps_click_through(was_on_capsule: bool, i: HoverInput)
    ensures
        (i.interacting && !i.debug_mode) ==> hover_step_of(was_on_capsule, i).1 is None,
        (!i.interacting && !i.debug_mode && i.on_capsule && !was_on_capsule) ==> hover_step_of(
            was_on_capsule,
            i,
        ).1 == Some(false),
        (!i.interacting && !i.debug_mode && !i.on_capsule && was_on_capsule) ==> hover_step_of(
            was_on_capsule,
            i,
        ).1 == Some(true),
        (!i.debug_mode && i.on_capsule == was_on_capsule) ==> hover_step_of(was_on_capsule, i).1 is None,
        !i.debug_mode ==> hover_step_of(was_on_capsule, i).0 == i.on_capsule,
{
}

/// The file name at the end of a Windows path: what follows the last
/// backslash, or the whole path where there is none.
pub open spec fn last_component(p: Seq<char>) -> Seq<char>
    decreases p.len(),
{
    if p.len() == 0 {
        p
    } else if p.last() == '\\' {
        Seq::empty()
    } else {
        last_component(p.drop_last()).push(p.last())
    }
}

proof fn lemma_last_component_suffix(p: Seq<char>, k: int)
    requires
        0 <= k <= p.len(),
        k == 0 || p[k - 1] == '\\',
        forall|j: int| k <= j < p.len() ==> p[j] != '\\',
    ensures
        last_component(p) == p.subrange(k, p.len() as int),
    decreases p.len(),
{
    if p.len() > k {
        lemma_last_component_suffix(p.drop_last(), k);
        assert(p.subrange(k, p.len() as int) =~= p.drop_last().subrange(
            k,
            p.len() - 1,
        ).push(p.last()));
    } else if p.len() > 0 {
        assert(p.subrange(k, p.len() as int) =~= Seq::<char>::empty());
    }
}

/// The process name that a process image path gives: its file name,
/// lower-cased.
pub open spec fn process_name_of(path: Seq<char>) -> Seq<char> {
    lowercased(last_component(path))
}

/// The process name of a process image path, such as `game.exe` for
/// `C:\Games\Game.EXE`.
pub fn process_name_from_path(path: &str) -> (r: String)
    ensures
        r@ == process_name_of(path@),
{
    let n = path.unicode_len();
    let mut k = n;
    while k > 0
        invariant
            n == path@.len(),
            k <= n,
            forall|j: int| k <= j < n ==> path@[j] != '\\',
        ensures
            k <= n,
            forall|j: int| k <= j < n ==> path@[j] != '\\',
            k == 0 || path@[k - 1] == '\\',
        decreases k,
    {
        if path.get_char(k - 1) == '\\' {
            break;
        }
        k = k - 1;
    }
    proof {
        lemma_last_component_suffix(path@, k as int);
    }
    let last = path.substring_char(k, n);
    lowercase_text(last)
}

/// The entry `name` is on the list, compared exactly.
pub open spec fn listed(list: Seq<String>, name: Seq<char>) -> bool {
    exists|i: int| 0 <= i < list.len() && #[trigger] list[i]@ == name
}

/// Whether `name` is on the list.
pub fn is_listed(list: &Vec<String>, name: &str) -> (r: bool)
    ensures
        r == listed(list@, name@),
{
    let n = list.len();
    let mut i: usize = 0;
    while i < n
        invariant
            n == list@.len(),
            i <= n,
            forall|j: int| 0 <= j < i ==> #[trigger] list@[j]@ != name@,
        decreases n - i,
    {
        if text_eq(list[i].as_str(), name) {
            assert(list@[i as int]@ == name@);
            return true;
        }
        i = i + 1;
    }
    false
}

/// A rectangle in screen pixels.
#[derive(Clone, Copy, PartialEq, Eq, Structural, Debug)]
pub struct ScreenRect {
    pub left: i32,
    pub top: i32,
    pub right: i32,
    pub bottom: i32,
}

/// `window` covers the whole of `monitor`.
pub open spec fn covers(window: ScreenRect, monitor: ScreenRect) -> bool {
    window.left <= monitor.left && window.top <= monitor.top && window.right >= monitor.right
        && window.bottom >= monitor.bottom
}

/// What the scan for full-screen windows learns of one top-level window.
pub struct WindowSnapshot {
    pub visible: bool,
    pub minimized: bool,
    /// The window's rectangle, where it could be read.
    pub rect: Option<ScreenRect>,
    /// The rectangle of the monitor nearest the window, where it could be
    /// read.
    pub monitor: Option<ScreenRect>,
    /// The image path of the window's process, where there is a process and
    /// its path could be read.
    pub image_path: Option<String>,
}

/// The window is a visible, unminimized window that covers its monitor and
/// belongs to a blacklisted process.
pub open spec fn blacklisted_fullscreen(w: WindowSnapshot, blacklist: Seq<String>) -> bool {
    &&& w.visible
    &&& !w.minimized
    &&& w.rect matches Some(r)
    &&& w.monitor matches Some(m)
    &&& covers(r, m)
    &&& w.image_path matches Some(p)
    &&& listed(blacklist, process_name_of(p@))
}

pub fn is_blacklisted_fullscreen(w: &WindowSnapshot, blacklist: &Vec<String>) -> (r: bool)
    ensures
        r == blacklisted_fullscreen(*w, blacklist@),
{
    if !w.visible || w.minimized {
        return false;
    }
    let rect = match w.rect {
        Some(r) => r,
        None => return false,
    };
    let mon = match w.monitor {
        Some(m) => m,
        None => return false,
    };
    if rect.left > mon.left || rect.top > mon.top || rect.right < mon.right || rect.bottom
        < mon.bottom {
        return false;
    }
    match &w.image_path {
        Some(p) => {
            let name = process_name_from_path(p.as_str());
            is_listed(blacklist, name.as_str())
        },
        None => false,
    }
}

/// Whether any of the windows is a full-screen window of a blacklisted
/// process.
pub fn any_blacklisted_fullscreen(windows: &Vec<WindowSnapshot>, blacklist: &Vec<String>) -> (r:
    bool)
    ensures
        r == exists|i: int|
            0 <= i < windows@.len() && #[trigger] blacklisted_fullscreen(windows@[i], blacklist@),
{
    let n = windows.len();
    let mut i: usize = 0;
    while i < n
        invariant
            n == windows@.len(),
            i <= n,
            forall|j: int| 0 <= j < i ==> !#[trigger] blacklisted_fullscreen(windows@[j], blacklist@),
        decreases n - i,
    {
        if is_blacklisted_fullscreen(&windows[i], blacklist) {
            return true;
        }
        i = i + 1;
    }
    false
}

/// What to do with the capsule window.
#[derive(Clone, Copy, PartialEq, Eq, Structural, Debug)]
pub enum WindowCommand {
    /// Show it without taking the focus.
    Show,
    /// Hide it.
    Hide,
}

/// The settings are read again before a look at the foreground process
/// while the capsule is hidden or the blacklist is off.
pub fn blacklist_refresh_needed(hidden: bool, enabled: bool) -> (r: bool)
    ensures
        r == (hidden || !enabled),
{
    hidden || !enabled
}

/// The foreground process is looked up only while the blacklist is on and
/// not empty.
pub fn foreground_check_needed(enabled: bool, blacklist: &Vec<String>) -> (r: bool)
    ensures
        r == (enabled && blacklist@.len() > 0),
{
    enabled && blacklist.len() > 0
}

/// The capsule is hidden after a look, and the command that gets it there.
pub open spec fn visibility_step_of(
    hidden: bool,
    enabled: bool,
    blacklist: Seq<String>,
    foreground: Option<Seq<char>>,
) -> (bool, Option<WindowCommand>) {
    if !enabled || blacklist.len() == 0 {
        if hidden {
            (false, Some(WindowCommand::Show))
        } else {
            (false, None)
        }
    } else {
        let in_front = match foreground {
            Some(n) => listed(blacklist, n),
            None => false,
        };
        if in_front && !hidden {
            (true, Some(WindowCommand::Hide))
        } else if !in_front && hidden {
            (false, Some(WindowCommand::Show))
        } else {
            (hidden, None)
        }
    }
}

/// One look at the foreground process: whether the capsule is hidden after
/// it, and how to change the window. `foreground` is the name of the
/// foreground process, where there is one and it could be read.
pub fn visibility_step(
    hidden: bool,
    enabled: bool,
    blacklist: &Vec<String>,
    foreground: &Option<String>,
) -> (r: (bool, Option<WindowCommand>))
    ensures
        r == visibility_step_of(
            hidden,
            enabled,
            blacklist@,
            match foreground {
                Some(s) => Some(s@),
                None => None,
            },
        ),
{
    if !enabled || blacklist.len() == 0 {
        if hidden {
            return (false, Some(WindowCommand::Show));
        }
        return (false, None);
    }
    let in_front = match foreground {
        Some(n) => is_listed(blacklist, n.as_str()),
        None => false,
    };
    if in_front && !hidden {
        (true, Some(WindowCommand::Hide))
    } else if !in_front && hidden {
        (false, Some(WindowCommand::Show))
    } else {
        (hidden, None)
    }
}

/// The blacklist is on, not empty, and holds the foreground process.
pub open spec fn blacklisted_in_front(
    enabled: bool,
    blacklist: Seq<String>,
    foreground: Option<Seq<char>>,
) -> bool {
    &&& enabled
    &&& blacklist.len() > 0
    &&& foreground matches Some(n)
    &&& listed(blacklist, n)
}

/// Law: after each look the capsule is hidden exactly when the blacklist is
/// on and holds the foreground process; the window is told to change only
/// when that changes, and to show when it becomes visible.
pub proof fn law_hidden_exactly_when_blacklisted_in_front(
    hidden: bool,
    enabled: bool,
    blacklist: Seq<String>,
    foreground: Option<Seq<char>>,
)
    ensures
        ({
            let (h, cmd) = visibility_step_of(hidden, enabled, blacklist, foreground);
            &&& h == blacklisted_in_front(enabled, blacklist, foreground)
            &&& cmd is Some <==> h != hidden
            &&& cmd == Some(WindowCommand::Show) <==> (hidden && !h)
            &&& cmd == Some(WindowCommand::Hide) <==> (!hidden && h)
        }),
{
}

/// Law: a process name is on the blacklist exactly when some entry, at any
/// position, equals it; with the blacklist on, such a process in front hides
/// the capsule, and one that no entry names leaves it shown.
pub proof fn law_any_entry_matches(blacklist: Seq<String>, name: Seq<char>, hidden: bool)
    ensures
        listed(blacklist, name) <==> exists|i: int|
            0 <= i < blacklist.len() && #[trigger] blacklist[i]@ == name,
        (exists|i: int| 0 <= i < blacklist.len() && #[trigger] blacklist[i]@ == name)
            ==> visibility_step_of(hidden, true, blacklist, Some(name)).0,
        (exists|i: int| 0 <= i < blacklist.len() && #[trigger] blacklist[i]@ == name) && !hidden
            ==> visibility_step_of(hidden, true, blacklist, Some(name)).1 == Some(
            WindowCommand::Hide,
        ),
        (forall|i: int| 0 <= i < blacklist.len() ==> #[trigger] blacklist[i]@ != name)
            ==> !visibility_step_of(hidden, true, blacklist, Some(name)).0,
{
}

/// What the capsule's context menu asks for.
#[derive(Clone, Copy, PartialEq, Eq, Structural, Debug)]
pub enum MenuAction {
    /// "收起": collapse the capsule to its indicator.
    Minimize,
    /// "设置": open the settings window.
    OpenSettings,
}

/// The action of the menu item the user picked (1 and 2 are the two items;
/// 0 is no pick).
pub fn context_menu_action(cmd_id: i32) -> (r: Option<MenuAction>)
    ensures
        r == (if cmd_id == 1 {
            Some(MenuAction::Minimize)
        } else if cmd_id == 2 {
            Some(MenuAction::OpenSettings)
        } else {
            None
        }),
{
    if cmd_id == 1 {
        Some(MenuAction::Minimize)
    } else if cmd_id == 2 {
        Some(MenuAction::OpenSettings)
    } else {
        None
    }
}

/// What the tray menu asks for.
#[derive(Clone, Copy, PartialEq, Eq, Structural, Debug)]
pub enum TrayAction {
    Quit,
    OpenSettings,
}

/// The action of the tray menu item with the given id.
pub fn tray_menu_action(id: &str) -> (r: Option<TrayAction>)
    ensures
        r == (if id@ == "quit"@ {
            Some(TrayAction::Quit)
        } else if id@ == "settings"@ {
            Some(TrayAction::OpenSettings)
        } else {
            None
        }),
{
    if text_eq(id, "quit") {
        Some(TrayAction::Quit)
    } else if text_eq(id, "settings") {
        Some(TrayAction::OpenSettings)
    } else {
        None
    }
}

/// Where the capsule window goes across the screen: centred, or at the left
/// edge where the window is wider than the screen.
pub fn centered_x(screen_width: u32, window_width: u32) -> (r: u32)
    ensures
        r == (if screen_width >= window_width {
            ((screen_width - window_width) / 2) as u32
        } else {
            0u32
        }),
{
    if screen_width >= window_width {
        (screen_width - window_width) / 2
    } else {
        0
    }
}

} // verus!
