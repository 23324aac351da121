//! The tray menu: its switches, its layout, and what each menu entry does.
use vstd::prelude::*;
use vstd::string::*;

use crate::text::{chars_of, is_text, substring};
use crate::theme::ThemeInfo;

verus! {

/// The switches of the tray menu.
pub struct TraySettings {
    /// Clicks pass through the whole window.
    pub click_through: bool,
    /// Notification sounds play.
    pub sound_enabled: bool,
    /// The click easter egg is on.
    pub easter_egg_enabled: bool,
    /// The window position is remembered.
    pub remember_position: bool,
    /// Do-not-disturb is on.
    pub dnd_enabled: bool,
}

impl TraySettings {
    /// The switches as restored from the configuration; click-through starts off.
    pub fn new(sound_enabled: bool, easter_egg_enabled: bool, remember_position: bool, dnd_enabled: bool) -> (r: Self)
        ensures
            r == (TraySettings {
                click_through: false,
                sound_enabled,
                easter_egg_enabled,
                remember_position,
                dnd_enabled,
            }),
    {
        TraySettings {
            click_through: false,
            sound_enabled,
            easter_egg_enabled,
            remember_position,
            dnd_enabled,
        }
    }
}

impl Default for TraySettings {
    /// The switches before the configuration is read: clicks do not pass through, sounds,
    /// the easter egg and position memory are on, do-not-disturb is off.
    fn default() -> (r: Self)
        ensures
            r == (TraySettings {
                click_through: false,
                sound_enabled: true,
                easter_egg_enabled: true,
                remember_position: true,
                dnd_enabled: false,
            }),
    {
        TraySettings {
            click_through: false,
            sound_enabled: true,
            easter_egg_enabled: true,
            remember_position: true,
            dnd_enabled: false,
        }
    }
}

/// Whether notification sounds play.
pub fn is_sound_enabled(settings: &TraySettings) -> (b: bool)
    ensures
        b == settings.sound_enabled,
{
    settings.sound_enabled
}

/// Whether the click easter egg is on.
pub fn is_easter_egg_enabled(settings: &TraySettings) -> (b: bool)
    ensures
        b == settings.easter_egg_enabled,
{
    settings.easter_egg_enabled
}

/// Whether the window position is remembered.
pub fn is_remember_position(settings: &TraySettings) -> (b: bool)
    ensures
        b == settings.remember_position,
{
    settings.remember_position
}

/// Whether do-not-disturb is on.
pub fn is_dnd_enabled(settings: &TraySettings) -> (b: bool)
    ensures
        b == settings.dnd_enabled,
{
    settings.dnd_enabled
}

/// What the application does in answer to a menu entry.
pub enum MenuAction {
    /// Make this theme the current one ("" is the built-in one), save it and announce it.
    SelectTheme(String),
    /// Show the main window if hidden, hide it if shown.
    ToggleWindow,
    /// Let clicks pass through the window or not, and check the entry accordingly.
    SetClickThrough(bool),
    /// Save the sound switch and check the entry accordingly.
    SetSound(bool),
    /// Save the easter-egg switch and check the entry accordingly.
    SetEasterEgg(bool),
    /// Save the do-not-disturb switch, announce it and check the entry accordingly.
    SetDnd(bool),
    /// Register or unregister start at login and check the entry accordingly.
    SetAutostart(bool),
    /// Save the position-memory switch and check the entry accordingly.
    SetRememberPosition(bool),
    /// Create a template theme, then open the themes directory.
    NewThemeTemplate,
    /// Open the theme editor.
    EditTheme,
    /// Open the themes directory.
    OpenThemes,
    /// Play the "done" sound.
    TestSound,
    /// Quit the application.
    Quit,
    /// Nothing to do.
    Ignore,
}

/// `theme:`, the prefix of the ids of theme entries.
pub open spec fn theme_prefix() -> Seq<char> {
    seq!['t', 'h', 'e', 'm', 'e', ':']
}

/// Whether `s` begins with `p`.
pub open spec fn starts_with(s: Seq<char>, p: Seq<char>) -> bool {
    s.len() >= p.len() && s.subrange(0, p.len() as int) == p
}

/// The switches after a menu entry, and what the application does: the switch that the
/// entry flips is flipped, every other switch stays.
pub open spec fn menu_step(old: TraySettings, id: Seq<char>, autostart_enabled: bool) -> (
    TraySettings,
    MenuAction,
) {
    if starts_with(id, theme_prefix()) {
        (old, MenuAction::Ignore)
    } else if id == "toggle-window"@ {
        (old, MenuAction::ToggleWindow)
    } else if id == "toggle-click-through"@ {
        (
            TraySettings { click_through: !old.click_through, ..old },
            MenuAction::SetClickThrough(!old.click_through),
        )
    } else if id == "toggle-sound"@ {
        (
            TraySettings { sound_enabled: !old.sound_enabled, ..old },
            MenuAction::SetSound(!old.sound_enabled),
        )
    } else if id == "toggle-easter"@ {
        (
            TraySettings { easter_egg_enabled: !old.easter_egg_enabled, ..old },
            MenuAction::SetEasterEgg(!old.easter_egg_enabled),
        )
    } else if id == "toggle-dnd"@ {
        (
            TraySettings { dnd_enabled: !old.dnd_enabled, ..old },
            MenuAction::SetDnd(!old.dnd_enabled),
        )
    } else if id == "toggle-autostart"@ {
        (old, MenuAction::SetAutostart(!autostart_enabled))
    } else if id == "toggle-remember"@ {
        (
            TraySettings { remember_position: !old.remember_position, ..old },
            MenuAction::SetRememberPosition(!old.remember_position),
        )
    } else if id == "new-theme-template"@ {
        (old, MenuAction::NewThemeTemplate)
    } else if id == "edit-theme"@ {
        (old, MenuAction::EditTheme)
    } else if id == "open-themes"@ {
        (old, MenuAction::OpenThemes)
    } else if id == "test-sound"@ {
        (old, MenuAction::TestSound)
    } else if id == "quit"@ {
        (old, MenuAction::Quit)
    } else {
        (old, MenuAction::Ignore)
    }
}

/// Answers a menu entry: flips the switch it stands for and says what the application
/// does. An id `theme:<id>` selects the theme `<id>`.
pub fn handle_menu_event(settings: &mut TraySettings, id: &str, autostart_enabled: bool) -> (r:
    MenuAction)
    ensures
        starts_with(id@, theme_prefix()) ==> *final(settings) == *old(settings) && (r matches MenuAction::SelectTheme(t)
            && t@ == id@.subrange(6, id@.len() as int)),
        !starts_with(id@, theme_prefix()) ==> (*final(settings), r) == menu_step(
            *old(settings),
            id@,
            autostart_enabled,
        ),
{
    let chars = chars_of(id);
    let n = chars.len();
    if n >= 6 && chars[0] == 't' && chars[1] == 'h' && chars[2] == 'e' && chars[3] == 'm' && chars[4]
        == 'e' && chars[5] == ':' {
        assert(id@.subrange(0, 6) =~= theme_prefix());
        return MenuAction::SelectTheme(substring(id, 6, n));
    }
    proof {
        if starts_with(id@, theme_prefix()) {
            let p = id@.subrange(0, 6);
            assert(p[0] == 't' && p[1] == 'h' && p[2] == 'e' && p[3] == 'm' && p[4] == 'e' && p[5]
                == ':');
        }
    }
    let s = String::from_str(id);
    if is_text(&s, "toggle-window") {
        MenuAction::ToggleWindow
    } else if is_text(&s, "toggle-click-through") {
        settings.click_through = !settings.click_through;
        MenuAction::SetClickThrough(settings.click_through)
    } else if is_text(&s, "toggle-sound") {
        settings.sound_enabled = !settings.sound_enabled;
        MenuAction::SetSound(settings.sound_enabled)
    } else if is_text(&s, "toggle-easter") {
        settings.easter_egg_enabled = !settings.easter_egg_enabled;
        MenuAction::SetEasterEgg(settings.easter_egg_enabled)
    } else if is_text(&s, "toggle-dnd") {
        settings.dnd_enabled = !settings.dnd_enabled;
        MenuAction::SetDnd(settings.dnd_enabled)
    } else if is_text(&s, "toggle-autostart") {
        MenuAction::SetAutostart(!autostart_enabled)
    } else if is_text(&s, "toggle-remember") {
        settings.remember_position = !settings.remember_position;
        MenuAction::SetRememberPosition(settings.remember_position)
    } else if is_text(&s, "new-theme-template") {
        MenuAction::NewThemeTemplate
    } else if is_text(&s, "edit-theme") {
        MenuAction::EditTheme
    } else if is_text(&s, "open-themes") {
        MenuAction::OpenThemes
    } else if is_text(&s, "test-sound") {
        MenuAction::TestSound
    } else if is_text(&s, "quit") {
        MenuAction::Quit
    } else {
        MenuAction::Ignore
    }
}

/// How a menu entry shows.
pub enum MenuEntryKind {
    /// An ordinary entry.
    Plain,
    /// An entry with a check mark, checked or not.
    Check(bool),
    /// The place of the theme submenu.
    ThemeSubmenu,
    /// A separator line.
    Separator,
}

/// One entry of the tray menu: its id (what `handle_menu_event` receives), its label and
/// how it shows.
pub struct MenuEntry {
    pub id: String,
    pub label: String,
    pub kind: MenuEntryKind,
}

/// A menu entry seen as id, label and kind.
pub open spec fn entry_view(e: MenuEntry) -> (Seq<char>, Seq<char>, MenuEntryKind) {
    (e.id@, e.label@, e.kind)
}

pub open spec fn entries_view(v: Seq<MenuEntry>) -> Seq<(Seq<char>, Seq<char>, MenuEntryKind)> {
    v.map_values(|e: MenuEntry| entry_view(e))
}

/// The tray menu, top to bottom.
pub open spec fn menu_layout_spec(settings: TraySettings, autostart_enabled: bool) -> Seq<
    (Seq<char>, Seq<char>, MenuEntryKind),
> {
    seq![
        ("toggle-window"@, "显示/隐藏主窗口"@, MenuEntryKind::Plain),
        ("toggle-click-through"@, "点击穿透"@, MenuEntryKind::Check(settings.click_through)),
        ("toggle-sound"@, "音效"@, MenuEntryKind::Check(settings.sound_enabled)),
        ("toggle-easter"@, "点击彩蛋"@, MenuEntryKind::Check(settings.easter_egg_enabled)),
        ("toggle-remember"@, "位置记忆"@, MenuEntryKind::Check(settings.remember_position)),
        ("toggle-autostart"@, "开机自启"@, MenuEntryKind::Check(autostart_enabled)),
        ("toggle-dnd"@, "免打扰"@, MenuEntryKind::Check(settings.dnd_enabled)),
        (""@, "皮肤"@, MenuEntryKind::ThemeSubmenu),
        ("open-themes"@, "打开皮肤目录…"@, MenuEntryKind::Plain),
        ("test-sound"@, "测试提示音"@, MenuEntryKind::Plain),
        (""@, ""@, MenuEntryKind::Separator),
        ("quit"@, "退出"@, MenuEntryKind::Plain),
    ]
}

fn entry(id: &str, label: &str, kind: MenuEntryKind) -> (r: MenuEntry)
    ensures
        entry_view(r) == (id@, label@, kind),
{
    MenuEntry { id: String::from_str(id), label: String::from_str(label), kind }
}

/// The tray menu, top to bottom, with the check marks of the current switches.
pub fn menu_layout(settings: &TraySettings, autostart_enabled: bool) -> (r: Vec<MenuEntry>)
    ensures
        entries_view(r@) == menu_layout_spec(*settings, autostart_enabled),
{
    let mut v: Vec<MenuEntry> = Vec::new();
    v.push(entry("toggle-window", "显示/隐藏主窗口", MenuEntryKind::Plain));
    v.push(entry("toggle-click-through", "点击穿透", MenuEntryKind::Check(settings.click_through)));
    v.push(entry("toggle-sound", "音效", MenuEntryKind::Check(settings.sound_enabled)));
    v.push(entry("toggle-easter", "点击彩蛋", MenuEntryKind::Check(settings.easter_egg_enabled)));
    v.push(entry("toggle-remember", "位置记忆", MenuEntryKind::Check(settings.remember_position)));
    v.push(entry("toggle-autostart", "开机自启", MenuEntryKind::Check(autostart_enabled)));
    v.push(entry("toggle-dnd", "免打扰", MenuEntryKind::Check(settings.dnd_enabled)));
    v.push(entry("", "皮肤", MenuEntryKind::ThemeSubmenu));
    v.push(entry("open-themes", "打开皮肤目录…", MenuEntryKind::Plain));
    v.push(entry("test-sound", "测试提示音", MenuEntryKind::Plain));
    v.push(entry("", "", MenuEntryKind::Separator));
    v.push(entry("quit", "退出", MenuEntryKind::Plain));
    assert(entries_view(v@) =~= menu_layout_spec(*settings, autostart_enabled));
    v
}

/// The fixed entries of the theme submenu.
pub open spec fn theme_menu_head() -> Seq<(Seq<char>, Seq<char>, MenuEntryKind)> {
    seq![
        ("theme:"@, "内置鲸鱼娘"@, MenuEntryKind::Plain),
        ("new-theme-template"@, "新建皮肤模板…"@, MenuEntryKind::Plain),
        ("edit-theme"@, "打开皮肤编辑器…"@, MenuEntryKind::Plain),
    ]
}

/// The submenu entry of a theme: id `theme:<id>`, labelled with the theme's name.
pub open spec fn theme_entry_fn() -> spec_fn(ThemeInfo) -> (Seq<char>, Seq<char>, MenuEntryKind) {
    |t: ThemeInfo| ("theme:"@ + t.id@, t.name@, MenuEntryKind::Plain)
}

/// The theme submenu: the built-in theme, creating a template, the editor, then one entry
/// per theme.
pub fn theme_menu(themes: &Vec<ThemeInfo>) -> (r: Vec<MenuEntry>)
    ensures
        entries_view(r@) == theme_menu_head() + themes@.map_values(theme_entry_fn()),
{
    let mut v: Vec<MenuEntry> = Vec::new();
    v.push(entry("theme:", "内置鲸鱼娘", MenuEntryKind::Plain));
    v.push(entry("new-theme-template", "新建皮肤模板…", MenuEntryKind::Plain));
    v.push(entry("edit-theme", "打开皮肤编辑器…", MenuEntryKind::Plain));
    assert(entries_view(v@) =~= theme_menu_head());
    let n = themes.len();
    let mut i: usize = 0;
    while i < n
        invariant
            n == themes@.len(),
            i <= n,
            entries_view(v@) == theme_menu_head() + themes@.take(i as int).map_values(theme_entry_fn()),
        decreases n - i,
    {
        let t = &themes[i];
        let mut id = String::from_str("theme:");
        id.append(t.id.as_str());
        let ghost before = entries_view(v@);
        let e = MenuEntry { id, label: t.name.clone(), kind: MenuEntryKind::Plain };
        assert(entry_view(e) == theme_entry_fn()(themes@[i as int]));
        v.push(e);
        assert(entries_view(v@) =~= before.push(theme_entry_fn()(themes@[i as int])));
        assert(themes@.take(i + 1).map_values(theme_entry_fn()) =~= themes@.take(i as int).map_values(
            theme_entry_fn(),
        ).push(theme_entry_fn()(themes@[i as int])));
        i = i + 1;
    }
    assert(themes@.take(n as int) =~= themes@);
    v
}

} // verus!
