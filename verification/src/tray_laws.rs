//! Properties of the tray menu.
use vstd::prelude::*;

use crate::tray::{
    menu_layout_spec, menu_step, starts_with, theme_entry_fn, theme_menu_head, theme_prefix,
    TraySettings,
};
use crate::theme::ThemeInfo;

verus! {

/// The ids of the entries that flip a switch of the menu.
pub open spec fn is_switch_id(id: Seq<char>) -> bool {
    id == "toggle-click-through"@ || id == "toggle-sound"@ || id == "toggle-easter"@ || id
        == "toggle-dnd"@ || id == "toggle-remember"@
}


/// Choosing a switch entry twice leaves every switch as it was, and choosing any entry
/// flips at most the one switch it stands for.
pub proof fn lemma_switch_twice_restores(s: TraySettings, id: Seq<char>, autostart_enabled: bool)
    requires
        is_switch_id(id),
    ensures
        menu_step(menu_step(s, id, autostart_enabled).0, id, autostart_enabled).0 == s,
{
    reveal_strlit("toggle-window");
    reveal_strlit("toggle-click-through");
    reveal_strlit("toggle-sound");
    reveal_strlit("toggle-easter");
    reveal_strlit("toggle-dnd");
    reveal_strlit("toggle-autostart");
    reveal_strlit("toggle-remember");
    reveal_strlit("new-theme-template");
    reveal_strlit("edit-theme");
    reveal_strlit("open-themes");
    reveal_strlit("test-sound");
    reveal_strlit("quit");
    reveal_strlit("theme:");
    assert(!starts_with(id, theme_prefix())) by {
        assert(id[1] == 'o');
    }
    assert("toggle-click-through"@ != "toggle-window"@) by {
        assert("toggle-click-through"@.len() != "toggle-window"@.len());
    }
    assert("toggle-sound"@ != "toggle-window"@) by {
        assert("toggle-sound"@[7] != "toggle-window"@[7]);
    }
    assert("toggle-easter"@ != "toggle-window"@) by {
        assert("toggle-easter"@[7] != "toggle-window"@[7]);
    }
    assert("toggle-dnd"@ != "toggle-window"@) by {
        assert("toggle-dnd"@.len() != "toggle-window"@.len());
    }
    assert("toggle-remember"@ != "toggle-window"@) by {
        assert("toggle-remember"@.len() != "toggle-window"@.len());
    }
    assert("toggle-sound"@ != "toggle-click-through"@) by {
        assert("toggle-sound"@.len() != "toggle-click-through"@.len());
    }
    assert("toggle-easter"@ != "toggle-click-through"@) by {
        assert("toggle-easter"@.len() != "toggle-click-through"@.len());
    }
    assert("toggle-dnd"@ != "toggle-click-through"@) by {
        assert("toggle-dnd"@.len() != "toggle-click-through"@.len());
    }
    assert("toggle-remember"@ != "toggle-click-through"@) by {
        assert("toggle-remember"@.len() != "toggle-click-through"@.len());
    }
    assert("toggle-easter"@ != "toggle-sound"@) by {
        assert("toggle-easter"@.len() != "toggle-sound"@.len());
    }
    assert("toggle-dnd"@ != "toggle-sound"@) by {
        assert("toggle-dnd"@.len() != "toggle-sound"@.len());
    }
    assert("toggle-remember"@ != "toggle-sound"@) by {
        assert("toggle-remember"@.len() != "toggle-sound"@.len());
    }
    assert("toggle-dnd"@ != "toggle-easter"@) by {
        assert("toggle-dnd"@.len() != "toggle-easter"@.len());
    }
    assert("toggle-remember"@ != "toggle-easter"@) by {
        assert("toggle-remember"@.len() != "toggle-easter"@.len());
    }
    assert("toggle-remember"@ != "toggle-dnd"@) by {
        assert("toggle-remember"@.len() != "toggle-dnd"@.len());
    }
    assert("toggle-remember"@ != "toggle-autostart"@) by {
        assert("toggle-remember"@.len() != "toggle-autostart"@.len());
    }
}

/// Every ordinary or checked entry of the tray menu is answered with an action.
pub proof fn lemma_layout_entries_handled(
    s: TraySettings,
    current: TraySettings,
    autostart_enabled: bool,
    i: int,
)
    requires
        0 <= i < menu_layout_spec(s, autostart_enabled).len(),
        menu_layout_spec(s, autostart_enabled)[i].2 is Plain || menu_layout_spec(
            s,
            autostart_enabled,
        )[i].2 is Check,
    ensures
        !(menu_step(current, menu_layout_spec(s, autostart_enabled)[i].0, autostart_enabled).1 is Ignore),
{
    reveal_strlit("toggle-window");
    reveal_strlit("toggle-click-through");
    reveal_strlit("toggle-sound");
    reveal_strlit("toggle-easter");
    reveal_strlit("toggle-dnd");
    reveal_strlit("toggle-autostart");
    reveal_strlit("toggle-remember");
    reveal_strlit("new-theme-template");
    reveal_strlit("edit-theme");
    reveal_strlit("open-themes");
    reveal_strlit("test-sound");
    reveal_strlit("quit");
    reveal_strlit("theme:");
    let id = menu_layout_spec(s, autostart_enabled)[i].0;
    assert(!starts_with(id, theme_prefix())) by {
        if starts_with(id, theme_prefix()) {
            assert(id[0] == 't' && id[1] == 'h');
        }
    }
}

/// Every entry of the theme submenu is answered with an action: a theme entry selects
/// its theme, the others create a template or open the editor.
pub proof fn lemma_theme_entries_handled(themes: Seq<ThemeInfo>, current: TraySettings, autostart_enabled: bool, i: int)
    requires
        0 <= i < (theme_menu_head() + themes.map_values(theme_entry_fn())).len(),
    ensures
        ({
            let id = (theme_menu_head() + themes.map_values(theme_entry_fn()))[i].0;
            starts_with(id, theme_prefix()) || !(menu_step(current, id, autostart_enabled).1 is Ignore)
        }),
{
    reveal_strlit("toggle-window");
    reveal_strlit("toggle-click-through");
    reveal_strlit("toggle-sound");
    reveal_strlit("toggle-easter");
    reveal_strlit("toggle-dnd");
    reveal_strlit("toggle-autostart");
    reveal_strlit("toggle-remember");
    reveal_strlit("new-theme-template");
    reveal_strlit("edit-theme");
    reveal_strlit("open-themes");
    reveal_strlit("test-sound");
    reveal_strlit("quit");
    reveal_strlit("theme:");
    let all = theme_menu_head() + themes.map_values(theme_entry_fn());
    let id = all[i].0;
    if i == 0 {
        assert(id.subrange(0, 6) =~= theme_prefix());
    } else if i >= 3 {
        let t = themes[i - 3];
        assert(id == "theme:"@ + t.id@);
        assert(id.subrange(0, 6) =~= theme_prefix());
    } else {
        assert(!starts_with(id, theme_prefix())) by {
            if starts_with(id, theme_prefix()) {
                assert(id[0] == 't');
            }
        }
    }
}

/// Each switch entry flips exactly its own switch and reports the new value: click-through,
/// sound, easter egg, do-not-disturb and position memory each answer their own entry, and
/// every other switch stays as it was.
pub proof fn lemma_switch_flips_its_own(s: TraySettings, autostart_enabled: bool)
    ensures
        menu_step(s, "toggle-click-through"@, autostart_enabled) == (
            TraySettings { click_through: !s.click_through, ..s },
            crate::tray::MenuAction::SetClickThrough(!s.click_through),
        ),
        menu_step(s, "toggle-sound"@, autostart_enabled) == (
            TraySettings { sound_enabled: !s.sound_enabled, ..s },
            crate::tray::MenuAction::SetSound(!s.sound_enabled),
        ),
        menu_step(s, "toggle-easter"@, autostart_enabled) == (
            TraySettings { easter_egg_enabled: !s.easter_egg_enabled, ..s },
            crate::tray::MenuAction::SetEasterEgg(!s.easter_egg_enabled),
        ),
        menu_step(s, "toggle-dnd"@, autostart_enabled) == (
            TraySettings { dnd_enabled: !s.dnd_enabled, ..s },
            crate::tray::MenuAction::SetDnd(!s.dnd_enabled),
        ),
        menu_step(s, "toggle-remember"@, autostart_enabled) == (
            TraySettings { remember_position: !s.remember_position, ..s },
            crate::tray::MenuAction::SetRememberPosition(!s.remember_position),
        ),
        menu_step(s, "toggle-autostart"@, autostart_enabled) == (
            s,
            crate::tray::MenuAction::SetAutostart(!autostart_enabled),
        ),
{
    reveal_strlit("toggle-window");
    reveal_strlit("toggle-click-through");
    reveal_strlit("toggle-sound");
    reveal_strlit("toggle-easter");
    reveal_strlit("toggle-dnd");
    reveal_strlit("toggle-autostart");
    reveal_strlit("toggle-remember");
    reveal_strlit("new-theme-template");
    reveal_strlit("edit-theme");
    reveal_strlit("open-themes");
    reveal_strlit("test-sound");
    reveal_strlit("quit");
    reveal_strlit("theme:");
    assert(!starts_with("toggle-click-through"@, theme_prefix()) && !starts_with("toggle-sound"@, theme_prefix())
        && !starts_with("toggle-easter"@, theme_prefix()) && !starts_with("toggle-dnd"@, theme_prefix())
        && !starts_with("toggle-remember"@, theme_prefix())) by {
        assert("toggle-click-through"@.subrange(0, 6)[1] == 'o');
        assert("toggle-sound"@.subrange(0, 6)[1] == 'o');
        assert("toggle-easter"@.subrange(0, 6)[1] == 'o');
        assert("toggle-dnd"@.subrange(0, 6)[1] == 'o');
        assert("toggle-remember"@.subrange(0, 6)[1] == 'o');
    }
    assert("toggle-click-through"@ != "toggle-window"@) by {
        assert("toggle-click-through"@.len() != "toggle-window"@.len());
    }
    assert("toggle-sound"@ != "toggle-window"@) by {
        assert("toggle-sound"@[7] != "toggle-window"@[7]);
    }
    assert("toggle-easter"@ != "toggle-window"@) by {
        assert("toggle-easter"@[7] != "toggle-window"@[7]);
    }
    assert("toggle-dnd"@ != "toggle-window"@) by {
        assert("toggle-dnd"@.len() != "toggle-window"@.len());
    }
    assert("toggle-remember"@ != "toggle-window"@) by {
        assert("toggle-remember"@.len() != "toggle-window"@.len());
    }
    assert("toggle-sound"@ != "toggle-click-through"@) by {
        assert("toggle-sound"@.len() != "toggle-click-through"@.len());
    }
    assert("toggle-easter"@ != "toggle-click-through"@) by {
        assert("toggle-easter"@.len() != "toggle-click-through"@.len());
    }
    assert("toggle-dnd"@ != "toggle-click-through"@) by {
        assert("toggle-dnd"@.len() != "toggle-click-through"@.len());
    }
    assert("toggle-remember"@ != "toggle-click-through"@) by {
        assert("toggle-remember"@.len() != "toggle-click-through"@.len());
    }
    assert("toggle-easter"@ != "toggle-sound"@) by {
        assert("toggle-easter"@.len() != "toggle-sound"@.len());
    }
    assert("toggle-dnd"@ != "toggle-sound"@) by {
        assert("toggle-dnd"@.len() != "toggle-sound"@.len());
    }
    assert("toggle-remember"@ != "toggle-sound"@) by {
        assert("toggle-remember"@.len() != "toggle-sound"@.len());
    }
    assert("toggle-dnd"@ != "toggle-easter"@) by {
        assert("toggle-dnd"@.len() != "toggle-easter"@.len());
    }
    assert("toggle-remember"@ != "toggle-easter"@) by {
        assert("toggle-remember"@.len() != "toggle-easter"@.len());
    }
    assert("toggle-remember"@ != "toggle-dnd"@) by {
        assert("toggle-remember"@.len() != "toggle-dnd"@.len());
    }
    assert("toggle-remember"@ != "toggle-autostart"@) by {
        assert("toggle-remember"@.len() != "toggle-autostart"@.len());
    }
    assert(!starts_with("toggle-autostart"@, theme_prefix())) by {
        assert("toggle-autostart"@.subrange(0, 6)[1] == 'o');
    }
    assert("toggle-autostart"@ != "toggle-window"@) by {
        assert("toggle-autostart"@.len() != "toggle-window"@.len());
    }
    assert("toggle-autostart"@ != "toggle-click-through"@) by {
        assert("toggle-autostart"@.len() != "toggle-click-through"@.len());
    }
    assert("toggle-autostart"@ != "toggle-sound"@) by {
        assert("toggle-autostart"@.len() != "toggle-sound"@.len());
    }
    assert("toggle-autostart"@ != "toggle-easter"@) by {
        assert("toggle-autostart"@.len() != "toggle-easter"@.len());
    }
    assert("toggle-autostart"@ != "toggle-dnd"@) by {
        assert("toggle-autostart"@.len() != "toggle-dnd"@.len());
    }
}

} // verus!
