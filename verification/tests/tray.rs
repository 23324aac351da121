use dsh_pet::theme::ThemeInfo;
use dsh_pet::tray::{
    handle_menu_event, is_dnd_enabled, is_easter_egg_enabled, is_remember_position,
    is_sound_enabled, menu_layout, theme_menu, MenuAction, MenuEntryKind, TraySettings,
};

#[test]
fn settings_restore_from_config() {
    let s = TraySettings::new(false, true, false, true);
    assert!(!is_sound_enabled(&s));
    assert!(is_easter_egg_enabled(&s));
    assert!(!is_remember_position(&s));
    assert!(is_dnd_enabled(&s));
    assert!(!s.click_through);
}

#[test]
fn switches_flip_and_flip_back() {
    let mut s = TraySettings::new(true, true, true, false);
    assert!(matches!(handle_menu_event(&mut s, "toggle-sound", false), MenuAction::SetSound(false)));
    assert!(!s.sound_enabled);
    assert!(matches!(handle_menu_event(&mut s, "toggle-sound", false), MenuAction::SetSound(true)));
    assert!(s.sound_enabled);
    assert!(matches!(handle_menu_event(&mut s, "toggle-dnd", false), MenuAction::SetDnd(true)));
    assert!(matches!(handle_menu_event(&mut s, "toggle-click-through", false), MenuAction::SetClickThrough(true)));
    assert!(matches!(handle_menu_event(&mut s, "toggle-easter", false), MenuAction::SetEasterEgg(false)));
    assert!(matches!(handle_menu_event(&mut s, "toggle-remember", false), MenuAction::SetRememberPosition(false)));
    assert!(matches!(handle_menu_event(&mut s, "toggle-autostart", true), MenuAction::SetAutostart(false)));
    assert!(matches!(handle_menu_event(&mut s, "toggle-autostart", false), MenuAction::SetAutostart(true)));
}

#[test]
fn other_entries() {
    let mut s = TraySettings::new(true, true, true, false);
    assert!(matches!(handle_menu_event(&mut s, "theme:my-pet-1", false), MenuAction::SelectTheme(t) if t == "my-pet-1"));
    assert!(matches!(handle_menu_event(&mut s, "theme:", false), MenuAction::SelectTheme(t) if t.is_empty()));
    assert!(matches!(handle_menu_event(&mut s, "toggle-window", false), MenuAction::ToggleWindow));
    assert!(matches!(handle_menu_event(&mut s, "new-theme-template", false), MenuAction::NewThemeTemplate));
    assert!(matches!(handle_menu_event(&mut s, "edit-theme", false), MenuAction::EditTheme));
    assert!(matches!(handle_menu_event(&mut s, "open-themes", false), MenuAction::OpenThemes));
    assert!(matches!(handle_menu_event(&mut s, "test-sound", false), MenuAction::TestSound));
    assert!(matches!(handle_menu_event(&mut s, "quit", false), MenuAction::Quit));
    assert!(matches!(handle_menu_event(&mut s, "nope", false), MenuAction::Ignore));
}

#[test]
fn every_menu_entry_is_handled() {
    let s = TraySettings::new(true, false, true, false);
    let layout = menu_layout(&s, true);
    assert_eq!(layout.len(), 12);
    assert_eq!(layout[0].id, "toggle-window");
    assert!(matches!(layout[2].kind, MenuEntryKind::Check(true)));
    assert!(matches!(layout[3].kind, MenuEntryKind::Check(false)));
    assert!(matches!(layout[5].kind, MenuEntryKind::Check(true)));
    for e in &layout {
        if matches!(e.kind, MenuEntryKind::Plain | MenuEntryKind::Check(_)) {
            let mut t = TraySettings::new(true, false, true, false);
            assert!(!matches!(handle_menu_event(&mut t, &e.id, false), MenuAction::Ignore), "{}", e.id);
        }
    }
    let themes = vec![ThemeInfo { id: "a".to_string(), name: "甲".to_string() }];
    let sub = theme_menu(&themes);
    assert_eq!(sub.len(), 4);
    assert_eq!(sub[3].id, "theme:a");
    assert_eq!(sub[3].label, "甲");
    for e in &sub {
        let mut t = TraySettings::new(true, false, true, false);
        assert!(!matches!(handle_menu_event(&mut t, &e.id, false), MenuAction::Ignore));
    }
}

#[test]
fn switches_before_the_configuration_is_read() {
    let s = TraySettings::default();
    assert!(!s.click_through);
    assert!(is_sound_enabled(&s));
    assert!(is_easter_egg_enabled(&s));
    assert!(is_remember_position(&s));
    assert!(!is_dnd_enabled(&s));
}
