use dsh_pet::audio::{notify_state_change, playable_sound, ModeWatch, SoundThrottle};

#[test]
fn only_known_sounds_play() {
    assert!(playable_sound("done"));
    assert!(playable_sound("attention"));
    assert!(!playable_sound("error"));
}

#[test]
fn mode_sounds_with_cooldown() {
    let mut t = SoundThrottle::new();
    assert_eq!(notify_state_change(&mut t, true, "done", 20_000).as_deref(), Some("done"));
    assert_eq!(notify_state_change(&mut t, true, "done", 29_999), None);
    assert_eq!(notify_state_change(&mut t, true, "done", 30_000).as_deref(), Some("done"));
    assert_eq!(notify_state_change(&mut t, true, "working", 90_000), None);
    assert_eq!(notify_state_change(&mut t, false, "done", 90_000), None);
    assert_eq!(t.last_done_ms, 30_000);
    assert_eq!(t.last_attention_ms, 0);
}

#[test]
fn first_sound_waits_for_cooldown_from_zero() {
    let mut t = SoundThrottle::new();
    assert_eq!(notify_state_change(&mut t, true, "done", 9_999), None);
}

#[test]
fn mode_watch_reports_changes() {
    let mut w = ModeWatch::new();
    assert!(w.changed(&"idle".to_string()));
    assert!(!w.changed(&"idle".to_string()));
    assert!(w.changed(&"done".to_string()));
}

#[test]
fn each_kind_has_its_own_cooldown() {
    let mut t = SoundThrottle::new();
    assert_eq!(notify_state_change(&mut t, true, "done", 100_000).as_deref(), Some("done"));
    // Another kind one second later still plays.
    assert_eq!(notify_state_change(&mut t, true, "attention", 101_000).as_deref(), Some("attention"));
    // The same kind one second later does not.
    assert_eq!(notify_state_change(&mut t, true, "done", 101_000), None);
    assert_eq!(notify_state_change(&mut t, true, "attention", 105_000), None);
    assert_eq!(t.last_done_ms, 100_000);
    assert_eq!(t.last_attention_ms, 101_000);
}
