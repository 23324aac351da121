//! Notification sounds: which sound a mode calls for, and a cooldown so that each kind of
//! sound plays at most once every ten seconds.
use vstd::prelude::*;
use vstd::string::*;

use crate::text::is_text;

verus! {

/// How long an automatic notification sound blocks the next one, in milliseconds.
pub const SOUND_COOLDOWN_MS: i64 = 10_000;

/// The sounds that exist: `attention` and `done`.
pub open spec fn is_known_sound(name: Seq<char>) -> bool {
    name == "attention"@ || name == "done"@
}

/// Whether a sound of this name can be played (only `attention` and `done`).
pub fn playable_sound(name: &str) -> (b: bool)
    ensures
        b == is_known_sound(name@),
{
    let s = String::from_str(name);
    is_text(&s, "attention") || is_text(&s, "done")
}

/// The sound a mode calls for: `done` for done, `attention` for attention, none otherwise.
pub open spec fn sound_for_mode(mode: Seq<char>) -> Option<Seq<char>> {
    if mode == "done"@ {
        Some("done"@)
    } else if mode == "attention"@ {
        Some("attention"@)
    } else {
        None
    }
}

/// When the last automatic sound of each kind played, in milliseconds since the epoch
/// (0: never). Each kind has its own cooldown.
pub struct SoundThrottle {
    /// The last `done` sound.
    pub last_done_ms: i64,
    /// The last `attention` sound.
    pub last_attention_ms: i64,
}

impl SoundThrottle {
    /// No sound played yet.
    pub fn new() -> (r: Self)
        ensures
            r.last_done_ms == 0,
            r.last_attention_ms == 0,
    {
        SoundThrottle { last_done_ms: 0, last_attention_ms: 0 }
    }
}

/// When the last sound of kind `name` played.
pub open spec fn last_played(t: SoundThrottle, name: Seq<char>) -> i64 {
    if name == "done"@ {
        t.last_done_ms
    } else {
        t.last_attention_ms
    }
}

/// The throttle after a sound of kind `name` played at `now`; the other kind is untouched.
pub open spec fn played(t: SoundThrottle, name: Seq<char>, now: i64) -> SoundThrottle {
    if name == "done"@ {
        SoundThrottle { last_done_ms: now, ..t }
    } else {
        SoundThrottle { last_attention_ms: now, ..t }
    }
}

/// The outcome of a mode change at `now`: the sound to play, if any, and the throttle
/// afterwards. A sound is refused within the cooldown of the last sound of the same kind.
pub open spec fn notify_step(t: SoundThrottle, sound_enabled: bool, mode: Seq<char>, now: i64) -> (
    Option<Seq<char>>,
    SoundThrottle,
) {
    if !sound_enabled {
        (None, t)
    } else {
        match sound_for_mode(mode) {
            None => (None, t),
            Some(name) => if now - last_played(t, name) < SOUND_COOLDOWN_MS {
                (None, t)
            } else {
                (Some(name), played(t, name, now))
            },
        }
    }
}

/// Whether `now` is at least the cooldown after `last`.
fn cooled_down(now: i64, last: i64) -> (b: bool)
    ensures
        b == !(now - last < SOUND_COOLDOWN_MS),
{
    !((now as i128) - (last as i128) < (SOUND_COOLDOWN_MS as i128))
}

/// The automatic sound for a mode change at `now`: none when sounds are off or the mode
/// calls for none, and none within ten seconds of the last sound of the same kind.
pub fn notify_state_change(throttle: &mut SoundThrottle, sound_enabled: bool, mode: &str, now: i64) -> (r:
    Option<String>)
    ensures
        ({
            let (sound, t) = notify_step(*old(throttle), sound_enabled, mode@, now);
            &&& *final(throttle) == t
            &&& match sound {
                Some(name) => r matches Some(s) && s@ == name,
                None => r is None,
            }
        }),
{
    if !sound_enabled {
        return None;
    }
    let m = String::from_str(mode);
    if is_text(&m, "done") {
        proof {
            reveal_strlit("done");
            reveal_strlit("attention");
        }
        if !cooled_down(now, throttle.last_done_ms) {
            return None;
        }
        throttle.last_done_ms = now;
        Some(String::from_str("done"))
    } else if is_text(&m, "attention") {
        proof {
            reveal_strlit("done");
            reveal_strlit("attention");
            assert("done"@[0] != "attention"@[0]);
        }
        if !cooled_down(now, throttle.last_attention_ms) {
            return None;
        }
        throttle.last_attention_ms = now;
        Some(String::from_str("attention"))
    } else {
        None
    }
}

/// The mode last handed on, so that a sound plays only when the mode changes.
pub struct ModeWatch {
    pub last: String,
}

impl ModeWatch {
    /// No mode handed on yet.
    pub fn new() -> (r: Self)
        ensures
            r.last@ == Seq::<char>::empty(),
    {
        ModeWatch { last: String::new() }
    }

    /// Records a mode; tells whether it differs from the one recorded before.
    pub fn changed(&mut self, mode: &String) -> (b: bool)
        ensures
            b == (old(self).last@ != mode@),
            final(self).last@ == mode@,
    {
        if self.last == *mode {
            false
        } else {
            self.last = mode.clone();
            true
        }
    }
}

/// Two automatic sounds of the same kind are at least ten seconds apart: after a sound at
/// `t1`, the same sound before `t1` plus the cooldown plays nothing.
pub proof fn lemma_cooldown(
    throttle: SoundThrottle,
    enabled1: bool,
    mode1: Seq<char>,
    t1: i64,
    enabled2: bool,
    mode2: Seq<char>,
    t2: i64,
)
    requires
        notify_step(throttle, enabled1, mode1, t1).0 is Some,
        sound_for_mode(mode2) == sound_for_mode(mode1),
        t2 - t1 < SOUND_COOLDOWN_MS,
    ensures
        notify_step(notify_step(throttle, enabled1, mode1, t1).1, enabled2, mode2, t2).0 is None,
{
    reveal_strlit("done");
    reveal_strlit("attention");
    assert("done"@[0] != "attention"@[0]);
}

/// A sound of one kind does not hold back the other kind: after a `done` sound, an
/// `attention` sound is judged only by the last `attention` sound, and the other way round.
pub proof fn lemma_kinds_independent(
    throttle: SoundThrottle,
    enabled1: bool,
    mode1: Seq<char>,
    t1: i64,
    enabled2: bool,
    mode2: Seq<char>,
    t2: i64,
)
    requires
        sound_for_mode(mode1) is Some,
        sound_for_mode(mode2) is Some,
        sound_for_mode(mode1) != sound_for_mode(mode2),
    ensures
        notify_step(notify_step(throttle, enabled1, mode1, t1).1, enabled2, mode2, t2).0
            == notify_step(throttle, enabled2, mode2, t2).0,
{
    reveal_strlit("done");
    reveal_strlit("attention");
    assert("done"@[0] != "attention"@[0]);
}

/// With sounds on, a `done` mode plays `done` and an `attention` mode plays `attention`
/// once their own cooldown has passed, and the time of that kind moves to `now`; any other
/// mode, or sounds off, plays nothing and changes nothing.
pub proof fn lemma_sound_of_mode(t: SoundThrottle, enabled: bool, mode: Seq<char>, now: i64)
    ensures
        !enabled ==> notify_step(t, enabled, mode, now) == (None::<Seq<char>>, t),
        enabled && mode == "done"@ && now - t.last_done_ms >= SOUND_COOLDOWN_MS ==> notify_step(
            t,
            enabled,
            mode,
            now,
        ) == (Some("done"@), SoundThrottle { last_done_ms: now, ..t }),
        enabled && mode == "attention"@ && now - t.last_attention_ms >= SOUND_COOLDOWN_MS
            ==> notify_step(t, enabled, mode, now) == (
            Some("attention"@),
            SoundThrottle { last_attention_ms: now, ..t },
        ),
        mode != "done"@ && mode != "attention"@ ==> notify_step(t, enabled, mode, now) == (
            None::<Seq<char>>,
            t,
        ),
{
    reveal_strlit("done");
    reveal_strlit("attention");
    assert("done"@[0] != "attention"@[0]);
}

} // verus!
