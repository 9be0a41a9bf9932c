//! The Quick Accent keyboard monitor: the keycode table read from the X
//! server, and the state machine that turns raw key events into the moment
//! the accent picker opens.

use std::collections::HashMap;
use vstd::prelude::*;

use crate::accents::{accents_of, has_accents, ActivationKey};
use crate::keysyms::{key_kp_space, key_left, key_right, key_space};
use crate::text::views;

verus! {

broadcast use vstd::std_specs::hash::group_hash_axioms;

// ---------------------------------------------------------------------------
// Keysyms
// ---------------------------------------------------------------------------

/// A Latin letter keysym, upper or lower case.
pub open spec fn is_alpha(k: u32) -> bool {
    (0x41 <= k <= 0x5a) || (0x61 <= k <= 0x7a)
}

/// Whether `keysym` is a Latin letter.
pub fn is_alpha_keysym(keysym: u32) -> (b: bool)
    ensures
        b == is_alpha(keysym),
{
    (0x41 <= keysym && keysym <= 0x5a) || (0x61 <= keysym && keysym <= 0x7a)
}

/// The character of a keysym, upper case letters folded to lower case, taken
/// from the keysym's low byte.
pub open spec fn keysym_char(k: u32) -> char {
    let lower: u32 = if 0x41 <= k <= 0x5a {
        (k + 0x20) as u32
    } else {
        k
    };
    (lower as u8) as char
}

/// The character of a keysym.
pub fn keysym_to_char(keysym: u32) -> (c: char)
    ensures
        c == keysym_char(keysym),
        is_alpha(keysym) ==> 'a' <= c <= 'z',
{
    let lower: u32 = if 0x41 <= keysym && keysym <= 0x5a {
        keysym + 0x20
    } else {
        keysym
    };
    let b: u8 = lower as u8;
    proof {
        if is_alpha(keysym) {
            assert(lower < 256);
            assert(b == lower) by (bit_vector)
                requires
                    lower < 256,
                    b == lower as u8,
            ;
        }
    }
    b as char
}

/// The space bar, on the main block or the keypad.
pub open spec fn is_space(k: u32) -> bool {
    k == 0x20 || k == 0xff80
}

/// Whether `keysym` is a space bar.
pub fn is_space_keysym(keysym: u32) -> (b: bool)
    ensures
        b == is_space(keysym),
{
    keysym == key_space() || keysym == key_kp_space()
}

/// The keys that open the picker for each activation setting.
pub open spec fn is_activation(k: u32, activation: ActivationKey) -> bool {
    match activation {
        ActivationKey::Space => is_space(k),
        ActivationKey::LeftRight => k == 0xff51 || k == 0xff53,
        ActivationKey::Any => is_space(k) || k == 0xff51 || k == 0xff53,
    }
}

/// Whether `keysym` opens the picker under `activation`.
pub fn is_activation_keysym(keysym: u32, activation: ActivationKey) -> (b: bool)
    ensures
        b == is_activation(keysym, activation),
{
    match activation {
        ActivationKey::Space => is_space_keysym(keysym),
        ActivationKey::LeftRight => keysym == key_left() || keysym == key_right(),
        ActivationKey::Any => is_space_keysym(keysym) || keysym == key_left() || keysym
            == key_right(),
    }
}

// ---------------------------------------------------------------------------
// The keycode table
// ---------------------------------------------------------------------------

/// The keycode of the `offset`-th group of keysyms, counted from `min`.
pub open spec fn keycode_at(min: u8, offset: nat) -> u8 {
    min.saturating_add(offset as u8)
}

/// The keycode table: each group of `per` keysyms (the last may be shorter)
/// belongs to the next keycode, and gives that keycode its first keysym
/// unless that keysym is zero. Later groups overwrite earlier ones.
pub open spec fn keymap_from(min: u8, per: nat, ks: Seq<u32>, offset: nat, m: Map<u8, u32>) -> Map<
    u8,
    u32,
>
    decreases ks.len(),
{
    if per == 0 || ks.len() == 0 {
        m
    } else {
        let m2 = if ks[0] != 0 {
            m.insert(keycode_at(min, offset), ks[0])
        } else {
            m
        };
        let rest = if ks.len() <= per {
            Seq::empty()
        } else {
            ks.skip(per as int)
        };
        keymap_from(min, per, rest, offset + 1, m2)
    }
}

/// Builds the keycode table from the keyboard mapping the X server reports:
/// the first keycode, the number of keysyms per keycode and the keysyms.
pub fn build_keymap(min: u8, keysyms_per_keycode: u8, keysyms: &Vec<u32>) -> (m: HashMap<u8, u32>)
    ensures
        m@ == keymap_from(min, keysyms_per_keycode as nat, keysyms@, 0, Map::empty()),
{
    let mut m: HashMap<u8, u32> = HashMap::new();
    if keysyms_per_keycode == 0 {
        return m;
    }
    let per: usize = keysyms_per_keycode as usize;
    let ghost target = keymap_from(min, per as nat, keysyms@, 0, Map::empty());
    let mut pos: usize = 0;
    let mut offset: usize = 0;
    assert(keysyms@.skip(0) =~= keysyms@);
    while pos < keysyms.len()
        invariant
            per == keysyms_per_keycode as usize,
            per > 0,
            pos <= keysyms.len(),
            offset <= pos,
            target == keymap_from(min, per as nat, keysyms@, 0, Map::empty()),
            target == keymap_from(min, per as nat, keysyms@.skip(pos as int), offset as nat, m@),
        decreases keysyms.len() - pos,
    {
        let ghost ks = keysyms@.skip(pos as int);
        let first = keysyms[pos];
        assert(ks[0] == first);
        if first != 0 {
            let kc = min.saturating_add(offset as u8);
            m.insert(kc, first);
        }
        if keysyms.len() - pos <= per {
            pos = keysyms.len();
            assert(keysyms@.skip(pos as int) =~= Seq::<u32>::empty());
        } else {
            assert(ks.skip(per as int) =~= keysyms@.skip(pos + per));
            pos = pos + per;
        }
        offset = offset + 1;
    }
    assert(keysyms@.skip(pos as int) =~= Seq::<u32>::empty());
    m
}

/// The keysym of a keycode in the table, zero for a keycode it lacks.
pub fn keysym_for(map: &HashMap<u8, u32>, keycode: u8) -> (k: u32)
    ensures
        k == (if map@.contains_key(keycode) {
            map@[keycode]
        } else {
            0
        }),
{
    match map.get(&keycode) {
        Some(v) => *v,
        None => 0,
    }
}

// ---------------------------------------------------------------------------
// The state machine
// ---------------------------------------------------------------------------

/// Where the monitor stands: nothing held; a letter with accents held down
/// (and how many characters it has typed so far); or the activation key
/// pressed while the letter is held, at a time in milliseconds.
#[derive(Debug, Clone, Copy, PartialEq, Eq, Structural)]
pub enum AccentState {
    Idle,
    LetterHeld { letter: char, keycode: u32, chars_typed: u32 },
    Pending { letter: char, keycode: u32, activated_ms: u64, chars_typed: u32 },
}

/// The monitor's answer to one raw key event: `detail` is the event's
/// keycode and `keysym` the keysym the table gives it.
pub open spec fn key_step(
    s: AccentState,
    is_press: bool,
    detail: u32,
    keysym: u32,
    langs: Seq<Seq<char>>,
    activation: ActivationKey,
    now_ms: u64,
) -> AccentState {
    match s {
        AccentState::Idle => {
            if is_press && is_alpha(keysym) && accents_of(keysym_char(keysym), langs).len() > 0 {
                AccentState::LetterHeld { letter: keysym_char(keysym), keycode: detail, chars_typed: 1 }
            } else {
                AccentState::Idle
            }
        },
        AccentState::LetterHeld { letter, keycode, chars_typed } => {
            if !is_press && detail == keycode {
                AccentState::Idle
            } else if is_press && detail == keycode {
                AccentState::LetterHeld { letter, keycode, chars_typed: (chars_typed + 1) as u32 }
            } else if is_press && is_activation(keysym, activation) {
                let extra: int = if is_space(keysym) {
                    1
                } else {
                    0
                };
                AccentState::Pending {
                    letter,
                    keycode,
                    activated_ms: now_ms,
                    chars_typed: (chars_typed + extra) as u32,
                }
            } else if is_press {
                AccentState::Idle
            } else {
                s
            }
        },
        AccentState::Pending { keycode, .. } => {
            if !is_press && detail == keycode {
                AccentState::Idle
            } else {
                s
            }
        },
    }
}

/// The count of typed characters does not run past `u32::MAX` on this event.
pub open spec fn key_step_fits(
    s: AccentState,
    is_press: bool,
    detail: u32,
    keysym: u32,
    activation: ActivationKey,
) -> bool {
    match s {
        AccentState::LetterHeld { keycode, chars_typed, .. } => (is_press && (detail == keycode || (
        is_activation(keysym, activation) && is_space(keysym)))) ==> chars_typed < u32::MAX,
        _ => true,
    }
}

/// The next state after a raw key event.
pub fn on_key(
    state: AccentState,
    is_press: bool,
    detail: u32,
    keysym: u32,
    languages: &[String],
    activation: ActivationKey,
    now_ms: u64,
) -> (next: AccentState)
    requires
        key_step_fits(state, is_press, detail, keysym, activation),
    ensures
        next == key_step(state, is_press, detail, keysym, views(languages@), activation, now_ms),
{
    let is_letter = is_alpha_keysym(keysym);
    let is_act = is_activation_keysym(keysym, activation);
    match state {
        AccentState::Idle => {
            if is_press && is_letter {
                let letter = keysym_to_char(keysym);
                if has_accents(letter, languages) {
                    AccentState::LetterHeld { letter, keycode: detail, chars_typed: 1 }
                } else {
                    AccentState::Idle
                }
            } else {
                AccentState::Idle
            }
        },
        AccentState::LetterHeld { letter, keycode, chars_typed } => {
            if !is_press && detail == keycode {
                AccentState::Idle
            } else if is_press && detail == keycode {
                AccentState::LetterHeld { letter, keycode, chars_typed: chars_typed + 1 }
            } else if is_press && is_act {
                let extra: u32 = if is_space_keysym(keysym) {
                    1
                } else {
                    0
                };
                AccentState::Pending {
                    letter,
                    keycode,
                    activated_ms: now_ms,
                    chars_typed: chars_typed + extra,
                }
            } else if is_press {
                AccentState::Idle
            } else {
                state
            }
        },
        AccentState::Pending { keycode, .. } => {
            if !is_press && detail == keycode {
                AccentState::Idle
            } else {
                state
            }
        },
    }
}

/// The milliseconds from `since` to `now`, zero if `now` comes first.
pub open spec fn elapsed_ms(now: u64, since: u64) -> int {
    if now >= since {
        now - since
    } else {
        0
    }
}

/// The monitor's answer to the passing of time: once the delay has run out
/// after the activation key, it goes back to idle and asks for the picker
/// for the held letter, erasing the characters typed.
pub open spec fn tick_step(s: AccentState, now_ms: u64, delay_ms: u64) -> (AccentState, Option<(char, u32)>) {
    match s {
        AccentState::Pending { letter, activated_ms, chars_typed, .. } => {
            if elapsed_ms(now_ms, activated_ms) >= delay_ms {
                (AccentState::Idle, Some((letter, chars_typed)))
            } else {
                (s, None)
            }
        },
        _ => (s, None),
    }
}

/// The next state at time `now_ms`, and the letter and erase count to open
/// the picker with, if its time has come.
pub fn on_tick(state: AccentState, now_ms: u64, delay_ms: u64) -> (r: (AccentState, Option<(char, u32)>))
    ensures
        r == tick_step(state, now_ms, delay_ms),
{
    match state {
        AccentState::Pending { letter, activated_ms, chars_typed, .. } => {
            let elapsed: u64 = if now_ms >= activated_ms {
                now_ms - activated_ms
            } else {
                0
            };
            if elapsed >= delay_ms {
                (AccentState::Idle, Some((letter, chars_typed)))
            } else {
                (state, None)
            }
        },
        _ => (state, None),
    }
}

/// A released letter cancels a pending picker: the monitor never opens the
/// picker for a letter that was let go before the delay ran out.
pub proof fn law_release_cancels(
    s: AccentState,
    keysym: u32,
    langs: Seq<Seq<char>>,
    activation: ActivationKey,
    now_ms: u64,
    later_ms: u64,
    delay_ms: u64,
)
    requires
        !(s is Idle),
    ensures
        ({
            let kc = match s {
                AccentState::LetterHeld { keycode, .. } => keycode,
                AccentState::Pending { keycode, .. } => keycode,
                AccentState::Idle => 0,
            };
            let next = key_step(s, false, kc, keysym, langs, activation, now_ms);
            next == AccentState::Idle && tick_step(next, later_ms, delay_ms).1 is None
        }),
{
}

/// The picker opens only for a letter that has accents in the active
/// languages: from idle, any run of key events and ticks that ends in a
/// request for the picker started with such a letter held.
pub proof fn law_pending_has_accents(
    s: AccentState,
    is_press: bool,
    detail: u32,
    keysym: u32,
    langs: Seq<Seq<char>>,
    activation: ActivationKey,
    now_ms: u64,
)
    requires
        held_has_accents(s, langs),
    ensures
        held_has_accents(key_step(s, is_press, detail, keysym, langs, activation, now_ms), langs),
{
}

/// The letter the monitor holds, if any, has accents in `langs`.
pub open spec fn held_has_accents(s: AccentState, langs: Seq<Seq<char>>) -> bool {
    match s {
        AccentState::Idle => true,
        AccentState::LetterHeld { letter, .. } => accents_of(letter, langs).len() > 0,
        AccentState::Pending { letter, .. } => accents_of(letter, langs).len() > 0,
    }
}

/// A picker request carries a letter with accents: when the state holds only
/// such letters, so does what a tick asks for.
pub proof fn law_tick_request_has_accents(s: AccentState, langs: Seq<Seq<char>>, now_ms: u64, delay_ms: u64)
    requires
        held_has_accents(s, langs),
    ensures
        match tick_step(s, now_ms, delay_ms).1 {
            Some((letter, _)) => accents_of(letter, langs).len() > 0,
            None => true,
        },
        held_has_accents(tick_step(s, now_ms, delay_ms).0, langs),
{
}

} // verus!
