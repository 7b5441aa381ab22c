//! What the keyboard event tap does with each event: which events the
//! hotkey consumes, and what it reports.

use vstd::prelude::*;

use crate::config::modifier_flags_of;
use crate::keys::{modifier_bits, ALTERNATE_BIT, COMMAND_BIT, CONTROL_BIT, MODIFIER_MASK, SHIFT_BIT};

verus! {

/// What the event tap reports.
#[derive(Clone, Copy, Debug, PartialEq, Eq, Structural)]
pub enum HotkeyEvent {
    /// The hotkey was pressed.
    Activate,
    /// The system disabled the tap.
    TapDisabled,
}

/// The kind of an event that reaches the tap.
#[derive(Clone, Copy, Debug, PartialEq, Eq, Structural)]
pub enum TapEventKind {
    KeyDown,
    TapDisabledByTimeout,
    TapDisabledByUserInput,
    Other,
}

/// What the tap does with an event: what it reports, and whether the event
/// goes on to the focused application.
#[derive(Clone, Copy, Debug, PartialEq, Eq, Structural)]
pub struct TapDecision {
    pub report: Option<HotkeyEvent>,
    pub pass_through: bool,
}

/// A key-down with this keycode and these flags is the hotkey: the keycode
/// is the trigger and the held modifiers (alt, cmd, shift, ctrl) are
/// exactly the required ones.
pub open spec fn is_hotkey_press(keycode: i64, flags: u64, trigger_keycode: i64, required_flags: u64) -> bool {
    keycode == trigger_keycode && flags & MODIFIER_MASK == required_flags
}

/// The decision for an event.
pub open spec fn tap_decision_of(
    kind: TapEventKind,
    keycode: i64,
    flags: u64,
    trigger_keycode: i64,
    required_flags: u64,
) -> TapDecision {
    match kind {
        TapEventKind::TapDisabledByTimeout | TapEventKind::TapDisabledByUserInput => TapDecision {
            report: Some(HotkeyEvent::TapDisabled),
            pass_through: true,
        },
        TapEventKind::Other => TapDecision { report: None, pass_through: true },
        TapEventKind::KeyDown => if is_hotkey_press(keycode, flags, trigger_keycode, required_flags) {
            TapDecision { report: Some(HotkeyEvent::Activate), pass_through: false }
        } else {
            TapDecision { report: None, pass_through: true }
        },
    }
}

/// Decides what the tap does with an event: a disabled tap is reported and
/// the event passed on; the hotkey is reported and consumed; every other
/// event is passed on unreported.
pub fn decide_tap_event(
    kind: TapEventKind,
    keycode: i64,
    flags: u64,
    trigger_keycode: i64,
    required_flags: u64,
) -> (r: TapDecision)
    ensures
        r == tap_decision_of(kind, keycode, flags, trigger_keycode, required_flags),
{
    match kind {
        TapEventKind::TapDisabledByTimeout | TapEventKind::TapDisabledByUserInput => TapDecision {
            report: Some(HotkeyEvent::TapDisabled),
            pass_through: true,
        },
        TapEventKind::Other => TapDecision { report: None, pass_through: true },
        TapEventKind::KeyDown => {
            let active = flags & MODIFIER_MASK;
            if keycode == trigger_keycode && active == required_flags {
                TapDecision { report: Some(HotkeyEvent::Activate), pass_through: false }
            } else {
                TapDecision { report: None, pass_through: true }
            }
        },
    }
}

proof fn lemma_union_in_mask(f: u64, b: u64)
    by (bit_vector)
    requires
        f & 0x001e_0000u64 == f,
        b == 0x0002_0000u64 || b == 0x0004_0000u64 || b == 0x0008_0000u64 || b == 0x0010_0000u64,
    ensures
        (f | b) & 0x001e_0000u64 == f | b,
{
}

/// The flags of a hotkey's modifiers are modifier bits only.
pub proof fn law_modifier_flags_in_mask(mods: Seq<Seq<char>>)
    ensures
        modifier_flags_of(mods) matches Ok(f) ==> f & MODIFIER_MASK == f,
    decreases mods.len(),
{
    if mods.len() > 0 {
        law_modifier_flags_in_mask(mods.drop_last());
        if let Ok(f) = modifier_flags_of(mods) {
            let prev = modifier_flags_of(mods.drop_last())->Ok_0;
            let b = modifier_bits(mods.last())->0;
            lemma_union_in_mask(prev, b);
        }
    } else {
        assert(0u64 & 0x001e_0000u64 == 0u64) by (bit_vector);
    }
}

/// Flags other than the four modifiers (caps lock, the numeric pad, a
/// function key) do not change whether a press is the hotkey; an extra
/// held modifier does.
pub proof fn law_only_modifiers_count(keycode: i64, trigger: i64, required: u64, other: u64, extra: u64)
    requires
        required & MODIFIER_MASK == required,
        other & MODIFIER_MASK == 0,
        extra == SHIFT_BIT || extra == CONTROL_BIT || extra == ALTERNATE_BIT || extra == COMMAND_BIT,
        required & extra == 0,
    ensures
        is_hotkey_press(keycode, required | other, trigger, required) <==> keycode == trigger,
        !is_hotkey_press(keycode, required | extra | other, trigger, required),
{
    assert((required | other) & 0x001e_0000u64 == required) by (bit_vector)
        requires
            required & 0x001e_0000u64 == required,
            other & 0x001e_0000u64 == 0,
    ;
    assert((required | extra | other) & 0x001e_0000u64 != required) by (bit_vector)
        requires
            required & 0x001e_0000u64 == required,
            other & 0x001e_0000u64 == 0,
            extra == 0x0002_0000u64 || extra == 0x0004_0000u64 || extra == 0x0008_0000u64 || extra
                == 0x0010_0000u64,
            required & extra == 0,
    ;
}

/// A key-down is reported as the hotkey and consumed exactly where its
/// keycode is the trigger and its shift, control, option and command bits
/// (0x1e0000) are exactly the required ones; every other key-down is passed
/// on unreported. A disabled tap is reported and passed on; any other event
/// is passed on unreported.
pub proof fn law_tap_decision(keycode: i64, flags: u64, trigger: i64, required: u64)
    ensures
        ({
            let d = tap_decision_of(TapEventKind::KeyDown, keycode, flags, trigger, required);
            &&& (d.report == Some(HotkeyEvent::Activate)) <==> (keycode == trigger && flags
                & 0x001e_0000u64 == required)
            &&& d.report is None || d.report == Some(HotkeyEvent::Activate)
            &&& d.pass_through <==> d.report is None
        }),
        tap_decision_of(TapEventKind::TapDisabledByTimeout, keycode, flags, trigger, required)
            == (TapDecision { report: Some(HotkeyEvent::TapDisabled), pass_through: true }),
        tap_decision_of(TapEventKind::TapDisabledByUserInput, keycode, flags, trigger, required)
            == (TapDecision { report: Some(HotkeyEvent::TapDisabled), pass_through: true }),
        tap_decision_of(TapEventKind::Other, keycode, flags, trigger, required) == (TapDecision {
            report: None,
            pass_through: true,
        }),
{
}

/// Each held modifier counts: with the trigger key down, control, shift,
/// option or command held beyond the required ones, or a required one not
/// held, is no hotkey.
pub proof fn law_each_modifier_counts(trigger: i64, required: u64, bit: u64)
    requires
        required & 0x001e_0000u64 == required,
        bit == 0x0002_0000u64 || bit == 0x0004_0000u64 || bit == 0x0008_0000u64 || bit
            == 0x0010_0000u64,
    ensures
        tap_decision_of(TapEventKind::KeyDown, trigger, required, trigger, required).report == Some(
            HotkeyEvent::Activate,
        ),
        tap_decision_of(TapEventKind::KeyDown, trigger, required ^ bit, trigger, required).report
            is None,
{
    assert(required & 0x001e_0000u64 == required ==> (required ^ bit) & 0x001e_0000u64 != required)
        by (bit_vector)
        requires
            bit == 0x0002_0000u64 || bit == 0x0004_0000u64 || bit == 0x0008_0000u64 || bit
                == 0x0010_0000u64,
    ;
}

} // verus!
