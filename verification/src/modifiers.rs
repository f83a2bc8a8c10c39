//! Keyboard modifier tracking and matching, and the count of live objects
//! that keeps the input method loaded.
use vstd::prelude::*;

verus! {

pub const TF_MOD_ALT: u32 = 0x0001;

pub const TF_MOD_CONTROL: u32 = 0x0002;

pub const TF_MOD_SHIFT: u32 = 0x0004;

pub const TF_MOD_RALT: u32 = 0x0008;

pub const TF_MOD_RCONTROL: u32 = 0x0010;

pub const TF_MOD_RSHIFT: u32 = 0x0020;

pub const TF_MOD_LALT: u32 = 0x0040;

pub const TF_MOD_LCONTROL: u32 = 0x0080;

pub const TF_MOD_LSHIFT: u32 = 0x0100;

pub const TF_MOD_ON_KEYUP: u32 = 0x0200;

pub const TF_MOD_IGNORE_ALL_MODIFIER: u32 = 0x0400;

/// All the Alt flags: `TF_MOD_RALT | TF_MOD_LALT | TF_MOD_ALT`.
pub const TF_MOD_ALLALT: u32 = 0x0049;

/// All the Control flags: `TF_MOD_RCONTROL | TF_MOD_LCONTROL | TF_MOD_CONTROL`.
pub const TF_MOD_ALLCONTROL: u32 = 0x0092;

/// All the Shift flags: `TF_MOD_RSHIFT | TF_MOD_LSHIFT | TF_MOD_SHIFT`.
pub const TF_MOD_ALLSHIFT: u32 = 0x0124;

/// `TF_MOD_ON_KEYUP` together with the "Shift alone" marker.
pub const TF_MOD_ON_KEYUP_SHIFT_ONLY: u32 = 0x0001_0200;

pub const VK_SHIFT: u32 = 0x10;

pub const VK_CONTROL: u32 = 0x11;

pub const VK_MENU: u32 = 0x12;

/// One modifier group: when `expected` asks for the group's generic flag the
/// current state must hold it; otherwise the side-specific flags must agree.
pub open spec fn group_matches(current: u32, expected: u32, flag: u32, side_bits: u32) -> bool {
    if expected & flag != 0 {
        current & flag != 0
    } else {
        (expected ^ current) & side_bits == 0
    }
}

/// Whether the current modifier state satisfies an expected modifier set
/// (the matching rule of the text services framework).
pub open spec fn modifiers_match(current: u32, expected_raw: u32) -> bool {
    let expected = expected_raw & !TF_MOD_ON_KEYUP;
    if expected_raw & TF_MOD_IGNORE_ALL_MODIFIER != 0 {
        true
    } else if current == expected {
        true
    } else if current != 0 && expected == 0 {
        false
    } else {
        group_matches(current, expected, TF_MOD_ALT, 0x0048)
            && group_matches(current, expected, TF_MOD_SHIFT, 0x0120)
            && group_matches(current, expected, TF_MOD_CONTROL, 0x0090)
    }
}

fn group_check(current: u32, expected: u32, flag: u32, side_bits: u32) -> (r: bool)
    ensures
        r == group_matches(current, expected, flag, side_bits),
{
    if expected & flag != 0 {
        current & flag != 0
    } else {
        (expected ^ current) & side_bits == 0
    }
}

/// Whether `mod_current` satisfies `mod_expected`.
pub fn check_modifiers(mod_current: u32, mod_expected: u32) -> (r: bool)
    ensures
        r == modifiers_match(mod_current, mod_expected),
{
    let expected = mod_expected & !TF_MOD_ON_KEYUP;
    if mod_expected & TF_MOD_IGNORE_ALL_MODIFIER != 0 {
        return true;
    }
    if mod_current == expected {
        return true;
    }
    if mod_current != 0 && expected == 0 {
        return false;
    }
    group_check(mod_current, expected, TF_MOD_ALT, 0x0048) && group_check(
        mod_current,
        expected,
        TF_MOD_SHIFT,
        0x0120,
    ) && group_check(mod_current, expected, TF_MOD_CONTROL, 0x0090)
}

/// The tracked modifier state: the flags, and whether the key that was just
/// pressed is Shift, Control or Alt on its own.
#[derive(Clone, Copy, PartialEq, Eq, Structural, Debug)]
pub struct ModifierState {
    pub value: u32,
    pub shift_only: bool,
    pub ctrl_only: bool,
    pub alt_only: bool,
}

impl ModifierState {
    /// No modifier held.
    pub fn new() -> (s: Self)
        ensures
            s == (ModifierState { value: 0, shift_only: false, ctrl_only: false, alt_only: false }),
    {
        ModifierState { value: 0, shift_only: false, ctrl_only: false, alt_only: false }
    }
}

/// The flags after the key in `wparam` went down: the pressed modifier's
/// side is recorded, then each generic flag follows whether its key is held,
/// and a released key clears its whole group.
pub open spec fn updated_modifier_flags(
    previous: u32,
    wparam: usize,
    lparam: isize,
    menu_down: bool,
    ctrl_down: bool,
    shift_down: bool,
) -> u32 {
    let key = wparam & 0xff;
    let pressed = if key == VK_MENU as usize && menu_down {
        if lparam & 0x0100_0000 != 0 {
            previous | TF_MOD_RALT | TF_MOD_ALT
        } else {
            previous | TF_MOD_LALT | TF_MOD_ALT
        }
    } else if key == VK_CONTROL as usize && ctrl_down {
        if lparam & 0x0100_0000 != 0 {
            previous | TF_MOD_RCONTROL | TF_MOD_CONTROL
        } else {
            previous | TF_MOD_LCONTROL | TF_MOD_CONTROL
        }
    } else if key == VK_SHIFT as usize && shift_down {
        if (lparam >> 16u32) & 0x00ff == 0x36 {
            previous | TF_MOD_RSHIFT | TF_MOD_SHIFT
        } else {
            previous | TF_MOD_LSHIFT | TF_MOD_SHIFT
        }
    } else {
        previous
    };
    let with_alt = if menu_down {
        pressed | TF_MOD_ALT
    } else {
        pressed & !TF_MOD_ALLALT
    };
    let with_control = if ctrl_down {
        with_alt | TF_MOD_CONTROL
    } else {
        with_alt & !TF_MOD_ALLCONTROL
    };
    if shift_down {
        with_control | TF_MOD_SHIFT
    } else {
        with_control & !TF_MOD_ALLSHIFT
    }
}

/// Whether the key event is the first press (not an auto-repeat).
pub open spec fn is_first_press(lparam: isize) -> bool {
    lparam & 0x4000_0000 == 0
}

/// The state after a key-down event: `wparam` and `lparam` of the event,
/// and whether Alt, Control and Shift are held now.
pub fn update_modifiers(
    previous: ModifierState,
    wparam: usize,
    lparam: isize,
    menu_down: bool,
    ctrl_down: bool,
    shift_down: bool,
) -> (s: ModifierState)
    ensures
        s.value == updated_modifier_flags(
            previous.value,
            wparam,
            lparam,
            menu_down,
            ctrl_down,
            shift_down,
        ),
        s.alt_only == (wparam & 0xff == VK_MENU as usize && menu_down && is_first_press(lparam)
            && !ctrl_down && !shift_down),
        s.ctrl_only == (wparam & 0xff == VK_CONTROL as usize && ctrl_down && is_first_press(lparam)
            && !shift_down && !menu_down),
        s.shift_only == (wparam & 0xff == VK_SHIFT as usize && shift_down && is_first_press(lparam)
            && !menu_down && !ctrl_down),
{
    let mut modifiers = previous.value;
    let mut shift_only = false;
    let mut ctrl_only = false;
    let mut alt_only = false;
    let key = wparam & 0xff;
    if key == VK_MENU as usize {
        if menu_down {
            if lparam & 0x0100_0000 != 0 {
                modifiers = modifiers | TF_MOD_RALT | TF_MOD_ALT;
            } else {
                modifiers = modifiers | TF_MOD_LALT | TF_MOD_ALT;
            }
            if lparam & 0x4000_0000 == 0 {
                if !ctrl_down && !shift_down {
                    alt_only = true;
                }
            }
        }
    } else if key == VK_CONTROL as usize {
        if ctrl_down {
            if lparam & 0x0100_0000 != 0 {
                modifiers = modifiers | TF_MOD_RCONTROL | TF_MOD_CONTROL;
            } else {
                modifiers = modifiers | TF_MOD_LCONTROL | TF_MOD_CONTROL;
            }
            if lparam & 0x4000_0000 == 0 {
                if !shift_down && !menu_down {
                    ctrl_only = true;
                }
            }
        }
    } else if key == VK_SHIFT as usize {
        if shift_down {
            if (lparam >> 16u32) & 0x00ff == 0x36 {
                modifiers = modifiers | TF_MOD_RSHIFT | TF_MOD_SHIFT;
            } else {
                modifiers = modifiers | TF_MOD_LSHIFT | TF_MOD_SHIFT;
            }
            if lparam & 0x4000_0000 == 0 {
                if !menu_down && !ctrl_down {
                    shift_only = true;
                }
            }
        }
    }
    if menu_down {
        modifiers = modifiers | TF_MOD_ALT;
    } else {
        modifiers = modifiers & !TF_MOD_ALLALT;
    }
    if ctrl_down {
        modifiers = modifiers | TF_MOD_CONTROL;
    } else {
        modifiers = modifiers & !TF_MOD_ALLCONTROL;
    }
    if shift_down {
        modifiers = modifiers | TF_MOD_SHIFT;
    } else {
        modifiers = modifiers & !TF_MOD_ALLSHIFT;
    }
    ModifierState { value: modifiers, shift_only, ctrl_only, alt_only }
}

/// The current modifier flags.
pub fn modifiers_value(state: &ModifierState) -> (value: u32)
    ensures
        value == state.value,
{
    state.value
}

/// Count of live objects of the input method; the module may be unloaded
/// when it is not above zero. It starts at -1 and moves with wrap-around,
/// as an atomic counter does.
#[derive(Clone, Copy, PartialEq, Eq, Structural, Debug)]
pub struct DllRefCount {
    pub count: isize,
}

impl DllRefCount {
    pub fn new() -> (c: Self)
        ensures
            c.count == -1,
    {
        DllRefCount { count: -1 }
    }
}

/// One more live object.
pub fn dll_add_ref(counter: &mut DllRefCount)
    ensures
        final(counter).count == old(counter).count.wrapping_add(1),
{
    counter.count = counter.count.wrapping_add(1);
}

/// One live object fewer.
pub fn dll_release(counter: &mut DllRefCount)
    ensures
        final(counter).count == old(counter).count.wrapping_sub(1),
{
    counter.count = counter.count.wrapping_sub(1);
}

/// The current count.
pub fn dll_ref_count(counter: &DllRefCount) -> (count: isize)
    ensures
        count == counter.count,
{
    counter.count
}

/// An added reference that is released again leaves the count as it was.
pub proof fn lemma_add_ref_release(count: isize)
    ensures
        count.wrapping_add(1).wrapping_sub(1) == count,
{
}

} // verus!
