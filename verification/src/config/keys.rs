//! Modifiers, keysyms and key combinations.

use vstd::prelude::*;

verus! {

/// Keysym of the Tab key.
pub const KEY_TAB: u32 = 0xff09;

/// Keysym that XKB emits for Shift+Tab.
pub const KEY_ISO_LEFT_TAB: u32 = 0xfe20;

/// Keysym of `A`; the capital letters up to `Z` follow.
pub const KEY_UPPER_A: u32 = 0x41;

/// Keysym of `Z`.
pub const KEY_UPPER_Z: u32 = 0x5a;

/// How far a small letter's keysym lies above its capital's.
pub const CASE_DISTANCE: u32 = 0x20;

/// The modifier state of a keyboard, as far as bindings look at it.
#[derive(Clone, Copy, Debug, PartialEq, Eq, Default, Structural)]
pub struct ModifiersState {
    pub ctrl: bool,
    pub alt: bool,
    pub shift: bool,
    pub caps_lock: bool,
    pub logo: bool,
    pub num_lock: bool,
}

#[derive(Clone, Copy, Debug, Default, PartialEq, Eq, Hash, Structural)]
pub struct Modifiers {
    pub ctrl: bool,
    pub alt: bool,
    pub shift: bool,
    pub logo: bool,
}

impl Modifiers {
    /// No modifier at all.
    pub fn empty() -> (m: Modifiers)
        ensures
            m == (Modifiers { ctrl: false, alt: false, shift: false, logo: false }),
    {
        Modifiers { ctrl: false, alt: false, shift: false, logo: false }
    }

    /// What `from_state` reads out of a keyboard's state.
    pub open spec fn of_state(state: ModifiersState) -> Modifiers {
        Modifiers { ctrl: state.ctrl, alt: state.alt, shift: state.shift, logo: state.logo }
    }

    /// The four modifiers that bindings know; the locks are left out.
    pub fn from_state(state: &ModifiersState) -> (m: Modifiers)
        ensures
            m == Self::of_state(*state),
    {
        Modifiers { ctrl: state.ctrl, alt: state.alt, shift: state.shift, logo: state.logo }
    }
}

/// Which physical key acts as the window-manager modifier.
#[derive(Clone, Copy, Debug, PartialEq, Eq, Structural)]
pub enum ModKey {
    Alt,
    Super,
}

impl ModKey {
    /// Base modifier pattern with only the WM mod key set.
    pub fn base(self) -> (m: Modifiers)
        ensures
            m == (Modifiers {
                ctrl: false,
                alt: self is Alt,
                shift: false,
                logo: self is Super,
            }),
    {
        match self {
            ModKey::Alt => Modifiers { alt: true, ..Modifiers::empty() },
            ModKey::Super => Modifiers { logo: true, ..Modifiers::empty() },
        }
    }

    /// Check if this mod key is pressed in the given modifier state.
    pub fn is_pressed(self, state: &ModifiersState) -> (b: bool)
        ensures
            b == (match self {
                ModKey::Alt => state.alt,
                ModKey::Super => state.logo,
            }),
    {
        match self {
            ModKey::Alt => state.alt,
            ModKey::Super => state.logo,
        }
    }
}

/// Which modifier must be held during window cycling (Alt-Tab style).
#[derive(Clone, Copy, Debug, PartialEq, Eq, Structural)]
pub enum CycleModifier {
    Alt,
    Ctrl,
}

impl CycleModifier {
    pub fn is_pressed(self, state: &ModifiersState) -> (b: bool)
        ensures
            b == (match self {
                CycleModifier::Alt => state.alt,
                CycleModifier::Ctrl => state.ctrl,
            }),
    {
        match self {
            CycleModifier::Alt => state.alt,
            CycleModifier::Ctrl => state.ctrl,
        }
    }

    /// Base modifier pattern with only the cycling modifier set.
    pub fn base(self) -> (m: Modifiers)
        ensures
            m == (Modifiers {
                ctrl: self is Ctrl,
                alt: self is Alt,
                shift: false,
                logo: false,
            }),
    {
        match self {
            CycleModifier::Alt => Modifiers { alt: true, ..Modifiers::empty() },
            CycleModifier::Ctrl => Modifiers { ctrl: true, ..Modifiers::empty() },
        }
    }
}

/// An XKB keysym.
#[derive(Clone, Copy, Debug, PartialEq, Eq, Hash, Structural)]
pub struct Keysym {
    pub raw: u32,
}

#[derive(Clone, Copy, Debug, PartialEq, Eq, Hash, Structural)]
pub struct KeyCombo {
    pub modifiers: Modifiers,
    pub sym: Keysym,
}

impl KeyCombo {
    /// What `normalize` makes of a combination.
    pub open spec fn normalized(self) -> KeyCombo {
        if KEY_UPPER_A <= self.sym.raw <= KEY_UPPER_Z {
            KeyCombo {
                modifiers: self.modifiers,
                sym: Keysym { raw: (self.sym.raw + CASE_DISTANCE) as u32 },
            }
        } else if self.sym.raw == KEY_ISO_LEFT_TAB {
            KeyCombo {
                modifiers: Modifiers { shift: true, ..self.modifiers },
                sym: Keysym { raw: KEY_TAB },
            }
        } else {
            self
        }
    }

    /// Normalize keysym quirks so bindings match intuitively:
    /// - uppercase letters (A-Z) become lowercase (a-z), Shift untouched;
    /// - ISO_Left_Tab becomes Tab + Shift (XKB emits ISO_Left_Tab for Shift+Tab).
    pub fn normalize(&mut self)
        ensures
            *final(self) == old(self).normalized(),
    {
        let raw: u32 = self.sym.raw;
        if KEY_UPPER_A <= raw && raw <= KEY_UPPER_Z {
            self.sym = Keysym { raw: raw + CASE_DISTANCE };
        } else if raw == KEY_ISO_LEFT_TAB {
            self.sym = Keysym { raw: KEY_TAB };
            self.modifiers.shift = true;
        }
    }
}

/// Normalizing a combination a second time changes nothing.
pub proof fn lemma_normalized_is_stable(combo: KeyCombo)
    ensures
        combo.normalized().normalized() == combo.normalized(),
{
}

/// Normalizing never clears a modifier, never sets one but Shift, and touches
/// Shift only for ISO_Left_Tab.
pub proof fn lemma_normalized_keeps_modifiers(combo: KeyCombo)
    ensures
        combo.normalized().modifiers == (Modifiers {
            shift: combo.modifiers.shift || combo.sym.raw == KEY_ISO_LEFT_TAB,
            ..combo.modifiers
        }),
{
}

/// Normalizing makes capital letters small, one by one, and Shift+Tab out of
/// ISO_Left_Tab; every other keysym stays.
pub proof fn lemma_normalized_keysym(combo: KeyCombo)
    ensures
        0x41 <= combo.sym.raw <= 0x5a ==> combo.normalized().sym.raw == combo.sym.raw + 0x20,
        combo.sym.raw == 0xfe20 ==> combo.normalized().sym.raw == 0xff09
            && combo.normalized().modifiers.shift,
        !(0x41 <= combo.sym.raw <= 0x5a) && combo.sym.raw != 0xfe20 ==> combo.normalized() == combo,
        combo.sym.raw != 0xfe20 ==> combo.normalized().modifiers == combo.modifiers,
{
}

/// A capital letter and its small one are the same key for a binding, with the same
/// modifiers; two different small letters are not.
pub proof fn lemma_case_does_not_matter(modifiers: Modifiers, upper: u32, lower: u32)
    requires
        0x41 <= upper <= 0x5a,
        lower == upper + 0x20,
    ensures
        (KeyCombo { modifiers, sym: Keysym { raw: upper } }).normalized() == (KeyCombo {
            modifiers,
            sym: Keysym { raw: lower },
        }).normalized(),
        (KeyCombo { modifiers, sym: Keysym { raw: lower } }).normalized() == (KeyCombo {
            modifiers,
            sym: Keysym { raw: lower },
        }),
{
}

/// Of a keyboard's state a binding sees the four modifiers and not the locks.
pub proof fn lemma_locks_do_not_matter(a: ModifiersState, b: ModifiersState)
    ensures
        Modifiers::of_state(a).ctrl == a.ctrl,
        Modifiers::of_state(a).alt == a.alt,
        Modifiers::of_state(a).shift == a.shift,
        Modifiers::of_state(a).logo == a.logo,
        a.ctrl == b.ctrl && a.alt == b.alt && a.shift == b.shift && a.logo == b.logo
            ==> Modifiers::of_state(a) == Modifiers::of_state(b),
{
}

} // verus!
