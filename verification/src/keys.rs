use vstd::prelude::*;

use crate::text::str_eq;

verus! {

/// A modifier key, as the display protocol's key-event masks name them.
#[derive(Clone, Copy, PartialEq, Eq, Structural, Debug, Hash)]
pub enum ModKey {
    Shift,
    Lock,
    Control,
    Mod1,
    Mod2,
    Mod3,
    Mod4,
    Mod5,
}

impl ModKey {
    /// The protocol's mask bit for this modifier.
    pub open spec fn spec_mask(self) -> u32 {
        match self {
            ModKey::Shift => 1,
            ModKey::Lock => 2,
            ModKey::Control => 4,
            ModKey::Mod1 => 8,
            ModKey::Mod2 => 16,
            ModKey::Mod3 => 32,
            ModKey::Mod4 => 64,
            ModKey::Mod5 => 128,
        }
    }

    pub fn mask(self) -> (r: u32)
        ensures
            r == self.spec_mask(),
    {
        match self {
            ModKey::Shift => 1,
            ModKey::Lock => 2,
            ModKey::Control => 4,
            ModKey::Mod1 => 8,
            ModKey::Mod2 => 16,
            ModKey::Mod3 => 32,
            ModKey::Mod4 => 64,
            ModKey::Mod5 => 128,
        }
    }

    /// The modifier a configuration word names, if any.
    pub open spec fn spec_from_str(s: Seq<char>) -> Option<ModKey> {
        if s == "Shift"@ {
            Some(ModKey::Shift)
        } else if s == "Lock"@ {
            Some(ModKey::Lock)
        } else if s == "Control"@ {
            Some(ModKey::Control)
        } else if s == "Mod1"@ {
            Some(ModKey::Mod1)
        } else if s == "Mod2"@ {
            Some(ModKey::Mod2)
        } else if s == "Mod3"@ {
            Some(ModKey::Mod3)
        } else if s == "Mod4"@ {
            Some(ModKey::Mod4)
        } else if s == "Mod5"@ {
            Some(ModKey::Mod5)
        } else {
            None
        }
    }

    /// Parses a configuration word; answers the error value exactly when the
    /// word names no modifier.
    pub fn from_str(s: &str) -> (r: Result<ModKey, ()>)
        ensures
            match r {
                Ok(k) => Self::spec_from_str(s@) == Some(k),
                Err(()) => Self::spec_from_str(s@) is None,
            },
    {
        if str_eq(s, "Shift") {
            Ok(ModKey::Shift)
        } else if str_eq(s, "Lock") {
            Ok(ModKey::Lock)
        } else if str_eq(s, "Control") {
            Ok(ModKey::Control)
        } else if str_eq(s, "Mod1") {
            Ok(ModKey::Mod1)
        } else if str_eq(s, "Mod2") {
            Ok(ModKey::Mod2)
        } else if str_eq(s, "Mod3") {
            Ok(ModKey::Mod3)
        } else if str_eq(s, "Mod4") {
            Ok(ModKey::Mod4)
        } else if str_eq(s, "Mod5") {
            Ok(ModKey::Mod5)
        } else {
            Err(())
        }
    }
}

/// The mask-bit union of a modifier list.
pub open spec fn spec_mask_of(mods: Seq<ModKey>) -> u32
    decreases mods.len(),
{
    if mods.len() == 0 {
        0u32
    } else {
        spec_mask_of(mods.drop_last()) | mods.last().spec_mask()
    }
}

/// A normalized key binding: the union of the modifier masks, with the key
/// symbol the binding names.
#[derive(Clone, Copy, PartialEq, Eq, Structural, Debug, Hash)]
pub struct KeyCombo {
    pub mod_mask: u32,
    pub keysym: u32,
}

impl KeyCombo {
    /// Normalizes a modifier list and key symbol into a lookup key.
    pub fn new(mods: &Vec<ModKey>, keysym: u32) -> (r: KeyCombo)
        ensures
            r.mod_mask == spec_mask_of(mods@),
            r.keysym == keysym,
    {
        let n = mods.len();
        let mut mask: u32 = 0;
        let mut j: usize = 0;
        while j < n
            invariant
                n == mods@.len(),
                j <= n,
                mask == spec_mask_of(mods@.take(j as int)),
            decreases n - j,
        {
            proof {
                assert(mods@.take(j + 1 as int).drop_last() =~= mods@.take(j as int));
                assert(mods@.take(j + 1 as int).last() == mods@[j as int]);
            }
            mask = mask | mods[j].mask();
            j += 1;
        }
        proof {
            assert(mods@.take(n as int) =~= mods@);
        }
        KeyCombo { mod_mask: mask, keysym }
    }
}

} // verus!
