//! The key mapping table: a total, pure map from printable ASCII bytes to
//! hardware scan codes of the USB HID keyboard usage table, together with
//! the shift flag needed to produce the character on a US layout.

use vstd::prelude::*;

verus! {

/// A one-byte hardware scan code identifying a physical key. Values are
/// produced by the mapping table or by the named-key constructors, never
/// from arbitrary integers.
#[derive(Clone, Copy, Debug, PartialEq, Eq, Structural)]
pub struct KeyCode(u8);

/// The (shift, scan code) pair for an ASCII byte, or `None` for bytes the
/// table does not cover. Letters map case-insensitively to one scan code,
/// with only the shift flag differing.
pub open spec fn ascii_key_spec(value: u8) -> Option<(bool, u8)> {
    if value == 0x20u8 {
        Some((false, 0x2Cu8))
    } else if value == 0x21u8 {
        Some((true, 0x1Eu8))
    } else if value == 0x22u8 {
        Some((true, 0x34u8))
    } else if value == 0x23u8 {
        Some((true, 0x20u8))
    } else if value == 0x24u8 {
        Some((true, 0x21u8))
    } else if value == 0x25u8 {
        Some((true, 0x22u8))
    } else if value == 0x26u8 {
        Some((true, 0x24u8))
    } else if value == 0x27u8 {
        Some((false, 0x34u8))
    } else if value == 0x28u8 {
        Some((true, 0x26u8))
    } else if value == 0x29u8 {
        Some((true, 0x27u8))
    } else if value == 0x2Au8 {
        Some((true, 0x25u8))
    } else if value == 0x2Bu8 {
        Some((true, 0x2Eu8))
    } else if value == 0x2Cu8 {
        Some((false, 0x36u8))
    } else if value == 0x2Du8 {
        Some((false, 0x2Du8))
    } else if value == 0x2Eu8 {
        Some((false, 0x37u8))
    } else if value == 0x2Fu8 {
        Some((false, 0x38u8))
    } else if value == 0x30u8 {
        Some((false, 0x27u8))
    } else if 0x31u8 <= value && value <= 0x39u8 {
        Some((false, (0x1E + (value - 0x31u8)) as u8))
    } else if value == 0x3Au8 {
        Some((true, 0x33u8))
    } else if value == 0x3Bu8 {
        Some((false, 0x33u8))
    } else if value == 0x3Cu8 {
        Some((true, 0x36u8))
    } else if value == 0x3Du8 {
        Some((false, 0x2Eu8))
    } else if value == 0x3Eu8 {
        Some((true, 0x37u8))
    } else if value == 0x3Fu8 {
        Some((true, 0x38u8))
    } else if value == 0x40u8 {
        Some((true, 0x1Fu8))
    } else if 0x41u8 <= value && value <= 0x5Au8 {
        Some((true, (0x04 + (value - 0x41u8)) as u8))
    } else if value == 0x5Bu8 {
        Some((false, 0x2Fu8))
    } else if value == 0x5Cu8 {
        Some((false, 0x31u8))
    } else if value == 0x5Du8 {
        Some((false, 0x30u8))
    } else if value == 0x5Eu8 {
        Some((true, 0x23u8))
    } else if value == 0x5Fu8 {
        Some((true, 0x2Du8))
    } else if value == 0x60u8 {
        Some((false, 0x35u8))
    } else if 0x61u8 <= value && value <= 0x7Au8 {
        Some((false, (0x04 + (value - 0x61u8)) as u8))
    } else if value == 0x7Bu8 {
        Some((true, 0x2Fu8))
    } else if value == 0x7Cu8 {
        Some((true, 0x31u8))
    } else if value == 0x7Du8 {
        Some((true, 0x30u8))
    } else if value == 0x7Eu8 {
        Some((true, 0x35u8))
    } else {
        None
    }
}

/// The bytes the mapping table covers: every printable ASCII byte, from
/// the space through the tilde.
pub open spec fn mapped_ascii(value: u8) -> bool {
    0x20 <= value <= 0x7E
}

impl KeyCode {
    /// The scan code this key stands for.
    pub closed spec fn spec_code(&self) -> u8 {
        self.0
    }

    /// Returns the raw scan code.
    pub fn code(&self) -> (r: u8)
        ensures
            r == self.spec_code(),
    {
        self.0
    }

    /// The Return (Enter) key.
    pub fn return_key() -> (r: KeyCode)
        ensures
            r.spec_code() == 0x28,
    {
        KeyCode(0x28)
    }

    /// The Escape key.
    pub fn escape_key() -> (r: KeyCode)
        ensures
            r.spec_code() == 0x29,
    {
        KeyCode(0x29)
    }

    /// The Delete (Backspace) key.
    pub fn delete_key() -> (r: KeyCode)
        ensures
            r.spec_code() == 0x2A,
    {
        KeyCode(0x2A)
    }

    /// The Tab key.
    pub fn tab_key() -> (r: KeyCode)
        ensures
            r.spec_code() == 0x2B,
    {
        KeyCode(0x2B)
    }

    /// Maps an ASCII byte to its shift flag and key, or `None` for bytes
    /// outside the table; callers treat `None` as "skip, do not transmit".
    pub fn from_ascii(value: u8) -> (r: Option<(bool, KeyCode)>)
        ensures
            match r {
                Some((shift, code)) => ascii_key_spec(value) == Some((shift, code.spec_code())),
                None => ascii_key_spec(value) is None,
            },
    {
        if value == 0x20u8 {
            Some((false, KeyCode(0x2C)))
        } else if value == 0x21u8 {
            Some((true, KeyCode(0x1E)))
        } else if value == 0x22u8 {
            Some((true, KeyCode(0x34)))
        } else if value == 0x23u8 {
            Some((true, KeyCode(0x20)))
        } else if value == 0x24u8 {
            Some((true, KeyCode(0x21)))
        } else if value == 0x25u8 {
            Some((true, KeyCode(0x22)))
        } else if value == 0x26u8 {
            Some((true, KeyCode(0x24)))
        } else if value == 0x27u8 {
            Some((false, KeyCode(0x34)))
        } else if value == 0x28u8 {
            Some((true, KeyCode(0x26)))
        } else if value == 0x29u8 {
            Some((true, KeyCode(0x27)))
        } else if value == 0x2Au8 {
            Some((true, KeyCode(0x25)))
        } else if value == 0x2Bu8 {
            Some((true, KeyCode(0x2E)))
        } else if value == 0x2Cu8 {
            Some((false, KeyCode(0x36)))
        } else if value == 0x2Du8 {
            Some((false, KeyCode(0x2D)))
        } else if value == 0x2Eu8 {
            Some((false, KeyCode(0x37)))
        } else if value == 0x2Fu8 {
            Some((false, KeyCode(0x38)))
        } else if value == 0x30u8 {
            Some((false, KeyCode(0x27)))
        } else if 0x31u8 <= value && value <= 0x39u8 {
            Some((false, KeyCode(0x1E + (value - 0x31u8))))
        } else if value == 0x3Au8 {
            Some((true, KeyCode(0x33)))
        } else if value == 0x3Bu8 {
            Some((false, KeyCode(0x33)))
        } else if value == 0x3Cu8 {
            Some((true, KeyCode(0x36)))
        } else if value == 0x3Du8 {
            Some((false, KeyCode(0x2E)))
        } else if value == 0x3Eu8 {
            Some((true, KeyCode(0x37)))
        } else if value == 0x3Fu8 {
            Some((true, KeyCode(0x38)))
        } else if value == 0x40u8 {
            Some((true, KeyCode(0x1F)))
        } else if 0x41u8 <= value && value <= 0x5Au8 {
            Some((true, KeyCode(0x04 + (value - 0x41u8))))
        } else if value == 0x5Bu8 {
            Some((false, KeyCode(0x2F)))
        } else if value == 0x5Cu8 {
            Some((false, KeyCode(0x31)))
        } else if value == 0x5Du8 {
            Some((false, KeyCode(0x30)))
        } else if value == 0x5Eu8 {
            Some((true, KeyCode(0x23)))
        } else if value == 0x5Fu8 {
            Some((true, KeyCode(0x2D)))
        } else if value == 0x60u8 {
            Some((false, KeyCode(0x35)))
        } else if 0x61u8 <= value && value <= 0x7Au8 {
            Some((false, KeyCode(0x04 + (value - 0x61u8))))
        } else if value == 0x7Bu8 {
            Some((true, KeyCode(0x2F)))
        } else if value == 0x7Cu8 {
            Some((true, KeyCode(0x31)))
        } else if value == 0x7Du8 {
            Some((true, KeyCode(0x30)))
        } else if value == 0x7Eu8 {
            Some((true, KeyCode(0x35)))
        } else {
            None
        }
    }
}

/// A lower-case letter maps unshifted, and its upper-case partner maps
/// shifted, to one and the same scan code.
pub proof fn lemma_letter_case(lower: u8)
    requires
        0x61u8 <= lower <= 0x7Au8,
    ensures
        ascii_key_spec(lower) == Some((false, ((lower - 0x61u8) + 0x04) as u8)),
        ascii_key_spec((lower - 0x20) as u8) == Some((true, ((lower - 0x61u8) + 0x04) as u8)),
{
}

/// The mapping table is total on its covered set: every printable ASCII
/// byte — letters, digits, the space and all US-layout punctuation — has
/// a mapping, and every byte outside the set has none.
pub proof fn lemma_mapping_total(value: u8)
    ensures
        mapped_ascii(value) <==> ascii_key_spec(value) is Some,
{
}

} // verus!
