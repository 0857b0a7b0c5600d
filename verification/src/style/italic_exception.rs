//! Which characters are slanted by default.
//!
//! Markup shows an identifier of one character slanted, whatever the
//! character is. Mathematical notation slants letters only. A single
//! character that is no letter therefore has to be marked as upright.

use vstd::prelude::*;

verus! {

/// The characters that are slanted by default: Latin letters, small Greek
/// letters and a few related glyphs.
pub open spec fn slanted_by_default(c: char) -> bool {
    ||| 'a' <= c <= 'z'
    ||| 'A' <= c <= 'Z'
    ||| 'α' <= c <= 'ω'
    ||| c == 'ħ'
    ||| c == 'ı'
    ||| c == 'ȷ'
    ||| c == '∂'
    ||| c == 'ϵ'
    ||| c == 'ϑ'
    ||| c == 'ϰ'
    ||| c == 'ϕ'
    ||| c == 'ϱ'
    ||| c == 'ϖ'
}

/// Whether a single character has to be marked as upright, because markup
/// would slant it otherwise: true of every character that is not slanted by
/// default.
pub fn is_normal(c: char) -> (r: bool)
    ensures
        r == !slanted_by_default(c),
{
    !(('a' <= c && c <= 'z') || ('A' <= c && c <= 'Z') || ('α' <= c && c <= 'ω') || c == 'ħ'
        || c == 'ı' || c == 'ȷ' || c == '∂' || c == 'ϵ' || c == 'ϑ' || c == 'ϰ' || c == 'ϕ'
        || c == 'ϱ' || c == 'ϖ')
}

} // verus!
