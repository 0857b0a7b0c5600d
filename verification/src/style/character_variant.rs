//! Styled letters: the code point that shows a character in a given
//! letterform family, weight and slant.
//!
//! Most styled letters lie in the block of mathematical alphanumeric symbols,
//! in runs that follow the alphabet. Some were encoded earlier and elsewhere;
//! the tables of exceptions hold those.

use vstd::prelude::*;
use crate::style::MathVariant;
use crate::style::StyleContext;
use crate::style::StyleOverride;
use crate::style::effective_bold;
use crate::style::effective_italic;
use crate::style::effective_variant;
use crate::style::italic_exception::slanted_by_default;

verus! {

/// The brackets that are replaced whatever the style.
pub open spec fn basic_exception_spec(c: char) -> Option<char> {
    if c == '\u{2329}' {
        Some('\u{27E8}')
    } else if c == '\u{232A}' {
        Some('\u{27E9}')
    } else if c == '\u{300A}' {
        Some('\u{27EA}')
    } else if c == '\u{300B}' {
        Some('\u{27EB}')
    } else {
        None
    }
}

/// The styled Latin letters that have a code point of their own outside the
/// alphabetic runs.
pub open spec fn latin_exception_spec(
    c: char,
    variant: MathVariant,
    bold: bool,
    italic: bool,
) -> Option<char> {
    if c == 'B' && variant == MathVariant::Cal && !bold {
        Some('ℬ')
    } else if c == 'E' && variant == MathVariant::Cal && !bold {
        Some('ℰ')
    } else if c == 'F' && variant == MathVariant::Cal && !bold {
        Some('ℱ')
    } else if c == 'H' && variant == MathVariant::Cal && !bold {
        Some('ℋ')
    } else if c == 'I' && variant == MathVariant::Cal && !bold {
        Some('ℐ')
    } else if c == 'L' && variant == MathVariant::Cal && !bold {
        Some('ℒ')
    } else if c == 'M' && variant == MathVariant::Cal && !bold {
        Some('ℳ')
    } else if c == 'R' && variant == MathVariant::Cal && !bold {
        Some('ℛ')
    } else if c == 'C' && variant == MathVariant::Frak && !bold {
        Some('ℭ')
    } else if c == 'H' && variant == MathVariant::Frak && !bold {
        Some('ℌ')
    } else if c == 'I' && variant == MathVariant::Frak && !bold {
        Some('ℑ')
    } else if c == 'R' && variant == MathVariant::Frak && !bold {
        Some('ℜ')
    } else if c == 'Z' && variant == MathVariant::Frak && !bold {
        Some('ℨ')
    } else if c == 'C' && variant == MathVariant::Bb {
        Some('ℂ')
    } else if c == 'H' && variant == MathVariant::Bb {
        Some('ℍ')
    } else if c == 'N' && variant == MathVariant::Bb {
        Some('ℕ')
    } else if c == 'P' && variant == MathVariant::Bb {
        Some('ℙ')
    } else if c == 'Q' && variant == MathVariant::Bb {
        Some('ℚ')
    } else if c == 'R' && variant == MathVariant::Bb {
        Some('ℝ')
    } else if c == 'Z' && variant == MathVariant::Bb {
        Some('ℤ')
    } else if c == 'D' && variant == MathVariant::Bb && italic {
        Some('ⅅ')
    } else if c == 'd' && variant == MathVariant::Bb && italic {
        Some('ⅆ')
    } else if c == 'e' && variant == MathVariant::Bb && italic {
        Some('ⅇ')
    } else if c == 'i' && variant == MathVariant::Bb && italic {
        Some('ⅈ')
    } else if c == 'j' && variant == MathVariant::Bb && italic {
        Some('ⅉ')
    } else if c == 'h' && variant == MathVariant::Serif && !bold && italic {
        Some('ℎ')
    } else if c == 'e' && variant == MathVariant::Cal && !bold {
        Some('ℯ')
    } else if c == 'g' && variant == MathVariant::Cal && !bold {
        Some('ℊ')
    } else if c == 'o' && variant == MathVariant::Cal && !bold {
        Some('ℴ')
    } else if c == 'ħ' && variant == MathVariant::Serif && italic {
        Some('ℏ')
    } else if c == 'ı' && variant == MathVariant::Serif && italic {
        Some('𝚤')
    } else if c == 'ȷ' && variant == MathVariant::Serif && italic {
        Some('𝚥')
    } else {
        None
    }
}

/// The column of the table of Greek forms that a style selects, if any.
pub open spec fn greek_column(variant: MathVariant, bold: bool, italic: bool) -> Option<int> {
    match variant {
        MathVariant::Serif => if bold && italic {
            Some(2)
        } else if bold {
            Some(0)
        } else if italic {
            Some(1)
        } else {
            None
        },
        MathVariant::Sans => if italic {
            Some(4)
        } else {
            Some(3)
        },
        MathVariant::Bb => Some(5),
        _ => None,
    }
}

/// One of six forms, by its column.
pub open spec fn form_at(slot: int, f0: char, f1: char, f2: char, f3: char, f4: char, f5: char)
    -> char {
    if slot == 0 {
        f0
    } else if slot == 1 {
        f1
    } else if slot == 2 {
        f2
    } else if slot == 3 {
        f3
    } else if slot == 4 {
        f4
    } else {
        f5
    }
}

/// The table of Greek forms: for each character that has a row, its form in
/// column `slot`. The columns are bold, italic, bold italic, sans-serif,
/// sans-serif italic and blackboard bold.
pub open spec fn greek_form(c: char, slot: int) -> Option<char> {
    if c == 'ϴ' {
        Some(form_at(slot, '𝚹', '𝛳', '𝜭', '𝝧', '𝞡', 'ϴ'))
    } else if c == '∇' {
        Some(form_at(slot, '𝛁', '𝛻', '𝜵', '𝝯', '𝞩', '∇'))
    } else if c == '∂' {
        Some(form_at(slot, '𝛛', '𝜕', '𝝏', '𝞉', '𝟃', '∂'))
    } else if c == 'ϵ' {
        Some(form_at(slot, '𝛜', '𝜖', '𝝐', '𝞊', '𝟄', 'ϵ'))
    } else if c == 'ϑ' {
        Some(form_at(slot, '𝛝', '𝜗', '𝝑', '𝞋', '𝟅', 'ϑ'))
    } else if c == 'ϰ' {
        Some(form_at(slot, '𝛞', '𝜘', '𝝒', '𝞌', '𝟆', 'ϰ'))
    } else if c == 'ϕ' {
        Some(form_at(slot, '𝛟', '𝜙', '𝝓', '𝞍', '𝟇', 'ϕ'))
    } else if c == 'ϱ' {
        Some(form_at(slot, '𝛠', '𝜚', '𝝔', '𝞎', '𝟈', 'ϱ'))
    } else if c == 'ϖ' {
        Some(form_at(slot, '𝛡', '𝜛', '𝝕', '𝞏', '𝟉', 'ϖ'))
    } else if c == 'Γ' {
        Some(form_at(slot, '𝚪', '𝛤', '𝜞', '𝝘', '𝞒', 'ℾ'))
    } else if c == 'γ' {
        Some(form_at(slot, '𝛄', '𝛾', '𝜸', '𝝲', '𝞬', 'ℽ'))
    } else if c == 'Π' {
        Some(form_at(slot, '𝚷', '𝛱', '𝜫', '𝝥', '𝞟', 'ℿ'))
    } else if c == 'π' {
        Some(form_at(slot, '𝛑', '𝜋', '𝝅', '𝝿', '𝞹', 'ℼ'))
    } else if c == '∑' {
        Some(form_at(slot, '∑', '∑', '∑', '∑', '∑', '⅀'))
    } else {
        None
    }
}

/// The styled Greek letters and related signs that lie outside the
/// alphabetic runs: the two bold digammas and the rows of the table of forms.
pub open spec fn greek_exception_spec(
    c: char,
    variant: MathVariant,
    bold: bool,
    italic: bool,
) -> Option<char> {
    if c == 'Ϝ' && variant == MathVariant::Serif && bold {
        Some('𝟊')
    } else if c == 'ϝ' && variant == MathVariant::Serif && bold {
        Some('𝟋')
    } else {
        match greek_column(variant, bold, italic) {
            Some(slot) => greek_form(c, slot),
            None => None,
        }
    }
}

/// The first character of the alphabetic run that `c` belongs to: capital or
/// small Latin, capital or small Greek, digits, or the four Hebrew letters
/// from alef to dalet.
pub open spec fn run_base(c: char) -> Option<char> {
    if 'A' <= c <= 'Z' {
        Some('A')
    } else if 'a' <= c <= 'z' {
        Some('a')
    } else if 'Α' <= c <= 'Ω' {
        Some('Α')
    } else if 'α' <= c <= 'ω' {
        Some('α')
    } else if '0' <= c <= '9' {
        Some('0')
    } else if '\u{05D0}' <= c <= '\u{05D3}' {
        Some('\u{05D0}')
    } else {
        None
    }
}

/// The code point at which the styled run of `c`'s alphabet starts, or `None`
/// where the style has no run for that alphabet.
pub open spec fn run_start(c: char, variant: MathVariant, bold: bool, italic: bool) -> Option<
    u32,
> {
    if 'A' <= c <= 'Z' {
        match variant {
            MathVariant::Serif => if bold && italic {
                Some(0x1D468)
            } else if bold {
                Some(0x1D400)
            } else if italic {
                Some(0x1D434)
            } else {
                Some(0x0041)
            },
            MathVariant::Sans => if bold && italic {
                Some(0x1D63C)
            } else if bold {
                Some(0x1D5D4)
            } else if italic {
                Some(0x1D608)
            } else {
                Some(0x1D5A0)
            },
            MathVariant::Cal => if bold {
                Some(0x1D4D0)
            } else {
                Some(0x1D49C)
            },
            MathVariant::Frak => if bold {
                Some(0x1D56C)
            } else {
                Some(0x1D504)
            },
            MathVariant::Mono => Some(0x1D670),
            MathVariant::Bb => Some(0x1D538),
        }
    } else if 'a' <= c <= 'z' {
        match variant {
            MathVariant::Serif => if bold && italic {
                Some(0x1D482)
            } else if bold {
                Some(0x1D41A)
            } else if italic {
                Some(0x1D44E)
            } else {
                Some(0x0061)
            },
            MathVariant::Sans => if bold && italic {
                Some(0x1D656)
            } else if bold {
                Some(0x1D5EE)
            } else if italic {
                Some(0x1D622)
            } else {
                Some(0x1D5BA)
            },
            MathVariant::Cal => if bold {
                Some(0x1D4EA)
            } else {
                Some(0x1D4B6)
            },
            MathVariant::Frak => if bold {
                Some(0x1D586)
            } else {
                Some(0x1D51E)
            },
            MathVariant::Mono => Some(0x1D68A),
            MathVariant::Bb => Some(0x1D552),
        }
    } else if 'Α' <= c <= 'Ω' {
        match variant {
            MathVariant::Serif => if bold && italic {
                Some(0x1D71C)
            } else if bold {
                Some(0x1D6A8)
            } else if italic {
                Some(0x1D6E2)
            } else {
                Some(0x0391)
            },
            MathVariant::Sans => if italic {
                Some(0x1D790)
            } else {
                Some(0x1D756)
            },
            MathVariant::Cal => None,
            MathVariant::Frak => None,
            MathVariant::Mono => None,
            MathVariant::Bb => None,
        }
    } else if 'α' <= c <= 'ω' {
        match variant {
            MathVariant::Serif => if bold && italic {
                Some(0x1D736)
            } else if bold {
                Some(0x1D6C2)
            } else if italic {
                Some(0x1D6FC)
            } else {
                Some(0x03B1)
            },
            MathVariant::Sans => if italic {
                Some(0x1D7AA)
            } else {
                Some(0x1D770)
            },
            MathVariant::Cal => None,
            MathVariant::Frak => None,
            MathVariant::Mono => None,
            MathVariant::Bb => None,
        }
    } else if '0' <= c <= '9' {
        match variant {
            MathVariant::Serif => if bold {
                Some(0x1D7CE)
            } else {
                Some(0x0030)
            },
            MathVariant::Sans => if bold {
                Some(0x1D7EC)
            } else {
                Some(0x1D7E2)
            },
            MathVariant::Cal => None,
            MathVariant::Frak => None,
            MathVariant::Mono => Some(0x1D7F6),
            MathVariant::Bb => Some(0x1D7D8),
        }
    } else if '\u{05D0}' <= c <= '\u{05D3}' {
        Some(0x2135)
    } else {
        None
    }
}

/// The styled form of `c` by its place in the alphabet: the start of the
/// styled run plus the distance of `c` from the first letter of its alphabet.
/// A character outside every run, or a style without a run, leaves `c` as it is.
pub open spec fn run_styled(c: char, variant: MathVariant, bold: bool, italic: bool) -> char {
    match (run_base(c), run_start(c, variant, bold, italic)) {
        (Some(base), Some(start)) => ((start + (c as u32 - base as u32)) as u32) as char,
        _ => c,
    }
}

/// The styled form of `c`. The exceptions come first, in this order: the
/// brackets, the Latin table, the Greek table; the place in the alphabet
/// decides for the rest.
pub open spec fn styled(c: char, variant: MathVariant, bold: bool, italic: bool) -> char {
    match basic_exception_spec(c) {
        Some(r) => r,
        None => match latin_exception_spec(c, variant, bold, italic) {
            Some(r) => r,
            None => match greek_exception_spec(c, variant, bold, italic) {
                Some(r) => r,
                None => run_styled(c, variant, bold, italic),
            },
        },
    }
}

/// The slant that applies to `c`: the one that the style sets, or, where it
/// sets none, the automatic one, which slants letters in the serif and
/// sans-serif families if `auto_italic` allows it.
pub open spec fn slant(explicit: Option<bool>, auto_italic: bool, c: char, variant: MathVariant)
    -> bool {
    match explicit {
        Some(b) => b,
        None => auto_italic && slanted_by_default(c) && (variant == MathVariant::Sans || variant
            == MathVariant::Serif),
    }
}

/// The styled form of `c` inside the context `levels`.
pub open spec fn styled_char_spec(levels: Seq<StyleOverride>, c: char, auto_italic: bool) -> char {
    let variant = effective_variant(levels);
    styled(
        c,
        variant,
        effective_bold(levels),
        slant(effective_italic(levels), auto_italic, c, variant),
    )
}

fn is_serif(v: MathVariant) -> (r: bool)
    ensures
        r == (v == MathVariant::Serif),
{
    match v {
        MathVariant::Serif => true,
        _ => false,
    }
}

fn is_sans(v: MathVariant) -> (r: bool)
    ensures
        r == (v == MathVariant::Sans),
{
    match v {
        MathVariant::Sans => true,
        _ => false,
    }
}

fn is_cal(v: MathVariant) -> (r: bool)
    ensures
        r == (v == MathVariant::Cal),
{
    match v {
        MathVariant::Cal => true,
        _ => false,
    }
}

fn is_frak(v: MathVariant) -> (r: bool)
    ensures
        r == (v == MathVariant::Frak),
{
    match v {
        MathVariant::Frak => true,
        _ => false,
    }
}

fn is_bb(v: MathVariant) -> (r: bool)
    ensures
        r == (v == MathVariant::Bb),
{
    match v {
        MathVariant::Bb => true,
        _ => false,
    }
}

/// Converts a number to the character with that code point.
///
/// Stands for `char::from_u32` of the standard library, which returns the
/// character for every number that is a Unicode scalar value, that is, one up
/// to `0x10FFFF` outside the surrogate range, and `None` for any other number.
#[verifier::external_body]
fn char_from_u32(code: u32) -> (r: Option<char>)
    ensures
        (code <= 0xD7FF || 0xE000 <= code <= 0x10FFFF) ==> r == Some(code as char),
        !(code <= 0xD7FF || 0xE000 <= code <= 0x10FFFF) ==> r is None,
{
    char::from_u32(code)
}

/// Select the correct styled math letter.
///
/// The style gives the letterform family and the weight. It gives the slant
/// too where a level sets one; where none does, `auto_italic` says whether
/// letters are slanted by default.
pub fn styled_char(styles: &StyleContext, c: char, auto_italic: bool) -> (r: char)
    ensures
        r == styled_char_spec(styles@, c, auto_italic),
{
    let variant = styles.variant();
    let bold = styles.bold();
    let italic = match styles.italic() {
        Some(b) => b,
        None => auto_italic && !crate::style::italic_exception::is_normal(c) && (is_sans(variant)
            || is_serif(variant)),
    };
    styled_with(c, variant, bold, italic)
}

/// The styled form of `c` for a letterform family, weight and slant.
pub fn styled_with(c: char, variant: MathVariant, bold: bool, italic: bool) -> (r: char)
    ensures
        r == styled(c, variant, bold, italic),
{
    if let Some(r) = basic_exception(c) {
        return r;
    }
    if let Some(r) = latin_exception(c, variant, bold, italic) {
        return r;
    }
    if let Some(r) = greek_exception(c, variant, bold, italic) {
        return r;
    }
    let base: char = if 'A' <= c && c <= 'Z' {
        'A'
    } else if 'a' <= c && c <= 'z' {
        'a'
    } else if 'Α' <= c && c <= 'Ω' {
        'Α'
    } else if 'α' <= c && c <= 'ω' {
        'α'
    } else if '0' <= c && c <= '9' {
        '0'
    } else if '\u{05D0}' <= c && c <= '\u{05D3}' {
        '\u{05D0}'
    } else {
        return c;
    };
    let start: u32 = match run_start_of(c, variant, bold, italic) {
        Some(s) => s,
        None => {
            return c;
        },
    };
    let code: u32 = start + (c as u32 - base as u32);
    match char_from_u32(code) {
        Some(r) => r,
        None => c,
    }
}

fn run_start_of(c: char, variant: MathVariant, bold: bool, italic: bool) -> (r: Option<u32>)
    ensures
        r == run_start(c, variant, bold, italic),
        r matches Some(s) ==> 0x30 <= s <= 0x1D7F6,
{
    if 'A' <= c && c <= 'Z' {
        match variant {
            MathVariant::Serif => if bold && italic {
                Some(0x1D468)
            } else if bold {
                Some(0x1D400)
            } else if italic {
                Some(0x1D434)
            } else {
                Some(0x0041)
            },
            MathVariant::Sans => if bold && italic {
                Some(0x1D63C)
            } else if bold {
                Some(0x1D5D4)
            } else if italic {
                Some(0x1D608)
            } else {
                Some(0x1D5A0)
            },
            MathVariant::Cal => if bold {
                Some(0x1D4D0)
            } else {
                Some(0x1D49C)
            },
            MathVariant::Frak => if bold {
                Some(0x1D56C)
            } else {
                Some(0x1D504)
            },
            MathVariant::Mono => Some(0x1D670),
            MathVariant::Bb => Some(0x1D538),
        }
    } else if 'a' <= c && c <= 'z' {
        match variant {
            MathVariant::Serif => if bold && italic {
                Some(0x1D482)
            } else if bold {
                Some(0x1D41A)
            } else if italic {
                Some(0x1D44E)
            } else {
                Some(0x0061)
            },
            MathVariant::Sans => if bold && italic {
                Some(0x1D656)
            } else if bold {
                Some(0x1D5EE)
            } else if italic {
                Some(0x1D622)
            } else {
                Some(0x1D5BA)
            },
            MathVariant::Cal => if bold {
                Some(0x1D4EA)
            } else {
                Some(0x1D4B6)
            },
            MathVariant::Frak => if bold {
                Some(0x1D586)
            } else {
                Some(0x1D51E)
            },
            MathVariant::Mono => Some(0x1D68A),
            MathVariant::Bb => Some(0x1D552),
        }
    } else if 'Α' <= c && c <= 'Ω' {
        match variant {
            MathVariant::Serif => if bold && italic {
                Some(0x1D71C)
            } else if bold {
                Some(0x1D6A8)
            } else if italic {
                Some(0x1D6E2)
            } else {
                Some(0x0391)
            },
            MathVariant::Sans => if italic {
                Some(0x1D790)
            } else {
                Some(0x1D756)
            },
            MathVariant::Cal => None,
            MathVariant::Frak => None,
            MathVariant::Mono => None,
            MathVariant::Bb => None,
        }
    } else if 'α' <= c && c <= 'ω' {
        match variant {
            MathVariant::Serif => if bold && italic {
                Some(0x1D736)
            } else if bold {
                Some(0x1D6C2)
            } else if italic {
                Some(0x1D6FC)
            } else {
                Some(0x03B1)
            },
            MathVariant::Sans => if italic {
                Some(0x1D7AA)
            } else {
                Some(0x1D770)
            },
            MathVariant::Cal => None,
            MathVariant::Frak => None,
            MathVariant::Mono => None,
            MathVariant::Bb => None,
        }
    } else if '0' <= c && c <= '9' {
        match variant {
            MathVariant::Serif => if bold {
                Some(0x1D7CE)
            } else {
                Some(0x0030)
            },
            MathVariant::Sans => if bold {
                Some(0x1D7EC)
            } else {
                Some(0x1D7E2)
            },
            MathVariant::Cal => None,
            MathVariant::Frak => None,
            MathVariant::Mono => Some(0x1D7F6),
            MathVariant::Bb => Some(0x1D7D8),
        }
    } else if '\u{05D0}' <= c && c <= '\u{05D3}' {
        Some(0x2135)
    } else {
        None
    }
}

fn basic_exception(c: char) -> (r: Option<char>)
    ensures
        r == basic_exception_spec(c),
{
    if c == '\u{2329}' {
        Some('\u{27E8}')
    } else if c == '\u{232A}' {
        Some('\u{27E9}')
    } else if c == '\u{300A}' {
        Some('\u{27EA}')
    } else if c == '\u{300B}' {
        Some('\u{27EB}')
    } else {
        None
    }
}

fn latin_exception(c: char, variant: MathVariant, bold: bool, italic: bool) -> (r: Option<char>)
    ensures
        r == latin_exception_spec(c, variant, bold, italic),
{
    if c == 'B' && is_cal(variant) && !bold {
        Some('ℬ')
    } else if c == 'E' && is_cal(variant) && !bold {
        Some('ℰ')
    } else if c == 'F' && is_cal(variant) && !bold {
        Some('ℱ')
    } else if c == 'H' && is_cal(variant) && !bold {
        Some('ℋ')
    } else if c == 'I' && is_cal(variant) && !bold {
        Some('ℐ')
    } else if c == 'L' && is_cal(variant) && !bold {
        Some('ℒ')
    } else if c == 'M' && is_cal(variant) && !bold {
        Some('ℳ')
    } else if c == 'R' && is_cal(variant) && !bold {
        Some('ℛ')
    } else if c == 'C' && is_frak(variant) && !bold {
        Some('ℭ')
    } else if c == 'H' && is_frak(variant) && !bold {
        Some('ℌ')
    } else if c == 'I' && is_frak(variant) && !bold {
        Some('ℑ')
    } else if c == 'R' && is_frak(variant) && !bold {
        Some('ℜ')
    } else if c == 'Z' && is_frak(variant) && !bold {
        Some('ℨ')
    } else if c == 'C' && is_bb(variant) {
        Some('ℂ')
    } else if c == 'H' && is_bb(variant) {
        Some('ℍ')
    } else if c == 'N' && is_bb(variant) {
        Some('ℕ')
    } else if c == 'P' && is_bb(variant) {
        Some('ℙ')
    } else if c == 'Q' && is_bb(variant) {
        Some('ℚ')
    } else if c == 'R' && is_bb(variant) {
        Some('ℝ')
    } else if c == 'Z' && is_bb(variant) {
        Some('ℤ')
    } else if c == 'D' && is_bb(variant) && italic {
        Some('ⅅ')
    } else if c == 'd' && is_bb(variant) && italic {
        Some('ⅆ')
    } else if c == 'e' && is_bb(variant) && italic {
        Some('ⅇ')
    } else if c == 'i' && is_bb(variant) && italic {
        Some('ⅈ')
    } else if c == 'j' && is_bb(variant) && italic {
        Some('ⅉ')
    } else if c == 'h' && is_serif(variant) && !bold && italic {
        Some('ℎ')
    } else if c == 'e' && is_cal(variant) && !bold {
        Some('ℯ')
    } else if c == 'g' && is_cal(variant) && !bold {
        Some('ℊ')
    } else if c == 'o' && is_cal(variant) && !bold {
        Some('ℴ')
    } else if c == 'ħ' && is_serif(variant) && italic {
        Some('ℏ')
    } else if c == 'ı' && is_serif(variant) && italic {
        Some('𝚤')
    } else if c == 'ȷ' && is_serif(variant) && italic {
        Some('𝚥')
    } else {
        None
    }
}

fn pick_form(slot: u8, f0: char, f1: char, f2: char, f3: char, f4: char, f5: char) -> (r: char)
    ensures
        r == form_at(slot as int, f0, f1, f2, f3, f4, f5),
{
    if slot == 0 {
        f0
    } else if slot == 1 {
        f1
    } else if slot == 2 {
        f2
    } else if slot == 3 {
        f3
    } else if slot == 4 {
        f4
    } else {
        f5
    }
}

fn greek_form_of(c: char, slot: u8) -> (r: Option<char>)
    ensures
        r == greek_form(c, slot as int),
{
    if c == 'ϴ' {
        Some(pick_form(slot, '𝚹', '𝛳', '𝜭', '𝝧', '𝞡', 'ϴ'))
    } else if c == '∇' {
        Some(pick_form(slot, '𝛁', '𝛻', '𝜵', '𝝯', '𝞩', '∇'))
    } else if c == '∂' {
        Some(pick_form(slot, '𝛛', '𝜕', '𝝏', '𝞉', '𝟃', '∂'))
    } else if c == 'ϵ' {
        Some(pick_form(slot, '𝛜', '𝜖', '𝝐', '𝞊', '𝟄', 'ϵ'))
    } else if c == 'ϑ' {
        Some(pick_form(slot, '𝛝', '𝜗', '𝝑', '𝞋', '𝟅', 'ϑ'))
    } else if c == 'ϰ' {
        Some(pick_form(slot, '𝛞', '𝜘', '𝝒', '𝞌', '𝟆', 'ϰ'))
    } else if c == 'ϕ' {
        Some(pick_form(slot, '𝛟', '𝜙', '𝝓', '𝞍', '𝟇', 'ϕ'))
    } else if c == 'ϱ' {
        Some(pick_form(slot, '𝛠', '𝜚', '𝝔', '𝞎', '𝟈', 'ϱ'))
    } else if c == 'ϖ' {
        Some(pick_form(slot, '𝛡', '𝜛', '𝝕', '𝞏', '𝟉', 'ϖ'))
    } else if c == 'Γ' {
        Some(pick_form(slot, '𝚪', '𝛤', '𝜞', '𝝘', '𝞒', 'ℾ'))
    } else if c == 'γ' {
        Some(pick_form(slot, '𝛄', '𝛾', '𝜸', '𝝲', '𝞬', 'ℽ'))
    } else if c == 'Π' {
        Some(pick_form(slot, '𝚷', '𝛱', '𝜫', '𝝥', '𝞟', 'ℿ'))
    } else if c == 'π' {
        Some(pick_form(slot, '𝛑', '𝜋', '𝝅', '𝝿', '𝞹', 'ℼ'))
    } else if c == '∑' {
        Some(pick_form(slot, '∑', '∑', '∑', '∑', '∑', '⅀'))
    } else {
        None
    }
}

fn greek_exception(c: char, variant: MathVariant, bold: bool, italic: bool) -> (r: Option<char>)
    ensures
        r == greek_exception_spec(c, variant, bold, italic),
{
    if c == 'Ϝ' && is_serif(variant) && bold {
        return Some('𝟊');
    }
    if c == 'ϝ' && is_serif(variant) && bold {
        return Some('𝟋');
    }
    let slot: u8 = match variant {
        MathVariant::Serif => if bold && italic {
            2
        } else if bold {
            0
        } else if italic {
            1
        } else {
            return None;
        },
        MathVariant::Sans => if italic {
            4
        } else {
            3
        },
        MathVariant::Bb => 5,
        _ => {
            return None;
        },
    };
    greek_form_of(c, slot)
}

/// An entry of a table of exceptions decides before the place in the
/// alphabet does, and an earlier table before a later one.
pub proof fn lemma_exceptions_take_precedence(
    c: char,
    variant: MathVariant,
    bold: bool,
    italic: bool,
)
    ensures
        basic_exception_spec(c) matches Some(r) ==> styled(c, variant, bold, italic) == r,
        basic_exception_spec(c) is None ==> (latin_exception_spec(c, variant, bold, italic) matches Some(
            r,
        ) ==> styled(c, variant, bold, italic) == r),
        basic_exception_spec(c) is None && latin_exception_spec(c, variant, bold, italic) is None
            ==> (greek_exception_spec(c, variant, bold, italic) matches Some(r) ==> styled(
            c,
            variant,
            bold,
            italic,
        ) == r),
        basic_exception_spec(c) is None && latin_exception_spec(c, variant, bold, italic) is None
            && greek_exception_spec(c, variant, bold, italic) is None ==> styled(
            c,
            variant,
            bold,
            italic,
        ) == run_styled(c, variant, bold, italic),
{
}

/// The styled form depends on the context only through the letterform family,
/// the weight and the slant that it puts in force: two contexts that agree on
/// the three give every character the same form.
pub proof fn lemma_styled_char_is_a_function_of_the_style(
    first: Seq<StyleOverride>,
    second: Seq<StyleOverride>,
    c: char,
    auto_italic: bool,
)
    requires
        effective_variant(first) == effective_variant(second),
        effective_bold(first) == effective_bold(second),
        effective_italic(first) == effective_italic(second),
    ensures
        styled_char_spec(first, c, auto_italic) == styled_char_spec(second, c, auto_italic),
{
}

} // verus!
