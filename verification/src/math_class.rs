//! From a piece of text and its class to the markup element that shows it.

use vstd::prelude::*;
use vstd::string::*;
use unicode_math_class::MathClass as UnicodeClass;
use crate::escape::escape_helper;
use crate::escape::escaped;
use crate::number::is_number;
use crate::number::is_number_text;
use crate::style::StyleContext;
use crate::style::StyleOverride;
use crate::style::character_variant::styled_char;
use crate::style::character_variant::styled_char_spec;
use crate::style::effective_italic;
use crate::style::italic_exception::is_normal;
use crate::style::italic_exception::slanted_by_default;
use crate::text::contains_char;
use crate::text::element;
use crate::text::push_char;

verus! {

/// The class of a mathematical character, which decides how it is set.
#[derive(Clone, Copy, Debug, PartialEq, Eq, Structural)]
pub enum MathClass {
    Normal,
    Alphabetic,
    Binary,
    Closing,
    Diacritic,
    Fence,
    GlyphPart,
    Large,
    Opening,
    Punctuation,
    Relation,
    Space,
    Unary,
    Vary,
    Special,
}

/// The class that the Unicode data file of mathematical classes gives to a
/// character, `None` for a character that the file does not list.
pub uninterp spec fn unicode_math_class(c: char) -> Option<MathClass>;

/// Looks up the class of a character.
///
/// Stands for `unicode_math_class::class`, which searches a fixed table that
/// is sorted by character: the result depends on the character alone and is
/// the table's entry for it, if there is one.
#[verifier::external_body]
fn class_of(c: char) -> (r: Option<MathClass>)
    ensures
        r == unicode_math_class(c),
{
    Some(match unicode_math_class::class(c)? {
        UnicodeClass::Normal => MathClass::Normal, UnicodeClass::Alphabetic => MathClass::Alphabetic,
        UnicodeClass::Binary => MathClass::Binary, UnicodeClass::Closing => MathClass::Closing,
        UnicodeClass::Diacritic => MathClass::Diacritic, UnicodeClass::Fence => MathClass::Fence,
        UnicodeClass::GlyphPart => MathClass::GlyphPart, UnicodeClass::Large => MathClass::Large,
        UnicodeClass::Opening => MathClass::Opening,
        UnicodeClass::Punctuation => MathClass::Punctuation,
        UnicodeClass::Relation => MathClass::Relation, UnicodeClass::Space => MathClass::Space,
        UnicodeClass::Unary => MathClass::Unary, UnicodeClass::Vary => MathClass::Vary,
        UnicodeClass::Special => MathClass::Special,
    })
}

/// The attribute that asks for upright letters.
pub open spec fn upright_attr() -> Seq<char> {
    " mathvariant=\"normal\""@
}

/// The attribute of an identifier that is not set by its class: upright
/// letters where the style switches the slant off, nothing else.
pub open spec fn explicit_upright_attr(levels: Seq<StyleOverride>) -> Seq<char> {
    if effective_italic(levels) == Some(false) {
        upright_attr()
    } else {
        Seq::empty()
    }
}

/// The attribute of an identifier whose source text is `source`: upright
/// letters where the style switches the slant off, and, where the style says
/// nothing of the slant, for a single character that is not slanted by
/// default.
pub open spec fn identifier_attr(levels: Seq<StyleOverride>, source: Seq<char>) -> Seq<char> {
    match effective_italic(levels) {
        Some(false) => upright_attr(),
        Some(true) => Seq::empty(),
        None => if source.len() == 1 && !slanted_by_default(source[0]) {
            upright_attr()
        } else {
            Seq::empty()
        },
    }
}

/// The element for a piece of text of a given class. `text` is escaped;
/// `original`, where it is given, is the text before any letter was styled
/// and decides on the attribute of an identifier in place of `text`.
pub open spec fn classified(
    text: Seq<char>,
    original: Option<Seq<char>>,
    class: MathClass,
    levels: Seq<StyleOverride>,
) -> Seq<char> {
    let attr = identifier_attr(
        levels,
        match original {
            Some(o) => o,
            None => text,
        },
    );
    let body = escaped(text);
    match class {
        MathClass::Normal | MathClass::Alphabetic | MathClass::Diacritic => "<mi"@ + attr + ">"@
            + body + "</mi>"@,
        MathClass::Binary => "<mo form=\"infix\">"@ + body + "</mo>"@,
        MathClass::Closing => "<mo fence=\"true\" form=\"postfix\">"@ + body + "</mo>"@,
        MathClass::Fence => "<mo fence=\"true\">"@ + body + "</mo>"@,
        MathClass::Large => "<mo largeop=\"true\">"@ + body + "</mo>"@,
        MathClass::Opening => "<mo fence=\"true\" form=\"prefix\">"@ + body + "</mo>"@,
        MathClass::Punctuation => "<mo separator=\"true\">"@ + body + "</mo>"@,
        MathClass::Space => "<mspace width=\"0.333em\"></mspace>"@,
        MathClass::Unary => "<mo form=\"prefix\">"@ + body + "</mo>"@,
        MathClass::GlyphPart | MathClass::Relation | MathClass::Vary | MathClass::Special => "<mo>"@
            + body + "</mo>"@,
    }
}

/// The source text with every letter in its styled form. Letters are slanted
/// by default only where the style switches the slant on.
pub open spec fn styled_text(raw: Seq<char>, levels: Seq<StyleOverride>) -> Seq<char> {
    Seq::new(
        raw.len(),
        |i: int| styled_char_spec(levels, raw[i], effective_italic(levels) == Some(true)),
    )
}

/// The markup for a text node, given the class of its first styled character.
///
/// A numeric literal and the infinity sign become a number, whatever their
/// class. A single character is set by its class, as a plain identifier if it
/// has none. Longer text is escaped; it becomes a run of text between two
/// no-break spaces if a space occurs in it, else one identifier.
pub open spec fn text_rendered_with(
    raw: Seq<char>,
    levels: Seq<StyleOverride>,
    first_class: Option<MathClass>,
) -> Seq<char> {
    let text = styled_text(raw, levels);
    if is_number(raw) || raw == "∞"@ {
        "<mn>"@ + raw + "</mn>"@
    } else if text.len() == 0 {
        Seq::empty()
    } else if text.len() == 1 {
        match first_class {
            None => "<mi"@ + explicit_upright_attr(levels) + ">"@ + text + "</mi>"@,
            Some(class) => classified(text, Some(raw), class, levels),
        }
    } else if escaped(text).contains(' ') {
        "<mtext>&nbsp;"@ + escaped(text) + "&nbsp;</mtext>"@
    } else {
        "<mi"@ + explicit_upright_attr(levels) + ">"@ + escaped(text) + "</mi>"@
    }
}

/// The markup for a text node.
pub open spec fn text_rendered(raw: Seq<char>, levels: Seq<StyleOverride>) -> Seq<char> {
    let text = styled_text(raw, levels);
    text_rendered_with(
        raw,
        levels,
        if text.len() > 0 {
            unicode_math_class(text[0])
        } else {
            None
        },
    )
}

fn explicit_upright(style: &StyleContext) -> (r: &'static str)
    ensures
        r@ == explicit_upright_attr(style@),
{
    proof {
        reveal_strlit("");
        assert(""@ =~= Seq::<char>::empty());
    }
    match style.italic() {
        Some(false) => " mathvariant=\"normal\"",
        _ => "",
    }
}

fn identifier_attr_of(style: &StyleContext, source: &str) -> (r: &'static str)
    ensures
        r@ == identifier_attr(style@, source@),
{
    proof {
        reveal_strlit("");
        assert(""@ =~= Seq::<char>::empty());
    }
    match style.italic() {
        Some(false) => " mathvariant=\"normal\"",
        Some(true) => "",
        None => {
            if source.unicode_len() == 1 && is_normal(source.get_char(0)) {
                " mathvariant=\"normal\""
            } else {
                ""
            }
        },
    }
}

/// Sets a piece of text by its class.
pub fn math_class_helper(
    text: &str,
    original_text: Option<&str>,
    class: MathClass,
    style: &StyleContext,
) -> (r: String)
    ensures
        r@ == classified(
            text@,
            match original_text {
                Some(o) => Some(o@),
                None => None,
            },
            class,
            style@,
        ),
{
    let attr = match original_text {
        Some(o) => identifier_attr_of(style, o),
        None => identifier_attr_of(style, text),
    };
    let body = escape_helper(text);
    match class {
        MathClass::Normal | MathClass::Alphabetic | MathClass::Diacritic => {
            let mut r = String::from_str("<mi");
            r.append(attr);
            r.append(">");
            r.append(body.as_str());
            r.append("</mi>");
            r
        },
        MathClass::Binary => element("<mo form=\"infix\">", body.as_str(), "</mo>"),
        MathClass::Closing => element(
            "<mo fence=\"true\" form=\"postfix\">",
            body.as_str(),
            "</mo>",
        ),
        MathClass::Fence => element("<mo fence=\"true\">", body.as_str(), "</mo>"),
        MathClass::Large => element("<mo largeop=\"true\">", body.as_str(), "</mo>"),
        MathClass::Opening => element("<mo fence=\"true\" form=\"prefix\">", body.as_str(), "</mo>"),
        MathClass::Punctuation => element("<mo separator=\"true\">", body.as_str(), "</mo>"),
        MathClass::Space => String::from_str("<mspace width=\"0.333em\"></mspace>"),
        MathClass::Unary => element("<mo form=\"prefix\">", body.as_str(), "</mo>"),
        MathClass::GlyphPart | MathClass::Relation | MathClass::Vary | MathClass::Special => element(
            "<mo>",
            body.as_str(),
            "</mo>",
        ),
    }
}

/// The source text with every letter in its styled form.
pub fn style_text(raw: &str, style: &StyleContext) -> (r: String)
    ensures
        r@ == styled_text(raw@, style@),
{
    let auto_italic = match style.italic() {
        Some(true) => true,
        _ => false,
    };
    let mut r = String::new();
    for c in it: raw.chars()
        invariant
            it.seq() == raw@,
            auto_italic == (effective_italic(style@) == Some(true)),
            r@ == styled_text(raw@.take(it.index() as int), style@),
    {
        let styled = styled_char(style, c, auto_italic);
        push_char(&mut r, styled);
        proof {
            let i = it.index() as int;
            assert(r@ =~= styled_text(raw@.take(i + 1), style@));
        }
    }
    proof {
        assert(raw@.take(raw@.len() as int) =~= raw@);
    }
    r
}

/// Whether two texts hold the same characters.
fn same_text(a: &str, b: &str) -> (r: bool)
    ensures
        r == (a@ == b@),
{
    let x = String::from_str(a);
    let y = String::from_str(b);
    x == y
}

/// Renders a text node whose first styled character has the class
/// `first_class`.
pub fn process_text_with(raw: &str, style: &StyleContext, first_class: Option<MathClass>) -> (r:
    String)
    ensures
        r@ == text_rendered_with(raw@, style@, first_class),
{
    if is_number_text(raw) || same_text(raw, "∞") {
        return element("<mn>", raw, "</mn>");
    }
    let text = style_text(raw, style);
    let len = text.as_str().unicode_len();
    if len == 0 {
        return String::new();
    }
    if len == 1 {
        return match first_class {
            None => {
                let mut r = String::from_str("<mi");
                r.append(explicit_upright(style));
                r.append(">");
                r.append(text.as_str());
                r.append("</mi>");
                r
            },
            Some(class) => math_class_helper(text.as_str(), Some(raw), class, style),
        };
    }
    let body = escape_helper(text.as_str());
    if contains_char(body.as_str(), ' ') {
        element("<mtext>&nbsp;", body.as_str(), "&nbsp;</mtext>")
    } else {
        let mut r = String::from_str("<mi");
        r.append(explicit_upright(style));
        r.append(">");
        r.append(body.as_str());
        r.append("</mi>");
        r
    }
}

/// Renders a text node.
pub fn process_text(raw: &str, style: &StyleContext) -> (r: String)
    ensures
        r@ == text_rendered(raw@, style@),
{
    let text = style_text(raw, style);
    let first_class = if text.as_str().unicode_len() > 0 {
        class_of(text.as_str().get_char(0))
    } else {
        None
    };
    process_text_with(raw, style, first_class)
}

} // verus!
