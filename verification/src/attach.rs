//! Placement of the scripts around a base.
//!
//! A base can carry up to six scripts: above, below, and at its four corners.
//! Which element shows them depends only on which of the six are there.

use vstd::prelude::*;
use vstd::string::*;
use crate::text::wrap2;
use crate::text::wrap3;

verus! {

/// The markup of the scripts around a base, each one present or not.
#[derive(Debug)]
pub struct Attachments {
    pub top: Option<String>,
    pub bottom: Option<String>,
    pub top_left: Option<String>,
    pub bottom_left: Option<String>,
    pub top_right: Option<String>,
    pub bottom_right: Option<String>,
}

/// The scripts around a base as sequences of characters.
pub struct ScriptTexts {
    pub top: Option<Seq<char>>,
    pub bottom: Option<Seq<char>>,
    pub top_left: Option<Seq<char>>,
    pub bottom_left: Option<Seq<char>>,
    pub top_right: Option<Seq<char>>,
    pub bottom_right: Option<Seq<char>>,
}

/// The text of an optional string.
pub open spec fn text_of(o: Option<String>) -> Option<Seq<char>> {
    match o {
        Some(s) => Some(s@),
        None => None,
    }
}

impl View for Attachments {
    type V = ScriptTexts;

    open spec fn view(&self) -> ScriptTexts {
        ScriptTexts {
            top: text_of(self.top),
            bottom: text_of(self.bottom),
            top_left: text_of(self.top_left),
            bottom_left: text_of(self.bottom_left),
            top_right: text_of(self.top_right),
            bottom_right: text_of(self.bottom_right),
        }
    }
}

/// Which of the six places hold a script.
pub struct Occupancy {
    pub top: bool,
    pub bottom: bool,
    pub top_left: bool,
    pub bottom_left: bool,
    pub top_right: bool,
    pub bottom_right: bool,
}

/// The element that shows a base with its scripts.
pub enum AttachShape {
    /// Scripts at all four corners, none above or below.
    MultiScripts,
    /// One script below and one above.
    UnderOver,
    /// One script above.
    Over,
    /// One script below.
    Under,
    /// A subscript and a superscript.
    SubSup,
    /// A superscript.
    Sup,
    /// A subscript.
    Sub,
    /// No script: the base alone.
    Alone,
    /// Any other combination: corner scripts inside, under and over outside,
    /// with an empty row wherever a script is missing.
    Framed,
}

/// The places that hold a script.
pub open spec fn occupancy(s: ScriptTexts) -> Occupancy {
    Occupancy {
        top: s.top is Some,
        bottom: s.bottom is Some,
        top_left: s.top_left is Some,
        bottom_left: s.bottom_left is Some,
        top_right: s.top_right is Some,
        bottom_right: s.bottom_right is Some,
    }
}

/// Whether the pattern `o` is the one that the table of shapes lists for
/// `shape`. `Framed` has no pattern of its own.
pub open spec fn listed_pattern(shape: AttachShape, o: Occupancy) -> bool {
    match shape {
        AttachShape::MultiScripts => !o.top && !o.bottom && o.top_left && o.bottom_left
            && o.top_right && o.bottom_right,
        AttachShape::UnderOver => o.top && o.bottom && !o.top_left && !o.bottom_left
            && !o.top_right && !o.bottom_right,
        AttachShape::Over => o.top && !o.bottom && !o.top_left && !o.bottom_left && !o.top_right
            && !o.bottom_right,
        AttachShape::Under => !o.top && o.bottom && !o.top_left && !o.bottom_left && !o.top_right
            && !o.bottom_right,
        AttachShape::SubSup => !o.top && !o.bottom && !o.top_left && !o.bottom_left && o.top_right
            && o.bottom_right,
        AttachShape::Sup => !o.top && !o.bottom && !o.top_left && !o.bottom_left && o.top_right
            && !o.bottom_right,
        AttachShape::Sub => !o.top && !o.bottom && !o.top_left && !o.bottom_left && !o.top_right
            && o.bottom_right,
        AttachShape::Alone => !o.top && !o.bottom && !o.top_left && !o.bottom_left && !o.top_right
            && !o.bottom_right,
        AttachShape::Framed => false,
    }
}

/// Whether the row of the table of shapes that belongs to `shape` describes
/// the pattern `o`. The last row, `Framed`, describes every pattern that no
/// other row lists.
pub open spec fn row_matches(shape: AttachShape, o: Occupancy) -> bool {
    match shape {
        AttachShape::Framed => forall|other: AttachShape| !listed_pattern(other, o),
        _ => listed_pattern(shape, o),
    }
}

/// The shape for a pattern of occupied places.
pub open spec fn shape_of(o: Occupancy) -> AttachShape {
    let corners_left = o.top_left || o.bottom_left;
    let corners_right = o.top_right || o.bottom_right;
    if o.top || o.bottom {
        if corners_left || corners_right {
            AttachShape::Framed
        } else if o.top && o.bottom {
            AttachShape::UnderOver
        } else if o.top {
            AttachShape::Over
        } else {
            AttachShape::Under
        }
    } else if corners_left {
        if o.top_left && o.bottom_left && o.top_right && o.bottom_right {
            AttachShape::MultiScripts
        } else {
            AttachShape::Framed
        }
    } else if o.top_right && o.bottom_right {
        AttachShape::SubSup
    } else if o.top_right {
        AttachShape::Sup
    } else if o.bottom_right {
        AttachShape::Sub
    } else {
        AttachShape::Alone
    }
}

/// Each of the sixty-four patterns of occupied places is described by
/// exactly one row of the table of shapes, and that row is its shape.
pub proof fn lemma_one_shape_per_pattern(o: Occupancy)
    ensures
        row_matches(shape_of(o), o),
        forall|shape: AttachShape| #[trigger] row_matches(shape, o) ==> shape == shape_of(o),
{
    assert forall|shape: AttachShape| #[trigger] row_matches(shape, o) implies shape == shape_of(
        o,
    ) by {
        if shape is Framed && !(shape_of(o) is Framed) {
            assert(listed_pattern(shape_of(o), o));
        }
    }
}

/// The scripts after the default placement: on a base that keeps no script
/// above or below it, a script given as above moves to the upper right
/// corner if that corner is free, and one given as below to the lower right
/// corner if that is free.
pub open spec fn normalized(s: ScriptTexts, limits_style: bool, stretch_style: bool)
    -> ScriptTexts {
    if limits_style || stretch_style {
        s
    } else {
        let move_top = s.top is Some && s.top_right is None;
        let move_bottom = s.bottom is Some && s.bottom_right is None;
        ScriptTexts {
            top: if move_top {
                None
            } else {
                s.top
            },
            bottom: if move_bottom {
                None
            } else {
                s.bottom
            },
            top_left: s.top_left,
            bottom_left: s.bottom_left,
            top_right: if move_top {
                s.top
            } else {
                s.top_right
            },
            bottom_right: if move_bottom {
                s.bottom
            } else {
                s.bottom_right
            },
        }
    }
}

/// On a base that keeps no script above or below it, the default placement
/// leaves a script above only beside one in the upper right corner, and one
/// below only beside one in the lower right corner: no shape that puts
/// scripts above or below alone comes out.
pub proof fn lemma_default_placement_fills_the_corners(s: ScriptTexts)
    ensures
        ({
            let placed = normalized(s, false, false);
            let shape = shape_of(occupancy(placed));
            &&& placed.top is Some ==> placed.top_right is Some
            &&& placed.bottom is Some ==> placed.bottom_right is Some
            &&& !(shape is Over)
            &&& !(shape is Under)
            &&& !(shape is UnderOver)
        }),
{
}

/// A script, or an empty row in the place of a missing one.
pub open spec fn or_empty_row(o: Option<Seq<char>>) -> Seq<char> {
    match o {
        Some(t) => t,
        None => "<mrow></mrow>"@,
    }
}

/// The element for a base and its scripts, by the shape of their pattern.
pub open spec fn shaped(base: Seq<char>, s: ScriptTexts) -> Seq<char> {
    match shape_of(occupancy(s)) {
        AttachShape::MultiScripts => "<mmultiscripts>"@ + base + s.bottom_right->0
            + s.top_right->0 + "<mprescripts />"@ + s.bottom_left->0 + s.top_left->0
            + "</mmultiscripts>"@,
        AttachShape::UnderOver => "<munderover>"@ + base + s.bottom->0 + s.top->0
            + "</munderover>"@,
        AttachShape::Over => "<mover>"@ + base + s.top->0 + "</mover>"@,
        AttachShape::Under => "<munder>"@ + base + s.bottom->0 + "</munder>"@,
        AttachShape::SubSup => "<msubsup>"@ + base + s.bottom_right->0 + s.top_right->0
            + "</msubsup>"@,
        AttachShape::Sup => "<msup>"@ + base + s.top_right->0 + "</msup>"@,
        AttachShape::Sub => "<msub>"@ + base + s.bottom_right->0 + "</msub>"@,
        AttachShape::Alone => base,
        AttachShape::Framed => "<munderover><mmultiscripts>"@ + base + or_empty_row(
            s.bottom_right,
        ) + or_empty_row(s.top_right) + "<mprescripts />"@ + or_empty_row(s.bottom_left)
            + or_empty_row(s.top_left) + "</mmultiscripts>"@ + or_empty_row(s.bottom)
            + or_empty_row(s.top) + "</munderover>"@,
    }
}

/// The element for a base and its scripts: the default placement first, then
/// the shape.
pub open spec fn resolved(
    base: Seq<char>,
    limits_style: bool,
    stretch_style: bool,
    s: ScriptTexts,
) -> Seq<char> {
    shaped(base, normalized(s, limits_style, stretch_style))
}

fn append_or_empty_row(out: &mut String, script: &Option<String>)
    ensures
        final(out)@ == old(out)@ + or_empty_row(text_of(*script)),
{
    match script {
        Some(t) => out.append(t.as_str()),
        None => out.append("<mrow></mrow>"),
    }
}

/// Builds the element that shows `base` with its scripts.
///
/// `limits_style` says that the base keeps scripts above and below it,
/// `stretch_style` that it stretches; on any other base a script above or
/// below moves to the right corner if that is free.
pub fn resolve_attachment(
    base: &str,
    limits_style: bool,
    stretch_style: bool,
    scripts: Attachments,
) -> (r: String)
    ensures
        r@ == resolved(base@, limits_style, stretch_style, scripts@),
{
    let ghost given = scripts@;
    let Attachments { top, bottom, top_left, bottom_left, top_right, bottom_right } = scripts;
    let keep = limits_style || stretch_style;
    let (top, top_right) = if !keep && top.is_some() && top_right.is_none() {
        (None, top)
    } else {
        (top, top_right)
    };
    let (bottom, bottom_right) = if !keep && bottom.is_some() && bottom_right.is_none() {
        (None, bottom)
    } else {
        (bottom, bottom_right)
    };
    let ghost placed = normalized(given, limits_style, stretch_style);
    assert(placed.top == text_of(top) && placed.bottom == text_of(bottom) && placed.top_left
        == text_of(top_left) && placed.bottom_left == text_of(bottom_left) && placed.top_right
        == text_of(top_right) && placed.bottom_right == text_of(bottom_right));
    match (&top, &bottom, &top_left, &bottom_left, &top_right, &bottom_right) {
        (None, None, Some(tl), Some(bl), Some(tr), Some(br)) => {
            let mut r = String::from_str("<mmultiscripts>");
            r.append(base);
            r.append(br.as_str());
            r.append(tr.as_str());
            r.append("<mprescripts />");
            r.append(bl.as_str());
            r.append(tl.as_str());
            r.append("</mmultiscripts>");
            r
        },
        (Some(t), Some(b), None, None, None, None) => wrap3(
            "<munderover>",
            base,
            b.as_str(),
            t.as_str(),
            "</munderover>",
        ),
        (Some(t), None, None, None, None, None) => wrap2("<mover>", base, t.as_str(), "</mover>"),
        (None, Some(b), None, None, None, None) => wrap2("<munder>", base, b.as_str(), "</munder>"),
        (None, None, None, None, Some(tr), Some(br)) => wrap3(
            "<msubsup>",
            base,
            br.as_str(),
            tr.as_str(),
            "</msubsup>",
        ),
        (None, None, None, None, Some(tr), None) => wrap2("<msup>", base, tr.as_str(), "</msup>"),
        (None, None, None, None, None, Some(br)) => wrap2("<msub>", base, br.as_str(), "</msub>"),
        (None, None, None, None, None, None) => String::from_str(base),
        _ => {
            let mut r = String::from_str("<munderover><mmultiscripts>");
            r.append(base);
            append_or_empty_row(&mut r, &bottom_right);
            append_or_empty_row(&mut r, &top_right);
            r.append("<mprescripts />");
            append_or_empty_row(&mut r, &bottom_left);
            append_or_empty_row(&mut r, &top_left);
            r.append("</mmultiscripts>");
            append_or_empty_row(&mut r, &bottom);
            append_or_empty_row(&mut r, &top);
            r.append("</munderover>");
            r
        },
    }
}

} // verus!
