//! The renderer: from a tree of nodes to markup.
//!
//! [`rendered`] says which markup belongs to a node. It is defined by cases
//! on the node, and the markup of a node is put together from the markup of
//! its children. [`render`] computes it.

use vstd::prelude::*;
use vstd::string::*;
use crate::attach::resolve_attachment;
use crate::attach::resolved;
use crate::attach::text_of;
use crate::attach::Attachments;
use crate::attach::ScriptTexts;
use crate::escape::escape_helper;
use crate::escape::escaped;
use crate::eval_math::EvalMathResult;
use crate::math_class::classified;
use crate::math_class::math_class_helper;
use crate::math_class::process_text;
use crate::math_class::text_rendered;
use crate::node::Alignment;
use crate::node::Decoration;
use crate::node::Node;
use crate::node::Spacing;
use crate::style::effective_block;
use crate::style::StyleContext;
use crate::style::StyleOverride;
use crate::text::contains_char;
use crate::text::element;
use crate::text::ends_with_em;
use crate::text::has_em_suffix;
use crate::text::push_char;
use crate::text::wrap2;

verus! {

/// How many levels of nesting are rendered. What lies deeper is replaced by
/// a visible mark, so that the depth of the input cannot exhaust the stack.
pub const MAX_DEPTH: usize = 256;

/// The mark that stands for a node that could not be rendered because it
/// lies too deep.
pub open spec fn too_deep() -> Seq<char> {
    "<merror>Nesting Too Deep</merror>"@
}

/// The mark that stands for a construct without a rendering.
pub open spec fn placeholder(kind: Seq<char>) -> Seq<char> {
    "<merror>`"@ + kind + "` Not Implemented Yet</merror>"@
}

/// The opening tag of a table cell with the given alignment.
pub open spec fn cell_open(align: Alignment) -> Seq<char> {
    match align {
        Alignment::Start => "<mtd style=\"text-align: left\">"@,
        Alignment::Center => "<mtd style=\"text-align: center\">"@,
        Alignment::End => "<mtd style=\"text-align: right\">"@,
    }
}

/// A delimiter as an operator with the opening tag `tag`, nothing where
/// there is no delimiter.
pub open spec fn delimiter(tag: Seq<char>, glyph: Option<char>) -> Seq<char> {
    match glyph {
        Some(c) => tag + seq![c] + "</mo>"@,
        None => Seq::empty(),
    }
}

/// `unit`, `count` times.
pub open spec fn repeated(unit: Seq<char>, count: nat) -> Seq<char>
    decreases count,
{
    if count == 0 {
        Seq::empty()
    } else {
        repeated(unit, (count - 1) as nat) + unit
    }
}

/// Whether a mark goes under its body.
pub open spec fn goes_under(mark: Decoration) -> bool {
    match mark {
        Decoration::Underbrace | Decoration::Underbracket | Decoration::Underparen
        | Decoration::Undershell => true,
        _ => false,
    }
}

/// The stretching operator that draws a mark.
pub open spec fn mark_operator(mark: Decoration) -> Seq<char> {
    match mark {
        Decoration::Underbrace => "<mo stretchy=\"true\">&#x23DF;</mo>"@,
        Decoration::Overbrace => "<mo stretchy=\"true\">&#x23DE;</mo>"@,
        Decoration::Underbracket => "<mo stretchy=\"true\">&#x23B5;</mo>"@,
        Decoration::Overbracket => "<mo stretchy=\"true\">&#x23B4;</mo>"@,
        Decoration::Underparen => "<mo stretchy=\"true\">&#x2323;</mo>"@,
        Decoration::Overparen => "<mo stretchy=\"true\">&#x2322;</mo>"@,
        Decoration::Undershell => "<mo stretchy=\"true\">&#x23E1;</mo>"@,
        Decoration::Overshell => "<mo stretchy=\"true\">&#x23E0;</mo>"@,
    }
}

/// A body with a mark under or over it. An annotation is first paired with
/// the mark; the pair is then put under or over the body.
pub open spec fn decorated(mark: Decoration, body: Seq<char>, annotation: Option<Seq<char>>)
    -> Seq<char> {
    let open = if goes_under(mark) {
        "<munder>"@
    } else {
        "<mover>"@
    };
    let close = if goes_under(mark) {
        "</munder>"@
    } else {
        "</mover>"@
    };
    let script = match annotation {
        Some(a) => open + mark_operator(mark) + "<mtext>"@ + a + "</mtext>"@ + close,
        None => mark_operator(mark),
    };
    open + body + script + close
}

/// A space of the given amount: the amount itself where it is a length in
/// units of the font size, a third of that unit for any other amount.
pub open spec fn spacer(amount: Spacing) -> Seq<char> {
    match amount {
        Spacing::Relative(length) => if ends_with_em(length@) {
            "<mspace width=\""@ + length@ + "\"></mspace>"@
        } else {
            "<mspace width=\"0.333em\"></mspace>"@
        },
        Spacing::Fractional => "<mspace width=\"0.333em\"></mspace>"@,
    }
}

/// The node inside any number of equation wrappers.
pub open spec fn without_equations(node: Node) -> Node
    decreases node,
{
    match node {
        Node::Equation { body } => without_equations(*body),
        _ => node,
    }
}

/// The six scripts around a base, each one present or not.
pub struct Scripts {
    pub top: Option<Node>,
    pub bottom: Option<Node>,
    pub top_left: Option<Node>,
    pub bottom_left: Option<Node>,
    pub top_right: Option<Node>,
    pub bottom_right: Option<Node>,
}

/// The node in an optional box.
pub open spec fn unboxed(o: Option<Box<Node>>) -> Option<Node> {
    match o {
        Some(b) => Some(*b),
        None => None,
    }
}

/// One script after a base that is itself a base with scripts has taken
/// over the scripts of its parent: it keeps its own, and takes the parent's
/// where it has none.
pub open spec fn taken_over(own: Option<Node>, parents: Option<Node>) -> Option<Node> {
    if own is None {
        parents
    } else {
        own
    }
}

/// One script of the parent after its base has taken over what it could:
/// the parent keeps a script only where the base has one of its own.
pub open spec fn left_over(own: Option<Node>, parents: Option<Node>) -> Option<Node> {
    if own is None {
        None
    } else {
        parents
    }
}

/// The scripts of the inner base after it has taken over from its parent.
pub open spec fn merged_inner(inner: Scripts, outer: Scripts) -> Scripts {
    Scripts {
        top: taken_over(inner.top, outer.top),
        bottom: taken_over(inner.bottom, outer.bottom),
        top_left: taken_over(inner.top_left, outer.top_left),
        bottom_left: taken_over(inner.bottom_left, outer.bottom_left),
        top_right: taken_over(inner.top_right, outer.top_right),
        bottom_right: taken_over(inner.bottom_right, outer.bottom_right),
    }
}

/// The scripts that stay with the parent.
pub open spec fn merged_outer(inner: Scripts, outer: Scripts) -> Scripts {
    Scripts {
        top: left_over(inner.top, outer.top),
        bottom: left_over(inner.bottom, outer.bottom),
        top_left: left_over(inner.top_left, outer.top_left),
        bottom_left: left_over(inner.bottom_left, outer.bottom_left),
        top_right: left_over(inner.top_right, outer.top_right),
        bottom_right: left_over(inner.bottom_right, outer.bottom_right),
    }
}

/// Whether a base keeps its scripts above and below it: a limits wrapper, an
/// operator that says so, or any base whose markup holds a summation sign.
pub open spec fn limits_style(base: Node, base_text: Seq<char>) -> bool {
    ||| base is Limits
    ||| base_text.contains('∑')
    ||| (base matches Node::Op { limits, .. } && limits)
}

/// The position of the first line break from `from` on, the length of
/// `items` if there is none.
pub open spec fn row_end(items: Seq<Node>, from: int) -> int
    decreases items.len() - from,
{
    if 0 <= from < items.len() && !(items[from] is Linebreak) {
        row_end(items, from + 1)
    } else {
        from
    }
}

/// The position of the first alignment point from `from` on and before
/// `to`, or `to` if there is none.
pub open spec fn cell_end(items: Seq<Node>, from: int, to: int) -> int
    decreases to - from,
{
    if 0 <= from < to <= items.len() && !(items[from] is AlignPoint) {
        cell_end(items, from + 1, to)
    } else {
        from
    }
}

/// Whether a line break occurs among `items`.
pub open spec fn has_linebreak(items: Seq<Node>) -> bool {
    exists|i: int| 0 <= i < items.len() && #[trigger] items[i] is Linebreak
}

/// Whether an alignment point occurs among `items`.
pub open spec fn has_align_point(items: Seq<Node>) -> bool {
    exists|i: int| 0 <= i < items.len() && #[trigger] items[i] is AlignPoint
}

/// The opening tag of the cell in column `column` of a table that a
/// sequence lays out: centred in a table without alignment points, else
/// right and left in turn, starting on the right.
pub open spec fn column_open(column: int, aligned: bool) -> Seq<char> {
    if !aligned {
        cell_open(Alignment::Center)
    } else if column % 2 == 0 {
        cell_open(Alignment::End)
    } else {
        cell_open(Alignment::Start)
    }
}

/// The markup of `node` in the style context `levels`, rendered `depth`
/// levels deep.
pub open spec fn rendered(node: Node, levels: Seq<StyleOverride>, depth: nat) -> Seq<char>
    decreases depth, 0int, 0int,
{
    if depth == 0 {
        too_deep()
    } else {
        let d = (depth - 1) as nat;
        match node {
            Node::Fraction { numerator, denominator } => "<mfrac>"@ + rendered(
                *numerator,
                levels,
                d,
            ) + rendered(*denominator, levels, d) + "</mfrac>"@,
            Node::Accent { base, accent } => "<mover accent=\"true\">"@ + rendered(
                *base,
                levels,
                d,
            ) + delimiter("<mo>"@, Some(accent)) + "</mover>"@,
            Node::Limits { body } => rendered(*body, levels, d),
            Node::Scripts { body } => "<mrow>"@ + rendered(*body, levels, d) + "</mrow>"@,
            Node::Sequence { children } => sequence_rendered(children@, levels, d),
            Node::Lr { body } => "<mrow>"@ + rendered(*body, levels, d) + "</mrow>"@,
            Node::Attach { base, top, bottom, top_left, bottom_left, top_right, bottom_right } =>
                attach_rendered(
                *base,
                Scripts {
                    top: unboxed(top),
                    bottom: unboxed(bottom),
                    top_left: unboxed(top_left),
                    bottom_left: unboxed(bottom_left),
                    top_right: unboxed(top_right),
                    bottom_right: unboxed(bottom_right),
                },
                levels,
                d,
            ),
            Node::Text { raw } => text_rendered(raw@, levels),
            Node::Root { radicand, index } => match index {
                Some(i) => "<mroot>"@ + rendered(*radicand, levels, d) + rendered(*i, levels, d)
                    + "</mroot>"@,
                None => "<msqrt>"@ + rendered(*radicand, levels, d) + "</msqrt>"@,
            },
            Node::Binomial { upper, lower } => "<mrow><mo>(</mo><mfrac linethickness=\"0\">"@
                + rendered(*upper, levels, d) + "<mrow>"@ + joined(lower@, 0, levels, d)
                + "</mrow></mfrac><mo>)</mo></mrow>"@,
            Node::Cancel { body } =>
                "<menclose class=\"equation-typst-cancel\" notation=\"updiagonalstrike\">"@
                + rendered(*body, levels, d)
                + "<mrow class=\"equation-typst-cancel-wrapper-placeholder\"></mrow></menclose>"@,
            Node::Op { label, limits } => "<mo>"@ + text_or_rendered(*label, true, levels, d)
                + "</mo>"@,
            Node::Cases { open, close, reverse, children } => "<mrow>"@ + delimiter(
                "<mo>"@,
                if reverse {
                    None
                } else {
                    open
                },
            ) + "<mtable>"@ + cases_rows(children@, 0, levels, d) + "</mtable>"@ + delimiter(
                "<mo>"@,
                if reverse {
                    close
                } else {
                    None
                },
            ) + "</mrow>"@,
            Node::Matrix { open, close, align, rows } => "<mrow>"@ + delimiter(
                "<mo form=\"prefix\">"@,
                open,
            ) + "<mtable>"@ + matrix_rows(rows@, 0, align, levels, d) + "</mtable>"@ + delimiter(
                "<mo form=\"postfix\">"@,
                close,
            ) + "</mrow>"@,
            Node::Vector { open, close, align, children } => "<mrow>"@ + delimiter(
                "<mo form=\"prefix\">"@,
                open,
            ) + "<mtable>"@ + vector_rows(children@, 0, align, levels, d) + "</mtable>"@
                + delimiter("<mo form=\"postfix\">"@, close) + "</mrow>"@,
            Node::Class { class, body } => classified(
                text_or_rendered(*body, false, levels, d),
                None,
                class,
                levels,
            ),
            Node::Equation { body } => rendered(*body, levels, d),
            Node::Primes { count } => "<mo>"@ + repeated("&#x2032;"@, count as nat) + "</mo>"@,
            Node::Styled { style, child } => rendered(*child, levels.push(style), d),
            Node::HSpace { amount } => spacer(amount),
            Node::Hide { body } => "<mrow style=\"visibility: hidden;\">"@ + rendered(
                *body,
                levels,
                d,
            ) + "</mrow>"@,
            Node::Stretch { body } => match *body {
                Node::Text { raw } => "<mo stretchy=\"true\">"@ + escaped(raw@) + "</mo>"@,
                _ => rendered(*body, levels, d),
            },
            Node::Mid { body } => "<mo fence=\"true\" form=\"infix\" stretchy=\"true\">"@
                + text_or_rendered(*body, false, levels, d) + "</mo>"@,
            Node::Underline { body } =>
                "<mrow style=\"border-bottom: 1px solid currentColor; display: inline-block;\">"@
                + rendered(*body, levels, d) + "</mrow>"@,
            Node::Overline { body } =>
                "<mrow style=\"border-top: 1px solid currentColor; display: inline-block;\">"@
                + rendered(*body, levels, d) + "</mrow>"@,
            Node::Decorated { mark, body, annotation } => decorated(
                mark,
                rendered(*body, levels, d),
                match annotation {
                    Some(a) => Some(rendered(*a, levels, d)),
                    None => None,
                },
            ),
            Node::Space => Seq::empty(),
            Node::AlignPoint => Seq::empty(),
            Node::Linebreak => placeholder("linebreak"@),
            Node::Unknown { kind } => placeholder(kind@),
        }
    }
}

/// The text of a text node, escaped if `escape` says so, and the markup of
/// any other node.
pub open spec fn text_or_rendered(node: Node, escape: bool, levels: Seq<StyleOverride>, d: nat)
    -> Seq<char>
    decreases d, 1int, 0int,
{
    match node {
        Node::Text { raw } => if escape {
            escaped(raw@)
        } else {
            raw@
        },
        _ => rendered(node, levels, d),
    }
}

/// The markup of the items from `from` up to `to`, one after the other.
pub open spec fn rendered_each(
    items: Seq<Node>,
    from: int,
    to: int,
    levels: Seq<StyleOverride>,
    d: nat,
) -> Seq<char>
    decreases d, 1int, to - from,
{
    if 0 <= from < to <= items.len() {
        rendered(items[from], levels, d) + rendered_each(items, from + 1, to, levels, d)
    } else {
        Seq::empty()
    }
}

/// The markup of the items from `from` on, with a comma operator between
/// each two.
pub open spec fn joined(items: Seq<Node>, from: int, levels: Seq<StyleOverride>, d: nat) -> Seq<
    char,
>
    decreases d, 1int, items.len() - from,
{
    if 0 <= from < items.len() {
        (if from > 0 {
            "<mo>,</mo>"@
        } else {
            Seq::empty()
        }) + rendered(items[from], levels, d) + joined(items, from + 1, levels, d)
    } else {
        Seq::empty()
    }
}

/// The markup of a script that may be missing.
pub open spec fn rendered_script(script: Option<Node>, levels: Seq<StyleOverride>, d: nat)
    -> Option<Seq<char>>
    decreases d, 1int, 0int,
{
    match script {
        Some(node) => Some(rendered(node, levels, d)),
        None => None,
    }
}

/// The markup of each of the six scripts.
pub open spec fn rendered_scripts(s: Scripts, levels: Seq<StyleOverride>, d: nat) -> ScriptTexts
    decreases d, 2int, 0int,
{
    ScriptTexts {
        top: rendered_script(s.top, levels, d),
        bottom: rendered_script(s.bottom, levels, d),
        top_left: rendered_script(s.top_left, levels, d),
        bottom_left: rendered_script(s.bottom_left, levels, d),
        top_right: rendered_script(s.top_right, levels, d),
        bottom_right: rendered_script(s.bottom_right, levels, d),
    }
}

/// The markup of a base with its scripts; `d` is the depth to which base
/// and scripts are rendered.
///
/// A base that is itself a base with scripts, directly or inside equation
/// wrappers, first takes over the scripts of its parent wherever it has none
/// of its own. It is then rendered with what it has, and the parent attaches
/// what is left over to it.
pub open spec fn attach_rendered(base: Node, s: Scripts, levels: Seq<StyleOverride>, d: nat)
    -> Seq<char>
    decreases d, 3int, 0int,
{
    match without_equations(base) {
        Node::Attach { base: inner_base, top, bottom, top_left, bottom_left, top_right, bottom_right } => {
            let inner = Scripts {
                top: unboxed(top),
                bottom: unboxed(bottom),
                top_left: unboxed(top_left),
                bottom_left: unboxed(bottom_left),
                top_right: unboxed(top_right),
                bottom_right: unboxed(bottom_right),
            };
            let base_text = if d == 0 {
                too_deep()
            } else {
                attach_rendered(*inner_base, merged_inner(inner, s), levels, (d - 1) as nat)
            };
            resolved(
                base_text,
                base_text.contains('∑'),
                false,
                rendered_scripts(merged_outer(inner, s), levels, d),
            )
        },
        _ => {
            let base_text = rendered(base, levels, d);
            resolved(
                base_text,
                limits_style(base, base_text),
                base is Stretch,
                rendered_scripts(s, levels, d),
            )
        },
    }
}

/// The rows of a case block from row `from` on.
pub open spec fn cases_rows(rows: Seq<Node>, from: int, levels: Seq<StyleOverride>, d: nat)
    -> Seq<char>
    decreases d, 4int, rows.len() - from,
{
    if 0 <= from < rows.len() {
        "<mtr>"@ + cases_row(rows[from], levels, d) + "</mtr>"@ + cases_rows(
            rows,
            from + 1,
            levels,
            d,
        )
    } else {
        Seq::empty()
    }
}

/// One row of a case block. A sequence gives two cells: its first child,
/// and all the others together, if they render to anything. Any other node
/// gives one cell.
pub open spec fn cases_row(row: Node, levels: Seq<StyleOverride>, d: nat) -> Seq<char>
    decreases d, 3int, 0int,
{
    match row {
        Node::Sequence { children } => if d > 0 {
            let first = if children@.len() > 0 {
                cell_open(Alignment::Start) + rendered(children@[0], levels, (d - 1) as nat)
                    + "</mtd>"@
            } else {
                Seq::empty()
            };
            let rest = cases_rest(children@, 1, levels, (d - 1) as nat);
            if rest.len() > 0 {
                first + cell_open(Alignment::Start) + rest + "</mtd>"@
            } else {
                first
            }
        } else {
            cell_open(Alignment::Start) + too_deep() + "</mtd>"@
        },
        _ => cell_open(Alignment::Start) + rendered(row, levels, d) + "</mtd>"@,
    }
}

/// The second cell of a row of a case block: the markup of the children
/// from `from` on, where a space is a no-break space.
pub open spec fn cases_rest(items: Seq<Node>, from: int, levels: Seq<StyleOverride>, d: nat)
    -> Seq<char>
    decreases d, 1int, items.len() - from,
{
    if 0 <= from < items.len() {
        (if items[from] is Space {
            "<mtext>&nbsp;</mtext>"@
        } else {
            rendered(items[from], levels, d)
        }) + cases_rest(items, from + 1, levels, d)
    } else {
        Seq::empty()
    }
}

/// The rows of a matrix from row `from` on.
pub open spec fn matrix_rows(
    rows: Seq<Vec<Node>>,
    from: int,
    align: Alignment,
    levels: Seq<StyleOverride>,
    d: nat,
) -> Seq<char>
    decreases d, 4int, rows.len() - from,
{
    if 0 <= from < rows.len() {
        "<mtr>"@ + matrix_cells(rows[from]@, 0, align, levels, d) + "</mtr>"@ + matrix_rows(
            rows,
            from + 1,
            align,
            levels,
            d,
        )
    } else {
        Seq::empty()
    }
}

/// The cells of a row of a matrix from cell `from` on.
pub open spec fn matrix_cells(
    items: Seq<Node>,
    from: int,
    align: Alignment,
    levels: Seq<StyleOverride>,
    d: nat,
) -> Seq<char>
    decreases d, 3int, items.len() - from,
{
    if 0 <= from < items.len() {
        cell_open(align) + rendered(items[from], levels, d) + "</mtd>"@ + matrix_cells(
            items,
            from + 1,
            align,
            levels,
            d,
        )
    } else {
        Seq::empty()
    }
}

/// The rows of a vector from row `from` on: one cell each.
pub open spec fn vector_rows(
    items: Seq<Node>,
    from: int,
    align: Alignment,
    levels: Seq<StyleOverride>,
    d: nat,
) -> Seq<char>
    decreases d, 3int, items.len() - from,
{
    if 0 <= from < items.len() {
        "<mtr>"@ + cell_open(align) + rendered(items[from], levels, d) + "</mtd></mtr>"@
            + vector_rows(items, from + 1, align, levels, d)
    } else {
        Seq::empty()
    }
}

/// The cells of one row of the table that a sequence lays out: the items
/// from `from` up to `to`, cut at each alignment point. `column` is the
/// column of the first of these cells.
pub open spec fn table_cells(
    items: Seq<Node>,
    from: int,
    to: int,
    column: int,
    aligned: bool,
    levels: Seq<StyleOverride>,
    d: nat,
) -> Seq<char>
    decreases d, 3int, to - from,
{
    let end = cell_end(items, from, to);
    column_open(column, aligned) + rendered_each(items, from, end, levels, d) + "</mtd>"@ + (if from
        <= end < to {
        table_cells(items, end + 1, to, column + 1, aligned, levels, d)
    } else {
        Seq::empty()
    })
}

/// The rows of the table that a sequence lays out: the items from `from`
/// on, cut at each line break.
pub open spec fn table_rows(
    items: Seq<Node>,
    from: int,
    aligned: bool,
    levels: Seq<StyleOverride>,
    d: nat,
) -> Seq<char>
    decreases d, 4int, items.len() - from,
{
    let end = row_end(items, from);
    "<mtr>"@ + table_cells(items, from, end, 0, aligned, levels, d) + "</mtr>"@ + (if from <= end
        < items.len() {
        table_rows(items, end + 1, aligned, levels, d)
    } else {
        Seq::empty()
    })
}

/// The markup of a sequence. Line breaks cut it into rows and alignment
/// points cut the rows into cells. Without either it is one inline group;
/// with any of them it is a table.
pub open spec fn sequence_rendered(items: Seq<Node>, levels: Seq<StyleOverride>, d: nat) -> Seq<
    char,
>
    decreases d, 5int, 0int,
{
    if !has_linebreak(items) && !has_align_point(items) {
        "<mrow>"@ + rendered_each(items, 0, items.len() as int, levels, d) + "</mrow>"@
    } else {
        "<mtable>"@ + table_rows(items, 0, has_align_point(items), levels, d) + "</mtable>"@
    }
}

/// The document for an equation: the root element, marked as a block where
/// the style says so, around the markup of the equation and, if asked for,
/// the source as an annotation.
pub open spec fn document(
    equation: Node,
    style: Option<StyleOverride>,
    source: Seq<char>,
    annotate: bool,
) -> Seq<char> {
    let levels = match style {
        Some(level) => seq![level],
        None => Seq::empty(),
    };
    "<math"@ + (if effective_block(levels) {
        " display=\"block\""@
    } else {
        Seq::empty()
    }) + "><semantics>"@ + rendered(equation, levels, MAX_DEPTH as nat) + (if annotate {
        "<annotation encoding=\"application/x-typst\">"@ + source + "</annotation>"@
    } else {
        Seq::empty()
    }) + "</semantics></math>"@
}

/// The scripts around a base, by reference.
struct ScriptRefs<'a> {
    top: Option<&'a Node>,
    bottom: Option<&'a Node>,
    top_left: Option<&'a Node>,
    bottom_left: Option<&'a Node>,
    top_right: Option<&'a Node>,
    bottom_right: Option<&'a Node>,
}

spec fn pointee(o: Option<&Node>) -> Option<Node> {
    match o {
        Some(n) => Some(*n),
        None => None,
    }
}

impl<'a> ScriptRefs<'a> {
    spec fn scripts(&self) -> Scripts {
        Scripts {
            top: pointee(self.top),
            bottom: pointee(self.bottom),
            top_left: pointee(self.top_left),
            bottom_left: pointee(self.bottom_left),
            top_right: pointee(self.top_right),
            bottom_right: pointee(self.bottom_right),
        }
    }
}

fn script_ref(o: &Option<Box<Node>>) -> (r: Option<&Node>)
    ensures
        pointee(r) == unboxed(*o),
{
    match o {
        Some(b) => Some(&**b),
        None => None,
    }
}

fn take_over<'a>(own: Option<&'a Node>, parents: Option<&'a Node>) -> (r: Option<&'a Node>)
    ensures
        pointee(r) == taken_over(pointee(own), pointee(parents)),
{
    if own.is_none() {
        parents
    } else {
        own
    }
}

fn leave_over<'a>(own: Option<&'a Node>, parents: Option<&'a Node>) -> (r: Option<&'a Node>)
    ensures
        pointee(r) == left_over(pointee(own), pointee(parents)),
{
    if own.is_none() {
        None
    } else {
        parents
    }
}

fn strip_equations(node: &Node) -> (r: &Node)
    ensures
        *r == without_equations(*node),
    decreases *node,
{
    match node {
        Node::Equation { body } => strip_equations(body),
        _ => node,
    }
}

fn is_linebreak(node: &Node) -> (r: bool)
    ensures
        r == (*node is Linebreak),
{
    match node {
        Node::Linebreak => true,
        _ => false,
    }
}

fn is_align_point(node: &Node) -> (r: bool)
    ensures
        r == (*node is AlignPoint),
{
    match node {
        Node::AlignPoint => true,
        _ => false,
    }
}

fn is_space(node: &Node) -> (r: bool)
    ensures
        r == (*node is Space),
{
    match node {
        Node::Space => true,
        _ => false,
    }
}

fn cell_tag(align: Alignment) -> (r: &'static str)
    ensures
        r@ == cell_open(align),
{
    match align {
        Alignment::Start => "<mtd style=\"text-align: left\">",
        Alignment::Center => "<mtd style=\"text-align: center\">",
        Alignment::End => "<mtd style=\"text-align: right\">",
    }
}

fn column_tag(column: usize, aligned: bool) -> (r: &'static str)
    ensures
        r@ == column_open(column as int, aligned),
{
    if !aligned {
        cell_tag(Alignment::Center)
    } else if column % 2 == 0 {
        cell_tag(Alignment::End)
    } else {
        cell_tag(Alignment::Start)
    }
}

fn mark_tag(mark: Decoration) -> (r: &'static str)
    ensures
        r@ == mark_operator(mark),
{
    match mark {
        Decoration::Underbrace => "<mo stretchy=\"true\">&#x23DF;</mo>",
        Decoration::Overbrace => "<mo stretchy=\"true\">&#x23DE;</mo>",
        Decoration::Underbracket => "<mo stretchy=\"true\">&#x23B5;</mo>",
        Decoration::Overbracket => "<mo stretchy=\"true\">&#x23B4;</mo>",
        Decoration::Underparen => "<mo stretchy=\"true\">&#x2323;</mo>",
        Decoration::Overparen => "<mo stretchy=\"true\">&#x2322;</mo>",
        Decoration::Undershell => "<mo stretchy=\"true\">&#x23E1;</mo>",
        Decoration::Overshell => "<mo stretchy=\"true\">&#x23E0;</mo>",
    }
}

fn is_under(mark: Decoration) -> (r: bool)
    ensures
        r == goes_under(mark),
{
    match mark {
        Decoration::Underbrace | Decoration::Underbracket | Decoration::Underparen
        | Decoration::Undershell => true,
        _ => false,
    }
}

/// Puts a mark under or over a body, with its annotation if it has one.
pub fn decorate(mark: Decoration, body: &str, annotation: Option<&str>) -> (r: String)
    ensures
        r@ == decorated(
            mark,
            body@,
            match annotation {
                Some(a) => Some(a@),
                None => None,
            },
        ),
{
    let under = is_under(mark);
    let open = if under {
        "<munder>"
    } else {
        "<mover>"
    };
    let close = if under {
        "</munder>"
    } else {
        "</mover>"
    };
    let script = match annotation {
        Some(a) => {
            let mut script = String::from_str(open);
            script.append(mark_tag(mark));
            script.append("<mtext>");
            script.append(a);
            script.append("</mtext>");
            script.append(close);
            script
        },
        None => String::from_str(mark_tag(mark)),
    };
    wrap2(open, body, script.as_str(), close)
}

/// A horizontal space of the given amount.
pub fn process_h(amount: &Spacing) -> (r: String)
    ensures
        r@ == spacer(*amount),
{
    match amount {
        Spacing::Relative(length) => {
            if has_em_suffix(length.as_str()) {
                element("<mspace width=\"", length.as_str(), "\"></mspace>")
            } else {
                String::from_str("<mspace width=\"0.333em\"></mspace>")
            }
        },
        Spacing::Fractional => String::from_str("<mspace width=\"0.333em\"></mspace>"),
    }
}

/// One prime sign for each of `count` primes, in one operator.
pub fn process_primes(count: usize) -> (r: String)
    ensures
        r@ == "<mo>"@ + repeated("&#x2032;"@, count as nat) + "</mo>"@,
{
    let mut r = String::from_str("<mo>");
    let mut i: usize = 0;
    while i < count
        invariant
            i <= count,
            r@ == "<mo>"@ + repeated("&#x2032;"@, i as nat),
        decreases count - i,
    {
        r.append("&#x2032;");
        i = i + 1;
        proof {
            assert(r@ =~= "<mo>"@ + repeated("&#x2032;"@, i as nat));
        }
    }
    r.append("</mo>");
    r
}

fn append_delimiter(out: &mut String, tag: &str, glyph: Option<char>)
    ensures
        final(out)@ == old(out)@ + delimiter(tag@, glyph),
{
    match glyph {
        Some(c) => {
            out.append(tag);
            push_char(out, c);
            out.append("</mo>");
            proof {
                assert(final(out)@ =~= old(out)@ + delimiter(tag@, glyph));
            }
        },
        None => {
            proof {
                assert(old(out)@ =~= old(out)@ + delimiter(tag@, glyph));
            }
        },
    }
}

fn placeholder_for(kind: &str) -> (r: String)
    ensures
        r@ == placeholder(kind@),
{
    element("<merror>`", kind, "` Not Implemented Yet</merror>")
}

fn find_row_end(items: &Vec<Node>, from: usize) -> (end: usize)
    requires
        from <= items.len(),
    ensures
        end == row_end(items@, from as int),
        from <= end <= items.len(),
{
    let mut i: usize = from;
    while i < items.len() && !is_linebreak(&items[i])
        invariant
            from <= i <= items.len(),
            row_end(items@, from as int) == row_end(items@, i as int),
        decreases items.len() - i,
    {
        i = i + 1;
    }
    i
}

fn find_cell_end(items: &Vec<Node>, from: usize, to: usize) -> (end: usize)
    requires
        from <= to <= items.len(),
    ensures
        end == cell_end(items@, from as int, to as int),
        from <= end <= to,
{
    let mut i: usize = from;
    while i < to && !is_align_point(&items[i])
        invariant
            from <= i <= to <= items.len(),
            cell_end(items@, from as int, to as int) == cell_end(items@, i as int, to as int),
        decreases to - i,
    {
        i = i + 1;
    }
    i
}

fn any_linebreak(items: &Vec<Node>) -> (r: bool)
    ensures
        r == has_linebreak(items@),
{
    let mut i: usize = 0;
    while i < items.len()
        invariant
            i <= items.len(),
            forall|j: int| 0 <= j < i ==> !(#[trigger] items@[j] is Linebreak),
        decreases items.len() - i,
    {
        if is_linebreak(&items[i]) {
            return true;
        }
        i = i + 1;
    }
    false
}

fn any_align_point(items: &Vec<Node>) -> (r: bool)
    ensures
        r == has_align_point(items@),
{
    let mut i: usize = 0;
    while i < items.len()
        invariant
            i <= items.len(),
            forall|j: int| 0 <= j < i ==> !(#[trigger] items@[j] is AlignPoint),
        decreases items.len() - i,
    {
        if is_align_point(&items[i]) {
            return true;
        }
        i = i + 1;
    }
    false
}

/// Renders `node` in the style context `style`, at most `depth` levels deep.
pub fn render_within(node: &Node, style: &StyleContext, depth: usize) -> (r: String)
    ensures
        r@ == rendered(*node, style@, depth as nat),
    decreases depth, 0int, 0int,
{
    if depth == 0 {
        return String::from_str("<merror>Nesting Too Deep</merror>");
    }
    let d: usize = depth - 1;
    match node {
        Node::Fraction { numerator, denominator } => {
            let n = render_within(numerator, style, d);
            let m = render_within(denominator, style, d);
            wrap2("<mfrac>", n.as_str(), m.as_str(), "</mfrac>")
        },
        Node::Accent { base, accent } => {
            let mut r = String::from_str("<mover accent=\"true\">");
            let b = render_within(base, style, d);
            r.append(b.as_str());
            append_delimiter(&mut r, "<mo>", Some(*accent));
            r.append("</mover>");
            r
        },
        Node::Limits { body } => render_within(body, style, d),
        Node::Scripts { body } => {
            let b = render_within(body, style, d);
            element("<mrow>", b.as_str(), "</mrow>")
        },
        Node::Sequence { children } => process_sequence(children, style, d),
        Node::Lr { body } => {
            let b = render_within(body, style, d);
            element("<mrow>", b.as_str(), "</mrow>")
        },
        Node::Attach { base, top, bottom, top_left, bottom_left, top_right, bottom_right } => {
            let scripts = ScriptRefs {
                top: script_ref(top),
                bottom: script_ref(bottom),
                top_left: script_ref(top_left),
                bottom_left: script_ref(bottom_left),
                top_right: script_ref(top_right),
                bottom_right: script_ref(bottom_right),
            };
            process_attach(base, scripts, style, d)
        },
        Node::Text { raw } => process_text(raw.as_str(), style),
        Node::Root { radicand, index } => {
            let r = render_within(radicand, style, d);
            match index {
                Some(i) => {
                    let i = render_within(i, style, d);
                    wrap2("<mroot>", r.as_str(), i.as_str(), "</mroot>")
                },
                None => element("<msqrt>", r.as_str(), "</msqrt>"),
            }
        },
        Node::Binomial { upper, lower } => {
            let mut r = String::from_str("<mrow><mo>(</mo><mfrac linethickness=\"0\">");
            let u = render_within(upper, style, d);
            r.append(u.as_str());
            r.append("<mrow>");
            let l = join_rendered(lower, style, d);
            r.append(l.as_str());
            r.append("</mrow></mfrac><mo>)</mo></mrow>");
            r
        },
        Node::Cancel { body } => {
            let b = render_within(body, style, d);
            element(
                "<menclose class=\"equation-typst-cancel\" notation=\"updiagonalstrike\">",
                b.as_str(),
                "<mrow class=\"equation-typst-cancel-wrapper-placeholder\"></mrow></menclose>",
            )
        },
        Node::Op { label, .. } => {
            let l = text_or_render(label, true, style, d);
            element("<mo>", l.as_str(), "</mo>")
        },
        Node::Cases { open, close, reverse, children } => {
            let mut r = String::from_str("<mrow>");
            append_delimiter(
                &mut r,
                "<mo>",
                if *reverse {
                    None
                } else {
                    *open
                },
            );
            r.append("<mtable>");
            let rows = process_cases(children, style, d);
            r.append(rows.as_str());
            r.append("</mtable>");
            append_delimiter(
                &mut r,
                "<mo>",
                if *reverse {
                    *close
                } else {
                    None
                },
            );
            r.append("</mrow>");
            r
        },
        Node::Matrix { open, close, align, rows } => {
            let mut r = String::from_str("<mrow>");
            append_delimiter(&mut r, "<mo form=\"prefix\">", *open);
            r.append("<mtable>");
            let body = process_mat(rows, *align, style, d);
            r.append(body.as_str());
            r.append("</mtable>");
            append_delimiter(&mut r, "<mo form=\"postfix\">", *close);
            r.append("</mrow>");
            r
        },
        Node::Vector { open, close, align, children } => {
            let mut r = String::from_str("<mrow>");
            append_delimiter(&mut r, "<mo form=\"prefix\">", *open);
            r.append("<mtable>");
            let body = process_vec(children, *align, style, d);
            r.append(body.as_str());
            r.append("</mtable>");
            append_delimiter(&mut r, "<mo form=\"postfix\">", *close);
            r.append("</mrow>");
            r
        },
        Node::Class { class, body } => {
            let text = text_or_render(body, false, style, d);
            math_class_helper(text.as_str(), None, *class, style)
        },
        Node::Equation { body } => render_within(body, style, d),
        Node::Primes { count } => process_primes(*count),
        Node::Styled { style: level, child } => {
            let inner = style.nested(*level);
            render_within(child, &inner, d)
        },
        Node::HSpace { amount } => process_h(amount),
        Node::Hide { body } => {
            let b = render_within(body, style, d);
            element("<mrow style=\"visibility: hidden;\">", b.as_str(), "</mrow>")
        },
        Node::Stretch { body } => {
            match &**body {
                Node::Text { raw } => {
                    let t = escape_helper(raw.as_str());
                    element("<mo stretchy=\"true\">", t.as_str(), "</mo>")
                },
                _ => render_within(body, style, d),
            }
        },
        Node::Mid { body } => {
            let t = text_or_render(body, false, style, d);
            element("<mo fence=\"true\" form=\"infix\" stretchy=\"true\">", t.as_str(), "</mo>")
        },
        Node::Underline { body } => {
            let b = render_within(body, style, d);
            element(
                "<mrow style=\"border-bottom: 1px solid currentColor; display: inline-block;\">",
                b.as_str(),
                "</mrow>",
            )
        },
        Node::Overline { body } => {
            let b = render_within(body, style, d);
            element(
                "<mrow style=\"border-top: 1px solid currentColor; display: inline-block;\">",
                b.as_str(),
                "</mrow>",
            )
        },
        Node::Decorated { mark, body, annotation } => {
            let b = render_within(body, style, d);
            match annotation {
                Some(a) => {
                    let a = render_within(a, style, d);
                    decorate(*mark, b.as_str(), Some(a.as_str()))
                },
                None => decorate(*mark, b.as_str(), None),
            }
        },
        Node::Space => String::new(),
        Node::AlignPoint => String::new(),
        Node::Linebreak => placeholder_for("linebreak"),
        Node::Unknown { kind } => placeholder_for(kind.as_str()),
    }
}

fn text_or_render(node: &Node, escape: bool, style: &StyleContext, d: usize) -> (r: String)
    ensures
        r@ == text_or_rendered(*node, escape, style@, d as nat),
    decreases d, 1int, 0int,
{
    match node {
        Node::Text { raw } => {
            if escape {
                escape_helper(raw.as_str())
            } else {
                String::from_str(raw.as_str())
            }
        },
        _ => render_within(node, style, d),
    }
}

fn render_each(items: &Vec<Node>, from: usize, to: usize, style: &StyleContext, d: usize) -> (r:
    String)
    requires
        from <= to <= items.len(),
    ensures
        r@ == rendered_each(items@, from as int, to as int, style@, d as nat),
    decreases d, 1int, 0int,
{
    let mut r = String::new();
    let mut i: usize = from;
    let ghost whole = rendered_each(items@, from as int, to as int, style@, d as nat);
    proof {
        assert(whole =~= r@ + whole);
    }
    while i < to
        invariant
            from <= i <= to <= items.len(),
            whole == r@ + rendered_each(items@, i as int, to as int, style@, d as nat),
        decreases to - i,
    {
        let one = render_within(&items[i], style, d);
        proof {
            let rest = rendered_each(items@, i + 1, to as int, style@, d as nat);
            assert(r@ + (one@ + rest) =~= (r@ + one@) + rest);
        }
        r.append(one.as_str());
        i = i + 1;
    }
    proof {
        assert(whole =~= r@);
    }
    r
}

fn join_rendered(items: &Vec<Node>, style: &StyleContext, d: usize) -> (r: String)
    ensures
        r@ == joined(items@, 0, style@, d as nat),
    decreases d, 1int, 0int,
{
    let mut r = String::new();
    let mut i: usize = 0;
    let ghost whole = joined(items@, 0, style@, d as nat);
    proof {
        assert(whole =~= r@ + whole);
    }
    while i < items.len()
        invariant
            i <= items.len(),
            whole == r@ + joined(items@, i as int, style@, d as nat),
        decreases items.len() - i,
    {
        let one = render_within(&items[i], style, d);
        proof {
            let rest = joined(items@, i + 1, style@, d as nat);
            let sep = if i > 0 {
                "<mo>,</mo>"@
            } else {
                Seq::<char>::empty()
            };
            assert(r@ + (sep + one@ + rest) =~= ((r@ + sep) + one@) + rest);
            assert(r@ + sep =~= if i > 0 {
                r@ + "<mo>,</mo>"@
            } else {
                r@
            });
        }
        if i > 0 {
            r.append("<mo>,</mo>");
        }
        r.append(one.as_str());
        i = i + 1;
    }
    proof {
        assert(whole =~= r@);
    }
    r
}

fn render_script(script: Option<&Node>, style: &StyleContext, d: usize) -> (r: Option<String>)
    ensures
        text_of(r) == rendered_script(pointee(script), style@, d as nat),
    decreases d, 1int, 0int,
{
    match script {
        Some(node) => Some(render_within(node, style, d)),
        None => None,
    }
}

fn render_scripts(s: ScriptRefs<'_>, style: &StyleContext, d: usize) -> (r: Attachments)
    ensures
        r@ == rendered_scripts(s.scripts(), style@, d as nat),
    decreases d, 2int, 0int,
{
    Attachments {
        top: render_script(s.top, style, d),
        bottom: render_script(s.bottom, style, d),
        top_left: render_script(s.top_left, style, d),
        bottom_left: render_script(s.bottom_left, style, d),
        top_right: render_script(s.top_right, style, d),
        bottom_right: render_script(s.bottom_right, style, d),
    }
}

fn process_attach(base: &Node, s: ScriptRefs<'_>, style: &StyleContext, d: usize) -> (r: String)
    ensures
        r@ == attach_rendered(*base, s.scripts(), style@, d as nat),
    decreases d, 3int, 0int,
{
    match strip_equations(base) {
        Node::Attach {
            base: inner_base,
            top,
            bottom,
            top_left,
            bottom_left,
            top_right,
            bottom_right,
        } => {
            let inner = ScriptRefs {
                top: take_over(script_ref(top), s.top),
                bottom: take_over(script_ref(bottom), s.bottom),
                top_left: take_over(script_ref(top_left), s.top_left),
                bottom_left: take_over(script_ref(bottom_left), s.bottom_left),
                top_right: take_over(script_ref(top_right), s.top_right),
                bottom_right: take_over(script_ref(bottom_right), s.bottom_right),
            };
            let outer = ScriptRefs {
                top: leave_over(script_ref(top), s.top),
                bottom: leave_over(script_ref(bottom), s.bottom),
                top_left: leave_over(script_ref(top_left), s.top_left),
                bottom_left: leave_over(script_ref(bottom_left), s.bottom_left),
                top_right: leave_over(script_ref(top_right), s.top_right),
                bottom_right: leave_over(script_ref(bottom_right), s.bottom_right),
            };
            let base_text = if d == 0 {
                String::from_str("<merror>Nesting Too Deep</merror>")
            } else {
                process_attach(inner_base, inner, style, d - 1)
            };
            let limits = contains_char(base_text.as_str(), '∑');
            let scripts = render_scripts(outer, style, d);
            resolve_attachment(base_text.as_str(), limits, false, scripts)
        },
        _ => {
            let base_text = render_within(base, style, d);
            let sum = contains_char(base_text.as_str(), '∑');
            let limits = match base {
                Node::Limits { .. } => true,
                Node::Op { limits, .. } => *limits || sum,
                _ => sum,
            };
            let stretch = match base {
                Node::Stretch { .. } => true,
                _ => false,
            };
            let scripts = render_scripts(s, style, d);
            resolve_attachment(base_text.as_str(), limits, stretch, scripts)
        },
    }
}

fn render_cases_rest(items: &Vec<Node>, style: &StyleContext, d: usize) -> (r: String)
    ensures
        r@ == cases_rest(items@, 1, style@, d as nat),
    decreases d, 1int, 0int,
{
    let mut r = String::new();
    let ghost whole = cases_rest(items@, 1, style@, d as nat);
    proof {
        assert(whole =~= r@ + whole);
    }
    if items.len() < 1 {
        return r;
    }
    let mut i: usize = 1;
    while i < items.len()
        invariant
            1 <= i <= items.len(),
            whole == r@ + cases_rest(items@, i as int, style@, d as nat),
        decreases items.len() - i,
    {
        let ghost rest = cases_rest(items@, i + 1, style@, d as nat);
        if is_space(&items[i]) {
            proof {
                assert(r@ + ("<mtext>&nbsp;</mtext>"@ + rest) =~= (r@ + "<mtext>&nbsp;</mtext>"@)
                    + rest);
            }
            r.append("<mtext>&nbsp;</mtext>");
        } else {
            let one = render_within(&items[i], style, d);
            proof {
                assert(r@ + (one@ + rest) =~= (r@ + one@) + rest);
            }
            r.append(one.as_str());
        }
        i = i + 1;
    }
    proof {
        assert(whole =~= r@);
    }
    r
}

fn render_cases_row(row: &Node, style: &StyleContext, d: usize) -> (r: String)
    ensures
        r@ == cases_row(*row, style@, d as nat),
    decreases d, 3int, 0int,
{
    match row {
        Node::Sequence { children } => {
            if d > 0 {
                let mut r = String::new();
                if children.len() > 0 {
                    let first = render_within(&children[0], style, d - 1);
                    r = wrap2("", cell_tag(Alignment::Start), first.as_str(), "</mtd>");
                    proof {
                        reveal_strlit("");
                        assert(r@ =~= cell_open(Alignment::Start) + first@ + "</mtd>"@);
                    }
                }
                let rest = render_cases_rest(children, style, d - 1);
                if rest.as_str().unicode_len() > 0 {
                    r.append(cell_tag(Alignment::Start));
                    r.append(rest.as_str());
                    r.append("</mtd>");
                }
                r
            } else {
                element(cell_tag(Alignment::Start), "<merror>Nesting Too Deep</merror>", "</mtd>")
            }
        },
        _ => {
            let one = render_within(row, style, d);
            element(cell_tag(Alignment::Start), one.as_str(), "</mtd>")
        },
    }
}

fn process_cases(rows: &Vec<Node>, style: &StyleContext, d: usize) -> (r: String)
    ensures
        r@ == cases_rows(rows@, 0, style@, d as nat),
    decreases d, 4int, 0int,
{
    let mut r = String::new();
    let mut i: usize = 0;
    let ghost whole = cases_rows(rows@, 0, style@, d as nat);
    proof {
        assert(whole =~= r@ + whole);
    }
    while i < rows.len()
        invariant
            i <= rows.len(),
            whole == r@ + cases_rows(rows@, i as int, style@, d as nat),
        decreases rows.len() - i,
    {
        let row = render_cases_row(&rows[i], style, d);
        proof {
            let rest = cases_rows(rows@, i + 1, style@, d as nat);
            assert(r@ + ("<mtr>"@ + row@ + "</mtr>"@ + rest) =~= r@ + "<mtr>"@ + row@ + "</mtr>"@
                + rest);
        }
        r.append("<mtr>");
        r.append(row.as_str());
        r.append("</mtr>");
        i = i + 1;
    }
    proof {
        assert(whole =~= r@);
    }
    r
}

fn render_matrix_cells(items: &Vec<Node>, align: Alignment, style: &StyleContext, d: usize) -> (r:
    String)
    ensures
        r@ == matrix_cells(items@, 0, align, style@, d as nat),
    decreases d, 3int, 0int,
{
    let mut r = String::new();
    let mut i: usize = 0;
    let ghost whole = matrix_cells(items@, 0, align, style@, d as nat);
    proof {
        assert(whole =~= r@ + whole);
    }
    while i < items.len()
        invariant
            i <= items.len(),
            whole == r@ + matrix_cells(items@, i as int, align, style@, d as nat),
        decreases items.len() - i,
    {
        let one = render_within(&items[i], style, d);
        proof {
            let rest = matrix_cells(items@, i + 1, align, style@, d as nat);
            assert(r@ + (cell_open(align) + one@ + "</mtd>"@ + rest) =~= r@ + cell_open(align)
                + one@ + "</mtd>"@ + rest);
        }
        r.append(cell_tag(align));
        r.append(one.as_str());
        r.append("</mtd>");
        i = i + 1;
    }
    proof {
        assert(whole =~= r@);
    }
    r
}

fn process_mat(rows: &Vec<Vec<Node>>, align: Alignment, style: &StyleContext, d: usize) -> (r:
    String)
    ensures
        r@ == matrix_rows(rows@, 0, align, style@, d as nat),
    decreases d, 4int, 0int,
{
    let mut r = String::new();
    let mut i: usize = 0;
    let ghost whole = matrix_rows(rows@, 0, align, style@, d as nat);
    proof {
        assert(whole =~= r@ + whole);
    }
    while i < rows.len()
        invariant
            i <= rows.len(),
            whole == r@ + matrix_rows(rows@, i as int, align, style@, d as nat),
        decreases rows.len() - i,
    {
        let row = render_matrix_cells(&rows[i], align, style, d);
        proof {
            let rest = matrix_rows(rows@, i + 1, align, style@, d as nat);
            assert(r@ + ("<mtr>"@ + row@ + "</mtr>"@ + rest) =~= r@ + "<mtr>"@ + row@ + "</mtr>"@
                + rest);
        }
        r.append("<mtr>");
        r.append(row.as_str());
        r.append("</mtr>");
        i = i + 1;
    }
    proof {
        assert(whole =~= r@);
    }
    r
}

fn process_vec(items: &Vec<Node>, align: Alignment, style: &StyleContext, d: usize) -> (r: String)
    ensures
        r@ == vector_rows(items@, 0, align, style@, d as nat),
    decreases d, 3int, 0int,
{
    let mut r = String::new();
    let mut i: usize = 0;
    let ghost whole = vector_rows(items@, 0, align, style@, d as nat);
    proof {
        assert(whole =~= r@ + whole);
    }
    while i < items.len()
        invariant
            i <= items.len(),
            whole == r@ + vector_rows(items@, i as int, align, style@, d as nat),
        decreases items.len() - i,
    {
        let one = render_within(&items[i], style, d);
        proof {
            let rest = vector_rows(items@, i + 1, align, style@, d as nat);
            assert(r@ + ("<mtr>"@ + cell_open(align) + one@ + "</mtd></mtr>"@ + rest) =~= r@
                + "<mtr>"@ + cell_open(align) + one@ + "</mtd></mtr>"@ + rest);
        }
        r.append("<mtr>");
        r.append(cell_tag(align));
        r.append(one.as_str());
        r.append("</mtd></mtr>");
        i = i + 1;
    }
    proof {
        assert(whole =~= r@);
    }
    r
}

fn render_table_cells(
    items: &Vec<Node>,
    from: usize,
    to: usize,
    aligned: bool,
    style: &StyleContext,
    d: usize,
) -> (r: String)
    requires
        from <= to <= items.len(),
    ensures
        r@ == table_cells(items@, from as int, to as int, 0, aligned, style@, d as nat),
    decreases d, 3int, 0int,
{
    let mut r = String::new();
    let mut start: usize = from;
    let mut column: usize = 0;
    let mut done = false;
    let ghost whole = table_cells(items@, from as int, to as int, 0, aligned, style@, d as nat);
    proof {
        assert(whole =~= r@ + whole);
    }
    while !done
        invariant
            from <= start <= to <= items.len(),
            column <= start - from,
            !done ==> whole == r@ + table_cells(
                items@,
                start as int,
                to as int,
                column as int,
                aligned,
                style@,
                d as nat,
            ),
            done ==> whole == r@,
        decreases
                (to - start) + (if done {
                    0int
                } else {
                    1int
                }),
    {
        let end = find_cell_end(items, start, to);
        let cell = render_each(items, start, end, style, d);
        let ghost before = r@;
        r.append(column_tag(column, aligned));
        r.append(cell.as_str());
        r.append("</mtd>");
        if end < to {
            proof {
                let rest = table_cells(
                    items@,
                    end + 1,
                    to as int,
                    column + 1,
                    aligned,
                    style@,
                    d as nat,
                );
                assert(before + (column_open(column as int, aligned) + cell@ + "</mtd>"@ + rest)
                    =~= r@ + rest);
            }
            start = end + 1;
            column = column + 1;
        } else {
            proof {
                assert(before + (column_open(column as int, aligned) + cell@ + "</mtd>"@
                    + Seq::<char>::empty()) =~= r@);
            }
            done = true;
        }
    }
    r
}

fn render_table_rows(items: &Vec<Node>, aligned: bool, style: &StyleContext, d: usize) -> (r:
    String)
    ensures
        r@ == table_rows(items@, 0, aligned, style@, d as nat),
    decreases d, 4int, 0int,
{
    let mut r = String::new();
    let mut start: usize = 0;
    let mut done = false;
    let ghost whole = table_rows(items@, 0, aligned, style@, d as nat);
    proof {
        assert(whole =~= r@ + whole);
    }
    while !done
        invariant
            start <= items.len(),
            !done ==> whole == r@ + table_rows(items@, start as int, aligned, style@, d as nat),
            done ==> whole == r@,
        decreases
                (items.len() - start) + (if done {
                    0int
                } else {
                    1int
                }),
    {
        let end = find_row_end(items, start);
        let row = render_table_cells(items, start, end, aligned, style, d);
        let ghost before = r@;
        r.append("<mtr>");
        r.append(row.as_str());
        r.append("</mtr>");
        if end < items.len() {
            proof {
                let rest = table_rows(items@, end + 1, aligned, style@, d as nat);
                assert(before + ("<mtr>"@ + row@ + "</mtr>"@ + rest) =~= r@ + rest);
            }
            start = end + 1;
        } else {
            proof {
                assert(before + ("<mtr>"@ + row@ + "</mtr>"@ + Seq::<char>::empty()) =~= r@);
            }
            done = true;
        }
    }
    r
}

fn process_sequence(items: &Vec<Node>, style: &StyleContext, d: usize) -> (r: String)
    ensures
        r@ == sequence_rendered(items@, style@, d as nat),
    decreases d, 5int, 0int,
{
    let aligned = any_align_point(items);
    if !aligned && !any_linebreak(items) {
        let body = render_each(items, 0, items.len(), style, d);
        element("<mrow>", body.as_str(), "</mrow>")
    } else {
        let rows = render_table_rows(items, aligned, style, d);
        element("<mtable>", rows.as_str(), "</mtable>")
    }
}

/// Renders `node` in the style context `style`. Nodes that lie more than
/// [`MAX_DEPTH`] levels deep are replaced by a visible mark.
pub fn render(node: &Node, style: &StyleContext) -> (r: String)
    ensures
        r@ == rendered(*node, style@, MAX_DEPTH as nat),
{
    render_within(node, style, MAX_DEPTH)
}

/// Renders the document for an equation: the root element around the markup
/// of the equation, with the source as an annotation if `annotate` says so.
pub fn render_document(
    equation: &Node,
    style: Option<StyleOverride>,
    source: &str,
    annotate: bool,
) -> (r: String)
    ensures
        r@ == document(*equation, style, source@, annotate),
{
    let context = match style {
        Some(level) => StyleContext::new().nested(level),
        None => StyleContext::new(),
    };
    proof {
        assert(Seq::<StyleOverride>::empty().push(style->0) =~= seq![style->0]);
    }
    let mut r = String::from_str("<math");
    if context.block() {
        r.append(" display=\"block\"");
    }
    r.append("><semantics>");
    let body = render(equation, &context);
    r.append(body.as_str());
    if annotate {
        r.append("<annotation encoding=\"application/x-typst\">");
        r.append(source);
        r.append("</annotation>");
    }
    r.append("</semantics></math>");
    proof {
        assert(r@ =~= document(*equation, style, source@, annotate));
    }
    r
}

/// Turns the outcome of evaluating a source text into the document for its
/// equation. An evaluation that failed is handed on as it is.
pub fn convert_to_mathml(
    evaluated: Result<(Node, Option<StyleOverride>), EvalMathResult>,
    content: &str,
    add_annotation: bool,
) -> (r: Result<String, EvalMathResult>)
    ensures
        match evaluated {
            Ok((equation, style)) => r matches Ok(text) && text@ == document(
                equation,
                style,
                content@,
                add_annotation,
            ),
            Err(e) => r == Err::<String, EvalMathResult>(e),
        },
{
    match evaluated {
        Ok((equation, style)) => Ok(render_document(&equation, style, content, add_annotation)),
        Err(e) => Err(e),
    }
}

} // verus!
