//! What the layout of a sequence comes to in the two simplest cases.

use vstd::prelude::*;
use crate::mathml::cell_end;
use crate::mathml::cell_open;
use crate::mathml::has_align_point;
use crate::mathml::has_linebreak;
use crate::mathml::rendered_each;
use crate::mathml::row_end;
use crate::mathml::sequence_rendered;
use crate::mathml::table_cells;
use crate::mathml::table_rows;
use crate::node::Alignment;
use crate::node::Node;
use crate::style::StyleOverride;

verus! {

/// Whether `items` hold neither a line break nor an alignment point.
pub open spec fn unmarked(items: Seq<Node>) -> bool {
    forall|i: int|
        0 <= i < items.len() ==> !(#[trigger] items[i] is Linebreak) && !(items[i] is AlignPoint)
}

/// A sequence without line breaks and alignment points is one inline group
/// that holds the markup of its children.
pub proof fn lemma_unmarked_sequence_is_inline(
    items: Seq<Node>,
    levels: Seq<StyleOverride>,
    d: nat,
)
    requires
        unmarked(items),
    ensures
        sequence_rendered(items, levels, d) == "<mrow>"@ + rendered_each(
            items,
            0,
            items.len() as int,
            levels,
            d,
        ) + "</mrow>"@,
{
}

/// One alignment point in a sequence that holds no other one and no line
/// break gives a table of one row and two cells: what stands before the
/// point, aligned to the right, and what stands behind it, aligned to the
/// left.
pub proof fn lemma_one_align_point_gives_two_columns(
    left: Seq<Node>,
    right: Seq<Node>,
    levels: Seq<StyleOverride>,
    d: nat,
)
    requires
        unmarked(left),
        unmarked(right),
    ensures
        sequence_rendered(left + seq![Node::AlignPoint] + right, levels, d) == "<mtable>"@
            + "<mtr>"@ + cell_open(Alignment::End) + rendered_each(
            left,
            0,
            left.len() as int,
            levels,
            d,
        ) + "</mtd>"@ + cell_open(Alignment::Start) + rendered_each(
            right,
            0,
            right.len() as int,
            levels,
            d,
        ) + "</mtd>"@ + "</mtr>"@ + "</mtable>"@,
{
    let items = left + seq![Node::AlignPoint] + right;
    let n = items.len() as int;
    let k = left.len() as int;
    assert(items[k] is AlignPoint);
    assert(has_align_point(items));
    assert forall|i: int| 0 <= i < n implies !(#[trigger] items[i] is Linebreak) by {
        if i < k {
            assert(items[i] == left[i]);
        } else if i > k {
            assert(items[i] == right[i - k - 1]);
        }
    }
    lemma_row_without_break(items, 0);
    assert forall|i: int| 0 <= i < k implies !(#[trigger] items[i] is AlignPoint) by {
        assert(items[i] == left[i]);
    }
    assert forall|i: int| k + 1 <= i < n implies !(#[trigger] items[i] is AlignPoint) by {
        assert(items[i] == right[i - k - 1]);
    }
    lemma_cell_ends_at(items, 0, n, k);
    lemma_cell_ends_at(items, k + 1, n, n);
    assert forall|i: int| 0 <= i < k implies #[trigger] items[0 + i] == left[0 + i] by {}
    lemma_rendered_each_agrees(items, 0, left, 0, k, levels, d);
    assert forall|i: int| 0 <= i < n - k - 1 implies #[trigger] items[k + 1 + i] == right[0 + i] by {}
    lemma_rendered_each_agrees(items, k + 1, right, 0, n - k - 1, levels, d);
    let first = rendered_each(left, 0, k, levels, d);
    let second = rendered_each(right, 0, right.len() as int, levels, d);
    let last_cell = table_cells(items, k + 1, n, 1, true, levels, d);
    assert(last_cell =~= cell_open(Alignment::Start) + second + "</mtd>"@);
    let cells = table_cells(items, 0, n, 0, true, levels, d);
    assert(cells =~= cell_open(Alignment::End) + first + "</mtd>"@ + cell_open(Alignment::Start)
        + second + "</mtd>"@);
    let rows = table_rows(items, 0, true, levels, d);
    assert(rows =~= "<mtr>"@ + cells + "</mtr>"@);
    assert(sequence_rendered(items, levels, d) =~= "<mtable>"@ + "<mtr>"@ + cell_open(
        Alignment::End,
    ) + first + "</mtd>"@ + cell_open(Alignment::Start) + second + "</mtd>"@ + "</mtr>"@
        + "</mtable>"@);
}

/// A row that holds no line break from `from` on ends where the items end.
proof fn lemma_row_without_break(items: Seq<Node>, from: int)
    requires
        0 <= from <= items.len(),
        forall|i: int| from <= i < items.len() ==> !(#[trigger] items[i] is Linebreak),
    ensures
        row_end(items, from) == items.len(),
    decreases items.len() - from,
{
    if from < items.len() {
        lemma_row_without_break(items, from + 1);
    }
}

/// A cell ends at `end` if no alignment point stands before `end` and either
/// one stands there or the row ends there.
proof fn lemma_cell_ends_at(items: Seq<Node>, from: int, to: int, end: int)
    requires
        0 <= from <= end <= to <= items.len(),
        forall|i: int| from <= i < end ==> !(#[trigger] items[i] is AlignPoint),
        end == to || items[end] is AlignPoint,
    ensures
        cell_end(items, from, to) == end,
    decreases end - from,
{
    if from < end {
        lemma_cell_ends_at(items, from + 1, to, end);
    }
}

/// Equal runs of nodes have equal markup, wherever they stand.
proof fn lemma_rendered_each_agrees(
    a: Seq<Node>,
    from_a: int,
    b: Seq<Node>,
    from_b: int,
    count: int,
    levels: Seq<StyleOverride>,
    d: nat,
)
    requires
        0 <= count,
        0 <= from_a && from_a + count <= a.len(),
        0 <= from_b && from_b + count <= b.len(),
        forall|i: int| 0 <= i < count ==> #[trigger] a[from_a + i] == b[from_b + i],
    ensures
        rendered_each(a, from_a, from_a + count, levels, d) == rendered_each(
            b,
            from_b,
            from_b + count,
            levels,
            d,
        ),
    decreases count,
{
    if count > 0 {
        assert(a[from_a + 0] == b[from_b + 0]);
        assert forall|i: int| 0 <= i < count - 1 implies #[trigger] a[from_a + 1 + i] == b[from_b
            + 1 + i] by {
            assert(a[from_a + (i + 1)] == b[from_b + (i + 1)]);
        }
        lemma_rendered_each_agrees(a, from_a + 1, b, from_b + 1, count - 1, levels, d);
    }
}

} // verus!
