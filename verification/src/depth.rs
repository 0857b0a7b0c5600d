//! The limit on the depth of rendering leaves ordinary trees alone.
//!
//! [`nesting`] measures how many levels of rendering a node needs. A node
//! that is rendered at least that deep has the same markup at every depth:
//! the limit shows only in trees that nest deeper than it allows.

use vstd::prelude::*;
use crate::mathml::attach_rendered;
use crate::mathml::cases_rest;
use crate::mathml::cases_row;
use crate::mathml::cases_rows;
use crate::mathml::joined;
use crate::mathml::matrix_cells;
use crate::mathml::matrix_rows;
use crate::mathml::merged_inner;
use crate::mathml::merged_outer;
use crate::mathml::rendered;
use crate::mathml::rendered_each;
use crate::mathml::rendered_script;
use crate::mathml::rendered_scripts;
use crate::mathml::sequence_rendered;
use crate::mathml::table_cells;
use crate::mathml::table_rows;
use crate::mathml::text_or_rendered;
use crate::mathml::unboxed;
use crate::mathml::vector_rows;
use crate::mathml::without_equations;
use crate::mathml::Scripts;
use crate::node::Alignment;
use crate::node::Node;
use crate::style::StyleOverride;

verus! {

/// The larger of two numbers.
pub open spec fn larger(a: nat, b: nat) -> nat {
    if a >= b {
        a
    } else {
        b
    }
}

/// The levels of rendering that `node` needs. A node without children needs
/// one; any other node needs one more than its children. A base with scripts
/// needs as many as base and scripts together, because a base that has
/// scripts of its own takes over those of its parent and renders them one
/// level further down.
pub open spec fn nesting(node: Node) -> nat
    decreases node,
{
    match node {
        Node::Fraction { numerator, denominator } => 1 + larger(
            nesting(*numerator),
            nesting(*denominator),
        ),
        Node::Accent { base, accent } => 1 + nesting(*base),
        Node::Limits { body } => 1 + nesting(*body),
        Node::Scripts { body } => 1 + nesting(*body),
        Node::Sequence { children } => 1 + nesting_of_all(children@, 0),
        Node::Lr { body } => 1 + nesting(*body),
        Node::Attach { base, top, bottom, top_left, bottom_left, top_right, bottom_right } => 1
            + nesting(*base) + larger(
            larger(nesting_of(unboxed(top)), nesting_of(unboxed(bottom))),
            larger(
                larger(nesting_of(unboxed(top_left)), nesting_of(unboxed(bottom_left))),
                larger(nesting_of(unboxed(top_right)), nesting_of(unboxed(bottom_right))),
            ),
        ),
        Node::Text { raw } => 1,
        Node::Root { radicand, index } => 1 + larger(nesting(*radicand), nesting_of(unboxed(index))),
        Node::Binomial { upper, lower } => 1 + larger(nesting(*upper), nesting_of_all(lower@, 0)),
        Node::Cancel { body } => 1 + nesting(*body),
        Node::Op { label, limits } => 1 + nesting(*label),
        Node::Cases { open, close, reverse, children } => 1 + nesting_of_all(children@, 0),
        Node::Matrix { open, close, align, rows } => 1 + nesting_of_rows(rows@, 0),
        Node::Vector { open, close, align, children } => 1 + nesting_of_all(children@, 0),
        Node::Class { class, body } => 1 + nesting(*body),
        Node::Equation { body } => 1 + nesting(*body),
        Node::Primes { count } => 1,
        Node::Styled { style, child } => 1 + nesting(*child),
        Node::HSpace { amount } => 1,
        Node::Hide { body } => 1 + nesting(*body),
        Node::Stretch { body } => 1 + nesting(*body),
        Node::Mid { body } => 1 + nesting(*body),
        Node::Underline { body } => 1 + nesting(*body),
        Node::Overline { body } => 1 + nesting(*body),
        Node::Decorated { mark, body, annotation } => 1 + larger(
            nesting(*body),
            nesting_of(unboxed(annotation)),
        ),
        Node::Space => 1,
        Node::AlignPoint => 1,
        Node::Linebreak => 1,
        Node::Unknown { kind } => 1,
    }
}

/// The levels that a node that may be missing needs: none if it is missing.
pub open spec fn nesting_of(node: Option<Node>) -> nat
    decreases node,
{
    match node {
        Some(n) => nesting(n),
        None => 0,
    }
}

/// The levels that the items from `from` on need: as many as the one that
/// needs most.
pub open spec fn nesting_of_all(items: Seq<Node>, from: int) -> nat
    decreases items, items.len() - from,
{
    if 0 <= from < items.len() {
        larger(nesting(items[from]), nesting_of_all(items, from + 1))
    } else {
        0
    }
}

/// The levels that the rows from `from` on need.
pub open spec fn nesting_of_rows(rows: Seq<Vec<Node>>, from: int) -> nat
    decreases rows, rows.len() - from,
{
    if 0 <= from < rows.len() {
        larger(nesting_of_all(rows[from]@, 0), nesting_of_rows(rows, from + 1))
    } else {
        0
    }
}

/// The levels that the scripts around a base need.
pub open spec fn nesting_of_scripts(s: Scripts) -> nat {
    larger(
        larger(nesting_of(s.top), nesting_of(s.bottom)),
        larger(
            larger(nesting_of(s.top_left), nesting_of(s.bottom_left)),
            larger(nesting_of(s.top_right), nesting_of(s.bottom_right)),
        ),
    )
}

/// Whether each of `items` needs at most `d` levels.
pub open spec fn all_within(items: Seq<Node>, d: nat) -> bool {
    forall|i: int| 0 <= i < items.len() ==> nesting(#[trigger] items[i]) <= d
}

/// A node that is rendered as deep as it nests has the same markup at any
/// greater depth: the limit on the depth changes nothing for it.
pub proof fn lemma_depth_beyond_nesting_changes_nothing(
    node: Node,
    levels: Seq<StyleOverride>,
    d1: nat,
    d2: nat,
)
    requires
        nesting(node) <= d1,
        nesting(node) <= d2,
    ensures
        rendered(node, levels, d1) == rendered(node, levels, d2),
    decreases d1, 0int, 0int,
{
    let a = (d1 - 1) as nat;
    let b = (d2 - 1) as nat;
    match node {
        Node::Fraction { numerator, denominator } => {
            lemma_depth_beyond_nesting_changes_nothing(*numerator, levels, a, b);
            lemma_depth_beyond_nesting_changes_nothing(*denominator, levels, a, b);
        },
        Node::Accent { base, accent } => {
            lemma_depth_beyond_nesting_changes_nothing(*base, levels, a, b);
        },
        Node::Limits { body } => {
            lemma_depth_beyond_nesting_changes_nothing(*body, levels, a, b);
        },
        Node::Scripts { body } => {
            lemma_depth_beyond_nesting_changes_nothing(*body, levels, a, b);
        },
        Node::Sequence { children } => {
            lemma_members_nest_less(children@, 0);
            lemma_sequence(children@, levels, a, b);
        },
        Node::Lr { body } => {
            lemma_depth_beyond_nesting_changes_nothing(*body, levels, a, b);
        },
        Node::Attach { base, top, bottom, top_left, bottom_left, top_right, bottom_right } => {
            let s = Scripts {
                top: unboxed(top),
                bottom: unboxed(bottom),
                top_left: unboxed(top_left),
                bottom_left: unboxed(bottom_left),
                top_right: unboxed(top_right),
                bottom_right: unboxed(bottom_right),
            };
            lemma_attach(*base, s, levels, a, b);
        },
        Node::Text { raw } => {},
        Node::Root { radicand, index } => {
            lemma_depth_beyond_nesting_changes_nothing(*radicand, levels, a, b);
            if let Some(i) = index {
                assert(nesting_of(unboxed(index)) == nesting(*i));
                lemma_depth_beyond_nesting_changes_nothing(*i, levels, a, b);
            }
        },
        Node::Binomial { upper, lower } => {
            lemma_depth_beyond_nesting_changes_nothing(*upper, levels, a, b);
            lemma_members_nest_less(lower@, 0);
            lemma_joined(lower@, 0, levels, a, b);
        },
        Node::Cancel { body } => {
            lemma_depth_beyond_nesting_changes_nothing(*body, levels, a, b);
        },
        Node::Op { label, limits } => {
            lemma_text_or_rendered(*label, true, levels, a, b);
        },
        Node::Cases { open, close, reverse, children } => {
            lemma_members_nest_less(children@, 0);
            lemma_cases_rows(children@, 0, levels, a, b);
        },
        Node::Matrix { open, close, align, rows } => {
            lemma_matrix_rows(rows@, 0, align, levels, a, b);
        },
        Node::Vector { open, close, align, children } => {
            lemma_members_nest_less(children@, 0);
            lemma_vector_rows(children@, 0, align, levels, a, b);
        },
        Node::Class { class, body } => {
            lemma_text_or_rendered(*body, false, levels, a, b);
        },
        Node::Equation { body } => {
            lemma_depth_beyond_nesting_changes_nothing(*body, levels, a, b);
        },
        Node::Primes { count } => {},
        Node::Styled { style, child } => {
            lemma_depth_beyond_nesting_changes_nothing(*child, levels.push(style), a, b);
        },
        Node::HSpace { amount } => {},
        Node::Hide { body } => {
            lemma_depth_beyond_nesting_changes_nothing(*body, levels, a, b);
        },
        Node::Stretch { body } => {
            lemma_depth_beyond_nesting_changes_nothing(*body, levels, a, b);
        },
        Node::Mid { body } => {
            lemma_text_or_rendered(*body, false, levels, a, b);
        },
        Node::Underline { body } => {
            lemma_depth_beyond_nesting_changes_nothing(*body, levels, a, b);
        },
        Node::Overline { body } => {
            lemma_depth_beyond_nesting_changes_nothing(*body, levels, a, b);
        },
        Node::Decorated { mark, body, annotation } => {
            lemma_depth_beyond_nesting_changes_nothing(*body, levels, a, b);
            if let Some(n) = annotation {
                assert(nesting_of(unboxed(annotation)) == nesting(*n));
                lemma_depth_beyond_nesting_changes_nothing(*n, levels, a, b);
            }
        },
        Node::Space => {},
        Node::AlignPoint => {},
        Node::Linebreak => {},
        Node::Unknown { kind } => {},
    }
}

/// Each item needs at most as many levels as all of them together.
proof fn lemma_members_nest_less(items: Seq<Node>, from: int)
    requires
        0 <= from,
    ensures
        forall|i: int| from <= i < items.len() ==> nesting(#[trigger] items[i]) <= nesting_of_all(items, from),
    decreases items.len() - from,
{
    if from < items.len() {
        lemma_members_nest_less(items, from + 1);
    }
}

/// What stands inside equation wrappers needs no more levels than the
/// wrappers with it.
proof fn lemma_equations_add_levels(node: Node)
    ensures
        nesting(without_equations(node)) <= nesting(node),
    decreases node,
{
    match node {
        Node::Equation { body } => {
            lemma_equations_add_levels(*body);
        },
        _ => {},
    }
}

proof fn lemma_text_or_rendered(
    node: Node,
    escape: bool,
    levels: Seq<StyleOverride>,
    d1: nat,
    d2: nat,
)
    requires
        nesting(node) <= d1,
        nesting(node) <= d2,
    ensures
        text_or_rendered(node, escape, levels, d1) == text_or_rendered(node, escape, levels, d2),
    decreases d1, 1int, 0int,
{
    lemma_depth_beyond_nesting_changes_nothing(node, levels, d1, d2);
}

proof fn lemma_rendered_each(
    items: Seq<Node>,
    from: int,
    to: int,
    levels: Seq<StyleOverride>,
    d1: nat,
    d2: nat,
)
    requires
        all_within(items, d1),
        all_within(items, d2),
    ensures
        rendered_each(items, from, to, levels, d1) == rendered_each(items, from, to, levels, d2),
    decreases d1, 1int, to - from,
{
    if 0 <= from < to <= items.len() {
        lemma_depth_beyond_nesting_changes_nothing(items[from], levels, d1, d2);
        lemma_rendered_each(items, from + 1, to, levels, d1, d2);
    }
}

proof fn lemma_joined(items: Seq<Node>, from: int, levels: Seq<StyleOverride>, d1: nat, d2: nat)
    requires
        all_within(items, d1),
        all_within(items, d2),
    ensures
        joined(items, from, levels, d1) == joined(items, from, levels, d2),
    decreases d1, 1int, items.len() - from,
{
    if 0 <= from < items.len() {
        lemma_depth_beyond_nesting_changes_nothing(items[from], levels, d1, d2);
        lemma_joined(items, from + 1, levels, d1, d2);
    }
}

proof fn lemma_script(script: Option<Node>, levels: Seq<StyleOverride>, d1: nat, d2: nat)
    requires
        nesting_of(script) <= d1,
        nesting_of(script) <= d2,
    ensures
        rendered_script(script, levels, d1) == rendered_script(script, levels, d2),
    decreases d1, 1int, 0int,
{
    if let Some(node) = script {
        lemma_depth_beyond_nesting_changes_nothing(node, levels, d1, d2);
    }
}

proof fn lemma_scripts(s: Scripts, levels: Seq<StyleOverride>, d1: nat, d2: nat)
    requires
        nesting_of_scripts(s) <= d1,
        nesting_of_scripts(s) <= d2,
    ensures
        rendered_scripts(s, levels, d1) == rendered_scripts(s, levels, d2),
    decreases d1, 2int, 0int,
{
    lemma_script(s.top, levels, d1, d2);
    lemma_script(s.bottom, levels, d1, d2);
    lemma_script(s.top_left, levels, d1, d2);
    lemma_script(s.bottom_left, levels, d1, d2);
    lemma_script(s.top_right, levels, d1, d2);
    lemma_script(s.bottom_right, levels, d1, d2);
}

/// A script that was taken over or left over nests no deeper than the
/// scripts that it came from.
proof fn lemma_merged_scripts_nest_no_deeper(inner: Scripts, outer: Scripts)
    ensures
        nesting_of_scripts(merged_inner(inner, outer)) <= nesting_of_scripts(inner)
            + nesting_of_scripts(outer),
        nesting_of_scripts(merged_outer(inner, outer)) <= nesting_of_scripts(outer),
{
}

proof fn lemma_attach(base: Node, s: Scripts, levels: Seq<StyleOverride>, d1: nat, d2: nat)
    requires
        nesting(base) + nesting_of_scripts(s) <= d1,
        nesting(base) + nesting_of_scripts(s) <= d2,
    ensures
        attach_rendered(base, s, levels, d1) == attach_rendered(base, s, levels, d2),
    decreases d1, 3int, 0int,
{
    lemma_equations_add_levels(base);
    let core = without_equations(base);
    match core {
        Node::Attach {
            base: inner_base,
            top,
            bottom,
            top_left,
            bottom_left,
            top_right,
            bottom_right,
        } => {
            let inner = Scripts {
                top: unboxed(top),
                bottom: unboxed(bottom),
                top_left: unboxed(top_left),
                bottom_left: unboxed(bottom_left),
                top_right: unboxed(top_right),
                bottom_right: unboxed(bottom_right),
            };
            assert(nesting(core) == 1 + nesting(*inner_base) + nesting_of_scripts(inner));
            lemma_merged_scripts_nest_no_deeper(inner, s);
            let below1 = (d1 - 1) as nat;
            let below2 = (d2 - 1) as nat;
            lemma_attach(*inner_base, merged_inner(inner, s), levels, below1, below2);
            lemma_scripts(merged_outer(inner, s), levels, d1, d2);
        },
        _ => {
            lemma_depth_beyond_nesting_changes_nothing(base, levels, d1, d2);
            lemma_scripts(s, levels, d1, d2);
        },
    }
}

proof fn lemma_cases_rest(
    items: Seq<Node>,
    from: int,
    levels: Seq<StyleOverride>,
    d1: nat,
    d2: nat,
)
    requires
        all_within(items, d1),
        all_within(items, d2),
    ensures
        cases_rest(items, from, levels, d1) == cases_rest(items, from, levels, d2),
    decreases d1, 1int, items.len() - from,
{
    if 0 <= from < items.len() {
        lemma_depth_beyond_nesting_changes_nothing(items[from], levels, d1, d2);
        lemma_cases_rest(items, from + 1, levels, d1, d2);
    }
}

proof fn lemma_cases_row(row: Node, levels: Seq<StyleOverride>, d1: nat, d2: nat)
    requires
        nesting(row) <= d1,
        nesting(row) <= d2,
    ensures
        cases_row(row, levels, d1) == cases_row(row, levels, d2),
    decreases d1, 3int, 0int,
{
    match row {
        Node::Sequence { children } => {
            lemma_members_nest_less(children@, 0);
            if children@.len() > 0 {
                lemma_depth_beyond_nesting_changes_nothing(
                    children@[0],
                    levels,
                    (d1 - 1) as nat,
                    (d2 - 1) as nat,
                );
            }
            lemma_cases_rest(children@, 1, levels, (d1 - 1) as nat, (d2 - 1) as nat);
        },
        _ => {
            lemma_depth_beyond_nesting_changes_nothing(row, levels, d1, d2);
        },
    }
}

proof fn lemma_cases_rows(
    rows: Seq<Node>,
    from: int,
    levels: Seq<StyleOverride>,
    d1: nat,
    d2: nat,
)
    requires
        all_within(rows, d1),
        all_within(rows, d2),
    ensures
        cases_rows(rows, from, levels, d1) == cases_rows(rows, from, levels, d2),
    decreases d1, 4int, rows.len() - from,
{
    if 0 <= from < rows.len() {
        lemma_cases_row(rows[from], levels, d1, d2);
        lemma_cases_rows(rows, from + 1, levels, d1, d2);
    }
}

proof fn lemma_matrix_cells(
    items: Seq<Node>,
    from: int,
    align: Alignment,
    levels: Seq<StyleOverride>,
    d1: nat,
    d2: nat,
)
    requires
        all_within(items, d1),
        all_within(items, d2),
    ensures
        matrix_cells(items, from, align, levels, d1) == matrix_cells(items, from, align, levels, d2),
    decreases d1, 3int, items.len() - from,
{
    if 0 <= from < items.len() {
        lemma_depth_beyond_nesting_changes_nothing(items[from], levels, d1, d2);
        lemma_matrix_cells(items, from + 1, align, levels, d1, d2);
    }
}

proof fn lemma_matrix_rows(
    rows: Seq<Vec<Node>>,
    from: int,
    align: Alignment,
    levels: Seq<StyleOverride>,
    d1: nat,
    d2: nat,
)
    requires
        0 <= from,
        nesting_of_rows(rows, from) <= d1,
        nesting_of_rows(rows, from) <= d2,
    ensures
        matrix_rows(rows, from, align, levels, d1) == matrix_rows(rows, from, align, levels, d2),
    decreases d1, 4int, rows.len() - from,
{
    if from < rows.len() {
        lemma_members_nest_less(rows[from]@, 0);
        lemma_matrix_cells(rows[from]@, 0, align, levels, d1, d2);
        lemma_matrix_rows(rows, from + 1, align, levels, d1, d2);
    }
}

proof fn lemma_vector_rows(
    items: Seq<Node>,
    from: int,
    align: Alignment,
    levels: Seq<StyleOverride>,
    d1: nat,
    d2: nat,
)
    requires
        all_within(items, d1),
        all_within(items, d2),
    ensures
        vector_rows(items, from, align, levels, d1) == vector_rows(items, from, align, levels, d2),
    decreases d1, 3int, items.len() - from,
{
    if 0 <= from < items.len() {
        lemma_depth_beyond_nesting_changes_nothing(items[from], levels, d1, d2);
        lemma_vector_rows(items, from + 1, align, levels, d1, d2);
    }
}

proof fn lemma_table_cells(
    items: Seq<Node>,
    from: int,
    to: int,
    column: int,
    aligned: bool,
    levels: Seq<StyleOverride>,
    d1: nat,
    d2: nat,
)
    requires
        all_within(items, d1),
        all_within(items, d2),
    ensures
        table_cells(items, from, to, column, aligned, levels, d1) == table_cells(
            items,
            from,
            to,
            column,
            aligned,
            levels,
            d2,
        ),
    decreases d1, 3int, to - from,
{
    let end = crate::mathml::cell_end(items, from, to);
    lemma_rendered_each(items, from, end, levels, d1, d2);
    if from <= end < to {
        lemma_table_cells(items, end + 1, to, column + 1, aligned, levels, d1, d2);
    }
}

proof fn lemma_table_rows(
    items: Seq<Node>,
    from: int,
    aligned: bool,
    levels: Seq<StyleOverride>,
    d1: nat,
    d2: nat,
)
    requires
        all_within(items, d1),
        all_within(items, d2),
    ensures
        table_rows(items, from, aligned, levels, d1) == table_rows(items, from, aligned, levels, d2),
    decreases d1, 4int, items.len() - from,
{
    let end = crate::mathml::row_end(items, from);
    lemma_table_cells(items, from, end, 0, aligned, levels, d1, d2);
    if from <= end < items.len() {
        lemma_table_rows(items, end + 1, aligned, levels, d1, d2);
    }
}

proof fn lemma_sequence(items: Seq<Node>, levels: Seq<StyleOverride>, d1: nat, d2: nat)
    requires
        all_within(items, d1),
        all_within(items, d2),
    ensures
        sequence_rendered(items, levels, d1) == sequence_rendered(items, levels, d2),
    decreases d1, 5int, 0int,
{
    lemma_rendered_each(items, 0, items.len() as int, levels, d1, d2);
    lemma_table_rows(items, 0, crate::mathml::has_align_point(items), levels, d1, d2);
}

} // verus!
