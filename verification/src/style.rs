//! The style that surrounds a node: letterform family, weight, slant and
//! display mode, inherited down the tree.

use vstd::prelude::*;

pub mod character_variant;
pub mod italic_exception;

verus! {

/// A family of letterforms.
#[derive(Clone, Copy, Debug, PartialEq, Eq, Structural)]
pub enum MathVariant {
    Serif,
    Sans,
    Cal,
    Frak,
    Mono,
    Bb,
}

/// What one level of nesting sets. A property that is `None` is not set at
/// this level and is inherited.
#[derive(Clone, Copy, Debug)]
pub struct StyleOverride {
    pub variant: Option<MathVariant>,
    pub bold: Option<bool>,
    pub italic: Option<bool>,
    pub block: Option<bool>,
}

/// The levels of style that enclose a node, the outermost first.
#[derive(Debug)]
pub struct StyleContext {
    levels: Vec<StyleOverride>,
}

impl View for StyleContext {
    type V = Seq<StyleOverride>;

    closed spec fn view(&self) -> Seq<StyleOverride> {
        self.levels@
    }
}

/// The letterform family in force: that of the innermost level that sets one,
/// serif where none does.
pub open spec fn effective_variant(levels: Seq<StyleOverride>) -> MathVariant
    decreases levels.len(),
{
    if levels.len() == 0 {
        MathVariant::Serif
    } else {
        match levels.last().variant {
            Some(v) => v,
            None => effective_variant(levels.drop_last()),
        }
    }
}

/// The weight in force: that of the innermost level that sets one, regular
/// where none does.
pub open spec fn effective_bold(levels: Seq<StyleOverride>) -> bool
    decreases levels.len(),
{
    if levels.len() == 0 {
        false
    } else {
        match levels.last().bold {
            Some(b) => b,
            None => effective_bold(levels.drop_last()),
        }
    }
}

/// The slant in force: that of the innermost level that sets one; `None`,
/// which leaves the choice to the renderer, where no level does.
pub open spec fn effective_italic(levels: Seq<StyleOverride>) -> Option<bool>
    decreases levels.len(),
{
    if levels.len() == 0 {
        None
    } else {
        match levels.last().italic {
            Some(b) => Some(b),
            None => effective_italic(levels.drop_last()),
        }
    }
}

/// The display mode in force: that of the innermost level that sets one,
/// inline where none does.
pub open spec fn effective_block(levels: Seq<StyleOverride>) -> bool
    decreases levels.len(),
{
    if levels.len() == 0 {
        false
    } else {
        match levels.last().block {
            Some(b) => b,
            None => effective_block(levels.drop_last()),
        }
    }
}

impl StyleOverride {
    /// A level that sets nothing.
    pub fn none() -> (r: StyleOverride)
        ensures
            r.variant is None,
            r.bold is None,
            r.italic is None,
            r.block is None,
    {
        StyleOverride { variant: None, bold: None, italic: None, block: None }
    }
}

impl StyleContext {
    /// The context without any level: every property has its default.
    pub fn new() -> (r: StyleContext)
        ensures
            r@ == Seq::<StyleOverride>::empty(),
    {
        StyleContext { levels: Vec::new() }
    }

    /// This context with one more level inside it. The receiver stays as it
    /// is, so nothing leaks to the siblings of the node that sets `level`.
    pub fn nested(&self, level: StyleOverride) -> (r: StyleContext)
        ensures
            r@ == self@.push(level),
    {
        let mut levels: Vec<StyleOverride> = Vec::new();
        let mut i: usize = 0;
        while i < self.levels.len()
            invariant
                i <= self.levels.len(),
                levels@ == self.levels@.take(i as int),
            decreases self.levels.len() - i,
        {
            levels.push(self.levels[i]);
            proof {
                assert(self.levels@.take(i as int).push(self.levels@[i as int])
                    =~= self.levels@.take(i + 1));
            }
            i = i + 1;
        }
        proof {
            assert(self.levels@.take(self.levels@.len() as int) =~= self.levels@);
        }
        levels.push(level);
        StyleContext { levels }
    }

    /// The letterform family in force.
    pub fn variant(&self) -> (r: MathVariant)
        ensures
            r == effective_variant(self@),
    {
        let mut i: usize = self.levels.len();
        proof {
            assert(self@.take(i as int) =~= self@);
        }
        while i > 0
            invariant
                i <= self.levels.len(),
                effective_variant(self@) == effective_variant(self@.take(i as int)),
            decreases i,
        {
            i = i - 1;
            proof {
                assert(self@.take(i + 1).drop_last() =~= self@.take(i as int));
            }
            if let Some(v) = self.levels[i].variant {
                return v;
            }
        }
        MathVariant::Serif
    }

    /// The weight in force.
    pub fn bold(&self) -> (r: bool)
        ensures
            r == effective_bold(self@),
    {
        let mut i: usize = self.levels.len();
        proof {
            assert(self@.take(i as int) =~= self@);
        }
        while i > 0
            invariant
                i <= self.levels.len(),
                effective_bold(self@) == effective_bold(self@.take(i as int)),
            decreases i,
        {
            i = i - 1;
            proof {
                assert(self@.take(i + 1).drop_last() =~= self@.take(i as int));
            }
            if let Some(b) = self.levels[i].bold {
                return b;
            }
        }
        false
    }

    /// The slant in force, `None` where no level sets one.
    pub fn italic(&self) -> (r: Option<bool>)
        ensures
            r == effective_italic(self@),
    {
        let mut i: usize = self.levels.len();
        proof {
            assert(self@.take(i as int) =~= self@);
        }
        while i > 0
            invariant
                i <= self.levels.len(),
                effective_italic(self@) == effective_italic(self@.take(i as int)),
            decreases i,
        {
            i = i - 1;
            proof {
                assert(self@.take(i + 1).drop_last() =~= self@.take(i as int));
            }
            if let Some(b) = self.levels[i].italic {
                return Some(b);
            }
        }
        None
    }

    /// Whether the equation is set as a block of its own.
    pub fn block(&self) -> (r: bool)
        ensures
            r == effective_block(self@),
    {
        let mut i: usize = self.levels.len();
        proof {
            assert(self@.take(i as int) =~= self@);
        }
        while i > 0
            invariant
                i <= self.levels.len(),
                effective_block(self@) == effective_block(self@.take(i as int)),
            decreases i,
        {
            i = i - 1;
            proof {
                assert(self@.take(i + 1).drop_last() =~= self@.take(i as int));
            }
            if let Some(b) = self.levels[i].block {
                return b;
            }
        }
        false
    }
}

/// A property that the innermost level leaves unset has the value that it has
/// in the enclosing context; one that it sets has that value.
pub proof fn lemma_style_inheritance(outer: Seq<StyleOverride>, level: StyleOverride)
    ensures
        effective_variant(outer.push(level)) == (match level.variant {
            Some(v) => v,
            None => effective_variant(outer),
        }),
        effective_bold(outer.push(level)) == (match level.bold {
            Some(b) => b,
            None => effective_bold(outer),
        }),
        effective_italic(outer.push(level)) == (match level.italic {
            Some(b) => Some(b),
            None => effective_italic(outer),
        }),
        effective_block(outer.push(level)) == (match level.block {
            Some(b) => b,
            None => effective_block(outer),
        }),
{
    assert(outer.push(level).drop_last() =~= outer);
}

} // verus!
