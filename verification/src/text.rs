//! Small helpers on strings that the renderer shares.

use vstd::prelude::*;
use vstd::string::*;

verus! {

/// Appends one character to a string.
///
/// Stands for `String::push` of the standard library: afterwards the string
/// holds its former characters followed by `c`.
#[verifier::external_body]
pub(crate) fn push_char(out: &mut String, c: char)
    ensures
        final(out)@ == old(out)@.push(c),
{
    out.push(c)
}

/// Whether `c` occurs in `s`.
pub fn contains_char(s: &str, c: char) -> (found: bool)
    ensures
        found == s@.contains(c),
{
    let mut found = false;
    for x in it: s.chars()
        invariant
            it.seq() == s@,
            found == s@.take(it.index() as int).contains(c),
    {
        proof {
            let i = it.index() as int;
            assert(s@.take(i + 1) =~= s@.take(i).push(x));
            if s@.take(i).contains(c) {
                let j = choose|j: int| 0 <= j < i && s@.take(i)[j] == c;
                assert(s@.take(i + 1)[j] == c);
            }
            if x == c {
                assert(s@.take(i + 1)[i] == c);
            }
        }
        if x == c {
            found = true;
        }
    }
    proof {
        assert(s@.take(s@.len() as int) =~= s@);
    }
    found
}

/// Whether `s` ends with `em`, the unit of a length relative to the font
/// size.
pub open spec fn ends_with_em(s: Seq<char>) -> bool {
    s.len() >= 2 && s[s.len() - 2] == 'e' && s[s.len() - 1] == 'm'
}

/// Whether `s` ends with the two characters `em`.
pub fn has_em_suffix(s: &str) -> (r: bool)
    ensures
        r == ends_with_em(s@),
{
    let mut before_last: Option<char> = None;
    let mut last: Option<char> = None;
    for x in it: s.chars()
        invariant
            it.seq() == s@,
            last == (if it.index() >= 1 { Some(s@[it.index() - 1]) } else { None }),
            before_last == (if it.index() >= 2 { Some(s@[it.index() - 2]) } else { None }),
    {
        before_last = last;
        last = Some(x);
    }
    match (before_last, last) {
        (Some(a), Some(b)) => a == 'e' && b == 'm',
        _ => false,
    }
}

/// An element around one piece of markup: the opening tag, the piece, the
/// closing tag.
pub(crate) fn element(open: &str, body: &str, close: &str) -> (r: String)
    ensures
        r@ == open@ + body@ + close@,
{
    let mut r = String::from_str(open);
    r.append(body);
    r.append(close);
    r
}

/// An element around two pieces of markup.
pub(crate) fn wrap2(open: &str, first: &str, second: &str, close: &str) -> (r: String)
    ensures
        r@ == open@ + first@ + second@ + close@,
{
    let mut r = String::from_str(open);
    r.append(first);
    r.append(second);
    r.append(close);
    r
}

/// An element around three pieces of markup.
pub(crate) fn wrap3(open: &str, first: &str, second: &str, third: &str, close: &str) -> (r:
    String)
    ensures
        r@ == open@ + first@ + second@ + third@ + close@,
{
    let mut r = String::from_str(open);
    r.append(first);
    r.append(second);
    r.append(third);
    r.append(close);
    r
}

} // verus!
