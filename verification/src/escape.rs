//! Escaping of text for use inside markup.

use vstd::prelude::*;
use vstd::string::*;

verus! {

/// What one character becomes: the five characters that markup reserves turn
/// into their named entities, every other character stays.
pub open spec fn escaped_char(c: char) -> Seq<char> {
    if c == '&' {
        "&amp;"@
    } else if c == '<' {
        "&lt;"@
    } else if c == '>' {
        "&gt;"@
    } else if c == '"' {
        "&quot;"@
    } else if c == '\'' {
        "&apos;"@
    } else {
        seq![c]
    }
}

/// The escaped form of a text: the escaped forms of its characters, in order.
pub open spec fn escaped(s: Seq<char>) -> Seq<char>
    decreases s.len(),
{
    if s.len() == 0 {
        Seq::empty()
    } else {
        escaped(s.drop_last()) + escaped_char(s.last())
    }
}

/// Whether the characters that start at `at` are one of the five entities.
pub open spec fn entity_at(s: Seq<char>, at: int) -> bool {
    ||| starts_at(s, at, "&amp;"@)
    ||| starts_at(s, at, "&lt;"@)
    ||| starts_at(s, at, "&gt;"@)
    ||| starts_at(s, at, "&quot;"@)
    ||| starts_at(s, at, "&apos;"@)
}

/// Whether `part` stands in `s` from position `at` on.
pub open spec fn starts_at(s: Seq<char>, at: int, part: Seq<char>) -> bool {
    0 <= at && at + part.len() <= s.len() && s.subrange(at, at + part.len()) == part
}

/// Escapes `& < > " '` in `text` as named entities.
pub fn escape_helper(text: &str) -> (res: String)
    ensures
        res@ == escaped(text@),
{
    let mut res = String::new();
    for c in it: text.chars()
        invariant
            it.seq() == text@,
            res@ == escaped(text@.take(it.index() as int)),
    {
        proof {
            let i = it.index() as int;
            assert(text@.take(i + 1).drop_last() =~= text@.take(i));
        }
        if c == '&' {
            res.append("&amp;");
        } else if c == '<' {
            res.append("&lt;");
        } else if c == '>' {
            res.append("&gt;");
        } else if c == '"' {
            res.append("&quot;");
        } else if c == '\'' {
            res.append("&apos;");
        } else {
            push_char_of(&mut res, c);
        }
    }
    proof {
        assert(text@.take(text@.len() as int) =~= text@);
    }
    res
}

fn push_char_of(out: &mut String, c: char)
    ensures
        final(out)@ == old(out)@ + seq![c],
{
    crate::text::push_char(out, c);
    proof {
        assert(old(out)@.push(c) =~= old(out)@ + seq![c]);
    }
}

/// Escaped text is free of `<`, `>`, `"` and `'`, and every `&` in it opens
/// one of the five named entities.
pub proof fn lemma_escaped_is_markup_free(s: Seq<char>)
    ensures
        forall|i: int|
            0 <= i < escaped(s).len() ==> {
                let c = #[trigger] escaped(s)[i];
                &&& c != '<'
                &&& c != '>'
                &&& c != '"'
                &&& c != '\''
                &&& (c == '&' ==> entity_at(escaped(s), i))
            },
    decreases s.len(),
{
    reveal_strlit("&amp;");
    reveal_strlit("&lt;");
    reveal_strlit("&gt;");
    reveal_strlit("&quot;");
    reveal_strlit("&apos;");
    if s.len() > 0 {
        lemma_escaped_is_markup_free(s.drop_last());
        let head = escaped(s.drop_last());
        let tail = escaped_char(s.last());
        let all = escaped(s);
        assert(all == head + tail);
        assert forall|i: int| 0 <= i < all.len() implies {
            let c = #[trigger] all[i];
            &&& c != '<'
            &&& c != '>'
            &&& c != '"'
            &&& c != '\''
            &&& (c == '&' ==> entity_at(all, i))
        } by {
            if i < head.len() {
                assert(all[i] == head[i]);
                if head[i] == '&' {
                    assert(entity_at(head, i));
                    lemma_starts_at_prefix(head, tail, i, "&amp;"@);
                    lemma_starts_at_prefix(head, tail, i, "&lt;"@);
                    lemma_starts_at_prefix(head, tail, i, "&gt;"@);
                    lemma_starts_at_prefix(head, tail, i, "&quot;"@);
                    lemma_starts_at_prefix(head, tail, i, "&apos;"@);
                }
            } else {
                assert(all[i] == tail[i - head.len()]);
                if all[i] == '&' {
                    assert(i == head.len());
                    assert(all.subrange(i, i + tail.len()) =~= tail);
                }
            }
        }
    }
}

/// Escaping goes character by character: the escaped form of two texts in
/// a row is the escaped form of the first followed by that of the second.
pub proof fn lemma_escaped_distributes(first: Seq<char>, second: Seq<char>)
    ensures
        escaped(first + second) == escaped(first) + escaped(second),
    decreases second.len(),
{
    if second.len() == 0 {
        assert(first + second =~= first);
        assert(escaped(first) + escaped(second) =~= escaped(first));
    } else {
        lemma_escaped_distributes(first, second.drop_last());
        assert((first + second).drop_last() =~= first + second.drop_last());
        assert((first + second).last() == second.last());
        assert(escaped(first) + escaped(second.drop_last()) + escaped_char(second.last())
            =~= escaped(first) + (escaped(second.drop_last()) + escaped_char(second.last())));
    }
}

proof fn lemma_starts_at_prefix(head: Seq<char>, tail: Seq<char>, at: int, part: Seq<char>)
    ensures
        starts_at(head, at, part) ==> starts_at(head + tail, at, part),
{
    if starts_at(head, at, part) {
        assert((head + tail).subrange(at, at + part.len()) =~= head.subrange(at, at + part.len()));
    }
}

} // verus!
