//! Recognition of numeric literals.
//!
//! A text is numeric if it follows this grammar, letters in either case:
//!
//! ```text
//! Number   ::= Sign? ( 'inf' | 'infinity' | 'nan' | Decimal )
//! Decimal  ::= ( Digit+ | Digit+ '.' Digit* | Digit* '.' Digit+ ) Exponent?
//! Exponent ::= 'e' Sign? Digit+
//! Sign     ::= [+-]
//! Digit    ::= [0-9]
//! ```
//!
//! Every decimal integer with an optional sign is such a text.

use vstd::prelude::*;
use vstd::string::*;

verus! {

/// Whether `c` is a decimal digit.
pub open spec fn is_digit(c: char) -> bool {
    '0' <= c <= '9'
}

/// The number of characters that a sign takes at position `at`: one if a
/// plus or a minus stands there, else none.
pub open spec fn sign_len(s: Seq<char>, at: int) -> int {
    if 0 <= at < s.len() && (s[at] == '+' || s[at] == '-') {
        1
    } else {
        0
    }
}

/// The position behind the digits that start at `from`: the first position
/// from there on that holds no digit, or the length of `s`.
pub open spec fn digits_end(s: Seq<char>, from: int) -> int
    decreases s.len() - from,
{
    if 0 <= from < s.len() && is_digit(s[from]) {
        digits_end(s, from + 1)
    } else {
        from
    }
}

/// The small letter for a capital Latin letter, any other character as it is.
pub open spec fn lowered(c: char) -> char {
    if 'A' <= c <= 'Z' {
        ((c as u32 + 32) as u32) as char
    } else {
        c
    }
}

/// Whether `s` from `from` to its end spells `word`, in either case.
pub open spec fn spells(s: Seq<char>, from: int, word: Seq<char>) -> bool {
    &&& s.len() - from == word.len()
    &&& forall|i: int| 0 <= i < word.len() ==> lowered(#[trigger] s[from + i]) == word[i]
}

/// Whether `s` from `from` to its end is one of the three names of a value
/// that is no finite number.
pub open spec fn is_special_value(s: Seq<char>, from: int) -> bool {
    spells(s, from, seq!['i', 'n', 'f']) || spells(s, from, seq!['n', 'a', 'n']) || spells(
        s,
        from,
        seq!['i', 'n', 'f', 'i', 'n', 'i', 't', 'y'],
    )
}

/// Whether `s` from `from` to its end is a decimal number without a sign:
/// digits with at most one point among them and at least one digit, then
/// possibly an exponent.
pub open spec fn is_decimal(s: Seq<char>, from: int) -> bool {
    let int_end = digits_end(s, from);
    let has_point = int_end < s.len() && s[int_end] == '.';
    let frac_start = if has_point {
        int_end + 1
    } else {
        int_end
    };
    let frac_end = digits_end(s, frac_start);
    let digits = (int_end - from) + (frac_end - frac_start);
    digits >= 1 && (frac_end == s.len() || is_exponent(s, frac_end))
}

/// Whether `s` from `from` to its end is an exponent: the letter `e`, a sign
/// or none, and at least one digit.
pub open spec fn is_exponent(s: Seq<char>, from: int) -> bool {
    let digits_start = from + 1 + sign_len(s, from + 1);
    &&& 0 <= from < s.len()
    &&& (s[from] == 'e' || s[from] == 'E')
    &&& digits_end(s, digits_start) > digits_start
    &&& digits_end(s, digits_start) == s.len()
}

/// Whether `s` is a numeric literal.
pub open spec fn is_number(s: Seq<char>) -> bool {
    let start = sign_len(s, 0);
    is_special_value(s, start) || is_decimal(s, start)
}

fn lower_char(c: char) -> (r: char)
    ensures
        r == lowered(c),
{
    if 'A' <= c && c <= 'Z' {
        let code: u32 = c as u32 + 32;
        let low: u8 = code as u8;
        low as char
    } else {
        c
    }
}

fn skip_digits(v: &Vec<char>, from: usize) -> (end: usize)
    requires
        from <= v.len(),
    ensures
        end == digits_end(v@, from as int),
        from <= end <= v.len(),
{
    let mut i: usize = from;
    while i < v.len() && '0' <= v[i] && v[i] <= '9'
        invariant
            from <= i <= v.len(),
            digits_end(v@, from as int) == digits_end(v@, i as int),
        decreases v.len() - i,
    {
        i = i + 1;
    }
    i
}

fn spells_word(v: &Vec<char>, from: usize, word: &Vec<char>) -> (r: bool)
    requires
        from <= v.len(),
    ensures
        r == spells(v@, from as int, word@),
{
    if v.len() - from != word.len() {
        return false;
    }
    let mut i: usize = 0;
    while i < word.len()
        invariant
            from <= v.len(),
            v.len() - from == word.len(),
            i <= word.len(),
            forall|j: int| 0 <= j < i ==> lowered(#[trigger] v@[from + j]) == word@[j],
        decreases word.len() - i,
    {
        if lower_char(v[from + i]) != word[i] {
            return false;
        }
        i = i + 1;
    }
    true
}

/// The characters of a text, one by one.
pub fn chars_of(s: &str) -> (v: Vec<char>)
    ensures
        v@ == s@,
{
    let mut v: Vec<char> = Vec::new();
    for c in it: s.chars()
        invariant
            it.seq() == s@,
            v@ == s@.take(it.index() as int),
    {
        proof {
            assert(s@.take(it.index() + 1) =~= s@.take(it.index() as int).push(c));
        }
        v.push(c);
    }
    proof {
        assert(s@.take(s@.len() as int) =~= s@);
    }
    v
}

/// Whether `text` is a numeric literal.
pub fn is_number_text(text: &str) -> (r: bool)
    ensures
        r == is_number(text@),
{
    let v = chars_of(text);
    let start: usize = if v.len() > 0 && (v[0] == '+' || v[0] == '-') {
        1
    } else {
        0
    };
    let inf = vec!['i', 'n', 'f'];
    let nan = vec!['n', 'a', 'n'];
    let infinity = vec!['i', 'n', 'f', 'i', 'n', 'i', 't', 'y'];
    proof {
        assert(inf@ =~= seq!['i', 'n', 'f']);
        assert(nan@ =~= seq!['n', 'a', 'n']);
        assert(infinity@ =~= seq!['i', 'n', 'f', 'i', 'n', 'i', 't', 'y']);
    }
    if spells_word(&v, start, &inf) || spells_word(&v, start, &nan) || spells_word(
        &v,
        start,
        &infinity,
    ) {
        return true;
    }
    let int_end = skip_digits(&v, start);
    let frac_start: usize = if int_end < v.len() && v[int_end] == '.' {
        int_end + 1
    } else {
        int_end
    };
    let frac_end = skip_digits(&v, frac_start);
    if (int_end - start) + (frac_end - frac_start) < 1 {
        return false;
    }
    if frac_end == v.len() {
        return true;
    }
    if v[frac_end] != 'e' && v[frac_end] != 'E' {
        return false;
    }
    let after_e: usize = frac_end + 1;
    let digits_start: usize = if after_e < v.len() && (v[after_e] == '+' || v[after_e] == '-') {
        after_e + 1
    } else {
        after_e
    };
    let end = skip_digits(&v, digits_start);
    end > digits_start && end == v.len()
}

/// A sign followed by digits and nothing else is a numeric literal.
pub proof fn lemma_integers_are_numbers(s: Seq<char>)
    requires
        s.len() > sign_len(s, 0),
        forall|i: int| sign_len(s, 0) <= i < s.len() ==> is_digit(#[trigger] s[i]),
    ensures
        is_number(s),
{
    let start = sign_len(s, 0);
    lemma_digits_run(s, start, s.len() as int);
    assert(digits_end(s, s.len() as int) == s.len());
}

proof fn lemma_digits_run(s: Seq<char>, from: int, to: int)
    requires
        0 <= from <= to <= s.len(),
        forall|i: int| from <= i < to ==> is_digit(#[trigger] s[i]),
    ensures
        digits_end(s, from) == digits_end(s, to),
    decreases to - from,
{
    if from < to {
        lemma_digits_run(s, from + 1, to);
    }
}

} // verus!
