//! The parts of a written size: where the number ends, what the number is
//! without its grouping, and where the unit starts.

use crate::decimal::{find_dot, lemma_find_dot};
use crate::text::{alphabetic, char_is_alphabetic, char_is_whitespace, whitespace};
use vstd::prelude::*;

verus! {

/// Whether a character ends the number of a written size: a letter, or
/// white space.
pub open spec fn ends_number(c: char) -> bool {
    alphabetic(c) || whitespace(c)
}

/// Where the number of a written size ends at or after `from`: at the first
/// letter or white space; at the end of the text where there is none.
pub open spec fn find_boundary(s: Seq<char>, from: int) -> int
    decreases s.len() - from,
{
    if from >= s.len() {
        s.len() as int
    } else if ends_number(s[from]) {
        from
    } else {
        find_boundary(s, from + 1)
    }
}

/// `find_boundary` gives the first letter or white space at or after `from`.
pub proof fn lemma_find_boundary(s: Seq<char>, from: int)
    requires
        0 <= from <= s.len(),
    ensures
        from <= find_boundary(s, from) <= s.len(),
        find_boundary(s, from) < s.len() ==> ends_number(s[find_boundary(s, from)]),
        forall|i: int| from <= i < find_boundary(s, from) ==> !ends_number(s[i]),
    decreases s.len() - from,
{
    if from < s.len() && !ends_number(s[from]) {
        lemma_find_boundary(s, from + 1);
    }
}

/// A text without its commas.
pub open spec fn without_commas(s: Seq<char>) -> Seq<char>
    decreases s.len(),
{
    if s.len() == 0 {
        Seq::<char>::empty()
    } else if s.last() == ',' {
        without_commas(s.drop_last())
    } else {
        without_commas(s.drop_last()).push(s.last())
    }
}

/// A number without its grouping: the commas before the first point are
/// taken out, and those behind it are left in.
pub open spec fn strip_grouping(s: Seq<char>) -> Seq<char> {
    without_commas(s.subrange(0, find_dot(s, 0))) + s.subrange(find_dot(s, 0), s.len() as int)
}

/// Where the text starts at or after `from`: at the first character that is
/// no white space; at the end where there is none.
pub open spec fn find_text(s: Seq<char>, from: int) -> int
    decreases s.len() - from,
{
    if from >= s.len() {
        s.len() as int
    } else if !whitespace(s[from]) {
        from
    } else {
        find_text(s, from + 1)
    }
}

/// `find_text` gives the first character at or after `from` that is no
/// white space.
pub proof fn lemma_find_text(s: Seq<char>, from: int)
    requires
        0 <= from <= s.len(),
    ensures
        from <= find_text(s, from) <= s.len(),
        find_text(s, from) < s.len() ==> !whitespace(s[find_text(s, from)]),
        forall|i: int| from <= i < find_text(s, from) ==> whitespace(s[i]),
    decreases s.len() - from,
{
    if from < s.len() && whitespace(s[from]) {
        lemma_find_text(s, from + 1);
    }
}

/// A text without the white space it starts with.
pub open spec fn trim_start(s: Seq<char>) -> Seq<char> {
    s.subrange(find_text(s, 0), s.len() as int)
}

/// A text without commas is left as it is.
pub proof fn lemma_without_commas(s: Seq<char>)
    requires
        forall|i: int| 0 <= i < s.len() ==> s[i] != ',',
    ensures
        without_commas(s) == s,
    decreases s.len(),
{
    if s.len() > 0 {
        lemma_without_commas(s.drop_last());
        assert(s.drop_last().push(s.last()) =~= s);
    }
}

/// Where the number of a written size ends.
pub(crate) fn boundary(s: &Vec<char>) -> (at: usize)
    ensures
        at == find_boundary(s@, 0),
        at <= s.len(),
{
    let mut i: usize = 0;
    while i < s.len()
        invariant
            i <= s.len(),
            find_boundary(s@, 0) == find_boundary(s@, i as int),
        decreases s.len() - i,
    {
        let c = s[i];
        if char_is_alphabetic(c) || char_is_whitespace(c) {
            return i;
        }
        i += 1;
    }
    i
}

/// The number of a written size, which ends at `end`, without its grouping.
pub(crate) fn number_text(s: &Vec<char>, end: usize) -> (number: Vec<char>)
    requires
        end <= s.len(),
    ensures
        number@ == strip_grouping(s@.subrange(0, end as int)),
{
    let ghost text = s@.subrange(0, end as int);
    let mut number: Vec<char> = Vec::new();
    let mut past_fraction = false;
    let ghost mut dot: int = 0;
    let mut i: usize = 0;
    proof {
        assert(text.subrange(0, 0) =~= Seq::<char>::empty());
    }
    while i < end
        invariant
            end <= s.len(),
            text == s@.subrange(0, end as int),
            i <= end,
            !past_fraction ==> find_dot(text, 0) == find_dot(text, i as int) && number@
                == without_commas(text.subrange(0, i as int)),
            past_fraction ==> 0 <= dot <= i && find_dot(text, 0) == dot && number@
                == without_commas(text.subrange(0, dot)) + text.subrange(dot, i as int),
        decreases end - i,
    {
        let c = s[i];
        proof {
            assert(text[i as int] == c);
            let head = text.subrange(0, i as int);
            let grown = text.subrange(0, i + 1);
            assert(grown.drop_last() =~= head);
            assert(grown.last() == c);
        }
        if c == '.' && !past_fraction {
            past_fraction = true;
            proof {
                dot = i as int;
                assert(text.subrange(dot, dot) =~= Seq::<char>::empty());
                assert(number@ =~= without_commas(text.subrange(0, dot)) + text.subrange(dot, dot));
            }
        }
        let ghost before = number@;
        if past_fraction || c != ',' {
            number.push(c);
        }
        proof {
            if past_fraction {
                assert(text.subrange(dot, i + 1) =~= text.subrange(dot, i as int).push(c));
                assert(number@ =~= without_commas(text.subrange(0, dot)) + text.subrange(
                    dot,
                    i + 1,
                ));
            }
        }
        i += 1;
    }
    proof {
        lemma_find_dot(text, i as int);
        if !past_fraction {
            assert(text.subrange(find_dot(text, 0), text.len() as int) =~= Seq::<char>::empty());
            assert(number@ =~= strip_grouping(text));
        }
    }
    number
}

/// The unit of a written size, which starts at `from` or behind the white
/// space there.
pub(crate) fn unit_text(s: &Vec<char>, from: usize) -> (unit: Vec<char>)
    requires
        from <= s.len(),
    ensures
        unit@ == trim_start(s@.subrange(from as int, s.len() as int)),
{
    let ghost tail = s@.subrange(from as int, s.len() as int);
    let mut i: usize = from;
    while i < s.len() && char_is_whitespace(s[i])
        invariant
            from <= i <= s.len(),
            tail == s@.subrange(from as int, s.len() as int),
            find_text(tail, 0) == find_text(tail, i - from),
        decreases s.len() - i,
    {
        proof {
            assert(tail[i - from] == s@[i as int]);
        }
        i += 1;
    }
    proof {
        if i < s.len() {
            assert(tail[i - from] == s@[i as int]);
        }
        assert(find_text(tail, 0) == i - from);
    }
    let ghost start = i;
    let mut unit: Vec<char> = Vec::new();
    while i < s.len()
        invariant
            from <= start <= i <= s.len(),
            tail == s@.subrange(from as int, s.len() as int),
            unit@ == tail.subrange(start - from, i - from),
        decreases s.len() - i,
    {
        unit.push(s[i]);
        i += 1;
        assert(unit@ =~= tail.subrange(start - from, i - from));
    }
    unit
}

} // verus!
