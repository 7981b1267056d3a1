//! Facts about sequences.

use vstd::prelude::*;

verus! {

/// A filtered sequence has those elements that pass the filter.
pub proof fn filter_contains<A>(s: Seq<A>, pred: spec_fn(A) -> bool, a: A)
    ensures
        s.filter(pred).contains(a) <==> s.contains(a) && pred(a),
    decreases s.len(),
{
    reveal(Seq::filter);
    if s.len() > 0 {
        let before = s.drop_last().filter(pred);
        filter_contains(s.drop_last(), pred, a);
        assert(s =~= s.drop_last().push(s.last()));
        push_contains(s.drop_last(), s.last(), a);
        push_contains(before, s.last(), a);
    }
}

/// A sequence with one more element has that element and those before.
pub proof fn push_contains<A>(s: Seq<A>, last: A, a: A)
    ensures
        s.push(last).contains(a) <==> s.contains(a) || last == a,
{
    if s.contains(a) {
        let i = choose|i: int| 0 <= i < s.len() && s[i] == a;
        assert(s.push(last)[i] == a);
    }
    if last == a {
        assert(s.push(last)[s.len() as int] == a);
    }
    if s.push(last).contains(a) && last != a {
        let i = choose|i: int| 0 <= i < s.push(last).len() && s.push(last)[i] == a;
        assert(s[i] == a);
    }
}

/// What stands in one of three adjoining sequences stands in the whole.
pub proof fn part_is_substring(before: Seq<char>, part: Seq<char>, behind: Seq<char>)
    ensures
        crate::text::has_substring(before + part + behind, part),
{
    let whole = before + part + behind;
    assert(whole.subrange(before.len() as int, before.len() as int + part.len()) =~= part);
    assert(crate::text::occurs_at(whole, part, before.len() as int));
}

/// What stands in a text stands in the text with more before it.
pub proof fn substring_behind(before: Seq<char>, part: Seq<char>, pattern: Seq<char>)
    requires
        crate::text::has_substring(part, pattern),
    ensures
        crate::text::has_substring(before + part, pattern),
{
    let i = choose|i: int| crate::text::occurs_at(part, pattern, i);
    let whole = before + part;
    let at = before.len() as int + i;
    assert(whole.subrange(at, at + pattern.len()) =~= part.subrange(i, i + pattern.len()));
    assert(crate::text::occurs_at(whole, pattern, at));
}

/// What stands in a text stands in the text with more behind it.
pub proof fn substring_before(part: Seq<char>, behind: Seq<char>, pattern: Seq<char>)
    requires
        crate::text::has_substring(part, pattern),
    ensures
        crate::text::has_substring(part + behind, pattern),
{
    let i = choose|i: int| crate::text::occurs_at(part, pattern, i);
    let whole = part + behind;
    assert(whole.subrange(i, i + pattern.len()) =~= part.subrange(i, i + pattern.len()));
    assert(crate::text::occurs_at(whole, pattern, i));
}

} // verus!
