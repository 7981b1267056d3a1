//! Lists in texts: where each item of a list stands in the text that lists it.

use crate::text::{has_substring, joined, occurs_at};
use vstd::prelude::*;

verus! {

/// Whether `text` is the items one after the other, the one at `i` from
/// `starts[i]` on, with the separator between each two and nothing else.
pub open spec fn lists_at(
    text: Seq<char>,
    items: Seq<Seq<char>>,
    separator: Seq<char>,
    starts: Seq<int>,
) -> bool {
    &&& starts.len() == items.len()
    &&& items.len() == 0 ==> text.len() == 0
    &&& items.len() > 0 ==> starts[0] == 0 && starts.last() + items.last().len() == text.len()
    &&& forall|i: int|
        #![trigger items[i]]
        #![trigger starts[i]]
        0 <= i < items.len() ==> 0 <= starts[i] && starts[i] + items[i].len()
            <= text.len() && text.subrange(starts[i], starts[i] + items[i].len()) == items[i]
    &&& forall|i: int|
        0 <= i < items.len() - 1 ==> starts[i + 1] == starts[i] + (#[trigger] items[i]).len()
            + separator.len() && starts[i + 1] <= text.len() && text.subrange(
            starts[i] + items[i].len(),
            starts[i + 1],
        ) == separator
}

/// Whether `text` lists the items: all of them, in order, once each, with the
/// separator between each two and nothing else.
#[verifier::opaque]
pub open spec fn lists(text: Seq<char>, items: Seq<Seq<char>>, separator: Seq<char>) -> bool {
    exists|starts: Seq<int>| lists_at(text, items, separator, starts)
}

/// A text that lists one item is that item.
pub proof fn lists_one(item: Seq<char>, separator: Seq<char>)
    ensures
        lists(item, seq![item], separator),
{
    reveal(lists);
    assert(item.subrange(0, item.len() as int) =~= item);
    assert(lists_at(item, seq![item], separator, seq![0int]));
}

/// One more item stands behind a list and a separator.
pub proof fn lists_push(
    text: Seq<char>,
    items: Seq<Seq<char>>,
    separator: Seq<char>,
    item: Seq<char>,
)
    requires
        lists(text, items, separator),
    ensures
        lists(
            if items.len() == 0 {
                item
            } else {
                text + separator + item
            },
            items.push(item),
            separator,
        ),
{
    reveal(lists);
    if items.len() == 0 {
        lists_one(item, separator);
        assert(items.push(item) =~= seq![item]);
    } else {
        let starts = choose|starts: Seq<int>| lists_at(text, items, separator, starts);
        let n = items.len() as int;
        let whole = text + separator + item;
        let all = items.push(item);
        let places = starts.push(text.len() as int + separator.len());
        assert forall|i: int|
            #![trigger all[i]]
            #![trigger places[i]]
            0 <= i < all.len() implies 0 <= places[i] && places[i] + all[i].len() <= whole.len() && whole.subrange(
            places[i],
            places[i] + all[i].len(),
        ) == all[i] by {
            if i < n {
                assert(all[i] == items[i]);
                assert(whole.subrange(starts[i], starts[i] + items[i].len()) =~= text.subrange(
                    starts[i],
                    starts[i] + items[i].len(),
                ));
            } else {
                assert(whole.subrange(places[n], places[n] + item.len()) =~= item);
            }
        }
        assert forall|i: int| 0 <= i < all.len() - 1 implies places[i + 1] == places[i] + (
        #[trigger] all[i]).len() + separator.len() && places[i + 1] <= whole.len()
            && whole.subrange(places[i] + all[i].len(), places[i + 1]) == separator by {
            assert(all[i] == items[i]);
            if i < n - 1 {
                assert(whole.subrange(starts[i] + items[i].len(), starts[i + 1])
                    =~= text.subrange(starts[i] + items[i].len(), starts[i + 1]));
            } else {
                assert(items[i] == items.last());
                assert(whole.subrange(text.len() as int, text.len() as int + separator.len())
                    =~= separator);
            }
        }
        assert(places[0] == 0);
        assert(places.last() == text.len() + separator.len());
        assert(all.last() == item);
        assert(lists_at(whole, all, separator, places));
    }
}

/// Joined texts list their parts.
pub proof fn joined_lists(parts: Seq<Seq<char>>, separator: Seq<char>)
    ensures
        lists(joined(parts, separator), parts, separator),
    decreases parts.len(),
{
    reveal(lists);
    if parts.len() == 0 {
        assert(lists_at(joined(parts, separator), parts, separator, Seq::empty()));
    } else {
        let before = parts.drop_last();
        joined_lists(before, separator);
        lists_push(joined(before, separator), before, separator, parts.last());
        assert(before.push(parts.last()) =~= parts);
    }
}

/// One more item stands right behind a list without a separator.
pub proof fn lists_grow(text: Seq<char>, items: Seq<Seq<char>>, item: Seq<char>)
    requires
        lists(text, items, Seq::empty()),
    ensures
        lists(text + item, items.push(item), Seq::empty()),
{
    reveal(lists);
    lists_push(text, items, Seq::empty(), item);
    if items.len() == 0 {
        assert(text + item =~= item);
    } else {
        assert(text + Seq::<char>::empty() + item =~= text + item);
    }
}

/// Nothing is listed by an empty text.
pub proof fn lists_nothing()
    ensures
        lists(Seq::empty(), Seq::empty(), Seq::empty()),
{
    reveal(lists);
    assert(lists_at(Seq::empty(), Seq::empty(), Seq::empty(), Seq::empty()));
}

/// Every item of a list stands in the text.
pub proof fn listed_item_stands_in_the_text(
    text: Seq<char>,
    items: Seq<Seq<char>>,
    separator: Seq<char>,
    i: int,
)
    requires
        lists(text, items, separator),
        0 <= i < items.len(),
    ensures
        has_substring(text, items[i]),
{
    reveal(lists);
    let starts = choose|starts: Seq<int>| lists_at(text, items, separator, starts);
    assert(occurs_at(text, items[i], starts[i]));
}

/// Arguments with their types, each name behind a prefix, in order and with a
/// comma between each two.
pub open spec fn declared_text(prefix: Seq<char>, args: Seq<(Seq<char>, Seq<char>)>) -> Seq<char> {
    joined(Seq::new(args.len(), |i: int| prefix + args[i].0 + ": "@ + args[i].1), ", "@)
}

/// The names of arguments, each behind a prefix, in order and with a comma
/// between each two.
pub open spec fn named_text(prefix: Seq<char>, args: Seq<(Seq<char>, Seq<char>)>) -> Seq<char> {
    joined(Seq::new(args.len(), |i: int| prefix + args[i].0), ", "@)
}

/// A text of declared arguments has them all, in order, once each.
pub proof fn declared_text_lists(prefix: Seq<char>, args: Seq<(Seq<char>, Seq<char>)>)
    ensures
        lists(
            declared_text(prefix, args),
            Seq::new(args.len(), |i: int| prefix + args[i].0 + ": "@ + args[i].1),
            ", "@,
        ),
{
    joined_lists(
        Seq::new(args.len(), |i: int| prefix + args[i].0 + ": "@ + args[i].1),
        ", "@,
    );
}

/// A text of names has them all, in order, once each.
pub proof fn named_text_lists(prefix: Seq<char>, args: Seq<(Seq<char>, Seq<char>)>)
    ensures
        lists(
            named_text(prefix, args),
            Seq::new(args.len(), |i: int| prefix + args[i].0),
            ", "@,
        ),
{
    joined_lists(Seq::new(args.len(), |i: int| prefix + args[i].0), ", "@);
}

} // verus!
