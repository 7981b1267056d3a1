//! How the names of generated items follow from the names of traits and
//! methods.

use crate::text::to_chars;
use vstd::prelude::*;

verus! {

/// Whether a character is ASCII.
pub open spec fn is_ascii_char(c: char) -> bool {
    (c as u32) < 128
}

/// Whether all characters of a text are ASCII.
pub open spec fn is_ascii_text(s: Seq<char>) -> bool {
    forall|i: int| 0 <= i < s.len() ==> is_ascii_char(#[trigger] s[i])
}

/// The lowercase equivalent of an ASCII character.
pub open spec fn ascii_lower(c: char) -> char {
    if 'A' <= c <= 'Z' {
        ((c as u32) + 32) as char
    } else {
        c
    }
}

/// The uppercase equivalent of an ASCII character.
pub open spec fn ascii_upper(c: char) -> char {
    if 'a' <= c <= 'z' {
        ((c as u32) - 32) as char
    } else {
        c
    }
}

/// What `char::is_uppercase` gives for a character beyond ASCII.
pub uninterp spec fn unicode_is_uppercase(c: char) -> bool;

/// What `char::is_whitespace` gives for a character beyond ASCII.
pub uninterp spec fn unicode_is_whitespace(c: char) -> bool;

/// What `char::to_lowercase` gives for a character beyond ASCII.
pub uninterp spec fn unicode_lower(c: char) -> Seq<char>;

/// What `char::to_uppercase` gives for a character beyond ASCII.
pub uninterp spec fn unicode_upper(c: char) -> Seq<char>;

/// What `str::to_lowercase` gives for a text that is not all ASCII.
pub uninterp spec fn unicode_lowercase(s: Seq<char>) -> Seq<char>;

/// What `str::to_uppercase` gives for a text that is not all ASCII.
pub uninterp spec fn unicode_uppercase(s: Seq<char>) -> Seq<char>;

/// `char::is_uppercase`: of the ASCII characters, the capital letters.
#[verifier::external_body]
fn char_is_upper(c: char) -> (upper: bool)
    ensures
        upper == if is_ascii_char(c) {
            'A' <= c <= 'Z'
        } else {
            unicode_is_uppercase(c)
        },
{
    c.is_uppercase()
}

/// `char::is_whitespace`: of the ASCII characters, the space and the five
/// control characters from the tab to the carriage return.
#[verifier::external_body]
pub(crate) fn char_is_space(c: char) -> (space: bool)
    ensures
        space == if is_ascii_char(c) {
            c == ' ' || 9 <= c as u32 <= 13
        } else {
            unicode_is_whitespace(c)
        },
{
    c.is_whitespace()
}

/// `char::to_lowercase`: one or more characters, of a capital ASCII letter the
/// small one, of any other ASCII character itself.
#[verifier::external_body]
fn char_to_lower(c: char) -> (lower: Vec<char>)
    ensures
        lower@.len() > 0,
        lower@ == if is_ascii_char(c) {
            seq![ascii_lower(c)]
        } else {
            unicode_lower(c)
        },
{
    c.to_lowercase().collect()
}

/// `char::to_uppercase`: one or more characters, of a small ASCII letter the
/// capital one, of any other ASCII character itself.
#[verifier::external_body]
fn char_to_upper(c: char) -> (upper: Vec<char>)
    ensures
        upper@.len() > 0,
        upper@ == if is_ascii_char(c) {
            seq![ascii_upper(c)]
        } else {
            unicode_upper(c)
        },
{
    c.to_uppercase().collect()
}

/// `str::to_lowercase`: an ASCII text character by character.
#[verifier::external_body]
pub(crate) fn lowercase(s: &str) -> (lower: String)
    ensures
        lower@ == if is_ascii_text(s@) {
            s@.map_values(|c: char| ascii_lower(c))
        } else {
            unicode_lowercase(s@)
        },
{
    s.to_lowercase()
}

/// `str::to_uppercase`: an ASCII text character by character.
#[verifier::external_body]
pub(crate) fn uppercase(s: &str) -> (upper: String)
    ensures
        upper@ == if is_ascii_text(s@) {
            s@.map_values(|c: char| ascii_upper(c))
        } else {
            unicode_uppercase(s@)
        },
{
    s.to_uppercase()
}

/// Whether a character is an uppercase letter.
pub open spec fn is_upper(c: char) -> bool {
    if is_ascii_char(c) {
        'A' <= c <= 'Z'
    } else {
        unicode_is_uppercase(c)
    }
}

/// Whether a character is white space.
pub open spec fn is_space(c: char) -> bool {
    if is_ascii_char(c) {
        c == ' ' || 9 <= c as u32 <= 13
    } else {
        unicode_is_whitespace(c)
    }
}

/// The first character of the lowercase equivalent of a character.
pub open spec fn lower_head(c: char) -> char {
    if is_ascii_char(c) {
        ascii_lower(c)
    } else {
        unicode_lower(c)[0]
    }
}

/// The first character of the uppercase equivalent of a character.
pub open spec fn upper_head(c: char) -> char {
    if is_ascii_char(c) {
        ascii_upper(c)
    } else {
        unicode_upper(c)[0]
    }
}

/// A text in lowercase.
pub open spec fn lowercased(s: Seq<char>) -> Seq<char> {
    if is_ascii_text(s) {
        s.map_values(|c: char| ascii_lower(c))
    } else {
        unicode_lowercase(s)
    }
}

/// A text in uppercase.
pub open spec fn uppercased(s: Seq<char>) -> Seq<char> {
    if is_ascii_text(s) {
        s.map_values(|c: char| ascii_upper(c))
    } else {
        unicode_uppercase(s)
    }
}

/// A name in snake case: every uppercase letter in lowercase, with an
/// underscore before it unless it is the first character.
pub open spec fn snake_case(s: Seq<char>) -> Seq<char>
    decreases s.len(),
{
    if s.len() == 0 {
        Seq::empty()
    } else {
        let before = snake_case(s.drop_last());
        if !is_upper(s.last()) {
            before.push(s.last())
        } else if s.len() == 1 {
            before.push(lower_head(s.last()))
        } else {
            before.push('_').push(lower_head(s.last()))
        }
    }
}

/// A name in Pascal case: without its underscores, the first character and
/// every one behind an underscore in uppercase.
pub open spec fn pascal_case(s: Seq<char>) -> Seq<char>
    decreases s.len(),
{
    if s.len() == 0 {
        Seq::empty()
    } else {
        let before = pascal_case(s.drop_last());
        if s.last() == '_' {
            before
        } else if s.len() == 1 || s[s.len() - 2] == '_' {
            before.push(upper_head(s.last()))
        } else {
            before.push(s.last())
        }
    }
}

/// Turns a name into snake case.
pub fn to_snake_case(s: &str) -> (result: String)
    ensures
        result@ == snake_case(s@),
{
    let chars = to_chars(s);
    let mut result = String::new();
    let mut i: usize = 0;
    while i < chars.len()
        invariant
            chars@ == s@,
            i <= chars@.len(),
            result@ == snake_case(s@.take(i as int)),
        decreases chars.len() - i,
    {
        let c = chars[i];
        proof {
            assert(s@.take(i + 1).drop_last() =~= s@.take(i as int));
        }
        if char_is_upper(c) {
            if i > 0 {
                result.push('_');
            }
            result.push(char_to_lower(c)[0]);
        } else {
            result.push(c);
        }
        i = i + 1;
    }
    assert(s@.take(i as int) =~= s@);
    result
}

/// Turns a name into Pascal case.
pub fn to_pascal_case(s: &str) -> (result: String)
    ensures
        result@ == pascal_case(s@),
{
    let chars = to_chars(s);
    let mut result = String::new();
    let mut capitalize_next = true;
    let mut i: usize = 0;
    while i < chars.len()
        invariant
            chars@ == s@,
            i <= chars@.len(),
            result@ == pascal_case(s@.take(i as int)),
            capitalize_next == (i == 0 || s@[i - 1] == '_'),
        decreases chars.len() - i,
    {
        let c = chars[i];
        proof {
            assert(s@.take(i + 1).drop_last() =~= s@.take(i as int));
        }
        if c == '_' {
            capitalize_next = true;
        } else if capitalize_next {
            result.push(char_to_upper(c)[0]);
            capitalize_next = false;
        } else {
            result.push(c);
        }
        i = i + 1;
    }
    assert(s@.take(i as int) =~= s@);
    result
}

/// A name in snake case has no capital letters, if it was ASCII.
pub proof fn snake_case_has_no_capitals(s: Seq<char>)
    requires
        is_ascii_text(s),
    ensures
        is_ascii_text(snake_case(s)),
        forall|i: int| 0 <= i < snake_case(s).len() ==> !('A' <= #[trigger] snake_case(s)[i] <= 'Z'),
    decreases s.len(),
{
    if s.len() > 0 {
        assert(is_ascii_char(s[s.len() - 1]));
        assert forall|i: int| 0 <= i < s.drop_last().len() implies is_ascii_char(
            #[trigger] s.drop_last()[i],
        ) by {
            assert(is_ascii_char(s[i]));
        }
        snake_case_has_no_capitals(s.drop_last());
    }
}

/// A name in Pascal case has no underscores, if it was ASCII.
pub proof fn pascal_case_has_no_underscores(s: Seq<char>)
    requires
        is_ascii_text(s),
    ensures
        is_ascii_text(pascal_case(s)),
        forall|i: int| 0 <= i < pascal_case(s).len() ==> #[trigger] pascal_case(s)[i] != '_',
    decreases s.len(),
{
    if s.len() > 0 {
        assert(is_ascii_char(s[s.len() - 1]));
        assert forall|i: int| 0 <= i < s.drop_last().len() implies is_ascii_char(
            #[trigger] s.drop_last()[i],
        ) by {
            assert(is_ascii_char(s[i]));
        }
        pascal_case_has_no_underscores(s.drop_last());
    }
}

/// A name without capital letters is its own snake case, so turning an ASCII
/// name into snake case twice changes nothing the second time.
pub proof fn snake_case_is_idempotent(s: Seq<char>)
    requires
        is_ascii_text(s),
    ensures
        snake_case(snake_case(s)) == snake_case(s),
{
    snake_case_has_no_capitals(s);
    snake_case_of_no_capitals(snake_case(s));
}

/// A name without capital letters is its own snake case.
proof fn snake_case_of_no_capitals(s: Seq<char>)
    requires
        is_ascii_text(s),
        forall|i: int| 0 <= i < s.len() ==> !('A' <= #[trigger] s[i] <= 'Z'),
    ensures
        snake_case(s) == s,
    decreases s.len(),
{
    if s.len() > 0 {
        let before = s.drop_last();
        assert(is_ascii_char(s[s.len() - 1]));
        assert(!('A' <= s[s.len() - 1] <= 'Z'));
        assert forall|i: int| 0 <= i < before.len() implies is_ascii_char(#[trigger] before[i])
            && !('A' <= before[i] <= 'Z') by {
            assert(is_ascii_char(s[i]));
            assert(!('A' <= s[i] <= 'Z'));
        }
        snake_case_of_no_capitals(before);
        assert(before.push(s.last()) =~= s);
    }
}

/// What is upper, lower and white in ASCII.
pub proof fn ascii_is_as_usual(c: char)
    requires
        (c as u32) < 128,
    ensures
        is_upper(c) <==> 'A' <= c <= 'Z',
        is_space(c) <==> c == ' ' || c == '\t' || c == '\n' || c as u32 == 11 || c as u32 == 12 || c
            == '\r',
        lower_head(c) as u32 == if 'A' <= c <= 'Z' {
            (c as u32 + 32) as u32
        } else {
            c as u32
        },
        upper_head(c) as u32 == if 'a' <= c <= 'z' {
            (c as u32 - 32) as u32
        } else {
            c as u32
        },
{
}

/// What is upper, lower and white beyond ASCII is so by Unicode.
pub proof fn other_characters_go_by_unicode(c: char, s: Seq<char>, i: int)
    requires
        c as u32 >= 128,
        0 <= i < s.len(),
        s[i] as u32 >= 128,
    ensures
        is_upper(c) == unicode_is_uppercase(c),
        is_space(c) == unicode_is_whitespace(c),
        lower_head(c) == unicode_lower(c)[0],
        upper_head(c) == unicode_upper(c)[0],
        lowercased(s) == unicode_lowercase(s),
        uppercased(s) == unicode_uppercase(s),
{
    assert(!is_ascii_char(s[i]));
}

/// An ASCII text in lowercase or in uppercase is as long, and has the small or
/// the capital letter at the place of each letter.
pub proof fn ascii_case_is_changed_letter_by_letter(s: Seq<char>, i: int)
    requires
        forall|k: int| 0 <= k < s.len() ==> (#[trigger] s[k] as u32) < 128,
        0 <= i < s.len(),
    ensures
        lowercased(s).len() == s.len(),
        uppercased(s).len() == s.len(),
        lowercased(s)[i] as u32 == if 'A' <= s[i] <= 'Z' {
            (s[i] as u32 + 32) as u32
        } else {
            s[i] as u32
        },
        uppercased(s)[i] as u32 == if 'a' <= s[i] <= 'z' {
            (s[i] as u32 - 32) as u32
        } else {
            s[i] as u32
        },
{
    assert(is_ascii_text(s));
}

/// The number of uppercase letters among the first `n` characters of a name but
/// the very first.
pub open spec fn later_capitals(s: Seq<char>, n: int) -> nat
    decreases n,
{
    if n <= 1 {
        0
    } else {
        later_capitals(s, n - 1) + if is_upper(s[n - 1]) {
            1nat
        } else {
            0nat
        }
    }
}

/// The count looks only at the characters that it counts.
proof fn later_capitals_of_prefix(s: Seq<char>, t: Seq<char>, n: int)
    requires
        n <= s.len(),
        n <= t.len(),
        forall|i: int| 0 <= i < n ==> s[i] == t[i],
    ensures
        later_capitals(s, n) == later_capitals(t, n),
    decreases n,
{
    if n > 1 {
        later_capitals_of_prefix(s, t, n - 1);
    }
}

/// A name in snake case has every character of the name in its order, uppercase
/// letters in lowercase, and one underscore more before each uppercase letter
/// but the very first character. It has nothing else.
pub proof fn snake_case_keeps_every_character(s: Seq<char>)
    ensures
        snake_case(s).len() == s.len() + later_capitals(s, s.len() as int),
        forall|i: int|
            0 <= i < s.len() ==> {
                let at = i + later_capitals(s, i + 1);
                &&& 0 <= at < snake_case(s).len()
                &&& snake_case(s)[at] == if is_upper(#[trigger] s[i]) {
                    lower_head(s[i])
                } else {
                    s[i]
                }
                &&& i > 0 && is_upper(s[i]) ==> snake_case(s)[at - 1] == '_'
            },
    decreases s.len(),
{
    if s.len() > 0 {
        let before = s.drop_last();
        let n = before.len() as int;
        snake_case_keeps_every_character(before);
        later_capitals_of_prefix(before, s, n);
        assert forall|i: int| 0 <= i < s.len() implies {
            let at = i + later_capitals(s, i + 1);
            &&& 0 <= at < snake_case(s).len()
            &&& snake_case(s)[at] == if is_upper(#[trigger] s[i]) {
                lower_head(s[i])
            } else {
                s[i]
            }
            &&& i > 0 && is_upper(s[i]) ==> snake_case(s)[at - 1] == '_'
        } by {
            if i < n {
                later_capitals_of_prefix(before, s, i + 1);
                assert(before[i] == s[i]);
            } else {
                assert(s[i] == s.last());
            }
        }
    }
}

/// The number of underscores among the first `n` characters of a name.
pub open spec fn underscores(s: Seq<char>, n: int) -> nat
    decreases n,
{
    if n <= 0 {
        0
    } else {
        underscores(s, n - 1) + if s[n - 1] == '_' {
            1nat
        } else {
            0nat
        }
    }
}

/// The count looks only at the characters that it counts.
proof fn underscores_of_prefix(s: Seq<char>, t: Seq<char>, n: int)
    requires
        n <= s.len(),
        n <= t.len(),
        forall|i: int| 0 <= i < n ==> s[i] == t[i],
    ensures
        underscores(s, n) == underscores(t, n),
        n >= 0 ==> underscores(s, n) <= n,
    decreases n,
{
    if n > 0 {
        underscores_of_prefix(s, t, n - 1);
    }
}

/// A name in Pascal case is shorter than the name by its underscores.
pub proof fn pascal_case_drops_the_underscores(s: Seq<char>)
    ensures
        pascal_case(s).len() + underscores(s, s.len() as int) == s.len(),
    decreases s.len(),
{
    if s.len() > 0 {
        pascal_case_drops_the_underscores(s.drop_last());
        underscores_of_prefix(s.drop_last(), s, s.len() - 1);
    }
}

/// A name in Pascal case has every character of the name but its underscores,
/// in their order, the first and every one behind an underscore in uppercase.
pub proof fn pascal_case_keeps_every_other_character(s: Seq<char>, i: int)
    requires
        0 <= i < s.len(),
        s[i] != '_',
    ensures
        0 <= i - underscores(s, i) < pascal_case(s).len(),
        pascal_case(s)[i - underscores(s, i)] == if i == 0 || s[i - 1] == '_' {
            upper_head(s[i])
        } else {
            s[i]
        },
    decreases s.len(),
{
    let before = s.drop_last();
    let n = before.len() as int;
    underscores_of_prefix(before, s, i);
    pascal_case_drops_the_underscores(before);
    if i < n {
        pascal_case_keeps_every_other_character(before, i);
    }
}

} // verus!
